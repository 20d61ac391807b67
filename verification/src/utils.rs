//! Scanners: the functions on text that every parser is made of.
//!
//! A scanner takes the input and returns what is left of it together with
//! what it took, or the text of an error. None of them changes the input.
//!
//! Text is measured in characters, not bytes, and a `str` is cut at a
//! character's position by counting from its start: a scanner's cost grows
//! with the length of its input, whatever it takes.

use vstd::prelude::*;
use vstd::string::*;
use crate::grammar::Parsed;
use crate::grammar;
use crate::message;

verus! {

/// `r` is the executable form of the specified result `expected`.
pub open spec fn parsed<T: View>(r: Result<(&str, T), String>, expected: Parsed<T::V>) -> bool {
    match r {
        Ok((rest, item)) => expected == Ok::<(Seq<char>, T::V), Seq<char>>((rest@, item@)),
        Err(msg) => expected == Err::<(Seq<char>, T::V), Seq<char>>(msg@),
    }
}

/// `taken` and `rest` make up `s`, `accept` returned `true` for every
/// character of `taken`, and `rest` is empty or starts with a character for
/// which it returned `false`.
pub open spec fn split_where_rejected<F: Fn(char) -> bool>(
    accept: F,
    s: Seq<char>,
    rest: Seq<char>,
    taken: Seq<char>,
) -> bool {
    &&& taken + rest == s
    &&& forall|i: int| 0 <= i < taken.len() ==> accept.ensures((#[trigger] taken[i],), true)
    &&& rest.len() > 0 ==> accept.ensures((rest[0],), false)
}

/// Splits `s` before the first character that `accept` rejects, or at its
/// end: returns what is left, then what was taken.
pub fn take_while<F: Fn(char) -> bool>(accept: F, s: &str) -> (r: (&str, &str))
    requires
        forall|i: int| 0 <= i < s@.len() ==> accept.requires((#[trigger] s@[i],)),
    ensures
        split_where_rejected(accept, s@, r.0@, r.1@),
{
    broadcast use vstd::string::group_string_axioms;

    let len = s.unicode_len();
    let mut end: usize = 0;
    for c in chars: s.chars()
        invariant_except_break
            end == chars.index(),
        invariant
            chars.seq() == s@,
            len == s@.len(),
            end <= len,
            forall|i: int| 0 <= i < s@.len() ==> accept.requires((#[trigger] s@[i],)),
            forall|i: int| 0 <= i < end ==> accept.ensures((#[trigger] s@[i],), true),
        ensures
            end < len ==> accept.ensures((s@[end as int],), false),
    {
        if !accept(c) {
            break;
        }
        end += 1;
    }
    let taken = s.substring_char(0, end);
    let rest = s.substring_char(end, len);
    assert(taken@ + rest@ =~= s@);
    (rest, taken)
}

/// As [`take_while`], but fails with `error_msg` where nothing was taken.
pub fn take_while_error<F: Fn(char) -> bool>(accept: F, s: &str, error_msg: String) -> (r: Result<
    (&str, &str),
    String,
>)
    requires
        forall|i: int| 0 <= i < s@.len() ==> accept.requires((#[trigger] s@[i],)),
    ensures
        match r {
            Ok((rest, taken)) => taken@.len() > 0 && split_where_rejected(
                accept,
                s@,
                rest@,
                taken@,
            ),
            Err(msg) => msg == error_msg && split_where_rejected(
                accept,
                s@,
                s@,
                Seq::<char>::empty(),
            ),
        },
{
    let (rest, taken) = take_while(accept, s);
    if taken.is_empty() {
        Err(error_msg)
    } else {
        Ok((rest, taken))
    }
}

/// Starting at `start`, `parser` returned the items of `items` one after the
/// other, `separator` ran after each of them, and the last run of
/// `separator` left `end`.
pub open spec fn sequence_reaches<T, P, S>(
    parser: P,
    separator: S,
    start: &str,
    items: Seq<T>,
    end: &str,
) -> bool where
    P: for<'a> Fn(&'a str) -> Result<(&'a str, T), String>,
    S: for<'a> Fn(&'a str) -> (&'a str, &'a str),

    decreases items.len(),
{
    if items.len() == 0 {
        end == start
    } else {
        exists|before: &str, after: &str, skipped: &str|
            #![trigger
                parser.ensures((before,), Ok((after, items.last()))),
                separator.ensures((after,), (end, skipped)),
            ]
            {
                &&& sequence_reaches(parser, separator, start, items.drop_last(), before)
                &&& parser.ensures((before,), Ok((after, items.last())))
                &&& separator.ensures((after,), (end, skipped))
            }
    }
}

/// `parser` and `separator` can run on every input that is not longer than
/// `s`; `parser` leaves less than it was given whenever it succeeds, and
/// `separator` never leaves more.
pub open spec fn can_repeat<T, P, S>(parser: P, separator: S, s: &str) -> bool where
    P: for<'a> Fn(&'a str) -> Result<(&'a str, T), String>,
    S: for<'a> Fn(&'a str) -> (&'a str, &'a str),
 {
    &&& forall|input: &str| input@.len() <= s@.len() ==> #[trigger] parser.requires((input,))
    &&& forall|input: &str| input@.len() <= s@.len() ==> #[trigger] separator.requires((input,))
    &&& forall|input: &str, rest: &str, item: T| #[trigger]
        parser.ensures((input,), Ok((rest, item))) ==> rest@.len() < input@.len()
    &&& forall|input: &str, rest: &str, skipped: &str| #[trigger]
        separator.ensures((input,), (rest, skipped)) ==> rest@.len() <= input@.len()
}

/// `parser` returns what the specification function `item` gives,
/// `separator` leaves what `skip` gives, and `all` is the repetition of
/// `item`, with `skip` after each item, up to the first failure of `item`.
pub open spec fn repeats<T: View, P, S>(
    parser: P,
    separator: S,
    item: spec_fn(Seq<char>) -> Parsed<T::V>,
    skip: spec_fn(Seq<char>) -> Seq<char>,
    all: spec_fn(Seq<char>) -> (Seq<char>, Seq<T::V>),
) -> bool where
    P: for<'a> Fn(&'a str) -> Result<(&'a str, T), String>,
    S: for<'a> Fn(&'a str) -> (&'a str, &'a str),
 {
    &&& forall|input: &str, r: Result<(&str, T), String>| #[trigger]
        parser.ensures((input,), r) ==> parsed(r, item(input@))
    &&& forall|input: &str, rest: &str, skipped: &str| #[trigger]
        separator.ensures((input,), (rest, skipped)) ==> rest@ == skip(input@)
    &&& forall|s: Seq<char>|
        match item(s) {
            Ok((after, first)) => #[trigger] all(s) == (
                all(skip(after)).0,
                seq![first] + all(skip(after)).1,
            ),
            Err(_) => all(s) == (s, Seq::<T::V>::empty()),
        }
}

/// Along a run of [`sequence`], `all` of the start is the items returned so
/// far, followed by `all` of the place that was reached.
proof fn lemma_sequence_reaches<T: View, P, S>(
    parser: P,
    separator: S,
    start: &str,
    items: Seq<T>,
    end: &str,
    item: spec_fn(Seq<char>) -> Parsed<T::V>,
    skip: spec_fn(Seq<char>) -> Seq<char>,
    all: spec_fn(Seq<char>) -> (Seq<char>, Seq<T::V>),
) where
    P: for<'a> Fn(&'a str) -> Result<(&'a str, T), String>,
    S: for<'a> Fn(&'a str) -> (&'a str, &'a str),

    requires
        sequence_reaches(parser, separator, start, items, end),
        repeats(parser, separator, item, skip, all),
    ensures
        all(start@) == (all(end@).0, items.map_values(|t: T| t@) + all(end@).1),
    decreases items.len(),
{
    if items.len() > 0 {
        let (before, after, skipped) = choose|before: &str, after: &str, skipped: &str|
            #![trigger
                parser.ensures((before,), Ok((after, items.last()))),
                separator.ensures((after,), (end, skipped)),
            ]
            {
                &&& sequence_reaches(parser, separator, start, items.drop_last(), before)
                &&& parser.ensures((before,), Ok((after, items.last())))
                &&& separator.ensures((after,), (end, skipped))
            };
        lemma_sequence_reaches(
            parser,
            separator,
            start,
            items.drop_last(),
            before,
            item,
            skip,
            all,
        );
        // `item` gives the last item at `before`, so `all` unfolds there once.
        assert(parsed(Ok::<(&str, T), String>((after, items.last())), item(before@)));
        assert(items.drop_last().map_values(|t: T| t@) + (seq![items.last()@] + all(end@).1)
            =~= items.map_values(|t: T| t@) + all(end@).1);
    }
}

/// What [`sequence`] returns, read as a function of the input: where the
/// parsers do what `item` and `skip` say and `all` is their repetition, the
/// place where `parser` failed and the views of the items returned are `all`
/// of the start.
pub proof fn lemma_sequence_repeats<T: View, P, S>(
    parser: P,
    separator: S,
    start: &str,
    items: Seq<T>,
    end: &str,
    item: spec_fn(Seq<char>) -> Parsed<T::V>,
    skip: spec_fn(Seq<char>) -> Seq<char>,
    all: spec_fn(Seq<char>) -> (Seq<char>, Seq<T::V>),
) where
    P: for<'a> Fn(&'a str) -> Result<(&'a str, T), String>,
    S: for<'a> Fn(&'a str) -> (&'a str, &'a str),

    requires
        sequence_reaches(parser, separator, start, items, end),
        exists|msg: String| parser.ensures((end,), Err::<(&str, T), String>(msg)),
        repeats(parser, separator, item, skip, all),
    ensures
        all(start@) == (end@, items.map_values(|t: T| t@)),
{
    lemma_sequence_reaches(parser, separator, start, items, end, item, skip, all);
    // `item` fails at `end`, so `all` gives nothing more there.
    let msg = choose|msg: String| parser.ensures((end,), Err::<(&str, T), String>(msg));
    assert(parsed(Err::<(&str, T), String>(msg), item(end@)));
}

/// Gives a closure the type of a parser of items, so that it can be named
/// before it is handed to [`sequence`].
pub fn item_parser<T, P>(parser: P) -> (r: P) where
    P: for<'a> Fn(&'a str) -> Result<(&'a str, T), String>,

    ensures
        r == parser,
{
    parser
}

/// Runs `parser` again and again, and `separator` after each item, until
/// `parser` fails. Returns the items, possibly none, and what was left when
/// `parser` failed. Never fails itself.
pub fn sequence<T, P, S>(parser: P, separator: S, s: &str) -> (r: Result<
    (&str, Vec<T>),
    String,
>) where
    P: for<'a> Fn(&'a str) -> Result<(&'a str, T), String>,
    S: for<'a> Fn(&'a str) -> (&'a str, &'a str),

    requires
        can_repeat(parser, separator, s),
    ensures
        r matches Ok((end, items)) && sequence_reaches(parser, separator, s, items@, end) && (
        exists|msg: String| parser.ensures((end,), Err::<(&str, T), String>(msg))),
{
    let mut items: Vec<T> = Vec::new();
    let mut cur: &str = s;
    loop
        invariant
            cur@.len() <= s@.len(),
            can_repeat(parser, separator, s),
            sequence_reaches(parser, separator, s, items@, cur),
        decreases cur@.len(),
    {
        match parser(cur) {
            Ok((rest, item)) => {
                let ghost before = cur;
                let ghost earlier = items@;
                items.push(item);
                let (next, skipped) = separator(rest);
                cur = next;
                proof {
                    assert(items@.drop_last() =~= earlier);
                    assert(parser.ensures((before,), Ok((rest, items@.last()))));
                }
            },
            Err(_) => {
                return Ok((cur, items));
            },
        }
    }
}

/// As [`sequence`], but fails where there is no item.
pub fn sequence_error<T, P, S>(parser: P, separator: S, s: &str) -> (r: Result<
    (&str, Vec<T>),
    String,
>) where
    P: for<'a> Fn(&'a str) -> Result<(&'a str, T), String>,
    S: for<'a> Fn(&'a str) -> (&'a str, &'a str),

    requires
        can_repeat(parser, separator, s),
    ensures
        match r {
            Ok((end, items)) => items@.len() > 0 && sequence_reaches(
                parser,
                separator,
                s,
                items@,
                end,
            ) && (exists|msg: String| parser.ensures((end,), Err::<(&str, T), String>(msg))),
            Err(msg) => msg@ == message::expected_sequence() && (exists|msg: String|
                parser.ensures((s,), Err::<(&str, T), String>(msg))),
        },
{
    match sequence(parser, separator, s) {
        Ok((end, items)) => {
            if items.len() == 0 {
                Err(String::from_str("expected a sequence with more than one item"))
            } else {
                Ok((end, items))
            }
        },
        Err(msg) => Err(msg),
    }
}

/// Succeeds where `s` starts with `starting_text`, and returns what follows
/// it.
pub fn tag<'a, 'b>(starting_text: &'a str, s: &'b str) -> (r: Result<&'b str, String>)
    ensures
        match r {
            Ok(rest) => grammar::literal(starting_text@, s@) == Ok::<Seq<char>, Seq<char>>(rest@),
            Err(msg) => grammar::literal(starting_text@, s@) == Err::<Seq<char>, Seq<char>>(msg@),
        },
        r matches Ok(rest) ==> starting_text@ + rest@ == s@,
{
    let text_len = starting_text.unicode_len();
    let len = s.unicode_len();
    if text_len > len {
        return Err(message::expected_message(starting_text));
    }
    let mut i: usize = 0;
    while i < text_len
        invariant
            i <= text_len <= len,
            text_len == starting_text@.len(),
            len == s@.len(),
            forall|j: int| 0 <= j < i ==> starting_text@[j] == s@[j],
        decreases text_len - i,
    {
        if starting_text.get_char(i) != s.get_char(i) {
            return Err(message::expected_message(starting_text));
        }
        i += 1;
    }
    let rest = s.substring_char(text_len, len);
    Ok(rest)
}

/// Takes the digits at the start of `s`; fails where there is none.
pub fn extract_digits(s: &str) -> (r: Result<(&str, &str), String>)
    ensures
        parsed(r, grammar::digits(s@)),
        r matches Ok((rest, taken)) ==> taken@.len() > 0 && taken@ + rest@ == s@,
{
    let r = take_while_error(
        |c: char| -> (b: bool)
            ensures
                b == grammar::is_digit(c)
            {
                '0' <= c && c <= '9'
            },
        s,
        String::from_str("expected digits"),
    );
    proof {
        let accept = |c: char| grammar::is_digit(c);
        match r {
            Ok((rest, taken)) => grammar::lemmas::lemma_run_unique(accept, s@, rest@, taken@),
            Err(_) => grammar::lemmas::lemma_run_unique(accept, s@, s@, Seq::<char>::empty()),
        }
    }
    r
}

/// Takes the spaces, newlines and tabs at the start of `s`.
pub fn extract_whitespace(s: &str) -> (r: (&str, &str))
    ensures
        (r.0@, r.1@) == grammar::whitespace(s@),
        r.1@ + r.0@ == s@,
{
    let r = take_while(
        |c: char| -> (b: bool)
            ensures
                b == grammar::is_whitespace(c)
            {
                c == ' ' || c == '\n' || c == '\t'
            },
        s,
    );
    proof {
        grammar::lemmas::lemma_run_unique(|c: char| grammar::is_whitespace(c), s@, r.0@, r.1@);
    }
    r
}

/// Takes the spaces, newlines and tabs at the start of `s`; fails where
/// there is none.
pub fn extract_whitespace_error(s: &str) -> (r: Result<(&str, &str), String>)
    ensures
        parsed(r, grammar::required_whitespace(s@)),
        r matches Ok((rest, taken)) ==> taken@.len() > 0 && taken@ + rest@ == s@,
{
    let r = take_while_error(
        |c: char| -> (b: bool)
            ensures
                b == grammar::is_whitespace(c)
            {
                c == ' ' || c == '\n' || c == '\t'
            },
        s,
        String::from_str("expected a whitespace"),
    );
    proof {
        let accept = |c: char| grammar::is_whitespace(c);
        match r {
            Ok((rest, taken)) => grammar::lemmas::lemma_run_unique(accept, s@, rest@, taken@),
            Err(_) => grammar::lemmas::lemma_run_unique(accept, s@, s@, Seq::<char>::empty()),
        }
    }
    r
}

/// Takes the identifier at the start of `s`: an ASCII letter and the ASCII
/// letters and digits that follow it. Fails where `s` does not start with a
/// letter.
pub fn extract_identifier(s: &str) -> (r: Result<(&str, &str), String>)
    ensures
        parsed(r, grammar::identifier(s@)),
        r matches Ok((rest, taken)) ==> taken@.len() > 0 && taken@ + rest@ == s@,
{
    let input_starts_with_alphabetic = !s.is_empty() && {
        let c = s.get_char(0);
        ('a' <= c && c <= 'z') || ('A' <= c && c <= 'Z')
    };
    if input_starts_with_alphabetic {
        let r = take_while(
            |c: char| -> (b: bool)
                ensures
                    b == grammar::is_alphanumeric(c)
                {
                    ('a' <= c && c <= 'z') || ('A' <= c && c <= 'Z') || ('0' <= c && c <= '9')
                },
            s,
        );
        proof {
            grammar::lemmas::lemma_run_unique(|c: char| grammar::is_alphanumeric(c), s@, r.0@, r.1@);
        }
        Ok(r)
    } else {
        Err(String::from_str("expected identifier"))
    }
}

} // verus!
