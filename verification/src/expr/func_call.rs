//! Calls of functions that the environment holds.

use vstd::prelude::*;
use vstd::string::*;
use crate::env::Env;
use crate::expr::Expr;
use crate::grammar;
use crate::message;
use crate::semantics::{bind_args, eval_expr, evaluated, MAX_CALL_DEPTH};
use crate::syntax::SpecExpr;
use crate::utils;
use crate::utils::parsed;
use crate::val::Val;

verus! {

/// A call: the callee's name and the argument expressions.
#[derive(Debug, PartialEq)]
pub struct FuncCall {
    pub callee: String,
    pub params: Vec<Expr>,
}

impl FuncCall {
    /// The views of the argument expressions, in order.
    pub open spec fn params_view(&self) -> Seq<SpecExpr>
        decreases self,
    {
        Seq::new(
            self.params@.len(),
            |i: int|
                if 0 <= i < self.params@.len() {
                    self.params@[i].view()
                } else {
                    arbitrary()
                },
        )
    }
}

/// Takes the spaces at the start of `s`.
fn extract_spaces(s: &str) -> (r: (&str, &str))
    ensures
        (r.0@, r.1@) == grammar::spaces(s@),
        r.1@ + r.0@ == s@,
{
    let r = utils::take_while(
        |c: char| -> (b: bool)
            ensures
                b == grammar::is_space(c)
            {
                c == ' '
            },
        s,
    );
    proof {
        grammar::lemmas::lemma_run_unique(|c: char| grammar::is_space(c), s@, r.0@, r.1@);
    }
    r
}

impl FuncCall {
    /// Parses a call: the callee's identifier, optional spaces, and one
    /// argument expression or more, with optional spaces after each.
    pub fn new(s: &str) -> (r: Result<(&str, Self), String>)
        ensures
            parsed(r, grammar::func_call(s@)),
            r matches Ok((rest, _)) ==> rest@.len() < s@.len(),
        decreases s@.len(), 1nat,
    {
        proof {
            grammar::lemmas::lemma_func_call_consumes(s@);
        }
        let (after_callee, callee) = utils::extract_identifier(s)?;
        let (start, _) = extract_spaces(after_callee);
        proof {
            grammar::lemmas::lemma_identifier_consumes(s@);
            grammar::lemmas::lemma_run_not_longer(|c: char| grammar::is_space(c), after_callee@);
        }
        let parser = utils::item_parser(
            |input: &str| -> (r: Result<(&str, Expr), String>)
                requires
                    input@.len() < s@.len(),
                ensures
                    parsed(r, grammar::expr(input@)) && (r matches Ok((rest, _)) ==> rest@.len()
                        < input@.len())
                {
                    Expr::new(input)
                },
        );
        let ghost item = parser;
        let (end, params) = utils::sequence_error(parser, extract_spaces, start)?;
        let call = FuncCall { callee: String::from_str(callee), params };
        proof {
            assert forall|t: Seq<char>|
                match grammar::expr(t) {
                    Ok((after, first)) => #[trigger] grammar::args(t) == (
                        grammar::args(grammar::spaces(after).0).0,
                        seq![first] + grammar::args(grammar::spaces(after).0).1,
                    ),
                    Err(_) => grammar::args(t) == (t, Seq::<SpecExpr>::empty()),
                } by {
                grammar::lemmas::lemma_args_unfold(t);
            }
            utils::lemma_sequence_repeats(
                item,
                extract_spaces,
                start,
                call.params@,
                end,
                |t: Seq<char>| grammar::expr(t),
                |t: Seq<char>| grammar::spaces(t).0,
                |t: Seq<char>| grammar::args(t),
            );
            assert(call.params_view() =~= call.params@.map_values(|t: Expr| t@));
        }
        Ok((end, call))
    }

    /// Calls the function that `env` holds under the callee's name. The
    /// arguments are evaluated and bound in the new scope of the call, and
    /// the body is evaluated there; `env` stays as it is.
    pub fn eval(&self, env: &Env) -> (r: Result<Val, String>)
        ensures
            evaluated(
                r,
                eval_expr(
                    (SpecExpr::FuncCall { callee: self.callee@, params: self.params_view() }),
                    env@,
                ),
            ),
        decreases env@.calls_left(), self, 0nat,
    {
        let def = env.get_func(self.callee.as_str())?;
        let wanted = def.params.len();
        let got = self.params.len();
        if wanted != got {
            return Err(message::wrong_arity_message(wanted, got));
        }
        let mut child = match env.create_call_child() {
            Some(child) => child,
            None => {
                return Err(String::from_str("call depth limit exceeded"));
            },
        };
        let mut i: usize = 0;
        while i < got
            invariant
                i <= got,
                got == self.params@.len(),
                got == def.params@.len(),
                env@.funcs.contains_key(self.callee@),
                env@.funcs[self.callee@] == def@,
                env@.calls < MAX_CALL_DEPTH,
                child@.funcs == env@.funcs,
                child@.calls == env@.calls + 1,
                bind_args(self.params_view(), def@.params, 0, env@.enter_call()) == bind_args(
                    self.params_view(),
                    def@.params,
                    i as int,
                    child@,
                ),
            decreases got - i,
        {
            let val = self.params[i].eval(&child)?;
            child.store_binding(def.params[i].clone(), val);
            i += 1;
        }
        def.body.eval(&child)
    }
}

impl View for FuncCall {
    type V = (Seq<char>, Seq<SpecExpr>);

    open spec fn view(&self) -> (Seq<char>, Seq<SpecExpr>) {
        (self.callee@, self.params_view())
    }
}

} // verus!
