//! The properties the library is built around, stated and proved over the
//! semantics. Each holds for every input its statement admits, not only
//! for the cases the tests try.
use vstd::prelude::*;

use crate::context::ContextV;
use crate::node::{NodeV, Operation, Value};
use crate::semantics::{ErrV, EvalOut, spec_eval, spec_operation, spec_truthy};

verus! {

/// A relational or logical operator applied to one boolean and one number
/// fails with the mixed-types error, whichever side holds which: a
/// relational result chained into another relational operator can never
/// meet a number quietly.
pub proof fn lemma_mixed_operands_rejected(op: Operation, l: Value, r: Value)
    requires
        !op.is_arith(),
        (l is Bool && r is Number) || (l is Number && r is Bool),
    ensures
        spec_operation(op, l, r) == Result::<Value, ErrV>::Err(ErrV::MixedTypes),
{
}

/// A call with the wrong argument count stops with the arity error before
/// anything runs: no argument is evaluated, the body is not entered, and
/// the environment comes back unchanged.
pub proof fn lemma_wrong_arity_rejected(
    name: Seq<char>,
    args: Seq<NodeV>,
    ctx: ContextV,
    fuel: nat,
)
    requires
        fuel > 0,
        ctx.functions.contains_key(name),
        ctx.functions[name].parameters.len() != args.len(),
    ensures
        spec_eval(NodeV::Call(name, args), ctx, fuel) == (EvalOut {
            res: Err(
                ErrV::ArityMismatch(name, ctx.functions[name].parameters.len(), args.len()),
            ),
            ctx,
        }),
{
}

/// A call, whatever it computes and however it ends, leaves the caller's
/// environment exactly as it was: it runs against a copy, and the copy is
/// discarded. An assignment inside a function body is never visible to
/// the caller after the call returns.
pub proof fn lemma_call_isolation(name: Seq<char>, args: Seq<NodeV>, ctx: ContextV, fuel: nat)
    ensures
        spec_eval(NodeV::Call(name, args), ctx, fuel).ctx == ctx,
{
}

/// A `while` whose condition does not hold by the truthiness rule runs
/// its body zero times: the loop yields the empty value, and the
/// environment is whatever the condition's one evaluation left behind.
pub proof fn lemma_false_while_runs_zero_times(c: NodeV, b: NodeV, ctx: ContextV, fuel: nat)
    requires
        fuel > 0,
        spec_eval(c, ctx, (fuel - 1) as nat).res is Ok,
        !spec_truthy(spec_eval(c, ctx, (fuel - 1) as nat).res->Ok_0),
    ensures
        spec_eval(NodeV::While(Box::new(c), Box::new(b)), ctx, fuel) == (EvalOut {
            res: Result::<Value, ErrV>::Ok(Value::Nil),
            ctx: spec_eval(c, ctx, (fuel - 1) as nat).ctx,
        }),
{
}

/// A `while` whose condition holds by the truthiness rule at every state,
/// and whose body always finishes quietly, never yields a value: it loops
/// until the evaluation budget runs out. Under a budget-bounded semantics
/// this is what running forever looks like.
pub proof fn lemma_everlasting_while_exhausts(c: NodeV, b: NodeV, ctx: ContextV, fuel: nat)
    requires
        forall|sigma: ContextV, f: nat|
            f > 0 ==> (#[trigger] spec_eval(c, sigma, f)).res is Ok && spec_truthy(
                spec_eval(c, sigma, f).res->Ok_0,
            ),
        forall|sigma: ContextV, f: nat| f > 0 ==> (#[trigger] spec_eval(b, sigma, f)).res is Ok,
    ensures
        spec_eval(NodeV::While(Box::new(c), Box::new(b)), ctx, fuel).res == Result::<
            Value,
            ErrV,
        >::Err(ErrV::OutOfFuel),
    decreases fuel,
{
    if fuel > 0 {
        let f = (fuel - 1) as nat;
        if f == 0 {
            assert(spec_eval(c, ctx, f).res == Result::<Value, ErrV>::Err(ErrV::OutOfFuel));
        } else {
            let co = spec_eval(c, ctx, f);
            let bo = spec_eval(b, co.ctx, f);
            lemma_everlasting_while_exhausts(c, b, bo.ctx, f);
        }
    }
}

} // verus!
