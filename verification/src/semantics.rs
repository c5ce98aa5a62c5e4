//! The meaning of a program tree: a total, fuel-bounded big-step semantics
//! over mathematical values. The executable evaluator is proved to return
//! exactly what these functions say.
use vstd::prelude::*;

use crate::context::ContextV;
use crate::float_bits::{add_bits, div_bits, eq_bits, gt_bits, lt_bits, mul_bits, sub_bits};
use crate::node::{FunctionV, NodeV, Operation, Value};

verus! {

/// A runtime error, over mathematical values.
pub enum ErrV {
    /// A logical operator reached the arithmetic evaluator.
    LogicalInArithmetic,
    /// An arithmetic operator reached the logical evaluator.
    ArithmeticInLogical,
    /// An arithmetic operand is not a number.
    NonNumberOperand,
    /// A binary operator was given the empty value.
    NoneOperand,
    /// The logical evaluator was given the empty value.
    NoneInLogical,
    /// A logical operator was given one boolean and one number.
    MixedTypes,
    /// A variable is not bound.
    UndefinedVariable(Seq<char>),
    /// A called function is not registered.
    UndefinedFunction(Seq<char>),
    /// A call's argument count differs from the function's parameter count:
    /// name, parameters declared, arguments provided.
    ArityMismatch(Seq<char>, nat, nat),
    /// The evaluation budget ran out before the tree was done.
    OutOfFuel,
}

/// What evaluating one node yields: a value or an error, and the
/// environment as it stands afterwards. Bindings made by sub-expressions
/// that ran before a failure stay in place.
pub struct EvalOut {
    pub res: Result<Value, ErrV>,
    pub ctx: ContextV,
}

/// The truthiness rule the evaluator was built with: a condition holds when
/// it is the boolean `true`, or a number equal to zero.
pub open spec fn spec_truthy(v: Value) -> bool {
    ||| (v is Bool && v->Bool_0 == true)
    ||| (v is Number && eq_bits(v->Number_0, 0))
}

/// An arithmetic operator applied to two numbers.
pub open spec fn spec_arith(op: Operation, l: u32, r: u32) -> Result<Value, ErrV> {
    match op {
        Operation::Plus => Ok(Value::Number(add_bits(l, r))),
        Operation::Minus => Ok(Value::Number(sub_bits(l, r))),
        Operation::Divide => Ok(Value::Number(div_bits(l, r))),
        Operation::Multiply => Ok(Value::Number(mul_bits(l, r))),
        _ => Err(ErrV::LogicalInArithmetic),
    }
}

/// A logical or relational operator applied to two values of one kind:
/// numbers order and compare; booleans compare and combine.
pub open spec fn spec_logical(op: Operation, l: Value, r: Value) -> Result<Value, ErrV> {
    match l {
        Value::Number(a) => {
            let b = r->Number_0;
            match op {
                Operation::Less => Ok(Value::Bool(lt_bits(a, b))),
                Operation::More => Ok(Value::Bool(gt_bits(a, b))),
                Operation::Equal => Ok(Value::Bool(eq_bits(a, b))),
                Operation::NotEqual => Ok(Value::Bool(!eq_bits(a, b))),
                _ => Err(ErrV::ArithmeticInLogical),
            }
        },
        Value::Bool(a) => {
            let b = r->Bool_0;
            match op {
                Operation::Equal => Ok(Value::Bool(a == b)),
                Operation::NotEqual => Ok(Value::Bool(a != b)),
                Operation::Or => Ok(Value::Bool(a || b)),
                Operation::And => Ok(Value::Bool(a && b)),
                _ => Err(ErrV::ArithmeticInLogical),
            }
        },
        Value::Nil => Err(ErrV::NoneInLogical),
    }
}

/// A binary operator applied to two evaluated operands. Arithmetic wants
/// two numbers; a logical operator wants two values of one kind, neither
/// empty.
pub open spec fn spec_operation(op: Operation, l: Value, r: Value) -> Result<Value, ErrV> {
    if op.is_arith() {
        if !(l is Number) || !(r is Number) {
            Err(ErrV::NonNumberOperand)
        } else {
            spec_arith(op, l->Number_0, r->Number_0)
        }
    } else {
        if l is Nil || r is Nil {
            Err(ErrV::NoneOperand)
        } else if (l is Bool && r is Number) || (l is Number && r is Bool) {
            Err(ErrV::MixedTypes)
        } else {
            spec_logical(op, l, r)
        }
    }
}

/// Parameter names bound, in order, to the argument values in a call's
/// environment copy.
pub open spec fn bind_params(
    params: Seq<Seq<char>>,
    vals: Seq<Value>,
    ctx: ContextV,
) -> ContextV
    decreases params.len(),
{
    if params.len() == 0 || vals.len() == 0 {
        ctx
    } else {
        let bound = ContextV {
            variables: ctx.variables.insert(params[0], vals[0]),
            functions: ctx.functions,
        };
        bind_params(params.drop_first(), vals.drop_first(), bound)
    }
}

/// Evaluating one node against an environment, with `fuel` bounding the
/// depth of nested evaluations, each loop iteration and each call.
pub open spec fn spec_eval(n: NodeV, ctx: ContextV, fuel: nat) -> EvalOut
    decreases fuel, 0nat, 0nat,
{
    if fuel == 0 {
        EvalOut { res: Err(ErrV::OutOfFuel), ctx }
    } else {
        let f = (fuel - 1) as nat;
        match n {
            NodeV::Constant(v) => EvalOut { res: Ok(v), ctx },
            NodeV::BinaryOperation(op, l, r) => spec_eval_operation(op, *l, *r, ctx, f),
            NodeV::Variable(name) => EvalOut {
                res: if ctx.variables.contains_key(name) {
                    Ok(ctx.variables[name])
                } else {
                    Err(ErrV::UndefinedVariable(name))
                },
                ctx,
            },
            NodeV::Assignment(name, value) => {
                let vo = spec_eval(*value, ctx, f);
                match vo.res {
                    Err(e) => EvalOut { res: Err(e), ctx: vo.ctx },
                    Ok(v) => EvalOut {
                        res: Ok(Value::Nil),
                        ctx: ContextV {
                            variables: vo.ctx.variables.insert(name, v),
                            functions: vo.ctx.functions,
                        },
                    },
                }
            },
            NodeV::Block(body) => spec_eval_block(body, ctx, Value::Nil, f),
            NodeV::Function(name, fun) => EvalOut {
                res: Ok(Value::Nil),
                ctx: ContextV {
                    variables: ctx.variables,
                    functions: ctx.functions.insert(name, fun),
                },
            },
            NodeV::Call(name, args) => {
                if !ctx.functions.contains_key(name) {
                    EvalOut { res: Err(ErrV::UndefinedFunction(name)), ctx }
                } else {
                    let fun = ctx.functions[name];
                    if fun.parameters.len() != args.len() {
                        EvalOut {
                            res: Err(
                                ErrV::ArityMismatch(name, fun.parameters.len(), args.len()),
                            ),
                            ctx,
                        }
                    } else {
                        // The call runs against a copy of the caller's
                        // environment; the copy is discarded afterwards.
                        match spec_eval_args(args, ctx, Seq::empty(), f) {
                            Err(e) => EvalOut { res: Err(e), ctx },
                            Ok((vals, inner)) => {
                                let bound = bind_params(fun.parameters, vals, inner);
                                let bo = spec_eval(*fun.body, bound, f);
                                EvalOut { res: bo.res, ctx }
                            },
                        }
                    }
                }
            },
            NodeV::IfElse(c, t, e) => {
                let co = spec_eval(*c, ctx, f);
                match co.res {
                    Err(err) => EvalOut { res: Err(err), ctx: co.ctx },
                    Ok(cv) => if spec_truthy(cv) {
                        spec_eval(*t, co.ctx, f)
                    } else {
                        match e {
                            Some(eb) => spec_eval(*eb, co.ctx, f),
                            None => EvalOut { res: Ok(Value::Nil), ctx: co.ctx },
                        }
                    },
                }
            },
            NodeV::While(c, b) => {
                let co = spec_eval(*c, ctx, f);
                match co.res {
                    Err(err) => EvalOut { res: Err(err), ctx: co.ctx },
                    Ok(cv) => if !spec_truthy(cv) {
                        EvalOut { res: Ok(Value::Nil), ctx: co.ctx }
                    } else {
                        let bo = spec_eval(*b, co.ctx, f);
                        match bo.res {
                            Err(err) => EvalOut { res: Err(err), ctx: bo.ctx },
                            Ok(_) => spec_eval(n, bo.ctx, f),
                        }
                    },
                }
            },
            NodeV::For(init, c, b, st) => {
                // The init result is discarded, errors included; its effect
                // on the environment is kept.
                let io = spec_eval(*init, ctx, f);
                spec_eval_for(*c, *b, *st, io.ctx, f)
            },
        }
    }
}

/// A binary operation: the left operand, then the right, then the
/// operator, never short-circuiting.
pub open spec fn spec_eval_operation(
    op: Operation,
    left: NodeV,
    right: NodeV,
    ctx: ContextV,
    fuel: nat,
) -> EvalOut
    decreases fuel, 1nat, 0nat,
{
    let lo = spec_eval(left, ctx, fuel);
    match lo.res {
        Err(e) => EvalOut { res: Err(e), ctx: lo.ctx },
        Ok(lv) => {
            let ro = spec_eval(right, lo.ctx, fuel);
            match ro.res {
                Err(e) => EvalOut { res: Err(e), ctx: ro.ctx },
                Ok(rv) => EvalOut { res: spec_operation(op, lv, rv), ctx: ro.ctx },
            }
        },
    }
}

/// The statements of a block, in order; the block's value is the last
/// statement's (or `acc` where none follow).
pub open spec fn spec_eval_block(
    body: Seq<NodeV>,
    ctx: ContextV,
    acc: Value,
    fuel: nat,
) -> EvalOut
    decreases fuel, 1nat, body.len(),
{
    if body.len() == 0 {
        EvalOut { res: Ok(acc), ctx }
    } else {
        let so = spec_eval(body[0], ctx, fuel);
        match so.res {
            Err(e) => EvalOut { res: Err(e), ctx: so.ctx },
            Ok(v) => spec_eval_block(body.drop_first(), so.ctx, v, fuel),
        }
    }
}

/// A call's arguments, evaluated in order against the call's environment
/// copy; mutations an argument makes are seen by the ones after it.
pub open spec fn spec_eval_args(
    args: Seq<NodeV>,
    ctx: ContextV,
    acc: Seq<Value>,
    fuel: nat,
) -> Result<(Seq<Value>, ContextV), ErrV>
    decreases fuel, 1nat, args.len(),
{
    if args.len() == 0 {
        Ok((acc, ctx))
    } else {
        let ao = spec_eval(args[0], ctx, fuel);
        match ao.res {
            Err(e) => Err(e),
            Ok(v) => spec_eval_args(args.drop_first(), ao.ctx, acc.push(v), fuel),
        }
    }
}

/// The loop a `for` runs after its init: condition, body, step, again,
/// while the condition holds by the truthiness rule.
pub open spec fn spec_eval_for(
    cond: NodeV,
    body: NodeV,
    step: NodeV,
    ctx: ContextV,
    fuel: nat,
) -> EvalOut
    decreases fuel, 1nat, 0nat,
{
    if fuel == 0 {
        EvalOut { res: Err(ErrV::OutOfFuel), ctx }
    } else {
        let f = (fuel - 1) as nat;
        let co = spec_eval(cond, ctx, f);
        match co.res {
            Err(err) => EvalOut { res: Err(err), ctx: co.ctx },
            Ok(cv) => if !spec_truthy(cv) {
                EvalOut { res: Ok(Value::Nil), ctx: co.ctx }
            } else {
                let bo = spec_eval(body, co.ctx, f);
                match bo.res {
                    Err(err) => EvalOut { res: Err(err), ctx: bo.ctx },
                    Ok(_) => {
                        let so = spec_eval(step, bo.ctx, f);
                        match so.res {
                            Err(err) => EvalOut { res: Err(err), ctx: so.ctx },
                            Ok(_) => spec_eval_for(cond, body, step, so.ctx, f),
                        }
                    },
                }
            },
        }
    }
}

} // verus!
