//! The tree-walking evaluator. Each function returns exactly what the
//! semantics of `semantics.rs` says, including the environment it leaves
//! behind.
use vstd::prelude::*;

use crate::context::Context;
use crate::float_bits::{f32_add, f32_div, f32_eq, f32_gt, f32_lt, f32_mul, f32_sub};
use crate::node::{Node, Operation, Value, node_view};
use crate::semantics::{
    ErrV, bind_params, spec_eval, spec_eval_args, spec_eval_block, spec_eval_for,
    spec_eval_operation, spec_logical, spec_operation, spec_truthy,
};

verus! {

/// A runtime error. Evaluation of the current top-level statement stops at
/// the first one; bindings made before the failure stay in place.
#[derive(Debug)]
pub enum EvalError {
    /// A logical operator reached the arithmetic evaluator.
    LogicalInArithmetic,
    /// An arithmetic operator reached the logical evaluator.
    ArithmeticInLogical,
    /// An arithmetic operand is not a number.
    NonNumberOperand,
    /// A binary operator was given the empty value.
    NoneOperand,
    /// The logical evaluator was given the empty value.
    NoneInLogical,
    /// A logical operator was given one boolean and one number.
    MixedTypes,
    /// A variable is not bound.
    UndefinedVariable(String),
    /// A called function is not registered.
    UndefinedFunction(String),
    /// A call's argument count differs from the function's parameter count:
    /// name, parameters declared, arguments provided.
    ArityMismatch(String, usize, usize),
    /// The evaluation budget ran out before the tree was done.
    OutOfFuel,
}

impl View for EvalError {
    type V = ErrV;

    open spec fn view(&self) -> ErrV {
        match self {
            EvalError::LogicalInArithmetic => ErrV::LogicalInArithmetic,
            EvalError::ArithmeticInLogical => ErrV::ArithmeticInLogical,
            EvalError::NonNumberOperand => ErrV::NonNumberOperand,
            EvalError::NoneOperand => ErrV::NoneOperand,
            EvalError::NoneInLogical => ErrV::NoneInLogical,
            EvalError::MixedTypes => ErrV::MixedTypes,
            EvalError::UndefinedVariable(name) => ErrV::UndefinedVariable(name@),
            EvalError::UndefinedFunction(name) => ErrV::UndefinedFunction(name@),
            EvalError::ArityMismatch(name, want, got) => ErrV::ArityMismatch(
                name@,
                *want as nat,
                *got as nat,
            ),
            EvalError::OutOfFuel => ErrV::OutOfFuel,
        }
    }
}

/// An executable result stands for a mathematical one when the values agree
/// and the errors agree by view.
pub open spec fn res_agrees(r: Result<Value, EvalError>, s: Result<Value, ErrV>) -> bool {
    match r {
        Ok(v) => s == Result::<Value, ErrV>::Ok(v),
        Err(e) => s is Err && s->Err_0 == e@,
    }
}

/// The truthiness rule: the boolean `true`, or a number equal to zero.
fn truthy(v: &Value) -> (r: bool)
    ensures
        r == spec_truthy(*v),
{
    match v {
        Value::Bool(b) => *b,
        Value::Number(bits) => f32_eq(*bits, 0),
        Value::Nil => false,
    }
}

/// An arithmetic operator on two numbers.
fn evaluate_binary_operation(operation: &Operation, left_value: u32, right_value: u32) -> (r:
    Result<Value, EvalError>)
    ensures
        res_agrees(r, crate::semantics::spec_arith(*operation, left_value, right_value)),
{
    match operation {
        Operation::Plus => Ok(Value::Number(f32_add(left_value, right_value))),
        Operation::Minus => Ok(Value::Number(f32_sub(left_value, right_value))),
        Operation::Divide => Ok(Value::Number(f32_div(left_value, right_value))),
        Operation::Multiply => Ok(Value::Number(f32_mul(left_value, right_value))),
        _ => Err(EvalError::LogicalInArithmetic),
    }
}

/// A logical or relational operator on two values already known to be of
/// one kind.
fn evaluate_logical_operation(operation: &Operation, left_value: Value, right_value: Value) -> (r:
    Result<Value, EvalError>)
    requires
        left_value is Number ==> right_value is Number,
        left_value is Bool ==> right_value is Bool,
    ensures
        res_agrees(r, spec_logical(*operation, left_value, right_value)),
{
    match left_value {
        Value::Number(left) => {
            let right = right_value.to_number().unwrap();
            match operation {
                Operation::Less => Ok(Value::Bool(f32_lt(left, right))),
                Operation::More => Ok(Value::Bool(f32_gt(left, right))),
                Operation::Equal => Ok(Value::Bool(f32_eq(left, right))),
                Operation::NotEqual => Ok(Value::Bool(!f32_eq(left, right))),
                _ => Err(EvalError::ArithmeticInLogical),
            }
        },
        Value::Bool(left) => {
            let right = right_value.to_bool().unwrap();
            match operation {
                Operation::Equal => Ok(Value::Bool(left == right)),
                Operation::NotEqual => Ok(Value::Bool(left != right)),
                Operation::Or => Ok(Value::Bool(left || right)),
                Operation::And => Ok(Value::Bool(left && right)),
                _ => Err(EvalError::ArithmeticInLogical),
            }
        },
        _ => Err(EvalError::NoneInLogical),
    }
}

/// Both operands of a binary operator, evaluated left to right (never
/// short-circuiting), then the operator applied.
#[verifier::loop_isolation(false)]
fn evaluate_operation(
    operation: &Operation,
    left_node: &Node,
    right_node: &Node,
    context: &mut Context,
    fuel: u64,
) -> (r: Result<Value, EvalError>)
    ensures
        ({
            let out = spec_eval_operation(
                *operation,
                node_view(*left_node),
                node_view(*right_node),
                old(context)@,
                fuel as nat,
            );
            final(context)@ == out.ctx && res_agrees(r, out.res)
        }),
    decreases fuel, 1nat, 0nat,
{
    let left_value = match left_node.evaluate(context, fuel) {
        Ok(v) => v,
        Err(e) => {
            return Err(e);
        },
    };
    let right_value = match right_node.evaluate(context, fuel) {
        Ok(v) => v,
        Err(e) => {
            return Err(e);
        },
    };
    if operation.is_arithmetic() {
        if !left_value.is_number() || !right_value.is_number() {
            return Err(EvalError::NonNumberOperand);
        }
        evaluate_binary_operation(
            operation,
            left_value.to_number().unwrap(),
            right_value.to_number().unwrap(),
        )
    } else {
        if left_value.is_none() || right_value.is_none() {
            return Err(EvalError::NoneOperand);
        }
        if left_value.is_bool() && right_value.is_number() || left_value.is_number()
            && right_value.is_bool() {
            return Err(EvalError::MixedTypes);
        }
        evaluate_logical_operation(operation, left_value, right_value)
    }
}

impl Node {
    /// Runs the tree against the environment. `fuel` bounds the depth of
    /// nested evaluations, each loop iteration and each function call;
    /// when it runs out the evaluation stops with an error, the way the
    /// host treats any other exhausted resource.
    #[verifier::loop_isolation(false)]
    pub fn evaluate(&self, context: &mut Context, fuel: u64) -> (r: Result<Value, EvalError>)
        ensures
            ({
                let out = spec_eval(node_view(*self), old(context)@, fuel as nat);
                final(context)@ == out.ctx && res_agrees(r, out.res)
            }),
        decreases fuel, 0nat, 0nat,
    {
        if fuel == 0 {
            return Err(EvalError::OutOfFuel);
        }
        let f = fuel - 1;
        match self {
            Node::Constant(v) => Ok(*v),
            Node::BinaryOperation(operation, left_node, right_node) => evaluate_operation(
                operation,
                left_node,
                right_node,
                context,
                f,
            ),
            Node::Variable(name) => match context.get_variable(name) {
                Some(value) => Ok(value),
                None => Err(EvalError::UndefinedVariable(name.clone())),
            },
            Node::Assignment(name, value) => {
                let v = match value.evaluate(context, f) {
                    Ok(v) => v,
                    Err(e) => {
                        return Err(e);
                    },
                };
                context.set_variable(name.clone(), v);
                Ok(Value::Nil)
            },
            Node::Block(body) => {
                let ghost bodyv = node_view(*self)->Block_0;
                let ghost ctx0 = context@;
                let mut value = Value::Nil;
                let mut k: usize = 0;
                proof {
                    assert(bodyv.skip(0) =~= bodyv);
                }
                while k < body.len()
                    invariant
                        k <= body@.len(),
                        bodyv.len() == body@.len(),
                        forall|i: int|
                            0 <= i < body@.len() ==> bodyv[i] == node_view(#[trigger] body@[i]),
                        spec_eval_block(bodyv, ctx0, Value::Nil, f as nat) == spec_eval_block(
                            bodyv.skip(k as int),
                            context@,
                            value,
                            f as nat,
                        ),
                    decreases body@.len() - k,
                {
                    proof {
                        assert(bodyv.skip(k as int)[0] == bodyv[k as int]);
                        assert(bodyv.skip(k as int).drop_first() =~= bodyv.skip(k as int + 1));
                    }
                    value = match body[k].evaluate(context, f) {
                        Ok(v) => v,
                        Err(e) => {
                            return Err(e);
                        },
                    };
                    k = k + 1;
                }
                Ok(value)
            },
            Node::Function(name, function) => {
                context.set_function(name.clone(), function.duplicate());
                Ok(Value::Nil)
            },
            Node::Call(name, arguments) => {
                let function = match context.get_function(name) {
                    Some(function) => function,
                    None => {
                        return Err(EvalError::UndefinedFunction(name.clone()));
                    },
                };
                // The call runs against a copy of the caller's environment,
                // discarded afterwards: assignments inside the call never
                // reach the caller.
                let mut inner = context.duplicate();
                if function.parameters.len() != arguments.len() {
                    return Err(
                        EvalError::ArityMismatch(
                            name.clone(),
                            function.parameters.len(),
                            arguments.len(),
                        ),
                    );
                }
                let ghost argsv = node_view(*self)->Call_1;
                let ghost ctx0 = context@;
                let mut vals: Vec<Value> = Vec::new();
                let mut k: usize = 0;
                proof {
                    assert(argsv.skip(0) =~= argsv);
                    assert(vals@ =~= Seq::<Value>::empty());
                }
                while k < arguments.len()
                    invariant
                        k <= arguments@.len(),
                        vals@.len() == k,
                        argsv.len() == arguments@.len(),
                        forall|i: int|
                            0 <= i < arguments@.len() ==> argsv[i] == node_view(
                                #[trigger] arguments@[i],
                            ),
                        spec_eval_args(argsv, ctx0, Seq::empty(), f as nat) == spec_eval_args(
                            argsv.skip(k as int),
                            inner@,
                            vals@,
                            f as nat,
                        ),
                    decreases arguments@.len() - k,
                {
                    proof {
                        assert(argsv.skip(k as int)[0] == argsv[k as int]);
                        assert(argsv.skip(k as int).drop_first() =~= argsv.skip(k as int + 1));
                    }
                    let v = match arguments[k].evaluate(&mut inner, f) {
                        Ok(v) => v,
                        Err(e) => {
                            return Err(e);
                        },
                    };
                    vals.push(v);
                    k = k + 1;
                }
                let ghost paramsv = crate::node::function_view(*function).parameters;
                let ghost valsv = vals@;
                let ghost bound0 = inner@;
                let mut k: usize = 0;
                proof {
                    assert(paramsv.skip(0) =~= paramsv);
                    assert(valsv.skip(0) =~= valsv);
                }
                while k < function.parameters.len()
                    invariant
                        k <= function.parameters@.len(),
                        vals@.len() == function.parameters@.len(),
                        vals@ == valsv,
                        paramsv.len() == function.parameters@.len(),
                        forall|i: int|
                            0 <= i < function.parameters@.len() ==> paramsv[i] == (
                            #[trigger] function.parameters@[i])@,
                        bind_params(paramsv, valsv, bound0) == bind_params(
                            paramsv.skip(k as int),
                            valsv.skip(k as int),
                            inner@,
                        ),
                    decreases function.parameters@.len() - k,
                {
                    proof {
                        assert(paramsv.skip(k as int)[0] == paramsv[k as int]);
                        assert(paramsv.skip(k as int).drop_first() =~= paramsv.skip(k as int + 1));
                        assert(valsv.skip(k as int)[0] == valsv[k as int]);
                        assert(valsv.skip(k as int).drop_first() =~= valsv.skip(k as int + 1));
                    }
                    inner.set_variable(function.parameters[k].clone(), vals[k]);
                    k = k + 1;
                }
                let result = function.body.evaluate(&mut inner, f);
                match result {
                    Ok(v) => Ok(v),
                    Err(e) => Err(e),
                }
            },
            Node::IfElse(condition, if_body, else_body) => {
                let cond_value = match condition.evaluate(context, f) {
                    Ok(v) => v,
                    Err(e) => {
                        return Err(e);
                    },
                };
                if truthy(&cond_value) {
                    if_body.evaluate(context, f)
                } else {
                    match else_body {
                        Some(body) => body.evaluate(context, f),
                        None => Ok(Value::Nil),
                    }
                }
            },
            Node::While(condition, body) => {
                let ghost selfv = node_view(*self);
                let ghost ctx0 = context@;
                let mut z = fuel;
                loop
                    invariant
                        z <= fuel,
                        spec_eval(selfv, ctx0, fuel as nat) == spec_eval(
                            selfv,
                            context@,
                            z as nat,
                        ),
                    decreases z,
                {
                    if z == 0 {
                        return Err(EvalError::OutOfFuel);
                    }
                    let cond_value = match condition.evaluate(context, z - 1) {
                        Ok(v) => v,
                        Err(e) => {
                            return Err(e);
                        },
                    };
                    if !truthy(&cond_value) {
                        return Ok(Value::Nil);
                    }
                    match body.evaluate(context, z - 1) {
                        Ok(_) => (),
                        Err(e) => {
                            return Err(e);
                        },
                    }
                    z = z - 1;
                }
            },
            Node::For(init, condition, body, step) => {
                // The init result is discarded, errors included; what it
                // bound stays bound.
                let _ = init.evaluate(context, f);
                let ghost condv = node_view(*self)->For_1;
                let ghost bodyv = node_view(*self)->For_2;
                let ghost stepv = node_view(*self)->For_3;
                let ghost ctx1 = context@;
                let mut z = f;
                loop
                    invariant
                        z <= f,
                        spec_eval_for(*condv, *bodyv, *stepv, ctx1, f as nat) == spec_eval_for(
                            *condv,
                            *bodyv,
                            *stepv,
                            context@,
                            z as nat,
                        ),
                    decreases z,
                {
                    if z == 0 {
                        return Err(EvalError::OutOfFuel);
                    }
                    let cond_value = match condition.evaluate(context, z - 1) {
                        Ok(v) => v,
                        Err(e) => {
                            return Err(e);
                        },
                    };
                    if !truthy(&cond_value) {
                        return Ok(Value::Nil);
                    }
                    match body.evaluate(context, z - 1) {
                        Ok(_) => (),
                        Err(e) => {
                            return Err(e);
                        },
                    }
                    match step.evaluate(context, z - 1) {
                        Ok(_) => (),
                        Err(e) => {
                            return Err(e);
                        },
                    }
                    z = z - 1;
                }
            },
        }
    }
}

/// The decimal digits of a number, most significant first.
pub open spec fn dec_bytes(n: nat) -> Seq<u8>
    decreases n,
{
    if n < 10 {
        seq![(48 + n) as u8]
    } else {
        dec_bytes(n / 10) + seq![(48 + n % 10) as u8]
    }
}

/// The message an error prints as; the wording the evaluator has always
/// used.
pub open spec fn message_text(e: ErrV) -> Seq<char> {
    match e {
        ErrV::LogicalInArithmetic => "Logical operation in arithmetical expression"@,
        ErrV::ArithmeticInLogical => "Arithemtical operation in logical expression"@,
        ErrV::NonNumberOperand => "One of operands in arithmetic expression is not number"@,
        ErrV::NoneOperand => "None value in binary expression"@,
        ErrV::NoneInLogical => "None as operand in logical operation"@,
        ErrV::MixedTypes => "Operands have different types in expression"@,
        ErrV::UndefinedVariable(name) => name + " is not defined"@,
        ErrV::UndefinedFunction(name) => name + " function is not defined"@,
        ErrV::ArityMismatch(name, want, got) => name + " function takes "@
            + crate::parser::chars_of_bytes(dec_bytes(want)) + " params provided "@
            + crate::parser::chars_of_bytes(dec_bytes(got)),
        ErrV::OutOfFuel => "evaluation budget exhausted"@,
    }
}

/// A number in decimal.
fn usize_to_string(n: usize) -> (r: String)
    ensures
        r@ == crate::parser::chars_of_bytes(dec_bytes(n as nat)),
{
    let mut digits: Vec<u8> = Vec::new();
    let mut m = n;
    if m == 0 {
        digits.push(48);
        proof {
            assert(digits@ =~= dec_bytes(0).reverse());
            assert(dec_bytes(0).reverse() =~= dec_bytes(0));
        }
    }
    while m > 0
        invariant
            forall|i: int| 0 <= i < digits@.len() ==> 48 <= #[trigger] digits@[i] < 58,
            m > 0 ==> dec_bytes(n as nat) == dec_bytes(m as nat) + digits@.reverse(),
            m == 0 && n > 0 ==> dec_bytes(n as nat) == digits@.reverse(),
            n == 0 ==> digits@ =~= dec_bytes(0),
        decreases m,
    {
        let d: u8 = 48 + (m % 10) as u8;
        let ghost before = digits@;
        digits.push(d);
        proof {
            assert(digits@.reverse() =~= seq![d] + before.reverse());
            if m >= 10 {
                assert(dec_bytes(m as nat) == dec_bytes(m as nat / 10) + seq![d]);
                assert(dec_bytes(m as nat / 10) + seq![d] + before.reverse() =~= dec_bytes(
                    m as nat / 10,
                ) + (seq![d] + before.reverse()));
            } else {
                assert(dec_bytes(m as nat) =~= seq![d]);
                assert(seq![d] + before.reverse() =~= dec_bytes(m as nat) + before.reverse());
            }
        }
        m = m / 10;
    }
    let mut bytes: Vec<u8> = Vec::new();
    let mut k = digits.len();
    while k > 0
        invariant
            k <= digits@.len(),
            bytes@.len() == digits@.len() - k,
            forall|i: int| 0 <= i < bytes@.len() ==> #[trigger] bytes@[i] == digits@.reverse()[i],
            forall|i: int| 0 <= i < digits@.len() ==> 48 <= #[trigger] digits@[i] < 58,
        decreases k,
    {
        bytes.push(digits[k - 1]);
        k = k - 1;
    }
    proof {
        assert(bytes@ =~= digits@.reverse());
        if n > 0 {
            assert(bytes@ =~= dec_bytes(n as nat));
        } else {
            assert(digits@.reverse() =~= digits@);
        }
    }
    crate::float_bits::ascii_to_string(bytes.as_slice())
}

impl EvalError {
    /// The message the host prints for the error.
    pub fn message(&self) -> (r: String)
        ensures
            r@ == message_text(self@),
    {
        match self {
            EvalError::LogicalInArithmetic => String::from_str(
                "Logical operation in arithmetical expression",
            ),
            EvalError::ArithmeticInLogical => String::from_str(
                "Arithemtical operation in logical expression",
            ),
            EvalError::NonNumberOperand => String::from_str(
                "One of operands in arithmetic expression is not number",
            ),
            EvalError::NoneOperand => String::from_str("None value in binary expression"),
            EvalError::NoneInLogical => String::from_str(
                "None as operand in logical operation",
            ),
            EvalError::MixedTypes => String::from_str(
                "Operands have different types in expression",
            ),
            EvalError::UndefinedVariable(name) => {
                let mut s = name.clone();
                s.append(" is not defined");
                s
            },
            EvalError::UndefinedFunction(name) => {
                let mut s = name.clone();
                s.append(" function is not defined");
                s
            },
            EvalError::ArityMismatch(name, want, got) => {
                let mut s = name.clone();
                s.append(" function takes ");
                s.append(usize_to_string(*want).as_str());
                s.append(" params provided ");
                s.append(usize_to_string(*got).as_str());
                proof {
                    assert(s@ =~= message_text(self@));
                }
                s
            },
            EvalError::OutOfFuel => String::from_str("evaluation budget exhausted"),
        }
    }
}

} // verus!
