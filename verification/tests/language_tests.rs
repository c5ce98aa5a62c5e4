use replang::context::Context;
use replang::eval::EvalError;
use replang::node::{Node, Operation, Value};
use replang::parser::statement;

const FUEL: u64 = 1 << 20;

/// Runs a sequence of source lines against one environment, the way the
/// shell feeds a session, and returns the last line's result.
fn run(lines: &[&str], context: &mut Context) -> Result<Value, EvalError> {
    let mut last = Ok(Value::Nil);
    for line in lines {
        let (_, parsed) = statement(line.as_bytes()).unwrap();
        last = parsed.evaluate(context, FUEL);
    }
    last
}

fn eval_line(line: &str) -> Result<Value, EvalError> {
    let mut context = Context::default();
    run(&[line], &mut context)
}

fn number(v: Value) -> f32 {
    f32::from_bits(v.to_number().unwrap())
}

#[test]
fn relational_gives_bool() {
    assert_eq!(eval_line("3<4").unwrap(), Value::Bool(true));
    assert_eq!(eval_line("4>3").unwrap(), Value::Bool(true));
    assert_eq!(eval_line("3>4").unwrap(), Value::Bool(false));
    assert_eq!(eval_line("3==3").unwrap(), Value::Bool(true));
    assert_eq!(eval_line("3!=3").unwrap(), Value::Bool(false));
}

#[test]
fn chained_relational_is_type_error() {
    // The first comparison yields a boolean, which then meets a number.
    let err = eval_line("3<4<5").unwrap_err();
    assert_eq!(err.message(), "Operands have different types in expression");
}

#[test]
fn bool_in_arithmetic_is_type_error() {
    let err = eval_line("(3<4)+1").unwrap_err();
    assert_eq!(
        err.message(),
        "One of operands in arithmetic expression is not number"
    );
}

#[test]
fn arithmetic_operator_on_bools_is_error() {
    let err = eval_line("(3<4)*(4<5)").unwrap_err();
    assert_eq!(
        err.message(),
        "One of operands in arithmetic expression is not number"
    );
}

#[test]
fn logical_operator_on_numbers_is_error() {
    let err = eval_line("1||2").unwrap_err();
    assert_eq!(
        err.message(),
        "Arithemtical operation in logical expression"
    );
}

#[test]
fn undefined_variable_is_error() {
    let err = eval_line("y+1").unwrap_err();
    assert_eq!(err.message(), "y is not defined");
}

#[test]
fn undefined_function_is_error() {
    let err = eval_line("g(1)").unwrap_err();
    assert_eq!(err.message(), "g function is not defined");
}

#[test]
fn wrong_arity_fails_without_running_body() {
    let mut context = Context::default();
    let err = run(&["fn f(a){ x = 99; }", "f()"], &mut context).unwrap_err();
    assert_eq!(err.message(), "f function takes 1 params provided 0");
    // The body never ran anywhere the caller can see.
    let probe = run(&["x"], &mut context).unwrap_err();
    assert_eq!(probe.message(), "x is not defined");
}

#[test]
fn call_runs_against_a_copy() {
    let mut context = Context::default();
    run(&["fn f(){ x = 99; }", "x = 1", "f()"], &mut context).unwrap();
    // The assignment inside the call stayed in the call's copy.
    assert_eq!(number(run(&["x"], &mut context).unwrap()), 1.0);
}

#[test]
fn call_sees_snapshot_and_parameters() {
    let mut context = Context::default();
    run(&["a = 10", "fn add(b){ a+b; }"], &mut context).unwrap();
    assert_eq!(number(run(&["add(5)"], &mut context).unwrap()), 15.0);
}

#[test]
fn assignment_yields_none_and_binds() {
    let mut context = Context::default();
    let v = run(&["x = 2+3"], &mut context).unwrap();
    assert!(v.is_none());
    assert_eq!(number(run(&["x"], &mut context).unwrap()), 5.0);
}

#[test]
fn zero_is_truthy() {
    // The truthiness rule the evaluator was built with: Bool(true), or a
    // number equal to zero.
    assert_eq!(number(eval_line("if 0 { 5; } else { 7; }").unwrap()), 5.0);
    assert_eq!(number(eval_line("if 1 { 5; } else { 7; }").unwrap()), 7.0);
}

#[test]
fn false_condition_runs_body_zero_times() {
    let mut context = Context::default();
    run(&["while 3>4 { x = 9; }"], &mut context).unwrap();
    let probe = run(&["x"], &mut context).unwrap_err();
    assert_eq!(probe.message(), "x is not defined");
}

#[test]
fn while_loop_terminates_when_condition_turns_false() {
    let mut context = Context::default();
    // `x == 0` holds at first (zero is the designated "true" number),
    // and stops holding after the body runs once.
    run(&["x = 0", "while x == 0 { x = x+1; }"], &mut context).unwrap();
    assert_eq!(number(run(&["x"], &mut context).unwrap()), 1.0);
}

#[test]
fn for_loop_runs_body_and_step() {
    // The grammar has no `for` rule; the tree is built directly.
    let mut context = Context::default();
    let init = Node::Assignment(
        "i".to_string(),
        Box::new(Node::Constant(Value::Number(0f32.to_bits()))),
    );
    let cond = Node::BinaryOperation(
        Operation::Equal,
        Box::new(Node::Variable("i".to_string())),
        Box::new(Node::Constant(Value::Number(0f32.to_bits()))),
    );
    let body = Node::Assignment(
        "s".to_string(),
        Box::new(Node::Constant(Value::Number(7f32.to_bits()))),
    );
    let step = Node::Assignment(
        "i".to_string(),
        Box::new(Node::BinaryOperation(
            Operation::Plus,
            Box::new(Node::Variable("i".to_string())),
            Box::new(Node::Constant(Value::Number(1f32.to_bits()))),
        )),
    );
    let for_node = Node::For(
        Box::new(init),
        Box::new(cond),
        Box::new(body),
        Box::new(step),
    );
    let v = for_node.evaluate(&mut context, FUEL).unwrap();
    assert!(v.is_none());
    assert_eq!(number(run(&["s"], &mut context).unwrap()), 7.0);
    assert_eq!(number(run(&["i"], &mut context).unwrap()), 1.0);
}

#[test]
fn trailing_garbage_leaves_a_remainder() {
    let input = "1+2 @garbage";
    let (consumed, node) = statement(input.as_bytes()).unwrap();
    assert!(consumed < input.len());
    assert_eq!(&input[consumed..], "@garbage");
    let mut context = Context::default();
    assert_eq!(number(node.evaluate(&mut context, FUEL).unwrap()), 3.0);
}

#[test]
fn unparseable_line_is_an_error() {
    assert!(statement("  )".as_bytes()).is_err());
    assert!(statement("".as_bytes()).is_err());
}

#[test]
fn division_follows_ieee_semantics() {
    assert_eq!(number(eval_line("1/0").unwrap()), f32::INFINITY);
    assert!(number(eval_line("0/0").unwrap()).is_nan());
    assert_eq!(number(eval_line("1/4").unwrap()), 0.25);
}

#[test]
fn right_associative_same_precedence() {
    // `1-2-3` groups as `1-(2-3)`: a deliberate quirk of the grammar.
    assert_eq!(number(eval_line("1-2-3").unwrap()), 2.0);
    assert_eq!(number(eval_line("2*3*4").unwrap()), 24.0);
}

#[test]
fn unary_minus_subtracts_from_zero() {
    assert_eq!(number(eval_line("-5").unwrap()), -5.0);
    assert_eq!(number(eval_line("3*-2").unwrap()), -6.0);
    let (_, node) = statement("-5".as_bytes()).unwrap();
    assert_eq!(node.to_string(), "0-5");
}

#[test]
fn number_literals_round_trip_through_text() {
    for line in ["1", "3.5", "6.5", "0.25", "100", "2e3", "1.5E-2"] {
        let (_, node) = statement(line.as_bytes()).unwrap();
        let printed = node.to_string();
        let (_, reparsed) = statement(printed.as_bytes()).unwrap();
        let mut c1 = Context::default();
        let mut c2 = Context::default();
        assert_eq!(
            number(node.evaluate(&mut c1, FUEL).unwrap()),
            number(reparsed.evaluate(&mut c2, FUEL).unwrap())
        );
    }
}

#[test]
fn expression_round_trips_through_text() {
    for line in ["1+2*3.5", "a+b*c", "x-y-z"] {
        let (_, node) = statement(line.as_bytes()).unwrap();
        assert_eq!(node.to_string(), line);
    }
}

#[test]
fn function_definition_prints_and_evaluates() {
    let (_, node) = statement("fn add(a, b){ a+b; }".as_bytes()).unwrap();
    assert_eq!(node.to_string(), "fn add(a, b) {\n  a+b}\n");
    let mut context = Context::default();
    assert!(node.evaluate(&mut context, FUEL).unwrap().is_none());
    assert_eq!(number(run(&["add(2, 3)"], &mut context).unwrap()), 5.0);
}

#[test]
fn operation_from_string_accepts_each_token() {
    assert_eq!(Operation::from_string("+"), Ok(Operation::Plus));
    assert_eq!(Operation::from_string("-"), Ok(Operation::Minus));
    assert_eq!(Operation::from_string("/"), Ok(Operation::Divide));
    assert_eq!(Operation::from_string("*"), Ok(Operation::Multiply));
    assert_eq!(Operation::from_string("<"), Ok(Operation::Less));
    assert_eq!(Operation::from_string(">"), Ok(Operation::More));
    assert_eq!(Operation::from_string("=="), Ok(Operation::Equal));
    assert_eq!(Operation::from_string("!="), Ok(Operation::NotEqual));
    assert_eq!(Operation::from_string("||"), Ok(Operation::Or));
    assert_eq!(Operation::from_string("&&"), Ok(Operation::And));
    assert_eq!(Operation::from_string("%"), Err(()));
    assert_eq!(Operation::from_string("=="), Ok(Operation::Equal));
}

#[test]
fn is_arithmetic_partitions_the_operators() {
    assert!(Operation::Plus.is_arithmetic());
    assert!(Operation::Minus.is_arithmetic());
    assert!(Operation::Divide.is_arithmetic());
    assert!(Operation::Multiply.is_arithmetic());
    assert!(!Operation::Less.is_arithmetic());
    assert!(!Operation::And.is_arithmetic());
}

#[test]
fn value_accessors() {
    let n = Value::Number(2.5f32.to_bits());
    assert!(n.is_number() && !n.is_bool() && !n.is_none());
    assert_eq!(n.to_number(), Some(2.5f32.to_bits()));
    assert_eq!(n.to_bool(), None);
    let b = Value::Bool(true);
    assert!(b.is_bool() && !b.is_number());
    assert_eq!(b.to_bool(), Some(true));
    let nil = Value::Nil;
    assert!(nil.is_none());
    assert_eq!(nil.to_string(), "None");
}

#[test]
fn bool_logic_combines() {
    assert_eq!(eval_line("(3<4)&&(4<5)").unwrap(), Value::Bool(true));
    assert_eq!(eval_line("(3<4)&&(5<4)").unwrap(), Value::Bool(false));
    assert_eq!(eval_line("(5<4)||(3<4)").unwrap(), Value::Bool(true));
    assert_eq!(eval_line("(3<4)==(4<5)").unwrap(), Value::Bool(true));
    assert_eq!(eval_line("(3<4)!=(4<5)").unwrap(), Value::Bool(false));
}

#[test]
fn bindings_survive_a_failed_statement() {
    let mut context = Context::default();
    run(&["a = 1"], &mut context).unwrap();
    assert!(run(&["b = bogus()"], &mut context).is_err());
    assert_eq!(number(run(&["a"], &mut context).unwrap()), 1.0);
}

#[test]
fn calls_with_several_arguments_and_nesting() {
    let mut context = Context::default();
    run(
        &["fn addthree(a, b, c){ a+b+c; }", "fn twice(x){ x*2; }"],
        &mut context,
    )
    .unwrap();
    assert_eq!(
        number(run(&["addthree(1, 2, 3)"], &mut context).unwrap()),
        6.0
    );
    assert_eq!(
        number(run(&["twice(addthree(1, 2, twice(2)))"], &mut context).unwrap()),
        14.0
    );
}

#[test]
fn out_of_fuel_reports_exhaustion() {
    let mut context = Context::default();
    let (_, node) = statement("1+1".as_bytes()).unwrap();
    let err = node.evaluate(&mut context, 1).unwrap_err();
    assert_eq!(err.message(), "evaluation budget exhausted");
}
