use replang::context::Context;
use replang::node::{Node, Operation, Value};
use Operation::{Less, Minus, More, Multiply, Plus};

const FUEL: u64 = 1 << 20;

fn num(num: f32) -> Node {
    Node::Constant(Value::Number(num.to_bits()))
}

fn bin(oper: Operation, left: Node, right: Node) -> Node {
    Node::BinaryOperation(oper, Box::new(left), Box::new(right))
}

fn ifelse(condition: Node, if_expr: Node, else_expr: Option<Node>) -> Node {
    if else_expr.is_none() {
        Node::IfElse(Box::new(condition), Box::new(if_expr), None)
    } else {
        Node::IfElse(
            Box::new(condition),
            Box::new(if_expr),
            Some(Box::new(else_expr.unwrap())),
        )
    }
}

fn block(body: Vec<Node>) -> Node {
    Node::Block(body)
}

fn as_f32(value: Value) -> f32 {
    f32::from_bits(value.to_number().unwrap())
}

#[test]
fn basic_tree() {
    //  +
    // / \
    //1   2
    let operation = bin(Plus, num(1.0), num(2.0));
    let mut context = Context::default();
    let value = operation.evaluate(&mut context, FUEL).unwrap();
    assert_eq!(as_f32(value), 3.0);
    assert_eq!(operation.to_string(), "1+2");
}

#[test]
fn two_operations() {
    //      -
    //   /     \
    //  +       *
    // / \     / \
    //1   2   3   4
    let left_oper = bin(Plus, num(1.0), num(2.0));
    let right_oper = bin(Multiply, num(3.0), num(4.0));
    let minus = bin(Minus, left_oper, right_oper);

    let mut context = Context::default();
    assert_eq!(as_f32(minus.evaluate(&mut context, FUEL).unwrap()), -9.0);
    assert_eq!(minus.to_string(), "1+2-3*4");
}

#[test]
fn simple_logical() {
    let operation = bin(Less, num(3.0), num(4.0));
    let mut context = Context::default();
    let value = operation.evaluate(&mut context, FUEL).unwrap();
    assert_eq!(value.to_bool().unwrap(), true);
    assert_eq!(operation.to_string(), "3<4");
}

#[test]
fn different_types() {
    let left_oper = bin(More, num(4.0), num(3.0));
    let operation = bin(More, left_oper, num(2.0));
    let mut context = Context::default();
    let value = operation.evaluate(&mut context, FUEL);
    assert!(value.is_err());
    assert_eq!(
        value.unwrap_err().message(),
        "Operands have different types in expression"
    )
}

#[test]
fn simple_if_expression() {
    let mut context = Context::default();
    let body = vec![bin(Plus, num(1.0), num(2.0))];
    let condition = bin(Less, num(3.0), num(4.0));
    let if_else = ifelse(condition, block(body), None);
    let value = if_else.evaluate(&mut context, FUEL).unwrap();
    assert_eq!(as_f32(value), 3.0)
}

#[test]
fn simple_else_expression() {
    let mut context = Context::default();
    let body_if = vec![bin(Plus, num(1.0), num(2.0))];
    let body_else = vec![bin(Plus, num(3.0), num(4.0))];
    let condition = bin(More, num(3.0), num(4.0));
    let if_else = ifelse(condition, block(body_if), Some(block(body_else)));
    let value = if_else.evaluate(&mut context, FUEL).unwrap();
    assert_eq!(as_f32(value), 7.0)
}
