use replang::context::Context;
use replang::eval::EvalError;
use replang::parser::statement;

const FUEL: u64 = 1 << 20;

fn eval(e: &str) -> Result<f32, EvalError> {
    let (_, parsed) = statement(e.as_bytes()).unwrap();
    let mut context = Context::default();
    let value = parsed.evaluate(&mut context, FUEL)?;
    Ok(f32::from_bits(value.to_number().unwrap()))
}

#[test]
fn basic_expression() {
    assert_eq!(6.0, eval("1+2+3").unwrap());
}

#[test]
fn basic_expression_with_spaces() {
    assert_eq!(6.0, eval("1 + 2 + 3").unwrap());
}

#[test]
fn expression_with_multiply() {
    assert_eq!(8.0, eval("1+2*3.5").unwrap());
}

#[test]
fn expression_with_brackets() {
    assert_eq!(5.0, eval("3+4*(6.5-6)").unwrap());
}
