//! The recursive-descent parser: one line of source text (bytes) in, one
//! `Node` out, together with how much of the input it consumed. Each rule
//! has a mathematical twin (`sp_`-prefixed) and the executable rule is
//! proved to return exactly what the twin says.
//!
//! The grammar, first alternative winning:
//!
//! ```text
//! Statement  ::= Function | While | IfElse | Assignment | Expression
//! Function   ::= "fn" Ident "(" [Ident ("," Ident)*] ")" Body "}"
//! Body       ::= "{" (Statement ";")*
//! IfElse     ::= "if" Expression Body "}" ["else" Body "}"]
//! While      ::= "while" Expression Body "}"
//! Assignment ::= Ident "=" Expression
//! Expression ::= Term (("+" | "-") Expression)?
//! Term       ::= Logic (("*" | "/") Term)?
//! Logic      ::= Factor (LogicOp Logic)?
//! Factor     ::= ["-"] (Number | Call | Ident | "(" Expression ")")
//! Call       ::= Ident "(" [Expression ("," Expression)*] ")"
//! ```
//!
//! Blanks (the space byte only) are skipped at every junction. Chained
//! operators of one precedence level group to the right, because each rule
//! recurses into itself for the remainder instead of folding to the left.
use vstd::prelude::*;

use crate::float_bits::{literal_bits, parse_number};
use crate::node::{Node, NodeV, Operation, Value, node_view};

verus! {

/// The blank byte.
pub const SPACE: u8 = 32;

/// The position a parse could not get past.
#[derive(Debug, PartialEq, Eq, Structural, Clone, Copy)]
pub struct SyntaxError {
    pub pos: usize,
}

/// Bytes become characters one for one; every byte the grammar accepts is
/// ASCII.
pub open spec fn chars_of_bytes(s: Seq<u8>) -> Seq<char> {
    s.map(|_i: int, b: u8| b as char)
}

pub open spec fn is_digit(b: u8) -> bool {
    48 <= b <= 57
}

pub open spec fn is_alpha(b: u8) -> bool {
    (65 <= b <= 90) || (97 <= b <= 122)
}

/// The first position at or after `pos` that does not hold a digit.
pub open spec fn skip_digits(s: Seq<u8>, pos: int) -> int
    decreases s.len() - pos,
{
    if 0 <= pos < s.len() && is_digit(s[pos]) {
        skip_digits(s, pos + 1)
    } else {
        pos
    }
}

/// The first position at or after `pos` that does not hold a letter.
pub open spec fn skip_alpha(s: Seq<u8>, pos: int) -> int
    decreases s.len() - pos,
{
    if 0 <= pos < s.len() && is_alpha(s[pos]) {
        skip_alpha(s, pos + 1)
    } else {
        pos
    }
}

/// The first position at or after `pos` that does not hold a blank.
pub open spec fn sp_space(s: Seq<u8>, pos: int) -> int
    decreases s.len() - pos,
{
    if 0 <= pos < s.len() && s[pos] == SPACE {
        sp_space(s, pos + 1)
    } else {
        pos
    }
}

/// Where a number literal that starts at `pos` ends: one or more digits
/// with an optional fraction, or a dot with one or more digits, then an
/// optional exponent (`e` or `E`, an optional sign, one or more digits;
/// without digits the exponent part is not consumed).
pub open spec fn literal_end(s: Seq<u8>, pos: int) -> Option<int> {
    if !(0 <= pos < s.len()) {
        None
    } else {
        let mantissa_end = if is_digit(s[pos]) {
            let d = skip_digits(s, pos);
            if d < s.len() && s[d] == 46 {
                Some(skip_digits(s, d + 1))
            } else {
                Some(d)
            }
        } else if s[pos] == 46 {
            let d = skip_digits(s, pos + 1);
            if d > pos + 1 {
                Some(d)
            } else {
                None
            }
        } else {
            None
        };
        match mantissa_end {
            None => None,
            Some(m) => {
                if m < s.len() && (s[m] == 101 || s[m] == 69) {
                    let e0 = if m + 1 < s.len() && (s[m + 1] == 43 || s[m + 1] == 45) {
                        m + 2
                    } else {
                        m + 1
                    };
                    let d = skip_digits(s, e0);
                    if d > e0 {
                        Some(d)
                    } else {
                        Some(m)
                    }
                } else {
                    Some(m)
                }
            },
        }
    }
}

/// A whole byte sequence is one number literal.
pub open spec fn is_literal_bytes(s: Seq<u8>) -> bool {
    literal_end(s, 0) == Some(s.len() as int)
}

/// An identifier: one or more letters.
pub open spec fn sp_identifier(s: Seq<u8>, pos: int) -> Option<(int, Seq<u8>)> {
    let e = skip_alpha(s, pos);
    if 0 <= pos && e > pos {
        Some((e, s.subrange(pos, e)))
    } else {
        None
    }
}

/// An operator token, longest tags tried first, in the order the operator
/// table lists them.
pub open spec fn sp_operation(s: Seq<u8>, pos: int) -> Option<(int, Operation)> {
    if pos < 0 {
        None
    } else if pos + 2 <= s.len() && s[pos] == 124 && s[pos + 1] == 124 {
        Some((pos + 2, Operation::Or))
    } else if pos + 2 <= s.len() && s[pos] == 38 && s[pos + 1] == 38 {
        Some((pos + 2, Operation::And))
    } else if pos + 2 <= s.len() && s[pos] == 61 && s[pos + 1] == 61 {
        Some((pos + 2, Operation::Equal))
    } else if pos + 2 <= s.len() && s[pos] == 33 && s[pos + 1] == 61 {
        Some((pos + 2, Operation::NotEqual))
    } else if pos + 1 <= s.len() && s[pos] == 43 {
        Some((pos + 1, Operation::Plus))
    } else if pos + 1 <= s.len() && s[pos] == 45 {
        Some((pos + 1, Operation::Minus))
    } else if pos + 1 <= s.len() && s[pos] == 47 {
        Some((pos + 1, Operation::Divide))
    } else if pos + 1 <= s.len() && s[pos] == 42 {
        Some((pos + 1, Operation::Multiply))
    } else if pos + 1 <= s.len() && s[pos] == 62 {
        Some((pos + 1, Operation::More))
    } else if pos + 1 <= s.len() && s[pos] == 60 {
        Some((pos + 1, Operation::Less))
    } else {
        None
    }
}

/// An additive operator.
pub open spec fn sp_plus_minus(s: Seq<u8>, pos: int) -> Option<(int, Operation)> {
    match sp_operation(s, pos) {
        Some((p, op)) => if op == Operation::Plus || op == Operation::Minus {
            Some((p, op))
        } else {
            None
        },
        None => None,
    }
}

/// A multiplicative operator.
pub open spec fn sp_div_multi(s: Seq<u8>, pos: int) -> Option<(int, Operation)> {
    match sp_operation(s, pos) {
        Some((p, op)) => if op == Operation::Multiply || op == Operation::Divide {
            Some((p, op))
        } else {
            None
        },
        None => None,
    }
}

/// A logical or relational operator.
pub open spec fn sp_logic_oper(s: Seq<u8>, pos: int) -> Option<(int, Operation)> {
    match sp_operation(s, pos) {
        Some((p, op)) => if !op.is_arith() {
            Some((p, op))
        } else {
            None
        },
        None => None,
    }
}

/// A number literal, as a constant node holding the value the literal
/// reads as.
pub open spec fn sp_number(s: Seq<u8>, pos: int) -> Option<(int, NodeV)> {
    match literal_end(s, pos) {
        Some(e) => Some(
            (e, NodeV::Constant(Value::Number(literal_bits(s.subrange(pos, e))))),
        ),
        None => None,
    }
}

/// An optional leading minus; then a number, a call, a variable or a
/// parenthesised expression. A leading minus becomes a subtraction from
/// zero. The position bound checks below (and in the rules that follow)
/// only restate what every sub-rule guarantees; they are what the
/// termination measure rests on.
pub open spec fn sp_factor(s: Seq<u8>, pos: int) -> Option<(int, NodeV)>
    decreases s.len() - pos, 2nat,
{
    let p1 = sp_space(s, pos);
    let neg = 0 <= p1 < s.len() && s[p1] == 45;
    let p2 = if neg {
        p1 + 1
    } else {
        p1
    };
    let p3 = sp_space(s, p2);
    if !(pos <= p3 <= s.len()) {
        None
    } else {
        let core = match sp_number(s, p3) {
            Some(r) => Some(r),
            None => match sp_call(s, p3) {
                Some(r) => Some(r),
                None => match sp_identifier(s, p3) {
                    Some((p4, name)) => Some((p4, NodeV::Variable(chars_of_bytes(name)))),
                    None => sp_brackets(s, p3),
                },
            },
        };
        match core {
            None => None,
            Some((p5, node)) => if neg {
                Some(
                    (
                        p5,
                        NodeV::BinaryOperation(
                            Operation::Minus,
                            Box::new(NodeV::Constant(Value::Number(0))),
                            Box::new(node),
                        ),
                    ),
                )
            } else {
                Some((p5, node))
            },
        }
    }
}

/// A parenthesised expression; the parentheses are not kept in the tree.
pub open spec fn sp_brackets(s: Seq<u8>, pos: int) -> Option<(int, NodeV)>
    decreases s.len() - pos, 1nat,
{
    if 0 <= pos < s.len() && s[pos] == 40 {
        let p1 = sp_space(s, pos + 1);
        if pos + 1 <= p1 <= s.len() {
            match sp_expression(s, p1) {
                None => None,
                Some((p2, node)) => {
                    let p3 = sp_space(s, p2);
                    if 0 <= p3 < s.len() && s[p3] == 41 {
                        Some((p3 + 1, node))
                    } else {
                        None
                    }
                },
            }
        } else {
            None
        }
    } else {
        None
    }
}

/// A call: a name, then parenthesised comma-separated argument
/// expressions.
pub open spec fn sp_call(s: Seq<u8>, pos: int) -> Option<(int, NodeV)>
    decreases s.len() - pos, 1nat,
{
    let p1 = sp_space(s, pos);
    match sp_identifier(s, p1) {
        None => None,
        Some((p2, name)) => {
            let p3 = sp_space(s, p2);
            if 0 <= p3 < s.len() && s[p3] == 40 {
                let p4 = sp_space(s, p3 + 1);
                if pos < p4 <= s.len() {
                    let (p5, args) = sp_call_args(s, p4);
                    let p6 = sp_space(s, p5);
                    if 0 <= p6 < s.len() && s[p6] == 41 {
                        Some((p6 + 1, NodeV::Call(chars_of_bytes(name), args)))
                    } else {
                        None
                    }
                } else {
                    None
                }
            } else {
                None
            }
        },
    }
}

/// A call's argument list: empty where no expression starts, else the
/// first expression and whatever `, expression` pairs follow.
pub open spec fn sp_call_args(s: Seq<u8>, pos: int) -> (int, Seq<NodeV>)
    decreases s.len() - pos, 6nat,
{
    match sp_expression(s, pos) {
        None => (pos, Seq::empty()),
        Some((p1, first)) => {
            if pos <= p1 <= s.len() {
                sp_call_args_rest(s, p1, seq![first])
            } else {
                (pos, Seq::empty())
            }
        },
    }
}

/// The `, expression` pairs after a call's first argument; folding stops
/// before the first pair that does not parse.
pub open spec fn sp_call_args_rest(s: Seq<u8>, pos: int, acc: Seq<NodeV>) -> (int, Seq<NodeV>)
    decreases s.len() - pos, 0nat,
{
    let p1 = sp_space(s, pos);
    if 0 <= p1 < s.len() && s[p1] == 44 {
        let p2 = sp_space(s, p1 + 1);
        if pos < p2 <= s.len() {
            match sp_expression(s, p2) {
                Some((p3, arg)) => if pos < p3 <= s.len() {
                    sp_call_args_rest(s, p3, acc.push(arg))
                } else {
                    (pos, acc)
                },
                None => (pos, acc),
            }
        } else {
            (pos, acc)
        }
    } else {
        (pos, acc)
    }
}

/// A factor, possibly followed by one logical/relational operator and
/// another logic expression; all six such operators share one precedence
/// level and group to the right.
pub open spec fn sp_logic(s: Seq<u8>, pos: int) -> Option<(int, NodeV)>
    decreases s.len() - pos, 3nat,
{
    match sp_factor(s, pos) {
        None => None,
        Some((p1, left)) => {
            let p2 = sp_space(s, p1);
            match sp_logic_oper(s, p2) {
                Some((p3, op)) => if pos < p3 <= s.len() {
                    match sp_logic(s, p3) {
                        Some((p4, right)) => Some(
                            (p4, NodeV::BinaryOperation(op, Box::new(left), Box::new(right))),
                        ),
                        None => None,
                    }
                } else {
                    None
                },
                None => Some((p2, left)),
            }
        },
    }
}

/// A logic expression, possibly followed by `*` or `/` and another term;
/// groups to the right.
pub open spec fn sp_term(s: Seq<u8>, pos: int) -> Option<(int, NodeV)>
    decreases s.len() - pos, 4nat,
{
    match sp_logic(s, pos) {
        None => None,
        Some((p1, left)) => {
            let p2 = sp_space(s, p1);
            match sp_div_multi(s, p2) {
                Some((p3, op)) => if pos < p3 <= s.len() {
                    match sp_term(s, p3) {
                        Some((p4, right)) => Some(
                            (p4, NodeV::BinaryOperation(op, Box::new(left), Box::new(right))),
                        ),
                        None => None,
                    }
                } else {
                    None
                },
                None => Some((p2, left)),
            }
        },
    }
}

/// A term, possibly followed by `+` or `-` and another expression; groups
/// to the right.
pub open spec fn sp_expression(s: Seq<u8>, pos: int) -> Option<(int, NodeV)>
    decreases s.len() - pos, 5nat,
{
    let p0 = sp_space(s, pos);
    if !(pos <= p0 <= s.len()) {
        None
    } else {
        match sp_term(s, p0) {
            None => None,
            Some((p1, left)) => {
                let p2 = sp_space(s, p1);
                match sp_plus_minus(s, p2) {
                    Some((p3, op)) => if pos < p3 <= s.len() {
                        match sp_expression(s, p3) {
                            Some((p4, right)) => Some(
                                (
                                    p4,
                                    NodeV::BinaryOperation(op, Box::new(left), Box::new(right)),
                                ),
                            ),
                            None => None,
                        }
                    } else {
                        None
                    },
                    None => Some((p2, left)),
                }
            },
        }
    }
}

/// A parameter list: empty where no name starts, else the first name and
/// whatever `, name` pairs follow.
pub open spec fn sp_params(s: Seq<u8>, pos: int) -> (int, Seq<Seq<char>>) {
    match sp_identifier(s, pos) {
        None => (pos, Seq::empty()),
        Some((p1, name)) => sp_params_rest(s, p1, seq![chars_of_bytes(name)]),
    }
}

/// The `, name` pairs after the first parameter.
pub open spec fn sp_params_rest(s: Seq<u8>, pos: int, acc: Seq<Seq<char>>) -> (int, Seq<
    Seq<char>,
>)
    decreases s.len() - pos,
{
    let p1 = sp_space(s, pos);
    if 0 <= p1 < s.len() && s[p1] == 44 {
        let p2 = sp_space(s, p1 + 1);
        match sp_identifier(s, p2) {
            Some((p3, name)) => if pos < p3 <= s.len() {
                sp_params_rest(s, p3, acc.push(chars_of_bytes(name)))
            } else {
                (pos, acc)
            },
            None => (pos, acc),
        }
    } else {
        (pos, acc)
    }
}

/// A function definition: `fn`, the name, the parameter list in
/// parentheses, the body, the closing brace.
pub open spec fn sp_function(s: Seq<u8>, pos: int) -> Option<(int, NodeV)>
    decreases s.len() - pos, 6nat,
{
    let p1 = sp_space(s, pos);
    if p1 + 2 <= s.len() && 0 <= p1 && s[p1] == 102 && s[p1 + 1] == 110 {
        let p2 = sp_space(s, p1 + 2);
        match sp_identifier(s, p2) {
            None => None,
            Some((p3, name)) => {
                let p4 = sp_space(s, p3);
                if 0 <= p4 < s.len() && s[p4] == 40 {
                    let p5 = sp_space(s, p4 + 1);
                    let (p6, params) = sp_params(s, p5);
                    let p7 = sp_space(s, p6);
                    if 0 <= p7 < s.len() && s[p7] == 41 {
                        let p8 = sp_space(s, p7 + 1);
                        if pos < p8 <= s.len() {
                            match sp_body(s, p8) {
                                None => None,
                                Some((p9, body)) => {
                                    let p10 = sp_space(s, p9);
                                    if 0 <= p10 < s.len() && s[p10] == 125 {
                                        Some(
                                            (
                                                p10 + 1,
                                                NodeV::Function(
                                                    chars_of_bytes(name),
                                                    crate::node::FunctionV {
                                                        parameters: params,
                                                        body: Box::new(NodeV::Block(body)),
                                                    },
                                                ),
                                            ),
                                        )
                                    } else {
                                        None
                                    }
                                },
                            }
                        } else {
                            None
                        }
                    } else {
                        None
                    }
                } else {
                    None
                }
            },
        }
    } else {
        None
    }
}

/// A body: the opening brace and the `statement ;` pairs after it; the
/// closing brace is the caller's.
pub open spec fn sp_body(s: Seq<u8>, pos: int) -> Option<(int, Seq<NodeV>)>
    decreases s.len() - pos, 0nat,
{
    let p1 = sp_space(s, pos);
    if 0 <= p1 < s.len() && s[p1] == 123 && pos <= p1 {
        Some(sp_body_items(s, p1 + 1, Seq::empty()))
    } else {
        None
    }
}

/// The `statement ;` pairs of a body; folding stops before the first pair
/// that does not parse.
pub open spec fn sp_body_items(s: Seq<u8>, pos: int, acc: Seq<NodeV>) -> (int, Seq<NodeV>)
    decreases s.len() - pos, 9nat,
{
    let p1 = sp_space(s, pos);
    if !(pos <= p1 <= s.len()) {
        (pos, acc)
    } else {
        match sp_statement(s, p1) {
            None => (pos, acc),
            Some((p2, st)) => {
                let p3 = sp_space(s, p2);
                if 0 <= p3 < s.len() && s[p3] == 59 && pos <= p3 {
                    sp_body_items(s, p3 + 1, acc.push(st))
                } else {
                    (pos, acc)
                }
            },
        }
    }
}

/// An `if`, its condition, its body, and an optional `else` body.
pub open spec fn sp_if_else(s: Seq<u8>, pos: int) -> Option<(int, NodeV)>
    decreases s.len() - pos, 6nat,
{
    let p1 = sp_space(s, pos);
    if p1 + 2 <= s.len() && 0 <= p1 && s[p1] == 105 && s[p1 + 1] == 102 {
        let p2 = sp_space(s, p1 + 2);
        if pos < p2 <= s.len() {
            match sp_expression(s, p2) {
                None => None,
                Some((p3, cond)) => {
                    let p4 = sp_space(s, p3);
                    if pos < p4 <= s.len() {
                        match sp_body(s, p4) {
                            None => None,
                            Some((p5, body)) => {
                                let p6 = sp_space(s, p5);
                                if 0 <= p6 < s.len() && s[p6] == 125 && pos <= p6 {
                                    match sp_else_block(s, p6 + 1) {
                                        None => None,
                                        Some((p7, els)) => Some(
                                            (
                                                p7,
                                                NodeV::IfElse(
                                                    Box::new(cond),
                                                    Box::new(NodeV::Block(body)),
                                                    els,
                                                ),
                                            ),
                                        ),
                                    }
                                } else {
                                    None
                                }
                            },
                        }
                    } else {
                        None
                    }
                },
            }
        } else {
            None
        }
    } else {
        None
    }
}

/// An optional `else` body; where no `else` follows, nothing more is
/// consumed beyond the blanks already skipped.
pub open spec fn sp_else_block(s: Seq<u8>, pos: int) -> Option<(int, Option<Box<NodeV>>)>
    decreases s.len() - pos, 0nat,
{
    let p1 = sp_space(s, pos);
    if p1 + 4 <= s.len() && 0 <= p1 && s[p1] == 101 && s[p1 + 1] == 108 && s[p1 + 2] == 115 && s[p1
        + 3] == 101 {
        let p2 = sp_space(s, p1 + 4);
        if pos < p2 <= s.len() {
            match sp_body(s, p2) {
                None => None,
                Some((p3, body)) => {
                    let p4 = sp_space(s, p3);
                    if 0 <= p4 < s.len() && s[p4] == 125 {
                        Some((p4 + 1, Some(Box::new(NodeV::Block(body)))))
                    } else {
                        None
                    }
                },
            }
        } else {
            None
        }
    } else {
        Some((p1, None))
    }
}

/// A `while`, its condition and its body.
pub open spec fn sp_while(s: Seq<u8>, pos: int) -> Option<(int, NodeV)>
    decreases s.len() - pos, 6nat,
{
    let p1 = sp_space(s, pos);
    if p1 + 5 <= s.len() && 0 <= p1 && s[p1] == 119 && s[p1 + 1] == 104 && s[p1 + 2] == 105 && s[p1
        + 3] == 108 && s[p1 + 4] == 101 {
        let p2 = sp_space(s, p1 + 5);
        if pos < p2 <= s.len() {
            match sp_expression(s, p2) {
                None => None,
                Some((p3, cond)) => {
                    let p4 = sp_space(s, p3);
                    if pos < p4 <= s.len() {
                        match sp_body(s, p4) {
                            None => None,
                            Some((p5, body)) => {
                                let p6 = sp_space(s, p5);
                                if 0 <= p6 < s.len() && s[p6] == 125 {
                                    Some(
                                        (
                                            p6 + 1,
                                            NodeV::While(
                                                Box::new(cond),
                                                Box::new(NodeV::Block(body)),
                                            ),
                                        ),
                                    )
                                } else {
                                    None
                                }
                            },
                        }
                    } else {
                        None
                    }
                },
            }
        } else {
            None
        }
    } else {
        None
    }
}

/// An assignment: a name, `=`, an expression.
pub open spec fn sp_assignment(s: Seq<u8>, pos: int) -> Option<(int, NodeV)>
    decreases s.len() - pos, 6nat,
{
    let p1 = sp_space(s, pos);
    match sp_identifier(s, p1) {
        None => None,
        Some((p2, name)) => {
            let p3 = sp_space(s, p2);
            if 0 <= p3 < s.len() && s[p3] == 61 {
                let p4 = sp_space(s, p3 + 1);
                if pos < p4 <= s.len() {
                    match sp_expression(s, p4) {
                        Some((p5, e)) => Some(
                            (p5, NodeV::Assignment(chars_of_bytes(name), Box::new(e))),
                        ),
                        None => None,
                    }
                } else {
                    None
                }
            } else {
                None
            }
        },
    }
}

/// One statement: the first of function, while, if/else, assignment and
/// expression that parses.
pub open spec fn sp_statement(s: Seq<u8>, pos: int) -> Option<(int, NodeV)>
    decreases s.len() - pos, 8nat,
{
    match sp_function(s, pos) {
        Some(r) => Some(r),
        None => match sp_while(s, pos) {
            Some(r) => Some(r),
            None => match sp_if_else(s, pos) {
                Some(r) => Some(r),
                None => match sp_assignment(s, pos) {
                    Some(r) => Some(r),
                    None => sp_expression(s, pos),
                },
            },
        },
    }
}

proof fn lemma_skip_digits_bounds(s: Seq<u8>, pos: int)
    requires
        0 <= pos <= s.len(),
    ensures
        pos <= skip_digits(s, pos) <= s.len(),
    decreases s.len() - pos,
{
    if pos < s.len() && is_digit(s[pos]) {
        lemma_skip_digits_bounds(s, pos + 1);
    }
}

/// Scanning digits inside a window of `s` is scanning digits in the window
/// taken by itself, as long as the scan stays inside the window.
proof fn lemma_skip_digits_sub(s: Seq<u8>, base: int, e: int, p: int)
    requires
        0 <= base <= p <= e <= s.len(),
        skip_digits(s, p) <= e,
    ensures
        skip_digits(s.subrange(base, e), p - base) == skip_digits(s, p) - base,
    decreases e - p,
{
    if p < e && is_digit(s[p]) {
        lemma_skip_digits_sub(s, base, e, p + 1);
    } else if p < s.len() && is_digit(s[p]) {
        lemma_skip_digits_bounds(s, p + 1);
        assert(false);
    }
}

/// The bytes of a recognised literal, taken by themselves, are one whole
/// literal.
proof fn lemma_literal_end_sub(s: Seq<u8>, pos: int, e: int)
    requires
        literal_end(s, pos) == Some(e),
    ensures
        pos < e <= s.len(),
        is_literal_bytes(s.subrange(pos, e)),
{
    let sub = s.subrange(pos, e);
    if is_digit(s[pos]) {
        let d = skip_digits(s, pos);
        lemma_skip_digits_bounds(s, pos + 1);
        let m = if d < s.len() && s[d] == 46 {
            skip_digits(s, d + 1)
        } else {
            d
        };
        if d < s.len() && s[d] == 46 {
            lemma_skip_digits_bounds(s, d + 1);
        }
        // the exponent decision fixes e
        if m < s.len() && (s[m] == 101 || s[m] == 69) {
            let e0 = if m + 1 < s.len() && (s[m + 1] == 43 || s[m + 1] == 45) {
                m + 2
            } else {
                m + 1
            };
            lemma_skip_digits_bounds(s, if e0 <= s.len() { e0 } else { s.len() as int });
            if skip_digits(s, e0) > e0 {
                // exponent consumed: e == skip_digits(s, e0)
                lemma_skip_digits_sub(s, pos, e, pos);
                if d < s.len() && s[d] == 46 {
                    lemma_skip_digits_sub(s, pos, e, d + 1);
                }
                lemma_skip_digits_sub(s, pos, e, e0);
                assert(literal_end(sub, 0) == Some(e - pos));
            } else {
                // exponent not consumed: e == m
                lemma_skip_digits_sub(s, pos, e, pos);
                if d < s.len() && s[d] == 46 {
                    lemma_skip_digits_sub(s, pos, e, d + 1);
                }
                assert(literal_end(sub, 0) == Some(e - pos));
            }
        } else {
            lemma_skip_digits_sub(s, pos, e, pos);
            if d < s.len() && s[d] == 46 {
                lemma_skip_digits_sub(s, pos, e, d + 1);
            }
            assert(literal_end(sub, 0) == Some(e - pos));
        }
    } else {
        // leading dot
        let d = skip_digits(s, pos + 1);
        lemma_skip_digits_bounds(s, pos + 1);
        let m = d;
        if m < s.len() && (s[m] == 101 || s[m] == 69) {
            let e0 = if m + 1 < s.len() && (s[m + 1] == 43 || s[m + 1] == 45) {
                m + 2
            } else {
                m + 1
            };
            lemma_skip_digits_bounds(s, if e0 <= s.len() { e0 } else { s.len() as int });
            if skip_digits(s, e0) > e0 {
                lemma_skip_digits_sub(s, pos, e, pos + 1);
                lemma_skip_digits_sub(s, pos, e, e0);
                assert(literal_end(sub, 0) == Some(e - pos));
            } else {
                lemma_skip_digits_sub(s, pos, e, pos + 1);
                assert(literal_end(sub, 0) == Some(e - pos));
            }
        } else {
            lemma_skip_digits_sub(s, pos, e, pos + 1);
            assert(literal_end(sub, 0) == Some(e - pos));
        }
    }
}

/// Blanks skipped, executably.
fn space(input: &[u8], pos: usize) -> (r: usize)
    requires
        pos <= input@.len(),
    ensures
        r as int == sp_space(input@, pos as int),
        pos <= r <= input@.len(),
{
    let mut k = pos;
    while k < input.len() && input[k] == SPACE
        invariant
            pos <= k <= input@.len(),
            sp_space(input@, pos as int) == sp_space(input@, k as int),
        decreases input@.len() - k,
    {
        k = k + 1;
    }
    k
}

/// Digits skipped, executably.
fn digits_end(input: &[u8], pos: usize) -> (r: usize)
    requires
        pos <= input@.len(),
    ensures
        r as int == skip_digits(input@, pos as int),
        pos <= r <= input@.len(),
{
    let mut k = pos;
    while k < input.len() && 48 <= input[k] && input[k] <= 57
        invariant
            pos <= k <= input@.len(),
            skip_digits(input@, pos as int) == skip_digits(input@, k as int),
        decreases input@.len() - k,
    {
        k = k + 1;
    }
    k
}

/// An identifier, as the text it covers.
fn identifier(input: &[u8], pos: usize) -> (r: Option<(usize, String)>)
    requires
        pos <= input@.len(),
    ensures
        match r {
            Some((p2, name)) => {
                &&& sp_identifier(input@, pos as int) == Some(
                    (p2 as int, input@.subrange(pos as int, p2 as int)),
                )
                &&& name@ == chars_of_bytes(input@.subrange(pos as int, p2 as int))
                &&& pos < p2 <= input@.len()
            },
            None => sp_identifier(input@, pos as int) is None,
        },
{
    let mut bytes: Vec<u8> = Vec::new();
    let mut k = pos;
    while k < input.len() && (65 <= input[k] && input[k] <= 90 || 97 <= input[k] && input[k]
        <= 122)
        invariant
            pos <= k <= input@.len(),
            skip_alpha(input@, pos as int) == skip_alpha(input@, k as int),
            bytes@ == input@.subrange(pos as int, k as int),
            forall|i: int| 0 <= i < bytes@.len() ==> (#[trigger] bytes@[i]) < 128,
        decreases input@.len() - k,
    {
        bytes.push(input[k]);
        proof {
            assert(bytes@ =~= input@.subrange(pos as int, k + 1));
        }
        k = k + 1;
    }
    if k == pos {
        return None;
    }
    let name = crate::float_bits::ascii_to_string(bytes.as_slice());
    Some((k, name))
}

/// An operator token, executably.
fn operation(input: &[u8], pos: usize) -> (r: Option<(usize, Operation)>)
    requires
        pos <= input@.len(),
    ensures
        match r {
            Some((p2, op)) => sp_operation(input@, pos as int) == Some((p2 as int, op)) && pos
                < p2 <= input@.len(),
            None => sp_operation(input@, pos as int) is None,
        },
{
    let n = input.len();
    if n - pos >= 2 && input[pos] == 124 && input[pos + 1] == 124 {
        Some((pos + 2, Operation::Or))
    } else if n - pos >= 2 && input[pos] == 38 && input[pos + 1] == 38 {
        Some((pos + 2, Operation::And))
    } else if n - pos >= 2 && input[pos] == 61 && input[pos + 1] == 61 {
        Some((pos + 2, Operation::Equal))
    } else if n - pos >= 2 && input[pos] == 33 && input[pos + 1] == 61 {
        Some((pos + 2, Operation::NotEqual))
    } else if n - pos >= 1 && input[pos] == 43 {
        Some((pos + 1, Operation::Plus))
    } else if n - pos >= 1 && input[pos] == 45 {
        Some((pos + 1, Operation::Minus))
    } else if n - pos >= 1 && input[pos] == 47 {
        Some((pos + 1, Operation::Divide))
    } else if n - pos >= 1 && input[pos] == 42 {
        Some((pos + 1, Operation::Multiply))
    } else if n - pos >= 1 && input[pos] == 62 {
        Some((pos + 1, Operation::More))
    } else if n - pos >= 1 && input[pos] == 60 {
        Some((pos + 1, Operation::Less))
    } else {
        None
    }
}

/// An additive operator, executably.
fn plus_minus_oper(input: &[u8], pos: usize) -> (r: Option<(usize, Operation)>)
    requires
        pos <= input@.len(),
    ensures
        match r {
            Some((p2, op)) => sp_plus_minus(input@, pos as int) == Some((p2 as int, op)) && pos
                < p2 <= input@.len(),
            None => sp_plus_minus(input@, pos as int) is None,
        },
{
    match operation(input, pos) {
        Some((p, op)) => if matches!(op, Operation::Plus) || matches!(op, Operation::Minus) {
            Some((p, op))
        } else {
            None
        },
        None => None,
    }
}

/// A multiplicative operator, executably.
fn div_multi_oper(input: &[u8], pos: usize) -> (r: Option<(usize, Operation)>)
    requires
        pos <= input@.len(),
    ensures
        match r {
            Some((p2, op)) => sp_div_multi(input@, pos as int) == Some((p2 as int, op)) && pos
                < p2 <= input@.len(),
            None => sp_div_multi(input@, pos as int) is None,
        },
{
    match operation(input, pos) {
        Some((p, op)) => if matches!(op, Operation::Multiply) || matches!(op, Operation::Divide) {
            Some((p, op))
        } else {
            None
        },
        None => None,
    }
}

/// A logical or relational operator, executably.
fn logic_oper(input: &[u8], pos: usize) -> (r: Option<(usize, Operation)>)
    requires
        pos <= input@.len(),
    ensures
        match r {
            Some((p2, op)) => sp_logic_oper(input@, pos as int) == Some((p2 as int, op)) && pos
                < p2 <= input@.len(),
            None => sp_logic_oper(input@, pos as int) is None,
        },
{
    match operation(input, pos) {
        Some((p, op)) => if !op.is_arithmetic() {
            Some((p, op))
        } else {
            None
        },
        None => None,
    }
}

/// A number literal, executably: the literal is recognised, then read into
/// a value.
fn number(input: &[u8], pos: usize) -> (r: Option<(usize, Node)>)
    requires
        pos <= input@.len(),
    ensures
        match r {
            Some((p2, nd)) => sp_number(input@, pos as int) == Some((p2 as int, node_view(nd)))
                && pos < p2 <= input@.len(),
            None => sp_number(input@, pos as int) is None,
        },
{
    let n = input.len();
    if pos >= n {
        return None;
    }
    let m_opt: Option<usize> = if 48 <= input[pos] && input[pos] <= 57 {
        let d = digits_end(input, pos);
        if d < n && input[d] == 46 {
            Some(digits_end(input, d + 1))
        } else {
            Some(d)
        }
    } else if input[pos] == 46 {
        let d = digits_end(input, pos + 1);
        if d > pos + 1 {
            Some(d)
        } else {
            None
        }
    } else {
        None
    };
    let m = match m_opt {
        Some(m) => m,
        None => {
            return None;
        },
    };
    let e = if m < n && (input[m] == 101 || input[m] == 69) {
        let e0 = if m + 1 < n && (input[m + 1] == 43 || input[m + 1] == 45) {
            m + 2
        } else {
            m + 1
        };
        let d = digits_end(input, e0);
        if d > e0 {
            d
        } else {
            m
        }
    } else {
        m
    };
    proof {
        assert(literal_end(input@, pos as int) == Some(e as int));
        lemma_literal_end_sub(input@, pos as int, e as int);
    }
    let mut lit: Vec<u8> = Vec::new();
    let mut j = pos;
    while j < e
        invariant
            pos <= j <= e <= input@.len(),
            lit@ == input@.subrange(pos as int, j as int),
        decreases e - j,
    {
        lit.push(input[j]);
        proof {
            assert(lit@ =~= input@.subrange(pos as int, j + 1));
        }
        j = j + 1;
    }
    match parse_number(lit.as_slice()) {
        Some(bits) => Some((e, Node::Constant(Value::Number(bits)))),
        None => {
            proof {
                assert(false);
            }
            None
        },
    }
}

/// A parenthesised expression, executably.
fn brackets_expression(input: &[u8], pos: usize) -> (r: Option<(usize, Node)>)
    requires
        pos <= input@.len(),
    ensures
        match r {
            Some((p2, nd)) => sp_brackets(input@, pos as int) == Some(
                (p2 as int, node_view(nd)),
            ) && pos < p2 <= input@.len(),
            None => sp_brackets(input@, pos as int) is None,
        },
    decreases input@.len() - pos, 1nat,
{
    if !(pos < input.len() && input[pos] == 40) {
        return None;
    }
    let p1 = space(input, pos + 1);
    let (p2, node) = match expression(input, p1) {
        Some(x) => x,
        None => {
            return None;
        },
    };
    let p3 = space(input, p2);
    if p3 < input.len() && input[p3] == 41 {
        Some((p3 + 1, node))
    } else {
        None
    }
}

/// A call, executably.
fn call(input: &[u8], pos: usize) -> (r: Option<(usize, Node)>)
    requires
        pos <= input@.len(),
    ensures
        match r {
            Some((p2, nd)) => sp_call(input@, pos as int) == Some((p2 as int, node_view(nd)))
                && pos < p2 <= input@.len(),
            None => sp_call(input@, pos as int) is None,
        },
    decreases input@.len() - pos, 1nat,
{
    let p1 = space(input, pos);
    let (p2, name) = match identifier(input, p1) {
        Some(x) => x,
        None => {
            return None;
        },
    };
    let p3 = space(input, p2);
    if !(p3 < input.len() && input[p3] == 40) {
        return None;
    }
    let p4 = space(input, p3 + 1);
    let (p5, args) = call_args(input, p4);
    let p6 = space(input, p5);
    if p6 < input.len() && input[p6] == 41 {
        let out = Node::Call(name, args);
        proof {
            assert(node_view(out)->Call_1 =~= sp_call_args(input@, p4 as int).1);
        }
        Some((p6 + 1, out))
    } else {
        None
    }
}

/// A call's argument list, executably.
fn call_args(input: &[u8], pos: usize) -> (r: (usize, Vec<Node>))
    requires
        pos <= input@.len(),
    ensures
        ({
            let (sp, spargs) = sp_call_args(input@, pos as int);
            &&& r.0 as int == sp
            &&& r.1@.len() == spargs.len()
            &&& forall|i: int| 0 <= i < spargs.len() ==> node_view(#[trigger] r.1@[i]) == spargs[i]
            &&& pos <= r.0 <= input@.len()
        }),
    decreases input@.len() - pos, 6nat,
{
    match expression(input, pos) {
        None => (pos, Vec::new()),
        Some((p1, first)) => {
            let mut acc: Vec<Node> = Vec::new();
            acc.push(first);
            proof {
                assert(Seq::new(acc@.len(), |i: int| node_view(acc@[i])) =~= seq![
                    node_view(first),
                ]);
            }
            call_args_rest(input, p1, acc)
        },
    }
}

/// The `, expression` pairs after a call's first argument, executably.
fn call_args_rest(input: &[u8], pos: usize, acc: Vec<Node>) -> (r: (usize, Vec<Node>))
    requires
        pos <= input@.len(),
    ensures
        ({
            let (sp, spargs) = sp_call_args_rest(
                input@,
                pos as int,
                Seq::new(acc@.len(), |i: int| node_view(acc@[i])),
            );
            &&& r.0 as int == sp
            &&& r.1@.len() == spargs.len()
            &&& forall|i: int| 0 <= i < spargs.len() ==> node_view(#[trigger] r.1@[i]) == spargs[i]
            &&& pos <= r.0 <= input@.len()
        }),
    decreases input@.len() - pos, 0nat,
{
    let ghost accv = Seq::new(acc@.len(), |i: int| node_view(acc@[i]));
    let p1 = space(input, pos);
    if !(p1 < input.len() && input[p1] == 44) {
        return (pos, acc);
    }
    let p2 = space(input, p1 + 1);
    match expression(input, p2) {
        Some((p3, arg)) => {
            let mut acc2 = acc;
            acc2.push(arg);
            proof {
                assert(Seq::new(acc2@.len(), |i: int| node_view(acc2@[i])) =~= accv.push(
                    node_view(arg),
                ));
            }
            call_args_rest(input, p3, acc2)
        },
        None => (pos, acc),
    }
}

/// A factor, executably.
fn factor(input: &[u8], pos: usize) -> (r: Option<(usize, Node)>)
    requires
        pos <= input@.len(),
    ensures
        match r {
            Some((p2, nd)) => sp_factor(input@, pos as int) == Some((p2 as int, node_view(nd)))
                && pos < p2 <= input@.len(),
            None => sp_factor(input@, pos as int) is None,
        },
    decreases input@.len() - pos, 2nat,
{
    let p1 = space(input, pos);
    let neg = p1 < input.len() && input[p1] == 45;
    let p2 = if neg {
        p1 + 1
    } else {
        p1
    };
    let p3 = space(input, p2);
    let core = match number(input, p3) {
        Some(x) => Some(x),
        None => match call(input, p3) {
            Some(x) => Some(x),
            None => match identifier(input, p3) {
                Some((p4, name)) => Some((p4, Node::Variable(name))),
                None => brackets_expression(input, p3),
            },
        },
    };
    match core {
        None => None,
        Some((p5, node)) => if neg {
            proof {
                assert(node_view(Node::Constant(Value::Number(0))) == NodeV::Constant(
                    Value::Number(0),
                ));
            }
            Some(
                (
                    p5,
                    Node::BinaryOperation(
                        Operation::Minus,
                        Box::new(Node::Constant(Value::Number(0))),
                        Box::new(node),
                    ),
                ),
            )
        } else {
            Some((p5, node))
        },
    }
}

/// A logic expression, executably.
fn logic(input: &[u8], pos: usize) -> (r: Option<(usize, Node)>)
    requires
        pos <= input@.len(),
    ensures
        match r {
            Some((p2, nd)) => sp_logic(input@, pos as int) == Some((p2 as int, node_view(nd)))
                && pos < p2 <= input@.len(),
            None => sp_logic(input@, pos as int) is None,
        },
    decreases input@.len() - pos, 3nat,
{
    let (p1, left) = match factor(input, pos) {
        Some(x) => x,
        None => {
            return None;
        },
    };
    let p2 = space(input, p1);
    match logic_oper(input, p2) {
        Some((p3, op)) => match logic(input, p3) {
            Some((p4, right)) => Some(
                (p4, Node::BinaryOperation(op, Box::new(left), Box::new(right))),
            ),
            None => None,
        },
        None => Some((p2, left)),
    }
}

/// A term, executably.
fn term(input: &[u8], pos: usize) -> (r: Option<(usize, Node)>)
    requires
        pos <= input@.len(),
    ensures
        match r {
            Some((p2, nd)) => sp_term(input@, pos as int) == Some((p2 as int, node_view(nd)))
                && pos < p2 <= input@.len(),
            None => sp_term(input@, pos as int) is None,
        },
    decreases input@.len() - pos, 4nat,
{
    let (p1, left) = match logic(input, pos) {
        Some(x) => x,
        None => {
            return None;
        },
    };
    let p2 = space(input, p1);
    match div_multi_oper(input, p2) {
        Some((p3, op)) => match term(input, p3) {
            Some((p4, right)) => Some(
                (p4, Node::BinaryOperation(op, Box::new(left), Box::new(right))),
            ),
            None => None,
        },
        None => Some((p2, left)),
    }
}

/// An expression, executably.
fn expression(input: &[u8], pos: usize) -> (r: Option<(usize, Node)>)
    requires
        pos <= input@.len(),
    ensures
        match r {
            Some((p2, nd)) => sp_expression(input@, pos as int) == Some(
                (p2 as int, node_view(nd)),
            ) && pos < p2 <= input@.len(),
            None => sp_expression(input@, pos as int) is None,
        },
    decreases input@.len() - pos, 5nat,
{
    let p0 = space(input, pos);
    let (p1, left) = match term(input, p0) {
        Some(x) => x,
        None => {
            return None;
        },
    };
    let p2 = space(input, p1);
    match plus_minus_oper(input, p2) {
        Some((p3, op)) => match expression(input, p3) {
            Some((p4, right)) => Some(
                (p4, Node::BinaryOperation(op, Box::new(left), Box::new(right))),
            ),
            None => None,
        },
        None => Some((p2, left)),
    }
}

/// A parameter list, executably.
fn params(input: &[u8], pos: usize) -> (r: (usize, Vec<String>))
    requires
        pos <= input@.len(),
    ensures
        ({
            let (sp, spnames) = sp_params(input@, pos as int);
            &&& r.0 as int == sp
            &&& r.1@.len() == spnames.len()
            &&& forall|i: int| 0 <= i < spnames.len() ==> (#[trigger] r.1@[i])@ == spnames[i]
            &&& pos <= r.0 <= input@.len()
        }),
    decreases input@.len() - pos, 6nat,
{
    match identifier(input, pos) {
        None => (pos, Vec::new()),
        Some((p1, name)) => {
            let ghost namev = name@;
            let mut acc: Vec<String> = Vec::new();
            acc.push(name);
            proof {
                assert(Seq::new(acc@.len(), |i: int| acc@[i]@) =~= seq![namev]);
            }
            params_rest(input, p1, acc)
        },
    }
}

/// The `, name` pairs after the first parameter, executably.
fn params_rest(input: &[u8], pos: usize, acc: Vec<String>) -> (r: (usize, Vec<String>))
    requires
        pos <= input@.len(),
    ensures
        ({
            let (sp, spnames) = sp_params_rest(
                input@,
                pos as int,
                Seq::new(acc@.len(), |i: int| acc@[i]@),
            );
            &&& r.0 as int == sp
            &&& r.1@.len() == spnames.len()
            &&& forall|i: int| 0 <= i < spnames.len() ==> (#[trigger] r.1@[i])@ == spnames[i]
            &&& pos <= r.0 <= input@.len()
        }),
    decreases input@.len() - pos,
{
    let ghost accv = Seq::new(acc@.len(), |i: int| acc@[i]@);
    let p1 = space(input, pos);
    if !(p1 < input.len() && input[p1] == 44) {
        return (pos, acc);
    }
    let p2 = space(input, p1 + 1);
    match identifier(input, p2) {
        Some((p3, name)) => {
            let ghost namev = name@;
            let mut acc2 = acc;
            acc2.push(name);
            proof {
                assert(Seq::new(acc2@.len(), |i: int| acc2@[i]@) =~= accv.push(namev));
            }
            params_rest(input, p3, acc2)
        },
        None => (pos, acc),
    }
}

/// A body's `statement ;` pairs, executably.
fn body_items(input: &[u8], pos: usize, acc: Vec<Node>) -> (r: (usize, Vec<Node>))
    requires
        pos <= input@.len(),
    ensures
        ({
            let (sp, spitems) = sp_body_items(
                input@,
                pos as int,
                Seq::new(acc@.len(), |i: int| node_view(acc@[i])),
            );
            &&& r.0 as int == sp
            &&& r.1@.len() == spitems.len()
            &&& forall|i: int| 0 <= i < spitems.len() ==> node_view(#[trigger] r.1@[i])
                == spitems[i]
            &&& pos <= r.0 <= input@.len()
        }),
    decreases input@.len() - pos, 9nat,
{
    let ghost accv = Seq::new(acc@.len(), |i: int| node_view(acc@[i]));
    let p1 = space(input, pos);
    match statement_at(input, p1) {
        None => (pos, acc),
        Some((p2, st)) => {
            let p3 = space(input, p2);
            if p3 < input.len() && input[p3] == 59 {
                let ghost stv = node_view(st);
                let mut acc2 = acc;
                acc2.push(st);
                proof {
                    assert(Seq::new(acc2@.len(), |i: int| node_view(acc2@[i])) =~= accv.push(
                        stv,
                    ));
                }
                body_items(input, p3 + 1, acc2)
            } else {
                (pos, acc)
            }
        },
    }
}

/// A body: the opening brace and what follows it, executably; the caller
/// reads the closing brace.
fn body(input: &[u8], pos: usize) -> (r: Option<(usize, Vec<Node>)>)
    requires
        pos <= input@.len(),
    ensures
        match r {
            Some((p2, items)) => ({
                &&& sp_body(input@, pos as int) is Some
                &&& ({
                    let (sp, spitems) = sp_body(input@, pos as int)->0;
                    &&& p2 as int == sp
                    &&& items@.len() == spitems.len()
                    &&& forall|i: int| 0 <= i < spitems.len() ==> node_view(#[trigger] items@[i])
                        == spitems[i]
                    &&& pos <= p2 <= input@.len()
                })
            }),
            None => sp_body(input@, pos as int) is None,
        },
    decreases input@.len() - pos, 0nat,
{
    let p1 = space(input, pos);
    if p1 < input.len() && input[p1] == 123 {
        let none_yet: Vec<Node> = Vec::new();
        proof {
            assert(Seq::new(none_yet@.len(), |i: int| node_view(none_yet@[i]))
                =~= Seq::<NodeV>::empty());
        }
        Some(body_items(input, p1 + 1, none_yet))
    } else {
        None
    }
}

/// A function definition, executably.
fn function(input: &[u8], pos: usize) -> (r: Option<(usize, Node)>)
    requires
        pos <= input@.len(),
    ensures
        match r {
            Some((p2, nd)) => sp_function(input@, pos as int) == Some(
                (p2 as int, node_view(nd)),
            ) && pos < p2 <= input@.len(),
            None => sp_function(input@, pos as int) is None,
        },
    decreases input@.len() - pos, 6nat,
{
    let p1 = space(input, pos);
    if !(input.len() - p1 >= 2 && input[p1] == 102 && input[p1 + 1] == 110) {
        return None;
    }
    let p2 = space(input, p1 + 2);
    let (p3, name) = match identifier(input, p2) {
        Some(x) => x,
        None => {
            return None;
        },
    };
    let p4 = space(input, p3);
    if !(p4 < input.len() && input[p4] == 40) {
        return None;
    }
    let p5 = space(input, p4 + 1);
    let (p6, parameters) = params(input, p5);
    let p7 = space(input, p6);
    if !(p7 < input.len() && input[p7] == 41) {
        return None;
    }
    let p8 = space(input, p7 + 1);
    let (p9, items) = match body(input, p8) {
        Some(x) => x,
        None => {
            return None;
        },
    };
    let p10 = space(input, p9);
    if p10 < input.len() && input[p10] == 125 {
        let blk = Node::Block(items);
        proof {
            let sbody = sp_body(input@, p8 as int)->0;
            assert(node_view(blk)->Block_0 =~= sbody.1);
        }
        let f = crate::node::Function { parameters, body: Box::new(blk) };
        proof {
            assert(crate::node::function_view(f).parameters =~= sp_params(
                input@,
                p5 as int,
            ).1);
        }
        Some((p10 + 1, Node::Function(name, f)))
    } else {
        None
    }
}

/// An optional `else` body, executably.
fn else_block(input: &[u8], pos: usize) -> (r: Option<(usize, Option<Box<Node>>)>)
    requires
        pos <= input@.len(),
    ensures
        match r {
            Some((p2, els)) => ({
                &&& sp_else_block(input@, pos as int) is Some
                &&& ({
                    let (sp, spels) = sp_else_block(input@, pos as int)->0;
                    &&& p2 as int == sp
                    &&& (match (els, spels) {
                        (Some(b), Some(sb)) => node_view(*b) == *sb,
                        (None, None) => true,
                        _ => false,
                    })
                    &&& pos <= p2 <= input@.len()
                })
            }),
            None => sp_else_block(input@, pos as int) is None,
        },
    decreases input@.len() - pos, 0nat,
{
    let p1 = space(input, pos);
    if !(input.len() - p1 >= 4 && input[p1] == 101 && input[p1 + 1] == 108 && input[p1 + 2] == 115
        && input[p1 + 3] == 101) {
        return Some((p1, None));
    }
    let p2 = space(input, p1 + 4);
    let (p3, items) = match body(input, p2) {
        Some(x) => x,
        None => {
            return None;
        },
    };
    let p4 = space(input, p3);
    if p4 < input.len() && input[p4] == 125 {
        let blk = Node::Block(items);
        proof {
            let sbody = sp_body(input@, p2 as int)->0;
            assert(node_view(blk)->Block_0 =~= sbody.1);
        }
        Some((p4 + 1, Some(Box::new(blk))))
    } else {
        None
    }
}

/// An `if`/`else`, executably.
fn if_else(input: &[u8], pos: usize) -> (r: Option<(usize, Node)>)
    requires
        pos <= input@.len(),
    ensures
        match r {
            Some((p2, nd)) => sp_if_else(input@, pos as int) == Some((p2 as int, node_view(nd)))
                && pos < p2 <= input@.len(),
            None => sp_if_else(input@, pos as int) is None,
        },
    decreases input@.len() - pos, 6nat,
{
    let p1 = space(input, pos);
    if !(input.len() - p1 >= 2 && input[p1] == 105 && input[p1 + 1] == 102) {
        return None;
    }
    let p2 = space(input, p1 + 2);
    let (p3, condition) = match expression(input, p2) {
        Some(x) => x,
        None => {
            return None;
        },
    };
    let p4 = space(input, p3);
    let (p5, items) = match body(input, p4) {
        Some(x) => x,
        None => {
            return None;
        },
    };
    let p6 = space(input, p5);
    if !(p6 < input.len() && input[p6] == 125) {
        return None;
    }
    let (p7, els) = match else_block(input, p6 + 1) {
        Some(x) => x,
        None => {
            return None;
        },
    };
    let blk = Node::Block(items);
    proof {
        let sbody = sp_body(input@, p4 as int)->0;
        assert(node_view(blk)->Block_0 =~= sbody.1);
    }
    Some((p7, Node::IfElse(Box::new(condition), Box::new(blk), els)))
}

/// A `while`, executably.
fn while_ident(input: &[u8], pos: usize) -> (r: Option<(usize, Node)>)
    requires
        pos <= input@.len(),
    ensures
        match r {
            Some((p2, nd)) => sp_while(input@, pos as int) == Some((p2 as int, node_view(nd)))
                && pos < p2 <= input@.len(),
            None => sp_while(input@, pos as int) is None,
        },
    decreases input@.len() - pos, 6nat,
{
    let p1 = space(input, pos);
    if !(input.len() - p1 >= 5 && input[p1] == 119 && input[p1 + 1] == 104 && input[p1 + 2] == 105
        && input[p1 + 3] == 108 && input[p1 + 4] == 101) {
        return None;
    }
    let p2 = space(input, p1 + 5);
    let (p3, condition) = match expression(input, p2) {
        Some(x) => x,
        None => {
            return None;
        },
    };
    let p4 = space(input, p3);
    let (p5, items) = match body(input, p4) {
        Some(x) => x,
        None => {
            return None;
        },
    };
    let p6 = space(input, p5);
    if p6 < input.len() && input[p6] == 125 {
        let blk = Node::Block(items);
        proof {
            let sbody = sp_body(input@, p4 as int)->0;
            assert(node_view(blk)->Block_0 =~= sbody.1);
        }
        Some((p6 + 1, Node::While(Box::new(condition), Box::new(blk))))
    } else {
        None
    }
}

/// An assignment, executably.
fn assignment(input: &[u8], pos: usize) -> (r: Option<(usize, Node)>)
    requires
        pos <= input@.len(),
    ensures
        match r {
            Some((p2, nd)) => sp_assignment(input@, pos as int) == Some(
                (p2 as int, node_view(nd)),
            ) && pos < p2 <= input@.len(),
            None => sp_assignment(input@, pos as int) is None,
        },
    decreases input@.len() - pos, 6nat,
{
    let p1 = space(input, pos);
    let (p2, name) = match identifier(input, p1) {
        Some(x) => x,
        None => {
            return None;
        },
    };
    let p3 = space(input, p2);
    if !(p3 < input.len() && input[p3] == 61) {
        return None;
    }
    let p4 = space(input, p3 + 1);
    match expression(input, p4) {
        Some((p5, e)) => Some((p5, Node::Assignment(name, Box::new(e)))),
        None => None,
    }
}

/// One statement starting at a position, executably.
fn statement_at(input: &[u8], pos: usize) -> (r: Option<(usize, Node)>)
    requires
        pos <= input@.len(),
    ensures
        match r {
            Some((p2, nd)) => sp_statement(input@, pos as int) == Some(
                (p2 as int, node_view(nd)),
            ) && pos < p2 <= input@.len(),
            None => sp_statement(input@, pos as int) is None,
        },
    decreases input@.len() - pos, 8nat,
{
    match function(input, pos) {
        Some(x) => Some(x),
        None => match while_ident(input, pos) {
            Some(x) => Some(x),
            None => match if_else(input, pos) {
                Some(x) => Some(x),
                None => match assignment(input, pos) {
                    Some(x) => Some(x),
                    None => expression(input, pos),
                },
            },
        },
    }
}

/// One statement read from the front of a line. On success the returned
/// count says how many bytes were consumed; what follows them is the
/// caller's to inspect (a non-empty remainder is not an error). On failure
/// the error carries the position where the statement would have begun.
pub fn statement(input: &[u8]) -> (r: Result<(usize, Node), SyntaxError>)
    ensures
        match r {
            Ok((n, nd)) => sp_statement(input@, 0) == Some((n as int, node_view(nd))) && n
                <= input@.len(),
            Err(e) => sp_statement(input@, 0) is None && e.pos <= input@.len(),
        },
{
    match statement_at(input, 0) {
        Some((n, nd)) => Ok((n, nd)),
        None => Err(SyntaxError { pos: space(input, 0) }),
    }
}

} // verus!
