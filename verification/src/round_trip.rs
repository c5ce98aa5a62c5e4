//! The round trip: a tree of the shape the expression grammar produces,
//! printed with `node_text` and parsed back with the expression rule,
//! comes back as the same tree — so re-evaluating it yields the same
//! value against any environment.
use vstd::prelude::*;

use crate::float_bits::{
    ascii_bytes, char_digits_end, is_digit_char, is_finite_bits, literal_bits, number_text,
    plain_number_chars, sign_bit,
};
use crate::context::ContextV;
use crate::node::{NodeV, Operation, Value};
use crate::semantics::spec_eval;
use crate::parser::{
    chars_of_bytes, is_alpha, is_digit, literal_end, skip_alpha, skip_digits, sp_call,
    sp_div_multi, sp_expression, sp_factor, sp_identifier, sp_logic, sp_logic_oper, sp_number,
    sp_plus_minus, sp_space, sp_term,
};
use crate::text::node_text;

verus! {

pub open spec fn is_alpha_char(c: char) -> bool {
    ('A' <= c <= 'Z') || ('a' <= c <= 'z')
}

/// A leaf of the class: a variable with a purely alphabetic name, or a
/// finite, non-negative number constant.
pub open spec fn rt_leaf(n: NodeV) -> bool {
    match n {
        NodeV::Variable(name) => name.len() > 0 && forall|i: int|
            0 <= i < name.len() ==> is_alpha_char(#[trigger] name[i]),
        NodeV::Constant(v) => v is Number && is_finite_bits(v->Number_0) && !sign_bit(
            v->Number_0,
        ),
        _ => false,
    }
}

/// What the number printer is trusted to do for every finite, non-negative
/// constant of a tree: print a plain literal that reads back as the same
/// value. `format_number` grants exactly this of each value it prints.
pub open spec fn printed_faithfully(n: NodeV) -> bool
    decreases n,
{
    match n {
        NodeV::Constant(v) => plain_number_chars(number_text(v->Number_0)) && literal_bits(
            ascii_bytes(number_text(v->Number_0)),
        ) == v->Number_0,
        NodeV::BinaryOperation(_, l, r) => printed_faithfully(*l) && printed_faithfully(*r),
        _ => true,
    }
}

/// A term of the class: leaves joined to the right by `*` or `/`, the
/// grouping the term rule produces.
pub open spec fn rt_term(n: NodeV) -> bool
    decreases n,
{
    match n {
        NodeV::BinaryOperation(op, l, r) => (op == Operation::Multiply || op
            == Operation::Divide) && rt_leaf(*l) && rt_term(*r),
        _ => rt_leaf(n),
    }
}

/// An expression of the class: terms joined to the right by `+` or `-`,
/// the grouping the expression rule produces.
pub open spec fn rt_expr(n: NodeV) -> bool
    decreases n,
{
    match n {
        NodeV::BinaryOperation(op, l, r) => if op == Operation::Plus || op == Operation::Minus {
            rt_term(*l) && rt_expr(*r)
        } else {
            rt_term(n)
        },
        _ => rt_term(n),
    }
}

/// What may follow a logic-level piece of text without extending it: the
/// end of the input or one of the four arithmetic operator bytes.
pub open spec fn follow_logic(s: Seq<u8>, end: int) -> bool {
    end == s.len() || s[end] == 43 || s[end] == 45 || s[end] == 42 || s[end] == 47
}

/// What may follow a term's text: the end of the input or an additive
/// operator byte.
pub open spec fn follow_term(s: Seq<u8>, end: int) -> bool {
    end == s.len() || s[end] == 43 || s[end] == 45
}

/// An ASCII character survives the trip through its byte.
proof fn lemma_ascii_chars_roundtrip(name: Seq<char>)
    requires
        forall|i: int| 0 <= i < name.len() ==> is_alpha_char(#[trigger] name[i]),
    ensures
        chars_of_bytes(ascii_bytes(name)) == name,
        forall|i: int| 0 <= i < name.len() ==> is_alpha(#[trigger] ascii_bytes(name)[i]),
{
    broadcast use vstd::utf8::char_u32_cast;

    assert forall|i: int| 0 <= i < name.len() implies chars_of_bytes(ascii_bytes(name))[i]
        == name[i] && is_alpha(#[trigger] ascii_bytes(name)[i]) by {
        let c = name[i];
        assert((c as u32) < 128);
        assert((c as u8) as u32 == c as u32);
    }
    assert(chars_of_bytes(ascii_bytes(name)) =~= name);
}

/// An all-letter stretch with a non-letter behind it is exactly what the
/// letter scan covers.
proof fn lemma_skip_alpha_segment(s: Seq<u8>, pos: int, end: int)
    requires
        0 <= pos <= end <= s.len(),
        forall|i: int| pos <= i < end ==> is_alpha(#[trigger] s[i]),
        end == s.len() || !is_alpha(s[end]),
    ensures
        skip_alpha(s, pos) == end,
    decreases end - pos,
{
    if pos < end {
        lemma_skip_alpha_segment(s, pos + 1, end);
    }
}

/// An all-digit stretch with a non-digit behind it is exactly what the
/// digit scan covers.
proof fn lemma_skip_digits_segment(s: Seq<u8>, pos: int, end: int)
    requires
        0 <= pos <= end <= s.len(),
        forall|i: int| pos <= i < end ==> is_digit(#[trigger] s[i]),
        end == s.len() || !is_digit(s[end]),
    ensures
        skip_digits(s, pos) == end,
    decreases end - pos,
{
    if pos < end {
        lemma_skip_digits_segment(s, pos + 1, end);
    }
}

/// What the character-level digit scan says about the characters it
/// covered and the one it stopped at.
proof fn lemma_char_digits_facts(txt: Seq<char>, from: int)
    requires
        0 <= from <= txt.len(),
    ensures
        from <= char_digits_end(txt, from) <= txt.len(),
        forall|k: int| from <= k < char_digits_end(txt, from) ==> is_digit_char(#[trigger] txt[k]),
        char_digits_end(txt, from) == txt.len() || !is_digit_char(
            txt[char_digits_end(txt, from)],
        ),
    decreases txt.len() - from,
{
    if from < txt.len() && is_digit_char(txt[from]) {
        lemma_char_digits_facts(txt, from + 1);
    }
}

/// A plain literal laid in a window with a permitted follower is
/// recognised as a literal ending exactly at the window's end.
proof fn lemma_literal_maximal(s: Seq<u8>, pos: int, end: int, txt: Seq<char>)
    requires
        plain_number_chars(txt),
        0 <= pos <= end <= s.len(),
        s.subrange(pos, end) == ascii_bytes(txt),
        follow_logic(s, end),
    ensures
        literal_end(s, pos) == Some(end),
{
    let n = txt.len() as int;
    assert(s.subrange(pos, end).len() == ascii_bytes(txt).len());
    assert(end - pos == n);
    assert forall|k: int| pos <= k < end implies s[k] == (txt[k - pos] as u8) by {
        assert(s[k] == s.subrange(pos, end)[k - pos]);
    }
    assert forall|k: int| pos <= k < end && is_digit_char(txt[k - pos]) implies is_digit(
        #[trigger] s[k],
    ) by {
        let c = txt[k - pos];
        assert((c as u32) < 128);
    }
    let i = char_digits_end(txt, 0);
    lemma_char_digits_facts(txt, 0);
    if i == n {
        lemma_skip_digits_segment(s, pos, end);
    } else if txt[i] == '.' {
        let f = char_digits_end(txt, i + 1);
        lemma_char_digits_facts(txt, i + 1);
        assert(s[pos + i] == 46);
        lemma_skip_digits_segment(s, pos, pos + i);
        if f == n {
            lemma_skip_digits_segment(s, pos + i + 1, end);
        } else {
            assert(s[pos + f] == 69);
            lemma_skip_digits_segment(s, pos + i + 1, pos + f);
            assert(s[pos + f + 1] == 43 || s[pos + f + 1] == 45);
            lemma_char_digits_facts(txt, f + 2);
            lemma_skip_digits_segment(s, pos + f + 2, end);
        }
    } else {
        assert(s[pos + i] == 69);
        lemma_skip_digits_segment(s, pos, pos + i);
        assert(s[pos + i + 1] == 43 || s[pos + i + 1] == 45);
        lemma_char_digits_facts(txt, i + 2);
        lemma_skip_digits_segment(s, pos + i + 2, end);
    }
}

/// A leaf's text, laid in a window with a permitted follower, is parsed by
/// the factor rule as exactly that leaf, consuming exactly the window.
proof fn lemma_factor_leaf(s: Seq<u8>, pos: int, end: int, t: NodeV)
    requires
        rt_leaf(t),
        printed_faithfully(t),
        0 <= pos <= end <= s.len(),
        s.subrange(pos, end) == ascii_bytes(node_text(t)),
        follow_logic(s, end),
    ensures
        sp_factor(s, pos) == Some((end, t)),
{
    match t {
        NodeV::Variable(name) => {
            lemma_ascii_chars_roundtrip(name);
            assert(end - pos == name.len());
            assert forall|i: int| pos <= i < end implies is_alpha(#[trigger] s[i]) by {
                assert(s[i] == s.subrange(pos, end)[i - pos]);
            }
            assert(is_alpha(s[pos]));
            assert(end == s.len() || !is_alpha(s[end]));
            lemma_skip_alpha_segment(s, pos, end);
            // no blank, no minus, no digit, no dot at the front
            assert(sp_space(s, pos) == pos);
            assert(sp_number(s, pos) is None);
            // a call would need `(` after the name
            assert(sp_space(s, end) == end);
            assert(sp_call(s, pos) is None);
            assert(sp_identifier(s, pos) == Some((end, s.subrange(pos, end))));
            assert(chars_of_bytes(s.subrange(pos, end)) == name);
            assert(sp_factor(s, pos) == Some((end, NodeV::Variable(name))));
        },
        NodeV::Constant(v) => {
            let bits = v->Number_0;
            let txt = number_text(bits);
            assert(node_text(t) == txt);
            lemma_literal_maximal(s, pos, end, txt);
            lemma_char_digits_facts(txt, 0);
            assert(s.subrange(pos, end).len() == ascii_bytes(txt).len());
            assert(pos < end);
            assert(s[pos] == s.subrange(pos, end)[0]);
            assert(s[pos] == (txt[0] as u8));
            assert(is_digit_char(txt[0]));
            assert(48 <= s[pos] <= 57);
            assert(sp_space(s, pos) == pos);
            assert(sp_number(s, pos) == Some(
                (end, NodeV::Constant(Value::Number(literal_bits(s.subrange(pos, end))))),
            ));
            assert(literal_bits(s.subrange(pos, end)) == bits);
            assert(sp_factor(s, pos) == Some((end, t)));
        },
        _ => {
            assert(false);
        },
    }
}

/// A leaf seen at the logic level: the factor, then no logical operator
/// among the permitted followers.
proof fn lemma_logic_leaf(s: Seq<u8>, pos: int, end: int, t: NodeV)
    requires
        rt_leaf(t),
        printed_faithfully(t),
        0 <= pos <= end <= s.len(),
        s.subrange(pos, end) == ascii_bytes(node_text(t)),
        follow_logic(s, end),
    ensures
        sp_logic(s, pos) == Some((end, t)),
{
    lemma_factor_leaf(s, pos, end, t);
    assert(sp_space(s, end) == end);
    assert(sp_logic_oper(s, end) is None);
}

/// A term's text, laid in a window followed by the end or an additive
/// operator, is parsed by the term rule as exactly that term.
proof fn lemma_term_parses(s: Seq<u8>, pos: int, end: int, t: NodeV)
    requires
        rt_term(t),
        printed_faithfully(t),
        0 <= pos <= end <= s.len(),
        s.subrange(pos, end) == ascii_bytes(node_text(t)),
        follow_term(s, end),
    ensures
        sp_term(s, pos) == Some((end, t)),
    decreases t,
{
    match t {
        NodeV::BinaryOperation(op, l, r) => {
            let ltext = ascii_bytes(node_text(*l));
            let rtext = ascii_bytes(node_text(*r));
            let tok: u8 = if op == Operation::Multiply {
                42
            } else {
                47
            };
            reveal_strlit("*");
            reveal_strlit("/");
            assert(op.token() =~= seq![tok as char]);
            assert(ascii_bytes(op.token()) =~= seq![tok]);
            assert(ascii_bytes(node_text(t)) =~= ltext + seq![tok] + rtext);
            let mid = pos + ltext.len();
            assert forall|i: int| pos <= i < end implies s[i] == (ltext + seq![tok] + rtext)[i
                - pos] by {
                assert(s[i] == s.subrange(pos, end)[i - pos]);
            }
            assert(s.subrange(pos, mid) =~= ltext);
            assert(s[mid] == tok);
            assert(s.subrange(mid + 1, end) =~= rtext);
            lemma_logic_leaf(s, pos, mid, *l);
            lemma_term_parses(s, mid + 1, end, *r);
            assert(sp_space(s, mid) == mid);
            assert(sp_div_multi(s, mid) == Some((mid + 1, op)));
        },
        _ => {
            lemma_logic_leaf(s, pos, end, t);
            assert(sp_space(s, end) == end);
            assert(sp_div_multi(s, end) is None);
        },
    }
}

/// An expression's text, filling the input to its end, is parsed by the
/// expression rule as exactly that expression.
proof fn lemma_expr_parses(s: Seq<u8>, pos: int, t: NodeV)
    requires
        rt_expr(t),
        printed_faithfully(t),
        0 <= pos <= s.len(),
        s.subrange(pos, s.len() as int) == ascii_bytes(node_text(t)),
    ensures
        sp_expression(s, pos) == Some((s.len() as int, t)),
    decreases t,
{
    let end = s.len() as int;
    let term_only = match t {
        NodeV::BinaryOperation(op, _, _) => op != Operation::Plus && op != Operation::Minus,
        _ => true,
    };
    if term_only {
        lemma_term_parses(s, pos, end, t);
        lemma_text_first(t);
        assert(s.subrange(pos, end).len() == ascii_bytes(node_text(t)).len());
        assert(pos < end);
        assert(s[pos] == s.subrange(pos, end)[0]);
        assert(sp_space(s, pos) == pos);
        assert(sp_space(s, end) == end);
        assert(sp_plus_minus(s, end) is None);
    } else {
        match t {
            NodeV::BinaryOperation(op, l, r) => {
                let ltext = ascii_bytes(node_text(*l));
                let rtext = ascii_bytes(node_text(*r));
                let tok: u8 = if op == Operation::Plus {
                    43
                } else {
                    45
                };
                reveal_strlit("+");
                reveal_strlit("-");
                assert(op.token() =~= seq![tok as char]);
                assert(ascii_bytes(op.token()) =~= seq![tok]);
                assert(ascii_bytes(node_text(t)) =~= ltext + seq![tok] + rtext);
                let mid = pos + ltext.len();
                assert forall|i: int| pos <= i < end implies s[i] == (ltext + seq![tok]
                    + rtext)[i - pos] by {
                    assert(s[i] == s.subrange(pos, end)[i - pos]);
                }
                assert(s.subrange(pos, mid) =~= ltext);
                assert(s[mid] == tok);
                assert(s.subrange(mid + 1, end) =~= rtext);
                lemma_term_parses(s, pos, mid, *l);
                lemma_expr_parses(s, mid + 1, *r);
                lemma_text_first(*l);
                assert(s[pos] == s.subrange(pos, mid)[0]);
                assert(sp_space(s, pos) == pos);
                assert(sp_space(s, mid) == mid);
                assert(sp_plus_minus(s, mid) == Some((mid + 1, op)));
            },
            _ => {},
        }
    }
}

/// The text of a tree of the class begins with a letter or a digit, never
/// with a blank or a minus.
proof fn lemma_text_first(t: NodeV)
    requires
        rt_expr(t) || rt_term(t) || rt_leaf(t),
        printed_faithfully(t),
    ensures
        node_text(t).len() > 0,
        is_alpha(ascii_bytes(node_text(t))[0]) || is_digit(ascii_bytes(node_text(t))[0]),
        ascii_bytes(node_text(t))[0] != 32,
    decreases t,
{
    broadcast use vstd::utf8::char_u32_cast;

    match t {
        NodeV::BinaryOperation(op, l, r) => {
            lemma_text_first(*l);
            assert(ascii_bytes(node_text(t))[0] == ascii_bytes(node_text(*l))[0]);
        },
        NodeV::Variable(name) => {
            let c = name[0];
            assert(node_text(t) == name);
            assert(ascii_bytes(name)[0] == c as u8);
            assert((c as u32) < 128);
        },
        _ => {
            let bits = t->Constant_0->Number_0;
            let txt = number_text(bits);
            assert(node_text(t) == txt);
            lemma_char_digits_facts(txt, 0);
            let c = txt[0];
            assert(is_digit_char(c));
            assert(ascii_bytes(txt)[0] == c as u8);
            assert((c as u32) < 128);
        },
    }
}

/// The round trip: a tree of the shape the expression grammar produces,
/// printed and re-parsed, is recovered exactly — the whole text is
/// consumed and the same tree comes back, so re-evaluating it yields the
/// same value as the original tree against any environment. The one
/// hypothesis is what the number printer is trusted to do anyway: each
/// constant prints as a plain literal that reads back as the same value.
pub proof fn lemma_round_trip(t: NodeV)
    requires
        rt_expr(t),
    ensures
        printed_faithfully(t) ==> sp_expression(ascii_bytes(node_text(t)), 0) == Some(
            (ascii_bytes(node_text(t)).len() as int, t),
        ),
{
    if printed_faithfully(t) {
        let s = ascii_bytes(node_text(t));
        assert(s.subrange(0, s.len() as int) =~= s);
        lemma_expr_parses(s, 0, t);
    }
}

/// The round trip in the words of evaluation: print, re-parse and
/// re-evaluate, and the value (and the environment left behind) are those
/// of the original tree, whatever the environment and the budget.
pub proof fn lemma_round_trip_eval(t: NodeV, ctx: ContextV, fuel: nat)
    requires
        rt_expr(t),
    ensures
        printed_faithfully(t) ==> ({
            let parsed = sp_expression(ascii_bytes(node_text(t)), 0);
            &&& parsed is Some
            &&& ({
                let hit = parsed->0;
                spec_eval(hit.1, ctx, fuel) == spec_eval(t, ctx, fuel)
            })
        }),
{
    lemma_round_trip(t);
}

} // verus!
