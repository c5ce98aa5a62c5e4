//! Pretty-printing: the source text a tree prints as, mirroring the
//! grammar. Used for display; evaluation never calls it.
use vstd::prelude::*;

use crate::float_bits::{format_number, number_text};
use crate::node::{Node, NodeV, Operation, Value, function_view, node_view};

verus! {

/// The text a value prints as.
pub open spec fn value_text(v: Value) -> Seq<char> {
    match v {
        Value::Nil => "None"@,
        Value::Bool(b) => if b {
            "true"@
        } else {
            "false"@
        },
        Value::Number(bits) => number_text(bits),
    }
}

/// The text a tree prints as.
pub open spec fn node_text(n: NodeV) -> Seq<char>
    decreases n, 0nat,
{
    match n {
        NodeV::Constant(v) => value_text(v),
        NodeV::BinaryOperation(op, l, r) => node_text(*l) + op.token() + node_text(*r),
        NodeV::Variable(name) => name,
        NodeV::Assignment(name, value) => name + "="@ + node_text(*value),
        NodeV::Block(body) => block_text(body),
        NodeV::Function(name, f) => "fn "@ + name + "("@ + params_text(f.parameters) + ") {\n"@
            + node_text(*f.body) + "}\n"@,
        NodeV::Call(name, args) => name + "("@ + args_text(args) + ")"@,
        NodeV::IfElse(c, t, e) => {
            let head = "if "@ + node_text(*c) + " {\n"@ + node_text(*t) + "}\n"@;
            match e {
                Some(b) => head + "else {\n"@ + node_text(*b) + "}\n"@,
                None => head,
            }
        },
        NodeV::While(c, b) => "while "@ + node_text(*c) + " {\n"@ + node_text(*b) + "}\n"@,
        NodeV::For(i, c, b, st) => "for "@ + node_text(*i) + "; "@ + node_text(*c) + "; "@
            + node_text(*st) + " {\n"@ + node_text(*b) + "}\n"@,
    }
}

/// A block's statements, each behind two blanks, joined by `;` and a line
/// break.
pub open spec fn block_text(body: Seq<NodeV>) -> Seq<char>
    decreases body, 1nat,
{
    if body.len() == 0 {
        Seq::empty()
    } else if body.len() == 1 {
        "  "@ + node_text(body[0])
    } else {
        "  "@ + node_text(body[0]) + ";\n"@ + block_text(body.drop_first())
    }
}

/// A call's arguments, joined by a comma and a blank.
pub open spec fn args_text(args: Seq<NodeV>) -> Seq<char>
    decreases args, 1nat,
{
    if args.len() == 0 {
        Seq::empty()
    } else if args.len() == 1 {
        node_text(args[0])
    } else {
        node_text(args[0]) + ", "@ + args_text(args.drop_first())
    }
}

/// A function's parameters, joined by a comma and a blank.
pub open spec fn params_text(params: Seq<Seq<char>>) -> Seq<char>
    decreases params.len(),
{
    if params.len() == 0 {
        Seq::empty()
    } else if params.len() == 1 {
        params[0]
    } else {
        params[0] + ", "@ + params_text(params.drop_first())
    }
}

impl Value {
    /// The text the value prints as.
    pub fn to_string(&self) -> (r: String)
        ensures
            r@ == value_text(*self),
    {
        match self {
            Value::Nil => String::from_str("None"),
            Value::Bool(b) => if *b {
                String::from_str("true")
            } else {
                String::from_str("false")
            },
            Value::Number(bits) => format_number(*bits),
        }
    }
}

impl Operation {
    /// The operator's source token.
    pub fn to_string(&self) -> (r: String)
        ensures
            r@ == self.token(),
    {
        match self {
            Operation::Plus => String::from_str("+"),
            Operation::Minus => String::from_str("-"),
            Operation::Divide => String::from_str("/"),
            Operation::Multiply => String::from_str("*"),
            Operation::Less => String::from_str("<"),
            Operation::More => String::from_str(">"),
            Operation::Equal => String::from_str("=="),
            Operation::NotEqual => String::from_str("!="),
            Operation::Or => String::from_str("||"),
            Operation::And => String::from_str("&&"),
        }
    }
}

/// The text of a block's statements from one index on.
fn block_tail_string(body: &Vec<Node>, k: usize) -> (r: String)
    requires
        k <= body@.len(),
    ensures
        r@ == block_text(Seq::new(body@.len(), |i: int| node_view(body@[i])).skip(k as int)),
    decreases body, body@.len() - k,
{
    let ghost views = Seq::new(body@.len(), |i: int| node_view(body@[i]));
    let mut s = String::new();
    if k == body.len() {
        proof {
            assert(views.skip(k as int) =~= Seq::<NodeV>::empty());
        }
        return s;
    }
    s.append("  ");
    s.append(body[k].to_string().as_str());
    if k + 1 == body.len() {
        proof {
            assert(views.skip(k as int) =~= seq![views[k as int]]);
            assert(s@ =~= "  "@ + node_text(views[k as int]));
        }
        return s;
    }
    s.append(";\n");
    let rest = block_tail_string(body, k + 1);
    s.append(rest.as_str());
    proof {
        assert(views.skip(k as int).drop_first() =~= views.skip(k as int + 1));
        assert(views.skip(k as int)[0] == views[k as int]);
        assert(s@ =~= "  "@ + node_text(views[k as int]) + ";\n"@ + block_text(
            views.skip(k as int + 1),
        ));
    }
    s
}

/// The text of a call's arguments from one index on.
fn args_tail_string(args: &Vec<Node>, k: usize) -> (r: String)
    requires
        k <= args@.len(),
    ensures
        r@ == args_text(Seq::new(args@.len(), |i: int| node_view(args@[i])).skip(k as int)),
    decreases args, args@.len() - k,
{
    let ghost views = Seq::new(args@.len(), |i: int| node_view(args@[i]));
    let mut s = String::new();
    if k == args.len() {
        proof {
            assert(views.skip(k as int) =~= Seq::<NodeV>::empty());
        }
        return s;
    }
    s.append(args[k].to_string().as_str());
    if k + 1 == args.len() {
        proof {
            assert(views.skip(k as int) =~= seq![views[k as int]]);
            assert(s@ =~= node_text(views[k as int]));
        }
        return s;
    }
    s.append(", ");
    let rest = args_tail_string(args, k + 1);
    s.append(rest.as_str());
    proof {
        assert(views.skip(k as int).drop_first() =~= views.skip(k as int + 1));
        assert(views.skip(k as int)[0] == views[k as int]);
        assert(s@ =~= node_text(views[k as int]) + ", "@ + args_text(views.skip(k as int + 1)));
    }
    s
}

/// The text of a parameter list from one index on.
fn params_tail_string(params: &Vec<String>, k: usize) -> (r: String)
    requires
        k <= params@.len(),
    ensures
        r@ == params_text(Seq::new(params@.len(), |i: int| params@[i]@).skip(k as int)),
    decreases params@.len() - k,
{
    let ghost views = Seq::new(params@.len(), |i: int| params@[i]@);
    let mut s = String::new();
    if k == params.len() {
        proof {
            assert(views.skip(k as int) =~= Seq::<Seq<char>>::empty());
        }
        return s;
    }
    s.append(params[k].as_str());
    if k + 1 == params.len() {
        proof {
            assert(views.skip(k as int) =~= seq![views[k as int]]);
        }
        return s;
    }
    s.append(", ");
    let rest = params_tail_string(params, k + 1);
    s.append(rest.as_str());
    proof {
        assert(views.skip(k as int).drop_first() =~= views.skip(k as int + 1));
        assert(views.skip(k as int)[0] == views[k as int]);
        assert(s@ =~= views[k as int] + ", "@ + params_text(views.skip(k as int + 1)));
    }
    s
}

impl Node {
    /// The source text the tree prints as; a pure pretty-printer, no part
    /// of evaluation.
    pub fn to_string(&self) -> (r: String)
        ensures
            r@ == node_text(node_view(*self)),
        decreases self, 0nat,
    {
        match self {
            Node::Constant(v) => v.to_string(),
            Node::BinaryOperation(op, l, r) => {
                let mut s = l.to_string();
                s.append(op.to_string().as_str());
                s.append(r.to_string().as_str());
                s
            },
            Node::Variable(name) => name.clone(),
            Node::Assignment(name, value) => {
                let mut s = name.clone();
                s.append("=");
                s.append(value.to_string().as_str());
                s
            },
            Node::Block(body) => {
                let r = block_tail_string(body, 0);
                proof {
                    let views = Seq::new(body@.len(), |i: int| node_view(body@[i]));
                    assert(views.skip(0) =~= views);
                    assert(views =~= node_view(*self)->Block_0);
                }
                r
            },
            Node::Function(name, f) => {
                let mut s = String::from_str("fn ");
                s.append(name.as_str());
                s.append("(");
                let p = params_tail_string(&f.parameters, 0);
                s.append(p.as_str());
                s.append(") {\n");
                s.append(f.body.to_string().as_str());
                s.append("}\n");
                proof {
                    let views = Seq::new(f.parameters@.len(), |i: int| f.parameters@[i]@);
                    assert(views.skip(0) =~= views);
                    assert(function_view(*f).parameters =~= views);
                    assert(s@ =~= node_text(node_view(*self)));
                }
                s
            },
            Node::Call(name, args) => {
                let mut s = name.clone();
                s.append("(");
                let a = args_tail_string(args, 0);
                s.append(a.as_str());
                s.append(")");
                proof {
                    let views = Seq::new(args@.len(), |i: int| node_view(args@[i]));
                    assert(views.skip(0) =~= views);
                    assert(views =~= node_view(*self)->Call_1);
                    assert(s@ =~= node_text(node_view(*self)));
                }
                s
            },
            Node::IfElse(c, t, e) => {
                let mut s = String::from_str("if ");
                s.append(c.to_string().as_str());
                s.append(" {\n");
                s.append(t.to_string().as_str());
                s.append("}\n");
                match e {
                    Some(b) => {
                        s.append("else {\n");
                        s.append(b.to_string().as_str());
                        s.append("}\n");
                        proof {
                            assert(s@ =~= node_text(node_view(*self)));
                        }
                        s
                    },
                    None => {
                        proof {
                            assert(s@ =~= node_text(node_view(*self)));
                        }
                        s
                    },
                }
            },
            Node::While(c, b) => {
                let mut s = String::from_str("while ");
                s.append(c.to_string().as_str());
                s.append(" {\n");
                s.append(b.to_string().as_str());
                s.append("}\n");
                proof {
                    assert(s@ =~= node_text(node_view(*self)));
                }
                s
            },
            Node::For(i, c, b, st) => {
                let mut s = String::from_str("for ");
                s.append(i.to_string().as_str());
                s.append("; ");
                s.append(c.to_string().as_str());
                s.append("; ");
                s.append(st.to_string().as_str());
                s.append(" {\n");
                s.append(b.to_string().as_str());
                s.append("}\n");
                proof {
                    assert(s@ =~= node_text(node_view(*self)));
                }
                s
            },
        }
    }
}

} // verus!
