//! The value model and the abstract syntax tree, with their mathematical
//! views.
use vstd::prelude::*;

verus! {

/// The ten operators of the language: four arithmetic, six
/// logical/relational.
#[derive(Debug, PartialEq, Eq, Structural, Clone, Copy)]
pub enum Operation {
    Plus,
    Minus,
    Divide,
    Multiply,
    Less,
    More,
    Equal,
    NotEqual,
    Or,
    And,
}

impl Operation {
    /// The operator a source token denotes, if any.
    pub fn from_string(c: &str) -> (r: Result<Operation, ()>)
        ensures
            r == spec_operation_of(c@),
    {
        let n = c.unicode_len();
        if n == 1 {
            let c0 = c.get_char(0);
            match c0 {
                '+' => Ok(Operation::Plus),
                '-' => Ok(Operation::Minus),
                '/' => Ok(Operation::Divide),
                '*' => Ok(Operation::Multiply),
                '<' => Ok(Operation::Less),
                '>' => Ok(Operation::More),
                _ => Err(()),
            }
        } else if n == 2 {
            let c0 = c.get_char(0);
            let c1 = c.get_char(1);
            if c0 == '=' && c1 == '=' {
                Ok(Operation::Equal)
            } else if c0 == '!' && c1 == '=' {
                Ok(Operation::NotEqual)
            } else if c0 == '|' && c1 == '|' {
                Ok(Operation::Or)
            } else if c0 == '&' && c1 == '&' {
                Ok(Operation::And)
            } else {
                Err(())
            }
        } else {
            Err(())
        }
    }

    /// Whether the operator is one of the four arithmetic ones; the
    /// evaluator type-checks by this partition.
    pub fn is_arithmetic(&self) -> (r: bool)
        ensures
            r == self.is_arith(),
    {
        match self {
            Operation::Plus | Operation::Minus | Operation::Divide | Operation::Multiply => true,
            _ => false,
        }
    }

    pub open spec fn is_arith(self) -> bool {
        self == Operation::Plus || self == Operation::Minus || self == Operation::Divide
            || self == Operation::Multiply
    }

    /// The source token of the operator.
    pub open spec fn token(self) -> Seq<char> {
        match self {
            Operation::Plus => "+"@,
            Operation::Minus => "-"@,
            Operation::Divide => "/"@,
            Operation::Multiply => "*"@,
            Operation::Less => "<"@,
            Operation::More => ">"@,
            Operation::Equal => "=="@,
            Operation::NotEqual => "!="@,
            Operation::Or => "||"@,
            Operation::And => "&&"@,
        }
    }
}

pub open spec fn spec_operation_of(s: Seq<char>) -> Result<Operation, ()> {
    if s.len() == 1 {
        match s[0] {
            '+' => Ok(Operation::Plus),
            '-' => Ok(Operation::Minus),
            '/' => Ok(Operation::Divide),
            '*' => Ok(Operation::Multiply),
            '<' => Ok(Operation::Less),
            '>' => Ok(Operation::More),
            _ => Err(()),
        }
    } else if s.len() == 2 {
        if s[0] == '=' && s[1] == '=' {
            Ok(Operation::Equal)
        } else if s[0] == '!' && s[1] == '=' {
            Ok(Operation::NotEqual)
        } else if s[0] == '|' && s[1] == '|' {
            Ok(Operation::Or)
        } else if s[0] == '&' && s[1] == '&' {
            Ok(Operation::And)
        } else {
            Err(())
        }
    } else {
        Err(())
    }
}

/// A runtime value: nothing, a boolean, or a single-precision number held
/// as its bit pattern.
#[derive(Debug, PartialEq, Eq, Structural, Clone, Copy)]
pub enum Value {
    Nil,
    Bool(bool),
    Number(u32),
}

impl Value {
    pub fn is_number(&self) -> (r: bool)
        ensures
            r == (self is Number),
    {
        match self {
            Value::Number(_) => true,
            _ => false,
        }
    }

    pub fn to_number(&self) -> (r: Option<u32>)
        ensures
            r == (if self is Number {
                Some(self->Number_0)
            } else {
                Option::<u32>::None
            }),
    {
        match self {
            Value::Number(number) => Some(*number),
            _ => None,
        }
    }

    pub fn is_bool(&self) -> (r: bool)
        ensures
            r == (self is Bool),
    {
        match self {
            Value::Bool(_) => true,
            _ => false,
        }
    }

    pub fn to_bool(&self) -> (r: Option<bool>)
        ensures
            r == (if self is Bool {
                Some(self->Bool_0)
            } else {
                Option::<bool>::None
            }),
    {
        match self {
            Value::Bool(boolean) => Some(*boolean),
            _ => None,
        }
    }

    pub fn is_none(&self) -> (r: bool)
        ensures
            r == (self is Nil),
    {
        match self {
            Value::Nil => true,
            _ => false,
        }
    }
}

/// One parsed statement or expression.
#[derive(Debug)]
pub enum Node {
    Constant(Value),
    BinaryOperation(Operation, Box<Node>, Box<Node>),
    Variable(String),
    Block(Vec<Node>),
    Assignment(String, Box<Node>),
    Function(String, Function),
    Call(String, Vec<Node>),
    /// Condition, body if true, optional body if false.
    IfElse(Box<Node>, Box<Node>, Option<Box<Node>>),
    /// Condition and body.
    While(Box<Node>, Box<Node>),
    /// Init, condition, body, step.
    For(Box<Node>, Box<Node>, Box<Node>, Box<Node>),
}

/// A user-defined function: its parameter names and its body.
#[derive(Debug)]
pub struct Function {
    pub parameters: Vec<String>,
    pub body: Box<Node>,
}

/// The mathematical view of a `Node`: names become character sequences,
/// vectors become sequences.
pub enum NodeV {
    Constant(Value),
    BinaryOperation(Operation, Box<NodeV>, Box<NodeV>),
    Variable(Seq<char>),
    Block(Seq<NodeV>),
    Assignment(Seq<char>, Box<NodeV>),
    Function(Seq<char>, FunctionV),
    Call(Seq<char>, Seq<NodeV>),
    IfElse(Box<NodeV>, Box<NodeV>, Option<Box<NodeV>>),
    While(Box<NodeV>, Box<NodeV>),
    For(Box<NodeV>, Box<NodeV>, Box<NodeV>, Box<NodeV>),
}

/// The mathematical view of a `Function`.
pub struct FunctionV {
    pub parameters: Seq<Seq<char>>,
    pub body: Box<NodeV>,
}

/// The view of one node.
pub open spec fn node_view(n: Node) -> NodeV
    decreases n,
{
    match n {
        Node::Constant(v) => NodeV::Constant(v),
        Node::BinaryOperation(op, l, r) => NodeV::BinaryOperation(
            op,
            Box::new(node_view(*l)),
            Box::new(node_view(*r)),
        ),
        Node::Variable(name) => NodeV::Variable(name@),
        Node::Block(body) => NodeV::Block(
            Seq::new(
                body@.len(),
                |i: int|
                    if 0 <= i < body@.len() {
                        node_view(body@[i])
                    } else {
                        NodeV::Constant(Value::Nil)
                    },
            ),
        ),
        Node::Assignment(name, value) => NodeV::Assignment(name@, Box::new(node_view(*value))),
        Node::Function(name, f) => NodeV::Function(name@, function_view(f)),
        Node::Call(name, args) => NodeV::Call(
            name@,
            Seq::new(
                args@.len(),
                |i: int|
                    if 0 <= i < args@.len() {
                        node_view(args@[i])
                    } else {
                        NodeV::Constant(Value::Nil)
                    },
            ),
        ),
        Node::IfElse(c, t, e) => NodeV::IfElse(
            Box::new(node_view(*c)),
            Box::new(node_view(*t)),
            match e {
                Some(b) => Some(Box::new(node_view(*b))),
                None => None,
            },
        ),
        Node::While(c, b) => NodeV::While(Box::new(node_view(*c)), Box::new(node_view(*b))),
        Node::For(i, c, b, s) => NodeV::For(
            Box::new(node_view(*i)),
            Box::new(node_view(*c)),
            Box::new(node_view(*b)),
            Box::new(node_view(*s)),
        ),
    }
}

/// The view of one function definition.
pub open spec fn function_view(f: Function) -> FunctionV
    decreases f,
{
    FunctionV {
        parameters: Seq::new(f.parameters@.len(), |i: int| f.parameters@[i]@),
        body: Box::new(node_view(*f.body)),
    }
}

impl View for Node {
    type V = NodeV;

    open spec fn view(&self) -> NodeV {
        node_view(*self)
    }
}

impl View for Function {
    type V = FunctionV;

    open spec fn view(&self) -> FunctionV {
        function_view(*self)
    }
}

impl Node {
    /// A structural copy; the original tree is kept.
    pub fn duplicate(&self) -> (r: Node)
        ensures
            r@ == self@,
        decreases self,
    {
        match self {
            Node::Constant(v) => Node::Constant(*v),
            Node::BinaryOperation(op, l, r) => Node::BinaryOperation(
                *op,
                Box::new(l.duplicate()),
                Box::new(r.duplicate()),
            ),
            Node::Variable(name) => Node::Variable(name.clone()),
            Node::Block(body) => {
                let copied = duplicate_nodes(body);
                let out = Node::Block(copied);
                proof {
                    assert forall|i: int| 0 <= i < node_view(out)->Block_0.len() implies
                        node_view(out)->Block_0[i] == node_view(*self)->Block_0[i] by {
                        assert(node_view(out)->Block_0[i] == node_view(out->Block_0@[i]));
                        assert(node_view(*self)->Block_0[i] == node_view(self->Block_0@[i]));
                    }
                    assert(node_view(out)->Block_0 =~= node_view(*self)->Block_0);
                }
                out
            },
            Node::Assignment(name, value) => Node::Assignment(
                name.clone(),
                Box::new(value.duplicate()),
            ),
            Node::Function(name, f) => Node::Function(name.clone(), f.duplicate()),
            Node::Call(name, args) => {
                let copied = duplicate_nodes(args);
                let out = Node::Call(name.clone(), copied);
                proof {
                    assert forall|i: int| 0 <= i < node_view(out)->Call_1.len() implies
                        node_view(out)->Call_1[i] == node_view(*self)->Call_1[i] by {
                        assert(node_view(out)->Call_1[i] == node_view(out->Call_1@[i]));
                        assert(node_view(*self)->Call_1[i] == node_view(self->Call_1@[i]));
                    }
                    assert(node_view(out)->Call_1 =~= node_view(*self)->Call_1);
                }
                out
            },
            Node::IfElse(c, t, e) => Node::IfElse(
                Box::new(c.duplicate()),
                Box::new(t.duplicate()),
                match e {
                    Some(b) => Some(Box::new(b.duplicate())),
                    None => None,
                },
            ),
            Node::While(c, b) => Node::While(Box::new(c.duplicate()), Box::new(b.duplicate())),
            Node::For(i, c, b, s) => Node::For(
                Box::new(i.duplicate()),
                Box::new(c.duplicate()),
                Box::new(b.duplicate()),
                Box::new(s.duplicate()),
            ),
        }
    }
}

/// A structural copy of a vector of nodes.
fn duplicate_nodes(nodes: &Vec<Node>) -> (r: Vec<Node>)
    ensures
        r@.len() == nodes@.len(),
        forall|i: int| 0 <= i < nodes@.len() ==> #[trigger] node_view(r@[i]) == node_view(nodes@[i]),
    decreases nodes,
{
    let mut out: Vec<Node> = Vec::new();
    let mut k: usize = 0;
    while k < nodes.len()
        invariant
            k <= nodes@.len(),
            out@.len() == k,
            forall|i: int| 0 <= i < k ==> #[trigger] node_view(out@[i]) == node_view(nodes@[i]),
        decreases nodes@.len() - k,
    {
        out.push(nodes[k].duplicate());
        k = k + 1;
    }
    out
}

impl Function {
    /// A structural copy; the original is kept.
    pub fn duplicate(&self) -> (r: Function)
        ensures
            r@ == self@,
        decreases self,
    {
        let mut params: Vec<String> = Vec::new();
        let mut k: usize = 0;
        while k < self.parameters.len()
            invariant
                k <= self.parameters@.len(),
                params@.len() == k,
                forall|i: int| 0 <= i < k ==> #[trigger] params@[i]@ == self.parameters@[i]@,
            decreases self.parameters@.len() - k,
        {
            params.push(self.parameters[k].clone());
            k = k + 1;
        }
        let r = Function { parameters: params, body: Box::new(self.body.duplicate()) };
        proof {
            assert(r@.parameters =~= self@.parameters);
        }
        r
    }
}

} // verus!
