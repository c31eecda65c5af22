//! The syntax tree shared by the parser, the interpreter and the compiler.

use std::rc::Rc;
use vstd::prelude::*;
use crate::number::Num;

verus! {

/// A generic tree node: a kind name, an optional payload and its children.
#[derive(Debug)]
pub struct Node {
    pub ty: String,
    pub value: Option<String>,
    pub children: Vec<Node>,
}

impl Node {
    pub fn new(ty: String, value: Option<String>, children: Vec<Node>) -> (r: Node)
        ensures
            r.ty == ty,
            r.value == value,
            r.children == children,
    {
        Node { ty, value, children }
    }

    pub fn is_leaf(&self) -> (r: bool)
        ensures
            r == (self.children.len() == 0),
    {
        self.children.len() == 0
    }
}

/// The kind of a syntax-tree node, with the data that kind carries.
///
/// `BinaryOp` has its two operands as children; `IfStatement` has the condition,
/// the then-branch and optionally the else-branch; `Program` and `Block` have their
/// statements. A function definition holds its body behind a shared pointer, so
/// function values refer to the body rather than copy it.
#[derive(Debug, PartialEq)]
pub enum AstNodeType {
    Program,
    Block,
    Number(Num),
    String(String),
    Identifier(String),
    BinaryOp(String),
    IfStatement,
    FunctionDef(String, Vec<String>, Rc<AstNode>),
    Call(String, Vec<AstNode>),
}

#[derive(Debug, PartialEq)]
pub struct AstNode {
    pub node_type: AstNodeType,
    pub children: Vec<AstNode>,
}

impl AstNode {
    pub fn new(node_type: AstNodeType, children: Vec<AstNode>) -> (r: AstNode)
        ensures
            r.node_type == node_type,
            r.children == children,
    {
        AstNode { node_type, children }
    }
}

/// The argument expressions of a call node, and nothing for other nodes.
pub open spec fn call_args(node: AstNode) -> Seq<AstNode> {
    match node.node_type {
        AstNodeType::Call(_, args) => args@,
        _ => seq![],
    }
}

/// The character sequences of a list of names.
pub open spec fn names_view(names: Seq<String>) -> Seq<Seq<char>> {
    names.map_values(|s: String| s@)
}

/// The kind of a node in the mathematical model of a syntax tree.
pub enum KindV {
    Program,
    Block,
    Number(Num),
    Str(Seq<char>),
    Identifier(Seq<char>),
    BinaryOp(Seq<char>),
    IfStatement,
    FunctionDef(Seq<char>, Seq<Seq<char>>),
    Call(Seq<char>),
}

/// The mathematical model of a syntax tree. A function definition has its body
/// as its one child, and a call its arguments.
pub struct AstV {
    pub kind: KindV,
    pub children: Seq<AstV>,
}

pub open spec fn leaf(kind: KindV) -> AstV {
    AstV { kind, children: seq![] }
}

pub open spec fn ast_view(n: AstNode) -> AstV
    decreases n, 0nat,
{
    match n.node_type {
        AstNodeType::Program => AstV { kind: KindV::Program, children: ast_views(n.children@) },
        AstNodeType::Block => AstV { kind: KindV::Block, children: ast_views(n.children@) },
        AstNodeType::Number(v) => AstV { kind: KindV::Number(v), children: ast_views(n.children@) },
        AstNodeType::String(s) => AstV { kind: KindV::Str(s@), children: ast_views(n.children@) },
        AstNodeType::Identifier(s) => AstV {
            kind: KindV::Identifier(s@),
            children: ast_views(n.children@),
        },
        AstNodeType::BinaryOp(op) => AstV {
            kind: KindV::BinaryOp(op@),
            children: ast_views(n.children@),
        },
        AstNodeType::IfStatement => AstV {
            kind: KindV::IfStatement,
            children: ast_views(n.children@),
        },
        AstNodeType::FunctionDef(name, params, body) => AstV {
            kind: KindV::FunctionDef(name@, names_view(params@)),
            children: seq![ast_view(*body)],
        },
        AstNodeType::Call(name, args) => AstV {
            kind: KindV::Call(name@),
            children: ast_views(args@),
        },
    }
}

pub open spec fn ast_views(s: Seq<AstNode>) -> Seq<AstV>
    decreases s, s.len(),
{
    if s.len() == 0 {
        seq![]
    } else {
        ast_views(s.drop_last()).push(ast_view(s.last()))
    }
}

pub proof fn lemma_views_push(s: Seq<AstNode>, n: AstNode)
    ensures
        ast_views(s.push(n)) == ast_views(s).push(ast_view(n)),
{
    assert(s.push(n).drop_last() =~= s);
}

impl View for AstNode {
    type V = AstV;

    open spec fn view(&self) -> AstV {
        ast_view(*self)
    }
}

/// The children vector `[a]`, `[a, b]` or `[a, b, c]` of a new node.
pub fn children_of(a: AstNode, b: Option<AstNode>, c: Option<AstNode>) -> (r: Vec<AstNode>)
    requires
        c is Some ==> b is Some,
    ensures
        ast_views(r@) == match (b, c) {
            (Some(b), Some(c)) => seq![ast_view(a), ast_view(b), ast_view(c)],
            (Some(b), None) => seq![ast_view(a), ast_view(b)],
            _ => seq![ast_view(a)],
        },
{
    let mut v: Vec<AstNode> = Vec::new();
    let ghost av = ast_view(a);
    proof {
        lemma_views_push(v@, a);
    }
    v.push(a);
    assert(ast_views(v@) =~= seq![av]);
    match b {
        Some(b) => {
            let ghost bv = ast_view(b);
            proof {
                lemma_views_push(v@, b);
            }
            v.push(b);
            assert(ast_views(v@) =~= seq![av, bv]);
            match c {
                Some(c) => {
                    let ghost cv = ast_view(c);
                    proof {
                        lemma_views_push(v@, c);
                    }
                    v.push(c);
                    assert(ast_views(v@) =~= seq![av, bv, cv]);
                },
                None => {},
            }
        },
        None => {},
    }
    v
}

/// A node without children.
pub fn leaf_node(node_type: AstNodeType) -> (r: AstNode)
    ensures
        r.node_type == node_type,
        r.children@.len() == 0,
        ast_views(r.children@) == Seq::<AstV>::empty(),
{
    let r = AstNode { node_type, children: Vec::new() };
    assert(ast_views(r.children@) =~= Seq::<AstV>::empty());
    r
}

} // verus!
