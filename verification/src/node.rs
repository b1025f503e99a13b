//! The abstract syntax tree consumed by the emitter.

use vstd::prelude::*;

verus! {

/// A declared parameter of a function, with its optional default expression.
#[derive(Debug)]
pub struct Param {
    pub name: String,
    pub default_value: Option<Node>,
}

/// A node of the syntax tree.
///
/// `Float` carries the IEEE-754 bit pattern of a single-precision number, so
/// that the tree holds plain integers only. `Instance` and `List` are values
/// that exist at run time; they never occur in source that can be compiled.
#[derive(Debug)]
pub enum Node {
    Function { name: String, params: Vec<Param>, body: Vec<Node> },
    Instance { class: String, fields: Vec<(String, Node)> },
    Call { name: String, args: Vec<Node> },
    Integer(i32),
    Float(u32),
    String(String),
    Identifier(String),
    Bool(bool),
    List(Vec<Node>),
    Null,
}

/// What a parameter is, apart from how it is stored.
pub struct Slot {
    pub name: Seq<char>,
    pub default_value: Option<Tree>,
}

/// What a node is, apart from how it is stored: the same tree over
/// sequences of characters and sequences of trees.
pub enum Tree {
    Function { name: Seq<char>, params: Seq<Slot>, body: Seq<Tree> },
    Instance { class: Seq<char>, fields: Seq<(Seq<char>, Tree)> },
    Call { name: Seq<char>, args: Seq<Tree> },
    Integer(i32),
    Float(u32),
    String(Seq<char>),
    Identifier(Seq<char>),
    Bool(bool),
    List(Seq<Tree>),
    Null,
}

/// The tree of a node.
pub open spec fn tree_of(node: Node) -> Tree
    decreases node,
{
    match node {
        Node::Function { name, params, body } => Tree::Function {
            name: name@,
            params: Seq::new(
                params@.len(),
                |i: int|
                    if 0 <= i < params@.len() {
                        slot_of(params@[i])
                    } else {
                        Slot { name: Seq::empty(), default_value: None }
                    },
            ),
            body: Seq::new(
                body@.len(),
                |i: int|
                    if 0 <= i < body@.len() {
                        tree_of(body@[i])
                    } else {
                        Tree::Null
                    },
            ),
        },
        Node::Instance { class, fields } => Tree::Instance {
            class: class@,
            fields: Seq::new(
                fields@.len(),
                |i: int|
                    if 0 <= i < fields@.len() {
                        (fields@[i].0@, tree_of(fields@[i].1))
                    } else {
                        (Seq::empty(), Tree::Null)
                    },
            ),
        },
        Node::Call { name, args } => Tree::Call {
            name: name@,
            args: Seq::new(
                args@.len(),
                |i: int|
                    if 0 <= i < args@.len() {
                        tree_of(args@[i])
                    } else {
                        Tree::Null
                    },
            ),
        },
        Node::Integer(i) => Tree::Integer(i),
        Node::Float(bits) => Tree::Float(bits),
        Node::String(s) => Tree::String(s@),
        Node::Identifier(s) => Tree::Identifier(s@),
        Node::Bool(b) => Tree::Bool(b),
        Node::List(items) => Tree::List(
            Seq::new(
                items@.len(),
                |i: int|
                    if 0 <= i < items@.len() {
                        tree_of(items@[i])
                    } else {
                        Tree::Null
                    },
            ),
        ),
        Node::Null => Tree::Null,
    }
}

/// The slot of a parameter.
pub open spec fn slot_of(param: Param) -> Slot
    decreases param,
{
    Slot {
        name: param.name@,
        default_value: match param.default_value {
            Some(d) => Some(tree_of(d)),
            None => None,
        },
    }
}

/// The trees of a sequence of nodes.
pub open spec fn trees_of(nodes: Seq<Node>) -> Seq<Tree> {
    nodes.map_values(|n: Node| tree_of(n))
}

/// The slots of a sequence of parameters.
pub open spec fn slots_of(params: Seq<Param>) -> Seq<Slot> {
    params.map_values(|p: Param| slot_of(p))
}

impl View for Node {
    type V = Tree;

    open spec fn view(&self) -> Tree {
        tree_of(*self)
    }
}

impl View for Param {
    type V = Slot;

    open spec fn view(&self) -> Slot {
        slot_of(*self)
    }
}

/// The tree of a call is the call of the trees of its arguments, and so on
/// for the other nodes that hold nodes.
pub proof fn lemma_tree_of(node: Node)
    ensures
        match node {
            Node::Function { name, params, body } => tree_of(node) == (Tree::Function {
                name: name@,
                params: slots_of(params@),
                body: trees_of(body@),
            }),
            Node::Call { name, args } => tree_of(node) == (Tree::Call {
                name: name@,
                args: trees_of(args@),
            }),
            Node::List(items) => tree_of(node) == Tree::List(trees_of(items@)),
            _ => true,
        },
{
    match node {
        Node::Function { name, params, body } => {
            assert(tree_of(node)->Function_params =~= slots_of(params@));
            assert(tree_of(node)->Function_body =~= trees_of(body@));
        },
        Node::Call { name, args } => {
            assert(tree_of(node)->Call_args =~= trees_of(args@));
        },
        Node::List(items) => {
            assert(tree_of(node)->List_0 =~= trees_of(items@));
        },
        _ => {},
    }
}

} // verus!
