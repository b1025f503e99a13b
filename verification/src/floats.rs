//! No float is without a text where each has one.
//!
//! The translator writes a float with the text that it is given for it.
//! This module proves that it asks for the text of no float but those of
//! the units: where each of them has a text, the translation of the
//! program does not fail for an unknown float.

use vstd::prelude::*;
use crate::generator::Pieces;
use crate::loader::Unit;
use crate::node::Param;
use crate::translate::cases_text;
use crate::translate::float_keys;
use crate::translate::floats_in;
use crate::translate::floats_in_nodes;
use crate::translate::floats_in_params;
use crate::translate::floats_of;
use crate::translate::parameters_text;
use crate::loader::unit_names;
use crate::node::Node;
use crate::pool::position;
use crate::rules::fuel;
use crate::rules::ident_name;
use crate::translate::callee_text;
use crate::translate::deeper;
use crate::translate::g_apply;
use crate::translate::g_binary;
use crate::translate::g_block;
use crate::translate::g_body;
use crate::translate::g_call;
use crate::translate::g_class;
use crate::translate::g_dump;
use crate::translate::g_dumped;
use crate::translate::g_each;
use crate::translate::g_file;
use crate::translate::g_function;
use crate::translate::g_if;
use crate::translate::g_invoke;
use crate::translate::g_last;
use crate::translate::g_let;
use crate::translate::g_list;
use crate::translate::g_load;
use crate::translate::g_members;
use crate::translate::g_new;
use crate::translate::g_node;
use crate::translate::g_operator;
use crate::translate::g_program;
use crate::translate::g_return;
use crate::translate::g_set;
use crate::translate::g_statements;
use crate::translate::g_switch;
use crate::translate::g_top_let;
use crate::translate::g_while;
use crate::translate::binary_text;
use crate::translate::names_of_params;
use crate::translate::operator_text;
use crate::translate::renamed;
use crate::translate::stated;
use crate::translate::with_name;
use crate::translate::TranslateError;
use crate::generator::converted;
use crate::generator::put;

verus! {

/// Whether the float with the bit pattern `bits` has a text.
pub open spec fn has_text(fl: Seq<(u32, Seq<char>)>, bits: u32) -> bool {
    position(float_keys(fl), bits) is Some
}

/// Whether each of the floats has a text.
pub open spec fn all_have_text(fl: Seq<(u32, Seq<char>)>, floats: Seq<u32>) -> bool {
    forall|j: int| 0 <= j < floats.len() ==> has_text(fl, #[trigger] floats[j])
}

/// Whether every float in `node` has a text.
pub open spec fn node_covered(fl: Seq<(u32, Seq<char>)>, node: Node) -> bool
    decreases node,
{
    match node {
        Node::Float(bits) => has_text(fl, bits),
        Node::Call { name, args } => forall|i: int|
            0 <= i < args@.len() ==> node_covered(fl, #[trigger] args@[i]),
        Node::Function { name, params, body } => (forall|i: int|
            0 <= i < params@.len() ==> param_covered(fl, #[trigger] params@[i])) && (forall|
            i: int,
        | 0 <= i < body@.len() ==> node_covered(fl, #[trigger] body@[i])),
        _ => true,
    }
}

/// [`node_covered`] for the default value of a parameter.
pub open spec fn param_covered(fl: Seq<(u32, Seq<char>)>, param: Param) -> bool
    decreases param,
{
    match param.default_value {
        Some(d) => node_covered(fl, d),
        None => true,
    }
}

/// [`node_covered`] for each of `nodes`.
pub open spec fn nodes_covered(fl: Seq<(u32, Seq<char>)>, nodes: Seq<Node>) -> bool {
    forall|i: int| 0 <= i < nodes.len() ==> node_covered(fl, #[trigger] nodes[i])
}

/// Whether every float in the units has a text.
pub open spec fn units_covered(fl: Seq<(u32, Seq<char>)>, u: Seq<Unit>) -> bool {
    forall|k: int| 0 <= k < u.len() ==> nodes_covered(fl, #[trigger] u[k].nodes@)
}

/// Whether a translation did not fail for an unknown float.
pub open spec fn printed<A>(r: Result<A, TranslateError>) -> bool {
    match r {
        Ok(_) => true,
        Err(e) => e != TranslateError::UnknownFloat,
    }
}

/// Floats that all have a text have one in both halves, and the other way
/// round.
pub proof fn lemma_all_have_text_concat(fl: Seq<(u32, Seq<char>)>, a: Seq<u32>, b: Seq<u32>)
    ensures
        all_have_text(fl, a + b) <==> all_have_text(fl, a) && all_have_text(fl, b),
{
    if all_have_text(fl, a + b) {
        assert forall|j: int| 0 <= j < a.len() implies has_text(fl, #[trigger] a[j]) by {
            assert((a + b)[j] == a[j]);
        }
        assert forall|j: int| 0 <= j < b.len() implies has_text(fl, #[trigger] b[j]) by {
            assert((a + b)[a.len() + j] == b[j]);
        }
    }
    if all_have_text(fl, a) && all_have_text(fl, b) {
        assert forall|j: int| 0 <= j < (a + b).len() implies has_text(
            fl,
            #[trigger] (a + b)[j],
        ) by {
            if j < a.len() {
                assert((a + b)[j] == a[j]);
            } else {
                assert((a + b)[j] == b[j - a.len()]);
            }
        }
    }
}

/// Where the floats of a piece of syntax all have a text, the syntax is
/// covered.
pub proof fn lemma_node_covered(fl: Seq<(u32, Seq<char>)>, node: Node)
    requires
        all_have_text(fl, floats_in(node)),
    ensures
        node_covered(fl, node),
    decreases node, 0nat,
{
    match node {
        Node::Float(bits) => {
            assert(floats_in(node)[0] == bits);
        },
        Node::Call { name, args } => {
            lemma_nodes_covered(fl, args@, 0);
        },
        Node::Function { name, params, body } => {
            lemma_all_have_text_concat(fl, floats_in_params(params@, 0), floats_in_nodes(body@, 0));
            lemma_params_covered(fl, params@, 0);
            lemma_nodes_covered(fl, body@, 0);
        },
        _ => {},
    }
}

/// [`lemma_node_covered`] for the nodes from index `from` on.
pub proof fn lemma_nodes_covered(fl: Seq<(u32, Seq<char>)>, nodes: Seq<Node>, from: nat)
    requires
        all_have_text(fl, floats_in_nodes(nodes, from)),
    ensures
        forall|i: int| from <= i < nodes.len() ==> node_covered(fl, #[trigger] nodes[i]),
    decreases nodes, nodes.len() - from,
{
    if from < nodes.len() {
        lemma_all_have_text_concat(
            fl,
            floats_in(nodes[from as int]),
            floats_in_nodes(nodes, from + 1),
        );
        lemma_node_covered(fl, nodes[from as int]);
        lemma_nodes_covered(fl, nodes, from + 1);
    }
}

/// [`lemma_node_covered`] for the parameters from index `from` on.
pub proof fn lemma_params_covered(fl: Seq<(u32, Seq<char>)>, params: Seq<Param>, from: nat)
    requires
        all_have_text(fl, floats_in_params(params, from)),
    ensures
        forall|i: int| from <= i < params.len() ==> param_covered(fl, #[trigger] params[i]),
    decreases params, params.len() - from,
{
    if from < params.len() {
        let first = match params[from as int].default_value {
            Some(d) => floats_in(d),
            None => Seq::empty(),
        };
        lemma_all_have_text_concat(fl, first, floats_in_params(params, from + 1));
        match params[from as int].default_value {
            Some(d) => {
                lemma_node_covered(fl, d);
            },
            None => {},
        }
        lemma_params_covered(fl, params, from + 1);
    }
}

/// Where the floats of the units from `from` on all have a text, each of
/// these units is covered.
pub proof fn lemma_units_covered(fl: Seq<(u32, Seq<char>)>, u: Seq<Unit>, from: nat)
    requires
        all_have_text(fl, floats_of(u, from)),
    ensures
        forall|k: int| from <= k < u.len() ==> nodes_covered(fl, #[trigger] u[k].nodes@),
    decreases u.len() - from,
{
    if from < u.len() {
        lemma_all_have_text_concat(
            fl,
            floats_in_nodes(u[from as int].nodes@, 0),
            floats_of(u, from + 1),
        );
        lemma_nodes_covered(fl, u[from as int].nodes@, 0);
        lemma_units_covered(fl, u, from + 1);
    }
}

/// The declarations of covered parameters do not fail for an unknown
/// float.
pub proof fn lemma_parameters_printed(fl: Seq<(u32, Seq<char>)>, params: Seq<Param>, from: nat)
    requires
        forall|i: int| 0 <= i < params.len() ==> param_covered(fl, #[trigger] params[i]),
    ensures
        printed(parameters_text(fl, params, from)),
    decreases params.len() - from,
{
    if from < params.len() {
        assert(param_covered(fl, params[from as int]));
        lemma_parameters_printed(fl, params, from + 1);
    }
}

/// The cases of a covered `switch` do not fail for an unknown float.
pub proof fn lemma_cases_printed(fl: Seq<(u32, Seq<char>)>, args: Seq<Node>, i: nat)
    requires
        nodes_covered(fl, args),
    ensures
        printed(cases_text(fl, args, i)),
    decreases args.len() - i,
{
    if i + 1 < args.len() {
        assert(node_covered(fl, args[i as int]));
        assert(node_covered(fl, args[(i + 1) as int]));
        lemma_cases_printed(fl, args, i + 2);
    }
}

/// A node prints its floats.
pub proof fn lemma_node(
    u: Seq<Unit>,
    fl: Seq<(u32, Seq<char>)>,
    ld: Seq<usize>,
    st: Pieces,
    node: Node,
)
    requires
        units_covered(fl, u),
        node_covered(fl, node),
    ensures
        printed(g_node(u, fl, ld, st, node)),
    decreases fuel(u, ld), node, 2nat,
{
    reveal_with_fuel(g_node, 1);
    reveal_with_fuel(g_call, 1);
    reveal_with_fuel(g_function, 1);
    match node {
        Node::Function { name, params, body } => {
            lemma_function(u, fl, ld, st, node);
        },
        Node::Call { name, args } => {
            lemma_call(u, fl, ld, st, name@, args@);
        },
        _ => {},
    }
}

/// A function prints its floats.
pub proof fn lemma_function(
    u: Seq<Unit>,
    fl: Seq<(u32, Seq<char>)>,
    ld: Seq<usize>,
    st: Pieces,
    node: Node,
)
    requires
        units_covered(fl, u),
        node_covered(fl, node),
    ensures
        printed(g_function(u, fl, ld, st, node)),
    decreases fuel(u, ld), node, 1nat,
{
    reveal_with_fuel(g_function, 1);
    reveal_with_fuel(g_body, 1);
    match node {
        Node::Function { name, params, body } => {
            lemma_parameters_printed(fl, params@, 0);
            let s1 = if st.current_class is Some {
                Pieces {
                    current_method: Some(name@),
                    current_method_args: st.current_method_args + names_of_params(params@),
                    ..st
                }
            } else {
                st
            };
            let s2 = renamed(s1, name@);
            let target = converted(name@);
            let s3 = Pieces {
                inside_expression: 0,
                class_functions_names: with_name(s2.class_functions_names, target),
                ..s2
            };
            let s4 = if s3.current_class is None {
                Pieces { functions_names: with_name(s3.functions_names, target), ..s3 }
            } else {
                s3
            };
            lemma_body(u, fl, ld, s4, body@);
        },
        _ => {},
    }
}

/// The body of a function prints its floats.
pub proof fn lemma_body(
    u: Seq<Unit>,
    fl: Seq<(u32, Seq<char>)>,
    ld: Seq<usize>,
    st: Pieces,
    body: Seq<Node>,
)
    requires
        units_covered(fl, u),
        nodes_covered(fl, body),
    ensures
        printed(g_body(u, fl, ld, st, body)),
    decreases fuel(u, ld), body, body.len() + 1,
{
    reveal_with_fuel(g_body, 1);
    reveal_with_fuel(g_statements, 1);
    if body.len() > 0 {
        if let Ok(s5) = deeper(st) {
            lemma_statements(u, fl, ld, s5, body, 0, true);
        }
    }
}

/// The last statement of a body prints its floats.
pub proof fn lemma_last(
    u: Seq<Unit>,
    fl: Seq<(u32, Seq<char>)>,
    ld: Seq<usize>,
    st: Pieces,
    node: Node,
    plain: bool,
)
    requires
        units_covered(fl, u),
        node_covered(fl, node),
    ensures
        printed(g_last(u, fl, ld, st, node, plain)),
    decreases fuel(u, ld), node, 3nat,
{
    reveal_with_fuel(g_last, 1);
    reveal_with_fuel(g_node, 1);
    lemma_node(u, fl, ld, st, node);
    match node {
        Node::Call { name, args } => {
            if args@.len() >= 2 {
                assert(node_covered(fl, args@[1]));
            }
        },
        _ => {},
    }
}

/// The statements of a body print their floats.
pub proof fn lemma_statements(
    u: Seq<Unit>,
    fl: Seq<(u32, Seq<char>)>,
    ld: Seq<usize>,
    st: Pieces,
    nodes: Seq<Node>,
    from: nat,
    plain: bool,
)
    requires
        units_covered(fl, u),
        nodes_covered(fl, nodes),
    ensures
        printed(g_statements(u, fl, ld, st, nodes, from, plain)),
    decreases fuel(u, ld), nodes, nodes.len() - from,
{
    reveal_with_fuel(g_statements, 1);
    reveal_with_fuel(g_last, 1);
    reveal_with_fuel(g_node, 1);
    if from < nodes.len() {
        if from + 1 == nodes.len() {
            lemma_last(u, fl, ld, st, nodes[from as int], plain);
            if let Ok(a) = g_last(u, fl, ld, st, nodes[from as int], plain) {
                lemma_statements(u, fl, ld, a.st, nodes, from + 1, plain);
            }
        } else {
            lemma_node(u, fl, ld, st, nodes[from as int]);
            if let Ok(a) = g_node(u, fl, ld, st, nodes[from as int]) {
                lemma_statements(u, fl, ld, a.st, nodes, from + 1, plain);
            }
        }
    }
}

/// A row of nodes prints its floats.
pub proof fn lemma_each(
    u: Seq<Unit>,
    fl: Seq<(u32, Seq<char>)>,
    ld: Seq<usize>,
    st: Pieces,
    nodes: Seq<Node>,
    from: nat,
    first: nat,
    between: Seq<char>,
    open: Seq<char>,
    close: Seq<char>,
)
    requires
        units_covered(fl, u),
        nodes_covered(fl, nodes),
    ensures
        printed(g_each(u, fl, ld, st, nodes, from, first, between, open, close)),
    decreases fuel(u, ld), nodes, nodes.len() - from,
{
    reveal_with_fuel(g_each, 1);
    reveal_with_fuel(g_node, 1);
    if from < nodes.len() {
        lemma_node(u, fl, ld, st, nodes[from as int]);
        if let Ok(a) = g_node(u, fl, ld, st, nodes[from as int]) {
            lemma_each(u, fl, ld, a.st, nodes, from + 1, first, between, open, close);
        }
    }
}

/// A call form prints its floats.
pub proof fn lemma_call(
    u: Seq<Unit>,
    fl: Seq<(u32, Seq<char>)>,
    ld: Seq<usize>,
    st: Pieces,
    name: Seq<char>,
    args: Seq<Node>,
)
    requires
        units_covered(fl, u),
        nodes_covered(fl, args),
    ensures
        printed(g_call(u, fl, ld, st, name, args)),
    decreases fuel(u, ld), args, args.len() + 3,
{
    reveal_with_fuel(g_call, 1);
    reveal_with_fuel(g_apply, 1);
    reveal_with_fuel(g_binary, 1);
    reveal_with_fuel(g_block, 1);
    reveal_with_fuel(g_class, 1);
    reveal_with_fuel(g_dump, 1);
    reveal_with_fuel(g_if, 1);
    reveal_with_fuel(g_invoke, 1);
    reveal_with_fuel(g_let, 1);
    reveal_with_fuel(g_list, 1);
    reveal_with_fuel(g_load, 1);
    reveal_with_fuel(g_new, 1);
    reveal_with_fuel(g_operator, 1);
    reveal_with_fuel(g_return, 1);
    reveal_with_fuel(g_set, 1);
    reveal_with_fuel(g_switch, 1);
    reveal_with_fuel(g_while, 1);
    if name == "let"@ {
        lemma_let(u, fl, ld, st, args);
    } else if name == "set"@ {
        lemma_set(u, fl, ld, st, args);
    } else if name == "while"@ {
        lemma_while(u, fl, ld, st, args);
    } else if operator_text(name) is Some {
        lemma_operator(u, fl, ld, st, args, operator_text(name).unwrap());
    } else if name == "if"@ {
        lemma_if(u, fl, ld, st, args);
    } else if name == "return"@ {
        lemma_return(u, fl, ld, st, args);
    } else if name == "list"@ {
        lemma_list(u, fl, ld, st, args);
    } else if name == "block"@ {
        lemma_block(u, fl, ld, st, args);
    } else if name == "dump"@ {
        lemma_dump(u, fl, ld, st, args);
    } else if name == "call"@ {
        lemma_apply(u, fl, ld, st, args);
    } else if name == "switch"@ {
        lemma_switch(u, fl, ld, st, args);
    } else if name == "load"@ {
        lemma_load(u, fl, ld, st, args);
    } else if name == "class"@ {
        lemma_class(u, fl, ld, st, args);
    } else if name == "new"@ {
        lemma_new(u, fl, ld, st, args);
    } else if binary_text(name) is Some {
        lemma_binary(u, fl, ld, st, args, binary_text(name).unwrap());
    } else {
        lemma_invoke(u, fl, ld, st, name, args);
    }
}

/// A `let` prints its floats.
pub proof fn lemma_let(
    u: Seq<Unit>,
    fl: Seq<(u32, Seq<char>)>,
    ld: Seq<usize>,
    st: Pieces,
    args: Seq<Node>,
)
    requires
        units_covered(fl, u),
        nodes_covered(fl, args),
    ensures
        printed(g_let(u, fl, ld, st, args)),
    decreases fuel(u, ld), args, args.len() + 2,
{
    reveal_with_fuel(g_let, 1);
    reveal_with_fuel(g_node, 1);
    if args.len() >= 2 && ident_name(args[0]) is Some {
        if let Ok(s1) = deeper(st) {
            let s2 = renamed(Pieces { inside_expression: 1, ..s1 }, ident_name(args[0]).unwrap());
            lemma_node(u, fl, ld, s2, args[1]);
        }
    }
}

/// A `set` prints its floats.
pub proof fn lemma_set(
    u: Seq<Unit>,
    fl: Seq<(u32, Seq<char>)>,
    ld: Seq<usize>,
    st: Pieces,
    args: Seq<Node>,
)
    requires
        units_covered(fl, u),
        nodes_covered(fl, args),
    ensures
        printed(g_set(u, fl, ld, st, args)),
    decreases fuel(u, ld), args, args.len() + 2,
{
    reveal_with_fuel(g_set, 1);
    reveal_with_fuel(g_node, 1);
    if args.len() >= 2 && ident_name(args[0]) is Some {
        lemma_node(u, fl, ld, renamed(st, ident_name(args[0]).unwrap()), args[1]);
    }
}

/// A `while` prints its floats.
pub proof fn lemma_while(
    u: Seq<Unit>,
    fl: Seq<(u32, Seq<char>)>,
    ld: Seq<usize>,
    st: Pieces,
    args: Seq<Node>,
)
    requires
        units_covered(fl, u),
        nodes_covered(fl, args),
    ensures
        printed(g_while(u, fl, ld, st, args)),
    decreases fuel(u, ld), args, args.len() + 2,
{
    reveal_with_fuel(g_while, 1);
    reveal_with_fuel(g_node, 1);
    reveal_with_fuel(g_statements, 1);
    if args.len() >= 1 {
        lemma_node(u, fl, ld, st, args[0]);
        if let Ok(c) = g_node(u, fl, ld, st, args[0]) {
            lemma_statements(u, fl, ld, c.st, args, 1, false);
        }
    }
}

/// An operator form prints its floats.
pub proof fn lemma_operator(
    u: Seq<Unit>,
    fl: Seq<(u32, Seq<char>)>,
    ld: Seq<usize>,
    st: Pieces,
    args: Seq<Node>,
    op: Seq<char>,
)
    requires
        units_covered(fl, u),
        nodes_covered(fl, args),
    ensures
        printed(g_operator(u, fl, ld, st, args, op)),
    decreases fuel(u, ld), args, args.len() + 2,
{
    reveal_with_fuel(g_operator, 1);
    reveal_with_fuel(g_each, 1);
    reveal_with_fuel(g_node, 1);
    if args.len() >= 1 {
        lemma_node(u, fl, ld, st, args[0]);
        if let Ok(a) = g_node(u, fl, ld, st, args[0]) {
            lemma_each(
                u,
                fl,
                ld,
                a.st,
                args,
                1,
                args.len(),
                " "@ + op + " "@,
                Seq::empty(),
                Seq::empty(),
            );
        }
    }
}

/// An `if` prints its floats.
pub proof fn lemma_if(
    u: Seq<Unit>,
    fl: Seq<(u32, Seq<char>)>,
    ld: Seq<usize>,
    st: Pieces,
    args: Seq<Node>,
)
    requires
        units_covered(fl, u),
        nodes_covered(fl, args),
    ensures
        printed(g_if(u, fl, ld, st, args)),
    decreases fuel(u, ld), args, args.len() + 2,
{
    reveal_with_fuel(g_if, 1);
    reveal_with_fuel(g_node, 1);
    if args.len() >= 3 {
        lemma_node(u, fl, ld, st, args[0]);
        if let Ok(c) = g_node(u, fl, ld, st, args[0]) {
            lemma_node(u, fl, ld, c.st, args[1]);
            if let Ok(t) = g_node(u, fl, ld, c.st, args[1]) {
                lemma_node(u, fl, ld, t.st, args[2]);
            }
        }
    }
}

/// A `return` prints its floats.
pub proof fn lemma_return(
    u: Seq<Unit>,
    fl: Seq<(u32, Seq<char>)>,
    ld: Seq<usize>,
    st: Pieces,
    args: Seq<Node>,
)
    requires
        units_covered(fl, u),
        nodes_covered(fl, args),
    ensures
        printed(g_return(u, fl, ld, st, args)),
    decreases fuel(u, ld), args, args.len() + 2,
{
    reveal_with_fuel(g_return, 1);
    reveal_with_fuel(g_node, 1);
    if args.len() >= 1 {
        lemma_node(u, fl, ld, st, args[0]);
    }
}

/// A `list` prints its floats.
pub proof fn lemma_list(
    u: Seq<Unit>,
    fl: Seq<(u32, Seq<char>)>,
    ld: Seq<usize>,
    st: Pieces,
    args: Seq<Node>,
)
    requires
        units_covered(fl, u),
        nodes_covered(fl, args),
    ensures
        printed(g_list(u, fl, ld, st, args)),
    decreases fuel(u, ld), args, args.len() + 2,
{
    reveal_with_fuel(g_list, 1);
    reveal_with_fuel(g_each, 1);
    lemma_each(u, fl, ld, st, args, 0, 0, Seq::empty(), "ret1.emplace_back("@, ");\n"@);
}

/// A `block` prints its floats.
pub proof fn lemma_block(
    u: Seq<Unit>,
    fl: Seq<(u32, Seq<char>)>,
    ld: Seq<usize>,
    st: Pieces,
    args: Seq<Node>,
)
    requires
        units_covered(fl, u),
        nodes_covered(fl, args),
    ensures
        printed(g_block(u, fl, ld, st, args)),
    decreases fuel(u, ld), args, args.len() + 2,
{
    reveal_with_fuel(g_block, 1);
    reveal_with_fuel(g_statements, 1);
    lemma_statements(u, fl, ld, st, args, 0, false);
}

/// The arguments of a `dump` print their floats.
pub proof fn lemma_dumped(
    u: Seq<Unit>,
    fl: Seq<(u32, Seq<char>)>,
    ld: Seq<usize>,
    st: Pieces,
    args: Seq<Node>,
    i: nat,
)
    requires
        units_covered(fl, u),
        nodes_covered(fl, args),
    ensures
        printed(g_dumped(u, fl, ld, st, args, i)),
    decreases fuel(u, ld), args, args.len() - i,
{
    reveal_with_fuel(g_dumped, 1);
    reveal_with_fuel(g_node, 1);
    if i < args.len() {
        match args[i as int] {
            Node::Identifier(id) => {
                lemma_dumped(u, fl, ld, renamed(st, id@), args, i + 1);
            },
            _ => {
                lemma_node(u, fl, ld, st, args[i as int]);
                if let Ok(a) = g_node(u, fl, ld, st, args[i as int]) {
                    lemma_dumped(u, fl, ld, a.st, args, i + 1);
                }
            },
        }
    }
}

/// A `dump` prints its floats.
pub proof fn lemma_dump(
    u: Seq<Unit>,
    fl: Seq<(u32, Seq<char>)>,
    ld: Seq<usize>,
    st: Pieces,
    args: Seq<Node>,
)
    requires
        units_covered(fl, u),
        nodes_covered(fl, args),
    ensures
        printed(g_dump(u, fl, ld, st, args)),
    decreases fuel(u, ld), args, args.len() + 2,
{
    reveal_with_fuel(g_dump, 1);
    reveal_with_fuel(g_dumped, 1);
    lemma_dumped(u, fl, ld, st, args, 0);
}

/// An applied function prints its floats.
pub proof fn lemma_apply(
    u: Seq<Unit>,
    fl: Seq<(u32, Seq<char>)>,
    ld: Seq<usize>,
    st: Pieces,
    args: Seq<Node>,
)
    requires
        units_covered(fl, u),
        nodes_covered(fl, args),
    ensures
        printed(g_apply(u, fl, ld, st, args)),
    decreases fuel(u, ld), args, args.len() + 2,
{
    reveal_with_fuel(g_apply, 1);
    reveal_with_fuel(g_each, 1);
    reveal_with_fuel(g_node, 1);
    if args.len() >= 1 {
        lemma_node(u, fl, ld, st, args[0]);
        if let Ok(f) = g_node(u, fl, ld, st, args[0]) {
            lemma_each(u, fl, ld, f.st, args, 1, 1, ", "@, Seq::empty(), Seq::empty());
        }
    }
}

/// A `switch` prints its floats.
pub proof fn lemma_switch(
    u: Seq<Unit>,
    fl: Seq<(u32, Seq<char>)>,
    ld: Seq<usize>,
    st: Pieces,
    args: Seq<Node>,
)
    requires
        units_covered(fl, u),
        nodes_covered(fl, args),
    ensures
        printed(g_switch(u, fl, ld, st, args)),
    decreases fuel(u, ld), args, args.len() + 2,
{
    reveal_with_fuel(g_switch, 1);
    reveal_with_fuel(g_node, 1);
    if args.len() >= 1 {
        lemma_node(u, fl, ld, st, args[0]);
        lemma_cases_printed(fl, args, 1);
        assert(node_covered(fl, args[args.len() - 1]));
    }
}

/// A `load` prints its floats.
pub proof fn lemma_load(
    u: Seq<Unit>,
    fl: Seq<(u32, Seq<char>)>,
    ld: Seq<usize>,
    st: Pieces,
    args: Seq<Node>,
)
    requires
        units_covered(fl, u),
    ensures
        printed(g_load(u, fl, ld, st, args)),
    decreases fuel(u, ld), args, args.len() + 2,
{
    reveal_with_fuel(g_load, 1);
    reveal_with_fuel(g_file, 1);
    if args.len() >= 1 {
        match args[0] {
            Node::String(name) => {
                if let Some(k) = position(unit_names(u), name@) {
                    if !(ld.contains(k as usize) || ld.len() >= u.len() || k >= u.len()) {
                        let s1 = Pieces { main: st.main.push(Seq::empty()), ..st };
                        lemma_file(u, fl, ld.push(k as usize), s1, u[k as int].nodes@, 0);
                    }
                }
            },
            _ => {},
        }
    }
}

/// The members of a class print their floats.
pub proof fn lemma_members(
    u: Seq<Unit>,
    fl: Seq<(u32, Seq<char>)>,
    ld: Seq<usize>,
    st: Pieces,
    args: Seq<Node>,
    from: nat,
)
    requires
        units_covered(fl, u),
        nodes_covered(fl, args),
    ensures
        printed(g_members(u, fl, ld, st, args, from)),
    decreases fuel(u, ld), args, args.len() - from,
{
    reveal_with_fuel(g_members, 1);
    reveal_with_fuel(g_node, 1);
    if from < args.len() {
        lemma_node(u, fl, ld, st, args[from as int]);
        if let Ok(a) = g_node(u, fl, ld, st, args[from as int]) {
            lemma_members(u, fl, ld, a.st, args, from + 1);
        }
    }
}

/// A `class` prints its floats.
pub proof fn lemma_class(
    u: Seq<Unit>,
    fl: Seq<(u32, Seq<char>)>,
    ld: Seq<usize>,
    st: Pieces,
    args: Seq<Node>,
)
    requires
        units_covered(fl, u),
        nodes_covered(fl, args),
    ensures
        printed(g_class(u, fl, ld, st, args)),
    decreases fuel(u, ld), args, args.len() + 2,
{
    reveal_with_fuel(g_class, 1);
    reveal_with_fuel(g_members, 1);
    if args.len() >= 2 && ident_name(args[0]) is Some {
        let name = ident_name(args[0]).unwrap();
        let parent = match ident_name(args[1]) {
            Some(p) => p,
            None => "SimpleListObject"@,
        };
        let from: nat = if ident_name(args[1]) is Some {
            2
        } else {
            1
        };
        let s1 = Pieces { classes: put(st.classes, name, parent), current_class: Some(name), ..st };
        lemma_members(u, fl, ld, s1, args, from);
    }
}

/// A `new` prints its floats.
pub proof fn lemma_new(
    u: Seq<Unit>,
    fl: Seq<(u32, Seq<char>)>,
    ld: Seq<usize>,
    st: Pieces,
    args: Seq<Node>,
)
    requires
        units_covered(fl, u),
        nodes_covered(fl, args),
    ensures
        printed(g_new(u, fl, ld, st, args)),
    decreases fuel(u, ld), args, args.len() + 2,
{
    reveal_with_fuel(g_new, 1);
    reveal_with_fuel(g_each, 1);
    if args.len() >= 1 && ident_name(args[0]) is Some {
        lemma_each(u, fl, ld, st, args, 1, 1, ", "@, Seq::empty(), Seq::empty());
    }
}

/// A named binary form prints its floats.
pub proof fn lemma_binary(
    u: Seq<Unit>,
    fl: Seq<(u32, Seq<char>)>,
    ld: Seq<usize>,
    st: Pieces,
    args: Seq<Node>,
    op: Seq<char>,
)
    requires
        units_covered(fl, u),
        nodes_covered(fl, args),
    ensures
        printed(g_binary(u, fl, ld, st, args, op)),
    decreases fuel(u, ld), args, args.len() + 2,
{
    reveal_with_fuel(g_binary, 1);
    reveal_with_fuel(g_node, 1);
    if args.len() >= 2 {
        lemma_node(u, fl, ld, st, args[0]);
        if let Ok(a) = g_node(u, fl, ld, st, args[0]) {
            lemma_node(u, fl, ld, a.st, args[1]);
        }
    }
}

/// A call that is no special form prints its floats.
pub proof fn lemma_invoke(
    u: Seq<Unit>,
    fl: Seq<(u32, Seq<char>)>,
    ld: Seq<usize>,
    st: Pieces,
    name: Seq<char>,
    args: Seq<Node>,
)
    requires
        units_covered(fl, u),
        nodes_covered(fl, args),
    ensures
        printed(g_invoke(u, fl, ld, st, name, args)),
    decreases fuel(u, ld), args, args.len() + 2,
{
    reveal_with_fuel(g_invoke, 1);
    reveal_with_fuel(g_each, 1);
    if let Ok((s1, callee)) = callee_text(st, name) {
        lemma_each(u, fl, ld, s1, args, 0, 0, ", "@, "Value("@, ")"@);
    }
}

/// A `let` at the top level prints its floats.
pub proof fn lemma_top_let(
    u: Seq<Unit>,
    fl: Seq<(u32, Seq<char>)>,
    ld: Seq<usize>,
    st: Pieces,
    args: Seq<Node>,
)
    requires
        units_covered(fl, u),
        nodes_covered(fl, args),
    ensures
        printed(g_top_let(u, fl, ld, st, args)),
    decreases fuel(u, ld), args, args.len() + 2,
{
    reveal_with_fuel(g_top_let, 1);
    reveal_with_fuel(g_node, 1);
    if args.len() >= 2 && ident_name(args[0]) is Some {
        let name = ident_name(args[0]).unwrap();
        let s1 = renamed(st, name);
        let s2 = Pieces { headers: s1.headers.push("Value "@ + converted(name) + ";\n"@), ..s1 };
        if let Ok(s3) = deeper(s2) {
            lemma_node(u, fl, ld, Pieces { inside_expression: 1, ..s3 }, args[1]);
        }
    }
}

/// The top-level nodes of a file print their floats.
pub proof fn lemma_file(
    u: Seq<Unit>,
    fl: Seq<(u32, Seq<char>)>,
    ld: Seq<usize>,
    st: Pieces,
    nodes: Seq<Node>,
    from: nat,
)
    requires
        units_covered(fl, u),
        nodes_covered(fl, nodes),
    ensures
        printed(g_file(u, fl, ld, st, nodes, from)),
    decreases fuel(u, ld), nodes, nodes.len() - from,
{
    reveal_with_fuel(g_file, 1);
    reveal_with_fuel(g_node, 1);
    reveal_with_fuel(g_top_let, 1);
    if from < nodes.len() {
        lemma_node(u, fl, ld, st, nodes[from as int]);
        if let Ok(g) = g_node(u, fl, ld, st, nodes[from as int]) {
            let step = match nodes[from as int] {
                Node::Function { name, params, body } => {
                    let s1 = renamed(g.st, name@);
                    Ok(
                        Pieces {
                            functions: s1.functions.push(g.text),
                            functions_names: with_name(s1.functions_names, converted(name@)),
                            ..s1
                        },
                    )
                },
                Node::Call { name, args } => if name@ == "let"@ {
                    lemma_top_let(u, fl, ld, g.st, args@);
                    g_top_let(u, fl, ld, g.st, args@)
                } else if g.text.len() > 0 {
                    stated(g.st, g.text + ";\n"@)
                } else {
                    Ok(g.st)
                },
                _ => stated(g.st, g.text + ";\n"@),
            };
            if let Ok(s2) = step {
                lemma_file(u, fl, ld, s2, nodes, from + 1);
            }
        }
    }
}

/// The translator asks for the text of no float but those of the units:
/// where each float of the units has a text, the translation of the
/// program does not fail for an unknown float.
pub proof fn law_no_unknown_float(u: Seq<Unit>, fl: Seq<(u32, Seq<char>)>, st: Pieces, root: nat)
    requires
        all_have_text(fl, floats_of(u, 0)),
    ensures
        printed(g_program(u, fl, st, root)),
{
    lemma_units_covered(fl, u, 0);
    if root < u.len() {
        lemma_file(u, fl, seq![root as usize], st, u[root as int].nodes@, 0);
    }
}

} // verus!
