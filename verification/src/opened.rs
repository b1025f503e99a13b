//! Open files: a translation leaves as many files open as it found, and
//! where it found one it never fails for want of one.

use vstd::prelude::*;
use crate::generator::Pieces;
use crate::loader::Unit;
use crate::loader::unit_names;
use crate::node::Node;
use crate::node::Param;
use crate::pool::position;
use crate::rules::fuel;
use crate::rules::ident_name;
use crate::translate::callee_text;
use crate::translate::cases_text;
use crate::translate::deeper;
use crate::translate::g_apply;
use crate::translate::g_binary;
use crate::translate::g_block;
use crate::translate::g_body;
use crate::translate::g_call;
use crate::translate::g_class;
use crate::translate::g_dump;
use crate::translate::g_dumped;
use crate::translate::g_each;
use crate::translate::g_file;
use crate::translate::g_function;
use crate::translate::g_if;
use crate::translate::g_invoke;
use crate::translate::g_last;
use crate::translate::g_let;
use crate::translate::g_list;
use crate::translate::g_load;
use crate::translate::g_members;
use crate::translate::g_new;
use crate::translate::g_node;
use crate::translate::g_operator;
use crate::translate::g_program;
use crate::translate::g_return;
use crate::translate::g_set;
use crate::translate::g_statements;
use crate::translate::g_switch;
use crate::translate::g_top_let;
use crate::translate::g_while;
use crate::translate::binary_text;
use crate::translate::names_of_params;
use crate::translate::operator_text;
use crate::translate::parameters_text;
use crate::translate::renamed;
use crate::translate::stated;
use crate::translate::with_name;
use crate::translate::Dumped;
use crate::translate::TranslateError;
use crate::translate::Translated;
use crate::generator::converted;
use crate::generator::put;

verus! {

/// Whether a translation that started with the pieces `st` ended with as
/// many open files, or failed for another reason than the want of one
/// where `st` has one.
pub open spec fn keeps(st: Pieces, r: Translated) -> bool {
    match r {
        Ok(m) => m.st.main.len() == st.main.len(),
        Err(e) => e == TranslateError::NoOpenFile ==> st.main.len() == 0,
    }
}

/// [`keeps`] for a step that gives pieces only.
pub open spec fn keeps_pieces(st: Pieces, r: Result<Pieces, TranslateError>) -> bool {
    match r {
        Ok(s) => s.main.len() == st.main.len(),
        Err(e) => e == TranslateError::NoOpenFile ==> st.main.len() == 0,
    }
}

/// [`keeps`] for the arguments of a `dump`.
pub open spec fn keeps_dumped(st: Pieces, r: Result<Dumped, TranslateError>) -> bool {
    match r {
        Ok(d) => d.st.main.len() == st.main.len(),
        Err(e) => e == TranslateError::NoOpenFile ==> st.main.len() == 0,
    }
}

/// Whether a text was made, or could not be for a value that cannot be
/// written or a float without a text.
pub open spec fn text_or_value_error(r: Result<Seq<char>, TranslateError>) -> bool {
    match r {
        Ok(_) => true,
        Err(e) => e == TranslateError::Unprintable || e == TranslateError::UnknownFloat,
    }
}

/// The declarations of parameters fail only for a value among them.
pub proof fn lemma_parameters(fl: Seq<(u32, Seq<char>)>, params: Seq<Param>, from: nat)
    ensures
        text_or_value_error(parameters_text(fl, params, from)),
    decreases params.len() - from,
{
    if from < params.len() {
        lemma_parameters(fl, params, from + 1);
    }
}

/// The cases of a `switch` fail only for a value among them.
pub proof fn lemma_cases(fl: Seq<(u32, Seq<char>)>, args: Seq<Node>, i: nat)
    ensures
        text_or_value_error(cases_text(fl, args, i)),
    decreases args.len() - i,
{
    if i + 1 < args.len() {
        lemma_cases(fl, args, i + 2);
    }
}

/// A node keeps the open files.
pub proof fn lemma_node(
    u: Seq<Unit>,
    fl: Seq<(u32, Seq<char>)>,
    ld: Seq<usize>,
    st: Pieces,
    node: Node,
)
    ensures
        keeps(st, g_node(u, fl, ld, st, node)),
    decreases fuel(u, ld), node, 2nat,
{
    reveal_with_fuel(g_node, 1);
    reveal_with_fuel(g_call, 1);
    reveal_with_fuel(g_function, 1);
    match node {
        Node::Function { name, params, body } => {
            lemma_function(u, fl, ld, st, node);
        },
        Node::Call { name, args } => {
            lemma_call(u, fl, ld, st, name@, args@);
        },
        _ => {},
    }
}

/// A function keeps the open files.
pub proof fn lemma_function(
    u: Seq<Unit>,
    fl: Seq<(u32, Seq<char>)>,
    ld: Seq<usize>,
    st: Pieces,
    node: Node,
)
    ensures
        keeps(st, g_function(u, fl, ld, st, node)),
    decreases fuel(u, ld), node, 1nat,
{
    reveal_with_fuel(g_function, 1);
    reveal_with_fuel(g_body, 1);
    match node {
        Node::Function { name, params, body } => {
            lemma_parameters(fl, params@, 0);
            let s1 = if st.current_class is Some {
                Pieces {
                    current_method: Some(name@),
                    current_method_args: st.current_method_args + names_of_params(params@),
                    ..st
                }
            } else {
                st
            };
            let s2 = renamed(s1, name@);
            let target = converted(name@);
            let s3 = Pieces {
                inside_expression: 0,
                class_functions_names: with_name(s2.class_functions_names, target),
                ..s2
            };
            let s4 = if s3.current_class is None {
                Pieces { functions_names: with_name(s3.functions_names, target), ..s3 }
            } else {
                s3
            };
            lemma_body(u, fl, ld, s4, body@);
        },
        _ => {},
    }
}

/// The body of a function keeps the open files.
pub proof fn lemma_body(
    u: Seq<Unit>,
    fl: Seq<(u32, Seq<char>)>,
    ld: Seq<usize>,
    st: Pieces,
    body: Seq<Node>,
)
    ensures
        keeps(st, g_body(u, fl, ld, st, body)),
    decreases fuel(u, ld), body, body.len() + 1,
{
    reveal_with_fuel(g_body, 1);
    reveal_with_fuel(g_statements, 1);
    if body.len() > 0 {
        if let Ok(s5) = deeper(st) {
            lemma_statements(u, fl, ld, s5, body, 0, true);
        }
    }
}

/// The last statement of a body keeps the open files.
pub proof fn lemma_last(
    u: Seq<Unit>,
    fl: Seq<(u32, Seq<char>)>,
    ld: Seq<usize>,
    st: Pieces,
    node: Node,
    plain: bool,
)
    ensures
        keeps(st, g_last(u, fl, ld, st, node, plain)),
    decreases fuel(u, ld), node, 3nat,
{
    reveal_with_fuel(g_last, 1);
    reveal_with_fuel(g_node, 1);
    lemma_node(u, fl, ld, st, node);
}

/// The statements of a body keep the open files.
pub proof fn lemma_statements(
    u: Seq<Unit>,
    fl: Seq<(u32, Seq<char>)>,
    ld: Seq<usize>,
    st: Pieces,
    nodes: Seq<Node>,
    from: nat,
    plain: bool,
)
    ensures
        keeps(st, g_statements(u, fl, ld, st, nodes, from, plain)),
    decreases fuel(u, ld), nodes, nodes.len() - from,
{
    reveal_with_fuel(g_statements, 1);
    reveal_with_fuel(g_last, 1);
    reveal_with_fuel(g_node, 1);
    if from < nodes.len() {
        if from + 1 == nodes.len() {
            lemma_last(u, fl, ld, st, nodes[from as int], plain);
            if let Ok(a) = g_last(u, fl, ld, st, nodes[from as int], plain) {
                lemma_statements(u, fl, ld, a.st, nodes, from + 1, plain);
            }
        } else {
            lemma_node(u, fl, ld, st, nodes[from as int]);
            if let Ok(a) = g_node(u, fl, ld, st, nodes[from as int]) {
                lemma_statements(u, fl, ld, a.st, nodes, from + 1, plain);
            }
        }
    }
}

/// A row of nodes keeps the open files.
pub proof fn lemma_each(
    u: Seq<Unit>,
    fl: Seq<(u32, Seq<char>)>,
    ld: Seq<usize>,
    st: Pieces,
    nodes: Seq<Node>,
    from: nat,
    first: nat,
    between: Seq<char>,
    open: Seq<char>,
    close: Seq<char>,
)
    ensures
        keeps(st, g_each(u, fl, ld, st, nodes, from, first, between, open, close)),
    decreases fuel(u, ld), nodes, nodes.len() - from,
{
    reveal_with_fuel(g_each, 1);
    reveal_with_fuel(g_node, 1);
    if from < nodes.len() {
        lemma_node(u, fl, ld, st, nodes[from as int]);
        if let Ok(a) = g_node(u, fl, ld, st, nodes[from as int]) {
            lemma_each(u, fl, ld, a.st, nodes, from + 1, first, between, open, close);
        }
    }
}

/// A call form keeps the open files.
pub proof fn lemma_call(
    u: Seq<Unit>,
    fl: Seq<(u32, Seq<char>)>,
    ld: Seq<usize>,
    st: Pieces,
    name: Seq<char>,
    args: Seq<Node>,
)
    ensures
        keeps(st, g_call(u, fl, ld, st, name, args)),
    decreases fuel(u, ld), args, args.len() + 3,
{
    reveal_with_fuel(g_call, 1);
    reveal_with_fuel(g_apply, 1);
    reveal_with_fuel(g_binary, 1);
    reveal_with_fuel(g_block, 1);
    reveal_with_fuel(g_class, 1);
    reveal_with_fuel(g_dump, 1);
    reveal_with_fuel(g_if, 1);
    reveal_with_fuel(g_invoke, 1);
    reveal_with_fuel(g_let, 1);
    reveal_with_fuel(g_list, 1);
    reveal_with_fuel(g_load, 1);
    reveal_with_fuel(g_new, 1);
    reveal_with_fuel(g_operator, 1);
    reveal_with_fuel(g_return, 1);
    reveal_with_fuel(g_set, 1);
    reveal_with_fuel(g_switch, 1);
    reveal_with_fuel(g_while, 1);
    if name == "let"@ {
        lemma_let(u, fl, ld, st, args);
    } else if name == "set"@ {
        lemma_set(u, fl, ld, st, args);
    } else if name == "while"@ {
        lemma_while(u, fl, ld, st, args);
    } else if operator_text(name) is Some {
        lemma_operator(u, fl, ld, st, args, operator_text(name).unwrap());
    } else if name == "if"@ {
        lemma_if(u, fl, ld, st, args);
    } else if name == "return"@ {
        lemma_return(u, fl, ld, st, args);
    } else if name == "list"@ {
        lemma_list(u, fl, ld, st, args);
    } else if name == "block"@ {
        lemma_block(u, fl, ld, st, args);
    } else if name == "dump"@ {
        lemma_dump(u, fl, ld, st, args);
    } else if name == "call"@ {
        lemma_apply(u, fl, ld, st, args);
    } else if name == "switch"@ {
        lemma_switch(u, fl, ld, st, args);
    } else if name == "load"@ {
        lemma_load(u, fl, ld, st, args);
    } else if name == "class"@ {
        lemma_class(u, fl, ld, st, args);
    } else if name == "new"@ {
        lemma_new(u, fl, ld, st, args);
    } else if binary_text(name) is Some {
        lemma_binary(u, fl, ld, st, args, binary_text(name).unwrap());
    } else {
        lemma_invoke(u, fl, ld, st, name, args);
    }
}

/// A `let` keeps the open files.
pub proof fn lemma_let(
    u: Seq<Unit>,
    fl: Seq<(u32, Seq<char>)>,
    ld: Seq<usize>,
    st: Pieces,
    args: Seq<Node>,
)
    ensures
        keeps(st, g_let(u, fl, ld, st, args)),
    decreases fuel(u, ld), args, args.len() + 2,
{
    reveal_with_fuel(g_let, 1);
    reveal_with_fuel(g_node, 1);
    if args.len() >= 2 && ident_name(args[0]) is Some {
        if let Ok(s1) = deeper(st) {
            let s2 = renamed(Pieces { inside_expression: 1, ..s1 }, ident_name(args[0]).unwrap());
            lemma_node(u, fl, ld, s2, args[1]);
        }
    }
}

/// A `set` keeps the open files.
pub proof fn lemma_set(
    u: Seq<Unit>,
    fl: Seq<(u32, Seq<char>)>,
    ld: Seq<usize>,
    st: Pieces,
    args: Seq<Node>,
)
    ensures
        keeps(st, g_set(u, fl, ld, st, args)),
    decreases fuel(u, ld), args, args.len() + 2,
{
    reveal_with_fuel(g_set, 1);
    reveal_with_fuel(g_node, 1);
    if args.len() >= 2 && ident_name(args[0]) is Some {
        lemma_node(u, fl, ld, renamed(st, ident_name(args[0]).unwrap()), args[1]);
    }
}

/// A `while` keeps the open files.
pub proof fn lemma_while(
    u: Seq<Unit>,
    fl: Seq<(u32, Seq<char>)>,
    ld: Seq<usize>,
    st: Pieces,
    args: Seq<Node>,
)
    ensures
        keeps(st, g_while(u, fl, ld, st, args)),
    decreases fuel(u, ld), args, args.len() + 2,
{
    reveal_with_fuel(g_while, 1);
    reveal_with_fuel(g_node, 1);
    reveal_with_fuel(g_statements, 1);
    if args.len() >= 1 {
        lemma_node(u, fl, ld, st, args[0]);
        if let Ok(c) = g_node(u, fl, ld, st, args[0]) {
            lemma_statements(u, fl, ld, c.st, args, 1, false);
        }
    }
}

/// An operator form keeps the open files.
pub proof fn lemma_operator(
    u: Seq<Unit>,
    fl: Seq<(u32, Seq<char>)>,
    ld: Seq<usize>,
    st: Pieces,
    args: Seq<Node>,
    op: Seq<char>,
)
    ensures
        keeps(st, g_operator(u, fl, ld, st, args, op)),
    decreases fuel(u, ld), args, args.len() + 2,
{
    reveal_with_fuel(g_operator, 1);
    reveal_with_fuel(g_each, 1);
    reveal_with_fuel(g_node, 1);
    if args.len() >= 1 {
        lemma_node(u, fl, ld, st, args[0]);
        if let Ok(a) = g_node(u, fl, ld, st, args[0]) {
            lemma_each(
                u,
                fl,
                ld,
                a.st,
                args,
                1,
                args.len(),
                " "@ + op + " "@,
                Seq::empty(),
                Seq::empty(),
            );
        }
    }
}

/// An `if` keeps the open files.
pub proof fn lemma_if(
    u: Seq<Unit>,
    fl: Seq<(u32, Seq<char>)>,
    ld: Seq<usize>,
    st: Pieces,
    args: Seq<Node>,
)
    ensures
        keeps(st, g_if(u, fl, ld, st, args)),
    decreases fuel(u, ld), args, args.len() + 2,
{
    reveal_with_fuel(g_if, 1);
    reveal_with_fuel(g_node, 1);
    if args.len() >= 3 {
        lemma_node(u, fl, ld, st, args[0]);
        if let Ok(c) = g_node(u, fl, ld, st, args[0]) {
            lemma_node(u, fl, ld, c.st, args[1]);
            if let Ok(t) = g_node(u, fl, ld, c.st, args[1]) {
                lemma_node(u, fl, ld, t.st, args[2]);
            }
        }
    }
}

/// A `return` keeps the open files.
pub proof fn lemma_return(
    u: Seq<Unit>,
    fl: Seq<(u32, Seq<char>)>,
    ld: Seq<usize>,
    st: Pieces,
    args: Seq<Node>,
)
    ensures
        keeps(st, g_return(u, fl, ld, st, args)),
    decreases fuel(u, ld), args, args.len() + 2,
{
    reveal_with_fuel(g_return, 1);
    reveal_with_fuel(g_node, 1);
    if args.len() >= 1 {
        lemma_node(u, fl, ld, st, args[0]);
    }
}

/// A `list` keeps the open files.
pub proof fn lemma_list(
    u: Seq<Unit>,
    fl: Seq<(u32, Seq<char>)>,
    ld: Seq<usize>,
    st: Pieces,
    args: Seq<Node>,
)
    ensures
        keeps(st, g_list(u, fl, ld, st, args)),
    decreases fuel(u, ld), args, args.len() + 2,
{
    reveal_with_fuel(g_list, 1);
    reveal_with_fuel(g_each, 1);
    lemma_each(u, fl, ld, st, args, 0, 0, Seq::empty(), "ret1.emplace_back("@, ");\n"@);
}

/// A `block` keeps the open files.
pub proof fn lemma_block(
    u: Seq<Unit>,
    fl: Seq<(u32, Seq<char>)>,
    ld: Seq<usize>,
    st: Pieces,
    args: Seq<Node>,
)
    ensures
        keeps(st, g_block(u, fl, ld, st, args)),
    decreases fuel(u, ld), args, args.len() + 2,
{
    reveal_with_fuel(g_block, 1);
    reveal_with_fuel(g_statements, 1);
    lemma_statements(u, fl, ld, st, args, 0, false);
}

/// The arguments of a `dump` keep the open files.
pub proof fn lemma_dumped(
    u: Seq<Unit>,
    fl: Seq<(u32, Seq<char>)>,
    ld: Seq<usize>,
    st: Pieces,
    args: Seq<Node>,
    i: nat,
)
    ensures
        keeps_dumped(st, g_dumped(u, fl, ld, st, args, i)),
    decreases fuel(u, ld), args, args.len() - i,
{
    reveal_with_fuel(g_dumped, 1);
    reveal_with_fuel(g_node, 1);
    if i < args.len() {
        match args[i as int] {
            Node::Identifier(id) => {
                lemma_dumped(u, fl, ld, renamed(st, id@), args, i + 1);
            },
            _ => {
                lemma_node(u, fl, ld, st, args[i as int]);
                if let Ok(a) = g_node(u, fl, ld, st, args[i as int]) {
                    lemma_dumped(u, fl, ld, a.st, args, i + 1);
                }
            },
        }
    }
}

/// A `dump` keeps the open files.
pub proof fn lemma_dump(
    u: Seq<Unit>,
    fl: Seq<(u32, Seq<char>)>,
    ld: Seq<usize>,
    st: Pieces,
    args: Seq<Node>,
)
    ensures
        keeps(st, g_dump(u, fl, ld, st, args)),
    decreases fuel(u, ld), args, args.len() + 2,
{
    reveal_with_fuel(g_dump, 1);
    reveal_with_fuel(g_dumped, 1);
    lemma_dumped(u, fl, ld, st, args, 0);
}

/// An applied function keeps the open files.
pub proof fn lemma_apply(
    u: Seq<Unit>,
    fl: Seq<(u32, Seq<char>)>,
    ld: Seq<usize>,
    st: Pieces,
    args: Seq<Node>,
)
    ensures
        keeps(st, g_apply(u, fl, ld, st, args)),
    decreases fuel(u, ld), args, args.len() + 2,
{
    reveal_with_fuel(g_apply, 1);
    reveal_with_fuel(g_each, 1);
    reveal_with_fuel(g_node, 1);
    if args.len() >= 1 {
        lemma_node(u, fl, ld, st, args[0]);
        if let Ok(f) = g_node(u, fl, ld, st, args[0]) {
            lemma_each(u, fl, ld, f.st, args, 1, 1, ", "@, Seq::empty(), Seq::empty());
        }
    }
}

/// A `switch` keeps the open files.
pub proof fn lemma_switch(
    u: Seq<Unit>,
    fl: Seq<(u32, Seq<char>)>,
    ld: Seq<usize>,
    st: Pieces,
    args: Seq<Node>,
)
    ensures
        keeps(st, g_switch(u, fl, ld, st, args)),
    decreases fuel(u, ld), args, args.len() + 2,
{
    reveal_with_fuel(g_switch, 1);
    reveal_with_fuel(g_node, 1);
    if args.len() >= 1 {
        lemma_node(u, fl, ld, st, args[0]);
        lemma_cases(fl, args, 1);
    }
}

/// A `load` keeps the open files: the file that it opens it closes.
pub proof fn lemma_load(
    u: Seq<Unit>,
    fl: Seq<(u32, Seq<char>)>,
    ld: Seq<usize>,
    st: Pieces,
    args: Seq<Node>,
)
    ensures
        keeps(st, g_load(u, fl, ld, st, args)),
    decreases fuel(u, ld), args, args.len() + 2,
{
    reveal_with_fuel(g_load, 1);
    reveal_with_fuel(g_file, 1);
    if args.len() >= 1 {
        match args[0] {
            Node::String(name) => {
                if let Some(k) = position(unit_names(u), name@) {
                    if !(ld.contains(k as usize) || ld.len() >= u.len() || k >= u.len()) {
                        let s1 = Pieces { main: st.main.push(Seq::empty()), ..st };
                        lemma_file(u, fl, ld.push(k as usize), s1, u[k as int].nodes@, 0);
                    }
                }
            },
            _ => {},
        }
    }
}

/// The members of a class keep the open files.
pub proof fn lemma_members(
    u: Seq<Unit>,
    fl: Seq<(u32, Seq<char>)>,
    ld: Seq<usize>,
    st: Pieces,
    args: Seq<Node>,
    from: nat,
)
    ensures
        keeps(st, g_members(u, fl, ld, st, args, from)),
    decreases fuel(u, ld), args, args.len() - from,
{
    reveal_with_fuel(g_members, 1);
    reveal_with_fuel(g_node, 1);
    if from < args.len() {
        lemma_node(u, fl, ld, st, args[from as int]);
        if let Ok(a) = g_node(u, fl, ld, st, args[from as int]) {
            lemma_members(u, fl, ld, a.st, args, from + 1);
        }
    }
}

/// A `class` keeps the open files.
pub proof fn lemma_class(
    u: Seq<Unit>,
    fl: Seq<(u32, Seq<char>)>,
    ld: Seq<usize>,
    st: Pieces,
    args: Seq<Node>,
)
    ensures
        keeps(st, g_class(u, fl, ld, st, args)),
    decreases fuel(u, ld), args, args.len() + 2,
{
    reveal_with_fuel(g_class, 1);
    reveal_with_fuel(g_members, 1);
    if args.len() >= 2 && ident_name(args[0]) is Some {
        let name = ident_name(args[0]).unwrap();
        let parent = match ident_name(args[1]) {
            Some(p) => p,
            None => "SimpleListObject"@,
        };
        let from: nat = if ident_name(args[1]) is Some {
            2
        } else {
            1
        };
        let s1 = Pieces { classes: put(st.classes, name, parent), current_class: Some(name), ..st };
        lemma_members(u, fl, ld, s1, args, from);
    }
}

/// A `new` keeps the open files.
pub proof fn lemma_new(
    u: Seq<Unit>,
    fl: Seq<(u32, Seq<char>)>,
    ld: Seq<usize>,
    st: Pieces,
    args: Seq<Node>,
)
    ensures
        keeps(st, g_new(u, fl, ld, st, args)),
    decreases fuel(u, ld), args, args.len() + 2,
{
    reveal_with_fuel(g_new, 1);
    reveal_with_fuel(g_each, 1);
    if args.len() >= 1 && ident_name(args[0]) is Some {
        lemma_each(u, fl, ld, st, args, 1, 1, ", "@, Seq::empty(), Seq::empty());
    }
}

/// A named binary form keeps the open files.
pub proof fn lemma_binary(
    u: Seq<Unit>,
    fl: Seq<(u32, Seq<char>)>,
    ld: Seq<usize>,
    st: Pieces,
    args: Seq<Node>,
    op: Seq<char>,
)
    ensures
        keeps(st, g_binary(u, fl, ld, st, args, op)),
    decreases fuel(u, ld), args, args.len() + 2,
{
    reveal_with_fuel(g_binary, 1);
    reveal_with_fuel(g_node, 1);
    if args.len() >= 2 {
        lemma_node(u, fl, ld, st, args[0]);
        if let Ok(a) = g_node(u, fl, ld, st, args[0]) {
            lemma_node(u, fl, ld, a.st, args[1]);
        }
    }
}

/// A call that is no special form keeps the open files.
pub proof fn lemma_invoke(
    u: Seq<Unit>,
    fl: Seq<(u32, Seq<char>)>,
    ld: Seq<usize>,
    st: Pieces,
    name: Seq<char>,
    args: Seq<Node>,
)
    ensures
        keeps(st, g_invoke(u, fl, ld, st, name, args)),
    decreases fuel(u, ld), args, args.len() + 2,
{
    reveal_with_fuel(g_invoke, 1);
    reveal_with_fuel(g_each, 1);
    if let Ok((s1, callee)) = callee_text(st, name) {
        lemma_each(u, fl, ld, s1, args, 0, 0, ", "@, "Value("@, ")"@);
    }
}

/// A `let` at the top level keeps the open files.
pub proof fn lemma_top_let(
    u: Seq<Unit>,
    fl: Seq<(u32, Seq<char>)>,
    ld: Seq<usize>,
    st: Pieces,
    args: Seq<Node>,
)
    ensures
        keeps_pieces(st, g_top_let(u, fl, ld, st, args)),
    decreases fuel(u, ld), args, args.len() + 2,
{
    reveal_with_fuel(g_top_let, 1);
    reveal_with_fuel(g_node, 1);
    if args.len() >= 2 && ident_name(args[0]) is Some {
        let name = ident_name(args[0]).unwrap();
        let s1 = renamed(st, name);
        let s2 = Pieces { headers: s1.headers.push("Value "@ + converted(name) + ";\n"@), ..s1 };
        if let Ok(s3) = deeper(s2) {
            lemma_node(u, fl, ld, Pieces { inside_expression: 1, ..s3 }, args[1]);
        }
    }
}

/// The top-level nodes of a file keep the open files.
pub proof fn lemma_file(
    u: Seq<Unit>,
    fl: Seq<(u32, Seq<char>)>,
    ld: Seq<usize>,
    st: Pieces,
    nodes: Seq<Node>,
    from: nat,
)
    ensures
        keeps(st, g_file(u, fl, ld, st, nodes, from)),
    decreases fuel(u, ld), nodes, nodes.len() - from,
{
    reveal_with_fuel(g_file, 1);
    reveal_with_fuel(g_node, 1);
    reveal_with_fuel(g_top_let, 1);
    if from < nodes.len() {
        lemma_node(u, fl, ld, st, nodes[from as int]);
        if let Ok(g) = g_node(u, fl, ld, st, nodes[from as int]) {
            let step = match nodes[from as int] {
                Node::Function { name, params, body } => {
                    let s1 = renamed(g.st, name@);
                    Ok(
                        Pieces {
                            functions: s1.functions.push(g.text),
                            functions_names: with_name(s1.functions_names, converted(name@)),
                            ..s1
                        },
                    )
                },
                Node::Call { name, args } => if name@ == "let"@ {
                    lemma_top_let(u, fl, ld, g.st, args@);
                    g_top_let(u, fl, ld, g.st, args@)
                } else if g.text.len() > 0 {
                    stated(g.st, g.text + ";\n"@)
                } else {
                    Ok(g.st)
                },
                _ => stated(g.st, g.text + ";\n"@),
            };
            if let Ok(s2) = step {
                lemma_file(u, fl, ld, s2, nodes, from + 1);
            }
        }
    }
}

/// A translation that starts with an open file never fails for want of
/// one, and ends with as many open files as it started with.
pub proof fn law_files_stay_open(u: Seq<Unit>, fl: Seq<(u32, Seq<char>)>, st: Pieces, root: nat)
    requires
        st.main.len() > 0,
    ensures
        match g_program(u, fl, st, root) {
            Ok(m) => m.st.main.len() == st.main.len(),
            Err(e) => e != TranslateError::NoOpenFile,
        },
{
    if root < u.len() {
        lemma_file(u, fl, seq![root as usize], st, u[root as int].nodes@, 0);
    }
}

} // verus!
