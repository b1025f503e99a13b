//! No unit is missing where none is wanted.
//!
//! The loader says which unit a program wants next. This module proves
//! that the compiler asks for no other: when the loader wants none, the
//! compilation of the program does not fail for a missing unit.

use vstd::prelude::*;
use crate::error::CompileError;
use crate::laws::lemma_alias_errors;
use crate::loader::Unit;
use crate::loader::first_unknown;
use crate::loader::load_target;
use crate::loader::loads_in;
use crate::loader::loads_in_nodes;
use crate::loader::loads_in_params;
use crate::loader::loads_of;
use crate::loader::unit_names;
use crate::loader::wanted;
use crate::node::Node;
use crate::node::Param;
use crate::opcode::Instr;
use crate::pool::lemma_position;
use crate::pool::position;
use crate::rules::Compiled;
use crate::rules::Out;
use crate::rules::State;
use crate::rules::arithmetic_instr;
use crate::rules::body_bytes;
use crate::rules::c_aliases;
use crate::rules::c_assign;
use crate::rules::c_call;
use crate::rules::c_cases;
use crate::rules::c_class;
use crate::rules::c_closure;
use crate::rules::c_defaults;
use crate::rules::c_dispatch;
use crate::rules::c_print;
use crate::rules::module_call;
use crate::rules::passed;
use crate::rules::c_fiber;
use crate::rules::c_fields;
use crate::rules::c_function;
use crate::rules::c_if;
use crate::rules::c_let;
use crate::rules::c_list;
use crate::rules::c_load;
use crate::rules::c_load_variable;
use crate::rules::c_methods;
use crate::rules::c_new;
use crate::rules::c_node;
use crate::rules::c_nth;
use crate::rules::c_operator;
use crate::rules::c_overloads;
use crate::rules::c_program;
use crate::rules::c_seq;
use crate::rules::c_super;
use crate::rules::c_switch;
use crate::rules::c_unit;
use crate::rules::c_while;
use crate::rules::class_slot;
use crate::rules::comparison_instrs;
use crate::rules::first_default;
use crate::rules::fuel;
use crate::rules::ident_name;
use crate::rules::initial_state;
use crate::rules::intern;
use crate::rules::local_loads;
use crate::rules::param_names;
use crate::rules::slot_names;
use crate::scope::ARITY_LIMIT;
use crate::scope::ContextView;
use crate::scope::field_context;
use crate::scope::function_context;
use crate::scope::top_level_context;
use crate::selector::call_selector;
use crate::selector::closure_selector;
use crate::selector::plain_selector;
use crate::table::FieldView;
use crate::table::FunctionView;
use crate::table::field_names;
use crate::table::inherited_fields;
use crate::table::module_class;
use crate::table::root_class;

verus! {

/// Whether `name` is the name of a unit.
pub open spec fn known(u: Seq<Unit>, name: Seq<char>) -> bool {
    position(unit_names(u), name) is Some
}

/// Whether all of `names` are names of units.
pub open spec fn all_known(u: Seq<Unit>, names: Seq<Seq<char>>) -> bool {
    forall|j: int| 0 <= j < names.len() ==> known(u, #[trigger] names[j])
}

/// Whether the unit that a call form loads, if it loads one, is there.
pub open spec fn target_supplied(u: Seq<Unit>, name: Seq<char>, args: Seq<Node>) -> bool {
    all_known(u, load_target(name, args))
}

/// Whether every unit that a `load` form in `node` names is there.
pub open spec fn node_supplied(u: Seq<Unit>, node: Node) -> bool
    decreases node,
{
    match node {
        Node::Call { name, args } => target_supplied(u, name@, args@) && forall|i: int|
            0 <= i < args@.len() ==> node_supplied(u, #[trigger] args@[i]),
        Node::Function { name, params, body } => (forall|i: int|
            0 <= i < params@.len() ==> param_supplied(u, #[trigger] params@[i])) && (forall|
            i: int,
        | 0 <= i < body@.len() ==> node_supplied(u, #[trigger] body@[i])),
        _ => true,
    }
}

/// [`node_supplied`] for the default value of a parameter.
pub open spec fn param_supplied(u: Seq<Unit>, param: Param) -> bool
    decreases param,
{
    match param.default_value {
        Some(d) => node_supplied(u, d),
        None => true,
    }
}

/// [`node_supplied`] for each of `nodes`.
pub open spec fn nodes_supplied(u: Seq<Unit>, nodes: Seq<Node>) -> bool {
    forall|i: int| 0 <= i < nodes.len() ==> node_supplied(u, #[trigger] nodes[i])
}

/// [`param_supplied`] for each of `params`.
pub open spec fn params_supplied(u: Seq<Unit>, params: Seq<Param>) -> bool {
    forall|i: int| 0 <= i < params.len() ==> param_supplied(u, #[trigger] params[i])
}

/// Whether every unit that some unit loads is there.
pub open spec fn units_supplied(u: Seq<Unit>) -> bool {
    forall|k: int| 0 <= k < u.len() ==> nodes_supplied(u, #[trigger] u[k].nodes@)
}

/// Whether a compilation did not fail for a missing unit.
pub open spec fn supplied(r: Compiled) -> bool {
    r != Err::<Out, CompileError>(CompileError::MissingModule)
}

/// Names that are all known are known in both halves, and the other way round.
pub proof fn lemma_all_known_concat(u: Seq<Unit>, a: Seq<Seq<char>>, b: Seq<Seq<char>>)
    ensures
        all_known(u, a + b) <==> all_known(u, a) && all_known(u, b),
{
    if all_known(u, a + b) {
        assert forall|j: int| 0 <= j < a.len() implies known(u, #[trigger] a[j]) by {
            assert((a + b)[j] == a[j]);
        }
        assert forall|j: int| 0 <= j < b.len() implies known(u, #[trigger] b[j]) by {
            assert((a + b)[a.len() + j] == b[j]);
        }
    }
    if all_known(u, a) && all_known(u, b) {
        assert forall|j: int| 0 <= j < (a + b).len() implies known(u, #[trigger] (a + b)[j]) by {
            if j < a.len() {
                assert((a + b)[j] == a[j]);
            } else {
                assert((a + b)[j] == b[j - a.len()]);
            }
        }
    }
}

/// Where the units that a piece of syntax names are all there, the syntax
/// is supplied.
pub proof fn lemma_node_supplied(u: Seq<Unit>, node: Node)
    requires
        all_known(u, loads_in(node)),
    ensures
        node_supplied(u, node),
    decreases node, 0nat,
{
    match node {
        Node::Call { name, args } => {
            lemma_all_known_concat(u, load_target(name@, args@), loads_in_nodes(args@, 0));
            lemma_nodes_supplied(u, args@, 0);
        },
        Node::Function { name, params, body } => {
            lemma_all_known_concat(u, loads_in_params(params@, 0), loads_in_nodes(body@, 0));
            lemma_params_supplied(u, params@, 0);
            lemma_nodes_supplied(u, body@, 0);
        },
        _ => {},
    }
}

/// [`lemma_node_supplied`] for the nodes from index `from` on.
pub proof fn lemma_nodes_supplied(u: Seq<Unit>, nodes: Seq<Node>, from: nat)
    requires
        all_known(u, loads_in_nodes(nodes, from)),
    ensures
        forall|i: int| from <= i < nodes.len() ==> node_supplied(u, #[trigger] nodes[i]),
    decreases nodes, nodes.len() - from,
{
    if from < nodes.len() {
        lemma_all_known_concat(
            u,
            loads_in(nodes[from as int]),
            loads_in_nodes(nodes, from + 1),
        );
        lemma_node_supplied(u, nodes[from as int]);
        lemma_nodes_supplied(u, nodes, from + 1);
    }
}

/// [`lemma_node_supplied`] for the parameters from index `from` on.
pub proof fn lemma_params_supplied(u: Seq<Unit>, params: Seq<Param>, from: nat)
    requires
        all_known(u, loads_in_params(params, from)),
    ensures
        forall|i: int| from <= i < params.len() ==> param_supplied(u, #[trigger] params[i]),
    decreases params, params.len() - from,
{
    if from < params.len() {
        let first = match params[from as int].default_value {
            Some(d) => loads_in(d),
            None => Seq::empty(),
        };
        lemma_all_known_concat(u, first, loads_in_params(params, from + 1));
        match params[from as int].default_value {
            Some(d) => {
                lemma_node_supplied(u, d);
            },
            None => {},
        }
        lemma_params_supplied(u, params, from + 1);
    }
}

/// Where no name is unknown, all are known.
pub proof fn lemma_none_unknown(u: Seq<Unit>, names: Seq<Seq<char>>, from: nat)
    requires
        first_unknown(names, unit_names(u), from) is None,
    ensures
        forall|j: int| from <= j < names.len() ==> known(u, #[trigger] names[j]),
    decreases names.len() - from,
{
    if from < names.len() {
        lemma_none_unknown(u, names, from + 1);
    }
}

/// Where the units that the units from `from` on load are all there, each
/// of these units is supplied.
pub proof fn lemma_units_supplied(u: Seq<Unit>, from: nat)
    requires
        all_known(u, loads_of(u, from)),
    ensures
        forall|k: int| from <= k < u.len() ==> nodes_supplied(u, #[trigger] u[k].nodes@),
    decreases u.len() - from,
{
    if from < u.len() {
        lemma_all_known_concat(
            u,
            loads_in_nodes(u[from as int].nodes@, 0),
            loads_of(u, from + 1),
        );
        lemma_nodes_supplied(u, u[from as int].nodes@, 0);
        lemma_units_supplied(u, from + 1);
    }
}

/// Where the loader wants no unit, every unit is supplied.
pub proof fn lemma_wanted_none(u: Seq<Unit>)
    requires
        wanted(u) is None,
    ensures
        units_supplied(u),
{
    lemma_none_unknown(u, loads_of(u, 0), 0);
    lemma_units_supplied(u, 0);
}

/// A supplied node compiles without a missing unit.
pub proof fn lemma_node(u: Seq<Unit>, ld: Seq<usize>, st: State, cx: ContextView, node: Node)
    requires
        units_supplied(u),
        node_supplied(u, node),
    ensures
        supplied(c_node(u, ld, st, cx, node)),
    decreases fuel(u, ld), node, 0nat,
{
    reveal_with_fuel(c_node, 1);
    reveal_with_fuel(c_call, 1);
    reveal_with_fuel(c_closure, 1);
    match node {
        Node::Call { name, args } => {
            lemma_call(u, ld, st, cx, name@, args@);
        },
        Node::Function { name, params, body } => {
            if name@.len() == 0 {
                lemma_closure(u, ld, st, cx, params@, body@);
            }
        },
        _ => {},
    }
}

/// Supplied nodes compile without a missing unit.
pub proof fn lemma_seq(
    u: Seq<Unit>,
    ld: Seq<usize>,
    st: State,
    cx: ContextView,
    nodes: Seq<Node>,
    from: nat,
    each: Seq<Instr>,
    last: Seq<Instr>,
)
    requires
        units_supplied(u),
        nodes_supplied(u, nodes),
    ensures
        supplied(c_seq(u, ld, st, cx, nodes, from, each, last)),
    decreases fuel(u, ld), nodes, nodes.len() - from,
{
    reveal_with_fuel(c_seq, 1);
    reveal_with_fuel(c_node, 1);
    if from < nodes.len() {
        lemma_node(u, ld, st, cx, nodes[from as int]);
        if let Ok(a) = c_node(u, ld, st, cx, nodes[from as int]) {
            lemma_seq(u, ld, a.st, a.cx, nodes, from + 1, each, last);
        }
    }
}

/// A supplied call form compiles without a missing unit.
pub proof fn lemma_call(
    u: Seq<Unit>,
    ld: Seq<usize>,
    st: State,
    cx: ContextView,
    name: Seq<char>,
    args: Seq<Node>,
)
    requires
        units_supplied(u),
        target_supplied(u, name, args),
        nodes_supplied(u, args),
    ensures
        supplied(c_call(u, ld, st, cx, name, args)),
    decreases fuel(u, ld), args, args.len() + 3,
{
    reveal_with_fuel(c_call, 1);
    reveal_with_fuel(c_operator, 1);
    reveal_with_fuel(c_list, 1);
    reveal_with_fuel(c_nth, 1);
    reveal_with_fuel(c_if, 1);
    reveal_with_fuel(c_while, 1);
    reveal_with_fuel(c_switch, 1);
    reveal_with_fuel(c_class, 1);
    reveal_with_fuel(c_super, 1);
    reveal_with_fuel(c_let, 1);
    reveal_with_fuel(c_assign, 1);
    reveal_with_fuel(c_new, 1);
    reveal_with_fuel(c_fiber, 1);
    reveal_with_fuel(c_load, 1);
    reveal_with_fuel(c_dispatch, 1);
    reveal_with_fuel(c_print, 1);
    reveal_with_fuel(c_seq, 1);
    reveal_with_fuel(c_node, 1);
    reveal_with_fuel(c_cases, 1);
    reveal_with_fuel(c_closure, 1);
    reveal_with_fuel(c_unit, 1);
    reveal_with_fuel(c_fields, 1);
    reveal_with_fuel(c_methods, 1);
    if arithmetic_instr(name) is Some || comparison_instrs(name)
        is Some {
        lemma_seq(u, ld, st, cx, args, 0, Seq::empty(), Seq::empty());
    } else if name == "inc"@ {
    } else if name == "list"@ {
        lemma_list(u, ld, st, cx, args);
    } else if name == "nth"@ {
        lemma_nth(u, ld, st, cx, args);
    } else if name == "if"@ {
        lemma_if(u, ld, st, cx, args);
    } else if name == "while"@ {
        lemma_while(u, ld, st, cx, args);
    } else if name == "switch"@ {
        if args.len() >= 2 {
            lemma_node(u, ld, st, cx, args[0]);
            if let Ok(s) = c_node(u, ld, st, cx, args[0]) {
                lemma_cases(u, ld, s.st, s.cx, args, 1);
            }
        }
    } else if name == "class"@ {
        lemma_class(u, ld, st, cx, args);
    } else if name == "super"@ {
        lemma_super(u, ld, st, cx, args);
    } else if name == "let"@ {
        if args.len() == 2 {
            lemma_node(u, ld, st, cx, args[1]);
        }
    } else if name == "set"@ {
        if args.len() == 2 {
            lemma_node(u, ld, st, cx, args[1]);
        }
    } else if name == "new"@ {
        lemma_new(u, ld, st, cx, args);
    } else if name == "abort"@ {
    } else if name == "fiber"@ {
        lemma_fiber(u, ld, st, cx, args);
    } else if name == "yield"@ {
    } else if name == "return"@ {
    } else if name == "load"@ {
        lemma_load(u, ld, st, cx, args);
    } else if name == "print"@ || name == "write"@ {
        if let Ok((s1, i_sel)) = intern(st, plain_selector(name, args.len())) {
            lemma_seq(u, ld, s1, cx, args, 0, Seq::empty(), Seq::empty());
        }
    } else {
        lemma_dispatch(u, ld, st, cx, name, args);
    }
}

/// A supplied `list` compiles without a missing unit.
pub proof fn lemma_list(u: Seq<Unit>, ld: Seq<usize>, st: State, cx: ContextView, args: Seq<Node>)
    requires
        units_supplied(u),
        nodes_supplied(u, args),
    ensures
        supplied(c_list(u, ld, st, cx, args)),
    decreases fuel(u, ld), args, args.len() + 2,
{
    reveal_with_fuel(c_list, 1);
    reveal_with_fuel(c_seq, 1);
    if let Ok((s1, i_list)) = intern(st, "List"@) {
        if let Ok((s2, i_new)) = intern(s1, "new()"@) {
            if let Ok((s3, i_add)) = intern(s2, "add(_)"@) {
                lemma_seq(
                    u,
                    ld,
                    s3,
                    cx,
                    args,
                    0,
                    seq![Instr::Call(i_add, 1)],
                    seq![Instr::Call(i_add, 1)],
                );
            }
        }
    }
}

/// A supplied `nth` compiles without a missing unit.
pub proof fn lemma_nth(u: Seq<Unit>, ld: Seq<usize>, st: State, cx: ContextView, args: Seq<Node>)
    requires
        units_supplied(u),
        nodes_supplied(u, args),
    ensures
        supplied(c_nth(u, ld, st, cx, args)),
    decreases fuel(u, ld), args, args.len() + 2,
{
    reveal_with_fuel(c_nth, 1);
    reveal_with_fuel(c_seq, 1);
    if args.len() == 2 || args.len() == 3 {
        if let Ok((s1, i_get)) = intern(st, "[_]"@) {
            if let Ok((s2, i_set)) = intern(s1, "[_]=(_)"@) {
                if let Ok((s3, container)) = c_load_variable(s2, cx, args[0]) {
                    lemma_seq(u, ld, s3, cx, args, 1, Seq::empty(), Seq::empty());
                }
            }
        }
    }
}

/// A supplied `if` compiles without a missing unit.
pub proof fn lemma_if(u: Seq<Unit>, ld: Seq<usize>, st: State, cx: ContextView, args: Seq<Node>)
    requires
        units_supplied(u),
        nodes_supplied(u, args),
    ensures
        supplied(c_if(u, ld, st, cx, args)),
    decreases fuel(u, ld), args, args.len() + 2,
{
    reveal_with_fuel(c_if, 1);
    reveal_with_fuel(c_node, 1);
    if args.len() == 3 {
        lemma_node(u, ld, st, cx, args[0]);
        if let Ok(c) = c_node(u, ld, st, cx, args[0]) {
            lemma_node(u, ld, c.st, c.cx, args[1]);
            if let Ok(t) = c_node(u, ld, c.st, c.cx, args[1]) {
                lemma_node(u, ld, t.st, t.cx, args[2]);
            }
        }
    }
}

/// A supplied `while` compiles without a missing unit.
pub proof fn lemma_while(u: Seq<Unit>, ld: Seq<usize>, st: State, cx: ContextView, args: Seq<Node>)
    requires
        units_supplied(u),
        nodes_supplied(u, args),
    ensures
        supplied(c_while(u, ld, st, cx, args)),
    decreases fuel(u, ld), args, args.len() + 2,
{
    reveal_with_fuel(c_while, 1);
    reveal_with_fuel(c_node, 1);
    reveal_with_fuel(c_seq, 1);
    if args.len() >= 1 {
        lemma_node(u, ld, st, cx, args[0]);
        if let Ok(c) = c_node(u, ld, st, cx, args[0]) {
            lemma_seq(u, ld, c.st, c.cx, args, 1, seq![Instr::Pop], Seq::empty());
        }
    }
}

/// Supplied cases compile without a missing unit.
pub proof fn lemma_cases(
    u: Seq<Unit>,
    ld: Seq<usize>,
    st: State,
    cx: ContextView,
    args: Seq<Node>,
    i: nat,
)
    requires
        units_supplied(u),
        nodes_supplied(u, args),
    ensures
        supplied(c_cases(u, ld, st, cx, args, i)),
    decreases fuel(u, ld), args, args.len() - i,
{
    reveal_with_fuel(c_cases, 1);
    reveal_with_fuel(c_node, 1);
    if i < args.len() {
        if i + 1 == args.len() {
            lemma_node(u, ld, st, cx, args[i as int]);
        } else {
            match args[i as int] {
                Node::Call { name, args: parts } => {
                    if name@ == "case"@ && parts@.len() == 2 {
                        assert(node_supplied(u, args[i as int]));
                        assert(node_supplied(u, parts@[0]));
                        assert(node_supplied(u, parts@[1]));
                        lemma_node(u, ld, st, cx, parts@[0]);
                        if let Ok(v) = c_node(u, ld, st, cx, parts@[0]) {
                            lemma_node(u, ld, v.st, v.cx, parts@[1]);
                            if let Ok(x) = c_node(u, ld, v.st, v.cx, parts@[1]) {
                                lemma_cases(u, ld, x.st, x.cx, args, i + 1);
                            }
                        }
                    }
                },
                _ => {},
            }
        }
    }
}

/// A supplied `new` compiles without a missing unit.
pub proof fn lemma_new(u: Seq<Unit>, ld: Seq<usize>, st: State, cx: ContextView, args: Seq<Node>)
    requires
        units_supplied(u),
        nodes_supplied(u, args),
    ensures
        supplied(c_new(u, ld, st, cx, args)),
    decreases fuel(u, ld), args, args.len() + 2,
{
    reveal_with_fuel(c_new, 1);
    reveal_with_fuel(c_seq, 1);
    if args.len() >= 1 && ident_name(args[0]) is Some {
        if let Ok((s1, i_class)) = intern(
            st,
            ident_name(args[0]).unwrap(),
        ) {
            if let Ok((s2, i_new)) = intern(
                s1,
                plain_selector("new"@, (args.len() - 1) as nat),
            ) {
                lemma_seq(u, ld, s2, cx, args, 1, Seq::empty(), Seq::empty());
            }
        }
    }
}

/// A supplied closure compiles without a missing unit.
pub proof fn lemma_closure(
    u: Seq<Unit>,
    ld: Seq<usize>,
    st: State,
    cx: ContextView,
    params: Seq<Param>,
    body: Seq<Node>,
)
    requires
        units_supplied(u),
        nodes_supplied(u, body),
    ensures
        supplied(c_closure(u, ld, st, cx, params, body)),
    decreases fuel(u, ld), body, body.len() + 1,
{
    reveal_with_fuel(c_closure, 1);
    reveal_with_fuel(c_seq, 1);
    let name = closure_selector(st.closure_id);
    if let Ok((s1, i_closure)) = intern(st, name) {
        let s2 = State { closure_id: s1.closure_id + 1, ..s1 };
        let inner = function_context(
            None,
            None,
            Seq::empty(),
            name,
            param_names(params),
        );
        lemma_seq(u, ld, s2, inner, body, 0, seq![Instr::Pop], Seq::empty());
    }
}

/// A supplied `fiber` compiles without a missing unit.
pub proof fn lemma_fiber(u: Seq<Unit>, ld: Seq<usize>, st: State, cx: ContextView, args: Seq<Node>)
    requires
        units_supplied(u),
        nodes_supplied(u, args),
    ensures
        supplied(c_fiber(u, ld, st, cx, args)),
    decreases fuel(u, ld), args, args.len() + 2,
{
    reveal_with_fuel(c_fiber, 1);
    reveal_with_fuel(c_closure, 1);
    if args.len() == 1 {
        match args[0] {
            Node::Function { name, params, body } => {
                if name@.len() == 0 {
                    assert(node_supplied(u, args[0]));
                    if let Ok((s1, i_fiber)) = intern(st, "Fiber"@) {
                        if let Ok((s2, i_new)) = intern(s1, "new(_)"@) {
                            lemma_closure(u, ld, s2, cx, params@, body@);
                        }
                    }
                }
            },
            _ => {},
        }
    }
}

/// A supplied call compiles without a missing unit.
pub proof fn lemma_dispatch(
    u: Seq<Unit>,
    ld: Seq<usize>,
    st: State,
    cx: ContextView,
    name: Seq<char>,
    args: Seq<Node>,
)
    requires
        units_supplied(u),
        nodes_supplied(u, args),
    ensures
        supplied(c_dispatch(u, ld, st, cx, name, args)),
    decreases fuel(u, ld), args, args.len() + 2,
{
    reveal_with_fuel(c_dispatch, 1);
    reveal_with_fuel(c_seq, 1);
    let sel = call_selector(name, passed(st, name, args));
    let known_function = module_call(st, name, args);
    let first = if known_function {
        intern(st, module_class())
    } else {
        Ok((st, 0u16))
    };
    if let Ok((s1, i_self)) = first {
        if let Ok((s2, i_sel)) = intern(s1, sel) {
            lemma_seq(u, ld, s2, cx, args, 0, Seq::empty(), Seq::empty());
        }
    }
}

/// A supplied `super` compiles without a missing unit.
pub proof fn lemma_super(u: Seq<Unit>, ld: Seq<usize>, st: State, cx: ContextView, args: Seq<Node>)
    requires
        units_supplied(u),
        nodes_supplied(u, args),
    ensures
        supplied(c_super(u, ld, st, cx, args)),
    decreases fuel(u, ld), args, args.len() + 2,
{
    reveal_with_fuel(c_super, 1);
    reveal_with_fuel(c_seq, 1);
    if let Ok((s1, i_sel)) = intern(
        st,
        call_selector(cx.function_name, cx.arity),
    ) {
        lemma_seq(u, ld, s1, cx, args, 0, Seq::empty(), Seq::empty());
    }
}

/// A supplied `load` compiles without a missing unit.
pub proof fn lemma_load(u: Seq<Unit>, ld: Seq<usize>, st: State, cx: ContextView, args: Seq<Node>)
    requires
        units_supplied(u),
        target_supplied(u, "load"@, args),
    ensures
        supplied(c_load(u, ld, st, cx, args)),
    decreases fuel(u, ld), args, args.len() + 2,
{
    reveal_with_fuel(c_load, 1);
    reveal_with_fuel(c_unit, 1);
    if args.len() >= 1 {
        match args[0] {
            Node::String(name) => {
                assert(load_target("load"@, args)[0] == name@);
                assert(known(u, name@));
                lemma_position(unit_names(u), name@);
                let k = position(unit_names(u), name@).unwrap();
                if let Ok((s1, i_module)) = intern(st, name@) {
                    lemma_alias_errors(s1, args, 1);
                    if let Ok((s2, pairs)) = c_aliases(s1, args, 1) {
                        if !(ld.contains(k as usize) || ld.len() >= u.len() || k >= u.len()) {
                            lemma_unit(u, ld.push(k as usize), s2, u[k as int].nodes@, 0);
                        }
                    }
                }
            },
            _ => {},
        }
    }
}

/// A supplied unit compiles without a missing unit.
pub proof fn lemma_unit(u: Seq<Unit>, ld: Seq<usize>, st: State, nodes: Seq<Node>, from: nat)
    requires
        units_supplied(u),
        nodes_supplied(u, nodes),
    ensures
        supplied(c_unit(u, ld, st, nodes, from)),
    decreases fuel(u, ld), nodes, nodes.len() - from,
{
    reveal_with_fuel(c_unit, 1);
    reveal_with_fuel(c_call, 1);
    reveal_with_fuel(c_function, 1);
    if from < nodes.len() {
        assert(node_supplied(u, nodes[from as int]));
        match nodes[from as int] {
            Node::Call { name, args } => {
                lemma_call(u, ld, st, top_level_context(), name@, args@);
                if let Ok(a) = c_call(u, ld, st, top_level_context(), name@, args@) {
                    lemma_unit(u, ld, a.st, nodes, from + 1);
                }
            },
            Node::Function { name, params, body } => {
                lemma_function(u, ld, st, nodes[from as int]);
                if let Ok(a) = c_function(u, ld, st, nodes[from as int]) {
                    lemma_unit(u, ld, a.st, nodes, from + 1);
                }
            },
            _ => {},
        }
    }
}

/// A supplied function definition compiles without a missing unit.
pub proof fn lemma_function(u: Seq<Unit>, ld: Seq<usize>, st: State, node: Node)
    requires
        units_supplied(u),
        node_supplied(u, node),
    ensures
        supplied(c_function(u, ld, st, node)),
    decreases fuel(u, ld), node, 2nat,
{
    reveal_with_fuel(c_function, 1);
    reveal_with_fuel(c_seq, 1);
    reveal_with_fuel(c_overloads, 1);
    match node {
        Node::Function { name, params, body } => {
            if name@.len() != 0 && params@.len() <= ARITY_LIMIT {
                let names = param_names(params@);
                let entry = FunctionView {
                    selector: plain_selector(name@, params@.len()),
                    arity: params@.len() as u8,
                    code: body_bytes(Seq::empty()),
                    params: slot_names(names),
                };
                let at = st.functions.len() as int;
                let s1 = State { functions: st.functions.push(entry), ..st };
                let inner = function_context(None, None, Seq::empty(), name@, names);
                lemma_seq(u, ld, s1, inner, body@, 0, seq![Instr::Pop], Seq::empty());
                if let Ok(b) = c_seq(u, ld, s1, inner, body@, 0, seq![Instr::Pop], Seq::empty()) {
                    if at < b.st.functions.len() {
                        let done = FunctionView { code: body_bytes(b.code), ..entry };
                        let s2 = State { functions: b.st.functions.update(at, done), ..b.st };
                        lemma_overloads(
                            u,
                            ld,
                            s2,
                            name@,
                            params@,
                            first_default(params@),
                        );
                    }
                }
            }
        },
        _ => {},
    }
}

/// Supplied default values compile to forwarding entries without a missing unit.
pub proof fn lemma_overloads(
    u: Seq<Unit>,
    ld: Seq<usize>,
    st: State,
    name: Seq<char>,
    params: Seq<Param>,
    i: nat,
)
    requires
        units_supplied(u),
        params_supplied(u, params),
    ensures
        supplied(c_overloads(u, ld, st, name, params, i)),
    decreases fuel(u, ld), params, params.len() - i + 1,
{
    reveal_with_fuel(c_overloads, 1);
    reveal_with_fuel(c_defaults, 1);
    if i < params.len() {
        let names = param_names(params).take(i as int);
        let inner = function_context(None, None, Seq::empty(), name, names);
        if let Ok((s1, i_self)) = intern(st, module_class()) {
            if let Ok((s2, i_sel)) = intern(
                s1,
                plain_selector(name, params.len()),
            ) {
                lemma_defaults(u, ld, s2, inner, params, i);
                if let Ok(d) = c_defaults(u, ld, s2, inner, params, i) {
                    let code = seq![Instr::LoadModuleVar(i_self)] + local_loads(
                        1,
                        i + 1,
                    ) + d.code + seq![Instr::Call(i_sel, params.len() as u8)];
                    let f = FunctionView {
                        selector: plain_selector(name, i),
                        arity: i as u8,
                        code: body_bytes(code),
                        params: slot_names(names),
                    };
                    lemma_overloads(
                        u,
                        ld,
                        State { functions: d.st.functions.push(f), ..d.st },
                        name,
                        params,
                        i + 1,
                    );
                }
            }
        }
    }
}

/// Supplied default values compile without a missing unit.
pub proof fn lemma_defaults(
    u: Seq<Unit>,
    ld: Seq<usize>,
    st: State,
    cx: ContextView,
    params: Seq<Param>,
    j: nat,
)
    requires
        units_supplied(u),
        params_supplied(u, params),
    ensures
        supplied(c_defaults(u, ld, st, cx, params, j)),
    decreases fuel(u, ld), params, params.len() - j,
{
    reveal_with_fuel(c_defaults, 1);
    reveal_with_fuel(c_node, 1);
    if j < params.len() {
        assert(param_supplied(u, params[j as int]));
        match params[j as int].default_value {
            Some(d) => {
                lemma_node(u, ld, st, cx, d);
                if let Ok(a) = c_node(u, ld, st, cx, d) {
                    lemma_defaults(u, ld, a.st, a.cx, params, j + 1);
                }
            },
            None => {},
        }
    }
}

/// Supplied fields compile without a missing unit.
pub proof fn lemma_fields(u: Seq<Unit>, ld: Seq<usize>, st: State, args: Seq<Node>, from: nat)
    requires
        units_supplied(u),
        nodes_supplied(u, args),
    ensures
        c_fields(u, ld, st, args, from) != Err::<(State, Seq<FieldView>), CompileError>(
            CompileError::MissingModule,
        ),
    decreases fuel(u, ld), args, args.len() - from + 1,
{
    reveal_with_fuel(c_fields, 1);
    reveal_with_fuel(c_node, 1);
    if from < args.len() {
        assert(node_supplied(u, args[from as int]));
        match args[from as int] {
            Node::Function { name, params, body } => {
                lemma_fields(u, ld, st, args, from + 1);
            },
            Node::Call { name, args: parts } => {
                if name@ == "let"@ && parts@.len() == 2 && ident_name(parts@[0])
                    is Some {
                    assert(node_supplied(u, parts@[1]));
                    lemma_node(u, ld, st, field_context(), parts@[1]);
                    if let Ok(d) = c_node(u, ld, st, field_context(), parts@[1]) {
                        lemma_fields(u, ld, d.st, args, from + 1);
                    }
                }
            },
            _ => {},
        }
    }
}

/// Supplied methods compile without a missing unit.
pub proof fn lemma_methods(
    u: Seq<Unit>,
    ld: Seq<usize>,
    st: State,
    class_name: Seq<char>,
    parent_name: Option<Seq<char>>,
    fields: Seq<Seq<char>>,
    args: Seq<Node>,
    from: nat,
)
    requires
        units_supplied(u),
        nodes_supplied(u, args),
    ensures
        c_methods(u, ld, st, class_name, parent_name, fields, args, from) != Err::<
            (State, Seq<FunctionView>),
            CompileError,
        >(CompileError::MissingModule),
    decreases fuel(u, ld), args, args.len() - from + 1,
{
    reveal_with_fuel(c_methods, 1);
    reveal_with_fuel(c_seq, 1);
    if from < args.len() {
        assert(node_supplied(u, args[from as int]));
        match args[from as int] {
            Node::Function { name, params, body } => {
                if name@.len() != 0 && params@.len() <= ARITY_LIMIT {
                    let names = param_names(params@);
                    let inner = function_context(
                        Some(class_name),
                        parent_name,
                        fields,
                        name@,
                        names,
                    );
                    lemma_seq(u, ld, st, inner, body@, 0, seq![Instr::Pop], Seq::empty());
                    if let Ok(b) = c_seq(u, ld, st, inner, body@, 0, seq![Instr::Pop], Seq::empty()) {
                        lemma_methods(
                            u,
                            ld,
                            b.st,
                            class_name,
                            parent_name,
                            fields,
                            args,
                            from + 1,
                        );
                    }
                }
            },
            _ => {
                lemma_methods(u, ld, st, class_name, parent_name, fields, args, from + 1);
            },
        }
    }
}

/// A supplied class declaration compiles without a missing unit.
pub proof fn lemma_class(u: Seq<Unit>, ld: Seq<usize>, st: State, cx: ContextView, args: Seq<Node>)
    requires
        units_supplied(u),
        nodes_supplied(u, args),
    ensures
        supplied(c_class(u, ld, st, cx, args)),
    decreases fuel(u, ld), args, args.len() + 2,
{
    reveal_with_fuel(c_class, 1);
    reveal_with_fuel(c_fields, 1);
    reveal_with_fuel(c_methods, 1);
    if args.len() >= 1 && ident_name(args[0]) is Some {
        let name = ident_name(args[0]).unwrap();
        let declared = if args.len() > 1 {
            ident_name(args[1])
        } else {
            None
        };
        let parent = match declared {
            Some(p) => p,
            None => root_class(),
        };
        let from: nat = if declared is Some {
            2
        } else {
            1
        };
        lemma_fields(u, ld, st, args, from);
        if let Ok((s1, fields)) = c_fields(u, ld, st, args, from) {
            let scope = field_names(fields) + inherited_fields(
                s1.classes,
                parent,
                class_slot(s1.classes, name),
            );
            lemma_methods(u, ld, s1, name, declared, scope, args, from);
        }
    }
}

/// The loader and the compiler agree on what a program needs: where the
/// loader wants no unit, the compilation of the program does not fail for
/// a missing unit.
pub proof fn law_no_missing_module(u: Seq<Unit>, root: nat)
    requires
        wanted(u) is None,
        root < u.len(),
    ensures
        c_program(u, root) != Err::<State, CompileError>(CompileError::MissingModule),
{
    lemma_wanted_none(u);
    lemma_unit(u, seq![root as usize], initial_state(), u[root as int].nodes@, 0);
}

} // verus!
