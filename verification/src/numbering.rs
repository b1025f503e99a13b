//! The numbers of the closures.
//!
//! Each closure is filed among the functions of the module under a name
//! made of the closure number that the state holds when the closure is
//! met. This module proves that the number never falls while a program is
//! compiled, and that no two functions of a program are filed under the
//! name of the same closure.

use vstd::prelude::*;
use crate::loader::Unit;
use crate::loader::unit_names;
use crate::node::Node;
use crate::node::Param;
use crate::opcode::Instr;
use crate::pool::position;
use crate::rules::Compiled;
use crate::rules::State;
use crate::rules::body_bytes;
use crate::rules::c_alias;
use crate::rules::c_aliases;
use crate::rules::c_assign;
use crate::rules::c_call;
use crate::rules::c_cases;
use crate::rules::c_class;
use crate::rules::c_closure;
use crate::rules::c_defaults;
use crate::rules::c_dispatch;
use crate::rules::c_fiber;
use crate::rules::c_fields;
use crate::rules::c_function;
use crate::rules::c_if;
use crate::rules::c_let;
use crate::rules::c_list;
use crate::rules::c_load;
use crate::rules::c_load_variable;
use crate::rules::c_methods;
use crate::rules::c_new;
use crate::rules::c_node;
use crate::rules::c_nth;
use crate::rules::c_operator;
use crate::rules::c_overloads;
use crate::rules::c_print;
use crate::rules::c_program;
use crate::rules::c_seq;
use crate::rules::c_super;
use crate::rules::c_switch;
use crate::rules::c_unit;
use crate::rules::c_while;
use crate::rules::arithmetic_instr;
use crate::rules::comparison_instrs;
use crate::rules::class_slot;
use crate::rules::first_default;
use crate::rules::fuel;
use crate::rules::ident_name;
use crate::rules::initial_state;
use crate::rules::intern;
use crate::rules::local_loads;
use crate::rules::module_call;
use crate::rules::param_names;
use crate::rules::passed;
use crate::rules::slot_names;
use crate::scope::ARITY_LIMIT;
use crate::scope::ContextView;
use crate::scope::field_context;
use crate::scope::function_context;
use crate::scope::top_level_context;
use crate::selector::call_selector;
use crate::selector::closure_selector;
use crate::selector::law_closure_name_is_no_selector;
use crate::selector::law_closure_names_differ;
use crate::selector::plain_selector;
use crate::table::FunctionView;
use crate::table::field_names;
use crate::table::inherited_fields;
use crate::table::module_class;
use crate::table::root_class;
use crate::table::selectors;

verus! {

/// Whether the closures among the functions of a state are numbered in
/// order: each is filed under a number below the closure number of the
/// state, and no other function is filed under its name.
pub open spec fn numbered(st: State) -> bool {
    let names = selectors(st.functions);
    &&& forall|i: int, k: nat|
        #![trigger names[i], closure_selector(k)]
        0 <= i < names.len() && names[i] == closure_selector(k) ==> k < st.closure_id
    &&& forall|i: int, j: int, k: nat|
        #![trigger names[i], names[j], closure_selector(k)]
        0 <= i < names.len() && 0 <= j < names.len() && i != j && names[i] == closure_selector(k)
            ==> names[j] != closure_selector(k)
}

/// Whether the state `b` has grown out of the state `a`: the closure
/// number has not fallen, the functions of `a` are still filed where they
/// were, the closures filed since have numbers from that of `a` on, and `b`
/// is numbered.
pub open spec fn grown(a: State, b: State) -> bool {
    let x = selectors(a.functions);
    let y = selectors(b.functions);
    &&& a.closure_id <= b.closure_id
    &&& x.len() <= y.len()
    &&& forall|i: int| 0 <= i < x.len() ==> #[trigger] y[i] == x[i]
    &&& forall|i: int, k: nat|
        #![trigger y[i], closure_selector(k)]
        x.len() <= i < y.len() && y[i] == closure_selector(k) ==> a.closure_id <= k
    &&& numbered(b)
}

/// Whether the state that a form leaves has grown out of the state `st`.
pub open spec fn kept(st: State, r: Compiled) -> bool {
    match r {
        Ok(out) => grown(st, out.st),
        Err(_) => true,
    }
}

/// A state with the same functions and the same closure number has grown.
pub proof fn lemma_same(a: State, b: State)
    requires
        numbered(a),
        selectors(b.functions) == selectors(a.functions),
        b.closure_id == a.closure_id,
    ensures
        grown(a, b),
{
}

/// What has grown out of what has grown has grown.
pub proof fn lemma_trans(a: State, b: State, c: State)
    requires
        grown(a, b),
        grown(b, c),
    ensures
        grown(a, c),
{
    let x = selectors(a.functions);
    let y = selectors(b.functions);
    let z = selectors(c.functions);
    assert forall|i: int| 0 <= i < x.len() implies #[trigger] z[i] == x[i] by {
        assert(z[i] == y[i]);
    }
    assert forall|i: int, k: nat|
        #![trigger z[i], closure_selector(k)]
        x.len() <= i < z.len() && z[i] == closure_selector(k) implies a.closure_id <= k by {
        if i < y.len() {
            assert(z[i] == y[i]);
            assert(y[i] == closure_selector(k));
        }
    }
}

/// A declared function joins the functions without touching the closures.
pub proof fn lemma_push_declared(a: State, b: State, name: Seq<char>, n: nat)
    requires
        numbered(a),
        selectors(b.functions) == selectors(a.functions).push(plain_selector(name, n)),
        b.closure_id == a.closure_id,
    ensures
        grown(a, b),
{
    let x = selectors(a.functions);
    let y = selectors(b.functions);
    assert forall|k: nat| closure_selector(k) != plain_selector(name, n) by {
        law_closure_name_is_no_selector(k, name, n);
    }
    assert forall|i: int, k: nat|
        #![trigger y[i], closure_selector(k)]
        0 <= i < y.len() && y[i] == closure_selector(k) implies k < b.closure_id by {
        if i < x.len() {
            assert(x[i] == closure_selector(k));
        }
    }
    assert forall|i: int, j: int, k: nat|
        #![trigger y[i], y[j], closure_selector(k)]
        0 <= i < y.len() && 0 <= j < y.len() && i != j && y[i] == closure_selector(k) implies y[j]
            != closure_selector(k) by {
        if i < x.len() && j < x.len() {
            assert(x[i] == closure_selector(k));
            assert(x[j] != closure_selector(k));
        }
    }
}

/// A closure joins the functions under the number that the state had when
/// the closure was met: no function that was there, and none that its body
/// has filed, has that number.
pub proof fn lemma_push_closure(st: State, s2: State, b: State, out: State)
    requires
        numbered(st),
        selectors(s2.functions) == selectors(st.functions),
        s2.closure_id == st.closure_id + 1,
        grown(s2, b),
        selectors(out.functions) == selectors(b.functions).push(closure_selector(st.closure_id)),
        out.closure_id == b.closure_id,
    ensures
        grown(st, out),
{
    let w = selectors(st.functions);
    let x = selectors(b.functions);
    let y = selectors(out.functions);
    let id = st.closure_id;
    assert forall|k: nat| k != id implies closure_selector(k) != closure_selector(id) by {
        law_closure_names_differ(k, id);
    }
    assert forall|i: int, k: nat|
        #![trigger x[i], closure_selector(k)]
        0 <= i < x.len() && x[i] == closure_selector(k) implies k != id by {
        if i < w.len() {
            assert(x[i] == w[i]);
            assert(w[i] == closure_selector(k));
        }
    }
    assert forall|i: int, k: nat|
        #![trigger y[i], closure_selector(k)]
        0 <= i < y.len() && y[i] == closure_selector(k) implies k < out.closure_id by {
        if i < x.len() {
            assert(x[i] == closure_selector(k));
        } else {
            if k != id {
                law_closure_names_differ(k, id);
            }
        }
    }
    assert forall|i: int, j: int, k: nat|
        #![trigger y[i], y[j], closure_selector(k)]
        0 <= i < y.len() && 0 <= j < y.len() && i != j && y[i] == closure_selector(k) implies y[j]
            != closure_selector(k) by {
        if i < x.len() && j < x.len() {
            assert(x[i] == closure_selector(k));
            assert(x[j] != closure_selector(k));
        } else if i < x.len() {
            assert(x[i] == closure_selector(k));
        } else {
            if k != id {
                law_closure_names_differ(k, id);
            }
            if y[j] == closure_selector(k) {
                assert(x[j] == closure_selector(id));
            }
        }
    }
    assert forall|i: int| 0 <= i < w.len() implies #[trigger] y[i] == w[i] by {
        assert(x[i] == w[i]);
    }
    assert forall|i: int, k: nat|
        #![trigger y[i], closure_selector(k)]
        w.len() <= i < y.len() && y[i] == closure_selector(k) implies id <= k by {
        if i < x.len() {
            assert(x[i] == closure_selector(k));
        } else {
            if k != id {
                law_closure_names_differ(k, id);
            }
        }
    }
}

/// The imports of a `load` change neither the functions nor the closure
/// number.
pub proof fn lemma_aliases(st: State, args: Seq<Node>, from: nat)
    ensures
        match c_aliases(st, args, from) {
            Ok((s, _)) => s.functions == st.functions && s.closure_id == st.closure_id,
            Err(_) => true,
        },
    decreases args.len() - from,
{
    if from < args.len() {
        if let Ok((s1, pair)) = c_alias(st, args[from as int]) {
            lemma_aliases(s1, args, from + 1);
        }
    }
}

/// A node keeps the closures numbered.
pub proof fn lemma_node(u: Seq<Unit>, ld: Seq<usize>, st: State, cx: ContextView, node: Node)
    requires
        numbered(st),
    ensures
        kept(st, c_node(u, ld, st, cx, node)),
    decreases fuel(u, ld), node, 0nat,
{
    reveal_with_fuel(c_node, 1);
    reveal_with_fuel(c_call, 1);
    reveal_with_fuel(c_closure, 1);
    match node {
        Node::Call { name, args } => {
            lemma_call(u, ld, st, cx, name@, args@);
        },
        Node::Function { name, params, body } => {
            if name@.len() == 0 {
                lemma_closure(u, ld, st, cx, params@, body@);
            }
        },
        _ => {},
    }
}

/// Nodes keep the closures numbered.
pub proof fn lemma_seq(
    u: Seq<Unit>,
    ld: Seq<usize>,
    st: State,
    cx: ContextView,
    nodes: Seq<Node>,
    from: nat,
    each: Seq<Instr>,
    last: Seq<Instr>,
)
    requires
        numbered(st),
    ensures
        kept(st, c_seq(u, ld, st, cx, nodes, from, each, last)),
    decreases fuel(u, ld), nodes, nodes.len() - from,
{
    reveal_with_fuel(c_seq, 1);
    reveal_with_fuel(c_node, 1);
    if from < nodes.len() {
        lemma_node(u, ld, st, cx, nodes[from as int]);
        if let Ok(a) = c_node(u, ld, st, cx, nodes[from as int]) {
            lemma_seq(u, ld, a.st, a.cx, nodes, from + 1, each, last);
        }
    }
}

/// A call form keeps the closures numbered.
pub proof fn lemma_call(
    u: Seq<Unit>,
    ld: Seq<usize>,
    st: State,
    cx: ContextView,
    name: Seq<char>,
    args: Seq<Node>,
)
    requires
        numbered(st),
    ensures
        kept(st, c_call(u, ld, st, cx, name, args)),
    decreases fuel(u, ld), args, args.len() + 3,
{
    reveal_with_fuel(c_call, 1);
    reveal_with_fuel(c_operator, 1);
    reveal_with_fuel(c_list, 1);
    reveal_with_fuel(c_nth, 1);
    reveal_with_fuel(c_if, 1);
    reveal_with_fuel(c_while, 1);
    reveal_with_fuel(c_switch, 1);
    reveal_with_fuel(c_class, 1);
    reveal_with_fuel(c_super, 1);
    reveal_with_fuel(c_let, 1);
    reveal_with_fuel(c_assign, 1);
    reveal_with_fuel(c_new, 1);
    reveal_with_fuel(c_fiber, 1);
    reveal_with_fuel(c_load, 1);
    reveal_with_fuel(c_dispatch, 1);
    reveal_with_fuel(c_print, 1);
    reveal_with_fuel(c_seq, 1);
    reveal_with_fuel(c_node, 1);
    reveal_with_fuel(c_cases, 1);
    reveal_with_fuel(c_closure, 1);
    reveal_with_fuel(c_unit, 1);
    reveal_with_fuel(c_fields, 1);
    reveal_with_fuel(c_methods, 1);
    if arithmetic_instr(name) is Some || comparison_instrs(name)
        is Some {
        lemma_seq(u, ld, st, cx, args, 0, Seq::empty(), Seq::empty());
    } else if name == "inc"@ {
    } else if name == "list"@ {
        lemma_list(u, ld, st, cx, args);
    } else if name == "nth"@ {
        lemma_nth(u, ld, st, cx, args);
    } else if name == "if"@ {
        lemma_if(u, ld, st, cx, args);
    } else if name == "while"@ {
        lemma_while(u, ld, st, cx, args);
    } else if name == "switch"@ {
        if args.len() >= 2 {
            lemma_node(u, ld, st, cx, args[0]);
            if let Ok(s) = c_node(u, ld, st, cx, args[0]) {
                lemma_cases(u, ld, s.st, s.cx, args, 1);
            }
        }
    } else if name == "class"@ {
        lemma_class(u, ld, st, cx, args);
    } else if name == "super"@ {
        lemma_super(u, ld, st, cx, args);
    } else if name == "let"@ {
        if args.len() == 2 {
            lemma_node(u, ld, st, cx, args[1]);
        }
    } else if name == "set"@ {
        if args.len() == 2 {
            lemma_node(u, ld, st, cx, args[1]);
        }
    } else if name == "new"@ {
        lemma_new(u, ld, st, cx, args);
    } else if name == "abort"@ {
    } else if name == "fiber"@ {
        lemma_fiber(u, ld, st, cx, args);
    } else if name == "yield"@ {
    } else if name == "return"@ {
    } else if name == "load"@ {
        lemma_load(u, ld, st, cx, args);
    } else if name == "print"@ || name == "write"@ {
        if let Ok((s1, i_sel)) = intern(st, plain_selector(name, args.len())) {
            lemma_seq(u, ld, s1, cx, args, 0, Seq::empty(), Seq::empty());
        }
    } else {
        lemma_dispatch(u, ld, st, cx, name, args);
    }
}

/// A `list` keeps the closures numbered.
pub proof fn lemma_list(u: Seq<Unit>, ld: Seq<usize>, st: State, cx: ContextView, args: Seq<Node>)
    requires
        numbered(st),
    ensures
        kept(st, c_list(u, ld, st, cx, args)),
    decreases fuel(u, ld), args, args.len() + 2,
{
    reveal_with_fuel(c_list, 1);
    reveal_with_fuel(c_seq, 1);
    if let Ok((s1, i_list)) = intern(st, "List"@) {
        if let Ok((s2, i_new)) = intern(s1, "new()"@) {
            if let Ok((s3, i_add)) = intern(s2, "add(_)"@) {
                lemma_seq(
                    u,
                    ld,
                    s3,
                    cx,
                    args,
                    0,
                    seq![Instr::Call(i_add, 1)],
                    seq![Instr::Call(i_add, 1)],
                );
            }
        }
    }
}

/// A `nth` keeps the closures numbered.
pub proof fn lemma_nth(u: Seq<Unit>, ld: Seq<usize>, st: State, cx: ContextView, args: Seq<Node>)
    requires
        numbered(st),
    ensures
        kept(st, c_nth(u, ld, st, cx, args)),
    decreases fuel(u, ld), args, args.len() + 2,
{
    reveal_with_fuel(c_nth, 1);
    reveal_with_fuel(c_seq, 1);
    if args.len() == 2 || args.len() == 3 {
        if let Ok((s1, i_get)) = intern(st, "[_]"@) {
            if let Ok((s2, i_set)) = intern(s1, "[_]=(_)"@) {
                if let Ok((s3, container)) = c_load_variable(s2, cx, args[0]) {
                    lemma_seq(u, ld, s3, cx, args, 1, Seq::empty(), Seq::empty());
                }
            }
        }
    }
}

/// An `if` keeps the closures numbered.
pub proof fn lemma_if(u: Seq<Unit>, ld: Seq<usize>, st: State, cx: ContextView, args: Seq<Node>)
    requires
        numbered(st),
    ensures
        kept(st, c_if(u, ld, st, cx, args)),
    decreases fuel(u, ld), args, args.len() + 2,
{
    reveal_with_fuel(c_if, 1);
    reveal_with_fuel(c_node, 1);
    if args.len() == 3 {
        lemma_node(u, ld, st, cx, args[0]);
        if let Ok(c) = c_node(u, ld, st, cx, args[0]) {
            lemma_node(u, ld, c.st, c.cx, args[1]);
            if let Ok(t) = c_node(u, ld, c.st, c.cx, args[1]) {
                lemma_node(u, ld, t.st, t.cx, args[2]);
            }
        }
    }
}

/// A `while` keeps the closures numbered.
pub proof fn lemma_while(u: Seq<Unit>, ld: Seq<usize>, st: State, cx: ContextView, args: Seq<Node>)
    requires
        numbered(st),
    ensures
        kept(st, c_while(u, ld, st, cx, args)),
    decreases fuel(u, ld), args, args.len() + 2,
{
    reveal_with_fuel(c_while, 1);
    reveal_with_fuel(c_node, 1);
    reveal_with_fuel(c_seq, 1);
    if args.len() >= 1 {
        lemma_node(u, ld, st, cx, args[0]);
        if let Ok(c) = c_node(u, ld, st, cx, args[0]) {
            lemma_seq(u, ld, c.st, c.cx, args, 1, seq![Instr::Pop], Seq::empty());
        }
    }
}

/// The cases of a `switch` keep the closures numbered.
pub proof fn lemma_cases(
    u: Seq<Unit>,
    ld: Seq<usize>,
    st: State,
    cx: ContextView,
    args: Seq<Node>,
    i: nat,
)
    requires
        numbered(st),
    ensures
        kept(st, c_cases(u, ld, st, cx, args, i)),
    decreases fuel(u, ld), args, args.len() - i,
{
    reveal_with_fuel(c_cases, 1);
    reveal_with_fuel(c_node, 1);
    if i < args.len() {
        if i + 1 == args.len() {
            lemma_node(u, ld, st, cx, args[i as int]);
        } else {
            match args[i as int] {
                Node::Call { name, args: parts } => {
                    if name@ == "case"@ && parts@.len() == 2 {
                        lemma_node(u, ld, st, cx, parts@[0]);
                        if let Ok(v) = c_node(u, ld, st, cx, parts@[0]) {
                            lemma_node(u, ld, v.st, v.cx, parts@[1]);
                            if let Ok(x) = c_node(u, ld, v.st, v.cx, parts@[1]) {
                                lemma_cases(u, ld, x.st, x.cx, args, i + 1);
                            }
                        }
                    }
                },
                _ => {},
            }
        }
    }
}

/// A `new` keeps the closures numbered.
pub proof fn lemma_new(u: Seq<Unit>, ld: Seq<usize>, st: State, cx: ContextView, args: Seq<Node>)
    requires
        numbered(st),
    ensures
        kept(st, c_new(u, ld, st, cx, args)),
    decreases fuel(u, ld), args, args.len() + 2,
{
    reveal_with_fuel(c_new, 1);
    reveal_with_fuel(c_seq, 1);
    if args.len() >= 1 && ident_name(args[0]) is Some {
        if let Ok((s1, i_class)) = intern(
            st,
            ident_name(args[0]).unwrap(),
        ) {
            if let Ok((s2, i_new)) = intern(
                s1,
                plain_selector("new"@, (args.len() - 1) as nat),
            ) {
                lemma_seq(u, ld, s2, cx, args, 1, Seq::empty(), Seq::empty());
            }
        }
    }
}

/// A closure keeps the closures numbered.
pub proof fn lemma_closure(
    u: Seq<Unit>,
    ld: Seq<usize>,
    st: State,
    cx: ContextView,
    params: Seq<Param>,
    body: Seq<Node>,
)
    requires
        numbered(st),
    ensures
        kept(st, c_closure(u, ld, st, cx, params, body)),
    decreases fuel(u, ld), body, body.len() + 1,
{
    reveal_with_fuel(c_closure, 1);
    reveal_with_fuel(c_seq, 1);
    let name = closure_selector(st.closure_id);
    if let Ok((s1, i_closure)) = intern(st, name) {
        let s2 = State { closure_id: s1.closure_id + 1, ..s1 };
        let inner = function_context(
            None,
            None,
            Seq::empty(),
            name,
            param_names(params),
        );
        lemma_seq(u, ld, s2, inner, body, 0, seq![Instr::Pop], Seq::empty());
        if let Ok(b) = c_seq(u, ld, s2, inner, body, 0, seq![Instr::Pop], Seq::empty()) {
            if let Ok((s3, i_self)) = intern(b.st, module_class()) {
                let f = FunctionView {
                    selector: name,
                    arity: params.len() as u8,
                    code: body_bytes(b.code),
                    params: slot_names(param_names(params)),
                };
                let out = State { functions: s3.functions.push(f), ..s3 };
                assert(selectors(out.functions) =~= selectors(b.st.functions).push(name));
                lemma_push_closure(st, s2, b.st, out);
            }
        }
    }
}

/// A `fiber` keeps the closures numbered.
pub proof fn lemma_fiber(u: Seq<Unit>, ld: Seq<usize>, st: State, cx: ContextView, args: Seq<Node>)
    requires
        numbered(st),
    ensures
        kept(st, c_fiber(u, ld, st, cx, args)),
    decreases fuel(u, ld), args, args.len() + 2,
{
    reveal_with_fuel(c_fiber, 1);
    reveal_with_fuel(c_closure, 1);
    if args.len() == 1 {
        match args[0] {
            Node::Function { name, params, body } => {
                if name@.len() == 0 {
                    if let Ok((s1, i_fiber)) = intern(st, "Fiber"@) {
                        if let Ok((s2, i_new)) = intern(s1, "new(_)"@) {
                            lemma_closure(u, ld, s2, cx, params@, body@);
                        }
                    }
                }
            },
            _ => {},
        }
    }
}

/// A call keeps the closures numbered.
pub proof fn lemma_dispatch(
    u: Seq<Unit>,
    ld: Seq<usize>,
    st: State,
    cx: ContextView,
    name: Seq<char>,
    args: Seq<Node>,
)
    requires
        numbered(st),
    ensures
        kept(st, c_dispatch(u, ld, st, cx, name, args)),
    decreases fuel(u, ld), args, args.len() + 2,
{
    reveal_with_fuel(c_dispatch, 1);
    reveal_with_fuel(c_seq, 1);
    let sel = call_selector(name, passed(st, name, args));
    let known_function = module_call(st, name, args);
    let first = if known_function {
        intern(st, module_class())
    } else {
        Ok((st, 0u16))
    };
    if let Ok((s1, i_self)) = first {
        if let Ok((s2, i_sel)) = intern(s1, sel) {
            lemma_seq(u, ld, s2, cx, args, 0, Seq::empty(), Seq::empty());
        }
    }
}

/// A `super` keeps the closures numbered.
pub proof fn lemma_super(u: Seq<Unit>, ld: Seq<usize>, st: State, cx: ContextView, args: Seq<Node>)
    requires
        numbered(st),
    ensures
        kept(st, c_super(u, ld, st, cx, args)),
    decreases fuel(u, ld), args, args.len() + 2,
{
    reveal_with_fuel(c_super, 1);
    reveal_with_fuel(c_seq, 1);
    if let Ok((s1, i_sel)) = intern(
        st,
        call_selector(cx.function_name, cx.arity),
    ) {
        lemma_seq(u, ld, s1, cx, args, 0, Seq::empty(), Seq::empty());
    }
}

/// A `load` keeps the closures numbered.
pub proof fn lemma_load(u: Seq<Unit>, ld: Seq<usize>, st: State, cx: ContextView, args: Seq<Node>)
    requires
        numbered(st),
    ensures
        kept(st, c_load(u, ld, st, cx, args)),
    decreases fuel(u, ld), args, args.len() + 2,
{
    reveal_with_fuel(c_load, 1);
    reveal_with_fuel(c_unit, 1);
    if args.len() >= 1 {
        match args[0] {
            Node::String(name) => {
                if let Ok((s1, i_module)) = intern(st, name@) {
                    let k = match position(unit_names(u), name@) {
                        Some(k) => k,
                        None => 0,
                    };
                    lemma_aliases(s1, args, 1);
                    if let Ok((s2, pairs)) = c_aliases(s1, args, 1) {
                        if !(ld.contains(k as usize) || ld.len() >= u.len() || k >= u.len()) {
                            lemma_unit(u, ld.push(k as usize), s2, u[k as int].nodes@, 0);
                        }
                    }
                }
            },
            _ => {},
        }
    }
}

/// A unit keeps the closures numbered.
pub proof fn lemma_unit(u: Seq<Unit>, ld: Seq<usize>, st: State, nodes: Seq<Node>, from: nat)
    requires
        numbered(st),
    ensures
        kept(st, c_unit(u, ld, st, nodes, from)),
    decreases fuel(u, ld), nodes, nodes.len() - from,
{
    reveal_with_fuel(c_unit, 1);
    reveal_with_fuel(c_call, 1);
    reveal_with_fuel(c_function, 1);
    if from < nodes.len() {
        match nodes[from as int] {
            Node::Call { name, args } => {
                lemma_call(u, ld, st, top_level_context(), name@, args@);
                if let Ok(a) = c_call(u, ld, st, top_level_context(), name@, args@) {
                    lemma_unit(u, ld, a.st, nodes, from + 1);
                }
            },
            Node::Function { name, params, body } => {
                lemma_function(u, ld, st, nodes[from as int]);
                if let Ok(a) = c_function(u, ld, st, nodes[from as int]) {
                    lemma_unit(u, ld, a.st, nodes, from + 1);
                }
            },
            _ => {},
        }
    }
}

/// A function definition keeps the closures numbered.
pub proof fn lemma_function(u: Seq<Unit>, ld: Seq<usize>, st: State, node: Node)
    requires
        numbered(st),
    ensures
        kept(st, c_function(u, ld, st, node)),
    decreases fuel(u, ld), node, 2nat,
{
    reveal_with_fuel(c_function, 1);
    reveal_with_fuel(c_seq, 1);
    reveal_with_fuel(c_overloads, 1);
    match node {
        Node::Function { name, params, body } => {
            if name@.len() != 0 && params@.len() <= ARITY_LIMIT {
                let names = param_names(params@);
                let entry = FunctionView {
                    selector: plain_selector(name@, params@.len()),
                    arity: params@.len() as u8,
                    code: body_bytes(Seq::empty()),
                    params: slot_names(names),
                };
                let at = st.functions.len() as int;
                let s1 = State { functions: st.functions.push(entry), ..st };
                let inner = function_context(None, None, Seq::empty(), name@, names);
                assert(selectors(s1.functions) =~= selectors(st.functions).push(entry.selector));
                lemma_push_declared(st, s1, name@, params@.len());
                lemma_seq(u, ld, s1, inner, body@, 0, seq![Instr::Pop], Seq::empty());
                if let Ok(b) = c_seq(u, ld, s1, inner, body@, 0, seq![Instr::Pop], Seq::empty()) {
                    if at < b.st.functions.len() {
                        let done = FunctionView { code: body_bytes(b.code), ..entry };
                        let s2 = State { functions: b.st.functions.update(at, done), ..b.st };
                        assert(selectors(b.st.functions)[at] == selectors(s1.functions)[at]);
                        assert(selectors(s2.functions) =~= selectors(b.st.functions));
                        lemma_same(b.st, s2);
                        lemma_trans(st, s1, b.st);
                        lemma_trans(st, b.st, s2);
                        lemma_overloads(
                            u,
                            ld,
                            s2,
                            name@,
                            params@,
                            first_default(params@),
                        );
                        if let Ok(o) = c_overloads(u, ld, s2, name@, params@, first_default(params@)) {
                            lemma_trans(st, s2, o.st);
                        }
                    }
                }
            }
        },
        _ => {},
    }
}

/// Default values keep the closures numbered.
pub proof fn lemma_overloads(
    u: Seq<Unit>,
    ld: Seq<usize>,
    st: State,
    name: Seq<char>,
    params: Seq<Param>,
    i: nat,
)
    requires
        numbered(st),
    ensures
        kept(st, c_overloads(u, ld, st, name, params, i)),
    decreases fuel(u, ld), params, params.len() - i + 1,
{
    reveal_with_fuel(c_overloads, 1);
    reveal_with_fuel(c_defaults, 1);
    if i < params.len() {
        let names = param_names(params).take(i as int);
        let inner = function_context(None, None, Seq::empty(), name, names);
        if let Ok((s1, i_self)) = intern(st, module_class()) {
            if let Ok((s2, i_sel)) = intern(
                s1,
                plain_selector(name, params.len()),
            ) {
                lemma_defaults(u, ld, s2, inner, params, i);
                if let Ok(d) = c_defaults(u, ld, s2, inner, params, i) {
                    let code = seq![Instr::LoadModuleVar(i_self)] + local_loads(
                        1,
                        i + 1,
                    ) + d.code + seq![Instr::Call(i_sel, params.len() as u8)];
                    let f = FunctionView {
                        selector: plain_selector(name, i),
                        arity: i as u8,
                        code: body_bytes(code),
                        params: slot_names(names),
                    };
                    let s3 = State { functions: d.st.functions.push(f), ..d.st };
                    assert(selectors(s3.functions) =~= selectors(d.st.functions).push(f.selector));
                    lemma_push_declared(d.st, s3, name, i);
                    lemma_same(st, s2);
                    lemma_trans(st, s2, d.st);
                    lemma_trans(st, d.st, s3);
                    lemma_overloads(u, ld, s3, name, params, i + 1);
                    if let Ok(o) = c_overloads(u, ld, s3, name, params, i + 1) {
                        lemma_trans(st, s3, o.st);
                    }
                }
            }
        }
    }
}

/// Default values keep the closures numbered.
pub proof fn lemma_defaults(
    u: Seq<Unit>,
    ld: Seq<usize>,
    st: State,
    cx: ContextView,
    params: Seq<Param>,
    j: nat,
)
    requires
        numbered(st),
    ensures
        kept(st, c_defaults(u, ld, st, cx, params, j)),
    decreases fuel(u, ld), params, params.len() - j,
{
    reveal_with_fuel(c_defaults, 1);
    reveal_with_fuel(c_node, 1);
    if j < params.len() {
        match params[j as int].default_value {
            Some(d) => {
                lemma_node(u, ld, st, cx, d);
                if let Ok(a) = c_node(u, ld, st, cx, d) {
                    lemma_defaults(u, ld, a.st, a.cx, params, j + 1);
                }
            },
            None => {},
        }
    }
}

/// Fields keep the closures numbered.
pub proof fn lemma_fields(u: Seq<Unit>, ld: Seq<usize>, st: State, args: Seq<Node>, from: nat)
    requires
        numbered(st),
    ensures
        match c_fields(u, ld, st, args, from) {
            Ok((s, _)) => grown(st, s),
            Err(_) => true,
        },
    decreases fuel(u, ld), args, args.len() - from + 1,
{
    reveal_with_fuel(c_fields, 1);
    reveal_with_fuel(c_node, 1);
    if from < args.len() {
        match args[from as int] {
            Node::Function { name, params, body } => {
                lemma_fields(u, ld, st, args, from + 1);
            },
            Node::Call { name, args: parts } => {
                if name@ == "let"@ && parts@.len() == 2 && ident_name(parts@[0])
                    is Some {
                    lemma_node(u, ld, st, field_context(), parts@[1]);
                    if let Ok(d) = c_node(u, ld, st, field_context(), parts@[1]) {
                        lemma_fields(u, ld, d.st, args, from + 1);
                    }
                }
            },
            _ => {},
        }
    }
}

/// Methods keep the closures numbered.
pub proof fn lemma_methods(
    u: Seq<Unit>,
    ld: Seq<usize>,
    st: State,
    class_name: Seq<char>,
    parent_name: Option<Seq<char>>,
    fields: Seq<Seq<char>>,
    args: Seq<Node>,
    from: nat,
)
    requires
        numbered(st),
    ensures
        match c_methods(u, ld, st, class_name, parent_name, fields, args, from) {
            Ok((s, _)) => grown(st, s),
            Err(_) => true,
        },
    decreases fuel(u, ld), args, args.len() - from + 1,
{
    reveal_with_fuel(c_methods, 1);
    reveal_with_fuel(c_seq, 1);
    if from < args.len() {
        match args[from as int] {
            Node::Function { name, params, body } => {
                if name@.len() != 0 && params@.len() <= ARITY_LIMIT {
                    let names = param_names(params@);
                    let inner = function_context(
                        Some(class_name),
                        parent_name,
                        fields,
                        name@,
                        names,
                    );
                    lemma_seq(u, ld, st, inner, body@, 0, seq![Instr::Pop], Seq::empty());
                    if let Ok(b) = c_seq(u, ld, st, inner, body@, 0, seq![Instr::Pop], Seq::empty()) {
                        lemma_methods(
                            u,
                            ld,
                            b.st,
                            class_name,
                            parent_name,
                            fields,
                            args,
                            from + 1,
                        );
                    }
                }
            },
            _ => {
                lemma_methods(u, ld, st, class_name, parent_name, fields, args, from + 1);
            },
        }
    }
}

/// A class declaration keeps the closures numbered.
pub proof fn lemma_class(u: Seq<Unit>, ld: Seq<usize>, st: State, cx: ContextView, args: Seq<Node>)
    requires
        numbered(st),
    ensures
        kept(st, c_class(u, ld, st, cx, args)),
    decreases fuel(u, ld), args, args.len() + 2,
{
    reveal_with_fuel(c_class, 1);
    reveal_with_fuel(c_fields, 1);
    reveal_with_fuel(c_methods, 1);
    if args.len() >= 1 && ident_name(args[0]) is Some {
        let name = ident_name(args[0]).unwrap();
        let declared = if args.len() > 1 {
            ident_name(args[1])
        } else {
            None
        };
        let parent = match declared {
            Some(p) => p,
            None => root_class(),
        };
        let from: nat = if declared is Some {
            2
        } else {
            1
        };
        lemma_fields(u, ld, st, args, from);
        if let Ok((s1, fields)) = c_fields(u, ld, st, args, from) {
            let scope = field_names(fields) + inherited_fields(
                s1.classes,
                parent,
                class_slot(s1.classes, name),
            );
            lemma_methods(u, ld, s1, name, declared, scope, args, from);
        }
    }
}

/// The entry function is filed under the name of no closure.
pub proof fn lemma_main_is_no_closure(k: nat)
    ensures
        closure_selector(k) != "main"@,
{
    reveal_strlit("closure#");
    reveal_strlit("main");
    assert(closure_selector(k)[0] == 'c');
}

/// The closure number never falls while a program is compiled, and the
/// closures of a program are numbered: each function that is filed under
/// the name of a closure has a number of its own, below the closure number
/// at the end.
pub proof fn law_closures_are_numbered(u: Seq<Unit>, root: nat)
    ensures
        match c_program(u, root) {
            Ok(st) => grown(initial_state(), st),
            Err(_) => true,
        },
{
    if root < u.len() {
        assert(selectors(initial_state().functions) =~= Seq::<Seq<char>>::empty());
        lemma_unit(u, seq![root as usize], initial_state(), u[root as int].nodes@, 0);
        if let Ok(m) = c_unit(u, seq![root as usize], initial_state(), u[root as int].nodes@, 0) {
            let st = c_program(u, root).unwrap();
            let x = selectors(m.st.functions);
            let y = selectors(st.functions);
            assert(y =~= x.push("main"@));
            assert forall|k: nat| closure_selector(k) != "main"@ by {
                lemma_main_is_no_closure(k);
            }
            assert forall|i: int, k: nat|
                #![trigger y[i], closure_selector(k)]
                0 <= i < y.len() && y[i] == closure_selector(k) implies k < st.closure_id by {
                if i < x.len() {
                    assert(x[i] == closure_selector(k));
                }
            }
            assert forall|i: int, j: int, k: nat|
                #![trigger y[i], y[j], closure_selector(k)]
                0 <= i < y.len() && 0 <= j < y.len() && i != j && y[i] == closure_selector(k)
                    implies y[j] != closure_selector(k) by {
                if i < x.len() && j < x.len() {
                    assert(x[i] == closure_selector(k));
                    assert(x[j] != closure_selector(k));
                }
            }
            assert(numbered(st));
            assert forall|i: int| 0 <= i < x.len() implies #[trigger] y[i] == x[i] by {}
            lemma_same(m.st, m.st);
        }
    }
}

/// Two closures never share a name: in a numbered state, a function that
/// is filed under the name of a closure is the only one of that name.
pub proof fn law_closures_are_named_once(st: State, i: int, j: int, k: nat)
    requires
        numbered(st),
        0 <= i < st.functions.len(),
        0 <= j < st.functions.len(),
        i != j,
        st.functions[i].selector == closure_selector(k),
    ensures
        st.functions[j].selector != st.functions[i].selector,
        k < st.closure_id,
{
    let names = selectors(st.functions);
    assert(names[i] == closure_selector(k));
    assert(names[j] == st.functions[j].selector);
}

} // verus!
