//! Which units a program still needs.
//!
//! A program names the units that it loads. Reading them is not the
//! library's work: the library says which unit is wanted next, the caller
//! reads it and adds it to the units, until none is wanted.

use vstd::prelude::*;
use vstd::string::*;
use crate::node::Node;
use crate::node::Param;
use crate::pool::find_str;
use crate::pool::position;
use crate::pool::texts;
use crate::scope::opt_text;
use crate::text::str_eq;

verus! {

/// A source file that can be loaded: its name and its top-level nodes.
pub struct Unit {
    pub name: String,
    pub nodes: Vec<Node>,
}

/// The names of the units, in order.
pub open spec fn unit_names(u: Seq<Unit>) -> Seq<Seq<char>> {
    u.map_values(|x: Unit| x.name@)
}

/// The name that a call form loads, if it is a `load` of a named unit.
pub open spec fn load_target(name: Seq<char>, args: Seq<Node>) -> Seq<Seq<char>> {
    if name == "load"@ && args.len() >= 1 {
        match args[0] {
            Node::String(unit) => seq![unit@],
            _ => Seq::empty(),
        }
    } else {
        Seq::empty()
    }
}

/// The names of the units that the `load` forms in `node` name, in the
/// order of the text.
pub open spec fn loads_in(node: Node) -> Seq<Seq<char>>
    decreases node, 0nat,
{
    match node {
        Node::Call { name, args } => load_target(name@, args@) + loads_in_nodes(args@, 0),
        Node::Function { name, params, body } => loads_in_params(params@, 0) + loads_in_nodes(
            body@,
            0,
        ),
        _ => Seq::empty(),
    }
}

/// [`loads_in`] for the nodes from index `from` on.
pub open spec fn loads_in_nodes(nodes: Seq<Node>, from: nat) -> Seq<Seq<char>>
    decreases nodes, nodes.len() - from,
{
    if from >= nodes.len() {
        Seq::empty()
    } else {
        loads_in(nodes[from as int]) + loads_in_nodes(nodes, from + 1)
    }
}

/// [`loads_in`] for the default values of the parameters from index `from` on.
pub open spec fn loads_in_params(params: Seq<Param>, from: nat) -> Seq<Seq<char>>
    decreases params, params.len() - from,
{
    if from >= params.len() {
        Seq::empty()
    } else {
        (match params[from as int].default_value {
            Some(d) => loads_in(d),
            None => Seq::empty(),
        }) + loads_in_params(params, from + 1)
    }
}

/// The names that the units from index `from` on load.
pub open spec fn loads_of(units: Seq<Unit>, from: nat) -> Seq<Seq<char>>
    decreases units.len() - from,
{
    if from >= units.len() {
        Seq::empty()
    } else {
        loads_in_nodes(units[from as int].nodes@, 0) + loads_of(units, from + 1)
    }
}

/// The first of `names`, from index `from` on, that is not among `known`.
pub open spec fn first_unknown(names: Seq<Seq<char>>, known: Seq<Seq<char>>, from: nat) -> Option<
    Seq<char>,
>
    decreases names.len() - from,
{
    if from >= names.len() {
        None
    } else if position(known, names[from as int]) is None {
        Some(names[from as int])
    } else {
        first_unknown(names, known, from + 1)
    }
}

/// The unit that is wanted next: the first that some unit loads and that is
/// not among the units.
pub open spec fn wanted(units: Seq<Unit>) -> Option<Seq<char>> {
    first_unknown(loads_of(units, 0), unit_names(units), 0)
}

/// Appends to `out` the names that the `load` forms in `node` name.
pub fn collect_loads(node: &Node, out: &mut Vec<String>)
    ensures
        texts(final(out)@) == texts(old(out)@) + loads_in(*node),
    decreases *node, 0nat,
{
    match node {
        Node::Call { name, args } => {
            if str_eq(name.as_str(), "load") && args.len() >= 1 {
                match &args[0] {
                    Node::String(unit) => {
                        let ghost before = texts(out@);
                        out.push(unit.clone());
                        assert(texts(out@) =~= before + seq![unit@]);
                    },
                    _ => {},
                }
            }
            assert(texts(out@) =~= texts(old(out)@) + load_target(name@, args@));
            collect_loads_nodes(args, 0, out);
            assert(texts(out@) =~= texts(old(out)@) + (load_target(name@, args@) + loads_in_nodes(
                args@,
                0,
            )));
        },
        Node::Function { name, params, body } => {
            collect_loads_params(params, 0, out);
            collect_loads_nodes(body, 0, out);
            assert(texts(out@) =~= texts(old(out)@) + (loads_in_params(params@, 0)
                + loads_in_nodes(body@, 0)));
        },
        _ => {
            assert(texts(out@) =~= texts(old(out)@) + Seq::<Seq<char>>::empty());
        },
    }
}

/// [`collect_loads`] for the nodes from index `from` on.
pub fn collect_loads_nodes(nodes: &Vec<Node>, from: usize, out: &mut Vec<String>)
    ensures
        texts(final(out)@) == texts(old(out)@) + loads_in_nodes(nodes@, from as nat),
    decreases nodes@, nodes@.len() - from,
{
    if from >= nodes.len() {
        assert(texts(out@) =~= texts(old(out)@) + Seq::<Seq<char>>::empty());
        return ;
    }
    collect_loads(&nodes[from], out);
    collect_loads_nodes(nodes, from + 1, out);
    assert(texts(out@) =~= texts(old(out)@) + (loads_in(nodes@[from as int]) + loads_in_nodes(
        nodes@,
        (from + 1) as nat,
    )));
}

/// [`collect_loads`] for the default values of the parameters from index
/// `from` on.
pub fn collect_loads_params(params: &Vec<Param>, from: usize, out: &mut Vec<String>)
    ensures
        texts(final(out)@) == texts(old(out)@) + loads_in_params(params@, from as nat),
    decreases params@, params@.len() - from,
{
    if from >= params.len() {
        assert(texts(out@) =~= texts(old(out)@) + Seq::<Seq<char>>::empty());
        return ;
    }
    let ghost first = match params@[from as int].default_value {
        Some(d) => loads_in(d),
        None => Seq::empty(),
    };
    match &params[from].default_value {
        Some(d) => {
            collect_loads(d, out);
        },
        None => {
            assert(texts(out@) =~= texts(old(out)@) + Seq::<Seq<char>>::empty());
        },
    }
    assert(texts(out@) =~= texts(old(out)@) + first);
    collect_loads_params(params, from + 1, out);
    assert(texts(out@) =~= texts(old(out)@) + (first + loads_in_params(
        params@,
        (from + 1) as nat,
    )));
}

/// The names of the units.
pub fn names_of(units: &Vec<Unit>) -> (r: Vec<String>)
    ensures
        texts(r@) == unit_names(units@),
{
    let mut names: Vec<String> = Vec::new();
    let mut i: usize = 0;
    while i < units.len()
        invariant
            i <= units.len(),
            texts(names@) == unit_names(units@).take(i as int),
        decreases units.len() - i,
    {
        let ghost before = texts(names@);
        names.push(units[i].name.clone());
        assert(texts(names@) =~= before.push(units@[i as int].name@));
        assert(unit_names(units@).take(i + 1) =~= unit_names(units@).take(i as int).push(
            units@[i as int].name@,
        ));
        i += 1;
    }
    assert(unit_names(units@).take(i as int) =~= unit_names(units@));
    names
}

/// The name of the unit that is wanted next, if one is.
pub fn next_load(units: &Vec<Unit>) -> (r: Option<String>)
    ensures
        opt_text(r) == wanted(units@),
{
    let mut loads: Vec<String> = Vec::new();
    let mut i: usize = units.len();
    assert(texts(loads@) =~= loads_of(units@, i as nat));
    while i > 0
        invariant
            i <= units.len(),
            texts(loads@) == loads_of(units@, i as nat),
        decreases i,
    {
        i -= 1;
        let mut front: Vec<String> = Vec::new();
        assert(texts(front@) =~= Seq::<Seq<char>>::empty());
        collect_loads_nodes(&units[i].nodes, 0, &mut front);
        let ghost a = texts(front@);
        let ghost b = texts(loads@);
        front.append(&mut loads);
        assert(texts(front@) =~= a + b);
        loads = front;
    }
    let known = names_of(units);
    let mut k: usize = 0;
    while k < loads.len()
        invariant
            k <= loads.len(),
            texts(known@) == unit_names(units@),
            wanted(units@) == first_unknown(texts(loads@), texts(known@), k as nat),
        decreases loads.len() - k,
    {
        assert(texts(loads@)[k as int] == loads@[k as int]@);
        if find_str(&known, loads[k].as_str()).is_none() {
            return Some(loads[k].clone());
        }
        k += 1;
    }
    None
}

} // verus!
