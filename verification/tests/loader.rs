use simple_lisp::emitter::emit;
use simple_lisp::error::CompileError;
use simple_lisp::loader::collect_loads;
use simple_lisp::loader::names_of;
use simple_lisp::loader::next_load;
use simple_lisp::loader::Unit;
use simple_lisp::node::Node;
use simple_lisp::node::Param;

fn call(name: &str, args: Vec<Node>) -> Node {
    Node::Call { name: name.to_string(), args }
}

fn load(name: &str) -> Node {
    call("load", vec![Node::String(name.to_string())])
}

fn unit(name: &str, nodes: Vec<Node>) -> Unit {
    Unit { name: name.to_string(), nodes }
}

fn loads_in(node: &Node) -> Vec<String> {
    let mut out = Vec::new();
    collect_loads(node, &mut out);
    out
}

#[test]
fn loads_are_collected_in_the_order_of_the_text() {
    let node = call(
        "if",
        vec![
            load("a"),
            call("f", vec![load("b"), Node::Integer(1), load("c")]),
            Node::Function {
                name: String::new(),
                params: vec![
                    Param { name: "p".to_string(), default_value: None },
                    Param { name: "q".to_string(), default_value: Some(load("d")) },
                ],
                body: vec![load("e"), load("a")],
            },
        ],
    );
    assert_eq!(loads_in(&node), vec!["a", "b", "c", "d", "e", "a"]);
}

#[test]
fn only_loads_of_a_named_unit_count() {
    assert!(loads_in(&call("load", vec![])).is_empty());
    assert!(loads_in(&call("load", vec![Node::Identifier("a".to_string())])).is_empty());
    assert!(loads_in(&call("loads", vec![Node::String("a".to_string())])).is_empty());
    assert!(loads_in(&Node::String("load".to_string())).is_empty());
    assert!(loads_in(&Node::List(vec![load("a")])).is_empty());
    assert_eq!(
        loads_in(&call("load", vec![Node::String("a".to_string()), load("b")])),
        vec!["a", "b"]
    );
}

#[test]
fn collecting_appends_to_what_is_there() {
    let mut out = vec!["first".to_string()];
    collect_loads(&load("x"), &mut out);
    collect_loads(&Node::Null, &mut out);
    assert_eq!(out, vec!["first", "x"]);
}

#[test]
fn the_first_unknown_unit_is_wanted_next() {
    let mut units = vec![unit("main", vec![load("a"), load("b"), load("a")])];
    assert_eq!(next_load(&units), Some("a".to_string()));
    units.push(unit("a", vec![load("c"), load("main")]));
    assert_eq!(next_load(&units), Some("b".to_string()));
    units.push(unit("b", vec![]));
    assert_eq!(next_load(&units), Some("c".to_string()));
    units.push(unit("c", vec![load("c")]));
    assert_eq!(next_load(&units), None);
    assert_eq!(names_of(&units), vec!["main", "a", "b", "c"]);
}

#[test]
fn nothing_is_wanted_without_loads() {
    assert_eq!(next_load(&vec![]), None);
    assert_eq!(next_load(&vec![unit("main", vec![call("print", vec![])])]), None);
}

#[test]
fn units_gathered_by_the_loader_compile_without_a_missing_module() {
    let sources = [
        ("main", vec![load("lib"), call("helper", vec![])]),
        ("lib", vec![load("base"), Node::Function { name: "helper".to_string(), params: vec![], body: vec![] }]),
        ("base", vec![call("let", vec![Node::Identifier("x".to_string()), Node::Integer(1)])]),
    ];
    let mut store: Vec<(String, Vec<Node>)> =
        sources.into_iter().map(|(name, nodes)| (name.to_string(), nodes)).collect();
    let (name, nodes) = store.remove(0);
    let mut units = vec![Unit { name, nodes }];
    while let Some(wanted) = next_load(&units) {
        let at = store.iter().position(|(name, _)| *name == wanted).unwrap();
        let (name, nodes) = store.remove(at);
        units.push(Unit { name, nodes });
    }
    assert_eq!(names_of(&units), vec!["main", "lib", "base"]);
    assert!(emit(&units, 0).is_ok());
    units.pop();
    assert_eq!(emit(&units, 0).err(), Some(CompileError::MissingModule));
}
