use simple_lisp::table::find_class;
use simple_lisp::table::push_inherited_fields;
use simple_lisp::table::Class;
use simple_lisp::table::Field;
use simple_lisp::error::CompileError;
use simple_lisp::scope::Binding;
use simple_lisp::scope::Context;

fn strings(names: &[&str]) -> Vec<String> {
    names.iter().map(|s| s.to_string()).collect()
}

fn class(name: &str, parent: &str, fields: &[&str]) -> Class {
    Class {
        name: name.to_string(),
        parent: parent.to_string(),
        fields: fields.iter().map(|f| Field { name: f.to_string(), default: vec![] }).collect(),
        functions: vec![],
    }
}

#[test]
fn resolution_order_is_local_field_global() {
    let ctx = Context {
        class_name: Some("A".to_string()),
        parent_name: None,
        fields: strings(&["x", "a"]),
        function_name: "m".to_string(),
        arity: 2,
        locals: strings(&["this", "a", "b"]),
        top_level: false,
    };
    assert_eq!(ctx.resolve("this"), Binding::Local(0));
    assert_eq!(ctx.resolve("a"), Binding::Local(1));
    assert_eq!(ctx.resolve("b"), Binding::Local(2));
    assert_eq!(ctx.resolve("x"), Binding::Field);
    assert_eq!(ctx.resolve("y"), Binding::Global);
    assert_eq!(ctx.arity, 2);
    assert!(!ctx.top_level);
}

#[test]
fn top_level_context_has_the_receiver_only() {
    let ctx = Context::top_level();
    assert_eq!(ctx.resolve("this"), Binding::Local(0));
    assert_eq!(ctx.resolve("that"), Binding::Global);
    assert!(ctx.top_level);
}

#[test]
fn field_context_is_empty() {
    let ctx = Context::for_field();
    assert_eq!(ctx.resolve("this"), Binding::Global);
    assert!(ctx.locals.is_empty());
    assert!(ctx.fields.is_empty());
}

#[test]
fn declaring_gives_the_next_slot_once() {
    let mut ctx = Context::top_level();
    assert_eq!(ctx.declare("a"), Ok(1));
    assert_eq!(ctx.declare("b"), Ok(2));
    assert_eq!(ctx.declare("a"), Ok(1));
    assert_eq!(ctx.declare("this"), Ok(0));
    assert_eq!(ctx.locals, vec!["this", "a", "b"]);
}

#[test]
fn slots_are_limited_to_sixteen_bits() {
    let mut ctx = Context::for_field();
    for i in 0..65536 {
        ctx.locals.push(format!("l{}", i));
    }
    assert_eq!(ctx.declare("fresh"), Err(CompileError::CapacityOverflow));
    assert_eq!(ctx.declare("l65535"), Ok(65535));
    assert_eq!(ctx.locals.len(), 65536);
}

#[test]
fn inherited_fields_walk_up_the_parents() {
    let table = vec![
        class("A", "Object", &["x"]),
        class("B", "A", &["y", "z"]),
        class("C", "B", &[]),
        class("D", "C", &["w"]),
    ];
    let mut out = strings(&["own"]);
    push_inherited_fields(&mut out, &table, "C", 3);
    assert_eq!(out, vec!["own", "y", "z", "x"]);
    let mut out = Vec::new();
    push_inherited_fields(&mut out, &table, "Object", 4);
    assert!(out.is_empty());
    let mut out = Vec::new();
    push_inherited_fields(&mut out, &table, "D", 3);
    assert!(out.is_empty());
}

#[test]
fn classes_are_found_below_the_limit_only() {
    let table = vec![class("A", "Object", &[]), class("B", "A", &[])];
    assert_eq!(find_class(&table, "A", 2), Some(0));
    assert_eq!(find_class(&table, "B", 2), Some(1));
    assert_eq!(find_class(&table, "B", 1), None);
    assert_eq!(find_class(&table, "C", 2), None);
    assert_eq!(find_class(&table, "A", 0), None);
}
