use simple_lisp::emitter::Emitter;
use simple_lisp::error::CompileError;
use simple_lisp::error::Form;
use simple_lisp::node::Node;
use simple_lisp::node::Param;
use simple_lisp::opcode::count_opcodes;
use simple_lisp::loader::Unit;
use simple_lisp::emitter::emit;
use simple_lisp::writer::write_module;

fn call(name: &str, args: Vec<Node>) -> Node {
    Node::Call { name: name.to_string(), args }
}

fn id(name: &str) -> Node {
    Node::Identifier(name.to_string())
}

fn text(s: &str) -> Node {
    Node::String(s.to_string())
}

fn fun(name: &str, params: Vec<Param>, body: Vec<Node>) -> Node {
    Node::Function { name: name.to_string(), params, body }
}

fn param(name: &str) -> Param {
    Param { name: name.to_string(), default_value: None }
}

fn param_with(name: &str, default: Node) -> Param {
    Param { name: name.to_string(), default_value: Some(default) }
}

fn unit(name: &str, nodes: Vec<Node>) -> Unit {
    Unit { name: name.to_string(), nodes }
}

fn compile(nodes: Vec<Node>) -> Result<Emitter, CompileError> {
    Emitter::parse_root(&vec![unit("main", nodes)], 0)
}

fn error_of(nodes: Vec<Node>) -> CompileError {
    match compile(nodes) {
        Ok(_) => panic!("compiled"),
        Err(e) => e,
    }
}

fn main_code(e: &Emitter) -> Vec<u8> {
    let f = e.functions.last().unwrap();
    assert_eq!(f.selector, "main");
    f.code.clone()
}

fn function<'a>(e: &'a Emitter, selector: &str) -> &'a simple_lisp::table::Function {
    e.functions.iter().find(|f| f.selector == selector).unwrap()
}

fn pool(e: &Emitter) -> Vec<String> {
    e.pool.strings.clone()
}

#[test]
fn print_hi_is_load_call_pop_null_return() {
    let e = compile(vec![call("print", vec![text("hi")])]).unwrap();
    assert_eq!(pool(&e), vec!["$self", "print(_)", "hi"]);
    assert_eq!(e.functions.len(), 1);
    assert_eq!(e.functions[0].arity, 0);
    assert!(e.functions[0].params.is_empty());
    assert_eq!(main_code(&e), vec![2, 5, 2, 0, 19, 1, 0, 1, 16, 2, 1, 1]);
}

#[test]
fn print_hi_module_bytes() {
    let bytes = emit(&vec![unit("main", vec![call("print", vec![text("hi")])])], 0).unwrap();
    let mut expected: Vec<u8> = Vec::new();
    expected.extend_from_slice(b"ROCK");
    expected.push(1);
    expected.extend_from_slice(&[3, 0, 0, 0]);
    expected.extend_from_slice(&[5, 0]);
    expected.extend_from_slice(b"$self");
    expected.extend_from_slice(&[8, 0]);
    expected.extend_from_slice(b"print(_)");
    expected.extend_from_slice(&[2, 0]);
    expected.extend_from_slice(b"hi");
    expected.extend_from_slice(&[1, 0, 0, 0]);
    expected.extend_from_slice(&[5, 0]);
    expected.extend_from_slice(b"$self");
    expected.extend_from_slice(&[6, 0]);
    expected.extend_from_slice(b"Object");
    expected.push(0);
    expected.push(1);
    expected.extend_from_slice(&[4, 0]);
    expected.extend_from_slice(b"main");
    expected.extend_from_slice(&[0, 0]);
    expected.extend_from_slice(&[12, 0]);
    expected.extend_from_slice(&[2, 5, 2, 0, 19, 1, 0, 1, 16, 2, 1, 1]);
    assert_eq!(bytes, expected);
}

#[test]
fn empty_program_has_main_only() {
    let e = compile(vec![]).unwrap();
    assert_eq!(pool(&e), vec!["$self"]);
    assert_eq!(main_code(&e), vec![2, 1, 1]);
    assert!(e.classes.is_empty());
}

#[test]
fn literals_compile_to_tagged_constant_loads() {
    let e = compile(vec![
        call(
            "f",
            vec![
                Node::Integer(1),
                Node::Integer(-2),
                Node::Float(1.5f32.to_bits()),
                Node::Bool(true),
                Node::Bool(false),
                Node::Null,
                text("s"),
            ],
        ),
    ]).unwrap();
    let mut expected: Vec<u8> = Vec::new();
    expected.extend_from_slice(&[2, 3, 1, 0, 0, 0]);
    expected.extend_from_slice(&[2, 3, 0xfe, 0xff, 0xff, 0xff]);
    expected.extend_from_slice(&[2, 4, 0x00, 0x00, 0xc0, 0x3f]);
    expected.extend_from_slice(&[2, 2, 1]);
    expected.extend_from_slice(&[2, 2, 0]);
    expected.extend_from_slice(&[2, 1]);
    expected.extend_from_slice(&[2, 5, 2, 0]);
    // the first argument is the receiver, the other six are passed
    expected.extend_from_slice(&[19, 1, 0, 6]);
    expected.extend_from_slice(&[16, 2, 1, 1]);
    assert_eq!(main_code(&e), expected);
    assert_eq!(pool(&e), vec!["$self", "f(_,_,_,_,_,_)", "s"]);
}

#[test]
fn integer_extremes_are_little_endian_twos_complement() {
    let e = compile(vec![call("f", vec![Node::Integer(i32::MIN), Node::Integer(i32::MAX)])]).unwrap();
    let code = main_code(&e);
    assert_eq!(&code[0..6], &[2, 3, 0, 0, 0, 0x80]);
    assert_eq!(&code[6..12], &[2, 3, 0xff, 0xff, 0xff, 0x7f]);
}

#[test]
fn pool_index_above_255_takes_two_bytes() {
    let mut nodes = Vec::new();
    for i in 0..300 {
        nodes.push(call("let", vec![id(&format!("v{}", i)), Node::Integer(0)]));
    }
    let e = compile(nodes).unwrap();
    let code = main_code(&e);
    // each statement: constant (6 bytes), store (3 bytes), pop (1 byte)
    let at = 299 * 10;
    assert_eq!(&code[at..at + 10], &[2, 3, 0, 0, 0, 0, 18, 0x2c, 0x01, 16]);
    assert_eq!(e.pool.strings[300], "v299");
}

#[test]
fn identifiers_null_true_false_are_single_opcodes() {
    let e = compile(vec![call("f", vec![id("null"), id("true"), id("false")])]).unwrap();
    assert_eq!(main_code(&e), vec![10, 8, 9, 19, 1, 0, 2, 16, 2, 1, 1]);
}

#[test]
fn top_level_this_is_local_slot_zero() {
    let e = compile(vec![call("f", vec![id("this")])]).unwrap();
    assert_eq!(main_code(&e), vec![21, 0, 0, 19, 1, 0, 0, 16, 2, 1, 1]);
}

#[test]
fn top_level_let_declares_a_global() {
    let e = compile(vec![call("let", vec![id("x"), Node::Integer(7)])]).unwrap();
    assert_eq!(pool(&e), vec!["$self", "x"]);
    assert_eq!(main_code(&e), vec![2, 3, 7, 0, 0, 0, 18, 1, 0, 16, 2, 1, 1]);
}

#[test]
fn let_inside_a_function_declares_a_local() {
    let e = compile(vec![
        fun(
            "f",
            vec![param("a")],
            vec![call("let", vec![id("b"), id("a")]), call("add", vec![id("a"), id("b")])],
        ),
    ]).unwrap();
    let f = function(&e, "f(_)");
    assert_eq!(f.arity, 1);
    assert_eq!(f.params, vec!["this", "a"]);
    // load a; store into the new slot 2; pop; load a; load b; add; return
    assert_eq!(f.code, vec![21, 1, 0, 22, 2, 0, 16, 21, 1, 0, 21, 2, 0, 4, 1]);
    assert_eq!(pool(&e), vec!["$self"]);
}

#[test]
fn let_of_an_existing_local_reuses_its_slot() {
    let e = compile(vec![fun("f", vec![param("a")], vec![call("let", vec![id("a"), Node::Null])])])
        .unwrap();
    assert_eq!(function(&e, "f(_)").code, vec![2, 1, 22, 1, 0, 1]);
}

#[test]
fn set_resolves_local_then_field_then_global() {
    let e = compile(vec![
        call(
            "class",
            vec![
                id("A"),
                call("let", vec![id("x"), Node::Integer(0)]),
                fun(
                    "m",
                    vec![param("p")],
                    vec![
                        call("set", vec![id("p"), Node::Integer(1)]),
                        call("set", vec![id("x"), Node::Integer(2)]),
                        call("set", vec![id("g"), Node::Integer(3)]),
                    ],
                ),
            ],
        ),
    ]).unwrap();
    let m = &e.classes[0].functions[0];
    assert_eq!(m.selector, "m(_)");
    assert_eq!(pool(&e), vec!["$self", "x", "g"]);
    let mut expected: Vec<u8> = Vec::new();
    expected.extend_from_slice(&[2, 3, 1, 0, 0, 0, 22, 1, 0, 16]);
    expected.extend_from_slice(&[2, 3, 2, 0, 0, 0, 25, 1, 0, 16]);
    expected.extend_from_slice(&[2, 3, 3, 0, 0, 0, 18, 2, 0]);
    expected.push(1);
    assert_eq!(m.code, expected);
}

#[test]
fn a_local_shadows_a_field_of_the_same_name() {
    let e = compile(vec![
        call(
            "class",
            vec![
                id("A"),
                call("let", vec![id("x"), Node::Integer(0)]),
                fun("m", vec![param("x")], vec![id("x")]),
            ],
        ),
    ]).unwrap();
    assert_eq!(e.classes[0].functions[0].code, vec![21, 1, 0, 1]);
}

#[test]
fn inc_loads_adds_one_and_stores_back() {
    let e = compile(vec![
        call("inc", vec![id("g")]),
        fun("f", vec![param("a")], vec![call("inc", vec![id("a")])]),
    ]).unwrap();
    assert_eq!(
        main_code(&e),
        vec![17, 1, 0, 2, 3, 1, 0, 0, 0, 4, 18, 1, 0, 16, 2, 1, 1]
    );
    assert_eq!(
        function(&e, "f(_)").code,
        vec![21, 1, 0, 2, 3, 1, 0, 0, 0, 4, 22, 1, 0, 1]
    );
}

#[test]
fn inc_of_a_field() {
    let e = compile(vec![
        call(
            "class",
            vec![
                id("A"),
                call("let", vec![id("n"), Node::Integer(0)]),
                fun("bump", vec![], vec![call("inc", vec![id("n")])]),
            ],
        ),
    ]).unwrap();
    assert_eq!(
        e.classes[0].functions[0].code,
        vec![24, 1, 0, 2, 3, 1, 0, 0, 0, 4, 25, 1, 0, 1]
    );
}

#[test]
fn arithmetic_and_comparison_operators() {
    let names = [("add", 4u8), ("sub", 5), ("mul", 6), ("div", 7), ("lt", 13), ("gt", 14), ("eq", 12)];
    for (name, op) in names {
        let e = compile(vec![call(name, vec![Node::Null, Node::Null])]).unwrap();
        assert_eq!(main_code(&e), vec![2, 1, 2, 1, op, 16, 2, 1, 1]);
    }
    let e = compile(vec![call("neq", vec![Node::Null, Node::Null])]).unwrap();
    assert_eq!(main_code(&e), vec![2, 1, 2, 1, 12, 11, 16, 2, 1, 1]);
}

#[test]
fn if_branch_lengths_count_instructions() {
    let e = compile(vec![
        call(
            "if",
            vec![call("lt", vec![id("a"), Node::Integer(1)]), Node::Integer(10), Node::Integer(20)],
        ),
    ]).unwrap();
    let code = main_code(&e);
    let mut expected: Vec<u8> = Vec::new();
    expected.extend_from_slice(&[17, 1, 0, 2, 3, 1, 0, 0, 0, 13]);
    expected.extend_from_slice(&[26, 2]);
    expected.extend_from_slice(&[2, 3, 10, 0, 0, 0]);
    expected.extend_from_slice(&[27, 1]);
    expected.extend_from_slice(&[2, 3, 20, 0, 0, 0]);
    expected.extend_from_slice(&[16, 2, 1, 1]);
    assert_eq!(code, expected);
    // the skip of the conditional branch spans the first arm and its jump
    assert_eq!(code[10], 26);
    assert_eq!(Some(code[11] as usize), count_opcodes(&code[12..20]));
    // the jump spans the second arm
    assert_eq!(code[18], 27);
    assert_eq!(Some(code[19] as usize), count_opcodes(&code[20..26]));
}

#[test]
fn if_with_wider_arms() {
    let e = compile(vec![
        call(
            "if",
            vec![
                id("c"),
                call("add", vec![Node::Integer(1), Node::Integer(2)]),
                call("f", vec![text("x"), Node::Null, Node::Bool(true)]),
            ],
        ),
    ]).unwrap();
    let code = main_code(&e);
    assert_eq!(&code[0..5], &[17, 1, 0, 26, 4]);
    // first arm: two constants and an add (13 bytes), then the jump
    assert_eq!(count_opcodes(&code[5..18]), Some(3));
    assert_eq!(&code[18..20], &[27, 4]);
    assert_eq!(count_opcodes(&code[20..code.len() - 4]), Some(4));
}

#[test]
fn while_loop_counts_back_to_its_head() {
    let e = compile(vec![
        call(
            "while",
            vec![
                call("lt", vec![id("i"), Node::Integer(3)]),
                call("inc", vec![id("i")]),
                call("print", vec![]),
            ],
        ),
    ]).unwrap();
    let code = main_code(&e);
    let mut expected: Vec<u8> = Vec::new();
    // condition: 3 instructions
    expected.extend_from_slice(&[17, 1, 0, 2, 3, 3, 0, 0, 0, 13]);
    // not; skip body (6 instructions) and the loop instruction
    expected.extend_from_slice(&[11, 26, 7]);
    // inc i (4 instructions), pop, call print()
    expected.extend_from_slice(&[17, 1, 0, 2, 3, 1, 0, 0, 0, 4, 18, 1, 0, 16, 19, 2, 0, 0]);
    // loop back over 3 + 2 + 6 instructions, then "no value"
    expected.extend_from_slice(&[20, 11, 10]);
    expected.extend_from_slice(&[16, 2, 1, 1]);
    assert_eq!(code, expected);
}

#[test]
fn while_without_body() {
    let e = compile(vec![call("while", vec![id("true")])]).unwrap();
    assert_eq!(main_code(&e), vec![8, 11, 26, 1, 20, 3, 10, 16, 2, 1, 1]);
}

#[test]
fn switch_compiles_subject_once_and_chains_cases() {
    let e = compile(vec![
        call(
            "switch",
            vec![
                id("x"),
                call("case", vec![Node::Integer(1), text("one")]),
                call("case", vec![Node::Integer(2), text("two")]),
                text("many"),
            ],
        ),
    ]).unwrap();
    let code = main_code(&e);
    let mut expected: Vec<u8> = Vec::new();
    expected.extend_from_slice(&[17, 1, 0]);
    // case 1: dup, value, equal, skip 3, pop, expr, jump over 9 instructions
    expected.extend_from_slice(&[28, 2, 3, 1, 0, 0, 0, 12, 26, 3, 16, 2, 5, 2, 0, 27, 9]);
    // case 2: the same, jump over the 2 instructions of the default
    expected.extend_from_slice(&[28, 2, 3, 2, 0, 0, 0, 12, 26, 3, 16, 2, 5, 3, 0, 27, 2]);
    // default: pop, expr
    expected.extend_from_slice(&[16, 2, 5, 4, 0]);
    expected.extend_from_slice(&[16, 2, 1, 1]);
    assert_eq!(code, expected);
    assert_eq!(pool(&e), vec!["$self", "x", "one", "two", "many"]);
}

#[test]
fn switch_with_default_only() {
    let e = compile(vec![call("switch", vec![id("x"), Node::Integer(5)])]).unwrap();
    assert_eq!(main_code(&e), vec![17, 1, 0, 16, 2, 3, 5, 0, 0, 0, 16, 2, 1, 1]);
}

#[test]
fn list_is_constructor_and_appends() {
    let e = compile(vec![call("list", vec![Node::Integer(1), Node::Integer(2)])]).unwrap();
    assert_eq!(pool(&e), vec!["$self", "List", "new()", "add(_)"]);
    assert_eq!(
        main_code(&e),
        vec![
            17, 1, 0, 19, 2, 0, 0, 2, 3, 1, 0, 0, 0, 19, 3, 0, 1, 2, 3, 2, 0, 0, 0, 19, 3, 0, 1, 16, 2,
            1, 1
        ]
    );
}

#[test]
fn nth_reads_with_two_arguments_and_writes_with_three() {
    let e = compile(vec![
        call("nth", vec![id("xs"), Node::Integer(0)]),
        call("nth", vec![id("xs"), Node::Integer(0), Node::Null]),
    ]).unwrap();
    assert_eq!(pool(&e), vec!["$self", "[_]", "[_]=(_)", "xs"]);
    assert_eq!(
        main_code(&e),
        vec![
            17, 3, 0, 2, 3, 0, 0, 0, 0, 19, 1, 0, 1, 16, 17, 3, 0, 2, 3, 0, 0, 0, 0, 2, 1, 19, 2, 0, 2,
            16, 2, 1, 1
        ]
    );
}

#[test]
fn new_allocates_and_calls_the_constructor() {
    let e = compile(vec![call("new", vec![id("Point"), Node::Integer(1), Node::Integer(2)])]).unwrap();
    assert_eq!(pool(&e), vec!["$self", "Point", "new(_,_)"]);
    assert_eq!(
        main_code(&e),
        vec![23, 1, 0, 28, 2, 3, 1, 0, 0, 0, 2, 3, 2, 0, 0, 0, 19, 2, 0, 2, 16, 16, 2, 1, 1]
    );
}

#[test]
fn abort_and_yield_call_the_fiber_class() {
    let e = compile(vec![call("abort", vec![text("stop")]), call("yield", vec![]), call("yield", vec![id("v")])])
        .unwrap();
    assert_eq!(pool(&e), vec!["$self", "Fiber", "abort(_)", "stop", "yield(_)", "v"]);
    assert_eq!(
        main_code(&e),
        vec![
            17, 1, 0, 2, 5, 3, 0, 19, 2, 0, 1, 16, 17, 1, 0, 10, 19, 4, 0, 1, 16, 17, 1, 0, 17, 5, 0, 19,
            4, 0, 1, 16, 2, 1, 1
        ]
    );
}

#[test]
fn return_is_a_bare_return() {
    let e = compile(vec![fun("f", vec![], vec![call("return", vec![Node::Integer(1)])])]).unwrap();
    assert_eq!(function(&e, "f()").code, vec![1, 1]);
}

#[test]
fn closure_is_hoisted_into_the_module() {
    let e = compile(vec![call("let", vec![id("f"), fun("", vec![param("a")], vec![id("a")])])]).unwrap();
    assert_eq!(pool(&e), vec!["$self", "closure#0", "f"]);
    let c = function(&e, "closure#0");
    assert_eq!(c.arity, 1);
    assert_eq!(c.params, vec!["this", "a"]);
    assert_eq!(c.code, vec![21, 1, 0, 1]);
    assert_eq!(main_code(&e), vec![17, 0, 0, 15, 1, 0, 18, 2, 0, 16, 2, 1, 1]);
    assert_eq!(e.closure_id, 1);
}

#[test]
fn closures_get_consecutive_names() {
    let mut items = Vec::new();
    for _ in 0..11 {
        items.push(fun("", vec![], vec![]));
    }
    let e = compile(vec![call("list", items)]).unwrap();
    let names: Vec<&str> = e.functions.iter().map(|f| f.selector.as_str()).collect();
    assert_eq!(
        names,
        vec![
            "closure#0", "closure#1", "closure#2", "closure#3", "closure#4", "closure#5", "closure#6",
            "closure#7", "closure#8", "closure#9", "closure#10", "main"
        ]
    );
    assert_eq!(e.functions[0].code, vec![1]);
}

#[test]
fn fiber_wraps_a_closure() {
    let e = compile(vec![call("fiber", vec![fun("", vec![], vec![Node::Null])])]).unwrap();
    assert_eq!(pool(&e), vec!["$self", "Fiber", "new(_)", "closure#0"]);
    assert_eq!(
        main_code(&e),
        vec![17, 1, 0, 17, 0, 0, 15, 3, 0, 19, 2, 0, 1, 16, 2, 1, 1]
    );
}

#[test]
fn call_of_a_module_function_loads_the_module_class() {
    let e = compile(vec![
        fun("twice", vec![param("a")], vec![call("add", vec![id("a"), id("a")])]),
        call("twice", vec![Node::Integer(4)]),
        call("twice", vec![Node::Integer(4), Node::Integer(5)]),
    ]).unwrap();
    // the module has no `twice` of two parameters: the second call is
    // dispatched on its first argument and passes the other
    assert_eq!(pool(&e), vec!["$self", "twice(_)"]);
    assert_eq!(
        main_code(&e),
        vec![
            17, 0, 0, 2, 3, 4, 0, 0, 0, 19, 1, 0, 1, 16, 2, 3, 4, 0, 0, 0, 2, 3, 5, 0, 0, 0, 19, 1, 0, 1,
            16, 2, 1, 1
        ]
    );
}

#[test]
fn a_function_can_call_itself_directly() {
    let e = compile(vec![fun("f", vec![], vec![call("f", vec![])])]).unwrap();
    assert_eq!(function(&e, "f()").code, vec![17, 0, 0, 19, 1, 0, 0, 1]);
}

#[test]
fn default_parameters_make_forwarding_overloads() {
    let e = compile(vec![
        fun("greet", vec![param("name"), param_with("title", text("Dr"))], vec![id("title")]),
    ]).unwrap();
    let names: Vec<&str> = e.functions.iter().map(|f| f.selector.as_str()).collect();
    assert_eq!(names, vec!["greet(_,_)", "greet(_)", "main"]);
    let full = function(&e, "greet(_,_)");
    assert_eq!(full.arity, 2);
    assert_eq!(full.params, vec!["this", "name", "title"]);
    assert_eq!(full.code, vec![21, 2, 0, 1]);
    let short = function(&e, "greet(_)");
    assert_eq!(short.arity, 1);
    assert_eq!(short.params, vec!["this", "name"]);
    assert_eq!(pool(&e), vec!["$self", "greet(_,_)", "Dr"]);
    // module class; own parameter; default of the other; call of the full function; return
    assert_eq!(short.code, vec![17, 0, 0, 21, 1, 0, 2, 5, 2, 0, 19, 1, 0, 2, 1]);
}

#[test]
fn all_parameters_defaulted_give_every_arity() {
    let e = compile(vec![
        fun(
            "f",
            vec![param_with("a", Node::Integer(1)), param_with("b", Node::Integer(2))],
            vec![],
        ),
    ]).unwrap();
    let names: Vec<&str> = e.functions.iter().map(|f| f.selector.as_str()).collect();
    assert_eq!(names, vec!["f(_,_)", "f()", "f(_)", "main"]);
    assert_eq!(
        function(&e, "f()").code,
        vec![17, 0, 0, 2, 3, 1, 0, 0, 0, 2, 3, 2, 0, 0, 0, 19, 1, 0, 2, 1]
    );
    assert_eq!(
        function(&e, "f(_)").code,
        vec![17, 0, 0, 21, 1, 0, 2, 3, 2, 0, 0, 0, 19, 1, 0, 2, 1]
    );
}

#[test]
fn class_gets_fields_methods_and_a_default_constructor() {
    let e = compile(vec![
        call(
            "class",
            vec![
                id("A"),
                call("let", vec![id("x"), Node::Integer(1)]),
                fun("get", vec![], vec![id("x")]),
            ],
        ),
    ]).unwrap();
    assert_eq!(main_code(&e), vec![2, 1, 1]);
    assert_eq!(e.classes.len(), 1);
    let a = &e.classes[0];
    assert_eq!(a.name, "A");
    assert_eq!(a.parent, "Object");
    assert_eq!(a.fields.len(), 1);
    assert_eq!(a.fields[0].name, "x");
    assert_eq!(a.fields[0].default, vec![2, 3, 1, 0, 0, 0]);
    assert_eq!(a.functions.len(), 2);
    assert_eq!(a.functions[0].selector, "get()");
    assert_eq!(a.functions[0].params, vec!["this"]);
    assert_eq!(a.functions[0].code, vec![24, 1, 0, 1]);
    assert_eq!(a.functions[1].selector, "new()");
    assert_eq!(a.functions[1].arity, 0);
    assert_eq!(a.functions[1].params, vec!["this"]);
    assert_eq!(a.functions[1].code, vec![10, 1]);
}

#[test]
fn class_with_its_own_constructor_gets_no_default() {
    let e = compile(vec![
        call("class", vec![id("A"), fun("new", vec![], vec![Node::Null]), fun("new", vec![param("a")], vec![])]),
    ]).unwrap();
    let names: Vec<&str> = e.classes[0].functions.iter().map(|f| f.selector.as_str()).collect();
    assert_eq!(names, vec!["new()", "new(_)"]);
}

#[test]
fn class_with_only_a_one_argument_constructor_gets_the_default() {
    let e = compile(vec![call("class", vec![id("A"), fun("new", vec![param("a")], vec![])])]).unwrap();
    let names: Vec<&str> = e.classes[0].functions.iter().map(|f| f.selector.as_str()).collect();
    assert_eq!(names, vec!["new(_)", "new()"]);
}

#[test]
fn field_defaults_do_not_see_fields_or_locals() {
    let e = compile(vec![
        call(
            "class",
            vec![
                id("A"),
                call("let", vec![id("x"), Node::Integer(1)]),
                call("let", vec![id("y"), id("x")]),
                call("let", vec![id("z"), id("this")]),
            ],
        ),
    ]).unwrap();
    // `x` and `this` are module variables here
    assert_eq!(e.classes[0].fields[1].default, vec![17, 1, 0]);
    assert_eq!(e.classes[0].fields[2].default, vec![17, 2, 0]);
    assert_eq!(pool(&e), vec!["$self", "x", "this"]);
}

#[test]
fn subclass_methods_see_inherited_fields() {
    let e = compile(vec![
        call("class", vec![id("A"), call("let", vec![id("x"), Node::Integer(1)])]),
        call(
            "class",
            vec![
                id("B"),
                id("A"),
                call("let", vec![id("y"), Node::Integer(2)]),
                fun("sum", vec![], vec![call("add", vec![id("x"), id("y")])]),
            ],
        ),
        call(
            "class",
            vec![id("C"), id("B"), fun("all", vec![], vec![call("f", vec![id("x"), id("y"), id("q")])])],
        ),
    ]).unwrap();
    assert_eq!(e.classes.len(), 3);
    assert_eq!(e.classes[1].name, "B");
    assert_eq!(e.classes[1].parent, "A");
    assert_eq!(pool(&e), vec!["$self", "x", "y", "f(_,_)", "q"]);
    assert_eq!(e.classes[1].functions[0].code, vec![24, 1, 0, 24, 2, 0, 4, 1]);
    // in C both fields are inherited, `q` is a module variable
    assert_eq!(
        e.classes[2].functions[0].code,
        vec![24, 1, 0, 24, 2, 0, 17, 4, 0, 19, 3, 0, 2, 1]
    );
}

#[test]
fn super_forwards_remaining_parameters() {
    let e = compile(vec![
        call("class", vec![id("A"), fun("m", vec![param("a"), param("b")], vec![])]),
        call(
            "class",
            vec![
                id("B"),
                id("A"),
                fun("m", vec![param("a"), param("b")], vec![call("super", vec![Node::Integer(9)])]),
                fun("n", vec![], vec![call("super", vec![])]),
            ],
        ),
    ]).unwrap();
    assert_eq!(pool(&e), vec!["$self", "m(_,_)", "n()"]);
    let b = &e.classes[1];
    // receiver; the given argument; parameter 2; super call with two arguments
    assert_eq!(
        b.functions[0].code,
        vec![21, 0, 0, 2, 3, 9, 0, 0, 0, 21, 2, 0, 31, 1, 0, 2, 1]
    );
    assert_eq!(b.functions[1].code, vec![21, 0, 0, 31, 2, 0, 0, 1]);
}

#[test]
fn redeclared_class_replaces_the_first() {
    let e = compile(vec![
        call("class", vec![id("A"), call("let", vec![id("x"), Node::Integer(1)])]),
        call("class", vec![id("B"), id("A")]),
        call("class", vec![id("A"), call("let", vec![id("z"), Node::Integer(1)])]),
    ]).unwrap();
    let names: Vec<&str> = e.classes.iter().map(|c| c.name.as_str()).collect();
    assert_eq!(names, vec!["A", "B"]);
    assert_eq!(e.classes[0].fields[0].name, "z");
}

#[test]
fn load_compiles_the_unit_into_the_same_tables() {
    let units = vec![
        unit(
            "main",
            vec![call("load", vec![text("lib"), id("helper"), call("other", vec![id("mine")])]), call("helper", vec![])],
        ),
        unit("lib", vec![fun("helper", vec![], vec![Node::Integer(1)]), call("let", vec![id("ready"), id("true")])]),
    ];
    let e = Emitter::parse_root(&units, 0).unwrap();
    assert_eq!(pool(&e), vec!["$self", "lib", "helper", "other", "mine", "ready", "helper()"]);
    let names: Vec<&str> = e.functions.iter().map(|f| f.selector.as_str()).collect();
    assert_eq!(names, vec!["helper()", "main"]);
    let mut expected: Vec<u8> = Vec::new();
    // import "lib" with two pairs: helper as itself, other as mine
    expected.extend_from_slice(&[30, 1, 0, 2, 0, 2, 0, 2, 0, 3, 0, 4, 0]);
    // the unit's statement: let ready true; pop
    expected.extend_from_slice(&[8, 18, 5, 0, 16]);
    // pop of the load itself
    expected.push(16);
    // helper() is now a module function
    expected.extend_from_slice(&[17, 0, 0, 19, 6, 0, 0, 16]);
    expected.extend_from_slice(&[2, 1, 1]);
    assert_eq!(main_code(&e), expected);
}

#[test]
fn import_inside_a_branch_counts_as_one_instruction() {
    let units = vec![
        unit("main", vec![call("if", vec![id("c"), call("load", vec![text("lib"), id("a"), id("b")]), Node::Null])]),
        unit("lib", vec![]),
    ];
    let e = Emitter::parse_root(&units, 0).unwrap();
    let code = main_code(&e);
    assert_eq!(&code[0..5], &[17, 1, 0, 26, 2]);
    assert_eq!(&code[5..18], &[30, 2, 0, 2, 0, 3, 0, 3, 0, 4, 0, 4, 0]);
    assert_eq!(&code[18..22], &[27, 1, 2, 1]);
}

#[test]
fn circular_load_is_reported() {
    let units = vec![
        unit("a", vec![call("load", vec![text("b")])]),
        unit("b", vec![call("load", vec![text("a")])]),
    ];
    assert_eq!(Emitter::parse_root(&units, 0).err(), Some(CompileError::CircularLoad));
    assert_eq!(emit(&units, 0).err(), Some(CompileError::CircularLoad));
}

#[test]
fn self_load_is_circular() {
    let units = vec![unit("a", vec![call("load", vec![text("a")])])];
    assert_eq!(Emitter::parse_root(&units, 0).err(), Some(CompileError::CircularLoad));
}

#[test]
fn diamond_loads_are_not_circular() {
    let units = vec![
        unit("a", vec![call("load", vec![text("b")]), call("load", vec![text("c")])]),
        unit("b", vec![call("load", vec![text("d")])]),
        unit("c", vec![call("load", vec![text("d")])]),
        unit("d", vec![fun("f", vec![], vec![])]),
    ];
    let e = Emitter::parse_root(&units, 0).unwrap();
    let names: Vec<&str> = e.functions.iter().map(|f| f.selector.as_str()).collect();
    assert_eq!(names, vec!["f()", "f()", "main"]);
}

#[test]
fn missing_module_is_reported() {
    assert_eq!(error_of(vec![call("load", vec![text("nowhere")])]), CompileError::MissingModule);
    assert_eq!(Emitter::parse_root(&vec![], 0).err(), Some(CompileError::MissingModule));
}

#[test]
fn malformed_forms_are_reported_with_their_form() {
    let cases: Vec<(Node, Form)> = vec![
        (call("add", vec![Node::Null]), Form::Arithmetic),
        (call("div", vec![Node::Null, Node::Null, Node::Null]), Form::Arithmetic),
        (call("lt", vec![]), Form::Comparison),
        (call("inc", vec![Node::Integer(1)]), Form::Inc),
        (call("inc", vec![id("a"), id("b")]), Form::Inc),
        (call("nth", vec![id("a")]), Form::Nth),
        (call("nth", vec![id("a"), id("b"), id("c"), id("d")]), Form::Nth),
        (call("if", vec![id("a"), id("b")]), Form::If),
        (call("while", vec![]), Form::While),
        (call("switch", vec![id("a")]), Form::Switch),
        (call("switch", vec![id("a"), call("case", vec![id("b"), id("c")])]), Form::Switch),
        (call("switch", vec![id("a"), id("b"), id("c")]), Form::Switch),
        (call("switch", vec![id("a"), call("case", vec![id("b")]), id("c")]), Form::Switch),
        (call("let", vec![id("a")]), Form::Let),
        (call("let", vec![Node::Integer(1), id("a")]), Form::Let),
        (call("set", vec![id("a")]), Form::Assign),
        (call("set", vec![text("a"), id("a")]), Form::Assign),
        (call("new", vec![]), Form::New),
        (call("new", vec![text("A")]), Form::New),
        (call("abort", vec![]), Form::Abort),
        (call("fiber", vec![]), Form::Fiber),
        (call("fiber", vec![id("f")]), Form::Fiber),
        (call("fiber", vec![fun("named", vec![], vec![])]), Form::Fiber),
        (call("yield", vec![id("a"), id("b")]), Form::Yield),
        (call("load", vec![]), Form::Load),
        (call("load", vec![id("a")]), Form::Load),
        (call("class", vec![]), Form::Class),
        (call("class", vec![text("A")]), Form::Class),
        (call("class", vec![id("$self")]), Form::Class),
        (call("class", vec![id("A"), id("Nowhere")]), Form::Class),
        (call("class", vec![id("A"), id("A")]), Form::Class),
        (call("class", vec![id("A"), call("f", vec![])]), Form::Class),
        (call("class", vec![id("A"), Node::Integer(1)]), Form::Class),
        (call("class", vec![id("A"), call("let", vec![id("x")])]), Form::Let),
        (call("class", vec![id("A"), fun("", vec![], vec![])]), Form::Function),
        (call("f", vec![fun("named", vec![], vec![])]), Form::Function),
        (fun("", vec![], vec![]), Form::Function),
        (fun("f", vec![param_with("a", Node::Null), param("b")], vec![]), Form::Function),
    ];
    for (node, form) in cases {
        assert_eq!(error_of(vec![node]), CompileError::Malformed(form));
    }
}

#[test]
fn load_with_a_malformed_import_is_reported() {
    let units = vec![unit("main", vec![call("load", vec![text("lib"), Node::Integer(1)])]), unit("lib", vec![])];
    assert_eq!(Emitter::parse_root(&units, 0).err(), Some(CompileError::Malformed(Form::Load)));
    let units = vec![unit("main", vec![call("load", vec![text("lib"), call("a", vec![])])]), unit("lib", vec![])];
    assert_eq!(Emitter::parse_root(&units, 0).err(), Some(CompileError::Malformed(Form::Load)));
}

#[test]
fn super_outside_a_method_is_unresolved() {
    assert_eq!(error_of(vec![call("super", vec![])]), CompileError::UnresolvedSuper);
    assert_eq!(
        error_of(vec![fun("f", vec![], vec![call("super", vec![])])]),
        CompileError::UnresolvedSuper
    );
}

#[test]
fn super_in_a_class_without_parent_is_unresolved() {
    assert_eq!(
        error_of(vec![call("class", vec![id("A"), fun("m", vec![], vec![call("super", vec![])])])]),
        CompileError::UnresolvedSuper
    );
}

#[test]
fn super_with_too_many_arguments_is_an_arity_mismatch() {
    assert_eq!(
        error_of(vec![
            call("class", vec![id("A")]),
            call(
                "class",
                vec![id("B"), id("A"), fun("m", vec![param("a")], vec![call("super", vec![Node::Null, Node::Null])])],
            ),
        ]),
        CompileError::ArityMismatch
    );
}

#[test]
fn nodes_that_are_no_source_are_refused() {
    assert_eq!(error_of(vec![Node::Integer(1)]), CompileError::UnsupportedNode);
    assert_eq!(error_of(vec![id("x")]), CompileError::UnsupportedNode);
    assert_eq!(error_of(vec![call("f", vec![Node::List(vec![])])]), CompileError::UnsupportedNode);
    assert_eq!(
        error_of(vec![call("f", vec![Node::Instance { class: "A".to_string(), fields: vec![] }])]),
        CompileError::UnsupportedNode
    );
    assert_eq!(error_of(vec![call("nth", vec![call("f", vec![]), Node::Null])]), CompileError::UnsupportedNode);
}

fn nulls(n: usize) -> Vec<Node> {
    let mut items = Vec::new();
    for _ in 0..n {
        items.push(Node::Null);
    }
    items
}

#[test]
fn branch_over_more_than_255_instructions_overflows() {
    // a list of n items takes 2 + 2n instructions
    let e = compile(vec![call("if", vec![id("c"), call("list", nulls(126)), call("list", nulls(126))])])
        .unwrap();
    let code = main_code(&e);
    // the first arm and its jump: 255 instructions
    assert_eq!(&code[3..5], &[26, 255]);
    let arm = 3 + 4 + 126 * 6;
    assert_eq!(count_opcodes(&code[5..5 + arm]), Some(254));
    assert_eq!(&code[5 + arm..5 + arm + 2], &[27, 254]);
    let first_too_long = call("if", vec![id("c"), call("list", nulls(127)), Node::Null]);
    assert_eq!(error_of(vec![first_too_long]), CompileError::CapacityOverflow);
    let second_too_long = call("if", vec![id("c"), Node::Null, call("list", nulls(127))]);
    assert_eq!(error_of(vec![second_too_long]), CompileError::CapacityOverflow);
    let body_too_long = call("while", vec![id("c"), call("list", nulls(126))]);
    assert_eq!(error_of(vec![body_too_long]), CompileError::CapacityOverflow);
    let body_fits = call("while", vec![id("c"), call("list", nulls(125))]);
    let e = compile(vec![body_fits]).unwrap();
    let code = main_code(&e);
    // condition, not, branch over the 252 instructions of the body and the loop
    assert_eq!(&code[0..6], &[17, 1, 0, 11, 26, 253]);
    assert_eq!(&code[code.len() - 7..], &[20, 255, 10, 16, 2, 1, 1]);
}

#[test]
fn more_than_255_arguments_overflow() {
    // a receiver and 255 arguments
    let mut args = Vec::new();
    for _ in 0..256 {
        args.push(Node::Null);
    }
    let e = compile(vec![call("f", args)]).unwrap();
    let code = main_code(&e);
    assert_eq!(&code[code.len() - 8..], &[19, 1, 0, 255, 16, 2, 1, 1]);
    let mut args = Vec::new();
    for _ in 0..257 {
        args.push(Node::Null);
    }
    assert_eq!(error_of(vec![call("f", args)]), CompileError::CapacityOverflow);
    // a function of the module takes all the arguments
    let mut params = Vec::new();
    let mut args = Vec::new();
    for i in 0..255 {
        params.push(param(&format!("p{}", i)));
        args.push(Node::Null);
    }
    let e = compile(vec![fun("g", params, vec![]), call("g", args)]).unwrap();
    let code = main_code(&e);
    assert_eq!(code[0], 17);
    assert_eq!(code[code.len() - 5], 255);
    // `print` passes all its arguments
    let mut args = Vec::new();
    for _ in 0..255 {
        args.push(Node::Null);
    }
    assert!(compile(vec![call("print", args)]).is_ok());
    let mut args = Vec::new();
    for _ in 0..256 {
        args.push(Node::Null);
    }
    assert_eq!(error_of(vec![call("print", args)]), CompileError::CapacityOverflow);
}

#[test]
fn more_than_255_functions_do_not_fit_the_module() {
    let mut nodes = Vec::new();
    for i in 0..254 {
        nodes.push(fun(&format!("f{}", i), vec![], vec![]));
    }
    let e = compile(nodes).unwrap();
    assert_eq!(e.functions.len(), 255);
    assert!(write_module(&e).is_ok());
    let mut nodes = Vec::new();
    for i in 0..255 {
        nodes.push(fun(&format!("f{}", i), vec![], vec![]));
    }
    let e = compile(nodes).unwrap();
    assert_eq!(write_module(&e).err(), Some(CompileError::CapacityOverflow));
    let mut nodes = Vec::new();
    for i in 0..255 {
        nodes.push(fun(&format!("f{}", i), vec![], vec![]));
    }
    assert_eq!(emit(&vec![unit("main", nodes)], 0).err(), Some(CompileError::CapacityOverflow));
}

#[test]
fn field_default_longer_than_255_bytes_does_not_fit() {
    let mut items = Vec::new();
    for _ in 0..50 {
        items.push(Node::Integer(0));
    }
    let e = compile(vec![call("class", vec![id("A"), call("let", vec![id("x"), call("list", items)])])])
        .unwrap();
    assert!(e.classes[0].fields[0].default.len() > 255);
    assert_eq!(write_module(&e).err(), Some(CompileError::CapacityOverflow));
}

#[test]
fn string_longer_than_65535_bytes_does_not_fit() {
    let long = "a".repeat(65536);
    let e = compile(vec![call("print", vec![text(&long)])]).unwrap();
    assert_eq!(write_module(&e).err(), Some(CompileError::CapacityOverflow));
    let max = "a".repeat(65535);
    let e = compile(vec![call("print", vec![text(&max)])]).unwrap();
    let bytes = write_module(&e).unwrap();
    // the third string of the pool follows "$self" and "print(_)"
    let at = 4 + 1 + 4 + 7 + 10;
    assert_eq!(&bytes[at..at + 3], &[0xff, 0xff, b'a']);
}

#[test]
fn strings_are_written_as_utf8() {
    let e = compile(vec![call("print", vec![text("h\u{e9}")])]).unwrap();
    let bytes = write_module(&e).unwrap();
    let at = 4 + 1 + 4 + 7 + 10;
    assert_eq!(&bytes[at..at + 5], &[3, 0, b'h', 0xc3, 0xa9]);
}

#[test]
fn module_with_classes_is_laid_out_in_declaration_order() {
    let e = compile(vec![
        call("class", vec![id("A"), call("let", vec![id("x"), Node::Null])]),
        call("class", vec![id("B"), id("A")]),
    ]).unwrap();
    let bytes = write_module(&e).unwrap();
    let mut expected: Vec<u8> = Vec::new();
    expected.extend_from_slice(b"ROCK\x01");
    expected.extend_from_slice(&[1, 0, 0, 0, 5, 0]);
    expected.extend_from_slice(b"$self");
    expected.extend_from_slice(&[3, 0, 0, 0]);
    // the module class with main
    expected.extend_from_slice(b"\x05\x00$self\x06\x00Object\x00\x01\x04\x00main\x00\x00\x03\x00\x02\x01\x01");
    // A: one field, the default constructor
    expected.extend_from_slice(b"\x01\x00A\x06\x00Object\x01\x01\x00x\x02\x02\x01\x01\x05\x00new()\x00\x00\x02\x00\x0a\x01");
    // B: no field, the default constructor
    expected.extend_from_slice(b"\x01\x00B\x01\x00A\x00\x01\x05\x00new()\x00\x00\x02\x00\x0a\x01");
    assert_eq!(bytes, expected);
}

#[test]
fn every_function_ends_in_a_return() {
    let e = compile(vec![
        fun("f", vec![param_with("a", Node::Null)], vec![fun("", vec![], vec![id("a")])]),
        call("class", vec![id("A"), fun("m", vec![], vec![call("while", vec![id("true")])])]),
        call("f", vec![]),
    ]).unwrap();
    let mut count = 0;
    for f in e.functions.iter().chain(e.classes.iter().flat_map(|c| c.functions.iter())) {
        assert_eq!(f.code.last(), Some(&1u8));
        assert!(count_opcodes(&f.code).is_some());
        count += 1;
    }
    assert_eq!(count, 6);
}

#[test]
fn more_than_255_fields_do_not_fit_the_module() {
    let mut members = vec![id("A")];
    for i in 0..255 {
        members.push(call("let", vec![id(&format!("f{}", i)), Node::Null]));
    }
    let e = compile(vec![call("class", members)]).unwrap();
    assert_eq!(e.classes[0].fields.len(), 255);
    assert!(write_module(&e).is_ok());
    let mut members = vec![id("A")];
    for i in 0..256 {
        members.push(call("let", vec![id(&format!("f{}", i)), Node::Null]));
    }
    let e = compile(vec![call("class", members)]).unwrap();
    assert_eq!(e.classes[0].fields.len(), 256);
    assert_eq!(write_module(&e).err(), Some(CompileError::CapacityOverflow));
}

#[test]
fn function_code_longer_than_65535_bytes_does_not_fit() {
    // each statement takes 11 bytes: a constant, a call, a pop
    let mut nodes = Vec::new();
    for _ in 0..5957 {
        nodes.push(call("f", vec![Node::Integer(1)]));
    }
    let e = compile(nodes).unwrap();
    assert_eq!(main_code(&e).len(), 5957 * 11 + 3);
    assert!(main_code(&e).len() <= 65535);
    let bytes = write_module(&e).unwrap();
    let at = bytes.len() - main_code(&e).len() - 2;
    assert_eq!(&bytes[at..at + 2], &[0xfa, 0xff]);
    let mut nodes = Vec::new();
    for _ in 0..5958 {
        nodes.push(call("f", vec![Node::Integer(1)]));
    }
    let e = compile(nodes).unwrap();
    assert!(main_code(&e).len() > 65535);
    assert_eq!(write_module(&e).err(), Some(CompileError::CapacityOverflow));
}

#[test]
fn a_getter_on_a_receiver_is_a_bare_name() {
    let e = compile(vec![call("count", vec![id("xs")])]).unwrap();
    assert_eq!(pool(&e), vec!["$self", "count", "xs"]);
    assert_eq!(main_code(&e), vec![17, 2, 0, 19, 1, 0, 0, 16, 2, 1, 1]);
}

#[test]
fn a_call_on_a_receiver_passes_the_other_arguments() {
    let e = compile(vec![call("greet", vec![id("who"), id("a"), id("b")])]).unwrap();
    assert_eq!(pool(&e), vec!["$self", "greet(_,_)", "who", "a", "b"]);
    assert_eq!(main_code(&e), vec![17, 2, 0, 17, 3, 0, 17, 4, 0, 19, 1, 0, 2, 16, 2, 1, 1]);
}

#[test]
fn a_call_on_an_instance_names_the_method_of_its_class() {
    let e = compile(vec![
        call("class", vec![id("A"), fun("describe", vec![], vec![Node::Integer(7)])]),
        call("class", vec![id("B"), id("A")]),
        call("let", vec![id("b"), call("new", vec![id("B")])]),
        call("describe", vec![id("b")]),
    ]).unwrap();
    assert_eq!(e.classes[0].name, "A");
    assert_eq!(e.classes[0].functions[0].selector, "describe()");
    assert_eq!(e.classes[1].name, "B");
    assert_eq!(e.classes[1].parent, "A");
    assert!(e.classes[1].functions.iter().all(|f| f.selector != "describe()"));
    let strings = pool(&e);
    let b = strings.iter().position(|s| s == "b").unwrap() as u8;
    let d = strings.iter().position(|s| s == "describe()").unwrap() as u8;
    assert!(!strings.iter().any(|s| s == "describe(_)"));
    let code = main_code(&e);
    let call_on_b = [17, b, 0, 19, d, 0, 0, 16, 2, 1, 1];
    assert_eq!(&code[code.len() - call_on_b.len()..], &call_on_b);
}

#[test]
fn a_call_without_a_receiver_is_malformed() {
    assert_eq!(error_of(vec![call("f", vec![])]), CompileError::Malformed(Form::Call));
    assert_eq!(error_of(vec![call("count", vec![])]), CompileError::Malformed(Form::Call));
    // a function of the module needs no receiver
    assert!(compile(vec![fun("f", vec![], vec![]), call("f", vec![])]).is_ok());
}

#[test]
fn print_and_write_pass_all_their_arguments() {
    let e = compile(vec![call("write", vec![id("a"), id("b")]), call("print", vec![])]).unwrap();
    assert_eq!(pool(&e), vec!["$self", "write(_,_)", "a", "b", "print()"]);
    assert_eq!(
        main_code(&e),
        vec![17, 2, 0, 17, 3, 0, 19, 1, 0, 2, 16, 19, 4, 0, 0, 16, 2, 1, 1]
    );
}

#[test]
fn print_is_no_call_of_a_function_of_the_module() {
    let e = compile(vec![fun("print", vec![param("a")], vec![]), call("print", vec![Node::Null])]).unwrap();
    assert_eq!(main_code(&e), vec![2, 1, 19, 1, 0, 1, 16, 2, 1, 1]);
}

#[test]
fn a_refused_string_leaves_the_emitter_as_it_was() {
    let mut e = Emitter::new();
    for i in 1..65536 {
        e.pool.strings.push(format!("s{}", i));
    }
    assert_eq!(e.pool.strings.len(), 65536);
    assert_eq!(e.str_push("one more"), Err(CompileError::CapacityOverflow));
    assert_eq!(e.intern("one more"), Err(CompileError::CapacityOverflow));
    assert_eq!(e.pool.strings.len(), 65536);
    assert_eq!(e.pool.strings[0], "$self");
    assert_eq!(e.pool.strings[65535], "s65535");
    assert!(e.functions.is_empty());
    assert!(e.classes.is_empty());
    assert_eq!(e.closure_id, 0);
    assert_eq!(e.str_push("s7"), Ok(()));
    assert_eq!(e.intern("s65535"), Ok(65535));
    assert_eq!(e.pool.strings.len(), 65536);
    assert_eq!(e.parse_constant(&text("one more")).err(), Some(CompileError::CapacityOverflow));
    assert_eq!(e.pool.strings.len(), 65536);
}

#[test]
fn a_node_that_is_no_literal_leaves_the_pool_as_it_was() {
    let nodes = vec![
        id("x"),
        call("f", vec![text("s")]),
        fun("g", vec![], vec![text("t")]),
        Node::List(vec![text("u")]),
        Node::Instance { class: "A".to_string(), fields: vec![] },
    ];
    for node in nodes {
        let mut e = Emitter::new();
        assert_eq!(e.parse_constant(&node).err(), Some(CompileError::UnsupportedNode));
        assert_eq!(pool(&e), vec!["$self"]);
        assert!(e.functions.is_empty());
        assert!(e.classes.is_empty());
        assert_eq!(e.closure_id, 0);
    }
}

#[test]
fn a_refused_super_leaves_emitter_and_context_as_they_were() {
    let mut e = Emitter::new();
    let mut ctx = simple_lisp::scope::Context::top_level();
    let locals = ctx.locals.clone();
    let r = e.parse_call("super", &vec![text("s"), id("x")], &mut ctx, &Vec::new(), &Vec::new());
    assert_eq!(r.err(), Some(CompileError::UnresolvedSuper));
    assert_eq!(pool(&e), vec!["$self"]);
    assert!(e.functions.is_empty());
    assert!(e.classes.is_empty());
    assert_eq!(e.closure_id, 0);
    assert_eq!(ctx.locals, locals);
    assert!(ctx.class_name.is_none());
    assert!(ctx.top_level);
}

#[test]
fn closures_are_filed_under_numbers_of_their_own() {
    let e = compile(vec![
        call("let", vec![id("a"), fun("", vec![], vec![fun("", vec![], vec![Node::Integer(1)])])]),
        call("let", vec![id("b"), fun("", vec![], vec![])]),
        fun("named", vec![], vec![fun("", vec![], vec![])]),
    ]).unwrap();
    let names: Vec<&str> = e.functions.iter().map(|f| f.selector.as_str()).collect();
    assert_eq!(names, vec!["closure#1", "closure#0", "closure#2", "named()", "closure#3", "main"]);
    assert_eq!(e.closure_id, 4);
}
