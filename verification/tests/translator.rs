use simple_lisp::generator::Generator;
use simple_lisp::loader::Unit;
use simple_lisp::node::Node;
use simple_lisp::node::Param;
use simple_lisp::translate::TranslateError;
use simple_lisp::translator::collect_floats;
use simple_lisp::translator::find_float;
use simple_lisp::translator::float_bits;
use simple_lisp::translator::push_cases;
use simple_lisp::translator::push_forwarded;
use simple_lisp::translator::push_number;
use simple_lisp::translator::push_parameters;
use simple_lisp::translator::push_value;

fn tcall(name: &str, args: Vec<Node>) -> Node {
    Node::Call { name: name.to_string(), args }
}

fn tid(name: &str) -> Node {
    Node::Identifier(name.to_string())
}

fn ttext(s: &str) -> Node {
    Node::String(s.to_string())
}

fn tfunction(name: &str, params: Vec<Param>, body: Vec<Node>) -> Node {
    Node::Function { name: name.to_string(), params, body }
}

fn tparam(name: &str, default_value: Option<Node>) -> Param {
    Param { name: name.to_string(), default_value }
}

fn tunit(name: &str, nodes: Vec<Node>) -> Unit {
    Unit { name: name.to_string(), nodes }
}

fn text_of(g: &mut Generator, node: Node) -> Result<String, TranslateError> {
    g.generate_node(&node, &Vec::new(), &Vec::new(), &Vec::new())
}

fn failure(r: Result<String, TranslateError>) -> TranslateError {
    match r {
        Ok(text) => panic!("translated to {}", text),
        Err(e) => e,
    }
}

const PREAMBLE_HEAD: &str = "if (args1.size() > 0 && args1[0].is_instance()) {\nauto obj = args1[0].as_instance();\nauto new_args = std::vector<Value> { args1.begin() + 1, args1.end() };\nreturn obj->func_";

#[test]
fn numbers_are_written_in_decimal() {
    for i in [0, 7, 10, -1, 42, -2147483648, 2147483647, 1000000] {
        let mut out = String::from("n=");
        push_number(&mut out, i);
        assert_eq!(out, format!("n={}", i));
    }
}

#[test]
fn literals_as_expressions() {
    let mut g = Generator::new();
    assert_eq!(text_of(&mut g, Node::Integer(-12)).unwrap(), "-12");
    assert_eq!(text_of(&mut g, ttext("hi")).unwrap(), "\"hi\"s");
    assert_eq!(text_of(&mut g, tid("counter")).unwrap(), "counter");
    assert_eq!(text_of(&mut g, tid("this")).unwrap(), "shared_from_this()");
}

#[test]
fn nodes_without_an_expression_are_refused() {
    let mut g = Generator::new();
    assert_eq!(failure(text_of(&mut g, Node::Null)), TranslateError::UnsupportedNode);
    assert_eq!(failure(text_of(&mut g, Node::Bool(true))), TranslateError::UnsupportedNode);
    assert_eq!(failure(text_of(&mut g, Node::List(vec![]))), TranslateError::UnsupportedNode);
}

#[test]
fn a_float_is_written_with_the_text_it_was_given() {
    let bits = 1.5f32.to_bits();
    let floats = vec![(2.25f32.to_bits(), "2.25".to_string()), (bits, "1.5".to_string())];
    assert_eq!(find_float(&floats, bits), Some(1));
    assert_eq!(find_float(&floats, 0), None);
    let mut g = Generator::new();
    let node = tcall("+", vec![Node::Float(bits), Node::Float(2.25f32.to_bits())]);
    assert_eq!(g.generate_node(&node, &Vec::new(), &floats, &Vec::new()).unwrap(), "(1.5 + 2.25)");
    assert_eq!(
        failure(g.generate_node(&Node::Float(7), &Vec::new(), &floats, &Vec::new())),
        TranslateError::UnknownFloat
    );
}

#[test]
fn the_first_text_of_a_float_counts() {
    let floats = vec![(5, "first".to_string()), (5, "second".to_string())];
    let mut g = Generator::new();
    assert_eq!(g.generate_node(&Node::Float(5), &Vec::new(), &floats, &Vec::new()).unwrap(), "first");
}

#[test]
fn values_of_the_target_language() {
    let floats = vec![(3, "0.5".to_string())];
    let cases: Vec<(Node, &str)> = vec![
        (Node::Integer(3), "Value(3)"),
        (Node::Integer(-3), "Value(-3)"),
        (Node::Float(3), "Value(0.5)"),
        (Node::Bool(true), "Value(true)"),
        (Node::Bool(false), "Value(false)"),
        (ttext("a b"), "Value(\"a b\")"),
        (Node::Null, "Value()"),
        (tid("x"), "Value(x)"),
    ];
    for (node, expected) in cases {
        let mut out = String::from("> ");
        assert_eq!(push_value(&mut out, &floats, &node), Ok(()));
        assert_eq!(out, format!("> {}", expected));
    }
    let mut out = String::new();
    assert_eq!(push_value(&mut out, &floats, &tcall("f", vec![])), Err(TranslateError::Unprintable));
    assert_eq!(push_value(&mut out, &floats, &Node::Float(4)), Err(TranslateError::UnknownFloat));
}

#[test]
fn a_call_of_a_known_function() {
    let mut g = Generator::new();
    assert_eq!(
        text_of(&mut g, tcall("print", vec![ttext("hi"), Node::Integer(2)])).unwrap(),
        "func_print({Value(\"hi\"s), Value(2)})"
    );
    assert_eq!(text_of(&mut g, tcall("read", vec![])).unwrap(), "func_read({})");
}

#[test]
fn a_call_of_a_variable() {
    let mut g = Generator::new();
    assert_eq!(
        text_of(&mut g, tcall("my-callback", vec![tid("x")])).unwrap(),
        "my_callback.as_func()({Value(x)})"
    );
    assert_eq!(g.converted_names, vec![("my_callback".to_string(), "my-callback".to_string())]);
}

#[test]
fn operators_chain_their_operands() {
    let mut g = Generator::new();
    assert_eq!(
        text_of(&mut g, tcall("+", vec![Node::Integer(1), Node::Integer(-2), tid("n")])).unwrap(),
        "(1 + -2 + n)"
    );
    assert_eq!(text_of(&mut g, tcall("=", vec![tid("a"), tid("b")])).unwrap(), "(a == b)");
    assert_eq!(text_of(&mut g, tcall("<=", vec![tid("a")])).unwrap(), "(a)");
    for op in ["<", ">", "+", "<=", ">=", "*", "-", "/"] {
        assert_eq!(
            text_of(&mut g, tcall(op, vec![tid("a"), tid("b")])).unwrap(),
            format!("(a {} b)", op)
        );
    }
    assert_eq!(failure(text_of(&mut g, tcall("+", vec![]))), TranslateError::Malformed);
}

#[test]
fn named_binary_forms() {
    let mut g = Generator::new();
    assert_eq!(text_of(&mut g, tcall("lt", vec![tid("a"), Node::Integer(1)])).unwrap(), "a < 1");
    assert_eq!(text_of(&mut g, tcall("eq", vec![tid("a"), Node::Integer(1)])).unwrap(), "a == 1");
    assert_eq!(text_of(&mut g, tcall("add", vec![tid("a"), Node::Integer(1)])).unwrap(), "a + 1");
    assert_eq!(text_of(&mut g, tcall("sub", vec![tid("a"), Node::Integer(1)])).unwrap(), "a - 1");
    assert_eq!(failure(text_of(&mut g, tcall("sub", vec![tid("a")]))), TranslateError::Malformed);
}

#[test]
fn let_and_set() {
    let mut g = Generator::new();
    assert_eq!(text_of(&mut g, tcall("let", vec![tid("my-x"), Node::Integer(1)])).unwrap(), "Value my_x = 1");
    assert_eq!(text_of(&mut g, tcall("set", vec![tid("my-x"), Node::Integer(2)])).unwrap(), "my_x = 2");
    assert_eq!(g.depth, 0);
    assert_eq!(g.inside_expression, 0);
    assert_eq!(failure(text_of(&mut g, tcall("let", vec![tid("x")]))), TranslateError::Malformed);
    assert_eq!(
        failure(text_of(&mut g, tcall("let", vec![Node::Integer(1), Node::Integer(1)]))),
        TranslateError::Malformed
    );
    assert_eq!(failure(text_of(&mut g, tcall("set", vec![ttext("x"), Node::Integer(1)]))), TranslateError::Malformed);
}

#[test]
fn a_let_in_a_class_ends_its_line() {
    let mut g = Generator::new();
    g.current_class = Some("A".to_string());
    assert_eq!(text_of(&mut g, tcall("let", vec![tid("x"), Node::Integer(1)])).unwrap(), "Value x = 1;\n");
}

#[test]
fn a_named_function_in_an_expression_is_refused() {
    let mut g = Generator::new();
    let node = tcall("let", vec![tid("f"), tfunction("inner", vec![], vec![])]);
    assert_eq!(failure(text_of(&mut g, node)), TranslateError::NestedNamedFunction);
}

#[test]
fn a_while_loop() {
    let mut g = Generator::new();
    let node = tcall(
        "while",
        vec![
            tcall("<", vec![tid("i"), Node::Integer(3)]),
            tcall("print", vec![tid("i")]),
            tcall("set", vec![tid("i"), tcall("+", vec![tid("i"), Node::Integer(1)])]),
        ],
    );
    assert_eq!(
        text_of(&mut g, node).unwrap(),
        "[=]() mutable {\nValue ret1;\nwhile ((i < 3)) {\nfunc_print({Value(i)});\nret1 = i = (i + 1);\n}\nreturn ret1;\n}()"
    );
    assert_eq!(failure(text_of(&mut g, tcall("while", vec![]))), TranslateError::Malformed);
}

#[test]
fn a_loop_that_ends_in_a_plain_value_leaves_it_out() {
    let mut g = Generator::new();
    let node = tcall("while", vec![tid("go"), tcall("step", vec![]), tid("x")]);
    assert_eq!(
        text_of(&mut g, node).unwrap(),
        "[=]() mutable {\nValue ret1;\nwhile (go) {\nstep.as_func()({});\n}\nreturn ret1;\n}()"
    );
}

#[test]
fn an_if_returns_from_both_arms() {
    let mut g = Generator::new();
    let node = tcall("if", vec![tid("c"), Node::Integer(1), tcall("return", vec![Node::Integer(2)])]);
    assert_eq!(
        text_of(&mut g, node).unwrap(),
        "[=]() mutable -> Value {\nif (c) {\nreturn 1;\n} else {\nreturn 2}\n}()"
    );
    g.current_class = Some("A".to_string());
    let node = tcall("if", vec![tid("c"), Node::Integer(1), Node::Integer(2)]);
    assert_eq!(
        text_of(&mut g, node).unwrap(),
        "[=, this]() mutable -> Value {\nif (c) {\nreturn 1;\n} else {\nreturn 2;\n}\n}()"
    );
    assert_eq!(
        failure(text_of(&mut g, tcall("if", vec![tid("c"), Node::Integer(1)]))),
        TranslateError::Malformed
    );
}

#[test]
fn a_return() {
    let mut g = Generator::new();
    assert_eq!(text_of(&mut g, tcall("return", vec![tid("x")])).unwrap(), "return x");
    assert_eq!(failure(text_of(&mut g, tcall("return", vec![]))), TranslateError::Malformed);
}

#[test]
fn a_list() {
    let mut g = Generator::new();
    assert_eq!(
        text_of(&mut g, tcall("list", vec![Node::Integer(1), ttext("b")])).unwrap(),
        "[=]() mutable -> Value {\nstd::vector<Value> ret1;\nret1.emplace_back(1);\nret1.emplace_back(\"b\"s);\nreturn ret1;\n}()"
    );
    assert_eq!(
        text_of(&mut g, tcall("list", vec![])).unwrap(),
        "[=]() mutable -> Value {\nstd::vector<Value> ret1;\nreturn ret1;\n}()"
    );
}

#[test]
fn a_block_gives_the_value_of_its_last_call() {
    let mut g = Generator::new();
    let node = tcall("block", vec![tcall("set", vec![tid("a"), Node::Integer(1)]), tcall("let", vec![tid("b"), tid("a")])]);
    assert_eq!(
        text_of(&mut g, node).unwrap(),
        "[=]() mutable -> Value {\nValue ret1;\na = 1;\nValue b = a;\nret1 = Value(a);\nreturn ret1;\n}()"
    );
    assert_eq!(
        text_of(&mut g, tcall("block", vec![])).unwrap(),
        "[=]() mutable -> Value {\nValue ret1;\nreturn ret1;\n}()"
    );
}

#[test]
fn a_dump() {
    let mut g = Generator::new();
    let node = tcall("dump", vec![tid("my-x"), Node::Integer(3)]);
    assert_eq!(
        text_of(&mut g, node).unwrap(),
        "[=]() mutable -> Value {\nValue arg_tmp_0 = my_x;\nValue arg_tmp_1 = 3;\nstd::cout << Value(arg_tmp_0).get_type() << \": \" << arg_tmp_0 << Value(arg_tmp_1).get_type() << \": \" << arg_tmp_1 << \"\\n\";\nreturn Value();\n}()"
    );
}

#[test]
fn an_applied_function() {
    let mut g = Generator::new();
    assert_eq!(
        text_of(&mut g, tcall("call", vec![tid("f"), Node::Integer(1), tid("x")])).unwrap(),
        "f(1, x)"
    );
    assert_eq!(text_of(&mut g, tcall("call", vec![tid("f")])).unwrap(), "f()");
    assert_eq!(failure(text_of(&mut g, tcall("call", vec![]))), TranslateError::Malformed);
}

#[test]
fn a_switch_tests_its_cases_in_turn() {
    let mut g = Generator::new();
    let node = tcall(
        "switch",
        vec![tid("x"), Node::Integer(1), ttext("one"), Node::Integer(2), ttext("two"), ttext("many")],
    );
    assert_eq!(
        text_of(&mut g, node).unwrap(),
        "[=]() mutable -> Value {\nValue test1 = x;\nif (test1 == Value(1)) {\nreturn Value(\"one\");\n}\nif (test1 == Value(2)) {\nreturn Value(\"two\");\n}\nreturn Value(\"many\");\n}()"
    );
    let mut out = String::new();
    let args = vec![tid("x"), Node::Integer(1), ttext("one"), ttext("rest")];
    assert_eq!(push_cases(&mut out, &Vec::new(), &args, 1), Ok(()));
    assert_eq!(out, "if (test1 == Value(1)) {\nreturn Value(\"one\");\n}\n");
    assert_eq!(failure(text_of(&mut g, tcall("switch", vec![]))), TranslateError::Malformed);
    assert_eq!(
        failure(text_of(&mut g, tcall("switch", vec![tid("x"), tcall("f", vec![])]))),
        TranslateError::Unprintable
    );
}

#[test]
fn a_new_instance() {
    let mut g = Generator::new();
    assert_eq!(
        text_of(&mut g, tcall("new", vec![tid("Point"), Node::Integer(1), Node::Integer(2)])).unwrap(),
        "Value(new Point(1, 2))"
    );
    assert_eq!(text_of(&mut g, tcall("new", vec![tid("Point")])).unwrap(), "Value(new Point())");
    assert_eq!(failure(text_of(&mut g, tcall("new", vec![ttext("Point")]))), TranslateError::Malformed);
}

#[test]
fn parameters_with_and_without_defaults() {
    let mut out = String::new();
    let params = vec![tparam("a", None), tparam("b", Some(Node::Integer(5)))];
    assert_eq!(push_parameters(&mut out, &Vec::new(), &params), Ok(()));
    assert_eq!(
        out,
        "Value a = args1[0];\nValue b;\nif (1 < args1.size()) {\nb = args1[1];\n} else {\nb = Value(5);\n}\n"
    );
    let params = vec![tparam("a", Some(tcall("f", vec![])))];
    assert_eq!(push_parameters(&mut out, &Vec::new(), &params), Err(TranslateError::Unprintable));
}

#[test]
fn a_function_of_the_program() {
    let mut g = Generator::new();
    let node = tfunction(
        "add-one",
        vec![tparam("n", None)],
        vec![tcall("print", vec![tid("n")]), tcall("+", vec![tid("n"), Node::Integer(1)])],
    );
    let expected = format!(
        "Value func_add_one(std::vector<Value> args1) {{\n{}add_one(new_args);\n}}\n\nValue n = args1[0];\nValue ret1;\nfunc_print({{Value(n)}});\nret1 = (n + 1);\nreturn ret1;\n}}\n",
        PREAMBLE_HEAD
    );
    assert_eq!(text_of(&mut g, node).unwrap(), expected);
    assert_eq!(g.functions_names, vec!["print", "write", "add_one"]);
    assert_eq!(g.class_functions_names, vec!["read", "add_one"]);
    assert_eq!(g.depth, 0);
    assert_eq!(g.current_method, None);
}

#[test]
fn a_function_without_a_name_is_a_value() {
    let mut g = Generator::new();
    let node = tcall("let", vec![tid("f"), tfunction("", vec![], vec![tid("x")])]);
    let expected = format!(
        "Value f = (Value::Function([=](std::vector<Value> args1) mutable -> Value {{\n{}(new_args);\n}}\n\nValue ret1;\nret1 = x;\nreturn ret1;\n}}))\n",
        PREAMBLE_HEAD
    );
    assert_eq!(text_of(&mut g, node).unwrap(), expected);
}

#[test]
fn a_function_that_ends_in_a_let_returns_what_it_bound() {
    let mut g = Generator::new();
    g.current_class = Some("A".to_string());
    let node = tfunction("get", vec![], vec![tcall("let", vec![tid("v"), Node::Integer(4)])]);
    assert_eq!(
        text_of(&mut g, node).unwrap(),
        "Value func_get(std::vector<Value> args1) override {\nValue ret1;\nValue v = 4;\n;\nret1 = Value(4);\nreturn ret1;\n}\n"
    );
    assert_eq!(g.functions_names, vec!["print", "write"]);
    assert_eq!(g.class_functions_names, vec!["read", "get"]);
}

#[test]
fn a_method_call_forwards_the_remaining_parameters() {
    let names: Vec<String> = vec!["a".to_string(), "b".to_string(), "c".to_string()];
    let mut out = String::new();
    push_forwarded(&mut out, &names, 1, false);
    assert_eq!(out, ", b, c");
    let mut out = String::new();
    push_forwarded(&mut out, &names, 0, true);
    assert_eq!(out, "a, b, c");
    let mut out = String::new();
    push_forwarded(&mut out, &names, 3, true);
    assert_eq!(out, "");
}

#[test]
fn a_class_goes_to_the_headers() {
    let mut g = Generator::new();
    let shape = tcall(
        "class",
        vec![tid("Shape"), tfunction("area", vec![tparam("scale", None)], vec![Node::Integer(0)])],
    );
    assert_eq!(text_of(&mut g, shape).unwrap(), "");
    assert_eq!(
        g.headers,
        vec!["class Shape : public SimpleListObject {\npublic:\n   virtual const char* name() const override { return \"Shape\"; };\nValue func_area(std::vector<Value> args1) override {\nValue scale = args1[0];\nValue ret1;\nret1 = 0;\nreturn ret1;\n}\n\n};\n\n"]
    );
    assert_eq!(g.classes, vec![("Shape".to_string(), "SimpleListObject".to_string())]);
    assert_eq!(g.current_class, None);
    assert_eq!(g.class_functions_names, vec!["read", "area"]);
    assert_eq!(g.functions_names, vec!["print", "write"]);

    let square = tcall(
        "class",
        vec![
            tid("Square"),
            tid("Shape"),
            tfunction("area", vec![tparam("scale", None)], vec![tcall("super", vec![])]),
        ],
    );
    assert_eq!(text_of(&mut g, square).unwrap(), "");
    assert_eq!(
        g.headers[1],
        "class Square : public Shape {\npublic:\n   virtual const char* name() const override { return \"Square\"; };\nValue func_area(std::vector<Value> args1) override {\nValue scale = args1[0];\nValue ret1;\nret1 = Shape::func_area({scale});\nreturn ret1;\n}\n\n};\n\n"
    );
    assert_eq!(
        g.classes,
        vec![
            ("Shape".to_string(), "SimpleListObject".to_string()),
            ("Square".to_string(), "Shape".to_string())
        ]
    );
}

#[test]
fn a_call_in_a_method_is_qualified() {
    let mut g = Generator::new();
    let node = tcall(
        "class",
        vec![tid("A"), tfunction("show", vec![tparam("x", None), tparam("y", None)], vec![tcall("print", vec![tid("x")])])],
    );
    assert_eq!(text_of(&mut g, node).unwrap(), "");
    assert!(g.headers[0].contains("ret1 = ::func_print({Value(x), y});\n"));
}

#[test]
fn super_outside_a_method_is_refused() {
    let mut g = Generator::new();
    assert_eq!(failure(text_of(&mut g, tcall("super", vec![]))), TranslateError::UnresolvedSuper);
    g.current_class = Some("A".to_string());
    g.current_method = Some("m".to_string());
    assert_eq!(failure(text_of(&mut g, tcall("super", vec![]))), TranslateError::UnresolvedSuper);
}

#[test]
fn a_class_needs_a_name() {
    let mut g = Generator::new();
    assert_eq!(failure(text_of(&mut g, tcall("class", vec![tid("A")]))), TranslateError::Malformed);
    assert_eq!(
        failure(text_of(&mut g, tcall("class", vec![ttext("A"), tfunction("m", vec![], vec![])]))),
        TranslateError::Malformed
    );
}

#[test]
fn a_load_translates_the_other_unit_in_place() {
    let units = vec![
        tunit("main", vec![tcall("load", vec![ttext("lib")]), tcall("helper", vec![])]),
        tunit("lib", vec![tfunction("helper", vec![], vec![]), tcall("print", vec![ttext("in lib")])]),
    ];
    let mut g = Generator::new();
    let text = g.generate(&units, 0, &Vec::new()).unwrap();
    assert_eq!(
        g.main,
        vec!["[=]() mutable -> Value {\nfunc_print({Value(\"in lib\"s)});\n}();\nfunc_helper({});\n"]
    );
    assert_eq!(g.functions.len(), 1);
    assert!(g.functions[0].starts_with("Value func_helper(std::vector<Value> args1) {\n"));
    assert!(text.ends_with("int main() {\n[=]() mutable -> Value {\nfunc_print({Value(\"in lib\"s)});\n}();\nfunc_helper({});\nreturn 0;\n}\n"));
    assert_eq!(text, g.assemble());
}

#[test]
fn loads_that_cannot_be_followed() {
    let mut g = Generator::new();
    let units = vec![tunit("main", vec![tcall("load", vec![ttext("gone")])])];
    assert_eq!(failure(g.generate(&units, 0, &Vec::new())), TranslateError::MissingModule);
    let mut g = Generator::new();
    let units = vec![
        tunit("a", vec![tcall("load", vec![ttext("b")])]),
        tunit("b", vec![tcall("load", vec![ttext("a")])]),
    ];
    assert_eq!(failure(g.generate(&units, 0, &Vec::new())), TranslateError::CircularLoad);
    let mut g = Generator::new();
    let units = vec![tunit("a", vec![tcall("load", vec![ttext("a")])])];
    assert_eq!(failure(g.generate(&units, 0, &Vec::new())), TranslateError::CircularLoad);
    let mut g = Generator::new();
    assert_eq!(failure(g.generate(&units, 1, &Vec::new())), TranslateError::MissingModule);
    let mut g = Generator::new();
    let units = vec![tunit("a", vec![tcall("load", vec![tid("a")])])];
    assert_eq!(failure(g.generate(&units, 0, &Vec::new())), TranslateError::Malformed);
}

#[test]
fn a_unit_may_be_loaded_twice() {
    let units = vec![
        tunit("main", vec![tcall("load", vec![ttext("lib")]), tcall("load", vec![ttext("lib")])]),
        tunit("lib", vec![tcall("print", vec![Node::Integer(1)])]),
    ];
    let mut g = Generator::new();
    assert!(g.generate(&units, 0, &Vec::new()).is_ok());
    let once = "[=]() mutable -> Value {\nfunc_print({Value(1)});\n}();\n";
    assert_eq!(g.main, vec![format!("{}{}", once, once)]);
}

#[test]
fn a_whole_program() {
    let units = vec![tunit(
        "main",
        vec![
            tcall("let", vec![tid("total"), Node::Integer(0)]),
            tfunction("bump", vec![], vec![tcall("set", vec![tid("total"), tcall("+", vec![tid("total"), Node::Integer(1)])])]),
            tcall("bump", vec![]),
            tid("total"),
        ],
    )];
    let mut g = Generator::new();
    let text = g.generate(&units, 0, &Vec::new()).unwrap();
    assert_eq!(g.headers, vec!["Value total;\n"]);
    assert_eq!(g.main, vec!["total = 0;\nfunc_bump({});\ntotal;\n"]);
    assert_eq!(g.functions_names, vec!["print", "write", "bump"]);
    let function = format!(
        "Value func_bump(std::vector<Value> args1) {{\n{}bump(new_args);\n}}\n\nValue ret1;\nret1 = total = (total + 1);\nreturn ret1;\n}}\n",
        PREAMBLE_HEAD
    );
    assert_eq!(g.functions, vec![function.clone()]);
    let mut expected = String::from("#include \"simplelisp.h\"\n\nclass SimpleListObject : public std::enable_shared_from_this<SimpleListObject> {\npublic:\n    virtual ~SimpleListObject() = default;\n    virtual const char* name() const = 0;\n");
    for name in ["read", "bump"] {
        expected.push_str(&format!(
            "    virtual Value func_{0}(std::vector<Value> args1) {{ throw std::string(\"class '\") + name() + \"' does not implement '{0}'\"; }}\n",
            name
        ));
    }
    expected.push_str("};\n\n#include \"simplelisp-api.h\"\n\n");
    for name in ["print", "write", "bump", "read"] {
        expected.push_str(&format!("Value func_{}(std::vector<Value> args1);\n", name));
    }
    expected.push_str("\nValue total;\n\n");
    expected.push_str(&function);
    expected.push_str("\n");
    expected.push_str("Value func_read(std::vector<Value> args1) {\nif (args1[0].is_instance()) {\nauto obj = args1[0].as_instance();\nauto new_args = std::vector<Value> { args1.begin() + 1, args1.end() };\nreturn obj->func_read(new_args);\n}\n\nstd::cerr << \"function 'read' exists only as a class function.\";\nstd::exit(1);\n}\n");
    expected.push_str("int main() {\ntotal = 0;\nfunc_bump({});\ntotal;\nreturn 0;\n}\n");
    assert_eq!(text, expected);
}

#[test]
fn a_translation_needs_an_open_file() {
    let units = vec![tunit("main", vec![tcall("print", vec![])])];
    let mut g = Generator::new();
    g.main.clear();
    assert_eq!(failure(g.generate(&units, 0, &Vec::new())), TranslateError::NoOpenFile);
    let mut g = Generator::new();
    g.main.clear();
    assert_eq!(g.state("x;\n"), Err(TranslateError::NoOpenFile));
    let mut g = Generator::new();
    assert_eq!(g.state("x;\n"), Ok(()));
    assert_eq!(g.state("y;\n"), Ok(()));
    assert_eq!(g.main, vec!["x;\ny;\n"]);
}

#[test]
fn the_depth_has_an_end() {
    let mut g = Generator::new();
    g.depth = isize::MAX;
    assert_eq!(g.deepen(), Err(TranslateError::TooDeep));
    assert_eq!(g.rise(), Ok(()));
    assert_eq!(g.depth, isize::MAX - 1);
    g.depth = isize::MIN;
    assert_eq!(g.rise(), Err(TranslateError::TooDeep));
    assert_eq!(g.deepen(), Ok(()));
    assert_eq!(g.depth, isize::MIN + 1);
}

#[test]
fn the_floats_of_the_units_in_the_order_of_the_text() {
    let units = vec![
        tunit(
            "a",
            vec![
                Node::Float(1),
                tcall("f", vec![Node::Float(2), tcall("g", vec![Node::Float(3)])]),
                tfunction("h", vec![tparam("p", Some(Node::Float(4))), tparam("q", None)], vec![Node::Float(5)]),
            ],
        ),
        tunit("b", vec![Node::Integer(9), Node::Float(1)]),
    ];
    assert_eq!(float_bits(&units), vec![1, 2, 3, 4, 5, 1]);
    assert_eq!(float_bits(&Vec::new()), Vec::<u32>::new());
    let mut out = vec![7];
    collect_floats(&Node::List(vec![Node::Float(8)]), &mut out);
    assert_eq!(out, vec![7]);
}

#[test]
fn the_floats_of_the_units_are_all_that_a_translation_asks_for() {
    let units = vec![
        tunit(
            "main",
            vec![
                tcall("load", vec![ttext("lib")]),
                tcall("print", vec![Node::Float(1.5f32.to_bits())]),
                tcall("switch", vec![tid("x"), Node::Float(2.5f32.to_bits()), Node::Integer(1), Node::Float(0.25f32.to_bits())]),
            ],
        ),
        tunit(
            "lib",
            vec![tfunction("scale", vec![tparam("by", Some(Node::Float(10.0f32.to_bits())))], vec![tid("by")])],
        ),
    ];
    let floats: Vec<(u32, String)> =
        float_bits(&units).into_iter().map(|bits| (bits, format!("{}", f32::from_bits(bits)))).collect();
    assert_eq!(floats.len(), 4);
    let mut g = Generator::new();
    let text = g.generate(&units, 0, &floats).unwrap();
    assert!(text.contains("func_print({Value(1.5)})"));
    assert!(text.contains("if (test1 == Value(2.5)) {\nreturn Value(1);\n}\nreturn Value(0.25);\n"));
    assert!(text.contains("by = Value(10);\n"));
    assert_eq!(g.main.len(), 1);
    let mut g = Generator::new();
    assert_eq!(failure(g.generate(&units, 0, &floats[1..].to_vec())), TranslateError::UnknownFloat);
}
