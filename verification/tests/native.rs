use simple_lisp::lower::node_to_ast;
use simple_lisp::lower::Ast;
use simple_lisp::lower::NativeError;
use simple_lisp::native::compile;
use simple_lisp::native::infer_type;
use simple_lisp::native::Compiler;
use simple_lisp::native::VarType;
use simple_lisp::node::Node;
use simple_lisp::node::Param;

fn ncall(name: &str, args: Vec<Node>) -> Node {
    Node::Call { name: name.to_string(), args }
}

fn nid(name: &str) -> Node {
    Node::Identifier(name.to_string())
}

fn ntext(s: &str) -> Node {
    Node::String(s.to_string())
}

fn nfunction(name: &str, params: Vec<&str>, body: Vec<Node>) -> Node {
    Node::Function {
        name: name.to_string(),
        params: params.into_iter().map(|p| Param { name: p.to_string(), default_value: None }).collect(),
        body,
    }
}

fn lowering_error(node: Node) -> NativeError {
    match node_to_ast(&node) {
        Ok(ast) => panic!("lowered to {:?}", ast),
        Err(e) => e,
    }
}

fn refusal(nodes: Vec<Node>) -> NativeError {
    match compile(&nodes) {
        Ok(text) => panic!("compiled to {}", text),
        Err(e) => e,
    }
}

#[test]
fn literals_and_names_are_lowered_as_they_are() {
    assert!(matches!(node_to_ast(&Node::Integer(-4)), Ok(Ast::Integer(-4))));
    assert!(matches!(node_to_ast(&Node::Float(9)), Ok(Ast::Float(9))));
    assert!(matches!(node_to_ast(&ntext("a")), Ok(Ast::String(s)) if s == "a"));
    assert!(matches!(node_to_ast(&nid("a")), Ok(Ast::Identifier(s)) if s == "a"));
    assert_eq!(lowering_error(Node::Null), NativeError::Unsupported);
    assert_eq!(lowering_error(Node::Bool(true)), NativeError::Unsupported);
    assert_eq!(lowering_error(nfunction("f", vec![], vec![])), NativeError::Unsupported);
}

#[test]
fn a_let_is_lowered_to_a_declaration() {
    match node_to_ast(&ncall("let", vec![nid("x"), Node::Integer(5)])) {
        Ok(Ast::Let { name, init }) => {
            assert_eq!(name, "x");
            assert!(matches!(*init, Ast::Integer(5)));
        }
        other => panic!("{:?}", other),
    }
    assert_eq!(lowering_error(ncall("let", vec![nid("x")])), NativeError::Malformed);
    assert_eq!(
        lowering_error(ncall("let", vec![nid("x"), Node::Integer(1), Node::Integer(2)])),
        NativeError::Malformed
    );
    assert_eq!(lowering_error(ncall("let", vec![ntext("x"), Node::Integer(1)])), NativeError::Malformed);
    assert_eq!(lowering_error(ncall("let", vec![nid("x"), Node::Null])), NativeError::Unsupported);
}

#[test]
fn a_switch_is_lowered_to_cases_and_a_default() {
    let node = ncall(
        "switch",
        vec![
            nid("x"),
            ncall("case", vec![Node::Integer(1), ntext("one")]),
            ncall("anything", vec![Node::Integer(2), ntext("two")]),
            ntext("many"),
        ],
    );
    match node_to_ast(&node) {
        Ok(Ast::Switch { condition, cases, default }) => {
            assert!(matches!(*condition, Ast::Identifier(ref s) if s == "x"));
            assert_eq!(cases.len(), 2);
            assert!(matches!(cases[0], (Ast::Integer(1), Ast::String(ref s)) if s == "one"));
            assert!(matches!(cases[1], (Ast::Integer(2), Ast::String(ref s)) if s == "two"));
            assert!(matches!(*default, Ast::String(ref s) if s == "many"));
        }
        other => panic!("{:?}", other),
    }
}

#[test]
fn a_switch_needs_a_last_default() {
    assert_eq!(lowering_error(ncall("switch", vec![])), NativeError::Malformed);
    assert_eq!(lowering_error(ncall("switch", vec![nid("x")])), NativeError::Malformed);
    assert_eq!(
        lowering_error(ncall("switch", vec![nid("x"), ncall("case", vec![Node::Integer(1), Node::Integer(2)])])),
        NativeError::Malformed
    );
    assert_eq!(
        lowering_error(ncall("switch", vec![nid("x"), Node::Integer(1), Node::Integer(2)])),
        NativeError::Malformed
    );
    assert_eq!(
        lowering_error(ncall("switch", vec![nid("x"), ncall("case", vec![Node::Integer(1)]), Node::Integer(2)])),
        NativeError::Malformed
    );
    assert_eq!(
        lowering_error(ncall("switch", vec![nid("x"), ncall("case", vec![Node::Null]), Node::Integer(2)])),
        NativeError::Unsupported
    );
}

#[test]
fn a_class_is_lowered_to_fields_and_methods() {
    let node = ncall(
        "class",
        vec![
            nid("Point"),
            ncall("let", vec![nid("x"), Node::Integer(1)]),
            nfunction("get", vec!["a", "b"], vec![nid("a")]),
            ncall("let", vec![nid("y"), ntext("s")]),
        ],
    );
    match node_to_ast(&node) {
        Ok(Ast::Class { name, fields, functions }) => {
            assert_eq!(name, "Point");
            assert_eq!(fields.len(), 2);
            assert_eq!(fields[0].name, "x");
            assert!(matches!(fields[0].value, Ast::Integer(1)));
            assert_eq!(fields[1].name, "y");
            assert_eq!(functions.len(), 1);
            assert_eq!(functions[0].name, "get");
            assert_eq!(functions[0].params.len(), 2);
            assert_eq!(functions[0].params[0].name, "%a");
            assert_eq!(functions[0].params[1].name, "%b");
            assert!(functions[0].params[0].default.is_none());
            assert_eq!(functions[0].body.len(), 1);
        }
        other => panic!("{:?}", other),
    }
    assert_eq!(lowering_error(ncall("class", vec![])), NativeError::Malformed);
    assert_eq!(lowering_error(ncall("class", vec![ntext("A")])), NativeError::Malformed);
    assert_eq!(lowering_error(ncall("class", vec![nid("A"), Node::Integer(1)])), NativeError::Malformed);
    assert_eq!(
        lowering_error(ncall("class", vec![nid("A"), ncall("set", vec![nid("x"), Node::Integer(1)])])),
        NativeError::Malformed
    );
    assert_eq!(
        lowering_error(ncall("class", vec![nid("A"), ncall("let", vec![ntext("x"), Node::Integer(1)])])),
        NativeError::Malformed
    );
    assert_eq!(
        lowering_error(ncall("class", vec![nid("A"), ncall("let", vec![nid("x")])])),
        NativeError::Malformed
    );
}

#[test]
fn add_new_and_calls_are_lowered() {
    assert!(matches!(
        node_to_ast(&ncall("add", vec![Node::Integer(1), Node::Integer(2)])),
        Ok(Ast::Add { .. })
    ));
    assert_eq!(lowering_error(ncall("add", vec![Node::Integer(1)])), NativeError::Malformed);
    assert_eq!(lowering_error(ncall("add", vec![])), NativeError::Malformed);
    assert!(matches!(node_to_ast(&ncall("new", vec![nid("A")])), Ok(Ast::New { class }) if class == "A"));
    assert_eq!(lowering_error(ncall("new", vec![])), NativeError::Malformed);
    assert_eq!(lowering_error(ncall("new", vec![Node::Integer(1)])), NativeError::Malformed);
    match node_to_ast(&ncall("f", vec![Node::Integer(1), nid("b")])) {
        Ok(Ast::Call { name, args }) => {
            assert_eq!(name, "f");
            assert_eq!(args.len(), 2);
        }
        other => panic!("{:?}", other),
    }
    assert_eq!(lowering_error(ncall("f", vec![Node::Integer(1), Node::Null])), NativeError::Unsupported);
}

#[test]
fn the_type_of_a_value() {
    assert!(matches!(infer_type(&Ast::Integer(1)), Ok(VarType::Int)));
    assert!(matches!(infer_type(&Ast::String("s".to_string())), Ok(VarType::String)));
    assert!(matches!(infer_type(&Ast::New { class: "A".to_string() }), Ok(VarType::Struct(c)) if c == "A"));
    let switch = Ast::Switch {
        condition: Box::new(Ast::Integer(0)),
        cases: vec![],
        default: Box::new(Ast::String("d".to_string())),
    };
    assert!(matches!(infer_type(&switch), Ok(VarType::String)));
    assert!(matches!(infer_type(&Ast::Float(1)), Err(NativeError::Unsupported)));
    assert!(matches!(infer_type(&Ast::Identifier("x".to_string())), Err(NativeError::Unsupported)));
}

#[test]
fn an_empty_program_is_an_empty_main() {
    assert_eq!(compile(&vec![]).unwrap(), "export function w $main() {\n@start\n    ret 0\n}\n");
}

#[test]
fn a_global_and_a_print() {
    let nodes = vec![
        ncall("let", vec![nid("x"), Node::Integer(5)]),
        ncall("print", vec![nid("x"), ntext("hi")]),
    ];
    assert_eq!(
        compile(&nodes).unwrap(),
        "data $x = { w 0 }\n\
         export function w $main() {\n@start\n\
         %.0 =w copy 5\nstorew %.0, $x\n\
         %.1 =l call $printf(l $str1, ..., w $x, l $str0)\n\
         \x20   ret 0\n}\n\
         data $str0 = { b \"hi\", b 0 }\n\
         data $str1 = { b \"%d%s\\n\", b 0 }\n"
    );
}

#[test]
fn write_prints_without_a_line_end_and_strings_are_shared() {
    let nodes = vec![
        ncall("write", vec![ntext("%s")]),
        ncall("write", vec![ntext("a")]),
        ncall("print", vec![]),
    ];
    assert_eq!(
        compile(&nodes).unwrap(),
        "export function w $main() {\n@start\n\
         %.0 =l call $printf(l $str0, ..., l $str0)\n\
         %.1 =l call $printf(l $str0, ..., l $str1)\n\
         %.2 =l call $printf(l $str2, ..., )\n\
         \x20   ret 0\n}\n\
         data $str0 = { b \"%s\", b 0 }\n\
         data $str1 = { b \"a\", b 0 }\n\
         data $str2 = { b \"\\n\", b 0 }\n"
    );
}

#[test]
fn numbers_as_arguments_are_copied_to_temporaries() {
    let nodes = vec![ncall("f", vec![Node::Integer(-3), ncall("add", vec![Node::Integer(1), Node::Integer(2)])])];
    assert_eq!(
        compile(&nodes).unwrap(),
        "export function w $main() {\n@start\n\
         %.0 =w copy -3\n\
         %.1 =w add 1, 2\n\
         %.2 =l call $f(w %.0, w %.1)\n\
         \x20   ret 0\n}\n"
    );
}

#[test]
fn a_switch_as_an_argument() {
    let nodes = vec![
        ncall("let", vec![nid("x"), Node::Integer(1)]),
        ncall(
            "print",
            vec![ncall(
                "switch",
                vec![nid("x"), ncall("case", vec![Node::Integer(1), ntext("one")]), ntext("other")],
            )],
        ),
    ];
    assert_eq!(
        compile(&nodes).unwrap(),
        "data $x = { w 0 }\n\
         export function w $main() {\n@start\n\
         %.0 =w copy 1\nstorew %.0, $x\n\
         %.2 =w loadw $x\n\
         %cmp =w ceqw %.2, 1\n\
         jnz %cmp, @switch.3, @switch.3.next\n\
         @switch.3\n\
         %.1 =l copy $str0\n\
         jmp @switch.4\n\
         @switch.3.next\n\
         %.1 =l copy $str1\n\
         @switch.4\n\
         %.5 =l call $printf(l $str2, ..., l %.1)\n\
         \x20   ret 0\n}\n\
         data $str0 = { b \"one\", b 0 }\n\
         data $str1 = { b \"other\", b 0 }\n\
         data $str2 = { b \"%s\\n\", b 0 }\n"
    );
}

#[test]
fn a_class_its_instances_and_its_methods() {
    let nodes = vec![
        ncall(
            "class",
            vec![
                nid("Point"),
                ncall("let", vec![nid("x"), Node::Integer(1)]),
                ncall("let", vec![nid("label"), ntext("p")]),
                nfunction("get", vec!["a"], vec![nid("a")]),
            ],
        ),
        ncall("let", vec![nid("p"), ncall("new", vec![nid("Point")])]),
        ncall("get", vec![nid("p"), Node::Integer(3)]),
    ];
    assert_eq!(
        compile(&nodes).unwrap(),
        "type :Point = { w, l, }\n\
         function w $Point_get(:Point %self, w %a) {\n@start\n\
         \x20   ret 0\n}\n\
         data $p = { l 0 }\n\
         export function w $main() {\n@start\n\
         %.1 =l alloc4 12\n\
         %tmp =l add %.1, 0\nstorew 1, %tmp\n\
         %tmp =l add %.1, 4\nstorel $str0, %tmp\n\
         %.0 =l copy %.1\nstorel %.0, $p\n\
         %.2 =w copy 3\n\
         %.3 =l call $Point_get(l $p, w %.2)\n\
         \x20   ret 0\n}\n\
         data $str0 = { b \"p\", b 0 }\n"
    );
}

#[test]
fn a_later_field_of_the_same_name_takes_the_place_of_the_first() {
    let nodes = vec![
        ncall(
            "class",
            vec![
                nid("A"),
                ncall("let", vec![nid("x"), Node::Integer(1)]),
                ncall("let", vec![nid("y"), Node::Integer(2)]),
                ncall("let", vec![nid("x"), Node::Integer(3)]),
            ],
        ),
        ncall("new", vec![nid("A")]),
    ];
    assert_eq!(
        compile(&nodes).unwrap(),
        "type :A = { w, w, w, }\n\
         export function w $main() {\n@start\n\
         %.0 =l alloc4 12\n\
         %tmp =l add %.0, 8\nstorew 3, %tmp\n\
         %tmp =l add %.0, 4\nstorew 2, %tmp\n\
         \x20   ret 0\n}\n"
    );
}

#[test]
fn what_the_back_end_cannot_compile() {
    assert_eq!(refusal(vec![nid("nowhere")]), NativeError::UnknownVariable);
    assert_eq!(refusal(vec![ncall("new", vec![nid("Nothing")])]), NativeError::UnknownClass);
    assert_eq!(refusal(vec![Node::Float(1)]), NativeError::Unsupported);
    assert_eq!(refusal(vec![ncall("add", vec![Node::Integer(1), Node::Integer(2)])]), NativeError::Unsupported);
    assert_eq!(refusal(vec![ncall("f", vec![ncall("g", vec![])])]), NativeError::Unsupported);
    assert_eq!(refusal(vec![ncall("f", vec![nid("x")])]), NativeError::Unsupported);
    assert_eq!(refusal(vec![ncall("let", vec![nid("x"), nid("y")])]), NativeError::Unsupported);
    assert_eq!(refusal(vec![ncall("let", vec![nid("x")])]), NativeError::Malformed);
    assert_eq!(
        refusal(vec![ncall(
            "class",
            vec![nid("A"), ncall("let", vec![nid("x"), ncall("new", vec![nid("A")])])]
        )]),
        NativeError::Unsupported
    );
    let with_class_value = vec![
        ncall("let", vec![nid("x"), Node::Integer(1)]),
        ncall("f", vec![ncall("add", vec![ncall("class", vec![nid("A")]), Node::Integer(1)])]),
    ];
    assert_eq!(refusal(with_class_value), NativeError::NoValue);
    let new_as_print = vec![
        ncall("class", vec![nid("A")]),
        ncall("let", vec![nid("a"), ncall("new", vec![nid("A")])]),
        ncall("print", vec![nid("a")]),
    ];
    assert_eq!(refusal(new_as_print), NativeError::Unsupported);
}

#[test]
fn a_field_that_starts_with_a_switch_cannot_be_made() {
    let class = ncall(
        "class",
        vec![
            nid("A"),
            ncall("let", vec![nid("x"), ncall("switch", vec![Node::Integer(1), Node::Integer(2)])]),
        ],
    );
    assert_eq!(
        compile(&vec![class]).unwrap(),
        "type :A = { w, }\nexport function w $main() {\n@start\n    ret 0\n}\n"
    );
    let class = ncall(
        "class",
        vec![
            nid("A"),
            ncall("let", vec![nid("x"), ncall("switch", vec![Node::Integer(1), Node::Integer(2)])]),
        ],
    );
    assert_eq!(refusal(vec![class, ncall("new", vec![nid("A")])]), NativeError::Unsupported);
}

#[test]
fn the_temporaries_have_an_end() {
    let mut compiler = Compiler::new();
    compiler.tmp_var_id = u64::MAX - 1;
    assert_eq!(compiler.next_id().unwrap(), format!("%.{}", u64::MAX - 1));
    assert_eq!(compiler.next_id(), Err(NativeError::TooLarge));
    assert_eq!(compiler.tmp_var_id, u64::MAX);
}

#[test]
fn strings_are_numbered_in_the_order_of_their_first_use() {
    let mut compiler = Compiler::new();
    assert_eq!(compiler.try_insert_string("a"), 0);
    assert_eq!(compiler.try_insert_string("b"), 1);
    assert_eq!(compiler.try_insert_string("a"), 0);
    assert_eq!(compiler.strings, vec!["a", "b"]);
}
