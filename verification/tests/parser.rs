use simple_lisp::node::Node;
use simple_lisp::parser::parse_block;
use simple_lisp::parser::parse_expression;
use simple_lisp::parser::parse_function;
use simple_lisp::parser::parse_function_call;
use simple_lisp::parser::parse_identifier;
use simple_lisp::parser::parse_number;
use simple_lisp::parser::parse_parameters;
use simple_lisp::parser::parse_root_expression;
use simple_lisp::parser::Pair;
use simple_lisp::parser::ParseError;
use simple_lisp::parser::Rule;
use simple_lisp::parser::SimpleListParser;
use simple_lisp::emitter::emit;
use simple_lisp::loader::Unit;

fn leaf(rule: Rule, text: &str) -> Pair {
    Pair { rule, text: text.to_string(), inner: vec![], float_bits: 0 }
}

fn ident(text: &str) -> Pair {
    leaf(Rule::Identifier, text)
}

fn number(text: &str) -> Pair {
    leaf(Rule::Number, text)
}

fn string(text: &str) -> Pair {
    leaf(Rule::String, text)
}

fn float(text: &str, value: f32) -> Pair {
    Pair { rule: Rule::Float, text: text.to_string(), inner: vec![], float_bits: value.to_bits() }
}

fn sexp(inner: Vec<Pair>) -> Pair {
    Pair { rule: Rule::Sexp, text: String::new(), inner, float_bits: 0 }
}

fn show(node: &Node) -> String {
    format!("{:?}", node)
}

#[test]
fn numbers_are_decimal_with_an_optional_sign() {
    assert_eq!(parse_number("0"), Some(0));
    assert_eq!(parse_number("42"), Some(42));
    assert_eq!(parse_number("-42"), Some(-42));
    assert_eq!(parse_number("+42"), Some(42));
    assert_eq!(parse_number("007"), Some(7));
    assert_eq!(parse_number("2147483647"), Some(i32::MAX));
    assert_eq!(parse_number("-2147483648"), Some(i32::MIN));
    assert_eq!(parse_number("-0"), Some(0));
    assert_eq!(parse_number("00000000000000000000000001"), Some(1));
}

#[test]
fn numbers_out_of_range_or_malformed_are_refused() {
    assert_eq!(parse_number("2147483648"), None);
    assert_eq!(parse_number("-2147483649"), None);
    assert_eq!(parse_number("99999999999999999999999999"), None);
    assert_eq!(parse_number(""), None);
    assert_eq!(parse_number("-"), None);
    assert_eq!(parse_number("+"), None);
    assert_eq!(parse_number("12a"), None);
    assert_eq!(parse_number("a12"), None);
    assert_eq!(parse_number("1 2"), None);
    assert_eq!(parse_number("--1"), None);
    assert_eq!(parse_number("1.5"), None);
    assert_eq!(parse_number("\u{663}"), None);
}

#[test]
fn expressions_by_rule() {
    assert_eq!(show(&parse_expression(&number("-7")).unwrap()), "Integer(-7)");
    assert_eq!(show(&parse_expression(&ident("x-y")).unwrap()), "Identifier(\"x-y\")");
    assert_eq!(show(&parse_expression(&string("\"hi\"")).unwrap()), "String(\"hi\")");
    assert_eq!(show(&parse_expression(&string("\"\"")).unwrap()), "String(\"\")");
    assert_eq!(show(&parse_expression(&string("\"h\u{e9}\"")).unwrap()), "String(\"h\u{e9}\")");
    assert_eq!(
        show(&parse_expression(&float("1.5", 1.5)).unwrap()),
        format!("Float({})", 1.5f32.to_bits())
    );
    assert_eq!(
        show(&parse_expression(&sexp(vec![ident("f"), number("1")])).unwrap()),
        "Call { name: \"f\", args: [Integer(1)] }"
    );
}

#[test]
fn expressions_that_are_refused() {
    assert_eq!(parse_expression(&number("x")).err(), Some(ParseError::InvalidNumber));
    assert_eq!(parse_expression(&string("\"")).err(), Some(ParseError::InvalidString));
    assert_eq!(parse_expression(&string("")).err(), Some(ParseError::InvalidString));
    assert_eq!(parse_expression(&leaf(Rule::File, "")).err(), Some(ParseError::UnexpectedRule));
    assert_eq!(parse_expression(&leaf(Rule::EndOfInput, "")).err(), Some(ParseError::UnexpectedRule));
    assert_eq!(parse_expression(&sexp(vec![])).err(), Some(ParseError::MissingElement));
}

#[test]
fn calls_take_their_name_from_the_first_element() {
    let node = parse_function_call(&vec![ident("add"), number("1"), sexp(vec![ident("g")])]).unwrap();
    assert_eq!(
        show(&node),
        "Call { name: \"add\", args: [Integer(1), Call { name: \"g\", args: [] }] }"
    );
    assert_eq!(parse_function_call(&vec![]).err(), Some(ParseError::MissingElement));
    assert_eq!(
        parse_function_call(&vec![ident("f"), number("x")]).err(),
        Some(ParseError::InvalidNumber)
    );
}

#[test]
fn functions_with_and_without_a_name() {
    let named = parse_function(&vec![
        ident("fun"),
        ident("twice"),
        sexp(vec![ident("a")]),
        sexp(vec![ident("add"), ident("a"), ident("a")]),
    ]).unwrap();
    assert_eq!(
        show(&named),
        "Function { name: \"twice\", params: [Param { name: \"a\", default_value: None }], body: [Call { name: \"add\", args: [Identifier(\"a\"), Identifier(\"a\")] }] }"
    );
    let anonymous = parse_function(&vec![ident("fun"), sexp(vec![]), number("1"), number("2")]).unwrap();
    assert_eq!(show(&anonymous), "Function { name: \"\", params: [], body: [Integer(1), Integer(2)] }");
    assert_eq!(parse_function(&vec![ident("fun")]).err(), Some(ParseError::MissingElement));
    assert_eq!(parse_function(&vec![ident("fun"), ident("f")]).err(), Some(ParseError::MissingElement));
}

#[test]
fn identifier_dispatches_on_fun() {
    let f = parse_identifier(&vec![ident("fun"), sexp(vec![])]).unwrap();
    assert_eq!(show(&f), "Function { name: \"\", params: [], body: [] }");
    let c = parse_identifier(&vec![ident("fn"), sexp(vec![ident("x")])]).unwrap();
    assert_eq!(show(&c), "Call { name: \"fn\", args: [Call { name: \"x\", args: [] }] }");
    assert_eq!(parse_identifier(&vec![]).err(), Some(ParseError::MissingElement));
}

#[test]
fn parameters_with_defaults() {
    let params = parse_parameters(&vec![
        ident("name"),
        sexp(vec![ident("title"), string("\"Dr\"")]),
        sexp(vec![ident("n"), number("3"), number("4")]),
    ]).unwrap();
    assert_eq!(
        format!("{:?}", params),
        "[Param { name: \"name\", default_value: None }, Param { name: \"title\", default_value: Some(String(\"Dr\")) }, Param { name: \"n\", default_value: Some(Integer(3)) }]"
    );
    assert_eq!(
        parse_parameters(&vec![sexp(vec![ident("a")])]).err(),
        Some(ParseError::MissingElement)
    );
    assert_eq!(
        parse_parameters(&vec![sexp(vec![ident("a"), number("z")])]).err(),
        Some(ParseError::InvalidNumber)
    );
    assert!(parse_parameters(&vec![]).unwrap().is_empty());
}

#[test]
fn root_expressions_start_with_an_identifier() {
    let node = parse_root_expression(&sexp(vec![ident("print"), string("\"hi\"")])).unwrap();
    assert_eq!(show(&node), "Call { name: \"print\", args: [String(\"hi\")] }");
    assert_eq!(
        parse_root_expression(&sexp(vec![number("1")])).err(),
        Some(ParseError::UnexpectedRule)
    );
    assert_eq!(parse_root_expression(&sexp(vec![])).err(), Some(ParseError::MissingElement));
}

#[test]
fn blocks_skip_the_end_of_input() {
    let pairs = vec![
        sexp(vec![ident("let"), ident("x"), number("1")]),
        sexp(vec![ident("print"), ident("x")]),
        leaf(Rule::EndOfInput, ""),
    ];
    let nodes = parse_block(&pairs).unwrap();
    assert_eq!(nodes.len(), 2);
    assert_eq!(show(&nodes[1]), "Call { name: \"print\", args: [Identifier(\"x\")] }");
    assert!(parse_block(&vec![]).unwrap().is_empty());
    assert_eq!(parse_block(&vec![ident("x")]).err(), Some(ParseError::UnexpectedRule));
    assert_eq!(
        parse_block(&vec![sexp(vec![ident("f")]), sexp(vec![string("\"s\"")])]).err(),
        Some(ParseError::UnexpectedRule)
    );
}

#[test]
fn parsed_print_hi_compiles_to_the_expected_main() {
    let pairs = SimpleListParser::parse("(print \"hi\")").unwrap();
    let nodes = parse_block(&pairs).unwrap();
    let bytes = emit(&vec![Unit { name: "main".to_string(), nodes }], 0).unwrap();
    assert_eq!(&bytes[bytes.len() - 12..], &[2, 5, 2, 0, 19, 1, 0, 1, 16, 2, 1, 1]);
}
