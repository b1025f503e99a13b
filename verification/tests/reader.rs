use simple_lisp::parser::parse_block;
use simple_lisp::parser::Pair;
use simple_lisp::parser::ParseError;
use simple_lisp::parser::Rule;
use simple_lisp::parser::SimpleListParser;
use simple_lisp::reader::chars_of;
use simple_lisp::reader::find_atom_end;
use simple_lisp::reader::find_atom_rule;
use simple_lisp::reader::find_digits_end;
use simple_lisp::reader::find_line_end;
use simple_lisp::reader::find_quote_end;

fn show(pair: &Pair) -> String {
    match pair.rule {
        Rule::Sexp => {
            let inner: Vec<String> = pair.inner.iter().map(show).collect();
            format!("({})", inner.join(" "))
        }
        Rule::Identifier => format!("i:{}", pair.text),
        Rule::Number => format!("n:{}", pair.text),
        Rule::Float => format!("f:{}", pair.text),
        Rule::String => format!("s:{}", pair.text),
        Rule::File => "file".to_string(),
        Rule::EndOfInput => "end".to_string(),
    }
}

fn parse(text: &str) -> Vec<String> {
    SimpleListParser::parse(text).unwrap().iter().map(show).collect()
}

fn rule_of(atom: &str) -> Rule {
    let chars: Vec<char> = atom.chars().collect();
    find_atom_rule(&chars, 0, chars.len())
}

#[test]
fn a_file_is_a_sequence_of_forms() {
    assert_eq!(parse("(print \"hi\")"), vec!["(i:print s:\"hi\")"]);
    assert_eq!(parse("(a)(b)\n(c 1)"), vec!["(i:a)", "(i:b)", "(i:c n:1)"]);
    assert!(parse("").is_empty());
    assert!(parse(" \t\r\n ").is_empty());
    assert_eq!(parse("()"), vec!["()"]);
}

#[test]
fn forms_nest() {
    assert_eq!(
        parse("(let f (fun (a (b 2)) (add a b)))"),
        vec!["(i:let i:f (i:fun (i:a (i:b n:2)) (i:add i:a i:b)))"]
    );
    assert_eq!(parse("((()))"), vec!["((()))"]);
}

#[test]
fn atoms_are_numbers_floats_or_identifiers() {
    assert_eq!(
        parse("(f 1 -2 3.5 -0.25 x is-null + - 1a 1. .5 1.2.3 -x --1 1-)"),
        vec!["(i:f n:1 n:-2 f:3.5 f:-0.25 i:x i:is-null i:+ i:- i:1a i:1. i:.5 i:1.2.3 i:-x i:--1 i:1-)"]
    );
    assert_eq!(rule_of("0"), Rule::Number);
    assert_eq!(rule_of("-17"), Rule::Number);
    assert_eq!(rule_of("2147483648"), Rule::Number);
    assert_eq!(rule_of("0.0"), Rule::Float);
    assert_eq!(rule_of("-"), Rule::Identifier);
    assert_eq!(rule_of("+1"), Rule::Identifier);
    assert_eq!(rule_of("1e5"), Rule::Identifier);
    assert_eq!(rule_of("\u{663}"), Rule::Identifier);
    assert_eq!(rule_of(""), Rule::Identifier);
}

#[test]
fn strings_run_to_the_next_quote() {
    assert_eq!(parse("(f \"a b\" \"\" \"(;)\")"), vec!["(i:f s:\"a b\" s:\"\" s:\"(;)\")"]);
    assert_eq!(parse("(f\"x\"y)"), vec!["(i:f s:\"x\" i:y)"]);
    assert_eq!(parse("(f \"h\u{e9}\n\u{4e16}\")"), vec!["(i:f s:\"h\u{e9}\n\u{4e16}\")"]);
}

#[test]
fn comments_run_to_the_end_of_the_line() {
    assert_eq!(parse("; first\n(a ; inside\n b) ; last"), vec!["(i:a i:b)"]);
    assert_eq!(parse("(a;b\n)"), vec!["(i:a)"]);
    assert!(parse(";").is_empty());
    assert!(parse("; (a").is_empty());
}

#[test]
fn atoms_outside_forms_are_pairs_that_no_program_holds() {
    let pairs = SimpleListParser::parse("x (f)").unwrap();
    assert_eq!(pairs.iter().map(show).collect::<Vec<String>>(), vec!["i:x", "(i:f)"]);
    assert_eq!(parse_block(&pairs).err(), Some(ParseError::UnexpectedRule));
}

#[test]
fn unbalanced_text_is_refused() {
    assert_eq!(SimpleListParser::parse("(a").err(), Some(ParseError::UnexpectedEnd));
    assert_eq!(SimpleListParser::parse("(a (b)").err(), Some(ParseError::UnexpectedEnd));
    assert_eq!(SimpleListParser::parse("(").err(), Some(ParseError::UnexpectedEnd));
    assert_eq!(SimpleListParser::parse("(a ; )").err(), Some(ParseError::UnexpectedEnd));
    assert_eq!(SimpleListParser::parse(")").err(), Some(ParseError::UnexpectedClose));
    assert_eq!(SimpleListParser::parse("(a))").err(), Some(ParseError::UnexpectedClose));
    assert_eq!(SimpleListParser::parse("(a \"b)").err(), Some(ParseError::UnterminatedString));
    assert_eq!(SimpleListParser::parse("\"").err(), Some(ParseError::UnterminatedString));
}

#[test]
fn pairs_carry_no_float_bits() {
    let pairs = SimpleListParser::parse("(f 1.5)").unwrap();
    assert_eq!(pairs[0].inner[1].rule, Rule::Float);
    assert_eq!(pairs[0].inner[1].text, "1.5");
    assert_eq!(pairs[0].inner[1].float_bits, 0);
    assert!(pairs[0].text.is_empty());
}

#[test]
fn scans() {
    let chars = chars_of("ab(c \"d\" ;e\n12.5x");
    assert_eq!(chars.len(), 17);
    assert_eq!(find_atom_end(&chars, 0), 2);
    assert_eq!(find_atom_end(&chars, 2), 2);
    assert_eq!(find_atom_end(&chars, 12), 17);
    assert_eq!(find_atom_end(&chars, 17), 17);
    assert_eq!(find_line_end(&chars, 0), 11);
    assert_eq!(find_line_end(&chars, 11), 11);
    assert_eq!(find_line_end(&chars, 12), 17);
    assert_eq!(find_quote_end(&chars, 0), Some(5));
    assert_eq!(find_quote_end(&chars, 6), Some(7));
    assert_eq!(find_quote_end(&chars, 8), None);
    assert_eq!(find_digits_end(&chars, 12, 17), 14);
    assert_eq!(find_digits_end(&chars, 12, 13), 13);
    assert_eq!(find_digits_end(&chars, 15, 17), 16);
    assert_eq!(find_digits_end(&chars, 0, 17), 0);
}

#[test]
fn characters_beyond_ascii_count_as_one() {
    let chars = chars_of("h\u{e9}\u{4e16}\u{1f600}!");
    assert_eq!(chars, vec!['h', '\u{e9}', '\u{4e16}', '\u{1f600}', '!']);
    assert_eq!(parse("(\u{4e16}\u{754c} \"\u{1f600}\")"), vec!["(i:\u{4e16}\u{754c} s:\"\u{1f600}\")"]);
}
