use simple_lisp::generator::append_all;
use simple_lisp::generator::convert;
use simple_lisp::generator::find_key;
use simple_lisp::generator::insert_name;
use simple_lisp::generator::Generator;

const HEAD: &str = "#include \"simplelisp.h\"\n\nclass SimpleListObject : public std::enable_shared_from_this<SimpleListObject> {\npublic:\n    virtual ~SimpleListObject() = default;\n    virtual const char* name() const = 0;\n";

fn virtual_line(name: &str, source: &str) -> String {
    format!(
        "    virtual Value func_{}(std::vector<Value> args1) {{ throw std::string(\"class '\") + name() + \"' does not implement '{}'\"; }}\n",
        name, source
    )
}

fn dispatcher(name: &str) -> String {
    format!(
        "Value func_{0}(std::vector<Value> args1) {{\nif (args1[0].is_instance()) {{\nauto obj = args1[0].as_instance();\nauto new_args = std::vector<Value> {{ args1.begin() + 1, args1.end() }};\nreturn obj->func_{0}(new_args);\n}}\n\nstd::cerr << \"function '{0}' exists only as a class function.\";\nstd::exit(1);\n}}\n",
        name
    )
}

#[test]
fn names_are_converted_character_by_character() {
    assert_eq!(convert("is-null"), "is_null");
    assert_eq!(convert("+"), "plus_");
    assert_eq!(convert("*"), "times_");
    assert_eq!(convert("/"), "divide_");
    assert_eq!(convert("a-b+c*d/e"), "a_bplus_ctimes_ddivide_e");
    assert_eq!(convert("--"), "__");
    assert_eq!(convert("plain_name"), "plain_name");
    assert_eq!(convert(""), "");
    assert_eq!(convert("h\u{e9}-\u{4e16}"), "h\u{e9}_\u{4e16}");
}

#[test]
fn conversion_is_what_four_replacements_give() {
    for name in ["read-int", "a+b", "x*-/+y", "", "-", "+-*/", "no change", "a--b"] {
        let expected = name.replace("-", "_").replace("+", "plus_").replace("*", "times_").replace("/", "divide_");
        assert_eq!(convert(name), expected);
    }
}

#[test]
fn convert_name_remembers_the_source_name() {
    let mut g = Generator::new();
    assert_eq!(g.convert_name("read-int"), "read_int");
    assert_eq!(g.convert_name("plain"), "plain");
    assert_eq!(
        g.converted_names,
        vec![("read_int".to_string(), "read-int".to_string()), ("plain".to_string(), "plain".to_string())]
    );
    // another source name with the same converted name takes its place
    assert_eq!(g.convert_name("read_int"), "read_int");
    assert_eq!(
        g.converted_names,
        vec![("read_int".to_string(), "read_int".to_string()), ("plain".to_string(), "plain".to_string())]
    );
    assert_eq!(find_key(&g.converted_names, "plain"), Some(1));
    assert_eq!(find_key(&g.converted_names, "read-int"), None);
}

#[test]
fn a_new_generator_knows_the_built_in_functions() {
    let g = Generator::new();
    assert_eq!(g.functions_names, vec!["print", "write"]);
    assert_eq!(g.class_functions_names, vec!["read"]);
    assert_eq!(g.main, vec![""]);
    assert!(g.headers.is_empty());
    assert!(g.functions.is_empty());
    assert!(g.converted_names.is_empty());
    assert_eq!(g.depth, 0);
}

#[test]
fn empty_program_text() {
    let g = Generator::new();
    let mut expected = String::from(HEAD);
    expected.push_str(&virtual_line("read", "read"));
    expected.push_str("};\n\n#include \"simplelisp-api.h\"\n\n");
    expected.push_str("Value func_print(std::vector<Value> args1);\n");
    expected.push_str("Value func_write(std::vector<Value> args1);\n");
    expected.push_str("Value func_read(std::vector<Value> args1);\n");
    expected.push_str("\n\n");
    expected.push_str(&dispatcher("read"));
    expected.push_str("int main() {\nreturn 0;\n}\n");
    assert_eq!(g.assemble(), expected);
}

#[test]
fn program_text_with_all_parts() {
    let mut g = Generator::new();
    let area = g.convert_name("get-area");
    insert_name(&mut g.class_functions_names, &area);
    insert_name(&mut g.class_functions_names, "print");
    insert_name(&mut g.functions_names, "helper");
    insert_name(&mut g.functions_names, "print");
    g.headers.push("Value x;\n".to_string());
    g.headers.push("class A : public SimpleListObject {\n};\n\n".to_string());
    g.functions.push("Value func_helper(std::vector<Value> args1) {\nreturn ret1;\n}\n".to_string());
    g.main.push("inner;\n".to_string());
    g.main.pop();
    g.main[0].push_str("x = 1;\n");
    let mut expected = String::from(HEAD);
    expected.push_str(&virtual_line("read", "read"));
    expected.push_str(&virtual_line("get_area", "get-area"));
    expected.push_str(&virtual_line("print", "print"));
    expected.push_str("};\n\n#include \"simplelisp-api.h\"\n\n");
    for name in ["print", "write", "helper", "read", "get_area"] {
        expected.push_str(&format!("Value func_{}(std::vector<Value> args1);\n", name));
    }
    expected.push_str("\n");
    expected.push_str("Value x;\nclass A : public SimpleListObject {\n};\n\n");
    expected.push_str("\n");
    expected.push_str("Value func_helper(std::vector<Value> args1) {\nreturn ret1;\n}\n\n");
    expected.push_str(&dispatcher("read"));
    expected.push_str(&dispatcher("get_area"));
    expected.push_str("int main() {\nx = 1;\nreturn 0;\n}\n");
    assert_eq!(g.assemble(), expected);
}

#[test]
fn the_entry_point_holds_the_innermost_open_file() {
    let mut g = Generator::new();
    g.main[0].push_str("outer;\n");
    g.main.push("inner;\n".to_string());
    assert!(g.assemble().ends_with("int main() {\ninner;\nreturn 0;\n}\n"));
}

#[test]
fn names_are_inserted_once() {
    let mut names: Vec<String> = Vec::new();
    insert_name(&mut names, "a");
    insert_name(&mut names, "b");
    insert_name(&mut names, "a");
    assert_eq!(names, vec!["a", "b"]);
}

#[test]
fn parts_are_appended_with_their_ending() {
    let mut out = String::from(">");
    append_all(&mut out, &vec!["a".to_string(), "".to_string(), "c".to_string()], ";");
    assert_eq!(out, ">a;;c;");
    append_all(&mut out, &vec![], ";");
    assert_eq!(out, ">a;;c;");
    append_all(&mut out, &vec!["x".to_string(), "y".to_string()], "");
    assert_eq!(out, ">a;;c;xy");
}
