use simple_lisp::selector::closure_name;
use simple_lisp::selector::getter;
use simple_lisp::selector::mangle;
use simple_lisp::selector::selector;
use simple_lisp::text::str_eq;

#[test]
fn call_with_two_arguments() {
    assert_eq!(mangle("greet", 2), "greet(_,_)");
}

#[test]
fn getter_without_arguments_is_bare() {
    assert_eq!(mangle("count", 0), "count");
    assert_eq!(mangle("type", 0), "type");
    assert_eq!(mangle("name", 0), "name");
    assert_eq!(mangle("supertype", 0), "supertype");
}

#[test]
fn getter_with_arguments_is_a_call() {
    assert_eq!(mangle("count", 1), "count(_)");
}

#[test]
fn other_names_without_arguments_keep_parentheses() {
    assert_eq!(mangle("size", 0), "size()");
    assert_eq!(mangle("", 0), "()");
}

#[test]
fn renamed_selectors() {
    assert_eq!(mangle("isdone", 0), "isDone");
    assert_eq!(mangle("not", 0), "!");
    assert_eq!(mangle("not", 1), "not(_)");
    assert_eq!(mangle("isdone", 1), "isdone(_)");
}

#[test]
fn plain_selectors() {
    assert_eq!(selector("f", 0), "f()");
    assert_eq!(selector("f", 1), "f(_)");
    assert_eq!(selector("f", 3), "f(_,_,_)");
    assert_eq!(selector("count", 0), "count()");
    assert_eq!(selector("not", 0), "not()");
}

#[test]
fn getters() {
    for name in ["count", "isdone", "type", "name", "supertype"] {
        assert!(getter(name));
    }
    assert!(!getter("Count"));
    assert!(!getter("counts"));
    assert!(!getter(""));
}

#[test]
fn closure_names_are_decimal() {
    assert_eq!(closure_name(0), "closure#0");
    assert_eq!(closure_name(9), "closure#9");
    assert_eq!(closure_name(10), "closure#10");
    assert_eq!(closure_name(1203), "closure#1203");
    assert_eq!(closure_name(u32::MAX), "closure#4294967295");
}

#[test]
fn string_equality() {
    assert!(str_eq("", ""));
    assert!(str_eq("abc", "abc"));
    assert!(!str_eq("abc", "abd"));
    assert!(!str_eq("abc", "ab"));
    assert!(!str_eq("ab", "abc"));
    assert!(str_eq("h\u{e9}", "h\u{e9}"));
    assert!(!str_eq("h\u{e9}", "he"));
}
