//! What each form of the language is in the target language.
//!
//! The functions of this module define the translation to C++: they map a
//! syntax tree and the generator's pieces to a text and new pieces. The
//! generator is verified to compute exactly these functions.

use vstd::prelude::*;
use crate::generator::converted;
use crate::generator::keys;
use crate::generator::put;
use crate::generator::Pieces;
use crate::generator::program_text;
use crate::loader::unit_names;
use crate::loader::Unit;
use crate::node::Node;
use crate::node::Param;
use crate::pool::position;
use crate::rules::fuel;
use crate::rules::ident_name;
use crate::selector::decimal;

verus! {

/// Why a program could not be translated.
#[derive(Debug, Clone, Copy, PartialEq, Eq, Structural)]
pub enum TranslateError {
    /// A form has too few arguments, or one of the wrong shape.
    Malformed,
    /// A value is written where only a literal or a name can be printed.
    Unprintable,
    /// A named function inside an expression inside a function.
    NestedNamedFunction,
    /// The decimal text of a float is not among the texts given.
    UnknownFloat,
    /// A loaded unit is not among the units.
    MissingModule,
    /// A unit loads itself, directly or through others.
    CircularLoad,
    /// `super` outside a method, or in a class that was not declared.
    UnresolvedSuper,
    /// The program nests deeper than the generator can count.
    TooDeep,
    /// No file is open to take a statement.
    NoOpenFile,
    /// A node that cannot occur in source.
    UnsupportedNode,
}

/// What the translation of a piece of syntax yields.
pub struct Made {
    pub st: Pieces,
    pub text: Seq<char>,
}

/// The translation of a piece of syntax, or why there is none.
pub type Translated = Result<Made, TranslateError>;

/// The decimal text of each float, by its bit pattern.
pub open spec fn float_views(v: Seq<(u32, String)>) -> Seq<(u32, Seq<char>)> {
    v.map_values(|p: (u32, String)| (p.0, p.1@))
}

/// The bit patterns of a list of float texts.
pub open spec fn float_keys(fl: Seq<(u32, Seq<char>)>) -> Seq<u32> {
    fl.map_values(|p: (u32, Seq<char>)| p.0)
}

/// The decimal text of the float with the bit pattern `bits`.
pub open spec fn float_text(fl: Seq<(u32, Seq<char>)>, bits: u32) -> Option<Seq<char>> {
    match position(float_keys(fl), bits) {
        Some(i) => Some(fl[i as int].1),
        None => None,
    }
}

/// The decimal text of an integer.
pub open spec fn number_text(i: int) -> Seq<char> {
    if i < 0 {
        "-"@ + decimal((-i) as nat)
    } else {
        decimal(i as nat)
    }
}

/// A literal or a name as a value of the target language.
pub open spec fn value_text(fl: Seq<(u32, Seq<char>)>, node: Node) -> Result<
    Seq<char>,
    TranslateError,
> {
    match node {
        Node::Integer(i) => Ok("Value("@ + number_text(i as int) + ")"@),
        Node::Float(bits) => match float_text(fl, bits) {
            Some(t) => Ok("Value("@ + t + ")"@),
            None => Err(TranslateError::UnknownFloat),
        },
        Node::Bool(b) => Ok(
            if b {
                "Value(true)"@
            } else {
                "Value(false)"@
            },
        ),
        Node::String(s) => Ok("Value(\""@ + s@ + "\")"@),
        Node::Null => Ok("Value()"@),
        Node::Identifier(id) => Ok("Value("@ + id@ + ")"@),
        _ => Err(TranslateError::Unprintable),
    }
}

/// The head of a function without a name that is called where it stands.
pub open spec fn capture(st: Pieces) -> Seq<char> {
    "[="@ + (if st.current_class is Some {
        ", this"@
    } else {
        Seq::empty()
    }) + "]() mutable -> Value {\n"@
}

/// The pieces one level deeper.
pub open spec fn deeper(st: Pieces) -> Result<Pieces, TranslateError> {
    if st.depth >= isize::MAX {
        Err(TranslateError::TooDeep)
    } else {
        Ok(Pieces { depth: (st.depth + 1) as isize, ..st })
    }
}

/// The pieces one level less deep.
pub open spec fn shallower(st: Pieces) -> Result<Pieces, TranslateError> {
    if st.depth <= isize::MIN {
        Err(TranslateError::TooDeep)
    } else {
        Ok(Pieces { depth: (st.depth - 1) as isize, ..st })
    }
}

/// A list of names with `name` in it: as it is where the name is there,
/// else with the name at the end.
pub open spec fn with_name(names: Seq<Seq<char>>, name: Seq<char>) -> Seq<Seq<char>> {
    if position(names, name) is Some {
        names
    } else {
        names.push(name)
    }
}

/// The pieces after `name` was converted.
pub open spec fn renamed(st: Pieces, name: Seq<char>) -> Pieces {
    Pieces { converted_names: put(st.converted_names, converted(name), name), ..st }
}

/// The pieces with `text` added to the statements of the innermost open file.
pub open spec fn stated(st: Pieces, text: Seq<char>) -> Result<Pieces, TranslateError> {
    if st.main.len() == 0 {
        Err(TranslateError::NoOpenFile)
    } else {
        Ok(Pieces { main: st.main.update(st.main.len() - 1, st.main.last() + text), ..st })
    }
}

/// Whether `node` is a call of `name`.
pub open spec fn is_call_of(node: Node, name: Seq<char>) -> bool {
    match node {
        Node::Call { name: n, args } => n@ == name,
        _ => false,
    }
}

/// The operator of the target language for an operator form.
pub open spec fn operator_text(name: Seq<char>) -> Option<Seq<char>> {
    if name == "="@ {
        Some("=="@)
    } else if name == "<"@ || name == ">"@ || name == "+"@ || name == "<="@ || name == ">="@
        || name == "*"@ || name == "-"@ || name == "/"@ {
        Some(name)
    } else {
        None
    }
}

/// The operator of the target language for a named binary form.
pub open spec fn binary_text(name: Seq<char>) -> Option<Seq<char>> {
    if name == "lt"@ {
        Some(" < "@)
    } else if name == "eq"@ {
        Some(" == "@)
    } else if name == "add"@ {
        Some(" + "@)
    } else if name == "sub"@ {
        Some(" - "@)
    } else {
        None
    }
}

/// The names of the parameters.
pub open spec fn names_of_params(params: Seq<Param>) -> Seq<Seq<char>> {
    params.map_values(|p: Param| p.name@)
}

/// A node as an expression of the target language.
#[verifier::opaque]
pub open spec fn g_node(
    u: Seq<Unit>,
    fl: Seq<(u32, Seq<char>)>,
    ld: Seq<usize>,
    st: Pieces,
    node: Node,
) -> Translated
    decreases fuel(u, ld), node, 2nat,
{
    match node {
        Node::Function { name, params, body } => g_function(u, fl, ld, st, node),
        Node::Call { name, args } => g_call(u, fl, ld, st, name@, args@),
        Node::Integer(i) => Ok(Made { st, text: number_text(i as int) }),
        Node::Float(bits) => match float_text(fl, bits) {
            Some(t) => Ok(Made { st, text: t }),
            None => Err(TranslateError::UnknownFloat),
        },
        Node::String(s) => Ok(Made { st, text: "\""@ + s@ + "\"s"@ }),
        Node::Identifier(id) => Ok(
            Made {
                st,
                text: if id@ == "this"@ {
                    "shared_from_this()"@
                } else {
                    id@
                },
            },
        ),
        _ => Err(TranslateError::UnsupportedNode),
    }
}

/// The head of a function definition, up to the opening brace of its body.
pub open spec fn function_head(st: Pieces, name: Seq<char>) -> Result<Seq<char>, TranslateError> {
    let target = converted(name);
    if st.depth > 0 {
        if name.len() > 0 && st.inside_expression > 0 {
            Err(TranslateError::NestedNamedFunction)
        } else {
            Ok(
                (if name.len() > 0 && st.inside_expression == 0 {
                    "auto func_"@ + target + " = "@
                } else {
                    Seq::empty()
                }) + "(Value::Function([=]"@ + "("@
                    + "std::vector<Value> args1) mutable -> Value {\n"@,
            )
        }
    } else {
        Ok(
            (if name.len() > 0 {
                "Value func_"@ + target
            } else {
                "(Value::Function([=]"@
            }) + "(std::vector<Value> args1)"@ + (if name.len() == 0 {
                " mutable -> Value"@
            } else {
                Seq::empty()
            }) + (if st.current_class is Some {
                " override"@
            } else {
                Seq::empty()
            }) + " {\n"@,
        )
    }
}

/// The lines with which a function of the program passes a call on to the
/// instance that is its first argument.
pub open spec fn instance_preamble(target: Seq<char>) -> Seq<char> {
    "if (args1.size() > 0 && args1[0].is_instance()) {\n"@
        + "auto obj = args1[0].as_instance();\n"@
        + "auto new_args = std::vector<Value> { args1.begin() + 1, args1.end() };\n"@
        + "return obj->func_"@ + target + "(new_args);\n"@ + "}\n\n"@
}

/// The declaration of the parameter with the index `id`.
pub open spec fn parameter_text(fl: Seq<(u32, Seq<char>)>, id: nat, p: Param) -> Result<
    Seq<char>,
    TranslateError,
> {
    match p.default_value {
        Some(d) => match value_text(fl, d) {
            Err(e) => Err(e),
            Ok(v) => Ok(
                "Value "@ + p.name@ + ";\n"@ + "if ("@ + decimal(id) + " < args1.size()) {\n"@
                    + p.name@ + " = args1["@ + decimal(id) + "];\n"@ + "} else {\n"@ + p.name@
                    + " = "@ + v + ";\n"@ + "}\n"@,
            ),
        },
        None => Ok("Value "@ + p.name@ + " = args1["@ + decimal(id) + "];\n"@),
    }
}

/// The declarations of the parameters from index `from` on.
pub open spec fn parameters_text(fl: Seq<(u32, Seq<char>)>, params: Seq<Param>, from: nat)
    -> Result<Seq<char>, TranslateError>
    decreases params.len() - from,
{
    if from >= params.len() {
        Ok(Seq::empty())
    } else {
        match parameter_text(fl, from, params[from as int]) {
            Err(e) => Err(e),
            Ok(first) => match parameters_text(fl, params, from + 1) {
                Err(e) => Err(e),
                Ok(rest) => Ok(first + rest),
            },
        }
    }
}

/// The statements of a function's body, translated one level deeper; an
/// empty body gives no text.
#[verifier::opaque]
pub open spec fn g_body(
    u: Seq<Unit>,
    fl: Seq<(u32, Seq<char>)>,
    ld: Seq<usize>,
    st: Pieces,
    body: Seq<Node>,
) -> Translated
    decreases fuel(u, ld), body, body.len() + 1,
{
    if body.len() > 0 {
        match deeper(st) {
            Err(e) => Err(e),
            Ok(s5) => match g_statements(u, fl, ld, s5, body, 0, true) {
                Err(e) => Err(e),
                Ok(b) => match shallower(b.st) {
                    Err(e) => Err(e),
                    Ok(s6) => Ok(Made { st: s6, text: b.text }),
                },
            },
        }
    } else {
        Ok(Made { st, text: Seq::empty() })
    }
}

/// A function: its head, its parameters, its body, and the return of the
/// value of its last statement.
#[verifier::opaque]
pub open spec fn g_function(
    u: Seq<Unit>,
    fl: Seq<(u32, Seq<char>)>,
    ld: Seq<usize>,
    st: Pieces,
    node: Node,
) -> Translated
    decreases fuel(u, ld), node, 1nat,
{
    match node {
        Node::Function { name, params, body } => {
            let s1 = if st.current_class is Some {
                Pieces {
                    current_method: Some(name@),
                    current_method_args: st.current_method_args + names_of_params(params@),
                    ..st
                }
            } else {
                st
            };
            let s2 = renamed(s1, name@);
            let target = converted(name@);
            match function_head(s2, name@) {
                Err(e) => Err(e),
                Ok(head) => {
                    let s3 = Pieces {
                        inside_expression: 0,
                        class_functions_names: with_name(s2.class_functions_names, target),
                        ..s2
                    };
                    let s4 = if s3.current_class is None {
                        Pieces { functions_names: with_name(s3.functions_names, target), ..s3 }
                    } else {
                        s3
                    };
                    let preamble = if s3.current_class is None {
                        instance_preamble(target)
                    } else {
                        Seq::empty()
                    };
                    match parameters_text(fl, params@, 0) {
                        Err(e) => Err(e),
                        Ok(declared) => match g_body(u, fl, ld, s4, body@) {
                            Err(e) => Err(e),
                            Ok(b) => Ok(
                                Made {
                                    st: Pieces {
                                        current_method: None,
                                        current_method_args: Seq::empty(),
                                        ..b.st
                                    },
                                    text: head + preamble + declared + "Value ret1;\n"@ + b.text
                                        + "return ret1;\n"@ + (if name@.len() > 0 && b.st.depth
                                        == 0 {
                                        "}\n"@
                                    } else {
                                        "}))\n"@
                                    }),
                                },
                            ),
                        },
                    }
                },
            }
        },
        _ => Err(TranslateError::UnsupportedNode),
    }
}

/// The last statement of a body, which gives the body its value. A `let`
/// gives the value that it was given. Where `plain` is not set, a last
/// statement that is no call is left out.
#[verifier::opaque]
pub open spec fn g_last(
    u: Seq<Unit>,
    fl: Seq<(u32, Seq<char>)>,
    ld: Seq<usize>,
    st: Pieces,
    node: Node,
    plain: bool,
) -> Translated
    decreases fuel(u, ld), node, 3nat,
{
    match node {
        Node::Call { name, args } => match g_node(u, fl, ld, st, node) {
            Err(e) => Err(e),
            Ok(g) => if name@ != "let"@ {
                Ok(Made { st: g.st, text: "ret1 = "@ + g.text + ";\n"@ })
            } else if args@.len() < 2 {
                Err(TranslateError::Malformed)
            } else {
                match value_text(fl, args@[1]) {
                    Err(e) => Err(e),
                    Ok(v) => Ok(Made { st: g.st, text: g.text + ";\nret1 = "@ + v + ";\n"@ }),
                }
            },
        },
        _ => if plain {
            match g_node(u, fl, ld, st, node) {
                Err(e) => Err(e),
                Ok(g) => Ok(Made { st: g.st, text: "ret1 = "@ + g.text + ";\n"@ }),
            }
        } else {
            Ok(Made { st, text: Seq::empty() })
        },
    }
}

/// The statements of a body from index `from` on.
#[verifier::opaque]
pub open spec fn g_statements(
    u: Seq<Unit>,
    fl: Seq<(u32, Seq<char>)>,
    ld: Seq<usize>,
    st: Pieces,
    nodes: Seq<Node>,
    from: nat,
    plain: bool,
) -> Translated
    decreases fuel(u, ld), nodes, nodes.len() - from,
{
    if from >= nodes.len() {
        Ok(Made { st, text: Seq::empty() })
    } else {
        match (if from + 1 == nodes.len() {
            g_last(u, fl, ld, st, nodes[from as int], plain)
        } else {
            match g_node(u, fl, ld, st, nodes[from as int]) {
                Err(e) => Err(e),
                Ok(g) => Ok(Made { st: g.st, text: g.text + ";\n"@ }),
            }
        }) {
            Err(e) => Err(e),
            Ok(a) => match g_statements(u, fl, ld, a.st, nodes, from + 1, plain) {
                Err(e) => Err(e),
                Ok(b) => Ok(Made { st: b.st, text: a.text + b.text }),
            },
        }
    }
}

/// The nodes from index `from` on, each between `open` and `close`, with
/// `between` before each but the one at `first`.
#[verifier::opaque]
pub open spec fn g_each(
    u: Seq<Unit>,
    fl: Seq<(u32, Seq<char>)>,
    ld: Seq<usize>,
    st: Pieces,
    nodes: Seq<Node>,
    from: nat,
    first: nat,
    between: Seq<char>,
    open: Seq<char>,
    close: Seq<char>,
) -> Translated
    decreases fuel(u, ld), nodes, nodes.len() - from,
{
    if from >= nodes.len() {
        Ok(Made { st, text: Seq::empty() })
    } else {
        match g_node(u, fl, ld, st, nodes[from as int]) {
            Err(e) => Err(e),
            Ok(a) => match g_each(u, fl, ld, a.st, nodes, from + 1, first, between, open, close) {
                Err(e) => Err(e),
                Ok(b) => Ok(
                    Made {
                        st: b.st,
                        text: (if from == first {
                            Seq::empty()
                        } else {
                            between
                        }) + open + a.text + close + b.text,
                    },
                ),
            },
        }
    }
}

/// A call form: a special form where `name` is one, else a call.
#[verifier::opaque]
pub open spec fn g_call(
    u: Seq<Unit>,
    fl: Seq<(u32, Seq<char>)>,
    ld: Seq<usize>,
    st: Pieces,
    name: Seq<char>,
    args: Seq<Node>,
) -> Translated
    decreases fuel(u, ld), args, args.len() + 3,
{
    if name == "let"@ {
        g_let(u, fl, ld, st, args)
    } else if name == "set"@ {
        g_set(u, fl, ld, st, args)
    } else if name == "while"@ {
        g_while(u, fl, ld, st, args)
    } else if operator_text(name) is Some {
        g_operator(u, fl, ld, st, args, operator_text(name).unwrap())
    } else if name == "if"@ {
        g_if(u, fl, ld, st, args)
    } else if name == "return"@ {
        g_return(u, fl, ld, st, args)
    } else if name == "list"@ {
        g_list(u, fl, ld, st, args)
    } else if name == "block"@ {
        g_block(u, fl, ld, st, args)
    } else if name == "dump"@ {
        g_dump(u, fl, ld, st, args)
    } else if name == "call"@ {
        g_apply(u, fl, ld, st, args)
    } else if name == "switch"@ {
        g_switch(u, fl, ld, st, args)
    } else if name == "load"@ {
        g_load(u, fl, ld, st, args)
    } else if name == "class"@ {
        g_class(u, fl, ld, st, args)
    } else if name == "new"@ {
        g_new(u, fl, ld, st, args)
    } else if binary_text(name) is Some {
        g_binary(u, fl, ld, st, args, binary_text(name).unwrap())
    } else {
        g_invoke(u, fl, ld, st, name, args)
    }
}

/// `let name expr`: the declaration of a variable with its value.
#[verifier::opaque]
pub open spec fn g_let(
    u: Seq<Unit>,
    fl: Seq<(u32, Seq<char>)>,
    ld: Seq<usize>,
    st: Pieces,
    args: Seq<Node>,
) -> Translated
    decreases fuel(u, ld), args, args.len() + 2,
{
    if args.len() < 2 || ident_name(args[0]) is None {
        Err(TranslateError::Malformed)
    } else {
        let name = ident_name(args[0]).unwrap();
        match deeper(st) {
            Err(e) => Err(e),
            Ok(s1) => {
                let s2 = renamed(Pieces { inside_expression: 1, ..s1 }, name);
                match g_node(u, fl, ld, s2, args[1]) {
                    Err(e) => Err(e),
                    Ok(v) => match shallower(Pieces { inside_expression: 0, ..v.st }) {
                        Err(e) => Err(e),
                        Ok(s3) => Ok(
                            Made {
                                st: s3,
                                text: "Value "@ + converted(name) + " = "@ + v.text + (if s3.current_class
                                    is Some {
                                    ";\n"@
                                } else {
                                    Seq::empty()
                                }),
                            },
                        ),
                    },
                }
            },
        }
    }
}

/// `set name expr`: an assignment.
#[verifier::opaque]
pub open spec fn g_set(
    u: Seq<Unit>,
    fl: Seq<(u32, Seq<char>)>,
    ld: Seq<usize>,
    st: Pieces,
    args: Seq<Node>,
) -> Translated
    decreases fuel(u, ld), args, args.len() + 2,
{
    if args.len() < 2 || ident_name(args[0]) is None {
        Err(TranslateError::Malformed)
    } else {
        let name = ident_name(args[0]).unwrap();
        match g_node(u, fl, ld, renamed(st, name), args[1]) {
            Err(e) => Err(e),
            Ok(v) => Ok(Made { st: v.st, text: converted(name) + " = "@ + v.text }),
        }
    }
}

/// `while cond body...`: a loop in a function of its own, whose value is
/// that of the last statement of the last round.
#[verifier::opaque]
pub open spec fn g_while(
    u: Seq<Unit>,
    fl: Seq<(u32, Seq<char>)>,
    ld: Seq<usize>,
    st: Pieces,
    args: Seq<Node>,
) -> Translated
    decreases fuel(u, ld), args, args.len() + 2,
{
    if args.len() < 1 {
        Err(TranslateError::Malformed)
    } else {
        match g_node(u, fl, ld, st, args[0]) {
            Err(e) => Err(e),
            Ok(c) => match g_statements(u, fl, ld, c.st, args, 1, false) {
                Err(e) => Err(e),
                Ok(b) => Ok(
                    Made {
                        st: b.st,
                        text: "[=]() mutable {\nValue ret1;\nwhile ("@ + c.text + ") {\n"@ + b.text
                            + "}\nreturn ret1;\n}()"@,
                    },
                ),
            },
        }
    }
}

/// An operator form: the operands with the operator between them, in
/// parentheses.
#[verifier::opaque]
pub open spec fn g_operator(
    u: Seq<Unit>,
    fl: Seq<(u32, Seq<char>)>,
    ld: Seq<usize>,
    st: Pieces,
    args: Seq<Node>,
    op: Seq<char>,
) -> Translated
    decreases fuel(u, ld), args, args.len() + 2,
{
    if args.len() < 1 {
        Err(TranslateError::Malformed)
    } else {
        match g_node(u, fl, ld, st, args[0]) {
            Err(e) => Err(e),
            Ok(a) => match g_each(
                u,
                fl,
                ld,
                a.st,
                args,
                1,
                args.len(),
                " "@ + op + " "@,
                Seq::empty(),
                Seq::empty(),
            ) {
                Err(e) => Err(e),
                Ok(b) => Ok(Made { st: b.st, text: "("@ + a.text + b.text + ")"@ }),
            },
        }
    }
}

/// An arm of an `if`: a `return` form as it is, anything else returned.
pub open spec fn arm_text(node: Node, text: Seq<char>) -> Seq<char> {
    if is_call_of(node, "return"@) {
        text
    } else {
        "return "@ + text + ";\n"@
    }
}

/// `if cond then else`: a choice in a function of its own.
#[verifier::opaque]
pub open spec fn g_if(
    u: Seq<Unit>,
    fl: Seq<(u32, Seq<char>)>,
    ld: Seq<usize>,
    st: Pieces,
    args: Seq<Node>,
) -> Translated
    decreases fuel(u, ld), args, args.len() + 2,
{
    if args.len() < 3 {
        Err(TranslateError::Malformed)
    } else {
        match g_node(u, fl, ld, st, args[0]) {
            Err(e) => Err(e),
            Ok(c) => match g_node(u, fl, ld, c.st, args[1]) {
                Err(e) => Err(e),
                Ok(t) => match g_node(u, fl, ld, t.st, args[2]) {
                    Err(e) => Err(e),
                    Ok(f) => Ok(
                        Made {
                            st: f.st,
                            text: capture(f.st) + "if ("@ + c.text + ") {\n"@ + arm_text(
                                args[1],
                                t.text,
                            ) + "} else {\n"@ + arm_text(args[2], f.text) + "}\n"@ + "}()"@,
                        },
                    ),
                },
            },
        }
    }
}

/// `return expr`.
#[verifier::opaque]
pub open spec fn g_return(
    u: Seq<Unit>,
    fl: Seq<(u32, Seq<char>)>,
    ld: Seq<usize>,
    st: Pieces,
    args: Seq<Node>,
) -> Translated
    decreases fuel(u, ld), args, args.len() + 2,
{
    if args.len() < 1 {
        Err(TranslateError::Malformed)
    } else {
        match g_node(u, fl, ld, st, args[0]) {
            Err(e) => Err(e),
            Ok(v) => Ok(Made { st: v.st, text: "return "@ + v.text }),
        }
    }
}

/// `list a b ...`: a vector filled element by element.
#[verifier::opaque]
pub open spec fn g_list(
    u: Seq<Unit>,
    fl: Seq<(u32, Seq<char>)>,
    ld: Seq<usize>,
    st: Pieces,
    args: Seq<Node>,
) -> Translated
    decreases fuel(u, ld), args, args.len() + 2,
{
    match g_each(
        u,
        fl,
        ld,
        st,
        args,
        0,
        0,
        Seq::empty(),
        "ret1.emplace_back("@,
        ");\n"@,
    ) {
        Err(e) => Err(e),
        Ok(b) => Ok(
            Made {
                st: b.st,
                text: capture(st) + "std::vector<Value> ret1;\n"@ + b.text + "return ret1;\n"@
                    + "}()"@,
            },
        ),
    }
}

/// `block a b ...`: statements in a function of their own.
#[verifier::opaque]
pub open spec fn g_block(
    u: Seq<Unit>,
    fl: Seq<(u32, Seq<char>)>,
    ld: Seq<usize>,
    st: Pieces,
    args: Seq<Node>,
) -> Translated
    decreases fuel(u, ld), args, args.len() + 2,
{
    match g_statements(u, fl, ld, st, args, 0, false) {
        Err(e) => Err(e),
        Ok(b) => Ok(
            Made {
                st: b.st,
                text: capture(st) + "Value ret1;\n"@ + b.text + "return ret1;\n"@ + "}()"@,
            },
        ),
    }
}

/// What `dump` collects for its arguments from index `i` on: the
/// declarations of the temporaries, and the output of each.
pub struct Dumped {
    pub st: Pieces,
    pub declared: Seq<char>,
    pub printed: Seq<char>,
}

/// The temporaries and the outputs of the arguments of `dump` from `i` on.
#[verifier::opaque]
pub open spec fn g_dumped(
    u: Seq<Unit>,
    fl: Seq<(u32, Seq<char>)>,
    ld: Seq<usize>,
    st: Pieces,
    args: Seq<Node>,
    i: nat,
) -> Result<Dumped, TranslateError>
    decreases fuel(u, ld), args, args.len() - i,
{
    if i >= args.len() {
        Ok(Dumped { st, declared: Seq::empty(), printed: Seq::empty() })
    } else {
        match (match args[i as int] {
            Node::Identifier(id) => Ok(Made { st: renamed(st, id@), text: converted(id@) }),
            _ => g_node(u, fl, ld, st, args[i as int]),
        }) {
            Err(e) => Err(e),
            Ok(a) => match g_dumped(u, fl, ld, a.st, args, i + 1) {
                Err(e) => Err(e),
                Ok(rest) => Ok(
                    Dumped {
                        st: rest.st,
                        declared: "Value arg_tmp_"@ + decimal(i) + " = "@ + a.text + ";\n"@
                            + rest.declared,
                        printed: " << Value(arg_tmp_"@ + decimal(i) + ").get_type() << \": \" << arg_tmp_"@
                            + decimal(i) + rest.printed,
                    },
                ),
            },
        }
    }
}

/// `dump a b ...`: the type and the value of each argument on one line.
#[verifier::opaque]
pub open spec fn g_dump(
    u: Seq<Unit>,
    fl: Seq<(u32, Seq<char>)>,
    ld: Seq<usize>,
    st: Pieces,
    args: Seq<Node>,
) -> Translated
    decreases fuel(u, ld), args, args.len() + 2,
{
    match g_dumped(u, fl, ld, st, args, 0) {
        Err(e) => Err(e),
        Ok(d) => Ok(
            Made {
                st: d.st,
                text: capture(st) + d.declared + "std::cout"@ + d.printed + " << \"\\n\";\n"@
                    + "return Value();\n"@ + "}()"@,
            },
        ),
    }
}

/// `call f a b ...`: the call of a value.
#[verifier::opaque]
pub open spec fn g_apply(
    u: Seq<Unit>,
    fl: Seq<(u32, Seq<char>)>,
    ld: Seq<usize>,
    st: Pieces,
    args: Seq<Node>,
) -> Translated
    decreases fuel(u, ld), args, args.len() + 2,
{
    if args.len() < 1 {
        Err(TranslateError::Malformed)
    } else {
        match g_node(u, fl, ld, st, args[0]) {
            Err(e) => Err(e),
            Ok(f) => match g_each(
                u,
                fl,
                ld,
                f.st,
                args,
                1,
                1,
                ", "@,
                Seq::empty(),
                Seq::empty(),
            ) {
                Err(e) => Err(e),
                Ok(b) => Ok(Made { st: b.st, text: f.text + "("@ + b.text + ")"@ }),
            },
        }
    }
}

/// The cases of a `switch`: pairs of a value and a result from index `i`
/// on, up to but not including the last argument.
pub open spec fn cases_text(fl: Seq<(u32, Seq<char>)>, args: Seq<Node>, i: nat) -> Result<
    Seq<char>,
    TranslateError,
>
    decreases args.len() - i,
{
    if i + 1 >= args.len() {
        Ok(Seq::empty())
    } else {
        match value_text(fl, args[i as int]) {
            Err(e) => Err(e),
            Ok(v) => match value_text(fl, args[(i + 1) as int]) {
                Err(e) => Err(e),
                Ok(r) => match cases_text(fl, args, i + 2) {
                    Err(e) => Err(e),
                    Ok(rest) => Ok(
                        "if (test1 == "@ + v + ") {\n"@ + "return "@ + r + ";\n"@ + "}\n"@ + rest,
                    ),
                },
            },
        }
    }
}

/// `switch subject value result ... default`: the first value that equals
/// the subject gives the result, the last argument where none does.
#[verifier::opaque]
pub open spec fn g_switch(
    u: Seq<Unit>,
    fl: Seq<(u32, Seq<char>)>,
    ld: Seq<usize>,
    st: Pieces,
    args: Seq<Node>,
) -> Translated
    decreases fuel(u, ld), args, args.len() + 2,
{
    if args.len() < 1 {
        Err(TranslateError::Malformed)
    } else {
        match g_node(u, fl, ld, st, args[0]) {
            Err(e) => Err(e),
            Ok(v) => match cases_text(fl, args, 1) {
                Err(e) => Err(e),
                Ok(cases) => match value_text(fl, args.last()) {
                    Err(e) => Err(e),
                    Ok(fallback) => Ok(
                        Made {
                            st: v.st,
                            text: capture(st) + "Value test1 = "@ + v.text + ";\n"@ + cases
                                + "return "@ + fallback + ";\n"@ + "}()"@,
                        },
                    ),
                },
            },
        }
    }
}

/// `load "name"`: the statements of the named unit in a function of their
/// own; its functions and declarations join those of the program.
#[verifier::opaque]
pub open spec fn g_load(
    u: Seq<Unit>,
    fl: Seq<(u32, Seq<char>)>,
    ld: Seq<usize>,
    st: Pieces,
    args: Seq<Node>,
) -> Translated
    decreases fuel(u, ld), args, args.len() + 2,
{
    if args.len() < 1 {
        Err(TranslateError::Malformed)
    } else {
        match args[0] {
            Node::String(name) => match position(unit_names(u), name@) {
                None => Err(TranslateError::MissingModule),
                Some(k) => if ld.contains(k as usize) || ld.len() >= u.len() || k >= u.len() {
                    Err(TranslateError::CircularLoad)
                } else {
                    let s1 = Pieces { main: st.main.push(Seq::empty()), ..st };
                    match g_file(u, fl, ld.push(k as usize), s1, u[k as int].nodes@, 0) {
                        Err(e) => Err(e),
                        Ok(f) => if f.st.main.len() == 0 {
                            Err(TranslateError::NoOpenFile)
                        } else {
                            Ok(
                                Made {
                                    st: Pieces { main: f.st.main.drop_last(), ..f.st },
                                    text: capture(f.st) + f.st.main.last() + "}()"@,
                                },
                            )
                        },
                    }
                },
            },
            _ => Err(TranslateError::Malformed),
        }
    }
}

/// The members of a class from index `from` on, one to a line.
#[verifier::opaque]
pub open spec fn g_members(
    u: Seq<Unit>,
    fl: Seq<(u32, Seq<char>)>,
    ld: Seq<usize>,
    st: Pieces,
    args: Seq<Node>,
    from: nat,
) -> Translated
    decreases fuel(u, ld), args, args.len() - from,
{
    if from >= args.len() {
        Ok(Made { st, text: Seq::empty() })
    } else {
        match g_node(u, fl, ld, st, args[from as int]) {
            Err(e) => Err(e),
            Ok(a) => match g_members(u, fl, ld, a.st, args, from + 1) {
                Err(e) => Err(e),
                Ok(b) => Ok(Made { st: b.st, text: a.text + "\n"@ + b.text }),
            },
        }
    }
}

/// `class Name [Parent] members...`: a class among the headers; nothing
/// where the form stands.
#[verifier::opaque]
pub open spec fn g_class(
    u: Seq<Unit>,
    fl: Seq<(u32, Seq<char>)>,
    ld: Seq<usize>,
    st: Pieces,
    args: Seq<Node>,
) -> Translated
    decreases fuel(u, ld), args, args.len() + 2,
{
    if args.len() < 2 || ident_name(args[0]) is None {
        Err(TranslateError::Malformed)
    } else {
        let name = ident_name(args[0]).unwrap();
        let parent = match ident_name(args[1]) {
            Some(p) => p,
            None => "SimpleListObject"@,
        };
        let from: nat = if ident_name(args[1]) is Some {
            2
        } else {
            1
        };
        let s1 = Pieces {
            classes: put(st.classes, name, parent),
            current_class: Some(name),
            ..st
        };
        match g_members(u, fl, ld, s1, args, from) {
            Err(e) => Err(e),
            Ok(m) => {
                let header = "class "@ + name + " : public "@ + parent + " {\n"@ + "public:\n"@
                    + "   virtual const char* name() const override { return \""@ + name
                    + "\"; };\n"@ + m.text + "};\n\n"@;
                Ok(
                    Made {
                        st: Pieces {
                            current_class: None,
                            headers: m.st.headers.push(header),
                            ..m.st
                        },
                        text: Seq::empty(),
                    },
                )
            },
        }
    }
}

/// `new Class args...`: a new instance.
#[verifier::opaque]
pub open spec fn g_new(
    u: Seq<Unit>,
    fl: Seq<(u32, Seq<char>)>,
    ld: Seq<usize>,
    st: Pieces,
    args: Seq<Node>,
) -> Translated
    decreases fuel(u, ld), args, args.len() + 2,
{
    if args.len() < 1 || ident_name(args[0]) is None {
        Err(TranslateError::Malformed)
    } else {
        match g_each(u, fl, ld, st, args, 1, 1, ", "@, Seq::empty(), Seq::empty()) {
            Err(e) => Err(e),
            Ok(b) => Ok(
                Made {
                    st: b.st,
                    text: "Value(new "@ + ident_name(args[0]).unwrap() + "("@ + b.text + "))"@,
                },
            ),
        }
    }
}

/// A named binary form: the two operands with the operator between them.
#[verifier::opaque]
pub open spec fn g_binary(
    u: Seq<Unit>,
    fl: Seq<(u32, Seq<char>)>,
    ld: Seq<usize>,
    st: Pieces,
    args: Seq<Node>,
    op: Seq<char>,
) -> Translated
    decreases fuel(u, ld), args, args.len() + 2,
{
    if args.len() < 2 {
        Err(TranslateError::Malformed)
    } else {
        match g_node(u, fl, ld, st, args[0]) {
            Err(e) => Err(e),
            Ok(a) => match g_node(u, fl, ld, a.st, args[1]) {
                Err(e) => Err(e),
                Ok(b) => Ok(Made { st: b.st, text: a.text + op + b.text }),
            },
        }
    }
}

/// The names of `names` from index `from` on, each behind a comma but the
/// first where nothing stands before it.
pub open spec fn forwarded(names: Seq<Seq<char>>, from: nat, bare: bool) -> Seq<char>
    decreases names.len() - from,
{
    if from >= names.len() {
        Seq::empty()
    } else {
        (if bare {
            Seq::empty()
        } else {
            ", "@
        }) + names[from as int] + forwarded(names, from + 1, false)
    }
}

/// What is called: the method of the parent for `super`, a function where
/// the name is one, else the value of a variable.
pub open spec fn callee_text(st: Pieces, name: Seq<char>) -> Result<
    (Pieces, Seq<char>),
    TranslateError,
> {
    if name == "super"@ {
        match (st.current_method, st.current_class) {
            (Some(method), Some(class)) => {
                let s1 = renamed(st, method);
                match position(keys(s1.classes), class) {
                    None => Err(TranslateError::UnresolvedSuper),
                    Some(i) => Ok(
                        (s1, s1.classes[i as int].1 + "::func_"@ + converted(method)),
                    ),
                }
            },
            _ => Err(TranslateError::UnresolvedSuper),
        }
    } else {
        let s1 = renamed(st, name);
        let target = converted(name);
        if position(s1.functions_names, target) is Some || position(
            s1.class_functions_names,
            target,
        ) is Some {
            Ok(
                (
                    s1,
                    (if s1.current_class is Some {
                        "::"@
                    } else {
                        Seq::empty()
                    }) + "func_"@ + target,
                ),
            )
        } else {
            Ok((s1, target + ".as_func()"@))
        }
    }
}

/// A call that is no special form: the callee with the arguments as one
/// vector of values; inside a method the parameters of the method beyond
/// the arguments given are passed on.
#[verifier::opaque]
pub open spec fn g_invoke(
    u: Seq<Unit>,
    fl: Seq<(u32, Seq<char>)>,
    ld: Seq<usize>,
    st: Pieces,
    name: Seq<char>,
    args: Seq<Node>,
) -> Translated
    decreases fuel(u, ld), args, args.len() + 2,
{
    match callee_text(st, name) {
        Err(e) => Err(e),
        Ok((s1, callee)) => match g_each(u, fl, ld, s1, args, 0, 0, ", "@, "Value("@, ")"@) {
            Err(e) => Err(e),
            Ok(b) => Ok(
                Made {
                    st: b.st,
                    text: callee + "({"@ + b.text + forwarded(
                        b.st.current_method_args,
                        args.len(),
                        args.len() == 0,
                    ) + "})"@,
                },
            ),
        },
    }
}

/// The top-level nodes of a file from index `from` on. A function joins
/// the functions of the program; a `let` declares a variable among the
/// headers and sets it among the statements; any other node is a statement.
#[verifier::opaque]
pub open spec fn g_file(
    u: Seq<Unit>,
    fl: Seq<(u32, Seq<char>)>,
    ld: Seq<usize>,
    st: Pieces,
    nodes: Seq<Node>,
    from: nat,
) -> Translated
    decreases fuel(u, ld), nodes, nodes.len() - from,
{
    if from >= nodes.len() {
        Ok(Made { st, text: Seq::empty() })
    } else {
        match g_node(u, fl, ld, st, nodes[from as int]) {
            Err(e) => Err(e),
            Ok(g) => match (match nodes[from as int] {
                Node::Function { name, params, body } => {
                    let s1 = renamed(g.st, name@);
                    Ok(
                        Pieces {
                            functions: s1.functions.push(g.text),
                            functions_names: with_name(s1.functions_names, converted(name@)),
                            ..s1
                        },
                    )
                },
                Node::Call { name, args } => if name@ == "let"@ {
                    g_top_let(u, fl, ld, g.st, args@)
                } else if g.text.len() > 0 {
                    stated(g.st, g.text + ";\n"@)
                } else {
                    Ok(g.st)
                },
                _ => stated(g.st, g.text + ";\n"@),
            }) {
                Err(e) => Err(e),
                Ok(s2) => g_file(u, fl, ld, s2, nodes, from + 1),
            },
        }
    }
}

/// A `let` at the top level of a file: the variable is declared among the
/// headers, and set where the statement stands.
#[verifier::opaque]
pub open spec fn g_top_let(
    u: Seq<Unit>,
    fl: Seq<(u32, Seq<char>)>,
    ld: Seq<usize>,
    st: Pieces,
    args: Seq<Node>,
) -> Result<Pieces, TranslateError>
    decreases fuel(u, ld), args, args.len() + 2,
{
    if args.len() < 2 || ident_name(args[0]) is None {
        Err(TranslateError::Malformed)
    } else {
        let name = ident_name(args[0]).unwrap();
        let target = converted(name);
        let s1 = renamed(st, name);
        let s2 = Pieces { headers: s1.headers.push("Value "@ + target + ";\n"@), ..s1 };
        match deeper(s2) {
            Err(e) => Err(e),
            Ok(s3) => match g_node(u, fl, ld, Pieces { inside_expression: 1, ..s3 }, args[1]) {
                Err(e) => Err(e),
                Ok(v) => match shallower(Pieces { inside_expression: 0, ..v.st }) {
                    Err(e) => Err(e),
                    Ok(s4) => stated(s4, target + " = "@ + v.text + ";\n"@),
                },
            },
        }
    }
}

/// The translation of the unit `root` and of all that it loads: the pieces
/// at its end, and the text of the program that they make.
pub open spec fn g_program(u: Seq<Unit>, fl: Seq<(u32, Seq<char>)>, st: Pieces, root: nat)
    -> Translated {
    if root >= u.len() {
        Err(TranslateError::MissingModule)
    } else {
        match g_file(u, fl, seq![root as usize], st, u[root as int].nodes@, 0) {
            Err(e) => Err(e),
            Ok(f) => if f.st.main.len() == 0 {
                Err(TranslateError::NoOpenFile)
            } else {
                Ok(Made { st: f.st, text: program_text(f.st) })
            },
        }
    }
}

/// The bit patterns of the floats in `node`, in the order of the text.
pub open spec fn floats_in(node: Node) -> Seq<u32>
    decreases node, 0nat,
{
    match node {
        Node::Float(bits) => seq![bits],
        Node::Call { name, args } => floats_in_nodes(args@, 0),
        Node::Function { name, params, body } => floats_in_params(params@, 0) + floats_in_nodes(
            body@,
            0,
        ),
        _ => Seq::empty(),
    }
}

/// [`floats_in`] for the nodes from index `from` on.
pub open spec fn floats_in_nodes(nodes: Seq<Node>, from: nat) -> Seq<u32>
    decreases nodes, nodes.len() - from,
{
    if from >= nodes.len() {
        Seq::empty()
    } else {
        floats_in(nodes[from as int]) + floats_in_nodes(nodes, from + 1)
    }
}

/// [`floats_in`] for the default values of the parameters from index `from` on.
pub open spec fn floats_in_params(params: Seq<Param>, from: nat) -> Seq<u32>
    decreases params, params.len() - from,
{
    if from >= params.len() {
        Seq::empty()
    } else {
        (match params[from as int].default_value {
            Some(d) => floats_in(d),
            None => Seq::empty(),
        }) + floats_in_params(params, from + 1)
    }
}

/// The bit patterns of the floats in the units from index `from` on.
pub open spec fn floats_of(units: Seq<Unit>, from: nat) -> Seq<u32>
    decreases units.len() - from,
{
    if from >= units.len() {
        Seq::empty()
    } else {
        floats_in_nodes(units[from as int].nodes@, 0) + floats_of(units, from + 1)
    }
}

} // verus!
