//! What the native back end writes: for each form the lines of the
//! intermediate language that it becomes, as functions from a form and a
//! frame to lines and a frame.

use vstd::prelude::*;
use crate::lower::lowered_all;
use crate::lower::NativeError;
use crate::lower::Term;
use crate::lower::TermField;
use crate::lower::TermFunction;
use crate::lower::TermParam;
use crate::node::Node;
use crate::pool::position;
use crate::selector::decimal;
use crate::translate::number_text;

verus! {

/// The type of a value in the code.
pub enum Kind {
    Int,
    Float,
    Text,
    Struct(Seq<char>),
}

/// A value in the code: a temporary, a global, a parameter or a literal,
/// by the name under which the code refers to it.
pub struct Var {
    pub name: Seq<char>,
    pub kind: Kind,
}

/// The value that a field starts with, as far as `new` can write it.
pub enum Start {
    Integer(i32),
    Text(Seq<char>),
    Unsupported,
}

/// A field in the layout of a class.
pub struct Slot {
    pub name: Seq<char>,
    pub offset: nat,
    pub start: Start,
}

/// The layout of the instances of a class.
pub struct Layout {
    pub name: Seq<char>,
    pub size: nat,
    pub members: Seq<Slot>,
}

/// What the back end knows while it writes.
pub struct Frame {
    pub tmp_var_id: nat,
    pub strings: Seq<Seq<char>>,
    pub out: Seq<char>,
    pub globals: Seq<Var>,
    pub params: Seq<Var>,
    pub classes: Seq<Layout>,
    pub current_class: Option<Seq<char>>,
}

/// What a form gives: the frame after it, and the value where it has one.
pub type Emitted = Result<(Frame, Option<Var>), NativeError>;

/// The largest number that a counter or an offset can hold.
pub open spec fn limit() -> nat {
    u64::MAX as nat
}

/// The frame that a compilation starts with.
pub open spec fn empty_frame() -> Frame {
    Frame {
        tmp_var_id: 0,
        strings: Seq::empty(),
        out: Seq::empty(),
        globals: Seq::empty(),
        params: Seq::empty(),
        classes: Seq::empty(),
        current_class: None,
    }
}

/// The frame with `text` written.
pub open spec fn written(f: Frame, text: Seq<char>) -> Frame {
    Frame { out: f.out + text, ..f }
}

/// The letter of a type in the code.
pub open spec fn type_str(kind: Kind) -> Seq<char> {
    match kind {
        Kind::Int => "w"@,
        Kind::Text => "l"@,
        Kind::Float => "s"@,
        Kind::Struct(_) => "l"@,
    }
}

/// The type of the value of a form, where it can be told without
/// compiling the form.
pub open spec fn inferred(t: Term) -> Result<Kind, NativeError>
    decreases t,
{
    match t {
        Term::Integer(_) => Ok(Kind::Int),
        Term::Text(_) => Ok(Kind::Text),
        Term::Switch { condition, cases, default } => inferred(*default),
        Term::New { class } => Ok(Kind::Struct(class)),
        _ => Err(NativeError::Unsupported),
    }
}

/// A new temporary: the frame after it was taken, and its name.
pub open spec fn fresh(f: Frame) -> Result<(Frame, Seq<char>), NativeError> {
    if f.tmp_var_id >= limit() {
        Err(NativeError::TooLarge)
    } else {
        Ok((Frame { tmp_var_id: f.tmp_var_id + 1, ..f }, "%."@ + decimal(f.tmp_var_id)))
    }
}

/// The frame with `s` among its strings, and the index of `s` there.
pub open spec fn with_string(f: Frame, s: Seq<char>) -> (Frame, nat) {
    match position(f.strings, s) {
        Some(i) => (f, i),
        None => (Frame { strings: f.strings.push(s), ..f }, f.strings.len()),
    }
}

/// The name of the string with the index `id`.
pub open spec fn string_name(id: nat) -> Seq<char> {
    "$str"@ + decimal(id)
}

/// The first of `vars`, from index `from` on, that is called `name`.
pub open spec fn find_var(vars: Seq<Var>, name: Seq<char>, from: nat) -> Option<Var>
    decreases vars.len() - from,
{
    if from >= vars.len() {
        None
    } else if vars[from as int].name == name {
        Some(vars[from as int])
    } else {
        find_var(vars, name, from + 1)
    }
}

/// The names of the fields of a layout.
pub open spec fn slot_names(members: Seq<Slot>) -> Seq<Seq<char>> {
    members.map_values(|m: Slot| m.name)
}

/// The names of the classes.
pub open spec fn layout_names(classes: Seq<Layout>) -> Seq<Seq<char>> {
    classes.map_values(|c: Layout| c.name)
}

/// The members with `m` among them: in the place of the member of that
/// name where there is one, else at the end.
pub open spec fn put_slot(members: Seq<Slot>, m: Slot) -> Seq<Slot> {
    match position(slot_names(members), m.name) {
        Some(i) => members.update(i as int, m),
        None => members.push(m),
    }
}

/// The classes with `c` among them: in the place of the class of that name
/// where there is one, else at the end.
pub open spec fn put_layout(classes: Seq<Layout>, c: Layout) -> Seq<Layout> {
    match position(layout_names(classes), c.name) {
        Some(i) => classes.update(i as int, c),
        None => classes.push(c),
    }
}

/// The value that a field starts with.
pub open spec fn start_of(t: Term) -> Start {
    match t {
        Term::Integer(i) => Start::Integer(i),
        Term::Text(s) => Start::Text(s),
        _ => Start::Unsupported,
    }
}

/// The letters of `printf` for the values from index `i` on.
pub open spec fn format_of(vars: Seq<Var>, i: nat) -> Result<Seq<char>, NativeError>
    decreases vars.len() - i,
{
    if i >= vars.len() {
        Ok(Seq::empty())
    } else {
        match vars[i as int].kind {
            Kind::Int => match format_of(vars, i + 1) {
                Err(e) => Err(e),
                Ok(rest) => Ok("%d"@ + rest),
            },
            Kind::Text => match format_of(vars, i + 1) {
                Err(e) => Err(e),
                Ok(rest) => Ok("%s"@ + rest),
            },
            _ => Err(NativeError::Unsupported),
        }
    }
}

/// The values from index `i` on as the arguments of a call, each with its
/// type, with commas between them.
pub open spec fn arg_list(vars: Seq<Var>, i: nat) -> Seq<char>
    decreases vars.len() - i,
{
    if i >= vars.len() {
        Seq::empty()
    } else {
        (if i > 0 {
            ", "@
        } else {
            Seq::empty()
        }) + type_str(vars[i as int].kind) + " "@ + vars[i as int].name + arg_list(vars, i + 1)
    }
}

/// The function that a call of `name` with the arguments `vars` calls: the
/// method of the class of the first argument where that is an instance.
pub open spec fn callee(name: Seq<char>, vars: Seq<Var>) -> Seq<char> {
    if vars.len() > 0 {
        match vars[0].kind {
            Kind::Struct(class) => class + "_"@ + name,
            _ => name,
        }
    } else {
        name
    }
}

/// A call: `print` and `write` call `printf` with a format made of the
/// types of the arguments; any other name calls the function of that name.
pub open spec fn q_call(f: Frame, name: Seq<char>, vars: Seq<Var>) -> Emitted {
    match fresh(f) {
        Err(e) => Err(e),
        Ok((f1, var_name)) => if name == "print"@ || name == "write"@ {
            match format_of(vars, 0) {
                Err(e) => Err(e),
                Ok(format) => {
                    let (f2, id) = with_string(
                        f1,
                        format + (if name == "print"@ {
                            "\\n"@
                        } else {
                            Seq::empty()
                        }),
                    );
                    Ok(
                        (
                            written(
                                f2,
                                var_name + " =l call "@ + "$printf(l "@ + string_name(id)
                                    + ", ..., "@ + arg_list(vars, 0) + ")\n"@,
                            ),
                            Some(Var { name: var_name, kind: Kind::Int }),
                        ),
                    )
                },
            }
        } else {
            Ok(
                (
                    written(
                        f1,
                        var_name + " =l call "@ + "$"@ + callee(name, vars) + "("@ + arg_list(
                            vars,
                            0,
                        ) + ")\n"@,
                    ),
                    Some(Var { name: var_name, kind: Kind::Int }),
                ),
            )
        },
    }
}

/// The lines that give the fields of a new instance, from the field with
/// the index `i` on, the values that they start with.
pub open spec fn q_members(f: Frame, name: Seq<char>, members: Seq<Slot>, i: nat) -> Result<
    Frame,
    NativeError,
>
    decreases members.len() - i,
{
    if i >= members.len() {
        Ok(f)
    } else {
        let m = members[i as int];
        let place = "%tmp =l add "@ + name + ", "@ + decimal(m.offset) + "\n"@;
        match m.start {
            Start::Integer(v) => q_members(
                written(f, place + "storew "@ + number_text(v as int) + ", %tmp\n"@),
                name,
                members,
                i + 1,
            ),
            Start::Text(s) => {
                let (f1, id) = with_string(written(f, place), s);
                q_members(
                    written(f1, "storel "@ + string_name(id) + ", %tmp\n"@),
                    name,
                    members,
                    i + 1,
                )
            },
            Start::Unsupported => Err(NativeError::Unsupported),
        }
    }
}

/// The layout of the class called `name`.
pub open spec fn find_layout(classes: Seq<Layout>, name: Seq<char>) -> Option<Layout> {
    match position(layout_names(classes), name) {
        Some(i) => Some(classes[i as int]),
        None => None,
    }
}

/// `new Class`: room for an instance, and its fields set.
pub open spec fn q_new(f: Frame, class: Seq<char>) -> Emitted {
    match fresh(f) {
        Err(e) => Err(e),
        Ok((f1, name)) => match find_layout(f1.classes, class) {
            None => Err(NativeError::UnknownClass),
            Some(layout) => match q_members(
                written(f1, name + " =l alloc4 "@ + decimal(layout.size) + "\n"@),
                name,
                layout.members,
                0,
            ) {
                Err(e) => Err(e),
                Ok(f2) => Ok((f2, Some(Var { name, kind: Kind::Struct(class) }))),
            },
        },
    }
}

/// A name: the global of that name, else the parameter.
pub open spec fn q_name(f: Frame, id: Seq<char>) -> Emitted {
    match find_var(f.globals, "$"@ + id, 0) {
        Some(v) => Ok((f, Some(v))),
        None => match find_var(f.params, "%"@ + id, 0) {
            Some(v) => Ok((f, Some(v))),
            None => Err(NativeError::UnknownVariable),
        },
    }
}

/// The value of a form that must have one.
pub open spec fn q_value(u: Emitted) -> Result<(Frame, Var), NativeError> {
    match u {
        Err(e) => Err(e),
        Ok((f, None)) => Err(NativeError::NoValue),
        Ok((f, Some(v))) => Ok((f, v)),
    }
}

/// A form as a statement or as a value.
#[verifier::opaque]
pub open spec fn q_ast(f: Frame, t: Term) -> Emitted
    decreases t, 1nat,
{
    match t {
        Term::Let { name, init } => match fresh(f) {
            Err(e) => Err(e),
            Ok((f1, var_name)) => match q_value(q_ast(f1, *init)) {
                Err(e) => Err(e),
                Ok((f2, v)) => Ok(
                    (
                        written(
                            f2,
                            var_name + " ="@ + type_str(v.kind) + " copy "@ + v.name + "\n"@
                                + "store"@ + type_str(v.kind) + " "@ + var_name + ", $"@ + name
                                + "\n"@,
                        ),
                        Some(Var { name: var_name, kind: v.kind }),
                    ),
                ),
            },
        },
        Term::Call { name, args } => match q_args(f, args, 0) {
            Err(e) => Err(e),
            Ok((f1, vars)) => q_call(f1, name, vars),
        },
        Term::Text(s) => {
            let (f1, id) = with_string(f, s);
            Ok((f1, Some(Var { name: string_name(id), kind: Kind::Text })))
        },
        Term::Integer(i) => Ok((f, Some(Var { name: number_text(i as int), kind: Kind::Int }))),
        Term::Identifier(id) => q_name(f, id),
        Term::Class { name, fields, functions } => Ok((f, None)),
        Term::New { class } => q_new(f, class),
        _ => Err(NativeError::Unsupported),
    }
}

/// The arguments of a call from index `i` on.
#[verifier::opaque]
pub open spec fn q_args(f: Frame, args: Seq<Term>, i: nat) -> Result<(Frame, Seq<Var>), NativeError>
    decreases args, args.len() - i,
{
    if i >= args.len() {
        Ok((f, Seq::empty()))
    } else {
        match q_arg(f, args[i as int]) {
            Err(e) => Err(e),
            Ok((f1, v)) => match q_args(f1, args, i + 1) {
                Err(e) => Err(e),
                Ok((f2, rest)) => Ok((f2, seq![v] + rest)),
            },
        }
    }
}

/// The label of the case with the index `i` of a `switch` whose labels
/// start at `base`.
pub open spec fn label(base: nat, i: nat) -> Seq<char> {
    "@switch."@ + decimal(base + i)
}

/// The test of the case with the index `i`: the subject is compared with
/// the value, and the case is entered where they are equal.
pub open spec fn case_test(value: Var, subject: Seq<char>, base: nat, i: nat) -> Seq<char> {
    "%cmp ="@ + type_str(value.kind) + " ceq"@ + type_str(value.kind) + " "@ + subject + ", "@
        + value.name + "\n"@ + "jnz %cmp, "@ + label(base, i) + ", "@ + label(base, i)
        + ".next\n"@ + label(base, i) + "\n"@
}

/// The body of the case with the index `i` of `count`: the result is given
/// to the `switch`, which is left.
pub open spec fn case_result(result: Var, name: Seq<char>, base: nat, i: nat, count: nat) -> Seq<
    char,
> {
    name + " ="@ + type_str(result.kind) + " copy "@ + result.name + "\n"@ + "jmp "@ + label(
        base,
        count,
    ) + "\n"@ + label(base, i) + ".next\n"@
}

/// The cases of a `switch` from index `i` on: each compares the subject
/// with its value, and where they are equal gives the result and leaves.
#[verifier::opaque]
pub open spec fn q_cases(
    f: Frame,
    cases: Seq<(Term, Term)>,
    i: nat,
    name: Seq<char>,
    subject: Seq<char>,
    base: nat,
) -> Result<Frame, NativeError>
    decreases cases, cases.len() - i,
{
    if i >= cases.len() {
        Ok(f)
    } else {
        match q_value(q_ast(f, cases[i as int].0)) {
            Err(e) => Err(e),
            Ok((f1, value)) => match q_value(q_ast(f1, cases[i as int].1)) {
                Err(e) => Err(e),
                Ok((f2, result)) => q_cases(
                    written(
                        f2,
                        case_test(value, subject, base, i) + case_result(
                            result,
                            name,
                            base,
                            i,
                            cases.len(),
                        ),
                    ),
                    cases,
                    i + 1,
                    name,
                    subject,
                    base,
                ),
            },
        }
    }
}

/// A form as an argument of a call.
#[verifier::opaque]
pub open spec fn q_arg(f: Frame, t: Term) -> Result<(Frame, Var), NativeError>
    decreases t, 0nat,
{
    match t {
        Term::Switch { condition, cases, default } => match fresh(f) {
            Err(e) => Err(e),
            Ok((f1, name)) => match q_value(q_ast(f1, *condition)) {
                Err(e) => Err(e),
                Ok((f2, c)) => match fresh(f2) {
                    Err(e) => Err(e),
                    Ok((f3, subject)) => {
                        let f4 = written(
                            f3,
                            subject + " ="@ + type_str(c.kind) + " load"@ + type_str(c.kind) + " "@
                                + c.name + "\n"@,
                        );
                        let base = f4.tmp_var_id;
                        if base + cases.len() >= limit() {
                            Err(NativeError::TooLarge)
                        } else {
                            match q_cases(
                                Frame { tmp_var_id: base + cases.len() + 1, ..f4 },
                                cases,
                                0,
                                name,
                                subject,
                                base,
                            ) {
                                Err(e) => Err(e),
                                Ok(f5) => match q_value(q_ast(f5, *default)) {
                                    Err(e) => Err(e),
                                    Ok((f6, d)) => Ok(
                                        (
                                            written(
                                                f6,
                                                name + " ="@ + type_str(d.kind) + " copy "@ + d.name
                                                    + "\n"@ + label(base, cases.len()) + "\n"@,
                                            ),
                                            Var { name, kind: d.kind },
                                        ),
                                    ),
                                },
                            }
                        }
                    },
                },
            },
        },
        Term::Text(s) => {
            let (f1, id) = with_string(f, s);
            Ok((f1, Var { name: string_name(id), kind: Kind::Text }))
        },
        Term::Add { lhs, rhs } => match fresh(f) {
            Err(e) => Err(e),
            Ok((f1, name)) => match q_value(q_ast(f1, *lhs)) {
                Err(e) => Err(e),
                Ok((f2, l)) => match q_value(q_ast(f2, *rhs)) {
                    Err(e) => Err(e),
                    Ok((f3, r)) => Ok(
                        (
                            written(f3, name + " =w add "@ + l.name + ", "@ + r.name + "\n"@),
                            Var { name, kind: Kind::Int },
                        ),
                    ),
                },
            },
        },
        Term::Identifier(id) => match find_var(f.globals, "$"@ + id, 0) {
            Some(v) => Ok((f, v)),
            None => Err(NativeError::Unsupported),
        },
        Term::Integer(i) => match fresh(f) {
            Err(e) => Err(e),
            Ok((f1, name)) => Ok(
                (
                    written(f1, name + " =w copy "@ + number_text(i as int) + "\n"@),
                    Var { name, kind: Kind::Int },
                ),
            ),
        },
        _ => Err(NativeError::Unsupported),
    }
}

/// The forms from index `i` on as statements.
pub open spec fn q_body(f: Frame, body: Seq<Term>, i: nat) -> Result<Frame, NativeError>
    decreases body.len() - i,
{
    if i >= body.len() {
        Ok(f)
    } else {
        match q_ast(f, body[i as int]) {
            Err(e) => Err(e),
            Ok((f1, _)) => q_body(f1, body, i + 1),
        }
    }
}

/// The room that a value of a type takes in an instance.
pub open spec fn width(kind: Kind) -> Result<nat, NativeError> {
    match kind {
        Kind::Int => Ok(4),
        Kind::Text => Ok(8),
        _ => Err(NativeError::Unsupported),
    }
}

/// The size and the members of a class whose fields up to index `i` take
/// `offset` bytes and are `members`: each field is written with its type
/// and laid behind the one before it.
pub open spec fn q_fields(f: Frame, fields: Seq<TermField>, i: nat, offset: nat, members: Seq<Slot>)
    -> Result<(Frame, nat, Seq<Slot>), NativeError>
    decreases fields.len() - i,
{
    if i >= fields.len() {
        Ok((f, offset, members))
    } else {
        match inferred(fields[i as int].value) {
            Err(e) => Err(e),
            Ok(kind) => match width(kind) {
                Err(e) => Err(e),
                Ok(w) => if offset + w > limit() {
                    Err(NativeError::TooLarge)
                } else {
                    q_fields(
                        written(f, " "@ + type_str(kind) + ","@),
                        fields,
                        i + 1,
                        offset + w,
                        put_slot(
                            members,
                            Slot {
                                name: fields[i as int].name,
                                offset,
                                start: start_of(fields[i as int].value),
                            },
                        ),
                    )
                },
            },
        }
    }
}

/// The parameters from index `i` on in the head of a method; each becomes
/// a parameter of the frame.
pub open spec fn q_params(f: Frame, params: Seq<TermParam>, i: nat) -> Frame
    decreases params.len() - i,
{
    if i >= params.len() {
        f
    } else {
        q_params(
            Frame {
                params: f.params.push(Var { name: params[i as int].name, kind: Kind::Int }),
                ..written(f, ", w "@ + params[i as int].name)
            },
            params,
            i + 1,
        )
    }
}

/// The methods of the class `class` from index `i` on.
pub open spec fn q_methods(f: Frame, class: Seq<char>, functions: Seq<TermFunction>, i: nat)
    -> Result<Frame, NativeError>
    decreases functions.len() - i,
{
    if i >= functions.len() {
        Ok(f)
    } else {
        let m = functions[i as int];
        let f1 = q_params(
            written(f, "function w $"@ + class + "_"@ + m.name + "(:"@ + class + " %self"@),
            m.params,
            0,
        );
        match q_body(written(f1, ") {\n@start\n"@), m.body, 0) {
            Err(e) => Err(e),
            Ok(f2) => q_methods(
                written(Frame { params: Seq::empty(), ..f2 }, "    ret 0\n}\n"@),
                class,
                functions,
                i + 1,
            ),
        }
    }
}

/// What a form declares before the program starts: a `let` a global, a
/// class its type and its methods.
pub open spec fn q_declare(f: Frame, t: Term) -> Result<Frame, NativeError> {
    match t {
        Term::Let { name, init } => match inferred(*init) {
            Err(e) => Err(e),
            Ok(kind) => Ok(
                Frame {
                    globals: f.globals.push(Var { name: "$"@ + name, kind }),
                    ..written(f, "data $"@ + name + " = { "@ + type_str(kind) + " 0 }\n"@)
                },
            ),
        },
        Term::Class { name, fields, functions } => match q_fields(
            written(f, "type :"@ + name + " = {"@),
            fields,
            0,
            0,
            Seq::empty(),
        ) {
            Err(e) => Err(e),
            Ok((f1, size, members)) => match q_methods(
                Frame {
                    classes: put_layout(f1.classes, Layout { name, size, members }),
                    current_class: Some(name),
                    ..written(f1, " }\n"@)
                },
                name,
                functions,
                0,
            ) {
                Err(e) => Err(e),
                Ok(f2) => Ok(Frame { current_class: None, ..f2 }),
            },
        },
        _ => Ok(f),
    }
}

/// The declarations of the forms from index `i` on.
pub open spec fn q_declarations(f: Frame, asts: Seq<Term>, i: nat) -> Result<Frame, NativeError>
    decreases asts.len() - i,
{
    if i >= asts.len() {
        Ok(f)
    } else {
        match q_declare(f, asts[i as int]) {
            Err(e) => Err(e),
            Ok(f1) => q_declarations(f1, asts, i + 1),
        }
    }
}

/// The strings from index `i` on as data.
pub open spec fn string_data(strings: Seq<Seq<char>>, i: nat) -> Seq<char>
    decreases strings.len() - i,
{
    if i >= strings.len() {
        Seq::empty()
    } else {
        "data "@ + string_name(i) + " = { b \""@ + strings[i as int] + "\", b 0 }\n"@ + string_data(
            strings,
            i + 1,
        )
    }
}

/// A program: the declarations, the forms as the statements of `main`,
/// and the strings.
pub open spec fn q_generate(f: Frame, asts: Seq<Term>) -> Result<Frame, NativeError> {
    match q_declarations(f, asts, 0) {
        Err(e) => Err(e),
        Ok(f1) => match q_body(written(f1, "export function w $main() {\n@start\n"@), asts, 0) {
            Err(e) => Err(e),
            Ok(f2) => {
                let f3 = written(f2, "    ret 0\n}\n"@);
                Ok(written(f3, string_data(f3.strings, 0)))
            },
        },
    }
}

/// The code of a program with the top-level nodes `nodes`.
pub open spec fn q_program(nodes: Seq<Node>) -> Result<Seq<char>, NativeError> {
    match lowered_all(nodes, 0) {
        Err(e) => Err(e),
        Ok(asts) => match q_generate(empty_frame(), asts) {
            Err(e) => Err(e),
            Ok(f) => Ok(f.out),
        },
    }
}

} // verus!
