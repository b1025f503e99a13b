//! The native back end: writes the intermediate language for a program.
//!
//! Each function here computes one function of [`crate::ssa`], on the
//! compiler's own frame in place of a frame that is passed along.

use vstd::prelude::*;
use vstd::string::*;
use crate::lower::cases_of;
use crate::lower::field_of;
use crate::lower::fields_of;
use crate::lower::function_of;
use crate::lower::functions_of;
use crate::lower::lemma_function_of;
use crate::lower::lemma_term_of;
use crate::lower::lower_all;
use crate::lower::param_of;
use crate::lower::params_of;
use crate::lower::term_of;
use crate::lower::terms_of;
use crate::lower::Ast;
use crate::lower::AstFunction;
use crate::lower::AstParam;
use crate::lower::NativeError;
use crate::lower::Variable;
use crate::node::Node;
use crate::pool::find_str;
use crate::pool::lemma_position;
use crate::pool::position;
use crate::pool::texts;
use crate::scope::opt_text;
use crate::selector::decimal;
use crate::selector::push_decimal_u64;
use crate::selector::push_decimal_usize;
use crate::ssa::arg_list;
use crate::ssa::callee;
use crate::ssa::case_result;
use crate::ssa::case_test;
use crate::ssa::empty_frame;
use crate::ssa::find_var;
use crate::ssa::format_of;
use crate::ssa::fresh;
use crate::ssa::inferred;
use crate::ssa::label;
use crate::ssa::layout_names;
use crate::ssa::put_layout;
use crate::ssa::put_slot;
use crate::ssa::q_arg;
use crate::ssa::q_args;
use crate::ssa::q_ast;
use crate::ssa::q_body;
use crate::ssa::q_call;
use crate::ssa::q_cases;
use crate::ssa::q_declarations;
use crate::ssa::q_declare;
use crate::ssa::q_fields;
use crate::ssa::q_generate;
use crate::ssa::q_members;
use crate::ssa::q_methods;
use crate::ssa::q_name;
use crate::ssa::q_new;
use crate::ssa::q_params;
use crate::ssa::q_program;
use crate::ssa::q_value;
use crate::ssa::slot_names;
use crate::ssa::start_of;
use crate::ssa::string_data;
use crate::ssa::string_name;
use crate::ssa::type_str;
use crate::ssa::with_string;
use crate::ssa::written;
use crate::ssa::Emitted;
use crate::ssa::Frame;
use crate::ssa::Kind;
use crate::ssa::Layout;
use crate::ssa::Slot;
use crate::ssa::Start;
use crate::ssa::Var;
use crate::text::str_eq;
use crate::translate::number_text;
use crate::translator::push_number;

verus! {

/// The type of a value in the code.
#[derive(Debug)]
pub enum VarType {
    Int,
    Float,
    String,
    Struct(String),
}

impl View for VarType {
    type V = Kind;

    open spec fn view(&self) -> Kind {
        match *self {
            VarType::Int => Kind::Int,
            VarType::Float => Kind::Float,
            VarType::String => Kind::Text,
            VarType::Struct(class) => Kind::Struct(class@),
        }
    }
}

/// A value in the code, by the name under which the code refers to it.
#[derive(Debug)]
pub struct CodegenVariable {
    pub name: String,
    pub kind: VarType,
}

impl View for CodegenVariable {
    type V = Var;

    open spec fn view(&self) -> Var {
        Var { name: self.name@, kind: self.kind@ }
    }
}

/// The value that a field starts with, as far as `new` can write it.
#[derive(Debug)]
pub enum Init {
    Integer(i32),
    Text(String),
    Unsupported,
}

impl View for Init {
    type V = Start;

    open spec fn view(&self) -> Start {
        match *self {
            Init::Integer(i) => Start::Integer(i),
            Init::Text(s) => Start::Text(s@),
            Init::Unsupported => Start::Unsupported,
        }
    }
}

/// A field in the layout of a class.
#[derive(Debug)]
pub struct Field {
    pub name: String,
    pub offset: u64,
    pub default: Init,
}

impl View for Field {
    type V = Slot;

    open spec fn view(&self) -> Slot {
        Slot { name: self.name@, offset: self.offset as nat, start: self.default@ }
    }
}

/// The views of a vector of values.
pub open spec fn vars_of(vars: Seq<CodegenVariable>) -> Seq<Var> {
    vars.map_values(|v: CodegenVariable| v@)
}

/// The views of a vector of fields.
pub open spec fn slots_of(members: Seq<Field>) -> Seq<Slot> {
    members.map_values(|m: Field| m@)
}

/// The layout of the instances of a class.
#[derive(Debug)]
pub struct ClassLayout {
    pub name: String,
    pub size: u64,
    pub members: Vec<Field>,
}

impl View for ClassLayout {
    type V = Layout;

    open spec fn view(&self) -> Layout {
        Layout { name: self.name@, size: self.size as nat, members: slots_of(self.members@) }
    }
}

/// The views of a vector of layouts.
pub open spec fn layouts_of(classes: Seq<ClassLayout>) -> Seq<Layout> {
    classes.map_values(|c: ClassLayout| c@)
}

/// The native back end: the code written so far, and what is known of the
/// names in it.
pub struct Compiler {
    pub tmp_var_id: u64,
    pub strings: Vec<String>,
    pub out: String,
    pub globals: Vec<CodegenVariable>,
    pub params: Vec<CodegenVariable>,
    pub classes: Vec<ClassLayout>,
    pub current_class: Option<String>,
}

impl View for Compiler {
    type V = Frame;

    open spec fn view(&self) -> Frame {
        Frame {
            tmp_var_id: self.tmp_var_id as nat,
            strings: texts(self.strings@),
            out: self.out@,
            globals: vars_of(self.globals@),
            params: vars_of(self.params@),
            classes: layouts_of(self.classes@),
            current_class: opt_text(self.current_class),
        }
    }
}

/// Whether what a function returned is what the rule gives for a form.
pub open spec fn emitted(r: Result<Option<CodegenVariable>, NativeError>, rule: Emitted, f: Frame)
    -> bool {
    match r {
        Ok(None) => rule == Ok::<(Frame, Option<Var>), NativeError>((f, None)),
        Ok(Some(v)) => rule == Ok::<(Frame, Option<Var>), NativeError>((f, Some(v@))),
        Err(e) => rule == Err::<(Frame, Option<Var>), NativeError>(e),
    }
}

/// Whether what a function returned is what the rule gives for a value.
pub open spec fn valued(
    r: Result<CodegenVariable, NativeError>,
    rule: Result<(Frame, Var), NativeError>,
    f: Frame,
) -> bool {
    match r {
        Ok(v) => rule == Ok::<(Frame, Var), NativeError>((f, v@)),
        Err(e) => rule == Err::<(Frame, Var), NativeError>(e),
    }
}

/// Whether what a function returned is what the rule gives for statements.
pub open spec fn stated(r: Result<(), NativeError>, rule: Result<Frame, NativeError>, f: Frame)
    -> bool {
    match r {
        Ok(_) => rule == Ok::<Frame, NativeError>(f),
        Err(e) => rule == Err::<Frame, NativeError>(e),
    }
}

/// A copy of a type.
pub fn copy_kind(kind: &VarType) -> (r: VarType)
    ensures
        r@ == kind@,
{
    match kind {
        VarType::Int => VarType::Int,
        VarType::Float => VarType::Float,
        VarType::String => VarType::String,
        VarType::Struct(class) => VarType::Struct(class.clone()),
    }
}

/// A copy of a value.
pub fn copy_var(v: &CodegenVariable) -> (r: CodegenVariable)
    ensures
        r@ == v@,
{
    CodegenVariable { name: v.name.clone(), kind: copy_kind(&v.kind) }
}

/// The letter of a type in the code.
pub fn get_type_str(kind: &VarType) -> (r: &'static str)
    ensures
        r@ == type_str(kind@),
{
    match kind {
        VarType::Int => "w",
        VarType::String => "l",
        VarType::Float => "s",
        VarType::Struct(_) => "l",
    }
}

/// The type of the value of a form.
pub fn infer_type(t: &Ast) -> (r: Result<VarType, NativeError>)
    ensures
        match r {
            Ok(kind) => inferred(term_of(*t)) == Ok::<Kind, NativeError>(kind@),
            Err(e) => inferred(term_of(*t)) == Err::<Kind, NativeError>(e),
        },
    decreases *t,
{
    match t {
        Ast::Integer(_) => Ok(VarType::Int),
        Ast::String(_) => Ok(VarType::String),
        Ast::Switch { condition, cases, default } => infer_type(default),
        Ast::New { class } => Ok(VarType::Struct(class.clone())),
        _ => Err(NativeError::Unsupported),
    }
}

/// The value that a field with the value `t` starts with.
pub fn init_of(t: &Ast) -> (r: Init)
    ensures
        r@ == start_of(term_of(*t)),
{
    match t {
        Ast::Integer(i) => Init::Integer(*i),
        Ast::String(s) => Init::Text(s.clone()),
        _ => Init::Unsupported,
    }
}

/// The index of the first of `vars` that is called `name`.
pub fn find_variable(vars: &Vec<CodegenVariable>, name: &str) -> (r: Option<usize>)
    ensures
        match r {
            Some(i) => i < vars@.len() && find_var(vars_of(vars@), name@, 0) == Some(
                vars@[i as int]@,
            ),
            None => find_var(vars_of(vars@), name@, 0) is None,
        },
{
    let mut i: usize = 0;
    while i < vars.len()
        invariant
            i <= vars.len(),
            find_var(vars_of(vars@), name@, 0) == find_var(vars_of(vars@), name@, i as nat),
        decreases vars.len() - i,
    {
        assert(vars_of(vars@)[i as int] == vars@[i as int]@);
        if str_eq(vars[i].name.as_str(), name) {
            return Some(i);
        }
        i += 1;
    }
    None
}

/// The index of the field called `name`.
pub fn find_field(members: &Vec<Field>, name: &str) -> (r: Option<usize>)
    ensures
        match r {
            Some(i) => position(slot_names(slots_of(members@)), name@) == Some(i as nat) && i
                < members@.len(),
            None => position(slot_names(slots_of(members@)), name@) is None,
        },
{
    let ghost names = slot_names(slots_of(members@));
    let mut i: usize = 0;
    while i < members.len()
        invariant
            i <= members.len(),
            names == slot_names(slots_of(members@)),
            forall|k: int| 0 <= k < i ==> names[k] != name@,
        decreases members.len() - i,
    {
        assert(names[i as int] == members@[i as int].name@);
        if str_eq(members[i].name.as_str(), name) {
            proof {
                lemma_position(names, name@);
            }
            return Some(i);
        }
        i += 1;
    }
    proof {
        lemma_position(names, name@);
    }
    None
}

/// The index of the class called `name`.
pub fn find_class_layout(classes: &Vec<ClassLayout>, name: &str) -> (r: Option<usize>)
    ensures
        match r {
            Some(i) => position(layout_names(layouts_of(classes@)), name@) == Some(i as nat) && i
                < classes@.len(),
            None => position(layout_names(layouts_of(classes@)), name@) is None,
        },
{
    let ghost names = layout_names(layouts_of(classes@));
    let mut i: usize = 0;
    while i < classes.len()
        invariant
            i <= classes.len(),
            names == layout_names(layouts_of(classes@)),
            forall|k: int| 0 <= k < i ==> names[k] != name@,
        decreases classes.len() - i,
    {
        assert(names[i as int] == classes@[i as int].name@);
        if str_eq(classes[i].name.as_str(), name) {
            proof {
                lemma_position(names, name@);
            }
            return Some(i);
        }
        i += 1;
    }
    proof {
        lemma_position(names, name@);
    }
    None
}

/// Puts `m` among the members.
pub fn insert_field(members: &mut Vec<Field>, m: Field)
    ensures
        slots_of(final(members)@) == put_slot(slots_of(old(members)@), m@),
{
    let ghost before = slots_of(members@);
    let ghost slot = m@;
    match find_field(members, m.name.as_str()) {
        Some(i) => {
            members.set(i, m);
            assert(slots_of(members@) =~= before.update(i as int, slot));
        },
        None => {
            members.push(m);
            assert(slots_of(members@) =~= before.push(slot));
        },
    }
}

/// Puts `c` among the classes.
pub fn insert_layout(classes: &mut Vec<ClassLayout>, c: ClassLayout)
    ensures
        layouts_of(final(classes)@) == put_layout(layouts_of(old(classes)@), c@),
{
    let ghost before = layouts_of(classes@);
    let ghost layout = c@;
    match find_class_layout(classes, c.name.as_str()) {
        Some(i) => {
            classes.set(i, c);
            assert(layouts_of(classes@) =~= before.update(i as int, layout));
        },
        None => {
            classes.push(c);
            assert(layouts_of(classes@) =~= before.push(layout));
        },
    }
}

/// Appends the name of the string with the index `id`.
pub fn push_string_name(out: &mut String, id: usize)
    ensures
        final(out)@ == old(out)@ + string_name(id as nat),
{
    out.append("$str");
    push_decimal_usize(out, id);
    assert(out@ =~= old(out)@ + string_name(id as nat));
}

/// Appends the label with the index `i` of a `switch` whose labels start
/// at `base`.
pub(crate) fn push_label(out: &mut String, base: u64, i: usize)
    requires
        base + i <= u64::MAX,
    ensures
        final(out)@ == old(out)@ + label(base as nat, i as nat),
{
    out.append("@switch.");
    push_decimal_u64(out, base + (i as u64));
    assert(out@ =~= old(out)@ + label(base as nat, i as nat));
}

/// Appends the values from index `i` on as the arguments of a call.
pub fn push_arg_list(out: &mut String, vars: &Vec<CodegenVariable>, i: usize)
    ensures
        final(out)@ == old(out)@ + arg_list(vars_of(vars@), i as nat),
    decreases vars@.len() - i,
{
    if i >= vars.len() {
        assert(out@ =~= old(out)@ + Seq::<char>::empty());
        return ;
    }
    assert(vars_of(vars@)[i as int] == vars@[i as int]@);
    if i > 0 {
        out.append(", ");
    }
    out.append(get_type_str(&vars[i].kind));
    out.append(" ");
    out.append(vars[i].name.as_str());
    push_arg_list(out, vars, i + 1);
    assert(out@ =~= old(out)@ + arg_list(vars_of(vars@), i as nat));
}

/// Appends the letters of `printf` for the values from index `i` on.
pub fn push_format(out: &mut String, vars: &Vec<CodegenVariable>, i: usize) -> (r: Result<
    (),
    NativeError,
>)
    ensures
        match r {
            Ok(_) => format_of(vars_of(vars@), i as nat) is Ok && final(out)@ == old(out)@
                + format_of(vars_of(vars@), i as nat).unwrap(),
            Err(e) => format_of(vars_of(vars@), i as nat) == Err::<Seq<char>, NativeError>(e),
        },
    decreases vars@.len() - i,
{
    if i >= vars.len() {
        assert(out@ =~= old(out)@ + Seq::<char>::empty());
        return Ok(());
    }
    assert(vars_of(vars@)[i as int] == vars@[i as int]@);
    match &vars[i].kind {
        VarType::Int => {
            out.append("%d");
        },
        VarType::String => {
            out.append("%s");
        },
        _ => {
            return Err(NativeError::Unsupported);
        },
    }
    push_format(out, vars, i + 1)?;
    assert(out@ =~= old(out)@ + format_of(vars_of(vars@), i as nat).unwrap());
    Ok(())
}

/// Appends the strings from index `i` on as data.
pub fn push_string_data(out: &mut String, strings: &Vec<String>, i: usize)
    ensures
        final(out)@ == old(out)@ + string_data(texts(strings@), i as nat),
    decreases strings@.len() - i,
{
    if i >= strings.len() {
        assert(out@ =~= old(out)@ + Seq::<char>::empty());
        return ;
    }
    assert(texts(strings@)[i as int] == strings@[i as int]@);
    out.append("data ");
    push_string_name(out, i);
    out.append(" = { b \"");
    out.append(strings[i].as_str());
    out.append("\", b 0 }\n");
    push_string_data(out, strings, i + 1);
    assert(out@ =~= old(out)@ + string_data(texts(strings@), i as nat));
}

/// The index of `string` among the strings, where it is put if it is not
/// there.
pub fn insert_string(strings: &mut Vec<String>, string: &str) -> (r: usize)
    ensures
        match position(texts(old(strings)@), string@) {
            Some(i) => texts(final(strings)@) == texts(old(strings)@) && r == i,
            None => texts(final(strings)@) == texts(old(strings)@).push(string@) && r == old(
                strings,
            )@.len(),
        },
{
    match find_str(strings, string) {
        Some(pos) => pos,
        None => {
            let id = strings.len();
            let ghost before = texts(strings@);
            strings.push(String::from_str(string));
            assert(texts(strings@) =~= before.push(string@));
            id
        },
    }
}

impl Compiler {
    /// A back end that has written nothing.
    pub fn new() -> (r: Self)
        ensures
            r@ == empty_frame(),
    {
        let r = Compiler {
            tmp_var_id: 0,
            strings: Vec::new(),
            out: String::new(),
            globals: Vec::new(),
            params: Vec::new(),
            classes: Vec::new(),
            current_class: None,
        };
        assert(r@.strings =~= Seq::<Seq<char>>::empty());
        assert(r@.globals =~= Seq::<Var>::empty());
        assert(r@.params =~= Seq::<Var>::empty());
        assert(r@.classes =~= Seq::<Layout>::empty());
        r
    }

    /// Takes a new temporary and gives its name.
    pub fn next_id(&mut self) -> (r: Result<String, NativeError>)
        ensures
            match r {
                Ok(name) => fresh(old(self)@) == Ok::<(Frame, Seq<char>), NativeError>(
                    (final(self)@, name@),
                ),
                Err(e) => fresh(old(self)@) == Err::<(Frame, Seq<char>), NativeError>(e),
            },
    {
        if self.tmp_var_id >= u64::MAX {
            return Err(NativeError::TooLarge);
        }
        let mut name = String::from_str("%.");
        push_decimal_u64(&mut name, self.tmp_var_id);
        self.tmp_var_id = self.tmp_var_id + 1;
        Ok(name)
    }

    /// The index of `string` among the strings, where it is put if it is
    /// not there.
    pub fn try_insert_string(&mut self, string: &str) -> (r: usize)
        ensures
            with_string(old(self)@, string@) == (final(self)@, r as nat),
    {
        insert_string(&mut self.strings, string)
    }

    /// Writes the declaration of a variable with the value `v`.
    pub fn write_let(&mut self, var_name: &str, v: &CodegenVariable, name: &str)
        ensures
            final(self)@ == written(
                old(self)@,
                var_name@ + " ="@ + type_str(v@.kind) + " copy "@ + v@.name + "\n"@ + "store"@
                    + type_str(v@.kind) + " "@ + var_name@ + ", $"@ + name@ + "\n"@,
            ),
    {
        let t = get_type_str(&v.kind);
        self.out.append(var_name);
        self.out.append(" =");
        self.out.append(t);
        self.out.append(" copy ");
        self.out.append(v.name.as_str());
        self.out.append("\n");
        self.out.append("store");
        self.out.append(t);
        self.out.append(" ");
        self.out.append(var_name);
        self.out.append(", $");
        self.out.append(name);
        self.out.append("\n");
        assert(self@.out =~= old(self)@.out + (var_name@ + " ="@ + type_str(v@.kind) + " copy "@
            + v@.name + "\n"@ + "store"@ + type_str(v@.kind) + " "@ + var_name@ + ", $"@ + name@
            + "\n"@));
    }

    /// Writes the load of the subject of a `switch`.
    pub fn write_load(&mut self, subject: &str, c: &CodegenVariable)
        ensures
            final(self)@ == written(
                old(self)@,
                subject@ + " ="@ + type_str(c@.kind) + " load"@ + type_str(c@.kind) + " "@
                    + c@.name + "\n"@,
            ),
    {
        let t = get_type_str(&c.kind);
        self.out.append(subject);
        self.out.append(" =");
        self.out.append(t);
        self.out.append(" load");
        self.out.append(t);
        self.out.append(" ");
        self.out.append(c.name.as_str());
        self.out.append("\n");
        assert(self@.out =~= old(self)@.out + (subject@ + " ="@ + type_str(c@.kind) + " load"@
            + type_str(c@.kind) + " "@ + c@.name + "\n"@));
    }

    /// Writes the test of the case with the index `i` of a `switch`.
    pub(crate) fn write_case_test(&mut self, value: &CodegenVariable, subject: &str, base: u64, i: usize)
        requires
            base + i <= u64::MAX,
        ensures
            final(self)@ == written(
                old(self)@,
                case_test(value@, subject@, base as nat, i as nat),
            ),
    {
        let kind = get_type_str(&value.kind);
        self.out.append("%cmp =");
        self.out.append(kind);
        self.out.append(" ceq");
        self.out.append(kind);
        self.out.append(" ");
        self.out.append(subject);
        self.out.append(", ");
        self.out.append(value.name.as_str());
        self.out.append("\n");
        self.out.append("jnz %cmp, ");
        push_label(&mut self.out, base, i);
        self.out.append(", ");
        push_label(&mut self.out, base, i);
        self.out.append(".next\n");
        push_label(&mut self.out, base, i);
        self.out.append("\n");
        assert(self@.out =~= old(self)@.out + case_test(value@, subject@, base as nat, i as nat));
    }

    /// Writes the body of the case with the index `i` of a `switch` with
    /// `count` cases.
    pub(crate) fn write_case_result(
        &mut self,
        result: &CodegenVariable,
        name: &str,
        base: u64,
        i: usize,
        count: usize,
    )
        requires
            i <= count,
            base + count <= u64::MAX,
        ensures
            final(self)@ == written(
                old(self)@,
                case_result(result@, name@, base as nat, i as nat, count as nat),
            ),
    {
        self.out.append(name);
        self.out.append(" =");
        self.out.append(get_type_str(&result.kind));
        self.out.append(" copy ");
        self.out.append(result.name.as_str());
        self.out.append("\n");
        self.out.append("jmp ");
        push_label(&mut self.out, base, count);
        self.out.append("\n");
        push_label(&mut self.out, base, i);
        self.out.append(".next\n");
        assert(self@.out =~= old(self)@.out + case_result(
            result@,
            name@,
            base as nat,
            i as nat,
            count as nat,
        ));
    }

    /// Writes the default of a `switch` with `count` cases, and its end.
    pub(crate) fn write_default(&mut self, name: &str, d: &CodegenVariable, base: u64, count: usize)
        requires
            base + count <= u64::MAX,
        ensures
            final(self)@ == written(
                old(self)@,
                name@ + " ="@ + type_str(d@.kind) + " copy "@ + d@.name + "\n"@ + label(
                    base as nat,
                    count as nat,
                ) + "\n"@,
            ),
    {
        self.out.append(name);
        self.out.append(" =");
        self.out.append(get_type_str(&d.kind));
        self.out.append(" copy ");
        self.out.append(d.name.as_str());
        self.out.append("\n");
        push_label(&mut self.out, base, count);
        self.out.append("\n");
        assert(self@.out =~= old(self)@.out + (name@ + " ="@ + type_str(d@.kind) + " copy "@
            + d@.name + "\n"@ + label(base as nat, count as nat) + "\n"@));
    }

    /// Writes an addition.
    pub fn write_add(&mut self, name: &str, l: &str, r: &str)
        ensures
            final(self)@ == written(
                old(self)@,
                name@ + " =w add "@ + l@ + ", "@ + r@ + "\n"@,
            ),
    {
        self.out.append(name);
        self.out.append(" =w add ");
        self.out.append(l);
        self.out.append(", ");
        self.out.append(r);
        self.out.append("\n");
        assert(self@.out =~= old(self)@.out + (name@ + " =w add "@ + l@ + ", "@ + r@ + "\n"@));
    }

    /// Writes the copy of a number to a temporary.
    pub fn write_copy(&mut self, name: &str, i: i32)
        ensures
            final(self)@ == written(
                old(self)@,
                name@ + " =w copy "@ + number_text(i as int) + "\n"@,
            ),
    {
        self.out.append(name);
        self.out.append(" =w copy ");
        push_number(&mut self.out, i);
        self.out.append("\n");
        assert(self@.out =~= old(self)@.out + (name@ + " =w copy "@ + number_text(i as int)
            + "\n"@));
    }

    /// Writes `text`.
    pub fn write(&mut self, text: &str)
        ensures
            final(self)@ == written(old(self)@, text@),
    {
        self.out.append(text);
    }

    /// A string as a value.
    pub fn emit_string(&mut self, string: &str) -> (r: CodegenVariable)
        ensures
            with_string(old(self)@, string@).0 == final(self)@,
            r@ == (Var {
                name: string_name(with_string(old(self)@, string@).1),
                kind: Kind::Text,
            }),
    {
        let id = self.try_insert_string(string);
        let mut name = String::new();
        push_string_name(&mut name, id);
        assert(name@ =~= string_name(id as nat));
        CodegenVariable { name, kind: VarType::String }
    }

    /// A name as a value: the global of that name, else the parameter.
    pub fn emit_name(&self, ident: &str) -> (r: Result<Option<CodegenVariable>, NativeError>)
        ensures
            emitted(r, q_name(self@, ident@), self@),
    {
        let mut global = String::from_str("$");
        global.append(ident);
        match find_variable(&self.globals, global.as_str()) {
            Some(i) => Ok(Some(copy_var(&self.globals[i]))),
            None => {
                let mut param = String::from_str("%");
                param.append(ident);
                match find_variable(&self.params, param.as_str()) {
                    Some(i) => Ok(Some(copy_var(&self.params[i]))),
                    None => Err(NativeError::UnknownVariable),
                }
            },
        }
    }

    /// A call of `name` with the values `args`.
    pub fn emit_call(&mut self, name: &str, args: &Vec<CodegenVariable>) -> (r: Result<
        Option<CodegenVariable>,
        NativeError,
    >)
        ensures
            emitted(r, q_call(old(self)@, name@, vars_of(args@)), final(self)@),
    {
        let var_name = self.next_id()?;
        let ghost f1 = self@;
        if str_eq(name, "print") || str_eq(name, "write") {
            let mut format = String::new();
            push_format(&mut format, args, 0)?;
            if str_eq(name, "print") {
                format.append("\\n");
            }
            let id = self.try_insert_string(format.as_str());
            let ghost f2 = self@;
            self.out.append(var_name.as_str());
            self.out.append(" =l call ");
            self.out.append("$printf(l ");
            push_string_name(&mut self.out, id);
            self.out.append(", ..., ");
            push_arg_list(&mut self.out, args, 0);
            self.out.append(")\n");
            assert(self@.out =~= f2.out + (var_name@ + " =l call "@ + "$printf(l "@ + string_name(
                id as nat,
            ) + ", ..., "@ + arg_list(vars_of(args@), 0) + ")\n"@));
        } else {
            self.out.append(var_name.as_str());
            self.out.append(" =l call ");
            self.out.append("$");
            if args.len() > 0 {
                assert(vars_of(args@)[0] == args@[0]@);
                match &args[0].kind {
                    VarType::Struct(class) => {
                        self.out.append(class.as_str());
                        self.out.append("_");
                    },
                    _ => {},
                }
            }
            self.out.append(name);
            self.out.append("(");
            push_arg_list(&mut self.out, args, 0);
            self.out.append(")\n");
            assert(self@.out =~= f1.out + (var_name@ + " =l call "@ + "$"@ + callee(
                name@,
                vars_of(args@),
            ) + "("@ + arg_list(vars_of(args@), 0) + ")\n"@));
        }
        Ok(Some(CodegenVariable { name: var_name, kind: VarType::Int }))
    }

    /// Gives the fields of the new instance `name` of the class with the
    /// index `class`, from the field with the index `from` on, the values
    /// that they start with.
    pub(crate) fn emit_members(&mut self, name: &str, class: usize, from: usize) -> (r: Result<
        (),
        NativeError,
    >)
        requires
            class < old(self).classes@.len(),
        ensures
            stated(
                r,
                q_members(
                    old(self)@,
                    name@,
                    slots_of(old(self).classes@[class as int].members@),
                    from as nat,
                ),
                final(self)@,
            ),
            final(self).classes@ == old(self).classes@,
    {
        let ghost members = slots_of(self.classes@[class as int].members@);
        let ghost whole = q_members(self@, name@, members, from as nat);
        let mut i: usize = from;
        while i < self.classes[class].members.len()
            invariant
                class < self.classes@.len(),
                self.classes@ == old(self).classes@,
                members == slots_of(self.classes@[class as int].members@),
                whole == q_members(old(self)@, name@, members, from as nat),
                whole == q_members(self@, name@, members, i as nat),
            decreases self.classes@[class as int].members@.len() - i,
        {
            let ghost f = self@;
            assert(members[i as int] == self.classes@[class as int].members@[i as int]@);
            let offset = self.classes[class].members[i].offset;
            self.out.append("%tmp =l add ");
            self.out.append(name);
            self.out.append(", ");
            push_decimal_u64(&mut self.out, offset);
            self.out.append("\n");
            assert(self@.out =~= f.out + ("%tmp =l add "@ + name@ + ", "@ + decimal(offset as nat)
                + "\n"@));
            match &self.classes[class].members[i].default {
                Init::Integer(v) => {
                    let v: i32 = *v;
                    self.out.append("storew ");
                    push_number(&mut self.out, v);
                    self.out.append(", %tmp\n");
                    assert(self@.out =~= f.out + ("%tmp =l add "@ + name@ + ", "@ + decimal(
                        offset as nat,
                    ) + "\n"@ + "storew "@ + number_text(v as int) + ", %tmp\n"@));
                },
                Init::Text(s) => {
                    let ghost f1 = self@;
                    let id = insert_string(&mut self.strings, s.as_str());
                    let ghost f2 = self@;
                    assert(with_string(f1, s@) == (f2, id as nat));
                    self.out.append("storel ");
                    push_string_name(&mut self.out, id);
                    self.out.append(", %tmp\n");
                    assert(self@.out =~= f2.out + ("storel "@ + string_name(id as nat)
                        + ", %tmp\n"@));
                },
                Init::Unsupported => {
                    return Err(NativeError::Unsupported);
                },
            }
            i += 1;
        }
        Ok(())
    }

    /// `new Class`.
    pub fn emit_new(&mut self, class: &String) -> (r: Result<Option<CodegenVariable>, NativeError>)
        ensures
            emitted(r, q_new(old(self)@, class@), final(self)@),
    {
        let name = self.next_id()?;
        let ghost f1 = self@;
        match find_class_layout(&self.classes, class.as_str()) {
            None => Err(NativeError::UnknownClass),
            Some(k) => {
                assert(layouts_of(self.classes@)[k as int] == self.classes@[k as int]@);
                let size = self.classes[k].size;
                self.out.append(name.as_str());
                self.out.append(" =l alloc4 ");
                push_decimal_u64(&mut self.out, size);
                self.out.append("\n");
                assert(self@.out =~= f1.out + (name@ + " =l alloc4 "@ + decimal(size as nat)
                    + "\n"@));
                self.emit_members(name.as_str(), k, 0)?;
                Ok(Some(CodegenVariable { name, kind: VarType::Struct(class.clone()) }))
            },
        }
    }

    /// A form that must have a value.
    pub fn emit_value(&mut self, ast: &Ast) -> (r: Result<CodegenVariable, NativeError>)
        ensures
            valued(r, q_value(q_ast(old(self)@, term_of(*ast))), final(self)@),
        decreases *ast, 2nat,
    {
        match self.emit_ast(ast)? {
            Some(v) => Ok(v),
            None => Err(NativeError::NoValue),
        }
    }

    /// A form as a statement or as a value.
    pub fn emit_ast(&mut self, ast: &Ast) -> (r: Result<Option<CodegenVariable>, NativeError>)
        ensures
            emitted(r, q_ast(old(self)@, term_of(*ast)), final(self)@),
        decreases *ast, 1nat,
    {
        proof {
            reveal_with_fuel(q_ast, 1);
            reveal_with_fuel(q_args, 1);
            lemma_term_of(*ast);
        }
        match ast {
            Ast::Let { name, init } => {
                let var_name = self.next_id()?;
                let v = self.emit_value(init)?;
                self.write_let(var_name.as_str(), &v, name.as_str());
                Ok(Some(CodegenVariable { name: var_name, kind: v.kind }))
            },
            Ast::Call { name, args } => {
                let vars = self.emit_args(args)?;
                self.emit_call(name.as_str(), &vars)
            },
            Ast::String(string) => Ok(Some(self.emit_string(string.as_str()))),
            Ast::Integer(i) => {
                let mut name = String::new();
                push_number(&mut name, *i);
                assert(name@ =~= number_text(*i as int));
                Ok(Some(CodegenVariable { name, kind: VarType::Int }))
            },
            Ast::Identifier(ident) => self.emit_name(ident.as_str()),
            Ast::Class { name, fields, functions } => Ok(None),
            Ast::New { class } => self.emit_new(class),
            _ => Err(NativeError::Unsupported),
        }
    }

    /// The arguments of a call.
    pub fn emit_args(&mut self, args: &Vec<Ast>) -> (r: Result<Vec<CodegenVariable>, NativeError>)
        ensures
            match r {
                Ok(vars) => q_args(old(self)@, terms_of(args@), 0) == Ok::<
                    (Frame, Seq<Var>),
                    NativeError,
                >((final(self)@, vars_of(vars@))),
                Err(e) => q_args(old(self)@, terms_of(args@), 0) == Err::<
                    (Frame, Seq<Var>),
                    NativeError,
                >(e),
            },
        decreases args@, args@.len(),
    {
        let ghost whole = q_args(self@, terms_of(args@), 0);
        let mut vars: Vec<CodegenVariable> = Vec::new();
        let mut i: usize = 0;
        assert(vars_of(vars@) =~= Seq::<Var>::empty());
        proof {
            reveal_with_fuel(q_args, 1);
        }
        while i < args.len()
            invariant
                i <= args.len(),
                whole == q_args(old(self)@, terms_of(args@), 0),
                whole == (match q_args(self@, terms_of(args@), i as nat) {
                    Ok((f, rest)) => Ok::<(Frame, Seq<Var>), NativeError>(
                        (f, vars_of(vars@) + rest),
                    ),
                    Err(e) => Err::<(Frame, Seq<Var>), NativeError>(e),
                }),
            decreases args.len() - i,
        {
            proof {
                reveal_with_fuel(q_args, 1);
                reveal_with_fuel(q_arg, 1);
            }
            assert(terms_of(args@)[i as int] == term_of(args@[i as int]));
            let v = match self.emit_arg(&args[i]) {
                Ok(v) => v,
                Err(e) => {
                    return Err(e);
                },
            };
            let ghost done = vars_of(vars@);
            let ghost first = v@;
            vars.push(v);
            proof {
                assert(vars_of(vars@) =~= done.push(first));
                if let Ok((f, rest)) = q_args(self@, terms_of(args@), (i + 1) as nat) {
                    assert(done + (seq![first] + rest) =~= done.push(first) + rest);
                }
            }
            i += 1;
        }
        assert(vars_of(vars@) + Seq::<Var>::empty() =~= vars_of(vars@));
        Ok(vars)
    }

    /// The cases of a `switch` whose value is `name`, whose subject is
    /// `subject`, and whose labels start at `base`.
    pub(crate) fn emit_cases(&mut self, cases: &Vec<(Ast, Ast)>, name: &str, subject: &str, base: u64) -> (r:
        Result<(), NativeError>)
        requires
            base + cases@.len() < u64::MAX,
        ensures
            stated(
                r,
                q_cases(old(self)@, cases_of(cases@), 0, name@, subject@, base as nat),
                final(self)@,
            ),
        decreases cases@, cases@.len(),
    {
        let ghost whole = q_cases(self@, cases_of(cases@), 0, name@, subject@, base as nat);
        let mut i: usize = 0;
        while i < cases.len()
            invariant
                i <= cases.len(),
                base + cases@.len() < u64::MAX,
                whole == q_cases(old(self)@, cases_of(cases@), 0, name@, subject@, base as nat),
                whole == q_cases(self@, cases_of(cases@), i as nat, name@, subject@, base as nat),
            decreases cases.len() - i,
        {
            proof {
                reveal_with_fuel(q_cases, 1);
                reveal_with_fuel(q_ast, 1);
            }
            assert(cases_of(cases@)[i as int] == (
                term_of(cases@[i as int].0),
                term_of(cases@[i as int].1),
            ));
            let value = match self.emit_value(&cases[i].0) {
                Ok(v) => v,
                Err(e) => {
                    return Err(e);
                },
            };
            let result = match self.emit_value(&cases[i].1) {
                Ok(v) => v,
                Err(e) => {
                    return Err(e);
                },
            };
            let ghost f2 = self@;
            self.write_case_test(&value, subject, base, i);
            self.write_case_result(&result, name, base, i, cases.len());
            assert(self@.out =~= f2.out + (case_test(value@, subject@, base as nat, i as nat)
                + case_result(result@, name@, base as nat, i as nat, cases@.len())));
            i += 1;
        }
        proof {
            reveal_with_fuel(q_cases, 1);
        }
        Ok(())
    }

    /// A form as an argument of a call.
    pub fn emit_arg(&mut self, arg: &Ast) -> (r: Result<CodegenVariable, NativeError>)
        ensures
            valued(r, q_arg(old(self)@, term_of(*arg)), final(self)@),
        decreases *arg, 0nat,
    {
        proof {
            reveal_with_fuel(q_arg, 1);
            reveal_with_fuel(q_ast, 1);
            reveal_with_fuel(q_cases, 1);
            lemma_term_of(*arg);
        }
        match arg {
            Ast::Switch { condition, cases, default } => {
                let name = self.next_id()?;
                let c = self.emit_value(condition)?;
                let subject = self.next_id()?;
                self.write_load(subject.as_str(), &c);
                let base = self.tmp_var_id;
                if cases.len() as u64 >= u64::MAX - base {
                    return Err(NativeError::TooLarge);
                }
                self.tmp_var_id = base + (cases.len() as u64) + 1;
                self.emit_cases(cases, name.as_str(), subject.as_str(), base)?;
                let d = self.emit_value(default)?;
                self.write_default(name.as_str(), &d, base, cases.len());
                Ok(CodegenVariable { name, kind: d.kind })
            },
            Ast::String(string) => Ok(self.emit_string(string.as_str())),
            Ast::Add { lhs, rhs } => {
                let name = self.next_id()?;
                let l = self.emit_value(lhs)?;
                let r = self.emit_value(rhs)?;
                self.write_add(name.as_str(), l.name.as_str(), r.name.as_str());
                Ok(CodegenVariable { name, kind: VarType::Int })
            },
            Ast::Identifier(ident) => {
                let mut global = String::from_str("$");
                global.append(ident.as_str());
                match find_variable(&self.globals, global.as_str()) {
                    Some(i) => Ok(copy_var(&self.globals[i])),
                    None => Err(NativeError::Unsupported),
                }
            },
            Ast::Integer(i) => {
                let name = self.next_id()?;
                self.write_copy(name.as_str(), *i);
                Ok(CodegenVariable { name, kind: VarType::Int })
            },
            _ => Err(NativeError::Unsupported),
        }
    }

    /// The forms of `body` as statements.
    pub fn emit_body(&mut self, body: &Vec<Ast>) -> (r: Result<(), NativeError>)
        ensures
            stated(r, q_body(old(self)@, terms_of(body@), 0), final(self)@),
    {
        let ghost whole = q_body(self@, terms_of(body@), 0);
        let mut i: usize = 0;
        while i < body.len()
            invariant
                i <= body.len(),
                whole == q_body(old(self)@, terms_of(body@), 0),
                whole == q_body(self@, terms_of(body@), i as nat),
            decreases body.len() - i,
        {
            assert(terms_of(body@)[i as int] == term_of(body@[i as int]));
            match self.emit_ast(&body[i]) {
                Ok(_) => {},
                Err(e) => {
                    return Err(e);
                },
            }
            i += 1;
        }
        Ok(())
    }

    /// The fields of a class: each is written with its type and laid
    /// behind the one before it. Gives the size and the members.
    pub fn declare_fields(&mut self, fields: &Vec<Variable>) -> (r: Result<
        (u64, Vec<Field>),
        NativeError,
    >)
        ensures
            match r {
                Ok((size, members)) => q_fields(
                    old(self)@,
                    fields_of(fields@),
                    0,
                    0,
                    Seq::empty(),
                ) == Ok::<(Frame, nat, Seq<Slot>), NativeError>(
                    (final(self)@, size as nat, slots_of(members@)),
                ),
                Err(e) => q_fields(old(self)@, fields_of(fields@), 0, 0, Seq::empty()) == Err::<
                    (Frame, nat, Seq<Slot>),
                    NativeError,
                >(e),
            },
    {
        let ghost whole = q_fields(self@, fields_of(fields@), 0, 0, Seq::empty());
        let mut members: Vec<Field> = Vec::new();
        let mut offset: u64 = 0;
        let mut i: usize = 0;
        assert(slots_of(members@) =~= Seq::<Slot>::empty());
        while i < fields.len()
            invariant
                i <= fields.len(),
                whole == q_fields(old(self)@, fields_of(fields@), 0, 0, Seq::empty()),
                whole == q_fields(
                    self@,
                    fields_of(fields@),
                    i as nat,
                    offset as nat,
                    slots_of(members@),
                ),
            decreases fields.len() - i,
        {
            assert(fields_of(fields@)[i as int] == field_of(fields@[i as int]));
            let kind = match infer_type(&fields[i].value) {
                Ok(k) => k,
                Err(e) => {
                    return Err(e);
                },
            };
            let w: u64 = match &kind {
                VarType::Int => 4,
                VarType::String => 8,
                _ => {
                    return Err(NativeError::Unsupported);
                },
            };
            if offset > u64::MAX - w {
                return Err(NativeError::TooLarge);
            }
            let ghost f = self@;
            self.out.append(" ");
            self.out.append(get_type_str(&kind));
            self.out.append(",");
            assert(self@.out =~= f.out + (" "@ + type_str(kind@) + ","@));
            insert_field(
                &mut members,
                Field {
                    name: fields[i].name.clone(),
                    offset,
                    default: init_of(&fields[i].value),
                },
            );
            offset = offset + w;
            i += 1;
        }
        Ok((offset, members))
    }

    /// The parameters in the head of a method.
    pub fn declare_params(&mut self, params: &Vec<AstParam>)
        ensures
            final(self)@ == q_params(old(self)@, params_of(params@), 0),
    {
        let ghost whole = q_params(self@, params_of(params@), 0);
        let mut i: usize = 0;
        while i < params.len()
            invariant
                i <= params.len(),
                whole == q_params(old(self)@, params_of(params@), 0),
                whole == q_params(self@, params_of(params@), i as nat),
            decreases params.len() - i,
        {
            assert(params_of(params@)[i as int] == param_of(params@[i as int]));
            let ghost f = self@;
            self.out.append(", w ");
            self.out.append(params[i].name.as_str());
            assert(self@.out =~= f.out + (", w "@ + params@[i as int].name@));
            self.params.push(CodegenVariable { name: params[i].name.clone(), kind: VarType::Int });
            assert(self@.params =~= f.params.push(
                Var { name: params@[i as int].name@, kind: Kind::Int },
            ));
            i += 1;
        }
    }

    /// The methods of the class `class`.
    pub fn declare_methods(&mut self, class: &str, functions: &Vec<AstFunction>) -> (r: Result<
        (),
        NativeError,
    >)
        ensures
            stated(r, q_methods(old(self)@, class@, functions_of(functions@), 0), final(self)@),
    {
        let ghost whole = q_methods(self@, class@, functions_of(functions@), 0);
        let mut i: usize = 0;
        while i < functions.len()
            invariant
                i <= functions.len(),
                whole == q_methods(old(self)@, class@, functions_of(functions@), 0),
                whole == q_methods(self@, class@, functions_of(functions@), i as nat),
            decreases functions.len() - i,
        {
            assert(functions_of(functions@)[i as int] == function_of(functions@[i as int]));
            proof {
                lemma_function_of(functions@[i as int]);
            }
            let ghost f = self@;
            self.out.append("function w $");
            self.out.append(class);
            self.out.append("_");
            self.out.append(functions[i].name.as_str());
            self.out.append("(:");
            self.out.append(class);
            self.out.append(" %self");
            assert(self@.out =~= f.out + ("function w $"@ + class@ + "_"@
                + functions@[i as int].name@ + "(:"@ + class@ + " %self"@));
            self.declare_params(&functions[i].params);
            self.write(") {\n@start\n");
            match self.emit_body(&functions[i].body) {
                Ok(_) => {},
                Err(e) => {
                    return Err(e);
                },
            }
            let ghost f2 = self@;
            self.params = Vec::new();
            assert(self@.params =~= Seq::<Var>::empty());
            self.write("    ret 0\n}\n");
            i += 1;
        }
        Ok(())
    }

    /// What a form declares before the program starts.
    pub fn declare(&mut self, ast: &Ast) -> (r: Result<(), NativeError>)
        ensures
            stated(r, q_declare(old(self)@, term_of(*ast)), final(self)@),
    {
        proof {
            lemma_term_of(*ast);
        }
        match ast {
            Ast::Let { name, init } => {
                let kind = infer_type(init)?;
                let ghost f = self@;
                self.out.append("data $");
                self.out.append(name.as_str());
                self.out.append(" = { ");
                self.out.append(get_type_str(&kind));
                self.out.append(" 0 }\n");
                assert(self@.out =~= f.out + ("data $"@ + name@ + " = { "@ + type_str(kind@)
                    + " 0 }\n"@));
                let mut global = String::from_str("$");
                global.append(name.as_str());
                self.globals.push(CodegenVariable { name: global, kind });
                assert(self@.globals =~= f.globals.push(Var { name: "$"@ + name@, kind: kind@ }));
                Ok(())
            },
            Ast::Class { name, fields, functions } => {
                let ghost f = self@;
                self.out.append("type :");
                self.out.append(name.as_str());
                self.out.append(" = {");
                assert(self@.out =~= f.out + ("type :"@ + name@ + " = {"@));
                let (size, members) = self.declare_fields(fields)?;
                self.write(" }\n");
                insert_layout(&mut self.classes, ClassLayout { name: name.clone(), size, members });
                self.current_class = Some(name.clone());
                self.declare_methods(name.as_str(), functions)?;
                self.current_class = None;
                Ok(())
            },
            _ => Ok(()),
        }
    }

    /// A program: the declarations, the forms as the statements of
    /// `main`, and the strings.
    pub fn generate(&mut self, asts: &Vec<Ast>) -> (r: Result<(), NativeError>)
        ensures
            stated(r, q_generate(old(self)@, terms_of(asts@)), final(self)@),
    {
        let ghost whole = q_declarations(self@, terms_of(asts@), 0);
        let mut i: usize = 0;
        while i < asts.len()
            invariant
                i <= asts.len(),
                whole == q_declarations(old(self)@, terms_of(asts@), 0),
                whole == q_declarations(self@, terms_of(asts@), i as nat),
            decreases asts.len() - i,
        {
            assert(terms_of(asts@)[i as int] == term_of(asts@[i as int]));
            match self.declare(&asts[i]) {
                Ok(_) => {},
                Err(e) => {
                    return Err(e);
                },
            }
            i += 1;
        }
        self.write("export function w $main() {\n@start\n");
        self.emit_body(asts)?;
        self.write("    ret 0\n}\n");
        push_string_data(&mut self.out, &self.strings, 0);
        Ok(())
    }
}

/// The code of a program with the top-level nodes `nodes`.
pub fn compile(nodes: &Vec<Node>) -> (r: Result<String, NativeError>)
    ensures
        match r {
            Ok(text) => q_program(nodes@) == Ok::<Seq<char>, NativeError>(text@),
            Err(e) => q_program(nodes@) == Err::<Seq<char>, NativeError>(e),
        },
{
    let asts = lower_all(nodes)?;
    let mut compiler = Compiler::new();
    compiler.generate(&asts)?;
    Ok(compiler.out)
}

} // verus!
