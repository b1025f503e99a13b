//! Classes, their fields and functions, and the table that holds them.

use vstd::prelude::*;
use crate::opcode::Instr;
use crate::opcode::code_bound;
use crate::opcode::code_ok;
use crate::opcode::encode;
use crate::pool::lemma_position;
use crate::pool::position;
use crate::pool::texts;
use crate::text::str_eq;

verus! {

/// A compiled function: what the module format stores of it.
pub struct Function {
    pub selector: String,
    pub arity: u8,
    pub code: Vec<u8>,
    /// The names of the receiver slot and of the parameters.
    pub params: Vec<String>,
}

/// What a function holds, apart from how it is stored.
pub struct FunctionView {
    pub selector: Seq<char>,
    pub arity: u8,
    pub code: Seq<u8>,
    pub params: Seq<Seq<char>>,
}

impl View for Function {
    type V = FunctionView;

    open spec fn view(&self) -> FunctionView {
        FunctionView {
            selector: self.selector@,
            arity: self.arity,
            code: self.code@,
            params: texts(self.params@),
        }
    }
}

/// A field of a class with the code of its default value.
pub struct Field {
    pub name: String,
    pub default: Vec<u8>,
}

/// What a field holds, apart from how it is stored.
pub struct FieldView {
    pub name: Seq<char>,
    pub default: Seq<u8>,
}

impl View for Field {
    type V = FieldView;

    open spec fn view(&self) -> FieldView {
        FieldView { name: self.name@, default: self.default@ }
    }
}

/// A compiled class.
pub struct Class {
    pub name: String,
    pub parent: String,
    pub fields: Vec<Field>,
    pub functions: Vec<Function>,
}

/// What a class holds, apart from how it is stored.
pub struct ClassView {
    pub name: Seq<char>,
    pub parent: Seq<char>,
    pub fields: Seq<FieldView>,
    pub functions: Seq<FunctionView>,
}

impl View for Class {
    type V = ClassView;

    open spec fn view(&self) -> ClassView {
        ClassView {
            name: self.name@,
            parent: self.parent@,
            fields: field_views(self.fields@),
            functions: function_views(self.functions@),
        }
    }
}

/// The views of a sequence of functions.
pub open spec fn function_views(v: Seq<Function>) -> Seq<FunctionView> {
    v.map_values(|f: Function| f@)
}

/// The views of a sequence of fields.
pub open spec fn field_views(v: Seq<Field>) -> Seq<FieldView> {
    v.map_values(|f: Field| f@)
}

/// The views of a sequence of classes.
pub open spec fn class_views(v: Seq<Class>) -> Seq<ClassView> {
    v.map_values(|c: Class| c@)
}

/// The selectors of a list of functions, in order.
pub open spec fn selectors(fs: Seq<FunctionView>) -> Seq<Seq<char>> {
    fs.map_values(|f: FunctionView| f.selector)
}

/// The names of a list of fields, in order.
pub open spec fn field_names(fs: Seq<FieldView>) -> Seq<Seq<char>> {
    fs.map_values(|f: FieldView| f.name)
}

/// The names of a list of classes, in order.
pub open spec fn class_names(cs: Seq<ClassView>) -> Seq<Seq<char>> {
    cs.map_values(|c: ClassView| c.name)
}

/// The name that a class without a declared parent has as its parent. No
/// class of that name is ever in the table.
pub open spec fn root_class() -> Seq<char> {
    "Object"@
}

/// The name of the class that holds the module's own functions.
pub open spec fn module_class() -> Seq<char> {
    "$self"@
}

/// The fields that a class inherits from `parent` and its ancestors, nearest
/// ancestor first. Only the first `limit` classes of the table are looked at:
/// a parent stands before its children.
pub open spec fn inherited_fields(cs: Seq<ClassView>, parent: Seq<char>, limit: nat) -> Seq<
    Seq<char>,
>
    decreases limit,
{
    if limit > cs.len() {
        Seq::empty()
    } else {
        match position(class_names(cs.take(limit as int)), parent) {
            None => Seq::empty(),
            Some(i) => if i < limit {
                field_names(cs[i as int].fields) + inherited_fields(cs, cs[i as int].parent, i)
            } else {
                Seq::empty()
            },
        }
    }
}

/// Every class has a name of its own, and its parent, unless it is the root,
/// stands before it in the table.
pub open spec fn table_wf(cs: Seq<ClassView>) -> bool {
    &&& class_names(cs).no_duplicates()
    &&& forall|i: int|
        0 <= i < cs.len() ==> (#[trigger] cs[i]).parent == root_class() || position(
            class_names(cs.take(i)),
            cs[i].parent,
        ) is Some
}

/// Whether `code` is the bytes of a function body: of instructions that
/// end in a return and refer to no pool index beyond the first `n`.
pub open spec fn body_ok(code: Seq<u8>, n: nat) -> bool {
    exists|body: Seq<Instr>|
        code_ok(body) && code_bound(body) <= n && code == encode(
            #[trigger] body.push(Instr::Return),
        )
}

/// Whether `code` is the bytes of instructions that refer to no pool index
/// beyond the first `n`.
pub open spec fn image_ok(code: Seq<u8>, n: nat) -> bool {
    exists|body: Seq<Instr>| code_ok(body) && code_bound(body) <= n && code == #[trigger] encode(body)
}

/// Whether the code of every function of a list is a function body.
pub open spec fn functions_wf(fs: Seq<FunctionView>, n: nat) -> bool {
    forall|i: int| 0 <= i < fs.len() ==> body_ok(#[trigger] fs[i].code, n)
}

/// A method has the receiver as its first slot, and one slot for each
/// parameter behind it.
pub open spec fn method_shape(f: FunctionView) -> bool {
    f.params.len() == f.arity + 1 && f.params[0] == "this"@
}

/// Whether every function of a list is a method with the body of a function.
pub open spec fn methods_wf(fs: Seq<FunctionView>, n: nat) -> bool {
    forall|i: int| 0 <= i < fs.len() ==> body_ok((#[trigger] fs[i]).code, n) && method_shape(fs[i])
}

/// Whether the default value of every field of a list is code.
pub open spec fn fields_wf(fs: Seq<FieldView>, n: nat) -> bool {
    forall|i: int| 0 <= i < fs.len() ==> image_ok(#[trigger] fs[i].default, n)
}

/// The first of the first `limit` classes that is called `name`.
pub fn find_class(cs: &Vec<Class>, name: &str, limit: usize) -> (r: Option<usize>)
    requires
        limit <= cs.len(),
    ensures
        match r {
            Some(i) => position(class_names(class_views(cs@).take(limit as int)), name@) == Some(
                i as nat,
            ) && i < limit,
            None => position(class_names(class_views(cs@).take(limit as int)), name@) is None,
        },
{
    let ghost names = class_names(class_views(cs@).take(limit as int));
    let mut i: usize = 0;
    while i < limit
        invariant
            i <= limit <= cs.len(),
            names == class_names(class_views(cs@).take(limit as int)),
            forall|k: int| 0 <= k < i ==> names[k] != name@,
        decreases limit - i,
    {
        assert(names[i as int] == cs@[i as int].name@);
        if str_eq(cs[i].name.as_str(), name) {
            proof {
                lemma_position(names, name@);
            }
            return Some(i);
        }
        i += 1;
    }
    proof {
        lemma_position(names, name@);
    }
    None
}

/// Appends copies of the names of `fields` to `out`.
pub fn push_field_names(out: &mut Vec<String>, fields: &Vec<Field>)
    ensures
        texts(final(out)@) == texts(old(out)@) + field_names(field_views(fields@)),
{
    let mut k: usize = 0;
    while k < fields.len()
        invariant
            k <= fields.len(),
            texts(out@) == texts(old(out)@) + field_names(field_views(fields@)).take(k as int),
        decreases fields.len() - k,
    {
        let ghost before = texts(out@);
        out.push(fields[k].name.clone());
        assert(texts(out@) =~= before.push(fields@[k as int].name@));
        assert(field_names(field_views(fields@)).take(k + 1) =~= field_names(
            field_views(fields@),
        ).take(k as int).push(fields@[k as int].name@));
        k += 1;
    }
    assert(field_names(field_views(fields@)).take(k as int) =~= field_names(field_views(fields@)));
}

/// Appends to `out` the names of the fields inherited from `parent` and its
/// ancestors.
pub fn push_inherited_fields(out: &mut Vec<String>, cs: &Vec<Class>, parent: &str, limit: usize)
    requires
        limit <= cs.len(),
    ensures
        texts(final(out)@) == texts(old(out)@) + inherited_fields(
            class_views(cs@),
            parent@,
            limit as nat,
        ),
{
    let ghost views = class_views(cs@);
    let ghost whole = inherited_fields(views, parent@, limit as nat);
    let mut bound: usize = limit;
    let mut at = find_class(cs, parent, limit);
    let ghost mut current: Seq<char> = parent@;
    while at.is_some()
        invariant
            bound <= cs.len(),
            views == class_views(cs@),
            match at {
                Some(i) => position(class_names(views.take(bound as int)), current) == Some(
                    i as nat,
                ) && i < bound,
                None => position(class_names(views.take(bound as int)), current) is None,
            },
            texts(old(out)@) + whole == texts(out@) + inherited_fields(views, current, bound as nat),
        decreases bound,
    {
        let i = at.unwrap();
        let ghost before = texts(out@);
        let ghost rest = inherited_fields(views, views[i as int].parent, i as nat);
        assert(views[i as int] == cs@[i as int]@);
        push_field_names(out, &cs[i].fields);
        proof {
            assert(before + (field_names(views[i as int].fields) + rest) =~= (before + field_names(
                views[i as int].fields,
            )) + rest);
            current = cs@[i as int].parent@;
        }
        at = find_class(cs, cs[i].parent.as_str(), i);
        bound = i;
    }
    assert(texts(old(out)@) + whole =~= texts(out@));
}

/// A class inherits every field of its parent, and every field that its
/// parent inherits.
pub proof fn law_inheritance_flattens(cs: Seq<ClassView>, child: int, parent: int)
    requires
        table_wf(cs),
        0 <= parent < child < cs.len(),
        cs[child].parent == cs[parent].name,
    ensures
        inherited_fields(cs, cs[child].parent, child as nat) == field_names(cs[parent].fields)
            + inherited_fields(cs, cs[parent].parent, parent as nat),
{
    let names = class_names(cs.take(child));
    lemma_position(names, cs[parent].name);
    let found = position(names, cs[parent].name);
    assert(names[parent] == cs[parent].name);
    assert(found is Some);
    let i = found.unwrap() as int;
    assert(names[i] == cs[i].name);
    assert(class_names(cs)[i] == cs[i].name);
    assert(class_names(cs)[parent] == cs[parent].name);
    assert(i == parent);
}

} // verus!
