//! The binary module format: the constant pool and the class table as bytes.
//!
//! A module is a four-byte magic tag, a version byte, the strings of the
//! pool, and the classes, the module's own class first. Every count and
//! length has a fixed width, all of them little-endian; a module that does
//! not fit them is refused.

use crate::wire;
use vstd::prelude::*;
use vstd::string::*;
use vstd::utf8::encode_utf8;
use crate::emitter::Emitter;
use crate::error::CompileError;
use crate::opcode::le16;
use crate::opcode::le32;
use crate::pool::texts;
use crate::rules::State;
use crate::table::Class;
use crate::table::ClassView;
use crate::table::Field;
use crate::table::FieldView;
use crate::table::Function;
use crate::table::FunctionView;
use crate::table::class_views;
use crate::table::field_views;
use crate::table::function_views;
use crate::table::module_class;
use crate::table::root_class;

verus! {

/// The format version that this writer produces.
pub const FORMAT_VERSION: u8 = 1;

/// The largest length of a string or of a function's code, in bytes.
pub const LENGTH_LIMIT: usize = 0xffff;

/// The largest number of fields or functions of a class, and the largest
/// length of a field's default code.
pub const COUNT_LIMIT: usize = 0xff;

/// The largest number of strings or classes of a module.
pub const TABLE_LIMIT: usize = 0xffff_ffff;

/// The tag that a module starts with: `ROCK`.
pub open spec fn magic() -> Seq<u8> {
    seq![0x52u8, 0x4fu8, 0x43u8, 0x4bu8]
}

/// A string: its length in bytes, then its UTF-8 bytes.
pub open spec fn string_image(s: Seq<char>) -> Seq<u8> {
    le16(encode_utf8(s).len() as u16) + encode_utf8(s)
}

/// Whether the length of a string fits its length field.
pub open spec fn string_fits(s: Seq<char>) -> bool {
    encode_utf8(s).len() <= LENGTH_LIMIT
}

/// The strings of the pool, in order.
pub open spec fn strings_image(ss: Seq<Seq<char>>) -> Seq<u8>
    decreases ss.len(),
{
    if ss.len() == 0 {
        Seq::empty()
    } else {
        strings_image(ss.drop_last()) + string_image(ss.last())
    }
}

/// Whether each of the strings fits.
pub open spec fn strings_fit(ss: Seq<Seq<char>>) -> bool {
    forall|i: int| 0 <= i < ss.len() ==> string_fits(#[trigger] ss[i])
}

/// A field: its name, the length of its default code, the code.
pub open spec fn field_image(f: FieldView) -> Seq<u8> {
    string_image(f.name) + seq![f.default.len() as u8] + f.default
}

/// Whether the name of a field and the length of its default code fit.
pub open spec fn field_fits(f: FieldView) -> bool {
    string_fits(f.name) && f.default.len() <= COUNT_LIMIT
}

/// The fields of a class, in order.
pub open spec fn fields_image(fs: Seq<FieldView>) -> Seq<u8>
    decreases fs.len(),
{
    if fs.len() == 0 {
        Seq::empty()
    } else {
        fields_image(fs.drop_last()) + field_image(fs.last())
    }
}

/// Whether each of the fields fits.
pub open spec fn fields_fit(fs: Seq<FieldView>) -> bool {
    forall|i: int| 0 <= i < fs.len() ==> field_fits(#[trigger] fs[i])
}

/// A function: its selector, its arity, a reserved byte, the length of its
/// code, the code.
pub open spec fn function_image(f: FunctionView) -> Seq<u8> {
    string_image(f.selector) + seq![f.arity, 0u8] + le16(f.code.len() as u16) + f.code
}

/// Whether the selector of a function and the length of its code fit.
pub open spec fn function_fits(f: FunctionView) -> bool {
    string_fits(f.selector) && f.code.len() <= LENGTH_LIMIT
}

/// The functions of a class, in order.
pub open spec fn functions_image(fs: Seq<FunctionView>) -> Seq<u8>
    decreases fs.len(),
{
    if fs.len() == 0 {
        Seq::empty()
    } else {
        functions_image(fs.drop_last()) + function_image(fs.last())
    }
}

/// Whether each of the functions fits.
pub open spec fn functions_fit(fs: Seq<FunctionView>) -> bool {
    forall|i: int| 0 <= i < fs.len() ==> function_fits(#[trigger] fs[i])
}

/// A class: its name, its parent's name, its fields and its functions, each
/// list behind its count.
pub open spec fn class_image(c: ClassView) -> Seq<u8> {
    string_image(c.name) + string_image(c.parent) + seq![c.fields.len() as u8] + fields_image(
        c.fields,
    ) + seq![c.functions.len() as u8] + functions_image(c.functions)
}

/// Whether the names of a class, the numbers of its fields and functions,
/// and each of these fit.
pub open spec fn class_fits(c: ClassView) -> bool {
    &&& string_fits(c.name)
    &&& string_fits(c.parent)
    &&& c.fields.len() <= COUNT_LIMIT
    &&& fields_fit(c.fields)
    &&& c.functions.len() <= COUNT_LIMIT
    &&& functions_fit(c.functions)
}

/// The classes of a table, in order.
pub open spec fn classes_image(cs: Seq<ClassView>) -> Seq<u8>
    decreases cs.len(),
{
    if cs.len() == 0 {
        Seq::empty()
    } else {
        classes_image(cs.drop_last()) + class_image(cs.last())
    }
}

/// Whether each of the classes fits.
pub open spec fn classes_fit(cs: Seq<ClassView>) -> bool {
    forall|i: int| 0 <= i < cs.len() ==> class_fits(#[trigger] cs[i])
}

/// The class that holds the functions of the module itself.
pub open spec fn own_class(st: State) -> ClassView {
    ClassView {
        name: module_class(),
        parent: root_class(),
        fields: Seq::empty(),
        functions: st.functions,
    }
}

/// The bytes of a module.
pub open spec fn module_image(st: State) -> Seq<u8> {
    magic() + seq![FORMAT_VERSION] + le32(st.pool.len() as u32) + strings_image(st.pool) + le32(
        (st.classes.len() + 1) as u32,
    ) + class_image(own_class(st)) + classes_image(st.classes)
}

/// Whether a module fits the widths of the format.
pub open spec fn module_fits(st: State) -> bool {
    &&& st.pool.len() <= TABLE_LIMIT
    &&& strings_fit(st.pool)
    &&& st.classes.len() + 1 <= TABLE_LIMIT
    &&& class_fits(own_class(st))
    &&& classes_fit(st.classes)
}

/// Appends `bytes` to `buf`.
pub fn write_bytes(buf: &mut Vec<u8>, bytes: &[u8])
    ensures
        final(buf)@ == old(buf)@ + bytes@,
{
    let mut i: usize = 0;
    while i < bytes.len()
        invariant
            i <= bytes.len(),
            buf@ == old(buf)@ + bytes@.take(i as int),
        decreases bytes.len() - i,
    {
        wire::write_u8(buf, bytes[i]);
        assert(buf@ =~= old(buf)@ + bytes@.take(i + 1));
        i += 1;
    }
    assert(bytes@.take(i as int) =~= bytes@);
}

/// Appends a string to `buf`; fails where it is longer than its length
/// field can say.
pub fn write_string(buf: &mut Vec<u8>, s: &str) -> (r: Result<(), CompileError>)
    ensures
        match r {
            Ok(_) => string_fits(s@) && final(buf)@ == old(buf)@ + string_image(s@),
            Err(e) => e == CompileError::CapacityOverflow && !string_fits(s@),
        },
{
    let bytes = s.as_bytes();
    if bytes.len() > LENGTH_LIMIT {
        return Err(CompileError::CapacityOverflow);
    }
    wire::write_u16(buf, bytes.len() as u16);
    write_bytes(buf, bytes);
    assert(buf@ =~= old(buf)@ + string_image(s@));
    Ok(())
}

/// Appends the strings of a pool to `buf`.
pub fn write_strings(buf: &mut Vec<u8>, strings: &Vec<String>) -> (r: Result<(), CompileError>)
    ensures
        match r {
            Ok(_) => strings_fit(texts(strings@)) && final(buf)@ == old(buf)@ + strings_image(
                texts(strings@),
            ),
            Err(e) => e == CompileError::CapacityOverflow && !strings_fit(texts(strings@)),
        },
{
    let ghost all = texts(strings@);
    let mut i: usize = 0;
    assert(strings_image(all.take(0)) =~= Seq::<u8>::empty());
    while i < strings.len()
        invariant
            i <= strings.len(),
            all == texts(strings@),
            strings_fit(all.take(i as int)),
            buf@ == old(buf)@ + strings_image(all.take(i as int)),
        decreases strings.len() - i,
    {
        match write_string(buf, strings[i].as_str()) {
            Ok(_) => {},
            Err(e) => {
                assert(all[i as int] == strings@[i as int]@);
                return Err(e);
            },
        }
        proof {
            let now = all.take(i + 1);
            assert(now.drop_last() =~= all.take(i as int));
            assert(now.last() == strings@[i as int]@);
            assert(buf@ =~= old(buf)@ + strings_image(now));
            assert forall|k: int| 0 <= k < now.len() implies string_fits(#[trigger] now[k]) by {
                if k < i {
                    assert(now[k] == all.take(i as int)[k]);
                }
            }
        }
        i += 1;
    }
    assert(all.take(i as int) =~= all);
    Ok(())
}

/// Appends a field to `buf`.
pub fn write_field(buf: &mut Vec<u8>, field: &Field) -> (r: Result<(), CompileError>)
    ensures
        match r {
            Ok(_) => field_fits(field@) && final(buf)@ == old(buf)@ + field_image(field@),
            Err(e) => e == CompileError::CapacityOverflow && !field_fits(field@),
        },
{
    write_string(buf, field.name.as_str())?;
    if field.default.len() > COUNT_LIMIT {
        return Err(CompileError::CapacityOverflow);
    }
    wire::write_u8(buf, field.default.len() as u8);
    write_bytes(buf, field.default.as_slice());
    assert(buf@ =~= old(buf)@ + field_image(field@));
    Ok(())
}

/// Appends a function to `buf`.
pub fn write_function(buf: &mut Vec<u8>, function: &Function) -> (r: Result<(), CompileError>)
    ensures
        match r {
            Ok(_) => function_fits(function@) && final(buf)@ == old(buf)@ + function_image(
                function@,
            ),
            Err(e) => e == CompileError::CapacityOverflow && !function_fits(function@),
        },
{
    write_string(buf, function.selector.as_str())?;
    if function.code.len() > LENGTH_LIMIT {
        return Err(CompileError::CapacityOverflow);
    }
    wire::write_u8(buf, function.arity);
    wire::write_u8(buf, 0);
    wire::write_u16(buf, function.code.len() as u16);
    write_bytes(buf, function.code.as_slice());
    assert(buf@ =~= old(buf)@ + function_image(function@));
    Ok(())
}

/// Appends the fields of a class to `buf`.
pub fn write_fields(buf: &mut Vec<u8>, fields: &Vec<Field>) -> (r: Result<(), CompileError>)
    ensures
        match r {
            Ok(_) => fields_fit(field_views(fields@)) && final(buf)@ == old(buf)@ + fields_image(
                field_views(fields@),
            ),
            Err(e) => e == CompileError::CapacityOverflow && !fields_fit(field_views(fields@)),
        },
{
    let ghost all = field_views(fields@);
    let mut i: usize = 0;
    assert(fields_image(all.take(0)) =~= Seq::<u8>::empty());
    while i < fields.len()
        invariant
            i <= fields.len(),
            all == field_views(fields@),
            fields_fit(all.take(i as int)),
            buf@ == old(buf)@ + fields_image(all.take(i as int)),
        decreases fields.len() - i,
    {
        match write_field(buf, &fields[i]) {
            Ok(_) => {},
            Err(e) => {
                assert(all[i as int] == fields@[i as int]@);
                return Err(e);
            },
        }
        proof {
            let now = all.take(i + 1);
            assert(now.drop_last() =~= all.take(i as int));
            assert(now.last() == fields@[i as int]@);
            assert(buf@ =~= old(buf)@ + fields_image(now));
            assert forall|k: int| 0 <= k < now.len() implies field_fits(#[trigger] now[k]) by {
                if k < i {
                    assert(now[k] == all.take(i as int)[k]);
                }
            }
        }
        i += 1;
    }
    assert(all.take(i as int) =~= all);
    Ok(())
}

/// Appends the functions of a class to `buf`.
pub fn write_functions(buf: &mut Vec<u8>, functions: &Vec<Function>) -> (r: Result<
    (),
    CompileError,
>)
    ensures
        match r {
            Ok(_) => functions_fit(function_views(functions@)) && final(buf)@ == old(buf)@
                + functions_image(function_views(functions@)),
            Err(e) => e == CompileError::CapacityOverflow && !functions_fit(
                function_views(functions@),
            ),
        },
{
    let ghost all = function_views(functions@);
    let mut i: usize = 0;
    assert(functions_image(all.take(0)) =~= Seq::<u8>::empty());
    while i < functions.len()
        invariant
            i <= functions.len(),
            all == function_views(functions@),
            functions_fit(all.take(i as int)),
            buf@ == old(buf)@ + functions_image(all.take(i as int)),
        decreases functions.len() - i,
    {
        match write_function(buf, &functions[i]) {
            Ok(_) => {},
            Err(e) => {
                assert(all[i as int] == functions@[i as int]@);
                return Err(e);
            },
        }
        proof {
            let now = all.take(i + 1);
            assert(now.drop_last() =~= all.take(i as int));
            assert(now.last() == functions@[i as int]@);
            assert(buf@ =~= old(buf)@ + functions_image(now));
            assert forall|k: int| 0 <= k < now.len() implies function_fits(#[trigger] now[k]) by {
                if k < i {
                    assert(now[k] == all.take(i as int)[k]);
                }
            }
        }
        i += 1;
    }
    assert(all.take(i as int) =~= all);
    Ok(())
}

/// Appends a class, given by its parts, to `buf`.
pub fn write_class(
    buf: &mut Vec<u8>,
    name: &str,
    parent: &str,
    fields: &Vec<Field>,
    functions: &Vec<Function>,
) -> (r: Result<(), CompileError>)
    ensures
        match r {
            Ok(_) => class_fits(
                ClassView {
                    name: name@,
                    parent: parent@,
                    fields: field_views(fields@),
                    functions: function_views(functions@),
                },
            ) && final(buf)@ == old(buf)@ + class_image(
                ClassView {
                    name: name@,
                    parent: parent@,
                    fields: field_views(fields@),
                    functions: function_views(functions@),
                },
            ),
            Err(e) => e == CompileError::CapacityOverflow && !class_fits(
                ClassView {
                    name: name@,
                    parent: parent@,
                    fields: field_views(fields@),
                    functions: function_views(functions@),
                },
            ),
        },
{
    write_string(buf, name)?;
    write_string(buf, parent)?;
    if fields.len() > COUNT_LIMIT {
        return Err(CompileError::CapacityOverflow);
    }
    wire::write_u8(buf, fields.len() as u8);
    write_fields(buf, fields)?;
    if functions.len() > COUNT_LIMIT {
        return Err(CompileError::CapacityOverflow);
    }
    wire::write_u8(buf, functions.len() as u8);
    write_functions(buf, functions)?;
    assert(buf@ =~= old(buf)@ + class_image(
        ClassView {
            name: name@,
            parent: parent@,
            fields: field_views(fields@),
            functions: function_views(functions@),
        },
    ));
    Ok(())
}

/// Appends the classes of a table to `buf`.
pub fn write_classes(buf: &mut Vec<u8>, classes: &Vec<Class>) -> (r: Result<(), CompileError>)
    ensures
        match r {
            Ok(_) => classes_fit(class_views(classes@)) && final(buf)@ == old(buf)@
                + classes_image(class_views(classes@)),
            Err(e) => e == CompileError::CapacityOverflow && !classes_fit(class_views(classes@)),
        },
{
    let ghost all = class_views(classes@);
    let mut i: usize = 0;
    assert(classes_image(all.take(0)) =~= Seq::<u8>::empty());
    while i < classes.len()
        invariant
            i <= classes.len(),
            all == class_views(classes@),
            classes_fit(all.take(i as int)),
            buf@ == old(buf)@ + classes_image(all.take(i as int)),
        decreases classes.len() - i,
    {
        let class = &classes[i];
        assert(all[i as int] == class@);
        match write_class(
            buf,
            class.name.as_str(),
            class.parent.as_str(),
            &class.fields,
            &class.functions,
        ) {
            Ok(_) => {},
            Err(e) => {
                return Err(e);
            },
        }
        proof {
            let now = all.take(i + 1);
            assert(now.drop_last() =~= all.take(i as int));
            assert(now.last() == class@);
            assert(buf@ =~= old(buf)@ + classes_image(now));
            assert forall|k: int| 0 <= k < now.len() implies class_fits(#[trigger] now[k]) by {
                if k < i {
                    assert(now[k] == all.take(i as int)[k]);
                }
            }
        }
        i += 1;
    }
    assert(all.take(i as int) =~= all);
    Ok(())
}

/// The bytes of the module that an emitter holds.
pub fn write_module(emitter: &Emitter) -> (r: Result<Vec<u8>, CompileError>)
    ensures
        match r {
            Ok(bytes) => module_fits(emitter@) && bytes@ == module_image(emitter@),
            Err(e) => e == CompileError::CapacityOverflow && !module_fits(emitter@),
        },
{
    if emitter.pool.strings.len() > TABLE_LIMIT || emitter.classes.len() >= TABLE_LIMIT {
        return Err(CompileError::CapacityOverflow);
    }
    let mut buf: Vec<u8> = Vec::new();
    wire::write_u8(&mut buf, 0x52);
    wire::write_u8(&mut buf, 0x4f);
    wire::write_u8(&mut buf, 0x43);
    wire::write_u8(&mut buf, 0x4b);
    wire::write_u8(&mut buf, FORMAT_VERSION);
    wire::write_u32(&mut buf, emitter.pool.strings.len() as u32);
    write_strings(&mut buf, &emitter.pool.strings)?;
    wire::write_u32(&mut buf, (emitter.classes.len() + 1) as u32);
    let none: Vec<Field> = Vec::new();
    assert(field_views(none@) =~= Seq::<FieldView>::empty());
    write_class(&mut buf, "$self", "Object", &none, &emitter.functions)?;
    write_classes(&mut buf, &emitter.classes)?;
    assert(buf@ =~= module_image(emitter@));
    Ok(buf)
}

} // verus!
