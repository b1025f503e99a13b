//! Scope resolution: whether an identifier names a local slot, a field of
//! the receiver, or a module variable.

use vstd::prelude::*;
use vstd::string::*;
use crate::error::CompileError;
use crate::pool::find_str;
use crate::pool::lemma_position;
use crate::pool::position;
use crate::pool::texts;

verus! {

/// The largest number of local slots: a slot index is 16 bits wide.
pub const SLOT_LIMIT: usize = 65536;

/// The largest number of parameters: an argument count is 8 bits wide.
pub const ARITY_LIMIT: usize = 255;

/// What an identifier refers to.
#[derive(Debug, Clone, Copy, PartialEq, Eq, Structural)]
pub enum Binding {
    /// A parameter or local of the active function, by slot.
    Local(u16),
    /// A field of the receiver.
    Field,
    /// A variable of the module.
    Global,
}

/// What the compiler knows of the function whose body it is compiling.
pub struct Context {
    /// The enclosing class, inside a method.
    pub class_name: Option<String>,
    /// The parent that the enclosing class declares, if it declares one.
    pub parent_name: Option<String>,
    /// The fields in scope: those of the class, then those of its ancestors.
    pub fields: Vec<String>,
    /// The name of the active function, without its argument count.
    pub function_name: String,
    /// The number of parameters that the active function declares.
    pub arity: usize,
    /// The names of the local slots: receiver, parameters, declared locals.
    pub locals: Vec<String>,
    /// Whether the code runs outside any function, where a declaration
    /// makes a module variable.
    pub top_level: bool,
}

/// What a context holds, apart from how it is stored.
pub struct ContextView {
    pub class_name: Option<Seq<char>>,
    pub parent_name: Option<Seq<char>>,
    pub fields: Seq<Seq<char>>,
    pub function_name: Seq<char>,
    pub arity: nat,
    pub locals: Seq<Seq<char>>,
    pub top_level: bool,
}

/// The characters of an optional string.
pub open spec fn opt_text(o: Option<String>) -> Option<Seq<char>> {
    match o {
        Some(s) => Some(s@),
        None => None,
    }
}

impl View for Context {
    type V = ContextView;

    open spec fn view(&self) -> ContextView {
        ContextView {
            class_name: opt_text(self.class_name),
            parent_name: opt_text(self.parent_name),
            fields: texts(self.fields@),
            function_name: self.function_name@,
            arity: self.arity as nat,
            locals: texts(self.locals@),
            top_level: self.top_level,
        }
    }
}

/// Every slot index and the argument count fit their operands.
pub open spec fn context_wf(cx: ContextView) -> bool {
    &&& cx.locals.len() <= SLOT_LIMIT
    &&& cx.arity <= ARITY_LIMIT
}

/// Resolution in strict order: a local slot, else a field, else a module
/// variable.
pub open spec fn resolve(cx: ContextView, name: Seq<char>) -> Binding {
    match position(cx.locals, name) {
        Some(i) => Binding::Local(i as u16),
        None => if position(cx.fields, name) is Some {
            Binding::Field
        } else {
            Binding::Global
        },
    }
}

/// The context after `name` was declared as a local, with the slot of
/// `name`: its old slot where it has one, else a new one at the end.
pub open spec fn declare_local(cx: ContextView, name: Seq<char>) -> Result<
    (ContextView, u16),
    CompileError,
> {
    match position(cx.locals, name) {
        Some(i) => Ok((cx, i as u16)),
        None => if cx.locals.len() >= SLOT_LIMIT {
            Err(CompileError::CapacityOverflow)
        } else {
            Ok((ContextView { locals: cx.locals.push(name), ..cx }, cx.locals.len() as u16))
        },
    }
}

/// The context of code outside any function: the receiver slot only.
pub open spec fn top_level_context() -> ContextView {
    ContextView {
        class_name: None,
        parent_name: None,
        fields: Seq::empty(),
        function_name: Seq::empty(),
        arity: 0,
        locals: seq!["this"@],
        top_level: true,
    }
}

/// The context in which the default value of a field is compiled: no
/// locals and no fields.
pub open spec fn field_context() -> ContextView {
    ContextView {
        class_name: None,
        parent_name: None,
        fields: Seq::empty(),
        function_name: Seq::empty(),
        arity: 0,
        locals: Seq::empty(),
        top_level: true,
    }
}

/// The context of the body of a function: the receiver, then the parameters.
pub open spec fn function_context(
    class_name: Option<Seq<char>>,
    parent_name: Option<Seq<char>>,
    fields: Seq<Seq<char>>,
    name: Seq<char>,
    params: Seq<Seq<char>>,
) -> ContextView {
    ContextView {
        class_name,
        parent_name,
        fields,
        function_name: name,
        arity: params.len(),
        locals: seq!["this"@] + params,
        top_level: false,
    }
}

impl Context {
    /// Every slot index and the argument count fit their operands.
    pub open spec fn wf(&self) -> bool {
        context_wf(self@)
    }

    /// Builds [`top_level_context`].
    pub fn top_level() -> (r: Context)
        ensures
            r.wf(),
            r@ == top_level_context(),
    {
        let mut locals: Vec<String> = Vec::new();
        locals.push(String::from_str("this"));
        let r = Context {
            class_name: None,
            parent_name: None,
            fields: Vec::new(),
            function_name: String::new(),
            arity: 0,
            locals,
            top_level: true,
        };
        assert(r@.locals =~= seq!["this"@]);
        assert(r@.fields =~= Seq::empty());
        r
    }

    /// Builds [`field_context`].
    pub fn for_field() -> (r: Context)
        ensures
            r.wf(),
            r@ == field_context(),
    {
        let r = Context {
            class_name: None,
            parent_name: None,
            fields: Vec::new(),
            function_name: String::new(),
            arity: 0,
            locals: Vec::new(),
            top_level: true,
        };
        assert(r@.locals =~= Seq::empty());
        assert(r@.fields =~= Seq::empty());
        r
    }

    /// Builds [`function_context`] from the slot names of a function:
    /// `slots` holds the receiver and then the parameters.
    pub(crate) fn for_function(
        class_name: Option<String>,
        parent_name: Option<String>,
        fields: Vec<String>,
        name: String,
        slots: Vec<String>,
    ) -> (r: Context)
        requires
            1 <= slots@.len() <= ARITY_LIMIT + 1,
            slots@[0]@ == "this"@,
        ensures
            r.wf(),
            r@ == function_context(
                opt_text(class_name),
                opt_text(parent_name),
                texts(fields@),
                name@,
                texts(slots@).subrange(1, slots@.len() as int),
            ),
    {
        let arity = slots.len() - 1;
        let r = Context {
            class_name,
            parent_name,
            fields,
            function_name: name,
            arity,
            locals: slots,
            top_level: false,
        };
        assert(r@.locals =~= seq!["this"@] + texts(slots@).subrange(1, slots@.len() as int));
        r
    }

    /// Classifies `name`.
    pub fn resolve(&self, name: &str) -> (r: Binding)
        requires
            self.wf(),
        ensures
            r == resolve(self@, name@),
    {
        proof {
            lemma_position(self@.locals, name@);
        }
        match find_str(&self.locals, name) {
            Some(i) => Binding::Local(i as u16),
            None => match find_str(&self.fields, name) {
                Some(_) => Binding::Field,
                None => Binding::Global,
            },
        }
    }

    /// Declares `name` as a local and returns its slot.
    pub fn declare(&mut self, name: &str) -> (r: Result<u16, CompileError>)
        requires
            old(self).wf(),
        ensures
            final(self).wf(),
            match r {
                Ok(slot) => declare_local(old(self)@, name@) == Ok::<_, CompileError>(
                    (final(self)@, slot),
                ),
                Err(e) => declare_local(old(self)@, name@) == Err::<(ContextView, u16), _>(e)
                    && final(self)@ == old(self)@,
            },
    {
        proof {
            lemma_position(self@.locals, name@);
        }
        match find_str(&self.locals, name) {
            Some(i) => Ok(i as u16),
            None => {
                if self.locals.len() >= SLOT_LIMIT {
                    return Err(CompileError::CapacityOverflow);
                }
                let slot = self.locals.len() as u16;
                let ghost before = self@;
                self.locals.push(String::from_str(name));
                assert(self@.locals =~= before.locals.push(name@));
                Ok(slot)
            },
        }
    }
}

} // verus!
