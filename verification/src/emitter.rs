//! The emitter: the executable compiler from syntax trees to bytecode.
//!
//! Each function here computes one function of [`crate::rules`], on the
//! emitter's own state in place of a state that is passed along.

use vstd::prelude::*;
use vstd::string::*;
use crate::code::Code;
use crate::code::bare_instr;
use crate::error::CompileError;
use crate::error::Form;
use crate::loader::Unit;
use crate::node::Node;
use crate::node::Param;
use crate::opcode::Instr;
use crate::opcode::OP_ADD;
use crate::opcode::OP_FALSE;
use crate::opcode::OP_LOAD_FIELD_THIS;
use crate::opcode::OP_LOAD_LOCAL_VAR;
use crate::opcode::OP_LOAD_MODULE_VAR;
use crate::opcode::OP_NULL;
use crate::opcode::OP_STORE_FIELD_THIS;
use crate::opcode::OP_STORE_LOCAL_VAR;
use crate::opcode::OP_STORE_MODULE_VAR;
use crate::opcode::OP_TRUE;
use crate::opcode::Value;
use crate::pool::ConstantPool;
use crate::pool::lemma_position;
use crate::pool::lemma_position_push;
use crate::pool::position;
use crate::pool::texts;
use crate::rules::Compiled;
use crate::rules::Out;
use crate::rules::State;
use crate::rules::c_constant;
use crate::rules::c_identifier;
use crate::rules::c_inc;
use crate::rules::c_load_name;
use crate::rules::c_load_variable;
use crate::rules::c_program;
use crate::rules::c_store_name;
use crate::rules::initial_state;
use crate::rules::intern;
use crate::rules::lemma_state_grows;
use crate::rules::local_loads;
use crate::rules::param_names;
use crate::rules::slot_names;
use crate::rules::state_wf;
use crate::scope::Binding;
use crate::scope::Context;
use crate::scope::ContextView;
use crate::scope::SLOT_LIMIT;
use crate::selector::selector;
use crate::table::Class;
use crate::table::Function;
use crate::table::class_views;
use crate::table::function_views;
use crate::table::selectors;
use crate::text::str_eq;
use crate::writer::module_fits;
use crate::writer::module_image;
use crate::writer::write_module;

verus! {

/// The compiler's state: the constant pool, the functions of the module,
/// the classes, and the number of the next closure.
pub struct Emitter {
    pub pool: ConstantPool,
    pub functions: Vec<Function>,
    pub classes: Vec<Class>,
    pub closure_id: u32,
}

impl View for Emitter {
    type V = State;

    open spec fn view(&self) -> State {
        State {
            pool: self.pool@,
            functions: function_views(self.functions@),
            classes: class_views(self.classes@),
            closure_id: self.closure_id as nat,
        }
    }
}

/// Whether what a function returned is what the rules say: the same
/// instructions with the same state and context, or the same error. The
/// instructions then refer to strings of the pool only, and the pool has
/// lost none.
pub open spec fn agrees(
    r: Result<Code, CompileError>,
    rule: Compiled,
    before: State,
    st: State,
    cx: ContextView,
) -> bool {
    match r {
        Ok(code) => {
            &&& code.wf()
            &&& rule == Ok::<Out, CompileError>(Out { st, cx, code: code@ })
            &&& code.bound() <= st.pool.len()
            &&& before.pool.len() <= st.pool.len()
        },
        Err(e) => rule == Err::<Out, CompileError>(e),
    }
}

/// [`agrees`] for the rules that yield a single instruction.
pub open spec fn agrees_one(
    r: Result<Code, CompileError>,
    rule: Result<(State, Instr), CompileError>,
    before: State,
    st: State,
) -> bool {
    match r {
        Ok(code) => {
            &&& code.wf()
            &&& code@.len() == 1
            &&& rule == Ok::<(State, Instr), CompileError>((st, code@[0]))
            &&& code.bound() <= st.pool.len()
            &&& before.pool.len() <= st.pool.len()
        },
        Err(e) => rule == Err::<(State, Instr), CompileError>(e),
    }
}

/// What is emitted between the elements of a sequence.
#[derive(Clone, Copy)]
pub enum Glue {
    Nothing,
    Pop,
    /// A call of the one-argument selector with the given pool index.
    Append(u16),
}

/// The instructions that a [`Glue`] stands for.
pub open spec fn glue_code(g: Glue) -> Seq<Instr> {
    match g {
        Glue::Nothing => Seq::empty(),
        Glue::Pop => seq![Instr::Pop],
        Glue::Append(i) => seq![Instr::Call(i, 1)],
    }
}

/// One more than the pool index that a [`Glue`] refers to; zero where it
/// refers to none.
pub open spec fn glue_bound(g: Glue) -> nat {
    match g {
        Glue::Append(i) => (i + 1) as nat,
        _ => 0,
    }
}

/// The instructions of an operator, negated or not.
pub open spec fn operator_code(op: u8, negate: bool) -> Seq<Instr> {
    if negate {
        seq![bare_instr(op), Instr::Not]
    } else {
        seq![bare_instr(op)]
    }
}

/// The slot names of a function with the first `upto` of `params`.
pub(crate) fn slot_vec(params: &Vec<Param>, upto: usize) -> (r: Vec<String>)
    requires
        upto <= params@.len(),
    ensures
        texts(r@) == slot_names(param_names(params@).take(upto as int)),
        r@.len() == upto + 1,
        r@[0]@ == "this"@,
{
    let mut r: Vec<String> = Vec::new();
    r.push(String::from_str("this"));
    let mut k: usize = 0;
    while k < upto
        invariant
            k <= upto <= params@.len(),
            r@.len() == k + 1,
            r@[0]@ == "this"@,
            texts(r@) == slot_names(param_names(params@).take(k as int)),
        decreases upto - k,
    {
        let ghost before = texts(r@);
        r.push(params[k].name.clone());
        assert(texts(r@) =~= before.push(params@[k as int].name@));
        assert(param_names(params@).take(k + 1) =~= param_names(params@).take(k as int).push(
            params@[k as int].name@,
        ));
        assert(texts(r@) =~= slot_names(param_names(params@).take(k + 1)));
        k += 1;
    }
    r
}

/// Appends the loads of the local slots from `from` up to `to`.
pub(crate) fn emit_local_loads(code: &mut Code, from: usize, to: usize)
    requires
        old(code).wf(),
        from <= to <= SLOT_LIMIT,
    ensures
        final(code).wf(),
        final(code)@ == old(code)@ + local_loads(from as nat, to as nat),
        final(code).bound() == old(code).bound(),
{
    let mut k: usize = from;
    assert(local_loads(from as nat, from as nat) =~= Seq::empty());
    while k < to
        invariant
            from <= k <= to <= SLOT_LIMIT,
            code.wf(),
            code.bound() == old(code).bound(),
            code@ == old(code)@ + local_loads(from as nat, k as nat),
        decreases to - k,
    {
        code.emit_index(OP_LOAD_LOCAL_VAR, k as u16);
        assert(local_loads(from as nat, (k + 1) as nat) =~= local_loads(from as nat, k as nat).push(
            Instr::LoadLocalVar(k as u16),
        ));
        k += 1;
    }
}

/// Whether one of `fs` has the selector `sel`.
pub fn has_selector(fs: &Vec<Function>, sel: &str) -> (r: bool)
    ensures
        r == (position(selectors(function_views(fs@)), sel@) is Some),
{
    let ghost names = selectors(function_views(fs@));
    let mut i: usize = 0;
    while i < fs.len()
        invariant
            i <= fs.len(),
            names == selectors(function_views(fs@)),
            forall|k: int| 0 <= k < i ==> names[k] != sel@,
        decreases fs.len() - i,
    {
        assert(names[i as int] == fs@[i as int].selector@);
        if str_eq(fs[i].selector.as_str(), sel) {
            proof {
                lemma_position(names, sel@);
            }
            return true;
        }
        i += 1;
    }
    proof {
        lemma_position(names, sel@);
    }
    false
}

impl Emitter {
    /// The state is well formed.
    pub open spec fn wf(&self) -> bool {
        state_wf(self@)
    }

    /// An emitter at the start of a run.
    pub fn new() -> (r: Emitter)
        ensures
            r.wf(),
            r@ == initial_state(),
    {
        let mut pool = ConstantPool::new();
        let ghost empty = pool@;
        let pushed = pool.str_push("$self");
        proof {
            lemma_position(empty, "$self"@);
        }
        let r = Emitter { pool, functions: Vec::new(), classes: Vec::new(), closure_id: 0 };
        assert(r@.pool =~= seq!["$self"@]);
        assert(r@.functions =~= Seq::empty());
        assert(r@.classes =~= Seq::empty());
        r
    }

    /// Adds `s` to the pool unless it is there.
    pub fn str_push(&mut self, s: &str) -> (r: Result<(), CompileError>)
        requires
            old(self).wf(),
        ensures
            final(self).wf(),
            match r {
                Ok(_) => intern(old(self)@, s@) is Ok
                    && intern(old(self)@, s@).unwrap().0 == final(self)@,
                Err(e) => intern(old(self)@, s@) == Err::<(State, u16), CompileError>(e)
                    && final(self)@ == old(self)@,
            },
    {
        match self.intern(s) {
            Ok(_) => Ok(()),
            Err(e) => Err(e),
        }
    }

    /// The pool index of a string that was pushed.
    pub fn str_index(&self, s: &str) -> (r: u16)
        requires
            self.wf(),
            position(self@.pool, s@) is Some,
        ensures
            position(self@.pool, s@) == Some(r as nat),
    {
        self.pool.str_index(s)
    }

    /// Pushes `s` into the pool and returns its index.
    pub fn intern(&mut self, s: &str) -> (r: Result<u16, CompileError>)
        requires
            old(self).wf(),
        ensures
            final(self).wf(),
            match r {
                Ok(i) => intern(old(self)@, s@) == Ok::<(State, u16), CompileError>(
                    (final(self)@, i),
                ) && i < final(self)@.pool.len() && old(self)@.pool.len() <= final(self)@.pool.len(),
                Err(e) => intern(old(self)@, s@) == Err::<(State, u16), CompileError>(e)
                    && final(self)@ == old(self)@,
            },
    {
        let ghost before = self@;
        proof {
            lemma_position(self@.pool, s@);
            lemma_position_push(self@.pool, s@, s@);
        }
        let r = self.pool.intern(s);
        proof {
            lemma_position(self@.pool, s@);
            lemma_state_grows(before, self@.pool);
        }
        r
    }

    /// The load of a literal.
    pub fn parse_constant(&mut self, node: &Node) -> (r: Result<Code, CompileError>)
        requires
            old(self).wf(),
        ensures
            final(self).wf(),
            agrees_one(r, c_constant(old(self)@, *node), old(self)@, final(self)@),
            r is Err ==> final(self)@ == old(self)@,
    {
        let mut code = Code::new();
        match node {
            Node::String(s) => {
                let i = self.intern(s.as_str())?;
                code.emit_constant(Value::Str(i));
            },
            Node::Integer(i) => {
                code.emit_constant(Value::Integer(*i));
            },
            Node::Float(bits) => {
                code.emit_constant(Value::Float(*bits));
            },
            Node::Null => {
                code.emit_constant(Value::Null);
            },
            Node::Bool(b) => {
                code.emit_constant(Value::Bool(*b));
            },
            _ => {
                return Err(CompileError::UnsupportedNode);
            },
        }
        Ok(code)
    }

    /// The load of the variable that `name` resolves to.
    pub fn load_name(&mut self, name: &str, ctx: &Context) -> (r: Result<Code, CompileError>)
        requires
            old(self).wf(),
            ctx.wf(),
        ensures
            final(self).wf(),
            agrees_one(r, c_load_name(old(self)@, ctx@, name@), old(self)@, final(self)@),
            r is Err ==> final(self)@ == old(self)@,
    {
        let mut code = Code::new();
        match ctx.resolve(name) {
            Binding::Local(slot) => {
                code.emit_index(OP_LOAD_LOCAL_VAR, slot);
            },
            Binding::Field => {
                let i = self.intern(name)?;
                code.emit_index(OP_LOAD_FIELD_THIS, i);
            },
            Binding::Global => {
                let i = self.intern(name)?;
                code.emit_index(OP_LOAD_MODULE_VAR, i);
            },
        }
        Ok(code)
    }

    /// The store into the variable that `name` resolves to.
    pub fn store_name(&mut self, name: &str, ctx: &Context) -> (r: Result<Code, CompileError>)
        requires
            old(self).wf(),
            ctx.wf(),
        ensures
            final(self).wf(),
            agrees_one(r, c_store_name(old(self)@, ctx@, name@), old(self)@, final(self)@),
            r is Err ==> final(self)@ == old(self)@,
    {
        let mut code = Code::new();
        match ctx.resolve(name) {
            Binding::Local(slot) => {
                code.emit_index(OP_STORE_LOCAL_VAR, slot);
            },
            Binding::Field => {
                let i = self.intern(name)?;
                code.emit_index(OP_STORE_FIELD_THIS, i);
            },
            Binding::Global => {
                let i = self.intern(name)?;
                code.emit_index(OP_STORE_MODULE_VAR, i);
            },
        }
        Ok(code)
    }

    /// An identifier as an expression.
    pub fn identifier(&mut self, name: &str, ctx: &Context) -> (r: Result<Code, CompileError>)
        requires
            old(self).wf(),
            ctx.wf(),
        ensures
            final(self).wf(),
            agrees_one(r, c_identifier(old(self)@, ctx@, name@), old(self)@, final(self)@),
            r is Err ==> final(self)@ == old(self)@,
    {
        let global = match ctx.resolve(name) {
            Binding::Global => true,
            _ => false,
        };
        if global && str_eq(name, "null") {
            let mut code = Code::new();
            code.emit_bare(OP_NULL);
            Ok(code)
        } else if global && str_eq(name, "true") {
            let mut code = Code::new();
            code.emit_bare(OP_TRUE);
            Ok(code)
        } else if global && str_eq(name, "false") {
            let mut code = Code::new();
            code.emit_bare(OP_FALSE);
            Ok(code)
        } else {
            self.load_name(name, ctx)
        }
    }

    /// An operand that must be a variable or a literal.
    pub fn load_variable(&mut self, node: &Node, ctx: &Context) -> (r: Result<Code, CompileError>)
        requires
            old(self).wf(),
            ctx.wf(),
        ensures
            final(self).wf(),
            agrees_one(r, c_load_variable(old(self)@, ctx@, *node), old(self)@, final(self)@),
            r is Err ==> final(self)@ == old(self)@,
    {
        match node {
            Node::Identifier(name) => self.load_name(name.as_str(), ctx),
            _ => self.parse_constant(node),
        }
    }

    /// `inc name`.
    pub fn increment(&mut self, args: &Vec<Node>, ctx: &Context) -> (r: Result<
        Code,
        CompileError,
    >)
        requires
            old(self).wf(),
            ctx.wf(),
        ensures
            final(self).wf(),
            agrees(r, c_inc(old(self)@, ctx@, args@), old(self)@, final(self)@, ctx@),
    {
        if args.len() != 1 {
            return Err(CompileError::Malformed(Form::Inc));
        }
        match &args[0] {
            Node::Identifier(name) => {
                let mut code = self.load_name(name.as_str(), ctx)?;
                let store = self.store_name(name.as_str(), ctx)?;
                code.emit_constant(Value::Integer(1));
                code.emit_bare(OP_ADD);
                code.append(store);
                assert(code@ =~= seq![
                    code@[0],
                    Instr::Constant(Value::Integer(1)),
                    Instr::Add,
                    store@[0],
                ]);
                Ok(code)
            },
            _ => Err(CompileError::Malformed(Form::Inc)),
        }
    }
}

/// What compiling and writing a program yields: the bytes of the module,
/// the compiler's error, or an overflow where the module does not fit.
pub open spec fn emitted(units: Seq<Unit>, root: nat) -> Result<Seq<u8>, CompileError> {
    match c_program(units, root) {
        Err(e) => Err(e),
        Ok(st) => if module_fits(st) {
            Ok(module_image(st))
        } else {
            Err(CompileError::CapacityOverflow)
        },
    }
}

/// Compiles the unit `root` of `units`, with all that it loads, into the
/// bytes of a module.
pub fn emit(units: &Vec<Unit>, root: usize) -> (r: Result<Vec<u8>, CompileError>)
    ensures
        match r {
            Ok(bytes) => emitted(units@, root as nat) == Ok::<Seq<u8>, CompileError>(bytes@),
            Err(e) => emitted(units@, root as nat) == Err::<Seq<u8>, CompileError>(e),
        },
{
    let emitter = Emitter::parse_root(units, root)?;
    write_module(&emitter)
}

} // verus!
