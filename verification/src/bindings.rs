//! Variables, objects and containers: `let`, `set`, `new`, `list`, `nth`,
//! `super` and the fiber calls.

use vstd::prelude::*;
use crate::opcode::OP_NULL;
use vstd::string::*;
use crate::code::Code;
use crate::emitter::Emitter;
use crate::emitter::Glue;
use crate::emitter::agrees;
use crate::emitter::emit_local_loads;
use crate::error::CompileError;
use crate::error::Form;
use crate::loader::Unit;
use crate::node::Node;
use crate::opcode::Instr;
use crate::opcode::OP_ALLOCATE_VAR;
use crate::opcode::OP_CALL;
use crate::opcode::OP_DUP;
use crate::opcode::OP_LOAD_LOCAL_VAR;
use crate::opcode::OP_LOAD_MODULE_VAR;
use crate::opcode::OP_POP;
use crate::opcode::OP_STORE_LOCAL_VAR;
use crate::opcode::OP_STORE_MODULE_VAR;
use crate::opcode::OP_SUPER;
use crate::rules::c_abort;
use crate::rules::c_assign;
use crate::rules::c_let;
use crate::rules::c_list;
use crate::rules::c_new;
use crate::rules::c_node;
use crate::rules::c_nth;
use crate::rules::c_seq;
use crate::rules::c_super;
use crate::rules::super_head;
use crate::rules::c_yield;
use crate::rules::fuel;
use crate::rules::local_loads;
use crate::scope::ARITY_LIMIT;
use crate::scope::Context;
use crate::selector::mangle;
use crate::selector::selector;
use crate::table::Class;

verus! {

impl Emitter {
    /// `let name expr`.
    pub fn form_let(
        &mut self,
        args: &Vec<Node>,
        ctx: &mut Context,
        units: &Vec<Unit>,
        loading: &Vec<usize>,
    ) -> (r: Result<Code, CompileError>)
        requires
            old(self).wf(),
            old(ctx).wf(),
        ensures
            final(self).wf(),
            final(ctx).wf(),
            agrees(
                r,
                c_let(units@, loading@, old(self)@, old(ctx)@, args@),
                old(self)@,
                final(self)@,
                final(ctx)@,
            ),
        decreases fuel(units@, loading@), args@, args@.len() + 2,
    {
        proof {
            reveal_with_fuel(c_let, 1);
            reveal_with_fuel(c_node, 1);
        }
        if args.len() != 2 {
            return Err(CompileError::Malformed(Form::Let));
        }
        match &args[0] {
            Node::Identifier(name) => {
                let mut code = self.parse_node(&args[1], ctx, units, loading)?;
                if ctx.top_level {
                    let i = self.intern(name.as_str())?;
                    code.emit_index(OP_STORE_MODULE_VAR, i);
                } else {
                    let slot = ctx.declare(name.as_str())?;
                    code.emit_index(OP_STORE_LOCAL_VAR, slot);
                }
                Ok(code)
            },
            _ => Err(CompileError::Malformed(Form::Let)),
        }
    }

    /// `set name expr`.
    pub fn form_set(
        &mut self,
        args: &Vec<Node>,
        ctx: &mut Context,
        units: &Vec<Unit>,
        loading: &Vec<usize>,
    ) -> (r: Result<Code, CompileError>)
        requires
            old(self).wf(),
            old(ctx).wf(),
        ensures
            final(self).wf(),
            final(ctx).wf(),
            agrees(
                r,
                c_assign(units@, loading@, old(self)@, old(ctx)@, args@),
                old(self)@,
                final(self)@,
                final(ctx)@,
            ),
        decreases fuel(units@, loading@), args@, args@.len() + 2,
    {
        proof {
            reveal_with_fuel(c_assign, 1);
            reveal_with_fuel(c_node, 1);
        }
        if args.len() != 2 {
            return Err(CompileError::Malformed(Form::Assign));
        }
        match &args[0] {
            Node::Identifier(name) => {
                let mut code = self.parse_node(&args[1], ctx, units, loading)?;
                let ghost value = code@;
                let store = self.store_name(name.as_str(), ctx)?;
                code.append(store);
                assert(code@ =~= value.push(store@[0]));
                Ok(code)
            },
            _ => Err(CompileError::Malformed(Form::Assign)),
        }
    }

    /// `new Class args...`.
    pub fn form_new(
        &mut self,
        args: &Vec<Node>,
        ctx: &mut Context,
        units: &Vec<Unit>,
        loading: &Vec<usize>,
    ) -> (r: Result<Code, CompileError>)
        requires
            old(self).wf(),
            old(ctx).wf(),
        ensures
            final(self).wf(),
            final(ctx).wf(),
            agrees(
                r,
                c_new(units@, loading@, old(self)@, old(ctx)@, args@),
                old(self)@,
                final(self)@,
                final(ctx)@,
            ),
        decreases fuel(units@, loading@), args@, args@.len() + 2,
    {
        proof {
            reveal_with_fuel(c_new, 1);
            reveal_with_fuel(c_seq, 1);
        }
        if args.len() < 1 {
            return Err(CompileError::Malformed(Form::New));
        }
        match &args[0] {
            Node::Identifier(class) => {
                if args.len() - 1 > ARITY_LIMIT {
                    return Err(CompileError::CapacityOverflow);
                }
                let argc = args.len() - 1;
                let i_class = self.intern(class.as_str())?;
                let constructor = selector("new", argc);
                let i_new = self.intern(constructor.as_str())?;
                let given = self.parse_seq(
                    args,
                    1,
                    Glue::Nothing,
                    Glue::Nothing,
                    ctx,
                    units,
                    loading,
                )?;
                let mut code = Code::new();
                code.emit_index(OP_ALLOCATE_VAR, i_class);
                code.emit_bare(OP_DUP);
                code.append(given);
                code.emit_call(OP_CALL, i_new, argc as u8);
                code.emit_bare(OP_POP);
                assert(code@ =~= seq![Instr::AllocateVar(i_class), Instr::Dup] + given@ + seq![
                    Instr::Call(i_new, argc as u8),
                    Instr::Pop,
                ]);
                Ok(code)
            },
            _ => Err(CompileError::Malformed(Form::New)),
        }
    }

    /// `abort value`.
    pub fn form_abort(&mut self, args: &Vec<Node>, ctx: &Context) -> (r: Result<
        Code,
        CompileError,
    >)
        requires
            old(self).wf(),
            ctx.wf(),
        ensures
            final(self).wf(),
            agrees(r, c_abort(old(self)@, ctx@, args@), old(self)@, final(self)@, ctx@),
    {
        if args.len() != 1 {
            return Err(CompileError::Malformed(Form::Abort));
        }
        let i_fiber = self.intern("Fiber")?;
        let i_abort = self.intern("abort(_)")?;
        let value = self.load_variable(&args[0], ctx)?;
        let mut code = Code::new();
        code.emit_index(OP_LOAD_MODULE_VAR, i_fiber);
        code.append(value);
        code.emit_call(OP_CALL, i_abort, 1);
        assert(code@ =~= seq![
            Instr::LoadModuleVar(i_fiber),
            value@[0],
            Instr::Call(i_abort, 1),
        ]);
        Ok(code)
    }

    /// `yield [value]`.
    pub fn form_yield(&mut self, args: &Vec<Node>, ctx: &Context) -> (r: Result<
        Code,
        CompileError,
    >)
        requires
            old(self).wf(),
            ctx.wf(),
        ensures
            final(self).wf(),
            agrees(r, c_yield(old(self)@, ctx@, args@), old(self)@, final(self)@, ctx@),
    {
        if args.len() > 1 {
            return Err(CompileError::Malformed(Form::Yield));
        }
        let i_fiber = self.intern("Fiber")?;
        let i_yield = self.intern("yield(_)")?;
        let value = if args.len() == 1 {
            self.load_variable(&args[0], ctx)?
        } else {
            let mut nothing = Code::new();
            nothing.emit_bare(OP_NULL);
            nothing
        };
        let mut code = Code::new();
        code.emit_index(OP_LOAD_MODULE_VAR, i_fiber);
        code.append(value);
        code.emit_call(OP_CALL, i_yield, 1);
        assert(code@ =~= seq![
            Instr::LoadModuleVar(i_fiber),
            value@[0],
            Instr::Call(i_yield, 1),
        ]);
        Ok(code)
    }

    /// `list a b ...`.
    pub fn form_list(
        &mut self,
        args: &Vec<Node>,
        ctx: &mut Context,
        units: &Vec<Unit>,
        loading: &Vec<usize>,
    ) -> (r: Result<Code, CompileError>)
        requires
            old(self).wf(),
            old(ctx).wf(),
        ensures
            final(self).wf(),
            final(ctx).wf(),
            agrees(
                r,
                c_list(units@, loading@, old(self)@, old(ctx)@, args@),
                old(self)@,
                final(self)@,
                final(ctx)@,
            ),
        decreases fuel(units@, loading@), args@, args@.len() + 2,
    {
        proof {
            reveal_with_fuel(c_list, 1);
            reveal_with_fuel(c_seq, 1);
        }
        let i_list = self.intern("List")?;
        let i_new = self.intern("new()")?;
        let i_add = self.intern("add(_)")?;
        let items = self.parse_seq(
            args,
            0,
            Glue::Append(i_add),
            Glue::Append(i_add),
            ctx,
            units,
            loading,
        )?;
        let mut code = Code::new();
        code.emit_index(OP_LOAD_MODULE_VAR, i_list);
        code.emit_call(OP_CALL, i_new, 0);
        code.append(items);
        assert(code@ =~= seq![Instr::LoadModuleVar(i_list), Instr::Call(i_new, 0)] + items@);
        Ok(code)
    }

    /// `nth container index [value]`.
    pub fn form_nth(
        &mut self,
        args: &Vec<Node>,
        ctx: &mut Context,
        units: &Vec<Unit>,
        loading: &Vec<usize>,
    ) -> (r: Result<Code, CompileError>)
        requires
            old(self).wf(),
            old(ctx).wf(),
        ensures
            final(self).wf(),
            final(ctx).wf(),
            agrees(
                r,
                c_nth(units@, loading@, old(self)@, old(ctx)@, args@),
                old(self)@,
                final(self)@,
                final(ctx)@,
            ),
        decreases fuel(units@, loading@), args@, args@.len() + 2,
    {
        proof {
            reveal_with_fuel(c_nth, 1);
            reveal_with_fuel(c_seq, 1);
        }
        if args.len() != 2 && args.len() != 3 {
            return Err(CompileError::Malformed(Form::Nth));
        }
        let i_get = self.intern("[_]")?;
        let i_set = self.intern("[_]=(_)")?;
        let mut code = self.load_variable(&args[0], ctx)?;
        let ghost container = code@[0];
        let rest = self.parse_seq(args, 1, Glue::Nothing, Glue::Nothing, ctx, units, loading)?;
        code.append(rest);
        if args.len() == 2 {
            code.emit_call(OP_CALL, i_get, 1);
        } else {
            code.emit_call(OP_CALL, i_set, 2);
        }
        assert(code@ =~= seq![container] + rest@ + seq![
            if args@.len() == 2 {
                Instr::Call(i_get, 1)
            } else {
                Instr::Call(i_set, 2)
            },
        ]);
        Ok(code)
    }

    /// `super args...`.
    pub fn form_super(
        &mut self,
        args: &Vec<Node>,
        ctx: &mut Context,
        units: &Vec<Unit>,
        loading: &Vec<usize>,
    ) -> (r: Result<Code, CompileError>)
        requires
            old(self).wf(),
            old(ctx).wf(),
        ensures
            final(self).wf(),
            final(ctx).wf(),
            agrees(
                r,
                c_super(units@, loading@, old(self)@, old(ctx)@, args@),
                old(self)@,
                final(self)@,
                final(ctx)@,
            ),
            super_head(old(self)@, old(ctx)@, args@) is Err ==> final(self)@ == old(self)@
                && final(ctx)@ == old(ctx)@,
        decreases fuel(units@, loading@), args@, args@.len() + 2,
    {
        proof {
            reveal_with_fuel(c_super, 1);
            reveal_with_fuel(c_seq, 1);
        }
        if ctx.class_name.is_none() || ctx.parent_name.is_none() {
            return Err(CompileError::UnresolvedSuper);
        }
        if args.len() > ctx.arity {
            return Err(CompileError::ArityMismatch);
        }
        let arity = ctx.arity;
        let sel = mangle(ctx.function_name.as_str(), arity);
        let i_sel = self.intern(sel.as_str())?;
        let given = self.parse_seq(args, 0, Glue::Nothing, Glue::Nothing, ctx, units, loading)?;
        let mut code = Code::new();
        code.emit_index(OP_LOAD_LOCAL_VAR, 0);
        code.append(given);
        emit_local_loads(&mut code, args.len() + 1, arity + 1);
        code.emit_call(OP_SUPER, i_sel, arity as u8);
        assert(code@ =~= seq![Instr::LoadLocalVar(0)] + given@ + local_loads(
            (args@.len() + 1) as nat,
            (arity + 1) as nat,
        ) + seq![Instr::Super(i_sel, arity as u8)]);
        Ok(code)
    }
}

} // verus!
