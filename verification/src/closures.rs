//! Functions without a name, hoisted into the module.

use vstd::prelude::*;
use vstd::string::*;
use crate::code::Code;
use crate::emitter::Emitter;
use crate::emitter::Glue;
use crate::emitter::agrees;
use crate::emitter::slot_vec;
use crate::error::CompileError;
use crate::error::Form;
use crate::loader::Unit;
use crate::node::Node;
use crate::node::Param;
use crate::opcode::Instr;
use crate::opcode::OP_CALL;
use crate::opcode::OP_CLOSURE;
use crate::opcode::OP_LOAD_MODULE_VAR;
use crate::pool::texts;
use crate::rules::CLOSURE_LIMIT;
use crate::rules::c_closure;
use crate::rules::c_fiber;
use crate::rules::c_seq;
use crate::rules::fuel;
use crate::rules::param_names;
use crate::scope::ARITY_LIMIT;
use crate::scope::Context;
use crate::selector::closure_name;
use crate::selector::selector;
use crate::table::Function;

verus! {

impl Emitter {
    /// A function without a name, used as a value.
    pub fn closure(
        &mut self,
        params: &Vec<Param>,
        body: &Vec<Node>,
        ctx: &Context,
        units: &Vec<Unit>,
        loading: &Vec<usize>,
    ) -> (r: Result<Code, CompileError>)
        requires
            old(self).wf(),
            ctx.wf(),
        ensures
            final(self).wf(),
            agrees(
                r,
                c_closure(units@, loading@, old(self)@, ctx@, params@, body@),
                old(self)@,
                final(self)@,
                ctx@,
            ),
        decreases fuel(units@, loading@), body@, body@.len() + 1,
    {
        proof {
            reveal_with_fuel(c_closure, 1);
            reveal_with_fuel(c_seq, 1);
        }
        if params.len() > ARITY_LIMIT || self.closure_id >= CLOSURE_LIMIT {
            return Err(CompileError::CapacityOverflow);
        }
        let name = closure_name(self.closure_id);
        let i_closure = self.intern(name.as_str())?;
        self.closure_id = self.closure_id + 1;
        let slots = slot_vec(params, params.len());
        assert(param_names(params@).take(params@.len() as int) =~= param_names(params@));
        assert(texts(slots@).subrange(1, slots@.len() as int) =~= param_names(params@));
        let fields: Vec<String> = Vec::new();
        assert(texts(fields@) =~= Seq::<Seq<char>>::empty());
        let mut inner = Context::for_function(None, None, fields, name.clone(), slots);
        let mut body_code = self.parse_seq(
            body,
            0,
            Glue::Pop,
            Glue::Nothing,
            &mut inner,
            units,
            loading,
        )?;
        let i_self = self.intern("$self")?;
        body_code.finish();
        let f = Function {
            selector: name,
            arity: params.len() as u8,
            code: body_code.bytes,
            params: slot_vec(params, params.len()),
        };
        let ghost before = self@.functions;
        let ghost fv = f@;
        self.functions.push(f);
        assert(self@.functions =~= before.push(fv));
        let mut code = Code::new();
        code.emit_index(OP_LOAD_MODULE_VAR, i_self);
        code.emit_index(OP_CLOSURE, i_closure);
        assert(code@ =~= seq![Instr::LoadModuleVar(i_self), Instr::Closure(i_closure)]);
        Ok(code)
    }

    /// `fiber (fun () ...)`.
    pub fn form_fiber(
        &mut self,
        args: &Vec<Node>,
        ctx: &mut Context,
        units: &Vec<Unit>,
        loading: &Vec<usize>,
    ) -> (r: Result<Code, CompileError>)
        requires
            old(self).wf(),
            old(ctx).wf(),
        ensures
            final(self).wf(),
            final(ctx).wf(),
            agrees(
                r,
                c_fiber(units@, loading@, old(self)@, old(ctx)@, args@),
                old(self)@,
                final(self)@,
                final(ctx)@,
            ),
        decreases fuel(units@, loading@), args@, args@.len() + 2,
    {
        proof {
            reveal_with_fuel(c_fiber, 1);
            reveal_with_fuel(c_closure, 1);
        }
        if args.len() != 1 {
            return Err(CompileError::Malformed(Form::Fiber));
        }
        match &args[0] {
            Node::Function { name, params, body } => {
                if !name.as_str().is_empty() {
                    return Err(CompileError::Malformed(Form::Fiber));
                }
                let i_fiber = self.intern("Fiber")?;
                let i_new = self.intern("new(_)")?;
                let made = self.closure(params, body, ctx, units, loading)?;
                let mut code = Code::new();
                code.emit_index(OP_LOAD_MODULE_VAR, i_fiber);
                code.append(made);
                code.emit_call(OP_CALL, i_new, 1);
                assert(code@ =~= seq![Instr::LoadModuleVar(i_fiber)] + made@ + seq![
                    Instr::Call(i_new, 1),
                ]);
                Ok(code)
            },
            _ => Err(CompileError::Malformed(Form::Fiber)),
        }
    }
}

} // verus!
