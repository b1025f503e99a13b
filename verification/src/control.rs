//! Control flow: `if`, `while` and `switch`, with their branch lengths.

use vstd::prelude::*;
use vstd::string::*;
use crate::code::Code;
use crate::emitter::Emitter;
use crate::emitter::Glue;
use crate::emitter::agrees;
use crate::error::CompileError;
use crate::error::Form;
use crate::loader::Unit;
use crate::node::Node;
use crate::opcode::Instr;
use crate::opcode::OP_DUP;
use crate::opcode::OP_EQUAL;
use crate::opcode::OP_JUMP;
use crate::opcode::OP_JUMP_IF;
use crate::opcode::OP_LOOP;
use crate::opcode::OP_NOT;
use crate::opcode::OP_NULL;
use crate::opcode::OP_POP;
use crate::rules::c_cases;
use crate::rules::c_if;
use crate::rules::c_node;
use crate::rules::c_seq;
use crate::rules::c_switch;
use crate::rules::c_while;
use crate::rules::fuel;
use crate::rules::no_value;
use crate::scope::Context;
use crate::text::str_eq;

verus! {

impl Emitter {
    /// `if cond then else`.
    pub fn form_if(
        &mut self,
        args: &Vec<Node>,
        ctx: &mut Context,
        units: &Vec<Unit>,
        loading: &Vec<usize>,
    ) -> (r: Result<Code, CompileError>)
        requires
            old(self).wf(),
            old(ctx).wf(),
        ensures
            final(self).wf(),
            final(ctx).wf(),
            agrees(
                r,
                c_if(units@, loading@, old(self)@, old(ctx)@, args@),
                old(self)@,
                final(self)@,
                final(ctx)@,
            ),
        decreases fuel(units@, loading@), args@, args@.len() + 2,
    {
        proof {
            reveal_with_fuel(c_if, 1);
            reveal_with_fuel(c_node, 1);
        }
        if args.len() != 3 {
            return Err(CompileError::Malformed(Form::If));
        }
        let mut code = self.parse_node(&args[0], ctx, units, loading)?;
        let first = self.parse_node(&args[1], ctx, units, loading)?;
        let second = self.parse_node(&args[2], ctx, units, loading)?;
        let ghost c = code@;
        let skip = first.branch_length(1)?;
        let jump = second.branch_length(0)?;
        code.emit_branch(OP_JUMP_IF, skip);
        code.append(first);
        code.emit_branch(OP_JUMP, jump);
        code.append(second);
        assert(code@ =~= c + seq![Instr::JumpIf(skip)] + first@ + seq![Instr::Jump(jump)]
            + second@);
        Ok(code)
    }

    /// `while cond body...`.
    pub fn form_while(
        &mut self,
        args: &Vec<Node>,
        ctx: &mut Context,
        units: &Vec<Unit>,
        loading: &Vec<usize>,
    ) -> (r: Result<Code, CompileError>)
        requires
            old(self).wf(),
            old(ctx).wf(),
        ensures
            final(self).wf(),
            final(ctx).wf(),
            agrees(
                r,
                c_while(units@, loading@, old(self)@, old(ctx)@, args@),
                old(self)@,
                final(self)@,
                final(ctx)@,
            ),
        decreases fuel(units@, loading@), args@, args@.len() + 2,
    {
        proof {
            reveal_with_fuel(c_while, 1);
            reveal_with_fuel(c_node, 1);
            reveal_with_fuel(c_seq, 1);
        }
        if args.len() < 1 {
            return Err(CompileError::Malformed(Form::While));
        }
        let mut code = self.parse_node(&args[0], ctx, units, loading)?;
        let body = self.parse_seq(args, 1, Glue::Pop, Glue::Nothing, ctx, units, loading)?;
        let ghost c = code@;
        let skip = body.branch_length(1)?;
        code.emit_bare(OP_NOT);
        code.emit_branch(OP_JUMP_IF, skip);
        code.append(body);
        let back = code.branch_length(0)?;
        code.emit_branch(OP_LOOP, back);
        code.emit_bare(OP_NULL);
        assert(code@ =~= c + seq![Instr::Not, Instr::JumpIf(skip)] + body@ + seq![
            Instr::Loop(back),
            no_value(),
        ]);
        Ok(code)
    }

    /// `switch subject (case value expr)... default`.
    pub fn form_switch(
        &mut self,
        args: &Vec<Node>,
        ctx: &mut Context,
        units: &Vec<Unit>,
        loading: &Vec<usize>,
    ) -> (r: Result<Code, CompileError>)
        requires
            old(self).wf(),
            old(ctx).wf(),
        ensures
            final(self).wf(),
            final(ctx).wf(),
            agrees(
                r,
                c_switch(units@, loading@, old(self)@, old(ctx)@, args@),
                old(self)@,
                final(self)@,
                final(ctx)@,
            ),
        decreases fuel(units@, loading@), args@, args@.len() + 2,
    {
        proof {
            reveal_with_fuel(c_switch, 1);
            reveal_with_fuel(c_cases, 1);
            reveal_with_fuel(c_node, 1);
        }
        if args.len() < 2 {
            return Err(CompileError::Malformed(Form::Switch));
        }
        let without_default = match &args[args.len() - 1] {
            Node::Call { name, args: parts } => str_eq(name.as_str(), "case"),
            _ => false,
        };
        if without_default {
            return Err(CompileError::Malformed(Form::Switch));
        }
        let mut code = self.parse_node(&args[0], ctx, units, loading)?;
        let cases = self.cases(args, 1, ctx, units, loading)?;
        code.append(cases);
        Ok(code)
    }

    /// The cases of a `switch` from index `i` on.
    pub fn cases(
        &mut self,
        args: &Vec<Node>,
        i: usize,
        ctx: &mut Context,
        units: &Vec<Unit>,
        loading: &Vec<usize>,
    ) -> (r: Result<Code, CompileError>)
        requires
            old(self).wf(),
            old(ctx).wf(),
        ensures
            final(self).wf(),
            final(ctx).wf(),
            agrees(
                r,
                c_cases(units@, loading@, old(self)@, old(ctx)@, args@, i as nat),
                old(self)@,
                final(self)@,
                final(ctx)@,
            ),
        decreases fuel(units@, loading@), args@, args@.len() - i,
    {
        proof {
            reveal_with_fuel(c_cases, 1);
            reveal_with_fuel(c_node, 1);
        }
        if i >= args.len() {
            return Err(CompileError::Malformed(Form::Switch));
        }
        if i + 1 == args.len() {
            let fallback = self.parse_node(&args[i], ctx, units, loading)?;
            let mut code = Code::new();
            code.emit_bare(OP_POP);
            code.append(fallback);
            assert(code@ =~= seq![Instr::Pop] + fallback@);
            return Ok(code);
        }
        match &args[i] {
            Node::Call { name, args: parts } => {
                if !str_eq(name.as_str(), "case") || parts.len() != 2 {
                    return Err(CompileError::Malformed(Form::Switch));
                }
                let value = self.parse_node(&parts[0], ctx, units, loading)?;
                let taken = self.parse_node(&parts[1], ctx, units, loading)?;
                let rest = self.cases(args, i + 1, ctx, units, loading)?;
                let skip = taken.branch_length(2)?;
                let jump = rest.branch_length(0)?;
                let mut code = Code::new();
                code.emit_bare(OP_DUP);
                code.append(value);
                code.emit_bare(OP_EQUAL);
                code.emit_branch(OP_JUMP_IF, skip);
                code.emit_bare(OP_POP);
                code.append(taken);
                code.emit_branch(OP_JUMP, jump);
                code.append(rest);
                assert(code@ =~= seq![Instr::Dup] + value@ + seq![
                    Instr::Equal,
                    Instr::JumpIf(skip),
                    Instr::Pop,
                ] + taken@ + seq![Instr::Jump(jump)] + rest@);
                Ok(code)
            },
            _ => Err(CompileError::Malformed(Form::Switch)),
        }
    }
}

} // verus!
