//! Expressions: nodes, sequences of nodes, calls and operators.

use vstd::prelude::*;
use vstd::string::*;
use crate::code::Code;
use crate::emitter::Emitter;
use crate::emitter::Glue;
use crate::emitter::agrees;
use crate::emitter::glue_bound;
use crate::emitter::glue_code;
use crate::emitter::has_selector;
use crate::emitter::operator_code;
use crate::error::CompileError;
use crate::error::Form;
use crate::loader::Unit;
use crate::loader::unit_names;
use crate::node::Node;
use crate::node::Param;
use crate::opcode::Instr;
use crate::opcode::OP_ADD;
use crate::opcode::OP_CALL;
use crate::opcode::OP_DIV;
use crate::opcode::OP_EQUAL;
use crate::opcode::OP_GREATER_THAN;
use crate::opcode::OP_LOAD_MODULE_VAR;
use crate::opcode::OP_LOWER_THAN;
use crate::opcode::OP_MUL;
use crate::opcode::OP_NOT;
use crate::opcode::OP_POP;
use crate::opcode::OP_RETURN;
use crate::opcode::OP_SUB;
use crate::opcode::is_bare_op;
use crate::pool::lemma_position;
use crate::pool::position;
use crate::pool::texts;
use crate::rules::Out;
use crate::rules::c_assign;
use crate::rules::c_call;
use crate::rules::c_class;
use crate::rules::c_closure;
use crate::rules::c_dispatch;
use crate::rules::c_print;
use crate::rules::c_fiber;
use crate::rules::c_if;
use crate::rules::c_let;
use crate::rules::c_list;
use crate::rules::c_load;
use crate::rules::c_new;
use crate::rules::c_node;
use crate::rules::c_nth;
use crate::rules::c_operator;
use crate::rules::c_seq;
use crate::rules::c_super;
use crate::rules::super_head;
use crate::rules::c_switch;
use crate::rules::c_while;
use crate::rules::first_default;
use crate::rules::fuel;
use crate::scope::ARITY_LIMIT;
use crate::scope::Context;
use crate::scope::opt_text;
use crate::selector::mangle;
use crate::selector::selector;
use crate::table::Function;
use crate::text::str_eq;

verus! {


/// Whether `v` holds `k`.
pub fn holds_index(v: &Vec<usize>, k: usize) -> (r: bool)
    ensures
        r == v@.contains(k),
{
    let mut i: usize = 0;
    while i < v.len()
        invariant
            i <= v.len(),
            forall|j: int| 0 <= j < i ==> v@[j] != k,
        decreases v.len() - i,
    {
        if v[i] == k {
            return true;
        }
        i += 1;
    }
    false
}

/// A copy of `v` with `k` at the end.
pub fn with_index(v: &Vec<usize>, k: usize) -> (r: Vec<usize>)
    ensures
        r@ == v@.push(k),
{
    let mut r: Vec<usize> = Vec::new();
    let mut i: usize = 0;
    while i < v.len()
        invariant
            i <= v.len(),
            r@ == v@.take(i as int),
        decreases v.len() - i,
    {
        r.push(v[i]);
        assert(r@ =~= v@.take(i + 1));
        i += 1;
    }
    r.push(k);
    assert(r@ =~= v@.push(k));
    r
}

/// A copy of a vector of strings.
pub fn copy_strings(v: &Vec<String>) -> (r: Vec<String>)
    ensures
        texts(r@) == texts(v@),
{
    let mut r: Vec<String> = Vec::new();
    let mut i: usize = 0;
    while i < v.len()
        invariant
            i <= v.len(),
            texts(r@) == texts(v@).take(i as int),
        decreases v.len() - i,
    {
        let ghost before = texts(r@);
        r.push(v[i].clone());
        assert(texts(r@) =~= before.push(v@[i as int]@));
        assert(texts(v@).take(i + 1) =~= texts(v@).take(i as int).push(v@[i as int]@));
        i += 1;
    }
    assert(texts(v@).take(i as int) =~= texts(v@));
    r
}

/// A copy of an optional string.
pub fn copy_opt(o: &Option<String>) -> (r: Option<String>)
    ensures
        opt_text(r) == opt_text(*o),
{
    match o {
        Some(s) => Some(s.clone()),
        None => None,
    }
}

/// The first unit that is called `name`.
pub fn find_unit(units: &Vec<Unit>, name: &str) -> (r: Option<usize>)
    ensures
        match r {
            Some(k) => position(unit_names(units@), name@) == Some(k as nat) && k < units@.len(),
            None => position(unit_names(units@), name@) is None,
        },
{
    let ghost names = unit_names(units@);
    let mut i: usize = 0;
    while i < units.len()
        invariant
            i <= units.len(),
            names == unit_names(units@),
            forall|k: int| 0 <= k < i ==> names[k] != name@,
        decreases units.len() - i,
    {
        assert(names[i as int] == units@[i as int].name@);
        if str_eq(units[i].name.as_str(), name) {
            proof {
                lemma_position(names, name@);
            }
            return Some(i);
        }
        i += 1;
    }
    proof {
        lemma_position(names, name@);
    }
    None
}

/// Computes [`first_default`].
pub fn first_default_of(params: &Vec<Param>) -> (r: usize)
    ensures
        r == first_default(params@),
        r <= params@.len(),
{
    let mut i: usize = 0;
    let mut found: usize = 0;
    while i < params.len()
        invariant
            i <= params.len(),
            found == first_default(params@.take(i as int)),
            found <= i,
        decreases params.len() - i,
    {
        let ghost before = params@.take(i as int);
        let ghost now = params@.take(i + 1);
        assert(now.drop_last() =~= before);
        assert(now.last() == params@[i as int]);
        if found < i {
        } else if params[i].default_value.is_some() {
            found = i;
        } else {
            found = i + 1;
        }
        i += 1;
    }
    assert(params@.take(i as int) =~= params@);
    found
}

impl Emitter {
    /// A node as an expression.
    pub fn parse_node(
        &mut self,
        node: &Node,
        ctx: &mut Context,
        units: &Vec<Unit>,
        loading: &Vec<usize>,
    ) -> (r: Result<Code, CompileError>)
        requires
            old(self).wf(),
            old(ctx).wf(),
        ensures
            final(self).wf(),
            final(ctx).wf(),
            agrees(
                r,
                c_node(units@, loading@, old(self)@, old(ctx)@, *node),
                old(self)@,
                final(self)@,
                final(ctx)@,
            ),
        decreases fuel(units@, loading@), *node, 0nat,
    {
        proof {
            reveal_with_fuel(c_node, 1);
            reveal_with_fuel(c_call, 1);
            reveal_with_fuel(c_closure, 1);
        }
        match node {
            Node::Call { name, args } => self.parse_call(name.as_str(), args, ctx, units, loading),
            Node::Identifier(name) => {
                let code = self.identifier(name.as_str(), ctx)?;
                assert(code@ =~= seq![code@[0]]);
                Ok(code)
            },
            Node::Function { name, params, body } => {
                if name.as_str().is_empty() {
                    self.closure(params, body, ctx, units, loading)
                } else {
                    Err(CompileError::Malformed(Form::Function))
                }
            },
            Node::Instance { class, fields } => Err(CompileError::UnsupportedNode),
            Node::List(items) => Err(CompileError::UnsupportedNode),
            _ => {
                let code = self.parse_constant(node)?;
                assert(code@ =~= seq![code@[0]]);
                Ok(code)
            },
        }
    }

    /// The nodes of `nodes` from `from` on, with `each` between them and
    /// `last` at the end.
    pub(crate) fn parse_seq(
        &mut self,
        nodes: &Vec<Node>,
        from: usize,
        each: Glue,
        last: Glue,
        ctx: &mut Context,
        units: &Vec<Unit>,
        loading: &Vec<usize>,
    ) -> (r: Result<Code, CompileError>)
        requires
            old(self).wf(),
            old(ctx).wf(),
            glue_bound(each) <= old(self)@.pool.len(),
            glue_bound(last) <= old(self)@.pool.len(),
        ensures
            final(self).wf(),
            final(ctx).wf(),
            agrees(
                r,
                c_seq(units@, loading@, old(self)@, old(ctx)@, nodes@, from as nat, glue_code(each), glue_code(last)),
                old(self)@,
                final(self)@,
                final(ctx)@,
            ),
        decreases fuel(units@, loading@), nodes@, nodes@.len() - from,
    {
        proof {
            reveal_with_fuel(c_seq, 1);
            reveal_with_fuel(c_node, 1);
        }
        let ghost whole = c_seq(
            units@,
            loading@,
            self@,
            ctx@,
            nodes@,
            from as nat,
            glue_code(each),
            glue_code(last),
        );
        let mut code = Code::new();
        let mut i: usize = from;
        while i < nodes.len()
            invariant
                from <= i,
                self.wf(),
                ctx.wf(),
                code.wf(),
                code.bound() <= self@.pool.len(),
                old(self)@.pool.len() <= self@.pool.len(),
                glue_bound(each) <= old(self)@.pool.len(),
                glue_bound(last) <= old(self)@.pool.len(),
                whole == c_seq(
                    units@,
                    loading@,
                    old(self)@,
                    old(ctx)@,
                    nodes@,
                    from as nat,
                    glue_code(each),
                    glue_code(last),
                ),
                whole == (match c_seq(
                    units@,
                    loading@,
                    self@,
                    ctx@,
                    nodes@,
                    i as nat,
                    glue_code(each),
                    glue_code(last),
                ) {
                    Ok(b) => Ok::<Out, CompileError>(
                        Out { st: b.st, cx: b.cx, code: code@ + b.code },
                    ),
                    Err(e) => Err::<Out, CompileError>(e),
                }),
            decreases nodes.len() - i,
        {
            proof {
                reveal_with_fuel(c_seq, 1);
                reveal_with_fuel(c_node, 1);
            }
            let ghost done = code@;
            let part = match self.parse_node(&nodes[i], ctx, units, loading) {
                Ok(p) => p,
                Err(e) => {
                    return Err(e);
                },
            };
            let ghost a = part@;
            code.append(part);
            let glue = if i + 1 == nodes.len() {
                last
            } else {
                each
            };
            match glue {
                Glue::Nothing => {},
                Glue::Pop => {
                    code.emit_bare(OP_POP);
                },
                Glue::Append(idx) => {
                    code.emit_call(OP_CALL, idx, 1);
                },
            }
            proof {
                let g = glue_code(glue);
                assert(code@ =~= done + a + g);
                let next = c_seq(
                    units@,
                    loading@,
                    self@,
                    ctx@,
                    nodes@,
                    (i + 1) as nat,
                    glue_code(each),
                    glue_code(last),
                );
                if let Ok(b) = next {
                    assert(done + (a + g + b.code) =~= (done + a + g) + b.code);
                }
            }
            i += 1;
        }
        assert(code@ + Seq::<Instr>::empty() =~= code@);
        Ok(code)
    }

    /// A call form: a special form where `name` is one, else a call.
    pub fn parse_call(
        &mut self,
        name: &str,
        args: &Vec<Node>,
        ctx: &mut Context,
        units: &Vec<Unit>,
        loading: &Vec<usize>,
    ) -> (r: Result<Code, CompileError>)
        requires
            old(self).wf(),
            old(ctx).wf(),
        ensures
            final(self).wf(),
            final(ctx).wf(),
            agrees(
                r,
                c_call(units@, loading@, old(self)@, old(ctx)@, name@, args@),
                old(self)@,
                final(self)@,
                final(ctx)@,
            ),
            name@ == "super"@ && super_head(old(self)@, old(ctx)@, args@) is Err ==> final(self)@
                == old(self)@ && final(ctx)@ == old(ctx)@,
        decreases fuel(units@, loading@), args@, args@.len() + 3,
    {
        proof {
            reveal_with_fuel(c_call, 1);
            reveal_with_fuel(c_assign, 1);
            reveal_with_fuel(c_class, 1);
            reveal_with_fuel(c_dispatch, 1);
            reveal_with_fuel(c_print, 1);
            reveal_with_fuel(c_fiber, 1);
            reveal_with_fuel(c_if, 1);
            reveal_with_fuel(c_let, 1);
            reveal_with_fuel(c_list, 1);
            reveal_with_fuel(c_load, 1);
            reveal_with_fuel(c_new, 1);
            reveal_with_fuel(c_nth, 1);
            reveal_with_fuel(c_operator, 1);
            reveal_with_fuel(c_super, 1);
            reveal_with_fuel(c_switch, 1);
            reveal_with_fuel(c_while, 1);
            reveal_strlit("add");
            reveal_strlit("sub");
            reveal_strlit("mul");
            reveal_strlit("div");
            reveal_strlit("lt");
            reveal_strlit("gt");
            reveal_strlit("eq");
            reveal_strlit("neq");
            reveal_strlit("inc");
            reveal_strlit("list");
            reveal_strlit("nth");
            reveal_strlit("if");
            reveal_strlit("while");
            reveal_strlit("switch");
            reveal_strlit("class");
            reveal_strlit("super");
            assert("super"@[0] != "while"@[0]);
            assert("super"@[0] != "class"@[0]);
        }
        if str_eq(name, "add") {
            self.operator(args, OP_ADD, false, Form::Arithmetic, ctx, units, loading)
        } else if str_eq(name, "sub") {
            self.operator(args, OP_SUB, false, Form::Arithmetic, ctx, units, loading)
        } else if str_eq(name, "mul") {
            self.operator(args, OP_MUL, false, Form::Arithmetic, ctx, units, loading)
        } else if str_eq(name, "div") {
            self.operator(args, OP_DIV, false, Form::Arithmetic, ctx, units, loading)
        } else if str_eq(name, "lt") {
            self.operator(args, OP_LOWER_THAN, false, Form::Comparison, ctx, units, loading)
        } else if str_eq(name, "gt") {
            self.operator(args, OP_GREATER_THAN, false, Form::Comparison, ctx, units, loading)
        } else if str_eq(name, "eq") {
            self.operator(args, OP_EQUAL, false, Form::Comparison, ctx, units, loading)
        } else if str_eq(name, "neq") {
            self.operator(args, OP_EQUAL, true, Form::Comparison, ctx, units, loading)
        } else if str_eq(name, "inc") {
            self.increment(args, ctx)
        } else if str_eq(name, "list") {
            self.form_list(args, ctx, units, loading)
        } else if str_eq(name, "nth") {
            self.form_nth(args, ctx, units, loading)
        } else if str_eq(name, "if") {
            self.form_if(args, ctx, units, loading)
        } else if str_eq(name, "while") {
            self.form_while(args, ctx, units, loading)
        } else if str_eq(name, "switch") {
            self.form_switch(args, ctx, units, loading)
        } else if str_eq(name, "class") {
            self.form_class(args, ctx, units, loading)
        } else if str_eq(name, "super") {
            self.form_super(args, ctx, units, loading)
        } else if str_eq(name, "let") {
            self.form_let(args, ctx, units, loading)
        } else if str_eq(name, "set") {
            self.form_set(args, ctx, units, loading)
        } else if str_eq(name, "new") {
            self.form_new(args, ctx, units, loading)
        } else if str_eq(name, "abort") {
            self.form_abort(args, ctx)
        } else if str_eq(name, "fiber") {
            self.form_fiber(args, ctx, units, loading)
        } else if str_eq(name, "yield") {
            self.form_yield(args, ctx)
        } else if str_eq(name, "return") {
            let mut code = Code::new();
            code.emit_bare(OP_RETURN);
            assert(code@ =~= seq![Instr::Return]);
            Ok(code)
        } else if str_eq(name, "load") {
            self.form_load(args, ctx, units, loading)
        } else if str_eq(name, "print") || str_eq(name, "write") {
            self.print(name, args, ctx, units, loading)
        } else {
            self.dispatch(name, args, ctx, units, loading)
        }
    }

    /// A binary operator.
    pub(crate) fn operator(
        &mut self,
        args: &Vec<Node>,
        op: u8,
        negate: bool,
        form: Form,
        ctx: &mut Context,
        units: &Vec<Unit>,
        loading: &Vec<usize>,
    ) -> (r: Result<Code, CompileError>)
        requires
            old(self).wf(),
            old(ctx).wf(),
            is_bare_op(op),
        ensures
            final(self).wf(),
            final(ctx).wf(),
            agrees(
                r,
                c_operator(units@, loading@, old(self)@, old(ctx)@, args@, operator_code(op, negate), form),
                old(self)@,
                final(self)@,
                final(ctx)@,
            ),
        decreases fuel(units@, loading@), args@, args@.len() + 2,
    {
        proof {
            reveal_with_fuel(c_operator, 1);
            reveal_with_fuel(c_seq, 1);
        }
        if args.len() != 2 {
            return Err(CompileError::Malformed(form));
        }
        let mut code = self.parse_seq(args, 0, Glue::Nothing, Glue::Nothing, ctx, units, loading)?;
        let ghost operands = code@;
        code.emit_bare(op);
        if negate {
            code.emit_bare(OP_NOT);
        }
        assert(code@ =~= operands + operator_code(op, negate));
        Ok(code)
    }

    /// A call that is no special form.
    pub fn dispatch(
        &mut self,
        name: &str,
        args: &Vec<Node>,
        ctx: &mut Context,
        units: &Vec<Unit>,
        loading: &Vec<usize>,
    ) -> (r: Result<Code, CompileError>)
        requires
            old(self).wf(),
            old(ctx).wf(),
        ensures
            final(self).wf(),
            final(ctx).wf(),
            agrees(
                r,
                c_dispatch(units@, loading@, old(self)@, old(ctx)@, name@, args@),
                old(self)@,
                final(self)@,
                final(ctx)@,
            ),
        decreases fuel(units@, loading@), args@, args@.len() + 2,
    {
        proof {
            reveal_with_fuel(c_dispatch, 1);
            reveal_with_fuel(c_seq, 1);
        }
        if args.len() > ARITY_LIMIT + 1 {
            return Err(CompileError::CapacityOverflow);
        }
        let all = mangle(name, args.len());
        let known = has_selector(&self.functions, all.as_str());
        if !known && args.len() == 0 {
            return Err(CompileError::Malformed(Form::Call));
        }
        let count: usize = if known {
            args.len()
        } else {
            args.len() - 1
        };
        if count > ARITY_LIMIT {
            return Err(CompileError::CapacityOverflow);
        }
        let sel = mangle(name, count);
        let mut code = Code::new();
        if known {
            let i_self = self.intern("$self")?;
            code.emit_index(OP_LOAD_MODULE_VAR, i_self);
        }
        let ghost head = code@;
        let i_sel = self.intern(sel.as_str())?;
        let given = self.parse_seq(args, 0, Glue::Nothing, Glue::Nothing, ctx, units, loading)?;
        code.append(given);
        code.emit_call(OP_CALL, i_sel, count as u8);
        assert(code@ =~= head + given@ + seq![Instr::Call(i_sel, count as u8)]);
        Ok(code)
    }

    /// `print` and `write`.
    pub fn print(
        &mut self,
        name: &str,
        args: &Vec<Node>,
        ctx: &mut Context,
        units: &Vec<Unit>,
        loading: &Vec<usize>,
    ) -> (r: Result<Code, CompileError>)
        requires
            old(self).wf(),
            old(ctx).wf(),
        ensures
            final(self).wf(),
            final(ctx).wf(),
            agrees(
                r,
                c_print(units@, loading@, old(self)@, old(ctx)@, name@, args@),
                old(self)@,
                final(self)@,
                final(ctx)@,
            ),
        decreases fuel(units@, loading@), args@, args@.len() + 2,
    {
        proof {
            reveal_with_fuel(c_print, 1);
            reveal_with_fuel(c_seq, 1);
        }
        if args.len() > ARITY_LIMIT {
            return Err(CompileError::CapacityOverflow);
        }
        let sel = selector(name, args.len());
        let i_sel = self.intern(sel.as_str())?;
        let mut code = self.parse_seq(args, 0, Glue::Nothing, Glue::Nothing, ctx, units, loading)?;
        let ghost given = code@;
        code.emit_call(OP_CALL, i_sel, args.len() as u8);
        assert(code@ =~= given + seq![Instr::Call(i_sel, args@.len() as u8)]);
        Ok(code)
    }
}

} // verus!
