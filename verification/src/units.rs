//! Units: top-level code, function definitions and loads.

use vstd::prelude::*;
use vstd::string::*;
use crate::code::Code;
use crate::emitter::Emitter;
use crate::emitter::Glue;
use crate::emitter::agrees;
use crate::emitter::emit_local_loads;
use crate::emitter::slot_vec;
use crate::error::CompileError;
use crate::error::Form;
use crate::forms::find_unit;
use crate::forms::first_default_of;
use crate::forms::holds_index;
use crate::forms::with_index;
use crate::loader::Unit;
use crate::node::Node;
use crate::node::Param;
use crate::opcode::Instr;
use crate::opcode::OP_CALL;
use crate::opcode::OP_LOAD_MODULE_VAR;
use crate::opcode::OP_POP;
use crate::opcode::Value;
use crate::opcode::pairs_bound;
use crate::pool::texts;
use crate::rules::ALIAS_LIMIT;
use crate::rules::Out;
use crate::rules::State;
use crate::rules::c_aliases;
use crate::rules::c_call;
use crate::rules::c_defaults;
use crate::rules::c_function;
use crate::rules::c_load;
use crate::rules::c_node;
use crate::rules::c_overloads;
use crate::rules::c_program;
use crate::rules::c_seq;
use crate::rules::c_unit;
use crate::rules::fuel;
use crate::rules::local_loads;
use crate::rules::param_names;
use crate::scope::ARITY_LIMIT;
use crate::scope::Context;
use crate::scope::top_level_context;
use crate::selector::selector;
use crate::table::Function;
use crate::text::str_eq;

verus! {

impl Emitter {
    /// The rename pairs of a `load` form.
    pub(crate) fn aliases(&mut self, args: &Vec<Node>) -> (r: Result<Vec<(u16, u16)>, CompileError>)
        requires
            old(self).wf(),
            1 <= args@.len(),
        ensures
            final(self).wf(),
            match r {
                Ok(pairs) => c_aliases(old(self)@, args@, 1) == Ok::<_, CompileError>(
                    (final(self)@, pairs@),
                ) && pairs@.len() == args@.len() - 1 && pairs_bound(pairs@) <= final(self)@.pool.len()
                    && old(self)@.pool.len() <= final(self)@.pool.len(),
                Err(e) => c_aliases(old(self)@, args@, 1) == Err::<
                    (State, Seq<(u16, u16)>),
                    CompileError,
                >(e),
            },
    {
        let ghost whole = c_aliases(self@, args@, 1);
        let mut pairs: Vec<(u16, u16)> = Vec::new();
        let mut i: usize = 1;
        while i < args.len()
            invariant
                1 <= i <= args.len(),
                self.wf(),
                pairs@.len() == i - 1,
                pairs_bound(pairs@) <= self@.pool.len(),
                old(self)@.pool.len() <= self@.pool.len(),
                whole == c_aliases(old(self)@, args@, 1),
                whole == (match c_aliases(self@, args@, i as nat) {
                    Ok((s, rest)) => Ok::<(State, Seq<(u16, u16)>), CompileError>(
                        (s, pairs@ + rest),
                    ),
                    Err(e) => Err::<(State, Seq<(u16, u16)>), CompileError>(e),
                }),
            decreases args.len() - i,
        {
            let ghost done = pairs@;
            let pair = match &args[i] {
                Node::Identifier(name) => {
                    let k = self.intern(name.as_str())?;
                    (k, k)
                },
                Node::Call { name, args: parts } => {
                    if parts.len() < 1 {
                        return Err(CompileError::Malformed(Form::Load));
                    }
                    match &parts[0] {
                        Node::Identifier(alias) => {
                            let k = self.intern(name.as_str())?;
                            let j = self.intern(alias.as_str())?;
                            (k, j)
                        },
                        _ => {
                            return Err(CompileError::Malformed(Form::Load));
                        },
                    }
                },
                _ => {
                    return Err(CompileError::Malformed(Form::Load));
                },
            };
            pairs.push(pair);
            proof {
                assert(pairs@.drop_last() =~= done);
                let next = c_aliases(self@, args@, (i + 1) as nat);
                if let Ok((s, rest)) = next {
                    assert(done + (seq![pair] + rest) =~= done.push(pair) + rest);
                }
            }
            i += 1;
        }
        assert(pairs@ + Seq::<(u16, u16)>::empty() =~= pairs@);
        Ok(pairs)
    }

    /// `load "name" imports...`.
    pub fn form_load(
        &mut self,
        args: &Vec<Node>,
        ctx: &mut Context,
        units: &Vec<Unit>,
        loading: &Vec<usize>,
    ) -> (r: Result<Code, CompileError>)
        requires
            old(self).wf(),
            old(ctx).wf(),
        ensures
            final(self).wf(),
            final(ctx).wf(),
            agrees(
                r,
                c_load(units@, loading@, old(self)@, old(ctx)@, args@),
                old(self)@,
                final(self)@,
                final(ctx)@,
            ),
        decreases fuel(units@, loading@), args@, args@.len() + 2,
    {
        proof {
            reveal_with_fuel(c_load, 1);
            reveal_with_fuel(c_unit, 1);
        }
        if args.len() < 1 {
            return Err(CompileError::Malformed(Form::Load));
        }
        match &args[0] {
            Node::String(name) => {
                if args.len() - 1 > ALIAS_LIMIT {
                    return Err(CompileError::CapacityOverflow);
                }
                let i_module = self.intern(name.as_str())?;
                let pairs = self.aliases(args)?;
                match find_unit(units, name.as_str()) {
                    None => Err(CompileError::MissingModule),
                    Some(k) => {
                        if holds_index(loading, k) || loading.len() >= units.len() {
                            return Err(CompileError::CircularLoad);
                        }
                        let inner = with_index(loading, k);
                        let unit_code = self.parse_unit(&units[k].nodes, 0, units, &inner)?;
                        let mut code = Code::new();
                        code.emit_import(i_module, &pairs);
                        code.append(unit_code);
                        assert(code@ =~= seq![Instr::ImportModule(i_module, pairs@)] + unit_code@);
                        Ok(code)
                    },
                }
            },
            _ => Err(CompileError::Malformed(Form::Load)),
        }
    }

    /// The top-level nodes of a unit from `from` on.
    pub fn parse_unit(
        &mut self,
        nodes: &Vec<Node>,
        from: usize,
        units: &Vec<Unit>,
        loading: &Vec<usize>,
    ) -> (r: Result<Code, CompileError>)
        requires
            old(self).wf(),
        ensures
            final(self).wf(),
            agrees(
                r,
                c_unit(units@, loading@, old(self)@, nodes@, from as nat),
                old(self)@,
                final(self)@,
                top_level_context(),
            ),
        decreases fuel(units@, loading@), nodes@, nodes@.len() - from,
    {
        proof {
            reveal_with_fuel(c_unit, 1);
            reveal_with_fuel(c_call, 1);
            reveal_with_fuel(c_function, 1);
        }
        let ghost whole = c_unit(units@, loading@, self@, nodes@, from as nat);
        let mut code = Code::new();
        let mut i: usize = from;
        while i < nodes.len()
            invariant
                from <= i,
                self.wf(),
                code.wf(),
                code.bound() <= self@.pool.len(),
                old(self)@.pool.len() <= self@.pool.len(),
                whole == c_unit(units@, loading@, old(self)@, nodes@, from as nat),
                whole == (match c_unit(units@, loading@, self@, nodes@, i as nat) {
                    Ok(b) => Ok::<Out, CompileError>(
                        Out { st: b.st, cx: b.cx, code: code@ + b.code },
                    ),
                    Err(e) => Err::<Out, CompileError>(e),
                }),
            decreases nodes.len() - i,
        {
            proof {
                reveal_with_fuel(c_unit, 1);
                reveal_with_fuel(c_call, 1);
                reveal_with_fuel(c_function, 1);
            }
            let ghost done = code@;
            let ghost a: Seq<Instr>;
            match &nodes[i] {
                Node::Call { name, args } => {
                    let mut ctx = Context::top_level();
                    let part = match self.parse_call(name.as_str(), args, &mut ctx, units, loading) {
                        Ok(p) => p,
                        Err(e) => {
                            return Err(e);
                        },
                    };
                    let ghost call_code = part@;
                    code.append(part);
                    if !str_eq(name.as_str(), "class") {
                        code.emit_bare(OP_POP);
                    }
                    proof {
                        a = if name@ == "class"@ {
                            call_code
                        } else {
                            call_code.push(Instr::Pop)
                        };
                        assert(code@ =~= done + a);
                    }
                },
                Node::Function { name, params, body } => {
                    match self.function(&nodes[i], units, loading) {
                        Ok(p) => {},
                        Err(e) => {
                            return Err(e);
                        },
                    };
                    proof {
                        a = Seq::empty();
                        assert(code@ =~= done + a);
                    }
                },
                _ => {
                    return Err(CompileError::UnsupportedNode);
                },
            }
            proof {
                let next = c_unit(units@, loading@, self@, nodes@, (i + 1) as nat);
                if let Ok(b) = next {
                    assert(done + (a + b.code) =~= (done + a) + b.code);
                }
            }
            i += 1;
        }
        assert(code@ + Seq::<Instr>::empty() =~= code@);
        Ok(code)
    }

    /// The definition of a function of the module.
    pub fn function(&mut self, node: &Node, units: &Vec<Unit>, loading: &Vec<usize>) -> (r: Result<
        Code,
        CompileError,
    >)
        requires
            old(self).wf(),
        ensures
            final(self).wf(),
            agrees(
                r,
                c_function(units@, loading@, old(self)@, *node),
                old(self)@,
                final(self)@,
                top_level_context(),
            ),
        decreases fuel(units@, loading@), *node, 2nat,
    {
        proof {
            reveal_with_fuel(c_function, 1);
            reveal_with_fuel(c_overloads, 1);
            reveal_with_fuel(c_seq, 1);
        }
        match node {
            Node::Function { name, params, body } => {
                if name.as_str().is_empty() {
                    return Err(CompileError::Malformed(Form::Function));
                }
                if params.len() > ARITY_LIMIT {
                    return Err(CompileError::CapacityOverflow);
                }
                let n = params.len();
                let at = self.functions.len();
                assert(param_names(params@).take(n as int) =~= param_names(params@));
                let mut stub = Code::new();
                stub.finish();
                assert(stub@ =~= Seq::<Instr>::empty().push(Instr::Return));
                let entry = Function {
                    selector: selector(name.as_str(), n),
                    arity: n as u8,
                    code: stub.bytes,
                    params: slot_vec(params, n),
                };
                let ghost before = self@.functions;
                let ghost entry_view = entry@;
                self.functions.push(entry);
                assert(self@.functions =~= before.push(entry_view));
                let slots = slot_vec(params, n);
                assert(texts(slots@).subrange(1, slots@.len() as int) =~= param_names(params@));
                let fields: Vec<String> = Vec::new();
                assert(texts(fields@) =~= Seq::<Seq<char>>::empty());
                let mut inner = Context::for_function(None, None, fields, name.clone(), slots);
                let mut body_code = self.parse_seq(
                    body,
                    0,
                    Glue::Pop,
                    Glue::Nothing,
                    &mut inner,
                    units,
                    loading,
                )?;
                if at >= self.functions.len() {
                    return Err(CompileError::CapacityOverflow);
                }
                body_code.finish();
                let done = Function {
                    selector: selector(name.as_str(), n),
                    arity: n as u8,
                    code: body_code.bytes,
                    params: slot_vec(params, n),
                };
                let ghost grown = self@.functions;
                let ghost done_view = done@;
                self.functions.set(at, done);
                assert(self@.functions =~= grown.update(at as int, done_view));
                let first = first_default_of(params);
                self.overloads(name.as_str(), params, first, units, loading)?;
                Ok(Code::new())
            },
            _ => Err(CompileError::UnsupportedNode),
        }
    }

    /// The forwarding entries of a function for the arities from `first` on.
    pub(crate) fn overloads(
        &mut self,
        name: &str,
        params: &Vec<Param>,
        first: usize,
        units: &Vec<Unit>,
        loading: &Vec<usize>,
    ) -> (r: Result<(), CompileError>)
        requires
            old(self).wf(),
            params@.len() <= ARITY_LIMIT,
        ensures
            final(self).wf(),
            match r {
                Ok(_) => c_overloads(units@, loading@, old(self)@, name@, params@, first as nat)
                    == Ok::<Out, CompileError>(
                    Out { st: final(self)@, cx: top_level_context(), code: Seq::empty() },
                ) && old(self)@.pool.len() <= final(self)@.pool.len(),
                Err(e) => c_overloads(units@, loading@, old(self)@, name@, params@, first as nat)
                    == Err::<Out, CompileError>(e),
            },
        decreases fuel(units@, loading@), params@, params@.len() - first + 1,
    {
        proof {
            reveal_with_fuel(c_overloads, 1);
            reveal_with_fuel(c_defaults, 1);
        }
        if first >= params.len() {
            return Ok(());
        }
        let slots = slot_vec(params, first);
        assert(texts(slots@).subrange(1, slots@.len() as int) =~= param_names(params@).take(
            first as int,
        ));
        let fields: Vec<String> = Vec::new();
        assert(texts(fields@) =~= Seq::<Seq<char>>::empty());
        let mut inner = Context::for_function(None, None, fields, String::from_str(name), slots);
        let i_self = self.intern("$self")?;
        let full = selector(name, params.len());
        let i_sel = self.intern(full.as_str())?;
        let given = self.defaults(params, first, &mut inner, units, loading)?;
        let mut code = Code::new();
        code.emit_index(OP_LOAD_MODULE_VAR, i_self);
        emit_local_loads(&mut code, 1, first + 1);
        code.append(given);
        code.emit_call(OP_CALL, i_sel, params.len() as u8);
        code.finish();
        assert(code@ =~= (seq![Instr::LoadModuleVar(i_self)] + local_loads(1, (first + 1) as nat)
            + given@ + seq![Instr::Call(i_sel, params@.len() as u8)]).push(Instr::Return));
        let f = Function {
            selector: selector(name, first),
            arity: first as u8,
            code: code.bytes,
            params: slot_vec(params, first),
        };
        let ghost before = self@.functions;
        let ghost fv = f@;
        self.functions.push(f);
        assert(self@.functions =~= before.push(fv));
        self.overloads(name, params, first + 1, units, loading)
    }

    /// The default values of the parameters from index `j` on.
    pub fn defaults(
        &mut self,
        params: &Vec<Param>,
        j: usize,
        ctx: &mut Context,
        units: &Vec<Unit>,
        loading: &Vec<usize>,
    ) -> (r: Result<Code, CompileError>)
        requires
            old(self).wf(),
            old(ctx).wf(),
        ensures
            final(self).wf(),
            final(ctx).wf(),
            agrees(
                r,
                c_defaults(units@, loading@, old(self)@, old(ctx)@, params@, j as nat),
                old(self)@,
                final(self)@,
                final(ctx)@,
            ),
        decreases fuel(units@, loading@), params@, params@.len() - j,
    {
        proof {
            reveal_with_fuel(c_defaults, 1);
            reveal_with_fuel(c_node, 1);
        }
        if j >= params.len() {
            return Ok(Code::new());
        }
        match &params[j].default_value {
            None => Err(CompileError::Malformed(Form::Function)),
            Some(d) => {
                let mut code = self.parse_node(d, ctx, units, loading)?;
                let rest = self.defaults(params, j + 1, ctx, units, loading)?;
                code.append(rest);
                Ok(code)
            },
        }
    }

    /// Compiles the unit `root` and all that it loads.
    pub fn parse_root(units: &Vec<Unit>, root: usize) -> (r: Result<Emitter, CompileError>)
        ensures
            match r {
                Ok(emitter) => emitter.wf() && c_program(units@, root as nat) == Ok::<
                    State,
                    CompileError,
                >(emitter@),
                Err(e) => c_program(units@, root as nat) == Err::<State, CompileError>(e),
            },
    {
        if root >= units.len() {
            return Err(CompileError::MissingModule);
        }
        let mut emitter = Emitter::new();
        let mut loading: Vec<usize> = Vec::new();
        loading.push(root);
        assert(loading@ =~= seq![root]);
        let mut code = emitter.parse_unit(&units[root].nodes, 0, units, &loading)?;
        let ghost top = code@;
        code.emit_constant(Value::Null);
        code.finish();
        assert(code@ =~= top.push(Instr::Constant(Value::Null)).push(Instr::Return));
        let main = Function {
            selector: String::from_str("main"),
            arity: 0,
            code: code.bytes,
            params: Vec::new(),
        };
        assert(main@.params =~= Seq::<Seq<char>>::empty());
        let ghost before = emitter@.functions;
        let ghost main_view = main@;
        emitter.functions.push(main);
        assert(emitter@.functions =~= before.push(main_view));
        Ok(emitter)
    }
}

} // verus!
