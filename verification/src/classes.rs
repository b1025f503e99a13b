//! Class declarations: fields, methods and the class table.

use vstd::prelude::*;
use crate::opcode::OP_NULL;
use vstd::string::*;
use crate::code::Code;
use crate::emitter::Emitter;
use crate::emitter::Glue;
use crate::emitter::agrees;
use crate::emitter::has_selector;
use crate::emitter::slot_vec;
use crate::error::CompileError;
use crate::error::Form;
use crate::forms::copy_opt;
use crate::forms::copy_strings;
use crate::loader::Unit;
use crate::node::Node;
use crate::opcode::Instr;
use crate::opcode::encode;
use crate::pool::texts;
use crate::rules::State;
use crate::rules::c_class;
use crate::rules::c_fields;
use crate::rules::c_methods;
use crate::rules::c_node;
use crate::rules::c_seq;
use crate::rules::default_constructor;
use crate::rules::fuel;
use crate::rules::lemma_body_grows;
use crate::rules::lemma_fields_grow;
use crate::rules::lemma_put_class;
use crate::rules::no_value;
use crate::rules::param_names;
use crate::rules::slot_names;
use crate::scope::ARITY_LIMIT;
use crate::scope::Context;
use crate::scope::opt_text;
use crate::selector::selector;
use crate::table::Class;
use crate::table::Field;
use crate::table::FieldView;
use crate::table::Function;
use crate::table::FunctionView;
use crate::table::body_ok;
use crate::table::class_views;
use crate::table::field_views;
use crate::table::fields_wf;
use crate::table::find_class;
use crate::table::function_views;
use crate::table::image_ok;
use crate::table::method_shape;
use crate::table::methods_wf;
use crate::table::push_field_names;
use crate::table::push_inherited_fields;
use crate::text::str_eq;

verus! {

impl Emitter {
    /// The fields that a class body declares, from index `from` on.
    pub fn fields(
        &mut self,
        args: &Vec<Node>,
        from: usize,
        units: &Vec<Unit>,
        loading: &Vec<usize>,
    ) -> (r: Result<Vec<Field>, CompileError>)
        requires
            old(self).wf(),
        ensures
            final(self).wf(),
            match r {
                Ok(fields) => c_fields(units@, loading@, old(self)@, args@, from as nat) == Ok::<
                    (State, Seq<FieldView>),
                    CompileError,
                >((final(self)@, field_views(fields@))) && fields_wf(
                    field_views(fields@),
                    final(self)@.pool.len(),
                ) && old(self)@.pool.len() <= final(self)@.pool.len(),
                Err(e) => c_fields(units@, loading@, old(self)@, args@, from as nat) == Err::<
                    (State, Seq<FieldView>),
                    CompileError,
                >(e),
            },
        decreases fuel(units@, loading@), args@, args@.len() - from + 1,
    {
        proof {
            reveal_with_fuel(c_fields, 1);
            reveal_with_fuel(c_node, 1);
        }
        if from >= args.len() {
            let none: Vec<Field> = Vec::new();
            assert(field_views(none@) =~= Seq::<FieldView>::empty());
            return Ok(none);
        }
        match &args[from] {
            Node::Function { name, params, body } => self.fields(args, from + 1, units, loading),
            Node::Call { name, args: parts } => {
                if !str_eq(name.as_str(), "let") {
                    return Err(CompileError::Malformed(Form::Class));
                }
                if parts.len() != 2 {
                    return Err(CompileError::Malformed(Form::Let));
                }
                match &parts[0] {
                    Node::Identifier(field) => {
                        let mut ctx = Context::for_field();
                        let value = self.parse_node(&parts[1], &mut ctx, units, loading)?;
                        let rest = self.fields(args, from + 1, units, loading)?;
                        let mut all: Vec<Field> = Vec::new();
                        let ghost default_code = value@;
                        let first = Field { name: field.clone(), default: value.bytes };
                        let ghost first_view = first@;
                        all.push(first);
                        let mut rest = rest;
                        let ghost rest_views = field_views(rest@);
                        all.append(&mut rest);
                        assert(field_views(all@) =~= seq![first_view] + rest_views);
                        proof {
                            let n = self@.pool.len();
                            assert(first_view.default == encode(default_code));
                            assert(image_ok(first_view.default, n));
                            assert forall|k: int| 0 <= k < field_views(all@).len() implies image_ok(
                                #[trigger] field_views(all@)[k].default,
                                n,
                            ) by {
                                if k > 0 {
                                    assert(field_views(all@)[k] == rest_views[k - 1]);
                                }
                            }
                        }
                        Ok(all)
                    },
                    _ => Err(CompileError::Malformed(Form::Let)),
                }
            },
            _ => Err(CompileError::Malformed(Form::Class)),
        }
    }

    /// The methods that a class body defines, from index `from` on.
    pub fn methods(
        &mut self,
        class_name: &String,
        parent_name: &Option<String>,
        scope: &Vec<String>,
        args: &Vec<Node>,
        from: usize,
        units: &Vec<Unit>,
        loading: &Vec<usize>,
    ) -> (r: Result<Vec<Function>, CompileError>)
        requires
            old(self).wf(),
        ensures
            final(self).wf(),
            match r {
                Ok(methods) => c_methods(
                    units@,
                    loading@,
                    old(self)@,
                    class_name@,
                    opt_text(*parent_name),
                    texts(scope@),
                    args@,
                    from as nat,
                ) == Ok::<(State, Seq<FunctionView>), CompileError>(
                    (final(self)@, function_views(methods@)),
                ) && methods_wf(function_views(methods@), final(self)@.pool.len())
                    && old(self)@.pool.len() <= final(self)@.pool.len(),
                Err(e) => c_methods(
                    units@,
                    loading@,
                    old(self)@,
                    class_name@,
                    opt_text(*parent_name),
                    texts(scope@),
                    args@,
                    from as nat,
                ) == Err::<(State, Seq<FunctionView>), CompileError>(e),
            },
        decreases fuel(units@, loading@), args@, args@.len() - from + 1,
    {
        proof {
            reveal_with_fuel(c_methods, 1);
            reveal_with_fuel(c_seq, 1);
        }
        if from >= args.len() {
            let none: Vec<Function> = Vec::new();
            assert(function_views(none@) =~= Seq::<FunctionView>::empty());
            return Ok(none);
        }
        match &args[from] {
            Node::Function { name, params, body } => {
                if name.as_str().is_empty() {
                    return Err(CompileError::Malformed(Form::Function));
                }
                if params.len() > ARITY_LIMIT {
                    return Err(CompileError::CapacityOverflow);
                }
                let n = params.len();
                assert(param_names(params@).take(n as int) =~= param_names(params@));
                let slots = slot_vec(params, n);
                assert(texts(slots@).subrange(1, slots@.len() as int) =~= param_names(params@));
                let mut inner = Context::for_function(
                    Some(class_name.clone()),
                    copy_opt(parent_name),
                    copy_strings(scope),
                    name.clone(),
                    slots,
                );
                let mut body_code = self.parse_seq(
                    body,
                    0,
                    Glue::Pop,
                    Glue::Nothing,
                    &mut inner,
                    units,
                    loading,
                )?;
                let ghost body_bound = body_code.bound();
                body_code.finish();
                let rest = self.methods(
                    class_name,
                    parent_name,
                    scope,
                    args,
                    from + 1,
                    units,
                    loading,
                )?;
                let first = Function {
                    selector: selector(name.as_str(), n),
                    arity: n as u8,
                    code: body_code.bytes,
                    params: slot_vec(params, n),
                };
                let mut all: Vec<Function> = Vec::new();
                let ghost first_view = first@;
                all.push(first);
                let mut rest = rest;
                let ghost rest_views = function_views(rest@);
                all.append(&mut rest);
                assert(function_views(all@) =~= seq![first_view] + rest_views);
                proof {
                    let n = self@.pool.len();
                    lemma_body_grows(first_view.code, body_bound, n);
                    assert(first_view.params =~= slot_names(param_names(params@)));
                    assert(method_shape(first_view));
                    assert forall|k: int| 0 <= k < function_views(all@).len() implies body_ok(
                        (#[trigger] function_views(all@)[k]).code,
                        n,
                    ) && method_shape(function_views(all@)[k]) by {
                        if k > 0 {
                            assert(function_views(all@)[k] == rest_views[k - 1]);
                        }
                    }
                }
                Ok(all)
            },
            _ => self.methods(class_name, parent_name, scope, args, from + 1, units, loading),
        }
    }

    /// `class Name [Parent] members...`.
    pub fn form_class(
        &mut self,
        args: &Vec<Node>,
        ctx: &mut Context,
        units: &Vec<Unit>,
        loading: &Vec<usize>,
    ) -> (r: Result<Code, CompileError>)
        requires
            old(self).wf(),
            old(ctx).wf(),
        ensures
            final(self).wf(),
            final(ctx).wf(),
            agrees(
                r,
                c_class(units@, loading@, old(self)@, old(ctx)@, args@),
                old(self)@,
                final(self)@,
                final(ctx)@,
            ),
        decreases fuel(units@, loading@), args@, args@.len() + 2,
    {
        proof {
            reveal_with_fuel(c_class, 1);
            reveal_with_fuel(c_fields, 1);
            reveal_with_fuel(c_methods, 1);
        }
        if args.len() < 1 {
            return Err(CompileError::Malformed(Form::Class));
        }
        match &args[0] {
            Node::Identifier(name) => {
                let declared: Option<String> = if args.len() > 1 {
                    match &args[1] {
                        Node::Identifier(p) => Some(p.clone()),
                        _ => None,
                    }
                } else {
                    None
                };
                let parent: String = match &declared {
                    Some(p) => p.clone(),
                    None => String::from_str("Object"),
                };
                let from: usize = if declared.is_some() {
                    2
                } else {
                    1
                };
                if str_eq(name.as_str(), "$self") {
                    return Err(CompileError::Malformed(Form::Class));
                }
                let fields = self.fields(args, from, units, loading)?;
                let ghost fields_limit = self@.pool.len();
                let early = match find_class(&self.classes, name.as_str(), self.classes.len()) {
                    Some(i) => i,
                    None => self.classes.len(),
                };
                assert(class_views(self.classes@).take(self.classes@.len() as int) =~= class_views(
                    self.classes@,
                ));
                let mut scope: Vec<String> = Vec::new();
                assert(texts(scope@) =~= Seq::<Seq<char>>::empty());
                push_field_names(&mut scope, &fields);
                push_inherited_fields(&mut scope, &self.classes, parent.as_str(), early);
                let mut functions = self.methods(name, &declared, &scope, args, from, units, loading)?;
                if !has_selector(&functions, "new()") {
                    let mut body = Code::new();
                    body.emit_bare(OP_NULL);
                    body.finish();
                    assert(body@ =~= seq![no_value()].push(Instr::Return));
                    let mut slots: Vec<String> = Vec::new();
                    slots.push(String::from_str("this"));
                    assert(texts(slots@) =~= seq!["this"@]);
                    let made = Function {
                        selector: String::from_str("new()"),
                        arity: 0,
                        code: body.bytes,
                        params: slots,
                    };
                    let ghost before = function_views(functions@);
                    functions.push(made);
                    assert(function_views(functions@) =~= before.push(default_constructor()));
                    proof {
                        let n = self@.pool.len();
                        lemma_body_grows(default_constructor().code, 0, n);
                        assert(method_shape(default_constructor()));
                        assert forall|k: int|
                            0 <= k < function_views(functions@).len() implies body_ok(
                            (#[trigger] function_views(functions@)[k]).code,
                            n,
                        ) && method_shape(function_views(functions@)[k]) by {
                            if k < before.len() {
                                assert(function_views(functions@)[k] == before[k]);
                            }
                        }
                    }
                }
                let ghost table = self@.classes;
                assert(table.take(table.len() as int) =~= table);
                let found = find_class(&self.classes, name.as_str(), self.classes.len());
                let slot = match found {
                    Some(i) => i,
                    None => self.classes.len(),
                };
                if !str_eq(parent.as_str(), "Object") && find_class(
                    &self.classes,
                    parent.as_str(),
                    slot,
                ).is_none() {
                    return Err(CompileError::Malformed(Form::Class));
                }
                let class = Class { name: name.clone(), parent, fields, functions };
                let ghost class_view = class@;
                proof {
                    lemma_put_class(table, class_view);
                    lemma_fields_grow(class_view.fields, fields_limit, self@.pool.len());
                }
                match found {
                    Some(i) => {
                        self.classes.set(i, class);
                        assert(self@.classes =~= table.update(i as int, class_view));
                    },
                    None => {
                        self.classes.push(class);
                        assert(self@.classes =~= table.push(class_view));
                    },
                }
                Ok(Code::new())
            },
            _ => Err(CompileError::Malformed(Form::Class)),
        }
    }
}

} // verus!
