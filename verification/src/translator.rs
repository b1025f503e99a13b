//! The translator: the executable translation of syntax trees to C++.
//!
//! Each function here computes one function of [`crate::translate`], on
//! the generator's own pieces in place of pieces that are passed along.

use vstd::prelude::*;
use vstd::string::*;
use crate::forms::find_unit;
use crate::forms::holds_index;
use crate::forms::with_index;
use crate::generator::find_key;
use crate::generator::insert_name;
use crate::generator::pairs;
use crate::generator::Generator;
use crate::generator::Pieces;
use crate::loader::Unit;
use crate::node::Node;
use crate::node::Param;
use crate::pool::find_str;
use crate::pool::lemma_position;
use crate::pool::texts;
use crate::rules::fuel;
use crate::selector::decimal;
use crate::selector::push_decimal;
use crate::selector::push_decimal_usize;
use crate::text::str_eq;
use crate::translate::arm_text;
use crate::translate::callee_text;
use crate::translate::capture;
use crate::translate::cases_text;
use crate::translate::deeper;
use crate::translate::float_keys;
use crate::translate::float_text;
use crate::translate::float_views;
use crate::translate::floats_in;
use crate::translate::floats_in_nodes;
use crate::translate::floats_in_params;
use crate::translate::floats_of;
use crate::translate::forwarded;
use crate::translate::function_head;
use crate::translate::g_apply;
use crate::translate::g_binary;
use crate::translate::g_block;
use crate::translate::g_body;
use crate::translate::g_call;
use crate::translate::g_class;
use crate::translate::g_dump;
use crate::translate::g_dumped;
use crate::translate::g_each;
use crate::translate::g_file;
use crate::translate::g_function;
use crate::translate::g_if;
use crate::translate::g_invoke;
use crate::translate::g_last;
use crate::translate::g_let;
use crate::translate::g_list;
use crate::translate::g_load;
use crate::translate::g_members;
use crate::translate::g_new;
use crate::translate::g_node;
use crate::translate::g_operator;
use crate::translate::g_program;
use crate::translate::g_return;
use crate::translate::g_set;
use crate::translate::g_statements;
use crate::translate::g_switch;
use crate::translate::g_top_let;
use crate::translate::g_while;
use crate::translate::instance_preamble;
use crate::translate::names_of_params;
use crate::translate::number_text;
use crate::translate::parameter_text;
use crate::translate::parameters_text;
use crate::translate::shallower;
use crate::translate::stated;
use crate::translate::value_text;
use crate::translate::with_name;
use crate::translate::Dumped;
use crate::translate::Made;
use crate::translate::TranslateError;
use crate::translate::Translated;

verus! {

/// Whether what a function returned is what the translation says: the same
/// text with the same pieces, or the same error.
pub open spec fn made(r: Result<String, TranslateError>, rule: Translated, st: Pieces) -> bool {
    match r {
        Ok(text) => rule == Ok::<Made, TranslateError>(Made { st, text: text@ }),
        Err(e) => rule == Err::<Made, TranslateError>(e),
    }
}

/// Appends the decimal text of `i`.
pub fn push_number(out: &mut String, i: i32)
    ensures
        final(out)@ == old(out)@ + number_text(i as int),
{
    if i < 0 {
        out.append("-");
        let positive: u32 = (0 - (i as i64)) as u32;
        push_decimal(out, positive);
        assert(out@ =~= old(out)@ + number_text(i as int));
    } else {
        push_decimal(out, i as u32);
    }
}

/// The text of the float with the bit pattern `bits`.
pub fn find_float(floats: &Vec<(u32, String)>, bits: u32) -> (r: Option<usize>)
    ensures
        match r {
            Some(i) => i < floats@.len() && float_text(float_views(floats@), bits) == Some(
                floats@[i as int].1@,
            ),
            None => float_text(float_views(floats@), bits) is None,
        },
{
    let ghost known = float_keys(float_views(floats@));
    let mut i: usize = 0;
    while i < floats.len()
        invariant
            i <= floats.len(),
            known == float_keys(float_views(floats@)),
            forall|k: int| 0 <= k < i ==> known[k] != bits,
        decreases floats.len() - i,
    {
        assert(known[i as int] == floats@[i as int].0);
        if floats[i].0 == bits {
            proof {
                lemma_position(known, bits);
            }
            return Some(i);
        }
        i += 1;
    }
    proof {
        lemma_position(known, bits);
    }
    None
}

/// Appends a literal or a name as a value of the target language.
pub fn push_value(out: &mut String, floats: &Vec<(u32, String)>, node: &Node) -> (r: Result<
    (),
    TranslateError,
>)
    ensures
        match r {
            Ok(_) => value_text(float_views(floats@), *node) is Ok && final(out)@ == old(out)@
                + value_text(float_views(floats@), *node).unwrap(),
            Err(e) => value_text(float_views(floats@), *node) == Err::<Seq<char>, TranslateError>(
                e,
            ),
        },
{
    match node {
        Node::Integer(i) => {
            out.append("Value(");
            push_number(out, *i);
            out.append(")");
            assert(out@ =~= old(out)@ + ("Value("@ + number_text(*i as int) + ")"@));
            Ok(())
        },
        Node::Float(bits) => match find_float(floats, *bits) {
            Some(k) => {
                out.append("Value(");
                out.append(floats[k].1.as_str());
                out.append(")");
                assert(out@ =~= old(out)@ + ("Value("@ + floats@[k as int].1@ + ")"@));
                Ok(())
            },
            None => Err(TranslateError::UnknownFloat),
        },
        Node::Bool(b) => {
            if *b {
                out.append("Value(true)");
            } else {
                out.append("Value(false)");
            }
            Ok(())
        },
        Node::String(s) => {
            out.append("Value(\"");
            out.append(s.as_str());
            out.append("\")");
            assert(out@ =~= old(out)@ + ("Value(\""@ + s@ + "\")"@));
            Ok(())
        },
        Node::Null => {
            out.append("Value()");
            Ok(())
        },
        Node::Identifier(id) => {
            out.append("Value(");
            out.append(id.as_str());
            out.append(")");
            assert(out@ =~= old(out)@ + ("Value("@ + id@ + ")"@));
            Ok(())
        },
        _ => Err(TranslateError::Unprintable),
    }
}

/// Appends the declaration of the parameter with the index `id`.
pub fn push_parameter(out: &mut String, floats: &Vec<(u32, String)>, id: usize, p: &Param) -> (r:
    Result<(), TranslateError>)
    ensures
        match r {
            Ok(_) => parameter_text(float_views(floats@), id as nat, *p) is Ok && final(out)@
                == old(out)@ + parameter_text(float_views(floats@), id as nat, *p).unwrap(),
            Err(e) => parameter_text(float_views(floats@), id as nat, *p) == Err::<
                Seq<char>,
                TranslateError,
            >(e),
        },
{
    let name = p.name.as_str();
    match &p.default_value {
        Some(d) => {
            let mut value = String::new();
            push_value(&mut value, floats, d)?;
            out.append("Value ");
            out.append(name);
            out.append(";\n");
            out.append("if (");
            push_decimal_usize(out, id);
            out.append(" < args1.size()) {\n");
            out.append(name);
            out.append(" = args1[");
            push_decimal_usize(out, id);
            out.append("];\n");
            out.append("} else {\n");
            out.append(name);
            out.append(" = ");
            out.append(value.as_str());
            out.append(";\n");
            out.append("}\n");
            assert(out@ =~= old(out)@ + parameter_text(float_views(floats@), id as nat, *p).unwrap());
            Ok(())
        },
        None => {
            out.append("Value ");
            out.append(name);
            out.append(" = args1[");
            push_decimal_usize(out, id);
            out.append("];\n");
            assert(out@ =~= old(out)@ + ("Value "@ + p.name@ + " = args1["@ + decimal(id as nat)
                + "];\n"@));
            Ok(())
        },
    }
}

/// Appends the declarations of the parameters.
pub fn push_parameters(out: &mut String, floats: &Vec<(u32, String)>, params: &Vec<Param>) -> (r:
    Result<(), TranslateError>)
    ensures
        match r {
            Ok(_) => parameters_text(float_views(floats@), params@, 0) is Ok && final(out)@
                == old(out)@ + parameters_text(float_views(floats@), params@, 0).unwrap(),
            Err(e) => parameters_text(float_views(floats@), params@, 0) == Err::<
                Seq<char>,
                TranslateError,
            >(e),
        },
{
    let ghost fl = float_views(floats@);
    let ghost whole = parameters_text(fl, params@, 0);
    let ghost start = out@;
    let mut i: usize = 0;
    let ghost mut done: Seq<char> = Seq::empty();
    assert(out@ =~= start + done);
    while i < params.len()
        invariant
            i <= params.len(),
            fl == float_views(floats@),
            whole == parameters_text(fl, params@, 0),
            start == old(out)@,
            out@ == start + done,
            whole == (match parameters_text(fl, params@, i as nat) {
                Ok(rest) => Ok::<Seq<char>, TranslateError>(done + rest),
                Err(e) => Err::<Seq<char>, TranslateError>(e),
            }),
        decreases params.len() - i,
    {
        let ghost before = out@;
        match push_parameter(out, floats, i, &params[i]) {
            Ok(_) => {},
            Err(e) => {
                return Err(e);
            },
        }
        proof {
            let first = parameter_text(fl, i as nat, params@[i as int]).unwrap();
            if let Ok(rest) = parameters_text(fl, params@, (i + 1) as nat) {
                assert(done + (first + rest) =~= (done + first) + rest);
            }
            done = done + first;
            assert(out@ =~= start + done);
        }
        i += 1;
    }
    assert(done + Seq::<char>::empty() =~= done);
    Ok(())
}

/// Appends the cases of a `switch` from index `i` on.
pub fn push_cases(out: &mut String, floats: &Vec<(u32, String)>, args: &Vec<Node>, i: usize) -> (r:
    Result<(), TranslateError>)
    ensures
        match r {
            Ok(_) => cases_text(float_views(floats@), args@, i as nat) is Ok && final(out)@
                == old(out)@ + cases_text(float_views(floats@), args@, i as nat).unwrap(),
            Err(e) => cases_text(float_views(floats@), args@, i as nat) == Err::<
                Seq<char>,
                TranslateError,
            >(e),
        },
    decreases args@.len() - i,
{
    if i >= args.len() || i + 1 >= args.len() {
        assert(out@ =~= old(out)@ + Seq::<char>::empty());
        return Ok(());
    }
    let mut value = String::new();
    push_value(&mut value, floats, &args[i])?;
    let mut result = String::new();
    push_value(&mut result, floats, &args[i + 1])?;
    out.append("if (test1 == ");
    out.append(value.as_str());
    out.append(") {\n");
    out.append("return ");
    out.append(result.as_str());
    out.append(";\n");
    out.append("}\n");
    let ghost mid = out@;
    push_cases(out, floats, args, i + 2)?;
    assert(out@ =~= old(out)@ + cases_text(float_views(floats@), args@, i as nat).unwrap());
    Ok(())
}

/// Appends the names from index `from` on, as [`forwarded`] says.
pub fn push_forwarded(out: &mut String, names: &Vec<String>, from: usize, bare: bool)
    ensures
        final(out)@ == old(out)@ + forwarded(texts(names@), from as nat, bare),
    decreases names@.len() - from,
{
    if from >= names.len() {
        assert(out@ =~= old(out)@ + Seq::<char>::empty());
        return ;
    }
    if !bare {
        out.append(", ");
    }
    out.append(names[from].as_str());
    assert(texts(names@)[from as int] == names@[from as int]@);
    push_forwarded(out, names, from + 1, false);
    assert(out@ =~= old(out)@ + forwarded(texts(names@), from as nat, bare));
}

impl Generator {
    /// Goes one level deeper.
    pub fn deepen(&mut self) -> (r: Result<(), TranslateError>)
        ensures
            match r {
                Ok(_) => deeper(old(self)@) == Ok::<Pieces, TranslateError>(final(self)@),
                Err(e) => deeper(old(self)@) == Err::<Pieces, TranslateError>(e),
            },
    {
        if self.depth >= isize::MAX {
            return Err(TranslateError::TooDeep);
        }
        self.depth = self.depth + 1;
        Ok(())
    }

    /// Comes back up one level.
    pub fn rise(&mut self) -> (r: Result<(), TranslateError>)
        ensures
            match r {
                Ok(_) => shallower(old(self)@) == Ok::<Pieces, TranslateError>(final(self)@),
                Err(e) => shallower(old(self)@) == Err::<Pieces, TranslateError>(e),
            },
    {
        if self.depth <= isize::MIN {
            return Err(TranslateError::TooDeep);
        }
        self.depth = self.depth - 1;
        Ok(())
    }

    /// Adds `text` to the statements of the innermost open file.
    pub fn state(&mut self, text: &str) -> (r: Result<(), TranslateError>)
        ensures
            match r {
                Ok(_) => stated(old(self)@, text@) == Ok::<Pieces, TranslateError>(final(self)@),
                Err(e) => stated(old(self)@, text@) == Err::<Pieces, TranslateError>(e),
            },
    {
        let ghost before = self@.main;
        match self.main.pop() {
            None => Err(TranslateError::NoOpenFile),
            Some(last) => {
                let mut last = last;
                last.append(text);
                self.main.push(last);
                assert(self@.main =~= before.update(before.len() - 1, before.last() + text@));
                Ok(())
            },
        }
    }

    /// Appends the head of a function that is called where it stands.
    pub fn push_capture(&self, out: &mut String)
        ensures
            final(out)@ == old(out)@ + capture(self@),
    {
        out.append("[=");
        if self.current_class.is_some() {
            out.append(", this");
        }
        out.append("]() mutable -> Value {\n");
        assert(out@ =~= old(out)@ + capture(self@));
    }

    /// A node as an expression of the target language.
    pub fn generate_node(
        &mut self,
        node: &Node,
        units: &Vec<Unit>,
        floats: &Vec<(u32, String)>,
        loading: &Vec<usize>,
    ) -> (r: Result<String, TranslateError>)
        ensures
            made(r, g_node(units@, float_views(floats@), loading@, old(self)@, *node), final(self)@),
        decreases fuel(units@, loading@), *node, 2nat,
    {
        proof {
            reveal_with_fuel(g_node, 1);
            reveal_with_fuel(g_function, 1);
            reveal_with_fuel(g_call, 1);
        }
        match node {
            Node::Function { name, params, body } => self.function(node, units, floats, loading),
            Node::Call { name, args } => self.call(name.as_str(), args, units, floats, loading),
            Node::Integer(i) => {
                let mut out = String::new();
                push_number(&mut out, *i);
                assert(out@ =~= number_text(*i as int));
                Ok(out)
            },
            Node::Float(bits) => match find_float(floats, *bits) {
                Some(k) => Ok(floats[k].1.clone()),
                None => Err(TranslateError::UnknownFloat),
            },
            Node::String(s) => {
                let mut out = String::from_str("\"");
                out.append(s.as_str());
                out.append("\"s");
                Ok(out)
            },
            Node::Identifier(id) => {
                if str_eq(id.as_str(), "this") {
                    Ok(String::from_str("shared_from_this()"))
                } else {
                    Ok(id.clone())
                }
            },
            _ => Err(TranslateError::UnsupportedNode),
        }
    }

    /// The head of a function definition.
    pub fn head(&self, name: &str) -> (r: Result<String, TranslateError>)
        ensures
            match r {
                Ok(text) => function_head(self@, name@) == Ok::<Seq<char>, TranslateError>(text@),
                Err(e) => function_head(self@, name@) == Err::<Seq<char>, TranslateError>(e),
            },
    {
        let target = crate::generator::convert(name);
        let named = !name.is_empty();
        let mut out = String::new();
        if self.depth > 0 {
            if named && self.inside_expression > 0 {
                return Err(TranslateError::NestedNamedFunction);
            }
            if named && self.inside_expression == 0 {
                out.append("auto func_");
                out.append(target.as_str());
                out.append(" = ");
            }
            out.append("(Value::Function([=]");
            out.append("(");
            out.append("std::vector<Value> args1) mutable -> Value {\n");
            assert(out@ =~= function_head(self@, name@).unwrap());
        } else {
            if named {
                out.append("Value func_");
                out.append(target.as_str());
            } else {
                out.append("(Value::Function([=]");
            }
            out.append("(std::vector<Value> args1)");
            if !named {
                out.append(" mutable -> Value");
            }
            if self.current_class.is_some() {
                out.append(" override");
            }
            out.append(" {\n");
            assert(out@ =~= function_head(self@, name@).unwrap());
        }
        Ok(out)
    }

    /// Notes the method that is being translated, and its parameters.
    pub fn enter_method(&mut self, name: &String, params: &Vec<Param>)
        ensures
            final(self)@ == (Pieces {
                current_method: Some(name@),
                current_method_args: old(self)@.current_method_args + names_of_params(params@),
                ..old(self)@
            }),
    {
        self.current_method = Some(name.clone());
        let ghost before = texts(self.current_method_args@);
        let mut k: usize = 0;
        assert(names_of_params(params@).take(0) =~= Seq::<Seq<char>>::empty());
        assert(before + Seq::<Seq<char>>::empty() =~= before);
        while k < params.len()
            invariant
                k <= params.len(),
                before == old(self)@.current_method_args,
                texts(self.current_method_args@) == before + names_of_params(params@).take(
                    k as int,
                ),
                self@ == (Pieces {
                    current_method_args: texts(self.current_method_args@),
                    current_method: Some(name@),
                    ..old(self)@
                }),
            decreases params.len() - k,
        {
            let ghost now = texts(self.current_method_args@);
            self.current_method_args.push(params[k].name.clone());
            assert(texts(self.current_method_args@) =~= now.push(params@[k as int].name@));
            assert(names_of_params(params@).take(k + 1) =~= names_of_params(params@).take(
                k as int,
            ).push(params@[k as int].name@));
            assert(texts(self.current_method_args@) =~= before + names_of_params(params@).take(
                k + 1,
            ));
            k += 1;
        }
        assert(names_of_params(params@).take(k as int) =~= names_of_params(params@));
    }

    /// Forgets the method that was being translated.
    pub fn leave_method(&mut self)
        ensures
            final(self)@ == (Pieces {
                current_method: None,
                current_method_args: Seq::empty(),
                ..old(self)@
            }),
    {
        self.current_method = None;
        self.current_method_args = Vec::new();
        assert(texts(self.current_method_args@) =~= Seq::<Seq<char>>::empty());
    }

    /// Notes `target` as the name of a function, and appends the lines that
    /// pass a call on to an instance, where the function stands in no class.
    pub fn declare_function(&mut self, out: &mut String, target: &str)
        ensures
            final(self)@ == (Pieces {
                inside_expression: 0,
                class_functions_names: with_name(old(self)@.class_functions_names, target@),
                functions_names: if old(self)@.current_class is None {
                    with_name(old(self)@.functions_names, target@)
                } else {
                    old(self)@.functions_names
                },
                ..old(self)@
            }),
            final(out)@ == old(out)@ + (if old(self)@.current_class is None {
                instance_preamble(target@)
            } else {
                Seq::empty()
            }),
    {
        self.inside_expression = 0;
        insert_name(&mut self.class_functions_names, target);
        if self.current_class.is_none() {
            insert_name(&mut self.functions_names, target);
            out.append("if (args1.size() > 0 && args1[0].is_instance()) {\n");
            out.append("auto obj = args1[0].as_instance();\n");
            out.append("auto new_args = std::vector<Value> { args1.begin() + 1, args1.end() };\n");
            out.append("return obj->func_");
            out.append(target);
            out.append("(new_args);\n");
            out.append("}\n\n");
            assert(out@ =~= old(out)@ + instance_preamble(target@));
        } else {
            assert(out@ =~= old(out)@ + Seq::<char>::empty());
        }
    }

    /// The statements of a function's body, one level deeper.
    pub fn function_body(
        &mut self,
        body: &Vec<Node>,
        units: &Vec<Unit>,
        floats: &Vec<(u32, String)>,
        loading: &Vec<usize>,
    ) -> (r: Result<String, TranslateError>)
        ensures
            made(
                r,
                g_body(units@, float_views(floats@), loading@, old(self)@, body@),
                final(self)@,
            ),
        decreases fuel(units@, loading@), body@, body@.len() + 1,
    {
        proof {
            reveal_with_fuel(g_body, 1);
            reveal_with_fuel(g_statements, 1);
        }
        if body.len() > 0 {
            self.deepen()?;
            let inner = self.statements(body, 0, true, units, floats, loading)?;
            self.rise()?;
            Ok(inner)
        } else {
            Ok(String::new())
        }
    }

    /// A function.
    pub fn function(
        &mut self,
        node: &Node,
        units: &Vec<Unit>,
        floats: &Vec<(u32, String)>,
        loading: &Vec<usize>,
    ) -> (r: Result<String, TranslateError>)
        ensures
            made(
                r,
                g_function(units@, float_views(floats@), loading@, old(self)@, *node),
                final(self)@,
            ),
        decreases fuel(units@, loading@), *node, 1nat,
    {
        proof {
            reveal_with_fuel(g_function, 1);
            reveal_with_fuel(g_body, 1);
        }
        match node {
            Node::Function { name, params, body } => {
                if self.current_class.is_some() {
                    self.enter_method(name, params);
                }
                let target = self.convert_name(name.as_str());
                let mut out = self.head(name.as_str())?;
                let ghost head = out@;
                self.declare_function(&mut out, target.as_str());
                let ghost declared = out@;
                push_parameters(&mut out, floats, params)?;
                let ghost with_params = out@;
                let inner = self.function_body(body, units, floats, loading)?;
                out.append("Value ret1;\n");
                out.append(inner.as_str());
                out.append("return ret1;\n");
                if !name.as_str().is_empty() && self.depth == 0 {
                    out.append("}\n");
                } else {
                    out.append("}))\n");
                }
                self.leave_method();
                proof {
                    let rule = g_function(units@, float_views(floats@), loading@, old(self)@, *node);
                    assert(rule is Ok);
                    assert(out@ =~= rule.unwrap().text);
                }
                Ok(out)
            },
            _ => Err(TranslateError::UnsupportedNode),
        }
    }

    /// The last statement of a body.
    pub fn last(
        &mut self,
        node: &Node,
        plain: bool,
        units: &Vec<Unit>,
        floats: &Vec<(u32, String)>,
        loading: &Vec<usize>,
    ) -> (r: Result<String, TranslateError>)
        ensures
            made(
                r,
                g_last(units@, float_views(floats@), loading@, old(self)@, *node, plain),
                final(self)@,
            ),
        decreases fuel(units@, loading@), *node, 3nat,
    {
        proof {
            reveal_with_fuel(g_last, 1);
            reveal_with_fuel(g_node, 1);
        }
        match node {
            Node::Call { name, args } => {
                let text = self.generate_node(node, units, floats, loading)?;
                if !str_eq(name.as_str(), "let") {
                    let mut out = String::from_str("ret1 = ");
                    out.append(text.as_str());
                    out.append(";\n");
                    Ok(out)
                } else {
                    if args.len() < 2 {
                        return Err(TranslateError::Malformed);
                    }
                    let mut out = text;
                    out.append(";\nret1 = ");
                    push_value(&mut out, floats, &args[1])?;
                    out.append(";\n");
                    Ok(out)
                }
            },
            _ => {
                if plain {
                    let text = self.generate_node(node, units, floats, loading)?;
                    let mut out = String::from_str("ret1 = ");
                    out.append(text.as_str());
                    out.append(";\n");
                    Ok(out)
                } else {
                    Ok(String::new())
                }
            },
        }
    }

    /// The statements of a body from index `from` on.
    pub fn statements(
        &mut self,
        nodes: &Vec<Node>,
        from: usize,
        plain: bool,
        units: &Vec<Unit>,
        floats: &Vec<(u32, String)>,
        loading: &Vec<usize>,
    ) -> (r: Result<String, TranslateError>)
        ensures
            made(
                r,
                g_statements(units@, float_views(floats@), loading@, old(self)@, nodes@, from as nat, plain),
                final(self)@,
            ),
        decreases fuel(units@, loading@), nodes@, nodes@.len() - from,
    {
        let ghost fl = float_views(floats@);
        let ghost whole = g_statements(units@, fl, loading@, self@, nodes@, from as nat, plain);
        let mut out = String::new();
        let mut i: usize = from;
        proof {
            reveal_with_fuel(g_statements, 1);
        }
        while i < nodes.len()
            invariant
                from <= i,
                fl == float_views(floats@),
                whole == g_statements(units@, fl, loading@, old(self)@, nodes@, from as nat, plain),
                whole == (match g_statements(units@, fl, loading@, self@, nodes@, i as nat, plain) {
                    Ok(b) => Ok::<Made, TranslateError>(Made { st: b.st, text: out@ + b.text }),
                    Err(e) => Err::<Made, TranslateError>(e),
                }),
            decreases nodes.len() - i,
        {
            proof {
                reveal_with_fuel(g_statements, 1);
                reveal_with_fuel(g_last, 1);
                reveal_with_fuel(g_node, 1);
            }
            let ghost done = out@;
            let ghost first: Seq<char>;
            if i + 1 == nodes.len() {
                let text = match self.last(&nodes[i], plain, units, floats, loading) {
                    Ok(t) => t,
                    Err(e) => {
                        return Err(e);
                    },
                };
                proof {
                    first = text@;
                }
                out.append(text.as_str());
            } else {
                let text = match self.generate_node(&nodes[i], units, floats, loading) {
                    Ok(t) => t,
                    Err(e) => {
                        return Err(e);
                    },
                };
                proof {
                    first = text@ + ";\n"@;
                }
                out.append(text.as_str());
                out.append(";\n");
            }
            proof {
                assert(out@ =~= done + first);
                if let Ok(b) = g_statements(units@, fl, loading@, self@, nodes@, (i + 1) as nat, plain) {
                    assert(done + (first + b.text) =~= (done + first) + b.text);
                }
            }
            i += 1;
        }
        assert(out@ + Seq::<char>::empty() =~= out@);
        Ok(out)
    }

    /// The nodes from index `from` on, as [`g_each`] says.
    pub fn each(
        &mut self,
        nodes: &Vec<Node>,
        from: usize,
        first: usize,
        between: &str,
        open: &str,
        close: &str,
        units: &Vec<Unit>,
        floats: &Vec<(u32, String)>,
        loading: &Vec<usize>,
    ) -> (r: Result<String, TranslateError>)
        ensures
            made(
                r,
                g_each(
                    units@,
                    float_views(floats@),
                    loading@,
                    old(self)@,
                    nodes@,
                    from as nat,
                    first as nat,
                    between@,
                    open@,
                    close@,
                ),
                final(self)@,
            ),
        decreases fuel(units@, loading@), nodes@, nodes@.len() - from,
    {
        let ghost fl = float_views(floats@);
        let ghost whole = g_each(
            units@,
            fl,
            loading@,
            self@,
            nodes@,
            from as nat,
            first as nat,
            between@,
            open@,
            close@,
        );
        let mut out = String::new();
        let mut i: usize = from;
        proof {
            reveal_with_fuel(g_each, 1);
        }
        while i < nodes.len()
            invariant
                from <= i,
                fl == float_views(floats@),
                whole == g_each(
                    units@,
                    fl,
                    loading@,
                    old(self)@,
                    nodes@,
                    from as nat,
                    first as nat,
                    between@,
                    open@,
                    close@,
                ),
                whole == (match g_each(
                    units@,
                    fl,
                    loading@,
                    self@,
                    nodes@,
                    i as nat,
                    first as nat,
                    between@,
                    open@,
                    close@,
                ) {
                    Ok(b) => Ok::<Made, TranslateError>(Made { st: b.st, text: out@ + b.text }),
                    Err(e) => Err::<Made, TranslateError>(e),
                }),
            decreases nodes.len() - i,
        {
            proof {
                reveal_with_fuel(g_each, 1);
                reveal_with_fuel(g_node, 1);
            }
            let ghost done = out@;
            let text = match self.generate_node(&nodes[i], units, floats, loading) {
                Ok(t) => t,
                Err(e) => {
                    return Err(e);
                },
            };
            if i != first {
                out.append(between);
            }
            out.append(open);
            out.append(text.as_str());
            out.append(close);
            proof {
                let piece = (if i == first {
                    Seq::<char>::empty()
                } else {
                    between@
                }) + open@ + text@ + close@;
                assert(out@ =~= done + piece);
                if let Ok(b) = g_each(
                    units@,
                    fl,
                    loading@,
                    self@,
                    nodes@,
                    (i + 1) as nat,
                    first as nat,
                    between@,
                    open@,
                    close@,
                ) {
                    assert(done + (piece + b.text) =~= (done + piece) + b.text);
                }
            }
            i += 1;
        }
        assert(out@ + Seq::<char>::empty() =~= out@);
        Ok(out)
    }

    /// A call form.
    pub fn call(
        &mut self,
        name: &str,
        args: &Vec<Node>,
        units: &Vec<Unit>,
        floats: &Vec<(u32, String)>,
        loading: &Vec<usize>,
    ) -> (r: Result<String, TranslateError>)
        ensures
            made(
                r,
                g_call(units@, float_views(floats@), loading@, old(self)@, name@, args@),
                final(self)@,
            ),
        decreases fuel(units@, loading@), args@, args@.len() + 3,
    {
        proof {
            reveal_with_fuel(g_call, 1);
            reveal_with_fuel(g_let, 1);
            reveal_with_fuel(g_set, 1);
            reveal_with_fuel(g_while, 1);
            reveal_with_fuel(g_operator, 1);
            reveal_with_fuel(g_if, 1);
            reveal_with_fuel(g_return, 1);
            reveal_with_fuel(g_list, 1);
            reveal_with_fuel(g_block, 1);
            reveal_with_fuel(g_dump, 1);
            reveal_with_fuel(g_apply, 1);
            reveal_with_fuel(g_switch, 1);
            reveal_with_fuel(g_load, 1);
            reveal_with_fuel(g_class, 1);
            reveal_with_fuel(g_new, 1);
            reveal_with_fuel(g_binary, 1);
            reveal_with_fuel(g_invoke, 1);
        }
        if str_eq(name, "let") {
            self.form_let(args, units, floats, loading)
        } else if str_eq(name, "set") {
            self.form_set(args, units, floats, loading)
        } else if str_eq(name, "while") {
            self.form_while(args, units, floats, loading)
        } else if str_eq(name, "=") {
            self.operator(args, "==", units, floats, loading)
        } else if str_eq(name, "<") || str_eq(name, ">") || str_eq(name, "+") || str_eq(name, "<=")
            || str_eq(name, ">=") || str_eq(name, "*") || str_eq(name, "-") || str_eq(name, "/") {
            self.operator(args, name, units, floats, loading)
        } else if str_eq(name, "if") {
            self.form_if(args, units, floats, loading)
        } else if str_eq(name, "return") {
            self.form_return(args, units, floats, loading)
        } else if str_eq(name, "list") {
            self.form_list(args, units, floats, loading)
        } else if str_eq(name, "block") {
            self.form_block(args, units, floats, loading)
        } else if str_eq(name, "dump") {
            self.form_dump(args, units, floats, loading)
        } else if str_eq(name, "call") {
            self.form_apply(args, units, floats, loading)
        } else if str_eq(name, "switch") {
            self.form_switch(args, units, floats, loading)
        } else if str_eq(name, "load") {
            self.form_load(args, units, floats, loading)
        } else if str_eq(name, "class") {
            self.form_class(args, units, floats, loading)
        } else if str_eq(name, "new") {
            self.form_new(args, units, floats, loading)
        } else if str_eq(name, "lt") {
            self.binary(args, " < ", units, floats, loading)
        } else if str_eq(name, "eq") {
            self.binary(args, " == ", units, floats, loading)
        } else if str_eq(name, "add") {
            self.binary(args, " + ", units, floats, loading)
        } else if str_eq(name, "sub") {
            self.binary(args, " - ", units, floats, loading)
        } else {
            self.invoke(name, args, units, floats, loading)
        }
    }

    /// `let name expr`.
    pub fn form_let(
        &mut self,
        args: &Vec<Node>,
        units: &Vec<Unit>,
        floats: &Vec<(u32, String)>,
        loading: &Vec<usize>,
    ) -> (r: Result<String, TranslateError>)
        ensures
            made(
                r,
                g_let(units@, float_views(floats@), loading@, old(self)@, args@),
                final(self)@,
            ),
        decreases fuel(units@, loading@), args@, args@.len() + 2,
    {
        proof {
            reveal_with_fuel(g_let, 1);
            reveal_with_fuel(g_node, 1);
        }
        if args.len() < 2 {
            return Err(TranslateError::Malformed);
        }
        match &args[0] {
            Node::Identifier(name) => {
                self.deepen()?;
                self.inside_expression = 1;
                let target = self.convert_name(name.as_str());
                let value = self.generate_node(&args[1], units, floats, loading)?;
                self.inside_expression = 0;
                self.rise()?;
                let mut out = String::from_str("Value ");
                out.append(target.as_str());
                out.append(" = ");
                out.append(value.as_str());
                if self.current_class.is_some() {
                    out.append(";\n");
                }
                proof {
                    let rule = g_let(units@, float_views(floats@), loading@, old(self)@, args@);
                    assert(rule is Ok);
                    assert(out@ =~= rule.unwrap().text);
                }
                Ok(out)
            },
            _ => Err(TranslateError::Malformed),
        }
    }

    /// `set name expr`.
    pub fn form_set(
        &mut self,
        args: &Vec<Node>,
        units: &Vec<Unit>,
        floats: &Vec<(u32, String)>,
        loading: &Vec<usize>,
    ) -> (r: Result<String, TranslateError>)
        ensures
            made(
                r,
                g_set(units@, float_views(floats@), loading@, old(self)@, args@),
                final(self)@,
            ),
        decreases fuel(units@, loading@), args@, args@.len() + 2,
    {
        proof {
            reveal_with_fuel(g_set, 1);
            reveal_with_fuel(g_node, 1);
        }
        if args.len() < 2 {
            return Err(TranslateError::Malformed);
        }
        match &args[0] {
            Node::Identifier(name) => {
                let target = self.convert_name(name.as_str());
                let value = self.generate_node(&args[1], units, floats, loading)?;
                let mut out = target;
                out.append(" = ");
                out.append(value.as_str());
                Ok(out)
            },
            _ => Err(TranslateError::Malformed),
        }
    }

    /// `while cond body...`.
    pub fn form_while(
        &mut self,
        args: &Vec<Node>,
        units: &Vec<Unit>,
        floats: &Vec<(u32, String)>,
        loading: &Vec<usize>,
    ) -> (r: Result<String, TranslateError>)
        ensures
            made(
                r,
                g_while(units@, float_views(floats@), loading@, old(self)@, args@),
                final(self)@,
            ),
        decreases fuel(units@, loading@), args@, args@.len() + 2,
    {
        proof {
            reveal_with_fuel(g_while, 1);
            reveal_with_fuel(g_node, 1);
            reveal_with_fuel(g_statements, 1);
        }
        if args.len() < 1 {
            return Err(TranslateError::Malformed);
        }
        let cond = self.generate_node(&args[0], units, floats, loading)?;
        let body = self.statements(args, 1, false, units, floats, loading)?;
        let mut out = String::from_str("[=]() mutable {\nValue ret1;\nwhile (");
        out.append(cond.as_str());
        out.append(") {\n");
        out.append(body.as_str());
        out.append("}\nreturn ret1;\n}()");
        Ok(out)
    }

    /// An operator form.
    pub fn operator(
        &mut self,
        args: &Vec<Node>,
        op: &str,
        units: &Vec<Unit>,
        floats: &Vec<(u32, String)>,
        loading: &Vec<usize>,
    ) -> (r: Result<String, TranslateError>)
        ensures
            made(
                r,
                g_operator(units@, float_views(floats@), loading@, old(self)@, args@, op@),
                final(self)@,
            ),
        decreases fuel(units@, loading@), args@, args@.len() + 2,
    {
        proof {
            reveal_with_fuel(g_operator, 1);
            reveal_with_fuel(g_node, 1);
            reveal_with_fuel(g_each, 1);
            reveal_strlit("");
            assert(""@ =~= Seq::<char>::empty());
        }
        if args.len() < 1 {
            return Err(TranslateError::Malformed);
        }
        let first = self.generate_node(&args[0], units, floats, loading)?;
        let mut between = String::from_str(" ");
        between.append(op);
        between.append(" ");
        let rest = self.each(args, 1, args.len(), between.as_str(), "", "", units, floats, loading)?;
        let mut out = String::from_str("(");
        out.append(first.as_str());
        out.append(rest.as_str());
        out.append(")");
        proof {
            reveal_strlit("");
            assert(""@ =~= Seq::<char>::empty());
        }
        Ok(out)
    }

    /// Appends an arm of an `if`.
    pub fn push_arm(out: &mut String, node: &Node, text: &str)
        ensures
            final(out)@ == old(out)@ + arm_text(*node, text@),
    {
        let leaves = match node {
            Node::Call { name, args } => str_eq(name.as_str(), "return"),
            _ => false,
        };
        if leaves {
            out.append(text);
        } else {
            out.append("return ");
            out.append(text);
            out.append(";\n");
            assert(out@ =~= old(out)@ + ("return "@ + text@ + ";\n"@));
        }
    }

    /// `if cond then else`.
    pub fn form_if(
        &mut self,
        args: &Vec<Node>,
        units: &Vec<Unit>,
        floats: &Vec<(u32, String)>,
        loading: &Vec<usize>,
    ) -> (r: Result<String, TranslateError>)
        ensures
            made(
                r,
                g_if(units@, float_views(floats@), loading@, old(self)@, args@),
                final(self)@,
            ),
        decreases fuel(units@, loading@), args@, args@.len() + 2,
    {
        proof {
            reveal_with_fuel(g_if, 1);
            reveal_with_fuel(g_node, 1);
        }
        if args.len() < 3 {
            return Err(TranslateError::Malformed);
        }
        let cond = self.generate_node(&args[0], units, floats, loading)?;
        let first = self.generate_node(&args[1], units, floats, loading)?;
        let second = self.generate_node(&args[2], units, floats, loading)?;
        let mut out = String::new();
        self.push_capture(&mut out);
        out.append("if (");
        out.append(cond.as_str());
        out.append(") {\n");
        Self::push_arm(&mut out, &args[1], first.as_str());
        out.append("} else {\n");
        Self::push_arm(&mut out, &args[2], second.as_str());
        out.append("}\n");
        out.append("}()");
        proof {
            let rule = g_if(units@, float_views(floats@), loading@, old(self)@, args@);
            assert(rule is Ok);
            assert(out@ =~= rule.unwrap().text);
        }
        Ok(out)
    }

    /// `return expr`.
    pub fn form_return(
        &mut self,
        args: &Vec<Node>,
        units: &Vec<Unit>,
        floats: &Vec<(u32, String)>,
        loading: &Vec<usize>,
    ) -> (r: Result<String, TranslateError>)
        ensures
            made(
                r,
                g_return(units@, float_views(floats@), loading@, old(self)@, args@),
                final(self)@,
            ),
        decreases fuel(units@, loading@), args@, args@.len() + 2,
    {
        proof {
            reveal_with_fuel(g_return, 1);
            reveal_with_fuel(g_node, 1);
        }
        if args.len() < 1 {
            return Err(TranslateError::Malformed);
        }
        let value = self.generate_node(&args[0], units, floats, loading)?;
        let mut out = String::from_str("return ");
        out.append(value.as_str());
        Ok(out)
    }

    /// `list a b ...`.
    pub fn form_list(
        &mut self,
        args: &Vec<Node>,
        units: &Vec<Unit>,
        floats: &Vec<(u32, String)>,
        loading: &Vec<usize>,
    ) -> (r: Result<String, TranslateError>)
        ensures
            made(
                r,
                g_list(units@, float_views(floats@), loading@, old(self)@, args@),
                final(self)@,
            ),
        decreases fuel(units@, loading@), args@, args@.len() + 2,
    {
        proof {
            reveal_with_fuel(g_list, 1);
            reveal_with_fuel(g_each, 1);
            reveal_strlit("");
            assert(""@ =~= Seq::<char>::empty());
        }
        let mut out = String::new();
        self.push_capture(&mut out);
        out.append("std::vector<Value> ret1;\n");
        let items = self.each(args, 0, 0, "", "ret1.emplace_back(", ");\n", units, floats, loading)?;
        out.append(items.as_str());
        out.append("return ret1;\n");
        out.append("}()");
        proof {
            let rule = g_list(units@, float_views(floats@), loading@, old(self)@, args@);
            assert(rule is Ok);
            assert(out@ =~= rule.unwrap().text);
        }
        Ok(out)
    }

    /// `block a b ...`.
    pub fn form_block(
        &mut self,
        args: &Vec<Node>,
        units: &Vec<Unit>,
        floats: &Vec<(u32, String)>,
        loading: &Vec<usize>,
    ) -> (r: Result<String, TranslateError>)
        ensures
            made(
                r,
                g_block(units@, float_views(floats@), loading@, old(self)@, args@),
                final(self)@,
            ),
        decreases fuel(units@, loading@), args@, args@.len() + 2,
    {
        proof {
            reveal_with_fuel(g_block, 1);
            reveal_with_fuel(g_statements, 1);
        }
        let mut out = String::new();
        self.push_capture(&mut out);
        out.append("Value ret1;\n");
        let body = self.statements(args, 0, false, units, floats, loading)?;
        out.append(body.as_str());
        out.append("return ret1;\n");
        out.append("}()");
        proof {
            let rule = g_block(units@, float_views(floats@), loading@, old(self)@, args@);
            assert(rule is Ok);
            assert(out@ =~= rule.unwrap().text);
        }
        Ok(out)
    }

    /// The temporaries and outputs of `dump` for the arguments from `i` on.
    pub fn dumped(
        &mut self,
        args: &Vec<Node>,
        i: usize,
        units: &Vec<Unit>,
        floats: &Vec<(u32, String)>,
        loading: &Vec<usize>,
    ) -> (r: Result<(String, String), TranslateError>)
        ensures
            match r {
                Ok((declared, printed)) => g_dumped(
                    units@,
                    float_views(floats@),
                    loading@,
                    old(self)@,
                    args@,
                    i as nat,
                ) == Ok::<Dumped, TranslateError>(
                    Dumped { st: final(self)@, declared: declared@, printed: printed@ },
                ),
                Err(e) => g_dumped(
                    units@,
                    float_views(floats@),
                    loading@,
                    old(self)@,
                    args@,
                    i as nat,
                ) == Err::<Dumped, TranslateError>(e),
            },
        decreases fuel(units@, loading@), args@, args@.len() - i,
    {
        proof {
            reveal_with_fuel(g_dumped, 1);
            reveal_with_fuel(g_node, 1);
        }
        if i >= args.len() {
            return Ok((String::new(), String::new()));
        }
        let text = match &args[i] {
            Node::Identifier(id) => self.convert_name(id.as_str()),
            _ => self.generate_node(&args[i], units, floats, loading)?,
        };
        let (rest_declared, rest_printed) = self.dumped(args, i + 1, units, floats, loading)?;
        let mut declared = String::from_str("Value arg_tmp_");
        push_decimal_usize(&mut declared, i);
        declared.append(" = ");
        declared.append(text.as_str());
        declared.append(";\n");
        declared.append(rest_declared.as_str());
        let mut printed = String::from_str(" << Value(arg_tmp_");
        push_decimal_usize(&mut printed, i);
        printed.append(").get_type() << \": \" << arg_tmp_");
        push_decimal_usize(&mut printed, i);
        printed.append(rest_printed.as_str());
        proof {
            let rule = g_dumped(units@, float_views(floats@), loading@, old(self)@, args@, i as nat);
            assert(rule is Ok);
            assert(declared@ =~= rule.unwrap().declared);
            assert(printed@ =~= rule.unwrap().printed);
        }
        Ok((declared, printed))
    }

    /// `dump a b ...`.
    pub fn form_dump(
        &mut self,
        args: &Vec<Node>,
        units: &Vec<Unit>,
        floats: &Vec<(u32, String)>,
        loading: &Vec<usize>,
    ) -> (r: Result<String, TranslateError>)
        ensures
            made(
                r,
                g_dump(units@, float_views(floats@), loading@, old(self)@, args@),
                final(self)@,
            ),
        decreases fuel(units@, loading@), args@, args@.len() + 2,
    {
        proof {
            reveal_with_fuel(g_dump, 1);
            reveal_with_fuel(g_dumped, 1);
        }
        let mut out = String::new();
        self.push_capture(&mut out);
        let (declared, printed) = self.dumped(args, 0, units, floats, loading)?;
        out.append(declared.as_str());
        out.append("std::cout");
        out.append(printed.as_str());
        out.append(" << \"\\n\";\n");
        out.append("return Value();\n");
        out.append("}()");
        proof {
            let rule = g_dump(units@, float_views(floats@), loading@, old(self)@, args@);
            assert(rule is Ok);
            assert(out@ =~= rule.unwrap().text);
        }
        Ok(out)
    }

    /// `call f a b ...`.
    pub fn form_apply(
        &mut self,
        args: &Vec<Node>,
        units: &Vec<Unit>,
        floats: &Vec<(u32, String)>,
        loading: &Vec<usize>,
    ) -> (r: Result<String, TranslateError>)
        ensures
            made(
                r,
                g_apply(units@, float_views(floats@), loading@, old(self)@, args@),
                final(self)@,
            ),
        decreases fuel(units@, loading@), args@, args@.len() + 2,
    {
        proof {
            reveal_with_fuel(g_apply, 1);
            reveal_with_fuel(g_node, 1);
            reveal_with_fuel(g_each, 1);
            reveal_strlit("");
            assert(""@ =~= Seq::<char>::empty());
        }
        if args.len() < 1 {
            return Err(TranslateError::Malformed);
        }
        let callee = self.generate_node(&args[0], units, floats, loading)?;
        let given = self.each(args, 1, 1, ", ", "", "", units, floats, loading)?;
        let mut out = callee;
        out.append("(");
        out.append(given.as_str());
        out.append(")");
        Ok(out)
    }

    /// `switch subject value result ... default`.
    pub fn form_switch(
        &mut self,
        args: &Vec<Node>,
        units: &Vec<Unit>,
        floats: &Vec<(u32, String)>,
        loading: &Vec<usize>,
    ) -> (r: Result<String, TranslateError>)
        ensures
            made(
                r,
                g_switch(units@, float_views(floats@), loading@, old(self)@, args@),
                final(self)@,
            ),
        decreases fuel(units@, loading@), args@, args@.len() + 2,
    {
        proof {
            reveal_with_fuel(g_switch, 1);
            reveal_with_fuel(g_node, 1);
        }
        if args.len() < 1 {
            return Err(TranslateError::Malformed);
        }
        let mut out = String::new();
        self.push_capture(&mut out);
        let subject = self.generate_node(&args[0], units, floats, loading)?;
        out.append("Value test1 = ");
        out.append(subject.as_str());
        out.append(";\n");
        push_cases(&mut out, floats, args, 1)?;
        out.append("return ");
        push_value(&mut out, floats, &args[args.len() - 1])?;
        out.append(";\n");
        out.append("}()");
        proof {
            let rule = g_switch(units@, float_views(floats@), loading@, old(self)@, args@);
            assert(rule is Ok);
            assert(out@ =~= rule.unwrap().text);
        }
        Ok(out)
    }

    /// `load "name"`.
    pub fn form_load(
        &mut self,
        args: &Vec<Node>,
        units: &Vec<Unit>,
        floats: &Vec<(u32, String)>,
        loading: &Vec<usize>,
    ) -> (r: Result<String, TranslateError>)
        ensures
            made(
                r,
                g_load(units@, float_views(floats@), loading@, old(self)@, args@),
                final(self)@,
            ),
        decreases fuel(units@, loading@), args@, args@.len() + 2,
    {
        proof {
            reveal_with_fuel(g_load, 1);
            reveal_with_fuel(g_file, 1);
        }
        if args.len() < 1 {
            return Err(TranslateError::Malformed);
        }
        match &args[0] {
            Node::String(name) => match find_unit(units, name.as_str()) {
                None => Err(TranslateError::MissingModule),
                Some(k) => {
                    if holds_index(loading, k) || loading.len() >= units.len() {
                        return Err(TranslateError::CircularLoad);
                    }
                    let inner = with_index(loading, k);
                    let ghost before = self@.main;
                    self.main.push(String::new());
                    assert(self@.main =~= before.push(Seq::<char>::empty()));
                    self.generate_file(&units[k].nodes, 0, units, floats, &inner)?;
                    let ghost after = self@.main;
                    match self.main.pop() {
                        None => Err(TranslateError::NoOpenFile),
                        Some(statements) => {
                            assert(self@.main =~= after.drop_last());
                            let mut out = String::new();
                            self.push_capture(&mut out);
                            out.append(statements.as_str());
                            out.append("}()");
                            proof {
                                let rule = g_load(
                                    units@,
                                    float_views(floats@),
                                    loading@,
                                    old(self)@,
                                    args@,
                                );
                                assert(rule is Ok);
                                assert(out@ =~= rule.unwrap().text);
                            }
                            Ok(out)
                        },
                    }
                },
            },
            _ => Err(TranslateError::Malformed),
        }
    }

    /// The members of a class from index `from` on.
    pub fn members(
        &mut self,
        args: &Vec<Node>,
        from: usize,
        units: &Vec<Unit>,
        floats: &Vec<(u32, String)>,
        loading: &Vec<usize>,
    ) -> (r: Result<String, TranslateError>)
        ensures
            made(
                r,
                g_members(units@, float_views(floats@), loading@, old(self)@, args@, from as nat),
                final(self)@,
            ),
        decreases fuel(units@, loading@), args@, args@.len() - from,
    {
        proof {
            reveal_with_fuel(g_members, 1);
            reveal_with_fuel(g_node, 1);
        }
        if from >= args.len() {
            return Ok(String::new());
        }
        let first = self.generate_node(&args[from], units, floats, loading)?;
        let rest = self.members(args, from + 1, units, floats, loading)?;
        let mut out = first;
        out.append("\n");
        out.append(rest.as_str());
        Ok(out)
    }

    /// `class Name [Parent] members...`.
    pub fn form_class(
        &mut self,
        args: &Vec<Node>,
        units: &Vec<Unit>,
        floats: &Vec<(u32, String)>,
        loading: &Vec<usize>,
    ) -> (r: Result<String, TranslateError>)
        ensures
            made(
                r,
                g_class(units@, float_views(floats@), loading@, old(self)@, args@),
                final(self)@,
            ),
        decreases fuel(units@, loading@), args@, args@.len() + 2,
    {
        proof {
            reveal_with_fuel(g_class, 1);
            reveal_with_fuel(g_members, 1);
        }
        if args.len() < 2 {
            return Err(TranslateError::Malformed);
        }
        match &args[0] {
            Node::Identifier(name) => {
                let (parent, from): (String, usize) = match &args[1] {
                    Node::Identifier(p) => (p.clone(), 2),
                    _ => (String::from_str("SimpleListObject"), 1),
                };
                let ghost before = pairs(self.classes@);
                match find_key(&self.classes, name.as_str()) {
                    Some(i) => {
                        self.classes.set(i, (name.clone(), parent.clone()));
                        assert(pairs(self.classes@) =~= before.update(i as int, (name@, parent@)));
                    },
                    None => {
                        self.classes.push((name.clone(), parent.clone()));
                        assert(pairs(self.classes@) =~= before.push((name@, parent@)));
                    },
                }
                self.current_class = Some(name.clone());
                let body = self.members(args, from, units, floats, loading)?;
                let mut header = String::from_str("class ");
                header.append(name.as_str());
                header.append(" : public ");
                header.append(parent.as_str());
                header.append(" {\n");
                header.append("public:\n");
                header.append("   virtual const char* name() const override { return \"");
                header.append(name.as_str());
                header.append("\"; };\n");
                header.append(body.as_str());
                header.append("};\n\n");
                self.current_class = None;
                let ghost headers = texts(self.headers@);
                let ghost text = header@;
                self.headers.push(header);
                assert(texts(self.headers@) =~= headers.push(text));
                proof {
                    let rule = g_class(units@, float_views(floats@), loading@, old(self)@, args@);
                    assert(rule is Ok);
                    assert(self@.headers =~= rule.unwrap().st.headers);
                }
                Ok(String::new())
            },
            _ => Err(TranslateError::Malformed),
        }
    }

    /// `new Class args...`.
    pub fn form_new(
        &mut self,
        args: &Vec<Node>,
        units: &Vec<Unit>,
        floats: &Vec<(u32, String)>,
        loading: &Vec<usize>,
    ) -> (r: Result<String, TranslateError>)
        ensures
            made(
                r,
                g_new(units@, float_views(floats@), loading@, old(self)@, args@),
                final(self)@,
            ),
        decreases fuel(units@, loading@), args@, args@.len() + 2,
    {
        proof {
            reveal_with_fuel(g_new, 1);
            reveal_with_fuel(g_each, 1);
            reveal_strlit("");
            assert(""@ =~= Seq::<char>::empty());
        }
        if args.len() < 1 {
            return Err(TranslateError::Malformed);
        }
        match &args[0] {
            Node::Identifier(class) => {
                let given = self.each(args, 1, 1, ", ", "", "", units, floats, loading)?;
                let mut out = String::from_str("Value(new ");
                out.append(class.as_str());
                out.append("(");
                out.append(given.as_str());
                out.append("))");
                Ok(out)
            },
            _ => Err(TranslateError::Malformed),
        }
    }

    /// A named binary form.
    pub fn binary(
        &mut self,
        args: &Vec<Node>,
        op: &str,
        units: &Vec<Unit>,
        floats: &Vec<(u32, String)>,
        loading: &Vec<usize>,
    ) -> (r: Result<String, TranslateError>)
        ensures
            made(
                r,
                g_binary(units@, float_views(floats@), loading@, old(self)@, args@, op@),
                final(self)@,
            ),
        decreases fuel(units@, loading@), args@, args@.len() + 2,
    {
        proof {
            reveal_with_fuel(g_binary, 1);
            reveal_with_fuel(g_node, 1);
        }
        if args.len() < 2 {
            return Err(TranslateError::Malformed);
        }
        let left = self.generate_node(&args[0], units, floats, loading)?;
        let right = self.generate_node(&args[1], units, floats, loading)?;
        let mut out = left;
        out.append(op);
        out.append(right.as_str());
        Ok(out)
    }

    /// What is called.
    pub fn callee(&mut self, name: &str) -> (r: Result<String, TranslateError>)
        ensures
            match r {
                Ok(text) => callee_text(old(self)@, name@) == Ok::<
                    (Pieces, Seq<char>),
                    TranslateError,
                >((final(self)@, text@)),
                Err(e) => callee_text(old(self)@, name@) == Err::<
                    (Pieces, Seq<char>),
                    TranslateError,
                >(e),
            },
    {
        if str_eq(name, "super") {
            let method = match &self.current_method {
                Some(m) => m.clone(),
                None => {
                    return Err(TranslateError::UnresolvedSuper);
                },
            };
            let class = match &self.current_class {
                Some(c) => c.clone(),
                None => {
                    return Err(TranslateError::UnresolvedSuper);
                },
            };
            let target = self.convert_name(method.as_str());
            match find_key(&self.classes, class.as_str()) {
                None => Err(TranslateError::UnresolvedSuper),
                Some(i) => {
                    assert(pairs(self.classes@)[i as int].1 == self.classes@[i as int].1@);
                    let mut out = self.classes[i].1.clone();
                    out.append("::func_");
                    out.append(target.as_str());
                    Ok(out)
                },
            }
        } else {
            let target = self.convert_name(name);
            if find_str(&self.functions_names, target.as_str()).is_some() || find_str(
                &self.class_functions_names,
                target.as_str(),
            ).is_some() {
                let mut out = String::new();
                if self.current_class.is_some() {
                    out.append("::");
                }
                out.append("func_");
                out.append(target.as_str());
                assert(out@ =~= callee_text(old(self)@, name@).unwrap().1);
                Ok(out)
            } else {
                let mut out = target;
                out.append(".as_func()");
                Ok(out)
            }
        }
    }

    /// A call that is no special form.
    pub fn invoke(
        &mut self,
        name: &str,
        args: &Vec<Node>,
        units: &Vec<Unit>,
        floats: &Vec<(u32, String)>,
        loading: &Vec<usize>,
    ) -> (r: Result<String, TranslateError>)
        ensures
            made(
                r,
                g_invoke(units@, float_views(floats@), loading@, old(self)@, name@, args@),
                final(self)@,
            ),
        decreases fuel(units@, loading@), args@, args@.len() + 2,
    {
        proof {
            reveal_with_fuel(g_invoke, 1);
            reveal_with_fuel(g_each, 1);
        }
        let mut out = self.callee(name)?;
        let ghost callee = out@;
        let given = self.each(args, 0, 0, ", ", "Value(", ")", units, floats, loading)?;
        out.append("({");
        out.append(given.as_str());
        push_forwarded(&mut out, &self.current_method_args, args.len(), args.len() == 0);
        out.append("})");
        proof {
            let rule = g_invoke(units@, float_views(floats@), loading@, old(self)@, name@, args@);
            assert(rule is Ok);
            assert(out@ =~= rule.unwrap().text);
        }
        Ok(out)
    }

    /// A `let` at the top level of a file.
    pub fn top_let(
        &mut self,
        args: &Vec<Node>,
        units: &Vec<Unit>,
        floats: &Vec<(u32, String)>,
        loading: &Vec<usize>,
    ) -> (r: Result<(), TranslateError>)
        ensures
            match r {
                Ok(_) => g_top_let(units@, float_views(floats@), loading@, old(self)@, args@)
                    == Ok::<Pieces, TranslateError>(final(self)@),
                Err(e) => g_top_let(units@, float_views(floats@), loading@, old(self)@, args@)
                    == Err::<Pieces, TranslateError>(e),
            },
        decreases fuel(units@, loading@), args@, args@.len() + 2,
    {
        proof {
            reveal_with_fuel(g_top_let, 1);
            reveal_with_fuel(g_node, 1);
        }
        if args.len() < 2 {
            return Err(TranslateError::Malformed);
        }
        match &args[0] {
            Node::Identifier(name) => {
                let target = self.convert_name(name.as_str());
                let mut declaration = String::from_str("Value ");
                declaration.append(target.as_str());
                declaration.append(";\n");
                let ghost headers = texts(self.headers@);
                let ghost declared = declaration@;
                self.headers.push(declaration);
                assert(texts(self.headers@) =~= headers.push(declared));
                self.deepen()?;
                self.inside_expression = 1;
                let value = self.generate_node(&args[1], units, floats, loading)?;
                self.inside_expression = 0;
                self.rise()?;
                let mut statement = target;
                statement.append(" = ");
                statement.append(value.as_str());
                statement.append(";\n");
                self.state(statement.as_str())
            },
            _ => Err(TranslateError::Malformed),
        }
    }

    /// The top-level nodes of a file from index `from` on.
    pub fn generate_file(
        &mut self,
        nodes: &Vec<Node>,
        from: usize,
        units: &Vec<Unit>,
        floats: &Vec<(u32, String)>,
        loading: &Vec<usize>,
    ) -> (r: Result<(), TranslateError>)
        ensures
            match r {
                Ok(_) => g_file(units@, float_views(floats@), loading@, old(self)@, nodes@, from as nat)
                    == Ok::<Made, TranslateError>(Made { st: final(self)@, text: Seq::empty() }),
                Err(e) => g_file(
                    units@,
                    float_views(floats@),
                    loading@,
                    old(self)@,
                    nodes@,
                    from as nat,
                ) == Err::<Made, TranslateError>(e),
            },
        decreases fuel(units@, loading@), nodes@, nodes@.len() - from,
    {
        proof {
            reveal_with_fuel(g_file, 1);
            reveal_with_fuel(g_node, 1);
            reveal_with_fuel(g_top_let, 1);
        }
        if from >= nodes.len() {
            return Ok(());
        }
        let text = self.generate_node(&nodes[from], units, floats, loading)?;
        match &nodes[from] {
            Node::Function { name, params, body } => {
                let target = self.convert_name(name.as_str());
                let ghost functions = texts(self.functions@);
                self.functions.push(text);
                assert(texts(self.functions@) =~= functions.push(text@));
                insert_name(&mut self.functions_names, target.as_str());
            },
            Node::Call { name, args } => {
                if str_eq(name.as_str(), "let") {
                    self.top_let(args, units, floats, loading)?;
                } else if !text.as_str().is_empty() {
                    let mut statement = text;
                    statement.append(";\n");
                    self.state(statement.as_str())?;
                }
            },
            _ => {
                let mut statement = text;
                statement.append(";\n");
                self.state(statement.as_str())?;
            },
        }
        self.generate_file(nodes, from + 1, units, floats, loading)
    }

    /// Translates the unit `root` of `units` and all that it loads, and
    /// assembles the text of the program. `floats` gives each float of the
    /// units its text.
    pub fn generate(&mut self, units: &Vec<Unit>, root: usize, floats: &Vec<(u32, String)>) -> (r:
        Result<String, TranslateError>)
        ensures
            made(
                r,
                g_program(units@, float_views(floats@), old(self)@, root as nat),
                final(self)@,
            ),
    {
        if root >= units.len() {
            return Err(TranslateError::MissingModule);
        }
        let mut loading: Vec<usize> = Vec::new();
        loading.push(root);
        assert(loading@ =~= seq![root]);
        self.generate_file(&units[root].nodes, 0, units, floats, &loading)?;
        if self.main.len() == 0 {
            return Err(TranslateError::NoOpenFile);
        }
        Ok(self.assemble())
    }
}

/// Appends to `out` the bit patterns of the floats in `node`.
pub fn collect_floats(node: &Node, out: &mut Vec<u32>)
    ensures
        final(out)@ == old(out)@ + floats_in(*node),
    decreases *node, 0nat,
{
    match node {
        Node::Float(bits) => {
            out.push(*bits);
            assert(out@ =~= old(out)@ + seq![*bits]);
        },
        Node::Call { name, args } => {
            collect_floats_nodes(args, 0, out);
        },
        Node::Function { name, params, body } => {
            collect_floats_params(params, 0, out);
            collect_floats_nodes(body, 0, out);
            assert(out@ =~= old(out)@ + (floats_in_params(params@, 0) + floats_in_nodes(body@, 0)));
        },
        _ => {
            assert(out@ =~= old(out)@ + Seq::<u32>::empty());
        },
    }
}

/// [`collect_floats`] for the nodes from index `from` on.
pub fn collect_floats_nodes(nodes: &Vec<Node>, from: usize, out: &mut Vec<u32>)
    ensures
        final(out)@ == old(out)@ + floats_in_nodes(nodes@, from as nat),
    decreases nodes@, nodes@.len() - from,
{
    if from >= nodes.len() {
        assert(out@ =~= old(out)@ + Seq::<u32>::empty());
        return ;
    }
    collect_floats(&nodes[from], out);
    collect_floats_nodes(nodes, from + 1, out);
    assert(out@ =~= old(out)@ + (floats_in(nodes@[from as int]) + floats_in_nodes(
        nodes@,
        (from + 1) as nat,
    )));
}

/// [`collect_floats`] for the default values of the parameters from index
/// `from` on.
pub fn collect_floats_params(params: &Vec<Param>, from: usize, out: &mut Vec<u32>)
    ensures
        final(out)@ == old(out)@ + floats_in_params(params@, from as nat),
    decreases params@, params@.len() - from,
{
    if from >= params.len() {
        assert(out@ =~= old(out)@ + Seq::<u32>::empty());
        return ;
    }
    let ghost first = match params@[from as int].default_value {
        Some(d) => floats_in(d),
        None => Seq::empty(),
    };
    match &params[from].default_value {
        Some(d) => {
            collect_floats(d, out);
        },
        None => {
            assert(out@ =~= old(out)@ + Seq::<u32>::empty());
        },
    }
    assert(out@ =~= old(out)@ + first);
    collect_floats_params(params, from + 1, out);
    assert(out@ =~= old(out)@ + (first + floats_in_params(params@, (from + 1) as nat)));
}

/// The bit patterns of the floats in the units: those whose text a
/// translation of the units may ask for.
pub fn float_bits(units: &Vec<Unit>) -> (r: Vec<u32>)
    ensures
        r@ == floats_of(units@, 0),
{
    let mut out: Vec<u32> = Vec::new();
    let mut i: usize = units.len();
    assert(out@ =~= floats_of(units@, i as nat));
    while i > 0
        invariant
            i <= units.len(),
            out@ == floats_of(units@, i as nat),
        decreases i,
    {
        i -= 1;
        let mut front: Vec<u32> = Vec::new();
        collect_floats_nodes(&units[i].nodes, 0, &mut front);
        let ghost rest = out@;
        front.append(&mut out);
        out = front;
        assert(out@ =~= floats_in_nodes(units@[i as int].nodes@, 0) + rest);
    }
    out
}

} // verus!
