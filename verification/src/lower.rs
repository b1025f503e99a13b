//! The tree of the native back end, and how a syntax tree becomes one.
//!
//! The back end knows fewer forms than the language has: declarations,
//! literals, names, calls, `switch`, `class`, `add` and `new`.

use vstd::prelude::*;
use vstd::string::*;
use crate::node::Node;
use crate::node::Param;
use crate::text::str_eq;

verus! {

/// Why a program could not be compiled to native code.
#[derive(Debug, Clone, Copy, PartialEq, Eq, Structural)]
pub enum NativeError {
    /// A form has not the shape that it must have.
    Malformed,
    /// The back end has no code for this.
    Unsupported,
    /// A name that is neither a global nor a parameter.
    UnknownVariable,
    /// `new` of a class that was not declared.
    UnknownClass,
    /// A value was needed where a form gives none.
    NoValue,
    /// A counter or an offset left its range.
    TooLarge,
}

/// A parameter of a method, under the name that it has in the code.
#[derive(Debug)]
pub struct AstParam {
    pub name: String,
    pub default: Option<Ast>,
}

/// A method of a class.
#[derive(Debug)]
pub struct AstFunction {
    pub name: String,
    pub params: Vec<AstParam>,
    pub body: Vec<Ast>,
}

/// A field of a class, with the value that it starts with.
#[derive(Debug)]
pub struct Variable {
    pub name: String,
    pub value: Ast,
}

/// A form as the back end sees it.
#[derive(Debug)]
pub enum Ast {
    Let { name: String, init: Box<Ast> },
    Integer(i32),
    Float(u32),
    String(String),
    Identifier(String),
    Call { name: String, args: Vec<Ast> },
    Switch { condition: Box<Ast>, cases: Vec<(Ast, Ast)>, default: Box<Ast> },
    Class { name: String, fields: Vec<Variable>, functions: Vec<AstFunction> },
    Add { lhs: Box<Ast>, rhs: Box<Ast> },
    New { class: String },
}

/// What a parameter is, apart from how it is stored.
pub struct TermParam {
    pub name: Seq<char>,
    pub default: Option<Term>,
}

/// What a method is, apart from how it is stored.
pub struct TermFunction {
    pub name: Seq<char>,
    pub params: Seq<TermParam>,
    pub body: Seq<Term>,
}

/// What a field is, apart from how it is stored.
pub struct TermField {
    pub name: Seq<char>,
    pub value: Term,
}

/// What a form is, apart from how it is stored.
pub enum Term {
    Let { name: Seq<char>, init: Box<Term> },
    Integer(i32),
    Float(u32),
    Text(Seq<char>),
    Identifier(Seq<char>),
    Call { name: Seq<char>, args: Seq<Term> },
    Switch { condition: Box<Term>, cases: Seq<(Term, Term)>, default: Box<Term> },
    Class { name: Seq<char>, fields: Seq<TermField>, functions: Seq<TermFunction> },
    Add { lhs: Box<Term>, rhs: Box<Term> },
    New { class: Seq<char> },
}

/// The term of a form.
pub open spec fn term_of(ast: Ast) -> Term
    decreases ast,
{
    match ast {
        Ast::Let { name, init } => Term::Let { name: name@, init: Box::new(term_of(*init)) },
        Ast::Integer(i) => Term::Integer(i),
        Ast::Float(bits) => Term::Float(bits),
        Ast::String(s) => Term::Text(s@),
        Ast::Identifier(s) => Term::Identifier(s@),
        Ast::Call { name, args } => Term::Call {
            name: name@,
            args: Seq::new(
                args@.len(),
                |i: int|
                    if 0 <= i < args@.len() {
                        term_of(args@[i])
                    } else {
                        Term::Integer(0)
                    },
            ),
        },
        Ast::Switch { condition, cases, default } => Term::Switch {
            condition: Box::new(term_of(*condition)),
            cases: Seq::new(
                cases@.len(),
                |i: int|
                    if 0 <= i < cases@.len() {
                        (term_of(cases@[i].0), term_of(cases@[i].1))
                    } else {
                        (Term::Integer(0), Term::Integer(0))
                    },
            ),
            default: Box::new(term_of(*default)),
        },
        Ast::Class { name, fields, functions } => Term::Class {
            name: name@,
            fields: Seq::new(
                fields@.len(),
                |i: int|
                    if 0 <= i < fields@.len() {
                        field_of(fields@[i])
                    } else {
                        TermField { name: Seq::empty(), value: Term::Integer(0) }
                    },
            ),
            functions: Seq::new(
                functions@.len(),
                |i: int|
                    if 0 <= i < functions@.len() {
                        function_of(functions@[i])
                    } else {
                        TermFunction { name: Seq::empty(), params: Seq::empty(), body: Seq::empty() }
                    },
            ),
        },
        Ast::Add { lhs, rhs } => Term::Add {
            lhs: Box::new(term_of(*lhs)),
            rhs: Box::new(term_of(*rhs)),
        },
        Ast::New { class } => Term::New { class: class@ },
    }
}

/// The term of a field.
pub open spec fn field_of(field: Variable) -> TermField
    decreases field,
{
    TermField { name: field.name@, value: term_of(field.value) }
}

/// The term of a parameter.
pub open spec fn param_of(param: AstParam) -> TermParam
    decreases param,
{
    TermParam {
        name: param.name@,
        default: match param.default {
            Some(d) => Some(term_of(d)),
            None => None,
        },
    }
}

/// The term of a method.
pub open spec fn function_of(function: AstFunction) -> TermFunction
    decreases function,
{
    TermFunction {
        name: function.name@,
        params: Seq::new(
            function.params@.len(),
            |i: int|
                if 0 <= i < function.params@.len() {
                    param_of(function.params@[i])
                } else {
                    TermParam { name: Seq::empty(), default: None }
                },
        ),
        body: Seq::new(
            function.body@.len(),
            |i: int|
                if 0 <= i < function.body@.len() {
                    term_of(function.body@[i])
                } else {
                    Term::Integer(0)
                },
        ),
    }
}

/// The terms of a sequence of forms.
pub open spec fn terms_of(asts: Seq<Ast>) -> Seq<Term> {
    asts.map_values(|a: Ast| term_of(a))
}

/// The terms of the cases of a `switch`.
pub open spec fn cases_of(cases: Seq<(Ast, Ast)>) -> Seq<(Term, Term)> {
    cases.map_values(|c: (Ast, Ast)| (term_of(c.0), term_of(c.1)))
}

/// The terms of a sequence of fields.
pub open spec fn fields_of(fields: Seq<Variable>) -> Seq<TermField> {
    fields.map_values(|f: Variable| field_of(f))
}

/// The terms of a sequence of parameters.
pub open spec fn params_of(params: Seq<AstParam>) -> Seq<TermParam> {
    params.map_values(|p: AstParam| param_of(p))
}

/// The terms of a sequence of methods.
pub open spec fn functions_of(functions: Seq<AstFunction>) -> Seq<TermFunction> {
    functions.map_values(|f: AstFunction| function_of(f))
}

impl View for Ast {
    type V = Term;

    open spec fn view(&self) -> Term {
        term_of(*self)
    }
}

/// The term of a form that holds forms holds the terms of those forms.
pub proof fn lemma_term_of(ast: Ast)
    ensures
        match ast {
            Ast::Call { name, args } => term_of(ast) == (Term::Call {
                name: name@,
                args: terms_of(args@),
            }),
            Ast::Switch { condition, cases, default } => term_of(ast) == (Term::Switch {
                condition: Box::new(term_of(*condition)),
                cases: cases_of(cases@),
                default: Box::new(term_of(*default)),
            }),
            Ast::Class { name, fields, functions } => term_of(ast) == (Term::Class {
                name: name@,
                fields: fields_of(fields@),
                functions: functions_of(functions@),
            }),
            _ => true,
        },
{
    match ast {
        Ast::Call { name, args } => {
            assert(term_of(ast)->Call_args =~= terms_of(args@));
        },
        Ast::Switch { condition, cases, default } => {
            assert(term_of(ast)->Switch_cases =~= cases_of(cases@));
        },
        Ast::Class { name, fields, functions } => {
            assert(term_of(ast)->Class_fields =~= fields_of(fields@));
            assert(term_of(ast)->Class_functions =~= functions_of(functions@));
        },
        _ => {},
    }
}

/// The term of a method holds the terms of its parameters and of its body.
pub proof fn lemma_function_of(function: AstFunction)
    ensures
        function_of(function) == (TermFunction {
            name: function.name@,
            params: params_of(function.params@),
            body: terms_of(function.body@),
        }),
{
    assert(function_of(function).params =~= params_of(function.params@));
    assert(function_of(function).body =~= terms_of(function.body@));
}

/// The name of a node that is an identifier.
pub open spec fn name_of(node: Node) -> Option<Seq<char>> {
    match node {
        Node::Identifier(id) => Some(id@),
        _ => None,
    }
}

/// The term of a node.
pub open spec fn lowered(node: Node) -> Result<Term, NativeError>
    decreases node, 1nat,
{
    match node {
        Node::Call { name, args } => if name@ == "let"@ {
            if args@.len() != 2 || name_of(args@[0]) is None {
                Err(NativeError::Malformed)
            } else {
                match lowered(args@[1]) {
                    Err(e) => Err(e),
                    Ok(init) => Ok(
                        Term::Let { name: name_of(args@[0]).unwrap(), init: Box::new(init) },
                    ),
                }
            }
        } else if name@ == "switch"@ {
            if args@.len() < 1 {
                Err(NativeError::Malformed)
            } else {
                match lowered(args@[0]) {
                    Err(e) => Err(e),
                    Ok(condition) => match lowered_cases(args@, 1) {
                        Err(e) => Err(e),
                        Ok((cases, default)) => Ok(
                            Term::Switch {
                                condition: Box::new(condition),
                                cases,
                                default: Box::new(default),
                            },
                        ),
                    },
                }
            }
        } else if name@ == "class"@ {
            if args@.len() < 1 || name_of(args@[0]) is None {
                Err(NativeError::Malformed)
            } else {
                match lowered_members(args@, 1) {
                    Err(e) => Err(e),
                    Ok((fields, functions)) => Ok(
                        Term::Class { name: name_of(args@[0]).unwrap(), fields, functions },
                    ),
                }
            }
        } else if name@ == "add"@ {
            match lowered_pair(args@) {
                Err(e) => Err(e),
                Ok((lhs, rhs)) => Ok(Term::Add { lhs: Box::new(lhs), rhs: Box::new(rhs) }),
            }
        } else if name@ == "new"@ {
            if args@.len() < 1 || name_of(args@[0]) is None {
                Err(NativeError::Malformed)
            } else {
                Ok(Term::New { class: name_of(args@[0]).unwrap() })
            }
        } else {
            match lowered_all(args@, 0) {
                Err(e) => Err(e),
                Ok(terms) => Ok(Term::Call { name: name@, args: terms }),
            }
        },
        Node::Integer(i) => Ok(Term::Integer(i)),
        Node::Float(bits) => Ok(Term::Float(bits)),
        Node::String(s) => Ok(Term::Text(s@)),
        Node::Identifier(id) => Ok(Term::Identifier(id@)),
        _ => Err(NativeError::Unsupported),
    }
}

/// The terms of the first two of `nodes`; the first is lowered before the
/// second is looked for.
pub open spec fn lowered_pair(nodes: Seq<Node>) -> Result<(Term, Term), NativeError>
    decreases nodes, 0nat,
{
    if nodes.len() < 1 {
        Err(NativeError::Malformed)
    } else {
        match lowered(nodes[0]) {
            Err(e) => Err(e),
            Ok(first) => if nodes.len() < 2 {
                Err(NativeError::Malformed)
            } else {
                match lowered(nodes[1]) {
                    Err(e) => Err(e),
                    Ok(second) => Ok((first, second)),
                }
            },
        }
    }
}

/// The terms of the nodes from index `from` on.
pub open spec fn lowered_all(nodes: Seq<Node>, from: nat) -> Result<Seq<Term>, NativeError>
    decreases nodes, nodes.len() - from,
{
    if from >= nodes.len() {
        Ok(Seq::empty())
    } else {
        match lowered(nodes[from as int]) {
            Err(e) => Err(e),
            Ok(first) => match lowered_all(nodes, from + 1) {
                Err(e) => Err(e),
                Ok(rest) => Ok(seq![first] + rest),
            },
        }
    }
}

/// The cases of a `switch` from index `i` on, and its default: each call
/// form is a case of a value and a result, whatever it is called; the
/// first node that is no call is the default, and the last argument.
pub open spec fn lowered_cases(args: Seq<Node>, i: nat) -> Result<
    (Seq<(Term, Term)>, Term),
    NativeError,
>
    decreases args, args.len() - i,
{
    if i >= args.len() {
        Err(NativeError::Malformed)
    } else {
        match args[i as int] {
            Node::Call { name, args: parts } => match lowered_pair(parts@) {
                Err(e) => Err(e),
                Ok(case) => match lowered_cases(args, i + 1) {
                    Err(e) => Err(e),
                    Ok((rest, default)) => Ok((seq![case] + rest, default)),
                },
            },
            _ => if i + 1 != args.len() {
                Err(NativeError::Malformed)
            } else {
                match lowered(args[i as int]) {
                    Err(e) => Err(e),
                    Ok(default) => Ok((Seq::empty(), default)),
                }
            },
        }
    }
}

/// The parameters from index `from` on, each under its name in the code:
/// the name with a percent sign before it.
pub open spec fn lowered_params(params: Seq<Param>, from: nat) -> Result<
    Seq<TermParam>,
    NativeError,
>
    decreases params, params.len() - from,
{
    if from >= params.len() {
        Ok(Seq::empty())
    } else {
        match (match params[from as int].default_value {
            None => Ok(None),
            Some(d) => match lowered(d) {
                Err(e) => Err(e),
                Ok(t) => Ok(Some(t)),
            },
        }) {
            Err(e) => Err(e),
            Ok(default) => match lowered_params(params, from + 1) {
                Err(e) => Err(e),
                Ok(rest) => Ok(
                    seq![TermParam { name: "%"@ + params[from as int].name@, default }] + rest,
                ),
            },
        }
    }
}

/// The members of a class from index `i` on: each function is a method,
/// each `let` of a name a field.
pub open spec fn lowered_members(args: Seq<Node>, i: nat) -> Result<
    (Seq<TermField>, Seq<TermFunction>),
    NativeError,
>
    decreases args, args.len() - i,
{
    if i >= args.len() {
        Ok((Seq::empty(), Seq::empty()))
    } else {
        match args[i as int] {
            Node::Function { name, params, body } => match lowered_all(body@, 0) {
                Err(e) => Err(e),
                Ok(terms) => match lowered_params(params@, 0) {
                    Err(e) => Err(e),
                    Ok(slots) => match lowered_members(args, i + 1) {
                        Err(e) => Err(e),
                        Ok((fields, functions)) => Ok(
                            (
                                fields,
                                seq![TermFunction { name: name@, params: slots, body: terms }]
                                    + functions,
                            ),
                        ),
                    },
                },
            },
            Node::Call { name, args: parts } => if name@ != "let"@ {
                Err(NativeError::Malformed)
            } else {
                match lowered_pair(parts@) {
                    Err(e) => Err(e),
                    Ok((target, value)) => match target {
                        Term::Identifier(field) => match lowered_members(args, i + 1) {
                            Err(e) => Err(e),
                            Ok((fields, functions)) => Ok(
                                (seq![TermField { name: field, value }] + fields, functions),
                            ),
                        },
                        _ => Err(NativeError::Malformed),
                    },
                }
            },
            _ => Err(NativeError::Malformed),
        }
    }
}

/// Whether what a function returned is the term that the lowering gives.
pub open spec fn agrees(r: Result<Ast, NativeError>, rule: Result<Term, NativeError>) -> bool {
    match r {
        Ok(ast) => rule == Ok::<Term, NativeError>(term_of(ast)),
        Err(e) => rule == Err::<Term, NativeError>(e),
    }
}

/// The form of a node.
pub fn node_to_ast(node: &Node) -> (r: Result<Ast, NativeError>)
    ensures
        agrees(r, lowered(*node)),
    decreases *node, 1nat,
{
    match node {
        Node::Call { name, args } => {
            if str_eq(name.as_str(), "let") {
                if args.len() != 2 {
                    return Err(NativeError::Malformed);
                }
                match &args[0] {
                    Node::Identifier(id) => {
                        let init = node_to_ast(&args[1])?;
                        Ok(Ast::Let { name: id.clone(), init: Box::new(init) })
                    },
                    _ => Err(NativeError::Malformed),
                }
            } else if str_eq(name.as_str(), "switch") {
                if args.len() < 1 {
                    return Err(NativeError::Malformed);
                }
                let condition = node_to_ast(&args[0])?;
                let (cases, default) = lower_cases(args)?;
                let ast = Ast::Switch {
                    condition: Box::new(condition),
                    cases,
                    default: Box::new(default),
                };
                proof {
                    lemma_term_of(ast);
                }
                Ok(ast)
            } else if str_eq(name.as_str(), "class") {
                if args.len() < 1 {
                    return Err(NativeError::Malformed);
                }
                match &args[0] {
                    Node::Identifier(id) => {
                        let (fields, functions) = lower_members(args)?;
                        let ast = Ast::Class { name: id.clone(), fields, functions };
                        proof {
                            lemma_term_of(ast);
                        }
                        Ok(ast)
                    },
                    _ => Err(NativeError::Malformed),
                }
            } else if str_eq(name.as_str(), "add") {
                let (lhs, rhs) = lower_pair(args)?;
                Ok(Ast::Add { lhs: Box::new(lhs), rhs: Box::new(rhs) })
            } else if str_eq(name.as_str(), "new") {
                if args.len() < 1 {
                    return Err(NativeError::Malformed);
                }
                match &args[0] {
                    Node::Identifier(id) => Ok(Ast::New { class: id.clone() }),
                    _ => Err(NativeError::Malformed),
                }
            } else {
                let terms = lower_all(args)?;
                let ast = Ast::Call { name: name.clone(), args: terms };
                proof {
                    lemma_term_of(ast);
                }
                Ok(ast)
            }
        },
        Node::Integer(i) => Ok(Ast::Integer(*i)),
        Node::Float(bits) => Ok(Ast::Float(*bits)),
        Node::String(s) => Ok(Ast::String(s.clone())),
        Node::Identifier(id) => Ok(Ast::Identifier(id.clone())),
        _ => Err(NativeError::Unsupported),
    }
}

/// The forms of the first two of `nodes`.
pub fn lower_pair(nodes: &Vec<Node>) -> (r: Result<(Ast, Ast), NativeError>)
    ensures
        match r {
            Ok((first, second)) => lowered_pair(nodes@) == Ok::<(Term, Term), NativeError>(
                (term_of(first), term_of(second)),
            ),
            Err(e) => lowered_pair(nodes@) == Err::<(Term, Term), NativeError>(e),
        },
    decreases nodes@, 0nat,
{
    if nodes.len() < 1 {
        return Err(NativeError::Malformed);
    }
    let first = node_to_ast(&nodes[0])?;
    if nodes.len() < 2 {
        return Err(NativeError::Malformed);
    }
    let second = node_to_ast(&nodes[1])?;
    Ok((first, second))
}

/// The forms of `nodes`.
pub fn lower_all(nodes: &Vec<Node>) -> (r: Result<Vec<Ast>, NativeError>)
    ensures
        match r {
            Ok(asts) => lowered_all(nodes@, 0) == Ok::<Seq<Term>, NativeError>(terms_of(asts@)),
            Err(e) => lowered_all(nodes@, 0) == Err::<Seq<Term>, NativeError>(e),
        },
    decreases nodes@, nodes@.len(),
{
    let ghost whole = lowered_all(nodes@, 0);
    let mut asts: Vec<Ast> = Vec::new();
    let mut i: usize = 0;
    assert(terms_of(asts@) =~= Seq::<Term>::empty());
    while i < nodes.len()
        invariant
            i <= nodes.len(),
            whole == lowered_all(nodes@, 0),
            whole == (match lowered_all(nodes@, i as nat) {
                Ok(rest) => Ok::<Seq<Term>, NativeError>(terms_of(asts@) + rest),
                Err(e) => Err::<Seq<Term>, NativeError>(e),
            }),
        decreases nodes.len() - i,
    {
        let ast = match node_to_ast(&nodes[i]) {
            Ok(a) => a,
            Err(e) => {
                return Err(e);
            },
        };
        let ghost done = terms_of(asts@);
        let ghost first = term_of(ast);
        asts.push(ast);
        proof {
            assert(terms_of(asts@) =~= done.push(first));
            if let Ok(rest) = lowered_all(nodes@, (i + 1) as nat) {
                assert(done + (seq![first] + rest) =~= done.push(first) + rest);
            }
        }
        i += 1;
    }
    assert(terms_of(asts@) + Seq::<Term>::empty() =~= terms_of(asts@));
    Ok(asts)
}

/// The cases and the default of a `switch` with the arguments `args`.
pub fn lower_cases(args: &Vec<Node>) -> (r: Result<(Vec<(Ast, Ast)>, Ast), NativeError>)
    ensures
        match r {
            Ok((cases, default)) => lowered_cases(args@, 1) == Ok::<
                (Seq<(Term, Term)>, Term),
                NativeError,
            >((cases_of(cases@), term_of(default))),
            Err(e) => lowered_cases(args@, 1) == Err::<(Seq<(Term, Term)>, Term), NativeError>(e),
        },
    decreases args@, args@.len(),
{
    let ghost whole = lowered_cases(args@, 1);
    let mut cases: Vec<(Ast, Ast)> = Vec::new();
    let mut i: usize = 1;
    assert(cases_of(cases@) =~= Seq::<(Term, Term)>::empty());
    while i < args.len()
        invariant
            1 <= i,
            whole == lowered_cases(args@, 1),
            whole == (match lowered_cases(args@, i as nat) {
                Ok((rest, default)) => Ok::<(Seq<(Term, Term)>, Term), NativeError>(
                    (cases_of(cases@) + rest, default),
                ),
                Err(e) => Err::<(Seq<(Term, Term)>, Term), NativeError>(e),
            }),
        decreases args.len() - i,
    {
        match &args[i] {
            Node::Call { name, args: parts } => {
                let case = match lower_pair(parts) {
                    Ok(c) => c,
                    Err(e) => {
                        return Err(e);
                    },
                };
                let ghost done = cases_of(cases@);
                let ghost first = (term_of(case.0), term_of(case.1));
                cases.push(case);
                proof {
                    assert(cases_of(cases@) =~= done.push(first));
                    if let Ok((rest, default)) = lowered_cases(args@, (i + 1) as nat) {
                        assert(done + (seq![first] + rest) =~= done.push(first) + rest);
                    }
                }
            },
            _ => {
                if i + 1 != args.len() {
                    return Err(NativeError::Malformed);
                }
                let default = match node_to_ast(&args[i]) {
                    Ok(d) => d,
                    Err(e) => {
                        return Err(e);
                    },
                };
                assert(cases_of(cases@) + Seq::<(Term, Term)>::empty() =~= cases_of(cases@));
                return Ok((cases, default));
            },
        }
        i += 1;
    }
    Err(NativeError::Malformed)
}

/// The parameters of a method.
pub fn lower_params(params: &Vec<Param>) -> (r: Result<Vec<AstParam>, NativeError>)
    ensures
        match r {
            Ok(slots) => lowered_params(params@, 0) == Ok::<Seq<TermParam>, NativeError>(
                params_of(slots@),
            ),
            Err(e) => lowered_params(params@, 0) == Err::<Seq<TermParam>, NativeError>(e),
        },
    decreases params@, params@.len(),
{
    let ghost whole = lowered_params(params@, 0);
    let mut slots: Vec<AstParam> = Vec::new();
    let mut i: usize = 0;
    assert(params_of(slots@) =~= Seq::<TermParam>::empty());
    while i < params.len()
        invariant
            i <= params.len(),
            whole == lowered_params(params@, 0),
            whole == (match lowered_params(params@, i as nat) {
                Ok(rest) => Ok::<Seq<TermParam>, NativeError>(params_of(slots@) + rest),
                Err(e) => Err::<Seq<TermParam>, NativeError>(e),
            }),
        decreases params.len() - i,
    {
        let default = match &params[i].default_value {
            None => None,
            Some(d) => match node_to_ast(d) {
                Ok(a) => Some(a),
                Err(e) => {
                    return Err(e);
                },
            },
        };
        let mut name = String::from_str("%");
        name.append(params[i].name.as_str());
        let slot = AstParam { name, default };
        let ghost done = params_of(slots@);
        let ghost first = param_of(slot);
        slots.push(slot);
        proof {
            assert(params_of(slots@) =~= done.push(first));
            if let Ok(rest) = lowered_params(params@, (i + 1) as nat) {
                assert(done + (seq![first] + rest) =~= done.push(first) + rest);
            }
        }
        i += 1;
    }
    assert(params_of(slots@) + Seq::<TermParam>::empty() =~= params_of(slots@));
    Ok(slots)
}

/// The fields and the methods of a class with the arguments `args`.
pub fn lower_members(args: &Vec<Node>) -> (r: Result<(Vec<Variable>, Vec<AstFunction>), NativeError>)
    ensures
        match r {
            Ok((fields, functions)) => lowered_members(args@, 1) == Ok::<
                (Seq<TermField>, Seq<TermFunction>),
                NativeError,
            >((fields_of(fields@), functions_of(functions@))),
            Err(e) => lowered_members(args@, 1) == Err::<
                (Seq<TermField>, Seq<TermFunction>),
                NativeError,
            >(e),
        },
    decreases args@, args@.len(),
{
    let ghost whole = lowered_members(args@, 1);
    let mut fields: Vec<Variable> = Vec::new();
    let mut functions: Vec<AstFunction> = Vec::new();
    let mut i: usize = 1;
    assert(fields_of(fields@) =~= Seq::<TermField>::empty());
    assert(functions_of(functions@) =~= Seq::<TermFunction>::empty());
    while i < args.len()
        invariant
            1 <= i,
            whole == lowered_members(args@, 1),
            whole == (match lowered_members(args@, i as nat) {
                Ok((fs, ms)) => Ok::<(Seq<TermField>, Seq<TermFunction>), NativeError>(
                    (fields_of(fields@) + fs, functions_of(functions@) + ms),
                ),
                Err(e) => Err::<(Seq<TermField>, Seq<TermFunction>), NativeError>(e),
            }),
        decreases args.len() - i,
    {
        match &args[i] {
            Node::Function { name, params, body } => {
                let terms = match lower_all(body) {
                    Ok(t) => t,
                    Err(e) => {
                        return Err(e);
                    },
                };
                let slots = match lower_params(params) {
                    Ok(s) => s,
                    Err(e) => {
                        return Err(e);
                    },
                };
                let function = AstFunction { name: name.clone(), params: slots, body: terms };
                let ghost done = functions_of(functions@);
                let ghost first = function_of(function);
                proof {
                    lemma_function_of(function);
                }
                functions.push(function);
                proof {
                    assert(functions_of(functions@) =~= done.push(first));
                    if let Ok((fs, ms)) = lowered_members(args@, (i + 1) as nat) {
                        assert(done + (seq![first] + ms) =~= done.push(first) + ms);
                    }
                }
            },
            Node::Call { name, args: parts } => {
                if !str_eq(name.as_str(), "let") {
                    return Err(NativeError::Malformed);
                }
                let (target, value) = match lower_pair(parts) {
                    Ok(p) => p,
                    Err(e) => {
                        return Err(e);
                    },
                };
                match target {
                    Ast::Identifier(field) => {
                        let variable = Variable { name: field, value };
                        let ghost done = fields_of(fields@);
                        let ghost first = field_of(variable);
                        fields.push(variable);
                        proof {
                            assert(fields_of(fields@) =~= done.push(first));
                            if let Ok((fs, ms)) = lowered_members(args@, (i + 1) as nat) {
                                assert(done + (seq![first] + fs) =~= done.push(first) + fs);
                            }
                        }
                    },
                    _ => {
                        return Err(NativeError::Malformed);
                    },
                }
            },
            _ => {
                return Err(NativeError::Malformed);
            },
        }
        i += 1;
    }
    assert(fields_of(fields@) + Seq::<TermField>::empty() =~= fields_of(fields@));
    assert(functions_of(functions@) + Seq::<TermFunction>::empty() =~= functions_of(functions@));
    Ok((fields, functions))
}

} // verus!
