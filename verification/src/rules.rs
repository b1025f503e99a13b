//! What each form of the language compiles to.
//!
//! The functions of this module are the definition of the compiler: they map
//! a syntax tree, the compiler's state and the context of the active function
//! to instructions and a new state. The executable emitter is verified to
//! compute exactly these functions.

use vstd::prelude::*;
use crate::error::CompileError;
use crate::error::Form;
use crate::loader::Unit;
use crate::loader::unit_names;
use crate::node::Node;
use crate::node::Param;
use crate::opcode::Instr;
use crate::opcode::MAX_BRANCH;
use crate::opcode::Value;
use crate::opcode::code_bound;
use crate::opcode::code_ok;
use crate::opcode::encode;
use crate::pool::POOL_LIMIT;
use crate::pool::lemma_position;
use crate::pool::position;
use crate::scope::ARITY_LIMIT;
use crate::scope::Binding;
use crate::scope::ContextView;
use crate::scope::declare_local;
use crate::scope::field_context;
use crate::scope::function_context;
use crate::scope::resolve;
use crate::scope::top_level_context;
use crate::selector::call_selector;
use crate::selector::closure_selector;
use crate::selector::plain_selector;
use crate::table::ClassView;
use crate::table::FieldView;
use crate::table::FunctionView;
use crate::table::body_ok;
use crate::table::class_names;
use crate::table::field_names;
use crate::table::fields_wf;
use crate::table::functions_wf;
use crate::table::image_ok;
use crate::table::inherited_fields;
use crate::table::method_shape;
use crate::table::methods_wf;
use crate::table::module_class;
use crate::table::root_class;
use crate::table::selectors;
use crate::table::table_wf;

verus! {

/// The state that one compilation run builds up.
pub struct State {
    /// The constant pool.
    pub pool: Seq<Seq<char>>,
    /// The functions of the module itself, closures included.
    pub functions: Seq<FunctionView>,
    /// The classes declared so far.
    pub classes: Seq<ClassView>,
    /// The number that the next closure gets.
    pub closure_id: nat,
}

/// What holds of the state at every point of a run: the pool holds no
/// string twice and no more than its indices can address; the code of every
/// function ends in a return instruction, and no code refers to a string
/// that is not in the pool; every class has a name of its own, other than
/// that of the module class, and stands behind its parent; every method has
/// the receiver as its first slot.
pub open spec fn state_wf(st: State) -> bool {
    &&& st.pool.no_duplicates()
    &&& st.pool.len() <= POOL_LIMIT
    &&& functions_wf(st.functions, st.pool.len())
    &&& table_wf(st.classes)
    &&& forall|i: int|
        0 <= i < st.classes.len() ==> {
            &&& (#[trigger] st.classes[i]).name != module_class()
            &&& methods_wf(st.classes[i].functions, st.pool.len())
            &&& fields_wf(st.classes[i].fields, st.pool.len())
        }
}

/// A state does not come to refer to strings outside the pool when the
/// pool grows.
pub proof fn lemma_state_grows(st: State, pool: Seq<Seq<char>>)
    requires
        state_wf(st),
        pool.no_duplicates(),
        st.pool.len() <= pool.len() <= POOL_LIMIT,
    ensures
        state_wf(State { pool, ..st }),
{
    let n = st.pool.len();
    let m = pool.len();
    assert forall|i: int| 0 <= i < st.functions.len() implies body_ok(
        #[trigger] st.functions[i].code,
        m,
    ) by {
        lemma_body_grows(st.functions[i].code, n, m);
    }
    assert forall|i: int| 0 <= i < st.classes.len() implies {
        &&& (#[trigger] st.classes[i]).name != module_class()
        &&& methods_wf(st.classes[i].functions, m)
        &&& fields_wf(st.classes[i].fields, m)
    } by {
        let c = st.classes[i];
        assert(methods_wf(c.functions, n));
        assert(fields_wf(c.fields, n));
        assert forall|k: int| 0 <= k < c.functions.len() implies body_ok(
            (#[trigger] c.functions[k]).code,
            m,
        ) && method_shape(c.functions[k]) by {
            lemma_body_grows(c.functions[k].code, n, m);
        }
        assert forall|k: int| 0 <= k < c.fields.len() implies image_ok(
            #[trigger] c.fields[k].default,
            m,
        ) by {
            lemma_image_grows(c.fields[k].default, n, m);
        }
    }
}

/// Fields stay fields when the pool grows.
pub proof fn lemma_fields_grow(fs: Seq<FieldView>, n: nat, m: nat)
    requires
        fields_wf(fs, n),
        n <= m,
    ensures
        fields_wf(fs, m),
{
    assert forall|k: int| 0 <= k < fs.len() implies image_ok(#[trigger] fs[k].default, m) by {
        lemma_image_grows(fs[k].default, n, m);
    }
}

/// A function body stays one when the pool grows.
pub proof fn lemma_body_grows(code: Seq<u8>, n: nat, m: nat)
    requires
        body_ok(code, n),
        n <= m,
    ensures
        body_ok(code, m),
{
    let body = choose|body: Seq<Instr>|
        code_ok(body) && code_bound(body) <= n && code == encode(
            #[trigger] body.push(Instr::Return),
        );
    assert(code_ok(body) && code_bound(body) <= m && code == encode(body.push(Instr::Return)));
}

/// Code stays code when the pool grows.
pub proof fn lemma_image_grows(code: Seq<u8>, n: nat, m: nat)
    requires
        image_ok(code, n),
        n <= m,
    ensures
        image_ok(code, m),
{
    let body = choose|body: Seq<Instr>|
        code_ok(body) && code_bound(body) <= n && code == #[trigger] encode(body);
    assert(code_ok(body) && code_bound(body) <= m && code == encode(body));
}

/// What the compilation of a piece of syntax yields.
pub struct Out {
    pub st: State,
    pub cx: ContextView,
    pub code: Seq<Instr>,
}

/// What a rule yields: what was compiled, or why nothing was.
pub type Compiled = Result<Out, CompileError>;

/// The largest number of rename pairs in one import.
pub const ALIAS_LIMIT: usize = 65535;

/// The largest closure number.
pub const CLOSURE_LIMIT: u32 = 0xffff_ffff;

/// The state after `s` was interned, with the index of `s`.
pub open spec fn intern(st: State, s: Seq<char>) -> Result<(State, u16), CompileError> {
    match position(st.pool, s) {
        Some(i) => Ok((st, i as u16)),
        None => if st.pool.len() >= POOL_LIMIT {
            Err(CompileError::CapacityOverflow)
        } else {
            Ok((State { pool: st.pool.push(s), ..st }, st.pool.len() as u16))
        },
    }
}

/// The name of an identifier node.
pub open spec fn ident_name(node: Node) -> Option<Seq<char>> {
    match node {
        Node::Identifier(s) => Some(s@),
        _ => None,
    }
}

/// The names of a list of parameters.
pub open spec fn param_names(params: Seq<Param>) -> Seq<Seq<char>> {
    params.map_values(|p: Param| p.name@)
}

/// The slot names of a function: the receiver, then the parameters.
pub open spec fn slot_names(params: Seq<Seq<char>>) -> Seq<Seq<char>> {
    seq!["this"@] + params
}

/// Loads of the local slots `from`, `from + 1`, ... up to but not including `to`.
pub open spec fn local_loads(from: nat, to: nat) -> Seq<Instr> {
    Seq::new((to - from) as nat, |k: int| Instr::LoadLocalVar((from + k) as u16))
}

/// The instruction that pushes "no value": the null instruction.
pub open spec fn no_value() -> Instr {
    Instr::Null
}

/// The bytes of a function body: its instructions, then a return.
pub open spec fn body_bytes(code: Seq<Instr>) -> Seq<u8> {
    encode(code.push(Instr::Return))
}

/// The load of a literal.
pub open spec fn c_constant(st: State, node: Node) -> Result<(State, Instr), CompileError> {
    match node {
        Node::String(s) => match intern(st, s@) {
            Ok((s1, i)) => Ok((s1, Instr::Constant(Value::Str(i)))),
            Err(e) => Err(e),
        },
        Node::Integer(i) => Ok((st, Instr::Constant(Value::Integer(i)))),
        Node::Float(bits) => Ok((st, Instr::Constant(Value::Float(bits)))),
        Node::Null => Ok((st, Instr::Constant(Value::Null))),
        Node::Bool(b) => Ok((st, Instr::Constant(Value::Bool(b)))),
        _ => Err(CompileError::UnsupportedNode),
    }
}

/// The load of the variable that `name` resolves to.
pub open spec fn c_load_name(st: State, cx: ContextView, name: Seq<char>) -> Result<
    (State, Instr),
    CompileError,
> {
    match resolve(cx, name) {
        Binding::Local(slot) => Ok((st, Instr::LoadLocalVar(slot))),
        Binding::Field => match intern(st, name) {
            Ok((s1, i)) => Ok((s1, Instr::LoadFieldThis(i))),
            Err(e) => Err(e),
        },
        Binding::Global => match intern(st, name) {
            Ok((s1, i)) => Ok((s1, Instr::LoadModuleVar(i))),
            Err(e) => Err(e),
        },
    }
}

/// The store into the variable that `name` resolves to. A name that is
/// neither a local nor a field becomes a module variable.
pub open spec fn c_store_name(st: State, cx: ContextView, name: Seq<char>) -> Result<
    (State, Instr),
    CompileError,
> {
    match resolve(cx, name) {
        Binding::Local(slot) => Ok((st, Instr::StoreLocalVar(slot))),
        Binding::Field => match intern(st, name) {
            Ok((s1, i)) => Ok((s1, Instr::StoreFieldThis(i))),
            Err(e) => Err(e),
        },
        Binding::Global => match intern(st, name) {
            Ok((s1, i)) => Ok((s1, Instr::StoreModuleVar(i))),
            Err(e) => Err(e),
        },
    }
}

/// An identifier as an expression: a load, where `null`, `true` and `false`
/// stand for themselves unless a local or a field has that name.
pub open spec fn c_identifier(st: State, cx: ContextView, name: Seq<char>) -> Result<
    (State, Instr),
    CompileError,
> {
    if resolve(cx, name) == Binding::Global && name == "null"@ {
        Ok((st, Instr::Null))
    } else if resolve(cx, name) == Binding::Global && name == "true"@ {
        Ok((st, Instr::True))
    } else if resolve(cx, name) == Binding::Global && name == "false"@ {
        Ok((st, Instr::False))
    } else {
        c_load_name(st, cx, name)
    }
}

/// An operand that must be a variable or a literal.
pub open spec fn c_load_variable(st: State, cx: ContextView, node: Node) -> Result<
    (State, Instr),
    CompileError,
> {
    match node {
        Node::Identifier(name) => c_load_name(st, cx, name@),
        _ => c_constant(st, node),
    }
}

/// `inc name`: load, add one, store back.
pub open spec fn c_inc(st: State, cx: ContextView, args: Seq<Node>) -> Compiled {
    if args.len() != 1 || ident_name(args[0]) is None {
        Err(CompileError::Malformed(Form::Inc))
    } else {
        let name = ident_name(args[0]).unwrap();
        match c_load_name(st, cx, name) {
            Err(e) => Err(e),
            Ok((s1, load)) => match c_store_name(s1, cx, name) {
                Err(e) => Err(e),
                Ok((s2, store)) => Ok(
                    Out {
                        st: s2,
                        cx,
                        code: seq![load, Instr::Constant(Value::Integer(1)), Instr::Add, store],
                    },
                ),
            },
        }
    }
}

/// The instruction of an arithmetic form, if `name` is one.
pub open spec fn arithmetic_instr(name: Seq<char>) -> Option<Instr> {
    if name == "add"@ {
        Some(Instr::Add)
    } else if name == "sub"@ {
        Some(Instr::Sub)
    } else if name == "mul"@ {
        Some(Instr::Mul)
    } else if name == "div"@ {
        Some(Instr::Div)
    } else {
        None
    }
}

/// The instructions of a comparison form, if `name` is one. There is no
/// instruction for "not equal": it is "equal", negated.
pub open spec fn comparison_instrs(name: Seq<char>) -> Option<Seq<Instr>> {
    if name == "lt"@ {
        Some(seq![Instr::LowerThan])
    } else if name == "gt"@ {
        Some(seq![Instr::GreaterThan])
    } else if name == "eq"@ {
        Some(seq![Instr::Equal])
    } else if name == "neq"@ {
        Some(seq![Instr::Equal, Instr::Not])
    } else {
        None
    }
}

/// The state that a compilation run starts from: the pool holds the name of
/// the module class.
pub open spec fn initial_state() -> State {
    State {
        pool: seq![module_class()],
        functions: Seq::empty(),
        classes: Seq::empty(),
        closure_id: 0,
    }
}

/// The remaining budget of nested loads.
pub open spec fn fuel(u: Seq<Unit>, ld: Seq<usize>) -> int {
    u.len() - ld.len()
}

/// A node as an expression.
#[verifier::opaque]
pub open spec fn c_node(u: Seq<Unit>, ld: Seq<usize>, st: State, cx: ContextView, node: Node)
    -> Compiled
    decreases fuel(u, ld), node, 0nat,
{
    match node {
        Node::Call { name, args } => c_call(u, ld, st, cx, name@, args@),
        Node::Identifier(name) => match c_identifier(st, cx, name@) {
            Ok((s1, i)) => Ok(Out { st: s1, cx, code: seq![i] }),
            Err(e) => Err(e),
        },
        Node::Function { name, params, body } => if name@.len() == 0 {
            c_closure(u, ld, st, cx, params@, body@)
        } else {
            Err(CompileError::Malformed(Form::Function))
        },
        Node::Instance { class, fields } => Err(CompileError::UnsupportedNode),
        Node::List(items) => Err(CompileError::UnsupportedNode),
        _ => match c_constant(st, node) {
            Ok((s1, i)) => Ok(Out { st: s1, cx, code: seq![i] }),
            Err(e) => Err(e),
        },
    }
}

/// The nodes of `nodes` from index `from` on, one after the other. After
/// the code of each node but the last comes `each`, after the last `last`.
#[verifier::opaque]
pub open spec fn c_seq(
    u: Seq<Unit>,
    ld: Seq<usize>,
    st: State,
    cx: ContextView,
    nodes: Seq<Node>,
    from: nat,
    each: Seq<Instr>,
    last: Seq<Instr>,
) -> Compiled
    decreases fuel(u, ld), nodes, nodes.len() - from,
{
    if from >= nodes.len() {
        Ok(Out { st, cx, code: Seq::empty() })
    } else {
        match c_node(u, ld, st, cx, nodes[from as int]) {
            Err(e) => Err(e),
            Ok(a) => match c_seq(u, ld, a.st, a.cx, nodes, from + 1, each, last) {
                Err(e) => Err(e),
                Ok(b) => Ok(
                    Out {
                        st: b.st,
                        cx: b.cx,
                        code: a.code + (if from + 1 == nodes.len() {
                            last
                        } else {
                            each
                        }) + b.code,
                    },
                ),
            },
        }
    }
}

/// A call form: a special form where `name` is one, else a call.
#[verifier::opaque]
pub open spec fn c_call(
    u: Seq<Unit>,
    ld: Seq<usize>,
    st: State,
    cx: ContextView,
    name: Seq<char>,
    args: Seq<Node>,
) -> Compiled
    decreases fuel(u, ld), args, args.len() + 3,
{
    if arithmetic_instr(name) is Some {
        c_operator(u, ld, st, cx, args, seq![arithmetic_instr(name).unwrap()], Form::Arithmetic)
    } else if comparison_instrs(name) is Some {
        c_operator(u, ld, st, cx, args, comparison_instrs(name).unwrap(), Form::Comparison)
    } else if name == "inc"@ {
        c_inc(st, cx, args)
    } else if name == "list"@ {
        c_list(u, ld, st, cx, args)
    } else if name == "nth"@ {
        c_nth(u, ld, st, cx, args)
    } else if name == "if"@ {
        c_if(u, ld, st, cx, args)
    } else if name == "while"@ {
        c_while(u, ld, st, cx, args)
    } else if name == "switch"@ {
        c_switch(u, ld, st, cx, args)
    } else if name == "class"@ {
        c_class(u, ld, st, cx, args)
    } else if name == "super"@ {
        c_super(u, ld, st, cx, args)
    } else if name == "let"@ {
        c_let(u, ld, st, cx, args)
    } else if name == "set"@ {
        c_assign(u, ld, st, cx, args)
    } else if name == "new"@ {
        c_new(u, ld, st, cx, args)
    } else if name == "abort"@ {
        c_abort(st, cx, args)
    } else if name == "fiber"@ {
        c_fiber(u, ld, st, cx, args)
    } else if name == "yield"@ {
        c_yield(st, cx, args)
    } else if name == "return"@ {
        Ok(Out { st, cx, code: seq![Instr::Return] })
    } else if name == "load"@ {
        c_load(u, ld, st, cx, args)
    } else if name == "print"@ || name == "write"@ {
        c_print(u, ld, st, cx, name, args)
    } else {
        c_dispatch(u, ld, st, cx, name, args)
    }
}

/// A binary operator: both operands, then the operator's instructions.
#[verifier::opaque]
pub open spec fn c_operator(
    u: Seq<Unit>,
    ld: Seq<usize>,
    st: State,
    cx: ContextView,
    args: Seq<Node>,
    op: Seq<Instr>,
    form: Form,
) -> Compiled
    decreases fuel(u, ld), args, args.len() + 2,
{
    if args.len() != 2 {
        Err(CompileError::Malformed(form))
    } else {
        match c_seq(u, ld, st, cx, args, 0, Seq::empty(), Seq::empty()) {
            Err(e) => Err(e),
            Ok(a) => Ok(Out { st: a.st, cx: a.cx, code: a.code + op }),
        }
    }
}

/// `list a b ...`: a new list, then one append per element.
#[verifier::opaque]
pub open spec fn c_list(u: Seq<Unit>, ld: Seq<usize>, st: State, cx: ContextView, args: Seq<Node>)
    -> Compiled
    decreases fuel(u, ld), args, args.len() + 2,
{
    match intern(st, "List"@) {
        Err(e) => Err(e),
        Ok((s1, i_list)) => match intern(s1, "new()"@) {
            Err(e) => Err(e),
            Ok((s2, i_new)) => match intern(s2, "add(_)"@) {
                Err(e) => Err(e),
                Ok((s3, i_add)) => match c_seq(
                    u,
                    ld,
                    s3,
                    cx,
                    args,
                    0,
                    seq![Instr::Call(i_add, 1)],
                    seq![Instr::Call(i_add, 1)],
                ) {
                    Err(e) => Err(e),
                    Ok(a) => Ok(
                        Out {
                            st: a.st,
                            cx: a.cx,
                            code: seq![Instr::LoadModuleVar(i_list), Instr::Call(i_new, 0)]
                                + a.code,
                        },
                    ),
                },
            },
        },
    }
}

/// `nth container index [value]`: an indexed read, or with a value an
/// indexed write.
#[verifier::opaque]
pub open spec fn c_nth(u: Seq<Unit>, ld: Seq<usize>, st: State, cx: ContextView, args: Seq<Node>)
    -> Compiled
    decreases fuel(u, ld), args, args.len() + 2,
{
    if args.len() != 2 && args.len() != 3 {
        Err(CompileError::Malformed(Form::Nth))
    } else {
        match intern(st, "[_]"@) {
            Err(e) => Err(e),
            Ok((s1, i_get)) => match intern(s1, "[_]=(_)"@) {
                Err(e) => Err(e),
                Ok((s2, i_set)) => match c_load_variable(s2, cx, args[0]) {
                    Err(e) => Err(e),
                    Ok((s3, container)) => match c_seq(
                        u,
                        ld,
                        s3,
                        cx,
                        args,
                        1,
                        Seq::empty(),
                        Seq::empty(),
                    ) {
                        Err(e) => Err(e),
                        Ok(a) => Ok(
                            Out {
                                st: a.st,
                                cx: a.cx,
                                code: seq![container] + a.code + seq![
                                    if args.len() == 2 {
                                        Instr::Call(i_get, 1)
                                    } else {
                                        Instr::Call(i_set, 2)
                                    },
                                ],
                            },
                        ),
                    },
                },
            },
        }
    }
}

/// `if cond then else`: the condition; a branch that skips the first arm
/// and the jump behind it; the first arm; a jump that skips the second arm;
/// the second arm. Both operands count instructions.
#[verifier::opaque]
pub open spec fn c_if(u: Seq<Unit>, ld: Seq<usize>, st: State, cx: ContextView, args: Seq<Node>)
    -> Compiled
    decreases fuel(u, ld), args, args.len() + 2,
{
    if args.len() != 3 {
        Err(CompileError::Malformed(Form::If))
    } else {
        match c_node(u, ld, st, cx, args[0]) {
            Err(e) => Err(e),
            Ok(c) => match c_node(u, ld, c.st, c.cx, args[1]) {
                Err(e) => Err(e),
                Ok(t) => match c_node(u, ld, t.st, t.cx, args[2]) {
                    Err(e) => Err(e),
                    Ok(f) => if t.code.len() + 1 > MAX_BRANCH || f.code.len() > MAX_BRANCH {
                        Err(CompileError::CapacityOverflow)
                    } else {
                        Ok(
                            Out {
                                st: f.st,
                                cx: f.cx,
                                code: c.code + seq![Instr::JumpIf((t.code.len() + 1) as u8)]
                                    + t.code + seq![Instr::Jump(f.code.len() as u8)] + f.code,
                            },
                        )
                    },
                },
            },
        }
    }
}

/// `while cond body...`: the negated condition; a branch that skips the
/// body and the loop instruction; the body, each statement but the last
/// followed by a pop; a loop instruction that counts the instructions back
/// to the head; and "no value" as the result.
#[verifier::opaque]
pub open spec fn c_while(u: Seq<Unit>, ld: Seq<usize>, st: State, cx: ContextView, args: Seq<Node>)
    -> Compiled
    decreases fuel(u, ld), args, args.len() + 2,
{
    if args.len() < 1 {
        Err(CompileError::Malformed(Form::While))
    } else {
        match c_node(u, ld, st, cx, args[0]) {
            Err(e) => Err(e),
            Ok(c) => match c_seq(u, ld, c.st, c.cx, args, 1, seq![Instr::Pop], Seq::empty()) {
                Err(e) => Err(e),
                Ok(b) => if c.code.len() + 2 + b.code.len() > MAX_BRANCH {
                    Err(CompileError::CapacityOverflow)
                } else {
                    Ok(
                        Out {
                            st: b.st,
                            cx: b.cx,
                            code: c.code + seq![
                                Instr::Not,
                                Instr::JumpIf((b.code.len() + 1) as u8),
                            ] + b.code + seq![
                                Instr::Loop((c.code.len() + 2 + b.code.len()) as u8),
                                no_value(),
                            ],
                        },
                    )
                },
            },
        }
    }
}

/// Whether `node` is a call of `case`, whatever its arguments.
pub open spec fn is_case(node: Node) -> bool {
    match node {
        Node::Call { name, args } => name@ == "case"@,
        _ => false,
    }
}

/// `switch subject (case value expr)... default`: the subject, once; then
/// the cases in order, then the default. The last argument is the default;
/// a `case` in its place means that there is none, which is an error.
#[verifier::opaque]
pub open spec fn c_switch(u: Seq<Unit>, ld: Seq<usize>, st: State, cx: ContextView, args: Seq<Node>)
    -> Compiled
    decreases fuel(u, ld), args, args.len() + 2,
{
    if args.len() < 2 || is_case(args.last()) {
        Err(CompileError::Malformed(Form::Switch))
    } else {
        match c_node(u, ld, st, cx, args[0]) {
            Err(e) => Err(e),
            Ok(s) => match c_cases(u, ld, s.st, s.cx, args, 1) {
                Err(e) => Err(e),
                Ok(r) => Ok(Out { st: r.st, cx: r.cx, code: s.code + r.code }),
            },
        }
    }
}

/// The cases of a `switch` from index `i` on, with the subject on the
/// stack. A case duplicates the subject and compares it with its value; a
/// branch skips the case where they differ; else the subject is dropped,
/// the case's expression evaluated, and a jump skips all that follows. The
/// default drops the subject and evaluates its expression.
#[verifier::opaque]
pub open spec fn c_cases(
    u: Seq<Unit>,
    ld: Seq<usize>,
    st: State,
    cx: ContextView,
    args: Seq<Node>,
    i: nat,
) -> Compiled
    decreases fuel(u, ld), args, args.len() - i,
{
    if i >= args.len() {
        Err(CompileError::Malformed(Form::Switch))
    } else if i + 1 == args.len() {
        match c_node(u, ld, st, cx, args[i as int]) {
            Err(e) => Err(e),
            Ok(d) => Ok(Out { st: d.st, cx: d.cx, code: seq![Instr::Pop] + d.code }),
        }
    } else {
        match args[i as int] {
            Node::Call { name, args: parts } => if name@ == "case"@ && parts@.len() == 2 {
                match c_node(u, ld, st, cx, parts@[0]) {
                    Err(e) => Err(e),
                    Ok(v) => match c_node(u, ld, v.st, v.cx, parts@[1]) {
                        Err(e) => Err(e),
                        Ok(x) => match c_cases(u, ld, x.st, x.cx, args, i + 1) {
                            Err(e) => Err(e),
                            Ok(r) => if x.code.len() + 2 > MAX_BRANCH || r.code.len()
                                > MAX_BRANCH {
                                Err(CompileError::CapacityOverflow)
                            } else {
                                Ok(
                                    Out {
                                        st: r.st,
                                        cx: r.cx,
                                        code: seq![Instr::Dup] + v.code + seq![
                                            Instr::Equal,
                                            Instr::JumpIf((x.code.len() + 2) as u8),
                                            Instr::Pop,
                                        ] + x.code + seq![Instr::Jump(r.code.len() as u8)]
                                            + r.code,
                                    },
                                )
                            },
                        },
                    },
                }
            } else {
                Err(CompileError::Malformed(Form::Switch))
            },
            _ => Err(CompileError::Malformed(Form::Switch)),
        }
    }
}

/// `let name expr`: the value, then a store into a new variable: a module
/// variable outside functions, a local slot inside one.
#[verifier::opaque]
pub open spec fn c_let(u: Seq<Unit>, ld: Seq<usize>, st: State, cx: ContextView, args: Seq<Node>)
    -> Compiled
    decreases fuel(u, ld), args, args.len() + 2,
{
    if args.len() != 2 || ident_name(args[0]) is None {
        Err(CompileError::Malformed(Form::Let))
    } else {
        let name = ident_name(args[0]).unwrap();
        match c_node(u, ld, st, cx, args[1]) {
            Err(e) => Err(e),
            Ok(v) => if v.cx.top_level {
                match intern(v.st, name) {
                    Err(e) => Err(e),
                    Ok((s1, i)) => Ok(
                        Out { st: s1, cx: v.cx, code: v.code.push(Instr::StoreModuleVar(i)) },
                    ),
                }
            } else {
                match declare_local(v.cx, name) {
                    Err(e) => Err(e),
                    Ok((cx1, slot)) => Ok(
                        Out { st: v.st, cx: cx1, code: v.code.push(Instr::StoreLocalVar(slot)) },
                    ),
                }
            },
        }
    }
}

/// `set name expr`: the value, then a store into what `name` resolves to.
#[verifier::opaque]
pub open spec fn c_assign(u: Seq<Unit>, ld: Seq<usize>, st: State, cx: ContextView, args: Seq<Node>)
    -> Compiled
    decreases fuel(u, ld), args, args.len() + 2,
{
    if args.len() != 2 || ident_name(args[0]) is None {
        Err(CompileError::Malformed(Form::Assign))
    } else {
        let name = ident_name(args[0]).unwrap();
        match c_node(u, ld, st, cx, args[1]) {
            Err(e) => Err(e),
            Ok(v) => match c_store_name(v.st, v.cx, name) {
                Err(e) => Err(e),
                Ok((s1, store)) => Ok(Out { st: s1, cx: v.cx, code: v.code.push(store) }),
            },
        }
    }
}

/// `new Class args...`: allocate, keep a copy, call the constructor of the
/// matching arity on it, drop what the constructor returns.
#[verifier::opaque]
pub open spec fn c_new(u: Seq<Unit>, ld: Seq<usize>, st: State, cx: ContextView, args: Seq<Node>)
    -> Compiled
    decreases fuel(u, ld), args, args.len() + 2,
{
    if args.len() < 1 || ident_name(args[0]) is None {
        Err(CompileError::Malformed(Form::New))
    } else if args.len() - 1 > ARITY_LIMIT {
        Err(CompileError::CapacityOverflow)
    } else {
        let argc = (args.len() - 1) as nat;
        match intern(st, ident_name(args[0]).unwrap()) {
            Err(e) => Err(e),
            Ok((s1, i_class)) => match intern(s1, plain_selector("new"@, argc)) {
                Err(e) => Err(e),
                Ok((s2, i_new)) => match c_seq(u, ld, s2, cx, args, 1, Seq::empty(), Seq::empty()) {
                    Err(e) => Err(e),
                    Ok(a) => Ok(
                        Out {
                            st: a.st,
                            cx: a.cx,
                            code: seq![Instr::AllocateVar(i_class), Instr::Dup] + a.code + seq![
                                Instr::Call(i_new, argc as u8),
                                Instr::Pop,
                            ],
                        },
                    ),
                },
            },
        }
    }
}

/// `abort value`: a call of `Fiber.abort`.
pub open spec fn c_abort(st: State, cx: ContextView, args: Seq<Node>) -> Compiled {
    if args.len() != 1 {
        Err(CompileError::Malformed(Form::Abort))
    } else {
        match intern(st, "Fiber"@) {
            Err(e) => Err(e),
            Ok((s1, i_fiber)) => match intern(s1, "abort(_)"@) {
                Err(e) => Err(e),
                Ok((s2, i_abort)) => match c_load_variable(s2, cx, args[0]) {
                    Err(e) => Err(e),
                    Ok((s3, value)) => Ok(
                        Out {
                            st: s3,
                            cx,
                            code: seq![
                                Instr::LoadModuleVar(i_fiber),
                                value,
                                Instr::Call(i_abort, 1),
                            ],
                        },
                    ),
                },
            },
        }
    }
}

/// `yield [value]`: a call of `Fiber.yield`, with "no value" where none is given.
pub open spec fn c_yield(st: State, cx: ContextView, args: Seq<Node>) -> Compiled {
    if args.len() > 1 {
        Err(CompileError::Malformed(Form::Yield))
    } else {
        match intern(st, "Fiber"@) {
            Err(e) => Err(e),
            Ok((s1, i_fiber)) => match intern(s1, "yield(_)"@) {
                Err(e) => Err(e),
                Ok((s2, i_yield)) => match (if args.len() == 1 {
                    c_load_variable(s2, cx, args[0])
                } else {
                    Ok((s2, no_value()))
                }) {
                    Err(e) => Err(e),
                    Ok((s3, value)) => Ok(
                        Out {
                            st: s3,
                            cx,
                            code: seq![
                                Instr::LoadModuleVar(i_fiber),
                                value,
                                Instr::Call(i_yield, 1),
                            ],
                        },
                    ),
                },
            },
        }
    }
}

/// A function without a name: its body becomes a function of the module
/// under a fresh name, and the code at the place of use makes a closure of
/// that function.
#[verifier::opaque]
pub open spec fn c_closure(
    u: Seq<Unit>,
    ld: Seq<usize>,
    st: State,
    cx: ContextView,
    params: Seq<Param>,
    body: Seq<Node>,
) -> Compiled
    decreases fuel(u, ld), body, body.len() + 1,
{
    if params.len() > ARITY_LIMIT || st.closure_id >= CLOSURE_LIMIT {
        Err(CompileError::CapacityOverflow)
    } else {
        let name = closure_selector(st.closure_id);
        match intern(st, name) {
            Err(e) => Err(e),
            Ok((s1, i_closure)) => {
                let s2 = State { closure_id: s1.closure_id + 1, ..s1 };
                let inner = function_context(None, None, Seq::empty(), name, param_names(params));
                match c_seq(u, ld, s2, inner, body, 0, seq![Instr::Pop], Seq::empty()) {
                    Err(e) => Err(e),
                    Ok(b) => match intern(b.st, module_class()) {
                        Err(e) => Err(e),
                        Ok((s3, i_self)) => {
                            let f = FunctionView {
                                selector: name,
                                arity: params.len() as u8,
                                code: body_bytes(b.code),
                                params: slot_names(param_names(params)),
                            };
                            Ok(
                                Out {
                                    st: State { functions: s3.functions.push(f), ..s3 },
                                    cx,
                                    code: seq![
                                        Instr::LoadModuleVar(i_self),
                                        Instr::Closure(i_closure),
                                    ],
                                },
                            )
                        },
                    },
                }
            },
        }
    }
}

/// `fiber (fun () ...)`: a new fiber that runs the closure.
#[verifier::opaque]
pub open spec fn c_fiber(u: Seq<Unit>, ld: Seq<usize>, st: State, cx: ContextView, args: Seq<Node>)
    -> Compiled
    decreases fuel(u, ld), args, args.len() + 2,
{
    if args.len() != 1 {
        Err(CompileError::Malformed(Form::Fiber))
    } else {
        match args[0] {
            Node::Function { name, params, body } => if name@.len() != 0 {
                Err(CompileError::Malformed(Form::Fiber))
            } else {
                match intern(st, "Fiber"@) {
                    Err(e) => Err(e),
                    Ok((s1, i_fiber)) => match intern(s1, "new(_)"@) {
                        Err(e) => Err(e),
                        Ok((s2, i_new)) => match c_closure(u, ld, s2, cx, params@, body@) {
                            Err(e) => Err(e),
                            Ok(c) => Ok(
                                Out {
                                    st: c.st,
                                    cx: c.cx,
                                    code: seq![Instr::LoadModuleVar(i_fiber)] + c.code + seq![
                                        Instr::Call(i_new, 1),
                                    ],
                                },
                            ),
                        },
                    },
                }
            },
            _ => Err(CompileError::Malformed(Form::Fiber)),
        }
    }
}

/// `print` and `write`: the arguments, then a call of the selector that
/// counts all of them. No receiver is among the arguments.
#[verifier::opaque]
pub open spec fn c_print(
    u: Seq<Unit>,
    ld: Seq<usize>,
    st: State,
    cx: ContextView,
    name: Seq<char>,
    args: Seq<Node>,
) -> Compiled
    decreases fuel(u, ld), args, args.len() + 2,
{
    if args.len() > ARITY_LIMIT {
        Err(CompileError::CapacityOverflow)
    } else {
        match intern(st, plain_selector(name, args.len())) {
            Err(e) => Err(e),
            Ok((s1, i_sel)) => match c_seq(u, ld, s1, cx, args, 0, Seq::empty(), Seq::empty()) {
                Err(e) => Err(e),
                Ok(a) => Ok(
                    Out {
                        st: a.st,
                        cx: a.cx,
                        code: a.code + seq![Instr::Call(i_sel, args.len() as u8)],
                    },
                ),
            },
        }
    }
}

/// Whether the module has a function that takes all of `args`.
pub open spec fn module_call(st: State, name: Seq<char>, args: Seq<Node>) -> bool {
    position(selectors(st.functions), call_selector(name, args.len())) is Some
}

/// The number of arguments that a call passes: all of them to a function
/// of the module; else all but the first, which is the receiver.
pub open spec fn passed(st: State, name: Seq<char>, args: Seq<Node>) -> nat {
    if module_call(st, name, args) {
        args.len()
    } else {
        (args.len() - 1) as nat
    }
}

/// A call that is no special form. Where the module has a function with
/// the selector of all the arguments, the module class is the receiver and
/// all arguments are passed. Else the call is dispatched at run time on
/// its first argument, the receiver, and the selector counts the others;
/// such a call without an argument has no receiver and is malformed. The
/// arguments are compiled in order, the receiver among them.
#[verifier::opaque]
pub open spec fn c_dispatch(
    u: Seq<Unit>,
    ld: Seq<usize>,
    st: State,
    cx: ContextView,
    name: Seq<char>,
    args: Seq<Node>,
) -> Compiled
    decreases fuel(u, ld), args, args.len() + 2,
{
    let known = module_call(st, name, args);
    let count = passed(st, name, args);
    if !known && args.len() == 0 {
        Err(CompileError::Malformed(Form::Call))
    } else if count > ARITY_LIMIT {
        Err(CompileError::CapacityOverflow)
    } else {
        let sel = call_selector(name, count);
        match (if known {
            intern(st, module_class())
        } else {
            Ok((st, 0u16))
        }) {
            Err(e) => Err(e),
            Ok((s1, i_self)) => match intern(s1, sel) {
                Err(e) => Err(e),
                Ok((s2, i_sel)) => match c_seq(u, ld, s2, cx, args, 0, Seq::empty(), Seq::empty()) {
                    Err(e) => Err(e),
                    Ok(a) => Ok(
                        Out {
                            st: a.st,
                            cx: a.cx,
                            code: (if known {
                                seq![Instr::LoadModuleVar(i_self)]
                            } else {
                                Seq::empty()
                            }) + a.code + seq![Instr::Call(i_sel, count as u8)],
                        },
                    ),
                },
            },
        }
    }
}

/// What `super` needs before anything is compiled: a method of a class
/// with a declared parent, no more arguments than the method has
/// parameters, and the selector of the method in the pool. Where this
/// fails, nothing has changed.
pub open spec fn super_head(st: State, cx: ContextView, args: Seq<Node>) -> Result<
    (State, u16),
    CompileError,
> {
    if cx.class_name is None || cx.parent_name is None {
        Err(CompileError::UnresolvedSuper)
    } else if args.len() > cx.arity {
        Err(CompileError::ArityMismatch)
    } else {
        intern(st, call_selector(cx.function_name, cx.arity))
    }
}

/// `super args...` inside a method: the receiver, the arguments given, the
/// method's own parameters beyond those, and a call of the parent's method
/// of the same name and arity.
#[verifier::opaque]
pub open spec fn c_super(u: Seq<Unit>, ld: Seq<usize>, st: State, cx: ContextView, args: Seq<Node>)
    -> Compiled
    decreases fuel(u, ld), args, args.len() + 2,
{
    match super_head(st, cx, args) {
        Err(e) => Err(e),
        Ok((s1, i_sel)) => match c_seq(u, ld, s1, cx, args, 0, Seq::empty(), Seq::empty()) {
            Err(e) => Err(e),
            Ok(a) => Ok(
                Out {
                    st: a.st,
                    cx: a.cx,
                    code: seq![Instr::LoadLocalVar(0)] + a.code + local_loads(
                        args.len() + 1,
                        cx.arity + 1,
                    ) + seq![Instr::Super(i_sel, cx.arity as u8)],
                },
            ),
        },
    }
}

/// The rename pair of one argument of a `load` form: a bare name imports a
/// variable under its own name, a call `(name alias)` under another.
pub open spec fn c_alias(st: State, node: Node) -> Result<(State, (u16, u16)), CompileError> {
    match node {
        Node::Identifier(name) => match intern(st, name@) {
            Err(e) => Err(e),
            Ok((s1, i)) => Ok((s1, (i, i))),
        },
        Node::Call { name, args } => if args@.len() < 1 || ident_name(args@[0]) is None {
            Err(CompileError::Malformed(Form::Load))
        } else {
            match intern(st, name@) {
                Err(e) => Err(e),
                Ok((s1, i)) => match intern(s1, ident_name(args@[0]).unwrap()) {
                    Err(e) => Err(e),
                    Ok((s2, j)) => Ok((s2, (i, j))),
                },
            }
        },
        _ => Err(CompileError::Malformed(Form::Load)),
    }
}

/// The rename pairs of the arguments of a `load` form from index `from` on.
pub open spec fn c_aliases(st: State, args: Seq<Node>, from: nat) -> Result<
    (State, Seq<(u16, u16)>),
    CompileError,
>
    decreases args.len() - from,
{
    if from >= args.len() {
        Ok((st, Seq::empty()))
    } else {
        match c_alias(st, args[from as int]) {
            Err(e) => Err(e),
            Ok((s1, pair)) => match c_aliases(s1, args, from + 1) {
                Err(e) => Err(e),
                Ok((s2, pairs)) => Ok((s2, seq![pair] + pairs)),
            },
        }
    }
}

/// `load "name" imports...`: the import instruction, then the top-level
/// code of the named unit, compiled into the same state. A unit that is
/// being loaded cannot be loaded again.
#[verifier::opaque]
pub open spec fn c_load(u: Seq<Unit>, ld: Seq<usize>, st: State, cx: ContextView, args: Seq<Node>)
    -> Compiled
    decreases fuel(u, ld), args, args.len() + 2,
{
    if args.len() < 1 {
        Err(CompileError::Malformed(Form::Load))
    } else {
        match args[0] {
            Node::String(name) => if args.len() - 1 > ALIAS_LIMIT {
                Err(CompileError::CapacityOverflow)
            } else {
                match intern(st, name@) {
                    Err(e) => Err(e),
                    Ok((s1, i_module)) => match c_aliases(s1, args, 1) {
                        Err(e) => Err(e),
                        Ok((s2, pairs)) => match position(unit_names(u), name@) {
                            None => Err(CompileError::MissingModule),
                            Some(k) => if ld.contains(k as usize) || ld.len() >= u.len() || k
                                >= u.len() {
                                Err(CompileError::CircularLoad)
                            } else {
                                match c_unit(u, ld.push(k as usize), s2, u[k as int].nodes@, 0) {
                                    Err(e) => Err(e),
                                    Ok(m) => Ok(
                                        Out {
                                            st: m.st,
                                            cx,
                                            code: seq![Instr::ImportModule(i_module, pairs)]
                                                + m.code,
                                        },
                                    ),
                                }
                            },
                        },
                    },
                }
            },
            _ => Err(CompileError::Malformed(Form::Load)),
        }
    }
}

/// The top-level nodes of a unit from index `from` on. A call is a
/// statement, whose value is dropped (a class declaration leaves none); a
/// function is defined; nothing else can stand at top level.
#[verifier::opaque]
pub open spec fn c_unit(u: Seq<Unit>, ld: Seq<usize>, st: State, nodes: Seq<Node>, from: nat)
    -> Compiled
    decreases fuel(u, ld), nodes, nodes.len() - from,
{
    if from >= nodes.len() {
        Ok(Out { st, cx: top_level_context(), code: Seq::empty() })
    } else {
        match (match nodes[from as int] {
            Node::Call { name, args } => match c_call(
                u,
                ld,
                st,
                top_level_context(),
                name@,
                args@,
            ) {
                Err(e) => Err(e),
                Ok(a) => Ok(
                    Out {
                        st: a.st,
                        cx: a.cx,
                        code: if name@ == "class"@ {
                            a.code
                        } else {
                            a.code.push(Instr::Pop)
                        },
                    },
                ),
            },
            Node::Function { name, params, body } => c_function(u, ld, st, nodes[from as int]),
            _ => Err(CompileError::UnsupportedNode),
        }) {
            Err(e) => Err(e),
            Ok(a) => match c_unit(u, ld, a.st, nodes, from + 1) {
                Err(e) => Err(e),
                Ok(b) => Ok(Out { st: b.st, cx: b.cx, code: a.code + b.code }),
            },
        }
    }
}

/// The index of the first parameter that has a default value, or the number
/// of parameters where none has.
pub open spec fn first_default(params: Seq<Param>) -> nat
    decreases params.len(),
{
    if params.len() == 0 {
        0
    } else if first_default(params.drop_last()) < params.len() - 1 {
        first_default(params.drop_last())
    } else if params.last().default_value is Some {
        (params.len() - 1) as nat
    } else {
        params.len()
    }
}

/// The definition of a function of the module: an entry under the selector
/// of its full arity, and one forwarding entry for each shorter arity that
/// the default values allow.
#[verifier::opaque]
pub open spec fn c_function(u: Seq<Unit>, ld: Seq<usize>, st: State, node: Node) -> Compiled
    decreases fuel(u, ld), node, 2nat,
{
    match node {
        Node::Function { name, params, body } => if name@.len() == 0 {
            Err(CompileError::Malformed(Form::Function))
        } else if params@.len() > ARITY_LIMIT {
            Err(CompileError::CapacityOverflow)
        } else {
            let names = param_names(params@);
            let entry = FunctionView {
                selector: plain_selector(name@, params@.len()),
                arity: params@.len() as u8,
                code: body_bytes(Seq::empty()),
                params: slot_names(names),
            };
            let at = st.functions.len() as int;
            let s1 = State { functions: st.functions.push(entry), ..st };
            let inner = function_context(None, None, Seq::empty(), name@, names);
            match c_seq(u, ld, s1, inner, body@, 0, seq![Instr::Pop], Seq::empty()) {
                Err(e) => Err(e),
                Ok(b) => if at >= b.st.functions.len() {
                    Err(CompileError::CapacityOverflow)
                } else {
                    let done = FunctionView { code: body_bytes(b.code), ..entry };
                    let s2 = State { functions: b.st.functions.update(at, done), ..b.st };
                    match c_overloads(u, ld, s2, name@, params@, first_default(params@)) {
                        Err(e) => Err(e),
                        Ok(o) => Ok(Out { st: o.st, cx: top_level_context(), code: Seq::empty() }),
                    }
                },
            }
        },
        _ => Err(CompileError::UnsupportedNode),
    }
}

/// The forwarding entries of a function for the arities `i`, `i + 1`, ...
/// below its full arity: each passes on its own parameters, evaluates the
/// default values of the others, and calls the full function.
#[verifier::opaque]
pub open spec fn c_overloads(
    u: Seq<Unit>,
    ld: Seq<usize>,
    st: State,
    name: Seq<char>,
    params: Seq<Param>,
    i: nat,
) -> Compiled
    decreases fuel(u, ld), params, params.len() - i + 1,
{
    if i >= params.len() {
        Ok(Out { st, cx: top_level_context(), code: Seq::empty() })
    } else {
        let names = param_names(params).take(i as int);
        let inner = function_context(None, None, Seq::empty(), name, names);
        match intern(st, module_class()) {
            Err(e) => Err(e),
            Ok((s1, i_self)) => match intern(s1, plain_selector(name, params.len())) {
                Err(e) => Err(e),
                Ok((s2, i_sel)) => match c_defaults(u, ld, s2, inner, params, i) {
                    Err(e) => Err(e),
                    Ok(d) => {
                        let code = seq![Instr::LoadModuleVar(i_self)] + local_loads(1, i + 1)
                            + d.code + seq![Instr::Call(i_sel, params.len() as u8)];
                        let f = FunctionView {
                            selector: plain_selector(name, i),
                            arity: i as u8,
                            code: body_bytes(code),
                            params: slot_names(names),
                        };
                        c_overloads(
                            u,
                            ld,
                            State { functions: d.st.functions.push(f), ..d.st },
                            name,
                            params,
                            i + 1,
                        )
                    },
                },
            },
        }
    }
}

/// The default values of the parameters from index `j` on, in order. A
/// parameter without a default behind one that has a default is an error.
#[verifier::opaque]
pub open spec fn c_defaults(
    u: Seq<Unit>,
    ld: Seq<usize>,
    st: State,
    cx: ContextView,
    params: Seq<Param>,
    j: nat,
) -> Compiled
    decreases fuel(u, ld), params, params.len() - j,
{
    if j >= params.len() {
        Ok(Out { st, cx, code: Seq::empty() })
    } else {
        match params[j as int].default_value {
            None => Err(CompileError::Malformed(Form::Function)),
            Some(d) => match c_node(u, ld, st, cx, d) {
                Err(e) => Err(e),
                Ok(a) => match c_defaults(u, ld, a.st, a.cx, params, j + 1) {
                    Err(e) => Err(e),
                    Ok(b) => Ok(Out { st: b.st, cx: b.cx, code: a.code + b.code }),
                },
            },
        }
    }
}

/// The fields that the elements of a class body from index `from` on
/// declare. The default value of a field is compiled without locals and
/// without fields in scope.
#[verifier::opaque]
pub open spec fn c_fields(u: Seq<Unit>, ld: Seq<usize>, st: State, args: Seq<Node>, from: nat)
    -> Result<(State, Seq<FieldView>), CompileError>
    decreases fuel(u, ld), args, args.len() - from + 1,
{
    if from >= args.len() {
        Ok((st, Seq::empty()))
    } else {
        match args[from as int] {
            Node::Function { name, params, body } => c_fields(u, ld, st, args, from + 1),
            Node::Call { name, args: parts } => if name@ != "let"@ {
                Err(CompileError::Malformed(Form::Class))
            } else if parts@.len() != 2 || ident_name(parts@[0]) is None {
                Err(CompileError::Malformed(Form::Let))
            } else {
                match c_node(u, ld, st, field_context(), parts@[1]) {
                    Err(e) => Err(e),
                    Ok(d) => match c_fields(u, ld, d.st, args, from + 1) {
                        Err(e) => Err(e),
                        Ok((s1, rest)) => Ok(
                            (
                                s1,
                                seq![
                                    FieldView {
                                        name: ident_name(parts@[0]).unwrap(),
                                        default: encode(d.code),
                                    },
                                ] + rest,
                            ),
                        ),
                    },
                }
            },
            _ => Err(CompileError::Malformed(Form::Class)),
        }
    }
}

/// The methods that the elements of a class body from index `from` on define.
#[verifier::opaque]
pub open spec fn c_methods(
    u: Seq<Unit>,
    ld: Seq<usize>,
    st: State,
    class_name: Seq<char>,
    parent_name: Option<Seq<char>>,
    fields: Seq<Seq<char>>,
    args: Seq<Node>,
    from: nat,
) -> Result<(State, Seq<FunctionView>), CompileError>
    decreases fuel(u, ld), args, args.len() - from + 1,
{
    if from >= args.len() {
        Ok((st, Seq::empty()))
    } else {
        match args[from as int] {
            Node::Function { name, params, body } => if name@.len() == 0 {
                Err(CompileError::Malformed(Form::Function))
            } else if params@.len() > ARITY_LIMIT {
                Err(CompileError::CapacityOverflow)
            } else {
                let names = param_names(params@);
                let inner = function_context(Some(class_name), parent_name, fields, name@, names);
                match c_seq(u, ld, st, inner, body@, 0, seq![Instr::Pop], Seq::empty()) {
                    Err(e) => Err(e),
                    Ok(b) => match c_methods(
                        u,
                        ld,
                        b.st,
                        class_name,
                        parent_name,
                        fields,
                        args,
                        from + 1,
                    ) {
                        Err(e) => Err(e),
                        Ok((s1, rest)) => Ok(
                            (
                                s1,
                                seq![
                                    FunctionView {
                                        selector: plain_selector(name@, params@.len()),
                                        arity: params@.len() as u8,
                                        code: body_bytes(b.code),
                                        params: slot_names(names),
                                    },
                                ] + rest,
                            ),
                        ),
                    },
                }
            },
            _ => c_methods(u, ld, st, class_name, parent_name, fields, args, from + 1),
        }
    }
}

/// The constructor that a class gets where it defines none without
/// parameters: it returns "no value".
pub open spec fn default_constructor() -> FunctionView {
    FunctionView {
        selector: "new()"@,
        arity: 0,
        code: body_bytes(seq![no_value()]),
        params: seq!["this"@],
    }
}

/// The class table with `class` put in: in place of the class of the same
/// name where there is one, else at the end.
pub open spec fn put_class(cs: Seq<ClassView>, class: ClassView) -> Seq<ClassView> {
    match position(class_names(cs), class.name) {
        Some(i) => cs.update(i as int, class),
        None => cs.push(class),
    }
}

/// Whether the parent of `class` is the root, or stands in the table before
/// the place of `class`.
pub open spec fn can_put_class(cs: Seq<ClassView>, class: ClassView) -> bool {
    class.parent == root_class() || position(
        class_names(cs.take(class_slot(cs, class.name) as int)),
        class.parent,
    ) is Some
}

/// Putting a class in keeps the table well formed.
pub proof fn lemma_put_class(cs: Seq<ClassView>, class: ClassView)
    requires
        table_wf(cs),
        can_put_class(cs, class),
    ensures
        table_wf(put_class(cs, class)),
        put_class(cs, class).len() >= cs.len(),
        forall|i: int|
            0 <= i < put_class(cs, class).len() ==> (#[trigger] put_class(cs, class)[i]) == class
                || (i < cs.len() && put_class(cs, class)[i] == cs[i]),
{
    let out = put_class(cs, class);
    let names = class_names(cs);
    lemma_position(names, class.name);
    match position(names, class.name) {
        Some(at) => {
            assert(names[at as int] == cs[at as int].name);
            assert(class_names(out) =~= names);
            assert forall|i: int| 0 <= i < out.len() implies (#[trigger] out[i]).parent
                == root_class() || position(class_names(out.take(i)), out[i].parent) is Some by {
                assert(class_names(out.take(i)) =~= class_names(cs.take(i)));
                if i != at {
                    assert(out[i] == cs[i]);
                }
            }
        },
        None => {
            assert(class_names(out) =~= names.push(class.name));
            assert(cs.take(cs.len() as int) =~= cs);
            assert forall|i: int| 0 <= i < out.len() implies (#[trigger] out[i]).parent
                == root_class() || position(class_names(out.take(i)), out[i].parent) is Some by {
                assert(class_names(out.take(i)) =~= class_names(cs.take(i)));
                if i < cs.len() {
                    assert(out[i] == cs[i]);
                }
            }
        },
    }
}

/// The index at which [`put_class`] puts a class called `name`.
pub open spec fn class_slot(cs: Seq<ClassView>, name: Seq<char>) -> nat {
    match position(class_names(cs), name) {
        Some(i) => i,
        None => cs.len(),
    }
}

/// `class Name [Parent] members...`: first the fields, then the methods,
/// which see the fields of the class and of its ancestors. The class is put
/// in the table when its members are compiled; its parent must then be the
/// root or stand before it.
#[verifier::opaque]
pub open spec fn c_class(u: Seq<Unit>, ld: Seq<usize>, st: State, cx: ContextView, args: Seq<Node>)
    -> Compiled
    decreases fuel(u, ld), args, args.len() + 2,
{
    if args.len() < 1 || ident_name(args[0]) is None {
        Err(CompileError::Malformed(Form::Class))
    } else {
        let name = ident_name(args[0]).unwrap();
        let declared = if args.len() > 1 {
            ident_name(args[1])
        } else {
            None
        };
        let parent = match declared {
            Some(p) => p,
            None => root_class(),
        };
        let from: nat = if declared is Some {
            2
        } else {
            1
        };
        if name == module_class() {
            Err(CompileError::Malformed(Form::Class))
        } else {
            match c_fields(u, ld, st, args, from) {
                Err(e) => Err(e),
                Ok((s1, fields)) => {
                    let scope = field_names(fields) + inherited_fields(
                        s1.classes,
                        parent,
                        class_slot(s1.classes, name),
                    );
                    match c_methods(u, ld, s1, name, declared, scope, args, from) {
                        Err(e) => Err(e),
                        Ok((s2, methods)) => {
                            let functions = if position(selectors(methods), "new()"@) is Some {
                                methods
                            } else {
                                methods.push(default_constructor())
                            };
                            let class = ClassView { name, parent, fields, functions };
                            if can_put_class(s2.classes, class) {
                                Ok(
                                    Out {
                                        st: State { classes: put_class(s2.classes, class), ..s2 },
                                        cx,
                                        code: Seq::empty(),
                                    },
                                )
                            } else {
                                Err(CompileError::Malformed(Form::Class))
                            }
                        },
                    }
                },
            }
        }
    }
}

/// The entry function of the module: the top-level code, then the load of
/// the constant null as the result.
pub open spec fn main_function(code: Seq<Instr>) -> FunctionView {
    FunctionView {
        selector: "main"@,
        arity: 0,
        code: body_bytes(code.push(Instr::Constant(Value::Null))),
        params: Seq::empty(),
    }
}

/// The state at the end of the compilation of the unit `root` and of all
/// that it loads: its top-level code is the function `main`.
pub open spec fn c_program(u: Seq<Unit>, root: nat) -> Result<State, CompileError> {
    if root >= u.len() {
        Err(CompileError::MissingModule)
    } else {
        match c_unit(u, seq![root as usize], initial_state(), u[root as int].nodes@, 0) {
            Err(e) => Err(e),
            Ok(m) => Ok(State { functions: m.st.functions.push(main_function(m.code)), ..m.st }),
        }
    }
}

} // verus!
