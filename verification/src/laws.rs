//! Laws of the compiler: what holds of every program, proved from the rules.

use vstd::prelude::*;
use crate::error::CompileError;
use crate::error::Form;
use crate::loader::Unit;
use crate::loader::unit_names;
use crate::node::Node;
use crate::opcode::Instr;
use crate::opcode::OP_JUMP;
use crate::opcode::OP_JUMP_IF;
use crate::opcode::OP_LOOP;
use crate::opcode::OP_NOT;
use crate::opcode::OP_RETURN;
use crate::opcode::code_bound;
use crate::opcode::code_ok;
use crate::opcode::count_instrs;
use crate::opcode::encode;
use crate::opcode::instr_ok;
use crate::opcode::OP_NULL;
use crate::opcode::lemma_count_encoded;
use crate::opcode::lemma_encode_concat;
use crate::opcode::lemma_encode_one;
use crate::opcode::lemma_encode_push;
use crate::pool::position;
use crate::rules::Out;
use crate::rules::State;
use crate::rules::c_alias;
use crate::rules::c_aliases;
use crate::rules::c_if;
use crate::rules::c_load;
use crate::rules::c_node;
use crate::rules::c_seq;
use crate::rules::c_unit;
use crate::rules::c_while;
use crate::rules::intern;
use crate::rules::state_wf;
use crate::scope::ContextView;
use crate::table::body_ok;

verus! {

/// The parts of encodable code are encodable.
pub proof fn lemma_code_ok_parts(a: Seq<Instr>, b: Seq<Instr>)
    requires
        code_ok(a + b),
    ensures
        code_ok(a),
        code_ok(b),
{
    assert forall|k: int| 0 <= k < a.len() implies instr_ok(#[trigger] a[k]) by {
        assert((a + b)[k] == a[k]);
    }
    assert forall|k: int| 0 <= k < b.len() implies instr_ok(#[trigger] b[k]) by {
        assert((a + b)[a.len() + k] == b[k]);
    }
}

/// The bytes of a function body are whole instructions, at least one, and
/// the last byte is the return instruction.
pub proof fn law_function_ends_in_return(code: Seq<u8>, n: nat)
    requires
        body_ok(code, n),
    ensures
        count_instrs(code) is Some,
        count_instrs(code).unwrap() >= 1,
        code.len() >= 1,
        code.last() == OP_RETURN,
{
    let body = choose|body: Seq<Instr>|
        code_ok(body) && code_bound(body) <= n && code == encode(
            #[trigger] body.push(Instr::Return),
        );
    let all = body.push(Instr::Return);
    assert forall|k: int| 0 <= k < all.len() implies instr_ok(#[trigger] all[k]) by {
        if k < body.len() {
            assert(all[k] == body[k]);
        }
    }
    lemma_count_encoded(all);
    lemma_encode_push(body, Instr::Return);
    assert(encode(all) =~= encode(body) + seq![OP_RETURN]);
}

/// What holds of every state of a run holds of its functions one by one:
/// each function of the module and each method of each class is whole
/// instructions that end in a return, and each refers to strings of the
/// pool only.
pub proof fn law_state_functions(st: State, i: int)
    requires
        state_wf(st),
        0 <= i < st.functions.len(),
    ensures
        body_ok(st.functions[i].code, st.pool.len()),
        count_instrs(st.functions[i].code) is Some,
        st.functions[i].code.last() == OP_RETURN,
{
    law_function_ends_in_return(st.functions[i].code, st.pool.len());
}

/// Branch lengths of `if` count instructions: in the bytes of a compiled
/// `if`, the operand of the conditional branch is the number of instructions
/// that a decoder finds in the first arm and the jump behind it, and the
/// operand of that jump is the number of instructions that it finds in the
/// second arm.
pub proof fn law_if_branch_lengths(
    u: Seq<Unit>,
    ld: Seq<usize>,
    st: State,
    cx: ContextView,
    args: Seq<Node>,
)
    requires
        c_if(u, ld, st, cx, args) is Ok,
        code_ok(c_if(u, ld, st, cx, args).unwrap().code),
    ensures
        args.len() == 3,
        ({
            let c = c_node(u, ld, st, cx, args[0]).unwrap();
            let t = c_node(u, ld, c.st, c.cx, args[1]).unwrap();
            let f = c_node(u, ld, t.st, t.cx, args[2]).unwrap();
            let out = c_if(u, ld, st, cx, args).unwrap();
            let skip = (t.code.len() + 1) as u8;
            let jump = f.code.len() as u8;
            &&& out.code == c.code + seq![Instr::JumpIf(skip)] + t.code + seq![Instr::Jump(jump)]
                + f.code
            &&& encode(out.code) == encode(c.code) + seq![OP_JUMP_IF, skip] + encode(t.code)
                + seq![OP_JUMP, jump] + encode(f.code)
            &&& count_instrs(encode(t.code) + seq![OP_JUMP, jump]) == Some(skip as nat)
            &&& count_instrs(encode(f.code)) == Some(jump as nat)
        }),
{
    reveal_with_fuel(c_if, 1);
    reveal_with_fuel(c_node, 1);
    let c = c_node(u, ld, st, cx, args[0]).unwrap();
    let t = c_node(u, ld, c.st, c.cx, args[1]).unwrap();
    let f = c_node(u, ld, t.st, t.cx, args[2]).unwrap();
    let out = c_if(u, ld, st, cx, args).unwrap();
    let skip = (t.code.len() + 1) as u8;
    let jump = f.code.len() as u8;
    let branch = seq![Instr::JumpIf(skip)];
    let over = seq![Instr::Jump(jump)];
    lemma_code_ok_parts(c.code + branch + t.code + over, f.code);
    lemma_code_ok_parts(c.code + branch + t.code, over);
    lemma_code_ok_parts(c.code + branch, t.code);
    lemma_encode_concat(c.code + branch + t.code + over, f.code);
    lemma_encode_concat(c.code + branch + t.code, over);
    lemma_encode_concat(c.code + branch, t.code);
    lemma_encode_concat(c.code, branch);
    lemma_encode_one(Instr::JumpIf(skip));
    lemma_encode_one(Instr::Jump(jump));
    assert(encode(branch) =~= seq![OP_JUMP_IF, skip]);
    assert(encode(over) =~= seq![OP_JUMP, jump]);
    let arm = t.code + over;
    assert forall|k: int| 0 <= k < arm.len() implies instr_ok(#[trigger] arm[k]) by {
        if k < t.code.len() {
            assert(arm[k] == t.code[k]);
        }
    }
    lemma_encode_concat(t.code, over);
    lemma_count_encoded(arm);
    lemma_count_encoded(f.code);
}

/// Branch lengths of `while` count instructions: the operand of the
/// conditional branch is the number of instructions in the body and the
/// loop instruction behind it, and the operand of the loop instruction is
/// the number of instructions from the head of the loop to itself.
pub proof fn law_while_branch_lengths(
    u: Seq<Unit>,
    ld: Seq<usize>,
    st: State,
    cx: ContextView,
    args: Seq<Node>,
)
    requires
        c_while(u, ld, st, cx, args) is Ok,
        code_ok(c_while(u, ld, st, cx, args).unwrap().code),
    ensures
        args.len() >= 1,
        ({
            let c = c_node(u, ld, st, cx, args[0]).unwrap();
            let b = c_seq(u, ld, c.st, c.cx, args, 1, seq![Instr::Pop], Seq::empty()).unwrap();
            let out = c_while(u, ld, st, cx, args).unwrap();
            let skip = (b.code.len() + 1) as u8;
            let back = (c.code.len() + 2 + b.code.len()) as u8;
            &&& encode(out.code) == encode(c.code) + seq![OP_NOT, OP_JUMP_IF, skip] + encode(
                b.code,
            ) + seq![OP_LOOP, back, OP_NULL]
            &&& count_instrs(encode(b.code) + seq![OP_LOOP, back]) == Some(skip as nat)
            &&& count_instrs(encode(c.code) + seq![OP_NOT, OP_JUMP_IF, skip] + encode(b.code))
                == Some(back as nat)
        }),
{
    reveal_with_fuel(c_while, 1);
    reveal_with_fuel(c_node, 1);
    reveal_with_fuel(c_seq, 1);
    let c = c_node(u, ld, st, cx, args[0]).unwrap();
    let b = c_seq(u, ld, c.st, c.cx, args, 1, seq![Instr::Pop], Seq::empty()).unwrap();
    let out = c_while(u, ld, st, cx, args).unwrap();
    let skip = (b.code.len() + 1) as u8;
    let back = (c.code.len() + 2 + b.code.len()) as u8;
    let head = seq![Instr::Not, Instr::JumpIf(skip)];
    let tail = seq![Instr::Loop(back), Instr::Null];
    let looped = seq![Instr::Loop(back)];
    let nothing = seq![Instr::Null];
    assert(tail =~= looped + nothing);
    assert(out.code =~= (c.code + head + b.code + looped) + nothing);
    lemma_code_ok_parts(c.code + head + b.code + looped, nothing);
    lemma_code_ok_parts(c.code + head + b.code, looped);
    lemma_code_ok_parts(c.code + head, b.code);
    lemma_code_ok_parts(c.code, head);
    lemma_encode_concat(c.code + head + b.code + looped, nothing);
    lemma_encode_concat(c.code + head + b.code, looped);
    lemma_encode_concat(c.code + head, b.code);
    lemma_encode_concat(c.code, head);
    lemma_encode_one(Instr::Loop(back));
    lemma_encode_one(Instr::Null);
    assert(head =~= seq![Instr::Not] + seq![Instr::JumpIf(skip)]);
    lemma_encode_concat(seq![Instr::Not], seq![Instr::JumpIf(skip)]);
    lemma_encode_one(Instr::Not);
    lemma_encode_one(Instr::JumpIf(skip));
    assert(encode(head) =~= seq![OP_NOT, OP_JUMP_IF, skip]);
    assert(encode(looped) =~= seq![OP_LOOP, back]);
    assert(encode(nothing) =~= seq![OP_NULL]);
    assert(encode(out.code) =~= encode(c.code) + seq![OP_NOT, OP_JUMP_IF, skip] + encode(b.code)
        + seq![OP_LOOP, back, OP_NULL]);
    let body = b.code + looped;
    assert forall|k: int| 0 <= k < body.len() implies instr_ok(#[trigger] body[k]) by {
        if k < b.code.len() {
            assert(body[k] == b.code[k]);
        }
    }
    lemma_encode_concat(b.code, looped);
    lemma_count_encoded(body);
    lemma_count_encoded(c.code + head + b.code);
}

/// A unit that is being loaded cannot be loaded again: a `load` of such a
/// unit fails. Where the form itself is in order, the failure is the
/// circular load.
pub proof fn law_circular_load(
    u: Seq<Unit>,
    ld: Seq<usize>,
    st: State,
    cx: ContextView,
    args: Seq<Node>,
    k: nat,
)
    requires
        args.len() >= 1,
        args[0] matches Node::String(name) && position(unit_names(u), name@) == Some(k),
        ld.contains(k as usize),
    ensures
        c_load(u, ld, st, cx, args) is Err,
        c_load(u, ld, st, cx, args) == Err::<Out, CompileError>(
            CompileError::CircularLoad,
        ) || c_load(u, ld, st, cx, args) == Err::<Out, CompileError>(
            CompileError::CapacityOverflow,
        ) || c_load(u, ld, st, cx, args) == Err::<Out, CompileError>(
            CompileError::Malformed(Form::Load),
        ),
{
    reveal_with_fuel(c_load, 1);
    reveal_with_fuel(c_unit, 1);
    lemma_load_errors(st, args);
}

/// The units that are being loaded never outnumber the units: where the
/// loading stack names each unit at most once, a unit that is not on it
/// finds room. So a load fails as circular only where the unit is on the
/// stack.
pub proof fn law_loading_fits(n: usize, ld: Seq<usize>, k: usize)
    requires
        ld.no_duplicates(),
        forall|i: int| 0 <= i < ld.len() ==> ld[i] < n,
        k < n,
        !ld.contains(k),
    ensures
        ld.len() < n,
{
    let all = Set::new(|x: usize| x < n as nat);
    let taken = ld.to_set();
    lemma_usize_range(n as nat);
    ld.unique_seq_to_set();
    assert(taken.subset_of(all.remove(k))) by {
        assert forall|x: usize| taken.contains(x) implies all.remove(k).contains(x) by {
            let i = choose|i: int| 0 <= i < ld.len() && ld[i] == x;
            assert(ld[i] < n);
            assert(ld.contains(x));
        }
    }
    assert(all.contains(k));
    vstd::set_lib::lemma_len_subset(taken, all.remove(k));
}

/// There are `n` machine integers below `n`.
pub proof fn lemma_usize_range(n: nat)
    requires
        n <= usize::MAX + 1,
    ensures
        Set::new(|x: usize| x < n).finite(),
        Set::new(|x: usize| x < n).len() == n,
    decreases n,
{
    let s = Set::new(|x: usize| x < n);
    if n == 0 {
        assert(s =~= Set::<usize>::empty());
    } else {
        let m = (n - 1) as nat;
        let t = Set::new(|x: usize| x < m);
        lemma_usize_range(m);
        assert(s =~= t.insert(m as usize));
    }
}

/// The rename pairs of a `load` fail, if they fail, for want of room in
/// the pool or for their form.
pub proof fn lemma_alias_errors(st: State, args: Seq<Node>, from: nat)
    ensures
        match c_aliases(st, args, from) {
            Ok(_) => true,
            Err(e) => e == CompileError::CapacityOverflow || e == CompileError::Malformed(
                Form::Load,
            ),
        },
    decreases args.len() - from,
{
    if from < args.len() {
        match c_alias(st, args[from as int]) {
            Ok((s1, pair)) => {
                lemma_alias_errors(s1, args, from + 1);
            },
            Err(e) => {},
        }
    }
}

/// What precedes the lookup of the unit in a `load` fails, if it fails,
/// for want of room in the pool or for the form of the rename pairs.
pub proof fn lemma_load_errors(st: State, args: Seq<Node>)
    requires
        args.len() >= 1,
        args[0] is String,
    ensures
        match intern(st, args[0]->String_0@) {
            Err(e) => e == CompileError::CapacityOverflow,
            Ok((s1, i)) => match c_aliases(s1, args, 1) {
                Ok(_) => true,
                Err(e) => e == CompileError::CapacityOverflow || e == CompileError::Malformed(
                    Form::Load,
                ),
            },
        },
{
    match intern(st, args[0]->String_0@) {
        Err(e) => {},
        Ok((s1, i)) => {
            lemma_alias_errors(s1, args, 1);
        },
    }
}

} // verus!
