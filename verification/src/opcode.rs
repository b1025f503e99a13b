//! The instruction set of the target machine: opcodes, the byte encoding of
//! each instruction, and the decoder that counts the instructions in a byte
//! string.
//!
//! Branch operands of the machine count instructions, not bytes, and
//! instructions differ in width. The model therefore has two levels: a
//! sequence of [`Instr`] values says what a piece of code is, and [`encode`]
//! says which bytes stand for it. [`count_instrs`] goes the other way, from
//! bytes to a number of instructions, with no knowledge of how the bytes
//! were made.

use vstd::prelude::*;

verus! {

// The opcodes. Each is one byte; the operand bytes that follow it are given
// by `encode_instr`.
pub const OP_RETURN: u8 = 1;
pub const OP_CONSTANT: u8 = 2;
pub const OP_NEGATE: u8 = 3;
pub const OP_ADD: u8 = 4;
pub const OP_SUB: u8 = 5;
pub const OP_MUL: u8 = 6;
pub const OP_DIV: u8 = 7;
pub const OP_TRUE: u8 = 8;
pub const OP_FALSE: u8 = 9;
pub const OP_NULL: u8 = 10;
pub const OP_NOT: u8 = 11;
pub const OP_EQUAL: u8 = 12;
pub const OP_LOWER_THAN: u8 = 13;
pub const OP_GREATER_THAN: u8 = 14;
pub const OP_CLOSURE: u8 = 15;
pub const OP_POP: u8 = 16;
pub const OP_LOAD_MODULE_VAR: u8 = 17;
pub const OP_STORE_MODULE_VAR: u8 = 18;
pub const OP_CALL: u8 = 19;
pub const OP_LOOP: u8 = 20;
pub const OP_LOAD_LOCAL_VAR: u8 = 21;
pub const OP_STORE_LOCAL_VAR: u8 = 22;
pub const OP_ALLOCATE_VAR: u8 = 23;
pub const OP_LOAD_FIELD_THIS: u8 = 24;
pub const OP_STORE_FIELD_THIS: u8 = 25;
pub const OP_JUMP_IF: u8 = 26;
pub const OP_JUMP: u8 = 27;
pub const OP_DUP: u8 = 28;
pub const OP_LOOP_IF: u8 = 29;
pub const OP_IMPORT_MODULE: u8 = 30;
pub const OP_SUPER: u8 = 31;

// The kind tags of constants.
pub const VAL_NULL: u8 = 1;
pub const VAL_BOOL: u8 = 2;
pub const VAL_INTEGER: u8 = 3;
pub const VAL_FLOAT: u8 = 4;
pub const VAL_STRING: u8 = 5;

/// The largest number of instructions that a branch can span.
pub const MAX_BRANCH: usize = 255;

/// A constant that a load instruction pushes. `Float` holds the bit pattern
/// of the number, `Str` the index of the string in the constant pool.
pub enum Value {
    Null,
    Bool(bool),
    Integer(i32),
    Float(u32),
    Str(u16),
}

/// One instruction of the machine, with its operands.
pub enum Instr {
    Return,
    Constant(Value),
    Negate,
    Add,
    Sub,
    Mul,
    Div,
    True,
    False,
    Null,
    Not,
    Equal,
    LowerThan,
    GreaterThan,
    Closure(u16),
    Pop,
    LoadModuleVar(u16),
    StoreModuleVar(u16),
    Call(u16, u8),
    Loop(u8),
    LoadLocalVar(u16),
    StoreLocalVar(u16),
    AllocateVar(u16),
    LoadFieldThis(u16),
    StoreFieldThis(u16),
    JumpIf(u8),
    Jump(u8),
    Dup,
    LoopIf(u8),
    /// Imports a module by the pool index of its name; each pair renames one
    /// imported variable (pool indices of the name there and the name here).
    ImportModule(u16, Seq<(u16, u16)>),
    Super(u16, u8),
}

/// The two bytes of `n`, low byte first.
pub open spec fn le16(n: u16) -> Seq<u8> {
    seq![(n % 256) as u8, (n / 256) as u8]
}

/// The four bytes of `n`, lowest byte first.
pub open spec fn le32(n: u32) -> Seq<u8> {
    seq![
        (n % 256) as u8,
        (n / 256 % 256) as u8,
        (n / 65536 % 256) as u8,
        (n / 16777216) as u8,
    ]
}

/// The two's-complement bit pattern of a signed 32-bit integer.
pub open spec fn i32_bits(i: i32) -> u32 {
    if i >= 0 {
        i as u32
    } else {
        (i + 0x1_0000_0000) as u32
    }
}

/// The bytes of a constant: its kind tag, then its payload.
pub open spec fn encode_value(v: Value) -> Seq<u8> {
    match v {
        Value::Null => seq![VAL_NULL],
        Value::Bool(b) => seq![VAL_BOOL, if b { 1u8 } else { 0u8 }],
        Value::Integer(i) => seq![VAL_INTEGER] + le32(i32_bits(i)),
        Value::Float(bits) => seq![VAL_FLOAT] + le32(bits),
        Value::Str(idx) => seq![VAL_STRING] + le16(idx),
    }
}

/// The bytes of the rename pairs of an import, in order.
pub open spec fn encode_aliases(aliases: Seq<(u16, u16)>) -> Seq<u8>
    decreases aliases.len(),
{
    if aliases.len() == 0 {
        Seq::empty()
    } else {
        encode_aliases(aliases.drop_last()) + le16(aliases.last().0) + le16(aliases.last().1)
    }
}

/// Whether the operands of an instruction fit the widths of its encoding.
pub open spec fn instr_ok(i: Instr) -> bool {
    match i {
        Instr::ImportModule(_, aliases) => aliases.len() <= 0xffff,
        _ => true,
    }
}

/// Whether every instruction of a sequence can be encoded.
pub open spec fn code_ok(code: Seq<Instr>) -> bool {
    forall|k: int| 0 <= k < code.len() ==> instr_ok(#[trigger] code[k])
}

/// The bytes of one instruction: its opcode, then its operands.
pub open spec fn encode_instr(i: Instr) -> Seq<u8> {
    match i {
        Instr::Return => seq![OP_RETURN],
        Instr::Constant(v) => seq![OP_CONSTANT] + encode_value(v),
        Instr::Negate => seq![OP_NEGATE],
        Instr::Add => seq![OP_ADD],
        Instr::Sub => seq![OP_SUB],
        Instr::Mul => seq![OP_MUL],
        Instr::Div => seq![OP_DIV],
        Instr::True => seq![OP_TRUE],
        Instr::False => seq![OP_FALSE],
        Instr::Null => seq![OP_NULL],
        Instr::Not => seq![OP_NOT],
        Instr::Equal => seq![OP_EQUAL],
        Instr::LowerThan => seq![OP_LOWER_THAN],
        Instr::GreaterThan => seq![OP_GREATER_THAN],
        Instr::Closure(idx) => seq![OP_CLOSURE] + le16(idx),
        Instr::Pop => seq![OP_POP],
        Instr::LoadModuleVar(idx) => seq![OP_LOAD_MODULE_VAR] + le16(idx),
        Instr::StoreModuleVar(idx) => seq![OP_STORE_MODULE_VAR] + le16(idx),
        Instr::Call(idx, argc) => seq![OP_CALL] + le16(idx) + seq![argc],
        Instr::Loop(n) => seq![OP_LOOP, n],
        Instr::LoadLocalVar(slot) => seq![OP_LOAD_LOCAL_VAR] + le16(slot),
        Instr::StoreLocalVar(slot) => seq![OP_STORE_LOCAL_VAR] + le16(slot),
        Instr::AllocateVar(idx) => seq![OP_ALLOCATE_VAR] + le16(idx),
        Instr::LoadFieldThis(idx) => seq![OP_LOAD_FIELD_THIS] + le16(idx),
        Instr::StoreFieldThis(idx) => seq![OP_STORE_FIELD_THIS] + le16(idx),
        Instr::JumpIf(n) => seq![OP_JUMP_IF, n],
        Instr::Jump(n) => seq![OP_JUMP, n],
        Instr::Dup => seq![OP_DUP],
        Instr::LoopIf(n) => seq![OP_LOOP_IF, n],
        Instr::ImportModule(idx, aliases) => seq![OP_IMPORT_MODULE] + le16(idx) + le16(
            aliases.len() as u16,
        ) + encode_aliases(aliases),
        Instr::Super(idx, argc) => seq![OP_SUPER] + le16(idx) + seq![argc],
    }
}

/// The bytes of a sequence of instructions, one after the other.
pub open spec fn encode(code: Seq<Instr>) -> Seq<u8>
    decreases code.len(),
{
    if code.len() == 0 {
        Seq::empty()
    } else {
        encode_instr(code.first()) + encode(code.drop_first())
    }
}

/// One more than the largest pool index among rename pairs; zero where
/// there is none.
pub open spec fn pairs_bound(pairs: Seq<(u16, u16)>) -> nat
    decreases pairs.len(),
{
    if pairs.len() == 0 {
        0
    } else {
        let rest = pairs_bound(pairs.drop_last());
        let a = pairs.last().0 + 1;
        let b = pairs.last().1 + 1;
        if rest >= a && rest >= b {
            rest
        } else if a >= b {
            a as nat
        } else {
            b as nat
        }
    }
}

/// One more than the largest pool index that an instruction refers to; zero
/// where it refers to none. Local slots are no pool indices.
pub open spec fn instr_bound(i: Instr) -> nat {
    match i {
        Instr::Constant(Value::Str(idx)) => (idx + 1) as nat,
        Instr::Closure(idx) => (idx + 1) as nat,
        Instr::LoadModuleVar(idx) => (idx + 1) as nat,
        Instr::StoreModuleVar(idx) => (idx + 1) as nat,
        Instr::Call(idx, _) => (idx + 1) as nat,
        Instr::AllocateVar(idx) => (idx + 1) as nat,
        Instr::LoadFieldThis(idx) => (idx + 1) as nat,
        Instr::StoreFieldThis(idx) => (idx + 1) as nat,
        Instr::Super(idx, _) => (idx + 1) as nat,
        Instr::ImportModule(idx, pairs) => if pairs_bound(pairs) > idx {
            pairs_bound(pairs)
        } else {
            (idx + 1) as nat
        },
        _ => 0,
    }
}

/// One more than the largest pool index that a piece of code refers to:
/// the smallest pool that the code can run against.
pub open spec fn code_bound(code: Seq<Instr>) -> nat
    decreases code.len(),
{
    if code.len() == 0 {
        0
    } else if code_bound(code.drop_last()) >= instr_bound(code.last()) {
        code_bound(code.drop_last())
    } else {
        instr_bound(code.last())
    }
}

/// Whether every pool index in `code` is below `n`.
pub open spec fn refs_ok(code: Seq<Instr>, n: nat) -> bool {
    forall|k: int| 0 <= k < code.len() ==> instr_bound(#[trigger] code[k]) <= n
}

/// The bound of code is the largest bound of its instructions.
pub proof fn lemma_code_bound(code: Seq<Instr>, n: nat)
    ensures
        code_bound(code) <= n <==> refs_ok(code, n),
    decreases code.len(),
{
    if code.len() > 0 {
        let front = code.drop_last();
        lemma_code_bound(front, n);
        if refs_ok(code, n) {
            assert forall|k: int| 0 <= k < front.len() implies instr_bound(#[trigger] front[k])
                <= n by {
                assert(front[k] == code[k]);
            }
            assert(instr_bound(code[code.len() - 1]) <= n);
        }
        if code_bound(code) <= n {
            assert forall|k: int| 0 <= k < code.len() implies instr_bound(#[trigger] code[k])
                <= n by {
                if k < front.len() {
                    assert(front[k] == code[k]);
                }
            }
        }
    }
}

/// The bound of two pieces of code joined is the larger of their bounds.
pub proof fn lemma_code_bound_concat(a: Seq<Instr>, b: Seq<Instr>)
    ensures
        code_bound(a + b) == if code_bound(a) >= code_bound(b) {
            code_bound(a)
        } else {
            code_bound(b)
        },
    decreases b.len(),
{
    if b.len() == 0 {
        assert(a + b =~= a);
    } else {
        assert((a + b).drop_last() =~= a + b.drop_last());
        assert((a + b).last() == b.last());
        lemma_code_bound_concat(a, b.drop_last());
    }
}

/// The bound of code with one more instruction.
pub proof fn lemma_code_bound_push(a: Seq<Instr>, i: Instr)
    ensures
        code_bound(a.push(i)) == if code_bound(a) >= instr_bound(i) {
            code_bound(a)
        } else {
            instr_bound(i)
        },
{
    assert(a.push(i).drop_last() =~= a);
}

/// Opcodes that stand alone, without operand bytes.
pub open spec fn is_bare_op(op: u8) -> bool {
    op == OP_RETURN || op == OP_NEGATE || op == OP_ADD || op == OP_SUB || op == OP_MUL || op
        == OP_DIV || op == OP_TRUE || op == OP_FALSE || op == OP_NULL || op == OP_NOT || op
        == OP_EQUAL || op == OP_LOWER_THAN || op == OP_GREATER_THAN || op == OP_POP || op
        == OP_DUP
}

/// Opcodes followed by a one-byte instruction count.
pub open spec fn is_branch_op(op: u8) -> bool {
    op == OP_LOOP || op == OP_JUMP_IF || op == OP_JUMP || op == OP_LOOP_IF
}

/// Opcodes followed by a two-byte index.
pub open spec fn is_index_op(op: u8) -> bool {
    op == OP_CLOSURE || op == OP_LOAD_MODULE_VAR || op == OP_STORE_MODULE_VAR || op
        == OP_LOAD_LOCAL_VAR || op == OP_STORE_LOCAL_VAR || op == OP_ALLOCATE_VAR || op
        == OP_LOAD_FIELD_THIS || op == OP_STORE_FIELD_THIS
}

/// Opcodes followed by a two-byte selector index and a one-byte argument count.
pub open spec fn is_call_op(op: u8) -> bool {
    op == OP_CALL || op == OP_SUPER
}

/// The width in bytes of the instruction that `bytes` starts with, opcode
/// included, as far as the opcode (and for a constant its kind tag, for an
/// import its pair count) tells. `None` where the first byte is no opcode, or
/// the bytes that decide the width are missing.
pub open spec fn instr_width(bytes: Seq<u8>) -> Option<nat> {
    if bytes.len() == 0 {
        None
    } else if is_bare_op(bytes[0]) {
        Some(1)
    } else if is_branch_op(bytes[0]) {
        Some(2)
    } else if is_index_op(bytes[0]) {
        Some(3)
    } else if is_call_op(bytes[0]) {
        Some(4)
    } else if bytes[0] == OP_CONSTANT {
        if bytes.len() < 2 {
            None
        } else if bytes[1] == VAL_NULL {
            Some(2)
        } else if bytes[1] == VAL_BOOL {
            Some(3)
        } else if bytes[1] == VAL_INTEGER || bytes[1] == VAL_FLOAT {
            Some(6)
        } else if bytes[1] == VAL_STRING {
            Some(4)
        } else {
            None
        }
    } else if bytes[0] == OP_IMPORT_MODULE {
        if bytes.len() < 5 {
            None
        } else {
            Some((5 + 4 * (bytes[3] + 256 * bytes[4])) as nat)
        }
    } else {
        None
    }
}

/// The number of instructions that `bytes` consists of; `None` where the
/// bytes are not a sequence of whole instructions.
pub open spec fn count_instrs(bytes: Seq<u8>) -> Option<nat>
    decreases bytes.len(),
{
    if bytes.len() == 0 {
        Some(0)
    } else {
        match instr_width(bytes) {
            None => None,
            Some(w) => if w == 0 || w > bytes.len() {
                None
            } else {
                match count_instrs(bytes.subrange(w as int, bytes.len() as int)) {
                    None => None,
                    Some(n) => Some(n + 1),
                }
            },
        }
    }
}

/// Whether `bytes` is a sequence of whole instructions.
pub open spec fn well_formed_code(bytes: Seq<u8>) -> bool {
    count_instrs(bytes) is Some
}

/// The rename pairs of an import take four bytes each.
pub proof fn lemma_aliases_len(aliases: Seq<(u16, u16)>)
    ensures
        encode_aliases(aliases).len() == 4 * aliases.len(),
    decreases aliases.len(),
{
    if aliases.len() > 0 {
        lemma_aliases_len(aliases.drop_last());
    }
}

/// The decoder finds, from the first bytes of an encoded instruction alone,
/// the width that the encoder gave it, whatever follows.
pub proof fn lemma_width_of_encoded(i: Instr, rest: Seq<u8>)
    requires
        instr_ok(i),
    ensures
        instr_width(encode_instr(i) + rest) == Some(encode_instr(i).len()),
        encode_instr(i).len() > 0,
{
    let e = encode_instr(i);
    let b = e + rest;
    match i {
        Instr::Constant(v) => {
            match v {
                Value::Null => {
                    assert(b[0] == OP_CONSTANT && b[1] == VAL_NULL);
                },
                Value::Bool(x) => {
                    assert(b[0] == OP_CONSTANT && b[1] == VAL_BOOL);
                },
                Value::Integer(x) => {
                    assert(b[0] == OP_CONSTANT && b[1] == VAL_INTEGER);
                },
                Value::Float(x) => {
                    assert(b[0] == OP_CONSTANT && b[1] == VAL_FLOAT);
                },
                Value::Str(x) => {
                    assert(b[0] == OP_CONSTANT && b[1] == VAL_STRING);
                },
            }
        },
        Instr::ImportModule(idx, aliases) => {
            lemma_aliases_len(aliases);
            let n = aliases.len() as u16;
            assert(b[0] == OP_IMPORT_MODULE);
            assert(b[3] == (n % 256) as u8);
            assert(b[4] == (n / 256) as u8);
            assert(b[3] + 256 * b[4] == aliases.len());
        },
        _ => {
            assert(b[0] == e[0]);
        },
    }
}

/// Encoding distributes over concatenation.
pub proof fn lemma_encode_concat(a: Seq<Instr>, b: Seq<Instr>)
    ensures
        encode(a + b) == encode(a) + encode(b),
    decreases a.len(),
{
    if a.len() == 0 {
        assert(a + b =~= b);
        assert(encode(a) + encode(b) =~= encode(b));
    } else {
        assert((a + b).first() == a.first());
        assert((a + b).drop_first() =~= a.drop_first() + b);
        lemma_encode_concat(a.drop_first(), b);
        assert(encode(a + b) =~= encode(a) + encode(b));
    }
}

/// The encoding of a single instruction is that instruction's bytes.
pub proof fn lemma_encode_one(i: Instr)
    ensures
        encode(seq![i]) == encode_instr(i),
{
    let s = seq![i];
    assert(s.drop_first() =~= Seq::<Instr>::empty());
    assert(encode(s.drop_first()) =~= Seq::<u8>::empty());
    assert(encode(s) =~= encode_instr(i));
}

/// Appending an instruction appends its bytes.
pub proof fn lemma_encode_push(a: Seq<Instr>, i: Instr)
    ensures
        encode(a.push(i)) == encode(a) + encode_instr(i),
{
    assert(a.push(i) =~= a + seq![i]);
    lemma_encode_concat(a, seq![i]);
    lemma_encode_one(i);
}

/// Decoding inverts encoding as far as the count goes: the bytes of `n`
/// instructions decode to `n` instructions.
pub proof fn lemma_count_encoded(code: Seq<Instr>)
    requires
        code_ok(code),
    ensures
        count_instrs(encode(code)) == Some(code.len()),
    decreases code.len(),
{
    if code.len() > 0 {
        let rest = code.drop_first();
        let e = encode_instr(code.first());
        let b = encode(code);
        assert(code_ok(rest)) by {
            assert forall|k: int| 0 <= k < rest.len() implies instr_ok(#[trigger] rest[k]) by {
                assert(rest[k] == code[k + 1]);
            }
        }
        lemma_width_of_encoded(code.first(), encode(rest));
        lemma_count_encoded(rest);
        assert(b.subrange(e.len() as int, b.len() as int) =~= encode(rest));
    }
}

/// Counting adds up over concatenation of whole instructions.
pub proof fn lemma_count_concat(a: Seq<u8>, b: Seq<u8>)
    requires
        well_formed_code(a),
        well_formed_code(b),
    ensures
        count_instrs(a + b) == Some(count_instrs(a).unwrap() + count_instrs(b).unwrap()),
    decreases a.len(),
{
    if a.len() == 0 {
        assert(a + b =~= b);
    } else {
        let w = instr_width(a).unwrap();
        let ab = a + b;
        lemma_width_prefix(a, b);
        let ra = a.subrange(w as int, a.len() as int);
        assert(ab.subrange(w as int, ab.len() as int) =~= ra + b);
        lemma_count_concat(ra, b);
    }
}

/// The width of the first instruction depends only on the bytes that a
/// well-formed prefix holds.
pub proof fn lemma_width_prefix(a: Seq<u8>, b: Seq<u8>)
    requires
        a.len() > 0,
        well_formed_code(a),
    ensures
        instr_width(a + b) == instr_width(a),
{
    let ab = a + b;
    let w = instr_width(a).unwrap();
    assert(ab[0] == a[0]);
    if a[0] == OP_CONSTANT {
        assert(ab[1] == a[1]);
    }
    if a[0] == OP_IMPORT_MODULE {
        assert(ab[3] == a[3]);
        assert(ab[4] == a[4]);
    }
}

/// Whether `op` is an opcode without operand bytes.
pub fn bare_op(op: u8) -> (r: bool)
    ensures
        r == is_bare_op(op),
{
    op == OP_RETURN || op == OP_NEGATE || op == OP_ADD || op == OP_SUB || op == OP_MUL || op
        == OP_DIV || op == OP_TRUE || op == OP_FALSE || op == OP_NULL || op == OP_NOT || op
        == OP_EQUAL || op == OP_LOWER_THAN || op == OP_GREATER_THAN || op == OP_POP || op
        == OP_DUP
}

/// Whether `op` is an opcode followed by a one-byte instruction count.
pub fn branch_op(op: u8) -> (r: bool)
    ensures
        r == is_branch_op(op),
{
    op == OP_LOOP || op == OP_JUMP_IF || op == OP_JUMP || op == OP_LOOP_IF
}

/// Whether `op` is an opcode followed by a two-byte index.
pub fn index_op(op: u8) -> (r: bool)
    ensures
        r == is_index_op(op),
{
    op == OP_CLOSURE || op == OP_LOAD_MODULE_VAR || op == OP_STORE_MODULE_VAR || op
        == OP_LOAD_LOCAL_VAR || op == OP_STORE_LOCAL_VAR || op == OP_ALLOCATE_VAR || op
        == OP_LOAD_FIELD_THIS || op == OP_STORE_FIELD_THIS
}

/// The width of the instruction that starts at `at`, by the width table;
/// `None` where no instruction starts there.
pub fn width_at(buf: &[u8], at: usize) -> (r: Option<usize>)
    ensures
        match r {
            Some(w) => at < buf@.len() && instr_width(buf@.subrange(at as int, buf@.len() as int))
                == Some(w as nat),
            None => at >= buf@.len() || instr_width(buf@.subrange(at as int, buf@.len() as int))
                is None,
        },
{
    if at >= buf.len() {
        return None;
    }
    let ghost tail = buf@.subrange(at as int, buf@.len() as int);
    let left: usize = buf.len() - at;
    let op = buf[at];
    assert(tail[0] == op);
    if bare_op(op) {
        Some(1)
    } else if branch_op(op) {
        Some(2)
    } else if index_op(op) {
        Some(3)
    } else if op == OP_CALL || op == OP_SUPER {
        Some(4)
    } else if op == OP_CONSTANT {
        if left < 2 {
            None
        } else {
            let kind = buf[at + 1];
            assert(tail[1] == kind);
            if kind == VAL_NULL {
                Some(2)
            } else if kind == VAL_BOOL {
                Some(3)
            } else if kind == VAL_INTEGER || kind == VAL_FLOAT {
                Some(6)
            } else if kind == VAL_STRING {
                Some(4)
            } else {
                None
            }
        }
    } else if op == OP_IMPORT_MODULE {
        if left < 5 {
            None
        } else {
            let lo: usize = buf[at + 3] as usize;
            let hi: usize = buf[at + 4] as usize;
            assert(tail[3] == lo && tail[4] == hi);
            Some(5 + 4 * (lo + 256 * hi))
        }
    } else {
        None
    }
}

/// Counts the instructions in `buf` by walking it with the width table.
/// `None` where `buf` is not a sequence of whole instructions.
pub fn count_opcodes(buf: &[u8]) -> (r: Option<usize>)
    ensures
        match r {
            Some(n) => count_instrs(buf@) == Some(n as nat),
            None => count_instrs(buf@) is None,
        },
{
    let mut total: usize = 0;
    let mut i: usize = 0;
    assert(buf@.subrange(0, buf@.len() as int) =~= buf@);
    while i < buf.len()
        invariant
            i <= buf.len(),
            total <= i,
            count_instrs(buf@) == match count_instrs(buf@.subrange(i as int, buf@.len() as int)) {
                Some(n) => Some((n + total) as nat),
                None => None,
            },
        decreases buf.len() - i,
    {
        let ghost tail = buf@.subrange(i as int, buf@.len() as int);
        match width_at(buf, i) {
            None => {
                return None;
            },
            Some(w) => {
                if w > buf.len() - i {
                    return None;
                }
                assert(tail.subrange(w as int, tail.len() as int) =~= buf@.subrange(
                    i + w,
                    buf@.len() as int,
                ));
                i += w;
                total += 1;
            },
        }
    }
    assert(buf@.subrange(i as int, buf@.len() as int).len() == 0);
    Some(total)
}

} // verus!
