//! A buffer of emitted code that knows which instructions its bytes stand for.

use crate::wire;
use vstd::prelude::*;
use crate::error::CompileError;
use crate::opcode::Instr;
use crate::opcode::MAX_BRANCH;
use crate::opcode::OP_ADD;
use crate::opcode::OP_ALLOCATE_VAR;
use crate::opcode::OP_CALL;
use crate::opcode::OP_CLOSURE;
use crate::opcode::OP_CONSTANT;
use crate::opcode::OP_DIV;
use crate::opcode::OP_EQUAL;
use crate::opcode::OP_FALSE;
use crate::opcode::OP_GREATER_THAN;
use crate::opcode::OP_IMPORT_MODULE;
use crate::opcode::OP_JUMP;
use crate::opcode::OP_JUMP_IF;
use crate::opcode::OP_LOAD_FIELD_THIS;
use crate::opcode::OP_LOAD_LOCAL_VAR;
use crate::opcode::OP_LOAD_MODULE_VAR;
use crate::opcode::OP_LOOP;
use crate::opcode::OP_LOWER_THAN;
use crate::opcode::OP_MUL;
use crate::opcode::OP_NEGATE;
use crate::opcode::OP_NOT;
use crate::opcode::OP_NULL;
use crate::opcode::OP_POP;
use crate::opcode::OP_RETURN;
use crate::opcode::OP_STORE_LOCAL_VAR;
use crate::opcode::OP_STORE_MODULE_VAR;
use crate::opcode::OP_SUB;
use crate::opcode::OP_TRUE;
use crate::opcode::VAL_BOOL;
use crate::opcode::VAL_FLOAT;
use crate::opcode::VAL_INTEGER;
use crate::opcode::VAL_NULL;
use crate::opcode::VAL_STRING;
use crate::opcode::Value;
use crate::opcode::code_bound;
use crate::opcode::code_ok;
use crate::opcode::count_opcodes;
use crate::opcode::encode;
use crate::opcode::encode_aliases;
use crate::opcode::encode_instr;
use crate::opcode::instr_bound;
use crate::opcode::instr_ok;
use crate::opcode::is_bare_op;
use crate::opcode::is_branch_op;
use crate::opcode::is_call_op;
use crate::opcode::is_index_op;
use crate::opcode::le16;
use crate::opcode::lemma_code_bound_concat;
use crate::opcode::lemma_code_bound_push;
use crate::opcode::lemma_count_encoded;
use crate::opcode::lemma_encode_concat;
use crate::opcode::lemma_encode_push;
use crate::table::body_ok;

verus! {

/// The instruction of an opcode without operands.
pub open spec fn bare_instr(op: u8) -> Instr {
    if op == OP_RETURN {
        Instr::Return
    } else if op == OP_NEGATE {
        Instr::Negate
    } else if op == OP_ADD {
        Instr::Add
    } else if op == OP_SUB {
        Instr::Sub
    } else if op == OP_MUL {
        Instr::Mul
    } else if op == OP_DIV {
        Instr::Div
    } else if op == OP_TRUE {
        Instr::True
    } else if op == OP_FALSE {
        Instr::False
    } else if op == OP_NULL {
        Instr::Null
    } else if op == OP_NOT {
        Instr::Not
    } else if op == OP_EQUAL {
        Instr::Equal
    } else if op == OP_LOWER_THAN {
        Instr::LowerThan
    } else if op == OP_GREATER_THAN {
        Instr::GreaterThan
    } else if op == OP_POP {
        Instr::Pop
    } else {
        Instr::Dup
    }
}

/// The instruction of a branch opcode with its instruction count.
pub open spec fn branch_instr(op: u8, n: u8) -> Instr {
    if op == OP_LOOP {
        Instr::Loop(n)
    } else if op == OP_JUMP_IF {
        Instr::JumpIf(n)
    } else if op == OP_JUMP {
        Instr::Jump(n)
    } else {
        Instr::LoopIf(n)
    }
}

/// The instruction of an opcode with a two-byte index.
pub open spec fn index_instr(op: u8, idx: u16) -> Instr {
    if op == OP_CLOSURE {
        Instr::Closure(idx)
    } else if op == OP_LOAD_MODULE_VAR {
        Instr::LoadModuleVar(idx)
    } else if op == OP_STORE_MODULE_VAR {
        Instr::StoreModuleVar(idx)
    } else if op == OP_LOAD_LOCAL_VAR {
        Instr::LoadLocalVar(idx)
    } else if op == OP_STORE_LOCAL_VAR {
        Instr::StoreLocalVar(idx)
    } else if op == OP_ALLOCATE_VAR {
        Instr::AllocateVar(idx)
    } else if op == OP_LOAD_FIELD_THIS {
        Instr::LoadFieldThis(idx)
    } else {
        Instr::StoreFieldThis(idx)
    }
}

/// Opcodes whose index is a local slot, not a pool index.
pub open spec fn is_slot_op(op: u8) -> bool {
    op == OP_LOAD_LOCAL_VAR || op == OP_STORE_LOCAL_VAR
}

/// The instruction of a call opcode with its selector and argument count.
pub open spec fn call_instr(op: u8, idx: u16, argc: u8) -> Instr {
    if op == OP_CALL {
        Instr::Call(idx, argc)
    } else {
        Instr::Super(idx, argc)
    }
}

/// Emitted code: the bytes, and the instructions that they encode.
pub struct Code {
    pub bytes: Vec<u8>,
    pub instrs: Ghost<Seq<Instr>>,
}

impl View for Code {
    type V = Seq<Instr>;

    open spec fn view(&self) -> Seq<Instr> {
        self.instrs@
    }
}

impl Code {
    /// The bytes are the encoding of the instructions.
    pub open spec fn wf(&self) -> bool {
        &&& self.bytes@ == encode(self.instrs@)
        &&& code_ok(self.instrs@)
    }

    /// One more than the largest pool index that the code refers to.
    pub open spec fn bound(&self) -> nat {
        code_bound(self.instrs@)
    }

    /// No code.
    pub fn new() -> (r: Code)
        ensures
            r.wf(),
            r@ == Seq::<Instr>::empty(),
            r.bound() == 0,
    {
        Code { bytes: Vec::new(), instrs: Ghost(Seq::empty()) }
    }

    /// Appends an instruction that has no operands.
    pub(crate) fn emit_bare(&mut self, op: u8)
        requires
            old(self).wf(),
            is_bare_op(op),
        ensures
            final(self).wf(),
            final(self)@ == old(self)@.push(bare_instr(op)),
            final(self).bound() == old(self).bound(),
    {
        let ghost i = bare_instr(op);
        let ghost body = self.instrs@;
        wire::write_u8(&mut self.bytes, op);
        proof {
            lemma_code_bound_push(self.instrs@, i);
            lemma_encode_push(self.instrs@, i);
            assert(encode_instr(i) =~= seq![op]);
            assert(self.bytes@ =~= encode(self.instrs@.push(i)));
            self.instrs@ = self.instrs@.push(i);
        }
    }

    /// Appends the return that ends a function body.
    pub fn finish(&mut self)
        requires
            old(self).wf(),
        ensures
            final(self).wf(),
            final(self)@ == old(self)@.push(Instr::Return),
            final(self).bound() == old(self).bound(),
            body_ok(final(self).bytes@, old(self).bound()),
    {
        let ghost body = self.instrs@;
        self.emit_bare(OP_RETURN);
        assert(code_ok(body) && self.bytes@ == encode(body.push(Instr::Return)));
    }

    /// Appends a branch with its instruction count.
    pub(crate) fn emit_branch(&mut self, op: u8, n: u8)
        requires
            old(self).wf(),
            is_branch_op(op),
        ensures
            final(self).wf(),
            final(self)@ == old(self)@.push(branch_instr(op, n)),
            final(self).bound() == old(self).bound(),
    {
        let ghost i = branch_instr(op, n);
        let ghost before = self.bytes@;
        wire::write_u8(&mut self.bytes, op);
        wire::write_u8(&mut self.bytes, n);
        proof {
            lemma_code_bound_push(self.instrs@, i);
            lemma_encode_push(self.instrs@, i);
            assert(encode_instr(i) =~= seq![op, n]);
            assert(self.bytes@ =~= before + seq![op, n]);
            self.instrs@ = self.instrs@.push(i);
        }
    }

    /// Appends an instruction with a two-byte index.
    pub(crate) fn emit_index(&mut self, op: u8, idx: u16)
        requires
            old(self).wf(),
            is_index_op(op),
        ensures
            final(self).wf(),
            final(self)@ == old(self)@.push(index_instr(op, idx)),
            final(self).bound() == (if is_slot_op(op) || old(self).bound() > idx {
                old(self).bound()
            } else {
                (idx + 1) as nat
            }),
    {
        let ghost i = index_instr(op, idx);
        let ghost before = self.bytes@;
        wire::write_u8(&mut self.bytes, op);
        wire::write_u16(&mut self.bytes, idx);
        proof {
            lemma_code_bound_push(self.instrs@, i);
            lemma_encode_push(self.instrs@, i);
            assert(encode_instr(i) =~= seq![op] + le16(idx));
            assert(self.bytes@ =~= before + (seq![op] + le16(idx)));
            self.instrs@ = self.instrs@.push(i);
        }
    }

    /// Appends a call with its selector and argument count.
    pub(crate) fn emit_call(&mut self, op: u8, idx: u16, argc: u8)
        requires
            old(self).wf(),
            is_call_op(op),
        ensures
            final(self).wf(),
            final(self)@ == old(self)@.push(call_instr(op, idx, argc)),
            final(self).bound() == (if old(self).bound() > idx {
                old(self).bound()
            } else {
                (idx + 1) as nat
            }),
    {
        let ghost i = call_instr(op, idx, argc);
        let ghost before = self.bytes@;
        wire::write_u8(&mut self.bytes, op);
        wire::write_u16(&mut self.bytes, idx);
        wire::write_u8(&mut self.bytes, argc);
        proof {
            lemma_code_bound_push(self.instrs@, i);
            lemma_encode_push(self.instrs@, i);
            assert(encode_instr(i) =~= seq![op] + le16(idx) + seq![argc]);
            assert(self.bytes@ =~= before + (seq![op] + le16(idx) + seq![argc]));
            self.instrs@ = self.instrs@.push(i);
        }
    }

    /// Appends the load of a constant.
    pub fn emit_constant(&mut self, v: Value)
        requires
            old(self).wf(),
        ensures
            final(self).wf(),
            final(self)@ == old(self)@.push(Instr::Constant(v)),
            final(self).bound() == (match v {
                Value::Str(idx) => if old(self).bound() > idx {
                    old(self).bound()
                } else {
                    (idx + 1) as nat
                },
                _ => old(self).bound(),
            }),
    {
        let ghost i = Instr::Constant(v);
        let ghost before = self.bytes@;
        wire::write_u8(&mut self.bytes, OP_CONSTANT);
        match v {
            Value::Null => {
                wire::write_u8(&mut self.bytes, VAL_NULL);
            },
            Value::Bool(b) => {
                wire::write_u8(&mut self.bytes, VAL_BOOL);
                wire::write_u8(&mut self.bytes, if b { 1 } else { 0 });
            },
            Value::Integer(n) => {
                wire::write_u8(&mut self.bytes, VAL_INTEGER);
                wire::write_i32(&mut self.bytes, n);
            },
            Value::Float(bits) => {
                wire::write_u8(&mut self.bytes, VAL_FLOAT);
                wire::write_u32(&mut self.bytes, bits);
            },
            Value::Str(idx) => {
                wire::write_u8(&mut self.bytes, VAL_STRING);
                wire::write_u16(&mut self.bytes, idx);
            },
        }
        proof {
            lemma_encode_push(self.instrs@, i);
            lemma_code_bound_push(self.instrs@, i);
            assert(self.bytes@ =~= before + encode_instr(i));
            self.instrs@ = self.instrs@.push(i);
        }
    }

    /// Appends the import of a module with its rename pairs.
    pub fn emit_import(&mut self, idx: u16, aliases: &Vec<(u16, u16)>)
        requires
            old(self).wf(),
            aliases@.len() <= 0xffff,
        ensures
            final(self).wf(),
            final(self)@ == old(self)@.push(Instr::ImportModule(idx, aliases@)),
            final(self).bound() == (if old(self).bound() >= instr_bound(
                Instr::ImportModule(idx, aliases@),
            ) {
                old(self).bound()
            } else {
                instr_bound(Instr::ImportModule(idx, aliases@))
            }),
    {
        let ghost i = Instr::ImportModule(idx, aliases@);
        let ghost before = self.bytes@;
        wire::write_u8(&mut self.bytes, OP_IMPORT_MODULE);
        wire::write_u16(&mut self.bytes, idx);
        wire::write_u16(&mut self.bytes, aliases.len() as u16);
        let ghost head = self.bytes@;
        let mut k: usize = 0;
        while k < aliases.len()
            invariant
                k <= aliases.len(),
                self.bytes@ == head + encode_aliases(aliases@.take(k as int)),
                self.instrs == old(self).instrs,
            decreases aliases.len() - k,
        {
            let pair = aliases[k];
            wire::write_u16(&mut self.bytes, pair.0);
            wire::write_u16(&mut self.bytes, pair.1);
            proof {
                let t = aliases@.take(k + 1);
                assert(t.drop_last() =~= aliases@.take(k as int));
                assert(t.last() == pair);
                assert(self.bytes@ =~= head + encode_aliases(t));
            }
            k += 1;
        }
        proof {
            assert(aliases@.take(k as int) =~= aliases@);
            lemma_encode_push(self.instrs@, i);
            lemma_code_bound_push(self.instrs@, i);
            assert(self.bytes@ =~= before + encode_instr(i));
            assert forall|j: int| 0 <= j < self.instrs@.push(i).len() implies instr_ok(
                #[trigger] self.instrs@.push(i)[j],
            ) by {
                if j < self.instrs@.len() {
                    assert(self.instrs@.push(i)[j] == self.instrs@[j]);
                }
            }
            self.instrs@ = self.instrs@.push(i);
        }
    }

    /// Appends the code in `other`.
    pub fn append(&mut self, other: Code)
        requires
            old(self).wf(),
            other.wf(),
        ensures
            final(self).wf(),
            final(self)@ == old(self)@ + other@,
            final(self).bound() == (if old(self).bound() >= other.bound() {
                old(self).bound()
            } else {
                other.bound()
            }),
    {
        let mut other = other;
        let ghost a = self.instrs@;
        let ghost b = other.instrs@;
        self.bytes.append(&mut other.bytes);
        proof {
            lemma_encode_concat(a, b);
            lemma_code_bound_concat(a, b);
            assert forall|j: int| 0 <= j < (a + b).len() implies instr_ok(#[trigger] (a + b)[j]) by {
                if j < a.len() {
                    assert((a + b)[j] == a[j]);
                } else {
                    assert((a + b)[j] == b[j - a.len()]);
                }
            }
            self.instrs@ = a + b;
        }
    }

    /// The number of instructions, found by decoding the bytes.
    pub fn count(&self) -> (r: usize)
        requires
            self.wf(),
        ensures
            r == self@.len(),
    {
        proof {
            lemma_count_encoded(self.instrs@);
        }
        match count_opcodes(self.bytes.as_slice()) {
            Some(n) => n,
            None => 0,
        }
    }

    /// The operand of a branch over this code and `extra` more instructions.
    /// Fails where the span exceeds what one byte can count.
    pub fn branch_length(&self, extra: u8) -> (r: Result<u8, CompileError>)
        requires
            self.wf(),
        ensures
            match r {
                Ok(n) => n == self@.len() + extra,
                Err(e) => e == CompileError::CapacityOverflow && self@.len() + extra > MAX_BRANCH,
            },
    {
        let n = self.count();
        if n > MAX_BRANCH || n + extra as usize > MAX_BRANCH {
            Err(CompileError::CapacityOverflow)
        } else {
            Ok((n + extra as usize) as u8)
        }
    }
}

} // verus!
