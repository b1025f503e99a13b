use simple_lisp::code::Code;
use simple_lisp::error::CompileError;
use simple_lisp::opcode::count_opcodes;
use simple_lisp::opcode::width_at;
use simple_lisp::opcode::Value;

#[test]
fn counts_instructions_not_bytes() {
    assert_eq!(count_opcodes(&[]), Some(0));
    assert_eq!(count_opcodes(&[1]), Some(1));
    assert_eq!(count_opcodes(&[2, 3, 0, 0, 0, 0, 16]), Some(2));
    assert_eq!(count_opcodes(&[17, 0, 0, 19, 1, 0, 2, 26, 9, 1]), Some(4));
}

#[test]
fn every_opcode_has_its_width() {
    let widths: [(u8, usize); 30] = [
        (1, 1), (3, 1), (4, 1), (5, 1), (6, 1), (7, 1), (8, 1), (9, 1), (10, 1), (11, 1), (12, 1),
        (13, 1), (14, 1), (15, 3), (16, 1), (17, 3), (18, 3), (19, 4), (20, 2), (21, 3), (22, 3),
        (23, 3), (24, 3), (25, 3), (26, 2), (27, 2), (28, 1), (29, 2), (31, 4), (30, 5),
    ];
    for (op, width) in widths {
        let mut buf = vec![op];
        buf.resize(width, 0);
        assert_eq!(width_at(&buf, 0), Some(width));
        assert_eq!(count_opcodes(&buf), Some(1));
        if width > 1 {
            assert_eq!(count_opcodes(&buf[..width - 1]), None);
        }
    }
}

#[test]
fn constants_have_the_width_of_their_kind() {
    assert_eq!(count_opcodes(&[2, 1]), Some(1));
    assert_eq!(count_opcodes(&[2, 2, 1]), Some(1));
    assert_eq!(count_opcodes(&[2, 3, 0, 0, 0, 0]), Some(1));
    assert_eq!(count_opcodes(&[2, 4, 0, 0, 0, 0]), Some(1));
    assert_eq!(count_opcodes(&[2, 5, 0, 0]), Some(1));
    assert_eq!(count_opcodes(&[2]), None);
    assert_eq!(count_opcodes(&[2, 0]), None);
    assert_eq!(count_opcodes(&[2, 6, 0, 0, 0, 0]), None);
    assert_eq!(count_opcodes(&[2, 3, 0, 0, 0]), None);
}

#[test]
fn import_width_depends_on_its_pair_count() {
    assert_eq!(width_at(&[30, 0, 0, 2, 0], 0), Some(13));
    assert_eq!(width_at(&[30, 0, 0, 0, 1], 0), Some(5 + 4 * 256));
    assert_eq!(count_opcodes(&[30, 0, 0, 1, 0, 9, 9, 9, 9, 16]), Some(2));
    assert_eq!(count_opcodes(&[30, 0, 0, 1, 0, 9, 9, 9]), None);
    assert_eq!(count_opcodes(&[30, 0, 0, 1]), None);
}

#[test]
fn unknown_opcodes_do_not_decode() {
    assert_eq!(count_opcodes(&[0]), None);
    assert_eq!(count_opcodes(&[32]), None);
    assert_eq!(count_opcodes(&[255]), None);
    assert_eq!(count_opcodes(&[1, 0]), None);
    assert_eq!(width_at(&[1, 99], 1), None);
    assert_eq!(width_at(&[1, 99], 2), None);
    assert_eq!(width_at(&[], 0), None);
}

#[test]
fn code_buffer_encodes_each_instruction() {
    let mut code = Code::new();
    code.emit_constant(Value::Integer(-1));
    code.emit_constant(Value::Float(0x3f80_0000));
    code.emit_constant(Value::Str(0x0102));
    code.emit_constant(Value::Bool(true));
    code.emit_constant(Value::Null);
    code.emit_import(0x0a0b, &vec![(1, 2), (0x0304, 0x0506)]);
    code.finish();
    assert_eq!(
        code.bytes,
        vec![
            2, 3, 0xff, 0xff, 0xff, 0xff, 2, 4, 0, 0, 0x80, 0x3f, 2, 5, 2, 1, 2, 2, 1, 2, 1, 30, 0x0b,
            0x0a, 2, 0, 1, 0, 2, 0, 4, 3, 6, 5, 1
        ]
    );
    assert_eq!(code.count(), 7);
    assert_eq!(code.branch_length(0), Ok(7));
    assert_eq!(code.branch_length(248), Ok(255));
    assert_eq!(code.branch_length(249), Err(CompileError::CapacityOverflow));
}

#[test]
fn appended_code_keeps_its_order() {
    let mut a = Code::new();
    a.emit_constant(Value::Bool(true));
    let mut b = Code::new();
    b.emit_constant(Value::Null);
    b.finish();
    a.append(b);
    assert_eq!(a.bytes, vec![2, 2, 1, 2, 1, 1]);
    assert_eq!(a.count(), 3);
}
