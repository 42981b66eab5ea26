use cpu::cpu::decode;

fn window(bytes: &[u8]) -> Vec<u8> {
    let mut v = bytes.to_vec();
    while v.len() < 8 {
        v.push(0);
    }
    v
}

#[test]
fn decode_rew_big_endian_immediate() {
    let i = decode(window(&[6, 0x12, 0x34, 0x56, 0x78, 9])).unwrap();
    assert_eq!(i.opcode, 6);
    assert_eq!(i.argv_len, 5);
    assert_eq!(i.argv, vec![0x12345678, 9]);
}

#[test]
fn decode_fun_big_endian_immediate() {
    let i = decode(window(&[2, 0, 0, 1, 0])).unwrap();
    assert_eq!(i.opcode, 2);
    assert_eq!(i.argv_len, 4);
    assert_eq!(i.argv, vec![256]);
}

#[test]
fn decode_register_operands_one_byte_each() {
    let i = decode(window(&[20, 10, 11, 12])).unwrap();
    assert_eq!(i.opcode, 20);
    assert_eq!(i.argv_len, 3);
    assert_eq!(i.argv, vec![10, 11, 12]);
}

#[test]
fn decode_no_operand_opcodes() {
    let nop = decode(window(&[0, 1, 2, 3])).unwrap();
    assert_eq!(nop.opcode, 0);
    assert_eq!(nop.argv_len, 0);
    assert_eq!(nop.argv, Vec::<u32>::new());

    let spo = decode(window(&[13, 1, 2, 3])).unwrap();
    assert_eq!(spo.opcode, 13);
    assert_eq!(spo.argv_len, 0);
}

#[test]
fn decode_operand_lengths_match_table() {
    let expected: [(u8, u8); 25] = [
        (0, 0),
        (1, 1),
        (2, 4),
        (3, 3),
        (4, 2),
        (5, 3),
        (6, 5),
        (7, 2),
        (8, 2),
        (9, 2),
        (10, 2),
        (11, 1),
        (12, 1),
        (13, 0),
        (14, 3),
        (15, 3),
        (16, 3),
        (17, 3),
        (18, 3),
        (19, 3),
        (20, 3),
        (21, 3),
        (22, 3),
        (23, 3),
        (24, 3),
    ];
    for (opcode, length) in expected {
        let i = decode(window(&[opcode, 1, 2, 3, 4, 5, 6, 7])).unwrap();
        assert_eq!(i.argv_len, length);
    }
}

#[test]
fn decode_rejects_undefined_opcodes() {
    assert!(decode(window(&[25])).is_err());
    assert!(decode(window(&[200])).is_err());
    assert!(decode(window(&[255])).is_err());
}

#[test]
fn decode_same_window_twice_is_identical() {
    let w = window(&[6, 0xDE, 0xAD, 0xBE, 0xEF, 30]);
    let first = decode(w.clone()).unwrap();
    let second = decode(w).unwrap();
    assert_eq!(first.opcode, second.opcode);
    assert_eq!(first.argv_len, second.argv_len);
    assert_eq!(first.argv, second.argv);
}
