use cpu::cpu::{execute, tick, Fault, Instruction};
use cpu::memory::{MappedFile, Memory};

fn fresh_registers() -> Vec<u32> {
    vec![0; 36]
}

fn small_memory(size: usize) -> Memory<MappedFile> {
    Memory::new(size)
}

fn load_image(memory: &mut Memory<MappedFile>, image: &[u8]) {
    for (offset, byte) in image.iter().enumerate() {
        memory.set(offset as u32, *byte);
    }
}

/// Runs a three-operand arithmetic or bitwise opcode on two register
/// values and returns the destination register.
fn run_alu(opcode: u32, x: u32, y: u32) -> u32 {
    let mut registers = fresh_registers();
    registers[10] = x;
    registers[11] = y;
    let mut memory = small_memory(16);
    let mut stack: Vec<u32> = Vec::new();
    let instruction = Instruction { opcode, argv_len: 3, argv: vec![10, 11, 12] };
    execute(instruction, &mut registers, &mut memory, &mut stack).unwrap();
    registers[12]
}

#[test]
fn rew_tick_writes_immediate_and_advances_pc() {
    let mut memory = small_memory(64);
    load_image(&mut memory, &[6, 0x00, 0x01, 0x02, 0x03, 9]);
    let mut registers = fresh_registers();
    let mut stack: Vec<u32> = Vec::new();

    tick(&mut registers, &mut memory, &mut stack).unwrap();

    assert_eq!(registers[9], 0x00010203);
    assert_eq!(registers[0], 6);
    assert_eq!(registers[3], 0);
    assert_eq!(registers[4], 1);
}

#[test]
fn rew_into_flag_register_is_overwritten_by_flag_reset() {
    let mut memory = small_memory(64);
    load_image(&mut memory, &[6, 0, 0, 0, 7, 3]);
    let mut registers = fresh_registers();
    let mut stack: Vec<u32> = Vec::new();

    tick(&mut registers, &mut memory, &mut stack).unwrap();

    assert_eq!(registers[3], 0);
    assert_eq!(registers[4], 1);
}

#[test]
fn add_exact_and_saturating() {
    assert_eq!(run_alu(20, 2, 3), 5);
    assert_eq!(run_alu(20, 0x7FFFFFFF, 1), 0x80000000);
    assert_eq!(run_alu(20, 0xFFFFFFFF, 1), 0);
}

#[test]
fn sub_exact_and_below_zero() {
    assert_eq!(run_alu(21, 10, 3), 7);
    assert_eq!(run_alu(21, 3, 10), 0);
    assert_eq!(run_alu(21, 0xFFFFFFFF, 0), 0);
}

#[test]
fn mul_exact_and_saturating() {
    assert_eq!(run_alu(22, 6, 7), 42);
    assert_eq!(run_alu(22, 0x10000, 0x10000), 0);
    assert_eq!(run_alu(22, 0x40000000, 2), 0x80000000);
}

#[test]
fn div_truncates_toward_zero() {
    assert_eq!(run_alu(23, 7, 2), 3);
    assert_eq!(run_alu(23, 1, 3), 0);
}

#[test]
fn div_by_zero_faults() {
    let mut registers = fresh_registers();
    registers[10] = 5;
    let mut memory = small_memory(16);
    let mut stack: Vec<u32> = Vec::new();
    let instruction = Instruction { opcode: 23, argv_len: 3, argv: vec![10, 11, 12] };
    let res = execute(instruction, &mut registers, &mut memory, &mut stack);
    assert_eq!(res, Err(Fault::DivideByZero));
}

#[test]
fn shifts_clamp_and_keep_the_boundary() {
    assert_eq!(run_alu(14, 1, 4), 16);
    assert_eq!(run_alu(14, 1, 31), 0x80000000);
    assert_eq!(run_alu(14, 1, 32), 0);
    assert_eq!(run_alu(14, 3, 31), 0);
    assert_eq!(run_alu(15, 0x80000000, 31), 1);
    assert_eq!(run_alu(15, 0xFFFFFFFF, 0), 0);
    assert_eq!(run_alu(15, 0xFFFFFFFF, 1), 0x7FFFFFFF);
}

#[test]
fn bitwise_ops_clamp() {
    assert_eq!(run_alu(17, 0xF0, 0x3C), 0x30);
    assert_eq!(run_alu(18, 0xF0, 0x0F), 0xFF);
    assert_eq!(run_alu(19, 0xFF, 0x0F), 0xF0);
    assert_eq!(run_alu(18, 0xFFFFFFFF, 0), 0);
}

#[test]
fn bitwise_not_clamps_wide_results() {
    let mut registers = fresh_registers();
    registers[10] = 0xFFFFFFFF;
    let mut memory = small_memory(16);
    let mut stack: Vec<u32> = Vec::new();
    let instruction = Instruction { opcode: 16, argv_len: 3, argv: vec![10, 12, 0] };
    execute(instruction, &mut registers, &mut memory, &mut stack).unwrap();
    assert_eq!(registers[12], 0);

    let mut registers = fresh_registers();
    registers[10] = 0xFFFFFF00;
    let instruction = Instruction { opcode: 16, argv_len: 3, argv: vec![10, 12, 0] };
    execute(instruction, &mut registers, &mut memory, &mut stack).unwrap();
    assert_eq!(registers[12], 0xFF);
}

#[test]
fn comparisons_and_moves() {
    assert_eq!(run_alu(3, 5, 6), 0);

    let mut registers = fresh_registers();
    registers[10] = 4;
    registers[11] = 4;
    let mut memory = small_memory(16);
    let mut stack: Vec<u32> = Vec::new();
    execute(
        Instruction { opcode: 3, argv_len: 3, argv: vec![10, 11, 12] },
        &mut registers,
        &mut memory,
        &mut stack,
    )
    .unwrap();
    assert_eq!(registers[12], 1);

    registers[13] = 9;
    execute(
        Instruction { opcode: 5, argv_len: 3, argv: vec![13, 11, 14] },
        &mut registers,
        &mut memory,
        &mut stack,
    )
    .unwrap();
    assert_eq!(registers[14], 1);

    execute(
        Instruction { opcode: 4, argv_len: 2, argv: vec![15, 16] },
        &mut registers,
        &mut memory,
        &mut stack,
    )
    .unwrap();
    assert_eq!(registers[16], 1);

    execute(
        Instruction { opcode: 8, argv_len: 2, argv: vec![13, 17] },
        &mut registers,
        &mut memory,
        &mut stack,
    )
    .unwrap();
    assert_eq!(registers[17], 9);
}

#[test]
fn fun_then_taken_ret_restores_pc_and_empties_stack() {
    let mut registers = fresh_registers();
    registers[0] = 40;
    let mut memory = small_memory(16);
    let mut stack: Vec<u32> = Vec::new();

    execute(
        Instruction { opcode: 2, argv_len: 4, argv: vec![100] },
        &mut registers,
        &mut memory,
        &mut stack,
    )
    .unwrap();
    assert_eq!(registers[0], 100);
    assert_eq!(stack, vec![45]);

    registers[2] = 1;
    execute(
        Instruction { opcode: 1, argv_len: 1, argv: vec![2] },
        &mut registers,
        &mut memory,
        &mut stack,
    )
    .unwrap();
    assert_eq!(registers[0], 45);
    assert!(stack.is_empty());
}

#[test]
fn ret_not_taken_keeps_pc_and_stack() {
    let mut registers = fresh_registers();
    registers[0] = 10;
    registers[2] = 0;
    let mut memory = small_memory(16);
    let mut stack: Vec<u32> = vec![77];

    execute(
        Instruction { opcode: 1, argv_len: 1, argv: vec![2] },
        &mut registers,
        &mut memory,
        &mut stack,
    )
    .unwrap();
    assert_eq!(registers[0], 12);
    assert_eq!(stack, vec![77]);
}

#[test]
fn ret_on_empty_stack_faults() {
    let mut registers = fresh_registers();
    registers[2] = 1;
    let mut memory = small_memory(16);
    let mut stack: Vec<u32> = Vec::new();

    let res = execute(
        Instruction { opcode: 1, argv_len: 1, argv: vec![2] },
        &mut registers,
        &mut memory,
        &mut stack,
    );
    assert_eq!(res, Err(Fault::NothingToBranchTo));
}

#[test]
fn mew_out_of_bounds_sets_status_and_skips_flags() {
    let mut registers = fresh_registers();
    registers[10] = 100;
    registers[11] = 0xAB;
    let mut memory = small_memory(16);
    let mut stack: Vec<u32> = Vec::new();

    execute(
        Instruction { opcode: 7, argv_len: 2, argv: vec![10, 11] },
        &mut registers,
        &mut memory,
        &mut stack,
    )
    .unwrap();
    assert_eq!(registers[1], 2);
    assert_eq!(registers[3], 0);
    assert_eq!(registers[4], 0);
}

#[test]
fn mew_in_bounds_writes_low_byte() {
    let mut registers = fresh_registers();
    registers[10] = 5;
    registers[11] = 0x1FF;
    let mut memory = small_memory(16);
    let mut stack: Vec<u32> = Vec::new();

    execute(
        Instruction { opcode: 7, argv_len: 2, argv: vec![10, 11] },
        &mut registers,
        &mut memory,
        &mut stack,
    )
    .unwrap();
    assert_eq!(memory.get(5), 0xFF);
    assert_eq!(registers[4], 1);
}

#[test]
fn mcp_out_of_bounds_sets_sentinel_and_skips_flags() {
    let mut registers = fresh_registers();
    registers[10] = 100;
    let mut memory = small_memory(16);
    let mut stack: Vec<u32> = Vec::new();

    execute(
        Instruction { opcode: 10, argv_len: 2, argv: vec![10, 11] },
        &mut registers,
        &mut memory,
        &mut stack,
    )
    .unwrap();
    assert_eq!(registers[11], 255);
    assert_eq!(registers[1], 1);
    assert_eq!(registers[4], 0);
}

#[test]
fn mcp_in_bounds_copies_byte() {
    let mut registers = fresh_registers();
    registers[10] = 3;
    let mut memory = small_memory(16);
    memory.set(3, 0x5A);
    let mut stack: Vec<u32> = Vec::new();

    execute(
        Instruction { opcode: 10, argv_len: 2, argv: vec![10, 11] },
        &mut registers,
        &mut memory,
        &mut stack,
    )
    .unwrap();
    assert_eq!(registers[11], 0x5A);
}

#[test]
fn mmv_copies_between_addresses() {
    let mut registers = fresh_registers();
    registers[10] = 8;
    registers[11] = 3;
    let mut memory = small_memory(16);
    memory.set(3, 0x77);
    let mut stack: Vec<u32> = Vec::new();

    execute(
        Instruction { opcode: 9, argv_len: 2, argv: vec![10, 11] },
        &mut registers,
        &mut memory,
        &mut stack,
    )
    .unwrap();
    assert_eq!(memory.get(8), 0x77);
}

#[test]
fn spu_outside_window_faults() {
    let mut memory = small_memory(16);
    let mut stack: Vec<u32> = Vec::new();

    let mut registers = fresh_registers();
    registers[1] = 10000;
    let res = execute(
        Instruction { opcode: 11, argv_len: 1, argv: vec![5] },
        &mut registers,
        &mut memory,
        &mut stack,
    );
    assert_eq!(res, Err(Fault::StackLimitOverThreshold));

    let mut registers = fresh_registers();
    registers[1] = 8190;
    let res = execute(
        Instruction { opcode: 11, argv_len: 1, argv: vec![5] },
        &mut registers,
        &mut memory,
        &mut stack,
    );
    assert_eq!(res, Err(Fault::StackLimitUnderThreshold));
}

#[test]
fn spu_pushes_low_byte_and_increments_cursor() {
    let mut registers = fresh_registers();
    registers[1] = 8191;
    registers[5] = 0x1234;
    let mut memory = small_memory(16384);
    let mut stack: Vec<u32> = Vec::new();

    execute(
        Instruction { opcode: 11, argv_len: 1, argv: vec![5] },
        &mut registers,
        &mut memory,
        &mut stack,
    )
    .unwrap();
    assert_eq!(memory.get(8191), 0x34);
    assert_eq!(registers[1], 8192);
}

#[test]
fn spu_out_of_bounds_memory_sets_status() {
    let mut registers = fresh_registers();
    registers[1] = 9000;
    let mut memory = small_memory(16);
    let mut stack: Vec<u32> = Vec::new();

    execute(
        Instruction { opcode: 11, argv_len: 1, argv: vec![5] },
        &mut registers,
        &mut memory,
        &mut stack,
    )
    .unwrap();
    assert_eq!(registers[1], 2);
    assert_eq!(registers[4], 0);
}

#[test]
fn spe_peeks_byte_at_cursor() {
    let mut registers = fresh_registers();
    registers[1] = 9000;
    let mut memory = small_memory(16384);
    memory.set(9000, 0x42);
    let mut stack: Vec<u32> = Vec::new();

    execute(
        Instruction { opcode: 12, argv_len: 1, argv: vec![6] },
        &mut registers,
        &mut memory,
        &mut stack,
    )
    .unwrap();
    assert_eq!(registers[6], 0x42);
}

#[test]
fn spo_decrements_cursor_and_faults_at_zero() {
    let mut registers = fresh_registers();
    registers[1] = 8192;
    let mut memory = small_memory(16);
    let mut stack: Vec<u32> = Vec::new();

    execute(
        Instruction { opcode: 13, argv_len: 0, argv: vec![] },
        &mut registers,
        &mut memory,
        &mut stack,
    )
    .unwrap();
    assert_eq!(registers[1], 8191);

    let mut registers = fresh_registers();
    let res = execute(
        Instruction { opcode: 13, argv_len: 0, argv: vec![] },
        &mut registers,
        &mut memory,
        &mut stack,
    );
    assert_eq!(res, Err(Fault::StackCursorUnderflow));
}

#[test]
fn register_index_out_of_range_faults() {
    let mut registers = fresh_registers();
    let mut memory = small_memory(16);
    let mut stack: Vec<u32> = Vec::new();

    let res = execute(
        Instruction { opcode: 3, argv_len: 3, argv: vec![40, 1, 2] },
        &mut registers,
        &mut memory,
        &mut stack,
    );
    assert_eq!(res, Err(Fault::RegisterIndexOutOfRange));
}

#[test]
fn executing_the_remainder_opcode_is_illegal() {
    let mut registers = fresh_registers();
    let mut memory = small_memory(16);
    let mut stack: Vec<u32> = Vec::new();

    let res = execute(
        Instruction { opcode: 24, argv_len: 3, argv: vec![10, 11, 12] },
        &mut registers,
        &mut memory,
        &mut stack,
    );
    assert_eq!(res, Err(Fault::IllegalInstruction));
}

#[test]
fn nop_advances_pc_and_skips_flags() {
    let mut memory = small_memory(16);
    let mut registers = fresh_registers();
    let mut stack: Vec<u32> = Vec::new();

    tick(&mut registers, &mut memory, &mut stack).unwrap();
    assert_eq!(registers[0], 1);
    assert_eq!(registers[3], 0);
    assert_eq!(registers[4], 0);
}

#[test]
fn two_nops_then_illegal_byte_aborts_third_tick() {
    let mut memory = small_memory(64);
    load_image(&mut memory, &[0, 0, 200]);
    let mut registers = fresh_registers();
    let mut stack: Vec<u32> = Vec::new();

    tick(&mut registers, &mut memory, &mut stack).unwrap();
    assert_eq!(registers[0], 1);
    tick(&mut registers, &mut memory, &mut stack).unwrap();
    assert_eq!(registers[0], 2);

    let res = tick(&mut registers, &mut memory, &mut stack);
    assert_eq!(res, Err(Fault::IllegalInstruction));
    assert_eq!(registers[0], 2);
}
