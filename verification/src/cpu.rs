use vstd::prelude::*;

use crate::memory::{mem_eq, set_post, Device, Memory};

verus! {

/// The decoder's error: the byte at the program counter names no
/// instruction of the architecture.
#[derive(Debug)]
pub struct IllegalOpcode;

/// No-operation.
pub const NOP: u32 = 0;

/// Return: if the condition register holds 1, pop the call stack into the
/// program counter.
pub const RET: u32 = 1;

/// Function call: push the program counter and branch to an immediate.
pub const FUN: u32 = 2;

/// Equality test into a destination register.
pub const EQL: u32 = 3;

/// Logical not into a destination register.
pub const INV: u32 = 4;

/// Greater-than test into a destination register.
pub const GHT: u32 = 5;

/// Register write: an immediate into a destination register.
pub const REW: u32 = 6;

/// Memory write: a register's low byte to a register-held address.
pub const MEW: u32 = 7;

/// Register move.
pub const RMV: u32 = 8;

/// Memory move: the byte at one register-held address to another.
pub const MMV: u32 = 9;

/// Memory copy: the byte at a register-held address into a register.
pub const MCP: u32 = 10;

/// Stack push: a register's low byte to the software stack at R1.
pub const SPU: u32 = 11;

/// Stack peek: the byte at R1 into a register.
pub const SPE: u32 = 12;

/// Stack pop: decrement R1.
pub const SPO: u32 = 13;

/// Left shift.
pub const LSB: u32 = 14;

/// Right shift.
pub const RSB: u32 = 15;

/// Bitwise not.
pub const NOT: u32 = 16;

/// Bitwise and.
pub const AND: u32 = 17;

/// Bitwise or.
pub const ORB: u32 = 18;

/// Bitwise xor.
pub const XOR: u32 = 19;

/// Addition.
pub const ADD: u32 = 20;

/// Subtraction.
pub const SUB: u32 = 21;

/// Multiplication.
pub const MUL: u32 = 22;

/// Division, truncating toward zero.
pub const DIV: u32 = 23;

/// Remainder: the decoder knows its width, but the execution engine
/// defines no effect for it, so executing it is an illegal instruction.
pub const MOD: u32 = 24;

/// A decoded instruction: the opcode, the operand length in bytes, and
/// the operand values, each widened to 32 bits.
pub struct Instruction {
    pub opcode: u32,
    pub argv_len: u8,
    pub argv: Vec<u32>,
}

/// The mathematical shadow of a decoded instruction, with the operand
/// list as a sequence.
#[verifier::ext_equal]
pub ghost struct InstrModel {
    pub opcode: u32,
    pub argv_len: u8,
    pub argv: Seq<u32>,
}

impl View for Instruction {
    type V = InstrModel;

    open spec fn view(&self) -> InstrModel {
        InstrModel { opcode: self.opcode, argv_len: self.argv_len, argv: self.argv@ }
    }
}

/// Whether the opcode value is in the decoder's table.
pub open spec fn opcode_defined(opcode: u32) -> bool {
    opcode <= MOD
}

/// The operand length in bytes of a defined opcode.
pub open spec fn spec_instruction_length(instruction: u32) -> u8 {
    if instruction == NOP || instruction == SPO {
        0
    } else if instruction == EQL || instruction == GHT {
        3
    } else if MEW <= instruction && instruction <= MCP {
        2
    } else if instruction == SPU || instruction == SPE {
        1
    } else if LSB <= instruction && instruction <= MOD {
        3
    } else if instruction == REW {
        5
    } else if instruction == FUN {
        4
    } else if instruction == INV {
        2
    } else {
        1
    }
}

fn get_instruction_length(instruction: u32) -> (length: Option<u8>)
    ensures
        length is Some <==> opcode_defined(instruction),
        opcode_defined(instruction) ==> length == Some(spec_instruction_length(instruction)),
{
    if instruction == NOP || instruction == SPO {
        return Some(0);
    }

    if instruction == EQL || instruction == GHT {
        return Some(3);
    }
    if instruction >= MEW && instruction <= MCP {
        return Some(2);
    }

    if instruction == SPU || instruction == SPE {
        return Some(1);
    }
    if instruction >= LSB && instruction <= MOD {
        return Some(3);
    }

    if instruction == REW {
        return Some(5);
    }
    if instruction == FUN {
        return Some(4);
    }
    if instruction == INV {
        return Some(2);
    }
    if instruction == RET {
        return Some(1);
    }

    None
}

/// The unsigned 32-bit value of four bytes read most-significant first.
pub open spec fn be32(b0: u8, b1: u8, b2: u8, b3: u8) -> u32 {
    (b0 * 0x1000000 + b1 * 0x10000 + b2 * 0x100 + b3) as u32
}

fn u32_to_int(list: &Vec<u8>, offset: usize) -> (value: u32)
    requires
        offset + 4 <= list@.len(),
    ensures
        value == be32(list@[offset as int], list@[offset + 1], list@[offset + 2], list@[offset + 3]),
{
    let n: usize = list.len();
    proof {
        assert(offset + 4 <= n);
    }
    let b0 = list[offset];
    let b1 = list[offset + 1];
    let b2 = list[offset + 2];
    let b3 = list[offset + 3];
    let value = ((b0 as u32) << 24u32) | ((b1 as u32) << 16u32) | ((b2 as u32) << 8u32) | (
    b3 as u32);
    proof {
        assert(((b0 as u32) << 24u32) | ((b1 as u32) << 16u32) | ((b2 as u32) << 8u32) | (
        b3 as u32) == (b0 as u32) * 0x1000000 + (b1 as u32) * 0x10000 + (b2 as u32) * 0x100 + (
        b3 as u32)) by (bit_vector);
    }
    value
}

/// The instruction denoted by a fetched byte window whose first byte is a
/// defined opcode: the opcode itself, then its operands, either a 4-byte
/// big-endian immediate or single register-index bytes.
pub open spec fn spec_decode(window: Seq<u8>) -> InstrModel {
    let opcode = window[0] as u32;
    if opcode == REW {
        InstrModel {
            opcode,
            argv_len: 5,
            argv: seq![be32(window[1], window[2], window[3], window[4]), window[5] as u32],
        }
    } else if opcode == FUN {
        InstrModel {
            opcode,
            argv_len: 4,
            argv: seq![be32(window[1], window[2], window[3], window[4])],
        }
    } else {
        InstrModel {
            opcode,
            argv_len: spec_instruction_length(opcode),
            argv: Seq::new(
                spec_instruction_length(opcode) as nat,
                |k: int| window[1 + k] as u32,
            ),
        }
    }
}

/// Decodes a fetched byte window.  Succeeds exactly on the defined
/// opcodes, and the decoded instruction is a function of the window
/// alone.
pub fn decode(fetched_instruction: Vec<u8>) -> (result: Result<Instruction, IllegalOpcode>)
    requires
        fetched_instruction@.len() == 8,
    ensures
        result is Ok <==> opcode_defined(fetched_instruction@[0] as u32),
        result matches Ok(i) ==> i@ == spec_decode(fetched_instruction@),
{
    let opcode: u32 = fetched_instruction[0] as u32;
    let instruction_length: u8 = match get_instruction_length(opcode) {
        Some(length) => length,
        None => {
            return Err(IllegalOpcode);
        },
    };

    if opcode == REW {
        let mut argv: Vec<u32> = Vec::new();

        argv.push(u32_to_int(&fetched_instruction, 1));
        argv.push(fetched_instruction[instruction_length as usize] as u32);

        proof {
            assert(argv@ =~= spec_decode(fetched_instruction@).argv);
        }
        Ok(Instruction { opcode, argv_len: instruction_length, argv })
    } else if opcode == FUN {
        let mut argv: Vec<u32> = Vec::new();
        argv.push(u32_to_int(&fetched_instruction, 1));

        proof {
            assert(argv@ =~= spec_decode(fetched_instruction@).argv);
        }
        Ok(Instruction { opcode, argv_len: instruction_length, argv })
    } else {
        let mut argv: Vec<u32> = Vec::new();
        let mut k: usize = 0;
        while k < instruction_length as usize
            invariant
                k <= instruction_length as usize,
                instruction_length as usize + 1 <= fetched_instruction@.len(),
                argv@.len() == k,
                forall|j: int| 0 <= j < k ==> argv@[j] == fetched_instruction@[1 + j] as u32,
            decreases instruction_length as usize - k,
        {
            argv.push(fetched_instruction[1 + k] as u32);
            k += 1;
        }

        proof {
            assert(argv@ =~= spec_decode(fetched_instruction@).argv);
        }
        Ok(Instruction { opcode, argv_len: instruction_length, argv })
    }
}

/// An architectural violation, fatal to the machine: the driver is
/// expected to stop on it, and the machine state it was raised in is not
/// meant to be resumed.
#[derive(Clone, Copy, Debug, PartialEq, Eq, Structural)]
pub enum Fault {
    /// The opcode has no defined effect.
    IllegalInstruction,
    /// A return was executed with an empty call stack.
    NothingToBranchTo,
    /// A stack push found R1 above its fixed valid window.
    StackLimitOverThreshold,
    /// A stack push found R1 below its fixed valid window.
    StackLimitUnderThreshold,
    /// A stack pop would move R1 below zero.
    StackCursorUnderflow,
    /// An operand named a register index outside the register file.
    RegisterIndexOutOfRange,
    /// A division met a zero divisor.
    DivideByZero,
}

/// The number of general-purpose register slots.
pub const REGISTER_COUNT: u32 = 36;

/// Whether an operand value is a valid register index.
pub open spec fn reg_ok(index: u32) -> bool {
    index < REGISTER_COUNT
}

/// A decoded instruction whose operand list has the shape the execution
/// engine expects of its opcode.
pub open spec fn wf_instruction(i: InstrModel) -> bool {
    &&& opcode_defined(i.opcode)
    &&& i.argv_len == spec_instruction_length(i.opcode)
    &&& i.argv.len() == (if i.opcode == REW {
        2int
    } else if i.opcode == FUN {
        1int
    } else {
        i.argv_len as int
    })
}

/// A decoded window is always well-shaped.
pub proof fn lemma_spec_decode_wf(window: Seq<u8>)
    requires
        window.len() == 8,
        opcode_defined(window[0] as u32),
    ensures
        wf_instruction(spec_decode(window)),
{
}

/// The saturating-to-zero overflow policy: a wide result over `2^31`
/// becomes 0, anything else is kept as-is.
pub open spec fn saturate(number: int) -> u32
    recommends
        0 <= number,
{
    if number > 0x80000000 {
        0
    } else {
        number as u32
    }
}

fn overflow_resolver(number: u64) -> (result: u32)
    ensures
        result == saturate(number as int),
{
    if number > 2147483648 {
        return 0;
    } else {
        return number as u32;
    }
}

/// The wide (64-bit precision) result of an arithmetic, bitwise or shift
/// opcode on two register values, before the saturating clamp.
/// Subtraction below zero and shifts past the 64-bit width appear here as
/// the wrapped 64-bit values the hardware-style computation produces.
pub open spec fn alu_wide(op: u32, x: u32, y: u32) -> int
    recommends
        op == DIV ==> y != 0,
{
    if op == LSB {
        if y < 64 {
            (((x as u64) << (y as u64)) as int)
        } else {
            0
        }
    } else if op == RSB {
        if y < 64 {
            (((x as u64) >> (y as u64)) as int)
        } else {
            0
        }
    } else if op == NOT {
        (!x) as int
    } else if op == AND {
        (x & y) as int
    } else if op == ORB {
        (x | y) as int
    } else if op == XOR {
        (x ^ y) as int
    } else if op == ADD {
        x + y
    } else if op == SUB {
        if x >= y {
            x - y
        } else {
            x - y + 0x10000000000000000
        }
    } else if op == MUL {
        x * y
    } else {
        x as int / y as int
    }
}

/// The register file after the unconditional post-execution flag pair:
/// R3 reset to 0, R4 set to 1.
pub open spec fn flags_set(regs: Seq<u32>) -> Seq<u32> {
    regs.update(3, 0u32).update(4, 1u32)
}

/// A fatal outcome: the machine is left as it stood after the program
/// counter advance, and the fault is reported.
pub open spec fn step_fault<D: Device>(
    ra: Seq<u32>,
    m0: Memory<D>,
    s0: Seq<u32>,
    r1: Seq<u32>,
    m1: Memory<D>,
    s1: Seq<u32>,
    res: Result<(), Fault>,
    f: Fault,
) -> bool {
    r1 == ra && mem_eq(m1, m0) && s1 == s0 && res == Err::<(), Fault>(f)
}

/// A successful outcome that touches only the register file: the new
/// register file gets the flag pair, and memory and call stack are kept.
pub open spec fn step_regs<D: Device>(
    rnew: Seq<u32>,
    m0: Memory<D>,
    s0: Seq<u32>,
    r1: Seq<u32>,
    m1: Memory<D>,
    s1: Seq<u32>,
    res: Result<(), Fault>,
) -> bool {
    r1 == flags_set(rnew) && mem_eq(m1, m0) && s1 == s0 && res == Ok::<(), Fault>(())
}

/// Relates the machine state after executing one well-shaped instruction
/// to the state before it: `r0`/`m0`/`s0` are the register file, memory
/// and call stack going in, `r1`/`m1`/`s1` those coming out, and `res`
/// the reported outcome.  The program counter advance past the
/// instruction happens first; everything else is per opcode.
pub open spec fn execute_post<D: Device>(
    i: InstrModel,
    r0: Seq<u32>,
    m0: Memory<D>,
    s0: Seq<u32>,
    r1: Seq<u32>,
    m1: Memory<D>,
    s1: Seq<u32>,
    res: Result<(), Fault>,
) -> bool
    recommends
        wf_instruction(i),
        r0.len() == 36,
        r0[0] + 1 + i.argv_len <= u32::MAX,
{
    let ra = r0.update(0, (r0[0] + 1 + i.argv_len) as u32);
    let op = i.opcode;
    if op == NOP {
        r1 == ra && mem_eq(m1, m0) && s1 == s0 && res == Ok::<(), Fault>(())
    } else if op == RET {
        let c = i.argv[0];
        if !reg_ok(c) {
            step_fault(ra, m0, s0, r1, m1, s1, res, Fault::RegisterIndexOutOfRange)
        } else if ra[c as int] == 1 {
            if s0.len() == 0 {
                step_fault(ra, m0, s0, r1, m1, s1, res, Fault::NothingToBranchTo)
            } else {
                &&& r1 == flags_set(ra.update(0, s0.last()))
                &&& mem_eq(m1, m0)
                &&& s1 == s0.drop_last()
                &&& res == Ok::<(), Fault>(())
            }
        } else {
            step_regs(ra, m0, s0, r1, m1, s1, res)
        }
    } else if op == FUN {
        &&& r1 == flags_set(ra.update(0, i.argv[0]))
        &&& mem_eq(m1, m0)
        &&& s1 == s0.push(ra[0])
        &&& res == Ok::<(), Fault>(())
    } else if op == EQL {
        let a = i.argv[0];
        let b = i.argv[1];
        let d = i.argv[2];
        if !(reg_ok(a) && reg_ok(b) && reg_ok(d)) {
            step_fault(ra, m0, s0, r1, m1, s1, res, Fault::RegisterIndexOutOfRange)
        } else {
            step_regs(
                ra.update(
                    d as int,
                    if ra[a as int] == ra[b as int] {
                        1u32
                    } else {
                        0u32
                    },
                ),
                m0,
                s0,
                r1,
                m1,
                s1,
                res,
            )
        }
    } else if op == INV {
        let src = i.argv[0];
        let d = i.argv[1];
        if !(reg_ok(src) && reg_ok(d)) {
            step_fault(ra, m0, s0, r1, m1, s1, res, Fault::RegisterIndexOutOfRange)
        } else {
            step_regs(
                ra.update(
                    d as int,
                    if ra[src as int] == 0 {
                        1u32
                    } else {
                        0u32
                    },
                ),
                m0,
                s0,
                r1,
                m1,
                s1,
                res,
            )
        }
    } else if op == GHT {
        let a = i.argv[0];
        let b = i.argv[1];
        let d = i.argv[2];
        if !(reg_ok(a) && reg_ok(b) && reg_ok(d)) {
            step_fault(ra, m0, s0, r1, m1, s1, res, Fault::RegisterIndexOutOfRange)
        } else {
            step_regs(
                ra.update(
                    d as int,
                    if ra[a as int] > ra[b as int] {
                        1u32
                    } else {
                        0u32
                    },
                ),
                m0,
                s0,
                r1,
                m1,
                s1,
                res,
            )
        }
    } else if op == REW {
        let d = i.argv[1];
        if !reg_ok(d) {
            step_fault(ra, m0, s0, r1, m1, s1, res, Fault::RegisterIndexOutOfRange)
        } else {
            step_regs(ra.update(d as int, i.argv[0]), m0, s0, r1, m1, s1, res)
        }
    } else if op == RMV {
        let src = i.argv[0];
        let d = i.argv[1];
        if !(reg_ok(src) && reg_ok(d)) {
            step_fault(ra, m0, s0, r1, m1, s1, res, Fault::RegisterIndexOutOfRange)
        } else {
            step_regs(ra.update(d as int, ra[src as int]), m0, s0, r1, m1, s1, res)
        }
    } else if op == MEW {
        let a = i.argv[0];
        let b = i.argv[1];
        if !reg_ok(a) {
            step_fault(ra, m0, s0, r1, m1, s1, res, Fault::RegisterIndexOutOfRange)
        } else if m0.backing().len() <= ra[a as int] {
            r1 == ra.update(1, 2u32) && mem_eq(m1, m0) && s1 == s0 && res == Ok::<(), Fault>(())
        } else if !reg_ok(b) {
            step_fault(ra, m0, s0, r1, m1, s1, res, Fault::RegisterIndexOutOfRange)
        } else {
            &&& set_post(m0, m1, ra[a as int], (ra[b as int] % 256) as u8)
            &&& r1 == flags_set(ra)
            &&& s1 == s0
            &&& res == Ok::<(), Fault>(())
        }
    } else if op == MMV {
        let a = i.argv[0];
        let b = i.argv[1];
        if !(reg_ok(a) && reg_ok(b)) {
            step_fault(ra, m0, s0, r1, m1, s1, res, Fault::RegisterIndexOutOfRange)
        } else if m0.backing().len() <= ra[a as int] {
            r1 == ra.update(1, 2u32) && mem_eq(m1, m0) && s1 == s0 && res == Ok::<(), Fault>(())
        } else {
            &&& set_post(m0, m1, ra[a as int], m0.read_at(ra[b as int]))
            &&& r1 == flags_set(ra)
            &&& s1 == s0
            &&& res == Ok::<(), Fault>(())
        }
    } else if op == MCP {
        let a = i.argv[0];
        let d = i.argv[1];
        if !(reg_ok(a) && reg_ok(d)) {
            step_fault(ra, m0, s0, r1, m1, s1, res, Fault::RegisterIndexOutOfRange)
        } else if m0.backing().len() <= ra[a as int] {
            &&& r1 == ra.update(d as int, 255u32).update(1, 1u32)
            &&& mem_eq(m1, m0)
            &&& s1 == s0
            &&& res == Ok::<(), Fault>(())
        } else {
            step_regs(
                ra.update(d as int, m0.read_at(ra[a as int]) as u32),
                m0,
                s0,
                r1,
                m1,
                s1,
                res,
            )
        }
    } else if op == SPU {
        let src = i.argv[0];
        if ra[1] > 9999 {
            step_fault(ra, m0, s0, r1, m1, s1, res, Fault::StackLimitOverThreshold)
        } else if ra[1] < 8191 {
            step_fault(ra, m0, s0, r1, m1, s1, res, Fault::StackLimitUnderThreshold)
        } else if m0.backing().len() <= ra[1] {
            r1 == ra.update(1, 2u32) && mem_eq(m1, m0) && s1 == s0 && res == Ok::<(), Fault>(())
        } else if !reg_ok(src) {
            step_fault(ra, m0, s0, r1, m1, s1, res, Fault::RegisterIndexOutOfRange)
        } else {
            &&& set_post(m0, m1, ra[1], (ra[src as int] % 256) as u8)
            &&& r1 == flags_set(ra.update(1, (ra[1] + 1) as u32))
            &&& s1 == s0
            &&& res == Ok::<(), Fault>(())
        }
    } else if op == SPE {
        let d = i.argv[0];
        if !reg_ok(d) {
            step_fault(ra, m0, s0, r1, m1, s1, res, Fault::RegisterIndexOutOfRange)
        } else if m0.backing().len() <= ra[1] {
            &&& r1 == ra.update(d as int, 255u32).update(1, 1u32)
            &&& mem_eq(m1, m0)
            &&& s1 == s0
            &&& res == Ok::<(), Fault>(())
        } else {
            step_regs(ra.update(d as int, m0.read_at(ra[1]) as u32), m0, s0, r1, m1, s1, res)
        }
    } else if op == SPO {
        if ra[1] == 0 {
            step_fault(ra, m0, s0, r1, m1, s1, res, Fault::StackCursorUnderflow)
        } else {
            step_regs(ra.update(1, (ra[1] - 1) as u32), m0, s0, r1, m1, s1, res)
        }
    } else if op == NOT {
        let x = i.argv[0];
        let d = i.argv[1];
        if !(reg_ok(x) && reg_ok(d)) {
            step_fault(ra, m0, s0, r1, m1, s1, res, Fault::RegisterIndexOutOfRange)
        } else {
            step_regs(
                ra.update(d as int, saturate(alu_wide(NOT, ra[x as int], 0))),
                m0,
                s0,
                r1,
                m1,
                s1,
                res,
            )
        }
    } else if LSB <= op && op <= DIV {
        let a = i.argv[0];
        let b = i.argv[1];
        let d = i.argv[2];
        if !(reg_ok(a) && reg_ok(b) && reg_ok(d)) {
            step_fault(ra, m0, s0, r1, m1, s1, res, Fault::RegisterIndexOutOfRange)
        } else if op == DIV && ra[b as int] == 0 {
            step_fault(ra, m0, s0, r1, m1, s1, res, Fault::DivideByZero)
        } else {
            step_regs(
                ra.update(d as int, saturate(alu_wide(op, ra[a as int], ra[b as int]))),
                m0,
                s0,
                r1,
                m1,
                s1,
                res,
            )
        }
    } else {
        step_fault(ra, m0, s0, r1, m1, s1, res, Fault::IllegalInstruction)
    }
}

proof fn lemma_shl_saturates(x: u64, y: u64)
    requires
        x < 0x100000000,
        32 <= y < 64,
    ensures
        (x << y) == 0 || (x << y) > 0x80000000,
{
    assert((x << y) == 0 || (x << y) > 0x80000000) by (bit_vector)
        requires
            x < 0x100000000,
            32 <= y < 64,
    ;
}

proof fn lemma_shr_vanishes(x: u64, y: u64)
    requires
        x < 0x100000000,
        32 <= y < 64,
    ensures
        (x >> y) == 0,
{
    assert((x >> y) == 0) by (bit_vector)
        requires
            x < 0x100000000,
            32 <= y < 64,
    ;
}

/// Applies one decoded instruction to the register file, memory and call
/// stack: the program counter is advanced past the instruction, the
/// opcode's effect is applied, and the R3/R4 flag pair is set unless the
/// opcode was a no-op or an out-of-bounds memory access returned early.
/// An architectural violation is reported as the `Err` case instead of
/// touching anything beyond the program counter advance.
pub fn execute<D: Device>(
    instruction: Instruction,
    registers: &mut Vec<u32>,
    memory: &mut Memory<D>,
    cpu_stack: &mut Vec<u32>,
) -> (res: Result<(), Fault>)
    requires
        old(registers)@.len() == 36,
        wf_instruction(instruction@),
        old(registers)@[0] + 1 + instruction@.argv_len <= u32::MAX,
    ensures
        final(registers)@.len() == 36,
        execute_post(
            instruction@,
            old(registers)@,
            *old(memory),
            old(cpu_stack)@,
            final(registers)@,
            *final(memory),
            final(cpu_stack)@,
            res,
        ),
{
    let pc = registers[0];
    registers[0] = pc + 1 + (instruction.argv_len as u32);

    let opcode = instruction.opcode;
    if opcode == NOP {
        return Ok(());
    } else if opcode == RET {
        let c = instruction.argv[0];
        if c >= REGISTER_COUNT {
            return Err(Fault::RegisterIndexOutOfRange);
        }
        // Checking if it's 1 (true)
        if registers[c as usize] == 1 {
            if cpu_stack.len() == 0 {
                return Err(Fault::NothingToBranchTo);
            }
            let last_branch = cpu_stack.pop().unwrap();
            registers[0] = last_branch;
        }
    } else if opcode == FUN {
        cpu_stack.push(registers[0]);
        registers[0] = instruction.argv[0];
    } else if opcode == EQL {
        let a = instruction.argv[0];
        let b = instruction.argv[1];
        let d = instruction.argv[2];
        if a >= REGISTER_COUNT || b >= REGISTER_COUNT || d >= REGISTER_COUNT {
            return Err(Fault::RegisterIndexOutOfRange);
        }
        let value: u32 = if registers[a as usize] == registers[b as usize] {
            1
        } else {
            0
        };
        registers[d as usize] = value;
    } else if opcode == INV {
        let src = instruction.argv[0];
        let d = instruction.argv[1];
        if src >= REGISTER_COUNT || d >= REGISTER_COUNT {
            return Err(Fault::RegisterIndexOutOfRange);
        }
        let flipped_value: u32 = if registers[src as usize] == 0 {
            1
        } else {
            0
        };
        registers[d as usize] = flipped_value;
    } else if opcode == GHT {
        let a = instruction.argv[0];
        let b = instruction.argv[1];
        let d = instruction.argv[2];
        if a >= REGISTER_COUNT || b >= REGISTER_COUNT || d >= REGISTER_COUNT {
            return Err(Fault::RegisterIndexOutOfRange);
        }
        let value: u32 = if registers[a as usize] > registers[b as usize] {
            1
        } else {
            0
        };
        registers[d as usize] = value;
    } else if opcode == REW {
        let d = instruction.argv[1];
        if d >= REGISTER_COUNT {
            return Err(Fault::RegisterIndexOutOfRange);
        }
        registers[d as usize] = instruction.argv[0];
    } else if opcode == RMV {
        let src = instruction.argv[0];
        let d = instruction.argv[1];
        if src >= REGISTER_COUNT || d >= REGISTER_COUNT {
            return Err(Fault::RegisterIndexOutOfRange);
        }
        let value = registers[src as usize];
        registers[d as usize] = value;
    } else if opcode == MEW {
        let a = instruction.argv[0];
        if a >= REGISTER_COUNT {
            return Err(Fault::RegisterIndexOutOfRange);
        }
        let address = registers[a as usize];
        if memory.len() <= address as usize {
            registers[1] = 2;
            return Ok(());
        }
        let b = instruction.argv[1];
        if b >= REGISTER_COUNT {
            return Err(Fault::RegisterIndexOutOfRange);
        }
        let value = (registers[b as usize] % 256) as u8;
        memory.set(address, value);
    } else if opcode == MMV {
        let a = instruction.argv[0];
        let b = instruction.argv[1];
        if a >= REGISTER_COUNT || b >= REGISTER_COUNT {
            return Err(Fault::RegisterIndexOutOfRange);
        }
        let got_value = memory.get(registers[b as usize]);

        let address = registers[a as usize];
        if memory.len() <= address as usize {
            registers[1] = 2;
            return Ok(());
        }
        memory.set(address, got_value);
    } else if opcode == MCP {
        let a = instruction.argv[0];
        let d = instruction.argv[1];
        if a >= REGISTER_COUNT || d >= REGISTER_COUNT {
            return Err(Fault::RegisterIndexOutOfRange);
        }
        let address = registers[a as usize];
        if memory.len() <= address as usize {
            registers[d as usize] = 255;
            registers[1] = 1;
            return Ok(());
        }
        let value = memory.get(address);
        registers[d as usize] = value as u32;
    } else if opcode == SPU {
        if registers[1] > 9999 {
            return Err(Fault::StackLimitOverThreshold);
        }
        if registers[1] < 8191 {
            return Err(Fault::StackLimitUnderThreshold);
        }
        let address = registers[1];
        if memory.len() <= address as usize {
            registers[1] = 2;
            return Ok(());
        }
        let src = instruction.argv[0];
        if src >= REGISTER_COUNT {
            return Err(Fault::RegisterIndexOutOfRange);
        }
        let value = (registers[src as usize] % 256) as u8;
        memory.set(address, value);
        registers[1] = address + 1;
    } else if opcode == SPE {
        let d = instruction.argv[0];
        if d >= REGISTER_COUNT {
            return Err(Fault::RegisterIndexOutOfRange);
        }
        let address = registers[1];
        if memory.len() <= address as usize {
            registers[d as usize] = 255;
            registers[1] = 1;
            return Ok(());
        }
        let value = memory.get(address);
        registers[d as usize] = value as u32;
    } else if opcode == SPO {
        let cursor = registers[1];
        if cursor == 0 {
            return Err(Fault::StackCursorUnderflow);
        }
        registers[1] = cursor - 1;
    } else if opcode == NOT {
        let x = instruction.argv[0];
        let d = instruction.argv[1];
        if x >= REGISTER_COUNT || d >= REGISTER_COUNT {
            return Err(Fault::RegisterIndexOutOfRange);
        }
        let value = overflow_resolver((!registers[x as usize]) as u64);
        registers[d as usize] = value;
    } else if opcode == LSB || opcode == RSB {
        let a = instruction.argv[0];
        let b = instruction.argv[1];
        let d = instruction.argv[2];
        if a >= REGISTER_COUNT || b >= REGISTER_COUNT || d >= REGISTER_COUNT {
            return Err(Fault::RegisterIndexOutOfRange);
        }
        let x = registers[a as usize];
        let y = registers[b as usize];
        let value: u32 = if y >= 32 {
            proof {
                if y < 64 {
                    if opcode == LSB {
                        lemma_shl_saturates(x as u64, y as u64);
                    } else {
                        lemma_shr_vanishes(x as u64, y as u64);
                    }
                }
            }
            0
        } else if opcode == LSB {
            overflow_resolver((x as u64) << (y as u64))
        } else {
            overflow_resolver((x as u64) >> (y as u64))
        };
        registers[d as usize] = value;
    } else if opcode == AND || opcode == ORB || opcode == XOR {
        let a = instruction.argv[0];
        let b = instruction.argv[1];
        let d = instruction.argv[2];
        if a >= REGISTER_COUNT || b >= REGISTER_COUNT || d >= REGISTER_COUNT {
            return Err(Fault::RegisterIndexOutOfRange);
        }
        let x = registers[a as usize];
        let y = registers[b as usize];
        let bits: u32 = if opcode == AND {
            x & y
        } else if opcode == ORB {
            x | y
        } else {
            x ^ y
        };
        let value = overflow_resolver(bits as u64);
        registers[d as usize] = value;
    } else if opcode == ADD || opcode == SUB || opcode == MUL || opcode == DIV {
        let a = instruction.argv[0];
        let b = instruction.argv[1];
        let d = instruction.argv[2];
        if a >= REGISTER_COUNT || b >= REGISTER_COUNT || d >= REGISTER_COUNT {
            return Err(Fault::RegisterIndexOutOfRange);
        }
        let x = registers[a as usize];
        let y = registers[b as usize];
        let value: u32 = if opcode == ADD {
            overflow_resolver((x as u64) + (y as u64))
        } else if opcode == SUB {
            if x >= y {
                overflow_resolver((x as u64) - (y as u64))
            } else {
                0
            }
        } else if opcode == MUL {
            proof {
                assert((x as int) * (y as int) < 0x10000000000000000) by (nonlinear_arith)
                    requires
                        x < 0x100000000,
                        y < 0x100000000,
                ;
            }
            overflow_resolver((x as u64) * (y as u64))
        } else {
            if y == 0 {
                return Err(Fault::DivideByZero);
            }
            overflow_resolver((x as u64) / (y as u64))
        };
        registers[d as usize] = value;
    } else {
        return Err(Fault::IllegalInstruction);
    }

    registers[3] = 0;
    registers[4] = 1;
    Ok(())
}

/// The fixed 8-byte window visible in memory at `pc`: what the fetch
/// stage hands the decoder.
pub open spec fn window_at<D: Device>(m: Memory<D>, pc: u32) -> Seq<u8> {
    Seq::new(8, |k: int| m.read_at((pc + k) as u32))
}

/// Retrieves the fixed 8-byte instruction window at `pc`.  The window is
/// an over-read for most instructions; the decoder consumes only the
/// prefix it needs.
pub fn fetch<D: Device>(pc: u32, memory: &mut Memory<D>) -> (window: Vec<u8>)
    requires
        pc + 8 <= u32::MAX,
    ensures
        final(memory).devices@ == old(memory).devices@,
        final(memory).memory@ == old(memory).memory@,
        window@ == window_at(*old(memory), pc),
{
    let window = memory.get_bulk(pc, pc + 8);
    proof {
        assert(window@ =~= window_at(*old(memory), pc));
    }
    window
}

/// Relates the machine state after one tick to the state before it: a
/// fetch of the window at the program counter, then either the illegal
/// opcode reported with nothing changed, or the effect of the decoded
/// instruction.
pub open spec fn tick_post<D: Device>(
    r0: Seq<u32>,
    m0: Memory<D>,
    s0: Seq<u32>,
    r1: Seq<u32>,
    m1: Memory<D>,
    s1: Seq<u32>,
    res: Result<(), Fault>,
) -> bool
    recommends
        r0.len() == 36,
        r0[0] + 8 <= u32::MAX,
{
    let w = window_at(m0, r0[0]);
    if opcode_defined(w[0] as u32) {
        execute_post(spec_decode(w), r0, m0, s0, r1, m1, s1, res)
    } else {
        r1 == r0 && mem_eq(m1, m0) && s1 == s0 && res == Err::<(), Fault>(
            Fault::IllegalInstruction,
        )
    }
}

/// One fetch-decode-execute cycle at the program counter in R0: the
/// engine's unit of progress, and the only entry point a driver needs.
pub fn tick<D: Device>(
    registers: &mut Vec<u32>,
    memory: &mut Memory<D>,
    cpu_stack: &mut Vec<u32>,
) -> (res: Result<(), Fault>)
    requires
        old(registers)@.len() == 36,
        old(registers)@[0] + 8 <= u32::MAX,
    ensures
        final(registers)@.len() == 36,
        tick_post(
            old(registers)@,
            *old(memory),
            old(cpu_stack)@,
            final(registers)@,
            *final(memory),
            final(cpu_stack)@,
            res,
        ),
{
    let pc = registers[0];
    let fetched_data: Vec<u8> = fetch(pc, memory);
    let ghost window = fetched_data@;

    let instruction = match decode(fetched_data) {
        Ok(instruction) => instruction,
        Err(_) => {
            return Err(Fault::IllegalInstruction);
        },
    };
    proof {
        lemma_spec_decode_wf(window);
    }
    execute(instruction, registers, memory, cpu_stack)
}

} // verus!
