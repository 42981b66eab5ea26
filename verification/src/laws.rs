use vstd::prelude::*;

use crate::cpu::{
    alu_wide, be32, execute_post, spec_decode, tick_post, window_at, Fault, InstrModel, DIV, FUN,
    LSB, MEW, MCP, NOT, RET, SPU,
};
use crate::memory::{
    covers, first_hit, lemma_first_hit_covers, mem_eq, set_post, Device, Memory,
};

verus! {

/// Decoding is deterministic: any two instruction models obtained by
/// decoding the same byte window are equal, so decoding a window twice
/// yields identical instructions.
pub proof fn lemma_decode_deterministic(window: Seq<u8>, i1: InstrModel, i2: InstrModel)
    requires
        i1 == spec_decode(window),
        i2 == spec_decode(window),
    ensures
        i1 == i2,
{
}

/// A register write deposits its immediate: when the window at the
/// program counter holds a register-write of immediate `I` into a
/// destination register other than R0 and the R3/R4 flag pair, one tick
/// leaves exactly `I` in that register and advances R0 by 6 bytes, one
/// for the opcode and five for the operands.
pub proof fn lemma_rew_tick<D: Device>(
    r0: Seq<u32>,
    m0: Memory<D>,
    s0: Seq<u32>,
    r1: Seq<u32>,
    m1: Memory<D>,
    s1: Seq<u32>,
    res: Result<(), Fault>,
)
    requires
        r0.len() == 36,
        r0[0] + 8 <= u32::MAX,
        window_at(m0, r0[0])[0] == 6,
        window_at(m0, r0[0])[5] < 36,
        window_at(m0, r0[0])[5] != 0,
        window_at(m0, r0[0])[5] != 3,
        window_at(m0, r0[0])[5] != 4,
        tick_post(r0, m0, s0, r1, m1, s1, res),
    ensures
        res == Ok::<(), Fault>(()),
        r1[window_at(m0, r0[0])[5] as int] == be32(
            window_at(m0, r0[0])[1],
            window_at(m0, r0[0])[2],
            window_at(m0, r0[0])[3],
            window_at(m0, r0[0])[4],
        ),
        r1[0] == r0[0] + 6,
        mem_eq(m1, m0),
        s1 == s0,
{
}

/// The saturating-to-zero overflow law: for an arithmetic, bitwise or
/// shift opcode on register operands, the destination register receives
/// the exact wide result when that result is at most `2^31`, and 0 when
/// it exceeds `2^31` — saturation, not wraparound.
pub proof fn lemma_alu_saturates<D: Device>(
    op: u32,
    a: u32,
    b: u32,
    d: u32,
    r0: Seq<u32>,
    m0: Memory<D>,
    s0: Seq<u32>,
    r1: Seq<u32>,
    m1: Memory<D>,
    s1: Seq<u32>,
    res: Result<(), Fault>,
)
    requires
        r0.len() == 36,
        r0[0] + 4 <= u32::MAX,
        LSB <= op <= DIV,
        op != NOT,
        a < 36,
        b < 36,
        d < 36,
        a != 0,
        b != 0,
        d != 3,
        d != 4,
        op == DIV ==> r0[b as int] != 0,
        execute_post(
            InstrModel { opcode: op, argv_len: 3, argv: seq![a, b, d] },
            r0,
            m0,
            s0,
            r1,
            m1,
            s1,
            res,
        ),
    ensures
        res == Ok::<(), Fault>(()),
        alu_wide(op, r0[a as int], r0[b as int]) <= 0x80000000 ==> r1[d as int] == alu_wide(
            op,
            r0[a as int],
            r0[b as int],
        ),
        alu_wide(op, r0[a as int], r0[b as int]) > 0x80000000 ==> r1[d as int] == 0,
{
}

/// A call and its taken return restore the program counter: a function
/// call pushes the address just past itself and branches; a later return
/// whose condition register holds 1, run on the call stack as the call
/// left it, branches back to that address and leaves the call stack as
/// it was before the call.
pub proof fn lemma_fun_ret_round_trip<D: Device>(
    target: u32,
    cond: u32,
    r0: Seq<u32>,
    m0: Memory<D>,
    s0: Seq<u32>,
    rb: Seq<u32>,
    mb: Memory<D>,
    sb: Seq<u32>,
    resb: Result<(), Fault>,
    rc: Seq<u32>,
    mc: Memory<D>,
    sc: Seq<u32>,
    rd: Seq<u32>,
    md: Memory<D>,
    sd: Seq<u32>,
    resd: Result<(), Fault>,
)
    requires
        r0.len() == 36,
        r0[0] + 5 <= u32::MAX,
        execute_post(
            InstrModel { opcode: FUN, argv_len: 4, argv: seq![target] },
            r0,
            m0,
            s0,
            rb,
            mb,
            sb,
            resb,
        ),
        rc.len() == 36,
        rc[0] + 2 <= u32::MAX,
        cond < 36,
        cond != 0,
        rc[cond as int] == 1,
        sc == sb,
        execute_post(
            InstrModel { opcode: RET, argv_len: 1, argv: seq![cond] },
            rc,
            mc,
            sc,
            rd,
            md,
            sd,
            resd,
        ),
    ensures
        resb == Ok::<(), Fault>(()),
        resd == Ok::<(), Fault>(()),
        rd[0] == r0[0] + 5,
        sd == s0,
{
    assert(sb == s0.push((r0[0] + 5) as u32));
    assert(sd =~= s0);
}

/// A return whose condition register does not hold 1 takes no branch: R0
/// is left at its post-advance value, two bytes past the return, and the
/// call stack is untouched.
pub proof fn lemma_ret_not_taken<D: Device>(
    cond: u32,
    r0: Seq<u32>,
    m0: Memory<D>,
    s0: Seq<u32>,
    r1: Seq<u32>,
    m1: Memory<D>,
    s1: Seq<u32>,
    res: Result<(), Fault>,
)
    requires
        r0.len() == 36,
        r0[0] + 2 <= u32::MAX,
        cond < 36,
        cond != 0,
        r0[cond as int] != 1,
        execute_post(
            InstrModel { opcode: RET, argv_len: 1, argv: seq![cond] },
            r0,
            m0,
            s0,
            r1,
            m1,
            s1,
            res,
        ),
    ensures
        res == Ok::<(), Fault>(()),
        r1[0] == r0[0] + 2,
        s1 == s0,
        mem_eq(m1, m0),
{
}

/// A memory write to an address at or past the backing store's length
/// mutates no memory: R1 is set to the write-error status 2, and the
/// R3/R4 flag reset is skipped.
pub proof fn lemma_mew_out_of_bounds<D: Device>(
    a: u32,
    b: u32,
    r0: Seq<u32>,
    m0: Memory<D>,
    s0: Seq<u32>,
    r1: Seq<u32>,
    m1: Memory<D>,
    s1: Seq<u32>,
    res: Result<(), Fault>,
)
    requires
        r0.len() == 36,
        r0[0] + 3 <= u32::MAX,
        a < 36,
        a != 0,
        m0.backing().len() <= r0[a as int],
        execute_post(
            InstrModel { opcode: MEW, argv_len: 2, argv: seq![a, b] },
            r0,
            m0,
            s0,
            r1,
            m1,
            s1,
            res,
        ),
    ensures
        res == Ok::<(), Fault>(()),
        mem_eq(m1, m0),
        r1 == r0.update(0, (r0[0] + 3) as u32).update(1, 2u32),
        a != 3 ==> r1[3] == r0[3],
        a != 4 ==> r1[4] == r0[4],
        s1 == s0,
{
}

/// A memory-to-register copy from an address at or past the backing
/// store's length mutates no memory: the destination register receives
/// the sentinel 255, R1 is set to the read-error status 1, and the R3/R4
/// flag reset is skipped.
pub proof fn lemma_mcp_out_of_bounds<D: Device>(
    a: u32,
    d: u32,
    r0: Seq<u32>,
    m0: Memory<D>,
    s0: Seq<u32>,
    r1: Seq<u32>,
    m1: Memory<D>,
    s1: Seq<u32>,
    res: Result<(), Fault>,
)
    requires
        r0.len() == 36,
        r0[0] + 3 <= u32::MAX,
        a < 36,
        a != 0,
        d < 36,
        m0.backing().len() <= r0[a as int],
        execute_post(
            InstrModel { opcode: MCP, argv_len: 2, argv: seq![a, d] },
            r0,
            m0,
            s0,
            r1,
            m1,
            s1,
            res,
        ),
    ensures
        res == Ok::<(), Fault>(()),
        mem_eq(m1, m0),
        r1 == r0.update(0, (r0[0] + 3) as u32).update(d as int, 255u32).update(1, 1u32),
        s1 == s0,
{
}

/// A stack push whose cursor address is at or past the backing store's
/// length mutates no memory: R1 is set to the write-error status 2 and
/// the R3/R4 flag reset is skipped.
pub proof fn lemma_spu_out_of_bounds<D: Device>(
    src: u32,
    r0: Seq<u32>,
    m0: Memory<D>,
    s0: Seq<u32>,
    r1: Seq<u32>,
    m1: Memory<D>,
    s1: Seq<u32>,
    res: Result<(), Fault>,
)
    requires
        r0.len() == 36,
        r0[0] + 2 <= u32::MAX,
        8191 <= r0[1] <= 9999,
        m0.backing().len() <= r0[1],
        execute_post(
            InstrModel { opcode: SPU, argv_len: 1, argv: seq![src] },
            r0,
            m0,
            s0,
            r1,
            m1,
            s1,
            res,
        ),
    ensures
        res == Ok::<(), Fault>(()),
        mem_eq(m1, m0),
        r1 == r0.update(0, (r0[0] + 2) as u32).update(1, 2u32),
        r1[3] == r0[3],
        r1[4] == r0[4],
        s1 == s0,
{
}

/// A stack push finding R1 outside the fixed window `[8191, 9999]` is an
/// architectural violation: it faults without touching memory or the
/// call stack.
pub proof fn lemma_spu_outside_window_faults<D: Device>(
    src: u32,
    r0: Seq<u32>,
    m0: Memory<D>,
    s0: Seq<u32>,
    r1: Seq<u32>,
    m1: Memory<D>,
    s1: Seq<u32>,
    res: Result<(), Fault>,
)
    requires
        r0.len() == 36,
        r0[0] + 2 <= u32::MAX,
        r0[1] > 9999 || r0[1] < 8191,
        execute_post(
            InstrModel { opcode: SPU, argv_len: 1, argv: seq![src] },
            r0,
            m0,
            s0,
            r1,
            m1,
            s1,
            res,
        ),
    ensures
        r0[1] > 9999 ==> res == Err::<(), Fault>(Fault::StackLimitOverThreshold),
        r0[1] < 8191 ==> res == Err::<(), Fault>(Fault::StackLimitUnderThreshold),
        mem_eq(m1, m0),
        s1 == s0,
{
}

/// A stack push with R1 inside the fixed window and in bounds writes the
/// source register's low byte at address R1 and increments R1 by exactly
/// one.
pub proof fn lemma_spu_push<D: Device>(
    src: u32,
    r0: Seq<u32>,
    m0: Memory<D>,
    s0: Seq<u32>,
    r1: Seq<u32>,
    m1: Memory<D>,
    s1: Seq<u32>,
    res: Result<(), Fault>,
)
    requires
        r0.len() == 36,
        r0[0] + 2 <= u32::MAX,
        src < 36,
        src != 0,
        8191 <= r0[1] <= 9999,
        r0[1] < m0.backing().len(),
        execute_post(
            InstrModel { opcode: SPU, argv_len: 1, argv: seq![src] },
            r0,
            m0,
            s0,
            r1,
            m1,
            s1,
            res,
        ),
    ensures
        res == Ok::<(), Fault>(()),
        r1[1] == r0[1] + 1,
        set_post(m0, m1, r0[1], (r0[src as int] % 256) as u8),
        s1 == s0,
{
}

/// Writing a byte at an address no device covers and reading it back at
/// the same address returns that byte.
pub proof fn lemma_set_get_round_trip<D: Device>(
    m0: Memory<D>,
    m1: Memory<D>,
    address: u32,
    value: u8,
)
    requires
        first_hit(m0.devices@, address) is None,
        (address as int) < m0.backing().len(),
        set_post(m0, m1, address, value),
    ensures
        m1.read_at(address) == value,
{
}

/// At an address some binding covers, reads and writes are delegated to
/// the first matching device and the backing store is untouched.
pub proof fn lemma_bound_address_delegates<D: Device>(
    m0: Memory<D>,
    m1: Memory<D>,
    address: u32,
    value: u8,
    i: int,
)
    requires
        first_hit(m0.devices@, address) == Some(i),
        set_post(m0, m1, address, value),
    ensures
        0 <= i < m0.devices@.len(),
        covers(m0.devices@[i], address),
        m1.memory@ == m0.memory@,
        m1.devices@[i].device == m0.devices@[i].device.write_spec(address, value),
        m0.read_at(address) == m0.devices@[i].device.read_spec(address),
{
    lemma_first_hit_covers(m0.devices@, address);
}

} // verus!
