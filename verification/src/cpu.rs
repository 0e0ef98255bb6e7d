//! Instruction execution engine: fetch, decode, execute over the shared
//! addressable memory, with exact flag-register semantics.
//!
//! `cpu_step` is the mathematical transition relation of the machine: one
//! instruction, from register file and memory to register file and memory.
//! `execute` is proved to implement it exactly, and to report an unhandled
//! opcode as a fault instead of doing anything at all.

use vstd::prelude::*;

use crate::mmu::Mmu;

verus! {

/// Zero flag: bit 7 of the flag register.
pub const Z_FLAG: u8 = 0x80;

/// Subtract flag: bit 6 of the flag register.
pub const N_FLAG: u8 = 0x40;

/// Half-carry flag: bit 5 of the flag register.
pub const HC_FLAG: u8 = 0x20;

/// Carry flag: bit 4 of the flag register.
pub const C_FLAG: u8 = 0x10;

/// The register file: eight 8-bit registers and two 16-bit ones. Pairs BC,
/// DE, HL are views composed of two 8-bit halves, never separate storage.
#[derive(Clone, Copy, PartialEq, Eq, Structural, Debug)]
pub struct Cpu {
    pub pc: u16,
    pub sp: u16,
    pub a: u8,
    pub b: u8,
    pub c: u8,
    pub d: u8,
    pub e: u8,
    pub h: u8,
    pub l: u8,
    pub f: u8,
}

/// A fatal fault: an opcode outside the closed set this engine enumerates,
/// reported with the program counter at the time of the fault.
#[derive(Clone, Copy, PartialEq, Eq, Structural, Debug)]
pub enum CpuFault {
    Unhandled { opcode: u8, pc: u16 },
    UnhandledPrefixed { prefix: u8, opcode: u8, pc: u16 },
}

/// The 16-bit value made of a high and a low byte.
pub open spec fn u16_of(msb: u8, lsb: u8) -> u16 {
    ((msb as u16) << 8) | (lsb as u16)
}

/// High byte of a 16-bit value.
pub open spec fn msb_of(data: u16) -> u8 {
    (data >> 8) as u8
}

/// Low byte of a 16-bit value.
pub open spec fn lsb_of(data: u16) -> u8 {
    (data & 0x00ff) as u8
}

/// Whether every bit of `mask` is set in `f`.
pub open spec fn flag_set(f: u8, mask: u8) -> bool {
    f & mask == mask
}

/// `f` with the bits of `mask` all set (`on`) or all cleared (`!on`).
pub open spec fn set_flag(f: u8, mask: u8, on: bool) -> u8 {
    if on {
        f | mask
    } else {
        f & !mask
    }
}

/// Whether adding `a` and `b` carries out of the low nibble into bit 4.
pub open spec fn hc_add(a: u8, b: u8) -> bool {
    ((((a & 0xf) + (b & 0xf)) as u8) & 0x10) == 0x10
}

/// Flags after an 8-bit increment of a register holding `v`: Subtract
/// cleared, Half-Carry from the low-nibble addition, Zero iff the wrapped
/// result is zero. Carry is untouched.
pub open spec fn flags_after_inc(f: u8, v: u8) -> u8 {
    set_flag(set_flag(set_flag(f, N_FLAG, false), HC_FLAG, hc_add(v, 1)), Z_FLAG, v.wrapping_add(1) == 0)
}

/// Flags after an 8-bit decrement of a register holding `v`: Subtract set,
/// Half-Carry iff the low nibble borrows, Zero iff the wrapped result is
/// zero. Carry is untouched.
pub open spec fn flags_after_dec(f: u8, v: u8) -> u8 {
    set_flag(set_flag(set_flag(f, N_FLAG, true), HC_FLAG, (v & 0xf) == 0), Z_FLAG, v.wrapping_sub(1) == 0)
}

/// Flags after comparing A (`a`) with `o` by subtraction, A unchanged:
/// Subtract set, Zero iff equal, Half-Carry iff the low nibble borrows,
/// Carry iff the whole subtraction borrows.
pub open spec fn flags_after_cp(f: u8, a: u8, o: u8) -> u8 {
    set_flag(set_flag(set_flag(set_flag(f, N_FLAG, true), Z_FLAG, a == o), HC_FLAG, (a & 0xf) < (o & 0xf)), C_FLAG, a < o)
}

/// Flags after `SUB`: Subtract set, Zero iff the wrapped difference is zero.
pub open spec fn flags_after_sub(f: u8, result: u8) -> u8 {
    set_flag(set_flag(f, N_FLAG, true), Z_FLAG, result == 0)
}

/// Target of a relative jump: `base` plus the displacement byte read as a
/// signed value in −128..127, wrapping modulo 65536.
pub open spec fn rel_target(base: u16, jump: u8) -> u16 {
    if jump < 0x80 {
        base.wrapping_add(jump as u16)
    } else {
        base.wrapping_add((jump as u16) | 0xff00)
    }
}

/// The opcodes of the main table this engine enumerates.
pub open spec fn main_handled(op: u8) -> bool {
    ||| op == 0x04
    ||| op == 0x05
    ||| op == 0x06
    ||| op == 0x0c
    ||| op == 0x0d
    ||| op == 0x0e
    ||| op == 0x11
    ||| op == 0x13
    ||| op == 0x15
    ||| op == 0x16
    ||| op == 0x18
    ||| op == 0x1a
    ||| op == 0x1e
    ||| op == 0x20
    ||| op == 0x21
    ||| op == 0x22
    ||| op == 0x23
    ||| op == 0x24
    ||| op == 0x28
    ||| op == 0x2e
    ||| op == 0x31
    ||| op == 0x32
    ||| op == 0x3d
    ||| op == 0x3e
    ||| op == 0x57
    ||| op == 0x67
    ||| op == 0x77
    ||| op == 0x7b
    ||| op == 0x7c
    ||| op == 0x90
    ||| op == 0xaf
    ||| op == 0xcb
    ||| op == 0xcd
    ||| op == 0xe0
    ||| op == 0xe2
    ||| op == 0xea
    ||| op == 0xf0
    ||| op == 0xfe
}

/// The opcodes of the extended (prefixed) table this engine enumerates.
pub open spec fn cb_handled(op: u8) -> bool {
    op == 0x7c
}

/// Whether the instruction at the program counter is fully handled: its main
/// opcode `op`, and, for the prefix escape, the extended opcode `cb` after it.
pub open spec fn step_handled(op: u8, cb: u8) -> bool {
    main_handled(op) && (op == 0xcb ==> cb_handled(cb))
}

/// One instruction of the machine: the register file and memory after
/// executing the handled instruction at `c.pc`. The result is meaningful
/// only when `step_handled` holds of the fetched opcode bytes.
pub open spec fn cpu_step(c: Cpu, mem: Seq<u8>) -> (Cpu, Seq<u8>) {
    let pc1 = c.pc.wrapping_add(1);
    let pc2 = c.pc.wrapping_add(2);
    let pc3 = c.pc.wrapping_add(3);
    let op = mem[c.pc as int];
    let imm8 = mem[pc1 as int];
    let imm16 = u16_of(mem[pc2 as int], mem[pc1 as int]);
    if op == 0x31 {
        // LD SP, imm16
        (Cpu { sp: imm16, pc: pc3, ..c }, mem)
    } else if op == 0xaf {
        // XOR A with itself
        (Cpu { a: c.a ^ c.a, pc: pc1, ..c }, mem)
    } else if op == 0x21 {
        // LD HL, imm16
        (Cpu { h: mem[pc2 as int], l: mem[pc1 as int], pc: pc3, ..c }, mem)
    } else if op == 0x32 {
        // LD (HL-), A: decrement HL, store A through the decremented address
        let addr = u16_of(c.h, c.l).wrapping_sub(1);
        (Cpu { h: msb_of(addr), l: lsb_of(addr), pc: pc1, ..c }, mem.update(addr as int, c.a))
    } else if op == 0xcb {
        // prefix escape: extended table
        let cb = imm8;
        if cb == 0x7c {
            // BIT 7, H
            (Cpu { f: set_flag(c.f, Z_FLAG, (c.h & 0x80) >> 7 == 0), pc: pc2, ..c }, mem)
        } else {
            (c, mem)
        }
    } else if op == 0x20 {
        // JR NZ, imm8
        if !flag_set(c.f, Z_FLAG) {
            (Cpu { pc: rel_target(pc2, imm8), ..c }, mem)
        } else {
            (Cpu { pc: pc2, ..c }, mem)
        }
    } else if op == 0x0e {
        // LD C, imm8
        (Cpu { c: imm8, pc: pc2, ..c }, mem)
    } else if op == 0x3e {
        // LD A, imm8
        (Cpu { a: imm8, pc: pc2, ..c }, mem)
    } else if op == 0xe2 {
        // LD (0xFF00 + C), A
        (Cpu { pc: pc1, ..c }, mem.update((0xff00 + (c.c as u16)) as int, c.a))
    } else if op == 0x0c {
        // INC C
        (Cpu { c: c.c.wrapping_add(1), f: flags_after_inc(c.f, c.c), pc: pc1, ..c }, mem)
    } else if op == 0x77 {
        // LD (HL), A
        (Cpu { pc: pc1, ..c }, mem.update(u16_of(c.h, c.l) as int, c.a))
    } else if op == 0xe0 {
        // LD (0xFF00 + imm8), A
        (Cpu { pc: pc2, ..c }, mem.update((0xff00 + (imm8 as u16)) as int, c.a))
    } else if op == 0x11 {
        // LD DE, imm16
        (Cpu { d: mem[pc2 as int], e: mem[pc1 as int], pc: pc3, ..c }, mem)
    } else if op == 0x1a {
        // LD A, (DE)
        (Cpu { a: mem[u16_of(c.d, c.e) as int], pc: pc1, ..c }, mem)
    } else if op == 0xcd {
        // CALL imm16: push the current program counter, jump to the target
        let sp1 = c.sp.wrapping_sub(1);
        let sp2 = c.sp.wrapping_sub(2);
        (
            Cpu { sp: sp2, pc: imm16, ..c },
            mem.update(sp1 as int, msb_of(c.pc)).update(sp2 as int, lsb_of(c.pc)),
        )
    } else if op == 0x13 {
        // INC DE
        let de = u16_of(c.d, c.e).wrapping_add(1);
        (Cpu { d: msb_of(de), e: lsb_of(de), pc: pc1, ..c }, mem)
    } else if op == 0x7b {
        // LD A, E
        (Cpu { a: c.e, pc: pc1, ..c }, mem)
    } else if op == 0xfe {
        // CP imm8: compare by subtraction, A unchanged
        (Cpu { f: flags_after_cp(c.f, c.a, imm8), pc: pc2, ..c }, mem)
    } else if op == 0x06 {
        // LD B, imm8
        (Cpu { b: imm8, pc: pc2, ..c }, mem)
    } else if op == 0x22 {
        // LD (HL+), A: increment HL, store A through the incremented address
        let addr = u16_of(c.h, c.l).wrapping_add(1);
        (Cpu { h: msb_of(addr), l: lsb_of(addr), pc: pc1, ..c }, mem.update(addr as int, c.a))
    } else if op == 0x23 {
        // INC HL
        let hl = u16_of(c.h, c.l).wrapping_add(1);
        (Cpu { h: msb_of(hl), l: lsb_of(hl), pc: pc1, ..c }, mem)
    } else if op == 0x05 {
        // DEC B
        (Cpu { b: c.b.wrapping_sub(1), f: flags_after_dec(c.f, c.b), pc: pc1, ..c }, mem)
    } else if op == 0xea {
        // LD (imm16), A
        (Cpu { pc: pc3, ..c }, mem.update(imm16 as int, c.a))
    } else if op == 0x3d {
        // DEC A
        (Cpu { a: c.a.wrapping_sub(1), f: flags_after_dec(c.f, c.a), pc: pc1, ..c }, mem)
    } else if op == 0x28 {
        // JR Z, imm8
        if flag_set(c.f, Z_FLAG) {
            (Cpu { pc: rel_target(pc2, imm8), ..c }, mem)
        } else {
            (Cpu { pc: pc2, ..c }, mem)
        }
    } else if op == 0x0d {
        // DEC C
        (Cpu { c: c.c.wrapping_sub(1), f: flags_after_dec(c.f, c.c), pc: pc1, ..c }, mem)
    } else if op == 0x2e {
        // LD L, imm8
        (Cpu { l: imm8, pc: pc2, ..c }, mem)
    } else if op == 0x18 {
        // JR imm8, unconditional
        (Cpu { pc: rel_target(pc2, imm8), ..c }, mem)
    } else if op == 0x67 {
        // LD H, A
        (Cpu { h: c.a, pc: pc1, ..c }, mem)
    } else if op == 0x57 {
        // LD D, A
        (Cpu { d: c.a, pc: pc1, ..c }, mem)
    } else if op == 0x04 {
        // INC B
        (Cpu { b: c.b.wrapping_add(1), f: flags_after_inc(c.f, c.b), pc: pc1, ..c }, mem)
    } else if op == 0x1e {
        // LD E, imm8
        (Cpu { e: imm8, pc: pc2, ..c }, mem)
    } else if op == 0xf0 {
        // LD A, (0xFF00 | imm8)
        (Cpu { a: mem[(0xff00 | (imm8 as u16)) as int], pc: pc2, ..c }, mem)
    } else if op == 0x24 {
        // INC H
        (Cpu { h: c.h.wrapping_add(1), f: flags_after_inc(c.f, c.h), pc: pc1, ..c }, mem)
    } else if op == 0x7c {
        // LD A, H
        (Cpu { a: c.h, pc: pc1, ..c }, mem)
    } else if op == 0x90 {
        // SUB B
        let result = c.a.wrapping_sub(c.b);
        (Cpu { a: result, f: flags_after_sub(c.f, result), pc: pc1, ..c }, mem)
    } else if op == 0x15 {
        // DEC D
        (Cpu { d: c.d.wrapping_sub(1), f: flags_after_dec(c.f, c.d), pc: pc1, ..c }, mem)
    } else if op == 0x16 {
        // LD D, imm8
        (Cpu { d: imm8, pc: pc2, ..c }, mem)
    } else {
        (c, mem)
    }
}

proof fn lemma_set_flag_other(f: u8, mask: u8, on: bool, other: u8)
    requires
        mask & other == 0,
    ensures
        set_flag(f, mask, on) & other == f & other,
{
    if on {
        assert(mask & other == 0 ==> (f | mask) & other == f & other) by (bit_vector);
    } else {
        assert(mask & other == 0 ==> (f & !mask) & other == f & other) by (bit_vector);
    }
}

proof fn lemma_set_flag_reads(f: u8, mask: u8, on: bool)
    requires
        mask != 0,
    ensures
        flag_set(set_flag(f, mask, on), mask) <==> on,
{
    if on {
        assert((f | mask) & mask == mask) by (bit_vector);
    } else {
        assert(mask != 0 ==> (f & !mask) & mask != mask) by (bit_vector);
    }
}

/// Law: an 8-bit increment or decrement never touches the Carry flag.
pub proof fn lemma_inc_dec_leave_carry(f: u8, v: u8)
    ensures
        flags_after_inc(f, v) & C_FLAG == f & C_FLAG,
        flags_after_dec(f, v) & C_FLAG == f & C_FLAG,
{
    assert(N_FLAG & C_FLAG == 0 && HC_FLAG & C_FLAG == 0 && Z_FLAG & C_FLAG == 0) by (bit_vector);
    lemma_set_flag_other(f, N_FLAG, false, C_FLAG);
    lemma_set_flag_other(set_flag(f, N_FLAG, false), HC_FLAG, hc_add(v, 1), C_FLAG);
    lemma_set_flag_other(
        set_flag(set_flag(f, N_FLAG, false), HC_FLAG, hc_add(v, 1)),
        Z_FLAG,
        v.wrapping_add(1) == 0,
        C_FLAG,
    );
    lemma_set_flag_other(f, N_FLAG, true, C_FLAG);
    lemma_set_flag_other(set_flag(f, N_FLAG, true), HC_FLAG, (v & 0xf) == 0, C_FLAG);
    lemma_set_flag_other(
        set_flag(set_flag(f, N_FLAG, true), HC_FLAG, (v & 0xf) == 0),
        Z_FLAG,
        v.wrapping_sub(1) == 0,
        C_FLAG,
    );
}

/// Law: incrementing a register and then decrementing it restores the value,
/// for every 8-bit value, wrap included.
pub proof fn lemma_inc_dec_restores_value(v: u8)
    ensures
        v.wrapping_add(1).wrapping_sub(1) == v,
{
}

/// Law: an increment instruction followed by a decrement of the same
/// register restores the register and leaves the Carry flag as it was, and
/// memory untouched.
pub proof fn lemma_inc_then_dec_register(c0: Cpu, mem: Seq<u8>)
    requires
        mem[c0.pc as int] == 0x0c,
        mem[c0.pc.wrapping_add(1) as int] == 0x0d,
    ensures
        ({
            let s1 = cpu_step(c0, mem);
            let s2 = cpu_step(s1.0, s1.1);
            &&& s2.0.c == c0.c
            &&& s2.0.f & C_FLAG == c0.f & C_FLAG
            &&& s2.1 == mem
            &&& s2.0.pc == c0.pc.wrapping_add(1).wrapping_add(1)
        }),
{
    let s1 = cpu_step(c0, mem);
    lemma_inc_dec_restores_value(c0.c);
    lemma_inc_dec_leave_carry(c0.f, c0.c);
    lemma_inc_dec_leave_carry(s1.0.f, s1.0.c);
}

/// Law: an 8-bit increment sets Half-Carry exactly when the low nibble of
/// the old value was full.
pub proof fn lemma_inc_half_carry(f: u8, v: u8)
    ensures
        flag_set(flags_after_inc(f, v), HC_FLAG) <==> (v & 0xf) == 0xf,
{
    assert(((((v & 0xf) + (1u8 & 0xf)) as u8) & 0x10 == 0x10) <==> (v & 0xf) == 0xf)
        by (bit_vector);
    assert(HC_FLAG != 0 && Z_FLAG & HC_FLAG == 0) by (bit_vector);
    lemma_set_flag_reads(set_flag(f, N_FLAG, false), HC_FLAG, hc_add(v, 1));
    lemma_set_flag_other(
        set_flag(set_flag(f, N_FLAG, false), HC_FLAG, hc_add(v, 1)),
        Z_FLAG,
        v.wrapping_add(1) == 0,
        HC_FLAG,
    );
}

/// Law: an 8-bit decrement sets Zero exactly when the old value was 1, and
/// always sets Subtract.
pub proof fn lemma_dec_zero_and_subtract(f: u8, v: u8)
    ensures
        flag_set(flags_after_dec(f, v), Z_FLAG) <==> v == 1,
        flag_set(flags_after_dec(f, v), N_FLAG),
{
    assert(Z_FLAG != 0 && N_FLAG != 0) by (bit_vector);
    assert(HC_FLAG & N_FLAG == 0 && Z_FLAG & N_FLAG == 0) by (bit_vector);
    lemma_set_flag_reads(
        set_flag(set_flag(f, N_FLAG, true), HC_FLAG, (v & 0xf) == 0),
        Z_FLAG,
        v.wrapping_sub(1) == 0,
    );
    lemma_set_flag_reads(f, N_FLAG, true);
    lemma_set_flag_other(set_flag(f, N_FLAG, true), HC_FLAG, (v & 0xf) == 0, N_FLAG);
    lemma_set_flag_other(
        set_flag(set_flag(f, N_FLAG, true), HC_FLAG, (v & 0xf) == 0),
        Z_FLAG,
        v.wrapping_sub(1) == 0,
        N_FLAG,
    );
}

/// Law: a register pair composed from two halves gives the halves back.
pub proof fn lemma_pair_compose(hi: u8, lo: u8)
    ensures
        msb_of(u16_of(hi, lo)) == hi,
        lsb_of(u16_of(hi, lo)) == lo,
{
    assert(msb_of(u16_of(hi, lo)) == hi) by (bit_vector);
    assert(lsb_of(u16_of(hi, lo)) == lo) by (bit_vector);
}

/// Law: a 16-bit value split into halves and recomposed is itself.
pub proof fn lemma_pair_split(d: u16)
    ensures
        u16_of(msb_of(d), lsb_of(d)) == d,
{
    assert(u16_of(msb_of(d), lsb_of(d)) == d) by (bit_vector);
}

/// Law: one instruction keeps the flag register's low nibble zero: only the
/// four named flag bits are ever set.
pub proof fn lemma_step_keeps_flag_nibble(c: Cpu, mem: Seq<u8>)
    requires
        c.f & 0x0f == 0,
    ensures
        cpu_step(c, mem).0.f & 0x0f == 0,
{
    let imm8 = mem[c.pc.wrapping_add(1) as int];
    assert(Z_FLAG & 0x0f == 0 && N_FLAG & 0x0f == 0 && HC_FLAG & 0x0f == 0 && C_FLAG & 0x0f == 0)
        by (bit_vector);
    lemma_flags_keep_low_nibble(c.f, c.a, imm8);
    lemma_flags_keep_low_nibble(c.f, c.b, imm8);
    lemma_flags_keep_low_nibble(c.f, c.c, imm8);
    lemma_flags_keep_low_nibble(c.f, c.d, imm8);
    lemma_flags_keep_low_nibble(c.f, c.h, imm8);
    lemma_flags_keep_low_nibble(c.f, c.a.wrapping_sub(c.b), imm8);
    lemma_set_flag_other(c.f, Z_FLAG, (c.h & 0x80) >> 7 == 0, 0x0f);
}

proof fn lemma_flags_keep_low_nibble(f: u8, v: u8, o: u8)
    ensures
        flags_after_inc(f, v) & 0x0f == f & 0x0f,
        flags_after_dec(f, v) & 0x0f == f & 0x0f,
        flags_after_cp(f, v, o) & 0x0f == f & 0x0f,
        flags_after_sub(f, v) & 0x0f == f & 0x0f,
{
    assert(Z_FLAG & 0x0f == 0 && N_FLAG & 0x0f == 0 && HC_FLAG & 0x0f == 0 && C_FLAG & 0x0f == 0)
        by (bit_vector);
    lemma_set_flag_other(f, N_FLAG, false, 0x0f);
    lemma_set_flag_other(set_flag(f, N_FLAG, false), HC_FLAG, hc_add(v, 1), 0x0f);
    lemma_set_flag_other(
        set_flag(set_flag(f, N_FLAG, false), HC_FLAG, hc_add(v, 1)),
        Z_FLAG,
        v.wrapping_add(1) == 0,
        0x0f,
    );
    lemma_set_flag_other(f, N_FLAG, true, 0x0f);
    lemma_set_flag_other(set_flag(f, N_FLAG, true), HC_FLAG, (v & 0xf) == 0, 0x0f);
    lemma_set_flag_other(
        set_flag(set_flag(f, N_FLAG, true), HC_FLAG, (v & 0xf) == 0),
        Z_FLAG,
        v.wrapping_sub(1) == 0,
        0x0f,
    );
    lemma_set_flag_other(set_flag(f, N_FLAG, true), Z_FLAG, v == o, 0x0f);
    lemma_set_flag_other(
        set_flag(set_flag(f, N_FLAG, true), Z_FLAG, v == o),
        HC_FLAG,
        (v & 0xf) < (o & 0xf),
        0x0f,
    );
    lemma_set_flag_other(
        set_flag(set_flag(set_flag(f, N_FLAG, true), Z_FLAG, v == o), HC_FLAG, (v & 0xf) < (o & 0xf)),
        C_FLAG,
        v < o,
        0x0f,
    );
    lemma_set_flag_other(set_flag(f, N_FLAG, true), Z_FLAG, v == 0, 0x0f);
}

/// Assembles a 16-bit value from its high and low bytes.
pub fn u16_from_u8s(msb: u8, lsb: u8) -> (r: u16)
    ensures
        r == u16_of(msb, lsb),
{
    ((msb as u16) << 8) | (lsb as u16)
}

/// Splits a 16-bit value into its high and low bytes.
pub fn u8s_from_16(data: u16) -> (r: (u8, u8))
    ensures
        r.0 == msb_of(data),
        r.1 == lsb_of(data),
{
    let msb = #[verifier::truncate] ((data >> 8) as u8);
    let lsb = #[verifier::truncate] ((data & 0x00ff) as u8);
    (msb, lsb)
}

/// Whether adding `a` and `b` carries out of the low nibble into bit 4.
pub fn eight_bit_hc(a: u8, b: u8) -> (r: bool)
    ensures
        r == hc_add(a, b),
{
    proof {
        assert((a & 0xf) < 0x10 && (b & 0xf) < 0x10) by (bit_vector);
    }
    (((a & 0xf) + (b & 0xf)) & 0x10) == 0x10
}

/// Target of a relative jump from `base` by the signed displacement byte.
fn rel_jump(base: u16, jump: u8) -> (r: u16)
    ensures
        r == rel_target(base, jump),
{
    if jump < 0x80 {
        base.wrapping_add(jump as u16)
    } else {
        base.wrapping_add((jump as u16) | 0xff00)
    }
}

impl Cpu {
    /// The register file at power-on: everything zeroed.
    pub fn new() -> (r: Self)
        ensures
            r == (Cpu { pc: 0, sp: 0, a: 0, b: 0, c: 0, d: 0, e: 0, h: 0, l: 0, f: 0 }),
    {
        Cpu { pc: 0, sp: 0, a: 0, b: 0, c: 0, d: 0, e: 0, h: 0, l: 0, f: 0 }
    }

    /// Whether the Zero flag is set.
    pub fn z(&self) -> (r: bool)
        ensures
            r == flag_set(self.f, Z_FLAG),
    {
        self.f & Z_FLAG == Z_FLAG
    }

    /// Sets or clears the Zero flag, leaving every other bit alone.
    pub fn set_z(&mut self, bit: bool)
        ensures
            *final(self) == (Cpu { f: set_flag(old(self).f, Z_FLAG, bit), ..*old(self) }),
    {
        if bit {
            self.f = self.f | Z_FLAG;
        } else {
            self.f = self.f & !Z_FLAG;
        }
    }

    /// Whether the Subtract flag is set.
    pub fn n(&self) -> (r: bool)
        ensures
            r == flag_set(self.f, N_FLAG),
    {
        self.f & N_FLAG == N_FLAG
    }

    /// Sets or clears the Subtract flag, leaving every other bit alone.
    pub fn set_n(&mut self, bit: bool)
        ensures
            *final(self) == (Cpu { f: set_flag(old(self).f, N_FLAG, bit), ..*old(self) }),
    {
        if bit {
            self.f = self.f | N_FLAG;
        } else {
            self.f = self.f & !N_FLAG;
        }
    }

    /// Whether the Half-Carry flag is set.
    pub fn hc(&self) -> (r: bool)
        ensures
            r == flag_set(self.f, HC_FLAG),
    {
        self.f & HC_FLAG == HC_FLAG
    }

    /// Sets or clears the Half-Carry flag, leaving every other bit alone.
    pub fn set_hc(&mut self, bit: bool)
        ensures
            *final(self) == (Cpu { f: set_flag(old(self).f, HC_FLAG, bit), ..*old(self) }),
    {
        if bit {
            self.f = self.f | HC_FLAG;
        } else {
            self.f = self.f & !HC_FLAG;
        }
    }

    /// Sets or clears the Carry flag, leaving every other bit alone.
    pub fn set_c(&mut self, bit: bool)
        ensures
            *final(self) == (Cpu { f: set_flag(old(self).f, C_FLAG, bit), ..*old(self) }),
    {
        if bit {
            self.f = self.f | C_FLAG;
        } else {
            self.f = self.f & !C_FLAG;
        }
    }

    /// The HL pair, composed from its halves.
    pub fn hl(&self) -> (r: u16)
        ensures
            r == u16_of(self.h, self.l),
    {
        u16_from_u8s(self.h, self.l)
    }

    /// Writes the HL pair, updating both halves atomically.
    pub fn set_hl(&mut self, data: u16)
        ensures
            *final(self) == (Cpu { h: msb_of(data), l: lsb_of(data), ..*old(self) }),
    {
        let u8s = u8s_from_16(data);
        self.h = u8s.0;
        self.l = u8s.1;
    }

    /// The DE pair, composed from its halves.
    pub fn de(&self) -> (r: u16)
        ensures
            r == u16_of(self.d, self.e),
    {
        u16_from_u8s(self.d, self.e)
    }

    /// Writes the DE pair, updating both halves atomically.
    pub fn set_de(&mut self, data: u16)
        ensures
            *final(self) == (Cpu { d: msb_of(data), e: lsb_of(data), ..*old(self) }),
    {
        let u8s = u8s_from_16(data);
        self.d = u8s.0;
        self.e = u8s.1;
    }

    /// One extended-table instruction: the byte after the prefix escape.
    /// Does not move the program counter; the caller accounts for the
    /// 2-byte encoded length.
    pub fn execute_cb(&mut self, opcode: u8) -> (r: Result<(), CpuFault>)
        ensures
            cb_handled(opcode) ==> r == Ok::<(), CpuFault>(()) && *final(self) == (Cpu {
                f: set_flag(old(self).f, Z_FLAG, (old(self).h & 0x80) >> 7 == 0),
                ..*old(self)
            }),
            !cb_handled(opcode) ==> r == Err::<(), CpuFault>(CpuFault::UnhandledPrefixed {
                prefix: 0xcb,
                opcode,
                pc: old(self).pc,
            }) && *final(self) == *old(self),
    {
        match opcode {
            0x7c => {
                // BIT 7, H: Zero flag from the complement of bit 7 of H
                let bit = (self.h & 0x80) >> 7 == 0;
                self.set_z(bit);
                Ok(())
            },
            _ => Err(CpuFault::UnhandledPrefixed { prefix: 0xcb, opcode, pc: self.pc }),
        }
    }

    /// Fetches the opcode at the program counter, performs the instruction's
    /// defined effects on registers, flags and memory, and advances the
    /// program counter by the instruction's encoded length — exactly
    /// `cpu_step`. An opcode outside the enumerated set changes nothing and
    /// reports the fault, with the offending byte and the program counter.
    pub fn execute(&mut self, mmu: &mut Mmu) -> (r: Result<(), CpuFault>)
        ensures
            ({
                let op = old(mmu)@[old(self).pc as int];
                let cb = old(mmu)@[old(self).pc.wrapping_add(1) as int];
                &&& (step_handled(op, cb) ==> {
                    &&& r == Ok::<(), CpuFault>(())
                    &&& *final(self) == cpu_step(*old(self), old(mmu)@).0
                    &&& final(mmu)@ == cpu_step(*old(self), old(mmu)@).1
                })
                &&& (!main_handled(op) ==> r == Err::<(), CpuFault>(CpuFault::Unhandled {
                    opcode: op,
                    pc: old(self).pc,
                }) && *final(self) == *old(self) && final(mmu)@ == old(mmu)@)
                &&& (op == 0xcb && !cb_handled(cb) ==> r == Err::<(), CpuFault>(
                    CpuFault::UnhandledPrefixed { prefix: 0xcb, opcode: cb, pc: old(self).pc },
                ) && *final(self) == *old(self) && final(mmu)@ == old(mmu)@)
            }),
    {
        let pc0 = self.pc;
        let opcode = mmu.read_byte(pc0);

        match opcode {
            0x31 => {
                // load the next two bytes into SP, little-endian
                let lo = mmu.read_byte(pc0.wrapping_add(1));
                let hi = mmu.read_byte(pc0.wrapping_add(2));
                self.sp = u16_from_u8s(hi, lo);
                self.pc = pc0.wrapping_add(3);
                Ok(())
            },
            0xaf => {
                // XOR A with itself
                self.a = self.a ^ self.a;
                self.pc = pc0.wrapping_add(1);
                Ok(())
            },
            0x21 => {
                // load the next two bytes into HL
                self.h = mmu.read_byte(pc0.wrapping_add(2));
                self.l = mmu.read_byte(pc0.wrapping_add(1));
                self.pc = pc0.wrapping_add(3);
                Ok(())
            },
            0x32 => {
                // decrement HL, then write A through the decremented address
                let addr = self.hl().wrapping_sub(1);
                self.set_hl(addr);
                mmu.write_byte(addr, self.a);
                self.pc = pc0.wrapping_add(1);
                Ok(())
            },
            0xcb => {
                let cb_code = mmu.read_byte(pc0.wrapping_add(1));
                match self.execute_cb(cb_code) {
                    Ok(()) => {
                        self.pc = pc0.wrapping_add(2);
                        Ok(())
                    },
                    Err(fault) => Err(fault),
                }
            },
            0x20 => {
                // jump by the next byte as a signed offset if Zero is clear
                let jump = mmu.read_byte(pc0.wrapping_add(1));
                if !self.z() {
                    self.pc = rel_jump(pc0.wrapping_add(2), jump);
                } else {
                    self.pc = pc0.wrapping_add(2);
                }
                Ok(())
            },
            0x0e => {
                // load the next byte into C
                self.c = mmu.read_byte(pc0.wrapping_add(1));
                self.pc = pc0.wrapping_add(2);
                Ok(())
            },
            0x3e => {
                // load the next byte into A
                self.a = mmu.read_byte(pc0.wrapping_add(1));
                self.pc = pc0.wrapping_add(2);
                Ok(())
            },
            0xe2 => {
                // write A to 0xFF00 + C
                mmu.write_byte(0xff00 + (self.c as u16), self.a);
                self.pc = pc0.wrapping_add(1);
                Ok(())
            },
            0x0c => {
                // increment C
                let v = self.c;
                self.c = v.wrapping_add(1);
                self.set_n(false);
                self.set_hc(eight_bit_hc(v, 1));
                self.set_z(self.c == 0);
                self.pc = pc0.wrapping_add(1);
                Ok(())
            },
            0x77 => {
                // write A to the address in HL
                mmu.write_byte(self.hl(), self.a);
                self.pc = pc0.wrapping_add(1);
                Ok(())
            },
            0xe0 => {
                // write A to 0xFF00 + the next byte
                let operand = mmu.read_byte(pc0.wrapping_add(1));
                mmu.write_byte(0xff00 + (operand as u16), self.a);
                self.pc = pc0.wrapping_add(2);
                Ok(())
            },
            0x11 => {
                // load the next two bytes into DE
                self.d = mmu.read_byte(pc0.wrapping_add(2));
                self.e = mmu.read_byte(pc0.wrapping_add(1));
                self.pc = pc0.wrapping_add(3);
                Ok(())
            },
            0x1a => {
                // load A from the address in DE
                self.a = mmu.read_byte(self.de());
                self.pc = pc0.wrapping_add(1);
                Ok(())
            },
            0xcd => {
                // call: push the current program counter, jump to the target
                let lo = mmu.read_byte(pc0.wrapping_add(1));
                let hi = mmu.read_byte(pc0.wrapping_add(2));
                let ret = u8s_from_16(pc0);
                mmu.write_byte(self.sp.wrapping_sub(1), ret.0);
                mmu.write_byte(self.sp.wrapping_sub(2), ret.1);
                self.sp = self.sp.wrapping_sub(2);
                self.pc = u16_from_u8s(hi, lo);
                Ok(())
            },
            0x13 => {
                // increment DE
                self.set_de(self.de().wrapping_add(1));
                self.pc = pc0.wrapping_add(1);
                Ok(())
            },
            0x7b => {
                // load E into A
                self.a = self.e;
                self.pc = pc0.wrapping_add(1);
                Ok(())
            },
            0xfe => {
                // compare A with the next byte by subtraction; A unchanged
                let operand = mmu.read_byte(pc0.wrapping_add(1));
                self.set_n(true);
                self.set_z(self.a == operand);
                self.set_hc((self.a & 0xf) < (operand & 0xf));
                self.set_c(self.a < operand);
                self.pc = pc0.wrapping_add(2);
                Ok(())
            },
            0x06 => {
                // load the next byte into B
                self.b = mmu.read_byte(pc0.wrapping_add(1));
                self.pc = pc0.wrapping_add(2);
                Ok(())
            },
            0x22 => {
                // increment HL, then write A through the incremented address
                let addr = self.hl().wrapping_add(1);
                self.set_hl(addr);
                mmu.write_byte(addr, self.a);
                self.pc = pc0.wrapping_add(1);
                Ok(())
            },
            0x23 => {
                // increment HL
                self.set_hl(self.hl().wrapping_add(1));
                self.pc = pc0.wrapping_add(1);
                Ok(())
            },
            0x05 => {
                // decrement B
                let v = self.b;
                self.b = v.wrapping_sub(1);
                self.set_n(true);
                self.set_hc(v & 0xf == 0);
                self.set_z(self.b == 0);
                self.pc = pc0.wrapping_add(1);
                Ok(())
            },
            0xea => {
                // write A to the address in the next two bytes
                let lo = mmu.read_byte(pc0.wrapping_add(1));
                let hi = mmu.read_byte(pc0.wrapping_add(2));
                let addr = u16_from_u8s(hi, lo);
                mmu.write_byte(addr, self.a);
                self.pc = pc0.wrapping_add(3);
                Ok(())
            },
            0x3d => {
                // decrement A
                let v = self.a;
                self.a = v.wrapping_sub(1);
                self.set_n(true);
                self.set_hc(v & 0xf == 0);
                self.set_z(self.a == 0);
                self.pc = pc0.wrapping_add(1);
                Ok(())
            },
            0x28 => {
                // jump by the next byte as a signed offset if Zero is set
                let jump = mmu.read_byte(pc0.wrapping_add(1));
                if self.z() {
                    self.pc = rel_jump(pc0.wrapping_add(2), jump);
                } else {
                    self.pc = pc0.wrapping_add(2);
                }
                Ok(())
            },
            0x0d => {
                // decrement C
                let v = self.c;
                self.c = v.wrapping_sub(1);
                self.set_n(true);
                self.set_hc(v & 0xf == 0);
                self.set_z(self.c == 0);
                self.pc = pc0.wrapping_add(1);
                Ok(())
            },
            0x2e => {
                // load the next byte into L
                self.l = mmu.read_byte(pc0.wrapping_add(1));
                self.pc = pc0.wrapping_add(2);
                Ok(())
            },
            0x18 => {
                // jump by the next byte as a signed offset, unconditionally
                let jump = mmu.read_byte(pc0.wrapping_add(1));
                self.pc = rel_jump(pc0.wrapping_add(2), jump);
                Ok(())
            },
            0x67 => {
                // load A into H
                self.h = self.a;
                self.pc = pc0.wrapping_add(1);
                Ok(())
            },
            0x57 => {
                // load A into D
                self.d = self.a;
                self.pc = pc0.wrapping_add(1);
                Ok(())
            },
            0x04 => {
                // increment B
                let v = self.b;
                self.b = v.wrapping_add(1);
                self.set_n(false);
                self.set_hc(eight_bit_hc(v, 1));
                self.set_z(self.b == 0);
                self.pc = pc0.wrapping_add(1);
                Ok(())
            },
            0x1e => {
                // load the next byte into E
                self.e = mmu.read_byte(pc0.wrapping_add(1));
                self.pc = pc0.wrapping_add(2);
                Ok(())
            },
            0xf0 => {
                // load A from 0xFF00 | the next byte
                let operand = mmu.read_byte(pc0.wrapping_add(1));
                let addr = 0xff00 | (operand as u16);
                self.a = mmu.read_byte(addr);
                self.pc = pc0.wrapping_add(2);
                Ok(())
            },
            0x24 => {
                // increment H
                let v = self.h;
                self.h = v.wrapping_add(1);
                self.set_n(false);
                self.set_hc(eight_bit_hc(v, 1));
                self.set_z(self.h == 0);
                self.pc = pc0.wrapping_add(1);
                Ok(())
            },
            0x7c => {
                // load H into A
                self.a = self.h;
                self.pc = pc0.wrapping_add(1);
                Ok(())
            },
            0x90 => {
                // subtract B from A, store in A
                let result = self.a.wrapping_sub(self.b);
                self.set_n(true);
                self.set_z(result == 0);
                self.a = result;
                self.pc = pc0.wrapping_add(1);
                Ok(())
            },
            0x15 => {
                // decrement D
                let v = self.d;
                self.d = v.wrapping_sub(1);
                self.set_n(true);
                self.set_hc(v & 0xf == 0);
                self.set_z(self.d == 0);
                self.pc = pc0.wrapping_add(1);
                Ok(())
            },
            0x16 => {
                // load the next byte into D
                self.d = mmu.read_byte(pc0.wrapping_add(1));
                self.pc = pc0.wrapping_add(2);
                Ok(())
            },
            _ => Err(CpuFault::Unhandled { opcode, pc: pc0 }),
        }
    }
}

} // verus!
