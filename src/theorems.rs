//! Laws of the instruction set, proved over the machine model.

use vstd::prelude::*;
use crate::cpu::{
    CpuError, CpuView, FLAG, MEMORY_SIZE, blit, blit_collides, exec_spec, op_family, op_n, op_nnn,
    op_x, op_y, sprite_at,
};
use crate::display::NUM_OF_BLOCKS;

verus! {

/// `8xy4` with `Vx = a` and `Vy = b` sets the flag exactly when `a + b`
/// exceeds 255 and leaves `(a + b) mod 256` in `Vx`.
pub proof fn lemma_add_sets_carry(s: CpuView, op: u16, now: u64, rnd: u8)
    requires
        s.wf(),
        op_family(op) == 0x8,
        op_n(op) == 0x4,
        op_x(op) != FLAG,
    ensures
        exec_spec(s, op, now, rnd) is Ok,
        exec_spec(s, op, now, rnd)->Ok_0.v[FLAG as int] == (if s.v[op_x(op)] + s.v[op_y(op)] > 255 { 1u8 } else { 0u8 }),
        exec_spec(s, op, now, rnd)->Ok_0.v[op_x(op)] == (s.v[op_x(op)] + s.v[op_y(op)]) % 256,
{
    crate::cpu::lemma_decode(op);
}

/// `8xy5` with `Vx = a` and `Vy = b` sets the flag to 1 exactly when
/// `a > b` and leaves `(a - b) mod 256` in `Vx`.
pub proof fn lemma_sub_sets_not_borrow(s: CpuView, op: u16, now: u64, rnd: u8)
    requires
        s.wf(),
        op_family(op) == 0x8,
        op_n(op) == 0x5,
        op_x(op) != FLAG,
        op_y(op) != FLAG,
    ensures
        exec_spec(s, op, now, rnd) is Ok,
        exec_spec(s, op, now, rnd)->Ok_0.v[FLAG as int] == (if s.v[op_x(op)] > s.v[op_y(op)] { 1u8 } else { 0u8 }),
        exec_spec(s, op, now, rnd)->Ok_0.v[op_x(op)] == (s.v[op_x(op)] - s.v[op_y(op)] + 256) % 256,
{
    crate::cpu::lemma_decode(op);
}

/// `8xy6` puts the bit shifted out of `Vx`, its least significant bit, in
/// the flag, and halves `Vx`.
pub proof fn lemma_shift_right(s: CpuView, op: u16, now: u64, rnd: u8)
    requires
        s.wf(),
        op_family(op) == 0x8,
        op_n(op) == 0x6,
        op_x(op) != FLAG,
    ensures
        exec_spec(s, op, now, rnd) is Ok,
        exec_spec(s, op, now, rnd)->Ok_0.v[FLAG as int] == s.v[op_x(op)] % 2,
        exec_spec(s, op, now, rnd)->Ok_0.v[op_x(op)] == s.v[op_x(op)] / 2,
{
    crate::cpu::lemma_decode(op);
}

/// `8xyE` puts the bit shifted out of `Vx`, its most significant bit, in
/// the flag as the value 0x80 or 0, and doubles `Vx` within eight bits.
pub proof fn lemma_shift_left(s: CpuView, op: u16, now: u64, rnd: u8)
    requires
        s.wf(),
        op_family(op) == 0x8,
        op_n(op) == 0xE,
        op_x(op) != FLAG,
    ensures
        exec_spec(s, op, now, rnd) is Ok,
        exec_spec(s, op, now, rnd)->Ok_0.v[FLAG as int] == (if s.v[op_x(op)] >= 128 { 0x80u8 } else { 0u8 }),
        exec_spec(s, op, now, rnd)->Ok_0.v[op_x(op)] == (s.v[op_x(op)] * 2) % 256,
{
    crate::cpu::lemma_decode(op);
}

/// Drawing the same sprite at the same place twice gives the display back
/// as it was, and the second draw reports a collision exactly when some
/// pixel of the sprite is on after the first.
pub proof fn lemma_draw_twice_restores(s: CpuView, op: u16, now: u64, rnd: u8)
    requires
        s.wf(),
        s.pc + 2 < MEMORY_SIZE,
        op_family(op) == 0xD,
        op_x(op) != FLAG,
        op_y(op) != FLAG,
        exec_spec(s, op, now, rnd) is Ok,
    ensures
        ({
            let t1 = exec_spec(s, op, now, rnd)->Ok_0;
            let xs = (s.v[op_x(op)] % 64) as int;
            let ys = (s.v[op_y(op)] % 32) as int;
            let n = op_n(op) as int;
            &&& exec_spec(t1, op, now, rnd) is Ok
            &&& exec_spec(t1, op, now, rnd)->Ok_0.display == s.display
            &&& (exec_spec(t1, op, now, rnd)->Ok_0.v[FLAG as int] == 1u8 <==> exists|k: int|
                0 <= k < NUM_OF_BLOCKS && #[trigger] t1.display[k] && sprite_at(s.memory, s.i as int, n, xs, ys, k))
        }),
{
    crate::cpu::lemma_decode(op);
    let t1 = exec_spec(s, op, now, rnd)->Ok_0;
    let xs = (s.v[op_x(op)] % 64) as int;
    let ys = (s.v[op_y(op)] % 32) as int;
    let n = op_n(op) as int;
    assert(t1.v[op_x(op)] == s.v[op_x(op)]);
    assert(t1.v[op_y(op)] == s.v[op_y(op)]);
    let d1 = blit(s.display, s.memory, s.i as int, n, xs, ys);
    assert(t1.display == d1);
    assert(blit(d1, s.memory, s.i as int, n, xs, ys) =~= s.display);
    if blit_collides(d1, s.memory, s.i as int, n, xs, ys) {
        let k = choose|k: int| 0 <= k < d1.len() && #[trigger] d1[k] && sprite_at(s.memory, s.i as int, n, xs, ys, k);
        assert(t1.display[k]);
    }
}

/// A call followed by a return brings the program counter back to the
/// instruction after the call, and the call stack back to what it was.
pub proof fn lemma_call_then_return(s: CpuView, call: u16, now: u64, rnd: u8)
    requires
        s.wf(),
        s.pc < MEMORY_SIZE,
        op_family(call) == 0x2,
    ensures
        exec_spec(s, call, now, rnd) is Ok,
        exec_spec(s, call, now, rnd)->Ok_0.pc == op_nnn(call),
        exec_spec(exec_spec(s, call, now, rnd)->Ok_0, 0x00EE, now, rnd) is Ok,
        exec_spec(exec_spec(s, call, now, rnd)->Ok_0, 0x00EE, now, rnd)->Ok_0.pc == s.pc + 2,
        exec_spec(exec_spec(s, call, now, rnd)->Ok_0, 0x00EE, now, rnd)->Ok_0.stack == s.stack,
{
    crate::cpu::lemma_decode(call);
    let t1 = exec_spec(s, call, now, rnd)->Ok_0;
    assert(op_family(0x00EEu16) == 0) by (bit_vector);
    assert(t1.stack.drop_last() =~= s.stack);
}

/// An opcode outside the instruction table is a fatal error, never a
/// silent no-op: in the arithmetic family only nibbles 0 to 7 and E are
/// defined, in the key family only bytes 9E and A1, and in the last family
/// only the bytes of its table.
pub proof fn lemma_unknown_opcode_is_fatal(s: CpuView, op: u16, now: u64, rnd: u8)
    requires
        s.wf(),
        ({
            let kk = op & 0x00FFu16;
            ||| op_family(op) == 0x8 && !(op_n(op) <= 0x7 || op_n(op) == 0xE)
            ||| op_family(op) == 0xE && kk != 0x9E && kk != 0xA1
            ||| op_family(op) == 0xF && kk != 0x07 && kk != 0x0A && kk != 0x15 && kk != 0x18
                && kk != 0x1E && kk != 0x29 && kk != 0x33 && kk != 0x55 && kk != 0x65
        }),
    ensures
        exec_spec(s, op, now, rnd) == Err::<CpuView, CpuError>(CpuError::UnknownOpcode(op)),
{
    crate::cpu::lemma_decode(op);
}

} // verus!
