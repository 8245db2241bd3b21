//! Laws of the engine: properties of the instruction semantics stated over
//! the specification model and proved once for every input.

use vstd::prelude::*;

use crate::cpu::{draw_hits, spec_execute, CpuView};
use crate::instructions::Instructions;

verus! {

/// Add law: for any registers `x`, `y` holding values `a`, `b`, the add
/// instruction sets the flag to 1 exactly when `a + b` exceeds 255, and
/// (unless `x` is the flag register itself, which the flag write overwrites)
/// leaves `(a + b) mod 256` in register `x`.
pub proof fn lemma_add_carry(s: CpuView, x: u8, y: u8, rnd: u8)
    requires
        s.regs.len() == 16,
        x < 16,
        y < 16,
    ensures
        spec_execute(s, Instructions::AssignAddValue { x, y }, rnd) is Ok,
        ({
            let a = s.regs[x as int];
            let b = s.regs[y as int];
            let s1 = spec_execute(s, Instructions::AssignAddValue { x, y }, rnd)->Ok_0;
            &&& s1.regs[15] == (if a + b > 255 {
                1u8
            } else {
                0u8
            })
            &&& x != 15 ==> s1.regs[x as int] == ((a + b) % 256) as u8
        }),
{
}

/// Subtract law: for any registers `x`, `y` holding values `a`, `b`, the
/// subtract instruction sets the flag to 1 exactly when `a >= b` (no borrow),
/// and (unless `x` is the flag register itself) leaves `(a - b) mod 256` in
/// register `x`, with two's-complement wraparound.
pub proof fn lemma_sub_borrow(s: CpuView, x: u8, y: u8, rnd: u8)
    requires
        s.regs.len() == 16,
        x < 16,
        y < 16,
    ensures
        spec_execute(s, Instructions::AssignSubValue { x, y }, rnd) is Ok,
        ({
            let a = s.regs[x as int];
            let b = s.regs[y as int];
            let s1 = spec_execute(s, Instructions::AssignSubValue { x, y }, rnd)->Ok_0;
            &&& s1.regs[15] == (if a >= b {
                1u8
            } else {
                0u8
            })
            &&& x != 15 ==> s1.regs[x as int] == ((a - b) % 256) as u8
        }),
{
}

/// Shift-right law: shifting register `x` holding `v` leaves `v >> 1` in the
/// register (unless `x` is the flag register itself) and `v & 1` in the flag.
pub proof fn lemma_shift_right(s: CpuView, x: u8, rnd: u8)
    requires
        s.regs.len() == 16,
        x < 16,
    ensures
        spec_execute(s, Instructions::ShiftRight { x }, rnd) is Ok,
        ({
            let v = s.regs[x as int];
            let s1 = spec_execute(s, Instructions::ShiftRight { x }, rnd)->Ok_0;
            &&& s1.regs[15] == v & 1
            &&& x != 15 ==> s1.regs[x as int] == v >> 1u8
        }),
{
    let v = s.regs[x as int];
    assert(v >> 1u8 == (v / 2) as u8) by (bit_vector);
    assert(v & 1 == (v % 2) as u8) by (bit_vector);
}

/// Shift-left law: shifting register `x` holding `v` leaves `(v << 1) mod
/// 256` in the register (unless `x` is the flag register itself) and the old
/// most significant bit `(v >> 7) & 1` in the flag.
pub proof fn lemma_shift_left(s: CpuView, x: u8, rnd: u8)
    requires
        s.regs.len() == 16,
        x < 16,
    ensures
        spec_execute(s, Instructions::ShiftLeft { x }, rnd) is Ok,
        ({
            let v = s.regs[x as int];
            let s1 = spec_execute(s, Instructions::ShiftLeft { x }, rnd)->Ok_0;
            &&& s1.regs[15] == (v >> 7u8) & 1
            &&& x != 15 ==> s1.regs[x as int] == v << 1u8
        }),
{
    let v = s.regs[x as int];
    assert(v << 1u8 == ((v * 2) % 256) as u8) by (bit_vector);
    assert((v >> 7u8) & 1 == (v / 128) as u8) by (bit_vector);
}

/// Round-trip law: a register dump followed by a register load of the same
/// range, with the index register reset to its original value in between,
/// reproduces the original register contents bit for bit; the index register
/// ends incremented by `x + 1`, as it does after either operation alone.
pub proof fn lemma_dump_load_roundtrip(s: CpuView, x: u8, rnd1: u8, rnd2: u8)
    requires
        s.mem.len() == 4096,
        s.regs.len() == 16,
        x < 16,
        s.index + x < 4096,
    ensures
        spec_execute(s, Instructions::RegDump { x }, rnd1) is Ok,
        ({
            let s1 = spec_execute(s, Instructions::RegDump { x }, rnd1)->Ok_0;
            let s2 = CpuView { index: s.index, ..s1 };
            &&& s1.index == s.index + x + 1
            &&& spec_execute(s2, Instructions::RegLoad { x }, rnd2) is Ok
            &&& spec_execute(s2, Instructions::RegLoad { x }, rnd2)->Ok_0.regs == s.regs
            &&& spec_execute(s2, Instructions::RegLoad { x }, rnd2)->Ok_0.index == s.index + x + 1
        }),
{
    let s1 = spec_execute(s, Instructions::RegDump { x }, rnd1)->Ok_0;
    let s2 = CpuView { index: s.index, ..s1 };
    let s3 = spec_execute(s2, Instructions::RegLoad { x }, rnd2)->Ok_0;
    assert forall|i: int| 0 <= i < 16 implies s3.regs[i] == s.regs[i] by {
        if i <= x {
            assert(s2.mem[s2.index + i] == s.regs[i]);
        }
    }
    assert(s3.regs =~= s.regs);
}

/// Even-repetition law: drawing the identical sprite at the identical
/// position twice in a row restores the framebuffer, because the blit is an
/// XOR; and the second draw reports a collision exactly when the first draw
/// set some cell that had been clear, since those are the set cells the
/// second pass touches.
pub proof fn lemma_draw_even_repetition(s: CpuView, x: u8, y: u8, h: u8, rnd1: u8, rnd2: u8)
    requires
        s.wf(),
        x < 16,
        y < 16,
        h < 16,
        x != 15,
        y != 15,
        spec_execute(s, Instructions::Display { x, y, value: h }, rnd1) is Ok,
    ensures
        ({
            let d = Instructions::Display { x, y, value: h };
            let vx = s.regs[x as int];
            let vy = s.regs[y as int];
            let s1 = spec_execute(s, d, rnd1)->Ok_0;
            &&& spec_execute(s1, d, rnd2) is Ok
            &&& spec_execute(s1, d, rnd2)->Ok_0.gfx == s.gfx
            &&& (spec_execute(s1, d, rnd2)->Ok_0.regs[15] == 1 <==> exists|i: int|
                0 <= i < 2048 && #[trigger] draw_hits(s.mem, s.index, vx, vy, h, i) && s.gfx[i]
                    == 0)
        }),
{
    let d = Instructions::Display { x, y, value: h };
    let vx = s.regs[x as int];
    let vy = s.regs[y as int];
    let s1 = spec_execute(s, d, rnd1)->Ok_0;
    assert(s1.regs[x as int] == vx && s1.regs[y as int] == vy);
    assert(s1.mem == s.mem && s1.index == s.index);
    let s2 = spec_execute(s1, d, rnd2)->Ok_0;
    assert forall|i: int| 0 <= i < 2048 implies s2.gfx[i] == s.gfx[i] by {
        assert(s.gfx[i] <= 1);
    }
    assert(s2.gfx =~= s.gfx);
    if s2.regs[15] == 1 {
        let i = choose|i: int|
            0 <= i < 2048 && #[trigger] draw_hits(s.mem, s.index, vx, vy, h, i) && s1.gfx[i] == 1;
        assert(s.gfx[i] <= 1);
        assert(s1.gfx[i] == 1 - s.gfx[i]);
        assert(s.gfx[i] == 0);
    }
    if exists|i: int|
        0 <= i < 2048 && #[trigger] draw_hits(s.mem, s.index, vx, vy, h, i) && s.gfx[i] == 0 {
        let i = choose|i: int|
            0 <= i < 2048 && #[trigger] draw_hits(s.mem, s.index, vx, vy, h, i) && s.gfx[i] == 0;
        assert(s1.gfx[i] == 1 - s.gfx[i]);
        assert(s1.gfx[i] == 1);
        assert(s2.regs[15] == 1);
    }
}

/// Clear-then-draw law: a clear screen followed immediately by any
/// successful draw leaves the framebuffer exactly equal to the sprite's own
/// bit pattern overlaid on zero, with no collision flag set.
pub proof fn lemma_clear_then_draw(s: CpuView, x: u8, y: u8, h: u8, rnd1: u8, rnd2: u8)
    requires
        s.wf(),
        x < 16,
        y < 16,
        h < 16,
        ({
            let s1 = spec_execute(s, Instructions::ClearScreen, rnd1)->Ok_0;
            spec_execute(s1, Instructions::Display { x, y, value: h }, rnd2) is Ok
        }),
    ensures
        spec_execute(s, Instructions::ClearScreen, rnd1) is Ok,
        ({
            let vx = s.regs[x as int];
            let vy = s.regs[y as int];
            let s1 = spec_execute(s, Instructions::ClearScreen, rnd1)->Ok_0;
            let s2 = spec_execute(s1, Instructions::Display { x, y, value: h }, rnd2)->Ok_0;
            &&& s2.regs[15] == 0
            &&& forall|i: int|
                0 <= i < 2048 ==> s2.gfx[i] == (if draw_hits(s.mem, s.index, vx, vy, h, i) {
                    1u8
                } else {
                    0u8
                })
        }),
{
    let vx = s.regs[x as int];
    let vy = s.regs[y as int];
    let s1 = spec_execute(s, Instructions::ClearScreen, rnd1)->Ok_0;
    let s2 = spec_execute(s1, Instructions::Display { x, y, value: h }, rnd2)->Ok_0;
    assert(s1.mem == s.mem && s1.index == s.index);
    if crate::cpu::draw_collides(s1.mem, s1.index, s1.gfx, vx, vy, h) {
        let i = choose|i: int|
            0 <= i < 2048 && #[trigger] draw_hits(s1.mem, s1.index, vx, vy, h, i) && s1.gfx[i]
                == 1;
        assert(s1.gfx[i] == 0);
        assert(false);
    }
    assert(s2.regs[15] == 0);
}

} // verus!

