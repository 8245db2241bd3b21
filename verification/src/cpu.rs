//! The execution engine: all mutable machine state, advanced one instruction
//! per cycle.

use vstd::prelude::*;
use vstd::assert_seqs_equal;

use crate::Fault;
use crate::instructions::{Instructions, spec_decode};

verus! {

/// The mathematical model of the machine: every piece of mutable state as a
/// plain sequence or number.
#[verifier::ext_equal]
pub ghost struct CpuView {
    /// 4096 bytes of memory.
    pub mem: Seq<u8>,
    /// The sixteen general registers; index 15 doubles as the flag.
    pub regs: Seq<u8>,
    /// The index register.
    pub index: u16,
    /// The program counter.
    pub pc: usize,
    /// The delay timer.
    pub delay: u8,
    /// The sound timer.
    pub sound: u8,
    /// The call stack of return addresses, at most 16 deep.
    pub stack: Seq<usize>,
    /// The sixteen key slots; a slot holding 1 is a pressed key.
    pub keys: Seq<u8>,
    /// The 64x32 framebuffer, row-major, one cell per pixel, each 0 or 1.
    pub gfx: Seq<u8>,
}

impl CpuView {
    /// Well-formedness: the fixed sizes hold, framebuffer cells are bits,
    /// the stack is bounded and holds only addresses a call can have pushed,
    /// and the program counter is at most one skip or offset jump past the
    /// highest address an instruction can set it to.
    pub open spec fn wf(self) -> bool {
        &&& self.mem.len() == 4096
        &&& self.regs.len() == 16
        &&& self.keys.len() == 16
        &&& self.gfx.len() == 2048
        &&& (forall|i: int| 0 <= i < 2048 ==> self.gfx[i] <= 1)
        &&& self.pc <= 0xFFF + 0xFF
        &&& self.stack.len() <= 16
        &&& (forall|i: int| 0 <= i < self.stack.len() ==> self.stack[i] < 4096)
    }
}

/// The first address out of range when an access that starts at `base` runs
/// past the end of memory.
pub open spec fn first_oob(base: int) -> usize {
    if base < 4096 {
        4096
    } else {
        base as usize
    }
}

/// `s` with the program counter advanced by `d` bytes.
pub open spec fn advanced(s: CpuView, d: int) -> CpuView {
    CpuView { pc: (s.pc + d) as usize, ..s }
}

/// `s` with register `x` set to `v`.
pub open spec fn with_reg(s: CpuView, x: u8, v: u8) -> CpuView {
    CpuView { regs: s.regs.update(x as int, v), ..s }
}

/// Bit `c` of a sprite row byte, counted from the most significant bit: the
/// leftmost pixel of the row is bit 0.
pub open spec fn sprite_bit(b: u8, c: int) -> bool {
    ((b >> ((7 - c) as u8)) & 1) == 1
}

/// The sprite rows a draw would read all lie inside memory.
pub open spec fn draw_rows_ok(index: u16, h: u8) -> bool {
    h > 0 ==> index + h - 1 < 4096
}

/// Every set sprite bit lands inside the 64x32 grid.
pub open spec fn draw_coords_ok(mem: Seq<u8>, index: u16, vx: u8, vy: u8, h: u8) -> bool {
    forall|r: int, c: int|
        0 <= r < h && 0 <= c < 8 && #[trigger] sprite_bit(mem[index + r], c) ==> vx + c < 64 && vy
            + r < 32
}

/// Framebuffer cell `i` is touched by the draw: some set sprite bit maps to it.
pub open spec fn draw_hits(mem: Seq<u8>, index: u16, vx: u8, vy: u8, h: u8, i: int) -> bool {
    exists|r: int, c: int|
        0 <= r < h && 0 <= c < 8 && #[trigger] sprite_bit(mem[index + r], c) && i == (vy + r) * 64
            + (vx + c)
}

/// The draw touches a cell that is already set.
pub open spec fn draw_collides(
    mem: Seq<u8>,
    index: u16,
    gfx: Seq<u8>,
    vx: u8,
    vy: u8,
    h: u8,
) -> bool {
    exists|i: int| 0 <= i < 2048 && #[trigger] draw_hits(mem, index, vx, vy, h, i) && gfx[i] == 1
}

/// The framebuffer after the draw: every touched cell flipped, the rest kept.
pub open spec fn draw_gfx(
    mem: Seq<u8>,
    index: u16,
    gfx: Seq<u8>,
    vx: u8,
    vy: u8,
    h: u8,
) -> Seq<u8> {
    Seq::new(
        2048,
        |i: int|
            if draw_hits(mem, index, vx, vy, h, i) {
                (1 - gfx[i]) as u8
            } else {
                gfx[i]
            },
    )
}

/// `draw_hits` restricted to the sprite prefix before row `r0`, plus the
/// first `c0` columns of row `r0` itself: the part of the sprite a
/// row-by-row blit has already applied.
pub open spec fn draw_hits_upto(
    mem: Seq<u8>,
    index: u16,
    vx: u8,
    vy: u8,
    r0: int,
    c0: int,
    i: int,
) -> bool {
    exists|rr: int, cc: int|
        0 <= rr && 0 <= cc < 8 && (rr < r0 || (rr == r0 && cc < c0)) && #[trigger] sprite_bit(
            mem[index + rr],
            cc,
        ) && i == (vy + rr) * 64 + (vx + cc)
}

/// `draw_collides` restricted to the same sprite prefix as `draw_hits_upto`.
pub open spec fn draw_collides_upto(
    mem: Seq<u8>,
    index: u16,
    gfx: Seq<u8>,
    vx: u8,
    vy: u8,
    r0: int,
    c0: int,
) -> bool {
    exists|rr: int, cc: int|
        0 <= rr && 0 <= cc < 8 && (rr < r0 || (rr == r0 && cc < c0)) && #[trigger] sprite_bit(
            mem[index + rr],
            cc,
        ) && gfx[(vy + rr) * 64 + (vx + cc)] == 1
}

/// The effect of one decoded instruction on the machine state, or the fault
/// it raises. A fault leaves the state untouched.
pub open spec fn spec_execute(s: CpuView, inst: Instructions, rnd: u8) -> Result<CpuView, Fault> {
    match inst {
        Instructions::ClearScreen => Ok(
            advanced(CpuView { gfx: Seq::new(2048, |i: int| 0u8), ..s }, 2),
        ),
        Instructions::Return => {
            if s.stack.len() == 0 {
                Err(Fault::StackUnderflow)
            } else {
                Ok(
                    CpuView {
                        stack: s.stack.drop_last(),
                        pc: (s.stack.last() + 2) as usize,
                        ..s
                    },
                )
            }
        },
        Instructions::JumpToAddress(a) => Ok(CpuView { pc: a as usize, ..s }),
        Instructions::CallSub(a) => {
            if s.stack.len() >= 16 {
                Err(Fault::StackOverflow)
            } else {
                Ok(CpuView { stack: s.stack.push(s.pc), pc: a as usize, ..s })
            }
        },
        Instructions::SkipIfEqual { x, value } => Ok(
            advanced(
                s,
                if s.regs[x as int] == value {
                    4
                } else {
                    2
                },
            ),
        ),
        Instructions::SkipIfNotEqualValue { x, value } => Ok(
            advanced(
                s,
                if s.regs[x as int] != value {
                    4
                } else {
                    2
                },
            ),
        ),
        Instructions::SkipIfRegEqual { x, y } => Ok(
            advanced(
                s,
                if s.regs[x as int] == s.regs[y as int] {
                    4
                } else {
                    2
                },
            ),
        ),
        Instructions::SetValueToReg { x, value } => Ok(advanced(with_reg(s, x, value), 2)),
        Instructions::AddValueToReg { x, value } => Ok(
            advanced(with_reg(s, x, ((s.regs[x as int] + value) % 256) as u8), 2),
        ),
        Instructions::AssignValueToReg { x, y } => Ok(
            advanced(with_reg(s, x, s.regs[y as int]), 2),
        ),
        Instructions::AssignOrValue { x, y } => Ok(
            advanced(with_reg(s, x, s.regs[x as int] | s.regs[y as int]), 2),
        ),
        Instructions::AssignAndValue { x, y } => Ok(
            advanced(with_reg(s, x, s.regs[x as int] & s.regs[y as int]), 2),
        ),
        Instructions::AssignXorValue { x, y } => Ok(
            advanced(with_reg(s, x, s.regs[x as int] ^ s.regs[y as int]), 2),
        ),
        Instructions::AssignAddValue { x, y } => {
            let a = s.regs[x as int];
            let b = s.regs[y as int];
            let flag: u8 = if a + b > 255 {
                1
            } else {
                0
            };
            Ok(
                advanced(
                    CpuView {
                        regs: s.regs.update(x as int, ((a + b) % 256) as u8).update(15, flag),
                        ..s
                    },
                    2,
                ),
            )
        },
        Instructions::AssignSubValue { x, y } => {
            let a = s.regs[x as int];
            let b = s.regs[y as int];
            let flag: u8 = if a >= b {
                1
            } else {
                0
            };
            Ok(
                advanced(
                    CpuView {
                        regs: s.regs.update(x as int, ((a - b) % 256) as u8).update(15, flag),
                        ..s
                    },
                    2,
                ),
            )
        },
        Instructions::ShiftRight { x } => {
            let a = s.regs[x as int];
            Ok(
                advanced(
                    CpuView {
                        regs: s.regs.update(x as int, (a / 2) as u8).update(15, (a % 2) as u8),
                        ..s
                    },
                    2,
                ),
            )
        },
        Instructions::AssignMinusValue { x, y } => {
            let a = s.regs[x as int];
            let b = s.regs[y as int];
            let flag: u8 = if b >= a {
                1
            } else {
                0
            };
            Ok(
                advanced(
                    CpuView {
                        regs: s.regs.update(x as int, ((b - a) % 256) as u8).update(15, flag),
                        ..s
                    },
                    2,
                ),
            )
        },
        Instructions::ShiftLeft { x } => {
            let a = s.regs[x as int];
            Ok(
                advanced(
                    CpuView {
                        regs: s.regs.update(x as int, ((a * 2) % 256) as u8).update(
                            15,
                            (a / 128) as u8,
                        ),
                        ..s
                    },
                    2,
                ),
            )
        },
        Instructions::SkipIfRegNotEqual { x, y } => Ok(
            advanced(
                s,
                if s.regs[x as int] != s.regs[y as int] {
                    4
                } else {
                    2
                },
            ),
        ),
        Instructions::SetMem { value } => Ok(advanced(CpuView { index: value, ..s }, 2)),
        Instructions::JumpToValue { value } => Ok(
            CpuView { pc: (value + s.regs[0]) as usize, ..s },
        ),
        Instructions::RandomAnd { x, value } => Ok(advanced(with_reg(s, x, rnd & value), 2)),
        Instructions::Display { x, y, value } => {
            let vx = s.regs[x as int];
            let vy = s.regs[y as int];
            if !draw_rows_ok(s.index, value) {
                Err(Fault::Memory { addr: first_oob(s.index as int) })
            } else if !draw_coords_ok(s.mem, s.index, vx, vy, value) {
                Err(Fault::Screen { x: vx, y: vy })
            } else {
                Ok(
                    advanced(
                        CpuView {
                            regs: s.regs.update(
                                15,
                                if draw_collides(s.mem, s.index, s.gfx, vx, vy, value) {
                                    1u8
                                } else {
                                    0u8
                                },
                            ),
                            gfx: draw_gfx(s.mem, s.index, s.gfx, vx, vy, value),
                            ..s
                        },
                        2,
                    ),
                )
            }
        },
        Instructions::PressedKey { x } => {
            let key = s.regs[x as int];
            if key >= 16 {
                Err(Fault::Key { index: key })
            } else {
                Ok(
                    advanced(
                        s,
                        if s.keys[key as int] == 1 {
                            4
                        } else {
                            2
                        },
                    ),
                )
            }
        },
        Instructions::NotPressedKey { x } => {
            let key = s.regs[x as int];
            if key >= 16 {
                Err(Fault::Key { index: key })
            } else {
                Ok(
                    advanced(
                        s,
                        if s.keys[key as int] != 1 {
                            4
                        } else {
                            2
                        },
                    ),
                )
            }
        },
        Instructions::SetValueToDelayTimer { x } => Ok(advanced(with_reg(s, x, s.delay), 2)),
        Instructions::WaitForKey { x } => {
            let key = s.regs[x as int];
            if key >= 16 {
                Err(Fault::Key { index: key })
            } else if s.keys[key as int] == 1 {
                Ok(advanced(s, 2))
            } else {
                Ok(s)
            }
        },
        Instructions::SetDelayTimerToReg { x } => Ok(
            advanced(CpuView { delay: s.regs[x as int], ..s }, 2),
        ),
        Instructions::SetSoundTimerTOReg { x } => Ok(
            advanced(CpuView { sound: s.regs[x as int], ..s }, 2),
        ),
        Instructions::SetIFromReg { x } => Ok(
            advanced(
                CpuView { index: ((s.index + s.regs[x as int]) % 0x10000) as u16, ..s },
                2,
            ),
        ),
        Instructions::SetIFromSprite { x } => Ok(
            advanced(CpuView { index: (s.regs[x as int] * 5) as u16, ..s }, 2),
        ),
        Instructions::BCD { x } => {
            if s.index + 2 >= 4096 {
                Err(Fault::Memory { addr: first_oob(s.index as int) })
            } else {
                let v = s.regs[x as int];
                Ok(
                    advanced(
                        CpuView {
                            mem: s.mem.update(s.index as int, (v / 100) as u8).update(
                                s.index + 1,
                                ((v / 10) % 10) as u8,
                            ).update(s.index + 2, ((v % 100) % 10) as u8),
                            ..s
                        },
                        2,
                    ),
                )
            }
        },
        Instructions::RegDump { x } => {
            if s.index + x >= 4096 {
                Err(Fault::Memory { addr: first_oob(s.index as int) })
            } else {
                Ok(
                    advanced(
                        CpuView {
                            mem: Seq::new(
                                4096,
                                |i: int|
                                    if s.index <= i <= s.index + x {
                                        s.regs[i - s.index]
                                    } else {
                                        s.mem[i]
                                    },
                            ),
                            index: (s.index + x + 1) as u16,
                            ..s
                        },
                        2,
                    ),
                )
            }
        },
        Instructions::RegLoad { x } => {
            if s.index + x >= 4096 {
                Err(Fault::Memory { addr: first_oob(s.index as int) })
            } else {
                Ok(
                    advanced(
                        CpuView {
                            regs: Seq::new(
                                16,
                                |i: int|
                                    if i <= x {
                                        s.mem[s.index + i]
                                    } else {
                                        s.regs[i]
                                    },
                            ),
                            index: (s.index + x + 1) as u16,
                            ..s
                        },
                        2,
                    ),
                )
            }
        },
    }
}

/// The big-endian 16-bit word at the program counter, or a memory fault at
/// the end of memory.
pub open spec fn spec_fetch(s: CpuView) -> Result<u16, Fault> {
    if s.pc + 1 < 4096 {
        Ok((s.mem[s.pc as int] * 256 + s.mem[s.pc + 1]) as u16)
    } else {
        Err(Fault::Memory { addr: first_oob(s.pc as int) })
    }
}

/// Both timers count down by one if nonzero.
pub open spec fn tick_timers(s: CpuView) -> CpuView {
    CpuView {
        delay: if s.delay > 0 {
            (s.delay - 1) as u8
        } else {
            0
        },
        sound: if s.sound > 0 {
            (s.sound - 1) as u8
        } else {
            0
        },
        ..s
    }
}

/// The audio cue fires on the cycle whose timer decrement takes the sound
/// timer to exactly 1.
pub open spec fn spec_beep(s: CpuView) -> bool {
    s.sound == 2
}

/// One whole cycle: fetch, decode, execute, then decrement the timers. The
/// second component of a successful result is the beep signal. A fault
/// leaves the state untouched.
pub open spec fn spec_cycle(s: CpuView, rnd: u8) -> Result<(CpuView, bool), Fault> {
    match spec_fetch(s) {
        Err(f) => Err(f),
        Ok(op) => match spec_decode(op) {
            None => Err(Fault::Decode { opcode: op }),
            Some(inst) => match spec_execute(s, inst, rnd) {
                Err(f) => Err(f),
                Ok(s1) => Ok((tick_timers(s1), spec_beep(s1))),
            },
        },
    }
}

/// What one cycle promises: on success the state steps to the cycle's result
/// and the beep signal is returned; on a fault the state is untouched and
/// the fault is returned.
pub open spec fn cycle_post(pre: CpuView, post: CpuView, r: Result<bool, Fault>, rnd: u8) -> bool {
    match spec_cycle(pre, rnd) {
        Ok(sb) => post == sb.0 && r == Ok::<bool, Fault>(sb.1),
        Err(f) => post == pre && r == Err::<bool, Fault>(f),
    }
}

/// The built-in glyph table: sixteen five-byte glyphs, one per hex digit.
pub open spec fn fontset_spec() -> Seq<u8> {
    seq![
        0xf0u8, 0x90u8, 0x90u8, 0x90u8, 0xf0u8,
        0x20u8, 0x60u8, 0x20u8, 0x20u8, 0x70u8,
        0xf0u8, 0x10u8, 0xf0u8, 0x80u8, 0xf0u8,
        0xf0u8, 0x10u8, 0xf0u8, 0x10u8, 0xf0u8,
        0x90u8, 0x90u8, 0xf0u8, 0x10u8, 0x10u8,
        0xf0u8, 0x80u8, 0xf0u8, 0x10u8, 0xf0u8,
        0xf0u8, 0x80u8, 0xf0u8, 0x90u8, 0xf0u8,
        0xf0u8, 0x10u8, 0x20u8, 0x40u8, 0x40u8,
        0xf0u8, 0x90u8, 0xf0u8, 0x90u8, 0xf0u8,
        0xf0u8, 0x90u8, 0xf0u8, 0x10u8, 0xf0u8,
        0xf0u8, 0x90u8, 0xf0u8, 0x90u8, 0x90u8,
        0xe0u8, 0x90u8, 0xe0u8, 0x90u8, 0xe0u8,
        0xf0u8, 0x80u8, 0x80u8, 0x80u8, 0x80u8,
        0xe0u8, 0x90u8, 0x90u8, 0x90u8, 0xe0u8,
        0xf0u8, 0x80u8, 0xf0u8, 0x80u8, 0xf0u8,
        0xf0u8, 0x80u8, 0xf0u8, 0x80u8, 0x80u8,
    ]
}

/// The machine as freshly constructed from a program: glyphs at the bottom
/// of memory, the program at the load offset, everything else zero.
pub open spec fn spec_init(p: Seq<u8>) -> CpuView {
    CpuView {
        mem: Seq::new(
            4096,
            |i: int|
                if i < 80 {
                    fontset_spec()[i]
                } else if 0x200 <= i < 0x200 + p.len() {
                    p[i - 0x200]
                } else {
                    0u8
                },
        ),
        regs: Seq::new(16, |i: int| 0u8),
        index: 0,
        pc: 0x200,
        delay: 0,
        sound: 0,
        stack: Seq::empty(),
        keys: Seq::new(16, |i: int| 0u8),
        gfx: Seq::new(2048, |i: int| 0u8),
    }
}

/// The execution engine and all machine state it owns. The host may read the
/// framebuffer and write the key slots; everything else changes only through
/// the engine's own methods.
pub struct CPU {
    /// 4096 bytes of memory.
    pub mem: Vec<u8>,
    /// The sixteen general registers; index 15 doubles as the flag.
    pub registers: Vec<u8>,
    /// The index register.
    pub index_reg: u16,
    /// The program counter.
    pub pc: usize,
    /// The delay timer.
    pub delay_timer: u8,
    /// The sound timer.
    pub sound_timer: u8,
    /// The call stack of return addresses.
    pub stack: Vec<usize>,
    /// The sixteen key slots, written by the input collaborator.
    pub keys: Vec<u8>,
    /// The 64x32 framebuffer, row-major, read by the render collaborator.
    pub gfx: Vec<u8>,
}

impl View for CPU {
    type V = CpuView;

    open spec fn view(&self) -> CpuView {
        CpuView {
            mem: self.mem@,
            regs: self.registers@,
            index: self.index_reg,
            pc: self.pc,
            delay: self.delay_timer,
            sound: self.sound_timer,
            stack: self.stack@,
            keys: self.keys@,
            gfx: self.gfx@,
        }
    }
}

/// A vector of `n` zero bytes.
fn zero_bytes(n: usize) -> (v: Vec<u8>)
    ensures
        v@.len() == n,
        forall|i: int| 0 <= i < n ==> v@[i] == 0,
{
    let mut v: Vec<u8> = Vec::new();
    while v.len() < n
        invariant
            v@.len() <= n,
            forall|i: int| 0 <= i < v@.len() ==> v@[i] == 0,
        decreases n - v@.len(),
    {
        v.push(0);
    }
    v
}

/// The glyph table as bytes.
fn fontset() -> (r: Vec<u8>)
    ensures
        r@ == fontset_spec(),
{
    let r: Vec<u8> = vec![
        0xf0u8, 0x90u8, 0x90u8, 0x90u8, 0xf0u8,
        0x20u8, 0x60u8, 0x20u8, 0x20u8, 0x70u8,
        0xf0u8, 0x10u8, 0xf0u8, 0x80u8, 0xf0u8,
        0xf0u8, 0x10u8, 0xf0u8, 0x10u8, 0xf0u8,
        0x90u8, 0x90u8, 0xf0u8, 0x10u8, 0x10u8,
        0xf0u8, 0x80u8, 0xf0u8, 0x10u8, 0xf0u8,
        0xf0u8, 0x80u8, 0xf0u8, 0x90u8, 0xf0u8,
        0xf0u8, 0x10u8, 0x20u8, 0x40u8, 0x40u8,
        0xf0u8, 0x90u8, 0xf0u8, 0x90u8, 0xf0u8,
        0xf0u8, 0x90u8, 0xf0u8, 0x10u8, 0xf0u8,
        0xf0u8, 0x90u8, 0xf0u8, 0x90u8, 0x90u8,
        0xe0u8, 0x90u8, 0xe0u8, 0x90u8, 0xe0u8,
        0xf0u8, 0x80u8, 0x80u8, 0x80u8, 0x80u8,
        0xe0u8, 0x90u8, 0x90u8, 0x90u8, 0xe0u8,
        0xf0u8, 0x80u8, 0xf0u8, 0x80u8, 0xf0u8,
        0xf0u8, 0x80u8, 0xf0u8, 0x80u8, 0x80u8,
    ];
    proof {
        assert_seqs_equal!(r@ == fontset_spec());
    }
    r
}

impl CPU {
    /// The machine's own invariant; see `CpuView::wf`.
    pub open spec fn wf(&self) -> bool {
        self@.wf()
    }

    /// Build a machine holding `program`, loaded at offset 0x200, with the
    /// glyph table at the bottom of memory and all other state zeroed. A
    /// program longer than the 3584 bytes above the load offset is rejected.
    pub fn new(program: &Vec<u8>) -> (r: Result<CPU, Fault>)
        ensures
            match r {
                Ok(cpu) => program@.len() <= 3584 && cpu.wf() && cpu@ == spec_init(program@),
                Err(f) => program@.len() > 3584 && f == (Fault::Oversize {
                    len: program@.len() as usize,
                }),
            },
    {
        if program.len() > 3584 {
            return Err(Fault::Oversize { len: program.len() });
        }
        let mut mem = zero_bytes(4096);
        let font = fontset();
        let mut i: usize = 0;
        while i < 80
            invariant
                mem@.len() == 4096,
                font@ == fontset_spec(),
                i <= 80,
                forall|j: int| 0 <= j < i ==> mem@[j] == fontset_spec()[j],
                forall|j: int| i <= j < 4096 ==> mem@[j] == 0,
            decreases 80 - i,
        {
            mem.set(i, font[i]);
            i = i + 1;
        }
        let mut k: usize = 0;
        while k < program.len()
            invariant
                mem@.len() == 4096,
                program@.len() <= 3584,
                k <= program@.len(),
                forall|j: int| 0 <= j < 80 ==> mem@[j] == fontset_spec()[j],
                forall|j: int| 0x200 <= j < 0x200 + k ==> mem@[j] == program@[j - 0x200],
                forall|j: int| 80 <= j < 4096 && !(0x200 <= j < 0x200 + k) ==> mem@[j] == 0,
            decreases program@.len() - k,
        {
            mem.set(0x200 + k, program[k]);
            k = k + 1;
        }
        let cpu = CPU {
            mem,
            registers: zero_bytes(16),
            index_reg: 0,
            pc: 0x200,
            delay_timer: 0,
            sound_timer: 0,
            stack: Vec::new(),
            keys: zero_bytes(16),
            gfx: zero_bytes(2048),
        };
        proof {
            assert(cpu@.mem =~= spec_init(program@).mem);
            assert(cpu@.regs =~= spec_init(program@).regs);
            assert(cpu@.keys =~= spec_init(program@).keys);
            assert(cpu@.gfx =~= spec_init(program@).gfx);
            assert(cpu@.stack =~= spec_init(program@).stack);
            assert(cpu@ =~= spec_init(program@));
        }
        Ok(cpu)
    }

    /// Read the big-endian 16-bit opcode at the program counter.
    pub fn fetch_opcode(&self) -> (r: Result<u16, Fault>)
        requires
            self.wf(),
        ensures
            r == spec_fetch(self@),
    {
        if self.pc + 1 < 4096 {
            let hi = self.mem[self.pc];
            let lo = self.mem[self.pc + 1];
            Ok((hi as u16) * 256 + (lo as u16))
        } else {
            Err(Fault::Memory { addr: if self.pc < 4096 { 4096 } else { self.pc } })
        }
    }

    /// Press (`v == 1`) or release (`v == 0`) a key slot. This is the input
    /// collaborator's half of the keypad boundary.
    pub fn set_key(&mut self, index: usize, v: u8)
        requires
            old(self).wf(),
            index < 16,
            v <= 1,
        ensures
            final(self).wf(),
            final(self)@ == (CpuView { keys: old(self)@.keys.update(index as int, v), ..old(self)@ }),
    {
        self.keys.set(index, v);
        proof {
            assert(final(self)@ =~= (CpuView {
                keys: old(self)@.keys.update(index as int, v),
                ..old(self)@
            }));
        }
    }

    /// XOR-blit an `h`-row sprite read from the index register's address at
    /// the position named by registers `x` and `y`, collecting the collision
    /// flag. Validates every access first: a faulting draw changes nothing.
    fn exec_display(&mut self, x: u8, y: u8, h: u8) -> (r: Result<(), Fault>)
        requires
            old(self).wf(),
            x < 16,
            y < 16,
            h < 16,
            old(self).pc + 1 < 4096,
        ensures
            final(self).wf(),
            ({
                let s = old(self)@;
                let vx = s.regs[x as int];
                let vy = s.regs[y as int];
                &&& (!draw_rows_ok(s.index, h) ==> r == Err::<(), Fault>(Fault::Memory {
                    addr: first_oob(s.index as int),
                }) && final(self)@ == s)
                &&& (draw_rows_ok(s.index, h) && !draw_coords_ok(s.mem, s.index, vx, vy, h) ==> r
                    == Err::<(), Fault>(Fault::Screen { x: vx, y: vy }) && final(self)@ == s)
                &&& (draw_rows_ok(s.index, h) && draw_coords_ok(s.mem, s.index, vx, vy, h) ==> r
                    == Ok::<(), Fault>(()) && final(self)@ == advanced(
                    CpuView {
                        regs: s.regs.update(
                            15,
                            if draw_collides(s.mem, s.index, s.gfx, vx, vy, h) {
                                1u8
                            } else {
                                0u8
                            },
                        ),
                        gfx: draw_gfx(s.mem, s.index, s.gfx, vx, vy, h),
                        ..s
                    },
                    2,
                ))
            }),
    {
        let ghost s = old(self)@;
        let vx = self.registers[x as usize];
        let vy = self.registers[y as usize];
        let base = self.index_reg as usize;
        if h > 0 && base + (h as usize) - 1 >= 4096 {
            return Err(
                Fault::Memory {
                    addr: if base < 4096 {
                        4096
                    } else {
                        base
                    },
                },
            );
        }
        assert(draw_rows_ok(s.index, h));
        // Validation pass: every set sprite bit must land on the grid.
        let mut r: usize = 0;
        while r < h as usize
            invariant
                self == old(self),
                s == old(self)@,
                self.wf(),
                x < 16,
                y < 16,
                h < 16,
                vx == s.regs[x as int],
                vy == s.regs[y as int],
                base == s.index,
                draw_rows_ok(s.index, h),
                r <= h,
                forall|rr: int, c: int|
                    0 <= rr < r && 0 <= c < 8 && #[trigger] sprite_bit(s.mem[s.index + rr], c)
                        ==> vx + c < 64 && vy + rr < 32,
            decreases h as int - r,
        {
            let pixel = self.mem[base + r];
            let mut c: usize = 0;
            while c < 8
                invariant
                    self == old(self),
                    s == old(self)@,
                    self.wf(),
                    x < 16,
                    y < 16,
                    h < 16,
                    vx == s.regs[x as int],
                    vy == s.regs[y as int],
                    base == s.index,
                    draw_rows_ok(s.index, h),
                    r < h,
                    c <= 8,
                    pixel == s.mem[s.index + r],
                    forall|rr: int, cc: int|
                        0 <= rr < r && 0 <= cc < 8 && #[trigger] sprite_bit(s.mem[s.index + rr], cc)
                            ==> vx + cc < 64 && vy + rr < 32,
                    forall|cc: int|
                        0 <= cc < c && #[trigger] sprite_bit(pixel, cc) ==> vx + cc < 64 && vy + r
                            < 32,
                decreases 8 - c,
            {
                let sh: u8 = (7 - c) as u8;
                if (pixel >> sh) & 1 == 1 {
                    assert(sprite_bit(s.mem[s.index + r as int], c as int));
                    if vx as usize + c >= 64 || vy as usize + r >= 32 {
                        assert(!draw_coords_ok(s.mem, s.index, vx, vy, h));
                        return Err(Fault::Screen { x: vx, y: vy });
                    }
                } else {
                    assert(!sprite_bit(pixel, c as int));
                }
                c = c + 1;
            }
            assert forall|rr: int, cc: int|
                0 <= rr < r + 1 && 0 <= cc < 8 && #[trigger] sprite_bit(s.mem[s.index + rr], cc)
                    implies vx + cc < 64 && vy + rr < 32 by {
                if rr == r {
                    assert(sprite_bit(pixel, cc));
                }
            }
            r = r + 1;
        }
        assert(draw_coords_ok(s.mem, s.index, vx, vy, h));
        // Blit pass.
        self.registers.set(15, 0);
        let mut r: usize = 0;
        while r < h as usize
            invariant
                s == old(self)@,
                s.wf(),
                x < 16,
                y < 16,
                h < 16,
                s.pc + 1 < 4096,
                vx == s.regs[x as int],
                vy == s.regs[y as int],
                base == s.index,
                draw_rows_ok(s.index, h),
                draw_coords_ok(s.mem, s.index, vx, vy, h),
                r <= h,
                self.mem@ == s.mem,
                self.index_reg == s.index,
                self.pc == s.pc,
                self.delay_timer == s.delay,
                self.sound_timer == s.sound,
                self.stack@ == s.stack,
                self.keys@ == s.keys,
                self.registers@ == s.regs.update(
                    15,
                    if draw_collides_upto(s.mem, s.index, s.gfx, vx, vy, r as int, 0) {
                        1u8
                    } else {
                        0u8
                    },
                ),
                self.gfx@.len() == 2048,
                forall|i: int|
                    0 <= i < 2048 ==> self.gfx@[i] == (if draw_hits_upto(
                        s.mem,
                        s.index,
                        vx,
                        vy,
                        r as int,
                        0,
                        i,
                    ) {
                        (1 - s.gfx[i]) as u8
                    } else {
                        s.gfx[i]
                    }),
            decreases h as int - r,
        {
            let pixel = self.mem[base + r];
            let mut c: usize = 0;
            while c < 8
                invariant
                    s == old(self)@,
                    s.wf(),
                    x < 16,
                    y < 16,
                    h < 16,
                    s.pc + 1 < 4096,
                    vx == s.regs[x as int],
                    vy == s.regs[y as int],
                    base == s.index,
                    draw_rows_ok(s.index, h),
                    draw_coords_ok(s.mem, s.index, vx, vy, h),
                    r < h,
                    c <= 8,
                    pixel == s.mem[s.index + r],
                    self.mem@ == s.mem,
                    self.index_reg == s.index,
                    self.pc == s.pc,
                    self.delay_timer == s.delay,
                    self.sound_timer == s.sound,
                    self.stack@ == s.stack,
                    self.keys@ == s.keys,
                    self.registers@ == s.regs.update(
                        15,
                        if draw_collides_upto(s.mem, s.index, s.gfx, vx, vy, r as int, c as int) {
                            1u8
                        } else {
                            0u8
                        },
                    ),
                    self.gfx@.len() == 2048,
                    forall|i: int|
                        0 <= i < 2048 ==> self.gfx@[i] == (if draw_hits_upto(
                            s.mem,
                            s.index,
                            vx,
                            vy,
                            r as int,
                            c as int,
                            i,
                        ) {
                            (1 - s.gfx[i]) as u8
                        } else {
                            s.gfx[i]
                        }),
                decreases 8 - c,
            {
                let ghost r0 = r as int;
                let ghost c0 = c as int;
                let sh: u8 = (7 - c) as u8;
                if (pixel >> sh) & 1 == 1 {
                    assert(sprite_bit(s.mem[s.index + r0], c0));
                    assert(vx + c0 < 64 && vy + r0 < 32);
                    let cx = vx as usize + c;
                    let cy = vy as usize + r;
                    let idx = cy * 64 + cx;
                    assert(idx < 2048);
                    let ghost idx0 = idx as int;
                    proof {
                        // No earlier sprite bit lands on this cell.
                        if draw_hits_upto(s.mem, s.index, vx, vy, r0, c0, idx0) {
                            let (rr, cc): (int, int) = choose|rr: int, cc: int|
                                0 <= rr && 0 <= cc < 8 && (rr < r0 || (rr == r0 && cc < c0))
                                    && #[trigger] sprite_bit(s.mem[s.index + rr], cc) && idx0 == (
                                vy + rr) * 64 + (vx + cc);
                            assert(rr < h);
                            assert(vx + cc < 64 && vy + rr < 32);
                            assert((vy + rr) * 64 + (vx + cc) == (vy + r0) * 64 + (vx + c0));
                            assert(rr == r0 && cc == c0);
                            assert(false);
                        }
                    }
                    let cell = self.gfx[idx];
                    assert(cell == s.gfx[idx0]);
                    if cell == 1 {
                        self.registers.set(15, 1);
                    }
                    self.gfx.set(idx, 1 - cell);
                    proof {
                        assert forall|i: int| 0 <= i < 2048 implies (draw_hits_upto(
                            s.mem,
                            s.index,
                            vx,
                            vy,
                            r0,
                            c0 + 1,
                            i,
                        ) <==> (draw_hits_upto(s.mem, s.index, vx, vy, r0, c0, i) || i
                            == idx0)) by {
                            if draw_hits_upto(s.mem, s.index, vx, vy, r0, c0 + 1, i) {
                                let (rr, cc): (int, int) = choose|rr: int, cc: int|
                                    0 <= rr && 0 <= cc < 8 && (rr < r0 || (rr == r0 && cc < c0 + 1))
                                        && #[trigger] sprite_bit(s.mem[s.index + rr], cc)
                                        && i == (vy + rr) * 64 + (vx + cc);
                                if rr == r0 && cc == c0 {
                                    assert(i == idx0);
                                } else {
                                    assert(draw_hits_upto(s.mem, s.index, vx, vy, r0, c0, i));
                                }
                            }
                            if i == idx0 {
                                assert(sprite_bit(s.mem[s.index + r0], c0) && i == (vy + r0) * 64
                                    + (vx + c0));
                                assert(draw_hits_upto(s.mem, s.index, vx, vy, r0, c0 + 1, i));
                            }
                            if draw_hits_upto(s.mem, s.index, vx, vy, r0, c0, i) {
                                let (rr, cc): (int, int) = choose|rr: int, cc: int|
                                    0 <= rr && 0 <= cc < 8 && (rr < r0 || (rr == r0 && cc < c0))
                                        && #[trigger] sprite_bit(s.mem[s.index + rr], cc)
                                        && i == (vy + rr) * 64 + (vx + cc);
                                assert(draw_hits_upto(s.mem, s.index, vx, vy, r0, c0 + 1, i));
                            }
                        }
                        if s.gfx[idx0] == 1 {
                            assert(draw_collides_upto(s.mem, s.index, s.gfx, vx, vy, r0, c0 + 1));
                            assert(self.registers@ =~= s.regs.update(15, 1u8));
                        } else {
                            if draw_collides_upto(s.mem, s.index, s.gfx, vx, vy, r0, c0 + 1) {
                                let (rr, cc): (int, int) = choose|rr: int, cc: int|
                                    0 <= rr && 0 <= cc < 8 && (rr < r0 || (rr == r0 && cc < c0 + 1))
                                        && #[trigger] sprite_bit(s.mem[s.index + rr], cc)
                                        && s.gfx[(vy + rr) * 64 + (vx + cc)] == 1;
                                if rr == r0 && cc == c0 {
                                    assert(s.gfx[idx0] == 1);
                                    assert(false);
                                } else {
                                    assert(draw_collides_upto(s.mem, s.index, s.gfx, vx, vy, r0, c0));
                                }
                            }
                            if draw_collides_upto(s.mem, s.index, s.gfx, vx, vy, r0, c0) {
                                let (rr, cc): (int, int) = choose|rr: int, cc: int|
                                    0 <= rr && 0 <= cc < 8 && (rr < r0 || (rr == r0 && cc < c0))
                                        && #[trigger] sprite_bit(s.mem[s.index + rr], cc)
                                        && s.gfx[(vy + rr) * 64 + (vx + cc)] == 1;
                                assert(draw_collides_upto(s.mem, s.index, s.gfx, vx, vy, r0, c0 + 1));
                            }
                        }
                    }
                } else {
                    proof {
                        assert(!sprite_bit(s.mem[s.index + r0], c0));
                        assert forall|i: int| 0 <= i < 2048 implies (draw_hits_upto(
                            s.mem,
                            s.index,
                            vx,
                            vy,
                            r0,
                            c0 + 1,
                            i,
                        ) <==> draw_hits_upto(s.mem, s.index, vx, vy, r0, c0, i)) by {
                            if draw_hits_upto(s.mem, s.index, vx, vy, r0, c0 + 1, i) {
                                let (rr, cc): (int, int) = choose|rr: int, cc: int|
                                    0 <= rr && 0 <= cc < 8 && (rr < r0 || (rr == r0 && cc < c0 + 1))
                                        && #[trigger] sprite_bit(s.mem[s.index + rr], cc)
                                        && i == (vy + rr) * 64 + (vx + cc);
                                assert(!(rr == r0 && cc == c0));
                                assert(draw_hits_upto(s.mem, s.index, vx, vy, r0, c0, i));
                            }
                            if draw_hits_upto(s.mem, s.index, vx, vy, r0, c0, i) {
                                let (rr, cc): (int, int) = choose|rr: int, cc: int|
                                    0 <= rr && 0 <= cc < 8 && (rr < r0 || (rr == r0 && cc < c0))
                                        && #[trigger] sprite_bit(s.mem[s.index + rr], cc)
                                        && i == (vy + rr) * 64 + (vx + cc);
                                assert(draw_hits_upto(s.mem, s.index, vx, vy, r0, c0 + 1, i));
                            }
                        }
                        if draw_collides_upto(s.mem, s.index, s.gfx, vx, vy, r0, c0 + 1) {
                            let (rr, cc): (int, int) = choose|rr: int, cc: int|
                                0 <= rr && 0 <= cc < 8 && (rr < r0 || (rr == r0 && cc < c0 + 1))
                                    && #[trigger] sprite_bit(s.mem[s.index + rr], cc) && s.gfx[(vy
                                    + rr) * 64 + (vx + cc)] == 1;
                            assert(!(rr == r0 && cc == c0));
                            assert(draw_collides_upto(s.mem, s.index, s.gfx, vx, vy, r0, c0));
                        }
                        if draw_collides_upto(s.mem, s.index, s.gfx, vx, vy, r0, c0) {
                            let (rr, cc): (int, int) = choose|rr: int, cc: int|
                                0 <= rr && 0 <= cc < 8 && (rr < r0 || (rr == r0 && cc < c0))
                                    && #[trigger] sprite_bit(s.mem[s.index + rr], cc) && s.gfx[(vy
                                    + rr) * 64 + (vx + cc)] == 1;
                            assert(draw_collides_upto(s.mem, s.index, s.gfx, vx, vy, r0, c0 + 1));
                        }
                    }
                }
                c = c + 1;
            }
            proof {
                let r0 = r as int;
                assert forall|i: int| 0 <= i < 2048 implies (draw_hits_upto(
                    s.mem,
                    s.index,
                    vx,
                    vy,
                    r0 + 1,
                    0,
                    i,
                ) <==> draw_hits_upto(s.mem, s.index, vx, vy, r0, 8, i)) by {
                    if draw_hits_upto(s.mem, s.index, vx, vy, r0 + 1, 0, i) {
                        let (rr, cc): (int, int) = choose|rr: int, cc: int|
                            0 <= rr && 0 <= cc < 8 && (rr < r0 + 1 || (rr == r0 + 1 && cc < 0))
                                && #[trigger] sprite_bit(s.mem[s.index + rr], cc) && i == (vy + rr)
                                * 64 + (vx + cc);
                        assert(draw_hits_upto(s.mem, s.index, vx, vy, r0, 8, i));
                    }
                    if draw_hits_upto(s.mem, s.index, vx, vy, r0, 8, i) {
                        let (rr, cc): (int, int) = choose|rr: int, cc: int|
                            0 <= rr && 0 <= cc < 8 && (rr < r0 || (rr == r0 && cc < 8))
                                && #[trigger] sprite_bit(s.mem[s.index + rr], cc) && i == (vy + rr)
                                * 64 + (vx + cc);
                        assert(draw_hits_upto(s.mem, s.index, vx, vy, r0 + 1, 0, i));
                    }
                }
                if draw_collides_upto(s.mem, s.index, s.gfx, vx, vy, r0 + 1, 0) {
                    let (rr, cc): (int, int) = choose|rr: int, cc: int|
                        0 <= rr && 0 <= cc < 8 && (rr < r0 + 1 || (rr == r0 + 1 && cc < 0))
                            && #[trigger] sprite_bit(s.mem[s.index + rr], cc) && s.gfx[(vy + rr)
                            * 64 + (vx + cc)] == 1;
                    assert(draw_collides_upto(s.mem, s.index, s.gfx, vx, vy, r0, 8));
                }
                if draw_collides_upto(s.mem, s.index, s.gfx, vx, vy, r0, 8) {
                    let (rr, cc): (int, int) = choose|rr: int, cc: int|
                        0 <= rr && 0 <= cc < 8 && (rr < r0 || (rr == r0 && cc < 8))
                            && #[trigger] sprite_bit(s.mem[s.index + rr], cc) && s.gfx[(vy + rr)
                            * 64 + (vx + cc)] == 1;
                    assert(draw_collides_upto(s.mem, s.index, s.gfx, vx, vy, r0 + 1, 0));
                }
            }
            r = r + 1;
        }
        self.pc = self.pc + 2;
        proof {
            let h0 = h as int;
            assert forall|i: int| 0 <= i < 2048 implies (draw_hits_upto(
                s.mem,
                s.index,
                vx,
                vy,
                h0,
                0,
                i,
            ) <==> draw_hits(s.mem, s.index, vx, vy, h, i)) by {
                if draw_hits_upto(s.mem, s.index, vx, vy, h0, 0, i) {
                    let (rr, cc): (int, int) = choose|rr: int, cc: int|
                        0 <= rr && 0 <= cc < 8 && (rr < h0 || (rr == h0 && cc < 0))
                            && #[trigger] sprite_bit(s.mem[s.index + rr], cc) && i == (vy + rr) * 64
                            + (vx + cc);
                    assert(draw_hits(s.mem, s.index, vx, vy, h, i));
                }
                if draw_hits(s.mem, s.index, vx, vy, h, i) {
                    let (rr, cc): (int, int) = choose|rr: int, cc: int|
                        0 <= rr < h && 0 <= cc < 8 && #[trigger] sprite_bit(s.mem[s.index + rr], cc)
                            && i == (vy + rr) * 64 + (vx + cc);
                    assert(draw_hits_upto(s.mem, s.index, vx, vy, h0, 0, i));
                }
            }
            if draw_collides_upto(s.mem, s.index, s.gfx, vx, vy, h as int, 0) {
                let (rr, cc): (int, int) = choose|rr: int, cc: int|
                    0 <= rr && 0 <= cc < 8 && (rr < h as int || (rr == h as int && cc < 0))
                        && #[trigger] sprite_bit(s.mem[s.index + rr], cc) && s.gfx[(vy + rr) * 64
                        + (vx + cc)] == 1;
                let i = (vy + rr) * 64 + (vx + cc);
                assert(vx + cc < 64 && vy + rr < 32);
                assert(0 <= i < 2048);
                assert(draw_hits(s.mem, s.index, vx, vy, h, i));
                assert(draw_collides(s.mem, s.index, s.gfx, vx, vy, h));
            }
            if draw_collides(s.mem, s.index, s.gfx, vx, vy, h) {
                let i = choose|i: int|
                    0 <= i < 2048 && #[trigger] draw_hits(s.mem, s.index, vx, vy, h, i) && s.gfx[i]
                        == 1;
                let (rr, cc): (int, int) = choose|rr: int, cc: int|
                    0 <= rr < h && 0 <= cc < 8 && #[trigger] sprite_bit(s.mem[s.index + rr], cc)
                        && i == (vy + rr) * 64 + (vx + cc);
                assert(draw_collides_upto(s.mem, s.index, s.gfx, vx, vy, h as int, 0));
            }
            assert(self.gfx@ =~= draw_gfx(s.mem, s.index, s.gfx, vx, vy, h));
            assert(final(self)@ =~= advanced(
                CpuView {
                    regs: s.regs.update(
                        15,
                        if draw_collides(s.mem, s.index, s.gfx, vx, vy, h) {
                            1u8
                        } else {
                            0u8
                        },
                    ),
                    gfx: draw_gfx(s.mem, s.index, s.gfx, vx, vy, h),
                    ..s
                },
                2,
            ));
        }
        Ok(())
    }

    /// Control flow and the index-register load: clear, return, jumps, call. One piece of `execute`'s dispatch; same contract.
    fn exec_system(&mut self, inst: Instructions, rnd: u8) -> (r: Result<(), Fault>)
        requires
            old(self).wf(),
            inst.wf(),
            old(self).pc + 1 < 4096,
            inst matches Instructions::ClearScreen
                || inst matches Instructions::Return
                || inst matches Instructions::JumpToAddress(_)
                || inst matches Instructions::CallSub(_)
                || inst matches Instructions::JumpToValue { .. }
                || inst matches Instructions::SetMem { .. },
        ensures
            final(self).wf(),
            match spec_execute(old(self)@, inst, rnd) {
                Ok(s1) => r == Ok::<(), Fault>(()) && final(self)@ == s1,
                Err(f) => r == Err::<(), Fault>(f) && final(self)@ == old(self)@,
            },
    {
        match inst {
            Instructions::ClearScreen => {
                let mut i: usize = 0;
                while i < 2048
                    invariant
                        self.mem@ == old(self)@.mem,
                        self.registers@ == old(self)@.regs,
                        self.index_reg == old(self)@.index,
                        self.pc == old(self)@.pc,
                        self.delay_timer == old(self)@.delay,
                        self.sound_timer == old(self)@.sound,
                        self.stack@ == old(self)@.stack,
                        self.keys@ == old(self)@.keys,
                        self.gfx@.len() == 2048,
                        i <= 2048,
                        forall|j: int| 0 <= j < i ==> self.gfx@[j] == 0,
                        forall|j: int| i <= j < 2048 ==> self.gfx@[j] <= 1,
                    decreases 2048 - i,
                {
                    self.gfx.set(i, 0);
                    i = i + 1;
                }
                self.pc = self.pc + 2;
                proof {
                    assert(self.gfx@ =~= Seq::new(2048, |j: int| 0u8));
                    assert(self@ =~= spec_execute(old(self)@, inst, rnd)->Ok_0);
                }
                Ok(())
            },
            Instructions::Return => {
                match self.stack.pop() {
                    Some(rv) => {
                        proof {
                            assert(old(self)@.stack[old(self)@.stack.len() - 1] < 4096);
                        }
                        self.pc = rv + 2;
                        proof {
                            assert(self@ =~= spec_execute(old(self)@, inst, rnd)->Ok_0);
                        }
                        Ok(())
                    },
                    None => Err(Fault::StackUnderflow),
                }
            },
            Instructions::JumpToAddress(a) => {
                self.pc = a as usize;
                proof {
                    assert(self@ =~= spec_execute(old(self)@, inst, rnd)->Ok_0);
                }
                Ok(())
            },
            Instructions::CallSub(a) => {
                if self.stack.len() >= 16 {
                    Err(Fault::StackOverflow)
                } else {
                    self.stack.push(self.pc);
                    self.pc = a as usize;
                    proof {
                        assert(self@ =~= spec_execute(old(self)@, inst, rnd)->Ok_0);
                    }
                    Ok(())
                }
            },
            Instructions::JumpToValue { value } => {
                self.pc = (value + self.registers[0] as u16) as usize;
                proof {
                    assert(self@ =~= spec_execute(old(self)@, inst, rnd)->Ok_0);
                }
                Ok(())
            },
            Instructions::SetMem { value } => {
                self.index_reg = value;
                self.pc = self.pc + 2;
                proof {
                    assert(self@ =~= spec_execute(old(self)@, inst, rnd)->Ok_0);
                }
                Ok(())
            },
            _ => {
                proof {
                    assert(false);
                }
                unreached()
            },
        }
    }

    /// Conditional skips and the key-driven instructions. One piece of `execute`'s dispatch; same contract.
    fn exec_skip_key(&mut self, inst: Instructions, rnd: u8) -> (r: Result<(), Fault>)
        requires
            old(self).wf(),
            inst.wf(),
            old(self).pc + 1 < 4096,
            inst matches Instructions::SkipIfEqual { .. }
                || inst matches Instructions::SkipIfNotEqualValue { .. }
                || inst matches Instructions::SkipIfRegEqual { .. }
                || inst matches Instructions::SkipIfRegNotEqual { .. }
                || inst matches Instructions::PressedKey { .. }
                || inst matches Instructions::NotPressedKey { .. }
                || inst matches Instructions::WaitForKey { .. },
        ensures
            final(self).wf(),
            match spec_execute(old(self)@, inst, rnd) {
                Ok(s1) => r == Ok::<(), Fault>(()) && final(self)@ == s1,
                Err(f) => r == Err::<(), Fault>(f) && final(self)@ == old(self)@,
            },
    {
        match inst {
            Instructions::SkipIfEqual { x, value } => {
                if self.registers[x as usize] == value {
                    self.pc = self.pc + 4;
                } else {
                    self.pc = self.pc + 2;
                }
                proof {
                    assert(self@ =~= spec_execute(old(self)@, inst, rnd)->Ok_0);
                }
                Ok(())
            },
            Instructions::SkipIfNotEqualValue { x, value } => {
                if self.registers[x as usize] != value {
                    self.pc = self.pc + 4;
                } else {
                    self.pc = self.pc + 2;
                }
                proof {
                    assert(self@ =~= spec_execute(old(self)@, inst, rnd)->Ok_0);
                }
                Ok(())
            },
            Instructions::SkipIfRegEqual { x, y } => {
                if self.registers[x as usize] == self.registers[y as usize] {
                    self.pc = self.pc + 4;
                } else {
                    self.pc = self.pc + 2;
                }
                proof {
                    assert(self@ =~= spec_execute(old(self)@, inst, rnd)->Ok_0);
                }
                Ok(())
            },
            Instructions::SkipIfRegNotEqual { x, y } => {
                if self.registers[x as usize] != self.registers[y as usize] {
                    self.pc = self.pc + 4;
                } else {
                    self.pc = self.pc + 2;
                }
                proof {
                    assert(self@ =~= spec_execute(old(self)@, inst, rnd)->Ok_0);
                }
                Ok(())
            },
            Instructions::PressedKey { x } => {
                let key = self.registers[x as usize];
                if key >= 16 {
                    Err(Fault::Key { index: key })
                } else {
                    if self.keys[key as usize] == 1 {
                        self.pc = self.pc + 4;
                    } else {
                        self.pc = self.pc + 2;
                    }
                    proof {
                        assert(self@ =~= spec_execute(old(self)@, inst, rnd)->Ok_0);
                    }
                    Ok(())
                }
            },
            Instructions::NotPressedKey { x } => {
                let key = self.registers[x as usize];
                if key >= 16 {
                    Err(Fault::Key { index: key })
                } else {
                    if self.keys[key as usize] != 1 {
                        self.pc = self.pc + 4;
                    } else {
                        self.pc = self.pc + 2;
                    }
                    proof {
                        assert(self@ =~= spec_execute(old(self)@, inst, rnd)->Ok_0);
                    }
                    Ok(())
                }
            },
            Instructions::WaitForKey { x } => {
                let key = self.registers[x as usize];
                if key >= 16 {
                    Err(Fault::Key { index: key })
                } else {
                    if self.keys[key as usize] == 1 {
                        self.pc = self.pc + 2;
                    }
                    proof {
                        assert(self@ =~= spec_execute(old(self)@, inst, rnd)->Ok_0);
                    }
                    Ok(())
                }
            },
            _ => {
                proof {
                    assert(false);
                }
                unreached()
            },
        }
    }

    /// Register arithmetic, logic, shifts and the random draw. One piece of `execute`'s dispatch; same contract.
    fn exec_alu(&mut self, inst: Instructions, rnd: u8) -> (r: Result<(), Fault>)
        requires
            old(self).wf(),
            inst.wf(),
            old(self).pc + 1 < 4096,
            inst matches Instructions::SetValueToReg { .. }
                || inst matches Instructions::AddValueToReg { .. }
                || inst matches Instructions::AssignValueToReg { .. }
                || inst matches Instructions::AssignOrValue { .. }
                || inst matches Instructions::AssignAndValue { .. }
                || inst matches Instructions::AssignXorValue { .. }
                || inst matches Instructions::AssignAddValue { .. }
                || inst matches Instructions::AssignSubValue { .. }
                || inst matches Instructions::ShiftRight { .. }
                || inst matches Instructions::AssignMinusValue { .. }
                || inst matches Instructions::ShiftLeft { .. }
                || inst matches Instructions::RandomAnd { .. },
        ensures
            final(self).wf(),
            match spec_execute(old(self)@, inst, rnd) {
                Ok(s1) => r == Ok::<(), Fault>(()) && final(self)@ == s1,
                Err(f) => r == Err::<(), Fault>(f) && final(self)@ == old(self)@,
            },
    {
        match inst {
            Instructions::SetValueToReg { x, value } => {
                self.registers.set(x as usize, value);
                self.pc = self.pc + 2;
                proof {
                    assert(self@ =~= spec_execute(old(self)@, inst, rnd)->Ok_0);
                }
                Ok(())
            },
            Instructions::AddValueToReg { x, value } => {
                let a = self.registers[x as usize];
                let sum: u16 = a as u16 + value as u16;
                self.registers.set(x as usize, (sum % 256) as u8);
                self.pc = self.pc + 2;
                proof {
                    assert(self@ =~= spec_execute(old(self)@, inst, rnd)->Ok_0);
                }
                Ok(())
            },
            Instructions::AssignValueToReg { x, y } => {
                let b = self.registers[y as usize];
                self.registers.set(x as usize, b);
                self.pc = self.pc + 2;
                proof {
                    assert(self@ =~= spec_execute(old(self)@, inst, rnd)->Ok_0);
                }
                Ok(())
            },
            Instructions::AssignOrValue { x, y } => {
                let a = self.registers[x as usize];
                let b = self.registers[y as usize];
                self.registers.set(x as usize, a | b);
                self.pc = self.pc + 2;
                proof {
                    assert(self@ =~= spec_execute(old(self)@, inst, rnd)->Ok_0);
                }
                Ok(())
            },
            Instructions::AssignAndValue { x, y } => {
                let a = self.registers[x as usize];
                let b = self.registers[y as usize];
                self.registers.set(x as usize, a & b);
                self.pc = self.pc + 2;
                proof {
                    assert(self@ =~= spec_execute(old(self)@, inst, rnd)->Ok_0);
                }
                Ok(())
            },
            Instructions::AssignXorValue { x, y } => {
                let a = self.registers[x as usize];
                let b = self.registers[y as usize];
                self.registers.set(x as usize, a ^ b);
                self.pc = self.pc + 2;
                proof {
                    assert(self@ =~= spec_execute(old(self)@, inst, rnd)->Ok_0);
                }
                Ok(())
            },
            Instructions::AssignAddValue { x, y } => {
                let a = self.registers[x as usize];
                let b = self.registers[y as usize];
                let sum: u16 = a as u16 + b as u16;
                self.registers.set(x as usize, (sum % 256) as u8);
                self.registers.set(
                    15,
                    if sum > 255 {
                        1
                    } else {
                        0
                    },
                );
                self.pc = self.pc + 2;
                proof {
                    assert(self@ =~= spec_execute(old(self)@, inst, rnd)->Ok_0);
                }
                Ok(())
            },
            Instructions::AssignSubValue { x, y } => {
                let a = self.registers[x as usize];
                let b = self.registers[y as usize];
                let diff: u16 = (256 + a as u16 - b as u16) % 256;
                self.registers.set(x as usize, diff as u8);
                self.registers.set(
                    15,
                    if a >= b {
                        1
                    } else {
                        0
                    },
                );
                self.pc = self.pc + 2;
                proof {
                    assert(diff == (a - b) % 256);
                    assert(self@ =~= spec_execute(old(self)@, inst, rnd)->Ok_0);
                }
                Ok(())
            },
            Instructions::ShiftRight { x } => {
                let a = self.registers[x as usize];
                self.registers.set(x as usize, a / 2);
                self.registers.set(15, a % 2);
                self.pc = self.pc + 2;
                proof {
                    assert(self@ =~= spec_execute(old(self)@, inst, rnd)->Ok_0);
                }
                Ok(())
            },
            Instructions::AssignMinusValue { x, y } => {
                let a = self.registers[x as usize];
                let b = self.registers[y as usize];
                let diff: u16 = (256 + b as u16 - a as u16) % 256;
                self.registers.set(x as usize, diff as u8);
                self.registers.set(
                    15,
                    if b >= a {
                        1
                    } else {
                        0
                    },
                );
                self.pc = self.pc + 2;
                proof {
                    assert(diff == (b - a) % 256);
                    assert(self@ =~= spec_execute(old(self)@, inst, rnd)->Ok_0);
                }
                Ok(())
            },
            Instructions::ShiftLeft { x } => {
                let a = self.registers[x as usize];
                let doubled: u16 = (a as u16 * 2) % 256;
                self.registers.set(x as usize, doubled as u8);
                self.registers.set(15, a / 128);
                self.pc = self.pc + 2;
                proof {
                    assert(self@ =~= spec_execute(old(self)@, inst, rnd)->Ok_0);
                }
                Ok(())
            },
            Instructions::RandomAnd { x, value } => {
                self.registers.set(x as usize, rnd & value);
                self.pc = self.pc + 2;
                proof {
                    assert(self@ =~= spec_execute(old(self)@, inst, rnd)->Ok_0);
                }
                Ok(())
            },
            _ => {
                proof {
                    assert(false);
                }
                unreached()
            },
        }
    }

    /// Timers and the instructions that move data through memory. One piece of `execute`'s dispatch; same contract.
    fn exec_index_mem(&mut self, inst: Instructions, rnd: u8) -> (r: Result<(), Fault>)
        requires
            old(self).wf(),
            inst.wf(),
            old(self).pc + 1 < 4096,
            inst matches Instructions::SetValueToDelayTimer { .. }
                || inst matches Instructions::SetDelayTimerToReg { .. }
                || inst matches Instructions::SetSoundTimerTOReg { .. }
                || inst matches Instructions::SetIFromReg { .. }
                || inst matches Instructions::SetIFromSprite { .. }
                || inst matches Instructions::BCD { .. }
                || inst matches Instructions::RegDump { .. }
                || inst matches Instructions::RegLoad { .. },
        ensures
            final(self).wf(),
            match spec_execute(old(self)@, inst, rnd) {
                Ok(s1) => r == Ok::<(), Fault>(()) && final(self)@ == s1,
                Err(f) => r == Err::<(), Fault>(f) && final(self)@ == old(self)@,
            },
    {
        match inst {
            Instructions::SetValueToDelayTimer { x } => {
                let d = self.delay_timer;
                self.registers.set(x as usize, d);
                self.pc = self.pc + 2;
                proof {
                    assert(self@ =~= spec_execute(old(self)@, inst, rnd)->Ok_0);
                }
                Ok(())
            },
            Instructions::SetDelayTimerToReg { x } => {
                self.delay_timer = self.registers[x as usize];
                self.pc = self.pc + 2;
                proof {
                    assert(self@ =~= spec_execute(old(self)@, inst, rnd)->Ok_0);
                }
                Ok(())
            },
            Instructions::SetSoundTimerTOReg { x } => {
                self.sound_timer = self.registers[x as usize];
                self.pc = self.pc + 2;
                proof {
                    assert(self@ =~= spec_execute(old(self)@, inst, rnd)->Ok_0);
                }
                Ok(())
            },
            Instructions::SetIFromReg { x } => {
                let widened: u32 = self.index_reg as u32 + self.registers[x as usize] as u32;
                self.index_reg = (widened % 0x10000) as u16;
                self.pc = self.pc + 2;
                proof {
                    assert(self@ =~= spec_execute(old(self)@, inst, rnd)->Ok_0);
                }
                Ok(())
            },
            Instructions::SetIFromSprite { x } => {
                self.index_reg = self.registers[x as usize] as u16 * 5;
                self.pc = self.pc + 2;
                proof {
                    assert(self@ =~= spec_execute(old(self)@, inst, rnd)->Ok_0);
                }
                Ok(())
            },
            Instructions::BCD { x } => {
                let base = self.index_reg as usize;
                if base + 2 >= 4096 {
                    Err(
                        Fault::Memory {
                            addr: if base < 4096 {
                                4096
                            } else {
                                base
                            },
                        },
                    )
                } else {
                    let v = self.registers[x as usize];
                    self.mem.set(base, v / 100);
                    self.mem.set(base + 1, (v / 10) % 10);
                    self.mem.set(base + 2, (v % 100) % 10);
                    self.pc = self.pc + 2;
                    proof {
                        assert(self@ =~= spec_execute(old(self)@, inst, rnd)->Ok_0);
                    }
                    Ok(())
                }
            },
            Instructions::RegDump { x } => {
                let base = self.index_reg as usize;
                if base + x as usize >= 4096 {
                    Err(
                        Fault::Memory {
                            addr: if base < 4096 {
                                4096
                            } else {
                                base
                            },
                        },
                    )
                } else {
                    let mut i: usize = 0;
                    while i <= x as usize
                        invariant
                            old(self).wf(),
                            x < 16,
                            base == old(self)@.index,
                            base + x < 4096,
                            i <= x + 1,
                            self.mem@.len() == 4096,
                            forall|j: int|
                                base <= j < base + i ==> self.mem@[j] == old(self)@.regs[j - base],
                            forall|j: int|
                                0 <= j < 4096 && !(base <= j < base + i) ==> self.mem@[j] == old(
                                    self,
                                )@.mem[j],
                            self.registers@ == old(self)@.regs,
                            self.index_reg == old(self)@.index,
                            self.pc == old(self)@.pc,
                            self.delay_timer == old(self)@.delay,
                            self.sound_timer == old(self)@.sound,
                            self.stack@ == old(self)@.stack,
                            self.keys@ == old(self)@.keys,
                            self.gfx@ == old(self)@.gfx,
                        decreases x as int + 1 - i,
                    {
                        let v = self.registers[i];
                        self.mem.set(base + i, v);
                        i = i + 1;
                    }
                    self.index_reg = (base + x as usize + 1) as u16;
                    self.pc = self.pc + 2;
                    proof {
                        let s = old(self)@;
                        assert(self.mem@ =~= Seq::new(
                            4096,
                            |j: int|
                                if s.index <= j <= s.index + x {
                                    s.regs[j - s.index]
                                } else {
                                    s.mem[j]
                                },
                        ));
                        assert(self@ =~= spec_execute(s, inst, rnd)->Ok_0);
                    }
                    Ok(())
                }
            },
            Instructions::RegLoad { x } => {
                let base = self.index_reg as usize;
                if base + x as usize >= 4096 {
                    Err(
                        Fault::Memory {
                            addr: if base < 4096 {
                                4096
                            } else {
                                base
                            },
                        },
                    )
                } else {
                    let mut i: usize = 0;
                    while i <= x as usize
                        invariant
                            old(self).wf(),
                            x < 16,
                            base == old(self)@.index,
                            base + x < 4096,
                            i <= x + 1,
                            self.registers@.len() == 16,
                            forall|j: int|
                                0 <= j < i ==> self.registers@[j] == old(self)@.mem[base + j],
                            forall|j: int|
                                i <= j < 16 ==> self.registers@[j] == old(self)@.regs[j],
                            self.mem@ == old(self)@.mem,
                            self.index_reg == old(self)@.index,
                            self.pc == old(self)@.pc,
                            self.delay_timer == old(self)@.delay,
                            self.sound_timer == old(self)@.sound,
                            self.stack@ == old(self)@.stack,
                            self.keys@ == old(self)@.keys,
                            self.gfx@ == old(self)@.gfx,
                        decreases x as int + 1 - i,
                    {
                        let v = self.mem[base + i];
                        self.registers.set(i, v);
                        i = i + 1;
                    }
                    self.index_reg = (base + x as usize + 1) as u16;
                    self.pc = self.pc + 2;
                    proof {
                        let s = old(self)@;
                        assert(self.registers@ =~= Seq::new(
                            16,
                            |j: int|
                                if j <= x {
                                    s.mem[s.index + j]
                                } else {
                                    s.regs[j]
                                },
                        ));
                        assert(self@ =~= spec_execute(s, inst, rnd)->Ok_0);
                    }
                    Ok(())
                }
            },
            _ => {
                proof {
                    assert(false);
                }
                unreached()
            },
        }
    }

    /// Apply one decoded instruction to the machine: exactly the transition
    /// `spec_execute` gives it. A fault leaves the state untouched. The
    /// instruction must have been fetched from a valid program counter.
    pub fn execute(&mut self, inst: Instructions, rnd: u8) -> (r: Result<(), Fault>)
        requires
            old(self).wf(),
            inst.wf(),
            old(self).pc + 1 < 4096,
        ensures
            final(self).wf(),
            match spec_execute(old(self)@, inst, rnd) {
                Ok(s1) => r == Ok::<(), Fault>(()) && final(self)@ == s1,
                Err(f) => r == Err::<(), Fault>(f) && final(self)@ == old(self)@,
            },
    {
        match inst {
            Instructions::ClearScreen
            | Instructions::Return
            | Instructions::JumpToAddress(_)
            | Instructions::CallSub(_)
            | Instructions::JumpToValue { .. }
            | Instructions::SetMem { .. } => self.exec_system(inst, rnd),
            Instructions::SkipIfEqual { .. }
            | Instructions::SkipIfNotEqualValue { .. }
            | Instructions::SkipIfRegEqual { .. }
            | Instructions::SkipIfRegNotEqual { .. }
            | Instructions::PressedKey { .. }
            | Instructions::NotPressedKey { .. }
            | Instructions::WaitForKey { .. } => self.exec_skip_key(inst, rnd),
            Instructions::SetValueToReg { .. }
            | Instructions::AddValueToReg { .. }
            | Instructions::AssignValueToReg { .. }
            | Instructions::AssignOrValue { .. }
            | Instructions::AssignAndValue { .. }
            | Instructions::AssignXorValue { .. }
            | Instructions::AssignAddValue { .. }
            | Instructions::AssignSubValue { .. }
            | Instructions::ShiftRight { .. }
            | Instructions::AssignMinusValue { .. }
            | Instructions::ShiftLeft { .. }
            | Instructions::RandomAnd { .. } => self.exec_alu(inst, rnd),
            Instructions::SetValueToDelayTimer { .. }
            | Instructions::SetDelayTimerToReg { .. }
            | Instructions::SetSoundTimerTOReg { .. }
            | Instructions::SetIFromReg { .. }
            | Instructions::SetIFromSprite { .. }
            | Instructions::BCD { .. }
            | Instructions::RegDump { .. }
            | Instructions::RegLoad { .. } => self.exec_index_mem(inst, rnd),
            Instructions::Display { x, y, value } => {
                let r = self.exec_display(x, y, value);
                proof {
                    match spec_execute(old(self)@, inst, rnd) {
                        Ok(s1) => {
                            assert(r == Ok::<(), Fault>(()) && self@ == s1);
                        },
                        Err(f) => {
                            assert(r == Err::<(), Fault>(f) && self@ == old(self)@);
                        },
                    }
                }
                r
            },
        }
    }

    /// Run one cycle with `rnd` as the byte a random draw would yield: fetch
    /// the opcode at the program counter, decode it, execute it, then tick
    /// the timers. Returns the beep signal, or the fault that stopped the
    /// cycle, in which case the machine is untouched.
    pub fn step(&mut self, rnd: u8) -> (r: Result<bool, Fault>)
        requires
            old(self).wf(),
        ensures
            final(self).wf(),
            cycle_post(old(self)@, final(self)@, r, rnd),
    {
        let op = match self.fetch_opcode() {
            Ok(op) => op,
            Err(f) => {
                return Err(f);
            },
        };
        let inst = match Instructions::decode(op) {
            Ok(i) => i,
            Err(f) => {
                return Err(f);
            },
        };
        match self.execute(inst, rnd) {
            Ok(_) => {},
            Err(f) => {
                return Err(f);
            },
        };
        let ghost s1 = self@;
        let beep = self.sound_timer == 2;
        if self.delay_timer > 0 {
            self.delay_timer = self.delay_timer - 1;
        }
        if self.sound_timer > 0 {
            self.sound_timer = self.sound_timer - 1;
        }
        proof {
            assert(self@ =~= tick_timers(s1));
        }
        Ok(beep)
    }

    /// Run one cycle as `step` does, drawing the random byte itself. The
    /// machine steps to `spec_cycle`'s result for some byte; everything but
    /// the outcome of a random draw is pinned down.
    pub fn emulate_cycle(&mut self) -> (r: Result<bool, Fault>)
        requires
            old(self).wf(),
        ensures
            final(self).wf(),
            exists|rnd: u8| #[trigger] cycle_post(old(self)@, final(self)@, r, rnd),
    {
        let rnd = random_byte();
        let r = self.step(rnd);
        proof {
            assert(cycle_post(old(self)@, self@, r, rnd));
        }
        r
    }
}

/// Relies on rand::random: one uniformly drawn byte. Nothing is promised of
/// the value; callers state what holds whichever byte comes back.
#[verifier::external_body]
fn random_byte() -> u8 {
    rand::random::<u8>()
}

} // verus!
