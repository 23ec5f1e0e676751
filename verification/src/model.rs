//! The mathematical model of the machine: its state, the decoding of an
//! instruction word into nibble fields, and the transition that one cycle of
//! the interpreter performs. The executable interpreter in `cpu` is proved to
//! follow `step_spec` exactly.

use vstd::prelude::*;

verus! {

/// Bytes of addressable memory.
pub const MEMORY_SIZE: usize = 4096;

/// General-purpose 8-bit registers.
pub const REGISTER_COUNT: usize = 16;

/// Framebuffer width in pixels.
pub const GFX_WIDTH: usize = 64;

/// Framebuffer height in pixels.
pub const GFX_HEIGHT: usize = 32;

/// Pixels in the framebuffer, stored row-major.
pub const GFX_SIZE: usize = 2048;

/// Return addresses the call stack can hold.
pub const STACK_CAPACITY: usize = 16;

/// Keys on the keypad.
pub const KEYPAD_SIZE: usize = 16;

/// Address where a loaded program begins, and where the program counter
/// starts.
pub const PROGRAM_START: usize = 512;

/// Bytes of the built-in glyph table (16 glyphs of 5 bytes each).
pub const FONT_SIZE: usize = 80;

/// Rows of one built-in glyph.
pub const GLYPH_HEIGHT: usize = 5;

/// The reason a machine stopped for good. The instruction set leaves these
/// conditions undefined; this interpreter halts deterministically instead of
/// reading or writing out of bounds.
#[derive(Clone, Copy, Debug, PartialEq, Eq, Structural)]
pub enum Fault {
    /// More than `STACK_CAPACITY` nested subroutine calls.
    StackOverflow,
    /// A return with no matching call.
    StackUnderflow,
    /// The program counter left addressable memory.
    ProgramCounterOutOfBounds,
    /// An instruction would have read or written past the end of memory.
    MemoryOutOfBounds,
    /// A key-skip instruction named a key index of 16 or more.
    KeyOutOfRange,
}

/// The fault a program load can report: the byte sequence does not fit in
/// the memory left above the entry address.
#[derive(Clone, Copy, Debug, PartialEq, Eq, Structural)]
pub enum LoadError {
    TooLarge,
}

/// What one executed instruction asks of the program counter.
pub enum ProgramCounterStep {
    Jump(usize),
    Next,
    Skip,
    Noop,
}

/// The whole machine state, as the contracts speak of it.
#[verifier::ext_equal]
pub ghost struct VmState {
    /// Addressable memory, `MEMORY_SIZE` bytes.
    pub mem: Seq<u8>,
    /// The sixteen 8-bit registers; index 15 doubles as the flags register.
    pub regs: Seq<u8>,
    /// The index register, an address into memory.
    pub index: usize,
    /// The program counter.
    pub pc: usize,
    /// The framebuffer, `GFX_SIZE` cells of 0 or 1, row-major.
    pub gfx: Seq<u8>,
    /// True exactly on cycles that cleared or drew the screen.
    pub draw: bool,
    /// The delay timer.
    pub delay: u8,
    /// The sound timer.
    pub sound: u8,
    /// True exactly while the sound timer is nonzero after the cycle's
    /// decrement.
    pub tone: bool,
    /// Return addresses of the calls in progress, innermost last.
    pub stack: Seq<usize>,
    /// True while a wait-for-key instruction holds the machine.
    pub waiting: bool,
    /// The key states snapshotted when the wait began.
    pub snap: Seq<bool>,
    /// The fault that halted the machine, if any.
    pub fault: Option<Fault>,
}

/// Every cell of a framebuffer holds 0 or 1.
pub open spec fn cells01(g: Seq<u8>) -> bool {
    forall|p: int| 0 <= p < g.len() ==> g[p] == 0 || g[p] == 1
}

/// The shape every reachable machine state has: fixed sizes, a bounded
/// stack of in-range return addresses, an in-range index register, and a
/// program counter that can sit at most one offset-jump past memory.
pub open spec fn wf_state(s: VmState) -> bool {
    &&& s.mem.len() == MEMORY_SIZE
    &&& s.regs.len() == REGISTER_COUNT
    &&& s.gfx.len() == GFX_SIZE
    &&& cells01(s.gfx)
    &&& s.stack.len() <= STACK_CAPACITY
    &&& (forall|k: int| 0 <= k < s.stack.len() ==> s.stack[k] <= MEMORY_SIZE)
    &&& s.index < MEMORY_SIZE
    &&& s.pc < MEMORY_SIZE + 256
    &&& s.snap.len() == KEYPAD_SIZE
}

/// First nibble of an instruction word.
pub open spec fn op_first(op: u16) -> u16 {
    (op & 0xF000) >> 12u16
}

/// Second nibble: the `x` register selector.
pub open spec fn op_second(op: u16) -> u16 {
    (op & 0x0F00) >> 8u16
}

/// Third nibble: the `y` register selector.
pub open spec fn op_third(op: u16) -> u16 {
    (op & 0x00F0) >> 4u16
}

/// Fourth nibble: a count or height operand.
pub open spec fn op_fourth(op: u16) -> u16 {
    op & 0x000F
}

/// The embedded 12-bit address operand.
pub open spec fn op_nnn(op: u16) -> int {
    (op & 0x0FFF) as int
}

/// The embedded 8-bit immediate operand.
pub open spec fn op_kk(op: u16) -> u8 {
    (op & 0x00FF) as u8
}

/// The `x` register selector as an index.
pub open spec fn op_x(op: u16) -> int {
    op_second(op) as int
}

/// The `y` register selector as an index.
pub open spec fn op_y(op: u16) -> int {
    op_third(op) as int
}

/// The instruction word at the program counter: high byte first.
pub open spec fn fetch(s: VmState) -> u16 {
    ((s.mem[s.pc as int] as u16) << 8u16) | (s.mem[s.pc + 1] as u16)
}

/// The program counter after a cycle: fall through, take a skip, stay put,
/// or land on an explicit address.
pub open spec fn pc_after(pc: usize, step: ProgramCounterStep) -> usize {
    match step {
        ProgramCounterStep::Next => (pc + 2) as usize,
        ProgramCounterStep::Skip => (pc + 4) as usize,
        ProgramCounterStep::Noop => pc,
        ProgramCounterStep::Jump(pos) => pos,
    }
}

/// One countdown tick: down by one while nonzero, resting at zero.
pub open spec fn tick(t: u8) -> u8 {
    if t > 0 {
        (t - 1) as u8
    } else {
        0
    }
}

/// Bit `c` (counted from the left) of sprite row `r`, rows starting at
/// memory address `i`.
pub open spec fn sprite_bit(mem: Seq<u8>, i: int, r: int, c: int) -> u8 {
    (mem[i + r] >> ((7 - c) as u8)) & 1u8
}

/// The framebuffer cell that row `r`, column `c` of a sprite drawn at
/// `(vx, vy)` lands on: both coordinates wrap around the grid.
pub open spec fn pix(vx: u8, vy: u8, r: int, c: int) -> int {
    ((vy + r) % (GFX_HEIGHT as int)) * (GFX_WIDTH as int) + (vx + c) % (GFX_WIDTH as int)
}

/// Whether some sprite row and column before `(r, c)` in drawing order
/// (row-major) lands a set bit on framebuffer cell `p`.
pub open spec fn draw_hits_partial(
    mem: Seq<u8>,
    i: int,
    vx: u8,
    vy: u8,
    r: int,
    c: int,
    p: int,
) -> bool {
    exists|rr: int, cc: int|
        0 <= rr && 0 <= cc < 8 && (rr < r || (rr == r && cc < c)) && #[trigger] pix(vx, vy, rr, cc)
            == p && sprite_bit(mem, i, rr, cc) == 1
}

/// Whether the sprite of height `h` at memory address `i`, drawn at
/// `(vx, vy)`, toggles framebuffer cell `p`.
pub open spec fn draw_hits(mem: Seq<u8>, i: int, vx: u8, vy: u8, h: int, p: int) -> bool {
    draw_hits_partial(mem, i, vx, vy, h, 0, p)
}

/// A toggled pixel: set where it was clear, cleared where it was set.
pub open spec fn flip(b: u8) -> u8 {
    if b == 0 {
        1u8
    } else {
        0u8
    }
}

/// The framebuffer after a draw: every cell the sprite hits is toggled, the
/// rest are untouched.
pub open spec fn gfx_after_draw(gfx: Seq<u8>, mem: Seq<u8>, i: int, vx: u8, vy: u8, h: int) -> Seq<
    u8,
> {
    Seq::new(
        GFX_SIZE as nat,
        |p: int|
            if draw_hits(mem, i, vx, vy, h, p) {
                flip(gfx[p])
            } else {
                gfx[p]
            },
    )
}

/// Whether some sprite row and column before `(r, c)` in drawing order
/// lands a set bit on a cell of `gfx` that is already set.
pub open spec fn draw_collides_partial(
    gfx: Seq<u8>,
    mem: Seq<u8>,
    i: int,
    vx: u8,
    vy: u8,
    r: int,
    c: int,
) -> bool {
    exists|rr: int, cc: int|
        0 <= rr && 0 <= cc < 8 && (rr < r || (rr == r && cc < c)) && sprite_bit(mem, i, rr, cc)
            == 1 && gfx[#[trigger] pix(vx, vy, rr, cc)] == 1
}

/// Whether a draw clears at least one previously set pixel.
pub open spec fn draw_collides(gfx: Seq<u8>, mem: Seq<u8>, i: int, vx: u8, vy: u8, h: int) -> bool {
    draw_collides_partial(gfx, mem, i, vx, vy, h, 0)
}

/// Every sprite row and column lands on a framebuffer cell.
pub proof fn lemma_pix_bounds(vx: u8, vy: u8, r: int, c: int)
    ensures
        0 <= pix(vx, vy, r, c) < GFX_SIZE,
{
    assert(0 <= (vy + r) % (GFX_HEIGHT as int) < 32) by (nonlinear_arith);
    assert(0 <= (vx + c) % (GFX_WIDTH as int) < 64) by (nonlinear_arith);
}

/// Distinct rows and columns of one sprite land on distinct framebuffer
/// cells: a draw of height at most 15 toggles each cell at most once.
pub proof fn lemma_pix_injective(vx: u8, vy: u8, r1: int, c1: int, r2: int, c2: int)
    requires
        0 <= r1 < 16,
        0 <= c1 < 8,
        0 <= r2 < 16,
        0 <= c2 < 8,
        pix(vx, vy, r1, c1) == pix(vx, vy, r2, c2),
    ensures
        r1 == r2,
        c1 == c2,
{
    let hh = GFX_HEIGHT as int;
    let ww = GFX_WIDTH as int;
    let py1 = (vy + r1) % hh;
    let px1 = (vx + c1) % ww;
    let py2 = (vy + r2) % hh;
    let px2 = (vx + c2) % ww;
    assert(0 <= (vy + r1) % (GFX_HEIGHT as int) < 32) by (nonlinear_arith);
    assert(0 <= (vy + r2) % (GFX_HEIGHT as int) < 32) by (nonlinear_arith);
    assert(0 <= (vx + c1) % (GFX_WIDTH as int) < 64) by (nonlinear_arith);
    assert(0 <= (vx + c2) % (GFX_WIDTH as int) < 64) by (nonlinear_arith);
    vstd::arithmetic::div_mod::lemma_fundamental_div_mod_converse(
        pix(vx, vy, r1, c1),
        64,
        py1,
        px1,
    );
    vstd::arithmetic::div_mod::lemma_fundamental_div_mod_converse(
        pix(vx, vy, r2, c2),
        64,
        py2,
        px2,
    );
    assert(py1 == py2 && px1 == px2);
    vstd::arithmetic::div_mod::lemma_fundamental_div_mod(vy + r1, hh);
    vstd::arithmetic::div_mod::lemma_fundamental_div_mod(vy + r2, hh);
    let qy = (vy + r1) / hh - (vy + r2) / hh;
    assert(r1 - r2 == 32 * qy);
    assert(qy == 0);
    vstd::arithmetic::div_mod::lemma_fundamental_div_mod(vx + c1, ww);
    vstd::arithmetic::div_mod::lemma_fundamental_div_mod(vx + c2, ww);
    let qx = (vx + c1) / ww - (vx + c2) / ww;
    assert(c1 - c2 == 64 * qx);
    assert(qx == 0);
}

/// The first key index at or after `j` whose current state differs from its
/// snapshot; `KEYPAD_SIZE` if none differs.
pub open spec fn first_key_diff(keys: Seq<bool>, snap: Seq<bool>, j: int) -> int
    decreases KEYPAD_SIZE - j,
{
    if j >= KEYPAD_SIZE {
        KEYPAD_SIZE as int
    } else if keys[j] != snap[j] {
        j
    } else {
        first_key_diff(keys, snap, j + 1)
    }
}

/// What one executed instruction leaves behind: the state it wrote and the
/// program-counter request it made.
#[verifier::ext_equal]
pub ghost struct OpOutcome {
    pub state: VmState,
    pub step: ProgramCounterStep,
}

/// The effect of one decoded instruction on the machine state, before the
/// program counter is moved and the timers tick. `keys` is the current
/// key-down state; `rnd` is the byte the random source handed this cycle.
pub open spec fn exec_op(s: VmState, op: u16, keys: Seq<bool>, rnd: u8) -> OpOutcome {
    let f = op_first(op);
    let third = op_third(op);
    let n = op_fourth(op);
    let x = op_x(op);
    let y = op_y(op);
    let kk = op_kk(op);
    let nnn = op_nnn(op);
    let second = op_second(op);
    let vx = s.regs[x];
    let vy = s.regs[y];
    if f == 0x0 && second == 0x0 && third == 0xE && n == 0x0 {
        // Clear the screen.
        OpOutcome {
            state: VmState { gfx: Seq::new(GFX_SIZE as nat, |p: int| 0u8), draw: true, ..s },
            step: ProgramCounterStep::Next,
        }
    } else if f == 0x0 && second == 0x0 && third == 0xE && n == 0xE {
        // Return from a subroutine.
        if s.stack.len() == 0 {
            OpOutcome {
                state: VmState { fault: Some(Fault::StackUnderflow), ..s },
                step: ProgramCounterStep::Noop,
            }
        } else {
            OpOutcome {
                state: VmState { stack: s.stack.drop_last(), ..s },
                step: ProgramCounterStep::Jump(s.stack.last()),
            }
        }
    } else if f == 0x1 {
        // Jump to nnn.
        OpOutcome { state: s, step: ProgramCounterStep::Jump(nnn as usize) }
    } else if f == 0x2 {
        // Call the subroutine at nnn, pushing the address after this call.
        if s.stack.len() >= STACK_CAPACITY {
            OpOutcome {
                state: VmState { fault: Some(Fault::StackOverflow), ..s },
                step: ProgramCounterStep::Noop,
            }
        } else {
            OpOutcome {
                state: VmState { stack: s.stack.push((s.pc + 2) as usize), ..s },
                step: ProgramCounterStep::Jump(nnn as usize),
            }
        }
    } else if f == 0x3 {
        // Skip if register x equals the immediate.
        OpOutcome {
            state: s,
            step: if vx == kk {
                ProgramCounterStep::Skip
            } else {
                ProgramCounterStep::Next
            },
        }
    } else if f == 0x4 {
        // Skip if register x differs from the immediate.
        OpOutcome {
            state: s,
            step: if vx != kk {
                ProgramCounterStep::Skip
            } else {
                ProgramCounterStep::Next
            },
        }
    } else if f == 0x5 && n == 0x0 {
        // Skip if the two registers are equal.
        OpOutcome {
            state: s,
            step: if vx == vy {
                ProgramCounterStep::Skip
            } else {
                ProgramCounterStep::Next
            },
        }
    } else if f == 0x6 {
        // Load the immediate.
        OpOutcome { state: VmState { regs: s.regs.update(x, kk), ..s }, step: ProgramCounterStep::Next }
    } else if f == 0x7 {
        // Add the immediate, wrapping, flags untouched.
        OpOutcome {
            state: VmState { regs: s.regs.update(x, ((vx + kk) % 256) as u8), ..s },
            step: ProgramCounterStep::Next,
        }
    } else if f == 0x8 && n == 0x0 {
        OpOutcome { state: VmState { regs: s.regs.update(x, vy), ..s }, step: ProgramCounterStep::Next }
    } else if f == 0x8 && n == 0x1 {
        OpOutcome {
            state: VmState { regs: s.regs.update(x, vx | vy), ..s },
            step: ProgramCounterStep::Next,
        }
    } else if f == 0x8 && n == 0x2 {
        OpOutcome {
            state: VmState { regs: s.regs.update(x, vx & vy), ..s },
            step: ProgramCounterStep::Next,
        }
    } else if f == 0x8 && n == 0x3 {
        OpOutcome {
            state: VmState { regs: s.regs.update(x, vx ^ vy), ..s },
            step: ProgramCounterStep::Next,
        }
    } else if f == 0x8 && n == 0x4 {
        // Register add: the flag reports carry out of the 8-bit sum of the
        // two original operands; the stored result is the sum modulo 256.
        let vf: u8 = if vx + vy > 255 {
            1u8
        } else {
            0u8
        };
        OpOutcome {
            state: VmState {
                regs: s.regs.update(15, vf).update(x, ((vx + vy) % 256) as u8),
                ..s
            },
            step: ProgramCounterStep::Next,
        }
    } else if f == 0x8 && n == 0x5 {
        // Register subtract x - y: the flag reports "no borrow".
        let vf: u8 = if vx > vy {
            1u8
        } else {
            0u8
        };
        OpOutcome {
            state: VmState {
                regs: s.regs.update(
                    15,
                    vf,
                ).update(
                    x,
                    if vx - vy < 0 {
                        (vx - vy + 256) as u8
                    } else {
                        (vx - vy) as u8
                    },
                ),
                ..s
            },
            step: ProgramCounterStep::Next,
        }
    } else if f == 0x8 && n == 0x6 {
        // Shift right: the flag takes the original least-significant bit.
        let vf: u8 = vx & 1u8;
        OpOutcome {
            state: VmState { regs: s.regs.update(15, vf).update(x, vx >> 1u8), ..s },
            step: ProgramCounterStep::Next,
        }
    } else if f == 0x8 && n == 0x7 {
        // Reverse subtract y - x: the flag reports "no borrow".
        let vf: u8 = if vy > vx {
            1u8
        } else {
            0u8
        };
        OpOutcome {
            state: VmState {
                regs: s.regs.update(
                    15,
                    vf,
                ).update(
                    x,
                    if vy - vx < 0 {
                        (vy - vx + 256) as u8
                    } else {
                        (vy - vx) as u8
                    },
                ),
                ..s
            },
            step: ProgramCounterStep::Next,
        }
    } else if f == 0x8 && n == 0xE {
        // Shift left: the flag takes the original most-significant bit.
        let vf: u8 = (vx & 0x80u8) >> 7u8;
        OpOutcome {
            state: VmState { regs: s.regs.update(15, vf).update(x, vx << 1u8), ..s },
            step: ProgramCounterStep::Next,
        }
    } else if f == 0x9 && n == 0x0 {
        OpOutcome {
            state: s,
            step: if vx != vy {
                ProgramCounterStep::Skip
            } else {
                ProgramCounterStep::Next
            },
        }
    } else if f == 0xA {
        OpOutcome { state: VmState { index: nnn as usize, ..s }, step: ProgramCounterStep::Next }
    } else if f == 0xB {
        // Jump with offset: the base address plus register 0.
        OpOutcome { state: s, step: ProgramCounterStep::Jump((nnn + s.regs[0]) as usize) }
    } else if f == 0xC {
        // Random-masked load.
        OpOutcome {
            state: VmState { regs: s.regs.update(x, rnd & kk), ..s },
            step: ProgramCounterStep::Next,
        }
    } else if f == 0xD {
        // Draw a sprite of n rows from the index register at (vx, vy).
        let h = n as int;
        if s.index + h > MEMORY_SIZE {
            OpOutcome {
                state: VmState { fault: Some(Fault::MemoryOutOfBounds), ..s },
                step: ProgramCounterStep::Noop,
            }
        } else {
            let coll = draw_collides(s.gfx, s.mem, s.index as int, vx, vy, h);
            OpOutcome {
                state: VmState {
                    gfx: gfx_after_draw(s.gfx, s.mem, s.index as int, vx, vy, h),
                    regs: s.regs.update(
                        15,
                        if coll {
                            1u8
                        } else {
                            0u8
                        },
                    ),
                    draw: true,
                    ..s
                },
                step: ProgramCounterStep::Next,
            }
        }
    } else if f == 0xE && third == 0x9 && n == 0xE {
        // Skip if the key named by register x is down.
        if vx >= 16 {
            OpOutcome {
                state: VmState { fault: Some(Fault::KeyOutOfRange), ..s },
                step: ProgramCounterStep::Noop,
            }
        } else {
            OpOutcome {
                state: s,
                step: if keys[vx as int] {
                    ProgramCounterStep::Skip
                } else {
                    ProgramCounterStep::Next
                },
            }
        }
    } else if f == 0xE && third == 0xA && n == 0x1 {
        // Skip if the key named by register x is up.
        if vx >= 16 {
            OpOutcome {
                state: VmState { fault: Some(Fault::KeyOutOfRange), ..s },
                step: ProgramCounterStep::Noop,
            }
        } else {
            OpOutcome {
                state: s,
                step: if !keys[vx as int] {
                    ProgramCounterStep::Skip
                } else {
                    ProgramCounterStep::Next
                },
            }
        }
    } else if f == 0xF && third == 0x0 && n == 0x7 {
        OpOutcome {
            state: VmState { regs: s.regs.update(x, s.delay), ..s },
            step: ProgramCounterStep::Next,
        }
    } else if f == 0xF && third == 0x0 && n == 0xA {
        // Wait for a key: snapshot the keys on entry, hold the program
        // counter, and release on the first key whose state has changed.
        if s.waiting {
            let d = first_key_diff(keys, s.snap, 0);
            if d < KEYPAD_SIZE {
                OpOutcome {
                    state: VmState { regs: s.regs.update(x, d as u8), waiting: false, ..s },
                    step: ProgramCounterStep::Next,
                }
            } else {
                OpOutcome { state: s, step: ProgramCounterStep::Noop }
            }
        } else {
            OpOutcome {
                state: VmState { waiting: true, snap: keys, ..s },
                step: ProgramCounterStep::Noop,
            }
        }
    } else if f == 0xF && third == 0x1 && n == 0x5 {
        OpOutcome { state: VmState { delay: vx, ..s }, step: ProgramCounterStep::Next }
    } else if f == 0xF && third == 0x1 && n == 0x8 {
        OpOutcome { state: VmState { sound: vx, ..s }, step: ProgramCounterStep::Next }
    } else if f == 0xF && third == 0x1 && n == 0xE {
        // Advance the index register, faulting rather than leaving memory.
        if s.index + vx >= MEMORY_SIZE {
            OpOutcome {
                state: VmState { fault: Some(Fault::MemoryOutOfBounds), ..s },
                step: ProgramCounterStep::Noop,
            }
        } else {
            OpOutcome {
                state: VmState { index: (s.index + vx) as usize, ..s },
                step: ProgramCounterStep::Next,
            }
        }
    } else if f == 0xF && third == 0x2 && n == 0x9 {
        // Point the index register at the glyph for register x's value.
        OpOutcome {
            state: VmState { index: (vx * GLYPH_HEIGHT) as usize, ..s },
            step: ProgramCounterStep::Next,
        }
    } else if f == 0xF && third == 0x3 && n == 0x3 {
        // Store the decimal digits of register x at the index register.
        if s.index + 2 >= MEMORY_SIZE {
            OpOutcome {
                state: VmState { fault: Some(Fault::MemoryOutOfBounds), ..s },
                step: ProgramCounterStep::Noop,
            }
        } else {
            let i = s.index as int;
            OpOutcome {
                state: VmState {
                    mem: s.mem.update(i, (vx / 100) as u8).update(i + 1, ((vx / 10) % 10) as u8)
                        .update(i + 2, ((vx % 100) % 10) as u8),
                    ..s
                },
                step: ProgramCounterStep::Next,
            }
        }
    } else if f == 0xF && third == 0x5 && n == 0x5 {
        // Store registers 0 through x at the index register.
        if s.index + x >= MEMORY_SIZE {
            OpOutcome {
                state: VmState { fault: Some(Fault::MemoryOutOfBounds), ..s },
                step: ProgramCounterStep::Noop,
            }
        } else {
            OpOutcome {
                state: VmState {
                    mem: Seq::new(
                        MEMORY_SIZE as nat,
                        |p: int|
                            if s.index <= p <= s.index + x {
                                s.regs[p - s.index]
                            } else {
                                s.mem[p]
                            },
                    ),
                    ..s
                },
                step: ProgramCounterStep::Next,
            }
        }
    } else if f == 0xF && third == 0x6 && n == 0x5 {
        // Load registers 0 through x from the index register.
        if s.index + x >= MEMORY_SIZE {
            OpOutcome {
                state: VmState { fault: Some(Fault::MemoryOutOfBounds), ..s },
                step: ProgramCounterStep::Noop,
            }
        } else {
            OpOutcome {
                state: VmState {
                    regs: Seq::new(
                        REGISTER_COUNT as nat,
                        |j: int|
                            if j <= x {
                                s.mem[s.index + j]
                            } else {
                                s.regs[j]
                            },
                    ),
                    ..s
                },
                step: ProgramCounterStep::Next,
            }
        }
    } else {
        // An unrecognized instruction word is a no-op advance.
        OpOutcome { state: s, step: ProgramCounterStep::Next }
    }
}

/// One whole cycle: clear the per-cycle flags, fetch and execute the
/// instruction at the program counter (halting instead of fetching out of
/// bounds), move the program counter, and tick both timers, sounding the
/// tone exactly while the sound timer is still nonzero. A halted machine
/// does nothing at all.
pub open spec fn step_spec(s: VmState, keys: Seq<bool>, rnd: u8) -> VmState {
    if s.fault is Some {
        s
    } else {
        let s0 = VmState { draw: false, tone: false, ..s };
        let s1 = if s.pc + 1 < MEMORY_SIZE {
            let outcome = exec_op(s0, fetch(s0), keys, rnd);
            VmState { pc: pc_after(outcome.state.pc, outcome.step), ..outcome.state }
        } else {
            VmState { fault: Some(Fault::ProgramCounterOutOfBounds), ..s0 }
        };
        VmState {
            delay: tick(s1.delay),
            sound: tick(s1.sound),
            tone: tick(s1.sound) > 0,
            ..s1
        }
    }
}

/// A cycle keeps the machine well-formed: sizes are fixed, the stack stays
/// bounded with in-range return addresses, the index register stays inside
/// memory, and the program counter can sit at most one offset-jump past it.
pub proof fn lemma_step_wf(s: VmState, keys: Seq<bool>, rnd: u8)
    requires
        wf_state(s),
        keys.len() == KEYPAD_SIZE,
    ensures
        wf_state(step_spec(s, keys, rnd)),
{
    if s.fault is None {
        let s0 = VmState { draw: false, tone: false, ..s };
        if s.pc + 1 < MEMORY_SIZE {
            let op = fetch(s0);
            let o = exec_op(s0, op, keys, rnd);
            assert((op & 0x0FFF) < 4096) by (bit_vector);
            assert(op_second(op) < 16 && op_fourth(op) < 16) by (bit_vector);
            if s.stack.len() > 0 {
                assert(s.stack[s.stack.len() - 1] <= MEMORY_SIZE);
            }
            assert(wf_state(o.state));
            assert(pc_after(o.state.pc, o.step) < MEMORY_SIZE + 256);
        }
    }
}

/// Memory after a program load: the bytes of `prog` sit from the entry
/// address on, everything else is untouched.
pub open spec fn load_program(mem: Seq<u8>, prog: Seq<u8>) -> Seq<u8> {
    Seq::new(
        MEMORY_SIZE as nat,
        |p: int|
            if PROGRAM_START <= p < PROGRAM_START + prog.len() {
                prog[p - PROGRAM_START]
            } else {
                mem[p]
            },
    )
}

/// The built-in glyph table: 16 glyphs of 5 rows each, hexadecimal digits
/// 0 through F.
pub open spec fn font_seq() -> Seq<u8> {
    seq![
        0xF0u8, 0x90, 0x90, 0x90, 0xF0,
        0x20, 0x60, 0x20, 0x20, 0x70,
        0xF0, 0x10, 0xF0, 0x80, 0xF0,
        0xF0, 0x10, 0xF0, 0x10, 0xF0,
        0x90, 0x90, 0xF0, 0x10, 0x10,
        0xF0, 0x80, 0xF0, 0x10, 0xF0,
        0xF0, 0x80, 0xF0, 0x90, 0xF0,
        0xF0, 0x10, 0x20, 0x40, 0x40,
        0xF0, 0x90, 0xF0, 0x90, 0xF0,
        0xF0, 0x90, 0xF0, 0x10, 0xF0,
        0xF0, 0x90, 0xF0, 0x90, 0x90,
        0xE0, 0x90, 0xE0, 0x90, 0xE0,
        0xF0, 0x80, 0x80, 0x80, 0xF0,
        0xE0, 0x90, 0x90, 0x90, 0xE0,
        0xF0, 0x80, 0xF0, 0x80, 0xF0,
        0xF0, 0x80, 0xF0, 0x80, 0x80,
    ]
}

/// The machine as construction leaves it: the glyph table in low memory,
/// everything else zeroed, and the program counter at the entry address.
pub open spec fn init_state() -> VmState {
    VmState {
        mem: Seq::new(
            MEMORY_SIZE as nat,
            |p: int|
                if p < FONT_SIZE {
                    font_seq()[p]
                } else {
                    0u8
                },
        ),
        regs: Seq::new(REGISTER_COUNT as nat, |j: int| 0u8),
        index: 0,
        pc: PROGRAM_START,
        gfx: Seq::new(GFX_SIZE as nat, |p: int| 0u8),
        draw: false,
        delay: 0,
        sound: 0,
        tone: false,
        stack: Seq::empty(),
        waiting: false,
        snap: Seq::new(KEYPAD_SIZE as nat, |k: int| false),
        fault: None,
    }
}

} // verus!
