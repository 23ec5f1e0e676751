//! Laws of the interpreter, each proved against `model::step_spec` or the
//! draw model: arithmetic flags, shift flags, draw collision and restore,
//! redraw-flag discipline, conditional skips, the wait-for-key latch, and
//! the timers.

use vstd::prelude::*;

use crate::model::{
    cells01, draw_collides, draw_collides_partial, draw_hits, draw_hits_partial, fetch,
    first_key_diff, flip, gfx_after_draw, lemma_pix_bounds, op_first, op_fourth, op_kk, op_second,
    op_third, op_x, op_y, pix, sprite_bit, step_spec, tick, wf_state, lemma_step_wf, VmState,
    GFX_SIZE, KEYPAD_SIZE, MEMORY_SIZE,
};

verus! {

/// The machine after `n` cycles with the same key state and the same
/// random byte each cycle.
pub open spec fn run_n(s: VmState, keys: Seq<bool>, rnd: u8, n: nat) -> VmState
    decreases n,
{
    if n == 0 {
        s
    } else {
        run_n(step_spec(s, keys, rnd), keys, rnd, (n - 1) as nat)
    }
}

/// An all-clear framebuffer.
pub open spec fn zero_gfx() -> Seq<u8> {
    Seq::new(GFX_SIZE as nat, |p: int| 0u8)
}

/// For every register add, the flags register reports carry out of the
/// 8-bit sum of the two original operand values, and the stored result is
/// that sum modulo 256. (With the flags register itself as destination the
/// stored sum overwrites the flag, so that case is left out.)
pub proof fn lemma_add_flags(s: VmState, keys: Seq<bool>, rnd: u8)
    requires
        wf_state(s),
        keys.len() == KEYPAD_SIZE,
        s.fault is None,
        s.pc + 1 < MEMORY_SIZE,
        op_first(fetch(s)) == 0x8,
        op_fourth(fetch(s)) == 0x4,
        op_x(fetch(s)) != 15,
    ensures
        ({
            let op = fetch(s);
            let a = s.regs[op_x(op)];
            let b = s.regs[op_y(op)];
            let t = step_spec(s, keys, rnd);
            &&& t.regs[15] == (if a + b > 255 {
                1u8
            } else {
                0u8
            })
            &&& t.regs[op_x(op)] == ((a + b) % 256) as u8
        }),
{
    let op = fetch(s);
    assert(((op & 0x0F00) >> 8u16) < 16) by (bit_vector);
}

/// For every shift-right, the flags register afterwards equals the
/// least-significant bit of the operand before the shift, and the stored
/// result is the operand halved. (With the flags register itself as
/// destination the stored result overwrites the flag, so that case is left
/// out.)
pub proof fn lemma_shift_right_flags(s: VmState, keys: Seq<bool>, rnd: u8)
    requires
        wf_state(s),
        keys.len() == KEYPAD_SIZE,
        s.fault is None,
        s.pc + 1 < MEMORY_SIZE,
        op_first(fetch(s)) == 0x8,
        op_fourth(fetch(s)) == 0x6,
        op_x(fetch(s)) != 15,
    ensures
        ({
            let op = fetch(s);
            let a = s.regs[op_x(op)];
            let t = step_spec(s, keys, rnd);
            &&& t.regs[15] == a % 2
            &&& t.regs[op_x(op)] == a / 2
        }),
{
    let op = fetch(s);
    let a = s.regs[op_x(op)];
    assert(((op & 0x0F00) >> 8u16) < 16) by (bit_vector);
    assert((a & 1u8) == a % 2 && (a >> 1u8) == a / 2) by (bit_vector);
}

/// Drawing the same non-zero sprite twice at the same location: the second
/// draw clears every pixel the first one set, restores the framebuffer
/// whole, and reports a collision. (Non-zero is taken as: the first draw
/// sets at least one pixel that was clear.)
pub proof fn lemma_draw_twice(gfx: Seq<u8>, mem: Seq<u8>, i: int, vx: u8, vy: u8, h: int)
    requires
        gfx.len() == GFX_SIZE,
        cells01(gfx),
        mem.len() == MEMORY_SIZE,
        0 <= h < 16,
        0 <= i,
        i + h <= MEMORY_SIZE,
        exists|r: int, c: int|
            0 <= r < h && 0 <= c < 8 && sprite_bit(mem, i, r, c) == 1 && gfx[#[trigger] pix(
                vx,
                vy,
                r,
                c,
            )] == 0,
    ensures
        ({
            let g1 = gfx_after_draw(gfx, mem, i, vx, vy, h);
            let g2 = gfx_after_draw(g1, mem, i, vx, vy, h);
            &&& g2 == gfx
            &&& forall|p: int|
                0 <= p < GFX_SIZE && draw_hits(mem, i, vx, vy, h, p) && gfx[p] == 0 ==> g1[p] == 1
                    && g2[p] == 0
            &&& draw_collides(g1, mem, i, vx, vy, h)
        }),
{
    let g1 = gfx_after_draw(gfx, mem, i, vx, vy, h);
    let g2 = gfx_after_draw(g1, mem, i, vx, vy, h);
    assert(g2 =~= gfx);
    let (r, c) = choose|r: int, c: int|
        0 <= r < h && 0 <= c < 8 && sprite_bit(mem, i, r, c) == 1 && gfx[#[trigger] pix(
            vx,
            vy,
            r,
            c,
        )] == 0;
    lemma_pix_bounds(vx, vy, r, c);
    let p0 = pix(vx, vy, r, c);
    assert(draw_hits_partial(mem, i, vx, vy, h, 0, p0));
    assert(g1[p0] == flip(gfx[p0]));
    assert(g1[p0] == 1);
    assert(draw_collides_partial(g1, mem, i, vx, vy, h, 0));
}

/// The redraw flag is true on exactly the cycles that executed a
/// clear-screen or a (non-faulting) draw instruction.
pub proof fn lemma_redraw_flag(s: VmState, keys: Seq<bool>, rnd: u8)
    requires
        wf_state(s),
        keys.len() == KEYPAD_SIZE,
        s.fault is None,
        s.pc + 1 < MEMORY_SIZE,
    ensures
        ({
            let op = fetch(s);
            step_spec(s, keys, rnd).draw == ((op_first(op) == 0x0 && op_second(op) == 0x0
                && op_third(op) == 0xE && op_fourth(op) == 0x0) || (op_first(op) == 0xD && s.index
                + op_fourth(op) <= MEMORY_SIZE))
        }),
{
}

/// On a cleared framebuffer a draw leaves exactly the sprite's own pixels
/// set: together with `lemma_redraw_flag` this is the clear-then-draw law.
pub proof fn lemma_draw_on_cleared(mem: Seq<u8>, i: int, vx: u8, vy: u8, h: int)
    requires
        mem.len() == MEMORY_SIZE,
        0 <= h < 16,
        0 <= i,
        i + h <= MEMORY_SIZE,
    ensures
        forall|p: int|
            0 <= p < GFX_SIZE ==> gfx_after_draw(zero_gfx(), mem, i, vx, vy, h)[p] == (
            if draw_hits(mem, i, vx, vy, h, p) {
                1u8
            } else {
                0u8
            }),
{
}

/// A clear-screen cycle followed by a draw cycle: each of the two cycles
/// sets the redraw flag, and afterwards the framebuffer holds exactly the
/// pixels that draw set.
pub proof fn lemma_clear_then_draw(s: VmState, keys: Seq<bool>, rnd1: u8, rnd2: u8)
    requires
        wf_state(s),
        keys.len() == KEYPAD_SIZE,
        s.fault is None,
        s.pc + 3 < MEMORY_SIZE,
        op_first(fetch(s)) == 0x0,
        op_second(fetch(s)) == 0x0,
        op_third(fetch(s)) == 0xE,
        op_fourth(fetch(s)) == 0x0,
        ({
            let t = step_spec(s, keys, rnd1);
            op_first(fetch(t)) == 0xD && s.index + op_fourth(fetch(t)) <= MEMORY_SIZE
        }),
    ensures
        step_spec(s, keys, rnd1).draw,
        ({
            let t = step_spec(s, keys, rnd1);
            let u = step_spec(t, keys, rnd2);
            let op2 = fetch(t);
            &&& u.draw
            &&& forall|p: int|
                0 <= p < GFX_SIZE ==> u.gfx[p] == (if draw_hits(
                    t.mem,
                    t.index as int,
                    t.regs[op_x(op2)],
                    t.regs[op_y(op2)],
                    op_fourth(op2) as int,
                    p,
                ) {
                    1u8
                } else {
                    0u8
                })
        }),
{
    let t = step_spec(s, keys, rnd1);
    lemma_step_wf(s, keys, rnd1);
    let op2 = fetch(t);
    assert((op2 & 0x000F) < 16) by (bit_vector);
    assert(t.gfx =~= zero_gfx());
    lemma_draw_on_cleared(
        t.mem,
        t.index as int,
        t.regs[op_x(op2)],
        t.regs[op_y(op2)],
        op_fourth(op2) as int,
    );
}

/// The skip-equal instruction advances the program counter by 4 when the
/// operand register equals the immediate, and by 2 otherwise.
pub proof fn lemma_skip_equal(s: VmState, keys: Seq<bool>, rnd: u8)
    requires
        wf_state(s),
        keys.len() == KEYPAD_SIZE,
        s.fault is None,
        s.pc + 1 < MEMORY_SIZE,
        op_first(fetch(s)) == 0x3,
    ensures
        ({
            let op = fetch(s);
            step_spec(s, keys, rnd).pc == (if s.regs[op_x(op)] == op_kk(op) {
                s.pc + 4
            } else {
                s.pc + 2
            })
        }),
{
}

/// A key state identical to its snapshot has no first changed index.
proof fn lemma_first_key_diff_same(keys: Seq<bool>, snap: Seq<bool>, j: int)
    requires
        0 <= j,
        forall|q: int| 0 <= q < KEYPAD_SIZE ==> keys[q] == snap[q],
    ensures
        first_key_diff(keys, snap, j) == KEYPAD_SIZE,
    decreases KEYPAD_SIZE - j,
{
    if j < KEYPAD_SIZE {
        lemma_first_key_diff_same(keys, snap, j + 1);
    }
}

/// `first_key_diff` finds exactly the least changed index.
proof fn lemma_first_key_diff_at(keys: Seq<bool>, snap: Seq<bool>, j: int, k: int)
    requires
        0 <= j <= k < KEYPAD_SIZE,
        keys[k] != snap[k],
        forall|q: int| 0 <= q < k ==> keys[q] == snap[q],
    ensures
        first_key_diff(keys, snap, j) == k,
    decreases k - j,
{
    if j < k {
        lemma_first_key_diff_at(keys, snap, j + 1, k);
    }
}

/// The first cycle of a wait-for-key: the machine snapshots the current
/// keys, freezes the program counter, and touches no register.
pub proof fn lemma_wait_for_key_entry(s: VmState, keys: Seq<bool>, rnd: u8)
    requires
        wf_state(s),
        keys.len() == KEYPAD_SIZE,
        s.fault is None,
        s.pc + 1 < MEMORY_SIZE,
        op_first(fetch(s)) == 0xF,
        op_third(fetch(s)) == 0x0,
        op_fourth(fetch(s)) == 0xA,
        !s.waiting,
    ensures
        ({
            let t = step_spec(s, keys, rnd);
            &&& t.waiting
            &&& t.snap == keys
            &&& t.pc == s.pc
            &&& t.regs == s.regs
            &&& t.mem == s.mem
            &&& t.fault is None
        }),
{
}

/// While the wait-for-key latch holds and the keys stay equal to their
/// snapshot, the program counter does not advance for any number of
/// cycles; meanwhile each timer falls by exactly one per cycle until zero,
/// and the tone sounds on exactly the first `sound` of those cycles.
pub proof fn lemma_waiting_countdown(s: VmState, keys: Seq<bool>, rnd: u8, n: nat)
    requires
        wf_state(s),
        keys.len() == KEYPAD_SIZE,
        s.fault is None,
        s.pc + 1 < MEMORY_SIZE,
        op_first(fetch(s)) == 0xF,
        op_third(fetch(s)) == 0x0,
        op_fourth(fetch(s)) == 0xA,
        s.waiting,
        s.snap == keys,
    ensures
        ({
            let t = run_n(s, keys, rnd, n);
            &&& t.pc == s.pc
            &&& t.waiting
            &&& t.regs == s.regs
            &&& t.mem == s.mem
            &&& t.snap == s.snap
            &&& t.fault is None
            &&& t.delay == (if s.delay >= n {
                (s.delay - n) as u8
            } else {
                0u8
            })
            &&& t.sound == (if s.sound >= n {
                (s.sound - n) as u8
            } else {
                0u8
            })
            &&& (n > 0 ==> t.tone == (s.sound > n))
        }),
    decreases n,
{
    if n > 0 {
        lemma_first_key_diff_same(keys, s.snap, 0);
        let t1 = step_spec(s, keys, rnd);
        lemma_step_wf(s, keys, rnd);
        assert(fetch(t1) == fetch(s));
        lemma_waiting_countdown(t1, keys, rnd, (n - 1) as nat);
    }
}

/// The cycle on which some key's state first differs from the snapshot:
/// the changed key's index lands in the destination register, the latch
/// opens, and the program counter advances.
pub proof fn lemma_wait_for_key_release(s: VmState, keys: Seq<bool>, rnd: u8, k: int)
    requires
        wf_state(s),
        keys.len() == KEYPAD_SIZE,
        s.fault is None,
        s.pc + 1 < MEMORY_SIZE,
        op_first(fetch(s)) == 0xF,
        op_third(fetch(s)) == 0x0,
        op_fourth(fetch(s)) == 0xA,
        s.waiting,
        0 <= k < KEYPAD_SIZE,
        keys[k] != s.snap[k],
        forall|q: int| 0 <= q < k ==> keys[q] == s.snap[q],
    ensures
        ({
            let t = step_spec(s, keys, rnd);
            &&& t.regs == s.regs.update(op_x(fetch(s)), k as u8)
            &&& !t.waiting
            &&& t.pc == s.pc + 2
            &&& t.fault is None
        }),
{
    lemma_first_key_diff_at(keys, s.snap, 0, k);
}

/// The whole wait-for-key story in one piece. A machine about to execute
/// wait-for-key, given a key state that does not change for any number of
/// cycles, does not advance its program counter; on the first cycle whose
/// key state differs from the snapshot — first at index `k` — the
/// destination register receives `k` and the program counter advances.
pub proof fn lemma_wait_for_key_scenario(
    s: VmState,
    keys: Seq<bool>,
    keys2: Seq<bool>,
    rnd: u8,
    n: nat,
    k: int,
)
    requires
        wf_state(s),
        keys.len() == KEYPAD_SIZE,
        keys2.len() == KEYPAD_SIZE,
        s.fault is None,
        s.pc + 1 < MEMORY_SIZE,
        op_first(fetch(s)) == 0xF,
        op_third(fetch(s)) == 0x0,
        op_fourth(fetch(s)) == 0xA,
        !s.waiting,
        0 <= k < KEYPAD_SIZE,
        keys2[k] != keys[k],
        forall|q: int| 0 <= q < k ==> keys2[q] == keys[q],
    ensures
        ({
            // the entry cycle and n held cycles under the unchanged keys
            let w = run_n(s, keys, rnd, n + 1);
            // the cycle on which the key state has changed
            let f = step_spec(w, keys2, rnd);
            &&& w.pc == s.pc
            &&& w.waiting
            &&& f.regs == s.regs.update(op_x(fetch(s)), k as u8)
            &&& !f.waiting
            &&& f.pc == s.pc + 2
        }),
{
    let t1 = step_spec(s, keys, rnd);
    lemma_wait_for_key_entry(s, keys, rnd);
    lemma_step_wf(s, keys, rnd);
    assert(fetch(t1) == fetch(s));
    lemma_waiting_countdown(t1, keys, rnd, n);
    let w = run_n(t1, keys, rnd, n);
    lemma_run_n_shift(s, keys, rnd, n);
    assert(wf_state(w)) by {
        lemma_run_n_wf(t1, keys, rnd, n);
    }
    assert(fetch(w) == fetch(s));
    lemma_wait_for_key_release(w, keys2, rnd, k);
}

/// Running one cycle and then `n` more is running `n + 1` from the start.
proof fn lemma_run_n_shift(s: VmState, keys: Seq<bool>, rnd: u8, n: nat)
    ensures
        run_n(s, keys, rnd, n + 1) == run_n(step_spec(s, keys, rnd), keys, rnd, n),
    decreases n,
{
    if n > 0 {
        lemma_run_n_shift(step_spec(s, keys, rnd), keys, rnd, (n - 1) as nat);
    }
}

/// Any number of cycles keeps the machine well-formed.
proof fn lemma_run_n_wf(s: VmState, keys: Seq<bool>, rnd: u8, n: nat)
    requires
        wf_state(s),
        keys.len() == KEYPAD_SIZE,
    ensures
        wf_state(run_n(s, keys, rnd, n)),
    decreases n,
{
    if n > 0 {
        lemma_step_wf(s, keys, rnd);
        lemma_run_n_wf(step_spec(s, keys, rnd), keys, rnd, (n - 1) as nat);
    }
}

/// Outside the two instructions that write a timer, every cycle lowers
/// each timer by exactly one until it reaches zero, where it stays; the
/// tone flag is true exactly while the sound timer is nonzero after the
/// decrement.
pub proof fn lemma_timers_tick(s: VmState, keys: Seq<bool>, rnd: u8)
    requires
        wf_state(s),
        keys.len() == KEYPAD_SIZE,
        s.fault is None,
        s.pc + 1 < MEMORY_SIZE,
        !(op_first(fetch(s)) == 0xF && op_third(fetch(s)) == 0x1 && (op_fourth(fetch(s)) == 0x5
            || op_fourth(fetch(s)) == 0x8)),
    ensures
        step_spec(s, keys, rnd).delay == tick(s.delay),
        step_spec(s, keys, rnd).sound == tick(s.sound),
        step_spec(s, keys, rnd).tone == (tick(s.sound) > 0),
{
}

} // verus!

