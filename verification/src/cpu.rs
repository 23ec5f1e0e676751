//! The interpreter: construction, program load, and the once-per-tick
//! fetch-decode-execute step, proved to follow `model::step_spec`.

use vstd::prelude::*;

use crate::model::{
    cells01, draw_collides, draw_collides_partial, draw_hits_partial, exec_op, first_key_diff,
    flip, font_seq, gfx_after_draw, init_state, lemma_pix_bounds, lemma_pix_injective,
    lemma_step_wf, load_program, pc_after, pix, sprite_bit, step_spec, wf_state, Fault, LoadError,
    ProgramCounterStep, VmState, FONT_SIZE, GFX_HEIGHT, GFX_SIZE, GFX_WIDTH, GLYPH_HEIGHT,
    KEYPAD_SIZE, MEMORY_SIZE, PROGRAM_START, REGISTER_COUNT, STACK_CAPACITY,
};
use rand::Rng;

verus! {

/// The machine: memory, registers, call stack, timers, framebuffer, and the
/// wait-for-key latch. One `emulate_cycle` call per host tick executes one
/// instruction and ticks the timers once.
pub struct Chip8 {
    memory: Vec<u8>,
    registers: Vec<u8>,
    i_register: usize,
    pc: usize,
    /// The framebuffer, row-major: the pixel at column `x`, row `y` is cell
    /// `y * GFX_WIDTH + x`, and holds 0 or 1.
    pub gfx: Vec<u8>,
    /// True exactly on cycles that cleared or drew the screen.
    pub draw_flag: bool,
    delay_timer: u8,
    sound_timer: u8,
    /// True exactly while the sound timer is nonzero after the cycle's
    /// decrement.
    pub beep: bool,
    stack: Vec<usize>,
    key_waiting: bool,
    key_copy: Vec<bool>,
    fault: Option<Fault>,
}

impl View for Chip8 {
    type V = VmState;

    closed spec fn view(&self) -> VmState {
        VmState {
            mem: self.memory@,
            regs: self.registers@,
            index: self.i_register,
            pc: self.pc,
            gfx: self.gfx@,
            draw: self.draw_flag,
            delay: self.delay_timer,
            sound: self.sound_timer,
            tone: self.beep,
            stack: self.stack@,
            waiting: self.key_waiting,
            snap: self.key_copy@,
            fault: self.fault,
        }
    }
}

impl Chip8 {
    /// The invariant every machine this module hands out satisfies.
    pub open spec fn wf(self) -> bool {
        wf_state(self@)
    }

    /// A fresh machine: memory zeroed but for the glyph table, registers,
    /// stack, timers and framebuffer zeroed, program counter at the entry
    /// address.
    pub fn new() -> (vm: Chip8)
        ensures
            vm.wf(),
            vm@ == init_state(),
    {
        let font: Vec<u8> = vec![
            0xF0u8, 0x90, 0x90, 0x90, 0xF0,
            0x20, 0x60, 0x20, 0x20, 0x70,
            0xF0, 0x10, 0xF0, 0x80, 0xF0,
            0xF0, 0x10, 0xF0, 0x10, 0xF0,
            0x90, 0x90, 0xF0, 0x10, 0x10,
            0xF0, 0x80, 0xF0, 0x10, 0xF0,
            0xF0, 0x80, 0xF0, 0x90, 0xF0,
            0xF0, 0x10, 0x20, 0x40, 0x40,
            0xF0, 0x90, 0xF0, 0x90, 0xF0,
            0xF0, 0x90, 0xF0, 0x10, 0xF0,
            0xF0, 0x90, 0xF0, 0x90, 0x90,
            0xE0, 0x90, 0xE0, 0x90, 0xE0,
            0xF0, 0x80, 0x80, 0x80, 0xF0,
            0xE0, 0x90, 0x90, 0x90, 0xE0,
            0xF0, 0x80, 0xF0, 0x80, 0xF0,
            0xF0, 0x80, 0xF0, 0x80, 0x80,
        ];
        proof {
            assert(font@ =~= font_seq());
        }
        let mut memory: Vec<u8> = vec![0u8; MEMORY_SIZE];
        let mut i: usize = 0;
        while i < FONT_SIZE
            invariant
                i <= FONT_SIZE,
                font@ == font_seq(),
                memory@.len() == MEMORY_SIZE,
                forall|p: int| 0 <= p < i ==> memory@[p] == font_seq()[p],
                forall|p: int| i <= p < MEMORY_SIZE ==> memory@[p] == 0,
            decreases FONT_SIZE - i,
        {
            memory[i] = font[i];
            i += 1;
        }
        let vm = Chip8 {
            memory,
            registers: vec![0u8; REGISTER_COUNT],
            i_register: 0,
            pc: PROGRAM_START,
            gfx: vec![0u8; GFX_SIZE],
            draw_flag: false,
            delay_timer: 0,
            sound_timer: 0,
            beep: false,
            stack: Vec::new(),
            key_waiting: false,
            key_copy: vec![false; KEYPAD_SIZE],
            fault: None,
        };
        proof {
            assert(vm@.mem =~= init_state().mem);
            assert(vm@.regs =~= init_state().regs);
            assert(vm@.gfx =~= init_state().gfx);
            assert(vm@.stack =~= init_state().stack);
            assert(vm@.snap =~= init_state().snap);
            assert(vm@ =~= init_state());
        }
        vm
    }

    /// Copy a program into memory starting at the entry address. A sequence
    /// that does not fit in the memory above the entry address is refused
    /// whole, before any cycle runs, and the machine is left untouched.
    pub fn initialize(&mut self, buffer: Vec<u8>) -> (r: Result<(), LoadError>)
        requires
            old(self).wf(),
        ensures
            final(self).wf(),
            buffer@.len() <= MEMORY_SIZE - PROGRAM_START ==> r == Ok::<(), LoadError>(())
                && final(self)@ == (VmState {
                mem: load_program(old(self)@.mem, buffer@),
                ..old(self)@
            }),
            buffer@.len() > MEMORY_SIZE - PROGRAM_START ==> r == Err::<(), LoadError>(
                LoadError::TooLarge,
            ) && final(self)@ == old(self)@,
    {
        if buffer.len() > MEMORY_SIZE - PROGRAM_START {
            return Err(LoadError::TooLarge);
        }
        let mut i: usize = 0;
        while i < buffer.len()
            invariant
                old(self).wf(),
                i <= buffer@.len(),
                buffer@.len() <= MEMORY_SIZE - PROGRAM_START,
                self@ == (VmState { mem: self.memory@, ..old(self)@ }),
                self.memory@.len() == MEMORY_SIZE,
                forall|p: int|
                    PROGRAM_START <= p < PROGRAM_START + i ==> self.memory@[p] == buffer@[p
                        - PROGRAM_START],
                forall|p: int|
                    0 <= p < MEMORY_SIZE && !(PROGRAM_START <= p < PROGRAM_START + i)
                        ==> self.memory@[p] == old(self)@.mem[p],
            decreases buffer@.len() - i,
        {
            self.memory[PROGRAM_START + i] = buffer[i];
            i += 1;
        }
        proof {
            assert(self.memory@ =~= load_program(old(self)@.mem, buffer@));
            assert(self@ =~= (VmState { mem: load_program(old(self)@.mem, buffer@), ..old(self)@ }));
        }
        Ok(())
    }

    /// Execute one decoded instruction: mutate the state as `exec_op` says
    /// and hand back the program-counter request. `keys` is the current
    /// key-down state, `rnd` the byte the random source supplied.
    #[verifier::rlimit(60)]
    fn handle_opcode(&mut self, opcode: u16, keys: &[bool; KEYPAD_SIZE], rnd: u8) -> (step:
        ProgramCounterStep)
        requires
            old(self).wf(),
            old(self)@.pc + 1 < MEMORY_SIZE,
        ensures
            final(self)@ == exec_op(old(self)@, opcode, keys@, rnd).state,
            step == exec_op(old(self)@, opcode, keys@, rnd).step,
    {
        let first = (opcode & 0xF000) >> 12u16;
        let second = (opcode & 0x0F00) >> 8u16;
        let third = (opcode & 0x00F0) >> 4u16;
        let fourth = opcode & 0x000F;

        let nnn = (opcode & 0x0FFF) as usize;
        let kk = (opcode & 0x00FF) as u8;
        let x = second as usize;
        let y = third as usize;
        proof {
            assert(((opcode & 0x0F00) >> 8u16) < 16 && ((opcode & 0x00F0) >> 4u16) < 16 && (opcode
                & 0x000F) < 16 && (opcode & 0x0FFF) < 4096) by (bit_vector);
        }

        match (first, second, third, fourth) {
            (0x0, 0x0, 0xE, 0x0) => {
                clear_gfx(&mut self.gfx);
                self.draw_flag = true;
                proof {
                    assert(self@ =~= exec_op(old(self)@, opcode, keys@, rnd).state);
                }
                ProgramCounterStep::Next
            }
            (0x0, 0x0, 0xE, 0xE) => {
                if self.stack.len() == 0 {
                    self.fault = Some(Fault::StackUnderflow);
                    ProgramCounterStep::Noop
                } else {
                    let pos = self.stack.pop().unwrap();
                    proof {
                        assert(self.stack@ =~= old(self)@.stack.drop_last());
                        assert(self@ =~= exec_op(old(self)@, opcode, keys@, rnd).state);
                    }
                    ProgramCounterStep::Jump(pos)
                }
            }
            (0x1, _, _, _) => ProgramCounterStep::Jump(nnn),
            (0x2, _, _, _) => {
                if self.stack.len() >= STACK_CAPACITY {
                    self.fault = Some(Fault::StackOverflow);
                    ProgramCounterStep::Noop
                } else {
                    self.stack.push(self.pc + 2);
                    ProgramCounterStep::Jump(nnn)
                }
            }
            (0x3, _, _, _) => {
                if self.registers[x] == kk {
                    ProgramCounterStep::Skip
                } else {
                    ProgramCounterStep::Next
                }
            }
            (0x4, _, _, _) => {
                if self.registers[x] != kk {
                    ProgramCounterStep::Skip
                } else {
                    ProgramCounterStep::Next
                }
            }
            (0x5, _, _, 0x0) => {
                if self.registers[x] == self.registers[y] {
                    ProgramCounterStep::Skip
                } else {
                    ProgramCounterStep::Next
                }
            }
            (0x6, _, _, _) => {
                self.registers[x] = kk;
                ProgramCounterStep::Next
            }
            (0x7, _, _, _) => {
                let sum: u16 = self.registers[x] as u16 + kk as u16;
                self.registers[x] = (sum % 256) as u8;
                ProgramCounterStep::Next
            }
            (0x8, _, _, 0x0) => {
                self.registers[x] = self.registers[y];
                ProgramCounterStep::Next
            }
            (0x8, _, _, 0x1) => {
                let v = self.registers[x] | self.registers[y];
                self.registers[x] = v;
                ProgramCounterStep::Next
            }
            (0x8, _, _, 0x2) => {
                let v = self.registers[x] & self.registers[y];
                self.registers[x] = v;
                ProgramCounterStep::Next
            }
            (0x8, _, _, 0x3) => {
                let v = self.registers[x] ^ self.registers[y];
                self.registers[x] = v;
                ProgramCounterStep::Next
            }
            (0x8, _, _, 0x4) => {
                let a = self.registers[x];
                let b = self.registers[y];
                let sum: u16 = a as u16 + b as u16;
                self.registers[15] = if sum > 255 {
                    1
                } else {
                    0
                };
                self.registers[x] = (sum % 256) as u8;
                ProgramCounterStep::Next
            }
            (0x8, _, _, 0x5) => {
                let a = self.registers[x];
                let b = self.registers[y];
                self.registers[15] = if a > b {
                    1
                } else {
                    0
                };
                self.registers[x] = a.wrapping_sub(b);
                ProgramCounterStep::Next
            }
            (0x8, _, _, 0x6) => {
                let a = self.registers[x];
                self.registers[15] = a & 1;
                self.registers[x] = a >> 1u8;
                ProgramCounterStep::Next
            }
            (0x8, _, _, 0x7) => {
                let a = self.registers[x];
                let b = self.registers[y];
                self.registers[15] = if b > a {
                    1
                } else {
                    0
                };
                self.registers[x] = b.wrapping_sub(a);
                ProgramCounterStep::Next
            }
            (0x8, _, _, 0xE) => {
                let a = self.registers[x];
                self.registers[15] = (a & 0x80) >> 7u8;
                self.registers[x] = a << 1u8;
                ProgramCounterStep::Next
            }
            (0x9, _, _, 0x0) => {
                if self.registers[x] != self.registers[y] {
                    ProgramCounterStep::Skip
                } else {
                    ProgramCounterStep::Next
                }
            }
            (0xA, _, _, _) => {
                self.i_register = nnn;
                ProgramCounterStep::Next
            }
            (0xB, _, _, _) => ProgramCounterStep::Jump(nnn + self.registers[0] as usize),
            (0xC, _, _, _) => {
                self.registers[x] = rnd & kk;
                ProgramCounterStep::Next
            }
            (0xD, _, _, _) => {
                let h = fourth as usize;
                if self.i_register + h > MEMORY_SIZE {
                    self.fault = Some(Fault::MemoryOutOfBounds);
                    ProgramCounterStep::Noop
                } else {
                    let vx = self.registers[x];
                    let vy = self.registers[y];
                    let coll = draw_sprite(
                        &mut self.gfx,
                        &self.memory,
                        self.i_register,
                        vx,
                        vy,
                        h,
                    );
                    self.registers[15] = if coll {
                        1
                    } else {
                        0
                    };
                    self.draw_flag = true;
                    proof {
                        assert(self@ =~= exec_op(old(self)@, opcode, keys@, rnd).state);
                    }
                    ProgramCounterStep::Next
                }
            }
            (0xE, _, 0x9, 0xE) => {
                let k = self.registers[x];
                if k >= 16 {
                    self.fault = Some(Fault::KeyOutOfRange);
                    ProgramCounterStep::Noop
                } else {
                    if keys[k as usize] {
                        ProgramCounterStep::Skip
                    } else {
                        ProgramCounterStep::Next
                    }
                }
            }
            (0xE, _, 0xA, 0x1) => {
                let k = self.registers[x];
                if k >= 16 {
                    self.fault = Some(Fault::KeyOutOfRange);
                    ProgramCounterStep::Noop
                } else {
                    if !keys[k as usize] {
                        ProgramCounterStep::Skip
                    } else {
                        ProgramCounterStep::Next
                    }
                }
            }
            (0xF, _, 0x0, 0x7) => {
                self.registers[x] = self.delay_timer;
                ProgramCounterStep::Next
            }
            (0xF, _, 0x0, 0xA) => {
                if self.key_waiting {
                    let d = first_key_change(keys, &self.key_copy);
                    if d < KEYPAD_SIZE {
                        self.registers[x] = d as u8;
                        self.key_waiting = false;
                        ProgramCounterStep::Next
                    } else {
                        ProgramCounterStep::Noop
                    }
                } else {
                    self.key_copy = copy_keys(keys);
                    self.key_waiting = true;
                    ProgramCounterStep::Noop
                }
            }
            (0xF, _, 0x1, 0x5) => {
                self.delay_timer = self.registers[x];
                ProgramCounterStep::Next
            }
            (0xF, _, 0x1, 0x8) => {
                self.sound_timer = self.registers[x];
                ProgramCounterStep::Next
            }
            (0xF, _, 0x1, 0xE) => {
                let add = self.registers[x] as usize;
                if self.i_register + add >= MEMORY_SIZE {
                    self.fault = Some(Fault::MemoryOutOfBounds);
                    ProgramCounterStep::Noop
                } else {
                    self.i_register = self.i_register + add;
                    ProgramCounterStep::Next
                }
            }
            (0xF, _, 0x2, 0x9) => {
                self.i_register = self.registers[x] as usize * GLYPH_HEIGHT;
                ProgramCounterStep::Next
            }
            (0xF, _, 0x3, 0x3) => {
                if self.i_register + 2 >= MEMORY_SIZE {
                    self.fault = Some(Fault::MemoryOutOfBounds);
                    ProgramCounterStep::Noop
                } else {
                    let val = self.registers[x];
                    self.memory[self.i_register] = val / 100;
                    self.memory[self.i_register + 1] = (val / 10) % 10;
                    self.memory[self.i_register + 2] = (val % 100) % 10;
                    ProgramCounterStep::Next
                }
            }
            (0xF, _, 0x5, 0x5) => {
                if self.i_register + x >= MEMORY_SIZE {
                    self.fault = Some(Fault::MemoryOutOfBounds);
                    ProgramCounterStep::Noop
                } else {
                    store_registers(&mut self.memory, &self.registers, self.i_register, x);
                    proof {
                        assert(self@ =~= exec_op(old(self)@, opcode, keys@, rnd).state);
                    }
                    ProgramCounterStep::Next
                }
            }
            (0xF, _, 0x6, 0x5) => {
                if self.i_register + x >= MEMORY_SIZE {
                    self.fault = Some(Fault::MemoryOutOfBounds);
                    ProgramCounterStep::Noop
                } else {
                    load_registers(&mut self.registers, &self.memory, self.i_register, x);
                    proof {
                        assert(self@ =~= exec_op(old(self)@, opcode, keys@, rnd).state);
                    }
                    ProgramCounterStep::Next
                }
            }
            _ => ProgramCounterStep::Next,
        }
    }

    /// One cycle with the random byte handed in, so that every caller can
    /// reason about the exact transition: clear the per-cycle flags, fetch,
    /// execute, move the program counter, tick the timers. A halted machine
    /// is left untouched.
    pub fn step_with(&mut self, keys: &[bool; KEYPAD_SIZE], rnd: u8)
        requires
            old(self).wf(),
        ensures
            final(self).wf(),
            final(self)@ == step_spec(old(self)@, keys@, rnd),
    {
        proof {
            lemma_step_wf(old(self)@, keys@, rnd);
        }
        if self.fault.is_some() {
            return;
        }
        self.beep = false;
        self.draw_flag = false;
        let step = if self.pc + 1 < MEMORY_SIZE {
            let hi = self.memory[self.pc];
            let lo = self.memory[self.pc + 1];
            let opcode: u16 = ((hi as u16) << 8u16) | (lo as u16);
            self.handle_opcode(opcode, keys, rnd)
        } else {
            self.fault = Some(Fault::ProgramCounterOutOfBounds);
            ProgramCounterStep::Noop
        };
        self.pc = handle_programcounter(self.pc, step);
        if self.delay_timer > 0 {
            self.delay_timer -= 1;
        }
        if self.sound_timer > 0 {
            self.sound_timer -= 1;
        }
        if self.sound_timer > 0 {
            self.beep = true;
        }
        proof {
            assert(self@ =~= step_spec(old(self)@, keys@, rnd));
        }
    }

    /// One cycle as the host loop drives it: draw a fresh random byte for
    /// the random-masked load and take one `step_with`. Whatever the byte
    /// was, the machine follows `step_spec` for it.
    pub fn emulate_cycle(&mut self, keys: &[bool; KEYPAD_SIZE])
        requires
            old(self).wf(),
        ensures
            final(self).wf(),
            exists|b: u8| final(self)@ == step_spec(old(self)@, keys@, b),
    {
        let rnd = random_byte();
        self.step_with(keys, rnd);
        proof {
            assert(self@ == step_spec(old(self)@, keys@, rnd));
        }
    }

    /// Read one general-purpose register.
    pub fn register(&self, i: usize) -> (v: u8)
        requires
            self.wf(),
            i < REGISTER_COUNT,
        ensures
            v == self@.regs[i as int],
    {
        self.registers[i]
    }

    /// Read one byte of memory.
    pub fn memory_at(&self, addr: usize) -> (v: u8)
        requires
            self.wf(),
            addr < MEMORY_SIZE,
        ensures
            v == self@.mem[addr as int],
    {
        self.memory[addr]
    }

    /// The current program counter.
    pub fn program_counter(&self) -> (v: usize)
        ensures
            v == self@.pc,
    {
        self.pc
    }

    /// The current index register.
    pub fn index_register(&self) -> (v: usize)
        ensures
            v == self@.index,
    {
        self.i_register
    }

    /// The current delay timer.
    pub fn get_delay_timer(&self) -> (v: u8)
        ensures
            v == self@.delay,
    {
        self.delay_timer
    }

    /// The current sound timer.
    pub fn get_sound_timer(&self) -> (v: u8)
        ensures
            v == self@.sound,
    {
        self.sound_timer
    }

    /// The fault that halted the machine, if any.
    pub fn get_fault(&self) -> (f: Option<Fault>)
        ensures
            f == self@.fault,
    {
        self.fault
    }

    /// Whether a wait-for-key instruction is holding the machine.
    pub fn is_waiting(&self) -> (b: bool)
        ensures
            b == self@.waiting,
    {
        self.key_waiting
    }

    /// How many subroutine calls are in progress.
    pub fn stack_depth(&self) -> (n: usize)
        ensures
            n == self@.stack.len(),
    {
        self.stack.len()
    }

    /// The pixel at column `x`, row `y`: 0 or 1.
    pub fn pixel(&self, x: usize, y: usize) -> (v: u8)
        requires
            self.wf(),
            x < GFX_WIDTH,
            y < GFX_HEIGHT,
        ensures
            v == self@.gfx[y * GFX_WIDTH + x],
    {
        self.gfx[y * GFX_WIDTH + x]
    }

    /// Decide `wf` at run time, for callers outside the proof: every
    /// library function keeps it, so this only rules out a machine whose
    /// public fields were overwritten by hand.
    pub fn is_well_formed(&self) -> (b: bool)
        ensures
            b == self.wf(),
    {
        if self.memory.len() != MEMORY_SIZE {
            return false;
        }
        if self.registers.len() != REGISTER_COUNT {
            return false;
        }
        if self.gfx.len() != GFX_SIZE {
            return false;
        }
        if self.key_copy.len() != KEYPAD_SIZE {
            return false;
        }
        if self.stack.len() > STACK_CAPACITY {
            return false;
        }
        if self.i_register >= MEMORY_SIZE {
            return false;
        }
        if self.pc >= MEMORY_SIZE + 256 {
            return false;
        }
        let mut p: usize = 0;
        while p < GFX_SIZE
            invariant
                p <= GFX_SIZE,
                self.gfx@.len() == GFX_SIZE,
                forall|q: int| 0 <= q < p ==> self.gfx@[q] == 0 || self.gfx@[q] == 1,
            decreases GFX_SIZE - p,
        {
            if self.gfx[p] > 1 {
                return false;
            }
            p += 1;
        }
        let mut k: usize = 0;
        while k < self.stack.len()
            invariant
                k <= self.stack@.len(),
                self.stack@.len() <= STACK_CAPACITY,
                forall|q: int| 0 <= q < k ==> self.stack@[q] <= MEMORY_SIZE,
            decreases self.stack@.len() - k,
        {
            if self.stack[k] > MEMORY_SIZE {
                return false;
            }
            k += 1;
        }
        true
    }
}

/// Relies on `rand::thread_rng` and `rand::Rng::gen`: an unpredictable
/// uniformly distributed byte. Nothing is promised of its value; callers
/// state what holds whatever byte comes back.
#[verifier::external_body]
fn random_byte() -> u8 {
    rand::thread_rng().gen::<u8>()
}

/// Zero every cell of the framebuffer.
fn clear_gfx(gfx: &mut Vec<u8>)
    requires
        old(gfx)@.len() == GFX_SIZE,
    ensures
        final(gfx)@ == Seq::new(GFX_SIZE as nat, |p: int| 0u8),
{
    let mut p: usize = 0;
    while p < GFX_SIZE
        invariant
            p <= GFX_SIZE,
            gfx@.len() == GFX_SIZE,
            forall|q: int| 0 <= q < p ==> gfx@[q] == 0,
        decreases GFX_SIZE - p,
    {
        gfx[p] = 0;
        p += 1;
    }
    proof {
        assert(gfx@ =~= Seq::new(GFX_SIZE as nat, |p: int| 0u8));
    }
}

/// Copy the 16 current key states into an owned snapshot.
fn copy_keys(keys: &[bool; KEYPAD_SIZE]) -> (v: Vec<bool>)
    ensures
        v@ == keys@,
{
    let mut v: Vec<bool> = Vec::new();
    let mut k: usize = 0;
    while k < KEYPAD_SIZE
        invariant
            k <= KEYPAD_SIZE,
            v@.len() == k,
            forall|j: int| 0 <= j < k ==> v@[j] == keys@[j],
        decreases KEYPAD_SIZE - k,
    {
        v.push(keys[k]);
        k += 1;
    }
    proof {
        assert(v@ =~= keys@);
    }
    v
}

/// The first key index whose current state differs from its snapshot, or
/// `KEYPAD_SIZE` if none does.
fn first_key_change(keys: &[bool; KEYPAD_SIZE], snap: &Vec<bool>) -> (r: usize)
    requires
        snap@.len() == KEYPAD_SIZE,
    ensures
        r == first_key_diff(keys@, snap@, 0),
{
    let mut k: usize = 0;
    while k < KEYPAD_SIZE
        invariant
            k <= KEYPAD_SIZE,
            snap@.len() == KEYPAD_SIZE,
            first_key_diff(keys@, snap@, 0) == first_key_diff(keys@, snap@, k as int),
        decreases KEYPAD_SIZE - k,
    {
        if keys[k] != snap[k] {
            return k;
        }
        k += 1;
    }
    KEYPAD_SIZE
}

/// Write registers 0 through `x` into memory from address `i` on.
fn store_registers(mem: &mut Vec<u8>, regs: &Vec<u8>, i: usize, x: usize)
    requires
        old(mem)@.len() == MEMORY_SIZE,
        regs@.len() == REGISTER_COUNT,
        x < REGISTER_COUNT,
        i + x < MEMORY_SIZE,
    ensures
        final(mem)@ == Seq::new(
            MEMORY_SIZE as nat,
            |p: int|
                if i <= p <= i + x {
                    regs@[p - i]
                } else {
                    old(mem)@[p]
                },
        ),
{
    let mut j: usize = 0;
    while j <= x
        invariant
            j <= x + 1,
            x < REGISTER_COUNT,
            i + x < MEMORY_SIZE,
            mem@.len() == MEMORY_SIZE,
            regs@.len() == REGISTER_COUNT,
            forall|p: int| i <= p < i + j ==> mem@[p] == regs@[p - i],
            forall|p: int|
                0 <= p < MEMORY_SIZE && !(i <= p < i + j) ==> mem@[p] == old(mem)@[p],
        decreases x + 1 - j,
    {
        mem[i + j] = regs[j];
        j += 1;
    }
    proof {
        assert(mem@ =~= Seq::new(
            MEMORY_SIZE as nat,
            |p: int|
                if i <= p <= i + x {
                    regs@[p - i]
                } else {
                    old(mem)@[p]
                },
        ));
    }
}

/// Fill registers 0 through `x` from memory at address `i` on.
fn load_registers(regs: &mut Vec<u8>, mem: &Vec<u8>, i: usize, x: usize)
    requires
        mem@.len() == MEMORY_SIZE,
        old(regs)@.len() == REGISTER_COUNT,
        x < REGISTER_COUNT,
        i + x < MEMORY_SIZE,
    ensures
        final(regs)@ == Seq::new(
            REGISTER_COUNT as nat,
            |j: int|
                if j <= x {
                    mem@[i + j]
                } else {
                    old(regs)@[j]
                },
        ),
{
    let mut j: usize = 0;
    while j <= x
        invariant
            j <= x + 1,
            x < REGISTER_COUNT,
            i + x < MEMORY_SIZE,
            mem@.len() == MEMORY_SIZE,
            regs@.len() == REGISTER_COUNT,
            forall|q: int| 0 <= q < j ==> regs@[q] == mem@[i + q],
            forall|q: int| j <= q < REGISTER_COUNT ==> regs@[q] == old(regs)@[q],
        decreases x + 1 - j,
    {
        regs[j] = mem[i + j];
        j += 1;
    }
    proof {
        assert(regs@ =~= Seq::new(
            REGISTER_COUNT as nat,
            |j: int|
                if j <= x {
                    mem@[i + j]
                } else {
                    old(regs)@[j]
                },
        ));
    }
}

/// XOR a sprite of `h` rows, read from memory at address `i`, onto the
/// framebuffer at `(vx, vy)`, and report whether any set pixel was cleared.
fn draw_sprite(gfx: &mut Vec<u8>, mem: &Vec<u8>, i: usize, vx: u8, vy: u8, h: usize) -> (coll:
    bool)
    requires
        old(gfx)@.len() == GFX_SIZE,
        cells01(old(gfx)@),
        mem@.len() == MEMORY_SIZE,
        h < 16,
        i + h <= MEMORY_SIZE,
    ensures
        final(gfx)@ == gfx_after_draw(old(gfx)@, mem@, i as int, vx, vy, h as int),
        coll == draw_collides(old(gfx)@, mem@, i as int, vx, vy, h as int),
        cells01(final(gfx)@),
{
    let ghost g0 = gfx@;
    let ghost ii = i as int;
    let mut coll = false;
    let mut r: usize = 0;
    while r < h
        invariant
            r <= h,
            h < 16,
            i + h <= MEMORY_SIZE,
            ii == i as int,
            gfx@.len() == GFX_SIZE,
            mem@.len() == MEMORY_SIZE,
            g0.len() == GFX_SIZE,
            cells01(g0),
            forall|p: int|
                0 <= p < GFX_SIZE ==> gfx@[p] == (if draw_hits_partial(
                    mem@,
                    ii,
                    vx,
                    vy,
                    r as int,
                    0,
                    p,
                ) {
                    flip(g0[p])
                } else {
                    g0[p]
                }),
            coll == draw_collides_partial(g0, mem@, ii, vx, vy, r as int, 0),
        decreases h - r,
    {
        let py: usize = (vy as usize + r) % GFX_HEIGHT;
        let mut c: usize = 0;
        while c < 8
            invariant
                c <= 8,
                r < h,
                h < 16,
                i + h <= MEMORY_SIZE,
                ii == i as int,
                py as int == (vy + r as int) % (GFX_HEIGHT as int),
                py < GFX_HEIGHT,
                gfx@.len() == GFX_SIZE,
                mem@.len() == MEMORY_SIZE,
                g0.len() == GFX_SIZE,
                cells01(g0),
                forall|p: int|
                    0 <= p < GFX_SIZE ==> gfx@[p] == (if draw_hits_partial(
                        mem@,
                        ii,
                        vx,
                        vy,
                        r as int,
                        c as int,
                        p,
                    ) {
                        flip(g0[p])
                    } else {
                        g0[p]
                    }),
                coll == draw_collides_partial(g0, mem@, ii, vx, vy, r as int, c as int),
            decreases 8 - c,
        {
            let ghost rr0 = r as int;
            let ghost cc0 = c as int;
            let px: usize = (vx as usize + c) % GFX_WIDTH;
            let sh: u8 = (7 - c) as u8;
            let byte: u8 = mem[i + r];
            let bit: u8 = (byte >> sh) & 1;
            let idx: usize = py * GFX_WIDTH + px;
            proof {
                lemma_pix_bounds(vx, vy, rr0, cc0);
                assert(idx == pix(vx, vy, rr0, cc0));
                assert(bit == sprite_bit(mem@, ii, rr0, cc0));
                assert(((byte >> sh) & 1u8) == 0 || ((byte >> sh) & 1u8) == 1) by (bit_vector);
            }
            let g = gfx[idx];
            proof {
                assert(!draw_hits_partial(mem@, ii, vx, vy, rr0, cc0, idx as int)) by {
                    if draw_hits_partial(mem@, ii, vx, vy, rr0, cc0, idx as int) {
                        let (ra, ca) = choose|ra: int, ca: int|
                            0 <= ra && 0 <= ca < 8 && (ra < rr0 || (ra == rr0 && ca < cc0))
                                && #[trigger] pix(vx, vy, ra, ca) == idx as int && sprite_bit(
                                mem@,
                                ii,
                                ra,
                                ca,
                            ) == 1;
                        lemma_pix_injective(vx, vy, ra, ca, rr0, cc0);
                        assert(false);
                    }
                };
                assert(g == g0[idx as int]);
                assert(g == 0 || g == 1);
            }
            if bit & g == 1 {
                coll = true;
            }
            gfx[idx] = g ^ bit;
            proof {
                assert((g ^ 1u8) == (if g == 0 {
                    1u8
                } else {
                    0u8
                })) by (bit_vector)
                    requires
                        g == 0 || g == 1,
                ;
                assert((g ^ 0u8) == g) by (bit_vector);
                assert(((bit & g) == 1) == (bit == 1 && g == 1)) by (bit_vector)
                    requires
                        bit == 0 || bit == 1,
                        g == 0 || g == 1,
                ;
                assert forall|p: int| 0 <= p < GFX_SIZE implies gfx@[p] == (if draw_hits_partial(
                    mem@,
                    ii,
                    vx,
                    vy,
                    rr0,
                    cc0 + 1,
                    p,
                ) {
                    flip(g0[p])
                } else {
                    g0[p]
                }) by {
                    if p == idx as int {
                        if bit == 1 {
                            assert(pix(vx, vy, rr0, cc0) == p && sprite_bit(mem@, ii, rr0, cc0)
                                == 1);
                            assert(draw_hits_partial(mem@, ii, vx, vy, rr0, cc0 + 1, p));
                            assert(gfx@[p] == flip(g0[p]));
                        } else {
                            assert(!draw_hits_partial(mem@, ii, vx, vy, rr0, cc0 + 1, p)) by {
                                if draw_hits_partial(mem@, ii, vx, vy, rr0, cc0 + 1, p) {
                                    let (ra, ca) = choose|ra: int, ca: int|
                                        0 <= ra && 0 <= ca < 8 && (ra < rr0 || (ra == rr0 && ca
                                            < cc0 + 1)) && #[trigger] pix(vx, vy, ra, ca) == p
                                            && sprite_bit(mem@, ii, ra, ca) == 1;
                                    if ra == rr0 && ca == cc0 {
                                        assert(false);
                                    } else {
                                        assert(ra < rr0 || (ra == rr0 && ca < cc0));
                                        assert(draw_hits_partial(mem@, ii, vx, vy, rr0, cc0, p));
                                        assert(false);
                                    }
                                }
                            };
                            assert(gfx@[p] == g0[p]);
                        }
                    } else {
                        assert(gfx@[p] == (if draw_hits_partial(mem@, ii, vx, vy, rr0, cc0, p) {
                            flip(g0[p])
                        } else {
                            g0[p]
                        }));
                        assert(draw_hits_partial(mem@, ii, vx, vy, rr0, cc0 + 1, p)
                            == draw_hits_partial(mem@, ii, vx, vy, rr0, cc0, p)) by {
                            if draw_hits_partial(mem@, ii, vx, vy, rr0, cc0 + 1, p)
                                && !draw_hits_partial(mem@, ii, vx, vy, rr0, cc0, p) {
                                let (ra, ca) = choose|ra: int, ca: int|
                                    0 <= ra && 0 <= ca < 8 && (ra < rr0 || (ra == rr0 && ca < cc0
                                        + 1)) && #[trigger] pix(vx, vy, ra, ca) == p
                                        && sprite_bit(mem@, ii, ra, ca) == 1;
                                assert(ra == rr0 && ca == cc0);
                                assert(false);
                            }
                            if draw_hits_partial(mem@, ii, vx, vy, rr0, cc0, p) {
                                let (ra, ca) = choose|ra: int, ca: int|
                                    0 <= ra && 0 <= ca < 8 && (ra < rr0 || (ra == rr0 && ca
                                        < cc0)) && #[trigger] pix(vx, vy, ra, ca) == p
                                        && sprite_bit(mem@, ii, ra, ca) == 1;
                                assert(draw_hits_partial(mem@, ii, vx, vy, rr0, cc0 + 1, p));
                            }
                        };
                    }
                };
                assert(draw_collides_partial(g0, mem@, ii, vx, vy, rr0, cc0 + 1) == (
                draw_collides_partial(g0, mem@, ii, vx, vy, rr0, cc0) || (bit == 1 && g0[idx as int]
                    == 1))) by {
                    if draw_collides_partial(g0, mem@, ii, vx, vy, rr0, cc0 + 1) {
                        let (ra, ca) = choose|ra: int, ca: int|
                            0 <= ra && 0 <= ca < 8 && (ra < rr0 || (ra == rr0 && ca < cc0 + 1))
                                && sprite_bit(mem@, ii, ra, ca) == 1 && g0[#[trigger] pix(
                                vx,
                                vy,
                                ra,
                                ca,
                            )] == 1;
                        if ra == rr0 && ca == cc0 {
                            assert(bit == 1 && g0[idx as int] == 1);
                        } else {
                            assert(ra < rr0 || (ra == rr0 && ca < cc0));
                            assert(draw_collides_partial(g0, mem@, ii, vx, vy, rr0, cc0));
                        }
                    }
                    if draw_collides_partial(g0, mem@, ii, vx, vy, rr0, cc0) {
                        let (ra, ca) = choose|ra: int, ca: int|
                            0 <= ra && 0 <= ca < 8 && (ra < rr0 || (ra == rr0 && ca < cc0))
                                && sprite_bit(mem@, ii, ra, ca) == 1 && g0[#[trigger] pix(
                                vx,
                                vy,
                                ra,
                                ca,
                            )] == 1;
                        assert(draw_collides_partial(g0, mem@, ii, vx, vy, rr0, cc0 + 1));
                    }
                    if bit == 1 && g0[idx as int] == 1 {
                        assert(pix(vx, vy, rr0, cc0) == idx as int && sprite_bit(mem@, ii, rr0, cc0)
                            == 1);
                        assert(draw_collides_partial(g0, mem@, ii, vx, vy, rr0, cc0 + 1));
                    }
                };
            }
            c += 1;
        }
        proof {
            assert forall|p: int| 0 <= p < GFX_SIZE implies draw_hits_partial(
                mem@,
                ii,
                vx,
                vy,
                r as int,
                8,
                p,
            ) == draw_hits_partial(mem@, ii, vx, vy, r as int + 1, 0, p) by {
                if draw_hits_partial(mem@, ii, vx, vy, r as int, 8, p) {
                    let (ra, ca) = choose|ra: int, ca: int|
                        0 <= ra && 0 <= ca < 8 && (ra < r as int || (ra == r as int && ca < 8))
                            && #[trigger] pix(vx, vy, ra, ca) == p && sprite_bit(mem@, ii, ra, ca)
                            == 1;
                    assert(ra < r as int + 1);
                    assert(draw_hits_partial(mem@, ii, vx, vy, r as int + 1, 0, p));
                }
                if draw_hits_partial(mem@, ii, vx, vy, r as int + 1, 0, p) {
                    let (ra, ca) = choose|ra: int, ca: int|
                        0 <= ra && 0 <= ca < 8 && ra < r as int + 1 && #[trigger] pix(
                            vx,
                            vy,
                            ra,
                            ca,
                        ) == p && sprite_bit(mem@, ii, ra, ca) == 1;
                    assert(ra < r as int || (ra == r as int && ca < 8));
                    assert(draw_hits_partial(mem@, ii, vx, vy, r as int, 8, p));
                }
            };
            assert(draw_collides_partial(g0, mem@, ii, vx, vy, r as int, 8) == draw_collides_partial(
                g0,
                mem@,
                ii,
                vx,
                vy,
                r as int + 1,
                0,
            )) by {
                if draw_collides_partial(g0, mem@, ii, vx, vy, r as int, 8) {
                    let (ra, ca) = choose|ra: int, ca: int|
                        0 <= ra && 0 <= ca < 8 && (ra < r as int || (ra == r as int && ca < 8))
                            && sprite_bit(mem@, ii, ra, ca) == 1 && g0[#[trigger] pix(
                            vx,
                            vy,
                            ra,
                            ca,
                        )] == 1;
                    assert(ra < r as int + 1);
                    assert(draw_collides_partial(g0, mem@, ii, vx, vy, r as int + 1, 0));
                }
                if draw_collides_partial(g0, mem@, ii, vx, vy, r as int + 1, 0) {
                    let (ra, ca) = choose|ra: int, ca: int|
                        0 <= ra && 0 <= ca < 8 && ra < r as int + 1 && sprite_bit(mem@, ii, ra, ca)
                            == 1 && g0[#[trigger] pix(vx, vy, ra, ca)] == 1;
                    assert(ra < r as int || (ra == r as int && ca < 8));
                    assert(draw_collides_partial(g0, mem@, ii, vx, vy, r as int, 8));
                }
            };
        }
        r += 1;
    }
    proof {
        assert(gfx@ =~= gfx_after_draw(g0, mem@, ii, vx, vy, h as int));
        assert forall|p: int| 0 <= p < GFX_SIZE implies gfx@[p] == 0 || gfx@[p] == 1 by {
            assert(gfx@[p] == (if draw_hits_partial(mem@, ii, vx, vy, h as int, 0, p) {
                flip(g0[p])
            } else {
                g0[p]
            }));
        };
    }
    coll
}

/// The program counter after a cycle, given what the executed instruction
/// asked for.
pub fn handle_programcounter(curr_pc: usize, step: ProgramCounterStep) -> (new_pc: usize)
    requires
        curr_pc + 4 <= usize::MAX,
    ensures
        new_pc == pc_after(curr_pc, step),
{
    match step {
        ProgramCounterStep::Next => curr_pc + 2,
        ProgramCounterStep::Skip => curr_pc + 4,
        ProgramCounterStep::Noop => curr_pc,
        ProgramCounterStep::Jump(pos) => pos,
    }
}

} // verus!
