use chip8::cpu::{handle_programcounter, Chip8};
use chip8::model::{Fault, LoadError, ProgramCounterStep};

const NO_KEYS: [bool; 16] = [false; 16];

fn load(program: Vec<u8>) -> Chip8 {
    let mut vm = Chip8::new();
    assert!(vm.initialize(program).is_ok());
    vm
}

#[test]
fn programcounter_works() {
    assert!(handle_programcounter(0, ProgramCounterStep::Next) == 2);
    assert!(handle_programcounter(0, ProgramCounterStep::Skip) == 4);
    assert!(handle_programcounter(0, ProgramCounterStep::Jump(16)) == 16);
    assert!(handle_programcounter(0, ProgramCounterStep::Noop) == 0);
}

#[test]
fn new_machine_state() {
    let vm = Chip8::new();
    assert!(vm.is_well_formed());
    assert_eq!(vm.program_counter(), 0x200);
    assert_eq!(vm.index_register(), 0);
    assert_eq!(vm.stack_depth(), 0);
    assert_eq!(vm.memory_at(0), 0xF0); // first glyph row
    assert_eq!(vm.memory_at(79), 0x80); // last glyph row
    assert_eq!(vm.memory_at(80), 0);
    for i in 0..16 {
        assert_eq!(vm.register(i), 0);
    }
    for y in 0..32 {
        for x in 0..64 {
            assert_eq!(vm.pixel(x, y), 0);
        }
    }
}

#[test]
fn load_program_places_bytes() {
    let vm = load(vec![0xAB, 0xCD]);
    assert_eq!(vm.memory_at(0x200), 0xAB);
    assert_eq!(vm.memory_at(0x201), 0xCD);
    assert_eq!(vm.memory_at(0x202), 0);
}

#[test]
fn load_too_large_is_refused() {
    let mut vm = Chip8::new();
    let r = vm.initialize(vec![0x11; 4096 - 512 + 1]);
    assert_eq!(r, Err(LoadError::TooLarge));
    assert_eq!(vm.memory_at(0x200), 0); // untouched
    let r2 = vm.initialize(vec![0x11; 4096 - 512]);
    assert_eq!(r2, Ok(()));
    assert_eq!(vm.memory_at(4095), 0x11);
}

#[test]
fn end_to_end_add_and_bcd() {
    // set r0 = 5; set r1 = 10; r0 += r1; store BCD of r0 at I.
    let mut vm = load(vec![0x60, 0x05, 0x61, 0x0A, 0x80, 0x14, 0xF0, 0x33]);
    for _ in 0..3 {
        vm.emulate_cycle(&NO_KEYS);
    }
    assert_eq!(vm.register(0), 15);
    assert_eq!(vm.register(15), 0);
    vm.emulate_cycle(&NO_KEYS);
    let i = vm.index_register();
    assert_eq!(vm.memory_at(i), 0);
    assert_eq!(vm.memory_at(i + 1), 1);
    assert_eq!(vm.memory_at(i + 2), 5);
}

#[test]
fn end_to_end_clear_screen_only() {
    let mut vm = load(vec![0x00, 0xE0]);
    vm.emulate_cycle(&NO_KEYS);
    assert!(vm.draw_flag);
    for y in 0..32 {
        for x in 0..64 {
            assert_eq!(vm.pixel(x, y), 0);
        }
    }
    assert_eq!(vm.program_counter(), 0x202);
    vm.emulate_cycle(&NO_KEYS); // unrecognized 0x0000: no-op advance
    assert!(!vm.draw_flag);
    assert_eq!(vm.program_counter(), 0x204);
}

#[test]
fn add_register_carry_flag() {
    // 200 + 100 overflows: result 44, flag 1.
    let mut vm = load(vec![0x60, 0xC8, 0x61, 0x64, 0x80, 0x14]);
    for _ in 0..3 {
        vm.emulate_cycle(&NO_KEYS);
    }
    assert_eq!(vm.register(0), 44);
    assert_eq!(vm.register(15), 1);
}

#[test]
fn add_immediate_leaves_flags_alone() {
    // r15 = 7; r0 = 255; r0 += 1 wraps to 0 and must not touch r15.
    let mut vm = load(vec![0x6F, 0x07, 0x60, 0xFF, 0x70, 0x01]);
    for _ in 0..3 {
        vm.emulate_cycle(&NO_KEYS);
    }
    assert_eq!(vm.register(0), 0);
    assert_eq!(vm.register(15), 7);
}

#[test]
fn shift_right_flag_is_low_bit() {
    let mut vm = load(vec![0x60, 0x05, 0x80, 0x06, 0x61, 0x04, 0x81, 0x16]);
    vm.emulate_cycle(&NO_KEYS);
    vm.emulate_cycle(&NO_KEYS);
    assert_eq!(vm.register(0), 2);
    assert_eq!(vm.register(15), 1);
    vm.emulate_cycle(&NO_KEYS);
    vm.emulate_cycle(&NO_KEYS);
    assert_eq!(vm.register(1), 2);
    assert_eq!(vm.register(15), 0);
}

#[test]
fn shift_left_flag_is_high_bit() {
    let mut vm = load(vec![0x60, 0x81, 0x80, 0x0E]);
    vm.emulate_cycle(&NO_KEYS);
    vm.emulate_cycle(&NO_KEYS);
    assert_eq!(vm.register(0), 0x02);
    assert_eq!(vm.register(15), 1);
}

#[test]
fn subtract_flags_and_wrap() {
    // r0 = 10, r1 = 3: r0 -= r1 gives 7, no borrow, flag 1.
    let mut vm = load(vec![0x60, 0x0A, 0x61, 0x03, 0x80, 0x15]);
    for _ in 0..3 {
        vm.emulate_cycle(&NO_KEYS);
    }
    assert_eq!(vm.register(0), 7);
    assert_eq!(vm.register(15), 1);
    // r0 = 3, r1 = 10: r0 -= r1 borrows, wraps to 249, flag 0.
    let mut vm2 = load(vec![0x60, 0x03, 0x61, 0x0A, 0x80, 0x15]);
    for _ in 0..3 {
        vm2.emulate_cycle(&NO_KEYS);
    }
    assert_eq!(vm2.register(0), 249);
    assert_eq!(vm2.register(15), 0);
}

#[test]
fn subtract_reverse() {
    // r0 = 3, r1 = 10: r0 = r1 - r0 = 7, flag 1 (y > x).
    let mut vm = load(vec![0x60, 0x03, 0x61, 0x0A, 0x80, 0x17]);
    for _ in 0..3 {
        vm.emulate_cycle(&NO_KEYS);
    }
    assert_eq!(vm.register(0), 7);
    assert_eq!(vm.register(15), 1);
}

#[test]
fn logic_ops() {
    let mut or_vm = load(vec![0x60, 0x0C, 0x61, 0x0A, 0x80, 0x11]);
    for _ in 0..3 {
        or_vm.emulate_cycle(&NO_KEYS);
    }
    assert_eq!(or_vm.register(0), 0x0E);
    let mut and_vm = load(vec![0x60, 0x0C, 0x61, 0x0A, 0x80, 0x12]);
    for _ in 0..3 {
        and_vm.emulate_cycle(&NO_KEYS);
    }
    assert_eq!(and_vm.register(0), 0x08);
    let mut xor_vm = load(vec![0x60, 0x0C, 0x61, 0x0A, 0x80, 0x13]);
    for _ in 0..3 {
        xor_vm.emulate_cycle(&NO_KEYS);
    }
    assert_eq!(xor_vm.register(0), 0x06);
}

#[test]
fn skip_equal_immediate() {
    let mut taken = load(vec![0x60, 0x05, 0x30, 0x05]);
    taken.emulate_cycle(&NO_KEYS);
    taken.emulate_cycle(&NO_KEYS);
    assert_eq!(taken.program_counter(), 0x206);
    let mut not_taken = load(vec![0x60, 0x04, 0x30, 0x05]);
    not_taken.emulate_cycle(&NO_KEYS);
    not_taken.emulate_cycle(&NO_KEYS);
    assert_eq!(not_taken.program_counter(), 0x204);
}

#[test]
fn skip_not_equal_and_register_compares() {
    let mut vm = load(vec![0x60, 0x04, 0x40, 0x05]);
    vm.emulate_cycle(&NO_KEYS);
    vm.emulate_cycle(&NO_KEYS);
    assert_eq!(vm.program_counter(), 0x206);
    // 5XY0: equal registers skip.
    let mut vm2 = load(vec![0x60, 0x07, 0x61, 0x07, 0x50, 0x10]);
    for _ in 0..3 {
        vm2.emulate_cycle(&NO_KEYS);
    }
    assert_eq!(vm2.program_counter(), 0x208);
    // 9XY0: unequal registers skip.
    let mut vm3 = load(vec![0x60, 0x07, 0x61, 0x08, 0x90, 0x10]);
    for _ in 0..3 {
        vm3.emulate_cycle(&NO_KEYS);
    }
    assert_eq!(vm3.program_counter(), 0x208);
}

#[test]
fn jump_and_jump_with_offset() {
    let mut vm = load(vec![0x12, 0x06]);
    vm.emulate_cycle(&NO_KEYS);
    assert_eq!(vm.program_counter(), 0x206);
    let mut vm2 = load(vec![0x60, 0x10, 0xB2, 0x06]);
    vm2.emulate_cycle(&NO_KEYS);
    vm2.emulate_cycle(&NO_KEYS);
    assert_eq!(vm2.program_counter(), 0x216);
}

#[test]
fn call_and_return() {
    let mut vm = load(vec![0x22, 0x04, 0x00, 0x00, 0x00, 0xEE]);
    vm.emulate_cycle(&NO_KEYS);
    assert_eq!(vm.program_counter(), 0x204);
    assert_eq!(vm.stack_depth(), 1);
    vm.emulate_cycle(&NO_KEYS);
    assert_eq!(vm.program_counter(), 0x202);
    assert_eq!(vm.stack_depth(), 0);
    assert_eq!(vm.get_fault(), None);
}

#[test]
fn return_without_call_halts() {
    let mut vm = load(vec![0x00, 0xEE]);
    vm.emulate_cycle(&NO_KEYS);
    assert_eq!(vm.get_fault(), Some(Fault::StackUnderflow));
    assert_eq!(vm.program_counter(), 0x200);
    vm.emulate_cycle(&NO_KEYS); // halted: nothing changes
    assert_eq!(vm.get_fault(), Some(Fault::StackUnderflow));
    assert_eq!(vm.program_counter(), 0x200);
}

#[test]
fn deep_call_nest_halts() {
    // call 0x200 forever: 16 calls fit, the 17th overflows the stack.
    let mut vm = load(vec![0x22, 0x00]);
    for _ in 0..16 {
        vm.emulate_cycle(&NO_KEYS);
        assert_eq!(vm.get_fault(), None);
    }
    assert_eq!(vm.stack_depth(), 16);
    vm.emulate_cycle(&NO_KEYS);
    assert_eq!(vm.get_fault(), Some(Fault::StackOverflow));
    assert_eq!(vm.stack_depth(), 16);
}

#[test]
fn draw_twice_restores_and_collides() {
    // I = 0 points at the glyph for 0; draw it twice at (0, 0).
    let mut vm = load(vec![0xD0, 0x05, 0xD0, 0x05]);
    vm.emulate_cycle(&NO_KEYS);
    assert!(vm.draw_flag);
    assert_eq!(vm.register(15), 0);
    assert_eq!(vm.pixel(0, 0), 1);
    assert_eq!(vm.pixel(3, 0), 1);
    assert_eq!(vm.pixel(4, 0), 0);
    assert_eq!(vm.pixel(1, 2), 0); // hollow middle of the glyph
    vm.emulate_cycle(&NO_KEYS);
    assert!(vm.draw_flag);
    assert_eq!(vm.register(15), 1);
    for y in 0..32 {
        for x in 0..64 {
            assert_eq!(vm.pixel(x, y), 0);
        }
    }
}

#[test]
fn clear_then_draw_leaves_only_new_pixels() {
    let mut vm = load(vec![0x00, 0xE0, 0xD0, 0x01]);
    vm.emulate_cycle(&NO_KEYS);
    assert!(vm.draw_flag);
    vm.emulate_cycle(&NO_KEYS);
    assert!(vm.draw_flag);
    // One row of the glyph for 0: 0xF0, pixels in columns 0 to 3 of row 0.
    let mut set = Vec::new();
    for y in 0..32 {
        for x in 0..64 {
            if vm.pixel(x, y) == 1 {
                set.push((x, y));
            }
        }
    }
    assert_eq!(set, vec![(0, 0), (1, 0), (2, 0), (3, 0)]);
}

#[test]
fn draw_wraps_around_edges() {
    // r0 = 62, r1 = 31: two rows of the glyph for 0 drawn at the corner.
    let mut vm = load(vec![0x60, 0x3E, 0x61, 0x1F, 0xD0, 0x12]);
    for _ in 0..3 {
        vm.emulate_cycle(&NO_KEYS);
    }
    // row 31 gets 0xF0: columns 62, 63, 0, 1; row 0 gets 0x90: columns 62, 1.
    assert_eq!(vm.pixel(62, 31), 1);
    assert_eq!(vm.pixel(63, 31), 1);
    assert_eq!(vm.pixel(0, 31), 1);
    assert_eq!(vm.pixel(1, 31), 1);
    assert_eq!(vm.pixel(2, 31), 0);
    assert_eq!(vm.pixel(62, 0), 1);
    assert_eq!(vm.pixel(63, 0), 0);
    assert_eq!(vm.pixel(1, 0), 1);
}

#[test]
fn wait_for_key_blocks_then_stores_key() {
    let mut vm = load(vec![0xF3, 0x0A]);
    for _ in 0..5 {
        vm.emulate_cycle(&NO_KEYS);
        assert_eq!(vm.program_counter(), 0x200);
        assert!(vm.is_waiting());
    }
    let mut keys = [false; 16];
    keys[0x0B] = true;
    vm.emulate_cycle(&keys);
    assert_eq!(vm.register(3), 0x0B);
    assert_eq!(vm.program_counter(), 0x202);
    assert!(!vm.is_waiting());
}

#[test]
fn wait_for_key_sees_release_too() {
    // A key already down when the wait begins: releasing it is a change.
    let mut down = [false; 16];
    down[0x02] = true;
    let mut vm = load(vec![0xF0, 0x0A]);
    vm.emulate_cycle(&down);
    assert!(vm.is_waiting());
    vm.emulate_cycle(&down);
    assert!(vm.is_waiting());
    vm.emulate_cycle(&NO_KEYS);
    assert_eq!(vm.register(0), 0x02);
    assert!(!vm.is_waiting());
}

#[test]
fn skip_if_key_pressed_and_not_pressed() {
    let mut keys = [false; 16];
    keys[7] = true;
    let mut vm = load(vec![0x60, 0x07, 0xE0, 0x9E]);
    vm.emulate_cycle(&keys);
    vm.emulate_cycle(&keys);
    assert_eq!(vm.program_counter(), 0x206);
    let mut vm2 = load(vec![0x60, 0x07, 0xE0, 0x9E]);
    vm2.emulate_cycle(&NO_KEYS);
    vm2.emulate_cycle(&NO_KEYS);
    assert_eq!(vm2.program_counter(), 0x204);
    let mut vm3 = load(vec![0x60, 0x07, 0xE0, 0xA1]);
    vm3.emulate_cycle(&NO_KEYS);
    vm3.emulate_cycle(&NO_KEYS);
    assert_eq!(vm3.program_counter(), 0x206);
}

#[test]
fn key_index_out_of_range_halts() {
    let mut vm = load(vec![0x60, 0x10, 0xE0, 0x9E]);
    vm.emulate_cycle(&NO_KEYS);
    vm.emulate_cycle(&NO_KEYS);
    assert_eq!(vm.get_fault(), Some(Fault::KeyOutOfRange));
}

#[test]
fn sound_timer_counts_down_and_beeps() {
    // r0 = 5; sound = r0; then wait for a key so nothing else runs.
    let mut vm = load(vec![0x60, 0x05, 0xF0, 0x18, 0xF3, 0x0A]);
    vm.emulate_cycle(&NO_KEYS);
    assert!(!vm.beep);
    vm.emulate_cycle(&NO_KEYS); // sound set to 5, ticks to 4
    assert_eq!(vm.get_sound_timer(), 4);
    assert!(vm.beep);
    let expected = [3u8, 2, 1, 0, 0];
    for (k, want) in expected.iter().enumerate() {
        vm.emulate_cycle(&NO_KEYS);
        assert_eq!(vm.get_sound_timer(), *want, "cycle {}", k);
        assert_eq!(vm.beep, *want > 0, "cycle {}", k);
    }
}

#[test]
fn delay_timer_counts_down_and_reads_back() {
    let mut vm = load(vec![0x60, 0x05, 0xF0, 0x15, 0xF1, 0x07, 0xF3, 0x0A]);
    vm.emulate_cycle(&NO_KEYS);
    vm.emulate_cycle(&NO_KEYS); // delay set to 5, ticks to 4
    assert_eq!(vm.get_delay_timer(), 4);
    vm.emulate_cycle(&NO_KEYS); // r1 = 4, delay ticks to 3
    assert_eq!(vm.register(1), 4);
    assert_eq!(vm.get_delay_timer(), 3);
    for _ in 0..5 {
        vm.emulate_cycle(&NO_KEYS);
    }
    assert_eq!(vm.get_delay_timer(), 0); // rests at zero
}

#[test]
fn random_masked_load() {
    // A zero mask forces register 0 to zero whatever byte was drawn.
    let mut vm = load(vec![0x60, 0xFF, 0xC0, 0x00]);
    vm.emulate_cycle(&NO_KEYS);
    vm.emulate_cycle(&NO_KEYS);
    assert_eq!(vm.register(0), 0);
    // With the byte pinned, the mask keeps only the low nibble.
    let mut vm2 = load(vec![0xC0, 0x0F]);
    vm2.step_with(&NO_KEYS, 0xAB);
    assert_eq!(vm2.register(0), 0x0B);
}

#[test]
fn index_register_ops() {
    let mut vm = load(vec![0xA2, 0x34]);
    vm.emulate_cycle(&NO_KEYS);
    assert_eq!(vm.index_register(), 0x234);
    // glyph address: register value 4 points at glyph 4, 5 bytes each.
    let mut vm2 = load(vec![0x60, 0x04, 0xF0, 0x29]);
    vm2.emulate_cycle(&NO_KEYS);
    vm2.emulate_cycle(&NO_KEYS);
    assert_eq!(vm2.index_register(), 20);
    // add register to index.
    let mut vm3 = load(vec![0x61, 0x02, 0xA2, 0x00, 0xF1, 0x1E]);
    for _ in 0..3 {
        vm3.emulate_cycle(&NO_KEYS);
    }
    assert_eq!(vm3.index_register(), 0x202);
}

#[test]
fn index_past_memory_halts() {
    let mut vm = load(vec![0xAF, 0xFF, 0x60, 0x01, 0xF0, 0x1E]);
    for _ in 0..3 {
        vm.emulate_cycle(&NO_KEYS);
    }
    assert_eq!(vm.get_fault(), Some(Fault::MemoryOutOfBounds));
    assert_eq!(vm.index_register(), 4095);
}

#[test]
fn draw_past_memory_halts() {
    // I = 4095: one sprite row still fits, two run past memory.
    let mut one_row = load(vec![0xAF, 0xFF, 0xD0, 0x01]);
    one_row.emulate_cycle(&NO_KEYS);
    one_row.emulate_cycle(&NO_KEYS);
    assert_eq!(one_row.get_fault(), None);
    let mut two_rows = load(vec![0xAF, 0xFF, 0xD0, 0x02]);
    two_rows.emulate_cycle(&NO_KEYS);
    two_rows.emulate_cycle(&NO_KEYS);
    assert_eq!(two_rows.get_fault(), Some(Fault::MemoryOutOfBounds));
    assert!(!two_rows.draw_flag);
}

#[test]
fn bcd_past_memory_halts() {
    let mut vm = load(vec![0xAF, 0xFF, 0xF0, 0x33]);
    vm.emulate_cycle(&NO_KEYS);
    vm.emulate_cycle(&NO_KEYS);
    assert_eq!(vm.get_fault(), Some(Fault::MemoryOutOfBounds));
}

#[test]
fn store_and_load_registers_roundtrip() {
    // r0 = 9, r1 = 8, r2 = 7; store r0..=r2 at 0x300; overwrite; load back.
    let mut vm = load(vec![
        0x60, 0x09, 0x61, 0x08, 0x62, 0x07, 0xA3, 0x00, 0xF2, 0x55, 0x60, 0x00, 0x61, 0x00, 0x62,
        0x00, 0xF2, 0x65,
    ]);
    for _ in 0..5 {
        vm.emulate_cycle(&NO_KEYS);
    }
    assert_eq!(vm.memory_at(0x300), 9);
    assert_eq!(vm.memory_at(0x301), 8);
    assert_eq!(vm.memory_at(0x302), 7);
    assert_eq!(vm.memory_at(0x303), 0);
    for _ in 0..4 {
        vm.emulate_cycle(&NO_KEYS);
    }
    assert_eq!(vm.register(0), 9);
    assert_eq!(vm.register(1), 8);
    assert_eq!(vm.register(2), 7);
    assert_eq!(vm.register(3), 0);
    assert_eq!(vm.index_register(), 0x300); // neither opcode moves I
}

#[test]
fn unknown_opcode_is_noop_advance() {
    let mut vm = load(vec![0xFF, 0xFF]);
    vm.emulate_cycle(&NO_KEYS);
    assert_eq!(vm.program_counter(), 0x202);
    assert_eq!(vm.get_fault(), None);
    for i in 0..16 {
        assert_eq!(vm.register(i), 0);
    }
}

#[test]
fn program_counter_leaving_memory_halts() {
    // jump to the last even address: the fetch at 0xFFE succeeds (zeros),
    // the next one at 0x1000 cannot.
    let mut vm = load(vec![0x1F, 0xFE]);
    vm.emulate_cycle(&NO_KEYS);
    assert_eq!(vm.program_counter(), 0xFFE);
    vm.emulate_cycle(&NO_KEYS); // 0x0000: no-op, pc -> 0x1000
    assert_eq!(vm.program_counter(), 0x1000);
    vm.emulate_cycle(&NO_KEYS);
    assert_eq!(vm.get_fault(), Some(Fault::ProgramCounterOutOfBounds));
}
