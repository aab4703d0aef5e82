use chip8::cpu::CPU;
use chip8::gpu::GPU;
use chip8::input::InputManager;
use chip8::ram::RAM;
use chip8::timer::{DelayTimer, SoundTimer};

fn machine_with_program(program: &[u8], liberal: bool) -> CPU {
    let delay_timer = DelayTimer::new();
    let sound_timer = SoundTimer::new();
    let mut ram = RAM::new_default_conservative();
    let gpu = GPU::new_default_no_wrapping();
    let input_manager = InputManager::new();
    assert!(ram.load_program(&program.to_vec()));
    if liberal {
        CPU::new_default_all_true(gpu, ram, delay_timer, sound_timer, input_manager)
    } else {
        CPU::new_default_all_false(gpu, ram, delay_timer, sound_timer, input_manager)
    }
}

#[test]
fn test_jp_self_loop() {
    let mut cpu = machine_with_program(&[0x12, 0x00], false);

    assert!(!cpu.step());
    assert_eq!(0x200, cpu.get_pc());

    for _ in 0..1000 {
        cpu.step();
    }

    assert_eq!(0x200, cpu.get_pc());
    assert!(cpu.active);
}

#[test]
fn test_add_with_carry() {
    let mut cpu = machine_with_program(&[0x60, 0xFF, 0x61, 0x01, 0x80, 0x14], false);

    for _ in 0..3 {
        cpu.step();
    }

    assert_eq!(0x00, cpu.get_v_reg(0));
    assert_eq!(0x01, cpu.get_v_reg(0xF));
    assert!(cpu.active);
}

#[test]
fn test_add_with_carry_into_flag_register() {
    // The destination of the add is the flag itself: the carry must be the
    // value that survives.
    let mut cpu = machine_with_program(&[0x6F, 0xFF, 0x61, 0x01, 0x8F, 0x14], false);

    for _ in 0..3 {
        cpu.step();
    }

    assert_eq!(0x01, cpu.get_v_reg(0xF));
    assert!(cpu.active);
}

#[test]
fn test_shift_quirk_old() {
    // Classic shift: `8x y6` copies `Vy` shifted right into `Vx`. With
    // V0 = 0x82 and V1 = 0, `8016` leaves V0 = 0 and a clear flag.
    let mut cpu = machine_with_program(&[0x60, 0x82, 0x61, 0x00, 0x80, 0x16], false);

    for _ in 0..3 {
        cpu.step();
    }

    assert_eq!(0x00, cpu.get_v_reg(0));
    assert_eq!(0x00, cpu.get_v_reg(0xF));
    assert!(cpu.active);
}

#[test]
fn test_shift_quirk_new() {
    // New-style shift: the same `8016` shifts `Vx` itself, so V0 becomes
    // 0x41 with a clear flag.
    let mut cpu = machine_with_program(&[0x60, 0x82, 0x61, 0x00, 0x80, 0x16], true);

    for _ in 0..3 {
        cpu.step();
    }

    assert_eq!(0x41, cpu.get_v_reg(0));
    assert_eq!(0x00, cpu.get_v_reg(0xF));
    assert!(cpu.active);
}

#[test]
fn test_bcd_then_read_back() {
    let mut cpu = machine_with_program(&[0x60, 0x9C, 0xA3, 0x00, 0xF0, 0x33, 0xF3, 0x65], false);

    for _ in 0..4 {
        cpu.step();
    }

    assert_eq!(1, cpu.get_v_reg(0));
    assert_eq!(5, cpu.get_v_reg(1));
    assert_eq!(6, cpu.get_v_reg(2));
    assert!(cpu.active);
}

#[test]
fn test_draw_collision_cancels_glyph() {
    let glyph = vec![0xF0, 0x90, 0x90, 0x90, 0xF0];

    let delay_timer = DelayTimer::new();
    let sound_timer = SoundTimer::new();
    let mut ram = RAM::new_default_conservative();
    let gpu = GPU::new_default_no_wrapping();
    let input_manager = InputManager::new();
    // `A300` points the index at 0x300; the two `D005` draws put the glyph
    // at (V0, V0) = (0, 0) twice.
    assert!(ram.load_program(&vec![0xA3, 0x00, 0xD0, 0x05, 0xD0, 0x05]));
    assert!(ram.write_bytes(&glyph, 0x300));
    let mut cpu = CPU::new_default_all_false(gpu, ram, delay_timer, sound_timer, input_manager);

    cpu.step();
    cpu.step();
    assert_eq!(0, cpu.get_v_reg(0xF));

    cpu.step();
    assert_eq!(1, cpu.get_v_reg(0xF));
    for px in cpu.gpu.get_framebuffer() {
        assert!(!px);
    }
    assert!(cpu.active);
}

#[test]
fn test_wait_for_key_press_then_release() {
    let mut cpu = machine_with_program(&[0xF0, 0x0A], false);

    // No key event yet: the instruction stays blocked and the program
    // counter stays on it.
    assert!(cpu.step());
    assert_eq!(0x200, cpu.get_pc());
    assert_eq!(0, cpu.get_v_reg(0));

    // Holding the key is not enough.
    cpu.input_manager.key_event(0xA, true);
    assert!(cpu.step());
    assert_eq!(0x200, cpu.get_pc());
    assert_eq!(0, cpu.get_v_reg(0));

    // The release completes the cycle.
    cpu.input_manager.key_event(0xA, false);
    assert!(cpu.step());
    assert_eq!(0x0A, cpu.get_v_reg(0));
    assert_eq!(0x202, cpu.get_pc());
    assert!(cpu.active);
}

#[test]
fn test_seeded_randomness_is_reproducible() {
    let mut first = machine_with_program(&[0xC0, 0xFF, 0xC1, 0x0F], false);
    let mut second = machine_with_program(&[0xC0, 0xFF, 0xC1, 0x0F], false);

    for _ in 0..2 {
        first.step();
        second.step();
    }

    assert_eq!(first.get_v_reg(0), second.get_v_reg(0));
    assert_eq!(first.get_v_reg(1), second.get_v_reg(1));
    // The mask keeps only bits of `kk`.
    assert_eq!(0, first.get_v_reg(1) & 0xF0);
}

#[test]
fn test_unknown_opcode_is_skipped() {
    let mut cpu = machine_with_program(&[0xFF, 0xFF, 0x60, 0x21], false);

    cpu.step();
    assert_eq!(0x202, cpu.get_pc());
    assert!(cpu.active);

    cpu.step();
    assert_eq!(0x21, cpu.get_v_reg(0));
}

#[test]
fn test_call_and_return() {
    // Call 0x206, load V1 there, return, then load V0 after the call site.
    let mut cpu = machine_with_program(
        &[0x22, 0x06, 0x60, 0x11, 0x12, 0x02, 0x61, 0x22, 0x00, 0xEE],
        false,
    );

    cpu.step();
    assert_eq!(0x206, cpu.get_pc());
    cpu.step();
    assert_eq!(0x22, cpu.get_v_reg(1));
    cpu.step();
    assert_eq!(0x202, cpu.get_pc());
    cpu.step();
    assert_eq!(0x11, cpu.get_v_reg(0));
    assert!(cpu.active);
}

#[test]
fn test_skip_equal_and_not_equal() {
    let mut cpu = machine_with_program(&[0x60, 0x05, 0x30, 0x05, 0x61, 0x01, 0x40, 0x05], false);

    cpu.step();
    cpu.step();
    // `3005` skips the `6101` load.
    assert_eq!(0x206, cpu.get_pc());
    assert_eq!(0, cpu.get_v_reg(1));
    cpu.step();
    // `4005` does not skip: V0 == 0x05.
    assert_eq!(0x208, cpu.get_pc());
    assert!(cpu.active);
}

#[test]
fn test_timers_load_and_store() {
    let mut cpu = machine_with_program(&[0x60, 0x30, 0xF0, 0x15, 0xF0, 0x18, 0xF1, 0x07], false);

    for _ in 0..4 {
        cpu.step();
    }

    assert_eq!(0x30, cpu.delay_timer.get_value());
    assert_eq!(0x30, cpu.sound_timer.value);
    assert_eq!(0x30, cpu.get_v_reg(1));
    assert!(cpu.active);
}

#[test]
fn test_jump_with_offset_quirks() {
    // `B300` with V0 = 4: classically jumps to 0x304.
    let mut old_style = machine_with_program(&[0x60, 0x04, 0xB3, 0x00], false);
    old_style.step();
    old_style.step();
    assert_eq!(0x304, old_style.get_pc());

    // Under the new-jump quirk `B3 00` uses Vx with x = 3.
    let mut new_style = machine_with_program(&[0x63, 0x08, 0xB3, 0x00], true);
    new_style.step();
    new_style.step();
    assert_eq!(0x308, new_style.get_pc());
}

#[test]
fn test_font_address_load() {
    let mut cpu = machine_with_program(&[0x60, 0x1A, 0xF0, 0x29], false);

    cpu.step();
    cpu.step();

    // The low nibble of V0 selects glyph 0xA; the default font base is 0.
    assert_eq!(0xA * 5, cpu.get_index_reg());
    assert!(cpu.active);
}

#[test]
fn test_store_and_load_registers_with_index_quirk() {
    // Store V0..=V2 at 0x300, clobber them, read them back; the quirk moves
    // the index by x each time, so it is reset between the transfers.
    let mut cpu = machine_with_program(
        &[
            0x60, 0x0A, 0x61, 0x0B, 0x62, 0x0C, 0xA3, 0x00, 0xF2, 0x55, 0x60, 0x00, 0x61, 0x00,
            0x62, 0x00, 0xA3, 0x00, 0xF2, 0x65,
        ],
        true,
    );

    for _ in 0..10 {
        cpu.step();
    }

    assert_eq!(0x0A, cpu.get_v_reg(0));
    assert_eq!(0x0B, cpu.get_v_reg(1));
    assert_eq!(0x0C, cpu.get_v_reg(2));
    // Both transfers moved the index by x = 2.
    assert_eq!(0x302, cpu.get_index_reg());
    assert!(cpu.active);
}

#[test]
fn test_bitwise_flag_reset_quirk() {
    // With the quirk on (the all-true configuration), OR resets VF.
    let mut cpu = machine_with_program(&[0x6F, 0x11, 0x60, 0x0F, 0x61, 0xF0, 0x80, 0x11], true);

    for _ in 0..4 {
        cpu.step();
    }

    assert_eq!(0xFF, cpu.get_v_reg(0));
    assert_eq!(0x00, cpu.get_v_reg(0xF));

    // Without the quirk VF keeps its value.
    let mut plain = machine_with_program(&[0x6F, 0x11, 0x60, 0x0F, 0x61, 0xF0, 0x80, 0x11], false);
    for _ in 0..4 {
        plain.step();
    }
    assert_eq!(0xFF, plain.get_v_reg(0));
    assert_eq!(0x11, plain.get_v_reg(0xF));
}

#[test]
fn test_subtract_sets_no_borrow_flag() {
    let mut cpu = machine_with_program(&[0x60, 0x05, 0x61, 0x03, 0x80, 0x15], false);
    for _ in 0..3 {
        cpu.step();
    }
    assert_eq!(0x02, cpu.get_v_reg(0));
    assert_eq!(0x01, cpu.get_v_reg(0xF));

    let mut borrow = machine_with_program(&[0x60, 0x03, 0x61, 0x05, 0x80, 0x15], false);
    for _ in 0..3 {
        borrow.step();
    }
    assert_eq!(0xFE, borrow.get_v_reg(0));
    assert_eq!(0x00, borrow.get_v_reg(0xF));
}

#[test]
fn test_cls_clears_framebuffer() {
    let glyph = vec![0xF0];
    let delay_timer = DelayTimer::new();
    let sound_timer = SoundTimer::new();
    let mut ram = RAM::new_default_conservative();
    let gpu = GPU::new_default_no_wrapping();
    let input_manager = InputManager::new();
    assert!(ram.load_program(&vec![0xA3, 0x00, 0xD0, 0x01, 0x00, 0xE0]));
    assert!(ram.write_bytes(&glyph, 0x300));
    let mut cpu = CPU::new_default_all_false(gpu, ram, delay_timer, sound_timer, input_manager);

    cpu.step();
    cpu.step();
    assert!(cpu.gpu.get_framebuffer().iter().any(|px| *px));

    cpu.step();
    for px in cpu.gpu.get_framebuffer() {
        assert!(!px);
    }
    assert!(cpu.active);
}

#[test]
fn test_program_counter_overflow_halts() {
    // Jump to the top of memory; the next fetch would run off the end and
    // the policy forbids wrapping.
    let mut cpu = machine_with_program(&[0x1F, 0xFE], false);

    cpu.step();
    assert_eq!(0xFFE, cpu.get_pc());
    assert!(cpu.active);

    assert!(!cpu.step());
    assert!(!cpu.active);
    assert_eq!(0xFFE, cpu.get_pc());
}

#[test]
fn test_program_counter_overflow_wraps_when_allowed() {
    let mut cpu = machine_with_program(&[0x1F, 0xFE], true);

    cpu.step();
    // The fetch at 0xFFE reads zeros (an unknown opcode) and the counter
    // wraps to the bottom of memory.
    cpu.step();
    assert_eq!(0x000, cpu.get_pc());
    assert!(cpu.active);
}

#[test]
fn test_add_index_flag_quirk() {
    // `F01E` with the flag quirk on: the index passing 0xFFF sets VF.
    let mut cpu = machine_with_program(&[0x60, 0xFF, 0xAF, 0xFF, 0xF0, 0x1E], true);
    for _ in 0..3 {
        cpu.step();
    }
    assert_eq!(0xFFF + 0xFF, cpu.get_index_reg());
    assert_eq!(1, cpu.get_v_reg(0xF));

    // With the quirk off the flag stays untouched.
    let mut plain = machine_with_program(&[0x60, 0xFF, 0xAF, 0xFF, 0xF0, 0x1E], false);
    for _ in 0..3 {
        plain.step();
    }
    assert_eq!(0xFFF + 0xFF, plain.get_index_reg());
    assert_eq!(0, plain.get_v_reg(0xF));
}

#[test]
fn test_subn_reverses_operands() {
    let mut cpu = machine_with_program(&[0x60, 0x03, 0x61, 0x05, 0x80, 0x17], false);
    for _ in 0..3 {
        cpu.step();
    }
    assert_eq!(0x02, cpu.get_v_reg(0));
    assert_eq!(0x01, cpu.get_v_reg(0xF));
}

#[test]
fn test_skip_on_key_state() {
    // `E09E` skips when key V0 is down; `E0A1` skips when it is up.
    let mut cpu = machine_with_program(&[0x60, 0x07, 0xE0, 0x9E, 0x00, 0x00, 0xE0, 0xA1], false);
    cpu.input_manager.key_event(0x7, true);

    cpu.step();
    cpu.step();
    assert_eq!(0x206, cpu.get_pc());

    cpu.input_manager.key_event(0x7, false);
    cpu.step();
    assert_eq!(0x20A, cpu.get_pc());
    assert!(cpu.active);
}

#[test]
fn test_one_draw_per_frame_reports_blocked() {
    // With the quirk on, a draw while a redraw is still queued reports the
    // tick as blocked; after the presenter consumes the frame it does not.
    let mut cpu = machine_with_program(&[0xA3, 0x00, 0xD0, 0x01, 0xD0, 0x01], true);

    cpu.step();
    assert!(!cpu.step());
    assert!(cpu.gpu.is_render_queued());

    assert!(cpu.step());
    assert!(cpu.active);
}

#[test]
fn test_wait_for_key_returns_once_per_cycle() {
    // Two keys interleave: the cycle that completes hands over the key that
    // was pressed while the request was pending.
    let mut cpu = machine_with_program(&[0xF0, 0x0A], false);

    assert!(cpu.step());
    cpu.input_manager.key_event(0x1, true);
    cpu.input_manager.key_event(0x2, true);
    cpu.input_manager.key_event(0x2, false);
    assert!(cpu.step());
    assert_eq!(0x01, cpu.get_v_reg(0));
    assert_eq!(0x202, cpu.get_pc());
}
