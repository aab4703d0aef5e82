use chip8::config::{
    generate_configs, CPUConfig, Config, GPUConfig, Preset, RenderOccasion, SoundTimerConfig,
    ToneWaveform,
};
use chip8::emulib::Limiter;
use chip8::gpu::GPU;
use chip8::input::{InputManager, NewestKeyState};
use chip8::instructions::{get_instruction_function, Instruction, Opcode};
use chip8::ram::RAMConfig;
use chip8::timer::{DelayTimer, SoundTimer};
use chip8::window::{compute_size_factor, render_frame, Position, Size};

#[test]
fn test_opcode_fields() {
    let op = Opcode::from_u8s(0xAB, 0xCD);
    assert_eq!(0xABCD, op.get_full());
    assert_eq!(0xBCD, op.get_addr());
    assert_eq!(0xCD, op.get_kk());
    assert_eq!(0xA, op.get_s());
    assert_eq!(0xB, op.get_x());
    assert_eq!(0xC, op.get_y());
    assert_eq!(0xD, op.get_n());
    assert_eq!((0xB, 0xC), op.get_x_and_y_usize());
}

#[test]
fn test_decode_selectors() {
    let cases: Vec<(u16, Option<Instruction>)> = vec![
        (0x00E0, Some(Instruction::Cls)),
        (0x00EE, Some(Instruction::Ret)),
        (0x0123, None),
        (0x1ABC, Some(Instruction::JpAddr)),
        (0x2ABC, Some(Instruction::CallAddr)),
        (0x3A12, Some(Instruction::SeVxByte)),
        (0x4A12, Some(Instruction::SneVxByte)),
        (0x5AB0, Some(Instruction::SeVxVy)),
        (0x5AB1, None),
        (0x6A12, Some(Instruction::LdVxByte)),
        (0x7A12, Some(Instruction::AddVxByte)),
        (0x8AB0, Some(Instruction::LdVxVy)),
        (0x8AB1, Some(Instruction::OrVxVy)),
        (0x8AB2, Some(Instruction::AndVxVy)),
        (0x8AB3, Some(Instruction::XorVxVy)),
        (0x8AB4, Some(Instruction::AddVxVy)),
        (0x8AB5, Some(Instruction::SubVxVy)),
        (0x8AB6, Some(Instruction::ShrVx)),
        (0x8AB7, Some(Instruction::SubnVxVy)),
        (0x8ABE, Some(Instruction::ShlVx)),
        (0x8AB8, None),
        (0x9AB0, Some(Instruction::SneVxVy)),
        (0x9AB5, None),
        (0xAABC, Some(Instruction::LdIAddr)),
        (0xBABC, Some(Instruction::JpV0Addr)),
        (0xCA12, Some(Instruction::RndVxByte)),
        (0xDAB5, Some(Instruction::DrwVxVyN)),
        (0xEA9E, Some(Instruction::SkpVx)),
        (0xEAA1, Some(Instruction::SknpVx)),
        (0xEA00, None),
        (0xFA07, Some(Instruction::LdVxDt)),
        (0xFA0A, Some(Instruction::LdVxK)),
        (0xFA15, Some(Instruction::LdDtVx)),
        (0xFA18, Some(Instruction::LdStVx)),
        (0xFA1E, Some(Instruction::AddIVx)),
        (0xFA29, Some(Instruction::LdFVx)),
        (0xFA33, Some(Instruction::LdBVx)),
        (0xFA55, Some(Instruction::LdIVx)),
        (0xFA65, Some(Instruction::LdVxI)),
        (0xFAFF, None),
    ];
    for (word, ideal) in cases {
        let op = Opcode::from_u8s((word >> 8) as u8, (word & 0xFF) as u8);
        assert_eq!(ideal, get_instruction_function(&op), "word {:#06x}", word);
    }
}

#[test]
fn test_limiter_catch_up() {
    let mut limiter = Limiter::new(100, true, 1000);
    assert_eq!(500, limiter.sleep_needed(500));
    assert_eq!(0, limiter.sleep_needed(1200));
    limiter.advance(1200);
    assert_eq!(1100, limiter.target);
    limiter.advance(1250);
    assert_eq!(1200, limiter.target);
    limiter.reset(5000);
    assert_eq!(5000, limiter.target);
}

#[test]
fn test_limiter_without_catch_up_restarts_from_now() {
    let mut limiter = Limiter::new(100, false, 1000);
    limiter.advance(1234);
    assert_eq!(1234, limiter.target);
}

#[test]
fn test_limiter_overflow_falls_back_to_now() {
    let mut limiter = Limiter::new(u64::MAX, true, u64::MAX - 1);
    limiter.advance(77);
    assert_eq!(77, limiter.target);
}

#[test]
fn test_delay_timer_decrement() {
    let mut timer = DelayTimer::new();

    timer.set_value(5);
    for _ in 0..150 {
        timer.tick();
    }

    assert_eq!(0, timer.get_value());
}

#[test]
fn test_sound_timer_tone_follows_value() {
    let mut timer = SoundTimer::new();
    timer.set_value(2);
    assert!(timer.tick());
    assert!(!timer.tick());
    assert!(!timer.tick());
    assert_eq!(0, timer.value);
}

#[test]
fn test_key_handshake_cycle() {
    let mut input = InputManager::new();

    // A press before any request only mirrors the key state.
    input.key_event(3, true);
    assert!(input.get_key_state(3));
    input.key_event(3, false);
    assert!(!input.get_key_state(3));
    assert_eq!(NewestKeyState::Finished, input.newest_key_state);

    // The first poll opens a request.
    assert_eq!(None, input.poll_next_key());
    assert_eq!(NewestKeyState::Requested, input.newest_key_state);

    // Holding a key does not complete the request.
    input.key_event(0xB, true);
    assert_eq!(NewestKeyState::Held, input.newest_key_state);
    assert_eq!(None, input.poll_next_key());

    // Releasing it does.
    input.key_event(0xB, false);
    assert_eq!(Some(0xB), input.poll_next_key());
    assert_eq!(NewestKeyState::Finished, input.newest_key_state);
}

#[test]
fn test_draw_sprite_clips_pixels() {
    let mut gpu = GPU::new_default_no_wrapping();

    // A full row drawn at x = 60 keeps only the four on-screen pixels.
    assert!(!gpu.draw_sprite(vec![0xFF], 60, 0));
    let lit: usize = gpu.get_framebuffer().iter().filter(|px| **px).count();
    assert_eq!(4, lit);

    // An off-screen start draws nothing at all.
    let mut clipped = GPU::new_default_no_wrapping();
    assert!(!clipped.draw_sprite(vec![0xFF], 64, 0));
    assert!(clipped.get_framebuffer().iter().all(|px| !*px));
}

#[test]
fn test_draw_sprite_wraps_pixels() {
    let mut gpu = GPU::new_default_wrapping();

    assert!(!gpu.draw_sprite(vec![0xFF], 60, 0));
    let fb = gpu.get_framebuffer();
    // Four pixels at the right edge, four wrapped to the left.
    for x in 60..64 {
        assert!(fb[x]);
    }
    for x in 0..4 {
        assert!(fb[x]);
    }
    let lit: usize = fb.iter().filter(|px| **px).count();
    assert_eq!(8, lit);
}

#[test]
fn test_draw_sprite_reports_collision_once() {
    let mut gpu = GPU::new_default_wrapping();
    assert!(!gpu.draw_sprite(vec![0x80], 0, 0));
    assert!(gpu.draw_sprite(vec![0x80], 0, 0));
    assert!(gpu.get_framebuffer().iter().all(|px| !*px));
}

#[test]
fn test_render_queue_flags() {
    let mut gpu = GPU::new_default_wrapping();
    assert!(!gpu.is_render_queued());
    gpu.clear_framebuffer();
    assert!(gpu.is_render_queued());
    gpu.dequeue_render();
    assert!(!gpu.is_render_queued());
    gpu.queue_render();
    assert!(gpu.is_render_queued());
}

#[test]
fn test_chip8_preset_overrides() {
    let custom = Config {
        preset: Preset::CHIP8,
        cpu: CPUConfig {
            reset_flag_for_bitwise_operations: false,
            use_new_shift_instruction: true,
            use_new_jump_instruction: true,
            set_flag_for_index_overflow: true,
            move_index_with_reads: false,
            limit_to_one_draw_per_frame: false,
            allow_program_counter_overflow: true,
            use_true_randomness: false,
            fake_randomness_seed: 9,
            allow_index_register_overflow: true,
        },
        gpu: GPUConfig {
            pixel_color_when_active: 1,
            pixel_color_when_inactive: 2,
            screen_border_color: 3,
            horizontal_resolution: 128,
            vertical_resolution: 64,
            wrap_sprite_positions: false,
            wrap_sprite_pixels: true,
            render_occasion: RenderOccasion::Changes,
        },
        ram: RAMConfig {
            stack_size: 4,
            allow_stack_overflow: true,
            allow_heap_overflow: true,
            font_starting_address: 0x50,
            font_data: [1; 80],
        },
        sound_timer: SoundTimerConfig { tone_waveform: ToneWaveform::Square },
    };

    let applied = generate_configs(custom);

    assert!(applied.cpu.reset_flag_for_bitwise_operations);
    assert!(!applied.cpu.use_new_shift_instruction);
    assert!(!applied.cpu.use_new_jump_instruction);
    assert!(!applied.cpu.set_flag_for_index_overflow);
    assert!(applied.cpu.move_index_with_reads);
    assert!(applied.cpu.limit_to_one_draw_per_frame);
    // Fields outside the preset table stay as configured.
    assert!(applied.cpu.allow_program_counter_overflow);
    assert_eq!(9, applied.cpu.fake_randomness_seed);

    assert_eq!(64, applied.gpu.horizontal_resolution);
    assert_eq!(32, applied.gpu.vertical_resolution);
    assert!(applied.gpu.wrap_sprite_positions);
    assert!(!applied.gpu.wrap_sprite_pixels);
    assert_eq!(RenderOccasion::Frequency, applied.gpu.render_occasion);
    assert_eq!(1, applied.gpu.pixel_color_when_active);

    assert_eq!(16, applied.ram.stack_size);
    assert!(applied.ram.allow_stack_overflow);
    assert_eq!(0x50, applied.ram.font_starting_address);

    assert_eq!(ToneWaveform::Square, applied.sound_timer.tone_waveform);
}

#[test]
fn test_custom_preset_changes_nothing() {
    let custom = Config {
        preset: Preset::Custom,
        cpu: CPUConfig {
            reset_flag_for_bitwise_operations: false,
            use_new_shift_instruction: true,
            use_new_jump_instruction: false,
            set_flag_for_index_overflow: true,
            move_index_with_reads: false,
            limit_to_one_draw_per_frame: false,
            allow_program_counter_overflow: false,
            use_true_randomness: true,
            fake_randomness_seed: 0,
            allow_index_register_overflow: false,
        },
        gpu: GPUConfig {
            pixel_color_when_active: 1,
            pixel_color_when_inactive: 2,
            screen_border_color: 3,
            horizontal_resolution: 128,
            vertical_resolution: 64,
            wrap_sprite_positions: false,
            wrap_sprite_pixels: true,
            render_occasion: RenderOccasion::Changes,
        },
        ram: RAMConfig {
            stack_size: 4,
            allow_stack_overflow: false,
            allow_heap_overflow: false,
            font_starting_address: 0,
            font_data: [0; 80],
        },
        sound_timer: SoundTimerConfig { tone_waveform: ToneWaveform::Sine },
    };

    let applied = generate_configs(custom);
    assert_eq!(128, applied.gpu.horizontal_resolution);
    assert_eq!(4, applied.ram.stack_size);
    assert!(applied.cpu.use_new_shift_instruction);
}

#[test]
fn test_size_and_position() {
    let mut size = Size::new(64, 32);
    assert_eq!((64, 32), size.get());
    size.set(128, 96);
    assert_eq!((128, 96), size.get());

    let pos = Position::from_coords(3, 2, 10);
    assert_eq!(23, pos.index);

    let pos2 = Position::from_index(23, 10);
    assert_eq!(3, pos2.x);
    assert_eq!(2, pos2.y);

    let scaled = pos2.scale(2);
    assert_eq!(6, scaled.x);
    assert_eq!(4, scaled.y);
    assert_eq!(20, scaled.get_screen_width());
    assert_eq!(86, scaled.index);

    let padded = scaled.add_padding(5, 1);
    assert_eq!(30, padded.get_screen_width());
    assert_eq!(11, padded.x);
    assert_eq!(5, padded.y);
    assert_eq!(161, padded.index);
}

#[test]
fn test_compute_size_factor() {
    assert_eq!(20, compute_size_factor(1280, 640, 64, 32));
    assert_eq!(10, compute_size_factor(1280, 320, 64, 32));
    assert_eq!(0, compute_size_factor(32, 640, 64, 32));
}

#[test]
fn test_render_frame_centers_and_scales() {
    let fb = vec![true];
    let frame = render_frame(&fb, 1, 1, 4, 4, 2, 0xAAAAAA, 0xBBBBBB, 0xCCCCCC);
    assert_eq!(16, frame.len());
    for py in 0..4usize {
        for px in 0..4usize {
            let ideal = if (1..3).contains(&px) && (1..3).contains(&py) {
                0xAAAAAA
            } else {
                0xCCCCCC
            };
            assert_eq!(ideal, frame[py * 4 + px], "pixel ({}, {})", px, py);
        }
    }

    let dark = vec![false];
    let frame2 = render_frame(&dark, 1, 1, 4, 4, 2, 0xAAAAAA, 0xBBBBBB, 0xCCCCCC);
    assert_eq!(0xBBBBBB, frame2[5]);
    assert_eq!(0xCCCCCC, frame2[0]);
}
