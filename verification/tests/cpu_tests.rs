use chip8::cpu::CPU;
use chip8::gpu::GPU;
use chip8::input::InputManager;
use chip8::ram::{RAM, PROGRAM_START_ADDRESS};
use chip8::timer::{DelayTimer, SoundTimer};

enum ConfigType {
    Conservative,
    Liberal,
}

fn create_objects(cfg_type: ConfigType) -> CPU {
    let delay_timer = DelayTimer::new();
    let sound_timer = SoundTimer::new();
    let ram = RAM::new_default_conservative();
    let gpu = GPU::new_default_wrapping();
    let input_manager = InputManager::new();
    match cfg_type {
        ConfigType::Conservative => {
            CPU::new_default_all_false(gpu, ram, delay_timer, sound_timer, input_manager)
        }
        ConfigType::Liberal => {
            CPU::new_default_all_true(gpu, ram, delay_timer, sound_timer, input_manager)
        }
    }
}

#[test]
fn test_increment_program_counter() {
    let mut cpu = create_objects(ConfigType::Conservative);

    let old_val = cpu.get_pc();

    for _ in 0..5 {
        assert!(cpu.increment_pc());
    }

    assert_eq!(old_val + 10, cpu.get_pc());
    assert!(cpu.active);
}

#[test]
fn test_successful_program_counter_overflow() {
    let mut cpu = create_objects(ConfigType::Liberal);

    for _ in 0..((0x1000 - PROGRAM_START_ADDRESS) / 2) {
        assert!(cpu.increment_pc());
    }

    assert_eq!(0x000, cpu.get_pc());
    assert!(cpu.active);
}

#[test]
fn test_failed_program_counter_overflow() {
    let mut cpu = create_objects(ConfigType::Conservative);

    for _ in 0..((0xFFF - PROGRAM_START_ADDRESS) / 2) {
        assert!(cpu.increment_pc());
    }

    assert!(!cpu.increment_pc());
    assert!(!cpu.active);
}

#[test]
fn test_set_program_counter_manually() {
    let mut cpu = create_objects(ConfigType::Conservative);
    cpu.set_pc(0x567);
    assert_eq!(0x567, cpu.get_pc());
    assert!(cpu.active);
}

#[test]
fn test_get_program_counter_reference() {
    let mut cpu = create_objects(ConfigType::Conservative);

    cpu.set_pc(0x567);

    let pc = cpu.get_pc();
    cpu.set_pc(pc + 2);

    assert_eq!(0x569, cpu.get_pc());
    assert!(cpu.active);
}

#[test]
fn test_set_index_register() {
    let mut cpu = create_objects(ConfigType::Conservative);
    cpu.set_index_reg(0x567);
    assert_eq!(0x567, cpu.get_index_reg());
    assert!(cpu.active);
}

#[test]
fn test_index_register_overflow_policies() {
    let mut cpu = create_objects(ConfigType::Liberal);
    cpu.set_index_reg(0xFFF);
    assert_eq!(Some(true), cpu.increment_index_reg_by(1));
    assert_eq!(0x1000, cpu.get_index_reg());
    cpu.index = 0xFFFF;
    assert_eq!(Some(false), cpu.increment_index_reg_by(1));
    assert_eq!(0, cpu.get_index_reg());
    assert!(cpu.active);

    let mut strict = create_objects(ConfigType::Conservative);
    strict.index = 0xFFFF;
    assert_eq!(None, strict.increment_index_reg_by(1));
    assert!(!strict.active);
}

#[test]
fn test_set_v_register() {
    let mut cpu = create_objects(ConfigType::Conservative);
    cpu.set_v_reg(0x5, 0x67);
    assert_eq!(0x67, cpu.get_v_reg(0x5));
    assert!(cpu.active);
}

#[test]
fn test_get_v_register_reference() {
    let mut cpu = create_objects(ConfigType::Conservative);

    cpu.set_v_reg(0x5, 0x67);

    assert_eq!(0x67, cpu.get_v_reg(0x5));
    assert!(cpu.active);
}

#[test]
fn test_get_v_register_for_x_and_y() {
    let mut cpu = create_objects(ConfigType::Conservative);
    cpu.set_v_reg(2, 0x34);
    cpu.set_v_reg(5, 0x67);
    assert_eq!((0x34, 0x67), cpu.get_v_reg_xy(2, 5));
    assert!(cpu.active);
}

#[test]
fn test_set_v_register_range() {
    let mut cpu = create_objects(ConfigType::Conservative);

    let ideal_bytes = vec![0x48, 0x65, 0x6c, 0x6c, 0x6f];
    cpu.set_v_reg_range(2, &ideal_bytes);

    for i in 0..5 {
        assert_eq!(ideal_bytes[i as usize], cpu.get_v_reg(i + 2));
    }

    assert!(cpu.active);
}

#[test]
fn test_get_v_register_range() {
    let mut cpu = create_objects(ConfigType::Conservative);

    let ideal_bytes = vec![0x48, 0x65, 0x6c, 0x6c, 0x6f];

    for i in 0..5 {
        cpu.set_v_reg(i + 2, ideal_bytes[i as usize]);
    }

    assert_eq!(ideal_bytes, cpu.get_v_reg_range(2, 7));
    assert!(cpu.active);
}
