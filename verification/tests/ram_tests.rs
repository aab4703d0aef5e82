use chip8::ram::{RAM, RAMConfig, PROGRAM_START_ADDRESS};

fn create_conservative() -> RAM {
    RAM::new_default_conservative()
}

fn create_liberal() -> RAM {
    RAM::new_default_liberal()
}

#[test]
fn test_load_program_to_memory() {
    let program = vec![0x48, 0x65, 0x6c, 0x6c, 0x6f];

    let mut ram = create_conservative();

    assert!(ram.load_program(&program));

    let ideal_bytes = vec![0x00, 0x48, 0x65, 0x6c, 0x6c, 0x6f, 0x00];
    let actual_bytes = ram.read_bytes(PROGRAM_START_ADDRESS - 1, 7).unwrap();

    assert_eq!(ideal_bytes, actual_bytes);
    assert!(ram.active);
}

#[test]
fn test_program_too_large_for_memory() {
    let program = vec![0x67; 0x1000 - 0x200 + 1];

    let mut ram = create_conservative();

    assert!(!ram.load_program(&program));
    assert!(!ram.active);
}

#[test]
fn test_get_hex_digit_address() {
    let ram = create_conservative();

    let ideal_byte = ram.config.font_data[50];

    let addr = ram.get_hex_digit_address(0xA);
    let actual_byte = ram.read_byte(addr);

    assert_eq!(ideal_byte, actual_byte);
    assert!(ram.active);
}

#[test]
fn test_read_write_byte_to_memory() {
    let mut ram = create_conservative();

    let ideal_byte = 0x56;
    let addr = 0x789;
    ram.write_byte(ideal_byte, addr);

    let actual_byte = ram.read_byte(addr);

    assert_eq!(ideal_byte, actual_byte);
    assert!(ram.active);
}

#[test]
fn test_read_bytes_from_memory() {
    let mut ram = create_conservative();

    let ideal_bytes = vec![0x48, 0x65, 0x6c, 0x6c, 0x6f];
    let start_addr: u16 = 0x789;

    for i in 0..5 {
        ram.write_byte(ideal_bytes[usize::from(i)], start_addr + i);
    }

    let actual_bytes = ram.read_bytes(start_addr, 5).unwrap();

    assert_eq!(ideal_bytes, actual_bytes);
    assert!(ram.active);
}

#[test]
fn test_read_memory_with_successful_overflow() {
    let mut ram = create_liberal();

    let ideal_bytes = vec![0x48, 0x65, 0x6c, 0x6c, 0x6f];

    assert!(ram.write_bytes(&ideal_bytes[..3].to_vec(), 0xFFD));
    assert!(ram.write_bytes(&ideal_bytes[3..].to_vec(), 0x000));

    let actual_bytes = ram.read_bytes(0xFFD, 5).unwrap();

    assert_eq!(ideal_bytes, actual_bytes);
    assert!(ram.active);
}

#[test]
fn test_read_memory_with_failed_overflow() {
    let mut ram = create_conservative();

    let ideal_bytes = vec![0x48, 0x65, 0x6c, 0x6c, 0x6f];

    assert!(ram.write_bytes(&ideal_bytes[..3].to_vec(), 0xFFD));
    assert!(ram.write_bytes(&ideal_bytes[3..].to_vec(), 0x000));

    assert!(ram.read_bytes(0xFFD, 5).is_none());
    assert!(!ram.active);
}

#[test]
fn test_write_bytes_to_memory() {
    let mut ram = create_conservative();

    let ideal_bytes = vec![0x48, 0x65, 0x6c, 0x6c, 0x6f];
    let start_addr: u16 = 0x789;

    assert!(ram.write_bytes(&ideal_bytes, start_addr));

    let mut actual_bytes: Vec<u8> = Vec::new();

    for i in start_addr..start_addr + 5 {
        let byte = ram.read_byte(i);
        actual_bytes.push(byte);
    }

    assert_eq!(ideal_bytes, actual_bytes);
    assert!(ram.active);
}

#[test]
fn test_write_memory_with_successful_overflow() {
    let mut ram = create_liberal();

    let ideal_bytes = vec![0x48, 0x65, 0x6c, 0x6c, 0x6f];

    assert!(ram.write_bytes(&ideal_bytes, 0xFFD));

    let mut actual_bytes: Vec<u8> = Vec::with_capacity(5);
    actual_bytes.extend(ram.read_bytes(0xFFD, 3).unwrap());
    actual_bytes.extend(ram.read_bytes(0x000, 2).unwrap());

    assert_eq!(ideal_bytes, actual_bytes);
    assert!(ram.active);
}

#[test]
fn test_write_memory_with_failed_overflow() {
    let mut ram = create_conservative();

    let ideal_bytes = vec![0x48, 0x65, 0x6c, 0x6c, 0x6f];

    assert!(!ram.write_bytes(&ideal_bytes, 0xFFD));
    assert!(!ram.active);
}

#[test]
fn test_stack_push_pop() {
    let mut ram = create_conservative();

    for i in 1..=5 {
        assert!(ram.push_to_stack(i));
    }

    for i in (1..=5).rev() {
        assert_eq!(i, ram.pop_from_stack().unwrap());
    }

    assert!(ram.active);
}

#[test]
fn test_stack_push_pop_with_successful_overflow() {
    let mut ram = create_liberal();

    for i in 1..=20 {
        assert!(ram.push_to_stack(i));
    }

    for i in (5..=20).rev() {
        assert_eq!(i, ram.pop_from_stack().unwrap());
    }

    assert_eq!(20, ram.pop_from_stack().unwrap());
    assert!(ram.active);
}

#[test]
fn test_stack_push_with_failed_overflow() {
    let mut ram = create_conservative();

    for i in 1..=16 {
        assert!(ram.push_to_stack(i));
    }

    assert!(!ram.push_to_stack(17));
    assert!(!ram.active);
}

#[test]
fn test_stack_pop_with_failed_overflow() {
    let mut ram = create_conservative();

    assert!(ram.pop_from_stack().is_none());
    assert!(!ram.active);
}

#[test]
fn test_memory_wrap_reads_top_then_bottom() {
    let mut ram = create_liberal();

    for i in 0..3 {
        ram.write_byte(0x10 + i, 0xFFD + i as u16);
    }
    for i in 0..4 {
        ram.write_byte(0x20 + i, i as u16);
    }

    let bytes = ram.read_bytes(0x1000 - 3, 7).unwrap();
    assert_eq!(vec![0x10, 0x11, 0x12, 0x20, 0x21, 0x22, 0x23], bytes);
    assert!(ram.active);
}

#[test]
fn test_try_new_rejects_bad_configs() {
    let zero_stack = RAMConfig {
        stack_size: 0,
        allow_stack_overflow: false,
        allow_heap_overflow: false,
        font_starting_address: 0,
        font_data: [0; 80],
    };
    assert!(RAM::try_new(zero_stack).is_none());

    let bad_font = RAMConfig {
        stack_size: 16,
        allow_stack_overflow: false,
        allow_heap_overflow: false,
        font_starting_address: 0xFB1,
        font_data: [0; 80],
    };
    assert!(RAM::try_new(bad_font).is_none());

    let good = RAMConfig {
        stack_size: 12,
        allow_stack_overflow: false,
        allow_heap_overflow: false,
        font_starting_address: 0xFB0,
        font_data: [7; 80],
    };
    let ram = RAM::try_new(good).unwrap();
    assert_eq!(7, ram.read_byte(0xFB0 + 79));
    assert_eq!(0, ram.read_byte(0xFAF));
}
