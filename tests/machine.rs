use rust8::display::{from_u8_rgb, get_pixel_state};
use rust8::{map_hex_value_to_key, Chip8CPU, Chip8Error, HostKey, StepStatus};

fn machine_with(rom: &[u8]) -> Chip8CPU {
    let mut cpu = Chip8CPU::initialize();
    cpu.load_rom(rom.to_vec()).unwrap();
    cpu
}

fn steps(cpu: &mut Chip8CPU, count: usize) {
    for _ in 0..count {
        assert_eq!(cpu.run_with_random_byte(0), Ok(StepStatus::Running));
    }
}

fn keys_with(pressed: &[usize]) -> Vec<bool> {
    let mut keys = vec![false; 16];
    for &k in pressed {
        keys[k] = true;
    }
    keys
}

#[test]
fn initial_machine_is_zeroed() {
    let cpu = Chip8CPU::initialize();
    assert_eq!(cpu.get_program_counter(), 0x200);
    assert_eq!(cpu.get_index_register(), 0);
    assert_eq!(cpu.get_delay_timer_value(), 0);
    assert_eq!(cpu.get_display_data().len(), 2048);
    assert!(cpu.get_display_data().iter().all(|&p| p == 0));
    for r in 0..16 {
        assert_eq!(cpu.get_register_value(r), 0);
        assert!(!cpu.is_key_pressed(r));
    }
    assert_eq!(cpu.read_memory(0), Some(0));
    assert_eq!(cpu.read_memory(4095), Some(0));
    assert_eq!(cpu.read_memory(4096), None);
}

#[test]
fn load_rom_copies_from_program_origin() {
    let cpu = machine_with(&[0xAB, 0xCD, 0xEF]);
    assert_eq!(cpu.read_memory(0x1FF), Some(0));
    assert_eq!(cpu.read_memory(0x200), Some(0xAB));
    assert_eq!(cpu.read_memory(0x201), Some(0xCD));
    assert_eq!(cpu.read_memory(0x202), Some(0xEF));
    assert_eq!(cpu.read_memory(0x203), Some(0));
}

#[test]
fn load_rom_fills_memory_to_the_end() {
    let rom = vec![7u8; 4096 - 0x200];
    let cpu = machine_with(&rom);
    assert_eq!(cpu.read_memory(0x200), Some(7));
    assert_eq!(cpu.read_memory(4095), Some(7));
}

#[test]
fn load_rom_refuses_oversized_rom() {
    let mut cpu = Chip8CPU::initialize();
    assert_eq!(cpu.load_rom(vec![1u8; 4096 - 0x200 + 1]), Err(Chip8Error::RomTooLarge));
    assert_eq!(cpu.read_memory(0x200), Some(0));
}

#[test]
fn set_then_add_immediate_scenario() {
    let mut cpu = machine_with(&[0x60, 0x05, 0x70, 0x03]);
    steps(&mut cpu, 2);
    assert_eq!(cpu.get_register_value(0), 8);
    assert_eq!(cpu.get_program_counter(), 0x200 + 4);
}

#[test]
fn set_register_immediate_every_register() {
    for x in 0..16u8 {
        for nn in [0x00u8, 0x01, 0x7F, 0xA5, 0xFF] {
            let mut cpu = machine_with(&[0x60 | x, nn]);
            steps(&mut cpu, 1);
            assert_eq!(cpu.get_register_value(x as usize), nn);
        }
    }
}

#[test]
fn add_immediate_wraps_without_flag() {
    let mut cpu = machine_with(&[0x6F, 0x07, 0x61, 0xFF, 0x71, 0x03]);
    steps(&mut cpu, 3);
    assert_eq!(cpu.get_register_value(1), 0x02);
    assert_eq!(cpu.get_register_value(15), 7);
}

#[test]
fn add_registers_sets_carry() {
    let mut cpu = machine_with(&[0x60, 0xFF, 0x61, 0x01, 0x80, 0x14]);
    steps(&mut cpu, 3);
    assert_eq!(cpu.get_register_value(0), 0x00);
    assert_eq!(cpu.get_register_value(15), 1);
}

#[test]
fn add_registers_without_carry() {
    let mut cpu = machine_with(&[0x60, 0x10, 0x61, 0x20, 0x6F, 0x09, 0x80, 0x14]);
    steps(&mut cpu, 4);
    assert_eq!(cpu.get_register_value(0), 0x30);
    assert_eq!(cpu.get_register_value(15), 0);
}

#[test]
fn add_registers_at_exact_overflow_boundary() {
    let mut cpu = machine_with(&[0x60, 0x80, 0x61, 0x7F, 0x80, 0x14]);
    steps(&mut cpu, 3);
    assert_eq!(cpu.get_register_value(0), 0xFF);
    assert_eq!(cpu.get_register_value(15), 0);
}

#[test]
fn subtract_registers_flag_is_not_borrow() {
    let mut cpu = machine_with(&[0x60, 0x05, 0x61, 0x03, 0x80, 0x15]);
    steps(&mut cpu, 3);
    assert_eq!(cpu.get_register_value(0), 2);
    assert_eq!(cpu.get_register_value(15), 1);

    let mut cpu = machine_with(&[0x60, 0x03, 0x61, 0x05, 0x80, 0x15]);
    steps(&mut cpu, 3);
    assert_eq!(cpu.get_register_value(0), 0xFE);
    assert_eq!(cpu.get_register_value(15), 0);

    let mut cpu = machine_with(&[0x60, 0x04, 0x61, 0x04, 0x80, 0x15]);
    steps(&mut cpu, 3);
    assert_eq!(cpu.get_register_value(0), 0);
    assert_eq!(cpu.get_register_value(15), 1);
}

#[test]
fn reverse_subtract_registers() {
    let mut cpu = machine_with(&[0x60, 0x03, 0x61, 0x05, 0x80, 0x17]);
    steps(&mut cpu, 3);
    assert_eq!(cpu.get_register_value(0), 2);
    assert_eq!(cpu.get_register_value(15), 1);

    let mut cpu = machine_with(&[0x60, 0x05, 0x61, 0x03, 0x80, 0x17]);
    steps(&mut cpu, 3);
    assert_eq!(cpu.get_register_value(0), 0xFE);
    assert_eq!(cpu.get_register_value(15), 0);
}

#[test]
fn logic_operations() {
    let mut cpu = machine_with(&[0x60, 0x0C, 0x61, 0x0A, 0x80, 0x11]);
    steps(&mut cpu, 3);
    assert_eq!(cpu.get_register_value(0), 0x0E);

    let mut cpu = machine_with(&[0x60, 0x0C, 0x61, 0x0A, 0x80, 0x12]);
    steps(&mut cpu, 3);
    assert_eq!(cpu.get_register_value(0), 0x08);

    let mut cpu = machine_with(&[0x60, 0x0C, 0x61, 0x0A, 0x80, 0x13]);
    steps(&mut cpu, 3);
    assert_eq!(cpu.get_register_value(0), 0x06);

    let mut cpu = machine_with(&[0x60, 0x0C, 0x61, 0x0A, 0x80, 0x10]);
    steps(&mut cpu, 3);
    assert_eq!(cpu.get_register_value(0), 0x0A);
}

#[test]
fn shift_right_takes_vy_and_low_bit_of_vx() {
    let mut cpu = machine_with(&[0x60, 0x03, 0x61, 0x10, 0x80, 0x16]);
    steps(&mut cpu, 3);
    assert_eq!(cpu.get_register_value(0), 0x08);
    assert_eq!(cpu.get_register_value(15), 1);
}

#[test]
fn shift_left_takes_vy_and_high_bit_of_vx() {
    let mut cpu = machine_with(&[0x60, 0x80, 0x61, 0x81, 0x80, 0x1E]);
    steps(&mut cpu, 3);
    assert_eq!(cpu.get_register_value(0), 0x02);
    assert_eq!(cpu.get_register_value(15), 1);

    let mut cpu = machine_with(&[0x60, 0x01, 0x61, 0x01, 0x80, 0x1E]);
    steps(&mut cpu, 3);
    assert_eq!(cpu.get_register_value(0), 0x02);
    assert_eq!(cpu.get_register_value(15), 0);
}

#[test]
fn store_registers_scenario() {
    let mut cpu = machine_with(&[0x60, 0x11, 0x61, 0x22, 0x62, 0x33, 0x63, 0x44, 0xA3, 0x00, 0xF2, 0x55]);
    steps(&mut cpu, 6);
    assert_eq!(cpu.get_index_register(), 0x300);
    assert_eq!(cpu.read_memory(0x300), Some(0x11));
    assert_eq!(cpu.read_memory(0x301), Some(0x22));
    assert_eq!(cpu.read_memory(0x302), Some(0x33));
    assert_eq!(cpu.read_memory(0x303), Some(0));
}

#[test]
fn store_then_load_registers_round_trip() {
    let mut cpu = machine_with(&[
        0x60, 0x11, 0x61, 0x22, 0x62, 0x33, 0xA3, 0x00, 0xF2, 0x55, 0x60, 0x00, 0x61, 0x00, 0x62,
        0x00, 0xF2, 0x65,
    ]);
    steps(&mut cpu, 9);
    assert_eq!(cpu.get_register_value(0), 0x11);
    assert_eq!(cpu.get_register_value(1), 0x22);
    assert_eq!(cpu.get_register_value(2), 0x33);
}

#[test]
fn load_registers_leaves_higher_registers() {
    let mut cpu = machine_with(&[0x62, 0x99, 0xA2, 0x00, 0xF1, 0x65]);
    steps(&mut cpu, 3);
    assert_eq!(cpu.get_register_value(0), 0x62);
    assert_eq!(cpu.get_register_value(1), 0x99);
    assert_eq!(cpu.get_register_value(2), 0x99);
}

#[test]
fn store_registers_past_memory_fails() {
    let mut cpu = machine_with(&[0xAF, 0xFF, 0xF1, 0x55]);
    steps(&mut cpu, 1);
    assert_eq!(cpu.run_with_random_byte(0), Err(Chip8Error::MemoryOutOfBounds));
    assert_eq!(cpu.get_program_counter(), 0x202);
    assert_eq!(cpu.read_memory(0xFFF), Some(0));
}

#[test]
fn load_registers_past_memory_fails() {
    let mut cpu = machine_with(&[0xAF, 0xFE, 0xF2, 0x65]);
    steps(&mut cpu, 1);
    assert_eq!(cpu.run_with_random_byte(0), Err(Chip8Error::MemoryOutOfBounds));
    assert_eq!(cpu.get_program_counter(), 0x202);
}

#[test]
fn binary_coded_decimal_digits() {
    let mut cpu = machine_with(&[0x65, 0xFE, 0xA3, 0x00, 0xF5, 0x33]);
    steps(&mut cpu, 3);
    assert_eq!(cpu.read_memory(0x300), Some(2));
    assert_eq!(cpu.read_memory(0x301), Some(5));
    assert_eq!(cpu.read_memory(0x302), Some(4));
}

#[test]
fn binary_coded_decimal_past_memory_fails() {
    let mut cpu = machine_with(&[0xAF, 0xFE, 0xF0, 0x33]);
    steps(&mut cpu, 1);
    assert_eq!(cpu.run_with_random_byte(0), Err(Chip8Error::MemoryOutOfBounds));
}

#[test]
fn delay_timer_counts_down_to_zero() {
    let mut cpu = machine_with(&[0x6A, 0x0A, 0xFA, 0x15]);
    steps(&mut cpu, 2);
    assert_eq!(cpu.get_delay_timer_value(), 10);
    for _ in 0..10 {
        cpu.decrease_timers_value();
    }
    assert_eq!(cpu.get_delay_timer_value(), 0);
    cpu.decrease_timers_value();
    assert_eq!(cpu.get_delay_timer_value(), 0);
}

#[test]
fn sound_timer_counts_down_independently() {
    let mut cpu = machine_with(&[0x60, 0x02, 0xF0, 0x18, 0x61, 0x05, 0xF1, 0x15]);
    steps(&mut cpu, 4);
    assert_eq!(cpu.get_sound_timer_value(), 2);
    cpu.decrease_timers_value();
    assert_eq!(cpu.get_sound_timer_value(), 1);
    assert_eq!(cpu.get_delay_timer_value(), 4);
    cpu.decrease_timers_value();
    cpu.decrease_timers_value();
    assert_eq!(cpu.get_sound_timer_value(), 0);
    assert_eq!(cpu.get_delay_timer_value(), 2);
}

#[test]
fn read_delay_timer_into_register() {
    let mut cpu = machine_with(&[0x60, 0x07, 0xF0, 0x15, 0xF3, 0x07]);
    steps(&mut cpu, 3);
    assert_eq!(cpu.get_register_value(3), 7);
}

#[test]
fn wait_for_key_blocks_until_press() {
    let mut cpu = machine_with(&[0xF3, 0x0A]);
    for _ in 0..5 {
        assert_eq!(cpu.run_with_random_byte(0), Ok(StepStatus::WaitingForKey));
        assert_eq!(cpu.get_program_counter(), 0x200);
    }
    cpu.register_current_pressed_keys(&keys_with(&[5]));
    assert_eq!(cpu.run_with_random_byte(0), Ok(StepStatus::Running));
    assert_eq!(cpu.get_register_value(3), 5);
    assert_eq!(cpu.get_program_counter(), 0x202);
    assert!(!cpu.is_key_pressed(5));
}

#[test]
fn wait_for_key_takes_highest_pressed_key() {
    let mut cpu = machine_with(&[0xF0, 0x0A]);
    cpu.register_current_pressed_keys(&keys_with(&[2, 9, 12]));
    steps(&mut cpu, 1);
    assert_eq!(cpu.get_register_value(0), 12);
    assert!(cpu.is_key_pressed(2));
    assert!(cpu.is_key_pressed(9));
    assert!(!cpu.is_key_pressed(12));
}

#[test]
fn skip_if_key_pressed_and_released() {
    let mut cpu = machine_with(&[0x60, 0x04, 0xE0, 0x9E]);
    cpu.register_current_pressed_keys(&keys_with(&[4]));
    steps(&mut cpu, 2);
    assert_eq!(cpu.get_program_counter(), 0x206);

    let mut cpu = machine_with(&[0x60, 0x04, 0xE0, 0x9E]);
    steps(&mut cpu, 2);
    assert_eq!(cpu.get_program_counter(), 0x204);

    let mut cpu = machine_with(&[0x60, 0x04, 0xE0, 0xA1]);
    steps(&mut cpu, 2);
    assert_eq!(cpu.get_program_counter(), 0x206);

    let mut cpu = machine_with(&[0x60, 0x04, 0xE0, 0xA1]);
    cpu.register_current_pressed_keys(&keys_with(&[4]));
    steps(&mut cpu, 2);
    assert_eq!(cpu.get_program_counter(), 0x204);
}

#[test]
fn key_number_above_fifteen_fails() {
    let mut cpu = machine_with(&[0x60, 0x10, 0xE0, 0x9E]);
    steps(&mut cpu, 1);
    assert_eq!(cpu.run_with_random_byte(0), Err(Chip8Error::KeyOutOfBounds));
    assert_eq!(cpu.get_program_counter(), 0x202);
}

#[test]
fn register_pressed_keys_follows_current_frame() {
    let mut cpu = Chip8CPU::initialize();
    cpu.register_current_pressed_keys(&keys_with(&[1, 2, 3]));
    assert!(cpu.is_key_pressed(1));
    assert!(cpu.is_key_pressed(2));
    assert!(cpu.is_key_pressed(3));
    assert!(!cpu.is_key_pressed(4));

    cpu.register_current_pressed_keys(&keys_with(&[2]));
    assert!(!cpu.is_key_pressed(1));
    assert!(cpu.is_key_pressed(2));
    assert!(!cpu.is_key_pressed(3));

    cpu.clone_current_to_old_keys();
    cpu.register_current_pressed_keys(&keys_with(&[]));
    for k in 0..16 {
        assert!(!cpu.is_key_pressed(k));
    }
}

#[test]
fn skip_on_immediate_and_register_comparisons() {
    let mut cpu = machine_with(&[0x60, 0x05, 0x30, 0x05]);
    steps(&mut cpu, 2);
    assert_eq!(cpu.get_program_counter(), 0x206);

    let mut cpu = machine_with(&[0x60, 0x05, 0x30, 0x06]);
    steps(&mut cpu, 2);
    assert_eq!(cpu.get_program_counter(), 0x204);

    let mut cpu = machine_with(&[0x60, 0x05, 0x40, 0x06]);
    steps(&mut cpu, 2);
    assert_eq!(cpu.get_program_counter(), 0x206);

    let mut cpu = machine_with(&[0x60, 0x05, 0x61, 0x05, 0x50, 0x10]);
    steps(&mut cpu, 3);
    assert_eq!(cpu.get_program_counter(), 0x208);

    let mut cpu = machine_with(&[0x60, 0x05, 0x61, 0x05, 0x90, 0x10]);
    steps(&mut cpu, 3);
    assert_eq!(cpu.get_program_counter(), 0x206);
}

#[test]
fn jumps() {
    let mut cpu = machine_with(&[0x13, 0x45]);
    steps(&mut cpu, 1);
    assert_eq!(cpu.get_program_counter(), 0x345);

    let mut cpu = machine_with(&[0x60, 0x10, 0xB3, 0x00]);
    steps(&mut cpu, 2);
    assert_eq!(cpu.get_program_counter(), 0x310);

    let mut cpu = machine_with(&[0x11, 0x00]);
    steps(&mut cpu, 1);
    assert_eq!(cpu.get_program_counter(), 0x100);

    let mut cpu = machine_with(&[0x10, 0x00]);
    steps(&mut cpu, 1);
    assert_eq!(cpu.get_program_counter(), 0x000);
}

#[test]
fn machine_code_routine_call_is_ignored() {
    let mut cpu = machine_with(&[0x03, 0x00, 0x01, 0x00]);
    steps(&mut cpu, 2);
    assert_eq!(cpu.get_program_counter(), 0x204);
}

#[test]
fn zero_opcode_only_advances() {
    let mut cpu = Chip8CPU::initialize();
    steps(&mut cpu, 3);
    assert_eq!(cpu.get_program_counter(), 0x206);
    for r in 0..16 {
        assert_eq!(cpu.get_register_value(r), 0);
    }
}

#[test]
fn call_then_return() {
    // 0x200: call 0x206; 0x202: V1 = 1; 0x206: V0 = 7; 0x208: return
    let mut cpu = machine_with(&[0x22, 0x06, 0x61, 0x01, 0x00, 0x00, 0x60, 0x07, 0x00, 0xEE]);
    steps(&mut cpu, 1);
    assert_eq!(cpu.get_program_counter(), 0x206);
    steps(&mut cpu, 2);
    assert_eq!(cpu.get_program_counter(), 0x202);
    assert_eq!(cpu.get_register_value(0), 7);
    steps(&mut cpu, 1);
    assert_eq!(cpu.get_register_value(1), 1);
}

#[test]
fn return_with_empty_stack_fails() {
    let mut cpu = machine_with(&[0x00, 0xEE]);
    assert_eq!(cpu.run_with_random_byte(0), Err(Chip8Error::StackUnderflow));
    assert_eq!(cpu.get_program_counter(), 0x200);
}

#[test]
fn program_counter_past_memory_fails() {
    let mut cpu = machine_with(&[0x1F, 0xFF]);
    steps(&mut cpu, 1);
    assert_eq!(cpu.get_program_counter(), 0xFFF);
    assert_eq!(cpu.run_with_random_byte(0), Err(Chip8Error::ProgramCounterOutOfBounds));
}

#[test]
fn index_register_add() {
    let mut cpu = machine_with(&[0xA1, 0x00, 0x60, 0x20, 0xF0, 0x1E]);
    steps(&mut cpu, 3);
    assert_eq!(cpu.get_index_register(), 0x120);
}

#[test]
fn random_byte_is_masked() {
    let mut cpu = machine_with(&[0xC2, 0x0F]);
    assert_eq!(cpu.run_with_random_byte(0xAB), Ok(StepStatus::Running));
    assert_eq!(cpu.get_register_value(2), 0x0B);

    let mut cpu = machine_with(&[0xC2, 0x00]);
    assert_eq!(cpu.run(), Ok(StepStatus::Running));
    assert_eq!(cpu.get_register_value(2), 0);
    assert_eq!(cpu.get_program_counter(), 0x202);
}

#[test]
fn draw_twice_restores_screen() {
    // sprite byte 0xF0 at 0x300; draw it at (0, 0) twice
    let mut cpu = machine_with(&[0x60, 0xF0, 0xA3, 0x00, 0xF0, 0x55, 0x60, 0x00, 0xD0, 0x01, 0xD0, 0x01]);
    steps(&mut cpu, 5);
    let screen = cpu.get_display_data().to_vec();
    assert_eq!(&screen[0..8], &[1, 1, 1, 1, 0, 0, 0, 0]);
    assert_eq!(screen.iter().filter(|&&p| p == 1).count(), 4);
    assert_eq!(cpu.get_register_value(15), 0);
    steps(&mut cpu, 1);
    assert!(cpu.get_display_data().iter().all(|&p| p == 0));
    assert_eq!(cpu.get_register_value(15), 1);
}

#[test]
fn draw_clips_at_right_and_bottom_edges() {
    // two sprite rows of 0xFF at 0x300, drawn at (60, 31)
    let mut cpu = machine_with(&[
        0x60, 0xFF, 0x61, 0xFF, 0xA3, 0x00, 0xF1, 0x55, 0x60, 60, 0x61, 31, 0xD0, 0x12,
    ]);
    steps(&mut cpu, 7);
    let screen = cpu.get_display_data();
    assert_eq!(screen.iter().filter(|&&p| p == 1).count(), 4);
    for x in 60..64 {
        assert_eq!(screen[x + 31 * 64], 1);
    }
}

#[test]
fn draw_wraps_start_position() {
    // V0 = 66, V1 = 33: the sprite starts at (2, 1)
    let mut cpu = machine_with(&[0x60, 0x80, 0xA3, 0x00, 0xF0, 0x55, 0x60, 66, 0x61, 33, 0xD0, 0x11]);
    steps(&mut cpu, 6);
    let screen = cpu.get_display_data();
    assert_eq!(screen[2 + 64], 1);
    assert_eq!(screen.iter().filter(|&&p| p == 1).count(), 1);
}

#[test]
fn draw_reading_past_memory_fails() {
    let mut cpu = machine_with(&[0xAF, 0xFF, 0xD0, 0x02]);
    steps(&mut cpu, 1);
    assert_eq!(cpu.run_with_random_byte(0), Err(Chip8Error::MemoryOutOfBounds));
    assert!(cpu.get_display_data().iter().all(|&p| p == 0));
}

#[test]
fn draw_clipped_rows_are_not_read() {
    // at row 31 only the first of two rows is drawn, so I = 0xFFF is fine
    let mut cpu = machine_with(&[0xAF, 0xFF, 0x61, 31, 0xD0, 0x12]);
    steps(&mut cpu, 3);
}

#[test]
fn clear_screen_zeroes_framebuffer() {
    let mut cpu = machine_with(&[0x60, 0xFF, 0xA3, 0x00, 0xF0, 0x55, 0xD0, 0x01, 0x00, 0xE0]);
    steps(&mut cpu, 4);
    assert!(cpu.get_display_data().iter().any(|&p| p == 1));
    steps(&mut cpu, 1);
    assert!(cpu.get_display_data().iter().all(|&p| p == 0));
}

#[test]
fn host_key_layout() {
    assert_eq!(map_hex_value_to_key(0x1), HostKey::Key1);
    assert_eq!(map_hex_value_to_key(0xC), HostKey::Key4);
    assert_eq!(map_hex_value_to_key(0x4), HostKey::Q);
    assert_eq!(map_hex_value_to_key(0xD), HostKey::R);
    assert_eq!(map_hex_value_to_key(0x7), HostKey::A);
    assert_eq!(map_hex_value_to_key(0xE), HostKey::F);
    assert_eq!(map_hex_value_to_key(0xA), HostKey::Z);
    assert_eq!(map_hex_value_to_key(0x0), HostKey::X);
    assert_eq!(map_hex_value_to_key(0xB), HostKey::C);
    assert_eq!(map_hex_value_to_key(0xF), HostKey::V);
    assert_eq!(map_hex_value_to_key(0x20), HostKey::V);
}

#[test]
fn pixel_colours() {
    assert_eq!(from_u8_rgb(0x12, 0x34, 0x56), 0x123456);
    assert_eq!(get_pixel_state(0), 0);
    assert_eq!(get_pixel_state(1), 0xFFFFFF);
}
