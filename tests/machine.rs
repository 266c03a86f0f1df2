use chip8::cpu::{Cpu, CpuError, CYCLES_PER_FRAME, PROGRAM_START};
use chip8::display::Display;
use chip8::keyboard::{KeyEvent, KeyInput, Keyboard};

fn machine(program: &[u8]) -> Cpu {
    let mut cpu = Cpu::new(Display::new(), Keyboard::new());
    cpu.read_sprites_into_memory();
    cpu.load_rom(&program.to_vec()).unwrap();
    cpu
}

fn run_steps(cpu: &mut Cpu, n: usize) {
    for _ in 0..n {
        cpu.step(0).unwrap();
    }
}

fn exec(cpu: &mut Cpu, op: u16) {
    cpu.exec_instruction_with(op, 0, 0).unwrap();
}

fn all_off(d: &Display) -> bool {
    (0..32u16).all(|y| (0..64u16).all(|x| !d.get_block(x, y)))
}

#[test]
fn new_machine_starts_at_program_start() {
    let cpu = Cpu::new(Display::new(), Keyboard::new());
    assert_eq!(cpu.pc(), PROGRAM_START as u16);
    assert_eq!(cpu.index_register(), 0);
    assert_eq!(cpu.speed(), CYCLES_PER_FRAME);
    assert_eq!(CYCLES_PER_FRAME, 11);
    assert!(cpu.call_stack().is_empty());
    assert!(!cpu.is_paused());
    assert!(!cpu.should_quit());
    for r in 0..16 {
        assert_eq!(cpu.register(r), 0);
    }
}

#[test]
fn font_is_loaded_at_zero() {
    let cpu = machine(&[]);
    assert_eq!(cpu.memory_at(0), 0xF0);
    assert_eq!(cpu.memory_at(5), 0x20);
    assert_eq!(cpu.memory_at(0x4F), 0x80);
    assert_eq!(cpu.memory_at(0x50), 0);
}

#[test]
fn load_rom_copies_program() {
    let cpu = machine(&[0x12, 0x34, 0x56]);
    assert_eq!(cpu.memory_at(0x200), 0x12);
    assert_eq!(cpu.memory_at(0x202), 0x56);
    assert_eq!(cpu.memory_at(0x203), 0);
}

#[test]
fn load_rom_rejects_oversized_program() {
    let mut cpu = Cpu::new(Display::new(), Keyboard::new());
    assert_eq!(cpu.load_rom(&vec![1u8; 4096 - 0x200 + 1]), Err(CpuError::RomTooLarge));
    assert_eq!(cpu.memory_at(0x200), 0);
    assert_eq!(cpu.load_rom(&vec![7u8; 4096 - 0x200]), Ok(()));
    assert_eq!(cpu.memory_at(4095), 7);
}

#[test]
fn add_sets_carry_on_overflow() {
    let mut cpu = machine(&[]);
    exec(&mut cpu, 0x61FF);
    exec(&mut cpu, 0x6201);
    exec(&mut cpu, 0x8124);
    assert_eq!(cpu.register(1), 0);
    assert_eq!(cpu.register(0xF), 1);
    exec(&mut cpu, 0x61FF);
    exec(&mut cpu, 0x6200);
    exec(&mut cpu, 0x8124);
    assert_eq!(cpu.register(1), 0xFF);
    assert_eq!(cpu.register(0xF), 0);
}

#[test]
fn sub_sets_flag_only_when_strictly_greater() {
    let mut cpu = machine(&[]);
    exec(&mut cpu, 0x6105);
    exec(&mut cpu, 0x6203);
    exec(&mut cpu, 0x8125);
    assert_eq!(cpu.register(1), 2);
    assert_eq!(cpu.register(0xF), 1);
    exec(&mut cpu, 0x6103);
    exec(&mut cpu, 0x6205);
    exec(&mut cpu, 0x8125);
    assert_eq!(cpu.register(1), 254);
    assert_eq!(cpu.register(0xF), 0);
    exec(&mut cpu, 0x6104);
    exec(&mut cpu, 0x6204);
    exec(&mut cpu, 0x8125);
    assert_eq!(cpu.register(1), 0);
    assert_eq!(cpu.register(0xF), 0);
}

#[test]
fn subn_subtracts_vx_from_vy() {
    let mut cpu = machine(&[]);
    exec(&mut cpu, 0x6103);
    exec(&mut cpu, 0x6205);
    exec(&mut cpu, 0x8127);
    assert_eq!(cpu.register(1), 2);
    assert_eq!(cpu.register(0xF), 1);
}

#[test]
fn shifts_report_the_bit_shifted_out() {
    let mut cpu = machine(&[]);
    exec(&mut cpu, 0x6181);
    exec(&mut cpu, 0x8106);
    assert_eq!(cpu.register(1), 0x40);
    assert_eq!(cpu.register(0xF), 1);
    exec(&mut cpu, 0x6181);
    exec(&mut cpu, 0x810E);
    assert_eq!(cpu.register(1), 0x02);
    assert_eq!(cpu.register(0xF), 0x80);
    exec(&mut cpu, 0x6140);
    exec(&mut cpu, 0x810E);
    assert_eq!(cpu.register(1), 0x80);
    assert_eq!(cpu.register(0xF), 0);
}

#[test]
fn logic_and_load_instructions() {
    let mut cpu = machine(&[]);
    exec(&mut cpu, 0x61F0);
    exec(&mut cpu, 0x623C);
    exec(&mut cpu, 0x8121);
    assert_eq!(cpu.register(1), 0xFC);
    exec(&mut cpu, 0x8122);
    assert_eq!(cpu.register(1), 0x3C);
    exec(&mut cpu, 0x8123);
    assert_eq!(cpu.register(1), 0x00);
    exec(&mut cpu, 0x8120);
    assert_eq!(cpu.register(1), 0x3C);
    exec(&mut cpu, 0x71F0);
    assert_eq!(cpu.register(1), 0x2C);
    assert_eq!(cpu.register(0xF), 0);
}

#[test]
fn jumps_and_skips() {
    let mut cpu = machine(&[]);
    exec(&mut cpu, 0x1ABC);
    assert_eq!(cpu.pc(), 0xABC);
    exec(&mut cpu, 0x6005);
    exec(&mut cpu, 0xB300);
    assert_eq!(cpu.pc(), 0x305);
    exec(&mut cpu, 0x3005);
    assert_eq!(cpu.pc(), 0x309);
    exec(&mut cpu, 0x4005);
    assert_eq!(cpu.pc(), 0x30B);
    exec(&mut cpu, 0x6105);
    exec(&mut cpu, 0x5010);
    assert_eq!(cpu.pc(), 0x311);
    exec(&mut cpu, 0x9010);
    assert_eq!(cpu.pc(), 0x313);
}

#[test]
fn call_then_return_resumes_after_call() {
    let mut cpu = machine(&[0x23, 0x00]);
    cpu.step(0).unwrap();
    assert_eq!(cpu.pc(), 0x300);
    assert_eq!(cpu.call_stack(), &vec![0x202u16]);
    exec(&mut cpu, 0x00EE);
    assert_eq!(cpu.pc(), 0x202);
    assert!(cpu.call_stack().is_empty());
}

#[test]
fn return_on_empty_stack_is_fatal() {
    let mut cpu = machine(&[]);
    assert_eq!(cpu.exec_instruction_with(0x00EE, 0, 0), Err(CpuError::StackUnderflow));
    assert_eq!(cpu.pc(), 0x200);
}

#[test]
fn unknown_opcode_is_fatal() {
    let mut cpu = machine(&[]);
    assert_eq!(cpu.exec_instruction_with(0xFFFF, 0, 0), Err(CpuError::UnknownOpcode(0xFFFF)));
    assert_eq!(cpu.exec_instruction_with(0x8128, 0, 0), Err(CpuError::UnknownOpcode(0x8128)));
    assert_eq!(cpu.exec_instruction_with(0xE1FF, 0, 0), Err(CpuError::UnknownOpcode(0xE1FF)));
    assert_eq!(cpu.pc(), 0x200);
    assert_eq!(cpu.exec_instruction_with(0x5001, 0, 0), Ok(()));
    assert_eq!(cpu.pc(), 0x204);
    assert_eq!(cpu.exec_instruction_with(0x0123, 0, 0), Ok(()));
    assert_eq!(cpu.pc(), 0x206);
}

#[test]
fn fetching_past_memory_is_fatal() {
    let mut cpu = machine(&[0x1F, 0xFF]);
    cpu.step(0).unwrap();
    assert_eq!(cpu.pc(), 0xFFF);
    assert_eq!(cpu.step(0), Err(CpuError::MemoryOutOfBounds));
}

#[test]
fn random_byte_is_masked() {
    let mut cpu = machine(&[]);
    cpu.exec_instruction_with(0xC10F, 0, 0xAB).unwrap();
    assert_eq!(cpu.register(1), 0x0B);
    exec(&mut cpu, 0x62FF);
    cpu.exec_instruction(0xC200, 0).unwrap();
    assert_eq!(cpu.register(2), 0);
    cpu.exec_instruction(0xC30F, 0).unwrap();
    assert_eq!(cpu.register(3) & 0xF0, 0);
}

#[test]
fn bcd_and_register_transfer() {
    let mut cpu = machine(&[]);
    exec(&mut cpu, 0x60FE);
    exec(&mut cpu, 0xA300);
    exec(&mut cpu, 0xF033);
    assert_eq!(cpu.memory_at(0x300), 2);
    assert_eq!(cpu.memory_at(0x301), 5);
    assert_eq!(cpu.memory_at(0x302), 4);
    exec(&mut cpu, 0x6111);
    exec(&mut cpu, 0x6222);
    exec(&mut cpu, 0xA400);
    exec(&mut cpu, 0xF155);
    assert_eq!(cpu.memory_at(0x400), 0xFE);
    assert_eq!(cpu.memory_at(0x401), 0x11);
    assert_eq!(cpu.memory_at(0x402), 0);
    exec(&mut cpu, 0xA300);
    exec(&mut cpu, 0xF265);
    assert_eq!(cpu.register(0), 2);
    assert_eq!(cpu.register(1), 5);
    assert_eq!(cpu.register(2), 4);
}

#[test]
fn index_register_instructions() {
    let mut cpu = machine(&[]);
    exec(&mut cpu, 0x600A);
    exec(&mut cpu, 0xF029);
    assert_eq!(cpu.index_register(), 50);
    exec(&mut cpu, 0xF01E);
    assert_eq!(cpu.index_register(), 60);
    exec(&mut cpu, 0xAFFF);
    exec(&mut cpu, 0xF01E);
    assert_eq!(cpu.index_register(), 0x1009);
}

#[test]
fn memory_writes_past_the_end_are_fatal() {
    let mut cpu = machine(&[]);
    exec(&mut cpu, 0xAFFE);
    assert_eq!(cpu.exec_instruction_with(0xF033, 0, 0), Err(CpuError::MemoryOutOfBounds));
    assert_eq!(cpu.exec_instruction_with(0xF255, 0, 0), Err(CpuError::MemoryOutOfBounds));
    assert_eq!(cpu.exec_instruction_with(0xF155, 0, 0), Ok(()));
}

#[test]
fn timers_count_down_and_stop_at_zero() {
    let mut cpu = machine(&[]);
    exec(&mut cpu, 0x6002);
    exec(&mut cpu, 0xF015);
    exec(&mut cpu, 0xF018);
    assert!(!cpu.end_frame());
    assert_eq!(cpu.delay_timer(), 1);
    assert_eq!(cpu.sound_timer(), 1);
    cpu.end_frame();
    cpu.end_frame();
    assert_eq!(cpu.delay_timer(), 0);
    assert_eq!(cpu.sound_timer(), 0);
    exec(&mut cpu, 0xF107);
    assert_eq!(cpu.register(1), 0);
}

#[test]
fn timers_freeze_while_paused() {
    let mut cpu = machine(&[0x60, 0x05, 0xF0, 0x15]);
    run_steps(&mut cpu, 2);
    assert_eq!(cpu.delay_timer(), 5);
    cpu.push_key_event(KeyEvent { key: KeyInput::Char(' '), timestamp: 1 });
    cpu.step(1).unwrap();
    assert!(cpu.is_paused());
    assert!(cpu.end_frame());
    assert_eq!(cpu.delay_timer(), 5);
    cpu.push_key_event(KeyEvent { key: KeyInput::Char(' '), timestamp: 2 });
    cpu.step(2).unwrap();
    assert!(!cpu.is_paused());
    assert!(!cpu.end_frame());
    assert_eq!(cpu.delay_timer(), 4);
}

#[test]
fn program_adds_two_registers() {
    let mut cpu = machine(&[0x6A, 0x02, 0x6B, 0x03, 0x8A, 0xB4]);
    run_steps(&mut cpu, 2);
    assert_eq!(cpu.register(0xA), 2);
    assert_eq!(cpu.register(0xB), 3);
    run_steps(&mut cpu, 1);
    assert_eq!(cpu.register(0xA), 5);
    assert_eq!(cpu.register(0xF), 0);
}

#[test]
fn draw_then_clear_leaves_blank_display() {
    let mut cpu = machine(&[0x00, 0xE0, 0xA2, 0x08, 0xD0, 0x01, 0x00, 0xE0, 0x80]);
    run_steps(&mut cpu, 3);
    assert!(cpu.display().get_block(0, 0));
    assert!(!cpu.display().get_block(1, 0));
    assert_eq!(cpu.register(0xF), 0);
    run_steps(&mut cpu, 1);
    assert!(all_off(cpu.display()));
    assert_eq!(cpu.register(0xF), 0);
}

#[test]
fn drawing_twice_restores_display_and_reports_collision() {
    let mut cpu = machine(&[0xA2, 0x08, 0xD0, 0x02, 0xD0, 0x02, 0x00, 0x00, 0xC3, 0x81]);
    run_steps(&mut cpu, 2);
    assert!(cpu.display().get_block(0, 0));
    assert!(cpu.display().get_block(1, 0));
    assert!(!cpu.display().get_block(2, 0));
    assert!(cpu.display().get_block(0, 1));
    assert!(cpu.display().get_block(7, 1));
    assert_eq!(cpu.register(0xF), 0);
    run_steps(&mut cpu, 1);
    assert!(all_off(cpu.display()));
    assert_eq!(cpu.register(0xF), 1);
}

#[test]
fn sprites_are_clipped_at_the_edges() {
    let mut cpu = machine(&[]);
    cpu.load_rom(&vec![0xFF, 0xFF]).unwrap();
    exec(&mut cpu, 0x603E);
    exec(&mut cpu, 0x615F);
    exec(&mut cpu, 0xA200);
    exec(&mut cpu, 0xD012);
    assert!(cpu.display().get_block(62, 31));
    assert!(cpu.display().get_block(63, 31));
    assert!(!cpu.display().get_block(0, 31));
    assert!(!cpu.display().get_block(62, 0));
    assert!(!cpu.display().get_block(0, 0));
}

#[test]
fn wait_for_key_stores_pressed_key() {
    let mut cpu = machine(&[0xF3, 0x0A, 0x60, 0x01]);
    cpu.step(100).unwrap();
    assert!(cpu.is_waiting_for_key());
    assert!(cpu.is_paused());
    cpu.push_key_event(KeyEvent { key: KeyInput::Char('a'), timestamp: 99 });
    cpu.step(101).unwrap();
    assert!(cpu.is_waiting_for_key());
    cpu.push_key_event(KeyEvent { key: KeyInput::Char('a'), timestamp: 102 });
    cpu.step(103).unwrap();
    assert!(!cpu.is_waiting_for_key());
    assert!(!cpu.is_paused());
    assert_eq!(cpu.register(3), 7);
    assert_eq!(cpu.register(0), 1);
    assert_eq!(cpu.pc(), 0x204);
}

#[test]
fn quit_interrupts_a_wait() {
    let mut cpu = machine(&[0xF3, 0x0A]);
    cpu.step(10).unwrap();
    cpu.push_key_event(KeyEvent { key: KeyInput::Esc, timestamp: 5 });
    cpu.step(11).unwrap();
    assert!(cpu.should_quit());
}

#[test]
fn skip_if_key_held_within_window() {
    let mut cpu = machine(&[]);
    exec(&mut cpu, 0x6107);
    cpu.push_key_event(KeyEvent { key: KeyInput::Char('a'), timestamp: 1000 });
    cpu.push_key_event(KeyEvent { key: KeyInput::Char('p'), timestamp: 1000 });
    let pc = cpu.pc();
    cpu.step(1000).unwrap();
    assert_eq!(cpu.pc(), pc + 2);
    cpu.exec_instruction_with(0xE19E, 1099, 0).unwrap();
    assert_eq!(cpu.pc(), pc + 6);
    cpu.exec_instruction_with(0xE19E, 1100, 0).unwrap();
    assert_eq!(cpu.pc(), pc + 8);
    cpu.exec_instruction_with(0xE1A1, 1100, 0).unwrap();
    assert_eq!(cpu.pc(), pc + 12);
}
