use chip8::cpu::{decode, Cpu, CpuError, Instruction, Mode, Status};
use chip8::input::HostKey;

fn machine(rom: &[u8]) -> Cpu {
    let mut cpu = Cpu::new();
    cpu.initialize();
    cpu.load(rom.to_vec());
    cpu
}

fn run(rom: &[u8], steps: usize) -> Cpu {
    let mut cpu = machine(rom);
    for _ in 0..steps {
        cpu.step_with(0).unwrap();
    }
    cpu
}

#[test]
fn add_without_carry() {
    let mut cpu = machine(&[0x60, 0x0A, 0x61, 0x05, 0x80, 0x14]);
    for _ in 0..3 {
        cpu.tick().unwrap();
    }
    assert_eq!(cpu.register(0), 15);
    assert_eq!(cpu.register(0xF), 0);
    assert_eq!(cpu.pc(), 0x206);
}

#[test]
fn add_with_carry() {
    // VF = 255; V0 = 1; V0 = V0 + VF (opcode 80F4)
    let mut cpu = machine(&[0x6F, 0xFF, 0x60, 0x01, 0x80, 0xF4]);
    for _ in 0..3 {
        cpu.tick().unwrap();
    }
    assert_eq!(cpu.register(0), 0);
    assert_eq!(cpu.register(0xF), 1);
    assert_eq!(cpu.pc(), 0x206);
}

#[test]
fn add_register_to_itself() {
    // opcode 8004 names V0 twice: V0 = V0 + V0, no carry
    let mut cpu = machine(&[0x6F, 0xFF, 0x60, 0x01, 0x80, 0x04]);
    for _ in 0..3 {
        cpu.tick().unwrap();
    }
    assert_eq!(cpu.register(0), 2);
    assert_eq!(cpu.register(0xF), 0);
    assert_eq!(cpu.pc(), 0x206);
}

#[test]
fn load_then_add_doubles() {
    let cpu = run(&[0x63, 0x90, 0x73, 0x90], 2);
    assert_eq!(cpu.register(3), 0x20);
    let cpu = run(&[0x6A, 0x7F, 0x7A, 0x7F], 2);
    assert_eq!(cpu.register(0xA), 0xFE);
}

#[test]
fn add_carry_table() {
    let mut cpu = machine(&[]);
    for a in 0..=255u8 {
        for b in 0..=255u8 {
            cpu.load(vec![0x62, a, 0x65, b, 0x82, 0x54]);
            for _ in 0..3 {
                cpu.step_with(0).unwrap();
            }
            let sum = a as u16 + b as u16;
            assert_eq!(cpu.register(0xF), if sum > 255 { 1 } else { 0 });
            assert_eq!(cpu.register(2), (sum % 256) as u8);
        }
    }
}

#[test]
fn clear_draw_clear_is_blank() {
    // glyph 0 drawn at (3, 4) between two clears
    let cpu = run(&[0x00, 0xE0, 0x60, 0x03, 0x61, 0x04, 0xA0, 0x00, 0xD0, 0x15, 0x00, 0xE0], 6);
    assert!(cpu.framebuffer().screen().iter().all(|&p| p == 0));
}

#[test]
fn draw_sets_pixels_and_collision() {
    let mut cpu = run(&[0x60, 0x03, 0x61, 0x04, 0xA0, 0x00, 0xD0, 0x15, 0xD0, 0x15], 4);
    let fb = cpu.framebuffer();
    // top row of glyph 0 is 0xF0
    for x in 3..7 {
        assert_eq!(fb.pixel(x, 4), 1);
    }
    assert_eq!(fb.pixel(7, 4), 0);
    assert_eq!(fb.pixel(4, 5), 0);
    assert_eq!(cpu.register(0xF), 0);
    cpu.step_with(0).unwrap();
    assert_eq!(cpu.register(0xF), 1);
    assert!(cpu.framebuffer().screen().iter().all(|&p| p == 0));
}

#[test]
fn call_then_return() {
    let mut rom = vec![0x23, 0x00];
    rom.resize(0x100, 0);
    rom.extend_from_slice(&[0x00, 0xEE]);
    let mut cpu = machine(&rom);
    cpu.step_with(0).unwrap();
    assert_eq!(cpu.pc(), 0x300);
    assert_eq!(cpu.stack_depth(), 1);
    cpu.step_with(0).unwrap();
    assert_eq!(cpu.pc(), 0x202);
    assert_eq!(cpu.stack_depth(), 0);
}

#[test]
fn wait_for_key() {
    let mut cpu = run(&[0x63, 0x07, 0xF5, 0x0A], 1);
    assert_eq!(cpu.step_with(0), Ok(Status::Ran(Instruction::WaitKey(5))));
    for _ in 0..5 {
        assert_eq!(cpu.step_with(0), Ok(Status::Waited));
        assert_eq!(cpu.pc(), 0x202);
        assert_eq!(cpu.register(5), 0);
        assert_eq!(cpu.register(3), 7);
    }
    assert_eq!(cpu.mode(), Mode::AwaitingKey(5));
    cpu.set_key(0xB, true);
    cpu.step_with(0).unwrap();
    assert_eq!(cpu.register(5), 0xB);
    assert_eq!(cpu.pc(), 0x204);
    assert_eq!(cpu.mode(), Mode::Running);
}

#[test]
fn wait_for_key_already_down() {
    let mut cpu = machine(&[0xF2, 0x0A]);
    cpu.process_key(HostKey::V, true);
    cpu.process_key(HostKey::R, true);
    assert_eq!(cpu.step_with(0), Ok(Status::Ran(Instruction::WaitKey(2))));
    assert_eq!(cpu.register(2), 0xD);
    assert_eq!(cpu.pc(), 0x202);
}

#[test]
fn return_on_empty_stack() {
    let mut cpu = machine(&[0x00, 0xEE]);
    assert_eq!(cpu.step_with(0), Err(CpuError::StackUnderflow));
    assert_eq!(cpu.pc(), 0x200);
}

#[test]
fn call_overflow() {
    let mut cpu = machine(&[0x22, 0x00]);
    for _ in 0..16 {
        cpu.step_with(0).unwrap();
    }
    assert_eq!(cpu.stack_depth(), 16);
    assert_eq!(cpu.step_with(0), Err(CpuError::StackOverflow));
    assert_eq!(cpu.stack_depth(), 16);
}

#[test]
fn fetch_past_memory() {
    let mut cpu = run(&[0x1F, 0xFF], 1);
    assert_eq!(cpu.pc(), 0xFFF);
    assert_eq!(cpu.step_with(0), Err(CpuError::OutOfBounds));
}

#[test]
fn draw_past_memory() {
    let mut cpu = run(&[0xAF, 0xFF, 0xD0, 0x02], 1);
    assert_eq!(cpu.step_with(0), Err(CpuError::OutOfBounds));
    assert_eq!(cpu.pc(), 0x202);
    let mut cpu = run(&[0xAF, 0xFF, 0xD0, 0x01], 1);
    assert!(cpu.step_with(0).is_ok());
}

#[test]
fn store_past_memory() {
    let mut cpu = run(&[0xAF, 0xFE, 0xF2, 0x55], 1);
    assert_eq!(cpu.step_with(0), Err(CpuError::OutOfBounds));
    let mut cpu = run(&[0xAF, 0xFE, 0xF0, 0x33], 1);
    assert_eq!(cpu.step_with(0), Err(CpuError::OutOfBounds));
}

#[test]
fn unknown_opcode_advances() {
    let mut cpu = machine(&[0x01, 0x23, 0x5A, 0xB1]);
    assert_eq!(cpu.step_with(0), Ok(Status::Ran(Instruction::Unknown(0x0123))));
    assert_eq!(cpu.pc(), 0x202);
    assert_eq!(cpu.step_with(0), Ok(Status::Ran(Instruction::Unknown(0x5AB1))));
    assert_eq!(cpu.pc(), 0x204);
}

#[test]
fn decode_forms() {
    assert_eq!(decode(0x00E0), Instruction::Clear);
    assert_eq!(decode(0x1ABC), Instruction::Jump(0xABC));
    assert_eq!(decode(0x8AB6), Instruction::ShiftRight(0xA));
    assert_eq!(decode(0xD12F), Instruction::Draw(1, 2, 0xF));
    assert_eq!(decode(0xE3A1), Instruction::SkipNoKey(3));
    assert_eq!(decode(0xF765), Instruction::LoadRegs(7));
    assert_eq!(decode(0xF766), Instruction::Unknown(0xF766));
}

#[test]
fn subtract_and_borrow() {
    let cpu = run(&[0x60, 0x05, 0x61, 0x07, 0x80, 0x15], 3);
    assert_eq!(cpu.register(0), 254);
    assert_eq!(cpu.register(0xF), 0);
    let cpu = run(&[0x60, 0x07, 0x61, 0x07, 0x80, 0x15], 3);
    assert_eq!(cpu.register(0), 0);
    assert_eq!(cpu.register(0xF), 1);
    let cpu = run(&[0x60, 0x05, 0x61, 0x07, 0x80, 0x17], 3);
    assert_eq!(cpu.register(0), 2);
    assert_eq!(cpu.register(0xF), 1);
}

#[test]
fn shifts_set_flag_bit() {
    let cpu = run(&[0x60, 0x81, 0x80, 0x06], 2);
    assert_eq!(cpu.register(0), 0x40);
    assert_eq!(cpu.register(0xF), 1);
    let cpu = run(&[0x60, 0x81, 0x80, 0x0E], 2);
    assert_eq!(cpu.register(0), 0x02);
    assert_eq!(cpu.register(0xF), 1);
    let cpu = run(&[0x60, 0x40, 0x80, 0x0E], 2);
    assert_eq!(cpu.register(0), 0x80);
    assert_eq!(cpu.register(0xF), 0);
}

#[test]
fn bitwise_ops() {
    let cpu = run(&[0x60, 0xC3, 0x61, 0x5A, 0x82, 0x00, 0x82, 0x11, 0x83, 0x00, 0x83, 0x12, 0x84, 0x00, 0x84, 0x13], 8);
    assert_eq!(cpu.register(2), 0xDB);
    assert_eq!(cpu.register(3), 0x42);
    assert_eq!(cpu.register(4), 0x99);
}

#[test]
fn skips() {
    let cpu = run(&[0x60, 0x05, 0x30, 0x05], 2);
    assert_eq!(cpu.pc(), 0x206);
    let cpu = run(&[0x60, 0x05, 0x40, 0x05], 2);
    assert_eq!(cpu.pc(), 0x204);
    let cpu = run(&[0x60, 0x05, 0x61, 0x05, 0x50, 0x10], 3);
    assert_eq!(cpu.pc(), 0x208);
    let cpu = run(&[0x60, 0x05, 0x61, 0x05, 0x90, 0x10], 3);
    assert_eq!(cpu.pc(), 0x206);
}

#[test]
fn key_skips() {
    let mut cpu = run(&[0x60, 0x08, 0xE0, 0x9E, 0x00, 0x00, 0xE0, 0xA1], 1);
    cpu.set_key(8, true);
    cpu.step_with(0).unwrap();
    assert_eq!(cpu.pc(), 0x206);
    cpu.step_with(0).unwrap();
    assert_eq!(cpu.pc(), 0x208);
    let mut cpu = run(&[0x60, 0x20, 0xE0, 0xA1], 1);
    cpu.step_with(0).unwrap();
    assert_eq!(cpu.pc(), 0x206);
}

#[test]
fn jumps() {
    let cpu = run(&[0x60, 0x10, 0xB3, 0x00], 2);
    assert_eq!(cpu.pc(), 0x310);
}

#[test]
fn index_register() {
    let cpu = run(&[0xA1, 0x23, 0x60, 0x10, 0xF0, 0x1E], 3);
    assert_eq!(cpu.index(), 0x133);
    let cpu = run(&[0x60, 0x0C, 0xF0, 0x29], 2);
    assert_eq!(cpu.index(), 60);
    assert_eq!(cpu.memory(60), 0xF0);
    assert_eq!(cpu.memory(61), 0x80);
}

#[test]
fn bcd() {
    let cpu = run(&[0x60, 0xFE, 0xA3, 0x00, 0xF0, 0x33], 3);
    assert_eq!(cpu.memory(0x300), 2);
    assert_eq!(cpu.memory(0x301), 5);
    assert_eq!(cpu.memory(0x302), 4);
    assert_eq!(cpu.pc(), 0x206);
}

#[test]
fn store_and_load_registers() {
    let cpu = run(&[0x60, 0x11, 0x61, 0x22, 0x62, 0x33, 0xA3, 0x00, 0xF1, 0x55], 5);
    assert_eq!(cpu.memory(0x300), 0x11);
    assert_eq!(cpu.memory(0x301), 0x22);
    assert_eq!(cpu.memory(0x302), 0);
    assert_eq!(cpu.pc(), 0x20A);
    let cpu = run(&[0xA0, 0x00, 0xF2, 0x65], 2);
    assert_eq!(cpu.register(0), 0xF0);
    assert_eq!(cpu.register(1), 0x90);
    assert_eq!(cpu.register(2), 0x90);
    assert_eq!(cpu.register(3), 0);
    assert_eq!(cpu.pc(), 0x204);
}

#[test]
fn timers() {
    let mut cpu = run(&[0x60, 0x02, 0xF0, 0x15, 0xF0, 0x18, 0xF1, 0x07], 3);
    cpu.tick_timers();
    assert_eq!(cpu.delay_timer(), 1);
    assert_eq!(cpu.sound_timer(), 1);
    cpu.tick_timers();
    cpu.tick_timers();
    assert_eq!(cpu.delay_timer(), 0);
    assert_eq!(cpu.sound_timer(), 0);
    let mut cpu = run(&[0x60, 0x09, 0xF0, 0x15, 0xF1, 0x07], 2);
    cpu.tick_timers();
    cpu.step_with(0).unwrap();
    assert_eq!(cpu.register(1), 8);
}

#[test]
fn random_is_masked() {
    let mut cpu = machine(&[0xC4, 0xF0]);
    cpu.step_with(0xAB).unwrap();
    assert_eq!(cpu.register(4), 0xA0);
    let mut cpu = machine(&[0xC4, 0x00]);
    cpu.tick().unwrap();
    assert_eq!(cpu.register(4), 0);
}

#[test]
fn font_and_fresh_state() {
    let cpu = Cpu::new();
    assert_eq!(cpu.pc(), 0x200);
    assert_eq!(cpu.memory(0), 0);
    let cpu = machine(&[]);
    let zero = [0xF0, 0x90, 0x90, 0x90, 0xF0];
    for k in 0..5u16 {
        assert_eq!(cpu.memory(k), zero[k as usize]);
    }
    assert_eq!(cpu.memory(79), 0x80);
    assert_eq!(cpu.memory(80), 0);
}

#[test]
fn load_truncates() {
    let mut cpu = Cpu::new();
    let dropped = cpu.load(vec![0x7E; 4000]);
    assert_eq!(dropped, 4000 - 3584);
    assert_eq!(cpu.memory(0xFFF), 0x7E);
    assert_eq!(cpu.memory(0x1FF), 0);
    assert_eq!(cpu.load(vec![1, 2]), 0);
}
