//! The machine state and the executor: loading, fetching, decoding, and
//! the semantics of each instruction form.

use chip8::exec::InputEvent;
use chip8::isa::{decode, Instr};
use chip8::state::{font_vec, get_op_at, Fault, State};

#[test]
fn loader_places_the_program_at_512() {
    let mut st = State::new();
    st.install_font();
    let prog: Vec<u8> = vec![1, 2, 3];
    st.load_program(&prog).unwrap();
    assert_eq!(st.memory[512], 1);
    assert_eq!(st.memory[513], 2);
    assert_eq!(st.memory[514], 3);
    assert_eq!(st.memory[515], 0);
    let font = font_vec();
    for i in 0..80usize {
        assert_eq!(st.memory[i], font[i]);
    }
}

#[test]
fn loader_rejects_an_oversized_program() {
    let mut st = State::new();
    let too_big: Vec<u8> = vec![0; 3585];
    assert_eq!(st.load_program(&too_big), Err(Fault::ProgramTooLarge));
    let exact: Vec<u8> = vec![7; 3584];
    assert!(st.load_program(&exact).is_ok());
    assert_eq!(st.memory[4095], 7);
}

#[test]
fn fetch_reads_big_endian_and_faults_at_the_edge() {
    let mut st = State::new();
    st.memory[512] = 0x12;
    st.memory[513] = 0x34;
    assert_eq!(get_op_at(&st.memory, 512), Ok(0x1234));
    assert_eq!(get_op_at(&st.memory, 4094), Ok(0x0000));
    assert_eq!(get_op_at(&st.memory, 4095), Err(Fault::FetchOutOfBounds));
}

#[test]
fn decode_matches_the_dispatch_table() {
    assert_eq!(decode(0x00E0), Instr::ClearScreen);
    assert_eq!(decode(0x00EE), Instr::Return);
    assert_eq!(decode(0x1ABC), Instr::Jump(0xABC));
    assert_eq!(decode(0x2ABC), Instr::Call(0xABC));
    assert_eq!(decode(0x3A42), Instr::SkipEqImm(0xA, 0x42));
    assert_eq!(decode(0x4A42), Instr::SkipNeImm(0xA, 0x42));
    assert_eq!(decode(0x5AB0), Instr::SkipEqReg(0xA, 0xB));
    assert_eq!(decode(0x6A42), Instr::SetImm(0xA, 0x42));
    assert_eq!(decode(0x7A42), Instr::AddImm(0xA, 0x42));
    assert_eq!(decode(0x8AB0), Instr::Assign(0xA, 0xB));
    assert_eq!(decode(0x8AB1), Instr::Or(0xA, 0xB));
    assert_eq!(decode(0x8AB2), Instr::And(0xA, 0xB));
    assert_eq!(decode(0x8AB3), Instr::Xor(0xA, 0xB));
    assert_eq!(decode(0x8AB4), Instr::Add(0xA, 0xB));
    assert_eq!(decode(0x8AB5), Instr::Sub(0xA, 0xB));
    assert_eq!(decode(0x8AB6), Instr::ShiftRight(0xA));
    assert_eq!(decode(0x8AB7), Instr::SubReverse(0xA, 0xB));
    assert_eq!(decode(0x8ABE), Instr::ShiftLeft(0xA));
    assert_eq!(decode(0x9AB0), Instr::SkipNeReg(0xA, 0xB));
    assert_eq!(decode(0xAABC), Instr::SetAddr(0xABC));
    assert_eq!(decode(0xBABC), Instr::JumpOffset(0xABC));
    assert_eq!(decode(0xCA42), Instr::Random(0xA, 0x42));
    assert_eq!(decode(0xDAB5), Instr::Draw(0xA, 0xB, 5));
    assert_eq!(decode(0xEA9E), Instr::SkipKeyPressed(0xA));
    assert_eq!(decode(0xEAA1), Instr::SkipKeyNotPressed(0xA));
    assert_eq!(decode(0xFA07), Instr::GetDelay(0xA));
    assert_eq!(decode(0xFA0A), Instr::WaitKey(0xA));
    assert_eq!(decode(0xFA15), Instr::SetDelay(0xA));
    assert_eq!(decode(0xFA18), Instr::SetSound(0xA));
    assert_eq!(decode(0xFA1E), Instr::AddAddr(0xA));
    assert_eq!(decode(0xFA29), Instr::FontAddr(0xA));
    assert_eq!(decode(0xFA33), Instr::StoreBcd(0xA));
    assert_eq!(decode(0xFA55), Instr::DumpRegs(0xA));
    assert_eq!(decode(0xFA65), Instr::LoadRegs(0xA));
    assert_eq!(decode(0x0123), Instr::Nop);
    assert_eq!(decode(0xFFFF), Instr::Nop);
}

#[test]
fn decode_ignores_the_low_nibble_where_the_table_does() {
    assert_eq!(decode(0x5AB3), Instr::SkipEqReg(0xA, 0xB));
    assert_eq!(decode(0x9AB9), Instr::SkipNeReg(0xA, 0xB));
    assert_eq!(decode(0xE79E), Instr::SkipKeyPressed(7));
    assert_eq!(decode(0xF307), Instr::GetDelay(3));
    assert_eq!(decode(0x8AB8), Instr::Nop);
    assert_eq!(decode(0xF299), Instr::Nop);
}

#[test]
fn register_add_wraps_and_sets_the_carry() {
    let mut st = State::new();
    st.registers[0] = 200;
    st.registers[1] = 100;
    st.execute(Instr::Add(0, 1), 0).unwrap();
    assert_eq!(st.registers[0], 44);
    assert_eq!(st.registers[15], 1);
    st.registers[2] = 10;
    st.registers[3] = 20;
    st.execute(Instr::Add(2, 3), 0).unwrap();
    assert_eq!(st.registers[2], 30);
    assert_eq!(st.registers[15], 0);
}

#[test]
fn register_sub_wraps_and_sets_the_no_borrow_flag() {
    let mut st = State::new();
    st.registers[0] = 10;
    st.registers[1] = 20;
    st.execute(Instr::Sub(0, 1), 0).unwrap();
    assert_eq!(st.registers[0], 246);
    assert_eq!(st.registers[15], 0);
    st.registers[2] = 20;
    st.registers[3] = 20;
    st.execute(Instr::Sub(2, 3), 0).unwrap();
    assert_eq!(st.registers[2], 0);
    assert_eq!(st.registers[15], 1);
}

#[test]
fn reversed_subtract_uses_register_y_as_the_minuend() {
    let mut st = State::new();
    st.registers[0] = 5;
    st.registers[1] = 7;
    st.execute(Instr::SubReverse(0, 1), 0).unwrap();
    assert_eq!(st.registers[0], 2);
    assert_eq!(st.registers[15], 1);
    st.registers[2] = 7;
    st.registers[3] = 5;
    st.execute(Instr::SubReverse(2, 3), 0).unwrap();
    assert_eq!(st.registers[2], 254);
    assert_eq!(st.registers[15], 0);
}

#[test]
fn shifts_drop_the_edge_bit_into_the_flag() {
    let mut st = State::new();
    st.registers[0] = 5;
    st.execute(Instr::ShiftRight(0), 0).unwrap();
    assert_eq!(st.registers[0], 2);
    assert_eq!(st.registers[15], 1);
    st.registers[1] = 0x81;
    st.execute(Instr::ShiftLeft(1), 0).unwrap();
    assert_eq!(st.registers[1], 0x02);
    assert_eq!(st.registers[15], 1);
    st.registers[2] = 0x40;
    st.execute(Instr::ShiftLeft(2), 0).unwrap();
    assert_eq!(st.registers[2], 0x80);
    assert_eq!(st.registers[15], 0);
}

#[test]
fn register_loads_and_bitwise_ops() {
    let mut st = State::new();
    st.execute(Instr::SetImm(4, 0xF0), 0).unwrap();
    assert_eq!(st.registers[4], 0xF0);
    st.execute(Instr::AddImm(4, 0x11), 0).unwrap();
    assert_eq!(st.registers[4], 0x01);
    assert_eq!(st.registers[15], 0);
    st.registers[5] = 0b1100;
    st.registers[6] = 0b1010;
    st.execute(Instr::Or(5, 6), 0).unwrap();
    assert_eq!(st.registers[5], 0b1110);
    st.registers[5] = 0b1100;
    st.execute(Instr::And(5, 6), 0).unwrap();
    assert_eq!(st.registers[5], 0b1000);
    st.registers[5] = 0b1100;
    st.execute(Instr::Xor(5, 6), 0).unwrap();
    assert_eq!(st.registers[5], 0b0110);
    st.execute(Instr::Assign(7, 6), 0).unwrap();
    assert_eq!(st.registers[7], 0b1010);
}

#[test]
fn timer_instructions_move_values_both_ways() {
    let mut st = State::new();
    st.registers[2] = 42;
    st.execute(Instr::SetDelay(2), 0).unwrap();
    assert_eq!(st.delay_timer, 42);
    st.execute(Instr::GetDelay(9), 0).unwrap();
    assert_eq!(st.registers[9], 42);
    st.registers[3] = 7;
    st.execute(Instr::SetSound(3), 0).unwrap();
    assert_eq!(st.sound_timer, 7);
}

#[test]
fn timers_tick_down_and_never_go_below_zero() {
    let mut st = State::new();
    st.delay_timer = 1;
    st.sound_timer = 0;
    st.tick_timers();
    assert_eq!(st.delay_timer, 0);
    assert_eq!(st.sound_timer, 0);
    st.tick_timers();
    assert_eq!(st.delay_timer, 0);
    assert_eq!(st.sound_timer, 0);
}

#[test]
fn sound_signal_follows_the_timer() {
    let mut st = State::new();
    assert!(!st.sound_on());
    st.sound_timer = 3;
    assert!(st.sound_on());
}

#[test]
fn bcd_store_writes_the_three_digits() {
    let mut st = State::new();
    st.registers[4] = 234;
    st.address_register = 300;
    st.execute(Instr::StoreBcd(4), 0).unwrap();
    assert_eq!(st.memory[300], 2);
    assert_eq!(st.memory[301], 3);
    assert_eq!(st.memory[302], 4);
    st.registers[4] = 7;
    st.address_register = 1024;
    st.execute(Instr::StoreBcd(4), 0).unwrap();
    assert_eq!(st.memory[1024], 0);
    assert_eq!(st.memory[1025], 0);
    assert_eq!(st.memory[1026], 7);
}

#[test]
fn bcd_store_faults_past_the_end_of_memory() {
    let mut st = State::new();
    st.address_register = 4094;
    assert_eq!(st.execute(Instr::StoreBcd(0), 0), Err(Fault::MemoryOutOfBounds));
}

#[test]
fn register_dump_and_load_round_trip() {
    let mut st = State::new();
    for i in 0..16usize {
        st.registers[i] = (i as u8) * 3;
    }
    st.address_register = 1000;
    st.execute(Instr::DumpRegs(15), 0).unwrap();
    for i in 0..16usize {
        assert_eq!(st.memory[1000 + i], (i as u8) * 3);
    }
    for i in 0..16usize {
        st.registers[i] = 0;
    }
    st.execute(Instr::LoadRegs(15), 0).unwrap();
    for i in 0..16usize {
        assert_eq!(st.registers[i], (i as u8) * 3);
    }
}

#[test]
fn register_dump_goes_up_to_x_inclusive_and_no_further() {
    let mut st = State::new();
    st.registers[0] = 11;
    st.registers[1] = 22;
    st.registers[2] = 33;
    st.registers[3] = 44;
    st.address_register = 2000;
    st.memory[2003] = 0xEE;
    st.execute(Instr::DumpRegs(2), 0).unwrap();
    assert_eq!(st.memory[2000], 11);
    assert_eq!(st.memory[2001], 22);
    assert_eq!(st.memory[2002], 33);
    assert_eq!(st.memory[2003], 0xEE);
}

#[test]
fn register_dump_faults_past_the_end_of_memory() {
    let mut st = State::new();
    st.address_register = 4090;
    assert_eq!(st.execute(Instr::DumpRegs(15), 0), Err(Fault::MemoryOutOfBounds));
    assert_eq!(st.execute(Instr::LoadRegs(15), 0), Err(Fault::MemoryOutOfBounds));
}

#[test]
fn font_address_uses_the_low_nibble_times_five() {
    let mut st = State::new();
    st.registers[0] = 0x1F;
    st.execute(Instr::FontAddr(0), 0).unwrap();
    assert_eq!(st.address_register, 75);
    st.registers[1] = 3;
    st.execute(Instr::FontAddr(1), 0).unwrap();
    assert_eq!(st.address_register, 15);
}

#[test]
fn address_register_add_masks_and_flags_overflow() {
    let mut st = State::new();
    st.address_register = 4000;
    st.registers[0] = 200;
    st.execute(Instr::AddAddr(0), 0).unwrap();
    assert_eq!(st.address_register, 104);
    assert_eq!(st.registers[15], 1);
    st.address_register = 10;
    st.registers[1] = 5;
    st.execute(Instr::AddAddr(1), 0).unwrap();
    assert_eq!(st.address_register, 15);
    assert_eq!(st.registers[15], 0);
}

#[test]
fn jumps_and_calls_move_the_instruction_pointer() {
    let mut st = State::new();
    st.execute(Instr::Jump(0x300), 0).unwrap();
    assert_eq!(st.current_op_index, 0x300);
    st.execute(Instr::Call(0x400), 0).unwrap();
    assert_eq!(st.current_op_index, 0x400);
    assert_eq!(st.stack, vec![0x302]);
    st.execute(Instr::Return, 0).unwrap();
    assert_eq!(st.current_op_index, 0x302);
    assert_eq!(st.stack.len(), 0);
    st.registers[0] = 0xFF;
    st.execute(Instr::JumpOffset(0xFFF), 0).unwrap();
    assert_eq!(st.current_op_index, 254);
}

#[test]
fn skips_advance_four_when_taken() {
    let mut st = State::new();
    st.registers[5] = 0x42;
    st.execute(Instr::SkipEqImm(5, 0x42), 0).unwrap();
    assert_eq!(st.current_op_index, 516);
    st.current_op_index = 512;
    st.execute(Instr::SkipEqImm(5, 0x41), 0).unwrap();
    assert_eq!(st.current_op_index, 514);
    st.current_op_index = 512;
    st.execute(Instr::SkipNeImm(5, 0x41), 0).unwrap();
    assert_eq!(st.current_op_index, 516);
    st.registers[6] = 0x42;
    st.current_op_index = 512;
    st.execute(Instr::SkipEqReg(5, 6), 0).unwrap();
    assert_eq!(st.current_op_index, 516);
    st.current_op_index = 512;
    st.execute(Instr::SkipNeReg(5, 6), 0).unwrap();
    assert_eq!(st.current_op_index, 514);
}

#[test]
fn key_skips_respect_the_latch_and_its_sentinel() {
    let mut st = State::new();
    st.registers[0] = 7;
    st.key = 7;
    st.execute(Instr::SkipKeyPressed(0), 0).unwrap();
    assert_eq!(st.current_op_index, 516);
    st.current_op_index = 512;
    st.key = 16;
    st.execute(Instr::SkipKeyPressed(0), 0).unwrap();
    assert_eq!(st.current_op_index, 514);
    st.current_op_index = 512;
    st.execute(Instr::SkipKeyNotPressed(0), 0).unwrap();
    assert_eq!(st.current_op_index, 516);
}

#[test]
fn random_load_masks_the_random_byte() {
    let mut st = State::new();
    st.load_program(&vec![0xC0, 0x0F]).unwrap();
    st.tick_with_random(InputEvent::Idle, 0xAB).unwrap();
    assert_eq!(st.registers[0], 0x0B);
    let mut st2 = State::new();
    st2.load_program(&vec![0xC1, 0xF0]).unwrap();
    st2.tick_with_random(InputEvent::Idle, 0x35).unwrap();
    assert_eq!(st2.registers[1], 0x30);
}
