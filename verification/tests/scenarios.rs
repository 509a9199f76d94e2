//! End-to-end scenarios: whole programs run through the tick driver.

use chip8::exec::{InputEvent, StepEvent, TickOutcome};
use chip8::state::{Fault, State};

#[test]
fn glyph_zero_draws_four_pixels_without_collision() {
    let mut st = State::new();
    st.install_font();
    let prog: Vec<u8> = vec![0xA0, 0x00, 0xD0, 0x01];
    st.load_program(&prog).unwrap();
    assert_eq!(st.tick_with_random(InputEvent::Idle, 0), Ok(TickOutcome::Running));
    assert_eq!(st.tick_with_random(InputEvent::Idle, 0), Ok(TickOutcome::Running));
    for x in 0..4usize {
        assert!(st.screen.get_pixel(x, 0));
    }
    for x in 4..8usize {
        assert!(!st.screen.get_pixel(x, 0));
    }
    assert_eq!(st.registers[15], 0);
}

#[test]
fn subroutine_call_returns_to_after_the_call() {
    let mut st = State::new();
    let prog: Vec<u8> = vec![0x22, 0x06, 0x00, 0x00, 0x00, 0x00, 0x00, 0xEE];
    st.load_program(&prog).unwrap();
    st.tick_with_random(InputEvent::Idle, 0).unwrap();
    assert_eq!(st.current_op_index, 0x206);
    assert_eq!(st.stack.len(), 1);
    st.tick_with_random(InputEvent::Idle, 0).unwrap();
    assert_eq!(st.current_op_index, 514);
    assert_eq!(st.stack.len(), 0);
}

#[test]
fn delay_timer_reaches_zero_and_stays_there() {
    let mut st = State::new();
    let prog: Vec<u8> = vec![0x12, 0x00];
    st.load_program(&prog).unwrap();
    st.delay_timer = 5;
    for _tick in 0..5usize {
        st.tick_with_random(InputEvent::Idle, 0).unwrap();
    }
    assert_eq!(st.delay_timer, 0);
    st.tick_with_random(InputEvent::Idle, 0).unwrap();
    assert_eq!(st.delay_timer, 0);
}

#[test]
fn wait_for_key_suspends_the_machine() {
    let mut st = State::new();
    let prog: Vec<u8> = vec![0xF3, 0x0A];
    st.load_program(&prog).unwrap();
    st.delay_timer = 9;
    assert_eq!(st.tick_with_random(InputEvent::Idle, 0), Ok(TickOutcome::WaitingForKey(3)));
    assert_eq!(st.current_op_index, 512);
    assert_eq!(st.delay_timer, 9);
    assert_eq!(st.tick_with_random(InputEvent::Idle, 0), Ok(TickOutcome::WaitingForKey(3)));
    assert_eq!(st.delay_timer, 9);
    st.resume_with_key(3, 0xC);
    assert_eq!(st.registers[3], 0xC);
    assert_eq!(st.current_op_index, 514);
}

#[test]
fn quit_request_passes_through_after_the_step() {
    let mut st = State::new();
    st.load_program(&vec![0x12, 0x00]).unwrap();
    assert_eq!(st.tick_with_random(InputEvent::Quit, 0), Ok(TickOutcome::QuitRequested));
}

#[test]
fn polled_keys_are_latched_each_tick() {
    let mut st = State::new();
    st.load_program(&vec![0x12, 0x00]).unwrap();
    st.tick_with_random(InputEvent::Key(9), 0).unwrap();
    assert_eq!(st.key, 9);
    st.tick_with_random(InputEvent::Idle, 0).unwrap();
    assert_eq!(st.key, 16);
}

#[test]
fn redrawing_a_sprite_sets_the_collision_flag_register() {
    let mut st = State::new();
    let prog: Vec<u8> = vec![0xA2, 0x00, 0xD0, 0x01, 0xD0, 0x01];
    st.load_program(&prog).unwrap();
    st.tick_with_random(InputEvent::Idle, 0).unwrap();
    st.tick_with_random(InputEvent::Idle, 0).unwrap();
    assert_eq!(st.registers[15], 0);
    assert!(st.screen.get_pixel(0, 0));
    st.tick_with_random(InputEvent::Idle, 0).unwrap();
    assert_eq!(st.registers[15], 1);
    assert!(!st.screen.get_pixel(0, 0));
}

#[test]
fn empty_stack_return_is_fatal() {
    let mut st = State::new();
    st.load_program(&vec![0x00, 0xEE]).unwrap();
    assert_eq!(st.step(0), Err(Fault::EmptyStackReturn));
}

#[test]
fn fetch_past_the_end_of_memory_is_fatal() {
    let mut st = State::new();
    st.load_program(&vec![0x1F, 0xFF]).unwrap();
    assert_eq!(st.step(0), Ok(StepEvent::Executed));
    assert_eq!(st.current_op_index, 4095);
    assert_eq!(st.step(0), Err(Fault::FetchOutOfBounds));
}

#[test]
fn unknown_encodings_are_tolerated_as_no_ops() {
    let mut st = State::new();
    st.load_program(&vec![0x01, 0x23, 0xFF, 0xFF]).unwrap();
    assert_eq!(st.step(0), Ok(StepEvent::Executed));
    assert_eq!(st.current_op_index, 514);
    assert_eq!(st.step(0), Ok(StepEvent::Executed));
    assert_eq!(st.current_op_index, 516);
    assert_eq!(st.registers, vec![0u8; 16]);
}

#[test]
fn oversized_draw_source_is_fatal() {
    let mut st = State::new();
    let prog: Vec<u8> = vec![0xAF, 0xFF, 0xD0, 0x05];
    st.load_program(&prog).unwrap();
    st.tick_with_random(InputEvent::Idle, 0).unwrap();
    assert_eq!(st.address_register, 0xFFF);
    assert_eq!(st.tick_with_random(InputEvent::Idle, 0), Err(Fault::MemoryOutOfBounds));
}
