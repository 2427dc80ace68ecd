use chip8::Chip8State;

fn busy_state() -> Chip8State {
    let mut st = Chip8State::from_prog(&[0x22, 0x06, 0x00, 0x00, 0x00, 0x00, 0xD0, 0x11]);
    st.data_registers[0] = 60;
    st.data_registers[3] = 0xAB;
    st.address_register = 0x500;
    st.memory[0x500] = 0xFF;
    st.delay_timer = 7;
    st.sound_timer = 3;
    // call (pushes a return address), then draw something
    assert_eq!(st.step(0, false, None), Ok(()));
    assert_eq!(st.step(0, false, None), Ok(()));
    assert!(!st.stack.is_empty());
    st
}

#[test]
fn snapshot_round_trip_is_bit_for_bit() {
    let st = busy_state();
    let bytes = st.to_snapshot();
    let back = Chip8State::from_snapshot(&bytes).expect("a produced snapshot parses");
    assert_eq!(back.data_registers, st.data_registers);
    assert_eq!(back.address_register, st.address_register);
    assert_eq!(back.memory, st.memory);
    assert_eq!(back.program_counter, st.program_counter);
    assert_eq!(back.stack, st.stack);
    assert_eq!(back.delay_timer, st.delay_timer);
    assert_eq!(back.sound_timer, st.sound_timer);
    assert_eq!(back.frame_buffer, st.frame_buffer);
}

#[test]
fn snapshot_round_trip_of_a_fresh_state() {
    let st = Chip8State::new();
    let bytes = st.to_snapshot();
    assert_eq!(bytes.len(), 4382, "an empty stack gives the fixed-size record");
    let back = Chip8State::from_snapshot(&bytes).expect("a produced snapshot parses");
    assert_eq!(back.memory, st.memory);
    assert_eq!(back.program_counter, 0x200);
    assert!(back.stack.is_empty());
}

#[test]
fn snapshot_layout_is_stable() {
    let st = busy_state();
    let bytes = st.to_snapshot();
    assert_eq!(bytes.len(), 4382 + 2 * st.stack.len());
    // registers first
    assert_eq!(bytes[0], st.data_registers[0]);
    assert_eq!(bytes[3], 0xAB);
    // address register, big-endian
    assert_eq!(bytes[16], 0x05);
    assert_eq!(bytes[17], 0x00);
    // memory
    assert_eq!(bytes[18], st.memory[0]);
    assert_eq!(bytes[18 + 0x500], 0xFF);
    // program counter, big-endian
    assert_eq!(bytes[4114], (st.program_counter >> 8) as u8);
    assert_eq!(bytes[4115], (st.program_counter & 0xFF) as u8);
    // stack length prefix, 8 bytes big-endian
    assert_eq!(&bytes[4116..4123], &[0, 0, 0, 0, 0, 0, 0]);
    assert_eq!(bytes[4123], st.stack.len() as u8);
    // one 2-byte entry per stack slot, then the timers, then the frame buffer
    let n = st.stack.len();
    assert_eq!(bytes[4124], (st.stack[0] >> 8) as u8);
    assert_eq!(bytes[4125], (st.stack[0] & 0xFF) as u8);
    assert_eq!(bytes[4124 + 2 * n], 7);
    assert_eq!(bytes[4125 + 2 * n], 3);
    assert_eq!(&bytes[4126 + 2 * n..], &st.frame_buffer[..]);
}

#[test]
fn short_input_does_not_parse() {
    assert!(Chip8State::from_snapshot(&[0u8; 10]).is_none());
    assert!(Chip8State::from_snapshot(&[]).is_none());
    assert!(Chip8State::from_snapshot(&[0u8; 4381]).is_none());
}

#[test]
fn wrong_stack_length_does_not_parse() {
    let st = Chip8State::new();
    let mut bytes = st.to_snapshot();
    bytes[4123] = 1;
    assert!(Chip8State::from_snapshot(&bytes).is_none(), "prefix claims one entry too many");
    let mut longer = st.to_snapshot();
    longer.push(0);
    assert!(Chip8State::from_snapshot(&longer).is_none(), "an odd trailing byte");
    longer.push(0);
    assert!(Chip8State::from_snapshot(&longer).is_none(), "two extra bytes but a zero prefix");
}

#[test]
fn parse_recovers_declared_fields() {
    let mut st = Chip8State::new();
    st.stack.push(0x1234);
    st.stack.push(0x0202);
    let bytes = st.to_snapshot();
    let back = Chip8State::from_snapshot(&bytes).unwrap();
    assert_eq!(back.stack, vec![0x1234u16, 0x0202u16]);
}
