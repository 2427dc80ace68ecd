use chip8::Chip8State;

#[test]
fn pixel_iter_walks_one_row_in_order() {
    let mut st = Chip8State::new();
    st.frame_buffer[0] = 0xA5;  // pixels 0, 2, 5, 7 of row 0
    let mut it = st.frame_iter();
    assert_eq!(it.next(), Some((0, 0)));
    assert_eq!(it.next(), Some((2, 0)));
    assert_eq!(it.next(), Some((5, 0)));
    assert_eq!(it.next(), Some((7, 0)));
    assert_eq!(it.next(), None);
    assert_eq!(it.next(), None);
}

#[test]
fn pixel_iter_crosses_rows_and_bytes() {
    let mut st = Chip8State::new();
    st.frame_buffer[1] = 0x80;  // column 8 of row 0
    st.frame_buffer[8] = 0x01;  // column 7 of row 1
    st.frame_buffer[255] = 0x01;  // column 63 of row 31
    let mut it = st.frame_iter();
    assert_eq!(it.next(), Some((8, 0)));
    assert_eq!(it.next(), Some((7, 1)));
    assert_eq!(it.next(), Some((63, 31)));
    assert_eq!(it.next(), None);
}

#[test]
fn pixel_iter_of_an_empty_screen_is_empty() {
    let st = Chip8State::new();
    let mut it = st.frame_iter();
    assert_eq!(it.next(), None);
}

#[test]
fn pixel_iter_sees_a_drawn_sprite() {
    let mut st = Chip8State::from_prog(&[0xD0, 0x11]);
    st.data_registers[0] = 62;
    st.data_registers[1] = 5;
    st.address_register = 0x500;
    st.memory[0x500] = 0xC3;  // bits 0,1,6,7: columns 62, 63, then 4, 5 wrapped
    assert_eq!(st.step(0, false, None), Ok(()));
    let mut it = st.frame_iter();
    assert_eq!(it.next(), Some((4, 5)));
    assert_eq!(it.next(), Some((5, 5)));
    assert_eq!(it.next(), Some((62, 5)));
    assert_eq!(it.next(), Some((63, 5)));
    assert_eq!(it.next(), None);
}

#[test]
fn pixel_iter_is_restartable() {
    let mut st = Chip8State::new();
    st.frame_buffer[0] = 0x80;
    let mut first = st.frame_iter();
    assert_eq!(first.next(), Some((0, 0)));
    assert_eq!(first.next(), None);
    let mut again = st.frame_iter();
    assert_eq!(again.next(), Some((0, 0)));
}

#[test]
fn pixel_iter_holds_its_own_copy() {
    let mut st = Chip8State::new();
    st.frame_buffer[0] = 0x80;
    let mut it = st.frame_iter();
    st.frame_buffer[0] = 0;
    assert_eq!(it.next(), Some((0, 0)), "the walk is over the frame as it was");
}
