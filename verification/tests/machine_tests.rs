use chip8::AudioWrapper;
use chip8::Chip8;
use chip8::Chip8Err;
use chip8::KeyWrapper;

struct NoKeys;

impl KeyWrapper for NoKeys {
    fn is_pushed(&self, _key: u8) -> bool {
        false
    }
    fn get_key(&self) -> Option<u8> {
        None
    }
}

struct OneKey(u8);

impl KeyWrapper for OneKey {
    fn is_pushed(&self, key: u8) -> bool {
        key == self.0
    }
    fn get_key(&self) -> Option<u8> {
        Some(self.0)
    }
}

struct CountingAudio {
    plays: usize,
    stops: usize,
}

impl AudioWrapper for CountingAudio {
    fn play(&mut self) {
        self.plays += 1;
    }
    fn stop(&mut self) {
        self.stops += 1;
    }
}

fn counting() -> CountingAudio {
    CountingAudio { plays: 0, stops: 0 }
}

#[test]
fn unloaded_machine_refuses_to_tick() {
    let mut m = Chip8::new(NoKeys, counting());
    assert_eq!(m.run_vblank(), Err(Chip8Err::BadState));
    assert_eq!(m.run_vblank(), Err(Chip8Err::BadState));
    match &m.state {
        Err((None, Chip8Err::BadState)) => {}
        _ => panic!("an unloaded machine must stay in the bad state"),
    }
    assert_eq!(m.audio_wrapper.plays, 0);
    assert_eq!(m.audio_wrapper.stops, 0);
}

#[test]
fn one_tick_runs_eleven_instructions() {
    // set reg[0], then spin on a jump-to-self
    let mut m = Chip8::new(NoKeys, counting());
    m.load_prog(&[0x60, 0x2A, 0x12, 0x02]);
    assert_eq!(m.run_vblank(), Ok(()));
    match &m.state {
        Ok(st) => {
            assert_eq!(st.data_registers[0], 0x2A);
            assert_eq!(st.program_counter, 0x202);
        }
        _ => panic!("the machine must still be live"),
    }
}

#[test]
fn sound_timer_edge_stops_audio_once() {
    // reg[0] = 1; sound timer = reg[0] (starts the tone); spin
    let mut m = Chip8::new(NoKeys, counting());
    m.load_prog(&[0x60, 0x01, 0xF0, 0x18, 0x12, 0x04]);
    let plays0 = m.audio_wrapper.plays;
    let stops0 = m.audio_wrapper.stops;
    assert_eq!(m.run_vblank(), Ok(()));
    assert_eq!(m.audio_wrapper.plays - plays0, 1, "setting a non-zero sound timer starts the tone");
    assert_eq!(m.audio_wrapper.stops - stops0, 1, "the 1 -> 0 edge stops it in the same tick");
    match &m.state {
        Ok(st) => assert_eq!(st.sound_timer, 0),
        _ => panic!("the machine must still be live"),
    }
}

#[test]
fn zero_sound_timer_makes_no_audio_calls() {
    let mut m = Chip8::new(NoKeys, counting());
    m.load_prog(&[0x12, 0x00]);
    let plays0 = m.audio_wrapper.plays;
    let stops0 = m.audio_wrapper.stops;
    assert_eq!(m.run_vblank(), Ok(()));
    assert_eq!(m.audio_wrapper.plays, plays0);
    assert_eq!(m.audio_wrapper.stops, stops0);
}

#[test]
fn delay_timer_counts_down_once_per_tick() {
    // reg[0] = 5; delay timer = reg[0]; spin
    let mut m = Chip8::new(NoKeys, counting());
    m.load_prog(&[0x60, 0x05, 0xF0, 0x15, 0x12, 0x04]);
    assert_eq!(m.run_vblank(), Ok(()));
    match &m.state {
        Ok(st) => assert_eq!(st.delay_timer, 4),
        _ => panic!("the machine must still be live"),
    }
    assert_eq!(m.run_vblank(), Ok(()));
    match &m.state {
        Ok(st) => assert_eq!(st.delay_timer, 3),
        _ => panic!("the machine must still be live"),
    }
}

#[test]
fn stack_underflow_freezes_the_machine() {
    let mut m = Chip8::new(NoKeys, counting());
    m.load_prog(&[0x00, 0xEE]);
    let stops0 = m.audio_wrapper.stops;
    assert_eq!(m.run_vblank(), Err(Chip8Err::StackUnderFlow));
    assert_eq!(m.audio_wrapper.stops - stops0, 1, "a fault silences the audio");
    match &m.state {
        Err((Some(snapshot), Chip8Err::StackUnderFlow)) => {
            assert_eq!(snapshot.program_counter, 0x200, "the counter did not move");
        }
        _ => panic!("the machine must be frozen with its diagnostic snapshot"),
    }
    assert_eq!(m.run_vblank(), Err(Chip8Err::BadState));
}

#[test]
fn unknown_opcode_freezes_with_partial_batch_kept() {
    // one good instruction, then garbage
    let mut m = Chip8::new(NoKeys, counting());
    m.load_prog(&[0x60, 0x2A, 0xFF, 0xFF]);
    assert_eq!(m.run_vblank(), Err(Chip8Err::UnknownOptcode));
    match &m.state {
        Err((Some(snapshot), Chip8Err::UnknownOptcode)) => {
            assert_eq!(snapshot.data_registers[0], 0x2A, "work before the fault is kept");
            assert_eq!(snapshot.program_counter, 0x202);
        }
        _ => panic!("the machine must be frozen with its diagnostic snapshot"),
    }
}

#[test]
fn reload_recovers_a_faulted_machine() {
    let mut m = Chip8::new(NoKeys, counting());
    m.load_prog(&[0x00, 0xEE]);
    assert_eq!(m.run_vblank(), Err(Chip8Err::StackUnderFlow));
    m.load_prog(&[0x12, 0x00]);
    assert_eq!(m.run_vblank(), Ok(()));
}

#[test]
fn key_skip_through_the_capability() {
    // E09E skips when the key named by reg[0] (0) is down
    let prog = [0xE0, 0x9E, 0x12, 0x02, 0x12, 0x04];
    let mut pressed = Chip8::new(OneKey(0), counting());
    pressed.load_prog(&prog);
    assert_eq!(pressed.run_vblank(), Ok(()));
    match &pressed.state {
        Ok(st) => assert_eq!(st.program_counter, 0x204, "the key is down, so skip"),
        _ => panic!("the machine must still be live"),
    }
    let mut idle = Chip8::new(NoKeys, counting());
    idle.load_prog(&prog);
    assert_eq!(idle.run_vblank(), Ok(()));
    match &idle.state {
        Ok(st) => assert_eq!(st.program_counter, 0x202, "no key, no skip"),
        _ => panic!("the machine must still be live"),
    }
}

#[test]
fn wait_for_key_busy_waits_across_ticks() {
    let prog = [0xF0, 0x0A, 0x12, 0x02];
    let mut idle = Chip8::new(NoKeys, counting());
    idle.load_prog(&prog);
    assert_eq!(idle.run_vblank(), Ok(()));
    match &idle.state {
        Ok(st) => assert_eq!(st.program_counter, 0x200, "still waiting for a key"),
        _ => panic!("the machine must still be live"),
    }
    let mut typed = Chip8::new(OneKey(9), counting());
    typed.load_prog(&prog);
    assert_eq!(typed.run_vblank(), Ok(()));
    match &typed.state {
        Ok(st) => {
            assert_eq!(st.data_registers[0], 9);
            assert_eq!(st.program_counter, 0x202);
        }
        _ => panic!("the machine must still be live"),
    }
}

#[test]
fn random_byte_is_masked_by_the_operand() {
    // C000 leaves reg[0] zero whatever the random byte was; C00F keeps a nibble
    let mut m = Chip8::new(NoKeys, counting());
    m.load_prog(&[0xC0, 0x00, 0xC1, 0x0F, 0x12, 0x04]);
    assert_eq!(m.run_vblank(), Ok(()));
    match &m.state {
        Ok(st) => {
            assert_eq!(st.data_registers[0], 0);
            assert!(st.data_registers[1] < 16);
        }
        _ => panic!("the machine must still be live"),
    }
}

#[test]
fn run_optcode_executes_a_single_instruction() {
    let mut m = Chip8::new(NoKeys, counting());
    m.load_prog(&[0x60, 0x2A, 0x61, 0x07]);
    assert_eq!(m.run_optcode(), Ok(()));
    match &m.state {
        Ok(st) => {
            assert_eq!(st.data_registers[0], 0x2A);
            assert_eq!(st.data_registers[1], 0);
            assert_eq!(st.program_counter, 0x202);
        }
        _ => panic!("the machine must still be live"),
    }
}

#[test]
fn run_optcode_on_bad_state_reports_without_freezing() {
    let mut m = Chip8::new(NoKeys, counting());
    assert_eq!(m.run_optcode(), Err(Chip8Err::BadState));
    match &m.state {
        Err((None, Chip8Err::BadState)) => {}
        _ => panic!("no snapshot appears from nowhere"),
    }
}
