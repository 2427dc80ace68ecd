//! The machine: the injected key and audio capabilities, the random source,
//! the fixed-rate tick driver and the fault state machine.

use vstd::prelude::*;

use crate::engine::Choice;
use crate::engine::spec_step;
use crate::engine::step_err;
use crate::engine::step_ok;
use crate::engine::valid_choice;
use crate::engine::StepOut;
use crate::state::spec_loaded;
use crate::state::Chip8Err;
use crate::state::Chip8State;
use crate::state::Chip8StateV;

verus! {

/// The key-input capability injected into the machine.  It must be
/// queryable without blocking; "no key" is a valid, immediate answer.
pub trait KeyWrapper {
    /// Whether the key named by `key` is currently pressed.
    fn is_pushed(&self, key: u8) -> bool;

    /// The currently pressed key, if any; a reported key is a hex digit.
    fn get_key(&self) -> (r: Option<u8>)
        ensures
            r matches Some(k) ==> k < 16,
    ;
}

/// The audio capability injected into the machine: idempotent,
/// side-effect-only tone control.
pub trait AudioWrapper {
    /// Starts the tone.
    fn play(&mut self);

    /// Stops the tone.
    fn stop(&mut self);
}

/// Relies on `rand::random`: one byte from the thread-local generator.
/// Nothing can be promised of the value.
#[verifier::external_body]
fn random_byte() -> u8 {
    rand::random::<u8>()
}

/// Instructions `i..cs.len()` of one batch, stopping at the first fault.
pub open spec fn spec_batch(s: Chip8StateV, cs: Seq<Choice>, i: nat) -> StepOut
    decreases cs.len() - i,
{
    if i >= cs.len() {
        step_ok(s)
    } else {
        let out = spec_step(s, cs[i as int]);
        if out.r is Err {
            out
        } else {
            spec_batch(out.s, cs, i + 1)
        }
    }
}

/// Every choice of a batch is one the capabilities may report.
pub open spec fn valid_choices(cs: Seq<Choice>) -> bool {
    forall|i: int| 0 <= i < cs.len() ==> valid_choice(#[trigger] cs[i])
}

/// The timer rule applied after a successful batch: each timer is
/// decremented if non-zero and never underflows.
pub open spec fn spec_timers(s: Chip8StateV) -> Chip8StateV {
    Chip8StateV {
        delay: if s.delay > 0 {
            (s.delay - 1) as u8
        } else {
            0u8
        },
        sound: if s.sound > 0 {
            (s.sound - 1) as u8
        } else {
            0u8
        },
        ..s
    }
}

/// One whole tick: an 11-instruction batch, then the timer rule if the
/// batch succeeded.
pub open spec fn spec_tick(s: Chip8StateV, cs: Seq<Choice>) -> StepOut {
    let out = spec_batch(s, cs, 0);
    if out.r is Ok {
        step_ok(spec_timers(out.s))
    } else {
        out
    }
}

/// Appending one choice to a batch that has not faulted executes it from
/// the batch's end state.
proof fn lemma_batch_snoc(s: Chip8StateV, cs: Seq<Choice>, c: Choice, i: nat)
    requires
        i <= cs.len(),
        spec_batch(s, cs, i).r is Ok,
    ensures
        spec_batch(s, cs.push(c), i) == spec_step(spec_batch(s, cs, i).s, c),
    decreases cs.len() - i,
{
    if i >= cs.len() {
        assert(cs.push(c)[i as int] == c);
        assert(spec_batch(s, cs, i) == step_ok(s));
        let out = spec_step(s, c);
        if out.r is Err {
            assert(spec_batch(s, cs.push(c), i) == out);
        } else {
            assert(out == step_ok(out.s));
            assert(spec_batch(out.s, cs.push(c), i + 1) == step_ok(out.s));
            assert(spec_batch(s, cs.push(c), i) == out);
        }
    } else {
        assert(cs.push(c)[i as int] == cs[i as int]);
        let out = spec_step(s, cs[i as int]);
        assert(out.r is Ok);
        lemma_batch_snoc(out.s, cs, c, i + 1);
        assert(spec_batch(s, cs, i) == spec_batch(out.s, cs, i + 1));
        assert(spec_batch(s, cs.push(c), i) == spec_batch(out.s, cs.push(c), i + 1));
    }
}

/// Once a batch has faulted, any further choices are ignored.
proof fn lemma_batch_extend_err(s: Chip8StateV, cs: Seq<Choice>, ext: Seq<Choice>, i: nat)
    requires
        i <= cs.len(),
        spec_batch(s, cs, i).r is Err,
    ensures
        spec_batch(s, cs + ext, i) == spec_batch(s, cs, i),
    decreases cs.len() - i,
{
    if i < cs.len() {
        assert((cs + ext)[i as int] == cs[i as int]);
        let out = spec_step(s, cs[i as int]);
        if !(out.r is Err) {
            lemma_batch_extend_err(out.s, cs, ext, i + 1);
        }
    }
}

/// The machine: either a live state, or a terminal fault carrying the
/// error kind and, when one was captured, the last state before the fault
/// became unrecoverable.  An unloaded machine is the fault
/// `(None, BadState)`.
pub struct Chip8<T: KeyWrapper, A: AudioWrapper> {
    pub state: Result<Chip8State, (Option<Chip8State>, Chip8Err)>,
    pub key_wrapper: T,
    pub audio_wrapper: A,
}

impl<T: KeyWrapper, A: AudioWrapper> Chip8<T, A> {
    /// Whatever state the machine holds is well-formed.
    pub open spec fn wf(&self) -> bool {
        match self.state {
            Ok(st) => st.wf(),
            Err((Some(st), _)) => st.wf(),
            Err((None, _)) => true,
        }
    }

    /// A machine with no state yet; ticking refuses to run until a program
    /// is loaded.
    pub fn new(key_wrapper: T, audio_wrapper: A) -> (r: Chip8<T, A>)
        ensures
            r.wf(),
            r.state == Err::<Chip8State, (Option<Chip8State>, Chip8Err)>(
                (None::<Chip8State>, Chip8Err::BadState),
            ),
            r.key_wrapper == key_wrapper,
            r.audio_wrapper == audio_wrapper,
    {
        Chip8 { state: Err((None, Chip8Err::BadState)), key_wrapper, audio_wrapper }
    }

    /// Loads a program: any prior state or fault is discarded, the audio is
    /// silenced, and the machine starts live at the 0x200 entry point.
    pub fn load_prog(&mut self, prog: &[u8])
        ensures
            final(self).wf(),
            final(self).key_wrapper == old(self).key_wrapper,
            final(self).state matches Ok(st) && st@ == spec_loaded(prog@),
    {
        self.audio_wrapper.stop();
        self.state = Ok(Chip8State::from_prog(prog));
    }

    /// Executes one instruction of the live state, consulting the random
    /// source and the key capability as the instruction demands, and
    /// starting the tone when the sound timer is set to a non-zero value.
    /// A fault is returned but the mutated state stays in place; freezing
    /// the machine is the tick driver's business.  On a machine that is
    /// not live, `BadState` is returned and nothing changes.
    pub fn run_optcode(&mut self) -> (r: Result<(), Chip8Err>)
        requires
            old(self).wf(),
        ensures
            final(self).wf(),
            final(self).key_wrapper == old(self).key_wrapper,
            match old(self).state {
                Ok(st) => exists|c: Choice|
                    valid_choice(c) && (final(self).state matches Ok(st1) && st1@ == spec_step(
                        st@,
                        c,
                    ).s && r == spec_step(st@, c).r),
                Err(_) => r == Err::<(), Chip8Err>(Chip8Err::BadState) && final(self).state == old(
                    self,
                ).state,
            },
    {
        let mut taken: Result<Chip8State, (Option<Chip8State>, Chip8Err)> = Err(
            (None, Chip8Err::BadState),
        );
        core::mem::swap(&mut self.state, &mut taken);
        match taken {
            Ok(mut st) => {
                let ghost pre = st@;
                let pc: usize = st.program_counter as usize;
                let b1: u8 = st.memory[pc % 4096];
                let b2: u8 = st.memory[(pc + 1) % 4096];
                let n1: u8 = b1 >> 4u8;
                let x: usize = (b1 & 0x0F) as usize;
                proof {
                    assert((b1 & 0x0Fu8) < 16) by (bit_vector);
                }
                let rand: u8 = if n1 == 0xC {
                    random_byte()
                } else {
                    0
                };
                let key_down: bool = if n1 == 0xE && (b2 == 0x9E || b2 == 0xA1) {
                    self.key_wrapper.is_pushed(st.data_registers[x])
                } else {
                    false
                };
                let key: Option<u8> = if n1 == 0xF && b2 == 0x0A {
                    self.key_wrapper.get_key()
                } else {
                    None
                };
                let r = st.step(rand, key_down, key);
                if n1 == 0xF && b2 == 0x18 && st.sound_timer > 0 {
                    self.audio_wrapper.play();
                }
                self.state = Ok(st);
                proof {
                    let c = Choice { rand, key_down, key };
                    assert(valid_choice(c) && (self.state matches Ok(st1) && st1@ == spec_step(
                        pre,
                        c,
                    ).s && r == spec_step(pre, c).r));
                }
                r
            },
            Err(e) => {
                self.state = Err(e);
                Err(Chip8Err::BadState)
            },
        }
    }

    /// One display tick: exactly 11 instructions in sequence, stopping at
    /// the first fault, then the timer rule; when the sound timer crosses
    /// from non-zero to zero the tone is stopped.  A fault freezes the
    /// machine: the state exactly as mutated by the instructions before the
    /// failing one is captured as the diagnostic snapshot and the audio is
    /// stopped.  On an unloaded or already faulted machine, `BadState`
    /// comes back and nothing changes.
    pub fn run_vblank(&mut self) -> (r: Result<(), Chip8Err>)
        requires
            old(self).wf(),
        ensures
            final(self).wf(),
            final(self).key_wrapper == old(self).key_wrapper,
            match old(self).state {
                Ok(st) => exists|cs: Seq<Choice>|
                    cs.len() == 11 && valid_choices(cs) && (match spec_tick(st@, cs).r {
                        Ok(_) => final(self).state matches Ok(st1) && st1@ == spec_tick(st@, cs).s
                            && r == Ok::<(), Chip8Err>(()),
                        Err(e) => final(self).state matches Err(p) && (p.0 matches Some(fs)
                            && fs@ == spec_tick(st@, cs).s) && p.1 == e && r == Err::<
                            (),
                            Chip8Err,
                        >(e),
                    }),
                Err(_) => r == Err::<(), Chip8Err>(Chip8Err::BadState) && final(self).state == old(
                    self,
                ).state,
            },
    {
        if self.state.is_err() {
            return Err(Chip8Err::BadState);
        }
        let ghost s0 = self.state->Ok_0@;
        let ghost mut cs: Seq<Choice> = Seq::empty();
        let mut fault: Option<Chip8Err> = None;
        let mut j: usize = 0;
        while j < 11 && fault.is_none()
            invariant
                self.wf(),
                j <= 11,
                cs.len() == j,
                valid_choices(cs),
                self.key_wrapper == old(self).key_wrapper,
                match fault {
                    None => self.state matches Ok(cur) && spec_batch(s0, cs, 0) == step_ok(cur@),
                    Some(e) => self.state matches Ok(cur) && spec_batch(s0, cs, 0) == step_err(
                        cur@,
                        e,
                    ),
                },
            decreases 11 - j,
        {
            let ghost prev = self.state->Ok_0@;
            let r = self.run_optcode();
            proof {
                let c = choose|c: Choice|
                    valid_choice(c) && (self.state matches Ok(st1) && st1@ == spec_step(
                        prev,
                        c,
                    ).s && r == spec_step(prev, c).r);
                lemma_batch_snoc(s0, cs, c, 0);
                cs = cs.push(c);
                assert(forall|i: int| 0 <= i < cs.len() ==> valid_choice(#[trigger] cs[i]));
            }
            match r {
                Ok(_) => {
                },
                Err(e) => {
                    fault = Some(e);
                },
            }
            j = j + 1;
        }
        match fault {
            None => {
                let mut taken: Result<Chip8State, (Option<Chip8State>, Chip8Err)> = Err(
                    (None, Chip8Err::BadState),
                );
                core::mem::swap(&mut self.state, &mut taken);
                match taken {
                    Ok(mut st) => {
                        if st.delay_timer > 0 {
                            st.delay_timer = st.delay_timer - 1;
                        }
                        if st.sound_timer > 0 {
                            st.sound_timer = st.sound_timer - 1;
                            if st.sound_timer == 0 {
                                self.audio_wrapper.stop();
                            }
                        }
                        self.state = Ok(st);
                    },
                    Err(e) => {
                        // cannot happen: the loop invariant keeps the state live
                        self.state = Err(e);
                    },
                }
                proof {
                    assert(spec_tick(s0, cs).r is Ok);
                    assert(self.state matches Ok(st1) && st1@ == spec_tick(s0, cs).s);
                }
                Ok(())
            },
            Some(e) => {
                proof {
                    let pad = Seq::new(
                        (11 - cs.len()) as nat,
                        |i: int| Choice { rand: 0, key_down: false, key: None },
                    );
                    lemma_batch_extend_err(s0, cs, pad, 0);
                    cs = cs + pad;
                    assert(forall|i: int| 0 <= i < cs.len() ==> valid_choice(#[trigger] cs[i]));
                }
                let mut taken: Result<Chip8State, (Option<Chip8State>, Chip8Err)> = Err(
                    (None, Chip8Err::BadState),
                );
                core::mem::swap(&mut self.state, &mut taken);
                match taken {
                    Ok(st) => {
                        self.state = Err((Some(st), e));
                    },
                    Err(er) => {
                        // cannot happen: the loop invariant keeps the state live
                        self.state = Err(er);
                    },
                }
                self.audio_wrapper.stop();
                proof {
                    assert(spec_tick(s0, cs).r == Err::<(), Chip8Err>(e));
                    assert(self.state matches Err(p) && (p.0 matches Some(fs) && fs@ == spec_tick(
                        s0,
                        cs,
                    ).s) && p.1 == e);
                }
                Err(e)
            },
        }
    }
}

} // verus!
