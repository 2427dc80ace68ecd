//! The machine state: registers, memory, program counter, call stack, timers
//! and the packed monochrome frame buffer, together with construction and
//! program loading.

use vstd::prelude::*;

verus! {

/// The error kinds of the interpreter.
///
/// `UnknownOptcode`: a fetched instruction matches no entry in the dispatch
/// table.  `StackUnderFlow`: a subroutine return was executed with an empty
/// call stack.  `BadState`: an operation was requested on a machine that is
/// unloaded or already faulted.
#[derive(Copy, Clone, Debug, PartialEq, Eq, Structural)]
pub enum Chip8Err {
    UnknownOptcode,
    StackUnderFlow,
    BadState,
}

impl Chip8Err {
    /// A human-readable description of the error.
    pub fn message(&self) -> (s: &'static str)
        ensures
            *self == Chip8Err::UnknownOptcode ==> s@ == "There was an unknown optcode."@,
            *self == Chip8Err::StackUnderFlow ==> s@ == "There was a stack underflow"@,
            *self == Chip8Err::BadState ==> s@ == "An invalid state was executed"@,
    {
        match *self {
            Chip8Err::UnknownOptcode => "There was an unknown optcode.",
            Chip8Err::StackUnderFlow => "There was a stack underflow",
            Chip8Err::BadState => "An invalid state was executed",
        }
    }
}

/// The mathematical model of a machine state.
pub ghost struct Chip8StateV {
    /// The 16 general 8-bit registers; register 15 doubles as the flag register.
    pub regs: Seq<u8>,
    /// The 16-bit address register used by memory-indexed operations.
    pub addr: u16,
    /// The 4096 bytes of memory.
    pub mem: Seq<u8>,
    /// The 16-bit program counter.
    pub pc: u16,
    /// The call stack of 16-bit return addresses; the last element is the top.
    pub stack: Seq<u16>,
    /// The delay timer, decremented once per tick while non-zero.
    pub delay: u8,
    /// The sound timer, decremented once per tick while non-zero.
    pub sound: u8,
    /// The frame buffer: 32 rows of 8 bytes each, row-major, 256 bytes in all.
    /// Bit 7 of a row's first byte is the leftmost pixel of that row.
    pub fb: Seq<u8>,
}

/// The fixed sizes of the state's components.
pub open spec fn wf_state(s: Chip8StateV) -> bool {
    &&& s.regs.len() == 16
    &&& s.mem.len() == 4096
    &&& s.fb.len() == 256
}

/// A complete, snapshot-ready machine state.
///
/// The frame buffer is kept as one flat, row-major vector of 32 rows times
/// 8 packed bytes; bit 7 of byte `8 * y` is the leftmost pixel of row `y`.
#[derive(Clone)]
pub struct Chip8State {
    pub data_registers: Vec<u8>,
    pub address_register: u16,
    pub memory: Vec<u8>,
    pub program_counter: u16,
    /// The call stack grows without an enforced bound; popping it empty is
    /// an error, never silently ignored.
    pub stack: Vec<u16>,
    pub delay_timer: u8,
    pub sound_timer: u8,
    pub frame_buffer: Vec<u8>,
}

impl View for Chip8State {
    type V = Chip8StateV;

    open spec fn view(&self) -> Chip8StateV {
        Chip8StateV {
            regs: self.data_registers@,
            addr: self.address_register,
            mem: self.memory@,
            pc: self.program_counter,
            stack: self.stack@,
            delay: self.delay_timer,
            sound: self.sound_timer,
            fb: self.frame_buffer@,
        }
    }
}

/// The built-in glyph table: one 5-byte bitmap for each hex digit 0 to F,
/// 80 bytes in all, preloaded at address 0.
pub open spec fn spec_font() -> Seq<u8> {
    seq![
        0xF0u8, 0x90u8, 0x90u8, 0x90u8, 0xF0u8,
        0x20u8, 0x60u8, 0x20u8, 0x20u8, 0x70u8,
        0xF0u8, 0x10u8, 0xF0u8, 0x80u8, 0xF0u8,
        0xF0u8, 0x10u8, 0xF0u8, 0x10u8, 0xF0u8,
        0x90u8, 0x90u8, 0xF0u8, 0x10u8, 0x10u8,
        0xF0u8, 0x80u8, 0xF0u8, 0x10u8, 0xF0u8,
        0xF0u8, 0x80u8, 0xF0u8, 0x90u8, 0xF0u8,
        0xF0u8, 0x10u8, 0x20u8, 0x40u8, 0x40u8,
        0xF0u8, 0x90u8, 0xF0u8, 0x90u8, 0xF0u8,
        0xF0u8, 0x90u8, 0xF0u8, 0x10u8, 0xF0u8,
        0xF0u8, 0x90u8, 0xF0u8, 0x90u8, 0x90u8,
        0xE0u8, 0x90u8, 0xE0u8, 0x90u8, 0xE0u8,
        0xF0u8, 0x80u8, 0x80u8, 0x80u8, 0xF0u8,
        0xE0u8, 0x90u8, 0x90u8, 0x90u8, 0xE0u8,
        0xF0u8, 0x80u8, 0xF0u8, 0x80u8, 0xF0u8,
        0xF0u8, 0x80u8, 0xF0u8, 0x80u8, 0x80u8,
    ]
}

/// Memory right after loading `prog`: the glyph table at address 0, the
/// program at 0x200, zero everywhere else.  Program bytes past the 3584-byte
/// capacity (4096 minus the reserved 512) are not copied.
pub open spec fn spec_load_mem(prog: Seq<u8>) -> Seq<u8> {
    Seq::new(
        4096,
        |i: int|
            if i < 80 {
                spec_font()[i]
            } else if 0x200 <= i && i - 0x200 < prog.len() {
                prog[i - 0x200]
            } else {
                0u8
            },
    )
}

/// The state right after loading `prog`: zeroed registers, timers, stack and
/// frame buffer, memory as [`spec_load_mem`], program counter at 0x200.
pub open spec fn spec_loaded(prog: Seq<u8>) -> Chip8StateV {
    Chip8StateV {
        regs: Seq::new(16, |i: int| 0u8),
        addr: 0u16,
        mem: spec_load_mem(prog),
        pc: 0x200u16,
        stack: Seq::empty(),
        delay: 0u8,
        sound: 0u8,
        fb: Seq::new(256, |i: int| 0u8),
    }
}

/// A vector of `n` zero bytes.
fn zero_bytes(n: usize) -> (v: Vec<u8>)
    ensures
        v@ == Seq::new(n as nat, |i: int| 0u8),
{
    let mut v: Vec<u8> = Vec::new();
    let mut i: usize = 0;
    while i < n
        invariant
            i <= n,
            v@ == Seq::new(i as nat, |j: int| 0u8),
        decreases n - i,
    {
        v.push(0);
        i = i + 1;
    }
    v
}

/// Appends one 5-byte glyph to the table under construction.
fn push_glyph(v: &mut Vec<u8>, a: u8, b: u8, c: u8, d: u8, e: u8)
    ensures
        final(v)@ == old(v)@ + seq![a, b, c, d, e],
{
    v.push(a);
    v.push(b);
    v.push(c);
    v.push(d);
    v.push(e);
    assert(v@ =~= old(v)@ + seq![a, b, c, d, e]);
}

/// The glyph table as an executable vector.
fn font_table() -> (v: Vec<u8>)
    ensures
        v@ == spec_font(),
{
    let mut v: Vec<u8> = Vec::new();
    push_glyph(&mut v, 0xF0, 0x90, 0x90, 0x90, 0xF0);
    push_glyph(&mut v, 0x20, 0x60, 0x20, 0x20, 0x70);
    push_glyph(&mut v, 0xF0, 0x10, 0xF0, 0x80, 0xF0);
    push_glyph(&mut v, 0xF0, 0x10, 0xF0, 0x10, 0xF0);
    push_glyph(&mut v, 0x90, 0x90, 0xF0, 0x10, 0x10);
    push_glyph(&mut v, 0xF0, 0x80, 0xF0, 0x10, 0xF0);
    push_glyph(&mut v, 0xF0, 0x80, 0xF0, 0x90, 0xF0);
    push_glyph(&mut v, 0xF0, 0x10, 0x20, 0x40, 0x40);
    push_glyph(&mut v, 0xF0, 0x90, 0xF0, 0x90, 0xF0);
    push_glyph(&mut v, 0xF0, 0x90, 0xF0, 0x10, 0xF0);
    push_glyph(&mut v, 0xF0, 0x90, 0xF0, 0x90, 0x90);
    push_glyph(&mut v, 0xE0, 0x90, 0xE0, 0x90, 0xE0);
    push_glyph(&mut v, 0xF0, 0x80, 0x80, 0x80, 0xF0);
    push_glyph(&mut v, 0xE0, 0x90, 0x90, 0x90, 0xE0);
    push_glyph(&mut v, 0xF0, 0x80, 0xF0, 0x80, 0xF0);
    push_glyph(&mut v, 0xF0, 0x80, 0xF0, 0x80, 0x80);
    assert(v@ =~= spec_font());
    v
}

impl Chip8State {
    /// The state's internal invariant: the fixed component sizes.
    pub open spec fn wf(&self) -> bool {
        wf_state(self@)
    }

    /// A zeroed state with the glyph table in low memory and the program
    /// counter at the 0x200 entry point.
    pub fn new() -> (r: Chip8State)
        ensures
            r@ == spec_loaded(Seq::<u8>::empty()),
            r.wf(),
    {
        let mut memory = font_table();
        let mut i: usize = 80;
        while i < 4096
            invariant
                80 <= i <= 4096,
                memory@.len() == i,
                forall|j: int| 0 <= j < 80 ==> memory@[j] == spec_font()[j],
                forall|j: int| 80 <= j < i ==> memory@[j] == 0u8,
            decreases 4096 - i,
        {
            memory.push(0);
            i = i + 1;
        }
        let r = Chip8State {
            data_registers: zero_bytes(16),
            address_register: 0,
            memory,
            program_counter: 0x200,
            stack: Vec::new(),
            delay_timer: 0,
            sound_timer: 0,
            frame_buffer: zero_bytes(256),
        };
        assert(r@.mem =~= spec_load_mem(Seq::<u8>::empty()));
        assert(r@ == spec_loaded(Seq::<u8>::empty()));
        r
    }

    /// A fresh state with `prog` copied into memory starting at 0x200.
    /// Bytes past the 3584-byte capacity are not copied.
    pub fn from_prog(prog: &[u8]) -> (r: Chip8State)
        ensures
            r@ == spec_loaded(prog@),
            r.wf(),
    {
        let mut r = Chip8State::new();
        let count: usize = if prog.len() < 3584 {
            prog.len()
        } else {
            3584
        };
        let mut i: usize = 0;
        while i < count
            invariant
                0 <= i <= count,
                count <= prog@.len(),
                count == if prog@.len() < 3584 { prog@.len() } else { 3584nat },
                r.data_registers@ == spec_loaded(prog@).regs,
                r.address_register == spec_loaded(prog@).addr,
                r.program_counter == spec_loaded(prog@).pc,
                r.stack@ == spec_loaded(prog@).stack,
                r.delay_timer == spec_loaded(prog@).delay,
                r.sound_timer == spec_loaded(prog@).sound,
                r.frame_buffer@ == spec_loaded(prog@).fb,
                r.memory@.len() == 4096,
                forall|j: int|
                    0 <= j < 4096 && !(0x200 <= j < 0x200 + i) ==> r.memory@[j] == spec_load_mem(
                        Seq::<u8>::empty(),
                    )[j],
                forall|j: int| 0x200 <= j < 0x200 + i ==> r.memory@[j] == prog@[j - 0x200],
            decreases count - i,
        {
            r.memory[0x200 + i] = prog[i];
            i = i + 1;
        }
        proof {
            assert forall|j: int| 0 <= j < 4096 implies r.memory@[j] == spec_load_mem(prog@)[j] by {
                if 0x200 <= j && j < 0x200 + count {
                    assert(r.memory@[j] == prog@[j - 0x200]);
                } else {
                    assert(r.memory@[j] == spec_load_mem(Seq::<u8>::empty())[j]);
                }
            }
            assert(r.memory@ =~= spec_load_mem(prog@));
        }
        assert(r@ == spec_loaded(prog@));
        r
    }
}

} // verus!
