//! The save-state contract: the machine state as one stable byte record,
//! and the parse back.  Every field is laid out in order, fixed-size and
//! big-endian, except the stack, which is length-prefixed.
//!
//! Layout: 16 register bytes; 2 bytes address register; 4096 memory bytes;
//! 2 bytes program counter; 8 bytes stack length; 2 bytes per stack entry;
//! delay timer; sound timer; 256 frame-buffer bytes.

use vstd::prelude::*;

use crate::state::wf_state;
use crate::state::Chip8State;
use crate::state::Chip8StateV;

verus! {

/// The high byte of a 16-bit value.
pub open spec fn u16_hi(x: u16) -> u8 {
    (x / 256) as u8
}

/// The low byte of a 16-bit value.
pub open spec fn u16_lo(x: u16) -> u8 {
    (x % 256) as u8
}

/// A 16-bit value from its high and low bytes.
pub open spec fn u16_of(hi: u8, lo: u8) -> u16 {
    (hi * 256 + lo) as u16
}

/// A 16-bit value survives the split into bytes.
pub proof fn lemma_u16_round(x: u16)
    ensures
        u16_of(u16_hi(x), u16_lo(x)) == x,
{
}

/// The two big-endian bytes of a 16-bit value.
pub open spec fn spec_u16_bytes(x: u16) -> Seq<u8> {
    seq![u16_hi(x), u16_lo(x)]
}

/// The eight big-endian bytes of a 64-bit value.
pub open spec fn spec_u64_bytes(x: u64) -> Seq<u8> {
    seq![
        ((x >> 56u64) & 0xFF) as u8,
        ((x >> 48u64) & 0xFF) as u8,
        ((x >> 40u64) & 0xFF) as u8,
        ((x >> 32u64) & 0xFF) as u8,
        ((x >> 24u64) & 0xFF) as u8,
        ((x >> 16u64) & 0xFF) as u8,
        ((x >> 8u64) & 0xFF) as u8,
        (x & 0xFF) as u8,
    ]
}

/// A 64-bit value from eight big-endian bytes.
pub open spec fn spec_u64_of(b: Seq<u8>) -> u64 {
    ((b[0] as u64) << 56u64) | ((b[1] as u64) << 48u64) | ((b[2] as u64) << 40u64) | ((b[3] as u64)
        << 32u64) | ((b[4] as u64) << 24u64) | ((b[5] as u64) << 16u64) | ((b[6] as u64) << 8u64)
        | (b[7] as u64)
}

/// A 64-bit value survives the split into bytes.
pub proof fn lemma_u64_round(x: u64)
    ensures
        spec_u64_of(spec_u64_bytes(x)) == x,
{
    assert(((((x >> 56u64) & 0xFF) as u8 as u64) << 56u64) | ((((x >> 48u64) & 0xFF) as u8 as u64)
        << 48u64) | ((((x >> 40u64) & 0xFF) as u8 as u64) << 40u64) | ((((x >> 32u64)
        & 0xFF) as u8 as u64) << 32u64) | ((((x >> 24u64) & 0xFF) as u8 as u64) << 24u64) | ((((x
        >> 16u64) & 0xFF) as u8 as u64) << 16u64) | ((((x >> 8u64) & 0xFF) as u8 as u64) << 8u64)
        | ((x & 0xFF) as u8 as u64) == x) by (bit_vector);
}

/// The stack entries as big-endian byte pairs, in order from the bottom.
pub open spec fn spec_stack_bytes(st: Seq<u16>) -> Seq<u8> {
    Seq::new(
        st.len() * 2,
        |i: int|
            if i % 2 == 0 {
                u16_hi(st[i / 2])
            } else {
                u16_lo(st[i / 2])
            },
    )
}

/// The whole state as one byte record.
pub open spec fn spec_snapshot(s: Chip8StateV) -> Seq<u8> {
    s.regs + spec_u16_bytes(s.addr) + s.mem + spec_u16_bytes(s.pc) + spec_u64_bytes(
        s.stack.len() as u64,
    ) + spec_stack_bytes(s.stack) + seq![s.delay, s.sound] + s.fb
}

/// The state a byte record describes, or `None` where the record does not
/// have the exact shape [`spec_snapshot`] produces.
pub open spec fn spec_parse(b: Seq<u8>) -> Option<Chip8StateV> {
    if b.len() < 4382 {
        None
    } else {
        let len = spec_u64_of(b.subrange(4116, 4124)) as int;
        if b.len() != 4382 + 2 * len {
            None
        } else {
            Some(
                Chip8StateV {
                    regs: b.subrange(0, 16),
                    addr: u16_of(b[16], b[17]),
                    mem: b.subrange(18, 4114),
                    pc: u16_of(b[4114], b[4115]),
                    stack: Seq::new(
                        len as nat,
                        |i: int| u16_of(b[4124 + 2 * i], b[4125 + 2 * i]),
                    ),
                    delay: b[4124 + 2 * len],
                    sound: b[4125 + 2 * len],
                    fb: b.subrange(4126 + 2 * len, 4382 + 2 * len),
                },
            )
        }
    }
}

/// Parsing a produced record gives back the state, bit for bit: every
/// well-formed state whose stack length fits the 8-byte prefix survives
/// the round trip unchanged.
pub proof fn lemma_snapshot_round_trip(s: Chip8StateV)
    requires
        wf_state(s),
        s.stack.len() <= u64::MAX,
    ensures
        spec_parse(spec_snapshot(s)) == Some(s),
{
    let b = spec_snapshot(s);
    let n = s.stack.len() as int;
    assert(b.len() == 4382 + 2 * n);
    lemma_u64_round(s.stack.len() as u64);
    assert(b.subrange(4116, 4124) =~= spec_u64_bytes(s.stack.len() as u64));
    assert(spec_u64_of(b.subrange(4116, 4124)) == s.stack.len() as u64);
    let p = spec_parse(b);
    assert(b.subrange(0, 16) =~= s.regs);
    lemma_u16_round(s.addr);
    assert(b[16] == u16_hi(s.addr) && b[17] == u16_lo(s.addr));
    assert(b.subrange(18, 4114) =~= s.mem);
    lemma_u16_round(s.pc);
    assert(b[4114] == u16_hi(s.pc) && b[4115] == u16_lo(s.pc));
    assert forall|i: int| 0 <= i < n implies u16_of(b[4124 + 2 * i], b[4125 + 2 * i])
        == s.stack[i] by {
        assert(b[4124 + 2 * i] == spec_stack_bytes(s.stack)[2 * i]);
        assert(b[4125 + 2 * i] == spec_stack_bytes(s.stack)[2 * i + 1]);
        lemma_u16_round(s.stack[i]);
    }
    assert(Seq::new(n as nat, |i: int| u16_of(b[4124 + 2 * i], b[4125 + 2 * i])) =~= s.stack);
    assert(b[4124 + 2 * n] == s.delay);
    assert(b[4125 + 2 * n] == s.sound);
    assert(b.subrange(4126 + 2 * n, 4382 + 2 * n) =~= s.fb);
    assert(p matches Some(v) && v == s);
}

/// Appends a whole byte vector.
fn push_bytes(v: &mut Vec<u8>, src: &Vec<u8>)
    ensures
        final(v)@ == old(v)@ + src@,
{
    let mut i: usize = 0;
    while i < src.len()
        invariant
            i <= src@.len(),
            v@ == old(v)@ + src@.subrange(0, i as int),
        decreases src@.len() - i,
    {
        v.push(src[i]);
        assert(v@ =~= old(v)@ + src@.subrange(0, i + 1));
        i = i + 1;
    }
    assert(v@ =~= old(v)@ + src@);
}

/// Appends a 16-bit value, big-endian.
fn push_u16(v: &mut Vec<u8>, x: u16)
    ensures
        final(v)@ == old(v)@ + spec_u16_bytes(x),
{
    v.push((x / 256) as u8);
    v.push((x % 256) as u8);
    assert(v@ =~= old(v)@ + spec_u16_bytes(x));
}

/// Appends a 64-bit value, big-endian.
fn push_u64(v: &mut Vec<u8>, x: u64)
    ensures
        final(v)@ == old(v)@ + spec_u64_bytes(x),
{
    v.push(((x >> 56u64) & 0xFF) as u8);
    v.push(((x >> 48u64) & 0xFF) as u8);
    v.push(((x >> 40u64) & 0xFF) as u8);
    v.push(((x >> 32u64) & 0xFF) as u8);
    v.push(((x >> 24u64) & 0xFF) as u8);
    v.push(((x >> 16u64) & 0xFF) as u8);
    v.push(((x >> 8u64) & 0xFF) as u8);
    v.push((x & 0xFF) as u8);
    assert(v@ =~= old(v)@ + spec_u64_bytes(x));
}

/// The bytes of a slice between two positions, as a vector.
fn copy_range(bytes: &[u8], start: usize, end: usize) -> (v: Vec<u8>)
    requires
        start <= end <= bytes@.len(),
    ensures
        v@ == bytes@.subrange(start as int, end as int),
{
    let mut v: Vec<u8> = Vec::new();
    let mut i: usize = start;
    while i < end
        invariant
            start <= i <= end <= bytes@.len(),
            v@ == bytes@.subrange(start as int, i as int),
        decreases end - i,
    {
        v.push(bytes[i]);
        assert(v@ =~= bytes@.subrange(start as int, i + 1));
        i = i + 1;
    }
    v
}

impl Chip8State {
    /// The state as one stable byte record, in the layout this module
    /// describes.
    pub fn to_snapshot(&self) -> (v: Vec<u8>)
        requires
            self.wf(),
        ensures
            v@ == spec_snapshot(self@),
    {
        let mut v: Vec<u8> = Vec::new();
        push_bytes(&mut v, &self.data_registers);
        push_u16(&mut v, self.address_register);
        push_bytes(&mut v, &self.memory);
        push_u16(&mut v, self.program_counter);
        let n: usize = self.stack.len();
        push_u64(&mut v, n as u64);
        let ghost base = v@;
        let mut i: usize = 0;
        while i < n
            invariant
                i <= n,
                n == self.stack@.len(),
                self.wf(),
                v@ == base + spec_stack_bytes(self.stack@.subrange(0, i as int)),
            decreases n - i,
        {
            push_u16(&mut v, self.stack[i]);
            assert(v@ =~= base + spec_stack_bytes(self.stack@.subrange(0, i + 1)));
            i = i + 1;
        }
        assert(self.stack@.subrange(0, n as int) =~= self.stack@);
        v.push(self.delay_timer);
        v.push(self.sound_timer);
        push_bytes(&mut v, &self.frame_buffer);
        assert(v@ =~= spec_snapshot(self@));
        v
    }

    /// The state a byte record describes, or `None` where the record does
    /// not have the exact shape [`Chip8State::to_snapshot`] produces.
    pub fn from_snapshot(bytes: &[u8]) -> (r: Option<Chip8State>)
        ensures
            match r {
                Some(st) => st.wf() && spec_parse(bytes@) == Some(st@),
                None => spec_parse(bytes@) is None,
            },
    {
        if bytes.len() < 4382 {
            return None;
        }
        let len64: u64 = ((bytes[4116] as u64) << 56u64) | ((bytes[4117] as u64) << 48u64) | ((
        bytes[4118] as u64) << 40u64) | ((bytes[4119] as u64) << 32u64) | ((bytes[4120] as u64)
            << 24u64) | ((bytes[4121] as u64) << 16u64) | ((bytes[4122] as u64) << 8u64) | (
        bytes[4123] as u64);
        proof {
            assert(bytes@.subrange(4116, 4124)[0] == bytes@[4116]);
            assert(bytes@.subrange(4116, 4124)[1] == bytes@[4117]);
            assert(bytes@.subrange(4116, 4124)[2] == bytes@[4118]);
            assert(bytes@.subrange(4116, 4124)[3] == bytes@[4119]);
            assert(bytes@.subrange(4116, 4124)[4] == bytes@[4120]);
            assert(bytes@.subrange(4116, 4124)[5] == bytes@[4121]);
            assert(bytes@.subrange(4116, 4124)[6] == bytes@[4122]);
            assert(bytes@.subrange(4116, 4124)[7] == bytes@[4123]);
            assert(len64 == spec_u64_of(bytes@.subrange(4116, 4124)));
        }
        let rem: usize = bytes.len() - 4382;
        if rem % 2 != 0 {
            return None;
        }
        if (rem / 2) as u64 != len64 {
            return None;
        }
        let n: usize = rem / 2;
        let mut stack: Vec<u16> = Vec::new();
        let mut i: usize = 0;
        while i < n
            invariant
                i <= n,
                4382 + 2 * n == bytes@.len(),
                bytes@.len() <= usize::MAX,
                stack@.len() == i,
                forall|j: int|
                    0 <= j < i ==> stack@[j] == u16_of(
                        bytes@[4124 + 2 * j],
                        bytes@[4125 + 2 * j],
                    ),
            decreases n - i,
        {
            let hi: u8 = bytes[4124 + 2 * i];
            let lo: u8 = bytes[4125 + 2 * i];
            stack.push((hi as u16) * 256 + (lo as u16));
            i = i + 1;
        }
        let st = Chip8State {
            data_registers: copy_range(bytes, 0, 16),
            address_register: (bytes[16] as u16) * 256 + (bytes[17] as u16),
            memory: copy_range(bytes, 18, 4114),
            program_counter: (bytes[4114] as u16) * 256 + (bytes[4115] as u16),
            stack,
            delay_timer: bytes[4124 + 2 * n],
            sound_timer: bytes[4125 + 2 * n],
            frame_buffer: copy_range(bytes, 4126 + 2 * n, 4382 + 2 * n),
        };
        proof {
            let p = spec_parse(bytes@);
            assert(p matches Some(v) && v.stack =~= st.stack@);
            assert(p matches Some(v) && v == st@);
        }
        Some(st)
    }
}

} // verus!
