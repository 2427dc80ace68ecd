//! The opcode engine: fetch, decode and execute one instruction.
//!
//! Every instruction is total: memory operands, the instruction fetch
//! included, address the 4096-byte space modulo its size, and the 16-bit
//! program counter and address register wrap on overflow.  An unlisted
//! nibble combination is an `UnknownOptcode` fault that leaves the state
//! unchanged and does not advance the counter.

use vstd::prelude::*;

use crate::screen::fb_flip;
use crate::screen::fb_get;
use crate::state::Chip8Err;
use crate::state::Chip8State;
use crate::state::Chip8StateV;

verus! {

/// The three outside answers one instruction may consume: a random byte,
/// whether the key named by the operand register is down, and the currently
/// pressed key, if any.
pub ghost struct Choice {
    pub rand: u8,
    pub key_down: bool,
    pub key: Option<u8>,
}

/// What a key capability may report: a pressed key is a hex digit.
pub open spec fn valid_choice(c: Choice) -> bool {
    c.key matches Some(k) ==> k < 16
}

/// One instruction's outcome: the state after it and success or fault.
pub ghost struct StepOut {
    pub s: Chip8StateV,
    pub r: Result<(), Chip8Err>,
}

/// A successful outcome.
pub open spec fn step_ok(s: Chip8StateV) -> StepOut {
    StepOut { s, r: Ok(()) }
}

/// A faulting outcome.
pub open spec fn step_err(s: Chip8StateV, e: Chip8Err) -> StepOut {
    StepOut { s, r: Err(e) }
}

/// `s` with the program counter advanced by `k` bytes, wrapping at 16 bits.
pub open spec fn pc_plus(s: Chip8StateV, k: u16) -> Chip8StateV {
    Chip8StateV { pc: s.pc.wrapping_add(k), ..s }
}

/// `s` with register `x` set to `v`.
pub open spec fn set_reg(s: Chip8StateV, x: int, v: u8) -> Chip8StateV {
    Chip8StateV { regs: s.regs.update(x, v), ..s }
}

/// The 12-bit operand address: the low nibble of the first opcode byte
/// followed by the whole second byte.
pub open spec fn spec_address(nibble: u8, byte: u8) -> u16 {
    ((nibble as u16) << 8u16) | (byte as u16)
}

/// Joins the low nibble of the first opcode byte with the second byte into
/// a 12-bit address.
pub fn convert_address(nibble: u8, byte: u8) -> (r: u16)
    requires
        nibble < 16,
    ensures
        r == spec_address(nibble, byte),
        r < 0x1000,
{
    let mut address: u16 = nibble as u16;
    address = address << 8u16;
    proof {
        assert(nibble < 16 ==> (((nibble as u16) << 8u16) | (byte as u16)) < 0x1000)
            by (bit_vector);
    }
    address | (byte as u16)
}

/// The machine-control family (first nibble 0): clear the screen, or return
/// from a subroutine; everything else in the family is unknown.
pub open spec fn spec_sys(s: Chip8StateV, x: int, b2: u8) -> StepOut {
    if x != 0 {
        step_err(s, Chip8Err::UnknownOptcode)
    } else if b2 == 0xE0 {
        step_ok(pc_plus(Chip8StateV { fb: Seq::new(256, |i: int| 0u8), ..s }, 2))
    } else if b2 == 0xEE {
        if s.stack.len() == 0 {
            step_err(s, Chip8Err::StackUnderFlow)
        } else {
            step_ok(
                Chip8StateV {
                    pc: s.stack[s.stack.len() - 1],
                    stack: s.stack.subrange(0, s.stack.len() - 1),
                    ..s
                },
            )
        }
    } else {
        step_err(s, Chip8Err::UnknownOptcode)
    }
}

/// The arithmetic/logic family (first nibble 8).  The value is stored first
/// and the flag register afterwards, so an operation that names register 15
/// as its target ends with the flag.
pub open spec fn spec_alu(s: Chip8StateV, x: int, y: int, n4: u8) -> StepOut {
    let a = s.regs[x];
    let b = s.regs[y];
    if n4 == 0 {
        step_ok(pc_plus(set_reg(s, x, b), 2))
    } else if n4 == 1 {
        step_ok(pc_plus(set_reg(s, x, a | b), 2))
    } else if n4 == 2 {
        step_ok(pc_plus(set_reg(s, x, a & b), 2))
    } else if n4 == 3 {
        step_ok(pc_plus(set_reg(s, x, a ^ b), 2))
    } else if n4 == 4 {
        let flag: u8 = if a + b > 255 { 1u8 } else { 0u8 };
        step_ok(pc_plus(Chip8StateV { regs: s.regs.update(x, a.wrapping_add(b)).update(15, flag), ..s }, 2))
    } else if n4 == 5 {
        let flag: u8 = if a >= b { 1u8 } else { 0u8 };
        step_ok(pc_plus(Chip8StateV { regs: s.regs.update(x, a.wrapping_sub(b)).update(15, flag), ..s }, 2))
    } else if n4 == 6 {
        step_ok(pc_plus(Chip8StateV { regs: s.regs.update(x, a >> 1u8).update(15, a & 1), ..s }, 2))
    } else if n4 == 7 {
        let flag: u8 = if b >= a { 1u8 } else { 0u8 };
        step_ok(pc_plus(Chip8StateV { regs: s.regs.update(x, b.wrapping_sub(a)).update(15, flag), ..s }, 2))
    } else if n4 == 0xE {
        let m = a & 0x80;
        step_ok(
            pc_plus(
                Chip8StateV { regs: s.regs.update(x, ((a - m) as u8) << 1u8).update(15, m >> 7u8), ..s },
                2,
            ),
        )
    } else {
        step_err(s, Chip8Err::UnknownOptcode)
    }
}

/// Whether bit `b` (0 is the most significant) of a sprite byte is set.
pub open spec fn sprite_bit(byte: u8, b: int) -> bool {
    byte & (0x80u8 >> (b as u8)) != 0
}

/// One sprite row XORed into frame-buffer row `row`, bits `b..8`, starting
/// at column `x0` and wrapping within the 64-pixel row; `flag` is the
/// running collision flag.
pub open spec fn spec_draw_row(
    fb: Seq<u8>,
    flag: bool,
    row: int,
    x0: int,
    byte: u8,
    b: nat,
) -> (Seq<u8>, bool)
    decreases 8 - b,
{
    if b >= 8 {
        (fb, flag)
    } else {
        let col = (x0 + b) % 64;
        if sprite_bit(byte, b as int) {
            let hit = fb_get(fb, col, row);
            spec_draw_row(fb_flip(fb, col, row), flag || hit, row, x0, byte, b + 1)
        } else {
            spec_draw_row(fb, flag, row, x0, byte, b + 1)
        }
    }
}

/// Sprite rows `i..n` drawn onto the frame buffer; drawing stops at the
/// bottom edge of the screen (no vertical wraparound).
pub open spec fn spec_draw_rows(
    fb: Seq<u8>,
    flag: bool,
    mem: Seq<u8>,
    addr: u16,
    x0: int,
    y0: int,
    n: nat,
    i: nat,
) -> (Seq<u8>, bool)
    decreases n - i,
{
    if i >= n || y0 + i >= 32 {
        (fb, flag)
    } else {
        let byte = mem[(addr + i) % 4096];
        let out = spec_draw_row(fb, flag, y0 + i, x0, byte, 0);
        spec_draw_rows(out.0, out.1, mem, addr, x0, y0, n, i + 1)
    }
}

/// The draw instruction: an `n`-row sprite read from memory at the address
/// register, drawn at `(reg[x] mod 64, reg[y])`; register 15 reports whether
/// any lit pixel was erased.
pub open spec fn spec_draw_op(s: Chip8StateV, x: int, y: int, n4: u8) -> StepOut {
    let x0 = s.regs[x] as int % 64;
    let y0 = s.regs[y] as int;
    let out = spec_draw_rows(s.fb, false, s.mem, s.addr, x0, y0, n4 as nat, 0);
    step_ok(
        pc_plus(
            Chip8StateV {
                fb: out.0,
                regs: s.regs.update(15, if out.1 { 1u8 } else { 0u8 }),
                ..s
            },
            2,
        ),
    )
}

/// The decimal expansion of `v` stored at the address register: hundreds,
/// tens, ones.
pub open spec fn spec_bcd(mem: Seq<u8>, addr: u16, v: u8) -> Seq<u8> {
    mem.update(addr as int % 4096, (v / 100) as u8).update((addr + 1) % 4096, ((v % 100) / 10) as u8)
        .update((addr + 2) % 4096, ((v % 100) % 10) as u8)
}

/// Registers `k..count` copied into memory starting `k` bytes past the
/// address register.
pub open spec fn spec_store(mem: Seq<u8>, regs: Seq<u8>, addr: u16, count: nat, k: nat) -> Seq<u8>
    decreases count - k,
{
    if k >= count {
        mem
    } else {
        spec_store(mem.update((addr + k) % 4096, regs[k as int]), regs, addr, count, k + 1)
    }
}

/// Memory starting at the address register copied into registers
/// `k..count`.
pub open spec fn spec_load(regs: Seq<u8>, mem: Seq<u8>, addr: u16, count: nat, k: nat) -> Seq<u8>
    decreases count - k,
{
    if k >= count {
        regs
    } else {
        spec_load(regs.update(k as int, mem[(addr + k) % 4096]), mem, addr, count, k + 1)
    }
}

/// The timer/memory family (first byte nibble F): timers, key wait, address
/// arithmetic, glyph lookup, decimal store, and register block transfer.
pub open spec fn spec_misc(s: Chip8StateV, c: Choice, x: int, b2: u8) -> StepOut {
    if b2 == 0x07 {
        step_ok(pc_plus(set_reg(s, x, s.delay), 2))
    } else if b2 == 0x0A {
        match c.key {
            Some(k) => step_ok(pc_plus(set_reg(s, x, k), 2)),
            None => step_ok(s),
        }
    } else if b2 == 0x15 {
        step_ok(pc_plus(Chip8StateV { delay: s.regs[x], ..s }, 2))
    } else if b2 == 0x18 {
        step_ok(pc_plus(Chip8StateV { sound: s.regs[x], ..s }, 2))
    } else if b2 == 0x1E {
        step_ok(pc_plus(Chip8StateV { addr: s.addr.wrapping_add(s.regs[x] as u16), ..s }, 2))
    } else if b2 == 0x29 {
        step_ok(pc_plus(Chip8StateV { addr: (s.regs[x] * 5) as u16, ..s }, 2))
    } else if b2 == 0x33 {
        step_ok(pc_plus(Chip8StateV { mem: spec_bcd(s.mem, s.addr, s.regs[x]), ..s }, 2))
    } else if b2 == 0x55 {
        step_ok(pc_plus(Chip8StateV { mem: spec_store(s.mem, s.regs, s.addr, (x + 1) as nat, 0), ..s }, 2))
    } else if b2 == 0x65 {
        step_ok(pc_plus(Chip8StateV { regs: spec_load(s.regs, s.mem, s.addr, (x + 1) as nat, 0), ..s }, 2))
    } else {
        step_err(s, Chip8Err::UnknownOptcode)
    }
}

/// Decode and execute the instruction at the program counter, given the
/// three outside answers of [`Choice`].  Unless the instruction sets the
/// counter itself (or is the key wait re-executing), the counter advances
/// by 2; a skip advances it by 4.
pub open spec fn spec_step(s: Chip8StateV, c: Choice) -> StepOut {
    let b1 = s.mem[s.pc as int % 4096];
    let b2 = s.mem[(s.pc + 1) % 4096];
    let n1 = b1 >> 4u8;
    let x = (b1 & 0x0Fu8) as int;
    let y = (b2 >> 4u8) as int;
    let n4 = b2 & 0x0Fu8;
    if n1 == 0 {
        spec_sys(s, x, b2)
    } else if n1 == 1 {
        step_ok(Chip8StateV { pc: spec_address(b1 & 0x0Fu8, b2), ..s })
    } else if n1 == 2 {
        step_ok(
            Chip8StateV {
                pc: spec_address(b1 & 0x0Fu8, b2),
                stack: s.stack.push(s.pc.wrapping_add(2)),
                ..s
            },
        )
    } else if n1 == 3 {
        step_ok(pc_plus(s, if s.regs[x] == b2 { 4u16 } else { 2u16 }))
    } else if n1 == 4 {
        step_ok(pc_plus(s, if s.regs[x] != b2 { 4u16 } else { 2u16 }))
    } else if n1 == 5 {
        if n4 != 0 {
            step_err(s, Chip8Err::UnknownOptcode)
        } else {
            step_ok(pc_plus(s, if s.regs[x] == s.regs[y] { 4u16 } else { 2u16 }))
        }
    } else if n1 == 6 {
        step_ok(pc_plus(set_reg(s, x, b2), 2))
    } else if n1 == 7 {
        step_ok(pc_plus(set_reg(s, x, s.regs[x].wrapping_add(b2)), 2))
    } else if n1 == 8 {
        spec_alu(s, x, y, n4)
    } else if n1 == 9 {
        if n4 != 0 {
            step_err(s, Chip8Err::UnknownOptcode)
        } else {
            step_ok(pc_plus(s, if s.regs[x] != s.regs[y] { 4u16 } else { 2u16 }))
        }
    } else if n1 == 0xA {
        step_ok(pc_plus(Chip8StateV { addr: spec_address(b1 & 0x0Fu8, b2), ..s }, 2))
    } else if n1 == 0xB {
        step_ok(Chip8StateV { pc: (spec_address(b1 & 0x0Fu8, b2) + s.regs[0]) as u16, ..s })
    } else if n1 == 0xC {
        step_ok(pc_plus(set_reg(s, x, c.rand & b2), 2))
    } else if n1 == 0xD {
        spec_draw_op(s, x, y, n4)
    } else if n1 == 0xE {
        if b2 == 0x9E {
            step_ok(pc_plus(s, if c.key_down { 4u16 } else { 2u16 }))
        } else if b2 == 0xA1 {
            step_ok(pc_plus(s, if !c.key_down { 4u16 } else { 2u16 }))
        } else {
            step_err(s, Chip8Err::UnknownOptcode)
        }
    } else if n1 == 0xF {
        spec_misc(s, c, x, b2)
    } else {
        step_err(s, Chip8Err::UnknownOptcode)
    }
}

/// Equal in every component except possibly the frame buffer.
pub open spec fn same_but_fb(a: Chip8StateV, b: Chip8StateV) -> bool {
    &&& a.regs == b.regs
    &&& a.addr == b.addr
    &&& a.mem == b.mem
    &&& a.pc == b.pc
    &&& a.stack == b.stack
    &&& a.delay == b.delay
    &&& a.sound == b.sound
}

/// Equal in every component except possibly memory.
pub open spec fn same_but_mem(a: Chip8StateV, b: Chip8StateV) -> bool {
    &&& a.regs == b.regs
    &&& a.addr == b.addr
    &&& a.fb == b.fb
    &&& a.pc == b.pc
    &&& a.stack == b.stack
    &&& a.delay == b.delay
    &&& a.sound == b.sound
}

/// Equal in every component except possibly the registers.
pub open spec fn same_but_regs(a: Chip8StateV, b: Chip8StateV) -> bool {
    &&& a.mem == b.mem
    &&& a.addr == b.addr
    &&& a.fb == b.fb
    &&& a.pc == b.pc
    &&& a.stack == b.stack
    &&& a.delay == b.delay
    &&& a.sound == b.sound
}

impl Chip8State {
    /// The machine-control family: clear the screen or return from a
    /// subroutine.
    fn op_sys(&mut self, n2: u8, b2: u8) -> (r: Result<(), Chip8Err>)
        requires
            old(self).wf(),
        ensures
            final(self).wf(),
            final(self)@ == spec_sys(old(self)@, n2 as int, b2).s,
            r == spec_sys(old(self)@, n2 as int, b2).r,
    {
        if n2 != 0 {
            return Err(Chip8Err::UnknownOptcode);
        }
        if b2 == 0xE0 {
            let mut i: usize = 0;
            while i < 256
                invariant
                    old(self).wf(),
                    self.wf(),
                    i <= 256,
                    same_but_fb(self@, old(self)@),
                    forall|j: int| 0 <= j < i ==> self.frame_buffer@[j] == 0u8,
                decreases 256 - i,
            {
                self.frame_buffer[i] = 0;
                i = i + 1;
            }
            assert(self.frame_buffer@ =~= Seq::new(256, |j: int| 0u8));
            self.program_counter = self.program_counter.wrapping_add(2);
            Ok(())
        } else if b2 == 0xEE {
            match self.stack.pop() {
                Some(a) => {
                    self.program_counter = a;
                    Ok(())
                },
                None => Err(Chip8Err::StackUnderFlow),
            }
        } else {
            Err(Chip8Err::UnknownOptcode)
        }
    }

    /// The arithmetic/logic family.
    fn op_alu(&mut self, x: usize, y: usize, n4: u8) -> (r: Result<(), Chip8Err>)
        requires
            old(self).wf(),
            x < 16,
            y < 16,
        ensures
            final(self).wf(),
            final(self)@ == spec_alu(old(self)@, x as int, y as int, n4).s,
            r == spec_alu(old(self)@, x as int, y as int, n4).r,
    {
        let a: u8 = self.data_registers[x];
        let b: u8 = self.data_registers[y];
        match n4 {
            0 => {
                self.data_registers[x] = b;
            },
            1 => {
                self.data_registers[x] = a | b;
            },
            2 => {
                self.data_registers[x] = a & b;
            },
            3 => {
                self.data_registers[x] = a ^ b;
            },
            4 => {
                let flag: u8 = if (a as u16) + (b as u16) > 255 {
                    1
                } else {
                    0
                };
                self.data_registers[x] = a.wrapping_add(b);
                self.data_registers[15] = flag;
            },
            5 => {
                let flag: u8 = if a >= b {
                    1
                } else {
                    0
                };
                self.data_registers[x] = a.wrapping_sub(b);
                self.data_registers[15] = flag;
            },
            6 => {
                self.data_registers[x] = a >> 1u8;
                self.data_registers[15] = a & 1;
            },
            7 => {
                let flag: u8 = if b >= a {
                    1
                } else {
                    0
                };
                self.data_registers[x] = b.wrapping_sub(a);
                self.data_registers[15] = flag;
            },
            0xE => {
                let m: u8 = a & 0x80;
                proof {
                    assert((a & 0x80u8) <= a) by (bit_vector);
                }
                self.data_registers[x] = (a - m) << 1u8;
                self.data_registers[15] = m >> 7u8;
            },
            _ => {
                return Err(Chip8Err::UnknownOptcode);
            },
        }
        self.program_counter = self.program_counter.wrapping_add(2);
        Ok(())
    }

    /// The draw instruction.
    fn op_draw(&mut self, x: usize, y: usize, n: u8)
        requires
            old(self).wf(),
            x < 16,
            y < 16,
            n < 16,
        ensures
            final(self).wf(),
            final(self)@ == spec_draw_op(old(self)@, x as int, y as int, n).s,
    {
        let ghost s0 = self@;
        let x0: usize = (self.data_registers[x] as usize) % 64;
        let y0: usize = self.data_registers[y] as usize;
        let addr: usize = self.address_register as usize;
        let count: usize = n as usize;
        let mut flag: bool = false;
        let mut i: usize = 0;
        let ghost target = spec_draw_rows(s0.fb, false, s0.mem, s0.addr, x0 as int, y0 as int, n as nat, 0);
        while i < count && y0 + i < 32
            invariant
                self.wf(),
                i <= count,
                count == n,
                x0 < 64,
                same_but_fb(self@, s0),
                x0 == s0.regs[x as int] as int % 64,
                y0 == s0.regs[y as int] as int,
                addr == s0.addr as int,
                target == spec_draw_rows(
                    self.frame_buffer@,
                    flag,
                    s0.mem,
                    s0.addr,
                    x0 as int,
                    y0 as int,
                    n as nat,
                    i as nat,
                ),
            decreases count - i,
        {
            let byte: u8 = self.memory[(addr + i) % 4096];
            let row: usize = y0 + i;
            let ghost fb_in = self.frame_buffer@;
            let ghost flag_in = flag;
            let ghost row_target = spec_draw_row(fb_in, flag_in, row as int, x0 as int, byte, 0);
            let mut b: usize = 0;
            while b < 8
                invariant
                    self.wf(),
                    b <= 8,
                    x0 < 64,
                    row < 32,
                    same_but_fb(self@, s0),
                    row_target == spec_draw_row(
                        self.frame_buffer@,
                        flag,
                        row as int,
                        x0 as int,
                        byte,
                        b as nat,
                    ),
                decreases 8 - b,
            {
                let ghost fb_pre = self.frame_buffer@;
                let ghost flag_pre = flag;
                let mask: u8 = 0x80u8 >> (b as u8);
                if byte & mask != 0 {
                    let col: usize = (x0 + b) % 64;
                    let idx: usize = row * 8 + col / 8;
                    let bitmask: u8 = 0x80u8 >> ((col % 8) as u8);
                    let prev: u8 = self.frame_buffer[idx];
                    if prev & bitmask != 0 {
                        flag = true;
                    }
                    self.frame_buffer[idx] = prev ^ bitmask;
                    proof {
                        let col_i = (x0 + b) as int % 64;
                        assert(idx == crate::screen::fb_index(col_i, row as int));
                        assert(bitmask == crate::screen::fb_mask(col_i));
                        assert(self.frame_buffer@ =~= fb_flip(fb_pre, col_i, row as int));
                        assert(flag == (flag_pre || fb_get(fb_pre, col_i, row as int)));
                    }
                }
                b = b + 1;
            }
            proof {
                assert(row_target == (self.frame_buffer@, flag));
                assert(byte == s0.mem[(s0.addr as int + i) % 4096]);
            }
            i = i + 1;
        }
        self.data_registers[15] = if flag {
            1
        } else {
            0
        };
        self.program_counter = self.program_counter.wrapping_add(2);
        assert(self@ == spec_draw_op(s0, x as int, y as int, n).s);
    }

    /// The decimal-store instruction.
    fn op_bcd(&mut self, x: usize)
        requires
            old(self).wf(),
            x < 16,
        ensures
            final(self).wf(),
            same_but_mem(final(self)@, pc_plus(old(self)@, 2)),
            final(self)@.mem == spec_bcd(old(self)@.mem, old(self)@.addr, old(self)@.regs[x as int]),
    {
        let v: u8 = self.data_registers[x];
        let addr: usize = self.address_register as usize;
        self.memory[addr % 4096] = v / 100;
        self.memory[(addr + 1) % 4096] = v % 100 / 10;
        self.memory[(addr + 2) % 4096] = v % 100 % 10;
        self.program_counter = self.program_counter.wrapping_add(2);
    }

    /// The register-block store instruction: registers 0 through `x` copied
    /// into memory at the address register.
    fn op_store(&mut self, x: usize)
        requires
            old(self).wf(),
            x < 16,
        ensures
            final(self).wf(),
            same_but_mem(final(self)@, pc_plus(old(self)@, 2)),
            final(self)@.mem == spec_store(
                old(self)@.mem,
                old(self)@.regs,
                old(self)@.addr,
                (x + 1) as nat,
                0,
            ),
    {
        let ghost s0 = self@;
        let addr: usize = self.address_register as usize;
        let mut k: usize = 0;
        while k < x + 1
            invariant
                self.wf(),
                k <= x + 1,
                x < 16,
                same_but_mem(self@, s0),
                addr == s0.addr as int,
                spec_store(s0.mem, s0.regs, s0.addr, (x + 1) as nat, 0) == spec_store(
                    self.memory@,
                    s0.regs,
                    s0.addr,
                    (x + 1) as nat,
                    k as nat,
                ),
            decreases x + 1 - k,
        {
            self.memory[(addr + k) % 4096] = self.data_registers[k];
            k = k + 1;
        }
        self.program_counter = self.program_counter.wrapping_add(2);
    }

    /// The register-block load instruction: memory at the address register
    /// copied into registers 0 through `x`.
    fn op_load(&mut self, x: usize)
        requires
            old(self).wf(),
            x < 16,
        ensures
            final(self).wf(),
            same_but_regs(final(self)@, pc_plus(old(self)@, 2)),
            final(self)@.regs == spec_load(
                old(self)@.regs,
                old(self)@.mem,
                old(self)@.addr,
                (x + 1) as nat,
                0,
            ),
    {
        let ghost s0 = self@;
        let addr: usize = self.address_register as usize;
        let mut k: usize = 0;
        while k < x + 1
            invariant
                self.wf(),
                k <= x + 1,
                x < 16,
                same_but_regs(self@, s0),
                addr == s0.addr as int,
                spec_load(s0.regs, s0.mem, s0.addr, (x + 1) as nat, 0) == spec_load(
                    self.data_registers@,
                    s0.mem,
                    s0.addr,
                    (x + 1) as nat,
                    k as nat,
                ),
            decreases x + 1 - k,
        {
            self.data_registers[k] = self.memory[(addr + k) % 4096];
            k = k + 1;
        }
        self.program_counter = self.program_counter.wrapping_add(2);
    }

    /// Executes the instruction at the program counter, given the three
    /// outside answers an instruction may consume: a random byte, whether
    /// the key named by the operand register is down, and the currently
    /// pressed key, if any.
    pub fn step(&mut self, rand: u8, key_down: bool, key: Option<u8>) -> (r: Result<(), Chip8Err>)
        requires
            old(self).wf(),
        ensures
            final(self).wf(),
            final(self)@ == spec_step(old(self)@, (Choice { rand, key_down, key })).s,
            r == spec_step(old(self)@, (Choice { rand, key_down, key })).r,
    {
        let pc: usize = self.program_counter as usize;
        let b1: u8 = self.memory[pc % 4096];
        let b2: u8 = self.memory[(pc + 1) % 4096];
        let n1: u8 = b1 >> 4u8;
        let n2: u8 = b1 & 0x0F;
        let n3: u8 = b2 >> 4u8;
        let n4: u8 = b2 & 0x0F;
        proof {
            assert(b1 >> 4u8 < 16 && (b1 & 0x0Fu8) < 16) by (bit_vector);
            assert(b2 >> 4u8 < 16 && (b2 & 0x0Fu8) < 16) by (bit_vector);
        }
        let x: usize = n2 as usize;
        let y: usize = n3 as usize;
        match n1 {
            0 => self.op_sys(n2, b2),
            1 => {
                self.program_counter = convert_address(n2, b2);
                Ok(())
            },
            2 => {
                let ret: u16 = self.program_counter.wrapping_add(2);
                self.stack.push(ret);
                self.program_counter = convert_address(n2, b2);
                Ok(())
            },
            3 => {
                let k: u16 = if self.data_registers[x] == b2 {
                    4
                } else {
                    2
                };
                self.program_counter = self.program_counter.wrapping_add(k);
                Ok(())
            },
            4 => {
                let k: u16 = if self.data_registers[x] != b2 {
                    4
                } else {
                    2
                };
                self.program_counter = self.program_counter.wrapping_add(k);
                Ok(())
            },
            5 => {
                if n4 != 0 {
                    return Err(Chip8Err::UnknownOptcode);
                }
                let k: u16 = if self.data_registers[x] == self.data_registers[y] {
                    4
                } else {
                    2
                };
                self.program_counter = self.program_counter.wrapping_add(k);
                Ok(())
            },
            6 => {
                self.data_registers[x] = b2;
                self.program_counter = self.program_counter.wrapping_add(2);
                Ok(())
            },
            7 => {
                self.data_registers[x] = self.data_registers[x].wrapping_add(b2);
                self.program_counter = self.program_counter.wrapping_add(2);
                Ok(())
            },
            8 => self.op_alu(x, y, n4),
            9 => {
                if n4 != 0 {
                    return Err(Chip8Err::UnknownOptcode);
                }
                let k: u16 = if self.data_registers[x] != self.data_registers[y] {
                    4
                } else {
                    2
                };
                self.program_counter = self.program_counter.wrapping_add(k);
                Ok(())
            },
            0xA => {
                self.address_register = convert_address(n2, b2);
                self.program_counter = self.program_counter.wrapping_add(2);
                Ok(())
            },
            0xB => {
                let base: u16 = convert_address(n2, b2);
                self.program_counter = base + self.data_registers[0] as u16;
                Ok(())
            },
            0xC => {
                self.data_registers[x] = rand & b2;
                self.program_counter = self.program_counter.wrapping_add(2);
                Ok(())
            },
            0xD => {
                self.op_draw(x, y, n4);
                Ok(())
            },
            0xE => {
                if b2 == 0x9E {
                    let k: u16 = if key_down {
                        4
                    } else {
                        2
                    };
                    self.program_counter = self.program_counter.wrapping_add(k);
                    Ok(())
                } else if b2 == 0xA1 {
                    let k: u16 = if !key_down {
                        4
                    } else {
                        2
                    };
                    self.program_counter = self.program_counter.wrapping_add(k);
                    Ok(())
                } else {
                    Err(Chip8Err::UnknownOptcode)
                }
            },
            0xF => {
                if b2 == 0x07 {
                    self.data_registers[x] = self.delay_timer;
                    self.program_counter = self.program_counter.wrapping_add(2);
                    Ok(())
                } else if b2 == 0x0A {
                    match key {
                        Some(k) => {
                            self.data_registers[x] = k;
                            self.program_counter = self.program_counter.wrapping_add(2);
                            Ok(())
                        },
                        None => Ok(()),
                    }
                } else if b2 == 0x15 {
                    self.delay_timer = self.data_registers[x];
                    self.program_counter = self.program_counter.wrapping_add(2);
                    Ok(())
                } else if b2 == 0x18 {
                    self.sound_timer = self.data_registers[x];
                    self.program_counter = self.program_counter.wrapping_add(2);
                    Ok(())
                } else if b2 == 0x1E {
                    self.address_register = self.address_register.wrapping_add(
                        self.data_registers[x] as u16,
                    );
                    self.program_counter = self.program_counter.wrapping_add(2);
                    Ok(())
                } else if b2 == 0x29 {
                    self.address_register = (self.data_registers[x] as u16) * 5;
                    self.program_counter = self.program_counter.wrapping_add(2);
                    Ok(())
                } else if b2 == 0x33 {
                    self.op_bcd(x);
                    Ok(())
                } else if b2 == 0x55 {
                    self.op_store(x);
                    Ok(())
                } else if b2 == 0x65 {
                    self.op_load(x);
                    Ok(())
                } else {
                    Err(Chip8Err::UnknownOptcode)
                }
            },
            _ => Err(Chip8Err::UnknownOptcode),
        }
    }
}

} // verus!
