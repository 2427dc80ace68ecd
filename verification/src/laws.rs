//! General laws of the instruction set, stated over the specification step
//! relation and proved once for every state and every capability answer.

use vstd::prelude::*;

use crate::engine::spec_step;
use crate::engine::Choice;
use crate::state::wf_state;
use crate::state::Chip8Err;
use crate::state::Chip8StateV;

verus! {

/// Add with carry: executing `8xy4` with `reg[x] = a` and `reg[y] = b`
/// leaves `reg[x] = (a + b) mod 256` and sets register 15 to 1 exactly when
/// `a + b` is 256 or more, for every state and every capability answer.
///
/// Register 15 cannot be the target, since the carry overwrites it there;
/// and naming one register as both operands is only possible with `a == b`.
pub proof fn lemma_add_carry(s: Chip8StateV, c: Choice, x: int, y: int, a: u8, b: u8)
    requires
        wf_state(s),
        0 <= x < 16,
        0 <= y < 16,
        x != 15,
        x == y ==> a == b,
        s.regs[x] == a,
        s.regs[y] == b,
        s.mem[s.pc as int % 4096] >> 4u8 == 8,
        s.mem[s.pc as int % 4096] & 0x0Fu8 == x,
        s.mem[(s.pc + 1) % 4096] >> 4u8 == y,
        s.mem[(s.pc + 1) % 4096] & 0x0Fu8 == 4,
    ensures
        spec_step(s, c).r == Ok::<(), Chip8Err>(()),
        spec_step(s, c).s.regs[x] == (a + b) % 256,
        spec_step(s, c).s.regs[15] == (if a + b >= 256 {
            1u8
        } else {
            0u8
        }),
{
}

/// Subtract with inverted borrow: executing `8xy5` with `reg[x] = a` and
/// `reg[y] = b` leaves register 15 at 0 exactly when `a < b` (a borrow
/// occurred), and at 1 otherwise, for every state and every capability
/// answer.  Naming one register as both operands is only possible with
/// `a == b`.
pub proof fn lemma_sub_borrow(s: Chip8StateV, c: Choice, x: int, y: int, a: u8, b: u8)
    requires
        wf_state(s),
        0 <= x < 16,
        0 <= y < 16,
        x == y ==> a == b,
        s.regs[x] == a,
        s.regs[y] == b,
        s.mem[s.pc as int % 4096] >> 4u8 == 8,
        s.mem[s.pc as int % 4096] & 0x0Fu8 == x,
        s.mem[(s.pc + 1) % 4096] >> 4u8 == y,
        s.mem[(s.pc + 1) % 4096] & 0x0Fu8 == 5,
    ensures
        spec_step(s, c).r == Ok::<(), Chip8Err>(()),
        (spec_step(s, c).s.regs[15] == 0) <==> (a < b),
{
}

/// A subroutine return on an empty call stack faults with `StackUnderFlow`
/// and changes nothing: in particular the program counter stays where it
/// was.
pub proof fn lemma_underflow_unchanged(s: Chip8StateV, c: Choice)
    requires
        wf_state(s),
        s.stack.len() == 0,
        s.mem[s.pc as int % 4096] == 0,
        s.mem[(s.pc + 1) % 4096] == 0xEE,
    ensures
        spec_step(s, c).r == Err::<(), Chip8Err>(Chip8Err::StackUnderFlow),
        spec_step(s, c).s == s,
{
    assert((0u8 >> 4u8) == 0 && (0u8 & 0x0Fu8) == 0) by (bit_vector);
}

} // verus!
