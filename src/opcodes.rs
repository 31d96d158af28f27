use vstd::prelude::*;

verus! {

pub const JUMP: u8 = 0x56;
pub const JUMPI: u8 = 0x57;
pub const PC: u8 = 0x58;
pub const INVALID: u8 = 0xFE;
pub const SELFDESTRUCT: u8 = 0xFF;
pub const PUSH1: u8 = 0x60;
pub const PUSH2: u8 = 0x61;
pub const PUSH32: u8 = 0x7F;
pub const ADD: u8 = 0x01;
/// Unconditional jump by a signed 16-bit offset.
pub const RJUMP: u8 = 0xE0;
/// Conditional jump by a signed 16-bit offset.
pub const RJUMPI: u8 = 0xE1;

pub open spec fn is_push(op: u8) -> bool {
    PUSH1 <= op <= PUSH32
}

/// How many immediate bytes a push opcode carries.
pub open spec fn push_len(op: u8) -> nat
    recommends
        is_push(op),
{
    (op - PUSH1 + 1) as nat
}

/// Number of immediate bytes of a push opcode.
pub fn push_size(op: u8) -> (r: usize)
    requires
        is_push(op),
    ensures
        r == push_len(op),
        1 <= r <= 32,
{
    (op - PUSH1 + 1) as usize
}

} // verus!
