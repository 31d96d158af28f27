use crate::error::EOFError;
use crate::parser::read_be16;
use crate::opcodes::{is_push, push_len, push_size, ADD, PUSH1, PUSH32, RJUMP, RJUMPI};
use vstd::prelude::*;

verus! {

/// Most entries a simulated stack holds.
pub const STACK_LIMIT: usize = 1024;

/// A bounded operand stack of single-byte placeholder values.
pub struct SimulatedStack(Vec<u8>);

impl View for SimulatedStack {
    type V = Seq<u8>;

    /// The entries, bottom first.
    closed spec fn view(&self) -> Seq<u8> {
        self.0@
    }
}

impl SimulatedStack {
    /// The stack never holds more than its limit.
    pub open spec fn wf(&self) -> bool {
        self@.len() <= STACK_LIMIT
    }

    pub fn new() -> (r: Self)
        ensures
            r@ == Seq::<u8>::empty(),
            r.wf(),
    {
        SimulatedStack(Vec::new())
    }

    /// Pushes `val`, or fails with `StackOverflow` when the stack is full.
    pub fn push(&mut self, val: u8) -> (r: Result<(), EOFError>)
        ensures
            old(self)@.len() >= STACK_LIMIT ==> r == Err::<(), EOFError>(EOFError::StackOverflow)
                && final(self)@ == old(self)@,
            old(self)@.len() < STACK_LIMIT ==> r == Ok::<(), EOFError>(()) && final(self)@
                == old(self)@.push(val),
            old(self).wf() ==> final(self).wf(),
    {
        if self.0.len() >= STACK_LIMIT {
            return Err(EOFError::StackOverflow);
        }
        self.0.push(val);
        Ok(())
    }

    /// Removes and returns the top entry, or fails with `StackUnderflow` when
    /// the stack is empty.
    pub fn pop(&mut self) -> (r: Result<u8, EOFError>)
        ensures
            old(self)@.len() == 0 ==> r == Err::<u8, EOFError>(EOFError::StackUnderflow)
                && final(self)@ == old(self)@,
            old(self)@.len() > 0 ==> r == Ok::<u8, EOFError>(old(self)@.last()) && final(self)@
                == old(self)@.drop_last(),
            old(self).wf() ==> final(self).wf(),
    {
        match self.0.pop() {
            Some(v) => Ok(v),
            None => Err(EOFError::StackUnderflow),
        }
    }

    /// The number of entries.
    pub fn len(&self) -> (r: usize)
        ensures
            r == self@.len(),
    {
        self.0.len()
    }
}

/// A big-endian signed 16-bit value.
pub open spec fn be_i16(hi: u8, lo: u8) -> int {
    let u = hi as int * 256 + lo as int;
    if u >= 0x8000 {
        u - 0x1_0000
    } else {
        u
    }
}

/// Where a relative jump at `pc` lands: the offset is counted from the end of
/// the 3-byte instruction, and the sum wraps as an unsigned machine word.
pub open spec fn jump_target(pc: usize, offset: int) -> usize {
    let t = pc + 3 + offset;
    if t < 0 {
        (t + usize::MAX + 1) as usize
    } else if t > usize::MAX {
        (t - usize::MAX - 1) as usize
    } else {
        t as usize
    }
}

/// The offset stored in the two bytes after the jump at `pc`.
pub open spec fn jump_offset(code: Seq<u8>, pc: usize) -> int {
    be_i16(code[pc + 1], code[pc + 2])
}

/// One step of the simulation: its outcome, the new cursor and the new stack.
pub open spec fn step_spec(code: Seq<u8>, pc: usize, st: Seq<u8>) -> (
    Result<(), EOFError>,
    usize,
    Seq<u8>,
) {
    if pc >= code.len() {
        (Err(EOFError::UnexpectedEndOfInput), pc, st)
    } else {
        let op = code[pc as int];
        if is_push(op) {
            if pc + 1 + push_len(op) > code.len() {
                (Err(EOFError::TruncatedPushData), pc, st)
            } else if st.len() >= STACK_LIMIT {
                (Err(EOFError::StackOverflow), pc, st)
            } else {
                (Ok(()), (pc + 1 + push_len(op)) as usize, st.push(op))
            }
        } else if op == ADD {
            if st.len() == 0 {
                (Err(EOFError::StackUnderflow), pc, st)
            } else if st.len() == 1 {
                (Err(EOFError::StackUnderflow), pc, st.drop_last())
            } else {
                (Ok(()), (pc + 1) as usize, st.drop_last().drop_last().push(0))
            }
        } else if op == RJUMP {
            if pc + 3 > code.len() {
                (Err(EOFError::UnexpectedEndOfInput), pc, st)
            } else {
                (Ok(()), jump_target(pc, jump_offset(code, pc)), st)
            }
        } else if op == RJUMPI {
            if pc + 3 > code.len() {
                (Err(EOFError::UnexpectedEndOfInput), pc, st)
            } else if st.len() == 0 {
                (Err(EOFError::StackUnderflow), pc, st)
            } else if st.last() != 0 {
                (Ok(()), jump_target(pc, jump_offset(code, pc)), st.drop_last())
            } else {
                (Ok(()), (pc + 3) as usize, st.drop_last())
            }
        } else {
            (Ok(()), (pc + 1) as usize, st)
        }
    }
}

fn read_offset(hi: u8, lo: u8) -> (r: isize)
    ensures
        r == be_i16(hi, lo),
{
    let u = read_be16(hi, lo);
    if u >= 0x8000 {
        (u as isize) - 0x1_0000
    } else {
        u as isize
    }
}

/// Simulates the one instruction at `*pc` of `code_section`: its effect on the
/// cursor and on the stack's height, with relative jumps taken from the end of
/// the jump instruction.
pub fn simulate_eof_step(code_section: &[u8], pc: &mut usize, stack: &mut SimulatedStack) -> (r:
    Result<(), EOFError>)
    requires
        old(stack).wf(),
    ensures
        (r, *final(pc), final(stack)@) == step_spec(code_section@, *old(pc), old(stack)@),
        final(stack).wf(),
{
    let len = code_section.len();
    if *pc >= len {
        return Err(EOFError::UnexpectedEndOfInput);
    }
    let opcode = code_section[*pc];
    if PUSH1 <= opcode && opcode <= PUSH32 {
        let n = push_size(opcode);
        if n >= len - *pc {
            return Err(EOFError::TruncatedPushData);
        }
        match stack.push(opcode) {
            Ok(()) => {},
            Err(e) => return Err(e),
        }
        *pc += n + 1;
    } else if opcode == ADD {
        match stack.pop() {
            Ok(_) => {},
            Err(e) => return Err(e),
        }
        match stack.pop() {
            Ok(_) => {},
            Err(e) => return Err(e),
        }
        match stack.push(0) {
            Ok(()) => {},
            Err(e) => return Err(e),
        }
        *pc += 1;
    } else if opcode == RJUMP {
        if len - *pc < 3 {
            return Err(EOFError::UnexpectedEndOfInput);
        }
        let offset = read_offset(code_section[*pc + 1], code_section[*pc + 2]);
        *pc = (*pc + 3).wrapping_add_signed(offset);
    } else if opcode == RJUMPI {
        if len - *pc < 3 {
            return Err(EOFError::UnexpectedEndOfInput);
        }
        let condition = match stack.pop() {
            Ok(v) => v,
            Err(e) => return Err(e),
        };
        let offset = read_offset(code_section[*pc + 1], code_section[*pc + 2]);
        if condition != 0 {
            *pc = (*pc + 3).wrapping_add_signed(offset);
        } else {
            *pc += 3;
        }
    } else {
        *pc += 1;
    }
    Ok(())
}

} // verus!
