//! Direct decode-and-dispatch of byte instructions onto an executor.
//!
//! An [`Executor`] carries out the actual operations; it is the library
//! user's to implement. Each of its operations appends one [`Event`] to the
//! executor's abstract trace, and [`execute`] promises exactly which event a
//! byte dispatches to.

use vstd::prelude::*;

verus! {

/// One operation performed by an executor, with its register operands.
#[derive(Debug, Clone, Copy, PartialEq, Eq, Structural)]
pub enum Event {
    /// A call operation.
    Call,
    /// A return operation.
    Return,
    /// A value operation.
    Value,
    /// A conditional on one register.
    If(u8),
    /// A repeat counted by one register.
    Repeat(u8),
    /// A negation of one register.
    Not(u8),
    /// A push of one register.
    Push(u8),
    /// A pop into one register.
    Pop(u8),
    /// An increment of one register.
    Inc(u8),
    /// A decrement of one register.
    Dec(u8),
    /// A store through a register pair.
    Store(u8, u8),
    /// A load through a register pair.
    Load(u8, u8),
    /// An addition of a register pair.
    Add(u8, u8),
    /// A subtraction of a register pair.
    Sub(u8, u8),
    /// A multiplication of a register pair.
    Mul(u8, u8),
    /// A division of a register pair.
    Div(u8, u8),
    /// An equality test of a register pair.
    Eq(u8, u8),
    /// An order test of a register pair.
    Gt(u8, u8),
    /// A bitwise and of a register pair.
    And(u8, u8),
    /// A bitwise or of a register pair.
    Or(u8, u8),
    /// A bitwise exclusive or of a register pair.
    Xor(u8, u8),
    /// A reserved two-register operation.
    Unknown0(u8, u8),
    /// A reserved two-register operation.
    Unknown1(u8, u8),
}

/// Carries out decoded instructions. Implementors supply the actual
/// machinery; each operation appends exactly its event to the abstract
/// trace `events`.
pub trait Executor {
    /// The trace of operations performed so far, oldest first. Left
    /// unspecified unless an implementation overrides it: implementations
    /// are outside the verifier's reach, so each operation's promise about
    /// the trace is theirs to keep.
    open spec fn events(&self) -> Seq<Event> {
        vstd::pervasive::arbitrary()
    }

    /// Performs a call.
    fn call(&mut self)
        ensures
            final(self).events() == old(self).events().push(Event::Call),
    ;

    /// Performs a return.
    fn return_(&mut self)
        ensures
            final(self).events() == old(self).events().push(Event::Return),
    ;

    /// Performs a value operation.
    fn value(&mut self)
        ensures
            final(self).events() == old(self).events().push(Event::Value),
    ;

    /// Performs a conditional on register `r0`.
    fn if_(&mut self, r0: u8)
        ensures
            final(self).events() == old(self).events().push(Event::If(r0)),
    ;

    /// Performs a repeat counted by register `r0`.
    fn repeat(&mut self, r0: u8)
        ensures
            final(self).events() == old(self).events().push(Event::Repeat(r0)),
    ;

    /// Negates register `r0`.
    fn not(&mut self, r0: u8)
        ensures
            final(self).events() == old(self).events().push(Event::Not(r0)),
    ;

    /// Pushes register `r0`.
    fn push(&mut self, r0: u8)
        ensures
            final(self).events() == old(self).events().push(Event::Push(r0)),
    ;

    /// Pops into register `r0`.
    fn pop(&mut self, r0: u8)
        ensures
            final(self).events() == old(self).events().push(Event::Pop(r0)),
    ;

    /// Increments register `r0`.
    fn inc(&mut self, r0: u8)
        ensures
            final(self).events() == old(self).events().push(Event::Inc(r0)),
    ;

    /// Decrements register `r0`.
    fn dec(&mut self, r0: u8)
        ensures
            final(self).events() == old(self).events().push(Event::Dec(r0)),
    ;

    /// Stores through the register pair.
    fn store(&mut self, r0: u8, r1: u8)
        ensures
            final(self).events() == old(self).events().push(Event::Store(r0, r1)),
    ;

    /// Loads through the register pair.
    fn load(&mut self, r0: u8, r1: u8)
        ensures
            final(self).events() == old(self).events().push(Event::Load(r0, r1)),
    ;

    /// Adds the register pair.
    fn add(&mut self, r0: u8, r1: u8)
        ensures
            final(self).events() == old(self).events().push(Event::Add(r0, r1)),
    ;

    /// Subtracts the register pair.
    fn sub(&mut self, r0: u8, r1: u8)
        ensures
            final(self).events() == old(self).events().push(Event::Sub(r0, r1)),
    ;

    /// Multiplies the register pair.
    fn mul(&mut self, r0: u8, r1: u8)
        ensures
            final(self).events() == old(self).events().push(Event::Mul(r0, r1)),
    ;

    /// Divides the register pair.
    fn div(&mut self, r0: u8, r1: u8)
        ensures
            final(self).events() == old(self).events().push(Event::Div(r0, r1)),
    ;

    /// Tests the register pair for equality.
    fn eq(&mut self, r0: u8, r1: u8)
        ensures
            final(self).events() == old(self).events().push(Event::Eq(r0, r1)),
    ;

    /// Tests the register pair by order.
    fn gt(&mut self, r0: u8, r1: u8)
        ensures
            final(self).events() == old(self).events().push(Event::Gt(r0, r1)),
    ;

    /// Bitwise and of the register pair.
    fn and(&mut self, r0: u8, r1: u8)
        ensures
            final(self).events() == old(self).events().push(Event::And(r0, r1)),
    ;

    /// Bitwise or of the register pair.
    fn or(&mut self, r0: u8, r1: u8)
        ensures
            final(self).events() == old(self).events().push(Event::Or(r0, r1)),
    ;

    /// Bitwise exclusive or of the register pair.
    fn xor(&mut self, r0: u8, r1: u8)
        ensures
            final(self).events() == old(self).events().push(Event::Xor(r0, r1)),
    ;

    /// Performs the first reserved two-register operation.
    fn unknown0(&mut self, r0: u8, r1: u8)
        ensures
            final(self).events() == old(self).events().push(Event::Unknown0(r0, r1)),
    ;

    /// Performs the second reserved two-register operation.
    fn unknown1(&mut self, r0: u8, r1: u8)
        ensures
            final(self).events() == old(self).events().push(Event::Unknown1(r0, r1)),
    ;
}

/// The events that executing one byte instruction appends to the trace: one
/// event for an operation, none for the block delimiter byte and for a
/// pattern byte, both of which are no-ops.
pub open spec fn events_of(instruction: u8) -> Seq<Event> {
    let opcode = instruction >> 4u8;
    if opcode == 0 {
        if instruction == 0 {
            Seq::empty()
        } else if instruction == 1 {
            seq![Event::Call]
        } else if instruction == 2 {
            seq![Event::Return]
        } else if instruction == 3 {
            seq![Event::Value]
        } else if instruction <= 7 {
            seq![Event::If(instruction & 0x03)]
        } else if instruction <= 11 {
            seq![Event::Repeat(instruction & 0x03)]
        } else {
            seq![Event::Not(instruction & 0x03)]
        }
    } else if opcode == 1 {
        let operand = instruction & 0x0f;
        if operand <= 3 {
            seq![Event::Push(instruction & 0x03)]
        } else if operand <= 7 {
            seq![Event::Pop(instruction & 0x03)]
        } else if operand <= 11 {
            seq![Event::Inc(instruction & 0x03)]
        } else {
            seq![Event::Dec(instruction & 0x03)]
        }
    } else if opcode == 15 {
        Seq::empty()
    } else {
        let r0 = (instruction & 0x0c) >> 2u8;
        let r1 = instruction & 0x03;
        if opcode == 2 {
            seq![Event::Store(r0, r1)]
        } else if opcode == 3 {
            seq![Event::Load(r0, r1)]
        } else if opcode == 4 {
            seq![Event::Add(r0, r1)]
        } else if opcode == 5 {
            seq![Event::Sub(r0, r1)]
        } else if opcode == 6 {
            seq![Event::Mul(r0, r1)]
        } else if opcode == 7 {
            seq![Event::Div(r0, r1)]
        } else if opcode == 8 {
            seq![Event::Eq(r0, r1)]
        } else if opcode == 9 {
            seq![Event::Gt(r0, r1)]
        } else if opcode == 10 {
            seq![Event::And(r0, r1)]
        } else if opcode == 11 {
            seq![Event::Or(r0, r1)]
        } else if opcode == 12 {
            seq![Event::Xor(r0, r1)]
        } else if opcode == 13 {
            seq![Event::Unknown0(r0, r1)]
        } else {
            seq![Event::Unknown1(r0, r1)]
        }
    }
}

/// The register named by an instruction's two lowest bits.
pub fn register_operand(instruction: u8) -> (r: u8)
    ensures
        r == instruction & 0x03,
{
    instruction & 0b0000_0011
}

/// Decodes and dispatches one byte instruction whose opcode is 0: the block
/// delimiter no-op, the niladic operations, and the one-register operations.
pub fn execute_special0<E: Executor>(executor: &mut E, instruction: u8)
    requires
        instruction >> 4u8 == 0,
    ensures
        final(executor).events() == old(executor).events() + events_of(instruction),
{
    if instruction == 0 {
        // block is a no-op
    } else if instruction == 1 {
        executor.call();
    } else if instruction == 2 {
        executor.return_();
    } else if instruction == 3 {
        executor.value();
    } else if instruction <= 7 {
        executor.if_(register_operand(instruction));
    } else if instruction <= 11 {
        executor.repeat(register_operand(instruction));
    } else {
        executor.not(register_operand(instruction));
    }
    proof {
        assert(executor.events() =~= old(executor).events() + events_of(instruction));
    }
}

/// Decodes and dispatches one byte instruction whose opcode is 1: the stack
/// and counter operations, selected by the operand nibble.
pub fn execute_special1<E: Executor>(executor: &mut E, instruction: u8)
    requires
        instruction >> 4u8 == 1,
    ensures
        final(executor).events() == old(executor).events() + events_of(instruction),
{
    let operand = instruction & 0b0000_1111;
    if operand <= 3 {
        executor.push(register_operand(instruction));
    } else if operand <= 7 {
        executor.pop(register_operand(instruction));
    } else if operand <= 11 {
        executor.inc(register_operand(instruction));
    } else {
        executor.dec(register_operand(instruction));
    }
    proof {
        assert(executor.events() =~= old(executor).events() + events_of(instruction));
    }
}

/// Decodes and dispatches one byte instruction: the opcode is the high
/// nibble, the operands the low nibble. A pattern byte (opcode 15) and the
/// block delimiter byte are no-ops; every other byte performs exactly one
/// executor operation, as [`events_of`] states.
pub fn execute<E: Executor>(executor: &mut E, instruction: u8)
    ensures
        final(executor).events() == old(executor).events() + events_of(instruction),
{
    // first decode the opcode
    let opcode = instruction >> 4;
    proof {
        assert(instruction >> 4u8 <= 15) by (bit_vector);
    }
    if opcode == 0 {
        execute_special0(executor, instruction);
    } else if opcode == 1 {
        execute_special1(executor, instruction);
    } else if opcode <= 14 {
        // the operand is the low nibble, consisting of two two-bit registers
        let r0 = (instruction & 0b0000_1100) >> 2;
        let r1 = instruction & 0b0000_0011;
        if opcode == 2 {
            executor.store(r0, r1);
        } else if opcode == 3 {
            executor.load(r0, r1);
        } else if opcode == 4 {
            executor.add(r0, r1);
        } else if opcode == 5 {
            executor.sub(r0, r1);
        } else if opcode == 6 {
            executor.mul(r0, r1);
        } else if opcode == 7 {
            executor.div(r0, r1);
        } else if opcode == 8 {
            executor.eq(r0, r1);
        } else if opcode == 9 {
            executor.gt(r0, r1);
        } else if opcode == 10 {
            executor.and(r0, r1);
        } else if opcode == 11 {
            executor.or(r0, r1);
        } else if opcode == 12 {
            executor.xor(r0, r1);
        } else if opcode == 13 {
            executor.unknown0(r0, r1);
        } else {
            executor.unknown1(r0, r1);
        }
    } else {
        // pattern is a no-op
    }
    proof {
        assert(executor.events() =~= old(executor).events() + events_of(instruction));
    }
}

} // verus!
