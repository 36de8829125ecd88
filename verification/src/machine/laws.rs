//! Laws of the machine: what holds of every state and every instruction.

use vstd::prelude::*;
use crate::machine::drawing::lemma_drawn_twice;
use crate::machine::drawing::lemma_second_draw_collides;
use crate::machine::drawing::lights_a_pixel;
use crate::machine::instruction::Instruction;
use crate::machine::semantics::add16;
use crate::machine::semantics::flag;
use crate::machine::semantics::MachineState;
use crate::machine::semantics::FLAG_REGISTER;
use crate::machine::stack::STACK_CAPACITY;

verus! {

/// Drawing a sprite twice in the same place gives the frame back as it was
/// before the first draw. The second draw turns off exactly the pixels that
/// the first one turned on, so it raises the collision flag if and only if
/// the first draw turned a pixel on; apart from the flag the machine is as
/// it was.
pub proof fn lemma_draw_twice(s: MachineState, x: u8, y: u8, n: u8)
    requires
        s.valid(),
    ensures
        s.draw(x, y, n).draw(x, y, n).frame == s.frame,
        s.draw(x, y, n).draw(x, y, n) == s.with_v(
            FLAG_REGISTER,
            flag(lights_a_pixel(s.frame, s.sprite(), x, y, n)),
        ),
{
    let sprite = s.sprite();
    let once = s.draw(x, y, n);
    let twice = once.draw(x, y, n);
    assert(once.sprite() == sprite);
    lemma_drawn_twice(s.frame, sprite, x, y, n);
    lemma_second_draw_collides(s.frame, sprite, x, y, n);
    assert(twice.frame == s.frame);
    assert(twice.registers.v =~= s.registers.v.update(
        FLAG_REGISTER as int,
        flag(lights_a_pixel(s.frame, sprite, x, y, n)),
    ));
}

/// A call puts the address of the instruction after it on the stack and
/// jumps; the return that follows takes that address off again and goes on
/// there, with the stack as it was before the call.
pub proof fn lemma_call_then_return(s: MachineState, addr: u16, random: u8)
    requires
        s.stack.len() < STACK_CAPACITY,
    ensures
        s.execute(Instruction::_2nnn(addr), random).pc == addr,
        s.execute(Instruction::_2nnn(addr), random).stack == s.stack.push(add16(s.pc, 2)),
        s.execute(Instruction::_2nnn(addr), random).fault_of(Instruction::_00EE) is None,
        s.execute(Instruction::_2nnn(addr), random).execute(Instruction::_00EE, random)
            == s.with_pc(add16(s.pc, 2)),
{
    let called = s.execute(Instruction::_2nnn(addr), random);
    let returned = called.execute(Instruction::_00EE, random);
    assert(returned.stack =~= s.stack);
}

/// While no key has been pressed, the wait for a key leaves the machine as
/// it is, program counter included, so the same instruction runs again.
/// Once a key has been pressed, the wait stores it in the target register
/// and the program counter moves on by 2.
pub proof fn lemma_key_wait(s: MachineState, x: u8, random: u8)
    requires
        s.valid(),
        x < 16,
    ensures
        s.current_key is None ==> s.execute(Instruction::_Fx0A(x), random) == s,
        s.current_key matches Some(key) ==> {
            &&& s.execute(Instruction::_Fx0A(x), random).pc == add16(s.pc, 2)
            &&& s.execute(Instruction::_Fx0A(x), random).v(x) == key
            &&& s.execute(Instruction::_Fx0A(x), random) == s.with_pc(add16(s.pc, 2)).with_v(
                x,
                key,
            )
        },
{
}

/// The sum of two registers is taken modulo 256, and `VF` tells whether it
/// went beyond 255. Where the sum goes to `VF` itself, the sum stays there.
pub proof fn lemma_add_with_carry(s: MachineState, x: u8, y: u8, random: u8)
    requires
        s.valid(),
        x < 16,
        y < 16,
    ensures
        s.execute(Instruction::_8xy4(x, y), random).v(x) == (s.v(x) + s.v(y)) % 256,
        x != FLAG_REGISTER ==> s.execute(Instruction::_8xy4(x, y), random).v(FLAG_REGISTER) == flag(
            s.v(x) + s.v(y) > 255,
        ),
{
}

/// The difference of two registers is taken modulo 256, and `VF` tells
/// whether the register that is taken from is the greater one. Where the
/// difference goes to `VF` itself, the difference stays there.
pub proof fn lemma_subtract_with_borrow(s: MachineState, x: u8, y: u8, random: u8)
    requires
        s.valid(),
        x < 16,
        y < 16,
    ensures
        s.execute(Instruction::_8xy5(x, y), random).v(x) == (s.v(x) - s.v(y)) % 256,
        s.execute(Instruction::_8xy7(x, y), random).v(x) == (s.v(y) - s.v(x)) % 256,
        x != FLAG_REGISTER ==> s.execute(Instruction::_8xy5(x, y), random).v(FLAG_REGISTER) == flag(
            s.v(x) > s.v(y),
        ),
        x != FLAG_REGISTER ==> s.execute(Instruction::_8xy7(x, y), random).v(FLAG_REGISTER) == flag(
            s.v(y) > s.v(x),
        ),
{
}

/// A shift to the right leaves the bit that was shifted out, the least
/// significant bit of the register's old value, in `VF`, whichever register
/// is shifted; any other register is left with half its old value.
pub proof fn lemma_shift_right_flag(s: MachineState, x: u8, random: u8)
    requires
        s.valid(),
        x < 16,
    ensures
        s.execute(Instruction::_8xy6(x), random).v(FLAG_REGISTER) == s.v(x) % 2,
        x != FLAG_REGISTER ==> s.execute(Instruction::_8xy6(x), random).v(x) == s.v(x) / 2,
{
}

/// A shift to the left leaves the bit that was shifted out, the most
/// significant bit of the register's old value, in `VF`, whichever register
/// is shifted.
pub proof fn lemma_shift_left_flag(s: MachineState, x: u8, random: u8)
    requires
        s.valid(),
        x < 16,
    ensures
        s.execute(Instruction::_8xyE(x), random).v(FLAG_REGISTER) == s.v(x) / 128,
{
}

/// An instruction that runs into no stop takes a valid state to a valid
/// state: the memory, the registers, the frame and the keypad keep their
/// sizes and the stack stays within its capacity.
pub proof fn lemma_execute_keeps_valid(s: MachineState, instruction: Instruction, random: u8)
    requires
        s.valid(),
        instruction.well_formed(),
        s.fault_of(instruction) is None,
    ensures
        s.execute(instruction, random).valid(),
{
}

/// The timers' cadence takes a valid state to a valid state.
pub proof fn lemma_clock_keeps_valid(s: MachineState)
    requires
        s.valid(),
    ensures
        s.clock().valid(),
{
}

} // verus!
