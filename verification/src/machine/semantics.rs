//! What the machine is, as a mathematical value, and what each instruction
//! and each step does to it.

use vstd::prelude::*;
use crate::machine::drawing::blank_frame;
use crate::machine::drawing::collides;
use crate::machine::drawing::drawn_frame;
use crate::machine::drawing::visible_rows;
use crate::machine::instruction::decode_spec;
use crate::machine::instruction::Instruction;
use crate::machine::ram::overwrite;
use crate::machine::ram::MEMORY_SIZE;
use crate::machine::registers::RegistersView;
use crate::machine::registers::REGISTER_COUNT;
use crate::machine::stack::STACK_CAPACITY;

verus! {

/// Width of the screen in pixels.
pub const DISPLAY_COLS: usize = 64;

/// Height of the screen in pixels.
pub const DISPLAY_ROWS: usize = 32;

/// Number of bytes in a packed frame of the screen.
pub const FRAME_BYTES: usize = 256;

/// Number of keys on the keypad.
pub const KEY_COUNT: usize = 16;

/// Address at which a program is loaded and started.
pub const PROGRAM_OFFSET: usize = 0x200;

/// Number of steps after which both timers count down once.
pub const STEPS_PER_TIMER_TICK: u8 = 15;

/// Number of bytes of one glyph of the built-in font.
pub const GLYPH_BYTES: u8 = 5;

/// Index of the register that receives carry, borrow and collision flags.
pub const FLAG_REGISTER: u8 = 0x0F;

/// The conditions that stop the machine for good.
#[derive(Debug, Clone, Copy, PartialEq, Eq, Structural)]
pub enum Fault {
    /// The word at the program counter is no instruction.
    Decode,
    /// An instruction, or the fetch of one, reaches past the end of the
    /// memory.
    MemoryBounds,
    /// A call finds the stack full.
    StackOverflow,
    /// A return finds the stack empty.
    StackUnderflow,
}

/// The whole state of a machine.
pub struct MachineState {
    /// The memory, by address.
    pub memory: Seq<u8>,
    /// The register file.
    pub registers: RegistersView,
    /// The return addresses, oldest first.
    pub stack: Seq<u16>,
    /// The program counter.
    pub pc: u16,
    /// The packed frame of the screen.
    pub frame: Seq<u8>,
    /// For each key, whether it is held down.
    pub keys: Seq<bool>,
    /// The key that was pressed last, if any was since the keys were
    /// cleared.
    pub current_key: Option<u8>,
    /// Steps taken since the timers last counted down.
    pub tick: u8,
}

/// `a + b` on sixteen bits: the sum wraps around at `0x1_0000`.
pub open spec fn add16(a: u16, b: u16) -> u16 {
    if a + b > u16::MAX {
        (a + b - 0x1_0000) as u16
    } else {
        (a + b) as u16
    }
}

/// `a + b` on eight bits: the sum wraps around at `0x100`.
pub open spec fn add8(a: u8, b: u8) -> u8 {
    if a + b > u8::MAX {
        (a + b - 0x100) as u8
    } else {
        (a + b) as u8
    }
}

/// `a - b` on eight bits: the difference wraps around below zero.
pub open spec fn sub8(a: u8, b: u8) -> u8 {
    if a < b {
        (a - b + 0x100) as u8
    } else {
        (a - b) as u8
    }
}

/// The flag value for `condition`.
pub open spec fn flag(condition: bool) -> u8 {
    if condition {
        1
    } else {
        0
    }
}

/// `timer` counted down once, stopping at zero.
pub open spec fn count_down(timer: u8) -> u8 {
    if timer > 0 {
        (timer - 1) as u8
    } else {
        0
    }
}

/// Whether `key` is a key of the keypad that is held down.
pub open spec fn key_down(keys: Seq<bool>, key: u8) -> bool {
    key < KEY_COUNT && keys[key as int]
}

impl MachineState {
    /// Whether the parts have the sizes of the machine's parts.
    pub open spec fn valid(self) -> bool {
        &&& self.memory.len() == MEMORY_SIZE
        &&& self.registers.v.len() == REGISTER_COUNT
        &&& self.stack.len() <= STACK_CAPACITY
        &&& self.frame.len() == FRAME_BYTES
        &&& self.keys.len() == KEY_COUNT
        &&& self.tick < STEPS_PER_TIMER_TICK
    }

    /// The value of general register `x`.
    pub open spec fn v(self, x: u8) -> u8 {
        self.registers.v[x as int]
    }

    /// The state with `byte` in general register `x`.
    pub open spec fn with_v(self, x: u8, byte: u8) -> MachineState {
        MachineState {
            registers: RegistersView { v: self.registers.v.update(x as int, byte), ..self.registers },
            ..self
        }
    }

    /// The state with `i` in the index register.
    pub open spec fn with_i(self, i: u16) -> MachineState {
        MachineState { registers: RegistersView { i, ..self.registers }, ..self }
    }

    /// The state with the program counter at `pc`.
    pub open spec fn with_pc(self, pc: u16) -> MachineState {
        MachineState { pc, ..self }
    }

    /// The state with the next instruction skipped if `condition` holds.
    pub open spec fn skip_next_if(self, condition: bool) -> MachineState {
        if condition {
            self.with_pc(add16(self.pc, 2))
        } else {
            self
        }
    }

    /// The bytes from the index register's address on, as far as the memory
    /// goes: where a sprite's rows are read.
    pub open spec fn sprite(self) -> Seq<u8> {
        self.memory.subrange(self.registers.i as int, self.memory.len() as int)
    }

    /// The state after the `n`-row sprite at the index register's address is
    /// drawn at `(x % DISPLAY_COLS, y % DISPLAY_ROWS)`. What would lie
    /// beyond the right or the bottom edge is dropped. `VF` tells whether a
    /// pixel was turned off.
    pub open spec fn draw(self, x: u8, y: u8, n: u8) -> MachineState {
        MachineState {
            frame: drawn_frame(self.frame, self.sprite(), x, y, n),
            ..self.with_v(FLAG_REGISTER, flag(collides(self.frame, self.sprite(), x, y, n)))
        }
    }

    /// The stop that `instruction` runs into, if it does.
    pub open spec fn fault_of(self, instruction: Instruction) -> Option<Fault> {
        match instruction {
            Instruction::_00EE => if self.stack.len() == 0 {
                Some(Fault::StackUnderflow)
            } else {
                None
            },
            Instruction::_2nnn(_) => if self.stack.len() >= STACK_CAPACITY {
                Some(Fault::StackOverflow)
            } else {
                None
            },
            Instruction::_Dxyn(_, y, n) => if visible_rows(self.v(y), n) > 0 && self.registers.i
                + visible_rows(self.v(y), n) > MEMORY_SIZE {
                Some(Fault::MemoryBounds)
            } else {
                None
            },
            Instruction::_Fx33(_) => if self.registers.i + 3 > MEMORY_SIZE {
                Some(Fault::MemoryBounds)
            } else {
                None
            },
            Instruction::_Fx55(x) | Instruction::_Fx65(x) => if self.registers.i + x + 1
                > MEMORY_SIZE {
                Some(Fault::MemoryBounds)
            } else {
                None
            },
            _ => None,
        }
    }

    /// The state after `instruction` is run, with `random` as the random
    /// byte where the instruction asks for one. The program counter is
    /// moved past the instruction first.
    pub open spec fn execute(self, instruction: Instruction, random: u8) -> MachineState {
        let s = self.with_pc(add16(self.pc, 2));
        match instruction {
            Instruction::_00E0 => MachineState { frame: blank_frame(), ..s },
            Instruction::_00EE => MachineState {
                pc: s.stack.last(),
                stack: s.stack.drop_last(),
                ..s
            },
            Instruction::_1nnn(addr) => s.with_pc(addr),
            Instruction::_2nnn(addr) => MachineState { pc: addr, stack: s.stack.push(s.pc), ..s },
            Instruction::_3xkk(x, kk) => s.skip_next_if(s.v(x) == kk),
            Instruction::_4xkk(x, kk) => s.skip_next_if(s.v(x) != kk),
            Instruction::_5xy0(x, y) => s.skip_next_if(s.v(x) == s.v(y)),
            Instruction::_6xkk(x, kk) => s.with_v(x, kk),
            Instruction::_7xkk(x, kk) => s.with_v(x, add8(s.v(x), kk)),
            Instruction::_8xy0(x, y) => s.with_v(x, s.v(y)),
            Instruction::_8xy1(x, y) => s.with_v(x, s.v(x) | s.v(y)),
            Instruction::_8xy2(x, y) => s.with_v(x, s.v(x) & s.v(y)),
            Instruction::_8xy3(x, y) => s.with_v(x, s.v(x) ^ s.v(y)),
            Instruction::_8xy4(x, y) => s.with_v(FLAG_REGISTER, flag(s.v(x) + s.v(y) > 255)).with_v(
                x,
                add8(s.v(x), s.v(y)),
            ),
            Instruction::_8xy5(x, y) => s.with_v(FLAG_REGISTER, flag(s.v(x) > s.v(y))).with_v(
                x,
                sub8(s.v(x), s.v(y)),
            ),
            Instruction::_8xy6(x) => s.with_v(x, s.v(x) / 2).with_v(FLAG_REGISTER, s.v(x) % 2),
            Instruction::_8xy7(x, y) => s.with_v(FLAG_REGISTER, flag(s.v(y) > s.v(x))).with_v(
                x,
                sub8(s.v(y), s.v(x)),
            ),
            Instruction::_8xyE(x) => s.with_v(x, add8(s.v(x), s.v(x))).with_v(
                FLAG_REGISTER,
                s.v(x) / 128,
            ),
            Instruction::_9xy0(x, y) => s.skip_next_if(s.v(x) != s.v(y)),
            Instruction::_Annn(addr) => s.with_i(addr),
            Instruction::_Bnnn(addr) => s.with_pc(add16(addr, s.v(0) as u16)),
            Instruction::_Cxkk(x, kk) => s.with_v(x, random & kk),
            Instruction::_Dxyn(x, y, n) => s.draw(s.v(x), s.v(y), n),
            Instruction::_Ex9E(x) => s.skip_next_if(key_down(s.keys, s.v(x))),
            Instruction::_ExA1(x) => s.skip_next_if(!key_down(s.keys, s.v(x))),
            Instruction::_Fx07(x) => s.with_v(x, s.registers.delay),
            Instruction::_Fx0A(x) => match s.current_key {
                Some(key) => s.with_v(x, key),
                None => self,
            },
            Instruction::_Fx15(x) => MachineState {
                registers: RegistersView { delay: s.v(x), ..s.registers },
                ..s
            },
            Instruction::_Fx18(x) => MachineState {
                registers: RegistersView { sound: s.v(x), ..s.registers },
                ..s
            },
            Instruction::_Fx1E(x) => s.with_i(add16(s.registers.i, s.v(x) as u16)),
            Instruction::_Fx29(x) => s.with_i((s.v(x) * GLYPH_BYTES % 0x100) as u16),
            Instruction::_Fx33(x) => MachineState {
                memory: overwrite(
                    s.memory,
                    s.registers.i as int,
                    seq![s.v(x) / 100, s.v(x) % 100 / 10, s.v(x) % 10],
                ),
                ..s
            },
            Instruction::_Fx55(x) => MachineState {
                memory: overwrite(s.memory, s.registers.i as int, s.registers.v.subrange(0, x + 1)),
                ..s
            },
            Instruction::_Fx65(x) => MachineState {
                registers: RegistersView {
                    v: overwrite(
                        s.registers.v,
                        0,
                        s.memory.subrange(s.registers.i as int, s.registers.i + x + 1),
                    ),
                    ..s.registers
                },
                ..s
            },
        }
    }

    /// The state after the step counter is advanced and, on every
    /// `STEPS_PER_TIMER_TICK`th step, both timers have counted down.
    pub open spec fn clock(self) -> MachineState {
        if self.tick + 1 >= STEPS_PER_TIMER_TICK {
            MachineState {
                tick: 0,
                registers: RegistersView {
                    delay: count_down(self.registers.delay),
                    sound: count_down(self.registers.sound),
                    ..self.registers
                },
                ..self
            }
        } else {
            MachineState { tick: (self.tick + 1) as u8, ..self }
        }
    }

    /// The instruction at the program counter, if the two bytes there are in
    /// the memory and are one.
    pub open spec fn fetch(self) -> Option<Instruction> {
        if self.pc + 2 <= MEMORY_SIZE {
            decode_spec(self.memory[self.pc as int], self.memory[self.pc + 1])
        } else {
            None
        }
    }

    /// The stop that the next step runs into, if it does.
    pub open spec fn next_fault(self) -> Option<Fault> {
        if self.pc + 2 > MEMORY_SIZE {
            Some(Fault::MemoryBounds)
        } else {
            match self.fetch() {
                None => Some(Fault::Decode),
                Some(instruction) => self.fault_of(instruction),
            }
        }
    }

    /// The state after one step: the timers' cadence, then the instruction
    /// at the program counter.
    pub open spec fn step(self, random: u8) -> MachineState {
        self.clock().execute(self.fetch().unwrap(), random)
    }
}

} // verus!
