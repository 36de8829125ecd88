//! The interpreter: it owns the machine's parts and runs instructions on
//! them.

use vstd::prelude::*;
use rand::Rng;
use crate::bit_utils::get_bit_from_byte;
use crate::display::virtual_display::VirtualDisplay;
use crate::machine::display_state::DisplayState;
use crate::machine::instruction::lemma_decoded_operands;
use crate::machine::instruction::Instruction;
use crate::machine::ram::memory_text;
use crate::machine::ram::overwrite;
use crate::machine::ram::Ram;
use crate::machine::ram::MEMORY_SIZE;
use crate::machine::registers::registers_text;
use crate::machine::registers::Registers;
use crate::machine::registers::RegistersView;
use crate::machine::drawing::blank_frame;
use crate::machine::drawing::collides;
use crate::machine::drawing::frame_pixel;
use crate::machine::drawing::lemma_frame_is_drawn_frame;
use crate::machine::drawing::on_screen;
use crate::machine::drawing::sprite_covers;
use crate::machine::drawing::visible_rows;
use crate::machine::semantics::add16;
use crate::machine::semantics::count_down;
use crate::machine::semantics::flag;
use crate::machine::semantics::key_down;
use crate::machine::semantics::Fault;
use crate::machine::semantics::MachineState;
use crate::machine::semantics::FLAG_REGISTER;
use crate::machine::semantics::KEY_COUNT;
use crate::machine::semantics::STEPS_PER_TIMER_TICK;
use crate::machine::stack::stack_text;
use crate::machine::stack::Stack;
use crate::machine::stack::STACK_CAPACITY;

verus! {

pub use crate::machine::semantics::DISPLAY_COLS;
pub use crate::machine::semantics::DISPLAY_ROWS;
pub use crate::machine::semantics::PROGRAM_OFFSET;

/// The built-in font: the glyphs of the sixteen hexadecimal digits, five
/// bytes each, eight pixels wide and five high.
pub const FONT_SPRITES: [u8; 80] = [
    0xF0, 0x90, 0x90, 0x90, 0xF0, // 0
    0x20, 0x60, 0x20, 0x20, 0x70, // 1
    0xF0, 0x10, 0xF0, 0x80, 0xF0, // 2
    0xF0, 0x10, 0xF0, 0x10, 0xF0, // 3
    0x90, 0x90, 0xF0, 0x10, 0x10, // 4
    0xF0, 0x80, 0xF0, 0x10, 0xF0, // 5
    0xF0, 0x80, 0xF0, 0x90, 0xF0, // 6
    0xF0, 0x10, 0x20, 0x40, 0x40, // 7
    0xF0, 0x90, 0xF0, 0x90, 0xF0, // 8
    0xF0, 0x90, 0xF0, 0x10, 0xF0, // 9
    0xF0, 0x90, 0xF0, 0x90, 0x90, // A
    0xE0, 0x90, 0xE0, 0x90, 0xE0, // B
    0xF0, 0x80, 0x80, 0x80, 0xF0, // C
    0xE0, 0x90, 0x90, 0x90, 0xE0, // D
    0xF0, 0x80, 0xF0, 0x80, 0xF0, // E
    0xF0, 0x80, 0xF0, 0x80, 0x80, // F
];

/// Whether a draw that goes row by row, and from left to right within a
/// row, has dealt with pixel `(px, py)` when it stands at column `col` of
/// sprite row `row`.
spec fn drawn_before(x: u8, y: u8, px: int, py: int, row: int, col: int) -> bool {
    py - y % 32 < row || (py - y % 32 == row && px - x % 64 < col)
}

/// Whether the part of a draw that comes before column `col` of sprite row
/// `row` turns a pixel off.
spec fn collides_before(
    frame: Seq<u8>,
    sprite: Seq<u8>,
    x: u8,
    y: u8,
    n: u8,
    row: int,
    col: int,
) -> bool {
    exists|px: int, py: int|
        on_screen(px, py) && #[trigger] frame_pixel(frame, px, py) && sprite_covers(
            sprite,
            x,
            y,
            n,
            px,
            py,
        ) && drawn_before(x, y, px, py, row, col)
}

/// A byte from the thread's random number generator of the `rand` crate,
/// `rand::thread_rng`, drawn with `gen_range` from all 256 byte values.
/// Nothing is claimed of the byte.
#[verifier::external_body]
fn random_byte() -> (byte: u8) {
    rand::thread_rng().gen_range(0..=255) as u8
}

/// Whether `instruction` is a jump, a call, a return or a conditional skip.
spec fn changes_flow(instruction: Instruction) -> bool {
    match instruction {
        Instruction::_00EE
        | Instruction::_1nnn(_)
        | Instruction::_2nnn(_)
        | Instruction::_3xkk(_, _)
        | Instruction::_4xkk(_, _)
        | Instruction::_5xy0(_, _)
        | Instruction::_9xy0(_, _)
        | Instruction::_Bnnn(_)
        | Instruction::_Ex9E(_)
        | Instruction::_ExA1(_) => true,
        _ => false,
    }
}

/// Whether `instruction` computes the value of a general register from
/// registers, a constant or a random byte.
spec fn computes(instruction: Instruction) -> bool {
    match instruction {
        Instruction::_6xkk(_, _)
        | Instruction::_7xkk(_, _)
        | Instruction::_8xy0(_, _)
        | Instruction::_8xy1(_, _)
        | Instruction::_8xy2(_, _)
        | Instruction::_8xy3(_, _)
        | Instruction::_8xy4(_, _)
        | Instruction::_8xy5(_, _)
        | Instruction::_8xy6(_)
        | Instruction::_8xy7(_, _)
        | Instruction::_8xyE(_)
        | Instruction::_Cxkk(_, _) => true,
        _ => false,
    }
}

/// A machine and the screen it presents its frames on.
///
/// The memory, the registers, the stack, the program counter and the key
/// that was pressed last can be read and set from outside: every value of
/// theirs is a state that the machine can be in.
pub struct Chip8<'a, D: VirtualDisplay> {
    pub ram: Ram,
    pub program_counter: u16,
    pub registers: Registers,
    pub stack: Stack,
    display: &'a mut D,
    display_state: DisplayState,
    tick: u8,
    keys_state: [bool; 16],
    pub current_key: Option<u8>,
}

impl<'a, D: VirtualDisplay> View for Chip8<'a, D> {
    type V = MachineState;

    closed spec fn view(&self) -> MachineState {
        MachineState {
            memory: self.ram@,
            registers: self.registers@,
            stack: self.stack@,
            pc: self.program_counter,
            frame: self.display_state@,
            keys: self.keys_state@,
            current_key: self.current_key,
            tick: self.tick,
        }
    }
}

impl<'a, D: VirtualDisplay> Chip8<'a, D> {
    /// Whether the machine is in working order: its screen has
    /// `DISPLAY_COLS` by `DISPLAY_ROWS` pixels and its step counter is
    /// below `STEPS_PER_TIMER_TICK`.
    pub closed spec fn wf(&self) -> bool {
        &&& self.display_state.cols() == DISPLAY_COLS
        &&& self.display_state.rows() == DISPLAY_ROWS
        &&& self.display_state@.len() == DISPLAY_COLS * DISPLAY_ROWS / 8
        &&& self.tick < STEPS_PER_TIMER_TICK
    }

    /// Whether the machine is in working order.
    pub fn in_working_order(&self) -> (ok: bool)
        ensures
            ok == self.wf(),
    {
        let (cols, rows) = self.display_state.dimensions();
        cols == DISPLAY_COLS && rows == DISPLAY_ROWS && self.tick < STEPS_PER_TIMER_TICK
    }

    /// The state of a machine in working order is valid.
    pub proof fn lemma_valid(&self)
        requires
            self.wf(),
        ensures
            self@.valid(),
    {
        self.ram.lemma_size();
        self.registers.lemma_count();
        self.stack.lemma_capacity();
    }

    /// A machine with the font at address 0, everything else at zero, and
    /// `display` as its screen.
    pub fn new(display: &'a mut D) -> (chip8: Chip8<'a, D>)
        ensures
            chip8.wf(),
            chip8@ == (MachineState {
                memory: overwrite(Seq::new(MEMORY_SIZE as nat, |i: int| 0u8), 0, FONT_SPRITES@),
                registers: RegistersView {
                    v: Seq::new(16, |x: int| 0u8),
                    i: 0,
                    delay: 0,
                    sound: 0,
                },
                stack: Seq::empty(),
                pc: 0,
                frame: blank_frame(),
                keys: Seq::new(KEY_COUNT as nat, |k: int| false),
                current_key: None,
                tick: 0,
            }),
    {
        let mut ram = Ram::initialise();
        ram.write_bytes(0x000, &FONT_SPRITES);
        let chip8 = Chip8 {
            program_counter: 0x000,
            ram,
            registers: Registers::new(),
            stack: Stack::new(),
            display,
            display_state: DisplayState::new(DISPLAY_COLS, DISPLAY_ROWS),
            tick: 0,
            keys_state: [false;16],
            current_key: None,
        };
        assert(chip8@.keys =~= Seq::new(KEY_COUNT as nat, |k: int| false));
        assert(chip8@.frame =~= blank_frame());
        chip8
    }

    /// Loads the program `bytes` at `PROGRAM_OFFSET` and points the program
    /// counter at it.
    pub fn load_rom(&mut self, bytes: &[u8])
        requires
            bytes@.len() <= MEMORY_SIZE - PROGRAM_OFFSET,
        ensures
            final(self).wf() == old(self).wf(),
            final(self)@ == (MachineState {
                memory: overwrite(old(self)@.memory, PROGRAM_OFFSET as int, bytes@),
                pc: PROGRAM_OFFSET as u16,
                ..old(self)@
            }),
    {
        self.ram.write_bytes(PROGRAM_OFFSET, bytes);
        self.program_counter = 0x200;
    }

    /// Records that `key` was pressed: it is held down from now on, and it
    /// is the key that was pressed last.
    pub fn register_key(&mut self, key: u8)
        requires
            key < KEY_COUNT,
        ensures
            final(self).wf() == old(self).wf(),
            final(self)@ == (MachineState {
                keys: old(self)@.keys.update(key as int, true),
                current_key: Some(key),
                ..old(self)@
            }),
    {
        self.current_key = Some(key);
        self.keys_state[key as usize] = true;
    }

    /// Releases every key and forgets which one was pressed last.
    pub fn clear_keys(&mut self)
        ensures
            final(self).wf() == old(self).wf(),
            final(self)@ == (MachineState {
                keys: Seq::new(KEY_COUNT as nat, |k: int| false),
                current_key: None,
                ..old(self)@
            }),
    {
        self.keys_state = [false;16];
        self.current_key = None;
        assert(self@.keys =~= Seq::new(KEY_COUNT as nat, |k: int| false));
    }

    /// Whether `key` is a key of the keypad that is held down.
    pub fn is_pressed(&self, key: u8) -> (pressed: bool)
        ensures
            pressed == key_down(self@.keys, key),
    {
        (key as usize) < 16 && self.keys_state[key as usize]
    }

    /// Counts both timers down once; a timer at zero stays there.
    pub fn decr_timers(&mut self)
        ensures
            final(self).wf() == old(self).wf(),
            final(self)@ == (MachineState {
                registers: RegistersView {
                    delay: count_down(old(self)@.registers.delay),
                    sound: count_down(old(self)@.registers.sound),
                    ..old(self)@.registers
                },
                ..old(self)@
            }),
    {
        let delay: u8 = self.registers.read_delay_timer();
        if delay > 0 {
            self.registers.set_delay_timer(delay - 1);
        }
        let sound: u8 = self.registers.read_sound_timer();
        if sound > 0 {
            self.registers.set_sound_timer(sound - 1);
        }
    }

    /// Draws the `n_rows`-row sprite at the index register's address with
    /// its top left corner at pixel `(x % DISPLAY_COLS, y % DISPLAY_ROWS)`:
    /// each set bit of the sprite inverts its pixel. Rows below the bottom
    /// edge and columns beyond the right edge are dropped, and never read.
    /// `VF` becomes 1 if a pixel went off, else 0.
    pub fn load_sprite(&mut self, x: u8, y: u8, n_rows: u8)
        requires
            old(self).wf(),
            visible_rows(y, n_rows) > 0 ==> old(self)@.registers.i + visible_rows(y, n_rows)
                <= MEMORY_SIZE,
        ensures
            final(self).wf(),
            final(self)@ == old(self)@.draw(x, y, n_rows),
    {
        // The starting coordinates wrap around the screen.
        let wrapped_x: usize = x as usize % DISPLAY_COLS;
        let wrapped_y: usize = y as usize % DISPLAY_ROWS;

        let ghost start = self@;
        let ghost sprite = start.sprite();
        proof {
            self.lemma_valid();
        }
        self.registers.write_vx(0x0F, 0);
        let sprite_offset: usize = self.registers.read_i() as usize;

        let mut row: usize = 0;
        while row < n_rows as usize
            invariant
                self.wf(),
                start.valid(),
                sprite == start.sprite(),
                row <= n_rows,
                wrapped_x == x % 64,
                wrapped_y == y % 32,
                sprite_offset == start.registers.i,
                visible_rows(y, n_rows) > 0 ==> start.registers.i + visible_rows(y, n_rows)
                    <= MEMORY_SIZE,
                self@ == (MachineState { frame: self@.frame, ..start.with_v(FLAG_REGISTER, self@.v(FLAG_REGISTER)) }),
                self@.v(FLAG_REGISTER) == flag(
                    collides_before(start.frame, sprite, x, y, n_rows, row as int, 0),
                ),
                forall|px: int, py: int|
                    on_screen(px, py) ==> #[trigger] frame_pixel(self@.frame, px, py) == (
                    frame_pixel(start.frame, px, py) != (sprite_covers(
                        sprite,
                        x,
                        y,
                        n_rows,
                        px,
                        py,
                    ) && drawn_before(x, y, px, py, row as int, 0))),
            decreases n_rows - row,
        {
            let current_y: usize = wrapped_y + row;
            if current_y < DISPLAY_ROWS {
                let current_byte: u8 = self.ram.read_bytes(sprite_offset + row, 1)[0];
                assert(current_byte == sprite[row as int]);
                let mut col: usize = 0;
                while col < 8
                    invariant
                        self.wf(),
                        start.valid(),
                        sprite == start.sprite(),
                        row < n_rows,
                        col <= 8,
                        wrapped_x == x % 64,
                        wrapped_y == y % 32,
                        current_y == wrapped_y + row,
                        current_y < DISPLAY_ROWS,
                        current_byte == sprite[row as int],
                        self@ == (MachineState {
                            frame: self@.frame,
                            ..start.with_v(FLAG_REGISTER, self@.v(FLAG_REGISTER))
                        }),
                        self@.v(FLAG_REGISTER) == flag(
                            collides_before(
                                start.frame,
                                sprite,
                                x,
                                y,
                                n_rows,
                                row as int,
                                col as int,
                            ),
                        ),
                        forall|px: int, py: int|
                            on_screen(px, py) ==> #[trigger] frame_pixel(self@.frame, px, py) == (
                            frame_pixel(start.frame, px, py) != (sprite_covers(
                                sprite,
                                x,
                                y,
                                n_rows,
                                px,
                                py,
                            ) && drawn_before(x, y, px, py, row as int, col as int))),
                    decreases 8 - col,
                {
                    let current_x: usize = wrapped_x + col;
                    if current_x < DISPLAY_COLS {
                        let ghost before = self@;
                        let current_state: bool = self.display_state.is_on(current_x, current_y);
                        let new_state: bool = get_bit_from_byte(col, &current_byte);
                        assert(current_state == frame_pixel(
                            start.frame,
                            current_x as int,
                            current_y as int,
                        )) by {
                            assert(frame_pixel(before.frame, current_x as int, current_y as int)
                                == current_state);
                        }
                        assert(new_state == sprite_covers(
                            sprite,
                            x,
                            y,
                            n_rows,
                            current_x as int,
                            current_y as int,
                        ));
                        if new_state {
                            if current_state {
                                self.registers.write_vx(0x0F, 1);
                            }
                            self.display_state.flip(current_x, current_y);
                        }
                        proof {
                            assert(self@.registers.v =~= start.registers.v.update(
                                FLAG_REGISTER as int,
                                self@.v(FLAG_REGISTER),
                            ));
                            assert forall|px: int, py: int| on_screen(px, py) implies #[trigger] frame_pixel(
                                self@.frame,
                                px,
                                py,
                            ) == (frame_pixel(start.frame, px, py) != (sprite_covers(
                                sprite,
                                x,
                                y,
                                n_rows,
                                px,
                                py,
                            ) && drawn_before(x, y, px, py, row as int, col + 1))) by {
                                assert(frame_pixel(before.frame, px, py) == (frame_pixel(
                                    start.frame,
                                    px,
                                    py,
                                ) != (sprite_covers(sprite, x, y, n_rows, px, py) && drawn_before(
                                    x,
                                    y,
                                    px,
                                    py,
                                    row as int,
                                    col as int,
                                ))));
                                assert(self.display_state.pixel(px, py) == frame_pixel(
                                    self@.frame,
                                    px,
                                    py,
                                ));
                            }
                            if new_state && current_state {
                                assert(frame_pixel(start.frame, current_x as int, current_y as int));
                                assert(drawn_before(
                                    x,
                                    y,
                                    current_x as int,
                                    current_y as int,
                                    row as int,
                                    col + 1,
                                ));
                            }
                        }
                    }
                    col += 1;
                }
            }
            row += 1;
        }
        proof {
            assert forall|px: int, py: int| on_screen(px, py) implies #[trigger] frame_pixel(
                self@.frame,
                px,
                py,
            ) == (frame_pixel(start.frame, px, py) != sprite_covers(sprite, x, y, n_rows, px, py)) by {
                assert(sprite_covers(sprite, x, y, n_rows, px, py) ==> drawn_before(
                    x,
                    y,
                    px,
                    py,
                    row as int,
                    0,
                ));
            }
            lemma_frame_is_drawn_frame(start.frame, self@.frame, sprite, x, y, n_rows);
            assert(collides_before(start.frame, sprite, x, y, n_rows, row as int, 0) == collides(
                start.frame,
                sprite,
                x,
                y,
                n_rows,
            ));
        }
    }

    /// The stop that running `instruction` now would end in, if any.
    pub fn fault_of(&self, instruction: Instruction) -> (fault: Option<Fault>)
        requires
            self.wf(),
            instruction.well_formed(),
        ensures
            fault == self@.fault_of(instruction),
    {
        let index: usize = self.registers.read_i() as usize;
        match instruction {
            Instruction::_00EE => if self.stack.depth() == 0 {
                Some(Fault::StackUnderflow)
            } else {
                None
            },
            Instruction::_2nnn(_) => if self.stack.depth() >= STACK_CAPACITY {
                Some(Fault::StackOverflow)
            } else {
                None
            },
            Instruction::_Dxyn(_, reg_y, n_rows) => {
                let top: usize = self.registers.read_vx(reg_y) as usize % DISPLAY_ROWS;
                let rows: usize = if n_rows as usize <= DISPLAY_ROWS - top {
                    n_rows as usize
                } else {
                    DISPLAY_ROWS - top
                };
                if rows > 0 && index + rows > MEMORY_SIZE {
                    Some(Fault::MemoryBounds)
                } else {
                    None
                }
            },
            Instruction::_Fx33(_) => if index + 3 > MEMORY_SIZE {
                Some(Fault::MemoryBounds)
            } else {
                None
            },
            Instruction::_Fx55(last_register) | Instruction::_Fx65(last_register) => if index
                + last_register as usize + 1 > MEMORY_SIZE {
                Some(Fault::MemoryBounds)
            } else {
                None
            },
            _ => None,
        }
    }

    /// Skips the next instruction if `condition` holds.
    fn skip_next_if(&mut self, condition: bool)
        ensures
            final(self).wf() == old(self).wf(),
            final(self)@ == old(self)@.skip_next_if(condition),
    {
        if condition {
            self.program_counter = self.program_counter.wrapping_add(2);
        }
    }

    /// Stores the hundreds, tens and units of register `register` at the
    /// index register's address and the two addresses after it.
    fn store_digits(&mut self, register: u8)
        requires
            register < 16,
            old(self)@.registers.i + 3 <= MEMORY_SIZE,
        ensures
            final(self).wf() == old(self).wf(),
            final(self)@ == (MachineState {
                memory: overwrite(
                    old(self)@.memory,
                    old(self)@.registers.i as int,
                    seq![
                        old(self)@.v(register) / 100,
                        old(self)@.v(register) % 100 / 10,
                        old(self)@.v(register) % 10,
                    ],
                ),
                ..old(self)@
            }),
    {
        let number: u8 = self.registers.read_vx(register);
        let addr: usize = self.registers.read_i() as usize;
        let digits: [u8; 3] = [number / 100, number % 100 / 10, number % 10];
        assert(digits@ =~= seq![number / 100, number % 100 / 10, number % 10]);
        self.ram.write_bytes(addr, digits.as_slice());
    }

    /// Copies the registers `V0` to `V[last_register]` into the memory,
    /// from the index register's address on.
    fn store_registers(&mut self, last_register: u8)
        requires
            last_register < 16,
            old(self)@.registers.i + last_register + 1 <= MEMORY_SIZE,
        ensures
            final(self).wf() == old(self).wf(),
            final(self)@ == (MachineState {
                memory: overwrite(
                    old(self)@.memory,
                    old(self)@.registers.i as int,
                    old(self)@.registers.v.subrange(0, last_register + 1),
                ),
                ..old(self)@
            }),
    {
        let ghost s = self@;
        proof {
            self.ram.lemma_size();
            self.registers.lemma_count();
        }
        let addr: usize = self.registers.read_i() as usize;
        let mut i: usize = 0;
        assert(s.memory =~= overwrite(s.memory, addr as int, s.registers.v.subrange(0, 0)));
        while i <= last_register as usize
            invariant
                i <= last_register + 1,
                last_register < 16,
                addr + last_register + 1 <= MEMORY_SIZE,
                addr == s.registers.i,
                s.memory.len() == MEMORY_SIZE,
                s.registers.v.len() == 16,
                self.wf() == old(self).wf(),
                self@ == (MachineState {
                    memory: overwrite(s.memory, addr as int, s.registers.v.subrange(0, i as int)),
                    ..s
                }),
            decreases last_register + 1 - i,
        {
            let value: u8 = self.registers.read_vx(i as u8);
            let cell: [u8; 1] = [value];
            self.ram.write_bytes(addr + i, cell.as_slice());
            assert(self@.memory =~= overwrite(
                s.memory,
                addr as int,
                s.registers.v.subrange(0, i + 1),
            ));
            i += 1;
        }
    }

    /// Copies the memory from the index register's address on into the
    /// registers `V0` to `V[last_register]`.
    fn load_registers(&mut self, last_register: u8)
        requires
            last_register < 16,
            old(self)@.registers.i + last_register + 1 <= MEMORY_SIZE,
        ensures
            final(self).wf() == old(self).wf(),
            final(self)@ == (MachineState {
                registers: RegistersView {
                    v: overwrite(
                        old(self)@.registers.v,
                        0,
                        old(self)@.memory.subrange(
                            old(self)@.registers.i as int,
                            old(self)@.registers.i + last_register + 1,
                        ),
                    ),
                    ..old(self)@.registers
                },
                ..old(self)@
            }),
    {
        let ghost s = self@;
        proof {
            self.ram.lemma_size();
            self.registers.lemma_count();
        }
        let addr: usize = self.registers.read_i() as usize;
        let mut i: usize = 0;
        assert(s.registers.v =~= overwrite(
            s.registers.v,
            0,
            s.memory.subrange(addr as int, addr as int),
        ));
        while i <= last_register as usize
            invariant
                i <= last_register + 1,
                last_register < 16,
                addr + last_register + 1 <= MEMORY_SIZE,
                addr == s.registers.i,
                s.memory.len() == MEMORY_SIZE,
                s.registers.v.len() == 16,
                self.wf() == old(self).wf(),
                self@ == (MachineState {
                    registers: RegistersView {
                        v: overwrite(s.registers.v, 0, s.memory.subrange(addr as int, addr + i)),
                        ..s.registers
                    },
                    ..s
                }),
            decreases last_register + 1 - i,
        {
            let bytes = self.ram.read_bytes(addr + i, 1);
            self.registers.write_vx(i as u8, bytes[0]);
            assert(self@.registers.v =~= overwrite(
                s.registers.v,
                0,
                s.memory.subrange(addr as int, addr + i + 1),
            ));
            i += 1;
        }
    }

    /// Runs a jump, a call, a return or a conditional skip.
    fn run_flow(&mut self, instruction: Instruction)
        requires
            old(self).wf(),
            instruction.well_formed(),
            old(self)@.fault_of(instruction) is None,
            changes_flow(instruction),
        ensures
            final(self).wf(),
            final(self)@ == old(self)@.execute(instruction, 0),
    {
        let ghost start = self@;
        proof {
            self.lemma_valid();
        }
        self.program_counter = self.program_counter.wrapping_add(0x002);
        let ghost s = self@;
        assert(s == start.with_pc(add16(start.pc, 2)));
        match instruction {
            Instruction::_00EE => {
                self.program_counter = self.stack.pop();
            },
            Instruction::_1nnn(addr) => {
                self.program_counter = addr;
            },
            Instruction::_2nnn(addr) => {
                self.stack.push(self.program_counter);
                self.program_counter = addr;
            },
            Instruction::_3xkk(register, value) => {
                let value_x: u8 = self.registers.read_vx(register);
                self.skip_next_if(value_x == value);
            },
            Instruction::_4xkk(register, value) => {
                let value_x: u8 = self.registers.read_vx(register);
                self.skip_next_if(value_x != value);
            },
            Instruction::_5xy0(reg_x, reg_y) => {
                let x: u8 = self.registers.read_vx(reg_x);
                let y: u8 = self.registers.read_vx(reg_y);
                self.skip_next_if(x == y);
            },
            Instruction::_9xy0(reg_x, reg_y) => {
                let x: u8 = self.registers.read_vx(reg_x);
                let y: u8 = self.registers.read_vx(reg_y);
                self.skip_next_if(x != y);
            },
            Instruction::_Bnnn(addr) => {
                let v0: u8 = self.registers.read_vx(0x00);
                self.program_counter = addr.wrapping_add(v0 as u16);
            },
            Instruction::_Ex9E(register) => {
                let expected_key: u8 = self.registers.read_vx(register);
                let pressed: bool = self.is_pressed(expected_key);
                self.skip_next_if(pressed);
            },
            Instruction::_ExA1(register) => {
                let expected_key: u8 = self.registers.read_vx(register);
                let pressed: bool = self.is_pressed(expected_key);
                self.skip_next_if(!pressed);
            },
            _ => {},
        }
    }

    /// Runs an instruction that computes the value of a general register.
    fn run_computation(&mut self, instruction: Instruction, random: u8)
        requires
            old(self).wf(),
            instruction.well_formed(),
            old(self)@.fault_of(instruction) is None,
            computes(instruction),
        ensures
            final(self).wf(),
            final(self)@ == old(self)@.execute(instruction, random),
    {
        let ghost start = self@;
        proof {
            self.lemma_valid();
        }
        self.program_counter = self.program_counter.wrapping_add(0x002);
        let ghost s = self@;
        assert(s == start.with_pc(add16(start.pc, 2)));
        match instruction {
            Instruction::_6xkk(register, value) => {
                self.registers.write_vx(register, value);
            },
            Instruction::_7xkk(register, value) => {
                let current_value: u8 = self.registers.read_vx(register);
                self.registers.write_vx(register, current_value.wrapping_add(value));
            },
            Instruction::_8xy0(reg_x, reg_y) => {
                let y: u8 = self.registers.read_vx(reg_y);
                self.registers.write_vx(reg_x, y);
            },
            Instruction::_8xy1(reg_x, reg_y) => {
                let x: u8 = self.registers.read_vx(reg_x);
                let y: u8 = self.registers.read_vx(reg_y);
                self.registers.write_vx(reg_x, x | y);
            },
            Instruction::_8xy2(reg_x, reg_y) => {
                let x: u8 = self.registers.read_vx(reg_x);
                let y: u8 = self.registers.read_vx(reg_y);
                self.registers.write_vx(reg_x, x & y);
            },
            Instruction::_8xy3(reg_x, reg_y) => {
                let x: u8 = self.registers.read_vx(reg_x);
                let y: u8 = self.registers.read_vx(reg_y);
                self.registers.write_vx(reg_x, x ^ y);
            },
            Instruction::_8xy4(reg_x, reg_y) => {
                let x: u8 = self.registers.read_vx(reg_x);
                let y: u8 = self.registers.read_vx(reg_y);
                let added: u16 = x as u16 + y as u16;
                self.registers.write_vx(0x0F, if added > 255 { 1 } else { 0 });
                self.registers.write_vx(reg_x, x.wrapping_add(y));
            },
            Instruction::_8xy5(reg_x, reg_y) => {
                let x: u8 = self.registers.read_vx(reg_x);
                let y: u8 = self.registers.read_vx(reg_y);
                self.registers.write_vx(0x0F, if x > y { 1 } else { 0 });
                self.registers.write_vx(reg_x, x.wrapping_sub(y));
            },
            Instruction::_8xy6(reg_x) => {
                let x: u8 = self.registers.read_vx(reg_x);
                let out: bool = get_bit_from_byte(7, &x);
                assert(x >> 1 == x / 2 && (x & (0x80u8 >> 7u8) != 0) == (x % 2 == 1))
                    by (bit_vector);
                self.registers.write_vx(reg_x, x >> 1);
                self.registers.write_vx(0x0F, if out { 1 } else { 0 });
            },
            Instruction::_8xy7(reg_x, reg_y) => {
                let x: u8 = self.registers.read_vx(reg_x);
                let y: u8 = self.registers.read_vx(reg_y);
                self.registers.write_vx(0x0F, if y > x { 1 } else { 0 });
                self.registers.write_vx(reg_x, y.wrapping_sub(x));
            },
            Instruction::_8xyE(reg_x) => {
                let x: u8 = self.registers.read_vx(reg_x);
                let out: bool = get_bit_from_byte(0, &x);
                assert((x & (0x80u8 >> 0u8) != 0) == (x / 128 == 1) && x / 128 <= 1) by (bit_vector);
                self.registers.write_vx(reg_x, x.wrapping_add(x));
                self.registers.write_vx(0x0F, if out { 1 } else { 0 });
            },
            Instruction::_Cxkk(register, value) => {
                self.registers.write_vx(register, random & value);
            },
            _ => {},
        }
    }

    /// Runs an instruction that writes to the screen, the index register,
    /// a timer or the memory, or that reads one of them or the keyboard
    /// into a register.
    fn run_transfer(&mut self, instruction: Instruction)
        requires
            old(self).wf(),
            instruction.well_formed(),
            old(self)@.fault_of(instruction) is None,
            !changes_flow(instruction),
            !computes(instruction),
        ensures
            final(self).wf(),
            final(self)@ == old(self)@.execute(instruction, 0),
    {
        let ghost start = self@;
        proof {
            self.lemma_valid();
        }
        self.program_counter = self.program_counter.wrapping_add(0x002);
        let ghost s = self@;
        assert(s == start.with_pc(add16(start.pc, 2)));
        match instruction {
            Instruction::_00E0 => {
                self.display_state.clear();
                assert(self@.frame =~= blank_frame());
            },
            Instruction::_Annn(addr) => {
                self.registers.write_i(addr);
            },
            Instruction::_Dxyn(reg_x, reg_y, n_rows) => {
                let x: u8 = self.registers.read_vx(reg_x);
                let y: u8 = self.registers.read_vx(reg_y);
                self.load_sprite(x, y, n_rows);
            },
            Instruction::_Fx07(register) => {
                let delay: u8 = self.registers.read_delay_timer();
                self.registers.write_vx(register, delay);
            },
            Instruction::_Fx0A(register) => {
                if let Some(key) = self.current_key {
                    self.registers.write_vx(register, key);
                } else {
                    self.program_counter = self.program_counter.wrapping_sub(2);
                }
            },
            Instruction::_Fx15(register) => {
                let value: u8 = self.registers.read_vx(register);
                self.registers.set_delay_timer(value);
            },
            Instruction::_Fx18(register) => {
                let value: u8 = self.registers.read_vx(register);
                self.registers.set_sound_timer(value);
            },
            Instruction::_Fx1E(register) => {
                let index: u16 = self.registers.read_i();
                let value: u8 = self.registers.read_vx(register);
                self.registers.write_i(index.wrapping_add(value as u16));
            },
            Instruction::_Fx29(register) => {
                let byte: u8 = self.registers.read_vx(register);
                let address: u8 = byte.wrapping_mul(5);
                self.registers.write_i(address as u16);
            },
            Instruction::_Fx33(register) => {
                self.store_digits(register);
            },
            Instruction::_Fx55(last_register) => {
                self.store_registers(last_register);
            },
            Instruction::_Fx65(last_register) => {
                self.load_registers(last_register);
            },
            _ => {},
        }
    }

    /// Runs `instruction`, with `random` as the random byte where the
    /// instruction asks for one.
    pub fn execute(&mut self, instruction: Instruction, random: u8)
        requires
            old(self).wf(),
            instruction.well_formed(),
            old(self)@.fault_of(instruction) is None,
        ensures
            final(self).wf(),
            final(self)@ == old(self)@.execute(instruction, random),
    {
        match instruction {
            Instruction::_00EE
            | Instruction::_1nnn(_)
            | Instruction::_2nnn(_)
            | Instruction::_3xkk(_, _)
            | Instruction::_4xkk(_, _)
            | Instruction::_5xy0(_, _)
            | Instruction::_9xy0(_, _)
            | Instruction::_Bnnn(_)
            | Instruction::_Ex9E(_)
            | Instruction::_ExA1(_) => self.run_flow(instruction),
            Instruction::_6xkk(_, _)
            | Instruction::_7xkk(_, _)
            | Instruction::_8xy0(_, _)
            | Instruction::_8xy1(_, _)
            | Instruction::_8xy2(_, _)
            | Instruction::_8xy3(_, _)
            | Instruction::_8xy4(_, _)
            | Instruction::_8xy5(_, _)
            | Instruction::_8xy6(_)
            | Instruction::_8xy7(_, _)
            | Instruction::_8xyE(_)
            | Instruction::_Cxkk(_, _) => self.run_computation(instruction, random),
            _ => self.run_transfer(instruction),
        }
    }

    /// Runs `instruction`. Where it asks for a random byte, one is drawn
    /// from the thread's random number generator; what the machine does
    /// with a given byte is `execute`'s to say.
    pub fn run_instruction(&mut self, instruction: Instruction)
        requires
            old(self).wf(),
            instruction.well_formed(),
            old(self)@.fault_of(instruction) is None,
        ensures
            final(self).wf(),
            exists|random: u8| final(self)@ == old(self)@.execute(instruction, random),
            !(instruction is _Cxkk) ==> final(self)@ == old(self)@.execute(instruction, 0),
    {
        let random: u8 = match instruction {
            Instruction::_Cxkk(_, _) => random_byte(),
            _ => 0,
        };
        self.execute(instruction, random);
    }

    /// The stop that the next step would end in, if any.
    pub fn next_fault(&self) -> (fault: Option<Fault>)
        requires
            self.wf(),
        ensures
            fault == self@.next_fault(),
    {
        proof {
            self.lemma_valid();
        }
        let pc: usize = self.program_counter as usize;
        if pc + 2 > MEMORY_SIZE {
            return Some(Fault::MemoryBounds);
        }
        let word = self.ram.read_bytes(pc, 2);
        proof {
            lemma_decoded_operands(word@[0], word@[1]);
        }
        match Instruction::decode(word) {
            None => Some(Fault::Decode),
            Some(instruction) => self.fault_of(instruction),
        }
    }

    /// Takes one step: advances the step counter, lets the timers count
    /// down on every `STEPS_PER_TIMER_TICK`th step, then fetches the
    /// instruction at the program counter and runs it. If the instruction
    /// wrote to the frame, the frame is handed to the screen, and the
    /// result is `true`.
    pub fn tick(&mut self) -> (presented: bool)
        requires
            old(self).wf(),
            old(self)@.next_fault() is None,
        ensures
            final(self).wf(),
            exists|random: u8| final(self)@ == old(self)@.step(random),
            !(old(self)@.fetch() matches Some(Instruction::_Cxkk(_, _))) ==> final(self)@ == old(
                self,
            )@.step(0),
            presented == old(self)@.fetch().unwrap().changes_frame(),
    {
        proof {
            self.lemma_valid();
        }
        let ghost start = self@;
        let next_tick: u8 = self.tick + 1;
        if next_tick % 15 == 0 {
            self.decr_timers();
            self.tick = 0;
        } else {
            self.tick = next_tick;
        }
        assert(self@ == start.clock());
        let word = self.ram.read_bytes(self.program_counter as usize, 2);
        proof {
            lemma_decoded_operands(word@[0], word@[1]);
        }
        let next_instruction: Instruction = Instruction::decode(word).unwrap();
        self.run_instruction(next_instruction);
        proof {
            let random = choose|random: u8| self@ == start.clock().execute(next_instruction, random);
            assert(self@ == start.step(random));
        }
        let presented: bool = match next_instruction {
            Instruction::_00E0 | Instruction::_Dxyn(_, _, _) => true,
            _ => false,
        };
        if presented {
            proof {
                self.lemma_valid();
            }
            self.display.draw(self.display_state.as_bytes());
        }
        presented
    }

    /// The registers, the stack and the memory as text, for a person to
    /// read.
    pub fn dump(&self) -> (text: String)
        ensures
            text@ == registers_text(self@.registers) + stack_text(self@.stack) + memory_text(
                self@.memory,
            ),
    {
        let mut text = self.registers.dump();
        let stack = self.stack.dump();
        text.append(stack.as_str());
        let memory = self.ram.dump();
        text.append(memory.as_str());
        text
    }

    /// The screen's framebuffer.
    pub fn display_state(&self) -> (state: &DisplayState)
        ensures
            state@ == self@.frame,
    {
        &self.display_state
    }
}

} // verus!
