//! The mathematical model of the machine: its state as plain sequences and
//! integers, and the effect of every instruction as a function on states.
//! The executable interpreter is proved against these functions.

use crate::instruction::{Instruction, Target};
use vstd::prelude::*;

verus! {

pub const W_HEIGHT: usize = 32;

pub const W_WIDTH: usize = 64;

pub const MEMORY_SIZE: usize = 4096;

pub const FONT_OFFSET: usize = 0x050;

pub const LOAD_START: usize = 0x200;

/// One latch of the keypad.
#[derive(Clone, Copy, Debug, PartialEq, Eq, Structural)]
pub enum KeyState {
    Idle,
    Pressed,
}

/// Why a step could not be carried out. `pc` is the address the
/// instruction was to be fetched from; the machine is left as it was.
#[derive(Clone, Copy, Debug, PartialEq, Eq, Structural)]
pub enum Fault {
    /// The fetched word matches no instruction.
    InvalidOpcode { opcode: u16, pc: usize },
    /// A return with nothing on the call stack.
    StackUnderflow { pc: usize },
    /// The instruction needs memory from `address` on that reaches past
    /// the last cell.
    OutOfRange { pc: usize, address: usize },
}

/// The signed operations of the `8xy_` family that go through the flag.
#[derive(Clone, Copy, Debug, PartialEq, Eq, Structural)]
pub enum Operation {
    Or,
    And,
    Xor,
    Add,
    Sub,
    SubFrom,
}

impl Operation {
    /// The operation on two register values, in the integers.
    pub open spec fn apply(self, u: u8, v: u8) -> int {
        match self {
            Operation::Or => (u | v) as int,
            Operation::And => (u & v) as int,
            Operation::Xor => (u ^ v) as int,
            Operation::Add => u + v,
            Operation::Sub => u - v,
            Operation::SubFrom => v - u,
        }
    }

    /// The operation on two register values, in 16-bit signed arithmetic.
    pub fn eval(self, u: u8, v: u8) -> (result: i16)
        ensures
            result == self.apply(u, v),
            -255 <= result <= 510,
    {
        match self {
            Operation::Or => (u | v) as i16,
            Operation::And => (u & v) as i16,
            Operation::Xor => (u ^ v) as i16,
            Operation::Add => u as i16 + v as i16,
            Operation::Sub => u as i16 - v as i16,
            Operation::SubFrom => v as i16 - u as i16,
        }
    }
}

/// The sixteen glyphs for the digits 0 to F, five bytes each.
pub open spec fn font() -> Seq<u8> {
    seq![
        0xF0u8, 0x90, 0x90, 0x90, 0xF0,
        0x20, 0x60, 0x20, 0x20, 0x70,
        0xF0, 0x10, 0xF0, 0x80, 0xF0,
        0xF0, 0x10, 0xF0, 0x10, 0xF0,
        0x90, 0x90, 0xF0, 0x10, 0x10,
        0xF0, 0x80, 0xF0, 0x10, 0xF0,
        0xF0, 0x80, 0xF0, 0x90, 0xF0,
        0xF0, 0x10, 0x20, 0x40, 0x40,
        0xF0, 0x90, 0xF0, 0x90, 0xF0,
        0xF0, 0x90, 0xF0, 0x10, 0xF0,
        0xF0, 0x90, 0xF0, 0x90, 0x90,
        0xE0, 0x90, 0xE0, 0x90, 0xE0,
        0xF0, 0x80, 0x80, 0x80, 0xF0,
        0xE0, 0x90, 0x90, 0x90, 0xE0,
        0xF0, 0x80, 0xF0, 0x80, 0xF0,
        0xF0, 0x80, 0xF0, 0x80, 0x80,
    ]
}

/// The key map a new machine starts with: the character for key 0 first.
pub open spec fn default_keys() -> Seq<char> {
    seq!['1', '2', '3', '4', 'q', 'w', 'e', 'r', 'a', 's', 'd', 'f', 'z', 'x', 'c', 'v']
}

/// A key map names each of the sixteen keys by a character of its own.
pub open spec fn valid_keys(keys: Seq<char>) -> bool {
    keys.len() == 16 && forall|i: int, j: int| 0 <= i < j < 16 ==> keys[i] != keys[j]
}

/// Bit `col` of a sprite row, counted from the most significant bit.
pub open spec fn sprite_bit(row: u8, col: int) -> bool {
    (row >> ((7 - col) as u8)) & 1 == 1
}

/// `key` is a single character, the one at place `k` of `keys`.
pub open spec fn names_key(keys: Seq<char>, key: Seq<char>, k: int) -> bool {
    key.len() == 1 && 0 <= k < keys.len() && keys[k] == key[0]
}

/// `k` is the first place of `keys` that `key` names.
pub open spec fn first_named(keys: Seq<char>, key: Seq<char>, k: int) -> bool {
    names_key(keys, key, k) && forall|j: int| 0 <= j < k ==> !names_key(keys, key, j)
}

/// The address that the instruction before `pc` was fetched from: two
/// cells back. Below 2 no fetch came before, and the address is 0.
pub open spec fn fetched_from(pc: usize) -> usize {
    if pc >= 2 {
        (pc - 2) as usize
    } else {
        0
    }
}

/// The whole state of the machine.
#[verifier::ext_equal]
pub struct Machine {
    pub memory: Seq<u8>,
    /// Row-major: the cell in column `x` of row `y` is `pixels[64 * y + x]`.
    pub pixels: Seq<bool>,
    pub pc: usize,
    pub index: u16,
    pub registers: Seq<u8>,
    pub stack: Seq<usize>,
    pub delay_timer: u8,
    pub sound_timer: u8,
    pub keys: Seq<char>,
    pub key_states: Seq<KeyState>,
}

impl Machine {
    pub open spec fn wf(self) -> bool {
        &&& self.memory.len() == MEMORY_SIZE
        &&& self.pixels.len() == W_WIDTH * W_HEIGHT
        &&& self.registers.len() == 16
        &&& self.key_states.len() == 16
        &&& valid_keys(self.keys)
        &&& self.index <= 0xFFF
    }

    /// The state a machine is built in: the font at `FONT_OFFSET`, the
    /// program counter at `LOAD_START`, the key map as given, everything
    /// else zero, empty or idle.
    pub open spec fn initial(keys: Seq<char>) -> Machine {
        Machine {
            memory: Seq::new(
                MEMORY_SIZE as nat,
                |a: int|
                    if FONT_OFFSET <= a < FONT_OFFSET + 80 {
                        font()[a - FONT_OFFSET]
                    } else {
                        0u8
                    },
            ),
            pixels: Seq::new((W_WIDTH * W_HEIGHT) as nat, |p: int| false),
            pc: LOAD_START,
            index: 0,
            registers: Seq::new(16, |r: int| 0u8),
            stack: Seq::empty(),
            delay_timer: 0,
            sound_timer: 0,
            keys,
            key_states: Seq::new(16, |k: int| KeyState::Idle),
        }
    }

    /// The state after `program` has been written from `LOAD_START` on.
    pub open spec fn load(self, program: Seq<u8>) -> Machine {
        Machine {
            memory: Seq::new(
                self.memory.len(),
                |a: int|
                    if LOAD_START <= a < LOAD_START + program.len() {
                        program[a - LOAD_START]
                    } else {
                        self.memory[a]
                    },
            ),
            ..self
        }
    }

    pub open spec fn pixel(self, x: int, y: int) -> bool {
        self.pixels[W_WIDTH * y + x]
    }

    /// The big-endian word in the two cells from `at` on.
    pub open spec fn word_at(self, at: int) -> u16 {
        (self.memory[at] * 256 + self.memory[at + 1]) as u16
    }

    /// The instruction the program counter points at.
    pub open spec fn next_instruction(self) -> Instruction {
        Instruction::spec_decode(self.word_at(self.pc as int))
    }

    /// Key `value` is down. Only the low four bits of `value` select the key.
    pub open spec fn key_pressed(self, value: u8) -> bool {
        self.key_states[(value % 16) as int] == KeyState::Pressed
    }

    pub open spec fn set_register(self, x: int, value: u8) -> Machine {
        Machine { registers: self.registers.update(x, value), ..self }
    }

    pub open spec fn skip_if(self, condition: bool) -> Machine {
        if condition {
            Machine { pc: (self.pc + 2) as usize, ..self }
        } else {
            self
        }
    }

    /// Applies `operation` to `V[source]` and `V[other]` in the integers.
    /// Where the result leaves `0..=255` and `trigger` is set, `VF` is
    /// flipped: to 0 if it was 1, to 1 otherwise. Then `V[source]` takes
    /// the result modulo 256.
    pub open spec fn compute(self, source: int, other: int, operation: Operation, trigger: bool)
        -> Machine {
        let result = operation.apply(self.registers[source], self.registers[other]);
        let flagged = if (result < 0 || result > 255) && trigger {
            self.set_register(
                0xF,
                if self.registers[0xF] == 1 {
                    0
                } else {
                    1
                },
            )
        } else {
            self
        };
        flagged.set_register(source, (result % 256) as u8)
    }

    /// The sprite of `rows` rows that starts at `memory[index]`, anchored
    /// with its top left corner at `(ax, ay)`, has a set bit on `(px, py)`.
    pub open spec fn sprite_covers(self, ax: int, ay: int, rows: int, px: int, py: int) -> bool {
        &&& ax <= px < ax + 8
        &&& ay <= py < ay + rows
        &&& sprite_bit(self.memory[self.index + (py - ay)], px - ax)
    }

    /// Some cell of the display is set and covered by the sprite.
    pub open spec fn sprite_collides(self, ax: int, ay: int, rows: int) -> bool {
        exists|px: int, py: int|
            0 <= px < W_WIDTH && 0 <= py < W_HEIGHT && self.pixel(px, py)
                && #[trigger] self.sprite_covers(ax, ay, rows, px, py)
    }

    /// The display with the sprite blitted onto it by exclusive or. Sprite
    /// bits that fall to the right of or below the display touch no cell.
    pub open spec fn blit(self, ax: int, ay: int, rows: int) -> Seq<bool> {
        Seq::new(
            self.pixels.len(),
            |p: int|
                self.pixels[p] != self.sprite_covers(
                    ax,
                    ay,
                    rows,
                    p % (W_WIDTH as int),
                    p / (W_WIDTH as int),
                ),
        )
    }

    /// `Dxyn`: the anchor is `(V[x] & 63, V[y] & 31)`; `VF` becomes 1 if the
    /// blit cleared a cell and 0 if it did not.
    pub open spec fn draw(self, x: int, y: int, n: int) -> Machine {
        let ax = (self.registers[x] & 63) as int;
        let ay = (self.registers[y] & 31) as int;
        Machine {
            pixels: self.blit(ax, ay, n),
            registers: self.registers.update(
                0xF,
                if self.sprite_collides(ax, ay, n) {
                    1u8
                } else {
                    0u8
                },
            ),
            ..self
        }
    }

    /// How many cells from `memory[index]` on the instruction reads or
    /// writes.
    pub open spec fn span(ins: Instruction) -> int {
        match (ins.0, ins.1, ins.2, ins.3) {
            (0xD, _, _, n) => n as int,
            (0xF, _, 3, 3) => 3,
            (0xF, x, 5, 5) | (0xF, x, 6, 5) => x + 1,
            _ => 0,
        }
    }

    /// The program counter has room for what `ins` does to it: two cells
    /// back for the key wait, two ahead for a skip. Right after a fetch it
    /// always has; the other instructions ask nothing of it.
    pub open spec fn counter_fits(self, ins: Instruction) -> bool {
        match (ins.0, ins.1, ins.2, ins.3) {
            (0xF, _, 0, 0xA) => self.pc >= 2,
            (3, _, _, _) | (4, _, _, _) | (5, _, _, 0) | (9, _, _, 0) => self.pc <= usize::MAX - 2,
            (0xE, _, 9, 0xE) | (0xE, _, 0xA, 1) => self.pc <= usize::MAX - 2,
            _ => true,
        }
    }

    /// Why `ins`, fetched from `at`, cannot be executed; `None` if it can.
    pub open spec fn fault(self, ins: Instruction, at: usize) -> Option<Fault> {
        if !ins.known() {
            Some(Fault::InvalidOpcode { opcode: ins.spec_word(), pc: at })
        } else if ins == Instruction(0, 0, 0xE, 0xE) && self.stack.len() == 0 {
            Some(Fault::StackUnderflow { pc: at })
        } else if self.index + Self::span(ins) > MEMORY_SIZE {
            Some(Fault::OutOfRange { pc: at, address: self.index as usize })
        } else {
            None
        }
    }

    /// The effect of `ins` on a machine whose program counter has already
    /// moved past it. `random` is the byte that `Cxkk` draws.
    pub open spec fn execute(self, ins: Instruction, random: u8) -> Machine {
        let x = ins.1 as int;
        let y = ins.2 as int;
        let kk = ins.spec_byte();
        let nnn = ins.spec_address();
        let vx = self.registers[x];
        let vy = self.registers[y];
        let i = self.index as int;
        match (ins.0, ins.1, ins.2, ins.3) {
            (0, 0, 0xE, 0) => Machine {
                pixels: Seq::new(self.pixels.len(), |p: int| false),
                ..self
            },
            (0, 0, 0xE, 0xE) => Machine {
                pc: self.stack.last(),
                stack: self.stack.drop_last(),
                ..self
            },
            (1, _, _, _) => Machine { pc: nnn as usize, ..self },
            (2, _, _, _) => Machine { pc: nnn as usize, stack: self.stack.push(self.pc), ..self },
            (3, _, _, _) => self.skip_if(vx == kk),
            (4, _, _, _) => self.skip_if(vx != kk),
            (5, _, _, 0) => self.skip_if(vx == vy),
            (6, _, _, _) => self.set_register(x, kk),
            (7, _, _, _) => self.set_register(x, ((vx + kk) % 256) as u8),
            (8, _, _, 0) => self.set_register(x, vy),
            (8, _, _, 1) => self.compute(x, y, Operation::Or, false),
            (8, _, _, 2) => self.compute(x, y, Operation::And, false),
            (8, _, _, 3) => self.compute(x, y, Operation::Xor, false),
            (8, _, _, 4) => self.set_register(0xF, 0).compute(x, y, Operation::Add, true),
            (8, _, _, 5) => self.set_register(0xF, 1).compute(x, y, Operation::Sub, true),
            (8, _, _, 6) => {
                let flagged = self.set_register(0xF, vx % 2);
                flagged.set_register(x, flagged.registers[x] / 2)
            },
            (8, _, _, 7) => self.set_register(0xF, 1).compute(x, y, Operation::SubFrom, true),
            (8, _, _, 0xE) => {
                let flagged = self.set_register(0xF, vx / 128);
                flagged.set_register(x, ((flagged.registers[x] * 2) % 256) as u8)
            },
            (9, _, _, 0) => self.skip_if(vx != vy),
            (0xA, _, _, _) => Machine { index: nnn, ..self },
            (0xB, _, _, _) => Machine { pc: (nnn + self.registers[0]) as usize, ..self },
            (0xC, _, _, _) => self.set_register(x, random & kk),
            (0xD, _, _, n) => self.draw(x, y, n as int),
            (0xE, _, 9, 0xE) => self.skip_if(self.key_pressed(vx)),
            (0xE, _, 0xA, 1) => self.skip_if(!self.key_pressed(vx)),
            (0xF, _, 0, 7) => self.set_register(x, self.delay_timer),
            (0xF, _, 0, 0xA) => if self.key_pressed(vx) {
                self
            } else {
                Machine { pc: (self.pc - 2) as usize, ..self }
            },
            (0xF, _, 1, 5) => Machine { delay_timer: vx, ..self },
            (0xF, _, 1, 8) => Machine { sound_timer: vx, ..self },
            (0xF, _, 1, 0xE) => Machine {
                index: ((i + vx) % 4096) as u16,
                registers: self.registers.update(
                    0xF,
                    if i + vx > 0xFFF {
                        1u8
                    } else {
                        0u8
                    },
                ),
                ..self
            },
            (0xF, _, 2, 9) => Machine { index: (FONT_OFFSET + 5 * vx) as u16, ..self },
            (0xF, _, 3, 3) => Machine {
                memory: self.memory.update(i, vx / 100).update(i + 1, (vx / 10) % 10).update(
                    i + 2,
                    vx % 10,
                ),
                ..self
            },
            (0xF, _, 5, 5) => Machine {
                memory: Seq::new(
                    self.memory.len(),
                    |a: int|
                        if i <= a <= i + x {
                            self.registers[a - i]
                        } else {
                            self.memory[a]
                        },
                ),
                ..self
            },
            (0xF, _, 6, 5) => Machine {
                registers: Seq::new(
                    self.registers.len(),
                    |r: int|
                        if r <= x {
                            self.memory[i + r]
                        } else {
                            self.registers[r]
                        },
                ),
                ..self
            },
            _ => self,
        }
    }

    /// One whole cycle: fetch, decode, execute. A fault leaves the state
    /// as it was.
    pub open spec fn step(self, random: u8) -> Result<Machine, Fault> {
        if self.pc + 2 > MEMORY_SIZE {
            Err(Fault::OutOfRange { pc: self.pc, address: self.pc })
        } else {
            let ins = self.next_instruction();
            match self.fault(ins, self.pc) {
                Some(fault) => Err(fault),
                None => Ok(Machine { pc: (self.pc + 2) as usize, ..self }.execute(ins, random)),
            }
        }
    }

    /// The next step executes `Cxkk`, the one instruction that reads the
    /// random byte.
    pub open spec fn draws_random(self) -> bool {
        self.pc + 2 <= MEMORY_SIZE && self.next_instruction().0 == 0xC
    }

    /// What a step reports: the fault, or what the executed instruction
    /// wrote to.
    pub open spec fn report(self, random: u8) -> Result<Target, Fault> {
        match self.step(random) {
            Ok(_) => Ok(self.next_instruction().spec_target()),
            Err(fault) => Err(fault),
        }
    }

    /// The state after a step: that of `step`, or `self` after a fault.
    pub open spec fn after_step(self, random: u8) -> Machine {
        match self.step(random) {
            Ok(next) => next,
            Err(_) => self,
        }
    }

    /// The state after one step for each byte of `randoms`, in order.
    pub open spec fn run(self, randoms: Seq<u8>) -> Machine
        decreases randoms.len(),
    {
        if randoms.len() == 0 {
            self
        } else {
            self.after_step(randoms[0]).run(randoms.drop_first())
        }
    }

    /// The state after the key named `key` went to `state`. A name is one
    /// character of the key map, and the latch of its place changes. Any
    /// other name, the empty one and longer ones included, changes nothing.
    pub open spec fn update_key(self, key: Seq<char>, state: KeyState) -> Machine {
        if exists|k: int| names_key(self.keys, key, k) {
            let first = choose|k: int| first_named(self.keys, key, k);
            Machine { key_states: self.key_states.update(first, state), ..self }
        } else {
            self
        }
    }
}

} // verus!
