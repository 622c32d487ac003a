//! Instruction words: the four nibbles of a fetched word, the fields read
//! out of them, the set of words the machine understands, and how long the
//! historical hardware took over each class of them.

use vstd::prelude::*;

verus! {

/// What a step touched, and so whether the display has to be shown again.
#[derive(Clone, Copy, Debug, PartialEq, Eq, Structural)]
pub enum Target {
    Memory,
    Pixels,
}

/// Mean and standard deviation, in microseconds, of the time one class of
/// instructions took on the historical machine.
#[derive(Clone, Copy, Debug, PartialEq, Eq, Structural)]
pub struct Timing {
    pub mean_us: u32,
    pub std_dev_us: u32,
}

/// The four nibbles of a 16-bit instruction word, most significant first.
#[derive(Clone, Copy, Debug, PartialEq, Eq, Structural)]
pub struct Instruction(pub u16, pub u16, pub u16, pub u16);

impl Instruction {
    /// Every field is a nibble.
    pub open spec fn wf(self) -> bool {
        self.0 < 16 && self.1 < 16 && self.2 < 16 && self.3 < 16
    }

    pub open spec fn spec_decode(word: u16) -> Instruction {
        Instruction(word / 4096, (word / 256) % 16, (word / 16) % 16, word % 16)
    }

    /// Splits a word into its nibbles.
    pub fn decode(word: u16) -> (ins: Instruction)
        ensures
            ins == Self::spec_decode(word),
            ins.wf(),
            ins.spec_word() == word,
    {
        assert(word / 4096 < 16 && (word / 4096) * 4096 + ((word / 256) % 16) * 256 + ((word / 16)
            % 16) * 16 + word % 16 == word) by (bit_vector);
        Instruction(word / 4096, (word / 256) % 16, (word / 16) % 16, word % 16)
    }

    pub open spec fn spec_word(self) -> u16 {
        (self.0 * 4096 + self.1 * 256 + self.2 * 16 + self.3) as u16
    }

    /// The word the nibbles came from.
    pub fn word(&self) -> (w: u16)
        requires
            self.wf(),
        ensures
            w == self.spec_word(),
            Self::spec_decode(w) == *self,
    {
        let (a, b, c, d) = (self.0, self.1, self.2, self.3);
        assert(a < 16 && b < 16 && c < 16 && d < 16 ==> {
            let w = (a * 4096 + b * 256 + c * 16 + d) as u16;
            w / 4096 == a && (w / 256) % 16 == b && (w / 16) % 16 == c && w % 16 == d
        }) by (bit_vector);
        self.0 * 4096 + self.1 * 256 + self.2 * 16 + self.3
    }

    /// The low byte `kk` of the word.
    pub open spec fn spec_byte(self) -> u8 {
        (self.2 * 16 + self.3) as u8
    }

    pub fn byte(&self) -> (kk: u8)
        requires
            self.wf(),
        ensures
            kk == self.spec_byte(),
    {
        (self.2 * 16 + self.3) as u8
    }

    /// The low twelve bits `nnn` of the word.
    pub open spec fn spec_address(self) -> u16 {
        (self.1 * 256 + self.2 * 16 + self.3) as u16
    }

    pub fn address(&self) -> (nnn: u16)
        requires
            self.wf(),
        ensures
            nnn == self.spec_address(),
            nnn <= 0xFFF,
    {
        self.1 * 256 + self.2 * 16 + self.3
    }

    /// The words the machine understands. No two patterns overlap.
    pub open spec fn known(self) -> bool {
        match (self.0, self.1, self.2, self.3) {
            (0, 0, 0xE, 0) | (0, 0, 0xE, 0xE) => true,
            (1, _, _, _) | (2, _, _, _) | (3, _, _, _) | (4, _, _, _) => true,
            (5, _, _, 0) => true,
            (6, _, _, _) | (7, _, _, _) => true,
            (8, _, _, n) => n <= 7 || n == 0xE,
            (9, _, _, 0) => true,
            (0xA, _, _, _) | (0xB, _, _, _) | (0xC, _, _, _) | (0xD, _, _, _) => true,
            (0xE, _, 9, 0xE) | (0xE, _, 0xA, 1) => true,
            (0xF, _, 0, 7) | (0xF, _, 0, 0xA) => true,
            (0xF, _, 1, 5) | (0xF, _, 1, 8) | (0xF, _, 1, 0xE) => true,
            (0xF, _, 2, 9) | (0xF, _, 3, 3) | (0xF, _, 5, 5) | (0xF, _, 6, 5) => true,
            _ => false,
        }
    }

    pub fn is_known(&self) -> (b: bool)
        ensures
            b == self.known(),
    {
        match (self.0, self.1, self.2, self.3) {
            (0, 0, 0xE, 0) | (0, 0, 0xE, 0xE) => true,
            (1, _, _, _) | (2, _, _, _) | (3, _, _, _) | (4, _, _, _) => true,
            (5, _, _, 0) => true,
            (6, _, _, _) | (7, _, _, _) => true,
            (8, _, _, n) => n <= 7 || n == 0xE,
            (9, _, _, 0) => true,
            (0xA, _, _, _) | (0xB, _, _, _) | (0xC, _, _, _) | (0xD, _, _, _) => true,
            (0xE, _, 9, 0xE) | (0xE, _, 0xA, 1) => true,
            (0xF, _, 0, 7) | (0xF, _, 0, 0xA) => true,
            (0xF, _, 1, 5) | (0xF, _, 1, 8) | (0xF, _, 1, 0xE) => true,
            (0xF, _, 2, 9) | (0xF, _, 3, 3) | (0xF, _, 5, 5) | (0xF, _, 6, 5) => true,
            _ => false,
        }
    }

    /// `Pixels` for the two instructions that write the display (clear and
    /// draw), `Memory` for every other word.
    pub open spec fn spec_target(self) -> Target {
        if self.0 == 0xD || self == Instruction(0, 0, 0xE, 0) {
            Target::Pixels
        } else {
            Target::Memory
        }
    }

    pub fn target(&self) -> (t: Target)
        ensures
            t == self.spec_target(),
    {
        if self.0 == 0xD || (self.0 == 0 && self.1 == 0 && self.2 == 0xE && self.3 == 0) {
            Target::Pixels
        } else {
            Target::Memory
        }
    }

    /// The timing class of a word: `None` exactly for the words that are
    /// not `known`.
    pub open spec fn spec_timing(self) -> Option<Timing> {
        if !self.known() {
            None
        } else {
            Some(
                match (self.0, self.1, self.2, self.3) {
                    (0, 0, 0xE, 0) => Timing { mean_us: 109, std_dev_us: 0 },
                    (0, 0, 0xE, 0xE) | (1, _, _, _) | (2, _, _, _) | (0xB, _, _, _) => Timing {
                        mean_us: 105,
                        std_dev_us: 5,
                    },
                    (3, _, _, _) | (4, _, _, _) | (0xA, _, _, _) => Timing {
                        mean_us: 55,
                        std_dev_us: 9,
                    },
                    (5, _, _, _) | (9, _, _, _) | (0xE, _, _, _) => Timing {
                        mean_us: 73,
                        std_dev_us: 0,
                    },
                    (6, _, _, _) => Timing { mean_us: 27, std_dev_us: 0 },
                    (7, _, _, _) | (0xF, _, 0, 7) | (0xF, _, 1, 5) | (0xF, _, 1, 8) => Timing {
                        mean_us: 45,
                        std_dev_us: 0,
                    },
                    (8, _, _, _) => Timing { mean_us: 200, std_dev_us: 0 },
                    (0xC, _, _, _) => Timing { mean_us: 164, std_dev_us: 0 },
                    (0xD, _, _, _) => Timing { mean_us: 22734, std_dev_us: 4634 },
                    (0xF, _, 0, 0xA) => Timing { mean_us: 0, std_dev_us: 0 },
                    (0xF, _, 1, 0xE) => Timing { mean_us: 86, std_dev_us: 14 },
                    (0xF, _, 2, 9) => Timing { mean_us: 91, std_dev_us: 0 },
                    (0xF, _, 3, 3) => Timing { mean_us: 927, std_dev_us: 545 },
                    // What is left of the known words: `Fx55` and `Fx65`.
                    _ => Timing { mean_us: 605, std_dev_us: 477 },
                },
            )
        }
    }

    /// Looks the word up in the timing table.
    pub fn timing(&self) -> (t: Option<Timing>)
        ensures
            t == self.spec_timing(),
    {
        if !self.is_known() {
            return None;
        }
        Some(
            match (self.0, self.1, self.2, self.3) {
                (0, 0, 0xE, 0) => Timing { mean_us: 109, std_dev_us: 0 },
                (0, 0, 0xE, 0xE) | (1, _, _, _) | (2, _, _, _) | (0xB, _, _, _) => Timing {
                    mean_us: 105,
                    std_dev_us: 5,
                },
                (3, _, _, _) | (4, _, _, _) | (0xA, _, _, _) => Timing {
                    mean_us: 55,
                    std_dev_us: 9,
                },
                (5, _, _, _) | (9, _, _, _) | (0xE, _, _, _) => Timing {
                    mean_us: 73,
                    std_dev_us: 0,
                },
                (6, _, _, _) => Timing { mean_us: 27, std_dev_us: 0 },
                (7, _, _, _) | (0xF, _, 0, 7) | (0xF, _, 1, 5) | (0xF, _, 1, 8) => Timing {
                    mean_us: 45,
                    std_dev_us: 0,
                },
                (8, _, _, _) => Timing { mean_us: 200, std_dev_us: 0 },
                (0xC, _, _, _) => Timing { mean_us: 164, std_dev_us: 0 },
                (0xD, _, _, _) => Timing { mean_us: 22734, std_dev_us: 4634 },
                (0xF, _, 0, 0xA) => Timing { mean_us: 0, std_dev_us: 0 },
                (0xF, _, 1, 0xE) => Timing { mean_us: 86, std_dev_us: 14 },
                (0xF, _, 2, 9) => Timing { mean_us: 91, std_dev_us: 0 },
                (0xF, _, 3, 3) => Timing { mean_us: 927, std_dev_us: 545 },
                _ => Timing { mean_us: 605, std_dev_us: 477 },
            },
        )
    }
}

} // verus!
