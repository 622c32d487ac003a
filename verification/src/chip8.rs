//! The interpreter itself: the machine's state in executable form and the
//! fetch, decode and execute cycle, each proved against the model in
//! `machine`.

use crate::instruction::{Instruction, Target};
use crate::machine::{
    default_keys, fetched_from, first_named, font, names_key, sprite_bit, valid_keys, Fault,
    KeyState, Machine, Operation, FONT_OFFSET, LOAD_START, MEMORY_SIZE, W_HEIGHT, W_WIDTH,
};
use rand::Rng;
use vstd::prelude::*;

verus! {

/// The machine. Its state is the `Machine` that `view` gives; every
/// method says what it does to that state.
///
/// Three things are fixed here that the historical machine left open. An
/// access to memory past the last cell, by a fetch or by an instruction,
/// is a fault, and nothing wraps around. The two timers are written and
/// read by instructions only; nothing counts them down. The key
/// instructions take the key number from the low four bits of `V[x]`.
#[derive(Debug)]
pub struct Chip8 {
    memory: Vec<u8>,
    pixels: Vec<bool>,
    pc: usize,
    i_register: u16,
    v_registers: Vec<u8>,
    stack: Vec<usize>,
    delay_timer: u8,
    sound_timer: u8,
    keys: String,
    keys_states: Vec<KeyState>,
}

impl View for Chip8 {
    type V = Machine;

    closed spec fn view(&self) -> Machine {
        Machine {
            memory: self.memory@,
            pixels: self.pixels@,
            pc: self.pc,
            index: self.i_register,
            registers: self.v_registers@,
            stack: self.stack@,
            delay_timer: self.delay_timer,
            sound_timer: self.sound_timer,
            keys: self.keys@,
            key_states: self.keys_states@,
        }
    }
}

/// The font as the bytes that go into memory.
fn font_bytes() -> (bytes: [u8; 80])
    ensures
        bytes@ == font(),
{
    let bytes: [u8; 80] = [
        0xF0, 0x90, 0x90, 0x90, 0xF0,
        0x20, 0x60, 0x20, 0x20, 0x70,
        0xF0, 0x10, 0xF0, 0x80, 0xF0,
        0xF0, 0x10, 0xF0, 0x10, 0xF0,
        0x90, 0x90, 0xF0, 0x10, 0x10,
        0xF0, 0x80, 0xF0, 0x10, 0xF0,
        0xF0, 0x80, 0xF0, 0x90, 0xF0,
        0xF0, 0x10, 0x20, 0x40, 0x40,
        0xF0, 0x90, 0xF0, 0x90, 0xF0,
        0xF0, 0x90, 0xF0, 0x10, 0xF0,
        0xF0, 0x90, 0xF0, 0x90, 0x90,
        0xE0, 0x90, 0xE0, 0x90, 0xE0,
        0xF0, 0x80, 0x80, 0x80, 0xF0,
        0xE0, 0x90, 0x90, 0x90, 0xE0,
        0xF0, 0x80, 0xF0, 0x80, 0xF0,
        0xF0, 0x80, 0xF0, 0x80, 0x80,
    ];
    assert(bytes@ =~= font());
    bytes
}

impl Chip8 {
    /// The invariant of the state: the sizes of its parts, a key map of
    /// sixteen distinct characters, and an index register within twelve
    /// bits.
    pub open spec fn wf(&self) -> bool {
        self@.wf()
    }

    /// A machine with the font in memory, nothing loaded, and the key map
    /// `1234qwerasdfzxcv`.
    pub fn new() -> (chip: Self)
        ensures
            chip@ == Machine::initial(default_keys()),
            chip.wf(),
    {
        let keys = "1234qwerasdfzxcv";
        proof {
            reveal_strlit("1234qwerasdfzxcv");
            assert(keys@ =~= default_keys());
        }
        Self::build(keys)
    }

    /// A machine like a new one with its own key map: `keys` names key 0
    /// first. `None` unless `keys` is sixteen characters, no two the same.
    pub fn with_keys(keys: &str) -> (chip: Option<Self>)
        ensures
            match chip {
                Some(chip) => valid_keys(keys@) && chip@ == Machine::initial(keys@) && chip.wf(),
                None => !valid_keys(keys@),
            },
    {
        if keys.unicode_len() != 16 {
            return None;
        }
        let mut j: usize = 1;
        while j < 16
            invariant
                1 <= j <= 16,
                keys@.len() == 16,
                forall|a: int, b: int| 0 <= a < b < j ==> keys@[a] != keys@[b],
            decreases 16 - j,
        {
            let later = keys.get_char(j);
            let mut i: usize = 0;
            while i < j
                invariant
                    i <= j < 16,
                    keys@.len() == 16,
                    later == keys@[j as int],
                    forall|a: int| 0 <= a < i ==> keys@[a] != later,
                decreases j - i,
            {
                if keys.get_char(i) == later {
                    return None;
                }
                i += 1;
            }
            j += 1;
        }
        Some(Self::build(keys))
    }

    /// The machine that `new` and `with_keys` have in common.
    fn build(keys: &str) -> (chip: Self)
        requires
            valid_keys(keys@),
        ensures
            chip@ == Machine::initial(keys@),
            chip.wf(),
    {
        let mut memory = vec![0u8; MEMORY_SIZE];
        let glyphs = font_bytes();
        let mut pos: usize = 0;
        while pos < 80
            invariant
                pos <= 80,
                glyphs@ == font(),
                memory@.len() == MEMORY_SIZE,
                forall|a: int|
                    0 <= a < MEMORY_SIZE ==> #[trigger] memory@[a] == if FONT_OFFSET <= a < FONT_OFFSET
                        + pos {
                        font()[a - FONT_OFFSET]
                    } else {
                        0u8
                    },
            decreases 80 - pos,
        {
            memory.set(FONT_OFFSET + pos, glyphs[pos]);
            pos += 1;
        }
        let chip = Self {
            memory,
            pixels: vec![false; W_WIDTH * W_HEIGHT],
            pc: LOAD_START,
            i_register: 0u16,
            v_registers: vec![0u8; 16],
            stack: Vec::new(),
            delay_timer: 0u8,
            sound_timer: 0u8,
            keys: keys.to_owned(),
            keys_states: vec![KeyState::Idle; 16],
        };
        assert(chip@ =~= Machine::initial(keys@));
        chip
    }

    /// The display as thirty-two rows of sixty-four cells.
    pub fn pixels(&self) -> (grid: Vec<Vec<bool>>)
        requires
            self.wf(),
        ensures
            grid@.len() == W_HEIGHT,
            forall|y: int| 0 <= y < W_HEIGHT ==> (#[trigger] grid@[y])@.len() == W_WIDTH,
            forall|x: int, y: int|
                0 <= x < W_WIDTH && 0 <= y < W_HEIGHT ==> grid@[y]@[x] == self@.pixel(x, y),
    {
        let mut grid: Vec<Vec<bool>> = Vec::new();
        let mut y: usize = 0;
        while y < W_HEIGHT
            invariant
                self.wf(),
                y <= W_HEIGHT,
                grid@.len() == y,
                forall|r: int| 0 <= r < y ==> (#[trigger] grid@[r])@.len() == W_WIDTH,
                forall|c: int, r: int|
                    0 <= c < W_WIDTH && 0 <= r < y ==> grid@[r]@[c] == self@.pixel(c, r),
            decreases W_HEIGHT - y,
        {
            let mut row: Vec<bool> = Vec::new();
            let mut x: usize = 0;
            while x < W_WIDTH
                invariant
                    self.wf(),
                    y < W_HEIGHT,
                    x <= W_WIDTH,
                    row@.len() == x,
                    forall|c: int| 0 <= c < x ==> row@[c] == self@.pixel(c, y as int),
                decreases W_WIDTH - x,
            {
                row.push(self.pixels[W_WIDTH * y + x]);
                x += 1;
            }
            grid.push(row);
            y += 1;
        }
        grid
    }

    /// Writes `instructions` into memory from `LOAD_START` on.
    pub fn load(&mut self, instructions: &[u8])
        requires
            old(self).wf(),
            instructions@.len() <= MEMORY_SIZE - LOAD_START,
        ensures
            final(self)@ == old(self)@.load(instructions@),
            final(self).wf(),
    {
        let mut pos: usize = 0;
        while pos < instructions.len()
            invariant
                pos <= instructions@.len() <= MEMORY_SIZE - LOAD_START,
                self.wf(),
                self@ == (Machine { memory: self@.memory, ..old(self)@ }),
                forall|a: int|
                    0 <= a < MEMORY_SIZE ==> #[trigger] self@.memory[a] == if LOAD_START <= a
                        < LOAD_START + pos {
                        instructions@[a - LOAD_START]
                    } else {
                        old(self)@.memory[a]
                    },
            decreases instructions@.len() - pos,
        {
            self.memory.set(LOAD_START + pos, instructions[pos]);
            pos += 1;
        }
        assert(self@ =~= old(self)@.load(instructions@));
    }

    /// Reads the word at the program counter, moves the counter past it and
    /// splits the word into nibbles. Fails, changing nothing, where the
    /// word does not lie within memory.
    pub fn fetch(&mut self) -> (fetched: Result<Instruction, Fault>)
        requires
            old(self).wf(),
        ensures
            final(self).wf(),
            match fetched {
                Ok(ins) => {
                    &&& old(self)@.pc + 2 <= MEMORY_SIZE
                    &&& ins == old(self)@.next_instruction()
                    &&& ins.wf()
                    &&& final(self)@ == (Machine {
                        pc: (old(self)@.pc + 2) as usize,
                        ..old(self)@
                    })
                },
                Err(fault) => {
                    &&& old(self)@.pc + 2 > MEMORY_SIZE
                    &&& fault == (Fault::OutOfRange { pc: old(self)@.pc, address: old(self)@.pc })
                    &&& final(self)@ == old(self)@
                },
            },
    {
        if self.pc > MEMORY_SIZE - 2 {
            return Err(Fault::OutOfRange { pc: self.pc, address: self.pc });
        }
        let high: u16 = self.memory[self.pc] as u16;
        let low: u16 = self.memory[self.pc + 1] as u16;
        self.pc += 2;
        Ok(Instruction::decode(high * 256 + low))
    }

    /// The instruction that the next step will execute, if the program
    /// counter lies within memory.
    pub fn peek(&self) -> (next: Option<Instruction>)
        requires
            self.wf(),
        ensures
            next == if self@.pc + 2 <= MEMORY_SIZE {
                Some(self@.next_instruction())
            } else {
                None
            },
            next is Some ==> next->0.wf(),
    {
        if self.pc > MEMORY_SIZE - 2 {
            return None;
        }
        let high: u16 = self.memory[self.pc] as u16;
        let low: u16 = self.memory[self.pc + 1] as u16;
        Some(Instruction::decode(high * 256 + low))
    }

    /// Combines `V[source]` and `V[other]` into `V[source]`, flipping `VF`
    /// where `trigger` is set and the result leaves the range of a byte.
    pub fn compute(&mut self, source: u16, other: u16, operation: Operation, trigger: bool)
        requires
            old(self).wf(),
            source < 16,
            other < 16,
        ensures
            final(self)@ == old(self)@.compute(source as int, other as int, operation, trigger),
            final(self).wf(),
    {
        let vx = self.v_registers[source as usize];
        let vy = self.v_registers[other as usize];
        let result = operation.eval(vx, vy);
        if (result < 0 || result > 255) && trigger {
            let flipped: u8 = if self.v_registers[0xF] == 1 {
                0
            } else {
                1
            };
            self.v_registers.set(0xF, flipped);
        }
        self.v_registers.set(source as usize, ((result + 256) % 256) as u8);
    }
}

/// The sprite covers `(px, py)` in one of its rows above `row`, or in row
/// `row` in one of the columns before `col`: the part of the sprite that a
/// blit has gone through when it stands at that row and column.
spec fn covered(m: Machine, ax: int, ay: int, row: int, col: int, px: int, py: int) -> bool {
    m.sprite_covers(ax, ay, row + 1, px, py) && (py < ay + row || px < ax + col)
}

/// Some set cell of the display lies under the part of the sprite before
/// `row` and `col`.
spec fn collided(m: Machine, ax: int, ay: int, row: int, col: int) -> bool {
    exists|px: int, py: int|
        0 <= px < W_WIDTH && 0 <= py < W_HEIGHT && m.pixel(px, py) && #[trigger] covered(
            m,
            ax,
            ay,
            row,
            col,
            px,
            py,
        )
}

/// Going through one more column adds the collision on that cell, if it
/// lies on the display, and no other.
proof fn collided_next_column(m: Machine, ax: int, ay: int, row: int, col: int)
    requires
        0 <= ax,
        0 <= ay,
        0 <= row,
        0 <= col < 8,
    ensures
        collided(m, ax, ay, row, col + 1) <==> collided(m, ax, ay, row, col) || (ax + col < W_WIDTH
            && ay + row < W_HEIGHT && m.pixel(ax + col, ay + row) && sprite_bit(
            m.memory[m.index + row],
            col,
        )),
{
    if collided(m, ax, ay, row, col + 1) {
        let (px, py) = choose|px: int, py: int|
            0 <= px < W_WIDTH && 0 <= py < W_HEIGHT && m.pixel(px, py) && #[trigger] covered(
                m,
                ax,
                ay,
                row,
                col + 1,
                px,
                py,
            );
        if !(px == ax + col && py == ay + row) {
            assert(covered(m, ax, ay, row, col, px, py));
        }
    }
    if collided(m, ax, ay, row, col) {
        let (px, py) = choose|px: int, py: int|
            0 <= px < W_WIDTH && 0 <= py < W_HEIGHT && m.pixel(px, py) && #[trigger] covered(
                m,
                ax,
                ay,
                row,
                col,
                px,
                py,
            );
        assert(covered(m, ax, ay, row, col + 1, px, py));
    }
    if ax + col < W_WIDTH && ay + row < W_HEIGHT && m.pixel(ax + col, ay + row) && sprite_bit(
        m.memory[m.index + row],
        col,
    ) {
        assert(covered(m, ax, ay, row, col + 1, ax + col, ay + row));
    }
}

/// A row gone through to its end is the next row not yet begun.
proof fn collided_next_row(m: Machine, ax: int, ay: int, row: int)
    requires
        0 <= row,
    ensures
        collided(m, ax, ay, row, 8) <==> collided(m, ax, ay, row + 1, 0),
{
    if collided(m, ax, ay, row, 8) {
        let (px, py) = choose|px: int, py: int|
            0 <= px < W_WIDTH && 0 <= py < W_HEIGHT && m.pixel(px, py) && #[trigger] covered(
                m,
                ax,
                ay,
                row,
                8,
                px,
                py,
            );
        assert(covered(m, ax, ay, row + 1, 0, px, py));
    }
    if collided(m, ax, ay, row + 1, 0) {
        let (px, py) = choose|px: int, py: int|
            0 <= px < W_WIDTH && 0 <= py < W_HEIGHT && m.pixel(px, py) && #[trigger] covered(
                m,
                ax,
                ay,
                row + 1,
                0,
                px,
                py,
            );
        assert(covered(m, ax, ay, row, 8, px, py));
    }
}

/// With all `rows` rows gone through, the collisions are those of the
/// whole sprite.
proof fn collided_whole(m: Machine, ax: int, ay: int, rows: int)
    requires
        0 <= rows,
    ensures
        collided(m, ax, ay, rows, 0) <==> m.sprite_collides(ax, ay, rows),
{
    if collided(m, ax, ay, rows, 0) {
        let (px, py) = choose|px: int, py: int|
            0 <= px < W_WIDTH && 0 <= py < W_HEIGHT && m.pixel(px, py) && #[trigger] covered(
                m,
                ax,
                ay,
                rows,
                0,
                px,
                py,
            );
        assert(m.sprite_covers(ax, ay, rows, px, py));
    }
    if m.sprite_collides(ax, ay, rows) {
        let (px, py) = choose|px: int, py: int|
            0 <= px < W_WIDTH && 0 <= py < W_HEIGHT && m.pixel(px, py)
                && #[trigger] m.sprite_covers(ax, ay, rows, px, py);
        assert(covered(m, ax, ay, rows, 0, px, py));
    }
}

impl Chip8 {
    /// Blits the sprite of `n` rows at `memory[I]` onto the display at
    /// `(V[x] & 63, V[y] & 31)` and records in `VF` whether a cell was
    /// cleared.
    pub fn draw(&mut self, x: u16, y: u16, n: u16)
        requires
            old(self).wf(),
            x < 16,
            y < 16,
            n < 16,
            old(self)@.index + n <= MEMORY_SIZE,
        ensures
            final(self)@ == old(self)@.draw(x as int, y as int, n as int),
            final(self).wf(),
    {
        let vx = self.v_registers[x as usize];
        let vy = self.v_registers[y as usize];
        assert(vx & 63 < 64 && vy & 31 < 32) by (bit_vector);
        let ax = (vx & 63) as usize;
        let ay = (vy & 31) as usize;
        let i = self.i_register as usize;
        let rows = n as usize;
        let ghost before = self@;
        let mut hit = false;
        let mut row: usize = 0;
        while row < rows
            invariant
                row <= rows < 16,
                ax < 64,
                ay < 32,
                i == before.index,
                i + rows <= MEMORY_SIZE,
                before.wf(),
                self@ == (Machine { pixels: self@.pixels, ..before }),
                self@.pixels.len() == before.pixels.len(),
                forall|p: int|
                    0 <= p < W_WIDTH * W_HEIGHT ==> #[trigger] self@.pixels[p] == (before.pixels[p]
                        != covered(
                        before,
                        ax as int,
                        ay as int,
                        row as int,
                        0,
                        p % (W_WIDTH as int),
                        p / (W_WIDTH as int),
                    )),
                hit == collided(before, ax as int, ay as int, row as int, 0),
            decreases rows - row,
        {
            let sprite = self.memory[i + row];
            let mut col: usize = 0;
            while col < 8
                invariant
                    row < rows < 16,
                    col <= 8,
                    ax < 64,
                    ay < 32,
                    i == before.index,
                    i + rows <= MEMORY_SIZE,
                    before.wf(),
                    sprite == before.memory[i + row],
                    self@ == (Machine { pixels: self@.pixels, ..before }),
                    self@.pixels.len() == before.pixels.len(),
                    forall|p: int|
                        0 <= p < W_WIDTH * W_HEIGHT ==> #[trigger] self@.pixels[p] == (
                        before.pixels[p] != covered(
                            before,
                            ax as int,
                            ay as int,
                            row as int,
                            col as int,
                            p % (W_WIDTH as int),
                            p / (W_WIDTH as int),
                        )),
                    hit == collided(before, ax as int, ay as int, row as int, col as int),
                decreases 8 - col,
            {
                let cx = ax + col;
                let cy = ay + row;
                proof {
                    collided_next_column(before, ax as int, ay as int, row as int, col as int);
                }
                if cy < W_HEIGHT && cx < W_WIDTH {
                    let p = W_WIDTH * cy + cx;
                    let d_pixel = self.pixels[p];
                    let s_pixel = (sprite >> ((7 - col) as u8)) & 1 == 1;
                    assert(s_pixel == sprite_bit(sprite, col as int));
                    assert(d_pixel == before.pixel(cx as int, cy as int));
                    if d_pixel && s_pixel {
                        hit = true;
                    }
                    self.pixels.set(p, d_pixel != s_pixel);
                }
                col += 1;
            }
            proof {
                collided_next_row(before, ax as int, ay as int, row as int);
            }
            row += 1;
        }
        let flag: u8 = if hit {
            1
        } else {
            0
        };
        self.v_registers.set(0xF, flag);
        proof {
            collided_whole(before, ax as int, ay as int, rows as int);
            assert(self@.pixels =~= before.blit(ax as int, ay as int, rows as int));
            assert(self@ =~= before.draw(x as int, y as int, n as int));
        }
    }
}

/// A byte from the thread-local generator of `rand` (`thread_rng`, then
/// `Rng::gen`). Nothing is claimed of the byte.
#[verifier::external_body]
fn random_byte() -> (byte: u8) {
    rand::thread_rng().gen::<u8>()
}

/// The place of the key that `key` names: the first place of `keys` at
/// which the single character of `key` stands. `None` where `key` is not
/// a single character or stands nowhere.
fn find_key(keys: &str, key: &str) -> (found: Option<usize>)
    ensures
        match found {
            Some(k) => first_named(keys@, key@, k as int),
            None => forall|k: int| !names_key(keys@, key@, k),
        },
{
    if key.unicode_len() != 1 {
        return None;
    }
    let name = key.get_char(0);
    let n = keys.unicode_len();
    let mut k: usize = 0;
    while k < n
        invariant
            k <= n,
            n == keys@.len(),
            key@.len() == 1,
            name == key@[0],
            forall|j: int| 0 <= j < k ==> !names_key(keys@, key@, j),
        decreases n - k,
    {
        if keys.get_char(k) == name {
            return Some(k);
        }
        k += 1;
    }
    None
}

impl Chip8 {
    /// `Fx33`: the hundreds, tens and ones of `V[x]` go to `memory[I]`,
    /// `memory[I + 1]` and `memory[I + 2]`.
    fn store_decimal(&mut self, x: u16)
        requires
            old(self).wf(),
            x < 16,
            old(self)@.index + 3 <= MEMORY_SIZE,
        ensures
            final(self)@ == old(self)@.execute(Instruction(0xF, x, 3, 3), 0),
            final(self).wf(),
    {
        let vx = self.v_registers[x as usize];
        let i = self.i_register as usize;
        self.memory.set(i, vx / 100);
        self.memory.set(i + 1, (vx / 10) % 10);
        self.memory.set(i + 2, vx % 10);
    }

    /// `Fx55`: `V[0]` to `V[x]` go to memory from `memory[I]` on.
    fn store_registers(&mut self, x: u16)
        requires
            old(self).wf(),
            x < 16,
            old(self)@.index + x + 1 <= MEMORY_SIZE,
        ensures
            final(self)@ == old(self)@.execute(Instruction(0xF, x, 5, 5), 0),
            final(self).wf(),
    {
        let i = self.i_register as usize;
        let count = x as usize + 1;
        let mut r: usize = 0;
        while r < count
            invariant
                r <= count <= 16,
                i == old(self)@.index,
                i + count <= MEMORY_SIZE,
                self.wf(),
                self@ == (Machine { memory: self@.memory, ..old(self)@ }),
                forall|a: int|
                    0 <= a < MEMORY_SIZE ==> #[trigger] self@.memory[a] == if i <= a < i + r {
                        old(self)@.registers[a - i]
                    } else {
                        old(self)@.memory[a]
                    },
            decreases count - r,
        {
            self.memory.set(i + r, self.v_registers[r]);
            r += 1;
        }
        assert(self@ =~= old(self)@.execute(Instruction(0xF, x, 5, 5), 0));
    }

    /// `Fx65`: `V[0]` to `V[x]` are read from memory from `memory[I]` on.
    fn load_registers(&mut self, x: u16)
        requires
            old(self).wf(),
            x < 16,
            old(self)@.index + x + 1 <= MEMORY_SIZE,
        ensures
            final(self)@ == old(self)@.execute(Instruction(0xF, x, 6, 5), 0),
            final(self).wf(),
    {
        let i = self.i_register as usize;
        let count = x as usize + 1;
        let mut r: usize = 0;
        while r < count
            invariant
                r <= count <= 16,
                i == old(self)@.index,
                i + count <= MEMORY_SIZE,
                self.wf(),
                self@ == (Machine { registers: self@.registers, ..old(self)@ }),
                forall|k: int|
                    0 <= k < 16 ==> #[trigger] self@.registers[k] == if k < r {
                        old(self)@.memory[i + k]
                    } else {
                        old(self)@.registers[k]
                    },
            decreases count - r,
        {
            self.v_registers.set(r, self.memory[i + r]);
            r += 1;
        }
        assert(self@ =~= old(self)@.execute(Instruction(0xF, x, 6, 5), 0));
    }

    /// Key `value & 15` is down.
    fn key_pressed(&self, value: u8) -> (pressed: bool)
        requires
            self.wf(),
        ensures
            pressed == self@.key_pressed(value),
    {
        match self.keys_states[(value % 16) as usize] {
            KeyState::Pressed => true,
            KeyState::Idle => false,
        }
    }

    fn skip_if(&mut self, condition: bool)
        requires
            old(self).wf(),
            old(self)@.pc <= usize::MAX - 2,
        ensures
            final(self)@ == old(self)@.skip_if(condition),
            final(self).wf(),
    {
        if condition {
            self.pc += 2;
        }
    }

    fn set_register(&mut self, x: u16, value: u8)
        requires
            old(self).wf(),
            x < 16,
        ensures
            final(self)@ == old(self)@.set_register(x as int, value),
            final(self).wf(),
    {
        self.v_registers.set(x as usize, value);
    }

    /// Executes an instruction that was fetched just before, so that the
    /// program counter already points past it. `random` is the byte that
    /// `Cxkk` combines with its mask. An instruction that cannot be
    /// executed changes nothing and gives the fault. Of the counter only
    /// the key wait and the skips ask anything: room to step back or ahead.
    pub fn execute(&mut self, instruction: &Instruction, random: u8) -> (done: Result<(), Fault>)
        requires
            old(self).wf(),
            instruction.wf(),
            old(self)@.counter_fits(*instruction),
        ensures
            final(self).wf(),
            match old(self)@.fault(*instruction, fetched_from(old(self)@.pc)) {
                Some(fault) => done == Err::<(), Fault>(fault) && final(self)@ == old(self)@,
                None => done == Ok::<(), Fault>(()) && final(self)@ == old(self)@.execute(
                    *instruction,
                    random,
                ),
            },
    {
        let at = if self.pc >= 2 {
            self.pc - 2
        } else {
            0
        };
        if !instruction.is_known() {
            return Err(Fault::InvalidOpcode { opcode: instruction.word(), pc: at });
        }
        let (n1, x, y, n) = (instruction.0, instruction.1, instruction.2, instruction.3);
        if n1 == 0 && n == 0xE && self.stack.len() == 0 {
            return Err(Fault::StackUnderflow { pc: at });
        }
        let span: usize = match (n1, x, y, n) {
            (0xD, _, _, _) => n as usize,
            (0xF, _, 3, 3) => 3,
            (0xF, _, 5, 5) | (0xF, _, 6, 5) => x as usize + 1,
            _ => 0,
        };
        if self.i_register as usize + span > MEMORY_SIZE {
            return Err(Fault::OutOfRange { pc: at, address: self.i_register as usize });
        }
        let kk = instruction.byte();
        let nnn = instruction.address();
        let vx = self.v_registers[x as usize];
        let vy = self.v_registers[y as usize];
        match (n1, x, y, n) {
            (0, 0, 0xE, 0) => {
                let mut p: usize = 0;
                while p < W_WIDTH * W_HEIGHT
                    invariant
                        p <= W_WIDTH * W_HEIGHT,
                        self.wf(),
                        self@ == (Machine { pixels: self@.pixels, ..old(self)@ }),
                        forall|q: int| 0 <= q < p ==> !self@.pixels[q],
                    decreases W_WIDTH * W_HEIGHT - p,
                {
                    self.pixels.set(p, false);
                    p += 1;
                }
            },
            (0, 0, 0xE, 0xE) => {
                match self.stack.pop() {
                    Some(address) => {
                        self.pc = address;
                    },
                    None => {},
                }
            },
            (1, _, _, _) => {
                self.pc = nnn as usize;
            },
            (2, _, _, _) => {
                self.stack.push(self.pc);
                self.pc = nnn as usize;
            },
            (3, _, _, _) => self.skip_if(vx == kk),
            (4, _, _, _) => self.skip_if(vx != kk),
            (5, _, _, 0) => self.skip_if(vx == vy),
            (6, _, _, _) => self.set_register(x, kk),
            (7, _, _, _) => self.set_register(x, ((vx as u16 + kk as u16) % 256) as u8),
            (8, _, _, 0) => self.set_register(x, vy),
            (8, _, _, 1) => self.compute(x, y, Operation::Or, false),
            (8, _, _, 2) => self.compute(x, y, Operation::And, false),
            (8, _, _, 3) => self.compute(x, y, Operation::Xor, false),
            (8, _, _, 4) => {
                self.set_register(0xF, 0);
                self.compute(x, y, Operation::Add, true);
            },
            (8, _, _, 5) => {
                self.set_register(0xF, 1);
                self.compute(x, y, Operation::Sub, true);
            },
            (8, _, _, 6) => {
                self.set_register(0xF, vx % 2);
                let value = self.v_registers[x as usize];
                self.set_register(x, value / 2);
            },
            (8, _, _, 7) => {
                self.set_register(0xF, 1);
                self.compute(x, y, Operation::SubFrom, true);
            },
            (8, _, _, 0xE) => {
                self.set_register(0xF, vx / 128);
                let value = self.v_registers[x as usize];
                self.set_register(x, ((value as u16 * 2) % 256) as u8);
            },
            (9, _, _, 0) => self.skip_if(vx != vy),
            (0xA, _, _, _) => {
                self.i_register = nnn;
            },
            (0xB, _, _, _) => {
                self.pc = nnn as usize + self.v_registers[0] as usize;
            },
            (0xC, _, _, _) => self.set_register(x, random & kk),
            (0xD, _, _, _) => self.draw(x, y, n),
            (0xE, _, 9, 0xE) => {
                let pressed = self.key_pressed(vx);
                self.skip_if(pressed);
            },
            (0xE, _, 0xA, 1) => {
                let pressed = self.key_pressed(vx);
                self.skip_if(!pressed);
            },
            (0xF, _, 0, 7) => self.set_register(x, self.delay_timer),
            (0xF, _, 0, 0xA) => {
                if !self.key_pressed(vx) {
                    self.pc -= 2;
                }
            },
            (0xF, _, 1, 5) => {
                self.delay_timer = vx;
            },
            (0xF, _, 1, 8) => {
                self.sound_timer = vx;
            },
            (0xF, _, 1, 0xE) => {
                let sum: u16 = self.i_register + vx as u16;
                let flag: u8 = if sum > 0xFFF {
                    1
                } else {
                    0
                };
                self.v_registers.set(0xF, flag);
                self.i_register = sum % 4096;
            },
            (0xF, _, 2, 9) => {
                self.i_register = 0x050 + 5 * (vx as u16);
            },
            (0xF, _, 3, 3) => self.store_decimal(x),
            (0xF, _, 5, 5) => self.store_registers(x),
            (0xF, _, 6, 5) => self.load_registers(x),
            _ => {},
        }
        assert(self@ =~= old(self)@.execute(*instruction, random));
        Ok(())
    }
}

impl Chip8 {
    /// One cycle with the random byte given: fetches the instruction at
    /// the program counter and executes it. Reports what the instruction
    /// wrote to, or the fault, in which case the machine is as it was.
    pub fn step_with(&mut self, random: u8) -> (outcome: Result<Target, Fault>)
        requires
            old(self).wf(),
        ensures
            final(self).wf(),
            outcome == old(self)@.report(random),
            final(self)@ == old(self)@.after_step(random),
    {
        let instruction = match self.fetch() {
            Ok(instruction) => instruction,
            Err(fault) => {
                return Err(fault);
            },
        };
        match self.execute(&instruction, random) {
            Ok(()) => Ok(instruction.target()),
            Err(fault) => {
                self.pc -= 2;
                assert(self@ =~= old(self)@);
                Err(fault)
            },
        }
    }

    /// One cycle. Where the next instruction is `Cxkk` a fresh random byte
    /// goes into it; every other instruction is executed as with byte 0,
    /// which it does not read.
    ///
    /// The byte comes from the thread-local generator of `rand`, which
    /// panics where the operating system gives it no seed, on first use in
    /// a thread or at a later reseed. So a step on `Cxkk` can unwind;
    /// `step_with` cannot.
    pub fn step(&mut self) -> (outcome: Result<Target, Fault>)
        requires
            old(self).wf(),
        ensures
            final(self).wf(),
            exists|random: u8|
                outcome == old(self)@.report(random) && final(self)@ == #[trigger] old(
                    self,
                )@.after_step(random),
            !old(self)@.draws_random() ==> outcome == old(self)@.report(0) && final(self)@ == old(
                self,
            )@.after_step(0),
    {
        let random = match self.peek() {
            Some(Instruction(0xC, _, _, _)) => random_byte(),
            _ => 0,
        };
        self.step_with(random)
    }

    /// Records that the key named `key` went down or up. A name is a
    /// single character of the key map; any other string is ignored.
    pub fn update_key_states(&mut self, key: &str, state: KeyState)
        requires
            old(self).wf(),
        ensures
            final(self).wf(),
            final(self)@ == old(self)@.update_key(key@, state),
    {
        match find_key(self.keys.as_str(), key) {
            Some(position) => {
                proof {
                    // The model picks a first place; there is only one.
                    let first = choose|k: int| first_named(self@.keys, key@, k);
                    assert(first == position);
                }
                self.keys_states.set(position, state);
            },
            None => {},
        }
    }

    pub fn pc(&self) -> (pc: usize)
        ensures
            pc == self@.pc,
    {
        self.pc
    }

    pub fn i_register(&self) -> (index: u16)
        ensures
            index == self@.index,
    {
        self.i_register
    }

    pub fn register(&self, x: usize) -> (value: u8)
        requires
            self.wf(),
            x < 16,
        ensures
            value == self@.registers[x as int],
    {
        self.v_registers[x]
    }

    pub fn memory(&self, address: usize) -> (value: u8)
        requires
            self.wf(),
            address < MEMORY_SIZE,
        ensures
            value == self@.memory[address as int],
    {
        self.memory[address]
    }

    pub fn delay_timer(&self) -> (value: u8)
        ensures
            value == self@.delay_timer,
    {
        self.delay_timer
    }

    pub fn sound_timer(&self) -> (value: u8)
        ensures
            value == self@.sound_timer,
    {
        self.sound_timer
    }

    pub fn key_state(&self, key: usize) -> (state: KeyState)
        requires
            self.wf(),
            key < 16,
        ensures
            state == self@.key_states[key as int],
    {
        self.keys_states[key]
    }
}

} // verus!
