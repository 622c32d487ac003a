//! Laws of the machine: statements about one or several steps of the
//! model in `machine`, each proved from the model's definitions.

use crate::instruction::Instruction;
use crate::machine::{
    first_named, font, names_key, sprite_bit, Fault, KeyState, Machine, FONT_OFFSET, LOAD_START,
    MEMORY_SIZE, W_HEIGHT, W_WIDTH,
};
use vstd::prelude::*;

verus! {

/// Splitting a word into nibbles loses nothing: every field is a nibble,
/// and the nibbles give the word back.
pub proof fn law_decode_keeps_word(word: u16)
    ensures
        Instruction::spec_decode(word).wf(),
        Instruction::spec_decode(word).spec_word() == word,
        Instruction::spec_decode(word).spec_byte() == word % 256,
        Instruction::spec_decode(word).spec_address() == word % 4096,
{
    assert(word / 4096 < 16 && (word / 4096) * 4096 + ((word / 256) % 16) * 256 + ((word / 16) % 16)
        * 16 + word % 16 == word) by (bit_vector);
    assert(((word / 16) % 16) * 16 + word % 16 == word % 256) by (bit_vector);
    assert(((word / 256) % 16) * 256 + ((word / 16) % 16) * 16 + word % 16 == word % 4096)
        by (bit_vector);
}

/// A step keeps the state well formed, whatever the instruction and
/// whether or not it faults.
pub proof fn law_step_keeps_wf(m: Machine, random: u8)
    requires
        m.wf(),
    ensures
        m.after_step(random).wf(),
{
    if m.step(random) is Ok {
        law_decode_keeps_word(m.word_at(m.pc as int));
        let ins = m.next_instruction();
        let fetched = Machine { pc: (m.pc + 2) as usize, ..m };
        assert(ins.spec_address() <= 0xFFF);
        assert(fetched.execute(ins, random).wf());
    }
}

/// Only `Cxkk` reads the random byte: the step of any other instruction
/// is the same for every byte.
pub proof fn law_random_only_in_cxkk(m: Machine, a: u8, b: u8)
    requires
        !m.draws_random(),
    ensures
        m.step(a) == m.step(b),
{
}

/// A word that matches no instruction stops the machine: the step
/// reports the word and the address it was fetched from, and the state
/// stays as it was.
pub proof fn law_unknown_word_faults(m: Machine, random: u8)
    requires
        m.wf(),
        m.pc + 2 <= MEMORY_SIZE,
        !m.next_instruction().known(),
    ensures
        m.report(random) == Err::<crate::instruction::Target, Fault>(
            Fault::InvalidOpcode { opcode: m.word_at(m.pc as int), pc: m.pc },
        ),
        m.after_step(random) == m,
{
    law_decode_keeps_word(m.word_at(m.pc as int));
}

/// `6xkk` puts `kk` into `V[x]` and touches nothing else but the program
/// counter, so a read of `V[x]` right after gives `kk`.
pub proof fn law_set_then_read(m: Machine, random: u8)
    requires
        m.wf(),
        m.pc + 2 <= MEMORY_SIZE,
        m.next_instruction().0 == 6,
    ensures
        ({
            let ins = m.next_instruction();
            let kk = (m.word_at(m.pc as int) % 256) as u8;
            &&& m.step(random) is Ok
            &&& m.after_step(random).registers[ins.1 as int] == kk
            &&& m.after_step(random) == (Machine {
                pc: (m.pc + 2) as usize,
                registers: m.registers.update(ins.1 as int, kk),
                ..m
            })
        }),
{
    law_decode_keeps_word(m.word_at(m.pc as int));
}

/// `7xkk` adds modulo 256 and gives no overflow signal: no register but
/// `V[x]` changes, `VF` included.
pub proof fn law_add_byte_wraps(m: Machine, random: u8)
    requires
        m.wf(),
        m.pc + 2 <= MEMORY_SIZE,
        m.next_instruction().0 == 7,
    ensures
        ({
            let ins = m.next_instruction();
            let kk = m.word_at(m.pc as int) % 256;
            let sum = (m.registers[ins.1 as int] + kk) % 256;
            &&& m.step(random) is Ok
            &&& m.after_step(random) == (Machine {
                pc: (m.pc + 2) as usize,
                registers: m.registers.update(ins.1 as int, sum as u8),
                ..m
            })
        }),
{
    law_decode_keeps_word(m.word_at(m.pc as int));
}

/// `6xkk` by itself, on any machine and wherever the program counter
/// stands: `V[x]` becomes `kk`, every other register and all the rest of
/// the state stay, and nothing can fault.
pub proof fn law_set_register(m: Machine, ins: Instruction, at: usize, random: u8)
    requires
        m.wf(),
        ins.wf(),
        ins.0 == 6,
    ensures
        m.counter_fits(ins),
        m.fault(ins, at) is None,
        m.execute(ins, random) == (Machine {
            registers: m.registers.update(ins.1 as int, ins.spec_byte()),
            ..m
        }),
        m.execute(ins, random).registers[ins.1 as int] == ins.spec_byte(),
        forall|j: int|
            0 <= j < 16 && j != ins.1 ==> m.execute(ins, random).registers[j] == m.registers[j],
{
}

/// `7xkk` by itself, on any machine and wherever the program counter
/// stands: `V[x]` becomes the sum modulo 256, every other register and
/// all the rest of the state stay, and nothing can fault. So `VF` is as before even where the sum passed 255, unless
/// it is `V[x]` itself.
pub proof fn law_add_byte(m: Machine, ins: Instruction, at: usize, random: u8)
    requires
        m.wf(),
        ins.wf(),
        ins.0 == 7,
    ensures
        m.counter_fits(ins),
        m.fault(ins, at) is None,
        m.execute(ins, random) == (Machine {
            registers: m.registers.update(
                ins.1 as int,
                ((m.registers[ins.1 as int] + ins.spec_byte()) % 256) as u8,
            ),
            ..m
        }),
        m.execute(ins, random).registers[ins.1 as int] == (m.registers[ins.1 as int]
            + ins.spec_byte()) % 256,
        forall|j: int|
            0 <= j < 16 && j != ins.1 ==> m.execute(ins, random).registers[j] == m.registers[j],
        ins.1 != 0xF ==> m.execute(ins, random).registers[0xF] == m.registers[0xF],
{
}

/// The flag of the three arithmetic instructions, for operands other than
/// `VF` itself: `8xy4` leaves the sum modulo 256 and a 1 exactly when it
/// carried; `8xy5` and `8xy7` leave the difference modulo 256 and a 0
/// exactly when it borrowed.
pub proof fn law_arithmetic_flag(m: Machine, ins: Instruction, random: u8)
    requires
        m.wf(),
        ins.wf(),
        ins.0 == 8,
        ins.3 == 4 || ins.3 == 5 || ins.3 == 7,
        ins.1 != 0xF,
        ins.2 != 0xF,
    ensures
        ({
            let vx = m.registers[ins.1 as int] as int;
            let vy = m.registers[ins.2 as int] as int;
            let result = if ins.3 == 4 {
                vx + vy
            } else if ins.3 == 5 {
                vx - vy
            } else {
                vy - vx
            };
            let flag: u8 = if ins.3 == 4 {
                if result > 255 {
                    1
                } else {
                    0
                }
            } else {
                if result < 0 {
                    0
                } else {
                    1
                }
            };
            m.execute(ins, random) == (Machine {
                registers: m.registers.update(0xF, flag).update(
                    ins.1 as int,
                    (result % 256) as u8,
                ),
                ..m
            })
        }),
{
    let after = m.execute(ins, random);
    let vx = m.registers[ins.1 as int] as int;
    let vy = m.registers[ins.2 as int] as int;
    let result = if ins.3 == 4 {
        vx + vy
    } else if ins.3 == 5 {
        vx - vy
    } else {
        vy - vx
    };
    let flag: u8 = if ins.3 == 4 {
        if result > 255 {
            1
        } else {
            0
        }
    } else {
        if result < 0 {
            0
        } else {
            1
        }
    };
    assert(after.registers =~= m.registers.update(0xF, flag).update(
        ins.1 as int,
        (result % 256) as u8,
    ));
}

/// Blitting a sprite onto the result of blitting it gives the first
/// display back, and the second blit finds a set cell under the sprite
/// exactly when the first one had set a cell.
proof fn blit_twice(m: Machine, once: Machine, ax: int, ay: int, n: int)
    requires
        m.pixels.len() == W_WIDTH * W_HEIGHT,
        once.pixels == m.blit(ax, ay, n),
        once.memory == m.memory,
        once.index == m.index,
    ensures
        once.blit(ax, ay, n) == m.pixels,
        once.sprite_collides(ax, ay, n) <==> exists|px: int, py: int|
            0 <= px < W_WIDTH && 0 <= py < W_HEIGHT && !m.pixel(px, py) && #[trigger] once.pixel(
                px,
                py,
            ),
{
    assert forall|px: int, py: int| 0 <= px < W_WIDTH && 0 <= py < W_HEIGHT implies once.pixel(
        px,
        py,
    ) == (m.pixel(px, py) != m.sprite_covers(ax, ay, n, px, py)) by {
        let p = W_WIDTH * py + px;
        assert(p % (W_WIDTH as int) == px && p / (W_WIDTH as int) == py);
    }
    assert(once.blit(ax, ay, n) =~= m.pixels);
    if once.sprite_collides(ax, ay, n) {
        let (px, py) = choose|px: int, py: int|
            0 <= px < W_WIDTH && 0 <= py < W_HEIGHT && once.pixel(px, py)
                && #[trigger] once.sprite_covers(ax, ay, n, px, py);
        assert(m.sprite_covers(ax, ay, n, px, py));
        assert(!m.pixel(px, py) && once.pixel(px, py));
    }
    if exists|px: int, py: int|
        0 <= px < W_WIDTH && 0 <= py < W_HEIGHT && !m.pixel(px, py) && #[trigger] once.pixel(px, py) {
        let (px, py) = choose|px: int, py: int|
            0 <= px < W_WIDTH && 0 <= py < W_HEIGHT && !m.pixel(px, py) && #[trigger] once.pixel(
                px,
                py,
            );
        assert(m.sprite_covers(ax, ay, n, px, py));
        assert(once.sprite_covers(ax, ay, n, px, py));
    }
}

/// Drawing the same sprite at the same place twice gives the display
/// back, and the second draw reports a collision exactly when the first
/// one had set a cell. The anchor registers must not be `VF`, which the
/// first draw overwrites.
pub proof fn law_draw_twice(m: Machine, x: int, y: int, n: int)
    requires
        m.wf(),
        0 <= x < 15,
        0 <= y < 15,
        0 <= n < 16,
    ensures
        ({
            let once = m.draw(x, y, n);
            let twice = once.draw(x, y, n);
            &&& twice.pixels == m.pixels
            &&& twice == (Machine { registers: twice.registers, ..m })
            &&& twice.registers[0xF] == 1 <==> exists|px: int, py: int|
                0 <= px < W_WIDTH && 0 <= py < W_HEIGHT && !m.pixel(px, py) && #[trigger] once.pixel(
                    px,
                    py,
                )
        }),
{
    let ax = (m.registers[x] & 63) as int;
    let ay = (m.registers[y] & 31) as int;
    let once = m.draw(x, y, n);
    let twice = once.draw(x, y, n);
    assert(once.registers[x] == m.registers[x] && once.registers[y] == m.registers[y]);
    blit_twice(m, once, ax, ay, n);
    assert(twice.pixels == once.blit(ax, ay, n));
    assert(twice.registers[0xF] == 1 <==> once.sprite_collides(ax, ay, n));
    assert(twice =~= (Machine { registers: twice.registers, ..m }));
}

/// A sprite is clipped at the edges of the display and never wraps:
/// a draw changes no cell outside the eight columns and `n` rows from the
/// anchor, the cells inside take the sprite's bits by exclusive or, and
/// an anchor near the edge is no fault.
pub proof fn law_draw_clips(m: Machine, ins: Instruction, at: usize)
    requires
        m.wf(),
        ins.wf(),
        ins.0 == 0xD,
    ensures
        ({
            let after = m.draw(ins.1 as int, ins.2 as int, ins.3 as int);
            let ax = (m.registers[ins.1 as int] & 63) as int;
            let ay = (m.registers[ins.2 as int] & 31) as int;
            &&& m.index + ins.3 <= MEMORY_SIZE ==> m.fault(ins, at) is None
            &&& after.pixels.len() == W_WIDTH * W_HEIGHT
            &&& 0 <= ax < W_WIDTH && 0 <= ay < W_HEIGHT
            &&& forall|px: int, py: int|
                0 <= px < W_WIDTH && 0 <= py < W_HEIGHT ==> #[trigger] after.pixel(px, py) == if ax
                    <= px < ax + 8 && ay <= py < ay + ins.3 {
                    m.pixel(px, py) != sprite_bit(m.memory[m.index + (py - ay)], px - ax)
                } else {
                    m.pixel(px, py)
                }
        }),
{
    let after = m.draw(ins.1 as int, ins.2 as int, ins.3 as int);
    let vx = m.registers[ins.1 as int];
    let vy = m.registers[ins.2 as int];
    assert(vx & 63 < 64 && vy & 31 < 32) by (bit_vector);
    let ax = (vx & 63) as int;
    let ay = (vy & 31) as int;
    assert forall|px: int, py: int|
        0 <= px < W_WIDTH && 0 <= py < W_HEIGHT implies #[trigger] after.pixel(px, py) == if ax
        <= px < ax + 8 && ay <= py < ay + ins.3 {
        m.pixel(px, py) != sprite_bit(m.memory[m.index + (py - ay)], px - ax)
    } else {
        m.pixel(px, py)
    } by {
        let p = W_WIDTH * py + px;
        assert(p % (W_WIDTH as int) == px && p / (W_WIDTH as int) == py);
    }
}

/// A call followed at once by a return comes back to the instruction
/// after the call, with the stack and everything else as before the call.
pub proof fn law_call_then_return(m: Machine, a: u8, b: u8)
    requires
        m.wf(),
        m.pc + 2 <= MEMORY_SIZE,
        m.next_instruction().0 == 2,
        m.next_instruction().spec_address() + 2 <= MEMORY_SIZE,
        m.word_at(m.next_instruction().spec_address() as int) == 0x00EE,
    ensures
        m.step(a) is Ok,
        m.after_step(a).step(b) is Ok,
        m.after_step(a).after_step(b) == (Machine { pc: (m.pc + 2) as usize, ..m }),
{
    law_decode_keeps_word(m.word_at(m.pc as int));
    let called = m.after_step(a);
    assert(called.pc == m.next_instruction().spec_address());
    assert(called.stack == m.stack.push((m.pc + 2) as usize));
    assert(called.next_instruction() == Instruction(0, 0, 0xE, 0xE));
    assert(called.stack.drop_last() =~= m.stack);
    assert(called.after_step(b) =~= (Machine { pc: (m.pc + 2) as usize, ..m }));
}

/// `Fx0A` waits: while key `V[x]` is idle a step changes nothing, the
/// program counter included, so the same word is fetched again; once the
/// key is down the step only moves past the instruction.
pub proof fn law_key_wait(m: Machine, random: u8)
    requires
        m.wf(),
        m.pc + 2 <= MEMORY_SIZE,
        m.next_instruction().0 == 0xF,
        m.next_instruction().2 == 0,
        m.next_instruction().3 == 0xA,
    ensures
        ({
            let key = m.registers[m.next_instruction().1 as int];
            &&& m.step(random) is Ok
            &&& !m.key_pressed(key) ==> m.after_step(random) == m
            &&& m.key_pressed(key) ==> m.after_step(random) == (Machine {
                pc: (m.pc + 2) as usize,
                ..m
            })
        }),
{
    law_decode_keeps_word(m.word_at(m.pc as int));
    let key = m.registers[m.next_instruction().1 as int];
    if !m.key_pressed(key) {
        assert(m.after_step(random) =~= m);
    }
}

/// However often the machine steps on an `Fx0A` whose key is idle, it
/// stays as it is.
pub proof fn law_key_wait_repeats(m: Machine, randoms: Seq<u8>)
    requires
        m.wf(),
        m.pc + 2 <= MEMORY_SIZE,
        m.next_instruction().0 == 0xF,
        m.next_instruction().2 == 0,
        m.next_instruction().3 == 0xA,
        !m.key_pressed(m.registers[m.next_instruction().1 as int]),
    ensures
        m.run(randoms) == m,
    decreases randoms.len(),
{
    if randoms.len() > 0 {
        law_key_wait(m, randoms[0]);
        law_key_wait_repeats(m, randoms.drop_first());
    }
}

/// `Fx29` points the index register at the glyph of digit `V[x]`: five
/// bytes per glyph from `FONT_OFFSET` on.
pub proof fn law_glyph_address(m: Machine, ins: Instruction, random: u8)
    requires
        m.wf(),
        ins.wf(),
        ins.0 == 0xF,
        ins.2 == 2,
        ins.3 == 9,
    ensures
        m.execute(ins, random) == (Machine {
            index: (FONT_OFFSET + 5 * m.registers[ins.1 as int]) as u16,
            ..m
        }),
        m.execute(ins, random).index == FONT_OFFSET + 5 * m.registers[ins.1 as int],
{
}

/// Loading a program leaves the font where a new machine has it: glyph
/// `d` in the five cells from `FONT_OFFSET + 5 * d` on, the address that
/// `Fx29` computes for it.
pub proof fn law_font_stays_in_place(keys: Seq<char>, program: Seq<u8>, d: int, row: int)
    requires
        program.len() <= MEMORY_SIZE - LOAD_START,
        0 <= d < 16,
        0 <= row < 5,
    ensures
        Machine::initial(keys).load(program).memory[FONT_OFFSET + 5 * d + row] == font()[5 * d
            + row],
{
}

/// A name that is no single character of the key map changes no latch.
pub proof fn law_unmapped_key_ignored(m: Machine, key: Seq<char>, state: KeyState)
    requires
        forall|k: int| !names_key(m.keys, key, k),
    ensures
        m.update_key(key, state) == m,
{
}

/// The empty name and every name of two or more characters change no
/// latch, whatever the key map holds.
pub proof fn law_only_single_characters_name_keys(m: Machine, key: Seq<char>, state: KeyState)
    requires
        key.len() != 1,
    ensures
        m.update_key(key, state) == m,
{
}

/// The name made of the one character at place `k` of the key map, where
/// that character stands at no earlier place, sets latch `k` and no other.
pub proof fn law_single_character_key(m: Machine, k: int, state: KeyState)
    requires
        0 <= k < m.keys.len(),
        forall|j: int| 0 <= j < k ==> m.keys[j] != m.keys[k],
    ensures
        m.update_key(seq![m.keys[k]], state) == (Machine {
            key_states: m.key_states.update(k, state),
            ..m
        }),
{
    let key = seq![m.keys[k]];
    assert(first_named(m.keys, key, k));
    let first = choose|i: int| first_named(m.keys, key, i);
    assert(first == k);
}

} // verus!
