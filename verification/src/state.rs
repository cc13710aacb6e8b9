//! The machine as a mathematical value, and what one instruction does to it.
//!
//! [`State`] is the model that the contracts of the emulator speak of.
//! [`step_spec`] is the state-transition function: it fetches the word at the
//! program counter, decodes it and applies [`execute_spec`]. An instruction
//! reads its operands from the state before it, writes its data, and writes
//! the flag register VF last. A fault leaves the state as it was and halts the
//! machine.

use crate::decoder::{decode_spec, word_of, Decoded};
use crate::display::{blank, collides, drawn, sprite_fits};
use crate::keypad::{key_for, Key, Keypad};
use vstd::prelude::*;

verus! {

/// Where a program is loaded.
pub const MEM_OFFSET: u16 = 0x200;

/// Where the font table is loaded unless the configuration says otherwise.
pub const FONT_OFFSET: u16 = 0x50;

/// Whether `FX55` and `FX65` advance the index register unless the
/// configuration says otherwise.
pub const FORCE_COSMAC_VIP: bool = false;

/// The glyphs of the digits 0 to F, five bytes each.
pub const FONT: [u8; 80] = [
    0xF0, 0x90, 0x90, 0x90, 0xF0,
    0x20, 0x60, 0x20, 0x20, 0x70,
    0xF0, 0x10, 0xF0, 0x80, 0xF0,
    0xF0, 0x10, 0xF0, 0x10, 0xF0,
    0x90, 0x90, 0xF0, 0x10, 0x10,
    0xF0, 0x80, 0xF0, 0x10, 0xF0,
    0xF0, 0x80, 0xF0, 0x90, 0xF0,
    0xF0, 0x10, 0x20, 0x40, 0x40,
    0xF0, 0x90, 0xF0, 0x90, 0xF0,
    0xF0, 0x90, 0xF0, 0x10, 0xF0,
    0xF0, 0x90, 0xF0, 0x90, 0x90,
    0xE0, 0x90, 0xE0, 0x90, 0xE0,
    0xF0, 0x80, 0x80, 0x80, 0xF0,
    0xE0, 0x90, 0x90, 0x90, 0xE0,
    0xF0, 0x80, 0xF0, 0x80, 0xF0,
    0xF0, 0x80, 0xF0, 0x80, 0x80,
];

/// Why the machine halted.
#[derive(Clone, Copy, Debug, PartialEq, Eq, Structural)]
pub enum Fault {
    /// A call with 32 return addresses already on the stack.
    StackOverflow,
    /// A return with no return address on the stack.
    StackUnderflow,
    /// A fetch or an operand address behind the last byte of memory.
    MemoryOutOfBounds,
    /// A set sprite pixel behind the last cell of the display.
    DisplayOutOfBounds,
}

/// Whether the machine issues instructions.
#[derive(Clone, Copy, Debug, PartialEq, Eq, Structural)]
pub enum Status {
    /// The next step executes an instruction.
    Running,
    /// Parked by `FX0A` until a key goes down; its number goes to `register`.
    WaitingForKey { register: u8 },
    /// Halted by a fault, for good.
    Halted { fault: Fault },
}

/// What one step did, for the host to act on.
#[derive(Clone, Copy, Debug, PartialEq, Eq, Structural)]
pub enum Outcome {
    /// An instruction was executed.
    Executed,
    /// An instruction that clears the display or draws on it was executed.
    Redraw,
    /// The word was no instruction; it was counted and passed over.
    Unrecognized { word: u16 },
    /// The machine is parked until a key goes down.
    WaitingForKey,
    /// The machine is halted.
    Halted { fault: Fault },
}

/// The choices that the instruction set leaves open.
#[derive(Clone, Copy, Debug, PartialEq, Eq, Structural)]
pub struct Config {
    /// Where the font table is loaded.
    pub font_base: u16,
    /// Whether `8XY6` and `8XYE` shift VX itself rather than VY.
    pub shift_in_place: bool,
    /// Whether `FX55` and `FX65` advance the index register by X + 1.
    pub advance_index: bool,
}

impl Config {
    /// Whether the font table lies within memory.
    pub open spec fn valid(self) -> bool {
        self.font_base + 80 <= 4096
    }

    /// The standard configuration.
    pub open spec fn standard() -> Config {
        Config {
            font_base: FONT_OFFSET,
            shift_in_place: false,
            advance_index: FORCE_COSMAC_VIP,
        }
    }

    /// The standard configuration: the font table at 0x50, shifts that read
    /// VY, and an index register that block copies leave alone.
    pub fn new() -> (config: Config)
        ensures
            config == Config::standard(),
            config.valid(),
    {
        Config { font_base: FONT_OFFSET, shift_in_place: false, advance_index: FORCE_COSMAC_VIP }
    }
}

/// The machine as a value.
#[verifier::ext_equal]
pub struct State {
    /// The 4096 bytes of memory.
    pub memory: Seq<u8>,
    /// The registers V0 to VF.
    pub registers: Seq<u8>,
    /// The return addresses on the stack, the oldest first.
    pub stack: Seq<u16>,
    /// The index register I.
    pub index: u16,
    /// The program counter.
    pub pc: u16,
    /// The delay timer.
    pub delay_timer: u8,
    /// The sound timer.
    pub sound_timer: u8,
    /// The 2048 cells of the display, row by row.
    pub display: Seq<bool>,
    /// Whether the machine runs, waits or is halted.
    pub status: Status,
    /// How many words that are no instruction were passed over.
    pub unrecognized: u64,
    /// The configuration that the machine was made with.
    pub config: Config,
}

impl State {
    /// The invariant of the machine.
    pub open spec fn wf(self) -> bool {
        &&& self.memory.len() == 4096
        &&& self.registers.len() == 16
        &&& self.stack.len() <= 32
        &&& self.display.len() == 2048
        &&& self.config.valid()
        &&& (self.status matches Status::WaitingForKey { register } ==> register < 16)
    }
}

/// The memory of a machine that was just loaded: zeroes, the program at
/// 0x200 and the font table at `font_base`.
pub open spec fn initial_memory(rom: Seq<u8>, font_base: int) -> Seq<u8> {
    Seq::new(
        4096,
        |a: int|
            if font_base <= a < font_base + 80 {
                FONT@[a - font_base]
            } else if 0x200 <= a < 0x200 + rom.len() {
                rom[a - 0x200]
            } else {
                0u8
            },
    )
}

/// The machine that was just loaded with `rom`.
pub open spec fn initial_state(rom: Seq<u8>, config: Config) -> State {
    State {
        memory: initial_memory(rom, config.font_base as int),
        registers: Seq::new(16, |r: int| 0u8),
        stack: Seq::empty(),
        index: 0,
        pc: MEM_OFFSET,
        delay_timer: 0,
        sound_timer: 0,
        display: blank(),
        status: Status::Running,
        unrecognized: 0,
        config,
    }
}

/// The byte that stands for a flag in VF.
pub open spec fn flag_byte(flag: bool) -> u8 {
    if flag {
        1
    } else {
        0
    }
}

/// The state with the program counter on the next instruction.
pub open spec fn advance(s: State) -> State {
    State { pc: (s.pc + 2) as u16, ..s }
}

/// The state halted by `fault`, otherwise as it was.
pub open spec fn halt(s: State, fault: Fault) -> State {
    State { status: Status::Halted { fault }, ..s }
}

/// The next instruction is passed over if `skip` holds.
pub open spec fn skip_if(s: State, skip: bool) -> State {
    if skip {
        advance(advance(s))
    } else {
        advance(s)
    }
}

/// The program continues at `target`.
pub open spec fn jump(s: State, target: u16) -> State {
    State { pc: target, ..s }
}

/// Register `x` takes `value`.
pub open spec fn load(s: State, x: u8, value: u8) -> State {
    State { registers: s.registers.update(x as int, value), ..advance(s) }
}

/// Register `x` takes `value`, and after that VF takes the flag.
pub open spec fn load_with_flag(s: State, x: u8, value: u8, flag: bool) -> State {
    State {
        registers: s.registers.update(x as int, value).update(15, flag_byte(flag)),
        ..advance(s)
    }
}

/// A word that is no instruction is counted and passed over.
pub open spec fn pass_over(s: State) -> State {
    State {
        unrecognized: if s.unrecognized < u64::MAX {
            (s.unrecognized + 1) as u64
        } else {
            s.unrecognized
        },
        ..advance(s)
    }
}

/// `2NNN`: the address of the next instruction goes on the stack and the
/// program continues at `target`. With 32 addresses on the stack the machine
/// halts.
pub open spec fn op_call(s: State, target: u16) -> State {
    if s.stack.len() >= 32 {
        halt(s, Fault::StackOverflow)
    } else {
        State { stack: s.stack.push((s.pc + 2) as u16), pc: target, ..s }
    }
}

/// `00EE`: the program continues at the address taken off the stack. With
/// an empty stack the machine halts.
pub open spec fn op_return(s: State) -> State {
    if s.stack.len() == 0 {
        halt(s, Fault::StackUnderflow)
    } else {
        State { stack: s.stack.drop_last(), pc: s.stack.last(), ..s }
    }
}

/// The value that `8XYN` writes to VX, where `source` is the register that
/// the shifts read.
pub open spec fn alu_value(n: u8, vx: u8, vy: u8, source: u8) -> u8 {
    if n == 0x0 {
        vy
    } else if n == 0x1 {
        vx | vy
    } else if n == 0x2 {
        vx & vy
    } else if n == 0x3 {
        vx ^ vy
    } else if n == 0x4 {
        ((vx + vy) % 256) as u8
    } else if n == 0x5 {
        ((vx - vy) % 256) as u8
    } else if n == 0x6 {
        source / 2
    } else if n == 0x7 {
        ((vy - vx) % 256) as u8
    } else {
        ((source * 2) % 256) as u8
    }
}

/// The flag that `8XYN` writes to VF, if it writes one: the carry of the
/// sum, that the difference needed no borrow, the lowest bit of VX before a
/// shift to the right, the highest bit of the source of a shift to the
/// left.
pub open spec fn alu_flag(n: u8, vx: u8, vy: u8, source: u8) -> Option<bool> {
    if n == 0x4 {
        Some(vx + vy > 255)
    } else if n == 0x5 {
        Some(vx >= vy)
    } else if n == 0x6 {
        Some(vx % 2 == 1)
    } else if n == 0x7 {
        Some(vy >= vx)
    } else if n == 0xE {
        Some(source >= 128)
    } else {
        None
    }
}

/// `8XYN`: the operations on two registers.
pub open spec fn op_alu(s: State, d: Decoded) -> State {
    let vx = s.registers[d.x as int];
    let vy = s.registers[d.y as int];
    let source = if s.config.shift_in_place {
        vx
    } else {
        vy
    };
    match alu_flag(d.n, vx, vy, source) {
        Some(flag) => load_with_flag(s, d.x, alu_value(d.n, vx, vy, source), flag),
        None => load(s, d.x, alu_value(d.n, vx, vy, source)),
    }
}

/// The `n` bytes of memory from `index` on.
pub open spec fn sprite_rows(memory: Seq<u8>, index: int, n: int) -> Seq<u8> {
    Seq::new(n as nat, |k: int| memory[index + k])
}

/// `DXYN`: the sprite of N rows at I is drawn at (VX, VY) and VF tells
/// whether a set pixel was cleared. The machine halts where a row lies
/// behind the end of memory or a set pixel behind the end of the display.
pub open spec fn op_draw(s: State, d: Decoded) -> State {
    let vx = s.registers[d.x as int];
    let vy = s.registers[d.y as int];
    let rows = sprite_rows(s.memory, s.index as int, d.n as int);
    if d.n > 0 && s.index + d.n > 4096 {
        halt(s, Fault::MemoryOutOfBounds)
    } else if !sprite_fits(vx, vy, rows) {
        halt(s, Fault::DisplayOutOfBounds)
    } else {
        State {
            registers: s.registers.update(15, flag_byte(collides(s.display, vx, vy, rows))),
            display: drawn(s.display, vx, vy, rows),
            ..advance(s)
        }
    }
}

/// `FX1E`: VX is added to I, modulo 4096, and VF tells whether the sum
/// passed 0xFFF.
pub open spec fn op_add_index(s: State, x: u8) -> State {
    let sum = s.index + s.registers[x as int];
    State {
        index: if sum > 0xFFF {
            (sum % 4096) as u16
        } else {
            sum as u16
        },
        registers: s.registers.update(15, flag_byte(sum > 0xFFF)),
        ..advance(s)
    }
}

/// `FX33`: the three decimal digits of VX go to memory at I, I + 1, I + 2.
pub open spec fn op_decimal(s: State, x: u8) -> State {
    let vx = s.registers[x as int];
    let i = s.index as int;
    if i + 2 > 4095 {
        halt(s, Fault::MemoryOutOfBounds)
    } else {
        State {
            memory: s.memory.update(i, vx / 100 % 10).update(i + 1, vx / 10 % 10).update(
                i + 2,
                vx % 10,
            ),
            ..advance(s)
        }
    }
}

/// I after a block copy of V0 to VX.
pub open spec fn index_after_copy(s: State, x: u8) -> u16 {
    if s.config.advance_index {
        (s.index + x + 1) as u16
    } else {
        s.index
    }
}

/// `FX55`: V0 to VX go to memory from I on.
pub open spec fn op_store(s: State, x: u8) -> State {
    let i = s.index as int;
    if i + x > 4095 {
        halt(s, Fault::MemoryOutOfBounds)
    } else {
        State {
            memory: Seq::new(
                4096,
                |a: int|
                    if i <= a <= i + x {
                        s.registers[a - i]
                    } else {
                        s.memory[a]
                    },
            ),
            index: index_after_copy(s, x),
            ..advance(s)
        }
    }
}

/// `FX65`: V0 to VX are read from memory from I on.
pub open spec fn op_fill(s: State, x: u8) -> State {
    let i = s.index as int;
    if i + x > 4095 {
        halt(s, Fault::MemoryOutOfBounds)
    } else {
        State {
            registers: Seq::new(
                16,
                |r: int|
                    if r <= x {
                        s.memory[i + r]
                    } else {
                        s.registers[r]
                    },
            ),
            index: index_after_copy(s, x),
            ..advance(s)
        }
    }
}

/// `FXNN`: timers, the index register, the wait for a key and memory.
pub open spec fn op_misc(s: State, d: Decoded) -> State {
    let vx = s.registers[d.x as int];
    if d.nn == 0x07 {
        load(s, d.x, s.delay_timer)
    } else if d.nn == 0x0A {
        State { status: Status::WaitingForKey { register: d.x }, ..advance(s) }
    } else if d.nn == 0x15 {
        State { delay_timer: vx, ..advance(s) }
    } else if d.nn == 0x18 {
        State { sound_timer: vx, ..advance(s) }
    } else if d.nn == 0x1E {
        op_add_index(s, d.x)
    } else if d.nn == 0x29 {
        State { index: (s.config.font_base + (vx % 16) * 5) as u16, ..advance(s) }
    } else if d.nn == 0x33 {
        op_decimal(s, d.x)
    } else if d.nn == 0x55 {
        op_store(s, d.x)
    } else if d.nn == 0x65 {
        op_fill(s, d.x)
    } else {
        pass_over(s)
    }
}

/// Whether the decoded word is one of the 35 instructions.
pub open spec fn recognized(d: Decoded) -> bool {
    if d.opcode == 0x0 {
        d.nnn == 0x0E0 || d.nnn == 0x0EE
    } else if d.opcode == 0x5 || d.opcode == 0x9 {
        d.n == 0
    } else if d.opcode == 0x8 {
        d.n <= 7 || d.n == 0xE
    } else if d.opcode == 0xE {
        d.nn == 0x9E || d.nn == 0xA1
    } else if d.opcode == 0xF {
        d.nn == 0x07 || d.nn == 0x0A || d.nn == 0x15 || d.nn == 0x18 || d.nn == 0x1E || d.nn
            == 0x29 || d.nn == 0x33 || d.nn == 0x55 || d.nn == 0x65
    } else {
        true
    }
}

/// Whether the decoded word clears the display or draws on it.
pub open spec fn touches_display(d: Decoded) -> bool {
    (d.opcode == 0x0 && d.nnn == 0x0E0) || d.opcode == 0xD
}

/// What the decoded instruction `d` does to a running machine `s`, given
/// the keys that are held and the random byte that `CXNN` would use.
pub open spec fn execute_spec(s: State, d: Decoded, keys: Keypad, random: u8) -> State {
    let vx = s.registers[d.x as int];
    let vy = s.registers[d.y as int];
    if !recognized(d) {
        pass_over(s)
    } else if d.opcode == 0x0 {
        if d.nnn == 0x0E0 {
            State { display: blank(), ..advance(s) }
        } else {
            op_return(s)
        }
    } else if d.opcode == 0x1 {
        jump(s, d.nnn)
    } else if d.opcode == 0x2 {
        op_call(s, d.nnn)
    } else if d.opcode == 0x3 {
        skip_if(s, vx == d.nn)
    } else if d.opcode == 0x4 {
        skip_if(s, vx != d.nn)
    } else if d.opcode == 0x5 {
        skip_if(s, vx == vy)
    } else if d.opcode == 0x6 {
        load(s, d.x, d.nn)
    } else if d.opcode == 0x7 {
        load(s, d.x, ((vx + d.nn) % 256) as u8)
    } else if d.opcode == 0x8 {
        op_alu(s, d)
    } else if d.opcode == 0x9 {
        skip_if(s, vx != vy)
    } else if d.opcode == 0xA {
        State { index: d.nnn, ..advance(s) }
    } else if d.opcode == 0xB {
        jump(s, d.nnn)
    } else if d.opcode == 0xC {
        load(s, d.x, random & d.nn)
    } else if d.opcode == 0xD {
        op_draw(s, d)
    } else if d.opcode == 0xE {
        if d.nn == 0x9E {
            skip_if(s, keys.holds(key_for(vx)))
        } else {
            skip_if(s, !keys.holds(key_for(vx)))
        }
    } else {
        op_misc(s, d)
    }
}

/// Whether the two bytes of the next instruction lie within memory.
pub open spec fn fetchable(s: State) -> bool {
    s.pc + 1 <= 4095
}

/// The instruction word at the program counter.
pub open spec fn fetched_word(s: State) -> u16 {
    word_of(s.memory[s.pc as int], s.memory[s.pc + 1])
}

/// The decoded instruction at the program counter.
pub open spec fn fetched(s: State) -> Decoded {
    decode_spec(fetched_word(s))
}

/// Whether the step that `s` is about to take uses a random byte.
pub open spec fn uses_random(s: State) -> bool {
    s.status is Running && fetchable(s) && fetched(s).opcode == 0xC
}

/// One cycle of the machine. A machine that waits or is halted stays as it
/// is; a running one halts if it cannot fetch, and otherwise executes the
/// instruction at the program counter.
pub open spec fn step_spec(s: State, keys: Keypad, random: u8) -> State {
    if !(s.status is Running) {
        s
    } else if !fetchable(s) {
        halt(s, Fault::MemoryOutOfBounds)
    } else {
        execute_spec(s, fetched(s), keys, random)
    }
}

/// What the host is told of that cycle.
pub open spec fn outcome_spec(s: State, keys: Keypad, random: u8) -> Outcome {
    match step_spec(s, keys, random).status {
        Status::Halted { fault } => Outcome::Halted { fault },
        Status::WaitingForKey { .. } => Outcome::WaitingForKey,
        Status::Running => if !recognized(fetched(s)) {
            Outcome::Unrecognized { word: fetched_word(s) }
        } else if touches_display(fetched(s)) {
            Outcome::Redraw
        } else {
            Outcome::Executed
        },
    }
}

/// A key went down: a machine that waits for one stores the key's number in
/// the register that `FX0A` named and runs again. Any other machine, and any
/// key that is no keypad key, changes nothing.
pub open spec fn key_down_spec(s: State, key: Key) -> State {
    match (s.status, key.nibble_spec()) {
        (Status::WaitingForKey { register }, Some(n)) => State {
            registers: s.registers.update(register as int, n),
            status: Status::Running,
            ..s
        },
        _ => s,
    }
}

} // verus!
