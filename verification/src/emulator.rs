//! The emulator: the machine's state in memory, its loading, and the
//! executor that performs one instruction at a time.

use crate::decoder::{decode, instruction_word, lemma_decode_ranges, Decoded};
use crate::display::Display;
use crate::keypad::{keyCode, Key, Keypad};
use crate::random::random_byte;
use crate::state;
use crate::state::{
    execute_spec, fetchable, initial_state, key_down_spec, outcome_spec, recognized, step_spec,
    uses_random, Config, Fault, Outcome, State, Status, FONT, MEM_OFFSET,
};
use crate::timing::{sample_spec, timers_due, TIMER_PERIOD_MICROS};
use vstd::prelude::*;
use vstd::slice::slice_subrange;

verus! {

/// What `8XYN` writes to VX and, where it writes one, the flag for VF.
fn alu_result(n: u8, vx: u8, vy: u8, source: u8) -> (result: (u8, Option<bool>))
    requires
        n <= 7 || n == 0xE,
    ensures
        result.0 == state::alu_value(n, vx, vy, source),
        result.1 == state::alu_flag(n, vx, vy, source),
{
    if n == 0x0 {
        (vy, None)
    } else if n == 0x1 {
        (vx | vy, None)
    } else if n == 0x2 {
        (vx & vy, None)
    } else if n == 0x3 {
        (vx ^ vy, None)
    } else if n == 0x4 {
        let result: u8 = vx.wrapping_add(vy);
        (result, Some(result < vx))
    } else if n == 0x5 {
        (vx.wrapping_sub(vy), Some(vx >= vy))
    } else if n == 0x6 {
        assert(source >> 1 == source / 2) by (bit_vector);
        assert((vx & 1 != 0) == (vx % 2 == 1)) by (bit_vector);
        (source >> 1, Some(vx & 1 != 0))
    } else if n == 0x7 {
        (vy.wrapping_sub(vx), Some(vy >= vx))
    } else {
        assert(source << 1 == (source * 2) % 256) by (bit_vector);
        assert((source & 0x80 != 0) == (source >= 128)) by (bit_vector);
        (source << 1, Some(source & 0x80 != 0))
    }
}

/// Tells whether the decoded word is one of the 35 instructions.
fn is_instruction(d: Decoded) -> (known: bool)
    ensures
        known == recognized(d),
{
    if d.opcode == 0x0 {
        d.nnn == 0x0E0 || d.nnn == 0x0EE
    } else if d.opcode == 0x5 || d.opcode == 0x9 {
        d.n == 0
    } else if d.opcode == 0x8 {
        d.n <= 7 || d.n == 0xE
    } else if d.opcode == 0xE {
        d.nn == 0x9E || d.nn == 0xA1
    } else if d.opcode == 0xF {
        d.nn == 0x07 || d.nn == 0x0A || d.nn == 0x15 || d.nn == 0x18 || d.nn == 0x1E || d.nn
            == 0x29 || d.nn == 0x33 || d.nn == 0x55 || d.nn == 0x65
    } else {
        true
    }
}

/// Why a machine could not be loaded.
#[derive(Clone, Copy, Debug, PartialEq, Eq, Structural)]
pub enum LoadError {
    /// The program is longer than the memory from 0x200 on.
    RomTooLarge,
    /// The font table would pass the end of memory.
    FontOutOfBounds,
}

/// A CHIP-8 machine.
pub struct Emulator {
    memory: [u8; 4096],
    stack: [u16; 32],
    stackFrame: i8,
    I: u16,
    registers: [u8; 16],
    pc: u16,
    delayTimer: u8,
    soundTimer: u8,
    display: Display,
    status: Status,
    unrecognized: u64,
    config: Config,
}

impl View for Emulator {
    type V = State;

    closed spec fn view(&self) -> State {
        State {
            memory: self.memory@,
            registers: self.registers@,
            stack: self.stack@.subrange(0, self.stackFrame + 1),
            index: self.I,
            pc: self.pc,
            delay_timer: self.delayTimer,
            sound_timer: self.soundTimer,
            display: self.display@,
            status: self.status,
            unrecognized: self.unrecognized,
            config: self.config,
        }
    }
}

impl Emulator {
    /// The stack pointer is -1 for an empty stack and else the place of the
    /// newest return address.
    #[verifier::type_invariant]
    spec fn inv(&self) -> bool {
        &&& -1 <= self.stackFrame <= 31
        &&& self.config.valid()
        &&& (self.status matches Status::WaitingForKey { register } ==> register < 16)
    }

    /// Loads `data` at 0x200 and the font table at the base that `config`
    /// names, into memory that is otherwise zero. The program may fill
    /// memory from 0x200 to its end and no more, and the font table must lie
    /// within memory.
    pub fn new(data: &[u8], config: Config) -> (loaded: Result<Emulator, LoadError>)
        ensures
            loaded is Ok <==> data@.len() <= 4096 - 0x200 && config.valid(),
            loaded matches Ok(emulator) ==> emulator@ == initial_state(data@, config)
                && emulator@.wf(),
            loaded matches Err(error) ==> error == (if data@.len() > 4096 - 0x200 {
                LoadError::RomTooLarge
            } else {
                LoadError::FontOutOfBounds
            }),
    {
        if data.len() > 4096 - MEM_OFFSET as usize {
            return Err(LoadError::RomTooLarge);
        }
        if config.font_base > 4096 - 80 {
            return Err(LoadError::FontOutOfBounds);
        }
        let mut memory_array: [u8; 4096] = [0; 4096];
        let mut i: usize = 0;
        while i < data.len()
            invariant
                i <= data@.len() <= 4096 - 0x200,
                forall|a: int|
                    0 <= a < 4096 ==> memory_array@[a] == (if 0x200 <= a < 0x200 + i {
                        data@[a - 0x200]
                    } else {
                        0u8
                    }),
            decreases data@.len() - i,
        {
            memory_array[MEM_OFFSET as usize + i] = data[i];
            i += 1;
        }
        let base: usize = config.font_base as usize;
        let mut j: usize = 0;
        while j < 80
            invariant
                j <= 80,
                base + 80 <= 4096,
                data@.len() <= 4096 - 0x200,
                forall|a: int|
                    0 <= a < 4096 ==> memory_array@[a] == (if base <= a < base + j {
                        FONT@[a - base]
                    } else if 0x200 <= a < 0x200 + data@.len() {
                        data@[a - 0x200]
                    } else {
                        0u8
                    }),
            decreases 80 - j,
        {
            memory_array[base + j] = FONT[j];
            j += 1;
        }
        let emul = Emulator {
            memory: memory_array,
            stack: [0; 32],
            stackFrame: -1,
            I: 0,
            registers: [0; 16],
            pc: MEM_OFFSET,
            delayTimer: 0x0,
            soundTimer: 0x0,
            display: Display::new(),
            status: Status::Running,
            unrecognized: 0,
            config,
        };
        assert(emul@ =~= initial_state(data@, config));
        Ok(emul)
    }

    /// Halts the machine.
    fn halt(&mut self, fault: Fault)
        ensures
            final(self)@ == state::halt(old(self)@, fault),
    {
        proof {
            use_type_invariant(&*self);
        }
        self.status = Status::Halted { fault };
    }

    /// Passes the next instruction over if `skip` holds.
    fn skip_if(&mut self, skip: bool)
        requires
            fetchable(old(self)@),
        ensures
            final(self)@ == state::skip_if(old(self)@, skip),
    {
        proof {
            use_type_invariant(&*self);
        }
        if skip {
            self.pc = self.pc + 4;
        } else {
            self.pc = self.pc + 2;
        }
    }

    /// Writes VX.
    fn load(&mut self, x: u8, value: u8)
        requires
            x < 16,
            fetchable(old(self)@),
        ensures
            final(self)@ == state::load(old(self)@, x, value),
    {
        proof {
            use_type_invariant(&*self);
        }
        self.registers[x as usize] = value;
        self.pc = self.pc + 2;
    }

    /// Writes VX, and then the flag to VF.
    fn load_with_flag(&mut self, x: u8, value: u8, flag: bool)
        requires
            x < 16,
            fetchable(old(self)@),
        ensures
            final(self)@ == state::load_with_flag(old(self)@, x, value, flag),
    {
        proof {
            use_type_invariant(&*self);
        }
        self.registers[x as usize] = value;
        self.registers[0xF] = if flag {
            0x1
        } else {
            0x0
        };
        self.pc = self.pc + 2;
    }

    /// Counts a word that is no instruction and passes it over.
    fn pass_over(&mut self)
        requires
            fetchable(old(self)@),
        ensures
            final(self)@ == state::pass_over(old(self)@),
    {
        proof {
            use_type_invariant(&*self);
        }
        if self.unrecognized < u64::MAX {
            self.unrecognized = self.unrecognized + 1;
        }
        self.pc = self.pc + 2;
    }

    /// `2NNN`.
    fn call(&mut self, target: u16)
        requires
            fetchable(old(self)@),
        ensures
            final(self)@ == state::op_call(old(self)@, target),
    {
        proof {
            use_type_invariant(&*self);
        }
        if self.stackFrame >= 31 {
            self.halt(Fault::StackOverflow);
            return ;
        }
        self.stackFrame = self.stackFrame + 1;
        self.stack[self.stackFrame as usize] = self.pc + 2;
        self.pc = target;
        assert(self@.stack =~= old(self)@.stack.push((old(self).pc + 2) as u16));
    }

    /// `00EE`.
    fn ret(&mut self)
        ensures
            final(self)@ == state::op_return(old(self)@),
    {
        proof {
            use_type_invariant(&*self);
        }
        if self.stackFrame < 0 {
            self.halt(Fault::StackUnderflow);
            return ;
        }
        self.pc = self.stack[self.stackFrame as usize];
        self.stackFrame = self.stackFrame - 1;
        assert(self@.stack =~= old(self)@.stack.drop_last());
    }

    /// `8XYN`.
    fn alu(&mut self, d: Decoded)
        requires
            d.x < 16,
            d.y < 16,
            d.n <= 7 || d.n == 0xE,
            fetchable(old(self)@),
        ensures
            final(self)@ == state::op_alu(old(self)@, d),
    {
        let vx: u8 = self.registers[d.x as usize];
        let vy: u8 = self.registers[d.y as usize];
        let source: u8 = if self.config.shift_in_place {
            vx
        } else {
            vy
        };
        let (value, flag) = alu_result(d.n, vx, vy, source);
        match flag {
            Some(flag) => self.load_with_flag(d.x, value, flag),
            None => self.load(d.x, value),
        }
    }

    /// `DXYN`.
    fn draw(&mut self, d: Decoded)
        requires
            d.x < 16,
            d.y < 16,
            d.n < 16,
            fetchable(old(self)@),
        ensures
            final(self)@ == state::op_draw(old(self)@, d),
    {
        proof {
            use_type_invariant(&*self);
        }
        let xCoord: u8 = self.registers[d.x as usize];
        let yCoord: u8 = self.registers[d.y as usize];
        let n: usize = d.n as usize;
        let first: usize = if n == 0 {
            0
        } else {
            self.I as usize
        };
        if first + n > 4096 {
            self.halt(Fault::MemoryOutOfBounds);
            return ;
        }
        let rows: &[u8] = slice_subrange(self.memory.as_slice(), first, first + n);
        assert(rows@ =~= state::sprite_rows(self@.memory, self@.index as int, d.n as int));
        let mut display: Display = self.display;
        match display.draw_sprite(xCoord, yCoord, rows) {
            None => {
                self.halt(Fault::DisplayOutOfBounds);
            },
            Some(collision) => {
                self.display = display;
                self.registers[0xF] = if collision {
                    0x1
                } else {
                    0x0
                };
                self.pc = self.pc + 2;
            },
        }
    }

    /// `FX1E`.
    fn add_index(&mut self, x: u8)
        requires
            x < 16,
            fetchable(old(self)@),
        ensures
            final(self)@ == state::op_add_index(old(self)@, x),
    {
        proof {
            use_type_invariant(&*self);
        }
        let i: u32 = self.I as u32 + self.registers[x as usize] as u32;
        if i > 0xFFF {
            self.registers[0xF] = 0x1;
            self.I = (i % 0x1000) as u16;
        } else {
            self.registers[0xF] = 0x0;
            self.I = i as u16;
        }
        self.pc = self.pc + 2;
    }

    /// `FX33`.
    fn decimal(&mut self, x: u8)
        requires
            x < 16,
            fetchable(old(self)@),
        ensures
            final(self)@ == state::op_decimal(old(self)@, x),
    {
        proof {
            use_type_invariant(&*self);
        }
        let vx: u8 = self.registers[x as usize];
        let i: usize = self.I as usize;
        if i + 2 > 4095 {
            self.halt(Fault::MemoryOutOfBounds);
            return ;
        }
        self.memory[i] = (vx / 100) % 10;
        self.memory[i + 1] = (vx / 10) % 10;
        self.memory[i + 2] = vx % 10;
        self.pc = self.pc + 2;
    }

    /// Advances I behind the block that was copied, where the configuration
    /// asks for it.
    fn finish_copy(&mut self, x: u8)
        requires
            x < 16,
            old(self)@.index + x <= 4095,
            fetchable(old(self)@),
        ensures
            final(self)@ == (State {
                index: state::index_after_copy(old(self)@, x),
                ..state::advance(old(self)@)
            }),
    {
        proof {
            use_type_invariant(&*self);
        }
        if self.config.advance_index {
            self.I = self.I + (x as u16 + 1);
        }
        self.pc = self.pc + 2;
    }

    /// `FX55`.
    fn store(&mut self, x: u8)
        requires
            x < 16,
            fetchable(old(self)@),
        ensures
            final(self)@ == state::op_store(old(self)@, x),
    {
        proof {
            use_type_invariant(&*self);
        }
        let first: usize = self.I as usize;
        let to: usize = x as usize + 1;
        if first + to > 4096 {
            self.halt(Fault::MemoryOutOfBounds);
            return ;
        }
        let mut i: usize = 0;
        while i < to
            invariant
                i <= to <= 16,
                first + to <= 4096,
                self.inv(),
                self@ == (State {
                    memory: Seq::new(
                        4096,
                        |a: int|
                            if first <= a < first + i {
                                old(self)@.registers[a - first]
                            } else {
                                old(self)@.memory[a]
                            },
                    ),
                    ..old(self)@
                }),
            decreases to - i,
        {
            self.memory[first + i] = self.registers[i];
            i += 1;
        }
        self.finish_copy(x);
    }

    /// `FX65`.
    fn fill(&mut self, x: u8)
        requires
            x < 16,
            fetchable(old(self)@),
        ensures
            final(self)@ == state::op_fill(old(self)@, x),
    {
        proof {
            use_type_invariant(&*self);
        }
        let first: usize = self.I as usize;
        let to: usize = x as usize + 1;
        if first + to > 4096 {
            self.halt(Fault::MemoryOutOfBounds);
            return ;
        }
        let mut i: usize = 0;
        while i < to
            invariant
                i <= to <= 16,
                first + to <= 4096,
                self.inv(),
                self@ == (State {
                    registers: Seq::new(
                        16,
                        |r: int|
                            if r < i {
                                old(self)@.memory[first + r]
                            } else {
                                old(self)@.registers[r]
                            },
                    ),
                    ..old(self)@
                }),
            decreases to - i,
        {
            self.registers[i] = self.memory[first + i];
            i += 1;
        }
        self.finish_copy(x);
    }

    /// `FXNN`.
    fn misc(&mut self, d: Decoded)
        requires
            d.x < 16,
            recognized(d),
            d.opcode == 0xF,
            fetchable(old(self)@),
        ensures
            final(self)@ == state::op_misc(old(self)@, d),
    {
        proof {
            use_type_invariant(&*self);
        }
        let vx: u8 = self.registers[d.x as usize];
        if d.nn == 0x07 {
            self.load(d.x, self.delayTimer);
        } else if d.nn == 0x0A {
            self.status = Status::WaitingForKey { register: d.x };
            self.pc = self.pc + 2;
        } else if d.nn == 0x15 {
            self.delayTimer = vx;
            self.pc = self.pc + 2;
        } else if d.nn == 0x18 {
            self.soundTimer = vx;
            self.pc = self.pc + 2;
        } else if d.nn == 0x1E {
            self.add_index(d.x);
        } else if d.nn == 0x29 {
            let b: u8 = vx & 0x0F;
            assert(vx & 0x0F == vx % 16) by (bit_vector);
            self.I = self.config.font_base + (b * 5) as u16;
            self.pc = self.pc + 2;
        } else if d.nn == 0x33 {
            self.decimal(d.x);
        } else if d.nn == 0x55 {
            self.store(d.x);
        } else {
            self.fill(d.x);
        }
    }

    /// Executes the decoded instruction that was fetched at the program
    /// counter.
    fn execute(&mut self, d: Decoded, keys: &Keypad, random: u8)
        requires
            d.opcode < 16,
            d.x < 16,
            d.y < 16,
            d.n < 16,
            fetchable(old(self)@),
        ensures
            final(self)@ == execute_spec(old(self)@, d, *keys, random),
    {
        proof {
            use_type_invariant(&*self);
        }
        if !is_instruction(d) {
            self.pass_over();
            return ;
        }
        let vx: u8 = self.registers[d.x as usize];
        let vy: u8 = self.registers[d.y as usize];
        if d.opcode == 0x0 {
            if d.nnn == 0x0E0 {
                self.display = Display::new();
                self.pc = self.pc + 2;
            } else {
                self.ret();
            }
        } else if d.opcode == 0x1 {
            self.pc = d.nnn;
        } else if d.opcode == 0x2 {
            self.call(d.nnn);
        } else if d.opcode == 0x3 {
            self.skip_if(vx == d.nn);
        } else if d.opcode == 0x4 {
            self.skip_if(vx != d.nn);
        } else if d.opcode == 0x5 {
            self.skip_if(vx == vy);
        } else if d.opcode == 0x6 {
            self.load(d.x, d.nn);
        } else if d.opcode == 0x7 {
            self.load(d.x, vx.wrapping_add(d.nn));
        } else if d.opcode == 0x8 {
            self.alu(d);
        } else if d.opcode == 0x9 {
            self.skip_if(vx != vy);
        } else if d.opcode == 0xA {
            self.I = d.nnn;
            self.pc = self.pc + 2;
        } else if d.opcode == 0xB {
            self.pc = d.nnn;
        } else if d.opcode == 0xC {
            self.load(d.x, random & d.nn);
        } else if d.opcode == 0xD {
            self.draw(d);
        } else if d.opcode == 0xE {
            let keyPressed: bool = keys.is_held(keyCode(vx));
            if d.nn == 0x9E {
                self.skip_if(keyPressed);
            } else {
                self.skip_if(!keyPressed);
            }
        } else {
            self.misc(d);
        }
    }

    /// Whether the step that the machine is about to take uses a random
    /// byte.
    fn wants_random(&self) -> (wanted: bool)
        ensures
            wanted == uses_random(self@),
    {
        if self.pc > 4094 {
            return false;
        }
        let word: u16 = instruction_word(
            self.memory[self.pc as usize],
            self.memory[self.pc as usize + 1],
        );
        match self.status {
            Status::Running => decode(word).opcode == 0xC,
            _ => false,
        }
    }

    /// Performs exactly one cycle, with `random` as the byte that `CXNN`
    /// uses. A running machine fetches the instruction at the program
    /// counter, moves the program counter behind it and executes it; a
    /// machine that waits for a key or is halted stays as it is. A fault
    /// halts the machine and leaves the rest of its state untouched.
    pub fn step(&mut self, keys: &Keypad, random: u8) -> (outcome: Outcome)
        ensures
            final(self)@ == step_spec(old(self)@, *keys, random),
            outcome == outcome_spec(old(self)@, *keys, random),
            final(self)@.wf(),
    {
        proof {
            use_type_invariant(&*self);
            self.display.lemma_cells();
        }
        match self.status {
            Status::Halted { fault } => {
                return Outcome::Halted { fault };
            },
            Status::WaitingForKey { .. } => {
                return Outcome::WaitingForKey;
            },
            Status::Running => {},
        }
        if self.pc > 4094 {
            self.halt(Fault::MemoryOutOfBounds);
            return Outcome::Halted { fault: Fault::MemoryOutOfBounds };
        }
        let b: u16 = instruction_word(
            self.memory[self.pc as usize],
            self.memory[self.pc as usize + 1],
        );
        let d: Decoded = decode(b);
        proof {
            lemma_decode_ranges(b);
        }
        self.execute(d, keys, random);
        proof {
            use_type_invariant(&*self);
            self.display.lemma_cells();
        }
        match self.status {
            Status::Halted { fault } => Outcome::Halted { fault },
            Status::WaitingForKey { .. } => Outcome::WaitingForKey,
            Status::Running => {
                if !is_instruction(d) {
                    Outcome::Unrecognized { word: b }
                } else if d.opcode == 0xD || (d.opcode == 0x0 && d.nnn == 0x0E0) {
                    Outcome::Redraw
                } else {
                    Outcome::Executed
                }
            },
        }
    }

    /// Runs a single instruction: one cycle as [`Emulator::step`] performs
    /// it, with a byte from the random number generator where the
    /// instruction is `CXNN`.
    pub fn run(&mut self, keys: &Keypad) -> (outcome: Outcome)
        ensures
            exists|random: u8|
                final(self)@ == #[trigger] step_spec(old(self)@, *keys, random) && outcome
                    == outcome_spec(old(self)@, *keys, random),
            !uses_random(old(self)@) ==> final(self)@ == step_spec(old(self)@, *keys, 0)
                && outcome == outcome_spec(old(self)@, *keys, 0),
            final(self)@.wf(),
    {
        let random: u8 = if self.wants_random() {
            random_byte()
        } else {
            0
        };
        self.step(keys, random)
    }

    /// Tells a machine that a key went down. A machine that `FX0A` parked
    /// stores the number of the key in the register that the instruction
    /// named and runs again; the result says whether it did. Otherwise
    /// nothing changes.
    pub fn key_down(&mut self, key: Key) -> (resumed: bool)
        ensures
            final(self)@ == key_down_spec(old(self)@, key),
            resumed == (old(self)@.status is WaitingForKey && key.nibble_spec() is Some),
            final(self)@.wf(),
    {
        proof {
            use_type_invariant(&*self);
            self.display.lemma_cells();
        }
        match (self.status, key.nibble()) {
            (Status::WaitingForKey { register }, Some(n)) => {
                self.registers[register as usize] = n;
                self.status = Status::Running;
                true
            },
            _ => false,
        }
    }

    /// Takes one sample of the clock: `elapsed_micros` is the time since the
    /// timers last counted down. If a sixtieth of a second has passed, each
    /// timer that is not zero counts down by one, and the result tells the
    /// host to measure from now on.
    pub fn update_timers(&mut self, elapsed_micros: u128) -> (counted: bool)
        ensures
            counted == timers_due(elapsed_micros as int),
            final(self)@ == sample_spec(old(self)@, elapsed_micros as int),
            final(self)@.wf(),
    {
        proof {
            use_type_invariant(&*self);
            self.display.lemma_cells();
        }
        if elapsed_micros >= TIMER_PERIOD_MICROS {
            if self.delayTimer > 0 {
                self.delayTimer -= 1;
            }
            if self.soundTimer > 0 {
                self.soundTimer -= 1;
            }
            true
        } else {
            false
        }
    }

    /// Whether the host should sound the beep: the sound timer is not zero.
    pub fn beep_requested(&self) -> (beep: bool)
        ensures
            beep == (self@.sound_timer > 0),
    {
        self.soundTimer > 0
    }

    /// The program counter.
    pub fn pc(&self) -> (pc: u16)
        ensures
            pc == self@.pc,
    {
        self.pc
    }

    /// The index register I.
    pub fn index(&self) -> (index: u16)
        ensures
            index == self@.index,
    {
        self.I
    }

    /// The register VX.
    pub fn register(&self, x: u8) -> (value: u8)
        requires
            x < 16,
        ensures
            value == self@.registers[x as int],
    {
        self.registers[x as usize]
    }

    /// The byte of memory at `address`.
    pub fn memory_at(&self, address: u16) -> (byte: u8)
        requires
            address < 4096,
        ensures
            byte == self@.memory[address as int],
    {
        self.memory[address as usize]
    }

    /// How many return addresses are on the stack.
    pub fn stack_depth(&self) -> (depth: usize)
        ensures
            depth == self@.stack.len(),
            depth <= 32,
    {
        proof {
            use_type_invariant(self);
        }
        (self.stackFrame + 1) as usize
    }

    /// The delay timer.
    pub fn delay_timer(&self) -> (timer: u8)
        ensures
            timer == self@.delay_timer,
    {
        self.delayTimer
    }

    /// The sound timer.
    pub fn sound_timer(&self) -> (timer: u8)
        ensures
            timer == self@.sound_timer,
    {
        self.soundTimer
    }

    /// Whether the machine runs, waits for a key or is halted.
    pub fn status(&self) -> (status: Status)
        ensures
            status == self@.status,
    {
        self.status
    }

    /// How many words that are no instruction the machine has passed over.
    pub fn unrecognized_count(&self) -> (count: u64)
        ensures
            count == self@.unrecognized,
    {
        self.unrecognized
    }

    /// The configuration that the machine was loaded with.
    pub fn config(&self) -> (config: Config)
        ensures
            config == self@.config,
            config.valid(),
    {
        proof {
            use_type_invariant(self);
        }
        self.config
    }

    /// The display, for whoever presents it.
    pub fn display(&self) -> (display: &Display)
        ensures
            display@ == self@.display,
    {
        &self.display
    }
}

/// Loads a program into a machine of the standard configuration.
pub fn initEmulator(data: Vec<u8>) -> (loaded: Result<Emulator, LoadError>)
    ensures
        loaded is Ok <==> data@.len() <= 4096 - 0x200,
        loaded matches Ok(emulator) ==> emulator@ == initial_state(data@, Config::standard())
            && emulator@.wf(),
        loaded matches Err(error) ==> error == LoadError::RomTooLarge,
{
    Emulator::new(data.as_slice(), Config::new())
}

} // verus!
