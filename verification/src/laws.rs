//! What holds of the instruction set, whatever the state it is run in.

use crate::decoder::lemma_decode_ranges;
use crate::display::{collides, drawn, sprite_fits};
use crate::keypad::{Key, Keypad};
use crate::state::{
    advance, fetchable, fetched, fetched_word, halt, key_down_spec, op_call, op_return,
    pass_over, recognized, sprite_rows, step_spec, uses_random, Fault, State, Status,
};
use crate::timing::sample_spec;
use vstd::prelude::*;

verus! {

/// Whether the machine `s` is about to execute an instruction with the
/// given opcode nibble.
pub open spec fn about_to_execute(s: State, opcode: u8) -> bool {
    &&& s.wf()
    &&& s.status is Running
    &&& fetchable(s)
    &&& fetched(s).opcode == opcode
}

/// Whatever happens to a machine leaves it within its invariant: memory
/// of 4096 bytes, sixteen registers, at most 32 return addresses and a
/// display of 2048 cells.
pub proof fn lemma_invariant_is_kept(
    s: State,
    keys: Keypad,
    random: u8,
    key: Key,
    elapsed_micros: int,
)
    requires
        s.wf(),
    ensures
        step_spec(s, keys, random).wf(),
        key_down_spec(s, key).wf(),
        sample_spec(s, elapsed_micros).wf(),
{
    lemma_decode_ranges(fetched_word(s));
}

/// A fault halts the machine and touches nothing else: a step that ends
/// halted leaves memory, registers, stack, program counter, timers and
/// display as they were.
pub proof fn lemma_fault_touches_nothing(s: State, keys: Keypad, random: u8)
    requires
        s.wf(),
        step_spec(s, keys, random).status matches Status::Halted { fault },
    ensures
        step_spec(s, keys, random).status matches Status::Halted { fault } && step_spec(
            s,
            keys,
            random,
        ) == halt(s, fault),
{
}

/// A halted machine is halted for good: no step, no key and no sample of
/// the clock brings it back to running.
pub proof fn lemma_halt_is_final(
    s: State,
    keys: Keypad,
    random: u8,
    key: Key,
    elapsed_micros: int,
)
    requires
        s.status is Halted,
    ensures
        step_spec(s, keys, random) == s,
        key_down_spec(s, key) == s,
        sample_spec(s, elapsed_micros).status == s.status,
{
}

/// A word that is no instruction is counted and passed over, and leaves
/// memory, registers, stack, index register, timers and display as they
/// were.
pub proof fn lemma_unrecognized_is_harmless(s: State, keys: Keypad, random: u8)
    requires
        s.wf(),
        s.status is Running,
        fetchable(s),
        !recognized(fetched(s)),
    ensures
        step_spec(s, keys, random) == pass_over(s),
        pass_over(s) == (State {
            pc: (s.pc + 2) as u16,
            unrecognized: pass_over(s).unrecognized,
            ..s
        }),
        s.unrecognized < u64::MAX ==> pass_over(s).unrecognized == s.unrecognized + 1,
{
}

/// The random byte matters to `CXNN` alone: any other step is the same
/// whatever the byte.
pub proof fn lemma_random_matters_to_cxnn_alone(s: State, keys: Keypad, one: u8, other: u8)
    requires
        !uses_random(s),
    ensures
        step_spec(s, keys, one) == step_spec(s, keys, other),
{
}

/// `8XY4`, for all VX and VY: VF becomes 1 if VX + VY passes 255 and 0 if
/// not, and VX becomes the sum modulo 256. Where X is F, the register is VF
/// itself and holds the flag. The other registers stay, and the program
/// counter moves to the next instruction.
pub proof fn lemma_add_sets_carry(s: State, keys: Keypad, random: u8)
    requires
        about_to_execute(s, 0x8),
        fetched(s).n == 0x4,
    ensures
        ({
            let d = fetched(s);
            let vx = s.registers[d.x as int];
            let vy = s.registers[d.y as int];
            let after = step_spec(s, keys, random);
            &&& after.registers[15] == (if vx + vy > 255 {
                1u8
            } else {
                0u8
            })
            &&& d.x != 15 ==> after.registers[d.x as int] == (vx + vy) % 256
            &&& forall|r: int| 0 <= r < 15 && r != d.x ==> after.registers[r] == s.registers[r]
            &&& after == State { registers: after.registers, pc: (s.pc + 2) as u16, ..s }
        }),
{
}

/// `8XY5`, for all VX and VY: VF becomes 1 if VX is at least VY and 0 if
/// not, and VX becomes the difference modulo 256. Where X is F, the register
/// is VF itself and holds the flag. The other registers stay, and the program
/// counter moves to the next instruction.
pub proof fn lemma_subtract_sets_no_borrow(s: State, keys: Keypad, random: u8)
    requires
        about_to_execute(s, 0x8),
        fetched(s).n == 0x5,
    ensures
        ({
            let d = fetched(s);
            let vx = s.registers[d.x as int];
            let vy = s.registers[d.y as int];
            let after = step_spec(s, keys, random);
            &&& after.registers[15] == (if vx >= vy {
                1u8
            } else {
                0u8
            })
            &&& d.x != 15 ==> after.registers[d.x as int] == (vx - vy) % 256
            &&& forall|r: int| 0 <= r < 15 && r != d.x ==> after.registers[r] == s.registers[r]
            &&& after == State { registers: after.registers, pc: (s.pc + 2) as u16, ..s }
        }),
{
}

/// `DXYN`, for a sprite that lies within memory and whose set pixels lie
/// within the display: VF becomes 1 if a pixel that was set is cleared at
/// the place where the sprite is drawn, and 0 if none is; the display is the
/// old one with the sprite drawn on it.
pub proof fn lemma_draw_flags_collision(s: State, keys: Keypad, random: u8)
    requires
        about_to_execute(s, 0xD),
        fetched(s).n > 0 ==> s.index + fetched(s).n <= 4096,
        sprite_fits(
            s.registers[fetched(s).x as int],
            s.registers[fetched(s).y as int],
            sprite_rows(s.memory, s.index as int, fetched(s).n as int),
        ),
    ensures
        ({
            let d = fetched(s);
            let vx = s.registers[d.x as int];
            let vy = s.registers[d.y as int];
            let rows = sprite_rows(s.memory, s.index as int, d.n as int);
            let after = step_spec(s, keys, random);
            &&& after.registers[15] == 1 <==> collides(s.display, vx, vy, rows)
            &&& after.registers[15] == 0 <==> !collides(s.display, vx, vy, rows)
            &&& after.display == drawn(s.display, vx, vy, rows)
            &&& forall|r: int| 0 <= r < 15 ==> after.registers[r] == s.registers[r]
        }),
{
}

/// A step on `2NNN` is a call, and a step on `00EE` is a return.
pub proof fn lemma_step_calls_and_returns(s: State, keys: Keypad, random: u8)
    requires
        s.wf(),
        s.status is Running,
        fetchable(s),
    ensures
        fetched(s).opcode == 0x2 ==> step_spec(s, keys, random) == op_call(s, fetched(s).nnn),
        fetched(s).opcode == 0x0 && fetched(s).nnn == 0x0EE ==> step_spec(s, keys, random)
            == op_return(s),
{
}

/// The machine after one call to each of `targets` in turn.
pub open spec fn calls(s: State, targets: Seq<u16>) -> State
    decreases targets.len(),
{
    if targets.len() == 0 {
        s
    } else {
        calls(op_call(s, targets[0]), targets.drop_first())
    }
}

/// The machine after `n` returns.
pub open spec fn returned(s: State, n: nat) -> State
    decreases n,
{
    if n == 0 {
        s
    } else {
        returned(op_return(s), (n - 1) as nat)
    }
}

proof fn lemma_returned_last(s: State, n: nat)
    ensures
        returned(s, n + 1) == op_return(returned(s, n)),
    decreases n,
{
    assert(returned(s, n + 1) == returned(op_return(s), n));
    if n > 0 {
        lemma_returned_last(op_return(s), (n - 1) as nat);
        assert(returned(s, n) == returned(op_return(s), (n - 1) as nat));
    } else {
        assert(returned(op_return(s), 0) == op_return(s));
    }
}

/// Calls that the stack has room for, followed by as many returns, bring
/// the machine to the instruction behind the first call, with the stack and
/// everything else as it was before them.
pub proof fn lemma_call_return_round_trip(s: State, targets: Seq<u16>)
    requires
        s.wf(),
        targets.len() > 0,
        s.stack.len() + targets.len() <= 32,
    ensures
        returned(calls(s, targets), targets.len()) == advance(s),
    decreases targets.len(),
{
    let called = op_call(s, targets[0]);
    let rest = targets.drop_first();
    assert(called.stack.drop_last() =~= s.stack);
    if rest.len() == 0 {
        assert(calls(called, rest) == called);
        assert(returned(called, 1) == returned(op_return(called), 0));
        assert(op_return(called) == advance(s));
    } else {
        lemma_call_return_round_trip(called, rest);
        lemma_returned_last(calls(called, rest), rest.len());
        assert(advance(called).stack.drop_last() =~= s.stack);
        assert(op_return(advance(called)) == advance(s));
    }
}

/// A call with 32 return addresses on the stack halts the machine with a
/// stack overflow and changes nothing else; a return with none halts it
/// with a stack underflow.
pub proof fn lemma_stack_faults(s: State, target: u16)
    ensures
        s.stack.len() >= 32 ==> op_call(s, target) == (State {
            status: Status::Halted { fault: Fault::StackOverflow },
            ..s
        }),
        s.stack.len() == 0 ==> op_return(s) == (State {
            status: Status::Halted { fault: Fault::StackUnderflow },
            ..s
        }),
{
}

} // verus!
