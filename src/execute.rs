//! The executor: what each instruction does to the machine, and the
//! fetch-decode-execute cycle.
//!
//! An instruction with an undefined opcode halts the machine and changes
//! nothing else. An execute (XCT) runs the instruction held at its operand
//! address in place, and only the XCT itself advances the program counter. A
//! chain of executes longer than the depth limit halts the machine the same
//! way, so that an XCT that names itself cannot run forever.
//!
//! SUB sets the overflow flag when the minuend and the negated subtrahend
//! have the same sign and the difference has the other; the flag stays set
//! until something clears it.

use vstd::prelude::*;

use crate::instruction::{
    decode_instruction, decode_spec, Instruction, OP_AND, OP_DAC, OP_IOR, OP_IOT,
    OP_LAC, OP_SUB, OP_XCT, OP_XOR,
};
use crate::machine::{MachineView, State};
use crate::word::{
    is_address, next_address, ones_complement_difference, ones_complement_sub,
    sub_overflows, ADDR_MASK, SIGN_BIT,
};

verus! {

/// How many executes may be chained before the machine halts.
pub const XCT_DEPTH_LIMIT: u32 = 64;

/// The opcodes that the machine defines.
pub open spec fn is_defined(op: u32) -> bool {
    op == OP_AND || op == OP_IOR || op == OP_XOR || op == OP_XCT || op == OP_LAC || op == OP_DAC
        || op == OP_SUB || op == OP_IOT
}

/// Y, the operand address: the address field, or with the indirect bit set the
/// low 12 bits of the word at the address field.
pub open spec fn effective_address(ins: Instruction, m: MachineView) -> u32 {
    if ins.indirect == 1 {
        m.read(ins.address) & 0xFFF
    } else {
        ins.address
    }
}

/// Y is always an address in memory.
pub proof fn lemma_effective_address_bound(ins: Instruction, m: MachineView)
    requires
        ins.wf(),
        m.wf(),
    ensures
        is_address(effective_address(ins, m)),
{
    let w = m.read(ins.address);
    assert(w & 0xFFF <= 0xFFF) by (bit_vector);
}

/// The instruction that `ins` comes to after following at most `depth`
/// executes, or `None` when the chain is longer.
pub open spec fn resolve_xct(ins: Instruction, m: MachineView, depth: nat) -> Option<Instruction>
    decreases depth,
{
    if ins.instruction != OP_XCT {
        Some(ins)
    } else if depth == 0 {
        None
    } else {
        resolve_xct(
            decode_spec(m.read(effective_address(ins, m))),
            m,
            (depth - 1) as nat,
        )
    }
}

/// What an instruction other than XCT does to memory and registers, leaving
/// the program counter alone.
pub open spec fn operate(t: Instruction, m: MachineView) -> MachineView {
    let y = effective_address(t, m);
    let cy = m.read(y);
    if t.instruction == OP_AND {
        MachineView { ac: m.ac & cy, ..m }
    } else if t.instruction == OP_IOR {
        MachineView { ac: m.ac | cy, ..m }
    } else if t.instruction == OP_XOR {
        MachineView { ac: m.ac ^ cy, ..m }
    } else if t.instruction == OP_LAC {
        MachineView { ac: cy, ..m }
    } else if t.instruction == OP_DAC {
        MachineView { cm: m.cm.update(y as int, m.ac), ..m }
    } else if t.instruction == OP_SUB {
        MachineView {
            ac: ones_complement_difference(m.ac, cy),
            ov: m.ov || sub_overflows(m.ac, cy),
            ..m
        }
    } else {
        m
    }
}

/// The state after executing `ins` in `m`, with executes chained at most
/// `depth_limit` deep.
pub open spec fn execute_spec(ins: Instruction, m: MachineView, depth_limit: nat) -> MachineView {
    match resolve_xct(ins, m, depth_limit) {
        Some(t) => if is_defined(t.instruction) {
            MachineView { pc: next_address(m.pc), ..operate(t, m) }
        } else {
            m.halted()
        },
        None => m.halted(),
    }
}

/// The operand address of `ins`.
fn operand_address(ins: &Instruction, state: &State) -> (r: u32)
    requires
        ins.wf(),
        state@.wf(),
    ensures
        r == effective_address(*ins, state@),
        is_address(r),
{
    if ins.indirect == 1 {
        let w = state.cm[ins.address as usize];
        let r = w & ADDR_MASK;
        assert(r <= 0xFFF) by (bit_vector)
            requires
                r == w & 0xFFF,
        ;
        r
    } else {
        ins.address
    }
}

/// Follows a chain of executes from `ins`, at most `depth` of them.
fn resolve(ins: Instruction, state: &State, depth: u32) -> (r: Option<Instruction>)
    requires
        ins.wf(),
        state@.wf(),
    ensures
        r == resolve_xct(ins, state@, depth as nat),
        r matches Some(t) ==> t.wf() && t.instruction != OP_XCT,
    decreases depth,
{
    if ins.instruction != OP_XCT {
        Some(ins)
    } else if depth == 0 {
        None
    } else {
        let y = operand_address(&ins, state);
        let word = state.cm[y as usize];
        let target = decode_instruction(word);
        resolve(target, state, depth - 1)
    }
}

/// Executes `ins`, chaining executes at most `depth_limit` deep.
pub fn execute_instruction_limited(ins: Instruction, state: &mut State, depth_limit: u32)
    requires
        ins.wf(),
        old(state)@.wf(),
    ensures
        final(state)@ == execute_spec(ins, old(state)@, depth_limit as nat),
        final(state)@.wf(),
{
    match resolve(ins, state, depth_limit) {
        None => {
            state.halt = true;
        },
        Some(t) => {
            let op = t.instruction;
            if op == OP_AND || op == OP_IOR || op == OP_XOR || op == OP_LAC || op == OP_DAC || op
                == OP_SUB || op == OP_IOT {
                let y = operand_address(&t, state);
                let cy = state.cm[y as usize];
                let ac = state.ac;
                if op == OP_AND {
                    state.ac = ac & cy;
                    assert(ac & cy <= 0x3FFFF) by (bit_vector)
                        requires
                            ac <= 0x3FFFF,
                            cy <= 0x3FFFF,
                    ;
                } else if op == OP_IOR {
                    state.ac = ac | cy;
                    assert(ac | cy <= 0x3FFFF) by (bit_vector)
                        requires
                            ac <= 0x3FFFF,
                            cy <= 0x3FFFF,
                    ;
                } else if op == OP_XOR {
                    state.ac = ac ^ cy;
                    assert(ac ^ cy <= 0x3FFFF) by (bit_vector)
                        requires
                            ac <= 0x3FFFF,
                            cy <= 0x3FFFF,
                    ;
                } else if op == OP_LAC {
                    state.ac = cy;
                } else if op == OP_DAC {
                    state.cm[y as usize] = ac;
                } else if op == OP_SUB {
                    let d = ones_complement_sub(ac, cy);
                    let overflow = (ac >= SIGN_BIT) != (cy >= SIGN_BIT) && (d >= SIGN_BIT) != (ac
                        >= SIGN_BIT);
                    state.ac = d;
                    state.ov = state.ov || overflow;
                }
                state.pc = (state.pc + 1) % 4096;
            } else {
                state.halt = true;
            }
        },
    }
}

/// Executes `ins` against `state`.
pub fn execute_instruction(ins: Instruction, state: &mut State)
    requires
        ins.wf(),
        old(state)@.wf(),
    ensures
        final(state)@ == execute_spec(ins, old(state)@, XCT_DEPTH_LIMIT as nat),
        final(state)@.wf(),
{
    execute_instruction_limited(ins, state, XCT_DEPTH_LIMIT);
}

/// The state after one cycle: fetch the word at the program counter, decode
/// it, execute it.
pub open spec fn step_spec(m: MachineView) -> MachineView {
    execute_spec(decode_spec(m.read(m.pc)), m, XCT_DEPTH_LIMIT as nat)
}

/// The state after `fuel` cycles, or after the one that halts the machine if
/// that comes first.
pub open spec fn run_spec(m: MachineView, fuel: nat) -> MachineView
    decreases fuel,
{
    if fuel == 0 || m.halt {
        m
    } else {
        run_spec(step_spec(m), (fuel - 1) as nat)
    }
}

/// Runs one fetch-decode-execute cycle.
pub fn step(state: &mut State)
    requires
        old(state)@.wf(),
    ensures
        final(state)@ == step_spec(old(state)@),
        final(state)@.wf(),
{
    let word = state.cm[state.pc as usize];
    let ins = decode_instruction(word);
    execute_instruction(ins, state);
}

/// Cycles until the machine halts or `max_steps` cycles have run, and returns
/// the number of cycles run.
pub fn run(state: &mut State, max_steps: u64) -> (steps: u64)
    requires
        old(state)@.wf(),
    ensures
        final(state)@.wf(),
        steps <= max_steps,
        final(state)@ == run_spec(old(state)@, steps as nat),
        final(state)@ == run_spec(old(state)@, max_steps as nat),
        steps < max_steps ==> final(state)@.halt,
        steps > 0 ==> !run_spec(old(state)@, (steps - 1) as nat).halt,
{
    let mut steps: u64 = 0;
    while steps < max_steps && !state.halt
        invariant
            state@.wf(),
            steps <= max_steps,
            state@ == run_spec(old(state)@, steps as nat),
            run_spec(state@, (max_steps - steps) as nat) == run_spec(old(state)@, max_steps as nat),
            steps > 0 ==> !run_spec(old(state)@, (steps - 1) as nat).halt,
        decreases max_steps - steps,
    {
        proof {
            lemma_run_split(old(state)@, steps as nat);
        }
        step(state);
        steps = steps + 1;
    }
    steps
}

/// Running `n + 1` cycles from a state that is still going after `n` is one
/// more cycle after running `n`.
proof fn lemma_run_split(m: MachineView, n: nat)
    requires
        !run_spec(m, n).halt,
    ensures
        run_spec(m, n + 1) == step_spec(run_spec(m, n)),
    decreases n,
{
    if n > 0 {
        assert(run_spec(m, n) == run_spec(step_spec(m), (n - 1) as nat));
        lemma_run_split(step_spec(m), (n - 1) as nat);
    } else {
        assert(run_spec(step_spec(m), 0) == step_spec(m));
    }
}

} // verus!
