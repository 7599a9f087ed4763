//! Properties of the executor, proved over its specification.

use vstd::prelude::*;

use crate::execute::{effective_address, execute_spec, is_defined, lemma_effective_address_bound};
use crate::instruction::{decode_spec, Instruction, OP_AND, OP_DAC, OP_IOR, OP_LAC, OP_XCT, OP_XOR};
use crate::machine::MachineView;
use crate::word::{is_address, next_address, DATA_MASK};

verus! {

/// The logical instructions change only the accumulator and the program
/// counter. AND and IOR of the accumulator with itself leave it as it was, XOR
/// of it with itself clears it; IOR and XOR with zero, and AND with all ones,
/// leave it as it was.
pub proof fn lemma_logic_identities(ins: Instruction, m: MachineView, depth_limit: nat)
    requires
        ins.wf(),
        m.wf(),
        ins.instruction == OP_AND || ins.instruction == OP_IOR || ins.instruction == OP_XOR,
    ensures
        ({
            let cy = m.read(effective_address(ins, m));
            let r = execute_spec(ins, m, depth_limit);
            &&& r == MachineView { ac: r.ac, pc: next_address(m.pc), ..m }
            &&& ins.instruction == OP_AND && cy == m.ac ==> r.ac == m.ac
            &&& ins.instruction == OP_IOR && cy == m.ac ==> r.ac == m.ac
            &&& ins.instruction == OP_XOR && cy == m.ac ==> r.ac == 0
            &&& ins.instruction == OP_IOR && cy == 0 ==> r.ac == m.ac
            &&& ins.instruction == OP_XOR && cy == 0 ==> r.ac == m.ac
            &&& ins.instruction == OP_AND && cy == DATA_MASK ==> r.ac == m.ac
        }),
{
    let a = m.ac;
    assert(a & a == a && a | a == a && a ^ a == 0 && a | 0 == a && a ^ 0 == a && a & 0x3FFFF
        == a) by (bit_vector)
        requires
            a <= 0x3FFFF,
    ;
}

/// Loading the accumulator from an operand and depositing it back at the same
/// operand leaves memory as it was.
pub proof fn lemma_load_then_deposit(
    address: u32,
    indirect: u32,
    m: MachineView,
    depth_limit: nat,
)
    requires
        m.wf(),
        is_address(address),
        indirect <= 1,
    ensures
        ({
            let lac = Instruction { instruction: OP_LAC, indirect, address };
            let dac = Instruction { instruction: OP_DAC, indirect, address };
            let loaded = execute_spec(lac, m, depth_limit);
            let stored = execute_spec(dac, loaded, depth_limit);
            &&& loaded.ac == m.read(effective_address(lac, m))
            &&& stored.cm == m.cm
        }),
{
    let lac = Instruction { instruction: OP_LAC, indirect, address };
    let y = effective_address(lac, m);
    lemma_effective_address_bound(lac, m);
    assert(m.cm.update(y as int, m.cm[y as int]) =~= m.cm);
}

/// An execute of the word at Y does what that word does when run in place of
/// the execute, with one execute fewer allowed in the chain. So the program
/// counter moves on by one, not two, and an execute of a load loads the
/// accumulator as the load itself would.
pub proof fn lemma_execute_in_place(xct: Instruction, m: MachineView, depth_limit: nat)
    requires
        xct.wf(),
        m.wf(),
        xct.instruction == OP_XCT,
        depth_limit >= 1,
    ensures
        ({
            let target = decode_spec(m.read(effective_address(xct, m)));
            let r = execute_spec(xct, m, depth_limit);
            &&& r == execute_spec(target, m, (depth_limit - 1) as nat)
            &&& target.instruction != OP_XCT ==> forall|d: nat|
                r == #[trigger] execute_spec(target, m, d)
            &&& target.instruction == OP_LAC ==> r.ac == m.read(effective_address(target, m))
                && r.pc == next_address(m.pc)
        }),
{
}

/// An instruction with an undefined opcode sets the halt flag and changes
/// nothing else: memory, registers and the program counter stay as they were.
pub proof fn lemma_undefined_opcode_halts(ins: Instruction, m: MachineView, depth_limit: nat)
    requires
        ins.wf(),
        m.wf(),
        !is_defined(ins.instruction),
    ensures
        execute_spec(ins, m, depth_limit) == m.halted(),
{
}

/// A chain of executes longer than the depth limit halts the machine and
/// changes nothing else.
pub proof fn lemma_runaway_execute_halts(xct: Instruction, m: MachineView)
    requires
        xct.wf(),
        m.wf(),
        xct.instruction == OP_XCT,
    ensures
        execute_spec(xct, m, 0) == m.halted(),
{
}

/// An indirect load with address field `a` loads the word at the address held
/// in the low 12 bits of the word at `a`.
pub proof fn lemma_indirect_load(address: u32, m: MachineView, depth_limit: nat)
    requires
        m.wf(),
        is_address(address),
    ensures
        execute_spec(Instruction { instruction: OP_LAC, indirect: 1, address }, m, depth_limit).ac
            == m.read(m.read(address) & 0xFFF),
{
}

} // verus!
