//! The machine state: core memory, registers and flags.

use vstd::prelude::*;

use crate::word::{is_address, is_word, MEMORY_WORDS};

verus! {

/// The registers, flags and core memory of the machine.
pub struct State {
    /// Core memory: 4096 words of 18 bits.
    pub cm: [u32; MEMORY_WORDS],
    /// Memory buffer register (18 bits).
    pub mb: u32,
    /// Accumulator (18 bits).
    pub ac: u32,
    /// In-out register (18 bits).
    pub io: u32,
    /// Program counter (12 bits).
    pub pc: u32,
    /// Memory address register (12 bits).
    pub ma: u32,
    /// Instruction register (5 bits).
    pub ir: u32,
    /// Overflow flag.
    pub ov: bool,
    /// Halt flag.
    pub halt: bool,
}

/// The state as a mathematical value, memory as a sequence of words.
pub struct MachineView {
    pub cm: Seq<u32>,
    pub mb: u32,
    pub ac: u32,
    pub io: u32,
    pub pc: u32,
    pub ma: u32,
    pub ir: u32,
    pub ov: bool,
    pub halt: bool,
}

impl MachineView {
    /// Memory has 4096 cells and every register and cell is within its width.
    pub open spec fn wf(self) -> bool {
        &&& self.cm.len() == 4096
        &&& forall|i: int| 0 <= i < 4096 ==> is_word(#[trigger] self.cm[i])
        &&& is_word(self.mb)
        &&& is_word(self.ac)
        &&& is_word(self.io)
        &&& is_address(self.pc)
        &&& is_address(self.ma)
        &&& self.ir <= 31
    }

    /// The contents of memory at address `a`.
    pub open spec fn read(self, a: u32) -> u32 {
        self.cm[a as int]
    }

    /// The same state with the halt flag set.
    pub open spec fn halted(self) -> MachineView {
        MachineView { halt: true, ..self }
    }
}

impl View for State {
    type V = MachineView;

    open spec fn view(&self) -> MachineView {
        MachineView {
            cm: self.cm@,
            mb: self.mb,
            ac: self.ac,
            io: self.io,
            pc: self.pc,
            ma: self.ma,
            ir: self.ir,
            ov: self.ov,
            halt: self.halt,
        }
    }
}

/// A memory image that fits in core, every word within 18 bits.
pub open spec fn is_image(words: Seq<u32>) -> bool {
    words.len() <= 4096 && forall|i: int| 0 <= i < words.len() ==> is_word(#[trigger] words[i])
}

impl State {
    /// A machine with memory and every register zero and both flags clear.
    pub fn new() -> (r: State)
        ensures
            r@.wf(),
            r@.cm == Seq::new(4096, |i: int| 0u32),
            r@.mb == 0 && r@.ac == 0 && r@.io == 0,
            r@.pc == 0 && r@.ma == 0 && r@.ir == 0,
            !r@.ov && !r@.halt,
    {
        let r = State {
            cm: [0u32; MEMORY_WORDS],
            mb: 0,
            ac: 0,
            io: 0,
            pc: 0,
            ma: 0,
            ir: 0,
            ov: false,
            halt: false,
        };
        assert(r@.cm =~= Seq::new(4096, |i: int| 0u32));
        r
    }

    /// Copies `program` into memory from address 0 on, leaving the rest of
    /// memory and the registers as they were.
    pub fn load_program(&mut self, program: &[u32])
        requires
            old(self)@.wf(),
            is_image(program@),
        ensures
            final(self)@.wf(),
            final(self)@ == (MachineView {
                cm: program@ + old(self)@.cm.subrange(program@.len() as int, 4096),
                ..old(self)@
            }),
    {
        let n = program.len();
        let mut i: usize = 0;
        assert(program@.subrange(0, 0) + old(self)@.cm.subrange(0, 4096) =~= old(self)@.cm);
        while i < n
            invariant
                n == program@.len(),
                i <= n,
                is_image(program@),
                self@.wf(),
                self@ == (MachineView {
                    cm: program@.subrange(0, i as int) + old(self)@.cm.subrange(i as int, 4096),
                    ..old(self)@
                }),
            decreases n - i,
        {
            self.cm[i] = program[i];
            assert(self@.cm =~= program@.subrange(0, i + 1) + old(self)@.cm.subrange(
                i + 1,
                4096,
            ));
            i = i + 1;
        }
        assert(program@.subrange(0, n as int) =~= program@);
    }
}

} // verus!
