//! The machine's state as a mathematical value, and what a mutation does to it.

use crate::common::Byte;
use crate::instruction::CPUMutation;
use crate::memory::stored;
use crate::register::Register;
use vstd::prelude::*;

verus! {

/// The values of the six registers.
pub struct Registers {
    pub a: Byte,
    pub b: Byte,
    pub c: Byte,
    pub d: Byte,
    pub ip: Byte,
    pub sp: Byte,
}

impl Registers {
    /// The registers of a machine that has not run yet: all zero, but for the
    /// stack pointer at `0xd0`.
    pub open spec fn initial() -> Registers {
        Registers { a: 0, b: 0, c: 0, d: 0, ip: 0, sp: 0xd0 }
    }

    /// The value of register `r`.
    pub open spec fn get(self, r: Register) -> Byte {
        match r {
            Register::A => self.a,
            Register::B => self.b,
            Register::C => self.c,
            Register::D => self.d,
            Register::IP => self.ip,
            Register::SP => self.sp,
        }
    }

    /// The registers with `value` in register `r` and all others as they were.
    pub open spec fn set(self, r: Register, value: Byte) -> Registers {
        match r {
            Register::A => Registers { a: value, ..self },
            Register::B => Registers { b: value, ..self },
            Register::C => Registers { c: value, ..self },
            Register::D => Registers { d: value, ..self },
            Register::IP => Registers { ip: value, ..self },
            Register::SP => Registers { sp: value, ..self },
        }
    }

    /// A register holds what was last written to it, and a write to one
    /// register leaves the others alone.
    pub proof fn lemma_get_set(self, r: Register, value: Byte, other: Register)
        ensures
            self.set(r, value).get(r) == value,
            other != r ==> self.set(r, value).get(other) == self.get(other),
            self.set(r, self.get(r)) == self,
    {
    }
}

/// Everything a step can read or change: the registers, the halted flag and
/// the 256 stored cells.
#[verifier::ext_equal]
pub struct MachineState {
    pub registers: Registers,
    pub halted: bool,
    pub cells: Seq<Byte>,
}

impl MachineState {
    /// A machine that has not run yet: initial registers, not halted, all
    /// cells zero.
    pub open spec fn initial() -> MachineState {
        MachineState {
            registers: Registers::initial(),
            halted: false,
            cells: Seq::new(256, |adr: int| 0u8),
        }
    }

    /// The state with the instruction pointer at `ip`.
    pub open spec fn at(self, ip: Byte) -> MachineState {
        MachineState { registers: self.registers.set(Register::IP, ip), ..self }
    }
}

/// The state after `mutation` is applied to `pre`. A memory write goes
/// through the output hook, and `answer` is what the hook answered to it; a
/// register write and a halt ask no hook.
pub open spec fn apply(pre: MachineState, mutation: CPUMutation, answer: Option<()>) -> MachineState {
    match mutation {
        CPUMutation::WriteRegister(r, value) => MachineState {
            registers: pre.registers.set(r, value),
            ..pre
        },
        CPUMutation::WriteMemory { adr, value } => MachineState {
            cells: stored(pre.cells, adr, value, answer),
            ..pre
        },
        CPUMutation::Halt => MachineState { halted: true, ..pre },
    }
}

/// The state after `mutations` are applied to `pre` one after the other, in
/// list order, where `answers[i]` is the output hook's answer to the `i`-th.
pub open spec fn apply_all(
    pre: MachineState,
    mutations: Seq<CPUMutation>,
    answers: Seq<Option<()>>,
) -> MachineState
    decreases mutations.len(),
{
    if mutations.len() == 0 {
        pre
    } else {
        apply(
            apply_all(pre, mutations.drop_last(), answers.drop_last()),
            mutations.last(),
            answers.last(),
        )
    }
}

/// `answer` is an answer that the output hook may give when `mutation` is
/// applied: for a memory write, one of its answers to `(adr, value)`; for the
/// others the hook is not asked, which `None` stands for.
pub open spec fn may_answer<O: Fn(Byte, Byte) -> Option<()>>(
    output: O,
    mutation: CPUMutation,
    answer: Option<()>,
) -> bool {
    match mutation {
        CPUMutation::WriteMemory { adr, value } => call_ensures(output, (adr, value), answer),
        _ => answer is None,
    }
}

/// `answers` are answers that the output hook may give when `mutations` are
/// applied in order, one for each.
pub open spec fn may_answer_all<O: Fn(Byte, Byte) -> Option<()>>(
    output: O,
    mutations: Seq<CPUMutation>,
    answers: Seq<Option<()>>,
) -> bool {
    &&& answers.len() == mutations.len()
    &&& forall|i: int|
        0 <= i < mutations.len() ==> may_answer(output, #[trigger] mutations[i], answers[i])
}

/// A list of one mutation applies as that mutation does.
pub proof fn lemma_apply_single(pre: MachineState, mutation: CPUMutation, answer: Option<()>)
    ensures
        apply_all(pre, seq![mutation], seq![answer]) == apply(pre, mutation, answer),
{
    reveal_with_fuel(apply_all, 2);
}

/// Applying a list with one more mutation at its end is applying the list
/// and then that mutation.
pub proof fn lemma_apply_push(
    pre: MachineState,
    mutations: Seq<CPUMutation>,
    answers: Seq<Option<()>>,
    mutation: CPUMutation,
    answer: Option<()>,
)
    ensures
        apply_all(pre, mutations.push(mutation), answers.push(answer)) == apply(
            apply_all(pre, mutations, answers),
            mutation,
            answer,
        ),
{
    assert(mutations.push(mutation).drop_last() =~= mutations);
    assert(answers.push(answer).drop_last() =~= answers);
}

/// Only a halt mutation sets the halted flag, and no mutation clears it.
pub proof fn lemma_halted_only_by_halt(pre: MachineState, mutation: CPUMutation, answer: Option<()>)
    ensures
        apply(pre, mutation, answer).halted <==> pre.halted || mutation == CPUMutation::Halt,
{
}

/// A memory write changes no register and not the halted flag; it changes
/// the written cell alone, and only where the hook declined.
pub proof fn lemma_apply_write(pre: MachineState, adr: Byte, value: Byte, answer: Option<()>)
    requires
        pre.cells.len() == 256,
    ensures
        ({
            let post = apply(pre, CPUMutation::WriteMemory { adr, value }, answer);
            &&& post.registers == pre.registers
            &&& post.halted == pre.halted
            &&& post.cells.len() == 256
            &&& forall|other: int| 0 <= other < 256 && other != adr ==> post.cells[other] == pre.cells[other]
            &&& answer is None ==> post.cells[adr as int] == value
            &&& answer is Some ==> post.cells == pre.cells
        }),
{
}

} // verus!
