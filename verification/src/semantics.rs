//! What a step and a run of the machine are, as functions of the state and
//! of what the hooks answered.
//!
//! The hooks belong to the host, so a step is not a function of the state
//! alone. `StepIo` records what the hooks answered during one step;
//! `may_observe` says which records the hooks allow, and `step` says what the
//! machine does with one.

use crate::common::{advance, Byte};
use crate::instruction::{decode_operands, may_read_operands, Argument, CPUMutation, InstructionDef};
use crate::instruction_parser::opcode_table;
use crate::memory::may_read;
use crate::state::{apply_all, may_answer_all, MachineState};
use crate::CPUError;
use vstd::prelude::*;

verus! {

/// An instruction that was fetched and decoded, ready to be performed.
#[verifier::ext_equal]
pub struct Decoded {
    /// The instruction that the opcode selected.
    pub definition: InstructionDef,
    /// Its decoded operands.
    pub arguments: Seq<Argument>,
    /// The address just after the instruction.
    pub next: Byte,
}

/// What the hooks answered during one step.
#[verifier::ext_equal]
pub struct StepIo {
    /// The byte read at the instruction pointer.
    pub opcode: Byte,
    /// The operand bytes read after it, as far as decoding went.
    pub operands: Seq<Byte>,
    /// The output hook's answer to each mutation of the instruction.
    pub answers: Seq<Option<()>>,
}

/// How a step or a run ended, and the state it left.
#[verifier::ext_equal]
pub struct Outcome {
    pub result: Result<(), CPUError>,
    pub state: MachineState,
}

/// The instruction that `opcode` and `operands`, read at `ip` and after,
/// make up, or the fault that they are: an opcode outside the table, or an
/// operand that does not decode.
pub open spec fn decode(ip: Byte, opcode: Byte, operands: Seq<Byte>) -> Result<Decoded, CPUError> {
    match opcode_table(opcode) {
        None => Err(CPUError::InvalidOpcode { adr: ip, opcode }),
        Some(definition) => match decode_operands(definition.signature, operands) {
            None => Err(CPUError::InvalidArgument { instruction: definition.name, adr: ip }),
            Some(arguments) => Ok(
                Decoded {
                    definition,
                    arguments,
                    next: advance(ip, 1 + definition.signature.len() as int),
                },
            ),
        },
    }
}

/// The mutations that a decoded instruction asks for in state `pre`. They
/// are computed from the registers of `pre`, the instruction pointer still at
/// the instruction itself.
pub open spec fn effects_of(pre: MachineState, decoded: Decoded) -> Seq<CPUMutation> {
    decoded.definition.action.effects(pre.registers, decoded.arguments)
}

/// Fetching at `ip` may read `opcode` and then `operands`: each is a value
/// that a read at its address may return, and the operands are read only for
/// an opcode of the table, up to the first that does not decode.
pub open spec fn may_fetch<I: Fn(Byte) -> Option<Byte>>(
    input: I,
    cells: Seq<Byte>,
    ip: Byte,
    opcode: Byte,
    operands: Seq<Byte>,
) -> bool {
    &&& may_read(input, cells, ip, opcode)
    &&& match opcode_table(opcode) {
        None => operands.len() == 0,
        Some(definition) => may_read_operands(
            input,
            cells,
            advance(ip, 1),
            definition.signature,
            operands,
        ),
    }
}

/// One step from `pre`, where the hooks answered `io`. A fault leaves the
/// state as it was. Otherwise the instruction pointer is first moved past the
/// instruction, and then the instruction's mutations are applied in order.
pub open spec fn step(pre: MachineState, io: StepIo) -> Outcome {
    match decode(pre.registers.ip, io.opcode, io.operands) {
        Err(fault) => Outcome { result: Err(fault), state: pre },
        Ok(decoded) => Outcome {
            result: Ok(()),
            state: apply_all(pre.at(decoded.next), effects_of(pre, decoded), io.answers),
        },
    }
}

/// The hooks allow `io` as the record of a step from `pre`: the bytes are
/// what fetching may read, and the answers are what the output hook may give
/// to the instruction's mutations. The output hook is not asked on a fault.
pub open spec fn may_observe<I: Fn(Byte) -> Option<Byte>, O: Fn(Byte, Byte) -> Option<()>>(
    input: I,
    output: O,
    pre: MachineState,
    io: StepIo,
) -> bool {
    &&& may_fetch(input, pre.cells, pre.registers.ip, io.opcode, io.operands)
    &&& match decode(pre.registers.ip, io.opcode, io.operands) {
        Err(_) => io.answers.len() == 0,
        Ok(decoded) => may_answer_all(output, effects_of(pre, decoded), io.answers),
    }
}

/// The steps with records `ios`, taken one after the other from `pre`. The
/// first fault ends them: what follows it is not taken.
pub open spec fn run_trace(pre: MachineState, ios: Seq<StepIo>) -> Outcome
    decreases ios.len(),
{
    if ios.len() == 0 {
        Outcome { result: Ok(()), state: pre }
    } else {
        let before = run_trace(pre, ios.drop_last());
        match before.result {
            Err(_) => before,
            Ok(_) => step(before.state, ios.last()),
        }
    }
}

/// The hooks allow each of `ios` as the record of the step it stands for, and
/// each of these steps is taken from a state that is not halted and has not
/// faulted.
pub open spec fn may_take<I: Fn(Byte) -> Option<Byte>, O: Fn(Byte, Byte) -> Option<()>>(
    input: I,
    output: O,
    pre: MachineState,
    ios: Seq<StepIo>,
) -> bool {
    forall|k: int|
        0 <= k < ios.len() ==> {
            let before = #[trigger] run_trace(pre, ios.take(k));
            &&& before.result is Ok
            &&& !before.state.halted
            &&& may_observe(input, output, before.state, ios[k])
        }
}

/// The hooks allow `ios` as the records of a run of at most `limit` steps
/// from `pre`: the steps may be taken, and they go on until the machine
/// halts, a step faults or `limit` steps are done.
pub open spec fn may_run<I: Fn(Byte) -> Option<Byte>, O: Fn(Byte, Byte) -> Option<()>>(
    input: I,
    output: O,
    pre: MachineState,
    limit: nat,
    ios: Seq<StepIo>,
) -> bool {
    &&& ios.len() <= limit
    &&& may_take(input, output, pre, ios)
    &&& run_trace(pre, ios).result is Ok ==> run_trace(pre, ios).state.halted || ios.len() == limit
}

/// The cells after `program` is loaded over `cells` from address 0 on, where
/// `answers[i]` is what the output hook answered to the write of byte `i`. A
/// byte of the program is stored where the hook declined its write; every
/// other cell is as it was.
pub open spec fn loaded(cells: Seq<Byte>, program: Seq<Byte>, answers: Seq<Option<()>>) -> Seq<
    Byte,
> {
    Seq::new(
        cells.len(),
        |adr: int|
            if adr < program.len() && answers[adr] is None {
                program[adr]
            } else {
                cells[adr]
            },
    )
}

/// `answers` are answers that the output hook may give while `program` is
/// loaded: `answers[i]` is one of its answers to the write of byte `i` to
/// address `i`.
pub open spec fn may_answer_load<O: Fn(Byte, Byte) -> Option<()>>(
    output: O,
    program: Seq<Byte>,
    answers: Seq<Option<()>>,
) -> bool {
    &&& answers.len() == program.len()
    &&& forall|i: int|
        0 <= i < program.len() ==> call_ensures(output, (i as Byte, program[i]), #[trigger] answers[i])
}

/// Taking the steps `ios` and then one more is taking that step from where
/// `ios` led, unless `ios` ended in a fault.
pub proof fn lemma_run_trace_push(pre: MachineState, ios: Seq<StepIo>, io: StepIo)
    ensures
        run_trace(pre, ios.push(io)) == match run_trace(pre, ios).result {
            Err(_) => run_trace(pre, ios),
            Ok(_) => step(run_trace(pre, ios).state, io),
        },
{
    assert(ios.push(io).drop_last() =~= ios);
}

/// Steps that may be taken can be followed by one more that the hooks allow,
/// if they left the machine running.
pub proof fn lemma_may_take_push<I: Fn(Byte) -> Option<Byte>, O: Fn(Byte, Byte) -> Option<()>>(
    input: I,
    output: O,
    pre: MachineState,
    ios: Seq<StepIo>,
    io: StepIo,
)
    requires
        may_take(input, output, pre, ios),
        run_trace(pre, ios).result is Ok,
        !run_trace(pre, ios).state.halted,
        may_observe(input, output, run_trace(pre, ios).state, io),
    ensures
        may_take(input, output, pre, ios.push(io)),
{
    let longer = ios.push(io);
    assert forall|k: int| 0 <= k < longer.len() implies {
        let before = #[trigger] run_trace(pre, longer.take(k));
        &&& before.result is Ok
        &&& !before.state.halted
        &&& may_observe(input, output, before.state, longer[k])
    } by {
        if k < ios.len() {
            assert(longer.take(k) =~= ios.take(k));
        } else {
            assert(longer.take(k) =~= ios);
        }
    }
}

} // verus!
