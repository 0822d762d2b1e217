//! What holds of every step, every run and every load, proved from the
//! definitions of `semantics` and `state`.

use crate::common::{advance, wrapping_difference, wrapping_sum, Byte};
use crate::instruction::{
    decode_operands, lemma_decoded_operands_fit, ArgType, CPUMutation, InstructionAction,
};
use crate::instruction_parser::opcode_table;
use crate::memory::{output_active, output_quiet, stored};
use crate::register::Register;
use crate::semantics::{
    decode, effects_of, lemma_run_trace_push, loaded, may_answer_load, may_observe, may_run,
    run_trace, step, Decoded, Outcome, StepIo,
};
use crate::state::{apply, apply_all, lemma_apply_single, may_answer, may_answer_all, MachineState};
use crate::CPUError;
use vstd::prelude::*;

verus! {

/// The record of a step that read `opcode` and then the two operand bytes
/// `first` and `second`.
pub open spec fn two_operands(
    opcode: Byte,
    first: Byte,
    second: Byte,
    answers: Seq<Option<()>>,
) -> StepIo {
    StepIo { opcode, operands: seq![first, second], answers }
}

/// Two operand bytes decode to two operands exactly when each decodes under
/// its type.
pub proof fn lemma_decode_two(first_type: ArgType, second_type: ArgType, first: Byte, second: Byte)
    ensures
        decode_operands(seq![first_type, second_type], seq![first, second]) == (if first_type.decode(
            first,
        ) is Some && second_type.decode(second) is Some {
            Some(seq![first_type.decode(first)->0, second_type.decode(second)->0])
        } else {
            None
        }),
{
    let signature = seq![first_type, second_type];
    let bytes = seq![first, second];
    if first_type.decode(first) is Some && second_type.decode(second) is Some {
        assert forall|i: int| 0 <= i < signature.len() implies (#[trigger] signature[i].decode(
            bytes[i],
        )) is Some by {}
        assert(decode_operands(signature, bytes)->0 =~= seq![
            first_type.decode(first)->0,
            second_type.decode(second)->0,
        ]);
    }
}

/// A step that faults changes nothing: registers, halted flag and cells are
/// as they were before it.
pub proof fn lemma_fault_changes_nothing(pre: MachineState, io: StepIo)
    requires
        step(pre, io).result is Err,
    ensures
        step(pre, io).state == pre,
{
}

/// A step faults with `InvalidOpcode` exactly when the byte at the
/// instruction pointer is no opcode of the table, and the fault then names
/// that address and that byte.
pub proof fn lemma_invalid_opcode(pre: MachineState, io: StepIo)
    ensures
        opcode_table(io.opcode) is None <==> step(pre, io).result is Err && step(
            pre,
            io,
        ).result->Err_0 is InvalidOpcode,
        opcode_table(io.opcode) is None ==> step(pre, io).result == Err::<(), CPUError>(
            CPUError::InvalidOpcode { adr: pre.registers.ip, opcode: io.opcode },
        ),
        opcode_table(io.opcode) is None <==> !(io.opcode == 0x00 || io.opcode == 0x01 || io.opcode
            == 0x02 || io.opcode == 0x03 || io.opcode == 0x30 || io.opcode == 0xff),
{
}

/// A step faults with `InvalidArgument` exactly when the opcode is of the
/// table and an operand does not decode. The fault then names the
/// instruction and the address of its opcode, where the instruction pointer
/// was before the step.
pub proof fn lemma_invalid_argument(pre: MachineState, io: StepIo)
    ensures
        (step(pre, io).result is Err && step(pre, io).result->Err_0 is InvalidArgument) <==> (
        opcode_table(io.opcode) is Some && decode_operands(
            opcode_table(io.opcode)->0.signature,
            io.operands,
        ) is None),
        step(pre, io).result matches Err(CPUError::InvalidArgument { instruction, adr })
            ==> instruction == opcode_table(io.opcode)->0.name && adr == pre.registers.ip,
{
}

/// Where a register operand's byte is no register code, the step faults with
/// `InvalidArgument`, whichever instruction of the table it is and whichever
/// of its register operands.
pub proof fn lemma_bad_register_faults(pre: MachineState, io: StepIo, i: int)
    requires
        opcode_table(io.opcode) is Some,
        0 <= i < opcode_table(io.opcode)->0.signature.len(),
        i < io.operands.len(),
        opcode_table(io.opcode)->0.signature[i] == ArgType::Register,
        Register::decode(io.operands[i]) is None,
    ensures
        step(pre, io).result == Err::<(), CPUError>(
            CPUError::InvalidArgument {
                instruction: opcode_table(io.opcode)->0.name,
                adr: pre.registers.ip,
            },
        ),
        step(pre, io).state == pre,
{
}

/// `NUM reg,c` leaves exactly `c` in `reg`, for every register and every
/// byte. No other register changes but the instruction pointer, which moves
/// past the three bytes of the instruction; memory and the halted flag stay.
pub proof fn lemma_num(pre: MachineState, reg: Register, c: Byte, answers: Seq<Option<()>>)
    ensures
        ({
            let post = step(pre, two_operands(0x00, reg.code(), c, answers));
            &&& post.result is Ok
            &&& post.state.registers == pre.registers.set(
                Register::IP,
                advance(pre.registers.ip, 3),
            ).set(reg, c)
            &&& post.state.registers.get(reg) == c
            &&& post.state.cells == pre.cells
            &&& post.state.halted == pre.halted
        }),
{
    let io = two_operands(0x00, reg.code(), c, answers);
    lemma_decode_two(ArgType::Register, ArgType::Constant, reg.code(), c);
    let decoded = decode(pre.registers.ip, io.opcode, io.operands)->Ok_0;
    let write = CPUMutation::WriteRegister(reg, c);
    lemma_apply_any_answers(pre.at(decoded.next), write, answers);
}

/// Applying a list of one mutation that asks no hook gives the same state
/// whatever the answers are.
pub proof fn lemma_apply_any_answers(
    pre: MachineState,
    mutation: CPUMutation,
    answers: Seq<Option<()>>,
)
    requires
        !(mutation is WriteMemory),
    ensures
        apply_all(pre, seq![mutation], answers) == apply(pre, mutation, None),
{
    reveal_with_fuel(apply_all, 2);
}

/// `MOV dst,src` leaves in `dst` what `src` held before the step. It does
/// not change `src`, unless `src` is the instruction pointer and `dst` is
/// not: the instruction pointer then moves past the instruction as in every
/// step.
pub proof fn lemma_mov(pre: MachineState, dst: Register, src: Register, answers: Seq<Option<()>>)
    ensures
        ({
            let post = step(pre, two_operands(0x01, dst.code(), src.code(), answers));
            &&& post.result is Ok
            &&& post.state.registers == pre.registers.set(
                Register::IP,
                advance(pre.registers.ip, 3),
            ).set(dst, pre.registers.get(src))
            &&& post.state.registers.get(dst) == pre.registers.get(src)
            &&& post.state.cells == pre.cells
            &&& post.state.halted == pre.halted
        }),
{
    let io = two_operands(0x01, dst.code(), src.code(), answers);
    lemma_decode_two(ArgType::Register, ArgType::Register, dst.code(), src.code());
    let decoded = decode(pre.registers.ip, io.opcode, io.operands)->Ok_0;
    let write = CPUMutation::WriteRegister(dst, pre.registers.get(src));
    lemma_apply_any_answers(pre.at(decoded.next), write, answers);
}

/// `MOV dst,src` never changes the value of `src`, where `src` is not the
/// instruction pointer or `dst` is the instruction pointer too.
pub proof fn lemma_mov_keeps_source(
    pre: MachineState,
    dst: Register,
    src: Register,
    answers: Seq<Option<()>>,
)
    requires
        src != Register::IP || dst == Register::IP,
    ensures
        step(pre, two_operands(0x01, dst.code(), src.code(), answers)).state.registers.get(src)
            == pre.registers.get(src),
{
    lemma_mov(pre, dst, src, answers);
}

/// `ADD dst,src` leaves in `dst` the sum modulo 256 of what `dst` and `src`
/// held before the step, for all values of the two.
pub proof fn lemma_add(pre: MachineState, dst: Register, src: Register, answers: Seq<Option<()>>)
    ensures
        ({
            let post = step(pre, two_operands(0x02, dst.code(), src.code(), answers));
            &&& post.result is Ok
            &&& post.state.registers == pre.registers.set(
                Register::IP,
                advance(pre.registers.ip, 3),
            ).set(dst, wrapping_sum(pre.registers.get(dst), pre.registers.get(src)))
            &&& post.state.registers.get(dst) == (pre.registers.get(dst) + pre.registers.get(src))
                % 256
            &&& post.state.cells == pre.cells
            &&& post.state.halted == pre.halted
        }),
{
    let io = two_operands(0x02, dst.code(), src.code(), answers);
    lemma_decode_two(ArgType::Register, ArgType::Register, dst.code(), src.code());
    let decoded = decode(pre.registers.ip, io.opcode, io.operands)->Ok_0;
    let write = CPUMutation::WriteRegister(
        dst,
        wrapping_sum(pre.registers.get(dst), pre.registers.get(src)),
    );
    lemma_apply_any_answers(pre.at(decoded.next), write, answers);
}

/// `SUB dst,src` leaves in `dst` the difference modulo 256 of what `dst` and
/// `src` held before the step, for all values of the two.
pub proof fn lemma_sub(pre: MachineState, dst: Register, src: Register, answers: Seq<Option<()>>)
    ensures
        ({
            let post = step(pre, two_operands(0x03, dst.code(), src.code(), answers));
            &&& post.result is Ok
            &&& post.state.registers == pre.registers.set(
                Register::IP,
                advance(pre.registers.ip, 3),
            ).set(dst, wrapping_difference(pre.registers.get(dst), pre.registers.get(src)))
            &&& post.state.registers.get(dst) == (pre.registers.get(dst) - pre.registers.get(src))
                % 256
            &&& post.state.cells == pre.cells
            &&& post.state.halted == pre.halted
        }),
{
    let io = two_operands(0x03, dst.code(), src.code(), answers);
    lemma_decode_two(ArgType::Register, ArgType::Register, dst.code(), src.code());
    let decoded = decode(pre.registers.ip, io.opcode, io.operands)->Ok_0;
    let write = CPUMutation::WriteRegister(
        dst,
        wrapping_difference(pre.registers.get(dst), pre.registers.get(src)),
    );
    lemma_apply_any_answers(pre.at(decoded.next), write, answers);
}

/// `SET adr,reg` hands the output hook `adr` and the value that `reg` held
/// before the step. Where the hook declines, that value is written to the
/// cell at `adr`; where it intercepts, every cell stays as it was. No
/// register changes but the instruction pointer.
pub proof fn lemma_set<I: Fn(Byte) -> Option<Byte>, O: Fn(Byte, Byte) -> Option<()>>(
    input: I,
    output: O,
    pre: MachineState,
    adr: Byte,
    reg: Register,
    answers: Seq<Option<()>>,
)
    requires
        may_observe(input, output, pre, two_operands(0x30, adr, reg.code(), answers)),
    ensures
        ({
            let post = step(pre, two_operands(0x30, adr, reg.code(), answers));
            let value = pre.registers.get(reg);
            &&& answers.len() == 1
            &&& call_ensures(output, (adr, value), answers[0])
            &&& post.result is Ok
            &&& post.state.cells == stored(pre.cells, adr, value, answers[0])
            &&& answers[0] is None ==> post.state.cells == pre.cells.update(adr as int, value)
            &&& answers[0] is Some ==> post.state.cells == pre.cells
            &&& post.state.registers == pre.registers.set(Register::IP, advance(pre.registers.ip, 3))
            &&& post.state.halted == pre.halted
        }),
{
    let io = two_operands(0x30, adr, reg.code(), answers);
    lemma_decode_two(ArgType::Constant, ArgType::Register, adr, reg.code());
    let decoded = decode(pre.registers.ip, io.opcode, io.operands)->Ok_0;
    let write = CPUMutation::WriteMemory { adr, value: pre.registers.get(reg) };
    assert(answers =~= seq![answers[0]]);
    lemma_apply_single(pre.at(decoded.next), write, answers[0]);
}

/// `SET adr,reg` on a machine whose output hook intercepts `adr` leaves the
/// cell at `adr`, and every other, unchanged, and the hook was handed `adr`
/// and the value of `reg`.
pub proof fn lemma_set_intercepted<I: Fn(Byte) -> Option<Byte>, O: Fn(Byte, Byte) -> Option<()>>(
    input: I,
    output: O,
    pre: MachineState,
    adr: Byte,
    reg: Register,
    answers: Seq<Option<()>>,
)
    requires
        output_active(output, adr),
        may_observe(input, output, pre, two_operands(0x30, adr, reg.code(), answers)),
    ensures
        step(pre, two_operands(0x30, adr, reg.code(), answers)).state.cells == pre.cells,
        call_ensures(output, (adr, pre.registers.get(reg)), Some(())),
{
    lemma_set(input, output, pre, adr, reg, answers);
    assert(answers[0] == Some(()));
}

/// `SET adr,reg` on a machine whose output hook does not intercept `adr`
/// writes the value of `reg` to the cell at `adr` and to no other.
pub proof fn lemma_set_stored<I: Fn(Byte) -> Option<Byte>, O: Fn(Byte, Byte) -> Option<()>>(
    input: I,
    output: O,
    pre: MachineState,
    adr: Byte,
    reg: Register,
    answers: Seq<Option<()>>,
)
    requires
        output_quiet(output, adr),
        may_observe(input, output, pre, two_operands(0x30, adr, reg.code(), answers)),
    ensures
        step(pre, two_operands(0x30, adr, reg.code(), answers)).state.cells == pre.cells.update(
            adr as int,
            pre.registers.get(reg),
        ),
{
    lemma_set(input, output, pre, adr, reg, answers);
}

/// `HLT` sets the halted flag and leaves the instruction pointer just past
/// itself. Nothing else changes.
pub proof fn lemma_hlt(pre: MachineState, operands: Seq<Byte>, answers: Seq<Option<()>>)
    requires
        operands.len() == 0,
    ensures
        ({
            let post = step(pre, StepIo { opcode: 0xff, operands, answers });
            &&& post.result is Ok
            &&& post.state.halted
            &&& post.state.registers == pre.registers.set(Register::IP, advance(pre.registers.ip, 1))
            &&& post.state.cells == pre.cells
        }),
{
    let io = StepIo { opcode: 0xff, operands, answers };
    let decoded = decode(pre.registers.ip, io.opcode, io.operands)->Ok_0;
    lemma_apply_any_answers(pre.at(decoded.next), CPUMutation::Halt, answers);
}

/// A step leaves the machine halted exactly when it was halted before or the
/// step performed `HLT`: nothing else sets the flag, and nothing clears it.
pub proof fn lemma_halted_only_by_hlt(pre: MachineState, io: StepIo)
    ensures
        step(pre, io).state.halted <==> pre.halted || (io.opcode == 0xff && io.operands.len() == 0),
{
    match decode(pre.registers.ip, io.opcode, io.operands) {
        Err(_) => {},
        Ok(decoded) => {
            lemma_effects_single(pre, decoded);
            let mutation = effects_of(pre, decoded)[0];
            lemma_apply_one(pre.at(decoded.next), mutation, io.answers);
        },
    }
}

/// Every instruction of the table asks for exactly one mutation; only `HLT`
/// asks for a halt, and only `SET` for a memory write.
pub proof fn lemma_effects_single(pre: MachineState, decoded: Decoded)
    requires
        exists|ip: Byte, opcode: Byte, operands: Seq<Byte>|
            decode(ip, opcode, operands) == Ok::<Decoded, CPUError>(decoded),
    ensures
        effects_of(pre, decoded).len() == 1,
        effects_of(pre, decoded)[0] is Halt <==> decoded.definition.action
            == InstructionAction::Halt,
        effects_of(pre, decoded)[0] is WriteMemory <==> decoded.definition.action
            == InstructionAction::Store,
{
    let (ip, opcode, operands) = choose|ip: Byte, opcode: Byte, operands: Seq<Byte>|
        decode(ip, opcode, operands) == Ok::<Decoded, CPUError>(decoded);
    let signature = opcode_table(opcode)->0.signature;
    lemma_decoded_operands_fit(signature, operands);
}

/// Applying a list of one mutation is applying that mutation with the last
/// of the answers.
pub proof fn lemma_apply_one(pre: MachineState, mutation: CPUMutation, answers: Seq<Option<()>>)
    ensures
        apply_all(pre, seq![mutation], answers) == apply(pre, mutation, answers.last()),
{
    reveal_with_fuel(apply_all, 2);
}

/// A step never changes the number of cells.
pub proof fn lemma_step_keeps_size(pre: MachineState, io: StepIo)
    requires
        pre.cells.len() == 256,
    ensures
        step(pre, io).state.cells.len() == 256,
{
    match decode(pre.registers.ip, io.opcode, io.operands) {
        Err(_) => {},
        Ok(decoded) => {
            lemma_effects_single(pre, decoded);
            let mutation = effects_of(pre, decoded)[0];
            lemma_apply_one(pre.at(decoded.next), mutation, io.answers);
        },
    }
}

/// A run from a halted machine takes no step: it returns `Ok` at once and
/// changes nothing.
pub proof fn lemma_halted_machine_stays<I: Fn(Byte) -> Option<Byte>, O: Fn(Byte, Byte) -> Option<()>>(
    input: I,
    output: O,
    pre: MachineState,
    limit: nat,
    ios: Seq<StepIo>,
)
    requires
        pre.halted,
        may_run(input, output, pre, limit, ios),
    ensures
        ios.len() == 0,
        run_trace(pre, ios) == (Outcome { result: Ok(()), state: pre }),
{
    if ios.len() > 0 {
        assert(run_trace(pre, ios.take(0)).state == pre);
    }
}

/// A run ends with the step that performs `HLT`: that step is the last one
/// taken, the run returns `Ok`, and it leaves the machine halted with the
/// instruction pointer just past the `HLT`.
pub proof fn lemma_hlt_ends_run<I: Fn(Byte) -> Option<Byte>, O: Fn(Byte, Byte) -> Option<()>>(
    input: I,
    output: O,
    pre: MachineState,
    limit: nat,
    ios: Seq<StepIo>,
    k: int,
)
    requires
        may_run(input, output, pre, limit, ios),
        0 <= k < ios.len(),
        ios[k].opcode == 0xff,
    ensures
        k == ios.len() - 1,
        run_trace(pre, ios).result is Ok,
        run_trace(pre, ios).state.halted,
        run_trace(pre, ios).state.registers.ip == advance(
            run_trace(pre, ios.take(k)).state.registers.ip,
            1,
        ),
{
    let before = run_trace(pre, ios.take(k));
    assert(before.result is Ok && !before.state.halted && may_observe(
        input,
        output,
        before.state,
        ios[k],
    ));
    lemma_hlt(before.state, ios[k].operands, ios[k].answers);
    assert(ios.take(k + 1) =~= ios.take(k).push(ios[k]));
    lemma_run_trace_push(pre, ios.take(k), ios[k]);
    assert(run_trace(pre, ios.take(k + 1)).state.halted);
    if k + 1 < ios.len() {
        // a step is taken only from a state that is not halted
        assert(!run_trace(pre, ios.take(k + 1)).state.halted);
    }
    assert(ios.take(k + 1) =~= ios);
}

/// A run that returns `Ok` before its limit has left the machine halted, and
/// a run that returns a fault has left the machine as it was before the
/// faulting step.
pub proof fn lemma_run_ends<I: Fn(Byte) -> Option<Byte>, O: Fn(Byte, Byte) -> Option<()>>(
    input: I,
    output: O,
    pre: MachineState,
    limit: nat,
    ios: Seq<StepIo>,
)
    requires
        may_run(input, output, pre, limit, ios),
    ensures
        run_trace(pre, ios).result is Ok && ios.len() < limit ==> run_trace(pre, ios).state.halted,
        run_trace(pre, ios).result is Err ==> ios.len() > 0 && run_trace(pre, ios).state
            == run_trace(pre, ios.drop_last()).state && !run_trace(pre, ios).state.halted,
{
}

/// Loading a program while the output hook intercepts nothing places its
/// bytes at addresses 0 and after, in order, and leaves the cells after the
/// program as they were. With 256 bytes the program fills the memory.
pub proof fn lemma_load_places_program<O: Fn(Byte, Byte) -> Option<()>>(
    output: O,
    cells: Seq<Byte>,
    program: Seq<Byte>,
    answers: Seq<Option<()>>,
)
    requires
        cells.len() == 256,
        program.len() <= 256,
        forall|adr: Byte| output_quiet(output, adr),
        may_answer_load(output, program, answers),
    ensures
        loaded(cells, program, answers) == program + cells.subrange(program.len() as int, 256),
        program.len() == 256 ==> loaded(cells, program, answers) == program,
{
    assert forall|i: int| 0 <= i < program.len() implies answers[i] is None by {
        assert(output_quiet(output, i as Byte));
    }
}

/// Loading a program changes no cell after its end, and changes a cell
/// within it only to the program's byte for that address.
pub proof fn lemma_load_touches_program_only(
    cells: Seq<Byte>,
    program: Seq<Byte>,
    answers: Seq<Option<()>>,
    adr: int,
)
    requires
        0 <= adr < cells.len(),
    ensures
        loaded(cells, program, answers).len() == cells.len(),
        adr >= program.len() ==> loaded(cells, program, answers)[adr] == cells[adr],
        adr < program.len() ==> loaded(cells, program, answers)[adr] == program[adr] || loaded(
            cells,
            program,
            answers,
        )[adr] == cells[adr],
{
}

} // verus!
