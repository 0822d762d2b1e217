//! An emulator for a minimal 8-bit CPU: 256 bytes of memory, six registers,
//! six instructions, wrapping arithmetic and memory-mapped I/O through hooks.

pub mod common;
pub mod instruction;
pub mod instruction_parser;
pub mod laws;
pub mod memory;
pub mod register;
pub mod semantics;
pub mod state;

use crate::common::{advance, byte_add, lemma_advance_twice, Byte};
use crate::instruction::{
    decode_operands, lemma_decoded_operands_fit, may_read_operands, Argument, CPUMutation,
    Instruction,
};
use crate::instruction_parser::DefaultInstructionParser;
use crate::memory::{stored, Memory};
use crate::register::Register;
use crate::semantics::{
    decode, effects_of, lemma_may_take_push, lemma_run_trace_push, loaded, may_answer_load,
    may_fetch, may_observe, may_run, may_take, run_trace, step, Decoded, Outcome, StepIo,
};
use crate::state::{
    apply, apply_all, lemma_apply_push, may_answer, may_answer_all, MachineState, Registers,
};
use vstd::prelude::*;

verus! {

/// A fault that ends a run. Both kinds are found while an instruction is
/// fetched and decoded, before it has had any effect.
#[derive(Debug, Clone, Copy)]
pub enum CPUError {
    /// The byte `opcode`, read at `adr`, selects no instruction.
    InvalidOpcode { adr: Byte, opcode: Byte },
    /// An operand of the instruction fetched at `adr` did not decode.
    InvalidArgument { instruction: &'static str, adr: Byte },
}

/// What fetching returned is what `decoded` says: the same instruction,
/// operands and next address, or the same fault.
pub open spec fn fetched_as(
    fetched: Result<(&Instruction, Vec<Argument>, Byte), CPUError>,
    decoded: Result<Decoded, CPUError>,
) -> bool {
    match fetched {
        Ok((instruction, args, next)) => decoded == Ok::<Decoded, CPUError>(
            Decoded { definition: instruction@, arguments: args@, next },
        ),
        Err(fault) => decoded == Err::<Decoded, CPUError>(fault),
    }
}

/// `observer` was called on a machine in state `state` behind these hooks,
/// and returned.
pub open spec fn observed<I, O, F>(observer: F, input: I, output: O, state: MachineState) -> bool where
    I: Fn(Byte) -> Option<Byte>,
    O: Fn(Byte, Byte) -> Option<()>,
    F: FnOnce(&CPU<I, O>),
 {
    exists|cpu: CPU<I, O>| #[trigger]
        call_ensures(observer, (&cpu,), ()) && cpu@ == state && cpu.input_hook() == input
            && cpu.output_hook() == output
}

/// Around step `k` of the steps `ios` from `pre`, `on_before_step` was called
/// on the state before the step, and `on_after_step` on the state after it
/// unless the step faulted.
pub open spec fn watched_step<I, O, F1, F2>(
    on_before_step: F1,
    on_after_step: F2,
    input: I,
    output: O,
    pre: MachineState,
    ios: Seq<StepIo>,
    k: int,
) -> bool where
    I: Fn(Byte) -> Option<Byte>,
    O: Fn(Byte, Byte) -> Option<()>,
    F1: FnOnce(&CPU<I, O>),
    F2: FnOnce(&CPU<I, O>),
 {
    &&& observed(on_before_step, input, output, run_trace(pre, ios.take(k)).state)
    &&& run_trace(pre, ios.take(k + 1)).result is Ok ==> observed(
        on_after_step,
        input,
        output,
        run_trace(pre, ios.take(k + 1)).state,
    )
}

/// The observers were called around every one of the steps `ios` from `pre`.
pub open spec fn watched<I, O, F1, F2>(
    on_before_step: F1,
    on_after_step: F2,
    input: I,
    output: O,
    pre: MachineState,
    ios: Seq<StepIo>,
) -> bool where
    I: Fn(Byte) -> Option<Byte>,
    O: Fn(Byte, Byte) -> Option<()>,
    F1: FnOnce(&CPU<I, O>),
    F2: FnOnce(&CPU<I, O>),
 {
    forall|k: int|
        0 <= k < ios.len() ==> #[trigger] watched_step(
            on_before_step,
            on_after_step,
            input,
            output,
            pre,
            ios,
            k,
        )
}

/// Steps that were watched, followed by one more that was watched too, were
/// all watched.
pub proof fn lemma_watched_push<I, O, F1, F2>(
    on_before_step: F1,
    on_after_step: F2,
    input: I,
    output: O,
    pre: MachineState,
    ios: Seq<StepIo>,
    io: StepIo,
) where
    I: Fn(Byte) -> Option<Byte>,
    O: Fn(Byte, Byte) -> Option<()>,
    F1: FnOnce(&CPU<I, O>),
    F2: FnOnce(&CPU<I, O>),

    requires
        watched(on_before_step, on_after_step, input, output, pre, ios),
        observed(on_before_step, input, output, run_trace(pre, ios).state),
        run_trace(pre, ios.push(io)).result is Ok ==> observed(
            on_after_step,
            input,
            output,
            run_trace(pre, ios.push(io)).state,
        ),
    ensures
        watched(on_before_step, on_after_step, input, output, pre, ios.push(io)),
{
    let longer = ios.push(io);
    assert forall|k: int| 0 <= k < longer.len() implies #[trigger] watched_step(
        on_before_step,
        on_after_step,
        input,
        output,
        pre,
        longer,
        k,
    ) by {
        if k < ios.len() {
            assert(watched_step(on_before_step, on_after_step, input, output, pre, ios, k));
            assert(longer.take(k) =~= ios.take(k));
            assert(longer.take(k + 1) =~= ios.take(k + 1));
        } else {
            assert(longer.take(k) =~= ios);
            assert(longer.take(k + 1) =~= longer);
        }
    }
}

/// The machine: six registers, a halted flag, the memory and the parser.
pub struct CPU<I: Fn(Byte) -> Option<Byte>, O: Fn(Byte, Byte) -> Option<()>> {
    is_halted: bool,
    pub ram: Memory<I, O>,
    reg_a: Byte,
    reg_b: Byte,
    reg_c: Byte,
    reg_d: Byte,
    instruction_pointer: Byte,
    stack_pointer: Byte,
    instruction_parser: DefaultInstructionParser,
}

impl<I: Fn(Byte) -> Option<Byte>, O: Fn(Byte, Byte) -> Option<()>> CPU<I, O> {
    /// The values of the registers.
    pub closed spec fn registers(&self) -> Registers {
        Registers {
            a: self.reg_a,
            b: self.reg_b,
            c: self.reg_c,
            d: self.reg_d,
            ip: self.instruction_pointer,
            sp: self.stack_pointer,
        }
    }

    /// Whether the machine has halted.
    pub closed spec fn halted(&self) -> bool {
        self.is_halted
    }

    /// The memory of the machine.
    pub closed spec fn memory(&self) -> Memory<I, O> {
        self.ram
    }

    /// The hook that the machine's reads go through.
    pub open spec fn input_hook(&self) -> I {
        self.memory().input_hook()
    }

    /// The hook that the machine's writes go through.
    pub open spec fn output_hook(&self) -> O {
        self.memory().output_hook()
    }

    /// The state of the machine: registers, halted flag and stored cells.
    pub open spec fn view(&self) -> MachineState {
        MachineState { registers: self.registers(), halted: self.halted(), cells: self.memory()@ }
    }

    /// A machine that has not run yet, with a zeroed memory behind the two
    /// hooks.
    pub fn new(input_mapping: I, output_mapping: O) -> (cpu: Self)
        requires
            forall|adr: Byte| #[trigger] call_requires(input_mapping, (adr,)),
            forall|adr: Byte, value: Byte| #[trigger] call_requires(output_mapping, (adr, value)),
        ensures
            cpu@ == MachineState::initial(),
            cpu.input_hook() == input_mapping,
            cpu.output_hook() == output_mapping,
    {
        let instruction_parser = DefaultInstructionParser::new();
        CPU {
            is_halted: false,
            ram: Memory::new(input_mapping, output_mapping),
            reg_a: 0,
            reg_b: 0,
            reg_c: 0,
            reg_d: 0,
            instruction_pointer: 0,
            stack_pointer: 0xd0,
            instruction_parser,
        }
    }

    /// Whether the machine has halted.
    pub fn is_halted(&self) -> (halted: bool)
        ensures
            halted == self.halted(),
    {
        self.is_halted
    }

    /// The value of register `r`.
    pub fn read_register(&self, r: Register) -> (value: Byte)
        ensures
            value == self.registers().get(r),
    {
        match r {
            Register::A => self.reg_a,
            Register::B => self.reg_b,
            Register::C => self.reg_c,
            Register::D => self.reg_d,
            Register::IP => self.instruction_pointer,
            Register::SP => self.stack_pointer,
        }
    }

    /// Fetches the instruction at the instruction pointer and decodes its
    /// operands. Nothing is changed. On success returns the instruction, its
    /// operands and the address just after it.
    pub fn fetch_next_instruction(&self) -> (fetched: Result<
        (&Instruction, Vec<Argument>, Byte),
        CPUError,
    >)
        ensures
            exists|opcode: Byte, operands: Seq<Byte>| #[trigger]
                may_fetch(self.input_hook(), self@.cells, self@.registers.ip, opcode, operands)
                    && fetched_as(fetched, decode(self@.registers.ip, opcode, operands)),
    {
        let ip = self.instruction_pointer;
        let opcode = self.ram.read(ip);
        let ghost mut operands = Seq::<Byte>::empty();
        let fetched = match self.instruction_parser.lookup(opcode) {
            None => Err(CPUError::InvalidOpcode { adr: ip, opcode }),
            Some(instruction) => {
                let operands_at = byte_add(ip, 1);
                let parsed = instruction.parse_args(&self.ram, operands_at);
                proof {
                    operands = choose|bytes: Seq<Byte>| #[trigger]
                        may_read_operands(
                            self.input_hook(),
                            self@.cells,
                            operands_at,
                            instruction@.signature,
                            bytes,
                        ) && match parsed {
                            Some((args, next)) => decode_operands(instruction@.signature, bytes)
                                == Some(args@) && next == advance(
                                operands_at,
                                instruction@.signature.len() as int,
                            ),
                            None => decode_operands(instruction@.signature, bytes) is None,
                        };
                    lemma_advance_twice(ip, 1, instruction@.signature.len() as int);
                }
                match parsed {
                    Some((args, next)) => Ok((instruction, args, next)),
                    None => Err(
                        CPUError::InvalidArgument { instruction: instruction.name(), adr: ip },
                    ),
                }
            },
        };
        proof {
            assert(may_fetch(self.input_hook(), self@.cells, self@.registers.ip, opcode, operands));
        }
        fetched
    }

    /// Sets register `r` to `value`. Nothing else changes.
    pub fn write_register(&mut self, r: Register, value: Byte)
        ensures
            final(self).registers() == old(self).registers().set(r, value),
            final(self).halted() == old(self).halted(),
            final(self).memory() == old(self).memory(),
    {
        match r {
            Register::A => self.reg_a = value,
            Register::B => self.reg_b = value,
            Register::C => self.reg_c = value,
            Register::D => self.reg_d = value,
            Register::IP => self.instruction_pointer = value,
            Register::SP => self.stack_pointer = value,
        }
    }

    /// Applies one mutation: a register write sets the register, a memory
    /// write goes through the memory's write path and so through the output
    /// hook, a halt sets the halted flag.
    pub fn apply(&mut self, mutation: CPUMutation)
        ensures
            final(self).input_hook() == old(self).input_hook(),
            final(self).output_hook() == old(self).output_hook(),
            exists|answer: Option<()>| #[trigger]
                may_answer(old(self).output_hook(), mutation, answer) && final(self)@ == apply(
                    old(self)@,
                    mutation,
                    answer,
                ),
    {
        match mutation {
            CPUMutation::WriteRegister(r, value) => {
                self.write_register(r, value);
                assert(may_answer(old(self).output_hook(), mutation, None));
            },
            CPUMutation::WriteMemory { adr, value } => {
                self.ram.write(adr, value);
                proof {
                    let answer = choose|answer: Option<()>| #[trigger]
                        call_ensures(old(self).output_hook(), (adr, value), answer) && self@.cells
                            == stored(old(self)@.cells, adr, value, answer);
                    assert(may_answer(old(self).output_hook(), mutation, answer));
                }
            },
            CPUMutation::Halt => {
                self.is_halted = true;
                assert(may_answer(old(self).output_hook(), mutation, None));
            },
        }
    }

    /// Loads `program` at address 0 and after, one write for each byte in
    /// order. The writes go through the output hook like any other. Registers
    /// and the halted flag are not touched.
    pub fn fill_ram(&mut self, program: &[u8])
        requires
            program@.len() <= 256,
        ensures
            final(self).input_hook() == old(self).input_hook(),
            final(self).output_hook() == old(self).output_hook(),
            exists|answers: Seq<Option<()>>| #[trigger]
                may_answer_load(old(self).output_hook(), program@, answers) && final(self)@ == (
                MachineState { cells: loaded(old(self)@.cells, program@, answers), ..old(self)@ }),
    {
        let ghost pre = self@;
        let ghost output = self.output_hook();
        let ghost mut answers = Seq::<Option<()>>::empty();
        proof {
            self.ram.lemma_size();
        }
        let mut i: usize = 0;
        while i < program.len()
            invariant
                i <= program@.len() <= 256,
                pre.cells.len() == 256,
                self.input_hook() == old(self).input_hook(),
                self.output_hook() == output,
                self.registers() == pre.registers,
                self.halted() == pre.halted,
                may_answer_load(output, program@.take(i as int), answers),
                self@.cells == loaded(pre.cells, program@.take(i as int), answers),
            decreases program@.len() - i,
        {
            let ghost before = self@.cells;
            let adr = i as u8;
            let value = program[i];
            self.ram.write(adr, value);
            proof {
                let answer = choose|answer: Option<()>| #[trigger]
                    call_ensures(output, (adr, value), answer) && self@.cells == stored(
                        before,
                        adr,
                        value,
                        answer,
                    );
                answers = answers.push(answer);
            }
            i += 1;
        }
        proof {
            assert(program@.take(i as int) =~= program@);
        }
    }

    /// Commits an instruction: moves the instruction pointer to `next`, and
    /// then applies `mutations` one after the other, in list order. A
    /// mutation that writes the instruction pointer therefore overwrites
    /// `next`.
    pub fn commit(&mut self, next: Byte, mutations: Vec<CPUMutation>)
        ensures
            final(self).input_hook() == old(self).input_hook(),
            final(self).output_hook() == old(self).output_hook(),
            exists|answers: Seq<Option<()>>| #[trigger]
                may_answer_all(old(self).output_hook(), mutations@, answers) && final(self)@
                    == apply_all(old(self)@.at(next), mutations@, answers),
    {
        let ghost committed = self@.at(next);
        let ghost output = self.output_hook();
        self.instruction_pointer = next;
        let ghost mut answers = Seq::<Option<()>>::empty();
        let mut k: usize = 0;
        while k < mutations.len()
            invariant
                k <= mutations@.len(),
                self.input_hook() == old(self).input_hook(),
                self.output_hook() == output,
                answers.len() == k,
                may_answer_all(output, mutations@.take(k as int), answers),
                self@ == apply_all(committed, mutations@.take(k as int), answers),
            decreases mutations@.len() - k,
        {
            let ghost before = self@;
            let ghost answered = answers;
            let mutation = mutations[k];
            self.apply(mutation);
            proof {
                let answer = choose|answer: Option<()>| #[trigger]
                    may_answer(output, mutation, answer) && self@ == apply(before, mutation, answer);
                answers = answers.push(answer);
                assert(mutations@.take(k + 1) =~= mutations@.take(k as int).push(mutation));
                lemma_apply_push(committed, mutations@.take(k as int), answered, mutation, answer);
            }
            k += 1;
        }
        assert(mutations@.take(k as int) =~= mutations@);
    }

    /// Performs one step: fetch, decode, compute the mutations, move the
    /// instruction pointer past the instruction, apply the mutations. A fault
    /// is found before anything is changed.
    pub fn run_step(&mut self) -> (result: Result<(), CPUError>)
        ensures
            final(self).input_hook() == old(self).input_hook(),
            final(self).output_hook() == old(self).output_hook(),
            exists|io: StepIo| #[trigger]
                may_observe(old(self).input_hook(), old(self).output_hook(), old(self)@, io)
                    && result == step(old(self)@, io).result && final(self)@ == step(
                    old(self)@,
                    io,
                ).state,
    {
        let ghost pre = self@;
        let ghost input = self.input_hook();
        let ghost output = self.output_hook();
        let fetched = self.fetch_next_instruction();
        let ghost read: (Byte, Seq<Byte>) = choose|opcode: Byte, operands: Seq<Byte>| #[trigger]
            may_fetch(input, pre.cells, pre.registers.ip, opcode, operands) && fetched_as(
                fetched,
                decode(pre.registers.ip, opcode, operands),
            );
        match fetched {
            Err(fault) => {
                proof {
                    let io = StepIo { opcode: read.0, operands: read.1, answers: Seq::empty() };
                    assert(may_observe(input, output, pre, io));
                }
                Err(fault)
            },
            Ok((instruction, args, next)) => {
                let ghost decoded = Decoded { definition: instruction@, arguments: args@, next };
                proof {
                    assert(decode(pre.registers.ip, read.0, read.1) == Ok::<Decoded, CPUError>(
                        decoded,
                    ));
                    lemma_decoded_operands_fit(instruction@.signature, read.1);
                }
                let mutations = instruction.run(self, args);
                self.commit(next, mutations);
                proof {
                    let answers = choose|answers: Seq<Option<()>>| #[trigger]
                        may_answer_all(output, effects_of(pre, decoded), answers) && self@
                            == apply_all(pre.at(next), effects_of(pre, decoded), answers);
                    let io = StepIo { opcode: read.0, operands: read.1, answers };
                    assert(may_observe(input, output, pre, io));
                }
                Ok(())
            },
        }
    }

    /// Runs steps until the machine has halted, a step faults, or `limit`
    /// steps are done. A machine that is halted takes no step at all. After
    /// `Ok`, `is_halted` tells whether the machine halted or the limit ended
    /// the run.
    pub fn run(&mut self, limit: u64) -> (result: Result<(), CPUError>)
        ensures
            final(self).input_hook() == old(self).input_hook(),
            final(self).output_hook() == old(self).output_hook(),
            exists|ios: Seq<StepIo>| #[trigger]
                may_run(
                    old(self).input_hook(),
                    old(self).output_hook(),
                    old(self)@,
                    limit as nat,
                    ios,
                ) && result == run_trace(old(self)@, ios).result && final(self)@ == run_trace(
                    old(self)@,
                    ios,
                ).state,
    {
        let ghost pre = self@;
        let ghost input = self.input_hook();
        let ghost output = self.output_hook();
        let ghost mut ios = Seq::<StepIo>::empty();
        let mut steps: u64 = 0;
        while !self.is_halted && steps < limit
            invariant
                steps <= limit,
                ios.len() == steps,
                pre == old(self)@,
                input == old(self).input_hook(),
                output == old(self).output_hook(),
                self.input_hook() == input,
                self.output_hook() == output,
                may_take(input, output, pre, ios),
                run_trace(pre, ios) == (Outcome { result: Ok(()), state: self@ }),
            decreases limit - steps,
        {
            let ghost before = self@;
            let ghost taken = ios;
            let result = self.run_step();
            proof {
                let io = choose|io: StepIo| #[trigger]
                    may_observe(input, output, before, io) && result == step(before, io).result
                        && self@ == step(before, io).state;
                ios = ios.push(io);
                lemma_may_take_push(input, output, pre, taken, io);
                lemma_run_trace_push(pre, taken, io);
            }
            match result {
                Err(fault) => {
                    assert(may_run(input, output, pre, limit as nat, ios));
                    return Err(fault);
                },
                Ok(_) => {},
            }
            steps += 1;
        }
        assert(may_run(input, output, pre, limit as nat, ios));
        Ok(())
    }

    /// Runs like `run`, and calls `on_before_step` before each step and
    /// `on_after_step` after each step that did not fault. The observers see
    /// the machine and cannot change it.
    pub fn run_with_debug<F1, F2>(
        &mut self,
        limit: u64,
        on_before_step: F1,
        on_after_step: F2,
    ) -> (result: Result<(), CPUError>) where
        F1: FnOnce(&CPU<I, O>) + Copy,
        F2: FnOnce(&CPU<I, O>) + Copy,

        requires
            forall|cpu: &CPU<I, O>| #[trigger] call_requires(on_before_step, (cpu,)),
            forall|cpu: &CPU<I, O>| #[trigger] call_requires(on_after_step, (cpu,)),
        ensures
            final(self).input_hook() == old(self).input_hook(),
            final(self).output_hook() == old(self).output_hook(),
            exists|ios: Seq<StepIo>| #[trigger]
                may_run(
                    old(self).input_hook(),
                    old(self).output_hook(),
                    old(self)@,
                    limit as nat,
                    ios,
                ) && result == run_trace(old(self)@, ios).result && final(self)@ == run_trace(
                    old(self)@,
                    ios,
                ).state && watched(
                    on_before_step,
                    on_after_step,
                    old(self).input_hook(),
                    old(self).output_hook(),
                    old(self)@,
                    ios,
                ),
    {
        let ghost pre = self@;
        let ghost input = self.input_hook();
        let ghost output = self.output_hook();
        let ghost mut ios = Seq::<StepIo>::empty();
        let mut steps: u64 = 0;
        while !self.is_halted && steps < limit
            invariant
                forall|cpu: &CPU<I, O>| #[trigger] call_requires(on_before_step, (cpu,)),
                forall|cpu: &CPU<I, O>| #[trigger] call_requires(on_after_step, (cpu,)),
                steps <= limit,
                ios.len() == steps,
                pre == old(self)@,
                input == old(self).input_hook(),
                output == old(self).output_hook(),
                self.input_hook() == input,
                self.output_hook() == output,
                may_take(input, output, pre, ios),
                watched(on_before_step, on_after_step, input, output, pre, ios),
                run_trace(pre, ios) == (Outcome { result: Ok(()), state: self@ }),
            decreases limit - steps,
        {
            let ghost before = self@;
            let ghost taken = ios;
            on_before_step(self);
            proof {
                // the machine itself shows that the observer saw this state
                let cpu = *self;
                assert(call_ensures(on_before_step, (&cpu,), ()));
                assert(observed(on_before_step, input, output, before));
            }
            let result = self.run_step();
            proof {
                let io = choose|io: StepIo| #[trigger]
                    may_observe(input, output, before, io) && result == step(before, io).result
                        && self@ == step(before, io).state;
                ios = ios.push(io);
                lemma_may_take_push(input, output, pre, taken, io);
                lemma_run_trace_push(pre, taken, io);
            }
            match result {
                Err(fault) => {
                    proof {
                        lemma_watched_push(
                            on_before_step,
                            on_after_step,
                            input,
                            output,
                            pre,
                            taken,
                            ios.last(),
                        );
                    }
                    assert(may_run(input, output, pre, limit as nat, ios));
                    return Err(fault);
                },
                Ok(_) => {},
            }
            on_after_step(self);
            proof {
                let cpu = *self;
                assert(call_ensures(on_after_step, (&cpu,), ()));
                assert(observed(on_after_step, input, output, self@));
                lemma_watched_push(
                    on_before_step,
                    on_after_step,
                    input,
                    output,
                    pre,
                    taken,
                    ios.last(),
                );
            }
            steps += 1;
        }
        assert(may_run(input, output, pre, limit as nat, ios));
        Ok(())
    }
}

} // verus!
