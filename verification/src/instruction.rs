//! Instructions: their operands, their effects as deferred mutations, and
//! how operands are decoded from memory.

use crate::common::{advance, byte_add, byte_sub, wrapping_difference, wrapping_sum, Byte, ToBytes};
use crate::memory::{may_read, Memory};
use crate::register::Register;
use crate::state::Registers;
use crate::CPU;
use vstd::pervasive::unreached;
use vstd::prelude::*;

verus! {

/// An effect that an instruction asks for and the execution loop applies later.
#[derive(Debug, Clone, Copy, Eq, PartialEq, Structural)]
pub enum CPUMutation {
    /// Set a register to a value.
    WriteRegister(Register, Byte),
    /// Write a value to a memory address, through the output hook.
    WriteMemory { adr: Byte, value: Byte },
    /// Set the halted flag.
    Halt,
}

/// The type of an operand in an instruction's signature.
#[derive(Eq, PartialEq, Debug, Clone, Copy, Structural)]
pub enum ArgType {
    /// A raw byte; every byte is one.
    Constant,
    /// A register, by its wire code.
    Register,
}

/// A decoded operand.
#[derive(Eq, PartialEq, Debug, Clone, Copy, Structural)]
pub enum Argument {
    Constant(Byte),
    Register(Register),
}

impl ArgType {
    /// The operand that byte `b` decodes to under this type. A constant is the
    /// byte itself; a register must be one of the six register codes.
    pub open spec fn decode(self, b: Byte) -> Option<Argument> {
        match self {
            ArgType::Constant => Some(Argument::Constant(b)),
            ArgType::Register => match Register::decode(b) {
                Some(r) => Some(Argument::Register(r)),
                None => None,
            },
        }
    }

    /// Decodes byte `b` as an operand of this type.
    pub fn parse(&self, b: Byte) -> (argument: Option<Argument>)
        ensures
            argument == self.decode(b),
    {
        match self {
            ArgType::Constant => Some(Argument::Constant(b)),
            ArgType::Register => match Register::from_byte(b) {
                Some(r) => Some(Argument::Register(r)),
                None => None,
            },
        }
    }

    /// A constant operand always decodes; a register operand decodes exactly
    /// for the six register codes. What decodes has the type it was decoded
    /// as and encodes back to the byte it came from.
    pub proof fn lemma_decode(self, b: Byte)
        ensures
            self == ArgType::Constant ==> self.decode(b) == Some(Argument::Constant(b)),
            self == ArgType::Register ==> (self.decode(b) is Some <==> Register::decode(b) is Some),
            self.decode(b) matches Some(argument) ==> argument.kind() == self
                && argument.encoding() == seq![b],
    {
    }
}

impl Argument {
    /// The operand type that this operand belongs to.
    pub open spec fn kind(self) -> ArgType {
        match self {
            Argument::Constant(_) => ArgType::Constant,
            Argument::Register(_) => ArgType::Register,
        }
    }
}

impl ToBytes for Argument {
    open spec fn encoding(self) -> Seq<Byte> {
        match self {
            Argument::Constant(b) => seq![b],
            Argument::Register(r) => r.encoding(),
        }
    }

    fn to_bytes(self) -> (bytes: Vec<Byte>) {
        match self {
            Argument::Constant(b) => vec![b],
            Argument::Register(r) => r.to_bytes(),
        }
    }
}

/// What an instruction does. The set is closed: these six and no others.
#[derive(Eq, PartialEq, Debug, Clone, Copy, Structural)]
pub enum InstructionAction {
    /// Write a constant to a register.
    LoadConstant,
    /// Copy one register to another.
    Move,
    /// Add a register to another, wrapping.
    Add,
    /// Subtract a register from another, wrapping.
    Subtract,
    /// Write a register to a memory address.
    Store,
    /// Halt the machine.
    Halt,
}

impl InstructionAction {
    /// The operands that the action reads, in order.
    pub open spec fn signature(self) -> Seq<ArgType> {
        match self {
            InstructionAction::LoadConstant => seq![ArgType::Register, ArgType::Constant],
            InstructionAction::Move => seq![ArgType::Register, ArgType::Register],
            InstructionAction::Add => seq![ArgType::Register, ArgType::Register],
            InstructionAction::Subtract => seq![ArgType::Register, ArgType::Register],
            InstructionAction::Store => seq![ArgType::Constant, ArgType::Register],
            InstructionAction::Halt => seq![],
        }
    }

    /// The action can work on `args`: they begin with operands of the types
    /// in its signature.
    pub open spec fn accepts(self, args: Seq<Argument>) -> bool {
        &&& self.signature().len() <= args.len()
        &&& forall|i: int|
            0 <= i < self.signature().len() ==> (#[trigger] args[i]).kind() == self.signature()[i]
    }

    /// The mutations that the action asks for, computed from the register
    /// values `registers` and the operands. Registers are read from
    /// `registers` only: no mutation of the list is visible to another.
    pub open spec fn effects(self, registers: Registers, args: Seq<Argument>) -> Seq<CPUMutation> {
        match self {
            InstructionAction::LoadConstant => match (args[0], args[1]) {
                (Argument::Register(r), Argument::Constant(value)) => seq![
                    CPUMutation::WriteRegister(r, value),
                ],
                _ => seq![],
            },
            InstructionAction::Move => match (args[0], args[1]) {
                (Argument::Register(dst), Argument::Register(src)) => seq![
                    CPUMutation::WriteRegister(dst, registers.get(src)),
                ],
                _ => seq![],
            },
            InstructionAction::Add => match (args[0], args[1]) {
                (Argument::Register(dst), Argument::Register(src)) => seq![
                    CPUMutation::WriteRegister(
                        dst,
                        wrapping_sum(registers.get(dst), registers.get(src)),
                    ),
                ],
                _ => seq![],
            },
            InstructionAction::Subtract => match (args[0], args[1]) {
                (Argument::Register(dst), Argument::Register(src)) => seq![
                    CPUMutation::WriteRegister(
                        dst,
                        wrapping_difference(registers.get(dst), registers.get(src)),
                    ),
                ],
                _ => seq![],
            },
            InstructionAction::Store => match (args[0], args[1]) {
                (Argument::Constant(adr), Argument::Register(src)) => seq![
                    CPUMutation::WriteMemory { adr, value: registers.get(src) },
                ],
                _ => seq![],
            },
            InstructionAction::Halt => seq![CPUMutation::Halt],
        }
    }
}

/// `bytes` are operand bytes as decoding reads them for `signature`: one
/// byte for each operand in turn, and none after the first that does not
/// decode.
pub open spec fn is_transcript(signature: Seq<ArgType>, bytes: Seq<Byte>) -> bool {
    &&& bytes.len() <= signature.len()
    &&& forall|i: int|
        0 <= i < bytes.len() - 1 ==> (#[trigger] signature[i].decode(bytes[i])) is Some
    &&& bytes.len() < signature.len() ==> bytes.len() > 0 && signature[bytes.len() - 1].decode(
        bytes.last(),
    ) is None
}

/// The operands that `bytes` decode to under `signature`: all of them where
/// there is a byte for each operand and each decodes, none at all otherwise.
pub open spec fn decode_operands(signature: Seq<ArgType>, bytes: Seq<Byte>) -> Option<
    Seq<Argument>,
> {
    if bytes.len() == signature.len() && forall|i: int|
        0 <= i < signature.len() ==> (#[trigger] signature[i].decode(bytes[i])) is Some {
        Some(Seq::new(signature.len(), |i: int| signature[i].decode(bytes[i])->0))
    } else {
        None
    }
}

/// Decoding `signature` from address `ip` on may read `bytes`: they are a
/// transcript for the signature, and each is a value that a read at its
/// address may return.
pub open spec fn may_read_operands<I: Fn(Byte) -> Option<Byte>>(
    input: I,
    cells: Seq<Byte>,
    ip: Byte,
    signature: Seq<ArgType>,
    bytes: Seq<Byte>,
) -> bool {
    &&& is_transcript(signature, bytes)
    &&& forall|i: int|
        0 <= i < bytes.len() ==> may_read(input, cells, advance(ip, i), #[trigger] bytes[i])
}

/// Operands that were decoded have the types of the signature, in order.
pub proof fn lemma_decoded_operands_fit(signature: Seq<ArgType>, bytes: Seq<Byte>)
    requires
        decode_operands(signature, bytes) is Some,
    ensures
        decode_operands(signature, bytes)->0.len() == signature.len(),
        forall|i: int|
            0 <= i < signature.len() ==> (#[trigger] decode_operands(signature, bytes)->0[i]).kind()
                == signature[i],
{
    let args = decode_operands(signature, bytes)->0;
    assert forall|i: int| 0 <= i < signature.len() implies (#[trigger] args[i]).kind()
        == signature[i] by {
        signature[i].lemma_decode(bytes[i]);
    }
}

/// Decoding fails exactly when some operand's byte is missing or does not
/// decode; a constant never fails, so the first failure is at a register
/// operand whose byte is no register code.
pub proof fn lemma_decode_failure(signature: Seq<ArgType>, bytes: Seq<Byte>)
    requires
        is_transcript(signature, bytes),
    ensures
        decode_operands(signature, bytes) is None <==> bytes.len() > 0 && signature[bytes.len()
            - 1].decode(bytes.last()) is None,
        decode_operands(signature, bytes) is None ==> signature[bytes.len() - 1]
            == ArgType::Register && Register::decode(bytes.last()) is None,
        decode_operands(signature, bytes) is Some ==> bytes.len() == signature.len(),
{
    if !(bytes.len() > 0 && signature[bytes.len() - 1].decode(bytes.last()) is None) {
        assert forall|i: int| 0 <= i < signature.len() implies (#[trigger] signature[i].decode(
            bytes[i],
        )) is Some by {
            // every byte but the last decodes in a transcript, and here the last does too
            if i == bytes.len() - 1 {
                assert(bytes[i] == bytes.last());
            }
        }
    }
}

/// An instruction as a mathematical value: its mnemonic, the operands it
/// takes and what it does.
#[verifier::ext_equal]
pub struct InstructionDef {
    pub name: &'static str,
    pub signature: Seq<ArgType>,
    pub action: InstructionAction,
}

impl InstructionDef {
    /// The operands that are decoded for the instruction are those that its
    /// action reads.
    pub open spec fn consistent(self) -> bool {
        self.signature == self.action.signature()
    }
}

/// An instruction definition: a mnemonic, an operand signature and an action.
pub struct Instruction {
    pub name: &'static str,
    arg_types: Vec<ArgType>,
    action: InstructionAction,
}

impl View for Instruction {
    type V = InstructionDef;

    closed spec fn view(&self) -> InstructionDef {
        InstructionDef { name: self.name, signature: self.arg_types@, action: self.action }
    }
}

impl Instruction {
    /// The instruction with this mnemonic, operand signature and action.
    pub fn new(name: &'static str, arg_types: Vec<ArgType>, action: InstructionAction) -> (instruction:
        Instruction)
        ensures
            instruction@ == (InstructionDef { name, signature: arg_types@, action }),
    {
        Instruction { name, arg_types, action }
    }

    /// The mnemonic of the instruction.
    pub fn name(&self) -> (name: &'static str)
        ensures
            name == self@.name,
    {
        self.name
    }

    /// Decodes the operands of the instruction from the bytes at `ip` and
    /// after. Returns them with the address after the last operand, or
    /// nothing as soon as one operand does not decode; bytes after that one
    /// are not read.
    pub fn parse_args<I: Fn(Byte) -> Option<Byte>, O: Fn(Byte, Byte) -> Option<()>>(
        &self,
        memory: &Memory<I, O>,
        ip: Byte,
    ) -> (parsed: Option<(Vec<Argument>, Byte)>)
        ensures
            exists|bytes: Seq<Byte>| #[trigger]
                may_read_operands(memory.input_hook(), memory@, ip, self@.signature, bytes)
                    && match parsed {
                    Some((args, next)) => decode_operands(self@.signature, bytes) == Some(args@)
                        && next == advance(ip, self@.signature.len() as int),
                    None => decode_operands(self@.signature, bytes) is None,
                },
    {
        let ghost signature = self@.signature;
        let ghost input = memory.input_hook();
        let ghost cells = memory@;
        let ghost mut bytes: Seq<Byte> = Seq::empty();
        let mut args: Vec<Argument> = Vec::new();
        let mut at: Byte = ip;
        let mut k: usize = 0;
        while k < self.arg_types.len()
            invariant
                signature == self@.signature,
                signature == self.arg_types@,
                input == memory.input_hook(),
                cells == memory@,
                k <= signature.len(),
                args@.len() == k,
                bytes.len() == k,
                at == advance(ip, k as int),
                forall|i: int|
                    0 <= i < k ==> may_read(input, cells, advance(ip, i), #[trigger] bytes[i]),
                forall|i: int|
                    0 <= i < k ==> (#[trigger] signature[i].decode(bytes[i])) == Some(args@[i]),
            decreases signature.len() - k,
        {
            let b = memory.read(at);
            proof {
                bytes = bytes.push(b);
            }
            match self.arg_types[k].parse(b) {
                None => {
                    assert(may_read_operands(input, cells, ip, signature, bytes));
                    return None;
                },
                Some(arg) => {
                    args.push(arg);
                },
            }
            at = byte_add(at, 1);
            k += 1;
        }
        assert(may_read_operands(input, cells, ip, signature, bytes));
        assert(decode_operands(signature, bytes)->0 =~= args@);
        Some((args, at))
    }

    /// Computes what the instruction does to `cpu`, without doing it: the
    /// registers of `cpu` are read, nothing is written.
    pub fn run<I: Fn(Byte) -> Option<Byte>, O: Fn(Byte, Byte) -> Option<()>>(
        &self,
        cpu: &CPU<I, O>,
        args: Vec<Argument>,
    ) -> (mutations: Vec<CPUMutation>)
        requires
            self@.action.accepts(args@),
        ensures
            mutations@ == self@.action.effects(cpu.registers(), args@),
    {
        match self.action {
            InstructionAction::LoadConstant => match (args[0], args[1]) {
                (Argument::Register(r), Argument::Constant(value)) => vec![
                    CPUMutation::WriteRegister(r, value),
                ],
                _ => unreached(),
            },
            InstructionAction::Move => match (args[0], args[1]) {
                (Argument::Register(dst), Argument::Register(src)) => vec![
                    CPUMutation::WriteRegister(dst, cpu.read_register(src)),
                ],
                _ => unreached(),
            },
            InstructionAction::Add => match (args[0], args[1]) {
                (Argument::Register(dst), Argument::Register(src)) => {
                    let value = byte_add(cpu.read_register(dst), cpu.read_register(src));
                    vec![CPUMutation::WriteRegister(dst, value)]
                },
                _ => unreached(),
            },
            InstructionAction::Subtract => match (args[0], args[1]) {
                (Argument::Register(dst), Argument::Register(src)) => {
                    let value = byte_sub(cpu.read_register(dst), cpu.read_register(src));
                    vec![CPUMutation::WriteRegister(dst, value)]
                },
                _ => unreached(),
            },
            InstructionAction::Store => match (args[0], args[1]) {
                (Argument::Constant(adr), Argument::Register(src)) => {
                    let value = cpu.read_register(src);
                    vec![CPUMutation::WriteMemory { adr, value }]
                },
                _ => unreached(),
            },
            InstructionAction::Halt => vec![CPUMutation::Halt],
        }
    }
}

} // verus!
