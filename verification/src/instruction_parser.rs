//! The fixed opcode table and the parser that dispatches on it.

use crate::common::{advance, byte_add, Byte};
use crate::instruction::{ArgType, Argument, Instruction, InstructionAction, InstructionDef};
use crate::memory::{may_read, Memory};
use std::collections::HashMap;
use vstd::prelude::*;

verus! {

/// The instruction with mnemonic `name` that performs `action` on the
/// operands that `action` reads.
pub open spec fn definition(name: &'static str, action: InstructionAction) -> InstructionDef {
    InstructionDef { name, signature: action.signature(), action }
}

/// The opcode table: the instruction that each opcode byte selects. Six
/// opcodes select one; every other byte selects none.
pub open spec fn opcode_table(opcode: Byte) -> Option<InstructionDef> {
    if opcode == 0x00 {
        Some(definition("NUM", InstructionAction::LoadConstant))
    } else if opcode == 0x01 {
        Some(definition("MOV", InstructionAction::Move))
    } else if opcode == 0x02 {
        Some(definition("ADD", InstructionAction::Add))
    } else if opcode == 0x03 {
        Some(definition("SUB", InstructionAction::Subtract))
    } else if opcode == 0x30 {
        Some(definition("SET", InstructionAction::Store))
    } else if opcode == 0xff {
        Some(definition("HLT", InstructionAction::Halt))
    } else {
        None
    }
}

/// Every instruction of the opcode table decodes exactly the operands that
/// its action reads, so what was decoded for it can always be performed.
pub proof fn lemma_table_consistent(opcode: Byte, args: Seq<Argument>)
    requires
        opcode_table(opcode) is Some,
    ensures
        opcode_table(opcode)->0.consistent(),
        (args.len() == opcode_table(opcode)->0.signature.len() && forall|i: int|
            0 <= i < args.len() ==> (#[trigger] args[i]).kind() == opcode_table(
                opcode,
            )->0.signature[i]) ==> opcode_table(opcode)->0.action.accepts(args),
{
}

/// Fetches the instruction at an address of a memory.
pub trait InstructionParser {
    /// The instruction that the parser knows under `opcode`, if any.
    spec fn entry(&self, opcode: Byte) -> Option<InstructionDef>;

    /// Reads the opcode at `ip` and looks it up. On a hit, returns the
    /// instruction and the address after the opcode, where its operands begin.
    fn parse<'a, I: Fn(Byte) -> Option<Byte>, O: Fn(Byte, Byte) -> Option<()>>(
        &'a self,
        memory: &Memory<I, O>,
        ip: Byte,
    ) -> (fetched: Option<(&'a Instruction, Byte)>)
        ensures
            exists|opcode: Byte| #[trigger]
                may_read(memory.input_hook(), memory@, ip, opcode) && match fetched {
                    Some((instruction, next)) => self.entry(opcode) == Some(instruction@) && next
                        == advance(ip, 1),
                    None => self.entry(opcode) is None,
                },
    ;
}

/// The parser of the machine's own instruction set. Its table is built once
/// and is the opcode table ever after.
pub struct DefaultInstructionParser {
    instructions: HashMap<Byte, Instruction>,
}

/// The instruction that `instructions` holds under `opcode`, if any.
pub open spec fn held(instructions: Map<Byte, Instruction>, opcode: Byte) -> Option<InstructionDef> {
    if instructions.contains_key(opcode) {
        Some(instructions[opcode]@)
    } else {
        None
    }
}

impl DefaultInstructionParser {
    /// The table holds the opcode table, no more and no less.
    #[verifier::type_invariant]
    spec fn holds_opcode_table(&self) -> bool {
        forall|opcode: Byte| #[trigger] held(self.instructions@, opcode) == opcode_table(opcode)
    }

    /// Builds the parser with the six instructions of the opcode table.
    pub fn new() -> (parser: DefaultInstructionParser)
        ensures
            forall|opcode: Byte| #[trigger] parser.entry(opcode) == opcode_table(opcode),
    {
        let mut instructions: HashMap<Byte, Instruction> = HashMap::new();
        Self::add_instruction(
            &mut instructions,
            0x00,
            "NUM",
            vec![ArgType::Register, ArgType::Constant],
            InstructionAction::LoadConstant,
        );
        Self::add_instruction(
            &mut instructions,
            0x01,
            "MOV",
            vec![ArgType::Register, ArgType::Register],
            InstructionAction::Move,
        );
        Self::add_instruction(
            &mut instructions,
            0x02,
            "ADD",
            vec![ArgType::Register, ArgType::Register],
            InstructionAction::Add,
        );
        Self::add_instruction(
            &mut instructions,
            0x03,
            "SUB",
            vec![ArgType::Register, ArgType::Register],
            InstructionAction::Subtract,
        );
        Self::add_instruction(&mut instructions, 0xff, "HLT", vec![], InstructionAction::Halt);
        Self::add_instruction(
            &mut instructions,
            0x30,
            "SET",
            vec![ArgType::Constant, ArgType::Register],
            InstructionAction::Store,
        );
        assert forall|opcode: Byte| #[trigger]
            held(instructions@, opcode) == opcode_table(opcode) by {}
        DefaultInstructionParser { instructions }
    }

    /// Enters the instruction made of `name`, `arg_types` and `action` under
    /// `opcode`, in place of what was there.
    pub fn add_instruction(
        instructions: &mut HashMap<Byte, Instruction>,
        opcode: u8,
        name: &'static str,
        arg_types: Vec<ArgType>,
        action: InstructionAction,
    )
        ensures
            held(final(instructions)@, opcode) == Some(
                InstructionDef { name, signature: arg_types@, action },
            ),
            forall|other: Byte|
                other != opcode ==> #[trigger] held(final(instructions)@, other) == held(
                    old(instructions)@,
                    other,
                ),
    {
        instructions.insert(opcode, Instruction::new(name, arg_types, action));
    }

    /// The instruction that `opcode` selects in the opcode table, if any.
    pub fn lookup(&self, opcode: Byte) -> (found: Option<&Instruction>)
        ensures
            self.entry(opcode) == opcode_table(opcode),
            match found {
                Some(instruction) => opcode_table(opcode) == Some(instruction@),
                None => opcode_table(opcode) is None,
            },
    {
        proof {
            use_type_invariant(self);
            assert(held(self.instructions@, opcode) == opcode_table(opcode));
        }
        self.instructions.get(&opcode)
    }
}

impl InstructionParser for DefaultInstructionParser {
    closed spec fn entry(&self, opcode: Byte) -> Option<InstructionDef> {
        held(self.instructions@, opcode)
    }

    fn parse<'a, I: Fn(Byte) -> Option<Byte>, O: Fn(Byte, Byte) -> Option<()>>(
        &'a self,
        memory: &Memory<I, O>,
        ip: Byte,
    ) -> (fetched: Option<(&'a Instruction, Byte)>)
        ensures
            exists|opcode: Byte| #[trigger]
                may_read(memory.input_hook(), memory@, ip, opcode) && match fetched {
                    Some((instruction, next)) => opcode_table(opcode) == Some(instruction@)
                        && next == advance(ip, 1),
                    None => opcode_table(opcode) is None,
                },
    {
        let instruction_byte = memory.read(ip);
        match self.lookup(instruction_byte) {
            Some(instruction) => Some((instruction, byte_add(ip, 1))),
            None => None,
        }
    }
}

} // verus!
