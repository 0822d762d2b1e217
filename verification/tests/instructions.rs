use cpuem::instruction::{ArgType, Argument, CPUMutation, Instruction, InstructionAction};
use cpuem::instruction_parser::{DefaultInstructionParser, InstructionParser};
use cpuem::memory::Memory;
use cpuem::register::Register;
use cpuem::CPU;
use std::collections::HashMap;

#[test]
fn new_instruction_keeps_its_name() {
    let i = Instruction::new(
        "NUM",
        vec![ArgType::Register, ArgType::Constant],
        InstructionAction::LoadConstant,
    );
    assert_eq!(i.name, "NUM");
    assert_eq!(i.name(), "NUM");
}

#[test]
fn parse_args_decodes_in_order_and_advances() {
    let mut memory = Memory::new(|_| None, |_, _| None);
    memory.write(0x10, 0x03);
    memory.write(0x11, 0x2a);
    let i = Instruction::new(
        "NUM",
        vec![ArgType::Register, ArgType::Constant],
        InstructionAction::LoadConstant,
    );
    let parsed = i.parse_args(&memory, 0x10);
    assert_eq!(
        parsed,
        Some((
            vec![Argument::Register(Register::D), Argument::Constant(0x2a)],
            0x12
        ))
    );
}

#[test]
fn parse_args_of_no_operands_reads_nothing() {
    let memory = Memory::new(|_| -> Option<u8> { panic!("no read expected") }, |_, _| None);
    let i = Instruction::new("HLT", vec![], InstructionAction::Halt);
    assert_eq!(i.parse_args(&memory, 0x40), Some((vec![], 0x40)));
}

#[test]
fn parse_args_fails_on_a_bad_register() {
    let mut memory = Memory::new(|_| None, |_, _| None);
    memory.write(0x10, 0x05);
    memory.write(0x11, 0x01);
    let i = Instruction::new(
        "MOV",
        vec![ArgType::Register, ArgType::Register],
        InstructionAction::Move,
    );
    assert_eq!(i.parse_args(&memory, 0x10), None);
}

#[test]
fn parse_args_fails_on_a_bad_second_register() {
    let mut memory = Memory::new(|_| None, |_, _| None);
    memory.write(0x10, 0x01);
    memory.write(0x11, 0x07);
    let i = Instruction::new(
        "MOV",
        vec![ArgType::Register, ArgType::Register],
        InstructionAction::Move,
    );
    assert_eq!(i.parse_args(&memory, 0x10), None);
}

#[test]
fn parse_args_stops_reading_at_the_first_failure() {
    let memory = Memory::new(
        |adr| {
            if adr == 0x10 {
                Some(0x05)
            } else {
                panic!("read after the failing operand")
            }
        },
        |_, _| None,
    );
    let i = Instruction::new(
        "MOV",
        vec![ArgType::Register, ArgType::Register],
        InstructionAction::Move,
    );
    assert_eq!(i.parse_args(&memory, 0x10), None);
}

#[test]
fn parse_args_wraps_around_the_address_space() {
    let mut memory = Memory::new(|_| None, |_, _| None);
    memory.write(0xff, 0x02);
    memory.write(0x00, 0x99);
    let i = Instruction::new(
        "NUM",
        vec![ArgType::Register, ArgType::Constant],
        InstructionAction::LoadConstant,
    );
    assert_eq!(
        i.parse_args(&memory, 0xff),
        Some((
            vec![Argument::Register(Register::C), Argument::Constant(0x99)],
            0x01
        ))
    );
}

#[test]
fn parse_args_reads_through_the_input_hook() {
    let memory = Memory::new(|adr| if adr == 0x21 { Some(0x77) } else { None }, |_, _| None);
    let i = Instruction::new(
        "NUM",
        vec![ArgType::Register, ArgType::Constant],
        InstructionAction::LoadConstant,
    );
    assert_eq!(
        i.parse_args(&memory, 0x20),
        Some((
            vec![Argument::Register(Register::A), Argument::Constant(0x77)],
            0x22
        ))
    );
}

#[test]
fn run_num_asks_for_a_register_write() {
    let cpu = CPU::new(|_| None, |_, _| None);
    let i = Instruction::new(
        "NUM",
        vec![ArgType::Register, ArgType::Constant],
        InstructionAction::LoadConstant,
    );
    let mutations = i.run(
        &cpu,
        vec![Argument::Register(Register::C), Argument::Constant(9)],
    );
    assert_eq!(mutations, vec![CPUMutation::WriteRegister(Register::C, 9)]);
}

#[test]
fn run_mov_reads_the_source_from_the_snapshot() {
    let mut cpu = CPU::new(|_| None, |_, _| None);
    cpu.write_register(Register::B, 0x31);
    let i = Instruction::new(
        "MOV",
        vec![ArgType::Register, ArgType::Register],
        InstructionAction::Move,
    );
    let mutations = i.run(
        &cpu,
        vec![Argument::Register(Register::A), Argument::Register(Register::B)],
    );
    assert_eq!(mutations, vec![CPUMutation::WriteRegister(Register::A, 0x31)]);
    // computing the mutations changed nothing
    assert_eq!(cpu.read_register(Register::A), 0);
    assert_eq!(cpu.read_register(Register::B), 0x31);
}

#[test]
fn run_add_and_sub_wrap() {
    let mut cpu = CPU::new(|_| None, |_, _| None);
    cpu.write_register(Register::A, 200);
    cpu.write_register(Register::B, 100);
    let add = Instruction::new(
        "ADD",
        vec![ArgType::Register, ArgType::Register],
        InstructionAction::Add,
    );
    let sub = Instruction::new(
        "SUB",
        vec![ArgType::Register, ArgType::Register],
        InstructionAction::Subtract,
    );
    let args = vec![Argument::Register(Register::A), Argument::Register(Register::B)];
    assert_eq!(
        add.run(&cpu, args.clone()),
        vec![CPUMutation::WriteRegister(Register::A, 44)]
    );
    assert_eq!(
        sub.run(&cpu, args),
        vec![CPUMutation::WriteRegister(Register::A, 100)]
    );
    let swapped = vec![Argument::Register(Register::B), Argument::Register(Register::A)];
    assert_eq!(
        sub.run(&cpu, swapped),
        vec![CPUMutation::WriteRegister(Register::B, 156)]
    );
}

#[test]
fn run_set_asks_for_a_memory_write() {
    let mut cpu = CPU::new(|_| None, |_, _| None);
    cpu.write_register(Register::D, 0x5c);
    let set = Instruction::new(
        "SET",
        vec![ArgType::Constant, ArgType::Register],
        InstructionAction::Store,
    );
    let mutations = set.run(
        &cpu,
        vec![Argument::Constant(0xef), Argument::Register(Register::D)],
    );
    assert_eq!(
        mutations,
        vec![CPUMutation::WriteMemory {
            adr: 0xef,
            value: 0x5c
        }]
    );
    assert_eq!(cpu.ram.read(0xef), 0);
}

#[test]
fn run_hlt_asks_for_a_halt() {
    let cpu = CPU::new(|_| None, |_, _| None);
    let hlt = Instruction::new("HLT", vec![], InstructionAction::Halt);
    assert_eq!(hlt.run(&cpu, vec![]), vec![CPUMutation::Halt]);
    assert!(!cpu.is_halted());
}

#[test]
fn default_parser_knows_the_six_opcodes() {
    let parser = DefaultInstructionParser::new();
    let expected = [
        (0x00u8, "NUM"),
        (0x01, "MOV"),
        (0x02, "ADD"),
        (0x03, "SUB"),
        (0x30, "SET"),
        (0xff, "HLT"),
    ];
    for (opcode, name) in expected {
        let found = parser.lookup(opcode);
        assert!(found.is_some());
        assert_eq!(found.unwrap().name, name);
    }
}

#[test]
fn default_parser_knows_no_other_opcode() {
    let parser = DefaultInstructionParser::new();
    for opcode in 0..=255u8 {
        let known = matches!(opcode, 0x00 | 0x01 | 0x02 | 0x03 | 0x30 | 0xff);
        assert_eq!(parser.lookup(opcode).is_some(), known);
    }
}

#[test]
fn default_parser_signatures_match_the_table() {
    let parser = DefaultInstructionParser::new();
    let mut memory = Memory::new(|_| None, |_, _| None);
    // register byte 0x01 and constant byte 0x05: SET takes the 0x05 as a constant, the
    // register-first instructions take 0x01 as a register
    memory.write(0x00, 0x01);
    memory.write(0x01, 0x05);
    memory.write(0x10, 0x05);
    memory.write(0x11, 0x01);
    let num = parser.lookup(0x00).unwrap();
    assert_eq!(
        num.parse_args(&memory, 0x00),
        Some((
            vec![Argument::Register(Register::B), Argument::Constant(0x05)],
            0x02
        ))
    );
    for opcode in [0x01u8, 0x02, 0x03] {
        let i = parser.lookup(opcode).unwrap();
        assert_eq!(i.parse_args(&memory, 0x00), None);
        assert_eq!(i.parse_args(&memory, 0x10), None);
    }
    let set = parser.lookup(0x30).unwrap();
    assert_eq!(
        set.parse_args(&memory, 0x10),
        Some((
            vec![Argument::Constant(0x05), Argument::Register(Register::B)],
            0x12
        ))
    );
    let hlt = parser.lookup(0xff).unwrap();
    assert_eq!(hlt.parse_args(&memory, 0x10), Some((vec![], 0x10)));
}

#[test]
fn parser_parse_returns_instruction_and_next_address() {
    let parser = DefaultInstructionParser::new();
    let mut memory = Memory::new(|_| None, |_, _| None);
    memory.write(0x20, 0x30);
    let fetched = parser.parse(&memory, 0x20);
    assert!(fetched.is_some());
    let (instruction, next) = fetched.unwrap();
    assert_eq!(instruction.name, "SET");
    assert_eq!(next, 0x21);
}

#[test]
fn parser_parse_misses_an_unknown_opcode() {
    let parser = DefaultInstructionParser::new();
    let mut memory = Memory::new(|_| None, |_, _| None);
    memory.write(0x20, 0x99);
    assert!(parser.parse(&memory, 0x20).is_none());
}

#[test]
fn parser_parse_wraps_the_next_address() {
    let parser = DefaultInstructionParser::new();
    let mut memory = Memory::new(|_| None, |_, _| None);
    memory.write(0xff, 0xff);
    let (instruction, next) = parser.parse(&memory, 0xff).unwrap();
    assert_eq!(instruction.name, "HLT");
    assert_eq!(next, 0x00);
}

#[test]
fn add_instruction_enters_and_replaces() {
    let mut table: HashMap<u8, Instruction> = HashMap::new();
    DefaultInstructionParser::add_instruction(
        &mut table,
        0x10,
        "ONE",
        vec![ArgType::Constant],
        InstructionAction::Halt,
    );
    assert_eq!(table.len(), 1);
    assert_eq!(table.get(&0x10).unwrap().name, "ONE");
    DefaultInstructionParser::add_instruction(
        &mut table,
        0x10,
        "TWO",
        vec![],
        InstructionAction::Halt,
    );
    assert_eq!(table.len(), 1);
    assert_eq!(table.get(&0x10).unwrap().name, "TWO");
}
