use cpuem::register::Register;
use cpuem::{CPUError, CPU};
use std::cell::RefCell;
use std::rc::Rc;

#[test]
fn scenario_num_then_hlt_runs_to_completion() {
    let mut cpu = CPU::new(|_| None, |_, _| None);
    cpu.fill_ram(&[0x00, 0x01, 0xff]);
    let result = cpu.run(u64::MAX);
    assert!(result.is_ok());
    assert_eq!(cpu.read_register(Register::A), 1);
    assert!(cpu.is_halted());
}

#[test]
fn scenario_num_then_hlt_first_step() {
    // the three bytes are one instruction: opcode 0x00, register 0x01, constant 0xff
    let mut cpu = CPU::new(|_| None, |_, _| None);
    cpu.fill_ram(&[0x00, 0x01, 0xff]);
    assert!(cpu.run_step().is_ok());
    assert_eq!(cpu.read_register(Register::B), 0xff);
    assert_eq!(cpu.read_register(Register::IP), 3);
    assert!(!cpu.is_halted());
}

#[test]
fn scenario_num_then_hlt_halts_after_wrapping_around() {
    // zeroed memory decodes as NUM A,0 until the instruction pointer wraps to 255, where
    // the operands are the first two program bytes; the third is then the HLT
    let steps: Rc<RefCell<u32>> = Rc::new(RefCell::new(0));
    let mut cpu = CPU::new(|_| None, |_, _| None);
    cpu.fill_ram(&[0x00, 0x01, 0xff]);
    let result = cpu.run_with_debug(u64::MAX, |_| *steps.borrow_mut() += 1, |_| {});
    assert!(result.is_ok());
    assert_eq!(*steps.borrow(), 87);
    assert_eq!(cpu.read_register(Register::A), 1);
    assert_eq!(cpu.read_register(Register::B), 0xff);
    assert_eq!(cpu.read_register(Register::IP), 3);
    assert!(cpu.is_halted());
}

#[test]
fn scenario_set_with_intercepting_output_hook() {
    let seen: Rc<RefCell<Vec<(u8, u8)>>> = Rc::new(RefCell::new(Vec::new()));
    let log = seen.clone();
    let mut cpu = CPU::new(
        |_| None,
        move |adr, value| {
            if adr == 0xef {
                log.borrow_mut().push((adr, value));
                Some(())
            } else {
                None
            }
        },
    );
    cpu.fill_ram(&[0x30, 0xef, 0x01, 0xff]);
    let value_of_b = cpu.read_register(Register::B);
    let cell_before = cpu.ram.read(0xef);
    let result = cpu.run(u64::MAX);
    assert!(result.is_ok());
    assert!(cpu.is_halted());
    assert_eq!(*seen.borrow(), vec![(0xef, value_of_b)]);
    assert_eq!(cpu.ram.read(0xef), cell_before);
    assert_eq!(cpu.read_register(Register::IP), 4);
}

#[test]
fn scenario_set_observes_a_loaded_register() {
    let seen: Rc<RefCell<Vec<(u8, u8)>>> = Rc::new(RefCell::new(Vec::new()));
    let log = seen.clone();
    let mut cpu = CPU::new(
        |_| None,
        move |adr, value| {
            if adr == 0xef {
                log.borrow_mut().push((adr, value));
                Some(())
            } else {
                None
            }
        },
    );
    cpu.fill_ram(&[0x00, 0x01, 0xff, 0x30, 0xef, 0x01, 0xff]);
    assert!(cpu.run(u64::MAX).is_ok());
    assert!(cpu.is_halted());
    assert_eq!(*seen.borrow(), vec![(0xef, 0xff)]);
    assert_eq!(cpu.ram.read(0xef), 0);
    assert_eq!(cpu.read_register(Register::IP), 7);
}

#[test]
fn scenario_opcode_0x99_is_invalid() {
    let mut cpu = CPU::new(|_| None, |_, _| None);
    cpu.fill_ram(&[0x00, 0x02, 0x11, 0x99]);
    assert!(cpu.run_step().is_ok());
    let before: Vec<u8> = [
        Register::A,
        Register::B,
        Register::C,
        Register::D,
        Register::IP,
        Register::SP,
    ]
    .iter()
    .map(|r| cpu.read_register(*r))
    .collect();
    let result = cpu.run(u64::MAX);
    match result {
        Err(CPUError::InvalidOpcode { adr, opcode }) => {
            assert_eq!(adr, 3);
            assert_eq!(opcode, 0x99);
        }
        _ => panic!("expected InvalidOpcode"),
    }
    let after: Vec<u8> = [
        Register::A,
        Register::B,
        Register::C,
        Register::D,
        Register::IP,
        Register::SP,
    ]
    .iter()
    .map(|r| cpu.read_register(*r))
    .collect();
    assert_eq!(before, after);
    assert_eq!(before, vec![0, 0, 0x11, 0, 3, 0xd0]);
    assert!(!cpu.is_halted());
}

#[test]
fn scenario_register_operand_0x05_is_invalid() {
    let mut cpu = CPU::new(|_| None, |_, _| None);
    cpu.fill_ram(&[0xff, 0x00, 0x05, 0x01]);
    cpu.write_register(Register::IP, 1);
    let result = cpu.run_step();
    match result {
        Err(CPUError::InvalidArgument { instruction, adr }) => {
            assert_eq!(instruction, "NUM");
            assert_eq!(adr, 1);
        }
        _ => panic!("expected InvalidArgument"),
    }
    assert_eq!(cpu.read_register(Register::IP), 1);
}

#[test]
fn scenario_register_operand_0x05_fails_in_every_register_position() {
    let programs: [(&[u8], &str); 7] = [
        (&[0x00, 0x05, 0x00], "NUM"),
        (&[0x01, 0x05, 0x00], "MOV"),
        (&[0x01, 0x00, 0x05], "MOV"),
        (&[0x02, 0x05, 0x00], "ADD"),
        (&[0x02, 0x00, 0x05], "ADD"),
        (&[0x03, 0x00, 0x05], "SUB"),
        (&[0x30, 0x00, 0x05], "SET"),
    ];
    for (program, name) in programs {
        let mut cpu = CPU::new(|_| None, |_, _| None);
        cpu.fill_ram(program);
        match cpu.run_step() {
            Err(CPUError::InvalidArgument { instruction, adr }) => {
                assert_eq!(instruction, name);
                assert_eq!(adr, 0);
            }
            _ => panic!("expected InvalidArgument"),
        }
    }
}

#[test]
fn scenario_loading_256_bytes() {
    let program: Vec<u8> = (0..=255u8).rev().collect();
    let mut cpu = CPU::new(|_| None, |_, _| None);
    cpu.fill_ram(&program);
    for adr in 0..=255u8 {
        assert_eq!(cpu.ram.read(adr), 255 - adr);
    }
    assert_eq!(cpu.read_register(Register::IP), 0);
    assert!(!cpu.is_halted());
}
