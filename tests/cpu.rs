use interesting_rust_codes::cpu::{
    find_entry, instruction_table, unknown_instruction, InstPat, Memory, Op, ADDI_PATTERN,
    ADD_PATTERN, AUIPC_PATTERN, CPU,
};

#[test]
fn test_decode() {
    let mut cpu = CPU::default();
    let mut memory = Memory::default();
    // addi x1, x0, 4
    let inst = 0x00400093;
    cpu.decode_run(inst, &mut memory).unwrap();
    assert_eq!(cpu.reg(1), 4);
    // add x4, x1, x1
    let inst = 0x00108233;
    cpu.decode_run(inst, &mut memory).unwrap();
    assert_eq!(cpu.reg(4), 8);
    // non-exist instruction so far
    let inst = 0x0000006f;
    assert!(cpu.decode_run(inst, &mut memory).is_err());
}

#[test]
fn default_machine_is_zeroed() {
    let cpu = CPU::default();
    assert_eq!(cpu.pc(), 0);
    for i in 0..32 {
        assert_eq!(cpu.reg(i), 0);
    }
}

#[test]
fn addi_then_add_advance_pc() {
    let mut cpu = CPU::default();
    let mut memory = Memory::default();
    assert_eq!(cpu.decode_run(0x00400093, &mut memory), Ok(()));
    assert_eq!(cpu.reg(1), 4);
    assert_eq!(cpu.pc(), 4);
    assert_eq!(cpu.decode_run(0x00108233, &mut memory), Ok(()));
    assert_eq!(cpu.reg(4), 8);
    assert_eq!(cpu.pc(), 8);
}

#[test]
fn unknown_word_reports_itself_and_keeps_registers() {
    let mut cpu = CPU::default();
    let mut memory = Memory::default();
    cpu.decode_run(0x00400093, &mut memory).unwrap();
    let before: Vec<u32> = (0..32).map(|i| cpu.reg(i)).collect();
    let r = cpu.decode_run(0x0000006f, &mut memory);
    assert_eq!(r, Err("Unknown instruction 0000006f".to_string()));
    let after: Vec<u32> = (0..32).map(|i| cpu.reg(i)).collect();
    assert_eq!(before, after);
    // the program counter still advanced before matching was tried
    assert_eq!(cpu.pc(), 8);
}

#[test]
fn unknown_message_uses_eight_hex_digits() {
    assert_eq!(unknown_instruction(0xdeadbeef), "Unknown instruction deadbeef");
    assert_eq!(unknown_instruction(0), "Unknown instruction 00000000");
    assert_eq!(unknown_instruction(0x00a0_0b0c), "Unknown instruction 00a00b0c");
}

#[test]
fn auipc_reads_advanced_pc() {
    let mut cpu = CPU::default();
    let mut memory = Memory::default();
    // auipc x5, 0x00001
    cpu.decode_run(0x00001297, &mut memory).unwrap();
    assert_eq!(cpu.pc(), 4);
    assert_eq!(cpu.reg(5), 4 + (0x00001 << 12));
}

#[test]
fn addi_wraps_around() {
    let mut cpu = CPU::default();
    let mut memory = Memory::default();
    // auipc x1, 0xfffff: x1 = 4 + 0xfffff000
    cpu.decode_run(0xFFFFF097, &mut memory).unwrap();
    assert_eq!(cpu.reg(1), 0xFFFFF004);
    // addi x1, x1, 0xffb
    cpu.decode_run(0xFFB08093, &mut memory).unwrap();
    assert_eq!(cpu.reg(1), 0xFFFFFFFF);
    // addi x2, x1, 1
    assert_eq!(cpu.decode_run(0x00108113, &mut memory), Ok(()));
    assert_eq!(cpu.reg(2), 0);
}

#[test]
fn add_wraps_around() {
    let mut cpu = CPU::default();
    let mut memory = Memory::default();
    cpu.decode_run(0xFFFFF097, &mut memory).unwrap();
    // add x3, x1, x1
    cpu.decode_run(0x001081B3, &mut memory).unwrap();
    assert_eq!(cpu.reg(3), 0xFFFFF004u32.wrapping_mul(2));
}

#[test]
fn register_zero_is_writable() {
    let mut cpu = CPU::default();
    let mut memory = Memory::default();
    // addi x0, x0, 7
    cpu.decode_run(0x00700013, &mut memory).unwrap();
    assert_eq!(cpu.reg(0), 7);
}

#[test]
fn immediate_is_zero_extended() {
    let mut cpu = CPU::default();
    let mut memory = Memory::default();
    // addi x1, x0, 0xfff
    cpu.decode_run(0xFFF00093, &mut memory).unwrap();
    assert_eq!(cpu.reg(1), 0xFFF);
}

#[test]
fn builtin_table_order() {
    let t = instruction_table();
    assert_eq!(t.len(), 3);
    assert_eq!(t[0].op, Op::Auipc);
    assert_eq!(t[0].pattern, AUIPC_PATTERN);
    assert_eq!(t[1].op, Op::Add);
    assert_eq!(t[1].pattern, ADD_PATTERN);
    assert_eq!(t[2].op, Op::Addi);
    assert_eq!(t[2].pattern, ADDI_PATTERN);
    assert_eq!(find_entry(&t, 0x00400093), Some(2));
    assert_eq!(find_entry(&t, 0x00108233), Some(1));
    assert_eq!(find_entry(&t, 0x00001297), Some(0));
    assert_eq!(find_entry(&t, 0x0000006f), None);
}

#[test]
fn earlier_overlapping_entry_wins() {
    let table = vec![
        InstPat { pattern: ADDI_PATTERN, op: Op::Add },
        InstPat { pattern: ADDI_PATTERN, op: Op::Addi },
    ];
    assert_eq!(find_entry(&table, 0x00400093), Some(0));
    let mut cpu = CPU::default();
    let mut memory = Memory::default();
    // under `add`, x1 = x0 + x4 = 0; under `addi` it would be 4
    cpu.run_with(&table, 0x00400093, &mut memory).unwrap();
    assert_eq!(cpu.reg(1), 0);
    assert_eq!(cpu.pc(), 4);
}

#[test]
fn appended_entry_extends_the_table() {
    let mut table = instruction_table();
    // a catch-all entry after the others
    table.push(InstPat { pattern: "???????????????????????????????? ", op: Op::Addi });
    let mut cpu = CPU::default();
    let mut memory = Memory::default();
    assert_eq!(cpu.run_with(&table, 0x0000006f, &mut memory), Ok(()));
    assert_eq!(cpu.pc(), 4);
    assert_eq!(cpu.run_with(&table, 0x00400093, &mut memory), Ok(()));
    assert_eq!(cpu.reg(1), 4);
}

#[test]
fn empty_table_matches_nothing() {
    let table: Vec<InstPat> = Vec::new();
    let mut cpu = CPU::default();
    let mut memory = Memory::default();
    assert!(cpu.run_with(&table, 0x00400093, &mut memory).is_err());
    assert_eq!(cpu.pc(), 4);
    assert_eq!(cpu.reg(1), 0);
}
