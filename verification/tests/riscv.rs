use units_core::riscv::{RiscVExecutor, RiscVExecutorConfig, RiscVMemory, CODE_BASE_ADDR, PT_LOAD};
use units_core::objects::VMType;
use units_core::vm_executor::VMExecutionError;

const RVBC: &[u8] = b"RVBC";

fn expect_invalid(r: Result<(RiscVMemory, u32), VMExecutionError>, needle: &str) {
    match r {
        Err(VMExecutionError::InvalidBytecode(msg)) => assert!(msg.contains(needle), "{}", msg),
        Err(other) => panic!("Expected InvalidBytecode error, got: {:?}", other),
        Ok(_) => panic!("Expected an error"),
    }
}

#[test]
fn riscv_executor_test_riscv_executor_creation() {
    let executor = RiscVExecutor::new();
    assert_eq!(executor.vm_type(), VMType::RiscV);
    let custom_config = RiscVExecutorConfig { memory_limit: 8 * 1024 * 1024, instruction_limit: 500_000, timeout_ms: 1000 };
    let custom_executor = RiscVExecutor::with_config(custom_config.clone());
    assert_eq!(custom_executor.config.memory_limit, custom_config.memory_limit);
}

#[test]
fn riscv_executor_test_invalid_elf() {
    // Loading comes before running; an unknown format is refused while loading.
    let executor = RiscVExecutor::new();
    let invalid_elf = vec![0x00, 0x01, 0x02, 0x03];
    expect_invalid(executor.prepare(&invalid_elf, &[]), "Unknown bytecode format");
}

fn elf_header(entry: u32, phoff: u32, phnum: u16, len: usize) -> Vec<u8> {
    let mut elf = vec![0u8; len];
    elf[0..4].copy_from_slice(b"\x7fELF");
    elf[4] = 1;
    elf[5] = 1;
    elf[6] = 1;
    elf[24..28].copy_from_slice(&entry.to_le_bytes());
    elf[28..32].copy_from_slice(&phoff.to_le_bytes());
    elf[42..44].copy_from_slice(&32u16.to_le_bytes());
    elf[44..46].copy_from_slice(&phnum.to_le_bytes());
    elf
}

#[test]
fn test_valid_elf_header_no_segments() {
    let executor = RiscVExecutor::new();
    let mut memory = RiscVMemory::new(executor.config.memory_limit);
    let valid_elf = elf_header(0x1000, 0, 0, 64);
    let result = executor.load_elf(&valid_elf, &mut memory);
    match result {
        Err(VMExecutionError::InvalidBytecode(msg)) => assert!(msg.contains("No program headers found")),
        other => panic!("Expected InvalidBytecode error about no program headers, got: {:?}", other),
    }
}

#[test]
fn test_valid_elf_header() {
    let executor = RiscVExecutor::new();
    let valid_elf = elf_header(0x1000, 0, 0, 64);
    let mut memory = RiscVMemory::new(executor.config.memory_limit);
    assert!(executor.load_elf(&valid_elf, &mut memory).is_err());
}

#[test]
fn test_elf_with_loadable_segment() {
    let executor = RiscVExecutor::new();
    let mut memory = RiscVMemory::new(executor.config.memory_limit);
    let entry_point = 0x1000u32;
    let mut elf = elf_header(entry_point, 52, 1, 256);
    let ph = 52usize;
    elf[ph..ph + 4].copy_from_slice(&PT_LOAD.to_le_bytes());
    elf[ph + 4..ph + 8].copy_from_slice(&128u32.to_le_bytes());
    elf[ph + 8..ph + 12].copy_from_slice(&entry_point.to_le_bytes());
    elf[ph + 12..ph + 16].copy_from_slice(&entry_point.to_le_bytes());
    elf[ph + 16..ph + 20].copy_from_slice(&12u32.to_le_bytes());
    elf[ph + 20..ph + 24].copy_from_slice(&12u32.to_le_bytes());
    elf[128..132].copy_from_slice(&[0x13, 0x00, 0x00, 0x00]);
    elf[132..136].copy_from_slice(&[0x13, 0x00, 0x00, 0x00]);
    elf[136..140].copy_from_slice(&[0x6f, 0x00, 0x00, 0x00]);
    let result = executor.load_elf(&elf, &mut memory);
    assert!(result.is_ok());
    assert_eq!(result.unwrap(), entry_point);
    let loaded_code = memory.read_bytes(entry_point, 12).unwrap();
    assert_eq!(&loaded_code[0..4], &[0x13, 0x00, 0x00, 0x00]);
    assert_eq!(&loaded_code[8..12], &[0x6f, 0x00, 0x00, 0x00]);
}

#[test]
fn test_elf_with_bss_section() {
    let executor = RiscVExecutor::new();
    let mut memory = RiscVMemory::new(executor.config.memory_limit);
    let data_addr = 0x3000u32;
    let mut elf = elf_header(0x2000, 52, 1, 256);
    let ph = 52usize;
    elf[ph..ph + 4].copy_from_slice(&PT_LOAD.to_le_bytes());
    elf[ph + 4..ph + 8].copy_from_slice(&128u32.to_le_bytes());
    elf[ph + 8..ph + 12].copy_from_slice(&data_addr.to_le_bytes());
    elf[ph + 12..ph + 16].copy_from_slice(&data_addr.to_le_bytes());
    elf[ph + 16..ph + 20].copy_from_slice(&8u32.to_le_bytes());
    elf[ph + 20..ph + 24].copy_from_slice(&32u32.to_le_bytes());
    elf[128..132].copy_from_slice(&0xDEADBEEFu32.to_le_bytes());
    elf[132..136].copy_from_slice(&0xCAFEBABEu32.to_le_bytes());
    let result = executor.load_elf(&elf, &mut memory);
    assert!(result.is_ok());
    let loaded_data = memory.read_bytes(data_addr, 8).unwrap();
    assert_eq!(&loaded_data[0..4], &0xDEADBEEFu32.to_le_bytes());
    assert_eq!(&loaded_data[4..8], &0xCAFEBABEu32.to_le_bytes());
    let bss_data = memory.read_bytes(data_addr + 8, 24).unwrap();
    assert!(bss_data.iter().all(|&b| b == 0));
}

#[test]
fn test_raw_bytecode_loading() {
    let executor = RiscVExecutor::new();
    let mut memory = RiscVMemory::new(executor.config.memory_limit);
    let mut bytecode = Vec::new();
    bytecode.extend_from_slice(RVBC);
    bytecode.extend_from_slice(&8u32.to_le_bytes());
    bytecode.extend_from_slice(&[0x13, 0x00, 0x00, 0x00]);
    bytecode.extend_from_slice(&[0x13, 0x00, 0x00, 0x00]);
    bytecode.extend_from_slice(&[0x13, 0x00, 0x00, 0x00]);
    let entry_point = executor.load_raw_bytecode(&bytecode, &mut memory);
    assert!(entry_point.is_ok());
    assert_eq!(entry_point.unwrap(), CODE_BASE_ADDR + 8);
    let loaded_code = memory.read_bytes(CODE_BASE_ADDR, 12).unwrap();
    assert_eq!(&loaded_code[0..4], &[0x13, 0x00, 0x00, 0x00]);
}

#[test]
fn test_raw_bytecode_validation() {
    let executor = RiscVExecutor::new();
    let mut memory = RiscVMemory::new(executor.config.memory_limit);
    let small_bytecode = vec![0x00, 0x01, 0x02];
    assert!(executor.load_raw_bytecode(&small_bytecode, &mut memory).is_err());
    let invalid_magic = vec![0x00, 0x01, 0x02, 0x03, 0x00, 0x00, 0x00, 0x00, 0x13, 0x00, 0x00, 0x00];
    assert!(executor.load_raw_bytecode(&invalid_magic, &mut memory).is_err());
    let mut invalid_offset = Vec::new();
    invalid_offset.extend_from_slice(RVBC);
    invalid_offset.extend_from_slice(&100u32.to_le_bytes());
    invalid_offset.extend_from_slice(&[0x13, 0x00, 0x00, 0x00]);
    assert!(executor.load_raw_bytecode(&invalid_offset, &mut memory).is_err());
    let mut unaligned = Vec::new();
    unaligned.extend_from_slice(RVBC);
    unaligned.extend_from_slice(&3u32.to_le_bytes());
    unaligned.extend_from_slice(&[0x13, 0x00, 0x00, 0x00]);
    assert!(executor.load_raw_bytecode(&unaligned, &mut memory).is_err());
}

#[test]
fn test_bytecode_format_detection() {
    let executor = RiscVExecutor::new();
    let mut raw_bytecode = Vec::new();
    raw_bytecode.extend_from_slice(RVBC);
    raw_bytecode.extend_from_slice(&0u32.to_le_bytes());
    raw_bytecode.extend_from_slice(&[0x13, 0x00, 0x00, 0x00]);
    // The raw format is recognized and loaded; it fails only later, when the
    // input buffer is set up beyond the default memory.
    let result = executor.prepare(&raw_bytecode, &[]);
    assert!(result.is_err());
    assert!(matches!(result, Err(VMExecutionError::ExecutionFailed(m)) if m == "Memory write out of bounds"));
    let unknown_format = vec![0xFF, 0xFF, 0xFF, 0xFF];
    expect_invalid(executor.prepare(&unknown_format, &[]), "Unknown bytecode format");
}
