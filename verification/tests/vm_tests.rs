use aether::types::zero_address;
use aether::vm::{compile_store_program, execute, HostContext, VmError};
use std::collections::BTreeMap;

fn host() -> HostContext {
    HostContext {
        caller: zero_address(),
        contract: zero_address(),
        storage: BTreeMap::new(),
        contract_balance: 0,
        block_height: 7,
        block_time_ms: 1000,
        call_value: 0,
    }
}

fn push(code: &mut Vec<u8>, v: u64) {
    code.push(0x01);
    code.extend_from_slice(&v.to_le_bytes());
}

#[test]
fn arith_and_jump() {
    let mut host = host();
    // PUSH 10 PUSH 2 DIV RETURN
    let mut code = Vec::new();
    code.push(0x01);
    code.extend_from_slice(&10u64.to_le_bytes());
    code.push(0x01);
    code.extend_from_slice(&2u64.to_le_bytes());
    code.push(0x05); // DIV => 5
    code.push(0x21); // RETURN
    let r = execute(&code, &mut host, 100_000).unwrap();
    assert!(r.success);
    assert_eq!(r.return_data, 5u64.to_le_bytes().to_vec());
}

#[test]
fn gas_of_push_div_return() {
    let mut h = host();
    let mut code = Vec::new();
    push(&mut code, 10);
    push(&mut code, 2);
    code.push(0x05);
    code.push(0x21);
    let r = execute(&code, &mut h, 100_000).unwrap();
    // 1 + 1 + 5 + 1
    assert_eq!(r.gas_used, 8);
}

#[test]
fn division_and_modulo_by_zero_give_zero() {
    let mut h = host();
    let mut code = Vec::new();
    push(&mut code, 9);
    push(&mut code, 0);
    code.push(0x05);
    code.push(0x21);
    assert_eq!(execute(&code, &mut h, 100).unwrap().return_data, 0u64.to_le_bytes().to_vec());
    let mut code = Vec::new();
    push(&mut code, 9);
    push(&mut code, 0);
    code.push(0x06);
    code.push(0x21);
    assert_eq!(execute(&code, &mut h, 100).unwrap().return_data, 0u64.to_le_bytes().to_vec());
}

#[test]
fn arithmetic_wraps() {
    let mut h = host();
    let mut code = Vec::new();
    push(&mut code, 0);
    push(&mut code, 1);
    code.push(0x03); // 0 - 1 wraps
    code.push(0x21);
    assert_eq!(execute(&code, &mut h, 100).unwrap().return_data, u64::MAX.to_le_bytes().to_vec());
}

#[test]
fn store_program_stores_and_costs_5003() {
    let mut h = host();
    let code = compile_store_program(42, 99);
    assert_eq!(code.len(), 20);
    assert_eq!(code[0], 0x01);
    assert_eq!(&code[1..9], &42u64.to_le_bytes());
    assert_eq!(code[9], 0x01);
    assert_eq!(&code[10..18], &99u64.to_le_bytes());
    assert_eq!(&code[18..], &[0x11, 0x00]);
    let r = execute(&code, &mut h, 10_000).unwrap();
    assert!(r.success);
    assert_eq!(r.gas_used, 5003);
    assert_eq!(r.storage_writes, vec![(42, 99)]);
    assert_eq!(h.storage.get(&42), Some(&99));
    assert!(r.return_data.is_empty());
}

#[test]
fn out_of_gas_and_underflow_and_bad_opcode() {
    let mut h = host();
    let code = compile_store_program(1, 2);
    assert_eq!(execute(&code, &mut h, 5001).unwrap_err(), VmError::OutOfGas);
    assert!(h.storage.is_empty());
    // running out of gas at STOP reverts the write made before it
    assert_eq!(execute(&code, &mut h, 5002).unwrap_err(), VmError::OutOfGas);
    assert!(h.storage.is_empty());
    h.storage.insert(7, 8);
    assert_eq!(execute(&code, &mut h, 5002).unwrap_err(), VmError::OutOfGas);
    assert_eq!(h.storage.len(), 1);
    assert_eq!(h.storage.get(&7), Some(&8));
    assert_eq!(execute(&[0x02], &mut h, 10).unwrap_err(), VmError::StackUnderflow);
    assert_eq!(execute(&[0x77], &mut h, 10).unwrap_err(), VmError::InvalidOpcode(0x77));
    // PUSH without its 8 bytes
    assert_eq!(execute(&[0x01, 0x00], &mut h, 10).unwrap_err(), VmError::InvalidOpcode(0x01));
    assert_eq!(execute(&[0xFF], &mut h, 10).unwrap_err(), VmError::Reverted);
}

#[test]
fn jumps() {
    let mut h = host();
    // PUSH 100, JUMP -> bad jump
    let mut code = Vec::new();
    push(&mut code, 100);
    code.push(0x12);
    assert_eq!(execute(&code, &mut h, 100).unwrap_err(), VmError::BadJump);
    // PUSH dest(21), PUSH 1, JUMPI, REVERT at 19? layout: [0..9) push, [9..18) push, 18 JUMPI, 19 REVERT, 20 STOP
    let mut code = Vec::new();
    push(&mut code, 20);
    push(&mut code, 1);
    code.push(0x13);
    code.push(0xFF);
    code.push(0x00);
    let r = execute(&code, &mut h, 100).unwrap();
    assert!(r.success);
    assert_eq!(r.gas_used, 1 + 1 + 10 + 1);
}

#[test]
fn context_opcodes() {
    let mut h = host();
    h.call_value = 77;
    assert_eq!(execute(&[0x34, 0x21], &mut h, 100).unwrap().return_data, 7u64.to_le_bytes().to_vec());
    assert_eq!(execute(&[0x33, 0x21], &mut h, 100).unwrap().return_data, 1000u64.to_le_bytes().to_vec());
    assert_eq!(execute(&[0x35, 0x21], &mut h, 100).unwrap().return_data, 77u64.to_le_bytes().to_vec());
}

#[test]
fn running_off_the_end_succeeds() {
    let mut h = host();
    let r = execute(&[], &mut h, 0).unwrap();
    assert!(r.success);
    assert_eq!(r.gas_used, 0);
}

#[test]
fn vm_error_messages() {
    assert_eq!(VmError::StackUnderflow.message(), "stack underflow");
    assert_eq!(VmError::OutOfGas.message(), "out of gas");
    assert_eq!(VmError::InvalidOpcode(119).message(), "invalid opcode 119");
    assert_eq!(VmError::Reverted.message(), "reverted");
    assert_eq!(VmError::BadJump.message(), "bad jump");
}
