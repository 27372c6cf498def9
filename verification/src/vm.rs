//! AetherOps: a metered stack machine for contract code.

use vstd::prelude::*;
use vstd::slice::slice_subrange;
use std::collections::BTreeMap;
use vstd::string::*;
use crate::text::{decimal_string, spec_decimal};
use crate::types::{Address, Log};

verus! {

broadcast use vstd::std_specs::btree::group_btree_axioms;

#[derive(Clone, Copy, Debug, PartialEq, Eq, Structural)]
pub enum VmError {
    StackUnderflow,
    OutOfGas,
    InvalidOpcode(u8),
    Reverted,
    BadJump,
}

/// The text a machine error is reported with.
pub open spec fn vm_error_text(e: VmError) -> Seq<char> {
    match e {
        VmError::StackUnderflow => "stack underflow"@,
        VmError::OutOfGas => "out of gas"@,
        VmError::InvalidOpcode(op) => "invalid opcode "@ + spec_decimal(op as nat),
        VmError::Reverted => "reverted"@,
        VmError::BadJump => "bad jump"@,
    }
}

impl VmError {
    /// Human-readable description of the error.
    pub fn message(&self) -> (m: String)
        ensures
            m@ == vm_error_text(*self),
    {
        match self {
            VmError::StackUnderflow => String::from_str("stack underflow"),
            VmError::OutOfGas => String::from_str("out of gas"),
            VmError::InvalidOpcode(op) => {
                let d = decimal_string(*op as u128);
                String::from_str("invalid opcode ").concat(d.as_str())
            },
            VmError::Reverted => String::from_str("reverted"),
            VmError::BadJump => String::from_str("bad jump"),
        }
    }
}

#[derive(Debug)]
pub struct VmResult {
    pub gas_used: u64,
    pub storage_writes: Vec<(u64, u64)>,
    pub logs: Vec<Log>,
    pub success: bool,
    pub return_data: Vec<u8>,
}

/// What a running contract can see of the chain: the caller, its own
/// address and balance, the block context, the attached value and its own
/// storage (which it may change).
pub struct HostContext {
    pub caller: Address,
    pub contract: Address,
    pub storage: BTreeMap<u64, u64>,
    pub contract_balance: u128,
    pub block_height: u64,
    pub block_time_ms: u64,
    pub call_value: u64,
}

/// A log entry as values.
pub struct LogView {
    pub address: Address,
    pub topics: Seq<u64>,
    pub data: Seq<u8>,
}

pub open spec fn log_view(l: Log) -> LogView {
    LogView { address: l.address, topics: l.topics@, data: l.data@ }
}

pub open spec fn logs_view(s: Seq<Log>) -> Seq<LogView> {
    s.map_values(|l: Log| log_view(l))
}

/// The read-only context of an execution.
pub struct Env {
    pub caller: Address,
    pub contract: Address,
    pub balance: u128,
    pub height: u64,
    pub time: u64,
    pub value: u64,
}

impl HostContext {
    pub open spec fn env(&self) -> Env {
        Env {
            caller: self.caller,
            contract: self.contract,
            balance: self.contract_balance,
            height: self.block_height,
            time: self.block_time_ms,
            value: self.call_value,
        }
    }
}

/// The state of the machine between two instructions.
pub struct Machine {
    pub ip: int,
    pub stack: Seq<u64>,
    pub gas: u64,
    pub logs: Seq<LogView>,
    pub writes: Seq<(u64, u64)>,
    pub ret: Seq<u8>,
    pub storage: Map<u64, u64>,
}

/// What one instruction does: go on, halt successfully, or fail (leaving
/// the storage as it was when it failed).
pub enum Step {
    Continue(Machine),
    Stop(Machine),
    Fail(Map<u64, u64>, VmError),
}

/// How a run ends.
pub enum Exit {
    Done(Machine),
    Failed(Map<u64, u64>, VmError),
}

/// Gas charged for an opcode before it runs; `None` for an unknown opcode.
pub open spec fn op_cost(op: u8) -> Option<u64> {
    if op == 0x00 || op == 0x01 || op == 0x02 || op == 0x03 || op == 0x04 {
        Some(1)
    } else if op == 0x05 || op == 0x06 {
        Some(5)
    } else if 0x07 <= op <= 0x0F {
        Some(1)
    } else if op == 0x10 {
        Some(800)
    } else if op == 0x11 {
        Some(5_000)
    } else if op == 0x12 {
        Some(8)
    } else if op == 0x13 {
        Some(10)
    } else if op == 0x20 {
        Some(375)
    } else if op == 0x21 || op == 0x30 || op == 0x32 || op == 0xFF {
        Some(1)
    } else if op == 0x31 {
        Some(100)
    } else if 0x33 <= op <= 0x35 {
        Some(2)
    } else {
        None
    }
}

/// The 64-bit little-endian word starting at `start`.
pub open spec fn word_at(bytes: Seq<u8>, start: int) -> u64 {
    vstd::bytes::spec_u64_from_le_bytes(bytes.subrange(start, start + 8))
}

/// Result of the two-operand instructions on `a` (deeper) and `b` (top).
pub open spec fn binop(op: u8, a: u64, b: u64) -> u64 {
    if op == 0x02 {
        a.wrapping_add(b)
    } else if op == 0x03 {
        a.wrapping_sub(b)
    } else if op == 0x04 {
        a.wrapping_mul(b)
    } else if op == 0x05 {
        if b == 0 { 0 } else { a / b }
    } else if op == 0x06 {
        if b == 0 { 0 } else { a % b }
    } else if op == 0x07 {
        a & b
    } else if op == 0x08 {
        a | b
    } else if op == 0x09 {
        a ^ b
    } else if op == 0x0A {
        if a == b { 1 } else { 0 }
    } else if op == 0x0B {
        if a < b { 1 } else { 0 }
    } else {
        if a > b { 1 } else { 0 }
    }
}

pub open spec fn top(m: Machine) -> u64 {
    m.stack[m.stack.len() - 1]
}

pub open spec fn popped(m: Machine, k: int) -> Seq<u64> {
    m.stack.subrange(0, m.stack.len() - k)
}

/// What instruction `op` does once its gas is paid and `ip` is past it.
pub open spec fn apply(op: u8, code: Seq<u8>, env: Env, m: Machine) -> Step {
    if op == 0x00 {
        Step::Stop(m)
    } else if op == 0x01 {
        if m.ip + 8 > code.len() {
            Step::Fail(m.storage, VmError::InvalidOpcode(op))
        } else {
            Step::Continue(Machine { ip: m.ip + 8, stack: m.stack.push(word_at(code, m.ip)), ..m })
        }
    } else if 0x02 <= op <= 0x0C {
        if m.stack.len() < 2 {
            Step::Fail(m.storage, VmError::StackUnderflow)
        } else {
            let a = m.stack[m.stack.len() - 2];
            Step::Continue(Machine { stack: popped(m, 2).push(binop(op, a, top(m))), ..m })
        }
    } else if op == 0x0D {
        if m.stack.len() < 1 {
            Step::Fail(m.storage, VmError::StackUnderflow)
        } else {
            Step::Continue(Machine { stack: popped(m, 1).push(!top(m)), ..m })
        }
    } else if op == 0x0E {
        if m.stack.len() < 1 {
            Step::Fail(m.storage, VmError::StackUnderflow)
        } else {
            Step::Continue(Machine { stack: m.stack.push(top(m)), ..m })
        }
    } else if op == 0x0F {
        if m.stack.len() < 2 {
            Step::Fail(m.storage, VmError::StackUnderflow)
        } else {
            let a = m.stack[m.stack.len() - 2];
            Step::Continue(Machine { stack: popped(m, 2).push(top(m)).push(a), ..m })
        }
    } else if op == 0x10 {
        if m.stack.len() < 1 {
            Step::Fail(m.storage, VmError::StackUnderflow)
        } else {
            let v = if m.storage.contains_key(top(m)) { m.storage[top(m)] } else { 0u64 };
            Step::Continue(Machine { stack: popped(m, 1).push(v), ..m })
        }
    } else if op == 0x11 {
        if m.stack.len() < 2 {
            Step::Fail(m.storage, VmError::StackUnderflow)
        } else {
            let key = m.stack[m.stack.len() - 2];
            let val = top(m);
            Step::Continue(
                Machine {
                    stack: popped(m, 2),
                    storage: m.storage.insert(key, val),
                    writes: m.writes.push((key, val)),
                    ..m
                },
            )
        }
    } else if op == 0x12 {
        if m.stack.len() < 1 {
            Step::Fail(m.storage, VmError::StackUnderflow)
        } else if top(m) >= code.len() {
            Step::Fail(m.storage, VmError::BadJump)
        } else {
            Step::Continue(Machine { ip: top(m) as int, stack: popped(m, 1), ..m })
        }
    } else if op == 0x13 {
        if m.stack.len() < 2 {
            Step::Fail(m.storage, VmError::StackUnderflow)
        } else {
            let dest = m.stack[m.stack.len() - 2];
            if top(m) != 0 {
                if dest >= code.len() {
                    Step::Fail(m.storage, VmError::BadJump)
                } else {
                    Step::Continue(Machine { ip: dest as int, stack: popped(m, 2), ..m })
                }
            } else {
                Step::Continue(Machine { stack: popped(m, 2), ..m })
            }
        }
    } else if op == 0x20 {
        if m.stack.len() < 1 {
            Step::Fail(m.storage, VmError::StackUnderflow)
        } else {
            let n = top(m) as int;
            let rest = popped(m, 1);
            if rest.len() < n + 1 {
                Step::Fail(m.storage, VmError::StackUnderflow)
            } else {
                let topics = Seq::new(n as nat, |i: int| rest[rest.len() - 1 - i]);
                let data = rest[rest.len() - 1 - n];
                let entry = LogView {
                    address: env.contract,
                    topics,
                    data: vstd::bytes::spec_u64_to_le_bytes(data),
                };
                Step::Continue(
                    Machine {
                        stack: rest.subrange(0, rest.len() - n - 1),
                        logs: m.logs.push(entry),
                        ..m
                    },
                )
            }
        }
    } else if op == 0x21 {
        if m.stack.len() < 1 {
            Step::Fail(m.storage, VmError::StackUnderflow)
        } else {
            Step::Stop(
                Machine {
                    stack: popped(m, 1),
                    ret: vstd::bytes::spec_u64_to_le_bytes(top(m)),
                    ..m
                },
            )
        }
    } else if op == 0x30 {
        Step::Continue(Machine { stack: m.stack.push(word_at(env.caller@, 0)), ..m })
    } else if op == 0x31 {
        let b: u64 = if env.balance > u64::MAX { u64::MAX } else { env.balance as u64 };
        Step::Continue(Machine { stack: m.stack.push(b), ..m })
    } else if op == 0x32 {
        Step::Continue(Machine { stack: m.stack.push(word_at(env.contract@, 0)), ..m })
    } else if op == 0x33 {
        Step::Continue(Machine { stack: m.stack.push(env.time), ..m })
    } else if op == 0x34 {
        Step::Continue(Machine { stack: m.stack.push(env.height), ..m })
    } else if op == 0x35 {
        Step::Continue(Machine { stack: m.stack.push(env.value), ..m })
    } else {
        Step::Fail(m.storage, VmError::Reverted)
    }
}

/// One instruction at `m.ip`: unknown opcodes fail, the gas is charged,
/// then the instruction runs.
pub open spec fn step(code: Seq<u8>, env: Env, m: Machine) -> Step {
    let op = code[m.ip];
    match op_cost(op) {
        None => Step::Fail(m.storage, VmError::InvalidOpcode(op)),
        Some(c) => if m.gas < c {
            Step::Fail(m.storage, VmError::OutOfGas)
        } else {
            apply(op, code, env, Machine { ip: m.ip + 1, gas: (m.gas - c) as u64, ..m })
        },
    }
}

/// Runs instructions until the end of the code, a halt or a failure. Every
/// instruction costs gas, so this ends.
pub open spec fn run(code: Seq<u8>, env: Env, m: Machine) -> Exit
    decreases m.gas,
{
    if m.ip < 0 || m.ip >= code.len() {
        Exit::Done(m)
    } else {
        match step(code, env, m) {
            Step::Continue(m2) => if m2.gas < m.gas {
                run(code, env, m2)
            } else {
                Exit::Failed(m2.storage, VmError::OutOfGas)
            },
            Step::Stop(m2) => Exit::Done(m2),
            Step::Fail(s, e) => Exit::Failed(s, e),
        }
    }
}

pub open spec fn initial_machine(storage: Map<u64, u64>, gas_limit: u64) -> Machine {
    Machine {
        ip: 0,
        stack: Seq::empty(),
        gas: gas_limit,
        logs: Seq::empty(),
        writes: Seq::empty(),
        ret: Seq::empty(),
        storage,
    }
}

/// The outcome of running `code` from the start with `gas_limit` gas.
pub open spec fn spec_execute(code: Seq<u8>, env: Env, storage: Map<u64, u64>, gas_limit: u64) -> Exit {
    run(code, env, initial_machine(storage, gas_limit))
}

/// Every instruction that goes on has paid at least one unit of gas.
pub proof fn lemma_step_burns_gas(code: Seq<u8>, env: Env, m: Machine)
    requires
        0 <= m.ip < code.len(),
    ensures
        step(code, env, m) matches Step::Continue(m2) ==> m2.gas < m.gas,
        step(code, env, m) matches Step::Stop(m2) ==> m2.gas < m.gas,
{
}

struct Frame {
    ip: usize,
    stack: Vec<u64>,
    gas: u64,
    logs: Vec<Log>,
    writes: Vec<(u64, u64)>,
    ret: Vec<u8>,
}

impl Frame {
    spec fn machine(&self, storage: Map<u64, u64>) -> Machine {
        Machine {
            ip: self.ip as int,
            stack: self.stack@,
            gas: self.gas,
            logs: logs_view(self.logs@),
            writes: self.writes@,
            ret: self.ret@,
            storage,
        }
    }
}

enum Outcome {
    Continue,
    Stop,
    Fail(VmError),
}

spec fn matches_step(o: Outcome, fr: &Frame, storage: Map<u64, u64>, s: Step) -> bool {
    match (o, s) {
        (Outcome::Continue, Step::Continue(m)) => fr.machine(storage) == m,
        (Outcome::Stop, Step::Stop(m)) => fr.machine(storage) == m,
        (Outcome::Fail(e), Step::Fail(st, e2)) => e == e2 && storage == st,
        _ => false,
    }
}

fn cost_of(op: u8) -> (c: Option<u64>)
    ensures
        c == op_cost(op),
{
    if op == 0x00 || op == 0x01 || op == 0x02 || op == 0x03 || op == 0x04 {
        Some(1)
    } else if op == 0x05 || op == 0x06 {
        Some(5)
    } else if 0x07 <= op && op <= 0x0F {
        Some(1)
    } else if op == 0x10 {
        Some(800)
    } else if op == 0x11 {
        Some(5_000)
    } else if op == 0x12 {
        Some(8)
    } else if op == 0x13 {
        Some(10)
    } else if op == 0x20 {
        Some(375)
    } else if op == 0x21 || op == 0x30 || op == 0x32 || op == 0xFF {
        Some(1)
    } else if op == 0x31 {
        Some(100)
    } else if 0x33 <= op && op <= 0x35 {
        Some(2)
    } else {
        None
    }
}

fn binop_exec(op: u8, a: u64, b: u64) -> (r: u64)
    requires
        0x02 <= op <= 0x0C,
    ensures
        r == binop(op, a, b),
{
    if op == 0x02 {
        a.wrapping_add(b)
    } else if op == 0x03 {
        a.wrapping_sub(b)
    } else if op == 0x04 {
        a.wrapping_mul(b)
    } else if op == 0x05 {
        if b == 0 { 0 } else { a / b }
    } else if op == 0x06 {
        if b == 0 { 0 } else { a % b }
    } else if op == 0x07 {
        a & b
    } else if op == 0x08 {
        a | b
    } else if op == 0x09 {
        a ^ b
    } else if op == 0x0A {
        if a == b { 1 } else { 0 }
    } else if op == 0x0B {
        if a < b { 1 } else { 0 }
    } else {
        if a > b { 1 } else { 0 }
    }
}

/// Arithmetic, comparison and bitwise instructions.
fn apply_arith(op: u8, fr: &mut Frame, storage: &BTreeMap<u64, u64>) -> (o: Outcome)
    requires
        0x02 <= op <= 0x0D,
    ensures
        forall|code: Seq<u8>, env: Env|
            matches_step(o, final(fr), storage@, #[trigger] apply(op, code, env, old(fr).machine(storage@))),
{
    let ghost m = old(fr).machine(storage@);
    if op == 0x0D {
        match fr.stack.pop() {
            None => Outcome::Fail(VmError::StackUnderflow),
            Some(a) => {
                fr.stack.push(!a);
                proof {
                    assert(fr.stack@ =~= popped(m, 1).push(!top(m)));
                }
                Outcome::Continue
            },
        }
    } else {
        if fr.stack.len() < 2 {
            return Outcome::Fail(VmError::StackUnderflow);
        }
        let b = fr.stack.pop().unwrap();
        let a = fr.stack.pop().unwrap();
        let r = binop_exec(op, a, b);
        fr.stack.push(r);
        proof {
            assert(fr.stack@ =~= popped(m, 2).push(binop(op, m.stack[m.stack.len() - 2], top(m))));
        }
        Outcome::Continue
    }
}

/// DUP, SWAP, SLOAD and SSTORE.
fn apply_stack_storage(op: u8, fr: &mut Frame, storage: &mut BTreeMap<u64, u64>) -> (o: Outcome)
    requires
        0x0E <= op <= 0x11,
    ensures
        forall|code: Seq<u8>, env: Env|
            matches_step(o, final(fr), final(storage)@, #[trigger] apply(op, code, env, old(fr).machine(old(storage)@))),
{
    let ghost m = old(fr).machine(old(storage)@);
    if op == 0x0E {
        let n = fr.stack.len();
        if n < 1 {
            return Outcome::Fail(VmError::StackUnderflow);
        }
        let a = fr.stack[n - 1];
        fr.stack.push(a);
        Outcome::Continue
    } else if op == 0x0F {
        let n = fr.stack.len();
        if n < 2 {
            return Outcome::Fail(VmError::StackUnderflow);
        }
        let b = fr.stack.pop().unwrap();
        let a = fr.stack.pop().unwrap();
        fr.stack.push(b);
        fr.stack.push(a);
        proof {
            assert(fr.stack@ =~= popped(m, 2).push(top(m)).push(m.stack[m.stack.len() - 2]));
        }
        Outcome::Continue
    } else if op == 0x10 {
        match fr.stack.pop() {
            None => Outcome::Fail(VmError::StackUnderflow),
            Some(key) => {
                let v = match storage.get(&key) {
                    Some(x) => *x,
                    None => 0u64,
                };
                fr.stack.push(v);
                proof {
                    assert(fr.stack@ =~= popped(m, 1).push(
                        if m.storage.contains_key(top(m)) { m.storage[top(m)] } else { 0u64 },
                    ));
                }
                Outcome::Continue
            },
        }
    } else {
        if fr.stack.len() < 2 {
            return Outcome::Fail(VmError::StackUnderflow);
        }
        let val = fr.stack.pop().unwrap();
        let key = fr.stack.pop().unwrap();
        storage.insert(key, val);
        fr.writes.push((key, val));
        proof {
            assert(fr.stack@ =~= popped(m, 2));
        }
        Outcome::Continue
    }
}

/// STOP, PUSH, JUMP, JUMPI, RETURN and REVERT.
fn apply_control(op: u8, code: &[u8], fr: &mut Frame, storage: &BTreeMap<u64, u64>) -> (o: Outcome)
    requires
        op == 0x00 || op == 0x01 || op == 0x12 || op == 0x13 || op == 0x21 || op == 0xFF,
        old(fr).ip <= code@.len(),
    ensures
        forall|env: Env|
            matches_step(o, final(fr), storage@, #[trigger] apply(op, code@, env, old(fr).machine(storage@))),
{
    let ghost m = old(fr).machine(storage@);
    if op == 0x00 {
        Outcome::Stop
    } else if op == 0x01 {
        if code.len() - fr.ip < 8 {
            return Outcome::Fail(VmError::InvalidOpcode(op));
        }
        let w = vstd::bytes::u64_from_le_bytes(slice_subrange(code, fr.ip, fr.ip + 8));
        fr.stack.push(w);
        fr.ip = fr.ip + 8;
        Outcome::Continue
    } else if op == 0x12 {
        match fr.stack.pop() {
            None => Outcome::Fail(VmError::StackUnderflow),
            Some(dest) => {
                if dest >= code.len() as u64 {
                    Outcome::Fail(VmError::BadJump)
                } else {
                    fr.ip = dest as usize;
                    proof {
                        assert(fr.stack@ =~= popped(m, 1));
                    }
                    Outcome::Continue
                }
            },
        }
    } else if op == 0x13 {
        if fr.stack.len() < 2 {
            return Outcome::Fail(VmError::StackUnderflow);
        }
        let cond = fr.stack.pop().unwrap();
        let dest = fr.stack.pop().unwrap();
        proof {
            assert(fr.stack@ =~= popped(m, 2));
        }
        if cond != 0 {
            if dest >= code.len() as u64 {
                return Outcome::Fail(VmError::BadJump);
            }
            fr.ip = dest as usize;
        }
        Outcome::Continue
    } else if op == 0x21 {
        match fr.stack.pop() {
            None => Outcome::Fail(VmError::StackUnderflow),
            Some(word) => {
                fr.ret = vstd::bytes::u64_to_le_bytes(word);
                proof {
                    assert(fr.stack@ =~= popped(m, 1));
                }
                Outcome::Stop
            },
        }
    } else {
        Outcome::Fail(VmError::Reverted)
    }
}

/// LOG: pops the topic count, the topics and a data word.
fn apply_log(fr: &mut Frame, contract: &Address, storage: &BTreeMap<u64, u64>) -> (o: Outcome)
    ensures
        forall|code: Seq<u8>, env: Env|
            env.contract == *contract ==> matches_step(
                o,
                final(fr),
                storage@,
                #[trigger] apply(0x20u8, code, env, old(fr).machine(storage@)),
            ),
{
    let ghost m = old(fr).machine(storage@);
    let n = match fr.stack.pop() {
        None => {
            return Outcome::Fail(VmError::StackUnderflow);
        },
        Some(n) => n,
    };
    let ghost rest = fr.stack@;
    assert(rest =~= popped(m, 1));
    let mut topics: Vec<u64> = Vec::new();
    let mut i: u64 = 0;
    while i < n
        invariant
            i <= n,
            rest.len() >= i,
            rest == popped(m, 1),
            m.stack.len() >= 1,
            m == old(fr).machine(storage@),
            top(m) == n,
            fr.stack@ == rest.subrange(0, rest.len() - i),
            topics@ == Seq::new(i as nat, |j: int| rest[rest.len() - 1 - j]),
            fr.logs == old(fr).logs,
            fr.writes == old(fr).writes,
            fr.ret == old(fr).ret,
            fr.ip == old(fr).ip,
            fr.gas == old(fr).gas,
        decreases n - i,
    {
        match fr.stack.pop() {
            None => {
                return Outcome::Fail(VmError::StackUnderflow);
            },
            Some(t) => {
                topics.push(t);
            },
        }
        i = i + 1;
        proof {
            assert(topics@ =~= Seq::new(i as nat, |j: int| rest[rest.len() - 1 - j]));
            assert(fr.stack@ =~= rest.subrange(0, rest.len() - i));
        }
    }
    let data_word = match fr.stack.pop() {
        None => {
            return Outcome::Fail(VmError::StackUnderflow);
        },
        Some(w) => w,
    };
    let data = vstd::bytes::u64_to_le_bytes(data_word);
    let entry = Log { address: *contract, topics, data };
    fr.logs.push(entry);
    proof {
        assert(fr.stack@ =~= rest.subrange(0, rest.len() - n - 1));
        assert(logs_view(fr.logs@) =~= m.logs.push(log_view(entry)));
    }
    Outcome::Continue
}

/// CALLER, BALANCE, ADDRESS, TIMESTAMP, HEIGHT and CALLVALUE.
fn apply_context(op: u8, fr: &mut Frame, host: &HostContext) -> (o: Outcome)
    requires
        0x30 <= op <= 0x35,
    ensures
        forall|code: Seq<u8>|
            matches_step(o, final(fr), host.storage@, #[trigger] apply(op, code, host.env(), old(fr).machine(host.storage@))),
{
    let w: u64 = if op == 0x30 {
        vstd::bytes::u64_from_le_bytes(slice_subrange(host.caller.as_slice(), 0, 8))
    } else if op == 0x31 {
        if host.contract_balance > u64::MAX as u128 {
            u64::MAX
        } else {
            host.contract_balance as u64
        }
    } else if op == 0x32 {
        vstd::bytes::u64_from_le_bytes(slice_subrange(host.contract.as_slice(), 0, 8))
    } else if op == 0x33 {
        host.block_time_ms
    } else if op == 0x34 {
        host.block_height
    } else {
        host.call_value
    };
    fr.stack.push(w);
    Outcome::Continue
}

/// Runs the instruction at `fr.ip`.
fn exec_step(code: &[u8], host: &mut HostContext, fr: &mut Frame) -> (o: Outcome)
    requires
        old(fr).ip < code@.len(),
    ensures
        final(host).env() == old(host).env(),
        matches_step(o, final(fr), final(host).storage@, step(code@, old(host).env(), old(fr).machine(old(host).storage@))),
{
    let ghost env = host.env();
    let op = code[fr.ip];
    let c = match cost_of(op) {
        None => {
            return Outcome::Fail(VmError::InvalidOpcode(op));
        },
        Some(c) => c,
    };
    if fr.gas < c {
        return Outcome::Fail(VmError::OutOfGas);
    }
    fr.gas = fr.gas - c;
    fr.ip = fr.ip + 1;
    if 0x02 <= op && op <= 0x0D {
        apply_arith(op, fr, &host.storage)
    } else if 0x0E <= op && op <= 0x11 {
        apply_stack_storage(op, fr, &mut host.storage)
    } else if op == 0x20 {
        apply_log(fr, &host.contract, &host.storage)
    } else if 0x30 <= op && op <= 0x35 {
        apply_context(op, fr, host)
    } else {
        apply_control(op, code, fr, &host.storage)
    }
}

/// Runs contract `code` with at most `gas_limit` gas. A completed run
/// leaves its storage changes in `host.storage`; a failed one (out of gas
/// included) reverts: the host keeps the storage it had.
pub fn execute(code: &[u8], host: &mut HostContext, gas_limit: u64) -> (r: Result<VmResult, VmError>)
    ensures
        final(host).env() == old(host).env(),
        match spec_execute(code@, old(host).env(), old(host).storage@, gas_limit) {
            Exit::Done(m) => {
                &&& r is Ok
                &&& r->Ok_0.success
                &&& r->Ok_0.gas_used == gas_limit - m.gas
                &&& r->Ok_0.storage_writes@ == m.writes
                &&& logs_view(r->Ok_0.logs@) == m.logs
                &&& r->Ok_0.return_data@ == m.ret
                &&& final(host).storage@ == m.storage
            },
            Exit::Failed(_, e) => {
                &&& r == Err::<VmResult, VmError>(e)
                &&& final(host).storage@ == old(host).storage@
            },
        },
{
    let saved = host.storage.clone();
    let r = interpret(code, host, gas_limit);
    if r.is_err() {
        host.storage = saved;
    }
    r
}

/// The interpreter loop: runs `code` on `host`, leaving whatever it wrote.
fn interpret(code: &[u8], host: &mut HostContext, gas_limit: u64) -> (r: Result<VmResult, VmError>)
    ensures
        final(host).env() == old(host).env(),
        match spec_execute(code@, old(host).env(), old(host).storage@, gas_limit) {
            Exit::Done(m) => {
                &&& r is Ok
                &&& r->Ok_0.success
                &&& r->Ok_0.gas_used == gas_limit - m.gas
                &&& r->Ok_0.storage_writes@ == m.writes
                &&& logs_view(r->Ok_0.logs@) == m.logs
                &&& r->Ok_0.return_data@ == m.ret
                &&& final(host).storage@ == m.storage
            },
            Exit::Failed(s, e) => {
                &&& r == Err::<VmResult, VmError>(e)
                &&& final(host).storage@ == s
            },
        },
{
    let ghost env = host.env();
    let ghost init = initial_machine(host.storage@, gas_limit);
    let mut fr = Frame {
        ip: 0,
        stack: Vec::new(),
        gas: gas_limit,
        logs: Vec::new(),
        writes: Vec::new(),
        ret: Vec::new(),
    };
    proof {
        assert(logs_view(fr.logs@) =~= Seq::<LogView>::empty());
        assert(fr.stack@ =~= Seq::<u64>::empty());
        assert(fr.writes@ =~= Seq::<(u64, u64)>::empty());
        assert(fr.ret@ =~= Seq::<u8>::empty());
    }
    while fr.ip < code.len()
        invariant
            host.env() == env,
            env == old(host).env(),
            init == initial_machine(old(host).storage@, gas_limit),
            fr.gas <= gas_limit,
            run(code@, env, fr.machine(host.storage@)) == run(code@, env, init),
        decreases fr.gas,
    {
        let ghost before = fr.machine(host.storage@);
        proof {
            lemma_step_burns_gas(code@, env, before);
        }
        match exec_step(code, host, &mut fr) {
            Outcome::Continue => {},
            Outcome::Stop => {
                return Ok(
                    VmResult {
                        gas_used: gas_limit - fr.gas,
                        storage_writes: fr.writes,
                        logs: fr.logs,
                        success: true,
                        return_data: fr.ret,
                    },
                );
            },
            Outcome::Fail(e) => {
                return Err(e);
            },
        }
    }
    Ok(
        VmResult {
            gas_used: gas_limit - fr.gas,
            storage_writes: fr.writes,
            logs: fr.logs,
            success: true,
            return_data: fr.ret,
        },
    )
}

/// Code that stores `value` under `key` and stops.
pub open spec fn spec_store_program(key: u64, value: u64) -> Seq<u8> {
    seq![0x01u8] + vstd::bytes::spec_u64_to_le_bytes(key) + seq![0x01u8]
        + vstd::bytes::spec_u64_to_le_bytes(value) + seq![0x11u8, 0x00u8]
}

/// Assembles `PUSH key; PUSH value; SSTORE; STOP`.
pub fn compile_store_program(key: u64, value: u64) -> (code: Vec<u8>)
    ensures
        code@ == spec_store_program(key, value),
{
    let mut code: Vec<u8> = Vec::new();
    code.push(0x01u8);
    let kb = vstd::bytes::u64_to_le_bytes(key);
    crate::bytes::append_bytes(&mut code, kb.as_slice());
    code.push(0x01u8);
    let vb = vstd::bytes::u64_to_le_bytes(value);
    crate::bytes::append_bytes(&mut code, vb.as_slice());
    code.push(0x11u8);
    code.push(0x00u8);
    proof {
        assert(code@ =~= spec_store_program(key, value));
    }
    code
}

/// Law: running the assembled store program with at least 5003 gas halts
/// successfully after storing `value` under `key`, records that single write,
/// and uses exactly 5003 gas (1 + 1 + 5000 + 1).
pub proof fn law_store_program_stores(key: u64, value: u64, env: Env, storage: Map<u64, u64>, gas_limit: u64)
    requires
        gas_limit >= 5003,
    ensures
        spec_execute(spec_store_program(key, value), env, storage, gas_limit) == Exit::Done(
            Machine {
                ip: 20,
                stack: Seq::empty(),
                gas: (gas_limit - 5003) as u64,
                logs: Seq::empty(),
                writes: seq![(key, value)],
                ret: Seq::empty(),
                storage: storage.insert(key, value),
            },
        ),
{
    let code = spec_store_program(key, value);
    vstd::bytes::lemma_auto_spec_u64_to_from_le_bytes();
    assert(code.len() == 20);
    assert(code.subrange(1, 9) =~= vstd::bytes::spec_u64_to_le_bytes(key));
    assert(code.subrange(10, 18) =~= vstd::bytes::spec_u64_to_le_bytes(value));
    assert(code[0] == 0x01u8);
    assert(code[9] == 0x01u8);
    assert(code[18] == 0x11u8);
    assert(code[19] == 0x00u8);
    let m0 = initial_machine(storage, gas_limit);
    let m1 = Machine { ip: 9, stack: seq![key], gas: (gas_limit - 1) as u64, ..m0 };
    let m2 = Machine { ip: 18, stack: seq![key, value], gas: (gas_limit - 2) as u64, ..m0 };
    let m3 = Machine {
        ip: 19,
        stack: Seq::empty(),
        gas: (gas_limit - 5002) as u64,
        writes: seq![(key, value)],
        storage: storage.insert(key, value),
        ..m0
    };
    assert(step(code, env, m0) == Step::Continue(m1)) by {
        assert(m0.stack.push(key) =~= seq![key]);
    }
    assert(step(code, env, m1) == Step::Continue(m2)) by {
        assert(m1.stack.push(value) =~= seq![key, value]);
    }
    assert(step(code, env, m2) == Step::Continue(m3)) by {
        assert(popped(m2, 2) =~= Seq::<u64>::empty());
        assert(m2.writes.push((key, value)) =~= seq![(key, value)]);
    }
    let m4 = Machine { ip: 20, gas: (gas_limit - 5003) as u64, ..m3 };
    assert(step(code, env, m3) == Step::Stop(m4));
    assert(run(code, env, m3) == Exit::Done(m4));
    assert(run(code, env, m2) == Exit::Done(m4));
    assert(run(code, env, m1) == Exit::Done(m4));
    assert(run(code, env, m0) == Exit::Done(m4));
}

/// Code that pushes `a` then `b`, runs the two-operand instruction `op`
/// and returns the word it leaves.
pub open spec fn spec_binop_program(a: u64, b: u64, op: u8) -> Seq<u8> {
    seq![0x01u8] + vstd::bytes::spec_u64_to_le_bytes(a) + seq![0x01u8] + vstd::bytes::spec_u64_to_le_bytes(b) + seq![op, 0x21u8]
}

/// Running `PUSH a; PUSH b; op; RETURN` with enough gas completes and
/// returns the instruction's word, paying the four instructions' gas.
proof fn lemma_binop_program(a: u64, b: u64, op: u8, env: Env, storage: Map<u64, u64>, gas_limit: u64)
    requires
        0x02 <= op <= 0x0C,
        gas_limit >= 13,
    ensures
        spec_execute(spec_binop_program(a, b, op), env, storage, gas_limit) matches Exit::Done(m) && {
            &&& m.ret == vstd::bytes::spec_u64_to_le_bytes(binop(op, a, b))
            &&& m.gas == gas_limit - 3 - op_cost(op)->0
            &&& m.storage == storage
            &&& m.writes.len() == 0
            &&& m.logs.len() == 0
        },
{
    let code = spec_binop_program(a, b, op);
    vstd::bytes::lemma_auto_spec_u64_to_from_le_bytes();
    assert(code.len() == 20);
    assert(code.subrange(1, 9) =~= vstd::bytes::spec_u64_to_le_bytes(a));
    assert(code.subrange(10, 18) =~= vstd::bytes::spec_u64_to_le_bytes(b));
    assert(code[0] == 0x01u8);
    assert(code[9] == 0x01u8);
    assert(code[18] == op);
    assert(code[19] == 0x21u8);
    let c = op_cost(op)->0;
    assert(c == 1 || c == 5);
    let m0 = initial_machine(storage, gas_limit);
    let m1 = Machine { ip: 9, stack: seq![a], gas: (gas_limit - 1) as u64, ..m0 };
    let m2 = Machine { ip: 18, stack: seq![a, b], gas: (gas_limit - 2) as u64, ..m0 };
    let m3 = Machine { ip: 19, stack: seq![binop(op, a, b)], gas: (gas_limit - 2 - c) as u64, ..m0 };
    assert(step(code, env, m0) == Step::Continue(m1)) by {
        assert(m0.stack.push(a) =~= seq![a]);
    }
    assert(step(code, env, m1) == Step::Continue(m2)) by {
        assert(m1.stack.push(b) =~= seq![a, b]);
    }
    assert(step(code, env, m2) == Step::Continue(m3)) by {
        assert(popped(m2, 2).push(binop(op, a, b)) =~= seq![binop(op, a, b)]);
    }
    let m4 = Machine { ip: 20, stack: Seq::empty(), gas: (gas_limit - 3 - c) as u64, ret: vstd::bytes::spec_u64_to_le_bytes(binop(op, a, b)), ..m3 };
    assert(step(code, env, m3) == Step::Stop(m4)) by {
        assert(popped(m3, 1) =~= Seq::<u64>::empty());
    }
    assert(run(code, env, m3) == Exit::Done(m4));
    assert(run(code, env, m2) == Exit::Done(m4));
    assert(run(code, env, m1) == Exit::Done(m4));
    assert(run(code, env, m0) == Exit::Done(m4));
}

/// Law: `PUSH a; PUSH b; ADD; RETURN` returns `a + b` modulo 2^64 as eight
/// little-endian bytes and uses 4 gas.
pub proof fn law_add_returns_sum(a: u64, b: u64, env: Env, storage: Map<u64, u64>, gas_limit: u64)
    requires
        gas_limit >= 13,
    ensures
        spec_execute(spec_binop_program(a, b, 0x02), env, storage, gas_limit) matches Exit::Done(m) && m.ret
            == vstd::bytes::spec_u64_to_le_bytes(((a + b) % 0x1_0000_0000_0000_0000) as u64) && m.gas == gas_limit - 4,
{
    lemma_binop_program(a, b, 0x02, env, storage, gas_limit);
}

/// Law: `PUSH a; PUSH b; SUB; RETURN` returns `a - b` modulo 2^64 as eight
/// little-endian bytes and uses 4 gas.
pub proof fn law_sub_returns_difference(a: u64, b: u64, env: Env, storage: Map<u64, u64>, gas_limit: u64)
    requires
        gas_limit >= 13,
    ensures
        spec_execute(spec_binop_program(a, b, 0x03), env, storage, gas_limit) matches Exit::Done(m) && m.ret
            == vstd::bytes::spec_u64_to_le_bytes(((a - b + 0x1_0000_0000_0000_0000) % 0x1_0000_0000_0000_0000) as u64) && m.gas
            == gas_limit - 4,
{
    lemma_binop_program(a, b, 0x03, env, storage, gas_limit);
}

/// Law: `PUSH a; PUSH b; MUL; RETURN` returns the product `a * b` modulo
/// 2^64 as eight little-endian bytes and uses 4 gas.
pub proof fn law_mul_returns_product(a: u64, b: u64, env: Env, storage: Map<u64, u64>, gas_limit: u64)
    requires
        gas_limit >= 13,
    ensures
        spec_execute(spec_binop_program(a, b, 0x04), env, storage, gas_limit) matches Exit::Done(m) && m.ret
            == vstd::bytes::spec_u64_to_le_bytes(((a * b) % 0x1_0000_0000_0000_0000) as u64) && m.gas == gas_limit - 4,
{
    lemma_binop_program(a, b, 0x04, env, storage, gas_limit);
}

/// Law: `PUSH a; PUSH b; DIV; RETURN` returns `a / b` (0 when `b` is 0) and
/// uses 8 gas; `MOD` likewise returns `a % b` (0 when `b` is 0).
pub proof fn law_div_mod_return_quotient_and_remainder(a: u64, b: u64, env: Env, storage: Map<u64, u64>, gas_limit: u64)
    requires
        gas_limit >= 13,
    ensures
        spec_execute(spec_binop_program(a, b, 0x05), env, storage, gas_limit) matches Exit::Done(m) && m.ret
            == vstd::bytes::spec_u64_to_le_bytes(if b == 0 { 0 } else { (a / b) as u64 }) && m.gas == gas_limit - 8,
        spec_execute(spec_binop_program(a, b, 0x06), env, storage, gas_limit) matches Exit::Done(m) && m.ret
            == vstd::bytes::spec_u64_to_le_bytes(if b == 0 { 0 } else { (a % b) as u64 }) && m.gas == gas_limit - 8,
{
    lemma_binop_program(a, b, 0x05, env, storage, gas_limit);
    lemma_binop_program(a, b, 0x06, env, storage, gas_limit);
}

/// Law: `PUSH a; PUSH b; EQ/LT/GT; RETURN` returns 1 when `a == b`,
/// `a < b`, `a > b` respectively and 0 otherwise, using 4 gas.
pub proof fn law_comparisons_return_flags(a: u64, b: u64, env: Env, storage: Map<u64, u64>, gas_limit: u64)
    requires
        gas_limit >= 13,
    ensures
        spec_execute(spec_binop_program(a, b, 0x0A), env, storage, gas_limit) matches Exit::Done(m) && m.ret
            == vstd::bytes::spec_u64_to_le_bytes(if a == b { 1 } else { 0 }) && m.gas == gas_limit - 4,
        spec_execute(spec_binop_program(a, b, 0x0B), env, storage, gas_limit) matches Exit::Done(m) && m.ret
            == vstd::bytes::spec_u64_to_le_bytes(if a < b { 1 } else { 0 }) && m.gas == gas_limit - 4,
        spec_execute(spec_binop_program(a, b, 0x0C), env, storage, gas_limit) matches Exit::Done(m) && m.ret
            == vstd::bytes::spec_u64_to_le_bytes(if a > b { 1 } else { 0 }) && m.gas == gas_limit - 4,
{
    lemma_binop_program(a, b, 0x0A, env, storage, gas_limit);
    lemma_binop_program(a, b, 0x0B, env, storage, gas_limit);
    lemma_binop_program(a, b, 0x0C, env, storage, gas_limit);
}

} // verus!
