use evm_system::dispatch::{call, call_gas, call_read_only, call_transfer, create, gas_call_l64_after};
use evm_system::gas::{
    log_cost, selfdestruct_cost, sha3_cost, sload_cost, sstore_cost, sstore_refund, verylowcopy_cost,
    SelfDestructResult, Spec,
};
use evm_system::host::{
    CallContext, CallOutcome, CallScheme, CreateOutcome, CreateScheme, Host, StorageWrite, Transfer,
};
use evm_system::machine::{Contract, Control, ExitError, ExitFatal, ExitReason, ExitRevert, ExitSucceed, Gas, Machine};
use evm_system::system::{
    balance, blockhash, caller, chainid, extcodecopy, gas, log, returndatacopy, returndatasize, selfdestruct,
    pop_topics, sha3, sload, sstore,
};
use evm_system::word::{word_from_be_bytes, Word};
use bytes::Bytes;
use std::collections::HashSet;

fn w(n: u64) -> Word {
    Word::from_u64(n)
}

fn berlin() -> Spec {
    Spec {
        has_chain_id: true,
        has_self_balance: true,
        has_ext_code_hash: true,
        has_return_data: true,
        has_delegate_call: true,
        is_static_call: false,
        estimate: false,
        call_l64_after_gas: true,
        increase_state_access_gas: true,
        sstore_gas_metering: true,
        sstore_revert_under_stipend: true,
        has_selfdestruct_refund: true,
        gas_balance: 700,
        gas_ext_code: 700,
        gas_ext_code_hash: 700,
        gas_sload: 100,
        gas_sload_cold: 2100,
        gas_storage_read_warm: 100,
        gas_account_access_cold: 2600,
        gas_sstore_set: 20000,
        gas_sstore_reset: 2900,
        refund_sstore_clears: 15000,
        call_stipend: 2300,
        gas_selfdestruct: 5000,
        gas_selfdestruct_new_account: 25000,
    }
}

fn frame(gas_limit: u64) -> Machine {
    let contract = Contract { address: w(0xaa), caller: w(0xbb), value: w(7) };
    Machine::new(contract, gas_limit, 1024, 1 << 20)
}

/// A host with a fixed world, that remembers which slots were touched and what
/// it was asked to do.
#[derive(Default)]
struct TestHost {
    warm: HashSet<(Word, Word)>,
    storage_value: u64,
    code: Vec<u8>,
    call_return: Vec<u8>,
    call_reason: Option<ExitReason>,
    call_unused: u64,
    call_refund: u64,
    last_call_gas: Option<u64>,
    last_transfer: Option<Option<Transfer>>,
    last_context: Option<CallContext>,
    last_read_only: Option<bool>,
    last_create_code: Option<Vec<u8>>,
    last_create_gas: Option<u64>,
    last_create_scheme: Option<CreateScheme>,
    logged: Vec<(Vec<Word>, Vec<u8>)>,
    destroyed_before: bool,
}

impl Host for TestHost {
    fn balance(&mut self, address: Word) -> (Word, bool) {
        (w(address.w0 * 10), true)
    }
    fn code_size(&mut self, _address: Word) -> (Word, bool) {
        (w(self.code.len() as u64), false)
    }
    fn code_hash(&mut self, _address: Word) -> (Word, bool) {
        (w(0x1234), false)
    }
    fn code(&mut self, _address: Word) -> (Bytes, bool) {
        (Bytes::from(self.code.clone()), false)
    }
    fn sload(&mut self, address: Word, key: Word) -> (Word, bool) {
        let cold = self.warm.insert((address, key));
        (w(self.storage_value), cold)
    }
    fn sstore(&mut self, address: Word, key: Word, value: Word) -> StorageWrite {
        let cold = self.warm.insert((address, key));
        StorageWrite { original: w(self.storage_value), current: w(self.storage_value), new: value, is_cold: cold }
    }
    fn log(&mut self, _address: Word, topics: Vec<Word>, data: Bytes) {
        self.logged.push((topics, data.to_vec()));
    }
    fn selfdestruct(&mut self, _address: Word, _beneficiary: Word) -> Result<SelfDestructResult, ExitReason> {
        Ok(SelfDestructResult { previously_destroyed: self.destroyed_before, target_is_cold: true, target_is_new: false })
    }
    fn create(&mut self, _caller: Word, scheme: CreateScheme, _value: Word, code: Bytes, gas_limit: u64) -> CreateOutcome {
        self.last_create_code = Some(code.to_vec());
        self.last_create_gas = Some(gas_limit);
        self.last_create_scheme = Some(scheme);
        CreateOutcome {
            reason: ExitReason::Succeed(ExitSucceed::Returned),
            address: Some(w(0xcc)),
            gas: Gas { remaining: 100, refunded: 0 },
            return_data: Bytes::new(),
        }
    }
    fn call(
        &mut self,
        _code_address: Word,
        transfer: Option<Transfer>,
        _input: Bytes,
        gas_limit: u64,
        context: CallContext,
        read_only: bool,
    ) -> CallOutcome {
        self.last_call_gas = Some(gas_limit);
        self.last_transfer = Some(transfer);
        self.last_context = Some(context);
        self.last_read_only = Some(read_only);
        CallOutcome {
            reason: self.call_reason.unwrap_or(ExitReason::Succeed(ExitSucceed::Returned)),
            gas: Gas { remaining: self.call_unused, refunded: self.call_refund },
            return_data: Bytes::from(self.call_return.clone()),
        }
    }
    fn block_hash(&mut self, number: Word) -> Word {
        w(number.w0 + 1000)
    }
    fn block_coinbase(&mut self) -> Word {
        w(1)
    }
    fn block_timestamp(&mut self) -> Word {
        w(2)
    }
    fn block_number(&mut self) -> Word {
        w(3)
    }
    fn block_difficulty(&mut self) -> Word {
        w(4)
    }
    fn block_gas_limit(&mut self) -> Word {
        w(5)
    }
    fn chain_id(&mut self) -> Word {
        w(1337)
    }
    fn gas_price(&mut self) -> Word {
        w(9)
    }
    fn origin(&mut self) -> Word {
        w(0xdd)
    }
}

/// Pushes call operands so that the gas word ends on top.
fn push_call_operands(m: &mut Machine, gas_w: Word, to: u64, value: Option<u64>, io: [u64; 4]) {
    let [in_offset, in_len, out_offset, out_len] = io;
    for v in [out_len, out_offset, in_len, in_offset] {
        m.push(w(v)).unwrap();
    }
    if let Some(v) = value {
        m.push(w(v)).unwrap();
    }
    m.push(w(to)).unwrap();
    m.push(gas_w).unwrap();
}

#[test]
fn copy_costs_are_base_plus_words() {
    assert_eq!(sha3_cost(w(0)), Some(30));
    assert_eq!(sha3_cost(w(1)), Some(36));
    assert_eq!(sha3_cost(w(64)), Some(42));
    assert_eq!(verylowcopy_cost(w(33)), Some(9));
    assert_eq!(sha3_cost(Word { w0: 0, w1: 1, w2: 0, w3: 0 }), None);
    assert_eq!(sha3_cost(w(u64::MAX)), Some(30 + 6 * (1u64 << 59)));
}

#[test]
fn log_cost_counts_topics_and_bytes() {
    assert_eq!(log_cost(0, w(0)), Some(375));
    assert_eq!(log_cost(2, w(10)), Some(375 + 750 + 80));
    assert_eq!(log_cost(1, w(u64::MAX)), None);
}

#[test]
fn sload_cold_then_warm() {
    let spec = berlin();
    let mut host = TestHost { storage_value: 42, ..Default::default() };
    let mut m = frame(100_000);
    m.push(w(5)).unwrap();
    assert_eq!(sload(&mut m, &mut host, &spec), Control::Continue);
    assert_eq!(m.gas.remaining, 100_000 - 2100);
    assert_eq!(m.stack, vec![w(42)]);
    m.push(w(5)).unwrap();
    assert_eq!(sload(&mut m, &mut host, &spec), Control::Continue);
    assert_eq!(m.gas.remaining, 100_000 - 2100 - 100);
    assert_eq!(sload_cost(&spec, true), 2100);
    assert_eq!(sload_cost(&spec, false), 100);
}

#[test]
fn sload_underflow() {
    let mut m = frame(100);
    assert_eq!(
        sload(&mut m, &mut TestHost::default(), &berlin()),
        Control::Exit(ExitReason::Error(ExitError::StackUnderflow))
    );
    assert_eq!(m.gas.remaining, 100);
}

#[test]
fn sstore_refund_matrix() {
    let s = berlin();
    let (z, a, b) = (w(0), w(1), w(2));
    // current == new: no refund, whatever else holds
    assert_eq!(sstore_refund(&s, z, z, z), 0);
    assert_eq!(sstore_refund(&s, a, a, a), 0);
    assert_eq!(sstore_refund(&s, a, b, b), 0);
    // original == current, new == 0: the clearing refund
    assert_eq!(sstore_refund(&s, a, a, z), 15000);
    // original == current, new != 0: nothing
    assert_eq!(sstore_refund(&s, a, a, b), 0);
    assert_eq!(sstore_refund(&s, z, z, a), 0);
    // original != current, new == 0
    assert_eq!(sstore_refund(&s, a, b, z), 15000);
    assert_eq!(sstore_refund(&s, z, a, z), 20000 - 100);
    // original != current, new != 0
    assert_eq!(sstore_refund(&s, a, z, b), -15000);
    assert_eq!(sstore_refund(&s, a, b, a), 2900 - 100);
}

#[test]
fn sstore_cost_matrix() {
    let s = berlin();
    let (z, a, b) = (w(0), w(1), w(2));
    assert_eq!(sstore_cost(&s, z, z, z, 10_000, false), Some(100));
    assert_eq!(sstore_cost(&s, z, z, a, 10_000, false), Some(20000));
    assert_eq!(sstore_cost(&s, a, a, b, 10_000, false), Some(2900));
    assert_eq!(sstore_cost(&s, a, b, z, 10_000, false), Some(100));
    assert_eq!(sstore_cost(&s, a, a, b, 10_000, true), Some(2900 + 2100));
    assert_eq!(sstore_cost(&s, a, a, b, 2300, false), None);
}

#[test]
fn sstore_charges_and_refunds() {
    let spec = berlin();
    let mut host = TestHost { storage_value: 3, ..Default::default() };
    let mut m = frame(50_000);
    m.push(w(0)).unwrap();
    m.push(w(9)).unwrap();
    assert_eq!(sstore(&mut m, &mut host, &spec), Control::Continue);
    assert_eq!(m.gas.remaining, 50_000 - 2900 - 2100);
    assert_eq!(m.gas.refunded, 15000);
    assert!(m.stack.is_empty());
}

#[test]
fn sstore_estimate_charges_set_price() {
    let spec = Spec { estimate: true, ..berlin() };
    let mut host = TestHost { storage_value: 3, ..Default::default() };
    let mut m = frame(50_000);
    m.push(w(0)).unwrap();
    m.push(w(9)).unwrap();
    assert_eq!(sstore(&mut m, &mut host, &spec), Control::Continue);
    assert_eq!(m.gas.remaining, 30_000);
    assert_eq!(m.gas.refunded, 0);
}

#[test]
fn sstore_static_refused() {
    let spec = Spec { is_static_call: true, ..berlin() };
    let mut m = frame(50_000);
    m.push(w(0)).unwrap();
    m.push(w(9)).unwrap();
    assert_eq!(
        sstore(&mut m, &mut TestHost::default(), &spec),
        Control::Exit(ExitReason::Error(ExitError::InvalidInstruction))
    );
    assert_eq!(m.stack.len(), 2);
}

#[test]
fn sstore_under_stipend_is_out_of_gas() {
    let mut m = frame(2300);
    m.push(w(1)).unwrap();
    m.push(w(1)).unwrap();
    assert_eq!(
        sstore(&mut m, &mut TestHost::default(), &berlin()),
        Control::Exit(ExitReason::Error(ExitError::OutOfGas))
    );
    assert_eq!(m.gas.remaining, 2300);
}

#[test]
fn selfdestruct_ends_frame_with_refund() {
    let spec = berlin();
    let mut m = frame(100_000);
    m.push(w(0xee)).unwrap();
    let r = selfdestruct(&mut m, &mut TestHost::default(), &spec);
    assert_eq!(r, Control::Exit(ExitReason::Succeed(ExitSucceed::SelfDestructed)));
    assert_eq!(m.gas.refunded, 24000);
    assert_eq!(m.gas.remaining, 100_000 - 5000 - 2600);
}

#[test]
fn selfdestruct_again_earns_no_refund() {
    let spec = berlin();
    let mut host = TestHost { destroyed_before: true, ..Default::default() };
    let mut m = frame(100_000);
    m.push(w(0xee)).unwrap();
    let r = selfdestruct(&mut m, &mut host, &spec);
    assert_eq!(r, Control::Exit(ExitReason::Succeed(ExitSucceed::SelfDestructed)));
    assert_eq!(m.gas.refunded, 0);
    let res = SelfDestructResult { previously_destroyed: true, target_is_cold: false, target_is_new: true };
    assert_eq!(selfdestruct_cost(&spec, res), 30000);
}

#[test]
fn create2_with_empty_code() {
    let spec = berlin();
    let mut host = TestHost::default();
    let mut m = frame(64_000);
    m.push(w(0x5a17)).unwrap(); // salt
    m.push(w(0)).unwrap(); // len
    m.push(w(0)).unwrap(); // offset
    m.push(w(0)).unwrap(); // value
    let r = create(&mut m, true, &mut host, &spec);
    assert_eq!(r, Control::Continue);
    assert_eq!(host.last_create_gas, Some(63_000));
    assert_eq!(host.last_create_code, Some(Vec::new()));
    assert_eq!(host.last_create_scheme, Some(CreateScheme::Create2 { salt: w(0x5a17) }));
    assert_eq!(m.gas.remaining, 1000 + 100);
    assert_eq!(m.stack, vec![w(0xcc)]);
    assert!(m.memory.is_empty());
}

#[test]
fn call_copies_truncated_output() {
    let spec = berlin();
    let mut host = TestHost { call_return: vec![1, 2, 3, 4, 5], call_unused: 500, call_refund: 7, ..Default::default() };
    let mut m = frame(64_000);
    push_call_operands(&mut m, w(10_000), 0x42, Some(0), [0, 0, 0, 2]);
    let r = call(&mut m, CallScheme::Call, &mut host, &spec);
    assert_eq!(r, Control::Continue);
    assert_eq!(m.stack, vec![w(1)]);
    assert_eq!(&m.memory[0..3], &[1, 2, 0]);
    assert_eq!(m.memory.len(), 32);
    assert_eq!(m.return_data_buffer.to_vec(), vec![1u8, 2, 3, 4, 5]);
    assert_eq!(host.last_call_gas, Some(10_000));
    assert_eq!(m.gas.remaining, 64_000 - 10_000 + 500);
    assert_eq!(m.gas.refunded, 7);
}

#[test]
fn call_forwards_63_64() {
    let spec = berlin();
    let mut host = TestHost { call_unused: 0, ..Default::default() };
    let mut m = frame(64_000);
    push_call_operands(&mut m, Word { w0: 0, w1: 0, w2: 0, w3: 1 }, 0x42, Some(0), [0, 0, 0, 0]);
    call(&mut m, CallScheme::Call, &mut host, &spec);
    assert_eq!(host.last_call_gas, Some(63_000));
    assert_eq!(m.gas.remaining, 1000);
}

#[test]
fn call_error_consumes_forwarded_gas() {
    let spec = berlin();
    let mut host = TestHost {
        call_reason: Some(ExitReason::Error(ExitError::OutOfGas)),
        call_unused: 900,
        ..Default::default()
    };
    let mut m = frame(64_000);
    push_call_operands(&mut m, w(5_000), 0x42, Some(0), [0, 0, 0, 0]);
    assert_eq!(call(&mut m, CallScheme::Call, &mut host, &spec), Control::Continue);
    assert_eq!(m.stack, vec![w(0)]);
    assert_eq!(m.gas.remaining, 59_000);
}

#[test]
fn call_revert_returns_gas_without_refund() {
    let spec = berlin();
    let mut host = TestHost {
        call_reason: Some(ExitReason::Revert(ExitRevert::Reverted)),
        call_unused: 900,
        call_refund: 50,
        call_return: vec![9, 9],
        ..Default::default()
    };
    let mut m = frame(64_000);
    push_call_operands(&mut m, w(5_000), 0x42, Some(0), [0, 0, 0, 4]);
    assert_eq!(call(&mut m, CallScheme::Call, &mut host, &spec), Control::Continue);
    assert_eq!(m.stack, vec![w(0)]);
    assert_eq!(m.gas.remaining, 59_900);
    assert_eq!(m.gas.refunded, 0);
    assert_eq!(&m.memory[0..4], &[9, 9, 0, 0]);
}

#[test]
fn call_fatal_is_passed_on() {
    let spec = berlin();
    let mut host = TestHost { call_reason: Some(ExitReason::Fatal(ExitFatal::Other)), ..Default::default() };
    let mut m = frame(64_000);
    push_call_operands(&mut m, w(5_000), 0x42, None, [0, 0, 0, 0]);
    let r = call(&mut m, CallScheme::StaticCall, &mut host, &spec);
    assert_eq!(r, Control::Exit(ExitReason::Fatal(ExitFatal::Other)));
    assert_eq!(m.stack, vec![w(0)]);
    assert_eq!(host.last_read_only, Some(true));
}

#[test]
fn callcode_and_delegatecall_move_no_value_between_accounts() {
    let spec = berlin();
    let mut host = TestHost::default();
    let mut m = frame(64_000);
    push_call_operands(&mut m, w(1_000), 0x42, Some(5), [0, 0, 0, 0]);
    call(&mut m, CallScheme::CallCode, &mut host, &spec);
    let t = host.last_transfer.unwrap().unwrap();
    assert_eq!(t.source, t.target);
    assert_eq!(host.last_context.unwrap().address, w(0xaa));

    let mut m = frame(64_000);
    push_call_operands(&mut m, w(1_000), 0x42, None, [0, 0, 0, 0]);
    call(&mut m, CallScheme::DelegateCall, &mut host, &spec);
    assert_eq!(host.last_transfer.unwrap(), None);
    let c = host.last_context.unwrap();
    assert_eq!((c.address, c.caller, c.apparent_value), (w(0xaa), w(0xbb), w(7)));

    assert_eq!(
        call_transfer(CallScheme::Call, w(1), w(2), w(3)),
        Some(Transfer { source: w(1), target: w(2), value: w(3) })
    );
}

#[test]
fn call_in_static_frame_refused() {
    let spec = Spec { is_static_call: true, ..berlin() };
    let mut m = frame(64_000);
    push_call_operands(&mut m, w(1_000), 0x42, Some(5), [0, 0, 0, 0]);
    assert_eq!(
        call(&mut m, CallScheme::Call, &mut TestHost::default(), &spec),
        Control::Exit(ExitReason::Error(ExitError::InvalidInstruction))
    );
}

#[test]
fn delegatecall_needs_protocol_support() {
    let spec = Spec { has_delegate_call: false, ..berlin() };
    let mut m = frame(64_000);
    push_call_operands(&mut m, w(1_000), 0x42, None, [0, 0, 0, 0]);
    assert_eq!(
        call(&mut m, CallScheme::DelegateCall, &mut TestHost::default(), &spec),
        Control::Exit(ExitReason::Error(ExitError::InvalidInstruction))
    );
}

#[test]
fn l64_estimate_charges_retained_part() {
    let spec = Spec { estimate: true, ..berlin() };
    let mut m = frame(6400);
    assert_eq!(gas_call_l64_after(&mut m, &spec), Ok(6300));
    assert_eq!(m.gas.remaining, 6300);
    let mut m = frame(6400);
    assert_eq!(gas_call_l64_after(&mut m, &berlin()), Ok(6300));
    assert_eq!(m.gas.remaining, 6400);
}

#[test]
fn extcodecopy_zero_pads() {
    let spec = berlin();
    let mut host = TestHost { code: vec![0xa, 0xb, 0xc], ..Default::default() };
    let mut m = frame(10_000);
    m.push(w(5)).unwrap(); // len
    m.push(w(1)).unwrap(); // code offset
    m.push(w(2)).unwrap(); // memory offset
    m.push(w(0x42)).unwrap(); // address
    assert_eq!(extcodecopy(&mut m, &mut host, &spec), Control::Continue);
    assert_eq!(m.memory.len(), 32);
    assert_eq!(&m.memory[0..8], &[0, 0, 0xb, 0xc, 0, 0, 0, 0]);
    assert_eq!(m.gas.remaining, 10_000 - 100 - 3);
}

#[test]
fn returndatacopy_past_end_fails() {
    let spec = berlin();
    let mut m = frame(10_000);
    m.return_data_buffer = Bytes::from(vec![1u8, 2, 3]);
    m.push(w(3)).unwrap(); // len
    m.push(w(1)).unwrap(); // data offset
    m.push(w(0)).unwrap(); // memory offset
    assert_eq!(returndatacopy(&mut m, &spec), Control::Exit(ExitReason::Error(ExitError::OutOfOffset)));

    let mut m = frame(10_000);
    m.return_data_buffer = Bytes::from(vec![1u8, 2, 3]);
    m.push(w(2)).unwrap();
    m.push(w(1)).unwrap();
    m.push(w(0)).unwrap();
    assert_eq!(returndatacopy(&mut m, &spec), Control::Continue);
    assert_eq!(&m.memory[0..3], &[2, 3, 0]);
    assert_eq!(m.gas.remaining, 10_000 - 6);
}

#[test]
fn returndata_needs_protocol_support() {
    let spec = Spec { has_return_data: false, ..berlin() };
    let mut m = frame(10_000);
    assert_eq!(returndatasize(&mut m, &spec), Control::Exit(ExitReason::Error(ExitError::InvalidInstruction)));
    m.return_data_buffer = Bytes::from(vec![1u8, 2]);
    assert_eq!(returndatasize(&mut m, &berlin()), Control::Continue);
    assert_eq!(m.stack, vec![w(2)]);
}

#[test]
fn sha3_of_empty_input() {
    let mut m = frame(1000);
    m.push(w(0)).unwrap();
    m.push(w(0)).unwrap();
    assert_eq!(sha3(&mut m), Control::Continue);
    let expected = Word {
        w3: 0xc5d2460186f7233c,
        w2: 0x927e7db2dcc703c0,
        w1: 0xe500b653ca82273b,
        w0: 0x7bfad8045d85a470,
    };
    assert_eq!(m.stack, vec![expected]);
    assert_eq!(m.gas.remaining, 970);
}

#[test]
fn sha3_reads_memory_window() {
    let mut m = frame(1000);
    m.memory = vec![0u8; 32];
    m.push(w(0)).unwrap(); // len
    m.push(w(4)).unwrap(); // offset
    sha3(&mut m);
    let mut m2 = frame(1000);
    m2.push(w(1)).unwrap();
    m2.push(w(0)).unwrap();
    sha3(&mut m2);
    assert_ne!(m.stack, m2.stack);
    assert_eq!(m2.memory.len(), 32);
}

#[test]
fn word_from_big_endian_bytes() {
    let mut b = vec![0u8; 32];
    b[31] = 1;
    b[0] = 0x80;
    assert_eq!(word_from_be_bytes(&b), Word { w0: 1, w1: 0, w2: 0, w3: 0x8000_0000_0000_0000 });
}

#[test]
fn log_hands_topics_and_data() {
    let spec = berlin();
    let mut host = TestHost::default();
    let mut m = frame(10_000);
    m.memory = vec![7u8; 32];
    m.push(w(0x22)).unwrap(); // second topic
    m.push(w(0x11)).unwrap(); // first topic
    m.push(w(2)).unwrap(); // len
    m.push(w(30)).unwrap(); // offset
    assert_eq!(log(&mut m, 2, &mut host, &spec), Control::Continue);
    assert_eq!(host.logged, vec![(vec![w(0x11), w(0x22)], vec![7, 7])]);
    assert_eq!(m.gas.remaining, 10_000 - 375 - 750 - 16);
    assert!(m.stack.is_empty());
}

#[test]
fn log_missing_topic_underflows() {
    let mut m = frame(10_000);
    m.push(w(0)).unwrap();
    m.push(w(0)).unwrap();
    assert_eq!(
        log(&mut m, 1, &mut TestHost::default(), &berlin()),
        Control::Exit(ExitReason::Error(ExitError::StackUnderflow))
    );
}

#[test]
fn queries_push_values() {
    let spec = berlin();
    let mut host = TestHost::default();
    let mut m = frame(10_000);
    assert_eq!(chainid(&mut m, &mut host, &spec), Control::Continue);
    assert_eq!(caller(&mut m), Control::Continue);
    m.push(w(3)).unwrap();
    assert_eq!(balance(&mut m, &mut host, &spec), Control::Continue);
    m.push(w(8)).unwrap();
    assert_eq!(blockhash(&mut m, &mut host), Control::Continue);
    assert_eq!(m.stack, vec![w(1337), w(0xbb), w(30), w(1008)]);
    assert_eq!(m.gas.remaining, 10_000 - 2 - 2 - 2600 - 20);
    assert_eq!(gas(&mut m), Control::Continue);
    assert_eq!(m.stack[4], w(10_000 - 2 - 2 - 2600 - 20 - 2));
}

#[test]
fn chainid_needs_protocol_support() {
    let spec = Spec { has_chain_id: false, ..berlin() };
    let mut m = frame(10);
    assert_eq!(
        chainid(&mut m, &mut TestHost::default(), &spec),
        Control::Exit(ExitReason::Error(ExitError::InvalidInstruction))
    );
}

#[test]
fn out_of_gas_leaves_stack() {
    let mut m = frame(1);
    assert_eq!(caller(&mut m), Control::Exit(ExitReason::Error(ExitError::OutOfGas)));
    assert!(m.stack.is_empty());
    assert_eq!(m.gas.remaining, 1);
}

#[test]
fn returndatacopy_offset_overflow_fails() {
    let mut m = frame(10_000);
    m.return_data_buffer = Bytes::from(vec![1u8, 2, 3]);
    m.push(w(1)).unwrap(); // len
    m.push(Word { w0: u64::MAX, w1: u64::MAX, w2: u64::MAX, w3: u64::MAX }).unwrap(); // data offset
    m.push(w(0)).unwrap(); // memory offset
    assert_eq!(returndatacopy(&mut m, &berlin()), Control::Exit(ExitReason::Error(ExitError::OutOfOffset)));
}

#[test]
fn create_reads_code_and_refused_when_static() {
    let spec = berlin();
    let mut host = TestHost::default();
    let mut m = frame(64_000);
    m.memory = vec![0x60, 0x00, 0xf3];
    m.push(w(3)).unwrap(); // len
    m.push(w(0)).unwrap(); // offset
    m.push(w(0)).unwrap(); // value
    assert_eq!(create(&mut m, false, &mut host, &spec), Control::Continue);
    assert_eq!(host.last_create_code, Some(vec![0x60, 0x00, 0xf3]));
    assert_eq!(host.last_create_scheme, Some(CreateScheme::Create));
    assert_eq!(m.memory.len(), 32);

    let spec = Spec { is_static_call: true, ..berlin() };
    let mut m = frame(64_000);
    m.push(w(0)).unwrap();
    m.push(w(0)).unwrap();
    m.push(w(0)).unwrap();
    assert_eq!(
        create(&mut m, false, &mut host, &spec),
        Control::Exit(ExitReason::Error(ExitError::InvalidInstruction))
    );
}

#[test]
fn memory_window_too_large_is_invalid_range() {
    let mut m = frame(10_000);
    m.push(w(1)).unwrap(); // len
    m.push(w(u64::MAX)).unwrap(); // offset
    assert_eq!(sha3(&mut m), Control::Exit(ExitReason::Error(ExitError::InvalidRange)));
    assert!(m.memory.is_empty());
}

#[test]
fn topics_come_top_first() {
    let mut m = frame(10);
    m.push(w(3)).unwrap();
    m.push(w(2)).unwrap();
    m.push(w(1)).unwrap();
    assert_eq!(pop_topics(&mut m, 2), Ok(vec![w(1), w(2)]));
    assert_eq!(m.stack, vec![w(3)]);
    assert_eq!(pop_topics(&mut m, 2), Err(ExitError::StackUnderflow));
}

#[test]
fn call_gas_is_min_of_limit_and_63_64() {
    let spec = berlin();
    let mut m = frame(6400);
    assert_eq!(call_gas(&mut m, &spec, 1000), 1000);
    assert_eq!(m.gas.remaining, 5400);
    let mut m = frame(6400);
    assert_eq!(call_gas(&mut m, &spec, u64::MAX), 6300);
    assert_eq!(m.gas.remaining, 100);
    let mut m = frame(6400);
    assert_eq!(call_gas(&mut m, &Spec { estimate: true, ..berlin() }, u64::MAX), 6300);
    assert_eq!(m.gas.remaining, 0);
}

#[test]
fn read_only_for_staticcall_or_static_frame() {
    assert!(call_read_only(CallScheme::StaticCall, &berlin()));
    assert!(!call_read_only(CallScheme::Call, &berlin()));
    assert!(call_read_only(CallScheme::CallCode, &Spec { is_static_call: true, ..berlin() }));
}

#[test]
fn static_log_emits_nothing() {
    let mut host = TestHost::default();
    let mut m = frame(10_000);
    m.push(w(0)).unwrap();
    m.push(w(0)).unwrap();
    let r = log(&mut m, 0, &mut host, &Spec { is_static_call: true, ..berlin() });
    assert_eq!(r, Control::Exit(ExitReason::Error(ExitError::InvalidInstruction)));
    assert!(host.logged.is_empty());
    assert_eq!(m.stack.len(), 2);
}
