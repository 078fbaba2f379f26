use vstd::prelude::*;
use crate::ext::{bytes_from_vec, bytes_len, bytes_to_vec, bytes_view, checked_add_word, keccak256, keccak256_of, word_modulus};
use crate::gas::{
    account_access_cost, account_access_cost_spec, selfdestruct_cost, selfdestruct_cost_spec,
    sload_cost, sload_cost_spec, spec_wf, sstore_cost, sstore_cost_spec, sstore_refund,
    sstore_refund_spec, log_cost, log_cost_spec, extcodecopy_cost, extcodecopy_cost_spec, verylowcopy_cost,
    verylowcopy_cost_spec, sha3_cost, sha3_cost_spec, SelfDestructResult, Spec, BASE, BLOCKHASH, LOW, SELFDESTRUCT,
};
use crate::host::{Host, StorageWrite};
use crate::machine::{
    ceil32, clamp_refund, copy_large, copy_large_spec, exit_error, resize_spec, sat_add, Control, ExitError, ExitReason, ExitSucceed,
    Machine,
};
use crate::word::{fits_u64, lemma_val_small, is_zero, val, word_from_be, word_from_be_bytes, word_of, Word};

verus! {

/// Everything but the stack and the remaining gas is as it was.
pub open spec fn same_frame(a: Machine, b: Machine) -> bool {
    &&& b.memory@ == a.memory@
    &&& b.memory_limit == a.memory_limit
    &&& b.stack_limit == a.stack_limit
    &&& b.contract == a.contract
    &&& bytes_view(b.return_data_buffer) == bytes_view(a.return_data_buffer)
    &&& b.gas.refunded == a.gas.refunded
}

pub open spec fn unchanged(a: Machine, b: Machine) -> bool {
    same_frame(a, b) && b.stack@ == a.stack@ && b.gas == a.gas
}

/// From `a` to `b`: `cost` is charged, then `w` is pushed onto `base`; the
/// first step that fails ends the instruction with its error.
pub open spec fn charged_push(base: Seq<Word>, a: Machine, b: Machine, cost: u64, w: Word, r: Control) -> bool {
    &&& same_frame(a, b)
    &&& if cost > a.gas.remaining {
        &&& r == exit_error(ExitError::OutOfGas)
        &&& b.stack@ == base
        &&& b.gas.remaining == a.gas.remaining
    } else if base.len() >= a.stack_limit {
        &&& r == exit_error(ExitError::StackOverflow)
        &&& b.stack@ == base
        &&& b.gas.remaining == a.gas.remaining - cost
    } else {
        &&& r == Control::Continue
        &&& b.stack@ == base.push(w)
        &&& b.gas.remaining == a.gas.remaining - cost
    }
}

/// Charges `cost`, then pushes `w`.
pub fn charge_and_push(machine: &mut Machine, cost: u64, w: Word) -> (r: Control)
    ensures
        charged_push(old(machine).stack@, *old(machine), *final(machine), cost, w, r),
{
    if !machine.gas.record_cost(cost) {
        return Control::Exit(crate::machine::ExitReason::Error(ExitError::OutOfGas));
    }
    match machine.push(w) {
        Ok(()) => Control::Continue,
        Err(e) => Control::Exit(crate::machine::ExitReason::Error(e)),
    }
}

/// Charges `cost`, or ends the instruction out of gas.
pub fn charge(machine: &mut Machine, cost: u64) -> (r: Option<Control>)
    ensures
        cost <= old(machine).gas.remaining ==> r.is_none() && final(machine).gas.remaining
            == old(machine).gas.remaining - cost,
        cost > old(machine).gas.remaining ==> r == Some(exit_error(ExitError::OutOfGas))
            && final(machine).gas.remaining == old(machine).gas.remaining,
        same_frame(*old(machine), *final(machine)),
        final(machine).stack@ == old(machine).stack@,
{
    if machine.gas.record_cost(cost) {
        None
    } else {
        Some(Control::Exit(crate::machine::ExitReason::Error(ExitError::OutOfGas)))
    }
}

pub open spec fn disabled(a: Machine, b: Machine, r: Control) -> bool {
    r == exit_error(ExitError::InvalidInstruction) && unchanged(a, b)
}

pub open spec fn underflow(a: Machine, b: Machine, r: Control) -> bool {
    r == exit_error(ExitError::StackUnderflow) && same_frame(a, b) && b.gas == a.gas
}

/// CHAINID: pushes the chain identifier.
pub fn chainid<H: Host>(machine: &mut Machine, handler: &mut H, spec: &Spec) -> (r: Control)
    ensures
        !spec.has_chain_id ==> disabled(*old(machine), *final(machine), r)
            && *final(handler) == *old(handler),
        spec.has_chain_id ==> exists|w: Word|
            charged_push(old(machine).stack@, *old(machine), *final(machine), BASE, w, r),
{
    if !spec.has_chain_id {
        return Control::Exit(crate::machine::ExitReason::Error(ExitError::InvalidInstruction));
    }
    let id = handler.chain_id();
    let r = charge_and_push(machine, BASE, id);
    assert(charged_push(old(machine).stack@, *old(machine), *machine, BASE, id, r));
    r
}

/// ADDRESS: pushes the executing account.
pub fn address(machine: &mut Machine) -> (r: Control)
    ensures
        charged_push(old(machine).stack@, *old(machine), *final(machine), BASE, old(machine).contract.address, r),
{
    let a = machine.contract.address;
    charge_and_push(machine, BASE, a)
}

/// BALANCE: pushes the balance of the popped account.
pub fn balance<H: Host>(machine: &mut Machine, handler: &mut H, spec: &Spec) -> (r: Control)
    ensures
        old(machine).stack.len() == 0 ==> underflow(*old(machine), *final(machine), r)
            && *final(handler) == *old(handler),
        old(machine).stack.len() > 0 ==> exists|w: Word, cold: bool|
            #[trigger] charged_push(
                old(machine).stack@.drop_last(),
                *old(machine),
                *final(machine),
                account_access_cost_spec(*spec, cold, spec.gas_balance),
                w,
                r,
            ),
{
    let a = match machine.pop() {
        Ok(a) => a,
        Err(e) => return Control::Exit(crate::machine::ExitReason::Error(e)),
    };
    let (b, cold) = handler.balance(a.to_address());
    let cost = account_access_cost(spec, cold, spec.gas_balance);
    let r = charge_and_push(machine, cost, b);
    assert(charged_push(old(machine).stack@.drop_last(), *old(machine), *machine, cost, b, r));
    r
}

/// SELFBALANCE: pushes the balance of the executing account.
pub fn selfbalance<H: Host>(machine: &mut Machine, handler: &mut H, spec: &Spec) -> (r: Control)
    ensures
        !spec.has_self_balance ==> disabled(*old(machine), *final(machine), r)
            && *final(handler) == *old(handler),
        spec.has_self_balance ==> exists|w: Word|
            #[trigger] charged_push(old(machine).stack@, *old(machine), *final(machine), LOW, w, r),
{
    if !spec.has_self_balance {
        return Control::Exit(crate::machine::ExitReason::Error(ExitError::InvalidInstruction));
    }
    let (v, _) = handler.balance(machine.contract.address);
    let r = charge_and_push(machine, LOW, v);
    assert(charged_push(old(machine).stack@, *old(machine), *machine, LOW, v, r));
    r
}

/// ORIGIN: pushes the account that began the transaction.
pub fn origin<H: Host>(machine: &mut Machine, handler: &mut H) -> (r: Control)
    ensures
        exists|w: Word|
            #[trigger] charged_push(old(machine).stack@, *old(machine), *final(machine), BASE, w, r),
{
    let v = handler.origin();
    let r = charge_and_push(machine, BASE, v);
    assert(charged_push(old(machine).stack@, *old(machine), *machine, BASE, v, r));
    r
}

/// CALLER: pushes the account that called this frame.
pub fn caller(machine: &mut Machine) -> (r: Control)
    ensures
        charged_push(old(machine).stack@, *old(machine), *final(machine), BASE, old(machine).contract.caller, r),
{
    let v = machine.contract.caller;
    charge_and_push(machine, BASE, v)
}

/// CALLVALUE: pushes the value sent with this frame.
pub fn callvalue(machine: &mut Machine) -> (r: Control)
    ensures
        charged_push(old(machine).stack@, *old(machine), *final(machine), BASE, old(machine).contract.value, r),
{
    let v = machine.contract.value;
    charge_and_push(machine, BASE, v)
}

/// GASPRICE: pushes the transaction's gas price.
pub fn gasprice<H: Host>(machine: &mut Machine, handler: &mut H) -> (r: Control)
    ensures
        exists|w: Word|
            #[trigger] charged_push(old(machine).stack@, *old(machine), *final(machine), BASE, w, r),
{
    let v = handler.gas_price();
    let r = charge_and_push(machine, BASE, v);
    assert(charged_push(old(machine).stack@, *old(machine), *machine, BASE, v, r));
    r
}

/// EXTCODESIZE: pushes the code size of the popped account.
pub fn extcodesize<H: Host>(machine: &mut Machine, handler: &mut H, spec: &Spec) -> (r: Control)
    ensures
        old(machine).stack.len() == 0 ==> underflow(*old(machine), *final(machine), r)
            && *final(handler) == *old(handler),
        old(machine).stack.len() > 0 ==> exists|w: Word, cold: bool|
            #[trigger] charged_push(
                old(machine).stack@.drop_last(),
                *old(machine),
                *final(machine),
                account_access_cost_spec(*spec, cold, spec.gas_ext_code),
                w,
                r,
            ),
{
    let a = match machine.pop() {
        Ok(a) => a,
        Err(e) => return Control::Exit(crate::machine::ExitReason::Error(e)),
    };
    let (v, cold) = handler.code_size(a.to_address());
    let cost = account_access_cost(spec, cold, spec.gas_ext_code);
    let r = charge_and_push(machine, cost, v);
    assert(charged_push(old(machine).stack@.drop_last(), *old(machine), *machine, cost, v, r));
    r
}

/// EXTCODEHASH: pushes the code hash of the popped account.
pub fn extcodehash<H: Host>(machine: &mut Machine, handler: &mut H, spec: &Spec) -> (r: Control)
    ensures
        !spec.has_ext_code_hash ==> disabled(*old(machine), *final(machine), r)
            && *final(handler) == *old(handler),
        spec.has_ext_code_hash && old(machine).stack.len() == 0 ==> underflow(*old(machine), *final(machine), r)
            && *final(handler) == *old(handler),
        spec.has_ext_code_hash && old(machine).stack.len() > 0 ==> exists|w: Word, cold: bool|
            #[trigger] charged_push(
                old(machine).stack@.drop_last(),
                *old(machine),
                *final(machine),
                account_access_cost_spec(*spec, cold, spec.gas_ext_code_hash),
                w,
                r,
            ),
{
    if !spec.has_ext_code_hash {
        return Control::Exit(crate::machine::ExitReason::Error(ExitError::InvalidInstruction));
    }
    let a = match machine.pop() {
        Ok(a) => a,
        Err(e) => return Control::Exit(crate::machine::ExitReason::Error(e)),
    };
    let (v, cold) = handler.code_hash(a.to_address());
    let cost = account_access_cost(spec, cold, spec.gas_ext_code_hash);
    let r = charge_and_push(machine, cost, v);
    assert(charged_push(old(machine).stack@.drop_last(), *old(machine), *machine, cost, v, r));
    r
}

/// RETURNDATASIZE: pushes the length of the last nested call's return data.
pub fn returndatasize(machine: &mut Machine, spec: &Spec) -> (r: Control)
    ensures
        !spec.has_return_data ==> disabled(*old(machine), *final(machine), r),
        spec.has_return_data ==> charged_push(
            old(machine).stack@,
            *old(machine),
            *final(machine),
            BASE,
            word_of(bytes_view(old(machine).return_data_buffer).len() as u64),
            r,
        ),
{
    if !spec.has_return_data {
        return Control::Exit(crate::machine::ExitReason::Error(ExitError::InvalidInstruction));
    }
    let size = Word::from_u64(bytes_len(&machine.return_data_buffer) as u64);
    charge_and_push(machine, BASE, size)
}

/// BLOCKHASH: charges, then replaces the popped block number by that block's hash.
pub fn blockhash<H: Host>(machine: &mut Machine, handler: &mut H) -> (r: Control)
    ensures
        BLOCKHASH > old(machine).gas.remaining ==> r == exit_error(ExitError::OutOfGas) && unchanged(
            *old(machine),
            *final(machine),
        ) && *final(handler) == *old(handler),
        BLOCKHASH <= old(machine).gas.remaining && old(machine).stack.len() == 0 ==> r == exit_error(
            ExitError::StackUnderflow,
        ) && same_frame(*old(machine), *final(machine)) && final(machine).stack@ == old(machine).stack@
            && final(machine).gas.remaining == old(machine).gas.remaining - BLOCKHASH
            && *final(handler) == *old(handler),
        BLOCKHASH <= old(machine).gas.remaining && old(machine).stack.len() > 0 ==> exists|w: Word|
            #[trigger] charged_push(old(machine).stack@.drop_last(), *old(machine), *final(machine), BLOCKHASH, w, r),
{
    if let Some(c) = charge(machine, BLOCKHASH) {
        return c;
    }
    let n = match machine.pop() {
        Ok(n) => n,
        Err(e) => return Control::Exit(crate::machine::ExitReason::Error(e)),
    };
    let h = handler.block_hash(n);
    let r = match machine.push(h) {
        Ok(()) => Control::Continue,
        Err(e) => Control::Exit(crate::machine::ExitReason::Error(e)),
    };
    assert(charged_push(old(machine).stack@.drop_last(), *old(machine), *machine, BLOCKHASH, h, r));
    r
}

/// COINBASE: pushes the block's beneficiary.
pub fn coinbase<H: Host>(machine: &mut Machine, handler: &mut H) -> (r: Control)
    ensures
        exists|w: Word|
            #[trigger] charged_push(old(machine).stack@, *old(machine), *final(machine), BASE, w, r),
{
    let v = handler.block_coinbase();
    let r = charge_and_push(machine, BASE, v);
    assert(charged_push(old(machine).stack@, *old(machine), *machine, BASE, v, r));
    r
}

/// TIMESTAMP: pushes the block's timestamp.
pub fn timestamp<H: Host>(machine: &mut Machine, handler: &mut H) -> (r: Control)
    ensures
        exists|w: Word|
            #[trigger] charged_push(old(machine).stack@, *old(machine), *final(machine), BASE, w, r),
{
    let v = handler.block_timestamp();
    let r = charge_and_push(machine, BASE, v);
    assert(charged_push(old(machine).stack@, *old(machine), *machine, BASE, v, r));
    r
}

/// NUMBER: pushes the block's number.
pub fn number<H: Host>(machine: &mut Machine, handler: &mut H) -> (r: Control)
    ensures
        exists|w: Word|
            #[trigger] charged_push(old(machine).stack@, *old(machine), *final(machine), BASE, w, r),
{
    let v = handler.block_number();
    let r = charge_and_push(machine, BASE, v);
    assert(charged_push(old(machine).stack@, *old(machine), *machine, BASE, v, r));
    r
}

/// DIFFICULTY: pushes the block's difficulty.
pub fn difficulty<H: Host>(machine: &mut Machine, handler: &mut H) -> (r: Control)
    ensures
        exists|w: Word|
            #[trigger] charged_push(old(machine).stack@, *old(machine), *final(machine), BASE, w, r),
{
    let v = handler.block_difficulty();
    let r = charge_and_push(machine, BASE, v);
    assert(charged_push(old(machine).stack@, *old(machine), *machine, BASE, v, r));
    r
}

/// GASLIMIT: pushes the block's gas limit.
pub fn gaslimit<H: Host>(machine: &mut Machine, handler: &mut H) -> (r: Control)
    ensures
        exists|w: Word|
            #[trigger] charged_push(old(machine).stack@, *old(machine), *final(machine), BASE, w, r),
{
    let v = handler.block_gas_limit();
    let r = charge_and_push(machine, BASE, v);
    assert(charged_push(old(machine).stack@, *old(machine), *machine, BASE, v, r));
    r
}

/// SLOAD: pushes the value stored under the popped key of the executing account.
pub fn sload<H: Host>(machine: &mut Machine, handler: &mut H, spec: &Spec) -> (r: Control)
    ensures
        old(machine).stack.len() == 0 ==> underflow(*old(machine), *final(machine), r)
            && *final(handler) == *old(handler),
        old(machine).stack.len() > 0 ==> exists|w: Word, cold: bool|
            #[trigger] charged_push(
                old(machine).stack@.drop_last(),
                *old(machine),
                *final(machine),
                sload_cost_spec(*spec, cold),
                w,
                r,
            ),
{
    let key = match machine.pop() {
        Ok(k) => k,
        Err(e) => return Control::Exit(crate::machine::ExitReason::Error(e)),
    };
    let (v, cold) = handler.sload(machine.contract.address, key);
    let cost = sload_cost(spec, cold);
    let r = charge_and_push(machine, cost, v);
    assert(charged_push(old(machine).stack@.drop_last(), *old(machine), *machine, cost, v, r));
    r
}

/// GAS: pushes the gas left after this instruction is paid for.
pub fn gas(machine: &mut Machine) -> (r: Control)
    ensures
        charged_push(
            old(machine).stack@,
            *old(machine),
            *final(machine),
            BASE,
            word_of((old(machine).gas.remaining - BASE) as u64),
            r,
        ),
{
    if let Some(c) = charge(machine, BASE) {
        return c;
    }
    let left = Word::from_u64(machine.gas.remaining());
    match machine.push(left) {
        Ok(()) => Control::Continue,
        Err(e) => Control::Exit(crate::machine::ExitReason::Error(e)),
    }
}

/// The gas and refund of a storage write that the host reported as `w`; the
/// stack is left to the caller.
pub open spec fn sstore_charged(a: Machine, b: Machine, spec: Spec, w: StorageWrite, r: Control) -> bool {
    &&& b.memory@ == a.memory@
    &&& b.memory_limit == a.memory_limit
    &&& b.stack_limit == a.stack_limit
    &&& b.contract == a.contract
    &&& bytes_view(b.return_data_buffer) == bytes_view(a.return_data_buffer)
    &&& if spec.estimate {
        if spec.gas_sstore_set > a.gas.remaining {
            r == exit_error(ExitError::OutOfGas) && b.gas == a.gas
        } else {
            &&& r == Control::Continue
            &&& b.gas.remaining == a.gas.remaining - spec.gas_sstore_set
            &&& b.gas.refunded == a.gas.refunded
        }
    } else {
        match sstore_cost_spec(spec, w.original, w.current, w.new, a.gas.remaining, w.is_cold) {
            None => r == exit_error(ExitError::OutOfGas) && b.gas == a.gas,
            Some(c) => if c > a.gas.remaining {
                r == exit_error(ExitError::OutOfGas) && b.gas == a.gas
            } else {
                &&& r == Control::Continue
                &&& b.gas.remaining == a.gas.remaining - c
                &&& b.gas.refunded == clamp_refund(
                    a.gas.refunded + sstore_refund_spec(spec, w.original, w.current, w.new),
                )
            },
        }
    }
}

/// Charges for a storage write that the host reported as `w`, and records its
/// refund.
pub fn sstore_charge(machine: &mut Machine, spec: &Spec, w: StorageWrite) -> (r: Control)
    requires
        spec_wf(*spec),
    ensures
        sstore_charged(*old(machine), *final(machine), *spec, w, r),
        final(machine).stack@ == old(machine).stack@,
{
    if spec.estimate {
        if let Some(c) = charge(machine, spec.gas_sstore_set) {
            return c;
        }
        return Control::Continue;
    }
    let remaining = machine.gas.remaining();
    let cost = match sstore_cost(spec, w.original, w.current, w.new, remaining, w.is_cold) {
        Some(c) => c,
        None => return Control::Exit(crate::machine::ExitReason::Error(ExitError::OutOfGas)),
    };
    if let Some(c) = charge(machine, cost) {
        return c;
    }
    let delta = sstore_refund(spec, w.original, w.current, w.new);
    machine.gas.record_refund_delta(delta);
    Control::Continue
}

/// SSTORE: stores the second word under the top word as key, in the executing
/// account.
pub fn sstore<H: Host>(machine: &mut Machine, handler: &mut H, spec: &Spec) -> (r: Control)
    requires
        spec_wf(*spec),
    ensures
        spec.is_static_call ==> disabled(*old(machine), *final(machine), r)
            && *final(handler) == *old(handler),
        !spec.is_static_call && old(machine).stack.len() < 2 ==> underflow(*old(machine), *final(machine), r)
            && *final(handler) == *old(handler),
        !spec.is_static_call && old(machine).stack.len() >= 2 ==> final(machine).stack@ == old(
            machine,
        ).stack@.subrange(0, old(machine).stack.len() - 2) && exists|w: StorageWrite|
            #[trigger] sstore_charged(*old(machine), *final(machine), *spec, w, r),
{
    if spec.is_static_call {
        return Control::Exit(crate::machine::ExitReason::Error(ExitError::InvalidInstruction));
    }
    let ghost m0 = *machine;
    let index = match machine.pop() {
        Ok(v) => v,
        Err(e) => return Control::Exit(crate::machine::ExitReason::Error(e)),
    };
    let value = match machine.pop() {
        Ok(v) => v,
        Err(e) => return Control::Exit(crate::machine::ExitReason::Error(e)),
    };
    assert(machine.stack@ =~= m0.stack@.subrange(0, m0.stack.len() - 2));
    let ghost m1 = *machine;
    let w = handler.sstore(machine.contract.address, index, value);
    let r = sstore_charge(machine, spec, w);
    assert(sstore_charged(m1, *machine, *spec, w, r));
    assert(sstore_charged(m0, *machine, *spec, w, r));
    r
}

/// Storage-write refunds: a write that leaves the value as it is earns
/// nothing; clearing a slot that held its original non-zero value earns the
/// clearing refund; clearing a slot whose original value was zero gives back
/// the set price less a read.
pub proof fn lemma_sstore_refund(spec: Spec, original: Word, current: Word, new: Word)
    requires
        spec_wf(spec),
    ensures
        current == new ==> sstore_refund_spec(spec, original, current, new) == 0,
        original == current && !is_zero(current) && is_zero(new) ==> sstore_refund_spec(
            spec,
            original,
            current,
            new,
        ) == spec.refund_sstore_clears,
        spec.sstore_gas_metering && is_zero(original) && !is_zero(current) && is_zero(new)
            ==> sstore_refund_spec(spec, original, current, new) == spec.gas_sstore_set - spec.gas_sload,
{
}

/// What SELFDESTRUCT does to the frame once the host reported `res`, but for
/// the stack.
pub open spec fn selfdestruct_done(a: Machine, b: Machine, spec: Spec, res: SelfDestructResult, r: Control) -> bool {
    &&& b.memory@ == a.memory@
    &&& b.memory_limit == a.memory_limit
    &&& b.stack_limit == a.stack_limit
    &&& b.contract == a.contract
    &&& bytes_view(b.return_data_buffer) == bytes_view(a.return_data_buffer)
    &&& b.gas.refunded == if !spec.estimate && spec.has_selfdestruct_refund && !res.previously_destroyed {
        sat_add(a.gas.refunded, SELFDESTRUCT)
    } else {
        a.gas.refunded
    }
    &&& if selfdestruct_cost_spec(spec, res) > a.gas.remaining {
        r == exit_error(ExitError::OutOfGas) && b.gas.remaining == a.gas.remaining
    } else {
        &&& r == Control::Exit(ExitReason::Succeed(ExitSucceed::SelfDestructed))
        &&& b.gas.remaining == a.gas.remaining - selfdestruct_cost_spec(spec, res)
    }
}

/// Records the refund and charges the price of a self-destruct that the host
/// reported as `res`, and ends the frame.
pub fn selfdestruct_finish(machine: &mut Machine, spec: &Spec, res: SelfDestructResult) -> (r: Control)
    requires
        spec_wf(*spec),
    ensures
        selfdestruct_done(*old(machine), *final(machine), *spec, res, r),
        final(machine).stack@ == old(machine).stack@,
{
    if !spec.estimate && spec.has_selfdestruct_refund && !res.previously_destroyed {
        machine.gas.record_refund(SELFDESTRUCT);
    }
    let cost = selfdestruct_cost(spec, res);
    if !machine.gas.record_cost(cost) {
        return Control::Exit(ExitReason::Error(ExitError::OutOfGas));
    }
    Control::Exit(ExitReason::Succeed(ExitSucceed::SelfDestructed))
}

/// SELFDESTRUCT: hands the executing account over to the popped beneficiary and
/// ends the frame.
pub fn selfdestruct<H: Host>(machine: &mut Machine, handler: &mut H, spec: &Spec) -> (r: Control)
    requires
        spec_wf(*spec),
    ensures
        spec.is_static_call ==> disabled(*old(machine), *final(machine), r)
            && *final(handler) == *old(handler),
        !spec.is_static_call && old(machine).stack.len() == 0 ==> underflow(*old(machine), *final(machine), r)
            && *final(handler) == *old(handler),
        !spec.is_static_call && old(machine).stack.len() > 0 ==> final(machine).stack@ == old(
            machine,
        ).stack@.drop_last() && (r is Exit),
        !spec.is_static_call && old(machine).stack.len() > 0 ==> unchanged_but_stack(*old(machine), *final(machine))
            || (exists|res: SelfDestructResult| #[trigger] selfdestruct_done(*old(machine), *final(machine), *spec, res, r)),
{
    if spec.is_static_call {
        return Control::Exit(ExitReason::Error(ExitError::InvalidInstruction));
    }
    let ghost m0 = *machine;
    let target = match machine.pop() {
        Ok(v) => v,
        Err(e) => return Control::Exit(ExitReason::Error(e)),
    };
    let ghost m1 = *machine;
    let res = match handler.selfdestruct(machine.contract.address, target.to_address()) {
        Ok(res) => res,
        Err(e) => {
            assert(unchanged_but_stack(m0, *machine));
            return Control::Exit(e);
        },
    };
    let r = selfdestruct_finish(machine, spec, res);
    assert(selfdestruct_done(m0, *machine, *spec, res, r));
    r
}

/// Only the stack differs.
pub open spec fn unchanged_but_stack(a: Machine, b: Machine) -> bool {
    same_frame(a, b) && b.gas == a.gas
}

/// Once the host has accepted it, a self-destruct that can be paid for ends the
/// frame as a success marked self-destructed, whichever price and refund applied.
pub proof fn lemma_selfdestruct_ends_frame(a: Machine, b: Machine, spec: Spec, res: SelfDestructResult, r: Control)
    requires
        selfdestruct_done(a, b, spec, res, r),
        selfdestruct_cost_spec(spec, res) <= a.gas.remaining,
    ensures
        r == Control::Exit(ExitReason::Succeed(ExitSucceed::SelfDestructed)),
{
}

/// The memory after `cost` is charged and `[offset, offset + len)` made
/// addressable, or the error of the first step that fails.
pub open spec fn charge_resize_outcome(a: Machine, cost: Option<u64>, offset: Word, len: Word) -> Result<
    Seq<u8>,
    ExitError,
> {
    match cost {
        None => Err(ExitError::OutOfGas),
        Some(c) => if c > a.gas.remaining {
            Err(ExitError::OutOfGas)
        } else {
            resize_spec(a.memory@, a.memory_limit, offset, len)
        },
    }
}

/// The bytes of memory `m` in the window `[offset, offset + len)`.
pub open spec fn read_window(m: Seq<u8>, offset: Word, len: Word) -> Seq<u8> {
    if is_zero(len) {
        Seq::empty()
    } else {
        m.subrange(offset.w0 as int, offset.w0 + len.w0)
    }
}

/// The gas counter after a charge of `cost`, where it succeeded.
pub open spec fn charged_gas(a: Machine, b: Machine, cost: Option<u64>) -> bool {
    b.gas.remaining == a.gas.remaining - cost.unwrap() && b.gas.refunded == a.gas.refunded
}

/// Identity, limits and return data are as they were.
pub open spec fn same_context(a: Machine, b: Machine) -> bool {
    &&& b.memory_limit == a.memory_limit
    &&& b.stack_limit == a.stack_limit
    &&& b.contract == a.contract
    &&& bytes_view(b.return_data_buffer) == bytes_view(a.return_data_buffer)
}

/// Charges `cost` (`None`: too large to pay), then grows memory to hold
/// `[offset, offset + len)`.
pub fn charge_and_resize(machine: &mut Machine, cost: Option<u64>, offset: Word, len: Word) -> (r: Result<(), ExitError>)
    requires
        old(machine).memory.len() <= old(machine).memory_limit,
    ensures
        same_context(*old(machine), *final(machine)),
        final(machine).stack@ == old(machine).stack@,
        final(machine).memory.len() <= final(machine).memory_limit,
        charge_resize_outcome(*old(machine), cost, offset, len) matches Err(e) ==> r == Err::<(), ExitError>(e)
            && final(machine).memory@ == old(machine).memory@,
        charge_resize_outcome(*old(machine), cost, offset, len) matches Err(e) && e == ExitError::OutOfGas
            && (cost.is_none() || cost.unwrap() > old(machine).gas.remaining) ==> final(machine).gas == old(machine).gas,
        cost.is_some() && cost.unwrap() <= old(machine).gas.remaining ==> charged_gas(*old(machine), *final(machine), cost),
        charge_resize_outcome(*old(machine), cost, offset, len) matches Ok(m) ==> r is Ok && final(machine).memory@ == m,
{
    let c = match cost {
        Some(c) => c,
        None => return Err(ExitError::OutOfGas),
    };
    if !machine.gas.record_cost(c) {
        return Err(ExitError::OutOfGas);
    }
    machine.memory_resize(offset, len)
}

/// The bytes of the window `[offset, offset + len)`, once memory holds it.
pub fn read_memory(machine: &Machine, offset: Word, len: Word) -> (r: Vec<u8>)
    requires
        !is_zero(len) ==> fits_u64(offset) && fits_u64(len) && offset.w0 + len.w0 <= machine.memory.len(),
    ensures
        r@ == read_window(machine.memory@, offset, len),
{
    if len.is_zero() {
        Vec::new()
    } else {
        machine.memory_get(offset.w0 as usize, len.w0 as usize)
    }
}

/// Once memory has been grown for a window, the window lies inside it.
pub proof fn lemma_resized_holds(mem: Seq<u8>, limit: usize, offset: Word, len: Word)
    requires
        resize_spec(mem, limit, offset, len) is Ok,
    ensures
        !is_zero(len) ==> fits_u64(offset) && fits_u64(len) && offset.w0 + len.w0 <= resize_spec(
            mem,
            limit,
            offset,
            len,
        )->Ok_0.len(),
{
    if !is_zero(len) {
        let end = (offset.w0 + len.w0) as nat;
        assert(end <= ceil32(end)) by (nonlinear_arith);
    }
}

/// The top `k` words off the stack, the first popped first.
pub open spec fn popped(s: Seq<Word>, k: int) -> Seq<Word> {
    s.subrange(0, s.len() - k)
}

/// SHA3: replaces the popped window of memory by its Keccak-256 digest.
pub fn sha3(machine: &mut Machine) -> (r: Control)
    requires
        old(machine).memory.len() <= old(machine).memory_limit,
    ensures
        same_context(*old(machine), *final(machine)),
        old(machine).stack.len() < 2 ==> underflow(*old(machine), *final(machine), r),
        old(machine).stack.len() >= 2 ==> ({
            let n = old(machine).stack.len() as int;
            let from = old(machine).stack@[n - 1];
            let len = old(machine).stack@[n - 2];
            let base = popped(old(machine).stack@, 2);
            &&& charge_resize_outcome(*old(machine), sha3_cost_spec(len), from, len) matches Err(e) ==> {
                &&& r == exit_error(e)
                &&& final(machine).stack@ == base
                &&& final(machine).memory@ == old(machine).memory@
                &&& (sha3_cost_spec(len) is None || sha3_cost_spec(len).unwrap() > old(machine).gas.remaining)
                    ==> final(machine).gas == old(machine).gas
            }
            &&& charge_resize_outcome(*old(machine), sha3_cost_spec(len), from, len) matches Ok(m) ==> {
                &&& final(machine).memory@ == m
                &&& charged_gas(*old(machine), *final(machine), sha3_cost_spec(len))
                &&& base.len() < old(machine).stack_limit ==> r == Control::Continue && final(machine).stack@
                    == base.push(word_from_be(keccak256_of(read_window(m, from, len))))
            }
        }),
{
    let ghost m0 = *machine;
    let from = match machine.pop() {
        Ok(v) => v,
        Err(e) => return Control::Exit(ExitReason::Error(e)),
    };
    let len = match machine.pop() {
        Ok(v) => v,
        Err(e) => return Control::Exit(ExitReason::Error(e)),
    };
    assert(machine.stack@ =~= popped(m0.stack@, 2));
    if let Err(e) = charge_and_resize(machine, sha3_cost(len), from, len) {
        return Control::Exit(ExitReason::Error(e));
    }
    proof {
        lemma_resized_holds(m0.memory@, m0.memory_limit, from, len);
    }
    let data = read_memory(machine, from, len);
    let digest = keccak256(&data);
    let w = word_from_be_bytes(&digest);
    match machine.push(w) {
        Ok(()) => Control::Continue,
        Err(e) => Control::Exit(ExitReason::Error(e)),
    }
}

/// The `n` topics of a log in the order they are popped: the top word first.
pub open spec fn topics_of(s: Seq<Word>, n: nat) -> Seq<Word> {
    Seq::new(n, |i: int| s[s.len() - 1 - i])
}

/// Pops the `n` topic words of a log, the top word first.
pub fn pop_topics(machine: &mut Machine, n: u8) -> (r: Result<Vec<Word>, ExitError>)
    ensures
        same_frame(*old(machine), *final(machine)),
        final(machine).gas == old(machine).gas,
        old(machine).stack.len() < n ==> r == Err::<Vec<Word>, ExitError>(ExitError::StackUnderflow),
        old(machine).stack.len() >= n ==> (r matches Ok(t) && t@ == topics_of(old(machine).stack@, n as nat)
            && final(machine).stack@ == popped(old(machine).stack@, n as int)),
{
    let ghost s0 = machine.stack@;
    if machine.stack.len() < n as usize {
        return Err(ExitError::StackUnderflow);
    }
    let mut topics: Vec<Word> = Vec::new();
    let mut i: usize = 0;
    while i < n as usize
        invariant
            i <= n,
            n <= s0.len(),
            s0 == old(machine).stack@,
            machine.stack@ == popped(s0, i as int),
            topics@ == topics_of(s0, i as nat),
            same_frame(*old(machine), *machine),
            machine.gas == old(machine).gas,
        decreases n - i,
    {
        let v = match machine.pop() {
            Ok(v) => v,
            Err(e) => return Err(e),
        };
        assert(v == s0[s0.len() - 1 - i]);
        topics.push(v);
        i = i + 1;
        assert(machine.stack@ =~= popped(s0, i as int));
        assert(topics@ =~= topics_of(s0, i as nat));
    }
    Ok(topics)
}

/// LOG0..LOG4: hands the host the executing address, the `n` topics of
/// `pop_topics` and the bytes of the popped memory window (`read_window`).
pub fn log<H: Host>(machine: &mut Machine, n: u8, handler: &mut H, spec: &Spec) -> (r: Control)
    requires
        old(machine).memory.len() <= old(machine).memory_limit,
    ensures
        same_context(*old(machine), *final(machine)),
        spec.is_static_call ==> disabled(*old(machine), *final(machine), r)
            && *final(handler) == *old(handler),
        !spec.is_static_call && old(machine).stack.len() < 2 ==> underflow(*old(machine), *final(machine), r)
            && *final(handler) == *old(handler),
        !spec.is_static_call && old(machine).stack.len() >= 2 ==> ({
            let k = old(machine).stack.len() as int;
            let offset = old(machine).stack@[k - 1];
            let len = old(machine).stack@[k - 2];
            let base = popped(old(machine).stack@, 2);
            let cost = log_cost_spec(n, len);
            &&& charge_resize_outcome(*old(machine), cost, offset, len) matches Err(e) ==> {
                &&& r == exit_error(e)
                &&& final(machine).stack@ == base
                &&& final(machine).memory@ == old(machine).memory@
                &&& *final(handler) == *old(handler)
                &&& (cost is None || cost.unwrap() > old(machine).gas.remaining) ==> final(machine).gas
                    == old(machine).gas
            }
            &&& charge_resize_outcome(*old(machine), cost, offset, len) matches Ok(m) ==> {
                &&& final(machine).memory@ == m
                &&& charged_gas(*old(machine), *final(machine), cost)
                &&& base.len() < n ==> r == exit_error(ExitError::StackUnderflow) && *final(handler)
                    == *old(handler)
                &&& base.len() >= n ==> r == Control::Continue && final(machine).stack@ == popped(base, n as int)
            }
        }),
{
    if spec.is_static_call {
        return Control::Exit(ExitReason::Error(ExitError::InvalidInstruction));
    }
    let ghost m0 = *machine;
    let offset = match machine.pop() {
        Ok(v) => v,
        Err(e) => return Control::Exit(ExitReason::Error(e)),
    };
    let len = match machine.pop() {
        Ok(v) => v,
        Err(e) => return Control::Exit(ExitReason::Error(e)),
    };
    assert(machine.stack@ =~= popped(m0.stack@, 2));
    if let Err(e) = charge_and_resize(machine, log_cost(n, len), offset, len) {
        return Control::Exit(ExitReason::Error(e));
    }
    proof {
        lemma_resized_holds(m0.memory@, m0.memory_limit, offset, len);
    }
    let data = read_memory(machine, offset, len);
    let topics = match pop_topics(machine, n) {
        Ok(t) => t,
        Err(e) => return Control::Exit(ExitReason::Error(e)),
    };
    handler.log(machine.contract.address, topics, bytes_from_vec(data));
    Control::Continue
}

/// After the charge and the resize, `len` bytes of `data` from `data_offset` on
/// are copied into memory at `offset`.
pub open spec fn copied(a: Machine, b: Machine, cost: Option<u64>, offset: Word, data_offset: Word, len: Word, data: Seq<u8>, r: Control) -> bool {
    &&& charge_resize_outcome(a, cost, offset, len) matches Err(e) ==> {
        &&& r == exit_error(e)
        &&& b.memory@ == a.memory@
        &&& (cost is None || cost.unwrap() > a.gas.remaining) ==> b.gas == a.gas
    }
    &&& charge_resize_outcome(a, cost, offset, len) matches Ok(m) ==> {
        &&& charged_gas(a, b, cost)
        &&& copy_large_spec(m, offset, data_offset, len, data) matches Err(e) ==> r == exit_error(e)
            && b.memory@ == m
        &&& copy_large_spec(m, offset, data_offset, len, data) matches Ok(m2) ==> r == Control::Continue
            && b.memory@ == m2
    }
}

/// EXTCODECOPY's effect when the account's code is `code` and its coldness `cold`.
pub open spec fn extcodecopy_done(a: Machine, b: Machine, spec: Spec, code: Seq<u8>, cold: bool, r: Control) -> bool {
    let k = a.stack.len() as int;
    &&& b.stack@ == popped(a.stack@, 4)
    &&& copied(
        a,
        b,
        extcodecopy_cost_spec(spec, a.stack@[k - 4], cold),
        a.stack@[k - 2],
        a.stack@[k - 3],
        a.stack@[k - 4],
        code,
        r,
    )
}

/// EXTCODECOPY: copies part of the popped account's code into memory, zero
/// past its end.
pub fn extcodecopy<H: Host>(machine: &mut Machine, handler: &mut H, spec: &Spec) -> (r: Control)
    requires
        old(machine).memory.len() <= old(machine).memory_limit,
    ensures
        same_context(*old(machine), *final(machine)),
        old(machine).stack.len() < 4 ==> underflow(*old(machine), *final(machine), r)
            && *final(handler) == *old(handler),
        old(machine).stack.len() >= 4 ==> exists|code: Seq<u8>, cold: bool|
            #[trigger] extcodecopy_done(*old(machine), *final(machine), *spec, code, cold, r),
{
    let ghost m0 = *machine;
    let a = match machine.pop() {
        Ok(v) => v,
        Err(e) => return Control::Exit(ExitReason::Error(e)),
    };
    let offset = match machine.pop() {
        Ok(v) => v,
        Err(e) => return Control::Exit(ExitReason::Error(e)),
    };
    let code_offset = match machine.pop() {
        Ok(v) => v,
        Err(e) => return Control::Exit(ExitReason::Error(e)),
    };
    let len = match machine.pop() {
        Ok(v) => v,
        Err(e) => return Control::Exit(ExitReason::Error(e)),
    };
    assert(machine.stack@ =~= popped(m0.stack@, 4));
    let (code, cold) = handler.code(a.to_address());
    let cost = extcodecopy_cost(spec, len, cold);
    let r = match charge_and_resize(machine, cost, offset, len) {
        Err(e) => Control::Exit(ExitReason::Error(e)),
        Ok(()) => match copy_large(&mut machine.memory, offset, code_offset, len, &bytes_to_vec(&code)) {
            Ok(()) => Control::Continue,
            Err(e) => Control::Exit(ExitReason::Error(e)),
        },
    };
    assert(extcodecopy_done(m0, *machine, *spec, bytes_view(code), cold, r));
    r
}

/// Whether the number `w` is larger than `n`.
pub fn word_gt(w: Word, n: u64) -> (r: bool)
    ensures
        r == (val(w) > n),
{
    proof {
        lemma_val_small(w);
    }
    !w.fits_u64() || w.w0 > n
}

/// RETURNDATACOPY: copies part of the last nested call's return data into
/// memory; a window past its end is an error, not zero-filled.
pub fn returndatacopy(machine: &mut Machine, spec: &Spec) -> (r: Control)
    requires
        old(machine).memory.len() <= old(machine).memory_limit,
    ensures
        same_context(*old(machine), *final(machine)),
        !spec.has_return_data ==> disabled(*old(machine), *final(machine), r),
        spec.has_return_data && old(machine).stack.len() < 3 ==> underflow(*old(machine), *final(machine), r),
        spec.has_return_data && old(machine).stack.len() >= 3 ==> ({
            let k = old(machine).stack.len() as int;
            let offset = old(machine).stack@[k - 1];
            let data_offset = old(machine).stack@[k - 2];
            let len = old(machine).stack@[k - 3];
            let cost = verylowcopy_cost_spec(len);
            let rd = bytes_view(old(machine).return_data_buffer);
            &&& final(machine).stack@ == popped(old(machine).stack@, 3)
            &&& val(data_offset) + val(len) > rd.len() ==> (charge_resize_outcome(*old(machine), cost, offset, len) matches Ok(m)
                ==> r == exit_error(ExitError::OutOfOffset) && charged_gas(*old(machine), *final(machine), cost)
                && final(machine).memory@ == m)
            &&& val(data_offset) + val(len) <= rd.len() ==> copied(
                *old(machine),
                *final(machine),
                cost,
                offset,
                data_offset,
                len,
                rd,
                r,
            )
        }),
{
    if !spec.has_return_data {
        return Control::Exit(ExitReason::Error(ExitError::InvalidInstruction));
    }
    let ghost m0 = *machine;
    let offset = match machine.pop() {
        Ok(v) => v,
        Err(e) => return Control::Exit(ExitReason::Error(e)),
    };
    let data_offset = match machine.pop() {
        Ok(v) => v,
        Err(e) => return Control::Exit(ExitReason::Error(e)),
    };
    let len = match machine.pop() {
        Ok(v) => v,
        Err(e) => return Control::Exit(ExitReason::Error(e)),
    };
    assert(machine.stack@ =~= popped(m0.stack@, 3));
    if let Err(e) = charge_and_resize(machine, verylowcopy_cost(len), offset, len) {
        return Control::Exit(ExitReason::Error(e));
    }
    let rd_len = bytes_len(&machine.return_data_buffer);
    assert(rd_len < word_modulus());
    let out_of_range = match checked_add_word(data_offset, len) {
        None => true,
        Some(end) => word_gt(end, rd_len as u64),
    };
    if out_of_range {
        return Control::Exit(ExitReason::Error(ExitError::OutOfOffset));
    }
    let rd = bytes_to_vec(&machine.return_data_buffer);
    match copy_large(&mut machine.memory, offset, data_offset, len, &rd) {
        Ok(()) => Control::Continue,
        Err(e) => Control::Exit(ExitReason::Error(e)),
    }
}

} // verus!
