use vstd::prelude::*;
use crate::ext::{bytes_from_vec, bytes_new, bytes_to_vec, bytes_view};
use crate::gas::{l64, l64_exec, Spec};
use crate::host::{CallContext, CallScheme, CreateScheme, Host, Transfer};
use crate::machine::{
    resize_spec, source_offset, copy_large, copy_large_spec, exit_error, sat_add, Control, ExitError, ExitReason, Gas, Machine,
};
use crate::system::{lemma_resized_holds, popped, read_memory, same_context, unchanged, word_gt};
use crate::word::{address_of, clamp_u64, fits_u64, is_zero, lemma_val_small, val, word_of, Word};

verus! {

/// Gas the caller keeps from `remaining` under the 63/64 rule, and what it may
/// hand on: `(remaining after, limit)`.
pub open spec fn l64_after_spec(spec: Spec, remaining: u64) -> (u64, u64) {
    if spec.call_l64_after_gas {
        if spec.estimate {
            ((remaining - remaining / 64) as u64, (remaining - remaining / 64) as u64)
        } else {
            (remaining, l64(remaining))
        }
    } else {
        (remaining, remaining)
    }
}

/// The most gas a nested frame may get. In estimation mode the retained
/// sixty-fourth is charged at once.
pub fn gas_call_l64_after(machine: &mut Machine, spec: &Spec) -> (r: Result<u64, ExitReason>)
    ensures
        r == Ok::<u64, ExitReason>(l64_after_spec(*spec, old(machine).gas.remaining).1),
        final(machine).gas.remaining == l64_after_spec(*spec, old(machine).gas.remaining).0,
        final(machine).gas.refunded == old(machine).gas.refunded,
        final(machine).stack@ == old(machine).stack@,
        final(machine).memory@ == old(machine).memory@,
        same_context(*old(machine), *final(machine)),
{
    if spec.call_l64_after_gas {
        if spec.estimate {
            let initial = machine.gas.remaining();
            let diff = initial - l64_exec(initial);
            if !machine.gas.record_cost(diff) {
                return Err(ExitReason::Error(ExitError::OutOfGas));
            }
            Ok(machine.gas.remaining())
        } else {
            Ok(l64_exec(machine.gas.remaining()))
        }
    } else {
        Ok(machine.gas.remaining())
    }
}

/// Gas forwarded to a nested call: the smaller of the caller's own limit and
/// what the 63/64 rule allows.
pub open spec fn forwarded_gas(spec: Spec, remaining: u64, local: u64) -> u64 {
    let g = l64_after_spec(spec, remaining).1;
    if g < local { g } else { local }
}

/// Without estimation mode, a nested call gets
/// `min(limit, remaining - remaining / 64)` under the 63/64 rule, never more
/// than the caller has.
pub proof fn lemma_forwarded_gas(spec: Spec, remaining: u64, local: u64)
    ensures
        spec.call_l64_after_gas && !spec.estimate ==> forwarded_gas(spec, remaining, local) == if local
            < remaining - remaining / 64 {
            local as int
        } else {
            remaining - remaining / 64
        },
        forwarded_gas(spec, remaining, local) <= l64_after_spec(spec, remaining).0,
{
}

/// Whether a nested call runs read-only: STATICCALL, or any call from a
/// read-only frame.
pub open spec fn call_read_only_spec(scheme: CallScheme, spec: Spec) -> bool {
    scheme == CallScheme::StaticCall || spec.is_static_call
}

pub fn call_read_only(scheme: CallScheme, spec: &Spec) -> (r: bool)
    ensures
        r == call_read_only_spec(scheme, *spec),
{
    scheme == CallScheme::StaticCall || spec.is_static_call
}

/// Charges and returns the gas handed to a nested call whose own limit is
/// `local`: `forwarded_gas`, taken from what the 63/64 rule leaves.
pub fn call_gas(machine: &mut Machine, spec: &Spec, local: u64) -> (r: u64)
    ensures
        r == forwarded_gas(*spec, old(machine).gas.remaining, local),
        final(machine).gas.remaining == l64_after_spec(*spec, old(machine).gas.remaining).0 - r,
        final(machine).gas.refunded == old(machine).gas.refunded,
        final(machine).stack@ == old(machine).stack@,
        final(machine).memory@ == old(machine).memory@,
        same_context(*old(machine), *final(machine)),
{
    proof {
        lemma_forwarded_gas(*spec, machine.gas.remaining, local);
    }
    let global: u64 = match gas_call_l64_after(machine, spec) {
        Ok(g) => g,
        Err(_) => 0,
    };
    let gas_limit = if global < local {
        global
    } else {
        local
    };
    let charged = machine.gas.record_cost(gas_limit);
    assert(charged);
    gas_limit
}

/// The identity a nested call runs under.
pub open spec fn call_context_spec(scheme: CallScheme, contract: crate::machine::Contract, to: Word, value: Word) -> CallContext {
    match scheme {
        CallScheme::Call | CallScheme::StaticCall => CallContext {
            address: address_of(to),
            caller: contract.address,
            apparent_value: value,
        },
        CallScheme::CallCode => CallContext {
            address: contract.address,
            caller: contract.address,
            apparent_value: value,
        },
        CallScheme::DelegateCall => CallContext {
            address: contract.address,
            caller: contract.caller,
            apparent_value: contract.value,
        },
    }
}

pub fn call_context(scheme: CallScheme, contract: &crate::machine::Contract, to: Word, value: Word) -> (r: CallContext)
    ensures
        r == call_context_spec(scheme, *contract, to, value),
{
    match scheme {
        CallScheme::Call | CallScheme::StaticCall => CallContext {
            address: to.to_address(),
            caller: contract.address,
            apparent_value: value,
        },
        CallScheme::CallCode => CallContext {
            address: contract.address,
            caller: contract.address,
            apparent_value: value,
        },
        CallScheme::DelegateCall => CallContext {
            address: contract.address,
            caller: contract.caller,
            apparent_value: contract.value,
        },
    }
}

/// The value movement of a nested call: only CALL and CALLCODE move value.
pub open spec fn call_transfer_spec(scheme: CallScheme, self_address: Word, to: Word, value: Word) -> Option<Transfer> {
    match scheme {
        CallScheme::Call => Some(Transfer { source: self_address, target: address_of(to), value }),
        CallScheme::CallCode => Some(Transfer { source: self_address, target: self_address, value }),
        _ => None,
    }
}

pub fn call_transfer(scheme: CallScheme, self_address: Word, to: Word, value: Word) -> (r: Option<Transfer>)
    ensures
        r == call_transfer_spec(scheme, self_address, to, value),
{
    if scheme == CallScheme::Call {
        Some(Transfer { source: self_address, target: to.to_address(), value })
    } else if scheme == CallScheme::CallCode {
        Some(Transfer { source: self_address, target: self_address, value })
    } else {
        None
    }
}

/// CALLCODE and DELEGATECALL never move value between two accounts: they have
/// no transfer, or one from an account to itself.
pub proof fn lemma_no_value_moves(scheme: CallScheme, self_address: Word, to: Word, value: Word)
    requires
        scheme == CallScheme::CallCode || scheme == CallScheme::DelegateCall,
    ensures
        call_transfer_spec(scheme, self_address, to, value) matches Some(t) ==> t.source == t.target,
{
}

/// The smaller of `w` and `n`, as a word.
pub open spec fn min_word(w: Word, n: u64) -> Word {
    if val(w) > n { word_of(n) } else { w }
}

pub fn min_word_exec(w: Word, n: u64) -> (r: Word)
    ensures
        r == min_word(w, n),
        val(r) == if val(w) > n { n as nat } else { val(w) },
{
    if word_gt(w, n) {
        Word::from_u64(n)
    } else {
        w
    }
}

/// What a nested call's end does to the caller's return data, identity and
/// gas: unspent gas comes back on success and revert, the refund on success
/// only.
pub open spec fn call_finished(a: Machine, b: Machine, reason: ExitReason, gas: Gas, rd: Seq<u8>) -> bool {
    &&& bytes_view(b.return_data_buffer) == rd
    &&& b.contract == a.contract
    &&& b.memory_limit == a.memory_limit
    &&& b.stack_limit == a.stack_limit
    &&& match reason {
        ExitReason::Succeed(_) => {
            &&& b.gas.remaining == sat_add(a.gas.remaining, gas.remaining)
            &&& b.gas.refunded == sat_add(a.gas.refunded, gas.refunded)
        },
        ExitReason::Revert(_) => {
            &&& b.gas.remaining == sat_add(a.gas.remaining, gas.remaining)
            &&& b.gas.refunded == a.gas.refunded
        },
        _ => b.gas == a.gas,
    }
}

/// The flag or exit of a nested call's end, and the stack and memory after
/// it: the return data, cut to the output window, is copied out on success
/// (before the flag is pushed) and on revert (after it).
pub open spec fn call_result(a: Machine, b: Machine, reason: ExitReason, rd: Seq<u8>, out_offset: Word, out_len: Word, r: Control) -> bool {
    let target = min_word(out_len, rd.len() as u64);
    let copy = copy_large_spec(a.memory@, out_offset, word_of(0), target, rd);
    &&& a.stack.len() >= a.stack_limit ==> {
        &&& r == exit_error(ExitError::StackOverflow)
        &&& b.stack@ == a.stack@
        &&& (reason is Succeed && copy is Ok) ==> b.memory@ == copy->Ok_0
        &&& !(reason is Succeed && copy is Ok) ==> b.memory@ == a.memory@
    }
    &&& a.stack.len() < a.stack_limit ==> match reason {
        ExitReason::Succeed(_) => {
            &&& r == Control::Continue
            &&& copy matches Ok(m) ==> b.memory@ == m && b.stack@ == a.stack@.push(word_of(1))
            &&& copy is Err ==> b.memory@ == a.memory@ && b.stack@ == a.stack@.push(word_of(0))
        },
        ExitReason::Revert(_) => {
            &&& r == Control::Continue
            &&& b.stack@ == a.stack@.push(word_of(0))
            &&& copy matches Ok(m) ==> b.memory@ == m
            &&& copy is Err ==> b.memory@ == a.memory@
        },
        ExitReason::Error(_) => r == Control::Continue && b.stack@ == a.stack@.push(word_of(0)) && b.memory@
            == a.memory@,
        ExitReason::Fatal(e) => r == Control::Exit(ExitReason::Fatal(e)) && b.stack@ == a.stack@.push(word_of(0))
            && b.memory@ == a.memory@,
    }
}

/// Takes in the end of a nested call: stores its return data, gives back gas,
/// copies output and pushes 1 on success, 0 otherwise; a fatal end is passed on.
pub fn call_finish(
    machine: &mut Machine,
    reason: ExitReason,
    gas: Gas,
    return_data: bytes::Bytes,
    out_offset: Word,
    out_len: Word,
) -> (r: Control)
    ensures
        call_finished(*old(machine), *final(machine), reason, gas, bytes_view(return_data)),
        call_result(*old(machine), *final(machine), reason, bytes_view(return_data), out_offset, out_len, r),
{
    let rd = bytes_to_vec(&return_data);
    machine.return_data_buffer = return_data;
    let target_len = min_word_exec(out_len, rd.len() as u64);
    match reason {
        ExitReason::Succeed(_) => {
            machine.gas.erase_cost(gas.remaining());
            machine.gas.record_refund(gas.refunded());
            let flag = match copy_large(
                &mut machine.memory,
                out_offset,
                Word::zero(),
                target_len,
                &rd,
            ) {
                Ok(()) => Word::one(),
                Err(_) => Word::zero(),
            };
            match machine.push(flag) {
                Ok(()) => Control::Continue,
                Err(e) => Control::Exit(ExitReason::Error(e)),
            }
        },
        ExitReason::Revert(_) => {
            machine.gas.erase_cost(gas.remaining());
            if let Err(e) = machine.push(Word::zero()) {
                return Control::Exit(ExitReason::Error(e));
            }
            let _ = copy_large(&mut machine.memory, out_offset, Word::zero(), target_len, &rd);
            Control::Continue
        },
        ExitReason::Error(_) => {
            match machine.push(Word::zero()) {
                Ok(()) => Control::Continue,
                Err(e) => Control::Exit(ExitReason::Error(e)),
            }
        },
        ExitReason::Fatal(e) => {
            match machine.push(Word::zero()) {
                Ok(()) => Control::Exit(ExitReason::Fatal(e)),
                Err(e) => Control::Exit(ExitReason::Error(e)),
            }
        },
    }
}

/// A call or create that stopped before reaching the host: the return data is
/// cleared, the gas counter untouched.
pub open spec fn failed_before_host(a: Machine, b: Machine) -> bool {
    &&& bytes_view(b.return_data_buffer) == Seq::<u8>::empty()
    &&& b.gas == a.gas
    &&& same_context_but_return_data(a, b)
}

/// Identity and limits are as they were.
pub open spec fn same_context_but_return_data(a: Machine, b: Machine) -> bool {
    &&& b.memory_limit == a.memory_limit
    &&& b.stack_limit == a.stack_limit
    &&& b.contract == a.contract
}

/// Words a call scheme pops: gas, callee, value where it moves value, and the
/// input and output windows.
pub open spec fn call_arity(scheme: CallScheme) -> int {
    match scheme {
        CallScheme::Call | CallScheme::CallCode => 7,
        _ => 6,
    }
}

/// The `i`-th word from the top of the stack.
pub open spec fn top(a: Machine, i: int) -> Word {
    a.stack@[a.stack.len() - 1 - i]
}

/// The value a call scheme sends.
pub open spec fn call_value(a: Machine, scheme: CallScheme) -> Word {
    match scheme {
        CallScheme::Call | CallScheme::CallCode => top(a, 2),
        _ => word_of(0),
    }
}

/// Memory once it covers a call's input window and then its output window.
pub open spec fn call_windows(a: Machine, scheme: CallScheme) -> Result<Seq<u8>, ExitError> {
    let base = call_arity(scheme) - 4;
    match resize_spec(a.memory@, a.memory_limit, top(a, base), top(a, base + 1)) {
        Ok(m1) => resize_spec(m1, a.memory_limit, top(a, base + 2), top(a, base + 3)),
        Err(e) => Err(e),
    }
}

/// The frame of `a` just before the host runs the nested call: the operands
/// are popped, memory covers both windows, the forwarded gas is charged and the
/// return data is cleared.
pub open spec fn call_entered(a: Machine, mid: Machine, spec: Spec, scheme: CallScheme) -> bool {
    let k = call_arity(scheme);
    let base = k - 4;
    &&& a.stack.len() >= k
    &&& call_windows(a, scheme) matches Ok(m2) && mid.memory@ == m2
    &&& mid.stack@ == popped(a.stack@, k)
    &&& mid.gas.remaining == l64_after_spec(spec, a.gas.remaining).0 - forwarded_gas(
        spec,
        a.gas.remaining,
        clamp_u64(top(a, 0)),
    )
    &&& mid.gas.refunded == a.gas.refunded
    &&& bytes_view(mid.return_data_buffer) == Seq::<u8>::empty()
    &&& mid.contract == a.contract
    &&& mid.memory_limit == a.memory_limit
    &&& mid.stack_limit == a.stack_limit
}

pub open spec fn call_done(
    a: Machine,
    mid: Machine,
    b: Machine,
    spec: Spec,
    scheme: CallScheme,
    reason: ExitReason,
    gas: Gas,
    rd: Seq<u8>,
    r: Control,
) -> bool {
    let k = call_arity(scheme);
    let out_offset = top(a, k - 2);
    let out_len = top(a, k - 1);
    &&& call_entered(a, mid, spec, scheme)
    &&& call_finished(mid, b, reason, gas, rd)
    &&& call_result(mid, b, reason, rd, out_offset, out_len, r)
}

/// The operands of a call, as popped.
pub struct CallOperands {
    pub gas: Word,
    pub to: Word,
    pub value: Word,
    pub in_offset: Word,
    pub in_len: Word,
    pub out_offset: Word,
    pub out_len: Word,
}

/// Pops the operands of a call scheme, the value only where it moves value.
pub fn pop_call_operands(machine: &mut Machine, scheme: CallScheme) -> (r: Result<CallOperands, ExitError>)
    ensures
        same_context(*old(machine), *final(machine)),
        final(machine).memory@ == old(machine).memory@,
        final(machine).gas == old(machine).gas,
        final(machine).memory.len() == old(machine).memory.len(),
        old(machine).stack.len() < call_arity(scheme) ==> r == Err::<CallOperands, ExitError>(
            ExitError::StackUnderflow,
        ),
        old(machine).stack.len() >= call_arity(scheme) ==> (r matches Ok(o) && {
            let k = call_arity(scheme);
            &&& o.gas == top(*old(machine), 0)
            &&& o.to == top(*old(machine), 1)
            &&& o.value == call_value(*old(machine), scheme)
            &&& o.in_offset == top(*old(machine), k - 4)
            &&& o.in_len == top(*old(machine), k - 3)
            &&& o.out_offset == top(*old(machine), k - 2)
            &&& o.out_len == top(*old(machine), k - 1)
            &&& final(machine).stack@ == popped(old(machine).stack@, k)
        }),
{
    let ghost m0 = *machine;
    let gas = match machine.pop() {
        Ok(v) => v,
        Err(e) => return Err(e),
    };
    let to = match machine.pop() {
        Ok(v) => v,
        Err(e) => return Err(e),
    };
    let value = if scheme == CallScheme::Call || scheme == CallScheme::CallCode {
        match machine.pop() {
            Ok(v) => v,
            Err(e) => return Err(e),
        }
    } else {
        Word::zero()
    };
    let in_offset = match machine.pop() {
        Ok(v) => v,
        Err(e) => return Err(e),
    };
    let in_len = match machine.pop() {
        Ok(v) => v,
        Err(e) => return Err(e),
    };
    let out_offset = match machine.pop() {
        Ok(v) => v,
        Err(e) => return Err(e),
    };
    let out_len = match machine.pop() {
        Ok(v) => v,
        Err(e) => return Err(e),
    };
    assert(machine.stack@ =~= popped(m0.stack@, call_arity(scheme)));
    Ok(CallOperands { gas, to, value, in_offset, in_len, out_offset, out_len })
}

/// CALL, CALLCODE, DELEGATECALL and STATICCALL: runs a nested call through the
/// host and takes in its end.
pub fn call<H: Host>(machine: &mut Machine, scheme: CallScheme, handler: &mut H, spec: &Spec) -> (r: Control)
    requires
        old(machine).memory.len() <= old(machine).memory_limit,
    ensures
        scheme == CallScheme::Call && spec.is_static_call ==> r == exit_error(ExitError::InvalidInstruction)
            && unchanged(*old(machine), *final(machine)) && *final(handler) == *old(handler),
        scheme == CallScheme::DelegateCall && !spec.has_delegate_call ==> r == exit_error(
            ExitError::InvalidInstruction,
        ) && unchanged(*old(machine), *final(machine)) && *final(handler) == *old(handler),
        !(scheme == CallScheme::Call && spec.is_static_call) && !(scheme == CallScheme::DelegateCall
            && !spec.has_delegate_call) ==> {
            &&& old(machine).stack.len() < call_arity(scheme) ==> r == exit_error(ExitError::StackUnderflow)
                && failed_before_host(*old(machine), *final(machine)) && final(machine).memory@ == old(
                machine,
            ).memory@ && *final(handler) == *old(handler)
            &&& old(machine).stack.len() >= call_arity(scheme) && call_windows(*old(machine), scheme) is Err
                ==> r == exit_error(ExitError::InvalidRange) && failed_before_host(*old(machine), *final(machine))
                && final(machine).stack@ == popped(old(machine).stack@, call_arity(scheme)) && *final(handler)
                == *old(handler)
            &&& old(machine).stack.len() >= call_arity(scheme) && call_windows(*old(machine), scheme) is Ok
                ==> exists|mid: Machine, reason: ExitReason, gas: Gas, rd: Seq<u8>|
                #[trigger] call_done(*old(machine), mid, *final(machine), *spec, scheme, reason, gas, rd, r)
        },
{
    if scheme == CallScheme::Call && spec.is_static_call {
        return Control::Exit(ExitReason::Error(ExitError::InvalidInstruction));
    }
    if scheme == CallScheme::DelegateCall && !spec.has_delegate_call {
        return Control::Exit(ExitReason::Error(ExitError::InvalidInstruction));
    }
    let ghost m0 = *machine;
    machine.return_data_buffer = bytes_new();
    let ops = match pop_call_operands(machine, scheme) {
        Ok(o) => o,
        Err(e) => return Control::Exit(ExitReason::Error(e)),
    };
    let gas_word = ops.gas;
    let to = ops.to;
    let value = ops.value;
    let in_offset = ops.in_offset;
    let in_len = ops.in_len;
    let out_offset = ops.out_offset;
    let out_len = ops.out_len;
    let local_gas_limit = gas_word.clamp_u64();
    if let Err(e) = machine.memory_resize(in_offset, in_len) {
        return Control::Exit(ExitReason::Error(e));
    }
    proof {
        lemma_resized_holds(m0.memory@, m0.memory_limit, in_offset, in_len);
    }
    if let Err(e) = machine.memory_resize(out_offset, out_len) {
        return Control::Exit(ExitReason::Error(e));
    }
    let input = bytes_from_vec(read_memory(machine, in_offset, in_len));
    let context = call_context(scheme, &machine.contract, to, value);
    let transfer = call_transfer(scheme, machine.contract.address, to, value);
    let gas_limit = call_gas(machine, spec, local_gas_limit);
    let read_only = call_read_only(scheme, spec);
    let outcome = handler.call(to.to_address(), transfer, input, gas_limit, context, read_only);
    let ghost mid = *machine;
    assert(call_entered(m0, mid, *spec, scheme));
    let r = call_finish(machine, outcome.reason, outcome.gas, outcome.return_data, out_offset, out_len);
    assert(call_done(m0, mid, *machine, *spec, scheme, outcome.reason, outcome.gas, bytes_view(outcome.return_data), r));
    r
}

/// What a creation's end pushes: the new address on success, zero otherwise.
pub open spec fn created_word(reason: ExitReason, address: Option<Word>) -> Word {
    match reason {
        ExitReason::Succeed(_) => match address {
            Some(a) => address_of(a),
            None => word_of(0),
        },
        _ => word_of(0),
    }
}

/// What a nested creation's end does to the frame: return data stored, gas
/// given back as for calls, and the created address (or zero) pushed; a fatal
/// end is passed on.
pub open spec fn create_finished(a: Machine, b: Machine, reason: ExitReason, address: Option<Word>, gas: Gas, rd: Seq<u8>, r: Control) -> bool {
    &&& bytes_view(b.return_data_buffer) == rd
    &&& b.contract == a.contract
    &&& b.memory_limit == a.memory_limit
    &&& b.stack_limit == a.stack_limit
    &&& b.memory@ == a.memory@
    &&& match reason {
        ExitReason::Succeed(_) => {
            &&& b.gas.remaining == sat_add(a.gas.remaining, gas.remaining)
            &&& b.gas.refunded == sat_add(a.gas.refunded, gas.refunded)
        },
        ExitReason::Revert(_) => {
            &&& b.gas.remaining == sat_add(a.gas.remaining, gas.remaining)
            &&& b.gas.refunded == a.gas.refunded
        },
        _ => b.gas == a.gas,
    }
    &&& a.stack.len() >= a.stack_limit ==> r == exit_error(ExitError::StackOverflow) && b.stack@ == a.stack@
    &&& a.stack.len() < a.stack_limit ==> {
        &&& b.stack@ == a.stack@.push(created_word(reason, address))
        &&& r == match reason {
            ExitReason::Fatal(e) => Control::Exit(ExitReason::Fatal(e)),
            _ => Control::Continue,
        }
    }
}

/// Takes in the end of a nested creation.
pub fn create_finish(
    machine: &mut Machine,
    reason: ExitReason,
    address: Option<Word>,
    gas: Gas,
    return_data: bytes::Bytes,
) -> (r: Control)
    ensures
        create_finished(*old(machine), *final(machine), reason, address, gas, bytes_view(return_data), r),
{
    machine.return_data_buffer = return_data;
    let created = match address {
        Some(a) => a.to_address(),
        None => Word::zero(),
    };
    match reason {
        ExitReason::Succeed(_) => {
            machine.gas.erase_cost(gas.remaining());
            machine.gas.record_refund(gas.refunded());
            match machine.push(created) {
                Ok(()) => Control::Continue,
                Err(e) => Control::Exit(ExitReason::Error(e)),
            }
        },
        ExitReason::Revert(_) => {
            machine.gas.erase_cost(gas.remaining());
            match machine.push(Word::zero()) {
                Ok(()) => Control::Continue,
                Err(e) => Control::Exit(ExitReason::Error(e)),
            }
        },
        ExitReason::Error(_) => {
            match machine.push(Word::zero()) {
                Ok(()) => Control::Continue,
                Err(e) => Control::Exit(ExitReason::Error(e)),
            }
        },
        ExitReason::Fatal(e) => {
            match machine.push(Word::zero()) {
                Ok(()) => Control::Exit(ExitReason::Fatal(e)),
                Err(e) => Control::Exit(ExitReason::Error(e)),
            }
        },
    }
}

/// The frame of `a` just before the host runs a creation: value, code window
/// (and salt) popped, memory covering the code, the whole 63/64 share charged,
/// and the return data cleared.
pub open spec fn create_entered(a: Machine, mid: Machine, spec: Spec, is_create2: bool) -> bool {
    let k: int = if is_create2 { 4 } else { 3 };
    &&& a.stack.len() >= k
    &&& resize_spec(a.memory@, a.memory_limit, top(a, 1), top(a, 2)) matches Ok(m) && mid.memory@ == m
    &&& mid.stack@ == popped(a.stack@, k)
    &&& mid.gas.remaining == l64_after_spec(spec, a.gas.remaining).0 - l64_after_spec(spec, a.gas.remaining).1
    &&& mid.gas.refunded == a.gas.refunded
    &&& bytes_view(mid.return_data_buffer) == Seq::<u8>::empty()
    &&& mid.contract == a.contract
    &&& mid.memory_limit == a.memory_limit
    &&& mid.stack_limit == a.stack_limit
}

pub open spec fn create_done(
    a: Machine,
    mid: Machine,
    b: Machine,
    spec: Spec,
    is_create2: bool,
    reason: ExitReason,
    address: Option<Word>,
    gas: Gas,
    rd: Seq<u8>,
    r: Control,
) -> bool {
    create_entered(a, mid, spec, is_create2) && create_finished(mid, b, reason, address, gas, rd, r)
}

/// CREATE and CREATE2: runs the creation of a contract from a window of memory
/// through the host and pushes the new address, or zero.
pub fn create<H: Host>(machine: &mut Machine, is_create2: bool, handler: &mut H, spec: &Spec) -> (r: Control)
    requires
        old(machine).memory.len() <= old(machine).memory_limit,
    ensures
        spec.is_static_call ==> r == exit_error(ExitError::InvalidInstruction) && unchanged(
            *old(machine),
            *final(machine),
        ) && *final(handler) == *old(handler),
        !spec.is_static_call && old(machine).stack.len() < 3 ==> r == exit_error(ExitError::StackUnderflow)
            && failed_before_host(*old(machine), *final(machine)) && final(machine).memory@ == old(
            machine,
        ).memory@ && *final(handler) == *old(handler),
        !spec.is_static_call && old(machine).stack.len() >= 3 && resize_spec(
            old(machine).memory@,
            old(machine).memory_limit,
            top(*old(machine), 1),
            top(*old(machine), 2),
        ) is Err ==> r == exit_error(ExitError::InvalidRange) && failed_before_host(*old(machine), *final(machine))
            && final(machine).stack@ == popped(old(machine).stack@, 3) && final(machine).memory@ == old(
            machine,
        ).memory@ && *final(handler) == *old(handler),
        !spec.is_static_call && is_create2 && old(machine).stack.len() == 3 && resize_spec(
            old(machine).memory@,
            old(machine).memory_limit,
            top(*old(machine), 1),
            top(*old(machine), 2),
        ) is Ok ==> r == exit_error(ExitError::StackUnderflow) && failed_before_host(*old(machine), *final(machine))
            && *final(handler) == *old(handler),
        !spec.is_static_call && old(machine).stack.len() >= (if is_create2 { 4int } else { 3int })
            && resize_spec(
            old(machine).memory@,
            old(machine).memory_limit,
            top(*old(machine), 1),
            top(*old(machine), 2),
        ) is Ok ==> exists|mid: Machine, reason: ExitReason, address: Option<Word>, gas: Gas, rd: Seq<u8>|
            #[trigger] create_done(*old(machine), mid, *final(machine), *spec, is_create2, reason, address, gas, rd, r),
{
    if spec.is_static_call {
        return Control::Exit(ExitReason::Error(ExitError::InvalidInstruction));
    }
    let ghost m0 = *machine;
    machine.return_data_buffer = bytes_new();
    let value = match machine.pop() {
        Ok(v) => v,
        Err(e) => return Control::Exit(ExitReason::Error(e)),
    };
    let code_offset = match machine.pop() {
        Ok(v) => v,
        Err(e) => return Control::Exit(ExitReason::Error(e)),
    };
    let len = match machine.pop() {
        Ok(v) => v,
        Err(e) => return Control::Exit(ExitReason::Error(e)),
    };
    assert(machine.stack@ =~= popped(m0.stack@, 3));
    if let Err(e) = machine.memory_resize(code_offset, len) {
        return Control::Exit(ExitReason::Error(e));
    }
    proof {
        lemma_resized_holds(m0.memory@, m0.memory_limit, code_offset, len);
    }
    let code = bytes_from_vec(read_memory(machine, code_offset, len));
    let scheme = if is_create2 {
        let salt = match machine.pop() {
            Ok(v) => v,
            Err(e) => return Control::Exit(ExitReason::Error(e)),
        };
        assert(machine.stack@ =~= popped(m0.stack@, 4));
        CreateScheme::Create2 { salt }
    } else {
        CreateScheme::Create
    };
    let gas_limit = match gas_call_l64_after(machine, spec) {
        Ok(g) => g,
        Err(e) => return Control::Exit(e),
    };
    if !machine.gas.record_cost(gas_limit) {
        return Control::Exit(ExitReason::Error(ExitError::OutOfGas));
    }
    let outcome = handler.create(machine.contract.address, scheme, value, code, gas_limit);
    let ghost mid = *machine;
    assert(create_entered(m0, mid, *spec, is_create2));
    let r = create_finish(machine, outcome.reason, outcome.address, outcome.gas, outcome.return_data);
    assert(create_done(m0, mid, *machine, *spec, is_create2, outcome.reason, outcome.address, outcome.gas, bytes_view(outcome.return_data), r));
    r
}

/// After a nested call that succeeded or reverted, the caller's remaining gas
/// grows by exactly the gas the callee left unspent (where the sum fits).
pub proof fn lemma_call_returns_unused_gas(
    a: Machine,
    b: Machine,
    reason: ExitReason,
    gas: Gas,
    rd: Seq<u8>,
)
    requires
        call_finished(a, b, reason, gas, rd),
        reason is Succeed || reason is Revert,
        a.gas.remaining + gas.remaining <= u64::MAX,
    ensures
        b.gas.remaining == a.gas.remaining + gas.remaining,
{
}

/// Once the callee succeeded, a call whose output window is shorter than the
/// return data copies exactly the window's length of it, from its start, and
/// pushes 1.
pub proof fn lemma_call_truncates_output(
    a: Machine,
    b: Machine,
    reason: ExitReason,
    rd: Seq<u8>,
    out_offset: Word,
    out_len: Word,
    r: Control,
)
    requires
        call_result(a, b, reason, rd, out_offset, out_len, r),
        reason is Succeed,
        a.stack.len() < a.stack_limit,
        fits_u64(out_offset),
        fits_u64(out_len),
        0 < out_len.w0 < rd.len(),
        rd.len() <= usize::MAX,
        out_offset.w0 + out_len.w0 <= a.memory.len(),
    ensures
        r == Control::Continue,
        b.stack@ == a.stack@.push(word_of(1)),
        b.memory@.subrange(out_offset.w0 as int, out_offset.w0 + out_len.w0) == rd.subrange(0, out_len.w0 as int),
{
    lemma_val_small(out_len);
    assert(val(out_len) < rd.len());
    assert(min_word(out_len, rd.len() as u64) == out_len);
    assert(!is_zero(out_len));
    let m = copy_large_spec(a.memory@, out_offset, word_of(0), out_len, rd)->Ok_0;
    assert(b.memory@ == m);
    assert(source_offset(word_of(0), rd.len()) == 0);
    assert(b.memory@.subrange(out_offset.w0 as int, out_offset.w0 + out_len.w0) =~= rd.subrange(0, out_len.w0 as int));
}

} // verus!
