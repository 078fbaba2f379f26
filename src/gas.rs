use vstd::prelude::*;
use crate::word::{fits_u64, is_zero, Word};

verus! {

pub const BASE: u64 = 2;
pub const VERYLOW: u64 = 3;
pub const LOW: u64 = 5;
pub const BLOCKHASH: u64 = 20;
pub const SHA3: u64 = 30;
pub const SHA3WORD: u64 = 6;
pub const COPY: u64 = 3;
pub const LOG: u64 = 375;
pub const LOGDATA: u64 = 8;
pub const LOGTOPIC: u64 = 375;
/// Refund granted for the first self-destruct of an account.
pub const SELFDESTRUCT: u64 = 24000;

/// The protocol version in force: which instructions exist and what they cost.
#[derive(Clone, Copy, Debug)]
pub struct Spec {
    pub has_chain_id: bool,
    pub has_self_balance: bool,
    pub has_ext_code_hash: bool,
    pub has_return_data: bool,
    pub has_delegate_call: bool,
    /// The frame is read-only: no state may be changed from it.
    pub is_static_call: bool,
    /// Gas-estimation mode: storage writes are charged a fixed upper bound and
    /// no refunds are recorded.
    pub estimate: bool,
    /// The 63/64 rule limits the gas handed to nested frames.
    pub call_l64_after_gas: bool,
    /// Cold and warm accesses are priced apart.
    pub increase_state_access_gas: bool,
    /// Net-metered storage writes (original/current/new pricing).
    pub sstore_gas_metering: bool,
    /// A storage write fails when no more than the call stipend is left.
    pub sstore_revert_under_stipend: bool,
    /// The first self-destruct of an account earns a refund.
    pub has_selfdestruct_refund: bool,
    pub gas_balance: u64,
    pub gas_ext_code: u64,
    pub gas_ext_code_hash: u64,
    pub gas_sload: u64,
    pub gas_sload_cold: u64,
    pub gas_storage_read_warm: u64,
    pub gas_account_access_cold: u64,
    pub gas_sstore_set: u64,
    pub gas_sstore_reset: u64,
    pub refund_sstore_clears: u64,
    pub call_stipend: u64,
    pub gas_selfdestruct: u64,
    pub gas_selfdestruct_new_account: u64,
}

/// The gas prices of this library stay far below `u64::MAX`, so that sums of a
/// few of them cannot overflow.
pub open spec fn price_bound() -> nat {
    0x1_0000_0000
}

pub open spec fn spec_wf(s: Spec) -> bool {
    &&& s.gas_balance < price_bound()
    &&& s.gas_ext_code < price_bound()
    &&& s.gas_ext_code_hash < price_bound()
    &&& s.gas_sload < price_bound()
    &&& s.gas_sload_cold < price_bound()
    &&& s.gas_storage_read_warm < price_bound()
    &&& s.gas_account_access_cold < price_bound()
    &&& s.gas_sstore_set < price_bound()
    &&& s.gas_sstore_reset < price_bound()
    &&& s.refund_sstore_clears < price_bound()
    &&& s.gas_selfdestruct < price_bound()
    &&& s.gas_selfdestruct_new_account < price_bound()
}

pub open spec fn account_access_cost_spec(s: Spec, is_cold: bool, regular: u64) -> u64 {
    if s.increase_state_access_gas {
        if is_cold { s.gas_account_access_cold } else { s.gas_storage_read_warm }
    } else {
        regular
    }
}

/// Price of an account query, given whether the account was cold.
pub fn account_access_cost(s: &Spec, is_cold: bool, regular: u64) -> (r: u64)
    ensures
        r == account_access_cost_spec(*s, is_cold, regular),
{
    if s.increase_state_access_gas {
        if is_cold {
            s.gas_account_access_cold
        } else {
            s.gas_storage_read_warm
        }
    } else {
        regular
    }
}

pub open spec fn sload_cost_spec(s: Spec, is_cold: bool) -> u64 {
    if s.increase_state_access_gas {
        if is_cold { s.gas_sload_cold } else { s.gas_storage_read_warm }
    } else {
        s.gas_sload
    }
}

pub fn sload_cost(s: &Spec, is_cold: bool) -> (r: u64)
    ensures
        r == sload_cost_spec(*s, is_cold),
{
    if s.increase_state_access_gas {
        if is_cold {
            s.gas_sload_cold
        } else {
            s.gas_storage_read_warm
        }
    } else {
        s.gas_sload
    }
}

/// Number of 32-byte words that `len` bytes take, rounded up.
pub open spec fn words_of(len: nat) -> nat {
    (len + 31) / 32
}

/// Base plus a per-word charge, or `None` when the length is too large to be paid.
pub open spec fn copy_like_cost_spec(base: u64, per_word: u64, len: Word) -> Option<u64> {
    if fits_u64(len) && base + per_word * words_of(len.w0 as nat) <= u64::MAX {
        Some((base + per_word * words_of(len.w0 as nat)) as u64)
    } else {
        None
    }
}

pub fn copy_like_cost(base: u64, per_word: u64, len: Word) -> (r: Option<u64>)
    ensures
        r == copy_like_cost_spec(base, per_word, len),
{
    if !len.fits_u64() {
        return None;
    }
    let n: u64 = len.w0;
    let words: u64 = n / 32 + if n % 32 == 0 { 0 } else { 1 };
    assert(words == words_of(n as nat));
    let m = per_word.checked_mul(words);
    match m {
        None => {
            assert(per_word * words_of(n as nat) > u64::MAX);
            assert(base + per_word * words_of(n as nat) > u64::MAX) by (nonlinear_arith)
                requires
                    per_word * words_of(n as nat) > u64::MAX,
                    base >= 0,
            ;
            None
        },
        Some(m) => base.checked_add(m),
    }
}

pub open spec fn sha3_cost_spec(len: Word) -> Option<u64> {
    copy_like_cost_spec(SHA3, SHA3WORD, len)
}

pub fn sha3_cost(len: Word) -> (r: Option<u64>)
    ensures
        r == sha3_cost_spec(len),
{
    copy_like_cost(SHA3, SHA3WORD, len)
}

pub open spec fn verylowcopy_cost_spec(len: Word) -> Option<u64> {
    copy_like_cost_spec(VERYLOW, COPY, len)
}

pub fn verylowcopy_cost(len: Word) -> (r: Option<u64>)
    ensures
        r == verylowcopy_cost_spec(len),
{
    copy_like_cost(VERYLOW, COPY, len)
}

pub open spec fn extcodecopy_cost_spec(s: Spec, len: Word, is_cold: bool) -> Option<u64> {
    copy_like_cost_spec(account_access_cost_spec(s, is_cold, s.gas_ext_code), COPY, len)
}

pub fn extcodecopy_cost(s: &Spec, len: Word, is_cold: bool) -> (r: Option<u64>)
    ensures
        r == extcodecopy_cost_spec(*s, len, is_cold),
{
    let base = account_access_cost(s, is_cold, s.gas_ext_code);
    copy_like_cost(base, COPY, len)
}

pub open spec fn log_cost_spec(n: u8, len: Word) -> Option<u64> {
    if fits_u64(len) && LOG + LOGTOPIC * n + LOGDATA * len.w0 <= u64::MAX {
        Some((LOG + LOGTOPIC * n + LOGDATA * len.w0) as u64)
    } else {
        None
    }
}

/// Price of a log with `n` topics and `len` bytes of data.
pub fn log_cost(n: u8, len: Word) -> (r: Option<u64>)
    ensures
        r == log_cost_spec(n, len),
{
    if !len.fits_u64() {
        return None;
    }
    let topics: u64 = LOGTOPIC * (n as u64);
    let base: u64 = LOG + topics;
    match LOGDATA.checked_mul(len.w0) {
        None => None,
        Some(d) => base.checked_add(d),
    }
}

/// The 63/64 rule: what may be handed on out of `gas`.
pub open spec fn l64(gas: u64) -> u64 {
    (gas - gas / 64) as u64
}

pub fn l64_exec(gas: u64) -> (r: u64)
    ensures
        r == l64(gas),
        r <= gas,
{
    gas - gas / 64
}

pub open spec fn sstore_cost_spec(
    s: Spec,
    original: Word,
    current: Word,
    new: Word,
    gas: u64,
    is_cold: bool,
) -> Option<u64> {
    if s.sstore_gas_metering && s.sstore_revert_under_stipend && gas <= s.call_stipend {
        None
    } else {
        let base = if s.sstore_gas_metering {
            if new == current {
                s.gas_sload
            } else if original == current {
                if is_zero(original) { s.gas_sstore_set } else { s.gas_sstore_reset }
            } else {
                s.gas_sload
            }
        } else if is_zero(current) && !is_zero(new) {
            s.gas_sstore_set
        } else {
            s.gas_sstore_reset
        };
        Some(if is_cold { (base + s.gas_sload_cold) as u64 } else { base })
    }
}

/// Price of a storage write, or `None` (out of gas) when the stipend rule forbids it.
pub fn sstore_cost(
    s: &Spec,
    original: Word,
    current: Word,
    new: Word,
    gas: u64,
    is_cold: bool,
) -> (r: Option<u64>)
    requires
        spec_wf(*s),
    ensures
        r == sstore_cost_spec(*s, original, current, new, gas, is_cold),
{
    if s.sstore_gas_metering && s.sstore_revert_under_stipend && gas <= s.call_stipend {
        return None;
    }
    let base = if s.sstore_gas_metering {
        if new == current {
            s.gas_sload
        } else if original == current {
            if original.is_zero() {
                s.gas_sstore_set
            } else {
                s.gas_sstore_reset
            }
        } else {
            s.gas_sload
        }
    } else if current.is_zero() && !new.is_zero() {
        s.gas_sstore_set
    } else {
        s.gas_sstore_reset
    };
    Some(if is_cold { base + s.gas_sload_cold } else { base })
}

pub open spec fn sstore_refund_spec(s: Spec, original: Word, current: Word, new: Word) -> int {
    if s.sstore_gas_metering {
        if current == new {
            0
        } else if original == current && is_zero(new) {
            s.refund_sstore_clears as int
        } else {
            let clears: int = if !is_zero(original) {
                if is_zero(current) {
                    -(s.refund_sstore_clears as int)
                } else if is_zero(new) {
                    s.refund_sstore_clears as int
                } else {
                    0
                }
            } else {
                0
            };
            let restores: int = if original == new {
                if is_zero(original) {
                    s.gas_sstore_set - s.gas_sload
                } else {
                    s.gas_sstore_reset - s.gas_sload
                }
            } else {
                0
            };
            clears + restores
        }
    } else if !is_zero(current) && is_zero(new) {
        s.refund_sstore_clears as int
    } else {
        0
    }
}

/// Net refund change of a storage write; it may be negative when an earlier
/// refund is taken back.
pub fn sstore_refund(s: &Spec, original: Word, current: Word, new: Word) -> (r: i64)
    requires
        spec_wf(*s),
    ensures
        r == sstore_refund_spec(*s, original, current, new),
{
    if s.sstore_gas_metering {
        if current == new {
            0
        } else if original == current && new.is_zero() {
            s.refund_sstore_clears as i64
        } else {
            let clears: i64 = if !original.is_zero() {
                if current.is_zero() {
                    -(s.refund_sstore_clears as i64)
                } else if new.is_zero() {
                    s.refund_sstore_clears as i64
                } else {
                    0
                }
            } else {
                0
            };
            let restores: i64 = if original == new {
                if original.is_zero() {
                    s.gas_sstore_set as i64 - s.gas_sload as i64
                } else {
                    s.gas_sstore_reset as i64 - s.gas_sload as i64
                }
            } else {
                0
            };
            clears + restores
        }
    } else if !current.is_zero() && new.is_zero() {
        s.refund_sstore_clears as i64
    } else {
        0
    }
}

/// What the host reports of a self-destruct.
#[derive(Clone, Copy, Debug, PartialEq, Eq, Structural)]
pub struct SelfDestructResult {
    /// The account had already self-destructed in this transaction.
    pub previously_destroyed: bool,
    /// The beneficiary had not been accessed before.
    pub target_is_cold: bool,
    /// The beneficiary account is newly created by this transfer.
    pub target_is_new: bool,
}

pub open spec fn selfdestruct_cost_spec(s: Spec, res: SelfDestructResult) -> u64 {
    (s.gas_selfdestruct + (if res.target_is_new { s.gas_selfdestruct_new_account } else { 0 }) + (
    if s.increase_state_access_gas && res.target_is_cold {
        s.gas_account_access_cold
    } else {
        0
    })) as u64
}

pub fn selfdestruct_cost(s: &Spec, res: SelfDestructResult) -> (r: u64)
    requires
        spec_wf(*s),
    ensures
        r == selfdestruct_cost_spec(*s, res),
{
    let topup: u64 = if res.target_is_new {
        s.gas_selfdestruct_new_account
    } else {
        0
    };
    let cold: u64 = if s.increase_state_access_gas && res.target_is_cold {
        s.gas_account_access_cold
    } else {
        0
    };
    s.gas_selfdestruct + topup + cold
}

} // verus!
