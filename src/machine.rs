use vstd::prelude::*;
use crate::ext::{bytes_new, bytes_view};
use crate::word::{fits_u64, is_zero, lemma_val_small, val, Word};

verus! {

#[derive(Clone, Copy, Debug, PartialEq, Eq, Structural)]
pub enum ExitSucceed {
    Stopped,
    Returned,
    SelfDestructed,
}

#[derive(Clone, Copy, Debug, PartialEq, Eq, Structural)]
pub enum ExitRevert {
    Reverted,
}

#[derive(Clone, Copy, Debug, PartialEq, Eq, Structural)]
pub enum ExitError {
    StackUnderflow,
    StackOverflow,
    InvalidRange,
    OutOfGas,
    OutOfOffset,
    /// The instruction is not available in this protocol version or frame.
    InvalidInstruction,
    /// The host refused the operation.
    HostRejected,
}

#[derive(Clone, Copy, Debug, PartialEq, Eq, Structural)]
pub enum ExitFatal {
    NotSupported,
    UnhandledInterrupt,
    Other,
}

/// How a frame ended.
#[derive(Clone, Copy, Debug, PartialEq, Eq, Structural)]
pub enum ExitReason {
    Succeed(ExitSucceed),
    Revert(ExitRevert),
    Error(ExitError),
    Fatal(ExitFatal),
}

/// What an instruction hands back to the dispatch loop.
#[derive(Clone, Copy, Debug, PartialEq, Eq, Structural)]
pub enum Control {
    Continue,
    Exit(ExitReason),
}

pub open spec fn exit_error(e: ExitError) -> Control {
    Control::Exit(ExitReason::Error(e))
}

/// Gas left and refund earned by a frame.
#[derive(Clone, Copy, Debug, PartialEq, Eq, Structural)]
pub struct Gas {
    pub remaining: u64,
    pub refunded: u64,
}

pub open spec fn sat_add(a: u64, b: u64) -> u64 {
    if a + b > u64::MAX { u64::MAX } else { (a + b) as u64 }
}

pub open spec fn clamp_refund(r: int) -> u64 {
    if r < 0 { 0 } else if r > u64::MAX { u64::MAX } else { r as u64 }
}

impl Gas {
    pub fn new(remaining: u64) -> (r: Gas)
        ensures
            r.remaining == remaining,
            r.refunded == 0,
    {
        Gas { remaining, refunded: 0 }
    }

    pub fn remaining(&self) -> (r: u64)
        ensures
            r == self.remaining,
    {
        self.remaining
    }

    pub fn refunded(&self) -> (r: u64)
        ensures
            r == self.refunded,
    {
        self.refunded
    }

    /// Charges `cost` in full, or leaves the counter as it was and returns `false`.
    pub fn record_cost(&mut self, cost: u64) -> (ok: bool)
        ensures
            ok == (cost <= old(self).remaining),
            ok ==> final(self).remaining == old(self).remaining - cost,
            !ok ==> final(self).remaining == old(self).remaining,
            final(self).refunded == old(self).refunded,
    {
        if cost <= self.remaining {
            self.remaining = self.remaining - cost;
            true
        } else {
            false
        }
    }

    /// Gives back gas that a nested frame did not spend.
    pub fn erase_cost(&mut self, returned: u64)
        ensures
            final(self).remaining == sat_add(old(self).remaining, returned),
            final(self).refunded == old(self).refunded,
    {
        self.remaining = self.remaining.saturating_add(returned);
    }

    pub fn record_refund(&mut self, refund: u64)
        ensures
            final(self).refunded == sat_add(old(self).refunded, refund),
            final(self).remaining == old(self).remaining,
    {
        self.refunded = self.refunded.saturating_add(refund);
    }

    /// Applies a net refund change, which may take back part of what was earned.
    pub fn record_refund_delta(&mut self, delta: i64)
        ensures
            final(self).refunded == clamp_refund(old(self).refunded + delta),
            final(self).remaining == old(self).remaining,
    {
        if delta >= 0 {
            self.refunded = self.refunded.saturating_add(delta as u64);
        } else {
            let loss: u64 = (0 - (delta as i128)) as u64;
            self.refunded = self.refunded.saturating_sub(loss);
        }
    }
}

/// The identity of the code that a frame runs.
#[derive(Clone, Copy, Debug, PartialEq, Eq, Structural)]
pub struct Contract {
    pub address: Word,
    pub caller: Word,
    pub value: Word,
}

/// The state of one call frame.
pub struct Machine {
    pub stack: Vec<Word>,
    pub stack_limit: usize,
    pub memory: Vec<u8>,
    pub memory_limit: usize,
    pub gas: Gas,
    pub contract: Contract,
    pub return_data_buffer: bytes::Bytes,
}

/// Memory length after a region ending at `end` has been touched: whole words.
pub open spec fn ceil32(end: nat) -> nat {
    ((end + 31) / 32) * 32
}

/// Memory after the region `[offset, offset + len)` is made addressable, or the
/// error that stops it.
pub open spec fn resize_spec(mem: Seq<u8>, limit: usize, offset: Word, len: Word) -> Result<
    Seq<u8>,
    ExitError,
> {
    if is_zero(len) {
        Ok(mem)
    } else if !(fits_u64(offset) && fits_u64(len) && offset.w0 + len.w0 <= usize::MAX) {
        Err(ExitError::InvalidRange)
    } else if ceil32((offset.w0 + len.w0) as nat) > limit {
        Err(ExitError::InvalidRange)
    } else if ceil32((offset.w0 + len.w0) as nat) <= mem.len() {
        Ok(mem)
    } else {
        Ok(mem + Seq::new((ceil32((offset.w0 + len.w0) as nat) - mem.len()) as nat, |i: int| 0u8))
    }
}

/// The `len` bytes of `data` from `from` on, zero where `data` ends.
pub open spec fn padded_window(data: Seq<u8>, from: nat, len: nat) -> Seq<u8> {
    Seq::new(len, |i: int| if from + i < data.len() { data[from + i] } else { 0u8 })
}

/// Memory after `len` bytes of `data` from `data_offset` on are written at
/// `offset`, zero-filled past the end of `data`.
pub open spec fn copy_spec(mem: Seq<u8>, offset: nat, data: Seq<u8>, data_offset: nat, len: nat) -> Seq<u8> {
    Seq::new(
        mem.len(),
        |i: int|
            if offset <= i < offset + len {
                if data_offset + (i - offset) < data.len() { data[data_offset + (i - offset)] } else { 0u8 }
            } else {
                mem[i]
            },
    )
}

/// The source offset of a copy: past the data's end it reads nothing.
pub open spec fn source_offset(data_offset: Word, data_len: nat) -> nat {
    if fits_u64(data_offset) && data_offset.w0 <= data_len { data_offset.w0 as nat } else { data_len }
}

pub open spec fn copy_large_spec(mem: Seq<u8>, offset: Word, data_offset: Word, len: Word, data: Seq<u8>) -> Result<
    Seq<u8>,
    ExitError,
> {
    if is_zero(len) {
        Ok(mem)
    } else if !(fits_u64(offset) && fits_u64(len) && offset.w0 + len.w0 <= mem.len()) {
        Err(ExitError::InvalidRange)
    } else {
        Ok(copy_spec(mem, offset.w0 as nat, data, source_offset(data_offset, data.len()), len.w0 as nat))
    }
}

impl Machine {
    pub open spec fn wf(&self) -> bool {
        &&& self.stack.len() <= self.stack_limit
        &&& self.memory.len() <= self.memory_limit
    }

    pub fn new(contract: Contract, gas_limit: u64, stack_limit: usize, memory_limit: usize) -> (r: Machine)
        ensures
            r.wf(),
            r.stack@ == Seq::<Word>::empty(),
            r.memory@ == Seq::<u8>::empty(),
            r.stack_limit == stack_limit,
            r.memory_limit == memory_limit,
            r.gas == Gas::new_spec(gas_limit),
            r.contract == contract,
            bytes_view(r.return_data_buffer) == Seq::<u8>::empty(),
    {
        Machine {
            stack: Vec::new(),
            stack_limit,
            memory: Vec::new(),
            memory_limit,
            gas: Gas { remaining: gas_limit, refunded: 0 },
            contract,
            return_data_buffer: bytes_new(),
        }
    }

    /// Takes the top word off the stack.
    pub fn pop(&mut self) -> (r: Result<Word, ExitError>)
        ensures
            old(self).stack.len() == 0 ==> r == Err::<Word, ExitError>(ExitError::StackUnderflow)
                && final(self).stack@ == old(self).stack@,
            old(self).stack.len() > 0 ==> r == Ok::<Word, ExitError>(old(self).stack@.last())
                && final(self).stack@ == old(self).stack@.drop_last(),
            final(self).memory == old(self).memory,
            final(self).gas == old(self).gas,
            final(self).contract == old(self).contract,
            final(self).return_data_buffer == old(self).return_data_buffer,
            final(self).stack_limit == old(self).stack_limit,
            final(self).memory_limit == old(self).memory_limit,
    {
        match self.stack.pop() {
            Some(w) => Ok(w),
            None => Err(ExitError::StackUnderflow),
        }
    }

    /// Puts a word on the stack, unless it is full.
    pub fn push(&mut self, w: Word) -> (r: Result<(), ExitError>)
        ensures
            old(self).stack.len() >= old(self).stack_limit ==> r == Err::<(), ExitError>(ExitError::StackOverflow)
                && final(self).stack@ == old(self).stack@,
            old(self).stack.len() < old(self).stack_limit ==> r == Ok::<(), ExitError>(())
                && final(self).stack@ == old(self).stack@.push(w),
            final(self).memory == old(self).memory,
            final(self).gas == old(self).gas,
            final(self).contract == old(self).contract,
            final(self).return_data_buffer == old(self).return_data_buffer,
            final(self).stack_limit == old(self).stack_limit,
            final(self).memory_limit == old(self).memory_limit,
    {
        if self.stack.len() >= self.stack_limit {
            Err(ExitError::StackOverflow)
        } else {
            self.stack.push(w);
            Ok(())
        }
    }

    /// Grows memory so that `[offset, offset + len)` can be addressed.
    pub fn memory_resize(&mut self, offset: Word, len: Word) -> (r: Result<(), ExitError>)
        requires
            old(self).memory.len() <= old(self).memory_limit,
        ensures
            resize_spec(old(self).memory@, old(self).memory_limit, offset, len) matches Ok(m) ==> r is Ok
                && final(self).memory@ == m,
            resize_spec(old(self).memory@, old(self).memory_limit, offset, len) matches Err(e) ==> r
                == Err::<(), ExitError>(e) && final(self).memory@ == old(self).memory@,
            final(self).memory.len() <= final(self).memory_limit,
            final(self).memory.len() >= old(self).memory.len(),
            final(self).stack == old(self).stack,
            final(self).gas == old(self).gas,
            final(self).contract == old(self).contract,
            final(self).return_data_buffer == old(self).return_data_buffer,
            final(self).stack_limit == old(self).stack_limit,
            final(self).memory_limit == old(self).memory_limit,
    {
        if len.is_zero() {
            return Ok(());
        }
        if !(offset.fits_u64() && len.fits_u64()) {
            return Err(ExitError::InvalidRange);
        }
        if offset.w0 > usize::MAX as u64 || len.w0 > usize::MAX as u64 - offset.w0 {
            return Err(ExitError::InvalidRange);
        }
        let end: usize = (offset.w0 + len.w0) as usize;
        let rest: usize = end % 32;
        let pad: usize = if rest == 0 { 0 } else { 32 - rest };
        assert(ceil32(end as nat) == end + pad) by (nonlinear_arith)
            requires
                rest == end % 32,
                pad == (if rest == 0 { 0 } else { 32 - rest }),
        ;
        if pad > self.memory_limit || end > self.memory_limit - pad {
            return Err(ExitError::InvalidRange);
        }
        let new_len: usize = end + pad;
        if new_len <= self.memory.len() {
            return Ok(());
        }
        let ghost m0 = self.memory@;
        let ghost target = Seq::new(new_len as nat, |i: int| if i < m0.len() { m0[i] } else { 0u8 });
        while self.memory.len() < new_len
            invariant
                m0.len() <= self.memory.len() <= new_len,
                target == Seq::new(new_len as nat, |i: int| if i < m0.len() { m0[i] } else { 0u8 }),
                self.memory@ =~= target.subrange(0, self.memory.len() as int),
                new_len <= self.memory_limit,
                self.stack == old(self).stack,
                self.gas == old(self).gas,
                self.contract == old(self).contract,
                self.return_data_buffer == old(self).return_data_buffer,
                self.stack_limit == old(self).stack_limit,
                self.memory_limit == old(self).memory_limit,
            decreases new_len - self.memory.len(),
        {
            let ghost k = self.memory.len() as int;
            assert(target[k] == 0u8);
            self.memory.push(0u8);
            assert(target.subrange(0, k + 1) =~= target.subrange(0, k).push(target[k]));
        }
        assert(self.memory@ =~= m0 + Seq::new((new_len - m0.len()) as nat, |i: int| 0u8));
        Ok(())
    }

    /// A copy of `len` bytes of memory from `offset` on.
    pub fn memory_get(&self, offset: usize, len: usize) -> (r: Vec<u8>)
        requires
            offset + len <= self.memory.len(),
        ensures
            r@ == self.memory@.subrange(offset as int, offset + len),
    {
        let mut out: Vec<u8> = Vec::new();
        let mut i: usize = 0;
        while i < len
            invariant
                i <= len,
                offset + len <= self.memory.len(),
                out@ =~= self.memory@.subrange(offset as int, offset + i),
            decreases len - i,
        {
            out.push(self.memory[offset + i]);
            i = i + 1;
            assert(out@ =~= self.memory@.subrange(offset as int, offset + i));
        }
        out
    }
}

/// Writes `len` bytes of `data`, from `data_offset` on, to memory at
/// `offset`; bytes past the end of `data` are written as zero.
pub fn copy_large(memory: &mut Vec<u8>, offset: Word, data_offset: Word, len: Word, data: &Vec<u8>) -> (r: Result<(), ExitError>)
    ensures
        copy_large_spec(old(memory)@, offset, data_offset, len, data@) matches Ok(m) ==> r is Ok
            && final(memory)@ == m,
        copy_large_spec(old(memory)@, offset, data_offset, len, data@) matches Err(e) ==> r
            == Err::<(), ExitError>(e) && final(memory)@ == old(memory)@,
{
    if len.is_zero() {
        return Ok(());
    }
    if !(offset.fits_u64() && len.fits_u64()) {
        return Err(ExitError::InvalidRange);
    }
    if offset.w0 > memory.len() as u64 || len.w0 > memory.len() as u64 - offset.w0 {
        return Err(ExitError::InvalidRange);
    }
    let off: usize = offset.w0 as usize;
    let n: usize = len.w0 as usize;
    let src: usize = if data_offset.fits_u64() && data_offset.w0 <= data.len() as u64 {
        data_offset.w0 as usize
    } else {
        data.len()
    };
    let ghost m0 = memory@;
    let ghost target = copy_spec(m0, off as nat, data@, src as nat, n as nat);
    let mut i: usize = 0;
    while i < n
        invariant
            i <= n,
            off + n <= m0.len(),
            m0.len() <= usize::MAX,
            src <= data.len(),
            memory@.len() == m0.len(),
            target.len() == m0.len(),
            target == copy_spec(m0, off as nat, data@, src as nat, n as nat),
            forall|j: int| 0 <= j < m0.len() && !(off <= j < off + i) ==> memory@[j] == m0[j],
            forall|j: int| off <= j < off + i ==> memory@[j] == target[j],
        decreases n - i,
    {
        let b: u8 = if i < data.len() - src {
            data[src + i]
        } else {
            0u8
        };
        memory.set(off + i, b);
        i = i + 1;
    }
    assert(memory@ =~= target);
    Ok(())
}

impl Gas {
    pub open spec fn new_spec(remaining: u64) -> Gas {
        Gas { remaining, refunded: 0 }
    }
}

/// A successful copy leaves memory as long as it was, and a non-empty
/// destination window holds exactly `len` bytes of the source from its offset on, zero past
/// the source's end; the rest of memory is untouched.
pub proof fn lemma_copy_window(mem: Seq<u8>, offset: Word, data_offset: Word, len: Word, data: Seq<u8>)
    requires
        copy_large_spec(mem, offset, data_offset, len, data) is Ok,
    ensures
        ({
            let m = copy_large_spec(mem, offset, data_offset, len, data)->Ok_0;
            &&& m.len() == mem.len()
            &&& !is_zero(len) ==> m.subrange(offset.w0 as int, offset.w0 + val(len)) == padded_window(
                data,
                source_offset(data_offset, data.len()),
                val(len),
            )
            &&& forall|i: int| 0 <= i < mem.len() && !(offset.w0 <= i < offset.w0 + val(len)) ==> m[i] == mem[i]
        }),
{
    lemma_val_small(len);
    let m = copy_large_spec(mem, offset, data_offset, len, data)->Ok_0;
    if !is_zero(len) {
        assert(m.subrange(offset.w0 as int, offset.w0 + val(len)) =~= padded_window(
            data,
            source_offset(data_offset, data.len()),
            val(len),
        ));
    }
}

} // verus!
