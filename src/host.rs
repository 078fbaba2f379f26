use vstd::prelude::*;
use crate::gas::SelfDestructResult;
use crate::machine::{ExitReason, Gas};
use crate::word::Word;

verus! {

#[derive(Clone, Copy, Debug, PartialEq, Eq, Structural)]
pub enum CallScheme {
    Call,
    CallCode,
    DelegateCall,
    StaticCall,
}

#[derive(Clone, Copy, Debug, PartialEq, Eq, Structural)]
pub enum CreateScheme {
    Create,
    /// The new address is derived from the caller, this salt and the code.
    Create2 { salt: Word },
}

/// The identity a nested frame runs under.
#[derive(Clone, Copy, Debug, PartialEq, Eq, Structural)]
pub struct CallContext {
    pub address: Word,
    pub caller: Word,
    pub apparent_value: Word,
}

/// A movement of native value from one account to another.
#[derive(Clone, Copy, Debug, PartialEq, Eq, Structural)]
pub struct Transfer {
    pub source: Word,
    pub target: Word,
    pub value: Word,
}

/// What the host reports of a storage write.
#[derive(Clone, Copy, Debug, PartialEq, Eq, Structural)]
pub struct StorageWrite {
    pub original: Word,
    pub current: Word,
    pub new: Word,
    pub is_cold: bool,
}

/// How a nested call ended.
pub struct CallOutcome {
    pub reason: ExitReason,
    /// Gas the nested frame left unspent, and the refund it earned.
    pub gas: Gas,
    pub return_data: bytes::Bytes,
}

/// How a nested creation ended.
pub struct CreateOutcome {
    pub reason: ExitReason,
    pub address: Option<Word>,
    pub gas: Gas,
    pub return_data: bytes::Bytes,
}

/// The world around a frame: accounts, storage, block data, and the running of
/// nested frames.
pub trait Host {
    fn balance(&mut self, address: Word) -> (Word, bool);

    fn code_size(&mut self, address: Word) -> (Word, bool);

    fn code_hash(&mut self, address: Word) -> (Word, bool);

    fn code(&mut self, address: Word) -> (bytes::Bytes, bool);

    fn sload(&mut self, address: Word, key: Word) -> (Word, bool);

    fn sstore(&mut self, address: Word, key: Word, value: Word) -> StorageWrite;

    fn log(&mut self, address: Word, topics: Vec<Word>, data: bytes::Bytes);

    fn selfdestruct(&mut self, address: Word, beneficiary: Word) -> Result<SelfDestructResult, ExitReason>;

    fn create(
        &mut self,
        caller: Word,
        scheme: CreateScheme,
        value: Word,
        code: bytes::Bytes,
        gas_limit: u64,
    ) -> CreateOutcome;

    fn call(
        &mut self,
        code_address: Word,
        transfer: Option<Transfer>,
        input: bytes::Bytes,
        gas_limit: u64,
        context: CallContext,
        read_only: bool,
    ) -> CallOutcome;

    fn block_hash(&mut self, number: Word) -> Word;

    fn block_coinbase(&mut self) -> Word;

    fn block_timestamp(&mut self) -> Word;

    fn block_number(&mut self) -> Word;

    fn block_difficulty(&mut self) -> Word;

    fn block_gas_limit(&mut self) -> Word;

    fn chain_id(&mut self) -> Word;

    fn gas_price(&mut self) -> Word;

    fn origin(&mut self) -> Word;
}

} // verus!
