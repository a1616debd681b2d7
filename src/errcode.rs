//! Errors: the ones found in caller-supplied text, and the engine's error codes.
use vstd::prelude::*;

verus! {

/// Input-validation errors, found in text that a caller supplied.
#[derive(Clone, Copy, Debug, PartialEq, Eq, Structural)]
pub enum BchToolsErr {
    InvalidBtreeId,
    InvalidBkeyType,
    InvalidBpos,
}

impl BchToolsErr {
    /// The message shown for this error.
    pub fn message(&self) -> (r: &'static str)
        ensures
            r@ == match self {
                BchToolsErr::InvalidBtreeId => "invalid btree id"@,
                BchToolsErr::InvalidBkeyType => "invalid bkey type"@,
                BchToolsErr::InvalidBpos => "invalid bpos"@,
            },
    {
        match self {
            BchToolsErr::InvalidBtreeId => "invalid btree id",
            BchToolsErr::InvalidBkeyType => "invalid bkey type",
            BchToolsErr::InvalidBpos => "invalid bpos",
        }
    }
}

/// Largest error number that the engine encodes in place of a result.
pub const MAX_ERRNO: i64 = 4095;

/// The engine's error number for "the transaction must restart".
pub const BCH_ERR_TRANSACTION_RESTART: i64 = 2048;

/// Errors that engine operations report.
#[derive(Clone, Copy, Debug, PartialEq, Eq, Structural)]
pub enum BchErrcode {
    /// The lookup yielded nothing.
    NotFound,
    /// The transaction must restart before it can go on.
    WouldRestartTransaction,
    /// A stored value carries a type tag outside the known set.
    CorruptData,
    /// Any other engine failure, with its error number.
    Fatal(i64),
}

/// What a raw engine result means: a null result, an error number encoded as a
/// small negative value, or a non-null success value.
pub open spec fn errptr_spec(raw: i64) -> Result<u64, BchErrcode> {
    if raw == 0 {
        Err(BchErrcode::NotFound)
    } else if raw == -BCH_ERR_TRANSACTION_RESTART {
        Err(BchErrcode::WouldRestartTransaction)
    } else if -MAX_ERRNO <= raw < 0 {
        Err(BchErrcode::Fatal((-raw) as i64))
    } else {
        Ok(raw as u64)
    }
}

/// Maps a raw engine result to a `Result`.
pub fn errptr_to_result(raw: i64) -> (r: Result<u64, BchErrcode>)
    ensures
        r == errptr_spec(raw),
{
    if raw == 0 {
        Err(BchErrcode::NotFound)
    } else if raw == -BCH_ERR_TRANSACTION_RESTART {
        Err(BchErrcode::WouldRestartTransaction)
    } else if -MAX_ERRNO <= raw && raw < 0 {
        Err(BchErrcode::Fatal(-raw))
    } else {
        Ok(raw as u64)
    }
}

} // verus!
