//! The result of posting a summary to the ledger, and the check on it.

use vstd::prelude::*;

verus! {

/// What the posting script reports.
pub struct SolanaLogResult {
    pub success: bool,
    pub signature: String,
    pub explorer_url: String,
    pub memo: String,
    pub hash: String,
    pub pubkey: String,
}

/// Why a posting is not accepted.
#[derive(Clone, Copy, Debug, PartialEq, Eq, Structural)]
pub enum LedgerError {
    /// The script ran but reports that the transaction failed.
    TransactionFailed,
}

/// Accepts a report exactly when it says the transaction succeeded.
pub fn accept_log_result(result: SolanaLogResult) -> (r: Result<SolanaLogResult, LedgerError>)
    ensures
        result.success ==> r == Ok::<SolanaLogResult, LedgerError>(result),
        !result.success ==> r == Err::<SolanaLogResult, LedgerError>(LedgerError::TransactionFailed),
{
    if result.success {
        Ok(result)
    } else {
        Err(LedgerError::TransactionFailed)
    }
}

} // verus!
