//! Proving a transaction with a remote prover.

use vstd::prelude::*;

verus! {

/// Why no proof came back.
#[derive(Debug)]
pub struct TransactionProverError {
    pub message: &'static str,
    /// The text of what went wrong.
    pub source: String,
}

/// A remote prover which proves transactions.
#[derive(Debug)]
pub struct RemoteTransactionProver {
    pub url: String,
    /// How long one request may take, in nanoseconds.
    pub timeout: u64,
}

impl RemoteTransactionProver {
    /// Creates a prover at the given endpoint.
    pub fn new(url: String, timeout: u64) -> (prover: RemoteTransactionProver)
        ensures
            prover == (RemoteTransactionProver { url, timeout }),
    {
        RemoteTransactionProver { url, timeout }
    }

    /// Concludes from what the remote prover answered. The call itself may fail, and an answer may
    /// hold no valid transaction; in both cases the text says what went wrong.
    pub fn prove<T>(&self, answered: Result<Result<T, String>, String>) -> (proven: Result<
        T,
        TransactionProverError,
    >)
        ensures
            match answered {
                Ok(Ok(transaction)) => proven matches Ok(found) && found == transaction,
                Ok(Err(source)) => proven matches Err(error) && error.message@
                    == "invalid remote transaction proof response"@ && error.source == source,
                Err(source) => proven matches Err(error) && error.message@
                    == "failed to prove transaction"@ && error.source == source,
            },
    {
        match answered {
            Err(source) => Err(
                TransactionProverError { message: "failed to prove transaction", source },
            ),
            Ok(Err(source)) => Err(
                TransactionProverError {
                    message: "invalid remote transaction proof response",
                    source,
                },
            ),
            Ok(Ok(transaction)) => Ok(transaction),
        }
    }
}

} // verus!
