//! Why the transfer pool refuses a transaction.

use vstd::prelude::*;

verus! {

/// A refusal of the transfer pool.
#[derive(Debug, PartialEq)]
pub enum MempoolError {
    /// The pool holds as many transactions as it may.
    Full,
    /// A transaction with the same id is pending already.
    Duplicate,
    /// The transaction breaks a rule; the text says which.
    InvalidTransaction(String),
}

/// The text of an error, as the pool shows it.
pub open spec fn error_text(e: MempoolError) -> Seq<char> {
    match e {
        MempoolError::Full => "Mempool llena"@,
        MempoolError::Duplicate => "Transacción duplicada"@,
        MempoolError::InvalidTransaction(reason) => "Transacción inválida: "@ + reason@,
    }
}

impl MempoolError {
    /// The text of the error.
    pub fn message(&self) -> (s: String)
        ensures
            s@ == error_text(*self),
    {
        match self {
            MempoolError::Full => crate::text::owned("Mempool llena"),
            MempoolError::Duplicate => crate::text::owned("Transacción duplicada"),
            MempoolError::InvalidTransaction(reason) => crate::text::concat("Transacción inválida: ", reason.as_str()),
        }
    }
}

} // verus!
