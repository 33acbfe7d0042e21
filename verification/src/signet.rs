//! The `signet` RPC namespace: forwarding to the transaction cache and
//! bundle simulation limits.
use vstd::prelude::*;

verus! {

/// Errors of the `signet` namespace.
#[derive(Debug, Clone, PartialEq, Eq)]
pub enum SignetError {
    /// The transaction cache URL was not provided.
    TxCacheUrlNotProvided,
    /// An error from a component such as the transaction cache, with its
    /// message.
    EthApiError(String),
}

impl SignetError {
    /// The error's message.
    pub open spec fn spec_message(self) -> Seq<char> {
        match self {
            SignetError::TxCacheUrlNotProvided => "transaction cache URL not provided"@,
            SignetError::EthApiError(m) => m@,
        }
    }

    /// Turn into a string by value.
    pub fn into_string(self) -> (r: String)
        ensures
            r@ == self.spec_message(),
    {
        match self {
            SignetError::TxCacheUrlNotProvided => String::from_str("transaction cache URL not provided"),
            SignetError::EthApiError(m) => m,
        }
    }
}

/// The transaction cache to forward to, or the error message owed when
/// none is configured.
pub fn require_tx_cache<T>(tx_cache: Option<T>) -> (r: Result<T, String>)
    ensures
        match tx_cache {
            Some(c) => r == Ok::<T, String>(c),
            None => r matches Err(m) && m@ == SignetError::TxCacheUrlNotProvided.spec_message(),
        },
{
    match tx_cache {
        Some(c) => Ok(c),
        None => Err(SignetError::TxCacheUrlNotProvided.into_string()),
    }
}

/// The time allowed for a bundle simulation, in milliseconds, if the
/// bundle sets none.
pub const DEFAULT_BUNDLE_TIMEOUT_MS: u64 = 1000;

/// The time allowed for a bundle simulation: the bundle's own timeout, or
/// the default.
pub fn bundle_timeout_ms(timeout: Option<u64>) -> (r: u64)
    ensures
        r == match timeout {
            Some(t) => t,
            None => DEFAULT_BUNDLE_TIMEOUT_MS,
        },
{
    match timeout {
        Some(t) => t,
        None => DEFAULT_BUNDLE_TIMEOUT_MS,
    }
}

/// How a bundle simulation ended.
#[derive(Debug, Clone, PartialEq, Eq)]
pub enum SimulationEnd<T> {
    /// The timer ran out first.
    TimedOut,
    /// The block configuration could not be loaded; the error's message.
    BlockCfgError(String),
    /// The simulation failed; the error's message.
    Failed(String),
    /// The simulation finished with this response.
    Finished(T),
}

/// The RPC answer to a bundle simulation.
#[derive(Debug, Clone, PartialEq, Eq)]
pub enum BundleAnswer<T> {
    /// The simulation's response.
    Success(T),
    /// An internal error with a message, and the cause's message where one
    /// is attached.
    InternalError {
        /// The message.
        message: String,
        /// The cause's message.
        data: Option<String>,
    },
}

/// The answer owed for each way a bundle simulation can end: a timeout and
/// a block configuration that cannot be loaded get fixed messages (the
/// latter with the cause attached); a failed simulation reports its
/// error's message.
pub fn bundle_answer<T>(end: SimulationEnd<T>) -> (r: BundleAnswer<T>)
    ensures
        match end {
            SimulationEnd::TimedOut => r matches BundleAnswer::InternalError { message, data }
                && message@ == "timeout during bundle simulation"@ && data is None,
            SimulationEnd::BlockCfgError(e) => r matches BundleAnswer::InternalError { message, data }
                && message@ == "error while loading block cfg"@ && data == Some(e),
            SimulationEnd::Failed(e) => r == BundleAnswer::<T>::InternalError { message: e, data: None },
            SimulationEnd::Finished(t) => r == BundleAnswer::<T>::Success(t),
        },
{
    match end {
        SimulationEnd::TimedOut => BundleAnswer::InternalError {
            message: String::from_str("timeout during bundle simulation"),
            data: None,
        },
        SimulationEnd::BlockCfgError(e) => BundleAnswer::InternalError {
            message: String::from_str("error while loading block cfg"),
            data: Some(e),
        },
        SimulationEnd::Failed(e) => BundleAnswer::InternalError { message: e, data: None },
        SimulationEnd::Finished(t) => BundleAnswer::Success(t),
    }
}

} // verus!
