use vstd::prelude::*;

verus! {

/// The families of failure.
#[derive(Clone, Copy, Debug, PartialEq, Eq, Structural)]
pub enum ErrorKind {
    Validation,
    Authorization,
    IntentType,
    Arithmetic,
}

/// Why a call was refused. Every refusal leaves the state as it was.
#[derive(Clone, Copy, Debug, PartialEq, Eq, Structural)]
pub enum ProxyError {
    /// The signed payload names another portfolio than the call.
    PortfolioMismatch,
    /// The signed payload and the per-intent payloads disagree in number.
    PayloadCountMismatch,
    /// No owner record for the key.
    OwnerNotFound,
    /// The presented nonce is not greater than the stored one.
    StaleNonce,
    /// The signature does not verify against the owner's key.
    InvalidSignature,
    /// No portfolio with that id.
    PortfolioNotFound,
    /// The portfolio belongs to another key.
    OwnershipMismatch,
    /// The caller is not an agent key.
    AgentNotFound,
    /// The agent key is bound to another portfolio.
    AgentNotAssigned,
    /// The batch holds an intent that the operation does not allow.
    IntentTypeNotAllowed,
    /// The portfolio counter is exhausted.
    CounterOverflow,
    /// The deposit refund does not fit.
    RefundOverflow,
}

impl ProxyError {
    pub open spec fn kind_spec(&self) -> ErrorKind {
        match self {
            ProxyError::PortfolioMismatch | ProxyError::PayloadCountMismatch => ErrorKind::Validation,
            ProxyError::IntentTypeNotAllowed => ErrorKind::IntentType,
            ProxyError::CounterOverflow | ProxyError::RefundOverflow => ErrorKind::Arithmetic,
            _ => ErrorKind::Authorization,
        }
    }

    /// The family of this error.
    pub fn kind(&self) -> (r: ErrorKind)
        ensures
            r == self.kind_spec(),
    {
        match self {
            ProxyError::PortfolioMismatch | ProxyError::PayloadCountMismatch => ErrorKind::Validation,
            ProxyError::IntentTypeNotAllowed => ErrorKind::IntentType,
            ProxyError::CounterOverflow | ProxyError::RefundOverflow => ErrorKind::Arithmetic,
            _ => ErrorKind::Authorization,
        }
    }
}

} // verus!
