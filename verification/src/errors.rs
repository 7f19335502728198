use vstd::prelude::*;

verus! {

/// Errors of the protocol engine. Every failure is surfaced; none is
/// downgraded or swallowed.
#[derive(Clone, Copy, PartialEq, Eq, Structural, Debug)]
pub enum EngineError {
    /// The transport collaborator failed (network, timeout).
    Transport,
    /// A response's shape or count does not match the request.
    ProtocolMismatch,
    /// Unblinding or signature construction failed.
    Crypto,
    /// Checked arithmetic on the safe path overflowed.
    AmountOverflow,
    /// The mint advertises no active keyset.
    NoActiveKeyset,
    /// The mint refused a swap request.
    SwapRejected,
}

impl EngineError {
    /// A short description, for callers that report errors.
    pub fn describe(&self) -> (r: &'static str)
        ensures
            (*self is Transport) ==> r@ == "transport failure"@,
            (*self is ProtocolMismatch) ==> r@ == "response does not match request"@,
            (*self is Crypto) ==> r@ == "cryptographic operation failed"@,
            (*self is AmountOverflow) ==> r@ == "amount arithmetic overflowed"@,
            (*self is NoActiveKeyset) ==> r@ == "no active keyset"@,
            (*self is SwapRejected) ==> r@ == "mint rejected the swap"@,
    {
        match self {
            EngineError::Transport => "transport failure",
            EngineError::ProtocolMismatch => "response does not match request",
            EngineError::Crypto => "cryptographic operation failed",
            EngineError::AmountOverflow => "amount arithmetic overflowed",
            EngineError::NoActiveKeyset => "no active keyset",
            EngineError::SwapRejected => "mint rejected the swap",
        }
    }
}

/// Outcome of the adversarial overflow probe: a conformant mint rejects the
/// wrapping swap; one that accepts it has created value from nothing.
#[derive(Clone, Copy, PartialEq, Eq, Structural, Debug)]
pub enum ProbeOutcome {
    /// The mint refused the overflowing request (the expected outcome).
    OverflowRejected,
    /// The mint accepted the overflowing request (a conservation failure).
    OverflowAccepted,
}

} // verus!
