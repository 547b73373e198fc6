use vstd::prelude::*;

verus! {

/// Failures reported by the engine.
#[derive(Debug, Clone, PartialEq)]
pub enum Error {
    AssetNotFound,
    InvalidMarginAmount,
    /// Carries the free margin at the time of the request.
    InsufficientFreeMargin(i128),
    GenericParse(String),
    Transport(String),
    ExchangeReject(String),
    Custom(String),
}

} // verus!
