use vstd::prelude::*;

verus! {

/// Every failure a ledger operation can report. Each failure aborts the
/// operation; no partial write survives.
#[derive(Debug)]
pub enum ContractError {
    /// A storage-layer or host-layer failure, surfaced as a generic failure.
    Std,
    /// The caller is not the configured owner.
    Unauthorized,
    /// The operation carried a value transfer, which the ledger refuses.
    PaymentNotAllowed,
    /// A field fell outside its declared bounds: field name, minimum, maximum.
    InvalidLength(&'static str, u64, u64),
    /// A query referenced an identifier that was never written.
    NotFound,
    /// A write attempted to reuse an existing identifier.
    DuplicateKey,
}

} // verus!
