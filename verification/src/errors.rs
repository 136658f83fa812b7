use vstd::prelude::*;

verus! {

/// Failures of the token ledger collaborator.
#[derive(Clone, Copy, PartialEq, Eq, Structural, Debug)]
pub enum LedgerError {
    /// A mint was requested for an asset key that already exists.
    AssetAlreadyExists,
    /// A transfer was requested by an account that does not hold the asset.
    InsufficientBalance,
}

/// Failures of the metadata registry collaborator.
#[derive(Clone, Copy, PartialEq, Eq, Structural, Debug)]
pub enum RegistryError {
    /// Metadata was already registered for this asset key.
    DuplicateAsset,
}

/// Every rejection the bridge core can produce. A collaborator error is
/// carried through unchanged in its own variant; the handlers' pre-mutation
/// guards make every other collaborator failure impossible, which the
/// handlers prove rather than handle.
#[derive(Clone, Copy, PartialEq, Eq, Structural, Debug)]
pub enum BridgeError {
    /// The caller (inbound) or routing endpoint (outbound) is not the
    /// configured gateway identity.
    InvalidGateway,
    /// The outbound sender holds no unit of the asset-instance.
    NoTokens,
    /// The inbound payload does not follow the envelope format.
    MalformedPayload,
    /// A second attempt to initialize the deployment's configuration.
    AlreadyInitialized,
    /// A metadata registry failure, propagated unchanged.
    Registry(RegistryError),
}

} // verus!
