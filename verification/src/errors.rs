use vstd::prelude::*;

verus! {

/// Failure kinds surfaced by the core. Payloads carry a human-readable
/// description supplied by the caller that observed the failure.
#[derive(Debug, Clone)]
pub enum YuukiError {
    /// Logging/diagnostics bootstrap failed before the core was initialized.
    LoggingInit(String),
    /// A configuration file could not be read or written.
    ConfigIo(String),
    /// A configuration or account-store document was malformed.
    ConfigParse(String),
    /// The account store could not be written after a mutation.
    Persistence(String),
}

} // verus!
