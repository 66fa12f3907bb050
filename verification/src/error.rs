//! The agent's error taxonomy.
//!
//! Variants carry plain values (paths, names, a renderer's message text) so
//! that every function returning one can state exactly when it arises.

use vstd::prelude::*;

verus! {

/// Everything that can go wrong in the agent's own logic.
///
/// Configuration-load and seeding errors are fatal before the stream loop
/// starts; decode errors abort one poll cycle; render errors abort the current
/// render batch, leaving services rendered earlier in the batch applied.
#[derive(Debug, PartialEq, Eq)]
pub enum DaemonError {
    /// A setting lists no keys; the configuration is rejected at load time.
    EmptyKeys { service_name: String },
    /// Bulk seeding failed on this key for a reason other than the store not
    /// knowing the key (a not-found key is dropped, not an error).
    SsmGet { key_path: String },
    /// A render asked for a service whose name no setting carries.
    SettingNotFound { setting: String },
    /// The template engine rejected the template for this service.
    RenderTemplate { template_path: String, message: String },
    /// A stream record's bytes are not valid UTF-8; the poll cycle aborts.
    RecordUtf8Decode,
    /// A stream record's text is not well-formed JSON; the poll cycle aborts.
    RecordJsonDecode,
}

} // verus!
