//! What can go wrong while a window configuration is restored.

use vstd::prelude::*;

verus! {

/// Why no window configuration came out of a restore.
#[derive(Clone, Debug, PartialEq, Eq)]
pub enum ConfigError {
    /// A size record was persisted, but it does not state a size: it is no
    /// record of fields, or its `width` or `height` is missing or is no
    /// number, or is a number below zero.
    MalformedSizeRecord,
    /// The text of the configuration was not accepted; the message says why.
    ConfigParseError(String),
}

} // verus!
