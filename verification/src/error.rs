//! Errors of the tray operations.

use vstd::prelude::*;

verus! {

/// Why a tray operation failed.
#[derive(Debug, Clone)]
pub enum TrayIconError {
    /// The tray attributes carry no icon ("No icon provided").
    NoIconProvided,
    /// The status bar refused a request; the text is its message.
    OhosError(String),
}

} // verus!
