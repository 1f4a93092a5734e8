//! Authoritative state for small two-player sessions ("lobbies").
//!
//! The crate tracks two named participant slots per lobby and a per-slot
//! monotonic counter, plus a global roster of connected identities.  The
//! hosting environment is expected to run each operation as one atomic,
//! serialized unit of work against the shared tables; the logic here reads
//! the current state, validates, and either commits a new state or reports
//! a rejection.

use vstd::prelude::*;

pub mod code;
pub mod identity;
pub mod lobby;
pub mod roster;

verus! {

/// A rejection: a defined, non-fatal failure outcome of an operation,
/// surfaced to the immediate caller with no state change.
#[derive(Clone, Copy, PartialEq, Eq, Structural, Debug)]
pub enum Reject {
    /// The lobby code fails the length or character-class check.
    InvalidCode,
    /// Lobby creation targets a code already in use.
    DuplicateCode,
    /// The targeted code has no existing lobby.
    NotFound,
    /// Both slots of the targeted lobby are occupied by other identities.
    LobbyFull,
    /// A counter advance was requested by an identity in neither slot.
    NotAMember,
}

} // verus!
