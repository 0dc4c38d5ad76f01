//! Why the registry refuses an operation.

use vstd::prelude::*;

verus! {

/// The reasons for which a mint or a transfer is refused. A refused
/// operation leaves the registry as it was.
#[derive(Clone, Copy, Debug, PartialEq, Eq, Structural)]
pub enum Error {
    /// The caller asked for a mint and is not the admin.
    NotOwner,
    /// The token to transfer was never minted, belongs to someone other than
    /// the identity it is taken from, or is given away by someone other than
    /// the caller.
    NotOwnedToken,
    /// The token to mint already exists.
    AlreadyMinted,
}

} // verus!
