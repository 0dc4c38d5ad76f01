//! What the registry reports after a change, for whoever runs it to pass on.

use vstd::prelude::*;
use crate::account::AccountId;

verus! {

/// A token came into being.
#[derive(Clone, Copy, Debug, PartialEq, Eq)]
pub struct Mint {
    /// The first owner of the token.
    pub receiver: AccountId,
    pub token_id: u32,
}

/// A token changed hands.
#[derive(Clone, Copy, Debug, PartialEq, Eq)]
pub struct Transfer {
    /// Who gave the token away.
    pub from: AccountId,
    /// Who owns it now.
    pub to: AccountId,
    pub token_id: u32,
}

} // verus!
