//! The rules of mint and transfer, on the few values that they read.
//!
//! A store of tokens and counts asks these functions what to do: it hands
//! over what it holds about the token and the identities involved, and gets
//! back either the refusal or the values to write and the event to report.

use vstd::prelude::*;
use crate::account::AccountId;
use crate::error::Error;
use crate::event::{Mint, Transfer};

verus! {

/// A count as it was read: an identity without an entry holds nothing.
pub open spec fn held(count: Option<u32>) -> nat {
    match count {
        Some(n) => n as nat,
        None => 0,
    }
}

/// What an accepted mint writes and reports.
#[derive(Clone, Copy, Debug, PartialEq, Eq)]
pub struct MintPlan {
    /// The count to record for the receiver.
    pub receiver_count: u32,
    pub event: Mint,
}

/// What an accepted transfer writes and reports. The count of `from` is
/// written first, the count of `to` after it, so that a transfer from an
/// identity to itself ends with the count it began with.
#[derive(Clone, Copy, Debug, PartialEq, Eq)]
pub struct TransferPlan {
    /// The count to record for the giver.
    pub from_count: u32,
    /// The count to record for the new owner.
    pub to_count: u32,
    pub event: Transfer,
}

/// The error with which a mint is refused, if it is: only the admin mints,
/// and only tokens that do not exist.
pub open spec fn mint_refusal(
    admin: AccountId,
    caller: AccountId,
    current_owner: Option<AccountId>,
) -> Option<Error> {
    if caller != admin {
        Some(Error::NotOwner)
    } else if current_owner is Some {
        Some(Error::AlreadyMinted)
    } else {
        None
    }
}

/// The error with which a transfer is refused, if it is: the token must
/// belong to `from`, and `from` must be the caller.
pub open spec fn transfer_refusal(
    caller: AccountId,
    from: AccountId,
    current_owner: Option<AccountId>,
) -> Option<Error> {
    if current_owner != Some(from) || caller != from {
        Some(Error::NotOwnedToken)
    } else {
        None
    }
}

/// The count that an accepted transfer records for `to`: one more than `to`
/// holds once `from` has given the token away. An identity that transfers
/// to itself gets back the one that it gave.
pub open spec fn credited(
    from: AccountId,
    to: AccountId,
    from_count: Option<u32>,
    to_count: Option<u32>,
) -> nat {
    if from == to {
        held(from_count)
    } else {
        held(to_count) + 1
    }
}

/// The count that an accepted mint records for the receiver, where it fits.
pub open spec fn mint_plan(
    receiver: AccountId,
    token_id: u32,
    receiver_count: Option<u32>,
) -> Option<MintPlan> {
    if held(receiver_count) < u32::MAX {
        Some(
            MintPlan {
                receiver_count: (held(receiver_count) + 1) as u32,
                event: Mint { receiver, token_id },
            },
        )
    } else {
        None
    }
}

/// The counts that an accepted transfer records, where `from` has a token
/// to give and the count of `to` fits.
pub open spec fn transfer_plan(
    from: AccountId,
    to: AccountId,
    token_id: u32,
    from_count: Option<u32>,
    to_count: Option<u32>,
) -> Option<TransferPlan> {
    if held(from_count) >= 1 && credited(from, to, from_count, to_count) <= u32::MAX {
        Some(
            TransferPlan {
                from_count: (held(from_count) - 1) as u32,
                to_count: credited(from, to, from_count, to_count) as u32,
                event: Transfer { from, to, token_id },
            },
        )
    } else {
        None
    }
}

/// Decides a mint of `token_id` for `receiver`, asked for by `caller`.
///
/// `current_owner` is the owner of `token_id`, if it exists, and
/// `receiver_count` the count recorded for `receiver`, if any. A refused
/// mint is an `Err`. An accepted mint is `Ok` with the plan to carry out,
/// or with `None` where the receiver already holds as many tokens as a
/// count can say.
pub fn plan_mint(
    admin: AccountId,
    caller: AccountId,
    receiver: AccountId,
    token_id: u32,
    current_owner: Option<AccountId>,
    receiver_count: Option<u32>,
) -> (plan: Result<Option<MintPlan>, Error>)
    ensures
        plan == match mint_refusal(admin, caller, current_owner) {
            Some(error) => Err::<Option<MintPlan>, Error>(error),
            None => Ok::<Option<MintPlan>, Error>(mint_plan(receiver, token_id, receiver_count)),
        },
{
    if caller != admin {
        return Err(Error::NotOwner);
    }
    if current_owner.is_some() {
        return Err(Error::AlreadyMinted);
    }
    let receiver_count: u32 = match receiver_count {
        Some(n) => {
            if n == u32::MAX {
                return Ok(None);
            }
            n + 1
        },
        None => 1,
    };
    Ok(Some(MintPlan { receiver_count, event: Mint { receiver, token_id } }))
}

/// Decides a transfer of `token_id` from `from` to `to`, asked for by
/// `caller`.
///
/// `current_owner` is the owner of `token_id`, if it exists; `from_count`
/// and `to_count` are the counts recorded for the two identities, if any.
/// A refused transfer is an `Err`. An accepted transfer is `Ok` with the
/// plan to carry out, or with `None` where the counts do not allow it:
/// `from` is not recorded with a token to give, or `to` already holds as
/// many tokens as a count can say.
pub fn plan_transfer(
    caller: AccountId,
    from: AccountId,
    to: AccountId,
    token_id: u32,
    current_owner: Option<AccountId>,
    from_count: Option<u32>,
    to_count: Option<u32>,
) -> (plan: Result<Option<TransferPlan>, Error>)
    ensures
        plan == match transfer_refusal(caller, from, current_owner) {
            Some(error) => Err::<Option<TransferPlan>, Error>(error),
            None => Ok::<Option<TransferPlan>, Error>(
                transfer_plan(from, to, token_id, from_count, to_count),
            ),
        },
{
    let owned_by_from = match current_owner {
        Some(owner) => owner == from,
        None => false,
    };
    if !owned_by_from {
        return Err(Error::NotOwnedToken);
    }
    if caller != from {
        return Err(Error::NotOwnedToken);
    }
    let from_count: u32 = match from_count {
        Some(n) => {
            if n == 0 {
                return Ok(None);
            }
            n - 1
        },
        None => {
            return Ok(None);
        },
    };
    let to_count: u32 = if from == to {
        from_count + 1
    } else {
        match to_count {
            Some(n) => {
                if n == u32::MAX {
                    return Ok(None);
                }
                n + 1
            },
            None => 1,
        }
    };
    Ok(Some(TransferPlan { from_count, to_count, event: Transfer { from, to, token_id } }))
}

} // verus!
