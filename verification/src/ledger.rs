//! The registry as mathematics: who is admin, who owns which token, and the
//! count recorded for each identity. Every contract of the registry is
//! stated over this model, and the laws that the registry obeys are proved
//! here.

use vstd::prelude::*;
use vstd::set_lib::lemma_len_subset;
use crate::account::AccountId;
use crate::error::Error;
use crate::rules;

verus! {

/// The state of a registry.
///
/// `counts` tells an identity that was never recorded (no entry) from one
/// that holds nothing any more (entry `0`).
#[verifier::ext_equal]
pub struct Ledger {
    /// The one identity that may mint.
    pub admin: AccountId,
    /// The owner of each token that exists.
    pub owners: Map<u32, AccountId>,
    /// The count recorded for each identity that ever received a token.
    pub counts: Map<AccountId, nat>,
}

impl Ledger {
    /// A registry in which nothing was minted yet.
    pub open spec fn new(admin: AccountId) -> Ledger {
        Ledger { admin, owners: Map::empty(), counts: Map::empty() }
    }

    pub open spec fn is_minted(self, token_id: u32) -> bool {
        self.owners.contains_key(token_id)
    }

    /// The owner of `token_id`, if the token exists.
    pub open spec fn owner_of(self, token_id: u32) -> Option<AccountId> {
        if self.owners.contains_key(token_id) {
            Some(self.owners[token_id])
        } else {
            None
        }
    }

    pub open spec fn is_owner_of(self, token_id: u32, account: AccountId) -> bool {
        self.owner_of(token_id) == Some(account)
    }

    /// The tokens that `account` owns.
    pub open spec fn tokens_of(self, account: AccountId) -> Set<u32> {
        Set::new(|token_id: u32| self.is_owner_of(token_id, account))
    }

    pub open spec fn is_recorded(self, account: AccountId) -> bool {
        self.counts.contains_key(account)
    }

    /// The count of `account`; an identity without an entry holds nothing.
    pub open spec fn count_of(self, account: AccountId) -> nat {
        if self.counts.contains_key(account) {
            self.counts[account]
        } else {
            0
        }
    }

    /// The counts are right: each identity's count is the number of tokens
    /// that it owns.
    pub open spec fn well_formed(self) -> bool {
        &&& self.owners.dom().finite()
        &&& forall|account: AccountId| #[trigger]
            self.count_of(account) == self.tokens_of(account).len()
    }

    /// The error with which a mint asked for by `caller` is refused, if it is.
    pub open spec fn mint_refusal(self, caller: AccountId, token_id: u32) -> Option<Error> {
        rules::mint_refusal(self.admin, caller, self.owner_of(token_id))
    }

    /// The registry after `token_id` was minted for `receiver`.
    pub open spec fn mint(self, receiver: AccountId, token_id: u32) -> Ledger {
        Ledger {
            admin: self.admin,
            owners: self.owners.insert(token_id, receiver),
            counts: self.counts.insert(receiver, self.count_of(receiver) + 1),
        }
    }

    /// The error with which a transfer of `token_id` away from `from`, asked
    /// for by `caller`, is refused, if it is.
    pub open spec fn transfer_refusal(
        self,
        caller: AccountId,
        from: AccountId,
        token_id: u32,
    ) -> Option<Error> {
        rules::transfer_refusal(caller, from, self.owner_of(token_id))
    }

    /// The counts after one token was taken from `from`.
    pub open spec fn debit(self, from: AccountId) -> Map<AccountId, nat> {
        self.counts.insert(from, (self.count_of(from) - 1) as nat)
    }

    /// The registry after `token_id` went from `from` to `to`: first `from`
    /// loses one, then `to` gains one.
    pub open spec fn transfer(self, from: AccountId, to: AccountId, token_id: u32) -> Ledger {
        let debited = Ledger { admin: self.admin, owners: self.owners, counts: self.debit(from) };
        Ledger {
            admin: self.admin,
            owners: self.owners.insert(token_id, to),
            counts: debited.counts.insert(to, debited.count_of(to) + 1),
        }
    }

    /// The tokens of an identity are finitely many, and among those that exist.
    pub proof fn lemma_tokens_of_finite(self, account: AccountId)
        requires
            self.owners.dom().finite(),
        ensures
            self.tokens_of(account).finite(),
            self.tokens_of(account).len() <= self.owners.dom().len(),
    {
        lemma_len_subset(self.tokens_of(account), self.owners.dom());
    }

    /// A fresh registry has its counts right.
    pub proof fn lemma_new_well_formed(admin: AccountId)
        ensures
            Ledger::new(admin).well_formed(),
    {
        let fresh = Ledger::new(admin);
        assert forall|account: AccountId| #[trigger]
            fresh.count_of(account) == fresh.tokens_of(account).len() by {
            assert(fresh.tokens_of(account) =~= Set::<u32>::empty());
        }
    }

    /// A token has at most one owner.
    pub proof fn lemma_one_owner(self, token_id: u32, first: AccountId, second: AccountId)
        requires
            self.is_owner_of(token_id, first),
            self.is_owner_of(token_id, second),
        ensures
            first == second,
    {
    }

    /// Whoever owns a token has a count of at least one.
    pub proof fn lemma_owner_holds_a_token(self, token_id: u32, account: AccountId)
        requires
            self.well_formed(),
            self.is_owner_of(token_id, account),
        ensures
            self.count_of(account) >= 1,
    {
        let held = self.tokens_of(account);
        self.lemma_tokens_of_finite(account);
        assert(held.contains(token_id));
        assert(held.len() == held.remove(token_id).len() + 1);
    }

    /// Minting a token that does not exist yet keeps the counts right.
    pub proof fn lemma_mint_well_formed(self, receiver: AccountId, token_id: u32)
        requires
            self.well_formed(),
            !self.is_minted(token_id),
        ensures
            self.mint(receiver, token_id).well_formed(),
    {
        let after = self.mint(receiver, token_id);
        assert forall|account: AccountId| #[trigger]
            after.count_of(account) == after.tokens_of(account).len() by {
            self.lemma_tokens_of_finite(account);
            assert(self.count_of(account) == self.tokens_of(account).len());
            if account == receiver {
                assert(after.tokens_of(account) =~= self.tokens_of(account).insert(token_id));
            } else {
                assert(after.tokens_of(account) =~= self.tokens_of(account));
            }
        }
    }

    /// A transfer by the token's owner keeps the counts right, also where
    /// the owner transfers to itself.
    pub proof fn lemma_transfer_well_formed(self, from: AccountId, to: AccountId, token_id: u32)
        requires
            self.well_formed(),
            self.is_owner_of(token_id, from),
        ensures
            self.transfer(from, to, token_id).well_formed(),
    {
        let after = self.transfer(from, to, token_id);
        self.lemma_owner_holds_a_token(token_id, from);
        assert forall|account: AccountId| #[trigger]
            after.count_of(account) == after.tokens_of(account).len() by {
            self.lemma_tokens_of_finite(account);
            assert(self.count_of(account) == self.tokens_of(account).len());
            if from == to {
                assert(after.tokens_of(account) =~= self.tokens_of(account));
            } else if account == from {
                assert(after.tokens_of(account) =~= self.tokens_of(account).remove(token_id));
            } else if account == to {
                assert(after.tokens_of(account) =~= self.tokens_of(account).insert(token_id));
            } else {
                assert(after.tokens_of(account) =~= self.tokens_of(account));
            }
        }
    }

    /// What a transfer between two different identities does: the token
    /// belongs to `to`, `from` holds one less, `to` holds one more, and no
    /// other token or count changes.
    pub proof fn lemma_transfer_effect(self, from: AccountId, to: AccountId, token_id: u32)
        requires
            self.well_formed(),
            self.is_owner_of(token_id, from),
            from != to,
        ensures
            ({
                let after = self.transfer(from, to, token_id);
                &&& after.is_owner_of(token_id, to)
                &&& after.count_of(from) == self.count_of(from) - 1
                &&& after.count_of(to) == self.count_of(to) + 1
                &&& after.owners.remove(token_id) == self.owners.remove(token_id)
                &&& forall|other: AccountId|
                    other != from && other != to ==> #[trigger] after.count_of(other)
                        == self.count_of(other)
            }),
    {
        self.lemma_owner_holds_a_token(token_id, from);
        assert(self.transfer(from, to, token_id).owners.remove(token_id) =~= self.owners.remove(
            token_id,
        ));
    }

    /// A transfer from an identity to itself changes neither owners nor
    /// what the counts say.
    pub proof fn lemma_transfer_to_self(self, account: AccountId, token_id: u32)
        requires
            self.well_formed(),
            self.is_owner_of(token_id, account),
        ensures
            self.transfer(account, account, token_id).owners == self.owners,
            forall|other: AccountId| #[trigger]
                self.transfer(account, account, token_id).count_of(other) == self.count_of(other),
    {
        self.lemma_owner_holds_a_token(token_id, account);
        assert(self.transfer(account, account, token_id).owners =~= self.owners);
    }

    /// A token that exists goes on existing, whatever is minted or
    /// transferred, and the admin stays the admin.
    pub proof fn lemma_tokens_and_admin_stay(
        self,
        from: AccountId,
        to: AccountId,
        token_id: u32,
        other: u32,
    )
        requires
            self.is_minted(other),
        ensures
            self.mint(to, token_id).is_minted(other),
            self.transfer(from, to, token_id).is_minted(other),
            self.mint(to, token_id).admin == self.admin,
            self.transfer(from, to, token_id).admin == self.admin,
    {
    }
}

} // verus!
