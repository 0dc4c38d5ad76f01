//! The registry itself: the state that it owns and the operations on it.

use vstd::prelude::*;
use std::collections::HashMap;
use crate::account::AccountId;
use crate::error::Error;
use crate::event::{Mint, Transfer};
use crate::ledger::Ledger;
use crate::owner_tokens::OwnerTokens;
use crate::rules::{held, plan_mint, plan_transfer};

verus! {

/// A registry of tokens. Its counts are right at all times: the count of
/// an identity is the number of tokens that it owns.
pub struct InkSc {
    /// The admin: the identity that created the registry.
    owner: AccountId,
    id_to_owner: HashMap<u32, AccountId>,
    owner_tokens: OwnerTokens,
}

/// The state that the three parts of a registry stand for.
spec fn ledger_of(
    owner: AccountId,
    id_to_owner: Map<u32, AccountId>,
    owner_tokens: Map<AccountId, u32>,
) -> Ledger {
    Ledger {
        admin: owner,
        owners: id_to_owner,
        counts: owner_tokens.map_values(|count: u32| count as nat),
    }
}

/// Recording a count in the table records it in the state.
proof fn lemma_count_recorded(
    owner: AccountId,
    id_to_owner: Map<u32, AccountId>,
    owner_tokens: Map<AccountId, u32>,
    account: AccountId,
    count: u32,
)
    ensures
        ledger_of(owner, id_to_owner, owner_tokens.insert(account, count)).counts == ledger_of(
            owner,
            id_to_owner,
            owner_tokens,
        ).counts.insert(account, count as nat),
{
    assert(ledger_of(owner, id_to_owner, owner_tokens.insert(account, count)).counts =~= ledger_of(
        owner,
        id_to_owner,
        owner_tokens,
    ).counts.insert(account, count as nat));
}

/// The owner of `token_id` in `id_to_owner`, if the token exists.
fn look_up(id_to_owner: &HashMap<u32, AccountId>, token_id: u32) -> (owner: Option<AccountId>)
    ensures
        owner == (if id_to_owner@.contains_key(token_id) {
            Some(id_to_owner@[token_id])
        } else {
            None
        }),
{
    match id_to_owner.get(&token_id) {
        Some(owner) => Some(*owner),
        None => None,
    }
}

impl View for InkSc {
    type V = Ledger;

    closed spec fn view(&self) -> Ledger {
        ledger_of(self.owner, self.id_to_owner@, self.owner_tokens@)
    }
}

impl InkSc {
    #[verifier::type_invariant]
    spec fn counts_are_right(self) -> bool {
        self@.well_formed()
    }

    /// Creates the registry. Its creator, `caller`, becomes the admin for
    /// good; no token exists yet and no identity is recorded.
    pub fn default(caller: AccountId) -> (registry: InkSc)
        ensures
            registry@ == Ledger::new(caller),
            registry@.well_formed(),
    {
        let id_to_owner: HashMap<u32, AccountId> = HashMap::new();
        let owner_tokens = OwnerTokens::new();
        proof {
            Ledger::lemma_new_well_formed(caller);
            assert(ledger_of(caller, id_to_owner@, owner_tokens@) =~= Ledger::new(caller));
        }
        InkSc { owner: caller, id_to_owner, owner_tokens }
    }

    /// The admin.
    pub fn owner(&self) -> (admin: AccountId)
        ensures
            admin == self@.admin,
    {
        self.owner
    }

    /// The owner of `token_id`, or `None` for a token that was never minted.
    pub fn owner_of(&self, token_id: u32) -> (owner: Option<AccountId>)
        ensures
            owner == self@.owner_of(token_id),
    {
        look_up(&self.id_to_owner, token_id)
    }

    /// The count recorded for `account`, or `None` for an identity that
    /// never received a token. `Some(0)` is an identity that gave away all
    /// it had.
    pub fn recorded_count(&self, account: &AccountId) -> (count: Option<u32>)
        ensures
            match count {
                Some(n) => self@.is_recorded(*account) && n == self@.count_of(*account),
                None => !self@.is_recorded(*account),
            },
            held(count) == self@.tokens_of(*account).len(),
    {
        proof {
            use_type_invariant(self);
            assert(self@.count_of(*account) == self@.tokens_of(*account).len());
        }
        self.owner_tokens.get(account)
    }

    /// Whether `token_id` exists and belongs to `account`.
    pub fn is_owner_of(&self, token_id: u32, account: &AccountId) -> (owns: bool)
        ensures
            owns == self@.is_owner_of(token_id, *account),
    {
        match self.owner_of(token_id) {
            Some(owner) => owner == *account,
            None => false,
        }
    }

    /// The owner of a token that exists.
    pub fn get_owner_of_token(&self, token_id: u32) -> (owner: AccountId)
        requires
            self@.is_minted(token_id),
        ensures
            owner == self@.owners[token_id],
    {
        self.owner_of(token_id).unwrap()
    }

    /// The number of tokens that a recorded identity owns.
    pub fn count_of_owner(&self, account: AccountId) -> (count: u32)
        requires
            self@.is_recorded(account),
        ensures
            count == self@.count_of(account),
            count == self@.tokens_of(account).len(),
    {
        proof {
            use_type_invariant(self);
        }
        self.owner_tokens.get(&account).unwrap()
    }

    /// Asking again gives the same answer: whatever `get_owner_of_token`
    /// and `count_of_owner` may return for a registry, they return every
    /// time they are asked about it.
    pub proof fn lemma_reads_repeat(
        self,
        token_id: u32,
        account: AccountId,
        first_owner: AccountId,
        second_owner: AccountId,
        first_count: u32,
        second_count: u32,
    )
        requires
            call_ensures(InkSc::get_owner_of_token, (&self, token_id), first_owner),
            call_ensures(InkSc::get_owner_of_token, (&self, token_id), second_owner),
            call_ensures(InkSc::count_of_owner, (&self, account), first_count),
            call_ensures(InkSc::count_of_owner, (&self, account), second_count),
        ensures
            first_owner == second_owner,
            first_count == second_count,
    {
    }

    /// Mints `token_id` for `receiver`, if `caller` is the admin and the
    /// token does not exist yet, and returns the event to report. A refused
    /// mint changes nothing.
    ///
    /// The receiver's new count has to fit its type.
    pub fn mint(&mut self, caller: AccountId, receiver: AccountId, token_id: u32) -> (minted:
        Result<Mint, Error>)
        requires
            old(self)@.mint_refusal(caller, token_id) is None ==> old(self)@.count_of(receiver)
                < u32::MAX,
        ensures
            match old(self)@.mint_refusal(caller, token_id) {
                Some(error) => minted == Err::<Mint, Error>(error) && final(self)@ == old(self)@,
                None => minted == Ok::<Mint, Error>((Mint { receiver, token_id })) && final(self)@
                    == old(self)@.mint(receiver, token_id),
            },
            final(self)@.well_formed(),
    {
        proof {
            use_type_invariant(&*self);
        }
        let current_owner = look_up(&self.id_to_owner, token_id);
        let receiver_count = self.owner_tokens.get(&receiver);
        match plan_mint(self.owner, caller, receiver, token_id, current_owner, receiver_count) {
            Err(error) => Err(error),
            Ok(plan) => {
                let plan = plan.unwrap();
                let ghost before = self@;
                // The two writes belong together: they are made on the parts
                // of the registry, taken out of it, and the registry is put
                // together again once both are done.
                let mut taken = InkSc::default(self.owner);
                core::mem::swap(self, &mut taken);
                let InkSc { owner, mut id_to_owner, mut owner_tokens } = taken;
                let ghost table_before = owner_tokens@;
                id_to_owner.insert(token_id, receiver);
                owner_tokens.insert(receiver, plan.receiver_count);
                proof {
                    before.lemma_mint_well_formed(receiver, token_id);
                    lemma_count_recorded(
                        owner,
                        id_to_owner@,
                        table_before,
                        receiver,
                        plan.receiver_count,
                    );
                }
                *self = InkSc { owner, id_to_owner, owner_tokens };
                Ok(plan.event)
            },
        }
    }

    /// Gives `token_id` from `from` to `to`, if the token belongs to `from`
    /// and `from` is the caller, and returns the event to report. A refused
    /// transfer changes nothing.
    ///
    /// The new count of `to` has to fit its type.
    pub fn transfer(
        &mut self,
        caller: AccountId,
        from: AccountId,
        to: AccountId,
        token_id: u32,
    ) -> (moved: Result<Transfer, Error>)
        requires
            old(self)@.transfer_refusal(caller, from, token_id) is None && from != to ==> old(
                self,
            )@.count_of(to) < u32::MAX,
        ensures
            match old(self)@.transfer_refusal(caller, from, token_id) {
                Some(error) => moved == Err::<Transfer, Error>(error) && final(self)@ == old(
                    self,
                )@,
                None => moved == Ok::<Transfer, Error>((Transfer { from, to, token_id }))
                    && final(self)@ == old(self)@.transfer(from, to, token_id),
            },
            final(self)@.well_formed(),
    {
        proof {
            use_type_invariant(&*self);
        }
        let current_owner = look_up(&self.id_to_owner, token_id);
        let from_count = self.owner_tokens.get(&from);
        let to_count = self.owner_tokens.get(&to);
        proof {
            if self@.is_owner_of(token_id, from) {
                self@.lemma_owner_holds_a_token(token_id, from);
            }
        }
        match plan_transfer(caller, from, to, token_id, current_owner, from_count, to_count) {
            Err(error) => Err(error),
            Ok(plan) => {
                let plan = plan.unwrap();
                let ghost before = self@;
                // As in `mint`: the writes are made on the parts, taken out.
                let mut taken = InkSc::default(self.owner);
                core::mem::swap(self, &mut taken);
                let InkSc { owner, mut id_to_owner, mut owner_tokens } = taken;
                let ghost table_before = owner_tokens@;
                id_to_owner.insert(token_id, to);
                owner_tokens.insert(from, plan.from_count);
                owner_tokens.insert(to, plan.to_count);
                proof {
                    before.lemma_transfer_well_formed(from, to, token_id);
                    lemma_count_recorded(
                        owner,
                        id_to_owner@,
                        table_before,
                        from,
                        plan.from_count,
                    );
                    lemma_count_recorded(
                        owner,
                        id_to_owner@,
                        table_before.insert(from, plan.from_count),
                        to,
                        plan.to_count,
                    );
                }
                *self = InkSc { owner, id_to_owner, owner_tokens };
                Ok(plan.event)
            },
        }
    }
}

} // verus!
