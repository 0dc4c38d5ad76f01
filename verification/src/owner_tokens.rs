//! The table of counts: for each identity that ever received a token, how
//! many it holds.

use vstd::prelude::*;
use crate::account::AccountId;

verus! {

/// One row of the table.
struct Entry {
    account: AccountId,
    count: u32,
}

/// A map from identities to counts, kept as a list of rows in which no
/// identity occurs twice. An identity without a row was never recorded,
/// which is not the same as a row that says `0`.
pub struct OwnerTokens {
    entries: Vec<Entry>,
}

/// Whether some row of `entries` is about `account`.
spec fn has_row(entries: Seq<Entry>, account: AccountId) -> bool {
    exists|i: int| 0 <= i < entries.len() && #[trigger] entries[i].account == account
}

/// The place of the row about `account`, where there is one.
spec fn row_of(entries: Seq<Entry>, account: AccountId) -> int {
    choose|i: int| 0 <= i < entries.len() && #[trigger] entries[i].account == account
}

/// No identity has two rows.
spec fn one_row_each(entries: Seq<Entry>) -> bool {
    forall|i: int, j: int|
        0 <= i < j < entries.len() ==> #[trigger] entries[i].account != #[trigger] entries[j].account
}

/// The map that a list of rows stands for.
spec fn as_map(entries: Seq<Entry>) -> Map<AccountId, u32> {
    Map::new(
        |account: AccountId| has_row(entries, account),
        |account: AccountId| entries[row_of(entries, account)].count,
    )
}

/// In a list without repeated identities the row at `at` is the row of its
/// identity.
proof fn lemma_row_found(entries: Seq<Entry>, at: int)
    requires
        one_row_each(entries),
        0 <= at < entries.len(),
    ensures
        has_row(entries, entries[at].account),
        row_of(entries, entries[at].account) == at,
        as_map(entries).contains_key(entries[at].account),
        as_map(entries)[entries[at].account] == entries[at].count,
{
    let account = entries[at].account;
    assert(entries[at].account == account);
    let chosen = row_of(entries, account);
    assert(0 <= chosen < entries.len() && entries[chosen].account == account);
    if chosen < at {
        assert(entries[chosen].account != entries[at].account);
    } else if at < chosen {
        assert(entries[at].account != entries[chosen].account);
    }
}

/// An identity that no row is about is not in the map.
proof fn lemma_row_missing(entries: Seq<Entry>, account: AccountId)
    requires
        forall|i: int| 0 <= i < entries.len() ==> entries[i].account != account,
    ensures
        !as_map(entries).contains_key(account),
{
}

/// Writing a new count into a row changes the map at that identity only.
proof fn lemma_row_rewritten(entries: Seq<Entry>, at: int, count: u32)
    requires
        one_row_each(entries),
        0 <= at < entries.len(),
    ensures
        one_row_each(entries.update(at, Entry { account: entries[at].account, count })),
        as_map(entries.update(at, Entry { account: entries[at].account, count })) == as_map(
            entries,
        ).insert(entries[at].account, count),
{
    let account = entries[at].account;
    let after = entries.update(at, Entry { account, count });
    assert forall|i: int, j: int| 0 <= i < j < after.len() implies #[trigger] after[i].account
        != #[trigger] after[j].account by {
        assert(entries[i].account != entries[j].account);
    }
    assert forall|other: AccountId| has_row(after, other) == has_row(entries, other) by {
        if has_row(entries, other) {
            let i = row_of(entries, other);
            assert(after[i].account == other);
        }
        if has_row(after, other) {
            let i = row_of(after, other);
            assert(entries[i].account == other);
        }
    }
    assert forall|other: AccountId| #[trigger] has_row(after, other) implies as_map(after)[other]
        == as_map(entries).insert(account, count)[other] by {
        let i = row_of(after, other);
        lemma_row_found(after, i);
        if other != account {
            lemma_row_found(entries, i);
        } else {
            lemma_row_found(after, at);
        }
    }
    lemma_row_found(entries, at);
    assert(as_map(after) =~= as_map(entries).insert(account, count));
}

/// A new row for an identity that has none adds that identity to the map.
proof fn lemma_row_added(entries: Seq<Entry>, account: AccountId, count: u32)
    requires
        one_row_each(entries),
        forall|i: int| 0 <= i < entries.len() ==> entries[i].account != account,
    ensures
        one_row_each(entries.push(Entry { account, count })),
        as_map(entries.push(Entry { account, count })) == as_map(entries).insert(account, count),
{
    let after = entries.push(Entry { account, count });
    let last = entries.len() as int;
    assert forall|i: int, j: int| 0 <= i < j < after.len() implies #[trigger] after[i].account
        != #[trigger] after[j].account by {
        if j < last {
            assert(entries[i].account != entries[j].account);
        }
    }
    lemma_row_found(after, last);
    assert forall|other: AccountId| other != account implies has_row(after, other) == has_row(
        entries,
        other,
    ) by {
        if has_row(entries, other) {
            let i = row_of(entries, other);
            assert(after[i].account == other);
        }
        if has_row(after, other) {
            let i = row_of(after, other);
            assert(entries[i].account == other);
        }
    }
    assert forall|other: AccountId| other != account && #[trigger] has_row(
        after,
        other,
    ) implies as_map(after)[other] == as_map(entries)[other] by {
        let i = row_of(after, other);
        lemma_row_found(after, i);
        lemma_row_found(entries, i);
    }
    assert(as_map(after) =~= as_map(entries).insert(account, count));
}

/// The place of the row about `account`, if there is one.
fn find(entries: &Vec<Entry>, account: &AccountId) -> (found: Option<usize>)
    ensures
        match found {
            Some(at) => at < entries@.len() && entries@[at as int].account == *account,
            None => forall|i: int| 0 <= i < entries@.len() ==> entries@[i].account != *account,
        },
{
    let mut at: usize = 0;
    while at < entries.len()
        invariant
            at <= entries@.len(),
            forall|i: int| 0 <= i < at ==> entries@[i].account != *account,
        decreases entries@.len() - at,
    {
        if entries[at].account == *account {
            return Some(at);
        }
        at += 1;
    }
    None
}

impl View for OwnerTokens {
    type V = Map<AccountId, u32>;

    closed spec fn view(&self) -> Map<AccountId, u32> {
        as_map(self.entries@)
    }
}

impl OwnerTokens {
    #[verifier::type_invariant]
    spec fn well_formed(self) -> bool {
        one_row_each(self.entries@)
    }

    /// A table without any identity.
    pub fn new() -> (table: OwnerTokens)
        ensures
            table@ == Map::<AccountId, u32>::empty(),
    {
        let table = OwnerTokens { entries: Vec::new() };
        assert(table@ =~= Map::<AccountId, u32>::empty());
        table
    }

    /// The count recorded for `account`, or `None` for an identity that was
    /// never recorded.
    pub fn get(&self, account: &AccountId) -> (count: Option<u32>)
        ensures
            count == (if self@.contains_key(*account) {
                Some(self@[*account])
            } else {
                None
            }),
    {
        proof {
            use_type_invariant(self);
        }
        match find(&self.entries, account) {
            Some(at) => {
                proof {
                    lemma_row_found(self.entries@, at as int);
                }
                Some(self.entries[at].count)
            },
            None => {
                proof {
                    lemma_row_missing(self.entries@, *account);
                }
                None
            },
        }
    }

    /// Records `count` for `account`, in place of what was recorded before.
    pub fn insert(&mut self, account: AccountId, count: u32)
        ensures
            final(self)@ == old(self)@.insert(account, count),
    {
        proof {
            use_type_invariant(&*self);
        }
        let mut entries: Vec<Entry> = Vec::new();
        core::mem::swap(&mut self.entries, &mut entries);
        match find(&entries, &account) {
            Some(at) => {
                proof {
                    lemma_row_rewritten(entries@, at as int, count);
                }
                entries[at] = Entry { account, count };
            },
            None => {
                proof {
                    lemma_row_added(entries@, account, count);
                }
                entries.push(Entry { account, count });
            },
        }
        self.entries = entries;
    }
}

} // verus!
