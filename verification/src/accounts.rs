//! The account that each trader's settlement fills belong to.
use vstd::prelude::*;

use crate::model::Text;

verus! {

/// A map from trader identifiers to account identifiers.
#[derive(Debug)]
pub struct AccountIds {
    entries: Vec<(String, String)>,
}

impl View for AccountIds {
    type V = Map<Text, Text>;

    closed spec fn view(&self) -> Map<Text, Text> {
        entry_map(self.entries@)
    }
}

/// The map that a list of entries stands for: a later entry replaces an earlier one.
spec fn entry_map(entries: Seq<(String, String)>) -> Map<Text, Text>
    decreases entries.len(),
{
    if entries.len() == 0 {
        Map::empty()
    } else {
        entry_map(entries.drop_last()).insert(entries.last().0@, entries.last().1@)
    }
}

/// No trader has two entries.
spec fn keys_distinct(entries: Seq<(String, String)>) -> bool {
    forall|i: int, j: int|
        0 <= i < j < entries.len() ==> (#[trigger] entries[i]).0@ != (#[trigger] entries[j]).0@
}

/// With distinct keys, an entry of the map is an entry of the list.
proof fn lemma_entry_map(entries: Seq<(String, String)>, i: int)
    requires
        keys_distinct(entries),
        0 <= i < entries.len(),
    ensures
        entry_map(entries).contains_key(entries[i].0@),
        entry_map(entries)[entries[i].0@] == entries[i].1@,
    decreases entries.len(),
{
    if i < entries.len() - 1 {
        assert(entries.drop_last()[i] == entries[i]);
        lemma_entry_map(entries.drop_last(), i);
    }
}

/// A key that no entry has is not in the map.
proof fn lemma_absent(entries: Seq<(String, String)>, key: Text)
    requires
        forall|i: int| 0 <= i < entries.len() ==> (#[trigger] entries[i]).0@ != key,
    ensures
        !entry_map(entries).contains_key(key),
    decreases entries.len(),
{
    if entries.len() > 0 {
        assert forall|i: int| 0 <= i < entries.drop_last().len() implies (
        #[trigger] entries.drop_last()[i]).0@ != key by {
            assert(entries.drop_last()[i] == entries[i]);
        }
        lemma_absent(entries.drop_last(), key);
    }
}

/// Replacing the value of an entry updates the map at its key.
proof fn lemma_replace(entries: Seq<(String, String)>, i: int, entry: (String, String))
    requires
        keys_distinct(entries),
        0 <= i < entries.len(),
        entries[i].0@ == entry.0@,
    ensures
        keys_distinct(entries.update(i, entry)),
        entry_map(entries.update(i, entry)) == entry_map(entries).insert(entry.0@, entry.1@),
    decreases entries.len(),
{
    let updated = entries.update(i, entry);
    if i == entries.len() - 1 {
        assert(updated.drop_last() =~= entries.drop_last());
        assert(entry_map(updated) =~= entry_map(entries).insert(entry.0@, entry.1@));
    } else {
        assert(updated.drop_last() =~= entries.drop_last().update(i, entry));
        lemma_replace(entries.drop_last(), i, entry);
        assert(entries[i].0@ != entries.last().0@);
        assert(entry_map(updated) =~= entry_map(entries).insert(entry.0@, entry.1@));
    }
}

impl AccountIds {
    #[verifier::type_invariant]
    spec fn wf(self) -> bool {
        keys_distinct(self.entries@)
    }

    /// No accounts.
    pub fn new() -> (accounts: AccountIds)
        ensures
            accounts@ == Map::<Text, Text>::empty(),
    {
        AccountIds { entries: Vec::new() }
    }

    /// The account of `trader_id`.
    pub fn get(&self, trader_id: &String) -> (account_id: Option<&String>)
        ensures
            account_id is Some <==> self@.contains_key(trader_id@),
            account_id is Some ==> account_id->0@ == self@[trader_id@],
    {
        proof {
            use_type_invariant(self);
        }
        let mut i: usize = 0;
        while i < self.entries.len()
            invariant
                i <= self.entries@.len(),
                keys_distinct(self.entries@),
                forall|k: int| 0 <= k < i ==> (#[trigger] self.entries@[k]).0@ != trader_id@,
            decreases self.entries@.len() - i,
        {
            if self.entries[i].0 == *trader_id {
                proof {
                    lemma_entry_map(self.entries@, i as int);
                }
                return Some(&self.entries[i].1);
            }
            i += 1;
        }
        proof {
            lemma_absent(self.entries@, trader_id@);
        }
        None
    }

    /// Records the account of `trader_id`, in place of any that was recorded before.
    pub fn insert(&mut self, trader_id: String, account_id: String)
        ensures
            final(self)@ == old(self)@.insert(trader_id@, account_id@),
    {
        proof {
            use_type_invariant(&*self);
        }
        let mut entries: Vec<(String, String)> = Vec::new();
        std::mem::swap(&mut entries, &mut self.entries);
        let ghost before = entries@;
        let mut i: usize = 0;
        while i < entries.len() && !(entries[i].0 == trader_id)
            invariant
                i <= entries@.len(),
                entries@ == before,
                forall|k: int| 0 <= k < i ==> (#[trigger] before[k]).0@ != trader_id@,
            decreases entries@.len() - i,
        {
            i += 1;
        }
        let ghost entry = (trader_id, account_id);
        if i < entries.len() {
            entries.set(i, (trader_id, account_id));
            proof {
                lemma_replace(before, i as int, entry);
            }
        } else {
            entries.push((trader_id, account_id));
            assert(entries@.drop_last() =~= before);
        }
        self.entries = entries;
    }
}

} // verus!
