//! The registry itself: an owned list of entries, one per token id.

use vstd::prelude::*;
use crate::model::{
    after_writes, distinct_tokens, lemma_distinct_write_is_entry,
    lemma_replaced_write_is_insert, lemma_unwritten_token_is_absent, owner_of, NO_OWNER_FOUND,
};

verus! {

/// A registry of token owners.
///
/// It stands for a map from token ids to owner ids (its view). Each token id
/// with an owner is held exactly once, so a later write for the same token
/// replaces the earlier one and leaves nothing of it behind. Writes and
/// lookups walk the list of entries.
pub struct NftOwners {
    entries: Vec<(String, String)>,
}

impl View for NftOwners {
    type V = Map<Seq<char>, Seq<char>>;

    closed spec fn view(&self) -> Map<Seq<char>, Seq<char>> {
        after_writes(self.entries.deep_view())
    }
}

impl Default for NftOwners {
    /// The empty registry: no token has an owner.
    fn default() -> (registry: Self)
        ensures
            registry@ == Map::<Seq<char>, Seq<char>>::empty(),
    {
        NftOwners { entries: Vec::new() }
    }
}

impl NftOwners {
    #[verifier::type_invariant]
    spec fn one_entry_per_token(self) -> bool {
        distinct_tokens(self.entries.deep_view())
    }

    /// Records `account_id` as the owner of `token_id`, in place of any owner
    /// recorded for that token before. Every other token keeps its entry.
    pub fn set_owner(&mut self, token_id: String, account_id: String)
        ensures
            final(self)@ == old(self)@.insert(token_id@, account_id@),
    {
        proof {
            use_type_invariant(&*self);
        }
        let found = self.position(&token_id);
        let mut entries: Vec<(String, String)> = Vec::new();
        std::mem::swap(&mut entries, &mut self.entries);
        let ghost before = entries.deep_view();
        match found {
            Some(i) => {
                proof {
                    lemma_replaced_write_is_insert(before, i as int, account_id@);
                }
                entries.set(i, (token_id, account_id));
                assert(entries.deep_view() == before.update(i as int, (token_id@, account_id@)));
            },
            None => {
                entries.push((token_id, account_id));
                assert(entries.deep_view() == before.push((token_id@, account_id@)));
                assert(entries.deep_view().drop_last() == before);
            },
        }
        self.entries = entries;
    }

    /// Returns the owner recorded for `token_id`, or the marker text
    /// `"No owner found"` when the token has no entry.
    pub fn get_owner(&self, token_id: String) -> (owner: String)
        ensures
            owner@ == owner_of(self@, token_id@),
    {
        proof {
            use_type_invariant(self);
        }
        match self.position(&token_id) {
            Some(i) => {
                proof {
                    lemma_distinct_write_is_entry(self.entries.deep_view(), i as int);
                }
                self.entries[i].1.clone()
            },
            None => {
                proof {
                    lemma_unwritten_token_is_absent(self.entries.deep_view(), token_id@);
                }
                NO_OWNER_FOUND.to_string()
            },
        }
    }

    /// Builds the registry that the writes in `entries` leave behind when they
    /// are applied in order to an empty registry.
    pub fn from_entries(entries: &[(String, String)]) -> (registry: Self)
        ensures
            registry@ == after_writes(entries.deep_view()),
    {
        let mut registry = NftOwners::default();
        let mut i: usize = 0;
        while i < entries.len()
            invariant
                i <= entries.len(),
                registry@ == after_writes(entries.deep_view().take(i as int)),
            decreases entries.len() - i,
        {
            let token_id = entries[i].0.clone();
            let account_id = entries[i].1.clone();
            registry.set_owner(token_id, account_id);
            proof {
                let written = entries.deep_view().take(i + 1);
                assert(written.drop_last() == entries.deep_view().take(i as int));
            }
            i += 1;
        }
        assert(entries.deep_view().take(i as int) == entries.deep_view());
        registry
    }

    /// Hands out the entries of the registry: each token id that has an owner
    /// once, with that owner. Written in this order to an empty registry, they
    /// give this registry again.
    pub fn into_entries(self) -> (entries: Vec<(String, String)>)
        ensures
            distinct_tokens(entries.deep_view()),
            after_writes(entries.deep_view()) == self@,
    {
        proof {
            use_type_invariant(&self);
        }
        self.entries
    }

    /// The place of the entry for `token_id`, if there is one.
    fn position(&self, token_id: &String) -> (found: Option<usize>)
        ensures
            match found {
                Some(i) => i < self.entries.len() && self.entries.deep_view()[i as int].0
                    == token_id@,
                None => forall|j: int|
                    0 <= j < self.entries.len() ==> (#[trigger] self.entries.deep_view()[j]).0
                        != token_id@,
            },
    {
        let mut i: usize = 0;
        while i < self.entries.len()
            invariant
                i <= self.entries.len(),
                forall|j: int|
                    0 <= j < i ==> (#[trigger] self.entries.deep_view()[j]).0 != token_id@,
            decreases self.entries.len() - i,
        {
            if self.entries[i].0 == *token_id {
                return Some(i);
            }
            i += 1;
        }
        None
    }
}

} // verus!
