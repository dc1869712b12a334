//! What holds of every registry, stated over the map it stands for.
//!
//! `set_owner` turns a registry that stands for `owners` into one that
//! stands for `owners.insert(token_id, owner_id)`, and `get_owner` answers
//! `owner_of(owners, token_id)`. A registry that began empty and has seen the
//! writes `writes` stands for `after_writes(writes)`.

use vstd::prelude::*;
use crate::model::{
    after_writes, distinct_tokens, lemma_distinct_write_is_entry, lemma_unwritten_token_is_absent,
    no_owner_found, owner_of,
};

verus! {

/// A lookup of a token answers with the owner that was just written for it.
pub proof fn lemma_lookup_after_write(
    owners: Map<Seq<char>, Seq<char>>,
    token_id: Seq<char>,
    owner_id: Seq<char>,
)
    ensures
        owner_of(owners.insert(token_id, owner_id), token_id) == owner_id,
{
}

/// In an empty registry no token has an owner.
pub proof fn lemma_empty_has_no_owner(token_id: Seq<char>)
    ensures
        owner_of(Map::empty(), token_id) == no_owner_found(),
{
}

/// A registry that began empty and has seen one more write stands for the map
/// it stood for before with that write inserted.
pub proof fn lemma_after_one_more_write(
    writes: Seq<(Seq<char>, Seq<char>)>,
    token_id: Seq<char>,
    owner_id: Seq<char>,
)
    ensures
        after_writes(Seq::empty()) == Map::<Seq<char>, Seq<char>>::empty(),
        after_writes(writes.push((token_id, owner_id))) == after_writes(writes).insert(
            token_id,
            owner_id,
        ),
{
    assert(writes.push((token_id, owner_id)).drop_last() == writes);
}

/// A token that was never written has no owner: whatever writes a registry
/// has seen since it was empty, if none of them names `token_id`, a lookup of
/// it answers with the marker text.
pub proof fn lemma_never_written_has_no_owner(
    writes: Seq<(Seq<char>, Seq<char>)>,
    token_id: Seq<char>,
)
    requires
        forall|i: int| 0 <= i < writes.len() ==> (#[trigger] writes[i]).0 != token_id,
    ensures
        owner_of(after_writes(writes), token_id) == no_owner_found(),
{
    lemma_unwritten_token_is_absent(writes, token_id);
}

/// Whatever writes a registry has seen since it was empty, the owner of a
/// token is the one that the last write for that token named.
pub proof fn lemma_owner_is_last_written(writes: Seq<(Seq<char>, Seq<char>)>, i: int)
    requires
        0 <= i < writes.len(),
        forall|j: int| i < j < writes.len() ==> (#[trigger] writes[j]).0 != writes[i].0,
    ensures
        owner_of(after_writes(writes), writes[i].0) == writes[i].1,
    decreases writes.len(),
{
    if i < writes.len() - 1 {
        lemma_owner_is_last_written(writes.drop_last(), i);
    }
}

/// Writing the same owner for a token twice is the same as writing it once.
pub proof fn lemma_write_is_idempotent(
    owners: Map<Seq<char>, Seq<char>>,
    token_id: Seq<char>,
    owner_id: Seq<char>,
)
    ensures
        owners.insert(token_id, owner_id).insert(token_id, owner_id) == owners.insert(
            token_id,
            owner_id,
        ),
        owner_of(owners.insert(token_id, owner_id).insert(token_id, owner_id), token_id)
            == owner_id,
{
}

/// The last write for a token wins, and nothing of the earlier one is left:
/// the registry is the one it would be had the earlier write never been made.
pub proof fn lemma_last_write_wins(
    owners: Map<Seq<char>, Seq<char>>,
    token_id: Seq<char>,
    first_owner_id: Seq<char>,
    second_owner_id: Seq<char>,
)
    ensures
        owners.insert(token_id, first_owner_id).insert(token_id, second_owner_id)
            == owners.insert(token_id, second_owner_id),
        owner_of(
            owners.insert(token_id, first_owner_id).insert(token_id, second_owner_id),
            token_id,
        ) == second_owner_id,
{
}

/// A write for one token leaves the answer for every other token as it was.
pub proof fn lemma_write_leaves_other_tokens(
    owners: Map<Seq<char>, Seq<char>>,
    token_id: Seq<char>,
    owner_id: Seq<char>,
    other_token_id: Seq<char>,
)
    requires
        other_token_id != token_id,
    ensures
        owner_of(owners.insert(token_id, owner_id), other_token_id) == owner_of(
            owners,
            other_token_id,
        ),
{
}

/// Where no token is written twice, the writes are exactly the entries they
/// leave behind: each write is an entry, and each entry is one of the writes.
pub proof fn lemma_distinct_writes_are_the_entries(writes: Seq<(Seq<char>, Seq<char>)>)
    requires
        distinct_tokens(writes),
    ensures
        forall|i: int|
            0 <= i < writes.len() ==> after_writes(writes).contains_key((#[trigger] writes[i]).0)
                && after_writes(writes)[writes[i].0] == writes[i].1,
        forall|token_id: Seq<char>| #[trigger]
            after_writes(writes).contains_key(token_id) ==> exists|i: int|
                0 <= i < writes.len() && (#[trigger] writes[i]).0 == token_id,
{
    assert forall|i: int| 0 <= i < writes.len() implies after_writes(writes).contains_key(
        (#[trigger] writes[i]).0,
    ) && after_writes(writes)[writes[i].0] == writes[i].1 by {
        lemma_distinct_write_is_entry(writes, i);
    }
    assert forall|token_id: Seq<char>| #[trigger]
        after_writes(writes).contains_key(token_id) implies exists|i: int|
        0 <= i < writes.len() && (#[trigger] writes[i]).0 == token_id by {
        if forall|i: int| 0 <= i < writes.len() ==> (#[trigger] writes[i]).0 != token_id {
            lemma_unwritten_token_is_absent(writes, token_id);
        }
    }
}

} // verus!
