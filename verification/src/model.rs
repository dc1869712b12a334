//! The mathematical model of the registry: a map from token ids to owner ids,
//! both taken as sequences of characters.

use vstd::prelude::*;

verus! {

/// The text that a lookup answers with when a token has no entry.
pub const NO_OWNER_FOUND: &'static str = "No owner found";

/// The marker text as a sequence of characters.
pub open spec fn no_owner_found() -> Seq<char> {
    NO_OWNER_FOUND@
}

/// What a lookup of `token_id` answers in a registry that stands for `owners`:
/// the recorded owner, or the marker text when nothing is recorded.
pub open spec fn owner_of(owners: Map<Seq<char>, Seq<char>>, token_id: Seq<char>) -> Seq<char> {
    if owners.contains_key(token_id) {
        owners[token_id]
    } else {
        no_owner_found()
    }
}

/// The map that a list of writes leaves behind when they are applied in order
/// to an empty registry: for each token the owner of its last write.
pub open spec fn after_writes(writes: Seq<(Seq<char>, Seq<char>)>) -> Map<Seq<char>, Seq<char>>
    decreases writes.len(),
{
    if writes.len() == 0 {
        Map::empty()
    } else {
        after_writes(writes.drop_last()).insert(writes.last().0, writes.last().1)
    }
}

/// No token id is written twice in `writes`.
pub open spec fn distinct_tokens(writes: Seq<(Seq<char>, Seq<char>)>) -> bool {
    forall|i: int, j: int|
        0 <= i < j < writes.len() ==> (#[trigger] writes[i]).0 != (#[trigger] writes[j]).0
}

/// A token that no write names has no entry afterwards.
pub proof fn lemma_unwritten_token_is_absent(
    writes: Seq<(Seq<char>, Seq<char>)>,
    token_id: Seq<char>,
)
    requires
        forall|i: int| 0 <= i < writes.len() ==> (#[trigger] writes[i]).0 != token_id,
    ensures
        !after_writes(writes).contains_key(token_id),
    decreases writes.len(),
{
    if writes.len() > 0 {
        lemma_unwritten_token_is_absent(writes.drop_last(), token_id);
    }
}

/// Where no token is written twice, every write is an entry afterwards.
pub proof fn lemma_distinct_write_is_entry(writes: Seq<(Seq<char>, Seq<char>)>, i: int)
    requires
        distinct_tokens(writes),
        0 <= i < writes.len(),
    ensures
        after_writes(writes).contains_key(writes[i].0),
        after_writes(writes)[writes[i].0] == writes[i].1,
    decreases writes.len(),
{
    if i < writes.len() - 1 {
        lemma_distinct_write_is_entry(writes.drop_last(), i);
    }
}

/// Where no token is written twice, replacing the write for a token by
/// another write for the same token gives what writing it once more would.
pub proof fn lemma_replaced_write_is_insert(
    writes: Seq<(Seq<char>, Seq<char>)>,
    i: int,
    owner_id: Seq<char>,
)
    requires
        distinct_tokens(writes),
        0 <= i < writes.len(),
    ensures
        distinct_tokens(writes.update(i, (writes[i].0, owner_id))),
        after_writes(writes.update(i, (writes[i].0, owner_id))) == after_writes(writes).insert(
            writes[i].0,
            owner_id,
        ),
    decreases writes.len(),
{
    let replaced = writes.update(i, (writes[i].0, owner_id));
    if i == writes.len() - 1 {
        assert(replaced.drop_last() == writes.drop_last());
    } else {
        assert(replaced.drop_last() == writes.drop_last().update(i, (writes[i].0, owner_id)));
        lemma_replaced_write_is_insert(writes.drop_last(), i, owner_id);
    }
}

} // verus!
