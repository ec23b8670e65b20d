//! The search for a modulus under which no two sort keys share a slot.

use crate::lnpbps::lnpbp4::Lnpbp4Hash;
use crate::lnpbps::lnpbp4::MultiMsg;
use vstd::prelude::*;
use vstd::std_specs::btree::increasing_seq;
use vstd::std_specs::cmp::OrdSpec;
use vstd::std_specs::iter::IteratorSpec;

verus! {

/// The largest modulus that the search tries.
pub const SORT_LIMIT: u64 = 131072;

/// The slot that a sort key falls into under a modulus.
pub open spec fn slot_of(key: u64, modulus: int) -> int {
    key as int % modulus
}

/// No two sort keys of the messages share a slot under `modulus`.
pub open spec fn collision_free(msgs: Map<u64, Lnpbp4Hash>, modulus: int) -> bool {
    forall|k1: u64, k2: u64|
        #![trigger msgs.contains_key(k1), msgs.contains_key(k2)]
        msgs.contains_key(k1) && msgs.contains_key(k2) && k1 != k2 ==> slot_of(k1, modulus)
            != slot_of(k2, modulus)
}

/// The modulus that the search starts at: the number of messages, and 1 where
/// there is none.
pub open spec fn first_modulus(msgs: Map<u64, Lnpbp4Hash>) -> int {
    if msgs.len() == 0 {
        1
    } else {
        msgs.len() as int
    }
}

/// `modulus` is the one that the search settles on: the least from
/// `first_modulus` on, and no larger than `SORT_LIMIT`, under which no two
/// sort keys share a slot.
pub open spec fn is_modulus(msgs: Map<u64, Lnpbp4Hash>, modulus: int) -> bool {
    &&& first_modulus(msgs) <= modulus <= SORT_LIMIT
    &&& collision_free(msgs, modulus)
    &&& forall|j: int| first_modulus(msgs) <= j < modulus ==> !collision_free(msgs, j)
}

/// The search finds nothing: under every modulus from `first_modulus` up to
/// `SORT_LIMIT` two sort keys share a slot.
pub open spec fn exhausted(msgs: Map<u64, Lnpbp4Hash>) -> bool {
    forall|j: int| first_modulus(msgs) <= j <= SORT_LIMIT ==> !collision_free(msgs, j)
}

/// Some message's sort key falls into slot `index` under `modulus`.
pub open spec fn covered(msgs: Map<u64, Lnpbp4Hash>, modulus: int, index: int) -> bool {
    exists|k: u64| msgs.contains_key(k) && slot_of(k, modulus) == index
}

/// A sort key that falls into slot `index`: where `modulus` is free of
/// collisions and the slot is covered, the only one.
pub open spec fn key_at(msgs: Map<u64, Lnpbp4Hash>, modulus: int, index: int) -> u64 {
    choose|k: u64| msgs.contains_key(k) && slot_of(k, modulus) == index
}

/// `list` holds the entries of `msgs`, each once, in ascending order of the
/// sort keys.
pub open spec fn lists(list: Seq<(u64, Lnpbp4Hash)>, msgs: Map<u64, Lnpbp4Hash>) -> bool {
    &&& list.len() == msgs.len()
    &&& forall|i: int|
        0 <= i < list.len() ==> msgs.contains_key(#[trigger] list[i].0) && msgs[list[i].0]
            == list[i].1
    &&& forall|k: u64|
        msgs.contains_key(k) ==> exists|i: int| 0 <= i < list.len() && #[trigger] list[i].0 == k
    &&& forall|i: int, j: int| 0 <= i < j < list.len() ==> list[i].0 < list[j].0
}

/// The entries of the messages as a list, in ascending order of the sort
/// keys.
pub fn entries(multimsg: &MultiMsg) -> (list: Vec<(u64, Lnpbp4Hash)>)
    ensures
        lists(list@, multimsg@),
{
    let mut list: Vec<(u64, Lnpbp4Hash)> = Vec::new();
    let iter = multimsg.iter();
    let ghost all = iter.remaining();
    proof {
        let keys = all.map_values(|kv: (&u64, &Lnpbp4Hash)| *kv.0);
        assert(increasing_seq(keys));
        assert forall|i: int, j: int| 0 <= i < j < all.len() implies *all[i].0 < *all[j].0 by {
            assert(keys[i].cmp_spec(&keys[j]) is Less);
        }
    }
    for kv in it: iter
        invariant
            it.seq() == all,
            list@.len() == it.index(),
            forall|i: int, j: int| 0 <= i < j < all.len() ==> *all[i].0 < *all[j].0,
            forall|i: int|
                0 <= i < list@.len() ==> list@[i].0 == *all[i].0 && list@[i].1 == *all[i].1,
    {
        list.push((*kv.0, *kv.1));
    }
    proof {
        assert forall|i: int| 0 <= i < list@.len() implies multimsg@.contains_key(
            #[trigger] list@[i].0,
        ) && multimsg@[list@[i].0] == list@[i].1 by {
            assert(multimsg@.contains_key(*all[i].0));
            assert(multimsg@[*all[i].0] == *all[i].1);
        }
        assert forall|k: u64| multimsg@.contains_key(k) implies exists|i: int|
            0 <= i < list@.len() && #[trigger] list@[i].0 == k by {
            assert(all.contains((&k, &multimsg@[k])));
            let i = choose|i: int| 0 <= i < all.len() && all[i] == (&k, &multimsg@[k]);
            assert(list@[i].0 == k);
        }
        assert forall|i: int, j: int| 0 <= i < j < list@.len() implies list@[i].0
            < list@[j].0 by {
            assert(*all[i].0 < *all[j].0);
        }
    }
    list
}

/// `working` is the working mapping of the messages under `modulus`: one
/// place for each slot, which holds the digest of the message whose sort key
/// falls into the slot, and nothing where none does.
pub open spec fn is_working(
    working: Seq<Option<Lnpbp4Hash>>,
    msgs: Map<u64, Lnpbp4Hash>,
    modulus: int,
) -> bool {
    &&& working.len() == modulus
    &&& forall|i: int|
        0 <= i < modulus ==> match #[trigger] working[i] {
            Some(digest) => covered(msgs, modulus, i) && digest == msgs[key_at(msgs, modulus, i)],
            None => !covered(msgs, modulus, i),
        }
}

/// A list of `len` empty places.
fn vacant(len: usize) -> (working: Vec<Option<Lnpbp4Hash>>)
    ensures
        working@.len() == len,
        forall|i: int| 0 <= i < len ==> working@[i] is None,
{
    let mut working: Vec<Option<Lnpbp4Hash>> = Vec::new();
    let mut i: usize = 0;
    while i < len
        invariant
            i <= len,
            working@.len() == i,
            forall|j: int| 0 <= j < i ==> working@[j] is None,
        decreases len - i,
    {
        working.push(None);
        i += 1;
    }
    working
}

/// Puts each digest of the list in the slot of its sort key. Gives the
/// working mapping if no two sort keys share a slot, and nothing if two do.
fn place(
    list: &Vec<(u64, Lnpbp4Hash)>,
    modulus: u64,
    Ghost(msgs): Ghost<Map<u64, Lnpbp4Hash>>,
) -> (placed: Option<Vec<Option<Lnpbp4Hash>>>)
    requires
        lists(list@, msgs),
        0 < modulus <= SORT_LIMIT,
    ensures
        placed is Some <==> collision_free(msgs, modulus as int),
        placed matches Some(working) ==> is_working(working@, msgs, modulus as int),
{
    let mut working = vacant(modulus as usize);
    let ghost mut owner: Seq<int> = Seq::new(modulus as nat, |i: int| 0);
    let mut n: usize = 0;
    while n < list.len()
        invariant
            lists(list@, msgs),
            0 < modulus <= SORT_LIMIT,
            n <= list@.len(),
            working@.len() == modulus,
            owner.len() == modulus,
            forall|i: int|
                0 <= i < modulus ==> (#[trigger] working@[i] matches Some(digest) ==> 0 <= owner[i]
                    < n && slot_of(list@[owner[i]].0, modulus as int) == i && digest
                    == list@[owner[i]].1),
            forall|j: int|
                0 <= j < n ==> working@[slot_of(#[trigger] list@[j].0, modulus as int)] is Some
                    && owner[slot_of(list@[j].0, modulus as int)] == j,
        decreases list@.len() - n,
    {
        let key = list[n].0;
        let slot = (key % modulus) as usize;
        if working[slot].is_some() {
            proof {
                let other = list@[owner[slot as int]].0;
                assert(msgs.contains_key(list@[n as int].0));
                assert(msgs.contains_key(other));
                assert(other != key);
                assert(slot_of(other, modulus as int) == slot_of(key, modulus as int));
            }
            return None;
        }
        working.set(slot, Some(list[n].1));
        proof {
            owner = owner.update(slot as int, n as int);
        }
        n += 1;
    }
    proof {
        assert forall|k1: u64, k2: u64|
            #![trigger msgs.contains_key(k1), msgs.contains_key(k2)]
            msgs.contains_key(k1) && msgs.contains_key(k2) && k1 != k2 implies slot_of(
            k1,
            modulus as int,
        ) != slot_of(k2, modulus as int) by {
            let j1 = choose|i: int| 0 <= i < list@.len() && #[trigger] list@[i].0 == k1;
            let j2 = choose|i: int| 0 <= i < list@.len() && #[trigger] list@[i].0 == k2;
            assert(owner[slot_of(list@[j1].0, modulus as int)] == j1);
            assert(owner[slot_of(list@[j2].0, modulus as int)] == j2);
        }
        assert forall|i: int| 0 <= i < modulus implies match #[trigger] working@[i] {
            Some(digest) => covered(msgs, modulus as int, i) && digest == msgs[key_at(
                msgs,
                modulus as int,
                i,
            )],
            None => !covered(msgs, modulus as int, i),
        } by {
            match working@[i] {
                Some(digest) => {
                    let key = list@[owner[i]].0;
                    assert(msgs.contains_key(key) && slot_of(key, modulus as int) == i);
                    let other = key_at(msgs, modulus as int, i);
                    assert(msgs.contains_key(other) && slot_of(other, modulus as int) == i);
                    assert(other == key);
                },
                None => {
                    if covered(msgs, modulus as int, i) {
                        let k = choose|k: u64|
                            msgs.contains_key(k) && slot_of(k, modulus as int) == i;
                        let j = choose|j: int| 0 <= j < list@.len() && #[trigger] list@[j].0 == k;
                        assert(working@[slot_of(list@[j].0, modulus as int)] is Some);
                    }
                },
            }
        }
    }
    Some(working)
}

/// Tries each modulus from `first_modulus` up to `SORT_LIMIT` in turn and
/// stops at the first under which no two sort keys share a slot. Gives the
/// working mapping under that modulus, whose length is the modulus, and
/// nothing if the search is exhausted.
pub(crate) fn search(
    list: &Vec<(u64, Lnpbp4Hash)>,
    Ghost(msgs): Ghost<Map<u64, Lnpbp4Hash>>,
) -> (found: Option<Vec<Option<Lnpbp4Hash>>>)
    requires
        lists(list@, msgs),
    ensures
        found is None <==> exhausted(msgs),
        found matches Some(working) ==> is_modulus(msgs, working@.len() as int) && is_working(
            working@,
            msgs,
            working@.len() as int,
        ),
{
    let len = list.len();
    if len > SORT_LIMIT as usize {
        return None;
    }
    let mut modulus: u64 = if len == 0 {
        1
    } else {
        len as u64
    };
    while modulus <= SORT_LIMIT
        invariant
            lists(list@, msgs),
            first_modulus(msgs) <= modulus <= SORT_LIMIT + 1,
            forall|j: int| first_modulus(msgs) <= j < modulus ==> !collision_free(msgs, j),
        decreases SORT_LIMIT + 1 - modulus,
    {
        match place(list, modulus, Ghost(msgs)) {
            Some(working) => {
                return Some(working);
            },
            None => {},
        }
        modulus += 1;
    }
    None
}

/// The modulus that a commitment to the messages has: the least from their
/// number on (from 1 where there is none) under which no two sort keys share
/// a slot. Gives nothing if there is none up to `SORT_LIMIT`.
pub fn find_modulus(multimsg: &MultiMsg) -> (found: Option<u64>)
    ensures
        found is None <==> exhausted(multimsg@),
        found matches Some(modulus) ==> is_modulus(multimsg@, modulus as int),
{
    let list = entries(multimsg);
    match search(&list, Ghost(multimsg@)) {
        Some(working) => Some(working.len() as u64),
        None => None,
    }
}

} // verus!
