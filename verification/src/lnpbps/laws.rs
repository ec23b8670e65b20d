//! What holds of every commitment to a set of messages.

use crate::lnpbps::digest::filler;
use crate::lnpbps::lnpbp4::commits;
use crate::lnpbps::lnpbp4::is_commitment;
use crate::lnpbps::lnpbp4::slot;
use crate::lnpbps::lnpbp4::slots;
use crate::lnpbps::lnpbp4::Commitment;
use crate::lnpbps::lnpbp4::Lnpbp4Hash;
use crate::lnpbps::modulus::collision_free;
use crate::lnpbps::modulus::covered;
use crate::lnpbps::modulus::exhausted;
use crate::lnpbps::modulus::first_modulus;
use crate::lnpbps::modulus::is_modulus;
use crate::lnpbps::modulus::key_at;
use crate::lnpbps::modulus::slot_of;
use crate::lnpbps::modulus::SORT_LIMIT;
use vstd::prelude::*;
use vstd::relations::injective_on;
use vstd::set_lib::lemma_int_range;
use vstd::set_lib::lemma_len_subset;
use vstd::set_lib::lemma_map_size;
use vstd::set_lib::set_int_range;

verus! {

/// The messages have at most one modulus.
pub proof fn lemma_modulus_unique(msgs: Map<u64, Lnpbp4Hash>, first: int, second: int)
    requires
        is_modulus(msgs, first),
        is_modulus(msgs, second),
    ensures
        first == second,
{
}

/// The messages have a modulus unless the search is exhausted.
pub proof fn lemma_modulus_exists(msgs: Map<u64, Lnpbp4Hash>)
    requires
        !exhausted(msgs),
    ensures
        exists|modulus: int| is_modulus(msgs, modulus),
{
    let some = choose|j: int| first_modulus(msgs) <= j <= SORT_LIMIT && collision_free(msgs, j);
    lemma_least_from(msgs, first_modulus(msgs), some);
}

/// If no modulus from `first_modulus` up to `from` is free of collisions and
/// `free` is, at or after `from`, then there is a modulus.
proof fn lemma_least_from(msgs: Map<u64, Lnpbp4Hash>, from: int, free: int)
    requires
        first_modulus(msgs) <= from <= free <= SORT_LIMIT,
        collision_free(msgs, free),
        forall|j: int| first_modulus(msgs) <= j < from ==> !collision_free(msgs, j),
    ensures
        exists|modulus: int| is_modulus(msgs, modulus),
    decreases free - from,
{
    if collision_free(msgs, from) {
        assert(is_modulus(msgs, from));
    } else {
        lemma_least_from(msgs, from + 1, free);
    }
}

/// Two commitments to the same messages that are made with the same entropy
/// are equal: they have the same slots and record the same entropy.
pub proof fn lemma_commitment_determined(
    msgs: Map<u64, Lnpbp4Hash>,
    entropy: u64,
    first: Commitment,
    second: Commitment,
)
    requires
        is_commitment(first, msgs, entropy),
        is_commitment(second, msgs, entropy),
    ensures
        first == second,
{
    lemma_modulus_unique(msgs, first.slots.len() as int, second.slots.len() as int);
}

/// Every message is found again in a commitment to the messages: its digest
/// stands in the slot that its sort key falls into.
pub proof fn lemma_recoverable(commitment: Commitment, msgs: Map<u64, Lnpbp4Hash>, key: u64)
    requires
        commits(commitment, msgs),
        msgs.contains_key(key),
    ensures
        0 <= slot_of(key, commitment.slots.len() as int) < commitment.slots.len(),
        commitment.slots[slot_of(key, commitment.slots.len() as int)] == msgs[key]@,
{
    let modulus = commitment.slots.len() as int;
    let index = slot_of(key, modulus);
    let found = key_at(msgs, modulus, index);
    assert(msgs.contains_key(found) && slot_of(found, modulus) == index);
    assert(found == key);
    assert(commitment.slots[index] == slot(msgs, modulus, commitment.entropy, index));
}

/// Every slot of a commitment that no message's sort key falls into holds
/// the filler of that slot: the hash of the slot's index followed by the
/// digest of the entropy.
pub proof fn lemma_filler(commitment: Commitment, msgs: Map<u64, Lnpbp4Hash>, index: int)
    requires
        commits(commitment, msgs),
        0 <= index < commitment.slots.len(),
        !covered(msgs, commitment.slots.len() as int, index),
    ensures
        commitment.slots[index] == filler(index as u64, commitment.entropy),
{
    let modulus = commitment.slots.len() as int;
    assert(commitment.slots[index] == slot(msgs, modulus, commitment.entropy, index));
}

/// No two messages share a slot of a commitment to them.
pub proof fn lemma_injective(
    commitment: Commitment,
    msgs: Map<u64, Lnpbp4Hash>,
    first: u64,
    second: u64,
)
    requires
        commits(commitment, msgs),
        msgs.contains_key(first),
        msgs.contains_key(second),
        first != second,
    ensures
        slot_of(first, commitment.slots.len() as int) != slot_of(
            second,
            commitment.slots.len() as int,
        ),
{
}

/// A commitment has at least one slot, at least as many slots as there are
/// messages, and no more than `SORT_LIMIT`.
pub proof fn lemma_width(commitment: Commitment, msgs: Map<u64, Lnpbp4Hash>)
    requires
        commits(commitment, msgs),
    ensures
        1 <= commitment.slots.len() <= SORT_LIMIT,
        msgs.len() <= commitment.slots.len(),
{
}

/// The commitment that is made to the messages with some entropy is a
/// commitment to them: checking it against them succeeds.
pub proof fn lemma_commitment_verifies(
    commitment: Commitment,
    msgs: Map<u64, Lnpbp4Hash>,
    entropy: u64,
)
    requires
        is_commitment(commitment, msgs, entropy),
    ensures
        commits(commitment, msgs),
{
}

/// A commitment with one slot changed is no commitment to the messages any
/// more.
pub proof fn lemma_changed_slot_fails(
    commitment: Commitment,
    msgs: Map<u64, Lnpbp4Hash>,
    index: int,
    bytes: Seq<u8>,
)
    requires
        commits(commitment, msgs),
        0 <= index < commitment.slots.len(),
        bytes != commitment.slots[index],
    ensures
        !commits(
            Commitment {
                slots: commitment.slots.update(index, bytes),
                entropy: commitment.entropy,
            },
            msgs,
        ),
{
    let modulus = commitment.slots.len() as int;
    let changed = commitment.slots.update(index, bytes);
    assert(commitment.slots[index] == slots(msgs, modulus, commitment.entropy)[index]);
    assert(changed[index] == bytes);
}

/// A commitment with another entropy in place of its own is no commitment
/// to the messages any more, if it has a slot that no message's sort key
/// falls into and whose filler is another under the other entropy.
pub proof fn lemma_changed_entropy_fails(
    commitment: Commitment,
    msgs: Map<u64, Lnpbp4Hash>,
    entropy: u64,
    index: int,
)
    requires
        commits(commitment, msgs),
        0 <= index < commitment.slots.len(),
        !covered(msgs, commitment.slots.len() as int, index),
        filler(index as u64, entropy) != filler(index as u64, commitment.entropy),
    ensures
        !commits(Commitment { slots: commitment.slots, entropy }, msgs),
{
    let modulus = commitment.slots.len() as int;
    assert(commitment.slots[index] == slot(msgs, modulus, commitment.entropy, index));
    assert(slots(msgs, modulus, entropy)[index] == slot(msgs, modulus, entropy, index));
}

/// A commitment in which every slot holds a message is a commitment to the
/// messages whatever entropy it records.
pub proof fn lemma_full_commitment_any_entropy(
    commitment: Commitment,
    msgs: Map<u64, Lnpbp4Hash>,
    entropy: u64,
)
    requires
        commits(commitment, msgs),
        forall|index: int|
            0 <= index < commitment.slots.len() ==> covered(
                msgs,
                commitment.slots.len() as int,
                index,
            ),
    ensures
        commits(Commitment { slots: commitment.slots, entropy }, msgs),
{
    let modulus = commitment.slots.len() as int;
    assert(commitment.slots =~= slots(msgs, modulus, entropy));
}

/// With no message the search is not exhausted, and the commitments are
/// those of one slot that holds the filler of slot 0.
pub proof fn lemma_empty(commitment: Commitment)
    ensures
        !exhausted(Map::<u64, Lnpbp4Hash>::empty()),
        commits(commitment, Map::<u64, Lnpbp4Hash>::empty()) <==> commitment.slots == seq![
            filler(0, commitment.entropy),
        ],
{
    let msgs = Map::<u64, Lnpbp4Hash>::empty();
    assert(msgs.len() == 0);
    assert(collision_free(msgs, 1));
    assert(is_modulus(msgs, 1));
    assert(!covered(msgs, 1, 0));
    assert(slots(msgs, 1, commitment.entropy) =~= seq![filler(0, commitment.entropy)]);
    if commits(commitment, msgs) {
        lemma_modulus_unique(msgs, commitment.slots.len() as int, 1);
    }
    if commitment.slots == seq![filler(0, commitment.entropy)] {
        assert(commitment.slots.len() == 1);
    }
}

/// Under a modulus smaller than the number of messages two sort keys share a
/// slot: there are fewer slots than messages.
pub proof fn lemma_too_narrow(msgs: Map<u64, Lnpbp4Hash>, modulus: int)
    requires
        msgs.dom().finite(),
        0 < modulus < msgs.len(),
    ensures
        !collision_free(msgs, modulus),
{
    if collision_free(msgs, modulus) {
        let slot_under = |key: u64| slot_of(key, modulus);
        let taken = msgs.dom().map(slot_under);
        assert(injective_on(slot_under, msgs.dom())) by {
            assert forall|k1: u64, k2: u64|
                msgs.dom().contains(k1) && msgs.dom().contains(k2) && #[trigger] slot_under(k1)
                    == #[trigger] slot_under(k2) implies k1 == k2 by {
                assert(msgs.contains_key(k1) && msgs.contains_key(k2));
            }
        }
        lemma_map_size(msgs.dom(), taken, slot_under);
        lemma_int_range(0, modulus);
        assert(taken.subset_of(set_int_range(0, modulus))) by {
            assert forall|index: int| taken.contains(index) implies set_int_range(
                0,
                modulus,
            ).contains(index) by {
                let key = choose|key: u64| msgs.dom().contains(key) && slot_under(key) == index;
                assert(0 <= slot_of(key, modulus) < modulus);
            }
        }
        lemma_len_subset(taken, set_int_range(0, modulus));
    }
}

/// The modulus of the messages is the least of all under which no two sort
/// keys share a slot, from 1 on.
pub proof fn lemma_modulus_least(msgs: Map<u64, Lnpbp4Hash>, modulus: int, smaller: int)
    requires
        msgs.dom().finite(),
        is_modulus(msgs, modulus),
        0 < smaller < modulus,
    ensures
        !collision_free(msgs, smaller),
{
    if smaller < first_modulus(msgs) {
        lemma_too_narrow(msgs, smaller);
    }
}

/// Where the search is exhausted, two sort keys share a slot under every
/// modulus from 1 up to `SORT_LIMIT`.
pub proof fn lemma_exhausted_everywhere(msgs: Map<u64, Lnpbp4Hash>, modulus: int)
    requires
        msgs.dom().finite(),
        exhausted(msgs),
        0 < modulus <= SORT_LIMIT,
    ensures
        !collision_free(msgs, modulus),
{
    if modulus < first_modulus(msgs) {
        lemma_too_narrow(msgs, modulus);
    }
}

/// With more messages than `SORT_LIMIT` the search is exhausted.
pub proof fn lemma_too_many(msgs: Map<u64, Lnpbp4Hash>)
    requires
        msgs.len() > SORT_LIMIT,
    ensures
        exhausted(msgs),
{
}

} // verus!
