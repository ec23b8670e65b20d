//! Commitments to many messages at once. Each message has a sort key, and its
//! digest stands in the slot that the key falls into under the commitment's
//! modulus. The other slots hold fillers derived from one random value.

use crate::commit_verify::CommitError;
use crate::commit_verify::CommitVerify;
use crate::lnpbps::digest::entropy_digest;
use crate::lnpbps::digest::filler;
use crate::lnpbps::digest::hash_entropy;
use crate::lnpbps::digest::hash_filler;
use crate::lnpbps::digest::same_digest;
use crate::lnpbps::modulus::covered;
use crate::lnpbps::modulus::entries;
use crate::lnpbps::modulus::exhausted;
use crate::lnpbps::modulus::is_modulus;
use crate::lnpbps::modulus::key_at;
use crate::lnpbps::modulus::search;
use std::collections::BTreeMap;
use vstd::prelude::*;

verus! {

/// A 256-bit digest, as the hash primitive puts it out.
pub type Lnpbp4Hash = [u8; 32];

/// The messages to commit to: each sort key with the digest of its message.
pub type MultiMsg = BTreeMap<u64, Lnpbp4Hash>;

/// A commitment to a set of messages.
#[derive(Clone, Debug, PartialEq, Eq, PartialOrd, Ord)]
pub struct MultimsgCommitment {
    /// The slots in order, a digest in each.
    pub data: Vec<Lnpbp4Hash>,
    /// The value that the fillers are derived from.
    pub entropy: u64,
}

/// What a commitment holds: the bytes of each slot, and the entropy.
pub struct Commitment {
    pub slots: Seq<Seq<u8>>,
    pub entropy: u64,
}

/// The bytes of each digest of a list.
pub open spec fn bytes_of(data: Seq<Lnpbp4Hash>) -> Seq<Seq<u8>> {
    Seq::new(data.len(), |i: int| data[i]@)
}

impl View for MultimsgCommitment {
    type V = Commitment;

    open spec fn view(&self) -> Commitment {
        Commitment { slots: bytes_of(self.data@), entropy: self.entropy }
    }
}

/// What slot `index` of a commitment to the messages holds: the digest of the
/// message whose sort key falls into the slot, and the filler where none does.
pub open spec fn slot(msgs: Map<u64, Lnpbp4Hash>, modulus: int, entropy: u64, index: int) -> Seq<
    u8,
> {
    if covered(msgs, modulus, index) {
        msgs[key_at(msgs, modulus, index)]@
    } else {
        filler(index as u64, entropy)
    }
}

/// The slots of a commitment to the messages, from slot 0 on.
pub open spec fn slots(msgs: Map<u64, Lnpbp4Hash>, modulus: int, entropy: u64) -> Seq<Seq<u8>> {
    Seq::new(modulus as nat, |i: int| slot(msgs, modulus, entropy, i))
}

/// `commitment` is the commitment to the messages that is made with
/// `entropy`: it has as many slots as the modulus of the messages says, each
/// slot holds what `slot` says, and it records the entropy.
pub open spec fn is_commitment(
    commitment: Commitment,
    msgs: Map<u64, Lnpbp4Hash>,
    entropy: u64,
) -> bool {
    &&& commitment.entropy == entropy
    &&& is_modulus(msgs, commitment.slots.len() as int)
    &&& commitment.slots == slots(msgs, commitment.slots.len() as int, entropy)
}

/// `commitment` is a commitment to the messages: the one that is made with
/// the entropy that it records.
pub open spec fn commits(commitment: Commitment, msgs: Map<u64, Lnpbp4Hash>) -> bool {
    is_commitment(commitment, msgs, commitment.entropy)
}

/// Turns a working mapping into the slots of a commitment: the digest where a
/// place holds one, the filler of that slot where it holds none.
pub fn fill(working: &Vec<Option<Lnpbp4Hash>>, entropy: u64) -> (data: Vec<Lnpbp4Hash>)
    ensures
        data@.len() == working@.len(),
        forall|i: int|
            0 <= i < data@.len() ==> (#[trigger] data@[i])@ == match working@[i] {
                Some(digest) => digest@,
                None => filler(i as u64, entropy),
            },
{
    let seed = hash_entropy(entropy);
    let mut data: Vec<Lnpbp4Hash> = Vec::new();
    let mut i: usize = 0;
    while i < working.len()
        invariant
            i <= working@.len(),
            data@.len() == i,
            seed@ == entropy_digest(entropy),
            forall|j: int|
                0 <= j < i ==> (#[trigger] data@[j])@ == match working@[j] {
                    Some(digest) => digest@,
                    None => filler(j as u64, entropy),
                },
        decreases working@.len() - i,
    {
        let digest = match working[i] {
            Some(digest) => digest,
            None => hash_filler(i as u64, &seed),
        };
        data.push(digest);
        i += 1;
    }
    data
}

/// Whether two lists of digests hold the same bytes, slot by slot.
pub fn same_data(a: &Vec<Lnpbp4Hash>, b: &Vec<Lnpbp4Hash>) -> (same: bool)
    ensures
        same == (bytes_of(a@) == bytes_of(b@)),
{
    if a.len() != b.len() {
        assert(bytes_of(a@).len() != bytes_of(b@).len());
        return false;
    }
    let mut i: usize = 0;
    while i < a.len()
        invariant
            i <= a@.len(),
            a@.len() == b@.len(),
            forall|j: int| 0 <= j < i ==> a@[j]@ == b@[j]@,
        decreases a@.len() - i,
    {
        if !same_digest(&a[i], &b[i]) {
            assert(bytes_of(a@)[i as int] != bytes_of(b@)[i as int]);
            return false;
        }
        i += 1;
    }
    assert(bytes_of(a@) =~= bytes_of(b@));
    true
}

/// Calls `rand::thread_rng` and draws one `u64` from that generator with
/// `rand::Rng::gen`. The value is random: the contract says nothing of it.
#[verifier::external_body]
fn fresh_entropy() -> (entropy: u64) {
    let mut rng = rand::thread_rng();
    rand::Rng::gen::<u64>(&mut rng)
}

impl MultimsgCommitment {
    /// Commits to the messages with the entropy given. Fails where the
    /// search for a modulus is exhausted, and only there.
    pub fn commit_with_entropy(multimsg: &MultiMsg, entropy: u64) -> (made: Result<
        MultimsgCommitment,
        CommitError,
    >)
        ensures
            made is Err <==> exhausted(multimsg@),
            made matches Ok(commitment) ==> is_commitment(commitment@, multimsg@, entropy),
            made matches Err(error) ==> error == CommitError::ResourceExhausted,
    {
        let list = entries(multimsg);
        let working = match search(&list, Ghost(multimsg@)) {
            Some(working) => working,
            None => {
                return Err(CommitError::ResourceExhausted);
            },
        };
        let data = fill(&working, entropy);
        let commitment = MultimsgCommitment { data, entropy };
        assert(commitment@.slots =~= slots(multimsg@, working@.len() as int, entropy));
        Ok(commitment)
    }
}

impl CommitVerify<MultiMsg> for MultimsgCommitment {
    open spec fn commits_to(&self, source: &MultiMsg) -> bool {
        commits(self@, source@)
    }

    open spec fn exhausts(source: &MultiMsg) -> bool {
        exhausted(source@)
    }

    /// Commits to the messages with entropy drawn for this one commitment.
    fn commit(source: &MultiMsg) -> (made: Result<Self, CommitError>) {
        let entropy = fresh_entropy();
        MultimsgCommitment::commit_with_entropy(source, entropy)
    }

    /// Makes the commitment to the messages anew, with the entropy that this
    /// one records, and says whether the two agree in every slot.
    fn verify(&self, source: &MultiMsg) -> (valid: bool) {
        match MultimsgCommitment::commit_with_entropy(source, self.entropy) {
            Ok(made) => same_data(&made.data, &self.data),
            Err(_) => false,
        }
    }
}

} // verus!
