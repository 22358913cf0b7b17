//! Event hashes, receipts and the append-only hash chain.
use vstd::prelude::*;
use crate::digest::{sha256, sha256_digest};
use crate::error::AletheiaError;
use crate::event::{event_bytes, Event};
use crate::merkle::zero_hash;

verus! {

/// The SHA-256 of an event's canonical JSON.
pub open spec fn event_hash(e: Event) -> Seq<u8> {
    sha256(event_bytes(e))
}

/// Compute the SHA-256 hash of an event's canonical JSON serialization.
/// Always succeeds.
pub fn compute_event_hash(event: &Event) -> (res: Result<[u8; 32], AletheiaError>)
    ensures
        res matches Ok(h) && h@ == event_hash(*event),
{
    let bytes = event.canonical_json();
    Ok(sha256_digest(bytes.as_slice()))
}

/// A single entry in a hash chain: an event and its cryptographic linkage.
#[derive(Debug, Clone, PartialEq)]
pub struct Receipt {
    pub event: Event,
    pub hash: [u8; 32],
    pub prev_hash: [u8; 32],
    pub sequence: u64,
    pub signature: Option<[u8; 64]>,
}

/// Whether two events hold the same values (the payload compared by value).
pub open spec fn same_event(a: Event, b: Event) -> bool {
    &&& a.id == b.id
    &&& a.timestamp == b.timestamp
    &&& a.kind == b.kind
    &&& a.source == b.source
    &&& a.context == b.context
    &&& a.payload@ == b.payload@
}

/// Whether two receipts hold the same values.
pub open spec fn same_receipt(a: Receipt, b: Receipt) -> bool {
    &&& same_event(a.event, b.event)
    &&& a.hash == b.hash
    &&& a.prev_hash == b.prev_hash
    &&& a.sequence == b.sequence
    &&& a.signature == b.signature
}

/// Events that hold the same values have the same canonical JSON, hence the
/// same hash.
pub proof fn same_event_same_hash(a: Event, b: Event)
    requires
        same_event(a, b),
    ensures
        event_bytes(a) == event_bytes(b),
        event_hash(a) == event_hash(b),
{
    reveal(event_bytes);
}

/// The head of a list of receipts: the last receipt's hash, or 32 zero bytes
/// when there is none (the genesis head).
pub open spec fn head_of(receipts: Seq<Receipt>) -> Seq<u8> {
    if receipts.len() == 0 {
        zero_hash()
    } else {
        receipts.last().hash@
    }
}

/// The linkage every hash chain keeps: receipt `i` has sequence number `i`,
/// records the hash of its own event, and links to the previous receipt's
/// hash (the first one to 32 zero bytes); no receipt carries a signature.
pub open spec fn linked(receipts: Seq<Receipt>) -> bool {
    &&& forall|i: int| 0 <= i < receipts.len() ==> (#[trigger] receipts[i]).sequence == i
    &&& forall|i: int|
        0 <= i < receipts.len() ==> (#[trigger] receipts[i]).hash@ == event_hash(receipts[i].event)
    &&& forall|i: int|
        0 <= i < receipts.len() ==> (#[trigger] receipts[i]).prev_hash@ == head_of(
            receipts.take(i),
        )
    &&& forall|i: int| 0 <= i < receipts.len() ==> (#[trigger] receipts[i]).signature is None
}

/// In a linked list of receipts the first receipt links to 32 zero bytes and
/// every later receipt links to the hash of the receipt just before it.
pub proof fn linked_receipts_link_back(receipts: Seq<Receipt>, i: int)
    requires
        linked(receipts),
        0 <= i < receipts.len(),
    ensures
        i == 0 ==> receipts[i].prev_hash@ == zero_hash(),
        i > 0 ==> receipts[i].prev_hash@ == receipts[i - 1].hash@,
        receipts[i].sequence == i,
        receipts[i].hash@ == event_hash(receipts[i].event),
{
    assert(receipts[i].prev_hash@ == head_of(receipts.take(i)));
    if i > 0 {
        assert(receipts.take(i).last() == receipts[i - 1]);
    }
}

/// A prefix of linked receipts is linked.
pub proof fn lemma_linked_drop_last(receipts: Seq<Receipt>)
    requires
        linked(receipts),
        receipts.len() > 0,
    ensures
        linked(receipts.drop_last()),
{
    let p = receipts.drop_last();
    assert forall|i: int| 0 <= i < p.len() implies (#[trigger] p[i]).prev_hash@ == head_of(p.take(i)) by {
        assert(p.take(i) =~= receipts.take(i));
        assert(p[i] == receipts[i]);
    }
}

/// Linked receipts are determined by their events: two linked lists of
/// receipts that hold the same events in the same order are equal.
pub proof fn linked_receipts_determined_by_events(a: Seq<Receipt>, b: Seq<Receipt>)
    requires
        linked(a),
        linked(b),
        a.len() == b.len(),
        forall|i: int| 0 <= i < a.len() ==> (#[trigger] a[i]).event == b[i].event,
    ensures
        a == b,
    decreases a.len(),
{
    if a.len() > 0 {
        let n = a.len() - 1;
        lemma_linked_drop_last(a);
        lemma_linked_drop_last(b);
        assert forall|i: int| 0 <= i < a.drop_last().len() implies (#[trigger] a.drop_last()[i]).event
            == b.drop_last()[i].event by {
            assert(a.drop_last()[i] == a[i]);
            assert(b.drop_last()[i] == b[i]);
        }
        linked_receipts_determined_by_events(a.drop_last(), b.drop_last());
        assert(a.take(n) =~= a.drop_last());
        assert(b.take(n) =~= b.drop_last());
        assert(a[n].hash =~= b[n].hash);
        assert(a[n].prev_hash =~= b[n].prev_hash);
        assert(a =~= b) by {
            assert forall|i: int| 0 <= i < a.len() implies a[i] == b[i] by {
                if i < n {
                    assert(a.drop_last()[i] == a[i]);
                    assert(b.drop_last()[i] == b[i]);
                }
            }
        }
    } else {
        assert(a =~= b);
    }
}

/// Appending a receipt that carries the next sequence number, its event's
/// hash, the current head as `prev_hash` and no signature keeps a list of
/// receipts linked, and makes that receipt's hash the head.
pub proof fn lemma_linked_push(receipts: Seq<Receipt>, r: Receipt)
    requires
        linked(receipts),
        r.sequence == receipts.len(),
        r.hash@ == event_hash(r.event),
        r.prev_hash@ == head_of(receipts),
        r.signature is None,
    ensures
        linked(receipts.push(r)),
        head_of(receipts.push(r)) == r.hash@,
{
    let all = receipts.push(r);
    assert forall|i: int| 0 <= i < all.len() implies (#[trigger] all[i]).prev_hash@ == head_of(
        all.take(i),
    ) by {
        if i < receipts.len() {
            assert(all.take(i) =~= receipts.take(i));
        } else {
            assert(all.take(i) =~= receipts);
        }
    }
}

impl Default for HashChain {
    /// An empty chain, as `HashChain::new` makes it.
    fn default() -> (res: HashChain)
        ensures
            res.receipts_seq().len() == 0,
            linked(res.receipts_seq()),
    {
        HashChain::new()
    }
}

/// An append-only hash chain of event receipts.
#[derive(Debug)]
pub struct HashChain {
    receipts: Vec<Receipt>,
    head: [u8; 32],
}

impl HashChain {
    #[verifier::type_invariant]
    spec fn well_formed(self) -> bool {
        &&& linked(self.receipts@)
        &&& self.head@ == head_of(self.receipts@)
    }

    /// The receipts appended so far, in order.
    pub closed spec fn receipts_seq(self) -> Seq<Receipt> {
        self.receipts@
    }

    /// Create an empty chain. The genesis head is `[0u8; 32]`.
    pub fn new() -> (res: HashChain)
        ensures
            res.receipts_seq().len() == 0,
            linked(res.receipts_seq()),
    {
        let head = [0u8; 32];
        assert(head@ =~= zero_hash());
        HashChain { receipts: Vec::new(), head }
    }

    /// Append an event, returning a copy of the new receipt: sequence number
    /// equal to the previous length, `prev_hash` equal to the previous head,
    /// `hash` the event's hash, no signature. The new receipt becomes the
    /// head.
    pub fn append(&mut self, event: Event) -> (res: Result<Receipt, AletheiaError>)
        ensures
            final(self).receipts_seq().len() == old(self).receipts_seq().len() + 1,
            final(self).receipts_seq().drop_last() == old(self).receipts_seq(),
            final(self).receipts_seq().last().event == event,
            final(self).receipts_seq().last().sequence == old(self).receipts_seq().len(),
            final(self).receipts_seq().last().prev_hash@ == head_of(old(self).receipts_seq()),
            final(self).receipts_seq().last().hash@ == event_hash(event),
            final(self).receipts_seq().last().signature is None,
            res matches Ok(r) && same_receipt(r, final(self).receipts_seq().last()),
            linked(final(self).receipts_seq()),
    {
        proof {
            use_type_invariant(&*self);
        }
        let sequence = self.receipts.len() as u64;
        let hash = match compute_event_hash(&event) {
            Ok(h) => h,
            Err(e) => return Err(e),
        };
        let prev_hash = self.head;
        let copy = Receipt {
            event: event.duplicate(),
            hash,
            prev_hash,
            sequence,
            signature: None,
        };
        let receipt = Receipt { event, hash, prev_hash, sequence, signature: None };
        let ghost before = self.receipts@;
        let mut previous = HashChain::new();
        std::mem::swap(&mut previous, self);
        let mut receipts = previous.receipts;
        proof {
            lemma_linked_push(before, receipt);
        }
        receipts.push(receipt);
        assert(receipts@.drop_last() =~= before);
        *self = HashChain { receipts, head: hash };
        Ok(copy)
    }

    /// The current chain head: the hash of the last receipt, or `[0u8; 32]`
    /// for an empty chain.
    pub fn head(&self) -> (res: [u8; 32])
        ensures
            res@ == head_of(self.receipts_seq()),
    {
        proof {
            use_type_invariant(self);
        }
        self.head
    }

    /// The number of receipts in the chain.
    pub fn len(&self) -> (res: usize)
        ensures
            res == self.receipts_seq().len(),
    {
        self.receipts.len()
    }

    /// Whether no receipt has been appended.
    pub fn is_empty(&self) -> (res: bool)
        ensures
            res == (self.receipts_seq().len() == 0),
    {
        self.receipts.len() == 0
    }

    /// The receipts, in order; they are linked.
    pub fn receipts(&self) -> (res: &[Receipt])
        ensures
            res@ == self.receipts_seq(),
            linked(res@),
    {
        proof {
            use_type_invariant(self);
        }
        self.receipts.as_slice()
    }

    /// Consume the chain and return its receipts, in order; they are linked.
    pub fn into_receipts(self) -> (res: Vec<Receipt>)
        ensures
            res@ == self.receipts_seq(),
            linked(res@),
    {
        proof {
            use_type_invariant(&self);
        }
        self.receipts
    }
}

} // verus!
