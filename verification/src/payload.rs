//! The payload data model: entries, packs, sets and versioned updates.
//!
//! A payload entry is one atomic unit of routing-security data: a route
//! origin authorization or a BGPsec router-key assertion. Entries are
//! compared by value. A payload set is an immutable, deduplicated
//! collection of entries; a pack is a plain finalized sequence of entries
//! built through a builder.

use vstd::prelude::*;

verus! {

/// An IP prefix: address bits, prefix length, and address family.
///
/// The address is kept left-aligned in 128 bits: an IPv4 address sits in
/// the upper four bytes, right-padded with zero bits, so prefix lengths
/// count from the top for both families.
#[derive(Clone, Copy, PartialEq, Eq, Structural, Debug, Hash)]
pub struct PrefixPat {
    /// Whether this is an IPv4 prefix.
    pub v4: bool,
    /// The address bits, left-aligned.
    pub addr: u128,
    /// The prefix length in bits.
    pub len: u8,
}

/// A BGPsec router key identifier: twenty bytes, split into the upper
/// sixteen and the lower four, kept in big-endian order.
#[derive(Clone, Copy, PartialEq, Eq, Structural, Debug, Hash)]
pub struct KeyId {
    /// The first sixteen bytes of the key identifier.
    pub hi: u128,
    /// The last four bytes of the key identifier.
    pub lo: u32,
}

/// One payload entry.
#[derive(Clone, Copy, PartialEq, Eq, Structural, Debug, Hash)]
pub enum Payload {
    /// A route origin authorization: a prefix with a resolved maximum
    /// length and the authorized origin AS number.
    Origin { prefix: PrefixPat, max_len: u8, asn: u32 },
    /// A BGPsec router key assertion: a key identifier bound to an AS.
    /// The key identifier (the certificate's subject key identifier)
    /// stands for the key itself: the public-key bytes it identifies are
    /// not part of the model, so entries differing only in key material
    /// coincide.
    Key { ski: KeyId, asn: u32 },
}

/// The mask that keeps the first `len` bits of a left-aligned address.
pub open spec fn prefix_mask(len: u8) -> u128 {
    if len == 0 {
        0u128
    } else if len >= 128 {
        u128::MAX
    } else {
        !(u128::MAX >> len)
    }
}

/// Whether prefix `a` covers prefix `b`: same address family, `a` no more
/// specific than `b`, and both agree on the first `a.len` bits.
pub open spec fn spec_covers(a: PrefixPat, b: PrefixPat) -> bool {
    a.v4 == b.v4 && a.len <= b.len && (b.addr & prefix_mask(a.len)) == (a.addr & prefix_mask(
        a.len,
    ))
}

/// Decides whether prefix `a` covers prefix `b`.
pub fn covers(a: PrefixPat, b: PrefixPat) -> (r: bool)
    ensures
        r == spec_covers(a, b),
{
    if a.v4 != b.v4 {
        return false;
    }
    if a.len > b.len {
        return false;
    }
    let mask: u128 = if a.len == 0 {
        0
    } else if a.len >= 128 {
        u128::MAX
    } else {
        !(u128::MAX >> a.len)
    };
    (b.addr & mask) == (a.addr & mask)
}

/// A finalized, immutable sequence of payload entries.
///
/// A pack may hold duplicates; deduplication happens when entries are
/// folded into a `PayloadSet`.
#[derive(Clone, Debug)]
pub struct Pack {
    entries: Vec<Payload>,
}

impl View for Pack {
    type V = Seq<Payload>;

    closed spec fn view(&self) -> Seq<Payload> {
        self.entries@
    }
}

impl Pack {
    /// The finalized pack with no entries.
    pub fn empty() -> (p: Pack)
        ensures
            p@ == Seq::<Payload>::empty(),
    {
        Pack { entries: Vec::new() }
    }

    /// A finalized pack holding the given entries in order.
    pub fn from_entries(entries: Vec<Payload>) -> (p: Pack)
        ensures
            p@ == entries@,
    {
        Pack { entries }
    }

    /// The number of entries in the pack.
    pub fn len(&self) -> (n: usize)
        ensures
            n == self@.len(),
    {
        self.entries.len()
    }

    /// The entry at position `i`.
    pub fn get(&self, i: usize) -> (p: Payload)
        requires
            i < self@.len(),
        ensures
            p == self@[i as int],
    {
        self.entries[i]
    }
}

/// Accumulates payload entries and finalizes them into an immutable
/// [`Pack`]. The finalized pack shares no mutable state with the builder.
#[derive(Debug)]
pub struct PackBuilder {
    entries: Vec<Payload>,
}

impl View for PackBuilder {
    type V = Seq<Payload>;

    closed spec fn view(&self) -> Seq<Payload> {
        self.entries@
    }
}

impl PackBuilder {
    /// A builder with no entries yet.
    pub fn empty() -> (b: PackBuilder)
        ensures
            b@ == Seq::<Payload>::empty(),
    {
        PackBuilder { entries: Vec::new() }
    }

    /// Appends an entry without re-validating protocol-level constraints;
    /// entries inserted this way are trusted local configuration.
    pub fn insert_unchecked(&mut self, p: Payload)
        ensures
            final(self)@ == old(self)@.push(p),
    {
        self.entries.push(p);
    }

    /// Finalizes the accumulated entries into an immutable pack.
    pub fn finalize(self) -> (p: Pack)
        ensures
            p@ == self@,
    {
        Pack { entries: self.entries }
    }
}

/// An immutable, deduplicated collection of payload entries.
#[derive(Debug)]
pub struct PayloadSet {
    entries: Vec<Payload>,
}

impl View for PayloadSet {
    type V = Seq<Payload>;

    closed spec fn view(&self) -> Seq<Payload> {
        self.entries@
    }
}

impl PayloadSet {
    /// No entry occurs twice.
    pub open spec fn wf(&self) -> bool {
        forall|i: int, j: int|
            0 <= i < j < self@.len() ==> self@[i] != self@[j]
    }

    /// The entries as a mathematical set.
    pub open spec fn contents(&self) -> Set<Payload> {
        self@.to_set()
    }

    /// The set with no entries.
    pub fn empty() -> (s: PayloadSet)
        ensures
            s@ == Seq::<Payload>::empty(),
            s.wf(),
    {
        PayloadSet { entries: Vec::new() }
    }

    /// The number of entries.
    pub fn len(&self) -> (n: usize)
        ensures
            n == self@.len(),
    {
        self.entries.len()
    }

    /// The entry at position `i`.
    pub fn get(&self, i: usize) -> (p: Payload)
        requires
            i < self@.len(),
        ensures
            p == self@[i as int],
    {
        self.entries[i]
    }

    /// Whether the set holds entry `p`.
    pub fn contains(&self, p: Payload) -> (r: bool)
        ensures
            r == self@.contains(p),
    {
        let n = self.entries.len();
        for i in 0..n
            invariant
                n == self@.len(),
                forall|j: int| 0 <= j < i ==> self@[j] != p,
        {
            if self.entries[i] == p {
                return true;
            }
        }
        false
    }

    /// Adds entry `p` unless it is already present.
    pub fn insert(&mut self, p: Payload)
        requires
            old(self).wf(),
        ensures
            final(self).wf(),
            final(self)@ == if old(self)@.contains(p) {
                old(self)@
            } else {
                old(self)@.push(p)
            },
            final(self).contents() == old(self).contents().insert(p),
    {
        if !self.contains(p) {
            self.entries.push(p);
            assert(self@ == old(self)@.push(p));
        }
        proof {
            assert forall|q: Payload| #[trigger] self@.contains(q) <==> (old(self)@.contains(q)
                || q == p) by {
                lemma_contains_push(old(self)@, p, q);
            }
            assert(self.contents() =~= old(self).contents().insert(p));
        }
    }

    /// The deduplicated set holding a pack's entries.
    pub fn from_pack(pack: &Pack) -> (s: PayloadSet)
        ensures
            s.wf(),
            s.contents() == pack@.to_set(),
    {
        let empty = PayloadSet { entries: Vec::new() };
        let s = empty.merge_pack(pack);
        proof {
            assert(s.contents() =~= pack@.to_set());
        }
        s
    }

    /// The union of this set and another.
    pub fn merge(&self, other: &PayloadSet) -> (r: PayloadSet)
        requires
            self.wf(),
        ensures
            r.wf(),
            r.contents() == self.contents().union(other.contents()),
    {
        let mut out = PayloadSet { entries: self.entries.clone() };
        proof {
            assert(out.contents() =~= self.contents().union(other@.take(0).to_set()));
        }
        let m = other.entries.len();
        for i in 0..m
            invariant
                m == other@.len(),
                out.wf(),
                out.contents() == self.contents().union(other@.take(i as int).to_set()),
        {
            proof {
                assert(other@.take(i + 1).drop_last() == other@.take(i as int));
                assert(other@.take(i + 1).last() == other@[i as int]);
                lemma_to_set_push(other@.take(i + 1));
                assert(self.contents().union(other@.take(i + 1).to_set())
                    =~= self.contents().union(other@.take(i as int).to_set()).insert(
                    other@[i as int],
                ));
            }
            out.insert(other.entries[i]);
        }
        proof {
            assert(other@.take(m as int) == other@);
        }
        out
    }

    /// The union of this set and a pack of entries, the pack folded in
    /// entry by entry.
    pub fn merge_pack(&self, pack: &Pack) -> (r: PayloadSet)
        requires
            self.wf(),
        ensures
            r.wf(),
            r.contents() == self.contents().union(pack@.to_set()),
    {
        let mut out = PayloadSet { entries: Vec::new() };
        let n = self.entries.len();
        for i in 0..n
            invariant
                n == self@.len(),
                out.wf(),
                out.contents() == self@.take(i as int).to_set(),
        {
            proof {
                assert(self@.take(i + 1).drop_last() == self@.take(i as int));
                assert(self@.take(i + 1).last() == self@[i as int]);
                assert(self@.take(i + 1).to_set() == self@.take(i as int).to_set().insert(
                    self@[i as int],
                )) by {
                    lemma_to_set_push(self@.take(i + 1));
                }
            }
            out.insert(self.entries[i]);
        }
        proof {
            assert(self@.take(n as int) == self@);
        }
        let m = pack.len();
        for i in 0..m
            invariant
                m == pack@.len(),
                out.wf(),
                out.contents() == self.contents().union(pack@.take(i as int).to_set()),
        {
            proof {
                assert(pack@.take(i + 1).drop_last() == pack@.take(i as int));
                assert(pack@.take(i + 1).last() == pack@[i as int]);
                assert(pack@.take(i + 1).to_set() == pack@.take(i as int).to_set().insert(
                    pack@[i as int],
                )) by {
                    lemma_to_set_push(pack@.take(i + 1));
                }
                assert(self.contents().union(pack@.take(i + 1).to_set())
                    =~= self.contents().union(pack@.take(i as int).to_set()).insert(
                    pack@[i as int],
                ));
            }
            out.insert(pack.get(i));
        }
        proof {
            assert(pack@.take(m as int) == pack@);
        }
        out
    }
}

impl PartialEq for PayloadSet {
    /// Two payload sets are equal when they hold the same entries,
    /// whatever their internal order.
    fn eq(&self, other: &PayloadSet) -> (r: bool) {
        let n = self.entries.len();
        for i in 0..n
            invariant
                n == self@.len(),
                forall|j: int| 0 <= j < i ==> other@.contains(#[trigger] self@[j]),
        {
            if !other.contains(self.entries[i]) {
                proof {
                    assert(self@.to_set().contains(self@[i as int]));
                    assert(!other@.to_set().contains(self@[i as int]));
                }
                return false;
            }
        }
        let m = other.entries.len();
        for i in 0..m
            invariant
                m == other@.len(),
                forall|j: int| 0 <= j < self@.len() ==> other@.contains(#[trigger] self@[j]),
                forall|j: int| 0 <= j < i ==> self@.contains(#[trigger] other@[j]),
        {
            if !self.contains(other.entries[i]) {
                proof {
                    assert(other@.to_set().contains(other@[i as int]));
                    assert(!self@.to_set().contains(other@[i as int]));
                }
                return false;
            }
        }
        proof {
            assert forall|q: Payload| #[trigger] self@.to_set().contains(q)
                <==> other@.to_set().contains(q) by {
                if self@.contains(q) {
                    let j = choose|j: int| 0 <= j < self@.len() && self@[j] == q;
                    assert(other@.contains(self@[j]));
                }
                if other@.contains(q) {
                    let j = choose|j: int| 0 <= j < other@.len() && other@[j] == q;
                    assert(self@.contains(other@[j]));
                }
            }
            assert(self@.to_set() =~= other@.to_set());
        }
        true
    }
}

impl vstd::std_specs::cmp::PartialEqSpecImpl for PayloadSet {
    open spec fn obeys_eq_spec() -> bool {
        true
    }

    open spec fn eq_spec(&self, other: &PayloadSet) -> bool {
        self@.to_set() == other@.to_set()
    }
}

/// A pushed sequence holds exactly the old entries and the pushed one.
pub proof fn lemma_contains_push(s: Seq<Payload>, x: Payload, q: Payload)
    ensures
        s.push(x).contains(q) <==> (s.contains(q) || q == x),
{
    if s.contains(q) {
        let k = choose|k: int| 0 <= k < s.len() && s[k] == q;
        assert(s.push(x)[k] == q);
    }
    assert(s.push(x)[s.len() as int] == x);
    if s.push(x).contains(q) {
        let k = choose|k: int| 0 <= k < s.push(x).len() && s.push(x)[k] == q;
        if k < s.len() {
            assert(s[k] == q);
        }
    }
}

/// A non-empty sequence seen as a set is its prefix's set plus its last
/// element.
proof fn lemma_to_set_push(s: Seq<Payload>)
    requires
        s.len() > 0,
    ensures
        s.to_set() == s.drop_last().to_set().insert(s.last()),
{
    assert(s =~= s.drop_last().push(s.last()));
    assert forall|q: Payload| #[trigger] s.to_set().contains(q) <==> s.drop_last().to_set().insert(
        s.last(),
    ).contains(q) by {
        lemma_contains_push(s.drop_last(), s.last(), q);
    }
    assert(s.to_set() =~= s.drop_last().to_set().insert(s.last()));
}

/// A versioned payload update: a serial number, the payload set it
/// carries, and optional trailing session metadata.
#[derive(Debug)]
pub struct PayloadUpdate {
    /// The monotonically increasing serial number of the update.
    pub serial: u32,
    /// The payload set the update carries.
    pub set: PayloadSet,
    /// Trailing session metadata, if any.
    pub info: Option<u64>,
}

impl PayloadUpdate {
    /// A well-formed update carries a well-formed set.
    pub open spec fn wf(&self) -> bool {
        self.set.wf()
    }

    /// Builds an update from its parts.
    pub fn new(serial: u32, set: PayloadSet, info: Option<u64>) -> (u: PayloadUpdate)
        ensures
            u.serial == serial,
            u.set == set,
            u.info == info,
    {
        PayloadUpdate { serial, set, info }
    }

    /// The serial number of the update.
    pub fn serial(&self) -> (s: u32)
        ensures
            s == self.serial,
    {
        self.serial
    }

    /// Takes the payload set out of the update.
    pub fn into_set(self) -> (s: PayloadSet)
        ensures
            s == self.set,
    {
        self.set
    }
}

} // verus!
