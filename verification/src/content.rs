//! Policy content: the pre-processed form of one exception file, and its
//! application to payload sets.
//!
//! Application is two ordered steps: first every entry matching a filter
//! rule is dropped, then the assertion entries are merged into the result.
//! Assertions are merged last so that they are present in the output even
//! when a filter rule would match them: an operator cannot use filters to
//! suppress their own assertions.

use vstd::prelude::*;
use crate::payload::{Pack, Payload, PayloadSet};
use crate::rules::{Filters, spec_drops};

verus! {

/// The immutable, pre-processed content of one exception file: a filter
/// rule list and a finalized set of assertion entries. A new file version
/// produces a wholly new value, never a mutation of an existing one.
#[derive(Clone, Debug)]
pub struct Content {
    /// The filter rules of the file.
    pub filters: Filters,
    /// The entries the file unconditionally injects.
    pub assertions: Pack,
}

/// Whether entry `p` survives the filters of content `c`.
pub open spec fn spec_kept(c: Content, p: Payload) -> bool {
    !spec_drops(c.filters, p)
}

/// What applying one content value to a payload set yields: the entries
/// that survive the filters, merged with the asserted entries.
pub open spec fn spec_apply1(c: Content, s: Set<Payload>) -> Set<Payload> {
    s.filter(|p: Payload| spec_kept(c, p)).union(c.assertions@.to_set())
}

/// What folding a sequence of content values over a payload set yields,
/// first value applied first.
pub open spec fn spec_apply_seq(cs: Seq<Content>, s: Set<Payload>) -> Set<Payload>
    decreases cs.len(),
{
    if cs.len() == 0 {
        s
    } else {
        spec_apply_seq(cs.drop_first(), spec_apply1(cs[0], s))
    }
}

/// Whether entry `p` survives the filters of every content value in `cs`.
pub open spec fn all_keep(cs: Seq<Content>, p: Payload) -> bool {
    forall|i: int| 0 <= i < cs.len() ==> #[trigger] spec_kept(cs[i], p)
}

/// Whether the content value at position `i` of `cs` asserts `p` and no
/// later one filters it out again.
pub open spec fn asserted_at(cs: Seq<Content>, p: Payload, i: int) -> bool {
    0 <= i < cs.len() && cs[i].assertions@.to_set().contains(p) && (forall|j: int|
        i < j < cs.len() ==> #[trigger] spec_kept(cs[j], p))
}

/// Whether some content value in `cs` asserts `p` and no later one
/// filters it out again.
pub open spec fn asserted_and_kept_after(cs: Seq<Content>, p: Payload) -> bool {
    exists|i: int| #[trigger] asserted_at(cs, p, i)
}

impl Content {
    /// Builds a content value from its parts.
    pub fn new(filters: Filters, assertions: Pack) -> (c: Content)
        ensures
            c.filters == filters,
            c.assertions == assertions,
    {
        Content { filters, assertions }
    }

    /// The content of an absent or never-loaded file: no filters, no
    /// assertions. Applying it changes nothing.
    pub fn empty() -> (c: Content)
        ensures
            c.assertions@ == Seq::<Payload>::empty(),
            forall|p: Payload| !spec_drops(c.filters, p),
            forall|s: Set<Payload>| spec_apply1(c, s) == s,
    {
        let c = Content { filters: Filters::none(), assertions: Pack::empty() };
        proof {
            assert forall|s: Set<Payload>| spec_apply1(c, s) == s by {
                assert(spec_apply1(c, s) =~= s);
            }
        }
        c
    }

    /// Applies this content to a payload set: drops every entry a filter
    /// rule matches, then merges the assertions in.
    pub fn apply(&self, set: &PayloadSet) -> (r: PayloadSet)
        requires
            set.wf(),
        ensures
            r.wf(),
            r.contents() == spec_apply1(*self, set.contents()),
    {
        let mut kept = PayloadSet::empty();
        let n = set.len();
        for i in 0..n
            invariant
                n == set@.len(),
                kept.wf(),
                forall|q: Payload|
                    #[trigger] kept@.contains(q) <==> (set@.take(i as int).contains(q)
                        && spec_kept(*self, q)),
        {
            let p = set.get(i);
            proof {
                assert(set@.take(i + 1) =~= set@.take(i as int).push(set@[i as int]));
                assert forall|q: Payload| #[trigger] set@.take(i + 1).contains(q) <==> (set@.take(
                    i as int,
                ).contains(q) || q == set@[i as int]) by {
                    crate::payload::lemma_contains_push(set@.take(i as int), set@[i as int], q);
                }
            }
            let ghost kept0 = kept@;
            let dropped = self.filters.drops(p);
            if !dropped {
                kept.insert(p);
            }
            proof {
                assert forall|q: Payload| #[trigger] kept@.contains(q) <==> (set@.take(
                    i + 1,
                ).contains(q) && spec_kept(*self, q)) by {
                    crate::payload::lemma_contains_push(kept0, p, q);
                }
            }
        }
        proof {
            assert(set@.take(n as int) == set@);
        }
        let r = kept.merge_pack(&self.assertions);
        proof {
            assert forall|q: Payload| #[trigger] r.contents().contains(q) <==> spec_apply1(
                *self,
                set.contents(),
            ).contains(q) by {
                assert(r.contents().contains(q) <==> (kept@.contains(q)
                    || self.assertions@.to_set().contains(q)));
            }
            assert(r.contents() =~= spec_apply1(*self, set.contents()));
        }
        r
    }
}

/// Folding an extended sequence applies the appended content last.
pub proof fn lemma_apply_seq_push(cs: Seq<Content>, c: Content, s: Set<Payload>)
    ensures
        spec_apply_seq(cs.push(c), s) == spec_apply1(c, spec_apply_seq(cs, s)),
    decreases cs.len(),
{
    assert(cs.push(c).len() == cs.len() + 1);
    assert(spec_apply_seq(cs.push(c), s) == spec_apply_seq(
        cs.push(c).drop_first(),
        spec_apply1(cs.push(c)[0], s),
    ));
    if cs.len() == 0 {
        assert(cs.push(c)[0] == c);
        assert(cs.push(c).drop_first() =~= Seq::<Content>::empty());
        assert(spec_apply_seq(cs.push(c).drop_first(), spec_apply1(c, s)) == spec_apply1(c, s));
        assert(spec_apply_seq(cs, s) == s);
    } else {
        assert(cs.push(c)[0] == cs[0]);
        assert(cs.push(c).drop_first() =~= cs.drop_first().push(c));
        lemma_apply_seq_push(cs.drop_first(), c, spec_apply1(cs[0], s));
        assert(spec_apply_seq(cs, s) == spec_apply_seq(cs.drop_first(), spec_apply1(cs[0], s)));
    }
}

/// An entry is in the result of folding `cs` over `s` exactly when it was
/// in `s` and no file filters it, or some file asserts it and no later
/// file filters it again.
pub proof fn lemma_apply_seq_membership(cs: Seq<Content>, s: Set<Payload>, p: Payload)
    ensures
        spec_apply_seq(cs, s).contains(p) <==> ((s.contains(p) && all_keep(cs, p))
            || asserted_and_kept_after(cs, p)),
    decreases cs.len(),
{
    if cs.len() == 0 {
        assert(!asserted_and_kept_after(cs, p)) by {
            assert(forall|i: int| !#[trigger] asserted_at(cs, p, i));
        }
    } else {
        let c0 = cs[0];
        let rest = cs.drop_first();
        let s1 = spec_apply1(c0, s);
        lemma_apply_seq_membership(rest, s1, p);
        assert(s1.contains(p) <==> ((s.contains(p) && spec_kept(c0, p))
            || c0.assertions@.to_set().contains(p)));
        assert(forall|i: int| 0 <= i < rest.len() ==> rest[i] == #[trigger] cs[i + 1]);
        // Folding the tail over the once-applied set matches the
        // characterization over the whole sequence, case by case.
        if spec_apply_seq(cs, s).contains(p) {
            if s1.contains(p) && all_keep(rest, p) {
                if s.contains(p) && spec_kept(c0, p) {
                    assert forall|i: int| 0 <= i < cs.len() implies #[trigger] spec_kept(
                        cs[i],
                        p,
                    ) by {
                        if i > 0 {
                            assert(cs[i] == rest[i - 1]);
                            assert(spec_kept(rest[i - 1], p));
                        }
                    }
                } else {
                    assert(c0.assertions@.to_set().contains(p));
                    assert forall|j: int| 0 < j < cs.len() implies #[trigger] spec_kept(
                        cs[j],
                        p,
                    ) by {
                        assert(cs[j] == rest[j - 1]);
                        assert(spec_kept(rest[j - 1], p));
                    }
                    assert(asserted_at(cs, p, 0));
                }
            } else {
                let i = choose|i: int| #[trigger] asserted_at(rest, p, i);
                assert(cs[i + 1].assertions@.to_set().contains(p));
                assert forall|j: int| i + 1 < j < cs.len() implies #[trigger] spec_kept(
                    cs[j],
                    p,
                ) by {
                    assert(cs[j] == rest[j - 1]);
                    assert(spec_kept(rest[j - 1], p));
                }
                assert(asserted_at(cs, p, i + 1));
            }
        }
        if s.contains(p) && all_keep(cs, p) {
            assert(spec_kept(cs[0], p));
            assert forall|j: int| 0 <= j < rest.len() implies #[trigger] spec_kept(rest[j], p) by {
                assert(rest[j] == cs[j + 1]);
                assert(spec_kept(cs[j + 1], p));
            }
            assert(spec_apply_seq(cs, s).contains(p));
        }
        if asserted_and_kept_after(cs, p) {
            let i = choose|i: int| #[trigger] asserted_at(cs, p, i);
            if i == 0 {
                assert(s1.contains(p));
                assert forall|j: int| 0 <= j < rest.len() implies #[trigger] spec_kept(
                    rest[j],
                    p,
                ) by {
                    assert(rest[j] == cs[j + 1]);
                    assert(spec_kept(cs[j + 1], p));
                }
                assert(spec_apply_seq(cs, s).contains(p));
            } else {
                assert(rest[i - 1].assertions@.to_set().contains(p));
                assert forall|j: int| i - 1 < j < rest.len() implies #[trigger] spec_kept(
                    rest[j],
                    p,
                ) by {
                    assert(rest[j] == cs[j + 1]);
                    assert(spec_kept(cs[j + 1], p));
                }
                assert(asserted_at(rest, p, i - 1));
                assert(spec_apply_seq(cs, s).contains(p));
            }
        }
    }
}

/// Applying one content value filters first and asserts second: the
/// result is the merge of the filtered input with the assertion set,
/// never the filtered form of the merged input.
pub proof fn lemma_filter_then_assert(c: Content, s: Set<Payload>)
    ensures
        spec_apply1(c, s) == s.filter(|p: Payload| spec_kept(c, p)).union(
            c.assertions@.to_set(),
        ),
{
}

/// Filters first, then assertions: an asserted entry is present in the
/// result even when a filter rule matches it.
pub proof fn lemma_assertions_survive(c: Content, s: Set<Payload>, p: Payload)
    requires
        c.assertions@.to_set().contains(p),
    ensures
        spec_apply1(c, s).contains(p),
{
}

/// The two application orders differ: on an asserted entry that a filter
/// matches, filtering first keeps it, while merging the assertions first
/// and filtering afterwards would lose it.
pub proof fn lemma_assert_beats_filter(c: Content, s: Set<Payload>, p: Payload)
    requires
        c.assertions@.to_set().contains(p),
        spec_drops(c.filters, p),
    ensures
        spec_apply1(c, s).contains(p),
        !s.union(c.assertions@.to_set()).filter(|q: Payload| spec_kept(c, q)).contains(p),
{
}

/// Applying the same content sequence twice yields what applying it once
/// yields.
pub proof fn lemma_apply_seq_idempotent(cs: Seq<Content>, s: Set<Payload>)
    ensures
        spec_apply_seq(cs, spec_apply_seq(cs, s)) == spec_apply_seq(cs, s),
{
    let once = spec_apply_seq(cs, s);
    assert forall|p: Payload| spec_apply_seq(cs, once).contains(p) <==> once.contains(p) by {
        lemma_apply_seq_membership(cs, s, p);
        lemma_apply_seq_membership(cs, once, p);
    }
    assert(spec_apply_seq(cs, once) =~= once);
}

/// Order is significant: the later file's assertions always make it into
/// the result, while an earlier file's assertion that the later file
/// filters (and does not assert itself) does not.
pub proof fn lemma_order_significant(c1: Content, c2: Content, s: Set<Payload>, p: Payload)
    ensures
        c2.assertions@.to_set().contains(p) ==> spec_apply_seq(seq![c1, c2], s).contains(p),
        (c1.assertions@.to_set().contains(p) && spec_drops(c2.filters, p)
            && !c2.assertions@.to_set().contains(p)) ==> !spec_apply_seq(
            seq![c1, c2],
            s,
        ).contains(p),
{
    let cs = seq![c1, c2];
    lemma_apply_seq_membership(cs, s, p);
    if c2.assertions@.to_set().contains(p) {
        assert(cs[1].assertions@.to_set().contains(p));
        assert(asserted_at(cs, p, 1));
    }
    if c1.assertions@.to_set().contains(p) && spec_drops(c2.filters, p)
        && !c2.assertions@.to_set().contains(p) {
        assert(!spec_kept(cs[1], p));
        assert(!all_keep(cs, p));
        assert(!asserted_and_kept_after(cs, p)) by {
            assert forall|i: int| !#[trigger] asserted_at(cs, p, i) by {
                if 0 <= i < cs.len() && cs[i].assertions@.to_set().contains(p) {
                    assert(i == 0);
                    assert(!spec_kept(cs[1], p));
                }
            }
        }
    }
}

} // verus!
