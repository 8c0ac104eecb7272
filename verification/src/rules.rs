//! Filter rules: match patterns that cause payload entries to be dropped.
//!
//! A rule may match a route origin by prefix and/or origin AS, or a router
//! key by key identifier and/or AS; a field left out is a wildcard. A rule
//! with every field left out matches nothing. An entry is dropped when at
//! least one rule of the list matches it.

use vstd::prelude::*;
use crate::payload::{KeyId, Payload, PrefixPat, covers, spec_covers};

verus! {

/// A match rule for route origin entries. A `None` field is a wildcard; a
/// rule with both fields `None` matches nothing.
#[derive(Clone, Copy, Debug)]
pub struct PrefixRule {
    /// Drops only origins whose prefix is covered by this one.
    pub prefix: Option<PrefixPat>,
    /// Drops only origins announced by this AS.
    pub asn: Option<u32>,
}

/// A match rule for router key entries. A `None` field is a wildcard; a
/// rule with both fields `None` matches nothing.
#[derive(Clone, Copy, Debug)]
pub struct KeyRule {
    /// Drops only keys with this key identifier.
    pub ski: Option<KeyId>,
    /// Drops only keys bound to this AS.
    pub asn: Option<u32>,
}

/// The filter lists of one exception file.
#[derive(Clone, Debug)]
pub struct Filters {
    /// The rules matching route origin entries.
    pub prefix: Vec<PrefixRule>,
    /// The rules matching router key entries.
    pub bgpsec: Vec<KeyRule>,
}

/// Whether a prefix rule matches a payload entry. Only route origins can
/// match; every given field must match, and a rule without fields matches
/// nothing.
pub open spec fn prefix_rule_drops(r: PrefixRule, p: Payload) -> bool {
    match p {
        Payload::Origin { prefix, max_len, asn } => {
            (r.prefix is Some || r.asn is Some) && (match r.prefix {
                Some(q) => spec_covers(q, prefix),
                None => true,
            }) && (match r.asn {
                Some(a) => a == asn,
                None => true,
            })
        },
        _ => false,
    }
}

/// Whether a key rule matches a payload entry. Only router keys can
/// match; every given field must match, and a rule without fields matches
/// nothing.
pub open spec fn key_rule_drops(r: KeyRule, p: Payload) -> bool {
    match p {
        Payload::Key { ski, asn } => {
            (r.ski is Some || r.asn is Some) && (match r.ski {
                Some(k) => k == ski,
                None => true,
            }) && (match r.asn {
                Some(a) => a == asn,
                None => true,
            })
        },
        _ => false,
    }
}

/// Whether the filter lists signal that entry `p` is to be dropped: at
/// least one rule matches it.
pub open spec fn spec_drops(f: Filters, p: Payload) -> bool {
    (exists|i: int| 0 <= i < f.prefix@.len() && prefix_rule_drops(f.prefix@[i], p)) || (exists|
        i: int,
    |
        0 <= i < f.bgpsec@.len() && key_rule_drops(f.bgpsec@[i], p))
}

impl Filters {
    /// The filter list that drops nothing.
    pub fn none() -> (f: Filters)
        ensures
            f.prefix@ == Seq::<PrefixRule>::empty(),
            f.bgpsec@ == Seq::<KeyRule>::empty(),
            forall|p: Payload| !spec_drops(f, p),
    {
        Filters { prefix: Vec::new(), bgpsec: Vec::new() }
    }

    /// Decides whether entry `p` is dropped by these filters.
    pub fn drops(&self, p: Payload) -> (r: bool)
        ensures
            r == spec_drops(*self, p),
    {
        let n = self.prefix.len();
        for i in 0..n
            invariant
                n == self.prefix@.len(),
                forall|j: int| 0 <= j < i ==> !prefix_rule_drops(self.prefix@[j], p),
        {
            if Self::prefix_rule_matches(&self.prefix[i], p) {
                return true;
            }
        }
        let m = self.bgpsec.len();
        for i in 0..m
            invariant
                m == self.bgpsec@.len(),
                forall|j: int| 0 <= j < self.prefix@.len() ==> !prefix_rule_drops(
                    self.prefix@[j],
                    p,
                ),
                forall|j: int| 0 <= j < i ==> !key_rule_drops(self.bgpsec@[j], p),
        {
            if Self::key_rule_matches(&self.bgpsec[i], p) {
                return true;
            }
        }
        false
    }

    /// Decides whether one prefix rule matches entry `p`.
    fn prefix_rule_matches(r: &PrefixRule, p: Payload) -> (b: bool)
        ensures
            b == prefix_rule_drops(*r, p),
    {
        match p {
            Payload::Origin { prefix, max_len: _, asn } => {
                if r.prefix.is_none() && r.asn.is_none() {
                    return false;
                }
                let prefix_ok = match r.prefix {
                    Some(q) => covers(q, prefix),
                    None => true,
                };
                let asn_ok = match r.asn {
                    Some(a) => a == asn,
                    None => true,
                };
                prefix_ok && asn_ok
            },
            _ => false,
        }
    }

    /// Decides whether one key rule matches entry `p`.
    fn key_rule_matches(r: &KeyRule, p: Payload) -> (b: bool)
        ensures
            b == key_rule_drops(*r, p),
    {
        match p {
            Payload::Key { ski, asn } => {
                if r.ski.is_none() && r.asn.is_none() {
                    return false;
                }
                let ski_ok = match r.ski {
                    Some(k) => k == ski,
                    None => true,
                };
                let asn_ok = match r.asn {
                    Some(a) => a == asn,
                    None => true,
                };
                ski_ok && asn_ok
            },
            _ => false,
        }
    }
}

} // verus!
