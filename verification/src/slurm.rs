//! The trusted boundary to the exception-file wire format.
//!
//! Exception files are SLURM files (RFC 8416). Parsing them is not this
//! library's concern: the rpki crate turns a byte stream into a
//! structured document holding filter lists and assertion lists. The
//! document is opaque here; the spec functions below name what it holds,
//! and the extraction functions hand those contents out as the
//! library's own plain values.

use vstd::prelude::*;
use crate::content::Content;
use crate::payload::{KeyId, Pack, Payload, PrefixPat};
use crate::rules::{Filters, KeyRule, PrefixRule};

verus! {

/// A parsed SLURM document of the rpki crate, opaque to this library.
#[verifier::external_type_specification]
#[verifier::external_body]
pub struct ExSlurmFile(rpki::slurm::SlurmFile);

/// The document's route-origin filter rules, as this library's values.
pub uninterp spec fn slurm_prefix_rules(f: rpki::slurm::SlurmFile) -> Seq<PrefixRule>;

/// The document's router-key filter rules, as this library's values.
pub uninterp spec fn slurm_key_rules(f: rpki::slurm::SlurmFile) -> Seq<KeyRule>;

/// The document's asserted route-origin entries, as this library's
/// values.
pub uninterp spec fn slurm_origin_assertions(f: rpki::slurm::SlurmFile) -> Seq<Payload>;

/// The document's asserted router-key entries, as this library's
/// values.
pub uninterp spec fn slurm_key_assertions(f: rpki::slurm::SlurmFile) -> Seq<Payload>;

/// Whether the bytes parse as a SLURM document. The parse reads nothing
/// but the bytes, so its outcome is a function of them.
pub uninterp spec fn slurm_parses(bytes: Seq<u8>) -> bool;

/// The route-origin filter rules of the document the bytes parse to.
pub uninterp spec fn parsed_prefix_rules(bytes: Seq<u8>) -> Seq<PrefixRule>;

/// The router-key filter rules of the document the bytes parse to.
pub uninterp spec fn parsed_key_rules(bytes: Seq<u8>) -> Seq<KeyRule>;

/// The asserted route-origin entries of the document the bytes parse to.
pub uninterp spec fn parsed_origin_assertions(bytes: Seq<u8>) -> Seq<Payload>;

/// The asserted router-key entries of the document the bytes parse to.
pub uninterp spec fn parsed_key_assertions(bytes: Seq<u8>) -> Seq<Payload>;

/// Relies on rpki::slurm::SlurmFile::from_reader: it parses a SLURM
/// document from the byte stream, returning an error on malformed
/// input, which is mapped to `None` here. It reads nothing but the
/// bytes, so whether it succeeds, and what the returned document holds,
/// are functions of the bytes alone.
#[verifier::external_body]
pub(crate) fn parse_slurm(bytes: &[u8]) -> (r: Option<rpki::slurm::SlurmFile>)
    ensures
        r is Some <==> slurm_parses(bytes@),
        r matches Some(f) ==> slurm_prefix_rules(f) == parsed_prefix_rules(bytes@)
            && slurm_key_rules(f) == parsed_key_rules(bytes@) && slurm_origin_assertions(f)
            == parsed_origin_assertions(bytes@) && slurm_key_assertions(f)
            == parsed_key_assertions(bytes@),
{
    rpki::slurm::SlurmFile::from_reader(bytes).ok()
}

/// Relies on the `filters.prefix` list of rpki::slurm::SlurmFile: each
/// rpki::slurm::PrefixFilter holds an optional prefix and an optional
/// AS number; both are converted to this library's plain values, the
/// prefix to its left-aligned address bits, length and family.
#[verifier::external_body]
pub(crate) fn prefix_rules_of(f: &rpki::slurm::SlurmFile) -> (r: Vec<PrefixRule>)
    ensures
        r@ == slurm_prefix_rules(*f),
{
    f.filters.prefix.iter().map(|pf| PrefixRule {
        prefix: pf.prefix.map(|q| match q.addr() {
            core::net::IpAddr::V4(x) => PrefixPat { v4: true, addr: (u32::from(x) as u128) << 96, len: q.len() },
            core::net::IpAddr::V6(x) => PrefixPat { v4: false, addr: u128::from(x), len: q.len() },
        }),
        asn: pf.asn.map(|a| a.into_u32()),
    }).collect()
}

/// Relies on the `filters.bgpsec` list of rpki::slurm::SlurmFile: each
/// rpki::slurm::BgpsecFilter holds an optional twenty-byte key
/// identifier and an optional AS number, converted to this library's
/// plain values. The slice splits cannot fail on twenty bytes.
#[verifier::external_body]
pub(crate) fn key_rules_of(f: &rpki::slurm::SlurmFile) -> (r: Vec<KeyRule>)
    ensures
        r@ == slurm_key_rules(*f),
{
    f.filters.bgpsec.iter().map(|kf| KeyRule {
        ski: kf.ski.map(|k| KeyId {
            hi: u128::from_be_bytes(k.as_slice()[..16].try_into().unwrap()),
            lo: u32::from_be_bytes(k.as_slice()[16..].try_into().unwrap()),
        }),
        asn: kf.asn.map(|a| a.into_u32()),
    }).collect()
}

/// Relies on the `assertions.prefix` list of rpki::slurm::SlurmFile:
/// every route-origin assertion (prefix, resolved max length, AS
/// number) is converted to one of this library's payload entries, in
/// list order.
#[verifier::external_body]
pub(crate) fn origin_assertions_of(f: &rpki::slurm::SlurmFile) -> (r: Vec<Payload>)
    ensures
        r@ == slurm_origin_assertions(*f),
{
    f.assertions.prefix.iter().map(|a| Payload::Origin {
        prefix: match a.prefix.prefix().addr() {
            core::net::IpAddr::V4(x) => PrefixPat { v4: true, addr: (u32::from(x) as u128) << 96, len: a.prefix.prefix().len() },
            core::net::IpAddr::V6(x) => PrefixPat { v4: false, addr: u128::from(x), len: a.prefix.prefix().len() },
        },
        max_len: a.prefix.resolved_max_len(),
        asn: a.asn.into_u32(),
    }).collect()
}

/// Relies on the `assertions.bgpsec` list of rpki::slurm::SlurmFile:
/// every router-key assertion (twenty-byte key identifier, AS number)
/// is converted to one of this library's payload entries, in list
/// order. The slice splits cannot fail on twenty bytes.
#[verifier::external_body]
pub(crate) fn key_assertions_of(f: &rpki::slurm::SlurmFile) -> (r: Vec<Payload>)
    ensures
        r@ == slurm_key_assertions(*f),
{
    f.assertions.bgpsec.iter().map(|a| Payload::Key {
        ski: KeyId {
            hi: u128::from_be_bytes(a.ski.as_slice()[..16].try_into().unwrap()),
            lo: u32::from_be_bytes(a.ski.as_slice()[16..].try_into().unwrap()),
        },
        asn: a.asn.into_u32(),
    }).collect()
}

/// Builds the policy content of a parsed document: its filter rules
/// stored as they are, its asserted entries finalized into one pack,
/// origins first.
pub(crate) fn content_of(f: &rpki::slurm::SlurmFile) -> (c: Content)
    ensures
        c.filters.prefix@ == slurm_prefix_rules(*f),
        c.filters.bgpsec@ == slurm_key_rules(*f),
        c.assertions@ == slurm_origin_assertions(*f) + slurm_key_assertions(*f),
{
    let filters = Filters { prefix: prefix_rules_of(f), bgpsec: key_rules_of(f) };
    let mut entries = origin_assertions_of(f);
    let mut keys = key_assertions_of(f);
    entries.append(&mut keys);
    let assertions = Pack::from_entries(entries);
    Content::new(filters, assertions)
}

} // verus!
