//! Tests of the reload policy and the parse boundary, driven with
//! in-memory bytes instead of real files.

use local_exceptions::payload::{PackBuilder, Payload, PayloadSet, PayloadUpdate, PrefixPat};
use local_exceptions::set::ExceptionSet;

fn v4(addr: u32, len: u8, max_len: u8, asn: u32) -> Payload {
    Payload::Origin {
        prefix: PrefixPat { v4: true, addr: (addr as u128) << 96, len },
        max_len,
        asn,
    }
}

fn set_from(entries: &[Payload]) -> PayloadSet {
    let mut b = PackBuilder::empty();
    for e in entries {
        b.insert_unchecked(*e);
    }
    PayloadSet::from_pack(&b.finalize())
}

// A SLURM file that filters everything under 192.0.2.0/24 and asserts
// 198.51.100.0/24 for AS 64496.
const SLURM: &str = r#"{
  "slurmVersion": 1,
  "validationOutputFilters": {
    "prefixFilters": [ { "prefix": "192.0.2.0/24" } ],
    "bgpsecFilters": []
  },
  "locallyAddedAssertions": {
    "prefixAssertions": [ { "prefix": "198.51.100.0/24", "asn": 64496 } ],
    "bgpsecAssertions": []
  }
}"#;

#[test]
fn absorb_publishes_parsed_content() {
    let set = ExceptionSet::new(1);
    let mut poller = set.poller();

    assert!(poller.needs_reload(0, 1000));
    assert!(poller.absorb(0, 1000, SLURM.as_bytes()));

    let filtered = v4(0xC0000205, 32, 32, 64500);
    let kept = v4(0xCB007100, 24, 24, 64501);
    let asserted = v4(0xC6336400, 24, 24, 64496);

    let out = set.apply(PayloadUpdate::new(3, set_from(&[filtered, kept]), None));
    assert_eq!(out.set, set_from(&[kept, asserted]));
    assert_eq!(out.serial, 3);
}

#[test]
fn reload_policy_skips_only_unchanged_times() {
    let set = ExceptionSet::new(1);
    let mut poller = set.poller();

    // First observation always reloads.
    assert!(poller.needs_reload(0, 50));
    assert!(poller.absorb(0, 50, SLURM.as_bytes()));

    // Unchanged time: skip. Newer or older time: reload.
    assert!(!poller.needs_reload(0, 50));
    assert!(poller.needs_reload(0, 51));
    assert!(poller.needs_reload(0, 49));
}

#[test]
fn failed_parse_changes_nothing() {
    let set = ExceptionSet::new(1);
    let mut poller = set.poller();
    assert!(poller.absorb(0, 10, SLURM.as_bytes()));

    // Unparseable bytes: nothing published, time not recorded, so the
    // same file state is retried next cycle.
    assert!(!poller.absorb(0, 20, b"not a slurm file"));
    assert!(poller.needs_reload(0, 20));
    assert!(!poller.needs_reload(0, 10));

    // The slot still serves the last good content.
    let filtered = v4(0xC0000200, 24, 24, 64500);
    let out = set.apply(PayloadUpdate::new(1, set_from(&[filtered]), None));
    assert_eq!(out.set, set_from(&[v4(0xC6336400, 24, 24, 64496)]));
}

#[test]
fn never_loaded_file_behaves_as_empty_content() {
    // A file that never parsed leaves the default in place: no filters,
    // no assertions.
    let set = ExceptionSet::new(1);
    let mut poller = set.poller();
    assert!(!poller.absorb(0, 5, b"{"));

    let e = v4(0xC0000200, 24, 24, 64500);
    let out = set.apply(PayloadUpdate::new(9, set_from(&[e]), None));
    assert_eq!(out.set, set_from(&[e]));
}

#[test]
fn bgpsec_filter_drops_keys() {
    let set = ExceptionSet::new(1);
    let mut poller = set.poller();
    let slurm = r#"{
      "slurmVersion": 1,
      "validationOutputFilters": {
        "prefixFilters": [],
        "bgpsecFilters": [ { "asn": 64502 } ]
      },
      "locallyAddedAssertions": {
        "prefixAssertions": [],
        "bgpsecAssertions": []
      }
    }"#;
    assert!(poller.absorb(0, 1, slurm.as_bytes()));

    let key = Payload::Key {
        ski: local_exceptions::payload::KeyId { hi: 1, lo: 2 },
        asn: 64502,
    };
    let other = Payload::Key {
        ski: local_exceptions::payload::KeyId { hi: 1, lo: 2 },
        asn: 64503,
    };
    let out = set.apply(PayloadUpdate::new(1, set_from(&[key, other]), None));
    assert_eq!(out.set, set_from(&[other]));
}

#[test]
fn bgpsec_assertion_injects_key() {
    let set = ExceptionSet::new(1);
    let mut poller = set.poller();
    let slurm = r#"{
      "slurmVersion": 1,
      "validationOutputFilters": {
        "prefixFilters": [],
        "bgpsecFilters": []
      },
      "locallyAddedAssertions": {
        "prefixAssertions": [],
        "bgpsecAssertions": [
          { "asn": 64496,
            "SKI": "AAECAwQFBgcICQoLDA0ODxAREhM",
            "routerPublicKey": "AAEC" }
        ]
      }
    }"#;
    assert!(poller.absorb(0, 1, slurm.as_bytes()));

    let expected = Payload::Key {
        ski: local_exceptions::payload::KeyId {
            hi: 0x000102030405060708090a0b0c0d0e0f,
            lo: 0x10111213,
        },
        asn: 64496,
    };
    let out = set.apply(PayloadUpdate::new(1, set_from(&[]), None));
    assert_eq!(out.set, set_from(&[expected]));
}

#[test]
fn v6_filter_covers_more_specifics() {
    let set = ExceptionSet::new(1);
    let mut poller = set.poller();
    let slurm = r#"{
      "slurmVersion": 1,
      "validationOutputFilters": {
        "prefixFilters": [ { "prefix": "2001:db8::/32" } ],
        "bgpsecFilters": []
      },
      "locallyAddedAssertions": {
        "prefixAssertions": [],
        "bgpsecAssertions": []
      }
    }"#;
    assert!(poller.absorb(0, 1, slurm.as_bytes()));

    let inside = Payload::Origin {
        prefix: PrefixPat { v4: false, addr: 0x20010db80001u128 << 80, len: 48 },
        max_len: 48,
        asn: 64500,
    };
    let outside = Payload::Origin {
        prefix: PrefixPat { v4: false, addr: 0x20010db9u128 << 96, len: 32 },
        max_len: 32,
        asn: 64500,
    };
    let out = set.apply(PayloadUpdate::new(1, set_from(&[inside, outside]), None));
    assert_eq!(out.set, set_from(&[outside]));
}
