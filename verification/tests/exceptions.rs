//! Behavioral tests for the local-exceptions overlay.

use local_exceptions::content::Content;
use local_exceptions::payload::{Pack, PackBuilder, Payload, PayloadSet, PrefixPat};
use local_exceptions::rules::{Filters, PrefixRule};
use local_exceptions::set::ExceptionSet;
use local_exceptions::unit::{
    step, ControlEvent, LocalExceptions, SourceEvent, StepOutcome, UnitEvent,
};
use local_exceptions::payload::PayloadUpdate;
use rand::Rng;

fn p(n: u32) -> Payload {
    Payload::Origin {
        prefix: PrefixPat { v4: true, addr: (n as u128) << 96, len: 32 },
        max_len: 32,
        asn: n,
    }
}

fn origin(addr: u32, len: u8, asn: u32) -> Payload {
    Payload::Origin {
        prefix: PrefixPat { v4: true, addr: (addr as u128) << 96, len },
        max_len: len,
        asn,
    }
}

fn set_of(entries: &[Payload]) -> PayloadSet {
    let mut b = PackBuilder::empty();
    for e in entries {
        b.insert_unchecked(*e);
    }
    PayloadSet::from_pack(&b.finalize())
}

fn pack_of(entries: &[Payload]) -> Pack {
    let mut b = PackBuilder::empty();
    for e in entries {
        b.insert_unchecked(*e);
    }
    b.finalize()
}

fn rule_for(e: Payload) -> PrefixRule {
    match e {
        Payload::Origin { prefix, asn, .. } => {
            PrefixRule { prefix: Some(prefix), asn: Some(asn) }
        }
        _ => panic!("not an origin"),
    }
}

fn random_pack<T: Rng>(rng: &mut T, len: usize) -> Pack {
    let mut res = PackBuilder::empty();
    for _ in 0..len {
        res.insert_unchecked(p(rng.gen()))
    }
    res.finalize()
}

#[test]
fn apply_content() {
    let mut rng = rand_pcg::Pcg32::new(0xcafef00dd15ea5e5, 0xa02bdbf7bb3c0a7);

    // First, let's make a data set.
    let s1 = PayloadSet::from_pack(&random_pack(&mut rng, 100));

    // Now, a pack that we first insert and then remove again via
    // local exceptions.
    let s2 = PayloadSet::from_pack(&random_pack(&mut rng, 10));

    // And a pack which is what we are going to insert via local
    // exceptions.
    let p3 = random_pack(&mut rng, 15);

    // Now we can make the input and output sets.
    let input = s1.merge(&s2);
    let output = s1.merge(&PayloadSet::from_pack(&p3));

    // Time to make the content.
    let mut prefix_rules = Vec::new();
    for i in 0..s2.len() {
        prefix_rules.push(rule_for(s2.get(i)));
    }
    let content = Content::new(Filters { prefix: prefix_rules, bgpsec: Vec::new() }, p3);

    assert_eq!(content.apply(&input), output);
}

#[test]
fn scenario_filter_and_assert() {
    // S1 = {A, B, C}, a filter matching only B, assertions {D}:
    // the result is {A, C, D}.
    let (a, b, c, d) = (p(1), p(2), p(3), p(4));
    let s1 = set_of(&[a, b, c]);
    let content = Content::new(
        Filters { prefix: vec![rule_for(b)], bgpsec: Vec::new() },
        pack_of(&[d]),
    );
    assert_eq!(content.apply(&s1), set_of(&[a, c, d]));
}

#[test]
fn scenario_assertion_restores_filtered_entry() {
    // Same input, but the assertion set is {B}: the filter would drop B,
    // the assertion puts it back, so the result is {A, B, C}.
    let (a, b, c) = (p(1), p(2), p(3));
    let s1 = set_of(&[a, b, c]);
    let content = Content::new(
        Filters { prefix: vec![rule_for(b)], bgpsec: Vec::new() },
        pack_of(&[b]),
    );
    assert_eq!(content.apply(&s1), set_of(&[a, b, c]));
}

#[test]
fn filter_first_differs_from_assert_first() {
    // Filtering first then asserting keeps the asserted entry; merging
    // the assertions first and filtering afterwards would lose it.
    let b = p(2);
    let s1 = set_of(&[p(1), b]);
    let content = Content::new(
        Filters { prefix: vec![rule_for(b)], bgpsec: Vec::new() },
        pack_of(&[b]),
    );
    let filtered_last = Content::new(
        Filters { prefix: vec![rule_for(b)], bgpsec: Vec::new() },
        Pack::empty(),
    )
    .apply(&s1.merge(&set_of(&[b])));
    assert_eq!(content.apply(&s1), set_of(&[p(1), b]));
    assert_eq!(filtered_last, set_of(&[p(1)]));
    assert_ne!(content.apply(&s1), filtered_last);
}

#[test]
fn apply_twice_is_apply_once() {
    let (a, b, d) = (p(1), p(2), p(4));
    let s1 = set_of(&[a, b]);
    let content = Content::new(
        Filters { prefix: vec![rule_for(b)], bgpsec: Vec::new() },
        pack_of(&[d]),
    );
    let once = content.apply(&s1);
    let twice = content.apply(&once);
    assert_eq!(once, twice);
}

#[test]
fn covers_drops_more_specific_prefixes() {
    // A /8 filter with a wildcard AS drops every more specific origin.
    let wide = PrefixPat { v4: true, addr: (0x0A000000u32 as u128) << 96, len: 8 };
    let inside = origin(0x0A010200, 24, 64500);
    let outside = origin(0x0B010200, 24, 64500);
    let content = Content::new(
        Filters { prefix: vec![PrefixRule { prefix: Some(wide), asn: None }], bgpsec: Vec::new() },
        Pack::empty(),
    );
    let out = content.apply(&set_of(&[inside, outside]));
    assert_eq!(out, set_of(&[outside]));
}

#[test]
fn empty_rule_drops_nothing() {
    // A rule with every field wildcarded matches nothing at all.
    let s = set_of(&[p(1), p(2)]);
    let content = Content::new(
        Filters { prefix: vec![PrefixRule { prefix: None, asn: None }], bgpsec: Vec::new() },
        Pack::empty(),
    );
    assert_eq!(content.apply(&s), s);
}

#[test]
fn later_file_wins() {
    // One file asserts an entry, the other filters it. When the
    // asserting file comes first, the later filter removes the entry;
    // when it comes last, the entry survives.
    let x = p(9);
    let asserting = || Content::new(Filters { prefix: Vec::new(), bgpsec: Vec::new() }, pack_of(&[x]));
    let filtering = || Content::new(
        Filters { prefix: vec![rule_for(x)], bgpsec: Vec::new() },
        Pack::empty(),
    );

    let set = ExceptionSet::new(2);
    let mut poller = set.poller();
    poller.publish(0, 1, asserting());
    poller.publish(1, 1, filtering());
    let out = set.apply(PayloadUpdate::new(1, set_of(&[]), None));
    assert_eq!(out.set, set_of(&[]));

    let set = ExceptionSet::new(2);
    let mut poller = set.poller();
    poller.publish(0, 1, filtering());
    poller.publish(1, 1, asserting());
    let out = set.apply(PayloadUpdate::new(1, set_of(&[]), None));
    assert_eq!(out.set, set_of(&[x]));
}

#[test]
fn apply_resets_metadata_and_keeps_serial() {
    let set = ExceptionSet::new(0);
    let input = PayloadUpdate::new(42, set_of(&[p(1)]), Some(7));
    let out = set.apply(input);
    assert_eq!(out.serial, 42);
    assert_eq!(out.info, None);
    assert_eq!(out.set, set_of(&[p(1)]));
}

#[test]
fn step_reacts_per_event() {
    let set = ExceptionSet::new(0);
    let update = PayloadUpdate::new(5, set_of(&[p(1)]), Some(1));
    match step(&set, UnitEvent::Source(SourceEvent::Update(update))) {
        StepOutcome::Publish(out) => {
            assert_eq!(out.serial, 5);
            assert_eq!(out.info, None);
            assert_eq!(out.set, set_of(&[p(1)]));
        }
        _ => panic!("update must be published"),
    }
    assert!(matches!(
        step(&set, UnitEvent::Source(SourceEvent::Gone)),
        StepOutcome::Finished
    ));
    assert!(matches!(
        step(&set, UnitEvent::Source(SourceEvent::Failed)),
        StepOutcome::Continue
    ));
    assert!(matches!(
        step(&set, UnitEvent::Control(ControlEvent::Command)),
        StepOutcome::Continue
    ));
    assert!(matches!(
        step(&set, UnitEvent::Control(ControlEvent::Terminal)),
        StepOutcome::Terminated
    ));
}

#[test]
fn unit_configuration_sizes_the_set() {
    let unit = LocalExceptions::new(vec![String::from("a.json"), String::from("b.json")]);
    assert_eq!(unit.file_count(), 2);
    assert_eq!(unit.path(0).as_str(), "a.json");
    let set = unit.exception_set();
    let out = set.apply(PayloadUpdate::new(1, set_of(&[p(1)]), None));
    assert_eq!(out.set, set_of(&[p(1)]));
}

#[test]
fn poller_stops_after_set_is_dropped() {
    let set = ExceptionSet::new(1);
    let poller = set.poller();
    assert!(poller.alive());
    drop(set);
    assert!(!poller.alive());
}

#[test]
fn apply_same_update_twice_agrees() {
    // With no store between the two calls, applying the same exception
    // set to the same update twice yields identical output.
    let set = ExceptionSet::new(2);
    let mut poller = set.poller();
    poller.publish(
        0,
        1,
        Content::new(Filters { prefix: vec![rule_for(p(2))], bgpsec: Vec::new() }, pack_of(&[p(4)])),
    );
    poller.publish(
        1,
        1,
        Content::new(Filters { prefix: Vec::new(), bgpsec: Vec::new() }, pack_of(&[p(5)])),
    );
    let first = set.apply(PayloadUpdate::new(8, set_of(&[p(1), p(2)]), None));
    let second = set.apply(PayloadUpdate::new(8, set_of(&[p(1), p(2)]), None));
    assert_eq!(first.set, second.set);
    assert_eq!(first.serial, second.serial);
    assert_eq!(first.set, set_of(&[p(1), p(4), p(5)]));
}
