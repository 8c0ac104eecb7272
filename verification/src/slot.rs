//! The atomically swappable content cell and the liveness token.
//!
//! A slot holds the current policy content of one file. Any number of
//! readers load it without blocking while one writer publishes
//! replacements; a reader observes either the whole old value or the
//! whole new one, never a mixture. Which value a load returns depends on
//! what other threads published meanwhile, so the contracts here promise
//! nothing about it; every function that consumes a loaded value is
//! verified for every value it may be handed.

use vstd::prelude::*;
use std::sync::{Arc, Weak};
use arc_swap::ArcSwap;
use crate::content::Content;

verus! {

/// One atomically swappable holder of policy content. Cloned handles
/// share the same cell.
#[verifier::external_body]
pub struct Slot {
    cell: Arc<ArcSwap<Content>>,
}

impl Slot {
    /// Relies on arc_swap::ArcSwap::from_pointee to create a cell that
    /// publishes the given initial content.
    #[verifier::external_body]
    pub(crate) fn new(initial: Content) -> Slot {
        Slot { cell: Arc::new(ArcSwap::from_pointee(initial)) }
    }

    /// Relies on std::sync::Arc::clone: the new handle shares this
    /// handle's cell.
    #[verifier::external_body]
    pub(crate) fn handle(&self) -> Slot {
        Slot { cell: Arc::clone(&self.cell) }
    }

    /// Relies on arc_swap::ArcSwap::load_full: it returns a complete
    /// content value that was published to the cell (the initial one, or
    /// one a writer stored), never a torn one, and never blocks. Which of
    /// them comes back depends on concurrent stores, so nothing more is
    /// promised here.
    #[verifier::external_body]
    pub(crate) fn load(&self) -> Content {
        Content::clone(&self.cell.load_full())
    }

    /// Relies on arc_swap::ArcSwap::store: it atomically publishes the
    /// given content, which following loads of the cell return.
    #[verifier::external_body]
    pub(crate) fn store(&self, content: Content) {
        self.cell.store(Arc::new(content));
    }
}

/// The strongly owned side of the liveness marker. Dropping the owner is
/// what tells the poller to stop.
#[verifier::external_body]
pub struct AliveToken {
    inner: Arc<()>,
}

/// The observing side of the liveness marker: it does not keep the
/// marker alive.
#[verifier::external_body]
pub struct AliveWatch {
    inner: Weak<()>,
}

impl AliveToken {
    /// Relies on std::sync::Arc::new to create the owned marker.
    #[verifier::external_body]
    pub(crate) fn new() -> AliveToken {
        AliveToken { inner: Arc::new(()) }
    }

    /// Relies on std::sync::Arc::downgrade: the watch observes this
    /// token without keeping it alive.
    #[verifier::external_body]
    pub(crate) fn watch(&self) -> AliveWatch {
        AliveWatch { inner: Arc::downgrade(&self.inner) }
    }
}

impl AliveWatch {
    /// Relies on std::sync::Weak::upgrade: it returns a value only while
    /// some strong owner of the marker remains, and `None` once the last
    /// owner was dropped. The answer depends on when the owner is
    /// dropped, so nothing is promised of it.
    #[verifier::external_body]
    pub(crate) fn is_alive(&self) -> bool {
        self.inner.upgrade().is_some()
    }
}

} // verus!
