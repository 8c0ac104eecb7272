//! The exception set and its poller state.
//!
//! An [`ExceptionSet`] owns one slot per configured exception file and
//! applies every slot's current content to incoming updates, in file
//! order. A [`Poller`] holds shared handles to the same slots together
//! with each file's last recorded modification time; a background thread
//! drives it once per poll interval and stops when the owning set is
//! gone.

use vstd::prelude::*;
use crate::content::{Content, spec_apply1, spec_apply_seq, lemma_apply_seq_push};
use crate::payload::{PayloadSet, PayloadUpdate};
use crate::slot::{AliveToken, AliveWatch, Slot};
use crate::slurm::{content_of, parse_slurm, slurm_parses};

verus! {

/// The aggregate owning all content slots for a configured list of
/// exception files. Slot order is file-list order, which is application
/// order. Dropping the set is what lets its poller terminate.
pub struct ExceptionSet {
    /// The content slots, one per file, in configured order.
    slots: Vec<Slot>,
    /// The liveness marker the poller watches.
    alive: AliveToken,
}

impl ExceptionSet {
    /// The number of configured files.
    pub closed spec fn file_count(&self) -> nat {
        self.slots@.len()
    }

    /// Creates a set with one slot per configured file, each starting
    /// out with the default empty content.
    pub fn new(n_files: usize) -> (s: ExceptionSet)
        ensures
            s.file_count() == n_files,
    {
        let mut slots: Vec<Slot> = Vec::new();
        for i in 0..n_files
            invariant
                slots@.len() == i,
        {
            slots.push(Slot::new(Content::empty()));
        }
        ExceptionSet { slots, alive: AliveToken::new() }
    }

    /// The poller state for this set: shared handles to every slot, no
    /// recorded modification times yet, and a watch on the liveness
    /// marker.
    pub fn poller(&self) -> (p: Poller)
        ensures
            p.wf(),
            p.file_count() == self.file_count(),
            forall|j: int| 0 <= j < p.recorded().len() ==> p.recorded()[j] is None,
    {
        let n = self.slots.len();
        let mut slots: Vec<Slot> = Vec::new();
        let mut mtimes: Vec<Option<u64>> = Vec::new();
        for i in 0..n
            invariant
                n == self.slots@.len(),
                slots@.len() == i,
                mtimes@.len() == i,
                forall|j: int| 0 <= j < i ==> mtimes@[j] is None,
        {
            slots.push(self.slots[i].handle());
            mtimes.push(None);
        }
        Poller { slots, mtimes, watch: self.alive.watch() }
    }

    /// Applies every slot's current content to the update, in configured
    /// file order, and rebuilds the update with the original serial
    /// number, the transformed set, and the trailing metadata reset.
    ///
    /// Each slot is read with one non-blocking atomic load, so the
    /// result reflects some content value per slot; concurrent reloads
    /// decide which one.
    pub fn apply(&self, update: PayloadUpdate) -> (r: PayloadUpdate)
        requires
            update.wf(),
        ensures
            r.wf(),
            r.serial == update.serial,
            r.info is None,
            exists|cs: Seq<Content>|
                cs.len() == self.file_count() && r.set.contents() == #[trigger] spec_apply_seq(
                    cs,
                    update.set.contents(),
                ),
    {
        let serial = update.serial();
        let mut set = update.into_set();
        let ghost s0 = set.contents();
        let ghost mut cs: Seq<Content> = Seq::empty();
        let n = self.slots.len();
        for i in 0..n
            invariant
                n == self.slots@.len(),
                set.wf(),
                cs.len() == i,
                set.contents() == spec_apply_seq(cs, s0),
        {
            let c = self.slots[i].load();
            let next = c.apply(&set);
            proof {
                lemma_apply_seq_push(cs, c, s0);
                cs = cs.push(c);
            }
            set = next;
        }
        let r = PayloadUpdate::new(serial, set, None);
        proof {
            assert(cs.len() == self.file_count() && r.set.contents() == spec_apply_seq(cs, s0));
        }
        r
    }
}

/// The state a poll cycle works on: shared handles to the set's slots
/// and, per file, the modification time recorded at the last successful
/// reload.
pub struct Poller {
    /// Shared handles to the set's slots, in configured order.
    slots: Vec<Slot>,
    /// Per file, the modification time recorded when its content was
    /// last published; `None` until the first successful reload.
    mtimes: Vec<Option<u64>>,
    /// The watch on the owning set's liveness marker.
    watch: AliveWatch,
}

impl Poller {
    /// The number of watched files.
    pub closed spec fn file_count(&self) -> nat {
        self.slots@.len()
    }

    /// The recorded modification times, one per file.
    pub closed spec fn recorded(&self) -> Seq<Option<u64>> {
        self.mtimes@
    }

    /// One recorded time per watched file.
    pub open spec fn wf(&self) -> bool {
        self.recorded().len() == self.file_count()
    }

    /// The number of watched files.
    pub fn len(&self) -> (n: usize)
        ensures
            n == self.file_count(),
    {
        self.slots.len()
    }

    /// Whether the owning exception set is still alive. The driving
    /// thread stops its loop once this is false; that happens within one
    /// poll interval of the set being dropped.
    pub fn alive(&self) -> bool {
        self.watch.is_alive()
    }

    /// Whether file `i` must be re-read: on first observation always,
    /// and afterwards on any modification-time change in either
    /// direction. Only an unchanged recorded time skips the reload.
    pub fn needs_reload(&self, i: usize, observed: u64) -> (r: bool)
        requires
            self.wf(),
            i < self.file_count(),
        ensures
            r == (self.recorded()[i as int] != Some(observed)),
    {
        match self.mtimes[i] {
            None => true,
            Some(t) => t != observed,
        }
    }

    /// Publishes freshly parsed content for file `i` and records the
    /// modification time observed when its bytes were read, so that an
    /// unchanged file is not re-read next cycle.
    pub fn publish(&mut self, i: usize, observed: u64, content: Content)
        requires
            old(self).wf(),
            i < old(self).file_count(),
        ensures
            final(self).wf(),
            final(self).file_count() == old(self).file_count(),
            final(self).recorded() == old(self).recorded().update(i as int, Some(observed)),
    {
        self.slots[i].store(content);
        self.mtimes[i] = Some(observed);
    }

    /// Absorbs one observed state of file `i`: its modification time as
    /// read from the file system, and the bytes read from it. Exactly
    /// when the bytes parse as a SLURM document, the new content is
    /// published to the slot and the time is recorded; on a parse
    /// failure nothing changes, so the recorded time stays behind and
    /// the next cycle retries the file.
    pub fn absorb(&mut self, i: usize, observed: u64, bytes: &[u8]) -> (loaded: bool)
        requires
            old(self).wf(),
            i < old(self).file_count(),
        ensures
            loaded == slurm_parses(bytes@),
            final(self).wf(),
            final(self).file_count() == old(self).file_count(),
            loaded ==> final(self).recorded() == old(self).recorded().update(
                i as int,
                Some(observed),
            ),
            !loaded ==> final(self).recorded() == old(self).recorded(),
    {
        match parse_slurm(bytes) {
            Some(file) => {
                let content = content_of(&file);
                self.publish(i, observed, content);
                true
            },
            None => false,
        }
    }
}

} // verus!
