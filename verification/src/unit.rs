//! The local-exceptions unit: configuration and the decision step of its
//! driving loop.
//!
//! The driving loop concurrently awaits the next update from the
//! upstream source and the next signal from the downstream control
//! channel, and reacts to whichever resolves first. The reaction to each
//! event is decided here; the surrounding program performs the awaited
//! operations and the publishing.

use vstd::prelude::*;
use crate::content::{Content, spec_apply_seq};
use crate::payload::PayloadUpdate;
use crate::set::ExceptionSet;

verus! {

/// A unit applying local exceptions from files.
pub struct LocalExceptions {
    /// The paths of the exception files, in application order.
    files: Vec<String>,
}

/// What awaiting the upstream source yielded.
pub enum SourceEvent {
    /// A new versioned payload update arrived.
    Update(PayloadUpdate),
    /// The source is gone for good: the unit shuts down cleanly.
    Gone,
    /// A transient failure: retry on the next iteration.
    Failed,
}

/// What awaiting the downstream control channel yielded.
pub enum ControlEvent {
    /// A terminal signal: the unit's termination is propagated upward.
    Terminal,
    /// Any non-terminal command: a no-op trigger to re-loop.
    Command,
}

/// Whichever of the two awaited sources resolved first.
pub enum UnitEvent {
    /// The upstream source resolved.
    Source(SourceEvent),
    /// The control channel resolved.
    Control(ControlEvent),
}

/// What the driving loop does in reaction to one event.
pub enum StepOutcome {
    /// Publish this transformed update downstream, then loop.
    Publish(PayloadUpdate),
    /// Exit the loop: clean shutdown.
    Finished,
    /// Exit the loop: termination propagated upward.
    Terminated,
    /// Re-arm both sources and loop.
    Continue,
}

/// Whether an event's carried update is well-formed.
pub open spec fn event_wf(event: UnitEvent) -> bool {
    match event {
        UnitEvent::Source(SourceEvent::Update(u)) => u.wf(),
        _ => true,
    }
}

impl LocalExceptions {
    /// The configured file paths.
    pub closed spec fn paths(&self) -> Seq<String> {
        self.files@
    }

    /// Builds the unit configuration from the ordered file-path list.
    /// The list cannot be changed afterwards; a new file set requires a
    /// new unit.
    pub fn new(files: Vec<String>) -> (u: LocalExceptions)
        ensures
            u.paths() == files@,
    {
        LocalExceptions { files }
    }

    /// The number of configured files.
    pub fn file_count(&self) -> (n: usize)
        ensures
            n == self.paths().len(),
    {
        self.files.len()
    }

    /// The path of file `i`.
    pub fn path(&self, i: usize) -> (p: &String)
        requires
            i < self.paths().len(),
        ensures
            p == self.paths()[i as int],
    {
        &self.files[i]
    }

    /// The exception set for this unit: one slot per configured file.
    pub fn exception_set(&self) -> (s: ExceptionSet)
        ensures
            s.file_count() == self.paths().len(),
    {
        ExceptionSet::new(self.files.len())
    }
}

/// Decides one iteration of the driving loop: a new update is
/// transformed through the exception set and published; a gone source
/// ends the loop cleanly; a terminal control signal propagates
/// termination upward; everything else re-arms the loop.
pub fn step(set: &ExceptionSet, event: UnitEvent) -> (r: StepOutcome)
    requires
        event_wf(event),
    ensures
        (event matches UnitEvent::Source(SourceEvent::Update(u)) ==> (r matches
            StepOutcome::Publish(out) && out.wf() && out.serial == u.serial && out.info is None
            && (exists|cs: Seq<Content>|
            cs.len() == set.file_count() && out.set.contents() == #[trigger] spec_apply_seq(
                cs,
                u.set.contents(),
            )))),
        (event matches UnitEvent::Source(SourceEvent::Gone) ==> r is Finished),
        (event matches UnitEvent::Source(SourceEvent::Failed) ==> r is Continue),
        (event matches UnitEvent::Control(ControlEvent::Terminal) ==> r is Terminated),
        (event matches UnitEvent::Control(ControlEvent::Command) ==> r is Continue),
{
    match event {
        UnitEvent::Source(SourceEvent::Update(u)) => StepOutcome::Publish(set.apply(u)),
        UnitEvent::Source(SourceEvent::Gone) => StepOutcome::Finished,
        UnitEvent::Source(SourceEvent::Failed) => StepOutcome::Continue,
        UnitEvent::Control(ControlEvent::Terminal) => StepOutcome::Terminated,
        UnitEvent::Control(ControlEvent::Command) => StepOutcome::Continue,
    }
}

} // verus!
