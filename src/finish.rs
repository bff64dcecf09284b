//! End of an execution: once every unit has joined, write the watermark to
//! the checkpoint store, take the store back, optionally upload a snapshot,
//! and settle the terminal update. The outside work (writing, reclaiming,
//! uploading) is done by the caller; this module decides each next step.
use vstd::prelude::*;
use crate::watermark::Timestamp;

verus! {

/// What the join of an execution produced.
#[derive(Debug)]
pub struct ComputeResult {
    /// The maximum input event time processed by the query.
    pub max_input_timestamp: Timestamp,
    /// The hash of the executed plan.
    pub plan_hash: Vec<u8>,
}

/// Metadata of an uploaded snapshot.
#[derive(Debug)]
pub struct ComputeSnapshot {
    /// Where the snapshot was stored.
    pub path: String,
    /// The watermark stored with it.
    pub max_event_time: Timestamp,
}

/// The step at which an execution failed.
#[derive(Clone, Copy, Debug, PartialEq, Eq, Structural)]
pub enum FailureStage {
    /// Joining the compute tasks.
    Join,
    /// Writing the maximum event time to the checkpoint store.
    WatermarkWrite,
}

/// The single update that ends an execution's progress stream.
#[derive(Debug)]
pub enum Terminal {
    ExecutionComplete { compute_snapshots: Vec<ComputeSnapshot> },
    ExecutionFailed { stage: FailureStage, cause: String },
}

/// What the end of an execution has to do besides joining.
#[derive(Clone, Copy, Debug, PartialEq, Eq, Structural)]
pub struct FinishConfig {
    /// A checkpoint store is shared with the operations.
    pub has_store: bool,
    /// A snapshot configuration was supplied.
    pub snapshot_requested: bool,
}

#[derive(Clone, Copy, Debug, PartialEq, Eq, Structural)]
pub enum FinishPhase {
    Joining,
    WritingWatermark,
    Reclaiming,
    Uploading,
    Done,
}

/// What the caller reports back after doing the step it was asked for.
#[derive(Debug)]
pub enum FinishEvent {
    Joined(Result<ComputeResult, String>),
    WatermarkWritten(Result<(), String>),
    StoreReclaimed(bool),
    Uploaded(Result<ComputeSnapshot, String>),
}

/// The next thing the caller must do.
#[derive(Debug)]
pub enum FinishAction {
    /// Write this maximum event time into the checkpoint store.
    WriteWatermark(Timestamp),
    /// Take sole ownership of the checkpoint store back.
    ReclaimStore,
    /// Upload the checkpoint store as a snapshot for this result. Whatever
    /// keeps the upload from happening, a missing storage directory
    /// included, is reported back as a failed upload.
    Upload(ComputeResult),
    /// Emit the terminal update; the execution is over.
    Emit(Terminal),
    /// The store outlived the join: an invariant of the orchestration broke,
    /// and the process must abort.
    Abort,
}

/// The coordinator of an execution's end.
#[derive(Debug)]
pub struct Finisher {
    pub config: FinishConfig,
    pub phase: FinishPhase,
    /// The join's result, held while the store is written and reclaimed.
    pub result: Option<ComputeResult>,
}

/// An emitted successful terminal update with these snapshots.
pub open spec fn emits_complete(a: FinishAction, snapshots: Seq<ComputeSnapshot>) -> bool {
    match a {
        FinishAction::Emit(Terminal::ExecutionComplete { compute_snapshots }) => compute_snapshots@
            == snapshots,
        _ => false,
    }
}

/// An emitted failure at `stage` with `cause`.
pub open spec fn emits_failed(a: FinishAction, stage: FailureStage, cause: String) -> bool {
    a == FinishAction::Emit(Terminal::ExecutionFailed { stage, cause })
}

impl Finisher {
    pub open spec fn wf(&self) -> bool {
        (self.phase is WritingWatermark || self.phase is Reclaiming) <==> self.result is Some
    }

    /// `event` is the report of the step this coordinator asked for last.
    pub open spec fn accepts_spec(&self, event: FinishEvent) -> bool {
        match (self.phase, event) {
            (FinishPhase::Joining, FinishEvent::Joined(_)) => true,
            (FinishPhase::WritingWatermark, FinishEvent::WatermarkWritten(_)) => true,
            (FinishPhase::Reclaiming, FinishEvent::StoreReclaimed(_)) => true,
            (FinishPhase::Uploading, FinishEvent::Uploaded(_)) => true,
            _ => false,
        }
    }

    /// After the store step, with the join's result `r`: upload when a
    /// snapshot was asked for, else finish with no snapshot.
    pub open spec fn after_store(config: FinishConfig, r: ComputeResult, next: Finisher, a: FinishAction) -> bool {
        if config.snapshot_requested {
            next.phase == FinishPhase::Uploading && a == FinishAction::Upload(r)
        } else {
            next.phase == FinishPhase::Done && emits_complete(a, Seq::empty())
        }
    }

    /// One step of the coordinator: from `self`, on `event`, to `next`, asking for `a`.
    pub open spec fn step_spec(&self, event: FinishEvent, next: Finisher, a: FinishAction) -> bool {
        &&& next.config == self.config
        &&& next.wf()
        &&& match event {
            FinishEvent::Joined(Err(e)) => next.phase == FinishPhase::Done && emits_failed(
                a,
                FailureStage::Join,
                e,
            ),
            FinishEvent::Joined(Ok(r)) => if self.config.has_store {
                &&& next.phase == FinishPhase::WritingWatermark
                &&& next.result == Some(r)
                &&& a == FinishAction::WriteWatermark(r.max_input_timestamp)
            } else {
                Self::after_store(self.config, r, next, a)
            },
            FinishEvent::WatermarkWritten(Err(e)) => next.phase == FinishPhase::Done && emits_failed(
                a,
                FailureStage::WatermarkWrite,
                e,
            ),
            FinishEvent::WatermarkWritten(Ok(())) => {
                &&& next.phase == FinishPhase::Reclaiming
                &&& next.result == self.result
                &&& a == FinishAction::ReclaimStore
            },
            FinishEvent::StoreReclaimed(false) => next.phase == FinishPhase::Done && a
                == FinishAction::Abort,
            FinishEvent::StoreReclaimed(true) => Self::after_store(
                self.config,
                self.result.unwrap(),
                next,
                a,
            ),
            FinishEvent::Uploaded(Ok(s)) => next.phase == FinishPhase::Done && emits_complete(
                a,
                seq![s],
            ),
            FinishEvent::Uploaded(Err(_)) => next.phase == FinishPhase::Done && emits_complete(
                a,
                Seq::empty(),
            ),
        }
    }

    /// A coordinator waiting for the join.
    pub fn new(config: FinishConfig) -> (r: Finisher)
        ensures
            r.config == config,
            r.phase == FinishPhase::Joining,
            r.wf(),
    {
        Finisher { config, phase: FinishPhase::Joining, result: None }
    }

    /// Whether `event` reports the step that was asked for last.
    pub fn accepts(&self, event: &FinishEvent) -> (r: bool)
        ensures
            r == self.accepts_spec(*event),
    {
        match (self.phase, event) {
            (FinishPhase::Joining, FinishEvent::Joined(_)) => true,
            (FinishPhase::WritingWatermark, FinishEvent::WatermarkWritten(_)) => true,
            (FinishPhase::Reclaiming, FinishEvent::StoreReclaimed(_)) => true,
            (FinishPhase::Uploading, FinishEvent::Uploaded(_)) => true,
            _ => false,
        }
    }

    fn finish_store(&mut self, r: ComputeResult) -> (a: FinishAction)
        ensures
            Self::after_store(old(self).config, r, *final(self), a),
            final(self).config == old(self).config,
            final(self).result is None,
    {
        self.result = None;
        if self.config.snapshot_requested {
            self.phase = FinishPhase::Uploading;
            FinishAction::Upload(r)
        } else {
            self.phase = FinishPhase::Done;
            FinishAction::Emit(Terminal::ExecutionComplete { compute_snapshots: Vec::new() })
        }
    }

    /// Takes the report of the last step and says what to do next. A failed
    /// upload is not fatal: the execution still completes, with no snapshot.
    pub fn step(&mut self, event: FinishEvent) -> (a: FinishAction)
        requires
            old(self).wf(),
            old(self).accepts_spec(event),
        ensures
            old(self).step_spec(event, *final(self), a),
    {
        match event {
            FinishEvent::Joined(Err(e)) => {
                self.phase = FinishPhase::Done;
                FinishAction::Emit(Terminal::ExecutionFailed { stage: FailureStage::Join, cause: e })
            },
            FinishEvent::Joined(Ok(r)) => {
                if self.config.has_store {
                    let t = r.max_input_timestamp;
                    self.phase = FinishPhase::WritingWatermark;
                    self.result = Some(r);
                    FinishAction::WriteWatermark(t)
                } else {
                    self.finish_store(r)
                }
            },
            FinishEvent::WatermarkWritten(Err(e)) => {
                self.phase = FinishPhase::Done;
                self.result = None;
                FinishAction::Emit(
                    Terminal::ExecutionFailed { stage: FailureStage::WatermarkWrite, cause: e },
                )
            },
            FinishEvent::WatermarkWritten(Ok(())) => {
                self.phase = FinishPhase::Reclaiming;
                FinishAction::ReclaimStore
            },
            FinishEvent::StoreReclaimed(reclaimed) => {
                let held = self.result.take();
                match held {
                    Some(r) => {
                        if reclaimed {
                            self.finish_store(r)
                        } else {
                            self.phase = FinishPhase::Done;
                            FinishAction::Abort
                        }
                    },
                    None => {
                        self.phase = FinishPhase::Done;
                        FinishAction::Abort
                    },
                }
            },
            FinishEvent::Uploaded(Ok(s)) => {
                self.phase = FinishPhase::Done;
                let mut snapshots: Vec<ComputeSnapshot> = Vec::new();
                snapshots.push(s);
                proof {
                    assert(snapshots@ =~= seq![s]);
                }
                FinishAction::Emit(Terminal::ExecutionComplete { compute_snapshots: snapshots })
            },
            FinishEvent::Uploaded(Err(_)) => {
                self.phase = FinishPhase::Done;
                FinishAction::Emit(Terminal::ExecutionComplete { compute_snapshots: Vec::new() })
            },
        }
    }
}

} // verus!

verus! {

/// A failed upload never fails the execution. With a snapshot configuration
/// whose upload fails with `e`, a run whose join succeeds, and whose
/// watermark write and reclaim succeed where a store is held, ends in
/// `ExecutionComplete` with no snapshot: `last` is the terminal action, the
/// upload's outcome where an upload was asked for, else the action before.
pub proof fn lemma_upload_failure_not_fatal(
    f0: Finisher,
    r: ComputeResult,
    e: String,
    f1: Finisher,
    a1: FinishAction,
    f2: Finisher,
    a2: FinishAction,
    f3: Finisher,
    a3: FinishAction,
    f4: Finisher,
    last: FinishAction,
)
    requires
        f0.phase == FinishPhase::Joining,
        f0.config.snapshot_requested,
        f0.step_spec(FinishEvent::Joined(Ok(r)), f1, a1),
        f0.config.has_store ==> f1.step_spec(FinishEvent::WatermarkWritten(Ok(())), f2, a2)
            && f2.step_spec(FinishEvent::StoreReclaimed(true), f3, a3),
        !f0.config.has_store ==> f3 == f1 && a3 == a1,
        f3.phase == FinishPhase::Uploading ==> f3.step_spec(
            FinishEvent::Uploaded(Err(e)),
            f4,
            last,
        ),
        f3.phase != FinishPhase::Uploading ==> last == a3,
    ensures
        emits_complete(last, Seq::empty()),
{
}

} // verus!
