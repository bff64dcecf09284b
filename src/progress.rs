//! The caller's stream of updates: live progress interleaved with the one
//! terminal update, biased so that progress that is ready goes first.
use vstd::prelude::*;
use crate::finish::{ComputeSnapshot, FailureStage, Terminal};

verus! {

/// One item of the caller's stream.
#[derive(Debug)]
pub enum ProgressUpdate<P> {
    InProgress(P),
    ExecutionComplete { compute_snapshots: Vec<ComputeSnapshot> },
    ExecutionFailed { stage: FailureStage, cause: String },
}

/// The stream item that carries a terminal update.
pub open spec fn update_of<P>(t: Terminal) -> ProgressUpdate<P> {
    match t {
        Terminal::ExecutionComplete { compute_snapshots } => ProgressUpdate::ExecutionComplete {
            compute_snapshots,
        },
        Terminal::ExecutionFailed { stage, cause } => ProgressUpdate::ExecutionFailed { stage, cause },
    }
}

/// Merges ready progress updates with the terminal update. Progress is kept
/// in arrival order; the terminal update goes out only once no progress is
/// waiting, and nothing goes out after it.
pub struct ProgressMerger<P> {
    pending: Vec<P>,
    terminal: Option<Terminal>,
    finished: bool,
}

/// The merger's state: waiting progress, the terminal update if ready, and
/// whether the terminal update has gone out.
pub open spec fn next_spec<P>(pending: Seq<P>, terminal: Option<Terminal>, finished: bool) -> (
    Seq<P>,
    Option<Terminal>,
    bool,
    Option<ProgressUpdate<P>>,
) {
    if finished {
        (pending, terminal, finished, None)
    } else if pending.len() > 0 {
        (pending.drop_first(), terminal, false, Some(ProgressUpdate::InProgress(pending[0])))
    } else if terminal is Some {
        (pending, None, true, Some(update_of(terminal.unwrap())))
    } else {
        (pending, terminal, false, None)
    }
}

/// The first `n` items the merger hands out when nothing new arrives.
pub open spec fn emissions<P>(
    pending: Seq<P>,
    terminal: Option<Terminal>,
    finished: bool,
    n: nat,
) -> Seq<Option<ProgressUpdate<P>>>
    decreases n,
{
    if n == 0 {
        Seq::empty()
    } else {
        let (p2, t2, f2, out) = next_spec(pending, terminal, finished);
        seq![out] + emissions(p2, t2, f2, (n - 1) as nat)
    }
}

impl<P> ProgressMerger<P> {
    pub closed spec fn pending(&self) -> Seq<P> {
        self.pending@
    }

    pub closed spec fn terminal(&self) -> Option<Terminal> {
        self.terminal
    }

    pub closed spec fn finished(&self) -> bool {
        self.finished
    }

    pub fn new() -> (r: ProgressMerger<P>)
        ensures
            r.pending() == Seq::<P>::empty(),
            r.terminal() is None,
            !r.finished(),
    {
        ProgressMerger { pending: Vec::new(), terminal: None, finished: false }
    }

    /// Whether the terminal update has been handed in.
    pub fn has_terminal(&self) -> (r: bool)
        ensures
            r == (self.terminal() is Some || self.finished()),
    {
        self.terminal.is_some() || self.finished
    }

    /// Whether the terminal update has gone out; the stream is then over.
    pub fn is_finished(&self) -> (r: bool)
        ensures
            r == self.finished(),
    {
        self.finished
    }

    /// A progress update became ready. After the terminal update has gone
    /// out, progress is dropped.
    pub fn push_progress(&mut self, p: P)
        ensures
            final(self).pending() == if old(self).finished() {
                old(self).pending()
            } else {
                old(self).pending().push(p)
            },
            final(self).terminal() == old(self).terminal(),
            final(self).finished() == old(self).finished(),
    {
        if !self.finished {
            self.pending.push(p);
        }
    }

    /// The terminal update became ready; there is exactly one.
    pub fn set_terminal(&mut self, t: Terminal)
        requires
            old(self).terminal() is None,
            !old(self).finished(),
        ensures
            final(self).pending() == old(self).pending(),
            final(self).terminal() == Some(t),
            !final(self).finished(),
    {
        self.terminal = Some(t);
    }

    /// The next item of the stream, if one is ready: waiting progress first,
    /// then the terminal update, then nothing.
    pub fn next(&mut self) -> (r: Option<ProgressUpdate<P>>)
        ensures
            (final(self).pending(), final(self).terminal(), final(self).finished(), r) == next_spec(
                old(self).pending(),
                old(self).terminal(),
                old(self).finished(),
            ),
    {
        if self.finished {
            None
        } else if self.pending.len() > 0 {
            let p = self.pending.remove(0);
            proof {
                assert(self.pending@ =~= old(self).pending@.drop_first());
            }
            Some(ProgressUpdate::InProgress(p))
        } else {
            match self.terminal.take() {
                Some(t) => {
                    self.finished = true;
                    Some(
                        match t {
                            Terminal::ExecutionComplete { compute_snapshots } =>
                                ProgressUpdate::ExecutionComplete { compute_snapshots },
                            Terminal::ExecutionFailed { stage, cause } =>
                                ProgressUpdate::ExecutionFailed { stage, cause },
                        },
                    )
                },
                None => None,
            }
        }
    }
}

/// Progress that was ready before the terminal update goes out first: from
/// any state that has not finished, the merger hands out every waiting
/// progress update in arrival order and only then the terminal update.
pub proof fn lemma_progress_before_terminal<P>(pending: Seq<P>, t: Terminal)
    ensures
        emissions(pending, Some(t), false, pending.len() + 1) == pending.map_values(
            |p: P| Some(ProgressUpdate::InProgress(p)),
        ).push(Some(update_of::<P>(t))),
    decreases pending.len(),
{
    let n = (pending.len() + 1) as nat;
    if pending.len() == 0 {
        assert(emissions(pending, None, true, 0) =~= Seq::<Option<ProgressUpdate<P>>>::empty());
        assert(emissions(pending, Some(t), false, n) =~= seq![Some(update_of::<P>(t))]);
        assert(pending.map_values(|p: P| Some(ProgressUpdate::InProgress(p))) =~= Seq::empty());
    } else {
        let rest = pending.drop_first();
        lemma_progress_before_terminal(rest, t);
        assert(pending.map_values(|p: P| Some(ProgressUpdate::InProgress(p))).push(
            Some(update_of::<P>(t)),
        ) =~= seq![Some(ProgressUpdate::InProgress(pending[0]))] + rest.map_values(
            |p: P| Some(ProgressUpdate::InProgress(p)),
        ).push(Some(update_of::<P>(t))));
    }
}

} // verus!
