//! Task accounting: which concurrent units an execution runs, and the join
//! that waits for all of them and surfaces the first failure.
use vstd::prelude::*;

verus! {

/// One concurrently running unit of an execution.
#[derive(Clone, Copy, Debug, PartialEq, Eq, Structural)]
pub enum TaskLabel {
    /// The terminal output writer.
    Output,
    /// The operation at `index` of the plan.
    Operation { index: usize },
    /// The input prefetch helper.
    Prefetch,
}

/// How a unit failed.
#[derive(Clone, Debug)]
pub enum TaskFailure {
    /// The unit returned an error.
    Error(String),
    /// The unit panicked or was aborted.
    Panic(String),
}

/// Where a join stands.
#[derive(Clone, Debug)]
pub enum JoinStatus {
    /// Some units are still running and none has failed.
    Waiting,
    /// Every unit finished successfully.
    Completed,
    /// A unit failed; the join holds the first failure observed.
    Failed,
}

/// The units of an execution in the order they are spawned: the output
/// writer, then the operations from the last to the first, then the
/// prefetcher if enabled.
pub open spec fn task_plan_spec(num_operations: nat, prefetch: bool) -> Seq<TaskLabel> {
    seq![TaskLabel::Output] + Seq::new(
        num_operations,
        |k: int| TaskLabel::Operation { index: (num_operations - 1 - k) as usize },
    ) + if prefetch {
        seq![TaskLabel::Prefetch]
    } else {
        Seq::<TaskLabel>::empty()
    }
}

/// Lists the units that an execution of `num_operations` operations runs.
pub fn task_plan(num_operations: usize, prefetch: bool) -> (r: Vec<TaskLabel>)
    ensures
        r@ == task_plan_spec(num_operations as nat, prefetch),
        r@.len() == num_operations + 1 + if prefetch {
            1int
        } else {
            0int
        },
{
    let mut spawner = ComputeTaskSpawner::new();
    spawner.spawn(TaskLabel::Output);
    let mut i: usize = num_operations;
    while i > 0
        invariant
            i <= num_operations,
            spawner.labels@ == seq![TaskLabel::Output] + Seq::new(
                (num_operations - i) as nat,
                |k: int| TaskLabel::Operation { index: (num_operations - 1 - k) as usize },
            ),
        decreases i,
    {
        i = i - 1;
        spawner.spawn(TaskLabel::Operation { index: i });
        assert(spawner.labels@ =~= seq![TaskLabel::Output] + Seq::new(
            (num_operations - i) as nat,
            |k: int| TaskLabel::Operation { index: (num_operations - 1 - k) as usize },
        ));
    }
    if prefetch {
        spawner.spawn(TaskLabel::Prefetch);
    }
    let r = spawner.labels;
    assert(r@ =~= task_plan_spec(num_operations as nat, prefetch));
    r
}

/// Records the units of an execution as they are spawned.
pub struct ComputeTaskSpawner {
    labels: Vec<TaskLabel>,
}

impl ComputeTaskSpawner {
    /// The units spawned so far, in spawn order.
    pub closed spec fn spawned(&self) -> Seq<TaskLabel> {
        self.labels@
    }

    pub fn new() -> (r: ComputeTaskSpawner)
        ensures
            r.spawned() == Seq::<TaskLabel>::empty(),
    {
        ComputeTaskSpawner { labels: Vec::new() }
    }

    /// Records one more unit, running concurrently with those before it.
    pub fn spawn(&mut self, label: TaskLabel)
        ensures
            final(self).spawned() == old(self).spawned().push(label),
    {
        self.labels.push(label);
    }

    /// The number of units spawned so far.
    pub fn len(&self) -> (r: usize)
        ensures
            r == self.spawned().len(),
    {
        self.labels.len()
    }

    /// Ends spawning; the join then waits for every spawned unit.
    pub fn finish(self) -> (r: JoinState)
        ensures
            r == fresh_join(self.spawned().len() as usize),
    {
        JoinState { expected: self.labels.len(), completed: 0, failure: None }
    }
}

/// The join over a fixed number of units: how many completed, and the first
/// failure seen.
#[derive(Clone, Debug)]
pub struct JoinState {
    pub expected: usize,
    pub completed: usize,
    pub failure: Option<TaskFailure>,
}

/// A join over `expected` units, none completed yet.
pub open spec fn fresh_join(expected: usize) -> JoinState {
    JoinState { expected, completed: 0, failure: None }
}

/// The join after one more unit has completed with `outcome`.
pub open spec fn record_spec(s: JoinState, outcome: Result<(), TaskFailure>) -> JoinState {
    JoinState {
        expected: s.expected,
        completed: (s.completed + 1) as usize,
        failure: match (s.failure, outcome) {
            (None, Err(e)) => Some(e),
            _ => s.failure,
        },
    }
}

/// What a join reports in state `s`.
pub open spec fn status_spec(s: JoinState) -> JoinStatus {
    match s.failure {
        Some(_) => JoinStatus::Failed,
        None => if s.completed >= s.expected {
            JoinStatus::Completed
        } else {
            JoinStatus::Waiting
        },
    }
}

/// The join after the outcomes `outcomes`, in completion order.
pub open spec fn run_join(s: JoinState, outcomes: Seq<Result<(), TaskFailure>>) -> JoinState
    decreases outcomes.len(),
{
    if outcomes.len() == 0 {
        s
    } else {
        record_spec(run_join(s, outcomes.drop_last()), outcomes.last())
    }
}

impl JoinState {
    /// A join over `expected` units, none completed yet.
    pub fn new(expected: usize) -> (r: JoinState)
        ensures
            r == fresh_join(expected),
    {
        JoinState { expected, completed: 0, failure: None }
    }

    /// The join has not ended: no failure yet and some unit still running.
    pub open spec fn pending(&self) -> bool {
        self.failure is None && self.completed < self.expected
    }

    /// Whether the join has ended, successfully or not.
    pub fn is_finished(&self) -> (r: bool)
        ensures
            r == !self.pending(),
    {
        self.failure.is_some() || self.completed >= self.expected
    }

    /// Records that one more unit completed with `outcome`, and reports where
    /// the join stands: the first failure ends it at once.
    pub fn record(&mut self, outcome: Result<(), TaskFailure>) -> (r: JoinStatus)
        requires
            old(self).pending(),
        ensures
            *final(self) == record_spec(*old(self), outcome),
            r == status_spec(*final(self)),
    {
        self.completed = self.completed + 1;
        match outcome {
            Ok(()) => {
                if self.completed >= self.expected {
                    JoinStatus::Completed
                } else {
                    JoinStatus::Waiting
                }
            },
            Err(e) => {
                self.failure = Some(e);
                JoinStatus::Failed
            },
        }
    }
}

/// Every outcome is a success.
pub open spec fn all_succeeded(outcomes: Seq<Result<(), TaskFailure>>) -> bool {
    forall|k: int| 0 <= k < outcomes.len() ==> #[trigger] outcomes[k] is Ok
}

proof fn lemma_run_join(n: usize, outcomes: Seq<Result<(), TaskFailure>>)
    requires
        outcomes.len() <= n,
    ensures
        run_join(fresh_join(n), outcomes).expected == n,
        run_join(fresh_join(n), outcomes).completed == outcomes.len(),
        run_join(fresh_join(n), outcomes).failure is None <==> all_succeeded(outcomes),
    decreases outcomes.len(),
{
    if outcomes.len() > 0 {
        let p = outcomes.drop_last();
        lemma_run_join(n, p);
        if all_succeeded(outcomes) {
            assert forall|k: int| 0 <= k < p.len() implies #[trigger] p[k] is Ok by {
                assert(p[k] == outcomes[k]);
            }
        }
        if all_succeeded(p) && outcomes.last() is Ok {
            assert forall|k: int| 0 <= k < outcomes.len() implies #[trigger] outcomes[k] is Ok by {
                if k < p.len() {
                    assert(p[k] == outcomes[k]);
                }
            }
        }
    }
}

/// A join over `n` units that have all succeeded so far keeps waiting until
/// the last of them has completed, and then reports completion.
pub proof fn lemma_join_waits_for_all(n: usize, outcomes: Seq<Result<(), TaskFailure>>)
    requires
        outcomes.len() <= n,
        all_succeeded(outcomes),
    ensures
        outcomes.len() < n ==> status_spec(run_join(fresh_join(n), outcomes)) is Waiting,
        outcomes.len() == n ==> status_spec(run_join(fresh_join(n), outcomes)) is Completed,
{
    lemma_run_join(n, outcomes);
}

/// Whether a join over `n` units succeeds does not depend on the order in
/// which they complete: two completion orders of the same outcomes give the
/// same answer, which is success exactly when every unit succeeded.
pub proof fn lemma_join_order_independent(
    n: usize,
    s1: Seq<Result<(), TaskFailure>>,
    s2: Seq<Result<(), TaskFailure>>,
)
    requires
        s1.len() == n,
        s1.to_multiset() =~= s2.to_multiset(),
    ensures
        status_spec(run_join(fresh_join(n), s1)) is Completed <==> all_succeeded(s1),
        status_spec(run_join(fresh_join(n), s1)) is Completed <==> status_spec(
            run_join(fresh_join(n), s2),
        ) is Completed,
{
    s1.to_multiset_ensures();
    s2.to_multiset_ensures();
    assert(s2.len() == n);
    lemma_run_join(n, s1);
    lemma_run_join(n, s2);
    if all_succeeded(s1) {
        assert forall|k: int| 0 <= k < s2.len() implies #[trigger] s2[k] is Ok by {
            assert(s2.contains(s2[k]));
            assert(s2.to_multiset().count(s2[k]) > 0);
            assert(s1.to_multiset().count(s2[k]) > 0);
            assert(s1.contains(s2[k]));
        }
    }
    if all_succeeded(s2) {
        assert forall|k: int| 0 <= k < s1.len() implies #[trigger] s1[k] is Ok by {
            assert(s1.contains(s1[k]));
            assert(s1.to_multiset().count(s1[k]) > 0);
            assert(s2.to_multiset().count(s1[k]) > 0);
            assert(s2.contains(s1[k]));
        }
    }
}

} // verus!
