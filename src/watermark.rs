//! Event-time watermarks: a timestamp of seconds and sub-second ticks,
//! ordered with the seconds dominant, and their aggregation to a maximum.
use vstd::prelude::*;

verus! {

/// A logical timestamp: whole seconds plus sub-second ticks.
#[derive(Clone, Copy, Debug, PartialEq, Eq, Structural)]
pub struct Timestamp {
    pub seconds: i64,
    pub nanos: i32,
}

/// Strict order on timestamps: seconds first, then sub-second ticks.
pub open spec fn ts_lt(a: Timestamp, b: Timestamp) -> bool {
    a.seconds < b.seconds || (a.seconds == b.seconds && a.nanos < b.nanos)
}

/// The later of two timestamps.
pub open spec fn merge_spec(a: Timestamp, b: Timestamp) -> Timestamp {
    if ts_lt(b, a) {
        a
    } else {
        b
    }
}

/// The largest representable timestamp.
pub open spec fn max_ts() -> Timestamp {
    Timestamp { seconds: i64::MAX, nanos: i32::MAX }
}

/// Left fold of `merge_spec` over a non-empty `s`, starting from its first
/// time: the latest time of `s`.
pub open spec fn fold_max(s: Seq<Timestamp>) -> Timestamp
    decreases s.len(),
{
    if s.len() <= 1 {
        s[0]
    } else {
        merge_spec(fold_max(s.drop_last()), s.last())
    }
}

/// The aggregate of reported times: `None`, the "no data seen" sentinel,
/// exactly when nothing was reported; else the latest reported time.
pub open spec fn aggregate_spec(s: Seq<Timestamp>) -> Option<Timestamp> {
    if s.len() == 0 {
        None
    } else {
        Some(fold_max(s))
    }
}

impl Timestamp {
    /// The largest representable timestamp, used when no source reported a time.
    pub fn max_representable() -> (r: Timestamp)
        ensures
            r == max_ts(),
    {
        Timestamp { seconds: i64::MAX, nanos: i32::MAX }
    }
}

/// Merges two watermarks: a strictly greater second wins whatever its ticks;
/// on equal seconds the greater tick count wins.
pub fn merge(a: Timestamp, b: Timestamp) -> (r: Timestamp)
    ensures
        r == merge_spec(a, b),
{
    if a.seconds == b.seconds {
        if a.nanos > b.nanos {
            a
        } else {
            b
        }
    } else if a.seconds > b.seconds {
        a
    } else {
        b
    }
}

/// Reduces the reported maximum event times to the latest of them, or
/// `None` when none was reported.
pub fn aggregate_watermark(times: &Vec<Timestamp>) -> (r: Option<Timestamp>)
    ensures
        r == aggregate_spec(times@),
{
    if times.len() == 0 {
        return None;
    }
    let mut acc = times[0];
    let mut i: usize = 1;
    assert(times@.subrange(0, 1).len() == 1);
    while i < times.len()
        invariant
            1 <= i <= times@.len(),
            acc == fold_max(times@.subrange(0, i as int)),
        decreases times@.len() - i,
    {
        proof {
            let s = times@.subrange(0, i as int + 1);
            assert(s.drop_last() =~= times@.subrange(0, i as int));
        }
        acc = merge(acc, times[i]);
        i = i + 1;
    }
    assert(times@.subrange(0, times@.len() as int) =~= times@);
    Some(acc)
}

/// The maximum input timestamp of an execution: the aggregate of the
/// reported times, or the largest representable timestamp when none was seen.
pub fn max_input_timestamp(times: &Vec<Timestamp>) -> (r: Timestamp)
    ensures
        r == (match aggregate_spec(times@) {
            Some(t) => t,
            None => max_ts(),
        }),
{
    match aggregate_watermark(times) {
        Some(t) => t,
        None => Timestamp::max_representable(),
    }
}

/// Merging watermarks does not depend on the order of its arguments.
pub proof fn lemma_merge_commutative(a: Timestamp, b: Timestamp)
    ensures
        merge_spec(a, b) == merge_spec(b, a),
{
}

/// Merging watermarks does not depend on how the merges are grouped.
pub proof fn lemma_merge_associative(a: Timestamp, b: Timestamp, c: Timestamp)
    ensures
        merge_spec(merge_spec(a, b), c) == merge_spec(a, merge_spec(b, c)),
{
}

/// The aggregate of a non-empty list of times is one of them, and no time
/// of the list is later than it.
pub proof fn lemma_fold_max_bounds(s: Seq<Timestamp>)
    requires
        s.len() > 0,
    ensures
        forall|k: int| 0 <= k < s.len() ==> !ts_lt(fold_max(s), #[trigger] s[k]),
        s.contains(fold_max(s)),
    decreases s.len(),
{
    if s.len() == 1 {
        assert(s[0] == fold_max(s));
    } else {
        let p = s.drop_last();
        lemma_fold_max_bounds(p);
        assert forall|k: int| 0 <= k < s.len() implies !ts_lt(fold_max(s), #[trigger] s[k]) by {
            if k < s.len() - 1 {
                assert(s[k] == p[k]);
            }
        }
        if fold_max(s) != s.last() {
            assert(fold_max(s) == fold_max(p));
            let k = choose|k: int| 0 <= k < p.len() && p[k] == fold_max(p);
            assert(s[k] == fold_max(s));
        }
    }
}

} // verus!
