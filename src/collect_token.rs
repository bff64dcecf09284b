//! Per-entity state of the collect aggregation: for each entity a bounded
//! queue of the last values, and for windowed collection the times of those
//! values.
use std::collections::VecDeque;
use vstd::prelude::*;

verus! {

/// The queue after appending `x` and, past `max` items, dropping the oldest.
pub open spec fn add_capped<A>(s: Seq<A>, x: A, max: nat) -> Seq<A> {
    if s.push(x).len() > max {
        s.push(x).drop_first()
    } else {
        s.push(x)
    }
}

/// `s` without its first `k` items (empty when it has fewer).
pub open spec fn drop_front<A>(s: Seq<A>, k: nat) -> Seq<A> {
    if k >= s.len() {
        Seq::empty()
    } else {
        s.skip(k as int)
    }
}

/// The number of leading times that are earlier than `min_time`.
pub open spec fn leading_before(t: Seq<i64>, min_time: int) -> nat
    decreases t.len(),
{
    if t.len() == 0 || t[0] >= min_time {
        0
    } else {
        1 + leading_before(t.drop_first(), min_time)
    }
}

/// State token of the collect aggregation.
pub struct CollectToken<T> where T: Clone {
    state: Vec<VecDeque<Option<T>>>,
    /// The times of the values, per entity; used only by windowed collection.
    times: Vec<VecDeque<i64>>,
}

impl<T> CollectToken<T> where T: Clone {
    /// The collected values of each entity, oldest first.
    pub closed spec fn values(&self) -> Seq<Seq<Option<T>>> {
        Seq::new(self.state@.len(), |i: int| self.state@[i]@)
    }

    /// The times of each entity's values, oldest first.
    pub closed spec fn value_times(&self) -> Seq<Seq<i64>> {
        Seq::new(self.times@.len(), |i: int| self.times@[i]@)
    }

    /// Every entity has both a value queue and a time queue.
    pub open spec fn wf(&self) -> bool {
        self.values().len() == self.value_times().len()
    }

    /// A token with no entities.
    pub fn new() -> (r: CollectToken<T>)
        ensures
            r.wf(),
            r.values().len() == 0,
    {
        CollectToken { state: Vec::new(), times: Vec::new() }
    }

    /// Makes room for entity `len`: when it has no queue yet, queues are added
    /// (empty) up to and including index `len`.
    pub fn resize(&mut self, len: usize)
        requires
            old(self).wf(),
            len < usize::MAX,
        ensures
            final(self).wf(),
            len >= old(self).values().len() ==> {
                &&& final(self).values() == old(self).values() + Seq::new(
                    (len + 1 - old(self).values().len()) as nat,
                    |i: int| Seq::<Option<T>>::empty(),
                )
                &&& final(self).value_times() == old(self).value_times() + Seq::new(
                    (len + 1 - old(self).values().len()) as nat,
                    |i: int| Seq::<i64>::empty(),
                )
            },
            len < old(self).values().len() ==> *final(self) == *old(self),
    {
        if len >= self.state.len() {
            let ghost v0 = self.values();
            let ghost t0 = self.value_times();
            let ghost n0 = self.state@.len();
            while self.state.len() <= len
                invariant
                    n0 <= self.state@.len() <= len + 1,
                    self.state@.len() == self.times@.len(),
                    self.values() == v0 + Seq::new(
                        (self.state@.len() - n0) as nat,
                        |i: int| Seq::<Option<T>>::empty(),
                    ),
                    self.value_times() == t0 + Seq::new(
                        (self.state@.len() - n0) as nat,
                        |i: int| Seq::<i64>::empty(),
                    ),
                decreases len + 1 - self.state@.len(),
            {
                let ghost pv = self.values();
                let ghost pt = self.value_times();
                self.state.push(VecDeque::new());
                self.times.push(VecDeque::new());
                assert forall|i: int| 0 <= i < pv.len() implies self.values()[i] == pv[i] by {
                }
                assert forall|i: int| 0 <= i < pt.len() implies self.value_times()[i] == pt[i] by {
                }
                assert(self.state@[self.state@.len() - 1]@ =~= Seq::<Option<T>>::empty());
                assert(self.times@[self.times@.len() - 1]@ =~= Seq::<i64>::empty());
                assert(self.values() =~= pv.push(Seq::<Option<T>>::empty()));
                assert(self.value_times() =~= pt.push(Seq::<i64>::empty()));
                assert(v0 + Seq::new(
                    (self.state@.len() - n0) as nat,
                    |i: int| Seq::<Option<T>>::empty(),
                ) =~= pv.push(Seq::<Option<T>>::empty()));
                assert(t0 + Seq::new(
                    (self.state@.len() - n0) as nat,
                    |i: int| Seq::<i64>::empty(),
                ) =~= pt.push(Seq::<i64>::empty()));
            }
        }
    }

    /// Appends `input` to entity `index`, keeping at most `max` values (the
    /// oldest goes first).
    pub fn add_value(&mut self, max: usize, index: usize, input: Option<T>)
        requires
            old(self).wf(),
            index < old(self).values().len(),
        ensures
            final(self).wf(),
            final(self).values() == old(self).values().update(
                index as int,
                add_capped(old(self).values()[index as int], input, max as nat),
            ),
            final(self).value_times() == old(self).value_times(),
    {
        let ghost v0 = self.values();
        self.state[index].push_back(input);
        if self.state[index].len() > max {
            self.state[index].pop_front();
        }
        assert(self.values() =~= v0.update(index as int, add_capped(v0[index as int], input, max as nat)));
        assert(self.value_times() =~= old(self).value_times());
    }

    /// Appends `input` at `time` to entity `index`, keeping at most `max`
    /// values, then drops the values older than `time - window_duration`.
    pub fn add_value_with_time(
        &mut self,
        max: usize,
        index: usize,
        input: Option<T>,
        time: i64,
        window_duration: i64,
    )
        requires
            old(self).wf(),
            index < old(self).values().len(),
            max > 0,
            window_duration >= 0,
            time - window_duration >= i64::MIN,
        ensures
            final(self).wf(),
            ({
                let s = old(self).values()[index as int].push(input);
                let t = old(self).value_times()[index as int].push(time);
                let s2 = if t.len() > max {
                    drop_front(s, 1)
                } else {
                    s
                };
                let t2 = if t.len() > max {
                    t.drop_first()
                } else {
                    t
                };
                let k = leading_before(t2, time - window_duration);
                &&& final(self).values() == old(self).values().update(
                    index as int,
                    drop_front(s2, k),
                )
                &&& final(self).value_times() == old(self).value_times().update(
                    index as int,
                    t2.skip(k as int),
                )
            }),
    {
        let ghost v0 = self.values();
        let ghost w0 = self.value_times();
        self.state[index].push_back(input);
        self.times[index].push_back(time);
        if self.times[index].len() > max {
            self.state[index].pop_front();
            self.times[index].pop_front();
        }
        let ghost s2 = self.state@[index as int]@;
        let ghost t2 = self.times@[index as int]@;
        assert(s2 =~= if w0[index as int].push(time).len() > max {
            drop_front(v0[index as int].push(input), 1)
        } else {
            v0[index as int].push(input)
        });
        let min_time = time - window_duration;
        let ghost mut k: nat = 0;
        assert(t2.skip(0) =~= t2);
        assert(drop_front(s2, 0) =~= s2);
        while self.times[index][0] < min_time
            invariant
                index < self.state@.len(),
                self.state@.len() == self.times@.len(),
                self.state@.len() == v0.len(),
                forall|j: int| 0 <= j < v0.len() && j != index ==> self.state@[j]@ == v0[j],
                forall|j: int| 0 <= j < v0.len() && j != index ==> self.times@[j]@ == w0[j],
                k <= t2.len(),
                t2.len() > 0,
                t2.last() == time,
                min_time <= time,
                self.times@[index as int]@ == t2.skip(k as int),
                self.state@[index as int]@ == drop_front(s2, k),
                k < t2.len(),
                leading_before(t2, min_time as int) == k + leading_before(t2.skip(k as int), min_time as int),
            decreases t2.len() - k,
        {
            proof {
                assert(t2.skip(k as int).drop_first() =~= t2.skip(k + 1int));
                if k + 1 >= t2.len() {
                    assert(t2.skip(k as int)[0] == t2.last());
                }
            }
            self.state[index].pop_front();
            self.times[index].pop_front();
            proof {
                if k + 1 < s2.len() {
                    assert(drop_front(s2, k).drop_first() =~= drop_front(s2, k + 1));
                } else {
                    assert(self.state@[index as int]@ =~= drop_front(s2, k + 1));
                }
                k = k + 1;
            }
        }
        assert(self.values() =~= v0.update(index as int, drop_front(s2, k)));
        assert(self.value_times() =~= w0.update(index as int, t2.skip(k as int)));
    }

    /// The collected values of entity `index`, oldest first.
    pub fn state(&self, index: usize) -> (r: &VecDeque<Option<T>>)
        requires
            index < self.values().len(),
        ensures
            r@ == self.values()[index as int],
    {
        &self.state[index]
    }

    /// Empties the value queue of entity `index`.
    pub fn reset(&mut self, index: usize)
        requires
            old(self).wf(),
            index < old(self).values().len(),
        ensures
            final(self).wf(),
            final(self).values() == old(self).values().update(index as int, Seq::empty()),
            final(self).value_times() == old(self).value_times(),
    {
        let ghost v0 = self.values();
        self.state[index].clear();
        assert(self.values() =~= v0.update(index as int, Seq::empty()));
        assert(self.value_times() =~= old(self).value_times());
    }
}

impl<T> Default for CollectToken<T> where T: Clone {
    fn default() -> (r: CollectToken<T>)
        ensures
            r.wf(),
            r.values().len() == 0,
    {
        CollectToken::new()
    }
}

} // verus!
