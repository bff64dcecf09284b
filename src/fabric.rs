//! Plan wiring: turns a linear plan into the per-edge channel fabric.
//!
//! Each operation may read only from operations with a smaller index, so the
//! plan is acyclic by construction. One channel is created per
//! (producer, consumer) pair; channel `0` carries the last operation's output
//! to the terminal sink.
use vstd::prelude::*;

verus! {

/// The kind of an operation; the variants are the pipeline's operators.
#[derive(Clone, Copy, Debug, PartialEq, Eq, Structural)]
pub enum OperatorKind {
    Scan,
    Merge,
    Select,
    Tick,
    WithKey,
    LookupRequest,
    LookupResponse,
    ShiftTo,
    ShiftUntil,
}

/// One entry of a plan: its operator, if present, and the indices of the
/// operations it reads from, in input order.
#[derive(Clone, Debug)]
pub struct OperationDescriptor {
    pub operator: Option<OperatorKind>,
    pub inputs: Vec<usize>,
}

/// Where a channel delivers its batches.
#[derive(Clone, Copy, Debug, PartialEq, Eq, Structural)]
pub enum ChannelConsumer {
    /// The terminal output writer.
    Output,
    /// Input number `slot` of operation `index`.
    Operation { index: usize, slot: usize },
}

/// One bounded channel of the fabric.
#[derive(Clone, Copy, Debug, PartialEq, Eq, Structural)]
pub struct Channel {
    pub producer: usize,
    pub consumer: ChannelConsumer,
}

/// The wiring of a plan. Channels are named by their position in `channels`.
#[derive(Clone, Debug)]
pub struct Fabric {
    /// Producer and consumer of every channel.
    pub channels: Vec<Channel>,
    /// `consumers[j]`: the channels that must receive every batch of operation `j`.
    pub consumers: Vec<Vec<usize>>,
    /// `inputs[i]`: the channels operation `i` reads from, one per declared input.
    pub inputs: Vec<Vec<usize>>,
}

/// Why a plan cannot be wired.
#[derive(Clone, Copy, Debug, PartialEq, Eq, Structural)]
pub enum PlanError {
    /// The plan has no operations.
    EmptyPlan,
    /// The descriptor at `index` names no operator.
    MissingOperator { index: usize },
    /// Input number `slot` of the descriptor at `index` does not refer to an
    /// earlier operation.
    InputNotEarlier { index: usize, slot: usize },
}

/// Capacity of each operation-to-operation channel unless configured otherwise.
pub const DEFAULT_EDGE_CAPACITY: usize = 7;

/// Capacity of the channel into the terminal output writer unless configured
/// otherwise.
pub const DEFAULT_OUTPUT_CAPACITY: usize = 13;

/// The bound of every channel of the fabric: a full channel blocks its
/// producer. Both are at least one.
#[derive(Clone, Copy, Debug, PartialEq, Eq, Structural)]
pub struct ChannelCapacities {
    edge: usize,
    output: usize,
}

impl ChannelCapacities {
    pub closed spec fn edge_spec(&self) -> usize {
        self.edge
    }

    pub closed spec fn output_spec(&self) -> usize {
        self.output
    }

    /// Every capacity is at least one.
    pub closed spec fn wf(&self) -> bool {
        self.edge >= 1 && self.output >= 1
    }

    /// Capacities for edges and for the output channel; `None` when either
    /// is zero.
    pub fn new(edge: usize, output: usize) -> (r: Option<ChannelCapacities>)
        ensures
            r is Some <==> (edge >= 1 && output >= 1),
            r matches Some(c) ==> c.edge_spec() == edge && c.output_spec() == output && c.wf(),
    {
        if edge >= 1 && output >= 1 {
            Some(ChannelCapacities { edge, output })
        } else {
            None
        }
    }

    /// The default capacities.
    pub fn standard() -> (r: ChannelCapacities)
        ensures
            r.edge_spec() == DEFAULT_EDGE_CAPACITY,
            r.output_spec() == DEFAULT_OUTPUT_CAPACITY,
            r.wf(),
    {
        ChannelCapacities { edge: DEFAULT_EDGE_CAPACITY, output: DEFAULT_OUTPUT_CAPACITY }
    }

    /// The capacity of channel `c` of a fabric: channel `0` feeds the output.
    pub fn of_channel(&self, c: usize) -> (r: usize)
        requires
            self.wf(),
        ensures
            r >= 1,
            r == if c == 0 {
                self.output_spec()
            } else {
                self.edge_spec()
            },
    {
        if c == 0 {
            self.output
        } else {
            self.edge
        }
    }
}

/// The descriptor at position `i` names an operator and reads only from
/// earlier operations.
pub open spec fn descriptor_ok(d: OperationDescriptor, i: int) -> bool {
    &&& d.operator.is_some()
    &&& forall|k: int| 0 <= k < d.inputs@.len() ==> #[trigger] d.inputs@[k] < i
}

/// All descriptors at positions `lo..` are well formed.
pub open spec fn suffix_ok(plan: Seq<OperationDescriptor>, lo: int) -> bool {
    forall|j: int| lo <= j < plan.len() ==> descriptor_ok(#[trigger] plan[j], j)
}

/// A plan that can be wired: non-empty, every descriptor well formed.
pub open spec fn plan_ok(plan: Seq<OperationDescriptor>) -> bool {
    plan.len() > 0 && suffix_ok(plan, 0)
}

/// Number of edges declared by the operations at positions `i..`.
pub open spec fn edges_from(plan: Seq<OperationDescriptor>, i: int) -> nat
    decreases plan.len() - i,
{
    if i < 0 || i >= plan.len() {
        0
    } else {
        plan[i].inputs@.len() + edges_from(plan, i + 1)
    }
}

/// The channel that carries input `0` of operation `i`; its other inputs
/// follow. Operations are wired from the last to the first.
pub open spec fn first_input_channel(plan: Seq<OperationDescriptor>, i: int) -> int {
    (1 + edges_from(plan, i + 1)) as int
}

/// How many items of `s` equal `j`.
pub open spec fn count_of(s: Seq<usize>, j: int) -> nat
    decreases s.len(),
{
    if s.len() == 0 {
        0
    } else {
        count_of(s.drop_last(), j) + if s.last() == j {
            1nat
        } else {
            0nat
        }
    }
}

/// How many declared inputs of the operations at positions `i..` name `j`.
pub open spec fn readers_from(plan: Seq<OperationDescriptor>, j: int, i: int) -> nat
    decreases plan.len() - i,
{
    if i < 0 || i >= plan.len() {
        0
    } else {
        count_of(plan[i].inputs@, j) + readers_from(plan, j, i + 1)
    }
}

/// The number of consumers of operation `j` once the operations at positions
/// `i..` are wired: one per input among them that names `j`, plus the
/// terminal sink for the last operation.
pub open spec fn consumer_count(plan: Seq<OperationDescriptor>, j: int, i: int) -> nat {
    readers_from(plan, j, i) + if j == plan.len() - 1 {
        1nat
    } else {
        0nat
    }
}

/// `f` is the fabric of `plan`.
pub open spec fn fabric_of(plan: Seq<OperationDescriptor>, f: Fabric) -> bool {
    let n = plan.len();
    &&& f.channels@.len() == 1 + edges_from(plan, 0)
    &&& f.channels@[0] == (Channel { producer: (n - 1) as usize, consumer: ChannelConsumer::Output })
    &&& f.inputs@.len() == n
    &&& f.consumers@.len() == n
    &&& forall|i: int| 0 <= i < n ==> (#[trigger] f.inputs@[i])@.len() == plan[i].inputs@.len()
    &&& forall|i: int, k: int|
        0 <= i < n && 0 <= k < plan[i].inputs@.len() ==> #[trigger] f.inputs@[i]@[k]
            == first_input_channel(plan, i) + k
    &&& forall|i: int, k: int|
        0 <= i < n && 0 <= k < plan[i].inputs@.len() ==> #[trigger] channel_wired(plan, f.channels@, i, k)
    &&& consumers_exact(f.channels@, f.consumers@)
    &&& forall|j: int| 0 <= j < n ==> (#[trigger] f.consumers@[j])@.len() == consumer_count(plan, j, 0)
}

/// The channel of input `k` of operation `i` runs from the operation that
/// input names to that input.
pub open spec fn channel_wired(plan: Seq<OperationDescriptor>, channels: Seq<Channel>, i: int, k: int) -> bool {
    channels[first_input_channel(plan, i) + k] == (Channel {
        producer: plan[i].inputs@[k],
        consumer: ChannelConsumer::Operation { index: i as usize, slot: k as usize },
    })
}

/// `consumers[j]` lists, in increasing order, exactly the channels whose
/// producer is `j`.
pub open spec fn consumers_exact(channels: Seq<Channel>, consumers: Seq<Vec<usize>>) -> bool {
    &&& forall|j: int, m: int|
        0 <= j < consumers.len() && 0 <= m < consumers[j]@.len() ==> {
            &&& (#[trigger] consumers[j]@[m]) < channels.len()
            &&& channels[consumers[j]@[m] as int].producer == j
        }
    &&& forall|j: int, m1: int, m2: int|
        0 <= j < consumers.len() && 0 <= m1 < m2 < consumers[j]@.len() ==> #[trigger] consumers[j]@[m1]
            < #[trigger] consumers[j]@[m2]
    &&& forall|c: int|
        0 <= c < channels.len() ==> {
            &&& (#[trigger] channels[c]).producer < consumers.len()
            &&& consumers[channels[c].producer as int]@.contains(c as usize)
        }
}

/// The error that wiring reports for `plan`: the check runs from the last
/// descriptor to the first, operator before inputs, inputs in order.
pub open spec fn plan_error(plan: Seq<OperationDescriptor>, e: PlanError) -> bool {
    match e {
        PlanError::EmptyPlan => plan.len() == 0,
        PlanError::MissingOperator { index } => {
            &&& index < plan.len()
            &&& plan[index as int].operator.is_none()
            &&& suffix_ok(plan, index + 1)
        },
        PlanError::InputNotEarlier { index, slot } => {
            &&& index < plan.len()
            &&& plan[index as int].operator.is_some()
            &&& slot < plan[index as int].inputs@.len()
            &&& plan[index as int].inputs@[slot as int] >= index
            &&& forall|k: int| 0 <= k < slot ==> #[trigger] plan[index as int].inputs@[k] < index
            &&& suffix_ok(plan, index + 1)
        },
    }
}

proof fn lemma_edges_from_le(plan: Seq<OperationDescriptor>, lo: int, i: int)
    requires
        0 <= lo <= i,
    ensures
        edges_from(plan, i) <= edges_from(plan, lo),
    decreases i - lo,
{
    if i > lo {
        lemma_edges_from_le(plan, lo, i - 1);
    }
}

/// Builds the channel fabric of `plan`. Operations are visited from the last
/// to the first, so every operation's consumers are all registered before it
/// is visited; channel `0` feeds the terminal sink.
pub fn build_fabric(plan: &Vec<OperationDescriptor>) -> (r: Result<Fabric, PlanError>)
    ensures
        r is Ok <==> plan_ok(plan@),
        match r {
            Ok(f) => fabric_of(plan@, f),
            Err(e) => plan_error(plan@, e),
        },
{
    let n = plan.len();
    if n == 0 {
        return Err(PlanError::EmptyPlan);
    }
    let mut consumers: Vec<Vec<usize>> = Vec::new();
    let mut inputs: Vec<Vec<usize>> = Vec::new();
    let mut z: usize = 0;
    while z < n
        invariant
            z <= n,
            consumers@.len() == z,
            inputs@.len() == z,
            forall|j: int| 0 <= j < z ==> (#[trigger] consumers@[j])@.len() == 0,
            forall|j: int| 0 <= j < z ==> (#[trigger] inputs@[j])@.len() == 0,
        decreases n - z,
    {
        consumers.push(Vec::new());
        inputs.push(Vec::new());
        z = z + 1;
    }
    let mut channels: Vec<Channel> = Vec::new();
    channels.push(Channel { producer: n - 1, consumer: ChannelConsumer::Output });
    consumers[n - 1].push(0);
    proof {
        assert(consumers@[n - 1]@ =~= seq![0usize]);
        assert forall|j: int| 0 <= j < n implies (#[trigger] consumers@[j])@.len() == consumer_count(
            plan@,
            j,
            n as int,
        ) by {}
        assert forall|c: int| 0 <= c < channels@.len() implies {
            &&& (#[trigger] channels@[c]).producer < consumers@.len()
            &&& consumers@[channels@[c].producer as int]@.contains(c as usize)
        } by {
            assert(consumers@[n - 1]@[0] == 0);
        }
    }

    let mut i: usize = n;
    while i > 0
        invariant
            n == plan@.len(),
            n > 0,
            i <= n,
            channels@.len() == 1 + edges_from(plan@, i as int),
            channels@[0] == (Channel { producer: (n - 1) as usize, consumer: ChannelConsumer::Output }),
            inputs@.len() == n,
            consumers@.len() == n,
            suffix_ok(plan@, i as int),
            forall|j: int| 0 <= j < i ==> (#[trigger] inputs@[j])@.len() == 0,
            forall|j: int| i <= j < n ==> (#[trigger] inputs@[j])@.len() == plan@[j].inputs@.len(),
            forall|j: int, k: int|
                i <= j < n && 0 <= k < plan@[j].inputs@.len() ==> #[trigger] inputs@[j]@[k]
                    == first_input_channel(plan@, j) + k,
            forall|j: int, k: int|
                i <= j < n && 0 <= k < plan@[j].inputs@.len() ==> #[trigger] channel_wired(plan@, channels@, j, k),
            consumers_exact(channels@, consumers@),
            forall|j: int| 0 <= j < n ==> (#[trigger] consumers@[j])@.len() == consumer_count(plan@, j, i as int),
        decreases i,
    {
        let idx = i - 1;
        let d = &plan[idx];
        if d.operator.is_none() {
            return Err(PlanError::MissingOperator { index: idx });
        }
        let m = d.inputs.len();
        let ghost base = channels@.len();
        let ghost old_channels = channels@;
        let ghost inputs_before = inputs@;
        let mut own: Vec<usize> = Vec::new();
        let mut k: usize = 0;
        assert(d.inputs@.take(0) =~= Seq::<usize>::empty());
        while k < m
            invariant
                n == plan@.len(),
                idx < n,
                d == plan@[idx as int],
                d.operator.is_some(),
                m == d.inputs@.len(),
                k <= m,
                base == 1 + edges_from(plan@, idx + 1),
                channels@.len() == base + k,
                channels@[0] == (Channel { producer: (n - 1) as usize, consumer: ChannelConsumer::Output }),
                consumers@.len() == n,
                inputs@ == inputs_before,
                suffix_ok(plan@, idx + 1),
                forall|q: int| 0 <= q < k ==> #[trigger] d.inputs@[q] < idx,
                own@.len() == k,
                forall|q: int| 0 <= q < k ==> #[trigger] own@[q] == base + q,
                forall|q: int|
                    0 <= q < k ==> #[trigger] channels@[base + q] == (Channel {
                        producer: d.inputs@[q],
                        consumer: ChannelConsumer::Operation { index: idx, slot: q as usize },
                    }),
                forall|c: int| 0 <= c < base ==> #[trigger] channels@[c] == old_channels[c],
                consumers_exact(channels@, consumers@),
                forall|j: int|
                    0 <= j < n ==> (#[trigger] consumers@[j])@.len() == consumer_count(plan@, j, idx + 1)
                        + count_of(d.inputs@.take(k as int), j),
            decreases m - k,
        {
            let input = d.inputs[k];
            if input >= idx {
                return Err(PlanError::InputNotEarlier { index: idx, slot: k });
            }
            let c = channels.len();
            let ghost old_consumers = consumers@;
            let ghost old_ch = channels@;
            channels.push(Channel {
                producer: input,
                consumer: ChannelConsumer::Operation { index: idx, slot: k },
            });
            consumers[input].push(c);
            own.push(c);
            proof {
                assert(d.inputs@.take(k + 1int).drop_last() =~= d.inputs@.take(k as int));
                assert forall|j: int| 0 <= j < n implies (#[trigger] consumers@[j])@.len() == consumer_count(
                    plan@,
                    j,
                    idx + 1,
                ) + count_of(d.inputs@.take(k + 1int), j) by {
                    if j != input as int {
                        assert(consumers@[j] == old_consumers[j]);
                    }
                }
                assert forall|j: int, m1: int|
                    0 <= j < consumers@.len() && 0 <= m1 < consumers@[j]@.len() implies {
                        &&& (#[trigger] consumers@[j]@[m1]) < channels@.len()
                        &&& channels@[consumers@[j]@[m1] as int].producer == j
                    } by {
                    if j != input as int || m1 < old_consumers[j]@.len() {
                        assert(consumers@[j]@[m1] == old_consumers[j]@[m1]);
                        assert(channels@[consumers@[j]@[m1] as int] == old_ch[consumers@[j]@[m1] as int]);
                    }
                }
                assert forall|j: int, m1: int, m2: int|
                    0 <= j < consumers@.len() && 0 <= m1 < m2 < consumers@[j]@.len()
                    implies #[trigger] consumers@[j]@[m1] < #[trigger] consumers@[j]@[m2] by {
                    if j != input as int || m2 < old_consumers[j]@.len() {
                        assert(consumers@[j]@[m1] == old_consumers[j]@[m1]);
                        assert(consumers@[j]@[m2] == old_consumers[j]@[m2]);
                    } else {
                        assert(consumers@[j]@[m1] == old_consumers[j]@[m1]);
                    }
                }
                assert forall|cc: int| 0 <= cc < channels@.len() implies {
                    &&& (#[trigger] channels@[cc]).producer < consumers@.len()
                    &&& consumers@[channels@[cc].producer as int]@.contains(cc as usize)
                } by {
                    if cc < old_ch.len() {
                        assert(channels@[cc] == old_ch[cc]);
                        let p = channels@[cc].producer as int;
                        let w = choose|w: int| 0 <= w < old_consumers[p]@.len() && old_consumers[p]@[w] == cc as usize;
                        assert(consumers@[p]@[w] == cc as usize);
                    } else {
                        assert(consumers@[input as int]@[consumers@[input as int]@.len() - 1] == cc as usize);
                    }
                }
            }
            k = k + 1;
        }
        let ghost old_inputs = inputs@;
        inputs.set(idx, own);
        proof {
            assert(d.inputs@.take(m as int) =~= d.inputs@);
            assert(first_input_channel(plan@, idx as int) == base);
            assert(channels@.len() == 1 + edges_from(plan@, idx as int));
            assert forall|j: int|
                idx < j < n implies #[trigger] first_input_channel(plan@, j) + plan@[j].inputs@.len()
                    <= base by {
                lemma_edges_from_le(plan@, idx + 1, j);
            }
            assert forall|j: int, q: int|
                idx <= j < n && 0 <= q < plan@[j].inputs@.len() implies #[trigger] inputs@[j]@[q]
                    == first_input_channel(plan@, j) + q by {
                if j > idx {
                    assert(inputs@[j] == old_inputs[j]);
                }
            }
            assert forall|j: int, q: int|
                idx <= j < n && 0 <= q < plan@[j].inputs@.len() implies #[trigger] channel_wired(plan@, channels@, j, q) by {
                if j > idx {
                    assert(channel_wired(plan@, old_channels, j, q));
                    assert(channels@[first_input_channel(plan@, j) + q] == old_channels[first_input_channel(plan@, j) + q]);
                } else {
                    assert(channels@[base + q] == (Channel {
                        producer: d.inputs@[q],
                        consumer: ChannelConsumer::Operation { index: idx, slot: q as usize },
                    }));
                }
            }
        }
        i = idx;
    }
    Ok(Fabric { channels, consumers, inputs })
}

} // verus!

verus! {

proof fn lemma_channel_owner(plan: Seq<OperationDescriptor>, lo: int, c: int) -> (r: (int, int))
    requires
        0 <= lo,
        1 <= c < 1 + edges_from(plan, lo),
    ensures
        lo <= r.0 < plan.len(),
        0 <= r.1 < plan[r.0].inputs@.len(),
        first_input_channel(plan, r.0) + r.1 == c,
    decreases plan.len() - lo,
{
    if lo >= plan.len() {
        // No operation from `lo` on, so no edges: `c` cannot exist.
        assert(false);
        (0, 0)
    } else if c < 1 + edges_from(plan, lo + 1) {
        lemma_channel_owner(plan, lo + 1, c)
    } else {
        (lo, c - first_input_channel(plan, lo))
    }
}

/// Channel `c`, registered as a consumer of operation `j`, is the terminal
/// sink of the last operation or an input of a later operation that names `j`.
pub open spec fn registered_later(plan: Seq<OperationDescriptor>, f: Fabric, j: int, c: int) -> bool {
    ||| (j == plan.len() - 1 && c == 0 && f.channels@[0].consumer == ChannelConsumer::Output)
    ||| exists|i: int, k: int|
        j < i < plan.len() && 0 <= k < plan[i].inputs@.len() && plan[i].inputs@[k] == j
            && f.inputs@[i]@[k] == c
}

/// In the fabric of a well-formed plan, every declared input of operation `i`
/// is served by a channel of its own, no two inputs sharing one, registered
/// as a consumer of the operation it names; and every channel registered as a
/// consumer of operation `j` is either the terminal sink (only for the last
/// operation) or an input of a later operation that names `j`. So operation
/// `j` has as many consumers as later inputs name it, plus the sink if it is
/// the last: none at all if it is read by nobody and is not last.
pub proof fn lemma_fabric_edges(plan: Seq<OperationDescriptor>, f: Fabric)
    requires
        plan.len() <= usize::MAX,
        plan_ok(plan),
        fabric_of(plan, f),
    ensures
        forall|i: int, k: int|
            0 <= i < plan.len() && 0 <= k < plan[i].inputs@.len() ==> {
                &&& f.consumers@[plan[i].inputs@[k] as int]@.contains(#[trigger] f.inputs@[i]@[k])
                &&& f.channels@[f.inputs@[i]@[k] as int].consumer
                    == (ChannelConsumer::Operation { index: i as usize, slot: k as usize })
            },
        forall|j: int, m: int|
            0 <= j < plan.len() && 0 <= m < f.consumers@[j]@.len() ==> registered_later(
                plan,
                f,
                j,
                #[trigger] f.consumers@[j]@[m] as int,
            ),
        forall|i1: int, k1: int, i2: int, k2: int|
            0 <= i1 < plan.len() && 0 <= k1 < plan[i1].inputs@.len() && 0 <= i2 < plan.len() && 0
                <= k2 < plan[i2].inputs@.len() && #[trigger] f.inputs@[i1]@[k1] == #[trigger] f.inputs@[i2]@[k2]
                ==> i1 == i2 && k1 == k2,
        forall|j: int|
            0 <= j < plan.len() ==> (#[trigger] f.consumers@[j])@.len() == readers_from(plan, j, 0) + if j
                == plan.len() - 1 {
                1nat
            } else {
                0nat
            },
{
    assert forall|i1: int, k1: int, i2: int, k2: int|
        0 <= i1 < plan.len() && 0 <= k1 < plan[i1].inputs@.len() && 0 <= i2 < plan.len() && 0
            <= k2 < plan[i2].inputs@.len() && #[trigger] f.inputs@[i1]@[k1] == #[trigger] f.inputs@[i2]@[k2]
            implies i1 == i2 && k1 == k2 by {
        if i1 < i2 {
            lemma_edges_from_le(plan, i1 + 1, i2);
        } else if i2 < i1 {
            lemma_edges_from_le(plan, i2 + 1, i1);
        }
    }
    assert forall|i: int, k: int|
        0 <= i < plan.len() && 0 <= k < plan[i].inputs@.len() implies {
            &&& f.consumers@[plan[i].inputs@[k] as int]@.contains(#[trigger] f.inputs@[i]@[k])
            &&& f.channels@[f.inputs@[i]@[k] as int].consumer
                == (ChannelConsumer::Operation { index: i as usize, slot: k as usize })
        } by {
        assert(channel_wired(plan, f.channels@, i, k));
        let c = first_input_channel(plan, i) + k;
        lemma_edges_from_le(plan, 0, i);
        assert(c < f.channels@.len());
        assert(f.channels@[c].producer == plan[i].inputs@[k]);
    }
    assert forall|j: int, m: int|
        0 <= j < plan.len() && 0 <= m < f.consumers@[j]@.len() implies registered_later(
            plan,
            f,
            j,
            #[trigger] f.consumers@[j]@[m] as int,
        ) by {
        let c = f.consumers@[j]@[m] as int;
        assert(c < f.channels@.len());
        assert(f.channels@[c].producer == j);
        if c != 0 {
            let (i, k) = lemma_channel_owner(plan, 0, c);
            assert(channel_wired(plan, f.channels@, i, k));
            assert(descriptor_ok(plan[i], i));
            assert(plan[i].inputs@[k] < i);
            assert(f.channels@[c].producer == j);
            assert(plan[i].inputs@[k] == j);
            assert(f.inputs@[i]@[k] == c);
            assert(exists|i2: int, k2: int|
                j < i2 < plan.len() && 0 <= k2 < plan[i2].inputs@.len() && plan[i2].inputs@[k2] == j
                    && f.inputs@[i2]@[k2] == c);
        } else {
            assert(j == plan.len() - 1);
        }
    }
}

} // verus!
