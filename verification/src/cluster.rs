//! A cluster of nodes, as far as their sets of messages go.
//!
//! Gossip is sent without acknowledgement: a message may be lost, may arrive
//! late, after others, or more than once. This module models that, and shows
//! what the nodes' sets then are: never more than what was broadcast, and all
//! of it once every node has heard from every other, directly or through
//! others. Whether and when every node hears from every other is a matter of
//! the draws and of the network, and is not said here.

use crate::error::Error;
use crate::gossip::{
    broadcast_post, broadcast_value, gossip_post, gossip_values, is_gossip, ActorView,
};
use crate::laws::gossip_sent_is_gossip_read;
use crate::message::{RequestView, ResponseView};
use vstd::prelude::*;

verus! {

/// A gossip message on its way: whom it is for, and the set it carries.
pub ghost struct Parcel {
    pub to: int,
    pub payload: Set<i64>,
}

/// A cluster: the set that each node holds, and every gossip message sent so
/// far. A message stays in that list when it is delivered, so it can be
/// delivered again; one that is never delivered is lost.
pub ghost struct Cluster {
    pub nodes: Seq<Set<i64>>,
    pub sent: Seq<Parcel>,
}

/// What can happen in a cluster.
pub ghost enum Step {
    /// A node is told to broadcast a value, and takes it into its set.
    Broadcast { node: int, value: i64 },
    /// A node sends its whole set to another.
    Send { from: int, to: int },
    /// A message sent earlier arrives, and its set is merged into the receiver's.
    Deliver { parcel: int },
}

impl Cluster {
    /// Every message sent is for a node of the cluster.
    pub open spec fn well_formed(self) -> bool {
        forall|p: int| 0 <= p < self.sent.len() ==> 0 <= (#[trigger] self.sent[p]).to < self.nodes.len()
    }

    /// `step` can happen in this cluster.
    pub open spec fn allows(self, step: Step) -> bool {
        match step {
            Step::Broadcast { node, .. } => 0 <= node < self.nodes.len(),
            Step::Send { from, to } => 0 <= from < self.nodes.len() && 0 <= to < self.nodes.len(),
            Step::Deliver { parcel } => 0 <= parcel < self.sent.len(),
        }
    }

    /// The cluster after `step`.
    pub open spec fn after(self, step: Step) -> Cluster {
        match step {
            Step::Broadcast { node, value } => Cluster {
                nodes: self.nodes.update(node, self.nodes[node].insert(value)),
                ..self
            },
            Step::Send { from, to } => Cluster {
                sent: self.sent.push(Parcel { to, payload: self.nodes[from] }),
                ..self
            },
            Step::Deliver { parcel } => {
                let to = self.sent[parcel].to;
                Cluster {
                    nodes: self.nodes.update(to, self.nodes[to].union(self.sent[parcel].payload)),
                    ..self
                }
            },
        }
    }

    /// The cluster after `steps`, one after the other.
    pub open spec fn run(self, steps: Seq<Step>) -> Cluster
        decreases steps.len(),
    {
        if steps.len() == 0 {
            self
        } else {
            self.run(steps.drop_last()).after(steps.last())
        }
    }

    /// Each of `steps` can happen when its turn comes.
    pub open spec fn allows_all(self, steps: Seq<Step>) -> bool
        decreases steps.len(),
    {
        steps.len() == 0 || (self.allows_all(steps.drop_last()) && self.run(
            steps.drop_last(),
        ).allows(steps.last()))
    }

    /// Every value that some node holds.
    pub open spec fn held(self) -> Set<i64> {
        Set::new(|value: i64| exists|n: int| 0 <= n < self.nodes.len() && #[trigger] self.nodes[n].contains(value))
    }

    /// Every node's set, and every set on its way, lies within `bound`.
    pub open spec fn within(self, bound: Set<i64>) -> bool {
        &&& forall|n: int| 0 <= n < self.nodes.len() ==> (#[trigger] self.nodes[n]).subset_of(bound)
        &&& forall|p: int| 0 <= p < self.sent.len() ==> (#[trigger] self.sent[p]).payload.subset_of(bound)
    }

    /// Who has heard from `origin` in the course of `steps`: the nodes that
    /// hold all that `origin` held at the start, and the messages that carry
    /// it. `origin` has; a message sent by a node that has, has; and so has a
    /// node to which such a message is delivered.
    pub open spec fn heard(self, steps: Seq<Step>, origin: int) -> Heard
        decreases steps.len(),
    {
        if steps.len() == 0 {
            Heard { nodes: set![origin], parcels: Set::empty() }
        } else {
            let so_far = self.heard(steps.drop_last(), origin);
            let now = self.run(steps.drop_last());
            match steps.last() {
                Step::Broadcast { .. } => so_far,
                Step::Send { from, .. } => if so_far.nodes.contains(from) {
                    Heard { parcels: so_far.parcels.insert(now.sent.len() as int), ..so_far }
                } else {
                    so_far
                },
                Step::Deliver { parcel } => if so_far.parcels.contains(parcel) {
                    Heard { nodes: so_far.nodes.insert(now.sent[parcel].to), ..so_far }
                } else {
                    so_far
                },
            }
        }
    }
}

/// The nodes and the messages that have heard from some node.
pub ghost struct Heard {
    pub nodes: Set<int>,
    pub parcels: Set<int>,
}

/// None of `steps` is a broadcast.
pub open spec fn no_broadcast(steps: Seq<Step>) -> bool {
    forall|i: int| 0 <= i < steps.len() ==> !((#[trigger] steps[i]) is Broadcast)
}

/// Every value that `steps` broadcast is in `bound`.
pub open spec fn broadcasts_within(steps: Seq<Step>, bound: Set<i64>) -> bool {
    forall|i: int|
        0 <= i < steps.len() ==> ((#[trigger] steps[i]) matches Step::Broadcast { value, .. }
            ==> bound.contains(value))
}

/// A step that can happen leaves the cluster well formed, with as many nodes
/// as before, no node's set smaller, and no message sent earlier changed.
pub proof fn step_only_adds(cluster: Cluster, step: Step)
    requires
        cluster.well_formed(),
        cluster.allows(step),
    ensures
        cluster.after(step).well_formed(),
        cluster.after(step).nodes.len() == cluster.nodes.len(),
        cluster.after(step).sent.len() >= cluster.sent.len(),
        forall|n: int|
            0 <= n < cluster.nodes.len() ==> (#[trigger] cluster.nodes[n]).subset_of(
                cluster.after(step).nodes[n],
            ),
        forall|p: int|
            0 <= p < cluster.sent.len() ==> cluster.after(step).sent[p] == #[trigger] cluster.sent[p],
{
}

/// Steps that can happen leave the cluster well formed, with as many nodes as
/// before, no node's set smaller, and no message sent earlier changed.
pub proof fn run_only_adds(cluster: Cluster, steps: Seq<Step>)
    requires
        cluster.well_formed(),
        cluster.allows_all(steps),
    ensures
        cluster.run(steps).well_formed(),
        cluster.run(steps).nodes.len() == cluster.nodes.len(),
        cluster.run(steps).sent.len() >= cluster.sent.len(),
        forall|n: int|
            0 <= n < cluster.nodes.len() ==> (#[trigger] cluster.nodes[n]).subset_of(
                cluster.run(steps).nodes[n],
            ),
        forall|p: int|
            0 <= p < cluster.sent.len() ==> cluster.run(steps).sent[p] == #[trigger] cluster.sent[p],
    decreases steps.len(),
{
    if steps.len() > 0 {
        run_only_adds(cluster, steps.drop_last());
        let before = cluster.run(steps.drop_last());
        step_only_adds(before, steps.last());
        assert forall|n: int| 0 <= n < cluster.nodes.len() implies (#[trigger] cluster.nodes[n]).subset_of(
            cluster.run(steps).nodes[n],
        ) by {
            assert(cluster.nodes[n].subset_of(before.nodes[n]));
            assert(before.nodes[n].subset_of(before.after(steps.last()).nodes[n]));
        }
        assert forall|p: int| 0 <= p < cluster.sent.len() implies cluster.run(steps).sent[p]
            == #[trigger] cluster.sent[p] by {
            assert(before.sent[p] == cluster.sent[p]);
        }
    }
}

/// No node ever holds a value that was not broadcast: where every set of the
/// cluster lies within `bound` at the start and every value broadcast since is
/// in `bound`, every set lies within `bound` at the end, whatever was sent,
/// lost, delayed or delivered twice in between.
pub proof fn nothing_comes_from_nowhere(cluster: Cluster, steps: Seq<Step>, bound: Set<i64>)
    requires
        cluster.well_formed(),
        cluster.allows_all(steps),
        cluster.within(bound),
        broadcasts_within(steps, bound),
    ensures
        cluster.run(steps).within(bound),
    decreases steps.len(),
{
    if steps.len() > 0 {
        let earlier = steps.drop_last();
        assert forall|i: int| 0 <= i < earlier.len() implies ((#[trigger] earlier[i]) matches Step::Broadcast {
            value,
            ..
        } ==> bound.contains(value)) by {
            assert(earlier[i] == steps[i]);
        }
        nothing_comes_from_nowhere(cluster, earlier, bound);
        run_only_adds(cluster, earlier);
        let before = cluster.run(earlier);
        let step = steps.last();
        assert(step == steps[steps.len() - 1]);
        let now = before.after(step);
        assert forall|n: int| 0 <= n < now.nodes.len() implies (#[trigger] now.nodes[n]).subset_of(
            bound,
        ) by {
            assert(before.nodes[n].subset_of(bound));
            match step {
                Step::Deliver { parcel } => {
                    assert(before.sent[parcel].payload.subset_of(bound));
                },
                _ => {},
            }
        }
        assert forall|p: int| 0 <= p < now.sent.len() implies (#[trigger] now.sent[p]).payload.subset_of(
            bound,
        ) by {
            if p < before.sent.len() {
                assert(before.sent[p].payload.subset_of(bound));
            } else {
                match step {
                    Step::Send { from, to } => {
                        assert(before.nodes[from].subset_of(bound));
                    },
                    _ => {},
                }
            }
        }
    }
}

/// Whoever has heard from `origin` holds all that `origin` held at the start.
pub proof fn who_heard_holds(cluster: Cluster, steps: Seq<Step>, origin: int)
    requires
        cluster.well_formed(),
        cluster.allows_all(steps),
        0 <= origin < cluster.nodes.len(),
    ensures
        forall|n: int| #[trigger]
            cluster.heard(steps, origin).nodes.contains(n) ==> 0 <= n < cluster.nodes.len()
                && cluster.nodes[origin].subset_of(cluster.run(steps).nodes[n]),
        forall|p: int| #[trigger]
            cluster.heard(steps, origin).parcels.contains(p) ==> 0 <= p < cluster.run(
                steps,
            ).sent.len() && cluster.nodes[origin].subset_of(cluster.run(steps).sent[p].payload),
    decreases steps.len(),
{
    if steps.len() > 0 {
        let earlier = steps.drop_last();
        who_heard_holds(cluster, earlier, origin);
        run_only_adds(cluster, earlier);
        let before = cluster.run(earlier);
        let step = steps.last();
        step_only_adds(before, step);
        let now = before.after(step);
        let so_far = cluster.heard(earlier, origin);
        let known = cluster.nodes[origin];
        assert forall|n: int| #[trigger]
            cluster.heard(steps, origin).nodes.contains(n) implies 0 <= n < cluster.nodes.len()
            && known.subset_of(now.nodes[n]) by {
            if so_far.nodes.contains(n) {
                assert(known.subset_of(before.nodes[n]));
                assert(before.nodes[n].subset_of(now.nodes[n]));
            } else {
                match step {
                    Step::Deliver { parcel } => {
                        assert(so_far.parcels.contains(parcel));
                        assert(known.subset_of(before.sent[parcel].payload));
                    },
                    _ => {},
                }
            }
        }
        assert forall|p: int| #[trigger]
            cluster.heard(steps, origin).parcels.contains(p) implies 0 <= p < now.sent.len()
            && known.subset_of(now.sent[p].payload) by {
            if so_far.parcels.contains(p) {
                assert(known.subset_of(before.sent[p].payload));
                assert(now.sent[p] == before.sent[p]);
            } else {
                match step {
                    Step::Send { from, to } => {
                        assert(so_far.nodes.contains(from));
                        assert(known.subset_of(before.nodes[from]));
                    },
                    _ => {},
                }
            }
        }
    }
}

/// Once every node has heard from every node, and nothing new was broadcast
/// meanwhile, every node holds the same set: the union of what the nodes held
/// at the start.
pub proof fn all_heard_from_all_agree(cluster: Cluster, steps: Seq<Step>)
    requires
        cluster.well_formed(),
        cluster.allows_all(steps),
        no_broadcast(steps),
        cluster.within(cluster.held()),
        forall|origin: int, n: int|
            0 <= origin < cluster.nodes.len() && 0 <= n < cluster.nodes.len() ==> #[trigger] cluster.heard(
                steps,
                origin,
            ).nodes.contains(n),
    ensures
        forall|n: int|
            0 <= n < cluster.nodes.len() ==> #[trigger] cluster.run(steps).nodes[n] == cluster.held(),
{
    let all = cluster.held();
    let end = cluster.run(steps);
    assert(broadcasts_within(steps, all));
    nothing_comes_from_nowhere(cluster, steps, all);
    run_only_adds(cluster, steps);
    assert forall|n: int| 0 <= n < cluster.nodes.len() implies #[trigger] end.nodes[n] == all by {
        assert(end.nodes[n].subset_of(all));
        assert forall|value: i64| all.contains(value) implies end.nodes[n].contains(value) by {
            let origin = choose|origin: int|
                0 <= origin < cluster.nodes.len() && #[trigger] cluster.nodes[origin].contains(value);
            who_heard_holds(cluster, steps, origin);
            assert(cluster.heard(steps, origin).nodes.contains(n));
            assert(cluster.nodes[origin].subset_of(end.nodes[n]));
        }
        assert(end.nodes[n] =~= all);
    }
}

/// The cluster holds, node by node, what the actors in `states` hold.
pub open spec fn mirrors(cluster: Cluster, states: Seq<ActorView>) -> bool {
    &&& cluster.nodes.len() == states.len()
    &&& forall|n: int| 0 <= n < states.len() ==> cluster.nodes[n] == (#[trigger] states[n]).messages
}

/// A broadcast that an actor handles is a `Broadcast` step of the cluster.
pub proof fn a_broadcast_handled_is_a_step(
    cluster: Cluster,
    states: Seq<ActorView>,
    node: int,
    request: RequestView,
    after: ActorView,
    outcome: Result<Seq<ResponseView>, Error>,
    value: i64,
)
    requires
        mirrors(cluster, states),
        0 <= node < states.len(),
        !(states[node].phase is Unidentified),
        broadcast_value(request.body) == Ok::<_, Error>(value),
        broadcast_post(states[node], request, after, outcome),
    ensures
        cluster.allows(Step::Broadcast { node, value }),
        mirrors(cluster.after(Step::Broadcast { node, value }), states.update(node, after)),
{
    assert(cluster.nodes[node] == states[node].messages);
}

/// A gossip message that an actor writes in a round is a `Send` step of the
/// cluster: what the message carries lists the set that the step sends.
pub proof fn a_gossip_written_is_a_step(
    cluster: Cluster,
    states: Seq<ActorView>,
    from: int,
    to: int,
    destination: Seq<char>,
    message: ResponseView,
)
    requires
        mirrors(cluster, states),
        0 <= from < states.len(),
        0 <= to < states.len(),
        is_gossip(states[from], destination, message),
    ensures
        cluster.allows(Step::Send { from, to }),
        cluster.after(Step::Send { from, to }).nodes == cluster.nodes,
        gossip_values(message.body) matches Ok(values) && values.to_set() == cluster.after(
            Step::Send { from, to },
        ).sent.last().payload,
{
    gossip_sent_is_gossip_read(states[from], destination, message);
    assert(cluster.nodes[from] == states[from].messages);
}

/// A gossip message that an actor handles is a `Deliver` step of the cluster.
pub proof fn a_gossip_handled_is_a_step(
    cluster: Cluster,
    states: Seq<ActorView>,
    parcel: int,
    request: RequestView,
    after: ActorView,
    outcome: Result<Seq<ResponseView>, Error>,
)
    requires
        mirrors(cluster, states),
        cluster.well_formed(),
        0 <= parcel < cluster.sent.len(),
        !(states[cluster.sent[parcel].to].phase is Unidentified),
        gossip_values(request.body) matches Ok(values) && values.to_set()
            == cluster.sent[parcel].payload,
        gossip_post(states[cluster.sent[parcel].to], request, after, outcome),
    ensures
        cluster.allows(Step::Deliver { parcel }),
        mirrors(
            cluster.after(Step::Deliver { parcel }),
            states.update(cluster.sent[parcel].to, after),
        ),
{
    let to = cluster.sent[parcel].to;
    assert(cluster.nodes[to] == states[to].messages);
}

} // verus!
