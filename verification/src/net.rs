//! The network actor: applies delay, drop, duplication, corruption and
//! partition policy between a sender and a receiver.
//!
//! It handles only `MessageSend` events.  Every decision is drawn from
//! the simulation's generator in a fixed order — one draw for the drop
//! gate, one for the delay, one for the corruption gate, one for the
//! duplication gate and, only when duplication fires, one for the copy
//! count — so the consumed stream is a pure function of the network state
//! and the generator state.

use vstd::prelude::*;

verus! {

use crate::message::Message;
use crate::rng::{rng_step, rng_out, RATE_SCALE};
use crate::sim::{ActorContext, ActorId, CtxEvent};
use crate::system::SysEvent;
use crate::tables::{LinkSet, NameSet};

/// The sum of a sequence of observed sizes.
pub open spec fn sum_sizes(s: Seq<u64>) -> int
    decreases s.len(),
{
    if s.len() == 0 {
        0
    } else {
        sum_sizes(s.drop_last()) + s.last()
    }
}

pub proof fn lemma_sum_sizes_nonneg(s: Seq<u64>)
    ensures
        sum_sizes(s) >= 0,
    decreases s.len(),
{
    if s.len() > 0 {
        lemma_sum_sizes_nonneg(s.drop_last());
    }
}

pub proof fn lemma_sum_sizes_push(s: Seq<u64>, x: u64)
    ensures
        sum_sizes(s.push(x)) == sum_sizes(s) + x,
{
    assert(s.push(x).drop_last() =~= s);
    assert(s.push(x).last() == x);
}

/// `v` capped at the largest value a counter can hold.
pub open spec fn capped(v: int) -> int {
    if v > u64::MAX {
        u64::MAX as int
    } else {
        v
    }
}

/// The model of the simulated network between the nodes: the fault
/// policy, the crash and link sets, and the traffic aggregates.
pub struct Network {
    /// Lower bound of the delivery delay, in ticks.
    pub min_delay: u64,
    /// Upper bound of the delivery delay, in ticks.
    pub max_delay: u64,
    /// Probability of dropping a send, in parts per `RATE_SCALE`.
    pub drop_rate: u64,
    /// Probability of duplicating a delivery, in parts per `RATE_SCALE`.
    pub dupl_rate: u64,
    /// Probability of corrupting a delivery, in parts per `RATE_SCALE`.
    pub corrupt_rate: u64,
    /// Nodes whose sends are discarded outright.
    pub crashed_nodes: NameSet,
    /// Nodes whose incoming traffic is dropped.
    pub drop_incoming: NameSet,
    /// Nodes whose outgoing traffic is dropped.
    pub drop_outgoing: NameSet,
    /// Directed links that are disabled.
    pub disabled_links: LinkSet,
    /// How many sends the network has observed, drops included.
    pub message_count: u64,
    /// The summed size of the observed sends, drops included.
    pub traffic: u64,
    /// The sizes of the observed sends, in order; the counters above are
    /// these observations aggregated.
    pub observed: Ghost<Seq<u64>>,
}

impl Network {
    /// The sets hold no duplicates, the delay range is ordered, and the
    /// counters agree with the observation log.
    pub open spec fn wf(&self) -> bool {
        &&& self.crashed_nodes.wf()
        &&& self.drop_incoming.wf()
        &&& self.drop_outgoing.wf()
        &&& self.disabled_links.wf()
        &&& self.min_delay <= self.max_delay
        &&& self.message_count == capped(self.observed@.len() as int)
        &&& self.traffic == capped(sum_sizes(self.observed@))
    }

    pub fn new() -> (r: Network)
        ensures
            r.wf(),
            r.min_delay == 1000 && r.max_delay == 1000,
            r.drop_rate == 0 && r.dupl_rate == 0 && r.corrupt_rate == 0,
            forall|n: Seq<char>| !r.crashed_nodes.contains(n),
            forall|n: Seq<char>| !r.drop_incoming.contains(n),
            forall|n: Seq<char>| !r.drop_outgoing.contains(n),
            forall|f: Seq<char>, t: Seq<char>| !r.disabled_links.contains(f, t),
            r.message_count == 0 && r.traffic == 0,
            r.observed@.len() == 0,
    {
        Network {
            min_delay: 1000,
            max_delay: 1000,
            drop_rate: 0,
            dupl_rate: 0,
            corrupt_rate: 0,
            crashed_nodes: NameSet::new(),
            drop_incoming: NameSet::new(),
            drop_outgoing: NameSet::new(),
            disabled_links: LinkSet::new(),
            message_count: 0,
            traffic: 0,
            observed: Ghost(Seq::empty()),
        }
    }
}

/// The views of the names in a group of nodes.
pub open spec fn group_views(s: Seq<&str>) -> Seq<Seq<char>> {
    Seq::new(s.len(), |i: int| s[i]@)
}

/// `(f, t)` crosses between the two groups, in either direction.
pub open spec fn partition_pair(
    a: Seq<Seq<char>>,
    b: Seq<Seq<char>>,
    f: Seq<char>,
    t: Seq<char>,
) -> bool {
    ||| exists|i: int, j: int|
        0 <= i < a.len() && 0 <= j < b.len() && #[trigger] a[i] == f && #[trigger] b[j] == t
    ||| exists|i: int, j: int|
        0 <= i < b.len() && 0 <= j < a.len() && #[trigger] b[i] == f && #[trigger] a[j] == t
}

impl Network {
    /// Set both delay bounds to the same value.
    pub fn set_delay(&mut self, delay: u64)
        ensures
            *final(self) == (Network { min_delay: delay, max_delay: delay, ..*old(self) }),
    {
        self.min_delay = delay;
        self.max_delay = delay;
    }

    /// Set the delay range.
    pub fn set_delays(&mut self, min_delay: u64, max_delay: u64)
        requires
            min_delay <= max_delay,
        ensures
            *final(self) == (Network { min_delay, max_delay, ..*old(self) }),
    {
        self.min_delay = min_delay;
        self.max_delay = max_delay;
    }

    pub fn set_drop_rate(&mut self, drop_rate: u64)
        ensures
            *final(self) == (Network { drop_rate, ..*old(self) }),
    {
        self.drop_rate = drop_rate;
    }

    pub fn set_dupl_rate(&mut self, dupl_rate: u64)
        ensures
            *final(self) == (Network { dupl_rate, ..*old(self) }),
    {
        self.dupl_rate = dupl_rate;
    }

    pub fn set_corrupt_rate(&mut self, corrupt_rate: u64)
        ensures
            *final(self) == (Network { corrupt_rate, ..*old(self) }),
    {
        self.corrupt_rate = corrupt_rate;
    }

    /// All fields but the crashed set are unchanged.
    pub open spec fn only_crashed_changed(pre: Network, post: Network) -> bool {
        &&& post == (Network { crashed_nodes: post.crashed_nodes, ..pre })
    }

    pub fn node_crashed(&mut self, node_id: &str)
        requires
            old(self).wf(),
        ensures
            final(self).wf(),
            Network::only_crashed_changed(*old(self), *final(self)),
            final(self).crashed_nodes.contains(node_id@),
            forall|n: Seq<char>|
                n != node_id@ ==> final(self).crashed_nodes.contains(n) == old(
                    self,
                ).crashed_nodes.contains(n),
    {
        self.crashed_nodes.insert(node_id);
    }

    pub fn node_recovered(&mut self, node_id: &str)
        requires
            old(self).wf(),
        ensures
            final(self).wf(),
            Network::only_crashed_changed(*old(self), *final(self)),
            !final(self).crashed_nodes.contains(node_id@),
            forall|n: Seq<char>|
                n != node_id@ ==> final(self).crashed_nodes.contains(n) == old(
                    self,
                ).crashed_nodes.contains(n),
    {
        self.crashed_nodes.remove(node_id);
    }

    /// All fields but the two block sets are unchanged.
    pub open spec fn only_blocks_changed(pre: Network, post: Network) -> bool {
        post == (Network {
            drop_incoming: post.drop_incoming,
            drop_outgoing: post.drop_outgoing,
            ..pre
        })
    }

    pub fn drop_incoming(&mut self, node_id: &str)
        requires
            old(self).wf(),
        ensures
            final(self).wf(),
            Network::only_blocks_changed(*old(self), *final(self)),
            final(self).drop_outgoing@ == old(self).drop_outgoing@,
            final(self).drop_incoming.contains(node_id@),
            forall|n: Seq<char>|
                n != node_id@ ==> final(self).drop_incoming.contains(n) == old(
                    self,
                ).drop_incoming.contains(n),
    {
        self.drop_incoming.insert(node_id);
    }

    pub fn pass_incoming(&mut self, node_id: &str)
        requires
            old(self).wf(),
        ensures
            final(self).wf(),
            Network::only_blocks_changed(*old(self), *final(self)),
            final(self).drop_outgoing@ == old(self).drop_outgoing@,
            !final(self).drop_incoming.contains(node_id@),
            forall|n: Seq<char>|
                n != node_id@ ==> final(self).drop_incoming.contains(n) == old(
                    self,
                ).drop_incoming.contains(n),
    {
        self.drop_incoming.remove(node_id);
    }

    pub fn drop_outgoing(&mut self, node_id: &str)
        requires
            old(self).wf(),
        ensures
            final(self).wf(),
            Network::only_blocks_changed(*old(self), *final(self)),
            final(self).drop_incoming@ == old(self).drop_incoming@,
            final(self).drop_outgoing.contains(node_id@),
            forall|n: Seq<char>|
                n != node_id@ ==> final(self).drop_outgoing.contains(n) == old(
                    self,
                ).drop_outgoing.contains(n),
    {
        self.drop_outgoing.insert(node_id);
    }

    pub fn pass_outgoing(&mut self, node_id: &str)
        requires
            old(self).wf(),
        ensures
            final(self).wf(),
            Network::only_blocks_changed(*old(self), *final(self)),
            final(self).drop_incoming@ == old(self).drop_incoming@,
            !final(self).drop_outgoing.contains(node_id@),
            forall|n: Seq<char>|
                n != node_id@ ==> final(self).drop_outgoing.contains(n) == old(
                    self,
                ).drop_outgoing.contains(n),
    {
        self.drop_outgoing.remove(node_id);
    }

    /// Drop both directions of the node's traffic.
    pub fn disconnect_node(&mut self, node_id: &str)
        requires
            old(self).wf(),
        ensures
            final(self).wf(),
            Network::only_blocks_changed(*old(self), *final(self)),
            final(self).drop_incoming.contains(node_id@),
            final(self).drop_outgoing.contains(node_id@),
            forall|n: Seq<char>|
                n != node_id@ ==> final(self).drop_incoming.contains(n) == old(
                    self,
                ).drop_incoming.contains(n) && final(self).drop_outgoing.contains(n) == old(
                    self,
                ).drop_outgoing.contains(n),
    {
        self.drop_incoming.insert(node_id);
        self.drop_outgoing.insert(node_id);
    }

    /// Let both directions of the node's traffic pass again.
    pub fn connect_node(&mut self, node_id: &str)
        requires
            old(self).wf(),
        ensures
            final(self).wf(),
            Network::only_blocks_changed(*old(self), *final(self)),
            !final(self).drop_incoming.contains(node_id@),
            !final(self).drop_outgoing.contains(node_id@),
            forall|n: Seq<char>|
                n != node_id@ ==> final(self).drop_incoming.contains(n) == old(
                    self,
                ).drop_incoming.contains(n) && final(self).drop_outgoing.contains(n) == old(
                    self,
                ).drop_outgoing.contains(n),
    {
        self.drop_incoming.remove(node_id);
        self.drop_outgoing.remove(node_id);
    }

    /// All fields but the disabled-link set are unchanged.
    pub open spec fn only_links_changed(pre: Network, post: Network) -> bool {
        post == (Network { disabled_links: post.disabled_links, ..pre })
    }

    pub fn disable_link(&mut self, from: &str, to: &str)
        requires
            old(self).wf(),
        ensures
            final(self).wf(),
            Network::only_links_changed(*old(self), *final(self)),
            final(self).disabled_links.contains(from@, to@),
            forall|f: Seq<char>, t: Seq<char>|
                (f, t) != (from@, to@) ==> final(self).disabled_links.contains(f, t) == old(
                    self,
                ).disabled_links.contains(f, t),
    {
        self.disabled_links.insert(from, to);
    }

    pub fn enable_link(&mut self, from: &str, to: &str)
        requires
            old(self).wf(),
        ensures
            final(self).wf(),
            Network::only_links_changed(*old(self), *final(self)),
            !final(self).disabled_links.contains(from@, to@),
            forall|f: Seq<char>, t: Seq<char>|
                (f, t) != (from@, to@) ==> final(self).disabled_links.contains(f, t) == old(
                    self,
                ).disabled_links.contains(f, t),
    {
        self.disabled_links.remove(from, to);
    }

    /// Disable every directed link between the two groups, in both
    /// directions.
    pub fn make_partition(&mut self, group1: &[&str], group2: &[&str])
        requires
            old(self).wf(),
        ensures
            final(self).wf(),
            Network::only_links_changed(*old(self), *final(self)),
            forall|f: Seq<char>, t: Seq<char>|
                final(self).disabled_links.contains(f, t) <==> (old(self).disabled_links.contains(
                    f,
                    t,
                ) || partition_pair(group_views(group1@), group_views(group2@), f, t)),
    {
        let ghost a = group_views(group1@);
        let ghost b = group_views(group2@);
        let mut i: usize = 0;
        while i < group1.len()
            invariant
                old(self).wf(),
                self.wf(),
                i <= group1@.len(),
                a == group_views(group1@),
                b == group_views(group2@),
                Network::only_links_changed(*old(self), *self),
                forall|f: Seq<char>, t: Seq<char>|
                    old(self).disabled_links.contains(f, t) ==> self.disabled_links.contains(f, t),
                forall|f: Seq<char>, t: Seq<char>|
                    self.disabled_links.contains(f, t) ==> (old(self).disabled_links.contains(f, t)
                        || partition_pair(a, b, f, t)),
                forall|x: int, y: int|
                    0 <= x < i && 0 <= y < b.len() ==> #[trigger] self.disabled_links.contains(
                        a[x],
                        b[y],
                    ) && self.disabled_links.contains(b[y], a[x]),
            decreases group1@.len() - i,
        {
            let n1 = group1[i];
            let mut j: usize = 0;
            while j < group2.len()
                invariant
                    old(self).wf(),
                    self.wf(),
                    i < group1@.len(),
                    j <= group2@.len(),
                    a == group_views(group1@),
                    b == group_views(group2@),
                    n1@ == a[i as int],
                    Network::only_links_changed(*old(self), *self),
                    forall|f: Seq<char>, t: Seq<char>|
                        old(self).disabled_links.contains(f, t) ==> self.disabled_links.contains(
                            f,
                            t,
                        ),
                    forall|f: Seq<char>, t: Seq<char>|
                        self.disabled_links.contains(f, t) ==> (old(
                            self,
                        ).disabled_links.contains(f, t) || partition_pair(a, b, f, t)),
                    forall|x: int, y: int|
                        0 <= x < i && 0 <= y < b.len() ==> #[trigger] self.disabled_links.contains(
                            a[x],
                            b[y],
                        ) && self.disabled_links.contains(b[y], a[x]),
                    forall|y: int|
                        0 <= y < j ==> #[trigger] self.disabled_links.contains(a[i as int], b[y])
                            && self.disabled_links.contains(b[y], a[i as int]),
                decreases group2@.len() - j,
            {
                let n2 = group2[j];
                assert(n2@ == b[j as int]);
                self.disabled_links.insert(n1, n2);
                self.disabled_links.insert(n2, n1);
                proof {
                    assert(partition_pair(a, b, n1@, n2@));
                    assert(partition_pair(a, b, n2@, n1@));
                }
                j += 1;
            }
            proof {
                assert forall|x: int, y: int|
                    0 <= x < i + 1 && 0 <= y < b.len() implies #[trigger] self.disabled_links.contains(
                    a[x],
                    b[y],
                ) && self.disabled_links.contains(b[y], a[x]) by {
                    if x == i {
                        assert(self.disabled_links.contains(a[i as int], b[y]));
                        assert(self.disabled_links.contains(b[y], a[i as int]));
                    }
                }
            }
            i += 1;
        }
        proof {
            assert forall|f: Seq<char>, t: Seq<char>|
                partition_pair(a, b, f, t) implies self.disabled_links.contains(f, t) by {
                if exists|x: int, y: int|
                    0 <= x < a.len() && 0 <= y < b.len() && #[trigger] a[x] == f && #[trigger] b[y]
                        == t {
                    let (x, y) = choose|x: int, y: int|
                        0 <= x < a.len() && 0 <= y < b.len() && #[trigger] a[x] == f
                            && #[trigger] b[y] == t;
                    assert(self.disabled_links.contains(a[x], b[y]));
                } else {
                    let (x, y) = choose|x: int, y: int|
                        0 <= x < b.len() && 0 <= y < a.len() && #[trigger] b[x] == f
                            && #[trigger] a[y] == t;
                    assert(self.disabled_links.contains(a[y], b[x]));
                    assert(self.disabled_links.contains(b[x], a[y]));
                }
            }
        }
    }

    /// Clear every drop and link override; the crashed set, the delay
    /// range and the probability knobs stay as they are.
    pub fn reset_network(&mut self)
        requires
            old(self).wf(),
        ensures
            final(self).wf(),
            reset_outcome(*final(self), *old(self)),
    {
        self.disabled_links.clear();
        self.drop_incoming.clear();
        self.drop_outgoing.clear();
    }

    pub fn get_message_count(&self) -> (r: u64)
        ensures
            r == self.message_count,
    {
        self.message_count
    }

    pub fn get_traffic(&self) -> (r: u64)
        ensures
            r == self.traffic,
    {
        self.traffic
    }

    /// A deep copy with the same policy and the same counters.
    pub fn duplicate(&self) -> (r: Network)
        ensures
            same_policy(r, *self),
            same_counters(r, *self),
            r.wf() == self.wf(),
    {
        Network {
            min_delay: self.min_delay,
            max_delay: self.max_delay,
            drop_rate: self.drop_rate,
            dupl_rate: self.dupl_rate,
            corrupt_rate: self.corrupt_rate,
            crashed_nodes: self.crashed_nodes.duplicate(),
            drop_incoming: self.drop_incoming.duplicate(),
            drop_outgoing: self.drop_outgoing.duplicate(),
            disabled_links: self.disabled_links.duplicate(),
            message_count: self.message_count,
            traffic: self.traffic,
            observed: Ghost(self.observed@),
        }
    }
}

/// The network's counters are exactly its observation log aggregated:
/// the message count is how many sends it has observed — drops included —
/// and the traffic is the sum of their sizes, as long as neither counter
/// has saturated.
pub proof fn lemma_counters_match_observations(net: Network)
    requires
        net.wf(),
        net.observed@.len() <= u64::MAX,
        sum_sizes(net.observed@) <= u64::MAX,
    ensures
        net.message_count == net.observed@.len(),
        net.traffic == sum_sizes(net.observed@),
{
    lemma_sum_sizes_nonneg(net.observed@);
}

/// With the drop probability at `RATE_SCALE`, every send is discarded or
/// dropped: whatever the generator state, no delivery leaves the network.
pub proof fn lemma_full_drop_rate(net: Network, src: Seq<char>, dest: Seq<char>, s0: u64)
    requires
        net.drop_rate == RATE_SCALE,
    ensures
        net_gate_drops(net, src, dest, s0),
{
    crate::rng::lemma_rng_out_bounded(rng_step(s0));
}

/// With the duplication probability at `RATE_SCALE`, every delivery fires
/// the duplication branch, and one send turns into two or three receives.
pub proof fn lemma_full_duplication(net: Network, s0: u64)
    requires
        net.dupl_rate == RATE_SCALE,
    ensures
        net_duplicates(net, s0),
        2 <= net_deliveries(net, s0) <= 3,
{
    crate::rng::lemma_rng_out_bounded(rng_step(rng_step(rng_step(rng_step(s0)))));
}

/// A send across a disabled link is dropped, whatever the draws.
pub proof fn lemma_disabled_link_drops(net: Network, src: Seq<char>, dest: Seq<char>, s0: u64)
    requires
        net.disabled_links.contains(src, dest),
    ensures
        net_gate_drops(net, src, dest, s0),
{
}

/// The relation `reset_network` establishes: the drop and link override
/// sets are empty, and every other field — the crashed set, the delay
/// range, the probability knobs and the counters — is as it was.
pub open spec fn reset_outcome(post: Network, pre: Network) -> bool {
    &&& post == (Network {
        disabled_links: post.disabled_links,
        drop_incoming: post.drop_incoming,
        drop_outgoing: post.drop_outgoing,
        ..pre
    })
    &&& post.disabled_links@.len() == 0
    &&& post.drop_incoming@.len() == 0
    &&& post.drop_outgoing@.len() == 0
    &&& forall|f: Seq<char>, t: Seq<char>| !post.disabled_links.contains(f, t)
    &&& forall|n: Seq<char>| !post.drop_incoming.contains(n)
    &&& forall|n: Seq<char>| !post.drop_outgoing.contains(n)
}

/// Resetting the network is idempotent: a second reset leaves the state
/// of the first, and what a reset leaves behind equals a freshly
/// constructed network's override sets while the non-reset fields — the
/// crashed set, the delay range, the rate knobs and the counters — carry
/// over unchanged.
pub proof fn lemma_reset_network_idempotent(a: Network, b: Network, c: Network)
    requires
        reset_outcome(b, a),
        reset_outcome(c, b),
    ensures
        c.disabled_links@ == b.disabled_links@,
        c.drop_incoming@ == b.drop_incoming@,
        c.drop_outgoing@ == b.drop_outgoing@,
        c.crashed_nodes == a.crashed_nodes,
        c.min_delay == a.min_delay && c.max_delay == a.max_delay,
        c.drop_rate == a.drop_rate && c.dupl_rate == a.dupl_rate && c.corrupt_rate
            == a.corrupt_rate,
        c.message_count == a.message_count && c.traffic == a.traffic,
{
    assert(c.disabled_links@ =~= b.disabled_links@);
    assert(c.drop_incoming@ =~= b.drop_incoming@);
    assert(c.drop_outgoing@ =~= b.drop_outgoing@);
}

/// Both networks apply the same policy: equal knobs and equal sets.
pub open spec fn same_policy(a: Network, b: Network) -> bool {
    &&& a.min_delay == b.min_delay
    &&& a.max_delay == b.max_delay
    &&& a.drop_rate == b.drop_rate
    &&& a.dupl_rate == b.dupl_rate
    &&& a.corrupt_rate == b.corrupt_rate
    &&& a.crashed_nodes@ == b.crashed_nodes@
    &&& a.drop_incoming@ == b.drop_incoming@
    &&& a.drop_outgoing@ == b.drop_outgoing@
    &&& a.disabled_links@ == b.disabled_links@
}

/// Both networks have observed the same traffic.
pub open spec fn same_counters(a: Network, b: Network) -> bool {
    &&& a.message_count == b.message_count
    &&& a.traffic == b.traffic
    &&& a.observed@ == b.observed@
}

/// A send from a crashed node is discarded before any gate is consulted.
pub open spec fn net_discards(net: Network, src: Seq<char>) -> bool {
    net.crashed_nodes.contains(src)
}

/// One of the four drop gates fires: the probabilistic gate (one draw
/// from state `s0`), the sender's outgoing block, the receiver's incoming
/// block, or the disabled link.
pub open spec fn net_gate_drops(net: Network, src: Seq<char>, dest: Seq<char>, s0: u64) -> bool {
    ||| rng_out(rng_step(s0)) < net.drop_rate
    ||| net.drop_outgoing.contains(src)
    ||| net.drop_incoming.contains(dest)
    ||| net.disabled_links.contains(src, dest)
}

/// The delay a draw selects within `[min, max]`.
pub open spec fn delay_of(min: u64, max: u64, draw: u64) -> u64 {
    (min + (max - min) * draw / (RATE_SCALE as int)) as u64
}

/// The delay the network computes for a send met in generator state `s0`:
/// the delay draw is the second draw, after the drop gate.
pub open spec fn net_delay(net: Network, s0: u64) -> u64 {
    delay_of(net.min_delay, net.max_delay, rng_out(rng_step(rng_step(s0))))
}

/// Whether the corruption gate fires: the third draw.
pub open spec fn net_corrupts(net: Network, s0: u64) -> bool {
    rng_out(rng_step(rng_step(rng_step(s0)))) < net.corrupt_rate
}

/// Whether the duplication gate fires: the fourth draw.
pub open spec fn net_duplicates(net: Network, s0: u64) -> bool {
    rng_out(rng_step(rng_step(rng_step(rng_step(s0))))) < net.dupl_rate
}

/// How many copies a duplication draw yields: two or three.
pub open spec fn dup_count_of(draw: u64) -> int {
    if 2 * (draw + 1) <= RATE_SCALE {
        2
    } else {
        3
    }
}

/// How many `MessageReceive` events one delivered send turns into.
pub open spec fn net_deliveries(net: Network, s0: u64) -> int {
    if net_duplicates(net, s0) {
        dup_count_of(rng_out(rng_step(rng_step(rng_step(rng_step(rng_step(s0)))))))
    } else {
        1
    }
}

/// The generator state after the network has handled one send that
/// arrived in state `s0`.
pub open spec fn net_rng_after(net: Network, src: Seq<char>, dest: Seq<char>, s0: u64) -> u64 {
    if net_discards(net, src) {
        s0
    } else if net_gate_drops(net, src, dest, s0) {
        rng_step(s0)
    } else if net_duplicates(net, s0) {
        rng_step(rng_step(rng_step(rng_step(rng_step(s0)))))
    } else {
        rng_step(rng_step(rng_step(rng_step(s0))))
    }
}

/// Everything `post` holds beyond `pre` is the same delivery: a
/// `MessageReceive` of `m` from `src` addressed and routed to `dest`
/// after `delay` ticks.
pub open spec fn delivery_batch<M: Message>(
    pre: Seq<CtxEvent<M>>,
    post: Seq<CtxEvent<M>>,
    m: M,
    src: ActorId,
    dest: ActorId,
    delay: u64,
) -> bool {
    forall|k: int|
        pre.len() <= k < post.len() ==> post[k] == (CtxEvent {
            event: SysEvent::MessageReceive { msg: m, src, dest },
            dest,
            delay,
        })
}

impl Network {
    /// The delay selected by the draw `d`, scaled into the configured
    /// range.
    fn compute_delay(&self, d: u64) -> (r: u64)
        requires
            self.min_delay <= self.max_delay,
            d < RATE_SCALE,
        ensures
            r == delay_of(self.min_delay, self.max_delay, d),
    {
        let span = self.max_delay - self.min_delay;
        proof {
            assert(span as int * d as int <= u64::MAX as int * RATE_SCALE as int)
                by (nonlinear_arith)
                requires
                    span <= u64::MAX,
                    d <= RATE_SCALE,
            ;
        }
        let wide = (span as u128) * (d as u128);
        let jit128 = wide / (RATE_SCALE as u128);
        proof {
            assert(span * d / (RATE_SCALE as int) <= span) by (nonlinear_arith)
                requires
                    d < RATE_SCALE,
                    span >= 0,
            ;
            assert(span * d / (RATE_SCALE as int) >= 0) by (nonlinear_arith)
                requires
                    d >= 0,
                    span >= 0,
            ;
        }
        let jit = jit128 as u64;
        self.min_delay + jit
    }

    /// Emit `count` identical deliveries of `m` from `src` to `dest`
    /// after `delay` ticks.
    fn emit_deliveries<M: Message>(
        m: M,
        src: ActorId,
        dest: ActorId,
        delay: u64,
        count: u64,
        ctx: &mut ActorContext<M>,
    )
        requires
            1 <= count <= 3,
        ensures
            final(ctx).id == old(ctx).id,
            final(ctx).time == old(ctx).time,
            final(ctx).rng == old(ctx).rng,
            final(ctx).canceled_events == old(ctx).canceled_events,
            old(ctx).next_event_id + count <= u64::MAX ==> {
                &&& final(ctx).events@.len() == old(ctx).events@.len() + count
                &&& final(ctx).events@.subrange(0, old(ctx).events@.len() as int) == old(
                    ctx,
                ).events@
                &&& final(ctx).next_event_id == old(ctx).next_event_id + count
                &&& delivery_batch(old(ctx).events@, final(ctx).events@, m, src, dest, delay)
            },
    {
        let mut i: u64 = 0;
        while i < count
            invariant
                i <= count,
                count <= 3,
                ctx.id == old(ctx).id,
                ctx.time == old(ctx).time,
                ctx.rng == old(ctx).rng,
                ctx.canceled_events == old(ctx).canceled_events,
                old(ctx).next_event_id + count <= u64::MAX ==> {
                    &&& ctx.events@.len() == old(ctx).events@.len() + i
                    &&& ctx.events@.subrange(0, old(ctx).events@.len() as int) == old(ctx).events@
                    &&& ctx.next_event_id == old(ctx).next_event_id + i
                    &&& forall|k: int|
                        old(ctx).events@.len() <= k < ctx.events@.len() ==> ctx.events@[k]
                            == (CtxEvent {
                            event: SysEvent::MessageReceive { msg: m, src: src, dest: dest },
                            dest: dest,
                            delay: delay,
                        })
                },
            decreases count - i,
        {
            let e = SysEvent::MessageReceive {
                msg: m.duplicate(),
                src: src.duplicate(),
                dest: dest.duplicate(),
            };
            ctx.emit(e, dest.duplicate(), delay);
            proof {
                if old(ctx).next_event_id + count <= u64::MAX {
                    assert(ctx.events@.subrange(0, old(ctx).events@.len() as int) =~= old(
                        ctx,
                    ).events@);
                }
            }
            i += 1;
        }
    }

    /// Record one observed send of the given size in the aggregates.
    fn record_send(&mut self, msg_size: u64)
        requires
            old(self).wf(),
        ensures
            final(self).wf(),
            same_policy(*final(self), *old(self)),
            final(self).message_count == old(self).message_count.saturating_add(1),
            final(self).observed@ == old(self).observed@.push(msg_size),
            final(self).traffic == old(self).traffic.saturating_add(msg_size),
    {
        self.message_count = self.message_count.saturating_add(1);
        self.traffic = self.traffic.saturating_add(msg_size);
        proof {
            lemma_sum_sizes_push(self.observed@, msg_size);
            lemma_sum_sizes_nonneg(self.observed@);
        }
        self.observed = Ghost(self.observed@.push(msg_size));
    }

    /// Turn one passed send into its deliveries: compute the delay, let
    /// the corruption and duplication gates fire, and emit the
    /// `MessageReceive` events at the destination.  Entered right after
    /// the drop gate consumed its draw from state `s0`.
    #[verifier::rlimit(100)]
    #[verifier::spinoff_prover]
    fn route_delivery<M: Message>(
        &self,
        msg: M,
        src: ActorId,
        dest: ActorId,
        ctx: &mut ActorContext<M>,
        Ghost(s0): Ghost<u64>,
    )
        requires
            self.wf(),
            old(ctx).rng.state == rng_step(s0),
        ensures
            final(ctx).id == old(ctx).id,
            final(ctx).time == old(ctx).time,
            final(ctx).canceled_events == old(ctx).canceled_events,
            final(ctx).rng.state == (if net_duplicates(*self, s0) {
                rng_step(rng_step(rng_step(rng_step(rng_step(s0)))))
            } else {
                rng_step(rng_step(rng_step(rng_step(s0))))
            }),
            old(ctx).next_event_id + net_deliveries(*self, s0) <= u64::MAX ==> {
                &&& final(ctx).events@.len() == old(ctx).events@.len() + net_deliveries(
                    *self,
                    s0,
                )
                &&& final(ctx).events@.subrange(0, old(ctx).events@.len() as int) == old(
                    ctx,
                ).events@
                &&& final(ctx).next_event_id == old(ctx).next_event_id + net_deliveries(*self, s0)
                &&& exists|m: M|
                    {
                        &&& #[trigger] delivery_batch(
                            old(ctx).events@,
                            final(ctx).events@,
                            m,
                            src,
                            dest,
                            net_delay(*self, s0),
                        )
                        &&& (!net_corrupts(*self, s0) ==> m == msg)
                    }
            },
    {
        let d = ctx.rand();
        let delay = self.compute_delay(d);
        assert(delay == net_delay(*self, s0));
        let mut m = msg;
        let c = ctx.rand();
        if c < self.corrupt_rate {
            m.corrupt();
        } else {
            assert(!net_corrupts(*self, s0));
        }
        let dd = ctx.rand();
        let count: u64 = if dd >= self.dupl_rate {
            assert(!net_duplicates(*self, s0));
            1
        } else {
            assert(net_duplicates(*self, s0));
            let cnt = ctx.rand();
            if 2 * (cnt + 1) <= RATE_SCALE {
                2
            } else {
                3
            }
        };
        assert(count == net_deliveries(*self, s0));
        Network::emit_deliveries(m, src, dest, delay, count, ctx);
    }

    /// Handle one event.  A `MessageSend` is discarded, dropped, or
    /// turned into one or more delayed `MessageReceive` emissions at the
    /// destination; the counters record every send either way.  All other
    /// events are ignored.
    #[verifier::rlimit(100)]
    #[verifier::spinoff_prover]
    pub fn on<M: Message>(&mut self, event: SysEvent<M>, ctx: &mut ActorContext<M>)
        requires
            old(self).wf(),
        ensures
            final(self).wf(),
            same_policy(*final(self), *old(self)),
            final(ctx).id == old(ctx).id,
            final(ctx).time == old(ctx).time,
            final(ctx).canceled_events == old(ctx).canceled_events,
            match event {
                SysEvent::MessageSend { msg, src, dest } => {
                    let s0 = old(ctx).rng.state;
                    let n = net_deliveries(*old(self), s0);
                    &&& final(self).message_count == old(self).message_count.saturating_add(1)
                    &&& exists|sz: u64|
                        {
                            &&& final(self).observed@ == old(self).observed@.push(sz)
                            &&& final(self).traffic == old(self).traffic.saturating_add(sz)
                        }
                    &&& final(ctx).rng.state == net_rng_after(*old(self), src@, dest@, s0)
                    &&& (net_discards(*old(self), src@) || net_gate_drops(
                        *old(self),
                        src@,
                        dest@,
                        s0,
                    )) ==> {
                        &&& final(ctx).events == old(ctx).events
                        &&& final(ctx).next_event_id == old(ctx).next_event_id
                    }
                    &&& (!net_discards(*old(self), src@) && !net_gate_drops(
                        *old(self),
                        src@,
                        dest@,
                        s0,
                    ) && old(ctx).next_event_id + n <= u64::MAX) ==> {
                        &&& final(ctx).events@.len() == old(ctx).events@.len() + n
                        &&& final(ctx).events@.subrange(0, old(ctx).events@.len() as int) == old(
                            ctx,
                        ).events@
                        &&& final(ctx).next_event_id == old(ctx).next_event_id + n
                        &&& exists|m: M|
                            {
                                &&& #[trigger] delivery_batch(
                                    old(ctx).events@,
                                    final(ctx).events@,
                                    m,
                                    src,
                                    dest,
                                    net_delay(*old(self), s0),
                                )
                                &&& (!net_corrupts(*old(self), s0) ==> m == msg)
                            }
                    }
                },
                _ => {
                    &&& same_counters(*final(self), *old(self))
                    &&& *final(ctx) == *old(ctx)
                },
            },
    {
        match event {
            SysEvent::MessageSend { msg, src, dest } => {
                let ghost s0 = ctx.rng.state;
                let msg_size = msg.size();
                let src_name = src.to();
                let dest_name = dest.to();
                if !self.crashed_nodes.has(src_name.as_str()) {
                    let gate = ctx.rand();
                    let pass = gate >= self.drop_rate && !self.drop_outgoing.has(
                        src_name.as_str(),
                    ) && !self.drop_incoming.has(dest_name.as_str())
                        && !self.disabled_links.has(src_name.as_str(), dest_name.as_str());
                    if pass {
                        assert(!net_gate_drops(*self, src@, dest@, s0));
                        self.route_delivery(msg, src, dest, ctx, Ghost(s0));
                    } else {
                        assert(net_gate_drops(*self, src@, dest@, s0));
                    }
                } else {
                    assert(net_discards(*self, src@));
                }
                self.record_send(msg_size);
            },
            _ => {},
        }
    }
}

} // verus!
