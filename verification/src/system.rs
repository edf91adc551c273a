//! The system facade: composes the kernel, the network actor and the
//! node wrappers, and exposes registration, fault injection, local I/O,
//! the step drivers, inspection and the model checker.

use vstd::prelude::*;

verus! {

use crate::message::Message;
use crate::net::{partition_pair, same_counters};
use crate::node::{LocalEvent, Node, NodeActor, NodeStatus};
use crate::sim::{ActorId, Checker, EventEntry, Simulation};
use crate::tables::NameSet;
use vstd::string::StringExecFns;

/// A simulation event on the wire.
///
/// `MessageSend` is produced by a node and consumed by the network actor;
/// `MessageReceive` is produced by the network and consumed by a node;
/// `LocalMessageReceive` is an external input injected at a node's
/// boundary; `TimerSet` and `TimerFired` drive the timer machinery of the
/// node that owns the timer.
pub enum SysEvent<M: Message> {
    MessageSend { msg: M, src: ActorId, dest: ActorId },
    MessageReceive { msg: M, src: ActorId, dest: ActorId },
    LocalMessageReceive { msg: M },
    TimerSet { name: String, delay: u64 },
    TimerFired { name: String },
}

impl<M: Message> SysEvent<M> {
    /// An equal copy.
    pub fn duplicate(&self) -> (r: SysEvent<M>)
        ensures
            r == *self,
    {
        match self {
            SysEvent::MessageSend { msg, src, dest } => SysEvent::MessageSend {
                msg: msg.duplicate(),
                src: src.duplicate(),
                dest: dest.duplicate(),
            },
            SysEvent::MessageReceive { msg, src, dest } => SysEvent::MessageReceive {
                msg: msg.duplicate(),
                src: src.duplicate(),
                dest: dest.duplicate(),
            },
            SysEvent::LocalMessageReceive { msg } => SysEvent::LocalMessageReceive {
                msg: msg.duplicate(),
            },
            SysEvent::TimerSet { name, delay } => SysEvent::TimerSet {
                name: name.clone(),
                delay: *delay,
            },
            SysEvent::TimerFired { name } => SysEvent::TimerFired { name: name.clone() },
        }
    }
}

/// Relies on rand's `thread_rng` and `Rng::gen_range`: a seed drawn
/// uniformly from `[1, 1000000)`.  Nothing more is promised of a random
/// draw.
#[verifier::external_body]
fn random_seed() -> (r: u64)
    ensures
        1 <= r < 1000000,
{
    rand::Rng::gen_range(&mut rand::thread_rng(), 1..1000000u64)
}

/// Some actor is registered under `name`.
pub open spec fn registered<M: Message, N: Node<M>>(
    sim: Simulation<M, N>,
    name: Seq<char>,
) -> bool {
    exists|j: int| 0 <= j < sim.nodes@.len() && (#[trigger] sim.nodes@[j]).0@ == name
}

/// A wrapper in its initial state: empty timer table, log and mailbox,
/// zero counters, no skew, healthy.
pub open spec fn fresh_wrapper<M: Message, N: Node<M>>(a: NodeActor<M, N>) -> bool {
    &&& a.timers@.len() == 0
    &&& a.local_events@.len() == 0
    &&& a.local_mailbox@.len() == 0
    &&& a.status == NodeStatus::Healthy
    &&& a.sent_message_count == 0
    &&& a.received_message_count == 0
    &&& a.clock_skew == 0
}

/// The index of the actor registered under `name`.
pub open spec fn index_of<M: Message, N: Node<M>>(
    sim: Simulation<M, N>,
    name: Seq<char>,
) -> int {
    choose|j: int| 0 <= j < sim.nodes@.len() && (#[trigger] sim.nodes@[j]).0@ == name
}

/// A simulated distributed system: the kernel (which owns the network
/// actor and the node wrappers), the registration order of the node ids,
/// and the set of currently crashed nodes.
#[verifier::ext_equal]
pub struct System<M: Message, N: Node<M>> {
    pub sim: Simulation<M, N>,
    pub node_ids: Vec<String>,
    pub crashed_nodes: NameSet,
    pub seed: u64,
}

impl<M: Message, N: Node<M>> System<M, N> {
    pub open spec fn wf(&self) -> bool {
        &&& self.sim.wf()
        &&& !self.sim.mc_active
        &&& self.crashed_nodes.wf()
        &&& forall|n: Seq<char>|
            self.crashed_nodes.contains(n) == self.sim.net.crashed_nodes.contains(n)
    }

    /// A system with a seed drawn at random; read it back through
    /// `get_seed` to reproduce the run.
    pub fn new() -> (r: System<M, N>)
        ensures
            r.wf(),
            r.sim.nodes@.len() == 0,
            r.sim.events@.len() == 0,
            r.sim.clock == 0,
    {
        let seed = random_seed();
        System::with_seed(seed)
    }

    pub fn with_seed(seed: u64) -> (r: System<M, N>)
        ensures
            r.wf(),
            r.seed == seed,
            r.sim.nodes@.len() == 0,
            r.sim.events@.len() == 0,
            r.sim.clock == 0,
            r.sim.event_count == 0,
            r.sim.rng.state == crate::rng::rng_step(seed),
            r.sim.net.message_count == 0 && r.sim.net.traffic == 0,
            r.sim.net.observed@.len() == 0,
            r.sim.net.min_delay == 1000 && r.sim.net.max_delay == 1000,
            r.sim.net.drop_rate == 0 && r.sim.net.dupl_rate == 0 && r.sim.net.corrupt_rate == 0,
            forall|n: Seq<char>| !r.sim.net.crashed_nodes.contains(n),
            forall|n: Seq<char>| !r.sim.net.drop_incoming.contains(n),
            forall|n: Seq<char>| !r.sim.net.drop_outgoing.contains(n),
            forall|f: Seq<char>, t: Seq<char>| !r.sim.net.disabled_links.contains(f, t),
            forall|id: u64| !r.sim.canceled_events.contains(id),
            r.sim.undelivered_events@.len() == 0,
            r.sim.model_checking_trace@.len() == 0,
            !r.sim.mc_violation@,
            r.node_ids@.len() == 0,
            forall|n: Seq<char>| !r.crashed_nodes.contains(n),
    {
        System {
            sim: Simulation::new(seed),
            node_ids: Vec::new(),
            crashed_nodes: NameSet::new(),
            seed,
        }
    }

    /// The seed this run was built from.
    pub fn get_seed(&self) -> (r: u64)
        ensures
            r == self.seed,
    {
        self.seed
    }

    fn knows_id(&self, id: &str) -> (r: bool)
        ensures
            r == self.spec_knows_id(id@),
    {
        let wanted = id.to_owned();
        let mut i: usize = 0;
        while i < self.node_ids.len()
            invariant
                i <= self.node_ids@.len(),
                wanted@ == id@,
                forall|j: int| 0 <= j < i ==> (#[trigger] self.node_ids@[j])@ != id@,
            decreases self.node_ids@.len() - i,
        {
            if self.node_ids[i] == wanted {
                assert((self.node_ids@[i as int])@ == id@);
                return true;
            }
            i += 1;
        }
        proof {
            if self.spec_knows_id(id@) {
                let j = choose|j: int|
                    0 <= j < self.node_ids@.len() && (#[trigger] self.node_ids@[j])@ == id@;
            }
        }
        false
    }

    /// Whether an id has ever been registered.
    pub open spec fn spec_knows_id(&self, name: Seq<char>) -> bool {
        exists|j: int| 0 <= j < self.node_ids@.len() && (#[trigger] self.node_ids@[j])@ == name
    }

    /// Register a node under its own id: the id is bound to a fresh
    /// wrapper (empty timers, log and mailbox, zero counters, healthy).
    /// If the id is already present, the call replaces the wrapper — a
    /// recovery (the crashed flag is cleared locally and in the network)
    /// when the node was crashed, a restart otherwise — and the id list
    /// keeps its order without duplication.
    pub fn add_node(&mut self, node: N)
        requires
            old(self).wf(),
        ensures
            final(self).wf(),
            exists|name: Seq<char>|
                {
                    &&& #[trigger] registered(final(self).sim, name)
                    &&& fresh_wrapper(final(self).sim.nodes@[index_of(final(self).sim, name)].1)
                    &&& !final(self).crashed_nodes.contains(name)
                    &&& !final(self).sim.net.crashed_nodes.contains(name)
                    &&& forall|n: Seq<char>|
                        n != name ==> final(self).crashed_nodes.contains(n) == old(
                            self,
                        ).crashed_nodes.contains(n) && final(self).sim.net.crashed_nodes.contains(
                            n,
                        ) == old(self).sim.net.crashed_nodes.contains(n)
                    &&& old(self).spec_knows_id(name) ==> final(self).node_ids == old(
                        self,
                    ).node_ids
                    &&& !old(self).spec_knows_id(name) ==> {
                        &&& final(self).node_ids@.len() == old(self).node_ids@.len() + 1
                        &&& forall|j: int|
                            0 <= j < old(self).node_ids@.len() ==> final(self).node_ids@[j]
                                == old(self).node_ids@[j]
                        &&& (final(self).node_ids@.last())@ == name
                    }
                    &&& registered(old(self).sim, name) ==> {
                        &&& final(self).sim.nodes@.len() == old(self).sim.nodes@.len()
                        &&& forall|j: int|
                            0 <= j < old(self).sim.nodes@.len() && j != index_of(
                                final(self).sim,
                                name,
                            ) ==> final(self).sim.nodes@[j] == old(self).sim.nodes@[j]
                    }
                    &&& !registered(old(self).sim, name) ==> {
                        &&& final(self).sim.nodes@.len() == old(self).sim.nodes@.len() + 1
                        &&& forall|j: int|
                            0 <= j < old(self).sim.nodes@.len() ==> final(self).sim.nodes@[j]
                                == old(self).sim.nodes@[j]
                    }
                },
            final(self).sim.events == old(self).sim.events,
            final(self).sim.clock == old(self).sim.clock,
            final(self).sim.event_count == old(self).sim.event_count,
            final(self).sim.rng == old(self).sim.rng,
            final(self).seed == old(self).seed,
            same_counters(final(self).sim.net, old(self).sim.net),
    {
        let id = node.id();
        let actor = NodeActor::new(node);
        if self.knows_id(id.as_str()) {
            if self.crashed_nodes.has(id.as_str()) {
                self.crashed_nodes.remove(id.as_str());
                self.sim.net.node_recovered(id.as_str());
            }
        } else {
            self.node_ids.push(id.clone());
            self.crashed_nodes.remove(id.as_str());
            self.sim.net.node_recovered(id.as_str());
        }
        self.sim.add_actor(id.as_str(), actor);
        proof {
            if exists|k: int|
                0 <= k < old(self).sim.nodes@.len() && old(self).sim.nodes@[k].0@ == id@ {
                let k = choose|k: int|
                    0 <= k < old(self).sim.nodes@.len() && old(self).sim.nodes@[k].0@ == id@;
                assert(self.sim.nodes@[k].0@ == id@);
                assert(registered(self.sim, id@));
                let w = index_of(self.sim, id@);
                if w != k {
                    assert(self.sim.nodes@[w].0@ != self.sim.nodes@[k].0@);
                }
                assert(fresh_wrapper(self.sim.nodes@[w].1));
            } else {
                assert(self.sim.nodes@.last().0@ == id@);
                assert(registered(self.sim, id@));
                let w = index_of(self.sim, id@);
                let last = self.sim.nodes@.len() - 1;
                if w != last {
                    assert(self.sim.nodes@[w].0@ != self.sim.nodes@[last].0@);
                }
                assert(fresh_wrapper(self.sim.nodes@[w].1));
            }
            assert(!self.crashed_nodes.contains(id@));
            assert(!self.sim.net.crashed_nodes.contains(id@));
        }
    }

    /// The ids in registration order.
    pub fn get_node_ids(&self) -> (r: Vec<String>)
        ensures
            r@.len() == self.node_ids@.len(),
            forall|j: int| 0 <= j < r@.len() ==> (#[trigger] r@[j])@ == (self.node_ids@[j])@,
    {
        let mut out: Vec<String> = Vec::new();
        let mut i: usize = 0;
        while i < self.node_ids.len()
            invariant
                i <= self.node_ids@.len(),
                out@.len() == i,
                forall|j: int| 0 <= j < i ==> (#[trigger] out@[j])@ == (self.node_ids@[j])@,
            decreases self.node_ids@.len() - i,
        {
            out.push(self.node_ids[i].clone());
            i += 1;
        }
        out
    }

    /// Shift the node's view of the clock; only `send_local` timestamps
    /// are affected, never the kernel's dispatch order.
    pub fn set_clock_skew(&mut self, node_id: &str, clock_skew: i64)
        requires
            old(self).wf(),
            registered(old(self).sim, node_id@),
        ensures
            final(self).wf(),
            final(self).sim.nodes@.len() == old(self).sim.nodes@.len(),
            final(self).sim.nodes@[index_of(old(self).sim, node_id@)].1.clock_skew == clock_skew,
    {
        let aid = ActorId::from(node_id);
        let found = self.find_index(&aid);
        match found {
            Some(j) => {
                let slot = vstd::std_specs::vec::vec_index_mut(&mut self.sim.nodes, j);
                slot.1.set_clock_skew(clock_skew);
                proof {
                    let k = index_of(old(self).sim, node_id@);
                    if k != j {
                        assert(old(self).sim.nodes@[k].0@ != old(self).sim.nodes@[j as int].0@);
                    }
                }
            },
            None => {},
        }
    }

    fn find_index(&self, id: &ActorId) -> (r: Option<usize>)
        ensures
            match r {
                Some(j) => j < self.sim.nodes@.len() && self.sim.nodes@[j as int].0@ == id@,
                None => !registered(self.sim, id@),
            },
    {
        let mut i: usize = 0;
        while i < self.sim.nodes.len()
            invariant
                i <= self.sim.nodes@.len(),
                forall|j: int| 0 <= j < i ==> (#[trigger] self.sim.nodes@[j]).0@ != id@,
            decreases self.sim.nodes@.len() - i,
        {
            if self.sim.nodes[i].0.same_as(id) {
                return Some(i);
            }
            i += 1;
        }
        None
    }

    /// Crash a node: its wrapper stops taking events and the network
    /// discards its sends.
    pub fn crash_node(&mut self, node_id: &str)
        requires
            old(self).wf(),
            registered(old(self).sim, node_id@),
        ensures
            final(self).wf(),
            final(self).crashed_nodes.contains(node_id@),
            final(self).sim.net.crashed_nodes.contains(node_id@),
            final(self).sim.nodes@.len() == old(self).sim.nodes@.len(),
            final(self).sim.nodes@[index_of(old(self).sim, node_id@)].1.status
                == NodeStatus::Crashed,
            same_counters(final(self).sim.net, old(self).sim.net),
    {
        self.crashed_nodes.insert(node_id);
        let aid = ActorId::from(node_id);
        let found = self.find_index(&aid);
        match found {
            Some(j) => {
                let slot = vstd::std_specs::vec::vec_index_mut(&mut self.sim.nodes, j);
                slot.1.crash();
                proof {
                    let k = index_of(old(self).sim, node_id@);
                    if k != j {
                        assert(old(self).sim.nodes@[k].0@ != old(self).sim.nodes@[j as int].0@);
                    }
                }
            },
            None => {},
        }
        self.sim.net.node_crashed(node_id);
    }

    pub fn node_is_crashed(&self, node_id: &str) -> (r: bool)
        ensures
            r == self.crashed_nodes.contains(node_id@),
    {
        self.crashed_nodes.has(node_id)
    }

    pub fn node_count(&self) -> (r: usize)
        ensures
            r == self.sim.nodes@.len(),
    {
        self.sim.nodes.len()
    }

    /// Everything but the network is as it was.
    pub open spec fn only_net_changed(pre: System<M, N>, post: System<M, N>) -> bool {
        &&& post.node_ids == pre.node_ids
        &&& post.crashed_nodes == pre.crashed_nodes
        &&& post.seed == pre.seed
        &&& post.sim == (Simulation { net: post.sim.net, ..pre.sim })
    }

    pub fn set_delay(&mut self, delay: u64)
        requires
            old(self).wf(),
        ensures
            final(self).wf(),
            Self::only_net_changed(*old(self), *final(self)),
            final(self).sim.net == (crate::net::Network {
                min_delay: delay,
                max_delay: delay,
                ..old(self).sim.net
            }),
    {
        self.sim.net.set_delay(delay);
    }

    pub fn set_delays(&mut self, min_delay: u64, max_delay: u64)
        requires
            old(self).wf(),
            min_delay <= max_delay,
        ensures
            final(self).wf(),
            Self::only_net_changed(*old(self), *final(self)),
            final(self).sim.net == (crate::net::Network {
                min_delay,
                max_delay,
                ..old(self).sim.net
            }),
    {
        self.sim.net.set_delays(min_delay, max_delay);
    }

    pub fn set_drop_rate(&mut self, drop_rate: u64)
        requires
            old(self).wf(),
        ensures
            final(self).wf(),
            Self::only_net_changed(*old(self), *final(self)),
            final(self).sim.net == (crate::net::Network { drop_rate, ..old(self).sim.net }),
    {
        self.sim.net.set_drop_rate(drop_rate);
    }

    pub fn set_dupl_rate(&mut self, dupl_rate: u64)
        requires
            old(self).wf(),
        ensures
            final(self).wf(),
            Self::only_net_changed(*old(self), *final(self)),
            final(self).sim.net == (crate::net::Network { dupl_rate, ..old(self).sim.net }),
    {
        self.sim.net.set_dupl_rate(dupl_rate);
    }

    pub fn set_corrupt_rate(&mut self, corrupt_rate: u64)
        requires
            old(self).wf(),
        ensures
            final(self).wf(),
            Self::only_net_changed(*old(self), *final(self)),
            final(self).sim.net == (crate::net::Network { corrupt_rate, ..old(self).sim.net }),
    {
        self.sim.net.set_corrupt_rate(corrupt_rate);
    }

    pub fn drop_incoming(&mut self, node_id: &str)
        requires
            old(self).wf(),
        ensures
            final(self).wf(),
            Self::only_net_changed(*old(self), *final(self)),
            final(self).sim.net.drop_incoming.contains(node_id@),
    {
        self.sim.net.drop_incoming(node_id);
    }

    pub fn pass_incoming(&mut self, node_id: &str)
        requires
            old(self).wf(),
        ensures
            final(self).wf(),
            Self::only_net_changed(*old(self), *final(self)),
            !final(self).sim.net.drop_incoming.contains(node_id@),
    {
        self.sim.net.pass_incoming(node_id);
    }

    pub fn drop_outgoing(&mut self, node_id: &str)
        requires
            old(self).wf(),
        ensures
            final(self).wf(),
            Self::only_net_changed(*old(self), *final(self)),
            final(self).sim.net.drop_outgoing.contains(node_id@),
    {
        self.sim.net.drop_outgoing(node_id);
    }

    pub fn pass_outgoing(&mut self, node_id: &str)
        requires
            old(self).wf(),
        ensures
            final(self).wf(),
            Self::only_net_changed(*old(self), *final(self)),
            !final(self).sim.net.drop_outgoing.contains(node_id@),
    {
        self.sim.net.pass_outgoing(node_id);
    }

    pub fn disconnect_node(&mut self, node_id: &str)
        requires
            old(self).wf(),
        ensures
            final(self).wf(),
            Self::only_net_changed(*old(self), *final(self)),
            final(self).sim.net.drop_incoming.contains(node_id@),
            final(self).sim.net.drop_outgoing.contains(node_id@),
    {
        self.sim.net.disconnect_node(node_id);
    }

    pub fn connect_node(&mut self, node_id: &str)
        requires
            old(self).wf(),
        ensures
            final(self).wf(),
            Self::only_net_changed(*old(self), *final(self)),
            !final(self).sim.net.drop_incoming.contains(node_id@),
            !final(self).sim.net.drop_outgoing.contains(node_id@),
    {
        self.sim.net.connect_node(node_id);
    }

    pub fn disable_link(&mut self, from: &str, to: &str)
        requires
            old(self).wf(),
        ensures
            final(self).wf(),
            Self::only_net_changed(*old(self), *final(self)),
            final(self).sim.net.disabled_links.contains(from@, to@),
            forall|f: Seq<char>, t: Seq<char>|
                (f, t) != (from@, to@) ==> final(self).sim.net.disabled_links.contains(f, t)
                    == old(self).sim.net.disabled_links.contains(f, t),
    {
        self.sim.net.disable_link(from, to);
    }

    pub fn enable_link(&mut self, from: &str, to: &str)
        requires
            old(self).wf(),
        ensures
            final(self).wf(),
            Self::only_net_changed(*old(self), *final(self)),
            !final(self).sim.net.disabled_links.contains(from@, to@),
            forall|f: Seq<char>, t: Seq<char>|
                (f, t) != (from@, to@) ==> final(self).sim.net.disabled_links.contains(f, t)
                    == old(self).sim.net.disabled_links.contains(f, t),
    {
        self.sim.net.enable_link(from, to);
    }

    /// Disable every directed link between two distinct registered
    /// nodes; a node can still reach itself.
    pub fn disable_all_links(&mut self)
        requires
            old(self).wf(),
        ensures
            final(self).wf(),
            Self::only_net_changed(*old(self), *final(self)),
            forall|x: int, y: int|
                (0 <= x < final(self).node_ids@.len() && 0 <= y < final(self).node_ids@.len()
                    && (final(self).node_ids@[x])@ != (final(self).node_ids@[y])@)
                    ==> final(self).sim.net.disabled_links.contains(
                    (final(self).node_ids@[x])@,
                    (final(self).node_ids@[y])@,
                ),
    {
        let n = self.node_ids.len();
        let mut x: usize = 0;
        while x < n
            invariant
                self.wf(),
                n == self.node_ids@.len(),
                x <= n,
                Self::only_net_changed(*old(self), *self),
                self.node_ids == old(self).node_ids,
                forall|a: int, b: int|
                    0 <= a < x && 0 <= b < n && (self.node_ids@[a])@ != (self.node_ids@[b])@
                        ==> #[trigger] self.sim.net.disabled_links.contains(
                        (self.node_ids@[a])@,
                        (self.node_ids@[b])@,
                    ),
            decreases n - x,
        {
            let from = self.node_ids[x].clone();
            let mut y: usize = 0;
            while y < n
                invariant
                    self.wf(),
                    n == self.node_ids@.len(),
                    x < n,
                    y <= n,
                    from@ == (self.node_ids@[x as int])@,
                    Self::only_net_changed(*old(self), *self),
                    self.node_ids == old(self).node_ids,
                    forall|a: int, b: int|
                        0 <= a < x && 0 <= b < n && (self.node_ids@[a])@ != (self.node_ids@[b])@
                            ==> #[trigger] self.sim.net.disabled_links.contains(
                            (self.node_ids@[a])@,
                            (self.node_ids@[b])@,
                        ),
                    forall|b: int|
                        0 <= b < y && (self.node_ids@[x as int])@ != (self.node_ids@[b])@
                            ==> #[trigger] self.sim.net.disabled_links.contains(
                            (self.node_ids@[x as int])@,
                            (self.node_ids@[b])@,
                        ),
                decreases n - y,
            {
                let to = self.node_ids[y].clone();
                if !(from == to) {
                    self.sim.net.disable_link(from.as_str(), to.as_str());
                } else {
                    assert(from@ == to@);
                }
                y += 1;
            }
            proof {
                assert forall|a: int, b: int|
                    0 <= a < x + 1 && 0 <= b < n && (self.node_ids@[a])@ != (self.node_ids@[b])@
                        implies #[trigger] self.sim.net.disabled_links.contains(
                    (self.node_ids@[a])@,
                    (self.node_ids@[b])@,
                ) by {
                    if a == x {
                        assert(self.sim.net.disabled_links.contains(
                            (self.node_ids@[x as int])@,
                            (self.node_ids@[b])@,
                        ));
                    }
                }
            }
            x += 1;
        }
    }

    /// Enable every directed link between two distinct registered nodes.
    pub fn enable_all_links(&mut self)
        requires
            old(self).wf(),
        ensures
            final(self).wf(),
            Self::only_net_changed(*old(self), *final(self)),
            forall|x: int, y: int|
                (0 <= x < final(self).node_ids@.len() && 0 <= y < final(self).node_ids@.len()
                    && (final(self).node_ids@[x])@ != (final(self).node_ids@[y])@)
                    ==> !final(self).sim.net.disabled_links.contains(
                    (final(self).node_ids@[x])@,
                    (final(self).node_ids@[y])@,
                ),
    {
        let n = self.node_ids.len();
        let mut x: usize = 0;
        while x < n
            invariant
                self.wf(),
                n == self.node_ids@.len(),
                x <= n,
                Self::only_net_changed(*old(self), *self),
                self.node_ids == old(self).node_ids,
                forall|a: int, b: int|
                    0 <= a < x && 0 <= b < n && (self.node_ids@[a])@ != (self.node_ids@[b])@
                        ==> !#[trigger] self.sim.net.disabled_links.contains(
                        (self.node_ids@[a])@,
                        (self.node_ids@[b])@,
                    ),
            decreases n - x,
        {
            let from = self.node_ids[x].clone();
            let mut y: usize = 0;
            while y < n
                invariant
                    self.wf(),
                    n == self.node_ids@.len(),
                    x < n,
                    y <= n,
                    from@ == (self.node_ids@[x as int])@,
                    Self::only_net_changed(*old(self), *self),
                    self.node_ids == old(self).node_ids,
                    forall|a: int, b: int|
                        0 <= a < x && 0 <= b < n && (self.node_ids@[a])@ != (self.node_ids@[b])@
                            ==> !#[trigger] self.sim.net.disabled_links.contains(
                            (self.node_ids@[a])@,
                            (self.node_ids@[b])@,
                        ),
                    forall|b: int|
                        0 <= b < y && (self.node_ids@[x as int])@ != (self.node_ids@[b])@
                            ==> !#[trigger] self.sim.net.disabled_links.contains(
                            (self.node_ids@[x as int])@,
                            (self.node_ids@[b])@,
                        ),
                decreases n - y,
            {
                let to = self.node_ids[y].clone();
                if !(from == to) {
                    self.sim.net.enable_link(from.as_str(), to.as_str());
                } else {
                    assert(from@ == to@);
                }
                y += 1;
            }
            proof {
                assert forall|a: int, b: int|
                    0 <= a < x + 1 && 0 <= b < n && (self.node_ids@[a])@ != (self.node_ids@[b])@
                        implies !#[trigger] self.sim.net.disabled_links.contains(
                    (self.node_ids@[a])@,
                    (self.node_ids@[b])@,
                ) by {
                    if a == x {
                        assert(!self.sim.net.disabled_links.contains(
                            (self.node_ids@[x as int])@,
                            (self.node_ids@[b])@,
                        ));
                    }
                }
            }
            x += 1;
        }
    }

    /// Disable every directed link between the two groups, both ways.
    pub fn make_partition(&mut self, group1: &[&str], group2: &[&str])
        requires
            old(self).wf(),
        ensures
            final(self).wf(),
            Self::only_net_changed(*old(self), *final(self)),
            forall|f: Seq<char>, t: Seq<char>|
                final(self).sim.net.disabled_links.contains(f, t) <==> (old(
                    self,
                ).sim.net.disabled_links.contains(f, t) || partition_pair(
                    crate::net::group_views(group1@),
                    crate::net::group_views(group2@),
                    f,
                    t,
                )),
    {
        self.sim.net.make_partition(group1, group2);
    }

    /// Clear every drop and link override; the crashed set, the delay
    /// range and the probability knobs stay as they are.
    pub fn reset_network(&mut self)
        requires
            old(self).wf(),
        ensures
            final(self).wf(),
            Self::only_net_changed(*old(self), *final(self)),
            crate::net::reset_outcome(final(self).sim.net, old(self).sim.net),
    {
        self.sim.net.reset_network();
    }

    pub fn get_network_message_count(&self) -> (r: u64)
        ensures
            r == self.sim.net.message_count,
    {
        self.sim.net.get_message_count()
    }

    pub fn get_network_traffic(&self) -> (r: u64)
        ensures
            r == self.sim.net.traffic,
    {
        self.sim.net.get_traffic()
    }

    pub fn get_sent_message_count(&self, node_id: &str) -> (r: u64)
        requires
            self.wf(),
            registered(self.sim, node_id@),
        ensures
            r == self.sim.nodes@[index_of(self.sim, node_id@)].1.sent_message_count,
    {
        let aid = ActorId::from(node_id);
        let found = self.find_index(&aid);
        match found {
            Some(j) => {
                proof {
                    let k = index_of(self.sim, node_id@);
                    if k != j {
                        assert(self.sim.nodes@[k].0@ != self.sim.nodes@[j as int].0@);
                    }
                }
                self.sim.nodes[j].1.sent_message_count()
            },
            None => 0,
        }
    }

    pub fn get_received_message_count(&self, node_id: &str) -> (r: u64)
        requires
            self.wf(),
            registered(self.sim, node_id@),
        ensures
            r == self.sim.nodes@[index_of(self.sim, node_id@)].1.received_message_count,
    {
        let aid = ActorId::from(node_id);
        let found = self.find_index(&aid);
        match found {
            Some(j) => {
                proof {
                    let k = index_of(self.sim, node_id@);
                    if k != j {
                        assert(self.sim.nodes@[k].0@ != self.sim.nodes@[j as int].0@);
                    }
                }
                self.sim.nodes[j].1.received_message_count()
            },
            None => 0,
        }
    }

    /// Inject a `MessageSend` from `src` to `dest` at the network actor,
    /// at the current time.
    pub fn send(&mut self, msg: M, src: &str, dest: &str)
        requires
            old(self).wf(),
        ensures
            final(self).wf(),
            final(self).sim == (Simulation {
                events: final(self).sim.events,
                event_count: final(self).sim.event_count,
                ..old(self).sim
            }),
            final(self).node_ids == old(self).node_ids,
            final(self).crashed_nodes == old(self).crashed_nodes,
            final(self).seed == old(self).seed,
            old(self).sim.event_count == u64::MAX ==> final(self).sim == old(self).sim,
            old(self).sim.event_count < u64::MAX ==> {
                &&& final(self).sim.events@.len() == old(self).sim.events@.len() + 1
                &&& final(self).sim.events@.subrange(0, old(self).sim.events@.len() as int)
                    == old(self).sim.events@
                &&& {
                    let entry = final(self).sim.events@.last();
                    &&& entry.id == old(self).sim.event_count
                    &&& entry.time == old(self).sim.clock
                    &&& entry.src@ == src@
                    &&& entry.dest@ == "net"@
                    &&& entry.event matches SysEvent::MessageSend {
                        msg: m2,
                        src: s2,
                        dest: d2,
                    } && m2 == msg && s2@ == src@ && d2@ == dest@
                }
                &&& final(self).sim.event_count == old(self).sim.event_count + 1
            },
    {
        let event = SysEvent::MessageSend {
            msg,
            src: ActorId::from(src),
            dest: ActorId::from(dest),
        };
        self.sim.add_event(event, ActorId::from(src), ActorId::from("net"), 0);
        proof {
            if old(self).sim.event_count < u64::MAX {
                assert(self.sim.events@.subrange(0, old(self).sim.events@.len() as int)
                    =~= old(self).sim.events@);
            }
        }
    }

    /// Inject a local input at `dest`'s boundary, from the reserved
    /// per-node source address, at the current time.
    pub fn send_local(&mut self, msg: M, dest: &str)
        requires
            old(self).wf(),
        ensures
            final(self).wf(),
            final(self).sim == (Simulation {
                events: final(self).sim.events,
                event_count: final(self).sim.event_count,
                ..old(self).sim
            }),
            final(self).node_ids == old(self).node_ids,
            final(self).crashed_nodes == old(self).crashed_nodes,
            final(self).seed == old(self).seed,
            old(self).sim.event_count == u64::MAX ==> final(self).sim == old(self).sim,
            old(self).sim.event_count < u64::MAX ==> {
                &&& final(self).sim.events@.len() == old(self).sim.events@.len() + 1
                &&& final(self).sim.events@.subrange(0, old(self).sim.events@.len() as int)
                    == old(self).sim.events@
                &&& {
                    let entry = final(self).sim.events@.last();
                    &&& entry.id == old(self).sim.event_count
                    &&& entry.time == old(self).sim.clock
                    &&& entry.src@ == "local@"@ + dest@
                    &&& entry.dest@ == dest@
                    &&& entry.event matches SysEvent::LocalMessageReceive { msg: m2 } && m2 == msg
                }
                &&& final(self).sim.event_count == old(self).sim.event_count + 1
            },
    {
        let mut src_name = String::new();
        src_name.append("local@");
        src_name.append(dest);
        let src = ActorId::from(src_name.as_str());
        let event = SysEvent::LocalMessageReceive { msg };
        self.sim.add_event(event, src, ActorId::from(dest), 0);
        proof {
            if old(self).sim.event_count < u64::MAX {
                assert(self.sim.events@.subrange(0, old(self).sim.events@.len() as int)
                    =~= old(self).sim.events@);
            }
        }
    }

    /// The current simulated time, in ticks.
    pub fn time(&self) -> (r: u64)
        ensures
            r == self.sim.clock,
    {
        self.sim.time()
    }

    /// Deliver the next pending event, if any.
    pub fn step(&mut self) -> (r: bool)
        requires
            old(self).wf(),
        ensures
            final(self).wf(),
            r == (old(self).sim.events@.len() > 0),
            final(self).sim.clock >= old(self).sim.clock,
            final(self).node_ids == old(self).node_ids,
            final(self).crashed_nodes == old(self).crashed_nodes,
            final(self).sim.nodes@.len() == old(self).sim.nodes@.len(),
            forall|j: int|
                0 <= j < old(self).sim.nodes@.len() ==> (#[trigger] final(self).sim.nodes@[j]).0
                    == old(self).sim.nodes@[j].0,
            final(self).seed == old(self).seed,
            !r ==> final(self).sim == old(self).sim,
            r ==> Simulation::<M, N>::step_rel(old(self).sim, final(self).sim),
    {
        let r = self.sim.step();
        proof {
            if r {
                let (e, mid) = choose|e: EventEntry<M>, mid: Simulation<M, N>|
                    {
                        &&& #[trigger] crate::sim::is_min_of(e, old(self).sim.events@)
                        &&& mid == (Simulation { events: mid.events, ..old(self).sim })
                        &&& exists|bi: int|
                            {
                                &&& 0 <= bi < old(self).sim.events@.len()
                                &&& old(self).sim.events@[bi] == e
                                &&& mid.events@ == old(self).sim.events@.remove(bi)
                            }
                        &&& #[trigger] Simulation::<M, N>::delivers(mid, self.sim, e)
                    };
                Simulation::<M, N>::lemma_delivers_keeps_crash_mirror(mid, self.sim, e);
            }
        }
        r
    }

    /// Run up to `step_count` steps, stopping early on an empty queue;
    /// the final kernel state is reached by one dispatch per step that
    /// found work.
    pub fn steps(&mut self, step_count: u32) -> (r: bool)
        requires
            old(self).wf(),
        ensures
            final(self).wf(),
            final(self).sim.clock >= old(self).sim.clock,
            final(self).node_ids == old(self).node_ids,
            final(self).crashed_nodes == old(self).crashed_nodes,
            final(self).seed == old(self).seed,
            exists|k: int|
                {
                    &&& 0 <= k <= step_count
                    &&& #[trigger] Simulation::<M, N>::steps_chain(
                        old(self).sim,
                        final(self).sim,
                        k,
                    )
                    &&& (r <==> k == step_count)
                },
            !r ==> final(self).sim.events@.len() == 0,
    {
        let mut i: u32 = 0;
        while i < step_count
            invariant
                self.wf(),
                self.sim.clock >= old(self).sim.clock,
                self.node_ids == old(self).node_ids,
                self.crashed_nodes == old(self).crashed_nodes,
                self.seed == old(self).seed,
                i <= step_count,
                Simulation::<M, N>::steps_chain(old(self).sim, self.sim, i as int),
            decreases step_count - i,
        {
            let ghost prev = *self;
            if !self.step() {
                proof {
                    assert(Simulation::<M, N>::steps_chain(old(self).sim, self.sim, i as int));
                }
                return false;
            }
            proof {
                Simulation::<M, N>::lemma_chain_extend(
                    old(self).sim,
                    prev.sim,
                    self.sim,
                    i as int,
                );
            }
            i += 1;
        }
        proof {
            assert(Simulation::<M, N>::steps_chain(old(self).sim, self.sim, step_count as int));
        }
        true
    }

    /// Run to quiescence: short of an astronomically long run exhausting
    /// the step bound, the queue has been drained, by a chain of
    /// single-step dispatches.
    pub fn step_until_no_events(&mut self)
        requires
            old(self).wf(),
        ensures
            final(self).wf(),
            final(self).sim.clock >= old(self).sim.clock,
            final(self).node_ids == old(self).node_ids,
            final(self).crashed_nodes == old(self).crashed_nodes,
            final(self).seed == old(self).seed,
            exists|k: int|
                {
                    &&& 0 <= k
                    &&& #[trigger] Simulation::<M, N>::steps_chain(
                        old(self).sim,
                        final(self).sim,
                        k,
                    )
                    &&& (final(self).sim.events@.len() == 0 || k >= u64::MAX)
                },
    {
        let mut fuel: u64 = u64::MAX;
        while fuel > 0
            invariant
                self.wf(),
                self.sim.clock >= old(self).sim.clock,
                self.node_ids == old(self).node_ids,
                self.crashed_nodes == old(self).crashed_nodes,
                self.seed == old(self).seed,
                Simulation::<M, N>::steps_chain(
                    old(self).sim,
                    self.sim,
                    (u64::MAX - fuel) as int,
                ),
            decreases fuel,
        {
            let ghost prev = *self;
            if !self.step() {
                proof {
                    assert(Simulation::<M, N>::steps_chain(
                        old(self).sim,
                        self.sim,
                        (u64::MAX - fuel) as int,
                    ));
                }
                return ;
            }
            proof {
                Simulation::<M, N>::lemma_chain_extend(
                    old(self).sim,
                    prev.sim,
                    self.sim,
                    (u64::MAX - fuel) as int,
                );
            }
            fuel -= 1;
        }
        proof {
            assert(Simulation::<M, N>::steps_chain(old(self).sim, self.sim, u64::MAX as int));
        }
    }

    /// Run until the clock has advanced by `duration` ticks or the queue
    /// empties: on return the queue is empty or the clock has passed the
    /// bound, short of exhausting the astronomical step bound.
    pub fn step_for_duration(&mut self, duration: u64)
        requires
            old(self).wf(),
        ensures
            final(self).wf(),
            final(self).sim.clock >= old(self).sim.clock,
            final(self).node_ids == old(self).node_ids,
            final(self).crashed_nodes == old(self).crashed_nodes,
            final(self).seed == old(self).seed,
            exists|k: int|
                {
                    &&& 0 <= k
                    &&& #[trigger] Simulation::<M, N>::steps_chain(
                        old(self).sim,
                        final(self).sim,
                        k,
                    )
                    &&& (final(self).sim.events@.len() == 0 || final(self).sim.clock >= old(
                        self,
                    ).sim.clock.saturating_add(duration) || k >= u64::MAX)
                },
    {
        let end_time = self.sim.clock.saturating_add(duration);
        let mut fuel: u64 = u64::MAX;
        while fuel > 0
            invariant
                self.wf(),
                self.sim.clock >= old(self).sim.clock,
                self.node_ids == old(self).node_ids,
                self.crashed_nodes == old(self).crashed_nodes,
                self.seed == old(self).seed,
                end_time == old(self).sim.clock.saturating_add(duration),
                Simulation::<M, N>::steps_chain(
                    old(self).sim,
                    self.sim,
                    (u64::MAX - fuel) as int,
                ),
            decreases fuel,
        {
            let ghost prev = *self;
            if !self.step() {
                proof {
                    assert(Simulation::<M, N>::steps_chain(
                        old(self).sim,
                        self.sim,
                        (u64::MAX - fuel) as int,
                    ));
                }
                return ;
            }
            proof {
                Simulation::<M, N>::lemma_chain_extend(
                    old(self).sim,
                    prev.sim,
                    self.sim,
                    (u64::MAX - fuel) as int,
                );
            }
            if self.time() >= end_time {
                proof {
                    assert(Simulation::<M, N>::steps_chain(
                        old(self).sim,
                        self.sim,
                        (u64::MAX - fuel) as int + 1,
                    ));
                }
                return ;
            }
            fuel -= 1;
        }
        proof {
            assert(Simulation::<M, N>::steps_chain(old(self).sim, self.sim, u64::MAX as int));
        }
    }

    /// Step until `node_id`'s mailbox holds something, and drain it.
    /// The typed "no messages" result comes exactly when the queue was
    /// exhausted first (or an astronomically long run spent the step
    /// bound); the final state is reached by a chain of dispatches.
    pub fn step_until_local_message(&mut self, node_id: &str) -> (r: Result<Vec<M>, &'static str>)
        requires
            old(self).wf(),
            registered(old(self).sim, node_id@),
        ensures
            final(self).wf(),
            r matches Ok(v) ==> v@.len() > 0,
            r matches Err(_) ==> exists|k: int|
                {
                    &&& 0 <= k
                    &&& #[trigger] Simulation::<M, N>::steps_chain(
                        old(self).sim,
                        final(self).sim,
                        k,
                    )
                    &&& (final(self).sim.events@.len() == 0 || k >= u64::MAX)
                },
    {
        let mut fuel: u64 = u64::MAX;
        while fuel > 0
            invariant
                self.wf(),
                registered(self.sim, node_id@),
                Simulation::<M, N>::steps_chain(
                    old(self).sim,
                    self.sim,
                    (u64::MAX - fuel) as int,
                ),
            decreases fuel,
        {
            let ghost prev = *self;
            if !self.step() {
                proof {
                    assert(Simulation::<M, N>::steps_chain(
                        old(self).sim,
                        self.sim,
                        (u64::MAX - fuel) as int,
                    ));
                }
                return Err("No messages");
            }
            proof {
                Simulation::<M, N>::lemma_chain_extend(
                    old(self).sim,
                    prev.sim,
                    self.sim,
                    (u64::MAX - fuel) as int,
                );
                let k = choose|k: int|
                    0 <= k < prev.sim.nodes@.len() && (#[trigger] prev.sim.nodes@[k]).0@
                        == node_id@;
                assert((self.sim.nodes@[k]).0@ == node_id@);
            }
            let drained = self.check_mailbox(node_id);
            match drained {
                Some(messages) => {
                    return Ok(messages);
                },
                None => {},
            }
            fuel -= 1;
        }
        proof {
            assert(Simulation::<M, N>::steps_chain(old(self).sim, self.sim, u64::MAX as int));
        }
        Err("No messages")
    }

    /// As `step_until_local_message`, but give up after `max_steps`
    /// steps: the "no messages" result comes exactly when the queue was
    /// exhausted or the step cap was hit.
    pub fn step_until_local_message_max_steps(&mut self, node_id: &str, max_steps: u32) -> (r:
        Result<Vec<M>, &'static str>)
        requires
            old(self).wf(),
            registered(old(self).sim, node_id@),
        ensures
            final(self).wf(),
            r matches Ok(v) ==> v@.len() > 0,
            r matches Err(_) ==> exists|k: int|
                {
                    &&& 0 <= k <= max_steps + 1
                    &&& #[trigger] Simulation::<M, N>::steps_chain(
                        old(self).sim,
                        final(self).sim,
                        k,
                    )
                    &&& (final(self).sim.events@.len() == 0 || k == max_steps + 1)
                },
    {
        let mut steps: u32 = 0;
        while steps <= max_steps
            invariant
                self.wf(),
                registered(self.sim, node_id@),
                steps <= max_steps,
                Simulation::<M, N>::steps_chain(old(self).sim, self.sim, steps as int),
            decreases max_steps - steps,
        {
            let ghost prev = *self;
            if !self.step() {
                proof {
                    assert(Simulation::<M, N>::steps_chain(
                        old(self).sim,
                        self.sim,
                        steps as int,
                    ));
                }
                return Err("No messages");
            }
            proof {
                Simulation::<M, N>::lemma_chain_extend(
                    old(self).sim,
                    prev.sim,
                    self.sim,
                    steps as int,
                );
                let k = choose|k: int|
                    0 <= k < prev.sim.nodes@.len() && (#[trigger] prev.sim.nodes@[k]).0@
                        == node_id@;
                assert((self.sim.nodes@[k]).0@ == node_id@);
            }
            let drained = self.check_mailbox(node_id);
            match drained {
                Some(messages) => {
                    return Ok(messages);
                },
                None => {},
            }
            if steps == max_steps {
                proof {
                    assert(Simulation::<M, N>::steps_chain(
                        old(self).sim,
                        self.sim,
                        steps as int + 1,
                    ));
                }
                return Err("No messages");
            }
            steps += 1;
        }
        Err("No messages")
    }

    /// A copy of `node_id`'s local-event log.
    pub fn get_local_events(&self, node_id: &str) -> (r: Vec<LocalEvent<M>>)
        requires
            self.wf(),
            registered(self.sim, node_id@),
        ensures
            r@ == self.sim.nodes@[index_of(self.sim, node_id@)].1.local_events@,
    {
        let aid = ActorId::from(node_id);
        let found = self.find_index(&aid);
        match found {
            Some(j) => {
                proof {
                    let k = index_of(self.sim, node_id@);
                    if k != j {
                        assert(self.sim.nodes@[k].0@ != self.sim.nodes@[j as int].0@);
                    }
                }
                self.sim.nodes[j].1.get_local_events()
            },
            None => Vec::new(),
        }
    }

    /// Drain `node_id`'s mailbox: all collected messages if there are
    /// any, in arrival order; `None` exactly when the mailbox is empty,
    /// in which case nothing changes.
    pub fn check_mailbox(&mut self, node_id: &str) -> (r: Option<Vec<M>>)
        requires
            old(self).wf(),
            registered(old(self).sim, node_id@),
        ensures
            final(self).wf(),
            registered(final(self).sim, node_id@),
            final(self).node_ids == old(self).node_ids,
            final(self).crashed_nodes == old(self).crashed_nodes,
            final(self).seed == old(self).seed,
            final(self).sim == (Simulation { nodes: final(self).sim.nodes, ..old(self).sim }),
            final(self).sim.nodes@.len() == old(self).sim.nodes@.len(),
            ({
                let k = index_of(old(self).sim, node_id@);
                &&& forall|j: int|
                    0 <= j < old(self).sim.nodes@.len() && j != k
                        ==> final(self).sim.nodes@[j] == old(self).sim.nodes@[j]
                &&& final(self).sim.nodes@[k].0 == old(self).sim.nodes@[k].0
                &&& final(self).sim.nodes@[k].1 == (NodeActor {
                    local_mailbox: final(self).sim.nodes@[k].1.local_mailbox,
                    ..old(self).sim.nodes@[k].1
                })
                &&& final(self).sim.nodes@[k].1.local_mailbox@.len() == 0
                &&& match r {
                    Some(v) => v@ == old(self).sim.nodes@[k].1.local_mailbox@ && v@.len() > 0,
                    None => old(self).sim.nodes@[k].1.local_mailbox@.len() == 0 && *final(self)
                        == *old(self),
                }
            }),
    {
        let aid = ActorId::from(node_id);
        let found = self.find_index(&aid);
        match found {
            Some(j) => {
                proof {
                    let k = index_of(old(self).sim, node_id@);
                    if k != j {
                        assert(old(self).sim.nodes@[k].0@ != old(self).sim.nodes@[j as int].0@);
                    }
                }
                if self.sim.nodes[j].1.local_mailbox.len() == 0 {
                    None
                } else {
                    let slot = vstd::std_specs::vec::vec_index_mut(&mut self.sim.nodes, j);
                    let r = slot.1.check_mailbox();
                    r
                }
            },
            None => {
                proof {
                    let k = index_of(old(self).sim, node_id@);
                    assert(old(self).sim.nodes@[k].0@ == node_id@);
                    assert(false);
                }
                None
            },
        }
    }

    /// Drain the undelivered-events log and report how many entries it
    /// held.
    pub fn count_undelivered_events(&mut self) -> (r: usize)
        requires
            old(self).wf(),
        ensures
            final(self).wf(),
            r == old(self).sim.undelivered_events@.len(),
            final(self).sim.undelivered_events@.len() == 0,
    {
        let drained = self.sim.read_undelivered_events();
        drained.len()
    }

    /// Run the model checker against the pending events; `false` means a
    /// reachable interleaving violated the invariant within the budget,
    /// and the trace is waiting in `read_model_checking_trace`.
    pub fn start_model_checking<C: Checker<M, N>>(
        &mut self,
        check_fn: &mut C,
        limit_seconds: u64,
    ) -> (r: bool)
        requires
            old(self).wf(),
        ensures
            final(self).wf(),
            final(self).sim.clock == old(self).sim.clock,
            final(self).sim.events == old(self).sim.events,
            (!r && old(self).sim.events@.len() > 0)
                ==> final(self).sim.model_checking_trace@.len() > old(
                self,
            ).sim.model_checking_trace@.len(),
            !r ==> final(self).sim.mc_violation@,
    {
        let r = self.sim.run_model_checking(check_fn, limit_seconds);
        proof {
            assert forall|n: Seq<char>|
                self.crashed_nodes.contains(n) == self.sim.net.crashed_nodes.contains(n) by {
                assert(old(self).sim.net.crashed_nodes@ == self.sim.net.crashed_nodes@);
            }
        }
        r
    }

    /// Drain the checker's trace, in delivery order.
    pub fn read_model_checking_trace(&mut self) -> (r: Vec<String>)
        requires
            old(self).wf(),
        ensures
            final(self).wf(),
            r@ == old(self).sim.model_checking_trace@.reverse(),
            final(self).sim.model_checking_trace@.len() == 0,
    {
        self.sim.read_model_checking_trace()
    }
}

} // verus!
