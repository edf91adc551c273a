//! The simulation kernel: actor addresses, queued events and the context
//! an actor works through while it handles one event.
//!
//! The kernel owns the clock, the pending-event queue, the cancellation
//! set, the event counter and the random generator.  Dispatch order is the
//! total order on `(time, id)`, which together with the pure generator
//! makes a run reproducible from its seed.

use vstd::prelude::*;

verus! {

use crate::message::Message;
use crate::net::{Network, net_rng_after, same_policy};
use crate::node::{LocalEvent, LocalEventType, Node, NodeActor, NodeActorState, NodeStatus};
use crate::rng::{Rng, rng_step, rng_out, RATE_SCALE};
use crate::system::SysEvent;
use crate::tables::CancelSet;
use vstd::string::StringExecFns;

/// An actor address; equality is by value.  The address `net` is reserved
/// for the network actor.
pub struct ActorId(String);

impl View for ActorId {
    type V = Seq<char>;

    closed spec fn view(&self) -> Seq<char> {
        self.0@
    }
}

impl ActorId {
    pub fn from(s: &str) -> (r: ActorId)
        ensures
            r@ == s@,
    {
        ActorId(s.to_owned())
    }

    pub fn to(&self) -> (r: String)
        ensures
            r@ == self@,
    {
        self.0.clone()
    }

    /// An equal copy.
    pub fn duplicate(&self) -> (r: ActorId)
        ensures
            r == *self,
    {
        ActorId(self.0.clone())
    }

    pub fn same_as(&self, other: &ActorId) -> (r: bool)
        ensures
            r == (self@ == other@),
    {
        self.0 == other.0
    }

    pub fn same_str(&self, other: &str) -> (r: bool)
        ensures
            r == (self@ == other@),
    {
        let o = other.to_owned();
        self.0 == o
    }
}

/// An entry of the pending-event queue: `(id, time, src, dest, event)`,
/// dispatched in ascending `(time, id)` order.  `id` is the insertion
/// sequence number and never repeats within one simulation.
pub struct EventEntry<M: Message> {
    pub id: u64,
    pub time: u64,
    pub src: ActorId,
    pub dest: ActorId,
    pub event: SysEvent<M>,
}

/// The strict dispatch order: earlier time first, ties broken by the
/// lower id.
pub open spec fn precedes<M: Message>(a: EventEntry<M>, b: EventEntry<M>) -> bool {
    a.time < b.time || (a.time == b.time && a.id < b.id)
}

impl<M: Message> EventEntry<M> {
    /// An equal copy.
    pub fn duplicate(&self) -> (r: EventEntry<M>)
        ensures
            r == *self,
    {
        EventEntry {
            id: self.id,
            time: self.time,
            src: self.src.duplicate(),
            dest: self.dest.duplicate(),
            event: self.event.duplicate(),
        }
    }
}

/// An event emitted by an actor while handling: the payload, the
/// destination and a delay relative to the current time.
pub struct CtxEvent<M: Message> {
    pub event: SysEvent<M>,
    pub dest: ActorId,
    pub delay: u64,
}

/// What an actor sees while it handles one event: its own address, the
/// frozen current time, the generator, and buffers for the events it
/// emits and the cancellations it requests.  The kernel drains the
/// buffers after the handler returns.
pub struct ActorContext<M: Message> {
    /// The address of the actor being invoked.
    pub id: ActorId,
    /// The kernel time of the event being handled.
    pub time: u64,
    /// The simulation's generator, written back by the kernel afterwards.
    pub rng: Rng,
    /// The id the next emission will receive.
    pub next_event_id: u64,
    /// Emissions in order; the kernel re-inserts them into the queue.
    pub events: Vec<CtxEvent<M>>,
    /// Ids whose events the actor asks to cancel.
    pub canceled_events: Vec<u64>,
}

impl<M: Message> ActorContext<M> {
    pub fn new(id: ActorId, time: u64, rng: Rng, next_event_id: u64) -> (r: ActorContext<M>)
        ensures
            r.id == id,
            r.time == time,
            r.rng == rng,
            r.next_event_id == next_event_id,
            r.events@.len() == 0,
            r.canceled_events@.len() == 0,
    {
        ActorContext {
            id,
            time,
            rng,
            next_event_id,
            events: Vec::new(),
            canceled_events: Vec::new(),
        }
    }

    /// The current kernel time.
    pub fn time(&self) -> (r: u64)
        ensures
            r == self.time,
    {
        self.time
    }

    /// Buffer an emission and hand back the id it will receive.  Once the
    /// id space is exhausted the emission is discarded; no run gets
    /// anywhere near that point.
    pub fn emit(&mut self, event: SysEvent<M>, dest: ActorId, delay: u64) -> (r: u64)
        ensures
            final(self).id == old(self).id,
            final(self).time == old(self).time,
            final(self).rng == old(self).rng,
            final(self).canceled_events == old(self).canceled_events,
            old(self).next_event_id < u64::MAX ==> {
                &&& final(self).events@ == old(self).events@.push(
                    CtxEvent { event, dest, delay },
                )
                &&& final(self).next_event_id == old(self).next_event_id + 1
                &&& r == old(self).next_event_id
            },
            old(self).next_event_id == u64::MAX ==> {
                &&& final(self).events == old(self).events
                &&& final(self).next_event_id == old(self).next_event_id
                &&& r == u64::MAX
            },
    {
        if self.next_event_id < u64::MAX {
            let id = self.next_event_id;
            self.events.push(CtxEvent { event, dest, delay });
            self.next_event_id = id + 1;
            id
        } else {
            u64::MAX
        }
    }

    /// A draw in `[0, RATE_SCALE)` from the simulation's generator.
    pub fn rand(&mut self) -> (r: u64)
        ensures
            final(self).id == old(self).id,
            final(self).time == old(self).time,
            final(self).next_event_id == old(self).next_event_id,
            final(self).events == old(self).events,
            final(self).canceled_events == old(self).canceled_events,
            final(self).rng.state == rng_step(old(self).rng.state),
            r == rng_out(rng_step(old(self).rng.state)),
            r < RATE_SCALE,
    {
        self.rng.draw()
    }

    /// Ask the kernel to cancel the event with this id.  Ids that are not
    /// pending are no-ops on dispatch.
    pub fn cancel_event(&mut self, event_id: u64)
        ensures
            final(self).id == old(self).id,
            final(self).time == old(self).time,
            final(self).rng == old(self).rng,
            final(self).next_event_id == old(self).next_event_id,
            final(self).events == old(self).events,
            final(self).canceled_events@ == old(self).canceled_events@.push(event_id),
    {
        self.canceled_events.push(event_id);
    }
}

/// `e` is an entry of `q` that every other entry strictly follows in
/// dispatch order.
pub open spec fn is_min_of<M: Message>(e: EventEntry<M>, q: Seq<EventEntry<M>>) -> bool {
    &&& q.contains(e)
    &&& forall|j: int| 0 <= j < q.len() && q[j] != e ==> precedes(e, #[trigger] q[j])
}

/// The dispatch order has a unique least entry: whatever two scans of the
/// same queue return as its minimum is the same event.  This is the heart
/// of reproducibility — which event a step delivers is a function of the
/// queue alone.
pub proof fn lemma_min_unique<M: Message>(q: Seq<EventEntry<M>>, a: EventEntry<M>, b: EventEntry<M>)
    requires
        is_min_of(a, q),
        is_min_of(b, q),
    ensures
        a == b,
{
    if a != b {
        assert(precedes(a, b));
        assert(precedes(b, a));
    }
}

/// The simulation kernel.  It owns the clock, the actor registry (the
/// network actor plus the node wrappers), the pending queue, the
/// cancellation set, the undelivered-events log, the event counter and
/// the generator.
///
/// While the model checker runs, `mc_active` is set and events are taken
/// from and emitted into the explicit frame `mc_events`; the committed
/// queue is untouched.
#[verifier::ext_equal]
pub struct Simulation<M: Message, N: Node<M>> {
    pub clock: u64,
    pub net: Network,
    pub nodes: Vec<(ActorId, NodeActor<M, N>)>,
    pub events: Vec<EventEntry<M>>,
    pub canceled_events: CancelSet,
    pub undelivered_events: Vec<EventEntry<M>>,
    pub event_count: u64,
    pub rng: Rng,
    pub model_checking_trace: Vec<String>,
    /// Whether any invocation of the checker's predicate has answered
    /// `false` in this simulation; never reset, not even by a restore.
    pub mc_violation: Ghost<bool>,
    pub mc_active: bool,
    pub mc_events: Vec<EventEntry<M>>,
}

impl<M: Message, N: Node<M>> Simulation<M, N> {
    /// Ids in `q` are distinct and below the insertion counter.
    pub open spec fn queue_wf(q: Seq<EventEntry<M>>, event_count: u64) -> bool {
        &&& forall|i: int, j: int| 0 <= i < j < q.len() ==> q[i].id != q[j].id
        &&& forall|i: int| 0 <= i < q.len() ==> #[trigger] q[i].id < event_count
    }

    pub open spec fn wf(&self) -> bool {
        &&& self.net.wf()
        &&& self.canceled_events.wf()
        &&& forall|i: int, j: int|
            0 <= i < j < self.nodes@.len() ==> self.nodes@[i].0@ != self.nodes@[j].0@
        &&& Self::queue_wf(self.events@, self.event_count)
        &&& Self::queue_wf(self.mc_events@, self.event_count)
        &&& !self.mc_active ==> forall|i: int|
            0 <= i < self.events@.len() ==> #[trigger] self.events@[i].time >= self.clock
        &&& !self.mc_active ==> self.mc_events@.len() == 0
    }

    pub fn new(seed: u64) -> (r: Simulation<M, N>)
        ensures
            r.wf(),
            r.clock == 0,
            r.nodes@.len() == 0,
            r.events@.len() == 0,
            r.undelivered_events@.len() == 0,
            r.event_count == 0,
            r.rng.state == rng_step(seed),
            r.model_checking_trace@.len() == 0,
            !r.mc_violation@,
            !r.mc_active,
            r.net.message_count == 0 && r.net.traffic == 0 && r.net.observed@.len() == 0,
            r.net.min_delay == 1000 && r.net.max_delay == 1000,
            r.net.drop_rate == 0 && r.net.dupl_rate == 0 && r.net.corrupt_rate == 0,
            forall|n: Seq<char>| !r.net.crashed_nodes.contains(n),
            forall|n: Seq<char>| !r.net.drop_incoming.contains(n),
            forall|n: Seq<char>| !r.net.drop_outgoing.contains(n),
            forall|f: Seq<char>, t: Seq<char>| !r.net.disabled_links.contains(f, t),
            forall|id: u64| !r.canceled_events.contains(id),
    {
        Simulation {
            clock: 0,
            net: Network::new(),
            nodes: Vec::new(),
            events: Vec::new(),
            canceled_events: CancelSet::new(),
            undelivered_events: Vec::new(),
            event_count: 0,
            rng: Rng::with_seed(seed),
            model_checking_trace: Vec::new(),
            mc_violation: Ghost(false),
            mc_active: false,
            mc_events: Vec::new(),
        }
    }

    /// The current simulated time, in ticks.
    pub fn time(&self) -> (r: u64)
        ensures
            r == self.clock,
    {
        self.clock
    }

    /// Find the index of the actor registered under `id`.
    fn find_node(&self, id: &ActorId) -> (r: Option<usize>)
        ensures
            match r {
                Some(i) => i < self.nodes@.len() && self.nodes@[i as int].0@ == id@,
                None => forall|j: int| 0 <= j < self.nodes@.len() ==> self.nodes@[j].0@ != id@,
            },
    {
        let mut i: usize = 0;
        while i < self.nodes.len()
            invariant
                i <= self.nodes@.len(),
                forall|j: int| 0 <= j < i ==> self.nodes@[j].0@ != id@,
            decreases self.nodes@.len() - i,
        {
            if self.nodes[i].0.same_as(id) {
                return Some(i);
            }
            i += 1;
        }
        None
    }

    /// Register `actor` under `id`.  A second registration under the same
    /// address replaces the earlier actor, which is how a node is
    /// restarted or recovered.  The address `net` is served by the
    /// network actor first, so an actor registered under it is shadowed.
    pub fn add_actor(&mut self, id: &str, actor: NodeActor<M, N>)
        requires
            old(self).wf(),
        ensures
            final(self).wf(),
            *final(self) == (Simulation { nodes: final(self).nodes, ..*old(self) }),
            (exists|k: int|
                0 <= k < old(self).nodes@.len() && old(self).nodes@[k].0@ == id@) ==> {
                let k = choose|k: int|
                    0 <= k < old(self).nodes@.len() && old(self).nodes@[k].0@ == id@;
                &&& final(self).nodes@.len() == old(self).nodes@.len()
                &&& forall|j: int|
                    0 <= j < old(self).nodes@.len() && j != k ==> final(self).nodes@[j] == old(
                        self,
                    ).nodes@[j]
                &&& final(self).nodes@[k].0@ == id@
                &&& final(self).nodes@[k].1 == actor
            },
            (forall|k: int|
                0 <= k < old(self).nodes@.len() ==> old(self).nodes@[k].0@ != id@) ==> {
                &&& final(self).nodes@.len() == old(self).nodes@.len() + 1
                &&& forall|j: int|
                    0 <= j < old(self).nodes@.len() ==> final(self).nodes@[j] == old(
                        self,
                    ).nodes@[j]
                &&& final(self).nodes@.last().0@ == id@
                &&& final(self).nodes@.last().1 == actor
            },
    {
        let aid = ActorId::from(id);
        let found = self.find_node(&aid);
        match found {
            Some(k) => {
                let slot = vstd::std_specs::vec::vec_index_mut(&mut self.nodes, k);
                *slot = (aid, actor);
                proof {
                    let kk = choose|kk: int|
                        0 <= kk < old(self).nodes@.len() && old(self).nodes@[kk].0@ == id@;
                    assert(old(self).nodes@[k as int].0@ == id@);
                    if kk != k {
                        assert(old(self).nodes@[kk].0@ != old(self).nodes@[k as int].0@);
                    }
                }
            },
            None => {
                self.nodes.push((aid, actor));
            },
        }
    }

    /// Record `event_id` as canceled; the next pop that yields it
    /// discards it.  Cancellation is idempotent.
    pub fn cancel_event(&mut self, event_id: u64)
        requires
            old(self).wf(),
        ensures
            final(self).wf(),
            *final(self) == (Simulation { canceled_events: final(self).canceled_events, ..*old(
                self,
            ) }),
            final(self).canceled_events.contains(event_id),
            forall|x: u64|
                x != event_id ==> final(self).canceled_events.contains(x) == old(
                    self,
                ).canceled_events.contains(x),
            old(self).canceled_events.contains(event_id) ==> final(self).canceled_events@ == old(
                self,
            ).canceled_events@,
    {
        self.canceled_events.insert(event_id);
    }

    /// Insert a fresh event `delay` ticks after the current clock, and
    /// hand back its id.  While the checker runs the event goes to the
    /// exploration frame instead of the committed queue.  Once the id
    /// space is exhausted the event is discarded; no run gets anywhere
    /// near that point.
    pub fn add_event(&mut self, event: SysEvent<M>, src: ActorId, dest: ActorId, delay: u64) -> (r:
        u64)
        requires
            old(self).wf(),
        ensures
            final(self).wf(),
            final(self).clock == old(self).clock,
            final(self).net == old(self).net,
            final(self).nodes == old(self).nodes,
            final(self).canceled_events == old(self).canceled_events,
            final(self).undelivered_events == old(self).undelivered_events,
            final(self).rng == old(self).rng,
            final(self).model_checking_trace == old(self).model_checking_trace,
            final(self).mc_violation == old(self).mc_violation,
            final(self).mc_active == old(self).mc_active,
            old(self).event_count < u64::MAX ==> {
                let entry = (EventEntry {
                    id: old(self).event_count,
                    time: old(self).clock.saturating_add(delay),
                    src,
                    dest,
                    event,
                });
                &&& r == old(self).event_count
                &&& final(self).event_count == old(self).event_count + 1
                &&& old(self).mc_active ==> final(self).mc_events@ == old(self).mc_events@.push(
                    entry,
                ) && final(self).events == old(self).events
                &&& !old(self).mc_active ==> final(self).events@ == old(self).events@.push(entry)
                    && final(self).mc_events == old(self).mc_events
            },
            old(self).event_count == u64::MAX ==> *final(self) == *old(self) && r == u64::MAX,
    {
        if self.event_count < u64::MAX {
            let id = self.event_count;
            let time = self.clock.saturating_add(delay);
            let entry = EventEntry { id, time, src, dest, event };
            if self.mc_active {
                self.mc_events.push(entry);
            } else {
                self.events.push(entry);
            }
            self.event_count = id + 1;
            id
        } else {
            u64::MAX
        }
    }

    /// Remove and return the entry with the least `(time, id)`, if any.
    fn pop_min(&mut self) -> (r: Option<EventEntry<M>>)
        requires
            old(self).wf(),
            !old(self).mc_active,
        ensures
            final(self).wf(),
            *final(self) == (Simulation { events: final(self).events, ..*old(self) }),
            match r {
                None => old(self).events@.len() == 0 && *final(self) == *old(self),
                Some(e) => {
                    &&& is_min_of(e, old(self).events@)
                    &&& exists|bi: int|
                        {
                            &&& 0 <= bi < old(self).events@.len()
                            &&& old(self).events@[bi] == e
                            &&& final(self).events@ == old(self).events@.remove(bi)
                        }
                },
            },
    {
        if self.events.len() == 0 {
            return None;
        }
        let mut best: usize = 0;
        let mut i: usize = 1;
        while i < self.events.len()
            invariant
                old(self).wf(),
                *self == *old(self),
                best < i <= self.events@.len(),
                forall|j: int|
                    0 <= j < i && j != best ==> precedes(
                        self.events@[best as int],
                        #[trigger] self.events@[j],
                    ),
            decreases self.events@.len() - i,
        {
            let cand = &self.events[i];
            let cur = &self.events[best];
            if cand.time < cur.time || (cand.time == cur.time && cand.id < cur.id) {
                best = i;
            }
            i += 1;
        }
        let e = self.events.remove(best);
        proof {
            assert(old(self).events@.contains(e)) by {
                assert(old(self).events@[best as int] == e);
            }
            assert forall|j: int|
                0 <= j < old(self).events@.len() && old(self).events@[j] != e implies precedes(
                e,
                old(self).events@[j],
            ) by {
                if j != best {
                    assert(precedes(e, old(self).events@[j]));
                } else {
                    assert(old(self).events@[j] == e);
                }
            }
        }
        Some(e)
    }

    /// Remove and return the last entry of the exploration frame, if any;
    /// the checker keeps the entry it wants delivered next at the end.
    fn pop_frame(&mut self) -> (r: Option<EventEntry<M>>)
        requires
            old(self).wf(),
            old(self).mc_active,
        ensures
            final(self).wf(),
            *final(self) == (Simulation { mc_events: final(self).mc_events, ..*old(self) }),
            match r {
                None => old(self).mc_events@.len() == 0 && final(self).mc_events@ == old(
                    self,
                ).mc_events@,
                Some(e) => old(self).mc_events@.len() > 0 && e == old(self).mc_events@.last()
                    && final(self).mc_events@ == old(self).mc_events@.drop_last(),
            },
    {
        let r = self.mc_events.pop();
        proof {
            if old(self).mc_events@.len() > 0 {
                assert(self.mc_events@ =~= old(self).mc_events@.drop_last());
            }
        }
        r
    }

    /// The queue a dispatch draws from and emits into: the exploration
    /// frame while the checker runs, the committed queue otherwise.
    pub open spec fn active_queue(s: Simulation<M, N>) -> Seq<EventEntry<M>> {
        if s.mc_active {
            s.mc_events@
        } else {
            s.events@
        }
    }

    /// Everything that entered the active queue between `pre` and `post`
    /// is an emission of the actor that handled `e`: appended at the end,
    /// stamped with that actor's address as source, timed no earlier than
    /// the dispatch, and numbered contiguously from the event counter.
    pub open spec fn appends_outputs(
        pre: Simulation<M, N>,
        post: Simulation<M, N>,
        e: EventEntry<M>,
    ) -> bool {
        let q0 = Self::active_queue(pre);
        let q1 = Self::active_queue(post);
        &&& (if pre.mc_active {
            post.events == pre.events
        } else {
            post.mc_events == pre.mc_events
        })
        &&& q1.len() >= q0.len()
        &&& q1.subrange(0, q0.len() as int) == q0
        &&& forall|k: int|
            q0.len() <= k < q1.len() ==> {
                &&& (#[trigger] q1[k]).id == pre.event_count + (k - q0.len())
                &&& q1[k].time >= e.time
                &&& q1[k].src == e.dest
            }
        &&& post.event_count == pre.event_count + (q1.len() - q0.len()) || post.event_count
            == u64::MAX
    }

    /// The effect of dispatching the already-popped entry `e` on the rest
    /// of the kernel state: a canceled id is consumed silently; otherwise
    /// the clock advances to `e.time` and the entry goes to the network
    /// actor, to a node wrapper, to the undelivered log, or (for a
    /// crashed node) nowhere.
    pub open spec fn delivers(
        pre: Simulation<M, N>,
        post: Simulation<M, N>,
        e: EventEntry<M>,
    ) -> bool {
        &&& post.mc_active == pre.mc_active
        &&& post.model_checking_trace == pre.model_checking_trace
        &&& post.mc_violation == pre.mc_violation
        &&& if pre.canceled_events.contains(e.id) {
            &&& post == (Simulation { canceled_events: post.canceled_events, ..pre })
            &&& !post.canceled_events.contains(e.id)
            &&& forall|x: u64|
                x != e.id ==> post.canceled_events.contains(x) == pre.canceled_events.contains(x)
        } else {
            &&& post.clock == e.time
            &&& forall|x: u64|
                pre.canceled_events.contains(x) ==> post.canceled_events.contains(x)
            &&& if e.dest@ == "net"@ {
                &&& post.nodes == pre.nodes
                &&& post.undelivered_events == pre.undelivered_events
                &&& post.canceled_events@ == pre.canceled_events@
                &&& same_policy(post.net, pre.net)
                &&& Self::appends_outputs(pre, post, e)
                &&& match e.event {
                    SysEvent::MessageSend { msg, src, dest } => {
                        &&& post.net.message_count == pre.net.message_count.saturating_add(1)
                        &&& exists|sz: u64|
                            {
                                &&& post.net.observed@ == pre.net.observed@.push(sz)
                                &&& post.net.traffic == pre.net.traffic.saturating_add(sz)
                            }
                        &&& post.rng.state == net_rng_after(pre.net, src@, dest@, pre.rng.state)
                    },
                    _ => {
                        &&& post.net.message_count == pre.net.message_count
                        &&& post.net.traffic == pre.net.traffic
                        &&& post.net.observed@ == pre.net.observed@
                        &&& post.rng == pre.rng
                        &&& Self::active_queue(post) == Self::active_queue(pre)
                        &&& post.event_count == pre.event_count
                    },
                }
            } else if exists|j: int| 0 <= j < pre.nodes@.len() && pre.nodes@[j].0@ == e.dest@ {
                let j = choose|j: int| 0 <= j < pre.nodes@.len() && pre.nodes@[j].0@ == e.dest@;
                let a0 = pre.nodes@[j].1;
                let a1 = post.nodes@[j].1;
                &&& post.net == pre.net
                &&& post.undelivered_events == pre.undelivered_events
                &&& post.nodes@.len() == pre.nodes@.len()
                &&& forall|k: int|
                    0 <= k < pre.nodes@.len() && k != j ==> post.nodes@[k] == pre.nodes@[k]
                &&& post.nodes@[j].0 == pre.nodes@[j].0
                &&& a1.status == a0.status
                &&& a1.clock_skew == a0.clock_skew
                &&& if (a0.status matches NodeStatus::Crashed) {
                    &&& a1 == a0
                    &&& post.events == pre.events
                    &&& post.mc_events == pre.mc_events
                    &&& post.event_count == pre.event_count
                    &&& post.rng == pre.rng
                    &&& post.canceled_events@ == pre.canceled_events@
                } else {
                    &&& a0.local_events@.is_prefix_of(a1.local_events@)
                    &&& a0.local_mailbox@.is_prefix_of(a1.local_mailbox@)
                    &&& Self::appends_outputs(pre, post, e)
                    &&& match e.event {
                        SysEvent::MessageReceive { .. } => a1.received_message_count
                            == a0.received_message_count.saturating_add(1),
                        SysEvent::LocalMessageReceive { msg } => {
                            &&& a1.received_message_count == a0.received_message_count
                            &&& a1.local_events@.len() > a0.local_events@.len()
                            &&& a1.local_events@[a0.local_events@.len() as int] == (LocalEvent {
                                time: e.time,
                                msg: Some(msg),
                                tip: LocalEventType::LocalMessageReceive,
                            })
                        },
                        _ => a1.received_message_count == a0.received_message_count,
                    }
                }
            } else {
                &&& post == (Simulation {
                    undelivered_events: post.undelivered_events,
                    clock: post.clock,
                    ..pre
                })
                &&& post.undelivered_events@ == pre.undelivered_events@.push(e)
            }
        }
    }

    /// The active queue of `post` extends that of `pre` with exactly the
    /// first `n` buffered emissions, stamped with `src`, delayed from
    /// `pre`'s clock and numbered from `pre`'s event counter.
    pub open spec fn outputs_drained(
        pre: Simulation<M, N>,
        post: Simulation<M, N>,
        src: ActorId,
        evs: Seq<CtxEvent<M>>,
        n: int,
    ) -> bool {
        let q0 = Self::active_queue(pre);
        let q1 = Self::active_queue(post);
        &&& (if pre.mc_active {
            post.events == pre.events
        } else {
            post.mc_events == pre.mc_events
        })
        &&& q1.len() >= q0.len()
        &&& q1.len() <= q0.len() + n
        &&& q1.subrange(0, q0.len() as int) == q0
        &&& forall|k: int|
            q0.len() <= k < q1.len() ==> #[trigger] q1[k] == (EventEntry {
                id: (pre.event_count + (k - q0.len())) as u64,
                time: pre.clock.saturating_add(evs[k - q0.len()].delay),
                src: src,
                dest: evs[k - q0.len()].dest,
                event: evs[k - q0.len()].event,
            })
        &&& post.event_count == pre.event_count + (q1.len() - q0.len()) || post.event_count
            == u64::MAX
        &&& pre.event_count + (q1.len() - q0.len()) <= u64::MAX
        &&& pre.event_count + n <= u64::MAX ==> q1.len() == q0.len() + n
    }

    /// Re-insert a handler's emissions into the active queue, stamped
    /// with the handling actor's address, apply its cancellation
    /// requests, and write the generator back.
    fn drain_outputs(&mut self, src: ActorId, out: ActorContext<M>)
        requires
            old(self).wf(),
        ensures
            final(self).wf(),
            final(self).clock == old(self).clock,
            final(self).net == old(self).net,
            final(self).nodes == old(self).nodes,
            final(self).undelivered_events == old(self).undelivered_events,
            final(self).model_checking_trace == old(self).model_checking_trace,
            final(self).mc_violation == old(self).mc_violation,
            final(self).mc_active == old(self).mc_active,
            final(self).rng == out.rng,
            forall|x: u64|
                old(self).canceled_events.contains(x) ==> final(self).canceled_events.contains(x),
            forall|x: u64|
                final(self).canceled_events.contains(x) ==> old(self).canceled_events.contains(x)
                    || out.canceled_events@.contains(x),
            out.canceled_events@.len() == 0 ==> final(self).canceled_events@ == old(
                self,
            ).canceled_events@,
            final(self).event_count >= old(self).event_count,
            final(self).event_count <= old(self).event_count + out.events@.len(),
            Self::outputs_drained(
                *old(self),
                *final(self),
                src,
                out.events@,
                out.events@.len() as int,
            ),
    {
        let ActorContext { id: _, time: _, rng, next_event_id: _, events, canceled_events } = out;
        self.rng = rng;
        let ghost base = *self;
        proof {
            let q0 = Self::active_queue(base);
            assert(q0.subrange(0, q0.len() as int) =~= q0);
        }
        let mut i: usize = 0;
        while i < events.len()
            invariant
                self.wf(),
                events@ == out.events@,
                i <= events@.len(),
                self.clock == base.clock,
                self.net == base.net,
                self.nodes == base.nodes,
                self.undelivered_events == base.undelivered_events,
                self.model_checking_trace == base.model_checking_trace,
                self.mc_violation == base.mc_violation,
                self.mc_active == base.mc_active,
                self.rng == base.rng,
                self.canceled_events == base.canceled_events,
                (if base.mc_active {
                    self.events == base.events
                } else {
                    self.mc_events == base.mc_events
                }),
                Self::outputs_drained(base, *self, src, events@, i as int),
                self.event_count == u64::MAX || Self::active_queue(*self).len()
                    == Self::active_queue(base).len() + i,
                self.event_count <= base.event_count + i,
                self.event_count >= base.event_count,
                base.event_count + (Self::active_queue(*self).len() - Self::active_queue(
                    base,
                ).len()) <= u64::MAX,
            decreases events@.len() - i,
        {
            let ce = &events[i];
            let ev = ce.event.duplicate();
            let dst = ce.dest.duplicate();
            let stamped = src.duplicate();
            let delay = ce.delay;
            let ghost pre = *self;
            self.add_event(ev, stamped, dst, delay);
            proof {
                let q0 = Self::active_queue(base);
                let qp = Self::active_queue(pre);
                let q1 = Self::active_queue(*self);
                assert(q1.subrange(0, q0.len() as int) =~= q0);
                assert forall|k: int|
                    q0.len() <= k < q1.len() implies #[trigger] q1[k] == (EventEntry {
                    id: (base.event_count + (k - q0.len())) as u64,
                    time: base.clock.saturating_add(events@[k - q0.len()].delay),
                    src: src,
                    dest: events@[k - q0.len()].dest,
                    event: events@[k - q0.len()].event,
                }) by {
                    if k < qp.len() {
                        assert(qp[k] == (EventEntry {
                            id: (base.event_count + (k - q0.len())) as u64,
                            time: base.clock.saturating_add(events@[k - q0.len()].delay),
                            src: src,
                            dest: events@[k - q0.len()].dest,
                            event: events@[k - q0.len()].event,
                        }));
                        assert(q1[k] == qp[k]);
                    } else {
                        assert(pre.event_count < u64::MAX);
                        assert(qp.len() == q0.len() + i);
                        assert(pre.event_count == base.event_count + (qp.len() - q0.len()));
                    }
                }
                if base.event_count + i + 1 <= u64::MAX {
                    assert(pre.event_count < u64::MAX);
                    assert(q1.len() == q0.len() + i + 1);
                }
            }
            i += 1;
        }
        let ghost mid = *self;
        let mut c: usize = 0;
        while c < canceled_events.len()
            invariant
                self.wf(),
                canceled_events@ == out.canceled_events@,
                c <= canceled_events@.len(),
                *self == (Simulation { canceled_events: self.canceled_events, ..mid }),
                forall|x: u64|
                    mid.canceled_events.contains(x) ==> self.canceled_events.contains(x),
                forall|x: u64|
                    self.canceled_events.contains(x) ==> mid.canceled_events.contains(x)
                        || canceled_events@.contains(x),
                canceled_events@.len() == 0 ==> self.canceled_events@ == mid.canceled_events@,
            decreases canceled_events@.len() - c,
        {
            let x = canceled_events[c];
            self.canceled_events.insert(x);
            proof {
                assert(canceled_events@.contains(canceled_events@[c as int]));
            }
            c += 1;
        }
    }

    /// The state a dispatch reaches right before the destination is
    /// consulted: clock advanced to the entry's time, the entry popped,
    /// the cancellation set checked without effect.
    pub open spec fn at_dispatch(pre: Simulation<M, N>, mid: Simulation<M, N>, e: EventEntry<M>,) -> bool {
        &&& mid == (Simulation { clock: e.time, canceled_events: mid.canceled_events, ..pre })
        &&& mid.canceled_events@ == pre.canceled_events@
        &&& !pre.canceled_events.contains(e.id)
        &&& mid.wf()
        &&& !pre.mc_active ==> forall|i: int|
            0 <= i < pre.events@.len() ==> #[trigger] pre.events@[i].time >= e.time
    }

    /// Hand an event to the network actor and commit its emissions.
    #[verifier::rlimit(100)]
    #[verifier::spinoff_prover]
    fn deliver_to_net(
        &mut self,
        dest: ActorId,
        event: SysEvent<M>,
        Ghost(pre): Ghost<Simulation<M, N>>,
        Ghost(e): Ghost<EventEntry<M>>,
    )
        requires
            Self::at_dispatch(pre, *old(self), e),
            e.dest == dest,
            e.event == event,
            e.dest@ == "net"@,
        ensures
            final(self).wf(),
            Self::delivers(pre, *final(self), e),
    {
        let mut ctx = ActorContext::new(dest.duplicate(), self.clock, self.rng, self.event_count);
        self.net.on(event, &mut ctx);
        let ActorContext { id, time, rng, next_event_id, events, canceled_events } = ctx;
        let out = ActorContext { id, time, rng, next_event_id, events, canceled_events };
        self.drain_outputs(dest, out);
        proof {
            let q1 = Self::active_queue(*self);
            if !(e.event matches SysEvent::MessageSend { .. }) {
                assert(q1 =~= Self::active_queue(pre));
            }
            assert(Self::appends_outputs(pre, *self, e));
            assert(Self::delivers(pre, *self, e));
        }
    }

    /// Hand an event to the node wrapper at index `j` and commit its
    /// emissions.
    #[verifier::rlimit(100)]
    #[verifier::spinoff_prover]
    fn deliver_to_node(
        &mut self,
        j: usize,
        dest: ActorId,
        event: SysEvent<M>,
        Ghost(pre): Ghost<Simulation<M, N>>,
        Ghost(e): Ghost<EventEntry<M>>,
    )
        requires
            Self::at_dispatch(pre, *old(self), e),
            e.dest == dest,
            e.event == event,
            e.dest@ != "net"@,
            j < old(self).nodes@.len(),
            old(self).nodes@[j as int].0@ == e.dest@,
            old(self).nodes@[j as int].1.status matches NodeStatus::Healthy,
        ensures
            final(self).wf(),
            Self::delivers(pre, *final(self), e),
    {
        let ctx = ActorContext::new(dest.duplicate(), self.clock, self.rng, self.event_count);
        let slot = vstd::std_specs::vec::vec_index_mut(&mut self.nodes, j);
        let (out, _handler_table) = slot.1.on(event, ctx);
        proof {
            let jj = choose|jj: int|
                0 <= jj < pre.nodes@.len() && pre.nodes@[jj].0@ == e.dest@;
            if jj != j {
                assert(pre.nodes@[jj].0@ != pre.nodes@[j as int].0@);
            }
        }
        self.drain_outputs(dest, out);
        proof {
            let jj = choose|jj: int|
                0 <= jj < pre.nodes@.len() && pre.nodes@[jj].0@ == e.dest@;
            assert(jj == j);
            assert(Self::appends_outputs(pre, *self, e));
            assert(Self::delivers(pre, *self, e));
        }
    }

    /// Dispatch one already-popped entry: consume it if it is canceled;
    /// otherwise advance the clock and hand it to the network actor, to
    /// the destination node, or to the undelivered log.
    #[verifier::rlimit(100)]
    #[verifier::spinoff_prover]
    fn deliver_entry(&mut self, e: EventEntry<M>)
        requires
            old(self).wf(),
            !old(self).mc_active ==> forall|i: int|
                0 <= i < old(self).events@.len() ==> #[trigger] old(self).events@[i].time
                    >= e.time,
        ensures
            final(self).wf(),
            Self::delivers(*old(self), *final(self), e),
    {
        let was_canceled = self.canceled_events.remove(e.id);
        if was_canceled {
            return ;
        }
        self.clock = e.time;
        let ghost mid = *self;
        proof {
            assert(Self::at_dispatch(*old(self), mid, e));
        }
        if e.dest.same_str("net") {
            let EventEntry { id: _, time: _, src: _, dest, event } = e;
            self.deliver_to_net(dest, event, Ghost(*old(self)), Ghost(e));
        } else {
            let found = self.find_node(&e.dest);
            match found {
                None => {
                    self.undelivered_events.push(e);
                },
                Some(j) => {
                    if self.nodes[j].1.is_active() {
                        let EventEntry { id: _, time: _, src: _, dest, event } = e;
                        self.deliver_to_node(j, dest, event, Ghost(*old(self)), Ghost(e));
                    } else {
                        proof {
                            let jj = choose|jj: int|
                                0 <= jj < old(self).nodes@.len() && old(self).nodes@[jj].0@
                                    == e.dest@;
                            if jj != j {
                                assert(old(self).nodes@[jj].0@ != old(self).nodes@[j as int].0@);
                            }
                        }
                    }
                },
            }
        }
    }

    /// Deliver the next pending event, if any: pop the least entry by
    /// `(time, id)`, discard it if canceled, otherwise advance the clock
    /// and dispatch it.  Returns whether there was anything to do.
    pub fn step(&mut self) -> (r: bool)
        requires
            old(self).wf(),
            !old(self).mc_active,
        ensures
            final(self).wf(),
            !final(self).mc_active,
            final(self).clock >= old(self).clock,
            final(self).nodes@.len() == old(self).nodes@.len(),
            forall|j: int|
                0 <= j < old(self).nodes@.len() ==> (#[trigger] final(self).nodes@[j]).0 == old(
                    self,
                ).nodes@[j].0 && final(self).nodes@[j].1.status == old(self).nodes@[j].1.status,
            r == (old(self).events@.len() > 0),
            !r ==> *final(self) == *old(self),
            r ==> Self::step_rel(*old(self), *final(self)),
    {
        let popped = self.pop_min();
        match popped {
            None => false,
            Some(e) => {
                let ghost mid = *self;
                proof {
                    let bi = choose|bi: int|
                        {
                            &&& 0 <= bi < old(self).events@.len()
                            &&& old(self).events@[bi] == e
                            &&& mid.events@ == old(self).events@.remove(bi)
                        };
                    assert forall|i: int|
                        0 <= i < self.events@.len() implies #[trigger] self.events@[i].time
                        >= e.time by {
                        let pre = old(self).events@;
                        if i < bi {
                            assert(self.events@[i] == pre[i]);
                            if pre[i] != e {
                                assert(precedes(e, pre[i]));
                            } else {
                                assert(pre[i].id == pre[bi].id);
                            }
                        } else {
                            assert(self.events@[i] == pre[i + 1]);
                            if pre[i + 1] != e {
                                assert(precedes(e, pre[i + 1]));
                            } else {
                                assert(pre[i + 1].id == pre[bi].id);
                            }
                        }
                    }
                    assert(self.clock <= e.time) by {
                        assert(old(self).events@.contains(e));
                        let w = choose|w: int|
                            0 <= w < old(self).events@.len() && old(self).events@[w] == e;
                        assert(old(self).events@[w].time >= old(self).clock);
                    }
                }
                self.deliver_entry(e);
                proof {
                    assert(Self::delivers(mid, *self, e));
                    Self::lemma_delivers_keeps_nodes(mid, *self, e);
                    assert(Self::step_rel(*old(self), *self));
                }
                true
            },
        }
    }

    /// One checker-driven step: deliver the entry the checker put at the
    /// end of the exploration frame.  Emissions land in the frame, never
    /// in the committed queue.
    fn step_frame(&mut self) -> (r: bool)
        requires
            old(self).wf(),
            old(self).mc_active,
        ensures
            final(self).wf(),
            final(self).mc_active,
            r == (old(self).mc_events@.len() > 0),
            !r ==> *final(self) == (Simulation { mc_events: final(self).mc_events, ..*old(self) })
                && final(self).mc_events@ == old(self).mc_events@,
            r ==> exists|mid: Simulation<M, N>|
                {
                    &&& mid == (Simulation { mc_events: mid.mc_events, ..*old(self) })
                    &&& mid.mc_events@ == old(self).mc_events@.drop_last()
                    &&& #[trigger] Self::delivers(mid, *final(self), old(self).mc_events@.last())
                },
    {
        let popped = self.pop_frame();
        match popped {
            None => false,
            Some(e) => {
                let ghost mid = *self;
                self.deliver_entry(e);
                proof {
                    assert(Self::delivers(mid, *self, old(self).mc_events@.last()));
                }
                true
            },
        }
    }

    /// Run up to `step_count` steps, stopping early when the queue
    /// empties; reports whether every requested step found work.  The
    /// final state is reached from the initial one by a chain of
    /// single-step dispatches, one per step that found work.
    pub fn steps(&mut self, step_count: u32) -> (r: bool)
        requires
            old(self).wf(),
            !old(self).mc_active,
        ensures
            final(self).wf(),
            !final(self).mc_active,
            final(self).clock >= old(self).clock,
            final(self).nodes@.len() == old(self).nodes@.len(),
            forall|j: int|
                0 <= j < old(self).nodes@.len() ==> (#[trigger] final(self).nodes@[j]).0 == old(
                    self,
                ).nodes@[j].0 && final(self).nodes@[j].1.status == old(self).nodes@[j].1.status,
            exists|k: int|
                {
                    &&& 0 <= k <= step_count
                    &&& #[trigger] Self::steps_chain(*old(self), *final(self), k)
                    &&& (r <==> k == step_count)
                },
            !r ==> final(self).events@.len() == 0,
    {
        let mut i: u32 = 0;
        while i < step_count
            invariant
                self.wf(),
                !self.mc_active,
                self.clock >= old(self).clock,
                self.nodes@.len() == old(self).nodes@.len(),
                forall|j: int|
                    0 <= j < old(self).nodes@.len() ==> (#[trigger] self.nodes@[j]).0 == old(
                        self,
                    ).nodes@[j].0 && self.nodes@[j].1.status == old(self).nodes@[j].1.status,
                i <= step_count,
                Self::steps_chain(*old(self), *self, i as int),
            decreases step_count - i,
        {
            let ghost prev = *self;
            if !self.step() {
                proof {
                    assert(Self::steps_chain(*old(self), *self, i as int));
                }
                return false;
            }
            proof {
                Self::lemma_chain_extend(*old(self), prev, *self, i as int);
            }
            i += 1;
        }
        proof {
            assert(Self::steps_chain(*old(self), *self, step_count as int));
        }
        true
    }

    /// Run until the queue is empty: the final state is reached by a
    /// chain of single-step dispatches and, short of an astronomically
    /// long run exhausting the step bound, the queue has been drained.
    pub fn step_until_no_events(&mut self)
        requires
            old(self).wf(),
            !old(self).mc_active,
        ensures
            final(self).wf(),
            !final(self).mc_active,
            final(self).clock >= old(self).clock,
            final(self).nodes@.len() == old(self).nodes@.len(),
            forall|j: int|
                0 <= j < old(self).nodes@.len() ==> (#[trigger] final(self).nodes@[j]).0 == old(
                    self,
                ).nodes@[j].0 && final(self).nodes@[j].1.status == old(self).nodes@[j].1.status,
            exists|k: int|
                {
                    &&& 0 <= k
                    &&& #[trigger] Self::steps_chain(*old(self), *final(self), k)
                    &&& (final(self).events@.len() == 0 || k >= u64::MAX)
                },
    {
        let mut fuel: u64 = u64::MAX;
        while fuel > 0
            invariant
                self.wf(),
                !self.mc_active,
                self.clock >= old(self).clock,
                self.nodes@.len() == old(self).nodes@.len(),
                forall|j: int|
                    0 <= j < old(self).nodes@.len() ==> (#[trigger] self.nodes@[j]).0 == old(
                        self,
                    ).nodes@[j].0 && self.nodes@[j].1.status == old(self).nodes@[j].1.status,
                Self::steps_chain(*old(self), *self, (u64::MAX - fuel) as int),
            decreases fuel,
        {
            let ghost prev = *self;
            if !self.step() {
                proof {
                    assert(Self::steps_chain(*old(self), *self, (u64::MAX - fuel) as int));
                }
                return ;
            }
            proof {
                Self::lemma_chain_extend(*old(self), prev, *self, (u64::MAX - fuel) as int);
            }
            fuel -= 1;
        }
        proof {
            assert(Self::steps_chain(*old(self), *self, u64::MAX as int));
        }
    }

    /// Run until the clock has advanced by `duration` ticks past the
    /// current time, or the queue empties: the final state is reached by
    /// a chain of single-step dispatches and, short of exhausting the
    /// astronomical step bound, the queue is empty or the clock has
    /// passed the bound.
    pub fn step_for_duration(&mut self, duration: u64)
        requires
            old(self).wf(),
            !old(self).mc_active,
        ensures
            final(self).wf(),
            !final(self).mc_active,
            final(self).clock >= old(self).clock,
            final(self).nodes@.len() == old(self).nodes@.len(),
            forall|j: int|
                0 <= j < old(self).nodes@.len() ==> (#[trigger] final(self).nodes@[j]).0 == old(
                    self,
                ).nodes@[j].0 && final(self).nodes@[j].1.status == old(self).nodes@[j].1.status,
            exists|k: int|
                {
                    &&& 0 <= k
                    &&& #[trigger] Self::steps_chain(*old(self), *final(self), k)
                    &&& (final(self).events@.len() == 0 || final(self).clock >= old(
                        self,
                    ).clock.saturating_add(duration) || k >= u64::MAX)
                },
    {
        let end_time = self.clock.saturating_add(duration);
        let mut fuel: u64 = u64::MAX;
        while fuel > 0
            invariant
                self.wf(),
                !self.mc_active,
                self.clock >= old(self).clock,
                self.nodes@.len() == old(self).nodes@.len(),
                forall|j: int|
                    0 <= j < old(self).nodes@.len() ==> (#[trigger] self.nodes@[j]).0 == old(
                        self,
                    ).nodes@[j].0 && self.nodes@[j].1.status == old(self).nodes@[j].1.status,
                end_time == old(self).clock.saturating_add(duration),
                Self::steps_chain(*old(self), *self, (u64::MAX - fuel) as int),
            decreases fuel,
        {
            let ghost prev = *self;
            if !self.step() {
                proof {
                    assert(Self::steps_chain(*old(self), *self, (u64::MAX - fuel) as int));
                }
                return ;
            }
            proof {
                Self::lemma_chain_extend(*old(self), prev, *self, (u64::MAX - fuel) as int);
            }
            if self.time() >= end_time {
                proof {
                    assert(Self::steps_chain(
                        *old(self),
                        *self,
                        (u64::MAX - fuel) as int + 1,
                    ));
                }
                return ;
            }
            fuel -= 1;
        }
        proof {
            assert(Self::steps_chain(*old(self), *self, u64::MAX as int));
        }
    }

    /// Drain and return the events that could not be delivered because
    /// their destination was never registered.
    pub fn read_undelivered_events(&mut self) -> (r: Vec<EventEntry<M>>)
        requires
            old(self).wf(),
        ensures
            final(self).wf(),
            *final(self) == (Simulation {
                undelivered_events: final(self).undelivered_events,
                ..*old(self)
            }),
            final(self).undelivered_events@.len() == 0,
            r@ == old(self).undelivered_events@,
    {
        let mut out: Vec<EventEntry<M>> = Vec::new();
        core::mem::swap(&mut out, &mut self.undelivered_events);
        out
    }

    /// Drain and return the checker's trace, reversed into delivery
    /// order: the checker records it tail-first.
    pub fn read_model_checking_trace(&mut self) -> (r: Vec<String>)
        requires
            old(self).wf(),
        ensures
            final(self).wf(),
            *final(self) == (Simulation {
                model_checking_trace: final(self).model_checking_trace,
                ..*old(self)
            }),
            final(self).model_checking_trace@.len() == 0,
            r@ == old(self).model_checking_trace@.reverse(),
    {
        let mut tail: Vec<String> = Vec::new();
        core::mem::swap(&mut tail, &mut self.model_checking_trace);
        let mut out: Vec<String> = Vec::new();
        let ghost full = tail@;
        while tail.len() > 0
            invariant
                tail@ == full.subrange(0, tail@.len() as int),
                out@.len() + tail@.len() == full.len(),
                forall|k: int|
                    0 <= k < out@.len() ==> #[trigger] out@[k] == full[full.len() - 1 - k],
                *self == (Simulation {
                    model_checking_trace: self.model_checking_trace,
                    ..*old(self)
                }),
                self.model_checking_trace@.len() == 0,
                self.wf(),
            decreases tail@.len(),
        {
            proof {
                assert(tail@[tail@.len() - 1] == full[tail@.len() - 1]);
            }
            let item = tail.pop();
            match item {
                Some(s) => {
                    out.push(s);
                    proof {
                        assert(tail@ =~= full.subrange(0, tail@.len() as int));
                    }
                },
                None => {},
            }
        }
        proof {
            assert forall|k: int| 0 <= k < out@.len() implies #[trigger] out@[k]
                == full.reverse()[k] by {
                assert(out@[k] == full[full.len() - 1 - k]);
            }
            assert(out@ =~= full.reverse());
        }
        out
    }
}

/// The invariant the model checker holds against the node wrappers and
/// the network; a verdict of `false` makes the checker surface a trace.
/// Implementations live with the harness that drives the checker.
pub trait Checker<M: Message, N: Node<M>>: Sized {
    /// Whether the current state is still consistent.
    fn check(&mut self, net: &Network, nodes: &Vec<(ActorId, NodeActor<M, N>)>) -> bool;
}

#[verifier::external_type_specification]
#[verifier::external_body]
pub struct ExInstant(std::time::Instant);

/// Relies on `Instant::now`: a monotonic wall-clock reading to measure
/// the checker's budget from.
#[verifier::external_body]
fn clock_start() -> (r: std::time::Instant) {
    std::time::Instant::now()
}

/// Relies on `Instant::elapsed` and `Duration::as_secs`: the whole
/// wall-clock seconds since `start`.  The result depends on the
/// machine's clock, so nothing is promised of it.
#[verifier::external_body]
fn elapsed_seconds(start: &std::time::Instant) -> (r: u64) {
    start.elapsed().as_secs()
}

/// Whether at least `secs` wall-clock seconds have passed since `start`.
fn deadline_passed(start: &std::time::Instant, secs: u64) -> (r: bool) {
    elapsed_seconds(start) >= secs
}

/// A full snapshot of the restorable kernel state: every actor's state,
/// the cancellation set, the event counter and the generator.  The
/// pending queue is not part of it — the checker represents the queue
/// explicitly in its exploration frame.
pub struct SimSnapshot<M: Message> {
    pub actors: Vec<NodeActorState<M>>,
    pub net: Network,
    pub canceled_events: CancelSet,
    pub event_count: u64,
    pub rng: Rng,
}

/// The wrapper-observable state of two node actors is equal: counters,
/// timers, mailbox, local-event log, liveness flag and clock skew.
pub open spec fn wrapper_obs_eq<M: Message, N: Node<M>>(
    a: NodeActor<M, N>,
    b: NodeActor<M, N>,
) -> bool {
    &&& a.timers@ == b.timers@
    &&& a.local_events@ == b.local_events@
    &&& a.local_mailbox@ == b.local_mailbox@
    &&& a.sent_message_count == b.sent_message_count
    &&& a.received_message_count == b.received_message_count
    &&& a.status == b.status
    &&& a.clock_skew == b.clock_skew
}

/// The snapshot records exactly this wrapper's observable state.
pub open spec fn wrapper_matches<M: Message, N: Node<M>>(
    a: NodeActor<M, N>,
    s: NodeActorState<M>,
) -> bool {
    &&& a.timers@ == s.timers@
    &&& a.local_events@ == s.local_events@
    &&& a.local_mailbox@ == s.local_mailbox@
    &&& a.sent_message_count == s.sent_message_count
    &&& a.received_message_count == s.received_message_count
    &&& a.status == s.status
    &&& a.clock_skew == s.clock_skew
}

/// The snapshot records exactly the restorable state of `sim`.
pub open spec fn snap_matches<M: Message, N: Node<M>>(
    snap: SimSnapshot<M>,
    sim: Simulation<M, N>,
) -> bool {
    &&& snap.actors@.len() == sim.nodes@.len()
    &&& forall|j: int|
        0 <= j < sim.nodes@.len() ==> wrapper_matches(
            #[trigger] sim.nodes@[j].1,
            snap.actors@[j],
        )
    &&& crate::net::same_policy(snap.net, sim.net)
    &&& crate::net::same_counters(snap.net, sim.net)
    &&& snap.net.wf() == sim.net.wf()
    &&& snap.canceled_events@ == sim.canceled_events@
    &&& snap.canceled_events.wf() == sim.canceled_events.wf()
    &&& snap.event_count == sim.event_count
    &&& snap.rng == sim.rng
}

/// Snapshot followed by restore is an identity on the observable state:
/// two simulations that match the same snapshot agree on every counter,
/// timer table, mailbox, local-event log, liveness flag, clock skew,
/// network aggregate, cancellation set, event counter and generator
/// state.
pub proof fn lemma_snapshot_restore_identity<M: Message, N: Node<M>>(
    snap: SimSnapshot<M>,
    a: Simulation<M, N>,
    b: Simulation<M, N>,
)
    requires
        snap_matches(snap, a),
        snap_matches(snap, b),
    ensures
        a.nodes@.len() == b.nodes@.len(),
        forall|j: int|
            0 <= j < a.nodes@.len() ==> wrapper_obs_eq(
                #[trigger] a.nodes@[j].1,
                b.nodes@[j].1,
            ),
        crate::net::same_policy(a.net, b.net),
        crate::net::same_counters(a.net, b.net),
        a.canceled_events@ == b.canceled_events@,
        a.event_count == b.event_count,
        a.rng == b.rng,
{
}

impl<M: Message, N: Node<M>> Simulation<M, N> {
    /// Capture the restorable state: each actor's state through its
    /// snapshot hook, the network, the cancellation set, the event
    /// counter and the generator.
    pub fn capture_state(&mut self) -> (snap: SimSnapshot<M>)
        requires
            old(self).wf(),
        ensures
            final(self).wf(),
            *final(self) == (Simulation { nodes: final(self).nodes, ..*old(self) }),
            final(self).nodes@.len() == old(self).nodes@.len(),
            forall|j: int|
                0 <= j < old(self).nodes@.len() ==> (#[trigger] final(self).nodes@[j]).0 == old(
                    self,
                ).nodes@[j].0 && wrapper_obs_eq(final(self).nodes@[j].1, old(self).nodes@[j].1),
            snap_matches(snap, *final(self)),
            snap_matches(snap, *old(self)),
    {
        let mut actors: Vec<NodeActorState<M>> = Vec::new();
        let mut i: usize = 0;
        while i < self.nodes.len()
            invariant
                self.wf(),
                i <= self.nodes@.len(),
                *self == (Simulation { nodes: self.nodes, ..*old(self) }),
                self.nodes@.len() == old(self).nodes@.len(),
                forall|j: int|
                    0 <= j < old(self).nodes@.len() ==> (#[trigger] self.nodes@[j]).0 == old(
                        self,
                    ).nodes@[j].0 && wrapper_obs_eq(self.nodes@[j].1, old(self).nodes@[j].1),
                actors@.len() == i,
                forall|j: int|
                    0 <= j < i ==> wrapper_matches(#[trigger] self.nodes@[j].1, actors@[j]),
            decreases self.nodes@.len() - i,
        {
            let slot = vstd::std_specs::vec::vec_index_mut(&mut self.nodes, i);
            let st = slot.1.get_state();
            actors.push(st);
            i += 1;
        }
        let snap = SimSnapshot {
            actors,
            net: self.net.duplicate(),
            canceled_events: self.canceled_events.duplicate(),
            event_count: self.event_count,
            rng: self.rng,
        };
        proof {
            assert forall|j: int|
                0 <= j < old(self).nodes@.len() implies wrapper_matches(
                #[trigger] old(self).nodes@[j].1,
                snap.actors@[j],
            ) by {
                assert(wrapper_matches(self.nodes@[j].1, snap.actors@[j]));
                assert(wrapper_obs_eq(self.nodes@[j].1, old(self).nodes@[j].1));
            }
            assert(snap_matches(snap, *self));
            assert(snap_matches(snap, *old(self)));
        }
        snap
    }

    /// Restore a previously captured state; the queues, the clock, the
    /// undelivered log and the trace are left as they are.
    pub fn restore_state(&mut self, snap: SimSnapshot<M>)
        requires
            old(self).wf(),
            snap.actors@.len() == old(self).nodes@.len(),
            snap.net.wf(),
            snap.canceled_events.wf(),
            forall|i: int|
                0 <= i < old(self).events@.len() ==> (#[trigger] old(self).events@[i]).id
                    < snap.event_count,
            forall|i: int|
                0 <= i < old(self).mc_events@.len() ==> (#[trigger] old(self).mc_events@[i]).id
                    < snap.event_count,
        ensures
            final(self).wf(),
            final(self).clock == old(self).clock,
            final(self).events == old(self).events,
            final(self).mc_events == old(self).mc_events,
            final(self).undelivered_events == old(self).undelivered_events,
            final(self).model_checking_trace == old(self).model_checking_trace,
            final(self).mc_violation == old(self).mc_violation,
            final(self).mc_active == old(self).mc_active,
            final(self).nodes@.len() == old(self).nodes@.len(),
            forall|j: int|
                0 <= j < old(self).nodes@.len() ==> (#[trigger] final(self).nodes@[j]).0 == old(
                    self,
                ).nodes@[j].0,
            snap_matches(snap, *final(self)),
    {
        let ghost snap0 = snap;
        let SimSnapshot { actors, net, canceled_events, event_count, rng } = snap;
        let mut actors = actors;
        proof {
            assert(actors@ =~= snap0.actors@.subrange(0, actors@.len() as int));
        }
        self.net = net;
        self.canceled_events = canceled_events;
        self.event_count = event_count;
        self.rng = rng;
        let mut i: usize = actors.len();
        while i > 0
            invariant
                i == actors@.len(),
                i <= self.nodes@.len(),
                i <= snap0.actors@.len(),
                actors@ == snap0.actors@.subrange(0, i as int),
                self.net == snap0.net,
                self.canceled_events == snap0.canceled_events,
                self.event_count == snap0.event_count,
                self.rng == snap0.rng,
                self.clock == old(self).clock,
                self.events == old(self).events,
                self.mc_events == old(self).mc_events,
                self.undelivered_events == old(self).undelivered_events,
                self.model_checking_trace == old(self).model_checking_trace,
                self.mc_violation == old(self).mc_violation,
                self.mc_active == old(self).mc_active,
                self.nodes@.len() == old(self).nodes@.len(),
                forall|j: int|
                    0 <= j < old(self).nodes@.len() ==> (#[trigger] self.nodes@[j]).0 == old(
                        self,
                    ).nodes@[j].0,
                forall|j: int|
                    i <= j < self.nodes@.len() ==> wrapper_matches(
                        #[trigger] self.nodes@[j].1,
                        snap0.actors@[j],
                    ),
            decreases i,
        {
            let ghost pre = actors@;
            let item = actors.pop();
            match item {
                Some(st) => {
                    i = i - 1;
                    proof {
                        assert(actors@ =~= snap0.actors@.subrange(0, i as int));
                        assert(pre.last() == snap0.actors@[i as int]);
                    }
                    let slot = vstd::std_specs::vec::vec_index_mut(&mut self.nodes, i);
                    slot.1.set_state(st);
                },
                None => {},
            }
        }
        proof {
            assert(self.wf()) by {
                assert(forall|i: int|
                    0 <= i < self.events@.len() ==> (#[trigger] self.events@[i]).id
                        < self.event_count);
            }
        }
    }

    /// Dispatch never adds or removes actors, and never renames one.
    proof fn lemma_delivers_keeps_nodes(
        pre: Simulation<M, N>,
        post: Simulation<M, N>,
        e: EventEntry<M>,
    )
        requires
            Self::delivers(pre, post, e),
        ensures
            post.nodes@.len() == pre.nodes@.len(),
            forall|j: int|
                0 <= j < pre.nodes@.len() ==> (#[trigger] post.nodes@[j]).0 == pre.nodes@[j].0
                    && post.nodes@[j].1.status == pre.nodes@[j].1.status,
    {
        if pre.canceled_events.contains(e.id) {
        } else {
            if e.dest@ == "net"@ {
            } else if (exists|j: int| 0 <= j < pre.nodes@.len() && pre.nodes@[j].0@ == e.dest@) {
            } else {
            }
        }
    }

    /// Dispatch leaves the network's crashed set alone: nodes crash only
    /// through the facade, never as a side effect of delivery.
    pub proof fn lemma_delivers_keeps_crash_mirror(
        pre: Simulation<M, N>,
        post: Simulation<M, N>,
        e: EventEntry<M>,
    )
        requires
            Self::delivers(pre, post, e),
        ensures
            post.net.crashed_nodes@ == pre.net.crashed_nodes@,
    {
        if pre.canceled_events.contains(e.id) {
        } else {
            if e.dest@ == "net"@ {
            } else if (exists|j: int| 0 <= j < pre.nodes@.len() && pre.nodes@[j].0@ == e.dest@) {
            } else {
            }
        }
    }

    /// One successful committed-queue step: the unique least entry is
    /// removed and dispatched per `delivers`.
    pub open spec fn step_rel(pre: Simulation<M, N>, post: Simulation<M, N>) -> bool {
        exists|e: EventEntry<M>, mid: Simulation<M, N>|
            {
                &&& #[trigger] is_min_of(e, pre.events@)
                &&& mid == (Simulation { events: mid.events, ..pre })
                &&& exists|bi: int|
                    {
                        &&& 0 <= bi < pre.events@.len()
                        &&& pre.events@[bi] == e
                        &&& mid.events@ == pre.events@.remove(bi)
                    }
                &&& #[trigger] Self::delivers(mid, post, e)
            }
    }

    /// `post` is reached from `pre` by exactly `k` successful steps.
    pub open spec fn steps_chain(pre: Simulation<M, N>, post: Simulation<M, N>, k: int) -> bool
        decreases k,
    {
        if k <= 0 {
            post == pre
        } else {
            exists|m: Simulation<M, N>|
                Self::steps_chain(pre, m, k - 1) && #[trigger] Self::step_rel(m, post)
        }
    }

    /// A chain grows by one link.
    pub proof fn lemma_chain_extend(
        pre: Simulation<M, N>,
        mid: Simulation<M, N>,
        post: Simulation<M, N>,
        k: int,
    )
        requires
            k >= 0,
            Self::steps_chain(pre, mid, k),
            Self::step_rel(mid, post),
        ensures
            Self::steps_chain(pre, post, k + 1),
    {
        let j: int = k + 1;
        assert(Self::steps_chain(pre, mid, j - 1));
        assert(Self::steps_chain(pre, post, j));
    }

    /// A dispatch in checker mode only appends to the exploration frame:
    /// what was below the consumed entry is still there, in place.
    proof fn lemma_delivers_frame_prefix(
        pre: Simulation<M, N>,
        post: Simulation<M, N>,
        e: EventEntry<M>,
    )
        requires
            Self::delivers(pre, post, e),
            pre.mc_active,
        ensures
            post.mc_active,
            post.events == pre.events,
            post.mc_events@.len() >= pre.mc_events@.len(),
            post.mc_events@.subrange(0, pre.mc_events@.len() as int) == pre.mc_events@,
            post.nodes@.len() == pre.nodes@.len(),
            forall|j: int|
                0 <= j < pre.nodes@.len() ==> (#[trigger] post.nodes@[j]).0 == pre.nodes@[j].0,
            post.event_count >= pre.event_count,
            post.model_checking_trace == pre.model_checking_trace,
    {
        if pre.canceled_events.contains(e.id) {
            assert(post.mc_events@.subrange(0, pre.mc_events@.len() as int) =~= pre.mc_events@);
        } else {
            if e.dest@ == "net"@ {
            } else if (exists|j: int| 0 <= j < pre.nodes@.len() && pre.nodes@[j].0@ == e.dest@) {
                let j = choose|j: int| 0 <= j < pre.nodes@.len() && pre.nodes@[j].0@ == e.dest@;
                if (pre.nodes@[j].1.status matches NodeStatus::Crashed) {
                    assert(post.mc_events@.subrange(0, pre.mc_events@.len() as int)
                        =~= pre.mc_events@);
                }
            } else {
                assert(post.mc_events@.subrange(0, pre.mc_events@.len() as int)
                    =~= pre.mc_events@);
            }
        }
    }

    /// Explore every order in which the events of the frame can be
    /// delivered, depth first.  A `false` verdict is always backed by an
    /// invocation of the checker that answered `false` (the `mc_violation`
    /// flag records it); the budget or the fuel expiring counts as `true` —
    /// no counterexample was claimed.  On a `false` verdict the current
    /// event's trace line is recorded; the caller sees the trace
    /// tail-first and `read_model_checking_trace` reverses it.
    #[verifier::rlimit(100)]
    #[verifier::spinoff_prover]
    pub fn model_checking_step<C: Checker<M, N>>(
        &mut self,
        check_fn: &mut C,
        start: &std::time::Instant,
        limit_seconds: u64,
        fuel: u64,
    ) -> (r: bool)
        requires
            old(self).wf(),
            old(self).mc_active,
        ensures
            final(self).wf(),
            final(self).mc_active,
            final(self).events == old(self).events,
            final(self).mc_events@ == old(self).mc_events@,
            final(self).event_count == old(self).event_count,
            final(self).rng == old(self).rng,
            final(self).canceled_events@ == old(self).canceled_events@,
            crate::net::same_policy(final(self).net, old(self).net),
            crate::net::same_counters(final(self).net, old(self).net),
            final(self).nodes@.len() == old(self).nodes@.len(),
            forall|j: int|
                0 <= j < old(self).nodes@.len() ==> (#[trigger] final(self).nodes@[j]).0 == old(
                    self,
                ).nodes@[j].0 && wrapper_obs_eq(final(self).nodes@[j].1, old(self).nodes@[j].1),
            old(self).model_checking_trace@.is_prefix_of(final(self).model_checking_trace@),
            (!r && old(self).mc_events@.len() > 0) ==> final(self).model_checking_trace@.len()
                > old(self).model_checking_trace@.len(),
            old(self).mc_violation@ ==> final(self).mc_violation@,
            !r ==> final(self).mc_violation@,
        decreases fuel,
    {
        let k = self.mc_events.len();
        if k == 0 {
            let verdict = check_fn.check(&self.net, &self.nodes);
            if !verdict {
                self.mc_violation = Ghost(true);
            }
            return verdict;
        }
        if fuel == 0 {
            return true;
        }
        let ghost orig = *self;
        let mut i: usize = 0;
        while i < k
            invariant
                orig == *old(self),
                self.wf(),
                self.mc_active,
                k == orig.mc_events@.len(),
                i <= k,
                fuel > 0,
                self.events == orig.events,
                self.mc_events@ == orig.mc_events@,
                self.event_count == orig.event_count,
                self.rng == orig.rng,
                self.canceled_events@ == orig.canceled_events@,
                crate::net::same_policy(self.net, orig.net),
                crate::net::same_counters(self.net, orig.net),
                self.nodes@.len() == orig.nodes@.len(),
                forall|j: int|
                    0 <= j < orig.nodes@.len() ==> (#[trigger] self.nodes@[j]).0
                        == orig.nodes@[j].0 && wrapper_obs_eq(self.nodes@[j].1, orig.nodes@[j].1),
                orig.model_checking_trace@.is_prefix_of(self.model_checking_trace@),
                orig.mc_violation@ ==> self.mc_violation@,
            decreases k - i,
        {
            if deadline_passed(start, limit_seconds) {
                return true;
            }
            let snap = self.capture_state();
            let ghost at_iter = *self;
            let evt = self.mc_events.remove(i);
            let evt2 = evt.duplicate();
            self.mc_events.push(evt2);
            let ghost framed = *self;
            proof {
                assert(framed.mc_events@.drop_last() =~= at_iter.mc_events@.remove(i as int));
            }
            self.step_frame();
            proof {
                let mid = choose|mid: Simulation<M, N>|
                    {
                        &&& mid == (Simulation { mc_events: mid.mc_events, ..framed })
                        &&& mid.mc_events@ == framed.mc_events@.drop_last()
                        &&& #[trigger] Self::delivers(mid, *self, framed.mc_events@.last())
                    };
                Self::lemma_delivers_frame_prefix(mid, *self, framed.mc_events@.last());
                assert(self.mc_events@.subrange(0, k - 1) =~= at_iter.mc_events@.remove(
                    i as int,
                ));
            }
            let ghost after_step = *self;
            let ok = self.model_checking_step(check_fn, start, limit_seconds, fuel - 1);
            if !ok {
                let line = trace_line(&evt);
                self.model_checking_trace.push(line);
            }
            let ghost after_rec = *self;
            proof {
                assert(self.mc_events@.subrange(0, k - 1) =~= at_iter.mc_events@.remove(
                    i as int,
                ));
            }
            while self.mc_events.len() >= k
                invariant
                    k >= 1,
                    self.mc_events@.len() >= k - 1,
                    self.mc_events@.subrange(0, k - 1) == at_iter.mc_events@.remove(i as int),
                    *self == (Simulation { mc_events: self.mc_events, ..after_rec }),
                    self.wf(),
                decreases self.mc_events@.len(),
            {
                let ghost pre_trim = *self;
                self.mc_events.pop();
                proof {
                    assert(self.mc_events@ =~= pre_trim.mc_events@.drop_last());
                    assert(self.mc_events@.subrange(0, k - 1) =~= at_iter.mc_events@.remove(
                        i as int,
                    ));
                    assert forall|a: int|
                        0 <= a < self.mc_events@.len() implies (#[trigger] self.mc_events@[a]).id
                        < self.event_count by {
                        assert(self.mc_events@[a] == pre_trim.mc_events@[a]);
                    }
                    assert forall|a: int, b: int|
                        0 <= a < b < self.mc_events@.len() implies self.mc_events@[a].id
                        != self.mc_events@[b].id by {
                        assert(self.mc_events@[a] == pre_trim.mc_events@[a]);
                        assert(self.mc_events@[b] == pre_trim.mc_events@[b]);
                    }
                }
            }
            proof {
                assert(self.mc_events@ =~= at_iter.mc_events@.remove(i as int));
            }
            self.mc_events.insert(i, evt);
            proof {
                assert(self.mc_events@ =~= at_iter.mc_events@);
                assert forall|a: int|
                    0 <= a < self.mc_events@.len() implies (#[trigger] self.mc_events@[a]).id
                    < snap.event_count by {
                    assert(self.mc_events@[a] == at_iter.mc_events@[a]);
                    assert(at_iter.mc_events@[a].id < at_iter.event_count);
                }
                assert forall|a: int|
                    0 <= a < self.events@.len() implies (#[trigger] self.events@[a]).id
                    < snap.event_count by {
                    assert(self.events@[a] == at_iter.events@[a]);
                    assert(at_iter.events@[a].id < at_iter.event_count);
                }
            }
            self.restore_state(snap);
            proof {
                assert(self.mc_events@ == orig.mc_events@);
                assert(orig.model_checking_trace@.is_prefix_of(
                    self.model_checking_trace@,
                )) by {
                    assert(orig.model_checking_trace@ =~= self.model_checking_trace@.subrange(
                        0,
                        orig.model_checking_trace@.len() as int,
                    ));
                }
            }
            if !ok {
                return false;
            }
            i += 1;
        }
        true
    }

    /// Seed the exploration frame with a copy of the pending queue and
    /// run the checker against it; the committed queue and the clock are
    /// as before when it returns.
    pub fn run_model_checking<C: Checker<M, N>>(
        &mut self,
        check_fn: &mut C,
        limit_seconds: u64,
    ) -> (r: bool)
        requires
            old(self).wf(),
            !old(self).mc_active,
        ensures
            final(self).wf(),
            !final(self).mc_active,
            final(self).clock == old(self).clock,
            final(self).events == old(self).events,
            final(self).event_count == old(self).event_count,
            final(self).rng == old(self).rng,
            final(self).canceled_events@ == old(self).canceled_events@,
            crate::net::same_policy(final(self).net, old(self).net),
            crate::net::same_counters(final(self).net, old(self).net),
            final(self).nodes@.len() == old(self).nodes@.len(),
            forall|j: int|
                0 <= j < old(self).nodes@.len() ==> (#[trigger] final(self).nodes@[j]).0 == old(
                    self,
                ).nodes@[j].0 && wrapper_obs_eq(final(self).nodes@[j].1, old(self).nodes@[j].1),
            old(self).model_checking_trace@.is_prefix_of(final(self).model_checking_trace@),
            (!r && old(self).events@.len() > 0) ==> final(self).model_checking_trace@.len()
                > old(self).model_checking_trace@.len(),
            old(self).mc_violation@ ==> final(self).mc_violation@,
            !r ==> final(self).mc_violation@,
    {
        let start = clock_start();
        let saved_clock = self.time();
        self.mc_active = true;
        let mut i: usize = 0;
        while i < self.events.len()
            invariant
                self.wf(),
                self.mc_active,
                i <= self.events@.len(),
                *self == (Simulation {
                    mc_events: self.mc_events,
                    mc_active: true,
                    ..*old(self)
                }),
                self.mc_events@ == self.events@.subrange(0, i as int),
            decreases self.events@.len() - i,
        {
            let d = self.events[i].duplicate();
            self.mc_events.push(d);
            proof {
                assert(self.mc_events@ =~= self.events@.subrange(0, i as int + 1));
                assert forall|a: int, b: int|
                    0 <= a < b < self.mc_events@.len() implies self.mc_events@[a].id
                    != self.mc_events@[b].id by {
                    assert(self.mc_events@[a] == self.events@[a]);
                    assert(self.mc_events@[b] == self.events@[b]);
                }
                assert forall|a: int|
                    0 <= a < self.mc_events@.len() implies (#[trigger] self.mc_events@[a]).id
                    < self.event_count by {
                    assert(self.mc_events@[a] == self.events@[a]);
                }
            }
            i += 1;
        }
        let r = self.model_checking_step(check_fn, &start, limit_seconds, u64::MAX);
        self.mc_events.clear();
        self.mc_active = false;
        self.clock = saved_clock;
        proof {
            assert(self.events == old(self).events);
            assert forall|a: int|
                0 <= a < self.events@.len() implies (#[trigger] self.events@[a]).time
                >= self.clock by {
                assert(old(self).events@[a].time >= old(self).clock);
            }
        }
        r
    }
}

/// The word naming an event's kind on a trace line.
pub open spec fn kind_word<M: Message>(e: SysEvent<M>) -> Seq<char> {
    match e {
        SysEvent::MessageSend { .. } => "message_send"@,
        SysEvent::MessageReceive { .. } => "message_receive"@,
        SysEvent::LocalMessageReceive { .. } => "local_message_receive"@,
        SysEvent::TimerSet { .. } => "timer_set"@,
        SysEvent::TimerFired { .. } => "timer_fired"@,
    }
}

/// One line of the checker's trace: the scheduled time, the route, the
/// event kind and the event's own label.
fn trace_line<M: Message>(e: &EventEntry<M>) -> (r: String)
    ensures
        exists|lbl: Seq<char>|
            r@ == crate::debugger::dec_str(e.time as int) + " "@ + e.src@ + " --> "@ + e.dest@
                + " "@ + kind_word(e.event) + " "@ + lbl,
{
    let mut out = crate::debugger::u64_to_string(e.time);
    out.append(" ");
    out.append(e.src.to().as_str());
    out.append(" --> ");
    out.append(e.dest.to().as_str());
    out.append(" ");
    match &e.event {
        SysEvent::MessageSend { msg, .. } => {
            out.append("message_send");
            out.append(" ");
            let lbl = msg.label();
            out.append(lbl.as_str());
            proof {
                assert(out@ =~= crate::debugger::dec_str(e.time as int) + " "@ + e.src@
                    + " --> "@ + e.dest@ + " "@ + kind_word(e.event) + " "@ + lbl@);
            }
        },
        SysEvent::MessageReceive { msg, .. } => {
            out.append("message_receive");
            out.append(" ");
            let lbl = msg.label();
            out.append(lbl.as_str());
            proof {
                assert(out@ =~= crate::debugger::dec_str(e.time as int) + " "@ + e.src@
                    + " --> "@ + e.dest@ + " "@ + kind_word(e.event) + " "@ + lbl@);
            }
        },
        SysEvent::LocalMessageReceive { msg } => {
            out.append("local_message_receive");
            out.append(" ");
            let lbl = msg.label();
            out.append(lbl.as_str());
            proof {
                assert(out@ =~= crate::debugger::dec_str(e.time as int) + " "@ + e.src@
                    + " --> "@ + e.dest@ + " "@ + kind_word(e.event) + " "@ + lbl@);
            }
        },
        SysEvent::TimerSet { name, .. } => {
            out.append("timer_set");
            out.append(" ");
            out.append(name.as_str());
            proof {
                assert(out@ =~= crate::debugger::dec_str(e.time as int) + " "@ + e.src@
                    + " --> "@ + e.dest@ + " "@ + kind_word(e.event) + " "@ + name@);
            }
        },
        SysEvent::TimerFired { name } => {
            out.append("timer_fired");
            out.append(" ");
            out.append(name.as_str());
            proof {
                assert(out@ =~= crate::debugger::dec_str(e.time as int) + " "@ + e.src@
                    + " --> "@ + e.dest@ + " "@ + kind_word(e.event) + " "@ + name@);
            }
        },
    }
    out
}

} // verus!
