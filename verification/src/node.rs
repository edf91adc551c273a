//! User nodes and the wrapper that adapts them to the kernel.
//!
//! A node only sees the narrow `Context` surface: the skewed clock, a
//! send primitive, local output, timers and random draws.  The wrapper
//! maintains the timer table, the local-event log, the mailbox and the
//! counters, and adapts the kernel's events to the node's three handlers.
//! What a node does inside a handler is its own affair; everything it can
//! reach flows through the context, and the kernel's invariants hold
//! whatever it does there.

use vstd::prelude::*;

verus! {

use crate::message::Message;
use crate::sim::{ActorContext, ActorId, CtxEvent};
use crate::system::SysEvent;
use crate::tables::TimerTable;

/// A user-authored distributed-algorithm component.
///
/// Implementations live outside the library; the simulator calls the
/// three handlers with a `Context` and trusts the state hooks to
/// serialize enough of the node to restore it later.
pub trait Node<M: Message>: Sized {
    /// The node's id, used as its actor address.
    fn id(&self) -> String;

    /// A message arrived over the network.
    fn on_message(&mut self, msg: M, from: String, ctx: &mut Context<M>);

    /// A local (external) input arrived at the node's boundary.
    fn on_local_message(&mut self, msg: M, ctx: &mut Context<M>);

    /// One of the node's timers fired.
    fn on_timer(&mut self, timer: String, ctx: &mut Context<M>);

    /// Serialize the node's own state for a snapshot.
    fn get_state(&mut self) -> String;

    /// Restore the node's own state from a snapshot.
    fn set_state(&mut self, json_state: String);
}

/// The direction of an entry of a node's local-event log.
#[derive(Clone, Copy, Debug, PartialEq, Eq, Structural)]
pub enum LocalEventType {
    LocalMessageSend,
    LocalMessageReceive,
}

/// One entry of a node's local-event log.
pub struct LocalEvent<M: Message> {
    pub time: u64,
    pub msg: Option<M>,
    pub tip: LocalEventType,
}

impl<M: Message> LocalEvent<M> {
    /// An equal copy.
    pub fn duplicate(&self) -> (r: LocalEvent<M>)
        ensures
            r == *self,
    {
        LocalEvent {
            time: self.time,
            msg: match &self.msg {
                Some(m) => Some(m.duplicate()),
                None => None,
            },
            tip: self.tip,
        }
    }
}

/// An equal copy of a log.
pub fn duplicate_local_events<M: Message>(v: &Vec<LocalEvent<M>>) -> (r: Vec<LocalEvent<M>>)
    ensures
        r@ == v@,
{
    let mut out: Vec<LocalEvent<M>> = Vec::new();
    let mut i: usize = 0;
    while i < v.len()
        invariant
            i <= v@.len(),
            out@ == v@.subrange(0, i as int),
        decreases v@.len() - i,
    {
        out.push(v[i].duplicate());
        assert(out@ == v@.subrange(0, i as int + 1));
        i += 1;
    }
    assert(out@ == v@);
    out
}

/// An equal copy of a mailbox.
pub fn duplicate_messages<M: Message>(v: &Vec<M>) -> (r: Vec<M>)
    ensures
        r@ == v@,
{
    let mut out: Vec<M> = Vec::new();
    let mut i: usize = 0;
    while i < v.len()
        invariant
            i <= v@.len(),
            out@ == v@.subrange(0, i as int),
        decreases v@.len() - i,
    {
        out.push(v[i].duplicate());
        assert(out@ == v@.subrange(0, i as int + 1));
        i += 1;
    }
    assert(out@ == v@);
    out
}

/// The kernel time `t` as this node sees it, shifted by its clock skew
/// and clamped to the clock's range.
pub open spec fn skewed_time(t: u64, skew: i64) -> u64 {
    if t + skew > u64::MAX {
        u64::MAX
    } else if t + skew < 0 {
        0
    } else {
        (t + skew) as u64
    }
}

/// What a node handler works through: the kernel-level context plus the
/// wrapper state the node may touch.  The buffers hold only what this
/// handler run produced; the wrapper folds them into its own state after
/// the handler returns.
pub struct Context<M: Message> {
    /// The kernel-level context: emissions, cancellations, the generator.
    pub actor: ActorContext<M>,
    /// The node's timer table, moved in for the duration of the handler.
    pub timers: TimerTable,
    /// Local-event log entries this handler produced.
    pub local_events: Vec<LocalEvent<M>>,
    /// Mailbox entries this handler produced.
    pub local_mailbox: Vec<M>,
    /// How many sends this handler performed.
    pub sent_message_count: u64,
    /// The node's clock skew, in ticks.
    pub clock_skew: i64,
}

impl<M: Message> Context<M> {
    pub fn new(actor: ActorContext<M>, timers: TimerTable, clock_skew: i64) -> (r: Context<M>)
        ensures
            r.actor == actor,
            r.timers == timers,
            r.local_events@.len() == 0,
            r.local_mailbox@.len() == 0,
            r.sent_message_count == 0,
            r.clock_skew == clock_skew,
    {
        Context {
            actor,
            timers,
            local_events: Vec::new(),
            local_mailbox: Vec::new(),
            sent_message_count: 0,
            clock_skew,
        }
    }

    /// The current time as the node sees it: kernel time plus skew.
    pub fn time(&self) -> (r: u64)
        ensures
            r == skewed_time(self.actor.time, self.clock_skew),
    {
        if self.clock_skew >= 0 {
            self.actor.time.saturating_add(self.clock_skew as u64)
        } else {
            let mag = (-(self.clock_skew as i128)) as u64;
            self.actor.time.saturating_sub(mag)
        }
    }

    /// Send `msg` to the node `dest`.  A send to any other node goes to
    /// the network actor as a `MessageSend`; a self-addressed send
    /// short-circuits into an immediate `MessageReceive` at this node,
    /// with no network involvement.
    pub fn send(&mut self, msg: M, dest: &str)
        ensures
            final(self).timers == old(self).timers,
            final(self).local_events == old(self).local_events,
            final(self).local_mailbox == old(self).local_mailbox,
            final(self).clock_skew == old(self).clock_skew,
            final(self).sent_message_count == old(self).sent_message_count.saturating_add(1),
            final(self).actor.id == old(self).actor.id,
            final(self).actor.time == old(self).actor.time,
            final(self).actor.rng == old(self).actor.rng,
            final(self).actor.canceled_events == old(self).actor.canceled_events,
            old(self).actor.next_event_id < u64::MAX ==> {
                &&& final(self).actor.events@.len() == old(self).actor.events@.len() + 1
                &&& final(self).actor.events@.subrange(
                    0,
                    old(self).actor.events@.len() as int,
                ) == old(self).actor.events@
                &&& final(self).actor.next_event_id == old(self).actor.next_event_id + 1
                &&& {
                    let ce = final(self).actor.events@.last();
                    if dest@ == old(self).actor.id@ {
                        &&& ce.delay == 0
                        &&& ce.dest@ == dest@
                        &&& ce.event matches SysEvent::MessageReceive {
                            msg: m2,
                            src: s2,
                            dest: d2,
                        } && m2 == msg && s2@ == old(self).actor.id@ && d2@ == dest@
                    } else {
                        &&& ce.delay == 0
                        &&& ce.dest@ == "net"@
                        &&& ce.event matches SysEvent::MessageSend {
                            msg: m2,
                            src: s2,
                            dest: d2,
                        } && m2 == msg && s2@ == old(self).actor.id@ && d2@ == dest@
                    }
                }
            },
    {
        let dest_id = ActorId::from(dest);
        if self.actor.id.same_str(dest) {
            let src = self.actor.id.duplicate();
            let routed = dest_id.duplicate();
            let event = SysEvent::MessageReceive { msg, src, dest: dest_id };
            self.actor.emit(event, routed, 0);
        } else {
            let src = self.actor.id.duplicate();
            let event = SysEvent::MessageSend { msg, src, dest: dest_id };
            self.actor.emit(event, ActorId::from("net"), 0);
        }
        self.sent_message_count = self.sent_message_count.saturating_add(1);
    }

    /// Emit `msg` at the node's boundary: it is appended to the local
    /// log, stamped with the skewed clock, and to the mailbox the
    /// harness collects from.
    pub fn send_local(&mut self, msg: M)
        ensures
            final(self).timers == old(self).timers,
            final(self).actor == old(self).actor,
            final(self).clock_skew == old(self).clock_skew,
            final(self).sent_message_count == old(self).sent_message_count,
            final(self).local_events@ == old(self).local_events@.push(
                LocalEvent {
                    time: skewed_time(old(self).actor.time, old(self).clock_skew),
                    msg: Some(msg),
                    tip: LocalEventType::LocalMessageSend,
                },
            ),
            final(self).local_mailbox@ == old(self).local_mailbox@.push(msg),
    {
        let stamp = self.time();
        let copy = msg.duplicate();
        self.local_events.push(
            LocalEvent { time: stamp, msg: Some(copy), tip: LocalEventType::LocalMessageSend },
        );
        self.local_mailbox.push(msg);
    }

    /// Schedule the timer `name` to fire after `delay` ticks.  Setting a
    /// timer that is already pending replaces it: the earlier event is
    /// canceled and a fresh one is emitted.
    #[verifier::rlimit(100)]
    #[verifier::spinoff_prover]
    pub fn set_timer(&mut self, name: &str, delay: u64)
        ensures
            (old(self).timers.wf() && old(self).actor.next_event_id < u64::MAX)
                ==> set_timer_effect(*old(self), *final(self), name@, delay),
            final(self).local_events == old(self).local_events,
            final(self).local_mailbox == old(self).local_mailbox,
            final(self).clock_skew == old(self).clock_skew,
            final(self).sent_message_count == old(self).sent_message_count,
            final(self).actor.id == old(self).actor.id,
            final(self).actor.time == old(self).actor.time,
            final(self).actor.rng == old(self).actor.rng,
            old(self).timers.wf() ==> final(self).timers.wf(),
            old(self).actor.next_event_id < u64::MAX ==> {
                &&& final(self).actor.events@.len() == old(self).actor.events@.len() + 1
                &&& final(self).actor.events@.subrange(
                    0,
                    old(self).actor.events@.len() as int,
                ) == old(self).actor.events@
                &&& final(self).actor.next_event_id == old(self).actor.next_event_id + 1
                &&& {
                    let ce = final(self).actor.events@.last();
                    &&& ce.delay == delay
                    &&& ce.dest@ == old(self).actor.id@
                    &&& ce.event matches SysEvent::TimerFired { name: n2 } && n2@ == name@
                }
            },
    {
        let event = SysEvent::TimerFired { name: name.to_owned() };
        let target = self.actor.id.duplicate();
        let id = self.actor.emit(event, target, delay);
        if self.actor.next_event_id > id {
            let prev = self.timers.set(name, id);
            match prev {
                Some(old_id) => {
                    proof {
                        if old(self).timers.wf() {
                            let x = choose|x: u64| old(self).timers.has_entry(name@, x);
                            lemma_timer_entry_unique(old(self).timers, name@, old_id, x);
                        }
                    }
                    self.actor.cancel_event(old_id);
                },
                None => {},
            }
        }
        proof {
            if old(self).timers.wf() && old(self).actor.next_event_id < u64::MAX {
                assert(self.actor.events@.subrange(0, old(self).actor.events@.len() as int)
                    =~= old(self).actor.events@);
                assert(set_timer_effect(*old(self), *self, name@, delay));
            }
        }
    }

    /// Cancel the timer `name` if it is pending: its entry is removed and
    /// its event id is marked for lazy cancellation.  Canceling an absent
    /// timer changes nothing, so cancellation is idempotent.
    pub fn cancel_timer(&mut self, name: &str)
        ensures
            final(self).local_events == old(self).local_events,
            final(self).local_mailbox == old(self).local_mailbox,
            final(self).clock_skew == old(self).clock_skew,
            final(self).sent_message_count == old(self).sent_message_count,
            final(self).actor.id == old(self).actor.id,
            final(self).actor.time == old(self).actor.time,
            final(self).actor.rng == old(self).actor.rng,
            final(self).actor.events == old(self).actor.events,
            final(self).actor.next_event_id == old(self).actor.next_event_id,
            old(self).timers.wf() ==> cancel_timer_effect(*old(self), *final(self), name@),
    {
        let taken = self.timers.take(name);
        match taken {
            Some(id) => {
                proof {
                    if old(self).timers.wf() {
                        let x = choose|x: u64| old(self).timers.has_entry(name@, x);
                        lemma_timer_entry_unique(old(self).timers, name@, id, x);
                    }
                }
                self.actor.cancel_event(id);
            },
            None => {},
        }
    }

    /// A draw in `[0, RATE_SCALE)` from the simulation's generator.
    pub fn rand(&mut self) -> (r: u64)
        ensures
            final(self).timers == old(self).timers,
            final(self).local_events == old(self).local_events,
            final(self).local_mailbox == old(self).local_mailbox,
            final(self).clock_skew == old(self).clock_skew,
            final(self).sent_message_count == old(self).sent_message_count,
            final(self).actor.id == old(self).actor.id,
            final(self).actor.time == old(self).actor.time,
            final(self).actor.events == old(self).actor.events,
            final(self).actor.next_event_id == old(self).actor.next_event_id,
            final(self).actor.canceled_events == old(self).actor.canceled_events,
            final(self).actor.rng.state == crate::rng::rng_step(old(self).actor.rng.state),
            r == crate::rng::rng_out(crate::rng::rng_step(old(self).actor.rng.state)),
            r < crate::rng::RATE_SCALE,
    {
        self.actor.rand()
    }
}

/// Whether a node still takes events.
#[derive(Clone, Copy, Debug, PartialEq, Eq, Structural)]
pub enum NodeStatus {
    Healthy,
    Crashed,
}

/// A snapshot of a node wrapper: the node's own serialized state plus a
/// deep copy of everything the wrapper maintains around it.
pub struct NodeActorState<M: Message> {
    pub node_state: String,
    pub timers: TimerTable,
    pub local_events: Vec<LocalEvent<M>>,
    pub local_mailbox: Vec<M>,
    pub sent_message_count: u64,
    pub received_message_count: u64,
    pub status: NodeStatus,
    pub clock_skew: i64,
}

impl<M: Message> NodeActorState<M> {
    pub fn new(
        node_state: String,
        timers: TimerTable,
        local_events: Vec<LocalEvent<M>>,
        local_mailbox: Vec<M>,
        sent_message_count: u64,
        received_message_count: u64,
        status: NodeStatus,
        clock_skew: i64,
    ) -> (r: NodeActorState<M>)
        ensures
            r.node_state == node_state,
            r.timers == timers,
            r.local_events == local_events,
            r.local_mailbox == local_mailbox,
            r.sent_message_count == sent_message_count,
            r.received_message_count == received_message_count,
            r.status == status,
            r.clock_skew == clock_skew,
    {
        NodeActorState {
            node_state,
            timers,
            local_events,
            local_mailbox,
            sent_message_count,
            received_message_count,
            status,
            clock_skew,
        }
    }
}

/// The wrapper that adapts a user node to the kernel's actor protocol:
/// it dispatches events to the node's handlers and maintains the timer
/// table, the local-event log, the mailbox, the counters, the liveness
/// flag and the clock skew.
#[verifier::ext_equal]
pub struct NodeActor<M: Message, N: Node<M>> {
    pub node: N,
    pub timers: TimerTable,
    pub local_events: Vec<LocalEvent<M>>,
    pub local_mailbox: Vec<M>,
    pub status: NodeStatus,
    pub sent_message_count: u64,
    pub received_message_count: u64,
    pub clock_skew: i64,
}

impl<M: Message, N: Node<M>> NodeActor<M, N> {
    pub fn new(node: N) -> (r: NodeActor<M, N>)
        ensures
            r.node == node,
            r.timers.wf(),
            r.timers@.len() == 0,
            r.local_events@.len() == 0,
            r.local_mailbox@.len() == 0,
            r.status == NodeStatus::Healthy,
            r.sent_message_count == 0,
            r.received_message_count == 0,
            r.clock_skew == 0,
    {
        NodeActor {
            node,
            timers: TimerTable::new(),
            local_events: Vec::new(),
            local_mailbox: Vec::new(),
            status: NodeStatus::Healthy,
            sent_message_count: 0,
            received_message_count: 0,
            clock_skew: 0,
        }
    }

    /// A deep copy of the local-event log.
    pub fn get_local_events(&self) -> (r: Vec<LocalEvent<M>>)
        ensures
            r@ == self.local_events@,
    {
        duplicate_local_events(&self.local_events)
    }

    /// Drain the mailbox: all collected messages if there are any.
    pub fn check_mailbox(&mut self) -> (r: Option<Vec<M>>)
        ensures
            final(self).node == old(self).node,
            final(self).timers == old(self).timers,
            final(self).local_events == old(self).local_events,
            final(self).status == old(self).status,
            final(self).sent_message_count == old(self).sent_message_count,
            final(self).received_message_count == old(self).received_message_count,
            final(self).clock_skew == old(self).clock_skew,
            final(self).local_mailbox@.len() == 0,
            match r {
                Some(v) => v@ == old(self).local_mailbox@ && old(self).local_mailbox@.len() > 0,
                None => old(self).local_mailbox@.len() == 0 && final(self).local_mailbox == old(
                    self,
                ).local_mailbox,
            },
    {
        if self.local_mailbox.len() > 0 {
            let mut out: Vec<M> = Vec::new();
            core::mem::swap(&mut out, &mut self.local_mailbox);
            Some(out)
        } else {
            None
        }
    }

    pub fn sent_message_count(&self) -> (r: u64)
        ensures
            r == self.sent_message_count,
    {
        self.sent_message_count
    }

    pub fn received_message_count(&self) -> (r: u64)
        ensures
            r == self.received_message_count,
    {
        self.received_message_count
    }

    /// Flip the node to `Crashed`; the kernel then drops events addressed
    /// to it.  The node is never removed.
    pub fn crash(&mut self)
        ensures
            *final(self) == (NodeActor { status: NodeStatus::Crashed, ..*old(self) }),
    {
        self.status = NodeStatus::Crashed;
    }

    pub fn set_clock_skew(&mut self, clock_skew: i64)
        ensures
            *final(self) == (NodeActor { clock_skew, ..*old(self) }),
    {
        self.clock_skew = clock_skew;
    }

    /// Whether the kernel should still deliver to this actor.
    pub fn is_active(&self) -> (r: bool)
        ensures
            r == (self.status matches NodeStatus::Healthy),
    {
        match self.status {
            NodeStatus::Healthy => true,
            NodeStatus::Crashed => false,
        }
    }

    /// A full snapshot of the wrapper, with the node's own state
    /// serialized through its hook.
    pub fn get_state(&mut self) -> (r: NodeActorState<M>)
        ensures
            final(self).timers == old(self).timers,
            final(self).local_events == old(self).local_events,
            final(self).local_mailbox == old(self).local_mailbox,
            final(self).status == old(self).status,
            final(self).sent_message_count == old(self).sent_message_count,
            final(self).received_message_count == old(self).received_message_count,
            final(self).clock_skew == old(self).clock_skew,
            r.timers@ == old(self).timers@,
            r.local_events@ == old(self).local_events@,
            r.local_mailbox@ == old(self).local_mailbox@,
            r.sent_message_count == old(self).sent_message_count,
            r.received_message_count == old(self).received_message_count,
            r.status == old(self).status,
            r.clock_skew == old(self).clock_skew,
    {
        let node_state = self.node.get_state();
        NodeActorState {
            node_state,
            timers: self.timers.duplicate(),
            local_events: duplicate_local_events(&self.local_events),
            local_mailbox: duplicate_messages(&self.local_mailbox),
            sent_message_count: self.sent_message_count,
            received_message_count: self.received_message_count,
            status: self.status,
            clock_skew: self.clock_skew,
        }
    }

    /// Restore the wrapper from a snapshot; the node's own state is fed
    /// back through its hook.
    pub fn set_state(&mut self, state: NodeActorState<M>)
        ensures
            final(self).timers == state.timers,
            final(self).local_events == state.local_events,
            final(self).local_mailbox == state.local_mailbox,
            final(self).sent_message_count == state.sent_message_count,
            final(self).received_message_count == state.received_message_count,
            final(self).status == state.status,
            final(self).clock_skew == state.clock_skew,
    {
        let NodeActorState {
            node_state,
            timers,
            local_events,
            local_mailbox,
            sent_message_count,
            received_message_count,
            status,
            clock_skew,
        } = state;
        self.node.set_state(node_state);
        self.timers = timers;
        self.local_events = local_events;
        self.local_mailbox = local_mailbox;
        self.sent_message_count = sent_message_count;
        self.received_message_count = received_message_count;
        self.status = status;
        self.clock_skew = clock_skew;
    }

    /// Fold what a handler run produced back into the wrapper and hand
    /// the kernel-level context back.
    fn merge(&mut self, nctx: Context<M>) -> (r: ActorContext<M>)
        ensures
            final(self).node == old(self).node,
            final(self).status == old(self).status,
            final(self).clock_skew == old(self).clock_skew,
            final(self).received_message_count == old(self).received_message_count,
            final(self).timers == nctx.timers,
            final(self).local_events@ == old(self).local_events@ + nctx.local_events@,
            final(self).local_mailbox@ == old(self).local_mailbox@ + nctx.local_mailbox@,
            final(self).sent_message_count == old(self).sent_message_count.saturating_add(
                nctx.sent_message_count,
            ),
            r == nctx.actor,
    {
        let Context {
            actor,
            timers,
            local_events,
            local_mailbox,
            sent_message_count,
            clock_skew: _,
        } = nctx;
        let mut le = local_events;
        let mut lm = local_mailbox;
        self.timers = timers;
        self.local_events.append(&mut le);
        self.local_mailbox.append(&mut lm);
        self.sent_message_count = self.sent_message_count.saturating_add(sent_message_count);
        actor
    }

    /// Handle one dispatched event: a `MessageReceive` goes to
    /// `on_message`, a `LocalMessageReceive` is logged and goes to
    /// `on_local_message`, a `TimerFired` first clears its own table
    /// entry and goes to `on_timer`; everything else is ignored, and a
    /// crashed node ignores everything.  The second component of the
    /// result is the timer table exactly as the node's handler received
    /// it — for a fired timer, with the fired name already removed, so
    /// the handler may safely re-set the same name.
    pub fn on(&mut self, event: SysEvent<M>, ctx: ActorContext<M>) -> (r: (
        ActorContext<M>,
        Ghost<TimerTable>,
    ))
        ensures
            final(self).status == old(self).status,
            final(self).clock_skew == old(self).clock_skew,
            old(self).local_events@.is_prefix_of(final(self).local_events@),
            old(self).local_mailbox@.is_prefix_of(final(self).local_mailbox@),
            old(self).status matches NodeStatus::Crashed ==> *final(self) == *old(self) && r.0
                == ctx && r.1@ == old(self).timers,
            (old(self).status matches NodeStatus::Healthy) ==> match event {
                SysEvent::MessageReceive { .. } => {
                    &&& final(self).received_message_count == old(
                        self,
                    ).received_message_count.saturating_add(1)
                    &&& r.1@ == old(self).timers
                },
                SysEvent::LocalMessageReceive { msg } => {
                    &&& final(self).received_message_count == old(self).received_message_count
                    &&& final(self).local_events@.len() > old(self).local_events@.len()
                    &&& final(self).local_events@[old(self).local_events@.len() as int]
                        == (LocalEvent {
                        time: ctx.time,
                        msg: Some(msg),
                        tip: LocalEventType::LocalMessageReceive,
                    })
                    &&& r.1@ == old(self).timers
                },
                SysEvent::TimerFired { name } => {
                    &&& final(self).received_message_count == old(self).received_message_count
                    &&& old(self).timers.wf() ==> {
                        &&& (forall|x: u64| !r.1@.has_entry(name@, x))
                        &&& forall|n: Seq<char>, x: u64|
                            n != name@ ==> r.1@.has_entry(n, x) == old(self).timers.has_entry(
                                n,
                                x,
                            )
                    }
                },
                _ => *final(self) == *old(self) && r.0 == ctx && r.1@ == old(self).timers,
            },
    {
        match self.status {
            NodeStatus::Crashed => (ctx, Ghost(self.timers)),
            NodeStatus::Healthy => {
                match event {
                    SysEvent::MessageReceive { msg, src, dest: _ } => {
                        let mut t = TimerTable::new();
                        core::mem::swap(&mut t, &mut self.timers);
                        let ghost handler_table = t;
                        let mut nctx = Context::new(ctx, t, self.clock_skew);
                        let from = src.to();
                        self.node.on_message(msg, from, &mut nctx);
                        self.received_message_count =
                            self.received_message_count.saturating_add(1);
                        (self.merge(nctx), Ghost(handler_table))
                    },
                    SysEvent::LocalMessageReceive { msg } => {
                        let copy = msg.duplicate();
                        let stamp = ctx.time;
                        self.local_events.push(
                            LocalEvent {
                                time: stamp,
                                msg: Some(copy),
                                tip: LocalEventType::LocalMessageReceive,
                            },
                        );
                        let mut t = TimerTable::new();
                        core::mem::swap(&mut t, &mut self.timers);
                        let ghost handler_table = t;
                        let mut nctx = Context::new(ctx, t, self.clock_skew);
                        self.node.on_local_message(msg, &mut nctx);
                        let r = self.merge(nctx);
                        proof {
                            assert(self.local_events@[old(self).local_events@.len() as int]
                                == (LocalEvent {
                                time: ctx.time,
                                msg: Some(msg),
                                tip: LocalEventType::LocalMessageReceive,
                            }));
                        }
                        (r, Ghost(handler_table))
                    },
                    SysEvent::TimerFired { name } => {
                        let _removed = self.timers.take(name.as_str());
                        let mut t = TimerTable::new();
                        core::mem::swap(&mut t, &mut self.timers);
                        let ghost handler_table = t;
                        let mut nctx = Context::new(ctx, t, self.clock_skew);
                        self.node.on_timer(name, &mut nctx);
                        (self.merge(nctx), Ghost(handler_table))
                    },
                    _ => (ctx, Ghost(self.timers)),
                }
            },
        }
    }
}

/// What `cancel_timer(name)` does to the timer table and the
/// cancellation buffer, for a well-formed starting table.
pub open spec fn cancel_timer_effect<M: Message>(
    pre: Context<M>,
    post: Context<M>,
    name: Seq<char>,
) -> bool {
    &&& post.timers.wf()
    &&& forall|x: u64| !post.timers.has_entry(name, x)
    &&& forall|n: Seq<char>, x: u64|
        n != name ==> post.timers.has_entry(n, x) == pre.timers.has_entry(n, x)
    &&& !pre.timers.has_timer(name) ==> post.timers@ == pre.timers@
        && post.actor.canceled_events == pre.actor.canceled_events
    &&& pre.timers.has_timer(name) ==> post.actor.canceled_events@
        == pre.actor.canceled_events@.push(choose|x: u64| pre.timers.has_entry(name, x))
}

/// What `set_timer(name, delay)` does to the timer table, the emission
/// buffer and the cancellation buffer, for a well-formed starting table
/// with ids remaining.
pub open spec fn set_timer_effect<M: Message>(
    pre: Context<M>,
    post: Context<M>,
    name: Seq<char>,
    delay: u64,
) -> bool {
    &&& post.timers.wf()
    &&& post.actor.next_event_id == pre.actor.next_event_id + 1
    &&& post.actor.events@.len() == pre.actor.events@.len() + 1
    &&& post.actor.events@.subrange(0, pre.actor.events@.len() as int) == pre.actor.events@
    &&& {
        let ce = post.actor.events@.last();
        &&& ce.delay == delay
        &&& ce.dest@ == pre.actor.id@
        &&& ce.event matches SysEvent::TimerFired { name: n2 } && n2@ == name
    }
    &&& post.timers.has_entry(name, pre.actor.next_event_id)
    &&& forall|x: u64| x != pre.actor.next_event_id ==> !post.timers.has_entry(name, x)
    &&& forall|n: Seq<char>, x: u64|
        n != name ==> post.timers.has_entry(n, x) == pre.timers.has_entry(n, x)
    &&& pre.timers.has_timer(name) ==> post.actor.canceled_events@
        == pre.actor.canceled_events@.push(choose|x: u64| pre.timers.has_entry(name, x))
    &&& !pre.timers.has_timer(name) ==> post.actor.canceled_events
        == pre.actor.canceled_events
}

/// Canceling a timer twice is the same as canceling it once: the second
/// cancellation finds nothing and changes nothing.
pub proof fn lemma_cancel_timer_idempotent<M: Message>(
    c0: Context<M>,
    c1: Context<M>,
    c2: Context<M>,
    name: Seq<char>,
)
    requires
        cancel_timer_effect(c0, c1, name),
        cancel_timer_effect(c1, c2, name),
    ensures
        c2.timers@ == c1.timers@,
        c2.actor.canceled_events == c1.actor.canceled_events,
{
    assert(!c1.timers.has_timer(name)) by {
        if c1.timers.has_timer(name) {
            let x = choose|x: u64| c1.timers.has_entry(name, x);
        }
    }
}

/// Cancellations of two differently named timers commute: both orders
/// leave the same timer table, and mark the same set of event ids for
/// cancellation.
pub proof fn lemma_cancel_timer_commutes<M: Message>(
    c0: Context<M>,
    c1: Context<M>,
    c2: Context<M>,
    d1: Context<M>,
    d2: Context<M>,
    n1: Seq<char>,
    n2: Seq<char>,
)
    requires
        n1 != n2,
        c0.timers.wf(),
        cancel_timer_effect(c0, c1, n1),
        cancel_timer_effect(c1, c2, n2),
        cancel_timer_effect(c0, d1, n2),
        cancel_timer_effect(d1, d2, n1),
    ensures
        forall|n: Seq<char>, x: u64| c2.timers.has_entry(n, x) == d2.timers.has_entry(n, x),
        forall|x: u64|
            c2.actor.canceled_events@.contains(x) == d2.actor.canceled_events@.contains(x),
    {
    assert forall|n: Seq<char>, x: u64|
        c2.timers.has_entry(n, x) == d2.timers.has_entry(n, x) by {
        if n == n1 {
            assert(!c2.timers.has_entry(n, x));
            assert(!d2.timers.has_entry(n, x));
        } else if n == n2 {
            assert(!c2.timers.has_entry(n, x));
            assert(!d2.timers.has_entry(n, x));
        }
    }
    assert(c1.timers.has_timer(n2) == c0.timers.has_timer(n2)) by {
        if c0.timers.has_timer(n2) {
            let x = choose|x: u64| c0.timers.has_entry(n2, x);
            assert(c1.timers.has_entry(n2, x));
        }
        if c1.timers.has_timer(n2) {
            let x = choose|x: u64| c1.timers.has_entry(n2, x);
            assert(c0.timers.has_entry(n2, x));
        }
    }
    assert(d1.timers.has_timer(n1) == c0.timers.has_timer(n1)) by {
        if c0.timers.has_timer(n1) {
            let x = choose|x: u64| c0.timers.has_entry(n1, x);
            assert(d1.timers.has_entry(n1, x));
        }
        if d1.timers.has_timer(n1) {
            let x = choose|x: u64| d1.timers.has_entry(n1, x);
            assert(c0.timers.has_entry(n1, x));
        }
    }
    if c0.timers.has_timer(n1) {
        let x1a = choose|x: u64| c0.timers.has_entry(n1, x);
        if d1.timers.has_timer(n1) {
            let x1b = choose|x: u64| d1.timers.has_entry(n1, x);
            assert(c0.timers.has_entry(n1, x1b));
            lemma_timer_entry_unique(c0.timers, n1, x1a, x1b);
        }
    }
    if c0.timers.has_timer(n2) {
        let x2a = choose|x: u64| c0.timers.has_entry(n2, x);
        if c1.timers.has_timer(n2) {
            let x2b = choose|x: u64| c1.timers.has_entry(n2, x);
            assert(c0.timers.has_entry(n2, x2b));
            lemma_timer_entry_unique(c0.timers, n2, x2a, x2b);
        }
    }
    assert forall|x: u64|
        c2.actor.canceled_events@.contains(x) == d2.actor.canceled_events@.contains(x) by {
        let base = c0.actor.canceled_events@;
        if c0.timers.has_timer(n1) && c0.timers.has_timer(n2) {
            let x1 = choose|y: u64| c0.timers.has_entry(n1, y);
            let x2 = choose|y: u64| c0.timers.has_entry(n2, y);
            assert(c2.actor.canceled_events@ =~= base.push(x1).push(x2));
            assert(d2.actor.canceled_events@ =~= base.push(x2).push(x1));
            assert(base.push(x1).push(x2).contains(x) == (base.contains(x) || x == x1 || x
                == x2)) by {
                lemma_push_contains(base.push(x1), x2, x);
                lemma_push_contains(base, x1, x);
            }
            assert(base.push(x2).push(x1).contains(x) == (base.contains(x) || x == x1 || x
                == x2)) by {
                lemma_push_contains(base.push(x2), x1, x);
                lemma_push_contains(base, x2, x);
            }
        } else if c0.timers.has_timer(n1) {
            let x1 = choose|y: u64| c0.timers.has_entry(n1, y);
            assert(c2.actor.canceled_events@ =~= base.push(x1));
            assert(d2.actor.canceled_events@ =~= base.push(x1));
        } else if c0.timers.has_timer(n2) {
            let x2 = choose|y: u64| c0.timers.has_entry(n2, y);
            assert(c2.actor.canceled_events@ =~= base.push(x2));
            assert(d2.actor.canceled_events@ =~= base.push(x2));
        } else {
            assert(c2.actor.canceled_events@ =~= base);
            assert(d2.actor.canceled_events@ =~= base);
        }
    }
}

/// Canceling one timer commutes with re-setting a differently named
/// one: both orders leave the same timer bindings — the canceled name
/// empty, the re-set name bound to the same fresh event id — and mark
/// the same set of event ids for cancellation.  The hypotheses carry the
/// id bookkeeping the two operations' own contracts provide: canceling
/// consumes no event id, setting consumes exactly one.
pub proof fn lemma_cancel_set_commute<M: Message>(
    c0: Context<M>,
    c1: Context<M>,
    c2: Context<M>,
    d1: Context<M>,
    d2: Context<M>,
    n1: Seq<char>,
    n2: Seq<char>,
    delay: u64,
)
    requires
        n1 != n2,
        c0.timers.wf(),
        cancel_timer_effect(c0, c1, n1),
        set_timer_effect(c1, c2, n2, delay),
        set_timer_effect(c0, d1, n2, delay),
        cancel_timer_effect(d1, d2, n1),
        c1.actor.next_event_id == c0.actor.next_event_id,
    ensures
        forall|n: Seq<char>, x: u64| c2.timers.has_entry(n, x) == d2.timers.has_entry(n, x),
        forall|x: u64|
            c2.actor.canceled_events@.contains(x) == d2.actor.canceled_events@.contains(x),
{
    let fresh = c0.actor.next_event_id;
    assert forall|n: Seq<char>, x: u64|
        c2.timers.has_entry(n, x) == d2.timers.has_entry(n, x) by {
        if n == n1 {
            assert(!c2.timers.has_entry(n, x));
            assert(!d2.timers.has_entry(n, x));
        } else if n == n2 {
            assert(c2.timers.has_entry(n, x) == (x == fresh));
            assert(d1.timers.has_entry(n, x) == (x == fresh));
            assert(d2.timers.has_entry(n, x) == (x == fresh));
        }
    }
    assert(c1.timers.has_timer(n2) == c0.timers.has_timer(n2)) by {
        if c0.timers.has_timer(n2) {
            let x = choose|x: u64| c0.timers.has_entry(n2, x);
            assert(c1.timers.has_entry(n2, x));
        }
        if c1.timers.has_timer(n2) {
            let x = choose|x: u64| c1.timers.has_entry(n2, x);
            assert(c0.timers.has_entry(n2, x));
        }
    }
    assert(d1.timers.has_timer(n1) == c0.timers.has_timer(n1)) by {
        if c0.timers.has_timer(n1) {
            let x = choose|x: u64| c0.timers.has_entry(n1, x);
            assert(d1.timers.has_entry(n1, x));
        }
        if d1.timers.has_timer(n1) {
            let x = choose|x: u64| d1.timers.has_entry(n1, x);
            assert(c0.timers.has_entry(n1, x));
        }
    }
    if c0.timers.has_timer(n1) {
        let x1a = choose|x: u64| c0.timers.has_entry(n1, x);
        if d1.timers.has_timer(n1) {
            let x1b = choose|x: u64| d1.timers.has_entry(n1, x);
            assert(c0.timers.has_entry(n1, x1b));
            lemma_timer_entry_unique(c0.timers, n1, x1a, x1b);
        }
    }
    if c0.timers.has_timer(n2) {
        let x2a = choose|x: u64| c0.timers.has_entry(n2, x);
        if c1.timers.has_timer(n2) {
            let x2b = choose|x: u64| c1.timers.has_entry(n2, x);
            assert(c0.timers.has_entry(n2, x2b));
            lemma_timer_entry_unique(c0.timers, n2, x2a, x2b);
        }
    }
    assert forall|x: u64|
        c2.actor.canceled_events@.contains(x) == d2.actor.canceled_events@.contains(x) by {
        let base = c0.actor.canceled_events@;
        if c0.timers.has_timer(n1) && c0.timers.has_timer(n2) {
            let x1 = choose|y: u64| c0.timers.has_entry(n1, y);
            let x2 = choose|y: u64| c0.timers.has_entry(n2, y);
            assert(c2.actor.canceled_events@ =~= base.push(x1).push(x2));
            assert(d2.actor.canceled_events@ =~= base.push(x2).push(x1));
            assert(base.push(x1).push(x2).contains(x) == (base.contains(x) || x == x1 || x
                == x2)) by {
                lemma_push_contains(base.push(x1), x2, x);
                lemma_push_contains(base, x1, x);
            }
            assert(base.push(x2).push(x1).contains(x) == (base.contains(x) || x == x1 || x
                == x2)) by {
                lemma_push_contains(base.push(x2), x1, x);
                lemma_push_contains(base, x2, x);
            }
        } else if c0.timers.has_timer(n1) {
            let x1 = choose|y: u64| c0.timers.has_entry(n1, y);
            assert(c2.actor.canceled_events@ =~= base.push(x1));
            assert(d2.actor.canceled_events@ =~= base.push(x1));
        } else if c0.timers.has_timer(n2) {
            let x2 = choose|y: u64| c0.timers.has_entry(n2, y);
            assert(c2.actor.canceled_events@ =~= base.push(x2));
            assert(d2.actor.canceled_events@ =~= base.push(x2));
        } else {
            assert(c2.actor.canceled_events@ =~= base);
            assert(d2.actor.canceled_events@ =~= base);
        }
    }
}

/// Pushing onto a sequence adds exactly that element to its membership.
proof fn lemma_push_contains(s: Seq<u64>, y: u64, x: u64)
    ensures
        s.push(y).contains(x) == (s.contains(x) || x == y),
{
    if s.contains(x) {
        let k = choose|k: int| 0 <= k < s.len() && s[k] == x;
        assert(s.push(y)[k] == x);
    }
    if x == y {
        assert(s.push(y)[s.len() as int] == x);
    }
    if s.push(y).contains(x) {
        let k = choose|k: int| 0 <= k < s.push(y).len() && s.push(y)[k] == x;
        if k < s.len() {
            assert(s[k] == x);
        }
    }
}

/// Setting the timer `name` twice replaces the earlier schedule: the
/// second binding points at the fresh event, and the first event's id is
/// marked for cancellation.
pub proof fn lemma_set_timer_replaces<M: Message>(
    c0: Context<M>,
    c1: Context<M>,
    c2: Context<M>,
    name: Seq<char>,
    d1: u64,
    d2: u64,
)
    requires
        set_timer_effect(c0, c1, name, d1),
        set_timer_effect(c1, c2, name, d2),
    ensures
        c2.timers.has_entry(name, c1.actor.next_event_id),
        forall|x: u64| x != c1.actor.next_event_id ==> !c2.timers.has_entry(name, x),
        c2.actor.canceled_events@ == c1.actor.canceled_events@.push(c0.actor.next_event_id),
{
    assert(c1.timers.has_timer(name)) by {
        assert(c1.timers.has_entry(name, c0.actor.next_event_id));
    }
    let x = choose|x: u64| c1.timers.has_entry(name, x);
    assert(x == c0.actor.next_event_id) by {
        if x != c0.actor.next_event_id {
            assert(!c1.timers.has_entry(name, x));
        }
    }
}

/// In a well-formed timer table each name is bound at most once.
pub proof fn lemma_timer_entry_unique(t: TimerTable, name: Seq<char>, x: u64, y: u64)
    requires
        t.wf(),
        t.has_entry(name, x),
        t.has_entry(name, y),
    ensures
        x == y,
{
    let i = choose|i: int| 0 <= i < t@.len() && t@[i] == (name, x);
    let j = choose|j: int| 0 <= j < t@.len() && t@[j] == (name, y);
    if i != j {
        assert(t@[i].0 == t@[j].0);
    }
}

} // verus!
