//! End-to-end runs of the simulator: message delivery, timers, faults,
//! partitions and the model checker, driven by small scripted nodes.

use dslib::message::{JsonMessage, Message};
use dslib::net::Network;
use dslib::node::{Context, LocalEvent, LocalEventType, Node, NodeActor};
use dslib::rng::RATE_SCALE;
use dslib::sim::{ActorId, Checker};
use dslib::system::System;

/// What a scripted node does with its handlers.
#[derive(Clone)]
enum Behavior {
    /// On a local input, send the message to every peer; on a network
    /// message, emit it locally.
    Forward(Vec<String>),
    /// On a local input, set the timer to fire after the delay; when it
    /// fires, emit `fired` locally.
    TimerOnce(String, u64),
    /// As `TimerOnce`, but a second timer fires earlier and cancels the
    /// first; the cancellation is asked for twice.
    TimerCanceled(String, u64, String, u64),
    /// As `TimerOnce`, but the timer is set twice with two delays; only
    /// the second schedule may fire.
    TimerReplaced(String, u64, u64),
}

#[derive(Clone)]
struct ScriptNode {
    id: String,
    behavior: Behavior,
}

impl ScriptNode {
    fn forwarder(id: &str, peers: &[&str]) -> ScriptNode {
        ScriptNode {
            id: id.to_string(),
            behavior: Behavior::Forward(peers.iter().map(|p| p.to_string()).collect()),
        }
    }
}

impl Node<JsonMessage> for ScriptNode {
    fn id(&self) -> String {
        self.id.clone()
    }

    fn on_message(&mut self, msg: JsonMessage, _from: String, ctx: &mut Context<JsonMessage>) {
        if let Behavior::Forward(_) = &self.behavior {
            ctx.send_local(msg);
        }
    }

    fn on_local_message(&mut self, msg: JsonMessage, ctx: &mut Context<JsonMessage>) {
        match self.behavior.clone() {
            Behavior::Forward(peers) => {
                for p in &peers {
                    ctx.send(msg.duplicate(), p);
                }
            }
            Behavior::TimerOnce(name, delay) => {
                ctx.set_timer(&name, delay);
            }
            Behavior::TimerCanceled(name, delay, killer, kdelay) => {
                ctx.set_timer(&name, delay);
                ctx.set_timer(&killer, kdelay);
            }
            Behavior::TimerReplaced(name, d1, d2) => {
                ctx.set_timer(&name, d1);
                ctx.set_timer(&name, d2);
            }
        }
        let _ = msg;
    }

    fn on_timer(&mut self, timer: String, ctx: &mut Context<JsonMessage>) {
        match self.behavior.clone() {
            Behavior::TimerCanceled(name, _, killer, _) => {
                if timer == killer {
                    ctx.cancel_timer(&name);
                    ctx.cancel_timer(&name);
                } else {
                    ctx.send_local(JsonMessage::new("fired", &timer));
                }
            }
            _ => {
                ctx.send_local(JsonMessage::new("fired", &timer));
            }
        }
    }

    fn get_state(&mut self) -> String {
        self.id.clone()
    }

    fn set_state(&mut self, _json_state: String) {}
}

fn ping() -> JsonMessage {
    JsonMessage::new("INFO", "\"ping\"")
}

/// One message from `a` to `b`: the local input is forwarded over the
/// network, delivered after the configured delay, and emitted locally at
/// the receiver; every counter accounts for exactly that.
#[test]
fn single_message() {
    let mut sys: System<JsonMessage, ScriptNode> = System::with_seed(7);
    sys.add_node(ScriptNode::forwarder("a", &["b"]));
    sys.add_node(ScriptNode::forwarder("b", &[]));
    sys.set_delay(1000);
    sys.send_local(ping(), "a");
    sys.step_until_no_events();

    let a_log = sys.get_local_events("a");
    assert_eq!(a_log.len(), 1);
    assert!(matches!(a_log[0].tip, LocalEventType::LocalMessageReceive));
    assert_eq!(a_log[0].time, 0);
    assert_eq!(a_log[0].msg.as_ref().unwrap().data, "\"ping\"");

    let b_log = sys.get_local_events("b");
    assert_eq!(b_log.len(), 1);
    assert!(matches!(b_log[0].tip, LocalEventType::LocalMessageSend));
    assert_eq!(b_log[0].time, 1000);
    assert_eq!(b_log[0].msg.as_ref().unwrap().data, "\"ping\"");

    assert_eq!(sys.get_network_message_count(), 1);
    assert_eq!(sys.get_network_traffic(), 6);
    assert_eq!(sys.get_sent_message_count("a"), 1);
    assert_eq!(sys.get_received_message_count("b"), 1);
    assert_eq!(sys.time(), 1000);
}

/// A timer set with delay 2500 fires exactly once, at tick 2500.
#[test]
fn timer_fires_once() {
    let mut sys: System<JsonMessage, ScriptNode> = System::with_seed(7);
    sys.add_node(ScriptNode {
        id: "a".to_string(),
        behavior: Behavior::TimerOnce("t".to_string(), 2500),
    });
    sys.send_local(JsonMessage::new("start", ""), "a");
    sys.step_until_no_events();

    let mail = sys.check_mailbox("a").expect("timer output expected");
    assert_eq!(mail.len(), 1);
    assert_eq!(mail[0].tip, "fired");
    assert_eq!(mail[0].data, "t");
    assert_eq!(sys.time(), 2500);
}

/// A timer canceled before it fires leaves the mailbox empty; asking for
/// the cancellation twice changes nothing.
#[test]
fn timer_canceled() {
    let mut sys: System<JsonMessage, ScriptNode> = System::with_seed(7);
    sys.add_node(ScriptNode {
        id: "a".to_string(),
        behavior: Behavior::TimerCanceled("t".to_string(), 2500, "c".to_string(), 1000),
    });
    sys.send_local(JsonMessage::new("start", ""), "a");
    sys.step_until_no_events();

    assert!(sys.check_mailbox("a").is_none());
}

/// Setting the same timer twice replaces the earlier schedule: only the
/// second delay fires, once.
#[test]
fn timer_replaced() {
    let mut sys: System<JsonMessage, ScriptNode> = System::with_seed(7);
    sys.add_node(ScriptNode {
        id: "a".to_string(),
        behavior: Behavior::TimerReplaced("t".to_string(), 2000, 3000),
    });
    sys.send_local(JsonMessage::new("start", ""), "a");
    sys.step_until_no_events();

    let mail = sys.check_mailbox("a").expect("timer output expected");
    assert_eq!(mail.len(), 1);
    assert_eq!(sys.time(), 3000);
}

/// With full duplication, five sends yield between ten and fifteen
/// receives, every delivered payload being one of the five sent.
#[test]
fn duplication() {
    let mut sys: System<JsonMessage, ScriptNode> = System::with_seed(42);
    sys.add_node(ScriptNode::forwarder("a", &["b"]));
    sys.add_node(ScriptNode::forwarder("b", &[]));
    sys.set_dupl_rate(RATE_SCALE);
    let payloads = ["\"m1\"", "\"m2\"", "\"m3\"", "\"m4\"", "\"m5\""];
    for p in payloads {
        sys.send_local(JsonMessage::new("INFO", p), "a");
    }
    sys.step_until_no_events();

    let received = sys.get_received_message_count("b");
    assert!(10 <= received && received <= 15, "received {}", received);
    for e in sys.get_local_events("b") {
        let m = e.msg.unwrap();
        assert!(payloads.contains(&m.data.as_str()));
    }
    assert_eq!(sys.get_network_message_count(), 5);
}

/// With the drop probability at one, every send is dropped and the
/// receiver sees nothing, while the network still counts each send.
#[test]
fn full_drop_rate() {
    let mut sys: System<JsonMessage, ScriptNode> = System::with_seed(42);
    sys.add_node(ScriptNode::forwarder("a", &["b"]));
    sys.add_node(ScriptNode::forwarder("b", &[]));
    sys.set_drop_rate(RATE_SCALE);
    for _ in 0..5 {
        sys.send_local(ping(), "a");
    }
    sys.step_until_no_events();

    assert_eq!(sys.get_received_message_count("b"), 0);
    assert!(sys.get_local_events("b").is_empty());
    assert_eq!(sys.get_network_message_count(), 5);
}

/// Disabling every link yields one drop per send and zero deliveries.
#[test]
fn all_links_disabled() {
    let mut sys: System<JsonMessage, ScriptNode> = System::with_seed(9);
    sys.add_node(ScriptNode::forwarder("a", &["b"]));
    sys.add_node(ScriptNode::forwarder("b", &[]));
    sys.disable_all_links();
    for _ in 0..3 {
        sys.send_local(ping(), "a");
    }
    sys.step_until_no_events();

    assert_eq!(sys.get_received_message_count("b"), 0);
    assert_eq!(sys.get_network_message_count(), 3);
}

/// A partition separates the two groups: a broadcast from one side
/// reaches only its own group.
#[test]
fn partition() {
    let mut sys: System<JsonMessage, ScriptNode> = System::with_seed(5);
    sys.add_node(ScriptNode::forwarder("n1", &["n2", "n3", "n4", "n5"]));
    sys.add_node(ScriptNode::forwarder("n2", &[]));
    sys.add_node(ScriptNode::forwarder("n3", &[]));
    sys.add_node(ScriptNode::forwarder("n4", &[]));
    sys.add_node(ScriptNode::forwarder("n5", &[]));
    sys.make_partition(&["n1", "n2"], &["n3", "n4", "n5"]);
    sys.send_local(ping(), "n1");
    sys.step_until_no_events();

    assert_eq!(sys.get_received_message_count("n2"), 1);
    assert_eq!(sys.get_received_message_count("n3"), 0);
    assert_eq!(sys.get_received_message_count("n4"), 0);
    assert_eq!(sys.get_received_message_count("n5"), 0);
    assert_eq!(sys.get_network_message_count(), 4);
}

/// A send to the sender's own address is delivered at the same time
/// without the network seeing it.
#[test]
fn self_send_bypasses_network() {
    let mut sys: System<JsonMessage, ScriptNode> = System::with_seed(3);
    sys.add_node(ScriptNode::forwarder("a", &["a"]));
    sys.set_delay(1000);
    sys.send_local(ping(), "a");
    sys.step_until_no_events();

    let log = sys.get_local_events("a");
    // the receive of the local input, then the locally emitted copy of
    // the self-delivered message
    assert_eq!(log.len(), 2);
    assert!(matches!(log[1].tip, LocalEventType::LocalMessageSend));
    assert_eq!(log[1].time, 0);
    assert_eq!(sys.get_network_message_count(), 0);
    assert_eq!(sys.get_network_traffic(), 0);
    assert_eq!(sys.time(), 0);
}

/// Two runs from the same seed and the same inputs are identical in
/// every observable: times, logs and counters.
#[test]
fn same_seed_same_run() {
    let run = |seed: u64| {
        let mut sys: System<JsonMessage, ScriptNode> = System::with_seed(seed);
        sys.add_node(ScriptNode::forwarder("a", &["b"]));
        sys.add_node(ScriptNode::forwarder("b", &[]));
        sys.set_delays(500, 2500);
        sys.set_drop_rate(RATE_SCALE / 2);
        sys.set_dupl_rate(RATE_SCALE / 4);
        for i in 0..10 {
            sys.send_local(JsonMessage::new("INFO", &format!("\"m{}\"", i)), "a");
        }
        sys.step_until_no_events();
        let log: Vec<(u64, String)> = sys
            .get_local_events("b")
            .into_iter()
            .map(|e| (e.time, e.msg.unwrap().data))
            .collect();
        (
            sys.get_network_message_count(),
            sys.get_network_traffic(),
            sys.get_received_message_count("b"),
            sys.time(),
            log,
        )
    };
    assert_eq!(run(2021), run(2021));
}

/// Crashing a node makes the kernel drop events addressed to it, and the
/// network discards what it sends; re-registering recovers it.
#[test]
fn crash_and_recover() {
    let mut sys: System<JsonMessage, ScriptNode> = System::with_seed(11);
    sys.add_node(ScriptNode::forwarder("a", &["b"]));
    sys.add_node(ScriptNode::forwarder("b", &[]));
    sys.crash_node("b");
    assert!(sys.node_is_crashed("b"));
    sys.send_local(ping(), "a");
    sys.step_until_no_events();
    assert_eq!(sys.get_received_message_count("b"), 0);

    sys.add_node(ScriptNode::forwarder("b", &[]));
    assert!(!sys.node_is_crashed("b"));
    sys.send_local(ping(), "a");
    sys.step_until_no_events();
    assert_eq!(sys.get_received_message_count("b"), 1);
}

/// Resetting the network clears the overrides and is idempotent; the
/// rate knobs, delays and counters survive.
#[test]
fn reset_network_idempotent() {
    let mut sys: System<JsonMessage, ScriptNode> = System::with_seed(11);
    sys.add_node(ScriptNode::forwarder("a", &["b"]));
    sys.add_node(ScriptNode::forwarder("b", &[]));
    sys.set_delays(10, 20);
    sys.set_drop_rate(123);
    sys.disable_link("a", "b");
    sys.drop_incoming("b");
    sys.drop_outgoing("a");

    sys.reset_network();
    let once = (
        sys.sim.net.min_delay,
        sys.sim.net.max_delay,
        sys.sim.net.drop_rate,
        sys.sim.net.message_count,
    );
    sys.reset_network();
    let twice = (
        sys.sim.net.min_delay,
        sys.sim.net.max_delay,
        sys.sim.net.drop_rate,
        sys.sim.net.message_count,
    );
    assert_eq!(once, twice);
    assert_eq!(once, (10, 20, 123, 0));

    // the overrides are gone: the message now goes through
    sys.send_local(ping(), "a");
    sys.step_until_no_events();
    assert_eq!(sys.get_received_message_count("b"), 1);
}

/// Snapshot then restore brings every observable back: counters, logs,
/// the cancellation set, the event counter and the generator.
#[test]
fn snapshot_restore_identity() {
    let mut sys: System<JsonMessage, ScriptNode> = System::with_seed(13);
    sys.add_node(ScriptNode::forwarder("a", &["b"]));
    sys.add_node(ScriptNode::forwarder("b", &[]));
    sys.send_local(ping(), "a");
    sys.step_until_no_events();

    let before = (
        sys.get_sent_message_count("a"),
        sys.get_received_message_count("b"),
        sys.get_network_message_count(),
        sys.sim.event_count,
        sys.sim.rng.state,
    );
    let snap = sys.sim.capture_state();
    // disturb the restorable state
    sys.sim.rng.draw();
    sys.crash_node("b");
    sys.sim.restore_state(snap);
    let after = (
        sys.get_sent_message_count("a"),
        sys.get_received_message_count("b"),
        sys.get_network_message_count(),
        sys.sim.event_count,
        sys.sim.rng.state,
    );
    assert_eq!(before, after);
}

/// The checker's invariant: no two locally delivered payloads at `b` are
/// equal.
struct NoDuplicateDelivery;

impl Checker<JsonMessage, ScriptNode> for NoDuplicateDelivery {
    fn check(
        &mut self,
        _net: &Network,
        nodes: &Vec<(ActorId, NodeActor<JsonMessage, ScriptNode>)>,
    ) -> bool {
        for (id, actor) in nodes {
            if id.to() == "b" {
                let delivered: Vec<String> = actor
                    .get_local_events()
                    .into_iter()
                    .filter(|e: &LocalEvent<JsonMessage>| {
                        matches!(e.tip, LocalEventType::LocalMessageSend)
                    })
                    .map(|e| e.msg.unwrap().data)
                    .collect();
                for i in 0..delivered.len() {
                    for j in (i + 1)..delivered.len() {
                        if delivered[i] == delivered[j] {
                            return false;
                        }
                    }
                }
            }
        }
        true
    }
}

/// With full duplication, the checker finds an interleaving in which two
/// equal payloads are delivered, and surfaces a non-empty trace.
#[test]
fn model_check_duplication() {
    let mut sys: System<JsonMessage, ScriptNode> = System::with_seed(42);
    sys.add_node(ScriptNode::forwarder("a", &["b"]));
    sys.add_node(ScriptNode::forwarder("b", &[]));
    sys.set_dupl_rate(RATE_SCALE);
    sys.send_local(ping(), "a");

    let mut checker = NoDuplicateDelivery;
    let verdict = sys.start_model_checking(&mut checker, 10);
    assert!(!verdict);
    let trace = sys.read_model_checking_trace();
    assert!(!trace.is_empty());
    let last = trace.last().unwrap();
    assert!(last.contains("message_receive"), "trace tail: {}", last);
    assert!(last.contains("b"), "trace tail: {}", last);
}

/// Without faults the same invariant holds in every interleaving.
#[test]
fn model_check_clean_run_passes() {
    let mut sys: System<JsonMessage, ScriptNode> = System::with_seed(42);
    sys.add_node(ScriptNode::forwarder("a", &["b"]));
    sys.add_node(ScriptNode::forwarder("b", &[]));
    sys.send_local(ping(), "a");

    let mut checker = NoDuplicateDelivery;
    let verdict = sys.start_model_checking(&mut checker, 10);
    assert!(verdict);
    assert!(sys.read_model_checking_trace().is_empty());
    // the committed queue survived the exploration untouched
    sys.step_until_no_events();
    assert_eq!(sys.get_received_message_count("b"), 1);
}

/// `step_until_local_message` hands out the first mailbox arrival.
#[test]
fn step_until_local_message_finds_output() {
    let mut sys: System<JsonMessage, ScriptNode> = System::with_seed(21);
    sys.add_node(ScriptNode::forwarder("a", &["b"]));
    sys.add_node(ScriptNode::forwarder("b", &[]));
    sys.send_local(ping(), "a");
    let got = sys.step_until_local_message("b").expect("delivery expected");
    assert_eq!(got.len(), 1);
    assert_eq!(got[0].data, "\"ping\"");

    // nothing further is coming
    assert!(sys.step_until_local_message("b").is_err());
}

/// A `MessageSend` injected directly at the network is delivered like
/// one a node produced.
#[test]
fn direct_send() {
    let mut sys: System<JsonMessage, ScriptNode> = System::with_seed(17);
    sys.add_node(ScriptNode::forwarder("a", &[]));
    sys.add_node(ScriptNode::forwarder("b", &[]));
    sys.send(ping(), "a", "b");
    sys.step_until_no_events();
    assert_eq!(sys.get_received_message_count("b"), 1);
    assert_eq!(sys.get_network_message_count(), 1);
}

/// Bounded stepping reports whether every requested step found work, and
/// duration-bounded stepping stops once the clock passes the bound.
#[test]
fn bounded_stepping() {
    let mut sys: System<JsonMessage, ScriptNode> = System::with_seed(17);
    sys.add_node(ScriptNode::forwarder("a", &["b"]));
    sys.add_node(ScriptNode::forwarder("b", &[]));
    sys.send_local(ping(), "a");
    // local input, send at the network, delivery: three steps of work
    assert!(sys.steps(3));
    assert!(!sys.steps(1));
    assert_eq!(sys.get_received_message_count("b"), 1);

    sys.send_local(ping(), "a");
    sys.step_for_duration(5000);
    assert_eq!(sys.get_received_message_count("b"), 2);
    assert_eq!(sys.node_count(), 2);
}

/// A system built without an explicit seed draws one from the expected
/// range and echoes it for reproduction.
#[test]
fn random_seed_echoed() {
    let sys: System<JsonMessage, ScriptNode> = System::new();
    let seed = sys.get_seed();
    assert!(1 <= seed && seed < 1000000);
    let replay: System<JsonMessage, ScriptNode> = System::with_seed(seed);
    assert_eq!(replay.get_seed(), seed);
}

/// An event addressed to an unregistered actor lands in the undelivered
/// log, once.
#[test]
fn undelivered_events_collected() {
    let mut sys: System<JsonMessage, ScriptNode> = System::with_seed(21);
    sys.add_node(ScriptNode::forwarder("a", &["ghost"]));
    sys.send_local(ping(), "a");
    sys.step_until_no_events();
    assert_eq!(sys.count_undelivered_events(), 1);
    assert_eq!(sys.count_undelivered_events(), 0);
}
