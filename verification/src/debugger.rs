//! The event log the simulator writes for an external visualizer.
//!
//! Every line is built here as a plain string with an exact contract; the
//! surrounding program appends the lines to the log file.  The format is
//! line-delimited: an optional `NODE_IDS:...` header, `TEST_BEGIN`/
//! `TEST_END` control lines, and one JSON object per event.

use vstd::prelude::*;

verus! {

use crate::message::JsonMessage;
use vstd::string::StringExecFns;

/// The decimal digit character for `d`.
pub open spec fn dec_digit(d: int) -> char {
    if d == 0 {
        '0'
    } else if d == 1 {
        '1'
    } else if d == 2 {
        '2'
    } else if d == 3 {
        '3'
    } else if d == 4 {
        '4'
    } else if d == 5 {
        '5'
    } else if d == 6 {
        '6'
    } else if d == 7 {
        '7'
    } else if d == 8 {
        '8'
    } else {
        '9'
    }
}

/// The decimal representation of `n`, without leading zeros.
pub open spec fn dec_str(n: int) -> Seq<char>
    decreases n,
{
    if n < 10 {
        seq![dec_digit(n)]
    } else {
        dec_str(n / 10).push(dec_digit(n % 10))
    }
}

/// The one-character string for the digit `d`.
fn digit_str(d: u64) -> (r: &'static str)
    requires
        d < 10,
    ensures
        r@ == seq![dec_digit(d as int)],
{
    proof {
        reveal_strlit("0");
        reveal_strlit("1");
        reveal_strlit("2");
        reveal_strlit("3");
        reveal_strlit("4");
        reveal_strlit("5");
        reveal_strlit("6");
        reveal_strlit("7");
        reveal_strlit("8");
        reveal_strlit("9");
    }
    match d {
        0 => "0",
        1 => "1",
        2 => "2",
        3 => "3",
        4 => "4",
        5 => "5",
        6 => "6",
        7 => "7",
        8 => "8",
        _ => {
            assert(d == 9);
            "9"
        },
    }
}

/// The digit characters that a stack of digit values stands for.
pub open spec fn chars_of(s: Seq<u64>) -> Seq<char> {
    Seq::new(s.len(), |i: int| dec_digit(s[i] as int))
}

/// Render `n` in decimal.
pub fn u64_to_string(n: u64) -> (r: String)
    ensures
        r@ == dec_str(n as int),
{
    let mut m: u64 = n;
    let mut stack: Vec<u64> = Vec::new();
    while m >= 10
        invariant
            dec_str(n as int) == dec_str(m as int) + chars_of(stack@).reverse(),
            forall|j: int| 0 <= j < stack@.len() ==> #[trigger] stack@[j] < 10,
        decreases m,
    {
        let d = m % 10;
        proof {
            assert(chars_of(stack@.push(d)).reverse() =~= seq![dec_digit(d as int)] + chars_of(
                stack@,
            ).reverse());
            assert(dec_str(m as int) == dec_str(m as int / 10).push(dec_digit(m as int % 10)));
            assert(dec_str(m as int / 10).push(dec_digit(m as int % 10)) =~= dec_str(
                m as int / 10,
            ) + seq![dec_digit(m as int % 10)]);
            assert(dec_str(m as int / 10) + seq![dec_digit(m as int % 10)] + chars_of(
                stack@,
            ).reverse() =~= dec_str(m as int / 10) + (seq![dec_digit(m as int % 10)] + chars_of(
                stack@,
            ).reverse()));
        }
        stack.push(d);
        m = m / 10;
    }
    let mut out = String::new();
    out.append(digit_str(m));
    proof {
        assert(out@ =~= dec_str(m as int));
    }
    while stack.len() > 0
        invariant
            out@ + chars_of(stack@).reverse() == dec_str(n as int),
            forall|j: int| 0 <= j < stack@.len() ==> #[trigger] stack@[j] < 10,
        decreases stack@.len(),
    {
        let ghost pre = stack@;
        let item = stack.pop();
        match item {
            Some(d) => {
                proof {
                    assert(stack@ =~= pre.drop_last());
                    assert(chars_of(pre).reverse() =~= seq![dec_digit(pre.last() as int)]
                        + chars_of(pre.drop_last()).reverse());
                    assert(pre.last() == d);
                }
                out.append(digit_str(d));
                proof {
                    assert(out@ + chars_of(stack@).reverse() =~= dec_str(n as int));
                }
            },
            None => {},
        }
    }
    proof {
        assert(out@ =~= dec_str(n as int));
    }
    out
}

/// An entry of the event log: everything the simulator can report to the
/// visualizer, with its timestamp in ticks.
pub enum DebugEvent {
    MessageSend { msg: JsonMessage, src: String, dst: String, ts: u64 },
    MessageReceive { msg: JsonMessage, src: String, dst: String, ts: u64 },
    LocalMessageSend { msg: JsonMessage, dst: String, ts: u64 },
    LocalMessageReceive { msg: JsonMessage, dst: String, ts: u64 },
    MessageDropped { msg: JsonMessage, src: String, dst: String, ts: u64 },
    MessageDiscarded { msg: JsonMessage, src: String, dst: String, ts: u64 },
    TimerSet { name: String, delay: u64, node: String, ts: u64 },
    TimerFired { name: String, node: String, ts: u64 },
    NodeRecovered { node: String, ts: u64 },
    NodeRestarted { node: String, ts: u64 },
    NodeCrashed { node: String, ts: u64 },
    NodeConnected { node: String, ts: u64 },
    NodeDisconnected { node: String, ts: u64 },
    LinkEnabled { src: String, dst: String, ts: u64 },
    LinkDisabled { src: String, dst: String, ts: u64 },
    NetworkPartition { group1: String, group2: String, ts: u64 },
}

/// The nested message object of a log line.
pub open spec fn json_msg(m: JsonMessage) -> Seq<char> {
    "{\"type\": \""@ + m.tip@ + "\",\"data\": "@ + m.data@ + "}"@
}

/// A log line's outer object around a serialized payload.
pub open spec fn json_obj(kind: Seq<char>, data: Seq<char>) -> Seq<char> {
    "{\"type\": \""@ + kind + "\",\"data\": "@ + data + "}"@
}

/// The payload of an event that routes a message.
pub open spec fn routed_payload(m: JsonMessage, src: Seq<char>, dst: Seq<char>, ts: u64) -> Seq<
    char,
> {
    "{\"msg\": "@ + json_msg(m) + ",\"src\": \""@ + src + "\",\"dst\": \""@ + dst + "\",\"ts\": "@
        + dec_str(ts as int) + "}"@
}

/// The payload of a local send or receive.
pub open spec fn local_payload(m: JsonMessage, dst: Seq<char>, ts: u64) -> Seq<char> {
    "{\"msg\": "@ + json_msg(m) + ",\"dst\": \""@ + dst + "\",\"ts\": "@ + dec_str(ts as int)
        + "}"@
}

/// The payload of an event about one node.
pub open spec fn node_payload(node: Seq<char>, ts: u64) -> Seq<char> {
    "{\"node\": \""@ + node + "\",\"ts\": "@ + dec_str(ts as int) + "}"@
}

/// The payload of an event about one directed link.
pub open spec fn link_payload(src: Seq<char>, dst: Seq<char>, ts: u64) -> Seq<char> {
    "{\"src\": \""@ + src + "\",\"dst\": \""@ + dst + "\",\"ts\": "@ + dec_str(ts as int) + "}"@
}

/// The serialized form of each log entry: one compact JSON object.
pub open spec fn serialize_model(e: DebugEvent) -> Seq<char> {
    match e {
        DebugEvent::MessageSend { msg, src, dst, ts } => json_obj(
            "MessageSend"@,
            routed_payload(msg, src@, dst@, ts),
        ),
        DebugEvent::MessageReceive { msg, src, dst, ts } => json_obj(
            "MessageReceive"@,
            routed_payload(msg, src@, dst@, ts),
        ),
        DebugEvent::LocalMessageSend { msg, dst, ts } => json_obj(
            "LocalMessageSend"@,
            local_payload(msg, dst@, ts),
        ),
        DebugEvent::LocalMessageReceive { msg, dst, ts } => json_obj(
            "LocalMessageReceive"@,
            local_payload(msg, dst@, ts),
        ),
        DebugEvent::MessageDropped { msg, src, dst, ts } => json_obj(
            "MessageDropped"@,
            routed_payload(msg, src@, dst@, ts),
        ),
        DebugEvent::MessageDiscarded { msg, src, dst, ts } => json_obj(
            "MessageDiscarded"@,
            routed_payload(msg, src@, dst@, ts),
        ),
        DebugEvent::TimerSet { name, delay, node, ts } => json_obj(
            "TimerSet"@,
            "{\"name\": \""@ + name@ + "\",\"delay\": "@ + dec_str(delay as int)
                + ",\"node\": \""@ + node@ + "\",\"ts\": "@ + dec_str(ts as int) + "}"@,
        ),
        DebugEvent::TimerFired { name, node, ts } => json_obj(
            "TimerFired"@,
            "{\"name\": \""@ + name@ + "\",\"node\": \""@ + node@ + "\",\"ts\": "@ + dec_str(
                ts as int,
            ) + "}"@,
        ),
        DebugEvent::NodeRecovered { node, ts } => json_obj(
            "NodeRecovered"@,
            node_payload(node@, ts),
        ),
        DebugEvent::NodeRestarted { node, ts } => json_obj(
            "NodeRestarted"@,
            node_payload(node@, ts),
        ),
        DebugEvent::NodeCrashed { node, ts } => json_obj("NodeCrashed"@, node_payload(node@, ts)),
        DebugEvent::NodeConnected { node, ts } => json_obj(
            "NodeConnected"@,
            node_payload(node@, ts),
        ),
        DebugEvent::NodeDisconnected { node, ts } => json_obj(
            "NodeDisconnected"@,
            node_payload(node@, ts),
        ),
        DebugEvent::LinkEnabled { src, dst, ts } => json_obj(
            "LinkEnabled"@,
            link_payload(src@, dst@, ts),
        ),
        DebugEvent::LinkDisabled { src, dst, ts } => json_obj(
            "LinkDisabled"@,
            link_payload(src@, dst@, ts),
        ),
        DebugEvent::NetworkPartition { group1, group2, ts } => json_obj(
            "NetworkPartition"@,
            "{\"group1\": \""@ + group1@ + "\",\"group2\": \""@ + group2@ + "\",\"ts\": "@
                + dec_str(ts as int) + "}"@,
        ),
    }
}

/// Append the nested message object for `m`.
fn append_msg(out: &mut String, m: &JsonMessage)
    ensures
        final(out)@ == old(out)@ + json_msg(*m),
{
    out.append("{\"type\": \"");
    out.append(m.tip.as_str());
    out.append("\",\"data\": ");
    out.append(m.data.as_str());
    out.append("}");
    proof {
        assert(out@ =~= old(out)@ + json_msg(*m));
    }
}

/// Append a routed-message payload.
fn append_routed(out: &mut String, m: &JsonMessage, src: &str, dst: &str, ts: u64)
    ensures
        final(out)@ == old(out)@ + routed_payload(*m, src@, dst@, ts),
{
    out.append("{\"msg\": ");
    append_msg(out, m);
    out.append(",\"src\": \"");
    out.append(src);
    out.append("\",\"dst\": \"");
    out.append(dst);
    out.append("\",\"ts\": ");
    let n = u64_to_string(ts);
    out.append(n.as_str());
    out.append("}");
    proof {
        assert(out@ =~= old(out)@ + routed_payload(*m, src@, dst@, ts));
    }
}

/// Append a local-message payload.
fn append_local(out: &mut String, m: &JsonMessage, dst: &str, ts: u64)
    ensures
        final(out)@ == old(out)@ + local_payload(*m, dst@, ts),
{
    out.append("{\"msg\": ");
    append_msg(out, m);
    out.append(",\"dst\": \"");
    out.append(dst);
    out.append("\",\"ts\": ");
    let n = u64_to_string(ts);
    out.append(n.as_str());
    out.append("}");
    proof {
        assert(out@ =~= old(out)@ + local_payload(*m, dst@, ts));
    }
}

/// Append a per-node payload.
fn append_node(out: &mut String, node: &str, ts: u64)
    ensures
        final(out)@ == old(out)@ + node_payload(node@, ts),
{
    out.append("{\"node\": \"");
    out.append(node);
    out.append("\",\"ts\": ");
    let n = u64_to_string(ts);
    out.append(n.as_str());
    out.append("}");
    proof {
        assert(out@ =~= old(out)@ + node_payload(node@, ts));
    }
}

/// Append a per-link payload.
fn append_link(out: &mut String, src: &str, dst: &str, ts: u64)
    ensures
        final(out)@ == old(out)@ + link_payload(src@, dst@, ts),
{
    out.append("{\"src\": \"");
    out.append(src);
    out.append("\",\"dst\": \"");
    out.append(dst);
    out.append("\",\"ts\": ");
    let n = u64_to_string(ts);
    out.append(n.as_str());
    out.append("}");
    proof {
        assert(out@ =~= old(out)@ + link_payload(src@, dst@, ts));
    }
}

impl DebugEvent {
    /// The log line for this event: a compact JSON object with the
    /// variant name under `type` and the fields under `data`.  When the
    /// embedded strings are newline-free, so is the whole line.
    pub fn serialize(&self) -> (r: String)
        ensures
            r@ == serialize_model(*self),
            event_fields_single_line(*self) ==> single_line(r@),
    {
        let mut out = String::new();
        out.append("{\"type\": \"");
        match self {
            DebugEvent::MessageSend { msg, src, dst, ts } => {
                out.append("MessageSend");
                out.append("\",\"data\": ");
                append_routed(&mut out, msg, src.as_str(), dst.as_str(), *ts);
            },
            DebugEvent::MessageReceive { msg, src, dst, ts } => {
                out.append("MessageReceive");
                out.append("\",\"data\": ");
                append_routed(&mut out, msg, src.as_str(), dst.as_str(), *ts);
            },
            DebugEvent::LocalMessageSend { msg, dst, ts } => {
                out.append("LocalMessageSend");
                out.append("\",\"data\": ");
                append_local(&mut out, msg, dst.as_str(), *ts);
            },
            DebugEvent::LocalMessageReceive { msg, dst, ts } => {
                out.append("LocalMessageReceive");
                out.append("\",\"data\": ");
                append_local(&mut out, msg, dst.as_str(), *ts);
            },
            DebugEvent::MessageDropped { msg, src, dst, ts } => {
                out.append("MessageDropped");
                out.append("\",\"data\": ");
                append_routed(&mut out, msg, src.as_str(), dst.as_str(), *ts);
            },
            DebugEvent::MessageDiscarded { msg, src, dst, ts } => {
                out.append("MessageDiscarded");
                out.append("\",\"data\": ");
                append_routed(&mut out, msg, src.as_str(), dst.as_str(), *ts);
            },
            DebugEvent::TimerSet { name, delay, node, ts } => {
                out.append("TimerSet");
                out.append("\",\"data\": ");
                out.append("{\"name\": \"");
                out.append(name.as_str());
                out.append("\",\"delay\": ");
                let d = u64_to_string(*delay);
                out.append(d.as_str());
                out.append(",\"node\": \"");
                out.append(node.as_str());
                out.append("\",\"ts\": ");
                let n = u64_to_string(*ts);
                out.append(n.as_str());
                out.append("}");
            },
            DebugEvent::TimerFired { name, node, ts } => {
                out.append("TimerFired");
                out.append("\",\"data\": ");
                out.append("{\"name\": \"");
                out.append(name.as_str());
                out.append("\",\"node\": \"");
                out.append(node.as_str());
                out.append("\",\"ts\": ");
                let n = u64_to_string(*ts);
                out.append(n.as_str());
                out.append("}");
            },
            DebugEvent::NodeRecovered { node, ts } => {
                out.append("NodeRecovered");
                out.append("\",\"data\": ");
                append_node(&mut out, node.as_str(), *ts);
            },
            DebugEvent::NodeRestarted { node, ts } => {
                out.append("NodeRestarted");
                out.append("\",\"data\": ");
                append_node(&mut out, node.as_str(), *ts);
            },
            DebugEvent::NodeCrashed { node, ts } => {
                out.append("NodeCrashed");
                out.append("\",\"data\": ");
                append_node(&mut out, node.as_str(), *ts);
            },
            DebugEvent::NodeConnected { node, ts } => {
                out.append("NodeConnected");
                out.append("\",\"data\": ");
                append_node(&mut out, node.as_str(), *ts);
            },
            DebugEvent::NodeDisconnected { node, ts } => {
                out.append("NodeDisconnected");
                out.append("\",\"data\": ");
                append_node(&mut out, node.as_str(), *ts);
            },
            DebugEvent::LinkEnabled { src, dst, ts } => {
                out.append("LinkEnabled");
                out.append("\",\"data\": ");
                append_link(&mut out, src.as_str(), dst.as_str(), *ts);
            },
            DebugEvent::LinkDisabled { src, dst, ts } => {
                out.append("LinkDisabled");
                out.append("\",\"data\": ");
                append_link(&mut out, src.as_str(), dst.as_str(), *ts);
            },
            DebugEvent::NetworkPartition { group1, group2, ts } => {
                out.append("NetworkPartition");
                out.append("\",\"data\": ");
                out.append("{\"group1\": \"");
                out.append(group1.as_str());
                out.append("\",\"group2\": \"");
                out.append(group2.as_str());
                out.append("\",\"ts\": ");
                let n = u64_to_string(*ts);
                out.append(n.as_str());
                out.append("}");
            },
        }
        out.append("}");
        proof {
            assert(out@ =~= serialize_model(*self));
            if event_fields_single_line(*self) {
                lemma_serialize_single_line(*self);
            }
        }
        out
    }
}

/// `s` holds no newline.
pub open spec fn single_line(s: Seq<char>) -> bool {
    forall|i: int| 0 <= i < s.len() ==> s[i] != '\n'
}

proof fn lemma_single_line_concat(a: Seq<char>, b: Seq<char>)
    requires
        single_line(a),
        single_line(b),
    ensures
        single_line(a + b),
{
    assert forall|i: int| 0 <= i < (a + b).len() implies (a + b)[i] != '\n' by {
        if i < a.len() {
            assert((a + b)[i] == a[i]);
        } else {
            assert((a + b)[i] == b[i - a.len()]);
        }
    }
}

proof fn lemma_dec_str_single_line(n: int)
    ensures
        single_line(dec_str(n)),
    decreases n,
{
    if n < 10 {
        assert forall|i: int| 0 <= i < dec_str(n).len() implies dec_str(n)[i] != '\n' by {
            assert(dec_str(n)[i] == dec_digit(n));
        }
    } else {
        lemma_dec_str_single_line(n / 10);
        assert forall|i: int| 0 <= i < dec_str(n).len() implies dec_str(n)[i] != '\n' by {
            if i < dec_str(n / 10).len() {
                assert(dec_str(n)[i] == dec_str(n / 10)[i]);
            } else {
                assert(dec_str(n)[i] == dec_digit(n % 10));
            }
        }
    }
}

/// Every fixed piece of the log templates is free of newlines.
proof fn lemma_template_single_line()
    ensures
        single_line("{\"type\": \""@),
        single_line("\",\"data\": "@),
        single_line("}"@),
        single_line("{\"msg\": "@),
        single_line(",\"src\": \""@),
        single_line("\",\"dst\": \""@),
        single_line("\",\"ts\": "@),
        single_line(",\"dst\": \""@),
        single_line("{\"name\": \""@),
        single_line("\",\"delay\": "@),
        single_line(",\"node\": \""@),
        single_line("\",\"node\": \""@),
        single_line("{\"node\": \""@),
        single_line("{\"src\": \""@),
        single_line("{\"group1\": \""@),
        single_line("\",\"group2\": \""@),
        single_line("MessageSend"@),
        single_line("MessageReceive"@),
        single_line("LocalMessageSend"@),
        single_line("LocalMessageReceive"@),
        single_line("MessageDropped"@),
        single_line("MessageDiscarded"@),
        single_line("TimerSet"@),
        single_line("TimerFired"@),
        single_line("NodeRecovered"@),
        single_line("NodeRestarted"@),
        single_line("NodeCrashed"@),
        single_line("NodeConnected"@),
        single_line("NodeDisconnected"@),
        single_line("LinkEnabled"@),
        single_line("LinkDisabled"@),
        single_line("NetworkPartition"@),
{
    reveal_strlit("{\"type\": \"");
    reveal_strlit("\",\"data\": ");
    reveal_strlit("}");
    reveal_strlit("{\"msg\": ");
    reveal_strlit(",\"src\": \"");
    reveal_strlit("\",\"dst\": \"");
    reveal_strlit("\",\"ts\": ");
    reveal_strlit(",\"dst\": \"");
    reveal_strlit("{\"name\": \"");
    reveal_strlit("\",\"delay\": ");
    reveal_strlit(",\"node\": \"");
    reveal_strlit("\",\"node\": \"");
    reveal_strlit("{\"node\": \"");
    reveal_strlit("{\"src\": \"");
    reveal_strlit("{\"group1\": \"");
    reveal_strlit("\",\"group2\": \"");
    reveal_strlit("MessageSend");
    reveal_strlit("MessageReceive");
    reveal_strlit("LocalMessageSend");
    reveal_strlit("LocalMessageReceive");
    reveal_strlit("MessageDropped");
    reveal_strlit("MessageDiscarded");
    reveal_strlit("TimerSet");
    reveal_strlit("TimerFired");
    reveal_strlit("NodeRecovered");
    reveal_strlit("NodeRestarted");
    reveal_strlit("NodeCrashed");
    reveal_strlit("NodeConnected");
    reveal_strlit("NodeDisconnected");
    reveal_strlit("LinkEnabled");
    reveal_strlit("LinkDisabled");
    reveal_strlit("NetworkPartition");
}

proof fn lemma_json_msg_single_line(m: JsonMessage)
    requires
        single_line(m.tip@),
        single_line(m.data@),
    ensures
        single_line(json_msg(m)),
{
    lemma_template_single_line();
    lemma_single_line_concat("{\"type\": \""@, m.tip@);
    lemma_single_line_concat("{\"type\": \""@ + m.tip@, "\",\"data\": "@);
    lemma_single_line_concat("{\"type\": \""@ + m.tip@ + "\",\"data\": "@, m.data@);
    lemma_single_line_concat(
        "{\"type\": \""@ + m.tip@ + "\",\"data\": "@ + m.data@,
        "}"@,
    );
}

proof fn lemma_json_obj_single_line(kind: Seq<char>, data: Seq<char>)
    requires
        single_line(kind),
        single_line(data),
    ensures
        single_line(json_obj(kind, data)),
{
    lemma_template_single_line();
    lemma_single_line_concat("{\"type\": \""@, kind);
    lemma_single_line_concat("{\"type\": \""@ + kind, "\",\"data\": "@);
    lemma_single_line_concat("{\"type\": \""@ + kind + "\",\"data\": "@, data);
    lemma_single_line_concat("{\"type\": \""@ + kind + "\",\"data\": "@ + data, "}"@);
}

proof fn lemma_routed_single_line(m: JsonMessage, src: Seq<char>, dst: Seq<char>, ts: u64)
    requires
        single_line(m.tip@),
        single_line(m.data@),
        single_line(src),
        single_line(dst),
    ensures
        single_line(routed_payload(m, src, dst, ts)),
{
    lemma_template_single_line();
    lemma_json_msg_single_line(m);
    lemma_dec_str_single_line(ts as int);
    lemma_single_line_concat("{\"msg\": "@, json_msg(m));
    let p1 = "{\"msg\": "@ + json_msg(m);
    lemma_single_line_concat(p1, ",\"src\": \""@);
    let p2 = p1 + ",\"src\": \""@;
    lemma_single_line_concat(p2, src);
    let p3 = p2 + src;
    lemma_single_line_concat(p3, "\",\"dst\": \""@);
    let p4 = p3 + "\",\"dst\": \""@;
    lemma_single_line_concat(p4, dst);
    let p5 = p4 + dst;
    lemma_single_line_concat(p5, "\",\"ts\": "@);
    let p6 = p5 + "\",\"ts\": "@;
    lemma_single_line_concat(p6, dec_str(ts as int));
    let p7 = p6 + dec_str(ts as int);
    lemma_single_line_concat(p7, "}"@);
}

proof fn lemma_local_single_line(m: JsonMessage, dst: Seq<char>, ts: u64)
    requires
        single_line(m.tip@),
        single_line(m.data@),
        single_line(dst),
    ensures
        single_line(local_payload(m, dst, ts)),
{
    lemma_template_single_line();
    lemma_json_msg_single_line(m);
    lemma_dec_str_single_line(ts as int);
    lemma_single_line_concat("{\"msg\": "@, json_msg(m));
    let p1 = "{\"msg\": "@ + json_msg(m);
    lemma_single_line_concat(p1, ",\"dst\": \""@);
    let p2 = p1 + ",\"dst\": \""@;
    lemma_single_line_concat(p2, dst);
    let p3 = p2 + dst;
    lemma_single_line_concat(p3, "\",\"ts\": "@);
    let p4 = p3 + "\",\"ts\": "@;
    lemma_single_line_concat(p4, dec_str(ts as int));
    let p5 = p4 + dec_str(ts as int);
    lemma_single_line_concat(p5, "}"@);
}

proof fn lemma_node_single_line(node: Seq<char>, ts: u64)
    requires
        single_line(node),
    ensures
        single_line(node_payload(node, ts)),
{
    lemma_template_single_line();
    lemma_dec_str_single_line(ts as int);
    lemma_single_line_concat("{\"node\": \""@, node);
    let p1 = "{\"node\": \""@ + node;
    lemma_single_line_concat(p1, "\",\"ts\": "@);
    let p2 = p1 + "\",\"ts\": "@;
    lemma_single_line_concat(p2, dec_str(ts as int));
    let p3 = p2 + dec_str(ts as int);
    lemma_single_line_concat(p3, "}"@);
}

proof fn lemma_link_single_line(src: Seq<char>, dst: Seq<char>, ts: u64)
    requires
        single_line(src),
        single_line(dst),
    ensures
        single_line(link_payload(src, dst, ts)),
{
    lemma_template_single_line();
    lemma_dec_str_single_line(ts as int);
    lemma_single_line_concat("{\"src\": \""@, src);
    let p1 = "{\"src\": \""@ + src;
    lemma_single_line_concat(p1, "\",\"dst\": \""@);
    let p2 = p1 + "\",\"dst\": \""@;
    lemma_single_line_concat(p2, dst);
    let p3 = p2 + dst;
    lemma_single_line_concat(p3, "\",\"ts\": "@);
    let p4 = p3 + "\",\"ts\": "@;
    lemma_single_line_concat(p4, dec_str(ts as int));
    let p5 = p4 + dec_str(ts as int);
    lemma_single_line_concat(p5, "}"@);
}

/// Every string the entry embeds in its line is itself free of
/// newlines.
pub open spec fn event_fields_single_line(e: DebugEvent) -> bool {
    match e {
        DebugEvent::MessageSend { msg, src, dst, ts: _ } => single_line(msg.tip@) && single_line(
            msg.data@,
        ) && single_line(src@) && single_line(dst@),
        DebugEvent::MessageReceive { msg, src, dst, ts: _ } => single_line(msg.tip@)
            && single_line(msg.data@) && single_line(src@) && single_line(dst@),
        DebugEvent::LocalMessageSend { msg, dst, ts: _ } => single_line(msg.tip@) && single_line(
            msg.data@,
        ) && single_line(dst@),
        DebugEvent::LocalMessageReceive { msg, dst, ts: _ } => single_line(msg.tip@)
            && single_line(msg.data@) && single_line(dst@),
        DebugEvent::MessageDropped { msg, src, dst, ts: _ } => single_line(msg.tip@)
            && single_line(msg.data@) && single_line(src@) && single_line(dst@),
        DebugEvent::MessageDiscarded { msg, src, dst, ts: _ } => single_line(msg.tip@)
            && single_line(msg.data@) && single_line(src@) && single_line(dst@),
        DebugEvent::TimerSet { name, delay: _, node, ts: _ } => single_line(name@)
            && single_line(node@),
        DebugEvent::TimerFired { name, node, ts: _ } => single_line(name@) && single_line(node@),
        DebugEvent::NodeRecovered { node, ts: _ } => single_line(node@),
        DebugEvent::NodeRestarted { node, ts: _ } => single_line(node@),
        DebugEvent::NodeCrashed { node, ts: _ } => single_line(node@),
        DebugEvent::NodeConnected { node, ts: _ } => single_line(node@),
        DebugEvent::NodeDisconnected { node, ts: _ } => single_line(node@),
        DebugEvent::LinkEnabled { src, dst, ts: _ } => single_line(src@) && single_line(dst@),
        DebugEvent::LinkDisabled { src, dst, ts: _ } => single_line(src@) && single_line(dst@),
        DebugEvent::NetworkPartition { group1, group2, ts: _ } => single_line(group1@)
            && single_line(group2@),
    }
}

/// A log line stays one line: when every embedded string is free of
/// newlines, the serialized entry holds none either, so the
/// line-delimited log stays parseable.
pub proof fn lemma_serialize_single_line(e: DebugEvent)
    requires
        event_fields_single_line(e),
    ensures
        single_line(serialize_model(e)),
{
    lemma_template_single_line();
    match e {
        DebugEvent::MessageSend { msg, src, dst, ts } => {
            lemma_routed_single_line(msg, src@, dst@, ts);
            lemma_json_obj_single_line("MessageSend"@, routed_payload(msg, src@, dst@, ts));
        },
        DebugEvent::MessageReceive { msg, src, dst, ts } => {
            lemma_routed_single_line(msg, src@, dst@, ts);
            lemma_json_obj_single_line("MessageReceive"@, routed_payload(msg, src@, dst@, ts));
        },
        DebugEvent::LocalMessageSend { msg, dst, ts } => {
            lemma_local_single_line(msg, dst@, ts);
            lemma_json_obj_single_line("LocalMessageSend"@, local_payload(msg, dst@, ts));
        },
        DebugEvent::LocalMessageReceive { msg, dst, ts } => {
            lemma_local_single_line(msg, dst@, ts);
            lemma_json_obj_single_line("LocalMessageReceive"@, local_payload(msg, dst@, ts));
        },
        DebugEvent::MessageDropped { msg, src, dst, ts } => {
            lemma_routed_single_line(msg, src@, dst@, ts);
            lemma_json_obj_single_line("MessageDropped"@, routed_payload(msg, src@, dst@, ts));
        },
        DebugEvent::MessageDiscarded { msg, src, dst, ts } => {
            lemma_routed_single_line(msg, src@, dst@, ts);
            lemma_json_obj_single_line("MessageDiscarded"@, routed_payload(msg, src@, dst@, ts));
        },
        DebugEvent::TimerSet { name, delay, node, ts } => {
            lemma_dec_str_single_line(delay as int);
            lemma_dec_str_single_line(ts as int);
            lemma_single_line_concat("{\"name\": \""@, name@);
            let p1 = "{\"name\": \""@ + name@;
            lemma_single_line_concat(p1, "\",\"delay\": "@);
            let p2 = p1 + "\",\"delay\": "@;
            lemma_single_line_concat(p2, dec_str(delay as int));
            let p3 = p2 + dec_str(delay as int);
            lemma_single_line_concat(p3, ",\"node\": \""@);
            let p4 = p3 + ",\"node\": \""@;
            lemma_single_line_concat(p4, node@);
            let p5 = p4 + node@;
            lemma_single_line_concat(p5, "\",\"ts\": "@);
            let p6 = p5 + "\",\"ts\": "@;
            lemma_single_line_concat(p6, dec_str(ts as int));
            let p7 = p6 + dec_str(ts as int);
            lemma_single_line_concat(p7, "}"@);
            lemma_json_obj_single_line("TimerSet"@, p7 + "}"@);
        },
        DebugEvent::TimerFired { name, node, ts } => {
            lemma_dec_str_single_line(ts as int);
            lemma_single_line_concat("{\"name\": \""@, name@);
            let p1 = "{\"name\": \""@ + name@;
            lemma_single_line_concat(p1, "\",\"node\": \""@);
            let p2 = p1 + "\",\"node\": \""@;
            lemma_single_line_concat(p2, node@);
            let p3 = p2 + node@;
            lemma_single_line_concat(p3, "\",\"ts\": "@);
            let p4 = p3 + "\",\"ts\": "@;
            lemma_single_line_concat(p4, dec_str(ts as int));
            let p5 = p4 + dec_str(ts as int);
            lemma_single_line_concat(p5, "}"@);
            lemma_json_obj_single_line("TimerFired"@, p5 + "}"@);
        },
        DebugEvent::NodeRecovered { node, ts } => {
            lemma_node_single_line(node@, ts);
            lemma_json_obj_single_line("NodeRecovered"@, node_payload(node@, ts));
        },
        DebugEvent::NodeRestarted { node, ts } => {
            lemma_node_single_line(node@, ts);
            lemma_json_obj_single_line("NodeRestarted"@, node_payload(node@, ts));
        },
        DebugEvent::NodeCrashed { node, ts } => {
            lemma_node_single_line(node@, ts);
            lemma_json_obj_single_line("NodeCrashed"@, node_payload(node@, ts));
        },
        DebugEvent::NodeConnected { node, ts } => {
            lemma_node_single_line(node@, ts);
            lemma_json_obj_single_line("NodeConnected"@, node_payload(node@, ts));
        },
        DebugEvent::NodeDisconnected { node, ts } => {
            lemma_node_single_line(node@, ts);
            lemma_json_obj_single_line("NodeDisconnected"@, node_payload(node@, ts));
        },
        DebugEvent::LinkEnabled { src, dst, ts } => {
            lemma_link_single_line(src@, dst@, ts);
            lemma_json_obj_single_line("LinkEnabled"@, link_payload(src@, dst@, ts));
        },
        DebugEvent::LinkDisabled { src, dst, ts } => {
            lemma_link_single_line(src@, dst@, ts);
            lemma_json_obj_single_line("LinkDisabled"@, link_payload(src@, dst@, ts));
        },
        DebugEvent::NetworkPartition { group1, group2, ts } => {
            lemma_dec_str_single_line(ts as int);
            lemma_single_line_concat("{\"group1\": \""@, group1@);
            let p1 = "{\"group1\": \""@ + group1@;
            lemma_single_line_concat(p1, "\",\"group2\": \""@);
            let p2 = p1 + "\",\"group2\": \""@;
            lemma_single_line_concat(p2, group2@);
            let p3 = p2 + group2@;
            lemma_single_line_concat(p3, "\",\"ts\": "@);
            let p4 = p3 + "\",\"ts\": "@;
            lemma_single_line_concat(p4, dec_str(ts as int));
            let p5 = p4 + dec_str(ts as int);
            lemma_single_line_concat(p5, "}"@);
            lemma_json_obj_single_line("NetworkPartition"@, p5 + "}"@);
        },
    }
}

/// The `:`-joined tail of the node-ids header.
pub open spec fn ids_joined(s: Seq<String>) -> Seq<char>
    decreases s.len(),
{
    if s.len() == 0 {
        Seq::empty()
    } else {
        ids_joined(s.drop_last()) + ":"@ + s.last()@
    }
}

/// The header line naming the registered nodes, newline included.
pub fn node_ids_line(ids: &Vec<String>) -> (r: String)
    ensures
        r@ == "NODE_IDS"@ + ids_joined(ids@) + "\n"@,
{
    let mut out = String::new();
    out.append("NODE_IDS");
    let mut i: usize = 0;
    while i < ids.len()
        invariant
            i <= ids@.len(),
            out@ == "NODE_IDS"@ + ids_joined(ids@.subrange(0, i as int)),
        decreases ids@.len() - i,
    {
        out.append(":");
        out.append(ids[i].as_str());
        proof {
            assert(ids@.subrange(0, i as int + 1).drop_last() =~= ids@.subrange(0, i as int));
            assert(ids@.subrange(0, i as int + 1).last() == ids@[i as int]);
            assert(out@ =~= "NODE_IDS"@ + ids_joined(ids@.subrange(0, i as int + 1)));
        }
        i += 1;
    }
    proof {
        assert(ids@.subrange(0, ids@.len() as int) =~= ids@);
    }
    out.append("\n");
    out
}

/// The control line that opens a test section, newline included.
pub fn test_begin_line(test_name: &str) -> (r: String)
    ensures
        r@ == "TEST_BEGIN:"@ + test_name@ + "\n"@,
{
    let mut out = String::new();
    out.append("TEST_BEGIN:");
    out.append(test_name);
    out.append("\n");
    proof {
        assert(out@ =~= "TEST_BEGIN:"@ + test_name@ + "\n"@);
    }
    out
}

/// The control line that closes a test section, newline included.
pub fn test_end_line(test_result: &str) -> (r: String)
    ensures
        r@ == "TEST_END:"@ + test_result@ + "\n"@,
{
    let mut out = String::new();
    out.append("TEST_END:");
    out.append(test_result);
    out.append("\n");
    proof {
        assert(out@ =~= "TEST_END:"@ + test_result@ + "\n"@);
    }
    out
}

} // verus!
