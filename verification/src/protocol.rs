//! Per-connection decision logic: the handshake state machine and the
//! publisher relay loop's step function.
//!
//! The surrounding process owns the sockets. For each connection it reads
//! one line at a time, reports what happened as a `ReadEvent`, and performs
//! the returned action: close, send the error frame and close, or write a
//! delivery frame to each target handle. Every decision in between — how a
//! line is decoded, which role a connection takes, what the registry holds,
//! who receives a message — is made here and verified.

use vstd::prelude::*;
use vstd::string::*;
use crate::codec::{
    decode_handshake, decode_relay, encode_relay_frame, handshake_method, handshake_topic,
    handshake_well_formed, relay_frame_spec, relay_text, relay_well_formed,
};
use crate::registry::Registry;

verus! {

/// What one blocking line read produced: a clean peer close, one full line,
/// or a transport-level read error.
pub enum ReadEvent {
    Closed,
    Line(String),
    Failed,
}

/// The terminal decision for a fresh connection's first line.
#[derive(Debug)]
pub enum HandshakeAction {
    /// Close the connection without writing anything: clean peer close or
    /// read error.
    CloseSilently,
    /// The connection is now registered under `topic`; its handler ends,
    /// the connection stays open for deliveries.
    Subscribed { topic: String },
    /// The connection is a publisher for `topic`; enter the relay loop.
    EnterRelay { topic: String },
    /// Write the error frame, then close the connection.
    SendErrorAndClose,
}

/// The decision for one line read in a publisher's relay loop.
#[derive(Debug)]
pub enum RelayAction {
    /// Close the connection without writing anything; leave the loop.
    CloseSilently,
    /// Write the error frame, then close; leave the loop.
    SendErrorAndClose,
    /// Write `frame` to every handle in `targets`, in order, then report
    /// which writes succeeded through `Registry::prune_topic`; stay in the
    /// loop. `message` is the decoded payload, carried verbatim in `frame`;
    /// an absent or empty topic means `targets` is empty, not an error.
    Deliver { targets: Vec<u64>, message: String, frame: String, topic_existed: bool },
}

/// Decides a fresh connection's fate from its first line.
///
/// A clean close or read error closes silently and leaves the registry as
/// it was. A malformed line — not exactly the string fields `method` and
/// `topic`, or a method other than `subscribe` and `publish` — draws the
/// error frame and a close, and leaves the registry as it was. A subscribe
/// request appends the connection to its topic; a publish request changes
/// nothing and hands the connection to the relay loop.
pub fn handshake_step(reg: &mut Registry, conn: u64, ev: ReadEvent) -> (a: HandshakeAction)
    requires
        old(reg).wf(),
    ensures
        final(reg).wf(),
        match ev {
            ReadEvent::Closed => a is CloseSilently && final(reg)@ == old(reg)@,
            ReadEvent::Failed => a is CloseSilently && final(reg)@ == old(reg)@,
            ReadEvent::Line(l) => {
                if !handshake_well_formed(l@) {
                    a is SendErrorAndClose && final(reg)@ == old(reg)@
                } else if handshake_method(l@) == Some("subscribe"@) {
                    &&& a matches HandshakeAction::Subscribed { topic } && Some(topic@)
                        == handshake_topic(l@)
                    &&& final(reg)@ == old(reg)@.insert(
                        handshake_topic(l@).unwrap(),
                        (if old(reg)@.contains_key(handshake_topic(l@).unwrap()) {
                            old(reg)@[handshake_topic(l@).unwrap()].push(conn)
                        } else {
                            seq![conn]
                        }),
                    )
                } else if handshake_method(l@) == Some("publish"@) {
                    &&& a matches HandshakeAction::EnterRelay { topic } && Some(topic@)
                        == handshake_topic(l@)
                    &&& final(reg)@ == old(reg)@
                } else {
                    a is SendErrorAndClose && final(reg)@ == old(reg)@
                }
            },
        },
{
    match ev {
        ReadEvent::Closed => HandshakeAction::CloseSilently,
        ReadEvent::Failed => HandshakeAction::CloseSilently,
        ReadEvent::Line(l) => {
            match decode_handshake(l.as_str()) {
                None => HandshakeAction::SendErrorAndClose,
                Some(req) => {
                    let subscribe_word = String::from_str("subscribe");
                    let publish_word = String::from_str("publish");
                    if req.method == subscribe_word {
                        reg.subscribe(&req.topic, conn);
                        HandshakeAction::Subscribed { topic: req.topic }
                    } else if req.method == publish_word {
                        HandshakeAction::EnterRelay { topic: req.topic }
                    } else {
                        HandshakeAction::SendErrorAndClose
                    }
                },
            }
        },
    }
}

/// Decides one relay-loop step for a publisher of `topic`.
///
/// A clean close or read error ends the loop silently. A malformed line —
/// not exactly the one string field `message` — draws the error frame and
/// a close. A well-formed line is fanned out: the plan targets exactly the
/// topic's current subscribers in order, and the frame carries the decoded
/// payload verbatim. The registry is never changed by this step.
pub fn relay_step(reg: &Registry, topic: &String, ev: ReadEvent) -> (a: RelayAction)
    requires
        reg.wf(),
    ensures
        match ev {
            ReadEvent::Closed => a is CloseSilently,
            ReadEvent::Failed => a is CloseSilently,
            ReadEvent::Line(l) => {
                if !relay_well_formed(l@) {
                    a is SendErrorAndClose
                } else {
                    &&& a matches RelayAction::Deliver { targets, message, frame, topic_existed }
                    &&& targets@ == (if reg@.contains_key(topic@) {
                        reg@[topic@]
                    } else {
                        Seq::<u64>::empty()
                    })
                    &&& Some(message@) == relay_text(l@)
                    &&& frame@ == relay_frame_spec(relay_text(l@).unwrap())
                    &&& topic_existed == reg@.contains_key(topic@)
                }
            },
        },
{
    match ev {
        ReadEvent::Closed => RelayAction::CloseSilently,
        ReadEvent::Failed => RelayAction::CloseSilently,
        ReadEvent::Line(l) => {
            match decode_relay(l.as_str()) {
                None => RelayAction::SendErrorAndClose,
                Some(message) => {
                    let (targets, topic_existed) = reg.publish_targets(topic);
                    let frame = encode_relay_frame(message.as_str());
                    RelayAction::Deliver { targets, message, frame, topic_existed }
                },
            }
        },
    }
}

} // verus!
