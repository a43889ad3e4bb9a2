use vstd::prelude::*;
use crate::text::{same_text, starts_with};

verus! {

/// A frame received from the collector service.
pub enum Frame {
    Text(String),
    Binary(Vec<u8>),
    Ping,
    Pong,
    Close,
    Raw,
}

/// What a frame received while awaiting an event's acknowledgment means.
#[derive(Debug, Clone, Copy, PartialEq, Eq, Structural)]
pub enum AckKind {
    /// `OK`: the event was received and stored.
    Success,
    /// `ERROR: <reason>`: received, but refused; counts as acknowledged.
    SoftError,
    /// Any other text: taken as the reply, not counted as sent.
    OtherText,
    /// A control or binary frame: not the acknowledgment; keep waiting.
    OutOfBand,
    /// The service closed the connection.
    Closed,
}

pub open spec fn ack_kind_of_text(t: Seq<char>) -> AckKind {
    if t == "OK"@ {
        AckKind::Success
    } else if "ERROR:"@.len() <= t.len() && t.take("ERROR:"@.len() as int) == "ERROR:"@ {
        AckKind::SoftError
    } else {
        AckKind::OtherText
    }
}

pub open spec fn ack_kind_of(f: &Frame) -> AckKind {
    match f {
        Frame::Text(t) => ack_kind_of_text(t@),
        Frame::Close => AckKind::Closed,
        _ => AckKind::OutOfBand,
    }
}

/// Classify a frame received while awaiting an acknowledgment.
pub fn classify_frame(frame: &Frame) -> (r: AckKind)
    ensures
        r == ack_kind_of(frame),
{
    match frame {
        Frame::Text(t) => {
            if same_text(t.as_str(), "OK") {
                AckKind::Success
            } else if starts_with(t.as_str(), "ERROR:") {
                AckKind::SoftError
            } else {
                AckKind::OtherText
            }
        },
        Frame::Close => AckKind::Closed,
        _ => AckKind::OutOfBand,
    }
}

/// The one control message that authenticates: `$AUTH <token>`.
pub fn auth_message(token: &str) -> (r: String)
    ensures
        r@ == "$AUTH "@ + token@,
{
    let mut m = String::from_str("$AUTH ");
    m.append(token);
    m
}

/// Whether the reply to the authentication message accepts it: exactly
/// `AUTH_SUCCESS`; any other text is a rejection.
pub fn is_auth_success(reply: &str) -> (r: bool)
    ensures
        r == (reply@ == "AUTH_SUCCESS"@),
{
    same_text(reply, "AUTH_SUCCESS")
}

/// What to do after a frame arrives.
#[derive(Debug, Clone, Copy, PartialEq, Eq, Structural)]
pub enum Verdict {
    /// The event is acknowledged: go on with the next one.
    NextEvent,
    /// Not yet acknowledged: wait for another frame.
    KeepWaiting,
    /// The connection is gone: stop, and report the partial count.
    Abort,
}

/// The progress of one batch on the wire.
pub struct BatchProgress {
    /// Events acknowledged in any way.
    pub acknowledged: usize,
    /// Events acknowledged with `OK`.
    pub sent_count: usize,
}

impl BatchProgress {
    /// Nothing acknowledged yet.
    pub fn new() -> (r: Self)
        ensures
            r.acknowledged == 0,
            r.sent_count == 0,
    {
        BatchProgress { acknowledged: 0, sent_count: 0 }
    }

    /// Take in one frame's meaning. Only `OK` counts an event as sent;
    /// control frames never pass for an acknowledgment.
    pub fn apply(&mut self, kind: AckKind) -> (r: Verdict)
        requires
            old(self).acknowledged < usize::MAX,
            old(self).sent_count <= old(self).acknowledged,
        ensures
            final(self).sent_count <= final(self).acknowledged,
            r == match kind {
                AckKind::Success | AckKind::SoftError | AckKind::OtherText => Verdict::NextEvent,
                AckKind::OutOfBand => Verdict::KeepWaiting,
                AckKind::Closed => Verdict::Abort,
            },
            final(self).acknowledged == old(self).acknowledged + if r is NextEvent { 1int } else { 0 },
            final(self).sent_count == old(self).sent_count + if kind is Success { 1int } else { 0 },
    {
        match kind {
            AckKind::Success => {
                self.acknowledged = self.acknowledged + 1;
                self.sent_count = self.sent_count + 1;
                Verdict::NextEvent
            },
            AckKind::SoftError | AckKind::OtherText => {
                self.acknowledged = self.acknowledged + 1;
                Verdict::NextEvent
            },
            AckKind::OutOfBand => Verdict::KeepWaiting,
            AckKind::Closed => Verdict::Abort,
        }
    }
}

} // verus!
