use vstd::prelude::*;
use vstd::string::*;
use vstd::utf8::*;

use crate::ack::{AckWaiter, WaitStatus};
use crate::bytes::bytes_of;
use crate::commands::{
    close_socket, close_socket_spec, disconnect, disconnect_spec, echo_off, echo_off_spec, open_socket,
    open_socket_spec, send_length, send_length_spec,
};
use crate::event_loop::{Event, EventView, WifiEvent, WifiState};
use crate::packet::{connect_frame, connect_frame_spec, publish_frame, publish_frame_spec};
use crate::payload::{field, payload_field, SEPARATOR};

verus! {

/// Polls allowed for the modem's "OK" before the connect handshake.
pub const CONNECT_ACK_BUDGET: u64 = 1000;

/// Polls allowed for the modem's "OK" before a publish or close frame.
pub const SEND_ACK_BUDGET: u64 = 10000;

/// A background wait for `marker`, after which `frame` is written and the
/// state becomes `on_sent`; on timeout, or if the frame cannot be written, the
/// state becomes `Ready`.
pub struct AckWait {
    pub marker: Vec<u8>,
    pub budget: u64,
    pub frame: Vec<u8>,
    pub on_sent: WifiState,
}

pub struct AckWaitView {
    pub marker: Seq<u8>,
    pub budget: nat,
    pub frame: Seq<u8>,
    pub on_sent: WifiState,
}

impl View for AckWait {
    type V = AckWaitView;

    open spec fn view(&self) -> AckWaitView {
        AckWaitView {
            marker: self.marker@,
            budget: self.budget as nat,
            frame: self.frame@,
            on_sent: self.on_sent,
        }
    }
}

/// What a handler does for one event: clear the read buffer or not, flush
/// the transport first or not, write `writes` in order (each followed by a flush), then set `on_written` if every
/// write succeeded or `on_write_failed` if one did not (`None` leaves the
/// state as it is), and, only if every write succeeded, start `wait`.
pub struct Reaction {
    pub clear_buffer: bool,
    pub flush_first: bool,
    pub writes: Vec<Vec<u8>>,
    pub on_written: Option<WifiState>,
    pub on_write_failed: Option<WifiState>,
    pub wait: Option<AckWait>,
}

pub struct ReactionView {
    pub clear_buffer: bool,
    pub flush_first: bool,
    pub writes: Seq<Seq<u8>>,
    pub on_written: Option<WifiState>,
    pub on_write_failed: Option<WifiState>,
    pub wait: Option<AckWaitView>,
}

impl View for Reaction {
    type V = ReactionView;

    open spec fn view(&self) -> ReactionView {
        ReactionView {
            clear_buffer: self.clear_buffer,
            flush_first: self.flush_first,
            writes: self.writes@.map_values(|w: Vec<u8>| w@),
            on_written: self.on_written,
            on_write_failed: self.on_write_failed,
            wait: match self.wait {
                Some(w) => Some(w@),
                None => None,
            },
        }
    }
}

/// Whether a handler acts on an event of kind `k` in state `s`.
pub open spec fn accepts(s: WifiState, k: WifiEvent) -> bool {
    match k {
        WifiEvent::Configure => s == WifiState::Ready,
        WifiEvent::PublishConnectRequest => s == WifiState::Ready,
        WifiEvent::ConnAck => s == WifiState::WaitingConnectAck,
        WifiEvent::Publish => s == WifiState::Connected,
        WifiEvent::AckReceived => s == WifiState::WaitingPublishAck,
        WifiEvent::Reset | WifiEvent::Close | WifiEvent::Timeout => true,
    }
}

/// The reaction that does nothing at all.
pub open spec fn idle() -> ReactionView {
    ReactionView {
        clear_buffer: false,
        flush_first: false,
        writes: Seq::empty(),
        on_written: None,
        on_write_failed: None,
        wait: None,
    }
}

/// Topic of a publish payload `<ignored>:<topic>:<message>`.
pub open spec fn publish_topic(data: Seq<u8>) -> Seq<u8> {
    match field(data, SEPARATOR, 1) {
        Some(t) => t,
        None => "/test/topic".spec_bytes(),
    }
}

/// Message of a publish payload `<ignored>:<topic>:<message>`.
pub open spec fn publish_message(data: Seq<u8>) -> Seq<u8> {
    match field(data, SEPARATOR, 2) {
        Some(m) => m,
        None => "hello".spec_bytes(),
    }
}

/// The frame that a publish event with payload `data` sends.
pub open spec fn publish_frame_of(data: Seq<u8>) -> Seq<u8> {
    publish_frame_spec(publish_topic(data), publish_message(data))
}

/// The reaction to an event of kind `k` with payload bytes `data` in state `s`.
pub open spec fn reaction_spec(s: WifiState, k: WifiEvent, data: Seq<u8>) -> ReactionView {
    if !accepts(s, k) {
        idle()
    } else {
        match k {
            WifiEvent::Configure => ReactionView {
                writes: seq![echo_off_spec()],
                ..idle()
            },
            WifiEvent::Reset => ReactionView {
                clear_buffer: true,
                flush_first: true,
                writes: seq![disconnect_spec(), close_socket_spec()],
                on_written: Some(WifiState::Ready),
                on_write_failed: Some(WifiState::Ready),
                wait: None,
            },
            WifiEvent::PublishConnectRequest => ReactionView {
                clear_buffer: true,
                flush_first: false,
                writes: seq![open_socket_spec(data)],
                on_written: Some(WifiState::WaitingConnectAck),
                on_write_failed: Some(WifiState::Ready),
                wait: None,
            },
            WifiEvent::ConnAck => ReactionView {
                clear_buffer: true,
                flush_first: false,
                writes: seq![send_length_spec(connect_frame_spec().len())],
                on_written: None,
                on_write_failed: Some(WifiState::Ready),
                wait: Some(
                    AckWaitView {
                        marker: "OK".spec_bytes(),
                        budget: CONNECT_ACK_BUDGET as nat,
                        frame: connect_frame_spec(),
                        on_sent: WifiState::Connected,
                    },
                ),
            },
            WifiEvent::Publish => ReactionView {
                clear_buffer: true,
                flush_first: false,
                writes: seq![send_length_spec(publish_frame_of(data).len())],
                on_written: None,
                on_write_failed: Some(WifiState::Ready),
                wait: Some(
                    AckWaitView {
                        marker: "OK".spec_bytes(),
                        budget: SEND_ACK_BUDGET as nat,
                        frame: publish_frame_of(data),
                        on_sent: WifiState::WaitingPublishAck,
                    },
                ),
            },
            WifiEvent::AckReceived => ReactionView {
                clear_buffer: true,
                flush_first: false,
                writes: seq![send_length_spec(disconnect_spec().len())],
                on_written: None,
                on_write_failed: None,
                wait: Some(
                    AckWaitView {
                        marker: "OK".spec_bytes(),
                        budget: SEND_ACK_BUDGET as nat,
                        frame: disconnect_spec(),
                        on_sent: WifiState::Ready,
                    },
                ),
            },
            WifiEvent::Close | WifiEvent::Timeout => ReactionView {
                clear_buffer: true,
                flush_first: false,
                on_written: Some(WifiState::Ready),
                on_write_failed: Some(WifiState::Ready),
                ..idle()
            },
        }
    }
}

/// The payload of an event as the bytes that go on the wire.
pub open spec fn payload_bytes(e: EventView) -> Seq<u8> {
    encode_utf8(e.data)
}

/// The state after a reaction's writes, from state `current`.
pub open spec fn settle_spec(r: ReactionView, current: WifiState, writes_ok: bool) -> WifiState {
    let target = if writes_ok {
        r.on_written
    } else {
        r.on_write_failed
    };
    match target {
        Some(s) => s,
        None => current,
    }
}

/// The state after an acknowledgment wait ends with `status` and, if it was
/// found, the frame write succeeded or not.
pub open spec fn conclude_spec(w: AckWaitView, status: WaitStatus, frame_written: bool) -> WifiState {
    if status == WaitStatus::Found && frame_written {
        w.on_sent
    } else {
        WifiState::Ready
    }
}

fn single(w: Vec<u8>) -> (r: Vec<Vec<u8>>)
    ensures
        r@.map_values(|v: Vec<u8>| v@) == seq![w@],
{
    let r = vec![w];
    assert(r@.map_values(|v: Vec<u8>| v@) =~= seq![r@[0]@]);
    r
}

fn ok_marker() -> (r: Vec<u8>)
    ensures
        r@ == "OK".spec_bytes(),
{
    bytes_of("OK")
}

fn idle_reaction() -> (r: Reaction)
    ensures
        r@ == idle(),
{
    let r = Reaction {
        clear_buffer: false,
        flush_first: false,
        writes: Vec::new(),
        on_written: None,
        on_write_failed: None,
        wait: None,
    };
    assert(r@.writes =~= Seq::<Seq<u8>>::empty());
    r
}

/// Whether the handler of `kind` acts in `state`.
pub fn is_accepted(state: WifiState, kind: WifiEvent) -> (r: bool)
    ensures
        r == accepts(state, kind),
{
    match kind {
        WifiEvent::Configure => state == WifiState::Ready,
        WifiEvent::PublishConnectRequest => state == WifiState::Ready,
        WifiEvent::ConnAck => state == WifiState::WaitingConnectAck,
        WifiEvent::Publish => state == WifiState::Connected,
        WifiEvent::AckReceived => state == WifiState::WaitingPublishAck,
        WifiEvent::Reset | WifiEvent::Close | WifiEvent::Timeout => true,
    }
}

/// The frame that a publish event with payload bytes `data` sends: topic and
/// message from `<ignored>:<topic>:<message>`, with `/test/topic` and `hello`
/// for the parts that are missing.
pub fn publish_frame_for(data: &[u8]) -> (r: Vec<u8>)
    ensures
        r@ == publish_frame_of(data@),
{
    let topic = match payload_field(data, 1) {
        Some(t) => t,
        None => bytes_of("/test/topic"),
    };
    let message = match payload_field(data, 2) {
        Some(m) => m,
        None => bytes_of("hello"),
    };
    publish_frame(topic.as_slice(), message.as_slice())
}

/// The handler of `event`'s kind, applied in `state`.
pub fn handle(state: WifiState, event: &Event) -> (r: Reaction)
    ensures
        r@ == reaction_spec(state, event@.kind, payload_bytes(event@)),
{
    let kind = event.kind();
    if !is_accepted(state, kind) {
        return idle_reaction();
    }
    let data: &[u8] = event.payload().as_bytes();
    match kind {
        WifiEvent::Configure => {
            let r = Reaction {
                clear_buffer: false,
                flush_first: false,
                writes: single(echo_off()),
                on_written: None,
                on_write_failed: None,
                wait: None,
            };
            r
        },
        WifiEvent::Reset => {
            let writes = vec![disconnect(), close_socket()];
            assert(writes@.map_values(|v: Vec<u8>| v@) =~= seq![disconnect_spec(), close_socket_spec()]);
            Reaction {
                clear_buffer: true,
                flush_first: true,
                writes,
                on_written: Some(WifiState::Ready),
                on_write_failed: Some(WifiState::Ready),
                wait: None,
            }
        },
        WifiEvent::PublishConnectRequest => Reaction {
            clear_buffer: true,
            flush_first: false,
            writes: single(open_socket(data)),
            on_written: Some(WifiState::WaitingConnectAck),
            on_write_failed: Some(WifiState::Ready),
            wait: None,
        },
        WifiEvent::ConnAck => {
            let frame = connect_frame();
            let announce = send_length(frame.len());
            Reaction {
                clear_buffer: true,
                flush_first: false,
                writes: single(announce),
                on_written: None,
                on_write_failed: Some(WifiState::Ready),
                wait: Some(
                    AckWait {
                        marker: ok_marker(),
                        budget: CONNECT_ACK_BUDGET,
                        frame,
                        on_sent: WifiState::Connected,
                    },
                ),
            }
        },
        WifiEvent::Publish => {
            let frame = publish_frame_for(data);
            let announce = send_length(frame.len());
            Reaction {
                clear_buffer: true,
                flush_first: false,
                writes: single(announce),
                on_written: None,
                on_write_failed: Some(WifiState::Ready),
                wait: Some(
                    AckWait {
                        marker: ok_marker(),
                        budget: SEND_ACK_BUDGET,
                        frame,
                        on_sent: WifiState::WaitingPublishAck,
                    },
                ),
            }
        },
        WifiEvent::AckReceived => {
            let frame = disconnect();
            let announce = send_length(frame.len());
            Reaction {
                clear_buffer: true,
                flush_first: false,
                writes: single(announce),
                on_written: None,
                on_write_failed: None,
                wait: Some(
                    AckWait {
                        marker: ok_marker(),
                        budget: SEND_ACK_BUDGET,
                        frame,
                        on_sent: WifiState::Ready,
                    },
                ),
            }
        },
        WifiEvent::Close | WifiEvent::Timeout => {
            let r = Reaction {
                clear_buffer: true,
                flush_first: false,
                writes: Vec::new(),
                on_written: Some(WifiState::Ready),
                on_write_failed: Some(WifiState::Ready),
                wait: None,
            };
            assert(r@.writes =~= Seq::<Seq<u8>>::empty());
            r
        },
    }
}

impl Reaction {
    /// The state once the writes are done, from state `current`.
    pub fn settle(&self, current: WifiState, writes_ok: bool) -> (r: WifiState)
        ensures
            r == settle_spec(self@, current, writes_ok),
    {
        let target = if writes_ok {
            self.on_written
        } else {
            self.on_write_failed
        };
        match target {
            Some(s) => s,
            None => current,
        }
    }
}

impl Reaction {
    /// The wait to start once the writes are done: this reaction's wait if
    /// every write succeeded, else none.
    pub fn into_wait(self, writes_ok: bool) -> (r: Option<AckWait>)
        ensures
            r.is_some() == (writes_ok && self@.wait.is_some()),
            r.is_some() ==> r.unwrap()@ == self@.wait.unwrap(),
    {
        if writes_ok {
            self.wait
        } else {
            None
        }
    }
}

impl AckWait {
    /// The frame to write once the wait has ended with `status`: the frame
    /// after `Found`, nothing otherwise.
    pub fn frame_to_write(&self, status: WaitStatus) -> (r: Option<&[u8]>)
        ensures
            r.is_some() == (status == WaitStatus::Found),
            r.is_some() ==> r.unwrap()@ == self@.frame,
    {
        if status == WaitStatus::Found {
            Some(self.frame.as_slice())
        } else {
            None
        }
    }

    /// A waiter for this wait's marker and budget.
    pub fn waiter(&self) -> (r: AckWaiter)
        ensures
            r@.marker == self@.marker,
            r@.budget == self@.budget,
            r@.polls == 0,
    {
        AckWaiter::from_bytes(&self.marker, self.budget)
    }

    /// The state once the wait has ended with `status` (`Found` or
    /// `TimedOut`) and, after `Found`, the frame was written or not.
    pub fn conclude(&self, status: WaitStatus, frame_written: bool) -> (r: WifiState)
        ensures
            r == conclude_spec(self@, status, frame_written),
    {
        if status == WaitStatus::Found && frame_written {
            self.on_sent
        } else {
            WifiState::Ready
        }
    }
}

/// An event whose handler's precondition does not hold leaves everything
/// alone: nothing is written, the read buffer is kept, no wait starts, and the
/// state stays what it was whatever the (absent) writes did.
pub proof fn lemma_rejected_event_is_inert(s: WifiState, k: WifiEvent, data: Seq<u8>, writes_ok: bool)
    requires
        !accepts(s, k),
    ensures
        reaction_spec(s, k, data).writes.len() == 0,
        !reaction_spec(s, k, data).clear_buffer,
        !reaction_spec(s, k, data).flush_first,
        reaction_spec(s, k, data).wait is None,
        settle_spec(reaction_spec(s, k, data), s, writes_ok) == s,
{
}

/// Handling the same event twice from the same state gives the same writes,
/// the same wait and the same resulting state both times: the outcome depends
/// on the state and the event alone.
pub proof fn lemma_handling_is_repeatable(
    s: WifiState,
    e: EventView,
    first: ReactionView,
    second: ReactionView,
    writes_ok: bool,
)
    requires
        first == reaction_spec(s, e.kind, payload_bytes(e)),
        second == reaction_spec(s, e.kind, payload_bytes(e)),
    ensures
        first.writes == second.writes,
        first.wait == second.wait,
        first.clear_buffer == second.clear_buffer,
        first.flush_first == second.flush_first,
        settle_spec(first, s, writes_ok) == settle_spec(second, s, writes_ok),
{
}

/// `Reset`, `Close` and `Timeout` lead back to `Ready` from every state,
/// whether or not their writes succeed.
pub proof fn lemma_recovery_to_ready(s: WifiState, k: WifiEvent, data: Seq<u8>, writes_ok: bool)
    requires
        k == WifiEvent::Reset || k == WifiEvent::Close || k == WifiEvent::Timeout,
    ensures
        settle_spec(reaction_spec(s, k, data), s, writes_ok) == WifiState::Ready,
        reaction_spec(s, k, data).wait is None,
{
}

/// Every wait gives up into `Ready`: a timeout, or a frame that could not be
/// written, never leaves the state where the exchange was heading.
pub proof fn lemma_failed_wait_reverts(w: AckWaitView, frame_written: bool)
    ensures
        conclude_spec(w, WaitStatus::TimedOut, frame_written) == WifiState::Ready,
        conclude_spec(w, WaitStatus::Found, false) == WifiState::Ready,
        conclude_spec(w, WaitStatus::Found, true) == w.on_sent,
{
}

} // verus!
