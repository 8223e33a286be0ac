use vstd::prelude::*;
use vstd::string::*;

use crate::handlers::{handle, payload_bytes, reaction_spec, Reaction};

verus! {

/// The kinds of protocol event.
#[derive(Clone, Copy, Debug, Hash, PartialEq, Eq, Structural)]
pub enum WifiEvent {
    Configure,
    PublishConnectRequest,
    Timeout,
    ConnAck,
    Publish,
    AckReceived,
    Close,
    Reset,
}

/// The protocol state of the modem link.
#[derive(Clone, Copy, Debug, PartialEq, Eq, Structural)]
pub enum WifiState {
    Ready,
    WaitingConnectAck,
    Connected,
    WaitingPublishAck,
    Sent,
    Invalid,
}

/// An event of some kind with a free-form text payload.
pub struct Event {
    event: WifiEvent,
    pub data: String,
}

/// What an event is, mathematically: its kind and the characters of its payload.
pub struct EventView {
    pub kind: WifiEvent,
    pub data: Seq<char>,
}

impl View for Event {
    type V = EventView;

    closed spec fn view(&self) -> EventView {
        EventView { kind: self.event, data: self.data@ }
    }
}

/// The name of an event kind, as its variant is spelled.
pub open spec fn kind_name(k: WifiEvent) -> Seq<char> {
    match k {
        WifiEvent::Configure => "Configure"@,
        WifiEvent::PublishConnectRequest => "PublishConnectRequest"@,
        WifiEvent::Timeout => "Timeout"@,
        WifiEvent::ConnAck => "ConnAck"@,
        WifiEvent::Publish => "Publish"@,
        WifiEvent::AckReceived => "AckReceived"@,
        WifiEvent::Close => "Close"@,
        WifiEvent::Reset => "Reset"@,
    }
}

/// An event as one line of text: `<kind>: <payload>`.
pub open spec fn event_line(e: EventView) -> Seq<char> {
    kind_name(e.kind) + ": "@ + e.data
}

impl WifiEvent {
    pub fn name(&self) -> (r: &'static str)
        ensures
            r@ == kind_name(*self),
    {
        match self {
            WifiEvent::Configure => "Configure",
            WifiEvent::PublishConnectRequest => "PublishConnectRequest",
            WifiEvent::Timeout => "Timeout",
            WifiEvent::ConnAck => "ConnAck",
            WifiEvent::Publish => "Publish",
            WifiEvent::AckReceived => "AckReceived",
            WifiEvent::Close => "Close",
            WifiEvent::Reset => "Reset",
        }
    }
}

impl Event {
    pub fn new(event: WifiEvent, data: String) -> (r: Self)
        ensures
            r@.kind == event,
            r@.data == data@,
    {
        Event { event, data }
    }

    pub fn kind(&self) -> (r: WifiEvent)
        ensures
            r == self@.kind,
    {
        self.event
    }

    /// The event as one line of text, `<kind>: <payload>`.
    pub fn describe(&self) -> (r: String)
        ensures
            r@ == event_line(self@),
    {
        self.event.name().to_string().concat(": ").concat(self.data.as_str())
    }

    pub fn payload(&self) -> (r: &str)
        ensures
            r@ == self@.data,
    {
        self.data.as_str()
    }
}

/// Holder of the single current protocol state.
///
/// Writes overwrite unconditionally: there is no compare-and-swap and no
/// history, so of two interleaved writers the last one wins.
pub trait TrackWifiState {
    spec fn current(&self) -> WifiState;

    fn change_to(&mut self, new_state: WifiState)
        ensures
            final(self).current() == new_state,
    ;

    fn get(&self) -> (r: WifiState)
        ensures
            r == self.current(),
    ;
}

/// The state store: one protocol state, `Ready` when created.
pub struct StateStore {
    state: WifiState,
}

impl StateStore {
    pub fn new() -> (r: Self)
        ensures
            r.current() == WifiState::Ready,
    {
        StateStore { state: WifiState::Ready }
    }
}

impl TrackWifiState for StateStore {
    closed spec fn current(&self) -> WifiState {
        self.state
    }

    fn change_to(&mut self, new_state: WifiState) {
        self.state = new_state;
    }

    fn get(&self) -> (r: WifiState) {
        self.state
    }
}

/// Serial dispatcher: a first-in first-out queue of pending events and the
/// set of event kinds that have a handler.
pub struct EventLoop {
    pending: Vec<Event>,
    handlers: Vec<WifiEvent>,
}

impl EventLoop {
    /// The pending events, oldest first.
    pub closed spec fn queue(&self) -> Seq<EventView> {
        self.pending@.map_values(|e: Event| e@)
    }

    /// Whether events of kind `k` are dispatched rather than dropped.
    pub closed spec fn registered(&self, k: WifiEvent) -> bool {
        self.handlers@.contains(k)
    }

    pub fn new() -> (r: Self)
        ensures
            r.queue() == Seq::<EventView>::empty(),
            forall|k: WifiEvent| !r.registered(k),
    {
        EventLoop { pending: Vec::new(), handlers: Vec::new() }
    }

    /// Registers the handler of kind `event`.
    pub fn on(&mut self, event: WifiEvent)
        ensures
            final(self).queue() == old(self).queue(),
            forall|k: WifiEvent| #[trigger] final(self).registered(k) == (old(self).registered(k) || k == event),
    {
        if !self.is_registered(event) {
            self.handlers.push(event);
        }
        proof {
            assert forall|k: WifiEvent| #[trigger] self.registered(k) == (old(self).registered(k) || k == event) by {
                if k != event && self.handlers@.contains(k) {
                    let i = choose|i: int| 0 <= i < self.handlers@.len() && self.handlers@[i] == k;
                    assert(old(self).handlers@[i] == k);
                }
                if old(self).handlers@.contains(k) {
                    let i = choose|i: int| 0 <= i < old(self).handlers@.len() && old(self).handlers@[i] == k;
                    assert(self.handlers@[i] == k);
                }
                if k == event {
                    if !old(self).handlers@.contains(k) {
                        assert(self.handlers@[self.handlers@.len() - 1] == k);
                    }
                }
            }
        }
    }

    pub fn is_registered(&self, event: WifiEvent) -> (r: bool)
        ensures
            r == self.registered(event),
    {
        let mut i: usize = 0;
        while i < self.handlers.len()
            invariant
                i <= self.handlers@.len(),
                forall|j: int| 0 <= j < i ==> self.handlers@[j] != event,
            decreases self.handlers@.len() - i,
        {
            if self.handlers[i] == event {
                return true;
            }
            i = i + 1;
        }
        false
    }

    /// Appends `e` to the queue.
    pub fn send(&mut self, e: Event)
        ensures
            final(self).queue() == old(self).queue().push(e@),
            forall|k: WifiEvent| #[trigger] final(self).registered(k) == old(self).registered(k),
    {
        self.pending.push(e);
        proof {
            assert(self.queue() =~= old(self).queue().push(e@));
        }
    }

    /// Runs the handler of `event`'s kind in `state`; `None` when no handler
    /// of that kind is registered and the event is dropped.
    pub fn dispatch(&self, state: WifiState, event: &Event) -> (r: Option<Reaction>)
        ensures
            r.is_some() == self.registered(event@.kind),
            r.is_some() ==> r.unwrap()@ == reaction_spec(state, event@.kind, payload_bytes(event@)),
    {
        if self.is_registered(event.kind()) {
            Some(handle(state, event))
        } else {
            None
        }
    }

    /// Takes the oldest pending event off the queue.
    pub fn next_event(&mut self) -> (r: Option<Event>)
        ensures
            old(self).queue().len() == 0 ==> r.is_none() && final(self).queue() == old(self).queue(),
            old(self).queue().len() > 0 ==> r.is_some() && r.unwrap()@ == old(self).queue()[0]
                && final(self).queue() == old(self).queue().drop_first(),
            forall|k: WifiEvent| #[trigger] final(self).registered(k) == old(self).registered(k),
    {
        if self.pending.len() == 0 {
            None
        } else {
            let e = self.pending.remove(0);
            proof {
                assert(self.queue() =~= old(self).queue().drop_first());
            }
            Some(e)
        }
    }
}

} // verus!
