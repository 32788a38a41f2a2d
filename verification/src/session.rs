//! One client connection of the daemon, as a state machine.
//!
//! The connection's supervisor feeds it what happens (a line arrived, a
//! handler finished, the event bus delivered something, the peer went away)
//! and carries out the actions it answers with (send a line, start the event
//! forwarder, execute a request, tear down). The machine owns every decision:
//! the authentication gate, the correlation of responses by `id`, the permits
//! that bound the handlers running at once, and the order of teardown.

use crate::guarantees::{lemma_request_keeps_wf, lemma_step_keeps_wf};
use crate::json::json_contents;
use crate::rpc::{
    auth_token, build_error_response, build_ok_response, build_result_response, decode_line,
    decoded, error_line, ok_payload, params_view, parse_auth_token, result_line, result_response,
    Request, RequestView,
};
use crate::text::{str_eq, text_view};
use vstd::prelude::*;

verus! {

/// How many request handlers of one connection may run at once.
pub const MAX_IN_FLIGHT_RPC_PER_CONNECTION: usize = 32;

/// One permit of the connection's pool.
#[derive(Clone, Copy, Debug, PartialEq, Eq)]
pub enum Slot {
    /// Nobody holds the permit.
    Free,
    /// A handler holds it, for a request that carried this `id`.
    Busy { id: Option<u64> },
}

/// What the event bus hands to a subscriber.
#[derive(Clone, Debug, PartialEq)]
pub enum BusMessage {
    /// An event, already written as one line of JSON.
    Event(String),
    /// The subscriber fell behind and this many events were dropped.
    Lagged(u64),
    /// The bus is gone.
    Closed,
}

/// The mathematical value of a [`BusMessage`].
pub enum BusView {
    Event(Seq<char>),
    Lagged(u64),
    Closed,
}

impl View for BusMessage {
    type V = BusView;

    open spec fn view(&self) -> BusView {
        match self {
            BusMessage::Event(payload) => BusView::Event(payload@),
            BusMessage::Lagged(missed) => BusView::Lagged(*missed),
            BusMessage::Closed => BusView::Closed,
        }
    }
}

/// What happens to a connection.
#[derive(Debug, PartialEq)]
pub enum Event {
    /// The reader got a line from the peer.
    Line(String),
    /// The handler that held permit `slot` finished.
    Completed { slot: usize, outcome: Result<serde_json::Value, String> },
    /// The event bus delivered something to this connection's forwarder.
    Bus(BusMessage),
    /// The inbound stream ended.
    Disconnected,
}

/// The mathematical value of an [`Event`].
pub enum EventView {
    Line(Seq<char>),
    Completed { slot: nat, outcome: Result<Seq<char>, Seq<char>> },
    Bus(BusView),
    Disconnected,
}

/// The mathematical value of a handler's outcome.
pub open spec fn outcome_view(outcome: Result<serde_json::Value, String>) -> Result<
    Seq<char>,
    Seq<char>,
> {
    match outcome {
        Ok(value) => Ok(json_contents(value)),
        Err(message) => Err(message@),
    }
}

impl View for Event {
    type V = EventView;

    open spec fn view(&self) -> EventView {
        match self {
            Event::Line(line) => EventView::Line(line@),
            Event::Completed { slot, outcome } => EventView::Completed {
                slot: *slot as nat,
                outcome: outcome_view(*outcome),
            },
            Event::Bus(message) => EventView::Bus(message@),
            Event::Disconnected => EventView::Disconnected,
        }
    }
}

/// What the supervisor is to do.
#[derive(Clone, Debug, PartialEq)]
pub enum Action {
    /// Put this line on the outbound queue.
    Send(String),
    /// Subscribe to the event bus and start forwarding.
    StartForwarder,
    /// Run the request against the dispatch interface, holding permit `slot`,
    /// and report back with [`Event::Completed`].
    Execute { slot: usize, method: String, params: Option<serde_json::Value> },
    /// Drop the sending half of the outbound queue.
    CloseOutbound,
    /// Cancel the event forwarder.
    AbortForwarder,
    /// Cancel the writer.
    AbortWriter,
}

/// The mathematical value of an [`Action`].
pub enum ActionView {
    Send(Seq<char>),
    StartForwarder,
    Execute { slot: nat, method: Seq<char>, params: Option<Seq<char>> },
    CloseOutbound,
    AbortForwarder,
    AbortWriter,
}

impl View for Action {
    type V = ActionView;

    open spec fn view(&self) -> ActionView {
        match self {
            Action::Send(line) => ActionView::Send(line@),
            Action::StartForwarder => ActionView::StartForwarder,
            Action::Execute { slot, method, params } => ActionView::Execute {
                slot: *slot as nat,
                method: method@,
                params: params_view(*params),
            },
            Action::CloseOutbound => ActionView::CloseOutbound,
            Action::AbortForwarder => ActionView::AbortForwarder,
            Action::AbortWriter => ActionView::AbortWriter,
        }
    }
}

/// The values of a list of actions.
pub open spec fn actions_of(actions: Seq<Action>) -> Seq<ActionView> {
    actions.map_values(|action: Action| action@)
}

/// The values of a list of requests.
pub open spec fn requests_of(requests: Seq<Request>) -> Seq<RequestView> {
    requests.map_values(|request: Request| request@)
}

/// The state of a connection.
pub struct ConnectionView {
    /// The token that the daemon was configured with.
    pub token: Option<Seq<char>>,
    /// Whether the peer has authenticated.
    pub authenticated: bool,
    /// Whether the event forwarder is running.
    pub forwarding: bool,
    /// Whether the inbound stream is still being read.
    pub open: bool,
    /// The permits.
    pub slots: Seq<Slot>,
    /// The requests that wait for a permit, oldest first.
    pub waiting: Seq<RequestView>,
}

/// The states that a connection can be in: without a configured token it is
/// authenticated; events are forwarded only to a peer that has authenticated
/// and is still there; an unauthenticated peer has nothing running or
/// waiting; and nothing waits while a permit is free.
pub open spec fn wf(c: ConnectionView) -> bool {
    &&& c.token is None ==> c.authenticated
    &&& c.forwarding ==> c.authenticated && c.open
    &&& !c.authenticated ==> c.waiting.len() == 0 && forall|i: int|
        0 <= i < c.slots.len() ==> c.slots[i] is Free
    &&& c.waiting.len() > 0 ==> forall|i: int| 0 <= i < c.slots.len() ==> c.slots[i] is Busy
}

/// The index of the first free permit, or `slots.len()` where all are held.
pub open spec fn first_free(slots: Seq<Slot>) -> nat
    decreases slots.len(),
{
    if slots.len() == 0 {
        0
    } else if slots[0] is Free {
        0
    } else {
        1 + first_free(slots.skip(1))
    }
}

/// How many permits are held.
pub open spec fn executing(slots: Seq<Slot>) -> nat
    decreases slots.len(),
{
    if slots.len() == 0 {
        0
    } else {
        executing(slots.drop_last()) + if slots.last() is Busy {
            1nat
        } else {
            0nat
        }
    }
}

/// A connection as it is accepted: authenticated from the start exactly where
/// no token is configured.
pub open spec fn initial(token: Option<Seq<char>>, limit: nat) -> ConnectionView {
    ConnectionView {
        token,
        authenticated: token is None,
        forwarding: token is None,
        open: true,
        slots: Seq::new(limit, |i: int| Slot::Free),
        waiting: Seq::empty(),
    }
}

/// What is to be done as a connection is accepted.
pub open spec fn initial_actions(token: Option<Seq<char>>) -> Seq<ActionView> {
    if token is None {
        seq![ActionView::StartForwarder]
    } else {
        Seq::empty()
    }
}

/// The error response to a request, if it is owed one.
pub open spec fn error_reply(id: Option<u64>, message: Seq<char>) -> Seq<ActionView> {
    match id {
        Some(n) => seq![ActionView::Send(error_line(n, message))],
        None => Seq::empty(),
    }
}

/// The response to a successful `auth`, if it is owed one.
pub open spec fn ok_reply(id: Option<u64>) -> Seq<ActionView> {
    match id {
        Some(n) => seq![ActionView::Send(result_response(n, ok_payload()))],
        None => Seq::empty(),
    }
}

/// The response that reports a handler's outcome, if the request is owed one.
pub open spec fn outcome_reply(id: Option<u64>, outcome: Result<Seq<char>, Seq<char>>) -> Seq<
    ActionView,
> {
    match id {
        Some(n) => match outcome {
            Ok(contents) => seq![ActionView::Send(result_line(n, contents))],
            Err(message) => seq![ActionView::Send(error_line(n, message))],
        },
        None => Seq::empty(),
    }
}

/// Whether the peer presented the configured token: it presented a token,
/// one is configured, and the two are the same characters. A token that is
/// missing matches nothing, whatever is configured.
pub open spec fn presents_token(configured: Option<Seq<char>>, provided: Option<Seq<char>>) -> bool {
    match provided {
        Some(given) => configured == Some(given),
        None => false,
    }
}

/// An `auth` attempt: it succeeds where the peer presents the configured
/// token, and is answered with `invalid token` in every other case, the
/// connection staying as it was. Nothing comes of it on a connection that is
/// closed or has authenticated already.
pub open spec fn step_auth(c: ConnectionView, id: Option<u64>, provided: Option<Seq<char>>) -> (
    ConnectionView,
    Seq<ActionView>,
) {
    if !c.open || c.authenticated {
        (c, Seq::empty())
    } else if !presents_token(c.token, provided) {
        (c, error_reply(id, "invalid token"@))
    } else {
        (
            ConnectionView { authenticated: true, forwarding: true, ..c },
            ok_reply(id).push(ActionView::StartForwarder),
        )
    }
}

/// A request of an authenticated peer: it is executed at once where a permit
/// is free, and waits in line where none is.
pub open spec fn step_schedule(c: ConnectionView, request: RequestView) -> (
    ConnectionView,
    Seq<ActionView>,
) {
    let slot = first_free(c.slots);
    if slot < c.slots.len() {
        (
            ConnectionView { slots: c.slots.update(slot as int, Slot::Busy { id: request.id }), ..c },
            seq![
                ActionView::Execute { slot, method: request.method, params: request.params },
            ],
        )
    } else {
        (ConnectionView { waiting: c.waiting.push(request), ..c }, Seq::empty())
    }
}

/// A request arrives.
pub open spec fn step_request(c: ConnectionView, request: RequestView) -> (
    ConnectionView,
    Seq<ActionView>,
) {
    if !c.open {
        (c, Seq::empty())
    } else if !c.authenticated {
        if request.method != "auth"@ {
            (c, error_reply(request.id, "unauthorized"@))
        } else {
            step_auth(c, request.id, auth_token(request.params))
        }
    } else {
        step_schedule(c, request)
    }
}

/// A line arrives: one that holds no request changes nothing.
pub open spec fn step_line(c: ConnectionView, line: Seq<char>) -> (
    ConnectionView,
    Seq<ActionView>,
) {
    match decoded(line) {
        Some(request) => step_request(c, request),
        None => (c, Seq::empty()),
    }
}

/// The handler that held permit `slot` finished: the response goes out if one
/// is owed and the connection is still open, and the permit passes to the
/// oldest waiting request or becomes free.
pub open spec fn step_completion(
    c: ConnectionView,
    slot: nat,
    outcome: Result<Seq<char>, Seq<char>>,
) -> (ConnectionView, Seq<ActionView>) {
    if slot < c.slots.len() && c.slots[slot as int] is Busy {
        let reply = if c.open {
            outcome_reply(c.slots[slot as int]->id, outcome)
        } else {
            Seq::empty()
        };
        if c.waiting.len() > 0 {
            let next = c.waiting[0];
            (
                ConnectionView {
                    slots: c.slots.update(slot as int, Slot::Busy { id: next.id }),
                    waiting: c.waiting.skip(1),
                    ..c
                },
                reply.push(
                    ActionView::Execute { slot, method: next.method, params: next.params },
                ),
            )
        } else {
            (ConnectionView { slots: c.slots.update(slot as int, Slot::Free), ..c }, reply)
        }
    } else {
        (c, Seq::empty())
    }
}

/// The event bus delivers something: an event goes out as it is, a gap is
/// passed over, and the end of the bus ends the forwarding. Nothing reaches a
/// connection whose forwarder is not running.
pub open spec fn step_bus(c: ConnectionView, message: BusView) -> (
    ConnectionView,
    Seq<ActionView>,
) {
    if c.forwarding {
        match message {
            BusView::Event(payload) => (c, seq![ActionView::Send(payload)]),
            BusView::Lagged(_) => (c, Seq::empty()),
            BusView::Closed => (ConnectionView { forwarding: false, ..c }, Seq::empty()),
        }
    } else {
        (c, Seq::empty())
    }
}

/// The inbound stream ends: the outbound queue is closed first, so that the
/// writer drains it, then the forwarder is cancelled if it runs, then the
/// writer.
pub open spec fn step_disconnect(c: ConnectionView) -> (ConnectionView, Seq<ActionView>) {
    if c.open {
        (
            ConnectionView { open: false, forwarding: false, ..c },
            if c.forwarding {
                seq![ActionView::CloseOutbound, ActionView::AbortForwarder, ActionView::AbortWriter]
            } else {
                seq![ActionView::CloseOutbound, ActionView::AbortWriter]
            },
        )
    } else {
        (c, Seq::empty())
    }
}

/// One step of the machine.
pub open spec fn step(c: ConnectionView, event: EventView) -> (ConnectionView, Seq<ActionView>) {
    match event {
        EventView::Line(line) => step_line(c, line),
        EventView::Completed { slot, outcome } => step_completion(c, slot, outcome),
        EventView::Bus(message) => step_bus(c, message),
        EventView::Disconnected => step_disconnect(c),
    }
}

/// A connection of the daemon.
pub struct Connection {
    token: Option<String>,
    authenticated: bool,
    forwarding: bool,
    open: bool,
    slots: Vec<Slot>,
    waiting: Vec<Request>,
}

impl View for Connection {
    type V = ConnectionView;

    closed spec fn view(&self) -> ConnectionView {
        ConnectionView {
            token: match self.token {
                Some(t) => Some(t@),
                None => None,
            },
            authenticated: self.authenticated,
            forwarding: self.forwarding,
            open: self.open,
            slots: self.slots@,
            waiting: requests_of(self.waiting@),
        }
    }
}

/// Appends the response to the actions, where there is one.
fn push_reply(actions: &mut Vec<Action>, response: Option<String>)
    ensures
        actions_of(final(actions)@) == match response {
            Some(line) => actions_of(old(actions)@).push(ActionView::Send(line@)),
            None => actions_of(old(actions)@),
        },
{
    match response {
        Some(line) => {
            actions.push(Action::Send(line));
        },
        None => {},
    }
}

impl Connection {
    /// Accepts a connection of a daemon configured with `token`, with `limit`
    /// permits. The actions are what is to be done at once.
    pub fn open(token: Option<String>, limit: usize) -> (accepted: (Connection, Vec<Action>))
        ensures
            accepted.0@ == initial(text_view(token), limit as nat),
            actions_of(accepted.1@) == initial_actions(text_view(token)),
            wf(accepted.0@),
    {
        let mut slots: Vec<Slot> = Vec::new();
        let mut i: usize = 0;
        while i < limit
            invariant
                i <= limit,
                slots@ == Seq::new(i as nat, |k: int| Slot::Free),
            decreases limit - i,
        {
            slots.push(Slot::Free);
            i += 1;
        }
        let mut actions: Vec<Action> = Vec::new();
        let authenticated = token.is_none();
        if authenticated {
            actions.push(Action::StartForwarder);
        }
        let connection = Connection {
            token,
            authenticated,
            forwarding: authenticated,
            open: true,
            slots,
            waiting: Vec::new(),
        };
        assert(connection@.waiting =~= Seq::empty());
        (connection, actions)
    }

    /// Whether the peer has authenticated.
    pub fn is_authenticated(&self) -> (yes: bool)
        ensures
            yes == self@.authenticated,
    {
        self.authenticated
    }

    /// Whether the event forwarder is running.
    pub fn is_forwarding(&self) -> (yes: bool)
        ensures
            yes == self@.forwarding,
    {
        self.forwarding
    }

    /// Whether the inbound stream is still being read.
    pub fn is_open(&self) -> (yes: bool)
        ensures
            yes == self@.open,
    {
        self.open
    }

    /// How many permits the connection has.
    pub fn limit(&self) -> (permits: usize)
        ensures
            permits == self@.slots.len(),
    {
        self.slots.len()
    }

    /// How many handlers are running.
    pub fn in_flight(&self) -> (held: usize)
        ensures
            held == executing(self@.slots),
    {
        let mut held: usize = 0;
        let mut i: usize = 0;
        while i < self.slots.len()
            invariant
                i <= self.slots.len(),
                held <= i,
                held == executing(self.slots@.take(i as int)),
            decreases self.slots.len() - i,
        {
            assert(self.slots@.take(i + 1).drop_last() =~= self.slots@.take(i as int));
            if let Slot::Busy { .. } = self.slots[i] {
                held += 1;
            }
            i += 1;
        }
        assert(self.slots@.take(self.slots.len() as int) =~= self.slots@);
        held
    }

    /// How many requests wait for a permit.
    pub fn backlog(&self) -> (waiting: usize)
        ensures
            waiting == self@.waiting.len(),
    {
        self.waiting.len()
    }

    /// The index of the first free permit, or the number of permits.
    fn free_slot(&self) -> (slot: usize)
        ensures
            slot == first_free(self@.slots),
            slot <= self@.slots.len(),
    {
        let mut slot: usize = 0;
        assert(self.slots@.skip(0) =~= self.slots@);
        while slot < self.slots.len() && !matches!(self.slots[slot], Slot::Free)
            invariant
                slot <= self.slots.len(),
                first_free(self.slots@) == slot + first_free(self.slots@.skip(slot as int)),
            decreases self.slots.len() - slot,
        {
            assert(self.slots@.skip(slot as int).skip(1) =~= self.slots@.skip(slot + 1));
            slot += 1;
        }
        slot
    }

    /// An `auth` attempt with the token that the peer presents.
    pub fn on_auth(&mut self, id: Option<u64>, provided: Option<String>) -> (actions: Vec<Action>)
        ensures
            (final(self)@, actions_of(actions@)) == step_auth(old(self)@, id, text_view(provided)),
            wf(old(self)@) ==> wf(final(self)@),
    {
        let mut actions: Vec<Action> = Vec::new();
        if !self.open || self.authenticated {
            return actions;
        }
        let matches = match (&self.token, &provided) {
            (Some(expected), Some(given)) => str_eq(expected.as_str(), given.as_str()),
            _ => false,
        };
        if !matches {
            push_reply(&mut actions, build_error_response(id, "invalid token"));
            return actions;
        }
        self.authenticated = true;
        self.forwarding = true;
        push_reply(&mut actions, build_ok_response(id));
        let ghost before = actions_of(actions@);
        actions.push(Action::StartForwarder);
        assert(actions_of(actions@) =~= before.push(ActionView::StartForwarder));
        actions
    }

    /// A request of a peer that has authenticated.
    fn schedule(&mut self, request: Request) -> (actions: Vec<Action>)
        ensures
            (final(self)@, actions_of(actions@)) == step_schedule(old(self)@, request@),
    {
        let mut actions: Vec<Action> = Vec::new();
        let slot = self.free_slot();
        if slot < self.slots.len() {
            self.slots.set(slot, Slot::Busy { id: request.id });
            actions.push(Action::Execute { slot, method: request.method, params: request.params });
        } else {
            let ghost before = requests_of(self.waiting@);
            self.waiting.push(request);
            assert(requests_of(self.waiting@) =~= before.push(request@));
        }
        actions
    }

    /// A request arrives.
    pub fn on_request(&mut self, request: Request) -> (actions: Vec<Action>)
        ensures
            (final(self)@, actions_of(actions@)) == step_request(old(self)@, request@),
            wf(old(self)@) ==> wf(final(self)@),
    {
        proof {
            if wf(self@) {
                lemma_request_keeps_wf(self@, request@);
            }
        }
        if !self.open {
            let actions: Vec<Action> = Vec::new();
            return actions;
        }
        if !self.authenticated {
            if !str_eq(request.method.as_str(), "auth") {
                let mut actions: Vec<Action> = Vec::new();
                push_reply(&mut actions, build_error_response(request.id, "unauthorized"));
                return actions;
            }
            let provided = parse_auth_token(&request.params);
            return self.on_auth(request.id, provided);
        }
        self.schedule(request)
    }

    /// A line arrives from the peer.
    pub fn on_line(&mut self, line: &str) -> (actions: Vec<Action>)
        ensures
            (final(self)@, actions_of(actions@)) == step_line(old(self)@, line@),
            wf(old(self)@) ==> wf(final(self)@),
    {
        match decode_line(line) {
            Some(request) => self.on_request(request),
            None => {
                let actions: Vec<Action> = Vec::new();
                actions
            },
        }
    }

    /// The handler that held permit `slot` finished with `outcome`.
    pub fn on_completion(&mut self, slot: usize, outcome: Result<serde_json::Value, String>) -> (actions:
        Vec<Action>)
        ensures
            (final(self)@, actions_of(actions@)) == step_completion(
                old(self)@,
                slot as nat,
                outcome_view(outcome),
            ),
            wf(old(self)@) ==> wf(final(self)@),
    {
        proof {
            if wf(self@) {
                lemma_step_keeps_wf(
                    self@,
                    EventView::Completed { slot: slot as nat, outcome: outcome_view(outcome) },
                );
            }
        }
        let mut actions: Vec<Action> = Vec::new();
        if slot >= self.slots.len() {
            return actions;
        }
        let id = match self.slots[slot] {
            Slot::Busy { id } => id,
            Slot::Free => {
                return actions;
            },
        };
        if self.open {
            let response = match &outcome {
                Ok(value) => build_result_response(id, value),
                Err(message) => build_error_response(id, message.as_str()),
            };
            push_reply(&mut actions, response);
        }
        if self.waiting.len() > 0 {
            let ghost before = requests_of(self.waiting@);
            let next = self.waiting.remove(0);
            assert(requests_of(self.waiting@) =~= before.skip(1));
            self.slots.set(slot, Slot::Busy { id: next.id });
            let ghost sent = actions_of(actions@);
            let action = Action::Execute { slot, method: next.method, params: next.params };
            actions.push(action);
            assert(actions_of(actions@) =~= sent.push(action@));
        } else {
            self.slots.set(slot, Slot::Free);
        }
        actions
    }

    /// The event bus delivers something to this connection.
    pub fn on_bus(&mut self, message: BusMessage) -> (actions: Vec<Action>)
        ensures
            (final(self)@, actions_of(actions@)) == step_bus(old(self)@, message@),
            wf(old(self)@) ==> wf(final(self)@),
    {
        let mut actions: Vec<Action> = Vec::new();
        if self.forwarding {
            match message {
                BusMessage::Event(payload) => {
                    actions.push(Action::Send(payload));
                },
                BusMessage::Lagged(_) => {},
                BusMessage::Closed => {
                    self.forwarding = false;
                },
            }
        }
        actions
    }

    /// The inbound stream ended.
    pub fn on_disconnect(&mut self) -> (actions: Vec<Action>)
        ensures
            (final(self)@, actions_of(actions@)) == step_disconnect(old(self)@),
            wf(old(self)@) ==> wf(final(self)@),
    {
        let mut actions: Vec<Action> = Vec::new();
        if self.open {
            actions.push(Action::CloseOutbound);
            if self.forwarding {
                actions.push(Action::AbortForwarder);
            }
            actions.push(Action::AbortWriter);
            self.open = false;
            self.forwarding = false;
        }
        actions
    }

    /// One step of the machine.
    pub fn step(&mut self, event: Event) -> (actions: Vec<Action>)
        ensures
            (final(self)@, actions_of(actions@)) == step(old(self)@, event@),
            wf(old(self)@) ==> wf(final(self)@),
    {
        match event {
            Event::Line(line) => self.on_line(line.as_str()),
            Event::Completed { slot, outcome } => self.on_completion(slot, outcome),
            Event::Bus(message) => self.on_bus(message),
            Event::Disconnected => self.on_disconnect(),
        }
    }
}

} // verus!
