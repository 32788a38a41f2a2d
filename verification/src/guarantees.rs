//! What holds of every connection, whatever happens to it.
//!
//! The statements are about the machine of [`crate::session`]: about one step
//! of it, or about a whole history of events applied one after the other.

use crate::rpc::{auth_token, decoded, error_line, RequestView};
use crate::session::{
    executing, first_free, initial, outcome_reply, presents_token, step, step_completion,
    step_request,
    wf, ActionView, BusView, ConnectionView, EventView, Slot,
};
use vstd::prelude::*;

verus! {

/// The state after a history of events, and everything the machine asked for
/// on the way, in order.
pub open spec fn run(c: ConnectionView, events: Seq<EventView>) -> (
    ConnectionView,
    Seq<ActionView>,
)
    decreases events.len(),
{
    if events.len() == 0 {
        (c, Seq::empty())
    } else {
        let (before, done) = run(c, events.drop_last());
        let (after, more) = step(before, events.last());
        (after, done + more)
    }
}

/// The lines that a list of actions sends, in order.
pub open spec fn sent(actions: Seq<ActionView>) -> Seq<Seq<char>>
    decreases actions.len(),
{
    if actions.len() == 0 {
        Seq::empty()
    } else {
        match actions.last() {
            ActionView::Send(line) => sent(actions.drop_last()).push(line),
            _ => sent(actions.drop_last()),
        }
    }
}

/// How many handlers a list of actions starts.
pub open spec fn started(actions: Seq<ActionView>) -> nat
    decreases actions.len(),
{
    if actions.len() == 0 {
        0
    } else {
        started(actions.drop_last()) + if actions.last() is Execute {
            1nat
        } else {
            0nat
        }
    }
}

/// How often a list of actions starts the event forwarder.
pub open spec fn forwarder_starts(actions: Seq<ActionView>) -> nat
    decreases actions.len(),
{
    if actions.len() == 0 {
        0
    } else {
        forwarder_starts(actions.drop_last()) + if actions.last() is StartForwarder {
            1nat
        } else {
            0nat
        }
    }
}

/// The payloads of the events among what the bus delivered, in order.
pub open spec fn payloads(messages: Seq<BusView>) -> Seq<Seq<char>>
    decreases messages.len(),
{
    if messages.len() == 0 {
        Seq::empty()
    } else {
        match messages.last() {
            BusView::Event(payload) => payloads(messages.drop_last()).push(payload),
            _ => payloads(messages.drop_last()),
        }
    }
}

/// The deliveries as events of the connection.
pub open spec fn deliveries(messages: Seq<BusView>) -> Seq<EventView> {
    messages.map_values(|message: BusView| EventView::Bus(message))
}

/// An action that a peer can bring about before it has authenticated: the
/// refusal of a request, or a step of the teardown.
pub open spec fn is_refusal(action: ActionView) -> bool {
    match action {
        ActionView::Send(line) => exists|id: u64|
            line == #[trigger] error_line(id, "unauthorized"@) || line == #[trigger] error_line(
                id,
                "invalid token"@,
            ),
        ActionView::CloseOutbound => true,
        ActionView::AbortWriter => true,
        _ => false,
    }
}

/// Whether the event is an `auth` request that presents the configured
/// token.
pub open spec fn is_valid_auth(c: ConnectionView, event: EventView) -> bool {
    event matches EventView::Line(line) && decoded(line) matches Some(request) && request.method
        == "auth"@ && presents_token(c.token, auth_token(request.params))
}

/// A connection is accepted in one of the states it can be in.
pub proof fn lemma_initial_wf(token: Option<Seq<char>>, limit: nat)
    ensures
        wf(initial(token, limit)),
{
}

/// No more permits are held than there are.
pub proof fn lemma_executing_bound(slots: Seq<Slot>)
    ensures
        executing(slots) <= slots.len(),
    decreases slots.len(),
{
    if slots.len() > 0 {
        lemma_executing_bound(slots.drop_last());
    }
}

/// What `first_free` finds: a free permit with none before it, or that none
/// is free.
pub proof fn lemma_first_free(slots: Seq<Slot>)
    ensures
        first_free(slots) <= slots.len(),
        first_free(slots) < slots.len() ==> slots[first_free(slots) as int] is Free,
        forall|i: int| 0 <= i < first_free(slots) ==> slots[i] is Busy,
    decreases slots.len(),
{
    if slots.len() > 0 && !(slots[0] is Free) {
        let rest = slots.skip(1);
        lemma_first_free(rest);
        assert forall|i: int| 0 <= i < first_free(slots) implies slots[i] is Busy by {
            if i > 0 {
                assert(rest[i - 1] == slots[i]);
            }
        }
    }
}

/// A step leads from a state the connection can be in to another, and
/// changes neither the configured token nor the number of permits.
pub proof fn lemma_step_keeps_wf(c: ConnectionView, event: EventView)
    requires
        wf(c),
    ensures
        wf(step(c, event).0),
        step(c, event).0.token == c.token,
        step(c, event).0.slots.len() == c.slots.len(),
{
    lemma_first_free(c.slots);
}

/// A request leads from a state the connection can be in to another.
pub proof fn lemma_request_keeps_wf(c: ConnectionView, request: RequestView)
    requires
        wf(c),
    ensures
        wf(step_request(c, request).0),
{
    lemma_first_free(c.slots);
}

/// A step never changes the number of permits, in whatever state.
pub proof fn lemma_step_keeps_limit(c: ConnectionView, event: EventView)
    ensures
        step(c, event).0.slots.len() == c.slots.len(),
{
    lemma_first_free(c.slots);
}

/// Every history leads from a state the connection can be in to another.
pub proof fn lemma_run_keeps_wf(c: ConnectionView, events: Seq<EventView>)
    requires
        wf(c),
    ensures
        wf(run(c, events).0),
        run(c, events).0.token == c.token,
        run(c, events).0.slots.len() == c.slots.len(),
    decreases events.len(),
{
    if events.len() > 0 {
        lemma_run_keeps_wf(c, events.drop_last());
        lemma_step_keeps_wf(run(c, events.drop_last()).0, events.last());
    }
}

/// At every instant of every history, the handlers of one connection that run
/// at once are at most as many as the connection has permits.
pub proof fn lemma_in_flight_bounded(c: ConnectionView, events: Seq<EventView>)
    ensures
        run(c, events).0.slots.len() == c.slots.len(),
        executing(run(c, events).0.slots) <= c.slots.len(),
    decreases events.len(),
{
    if events.len() > 0 {
        lemma_in_flight_bounded(c, events.drop_last());
        lemma_step_keeps_limit(run(c, events.drop_last()).0, events.last());
    }
    lemma_executing_bound(run(c, events).0.slots);
}

/// A handler is started only on a permit that nobody holds, or on the one
/// that the finished handler hands over; the permit is held from then on.
pub proof fn lemma_execute_takes_permit(c: ConnectionView, event: EventView, k: int)
    requires
        0 <= k < step(c, event).1.len(),
        step(c, event).1[k] is Execute,
    ensures
        ({
            let slot = step(c, event).1[k]->slot;
            &&& slot < c.slots.len()
            &&& step(c, event).0.slots[slot as int] is Busy
            &&& c.slots[slot as int] is Free || (event matches EventView::Completed {
                slot: finished,
                ..
            } && finished == slot)
        }),
{
    lemma_first_free(c.slots);
}

/// A permit stays with its handler until that handler finishes: no other
/// event takes it away or gives it to another request.
pub proof fn lemma_permit_held(c: ConnectionView, event: EventView, slot: int)
    requires
        0 <= slot < c.slots.len(),
        c.slots[slot] is Busy,
        !(event matches EventView::Completed { slot: finished, .. } && finished == slot),
    ensures
        step(c, event).0.slots[slot] == c.slots[slot],
{
    lemma_first_free(c.slots);
}

/// No event takes authentication away.
pub proof fn lemma_step_keeps_authentication(c: ConnectionView, event: EventView)
    requires
        c.authenticated,
    ensures
        step(c, event).0.authenticated,
{
    lemma_first_free(c.slots);
}

/// Authentication does not revert.
pub proof fn lemma_authentication_is_monotonic(c: ConnectionView, events: Seq<EventView>)
    requires
        c.authenticated,
    ensures
        run(c, events).0.authenticated,
    decreases events.len(),
{
    if events.len() > 0 {
        lemma_authentication_is_monotonic(c, events.drop_last());
        lemma_step_keeps_authentication(run(c, events.drop_last()).0, events.last());
    }
}

/// One step of a peer that has not authenticated: unless the event is an
/// `auth` request with the configured token, the peer stays unauthenticated,
/// no handler is started, no event is forwarded, and what is sent is the
/// refusal of the request. Only such an `auth` request authenticates.
pub proof fn lemma_gate_step(c: ConnectionView, event: EventView)
    requires
        wf(c),
        !c.authenticated,
    ensures
        step(c, event).0.authenticated <==> c.open && is_valid_auth(c, event),
        !step(c, event).0.authenticated ==> forall|k: int|
            0 <= k < step(c, event).1.len() ==> is_refusal(#[trigger] step(c, event).1[k]),
        started(step(c, event).1) == 0,
{
    let actions = step(c, event).1;
    if !step(c, event).0.authenticated {
        // What is sent, if anything, is the one refusal that the line asks for.
        assert forall|k: int| 0 <= k < actions.len() implies is_refusal(#[trigger] actions[k]) by {
            match event {
                EventView::Line(line) => {
                    let id = decoded(line)->0.id->0;
                    assert(actions[k] == ActionView::Send(error_line(id, "unauthorized"@))
                        || actions[k] == ActionView::Send(error_line(id, "invalid token"@)));
                },
                _ => {},
            }
        }
    }
    lemma_started_none(actions);
}

/// A token that is not presented opens nothing: an `auth` request without a
/// token that is a string leaves the peer unauthenticated, whatever token is
/// configured, the empty one too, and is answered with `invalid token` where
/// it carried an `id`.
pub proof fn lemma_missing_token_is_refused(c: ConnectionView, line: Seq<char>)
    requires
        c.open,
        !c.authenticated,
        decoded(line) matches Some(request) && request.method == "auth"@ && auth_token(
            request.params,
        ) is None,
    ensures
        step(c, EventView::Line(line)) == (
            c,
            crate::session::error_reply(decoded(line)->0.id, "invalid token"@),
        ),
{
}

/// A list without an `Execute` starts no handler.
proof fn lemma_started_none(actions: Seq<ActionView>)
    requires
        forall|k: int| 0 <= k < actions.len() ==> !(actions[k] is Execute),
    ensures
        started(actions) == 0,
    decreases actions.len(),
{
    if actions.len() > 0 {
        lemma_started_none(actions.drop_last());
    }
}

/// Before a successful `auth`, nothing but refusals: in a history that leaves
/// the peer unauthenticated, every action is the refusal of a request or a
/// step of the teardown, and no handler was ever started.
pub proof fn lemma_gate(c: ConnectionView, events: Seq<EventView>)
    requires
        wf(c),
        !c.authenticated,
        !run(c, events).0.authenticated,
    ensures
        forall|k: int|
            0 <= k < run(c, events).1.len() ==> is_refusal(#[trigger] run(c, events).1[k]),
        started(run(c, events).1) == 0,
    decreases events.len(),
{
    if events.len() > 0 {
        let before = run(c, events.drop_last());
        if before.0.authenticated {
            lemma_step_keeps_authentication(before.0, events.last());
        }
        lemma_gate(c, events.drop_last());
        lemma_run_keeps_wf(c, events.drop_last());
        lemma_gate_step(before.0, events.last());
        lemma_started_sum(before.1, step(before.0, events.last()).1);
    }
}

/// Handlers started by two lists of actions, one after the other.
pub proof fn lemma_started_sum(first: Seq<ActionView>, second: Seq<ActionView>)
    ensures
        started(first + second) == started(first) + started(second),
    decreases second.len(),
{
    if second.len() > 0 {
        assert((first + second).drop_last() =~= first + second.drop_last());
        lemma_started_sum(first, second.drop_last());
    }
}

/// Lines sent by two lists of actions, one after the other.
pub proof fn lemma_sent_sum(first: Seq<ActionView>, second: Seq<ActionView>)
    ensures
        sent(first + second) == sent(first) + sent(second),
    decreases second.len(),
{
    if second.len() > 0 {
        assert((first + second).drop_last() =~= first + second.drop_last());
        lemma_sent_sum(first, second.drop_last());
    }
}

/// Starts of the forwarder in two lists of actions, one after the other.
pub proof fn lemma_forwarder_starts_sum(first: Seq<ActionView>, second: Seq<ActionView>)
    ensures
        forwarder_starts(first + second) == forwarder_starts(first) + forwarder_starts(second),
    decreases second.len(),
{
    if second.len() > 0 {
        assert((first + second).drop_last() =~= first + second.drop_last());
        lemma_forwarder_starts_sum(first, second.drop_last());
    }
}

/// One event answers at most one request: a step sends at most one line.
pub proof fn lemma_at_most_one_line(c: ConnectionView, event: EventView)
    ensures
        sent(step(c, event).1).len() <= 1,
{
    lemma_first_free(c.slots);
    reveal_with_fuel(sent, 4);
}

/// A request is answered when its handler finishes, once: the response is
/// sent if the request carried an `id` and the connection is still open, and
/// the permit then belongs to the next request or to nobody. Until then the
/// request's arrival sent nothing.
pub proof fn lemma_response_on_completion(
    c: ConnectionView,
    slot: nat,
    outcome: Result<Seq<char>, Seq<char>>,
)
    requires
        slot < c.slots.len(),
        c.slots[slot as int] is Busy,
    ensures
        sent(step_completion(c, slot, outcome).1) == if c.open {
            sent(outcome_reply(c.slots[slot as int]->id, outcome))
        } else {
            Seq::<Seq<char>>::empty()
        },
        sent(outcome_reply(c.slots[slot as int]->id, outcome)).len() == if c.slots[slot as int]->id
            is Some {
            1nat
        } else {
            0nat
        },
        c.waiting.len() == 0 ==> step_completion(c, slot, outcome).0.slots[slot as int] is Free,
        c.waiting.len() > 0 ==> step_completion(c, slot, outcome).0.slots[slot as int]
            == (Slot::Busy { id: c.waiting[0].id }),
{
    reveal_with_fuel(sent, 4);
}

/// Never two responses to one request: once a handler's end was reported, a
/// second report for the same permit is passed over, unless the permit went
/// to another request in between.
pub proof fn lemma_completion_is_final(
    c: ConnectionView,
    slot: nat,
    first: Result<Seq<char>, Seq<char>>,
    second: Result<Seq<char>, Seq<char>>,
)
    requires
        c.waiting.len() == 0,
    ensures
        step_completion(step_completion(c, slot, first).0, slot, second) == (
            step_completion(c, slot, first).0,
            Seq::<ActionView>::empty(),
        ),
{
}

/// A request that is executed sends nothing when it arrives: its one
/// response, if any, waits for the handler.
pub proof fn lemma_arrival_is_silent(c: ConnectionView, line: Seq<char>)
    requires
        c.authenticated,
    ensures
        sent(step(c, EventView::Line(line)).1).len() == 0,
{
    lemma_first_free(c.slots);
    reveal_with_fuel(sent, 3);
}

/// A request without an `id` is never answered: neither when it arrives, in
/// whatever state, nor when its handler finishes, however that ended.
pub proof fn lemma_no_id_no_response(
    c: ConnectionView,
    line: Seq<char>,
    slot: nat,
    outcome: Result<Seq<char>, Seq<char>>,
)
    ensures
        decoded(line) matches Some(request) && request.id is None ==> sent(
            step(c, EventView::Line(line)).1,
        ).len() == 0,
        slot < c.slots.len() && c.slots[slot as int] == (Slot::Busy { id: None }) ==> sent(
            step(c, EventView::Completed { slot, outcome }).1,
        ).len() == 0,
{
    lemma_first_free(c.slots);
    reveal_with_fuel(sent, 3);
}

/// The forwarder changes no order and makes nothing up: while it runs, what
/// is sent for a run of deliveries is the payloads of the events among them,
/// in the order in which the bus delivered them. A gap drops events and does
/// not end the forwarding.
pub proof fn lemma_events_keep_order(c: ConnectionView, messages: Seq<BusView>)
    requires
        c.forwarding,
        forall|i: int| 0 <= i < messages.len() ==> !(messages[i] is Closed),
    ensures
        run(c, deliveries(messages)).0 == c,
        sent(run(c, deliveries(messages)).1) == payloads(messages),
    decreases messages.len(),
{
    if messages.len() > 0 {
        let earlier = messages.drop_last();
        assert(deliveries(messages).drop_last() =~= deliveries(earlier));
        lemma_events_keep_order(c, earlier);
        let (before, done) = run(c, deliveries(earlier));
        let more = step(before, EventView::Bus(messages.last())).1;
        lemma_sent_sum(done, more);
        reveal_with_fuel(sent, 2);
    }
}

/// Nothing of the bus reaches a peer that has not authenticated.
pub proof fn lemma_no_events_before_auth(c: ConnectionView, message: BusView)
    requires
        wf(c),
        !c.authenticated,
    ensures
        step(c, EventView::Bus(message)) == (c, Seq::<ActionView>::empty()),
{
}

/// The forwarder is started in the step that authenticates the peer, and in
/// no other.
pub proof fn lemma_forwarder_start_step(c: ConnectionView, event: EventView)
    ensures
        forwarder_starts(step(c, event).1) == if !c.authenticated && step(c, event).0.authenticated {
            1nat
        } else {
            0nat
        },
{
    lemma_first_free(c.slots);
    reveal_with_fuel(forwarder_starts, 4);
}

/// The forwarder is started exactly once: at most once in any history, and
/// not at all in the history of a connection that was accepted as
/// authenticated, whose forwarder starts with it.
pub proof fn lemma_forwarder_starts_once(c: ConnectionView, events: Seq<EventView>)
    ensures
        forwarder_starts(run(c, events).1) == if !c.authenticated && run(c, events).0.authenticated {
            1nat
        } else {
            0nat
        },
    decreases events.len(),
{
    if events.len() > 0 {
        let (before, done) = run(c, events.drop_last());
        lemma_forwarder_starts_once(c, events.drop_last());
        lemma_forwarder_start_step(before, events.last());
        lemma_forwarder_starts_sum(done, step(before, events.last()).1);
        if before.authenticated {
            lemma_step_keeps_authentication(before, events.last());
        }
        if c.authenticated {
            lemma_authentication_is_monotonic(c, events.drop_last());
        }
    }
}

/// How many of the permits are held for a request that expects a response.
pub open spec fn owed_by_slots(slots: Seq<Slot>) -> nat
    decreases slots.len(),
{
    if slots.len() == 0 {
        0
    } else {
        owed_by_slots(slots.drop_last()) + slot_owes(slots.last())
    }
}

/// Whether the permit is held for a request that expects a response, as a
/// number.
pub open spec fn slot_owes(slot: Slot) -> nat {
    match slot {
        Slot::Busy { id: Some(_) } => 1,
        _ => 0,
    }
}

/// Whether the request expects a response, as a number.
pub open spec fn request_owes(request: RequestView) -> nat {
    if request.id is Some {
        1
    } else {
        0
    }
}

/// How many of the waiting requests expect a response.
pub open spec fn owed_by_waiting(waiting: Seq<RequestView>) -> nat
    decreases waiting.len(),
{
    if waiting.len() == 0 {
        0
    } else {
        owed_by_waiting(waiting.drop_last()) + request_owes(waiting.last())
    }
}

/// How many responses the connection still owes: one for every request with
/// an `id` that runs or waits.
pub open spec fn owed(c: ConnectionView) -> nat {
    owed_by_slots(c.slots) + owed_by_waiting(c.waiting)
}

/// How many requests that expect a response the event hands to the
/// dispatcher: one, where it is a line with such a request from an
/// authenticated peer on an open connection.
pub open spec fn admitted_by(c: ConnectionView, event: EventView) -> nat {
    match event {
        EventView::Line(line) => if c.open && c.authenticated && decoded(line) is Some {
            request_owes(decoded(line)->0)
        } else {
            0
        },
        _ => 0,
    }
}

/// How many owed responses the event settles: one, where it reports the end
/// of a handler whose request expects a response.
pub open spec fn settled_by(c: ConnectionView, event: EventView) -> nat {
    match event {
        EventView::Completed { slot, .. } => if slot < c.slots.len() {
            slot_owes(c.slots[slot as int])
        } else {
            0
        },
        _ => 0,
    }
}

/// Replacing one permit changes what the permits owe by the difference.
pub proof fn lemma_owed_by_slots_update(slots: Seq<Slot>, at: int, slot: Slot)
    requires
        0 <= at < slots.len(),
    ensures
        owed_by_slots(slots.update(at, slot)) + slot_owes(slots[at]) == owed_by_slots(slots)
            + slot_owes(slot),
    decreases slots.len(),
{
    let changed = slots.update(at, slot);
    if at == slots.len() - 1 {
        assert(changed.drop_last() =~= slots.drop_last());
    } else {
        assert(changed.drop_last() =~= slots.drop_last().update(at, slot));
        lemma_owed_by_slots_update(slots.drop_last(), at, slot);
    }
}

/// Taking the oldest waiting request out takes out what it owes.
pub proof fn lemma_owed_by_waiting_skip(waiting: Seq<RequestView>)
    requires
        waiting.len() > 0,
    ensures
        owed_by_waiting(waiting.skip(1)) + request_owes(waiting[0]) == owed_by_waiting(waiting),
    decreases waiting.len(),
{
    if waiting.len() == 1 {
        assert(waiting.skip(1) =~= Seq::<RequestView>::empty());
        assert(waiting.drop_last() =~= Seq::<RequestView>::empty());
    } else {
        assert(waiting.skip(1).drop_last() =~= waiting.drop_last().skip(1));
        lemma_owed_by_waiting_skip(waiting.drop_last());
    }
}

/// Every request with an `id` that reaches the dispatcher is owed one
/// response until its handler has finished, and no longer: an event changes
/// what the connection owes by the requests it admits and the responses it
/// settles.
pub proof fn lemma_owed_step(c: ConnectionView, event: EventView)
    ensures
        owed(step(c, event).0) + settled_by(c, event) == owed(c) + admitted_by(c, event),
{
    lemma_first_free(c.slots);
    match event {
        EventView::Line(line) => {
            if c.open && c.authenticated && decoded(line) is Some {
                let request = decoded(line)->0;
                let slot = first_free(c.slots);
                if slot < c.slots.len() {
                    lemma_owed_by_slots_update(
                        c.slots,
                        slot as int,
                        Slot::Busy { id: request.id },
                    );
                } else {
                    assert(c.waiting.push(request).drop_last() =~= c.waiting);
                }
            }
        },
        EventView::Completed { slot, outcome } => {
            if slot < c.slots.len() && c.slots[slot as int] is Busy {
                if c.waiting.len() > 0 {
                    lemma_owed_by_slots_update(
                        c.slots,
                        slot as int,
                        Slot::Busy { id: c.waiting[0].id },
                    );
                    lemma_owed_by_waiting_skip(c.waiting);
                } else {
                    lemma_owed_by_slots_update(c.slots, slot as int, Slot::Free);
                }
            }
        },
        _ => {},
    }
}

/// A response to a request that was executed is sent only by the event that
/// settles it, and by that event exactly once while the connection is open;
/// after the teardown it is settled without a line. So a request with an
/// `id` sees one response or, where the connection went away first, none,
/// and never two.
pub proof fn lemma_settled_is_answered(c: ConnectionView, event: EventView)
    requires
        c.authenticated,
        !(event is Bus),
    ensures
        sent(step(c, event).1).len() == if c.open {
            settled_by(c, event)
        } else {
            0
        },
{
    lemma_first_free(c.slots);
    reveal_with_fuel(sent, 4);
    match event {
        EventView::Completed { slot, outcome } => {
            if slot < c.slots.len() && c.slots[slot as int] is Busy {
                lemma_response_on_completion(c, slot, outcome);
            }
        },
        _ => {},
    }
}

/// How many requests that expect a response a history hands to the
/// dispatcher.
pub open spec fn admitted(c: ConnectionView, events: Seq<EventView>) -> nat
    decreases events.len(),
{
    if events.len() == 0 {
        0
    } else {
        admitted(c, events.drop_last()) + admitted_by(
            run(c, events.drop_last()).0,
            events.last(),
        )
    }
}

/// How many owed responses a history settles.
pub open spec fn settled(c: ConnectionView, events: Seq<EventView>) -> nat
    decreases events.len(),
{
    if events.len() == 0 {
        0
    } else {
        settled(c, events.drop_last()) + settled_by(run(c, events.drop_last()).0, events.last())
    }
}

/// Over any history, the responses settled and the responses still owed are
/// together the requests admitted and those owed at the start: none is
/// settled twice, and none is lost while its handler runs.
pub proof fn lemma_owed_run(c: ConnectionView, events: Seq<EventView>)
    ensures
        owed(run(c, events).0) + settled(c, events) == owed(c) + admitted(c, events),
    decreases events.len(),
{
    if events.len() > 0 {
        lemma_owed_run(c, events.drop_last());
        lemma_owed_step(run(c, events.drop_last()).0, events.last());
    }
}

/// Whether the permit is held, as a number.
pub open spec fn slot_runs(slot: Slot) -> nat {
    if slot is Busy {
        1
    } else {
        0
    }
}

/// How many handlers the event reports as finished: one, where it names a
/// permit that is held.
pub open spec fn finished_by(c: ConnectionView, event: EventView) -> nat {
    match event {
        EventView::Completed { slot, .. } => if slot < c.slots.len() {
            slot_runs(c.slots[slot as int])
        } else {
            0
        },
        _ => 0,
    }
}

/// How many handlers a history reports as finished.
pub open spec fn finished(c: ConnectionView, events: Seq<EventView>) -> nat
    decreases events.len(),
{
    if events.len() == 0 {
        0
    } else {
        finished(c, events.drop_last()) + finished_by(run(c, events.drop_last()).0, events.last())
    }
}

/// Replacing one permit changes how many are held by the difference.
pub proof fn lemma_executing_update(slots: Seq<Slot>, at: int, slot: Slot)
    requires
        0 <= at < slots.len(),
    ensures
        executing(slots.update(at, slot)) + slot_runs(slots[at]) == executing(slots) + slot_runs(
            slot,
        ),
    decreases slots.len(),
{
    let changed = slots.update(at, slot);
    if at == slots.len() - 1 {
        assert(changed.drop_last() =~= slots.drop_last());
    } else {
        assert(changed.drop_last() =~= slots.drop_last().update(at, slot));
        lemma_executing_update(slots.drop_last(), at, slot);
    }
}

/// The permits held are the handlers running: an event changes their number
/// by the handlers it starts and the one it reports as finished.
pub proof fn lemma_permits_step(c: ConnectionView, event: EventView)
    ensures
        executing(step(c, event).0.slots) + finished_by(c, event) == executing(c.slots) + started(
            step(c, event).1,
        ),
{
    lemma_first_free(c.slots);
    reveal_with_fuel(started, 4);
    match event {
        EventView::Line(line) => {
            if decoded(line) is Some {
                let request = decoded(line)->0;
                let slot = first_free(c.slots);
                if c.open && c.authenticated && slot < c.slots.len() {
                    lemma_executing_update(c.slots, slot as int, Slot::Busy { id: request.id });
                }
            }
        },
        EventView::Completed { slot, outcome } => {
            if slot < c.slots.len() && c.slots[slot as int] is Busy {
                if c.waiting.len() > 0 {
                    lemma_executing_update(
                        c.slots,
                        slot as int,
                        Slot::Busy { id: c.waiting[0].id },
                    );
                } else {
                    lemma_executing_update(c.slots, slot as int, Slot::Free);
                }
            }
        },
        _ => {},
    }
}

/// Over any history, the handlers started and not yet reported as finished
/// are the permits held, and so never more than the connection has permits.
pub proof fn lemma_running_handlers_bounded(c: ConnectionView, events: Seq<EventView>)
    ensures
        executing(run(c, events).0.slots) + finished(c, events) == executing(c.slots) + started(
            run(c, events).1,
        ),
        executing(c.slots) + started(run(c, events).1) - finished(c, events) <= c.slots.len(),
    decreases events.len(),
{
    if events.len() > 0 {
        let before = run(c, events.drop_last());
        lemma_running_handlers_bounded(c, events.drop_last());
        lemma_permits_step(before.0, events.last());
        lemma_started_sum(before.1, step(before.0, events.last()).1);
    }
    lemma_in_flight_bounded(c, events);
}

} // verus!
