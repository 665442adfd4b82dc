//! What holds of every connection, whatever its caller reports.
//!
//! The laws speak of runs: a connection in some state is told a sequence of
//! events, one after the other, and answers each with an action.

use vstd::prelude::*;
use crate::connection::{reply, ActionView, Phase, State};
use crate::event::{Address, EndingView, EventView, Side};
use crate::request::REQUEST_CAP;
use crate::target::{routed, RouteView, TargetView};

verus! {

/// The state that `start` is in after `events`.
pub open spec fn run(start: State, events: Seq<EventView>) -> State
    decreases events.len(),
{
    if events.len() == 0 {
        start
    } else {
        run(start, events.drop_last()).step(events.last()).0
    }
}

/// The actions that a connection in state `start` answers `events` with, one
/// for each event.
pub open spec fn emitted(start: State, events: Seq<EventView>) -> Seq<ActionView>
    decreases events.len(),
{
    if events.len() == 0 {
        Seq::empty()
    } else {
        emitted(start, events.drop_last()).push(
            run(start, events.drop_last()).step(events.last()).1,
        )
    }
}

/// The bytes that `event` hands to a connection in `state` as read from
/// `source` for the relay.
pub open spec fn intake(state: State, event: EventView, source: Side) -> Seq<u8> {
    match event {
        EventView::Data(bytes) => if state.phase == Phase::Receiving(source) && bytes.len()
            <= state.channel_from(source).capacity {
            bytes
        } else {
            Seq::empty()
        },
        _ => Seq::empty(),
    }
}

/// The bytes that `event` reports as accepted by `to` from the relay of a
/// connection in `state`: the first `count` of those that were offered.
pub open spec fn outflow(state: State, event: EventView, to: Side) -> Seq<u8> {
    match event {
        EventView::Wrote(count) => if state.phase == Phase::Sending(to) && count
            <= state.channel_from(to.other()).pending() {
            state.channel_from(to.other()).held.take(count as int)
        } else {
            Seq::empty()
        },
        _ => Seq::empty(),
    }
}

/// All bytes that the relay read from `source` in the run of `events` from
/// `start`, in the order in which they came.
pub open spec fn taken(start: State, events: Seq<EventView>, source: Side) -> Seq<u8>
    decreases events.len(),
{
    if events.len() == 0 {
        Seq::empty()
    } else {
        taken(start, events.drop_last(), source) + intake(
            run(start, events.drop_last()),
            events.last(),
            source,
        )
    }
}

/// All bytes that `to` accepted from the relay in the run of `events` from
/// `start`, in the order in which they went.
pub open spec fn passed(start: State, events: Seq<EventView>, to: Side) -> Seq<u8>
    decreases events.len(),
{
    if events.len() == 0 {
        Seq::empty()
    } else {
        passed(start, events.drop_last(), to) + outflow(
            run(start, events.drop_last()),
            events.last(),
            to,
        )
    }
}

/// The invariant holds throughout every run.
pub proof fn run_keeps_invariant(start: State, events: Seq<EventView>)
    requires
        start.inv(),
    ensures
        run(start, events).inv(),
    decreases events.len(),
{
    if events.len() > 0 {
        run_keeps_invariant(start, events.drop_last());
        run(start, events.drop_last()).step_keeps_invariant(events.last());
    }
}

/// A run of two parts is the run of the second from where the first ended.
pub proof fn run_in_parts(start: State, first: Seq<EventView>, second: Seq<EventView>)
    ensures
        run(start, first + second) == run(run(start, first), second),
        emitted(start, first + second) == emitted(start, first) + emitted(
            run(start, first),
            second,
        ),
    decreases second.len(),
{
    if second.len() == 0 {
        assert(first + second =~= first);
        assert(emitted(start, first) + emitted(run(start, first), second) =~= emitted(
            start,
            first,
        ));
    } else {
        run_in_parts(start, first, second.drop_last());
        assert((first + second).drop_last() =~= first + second.drop_last());
        assert((first + second).last() == second.last());
        assert(emitted(start, first + second) =~= emitted(start, first) + emitted(
            run(start, first),
            second,
        ));
    }
}

/// There is one action for each event.
pub proof fn one_action_each(start: State, events: Seq<EventView>)
    ensures
        emitted(start, events).len() == events.len(),
    decreases events.len(),
{
    if events.len() > 0 {
        one_action_each(start, events.drop_last());
    }
}

/// A closed connection stays closed, and answers every event by asking to
/// close.
pub proof fn closed_stays_closed(start: State, events: Seq<EventView>)
    requires
        start.phase == Phase::Closed,
    ensures
        run(start, events).phase == Phase::Closed,
        emitted(start, events).len() == events.len(),
        forall|i: int| 0 <= i < events.len() ==> #[trigger] emitted(start, events)[i] is Close,
    decreases events.len(),
{
    if events.len() > 0 {
        closed_stays_closed(start, events.drop_last());
    }
}

/// A run that is told one more event takes one more step.
pub proof fn run_one_more(start: State, events: Seq<EventView>, event: EventView)
    ensures
        run(start, events.push(event)) == run(start, events).step(event).0,
        emitted(start, events.push(event)) == emitted(start, events).push(
            run(start, events).step(event).1,
        ),
{
    assert(events.push(event).drop_last() =~= events);
}

/// Every write that a connection asks for is either the one write of the
/// handshake or a relay write. The handshake's write follows the connect: to
/// the client of a tunnel, the reply; to the server of a plain request, the
/// request as it was received. A relay write offers what its channel holds.
pub proof fn every_write_is_accounted_for(state: State, event: EventView)
    requires
        state.inv(),
    ensures
        state.step(event).1 matches ActionView::Write { to, bytes } ==> {
            ||| state.phase == (Phase::Dialing { tunnel: true }) && to == Side::Client && bytes
                == reply()
            ||| state.phase == (Phase::Dialing { tunnel: false }) && to == Side::Server && bytes
                == state.request
            ||| state.relaying() && state.step(event).0.phase == Phase::Sending(to) && bytes
                == state.step(event).0.channel_from(to.other()).held
        },
{
}

/// The handshake's write must take all: a connection that waits for it goes
/// on exactly when the write took every byte offered, and then by making the
/// client's socket non-blocking. Any other answer closes the connection, so
/// the relay never begins after a reply or a request that went out in part.
pub proof fn greeting_must_be_taken_whole(state: State, event: EventView, tunnel: bool)
    requires
        state.phase == (Phase::Greeting { tunnel }),
    ensures
        state.step(event).0.phase != Phase::Closed <==> event == EventView::Wrote(
            state.greeting(tunnel).len(),
        ),
        state.step(event).0.phase != Phase::Closed ==> state.step(event) == (
            State { phase: Phase::Unblocking(Side::Client), ..state },
            ActionView::Unblock(Side::Client),
        ),
        state.step(event).0.phase == Phase::Closed ==> state.step(event).1 is Close,
{
}

/// After a handshake's write that did not take all, whatever is reported
/// afterwards, the connection asks for nothing but to close.
pub proof fn unfinished_greeting_only_closes(start: State, events: Seq<EventView>, tunnel: bool)
    requires
        start.phase == (Phase::Greeting { tunnel }),
        events.len() >= 1,
        events[0] != EventView::Wrote(start.greeting(tunnel).len()),
    ensures
        emitted(start, events).len() == events.len(),
        forall|i: int| 0 <= i < events.len() ==> #[trigger] emitted(start, events)[i] is Close,
{
    let first = Seq::<EventView>::empty().push(events[0]);
    let later = events.skip(1);
    assert(events =~= first + later);
    greeting_must_be_taken_whole(start, events[0], tunnel);
    run_one_more(start, Seq::empty(), events[0]);
    run_in_parts(start, first, later);
    closed_stays_closed(run(start, first), later);
}

/// A connection ends with the closing of a socket exactly when a relay read
/// from that socket brought no bytes, or a relay write to that socket took
/// none: the socket named is the one whose peer has closed.
pub proof fn closed_socket_is_named(state: State, event: EventView, side: Side)
    requires
        state.inv(),
    ensures
        state.step(event).1 == ActionView::Close(EndingView::closed_by(side)) <==> {
            ||| state.phase == Phase::Receiving(side) && (event matches EventView::Data(bytes)
                && bytes.len() == 0)
            ||| state.phase == Phase::Sending(side) && event == EventView::Wrote(0)
        },
{
}

/// The number of connects among `actions`.
pub open spec fn connects(actions: Seq<ActionView>) -> nat
    decreases actions.len(),
{
    if actions.len() == 0 {
        0
    } else if actions.last() is Connect {
        connects(actions.drop_last()) + 1
    } else {
        connects(actions.drop_last())
    }
}

/// Whether a connection in this phase has asked for its connect.
pub open spec fn has_dialed(phase: Phase) -> bool {
    !(phase is Opening || phase is Resolving)
}

/// A connection asks for at most one connect: none once it has asked for
/// one, whatever came of it.
pub proof fn connects_at_most_once(start: State, events: Seq<EventView>)
    ensures
        connects(emitted(start, events)) <= 1,
        has_dialed(start.phase) ==> connects(emitted(start, events)) == 0,
        has_dialed(start.phase) || connects(emitted(start, events)) == 1 ==> has_dialed(
            run(start, events).phase,
        ),
    decreases events.len(),
{
    if events.len() > 0 {
        connects_at_most_once(start, events.drop_last());
        assert(emitted(start, events).drop_last() =~= emitted(start, events.drop_last()));
    }
}

/// The answers to a run from a new connection.
pub open spec fn answers(events: Seq<EventView>) -> Seq<ActionView> {
    emitted(State::initial(), events)
}

/// An opening request that cannot be routed closes the connection at once,
/// with the ending that routing gave; and whatever is reported afterwards,
/// the connection asks for nothing but to close. No target is resolved or
/// connected to, and nothing is written to the client.
pub proof fn unroutable_request_only_closes(events: Seq<EventView>, request: Seq<u8>)
    requires
        events.len() >= 1,
        events[0] == EventView::Data(request),
        routed(request) is Err,
    ensures
        answers(events).len() == events.len(),
        request.len() <= REQUEST_CAP ==> answers(events)[0] == ActionView::Close(
            routed(request)->Err_0,
        ),
        forall|i: int| 0 <= i < events.len() ==> #[trigger] answers(events)[i] is Close,
{
    let first = Seq::<EventView>::empty().push(events[0]);
    let later = events.skip(1);
    assert(events =~= first + later);
    run_one_more(State::initial(), Seq::empty(), events[0]);
    run_in_parts(State::initial(), first, later);
    closed_stays_closed(run(State::initial(), first), later);
}

/// A tunnel whose target cannot be connected to is closed as unreachable, and
/// whatever is reported afterwards, the connection asks for nothing but to
/// close: the client is sent no reply.
pub proof fn refused_tunnel_gets_no_reply(
    events: Seq<EventView>,
    request: Seq<u8>,
    detail: Seq<char>,
)
    requires
        events.len() >= 2,
        events[0] == EventView::Data(request),
        events[1] == EventView::Failed(detail),
        request.len() <= REQUEST_CAP,
        routed(request) matches Ok(RouteView::Tunnel(_)),
    ensures
        answers(events).len() == events.len(),
        answers(events)[0] == ActionView::Connect(
            TargetView::Authority(routed(request)->Ok_0->Tunnel_0),
        ),
        answers(events)[1] == ActionView::Close(EndingView::Unreachable(detail)),
        forall|i: int| 1 <= i < events.len() ==> #[trigger] answers(events)[i] is Close,
{
    let one = Seq::<EventView>::empty().push(events[0]);
    let first = one.push(events[1]);
    let later = events.skip(2);
    assert(events =~= first + later);
    run_one_more(State::initial(), Seq::empty(), events[0]);
    run_one_more(State::initial(), one, events[1]);
    run_in_parts(State::initial(), first, later);
    closed_stays_closed(run(State::initial(), first), later);
}

/// A tunnel whose target connects: the connection asks to connect to the
/// authority as the client wrote it, and then to write the reply to the
/// client, before anything else.
pub proof fn tunnel_is_greeted_first(events: Seq<EventView>, request: Seq<u8>)
    requires
        events.len() >= 2,
        events[0] == EventView::Data(request),
        events[1] == EventView::Done,
        request.len() <= REQUEST_CAP,
        routed(request) matches Ok(RouteView::Tunnel(_)),
    ensures
        answers(events).len() == events.len(),
        answers(events)[0] == ActionView::Connect(
            TargetView::Authority(routed(request)->Ok_0->Tunnel_0),
        ),
        answers(events)[1] == (ActionView::Write { to: Side::Client, bytes: reply() }),
{
    let one = Seq::<EventView>::empty().push(events[0]);
    let first = one.push(events[1]);
    let later = events.skip(2);
    assert(events =~= first + later);
    run_one_more(State::initial(), Seq::empty(), events[0]);
    run_one_more(State::initial(), one, events[1]);
    run_in_parts(State::initial(), first, later);
    one_action_each(State::initial(), events);
}

/// A plain request whose host resolves and connects: the connection asks to
/// resolve the host that routing gave, to connect to the first address found
/// and no other, and then to write the request to the server, byte for byte
/// as it was received, before anything else.
pub proof fn plain_request_is_passed_on(
    events: Seq<EventView>,
    request: Seq<u8>,
    found: Seq<Address>,
)
    requires
        events.len() >= 3,
        events[0] == EventView::Data(request),
        events[1] == EventView::Resolved(found),
        events[2] == EventView::Done,
        request.len() <= REQUEST_CAP,
        routed(request) matches Ok(RouteView::Forward { .. }),
        found.len() > 0,
    ensures
        answers(events).len() == events.len(),
        answers(events)[0] == (ActionView::Resolve {
            host: routed(request)->Ok_0->Forward_host,
            port: routed(request)->Ok_0->Forward_port,
        }),
        answers(events)[1] == ActionView::Connect(TargetView::Address(found[0])),
        answers(events)[2] == (ActionView::Write { to: Side::Server, bytes: request }),
{
    let one = Seq::<EventView>::empty().push(events[0]);
    let two = one.push(events[1]);
    let first = two.push(events[2]);
    let later = events.skip(3);
    assert(events =~= first + later);
    run_one_more(State::initial(), Seq::empty(), events[0]);
    run_one_more(State::initial(), one, events[1]);
    run_one_more(State::initial(), two, events[2]);
    run_in_parts(State::initial(), first, later);
    one_action_each(State::initial(), events);
}

/// A plain request whose server cannot be connected to is closed as
/// unreachable: no other address is tried, and whatever is reported
/// afterwards, the connection asks for nothing but to close.
pub proof fn failed_connect_is_not_retried(
    events: Seq<EventView>,
    request: Seq<u8>,
    found: Seq<Address>,
    detail: Seq<char>,
)
    requires
        events.len() >= 3,
        events[0] == EventView::Data(request),
        events[1] == EventView::Resolved(found),
        events[2] == EventView::Failed(detail),
        request.len() <= REQUEST_CAP,
        routed(request) matches Ok(RouteView::Forward { .. }),
        found.len() > 0,
    ensures
        answers(events).len() == events.len(),
        answers(events)[1] == ActionView::Connect(TargetView::Address(found[0])),
        answers(events)[2] == ActionView::Close(EndingView::Unreachable(detail)),
        forall|i: int| 2 <= i < events.len() ==> #[trigger] answers(events)[i] is Close,
{
    let one = Seq::<EventView>::empty().push(events[0]);
    let two = one.push(events[1]);
    let first = two.push(events[2]);
    let later = events.skip(3);
    assert(events =~= first + later);
    run_one_more(State::initial(), Seq::empty(), events[0]);
    run_one_more(State::initial(), one, events[1]);
    run_one_more(State::initial(), two, events[2]);
    run_in_parts(State::initial(), first, later);
    closed_stays_closed(run(State::initial(), first), later);
}

/// Tunnel transparency: what the relay has written to one socket is, byte for
/// byte and in order, the beginning of what it has read from the other; and
/// while the connection is open, what it has read and not yet written is
/// exactly what the channel holds. Nothing is lost, doubled or reordered,
/// however often a socket was not ready.
pub proof fn relay_is_transparent(events: Seq<EventView>, source: Side)
    ensures
        passed(State::initial(), events, source.other()).is_prefix_of(
            taken(State::initial(), events, source),
        ),
        run(State::initial(), events).phase != Phase::Closed ==> taken(
            State::initial(),
            events,
            source,
        ) == passed(State::initial(), events, source.other()) + run(
            State::initial(),
            events,
        ).channel_from(source).held,
{
    relay_keeps_the_books(State::initial(), events, source);
    assert(State::initial().channel_from(source).held + taken(State::initial(), events, source)
        =~= taken(State::initial(), events, source));
}

/// One step of the books: what the channel held, followed by what the step
/// read, begins with what the step wrote, and unless the step closed the
/// connection the rest is what the channel holds after it. A closed
/// connection reads and writes nothing.
pub proof fn step_keeps_the_books(state: State, event: EventView, source: Side)
    ensures
        outflow(state, event, source.other()).is_prefix_of(
            state.channel_from(source).held + intake(state, event, source),
        ),
        state.step(event).0.phase != Phase::Closed ==> state.channel_from(source).held + intake(
            state,
            event,
            source,
        ) == outflow(state, event, source.other()) + state.step(event).0.channel_from(source).held,
        state.phase == Phase::Closed ==> {
            &&& state.step(event).0.phase == Phase::Closed
            &&& intake(state, event, source).len() == 0
            &&& outflow(state, event, source.other()).len() == 0
        },
{
    let held = state.channel_from(source).held;
    let came = intake(state, event, source);
    let went = outflow(state, event, source.other());
    let after = state.step(event).0;
    if state.phase == Phase::Receiving(source) {
        // Nothing is written; what is read goes into the empty channel.
        assert(went =~= Seq::<u8>::empty());
        if after.phase != Phase::Closed {
            assert(held =~= Seq::<u8>::empty());
            assert(held + came =~= went + after.channel_from(source).held);
        }
    } else if state.phase == Phase::Sending(source.other()) {
        // Nothing is read; what is written leaves the channel.
        assert(source.other().other() == source);
        assert(came =~= Seq::<u8>::empty());
        assert(held + came =~= held);
        assert(went.is_prefix_of(held));
        if after.phase != Phase::Closed {
            assert(held =~= went + after.channel_from(source).held);
        }
    } else {
        // The step is none of this channel's: nothing is read or written.
        assert(came =~= Seq::<u8>::empty());
        assert(went =~= Seq::<u8>::empty());
        if after.phase != Phase::Closed {
            assert(after.channel_from(source) == state.channel_from(source));
            assert(held + came =~= went + held);
        }
    }
}

/// Transparency from any state: what the channel held at the start, followed
/// by what was read since, begins with what was written since, and while the
/// connection is open the rest is what the channel holds.
pub proof fn relay_keeps_the_books(start: State, events: Seq<EventView>, source: Side)
    ensures
        passed(start, events, source.other()).is_prefix_of(
            start.channel_from(source).held + taken(start, events, source),
        ),
        run(start, events).phase != Phase::Closed ==> start.channel_from(source).held + taken(
            start,
            events,
            source,
        ) == passed(start, events, source.other()) + run(start, events).channel_from(source).held,
    decreases events.len(),
{
    let held = start.channel_from(source).held;
    if events.len() == 0 {
        assert(held + Seq::<u8>::empty() =~= Seq::<u8>::empty() + held);
    } else {
        let before = run(start, events.drop_last());
        let after = run(start, events);
        relay_keeps_the_books(start, events.drop_last(), source);
        step_keeps_the_books(before, events.last(), source);
        books_add_up(
            held,
            taken(start, events.drop_last(), source),
            passed(start, events.drop_last(), source.other()),
            before.channel_from(source).held,
            intake(before, events.last(), source),
            outflow(before, events.last(), source.other()),
            after.channel_from(source).held,
            before.phase != Phase::Closed,
            after.phase != Phase::Closed,
        );
    }
}

/// The books after one more step, as sequences: `held + read` was the
/// account that `written` begins; the step read `came` and wrote `went` out
/// of `pending + came`, leaving `rest`.
proof fn books_add_up(
    held: Seq<u8>,
    read: Seq<u8>,
    written: Seq<u8>,
    pending: Seq<u8>,
    came: Seq<u8>,
    went: Seq<u8>,
    rest: Seq<u8>,
    open_before: bool,
    open_after: bool,
)
    requires
        written.is_prefix_of(held + read),
        open_before ==> held + read == written + pending,
        !open_before ==> !open_after && came.len() == 0 && went.len() == 0,
        went.is_prefix_of(pending + came),
        open_after ==> pending + came == went + rest,
    ensures
        (written + went).is_prefix_of(held + (read + came)),
        open_after ==> held + (read + came) == (written + went) + rest,
{
    if open_before {
        assert(held + (read + came) =~= (held + read) + came);
        assert((written + pending) + came =~= written + (pending + came));
        assert((written + went) =~= (written + (pending + came)).subrange(
            0,
            (written + went).len() as int,
        ));
        if open_after {
            assert(written + (went + rest) =~= (written + went) + rest);
        }
    } else {
        assert(held + (read + came) =~= held + read);
        assert(written + went =~= written);
    }
}

/// Several connections side by side. Each event is addressed to one of them
/// by its index, in any interleaving; one addressed to no connection is
/// dropped. The result is the state of each.
pub open spec fn run_all(starts: Seq<State>, addressed: Seq<(int, EventView)>) -> Seq<State>
    decreases addressed.len(),
{
    if addressed.len() == 0 {
        starts
    } else {
        let before = run_all(starts, addressed.drop_last());
        let (index, event) = addressed.last();
        if 0 <= index < before.len() {
            before.update(index, before[index].step(event).0)
        } else {
            before
        }
    }
}

/// The answers of several connections side by side, each with the index of
/// the connection that gave it.
pub open spec fn emitted_all(starts: Seq<State>, addressed: Seq<(int, EventView)>) -> Seq<
    (int, ActionView),
>
    decreases addressed.len(),
{
    if addressed.len() == 0 {
        Seq::empty()
    } else {
        let before = run_all(starts, addressed.drop_last());
        let (index, event) = addressed.last();
        if 0 <= index < before.len() {
            emitted_all(starts, addressed.drop_last()).push(
                (index, before[index].step(event).1),
            )
        } else {
            emitted_all(starts, addressed.drop_last())
        }
    }
}

/// Of a sequence of things labelled with an index, those labelled `index`,
/// in order.
pub open spec fn only<T>(labelled: Seq<(int, T)>, index: int) -> Seq<T>
    decreases labelled.len(),
{
    if labelled.len() == 0 {
        Seq::empty()
    } else if labelled.last().0 == index {
        only(labelled.drop_last(), index).push(labelled.last().1)
    } else {
        only(labelled.drop_last(), index)
    }
}

/// Connections are independent: among any number of connections that are
/// told their events in any interleaving, each ends in the state, and gives
/// the answers, that it would have reached alone on the events addressed to
/// it. Nothing that is read on one connection is ever offered to a socket of
/// another.
pub proof fn connections_are_independent(
    starts: Seq<State>,
    addressed: Seq<(int, EventView)>,
    index: int,
)
    requires
        0 <= index < starts.len(),
    ensures
        run_all(starts, addressed).len() == starts.len(),
        run_all(starts, addressed)[index] == run(starts[index], only(addressed, index)),
        only(emitted_all(starts, addressed), index) == emitted(
            starts[index],
            only(addressed, index),
        ),
    decreases addressed.len(),
{
    if addressed.len() > 0 {
        let earlier = addressed.drop_last();
        let (to, event) = addressed.last();
        connections_are_independent(starts, earlier, index);
        if 0 <= to < starts.len() {
            assert(emitted_all(starts, addressed).drop_last() =~= emitted_all(starts, earlier));
            if to == index {
                run_one_more(starts[index], only(earlier, index), event);
            }
        }
    }
}

} // verus!
