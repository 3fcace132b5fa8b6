//! The life of a session over a whole run of its driver: it retires once, is
//! removed once, and the removal waits for the retention time.

use vstd::prelude::*;
use crate::app_state::{
    lemma_inserted_is_found, lemma_position_of, lemma_update_keeps_positions, position_of,
    SocketView,
};
use crate::config::CLOSED_CONNECTION_EXPIRY;
use crate::driver::{
    alive_while_running, drive_spec, lemma_alive_while_running, lemma_session_lifecycle, Driver,
    DriverEventView,
};
use crate::endpoints::connect_socket::opened;
use crate::endpoints::get_socket::{drained, get_socket_spec, SocketQuery};

verus! {

/// The registry and the driver after a run of events, each with the time at
/// which it was handed over.
pub open spec fn after_events(
    sockets: Seq<SocketView>,
    driver: Driver,
    events: Seq<(DriverEventView, u64)>,
) -> (Seq<SocketView>, Driver)
    decreases events.len(),
{
    if events.len() == 0 {
        (sockets, driver)
    } else {
        let before = after_events(sockets, driver, events.drop_last());
        let (after, next, _) = drive_spec(before.0, before.1, events.last().0, events.last().1);
        (after, next)
    }
}

/// Over any run of events, the phase of a driver after a part of the run is
/// no later than its phase after the whole: a driver retires at most once, is
/// done at most once after that, and never runs again.
pub proof fn lemma_phases_never_go_back(
    sockets: Seq<SocketView>,
    driver: Driver,
    events: Seq<(DriverEventView, u64)>,
    part: int,
)
    requires
        0 <= part <= events.len(),
    ensures
        after_events(sockets, driver, events.take(part)).1.phase.rank() <= after_events(
            sockets,
            driver,
            events,
        ).1.phase.rank(),
        after_events(sockets, driver, events).1.socket_id == driver.socket_id,
    decreases events.len(),
{
    if events.len() == 0 {
        assert(events.take(part) =~= events);
    } else {
        let before = after_events(sockets, driver, events.drop_last());
        lemma_session_lifecycle(before.0, before.1, events.last().0, events.last().1);
        if part == events.len() {
            assert(events.take(part) =~= events);
            lemma_phases_never_go_back(sockets, driver, events.drop_last(), part - 1);
        } else {
            assert(events.drop_last().take(part) =~= events.take(part));
            lemma_phases_never_go_back(sockets, driver, events.drop_last(), part);
        }
    }
}

/// Whether the driver retires at event `i` of the run: it was running
/// before, upstream ends, and it is retired after.
pub open spec fn retires_at(
    sockets: Seq<SocketView>,
    driver: Driver,
    events: Seq<(DriverEventView, u64)>,
    i: int,
) -> bool {
    &&& 0 <= i < events.len()
    &&& after_events(sockets, driver, events.take(i)).1.phase is Running
    &&& after_events(sockets, driver, events.take(i + 1)).1.phase is Retained
    &&& events[i].0 == DriverEventView::Upstream(None)
}

/// Whether the driver removes its session at event `j` of the run: it was
/// not running before, and the registry is another after.
pub open spec fn removes_at(
    sockets: Seq<SocketView>,
    driver: Driver,
    events: Seq<(DriverEventView, u64)>,
    j: int,
) -> bool {
    &&& 0 <= j < events.len()
    &&& !(after_events(sockets, driver, events.take(j)).1.phase is Running)
    &&& after_events(sockets, driver, events.take(j + 1)).0 != after_events(
        sockets,
        driver,
        events.take(j),
    ).0
}

/// The state after event `j` is what the event makes of the state before it.
pub proof fn lemma_event_is_one_step(
    sockets: Seq<SocketView>,
    driver: Driver,
    events: Seq<(DriverEventView, u64)>,
    j: int,
)
    requires
        0 <= j < events.len(),
    ensures
        ({
            let before = after_events(sockets, driver, events.take(j));
            let step = drive_spec(before.0, before.1, events[j].0, events[j].1);
            after_events(sockets, driver, events.take(j + 1)) == (step.0, step.1)
        }),
{
    assert(events.take(j + 1).drop_last() =~= events.take(j));
    assert(events.take(j + 1).last() == events[j]);
}

/// A driver that started running and is retired after a run retired at one
/// of its events, and has noted the time of that event.
pub proof fn lemma_retired_since(
    sockets: Seq<SocketView>,
    driver: Driver,
    events: Seq<(DriverEventView, u64)>,
)
    requires
        driver.phase is Running,
        after_events(sockets, driver, events).1.phase is Retained,
    ensures
        exists|i: int|
            #[trigger] retires_at(sockets, driver, events, i) && events[i].1 == after_events(
                sockets,
                driver,
                events,
            ).1.closed_at,
    decreases events.len(),
{
    if events.len() > 0 {
        let rest = events.drop_last();
        let before = after_events(sockets, driver, rest);
        let last = events.len() - 1;
        lemma_session_lifecycle(before.0, before.1, events.last().0, events.last().1);
        assert(events.take(last) =~= rest);
        assert(events.take(last + 1) =~= events);
        if before.1.phase is Running {
            assert(retires_at(sockets, driver, events, last));
        } else {
            lemma_retired_since(sockets, driver, rest);
            let i = choose|i: int|
                #[trigger] retires_at(sockets, driver, rest, i) && rest[i].1
                    == before.1.closed_at;
            assert(rest.take(i) =~= events.take(i));
            assert(rest.take(i + 1) =~= events.take(i + 1));
            assert(retires_at(sockets, driver, events, i));
        }
    }
}

/// Over any run of a driver that started running, an event at which it
/// removes its session comes after an event at which it retired, by at least
/// `CLOSED_CONNECTION_EXPIRY` on the clock.
pub proof fn lemma_removal_follows_retirement(
    sockets: Seq<SocketView>,
    driver: Driver,
    events: Seq<(DriverEventView, u64)>,
    j: int,
)
    requires
        driver.phase is Running,
        removes_at(sockets, driver, events, j),
    ensures
        exists|i: int|
            #[trigger] retires_at(sockets, driver, events, i) && i < j && events[j].1
                - events[i].1 >= CLOSED_CONNECTION_EXPIRY,
{
    let part = events.take(j);
    let before = after_events(sockets, driver, part);
    lemma_event_is_one_step(sockets, driver, events, j);
    lemma_session_lifecycle(before.0, before.1, events[j].0, events[j].1);
    lemma_retired_since(sockets, driver, part);
    let i = choose|i: int|
        #[trigger] retires_at(sockets, driver, part, i) && part[i].1 == before.1.closed_at;
    assert(part.take(i) =~= events.take(i));
    assert(part.take(i + 1) =~= events.take(i + 1));
    assert(retires_at(sockets, driver, events, i));
}

/// Over any run a driver retires at one event at most.
pub proof fn lemma_retires_once(
    sockets: Seq<SocketView>,
    driver: Driver,
    events: Seq<(DriverEventView, u64)>,
    first: int,
    second: int,
)
    requires
        retires_at(sockets, driver, events, first),
        retires_at(sockets, driver, events, second),
    ensures
        first == second,
{
    if first < second {
        lemma_phases_never_go_back(sockets, driver, events.take(second), first + 1);
        assert(events.take(second).take(first + 1) =~= events.take(first + 1));
    } else if second < first {
        lemma_phases_never_go_back(sockets, driver, events.take(first), second + 1);
        assert(events.take(first).take(second + 1) =~= events.take(second + 1));
    }
}

/// Over any run a driver removes its session at one event at most.
pub proof fn lemma_removes_once(
    sockets: Seq<SocketView>,
    driver: Driver,
    events: Seq<(DriverEventView, u64)>,
    first: int,
    second: int,
)
    requires
        removes_at(sockets, driver, events, first),
        removes_at(sockets, driver, events, second),
    ensures
        first == second,
{
    let (early, late) = if first <= second {
        (first, second)
    } else {
        (second, first)
    };
    if early < late {
        let before = after_events(sockets, driver, events.take(early));
        lemma_event_is_one_step(sockets, driver, events, early);
        lemma_session_lifecycle(before.0, before.1, events[early].0, events[early].1);
        let then = after_events(sockets, driver, events.take(late));
        lemma_event_is_one_step(sockets, driver, events, late);
        lemma_session_lifecycle(then.0, then.1, events[late].0, events[late].1);
        lemma_phases_never_go_back(sockets, driver, events.take(late), early + 1);
        assert(events.take(late).take(early + 1) =~= events.take(early + 1));
    }
}

/// A session under a fresh identifier and the driver started for it agree:
/// the session is alive and the driver runs.
pub proof fn lemma_connection_starts_alive(sockets: Seq<SocketView>, socket_id: u128, now: u64)
    requires
        position_of(sockets, socket_id) is None,
    ensures
        alive_while_running(
            sockets.push(opened(socket_id, now)),
            Driver::started(socket_id, now),
        ),
{
    lemma_inserted_is_found(sockets, opened(socket_id, now));
}

/// A session that is alive exactly while its driver runs stays so over any
/// run of events.
pub proof fn lemma_run_keeps_alive_while_running(
    sockets: Seq<SocketView>,
    driver: Driver,
    events: Seq<(DriverEventView, u64)>,
)
    requires
        alive_while_running(sockets, driver),
    ensures
        alive_while_running(
            after_events(sockets, driver, events).0,
            after_events(sockets, driver, events).1,
        ),
    decreases events.len(),
{
    if events.len() > 0 {
        lemma_run_keeps_alive_while_running(sockets, driver, events.drop_last());
        let before = after_events(sockets, driver, events.drop_last());
        lemma_alive_while_running(before.0, before.1, events.last().0, events.last().1);
    }
}

/// The life of a newly connected session, from the registry and the driver
/// that a connection under a fresh identifier leaves, over any run of events:
/// the session is alive exactly while the driver runs, the driver retires at
/// most once and removes at most once, and a removal comes after a
/// retirement, by at least `CLOSED_CONNECTION_EXPIRY` on the clock.
pub proof fn lemma_new_session_lifecycle(
    sockets: Seq<SocketView>,
    socket_id: u128,
    now: u64,
    events: Seq<(DriverEventView, u64)>,
)
    requires
        position_of(sockets, socket_id) is None,
    ensures
        ({
            let registry = sockets.push(opened(socket_id, now));
            let driver = Driver::started(socket_id, now);
            let end = after_events(registry, driver, events);
            &&& alive_while_running(end.0, end.1)
            &&& forall|a: int, b: int|
                #[trigger] retires_at(registry, driver, events, a) && #[trigger] retires_at(
                    registry,
                    driver,
                    events,
                    b,
                ) ==> a == b
            &&& forall|a: int, b: int|
                #[trigger] removes_at(registry, driver, events, a) && #[trigger] removes_at(
                    registry,
                    driver,
                    events,
                    b,
                ) ==> a == b
            &&& forall|j: int| #[trigger]
                removes_at(registry, driver, events, j) ==> exists|i: int|
                    #[trigger] retires_at(registry, driver, events, i) && i < j && events[j].1
                        - events[i].1 >= CLOSED_CONNECTION_EXPIRY
        }),
{
    let registry = sockets.push(opened(socket_id, now));
    let driver = Driver::started(socket_id, now);
    lemma_connection_starts_alive(sockets, socket_id, now);
    lemma_run_keeps_alive_while_running(registry, driver, events);
    assert forall|a: int, b: int|
        #[trigger] retires_at(registry, driver, events, a) && #[trigger] retires_at(
            registry,
            driver,
            events,
            b,
        ) implies a == b by {
        lemma_retires_once(registry, driver, events, a, b);
    }
    assert forall|a: int, b: int|
        #[trigger] removes_at(registry, driver, events, a) && #[trigger] removes_at(
            registry,
            driver,
            events,
            b,
        ) implies a == b by {
        lemma_removes_once(registry, driver, events, a, b);
    }
    assert forall|j: int| #[trigger] removes_at(registry, driver, events, j) implies exists|i: int|
        #[trigger] retires_at(registry, driver, events, i) && i < j && events[j].1 - events[i].1
            >= CLOSED_CONNECTION_EXPIRY by {
        lemma_removal_follows_retirement(registry, driver, events, j);
    }
}

/// No read comes between a session and its driver: the start of a read of
/// any session, and a drain of any session, keep a session alive exactly
/// while its driver runs.
pub proof fn lemma_reads_keep_alive_while_running(
    sockets: Seq<SocketView>,
    driver: Driver,
    socket_id: u128,
    query: SocketQuery,
    now: u64,
)
    requires
        alive_while_running(sockets, driver),
    ensures
        alive_while_running(get_socket_spec(sockets, socket_id, query, now).0, driver),
        match position_of(sockets, socket_id) {
            Some(i) => alive_while_running(sockets.update(i, drained(sockets[i])), driver),
            None => true,
        },
{
    lemma_position_of(sockets, socket_id);
    lemma_position_of(sockets, driver.socket_id);
    match position_of(sockets, socket_id) {
        Some(i) => {
            lemma_update_keeps_positions(
                sockets,
                i,
                SocketView { last_poll: now, ..sockets[i] },
                driver.socket_id,
            );
            lemma_update_keeps_positions(sockets, i, drained(sockets[i]), driver.socket_id);
        },
        None => {},
    }
}

} // verus!
