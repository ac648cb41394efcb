//! What holds of every worker, whatever records reach it.

use vstd::prelude::*;
use crate::completion::Completion;
use crate::correlation::Tag;
use crate::pool::Region;
use crate::worker::{Action, Event, Strategy, WorkerModel};

verus! {

/// How often `action` occurs in `actions`.
pub open spec fn occurrences(actions: Seq<Action>, action: Action) -> nat
    decreases actions.len(),
{
    if actions.len() == 0 {
        0
    } else {
        occurrences(actions.drop_last(), action) + if actions.last() == action {
            1nat
        } else {
            0nat
        }
    }
}

/// Occurrences add up over concatenation.
pub proof fn occurrences_add(front: Seq<Action>, back: Seq<Action>, action: Action)
    ensures
        occurrences(front + back, action) == occurrences(front, action) + occurrences(back, action),
    decreases back.len(),
{
    if back.len() == 0 {
        assert(front + back =~= front);
    } else {
        assert((front + back).drop_last() =~= front + back.drop_last());
        assert((front + back).last() == back.last());
        occurrences_add(front, back.drop_last(), action);
    }
}

/// An action occurs in a sequence exactly if its count there is positive.
pub proof fn occurrences_positive(actions: Seq<Action>, action: Action)
    ensures
        occurrences(actions, action) > 0 <==> actions.contains(action),
    decreases actions.len(),
{
    if actions.len() > 0 {
        occurrences_positive(actions.drop_last(), action);
        if actions.contains(action) {
            let i = choose|i: int| 0 <= i < actions.len() && actions[i] == action;
            if i < actions.len() - 1 {
                assert(actions.drop_last()[i] == action);
            }
        }
        if actions.drop_last().contains(action) {
            let i = choose|i: int|
                0 <= i < actions.drop_last().len() && actions.drop_last()[i] == action;
            assert(actions[i] == action);
        }
        if actions.last() == action {
            assert(actions[actions.len() - 1] == action);
        }
    }
}

/// Whether the record ends the operation with tag `tag`: it carries that tag
/// and says that no more records of the operation will follow.
pub open spec fn retires(c: Completion, tag: Tag) -> bool {
    c.spec_tag() == Some(tag) && !c.spec_more()
}

/// Whether the record ends the operation that keeps new connections coming
/// to a worker of this strategy.
pub open spec fn ends_listening(strategy: Strategy, c: Completion) -> bool {
    match strategy {
        Strategy::MultishotAccept => retires(c, Tag::Accept),
        Strategy::PollThenAccept => retires(c, Tag::Readiness),
    }
}

/// One if a receive is armed on `fd`, zero if not.
pub open spec fn receives_in_flight(worker: WorkerModel, fd: i32) -> nat {
    if worker.armed(fd) {
        1
    } else {
        0
    }
}

/// The record that says "peer closed" of a receive that it also says is
/// still armed. The descriptor is released all the same.
pub open spec fn closes_while_armed(worker: WorkerModel, c: Completion, fd: i32) -> bool {
    c.spec_tag() == Some(Tag::Data(fd)) && worker.armed(fd) && c.result == 0 && c.spec_more()
}

/// The slot that a record hands back: the one that a receive record
/// selected, if the pool has it.
pub open spec fn slot_returned(worker: WorkerModel, c: Completion) -> Option<u16> {
    match c.spec_tag() {
        Some(Tag::Data(fd)) => worker.selected(c),
        _ => None,
    }
}

/// A record leaves the worker's invariant, its strategy and buffer group and
/// the pool's layout as they were, and lends no slot: what is lent after it
/// was lent before.
pub proof fn step_keeps_books(worker: WorkerModel, c: Completion)
    requires
        worker.wf(),
    ensures
        worker.step(c).next.wf(),
        worker.step(c).next.pool.capacity == worker.pool.capacity,
        worker.step(c).next.pool.slot_size == worker.pool.slot_size,
        worker.step(c).next.pool.lent.subset_of(worker.pool.lent),
        worker.step(c).next.strategy == worker.strategy,
        worker.step(c).next.group == worker.group,
{
    crate::correlation::encode_inverts_decode(c.user_data);
}

/// The slot that a receive record selected goes back into the ring once,
/// and is free in the books when the record has been handled, whatever the
/// record's result and whatever the books held of the slot before. No other
/// slot goes back or changes, and a record that selected no slot of the
/// pool leaves the books as they were.
pub proof fn selected_slot_goes_back(worker: WorkerModel, c: Completion, region: Region)
    requires
        worker.wf(),
    ensures
        occurrences(worker.step(c).actions, Action::Provide { region }) == match slot_returned(
            worker,
            c,
        ) {
            Some(id) => if region == worker.pool.region(id) {
                1nat
            } else {
                0nat
            },
            None => 0nat,
        },
        worker.step(c).next.pool.lent == match slot_returned(worker, c) {
            Some(id) => worker.pool.lent.remove(id as int),
            None => worker.pool.lent,
        },
        slot_returned(worker, c) matches Some(id) ==> worker.step(c).next.pool.free().contains(
            id as int,
        ),
{
    count_short(worker.step(c).actions, Action::Provide { region });
}

/// Whatever operation a worker asks to submit carries a valid tag: a receive
/// is only armed on a descriptor that is not negative, so that its
/// correlation value is no sentinel.
pub proof fn submitted_tags_are_valid(worker: WorkerModel, c: Completion, at: int)
    requires
        worker.wf(),
        0 <= at < worker.step(c).actions.len(),
    ensures
        worker.step(c).actions[at].spec_tag() matches Some(tag) ==> tag.valid(),
        worker.step(c).actions[at].spec_tag() is Some
            <==> worker.step(c).actions[at].spec_correlation() is Some,
        worker.step(c).actions[at] matches Action::ArmReceive { fd, group } ==> Tag::Data(fd).word()
            != crate::correlation::ACCEPT && Tag::Data(fd).word() != crate::correlation::READINESS,
{
    crate::correlation::encode_inverts_decode(c.user_data);
}

/// A failed accept is the only record that stops a worker, and it changes
/// nothing and asks for nothing.
pub proof fn only_accept_fails(worker: WorkerModel, c: Completion)
    ensures
        worker.step(c).outcome is Err <==> c.spec_tag() == Some(Tag::Accept) && c.result < 0,
        worker.step(c).outcome is Err ==> worker.step(c).next == worker
            && worker.step(c).actions.len() == 0,
{
}

/// The listening operation never lapses. A record that ends it, and does
/// not stop the worker, has the worker arm it again while handling that very
/// record, once; no other record arms it. Each readiness record of a shared
/// listening socket also has the worker issue one accept.
pub proof fn listening_rearmed(worker: WorkerModel, c: Completion)
    requires
        worker.step(c).outcome is Ok,
    ensures
        occurrences(worker.step(c).actions, worker.listen_action()) == if ends_listening(
            worker.strategy,
            c,
        ) {
            1nat
        } else {
            0nat
        },
        ends_listening(worker.strategy, c) ==> worker.step(c).actions.contains(
            worker.listen_action(),
        ),
        worker.strategy == Strategy::PollThenAccept && c.spec_tag() == Some(Tag::Readiness)
            ==> occurrences(worker.step(c).actions, Action::AcceptOnce) == 1,
{
    let actions = worker.step(c).actions;
    let listen = worker.listen_action();
    count_short(actions, listen);
    count_short(actions, Action::AcceptOnce);
    occurrences_positive(actions, listen);
}

/// A descriptor is released only by the record that says that its peer
/// closed, only while the connection is live, and once; the connection is
/// gone when that record has been handled.
pub proof fn released_once(worker: WorkerModel, c: Completion, fd: i32)
    ensures
        occurrences(worker.step(c).actions, Action::Close { fd }) == if c.spec_tag() == Some(
            Tag::Data(fd),
        ) && worker.live(fd) && c.result == 0 {
            1nat
        } else {
            0nat
        },
        worker.step(c).actions.contains(Action::Close { fd }) ==> worker.live(fd)
            && !worker.step(c).next.live(fd),
{
    let actions = worker.step(c).actions;
    count_short(actions, Action::Close { fd });
    occurrences_positive(actions, Action::Close { fd });
}

/// A receive is only ever armed on a connection that is live when the record
/// has been handled, and with the worker's buffer group. On a descriptor
/// that is not live, only a record of the accept operation that brings that
/// very descriptor arms one.
pub proof fn receive_only_on_live(worker: WorkerModel, c: Completion, fd: i32, group: u16)
    requires
        worker.step(c).actions.contains(Action::ArmReceive { fd, group }),
    ensures
        group == worker.group,
        worker.step(c).next.armed(fd),
        worker.live(fd) || (c.spec_tag() == Some(Tag::Accept) && c.result == fd),
{
    let actions = worker.step(c).actions;
    let i = choose|i: int| 0 <= i < actions.len() && actions[i] == (Action::ArmReceive { fd, group });
    assert(actions[i] == (Action::ArmReceive { fd, group }));
}

/// The worker's flag for a descriptor, kept as a ledger: after a record it
/// stands for what it stood for before, less the receive that the record
/// ended, plus the receives that the worker armed. The one record left out
/// is "peer closed" on a receive that the record itself says is still armed.
pub proof fn receive_ledger(worker: WorkerModel, c: Completion, fd: i32)
    requires
        !closes_while_armed(worker, c, fd),
    ensures
        receives_in_flight(worker.step(c).next, fd) == (if retires(c, Tag::Data(fd))
            && worker.armed(fd) {
            0nat
        } else {
            receives_in_flight(worker, fd)
        }) + occurrences(
            worker.step(c).actions,
            Action::ArmReceive { fd, group: worker.group },
        ),
{
    let actions = worker.step(c).actions;
    count_short(actions, Action::ArmReceive { fd, group: worker.group });
}

/// The receives in flight on `fd` after a run, counted from what happened:
/// the one in flight at the start, if there was one, plus every receive
/// that the worker armed, less every receive that a handled record ended.
pub open spec fn counted_in_flight(worker: WorkerModel, records: Seq<Completion>, fd: i32) -> int
    decreases records.len(),
{
    if records.len() == 0 {
        receives_in_flight(worker, fd) as int
    } else {
        let before = worker.run(records.drop_last());
        let earlier = counted_in_flight(worker, records.drop_last(), fd);
        let step = before.state.step(records.last());
        if before.fatal is Some || step.outcome is Err {
            earlier
        } else {
            earlier - (if retires(records.last(), Tag::Data(fd)) {
                1int
            } else {
                0int
            }) + occurrences(step.actions, Action::ArmReceive { fd, group: worker.group })
        }
    }
}

/// At most one receive is in flight on a descriptor at any time, so no two
/// operations in flight carry the same descriptor's correlation value: what
/// the worker armed, less what records ended, never exceeds what the
/// worker's flag stands for, which is one at most. Left out are the runs
/// with a record that says "peer closed" of a receive that it also says is
/// still armed.
pub proof fn one_receive_in_flight(worker: WorkerModel, records: Seq<Completion>, fd: i32)
    requires
        worker.wf(),
        forall|k: int|
            0 <= k < records.len() ==> !closes_while_armed(
                worker.run(#[trigger] records.take(k)).state,
                records[k],
                fd,
            ),
    ensures
        counted_in_flight(worker, records, fd) <= receives_in_flight(
            worker.run(records).state,
            fd,
        ),
        counted_in_flight(worker, records, fd) <= 1,
    decreases records.len(),
{
    if records.len() > 0 {
        let shorter = records.drop_last();
        let before = worker.run(shorter);
        assert forall|k: int| 0 <= k < shorter.len() implies !closes_while_armed(
            worker.run(#[trigger] shorter.take(k)).state,
            shorter[k],
            fd,
        ) by {
            assert(shorter.take(k) =~= records.take(k));
        }
        one_receive_in_flight(worker, shorter, fd);
        run_keeps_books(worker, shorter);
        assert(records.take(records.len() - 1) =~= shorter);
        assert(!closes_while_armed(before.state, records[records.len() - 1], fd));
        receive_ledger(before.state, records.last(), fd);
    }
}

/// How many of the records end the listening operation of a worker of this
/// strategy.
pub open spec fn listening_ends(strategy: Strategy, records: Seq<Completion>) -> nat
    decreases records.len(),
{
    if records.len() == 0 {
        0
    } else {
        listening_ends(strategy, records.drop_last()) + if ends_listening(
            strategy,
            records.last(),
        ) {
            1nat
        } else {
            0nat
        }
    }
}

/// Whether the record is one of the accept operation that brings `fd`.
pub open spec fn brings(c: Completion, fd: i32) -> bool {
    c.spec_tag() == Some(Tag::Accept) && c.result == fd
}

/// One if `fd` is a live connection, zero if not.
pub open spec fn live_count(worker: WorkerModel, fd: i32) -> nat {
    if worker.live(fd) {
        1
    } else {
        0
    }
}

/// A run of records leaves the worker's invariant, its strategy and buffer
/// group and the pool's layout as they were, and lends no slot.
pub proof fn run_keeps_books(worker: WorkerModel, records: Seq<Completion>)
    requires
        worker.wf(),
    ensures
        worker.run(records).state.wf(),
        worker.run(records).state.pool.capacity == worker.pool.capacity,
        worker.run(records).state.pool.slot_size == worker.pool.slot_size,
        worker.run(records).state.pool.lent.subset_of(worker.pool.lent),
        worker.run(records).state.strategy == worker.strategy,
        worker.run(records).state.group == worker.group,
    decreases records.len(),
{
    if records.len() > 0 {
        run_keeps_books(worker, records.drop_last());
        step_keeps_books(worker.run(records.drop_last()).state, records.last());
    }
}

/// A run leaves one event for each record that it handled: all of them
/// where no failure ended it, and fewer where one did.
pub proof fn run_counts_handled(worker: WorkerModel, records: Seq<Completion>)
    ensures
        worker.run(records).events.len() <= records.len(),
        worker.run(records).fatal is None ==> worker.run(records).events.len() == records.len(),
        worker.run(records).fatal is Some ==> worker.run(records).events.len() < records.len(),
    decreases records.len(),
{
    if records.len() > 0 {
        run_counts_handled(worker, records.drop_last());
    }
}

/// Within one batch a worker never stops listening: over the records that a
/// run handled, the listening operation is armed again exactly as often as
/// records ended it. The record of a failed accept is not among them; it
/// stops the worker, which is not silent.
pub proof fn run_keeps_listening(worker: WorkerModel, records: Seq<Completion>)
    requires
        worker.wf(),
    ensures
        occurrences(worker.run(records).actions, worker.listen_action()) == listening_ends(
            worker.strategy,
            records.take(worker.run(records).events.len() as int),
        ),
    decreases records.len(),
{
    let handled = worker.run(records).events.len() as int;
    run_counts_handled(worker, records);
    if records.len() == 0 {
        assert(records.take(handled) =~= records);
    } else {
        let before = worker.run(records.drop_last());
        let step = before.state.step(records.last());
        run_keeps_listening(worker, records.drop_last());
        run_counts_handled(worker, records.drop_last());
        run_keeps_books(worker, records.drop_last());
        if before.fatal is Some || step.outcome is Err {
            assert(records.take(handled) =~= records.drop_last().take(handled));
        } else {
            assert(records.take(handled) =~= records);
            assert(records.drop_last().take(handled - 1) =~= records.drop_last());
            listening_rearmed(before.state, records.last());
            occurrences_add(before.actions, step.actions, worker.listen_action());
        }
    }
}

/// Over a run in which no accept brings `fd`, the descriptor is released at
/// most once: once if the connection was live and is gone, never otherwise.
pub proof fn run_releases_once(worker: WorkerModel, records: Seq<Completion>, fd: i32)
    requires
        forall|i: int| 0 <= i < records.len() ==> !brings(#[trigger] records[i], fd),
    ensures
        occurrences(worker.run(records).actions, Action::Close { fd }) + live_count(
            worker.run(records).state,
            fd,
        ) == live_count(worker, fd),
    decreases records.len(),
{
    if records.len() > 0 {
        let before = worker.run(records.drop_last());
        assert forall|i: int| 0 <= i < records.drop_last().len() implies !brings(
            #[trigger] records.drop_last()[i],
            fd,
        ) by {
            assert(records.drop_last()[i] == records[i]);
        }
        run_releases_once(worker, records.drop_last(), fd);
        assert(!brings(records[records.len() - 1], fd));
        released_once(before.state, records.last(), fd);
        occurrences_add(
            before.actions,
            before.state.step(records.last()).actions,
            Action::Close { fd },
        );
    }
}

/// Once a descriptor is not live, nothing refers to it until an accept
/// brings it again: over a run in which none does, the worker neither
/// releases it nor arms a receive on it, and it stays not live.
pub proof fn run_leaves_closed_alone(
    worker: WorkerModel,
    records: Seq<Completion>,
    fd: i32,
    group: u16,
)
    requires
        !worker.live(fd),
        forall|i: int| 0 <= i < records.len() ==> !brings(#[trigger] records[i], fd),
    ensures
        !worker.run(records).state.live(fd),
        !worker.run(records).actions.contains(Action::Close { fd }),
        !worker.run(records).actions.contains(Action::ArmReceive { fd, group }),
    decreases records.len(),
{
    let arm = Action::ArmReceive { fd, group };
    let close = Action::Close { fd };
    if records.len() > 0 {
        let before = worker.run(records.drop_last());
        let step = before.state.step(records.last());
        assert forall|i: int| 0 <= i < records.drop_last().len() implies !brings(
            #[trigger] records.drop_last()[i],
            fd,
        ) by {
            assert(records.drop_last()[i] == records[i]);
        }
        run_leaves_closed_alone(worker, records.drop_last(), fd, group);
        assert(!brings(records[records.len() - 1], fd));
        released_once(before.state, records.last(), fd);
        if step.actions.contains(arm) {
            receive_only_on_live(before.state, records.last(), fd, group);
        }
        occurrences_positive(before.actions, arm);
        occurrences_positive(before.actions, close);
        occurrences_positive(step.actions, arm);
        occurrences_positive(step.actions, close);
        occurrences_add(before.actions, step.actions, arm);
        occurrences_add(before.actions, step.actions, close);
        occurrences_positive(before.actions + step.actions, arm);
        occurrences_positive(before.actions + step.actions, close);
    } else {
        occurrences_positive(worker.run(records).actions, arm);
        occurrences_positive(worker.run(records).actions, close);
    }
}

/// The bytes that the events report as received on `fd`.
pub open spec fn reported_on(events: Seq<Event>, fd: i32) -> nat
    decreases events.len(),
{
    if events.len() == 0 {
        0
    } else {
        reported_on(events.drop_last(), fd) + match events.last() {
            Event::Received { fd: on, bytes } => if on == fd {
                bytes as nat
            } else {
                0nat
            },
            _ => 0nat,
        }
    }
}

/// The bytes that the records say the kernel delivered on `fd`: the sum of
/// the positive results of its receive records.
pub open spec fn delivered_on(records: Seq<Completion>, fd: i32) -> nat
    decreases records.len(),
{
    if records.len() == 0 {
        0
    } else {
        delivered_on(records.drop_last(), fd) + if records.last().spec_tag() == Some(Tag::Data(fd))
            && records.last().result > 0 {
            records.last().result as nat
        } else {
            0nat
        }
    }
}

/// A worker never reports more bytes on a descriptor than the records
/// delivered on it.
pub proof fn run_reports_what_arrived(worker: WorkerModel, records: Seq<Completion>, fd: i32)
    ensures
        reported_on(worker.run(records).events, fd) <= delivered_on(records, fd),
    decreases records.len(),
{
    if records.len() > 0 {
        let before = worker.run(records.drop_last());
        run_reports_what_arrived(worker, records.drop_last(), fd);
        if before.fatal is None {
            let step = before.state.step(records.last());
            if let Ok(event) = step.outcome {
                assert(before.events.push(event).drop_last() =~= before.events);
            }
        }
    }
}

/// Unfolds the count of an action in a sequence of at most three actions.
proof fn count_short(actions: Seq<Action>, action: Action)
    requires
        actions.len() <= 3,
    ensures
        occurrences(actions, action) == (if actions.len() > 0 && actions[0] == action {
            1nat
        } else {
            0nat
        }) + (if actions.len() > 1 && actions[1] == action {
            1nat
        } else {
            0nat
        }) + (if actions.len() > 2 && actions[2] == action {
            1nat
        } else {
            0nat
        }),
    decreases actions.len(),
{
    if actions.len() > 0 {
        count_short(actions.drop_last(), action);
    }
}

} // verus!
