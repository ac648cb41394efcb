use ring_sink::completion::Completion;
use ring_sink::correlation::ACCEPT;
use ring_sink::orchestrator::{BUFFER_COUNT, BUFFER_GROUP, BUFFER_SIZE};
use ring_sink::pool::{BufferPool, Region};
use ring_sink::submit::{next_move, Next};
use ring_sink::worker::{Action, Event, Strategy, Worker};

const MORE: u32 = 2;

fn buffer(id: u32) -> u32 {
    (id << 16) | 1
}

#[test]
fn one_client_sends_ten_mebibytes_and_closes() {
    let pool = BufferPool::reserve(BUFFER_COUNT, BUFFER_SIZE).unwrap();
    let mut actions = Vec::new();
    let mut worker = Worker::start(Strategy::MultishotAccept, BUFFER_GROUP, pool, &mut actions);
    assert_eq!(actions.len(), 257);
    actions.clear();

    let fd = 11;
    let mut events = Vec::new();
    let first = [Completion { user_data: ACCEPT, result: fd, flags: MORE }];
    assert_eq!(worker.drain(&first, &mut actions, &mut events), Ok(()));

    let mut batch = Vec::new();
    for i in 0..10u32 {
        batch.push(Completion {
            user_data: fd as u64,
            result: 1024 * 1024,
            flags: MORE | buffer(i % 4),
        });
    }
    assert_eq!(next_move(Ok(0)), Next::Drain);
    assert_eq!(worker.drain(&batch, &mut actions, &mut events), Ok(()));
    let last = [Completion { user_data: fd as u64, result: 0, flags: 0 }];
    assert_eq!(worker.drain(&last, &mut actions, &mut events), Ok(()));

    let connects = events.iter().filter(|e| matches!(e, Event::Connected { .. })).count();
    let disconnects = events.iter().filter(|e| matches!(e, Event::Disconnected { .. })).count();
    let errors = events.iter().filter(|e| matches!(e, Event::ReceiveFailed { .. })).count();
    let mut total: u64 = 0;
    for e in &events {
        if let Event::Received { fd: on, bytes } = e {
            assert_eq!(*on, fd);
            total += *bytes as u64;
        }
    }
    assert_eq!(connects, 1);
    assert_eq!(disconnects, 1);
    assert_eq!(errors, 0);
    assert_eq!(total, 10 * 1024 * 1024);
    assert_eq!(events.len(), 12);

    let provided = actions.iter().filter(|a| matches!(a, Action::Provide { .. })).count();
    let closed = actions.iter().filter(|a| **a == Action::Close { fd }).count();
    assert_eq!(provided, 10);
    assert_eq!(closed, 1);
    assert_eq!(actions.first(), Some(&Action::ArmReceive { fd, group: BUFFER_GROUP }));
    assert_eq!(actions.last(), Some(&Action::Close { fd }));
    assert_eq!(worker.connections(), 0);
    assert_eq!(worker.pool().free_count(), 256);
}

#[test]
fn more_receives_than_slots_never_share_a_slot() {
    let pool = BufferPool::reserve(2, 4096).unwrap();
    let mut actions = Vec::new();
    let mut worker = Worker::start(Strategy::MultishotAccept, 42, pool, &mut actions);
    actions.clear();
    let mut events = Vec::new();
    let accepts = [
        Completion { user_data: ACCEPT, result: 5, flags: MORE },
        Completion { user_data: ACCEPT, result: 6, flags: MORE },
        Completion { user_data: ACCEPT, result: 7, flags: MORE },
    ];
    assert_eq!(worker.drain(&accepts, &mut actions, &mut events), Ok(()));
    actions.clear();
    events.clear();

    let no_buffers = -105;
    let batch = [
        Completion { user_data: 5, result: 4096, flags: MORE | buffer(0) },
        Completion { user_data: 6, result: 4096, flags: MORE | buffer(1) },
        Completion { user_data: 7, result: no_buffers, flags: 0 },
        Completion { user_data: 5, result: 100, flags: MORE | buffer(0) },
    ];
    let mut held: Vec<u16> = Vec::new();
    for c in batch {
        if let Some(id) = c.buffer() {
            assert!(!held.contains(&id));
            held.push(id);
        }
        let mut step = Vec::new();
        let outcome = worker.on_completion(c, &mut step);
        assert!(outcome.is_ok());
        events.push(outcome.unwrap());
        for a in &step {
            if let Action::Provide { region } = a {
                held.retain(|id| *id != region.id);
                assert!(region.offset + region.len <= worker.pool().mapping_len());
            }
        }
        assert!(held.is_empty());
        assert_eq!(worker.pool().free_count() + worker.pool().lent_count(), 2);
        actions.extend(step);
    }
    assert_eq!(events[2], Event::ReceiveFailed { fd: 7, errno: 105 });
    assert!(!actions.contains(&Action::ArmReceive { fd: 7, group: 42 }));
    assert!(worker.is_live(7));
    assert!(!worker.is_armed(7));
    assert!(worker.is_armed(5));
    assert!(worker.is_armed(6));
}

#[test]
fn slot_that_the_books_hold_lent_is_handed_back_by_its_record() {
    let mut pool = BufferPool::reserve(256, 4096).unwrap();
    assert!(pool.lend(3).is_ok());
    let mut actions = Vec::new();
    let mut worker = Worker::start(Strategy::MultishotAccept, 42, pool, &mut actions);
    assert_eq!(actions.len(), 256);
    assert!(!actions.contains(&Action::Provide {
        region: Region { id: 3, offset: 3 * 4096, len: 4096 }
    }));
    let _ = worker.on_completion(Completion { user_data: ACCEPT, result: 5, flags: MORE }, &mut actions);
    assert!(worker.is_armed(5));
    assert!(worker.pool().is_lent(3));
    actions.clear();

    let record = Completion { user_data: 5, result: 0, flags: 196609 };
    assert_eq!(record.buffer(), Some(3));
    assert!(!record.more());
    let outcome = worker.on_completion(record, &mut actions);
    assert_eq!(outcome, Ok(Event::Disconnected { fd: 5 }));
    assert_eq!(
        actions,
        vec![
            Action::Close { fd: 5 },
            Action::Provide { region: Region { id: 3, offset: 3 * 4096, len: 4096 } },
        ]
    );
    assert!(worker.pool().is_free(3));
    assert_eq!(worker.pool().lent_count(), 0);
    assert_eq!(worker.pool().free_count(), 256);
    assert!(!worker.is_live(5));
}

#[test]
fn lent_slots_come_back_one_by_one_whatever_the_result() {
    let mut pool = BufferPool::reserve(2, 4096).unwrap();
    let a = pool.lend(0).unwrap();
    let b = pool.lend(1).unwrap();
    assert!(a.offset + a.len <= b.offset || b.offset + b.len <= a.offset);
    assert!(pool.lend(0).is_err());
    assert!(pool.lend(1).is_err());
    assert_eq!(pool.free_count(), 0);
    let mut actions = Vec::new();
    let mut worker = Worker::start(Strategy::MultishotAccept, 42, pool, &mut actions);
    assert_eq!(actions, vec![Action::ArmAccept]);
    let _ = worker.on_completion(Completion { user_data: ACCEPT, result: 5, flags: MORE }, &mut actions);
    actions.clear();

    let outcome = worker.on_completion(
        Completion { user_data: 5, result: 10, flags: MORE | buffer(0) },
        &mut actions,
    );
    assert_eq!(outcome, Ok(Event::Received { fd: 5, bytes: 10 }));
    assert_eq!(actions, vec![Action::Provide { region: a }]);
    assert_eq!(worker.pool().lent_count(), 1);
    assert!(worker.pool().is_free(0));
    assert!(worker.pool().is_lent(1));
    actions.clear();

    let outcome = worker.on_completion(
        Completion { user_data: 5, result: -104, flags: MORE | buffer(1) },
        &mut actions,
    );
    assert_eq!(outcome, Ok(Event::ReceiveFailed { fd: 5, errno: 104 }));
    assert_eq!(actions, vec![Action::Provide { region: b }]);
    assert_eq!(worker.pool().lent_count(), 0);
    assert_eq!(worker.pool().free_count(), 2);
    actions.clear();

    let outcome = worker.on_completion(
        Completion { user_data: 5, result: 10, flags: MORE | buffer(2) },
        &mut actions,
    );
    assert_eq!(outcome, Ok(Event::Received { fd: 5, bytes: 10 }));
    assert_eq!(actions, vec![]);
    assert_eq!(worker.pool().free_count(), 2);
}
