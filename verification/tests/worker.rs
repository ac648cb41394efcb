use ring_sink::completion::Completion;
use ring_sink::correlation::{Tag, ACCEPT, READINESS};
use ring_sink::pool::{BufferPool, Region};
use ring_sink::worker::{errno, Action, Event, Fatal, Strategy, Worker};

const MORE: u32 = 2;

fn buffer(id: u32) -> u32 {
    (id << 16) | 1
}

fn started(strategy: Strategy, slots: u16) -> Worker {
    let pool = BufferPool::reserve(slots, 4096).unwrap();
    let mut actions = Vec::new();
    Worker::start(strategy, 42, pool, &mut actions)
}

fn accept(fd: i32, flags: u32) -> Completion {
    Completion { user_data: ACCEPT, result: fd, flags }
}

fn data(fd: i32, result: i32, flags: u32) -> Completion {
    Completion { user_data: fd as u64, result, flags }
}

fn handle(w: &mut Worker, c: Completion) -> (Result<Event, Fatal>, Vec<Action>) {
    let mut actions = Vec::new();
    let outcome = w.on_completion(c, &mut actions);
    (outcome, actions)
}

#[test]
fn start_provides_every_slot_then_arms_accept() {
    let pool = BufferPool::reserve(3, 4096).unwrap();
    let mut actions = vec![Action::Close { fd: 1 }];
    let w = Worker::start(Strategy::MultishotAccept, 42, pool, &mut actions);
    assert_eq!(
        actions,
        vec![
            Action::Close { fd: 1 },
            Action::Provide { region: Region { id: 0, offset: 0, len: 4096 } },
            Action::Provide { region: Region { id: 1, offset: 4096, len: 4096 } },
            Action::Provide { region: Region { id: 2, offset: 8192, len: 4096 } },
            Action::ArmAccept,
        ]
    );
    assert_eq!(w.strategy(), Strategy::MultishotAccept);
    assert_eq!(w.group(), 42);
    assert_eq!(w.connections(), 0);
    assert_eq!(w.pool().free_count(), 3);
}

#[test]
fn start_on_a_shared_socket_arms_readiness() {
    let pool = BufferPool::reserve(1, 16).unwrap();
    let mut actions = Vec::new();
    let w = Worker::start(Strategy::PollThenAccept, 7, pool, &mut actions);
    assert_eq!(
        actions,
        vec![
            Action::Provide { region: Region { id: 0, offset: 0, len: 16 } },
            Action::ArmReadiness,
        ]
    );
    assert_eq!(w.strategy(), Strategy::PollThenAccept);
    assert_eq!(w.group(), 7);
}

#[test]
fn action_tags_identify_the_operation() {
    assert_eq!(Action::ArmAccept.tag(), Some(Tag::Accept));
    assert_eq!(Action::AcceptOnce.tag(), Some(Tag::Accept));
    assert_eq!(Action::ArmReadiness.tag(), Some(Tag::Readiness));
    assert_eq!(Action::ArmReceive { fd: 9, group: 42 }.tag(), Some(Tag::Data(9)));
    assert_eq!(Action::Close { fd: 9 }.tag(), None);
    assert_eq!(
        Action::Provide { region: Region { id: 0, offset: 0, len: 1 } }.tag(),
        None
    );
}

#[test]
fn correlation_is_the_encoded_tag() {
    assert_eq!(Action::ArmAccept.correlation(), Some(u64::MAX));
    assert_eq!(Action::AcceptOnce.correlation(), Some(u64::MAX));
    assert_eq!(Action::ArmReadiness.correlation(), Some(u64::MAX - 1));
    assert_eq!(Action::ArmReceive { fd: 9, group: 42 }.correlation(), Some(9));
    assert_eq!(Action::ArmReceive { fd: 0, group: 42 }.correlation(), Some(0));
    assert_eq!(Action::ArmReceive { fd: -1, group: 42 }.correlation(), None);
    assert_eq!(Action::Close { fd: 9 }.correlation(), None);
    assert_eq!(
        Action::Provide { region: Region { id: 0, offset: 0, len: 1 } }.correlation(),
        None
    );
}

#[test]
fn errno_negates_the_result() {
    assert_eq!(errno(-1), 1);
    assert_eq!(errno(-104), 104);
    assert_eq!(errno(i32::MIN), 0x8000_0000);
    assert_eq!(errno(-i32::MAX), 0x7fff_ffff);
}

#[test]
fn accept_arms_a_receive_on_the_new_descriptor() {
    let mut w = started(Strategy::MultishotAccept, 4);
    let (outcome, actions) = handle(&mut w, accept(9, MORE));
    assert_eq!(outcome, Ok(Event::Connected { fd: 9 }));
    assert_eq!(actions, vec![Action::ArmReceive { fd: 9, group: 42 }]);
    assert!(w.is_live(9));
    assert!(w.is_armed(9));
    assert_eq!(w.connections(), 1);
}

#[test]
fn accept_that_ended_is_armed_again() {
    let mut w = started(Strategy::MultishotAccept, 4);
    let (outcome, actions) = handle(&mut w, accept(9, 0));
    assert_eq!(outcome, Ok(Event::Connected { fd: 9 }));
    assert_eq!(actions, vec![Action::ArmReceive { fd: 9, group: 42 }, Action::ArmAccept]);
}

#[test]
fn accept_of_descriptor_zero_is_a_connection() {
    let mut w = started(Strategy::MultishotAccept, 4);
    let (outcome, actions) = handle(&mut w, accept(0, MORE));
    assert_eq!(outcome, Ok(Event::Connected { fd: 0 }));
    assert_eq!(actions, vec![Action::ArmReceive { fd: 0, group: 42 }]);
    let (outcome, actions) = handle(&mut w, data(0, 0, 0));
    assert_eq!(outcome, Ok(Event::Disconnected { fd: 0 }));
    assert_eq!(actions, vec![Action::Close { fd: 0 }]);
}

#[test]
fn failed_accept_is_fatal_and_changes_nothing() {
    let mut w = started(Strategy::MultishotAccept, 4);
    let _ = handle(&mut w, accept(9, MORE));
    let (outcome, actions) = handle(&mut w, accept(-24, 0));
    assert_eq!(outcome, Err(Fatal::AcceptFailed { errno: 24 }));
    assert_eq!(actions, vec![]);
    assert_eq!(w.connections(), 1);
    assert!(w.is_armed(9));
}

#[test]
fn accept_of_a_descriptor_with_a_receive_in_flight_arms_no_second_one() {
    let mut w = started(Strategy::MultishotAccept, 4);
    let _ = handle(&mut w, accept(9, MORE));
    let (outcome, actions) = handle(&mut w, accept(9, MORE));
    assert_eq!(outcome, Ok(Event::Connected { fd: 9 }));
    assert_eq!(actions, vec![]);
    assert_eq!(w.connections(), 1);
}

#[test]
fn single_accept_on_a_shared_socket_is_not_armed_again() {
    let mut w = started(Strategy::PollThenAccept, 4);
    let (outcome, actions) = handle(&mut w, accept(9, 0));
    assert_eq!(outcome, Ok(Event::Connected { fd: 9 }));
    assert_eq!(actions, vec![Action::ArmReceive { fd: 9, group: 42 }]);
}

#[test]
fn readiness_issues_one_accept() {
    let mut w = started(Strategy::PollThenAccept, 4);
    let ready = Completion { user_data: READINESS, result: 1, flags: MORE };
    let (outcome, actions) = handle(&mut w, ready);
    assert_eq!(outcome, Ok(Event::Ready));
    assert_eq!(actions, vec![Action::AcceptOnce]);
}

#[test]
fn readiness_that_ended_is_armed_again() {
    let mut w = started(Strategy::PollThenAccept, 4);
    let ready = Completion { user_data: READINESS, result: 1, flags: 0 };
    let (outcome, actions) = handle(&mut w, ready);
    assert_eq!(outcome, Ok(Event::Ready));
    assert_eq!(actions, vec![Action::AcceptOnce, Action::ArmReadiness]);
}

#[test]
fn readiness_means_nothing_to_a_worker_with_its_own_socket() {
    let mut w = started(Strategy::MultishotAccept, 4);
    let ready = Completion { user_data: READINESS, result: 1, flags: 0 };
    let (outcome, actions) = handle(&mut w, ready);
    assert_eq!(outcome, Ok(Event::Ignored));
    assert_eq!(actions, vec![]);
}

#[test]
fn received_bytes_put_the_buffer_back() {
    let mut w = started(Strategy::MultishotAccept, 4);
    let _ = handle(&mut w, accept(9, MORE));
    let (outcome, actions) = handle(&mut w, data(9, 1500, MORE | buffer(2)));
    assert_eq!(outcome, Ok(Event::Received { fd: 9, bytes: 1500 }));
    assert_eq!(
        actions,
        vec![Action::Provide { region: Region { id: 2, offset: 8192, len: 4096 } }]
    );
    assert!(w.is_armed(9));
    assert_eq!(w.pool().free_count(), 4);
    assert_eq!(w.pool().lent_count(), 0);
}

#[test]
fn receive_that_ended_after_bytes_is_armed_again() {
    let mut w = started(Strategy::MultishotAccept, 4);
    let _ = handle(&mut w, accept(9, MORE));
    let (outcome, actions) = handle(&mut w, data(9, 10, buffer(0)));
    assert_eq!(outcome, Ok(Event::Received { fd: 9, bytes: 10 }));
    assert_eq!(
        actions,
        vec![
            Action::Provide { region: Region { id: 0, offset: 0, len: 4096 } },
            Action::ArmReceive { fd: 9, group: 42 },
        ]
    );
    assert!(w.is_armed(9));
}

#[test]
fn peer_close_releases_the_descriptor() {
    let mut w = started(Strategy::MultishotAccept, 4);
    let _ = handle(&mut w, accept(9, MORE));
    let (outcome, actions) = handle(&mut w, data(9, 0, 0));
    assert_eq!(outcome, Ok(Event::Disconnected { fd: 9 }));
    assert_eq!(actions, vec![Action::Close { fd: 9 }]);
    assert!(!w.is_live(9));
    assert!(!w.is_armed(9));
    assert_eq!(w.connections(), 0);
}

#[test]
fn peer_close_with_a_buffer_releases_then_provides() {
    let mut w = started(Strategy::MultishotAccept, 4);
    let _ = handle(&mut w, accept(9, MORE));
    let (outcome, actions) = handle(&mut w, data(9, 0, buffer(3)));
    assert_eq!(outcome, Ok(Event::Disconnected { fd: 9 }));
    assert_eq!(
        actions,
        vec![
            Action::Close { fd: 9 },
            Action::Provide { region: Region { id: 3, offset: 12288, len: 4096 } },
        ]
    );
}

#[test]
fn descriptor_is_released_once() {
    let mut w = started(Strategy::MultishotAccept, 4);
    let _ = handle(&mut w, accept(9, MORE));
    let (_, first) = handle(&mut w, data(9, 0, 0));
    assert_eq!(first, vec![Action::Close { fd: 9 }]);
    let (outcome, second) = handle(&mut w, data(9, 0, 0));
    assert_eq!(outcome, Ok(Event::Ignored));
    assert_eq!(second, vec![]);
}

#[test]
fn nothing_is_armed_on_a_closed_descriptor() {
    let mut w = started(Strategy::MultishotAccept, 4);
    let _ = handle(&mut w, accept(9, MORE));
    let _ = handle(&mut w, data(9, 0, 0));
    let (outcome, actions) = handle(&mut w, data(9, 100, buffer(1)));
    assert_eq!(outcome, Ok(Event::Ignored));
    assert_eq!(
        actions,
        vec![Action::Provide { region: Region { id: 1, offset: 4096, len: 4096 } }]
    );
    assert!(!w.is_live(9));
}

#[test]
fn closed_descriptor_can_come_back_with_a_new_accept() {
    let mut w = started(Strategy::MultishotAccept, 4);
    let _ = handle(&mut w, accept(9, MORE));
    let _ = handle(&mut w, data(9, 0, 0));
    let (outcome, actions) = handle(&mut w, accept(9, MORE));
    assert_eq!(outcome, Ok(Event::Connected { fd: 9 }));
    assert_eq!(actions, vec![Action::ArmReceive { fd: 9, group: 42 }]);
    assert!(w.is_armed(9));
}

#[test]
fn receive_error_is_reported_and_not_fatal() {
    let mut w = started(Strategy::MultishotAccept, 4);
    let _ = handle(&mut w, accept(9, MORE));
    let (outcome, actions) = handle(&mut w, data(9, -104, MORE));
    assert_eq!(outcome, Ok(Event::ReceiveFailed { fd: 9, errno: 104 }));
    assert_eq!(actions, vec![]);
    assert!(w.is_live(9));
    assert!(w.is_armed(9));
}

#[test]
fn receive_that_ended_with_an_error_is_not_armed_again() {
    let mut w = started(Strategy::MultishotAccept, 4);
    let _ = handle(&mut w, accept(9, MORE));
    let (outcome, actions) = handle(&mut w, data(9, -105, 0));
    assert_eq!(outcome, Ok(Event::ReceiveFailed { fd: 9, errno: 105 }));
    assert_eq!(actions, vec![]);
    assert!(w.is_live(9));
    assert!(!w.is_armed(9));
    let (outcome, actions) = handle(&mut w, data(9, 0, 0));
    assert_eq!(outcome, Ok(Event::Disconnected { fd: 9 }));
    assert_eq!(actions, vec![Action::Close { fd: 9 }]);
}

#[test]
fn buffer_goes_back_whatever_the_result() {
    let mut w = started(Strategy::MultishotAccept, 4);
    let _ = handle(&mut w, accept(9, MORE));
    let (_, actions) = handle(&mut w, data(9, -5, MORE | buffer(1)));
    assert_eq!(
        actions,
        vec![Action::Provide { region: Region { id: 1, offset: 4096, len: 4096 } }]
    );
}

#[test]
fn buffer_of_a_record_for_an_unknown_descriptor_goes_back_too() {
    let mut w = started(Strategy::MultishotAccept, 4);
    let (outcome, actions) = handle(&mut w, data(77, -9, buffer(2)));
    assert_eq!(outcome, Ok(Event::Ignored));
    assert_eq!(
        actions,
        vec![Action::Provide { region: Region { id: 2, offset: 8192, len: 4096 } }]
    );
    assert_eq!(w.pool().free_count(), 4);
}

#[test]
fn buffer_flag_on_an_accept_record_provides_nothing() {
    let mut w = started(Strategy::MultishotAccept, 4);
    let (outcome, actions) = handle(&mut w, accept(9, MORE | buffer(1)));
    assert_eq!(outcome, Ok(Event::Connected { fd: 9 }));
    assert_eq!(actions, vec![Action::ArmReceive { fd: 9, group: 42 }]);
}

#[test]
fn buffer_that_the_pool_does_not_have_is_not_provided() {
    let mut w = started(Strategy::MultishotAccept, 4);
    let _ = handle(&mut w, accept(9, MORE));
    let (outcome, actions) = handle(&mut w, data(9, 10, MORE | buffer(4)));
    assert_eq!(outcome, Ok(Event::Received { fd: 9, bytes: 10 }));
    assert_eq!(actions, vec![]);
    assert_eq!(w.pool().free_count(), 4);
}

#[test]
fn record_without_a_tag_is_ignored() {
    let mut w = started(Strategy::MultishotAccept, 4);
    let stray = Completion { user_data: 1 << 40, result: 0, flags: buffer(1) };
    let (outcome, actions) = handle(&mut w, stray);
    assert_eq!(outcome, Ok(Event::Ignored));
    assert_eq!(actions, vec![]);
}

#[test]
fn record_for_an_unknown_descriptor_closes_nothing() {
    let mut w = started(Strategy::MultishotAccept, 4);
    let (outcome, actions) = handle(&mut w, data(0, 0, 0));
    assert_eq!(outcome, Ok(Event::Ignored));
    assert_eq!(actions, vec![]);
}

#[test]
fn at_most_one_receive_is_in_flight_per_descriptor() {
    let mut w = started(Strategy::MultishotAccept, 4);
    let records = [
        accept(5, MORE),
        data(5, 10, MORE | buffer(0)),
        data(5, 10, buffer(1)),
        accept(5, MORE),
        data(5, -11, 0),
        data(5, 7, 0),
        data(5, 7, MORE),
        data(5, 0, 0),
        data(5, 3, 0),
        accept(5, 0),
    ];
    let mut in_flight: i64 = 0;
    for c in records {
        let (outcome, actions) = handle(&mut w, c);
        assert!(outcome.is_ok());
        if c.tag() == Some(Tag::Data(5)) && !c.more() && in_flight > 0 {
            in_flight -= 1;
        }
        for a in &actions {
            if a.tag() == Some(Tag::Data(5)) {
                in_flight += 1;
            }
        }
        assert!(in_flight <= 1);
        assert_eq!(in_flight == 1, w.is_armed(5));
    }
}

#[test]
fn drain_handles_records_in_arrival_order() {
    let mut w = started(Strategy::MultishotAccept, 4);
    let mut actions = Vec::new();
    let mut events = Vec::new();
    let records = [
        accept(5, MORE),
        accept(6, 0),
        data(5, 100, MORE | buffer(0)),
        data(6, 0, 0),
        data(5, 50, buffer(1)),
    ];
    assert_eq!(w.drain(&records, &mut actions, &mut events), Ok(()));
    assert_eq!(
        events,
        vec![
            Event::Connected { fd: 5 },
            Event::Connected { fd: 6 },
            Event::Received { fd: 5, bytes: 100 },
            Event::Disconnected { fd: 6 },
            Event::Received { fd: 5, bytes: 50 },
        ]
    );
    assert_eq!(
        actions,
        vec![
            Action::ArmReceive { fd: 5, group: 42 },
            Action::ArmReceive { fd: 6, group: 42 },
            Action::ArmAccept,
            Action::Provide { region: Region { id: 0, offset: 0, len: 4096 } },
            Action::Close { fd: 6 },
            Action::Provide { region: Region { id: 1, offset: 4096, len: 4096 } },
            Action::ArmReceive { fd: 5, group: 42 },
        ]
    );
    assert!(w.is_armed(5));
    assert!(!w.is_live(6));
}

#[test]
fn drain_of_nothing_changes_nothing() {
    let mut w = started(Strategy::MultishotAccept, 4);
    let mut actions = vec![Action::ArmAccept];
    let mut events = vec![Event::Ready];
    assert_eq!(w.drain(&[], &mut actions, &mut events), Ok(()));
    assert_eq!(actions, vec![Action::ArmAccept]);
    assert_eq!(events, vec![Event::Ready]);
}

#[test]
fn drain_stops_at_a_failed_accept() {
    let mut w = started(Strategy::MultishotAccept, 4);
    let mut actions = Vec::new();
    let mut events = Vec::new();
    let records = [accept(5, MORE), accept(-23, 0), accept(6, MORE), data(5, 0, 0)];
    assert_eq!(
        w.drain(&records, &mut actions, &mut events),
        Err(Fatal::AcceptFailed { errno: 23 })
    );
    assert_eq!(events, vec![Event::Connected { fd: 5 }]);
    assert_eq!(actions, vec![Action::ArmReceive { fd: 5, group: 42 }]);
    assert!(w.is_live(5));
    assert!(!w.is_live(6));
}

#[test]
fn every_ended_accept_is_armed_again_within_the_batch() {
    let mut w = started(Strategy::MultishotAccept, 4);
    let mut actions = Vec::new();
    let mut events = Vec::new();
    let records = [
        accept(5, 0),
        data(5, 1, MORE),
        accept(6, MORE),
        accept(7, 0),
        data(7, 0, 0),
        accept(8, 0),
    ];
    assert_eq!(w.drain(&records, &mut actions, &mut events), Ok(()));
    let rearmed = actions.iter().filter(|a| **a == Action::ArmAccept).count();
    assert_eq!(rearmed, 3);
}

#[test]
fn every_ended_readiness_is_armed_again_within_the_batch() {
    let mut w = started(Strategy::PollThenAccept, 4);
    let mut actions = Vec::new();
    let mut events = Vec::new();
    let ready = |flags: u32| Completion { user_data: READINESS, result: 1, flags };
    let records = [ready(MORE), ready(0), accept(5, 0), ready(0), ready(MORE)];
    assert_eq!(w.drain(&records, &mut actions, &mut events), Ok(()));
    let rearmed = actions.iter().filter(|a| **a == Action::ArmReadiness).count();
    let accepts = actions.iter().filter(|a| **a == Action::AcceptOnce).count();
    assert_eq!(rearmed, 2);
    assert_eq!(accepts, 4);
    assert!(!actions.contains(&Action::ArmAccept));
}

#[test]
fn reported_bytes_never_exceed_what_arrived() {
    let mut w = started(Strategy::MultishotAccept, 4);
    let mut actions = Vec::new();
    let mut events = Vec::new();
    let records = [
        data(5, 1000, MORE),
        accept(5, MORE),
        data(5, 300, MORE | buffer(0)),
        data(5, -104, MORE),
        data(5, 200, MORE | buffer(1)),
        data(5, 0, 0),
        data(5, 999, buffer(2)),
    ];
    assert_eq!(w.drain(&records, &mut actions, &mut events), Ok(()));
    let arrived: u64 = records
        .iter()
        .filter(|c| c.tag() == Some(Tag::Data(5)) && c.result > 0)
        .map(|c| c.result as u64)
        .sum();
    let mut reported: u64 = 0;
    for e in &events {
        if let Event::Received { fd: 5, bytes } = e {
            reported += *bytes as u64;
        }
    }
    assert_eq!(arrived, 2499);
    assert_eq!(reported, 500);
    assert!(reported <= arrived);
}
