//! The state machine of one ring worker: from its state and one completion
//! record to its next state and the actions to carry out.
//!
//! A worker keeps the buffer pool's books and, for every live connection,
//! whether a receive is armed on it. It never touches the ring: whoever
//! drives it submits what the actions ask for.

use std::collections::HashMap;
use vstd::prelude::*;
use crate::completion::Completion;
use crate::correlation::Tag;
use crate::pool::{BufferPool, PoolModel, Region};

verus! {

broadcast use vstd::std_specs::hash::group_hash_axioms;

/// How a worker learns of new connections.
#[derive(Clone, Copy, Debug, PartialEq, Eq, Structural)]
pub enum Strategy {
    /// The worker has a listening socket of its own and keeps one
    /// self-re-arming accept outstanding on it.
    MultishotAccept,
    /// All workers share one listening socket. Each keeps a self-re-arming
    /// readiness operation on it and issues a single accept whenever it fires.
    PollThenAccept,
}

/// Something for the driver to do.
#[derive(Clone, Copy, Debug, PartialEq, Eq, Structural)]
pub enum Action {
    /// Submit a self-re-arming accept on the listening socket.
    ArmAccept,
    /// Submit a self-re-arming readiness operation on the listening socket.
    ArmReadiness,
    /// Submit one accept on the listening socket.
    AcceptOnce,
    /// Submit a self-re-arming receive on `fd` that takes its buffers from
    /// buffer group `group`.
    ArmReceive { fd: i32, group: u16 },
    /// Put the slot at `region` back into the buffer ring.
    Provide { region: Region },
    /// Release the descriptor.
    Close { fd: i32 },
}

impl Action {
    /// The tag of the operation that the action submits, if it submits one.
    pub open spec fn spec_tag(self) -> Option<Tag> {
        match self {
            Action::ArmAccept => Some(Tag::Accept),
            Action::AcceptOnce => Some(Tag::Accept),
            Action::ArmReadiness => Some(Tag::Readiness),
            Action::ArmReceive { fd, group } => Some(Tag::Data(fd)),
            Action::Provide { region } => None,
            Action::Close { fd } => None,
        }
    }

    /// The correlation value to submit the action's operation with. There is
    /// none where the action submits nothing, nor for a receive on a negative
    /// descriptor, which is no descriptor.
    pub open spec fn spec_correlation(self) -> Option<u64> {
        match self.spec_tag() {
            Some(tag) => if tag.valid() {
                Some(tag.word() as u64)
            } else {
                None
            },
            None => None,
        }
    }

    /// The tag of the operation that the action submits, if it submits one.
    pub fn tag(&self) -> (tag: Option<Tag>)
        ensures
            tag == self.spec_tag(),
    {
        match self {
            Action::ArmAccept => Some(Tag::Accept),
            Action::AcceptOnce => Some(Tag::Accept),
            Action::ArmReadiness => Some(Tag::Readiness),
            Action::ArmReceive { fd, group } => Some(Tag::Data(*fd)),
            Action::Provide { region } => None,
            Action::Close { fd } => None,
        }
    }

    /// The correlation value to submit the action's operation with, if it
    /// submits one.
    pub fn correlation(&self) -> (word: Option<u64>)
        ensures
            word == self.spec_correlation(),
    {
        match self.tag() {
            Some(Tag::Data(fd)) => if fd >= 0 {
                Some(Tag::Data(fd).encode())
            } else {
                None
            },
            Some(tag) => Some(tag.encode()),
            None => None,
        }
    }
}

/// What a completion record meant, for the log.
#[derive(Clone, Copy, Debug, PartialEq, Eq, Structural)]
pub enum Event {
    /// A connection was accepted.
    Connected { fd: i32 },
    /// The peer closed the connection.
    Disconnected { fd: i32 },
    /// Bytes arrived on the connection.
    Received { fd: i32, bytes: u32 },
    /// A receive on the connection failed with this error number.
    ReceiveFailed { fd: i32, errno: u32 },
    /// The shared listening socket became readable.
    Ready,
    /// The record concerns nothing that the worker knows of.
    Ignored,
}

/// Why a worker cannot go on.
#[derive(Clone, Copy, Debug, PartialEq, Eq, Structural)]
pub enum Fatal {
    /// An accept failed with this error number.
    AcceptFailed { errno: u32 },
}

/// The error number that a negative result stands for.
pub open spec fn errno_of(result: i32) -> u32 {
    (-(result as int)) as u32
}

/// The error number that a negative result stands for.
pub fn errno(result: i32) -> (errno: u32)
    requires
        result < 0,
    ensures
        errno == errno_of(result),
{
    if result == i32::MIN {
        0x8000_0000
    } else {
        (-result) as u32
    }
}

/// The state of a worker.
pub struct WorkerModel {
    pub strategy: Strategy,
    /// The buffer group that receives take their buffers from.
    pub group: u16,
    pub pool: PoolModel,
    /// The live connections by descriptor, each with whether a receive is
    /// armed on it.
    pub conns: Map<i32, bool>,
}

/// What one completion record leads to.
pub struct StepModel {
    pub next: WorkerModel,
    pub actions: Seq<Action>,
    pub outcome: Result<Event, Fatal>,
}

impl WorkerModel {
    /// The pool's books are in order and no descriptor is negative.
    pub open spec fn wf(self) -> bool {
        &&& self.pool.wf()
        &&& forall|fd: i32| self.conns.contains_key(fd) ==> fd >= 0
    }

    /// Whether `fd` is a live connection.
    pub open spec fn live(self, fd: i32) -> bool {
        self.conns.contains_key(fd)
    }

    /// Whether a receive is armed on `fd`.
    pub open spec fn armed(self, fd: i32) -> bool {
        self.conns.contains_key(fd) && self.conns[fd]
    }

    /// A worker without connections.
    pub open spec fn fresh(strategy: Strategy, group: u16, pool: PoolModel) -> WorkerModel {
        WorkerModel { strategy, group, pool, conns: Map::empty() }
    }

    /// The operation that keeps new connections coming.
    pub open spec fn listen_action(self) -> Action {
        match self.strategy {
            Strategy::MultishotAccept => Action::ArmAccept,
            Strategy::PollThenAccept => Action::ArmReadiness,
        }
    }

    /// Puts the free slots with an id below `upto` into the buffer ring, in
    /// order of id.
    pub open spec fn provide_free(self, upto: nat) -> Seq<Action>
        decreases upto,
    {
        if upto == 0 {
            Seq::empty()
        } else {
            let id = (upto - 1) as u16;
            let before = self.provide_free((upto - 1) as nat);
            if self.pool.lent.contains(id as int) {
                before
            } else {
                before.push(Action::Provide { region: self.pool.region(id) })
            }
        }
    }

    /// What a worker asks for when it starts: every free slot of the pool
    /// goes into the buffer ring, in order of id, then the listening
    /// operation is armed.
    pub open spec fn start_actions(self) -> Seq<Action> {
        self.provide_free(self.pool.capacity).push(self.listen_action())
    }

    /// A record that changes nothing and asks for nothing.
    pub open spec fn idle(self) -> StepModel {
        StepModel { next: self, actions: Seq::empty(), outcome: Ok(Event::Ignored) }
    }

    /// A record of the accept operation. A negative result is fatal.
    /// Otherwise the result is the descriptor of a new connection: a receive
    /// is armed on it unless one is armed already, and a self-re-arming
    /// accept that has ended is armed again.
    pub open spec fn on_accept(self, c: Completion) -> StepModel {
        if c.result < 0 {
            StepModel {
                next: self,
                actions: Seq::empty(),
                outcome: Err(Fatal::AcceptFailed { errno: errno_of(c.result) }),
            }
        } else {
            let fd = c.result;
            let receive = if self.armed(fd) {
                Seq::empty()
            } else {
                seq![Action::ArmReceive { fd, group: self.group }]
            };
            let listen = if self.strategy == Strategy::MultishotAccept && !c.spec_more() {
                seq![Action::ArmAccept]
            } else {
                Seq::empty()
            };
            StepModel {
                next: WorkerModel { conns: self.conns.insert(fd, true), ..self },
                actions: receive + listen,
                outcome: Ok(Event::Connected { fd }),
            }
        }
    }

    /// A record of the readiness operation. Where all workers share the
    /// listening socket, one accept is issued, and the readiness operation
    /// is armed again if it has ended. A worker with a listening socket of
    /// its own has no such operation and ignores the record.
    pub open spec fn on_readiness(self, c: Completion) -> StepModel {
        if self.strategy == Strategy::PollThenAccept {
            let listen = if !c.spec_more() {
                seq![Action::ArmReadiness]
            } else {
                Seq::empty()
            };
            StepModel {
                next: self,
                actions: seq![Action::AcceptOnce] + listen,
                outcome: Ok(Event::Ready),
            }
        } else {
            self.idle()
        }
    }

    /// The connections after a receive record for `fd`: result zero ends the
    /// connection; a receive that has ended is armed again after a positive
    /// result and stays disarmed after a negative one.
    pub open spec fn conns_after_data(self, fd: i32, c: Completion) -> Map<i32, bool> {
        if !self.live(fd) {
            self.conns
        } else if c.result == 0 {
            self.conns.remove(fd)
        } else if !c.spec_more() {
            self.conns.insert(fd, c.result > 0)
        } else {
            self.conns
        }
    }

    /// What a receive record for `fd` means.
    pub open spec fn data_event(self, fd: i32, c: Completion) -> Event {
        if !self.live(fd) {
            Event::Ignored
        } else if c.result == 0 {
            Event::Disconnected { fd }
        } else if c.result < 0 {
            Event::ReceiveFailed { fd, errno: errno_of(c.result) }
        } else {
            Event::Received { fd, bytes: c.result as u32 }
        }
    }

    /// The slot that a record selected, if it is one of the pool's.
    pub open spec fn selected(self, c: Completion) -> Option<u16> {
        match c.spec_buffer() {
            Some(id) => if id < self.pool.capacity {
                Some(id)
            } else {
                None
            },
            None => None,
        }
    }

    /// The slot to put back into the buffer ring after a receive record: the
    /// one that the record selected, whatever the books held of it.
    pub open spec fn provided(self, c: Completion) -> Seq<Action> {
        match self.selected(c) {
            Some(id) => seq![Action::Provide { region: self.pool.region(id) }],
            None => Seq::empty(),
        }
    }

    /// The pool's books after a receive record: the slot that the record
    /// selected was lent to that receive and is free again, whatever the
    /// books held of it before.
    pub open spec fn pool_after_data(self, c: Completion) -> PoolModel {
        match self.selected(c) {
            Some(id) => PoolModel { lent: self.pool.lent.remove(id as int), ..self.pool },
            None => self.pool,
        }
    }

    /// A record of a receive on `fd`. The descriptor of a live connection is
    /// released on result zero; the selected buffer goes back to the ring
    /// and is free in the books, whatever the result; and a receive that has
    /// ended after a positive result is armed again on a live connection.
    pub open spec fn on_data(self, fd: i32, c: Completion) -> StepModel {
        let close = if self.live(fd) && c.result == 0 {
            seq![Action::Close { fd }]
        } else {
            Seq::empty()
        };
        let receive = if self.live(fd) && c.result > 0 && !c.spec_more() {
            seq![Action::ArmReceive { fd, group: self.group }]
        } else {
            Seq::empty()
        };
        StepModel {
            next: WorkerModel {
                conns: self.conns_after_data(fd, c),
                pool: self.pool_after_data(c),
                ..self
            },
            actions: close + self.provided(c) + receive,
            outcome: Ok(self.data_event(fd, c)),
        }
    }

    /// What one completion record leads to, by the tag it carries. A record
    /// without a tag is ignored.
    pub open spec fn step(self, c: Completion) -> StepModel {
        match c.spec_tag() {
            None => self.idle(),
            Some(Tag::Accept) => self.on_accept(c),
            Some(Tag::Readiness) => self.on_readiness(c),
            Some(Tag::Data(fd)) => self.on_data(fd, c),
        }
    }
}

/// What a run of completion records leads to.
pub struct RunModel {
    /// The state after the last record that was handled.
    pub state: WorkerModel,
    /// The actions of all records handled, in order.
    pub actions: Seq<Action>,
    /// One event for each record handled, in order.
    pub events: Seq<Event>,
    /// The failure that ended the run early, if one did.
    pub fatal: Option<Fatal>,
}

impl WorkerModel {
    /// Handles the records one by one, in arrival order, each in the state
    /// that the one before left. The first record that is fatal ends the
    /// run: neither it nor the records after it leave a trace other than
    /// the failure.
    pub open spec fn run(self, records: Seq<Completion>) -> RunModel
        decreases records.len(),
    {
        if records.len() == 0 {
            RunModel { state: self, actions: Seq::empty(), events: Seq::empty(), fatal: None }
        } else {
            let before = self.run(records.drop_last());
            if before.fatal is Some {
                before
            } else {
                let step = before.state.step(records.last());
                match step.outcome {
                    Ok(event) => RunModel {
                        state: step.next,
                        actions: before.actions + step.actions,
                        events: before.events.push(event),
                        fatal: None,
                    },
                    Err(fatal) => RunModel { fatal: Some(fatal), ..before },
                }
            }
        }
    }
}

/// A run that has failed stays as it is, whatever records follow.
pub proof fn run_ends_at_failure(worker: WorkerModel, records: Seq<Completion>, handled: int)
    requires
        0 <= handled <= records.len(),
        worker.run(records.take(handled)).fatal is Some,
    ensures
        worker.run(records) == worker.run(records.take(handled)),
    decreases records.len(),
{
    if handled == records.len() {
        assert(records.take(handled) =~= records);
    } else {
        assert(records.drop_last().take(handled) =~= records.take(handled));
        run_ends_at_failure(worker, records.drop_last(), handled);
    }
}

/// One ring worker.
pub struct Worker {
    strategy: Strategy,
    group: u16,
    pool: BufferPool,
    conns: HashMap<i32, bool>,
}

impl View for Worker {
    type V = WorkerModel;

    closed spec fn view(&self) -> WorkerModel {
        WorkerModel {
            strategy: self.strategy,
            group: self.group,
            pool: self.pool@,
            conns: self.conns@,
        }
    }
}

impl Worker {
    /// What is stored agrees with the books.
    pub closed spec fn consistent(&self) -> bool {
        self.pool.wf()
    }

    /// The worker's invariant.
    pub open spec fn wf(&self) -> bool {
        &&& self.consistent()
        &&& self@.wf()
    }

    /// Starts a worker on `pool`, with no connection yet. The actions that
    /// bring the ring to the worker's initial state are appended to
    /// `actions`.
    pub fn start(
        strategy: Strategy,
        group: u16,
        pool: BufferPool,
        actions: &mut Vec<Action>,
    ) -> (worker: Worker)
        requires
            pool.wf(),
        ensures
            worker.wf(),
            worker@ == WorkerModel::fresh(strategy, group, pool@),
            final(actions)@ == old(actions)@ + worker@.start_actions(),
    {
        let worker = Worker { strategy, group, pool, conns: HashMap::new() };
        let capacity: u16 = worker.pool.capacity();
        let mut id: u16 = 0;
        while id < capacity
            invariant
                id <= capacity,
                capacity == worker.pool@.capacity,
                worker.pool.wf(),
                worker@ == WorkerModel::fresh(strategy, group, pool@),
                actions@ == old(actions)@ + worker@.provide_free(id as nat),
            decreases capacity - id,
        {
            if !worker.pool.is_lent(id) {
                match worker.pool.region(id) {
                    Some(region) => {
                        actions.push(Action::Provide { region });
                    },
                    None => {},
                }
            }
            proof {
                assert(actions@ =~= old(actions)@ + worker@.provide_free((id + 1) as nat));
            }
            id += 1;
        }
        proof {
            assert(actions@.push(worker@.listen_action()) =~= old(actions)@
                + worker@.start_actions());
        }
        match strategy {
            Strategy::MultishotAccept => actions.push(Action::ArmAccept),
            Strategy::PollThenAccept => actions.push(Action::ArmReadiness),
        }
        worker
    }

    /// Handles one completion record: updates the worker's state and appends
    /// to `actions` what the driver has to do, in the order in which to do
    /// it. Fails only on a failed accept, and then changes nothing.
    pub fn on_completion(&mut self, c: Completion, actions: &mut Vec<Action>) -> (outcome: Result<
        Event,
        Fatal,
    >)
        requires
            old(self).wf(),
        ensures
            final(self).wf(),
            final(self)@ == old(self)@.step(c).next,
            final(actions)@ == old(actions)@ + old(self)@.step(c).actions,
            outcome == old(self)@.step(c).outcome,
    {
        match c.tag() {
            None => {
                proof {
                    assert(actions@ =~= old(actions)@ + Seq::<Action>::empty());
                }
                Ok(Event::Ignored)
            },
            Some(Tag::Accept) => self.accepted(c, actions),
            Some(Tag::Readiness) => self.ready(c, actions),
            Some(Tag::Data(fd)) => self.received(fd, c, actions),
        }
    }

    /// Handles a record of the accept operation.
    fn accepted(&mut self, c: Completion, actions: &mut Vec<Action>) -> (outcome: Result<
        Event,
        Fatal,
    >)
        requires
            old(self).wf(),
        ensures
            final(self).wf(),
            final(self)@ == old(self)@.on_accept(c).next,
            final(actions)@ == old(actions)@ + old(self)@.on_accept(c).actions,
            outcome == old(self)@.on_accept(c).outcome,
    {
        if c.result < 0 {
            proof {
                assert(actions@ =~= old(actions)@ + Seq::<Action>::empty());
            }
            return Err(Fatal::AcceptFailed { errno: errno(c.result) });
        }
        let fd: i32 = c.result;
        if !self.is_armed(fd) {
            actions.push(Action::ArmReceive { fd, group: self.group });
        }
        self.conns.insert(fd, true);
        if self.strategy == Strategy::MultishotAccept && !c.more() {
            actions.push(Action::ArmAccept);
        }
        proof {
            assert(actions@ =~= old(actions)@ + old(self)@.on_accept(c).actions);
        }
        Ok(Event::Connected { fd })
    }

    /// Handles a record of the readiness operation.
    fn ready(&mut self, c: Completion, actions: &mut Vec<Action>) -> (outcome: Result<Event, Fatal>)
        requires
            old(self).wf(),
        ensures
            final(self).wf(),
            final(self)@ == old(self)@.on_readiness(c).next,
            final(actions)@ == old(actions)@ + old(self)@.on_readiness(c).actions,
            outcome == old(self)@.on_readiness(c).outcome,
    {
        if self.strategy == Strategy::PollThenAccept {
            actions.push(Action::AcceptOnce);
            if !c.more() {
                actions.push(Action::ArmReadiness);
            }
            proof {
                assert(actions@ =~= old(actions)@ + old(self)@.on_readiness(c).actions);
            }
            Ok(Event::Ready)
        } else {
            proof {
                assert(actions@ =~= old(actions)@ + Seq::<Action>::empty());
            }
            Ok(Event::Ignored)
        }
    }

    /// Handles a record of a receive on `fd`.
    fn received(&mut self, fd: i32, c: Completion, actions: &mut Vec<Action>) -> (outcome: Result<
        Event,
        Fatal,
    >)
        requires
            old(self).wf(),
            fd >= 0,
        ensures
            final(self).wf(),
            final(self)@ == old(self)@.on_data(fd, c).next,
            final(actions)@ == old(actions)@ + old(self)@.on_data(fd, c).actions,
            outcome == old(self)@.on_data(fd, c).outcome,
    {
        let live = self.is_live(fd);
        let more = c.more();
        let event = if !live {
            Event::Ignored
        } else if c.result == 0 {
            actions.push(Action::Close { fd });
            self.conns.remove(&fd);
            Event::Disconnected { fd }
        } else if c.result < 0 {
            if !more {
                self.conns.insert(fd, false);
            }
            Event::ReceiveFailed { fd, errno: errno(c.result) }
        } else {
            if !more {
                self.conns.insert(fd, true);
            }
            Event::Received { fd, bytes: c.result as u32 }
        };
        proof {
            assert(self@.conns =~= old(self)@.conns_after_data(fd, c));
        }
        if let Some(id) = c.buffer() {
            let _ = self.pool.lend(id);
            if let Ok(region) = self.pool.recycle(id) {
                actions.push(Action::Provide { region });
            }
            proof {
                assert(self.pool@.lent =~= old(self)@.pool_after_data(c).lent);
            }
        }
        if live && c.result > 0 && !more {
            actions.push(Action::ArmReceive { fd, group: self.group });
        }
        proof {
            assert(actions@ =~= old(actions)@ + old(self)@.on_data(fd, c).actions);
        }
        Ok(event)
    }

    /// Drains one batch of completion records in arrival order. Actions and
    /// events are appended to `actions` and `events`. A failed accept ends
    /// the batch: what the records before it led to stands, the failure is
    /// returned, and the records after it are not looked at.
    pub fn drain(
        &mut self,
        records: &[Completion],
        actions: &mut Vec<Action>,
        events: &mut Vec<Event>,
    ) -> (outcome: Result<(), Fatal>)
        requires
            old(self).wf(),
        ensures
            final(self).wf(),
            final(self)@ == old(self)@.run(records@).state,
            final(actions)@ == old(actions)@ + old(self)@.run(records@).actions,
            final(events)@ == old(events)@ + old(self)@.run(records@).events,
            outcome == match old(self)@.run(records@).fatal {
                Some(fatal) => Err::<(), Fatal>(fatal),
                None => Ok::<(), Fatal>(()),
            },
    {
        let ghost start = self@;
        let mut handled: usize = 0;
        proof {
            assert(records@.take(0) =~= Seq::<Completion>::empty());
            assert(actions@ =~= old(actions)@ + Seq::<Action>::empty());
            assert(events@ =~= old(events)@ + Seq::<Event>::empty());
        }
        while handled < records.len()
            invariant
                handled <= records.len(),
                start == old(self)@,
                self.wf(),
                start.run(records@.take(handled as int)).fatal is None,
                self@ == start.run(records@.take(handled as int)).state,
                actions@ == old(actions)@ + start.run(records@.take(handled as int)).actions,
                events@ == old(events)@ + start.run(records@.take(handled as int)).events,
            decreases records.len() - handled,
        {
            let ghost before = start.run(records@.take(handled as int));
            let ghost prefix = records@.take(handled as int + 1);
            proof {
                assert(prefix.drop_last() =~= records@.take(handled as int));
                assert(prefix.last() == records@[handled as int]);
            }
            match self.on_completion(records[handled], actions) {
                Ok(event) => {
                    events.push(event);
                    proof {
                        let step = before.state.step(records@[handled as int]);
                        assert(actions@ =~= old(actions)@ + (before.actions + step.actions));
                        assert(events@ =~= old(events)@ + before.events.push(event));
                    }
                },
                Err(fatal) => {
                    proof {
                        let step = before.state.step(records@[handled as int]);
                        assert(step.actions =~= Seq::<Action>::empty());
                        assert(actions@ =~= old(actions)@ + before.actions);
                        run_ends_at_failure(start, records@, handled as int + 1);
                    }
                    return Err(fatal);
                },
            }
            handled += 1;
        }
        proof {
            assert(records@.take(handled as int) =~= records@);
        }
        Ok(())
    }

    /// How the worker learns of new connections.
    pub fn strategy(&self) -> (strategy: Strategy)
        ensures
            strategy == self@.strategy,
    {
        self.strategy
    }

    /// The buffer group that receives take their buffers from.
    pub fn group(&self) -> (group: u16)
        ensures
            group == self@.group,
    {
        self.group
    }

    /// The buffer pool's books.
    pub fn pool(&self) -> (pool: &BufferPool)
        requires
            self.wf(),
        ensures
            pool.wf(),
            pool@ == self@.pool,
    {
        &self.pool
    }

    /// Whether `fd` is a live connection.
    pub fn is_live(&self, fd: i32) -> (live: bool)
        ensures
            live == self@.live(fd),
    {
        self.conns.contains_key(&fd)
    }

    /// Whether a receive is armed on `fd`.
    pub fn is_armed(&self, fd: i32) -> (armed: bool)
        ensures
            armed == self@.armed(fd),
    {
        match self.conns.get(&fd) {
            Some(armed) => *armed,
            None => false,
        }
    }

    /// Number of live connections.
    pub fn connections(&self) -> (n: usize)
        ensures
            n == self@.conns.len(),
    {
        self.conns.len()
    }
}

} // verus!
