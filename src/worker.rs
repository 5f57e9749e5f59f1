//! The decisions of one worker: a state machine from what its connection and
//! its queue report to what it does next. The thread that runs it performs
//! each action and hands back the next event.
use vstd::prelude::*;

verus! {

#[derive(Clone, Copy, PartialEq, Eq, Structural, Debug)]
pub enum WorkerPhase {
    /// Opening the connection and preparing the upsert statement.
    Connecting,
    /// Waiting on the work queue.
    Ready,
    /// Writing one received item to the store.
    Processing,
    /// Terminal.
    Stopped,
}

#[derive(Clone, Copy, PartialEq, Eq, Structural, Debug)]
pub enum WorkerEvent {
    /// The connection was opened and the statement prepared.
    Connected,
    /// The connection or the statement could not be set up.
    ConnectFailed,
    /// The pool's exit flag was seen set before the next wait.
    ExitRequested,
    /// The queue handed out an item.
    ItemReceived,
    /// The bounded wait ended with no item; carries the pool's
    /// startup-complete flag as read then.
    PollTimedOut { startup_complete: bool },
    /// The queue has no sender left.
    QueueClosed,
    /// The upsert of the current item succeeded.
    PersistSucceeded,
    /// The upsert of the current item failed.
    PersistFailed,
}

#[derive(Clone, Copy, PartialEq, Eq, Structural, Debug)]
pub enum WorkerAction {
    /// Check the exit flag, then wait on the queue.
    Poll,
    /// Count this worker as initialized, then poll.
    MarkInitialized,
    /// Upsert the received item.
    Persist,
    /// Count this worker's acknowledgement of startup completion, then poll.
    AcknowledgeStartup,
    /// Log the failed write, drop the item, then poll.
    ReportFailure,
    /// Return the connection error to the pool and end the thread.
    Fail,
    /// Terminate the whole process.
    Abort,
    /// End the thread successfully.
    Stop,
    /// The event does not belong to the current phase: nothing to do.
    Ignore,
}

#[derive(Clone, Copy, PartialEq, Eq, Structural, Debug)]
pub struct WorkerState {
    pub phase: WorkerPhase,
    /// Whether this worker has already counted startup completion.
    pub startup_acknowledged: bool,
    /// Whether store failures terminate the process.
    pub panic_on_db_errors: bool,
}

/// The transition table of a worker.
pub open spec fn transition(s: WorkerState, e: WorkerEvent) -> (WorkerState, WorkerAction) {
    let stopped = WorkerState { phase: WorkerPhase::Stopped, ..s };
    let ready = WorkerState { phase: WorkerPhase::Ready, ..s };
    let failure = if s.panic_on_db_errors {
        WorkerAction::Abort
    } else {
        WorkerAction::Fail
    };
    match (s.phase, e) {
        (WorkerPhase::Connecting, WorkerEvent::Connected) => (ready, WorkerAction::MarkInitialized),
        (WorkerPhase::Connecting, WorkerEvent::ConnectFailed) => (stopped, failure),
        (WorkerPhase::Ready, WorkerEvent::ExitRequested) => (stopped, WorkerAction::Stop),
        (WorkerPhase::Ready, WorkerEvent::QueueClosed) => (stopped, WorkerAction::Stop),
        (WorkerPhase::Ready, WorkerEvent::ItemReceived) => (
            WorkerState { phase: WorkerPhase::Processing, ..s },
            WorkerAction::Persist,
        ),
        (WorkerPhase::Ready, WorkerEvent::PollTimedOut { startup_complete }) => {
            if startup_complete && !s.startup_acknowledged {
                (WorkerState { startup_acknowledged: true, ..s }, WorkerAction::AcknowledgeStartup)
            } else {
                (s, WorkerAction::Poll)
            }
        },
        (WorkerPhase::Processing, WorkerEvent::PersistSucceeded) => (ready, WorkerAction::Poll),
        (WorkerPhase::Processing, WorkerEvent::PersistFailed) => {
            if s.panic_on_db_errors {
                (stopped, WorkerAction::Abort)
            } else {
                (ready, WorkerAction::ReportFailure)
            }
        },
        _ => (s, WorkerAction::Ignore),
    }
}

impl WorkerState {
    /// A worker about to connect, which has not acknowledged startup.
    pub fn new(panic_on_db_errors: bool) -> (r: WorkerState)
        ensures
            r.phase == WorkerPhase::Connecting,
            !r.startup_acknowledged,
            r.panic_on_db_errors == panic_on_db_errors,
    {
        WorkerState { phase: WorkerPhase::Connecting, startup_acknowledged: false, panic_on_db_errors }
    }

    /// The next state and the action to perform on an event.
    pub fn step(self, e: WorkerEvent) -> (r: (WorkerState, WorkerAction))
        ensures
            r == transition(self, e),
    {
        let stopped = WorkerState { phase: WorkerPhase::Stopped, ..self };
        let ready = WorkerState { phase: WorkerPhase::Ready, ..self };
        match (self.phase, e) {
            (WorkerPhase::Connecting, WorkerEvent::Connected) => (ready, WorkerAction::MarkInitialized),
            (WorkerPhase::Connecting, WorkerEvent::ConnectFailed) => {
                if self.panic_on_db_errors {
                    (stopped, WorkerAction::Abort)
                } else {
                    (stopped, WorkerAction::Fail)
                }
            },
            (WorkerPhase::Ready, WorkerEvent::ExitRequested) => (stopped, WorkerAction::Stop),
            (WorkerPhase::Ready, WorkerEvent::QueueClosed) => (stopped, WorkerAction::Stop),
            (WorkerPhase::Ready, WorkerEvent::ItemReceived) => (
                WorkerState { phase: WorkerPhase::Processing, ..self },
                WorkerAction::Persist,
            ),
            (WorkerPhase::Ready, WorkerEvent::PollTimedOut { startup_complete }) => {
                if startup_complete && !self.startup_acknowledged {
                    (
                        WorkerState { startup_acknowledged: true, ..self },
                        WorkerAction::AcknowledgeStartup,
                    )
                } else {
                    (self, WorkerAction::Poll)
                }
            },
            (WorkerPhase::Processing, WorkerEvent::PersistSucceeded) => (ready, WorkerAction::Poll),
            (WorkerPhase::Processing, WorkerEvent::PersistFailed) => {
                if self.panic_on_db_errors {
                    (stopped, WorkerAction::Abort)
                } else {
                    (ready, WorkerAction::ReportFailure)
                }
            },
            _ => (self, WorkerAction::Ignore),
        }
    }

    /// Whether the worker's thread has ended.
    pub fn is_stopped(&self) -> (r: bool)
        ensures
            r == (self.phase == WorkerPhase::Stopped),
    {
        self.phase == WorkerPhase::Stopped
    }
}

/// A worker's state after a sequence of events, and how many
/// acknowledgements of startup it made on the way.
pub open spec fn run(s: WorkerState, events: Seq<WorkerEvent>) -> (WorkerState, nat)
    decreases events.len(),
{
    if events.len() == 0 {
        (s, 0)
    } else {
        let (mid, acks) = run(s, events.drop_last());
        let (next, action) = transition(mid, events.last());
        (next, if action == WorkerAction::AcknowledgeStartup {
            acks + 1
        } else {
            acks
        })
    }
}

/// A worker acknowledges startup completion at most once whatever it is
/// handed: the acknowledgements it makes are exactly the change of its
/// acknowledged flag, which never goes back.
pub proof fn lemma_startup_acknowledged_once(s: WorkerState, events: Seq<WorkerEvent>)
    ensures
        ({
            let (last, acks) = run(s, events);
            &&& acks + (if s.startup_acknowledged { 1nat } else { 0nat }) == (if last.startup_acknowledged {
                1nat
            } else {
                0nat
            })
            &&& acks <= 1
            &&& last.panic_on_db_errors == s.panic_on_db_errors
        }),
    decreases events.len(),
{
    if events.len() > 0 {
        lemma_startup_acknowledged_once(s, events.drop_last());
    }
}

/// A worker that is waiting and has not acknowledged startup does so on the
/// first empty wait after the startup-complete flag is set.
pub proof fn lemma_startup_observed(s: WorkerState)
    requires
        s.phase == WorkerPhase::Ready,
        !s.startup_acknowledged,
    ensures
        transition(s, WorkerEvent::PollTimedOut { startup_complete: true }) == (
            WorkerState { startup_acknowledged: true, ..s },
            WorkerAction::AcknowledgeStartup,
        ),
{
}

/// A worker that receives an item attempts it before anything else: the
/// item is handed to the store, and while it is in hand every event but the
/// outcome of that write is ignored, so neither the exit flag nor a closed
/// queue ends the worker before the attempt.
pub proof fn lemma_received_item_is_attempted(s: WorkerState, e: WorkerEvent)
    requires
        s.phase == WorkerPhase::Ready,
    ensures
        transition(s, WorkerEvent::ItemReceived) == (
            WorkerState { phase: WorkerPhase::Processing, ..s },
            WorkerAction::Persist,
        ),
        e != WorkerEvent::PersistSucceeded && e != WorkerEvent::PersistFailed ==> transition(
            WorkerState { phase: WorkerPhase::Processing, ..s },
            e,
        ) == (WorkerState { phase: WorkerPhase::Processing, ..s }, WorkerAction::Ignore),
{
}

/// The acknowledgements that a pool of workers makes, each worker running
/// its own sequence of events.
pub open spec fn pool_acks(runs: Seq<(WorkerState, Seq<WorkerEvent>)>) -> nat
    decreases runs.len(),
{
    if runs.len() == 0 {
        0
    } else {
        pool_acks(runs.drop_last()) + run(runs.last().0, runs.last().1).1
    }
}

/// Whether, somewhere in its events, the worker is waiting on the queue and
/// its wait ends empty with the startup-complete flag set.
pub open spec fn sees_startup(s: WorkerState, events: Seq<WorkerEvent>) -> bool {
    exists|i: int|
        #![trigger events[i]]
        0 <= i < events.len() && run(s, events.take(i)).0.phase == WorkerPhase::Ready && events[i]
            == (WorkerEvent::PollTimedOut { startup_complete: true })
}

proof fn lemma_acknowledged_stays(s: WorkerState, events: Seq<WorkerEvent>, i: int, k: int)
    requires
        0 <= i <= k <= events.len(),
        run(s, events.take(i)).0.startup_acknowledged,
    ensures
        run(s, events.take(k)).0.startup_acknowledged,
    decreases k - i,
{
    if k > i {
        lemma_acknowledged_stays(s, events, i, k - 1);
        assert(events.take(k).drop_last() =~= events.take(k - 1));
    }
}

/// A worker that starts unacknowledged ends acknowledged exactly when it
/// sees the startup-complete flag on an empty wait.
pub proof fn lemma_acknowledged_iff_sees_startup(s: WorkerState, events: Seq<WorkerEvent>)
    requires
        !s.startup_acknowledged,
    ensures
        run(s, events).0.startup_acknowledged <==> sees_startup(s, events),
    decreases events.len(),
{
    assert(events.take(events.len() as int) =~= events);
    if sees_startup(s, events) {
        let i = choose|i: int|
            #![trigger events[i]]
            0 <= i < events.len() && run(s, events.take(i)).0.phase == WorkerPhase::Ready && events[i]
                == (WorkerEvent::PollTimedOut { startup_complete: true });
        assert(events.take(i + 1).drop_last() =~= events.take(i));
        lemma_acknowledged_stays(s, events, i + 1, events.len() as int);
    }
    if events.len() > 0 && run(s, events).0.startup_acknowledged {
        let p = events.drop_last();
        let last = events.len() - 1;
        assert(p =~= events.take(last));
        if run(s, p).0.startup_acknowledged {
            lemma_acknowledged_iff_sees_startup(s, p);
            let i = choose|i: int|
                #![trigger p[i]]
                0 <= i < p.len() && run(s, p.take(i)).0.phase == WorkerPhase::Ready && p[i]
                    == (WorkerEvent::PollTimedOut { startup_complete: true });
            assert(p.take(i) =~= events.take(i));
            assert(p[i] == events[i]);
        } else {
            assert(events[last] == events.last());
        }
    }
}

/// How many workers of the pool see the startup-complete flag on an empty
/// wait.
pub open spec fn live_workers(runs: Seq<(WorkerState, Seq<WorkerEvent>)>) -> nat
    decreases runs.len(),
{
    if runs.len() == 0 {
        0
    } else {
        live_workers(runs.drop_last()) + if sees_startup(runs.last().0, runs.last().1) {
            1nat
        } else {
            0nat
        }
    }
}

/// Over a pool whose workers start unacknowledged, the shared
/// acknowledgement counter grows by exactly the number of workers that see
/// the startup-complete flag while waiting: one for each of them, none for
/// the others, and so never more than the number of workers.
pub proof fn lemma_pool_acknowledges_live_workers(runs: Seq<(WorkerState, Seq<WorkerEvent>)>)
    requires
        forall|i: int| 0 <= i < runs.len() ==> !(#[trigger] runs[i]).0.startup_acknowledged,
    ensures
        pool_acks(runs) == live_workers(runs),
        live_workers(runs) <= runs.len(),
    decreases runs.len(),
{
    if runs.len() > 0 {
        let prefix = runs.drop_last();
        assert forall|i: int| 0 <= i < prefix.len() implies !(#[trigger] prefix[i]).0.startup_acknowledged by {
            assert(prefix[i] == runs[i]);
        }
        lemma_pool_acknowledges_live_workers(prefix);
        assert(!runs[runs.len() - 1].0.startup_acknowledged);
        lemma_startup_acknowledged_once(runs.last().0, runs.last().1);
        lemma_acknowledged_iff_sees_startup(runs.last().0, runs.last().1);
    }
}

} // verus!
