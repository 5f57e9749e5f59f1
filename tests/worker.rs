use inscription_pipeline::worker::{WorkerAction, WorkerEvent, WorkerPhase, WorkerState};

fn ready(panic_on_db_errors: bool) -> WorkerState {
    let (s, a) = WorkerState::new(panic_on_db_errors).step(WorkerEvent::Connected);
    assert_eq!(a, WorkerAction::MarkInitialized);
    assert_eq!(s.phase, WorkerPhase::Ready);
    s
}

#[test]
fn startup_is_acknowledged_once() {
    let mut s = ready(false);
    let mut acks = 0;
    let events = [
        WorkerEvent::PollTimedOut { startup_complete: false },
        WorkerEvent::PollTimedOut { startup_complete: true },
        WorkerEvent::PollTimedOut { startup_complete: true },
        WorkerEvent::ItemReceived,
        WorkerEvent::PersistSucceeded,
        WorkerEvent::PollTimedOut { startup_complete: true },
    ];
    for e in events {
        let (next, a) = s.step(e);
        if a == WorkerAction::AcknowledgeStartup {
            acks += 1;
        }
        s = next;
    }
    assert_eq!(acks, 1);
    assert!(s.startup_acknowledged);
}

#[test]
fn pool_acknowledgements_count_live_workers() {
    let mut counter = 0;
    for _ in 0..3 {
        let mut s = ready(false);
        for _ in 0..4 {
            let (next, a) = s.step(WorkerEvent::PollTimedOut { startup_complete: true });
            if a == WorkerAction::AcknowledgeStartup {
                counter += 1;
            }
            s = next;
        }
    }
    // a worker that never connected never acknowledges
    let (s, a) = WorkerState::new(false).step(WorkerEvent::ConnectFailed);
    assert_eq!(a, WorkerAction::Fail);
    let (_, a) = s.step(WorkerEvent::PollTimedOut { startup_complete: true });
    assert_eq!(a, WorkerAction::Ignore);
    assert_eq!(counter, 3);
}

#[test]
fn received_item_is_persisted() {
    let (s, a) = ready(false).step(WorkerEvent::ItemReceived);
    assert_eq!(a, WorkerAction::Persist);
    assert_eq!(s.phase, WorkerPhase::Processing);
    let (s, a) = s.step(WorkerEvent::PersistSucceeded);
    assert_eq!(a, WorkerAction::Poll);
    assert_eq!(s.phase, WorkerPhase::Ready);
}

#[test]
fn write_failure_is_logged_without_escalation() {
    let (s, _) = ready(false).step(WorkerEvent::ItemReceived);
    let (s, a) = s.step(WorkerEvent::PersistFailed);
    assert_eq!(a, WorkerAction::ReportFailure);
    assert_eq!(s.phase, WorkerPhase::Ready);
}

#[test]
fn write_failure_aborts_with_escalation() {
    let (s, _) = ready(true).step(WorkerEvent::ItemReceived);
    let (s, a) = s.step(WorkerEvent::PersistFailed);
    assert_eq!(a, WorkerAction::Abort);
    assert!(s.is_stopped());
}

#[test]
fn connect_failure_with_escalation_aborts() {
    let (s, a) = WorkerState::new(true).step(WorkerEvent::ConnectFailed);
    assert_eq!(a, WorkerAction::Abort);
    assert!(s.is_stopped());
}

#[test]
fn exit_and_closed_queue_stop_the_worker() {
    let (s, a) = ready(true).step(WorkerEvent::ExitRequested);
    assert_eq!(a, WorkerAction::Stop);
    assert!(s.is_stopped());
    let (s, a) = ready(true).step(WorkerEvent::QueueClosed);
    assert_eq!(a, WorkerAction::Stop);
    assert!(s.is_stopped());
    let (s2, a) = s.step(WorkerEvent::ItemReceived);
    assert_eq!(a, WorkerAction::Ignore);
    assert_eq!(s2, s);
}

#[test]
fn startup_not_acknowledged_before_flag() {
    let (s, a) = ready(false).step(WorkerEvent::PollTimedOut { startup_complete: false });
    assert_eq!(a, WorkerAction::Poll);
    assert!(!s.startup_acknowledged);
}

#[test]
fn exit_while_processing_waits_for_the_write() {
    let (s, _) = ready(false).step(WorkerEvent::ItemReceived);
    let (s2, a) = s.step(WorkerEvent::ExitRequested);
    assert_eq!(a, WorkerAction::Ignore);
    assert_eq!(s2.phase, WorkerPhase::Processing);
    let (s3, a) = s2.step(WorkerEvent::QueueClosed);
    assert_eq!(a, WorkerAction::Ignore);
    let (s4, a) = s3.step(WorkerEvent::PersistSucceeded);
    assert_eq!(a, WorkerAction::Poll);
    let (s5, a) = s4.step(WorkerEvent::ExitRequested);
    assert_eq!(a, WorkerAction::Stop);
    assert!(s5.is_stopped());
}
