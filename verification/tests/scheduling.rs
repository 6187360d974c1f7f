use outbox_sweeper::scheduler::{Scheduler, SchedulerAction, SchedulerEvent};
use outbox_sweeper::outbox::claim_limit;
use outbox_sweeper::sweeper::{
    send_outcome, sweep_channel, sweep_outbox_and_send, Action, Event, Outcome, Phase, Scope,
};

#[test]
fn ticks_launch_sweeps_that_overlap() {
    let mut s = Scheduler::new();
    assert_eq!(s, Scheduler { stopping: false, in_flight: 0 });
    assert_eq!(s.step(SchedulerEvent::Tick), SchedulerAction::LaunchSweep);
    assert_eq!(s.step(SchedulerEvent::Tick), SchedulerAction::LaunchSweep);
    assert_eq!(s.in_flight, 2);
    assert_eq!(s.step(SchedulerEvent::SweepFinished), SchedulerAction::Wait);
    assert_eq!(s.in_flight, 1);
    assert_eq!(s.step(SchedulerEvent::Tick), SchedulerAction::LaunchSweep);
    assert_eq!(s.in_flight, 2);
}

#[test]
fn shutdown_with_nothing_in_flight_exits_at_once() {
    let mut s = Scheduler::new();
    assert_eq!(s.step(SchedulerEvent::Shutdown), SchedulerAction::Exit);
    assert!(s.stopping);
}

#[test]
fn shutdown_waits_for_sweeps_in_flight() {
    let mut s = Scheduler::new();
    s.step(SchedulerEvent::Tick);
    s.step(SchedulerEvent::Tick);
    assert_eq!(s.step(SchedulerEvent::Shutdown), SchedulerAction::Wait);
    assert_eq!(s.step(SchedulerEvent::Tick), SchedulerAction::Wait);
    assert_eq!(s.in_flight, 2);
    assert_eq!(s.step(SchedulerEvent::SweepFinished), SchedulerAction::Wait);
    assert_eq!(s.step(SchedulerEvent::SweepFinished), SchedulerAction::Exit);
    assert_eq!(s, Scheduler { stopping: true, in_flight: 0 });
}

#[test]
fn counter_stays_within_its_bounds() {
    let mut full = Scheduler { stopping: false, in_flight: u64::MAX };
    assert_eq!(full.step(SchedulerEvent::Tick), SchedulerAction::Wait);
    assert_eq!(full.in_flight, u64::MAX);
    let mut idle = Scheduler::new();
    assert_eq!(idle.step(SchedulerEvent::SweepFinished), SchedulerAction::Wait);
    assert_eq!(idle.in_flight, 0);
}

#[test]
fn a_sweep_begins_with_discovery() {
    let (sweep, action) = sweep_outbox_and_send(&10);
    assert_eq!(action, Action::ListPendingTopics);
    assert_eq!(sweep.phase, Phase::Discovering);
    assert_eq!(sweep.batch_limit, 10);
}

#[test]
fn a_sweep_of_one_topic_begins_with_its_claim() {
    let (mut sweep, action) = sweep_channel(&10, "test.topic");
    assert_eq!(action, Action::ClaimBatch { topic: "test.topic".to_string(), limit: 10 });
    assert_eq!(sweep.phase, Phase::Claiming);
    assert_eq!(sweep.topics, vec!["test.topic".to_string()]);
    assert_eq!(
        sweep.step(Event::BatchClaimed(Vec::new())),
        Action::Finish { outcome: Outcome::Completed }
    );
}

#[test]
fn a_batch_is_sent_only_as_a_whole() {
    assert_eq!(send_outcome(true, 0), Event::BatchSent);
    assert_eq!(send_outcome(true, 1), Event::SendFailed);
    assert_eq!(send_outcome(false, 0), Event::SendFailed);
    assert_eq!(send_outcome(false, 3), Event::SendFailed);
}

#[test]
fn limit_below_zero_claims_nothing() {
    assert_eq!(claim_limit(10), 10);
    assert_eq!(claim_limit(0), 0);
    assert_eq!(claim_limit(-1), 0);
    assert_eq!(claim_limit(i32::MIN), 0);
    assert_eq!(claim_limit(i32::MAX), 2_147_483_647);
}

#[test]
fn a_sweep_of_one_topic_reports_a_failed_claim() {
    let (mut sweep, action) = sweep_channel(&10, "test.topic");
    assert_eq!(sweep.scope, Scope::OneTopic);
    assert_eq!(action, Action::ClaimBatch { topic: "test.topic".to_string(), limit: 10 });
    assert_eq!(sweep.step(Event::ClaimFailed), Action::Finish { outcome: Outcome::ClaimFailed });
    assert!(sweep.is_done());
    assert!(sweep.claimed.is_empty());
}

#[test]
fn a_sweep_of_every_topic_goes_on_after_a_failed_claim() {
    let (mut sweep, _) = sweep_outbox_and_send(&10);
    assert_eq!(sweep.scope, Scope::AllTopics);
    sweep.step(Event::TopicsListed(vec!["test.topic".to_string()]));
    assert_eq!(sweep.step(Event::ClaimFailed), Action::Finish { outcome: Outcome::Completed });
}

#[test]
fn a_sweep_of_one_topic_takes_send_and_mark_failures_as_done() {
    let message = outbox_sweeper::models::OutboxMessage {
        id: 5,
        message_id: "m5".to_string(),
        message_type: "test.topic".to_string(),
        channel_address: "addr".to_string(),
        dispatched: None,
        timestamp: 1,
        body: "b".to_string(),
        trace_parent: None,
    };
    let (mut sweep, _) = sweep_channel(&10, "test.topic");
    sweep.step(Event::BatchClaimed(vec![message.clone()]));
    assert_eq!(sweep.step(Event::SendFailed), Action::Finish { outcome: Outcome::Completed });

    let (mut sweep, _) = sweep_channel(&10, "test.topic");
    sweep.step(Event::BatchClaimed(vec![message]));
    assert_eq!(sweep.step(Event::BatchSent), Action::MarkDispatched { ids: vec![5] });
    assert_eq!(sweep.step(Event::MarkFailed), Action::Finish { outcome: Outcome::Completed });
}
