use outbox_sweeper::messaging::BatchEntry;
use outbox_sweeper::models::OutboxMessage;
use outbox_sweeper::outbox::{
    get_distinct_pending_topics, get_pending_messages, mark_messages_as_sent,
};
use outbox_sweeper::router::TransportKind;
use outbox_sweeper::sweeper::{Action, Event, Outcome, Phase, Sweep};

const BODY: &str = r#"{ "foo"": "bar" }"#;

fn insert_test_message(rows: &mut Vec<OutboxMessage>, message_id: &str, channel_address: &str) -> String {
    insert_message(rows, message_id, "test.topic", channel_address, 1_000)
}

fn insert_message(
    rows: &mut Vec<OutboxMessage>,
    message_id: &str,
    topic: &str,
    channel_address: &str,
    timestamp: i64,
) -> String {
    let id = rows.len() as i64 + 1;
    rows.push(OutboxMessage {
        id,
        message_id: message_id.to_string(),
        message_type: topic.to_string(),
        channel_address: channel_address.to_string(),
        dispatched: None,
        timestamp,
        body: BODY.to_string(),
        trace_parent: None,
    });
    message_id.to_string()
}

fn get_message(rows: &[OutboxMessage], message_id: &str) -> Option<OutboxMessage> {
    rows.iter().find(|m| m.message_id == message_id).cloned()
}

fn pending(rows: &Vec<OutboxMessage>, topic: &str, limit: i32) -> Vec<OutboxMessage> {
    get_pending_messages(rows, &Vec::new(), &topic.to_string(), limit)
}

struct Sent {
    kind: TransportKind,
    address: String,
    entries: Vec<BatchEntry>,
}

struct Run {
    outcome: Outcome,
    sent: Vec<Sent>,
    rejected: usize,
    asked: Vec<&'static str>,
}

/// Runs one sweep over the table held in memory, with a transport that
/// rejects the addresses in `rejected` and a store whose marks fail where
/// `mark_fails` is set.
fn run_sweep(
    rows: &mut Vec<OutboxMessage>,
    rejected: &[&str],
    mark_fails: bool,
    batch_size: i32,
    now: i64,
) -> Run {
    let mut run = Run { outcome: Outcome::Completed, sent: Vec::new(), rejected: 0, asked: Vec::new() };
    let mut sweep = Sweep::new(batch_size);
    let mut action = sweep.step(Event::Started);
    loop {
        let event = match action {
            Action::ListPendingTopics => {
                run.asked.push("list");
                Event::TopicsListed(get_distinct_pending_topics(rows))
            }
            Action::ClaimBatch { topic, limit } => {
                run.asked.push("claim");
                Event::BatchClaimed(get_pending_messages(rows, &Vec::new(), &topic, limit))
            }
            Action::SendBatch { kind, address, entries } => {
                run.asked.push("send");
                if rejected.contains(&address.as_str()) {
                    run.rejected += 1;
                    Event::SendFailed
                } else {
                    run.sent.push(Sent { kind, address, entries });
                    Event::BatchSent
                }
            }
            Action::MarkDispatched { ids } => {
                run.asked.push("mark");
                if mark_fails {
                    Event::MarkFailed
                } else {
                    mark_messages_as_sent(rows, &ids, now);
                    Event::BatchMarked
                }
            }
            Action::Finish { outcome } => {
                run.outcome = outcome;
                assert!(sweep.is_done());
                return run;
            }
            Action::Ignore => panic!("the engine ignored an event it had asked for"),
        };
        action = sweep.step(event);
    }
}

#[test]
fn test_sweep_sends_message_and_updates_db() {
    let cases = vec![
        "https://localhost.localstack.cloud:4566/000000000000/test-queue",
        "SNS::arn:aws:sns:eu-west-1:000000000000:test-topic",
    ];
    let mut rows: Vec<OutboxMessage> = Vec::new();
    for (n, case) in cases.into_iter().enumerate() {
        let message_id = insert_test_message(&mut rows, &format!("message-{}", n), case);
        let msg = get_message(&rows, &message_id);
        assert!(msg.is_some(), "Test message was not inserted");

        let run = run_sweep(&mut rows, &[], false, 10, 2_000);
        assert_eq!(run.outcome, Outcome::Completed);

        let remaining_messages = pending(&rows, "test.topic", 10);
        assert_eq!(remaining_messages.len(), 0, "Message was not marked as 'sent'");

        let msg_after_dispatch = get_message(&rows, &message_id);
        assert_ne!(msg_after_dispatch.unwrap().dispatched, None, "Message was marked as sent");
    }
}

#[test]
fn test_sweep_with_no_messages() {
    let mut rows: Vec<OutboxMessage> = Vec::new();
    let initial_messages = pending(&rows, "test.topic", 10);
    assert_eq!(initial_messages.len(), 0, "Database was not empty at start");

    let run = run_sweep(&mut rows, &[], false, 10, 2_000);
    assert_eq!(run.outcome, Outcome::Completed);

    let final_messages = pending(&rows, "test.topic", 10);
    assert_eq!(final_messages.len(), 0, "Messages appeared after empty sweep");
}

#[test]
fn test_sweep_rolls_back_on_sqs_failure() {
    let mut rows: Vec<OutboxMessage> = Vec::new();
    let invalid_queue_url = "https_sqs_fake_url_that_does_not_exist";
    let message_id = insert_test_message(&mut rows, "message-0", invalid_queue_url);

    let initial_messages = pending(&rows, "test.topic", 10);
    assert_eq!(initial_messages.len(), 1, "Test message was not inserted");
    assert_eq!(initial_messages[0].message_id, message_id);

    let _run = run_sweep(&mut rows, &[invalid_queue_url], false, 10, 2_000);

    let final_messages = pending(&rows, "test.topic", 10);
    assert_eq!(final_messages.len(), 1, "Message was not rolled back");
    let final_message = final_messages.first().unwrap();
    assert_eq!(final_message.message_id, message_id, "Wrong message found after rollback");
    assert_eq!(final_message.dispatched, None, "Message not marked as dispatched");
}

#[test]
fn sweep_without_pending_rows_asks_only_for_topics() {
    let mut rows: Vec<OutboxMessage> = Vec::new();
    insert_message(&mut rows, "m1", "orders", "https://queue.example/orders", 10);
    insert_message(&mut rows, "m2", "billing", "SNS::arn:example:billing", 20);
    mark_messages_as_sent(&mut rows, &vec![1, 2], 50);
    let before = rows.clone();

    assert_eq!(get_distinct_pending_topics(&rows), Vec::<String>::new());
    let run = run_sweep(&mut rows, &[], false, 10, 99);
    assert_eq!(run.outcome, Outcome::Completed);
    assert_eq!(run.asked, vec!["list"]);
    assert!(run.sent.is_empty());
    assert_eq!(rows, before);
}

#[test]
fn queue_address_is_dispatched_and_marked() {
    let mut rows: Vec<OutboxMessage> = Vec::new();
    insert_message(&mut rows, "order-1", "orders", "https://queue.example/orders", 10);

    let run = run_sweep(&mut rows, &[], false, 10, 77);
    assert_eq!(run.outcome, Outcome::Completed);
    assert_eq!(run.asked, vec!["list", "claim", "send", "mark"]);
    assert_eq!(run.sent.len(), 1);
    assert_eq!(run.sent[0].kind, TransportKind::Queue);
    assert_eq!(run.sent[0].address, "https://queue.example/orders");
    assert_eq!(
        run.sent[0].entries,
        vec![BatchEntry { id: "order-1".to_string(), body: BODY.to_string() }]
    );
    assert_eq!(rows[0].dispatched, Some(77));
    assert_eq!(pending(&rows, "orders", 10).len(), 0);
}

#[test]
fn topic_address_goes_to_the_fan_out_transport() {
    let mut rows: Vec<OutboxMessage> = Vec::new();
    insert_message(&mut rows, "order-1", "orders", "SNS::arn:example:topic", 10);

    let run = run_sweep(&mut rows, &[], false, 10, 78);
    assert_eq!(run.outcome, Outcome::Completed);
    assert_eq!(run.sent.len(), 1);
    assert_eq!(run.sent[0].kind, TransportKind::Topic);
    assert_eq!(run.sent[0].address, "arn:example:topic");
    assert_eq!(run.sent[0].entries.len(), 1);
    assert_eq!(run.sent[0].entries[0].id, "order-1");
    assert_eq!(rows[0].dispatched, Some(78));
}

#[test]
fn rejected_row_stays_pending_until_the_address_works() {
    let mut rows: Vec<OutboxMessage> = Vec::new();
    insert_message(&mut rows, "order-1", "orders", "https://queue.example/orders", 10);

    let first = run_sweep(&mut rows, &["https://queue.example/orders"], false, 10, 100);
    assert_eq!(first.outcome, Outcome::Completed);
    assert_eq!(first.rejected, 1);
    assert_eq!(first.asked, vec!["list", "claim", "send"]);
    assert_eq!(rows[0].dispatched, None);
    let still = pending(&rows, "orders", 10);
    assert_eq!(still.len(), 1);
    assert_eq!(still[0].message_id, "order-1");

    let second = run_sweep(&mut rows, &[], false, 10, 200);
    assert_eq!(second.outcome, Outcome::Completed);
    assert_eq!(second.sent.len(), 1);
    assert_eq!(rows[0].dispatched, Some(200));
    assert_eq!(pending(&rows, "orders", 10).len(), 0);
}

#[test]
fn failed_mark_leaves_rows_for_redelivery() {
    let mut rows: Vec<OutboxMessage> = Vec::new();
    insert_message(&mut rows, "order-1", "orders", "https://queue.example/orders", 10);

    let first = run_sweep(&mut rows, &[], true, 10, 100);
    assert_eq!(first.outcome, Outcome::Completed);
    assert_eq!(first.sent.len(), 1);
    assert_eq!(rows[0].dispatched, None);

    let second = run_sweep(&mut rows, &[], false, 10, 200);
    assert_eq!(second.sent.len(), 1);
    assert_eq!(second.sent[0].entries[0].id, "order-1");
    assert_eq!(rows[0].dispatched, Some(200));
}

#[test]
fn one_failing_topic_does_not_stop_the_others() {
    let mut rows: Vec<OutboxMessage> = Vec::new();
    insert_message(&mut rows, "a-1", "alpha", "bad-address", 10);
    insert_message(&mut rows, "b-1", "beta", "SNS::arn:example:beta", 20);
    insert_message(&mut rows, "c-1", "gamma", "https://queue.example/gamma", 30);

    let run = run_sweep(&mut rows, &["bad-address"], false, 10, 500);
    assert_eq!(run.outcome, Outcome::Completed);
    assert_eq!(run.rejected, 1);
    assert_eq!(run.sent.len(), 2);
    assert_eq!(rows[0].dispatched, None);
    assert_eq!(rows[1].dispatched, Some(500));
    assert_eq!(rows[2].dispatched, Some(500));
}

#[test]
fn batch_is_bounded_by_the_limit_per_sweep() {
    let mut rows: Vec<OutboxMessage> = Vec::new();
    for n in 0..5 {
        insert_message(&mut rows, &format!("m{}", n), "orders", "https://queue.example/orders", 10 + n);
    }
    let run = run_sweep(&mut rows, &[], false, 2, 900);
    assert_eq!(run.sent.len(), 1);
    assert_eq!(run.sent[0].entries.len(), 2);
    assert_eq!(run.sent[0].entries[0].id, "m0");
    assert_eq!(run.sent[0].entries[1].id, "m1");
    assert_eq!(pending(&rows, "orders", 10).len(), 3);
}

#[test]
fn whole_batch_goes_to_the_first_rows_address() {
    let mut rows: Vec<OutboxMessage> = Vec::new();
    insert_message(&mut rows, "m1", "orders", "SNS::arn:example:first", 10);
    insert_message(&mut rows, "m2", "orders", "https://queue.example/second", 20);
    let run = run_sweep(&mut rows, &[], false, 10, 900);
    assert_eq!(run.sent.len(), 1);
    assert_eq!(run.sent[0].kind, TransportKind::Topic);
    assert_eq!(run.sent[0].address, "arn:example:first");
    assert_eq!(run.sent[0].entries.len(), 2);
}

#[test]
fn step_follows_the_phases_of_one_topic() {
    let mut sweep = Sweep::new(10);
    assert_eq!(sweep.phase, Phase::Idle);
    assert_eq!(sweep.step(Event::Started), Action::ListPendingTopics);
    assert_eq!(sweep.phase, Phase::Discovering);
    assert_eq!(
        sweep.step(Event::TopicsListed(vec!["orders".to_string(), "billing".to_string()])),
        Action::ClaimBatch { topic: "orders".to_string(), limit: 10 }
    );
    assert_eq!(sweep.phase, Phase::Claiming);
    let mut rows: Vec<OutboxMessage> = Vec::new();
    insert_message(&mut rows, "m1", "orders", "Q::addr", 10);
    rows[0].id = 41;
    assert_eq!(
        sweep.step(Event::BatchClaimed(rows.clone())),
        Action::SendBatch {
            kind: TransportKind::Topic,
            address: "addr".to_string(),
            entries: vec![BatchEntry { id: "m1".to_string(), body: BODY.to_string() }],
        }
    );
    assert_eq!(sweep.phase, Phase::Sending);
    assert_eq!(sweep.claimed, vec![41]);
    assert_eq!(sweep.step(Event::BatchSent), Action::MarkDispatched { ids: vec![41] });
    assert_eq!(sweep.phase, Phase::Marking);
    assert_eq!(
        sweep.step(Event::BatchMarked),
        Action::ClaimBatch { topic: "billing".to_string(), limit: 10 }
    );
    assert_eq!(sweep.cursor, 1);
    assert!(sweep.claimed.is_empty());
    assert_eq!(
        sweep.step(Event::BatchClaimed(Vec::new())),
        Action::Finish { outcome: Outcome::Completed }
    );
    assert!(sweep.is_done());
}

#[test]
fn discovery_failure_ends_the_sweep() {
    let mut sweep = Sweep::new(10);
    sweep.step(Event::Started);
    assert_eq!(
        sweep.step(Event::DiscoveryFailed),
        Action::Finish { outcome: Outcome::DiscoveryFailed }
    );
    assert!(sweep.is_done());
}

#[test]
fn claim_failure_moves_to_the_next_topic() {
    let mut sweep = Sweep::new(3);
    sweep.step(Event::Started);
    sweep.step(Event::TopicsListed(vec!["a".to_string(), "b".to_string()]));
    assert_eq!(
        sweep.step(Event::ClaimFailed),
        Action::ClaimBatch { topic: "b".to_string(), limit: 3 }
    );
    assert_eq!(sweep.step(Event::ClaimFailed), Action::Finish { outcome: Outcome::Completed });
}

#[test]
fn send_failure_asks_for_no_mark() {
    let mut sweep = Sweep::new(3);
    sweep.step(Event::Started);
    sweep.step(Event::TopicsListed(vec!["a".to_string()]));
    let mut rows: Vec<OutboxMessage> = Vec::new();
    insert_message(&mut rows, "m1", "a", "addr", 10);
    sweep.step(Event::BatchClaimed(rows));
    assert_eq!(sweep.step(Event::SendFailed), Action::Finish { outcome: Outcome::Completed });
    assert!(sweep.claimed.is_empty());
}

#[test]
fn mark_failure_moves_on() {
    let mut sweep = Sweep::new(3);
    sweep.step(Event::Started);
    sweep.step(Event::TopicsListed(vec!["a".to_string(), "b".to_string()]));
    let mut rows: Vec<OutboxMessage> = Vec::new();
    insert_message(&mut rows, "m1", "a", "addr", 10);
    sweep.step(Event::BatchClaimed(rows));
    sweep.step(Event::BatchSent);
    assert_eq!(
        sweep.step(Event::MarkFailed),
        Action::ClaimBatch { topic: "b".to_string(), limit: 3 }
    );
}

#[test]
fn event_out_of_phase_is_ignored() {
    let mut sweep = Sweep::new(10);
    let fresh = sweep.clone();
    assert_eq!(sweep.step(Event::BatchSent), Action::Ignore);
    assert_eq!(sweep, fresh);
    sweep.step(Event::Started);
    let discovering = sweep.clone();
    assert_eq!(sweep.step(Event::Started), Action::Ignore);
    assert_eq!(sweep.step(Event::BatchMarked), Action::Ignore);
    assert_eq!(sweep, discovering);
    sweep.step(Event::TopicsListed(Vec::new()));
    assert!(sweep.is_done());
    assert_eq!(sweep.step(Event::Started), Action::Ignore);
    assert!(sweep.is_done());
}
