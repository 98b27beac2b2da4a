use news_letter::authentication::UserId;
use news_letter::issue_delivery_worker::{
    begin_task, classify_failure, delete_task, dequeue_task, finish_task, get_issue, pause_after,
    plan_delivery, release_task, settle, try_execute_task, Attempt, DeliveryPlan,
    ExecutionOutcome, Settlement, TaskLease, TransportError,
};
use news_letter::model::DeliveryTask;
use news_letter::newsletter::{publish_newsletter_with_id, FormData, Publication};
use news_letter::storage::Database;

fn form(title: &str, key: &str) -> FormData {
    FormData {
        title: title.to_string(),
        text_content: "Newsletter body as plain text".to_string(),
        html_content: "<p>Newsletter body as HTML</p>".to_string(),
        idempotency_key: key.to_string(),
    }
}

fn store_with(confirmed: &[&str]) -> Database {
    let mut db = Database::new();
    for email in confirmed {
        db.insert_subscriber(email.to_string()).unwrap();
        assert!(db.confirm_subscriber(&email.to_string()));
    }
    db
}

fn task(issue_id: u128, recipient: &str) -> DeliveryTask {
    DeliveryTask { issue_id, recipient: recipient.to_string() }
}

fn held(lease: &TaskLease) -> DeliveryTask {
    task(lease.issue_id(), lease.recipient())
}

#[test]
fn three_recipients_are_delivered_once_each_and_a_resubmission_sends_nothing() {
    let mut db = store_with(&["a@example.com", "b@example.com", "c@example.com"]);
    let first = publish_newsletter_with_id(&mut db, UserId(1), form("T", "key"), 10, 100).unwrap();
    assert_eq!(db.pending_tasks().len(), 3);

    let mut transport_calls = Vec::new();
    loop {
        let execution = try_execute_task(&mut db, Ok(()));
        if let Some(email) = execution.sent {
            assert_eq!(email.subject, "T");
            assert_eq!(email.html_content, "<p>Newsletter body as HTML</p>");
            assert_eq!(email.text_content, "Newsletter body as plain text");
            transport_calls.push(email.recipient.as_ref().to_string());
        }
        match execution.outcome {
            Ok(ExecutionOutcome::TaskCompleted) => {}
            Ok(ExecutionOutcome::EmptyQueue) => break,
            Err(error) => panic!("the transport did not fail, yet: {:?}", error),
        }
    }
    assert_eq!(transport_calls, vec!["a@example.com", "b@example.com", "c@example.com"]);
    assert!(db.pending_tasks().is_empty());

    let second = publish_newsletter_with_id(&mut db, UserId(1), form("T", "key"), 11, 200).unwrap();
    assert_eq!(second.response(), first.response());
    assert!(matches!(second, Publication::Replayed(_)));
    assert!(db.pending_tasks().is_empty());
    let execution = try_execute_task(&mut db, Ok(()));
    assert_eq!(execution.outcome, Ok(ExecutionOutcome::EmptyQueue));
    assert!(execution.sent.is_none());
    assert_eq!(transport_calls.len(), 3);
}

#[test]
fn a_transient_failure_leaves_the_task_for_a_second_pass() {
    let mut db = store_with(&["r@example.com"]);
    publish_newsletter_with_id(&mut db, UserId(1), form("Delivery retry", "key"), 10, 100).unwrap();

    let mut invocations = 0;
    let first = try_execute_task(&mut db, Err(TransportError::Transient));
    assert_eq!(first.outcome, Err(TransportError::Transient));
    assert_eq!(first.sent.unwrap().recipient.as_ref(), "r@example.com");
    invocations += 1;
    assert_eq!(db.pending_tasks(), vec![task(10, "r@example.com")]);

    let second = try_execute_task(&mut db, Ok(()));
    assert_eq!(second.outcome, Ok(ExecutionOutcome::TaskCompleted));
    assert_eq!(second.sent.unwrap().recipient.as_ref(), "r@example.com");
    invocations += 1;
    assert!(db.pending_tasks().is_empty());
    assert!(invocations >= 2);
}

#[test]
fn a_permanent_failure_resolves_the_task() {
    let mut db = store_with(&["r@example.com"]);
    publish_newsletter_with_id(&mut db, UserId(1), form("T", "key"), 10, 100).unwrap();
    let execution = try_execute_task(&mut db, Err(TransportError::Permanent));
    assert_eq!(execution.outcome, Ok(ExecutionOutcome::TaskCompleted));
    assert!(execution.sent.is_some());
    assert!(db.pending_tasks().is_empty());
}

#[test]
fn an_invalid_stored_address_is_skipped_without_sending() {
    let mut db = store_with(&["not-an-address", "b@example.com"]);
    publish_newsletter_with_id(&mut db, UserId(1), form("T", "key"), 10, 100).unwrap();
    let execution = try_execute_task(&mut db, Err(TransportError::Transient));
    assert_eq!(execution.outcome, Ok(ExecutionOutcome::TaskCompleted));
    assert!(execution.sent.is_none());
    assert_eq!(db.pending_tasks(), vec![task(10, "b@example.com")]);
}

#[test]
fn an_empty_queue_is_reported() {
    let mut db = Database::new();
    let execution = try_execute_task(&mut db, Ok(()));
    assert_eq!(execution.outcome, Ok(ExecutionOutcome::EmptyQueue));
    assert!(execution.sent.is_none());
    assert!(matches!(begin_task(&mut db), Attempt::EmptyQueue));
}

#[test]
fn two_workers_never_hold_the_same_task() {
    let mut db = store_with(&["a@example.com", "b@example.com"]);
    publish_newsletter_with_id(&mut db, UserId(1), form("T", "key"), 10, 100).unwrap();
    let first = dequeue_task(&mut db).unwrap();
    let second = dequeue_task(&mut db).unwrap();
    assert_eq!(held(&first), task(10, "a@example.com"));
    assert_eq!(held(&second), task(10, "b@example.com"));
    assert!(dequeue_task(&mut db).is_none());
    // Held tasks are still pending.
    assert_eq!(db.pending_tasks().len(), 2);

    // The first worker fails and lets go; the task can be taken again.
    release_task(&mut db, first);
    let again = dequeue_task(&mut db).unwrap();
    assert_eq!(held(&again), task(10, "a@example.com"));
    assert!(dequeue_task(&mut db).is_none());

    // The second worker completes; its task is gone for good.
    delete_task(&mut db, second);
    assert_eq!(db.pending_tasks(), vec![task(10, "a@example.com")]);
    delete_task(&mut db, again);
    assert!(db.pending_tasks().is_empty());
    assert!(dequeue_task(&mut db).is_none());
}

#[test]
fn many_workers_over_many_tasks_complete_each_task_once() {
    let addresses: Vec<String> = (0..12).map(|i| format!("s{}@example.com", i)).collect();
    let refs: Vec<&str> = addresses.iter().map(|s| s.as_str()).collect();
    let mut db = store_with(&refs);
    publish_newsletter_with_id(&mut db, UserId(1), form("T", "key"), 10, 100).unwrap();

    let mut completed: Vec<String> = Vec::new();
    let mut attempts = 0;
    while !db.pending_tasks().is_empty() {
        // Four workers begin at the same time, then finish in turn; every
        // third attempt fails transiently.
        let mut leases = Vec::new();
        for _ in 0..4 {
            if let Attempt::Send(lease, email) = begin_task(&mut db) {
                assert!(!leases.iter().any(|(l, _): &(TaskLease, _)| held(l) == held(&lease)));
                leases.push((lease, email));
            }
        }
        for (lease, email) in leases {
            attempts += 1;
            let reply = if attempts % 3 == 0 { Err(TransportError::Transient) } else { Ok(()) };
            if finish_task(&mut db, lease, reply).is_ok() {
                completed.push(email.recipient.as_ref().to_string());
            }
        }
    }
    completed.sort();
    let mut expected = addresses.clone();
    expected.sort();
    assert_eq!(completed, expected);
    assert!(attempts > 12);
}

#[test]
fn a_worker_killed_mid_attempt_leaves_its_task_pending() {
    let mut db = store_with(&["a@example.com"]);
    publish_newsletter_with_id(&mut db, UserId(1), form("T", "key"), 10, 100).unwrap();
    assert!(matches!(begin_task(&mut db), Attempt::Send(_, _)));
    // The task is held: no other worker takes it.
    assert!(dequeue_task(&mut db).is_none());
    // The worker dies before it hears from the transport; the store comes back up.
    db.recover();
    assert_eq!(db.pending_tasks(), vec![task(10, "a@example.com")]);
    let execution = try_execute_task(&mut db, Ok(()));
    assert_eq!(execution.outcome, Ok(ExecutionOutcome::TaskCompleted));
    assert!(db.pending_tasks().is_empty());
}

#[test]
fn a_hold_from_before_a_restart_settles_nothing() {
    let mut db = store_with(&["a@example.com"]);
    publish_newsletter_with_id(&mut db, UserId(1), form("T", "key"), 10, 100).unwrap();
    let stale = match begin_task(&mut db) {
        Attempt::Send(lease, _) => lease,
        other => panic!("expected a message to send, got {:?}", other),
    };
    db.recover();
    // Another worker takes the delivery in the new life of the store.
    let fresh = dequeue_task(&mut db).unwrap();
    assert_eq!(held(&fresh), held(&stale));

    // The first worker's send went through, but its hold is void.
    assert_eq!(finish_task(&mut db, stale, Ok(())), Err(TransportError::Transient));
    assert_eq!(db.pending_tasks(), vec![task(10, "a@example.com")]);
    assert!(dequeue_task(&mut db).is_none());

    assert_eq!(finish_task(&mut db, fresh, Ok(())), Ok(ExecutionOutcome::TaskCompleted));
    assert!(db.pending_tasks().is_empty());
}

#[test]
fn void_holds_neither_delete_nor_release() {
    let mut db = store_with(&["a@example.com", "b@example.com"]);
    publish_newsletter_with_id(&mut db, UserId(1), form("T", "key"), 10, 100).unwrap();
    let first = dequeue_task(&mut db).unwrap();
    let second = dequeue_task(&mut db).unwrap();
    db.recover();
    let again = dequeue_task(&mut db).unwrap();
    assert_eq!(held(&again), task(10, "a@example.com"));
    delete_task(&mut db, first);
    release_task(&mut db, second);
    assert_eq!(db.pending_tasks().len(), 2);
    // The delivery taken in this life is still held: only the other is free.
    let other = dequeue_task(&mut db).unwrap();
    assert_eq!(held(&other), task(10, "b@example.com"));
    assert!(dequeue_task(&mut db).is_none());
}

#[test]
fn a_lease_names_the_delivery_it_holds() {
    let mut db = store_with(&["a@example.com"]);
    publish_newsletter_with_id(&mut db, UserId(1), form("T", "key"), 10, 100).unwrap();
    let lease = dequeue_task(&mut db).unwrap();
    assert_eq!(lease.issue_id(), 10);
    assert_eq!(lease.recipient(), "a@example.com");
    release_task(&mut db, lease);
    assert_eq!(db.pending_tasks(), vec![task(10, "a@example.com")]);
}

#[test]
fn deliveries_are_planned_by_their_address() {
    match plan_delivery("a@example.com".to_string()) {
        DeliveryPlan::Send(address) => assert_eq!(address.as_ref(), "a@example.com"),
        DeliveryPlan::Skip => panic!("a valid address is sent to"),
    }
    assert!(matches!(plan_delivery("not-an-address".to_string()), DeliveryPlan::Skip));
    assert!(matches!(plan_delivery(String::new()), DeliveryPlan::Skip));
}

#[test]
fn failures_are_told_apart_by_what_the_client_saw() {
    assert_eq!(classify_failure(true, false), TransportError::Transient);
    assert_eq!(classify_failure(false, true), TransportError::Transient);
    assert_eq!(classify_failure(true, true), TransportError::Transient);
    assert_eq!(classify_failure(false, false), TransportError::Permanent);
}

#[test]
fn the_issue_of_a_task_can_be_fetched() {
    let mut db = store_with(&["a@example.com"]);
    publish_newsletter_with_id(&mut db, UserId(1), form("T", "key"), 10, 100).unwrap();
    let issue = get_issue(&db, 10).unwrap();
    assert_eq!(issue.issue_id, 10);
    assert_eq!(issue.title, "T");
    assert!(get_issue(&db, 11).is_none());
}

#[test]
fn settlement_by_transport_reply() {
    assert_eq!(settle(&Ok(())), Settlement::Resolve);
    assert_eq!(settle(&Err(TransportError::Permanent)), Settlement::Resolve);
    assert_eq!(settle(&Err(TransportError::Transient)), Settlement::Retry);
}

#[test]
fn the_worker_rests_by_outcome() {
    assert_eq!(pause_after::<TransportError>(&Ok(ExecutionOutcome::TaskCompleted)), 0);
    assert_eq!(pause_after::<TransportError>(&Ok(ExecutionOutcome::EmptyQueue)), 10);
    assert_eq!(pause_after(&Err::<ExecutionOutcome, _>(TransportError::Transient)), 1);
    assert_eq!(pause_after(&Err::<ExecutionOutcome, _>("connection reset")), 1);
}
