use news_letter::authentication::UserId;
use news_letter::http::{see_other, HeaderPair, Response};
use news_letter::idempotency::{
    get_saved_response, rollback, save_response, try_processing, IdempotencyKey, KeyError,
    NextAction,
};
use news_letter::model::DeliveryTask;
use news_letter::newsletter::{
    enqueue_delivery_tasks, insert_newsletter_issue, publish_newsletter, publish_newsletter_with_id,
    success_message, FormData, Publication, PublishFailure,
};
use news_letter::storage::{Database, Lookup, StorageError};

fn form(key: &str) -> FormData {
    FormData {
        title: "Newsletter title".to_string(),
        text_content: "Newsletter body as plain text".to_string(),
        html_content: "<p>Newsletter body as HTML</p>".to_string(),
        idempotency_key: key.to_string(),
    }
}

fn store_with(confirmed: &[&str], unconfirmed: &[&str]) -> Database {
    let mut db = Database::new();
    for email in confirmed {
        db.insert_subscriber(email.to_string()).unwrap();
        assert!(db.confirm_subscriber(&email.to_string()));
    }
    for email in unconfirmed {
        db.insert_subscriber(email.to_string()).unwrap();
    }
    db
}

fn redirect() -> Response {
    Response {
        status_code: 303,
        headers: vec![HeaderPair {
            name: "Location".to_string(),
            value: "/admin/newsletters".to_string(),
        }],
        body: vec![],
    }
}

#[test]
fn see_other_is_a_303_with_location() {
    assert_eq!(see_other("/admin/newsletters"), redirect());
    assert_eq!(see_other("/login").headers[0].value, "/login");
}

#[test]
fn idempotency_key_must_not_be_empty() {
    assert_eq!(IdempotencyKey::try_from(String::new()).unwrap_err(), KeyError::Empty);
    assert_eq!(KeyError::Empty.message(), "The idempotency key cannot be empty");
}

#[test]
fn idempotency_key_must_be_shorter_than_50() {
    assert!(IdempotencyKey::try_from("k".repeat(49)).is_ok());
    assert_eq!(IdempotencyKey::try_from("k".repeat(50)).unwrap_err(), KeyError::TooLong);
    assert_eq!(
        KeyError::TooLong.message(),
        "The idempotency key must be shorter than 50 characters"
    );
}

#[test]
fn idempotency_key_is_kept_unchanged() {
    let key = IdempotencyKey::try_from("7f0c3a".to_string()).unwrap();
    assert_eq!(key.as_ref(), "7f0c3a");
    assert_eq!(key.as_string(), "7f0c3a");
}

#[test]
fn publishing_stores_one_issue_and_one_task_per_confirmed_subscriber() {
    let mut db = store_with(&["a@example.com", "b@example.com"], &["c@example.com"]);
    let result = publish_newsletter_with_id(&mut db, UserId(7), form("key-1"), 42, 1000);
    assert_eq!(result, Ok(Publication::Published(redirect())));
    assert_eq!(db.issue_count(), 1);
    let issue = db.issue(42).unwrap();
    assert_eq!(issue.title, "Newsletter title");
    assert_eq!(issue.text_content, "Newsletter body as plain text");
    assert_eq!(issue.html_content, "<p>Newsletter body as HTML</p>");
    assert_eq!(issue.published_at, 1000);
    assert_eq!(
        db.pending_tasks(),
        vec![
            DeliveryTask { issue_id: 42, recipient: "a@example.com".to_string() },
            DeliveryTask { issue_id: 42, recipient: "b@example.com".to_string() },
        ]
    );
}

#[test]
fn nothing_is_queued_for_unconfirmed_subscribers() {
    let mut db = store_with(&[], &["c@example.com"]);
    let result = publish_newsletter_with_id(&mut db, UserId(7), form("key-1"), 42, 1000);
    assert_eq!(result, Ok(Publication::Published(redirect())));
    assert_eq!(db.issue_count(), 1);
    assert!(db.pending_tasks().is_empty());
}

#[test]
fn later_confirmations_do_not_receive_past_issues() {
    let mut db = store_with(&["a@example.com"], &["c@example.com"]);
    publish_newsletter_with_id(&mut db, UserId(7), form("key-1"), 42, 1000).unwrap();
    assert!(db.confirm_subscriber(&"c@example.com".to_string()));
    assert_eq!(
        db.pending_tasks(),
        vec![DeliveryTask { issue_id: 42, recipient: "a@example.com".to_string() }]
    );
}

#[test]
fn submitting_twice_publishes_once() {
    let mut db = store_with(&["a@example.com", "b@example.com", "c@example.com"], &[]);
    let first = publish_newsletter_with_id(&mut db, UserId(7), form("key-1"), 42, 1000).unwrap();
    let second = publish_newsletter_with_id(&mut db, UserId(7), form("key-1"), 43, 2000).unwrap();
    assert_eq!(first, Publication::Published(redirect()));
    assert_eq!(second, Publication::Replayed(redirect()));
    assert_eq!(first.response(), second.response());
    assert_eq!(db.issue_count(), 1);
    assert!(db.issue(43).is_none());
    assert_eq!(db.pending_tasks().len(), 3);
}

#[test]
fn the_same_key_of_another_owner_is_another_key() {
    let mut db = store_with(&["a@example.com"], &[]);
    publish_newsletter_with_id(&mut db, UserId(7), form("key-1"), 42, 1000).unwrap();
    let other = publish_newsletter_with_id(&mut db, UserId(8), form("key-1"), 43, 2000).unwrap();
    assert_eq!(other, Publication::Published(redirect()));
    assert_eq!(db.issue_count(), 2);
    assert_eq!(db.pending_tasks().len(), 2);
}

#[test]
fn another_key_publishes_another_issue() {
    let mut db = store_with(&["a@example.com"], &[]);
    publish_newsletter_with_id(&mut db, UserId(7), form("key-1"), 42, 1000).unwrap();
    let other = publish_newsletter_with_id(&mut db, UserId(7), form("key-2"), 43, 2000).unwrap();
    assert_eq!(other, Publication::Published(redirect()));
    assert_eq!(db.issue_count(), 2);
}

#[test]
fn malformed_key_is_a_client_error_and_writes_nothing() {
    let mut db = store_with(&["a@example.com"], &[]);
    let empty = publish_newsletter_with_id(&mut db, UserId(7), form(""), 42, 1000).unwrap_err();
    assert_eq!(empty, PublishFailure::InvalidKey(KeyError::Empty));
    assert!(!empty.is_retryable());
    assert_eq!(empty.status_code(), 400);
    let long = publish_newsletter_with_id(&mut db, UserId(7), form(&"k".repeat(50)), 42, 1000);
    assert_eq!(long, Err(PublishFailure::InvalidKey(KeyError::TooLong)));
    assert_eq!(db.issue_count(), 0);
    assert!(db.pending_tasks().is_empty());
}

#[test]
fn taken_issue_id_is_a_storage_failure_and_leaves_no_trace() {
    let mut db = store_with(&["a@example.com"], &[]);
    publish_newsletter_with_id(&mut db, UserId(7), form("key-1"), 42, 1000).unwrap();
    let failure = publish_newsletter_with_id(&mut db, UserId(7), form("key-2"), 42, 2000).unwrap_err();
    assert_eq!(failure, PublishFailure::Storage(StorageError::DuplicateIssue));
    assert!(failure.is_retryable());
    assert_eq!(failure.status_code(), 500);
    assert_eq!(db.issue_count(), 1);
    assert_eq!(db.pending_tasks().len(), 1);
    assert!(matches!(db.key_state(UserId(7), &"key-2".to_string()), Lookup::Unseen));
    // The same request, sent again, goes through.
    let retried = publish_newsletter_with_id(&mut db, UserId(7), form("key-2"), 43, 3000);
    assert_eq!(retried, Ok(Publication::Published(redirect())));
    assert_eq!(db.issue_count(), 2);
}

#[test]
fn random_issue_ids_differ() {
    let mut db = store_with(&["a@example.com"], &[]);
    publish_newsletter(&mut db, UserId(7), form("key-1"), 1000).unwrap();
    publish_newsletter(&mut db, UserId(7), form("key-2"), 1000).unwrap();
    let tasks = db.pending_tasks();
    assert_eq!(db.issue_count(), 2);
    assert_eq!(tasks.len(), 2);
    assert_ne!(tasks[0].issue_id, tasks[1].issue_id);
}

#[test]
fn a_new_key_starts_processing_and_a_saved_one_replays() {
    let mut db = Database::new();
    let key = IdempotencyKey::try_from("key-1".to_string()).unwrap();
    assert!(get_saved_response(&db, &key, UserId(7)).is_none());
    let transaction = match try_processing(&mut db, &key, UserId(7), 5) {
        NextAction::StartProcessing(transaction) => transaction,
        other => panic!("expected to start processing, got {:?}", other),
    };
    assert!(matches!(db.key_state(UserId(7), key.as_string()), Lookup::InProgress));
    assert!(get_saved_response(&db, &key, UserId(7)).is_none());
    let response = Response {
        status_code: 200,
        headers: vec![
            HeaderPair { name: "X-First".to_string(), value: "1".to_string() },
            HeaderPair { name: "X-Second".to_string(), value: "2".to_string() },
        ],
        body: vec![0, 159, 146, 150],
    };
    let returned = save_response(&mut db, transaction, response.clone()).unwrap();
    assert_eq!(returned, response);
    assert_eq!(get_saved_response(&db, &key, UserId(7)), Some(response.clone()));
    match try_processing(&mut db, &key, UserId(7), 6) {
        NextAction::ReturnSavedResponse(saved) => assert_eq!(saved, response),
        other => panic!("expected the saved response, got {:?}", other),
    }
}

#[test]
fn a_second_submission_waits_while_the_first_is_open() {
    let mut db = store_with(&["a@example.com"], &[]);
    let key = IdempotencyKey::try_from("key-1".to_string()).unwrap();
    let mut winner = match try_processing(&mut db, &key, UserId(7), 5) {
        NextAction::StartProcessing(transaction) => transaction,
        other => panic!("expected to start processing, got {:?}", other),
    };
    assert!(matches!(try_processing(&mut db, &key, UserId(7), 6), NextAction::AwaitCommit));
    let loser = publish_newsletter_with_id(&mut db, UserId(7), form("key-1"), 43, 6);
    assert_eq!(loser, Ok(Publication::Pending));
    assert_eq!(db.issue_count(), 0);

    insert_newsletter_issue(&db, &mut winner, 42, "T", "text", "<p>html</p>", 5).unwrap();
    enqueue_delivery_tasks(&db, &mut winner, 42).unwrap();
    // Nothing is visible before the commit.
    assert_eq!(db.issue_count(), 0);
    assert!(db.pending_tasks().is_empty());
    let saved = save_response(&mut db, winner, see_other("/admin/newsletters")).unwrap();

    let loser = publish_newsletter_with_id(&mut db, UserId(7), form("key-1"), 43, 7).unwrap();
    assert_eq!(loser, Publication::Replayed(saved));
    assert_eq!(db.issue_count(), 1);
    assert_eq!(db.pending_tasks().len(), 1);
}

#[test]
fn a_submission_given_up_leaves_no_trace() {
    let mut db = store_with(&["a@example.com"], &[]);
    let key = IdempotencyKey::try_from("key-1".to_string()).unwrap();
    let mut transaction = match try_processing(&mut db, &key, UserId(7), 5) {
        NextAction::StartProcessing(transaction) => transaction,
        other => panic!("expected to start processing, got {:?}", other),
    };
    insert_newsletter_issue(&db, &mut transaction, 42, "T", "text", "<p>html</p>", 5).unwrap();
    enqueue_delivery_tasks(&db, &mut transaction, 42).unwrap();
    rollback(&mut db, transaction);
    assert_eq!(db.issue_count(), 0);
    assert!(db.pending_tasks().is_empty());
    assert!(matches!(db.key_state(UserId(7), key.as_string()), Lookup::Unseen));
    // The retry under the same key succeeds cleanly, with the same issue id.
    let retried = publish_newsletter_with_id(&mut db, UserId(7), form("key-1"), 42, 9);
    assert_eq!(retried, Ok(Publication::Published(redirect())));
    assert_eq!(db.issue_count(), 1);
    assert_eq!(db.pending_tasks().len(), 1);
}

#[test]
fn a_restart_rolls_open_submissions_back_and_keeps_saved_ones() {
    let mut db = store_with(&["a@example.com"], &[]);
    publish_newsletter_with_id(&mut db, UserId(7), form("saved"), 41, 1).unwrap();
    let key = IdempotencyKey::try_from("open".to_string()).unwrap();
    let mut transaction = match try_processing(&mut db, &key, UserId(7), 5) {
        NextAction::StartProcessing(transaction) => transaction,
        other => panic!("expected to start processing, got {:?}", other),
    };
    insert_newsletter_issue(&db, &mut transaction, 42, "T", "text", "<p>html</p>", 5).unwrap();
    enqueue_delivery_tasks(&db, &mut transaction, 42).unwrap();
    // The process goes down here: the handle is lost with it.
    drop(transaction);
    db.recover();

    assert_eq!(db.issue_count(), 1);
    assert!(db.issue(42).is_none());
    assert_eq!(
        db.pending_tasks(),
        vec![DeliveryTask { issue_id: 41, recipient: "a@example.com".to_string() }]
    );
    assert!(matches!(db.key_state(UserId(7), key.as_string()), Lookup::Unseen));
    assert!(matches!(db.key_state(UserId(7), &"saved".to_string()), Lookup::Saved(_)));

    let retried = publish_newsletter_with_id(&mut db, UserId(7), form("open"), 42, 9);
    assert_eq!(retried, Ok(Publication::Published(redirect())));
    let replayed = publish_newsletter_with_id(&mut db, UserId(7), form("saved"), 43, 9);
    assert_eq!(replayed, Ok(Publication::Replayed(redirect())));
    assert_eq!(db.issue_count(), 2);
    assert_eq!(db.pending_tasks().len(), 2);
}

#[test]
fn a_transaction_from_before_a_restart_commits_nothing() {
    let mut db = store_with(&["a@example.com"], &[]);
    let key = IdempotencyKey::try_from("key-1".to_string()).unwrap();
    let mut stale = match try_processing(&mut db, &key, UserId(7), 5) {
        NextAction::StartProcessing(transaction) => transaction,
        other => panic!("expected to start processing, got {:?}", other),
    };
    insert_newsletter_issue(&db, &mut stale, 42, "stale", "t", "h", 5).unwrap();
    assert_eq!(db.epoch(), 0);
    db.recover();
    assert_eq!(db.epoch(), 1);
    // Another submission takes the same key in the new life of the store.
    let mut fresh = match try_processing(&mut db, &key, UserId(7), 6) {
        NextAction::StartProcessing(transaction) => transaction,
        other => panic!("expected to start processing, got {:?}", other),
    };
    let refused = save_response(&mut db, stale, see_other("/stale"));
    assert_eq!(refused, Err(StorageError::TransactionClosed));
    assert_eq!(db.issue_count(), 0);
    assert!(matches!(db.key_state(UserId(7), key.as_string()), Lookup::InProgress));

    insert_newsletter_issue(&db, &mut fresh, 43, "fresh", "t", "h", 6).unwrap();
    save_response(&mut db, fresh, see_other("/admin/newsletters")).unwrap();
    assert_eq!(db.issue(43).unwrap().title, "fresh");
    assert!(db.issue(42).is_none());
}

#[test]
fn rolling_back_a_transaction_from_before_a_restart_changes_nothing() {
    let mut db = Database::new();
    let key = IdempotencyKey::try_from("key-1".to_string()).unwrap();
    let stale = match try_processing(&mut db, &key, UserId(7), 5) {
        NextAction::StartProcessing(transaction) => transaction,
        other => panic!("expected to start processing, got {:?}", other),
    };
    db.recover();
    let fresh = match try_processing(&mut db, &key, UserId(7), 6) {
        NextAction::StartProcessing(transaction) => transaction,
        other => panic!("expected to start processing, got {:?}", other),
    };
    rollback(&mut db, stale);
    assert!(matches!(db.key_state(UserId(7), key.as_string()), Lookup::InProgress));
    rollback(&mut db, fresh);
    assert!(matches!(db.key_state(UserId(7), key.as_string()), Lookup::Unseen));
}

#[test]
fn staging_refuses_what_the_tables_would_refuse() {
    let mut db = store_with(&["a@example.com"], &[]);
    publish_newsletter_with_id(&mut db, UserId(7), form("key-1"), 42, 1000).unwrap();
    let key = IdempotencyKey::try_from("key-2".to_string()).unwrap();
    let mut transaction = match try_processing(&mut db, &key, UserId(7), 5) {
        NextAction::StartProcessing(transaction) => transaction,
        other => panic!("expected to start processing, got {:?}", other),
    };
    assert_eq!(
        insert_newsletter_issue(&db, &mut transaction, 42, "T", "t", "h", 5),
        Err(StorageError::DuplicateIssue)
    );
    assert_eq!(
        enqueue_delivery_tasks(&db, &mut transaction, 43),
        Err(StorageError::UnknownIssue)
    );
    assert_eq!(insert_newsletter_issue(&db, &mut transaction, 43, "T", "t", "h", 5), Ok(43));
    assert_eq!(
        insert_newsletter_issue(&db, &mut transaction, 43, "T", "t", "h", 5),
        Err(StorageError::DuplicateIssue)
    );
    assert_eq!(enqueue_delivery_tasks(&db, &mut transaction, 43), Ok(()));
    assert_eq!(
        enqueue_delivery_tasks(&db, &mut transaction, 43),
        Err(StorageError::DuplicateTask)
    );
    assert!(transaction.has_issue(43));
    assert!(!transaction.has_issue(42));
    save_response(&mut db, transaction, see_other("/admin/newsletters")).unwrap();
    assert_eq!(db.issue_count(), 2);
    assert_eq!(db.pending_tasks().len(), 2);
}

#[test]
fn a_commit_that_lost_the_race_for_an_issue_id_is_rolled_back() {
    let mut db = store_with(&["a@example.com"], &[]);
    let key = IdempotencyKey::try_from("key-1".to_string()).unwrap();
    let mut transaction = match try_processing(&mut db, &key, UserId(7), 5) {
        NextAction::StartProcessing(transaction) => transaction,
        other => panic!("expected to start processing, got {:?}", other),
    };
    insert_newsletter_issue(&db, &mut transaction, 42, "T", "t", "h", 5).unwrap();
    // Another submission commits the same id first.
    publish_newsletter_with_id(&mut db, UserId(8), form("key-9"), 42, 6).unwrap();
    let lost = save_response(&mut db, transaction, see_other("/admin/newsletters"));
    assert_eq!(lost, Err(StorageError::DuplicateIssue));
    assert_eq!(db.issue_count(), 1);
    assert!(matches!(db.key_state(UserId(7), key.as_string()), Lookup::Unseen));
}

#[test]
fn a_handle_without_its_marker_commits_nothing() {
    let mut first = Database::new();
    let mut second = Database::new();
    let key = IdempotencyKey::try_from("key-1".to_string()).unwrap();
    let mut transaction = match try_processing(&mut first, &key, UserId(7), 5) {
        NextAction::StartProcessing(transaction) => transaction,
        other => panic!("expected to start processing, got {:?}", other),
    };
    insert_newsletter_issue(&first, &mut transaction, 42, "T", "t", "h", 5).unwrap();
    let refused = save_response(&mut second, transaction, see_other("/admin/newsletters"));
    assert_eq!(refused, Err(StorageError::TransactionClosed));
    assert_eq!(second.issue_count(), 0);
    assert!(matches!(second.key_state(UserId(7), key.as_string()), Lookup::Unseen));
}

#[test]
fn subscribers_are_inserted_once() {
    let mut db = Database::new();
    assert_eq!(db.insert_subscriber("a@example.com".to_string()), Ok(()));
    assert_eq!(
        db.insert_subscriber("a@example.com".to_string()),
        Err(StorageError::DuplicateSubscriber)
    );
    assert!(!db.confirm_subscriber(&"b@example.com".to_string()));
    assert!(db.confirmed_tasks(1).is_empty());
    assert!(db.confirm_subscriber(&"a@example.com".to_string()));
    assert_eq!(
        db.confirmed_tasks(1),
        vec![DeliveryTask { issue_id: 1, recipient: "a@example.com".to_string() }]
    );
}

#[test]
fn success_message_text() {
    assert_eq!(success_message(), "The newsletter issue has been published!");
}
