use crate::authentication::UserId;
use crate::http::{see_other, see_other_view, Response, ResponseView};
use crate::idempotency::key::{key_is_valid, IdempotencyKey, KeyError};
use crate::idempotency::persistence::{
    rollback, save_response, stage_tasks_outcome, try_processing, NextAction, Transaction,
};
use crate::model::{
    lemma_tasks_for, tasks_for, DatabaseView, IssueView, KeyState, NewsletterIssue,
    TransactionView,
};
use crate::storage::{Database, StorageError};
use vstd::prelude::*;

verus! {

/// What the author of an issue submits.
#[derive(Debug, Clone)]
pub struct FormData {
    pub title: String,
    pub text_content: String,
    pub html_content: String,
    pub idempotency_key: String,
}

/// A submitted form as plain values.
pub struct FormView {
    pub title: Seq<char>,
    pub text_content: Seq<char>,
    pub html_content: Seq<char>,
    pub idempotency_key: Seq<char>,
}

impl View for FormData {
    type V = FormView;

    open spec fn view(&self) -> FormView {
        FormView {
            title: self.title@,
            text_content: self.text_content@,
            html_content: self.html_content@,
            idempotency_key: self.idempotency_key@,
        }
    }
}

/// How a submission ended that did not fail.
#[derive(Debug, PartialEq, Eq)]
pub enum Publication {
    /// A new issue was stored, with its deliveries and with this response.
    Published(Response),
    /// The key was used before: this is the response saved then, and nothing
    /// was written.
    Replayed(Response),
    /// Another submission under the same key has not committed yet: nothing
    /// was written, and the client is to be answered once it has.
    Pending,
}

/// The end of a submission as plain values.
pub enum PublicationView {
    Published(ResponseView),
    Replayed(ResponseView),
    Pending,
}

impl View for Publication {
    type V = PublicationView;

    open spec fn view(&self) -> PublicationView {
        match self {
            Publication::Published(response) => PublicationView::Published(response@),
            Publication::Replayed(response) => PublicationView::Replayed(response@),
            Publication::Pending => PublicationView::Pending,
        }
    }
}

impl PublicationView {
    /// The response that the client gets, where there is one.
    pub open spec fn response(self) -> Option<ResponseView> {
        match self {
            PublicationView::Published(response) => Some(response),
            PublicationView::Replayed(response) => Some(response),
            PublicationView::Pending => None,
        }
    }
}

impl Publication {
    /// The response for the client, where there is one.
    pub fn response(&self) -> (response: Option<&Response>)
        ensures
            match response {
                Some(r) => self@.response() == Some(r@),
                None => self@.response() is None,
            },
    {
        match self {
            Publication::Published(r) => Some(r),
            Publication::Replayed(r) => Some(r),
            Publication::Pending => None,
        }
    }
}

/// Why a submission failed. Nothing of it is left in the store.
#[derive(Debug, Clone, Copy, PartialEq, Eq, Structural)]
pub enum PublishFailure {
    /// The idempotency key is malformed: the client's fault, not to be retried as it is.
    InvalidKey(KeyError),
    /// The store refused a write: the same request may be sent again.
    Storage(StorageError),
}

impl PublishFailure {
    /// Sending the same request again can succeed.
    pub open spec fn retryable(self) -> bool {
        self is Storage
    }

    /// Whether sending the same request again can succeed.
    pub fn is_retryable(&self) -> (retryable: bool)
        ensures
            retryable == self.retryable(),
    {
        match self {
            PublishFailure::InvalidKey(_) => false,
            PublishFailure::Storage(_) => true,
        }
    }

    /// The status code that reports the failure.
    pub open spec fn status(self) -> u16 {
        match self {
            PublishFailure::InvalidKey(_) => crate::http::BAD_REQUEST,
            PublishFailure::Storage(_) => crate::http::INTERNAL_SERVER_ERROR,
        }
    }

    /// The status code the client is answered with: 400 for its own fault,
    /// 500 for the store's.
    pub fn status_code(&self) -> (code: u16)
        ensures
            code == self.status(),
    {
        match self {
            PublishFailure::InvalidKey(_) => crate::http::BAD_REQUEST,
            PublishFailure::Storage(_) => crate::http::INTERNAL_SERVER_ERROR,
        }
    }
}

/// Where the author is sent after a submission.
pub open spec fn newsletters_page() -> Seq<char> {
    "/admin/newsletters"@
}

/// What the author is told once an issue is accepted.
pub fn success_message() -> (message: String)
    ensures
        message@ == "The newsletter issue has been published!"@,
{
    "The newsletter issue has been published!".to_owned()
}

/// Calls `Uuid::new_v4` and hands the identifier out as a number. Trusted,
/// and nothing is claimed of the number: it is drawn at random.
#[verifier::external_body]
fn new_issue_id() -> u128 {
    uuid::Uuid::new_v4().as_u128()
}

/// The issue that a submission stores.
pub open spec fn issue_view(
    issue_id: u128,
    title: Seq<char>,
    text_content: Seq<char>,
    html_content: Seq<char>,
    now: u64,
) -> IssueView {
    IssueView { issue_id, title, text_content, html_content, published_at: now }
}

/// Stages a new issue under the transaction. Refused where the store or the
/// transaction holds an issue with this id already; then nothing is staged.
pub fn insert_newsletter_issue(
    db: &Database,
    transaction: &mut Transaction,
    issue_id: u128,
    title: &str,
    text_content: &str,
    html_content: &str,
    now: u64,
) -> (inserted: Result<u128, StorageError>)
    requires
        old(transaction).wf(),
    ensures
        final(transaction).wf(),
        final(transaction).epoch() == old(transaction).epoch(),
        match inserted {
            Ok(id) => {
                &&& id == issue_id
                &&& !db@.has_issue(issue_id)
                &&& !old(transaction)@.has_issue(issue_id)
                &&& final(transaction)@ == old(transaction)@.with_issue(
                    issue_view(issue_id, title@, text_content@, html_content@, now),
                )
            },
            Err(error) => {
                &&& error == StorageError::DuplicateIssue
                &&& db@.has_issue(issue_id) || old(transaction)@.has_issue(issue_id)
                &&& final(transaction)@ == old(transaction)@
            },
        },
{
    if db.has_issue(issue_id) {
        return Err(StorageError::DuplicateIssue);
    }
    let issue = NewsletterIssue {
        issue_id,
        title: title.to_owned(),
        text_content: text_content.to_owned(),
        html_content: html_content.to_owned(),
        published_at: now,
    };
    match transaction.stage_issue(issue) {
        Ok(_) => Ok(issue_id),
        Err(error) => Err(error),
    }
}

/// Stages one delivery of the issue for each subscriber that is confirmed
/// now, and none for the others. The issue must be staged in the same
/// transaction; refused where one of the deliveries is staged already.
pub fn enqueue_delivery_tasks(
    db: &Database,
    transaction: &mut Transaction,
    newsletter_issue_id: u128,
) -> (enqueued: Result<(), StorageError>)
    requires
        db.wf(),
        old(transaction).wf(),
    ensures
        final(transaction).wf(),
        final(transaction).epoch() == old(transaction).epoch(),
        enqueued == stage_tasks_outcome(
            old(transaction)@,
            newsletter_issue_id,
            tasks_for(newsletter_issue_id, db@.subscribers),
        ),
        match enqueued {
            Ok(_) => final(transaction)@ == old(transaction)@.with_tasks(
                tasks_for(newsletter_issue_id, db@.subscribers),
            ),
            Err(_) => final(transaction)@ == old(transaction)@,
        },
{
    let tasks = db.confirmed_tasks(newsletter_issue_id);
    proof {
        db@.lemma_no_duplicates();
        lemma_tasks_for(newsletter_issue_id, db@.subscribers);
    }
    transaction.stage_tasks(newsletter_issue_id, tasks)
}

/// What is wrong with a text that is no valid key.
pub open spec fn key_error(key: Seq<char>) -> KeyError {
    if key.len() == 0 {
        KeyError::Empty
    } else {
        KeyError::TooLong
    }
}

/// What a transaction holds once it has staged the issue of a submission and
/// the deliveries that the issue owes.
pub open spec fn staged_publication(
    db: DatabaseView,
    owner: UserId,
    form: FormView,
    issue_id: u128,
    now: u64,
) -> TransactionView {
    TransactionView::fresh(owner, form.idempotency_key).with_issue(
        issue_view(issue_id, form.title, form.text_content, form.html_content, now),
    ).with_tasks(tasks_for(issue_id, db.subscribers))
}

/// The store after a submission and the submission's result.
///
/// A malformed key fails and writes nothing. A key with a saved response
/// replays it and writes nothing. A key whose marker is held writes nothing
/// and reports that. A new key stores the issue, one delivery per confirmed
/// subscriber and the redirect to the newsletter page, all at once; unless
/// the issue id is taken, which fails and writes nothing.
pub open spec fn submission(
    db: DatabaseView,
    owner: UserId,
    form: FormView,
    issue_id: u128,
    now: u64,
) -> (DatabaseView, Result<PublicationView, PublishFailure>) {
    let key = form.idempotency_key;
    if !key_is_valid(key) {
        (db, Err(PublishFailure::InvalidKey(key_error(key))))
    } else {
        match db.key_state(owner, key) {
            KeyState::Saved(response) => (db, Ok(PublicationView::Replayed(response))),
            KeyState::InProgress => (db, Ok(PublicationView::Pending)),
            KeyState::Unseen => if db.has_issue(issue_id) {
                (db, Err(PublishFailure::Storage(StorageError::DuplicateIssue)))
            } else {
                (
                    db.with_marker(owner, key, now).committed(
                        staged_publication(db, owner, form, issue_id, now),
                        see_other_view(newsletters_page()),
                    ),
                    Ok(PublicationView::Published(see_other_view(newsletters_page()))),
                )
            },
        }
    }
}

/// The result of a submission as plain values.
pub open spec fn publication_view(result: Result<Publication, PublishFailure>) -> Result<
    PublicationView,
    PublishFailure,
> {
    match result {
        Ok(publication) => Ok(publication@),
        Err(failure) => Err(failure),
    }
}

/// Taking a marker and giving it back leaves the store as it was.
pub proof fn lemma_marker_released(db: DatabaseView, owner: UserId, key: Seq<char>, now: u64)
    requires
        db.wf(),
        !db.has_record(owner, key),
    ensures
        db.with_marker(owner, key, now).without_record(owner, key) == db,
{
    let marked = db.with_marker(owner, key, now);
    db.lemma_with_marker(owner, key, now);
    assert(marked.record_at(db.records.len() as int, owner, key));
    marked.lemma_record_index(db.records.len() as int, owner, key);
    assert(marked.without_record(owner, key).records =~= db.records);
    assert(marked.without_record(owner, key) =~~= db);
}

/// A database that only gained a marker holds the issues it held.
proof fn lemma_marker_keeps_issues(db: DatabaseView, owner: UserId, key: Seq<char>, now: u64, id: u128)
    ensures
        db.with_marker(owner, key, now).has_issue(id) == db.has_issue(id),
{
    let marked = db.with_marker(owner, key, now);
    if db.has_issue(id) {
        let c = choose|c: int| db.issue_at(c, id);
        assert(marked.issue_at(c, id));
    }
    if marked.has_issue(id) {
        let c = choose|c: int| marked.issue_at(c, id);
        assert(db.issue_at(c, id));
    }
}

/// Processes one submission with a given id for the issue it may create.
/// See `submission` for what is written and returned.
pub fn publish_newsletter_with_id(
    db: &mut Database,
    user_id: UserId,
    form: FormData,
    issue_id: u128,
    now: u64,
) -> (result: Result<Publication, PublishFailure>)
    requires
        old(db).wf(),
    ensures
        final(db).wf(),
        (final(db)@, publication_view(result)) == submission(
            old(db)@,
            user_id,
            form@,
            issue_id,
            now,
        ),
{
    let FormData { title, text_content, html_content, idempotency_key } = form;
    let key = match IdempotencyKey::try_from(idempotency_key) {
        Ok(key) => key,
        Err(error) => {
            return Err(PublishFailure::InvalidKey(error));
        },
    };
    let mut transaction = match try_processing(db, &key, user_id, now) {
        NextAction::StartProcessing(transaction) => transaction,
        NextAction::ReturnSavedResponse(saved) => {
            return Ok(Publication::Replayed(saved));
        },
        NextAction::AwaitCommit => {
            return Ok(Publication::Pending);
        },
    };
    proof {
        lemma_marker_released(old(db)@, user_id, key@, now);
        lemma_marker_keeps_issues(old(db)@, user_id, key@, now, issue_id);
        old(db)@.lemma_with_marker(user_id, key@, now);
    }
    match insert_newsletter_issue(
        db,
        &mut transaction,
        issue_id,
        title.as_str(),
        text_content.as_str(),
        html_content.as_str(),
        now,
    ) {
        Ok(_) => {},
        Err(error) => {
            assert(!TransactionView::fresh(user_id, key@).has_issue(issue_id));
            rollback(db, transaction);
            return Err(PublishFailure::Storage(error));
        },
    }
    proof {
        let fresh = TransactionView::fresh(user_id, key@);
        fresh.lemma_with_issue(issue_view(issue_id, title@, text_content@, html_content@, now));
        assert(transaction@.tasks.len() == 0);
    }
    match enqueue_delivery_tasks(db, &mut transaction, issue_id) {
        Ok(_) => {},
        Err(error) => {
            rollback(db, transaction);
            return Err(PublishFailure::Storage(error));
        },
    }
    proof {
        assert(transaction@ == staged_publication(old(db)@, user_id, form@, issue_id, now));
        assert forall|i: int| 0 <= i < transaction@.issues.len() implies !db@.has_issue(
            (#[trigger] transaction@.issues[i]).issue_id,
        ) by {}
    }
    let response = see_other("/admin/newsletters");
    match save_response(db, transaction, response) {
        Ok(returned) => Ok(Publication::Published(returned)),
        Err(error) => Err(PublishFailure::Storage(error)),
    }
}

/// Processes one submission: as `publish_newsletter_with_id`, with an id for the
/// issue drawn at random.
pub fn publish_newsletter(db: &mut Database, user_id: UserId, form: FormData, now: u64) -> (result:
    Result<Publication, PublishFailure>)
    requires
        old(db).wf(),
    ensures
        final(db).wf(),
        exists|issue_id: u128|
            (final(db)@, publication_view(result)) == #[trigger] submission(
                old(db)@,
                user_id,
                form@,
                issue_id,
                now,
            ),
{
    let issue_id = new_issue_id();
    publish_newsletter_with_id(db, user_id, form, issue_id, now)
}

} // verus!
