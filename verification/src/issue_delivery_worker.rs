use crate::domains::subscriber_email::{email_is_valid, SubscriberEmail};
use crate::model::{DatabaseView, DeliveryTask, IssueView, NewsletterIssue, TaskView};
use crate::storage::Database;
use vstd::prelude::*;

verus! {

/// How one unit of work of the delivery worker ended.
#[derive(Debug, Clone, Copy, PartialEq, Eq, Structural)]
pub enum ExecutionOutcome {
    TaskCompleted,
    EmptyQueue,
}

/// What the email transport reports when it did not deliver.
#[derive(Debug, Clone, Copy, PartialEq, Eq, Structural)]
pub enum TransportError {
    /// A failure that may pass: the delivery is to be tried again.
    Transient,
    /// A failure that will not pass for this recipient.
    Permanent,
}

/// What the client of the email service saw of a send that failed: a send
/// that timed out or never reached the service may pass when it is tried
/// again; any other failure will meet the same request again.
pub open spec fn failure_kind(timed_out: bool, connection_failed: bool) -> TransportError {
    if timed_out || connection_failed {
        TransportError::Transient
    } else {
        TransportError::Permanent
    }
}

/// Tells a failure that may pass from one that will not, by what the client
/// of the email service saw.
pub fn classify_failure(timed_out: bool, connection_failed: bool) -> (error: TransportError)
    ensures
        error == failure_kind(timed_out, connection_failed),
{
    if timed_out || connection_failed {
        TransportError::Transient
    } else {
        TransportError::Permanent
    }
}

/// The hold on one pending delivery. `dequeue_task` hands it out, and only
/// who has it can delete the delivery or let it go; either uses it up.
#[derive(Debug)]
pub struct TaskLease {
    task: DeliveryTask,
    epoch: u64,
}

impl View for TaskLease {
    type V = TaskView;

    closed spec fn view(&self) -> TaskView {
        self.task@
    }
}

impl TaskLease {
    /// The life of the store in which the hold was taken.
    pub closed spec fn epoch(&self) -> u64 {
        self.epoch
    }

    /// The hold was taken in this life of the store: a hold from before the
    /// store was brought back up is void.
    pub open spec fn good_for(&self, db: DatabaseView) -> bool {
        self.epoch() == db.epoch
    }

    /// The issue of the held delivery.
    pub fn issue_id(&self) -> (issue_id: u128)
        ensures
            issue_id == self@.0,
    {
        self.task.issue_id
    }

    /// The address of the held delivery, as it is stored.
    pub fn recipient(&self) -> (recipient: &str)
        ensures
            recipient@ == self@.1,
    {
        self.task.recipient.as_str()
    }
}

/// What is done with a delivery after an attempt.
#[derive(Debug, Clone, Copy, PartialEq, Eq, Structural)]
pub enum Settlement {
    /// The delivery is resolved: it is deleted and the deletion committed.
    Resolve,
    /// The delivery stays pending: the lock is released and nothing deleted.
    Retry,
}

/// Seconds the worker rests after it found the queue empty.
pub const IDLE_SECONDS: u64 = 10;

/// Seconds the worker rests after an attempt failed.
pub const RETRY_SECONDS: u64 = 1;

/// One message for the transport.
#[derive(Debug)]
pub struct Email {
    pub recipient: SubscriberEmail,
    pub subject: String,
    pub html_content: String,
    pub text_content: String,
}

/// A message as plain values.
pub struct EmailView {
    pub recipient: Seq<char>,
    pub subject: Seq<char>,
    pub html_content: Seq<char>,
    pub text_content: Seq<char>,
}

impl View for Email {
    type V = EmailView;

    open spec fn view(&self) -> EmailView {
        EmailView {
            recipient: self.recipient@,
            subject: self.subject@,
            html_content: self.html_content@,
            text_content: self.text_content@,
        }
    }
}

/// The message that delivers `issue` to `recipient`.
pub open spec fn email_for(issue: IssueView, recipient: Seq<char>) -> EmailView {
    EmailView {
        recipient,
        subject: issue.title,
        html_content: issue.html_content,
        text_content: issue.text_content,
    }
}

/// What is to be done with a delivery that was taken from the queue.
#[derive(Debug)]
pub enum DeliveryPlan {
    /// The stored address is no valid address: nothing is sent, and the
    /// delivery is resolved as it stands.
    Skip,
    /// The issue goes to this address.
    Send(SubscriberEmail),
}

/// Plans a delivery by its stored address: a valid address is sent to, an
/// invalid one is skipped for good.
pub fn plan_delivery(recipient: String) -> (plan: DeliveryPlan)
    ensures
        match plan {
            DeliveryPlan::Skip => !email_is_valid(recipient@),
            DeliveryPlan::Send(address) => email_is_valid(recipient@) && address@ == recipient@,
        },
{
    match SubscriberEmail::parse(recipient) {
        Ok(address) => DeliveryPlan::Send(address),
        Err(_) => DeliveryPlan::Skip,
    }
}

/// What a delivery attempt found to do.
#[derive(Debug)]
pub enum Attempt {
    /// No delivery is pending that nobody holds.
    EmptyQueue,
    /// The stored address is no valid address. Nothing is sent; the delivery
    /// is resolved as it stands.
    Skipped(DeliveryTask),
    /// The delivery is held for the caller, who hands the message to the
    /// transport and reports the outcome to `finish_task`.
    Send(TaskLease, Email),
}

/// What one unit of work did.
#[derive(Debug)]
pub struct Execution {
    /// The outcome for the worker's loop.
    pub outcome: Result<ExecutionOutcome, TransportError>,
    /// The message that went to the transport, if one did.
    pub sent: Option<Email>,
}

/// What is done with a delivery once the transport has answered: it is
/// resolved on success and on a permanent failure, and tried again after a
/// transient one.
pub open spec fn settlement(reply: Result<(), TransportError>) -> Settlement {
    match reply {
        Err(TransportError::Transient) => Settlement::Retry,
        _ => Settlement::Resolve,
    }
}

/// Decides what is done with a delivery once the transport has answered.
pub fn settle(reply: &Result<(), TransportError>) -> (decision: Settlement)
    ensures
        decision == settlement(*reply),
{
    match reply {
        Err(TransportError::Transient) => Settlement::Retry,
        _ => Settlement::Resolve,
    }
}

/// The seconds to rest before the next unit of work: none after a completed
/// delivery, ten after an empty queue, one after a failure.
pub open spec fn pause_for<E>(result: Result<ExecutionOutcome, E>) -> u64 {
    match result {
        Ok(ExecutionOutcome::TaskCompleted) => 0,
        Ok(ExecutionOutcome::EmptyQueue) => IDLE_SECONDS,
        Err(_) => RETRY_SECONDS,
    }
}

/// The seconds to rest before the next unit of work.
pub fn pause_after<E>(result: &Result<ExecutionOutcome, E>) -> (seconds: u64)
    ensures
        seconds == pause_for(*result),
{
    match result {
        Ok(ExecutionOutcome::TaskCompleted) => 0,
        Ok(ExecutionOutcome::EmptyQueue) => IDLE_SECONDS,
        Err(_) => RETRY_SECONDS,
    }
}

/// Selects one pending delivery that no other attempt holds, and holds it:
/// the first such in queue order. `None` when there is none.
pub fn dequeue_task(db: &mut Database) -> (taken: Option<TaskLease>)
    requires
        old(db).wf(),
    ensures
        final(db).wf(),
        match taken {
            Some(lease) => {
                &&& old(db)@.has_free()
                &&& lease@ == old(db)@.queue[old(db)@.first_free()]
                &&& lease.good_for(old(db)@)
                &&& final(db)@ == old(db)@.with_lock(lease@)
            },
            None => !old(db)@.has_free() && final(db)@ == old(db)@,
        },
{
    let epoch = db.epoch();
    match db.lock_first_free() {
        Some(task) => Some(TaskLease { task, epoch }),
        None => None,
    }
}

/// Deletes the held delivery and lets go of it: the delivery is resolved.
/// A void hold deletes nothing.
pub fn delete_task(db: &mut Database, lease: TaskLease)
    requires
        old(db).wf(),
    ensures
        final(db).wf(),
        final(db)@ == (if lease.good_for(old(db)@) {
            old(db)@.without_task(lease@)
        } else {
            old(db)@
        }),
{
    if lease.epoch == db.epoch() {
        db.remove_task(&lease.task);
    }
}

/// Lets go of the held delivery, which stays pending. A void hold changes
/// nothing.
pub fn release_task(db: &mut Database, lease: TaskLease)
    requires
        old(db).wf(),
    ensures
        final(db).wf(),
        final(db)@ == (if lease.good_for(old(db)@) {
            old(db)@.without_lock(lease@)
        } else {
            old(db)@
        }),
{
    if lease.epoch == db.epoch() {
        db.unlock(&lease.task);
    }
}

/// The content of the issue with this id.
pub fn get_issue(db: &Database, issue_id: u128) -> (found: Option<NewsletterIssue>)
    requires
        db.wf(),
    ensures
        match found {
            Some(issue) => db@.has_issue(issue_id) && issue@ == db@.issue(issue_id),
            None => !db@.has_issue(issue_id),
        },
{
    db.issue(issue_id)
}

/// Holding a free delivery and resolving it is resolving it; holding it and
/// letting go of it changes nothing.
pub proof fn lemma_held_then_settled(db: DatabaseView, task: TaskView)
    requires
        db.wf(),
        db.queue.contains(task),
        !db.locked.contains(task),
    ensures
        db.with_lock(task).without_task(task) == db.without_task(task),
        db.with_lock(task).without_lock(task) == db,
{
    let held = db.with_lock(task);
    let n = db.locked.len() as int;
    db.lemma_with_lock(task);
    db.lemma_no_duplicates();
    assert(held.locked[n] == task);
    assert(held.locked.contains(task));
    let at = held.locked.index_of(task);
    if at != n {
        assert(db.locked[at] == task);
    }
    assert(held.locked.remove(n) =~= db.locked);
    assert(held.without_task(task) =~~= db.without_task(task));
    assert(held.without_lock(task) =~~= db);
}

/// The store after the worker's first half of an attempt, which takes a
/// delivery and resolves it at once where its address is invalid.
pub open spec fn after_begin(db: DatabaseView) -> DatabaseView {
    if !db.has_free() {
        db
    } else {
        let task = db.queue[db.first_free()];
        if email_is_valid(task.1) {
            db.with_lock(task)
        } else {
            db.without_task(task)
        }
    }
}

/// Starts one delivery attempt: takes a pending delivery, checks its
/// address, and fetches the issue to send.
pub fn begin_task(db: &mut Database) -> (attempt: Attempt)
    requires
        old(db).wf(),
    ensures
        final(db).wf(),
        final(db)@ == after_begin(old(db)@),
        match attempt {
            Attempt::EmptyQueue => !old(db)@.has_free(),
            Attempt::Skipped(task) => {
                &&& old(db)@.has_free()
                &&& task@ == old(db)@.queue[old(db)@.first_free()]
                &&& !email_is_valid(task@.1)
            },
            Attempt::Send(lease, email) => {
                &&& old(db)@.has_free()
                &&& lease@ == old(db)@.queue[old(db)@.first_free()]
                &&& lease.good_for(final(db)@)
                &&& email_is_valid(lease@.1)
                &&& email@ == email_for(old(db)@.issue(lease@.0), lease@.1)
            },
        },
{
    let lease = match dequeue_task(db) {
        None => {
            return Attempt::EmptyQueue;
        },
        Some(lease) => lease,
    };
    proof {
        let task = lease@;
        let at = old(db)@.first_free();
        old(db)@.lemma_first_free_is_free();
        assert(old(db)@.queue.contains(task));
        lemma_held_then_settled(old(db)@, task);
        old(db)@.lemma_pending_has_issue(at);
        let c = choose|c: int| old(db)@.issue_at(c, task.0);
        assert(db@.issue_at(c, task.0));
        old(db)@.lemma_issue(c, task.0);
        db@.lemma_issue(c, task.0);
    }
    match plan_delivery(lease.task.recipient.clone()) {
        DeliveryPlan::Skip => {
            let TaskLease { task, epoch: _ } = lease;
            db.remove_task(&task);
            Attempt::Skipped(task)
        },
        DeliveryPlan::Send(recipient) => {
            match get_issue(db, lease.task.issue_id) {
                Some(issue) => {
                    let email = Email {
                        recipient,
                        subject: issue.title,
                        html_content: issue.html_content,
                        text_content: issue.text_content,
                    };
                    Attempt::Send(lease, email)
                },
                None => {
                    proof {
                        assert(false);
                    }
                    Attempt::EmptyQueue
                },
            }
        },
    }
}

/// The store after the transport's answer on a held delivery.
pub open spec fn after_finish(db: DatabaseView, task: TaskView, reply: Result<(), TransportError>) -> DatabaseView {
    match settlement(reply) {
        Settlement::Resolve => db.without_task(task),
        Settlement::Retry => db.without_lock(task),
    }
}

/// What the worker's loop is told after the transport's answer.
pub open spec fn outcome_of(reply: Result<(), TransportError>) -> Result<ExecutionOutcome, TransportError> {
    match reply {
        Err(TransportError::Transient) => Err(TransportError::Transient),
        _ => Ok(ExecutionOutcome::TaskCompleted),
    }
}

/// Ends a delivery attempt with the transport's answer. After a success, and
/// after a permanent failure, the delivery is deleted; after a transient
/// failure it is let go and stays pending, and the failure is handed on.
/// An attempt whose hold is void settles nothing and counts as failed in
/// passing: its delivery is pending again since the store came back up.
pub fn finish_task(db: &mut Database, lease: TaskLease, reply: Result<(), TransportError>) -> (outcome:
    Result<ExecutionOutcome, TransportError>)
    requires
        old(db).wf(),
    ensures
        final(db).wf(),
        lease.good_for(old(db)@) ==> final(db)@ == after_finish(old(db)@, lease@, reply) && outcome
            == outcome_of(reply),
        !lease.good_for(old(db)@) ==> final(db)@ == old(db)@ && outcome == Err::<
            ExecutionOutcome,
            TransportError,
        >(TransportError::Transient),
{
    if lease.epoch != db.epoch() {
        return Err(TransportError::Transient);
    }
    match settle(&reply) {
        Settlement::Resolve => {
            delete_task(db, lease);
            Ok(ExecutionOutcome::TaskCompleted)
        },
        Settlement::Retry => {
            release_task(db, lease);
            Err(TransportError::Transient)
        },
    }
}

/// One unit of work as a whole: the store after it, what the worker's loop
/// is told, and the message that went to the transport, if one did.
///
/// With no free delivery nothing happens. A delivery with an invalid address
/// is deleted and nothing is sent. Otherwise the issue goes to the transport;
/// the delivery is deleted unless the transport failed transiently, in which
/// case the store is as before.
pub open spec fn unit_of_work(db: DatabaseView, reply: Result<(), TransportError>) -> (
    DatabaseView,
    Result<ExecutionOutcome, TransportError>,
    Option<EmailView>,
) {
    if !db.has_free() {
        (db, Ok(ExecutionOutcome::EmptyQueue), None)
    } else {
        let task = db.queue[db.first_free()];
        if !email_is_valid(task.1) {
            (db.without_task(task), Ok(ExecutionOutcome::TaskCompleted), None)
        } else {
            let email = email_for(db.issue(task.0), task.1);
            match settlement(reply) {
                Settlement::Resolve => (db.without_task(task), outcome_of(reply), Some(email)),
                Settlement::Retry => (db, outcome_of(reply), Some(email)),
            }
        }
    }
}

/// The message that went out, as plain values.
pub open spec fn sent_view(sent: Option<Email>) -> Option<EmailView> {
    match sent {
        Some(email) => Some(email@),
        None => None,
    }
}

/// Attempts one unit of work against a transport whose answer is
/// `transport_reply`. The answer is used only if a message is sent.
pub fn try_execute_task(db: &mut Database, transport_reply: Result<(), TransportError>) -> (execution:
    Execution)
    requires
        old(db).wf(),
    ensures
        final(db).wf(),
        (final(db)@, execution.outcome, sent_view(execution.sent)) == unit_of_work(
            old(db)@,
            transport_reply,
        ),
{
    match begin_task(db) {
        Attempt::EmptyQueue => Execution { outcome: Ok(ExecutionOutcome::EmptyQueue), sent: None },
        Attempt::Skipped(_) => Execution { outcome: Ok(ExecutionOutcome::TaskCompleted), sent: None },
        Attempt::Send(lease, email) => {
            proof {
                let at = old(db)@.first_free();
                old(db)@.lemma_first_free_is_free();
                assert(old(db)@.queue.contains(lease@));
                lemma_held_then_settled(old(db)@, lease@);
            }
            let outcome = finish_task(db, lease, transport_reply);
            Execution { outcome, sent: Some(email) }
        },
    }
}

} // verus!
