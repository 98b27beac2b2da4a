use crate::authentication::UserId;
use crate::http::Response;
use crate::idempotency::key::IdempotencyKey;
use crate::model::{
    DatabaseView, DeliveryTask, KeyState, NewsletterIssue, TaskView, TransactionView,
};
use crate::storage::{find_task, staged_view, tasks_view, Database, Lookup, StorageError};
use vstd::prelude::*;

verus! {

/// The handle of an open transaction. It holds the marker of its key in the
/// idempotency table and carries what was written under it: nothing of that
/// is in the store before `save_response` commits, and nothing ever is after
/// `rollback` or after the store was brought back up.
#[derive(Debug)]
pub struct Transaction {
    owner: UserId,
    key: String,
    issues: Vec<NewsletterIssue>,
    tasks: Vec<DeliveryTask>,
    epoch: u64,
}

impl View for Transaction {
    type V = TransactionView;

    closed spec fn view(&self) -> TransactionView {
        staged_view(self.owner, self.key@, self.issues@, self.tasks@)
    }
}

impl Transaction {
    /// What is staged is well formed (see `TransactionView::wf`).
    pub open spec fn wf(&self) -> bool {
        self@.wf()
    }

    /// The life of the store in which the transaction began.
    pub closed spec fn epoch(&self) -> u64 {
        self.epoch
    }

    /// Whether the transaction has staged an issue with this id.
    pub fn has_issue(&self, issue_id: u128) -> (found: bool)
        ensures
            found == self@.has_issue(issue_id),
    {
        let mut i: usize = 0;
        while i < self.issues.len()
            invariant
                i <= self.issues.len(),
                forall|j: int| 0 <= j < i ==> !self@.issue_at(j, issue_id),
            decreases self.issues.len() - i,
        {
            if self.issues[i].issue_id == issue_id {
                assert(self@.issue_at(i as int, issue_id));
                return true;
            }
            i += 1;
        }
        false
    }

    /// Stages an issue, unless one with its id is staged already.
    pub(crate) fn stage_issue(&mut self, issue: NewsletterIssue) -> (staged: Result<
        (),
        StorageError,
    >)
        requires
            old(self).wf(),
        ensures
            final(self).wf(),
            match staged {
                Ok(_) => !old(self)@.has_issue(issue.issue_id) && final(self)@ == old(
                    self,
                )@.with_issue(issue@),
                Err(error) => old(self)@.has_issue(issue.issue_id) && final(self)@ == old(self)@
                    && error == StorageError::DuplicateIssue,
            },
            final(self).epoch() == old(self).epoch(),
    {
        if self.has_issue(issue.issue_id) {
            Err(StorageError::DuplicateIssue)
        } else {
            proof {
                self@.lemma_with_issue(issue@);
            }
            self.issues.push(issue);
            assert(self@ =~~= old(self)@.with_issue(issue@));
            Ok(())
        }
    }

    /// Whether any of `tasks` is staged already.
    fn overlaps(&self, tasks: &Vec<DeliveryTask>) -> (found: bool)
        ensures
            found == (exists|i: int|
                0 <= i < tasks.len() && self@.tasks.contains(#[trigger] tasks_view(tasks@)[i])),
    {
        let mut i: usize = 0;
        while i < tasks.len()
            invariant
                i <= tasks.len(),
                forall|j: int| 0 <= j < i ==> !self@.tasks.contains(#[trigger] tasks_view(tasks@)[j]),
            decreases tasks.len() - i,
        {
            if find_task(&self.tasks, tasks[i].issue_id, &tasks[i].recipient).is_some() {
                assert(self@.tasks.contains(tasks_view(tasks@)[i as int]));
                return true;
            }
            i += 1;
        }
        false
    }

    /// Stages the deliveries of an issue that this transaction has staged,
    /// unless one of them is staged already.
    pub(crate) fn stage_tasks(&mut self, issue_id: u128, tasks: Vec<DeliveryTask>) -> (staged:
        Result<(), StorageError>)
        requires
            old(self).wf(),
            tasks_view(tasks@).no_duplicates(),
            forall|i: int| 0 <= i < tasks.len() ==> (#[trigger] tasks_view(tasks@)[i]).0 == issue_id,
        ensures
            final(self).wf(),
            match staged {
                Ok(_) => final(self)@ == old(self)@.with_tasks(tasks_view(tasks@)),
                Err(_) => final(self)@ == old(self)@,
            },
            staged == stage_tasks_outcome(old(self)@, issue_id, tasks_view(tasks@)),
            final(self).epoch() == old(self).epoch(),
    {
        if !self.has_issue(issue_id) {
            Err(StorageError::UnknownIssue)
        } else if self.overlaps(&tasks) {
            Err(StorageError::DuplicateTask)
        } else {
            proof {
                self@.lemma_with_tasks(issue_id, tasks_view(tasks@));
            }
            let ghost added = tasks_view(tasks@);
            let mut tasks = tasks;
            self.tasks.append(&mut tasks);
            assert(self@ =~~= old(self)@.with_tasks(added));
            Ok(())
        }
    }

    /// Whether the store holds none of the staged issue ids.
    fn fresh_for(&self, db: &Database) -> (fresh: bool)
        ensures
            fresh == self@.fresh_for(db@),
    {
        let mut i: usize = 0;
        while i < self.issues.len()
            invariant
                i <= self.issues.len(),
                forall|j: int| 0 <= j < i ==> !db@.has_issue((#[trigger] self@.issues[j]).issue_id),
            decreases self.issues.len() - i,
        {
            if db.has_issue(self.issues[i].issue_id) {
                assert(db@.has_issue(self@.issues[i as int].issue_id));
                return false;
            }
            i += 1;
        }
        true
    }
}

/// Whether staging `tasks` for `issue_id` succeeds: the issue must be staged
/// in the same transaction, and none of the deliveries may be staged already.
pub open spec fn stage_tasks_outcome(
    transaction: TransactionView,
    issue_id: u128,
    tasks: Seq<TaskView>,
) -> Result<(), StorageError> {
    if !transaction.has_issue(issue_id) {
        Err(StorageError::UnknownIssue)
    } else if exists|i: int| 0 <= i < tasks.len() && transaction.tasks.contains(#[trigger] tasks[i]) {
        Err(StorageError::DuplicateTask)
    } else {
        Ok(())
    }
}

/// What a submission does next, decided by what the idempotency table knows
/// of its key.
#[derive(Debug)]
pub enum NextAction {
    /// The key is new: the submission holds the marker and goes on under
    /// this transaction.
    StartProcessing(Transaction),
    /// A submission under this key committed: its response is replayed.
    ReturnSavedResponse(Response),
    /// Another submission under this key holds the marker and has not
    /// committed: wait for it, then ask again.
    AwaitCommit,
}

/// What a submission does once it has tried to take the marker of its key.
#[derive(Debug, PartialEq, Eq)]
pub enum Resolution {
    /// It took the marker: it goes on.
    Start,
    /// The key has a saved response: that response is the answer.
    Replay(Response),
    /// Another submission holds the marker: wait for its commit, then ask again.
    Wait,
}

/// Decides what a submission does from whether it took the marker and, if
/// not, from the response that is saved under the key.
pub fn resolve(inserted: bool, saved: Option<Response>) -> (resolution: Resolution)
    ensures
        inserted ==> resolution is Start,
        !inserted ==> match saved {
            Some(response) => resolution matches Resolution::Replay(replayed) && replayed@
                == response@,
            None => resolution is Wait,
        },
{
    if inserted {
        Resolution::Start
    } else {
        match saved {
            Some(response) => Resolution::Replay(response),
            None => Resolution::Wait,
        }
    }
}

/// The response saved under the key of `user_id`, if a submission under it
/// committed.
pub fn get_saved_response(db: &Database, idempotency_key: &IdempotencyKey, user_id: UserId) -> (saved:
    Option<Response>)
    requires
        db.wf(),
    ensures
        match db@.key_state(user_id, idempotency_key@) {
            KeyState::Saved(response) => saved matches Some(found) && found@ == response,
            _ => saved is None,
        },
{
    match db.key_state(user_id, idempotency_key.as_string()) {
        Lookup::Saved(response) => Some(response),
        _ => None,
    }
}

/// Starts a submission under the key of `user_id`, or says why not to.
/// A new key gets its marker and an open transaction; a key with a saved
/// response gets that response, unchanged; a key whose marker another
/// submission holds gets neither, and the store is left as it is.
pub fn try_processing(
    db: &mut Database,
    idempotency_key: &IdempotencyKey,
    user_id: UserId,
    now: u64,
) -> (next: NextAction)
    requires
        old(db).wf(),
    ensures
        final(db).wf(),
        match old(db)@.key_state(user_id, idempotency_key@) {
            KeyState::Unseen => {
                &&& next matches NextAction::StartProcessing(transaction)
                &&& transaction@ == TransactionView::fresh(user_id, idempotency_key@)
                &&& transaction.wf()
                &&& transaction.epoch() == old(db)@.epoch
                &&& final(db)@ == old(db)@.with_marker(user_id, idempotency_key@, now)
            },
            KeyState::Saved(response) => {
                &&& next matches NextAction::ReturnSavedResponse(saved)
                &&& saved@ == response
                &&& final(db)@ == old(db)@
            },
            KeyState::InProgress => next is AwaitCommit && final(db)@ == old(db)@,
        },
{
    let key = idempotency_key.as_string();
    let inserted = db.insert_marker(user_id, key, now);
    let saved = if inserted {
        None
    } else {
        get_saved_response(db, idempotency_key, user_id)
    };
    match resolve(inserted, saved) {
        Resolution::Start => {
            let transaction = Transaction {
                owner: user_id,
                key: key.clone(),
                issues: Vec::new(),
                tasks: Vec::new(),
                epoch: db.epoch(),
            };
            assert(transaction@ =~~= TransactionView::fresh(user_id, idempotency_key@));
            NextAction::StartProcessing(transaction)
        },
        Resolution::Replay(response) => NextAction::ReturnSavedResponse(response),
        Resolution::Wait => NextAction::AwaitCommit,
    }
}

/// The transaction began in this life of the store and its marker is held.
pub open spec fn is_open(db: DatabaseView, transaction: TransactionView, epoch: u64) -> bool {
    epoch == db.epoch && db.key_state(transaction.owner, transaction.key) is InProgress
}

/// How `save_response` ends, by what the store holds when it is called, for
/// a transaction that began in the life `epoch` of the store.
pub open spec fn commit_outcome(db: DatabaseView, transaction: TransactionView, epoch: u64) -> Result<
    (),
    StorageError,
> {
    if !is_open(db, transaction, epoch) {
        Err(StorageError::TransactionClosed)
    } else if !transaction.fresh_for(db) {
        Err(StorageError::DuplicateIssue)
    } else {
        Ok(())
    }
}

/// Saves the response under the transaction's key and commits: the staged
/// issues, the staged deliveries and the response become visible together.
/// Where the transaction is no longer open, because its marker is gone or
/// the store was brought back up since it began, nothing is written; where
/// a staged issue id has been taken meanwhile the transaction is rolled back.
pub fn save_response(db: &mut Database, transaction: Transaction, response: Response) -> (saved:
    Result<Response, StorageError>)
    requires
        old(db).wf(),
        transaction.wf(),
    ensures
        final(db).wf(),
        match saved {
            Ok(returned) => {
                &&& commit_outcome(old(db)@, transaction@, transaction.epoch()) is Ok
                &&& returned@ == response@
                &&& final(db)@ == old(db)@.committed(transaction@, response@)
            },
            Err(error) => {
                &&& commit_outcome(old(db)@, transaction@, transaction.epoch()) == Err::<
                    (),
                    StorageError,
                >(error)
                &&& error == StorageError::TransactionClosed ==> final(db)@ == old(db)@
                &&& error == StorageError::DuplicateIssue ==> final(db)@ == old(db)@.without_record(
                    transaction@.owner,
                    transaction@.key,
                )
            },
        },
{
    let in_progress = match db.key_state(transaction.owner, &transaction.key) {
        Lookup::InProgress => true,
        _ => false,
    };
    if transaction.epoch != db.epoch() || !in_progress {
        Err(StorageError::TransactionClosed)
    } else if !transaction.fresh_for(db) {
        db.remove_marker(transaction.owner, &transaction.key);
        Err(StorageError::DuplicateIssue)
    } else {
        let returned = response.duplicate();
        let Transaction { owner, key, issues, tasks, epoch: _ } = transaction;
        db.commit(owner, &key, issues, tasks, response);
        Ok(returned)
    }
}

/// Gives up the transaction: its marker is released and nothing that was
/// staged reaches the store. A later submission under the same key starts
/// afresh. A transaction that is no longer open changes nothing.
pub fn rollback(db: &mut Database, transaction: Transaction)
    requires
        old(db).wf(),
    ensures
        final(db).wf(),
        final(db)@ == (if is_open(old(db)@, transaction@, transaction.epoch()) {
            old(db)@.without_record(transaction@.owner, transaction@.key)
        } else {
            old(db)@
        }),
{
    if transaction.epoch == db.epoch() {
        db.remove_marker(transaction.owner, &transaction.key);
    }
}

} // verus!
