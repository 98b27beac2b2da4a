use crate::authentication::UserId;
use crate::http::Response;
use crate::model::{
    saved_records, tasks_for, DatabaseView, DeliveryTask, IdempotencyRecord, IssueView,
    KeyState, NewsletterIssue, RecordView, Subscriber, SubscriberView, TaskView,
    TransactionView,
};
use vstd::prelude::*;

verus! {

/// Why the store refused a write.
#[derive(Debug, Clone, Copy, PartialEq, Eq, Structural)]
pub enum StorageError {
    /// An issue with this id is stored or staged already.
    DuplicateIssue,
    /// The delivery is staged already.
    DuplicateTask,
    /// Deliveries were asked for an issue that the transaction has not staged.
    UnknownIssue,
    /// The address subscribes already.
    DuplicateSubscriber,
    /// The transaction no longer holds its marker.
    TransactionClosed,
}

/// What a search of the idempotency table found.
#[derive(Debug)]
pub enum Lookup {
    /// The table holds no record of the key.
    Unseen,
    /// A submission under the key holds the marker and has not committed.
    InProgress,
    /// A submission under the key committed with this response.
    Saved(Response),
}

impl View for Lookup {
    type V = KeyState;

    open spec fn view(&self) -> KeyState {
        match self {
            Lookup::Unseen => KeyState::Unseen,
            Lookup::InProgress => KeyState::InProgress,
            Lookup::Saved(response) => KeyState::Saved(response@),
        }
    }
}

/// The rows of the idempotency table as plain values.
pub open spec fn records_view(rows: Seq<IdempotencyRecord>) -> Seq<RecordView> {
    rows.map_values(|row: IdempotencyRecord| row@)
}

/// The rows of the issue table as plain values.
pub open spec fn issues_view(rows: Seq<NewsletterIssue>) -> Seq<IssueView> {
    rows.map_values(|row: NewsletterIssue| row@)
}

/// Deliveries as plain values.
pub open spec fn tasks_view(rows: Seq<DeliveryTask>) -> Seq<TaskView> {
    rows.map_values(|row: DeliveryTask| row@)
}

/// The rows of the subscriber table as plain values.
pub open spec fn subscribers_view(rows: Seq<Subscriber>) -> Seq<SubscriberView> {
    rows.map_values(|row: Subscriber| row@)
}

/// What a transaction of `owner` under `key` has staged.
pub open spec fn staged_view(
    owner: UserId,
    key: Seq<char>,
    issues: Seq<NewsletterIssue>,
    tasks: Seq<DeliveryTask>,
) -> TransactionView {
    TransactionView { owner, key, issues: issues_view(issues), tasks: tasks_view(tasks) }
}

/// A copy of `task` that owns its own text.
pub fn duplicate_task(task: &DeliveryTask) -> (copy: DeliveryTask)
    ensures
        copy@ == task@,
{
    DeliveryTask { issue_id: task.issue_id, recipient: task.recipient.clone() }
}

/// A copy of `issue` that owns its own text.
pub fn duplicate_issue(issue: &NewsletterIssue) -> (copy: NewsletterIssue)
    ensures
        copy@ == issue@,
{
    NewsletterIssue {
        issue_id: issue.issue_id,
        title: issue.title.clone(),
        text_content: issue.text_content.clone(),
        html_content: issue.html_content.clone(),
        published_at: issue.published_at,
    }
}

/// The position of the delivery of `issue_id` to `recipient` among `tasks`.
pub(crate) fn find_task(tasks: &Vec<DeliveryTask>, issue_id: u128, recipient: &String) -> (found: Option<
    usize,
>)
    ensures
        match found {
            Some(i) => i < tasks.len() && tasks_view(tasks@)[i as int] == (issue_id, recipient@),
            None => !tasks_view(tasks@).contains((issue_id, recipient@)),
        },
{
    let mut i: usize = 0;
    while i < tasks.len()
        invariant
            i <= tasks.len(),
            forall|j: int| 0 <= j < i ==> tasks_view(tasks@)[j] != (issue_id, recipient@),
        decreases tasks.len() - i,
    {
        if tasks[i].issue_id == issue_id && tasks[i].recipient == *recipient {
            return Some(i);
        }
        i += 1;
    }
    None
}

/// The store: the idempotency table, the issue table, the delivery queue and
/// the subscriber table under one authority, with the locks that in-flight
/// delivery attempts hold on queue rows.
#[derive(Debug)]
pub struct Database {
    records: Vec<IdempotencyRecord>,
    issues: Vec<NewsletterIssue>,
    queue: Vec<DeliveryTask>,
    locked: Vec<DeliveryTask>,
    subscribers: Vec<Subscriber>,
    epoch: u64,
}

impl View for Database {
    type V = DatabaseView;

    closed spec fn view(&self) -> DatabaseView {
        DatabaseView {
            records: records_view(self.records@),
            issues: issues_view(self.issues@),
            queue: tasks_view(self.queue@),
            locked: tasks_view(self.locked@),
            subscribers: subscribers_view(self.subscribers@),
            epoch: self.epoch,
        }
    }
}

impl Database {
    /// The tables are well formed (see `DatabaseView::wf`). Every function of
    /// this library that changes a store keeps it so.
    pub open spec fn wf(&self) -> bool {
        self@.wf()
    }

    /// A store with empty tables.
    pub fn new() -> (db: Database)
        ensures
            db@ == DatabaseView::empty(),
            db.wf(),
    {
        let db = Database {
            records: Vec::new(),
            issues: Vec::new(),
            queue: Vec::new(),
            locked: Vec::new(),
            subscribers: Vec::new(),
            epoch: 0,
        };
        assert(db@ =~~= DatabaseView::empty());
        proof {
            DatabaseView::lemma_empty_wf();
        }
        db
    }

    fn find_record(&self, owner: UserId, key: &String) -> (found: Option<usize>)
        ensures
            match found {
                Some(i) => self@.record_at(i as int, owner, key@),
                None => !self@.has_record(owner, key@),
            },
    {
        let mut i: usize = 0;
        while i < self.records.len()
            invariant
                i <= self.records.len(),
                forall|j: int| 0 <= j < i ==> !self@.record_at(j, owner, key@),
            decreases self.records.len() - i,
        {
            if self.records[i].owner == owner && self.records[i].key == *key {
                return Some(i);
            }
            i += 1;
        }
        None
    }

    fn find_issue(&self, issue_id: u128) -> (found: Option<usize>)
        ensures
            match found {
                Some(i) => self@.issue_at(i as int, issue_id),
                None => !self@.has_issue(issue_id),
            },
    {
        let mut i: usize = 0;
        while i < self.issues.len()
            invariant
                i <= self.issues.len(),
                forall|j: int| 0 <= j < i ==> !self@.issue_at(j, issue_id),
            decreases self.issues.len() - i,
        {
            if self.issues[i].issue_id == issue_id {
                return Some(i);
            }
            i += 1;
        }
        None
    }

    fn find_subscriber(&self, email: &String) -> (found: Option<usize>)
        ensures
            match found {
                Some(i) => self@.subscriber_at(i as int, email@),
                None => !self@.has_subscriber(email@),
            },
    {
        let mut i: usize = 0;
        while i < self.subscribers.len()
            invariant
                i <= self.subscribers.len(),
                forall|j: int| 0 <= j < i ==> !self@.subscriber_at(j, email@),
            decreases self.subscribers.len() - i,
        {
            if self.subscribers[i].email == *email {
                return Some(i);
            }
            i += 1;
        }
        None
    }

    /// What the idempotency table knows of the key of `owner`.
    pub fn key_state(&self, owner: UserId, key: &String) -> (state: Lookup)
        requires
            self.wf(),
        ensures
            state@ == self@.key_state(owner, key@),
    {
        match self.find_record(owner, key) {
            None => Lookup::Unseen,
            Some(i) => {
                proof {
                    self@.lemma_record_index(i as int, owner, key@);
                }
                match &self.records[i].response {
                    None => Lookup::InProgress,
                    Some(response) => Lookup::Saved(response.duplicate()),
                }
            },
        }
    }

    /// Takes the marker of the key for a new submission, unless the table
    /// holds a record of the key already. Says whether it took it.
    pub(crate) fn insert_marker(&mut self, owner: UserId, key: &String, now: u64) -> (inserted: bool)
        requires
            old(self).wf(),
        ensures
            final(self).wf(),
            inserted == (old(self)@.key_state(owner, key@) is Unseen),
            inserted ==> final(self)@ == old(self)@.with_marker(owner, key@, now),
            !inserted ==> final(self)@ == old(self)@,
    {
        match self.find_record(owner, key) {
            Some(_) => false,
            None => {
                proof {
                    self@.lemma_with_marker(owner, key@, now);
                }
                self.records.push(
                    IdempotencyRecord { owner, key: key.clone(), response: None, created_at: now },
                );
                assert(self@ =~~= old(self)@.with_marker(owner, key@, now));
                true
            },
        }
    }

    /// Gives the marker of the key back, where a submission holds it.
    /// A record with a saved response stays.
    pub(crate) fn remove_marker(&mut self, owner: UserId, key: &String) -> (removed: bool)
        requires
            old(self).wf(),
        ensures
            final(self).wf(),
            removed == (old(self)@.key_state(owner, key@) is InProgress),
            removed ==> final(self)@ == old(self)@.without_record(owner, key@),
            !removed ==> final(self)@ == old(self)@,
    {
        match self.find_record(owner, key) {
            None => false,
            Some(i) => {
                proof {
                    self@.lemma_record_index(i as int, owner, key@);
                    self@.lemma_without_record(owner, key@);
                }
                if self.records[i].response.is_some() {
                    false
                } else {
                    self.records.remove(i);
                    assert(self@ =~~= old(self)@.without_record(owner, key@));
                    true
                }
            },
        }
    }

    /// Whether an issue with this id is stored.
    pub fn has_issue(&self, issue_id: u128) -> (found: bool)
        ensures
            found == self@.has_issue(issue_id),
    {
        self.find_issue(issue_id).is_some()
    }

    /// The stored issue with this id.
    pub fn issue(&self, issue_id: u128) -> (found: Option<NewsletterIssue>)
        requires
            self.wf(),
        ensures
            match found {
                Some(issue) => self@.has_issue(issue_id) && issue@ == self@.issue(issue_id),
                None => !self@.has_issue(issue_id),
            },
    {
        match self.find_issue(issue_id) {
            None => None,
            Some(i) => {
                proof {
                    self@.lemma_issue(i as int, issue_id);
                }
                Some(duplicate_issue(&self.issues[i]))
            },
        }
    }

    /// Makes everything a transaction staged visible at once: stores its
    /// issue and its deliveries and completes its record with the response.
    pub(crate) fn commit(
        &mut self,
        owner: UserId,
        key: &String,
        issues: Vec<NewsletterIssue>,
        tasks: Vec<DeliveryTask>,
        response: Response,
    )
        requires
            old(self).wf(),
            old(self)@.key_state(owner, key@) is InProgress,
            staged_view(owner, key@, issues@, tasks@).wf(),
            staged_view(owner, key@, issues@, tasks@).fresh_for(old(self)@),
        ensures
            final(self).wf(),
            final(self)@ == old(self)@.committed(
                staged_view(owner, key@, issues@, tasks@),
                response@,
            ),
    {
        let ghost staged = staged_view(owner, key@, issues@, tasks@);
        proof {
            self@.lemma_committed(staged, response@);
        }
        let found = self.find_record(owner, key);
        let i = found.unwrap();
        proof {
            self@.lemma_record_index(i as int, owner, key@);
        }
        let created_at = self.records[i].created_at;
        self.records.set(
            i,
            IdempotencyRecord { owner, key: key.clone(), response: Some(response), created_at },
        );
        let mut issues = issues;
        self.issues.append(&mut issues);
        let mut tasks = tasks;
        self.queue.append(&mut tasks);
        assert(self@ =~~= old(self)@.committed(staged, response@));
    }

    /// The deliveries that publishing `issue_id` now owes: one per confirmed
    /// subscriber.
    pub fn confirmed_tasks(&self, issue_id: u128) -> (tasks: Vec<DeliveryTask>)
        ensures
            tasks_view(tasks@) == tasks_for(issue_id, self@.subscribers),
    {
        let mut tasks: Vec<DeliveryTask> = Vec::new();
        let mut i: usize = 0;
        assert(self@.subscribers.take(0) =~= Seq::empty());
        while i < self.subscribers.len()
            invariant
                i <= self.subscribers.len(),
                tasks_view(tasks@) == tasks_for(issue_id, self@.subscribers.take(i as int)),
            decreases self.subscribers.len() - i,
        {
            assert(self@.subscribers.take(i + 1).drop_last() =~= self@.subscribers.take(i as int));
            if self.subscribers[i].confirmed {
                tasks.push(DeliveryTask { issue_id, recipient: self.subscribers[i].email.clone() });
            }
            i += 1;
        }
        assert(self@.subscribers.take(i as int) =~= self@.subscribers);
        tasks
    }

    /// Takes the first pending delivery that nobody holds and holds it.
    pub(crate) fn lock_first_free(&mut self) -> (taken: Option<DeliveryTask>)
        requires
            old(self).wf(),
        ensures
            final(self).wf(),
            match taken {
                Some(task) => old(self)@.has_free() && task@ == old(self)@.queue[old(
                    self,
                )@.first_free()] && final(self)@ == old(self)@.with_lock(task@),
                None => !old(self)@.has_free() && final(self)@ == old(self)@,
            },
    {
        let mut i: usize = 0;
        while i < self.queue.len()
            invariant
                i <= self.queue.len(),
                *self == *old(self),
                self.wf(),
                forall|j: int| 0 <= j < i ==> !self@.is_free(j),
            decreases self.queue.len() - i,
        {
            let held = find_task(&self.locked, self.queue[i].issue_id, &self.queue[i].recipient);
            if held.is_none() {
                let task = duplicate_task(&self.queue[i]);
                let copy = duplicate_task(&self.queue[i]);
                proof {
                    assert(self@.is_free(i as int));
                    self@.lemma_first_free(i as int);
                    assert(self@.queue.contains(task@));
                    self@.lemma_with_lock(task@);
                }
                self.locked.push(copy);
                assert(self@ =~~= old(self)@.with_lock(task@));
                return Some(task);
            }
            proof {
                let at = held.unwrap() as int;
                assert(self@.locked[at] == self@.queue[i as int]);
            }
            i += 1;
        }
        None
    }

    /// Lets go of `task` without resolving it: it stays pending.
    pub(crate) fn unlock(&mut self, task: &DeliveryTask)
        requires
            old(self).wf(),
        ensures
            final(self).wf(),
            final(self)@ == old(self)@.without_lock(task@),
    {
        proof {
            self@.lemma_without_lock(task@);
            self@.lemma_no_duplicates();
        }
        match find_task(&self.locked, task.issue_id, &task.recipient) {
            None => {},
            Some(i) => {
                proof {
                    assert(self@.locked.contains(task@));
                    let c = self@.locked.index_of(task@);
                    assert(self@.locked[c] == self@.locked[i as int]);
                }
                self.locked.remove(i);
                assert(self@ =~~= old(self)@.without_lock(task@));
            },
        }
    }

    /// Resolves `task`: it is pending no longer and held no longer.
    pub(crate) fn remove_task(&mut self, task: &DeliveryTask)
        requires
            old(self).wf(),
        ensures
            final(self).wf(),
            final(self)@ == old(self)@.without_task(task@),
    {
        proof {
            self@.lemma_without_task(task@);
            self@.lemma_no_duplicates();
        }
        match find_task(&self.locked, task.issue_id, &task.recipient) {
            None => {},
            Some(i) => {
                proof {
                    assert(self@.locked.contains(task@));
                    let c = self@.locked.index_of(task@);
                    assert(self@.locked[c] == self@.locked[i as int]);
                }
                self.locked.remove(i);
            },
        }
        match find_task(&self.queue, task.issue_id, &task.recipient) {
            None => {},
            Some(i) => {
                proof {
                    assert(self@.queue.contains(task@));
                    let c = self@.queue.index_of(task@);
                    assert(self@.queue[c] == self@.queue[i as int]);
                }
                self.queue.remove(i);
            },
        }
        assert(self@ =~~= old(self)@.without_task(task@));
    }

    /// Brings the store back up after the process around it went down: every
    /// transaction that was open is rolled back and every delivery that an
    /// attempt held is let go. Transactions and holds from before belong to
    /// the life that ended: they commit and settle nothing any more.
    pub fn recover(&mut self)
        requires
            old(self).wf(),
        ensures
            final(self).wf(),
            final(self)@ == old(self)@.recovered(),
    {
        proof {
            self@.lemma_recovered();
        }
        let mut kept: Vec<IdempotencyRecord> = Vec::new();
        let mut i: usize = 0;
        assert(self@.records.take(0) =~= Seq::empty());
        while i < self.records.len()
            invariant
                i <= self.records.len(),
                *self == *old(self),
                records_view(kept@) == saved_records(self@.records.take(i as int)),
            decreases self.records.len() - i,
        {
            assert(self@.records.take(i + 1).drop_last() =~= self@.records.take(i as int));
            match &self.records[i].response {
                None => {},
                Some(response) => {
                    kept.push(
                        IdempotencyRecord {
                            owner: self.records[i].owner,
                            key: self.records[i].key.clone(),
                            response: Some(response.duplicate()),
                            created_at: self.records[i].created_at,
                        },
                    );
                },
            }
            i += 1;
        }
        assert(self@.records.take(i as int) =~= self@.records);
        self.records = kept;
        self.locked = Vec::new();
        if self.epoch < u64::MAX {
            self.epoch = self.epoch + 1;
        }
        assert(self@ =~~= old(self)@.recovered());
    }

    /// The life of the store: how often it was brought back up.
    pub fn epoch(&self) -> (epoch: u64)
        ensures
            epoch == self@.epoch,
    {
        self.epoch
    }

    /// Adds an address to the subscriber table, not yet confirmed.
    pub fn insert_subscriber(&mut self, email: String) -> (inserted: Result<(), StorageError>)
        requires
            old(self).wf(),
        ensures
            final(self).wf(),
            match inserted {
                Ok(_) => !old(self)@.has_subscriber(email@) && final(self)@ == old(
                    self,
                )@.with_subscriber(email@),
                Err(error) => old(self)@.has_subscriber(email@) && final(self)@ == old(self)@
                    && error == StorageError::DuplicateSubscriber,
            },
    {
        match self.find_subscriber(&email) {
            Some(_) => Err(StorageError::DuplicateSubscriber),
            None => {
                proof {
                    self@.lemma_with_subscriber(email@);
                }
                self.subscribers.push(Subscriber { email, confirmed: false });
                assert(self@ =~~= old(self)@.with_subscriber(email@));
                Ok(())
            },
        }
    }

    /// Marks the subscriber with this address as confirmed. Says whether the
    /// address subscribes at all.
    pub fn confirm_subscriber(&mut self, email: &String) -> (found: bool)
        requires
            old(self).wf(),
        ensures
            final(self).wf(),
            found == old(self)@.has_subscriber(email@),
            found ==> final(self)@ == old(self)@.with_confirmation(email@),
            !found ==> final(self)@ == old(self)@,
    {
        match self.find_subscriber(email) {
            None => false,
            Some(i) => {
                proof {
                    self@.lemma_subscriber_index(i as int, email@);
                    self@.lemma_with_confirmation(email@);
                }
                self.subscribers.set(i, Subscriber { email: email.clone(), confirmed: true });
                assert(self@ =~~= old(self)@.with_confirmation(email@));
                true
            },
        }
    }

    /// The pending deliveries, in queue order.
    pub fn pending_tasks(&self) -> (tasks: Vec<DeliveryTask>)
        ensures
            tasks_view(tasks@) == self@.queue,
    {
        let mut tasks: Vec<DeliveryTask> = Vec::new();
        let mut i: usize = 0;
        while i < self.queue.len()
            invariant
                i <= self.queue.len(),
                tasks.len() == i,
                forall|j: int| 0 <= j < i ==> tasks[j]@ == self.queue[j]@,
            decreases self.queue.len() - i,
        {
            tasks.push(duplicate_task(&self.queue[i]));
            i += 1;
        }
        assert(tasks_view(tasks@) =~= self@.queue);
        tasks
    }

    /// The number of stored issues.
    pub fn issue_count(&self) -> (count: usize)
        ensures
            count == self@.issues.len(),
    {
        self.issues.len()
    }
}

} // verus!
