use crate::authentication::UserId;
use crate::http::{Response, ResponseView};
use vstd::prelude::*;

verus! {

/// One row of the idempotency table. While `response` is absent the row marks
/// a submission that is still being processed.
#[derive(Debug)]
pub struct IdempotencyRecord {
    pub owner: UserId,
    pub key: String,
    pub response: Option<Response>,
    pub created_at: u64,
}

/// The content of a published issue. It never changes once stored.
#[derive(Debug)]
pub struct NewsletterIssue {
    pub issue_id: u128,
    pub title: String,
    pub text_content: String,
    pub html_content: String,
    pub published_at: u64,
}

/// One pending delivery: an issue and the address it goes to.
#[derive(Debug, PartialEq, Eq)]
pub struct DeliveryTask {
    pub issue_id: u128,
    pub recipient: String,
}

/// One row of the subscriber table.
#[derive(Debug)]
pub struct Subscriber {
    pub email: String,
    pub confirmed: bool,
}

/// A row of the idempotency table as plain values.
#[verifier::ext_equal]
pub struct RecordView {
    pub owner: UserId,
    pub key: Seq<char>,
    pub response: Option<ResponseView>,
    pub created_at: u64,
}

/// An issue as plain values.
#[verifier::ext_equal]
pub struct IssueView {
    pub issue_id: u128,
    pub title: Seq<char>,
    pub text_content: Seq<char>,
    pub html_content: Seq<char>,
    pub published_at: u64,
}

/// A pending delivery as a pair: the issue's id and the recipient's address.
pub type TaskView = (u128, Seq<char>);

/// A row of the subscriber table as plain values.
#[verifier::ext_equal]
pub struct SubscriberView {
    pub email: Seq<char>,
    pub confirmed: bool,
}

impl View for IdempotencyRecord {
    type V = RecordView;

    open spec fn view(&self) -> RecordView {
        RecordView {
            owner: self.owner,
            key: self.key@,
            response: match self.response {
                Some(response) => Some(response@),
                None => None,
            },
            created_at: self.created_at,
        }
    }
}

impl View for NewsletterIssue {
    type V = IssueView;

    open spec fn view(&self) -> IssueView {
        IssueView {
            issue_id: self.issue_id,
            title: self.title@,
            text_content: self.text_content@,
            html_content: self.html_content@,
            published_at: self.published_at,
        }
    }
}

impl View for DeliveryTask {
    type V = TaskView;

    open spec fn view(&self) -> TaskView {
        (self.issue_id, self.recipient@)
    }
}

impl View for Subscriber {
    type V = SubscriberView;

    open spec fn view(&self) -> SubscriberView {
        SubscriberView { email: self.email@, confirmed: self.confirmed }
    }
}

/// What the idempotency table knows of a key.
pub enum KeyState {
    /// The table holds no record of this key.
    Unseen,
    /// A submission under this key holds the marker and has not committed.
    InProgress,
    /// A submission under this key committed with this response.
    Saved(ResponseView),
}

/// The deliveries that publishing `issue_id` owes to `subscribers`: one per
/// confirmed subscriber, in table order, and none for the others.
pub open spec fn tasks_for(issue_id: u128, subscribers: Seq<SubscriberView>) -> Seq<TaskView>
    decreases subscribers.len(),
{
    if subscribers.len() == 0 {
        Seq::empty()
    } else {
        let earlier = tasks_for(issue_id, subscribers.drop_last());
        if subscribers.last().confirmed {
            earlier.push((issue_id, subscribers.last().email))
        } else {
            earlier
        }
    }
}

/// The records that hold a saved response, in table order: what is left of
/// the idempotency table once every open transaction is rolled back.
pub open spec fn saved_records(records: Seq<RecordView>) -> Seq<RecordView>
    decreases records.len(),
{
    if records.len() == 0 {
        Seq::empty()
    } else {
        let earlier = saved_records(records.drop_last());
        if records.last().response is Some {
            earlier.push(records.last())
        } else {
            earlier
        }
    }
}

/// The saved records are exactly the records with a response.
pub proof fn lemma_saved_records(records: Seq<RecordView>)
    ensures
        forall|record: RecordView| #[trigger]
            saved_records(records).contains(record) <==> records.contains(record)
                && record.response is Some,
        (forall|i: int, j: int|
            0 <= i < j < records.len() ==> !((#[trigger] records[i]).owner == (
            #[trigger] records[j]).owner && records[i].key == records[j].key)) ==> (forall|
            i: int,
            j: int,
        |
            0 <= i < j < saved_records(records).len() ==> !((#[trigger] saved_records(
                records,
            )[i]).owner == (#[trigger] saved_records(records)[j]).owner && saved_records(
                records,
            )[i].key == saved_records(records)[j].key)),
    decreases records.len(),
{
    let saved = saved_records(records);
    if records.len() > 0 {
        let front = records.drop_last();
        let last = records.last();
        let earlier = saved_records(front);
        lemma_saved_records(front);
        assert forall|record: RecordView| #[trigger]
            saved.contains(record) <==> records.contains(record) && record.response is Some by {
            if saved.contains(record) {
                let a = choose|a: int| 0 <= a < saved.len() && saved[a] == record;
                if a < earlier.len() {
                    assert(earlier[a] == record);
                    assert(earlier.contains(record));
                    let i = choose|i: int| 0 <= i < front.len() && front[i] == record;
                    assert(records[i] == record);
                } else {
                    assert(records[records.len() - 1] == record);
                }
            }
            if records.contains(record) && record.response is Some {
                let i = choose|i: int| 0 <= i < records.len() && records[i] == record;
                if i < front.len() {
                    assert(front[i] == record);
                    assert(front.contains(record));
                    assert(earlier.contains(record));
                    let a = choose|a: int| 0 <= a < earlier.len() && earlier[a] == record;
                    assert(saved[a] == record);
                } else {
                    assert(saved[saved.len() - 1] == record);
                }
            }
        }
        if forall|i: int, j: int|
            0 <= i < j < records.len() ==> !((#[trigger] records[i]).owner == (
            #[trigger] records[j]).owner && records[i].key == records[j].key) {
            assert forall|i: int, j: int| 0 <= i < j < front.len() implies !((
            #[trigger] front[i]).owner == (#[trigger] front[j]).owner && front[i].key
                == front[j].key) by {
                assert(front[i] == records[i]);
                assert(front[j] == records[j]);
            }
            assert forall|i: int, j: int| 0 <= i < j < saved.len() implies !((
            #[trigger] saved[i]).owner == (#[trigger] saved[j]).owner && saved[i].key
                == saved[j].key) by {
                if j < earlier.len() {
                    assert(saved[i] == earlier[i] && saved[j] == earlier[j]);
                } else {
                    assert(saved[i] == earlier[i]);
                    assert(earlier.contains(earlier[i]));
                    assert(front.contains(earlier[i]));
                    let c = choose|c: int| 0 <= c < front.len() && front[c] == earlier[i];
                    assert(records[c] == saved[i]);
                    assert(records[records.len() - 1] == saved[j]);
                }
            }
        }
    }
}

/// `tasks` without `task`, where it occurs.
pub open spec fn without(tasks: Seq<TaskView>, task: TaskView) -> Seq<TaskView> {
    if tasks.contains(task) {
        tasks.remove(tasks.index_of(task))
    } else {
        tasks
    }
}

/// What a transaction has staged, not yet visible to anyone else.
#[verifier::ext_equal]
pub struct TransactionView {
    pub owner: UserId,
    pub key: Seq<char>,
    pub issues: Seq<IssueView>,
    pub tasks: Seq<TaskView>,
}

impl TransactionView {
    /// What a transaction holds when it starts: its key and nothing staged.
    pub open spec fn fresh(owner: UserId, key: Seq<char>) -> TransactionView {
        TransactionView { owner, key, issues: Seq::empty(), tasks: Seq::empty() }
    }

    /// The staged issue at position `i` has this id.
    pub open spec fn issue_at(self, i: int, issue_id: u128) -> bool {
        0 <= i < self.issues.len() && self.issues[i].issue_id == issue_id
    }

    /// The transaction has staged an issue with this id.
    pub open spec fn has_issue(self, issue_id: u128) -> bool {
        exists|i: int| self.issue_at(i, issue_id)
    }

    /// Staged issues have distinct ids, staged deliveries are distinct, and
    /// each belongs to a staged issue.
    pub open spec fn wf(self) -> bool {
        &&& forall|i: int, j: int|
            0 <= i < j < self.issues.len() ==> (#[trigger] self.issues[i]).issue_id != (
            #[trigger] self.issues[j]).issue_id
        &&& self.tasks.no_duplicates()
        &&& forall|i: int| 0 <= i < self.tasks.len() ==> self.has_issue((#[trigger] self.tasks[i]).0)
    }

    /// What is staged once `issue` is staged too.
    pub open spec fn with_issue(self, issue: IssueView) -> TransactionView {
        TransactionView { issues: self.issues.push(issue), ..self }
    }

    /// What is staged once `tasks` are staged too.
    pub open spec fn with_tasks(self, tasks: Seq<TaskView>) -> TransactionView {
        TransactionView { tasks: self.tasks + tasks, ..self }
    }

    /// None of the staged issues has an id that `db` has stored.
    pub open spec fn fresh_for(self, db: DatabaseView) -> bool {
        forall|i: int| 0 <= i < self.issues.len() ==> !db.has_issue((#[trigger] self.issues[i]).issue_id)
    }

    /// Staging an issue with a new id keeps what is staged well formed.
    pub proof fn lemma_with_issue(self, issue: IssueView)
        requires
            self.wf(),
            !self.has_issue(issue.issue_id),
        ensures
            self.with_issue(issue).wf(),
            self.with_issue(issue).has_issue(issue.issue_id),
    {
        let next = self.with_issue(issue);
        assert forall|i: int, j: int| 0 <= i < j < next.issues.len() implies (
        #[trigger] next.issues[i]).issue_id != (#[trigger] next.issues[j]).issue_id by {
            if j == self.issues.len() {
                assert(!self.issue_at(i, issue.issue_id));
            } else {
                assert(next.issues[i] == self.issues[i]);
                assert(next.issues[j] == self.issues[j]);
            }
        }
        assert forall|i: int| 0 <= i < next.tasks.len() implies next.has_issue(
            (#[trigger] next.tasks[i]).0,
        ) by {
            let c = choose|c: int| self.issue_at(c, self.tasks[i].0);
            assert(next.issue_at(c, next.tasks[i].0));
        }
        assert(next.issue_at(self.issues.len() as int, issue.issue_id));
    }

    /// Staging new, distinct deliveries of a staged issue keeps what is
    /// staged well formed.
    pub proof fn lemma_with_tasks(self, issue_id: u128, tasks: Seq<TaskView>)
        requires
            self.wf(),
            self.has_issue(issue_id),
            tasks.no_duplicates(),
            forall|i: int| 0 <= i < tasks.len() ==> (#[trigger] tasks[i]).0 == issue_id,
            forall|i: int| 0 <= i < tasks.len() ==> !self.tasks.contains(#[trigger] tasks[i]),
        ensures
            self.with_tasks(tasks).wf(),
    {
        let next = self.with_tasks(tasks);
        let n = self.tasks.len();
        assert forall|i: int, j: int|
            0 <= i < next.tasks.len() && 0 <= j < next.tasks.len() && i != j implies next.tasks[i]
            != next.tasks[j] by {
            if i < n && j < n {
                assert(next.tasks[i] == self.tasks[i] && next.tasks[j] == self.tasks[j]);
            } else if i >= n && j >= n {
                assert(next.tasks[i] == tasks[i - n] && next.tasks[j] == tasks[j - n]);
            } else {
                let (old_one, new_one) = if i < n { (i, j) } else { (j, i) };
                assert(next.tasks[old_one] == self.tasks[old_one]);
                assert(next.tasks[new_one] == tasks[new_one - n]);
                assert(self.tasks.contains(self.tasks[old_one]));
            }
        }
        assert forall|i: int| 0 <= i < next.tasks.len() implies next.has_issue(
            (#[trigger] next.tasks[i]).0,
        ) by {
            if i < n {
                assert(next.tasks[i] == self.tasks[i]);
                let c = choose|c: int| self.issue_at(c, self.tasks[i].0);
                assert(next.issue_at(c, next.tasks[i].0));
            } else {
                assert(next.tasks[i] == tasks[i - n]);
                let c = choose|c: int| self.issue_at(c, issue_id);
                assert(next.issue_at(c, next.tasks[i].0));
            }
        }
    }
}

/// The three tables and the subscriber table, as one committed state, with
/// the locks that in-flight delivery attempts hold.
#[verifier::ext_equal]
pub struct DatabaseView {
    pub records: Seq<RecordView>,
    pub issues: Seq<IssueView>,
    pub queue: Seq<TaskView>,
    pub locked: Seq<TaskView>,
    pub subscribers: Seq<SubscriberView>,
    /// How often the store was brought back up. A transaction and a hold on
    /// a delivery are good only in the life of the store in which they began.
    pub epoch: u64,
}

impl DatabaseView {
    /// The state of a store with empty tables.
    pub open spec fn empty() -> DatabaseView {
        DatabaseView {
            records: Seq::empty(),
            issues: Seq::empty(),
            queue: Seq::empty(),
            locked: Seq::empty(),
            subscribers: Seq::empty(),
            epoch: 0,
        }
    }

    /// The record at position `i` is that of `owner` and `key`.
    pub open spec fn record_at(self, i: int, owner: UserId, key: Seq<char>) -> bool {
        0 <= i < self.records.len() && self.records[i].owner == owner && self.records[i].key == key
    }

    /// The idempotency table holds a record of `owner` and `key`.
    pub open spec fn has_record(self, owner: UserId, key: Seq<char>) -> bool {
        exists|i: int| self.record_at(i, owner, key)
    }

    /// The position of the record of `owner` and `key`, where there is one.
    pub open spec fn record_index(self, owner: UserId, key: Seq<char>) -> int {
        choose|i: int| self.record_at(i, owner, key)
    }

    /// What the idempotency table knows of the key of `owner`.
    pub open spec fn key_state(self, owner: UserId, key: Seq<char>) -> KeyState {
        if !self.has_record(owner, key) {
            KeyState::Unseen
        } else {
            match self.records[self.record_index(owner, key)].response {
                None => KeyState::InProgress,
                Some(response) => KeyState::Saved(response),
            }
        }
    }

    /// The stored issue at position `i` has this id.
    pub open spec fn issue_at(self, i: int, issue_id: u128) -> bool {
        0 <= i < self.issues.len() && self.issues[i].issue_id == issue_id
    }

    /// An issue with this id is stored.
    pub open spec fn has_issue(self, issue_id: u128) -> bool {
        exists|i: int| self.issue_at(i, issue_id)
    }

    /// The stored issue with this id, where there is one.
    pub open spec fn issue(self, issue_id: u128) -> IssueView {
        self.issues[choose|i: int| self.issue_at(i, issue_id)]
    }

    /// The subscriber at position `i` has this address.
    pub open spec fn subscriber_at(self, i: int, email: Seq<char>) -> bool {
        0 <= i < self.subscribers.len() && self.subscribers[i].email == email
    }

    /// The address subscribes, confirmed or not.
    pub open spec fn has_subscriber(self, email: Seq<char>) -> bool {
        exists|i: int| self.subscriber_at(i, email)
    }

    /// The position of the subscriber with this address, where there is one.
    pub open spec fn subscriber_index(self, email: Seq<char>) -> int {
        choose|i: int| self.subscriber_at(i, email)
    }

    /// `email` is the address of a confirmed subscriber.
    pub open spec fn is_confirmed(self, email: Seq<char>) -> bool {
        exists|i: int| self.subscriber_at(i, email) && self.subscribers[i].confirmed
    }

    /// The state is well formed: at most one record per owner and key, issue
    /// ids are unique, a pending delivery exists once and belongs to a stored
    /// issue, a lock is held once and on a pending delivery, and an address
    /// subscribes once.
    #[verifier::opaque]
    pub open spec fn wf(self) -> bool {
        &&& forall|i: int, j: int|
            0 <= i < j < self.records.len() ==> !((#[trigger] self.records[i]).owner == (
            #[trigger] self.records[j]).owner && self.records[i].key == self.records[j].key)
        &&& forall|i: int, j: int|
            0 <= i < j < self.issues.len() ==> (#[trigger] self.issues[i]).issue_id != (
            #[trigger] self.issues[j]).issue_id
        &&& self.queue.no_duplicates()
        &&& forall|i: int| 0 <= i < self.queue.len() ==> self.has_issue((#[trigger] self.queue[i]).0)
        &&& self.locked.no_duplicates()
        &&& forall|i: int| 0 <= i < self.locked.len() ==> self.queue.contains(#[trigger] self.locked[i])
        &&& forall|i: int, j: int|
            0 <= i < j < self.subscribers.len() ==> (#[trigger] self.subscribers[i]).email != (
            #[trigger] self.subscribers[j]).email
    }

    /// The state after a submission under a fresh key took the marker.
    pub open spec fn with_marker(self, owner: UserId, key: Seq<char>, now: u64) -> DatabaseView {
        DatabaseView {
            records: self.records.push(RecordView { owner, key, response: None, created_at: now }),
            ..self
        }
    }

    /// The state after the record of `owner` and `key` was taken away.
    pub open spec fn without_record(self, owner: UserId, key: Seq<char>) -> DatabaseView {
        DatabaseView { records: self.records.remove(self.record_index(owner, key)), ..self }
    }

    /// The state after `transaction` committed with `response`: its issue and
    /// its deliveries are stored, and its record holds the response.
    pub open spec fn committed(self, transaction: TransactionView, response: ResponseView) -> DatabaseView {
        let i = self.record_index(transaction.owner, transaction.key);
        DatabaseView {
            records: self.records.update(
                i,
                RecordView { response: Some(response), ..self.records[i] },
            ),
            issues: self.issues + transaction.issues,
            queue: self.queue + transaction.tasks,
            ..self
        }
    }

    /// The delivery at position `i` of the queue is pending and nobody holds it.
    pub open spec fn is_free(self, i: int) -> bool {
        0 <= i < self.queue.len() && !self.locked.contains(self.queue[i])
    }

    /// Some pending delivery is held by nobody.
    pub open spec fn has_free(self) -> bool {
        exists|i: int| self.is_free(i)
    }

    /// The position of the first delivery that nobody holds.
    pub open spec fn first_free(self) -> int {
        choose|i: int| self.is_free(i) && forall|j: int| 0 <= j < i ==> !self.is_free(j)
    }

    /// The state after an attempt took hold of `task`.
    pub open spec fn with_lock(self, task: TaskView) -> DatabaseView {
        DatabaseView { locked: self.locked.push(task), ..self }
    }

    /// The state after `task` was let go: it is held no longer and stays pending.
    pub open spec fn without_lock(self, task: TaskView) -> DatabaseView {
        DatabaseView { locked: without(self.locked, task), ..self }
    }

    /// The state after `task` was resolved: it is no longer pending and no
    /// longer held.
    pub open spec fn without_task(self, task: TaskView) -> DatabaseView {
        DatabaseView {
            queue: without(self.queue, task),
            locked: without(self.locked, task),
            ..self
        }
    }

    /// The state after a restart: every open transaction is rolled back, so
    /// that its marker is gone, and every delivery that an attempt held is
    /// let go. Saved responses, issues, pending deliveries and subscribers
    /// are as they were. A new life of the store begins, unless the count of
    /// its lives has reached the greatest number it can hold.
    pub open spec fn recovered(self) -> DatabaseView {
        DatabaseView {
            records: saved_records(self.records),
            locked: Seq::empty(),
            epoch: if self.epoch < u64::MAX {
                (self.epoch + 1) as u64
            } else {
                self.epoch
            },
            ..self
        }
    }

    /// The state after `email` subscribed, not yet confirmed.
    pub open spec fn with_subscriber(self, email: Seq<char>) -> DatabaseView {
        DatabaseView {
            subscribers: self.subscribers.push(SubscriberView { email, confirmed: false }),
            ..self
        }
    }

    /// The state after the subscriber with this address confirmed.
    pub open spec fn with_confirmation(self, email: Seq<char>) -> DatabaseView {
        let i = self.subscriber_index(email);
        DatabaseView {
            subscribers: self.subscribers.update(i, SubscriberView { email, confirmed: true }),
            ..self
        }
    }
}


/// Taking a delivery out of a duplicate-free sequence leaves the others as
/// they were, each still once.
pub proof fn lemma_without(tasks: Seq<TaskView>, task: TaskView)
    requires
        tasks.no_duplicates(),
    ensures
        without(tasks, task).no_duplicates(),
        !without(tasks, task).contains(task),
        forall|other: TaskView|
            other != task ==> (#[trigger] without(tasks, task).contains(other) <==> tasks.contains(
                other,
            )),
        tasks.contains(task) ==> without(tasks, task).len() == tasks.len() - 1,
        !tasks.contains(task) ==> without(tasks, task) == tasks,
{
    if tasks.contains(task) {
        let i = tasks.index_of(task);
        let rest = tasks.remove(i);
        tasks.remove_ensures(i);
        assert forall|a: int, b: int| 0 <= a < rest.len() && 0 <= b < rest.len() && a != b implies rest[a]
            != rest[b] by {
            let a0 = if a < i { a } else { a + 1 };
            let b0 = if b < i { b } else { b + 1 };
            assert(rest[a] == tasks[a0]);
            assert(rest[b] == tasks[b0]);
        }
        assert forall|other: TaskView| other != task implies (#[trigger] rest.contains(other)
            <==> tasks.contains(other)) by {
            if rest.contains(other) {
                let a = choose|a: int| 0 <= a < rest.len() && rest[a] == other;
                let a0 = if a < i { a } else { a + 1 };
                assert(tasks[a0] == other);
            }
            if tasks.contains(other) {
                let a0 = choose|a0: int| 0 <= a0 < tasks.len() && tasks[a0] == other;
                let a = if a0 < i { a0 } else { a0 - 1 };
                assert(rest[a] == other);
            }
        }
        if rest.contains(task) {
            let a = choose|a: int| 0 <= a < rest.len() && rest[a] == task;
            let a0 = if a < i { a } else { a + 1 };
            assert(tasks[a0] == task);
            assert(a0 != i);
        }
    }
}

/// Publishing owes one delivery to each confirmed subscriber and none to the
/// others; all carry the issue's id; none occurs twice if no address
/// subscribes twice.
pub proof fn lemma_tasks_for(issue_id: u128, subscribers: Seq<SubscriberView>)
    ensures
        forall|i: int|
            0 <= i < tasks_for(issue_id, subscribers).len() ==> (#[trigger] tasks_for(
                issue_id,
                subscribers,
            )[i]).0 == issue_id,
        forall|email: Seq<char>| #[trigger]
            tasks_for(issue_id, subscribers).contains((issue_id, email)) <==> (exists|i: int|
                0 <= i < subscribers.len() && (#[trigger] subscribers[i]).email == email
                    && subscribers[i].confirmed),
        (forall|i: int, j: int|
            0 <= i < j < subscribers.len() ==> (#[trigger] subscribers[i]).email != (
            #[trigger] subscribers[j]).email) ==> tasks_for(issue_id, subscribers).no_duplicates(),
        tasks_for(issue_id, subscribers).len() <= subscribers.len(),
    decreases subscribers.len(),
{
    let tasks = tasks_for(issue_id, subscribers);
    if subscribers.len() > 0 {
        let front = subscribers.drop_last();
        let last = subscribers.last();
        let earlier = tasks_for(issue_id, front);
        lemma_tasks_for(issue_id, front);
        assert forall|email: Seq<char>| #[trigger]
            tasks.contains((issue_id, email)) <==> (exists|i: int|
                0 <= i < subscribers.len() && (#[trigger] subscribers[i]).email == email
                    && subscribers[i].confirmed) by {
            let task = (issue_id, email);
            if tasks.contains(task) {
                let a = choose|a: int| 0 <= a < tasks.len() && tasks[a] == task;
                if a < earlier.len() {
                    assert(earlier[a] == task);
                    assert(earlier.contains(task));
                    let i = choose|i: int|
                        0 <= i < front.len() && (#[trigger] front[i]).email == email
                            && front[i].confirmed;
                    assert(subscribers[i].email == email && subscribers[i].confirmed);
                } else {
                    assert(subscribers[subscribers.len() - 1].email == email);
                }
            }
            if exists|i: int|
                0 <= i < subscribers.len() && (#[trigger] subscribers[i]).email == email
                    && subscribers[i].confirmed {
                let i = choose|i: int|
                    0 <= i < subscribers.len() && (#[trigger] subscribers[i]).email == email
                        && subscribers[i].confirmed;
                if i < front.len() {
                    assert(front[i].email == email && front[i].confirmed);
                    assert(earlier.contains(task));
                    let a = choose|a: int| 0 <= a < earlier.len() && earlier[a] == task;
                    assert(tasks[a] == task);
                } else {
                    assert(tasks[tasks.len() - 1] == task);
                }
            }
        }
        if forall|i: int, j: int|
            0 <= i < j < subscribers.len() ==> (#[trigger] subscribers[i]).email != (
            #[trigger] subscribers[j]).email {
            assert forall|i: int, j: int| 0 <= i < j < front.len() implies (#[trigger] front[i]).email
                != (#[trigger] front[j]).email by {
                assert(front[i] == subscribers[i]);
                assert(front[j] == subscribers[j]);
            }
            if last.confirmed {
                if earlier.contains((issue_id, last.email)) {
                    let i = choose|i: int|
                        0 <= i < front.len() && (#[trigger] front[i]).email == last.email
                            && front[i].confirmed;
                    assert(subscribers[i].email == subscribers[subscribers.len() - 1].email);
                }
                assert forall|a: int, b: int|
                    0 <= a < tasks.len() && 0 <= b < tasks.len() && a != b implies tasks[a]
                    != tasks[b] by {
                    if a < earlier.len() && b < earlier.len() {
                        assert(tasks[a] == earlier[a] && tasks[b] == earlier[b]);
                    } else if a < earlier.len() {
                        assert(earlier[a] == tasks[a]);
                        assert(earlier.contains(tasks[a]));
                    } else {
                        assert(earlier[b] == tasks[b]);
                        assert(earlier.contains(tasks[b]));
                    }
                }
            }
        }
    }
}

impl DatabaseView {
    /// With well-formed tables, the record of a key is where any search finds it.
    pub proof fn lemma_record_index(self, i: int, owner: UserId, key: Seq<char>)
        requires
            self.wf(),
            self.record_at(i, owner, key),
        ensures
            self.has_record(owner, key),
            self.record_index(owner, key) == i,
    {
        reveal(DatabaseView::wf);
        let c = self.record_index(owner, key);
        assert(self.record_at(c, owner, key));
        if c < i {
            assert(self.records[c].owner == self.records[i].owner);
        } else if i < c {
            assert(self.records[i].owner == self.records[c].owner);
        }
    }

    /// With well-formed tables, a subscriber is where any search finds it.
    pub proof fn lemma_subscriber_index(self, i: int, email: Seq<char>)
        requires
            self.wf(),
            self.subscriber_at(i, email),
        ensures
            self.has_subscriber(email),
            self.subscriber_index(email) == i,
    {
        reveal(DatabaseView::wf);
        let c = self.subscriber_index(email);
        assert(self.subscriber_at(c, email));
        if c < i {
            assert(self.subscribers[c].email == self.subscribers[i].email);
        } else if i < c {
            assert(self.subscribers[i].email == self.subscribers[c].email);
        }
    }

    /// With well-formed tables, the issue with an id is the one any search finds.
    pub proof fn lemma_issue(self, i: int, issue_id: u128)
        requires
            self.wf(),
            self.issue_at(i, issue_id),
        ensures
            self.has_issue(issue_id),
            self.issue(issue_id) == self.issues[i],
    {
        reveal(DatabaseView::wf);
        let c = choose|c: int| self.issue_at(c, issue_id);
        assert(self.issue_at(c, issue_id));
        if c < i {
            assert(self.issues[c].issue_id == self.issues[i].issue_id);
        } else if i < c {
            assert(self.issues[i].issue_id == self.issues[c].issue_id);
        }
    }

    /// A pending delivery belongs to a stored issue.
    pub proof fn lemma_pending_has_issue(self, i: int)
        requires
            self.wf(),
            0 <= i < self.queue.len(),
        ensures
            self.has_issue(self.queue[i].0),
    {
        reveal(DatabaseView::wf);
    }

    /// The empty store is well formed.
    pub proof fn lemma_empty_wf()
        ensures
            DatabaseView::empty().wf(),
    {
        reveal(DatabaseView::wf);
    }

    /// In a well-formed store no address subscribes twice, and no delivery is
    /// pending twice or held twice.
    pub proof fn lemma_no_duplicates(self)
        requires
            self.wf(),
        ensures
            forall|i: int, j: int|
                0 <= i < j < self.subscribers.len() ==> (#[trigger] self.subscribers[i]).email != (
                #[trigger] self.subscribers[j]).email,
            self.queue.no_duplicates(),
            self.locked.no_duplicates(),
    {
        reveal(DatabaseView::wf);
    }

    proof fn lemma_least_free(self, bound: int)
        requires
            self.is_free(bound),
        ensures
            exists|i: int| self.is_free(i) && forall|j: int| 0 <= j < i ==> !self.is_free(j),
        decreases bound,
    {
        if exists|j: int| 0 <= j < bound && self.is_free(j) {
            let j = choose|j: int| 0 <= j < bound && self.is_free(j);
            self.lemma_least_free(j);
        } else {
            assert(self.is_free(bound) && forall|j: int| 0 <= j < bound ==> !self.is_free(j));
        }
    }

    /// Where a delivery is free, the first free one is free and none before it is.
    pub proof fn lemma_first_free_is_free(self)
        requires
            self.has_free(),
        ensures
            self.is_free(self.first_free()),
            forall|j: int| 0 <= j < self.first_free() ==> !self.is_free(j),
    {
        let some = choose|i: int| self.is_free(i);
        self.lemma_least_free(some);
    }

    /// A delivery that is held is pending.
    pub proof fn lemma_held_is_pending(self, task: TaskView)
        requires
            self.wf(),
            self.locked.contains(task),
        ensures
            self.queue.contains(task),
    {
        reveal(DatabaseView::wf);
        let i = choose|i: int| 0 <= i < self.locked.len() && self.locked[i] == task;
        assert(self.queue.contains(self.locked[i]));
    }

    /// The first free delivery is the one at `i` when no earlier one is free.
    pub proof fn lemma_first_free(self, i: int)
        requires
            self.is_free(i),
            forall|j: int| 0 <= j < i ==> !self.is_free(j),
        ensures
            self.has_free(),
            self.first_free() == i,
    {
        let c = self.first_free();
        assert(self.is_free(c) && forall|j: int| 0 <= j < c ==> !self.is_free(j));
    }

    /// Taking the marker of an unseen key keeps the store well formed and
    /// leaves the key in progress.
    pub proof fn lemma_with_marker(self, owner: UserId, key: Seq<char>, now: u64)
        requires
            self.wf(),
            !self.has_record(owner, key),
        ensures
            self.with_marker(owner, key, now).wf(),
            self.with_marker(owner, key, now).key_state(owner, key) == KeyState::InProgress,
    {
        reveal(DatabaseView::wf);
        let next = self.with_marker(owner, key, now);
        assert forall|i: int, j: int| 0 <= i < j < next.records.len() implies !((
        #[trigger] next.records[i]).owner == (#[trigger] next.records[j]).owner && next.records[i].key
            == next.records[j].key) by {
            if j == self.records.len() {
                assert(!self.record_at(i, owner, key));
            } else {
                assert(next.records[i] == self.records[i]);
                assert(next.records[j] == self.records[j]);
            }
        }
        self.lemma_pending_kept(next);
        assert(next.record_at(self.records.len() as int, owner, key));
        next.lemma_record_index(self.records.len() as int, owner, key);
    }

    /// Taking a record away keeps the store well formed and leaves its key unseen.
    pub proof fn lemma_without_record(self, owner: UserId, key: Seq<char>)
        requires
            self.wf(),
            self.has_record(owner, key),
        ensures
            self.without_record(owner, key).wf(),
            !self.without_record(owner, key).has_record(owner, key),
    {
        reveal(DatabaseView::wf);
        let next = self.without_record(owner, key);
        let at = self.record_index(owner, key);
        assert(self.record_at(at, owner, key));
        self.records.remove_ensures(at);
        assert forall|i: int, j: int| 0 <= i < j < next.records.len() implies !((
        #[trigger] next.records[i]).owner == (#[trigger] next.records[j]).owner && next.records[i].key
            == next.records[j].key) by {
            let i0 = if i < at { i } else { i + 1 };
            let j0 = if j < at { j } else { j + 1 };
            assert(next.records[i] == self.records[i0]);
            assert(next.records[j] == self.records[j0]);
        }
        if next.has_record(owner, key) {
            let i = choose|i: int| next.record_at(i, owner, key);
            let i0 = if i < at { i } else { i + 1 };
            assert(next.records[i] == self.records[i0]);
            if i0 < at {
                assert(self.records[i0].owner == self.records[at].owner);
            } else {
                assert(self.records[at].owner == self.records[i0].owner);
            }
        }
        self.lemma_pending_kept(next);
    }

    /// Where no pending delivery is new and no stored issue is lost, every
    /// pending delivery still belongs to a stored issue.
    proof fn lemma_pending_kept(self, next: DatabaseView)
        requires
            self.wf(),
            forall|task: TaskView| #[trigger] next.queue.contains(task) ==> self.queue.contains(task),
            self.issues.len() <= next.issues.len(),
            forall|i: int| 0 <= i < self.issues.len() ==> next.issues[i] == self.issues[i],
        ensures
            forall|i: int| 0 <= i < next.queue.len() ==> next.has_issue((#[trigger] next.queue[i]).0),
    {
        reveal(DatabaseView::wf);
        assert forall|i: int| 0 <= i < next.queue.len() implies next.has_issue(
            (#[trigger] next.queue[i]).0,
        ) by {
            let pending = next.queue[i];
            assert(next.queue.contains(pending));
            let c = choose|c: int| 0 <= c < self.queue.len() && self.queue[c] == pending;
            self.lemma_issue_kept(next, self.queue[c].0);
        }
    }

    /// Storing more issues keeps the ones that were there.
    proof fn lemma_issue_kept(self, next: DatabaseView, issue_id: u128)
        requires
            self.has_issue(issue_id),
            self.issues.len() <= next.issues.len(),
            forall|i: int| 0 <= i < self.issues.len() ==> next.issues[i] == self.issues[i],
        ensures
            next.has_issue(issue_id),
    {
        let c = choose|c: int| self.issue_at(c, issue_id);
        assert(next.issue_at(c, issue_id));
    }

    /// Committing a well-formed transaction whose issue ids are new keeps the
    /// store well formed and leaves the key with its saved response.
    pub proof fn lemma_committed(self, transaction: TransactionView, response: ResponseView)
        requires
            self.wf(),
            transaction.wf(),
            self.has_record(transaction.owner, transaction.key),
            transaction.fresh_for(self),
        ensures
            self.committed(transaction, response).wf(),
            self.committed(transaction, response).key_state(transaction.owner, transaction.key)
                == KeyState::Saved(response),
    {
        reveal(DatabaseView::wf);
        let next = self.committed(transaction, response);
        let at = self.record_index(transaction.owner, transaction.key);
        assert(self.record_at(at, transaction.owner, transaction.key));
        assert forall|i: int, j: int| 0 <= i < j < next.records.len() implies !((
        #[trigger] next.records[i]).owner == (#[trigger] next.records[j]).owner && next.records[i].key
            == next.records[j].key) by {
            assert(next.records[i].owner == self.records[i].owner);
            assert(next.records[i].key == self.records[i].key);
            assert(next.records[j].owner == self.records[j].owner);
            assert(next.records[j].key == self.records[j].key);
        }
        assert forall|i: int, j: int| 0 <= i < j < next.issues.len() implies (
        #[trigger] next.issues[i]).issue_id != (#[trigger] next.issues[j]).issue_id by {
            let m = self.issues.len();
            if i < m && j < m {
                assert(next.issues[i] == self.issues[i]);
                assert(next.issues[j] == self.issues[j]);
            } else if i >= m {
                assert(next.issues[i] == transaction.issues[i - m]);
                assert(next.issues[j] == transaction.issues[j - m]);
            } else {
                assert(next.issues[i] == self.issues[i]);
                assert(next.issues[j] == transaction.issues[j - m]);
                assert(!self.issue_at(i, transaction.issues[j - m].issue_id));
            }
        }
        assert forall|i: int| 0 <= i < next.queue.len() implies next.has_issue(
            (#[trigger] next.queue[i]).0,
        ) by {
            if i < self.queue.len() {
                assert(next.queue[i] == self.queue[i]);
                self.lemma_issue_kept(next, self.queue[i].0);
            } else {
                let staged = transaction.tasks[i - self.queue.len()];
                assert(next.queue[i] == staged);
                let c = choose|c: int| transaction.issue_at(c, staged.0);
                assert(next.issue_at(self.issues.len() + c, staged.0));
            }
        }
        assert forall|i: int, j: int|
            0 <= i < next.queue.len() && 0 <= j < next.queue.len() && i != j implies next.queue[i]
            != next.queue[j] by {
            let n = self.queue.len();
            if i < n && j < n {
                assert(next.queue[i] == self.queue[i] && next.queue[j] == self.queue[j]);
            } else if i >= n && j >= n {
                assert(next.queue[i] == transaction.tasks[i - n]);
                assert(next.queue[j] == transaction.tasks[j - n]);
            } else {
                let (old_one, new_one) = if i < n { (i, j) } else { (j, i) };
                let staged = transaction.tasks[new_one - n];
                assert(next.queue[old_one] == self.queue[old_one]);
                assert(next.queue[new_one] == staged);
                assert(self.has_issue(self.queue[old_one].0));
                let c = choose|c: int| transaction.issue_at(c, staged.0);
                assert(!self.has_issue(transaction.issues[c].issue_id));
            }
        }
        assert forall|i: int| 0 <= i < next.locked.len() implies next.queue.contains(
            #[trigger] next.locked[i],
        ) by {
            let held = self.locked[i];
            assert(self.queue.contains(held));
            let q = choose|q: int| 0 <= q < self.queue.len() && self.queue[q] == held;
            assert(next.queue[q] == held);
        }
        assert(next.record_at(at, transaction.owner, transaction.key));
        next.lemma_record_index(at, transaction.owner, transaction.key);
    }

    /// Taking hold of a free pending delivery keeps the store well formed.
    pub proof fn lemma_with_lock(self, task: TaskView)
        requires
            self.wf(),
            self.queue.contains(task),
            !self.locked.contains(task),
        ensures
            self.with_lock(task).wf(),
    {
        reveal(DatabaseView::wf);
        let next = self.with_lock(task);
        assert forall|i: int, j: int|
            0 <= i < next.locked.len() && 0 <= j < next.locked.len() && i != j implies next.locked[i]
            != next.locked[j] by {
            let n = self.locked.len();
            if i < n && j < n {
                assert(next.locked[i] == self.locked[i] && next.locked[j] == self.locked[j]);
            } else if i < n {
                assert(self.locked[i] == next.locked[i]);
                assert(self.locked.contains(next.locked[i]));
            } else {
                assert(self.locked[j] == next.locked[j]);
                assert(self.locked.contains(next.locked[j]));
            }
        }
        assert forall|i: int| 0 <= i < next.locked.len() implies next.queue.contains(
            #[trigger] next.locked[i],
        ) by {
            if i < self.locked.len() {
                assert(next.locked[i] == self.locked[i]);
            }
        }
        self.lemma_pending_kept(next);
    }

    /// Letting go of a delivery keeps the store well formed.
    pub proof fn lemma_without_lock(self, task: TaskView)
        requires
            self.wf(),
        ensures
            self.without_lock(task).wf(),
    {
        reveal(DatabaseView::wf);
        let next = self.without_lock(task);
        lemma_without(self.locked, task);
        assert forall|i: int| 0 <= i < next.locked.len() implies next.queue.contains(
            #[trigger] next.locked[i],
        ) by {
            let held = next.locked[i];
            assert(next.locked.contains(held));
            assert(self.locked.contains(held));
            let c = choose|c: int| 0 <= c < self.locked.len() && self.locked[c] == held;
            assert(self.queue.contains(self.locked[c]));
        }
        self.lemma_pending_kept(next);
    }

    /// Resolving a delivery keeps the store well formed.
    pub proof fn lemma_without_task(self, task: TaskView)
        requires
            self.wf(),
        ensures
            self.without_task(task).wf(),
    {
        reveal(DatabaseView::wf);
        let next = self.without_task(task);
        lemma_without(self.locked, task);
        lemma_without(self.queue, task);
        assert forall|i: int| 0 <= i < next.locked.len() implies next.queue.contains(
            #[trigger] next.locked[i],
        ) by {
            let held = next.locked[i];
            assert(next.locked.contains(held));
            assert(self.locked.contains(held));
            let c = choose|c: int| 0 <= c < self.locked.len() && self.locked[c] == held;
            assert(self.queue.contains(self.locked[c]));
        }
        self.lemma_pending_kept(next);
    }

    /// A restart keeps the store well formed, keeps every saved response and
    /// leaves every other key unseen.
    pub proof fn lemma_recovered(self)
        requires
            self.wf(),
        ensures
            self.recovered().wf(),
            forall|owner: UserId, key: Seq<char>| #[trigger]
                self.recovered().key_state(owner, key) == (match self.key_state(owner, key) {
                    KeyState::Saved(response) => KeyState::Saved(response),
                    _ => KeyState::Unseen,
                }),
    {
        reveal(DatabaseView::wf);
        let next = self.recovered();
        lemma_saved_records(self.records);
        self.lemma_pending_kept(next);
        assert(next.wf());
        assert forall|owner: UserId, key: Seq<char>| #[trigger]
            next.key_state(owner, key) == (match self.key_state(owner, key) {
                KeyState::Saved(response) => KeyState::Saved(response),
                _ => KeyState::Unseen,
            }) by {
            if next.has_record(owner, key) {
                let a = next.record_index(owner, key);
                assert(next.record_at(a, owner, key));
                let record = next.records[a];
                assert(next.records.contains(record));
                assert(self.records.contains(record));
                let i = choose|i: int| 0 <= i < self.records.len() && self.records[i] == record;
                assert(self.record_at(i, owner, key));
                self.lemma_record_index(i, owner, key);
            }
            if self.has_record(owner, key) {
                let i = self.record_index(owner, key);
                assert(self.record_at(i, owner, key));
                let record = self.records[i];
                assert(self.records.contains(record));
                if record.response is Some {
                    assert(next.records.contains(record));
                    let a = choose|a: int| 0 <= a < next.records.len() && next.records[a] == record;
                    assert(next.record_at(a, owner, key));
                    next.lemma_record_index(a, owner, key);
                }
            }
        }
    }

    /// A new address keeps the store well formed.
    pub proof fn lemma_with_subscriber(self, email: Seq<char>)
        requires
            self.wf(),
            !self.has_subscriber(email),
        ensures
            self.with_subscriber(email).wf(),
    {
        reveal(DatabaseView::wf);
        let next = self.with_subscriber(email);
        assert forall|i: int, j: int| 0 <= i < j < next.subscribers.len() implies (
        #[trigger] next.subscribers[i]).email != (#[trigger] next.subscribers[j]).email by {
            if j == self.subscribers.len() {
                assert(!self.subscriber_at(i, email));
            } else {
                assert(next.subscribers[i] == self.subscribers[i]);
                assert(next.subscribers[j] == self.subscribers[j]);
            }
        }
        self.lemma_pending_kept(next);
    }

    /// A confirmation keeps the store well formed.
    pub proof fn lemma_with_confirmation(self, email: Seq<char>)
        requires
            self.wf(),
            self.has_subscriber(email),
        ensures
            self.with_confirmation(email).wf(),
    {
        reveal(DatabaseView::wf);
        let next = self.with_confirmation(email);
        let at = self.subscriber_index(email);
        assert(self.subscriber_at(at, email));
        assert forall|i: int, j: int| 0 <= i < j < next.subscribers.len() implies (
        #[trigger] next.subscribers[i]).email != (#[trigger] next.subscribers[j]).email by {
            assert(next.subscribers[i].email == self.subscribers[i].email);
            assert(next.subscribers[j].email == self.subscribers[j].email);
        }
        self.lemma_pending_kept(next);
    }
}

} // verus!
