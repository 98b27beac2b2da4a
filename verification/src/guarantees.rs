use crate::authentication::UserId;
use crate::domains::subscriber_email::email_is_valid;
use crate::http::see_other_view;
use crate::idempotency::key::key_is_valid;
use crate::issue_delivery_worker::{
    after_begin, after_finish, email_for, settlement, unit_of_work, TransportError,
};
use crate::model::{
    lemma_tasks_for, lemma_without, tasks_for, DatabaseView, KeyState, TaskView, TransactionView,
};
use crate::newsletter::{
    issue_view, lemma_marker_released, newsletters_page, staged_publication, submission,
    FormView, PublicationView, PublishFailure,
};
use vstd::prelude::*;

verus! {

/// The submission ended with a new issue stored.
pub open spec fn stores_an_issue(result: Result<PublicationView, PublishFailure>) -> bool {
    result matches Ok(PublicationView::Published(_))
}

/// A submission under a new key, with an id that no stored issue has, leaves
/// a well-formed store that holds what was there before and, in addition,
/// the issue, one delivery per confirmed subscriber, and the record of the
/// key with the redirect as its response.
pub proof fn lemma_published(db: DatabaseView, owner: UserId, form: FormView, issue_id: u128, now: u64)
    requires
        db.wf(),
        key_is_valid(form.idempotency_key),
        db.key_state(owner, form.idempotency_key) is Unseen,
        !db.has_issue(issue_id),
    ensures
        ({
            let (after, result) = submission(db, owner, form, issue_id, now);
            &&& after.wf()
            &&& result == Ok::<PublicationView, PublishFailure>(
                PublicationView::Published(see_other_view(newsletters_page())),
            )
            &&& after.key_state(owner, form.idempotency_key) == KeyState::Saved(
                see_other_view(newsletters_page()),
            )
            &&& after.issues == db.issues.push(
                issue_view(issue_id, form.title, form.text_content, form.html_content, now),
            )
            &&& after.queue == db.queue + tasks_for(issue_id, db.subscribers)
            &&& after.locked == db.locked
            &&& after.subscribers == db.subscribers
            &&& after.records.len() == db.records.len() + 1
        }),
{
    let key = form.idempotency_key;
    let issue = issue_view(issue_id, form.title, form.text_content, form.html_content, now);
    let started = db.with_marker(owner, key, now);
    let fresh = TransactionView::fresh(owner, key);
    let staged = staged_publication(db, owner, form, issue_id, now);
    db.lemma_with_marker(owner, key, now);
    assert(fresh.wf());
    fresh.lemma_with_issue(issue);
    db.lemma_no_duplicates();
    lemma_tasks_for(issue_id, db.subscribers);
    fresh.with_issue(issue).lemma_with_tasks(issue_id, tasks_for(issue_id, db.subscribers));
    assert forall|i: int| 0 <= i < staged.issues.len() implies !started.has_issue(
        (#[trigger] staged.issues[i]).issue_id,
    ) by {
        if started.has_issue(issue_id) {
            let c = choose|c: int| started.issue_at(c, issue_id);
            assert(db.issue_at(c, issue_id));
        }
    }
    started.lemma_committed(staged, see_other_view(newsletters_page()));
    let after = started.committed(staged, see_other_view(newsletters_page()));
    assert(after.issues =~= db.issues.push(issue));
    assert(after.queue =~= db.queue + tasks_for(issue_id, db.subscribers));
}

/// Idempotence. Submitting the same request twice under a valid key stores
/// at most one issue and one set of deliveries, both by the first
/// submission; the second writes nothing and is answered with the response
/// of the first, byte for byte. (A first submission whose issue id is taken
/// fails and is outside this law: its retry is then the first.)
pub proof fn law_idempotence(
    db: DatabaseView,
    owner: UserId,
    form: FormView,
    first_id: u128,
    first_now: u64,
    second_id: u128,
    second_now: u64,
)
    requires
        db.wf(),
        key_is_valid(form.idempotency_key),
        db.key_state(owner, form.idempotency_key) is Unseen ==> !db.has_issue(first_id),
    ensures
        ({
            let (once, first) = submission(db, owner, form, first_id, first_now);
            let (twice, second) = submission(once, owner, form, second_id, second_now);
            &&& once.wf()
            &&& twice == once
            &&& first is Ok
            &&& second is Ok
            &&& second->Ok_0.response() == first->Ok_0.response()
            &&& first->Ok_0 is Published ==> second->Ok_0 is Replayed
            &&& db.key_state(owner, form.idempotency_key) is Unseen ==> {
                &&& first->Ok_0 is Published
                &&& twice.issues == db.issues.push(
                    issue_view(
                        first_id,
                        form.title,
                        form.text_content,
                        form.html_content,
                        first_now,
                    ),
                )
                &&& twice.queue == db.queue + tasks_for(first_id, db.subscribers)
            }
            &&& !(db.key_state(owner, form.idempotency_key) is Unseen) ==> twice == db
        }),
{
    if db.key_state(owner, form.idempotency_key) is Unseen {
        lemma_published(db, owner, form, first_id, first_now);
    }
}

/// Atomicity. A submission that took its marker and does not reach the
/// commit of `save_response`, whatever it staged, leaves no trace: not when
/// it is rolled back, which gives the store exactly as it was before, and
/// not when the process goes down and the store is brought back up. Neither
/// its marker nor its issue nor any of its deliveries exists then. While it
/// was open, nothing it staged was visible. A submission under the same key
/// afterwards runs cleanly.
pub proof fn law_atomicity(
    db: DatabaseView,
    owner: UserId,
    form: FormView,
    now: u64,
    retry_id: u128,
    retry_now: u64,
)
    requires
        db.wf(),
        key_is_valid(form.idempotency_key),
        db.key_state(owner, form.idempotency_key) is Unseen,
    ensures
        ({
            let open = db.with_marker(owner, form.idempotency_key, now);
            let given_up = open.without_record(owner, form.idempotency_key);
            &&& open.issues == db.issues
            &&& open.queue == db.queue
            &&& open.key_state(owner, form.idempotency_key) is InProgress
            &&& given_up == db
            &&& !db.has_issue(retry_id) ==> stores_an_issue(
                submission(given_up, owner, form, retry_id, retry_now).1,
            )
            &&& open.recovered().wf()
            &&& open.recovered().issues == db.issues
            &&& open.recovered().queue == db.queue
            &&& open.recovered().key_state(owner, form.idempotency_key) is Unseen
            &&& !db.has_issue(retry_id) ==> stores_an_issue(
                submission(open.recovered(), owner, form, retry_id, retry_now).1,
            )
        }),
{
    let open = db.with_marker(owner, form.idempotency_key, now);
    db.lemma_with_marker(owner, form.idempotency_key, now);
    lemma_marker_released(db, owner, form.idempotency_key, now);
    open.lemma_recovered();
    if !db.has_issue(retry_id) {
        lemma_published(db, owner, form, retry_id, retry_now);
        if open.recovered().has_issue(retry_id) {
            let c = choose|c: int| open.recovered().issue_at(c, retry_id);
            assert(db.issue_at(c, retry_id));
        }
        lemma_published(open.recovered(), owner, form, retry_id, retry_now);
    }
}

/// Concurrent submissions. Of two submissions under the same new key, the
/// one that takes the marker first runs; the other, arriving while the first
/// is open, takes no second marker and writes nothing. Once the first has
/// committed, the other is answered with the very response the first saved.
/// Between them they store exactly one issue.
pub proof fn law_concurrent_submissions(
    db: DatabaseView,
    owner: UserId,
    form: FormView,
    winner_id: u128,
    winner_now: u64,
    loser_id: u128,
    loser_now: u64,
)
    requires
        db.wf(),
        key_is_valid(form.idempotency_key),
        db.key_state(owner, form.idempotency_key) is Unseen,
        !db.has_issue(winner_id),
    ensures
        ({
            let open = db.with_marker(owner, form.idempotency_key, winner_now);
            let (during, early) = submission(open, owner, form, loser_id, loser_now);
            let (committed, winner) = submission(db, owner, form, winner_id, winner_now);
            let (after, late) = submission(committed, owner, form, loser_id, loser_now);
            &&& early == Ok::<PublicationView, PublishFailure>(
                PublicationView::Pending,
            )
            &&& during == open
            &&& committed == open.committed(
                staged_publication(db, owner, form, winner_id, winner_now),
                see_other_view(newsletters_page()),
            )
            &&& winner matches Ok(PublicationView::Published(saved))
            &&& late == Ok::<PublicationView, PublishFailure>(
                PublicationView::Replayed(saved),
            )
            &&& after == committed
            &&& after.issues == db.issues.push(
                issue_view(
                    winner_id,
                    form.title,
                    form.text_content,
                    form.html_content,
                    winner_now,
                ),
            )
        }),
{
    db.lemma_with_marker(owner, form.idempotency_key, winner_now);
    lemma_published(db, owner, form, winner_id, winner_now);
}

/// Every confirmed subscriber is owed the issue. After a submission under a
/// new key has stored an issue, the queue holds a delivery of that issue for
/// each address that was confirmed at that moment, and for no other address.
pub proof fn law_every_confirmed_subscriber_is_queued(
    db: DatabaseView,
    owner: UserId,
    form: FormView,
    issue_id: u128,
    now: u64,
)
    requires
        db.wf(),
        key_is_valid(form.idempotency_key),
        db.key_state(owner, form.idempotency_key) is Unseen,
        !db.has_issue(issue_id),
    ensures
        forall|email: Seq<char>| #[trigger]
            submission(db, owner, form, issue_id, now).0.queue.contains((issue_id, email))
                <==> db.is_confirmed(email),
{
    lemma_published(db, owner, form, issue_id, now);
    lemma_tasks_for(issue_id, db.subscribers);
    let after = submission(db, owner, form, issue_id, now).0;
    let owed = tasks_for(issue_id, db.subscribers);
    assert forall|email: Seq<char>| #[trigger]
        after.queue.contains((issue_id, email)) <==> db.is_confirmed(email) by {
        let task = (issue_id, email);
        if after.queue.contains(task) {
            let i = choose|i: int| 0 <= i < after.queue.len() && after.queue[i] == task;
            if i < db.queue.len() {
                assert(db.queue[i] == task);
                db.lemma_pending_has_issue(i);
            } else {
                assert(owed[i - db.queue.len()] == task);
                assert(owed.contains(task));
                let s = choose|s: int|
                    0 <= s < db.subscribers.len() && (#[trigger] db.subscribers[s]).email == email
                        && db.subscribers[s].confirmed;
                assert(db.subscriber_at(s, email));
            }
        }
        if db.is_confirmed(email) {
            let s = choose|s: int| db.subscriber_at(s, email) && db.subscribers[s].confirmed;
            assert(db.subscribers[s].email == email && db.subscribers[s].confirmed);
            assert(owed.contains(task));
            let i = choose|i: int| 0 <= i < owed.len() && owed[i] == task;
            assert(after.queue[db.queue.len() + i] == task);
        }
    }
}

/// A delivery leaves the queue only when it is resolved. One unit of work
/// takes at most one delivery out of the queue and adds none. The delivery
/// it takes out is the one it selected; and where that delivery's address is
/// valid, the issue was handed to the transport for that address and the
/// transport did not fail transiently.
pub proof fn law_removed_only_when_resolved(db: DatabaseView, reply: Result<(), TransportError>)
    requires
        db.wf(),
    ensures
        ({
            let (after, outcome, sent) = unit_of_work(db, reply);
            &&& forall|task: TaskView| #[trigger] after.queue.contains(task) ==> db.queue.contains(task)
            &&& forall|task: TaskView|
                db.queue.contains(task) && !(#[trigger] after.queue.contains(task)) ==> {
                    &&& db.has_free()
                    &&& task == db.queue[db.first_free()]
                    &&& email_is_valid(task.1) ==> {
                        &&& sent == Some(email_for(db.issue(task.0), task.1))
                        &&& settlement(reply) is Resolve
                    }
                }
            &&& after.issues == db.issues
        }),
{
    let (after, outcome, sent) = unit_of_work(db, reply);
    db.lemma_no_duplicates();
    if db.has_free() {
        db.lemma_first_free_is_free();
        let selected = db.queue[db.first_free()];
        lemma_without(db.queue, selected);
        assert(db.queue.contains(selected));
    }
}

/// Progress. Where a delivery is free, a unit of work whose message the
/// transport accepts (or whose address is invalid) takes exactly that
/// delivery out of the queue; a transient failure leaves the store as it
/// was, so the delivery is there for the next attempt.
pub proof fn law_attempt_resolves_or_keeps(db: DatabaseView, reply: Result<(), TransportError>)
    requires
        db.wf(),
        db.has_free(),
    ensures
        ({
            let (after, outcome, sent) = unit_of_work(db, reply);
            let selected = db.queue[db.first_free()];
            let resolved = !email_is_valid(selected.1) || settlement(reply) is Resolve;
            &&& after.wf()
            &&& resolved ==> !after.queue.contains(selected) && after.queue.len() == db.queue.len()
                - 1 && outcome is Ok
            &&& !resolved ==> after == db && outcome is Err && sent is Some
        }),
{
    db.lemma_no_duplicates();
    db.lemma_first_free_is_free();
    let selected = db.queue[db.first_free()];
    assert(db.queue.contains(selected));
    lemma_without(db.queue, selected);
    db.lemma_without_task(selected);
}

/// The store after one unit of work for each of `replies`, in order.
pub open spec fn after_attempts(db: DatabaseView, replies: Seq<Result<(), TransportError>>) -> DatabaseView
    decreases replies.len(),
{
    if replies.len() == 0 {
        db
    } else {
        unit_of_work(after_attempts(db, replies.drop_last()), replies.last()).0
    }
}

/// The number of replies after which a delivery is resolved.
pub open spec fn resolving(replies: Seq<Result<(), TransportError>>) -> nat
    decreases replies.len(),
{
    if replies.len() == 0 {
        0
    } else if settlement(replies.last()) is Resolve {
        resolving(replies.drop_last()) + 1
    } else {
        resolving(replies.drop_last())
    }
}

/// At-least-once delivery, the draining half. With no attempt in flight,
/// units of work never add to the queue, and each reply of the transport
/// that is no transient failure takes one delivery out of it, however many
/// transient failures come in between: after as many such replies as there
/// were pending deliveries the queue is empty.
pub proof fn law_queue_drains(db: DatabaseView, replies: Seq<Result<(), TransportError>>)
    requires
        db.wf(),
        db.locked.len() == 0,
    ensures
        after_attempts(db, replies).wf(),
        after_attempts(db, replies).locked.len() == 0,
        after_attempts(db, replies).queue.len() <= (if resolving(replies) >= db.queue.len() {
            0
        } else {
            db.queue.len() - resolving(replies)
        }),
    decreases replies.len(),
{
    if replies.len() > 0 {
        let earlier = replies.drop_last();
        law_queue_drains(db, earlier);
        let before = after_attempts(db, earlier);
        if before.queue.len() > 0 {
            assert(!before.locked.contains(before.queue[0]));
            assert(before.is_free(0));
            law_attempt_resolves_or_keeps(before, replies.last());
            before.lemma_no_duplicates();
            before.lemma_first_free_is_free();
            let selected = before.queue[before.first_free()];
            lemma_without(before.locked, selected);
        } else {
            assert(!before.has_free());
        }
    }
}

/// Resolved for good. A delivery of a stored issue that is not pending is
/// not made pending again, neither by a submission nor by a unit of work:
/// what the worker completed once it never sees again.
pub proof fn law_resolved_stays_resolved(
    db: DatabaseView,
    task: TaskView,
    owner: UserId,
    form: FormView,
    issue_id: u128,
    now: u64,
    reply: Result<(), TransportError>,
)
    requires
        db.wf(),
        db.has_issue(task.0),
        !db.queue.contains(task),
    ensures
        !submission(db, owner, form, issue_id, now).0.queue.contains(task),
        submission(db, owner, form, issue_id, now).0.has_issue(task.0),
        !unit_of_work(db, reply).0.queue.contains(task),
        unit_of_work(db, reply).0.has_issue(task.0),
{
    law_removed_only_when_resolved(db, reply);
    let stored = choose|c: int| db.issue_at(c, task.0);
    assert(unit_of_work(db, reply).0.issue_at(stored, task.0));
    let after = submission(db, owner, form, issue_id, now).0;
    if key_is_valid(form.idempotency_key) && db.key_state(owner, form.idempotency_key) is Unseen
        && !db.has_issue(issue_id) {
        lemma_published(db, owner, form, issue_id, now);
        lemma_tasks_for(issue_id, db.subscribers);
        let owed = tasks_for(issue_id, db.subscribers);
        if after.queue.contains(task) {
            let i = choose|i: int| 0 <= i < after.queue.len() && after.queue[i] == task;
            if i < db.queue.len() {
                assert(db.queue[i] == task);
            } else {
                assert(owed[i - db.queue.len()] == task);
            }
        }
        assert(after.issue_at(stored, task.0));
    }
}

/// No double lock. The delivery that a dequeue selects is held by nobody;
/// once selected it is held, and as long as it is held no dequeue, by
/// whichever worker, selects it again. Once resolved it is not pending and
/// can never be selected again.
pub proof fn law_no_double_lock(db: DatabaseView, later: DatabaseView)
    requires
        db.wf(),
        db.has_free(),
        later.wf(),
        later.has_free(),
        later.locked.contains(db.queue[db.first_free()]),
    ensures
        ({
            let selected = db.queue[db.first_free()];
            &&& !db.locked.contains(selected)
            &&& db.with_lock(selected).locked.contains(selected)
            &&& later.queue[later.first_free()] != selected
            &&& !db.with_lock(selected).without_task(selected).queue.contains(selected)
        }),
{
    db.lemma_first_free_is_free();
    later.lemma_first_free_is_free();
    let selected = db.queue[db.first_free()];
    assert(db.with_lock(selected).locked[db.locked.len() as int] == selected);
    db.lemma_no_duplicates();
    lemma_without(db.queue, selected);
}

/// One step of one worker in a run of several over the same store.
pub enum WorkerStep {
    /// The worker with this number starts an attempt, unless it is in one.
    Begin(nat),
    /// The worker with this number, if it is in an attempt, hears this reply
    /// of the transport and ends the attempt.
    Finish(nat, Result<(), TransportError>),
}

/// A run of several workers: the store, the delivery that each worker in an
/// attempt holds, the deliveries handed to the transport so far and the
/// deliveries resolved so far, each in the order in which it happened.
pub struct Run {
    pub db: DatabaseView,
    pub held: Map<nat, TaskView>,
    pub sent: Seq<TaskView>,
    pub resolved: Seq<TaskView>,
}

impl Run {
    /// A run before its first step: nobody is in an attempt.
    pub open spec fn start(db: DatabaseView) -> Run {
        Run { db, held: Map::empty(), sent: Seq::empty(), resolved: Seq::empty() }
    }

    /// The run after one step. Starting an attempt is `begin_task` on the
    /// store, ending one is `finish_task` on the delivery the worker holds.
    pub open spec fn step(self, step: WorkerStep) -> Run {
        match step {
            WorkerStep::Begin(worker) => if self.held.dom().contains(worker) || !self.db.has_free() {
                self
            } else {
                let task = self.db.queue[self.db.first_free()];
                if email_is_valid(task.1) {
                    Run {
                        db: after_begin(self.db),
                        held: self.held.insert(worker, task),
                        sent: self.sent.push(task),
                        ..self
                    }
                } else {
                    Run { db: after_begin(self.db), resolved: self.resolved.push(task), ..self }
                }
            },
            WorkerStep::Finish(worker, reply) => if !self.held.dom().contains(worker) {
                self
            } else {
                let task = self.held[worker];
                Run {
                    db: after_finish(self.db, task, reply),
                    held: self.held.remove(worker),
                    resolved: if settlement(reply) is Resolve {
                        self.resolved.push(task)
                    } else {
                        self.resolved
                    },
                    ..self
                }
            },
        }
    }

    /// The run after `steps`, in order.
    pub open spec fn after(self, steps: Seq<WorkerStep>) -> Run
        decreases steps.len(),
    {
        if steps.len() == 0 {
            self
        } else {
            self.after(steps.drop_last()).step(steps.last())
        }
    }

    /// What holds at every moment of a run over a store that held `total`
    /// pending deliveries at its start.
    pub open spec fn sound(self, total: nat) -> bool {
        &&& self.db.wf()
        &&& forall|worker: nat| #[trigger]
            self.held.dom().contains(worker) ==> self.db.locked.contains(self.held[worker])
                && self.sent.contains(self.held[worker])
        &&& forall|one: nat, other: nat|
            #![trigger self.held[one], self.held[other]]
            self.held.dom().contains(one) && self.held.dom().contains(other) && one != other
                ==> self.held[one] != self.held[other]
        &&& self.resolved.no_duplicates()
        &&& forall|task: TaskView| #[trigger]
            self.resolved.contains(task) ==> !self.db.queue.contains(task) && (email_is_valid(
                task.1,
            ) ==> self.sent.contains(task))
        &&& self.db.queue.len() + self.resolved.len() == total
    }
}

/// What a sequence holds once one more element stands at its end.
proof fn lemma_pushed<T>(items: Seq<T>, item: T)
    ensures
        forall|other: T| #[trigger]
            items.push(item).contains(other) <==> items.contains(other) || other == item,
        items.no_duplicates() && !items.contains(item) ==> items.push(item).no_duplicates(),
{
    let more = items.push(item);
    assert forall|other: T| #[trigger] more.contains(other) <==> items.contains(other) || other
        == item by {
        if more.contains(other) {
            let i = choose|i: int| 0 <= i < more.len() && more[i] == other;
            if i < items.len() {
                assert(items[i] == other);
            }
        }
        if items.contains(other) {
            let i = choose|i: int| 0 <= i < items.len() && items[i] == other;
            assert(more[i] == other);
        }
        assert(more[items.len() as int] == item);
    }
    if items.no_duplicates() && !items.contains(item) {
        assert forall|i: int, j: int| 0 <= i < more.len() && 0 <= j < more.len() && i != j implies more[i]
            != more[j] by {
            if i < items.len() && j < items.len() {
                assert(more[i] == items[i] && more[j] == items[j]);
            } else if i < items.len() {
                assert(items.contains(items[i]));
            } else {
                assert(items.contains(items[j]));
            }
        }
    }
}

/// One step keeps a run sound.
proof fn lemma_step_sound(run: Run, step: WorkerStep, total: nat)
    requires
        run.sound(total),
    ensures
        run.step(step).sound(total),
        forall|task: TaskView| #[trigger]
            run.step(step).db.queue.contains(task) ==> run.db.queue.contains(task),
        forall|task: TaskView| #[trigger]
            run.step(step).resolved.contains(task) ==> run.resolved.contains(task)
                || run.db.queue.contains(task),
{
    let next = run.step(step);
    run.db.lemma_no_duplicates();
    match step {
        WorkerStep::Begin(worker) => {
            if !run.held.dom().contains(worker) && run.db.has_free() {
                run.db.lemma_first_free_is_free();
                let task = run.db.queue[run.db.first_free()];
                assert(run.db.queue.contains(task));
                if email_is_valid(task.1) {
                    run.db.lemma_with_lock(task);
                    lemma_pushed(run.db.locked, task);
                    lemma_pushed(run.sent, task);
                    assert forall|other: nat| #[trigger]
                        next.held.dom().contains(other) implies next.db.locked.contains(
                        next.held[other],
                    ) && next.sent.contains(next.held[other]) by {
                        if other != worker {
                            assert(run.held.dom().contains(other));
                        }
                    }
                    assert forall|one: nat, other: nat|
                        #![trigger next.held[one], next.held[other]]
                        next.held.dom().contains(one) && next.held.dom().contains(other) && one
                            != other implies next.held[one] != next.held[other] by {
                        if one != worker {
                            assert(run.held.dom().contains(one));
                        }
                        if other != worker {
                            assert(run.held.dom().contains(other));
                        }
                    }
                    assert(next.sound(total));
                } else {
                    run.db.lemma_without_task(task);
                    lemma_without(run.db.queue, task);
                    lemma_without(run.db.locked, task);
                    lemma_pushed(run.resolved, task);
                    assert forall|other: nat| #[trigger]
                        next.held.dom().contains(other) implies next.db.locked.contains(
                        next.held[other],
                    ) && next.sent.contains(next.held[other]) by {
                        assert(run.held.dom().contains(other));
                    }
                    assert(next.sound(total));
                }
            }
        },
        WorkerStep::Finish(worker, reply) => {
            if run.held.dom().contains(worker) {
                let task = run.held[worker];
                run.db.lemma_held_is_pending(task);
                lemma_without(run.db.locked, task);
                assert forall|other: nat| #[trigger]
                    next.held.dom().contains(other) implies next.db.locked.contains(
                    next.held[other],
                ) && next.sent.contains(next.held[other]) by {
                    assert(run.held.dom().contains(other));
                    assert(run.held[other] != run.held[worker]);
                }
                assert forall|one: nat, other: nat|
                    #![trigger next.held[one], next.held[other]]
                    next.held.dom().contains(one) && next.held.dom().contains(other) && one
                        != other implies next.held[one] != next.held[other] by {
                    assert(run.held.dom().contains(one));
                    assert(run.held.dom().contains(other));
                }
                if settlement(reply) is Resolve {
                    run.db.lemma_without_task(task);
                    lemma_without(run.db.queue, task);
                    lemma_pushed(run.resolved, task);
                    assert(next.sound(total));
                } else {
                    run.db.lemma_without_lock(task);
                    assert(next.sound(total));
                }
            }
        },
    }
}

/// Several workers over one queue. However the steps of any number of
/// workers follow one another, and however often the transport fails:
/// no two workers ever hold the same delivery; every delivery that is
/// resolved was pending at the start, is resolved once and is pending no
/// longer; a resolved delivery with a valid address was handed to the
/// transport; and the deliveries still pending and those resolved are
/// together as many as were pending at the start, so that an empty queue at
/// the end means that each of them was resolved exactly once.
pub proof fn law_workers_resolve_each_delivery_once(db: DatabaseView, steps: Seq<WorkerStep>)
    requires
        db.wf(),
    ensures
        ({
            let end = Run::start(db).after(steps);
            &&& end.sound(db.queue.len())
            &&& forall|one: nat, other: nat|
                #![trigger end.held[one], end.held[other]]
                end.held.dom().contains(one) && end.held.dom().contains(other) && one != other
                    ==> end.held[one] != end.held[other]
            &&& end.resolved.no_duplicates()
            &&& forall|task: TaskView| #[trigger]
                end.resolved.contains(task) ==> db.queue.contains(task) && !end.db.queue.contains(
                    task,
                ) && (email_is_valid(task.1) ==> end.sent.contains(task))
            &&& forall|task: TaskView| #[trigger]
                end.db.queue.contains(task) ==> db.queue.contains(task)
            &&& end.db.queue.len() + end.resolved.len() == db.queue.len()
            &&& end.db.queue.len() == 0 ==> end.resolved.len() == db.queue.len()
        }),
    decreases steps.len(),
{
    let start = Run::start(db);
    if steps.len() == 0 {
        assert(start.sound(db.queue.len()));
    } else {
        law_workers_resolve_each_delivery_once(db, steps.drop_last());
        lemma_step_sound(start.after(steps.drop_last()), steps.last(), db.queue.len());
    }
}

impl Run {
    /// The worker holds the delivery.
    pub open spec fn holds(self, worker: nat, task: TaskView) -> bool {
        self.held.dom().contains(worker) && self.held[worker] == task
    }

    /// Every delivery that is held is held by a worker of the run.
    pub open spec fn tight(self) -> bool {
        forall|task: TaskView| #[trigger]
            self.db.locked.contains(task) ==> exists|worker: nat| #[trigger] self.holds(worker, task)
    }
}

/// One step keeps every held delivery in some worker's hands.
proof fn lemma_step_tight(run: Run, step: WorkerStep, total: nat)
    requires
        run.sound(total),
        run.tight(),
    ensures
        run.step(step).tight(),
{
    let next = run.step(step);
    run.db.lemma_no_duplicates();
    match step {
        WorkerStep::Begin(worker) => {
            if !run.held.dom().contains(worker) && run.db.has_free() {
                run.db.lemma_first_free_is_free();
                let task = run.db.queue[run.db.first_free()];
                lemma_pushed(run.db.locked, task);
                lemma_without(run.db.locked, task);
                assert forall|other: TaskView| #[trigger]
                    next.db.locked.contains(other) implies exists|holder: nat| #[trigger]
                    next.holds(holder, other) by {
                    if other == task && email_is_valid(task.1) {
                        assert(next.holds(worker, other));
                    } else {
                        assert(run.db.locked.contains(other));
                        let holder = choose|holder: nat| #[trigger] run.holds(holder, other);
                        assert(next.holds(holder, other));
                    }
                }
            }
        },
        WorkerStep::Finish(worker, reply) => {
            if run.held.dom().contains(worker) {
                let task = run.held[worker];
                lemma_without(run.db.locked, task);
                assert forall|other: TaskView| #[trigger]
                    next.db.locked.contains(other) implies exists|holder: nat| #[trigger]
                    next.holds(holder, other) by {
                    assert(run.db.locked.contains(other));
                    let holder = choose|holder: nat| #[trigger] run.holds(holder, other);
                    assert(next.holds(holder, other));
                }
            }
        },
    }
}

/// A run from a store in which nothing is held keeps every held delivery in
/// some worker's hands.
proof fn lemma_run_tight(db: DatabaseView, steps: Seq<WorkerStep>)
    requires
        db.wf(),
        db.locked.len() == 0,
    ensures
        Run::start(db).after(steps).sound(db.queue.len()),
        Run::start(db).after(steps).tight(),
    decreases steps.len(),
{
    law_workers_resolve_each_delivery_once(db, steps);
    if steps.len() > 0 {
        lemma_run_tight(db, steps.drop_last());
        law_workers_resolve_each_delivery_once(db, steps.drop_last());
        lemma_step_tight(Run::start(db).after(steps.drop_last()), steps.last(), db.queue.len());
    }
}

/// At-least-once delivery, for several workers. At any moment of a run that
/// started with nothing held, whatever happened before: a worker in an
/// attempt takes its delivery out of the queue as soon as the transport
/// accepts the message; a worker that is free takes a delivery out of the
/// queue with one attempt that the transport accepts, where a delivery is
/// free; and where deliveries are pending and none is free, a worker holds
/// one. So a pending delivery never waits for anything but an accepted
/// send, and each accepted send makes the queue shorter by one.
pub proof fn law_accepted_sends_shorten_the_queue(
    db: DatabaseView,
    steps: Seq<WorkerStep>,
    worker: nat,
)
    requires
        db.wf(),
        db.locked.len() == 0,
    ensures
        ({
            let run = Run::start(db).after(steps);
            let accepted = WorkerStep::Finish(worker, Ok(()));
            &&& run.held.dom().contains(worker) ==> run.step(accepted).db.queue.len()
                == run.db.queue.len() - 1
            &&& !run.held.dom().contains(worker) && run.db.has_free() ==> run.step(
                WorkerStep::Begin(worker),
            ).step(accepted).db.queue.len() == run.db.queue.len() - 1
            &&& run.db.queue.len() > 0 && !run.db.has_free() ==> exists|other: nat| #[trigger]
                run.held.dom().contains(other)
        }),
{
    let run = Run::start(db).after(steps);
    lemma_run_tight(db, steps);
    run.db.lemma_no_duplicates();
    if run.held.dom().contains(worker) {
        let task = run.held[worker];
        run.db.lemma_held_is_pending(task);
        lemma_without(run.db.queue, task);
    } else if run.db.has_free() {
        run.db.lemma_first_free_is_free();
        let task = run.db.queue[run.db.first_free()];
        assert(run.db.queue.contains(task));
        lemma_without(run.db.queue, task);
        let begun = run.step(WorkerStep::Begin(worker));
        if email_is_valid(task.1) {
            assert(begun.held.dom().contains(worker));
            assert(begun.held[worker] == task);
        } else {
            assert(!begun.held.dom().contains(worker));
        }
    }
    if run.db.queue.len() > 0 && !run.db.has_free() {
        assert(!run.db.is_free(0));
        let task = run.db.queue[0];
        assert(run.db.locked.contains(task));
        let holder = choose|holder: nat| #[trigger] run.holds(holder, task);
        assert(run.held.dom().contains(holder));
    }
}

} // verus!
