//! The guarantees of the pipeline, each proved from the transition
//! predicates that the store's operations ensure.
//!
//! Emails are sent only by the delivery worker, for a task that
//! [`crate::store::NewsletterStore::select_task`] returned — and that call's
//! contract says the task is queued at that moment. So every claim below
//! about tasks leaving the queue and never coming back is a claim about
//! emails: a pair (issue, subscriber) whose task is gone for good can never
//! be handed to the transport again.

use vstd::prelude::*;
use crate::delivery::SendOutcome;
use crate::delivery::TaskView;
use crate::response::ResponseView;
use crate::store::PublishError;
use crate::store::StoreView;
use crate::store::SubscriberView;
use crate::store::TaskDisposition;
use crate::store::apply_transition;
use crate::store::cached_response;
use crate::store::completed;
use crate::store::confirmed_in;
use crate::store::has_record;
use crate::store::has_task;
use crate::store::in_flight;
use crate::store::lemma_record_found;
use crate::store::lemma_task_found;
use crate::store::lemma_unique_after_remove;
use crate::store::publish_transition;
use crate::store::record_state;
use crate::store::store_wf;
use crate::store::task_index;
use crate::store::task_state;
use crate::store::unique_tasks;

verus! {

/// Law: once a publish for (owner, key) has produced a response, any later
/// publish with the same pair — a second browser tab, a retry, a replay
/// long after — returns the byte-identical response and changes nothing:
/// no second issue, no new tasks, no new rows. Two concurrent requests
/// racing on the key serialize (the database's uniqueness constraint picks
/// a winner) into exactly such a pair of calls.
pub proof fn lemma_replay_is_identical(
    s0: StoreView,
    s1: StoreView,
    s2: StoreView,
    owner: int,
    key: Seq<char>,
    title1: Seq<char>,
    text1: Seq<char>,
    html1: Seq<char>,
    subs1: Seq<SubscriberView>,
    now1: int,
    title2: Seq<char>,
    text2: Seq<char>,
    html2: Seq<char>,
    subs2: Seq<SubscriberView>,
    now2: int,
    r1: ResponseView,
    result2: Result<ResponseView, PublishError>,
)
    requires
        store_wf(s0),
        store_wf(s1),
        publish_transition(
            s0,
            s1,
            owner,
            key,
            title1,
            text1,
            html1,
            subs1,
            now1,
            Ok(r1),
        ),
        publish_transition(
            s1,
            s2,
            owner,
            key,
            title2,
            text2,
            html2,
            subs2,
            now2,
            result2,
        ),
    ensures
        s2 == s1,
        result2 == Ok::<ResponseView, PublishError>(r1),
{
    if completed(s0.idempotency, owner, key) {
        // The first call was itself a replay: stores coincide throughout.
    } else {
        // The first call executed: it appended the completed row holding r1.
        let last = s0.idempotency.len() as int;
        lemma_record_found(s1.idempotency, owner, key, last);
        assert(completed(s1.idempotency, owner, key));
        assert(cached_response(s1.idempotency, owner, key) == r1);
    }
}

/// Law: a first-time publish enqueues exactly one delivery task per
/// distinct confirmed subscriber address — none for unconfirmed
/// subscribers, and never two for the same address, because the queue is
/// keyed by (issue, subscriber).
pub proof fn lemma_publish_tasks_exactly_confirmed(
    s0: StoreView,
    s1: StoreView,
    owner: int,
    key: Seq<char>,
    title: Seq<char>,
    text: Seq<char>,
    html: Seq<char>,
    subs: Seq<SubscriberView>,
    now: int,
    result: Result<ResponseView, PublishError>,
)
    requires
        store_wf(s0),
        store_wf(s1),
        !has_record(s0.idempotency, owner, key),
        publish_transition(s0, s1, owner, key, title, text, html, subs, now, result),
    ensures
        forall|e: Seq<char>|
            #![trigger confirmed_in(subs, e)]
            #![trigger has_task(s1.tasks, s0.issues.len() as int, e)]
            confirmed_in(subs, e) <==> has_task(s1.tasks, s0.issues.len() as int, e),
        unique_tasks(s1.tasks),
{
    assert(record_state(s0.idempotency, owner, key) is None);
}

/// Law: a delivery that failed transiently and succeeded on a later pass
/// leaves no task behind: the subscriber received the issue once, and the
/// worker can never pick that pair up again.
pub proof fn lemma_retry_then_success_delivers_once(
    s0: StoreView,
    s1: StoreView,
    s2: StoreView,
    issue: int,
    email: Seq<char>,
    now1: int,
    now2: int,
)
    requires
        store_wf(s0),
        apply_transition(
            s0,
            s1,
            issue,
            email,
            SendOutcome::TransientFailure,
            now1,
            TaskDisposition::Rescheduled,
        ),
        apply_transition(
            s1,
            s2,
            issue,
            email,
            SendOutcome::Success,
            now2,
            TaskDisposition::Delivered,
        ),
    ensures
        !has_task(s2.tasks, issue, email),
{
    let k = task_index(s0.tasks, issue, email);
    lemma_unique_after_update_same_key(s0.tasks, k);
    lemma_remove_clears_key(s1.tasks, issue, email);
}

/// Law: nothing re-creates a delivery task that has left the queue — the
/// publish command only enqueues tasks for the issue it creates, whose id
/// is fresh. Once a subscriber's task for an issue is delivered or
/// dead-lettered, no later publish brings it back.
pub proof fn lemma_no_resurrection_publish(
    s0: StoreView,
    s1: StoreView,
    owner: int,
    key: Seq<char>,
    title: Seq<char>,
    text: Seq<char>,
    html: Seq<char>,
    subs: Seq<SubscriberView>,
    now: int,
    result: Result<ResponseView, PublishError>,
    issue: int,
    email: Seq<char>,
)
    requires
        store_wf(s0),
        0 <= issue < s0.issues.len(),
        !has_task(s0.tasks, issue, email),
        publish_transition(s0, s1, owner, key, title, text, html, subs, now, result),
    ensures
        !has_task(s1.tasks, issue, email),
{
    if !completed(s0.idempotency, owner, key) && !in_flight(s0.idempotency, owner, key) {
        if has_task(s1.tasks, issue, email) {
            let j = choose|j: int|
                0 <= j < s1.tasks.len() && (#[trigger] s1.tasks[j]).issue_id == issue
                    && s1.tasks[j].subscriber_email == email;
            if j < s0.tasks.len() {
                assert(s1.tasks.take(s0.tasks.len() as int)[j] == s1.tasks[j]);
                assert(s0.tasks[j] == s1.tasks[j]);
                assert(has_task(s0.tasks, issue, email));
            } else {
                assert(s1.tasks[j].issue_id == s0.issues.len() as int);
            }
        }
    }
}

/// Law: the worker never inserts a task — reporting an outcome for one
/// pair cannot bring any other pair (nor the reported one) back into the
/// queue.
pub proof fn lemma_no_resurrection_worker(
    s0: StoreView,
    s1: StoreView,
    issue2: int,
    email2: Seq<char>,
    outcome: SendOutcome,
    now: int,
    d: TaskDisposition,
    issue: int,
    email: Seq<char>,
)
    requires
        !has_task(s0.tasks, issue, email),
        apply_transition(s0, s1, issue2, email2, outcome, now, d),
    ensures
        !has_task(s1.tasks, issue, email),
{
    if has_task(s0.tasks, issue2, email2) {
        let k = task_index(s0.tasks, issue2, email2);
        assert(0 <= k < s0.tasks.len() && s0.tasks[k].issue_id == issue2
            && s0.tasks[k].subscriber_email == email2) by {
            assert(has_task(s0.tasks, issue2, email2));
        }
        if has_task(s1.tasks, issue, email) {
            let j = choose|j: int|
                0 <= j < s1.tasks.len() && (#[trigger] s1.tasks[j]).issue_id == issue
                    && s1.tasks[j].subscriber_email == email;
            if s1.tasks == s0.tasks.remove(k) {
                let j0 = if j < k {
                    j
                } else {
                    j + 1
                };
                assert(s1.tasks[j] == s0.tasks[j0]);
                assert(has_task(s0.tasks, issue, email));
            } else {
                // The task was rescheduled in place: keys are unchanged.
                if j != k {
                    assert(s1.tasks[j] == s0.tasks[j]);
                    assert(has_task(s0.tasks, issue, email));
                } else {
                    assert(s1.tasks[k].issue_id == issue2 && s1.tasks[k].subscriber_email
                        == email2);
                    assert(has_task(s0.tasks, issue, email));
                }
            }
        }
    }
}

/// Law: reporting an outcome for one task leaves every other task exactly
/// as it was — in particular, one subscriber's fatal delivery failure does
/// not disturb any other subscriber's pending delivery, which stays queued
/// with the same pickup time and is still selected in its turn.
pub proof fn lemma_outcome_leaves_others(
    s0: StoreView,
    s1: StoreView,
    issue: int,
    email: Seq<char>,
    outcome: SendOutcome,
    now: int,
    d: TaskDisposition,
    issue2: int,
    email2: Seq<char>,
)
    requires
        store_wf(s0),
        apply_transition(s0, s1, issue, email, outcome, now, d),
        !(issue2 == issue && email2 == email),
    ensures
        task_state(s1.tasks, issue2, email2) == task_state(s0.tasks, issue2, email2),
{
    if has_task(s0.tasks, issue, email) {
        let k = task_index(s0.tasks, issue, email);
        assert(0 <= k < s0.tasks.len() && s0.tasks[k].issue_id == issue
            && s0.tasks[k].subscriber_email == email) by {
            assert(has_task(s0.tasks, issue, email));
        }
        if s1.tasks == s0.tasks.remove(k) {
            lemma_task_state_after_remove(s0.tasks, k, issue2, email2);
        } else {
            lemma_task_state_after_update_same_key(s0.tasks, k, s1.tasks[k], issue2, email2);
        }
    }
}

/// Updating a task in place without changing its (issue, subscriber) key
/// keeps the queue unique.
proof fn lemma_unique_after_update_same_key(tasks: Seq<TaskView>, k: int)
    requires
        unique_tasks(tasks),
        0 <= k < tasks.len(),
    ensures
        forall|t: TaskView|
            t.issue_id == tasks[k].issue_id && t.subscriber_email == tasks[k].subscriber_email
                ==> unique_tasks(#[trigger] tasks.update(k, t)),
{
    assert forall|t: TaskView|
        t.issue_id == tasks[k].issue_id && t.subscriber_email == tasks[k].subscriber_email
            implies unique_tasks(#[trigger] tasks.update(k, t)) by {
        let post = tasks.update(k, t);
        assert forall|x: int, y: int|
            0 <= x < post.len() && 0 <= y < post.len() && (#[trigger] post[x]).issue_id
                == (#[trigger] post[y]).issue_id && post[x].subscriber_email
                == post[y].subscriber_email implies x == y by {
            assert(post[x].issue_id == tasks[x].issue_id && post[x].subscriber_email
                == tasks[x].subscriber_email);
            assert(post[y].issue_id == tasks[y].issue_id && post[y].subscriber_email
                == tasks[y].subscriber_email);
        }
    }
}

/// Removing the one task for a pair leaves no task for that pair.
proof fn lemma_remove_clears_key(tasks: Seq<TaskView>, issue: int, email: Seq<char>)
    requires
        unique_tasks(tasks),
        has_task(tasks, issue, email),
    ensures
        !has_task(tasks.remove(task_index(tasks, issue, email)), issue, email),
{
    let k = task_index(tasks, issue, email);
    assert(0 <= k < tasks.len() && tasks[k].issue_id == issue && tasks[k].subscriber_email
        == email) by {
        assert(has_task(tasks, issue, email));
    }
    let post = tasks.remove(k);
    if has_task(post, issue, email) {
        let j = choose|j: int|
            0 <= j < post.len() && (#[trigger] post[j]).issue_id == issue
                && post[j].subscriber_email == email;
        let j0 = if j < k {
            j
        } else {
            j + 1
        };
        assert(post[j] == tasks[j0]);
        assert(j0 != k);
    }
}

/// After removing the task at `k`, every other pair's state is unchanged.
proof fn lemma_task_state_after_remove(tasks: Seq<TaskView>, k: int, issue2: int, email2: Seq<char>)
    requires
        unique_tasks(tasks),
        0 <= k < tasks.len(),
        !(tasks[k].issue_id == issue2 && tasks[k].subscriber_email == email2),
    ensures
        task_state(tasks.remove(k), issue2, email2) == task_state(tasks, issue2, email2),
{
    let post = tasks.remove(k);
    lemma_unique_after_remove(tasks, k);
    if has_task(tasks, issue2, email2) {
        let m = task_index(tasks, issue2, email2);
        assert(0 <= m < tasks.len() && tasks[m].issue_id == issue2 && tasks[m].subscriber_email
            == email2) by {
            assert(has_task(tasks, issue2, email2));
        }
        assert(m != k);
        let m2 = if m < k {
            m
        } else {
            m - 1
        };
        assert(post[m2] == tasks[m]);
        lemma_task_found(post, issue2, email2, m2);
        lemma_task_found(tasks, issue2, email2, m);
    } else {
        if has_task(post, issue2, email2) {
            let j = choose|j: int|
                0 <= j < post.len() && (#[trigger] post[j]).issue_id == issue2
                    && post[j].subscriber_email == email2;
            let j0 = if j < k {
                j
            } else {
                j + 1
            };
            assert(post[j] == tasks[j0]);
            assert(has_task(tasks, issue2, email2));
        }
    }
}

/// After updating the task at `k` in place (same key), every other pair's
/// state is unchanged.
proof fn lemma_task_state_after_update_same_key(
    tasks: Seq<TaskView>,
    k: int,
    t: TaskView,
    issue2: int,
    email2: Seq<char>,
)
    requires
        unique_tasks(tasks),
        0 <= k < tasks.len(),
        t.issue_id == tasks[k].issue_id && t.subscriber_email == tasks[k].subscriber_email,
        !(tasks[k].issue_id == issue2 && tasks[k].subscriber_email == email2),
    ensures
        task_state(tasks.update(k, t), issue2, email2) == task_state(tasks, issue2, email2),
{
    let post = tasks.update(k, t);
    lemma_unique_after_update_same_key(tasks, k);
    assert(unique_tasks(post));
    if has_task(tasks, issue2, email2) {
        let m = task_index(tasks, issue2, email2);
        assert(0 <= m < tasks.len() && tasks[m].issue_id == issue2 && tasks[m].subscriber_email
            == email2) by {
            assert(has_task(tasks, issue2, email2));
        }
        assert(m != k);
        assert(post[m] == tasks[m]);
        lemma_task_found(post, issue2, email2, m);
        lemma_task_found(tasks, issue2, email2, m);
    } else {
        if has_task(post, issue2, email2) {
            let j = choose|j: int|
                0 <= j < post.len() && (#[trigger] post[j]).issue_id == issue2
                    && post[j].subscriber_email == email2;
            assert(j != k);
            assert(post[j] == tasks[j]);
            assert(has_task(tasks, issue2, email2));
        }
    }
}

} // verus!

verus! {

/// One operation of the pipeline, with the result it reported.
pub enum StoreOp {
    Publish {
        owner: int,
        key: Seq<char>,
        title: Seq<char>,
        text: Seq<char>,
        html: Seq<char>,
        subs: Seq<SubscriberView>,
        now: int,
        result: Result<ResponseView, PublishError>,
    },
    ReportOutcome {
        issue: int,
        email: Seq<char>,
        outcome: SendOutcome,
        now: int,
        d: TaskDisposition,
    },
}

/// The state `post` follows from `pre` by the operation.
pub open spec fn store_step(pre: StoreView, op: StoreOp, post: StoreView) -> bool {
    match op {
        StoreOp::Publish { owner, key, title, text, html, subs, now, result } => publish_transition(
            pre,
            post,
            owner,
            key,
            title,
            text,
            html,
            subs,
            now,
            result,
        ),
        StoreOp::ReportOutcome { issue, email, outcome, now, d } => apply_transition(
            pre,
            post,
            issue,
            email,
            outcome,
            now,
            d,
        ),
    }
}

/// A run of the pipeline: each state follows from the one before by some
/// operation, and every state is well-formed — which the store's methods
/// ensure of every state they produce.
pub open spec fn is_run(states: Seq<StoreView>, ops: Seq<StoreOp>) -> bool {
    &&& states.len() == ops.len() + 1
    &&& forall|i: int| 0 <= i < states.len() ==> store_wf(#[trigger] states[i])
    &&& forall|i: int|
        0 <= i < ops.len() ==> store_step(states[i], #[trigger] ops[i], states[i + 1])
}

/// Law: over any run of the pipeline, once the task for (issue, subscriber)
/// is out of the queue — delivered, dead-lettered, or dropped — it never
/// reappears in any later state. Since the worker only sends what a
/// selection returned, and a selection only returns queued tasks, the
/// transport is never handed that pair again: each subscriber receives an
/// issue at most once.
pub proof fn lemma_delivered_stays_delivered(
    states: Seq<StoreView>,
    ops: Seq<StoreOp>,
    start: int,
    issue: int,
    email: Seq<char>,
)
    requires
        is_run(states, ops),
        0 <= start < states.len(),
        0 <= issue < states[start].issues.len(),
        !has_task(states[start].tasks, issue, email),
    ensures
        forall|j: int|
            start <= j < states.len() ==> !has_task((#[trigger] states[j]).tasks, issue, email),
    decreases states.len() - start,
{
    if start < states.len() - 1 {
        let pre = states[start];
        let post = states[start + 1];
        assert(store_step(pre, ops[start], post));
        match ops[start] {
            StoreOp::Publish { owner, key, title, text, html, subs, now, result } => {
                lemma_no_resurrection_publish(
                    pre,
                    post,
                    owner,
                    key,
                    title,
                    text,
                    html,
                    subs,
                    now,
                    result,
                    issue,
                    email,
                );
                // Issues are never removed: the issue still exists afterwards.
                if !completed(pre.idempotency, owner, key) && !in_flight(
                    pre.idempotency,
                    owner,
                    key,
                ) {
                    assert(post.issues.len() == pre.issues.len() + 1);
                } else {
                    assert(post.issues == pre.issues);
                }
            },
            StoreOp::ReportOutcome { issue: i2, email: e2, outcome, now, d } => {
                lemma_no_resurrection_worker(
                    pre,
                    post,
                    i2,
                    e2,
                    outcome,
                    now,
                    d,
                    issue,
                    email,
                );
                assert(post.issues == pre.issues);
            },
        }
        lemma_delivered_stays_delivered(states, ops, start + 1, issue, email);
        assert forall|j: int|
            start <= j < states.len() implies !has_task(
            (#[trigger] states[j]).tasks,
            issue,
            email,
        ) by {
            if j == start {
            } else {
                assert(start + 1 <= j < states.len());
            }
        }
    }
}

} // verus!
