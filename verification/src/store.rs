//! The durable state of the publishing pipeline — newsletter issues, the
//! per-subscriber delivery queue, and the idempotency store — together with
//! the operations of the newsletter issuer and of the delivery worker.
//!
//! All mutation goes through methods whose contracts state, over the
//! mathematical image of the store, exactly which rows appear, change, or
//! disappear. The transition predicates ([`publish_transition`],
//! [`apply_transition`]) are shared with the proof functions in
//! [`crate::laws`].

use vstd::prelude::*;
use crate::delivery::DeliveryTask;
use crate::delivery::SendOutcome;
use crate::delivery::TaskView;
use crate::delivery::RETRY_CEILING;
use crate::delivery::BACKOFF_CAP_SECONDS;
use crate::delivery::spec_backoff_seconds;
use crate::delivery::backoff_seconds;
use crate::idempotency::IdempotencyKey;
use crate::idempotency::IdempotencyRecord;
use crate::idempotency::RecordView;
use crate::response::HttpResponseRecord;
use crate::response::ResponseView;
use crate::response::clone_response;
use crate::response::see_other;
use crate::response::spec_see_other;

verus! {

/// A newsletter issue as persisted: immutable once created.
pub struct NewsletterIssue {
    pub issue_id: u64,
    pub title: String,
    pub text_content: String,
    pub html_content: String,
    pub published_at: u64,
}

/// Mathematical image of a [`NewsletterIssue`].
#[verifier::ext_equal]
pub struct IssueView {
    pub issue_id: int,
    pub title: Seq<char>,
    pub text_content: Seq<char>,
    pub html_content: Seq<char>,
    pub published_at: int,
}

impl View for NewsletterIssue {
    type V = IssueView;

    open spec fn view(&self) -> IssueView {
        IssueView {
            issue_id: self.issue_id as int,
            title: self.title@,
            text_content: self.text_content@,
            html_content: self.html_content@,
            published_at: self.published_at as int,
        }
    }
}

/// Whether a subscriber has confirmed the double-opt-in email.
#[derive(PartialEq, Eq, Structural, Clone, Copy, Debug)]
pub enum SubscriberStatus {
    Confirmed,
    PendingConfirmation,
}

/// One subscriber row as the issuer sees it.
pub struct Subscriber {
    pub email: String,
    pub status: SubscriberStatus,
}

/// Mathematical image of a [`Subscriber`].
#[verifier::ext_equal]
pub struct SubscriberView {
    pub email: Seq<char>,
    pub status: SubscriberStatus,
}

impl View for Subscriber {
    type V = SubscriberView;

    open spec fn view(&self) -> SubscriberView {
        SubscriberView { email: self.email@, status: self.status }
    }
}

/// Why a publish command did not produce a response.
#[derive(PartialEq, Eq, Structural, Clone, Copy, Debug)]
pub enum PublishError {
    /// Another request holds the same idempotency key in flight; the caller
    /// should re-check for the saved response after a short delay rather
    /// than treat this as fatal.
    Conflict,
}

/// What became of a delivery task the worker reported an outcome for.
#[derive(PartialEq, Eq, Structural, Clone, Copy, Debug)]
pub enum TaskDisposition {
    /// Delivered; the task was removed.
    Delivered,
    /// Transient failure; the task stays queued with its retry count
    /// incremented and its pickup time pushed back.
    Rescheduled,
    /// Transient failure past the retry ceiling; the task was removed for
    /// dead-lettering.
    DeadLettered,
    /// Fatal failure; the task was removed without retrying.
    DroppedFatal,
    /// No such task was queued; the store is unchanged.
    NotFound,
}

/// Mathematical image of the whole store.
#[verifier::ext_equal]
pub struct StoreView {
    pub idempotency: Seq<RecordView>,
    pub issues: Seq<IssueView>,
    pub tasks: Seq<TaskView>,
}

/// The durable state of the pipeline: the three tables of the logical
/// schema, under one transaction boundary.
pub struct NewsletterStore {
    idempotency: Vec<IdempotencyRecord>,
    issues: Vec<NewsletterIssue>,
    tasks: Vec<DeliveryTask>,
}

impl View for NewsletterStore {
    type V = StoreView;

    closed spec fn view(&self) -> StoreView {
        StoreView {
            idempotency: Seq::new(self.idempotency@.len(), |i: int| self.idempotency@[i]@),
            issues: Seq::new(self.issues@.len(), |i: int| self.issues@[i]@),
            tasks: Seq::new(self.tasks@.len(), |i: int| self.tasks@[i]@),
        }
    }
}

// ---------------------------------------------------------------------------
// Lookup predicates over the store's image.
// ---------------------------------------------------------------------------

/// Some row holds this (owner, key) pair.
pub open spec fn has_record(recs: Seq<RecordView>, owner: int, key: Seq<char>) -> bool {
    exists|i: int| 0 <= i < recs.len() && (#[trigger] recs[i]).owner_id == owner && recs[i].key == key
}

/// The index of the row holding this (owner, key) pair; meaningful only
/// when [`has_record`] holds and the rows are unique.
pub open spec fn record_index(recs: Seq<RecordView>, owner: int, key: Seq<char>) -> int {
    choose|i: int| 0 <= i < recs.len() && (#[trigger] recs[i]).owner_id == owner && recs[i].key == key
}

/// The row holding this (owner, key) pair, if any.
pub open spec fn record_state(recs: Seq<RecordView>, owner: int, key: Seq<char>) -> Option<RecordView> {
    if has_record(recs, owner, key) {
        Some(recs[record_index(recs, owner, key)])
    } else {
        None
    }
}

/// A row exists and its response has been saved: replays must short-circuit.
pub open spec fn completed(recs: Seq<RecordView>, owner: int, key: Seq<char>) -> bool {
    record_state(recs, owner, key) matches Some(r) && r.response is Some
}

/// A row exists but no response is saved yet: the command is in flight
/// (or was abandoned by a crashed process).
pub open spec fn in_flight(recs: Seq<RecordView>, owner: int, key: Seq<char>) -> bool {
    record_state(recs, owner, key) matches Some(r) && r.response is None
}

/// The saved response of a completed row.
pub open spec fn cached_response(recs: Seq<RecordView>, owner: int, key: Seq<char>) -> ResponseView {
    record_state(recs, owner, key).unwrap().response.unwrap()
}

/// No two rows share an (owner, key) pair.
pub open spec fn unique_records(recs: Seq<RecordView>) -> bool {
    forall|i: int, j: int|
        0 <= i < recs.len() && 0 <= j < recs.len() && (#[trigger] recs[i]).owner_id
            == (#[trigger] recs[j]).owner_id && recs[i].key == recs[j].key ==> i == j
}

/// Some task is queued for this (issue, subscriber) pair.
pub open spec fn has_task(tasks: Seq<TaskView>, issue: int, email: Seq<char>) -> bool {
    exists|k: int|
        0 <= k < tasks.len() && (#[trigger] tasks[k]).issue_id == issue && tasks[k].subscriber_email
            == email
}

/// The index of the task queued for this (issue, subscriber) pair;
/// meaningful only when [`has_task`] holds and the queue is unique.
pub open spec fn task_index(tasks: Seq<TaskView>, issue: int, email: Seq<char>) -> int {
    choose|k: int|
        0 <= k < tasks.len() && (#[trigger] tasks[k]).issue_id == issue && tasks[k].subscriber_email
            == email
}

/// The task queued for this (issue, subscriber) pair, if any.
pub open spec fn task_state(tasks: Seq<TaskView>, issue: int, email: Seq<char>) -> Option<TaskView> {
    if has_task(tasks, issue, email) {
        Some(tasks[task_index(tasks, issue, email)])
    } else {
        None
    }
}

/// No two tasks share an (issue, subscriber) pair: re-enqueueing the same
/// issue can never double a delivery.
pub open spec fn unique_tasks(tasks: Seq<TaskView>) -> bool {
    forall|i: int, j: int|
        0 <= i < tasks.len() && 0 <= j < tasks.len() && (#[trigger] tasks[i]).issue_id
            == (#[trigger] tasks[j]).issue_id && tasks[i].subscriber_email
            == tasks[j].subscriber_email ==> i == j
}

/// The subscriber list holds a confirmed subscriber with this address.
pub open spec fn confirmed_in(subs: Seq<SubscriberView>, email: Seq<char>) -> bool {
    exists|i: int|
        0 <= i < subs.len() && (#[trigger] subs[i]).email == email && subs[i].status
            is Confirmed
}

/// A task is eligible for pickup once the clock reaches its
/// `execute_after`.
pub open spec fn eligible(t: TaskView, now: int) -> bool {
    t.execute_after <= now
}

/// Invariants of the store: idempotency rows unique per (owner, key);
/// issue ids are the creation order; tasks unique per (issue, subscriber),
/// each referring to an existing issue, with retry counts under the
/// ceiling.
pub open spec fn store_wf(s: StoreView) -> bool {
    &&& unique_records(s.idempotency)
    &&& forall|i: int| 0 <= i < s.issues.len() ==> (#[trigger] s.issues[i]).issue_id == i
    &&& unique_tasks(s.tasks)
    &&& forall|k: int|
        0 <= k < s.tasks.len() ==> 0 <= (#[trigger] s.tasks[k]).issue_id < s.issues.len()
            && 0 <= s.tasks[k].n_retries <= RETRY_CEILING
}

// ---------------------------------------------------------------------------
// Lookup lemmas: an index found by scanning is the index the choose-based
// predicates speak of.
// ---------------------------------------------------------------------------

/// With unique rows, any matching index is the record's index.
pub proof fn lemma_record_found(recs: Seq<RecordView>, owner: int, key: Seq<char>, i: int)
    requires
        unique_records(recs),
        0 <= i < recs.len(),
        recs[i].owner_id == owner,
        recs[i].key == key,
    ensures
        has_record(recs, owner, key),
        record_index(recs, owner, key) == i,
        record_state(recs, owner, key) == Some(recs[i]),
{
    assert(has_record(recs, owner, key));
    let j = record_index(recs, owner, key);
    assert(recs[j].owner_id == owner && recs[j].key == key);
}

/// With a unique queue, any matching index is the task's index.
pub proof fn lemma_task_found(tasks: Seq<TaskView>, issue: int, email: Seq<char>, k: int)
    requires
        unique_tasks(tasks),
        0 <= k < tasks.len(),
        tasks[k].issue_id == issue,
        tasks[k].subscriber_email == email,
    ensures
        has_task(tasks, issue, email),
        task_index(tasks, issue, email) == k,
        task_state(tasks, issue, email) == Some(tasks[k]),
{
    assert(has_task(tasks, issue, email));
    let j = task_index(tasks, issue, email);
    assert(tasks[j].issue_id == issue && tasks[j].subscriber_email == email);
}

// ---------------------------------------------------------------------------
// The idempotency store contract.
// ---------------------------------------------------------------------------

/// What reserving a key returns: the saved response of a completed command,
/// a fresh reservation the caller must now execute under, or notice that
/// another request holds the key in flight.
pub enum ReserveOutcome {
    Cached(HttpResponseRecord),
    Reserved,
    InProgress,
}

impl NewsletterStore {
    /// An empty store.
    pub fn new() -> (r: NewsletterStore)
        ensures
            r@.idempotency =~= Seq::<RecordView>::empty(),
            r@.issues =~= Seq::<IssueView>::empty(),
            r@.tasks =~= Seq::<TaskView>::empty(),
            store_wf(r@),
    {
        NewsletterStore { idempotency: Vec::new(), issues: Vec::new(), tasks: Vec::new() }
    }

    /// Index of the idempotency row for (owner, key), scanning the table.
    fn find_record(&self, owner_id: u128, key: &str) -> (r: Option<usize>)
        ensures
            r matches Some(i) ==> i < self@.idempotency.len()
                && self@.idempotency[i as int].owner_id == owner_id as int
                && self@.idempotency[i as int].key == key@,
            r is None ==> !has_record(self@.idempotency, owner_id as int, key@),
    {
        let key_string = key.to_owned();
        let mut i: usize = 0;
        while i < self.idempotency.len()
            invariant
                i <= self.idempotency.len(),
                key_string@ == key@,
                forall|k: int|
                    0 <= k < i ==> !((#[trigger] self@.idempotency[k]).owner_id == owner_id as int
                        && self@.idempotency[k].key == key@),
            decreases self.idempotency.len() - i,
        {
            if self.idempotency[i].owner_id == owner_id && self.idempotency[i].key == key_string {
                return Some(i);
            }
            i = i + 1;
        }
        None
    }

    /// Reserve the key or fetch what an earlier command left: the saved
    /// response if the command completed (the caller must short-circuit),
    /// a notice that it is still in flight, or a fresh in-flight row.
    ///
    /// Two concurrent requests with the same pair race on this insert; the
    /// database's uniqueness constraint serializes them, so one sees
    /// `Reserved` and the other `InProgress` or `Cached`.
    pub fn reserve_or_fetch(&mut self, owner_id: u128, key: &IdempotencyKey, now: u64) -> (r:
        ReserveOutcome)
        requires
            store_wf(old(self)@),
        ensures
            store_wf(final(self)@),
            completed(old(self)@.idempotency, owner_id as int, key@) ==> final(self)@ == old(self)@
                && (r matches ReserveOutcome::Cached(resp) && resp@ == cached_response(
                old(self)@.idempotency,
                owner_id as int,
                key@,
            )),
            in_flight(old(self)@.idempotency, owner_id as int, key@) ==> (final(self)@ == old(self)@
                && r is InProgress),
            !has_record(old(self)@.idempotency, owner_id as int, key@) ==> (r is Reserved
                && final(self)@.idempotency =~= old(self)@.idempotency.push(
                RecordView {
                    owner_id: owner_id as int,
                    key: key@,
                    response: None,
                    created_at: now as int,
                },
            ) && final(self)@.issues == old(self)@.issues && final(self)@.tasks == old(self)@.tasks),
    {
        match self.find_record(owner_id, key.as_str()) {
            Some(i) => {
                proof {
                    lemma_record_found(
                        self@.idempotency,
                        owner_id as int,
                        key@,
                        i as int,
                    );
                }
                match &self.idempotency[i].response {
                    Some(resp) => ReserveOutcome::Cached(clone_response(resp)),
                    None => ReserveOutcome::InProgress,
                }
            },
            None => {
                let ghost pre = self@;
                self.idempotency.push(
                    IdempotencyRecord {
                        owner_id,
                        key: key.as_str().to_owned(),
                        response: None,
                        created_at: now,
                    },
                );
                proof {
                    assert(self@.idempotency =~= pre.idempotency.push(
                        RecordView {
                            owner_id: owner_id as int,
                            key: key@,
                            response: None,
                            created_at: now as int,
                        },
                    ));
                    assert(self@.issues =~= pre.issues);
                    assert(self@.tasks =~= pre.tasks);
                    assert forall|x: int, y: int|
                        0 <= x < self@.idempotency.len() && 0 <= y < self@.idempotency.len()
                            && (#[trigger] self@.idempotency[x]).owner_id
                            == (#[trigger] self@.idempotency[y]).owner_id
                            && self@.idempotency[x].key == self@.idempotency[y].key
                        implies x == y by {
                        if x != y {
                            let last = pre.idempotency.len() as int;
                            if x == last {
                                assert(has_record(pre.idempotency, owner_id as int, key@));
                            } else if y == last {
                                assert(has_record(pre.idempotency, owner_id as int, key@));
                            }
                        }
                    }
                }
                ReserveOutcome::Reserved
            },
        }
    }

    /// Attach the response to the in-flight row for (owner, key). Returns
    /// whether a row was completed; a missing or already completed row is
    /// left untouched.
    pub fn save_response(&mut self, owner_id: u128, key: &IdempotencyKey, response:
        HttpResponseRecord) -> (ok: bool)
        requires
            store_wf(old(self)@),
        ensures
            store_wf(final(self)@),
            in_flight(old(self)@.idempotency, owner_id as int, key@) ==> (ok && final(self)@.idempotency =~= old(self)@.idempotency.update(
                record_index(old(self)@.idempotency, owner_id as int, key@),
                RecordView {
                    response: Some(response@),
                    ..old(self)@.idempotency[record_index(
                        old(self)@.idempotency,
                        owner_id as int,
                        key@,
                    )]
                },
            ) && final(self)@.issues == old(self)@.issues && final(self)@.tasks == old(self)@.tasks),
            !in_flight(old(self)@.idempotency, owner_id as int, key@) ==> (!ok && final(self)@
                == old(self)@),
    {
        let ghost pre = self@;
        match self.find_record(owner_id, key.as_str()) {
            Some(i) => {
                proof {
                    lemma_record_found(pre.idempotency, owner_id as int, key@, i as int);
                }
                if self.idempotency[i].response.is_none() {
                    let owner_c = self.idempotency[i].owner_id;
                    let key_c = self.idempotency[i].key.clone();
                    let created_c = self.idempotency[i].created_at;
                    self.idempotency[i] = IdempotencyRecord {
                        owner_id: owner_c,
                        key: key_c,
                        response: Some(response),
                        created_at: created_c,
                    };
                    proof {
                        assert(self@.idempotency =~= pre.idempotency.update(
                            i as int,
                            RecordView {
                                response: Some(response@),
                                ..pre.idempotency[i as int]
                            },
                        ));
                        assert(self@.issues =~= pre.issues);
                        assert(self@.tasks =~= pre.tasks);
                    }
                    true
                } else {
                    proof {
                        assert(self@ =~= pre);
                    }
                    false
                }
            },
            None => {
                proof {
                    assert(self@ =~= pre);
                }
                false
            },
        }
    }
}

} // verus!

verus! {

// ---------------------------------------------------------------------------
// The newsletter issuer.
// ---------------------------------------------------------------------------

/// Where the acknowledgement redirects to.
pub open spec fn ack_location() -> Seq<char> {
    "/admin/newsletters"@
}

/// The fixed acknowledgement of an accepted publish command. It is the same
/// for the first execution and for every replay, which is what makes the
/// saved response re-derivable.
pub open spec fn ack_response() -> ResponseView {
    spec_see_other(ack_location())
}

/// The images of a subscriber list.
pub open spec fn subscribers_view(subs: Seq<Subscriber>) -> Seq<SubscriberView> {
    Seq::new(subs.len(), |i: int| subs[i]@)
}

/// The image of a publish result.
pub open spec fn publish_result_view(r: Result<HttpResponseRecord, PublishError>) -> Result<
    ResponseView,
    PublishError,
> {
    match r {
        Ok(resp) => Ok(resp@),
        Err(e) => Err(e),
    }
}

/// What one first-time publish command does: one new issue at the next id,
/// one delivery task per distinct confirmed subscriber address (and none
/// for anyone else), and one completed idempotency row holding the
/// acknowledgement. Nothing else changes.
pub open spec fn fresh_publish(
    pre: StoreView,
    post: StoreView,
    owner: int,
    key: Seq<char>,
    title: Seq<char>,
    text: Seq<char>,
    html: Seq<char>,
    subs: Seq<SubscriberView>,
    now: int,
) -> bool {
    let new_id = pre.issues.len() as int;
    &&& post.issues == pre.issues.push(
        IssueView {
            issue_id: new_id,
            title,
            text_content: text,
            html_content: html,
            published_at: now,
        },
    )
    &&& post.idempotency == pre.idempotency.push(
        RecordView { owner_id: owner, key, response: Some(ack_response()), created_at: now },
    )
    &&& post.tasks.len() >= pre.tasks.len()
    &&& post.tasks.take(pre.tasks.len() as int) == pre.tasks
    &&& forall|j: int|
        pre.tasks.len() <= j < post.tasks.len() ==> (#[trigger] post.tasks[j]).issue_id == new_id
            && post.tasks[j].n_retries == 0 && post.tasks[j].execute_after == now
    &&& forall|e: Seq<char>|
        #![trigger has_task(post.tasks, pre.issues.len() as int, e)]
        #![trigger confirmed_in(subs, e)]
        has_task(post.tasks, pre.issues.len() as int, e) <==> confirmed_in(subs, e)
}

/// The full contract of the publish command, by the state the idempotency
/// store is in for (owner, key): a completed command is replayed from the
/// cache with no writes; an in-flight one is a conflict with no writes;
/// otherwise the command executes once.
pub open spec fn publish_transition(
    pre: StoreView,
    post: StoreView,
    owner: int,
    key: Seq<char>,
    title: Seq<char>,
    text: Seq<char>,
    html: Seq<char>,
    subs: Seq<SubscriberView>,
    now: int,
    result: Result<ResponseView, PublishError>,
) -> bool {
    if completed(pre.idempotency, owner, key) {
        post == pre && result == Ok::<ResponseView, PublishError>(
            cached_response(pre.idempotency, owner, key),
        )
    } else if in_flight(pre.idempotency, owner, key) {
        post == pre && result == Err::<ResponseView, PublishError>(PublishError::Conflict)
    } else {
        result == Ok::<ResponseView, PublishError>(ack_response()) && fresh_publish(
            pre,
            post,
            owner,
            key,
            title,
            text,
            html,
            subs,
            now,
        )
    }
}

impl NewsletterStore {
    /// Whether a task is queued for this (issue, subscriber) pair.
    fn contains_task(&self, issue_id: u64, email: &String) -> (r: bool)
        ensures
            r == has_task(self@.tasks, issue_id as int, email@),
    {
        let mut k: usize = 0;
        while k < self.tasks.len()
            invariant
                k <= self.tasks.len(),
                forall|t: int|
                    0 <= t < k ==> !((#[trigger] self@.tasks[t]).issue_id == issue_id as int
                        && self@.tasks[t].subscriber_email == email@),
            decreases self.tasks.len() - k,
        {
            if self.tasks[k].issue_id == issue_id && self.tasks[k].subscriber_email == *email {
                proof {
                    assert(self@.tasks[k as int].issue_id == issue_id as int
                        && self@.tasks[k as int].subscriber_email == email@);
                }
                return true;
            }
            k = k + 1;
        }
        false
    }

    /// The publish command: within one atomic unit of work, reserve the
    /// idempotency key, persist the issue, enqueue one delivery task per
    /// confirmed subscriber, save the acknowledgement, and return it. A
    /// replay of a completed command returns the saved acknowledgement and
    /// writes nothing; a key held in flight by a concurrent request yields
    /// a conflict the caller recovers from by polling.
    pub fn publish(
        &mut self,
        owner_id: u128,
        key: &IdempotencyKey,
        title: &str,
        text_content: &str,
        html_content: &str,
        subscribers: &Vec<Subscriber>,
        now: u64,
    ) -> (r: Result<HttpResponseRecord, PublishError>)
        requires
            store_wf(old(self)@),
        ensures
            store_wf(final(self)@),
            publish_transition(
                old(self)@,
                final(self)@,
                owner_id as int,
                key@,
                title@,
                text_content@,
                html_content@,
                subscribers_view(subscribers@),
                now as int,
                publish_result_view(r),
            ),
    {
        let ghost pre = self@;
        match self.reserve_or_fetch(owner_id, key, now) {
            ReserveOutcome::Cached(resp) => {
                proof {
                    assert(completed(pre.idempotency, owner_id as int, key@));
                }
                Ok(resp)
            },
            ReserveOutcome::InProgress => {
                proof {
                    assert(in_flight(pre.idempotency, owner_id as int, key@));
                }
                Err(PublishError::Conflict)
            },
            ReserveOutcome::Reserved => {
                proof {
                    assert(!has_record(pre.idempotency, owner_id as int, key@));
                }
                let ghost sv = subscribers_view(subscribers@);
                let issue_id: u64 = self.issues.len() as u64;
                let ghost new_id = pre.issues.len() as int;
                let ghost placeholder = RecordView {
                    owner_id: owner_id as int,
                    key: key@,
                    response: None,
                    created_at: now as int,
                };
                let ghost new_issue = IssueView {
                    issue_id: new_id,
                    title: title@,
                    text_content: text_content@,
                    html_content: html_content@,
                    published_at: now as int,
                };
                self.issues.push(
                    NewsletterIssue {
                        issue_id,
                        title: title.to_owned(),
                        text_content: text_content.to_owned(),
                        html_content: html_content.to_owned(),
                        published_at: now,
                    },
                );
                proof {
                    assert(self@.issues =~= pre.issues.push(new_issue));
                    assert(self@.tasks =~= pre.tasks);
                    assert(self@.idempotency =~= pre.idempotency.push(placeholder));
                    assert(self@.tasks.take(pre.tasks.len() as int) =~= pre.tasks);
                    assert forall|e: Seq<char>|
                        #![trigger has_task(self@.tasks, new_id, e)]
                        #![trigger confirmed_in(sv.take(0), e)]
                        has_task(self@.tasks, new_id, e) <==> confirmed_in(sv.take(0), e) by {
                        if has_task(self@.tasks, new_id, e) {
                            let k = choose|k: int|
                                0 <= k < self@.tasks.len() && (#[trigger] self@.tasks[k]).issue_id
                                    == new_id && self@.tasks[k].subscriber_email == e;
                            assert(pre.tasks[k].issue_id < new_id);
                        }
                    }
                }
                let mut s: usize = 0;
                while s < subscribers.len()
                    invariant
                        s <= subscribers.len(),
                        sv == subscribers_view(subscribers@),
                        sv.len() == subscribers.len(),
                        new_id == pre.issues.len() as int,
                        issue_id as int == new_id,
                        self@.idempotency == pre.idempotency.push(placeholder),
                        unique_records(self@.idempotency),
                        self@.issues == pre.issues.push(new_issue),
                        forall|i: int|
                            0 <= i < self@.issues.len() ==> (#[trigger] self@.issues[i]).issue_id
                                == i,
                        self@.tasks.len() >= pre.tasks.len(),
                        self@.tasks.take(pre.tasks.len() as int) == pre.tasks,
                        forall|j: int|
                            pre.tasks.len() <= j < self@.tasks.len() ==> (#[trigger] self@.tasks[j]).issue_id
                                == new_id && self@.tasks[j].n_retries == 0
                                && self@.tasks[j].execute_after == now as int,
                        forall|e: Seq<char>|
                            #![trigger has_task(self@.tasks, new_id, e)]
                            #![trigger confirmed_in(sv.take(s as int), e)]
                            has_task(self@.tasks, new_id, e) <==> confirmed_in(
                                sv.take(s as int),
                                e,
                            ),
                        unique_tasks(self@.tasks),
                        forall|k: int|
                            0 <= k < self@.tasks.len() ==> 0 <= (#[trigger] self@.tasks[k]).issue_id
                                < self@.issues.len() && 0 <= self@.tasks[k].n_retries
                                <= RETRY_CEILING,
                    decreases subscribers.len() - s,
                {
                    let ghost tasks_before = self@.tasks;
                    let is_confirmed = match subscribers[s].status {
                        SubscriberStatus::Confirmed => true,
                        SubscriberStatus::PendingConfirmation => false,
                    };
                    if is_confirmed && !self.contains_task(issue_id, &subscribers[s].email) {
                        let email = subscribers[s].email.clone();
                        self.tasks.push(
                            DeliveryTask {
                                issue_id,
                                subscriber_email: email,
                                n_retries: 0,
                                execute_after: now,
                            },
                        );
                        proof {
                            let t = TaskView {
                                issue_id: new_id,
                                subscriber_email: sv[s as int].email,
                                n_retries: 0,
                                execute_after: now as int,
                            };
                            assert(self@.tasks =~= tasks_before.push(t));
                            assert(self@.tasks.take(pre.tasks.len() as int) =~= pre.tasks);
                            assert forall|x: int, y: int|
                                0 <= x < self@.tasks.len() && 0 <= y < self@.tasks.len()
                                    && (#[trigger] self@.tasks[x]).issue_id
                                    == (#[trigger] self@.tasks[y]).issue_id
                                    && self@.tasks[x].subscriber_email
                                    == self@.tasks[y].subscriber_email implies x == y by {
                                let last = tasks_before.len() as int;
                                if x != y {
                                    if x == last {
                                        assert(has_task(tasks_before, new_id, t.subscriber_email));
                                    } else if y == last {
                                        assert(has_task(tasks_before, new_id, t.subscriber_email));
                                    }
                                }
                            }
                        }
                    }
                    proof {
                        let tasks_now = self@.tasks;
                        assert(sv.take(s + 1).drop_last() =~= sv.take(s as int));
                        assert(sv.take(s + 1).last() == sv[s as int]);
                        assert forall|e: Seq<char>|
                            #![trigger has_task(tasks_now, new_id, e)]
                            #![trigger confirmed_in(sv.take(s + 1), e)]
                            has_task(tasks_now, new_id, e) <==> confirmed_in(
                                sv.take(s + 1),
                                e,
                            ) by {
                            if has_task(tasks_now, new_id, e) {
                                let k = choose|k: int|
                                    0 <= k < tasks_now.len() && (#[trigger] tasks_now[k]).issue_id
                                        == new_id && tasks_now[k].subscriber_email == e;
                                if k < tasks_before.len() {
                                    assert(tasks_before[k] == tasks_now[k]);
                                    assert(has_task(tasks_before, new_id, e));
                                    assert(confirmed_in(sv.take(s as int), e));
                                    let w = choose|i: int|
                                        0 <= i < sv.take(s as int).len() && (#[trigger] sv.take(
                                            s as int,
                                        )[i]).email == e && sv.take(s as int)[i].status
                                            is Confirmed;
                                    assert(sv.take(s + 1)[w].email == e && sv.take(s + 1)[w].status
                                        is Confirmed);
                                    assert(confirmed_in(sv.take(s + 1), e));
                                } else {
                                    assert(e == sv[s as int].email);
                                    assert(sv[s as int].status is Confirmed);
                                    assert(sv.take(s + 1)[s as int].email == e);
                                    assert(confirmed_in(sv.take(s + 1), e));
                                }
                            }
                            if confirmed_in(sv.take(s + 1), e) {
                                let i = choose|i: int|
                                    0 <= i < sv.take(s + 1).len() && (#[trigger] sv.take(s + 1)[i]).email
                                        == e && sv.take(s + 1)[i].status is Confirmed;
                                if i < s as int {
                                    assert(sv.take(s as int)[i] == sv.take(s + 1)[i]);
                                    assert(confirmed_in(sv.take(s as int), e));
                                    assert(has_task(tasks_before, new_id, e));
                                    let k = choose|k: int|
                                        0 <= k < tasks_before.len() && (#[trigger] tasks_before[k]).issue_id
                                            == new_id && tasks_before[k].subscriber_email == e;
                                    assert(tasks_now[k] == tasks_before[k]);
                                    assert(has_task(tasks_now, new_id, e));
                                } else {
                                    assert(e == sv[s as int].email && sv[s as int].status
                                        is Confirmed);
                                    if has_task(tasks_before, new_id, e) {
                                        let k = choose|k: int|
                                            0 <= k < tasks_before.len() && (#[trigger] tasks_before[k]).issue_id
                                                == new_id && tasks_before[k].subscriber_email == e;
                                        assert(tasks_now[k] == tasks_before[k]);
                                        assert(has_task(tasks_now, new_id, e));
                                    } else {
                                        assert(tasks_now[tasks_now.len() - 1].issue_id == new_id
                                            && tasks_now[tasks_now.len() - 1].subscriber_email
                                            == e);
                                        assert(has_task(tasks_now, new_id, e));
                                    }
                                }
                            }
                        }
                    }
                    s = s + 1;
                }
                proof {
                    assert(sv.take(subscribers.len() as int) =~= sv);
                }
                let resp = see_other("/admin/newsletters");
                proof {
                    lemma_record_found(
                        self@.idempotency,
                        owner_id as int,
                        key@,
                        pre.idempotency.len() as int,
                    );
                    assert(in_flight(self@.idempotency, owner_id as int, key@));
                }
                let ghost mid = self@;
                let resp_to_save = clone_response(&resp);
                let saved = self.save_response(owner_id, key, resp_to_save);
                proof {
                    assert(saved);
                    assert(resp@ == ack_response());
                    assert(self@.idempotency =~= pre.idempotency.push(
                        RecordView {
                            owner_id: owner_id as int,
                            key: key@,
                            response: Some(ack_response()),
                            created_at: now as int,
                        },
                    ));
                    assert(fresh_publish(
                        pre,
                        self@,
                        owner_id as int,
                        key@,
                        title@,
                        text_content@,
                        html_content@,
                        sv,
                        now as int,
                    ));
                }
                Ok(resp)
            },
        }
    }
}

} // verus!

verus! {

// ---------------------------------------------------------------------------
// The delivery worker.
// ---------------------------------------------------------------------------

/// The task for (issue, subscriber) left the queue; nothing else changed.
pub open spec fn task_removed(pre: StoreView, post: StoreView, issue: int, email: Seq<char>) -> bool {
    &&& post.idempotency == pre.idempotency
    &&& post.issues == pre.issues
    &&& post.tasks == pre.tasks.remove(task_index(pre.tasks, issue, email))
}

/// The task for (issue, subscriber) stays queued with one more recorded
/// failure and a pickup time pushed back by the backoff; nothing else
/// changed.
pub open spec fn task_rescheduled(
    pre: StoreView,
    post: StoreView,
    issue: int,
    email: Seq<char>,
    now: int,
) -> bool {
    let k = task_index(pre.tasks, issue, email);
    let t = pre.tasks[k];
    &&& post.idempotency == pre.idempotency
    &&& post.issues == pre.issues
    &&& post.tasks == pre.tasks.update(
        k,
        TaskView {
            n_retries: t.n_retries + 1,
            execute_after: now + spec_backoff_seconds((t.n_retries + 1) as nat),
            ..t
        },
    )
}

/// The full contract of reporting a transport outcome for one task:
/// success and fatal failure remove the task (delivered, and dropped,
/// respectively); a transient failure reschedules it with backoff, or
/// dead-letters it once the retry ceiling is passed; an unknown task
/// changes nothing.
pub open spec fn apply_transition(
    pre: StoreView,
    post: StoreView,
    issue: int,
    email: Seq<char>,
    outcome: SendOutcome,
    now: int,
    d: TaskDisposition,
) -> bool {
    if !has_task(pre.tasks, issue, email) {
        post == pre && d == TaskDisposition::NotFound
    } else {
        let t = task_state(pre.tasks, issue, email).unwrap();
        match outcome {
            SendOutcome::Success => d == TaskDisposition::Delivered && task_removed(
                pre,
                post,
                issue,
                email,
            ),
            SendOutcome::FatalFailure => d == TaskDisposition::DroppedFatal && task_removed(
                pre,
                post,
                issue,
                email,
            ),
            SendOutcome::TransientFailure => {
                if t.n_retries + 1 > RETRY_CEILING {
                    d == TaskDisposition::DeadLettered && task_removed(pre, post, issue, email)
                } else {
                    d == TaskDisposition::Rescheduled && task_rescheduled(
                        pre,
                        post,
                        issue,
                        email,
                        now,
                    )
                }
            },
        }
    }
}

impl NewsletterStore {
    /// Index of the task queued for (issue, subscriber), scanning the
    /// queue.
    fn find_task(&self, issue_id: u64, email: &String) -> (r: Option<usize>)
        ensures
            r matches Some(k) ==> k < self@.tasks.len() && self@.tasks[k as int].issue_id
                == issue_id as int && self@.tasks[k as int].subscriber_email == email@,
            r is None ==> !has_task(self@.tasks, issue_id as int, email@),
    {
        let mut k: usize = 0;
        while k < self.tasks.len()
            invariant
                k <= self.tasks.len(),
                forall|t: int|
                    0 <= t < k ==> !((#[trigger] self@.tasks[t]).issue_id == issue_id as int
                        && self@.tasks[t].subscriber_email == email@),
            decreases self.tasks.len() - k,
        {
            if self.tasks[k].issue_id == issue_id && self.tasks[k].subscriber_email == *email {
                return Some(k);
            }
            k = k + 1;
        }
        None
    }

    /// One dequeue of the delivery worker: the oldest task that is eligible
    /// now, if any. (In the database this select carries a row-level
    /// skip-locked lock, so concurrent workers each claim a different row;
    /// here the claim is the serialized call itself.)
    pub fn select_task(&self, now: u64) -> (r: Option<DeliveryTask>)
        requires
            store_wf(self@),
        ensures
            r matches Some(t) ==> task_state(self@.tasks, t@.issue_id, t@.subscriber_email)
                == Some(t@) && eligible(t@, now as int) && (forall|k: int|
                0 <= k < self@.tasks.len() && eligible(
                    #[trigger] self@.tasks[k],
                    now as int,
                ) ==> t@.execute_after <= self@.tasks[k].execute_after),
            r is None ==> forall|k: int|
                0 <= k < self@.tasks.len() ==> !eligible(#[trigger] self@.tasks[k], now as int),
    {
        let mut best: Option<usize> = None;
        let mut k: usize = 0;
        while k < self.tasks.len()
            invariant
                k <= self.tasks.len(),
                best matches Some(b) ==> b < k && eligible(self@.tasks[b as int], now as int)
                    && (forall|t: int|
                    0 <= t < k && eligible(#[trigger] self@.tasks[t], now as int)
                        ==> self@.tasks[b as int].execute_after <= self@.tasks[t].execute_after),
                best is None ==> forall|t: int|
                    0 <= t < k ==> !eligible(#[trigger] self@.tasks[t], now as int),
            decreases self.tasks.len() - k,
        {
            if self.tasks[k].execute_after <= now {
                match best {
                    Some(b) => {
                        if self.tasks[k].execute_after < self.tasks[b].execute_after {
                            best = Some(k);
                        }
                    },
                    None => {
                        best = Some(k);
                    },
                }
            }
            k = k + 1;
        }
        match best {
            Some(b) => {
                let t = DeliveryTask {
                    issue_id: self.tasks[b].issue_id,
                    subscriber_email: self.tasks[b].subscriber_email.clone(),
                    n_retries: self.tasks[b].n_retries,
                    execute_after: self.tasks[b].execute_after,
                };
                proof {
                    assert(t@ == self@.tasks[b as int]);
                    lemma_task_found(
                        self@.tasks,
                        t@.issue_id,
                        t@.subscriber_email,
                        b as int,
                    );
                }
                Some(t)
            },
            None => None,
        }
    }

    /// Record the transport's outcome for one task: delete it on success or
    /// fatal failure, reschedule it with exponential backoff on a transient
    /// failure, and dead-letter it once the retry ceiling is passed.
    pub fn apply_outcome(
        &mut self,
        issue_id: u64,
        subscriber_email: &String,
        outcome: SendOutcome,
        now: u64,
    ) -> (d: TaskDisposition)
        requires
            store_wf(old(self)@),
            now + BACKOFF_CAP_SECONDS <= u64::MAX,
        ensures
            store_wf(final(self)@),
            apply_transition(
                old(self)@,
                final(self)@,
                issue_id as int,
                subscriber_email@,
                outcome,
                now as int,
                d,
            ),
    {
        let ghost pre = self@;
        match self.find_task(issue_id, subscriber_email) {
            None => TaskDisposition::NotFound,
            Some(k) => {
                proof {
                    lemma_task_found(pre.tasks, issue_id as int, subscriber_email@, k as int);
                }
                match outcome {
                    SendOutcome::Success => {
                        self.tasks.remove(k);
                        proof {
                            assert(self@.tasks =~= pre.tasks.remove(k as int));
                            assert(self@.idempotency =~= pre.idempotency);
                            assert(self@.issues =~= pre.issues);
                            lemma_unique_after_remove(pre.tasks, k as int);
                        }
                        TaskDisposition::Delivered
                    },
                    SendOutcome::FatalFailure => {
                        self.tasks.remove(k);
                        proof {
                            assert(self@.tasks =~= pre.tasks.remove(k as int));
                            assert(self@.idempotency =~= pre.idempotency);
                            assert(self@.issues =~= pre.issues);
                            lemma_unique_after_remove(pre.tasks, k as int);
                        }
                        TaskDisposition::DroppedFatal
                    },
                    SendOutcome::TransientFailure => {
                        let n = self.tasks[k].n_retries;
                        if n + 1 > RETRY_CEILING {
                            self.tasks.remove(k);
                            proof {
                                assert(self@.tasks =~= pre.tasks.remove(k as int));
                                assert(self@.idempotency =~= pre.idempotency);
                                assert(self@.issues =~= pre.issues);
                                lemma_unique_after_remove(pre.tasks, k as int);
                            }
                            TaskDisposition::DeadLettered
                        } else {
                            let delay = backoff_seconds(n + 1);
                            let email_c = self.tasks[k].subscriber_email.clone();
                            self.tasks[k] = DeliveryTask {
                                issue_id,
                                subscriber_email: email_c,
                                n_retries: n + 1,
                                execute_after: now + delay,
                            };
                            proof {
                                let t = pre.tasks[k as int];
                                assert(self@.tasks =~= pre.tasks.update(
                                    k as int,
                                    TaskView {
                                        n_retries: t.n_retries + 1,
                                        execute_after: now + spec_backoff_seconds(
                                            (t.n_retries + 1) as nat,
                                        ),
                                        ..t
                                    },
                                ));
                                assert(self@.idempotency =~= pre.idempotency);
                                assert(self@.issues =~= pre.issues);
                            }
                            TaskDisposition::Rescheduled
                        }
                    },
                }
            },
        }
    }
}

/// Removing a task keeps the remaining queue unique.
pub proof fn lemma_unique_after_remove(tasks: Seq<TaskView>, k: int)
    requires
        unique_tasks(tasks),
        0 <= k < tasks.len(),
    ensures
        unique_tasks(tasks.remove(k)),
{
    let post = tasks.remove(k);
    assert forall|x: int, y: int|
        0 <= x < post.len() && 0 <= y < post.len() && (#[trigger] post[x]).issue_id
            == (#[trigger] post[y]).issue_id && post[x].subscriber_email
            == post[y].subscriber_email implies x == y by {
        let x0 = if x < k { x } else { x + 1 };
        let y0 = if y < k { y } else { y + 1 };
        assert(post[x] == tasks[x0]);
        assert(post[y] == tasks[y0]);
    }
}

} // verus!

verus! {

/// How many tasks are queued for one issue.
pub open spec fn count_for_issue(tasks: Seq<TaskView>, issue: int) -> nat
    decreases tasks.len(),
{
    if tasks.len() == 0 {
        0
    } else {
        count_for_issue(tasks.drop_last(), issue) + if tasks.last().issue_id == issue {
            1nat
        } else {
            0nat
        }
    }
}

impl NewsletterStore {
    /// How many newsletter issues have been created.
    pub fn issue_count(&self) -> (n: usize)
        ensures
            n == self@.issues.len(),
    {
        self.issues.len()
    }

    /// How many delivery tasks are queued, over all issues.
    pub fn task_count(&self) -> (n: usize)
        ensures
            n == self@.tasks.len(),
    {
        self.tasks.len()
    }

    /// How many delivery tasks are queued for one issue.
    pub fn count_tasks_for_issue(&self, issue_id: u64) -> (n: usize)
        ensures
            n == count_for_issue(self@.tasks, issue_id as int),
    {
        let mut n: usize = 0;
        let mut k: usize = 0;
        while k < self.tasks.len()
            invariant
                k <= self.tasks.len(),
                n <= k,
                n == count_for_issue(self@.tasks.take(k as int), issue_id as int),
            decreases self.tasks.len() - k,
        {
            proof {
                assert(self@.tasks.take(k + 1).drop_last() =~= self@.tasks.take(k as int));
                assert(self@.tasks.take(k + 1).last() == self@.tasks[k as int]);
            }
            if self.tasks[k].issue_id == issue_id {
                n = n + 1;
            }
            k = k + 1;
        }
        proof {
            assert(self@.tasks.take(self@.tasks.len() as int) =~= self@.tasks);
        }
        n
    }

    /// The issue persisted under this id, if any.
    pub fn get_issue(&self, issue_id: u64) -> (r: Option<&NewsletterIssue>)
        ensures
            issue_id < self@.issues.len() ==> (r matches Some(issue) && issue@ == self@.issues[issue_id as int]),
            issue_id >= self@.issues.len() ==> r is None,
    {
        if issue_id < self.issues.len() as u64 {
            Some(&self.issues[issue_id as usize])
        } else {
            None
        }
    }

    /// The queued task for (issue, subscriber), as its retry count and
    /// earliest pickup time.
    pub fn get_task(&self, issue_id: u64, subscriber_email: &String) -> (r: Option<(u32, u64)>)
        requires
            store_wf(self@),
        ensures
            r matches Some(p) ==> task_state(self@.tasks, issue_id as int, subscriber_email@)
                matches Some(t) && p.0 == t.n_retries && p.1 == t.execute_after,
            r is None ==> !has_task(self@.tasks, issue_id as int, subscriber_email@),
    {
        match self.find_task(issue_id, subscriber_email) {
            Some(k) => {
                proof {
                    lemma_task_found(
                        self@.tasks,
                        issue_id as int,
                        subscriber_email@,
                        k as int,
                    );
                }
                Some((self.tasks[k].n_retries, self.tasks[k].execute_after))
            },
            None => None,
        }
    }

    /// The saved response of a completed command, or nothing while the key
    /// is free or still in flight.
    pub fn get_saved_response(&self, owner_id: u128, key: &IdempotencyKey) -> (r: Option<
        HttpResponseRecord,
    >)
        requires
            store_wf(self@),
        ensures
            completed(self@.idempotency, owner_id as int, key@) ==> (r matches Some(resp) && resp@
                == cached_response(self@.idempotency, owner_id as int, key@)),
            !completed(self@.idempotency, owner_id as int, key@) ==> r is None,
    {
        match self.find_record(owner_id, key.as_str()) {
            Some(i) => {
                proof {
                    lemma_record_found(
                        self@.idempotency,
                        owner_id as int,
                        key@,
                        i as int,
                    );
                }
                match &self.idempotency[i].response {
                    Some(resp) => Some(clone_response(resp)),
                    None => None,
                }
            },
            None => None,
        }
    }
}

} // verus!
