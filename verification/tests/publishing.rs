use zero2prod::delivery::backoff_seconds;
use zero2prod::delivery::SendOutcome;
use zero2prod::delivery::BACKOFF_CAP_SECONDS;
use zero2prod::idempotency::IdempotencyKey;
use zero2prod::idempotency::KeyError;
use zero2prod::response::HttpResponseRecord;
use zero2prod::store::NewsletterStore;
use zero2prod::store::PublishError;
use zero2prod::store::ReserveOutcome;
use zero2prod::store::Subscriber;
use zero2prod::store::SubscriberStatus;
use zero2prod::store::TaskDisposition;

const OWNER: u128 = 7;

fn key(s: &str) -> IdempotencyKey {
    IdempotencyKey::try_from(s.to_string()).unwrap()
}

fn confirmed(email: &str) -> Subscriber {
    Subscriber { email: email.to_string(), status: SubscriberStatus::Confirmed }
}

fn pending(email: &str) -> Subscriber {
    Subscriber { email: email.to_string(), status: SubscriberStatus::PendingConfirmation }
}

fn same_response(a: &HttpResponseRecord, b: &HttpResponseRecord) -> bool {
    a.status_code == b.status_code && a.headers == b.headers && a.body == b.body
}

#[test]
fn publish_returns_a_redirect_acknowledgement() {
    let mut store = NewsletterStore::new();
    let subs = vec![confirmed("a@example.com")];
    let k = key("request-1");
    let resp = store.publish(OWNER, &k, "Newsletter title", "text", "<p>html</p>", &subs, 0)
        .unwrap();
    assert_eq!(resp.status_code, 303);
    assert_eq!(resp.headers, vec![("Location".to_string(), "/admin/newsletters".to_string())]);
    assert!(resp.body.is_empty());
    assert_eq!(store.issue_count(), 1);
    let issue = store.get_issue(0).unwrap();
    assert_eq!(issue.title, "Newsletter title");
    assert_eq!(issue.text_content, "text");
    assert_eq!(issue.html_content, "<p>html</p>");
}

#[test]
fn publish_enqueues_confirmed_subscribers_only() {
    let mut store = NewsletterStore::new();
    let subs = vec![
        confirmed("a@example.com"),
        pending("b@example.com"),
        confirmed("c@example.com"),
        confirmed("a@example.com"), // duplicate address: still one task
    ];
    store.publish(OWNER, &key("issue-1"), "t", "x", "h", &subs, 0).unwrap();
    assert_eq!(store.count_tasks_for_issue(0), 2);
    assert_eq!(store.get_task(0, &"a@example.com".to_string()), Some((0, 0)));
    assert_eq!(store.get_task(0, &"c@example.com".to_string()), Some((0, 0)));
    assert_eq!(store.get_task(0, &"b@example.com".to_string()), None);
}

#[test]
fn replay_returns_identical_response_and_writes_nothing() {
    let mut store = NewsletterStore::new();
    let subs = vec![confirmed("a@example.com")];
    let k = key("replayed");
    let first = store.publish(OWNER, &k, "t", "x", "h", &subs, 0).unwrap();
    // Drain the queue so a replayed enqueue would be visible.
    let t = store.select_task(0).unwrap();
    store.apply_outcome(t.issue_id, &t.subscriber_email, SendOutcome::Success, 0);
    let second = store.publish(OWNER, &k, "t", "x", "h", &subs, 99).unwrap();
    assert!(same_response(&first, &second));
    assert_eq!(store.issue_count(), 1);
    assert_eq!(store.task_count(), 0);
    assert!(store.select_task(1_000_000).is_none());
}

#[test]
fn concurrent_submissions_with_same_key_make_one_issue() {
    // Two browser tabs submit the identical form within the same second;
    // the store serializes them on the key's uniqueness constraint.
    let mut store = NewsletterStore::new();
    let subs = vec![confirmed("a@example.com")];
    let k = key("double-click");
    let r1 = store.publish(OWNER, &k, "t", "x", "h", &subs, 5).unwrap();
    let r2 = store.publish(OWNER, &k, "t", "x", "h", &subs, 5).unwrap();
    assert_eq!(r1.status_code, 303);
    assert_eq!(r2.status_code, 303);
    assert_eq!(r1.headers, r2.headers);
    assert_eq!(store.issue_count(), 1);
    assert_eq!(store.count_tasks_for_issue(0), 1);
}

#[test]
fn different_keys_execute_independently() {
    let mut store = NewsletterStore::new();
    let subs = vec![confirmed("a@example.com")];
    store.publish(OWNER, &key("first"), "t", "x", "h", &subs, 0).unwrap();
    store.publish(OWNER, &key("second"), "t", "x", "h", &subs, 0).unwrap();
    // Same key under another owner is a distinct command too.
    store.publish(OWNER + 1, &key("first"), "t", "x", "h", &subs, 0).unwrap();
    assert_eq!(store.issue_count(), 3);
}

#[test]
fn in_flight_key_yields_conflict_until_the_response_is_saved() {
    let mut store = NewsletterStore::new();
    let subs = vec![confirmed("a@example.com")];
    let k = key("crashed");
    // A process reserved the key and crashed before saving a response.
    assert!(matches!(store.reserve_or_fetch(OWNER, &k, 0), ReserveOutcome::Reserved));
    // A second reservation attempt sees the key held in flight.
    assert!(matches!(store.reserve_or_fetch(OWNER, &k, 0), ReserveOutcome::InProgress));
    assert!(store.get_saved_response(OWNER, &k).is_none());
    let err = store.publish(OWNER, &k, "t", "x", "h", &subs, 1).unwrap_err();
    assert_eq!(err, PublishError::Conflict);
    assert_eq!(store.issue_count(), 0);
    // Once a response is saved, the replays see it.
    let resp = zero2prod::response::see_other("/admin/newsletters");
    assert!(store.save_response(OWNER, &k, resp));
    // A completed row is immutable: saving again changes nothing.
    let other = zero2prod::response::see_other("/elsewhere");
    assert!(!store.save_response(OWNER, &k, other));
    let replay = store.publish(OWNER, &k, "t", "x", "h", &subs, 2).unwrap();
    assert_eq!(replay.status_code, 303);
    match store.reserve_or_fetch(OWNER, &k, 3) {
        ReserveOutcome::Cached(cached) => assert_eq!(cached.status_code, 303),
        _ => panic!("expected the saved response"),
    }
    assert_eq!(store.issue_count(), 0);
}

#[test]
fn transient_failure_then_success_delivers_once() {
    // Spec scenario: two confirmed subscribers; the transport succeeds for
    // A, returns a server error for B, then succeeds for B on the retry.
    let mut store = NewsletterStore::new();
    let subs = vec![confirmed("a@example.com"), confirmed("b@example.com")];
    store.publish(OWNER, &key("issue"), "t", "x", "h", &subs, 0).unwrap();
    let mut b_attempts = 0;
    let mut now = 0u64;
    loop {
        let Some(task) = store.select_task(now) else {
            now += 1;
            if now > 100_000 {
                panic!("queue never drained");
            }
            continue;
        };
        let outcome = if task.subscriber_email == "b@example.com" {
            b_attempts += 1;
            if b_attempts == 1 { SendOutcome::TransientFailure } else { SendOutcome::Success }
        } else {
            SendOutcome::Success
        };
        store.apply_outcome(task.issue_id, &task.subscriber_email, outcome, now);
        if store.task_count() == 0 {
            break;
        }
    }
    assert_eq!(store.count_tasks_for_issue(0), 0);
    // B's address was handed to the transport exactly twice: one failure,
    // one delivery.
    assert_eq!(b_attempts, 2);
}

#[test]
fn transient_failure_reschedules_with_backoff() {
    let mut store = NewsletterStore::new();
    let subs = vec![confirmed("a@example.com")];
    store.publish(OWNER, &key("issue"), "t", "x", "h", &subs, 100).unwrap();
    let email = "a@example.com".to_string();
    let d = store.apply_outcome(0, &email, SendOutcome::TransientFailure, 100);
    assert_eq!(d, TaskDisposition::Rescheduled);
    // First retry waits the base delay.
    assert_eq!(store.get_task(0, &email), Some((1, 110)));
    // Not eligible before its pickup time, eligible at it.
    assert!(store.select_task(109).is_none());
    assert_eq!(store.select_task(110).unwrap().subscriber_email, email);
    let d = store.apply_outcome(0, &email, SendOutcome::TransientFailure, 110);
    assert_eq!(d, TaskDisposition::Rescheduled);
    // The second retry's delay doubles.
    assert_eq!(store.get_task(0, &email), Some((2, 130)));
}

#[test]
fn fatal_failure_drops_the_task_and_leaves_others_alone() {
    let mut store = NewsletterStore::new();
    let subs = vec![confirmed("a@example.com"), confirmed("b@example.com")];
    store.publish(OWNER, &key("issue"), "t", "x", "h", &subs, 0).unwrap();
    let a = "a@example.com".to_string();
    let b = "b@example.com".to_string();
    let d = store.apply_outcome(0, &b, SendOutcome::FatalFailure, 0);
    assert_eq!(d, TaskDisposition::DroppedFatal);
    assert_eq!(store.get_task(0, &b), None);
    // A's delivery is untouched and still completes.
    assert_eq!(store.get_task(0, &a), Some((0, 0)));
    let t = store.select_task(0).unwrap();
    assert_eq!(t.subscriber_email, a);
    let d = store.apply_outcome(0, &a, SendOutcome::Success, 0);
    assert_eq!(d, TaskDisposition::Delivered);
    assert_eq!(store.count_tasks_for_issue(0), 0);
}

#[test]
fn task_is_dead_lettered_past_the_retry_ceiling() {
    let mut store = NewsletterStore::new();
    let subs = vec![confirmed("a@example.com")];
    store.publish(OWNER, &key("issue"), "t", "x", "h", &subs, 0).unwrap();
    let email = "a@example.com".to_string();
    let mut now = 0;
    // The first five transient failures reschedule.
    for expected_retries in 1..=5u32 {
        let (_, execute_after) = store.get_task(0, &email).unwrap();
        now = execute_after;
        let d = store.apply_outcome(0, &email, SendOutcome::TransientFailure, now);
        if expected_retries < 5 {
            assert_eq!(d, TaskDisposition::Rescheduled);
            assert_eq!(store.get_task(0, &email).unwrap().0, expected_retries);
        } else {
            assert_eq!(d, TaskDisposition::Rescheduled);
        }
    }
    // The sixth failure would pass the ceiling: the task is dead-lettered.
    let (_, execute_after) = store.get_task(0, &email).unwrap();
    let d = store.apply_outcome(0, &email, SendOutcome::TransientFailure, execute_after);
    assert_eq!(d, TaskDisposition::DeadLettered);
    assert_eq!(store.get_task(0, &email), None);
    assert_eq!(store.task_count(), 0);
}

#[test]
fn selecting_picks_the_oldest_eligible_task() {
    let mut store = NewsletterStore::new();
    store.publish(OWNER, &key("one"), "t", "x", "h", &vec![confirmed("a@example.com")], 30)
        .unwrap();
    store.publish(OWNER, &key("two"), "t", "x", "h", &vec![confirmed("b@example.com")], 10)
        .unwrap();
    store.publish(OWNER, &key("three"), "t", "x", "h", &vec![confirmed("c@example.com")], 20)
        .unwrap();
    assert!(store.select_task(9).is_none());
    let t = store.select_task(100).unwrap();
    assert_eq!(t.subscriber_email, "b@example.com");
    assert_eq!(t.execute_after, 10);
}

#[test]
fn outcome_for_an_unknown_task_changes_nothing() {
    let mut store = NewsletterStore::new();
    store.publish(OWNER, &key("issue"), "t", "x", "h", &vec![confirmed("a@example.com")], 0)
        .unwrap();
    let d = store.apply_outcome(0, &"nobody@example.com".to_string(), SendOutcome::Success, 0);
    assert_eq!(d, TaskDisposition::NotFound);
    let d = store.apply_outcome(9, &"a@example.com".to_string(), SendOutcome::Success, 0);
    assert_eq!(d, TaskDisposition::NotFound);
    assert_eq!(store.task_count(), 1);
}

#[test]
fn idempotency_key_must_be_short_and_non_empty() {
    assert_eq!(IdempotencyKey::try_from(String::new()).unwrap_err(), KeyError::Empty);
    let long = "x".repeat(50);
    assert_eq!(IdempotencyKey::try_from(long).unwrap_err(), KeyError::TooLong);
    let just_under = "x".repeat(49);
    let k = IdempotencyKey::try_from(just_under).unwrap();
    assert_eq!(k.as_str(), "x".repeat(49));
    assert_eq!(
        KeyError::Empty.message(),
        "The idempotency key cannot be empty"
    );
    assert_eq!(
        KeyError::TooLong.message(),
        "The idempotency key must be shorter than 50 characters"
    );
}

#[test]
fn backoff_doubles_and_is_capped() {
    assert_eq!(backoff_seconds(1), 10);
    assert_eq!(backoff_seconds(2), 20);
    assert_eq!(backoff_seconds(3), 40);
    assert_eq!(backoff_seconds(5), 160);
    assert_eq!(backoff_seconds(20), BACKOFF_CAP_SECONDS);
}

#[test]
fn transport_replies_are_classified_by_status() {
    assert_eq!(zero2prod::delivery::classify_status(200), SendOutcome::Success);
    assert_eq!(zero2prod::delivery::classify_status(250), SendOutcome::Success);
    assert_eq!(zero2prod::delivery::classify_status(303), SendOutcome::TransientFailure);
    assert_eq!(zero2prod::delivery::classify_status(400), SendOutcome::FatalFailure);
    assert_eq!(zero2prod::delivery::classify_status(404), SendOutcome::FatalFailure);
    assert_eq!(zero2prod::delivery::classify_status(500), SendOutcome::TransientFailure);
    assert_eq!(zero2prod::delivery::classify_status(503), SendOutcome::TransientFailure);
}
