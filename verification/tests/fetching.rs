use local_cache_proxy::background_uploader::{head_retry, run_upload_file};
use local_cache_proxy::client::{
    connect_for_file, connect_for_head, head_result, BodyStreamer, BodyStreamerError, FileStep,
    HeadAttempt, HeadStep, NextStep, Retry, StreamStep, ATTEMPT_TIMEOUT_MS, CHUNK_TIMEOUT_MS,
};
use local_cache_proxy::config::AppConfig;
use local_cache_proxy::downloader::{
    get_content_length, internal_fetch_file_with_retries, response_decision, Attempt, Download,
    Downloader, FetchStart, FetchStep,
};

fn config(size: u64) -> AppConfig {
    AppConfig {
        upstream: "http://up:80".to_string(),
        secondary_upstreams: vec![],
        proxy: None,
        bind_target: "http://localhost:8080".to_string(),
        cache_folder: "/var/cache".to_string(),
        cache_folder_size: size,
        maximum_download_size: 10,
        maximum_upload_size: 20,
        idle_time_terminate: None,
    }
}

#[test]
fn third_attempt_succeeds_after_two_waits() {
    let r0 = Retry::new(3, 100, 2);
    let mut slept: u64 = 0;
    let r1 = match r0.next_step(false) {
        NextStep::RetryAfter { sleep_ms, next } => {
            assert_eq!(sleep_ms, 100);
            slept += sleep_ms;
            next
        }
        other => panic!("expected a retry, got {:?}", other),
    };
    assert_eq!(r1, Retry { tries: 2, sleep_ms: 200, multiplier: 2 });
    let r2 = match r1.next_step(false) {
        NextStep::RetryAfter { sleep_ms, next } => {
            assert_eq!(sleep_ms, 200);
            slept += sleep_ms;
            next
        }
        other => panic!("expected a retry, got {:?}", other),
    };
    assert_eq!(r2, Retry { tries: 1, sleep_ms: 400, multiplier: 2 });
    assert_eq!(r2.next_step(true), NextStep::Return);
    assert_eq!(slept, 100 + 200);
}

#[test]
fn failure_without_tries_left_gives_up() {
    assert_eq!(Retry::new(0, 100, 2).next_step(false), NextStep::GiveUp);
    assert_eq!(Retry::new(-1, 100, 2).next_step(false), NextStep::GiveUp);
    assert_eq!(Retry::new(0, 100, 2).next_step(true), NextStep::Return);
}

#[test]
fn tries_run_out() {
    let mut r = Retry::new(2, 500, 4);
    let mut waits: Vec<u64> = vec![];
    loop {
        match r.next_step(false) {
            NextStep::RetryAfter { sleep_ms, next } => {
                waits.push(sleep_ms);
                r = next;
            }
            NextStep::GiveUp => break,
            NextStep::Return => panic!("a failure never returns"),
        }
    }
    assert_eq!(waits, vec![500, 2000]);
    assert_eq!(r, Retry { tries: 0, sleep_ms: 8000, multiplier: 4 });
}

#[test]
fn waits_that_do_not_fit() {
    let r = Retry::new(1, u64::MAX, 2);
    assert_eq!(r.checked_next_step(false), None);
    assert_eq!(r.checked_next_step(true), Some(NextStep::Return));
    let fits = Retry::new(1, u64::MAX, 1);
    assert_eq!(
        fits.checked_next_step(false),
        Some(NextStep::RetryAfter {
            sleep_ms: u64::MAX,
            next: Retry { tries: 0, sleep_ms: u64::MAX, multiplier: 1 }
        })
    );
    assert_eq!(Retry::new(0, u64::MAX, 2).checked_next_step(false), Some(NextStep::GiveUp));
}

#[test]
fn budgets_and_timeouts() {
    assert_eq!(Downloader::fetch_retry(), Retry { tries: 3, sleep_ms: 20000, multiplier: 2 });
    assert_eq!(head_retry(), Retry { tries: 10, sleep_ms: 500, multiplier: 4 });
    assert_eq!(ATTEMPT_TIMEOUT_MS, 5000);
    assert_eq!(CHUNK_TIMEOUT_MS, 3000);
}

#[test]
fn existence_check() {
    assert_eq!(head_result(200, Some("12")), Some(12));
    assert_eq!(head_result(200, None), None);
    assert_eq!(head_result(200, Some("abc")), None);
    assert_eq!(head_result(404, Some("12")), None);
    assert_eq!(head_result(204, Some("12")), None);
    assert!(!run_upload_file(Some(12)));
    assert!(!run_upload_file(Some(0)));
    assert!(run_upload_file(None));
}

#[test]
fn declared_lengths() {
    assert_eq!(get_content_length(Some("1024")), Some(1024));
    assert_eq!(get_content_length(Some("")), None);
    assert_eq!(get_content_length(Some("ten")), None);
    assert_eq!(get_content_length(None), None);
}

#[test]
fn oversized_response_is_a_miss() {
    assert_eq!(response_decision(200, Some(11), 10), Download::Skip);
    assert_eq!(response_decision(200, Some(u64::MAX), 10), Download::Skip);
    assert_eq!(response_decision(200, Some(10), 10), Download::Stream { content_length: 10 });
    assert_eq!(response_decision(200, Some(0), 10), Download::Stream { content_length: 0 });
}

#[test]
fn oversized_response_leaves_the_cache_as_it_is() {
    let mut d = Downloader::new(config(100));
    d.save_file("cas__a", 40);
    let declared = get_content_length(Some("11"));
    assert_eq!(response_decision(200, declared, 10), Download::Skip);
    let step = internal_fetch_file_with_retries(&Downloader::fetch_retry(), Attempt::Miss);
    assert!(matches!(step, FetchStep::Miss));
    let r = d.fetch_file("cas__big", None);
    assert_eq!(r.size, None);
    assert!(r.evicted.is_empty());
    assert_eq!(d.lru_cache.len(), 1);
    assert_eq!(d.lru_cache.peek("cas__big"), None);
    assert_eq!(d.lru_cache.peek("cas__a"), Some(40));
}

#[test]
fn responses_that_are_not_downloaded() {
    assert_eq!(response_decision(200, None, 10), Download::Skip);
    assert_eq!(response_decision(404, Some(5), 10), Download::Skip);
    assert_eq!(response_decision(500, Some(5), 10), Download::Skip);
    assert_eq!(response_decision(206, Some(5), 10), Download::Skip);
}

#[test]
fn steps_of_a_fetch() {
    let retry = Retry::new(3, 20000, 2);
    assert!(matches!(internal_fetch_file_with_retries(&retry, Attempt::Miss), FetchStep::Miss));
    let fetched = Attempt::Fetched { size: 7, path: "/tmp/x/1".to_string() };
    match internal_fetch_file_with_retries(&retry, fetched) {
        FetchStep::Register { size, path } => {
            assert_eq!(size, 7);
            assert_eq!(path, "/tmp/x/1");
        }
        other => panic!("expected a registration, got {:?}", other),
    }
    let failed = Attempt::Failed { error: "Request timeout".to_string() };
    match internal_fetch_file_with_retries(&retry, failed) {
        FetchStep::RetryAfter { sleep_ms, next } => {
            assert_eq!(sleep_ms, 20000);
            assert_eq!(next, Retry { tries: 2, sleep_ms: 40000, multiplier: 2 });
        }
        other => panic!("expected a retry, got {:?}", other),
    }
    let last = Attempt::Failed { error: "Request timeout".to_string() };
    match internal_fetch_file_with_retries(&Retry::new(0, 160000, 2), last) {
        FetchStep::Fail { error } => assert_eq!(error, "Request timeout"),
        other => panic!("expected a failure, got {:?}", other),
    }
}

#[test]
fn fetched_entry_is_registered() {
    let mut d = Downloader::new(config(100));
    assert_eq!(d.cached("cas__a"), None);
    let r = d.fetch_file("cas__a", Some(60));
    assert_eq!(r.size, Some(60));
    assert_eq!(r.name, None);
    assert!(r.evicted.is_empty());
    assert_eq!(d.cached("cas__a"), Some(60));
    let r2 = d.fetch_file("cas__b", Some(50));
    assert_eq!(r2.evicted, vec!["cas__a"]);
    assert_eq!(d.cached("cas__a"), None);
    assert_eq!(d.cached("cas__b"), Some(50));
}

#[test]
fn stored_entry_is_registered_once() {
    let mut d = Downloader::new(config(100));
    let first = d.save_file("ac__1", 10);
    assert_eq!(first.name, Some("ac__1".to_string()));
    assert_eq!(first.size, None);
    let again = d.save_file("ac__1", 99);
    assert_eq!(again.name, None);
    assert!(again.evicted.is_empty());
    assert_eq!(d.cached("ac__1"), Some(10));
    assert_eq!(d.lru_cache.size(), 10);
}

#[test]
fn steps_of_an_existence_check() {
    let retry = Retry::new(10, 500, 4);
    let found = HeadAttempt::Answered { status: 200, content_length: Some("77".to_string()) };
    assert!(matches!(connect_for_head(&retry, found), HeadStep::Done { size: Some(77) }));
    let missing = HeadAttempt::Answered { status: 404, content_length: Some("77".to_string()) };
    assert!(matches!(connect_for_head(&retry, missing), HeadStep::Done { size: None }));
    let bare = HeadAttempt::Answered { status: 200, content_length: None };
    assert!(matches!(connect_for_head(&retry, bare), HeadStep::Done { size: None }));
    let failed = HeadAttempt::Failed { error: "Request timeout".to_string() };
    match connect_for_head(&retry, failed) {
        HeadStep::RetryAfter { sleep_ms, next } => {
            assert_eq!(sleep_ms, 500);
            assert_eq!(next, Retry { tries: 9, sleep_ms: 2000, multiplier: 4 });
        }
        other => panic!("expected a retry, got {:?}", other),
    }
    let last = HeadAttempt::Failed { error: "Request timeout".to_string() };
    match connect_for_head(&Retry::new(0, 500, 4), last) {
        HeadStep::Fail { error } => assert_eq!(error, "Request timeout"),
        other => panic!("expected a failure, got {:?}", other),
    }
}

#[test]
fn steps_of_a_request() {
    let retry = Retry::new(1, 500, 1);
    assert!(matches!(connect_for_file(&retry, None), FileStep::Respond));
    match connect_for_file(&retry, Some("connection refused".to_string())) {
        FileStep::RetryAfter { sleep_ms, next } => {
            assert_eq!(sleep_ms, 500);
            assert_eq!(next, Retry { tries: 0, sleep_ms: 500, multiplier: 1 });
        }
        other => panic!("expected a retry, got {:?}", other),
    }
    match connect_for_file(&Retry::new(0, 500, 1), Some("connection refused".to_string())) {
        FileStep::Fail { error } => assert_eq!(error, "connection refused"),
        other => panic!("expected a failure, got {:?}", other),
    }
}

#[test]
fn silent_body_times_out() {
    let mut w = BodyStreamer::new(1000);
    assert_eq!(w.deadline, 4000);
    assert_eq!(w.poll(1500, false), StreamStep::Wait { until: 4000 });
    assert_eq!(w.poll(3999, false), StreamStep::Wait { until: 4000 });
    assert_eq!(w.poll(4000, false), StreamStep::TimedOut);
    assert_eq!(w.poll(4000, true), StreamStep::TimedOut);
    assert_eq!(w.deadline, 4000);
}

#[test]
fn each_chunk_moves_the_deadline() {
    let mut w = BodyStreamer::new(0);
    assert_eq!(w.poll(2999, true), StreamStep::Chunk);
    assert_eq!(w.deadline, 5999);
    assert_eq!(w.poll(5998, true), StreamStep::Chunk);
    assert_eq!(w.deadline, 8998);
    assert_eq!(w.poll(8998, true), StreamStep::TimedOut);
    let mut late = BodyStreamer::new(u64::MAX - 1);
    assert_eq!(late.deadline, u64::MAX);
    assert_eq!(late.poll(u64::MAX - 1, true), StreamStep::Chunk);
    assert_eq!(late.deadline, u64::MAX);
}

#[test]
fn stream_failures_in_words() {
    assert_eq!(BodyStreamerError::TimeoutError.description(), "Timeout making request");
    assert_eq!(BodyStreamerError::HyperError("broken pipe".to_string()).description(), "broken pipe");
}

#[test]
fn held_entry_needs_no_request() {
    let mut d = Downloader::new(config(100));
    assert_eq!(
        d.start_fetch("cas__a"),
        FetchStart::Request { retry: Retry { tries: 3, sleep_ms: 20000, multiplier: 2 } }
    );
    d.fetch_file("cas__a", Some(60));
    d.fetch_file("cas__b", Some(30));
    assert_eq!(d.start_fetch("cas__a"), FetchStart::Hit { size: 60 });
    let r = d.fetch_file("cas__c", Some(20));
    assert_eq!(r.evicted, vec!["cas__b"]);
    assert_eq!(d.start_fetch("cas__b"), FetchStart::Request { retry: Downloader::fetch_retry() });
}
