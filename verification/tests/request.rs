use autebooks::failure::Failure;
use autebooks::request::{
    on_response, on_transport_error, rate_limit_key, wait_seconds, Action, MAX_BOUNCE,
};

#[test]
fn backoff_doubles_from_eight_seconds() {
    assert_eq!(wait_seconds(0), 8);
    assert_eq!(wait_seconds(1), 16);
    assert_eq!(wait_seconds(3), 64);
    assert_eq!(wait_seconds(10), 8192);
    assert_eq!(MAX_BOUNCE, 10);
}

#[test]
fn throttling_escalates_and_then_gives_up() {
    let url = "https://www.example.org/page";
    let mut bounce: u8 = 0;
    let mut waits = Vec::new();
    let mut attempts = 0;
    let failure = loop {
        attempts += 1;
        let decision = on_response(bounce, 429, url);
        bounce = decision.bounce;
        match decision.action {
            Action::Retry { wait_secs } => waits.push(wait_secs),
            Action::Fail(f) => break f,
            Action::Deliver => panic!("a throttling answer is never delivered"),
        }
        assert!(attempts < 100, "retries must end");
    };
    // Levels 0 to 10 are retried; the answer that arrives above level 10 is fatal.
    assert_eq!(attempts, 12);
    assert_eq!(waits, vec![8, 16, 32, 64, 128, 256, 512, 1024, 2048, 4096, 8192]);
    match failure {
        Failure::RateLimitExhausted { url: u } => assert_eq!(u, url),
        other => panic!("unexpected {other:?}"),
    }
    assert_eq!(bounce, 0);
}

#[test]
fn an_ordinary_answer_resets_the_counter() {
    let url = "https://www.example.org/page";
    let throttled = on_response(0, 429, url);
    assert_eq!(throttled.bounce, 1);
    assert!(matches!(throttled.action, Action::Retry { wait_secs: 8 }));
    let fine = on_response(throttled.bounce, 200, url);
    assert_eq!(fine.bounce, 0);
    assert!(matches!(fine.action, Action::Deliver));
    let fine = on_response(7, 204, url);
    assert_eq!(fine.bounce, 0);
    assert!(matches!(fine.action, Action::Deliver));
}

#[test]
fn other_statuses_fail_with_the_url() {
    let url = "https://www.example.org/missing";
    for status in [404u16, 500, 301, 199, 300] {
        let decision = on_response(5, status, url);
        assert_eq!(decision.bounce, 0);
        match decision.action {
            Action::Fail(Failure::Network { url: u, .. }) => assert_eq!(u, url),
            other => panic!("unexpected {other:?}"),
        }
    }
    match on_transport_error(url, "connection refused") {
        Failure::Network { url: u, reason } => {
            assert_eq!(u, url);
            assert_eq!(reason, "connection refused");
        }
        other => panic!("unexpected {other:?}"),
    }
}

#[test]
fn requests_are_limited_by_host() {
    assert_eq!(
        rate_limit_key("https://www.royalroad.com/fiction/1/a").unwrap(),
        "www.royalroad.com"
    );
    assert_eq!(rate_limit_key("https://cdn.example.org:8080/x.png?y=1").unwrap(), "cdn.example.org");
    assert_eq!(rate_limit_key("mailto:someone@example.org").unwrap(), "");
    match rate_limit_key("not a url") {
        Err(Failure::InvalidUrl { url }) => assert_eq!(url, "not a url"),
        other => panic!("unexpected {other:?}"),
    }
}

#[test]
fn messages_name_what_failed() {
    assert_eq!(
        Failure::Network { url: "u".to_string(), reason: "r".to_string() }.message(),
        "Broken link : r (URL: u)"
    );
    assert_eq!(
        Failure::RateLimitExhausted { url: "u".to_string() }.message(),
        "Too many requests, giving up (URL: u)"
    );
    assert_eq!(Failure::InvalidUrl { url: "u".to_string() }.message(), "Not a URL : u");
    assert_eq!(Failure::Format { reason: "r".to_string() }.message(), "Malformed e-book : r");
    assert_eq!(Failure::ImageFormat { reason: "r".to_string() }.message(), "r");
    assert_eq!(
        Failure::CountOverflow.message(),
        "There is way too many new chapters (more than 50_000), something probably got wrong"
    );
    assert_eq!(Failure::CacheIo { reason: "r".to_string() }.message(), "Cache failure : r");
    assert_eq!(Failure::Unsupported { message: "m".to_string() }.message(), "m");
    assert_eq!(Failure::Source { reason: "r".to_string() }.message(), "r");
}
