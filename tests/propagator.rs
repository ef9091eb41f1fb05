use zenoh_client::definition::{decode_service_definition, digit_runs_short, DecodeError};
use zenoh_client::propagator::{
    forward_service_definition, Action, BusEvent, Phase, Propagator, CONTENT_TYPE,
    ZENOH_KEY_EXPRESSION,
};

fn targets(urls: &[&str]) -> Vec<String> {
    urls.iter().map(|u| u.to_string()).collect()
}

fn posts_of(action: Action) -> (String, Vec<(String, Vec<u8>)>) {
    match action {
        Action::Forward { identity, posts } => (identity, posts.into_iter().map(|p| (p.url, p.body)).collect()),
        other => panic!("expected a forward, got {:?}", other),
    }
}

fn live(urls: &[&str]) -> Propagator {
    let mut p = Propagator::new(targets(urls));
    assert!(matches!(p.on_event(BusEvent::CatchUpEnded), Action::Subscribe));
    p
}

#[test]
fn test_subscription_forwards_service_definition_correctly() {
    let body = r#"{ "id": { "value": "test_service" } }"#.as_bytes().to_vec();
    let mut p = live(&["http://127.0.0.1:8080/xyz"]);
    let (identity, posts) = posts_of(p.on_event(BusEvent::Sample(body.clone())));
    assert_eq!(identity, "test_service");
    assert_eq!(posts, vec![("http://127.0.0.1:8080/xyz".to_string(), body)]);
    assert_eq!(ZENOH_KEY_EXPRESSION, "colmena_service_definitions/*");
    assert_eq!(CONTENT_TYPE, "application/json");
}

#[test]
fn definition_reaches_every_target_once() {
    let body = br#"{"id":{"value":"svc1"}}"#.to_vec();
    for urls in [&[][..], &["http://a/"][..], &["http://a/", "http://b/", "http://c/"][..]] {
        let mut p = live(urls);
        let (identity, posts) = posts_of(p.on_event(BusEvent::Sample(body.clone())));
        assert_eq!(identity, "svc1");
        let expected: Vec<(String, Vec<u8>)> = urls.iter().map(|u| (u.to_string(), body.clone())).collect();
        assert_eq!(posts, expected);
        assert_eq!(p.phase(), Phase::Live);
    }
}

#[test]
fn malformed_message_does_not_end_subscription() {
    let mut p = live(&["http://a/"]);
    assert!(matches!(p.on_event(BusEvent::Sample(b"not json {".to_vec())), Action::Drop(DecodeError::NotJson)));
    assert_eq!(p.phase(), Phase::Live);
    let body = br#"{"id":{"value":"svc2"},"extra":[1,2]}"#.to_vec();
    let (identity, posts) = posts_of(p.on_event(BusEvent::Sample(body.clone())));
    assert_eq!(identity, "svc2");
    assert_eq!(posts, vec![("http://a/".to_string(), body)]);
}

#[test]
fn catch_up_reply_is_forwarded_like_live() {
    let body = br#"{"id":{"value":"seeded"}}"#.to_vec();
    let mut p = Propagator::new(targets(&["http://a/", "http://b/"]));
    assert_eq!(p.phase(), Phase::CatchUp);
    let from_catch_up = posts_of(p.on_event(BusEvent::CatchUpReply(Ok(body.clone()))));
    assert!(matches!(p.on_event(BusEvent::CatchUpReply(Err("timeout".to_string()))), Action::SkipReply));
    assert!(matches!(p.on_event(BusEvent::CatchUpEnded), Action::Subscribe));
    let from_live = posts_of(p.on_event(BusEvent::Sample(body.clone())));
    assert_eq!(from_catch_up, from_live);
    assert_eq!(from_live.1.len(), 2);
}

#[test]
fn phases_do_not_overlap() {
    let body = br#"{"id":{"value":"x"}}"#.to_vec();
    let mut p = Propagator::new(targets(&["http://a/"]));
    assert!(matches!(p.on_event(BusEvent::Sample(body.clone())), Action::Ignore));
    assert!(matches!(p.on_event(BusEvent::SubscriptionClosed), Action::Ignore));
    assert_eq!(p.phase(), Phase::CatchUp);
    assert!(matches!(p.on_event(BusEvent::CatchUpEnded), Action::Subscribe));
    assert!(matches!(p.on_event(BusEvent::CatchUpReply(Ok(body.clone()))), Action::Ignore));
    assert!(matches!(p.on_event(BusEvent::CatchUpEnded), Action::Ignore));
    assert!(matches!(p.on_event(BusEvent::SubscriptionClosed), Action::Stop));
    assert_eq!(p.phase(), Phase::Finished);
    assert!(matches!(p.on_event(BusEvent::Sample(body)), Action::Ignore));
    assert_eq!(p.targets(), &vec!["http://a/".to_string()]);
}

#[test]
fn malformed_payloads_are_classified() {
    assert!(matches!(decode_service_definition(vec![0xff, 0xfe, b'{']), Err(DecodeError::NotUtf8)));
    assert!(matches!(decode_service_definition(b"".to_vec()), Err(DecodeError::NotJson)));
    assert!(matches!(decode_service_definition(b"{\"id\":".to_vec()), Err(DecodeError::NotJson)));
    assert!(matches!(decode_service_definition(b"{\"id\":1}".to_vec()), Err(DecodeError::MissingIdentity)));
    assert!(matches!(decode_service_definition(b"{\"id\":{\"value\":3}}".to_vec()), Err(DecodeError::MissingIdentity)));
    assert!(matches!(decode_service_definition(b"[1,2]".to_vec()), Err(DecodeError::MissingIdentity)));
}

#[test]
fn decoded_definition_keeps_payload() {
    let body = "{\"id\":{\"value\":\"caf\u{e9}\"}}".as_bytes().to_vec();
    let d = decode_service_definition(body.clone()).unwrap();
    assert_eq!(d.identity, "caf\u{e9}");
    assert_eq!(d.payload, body);
    let posts = forward_service_definition(&d, &targets(&["http://x/", "http://x/"]));
    assert_eq!(posts.len(), 2);
    assert!(posts.iter().all(|p| p.url == "http://x/" && p.body == body));
}

#[test]
fn overlong_digit_run_is_dropped_not_parsed() {
    let mut text = String::from("{\"id\":{\"value\":\"n\"},\"x\":0.");
    text.push_str(&"0".repeat(32769));
    text.push('}');
    assert!(matches!(decode_service_definition(text.into_bytes()), Err(DecodeError::DigitRunTooLong)));
    let mut p = live(&["http://a/"]);
    let mut long = String::from("[0.");
    long.push_str(&"0".repeat(40000));
    long.push(']');
    assert!(matches!(p.on_event(BusEvent::Sample(long.into_bytes())), Action::Drop(DecodeError::DigitRunTooLong)));
    assert_eq!(p.phase(), Phase::Live);
}

#[test]
fn digit_run_at_the_limit_is_parsed() {
    let mut text = String::from("{\"id\":{\"value\":\"n\"},\"x\":0.");
    text.push_str(&"0".repeat(32767));
    text.push('}');
    let d = decode_service_definition(text.clone().into_bytes()).unwrap();
    assert_eq!(d.identity, "n");
    assert!(digit_runs_short(&"1".repeat(32768).into_bytes()));
    assert!(!digit_runs_short(&"1".repeat(32769).into_bytes()));
    assert!(digit_runs_short(&Vec::new()));
}
