use slack_events::handler::handle_request;
use slack_events::queue::DispatchQueue;
use slack_events::worker::{decide_reply, post_message_body, worker_step};

#[test]
fn url_verification_echoes_challenge() {
    let mut q = DispatchQueue::new();
    let body = String::from("{\"token\":\"T\",\"challenge\":\"abc123\",\"type\":\"url_verification\"}");
    let r = handle_request(Some("application/json"), body, &mut q);
    assert_eq!(r.status, 200);
    assert_eq!(r.content_type, "application/x-www-form-urlencoded");
    assert_eq!(r.body, "abc123");
    assert_eq!(q.len(), 0);
}

#[test]
fn wrong_content_type_echoes_body_with_400() {
    let mut q = DispatchQueue::new();
    let body = String::from("{\"token\":\"T\",\"challenge\":\"abc123\",\"type\":\"url_verification\"}");
    let r = handle_request(Some("text/plain"), body.clone(), &mut q);
    assert_eq!(r.status, 400);
    assert_eq!(r.content_type, "text/html; charset=utf-8");
    assert_eq!(r.body, body);
    assert_eq!(q.len(), 0);
}

#[test]
fn missing_content_type_echoes_body_with_400() {
    let mut q = DispatchQueue::new();
    let body = String::from("whatever");
    let r = handle_request(None, body.clone(), &mut q);
    assert_eq!(r.status, 400);
    assert_eq!(r.body, body);
    assert_eq!(q.len(), 0);
}

#[test]
fn undecodable_body_echoes_body_with_400() {
    let mut q = DispatchQueue::new();
    let body = String::from("{\"type\":\"mystery\"}");
    let r = handle_request(Some("application/json"), body.clone(), &mut q);
    assert_eq!(r.status, 400);
    assert_eq!(r.body, body);
    assert_eq!(q.len(), 0);
}

#[test]
fn malformed_json_echoes_body_with_400() {
    let mut q = DispatchQueue::new();
    let body = String::from("{\"type\":");
    let r = handle_request(Some("application/json; charset=utf-8"), body.clone(), &mut q);
    assert_eq!(r.status, 400);
    assert_eq!(r.body, body);
    assert_eq!(q.len(), 0);
}

fn callback_body(user: &str, channel: &str, event_id: &str) -> String {
    format!(
        "{{\"type\":\"event_callback\",\"token\":\"T\",\"team_id\":\"TM\",\"api_app_id\":\"A\",\"event_id\":\"{}\",\"event_time\":123,\"authed_users\":[\"U1\"],\"event\":{{\"type\":\"message\",\"ts\":\"1\",\"user\":\"{}\",\"channel\":\"{}\"}}}}",
        event_id, user, channel
    )
}

#[test]
fn event_callback_is_queued_and_replied() {
    let mut q = DispatchQueue::new();
    let body = callback_body("U1", "C1", "E1");
    let r = handle_request(Some("application/json"), body.clone(), &mut q);
    assert_eq!(r.status, 200);
    assert_eq!(r.content_type, "text/html; charset=utf-8");
    assert_eq!(r.body, body);
    assert_eq!(q.len(), 1);
    let pm = worker_step(&mut q, "BOT").expect("a qualifying message gets a reply");
    assert_eq!(pm.channel, "C1");
    assert_eq!(pm.text, "hello, world");
    assert_eq!(
        post_message_body(&pm),
        "{\"channel\":\"C1\",\"text\":\"hello, world\"}"
    );
    assert_eq!(q.len(), 0);
}

#[test]
fn self_message_is_queued_but_not_replied() {
    let mut q = DispatchQueue::new();
    let body = callback_body("BOT", "C1", "E1");
    let r = handle_request(Some("application/json"), body, &mut q);
    assert_eq!(r.status, 200);
    assert_eq!(q.len(), 1);
    assert!(worker_step(&mut q, "BOT").is_none());
    assert_eq!(q.len(), 0);
}

#[test]
fn queue_delivers_in_push_order() {
    let mut q = DispatchQueue::new();
    let b1 = callback_body("U1", "C1", "E1");
    let b2 = callback_body("U2", "C2", "E2");
    handle_request(Some("application/json"), b1, &mut q);
    handle_request(Some("application/json"), b2, &mut q);
    assert_eq!(q.len(), 2);
    let first = worker_step(&mut q, "BOT").expect("first reply");
    let second = worker_step(&mut q, "BOT").expect("second reply");
    assert_eq!(first.channel, "C1");
    assert_eq!(second.channel, "C2");
}

#[test]
fn subtype_message_gets_no_reply() {
    let mut q = DispatchQueue::new();
    let body = String::from(
        "{\"type\":\"event_callback\",\"token\":\"T\",\"team_id\":\"TM\",\"api_app_id\":\"A\",\"event_id\":\"E\",\"event_time\":5,\"authed_users\":[],\"event\":{\"type\":\"message\",\"ts\":\"1\",\"user\":\"U1\",\"channel\":\"C1\",\"subtype\":\"message_changed\"}}",
    );
    handle_request(Some("application/json"), body, &mut q);
    assert_eq!(q.len(), 1);
    assert!(worker_step(&mut q, "BOT").is_none());
}

#[test]
fn message_without_user_gets_no_reply() {
    let mut q = DispatchQueue::new();
    let body = String::from(
        "{\"type\":\"event_callback\",\"token\":\"T\",\"team_id\":\"TM\",\"api_app_id\":\"A\",\"event_id\":\"E\",\"event_time\":5,\"authed_users\":[],\"event\":{\"type\":\"message\",\"ts\":\"1\",\"channel\":\"C1\"}}",
    );
    handle_request(Some("application/json"), body, &mut q);
    assert!(worker_step(&mut q, "BOT").is_none());
}

#[test]
fn message_without_channel_is_local_failure() {
    let mut q = DispatchQueue::new();
    let body = String::from(
        "{\"type\":\"event_callback\",\"token\":\"T\",\"team_id\":\"TM\",\"api_app_id\":\"A\",\"event_id\":\"E\",\"event_time\":5,\"authed_users\":[],\"event\":{\"type\":\"message\",\"ts\":\"1\",\"user\":\"U1\"}}",
    );
    handle_request(Some("application/json"), body, &mut q);
    assert!(worker_step(&mut q, "BOT").is_none());
}

#[test]
fn decide_reply_uses_exact_bot_id() {
    let mut q = DispatchQueue::new();
    let body = callback_body("BOTX", "C9", "E9");
    handle_request(Some("application/json"), body, &mut q);
    let cb = q.pop().expect("queued");
    let pm = decide_reply(&cb, "BOT").expect("BOTX is not BOT");
    assert_eq!(pm.channel, "C9");
    assert!(decide_reply(&cb, "BOTX").is_none());
}
