//! Tests for the generic call relay: fresh ids, FIFO delivery, correlated
//! responses, and the failure modes of answering.

use deno_in_deno::relay::Relay;
use deno_in_deno::relay::RelayError;

fn byte_relay() -> Relay<Vec<u8>, Vec<u8>> {
    Relay::new()
}

#[test]
fn dispatch_assigns_consecutive_distinct_ids() {
    let mut relay = byte_relay();
    let a = relay.dispatch_enqueue(b"A".to_vec());
    let b = relay.dispatch_enqueue(b"B".to_vec());
    let c = relay.dispatch_enqueue(b"C".to_vec());
    assert_eq!(a, 0);
    assert_eq!(b, 1);
    assert_eq!(c, 2);
    assert_ne!(a, b);
    assert_ne!(b, c);
    assert_ne!(a, c);
}

#[test]
fn wait_for_next_drains_in_enqueue_order() {
    let mut relay = byte_relay();
    let mut ids = Vec::new();
    for payload in [b"one".to_vec(), b"two".to_vec(), b"three".to_vec()] {
        ids.push(relay.dispatch_enqueue(payload));
    }
    let first = relay.wait_for_next().expect("queue holds three requests");
    let second = relay.wait_for_next().expect("queue holds two requests");
    let third = relay.wait_for_next().expect("queue holds one request");
    assert_eq!(first, (ids[0], b"one".to_vec()));
    assert_eq!(second, (ids[1], b"two".to_vec()));
    assert_eq!(third, (ids[2], b"three".to_vec()));
    assert_eq!(relay.wait_for_next(), None);
}

#[test]
fn wait_for_next_never_returns_a_request_twice() {
    let mut relay = byte_relay();
    let m = 5;
    for k in 0..m {
        relay.dispatch_enqueue(vec![k]);
    }
    let mut seen = Vec::new();
    for _ in 0..m {
        let (id, _) = relay.wait_for_next().expect("one request per dispatch");
        assert!(!seen.contains(&id), "request delivered twice");
        seen.push(id);
    }
    assert_eq!(relay.wait_for_next(), None);
}

#[test]
fn wait_for_next_on_empty_relay_returns_none() {
    let mut relay = byte_relay();
    assert_eq!(relay.wait_for_next(), None);
}

#[test]
fn respond_then_take_delivers_exactly_once() {
    let mut relay = byte_relay();
    let id = relay.dispatch_enqueue(b"ping".to_vec());
    assert_eq!(relay.take_response(id), None, "no answer written yet");
    let (cmd_id, payload) = relay.wait_for_next().expect("request pending");
    assert_eq!(cmd_id, id);
    assert_eq!(payload, b"ping".to_vec());
    relay.respond(cmd_id, b"pong".to_vec()).expect("slot is waiting");
    assert_eq!(relay.take_response(id), Some(b"pong".to_vec()));
    assert_eq!(relay.take_response(id), None, "answer consumed; slot gone");
}

#[test]
fn respond_with_unknown_id_fails() {
    let mut relay = byte_relay();
    let err = relay.respond(7, b"stray".to_vec()).unwrap_err();
    assert_eq!(err, RelayError::UnknownCorrelationId);
}

#[test]
fn respond_twice_fails_and_keeps_first_answer() {
    let mut relay = byte_relay();
    let id = relay.dispatch_enqueue(b"once".to_vec());
    relay.respond(id, b"first".to_vec()).expect("slot is waiting");
    let err = relay.respond(id, b"second".to_vec()).unwrap_err();
    assert_eq!(err, RelayError::UnknownCorrelationId);
    assert_eq!(relay.take_response(id), Some(b"first".to_vec()));
}

#[test]
fn respond_after_answer_consumed_fails() {
    let mut relay = byte_relay();
    let id = relay.dispatch_enqueue(b"gone".to_vec());
    relay.respond(id, b"answer".to_vec()).expect("slot is waiting");
    assert_eq!(relay.take_response(id), Some(b"answer".to_vec()));
    let err = relay.respond(id, b"late".to_vec()).unwrap_err();
    assert_eq!(err, RelayError::UnknownCorrelationId);
}

#[test]
fn failed_respond_does_not_unblock_other_calls() {
    let mut relay = byte_relay();
    let id = relay.dispatch_enqueue(b"waiting".to_vec());
    let err = relay.respond(id + 1, b"stray".to_vec()).unwrap_err();
    assert_eq!(err, RelayError::UnknownCorrelationId);
    assert_eq!(relay.take_response(id), None, "pending call still unanswered");
    relay.respond(id, b"real".to_vec()).expect("slot untouched by failure");
    assert_eq!(relay.take_response(id), Some(b"real".to_vec()));
}

#[test]
fn responses_in_either_order_reach_their_own_callers() {
    // Two interleaved dispatches, answered in reverse order: each caller
    // consumes the bytes answered under its own correlation id.
    let mut relay = byte_relay();
    let id_a = relay.dispatch_enqueue(b"A".to_vec());
    let id_b = relay.dispatch_enqueue(b"B".to_vec());
    let (first_id, first_payload) = relay.wait_for_next().expect("two pending");
    let (second_id, second_payload) = relay.wait_for_next().expect("one pending");
    assert_eq!((first_id, first_payload), (id_a, b"A".to_vec()));
    assert_eq!((second_id, second_payload), (id_b, b"B".to_vec()));
    relay.respond(id_b, b"B-done".to_vec()).expect("slot B waiting");
    relay.respond(id_a, b"A-done".to_vec()).expect("slot A waiting");
    assert_eq!(relay.take_response(id_a), Some(b"A-done".to_vec()));
    assert_eq!(relay.take_response(id_b), Some(b"B-done".to_vec()));
}
