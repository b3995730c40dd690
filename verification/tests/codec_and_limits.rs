//! The transport codec, the heartbeat rule, the rate limiter on its
//! own, and the client-side token cache.

use vertex::codec::{
    decode_frame, encode_frame, frame_round_trip_check, heartbeat_expired, Frame, FRAME_EVENT,
    FRAME_PING, FRAME_REQUEST,
};
use vertex::ratelimit::RateLimiter;
use vertex::token_store::{forget_token, get_stored_token, store_token, AuthParameters, TokenStore};
use vertex::{AuthToken, DeviceId, RATELIMIT_BURST_PER_MIN};

#[test]
fn frame_round_trip() {
    let frame = Frame { tag: FRAME_REQUEST, payload: b"hello frame".to_vec() };
    let wire = encode_frame(&frame);
    assert_eq!(wire.len(), 5 + 11);
    let (decoded, end) = decode_frame(&wire, 0).expect("the frame should decode");
    assert_eq!(end, wire.len());
    assert_eq!(decoded.tag, FRAME_REQUEST);
    assert_eq!(decoded.payload, b"hello frame".to_vec());
}

#[test]
fn frame_round_trip_with_trailer() {
    let frame = Frame { tag: FRAME_EVENT, payload: vec![1, 2, 3] };
    let trailer = vec![9, 9, 9, 9];
    assert!(frame_round_trip_check(&frame, &trailer));
}

#[test]
fn empty_ping_frame() {
    let frame = Frame { tag: FRAME_PING, payload: Vec::new() };
    let wire = encode_frame(&frame);
    assert_eq!(wire, vec![FRAME_PING, 0, 0, 0, 0]);
    let (decoded, end) = decode_frame(&wire, 0).expect("the ping should decode");
    assert_eq!(end, 5);
    assert!(decoded.payload.is_empty());
}

#[test]
fn garbage_does_not_decode() {
    // unknown tag
    assert!(decode_frame(&vec![200, 0, 0, 0, 0], 0).is_none());
    // truncated header
    assert!(decode_frame(&vec![FRAME_PING, 0], 0).is_none());
    // announced payload longer than the buffer
    assert!(decode_frame(&vec![FRAME_PING, 0, 0, 0, 9, 1], 0).is_none());
}

#[test]
fn heartbeat_window() {
    assert!(!heartbeat_expired(100, 100));
    assert!(!heartbeat_expired(100, 103));
    assert!(heartbeat_expired(100, 104));
    assert!(heartbeat_expired(100, 500));
}

#[test]
fn limiter_allows_burst_then_refuses() {
    let mut limiter = RateLimiter::new();
    let device = DeviceId(7);
    for _ in 0..RATELIMIT_BURST_PER_MIN {
        assert!(limiter.check(device, 50));
    }
    assert!(!limiter.check(device, 60));
    // another device is unaffected
    assert!(limiter.check(DeviceId(8), 60));
    // a new window opens for the throttled device
    assert!(limiter.check(device, 111));
}

#[test]
fn token_cache_stores_and_forgets() {
    let mut cache = TokenStore::new();
    assert!(get_stored_token(&cache).is_none());

    let parameters = AuthParameters { device: DeviceId(1), token: AuthToken(2) };
    store_token(&mut cache, parameters);
    assert_eq!(get_stored_token(&cache), Some(parameters));

    forget_token(&mut cache);
    assert!(get_stored_token(&cache).is_none());

    // forgetting twice is harmless
    forget_token(&mut cache);
    assert!(get_stored_token(&cache).is_none());
}
