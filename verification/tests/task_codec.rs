//! Tests of the queue entry wire format.
use backdrop::task::{decode_task, encode_task, RenderTask};

fn sample_task() -> RenderTask {
    RenderTask {
        target: 0xa1a2a3a4b1b2c1c2d1d2d3d4d5d6d7d8,
        audio: 1,
        image: 2,
    }
}

#[test]
fn encode_produces_the_json_record() {
    let t = sample_task();
    let expected = format!(
        "{{\"target\":\"{}\",\"audio\":\"{}\",\"image\":\"{}\"}}",
        uuid::Uuid::from_u128(t.target),
        uuid::Uuid::from_u128(t.audio),
        uuid::Uuid::from_u128(t.image),
    );
    assert_eq!(encode_task(&t), expected.into_bytes());
}

#[test]
fn decode_inverts_encode() {
    let t = sample_task();
    assert_eq!(decode_task(&encode_task(&t)), Some(t));
}

#[test]
fn decode_rejects_malformed_payloads() {
    assert_eq!(decode_task(&b"".to_vec()), None);
    assert_eq!(decode_task(&b"not a task".to_vec()), None);
    // Right length, wrong skeleton.
    let mut p = encode_task(&sample_task());
    p[0] = b'[';
    assert_eq!(decode_task(&p), None);
    // Wrong field order is not the canonical record.
    let swapped = format!(
        "{{\"target\":\"{}\",\"image\":\"{}\",\"audio\":\"{}\"}}",
        uuid::Uuid::from_u128(1),
        uuid::Uuid::from_u128(2),
        uuid::Uuid::from_u128(3),
    );
    assert_eq!(decode_task(&swapped.into_bytes()), None);
    // A broken identifier digit.
    let mut p = encode_task(&sample_task());
    p[12] = b'x';
    assert_eq!(decode_task(&p), None);
}
