use ecodex::tap::{hex_string, new_request_id, request_id_from_nanos, EventEmitter, NoopEmitter, TapEvent};

#[test]
fn noop_emitter_is_silent() {
    let emitter = NoopEmitter;
    emitter.emit(&TapEvent::RequestStarted {
        request_id: "x".into(),
        model: "y".into(),
        adapter: "z".into(),
        message_count: 0,
        tool_count: 0,
        upstream_url: "".into(),
    });
}

#[test]
fn request_id_is_unique() {
    let a = new_request_id();
    for _ in 0..100 {
        std::hint::black_box(0);
    }
    let b = new_request_id();
    assert_ne!(a, b);
    assert!(a.starts_with("req_"));
}

#[test]
fn request_id_is_req_and_lowercase_hex_nanos() {
    assert_eq!(request_id_from_nanos(0), "req_0");
    assert_eq!(request_id_from_nanos(255), "req_ff");
    assert_eq!(request_id_from_nanos(0x1a2b3c), "req_1a2b3c");
    assert_eq!(hex_string(u128::MAX), format!("{:x}", u128::MAX));
    assert_eq!(hex_string(4096), "1000");
}

#[test]
fn different_clock_readings_give_different_ids() {
    let ids: Vec<String> = [0u128, 1, 15, 16, 255, 256, u128::MAX].iter().map(|n| request_id_from_nanos(*n)).collect();
    for (i, a) in ids.iter().enumerate() {
        assert!(a.starts_with("req_"));
        for b in &ids[i + 1..] {
            assert_ne!(a, b);
        }
    }
}
