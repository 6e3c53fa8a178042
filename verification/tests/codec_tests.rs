use ratls::events::{decode_event_log, encode_event_log, replay, Event};
use ratls::quote::{encode_quote, parse_quote, Quote};

fn sample_events() -> Vec<Event> {
    vec![
        Event { register: 0, digest: vec![0xaa; 48], payload: b"boot loader".to_vec() },
        Event { register: 3, digest: vec![0xbb; 48], payload: vec![] },
        Event { register: 0, digest: vec![0xcc; 48], payload: vec![1, 2, 3, 4, 5] },
        Event { register: 2, digest: vec![0x11; 48], payload: vec![0; 300] },
    ]
}

fn sample_quote() -> Quote {
    Quote {
        report_data: (0..64u8).collect(),
        registers: replay(&sample_events()),
        timestamp: 123_456_789_012,
        att_pubkey: vec![0x42; 32],
        signature: vec![0x17; 64],
    }
}

#[test]
fn quote_round_trip() {
    let q = sample_quote();
    let bytes = encode_quote(&q);
    assert_eq!(bytes.len(), 360);
    let p = parse_quote(&bytes).expect("a 360-byte string parses");
    assert_eq!(p.report_data, q.report_data);
    assert_eq!(p.registers, q.registers);
    assert_eq!(p.timestamp, q.timestamp);
    assert_eq!(p.att_pubkey, q.att_pubkey);
    assert_eq!(p.signature, q.signature);
}

#[test]
fn quote_rejects_wrong_length() {
    let q = sample_quote();
    let mut bytes = encode_quote(&q);
    bytes.push(0);
    assert!(parse_quote(&bytes).is_none());
    assert!(parse_quote(&vec![0u8; 359]).is_none());
    assert!(parse_quote(&Vec::new()).is_none());
}

#[test]
fn event_log_round_trip() {
    let events = sample_events();
    let bytes = encode_event_log(&events);
    let decoded = decode_event_log(&bytes).expect("the encoding decodes");
    assert_eq!(decoded.len(), events.len());
    for (d, e) in decoded.iter().zip(events.iter()) {
        assert_eq!(d.register, e.register);
        assert_eq!(d.digest, e.digest);
        assert_eq!(d.payload, e.payload);
    }
}

#[test]
fn empty_event_log_round_trip() {
    let events: Vec<Event> = Vec::new();
    let bytes = encode_event_log(&events);
    assert!(bytes.is_empty());
    let decoded = decode_event_log(&bytes).expect("empty decodes");
    assert!(decoded.is_empty());
}

#[test]
fn event_log_rejects_bad_register() {
    let events = vec![Event { register: 0, digest: vec![0; 48], payload: vec![] }];
    let mut bytes = encode_event_log(&events);
    bytes[0] = 4;
    assert!(decode_event_log(&bytes).is_none());
}

#[test]
fn event_log_rejects_truncation_and_trailing_bytes() {
    let events = sample_events();
    let bytes = encode_event_log(&events);
    let mut truncated = bytes.clone();
    truncated.pop();
    assert!(decode_event_log(&truncated).is_none());
    let mut trailing = bytes.clone();
    trailing.push(0);
    assert!(decode_event_log(&trailing).is_none());
}
