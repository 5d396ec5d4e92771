//! Transport-level behavior: handshake authentication, frame admission, and
//! the thinking-channel demultiplexer.

use dynamic_agent::auth::{compute_signature, verify_handshake, HandshakeDecision};
use dynamic_agent::demux::{Demux, Frag};
use dynamic_agent::protocol::{admit_frame, frag_to_message, ServerMessage, MAX_MESSAGE_SIZE};

fn hex_of_bytes(bytes: &[u8]) -> String {
    let digits = "0123456789abcdef".as_bytes();
    let mut out = String::new();
    for b in bytes {
        out.push(digits[(b >> 4) as usize] as char);
        out.push(digits[(b & 15) as usize] as char);
    }
    out
}

fn hmac_hex(secret: &str, msg: &str) -> String {
    let mut mac = <hmac::Hmac<sha2::Sha256> as hmac::KeyInit>::new_from_slice(secret.as_bytes())
        .unwrap();
    hmac::Mac::update(&mut mac, msg.as_bytes());
    let out = hmac::Mac::finalize(mac).into_bytes();
    hex_of_bytes(&out)
}

#[test]
fn signature_computed_by_library_matches_reference() {
    let sig: String = compute_signature("s", "1700000000").into_iter().collect();
    assert_eq!(sig, hmac_hex("s", "1700000000"));
    assert_eq!(sig.len(), 64);
}

#[test]
fn valid_handshake_is_accepted() {
    let sig = hmac_hex("s", "1700000000");
    let d = verify_handshake("s", Some("1700000000"), Some(&sig), 1700000000 + 200);
    assert!(matches!(d, HandshakeDecision::Accept));
}

#[test]
fn stale_timestamp_is_rejected_even_with_valid_signature() {
    let now: i64 = 1700000000;
    let ts = (now - 400).to_string();
    let sig = hmac_hex("s", &ts);
    let d = verify_handshake("s", Some(&ts), Some(&sig), now);
    assert!(matches!(d, HandshakeDecision::RejectStale));
}

#[test]
fn bad_signature_is_rejected() {
    let d = verify_handshake("s", Some("1700000000"), Some("deadbeef"), 1700000000);
    assert!(matches!(d, HandshakeDecision::RejectBadSignature));
}

#[test]
fn uppercase_signature_is_rejected() {
    let sig = hmac_hex("s", "1700000000").to_uppercase();
    let d = verify_handshake("s", Some("1700000000"), Some(&sig), 1700000000);
    assert!(matches!(d, HandshakeDecision::RejectBadSignature));
}

#[test]
fn missing_parameters_are_rejected() {
    let d = verify_handshake("s", None, Some("abc"), 1700000000);
    assert!(matches!(d, HandshakeDecision::RejectMissing));
    let d = verify_handshake("s", Some("1700000000"), None, 1700000000);
    assert!(matches!(d, HandshakeDecision::RejectMissing));
}

#[test]
fn no_secret_accepts_everything() {
    let d = verify_handshake("", None, None, 1700000000);
    assert!(matches!(d, HandshakeDecision::Accept));
    // A whitespace-only secret counts as no secret.
    let d = verify_handshake("   ", None, None, 1700000000);
    assert!(matches!(d, HandshakeDecision::Accept));
}

#[test]
fn non_numeric_timestamp_denotes_zero_and_is_stale() {
    let sig = hmac_hex("s", "not-a-number");
    let d = verify_handshake("s", Some("not-a-number"), Some(&sig), 1700000000);
    assert!(matches!(d, HandshakeDecision::RejectStale));
}

#[test]
fn timestamp_exactly_at_the_window_edge_is_accepted() {
    let now: i64 = 1700000000;
    let ts = (now - 300).to_string();
    let sig = hmac_hex("s", &ts);
    let d = verify_handshake("s", Some(&ts), Some(&sig), now);
    assert!(matches!(d, HandshakeDecision::Accept));
    let ts = (now - 301).to_string();
    let sig = hmac_hex("s", &ts);
    let d = verify_handshake("s", Some(&ts), Some(&sig), now);
    assert!(matches!(d, HandshakeDecision::RejectStale));
}

#[test]
fn frame_at_one_mebibyte_is_admitted_one_byte_over_is_not() {
    assert_eq!(MAX_MESSAGE_SIZE, 1024 * 1024);
    assert!(admit_frame(1024 * 1024));
    assert!(!admit_frame(1024 * 1024 + 1));
}

fn feed_str(d: &mut Demux, s: &str) -> Vec<Frag> {
    let chunk: Vec<char> = s.chars().collect();
    d.feed(&chunk)
}

fn payload_of(f: &Frag) -> (bool, String) {
    match f {
        Frag::Thinking(p) => (true, p.iter().collect()),
        Frag::Visible(p) => (false, p.iter().collect()),
    }
}

#[test]
fn demux_splits_tag_across_chunk_boundaries() {
    let mut d = Demux::new();
    let mut frags = Vec::new();
    frags.extend(feed_str(&mut d, "abc<thi"));
    frags.extend(feed_str(&mut d, "nk>XY"));
    frags.extend(feed_str(&mut d, "Z</think>answer"));
    if let Some(f) = d.finish() {
        frags.push(f);
    }
    let rendered: Vec<(bool, String)> = frags.iter().map(payload_of).collect();
    assert_eq!(
        rendered,
        vec![(true, "XYZ".to_string()), (false, "answer".to_string())]
    );
}

#[test]
fn demux_totals_match_the_two_channels() {
    let raw = "<think>some hidden reasoning that goes on for a while</think>the visible answer, which is also fairly long";
    // Feed in ragged chunks; the concatenation per channel must not depend
    // on the chunking.
    for step in [1usize, 3, 7, 11] {
        let mut d = Demux::new();
        let chars: Vec<char> = raw.chars().collect();
        let mut frags = Vec::new();
        for chunk in chars.chunks(step) {
            let v: Vec<char> = chunk.to_vec();
            frags.extend(d.feed(&v));
        }
        if let Some(f) = d.finish() {
            frags.push(f);
        }
        let mut think = String::new();
        let mut visible = String::new();
        for f in &frags {
            let (is_think, p) = payload_of(f);
            if is_think {
                think.push_str(&p);
            } else {
                visible.push_str(&p);
            }
        }
        assert_eq!(think, "some hidden reasoning that goes on for a while");
        assert_eq!(visible, "the visible answer, which is also fairly long");
    }
}

#[test]
fn demux_without_tags_passes_everything_through_visible() {
    let mut d = Demux::new();
    let mut frags = feed_str(&mut d, "just a plain answer with no hidden channel");
    if let Some(f) = d.finish() {
        frags.push(f);
    }
    let mut visible = String::new();
    for f in &frags {
        let (is_think, p) = payload_of(f);
        assert!(!is_think);
        visible.push_str(&p);
    }
    assert_eq!(visible, "just a plain answer with no hidden channel");
}

#[test]
fn fragments_become_protocol_messages_with_cleanup_on_the_visible_side() {
    let think = Frag::Thinking("**raw**".chars().collect());
    match frag_to_message(&think) {
        ServerMessage::ThinkingFragment { content } => assert_eq!(content, "**raw**"),
        _ => panic!("expected a thinking fragment"),
    }
    let vis = Frag::Visible("**Final Answer:** 42 ".chars().collect());
    match frag_to_message(&vis) {
        ServerMessage::Partial { content } => assert_eq!(content, "42"),
        _ => panic!("expected a partial fragment"),
    }
}
