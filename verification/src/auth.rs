//! Handshake authentication for the streaming transport.
//!
//! When a server secret is configured, a connection upgrade must carry a
//! unix-seconds timestamp and a lowercase hex HMAC-SHA256 signature of that
//! timestamp under the secret. A handshake is rejected when either parameter
//! is missing, when the timestamp lies outside a five-minute window around
//! the current time, or when the signature mismatches.

use vstd::prelude::*;

verus! {

use crate::text::{ts_val, trim_of};

/// Half the width of the timestamp acceptance window, in seconds.
pub const SIGNATURE_WINDOW_SECS: i64 = 300;

/// What `HMAC-SHA256(key, msg)` returns: a digest that depends on the key
/// and the message alone.
pub uninterp spec fn hmac_sha256_of(key: Seq<char>, msg: Seq<char>) -> Seq<u8>;

/// Relies on hmac::Hmac with sha2::Sha256: the digest is a function of the
/// key and message alone and is 32 bytes long. HMAC accepts keys of every
/// length, so constructing the keyed state cannot fail.
#[verifier::external_body]
fn hmac_sha256(key: &str, msg: &str) -> (r: Vec<u8>)
    ensures
        r@ == hmac_sha256_of(key@, msg@),
        r@.len() == 32,
{
    let mut mac = <hmac::Hmac<sha2::Sha256> as hmac::KeyInit>::new_from_slice(key.as_bytes())
        .expect("HMAC accepts keys of any length");
    hmac::Mac::update(&mut mac, msg.as_bytes());
    hmac::Mac::finalize(mac).into_bytes().to_vec()
}

/// The lowercase hex character for one digit value.
pub open spec fn hex_digit(d: u8) -> char {
    if d == 0 {
        '0'
    } else if d == 1 {
        '1'
    } else if d == 2 {
        '2'
    } else if d == 3 {
        '3'
    } else if d == 4 {
        '4'
    } else if d == 5 {
        '5'
    } else if d == 6 {
        '6'
    } else if d == 7 {
        '7'
    } else if d == 8 {
        '8'
    } else if d == 9 {
        '9'
    } else if d == 10 {
        'a'
    } else if d == 11 {
        'b'
    } else if d == 12 {
        'c'
    } else if d == 13 {
        'd'
    } else if d == 14 {
        'e'
    } else {
        'f'
    }
}

/// The lowercase hex rendering of a byte sequence: two digits per byte,
/// high digit first.
pub open spec fn hex_of(b: Seq<u8>) -> Seq<char>
    decreases b.len(),
{
    if b.len() == 0 {
        Seq::empty()
    } else {
        hex_of(b.drop_last()).push(hex_digit(b.last() / 16)).push(hex_digit(b.last() % 16))
    }
}

fn hex_digit_char(d: u8) -> (c: char)
    requires
        d < 16,
    ensures
        c == hex_digit(d),
{
    if d == 0 {
        '0'
    } else if d == 1 {
        '1'
    } else if d == 2 {
        '2'
    } else if d == 3 {
        '3'
    } else if d == 4 {
        '4'
    } else if d == 5 {
        '5'
    } else if d == 6 {
        '6'
    } else if d == 7 {
        '7'
    } else if d == 8 {
        '8'
    } else if d == 9 {
        '9'
    } else if d == 10 {
        'a'
    } else if d == 11 {
        'b'
    } else if d == 12 {
        'c'
    } else if d == 13 {
        'd'
    } else if d == 14 {
        'e'
    } else {
        'f'
    }
}

/// Renders bytes as lowercase hex, two digits per byte.
pub fn hex_encode(b: &Vec<u8>) -> (r: Vec<char>)
    ensures
        r@ == hex_of(b@),
{
    let mut r: Vec<char> = Vec::new();
    let mut i: usize = 0;
    proof {
        assert(b@.subrange(0, 0) =~= Seq::<u8>::empty());
    }
    while i < b.len()
        invariant
            i <= b@.len(),
            r@ == hex_of(b@.subrange(0, i as int)),
        decreases b@.len() - i,
    {
        let byte = b[i];
        r.push(hex_digit_char(byte / 16));
        r.push(hex_digit_char(byte % 16));
        i += 1;
        proof {
            let pre = b@.subrange(0, i as int);
            assert(pre.drop_last() =~= b@.subrange(0, i - 1));
            assert(pre.last() == b@[i - 1]);
        }
    }
    proof {
        assert(b@.subrange(0, b@.len() as int) =~= b@);
    }
    r
}

/// The signature a handshake must carry for a timestamp text under a secret:
/// the lowercase hex HMAC-SHA256 of the timestamp text.
pub open spec fn expected_signature(secret: Seq<char>, ts: Seq<char>) -> Seq<char> {
    hex_of(hmac_sha256_of(secret, ts))
}

/// Computes the signature a handshake must carry for the given timestamp
/// text under the given secret.
pub fn compute_signature(secret: &str, ts: &str) -> (r: Vec<char>)
    ensures
        r@ == expected_signature(secret@, ts@),
{
    let digest = hmac_sha256(secret, ts);
    hex_encode(&digest)
}

/// Why a handshake is rejected, or that it is accepted.
pub enum HandshakeDecision {
    /// The upgrade proceeds.
    Accept,
    /// The timestamp or signature parameter is absent.
    RejectMissing,
    /// The timestamp lies outside the acceptance window.
    RejectStale,
    /// The signature does not match the expected one.
    RejectBadSignature,
}

/// The decision the transport takes for a handshake: with no secret
/// configured — an empty or whitespace-only secret counts as none —
/// everything is accepted; otherwise both parameters must be present, the
/// timestamp must lie within the window around `now`, and the signature
/// must equal the expected one, computed under the secret as given.
pub open spec fn spec_verify_handshake(
    secret: Seq<char>,
    ts: Option<Seq<char>>,
    sig: Option<Seq<char>>,
    now: int,
) -> HandshakeDecision {
    if trim_of(secret).len() == 0 {
        HandshakeDecision::Accept
    } else if ts is None || sig is None {
        HandshakeDecision::RejectMissing
    } else {
        let t = ts_val(ts->Some_0);
        if now - t > SIGNATURE_WINDOW_SECS || t - now > SIGNATURE_WINDOW_SECS {
            HandshakeDecision::RejectStale
        } else if sig->Some_0 == expected_signature(secret, ts->Some_0) {
            HandshakeDecision::Accept
        } else {
            HandshakeDecision::RejectBadSignature
        }
    }
}

/// Decides a handshake. With an empty or whitespace-only secret every
/// handshake is accepted.
/// Otherwise the handshake is rejected when `ts` or `sig` is missing, when
/// the timestamp it denotes lies more than the window away from `now`, and
/// when the signature is not the lowercase hex HMAC-SHA256 of the timestamp
/// text under the secret; only a handshake with a fresh timestamp and a
/// matching signature is accepted.
pub fn verify_handshake(secret: &str, ts: Option<&str>, sig: Option<&str>, now: i64) -> (d:
    HandshakeDecision)
    ensures
        d == spec_verify_handshake(
            secret@,
            match ts {
                Some(t) => Some(t@),
                None => None,
            },
            match sig {
                Some(s) => Some(s@),
                None => None,
            },
            now as int,
        ),
{
    let trimmed = crate::text::trim_str(secret);
    if trimmed.as_str().unicode_len() == 0 {
        return HandshakeDecision::Accept;
    }
    match (ts, sig) {
        (Some(ts_str), Some(sig_str)) => {
            let ts_chars = crate::text::str_to_chars(ts_str);
            let t = crate::text::parse_ts(&ts_chars);
            let diff: i128 = now as i128 - t as i128;
            if diff > SIGNATURE_WINDOW_SECS as i128 || -diff > SIGNATURE_WINDOW_SECS as i128 {
                return HandshakeDecision::RejectStale;
            }
            let expected = compute_signature(secret, ts_str);
            let sig_chars = crate::text::str_to_chars(sig_str);
            if crate::text::chars_eq(&sig_chars, &expected) {
                HandshakeDecision::Accept
            } else {
                HandshakeDecision::RejectBadSignature
            }
        },
        _ => HandshakeDecision::RejectMissing,
    }
}

} // verus!
