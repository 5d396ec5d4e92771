//! The two-tier response cache: the decision logic and the exact tier's
//! contract.
//!
//! The exact tier is a key-value store keyed by the normalized prompt, with
//! an optional time-to-live; the semantic tier is a vector collection
//! searched by similarity. Both stores live behind network connections; what
//! is verified here is everything the façade decides: how a prompt is
//! normalized, when a similarity score counts as a hit, how a legacy payload
//! envelope is unwrapped, what may be written, and what a write makes the
//! exact tier answer afterwards.

use vstd::prelude::*;

verus! {

use crate::text::{trim_of, lower_of, contains_seq};
use crate::json::{JsonVal, json_tree_of, obj_lookup};

/// The payload stored with each semantic-tier point.
pub struct CachePayload {
    pub normalized_prompt: String,
    pub response: String,
}

/// The cache key for a user message: the message trimmed of surrounding
/// whitespace, then lowercased.
pub open spec fn normalized_of(msg: Seq<char>) -> Seq<char> {
    lower_of(trim_of(msg))
}

/// Normalizes a user message into its cache key.
pub fn normalize_prompt(message: &str) -> (r: String)
    ensures
        r@ == normalized_of(message@),
{
    let trimmed = crate::text::trim_str(message);
    crate::text::lower_str(trimmed.as_str())
}

/// Whether a top-1 similarity score counts as a semantic hit: exactly at the
/// threshold is a hit, anything below is a miss. Scores and the threshold
/// are in ten-thousandths of cosine similarity.
pub fn semantic_hit(score_scaled: u32, threshold_scaled: u32) -> (r: bool)
    ensures
        r == (score_scaled >= threshold_scaled),
{
    score_scaled >= threshold_scaled
}

/// What reading a stored cache value yields: a value that looks like a JSON
/// envelope carrying a `response` string field is unwrapped one level;
/// anything else is returned as it is.
pub open spec fn unwrap_envelope_spec(v: Seq<char>) -> Seq<char> {
    if v.len() > 0 && v[0] == '{' && contains_seq(v, "\"response\""@) {
        match json_tree_of(v) {
            Some(t) => match t {
                JsonVal::Obj(o) => match obj_lookup(o@, "response"@) {
                    Some(JsonVal::Str(s)) => s@,
                    _ => v,
                },
                _ => v,
            },
            None => v,
        }
    } else {
        v
    }
}

/// Unwraps a stored cache value: a legacy JSON envelope with a nested
/// `response` string yields that string, anything else is handed back
/// unchanged.
pub fn unwrap_cached_response(value: &str) -> (r: String)
    ensures
        r@ == unwrap_envelope_spec(value@),
{
    let chars = crate::text::str_to_chars(value);
    let looks_like_envelope = if chars.len() > 0 {
        let first = chars[0];
        first == '{' && crate::text::contains_sub(
            &chars,
            &crate::text::str_to_chars("\"response\""),
        )
    } else {
        false
    };
    if !looks_like_envelope {
        return crate::text::chars_to_string(&chars);
    }
    match crate::json::parse_json_tree(value) {
        Some(tree) => {
            let unwrapped = match tree.get("response") {
                Some(v) => match v.as_str() {
                    Some(s) => Some(s.clone()),
                    None => None,
                },
                None => None,
            };
            match unwrapped {
                Some(s) => s,
                None => crate::text::chars_to_string(&chars),
            }
        },
        None => crate::text::chars_to_string(&chars),
    }
}

/// Whether a finished turn is written to the cache: only when caching is
/// enabled and the response is non-empty.
pub fn should_cache(enabled: bool, response: &str) -> (r: bool)
    ensures
        r == (enabled && response@.len() > 0),
{
    enabled && !response.is_empty()
}

/// Whether a semantic-tier point may be written: only with a non-empty
/// embedding of the configured dimension.
pub fn semantic_write_allowed(embedding_len: usize, dimension: usize) -> (r: bool)
    ensures
        r == (embedding_len > 0 && embedding_len == dimension),
{
    embedding_len > 0 && embedding_len == dimension
}

/// When a value written at `now` with the given time-to-live expires: never
/// for a zero time-to-live, else `now + ttl`, capped at the largest
/// representable instant.
pub open spec fn spec_expiry(now: int, ttl: int) -> int {
    if ttl <= 0 {
        0
    } else if now + ttl > i64::MAX {
        i64::MAX as int
    } else {
        now + ttl
    }
}

/// The value the exact tier holds under a key at time `now`: the newest
/// entry for the key, unless it has expired. An expiry of zero means the
/// entry never expires.
pub open spec fn exact_lookup(
    s: Seq<(String, String, i64)>,
    k: Seq<char>,
    now: int,
) -> Option<Seq<char>>
    decreases s.len(),
{
    if s.len() == 0 {
        None
    } else if s[0].0@ == k {
        if s[0].2 == 0 || now < s[0].2 {
            Some(s[0].1@)
        } else {
            None
        }
    } else {
        exact_lookup(s.skip(1), k, now)
    }
}

/// The exact cache tier, modeled by its logical content: entries of key,
/// value and expiry instant, newest first.
pub struct ExactTier {
    pub entries: Vec<(String, String, i64)>,
}

impl ExactTier {
    /// An empty tier.
    pub fn new() -> (r: ExactTier)
        ensures
            r.entries@.len() == 0,
    {
        ExactTier { entries: Vec::new() }
    }

    /// Reads the value under a key at time `now`; an expired or absent key
    /// is a miss.
    pub fn check(&self, key: &str, now: i64) -> (r: Option<String>)
        ensures
            match r {
                Some(v) => exact_lookup(self.entries@, key@, now as int) == Some(v@),
                None => exact_lookup(self.entries@, key@, now as int) is None,
            },
    {
        proof {
            assert(self.entries@.skip(0) =~= self.entries@);
        }
        self.check_from(key, now, 0)
    }

    fn check_from(&self, key: &str, now: i64, i: usize) -> (r: Option<String>)
        requires
            i <= self.entries@.len(),
        ensures
            match r {
                Some(v) => exact_lookup(self.entries@.skip(i as int), key@, now as int) == Some(
                    v@,
                ),
                None => exact_lookup(self.entries@.skip(i as int), key@, now as int) is None,
            },
        decreases self.entries@.len() - i,
    {
        if i >= self.entries.len() {
            proof {
                assert(self.entries@.skip(i as int) =~= Seq::<(String, String, i64)>::empty());
            }
            return None;
        }
        proof {
            assert(self.entries@.skip(i as int)[0] == self.entries@[i as int]);
            assert(self.entries@.skip(i as int).skip(1) =~= self.entries@.skip(i as int + 1));
        }
        let entry = &self.entries[i];
        if crate::text::str_eq(entry.0.as_str(), key) {
            if entry.2 == 0 || now < entry.2 {
                Some(entry.1.clone())
            } else {
                None
            }
        } else {
            self.check_from(key, now, i + 1)
        }
    }

    /// Writes a value under a key at time `now` with the given time-to-live
    /// in seconds (zero meaning no expiry). Until the entry expires, a read
    /// of the same key returns exactly this value: writing then checking
    /// yields the value back.
    pub fn update(&mut self, key: String, value: String, ttl: u32, now: i64)
        ensures
            final(self).entries@ == old(self).entries@.insert(
                0,
                (key, value, spec_expiry(now as int, ttl as int) as i64),
            ),
            forall|t: int|
                (ttl == 0 || t < spec_expiry(now as int, ttl as int)) ==> exact_lookup(
                    final(self).entries@,
                    key@,
                    t,
                ) == Some(value@),
    {
        let expires: i64 = if ttl == 0 {
            0
        } else if now > i64::MAX - ttl as i64 {
            i64::MAX
        } else {
            now + ttl as i64
        };
        let ghost k = key@;
        let ghost v = value@;
        self.entries.insert(0, (key, value, expires));
        proof {
            assert(self.entries@[0].0@ == k && self.entries@[0].1@ == v && self.entries@[0].2
                == spec_expiry(now as int, ttl as int));
        }
    }
}

} // verus!
