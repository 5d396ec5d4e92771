//! The language-model adapter surface: backend selection and the parsing of
//! streamed backend chunks.
//!
//! Each backend streams text fragments in its own convention — server-sent
//! events, newline-delimited JSON, or array-wrapped JSON objects. The
//! network calls live outside the library; every decision about what a
//! received line means is made here and verified.

use vstd::prelude::*;

verus! {

use crate::json::{JsonVal, obj_lookup};
use crate::text::lower_of;

/// The supported backends.
#[derive(Clone, Copy, PartialEq, Eq, Structural, Debug)]
pub enum LlmType {
    Ollama,
    OpenAI,
    Anthropic,
    Gemini,
    DeepSeek,
    XAI,
    Groq,
}

/// The error of parsing a backend name.
pub struct ParseLlmTypeError {
    pub message: String,
}

/// The settings one adapter is built from.
pub struct LlmConfig {
    pub llm_type: LlmType,
    pub api_key: Option<String>,
    pub completion_model: Option<String>,
    pub embedding_model: Option<String>,
    pub base_url: Option<String>,
}

impl Default for LlmConfig {
    /// The default configuration: a local backend with everything else
    /// unset.
    fn default() -> (r: LlmConfig)
        ensures
            r.llm_type == LlmType::Ollama,
            r.api_key is None,
            r.completion_model is None,
            r.embedding_model is None,
            r.base_url is None,
    {
        LlmConfig {
            llm_type: LlmType::Ollama,
            api_key: None,
            completion_model: None,
            embedding_model: None,
            base_url: None,
        }
    }
}

/// A one-shot completion result.
pub struct CompletionResponse {
    pub response: String,
}

/// A raw generation result of the local backend.
pub struct GenerateResponse {
    pub response: String,
}

/// The backend a lowercased name denotes, if any.
pub open spec fn llm_type_of(s: Seq<char>) -> Option<LlmType> {
    if s == "ollama"@ {
        Some(LlmType::Ollama)
    } else if s == "openai"@ {
        Some(LlmType::OpenAI)
    } else if s == "anthropic"@ {
        Some(LlmType::Anthropic)
    } else if s == "gemini"@ {
        Some(LlmType::Gemini)
    } else if s == "deepseek"@ {
        Some(LlmType::DeepSeek)
    } else if s == "xai"@ {
        Some(LlmType::XAI)
    } else if s == "groq"@ {
        Some(LlmType::Groq)
    } else {
        None
    }
}

/// Parses a backend name, case-insensitively. An unknown name is rejected
/// with a message that carries the offending text.
pub fn parse_llm_type(type_str: &str) -> (r: Result<LlmType, String>)
    ensures
        match r {
            Ok(t) => llm_type_of(lower_of(type_str@)) == Some(t),
            Err(m) => llm_type_of(lower_of(type_str@)) is None && m@ == "Unsupported LLM type: "@
                + type_str@,
        },
{
    let lowered = crate::text::lower_str(type_str);
    let l = lowered.as_str();
    if crate::text::str_eq(l, "ollama") {
        Ok(LlmType::Ollama)
    } else if crate::text::str_eq(l, "openai") {
        Ok(LlmType::OpenAI)
    } else if crate::text::str_eq(l, "anthropic") {
        Ok(LlmType::Anthropic)
    } else if crate::text::str_eq(l, "gemini") {
        Ok(LlmType::Gemini)
    } else if crate::text::str_eq(l, "deepseek") {
        Ok(LlmType::DeepSeek)
    } else if crate::text::str_eq(l, "xai") {
        Ok(LlmType::XAI)
    } else if crate::text::str_eq(l, "groq") {
        Ok(LlmType::Groq)
    } else {
        let mut m = String::from_str("Unsupported LLM type: ");
        m.append(type_str);
        Err(m)
    }
}

/// Parses a backend name as the configuration layer reads it, with the
/// original error shape.
pub fn llm_type_from_str(s: &str) -> (r: Result<LlmType, ParseLlmTypeError>)
    ensures
        match r {
            Ok(t) => llm_type_of(lower_of(s@)) == Some(t),
            Err(e) => llm_type_of(lower_of(s@)) is None && e.message@ == "Invalid LLM type: '"@
                + s@ + "'"@,
        },
{
    match parse_llm_type(s) {
        Ok(t) => Ok(t),
        Err(_) => {
            let mut m = String::from_str("Invalid LLM type: '");
            m.append(s);
            m.append("'");
            Err(ParseLlmTypeError { message: m })
        },
    }
}

/// Whether a backend streams natively; for the others a one-shot completion
/// is replayed as a single-fragment stream.
pub fn supports_native_streaming(t: LlmType) -> (r: bool)
    ensures
        r == !(t == LlmType::Anthropic || t == LlmType::DeepSeek),
{
    match t {
        LlmType::Anthropic => false,
        LlmType::DeepSeek => false,
        _ => true,
    }
}

/// What a server-sent-event line carries: nothing for an empty line or the
/// end marker, the text after the `data: ` prefix for a data line, and
/// nothing for any other line.
pub open spec fn sse_payload_of(line: Seq<char>) -> Option<Seq<char>> {
    if line.len() == 0 || line == "data: [DONE]"@ {
        None
    } else if line.len() >= 6 && line.subrange(0, 6) == "data: "@ {
        Some(line.skip(6))
    } else {
        None
    }
}

/// Extracts the payload of one server-sent-event line.
pub fn sse_line_payload(line: &str) -> (r: Option<String>)
    ensures
        match r {
            Some(p) => sse_payload_of(line@) == Some(p@),
            None => sse_payload_of(line@) is None,
        },
{
    let chars = crate::text::str_to_chars(line);
    if chars.len() == 0 {
        return None;
    }
    let done_marker = crate::text::str_to_chars("data: [DONE]");
    if crate::text::chars_eq(&chars, &done_marker) {
        return None;
    }
    let prefix = crate::text::str_to_chars("data: ");
    if crate::text::starts_with_sub(&chars, &prefix) {
        proof {
            reveal_strlit("data: ");
        }
        let rest = crate::text::slice_of(&chars, 6, chars.len());
        proof {
            assert(rest@ =~= line@.skip(6));
        }
        Some(crate::text::chars_to_string(&rest))
    } else {
        proof {
            reveal_strlit("data: ");
        }
        None
    }
}

/// The user-visible content one completion choice carries in its delta.
pub open spec fn choice_content(c: JsonVal) -> Option<Seq<char>> {
    match c {
        JsonVal::Obj(o) => match obj_lookup(o@, "delta"@) {
            Some(JsonVal::Obj(d)) => match obj_lookup(d@, "content"@) {
                Some(JsonVal::Str(s)) => Some(s@),
                _ => None,
            },
            _ => None,
        },
        _ => None,
    }
}

/// True when a completion choice announces the end of the stream.
pub open spec fn choice_stops(c: JsonVal) -> bool {
    match c {
        JsonVal::Obj(o) => match obj_lookup(o@, "finish_reason"@) {
            Some(JsonVal::Str(s)) => s@ == "stop"@,
            _ => false,
        },
        _ => false,
    }
}

/// The fragments a chunk's choices emit from index `i` on, and whether the
/// stream ends: non-empty delta contents in order, cut off after the first
/// stopping choice.
pub open spec fn choices_outputs(cs: Seq<JsonVal>, i: int) -> (Seq<Seq<char>>, bool)
    decreases cs.len() - i,
{
    if i < 0 || i >= cs.len() {
        (Seq::empty(), false)
    } else {
        let head: Seq<Seq<char>> = match choice_content(cs[i]) {
            Some(s) => if s.len() > 0 {
                seq![s]
            } else {
                Seq::empty()
            },
            None => Seq::empty(),
        };
        if choice_stops(cs[i]) {
            (head, true)
        } else {
            let (rest, stop) = choices_outputs(cs, i + 1);
            (head + rest, stop)
        }
    }
}

/// The texts of a fragment list.
pub open spec fn strings_view(v: Seq<String>) -> Seq<Seq<char>> {
    v.map(|i: int, s: String| s@)
}

fn choices_outputs_from(cs: &Vec<JsonVal>, i: usize) -> (r: (Vec<String>, bool))
    requires
        i <= cs@.len(),
    ensures
        (strings_view(r.0@), r.1) == choices_outputs(cs@, i as int),
    decreases cs@.len() - i,
{
    if i >= cs.len() {
        let out: Vec<String> = Vec::new();
        proof {
            assert(strings_view(out@) =~= Seq::<Seq<char>>::empty());
        }
        return (out, false);
    }
    let c = &cs[i];
    let content: Option<String> = match c.get("delta") {
        Some(d) => match d {
            JsonVal::Obj(_) => match d.get("content") {
                Some(v) => match v.as_str() {
                    Some(s) => if s.unicode_len() > 0 {
                        Some(s.clone())
                    } else {
                        None
                    },
                    None => None,
                },
                None => None,
            },
            _ => None,
        },
        None => None,
    };
    let stops = match c.get("finish_reason") {
        Some(v) => match v.as_str() {
            Some(s) => crate::text::str_eq(s.as_str(), "stop"),
            None => false,
        },
        None => false,
    };
    let mut out: Vec<String> = Vec::new();
    let ghost head = match choice_content(cs@[i as int]) {
        Some(s) => if s.len() > 0 {
            seq![s]
        } else {
            Seq::<Seq<char>>::empty()
        },
        None => Seq::<Seq<char>>::empty(),
    };
    match content {
        Some(s) => {
            out.push(s);
            proof {
                assert(strings_view(out@) =~= head);
            }
        },
        None => {
            proof {
                assert(strings_view(out@) =~= head);
            }
        },
    }
    if stops {
        proof {
            assert(choice_stops(cs@[i as int]));
        }
        return (out, true);
    }
    let (rest, stop) = choices_outputs_from(cs, i + 1);
    let mut k: usize = 0;
    let ghost pre = out@;
    while k < rest.len()
        invariant
            k <= rest@.len(),
            out@ == pre + rest@.subrange(0, k as int),
        decreases rest@.len() - k,
    {
        out.push(rest[k].clone());
        k += 1;
        proof {
            assert(out@ =~= pre + rest@.subrange(0, k as int));
        }
    }
    proof {
        assert(out@ =~= pre + rest@);
        assert(strings_view(out@) =~= strings_view(pre) + strings_view(rest@));
        assert(strings_view(pre) == head);
    }
    (out, stop)
}

/// Parses one server-sent-event payload of a chat-completion stream: the
/// fragments each choice's delta contributes, in order up to the first
/// stopping choice, and whether the stream ends. A payload without a
/// `choices` array yields nothing.
pub fn openai_chunk_outputs(chunk: &JsonVal) -> (r: (Vec<String>, bool))
    ensures
        ({
            let expected = match *chunk {
                JsonVal::Obj(o) => match obj_lookup(o@, "choices"@) {
                    Some(JsonVal::Arr(cs)) => choices_outputs(cs@, 0),
                    _ => (Seq::<Seq<char>>::empty(), false),
                },
                _ => (Seq::<Seq<char>>::empty(), false),
            };
            (strings_view(r.0@), r.1) == expected
        }),
{
    match chunk.get("choices") {
        Some(v) => match v {
            JsonVal::Arr(cs) => choices_outputs_from(cs, 0),
            _ => {
                let out: Vec<String> = Vec::new();
                proof {
                    assert(strings_view(out@) =~= Seq::<Seq<char>>::empty());
                }
                (out, false)
            },
        },
        None => {
            let out: Vec<String> = Vec::new();
            proof {
                assert(strings_view(out@) =~= Seq::<Seq<char>>::empty());
            }
            (out, false)
        },
    }
}

/// What one newline-delimited-JSON line of the local backend carries: its
/// `response` text and `done` flag, or nothing when either is absent.
pub open spec fn ndjson_chunk_of(t: JsonVal) -> Option<(Seq<char>, bool)> {
    match t {
        JsonVal::Obj(o) => match (obj_lookup(o@, "response"@), obj_lookup(o@, "done"@)) {
            (Some(JsonVal::Str(s)), Some(JsonVal::Bool(d))) => Some((s@, d)),
            _ => None,
        },
        _ => None,
    }
}

/// Parses one newline-delimited-JSON chunk: the fragment text and whether
/// the stream is done. A malformed line yields nothing and is skipped.
pub fn ndjson_chunk(t: &JsonVal) -> (r: Option<(String, bool)>)
    ensures
        match r {
            Some(p) => ndjson_chunk_of(*t) == Some((p.0@, p.1)),
            None => ndjson_chunk_of(*t) is None,
        },
{
    let resp = match t.get("response") {
        Some(v) => match v.as_str() {
            Some(s) => Some(s.clone()),
            None => None,
        },
        None => None,
    };
    let done = match t.get("done") {
        Some(v) => v.as_bool(),
        None => None,
    };
    match (resp, done) {
        (Some(s), Some(d)) => Some((s, d)),
        _ => None,
    }
}

/// The text the first candidate of an array-wrapped chunk carries, at
/// `candidates[0].content.parts[0].text`.
pub open spec fn gemini_text_of(t: JsonVal) -> Option<Seq<char>> {
    match t {
        JsonVal::Obj(o) => match obj_lookup(o@, "candidates"@) {
            Some(JsonVal::Arr(cs)) => if cs@.len() > 0 {
                match cs@[0] {
                    JsonVal::Obj(c0) => match obj_lookup(c0@, "content"@) {
                        Some(JsonVal::Obj(ct)) => match obj_lookup(ct@, "parts"@) {
                            Some(JsonVal::Arr(ps)) => if ps@.len() > 0 {
                                match ps@[0] {
                                    JsonVal::Obj(p0) => match obj_lookup(p0@, "text"@) {
                                        Some(JsonVal::Str(s)) => Some(s@),
                                        _ => None,
                                    },
                                    _ => None,
                                }
                            } else {
                                None
                            },
                            _ => None,
                        },
                        _ => None,
                    },
                    _ => None,
                }
            } else {
                None
            },
            _ => None,
        },
        _ => None,
    }
}

/// Extracts `candidates[0].content.parts[0].text` from a parsed chunk.
pub fn gemini_text(t: &JsonVal) -> (r: Option<String>)
    ensures
        match r {
            Some(s) => gemini_text_of(*t) == Some(s@),
            None => gemini_text_of(*t) is None,
        },
{
    let c0 = match t.get("candidates") {
        Some(v) => match v.at(0) {
            Some(c) => c,
            None => {
                return None;
            },
        },
        None => {
            return None;
        },
    };
    let parts = match c0.get("content") {
        Some(ct) => match ct.get("parts") {
            Some(p) => p,
            None => {
                return None;
            },
        },
        None => {
            return None;
        },
    };
    let p0 = match parts.at(0) {
        Some(p) => p,
        None => {
            return None;
        },
    };
    match p0.get("text") {
        Some(v) => match v.as_str() {
            Some(s) => Some(s.clone()),
            None => None,
        },
        None => None,
    }
}

/// The index of the last occurrence of `c` in `s`, if any.
pub open spec fn last_index_of(s: Seq<char>, c: char) -> Option<int>
    decreases s.len(),
{
    if s.len() == 0 {
        None
    } else if s.last() == c {
        Some(s.len() - 1)
    } else {
        last_index_of(s.drop_last(), c)
    }
}

fn rfind_char(s: &Vec<char>, c: char) -> (r: Option<usize>)
    ensures
        match r {
            Some(i) => last_index_of(s@, c) == Some(i as int),
            None => last_index_of(s@, c) is None,
        },
{
    let mut k: usize = s.len();
    proof {
        assert(s@.subrange(0, k as int) =~= s@);
    }
    while k > 0
        invariant
            k <= s@.len(),
            last_index_of(s@, c) == last_index_of(s@.subrange(0, k as int), c),
        decreases k,
    {
        proof {
            assert(s@.subrange(0, k as int).last() == s@[k - 1]);
            assert(s@.subrange(0, k as int).drop_last() =~= s@.subrange(0, k - 1));
        }
        if s[k - 1] == c {
            return Some(k - 1);
        }
        k -= 1;
    }
    proof {
        assert(s@.subrange(0, 0) =~= Seq::<char>::empty());
    }
    None
}

fn find_char(s: &Vec<char>, c: char) -> (r: Option<usize>)
    ensures
        match r {
            Some(i) => i < s@.len() && s@[i as int] == c && forall|j: int|
                0 <= j < i ==> s@[j] != c,
            None => forall|j: int| 0 <= j < s@.len() ==> s@[j] != c,
        },
{
    let mut k: usize = 0;
    while k < s.len()
        invariant
            k <= s@.len(),
            forall|j: int| 0 <= j < k ==> s@[j] != c,
        decreases s@.len() - k,
    {
        if s[k] == c {
            return Some(k);
        }
        k += 1;
    }
    None
}

/// What the colon-value fallback makes of a trimmed line that mentions a
/// `"text":` field: the text between the first quote after the first colon
/// and the last quote, when the value starts with a quote and ends with a
/// later one.
pub open spec fn gemini_quoted_value(t: Seq<char>, colon: int, vp: Seq<char>) -> Option<
    Seq<char>,
> {
    if vp.len() > 0 && vp[0] == '"' {
        match last_index_of(vp, '"') {
            Some(last) => if last > 0 {
                Some(vp.subrange(1, last))
            } else {
                None
            },
            None => None,
        }
    } else {
        None
    }
}

/// What one line of an array-wrapped JSON stream yields. Array framing —
/// `[`, `]`, `,` and blank lines — yields nothing. A complete object (with
/// a trailing comma tolerated) yields the text of its first candidate. A
/// line that merely mentions a `"text":` field yields the quoted value
/// after the colon.
pub open spec fn gemini_line_of(line: Seq<char>) -> Option<Seq<char>> {
    let t = crate::text::trim_of(line);
    if t.len() == 0 || t == "["@ || t == "]"@ || t == ","@ {
        None
    } else if t[0] == '{' {
        let obj = if t.last() == '}' {
            Some(t)
        } else if t.len() >= 2 && t.subrange(t.len() - 2, t.len() as int) == "},"@ {
            Some(t.subrange(0, t.len() - 1))
        } else {
            None
        };
        match obj {
            Some(o) => match crate::json::json_tree_of(o) {
                Some(tree) => gemini_text_of(tree),
                None => None,
            },
            None => None,
        }
    } else if crate::text::contains_seq(t, "\"text\":"@) {
        match first_colon(t) {
            Some(colon) => gemini_quoted_value(
                t,
                colon,
                crate::text::trim_of(t.skip(colon + 1)),
            ),
            None => None,
        }
    } else {
        None
    }
}

/// The index of the first colon in a text, if any.
pub open spec fn first_colon(t: Seq<char>) -> Option<int> {
    if exists|j: int| 0 <= j < t.len() && t[j] == ':' {
        Some(choose|j: int| 0 <= j < t.len() && t[j] == ':' && forall|k: int|
            0 <= k < j ==> t[k] != ':')
    } else {
        None
    }
}

/// Parses one line of an array-wrapped JSON stream.
pub fn parse_gemini_line(line: &str) -> (r: Option<String>)
    ensures
        match r {
            Some(s) => gemini_line_of(line@) == Some(s@),
            None => gemini_line_of(line@) is None,
        },
{
    let trimmed = crate::text::trim_str(line);
    let t = crate::text::str_to_chars(trimmed.as_str());
    if t.len() == 0 {
        return None;
    }
    if crate::text::chars_eq(&t, &crate::text::str_to_chars("["))
        || crate::text::chars_eq(&t, &crate::text::str_to_chars("]"))
        || crate::text::chars_eq(&t, &crate::text::str_to_chars(",")) {
        return None;
    }
    if t[0] == '{' {
        let obj: Option<Vec<char>> = if t[t.len() - 1] == '}' {
            proof {
                assert(t@.last() == t@[t@.len() - 1]);
            }
            Some(crate::text::slice_of(&t, 0, t.len()))
        } else if crate::text::ends_with_sub(&t, &crate::text::str_to_chars("},")) {
            proof {
                reveal_strlit("},");
                assert(t@.last() == t@[t@.len() - 1]);
                assert(t@.subrange(t@.len() - 2, t@.len() as int)[1] == t@[t@.len() - 1]);
            }
            Some(crate::text::slice_of(&t, 0, t.len() - 1))
        } else {
            proof {
                reveal_strlit("},");
            }
            None
        };
        match obj {
            Some(o) => {
                proof {
                    if t@.last() == '}' {
                        assert(o@ =~= t@);
                    }
                }
                let text = crate::text::chars_to_string(&o);
                match crate::json::parse_json_tree(text.as_str()) {
                    Some(tree) => gemini_text(&tree),
                    None => None,
                }
            },
            None => None,
        }
    } else if crate::text::contains_sub(&t, &crate::text::str_to_chars("\"text\":")) {
        match find_char(&t, ':') {
            Some(colon) => {
                proof {
                    assert(first_colon(t@) == Some(colon as int)) by {
                        assert(t@[colon as int] == ':');
                        let w = choose|j: int|
                            0 <= j < t@.len() && t@[j] == ':' && forall|k: int|
                                0 <= k < j ==> t@[k] != ':';
                        assert(w == colon as int);
                    }
                }
                let after = crate::text::slice_of(&t, colon + 1, t.len());
                let after_str = crate::text::chars_to_string(&after);
                let vp_str = crate::text::trim_str(after_str.as_str());
                let vp = crate::text::str_to_chars(vp_str.as_str());
                if vp.len() > 0 {
                    let first = vp[0];
                    if first == '"' {
                        match rfind_char(&vp, '"') {
                            Some(last) => {
                                if last > 0 {
                                    proof {
                                        lemma_last_index_bounds(vp@, '"');
                                    }
                                    let inner = crate::text::slice_of(&vp, 1, last);
                                    Some(crate::text::chars_to_string(&inner))
                                } else {
                                    None
                                }
                            },
                            None => None,
                        }
                    } else {
                        None
                    }
                } else {
                    None
                }
            },
            None => None,
        }
    } else {
        None
    }
}

proof fn lemma_last_index_bounds(s: Seq<char>, c: char)
    ensures
        match last_index_of(s, c) {
            Some(i) => 0 <= i < s.len(),
            None => true,
        },
    decreases s.len(),
{
    if s.len() > 0 && s.last() != c {
        lemma_last_index_bounds(s.drop_last(), c);
    }
}

} // verus!
