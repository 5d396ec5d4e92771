//! The retrieval-augmented answering engine: every decision of its pipeline.
//!
//! A question is answered by picking the best index from the inferred topic,
//! optionally narrowing the field projection, running a hybrid search and
//! composing an answer prompt. The backend calls — completions, embeddings,
//! the search itself — happen outside; the library decides what each of
//! their results means and what happens next.

use vstd::prelude::*;

verus! {

use crate::text::{lower_of, trim_of, contains_seq, dec_digits, digit_char};

/// One index of the vector store, as the engine reads it: its name and its
/// ordered field names.
pub struct IndexSchema {
    pub name: String,
    pub fields: Vec<String>,
}

/// The arguments of one retrieval query.
pub struct RagQueryArgs {
    pub query: String,
    pub limit: Option<usize>,
}

/// A failure of the retrieval pipeline, with a user-facing message.
pub struct RagEngineError(pub String);

/// One retrieved document: its similarity score in ten-thousandths, its
/// point id, and its fields as display texts — or no fields at all when the
/// stored document is not an object.
pub struct ScoredDocument {
    pub score_scaled: u32,
    pub id: String,
    pub fields: Option<Vec<(String, String)>>,
}

/// A text with every leading and trailing double quote removed.
pub open spec fn trim_quotes(s: Seq<char>) -> Seq<char>
    decreases s.len(),
{
    if s.len() > 0 && s[0] == '"' {
        trim_quotes(s.skip(1))
    } else if s.len() > 0 && s.last() == '"' {
        trim_quotes(s.drop_last())
    } else {
        s
    }
}

fn trim_quotes_exec(v: Vec<char>) -> (r: Vec<char>)
    ensures
        r@ == trim_quotes(v@),
    decreases v@.len(),
{
    if v.len() > 0 && v[0] == '"' {
        let rest = crate::text::slice_of(&v, 1, v.len());
        proof {
            assert(rest@ =~= v@.skip(1));
        }
        trim_quotes_exec(rest)
    } else if v.len() > 0 && v[v.len() - 1] == '"' {
        proof {
            assert(v@.last() == v@[v@.len() - 1]);
        }
        let rest = crate::text::slice_of(&v, 0, v.len() - 1);
        proof {
            assert(rest@ =~= v@.drop_last());
        }
        trim_quotes_exec(rest)
    } else {
        proof {
            if v@.len() > 0 {
                assert(v@.last() == v@[v@.len() - 1]);
            }
        }
        v
    }
}

/// What a topic-inference completion resolves to: the response trimmed of
/// whitespace, stripped of surrounding quotes, and lowercased.
pub open spec fn cleaned_topic_of(resp: Seq<char>) -> Seq<char> {
    lower_of(trim_quotes(trim_of(resp)))
}

/// Cleans a topic-inference completion into a candidate topic name.
pub fn clean_topic(resp: &str) -> (r: String)
    ensures
        r@ == cleaned_topic_of(resp@),
{
    let trimmed = crate::text::trim_str(resp);
    let unquoted = trim_quotes_exec(crate::text::str_to_chars(trimmed.as_str()));
    let s = crate::text::chars_to_string(&unquoted);
    crate::text::lower_str(s.as_str())
}

/// True when some schema carries the given name.
pub open spec fn schema_known(schemas: Seq<IndexSchema>, topic: Seq<char>) -> bool {
    exists|j: int| 0 <= j < schemas.len() && schemas[j].name@ == topic
}

/// Decides whether a schema of the given name exists.
pub fn topic_known(schemas: &Vec<IndexSchema>, topic: &str) -> (r: bool)
    ensures
        r == schema_known(schemas@, topic@),
{
    let mut k: usize = 0;
    while k < schemas.len()
        invariant
            k <= schemas@.len(),
            forall|j: int| 0 <= j < k ==> schemas@[j].name@ != topic@,
        decreases schemas@.len() - k,
    {
        if crate::text::str_eq(schemas[k].name.as_str(), topic) {
            return true;
        }
        k += 1;
    }
    false
}

/// True when a cleaned topic fails to resolve: it is empty, it is the
/// literal `none`, or it names no known schema. Such a topic sends the
/// engine down the fallback-resolver path.
pub open spec fn topic_unresolved(topic: Seq<char>, schemas: Seq<IndexSchema>) -> bool {
    topic.len() == 0 || topic == "none"@ || !schema_known(schemas, topic)
}

/// Decides whether a cleaned topic triggers the fallback resolver.
pub fn needs_fallback(topic: &str, schemas: &Vec<IndexSchema>) -> (r: bool)
    ensures
        r == topic_unresolved(topic@, schemas@),
{
    if topic.unicode_len() == 0 {
        return true;
    }
    if crate::text::str_eq(topic, "none") {
        return true;
    }
    !topic_known(schemas, topic)
}

/// The message of the error raised when neither resolver finds a topic.
pub fn topic_resolution_error() -> (r: RagEngineError)
    ensures
        r.0@
            == "Could not determine the correct data category for your question after multiple attempts. Please try rephrasing."@,
{
    RagEngineError(
        String::from_str(
            "Could not determine the correct data category for your question after multiple attempts. Please try rephrasing.",
        ),
    )
}

/// True when a lowercased question asks for a quantity, which short-cuts the
/// turn to a document count with no further model call.
pub open spec fn count_question(lq: Seq<char>) -> bool {
    contains_seq(lq, "count"@) || contains_seq(lq, "total"@) || contains_seq(lq, "how many"@)
        || contains_seq(lq, "how much"@)
}

/// Decides whether a lowercased question takes the count shortcut.
pub fn is_count_question(lower_q: &str) -> (r: bool)
    ensures
        r == count_question(lower_q@),
{
    let chars = crate::text::str_to_chars(lower_q);
    crate::text::contains_sub(&chars, &crate::text::str_to_chars("count"))
        || crate::text::contains_sub(&chars, &crate::text::str_to_chars("total"))
        || crate::text::contains_sub(&chars, &crate::text::str_to_chars("how many"))
        || crate::text::contains_sub(&chars, &crate::text::str_to_chars("how much"))
}

/// Renders a document count as the final answer text.
pub fn count_answer(count: u64) -> (r: String)
    ensures
        r@ == dec_digits(count as nat),
{
    crate::text::u64_to_string(count)
}

/// The compact one-line summary of one schema for the fallback resolver.
pub open spec fn schema_summary_line(s: IndexSchema) -> Seq<char> {
    "- "@ + s.name@ + ": fields="@ + joined_fields(s.fields@, 0)
}

/// The field names from index `i` on, joined by commas.
pub open spec fn joined_fields(fs: Seq<String>, i: int) -> Seq<char>
    decreases fs.len() - i,
{
    if i < 0 || i >= fs.len() {
        Seq::empty()
    } else if i == fs.len() - 1 {
        fs[i]@
    } else {
        fs[i]@ + ", "@ + joined_fields(fs, i + 1)
    }
}

/// The schema summaries from index `i` on, one line each.
pub open spec fn summary_lines(schemas: Seq<IndexSchema>, i: int) -> Seq<char>
    decreases schemas.len() - i,
{
    if i < 0 || i >= schemas.len() {
        Seq::empty()
    } else if i == schemas.len() - 1 {
        schema_summary_line(schemas[i])
    } else {
        schema_summary_line(schemas[i]) + "\n"@ + summary_lines(schemas, i + 1)
    }
}

fn joined_fields_from(fs: &Vec<String>, i: usize) -> (r: Vec<char>)
    requires
        i <= fs@.len(),
    ensures
        r@ == joined_fields(fs@, i as int),
    decreases fs@.len() - i,
{
    if i >= fs.len() {
        let r: Vec<char> = Vec::new();
        proof {
            assert(r@ =~= joined_fields(fs@, i as int));
        }
        return r;
    }
    let mut out = crate::text::str_to_chars(fs[i].as_str());
    if i == fs.len() - 1 {
        out
    } else {
        crate::text::append_chars(&mut out, &crate::text::str_to_chars(", "));
        let rest = joined_fields_from(fs, i + 1);
        crate::text::append_chars(&mut out, &rest);
        out
    }
}

fn summary_from(schemas: &Vec<IndexSchema>, i: usize) -> (r: Vec<char>)
    requires
        i <= schemas@.len(),
    ensures
        r@ == summary_lines(schemas@, i as int),
    decreases schemas@.len() - i,
{
    if i >= schemas.len() {
        let r: Vec<char> = Vec::new();
        proof {
            assert(r@ =~= summary_lines(schemas@, i as int));
        }
        return r;
    }
    let s = &schemas[i];
    let mut line = crate::text::str_to_chars("- ");
    crate::text::append_chars(&mut line, &crate::text::str_to_chars(s.name.as_str()));
    crate::text::append_chars(&mut line, &crate::text::str_to_chars(": fields="));
    let fields = joined_fields_from(&s.fields, 0);
    crate::text::append_chars(&mut line, &fields);
    proof {
        assert(line@ == schema_summary_line(schemas@[i as int]));
    }
    if i == schemas.len() - 1 {
        line
    } else {
        crate::text::append_chars(&mut line, &crate::text::str_to_chars("\n"));
        let rest = summary_from(schemas, i + 1);
        crate::text::append_chars(&mut line, &rest);
        line
    }
}

/// Renders the compact schema summary handed to the fallback resolver: one
/// `- name: fields=a, b` line per schema.
pub fn schema_summary(schemas: &Vec<IndexSchema>) -> (r: String)
    ensures
        r@ == summary_lines(schemas@, 0),
{
    let v = summary_from(schemas, 0);
    crate::text::chars_to_string(&v)
}

/// True for an ASCII punctuation character.
pub open spec fn is_ascii_punct(c: char) -> bool {
    (33 <= c as u32 <= 47) || (58 <= c as u32 <= 64) || (91 <= c as u32 <= 96) || (123 <= c as u32
        <= 126)
}

/// True for an ASCII whitespace character.
pub open spec fn is_space(c: char) -> bool {
    c == ' ' || c == '\t' || c == '\n' || c == '\r'
}

/// A text with trailing ASCII punctuation removed.
pub open spec fn strip_trailing_punct(s: Seq<char>) -> Seq<char>
    decreases s.len(),
{
    if s.len() > 0 && is_ascii_punct(s.last()) {
        strip_trailing_punct(s.drop_last())
    } else {
        s
    }
}

/// A text with trailing spaces removed.
pub open spec fn strip_trailing_spaces(s: Seq<char>) -> Seq<char>
    decreases s.len(),
{
    if s.len() > 0 && is_space(s.last()) {
        strip_trailing_spaces(s.drop_last())
    } else {
        s
    }
}

/// A text with leading spaces removed.
pub open spec fn strip_leading_spaces(s: Seq<char>) -> Seq<char>
    decreases s.len(),
{
    if s.len() > 0 && is_space(s[0]) {
        strip_leading_spaces(s.skip(1))
    } else {
        s
    }
}

/// The maximal run of non-space characters at the end of a text.
pub open spec fn trailing_word(s: Seq<char>) -> Seq<char>
    decreases s.len(),
{
    if s.len() > 0 && !is_space(s.last()) {
        trailing_word(s.drop_last()).push(s.last())
    } else {
        Seq::empty()
    }
}

/// The maximal run of non-space characters at the start of a text.
pub open spec fn leading_word(s: Seq<char>) -> Seq<char>
    decreases s.len(),
{
    if s.len() > 0 && !is_space(s[0]) {
        seq![s[0]] + leading_word(s.skip(1))
    } else {
        Seq::empty()
    }
}

/// The last word of a text: the trailing non-space run after trailing spaces
/// are dropped.
pub open spec fn last_word(s: Seq<char>) -> Seq<char> {
    trailing_word(strip_trailing_spaces(s))
}

/// The first word of a text.
pub open spec fn first_word(s: Seq<char>) -> Seq<char> {
    leading_word(strip_leading_spaces(s))
}

/// True when a word is one of the leading verbs the term extractor drops.
pub open spec fn is_leading_verb(w: Seq<char>) -> bool {
    w == "list"@ || w == "show"@ || w == "give"@ || w == "tell"@ || w == "what"@ || w == "find"@
}

/// True when a text holds at most one word: trimmed of spaces on both
/// sides, it has no space left inside.
pub open spec fn single_word(s: Seq<char>) -> bool {
    forall|j: int|
        0 <= j < strip_leading_spaces(strip_trailing_spaces(s)).len() ==> !is_space(
            #[trigger] strip_leading_spaces(strip_trailing_spaces(s))[j],
        )
}

/// The question as the term extractor prepares it: trailing punctuation
/// dropped, lowercased, and cut before the first ` from `.
pub open spec fn prepared_question(q: Seq<char>) -> Seq<char> {
    let lowered = lower_of(strip_trailing_punct(q));
    match crate::clean::first_match_from(lowered, " from "@, 0) {
        Some(p) => lowered.subrange(0, p),
        None => lowered,
    }
}

/// The search term of a question: the last word of the prepared question,
/// with a leading verb dropped — so a lone verb yields no term.
pub open spec fn term_of(q: Seq<char>) -> Seq<char> {
    let p = prepared_question(q);
    if last_word(p).len() == 0 {
        Seq::empty()
    } else if is_leading_verb(first_word(p)) && single_word(p) {
        Seq::empty()
    } else {
        last_word(p)
    }
}

fn strip_trailing_punct_exec(v: Vec<char>) -> (r: Vec<char>)
    ensures
        r@ == strip_trailing_punct(v@),
    decreases v@.len(),
{
    if v.len() > 0 {
        let c = v[v.len() - 1];
        let u = c as u32;
        let punct = (33 <= u && u <= 47) || (58 <= u && u <= 64) || (91 <= u && u <= 96) || (123
            <= u && u <= 126);
        proof {
            assert(v@.last() == v@[v@.len() - 1]);
        }
        if punct {
            let rest = crate::text::slice_of(&v, 0, v.len() - 1);
            proof {
                assert(rest@ =~= v@.drop_last());
            }
            return strip_trailing_punct_exec(rest);
        }
        v
    } else {
        v
    }
}

fn is_space_exec(c: char) -> (r: bool)
    ensures
        r == is_space(c),
{
    c == ' ' || c == '\t' || c == '\n' || c == '\r'
}

fn strip_trailing_spaces_exec(v: Vec<char>) -> (r: Vec<char>)
    ensures
        r@ == strip_trailing_spaces(v@),
    decreases v@.len(),
{
    if v.len() > 0 && is_space_exec(v[v.len() - 1]) {
        proof {
            assert(v@.last() == v@[v@.len() - 1]);
        }
        let rest = crate::text::slice_of(&v, 0, v.len() - 1);
        proof {
            assert(rest@ =~= v@.drop_last());
        }
        strip_trailing_spaces_exec(rest)
    } else {
        proof {
            if v@.len() > 0 {
                assert(v@.last() == v@[v@.len() - 1]);
            }
        }
        v
    }
}

fn strip_leading_spaces_exec(v: Vec<char>) -> (r: Vec<char>)
    ensures
        r@ == strip_leading_spaces(v@),
    decreases v@.len(),
{
    if v.len() > 0 && is_space_exec(v[0]) {
        let rest = crate::text::slice_of(&v, 1, v.len());
        proof {
            assert(rest@ =~= v@.skip(1));
        }
        strip_leading_spaces_exec(rest)
    } else {
        v
    }
}

fn trailing_word_exec(v: &Vec<char>) -> (r: Vec<char>)
    ensures
        r@ == trailing_word(v@),
{
    let mut k: usize = v.len();
    proof {
        assert(v@.subrange(0, k as int) =~= v@);
        assert(v@.subrange(k as int, v@.len() as int) =~= Seq::<char>::empty());
        assert(trailing_word(v@) =~= trailing_word(v@.subrange(0, k as int)) + v@.subrange(
            k as int,
            v@.len() as int,
        ));
    }
    while k > 0 && !is_space_exec(v[k - 1])
        invariant
            k <= v@.len(),
            trailing_word(v@) == trailing_word(v@.subrange(0, k as int)) + v@.subrange(
                k as int,
                v@.len() as int,
            ),
        decreases k,
    {
        proof {
            assert(v@.subrange(0, k as int).last() == v@[k - 1]);
            assert(v@.subrange(0, k as int).drop_last() =~= v@.subrange(0, k - 1));
            assert(trailing_word(v@.subrange(0, k as int)) =~= trailing_word(
                v@.subrange(0, k - 1),
            ).push(v@[k - 1]));
            assert(trailing_word(v@.subrange(0, k - 1)).push(v@[k - 1]) + v@.subrange(
                k as int,
                v@.len() as int,
            ) =~= trailing_word(v@.subrange(0, k - 1)) + v@.subrange(k - 1, v@.len() as int));
        }
        k -= 1;
    }
    proof {
        if k == 0 {
            assert(v@.subrange(0, 0) =~= Seq::<char>::empty());
            assert(trailing_word(v@.subrange(0, 0)) =~= Seq::<char>::empty());
        } else {
            assert(v@.subrange(0, k as int).last() == v@[k - 1]);
            assert(trailing_word(v@.subrange(0, k as int)) =~= Seq::<char>::empty());
        }
        assert(trailing_word(v@) =~= v@.subrange(k as int, v@.len() as int));
    }
    crate::text::slice_of(v, k, v.len())
}

fn leading_word_exec(v: &Vec<char>) -> (r: Vec<char>)
    ensures
        r@ == leading_word(v@),
{
    let mut k: usize = 0;
    proof {
        assert(v@.subrange(0, 0) =~= Seq::<char>::empty());
        assert(v@.subrange(0, v@.len() as int) =~= v@);
        assert(leading_word(v@) =~= v@.subrange(0, 0) + leading_word(
            v@.subrange(0, v@.len() as int),
        ));
    }
    while k < v.len() && !is_space_exec(v[k])
        invariant
            k <= v@.len(),
            leading_word(v@) == v@.subrange(0, k as int) + leading_word(
                v@.subrange(k as int, v@.len() as int),
            ),
        decreases v@.len() - k,
    {
        proof {
            assert(v@.subrange(k as int, v@.len() as int)[0] == v@[k as int]);
            assert(v@.subrange(k as int, v@.len() as int).skip(1) =~= v@.subrange(
                k as int + 1,
                v@.len() as int,
            ));
            assert(leading_word(v@.subrange(k as int, v@.len() as int)) =~= seq![v@[k as int]]
                + leading_word(v@.subrange(k as int + 1, v@.len() as int)));
            assert(v@.subrange(0, k as int) + (seq![v@[k as int]] + leading_word(
                v@.subrange(k as int + 1, v@.len() as int),
            )) =~= v@.subrange(0, k as int + 1) + leading_word(
                v@.subrange(k as int + 1, v@.len() as int),
            ));
        }
        k += 1;
    }
    proof {
        if k == v@.len() {
            assert(v@.subrange(k as int, v@.len() as int) =~= Seq::<char>::empty());
            assert(leading_word(v@.subrange(k as int, v@.len() as int)) =~= Seq::<char>::empty());
        } else {
            assert(v@.subrange(k as int, v@.len() as int)[0] == v@[k as int]);
            assert(leading_word(v@.subrange(k as int, v@.len() as int)) =~= Seq::<char>::empty());
        }
        assert(leading_word(v@) =~= v@.subrange(0, k as int));
    }
    crate::text::slice_of(v, 0, k)
}

/// Extracts the search term of a question: trailing punctuation is dropped,
/// the text is lowercased and cut before ` from `, a leading verb such as
/// `list` or `show` is ignored, and the last remaining word is the term.
pub fn extract_field_term(question: &str) -> (r: String)
    ensures
        r@ == term_of(question@),
{
    let stripped = strip_trailing_punct_exec(crate::text::str_to_chars(question));
    let stripped_str = crate::text::chars_to_string(&stripped);
    let lowered = crate::text::lower_str(stripped_str.as_str());
    let lowered_chars = crate::text::str_to_chars(lowered.as_str());
    let prepared = match crate::clean::find_from(
        &lowered_chars,
        &crate::text::str_to_chars(" from "),
        0,
    ) {
        Some(p) => {
            proof {
                crate::clean::lemma_first_match_bounds(lowered_chars@, " from "@, 0, p as int);
            }
            crate::text::slice_of(&lowered_chars, 0, p)
        },
        None => crate::text::slice_of(&lowered_chars, 0, lowered_chars.len()),
    };
    proof {
        assert(prepared@ =~= prepared_question(question@));
    }
    let last = trailing_word_exec(&strip_trailing_spaces_exec(crate::text::slice_of(
        &prepared,
        0,
        prepared.len(),
    )));
    proof {
        assert(prepared@.subrange(0, prepared@.len() as int) =~= prepared@);
    }
    if last.len() == 0 {
        let r = String::new();
        proof {
            assert(r@ =~= term_of(question@));
        }
        return r;
    }
    let fw = leading_word_exec(&strip_leading_spaces_exec(crate::text::slice_of(
        &prepared,
        0,
        prepared.len(),
    )));
    let fw_str = crate::text::chars_to_string(&fw);
    let verb = crate::text::str_eq(fw_str.as_str(), "list") || crate::text::str_eq(
        fw_str.as_str(),
        "show",
    ) || crate::text::str_eq(fw_str.as_str(), "give") || crate::text::str_eq(
        fw_str.as_str(),
        "tell",
    ) || crate::text::str_eq(fw_str.as_str(), "what") || crate::text::str_eq(
        fw_str.as_str(),
        "find",
    );
    if verb {
        let trimmed_both = strip_leading_spaces_exec(strip_trailing_spaces_exec(
            crate::text::slice_of(&prepared, 0, prepared.len()),
        ));
        let mut k: usize = 0;
        let mut has_inner_space = false;
        while k < trimmed_both.len()
            invariant
                k <= trimmed_both@.len(),
                has_inner_space == exists|j: int|
                    0 <= j < k && is_space(#[trigger] trimmed_both@[j]),
            decreases trimmed_both@.len() - k,
        {
            if is_space_exec(trimmed_both[k]) {
                has_inner_space = true;
            }
            k += 1;
        }
        if !has_inner_space {
            let r = String::new();
            proof {
                assert(single_word(prepared@));
                assert(r@ =~= term_of(question@));
            }
            return r;
        }
        proof {
            assert(!single_word(prepared@));
        }
    }
    crate::text::chars_to_string(&last)
}

/// A field name normalized for matching: lowercased, with underscores
/// removed.
pub open spec fn normalized_field(f: Seq<char>) -> Seq<char> {
    crate::text::replace_seq(lower_of(f), "_"@, ""@)
}

/// A term normalized for matching: with underscores, hyphens and spaces
/// removed (the term is already lowercase).
pub open spec fn normalized_term(t: Seq<char>) -> Seq<char> {
    crate::text::replace_seq(
        crate::text::replace_seq(crate::text::replace_seq(t, "_"@, ""@), "-"@, ""@),
        " "@,
        ""@,
    )
}

/// Normalizes a term for field matching.
pub fn normalize_term(t: &str) -> (r: String)
    ensures
        r@ == normalized_term(t@),
{
    let empty = crate::text::str_to_chars("");
    let v = crate::text::str_to_chars(t);
    let v = crate::text::replace_all(&v, &crate::text::str_to_chars("_"), &empty);
    let v = crate::text::replace_all(&v, &crate::text::str_to_chars("-"), &empty);
    let v = crate::text::replace_all(&v, &crate::text::str_to_chars(" "), &empty);
    crate::text::chars_to_string(&v)
}

/// The first field whose normalized name equals the normalized term.
pub open spec fn exact_field_index(fields: Seq<String>, norm_term: Seq<char>, i: int) -> Option<
    int,
>
    decreases fields.len() - i,
{
    if i < 0 || i >= fields.len() {
        None
    } else if normalized_field(fields[i]@) == norm_term {
        Some(i)
    } else {
        exact_field_index(fields, norm_term, i + 1)
    }
}

fn match_field_from(fields: &Vec<String>, norm_term: &str, i: usize) -> (r: Option<usize>)
    requires
        i <= fields@.len(),
    ensures
        match r {
            Some(k) => exact_field_index(fields@, norm_term@, i as int) == Some(k as int),
            None => exact_field_index(fields@, norm_term@, i as int) is None,
        },
    decreases fields@.len() - i,
{
    if i >= fields.len() {
        return None;
    }
    let lowered = crate::text::lower_str(fields[i].as_str());
    let lowered_chars = crate::text::str_to_chars(lowered.as_str());
    let norm = crate::text::replace_all(
        &lowered_chars,
        &crate::text::str_to_chars("_"),
        &crate::text::str_to_chars(""),
    );
    if crate::text::chars_eq(&norm, &crate::text::str_to_chars(norm_term)) {
        Some(i)
    } else {
        match_field_from(fields, norm_term, i + 1)
    }
}

/// Resolves the projection for a question: the first field whose normalized
/// name equals the question's normalized term, if any. When this misses, a
/// similarity fallback outside the library may supply a candidate instead.
pub fn resolve_field_exact(question: &str, fields: &Vec<String>) -> (r: Option<usize>)
    ensures
        match r {
            Some(k) => exact_field_index(fields@, normalized_term(term_of(question@)), 0) == Some(
                k as int,
            ),
            None => exact_field_index(fields@, normalized_term(term_of(question@)), 0) is None,
        },
{
    let term = extract_field_term(question);
    let norm = normalize_term(term.as_str());
    match_field_from(fields, norm.as_str(), 0)
}

/// Lexicographic order on texts by code point, as date strings compare.
pub open spec fn lex_lt(a: Seq<char>, b: Seq<char>) -> bool
    decreases a.len(),
{
    if b.len() == 0 {
        false
    } else if a.len() == 0 {
        true
    } else if a[0] as u32 != b[0] as u32 {
        (a[0] as u32) < (b[0] as u32)
    } else {
        lex_lt(a.skip(1), b.skip(1))
    }
}

fn chars_lt(a: &Vec<char>, b: &Vec<char>) -> (r: bool)
    ensures
        r == lex_lt(a@, b@),
    decreases a@.len(),
{
    if b.len() == 0 {
        false
    } else if a.len() == 0 {
        true
    } else if a[0] as u32 != b[0] as u32 {
        (a[0] as u32) < (b[0] as u32)
    } else {
        let ra = crate::text::slice_of(a, 1, a.len());
        let rb = crate::text::slice_of(b, 1, b.len());
        proof {
            assert(ra@ =~= a@.skip(1));
            assert(rb@ =~= b@.skip(1));
        }
        chars_lt(&ra, &rb)
    }
}

proof fn lemma_lex_irrefl(a: Seq<char>)
    ensures
        !lex_lt(a, a),
    decreases a.len(),
{
    if a.len() > 0 {
        lemma_lex_irrefl(a.skip(1));
    }
}

proof fn lemma_lex_lt_trans(a: Seq<char>, b: Seq<char>, c: Seq<char>)
    requires
        lex_lt(a, b),
        lex_lt(b, c),
    ensures
        lex_lt(a, c),
    decreases a.len(),
{
    if a.len() > 0 && b.len() > 0 && c.len() > 0 && a[0] as u32 == b[0] as u32 && b[0] as u32
        == c[0] as u32 {
        lemma_lex_lt_trans(a.skip(1), b.skip(1), c.skip(1));
    }
}

proof fn lemma_lex_le_lt_trans(a: Seq<char>, b: Seq<char>, c: Seq<char>)
    requires
        !lex_lt(b, a),
        lex_lt(b, c),
    ensures
        lex_lt(a, c),
    decreases a.len(),
{
    if b.len() == 0 {
        assert(a.len() == 0);
    } else if a.len() > 0 && c.len() > 0 && a[0] as u32 == b[0] as u32 && b[0] as u32 == c[0]
        as u32 {
        lemma_lex_le_lt_trans(a.skip(1), b.skip(1), c.skip(1));
    }
}

/// The date a document sorts by: its `end_date` field, or `0000-00-00` when
/// the field or the document body is missing.
pub open spec fn end_date_of(d: ScoredDocument) -> Seq<char> {
    match d.fields {
        Some(fs) => match crate::prompt::tpl_lookup(crate::prompt::pairs_view(fs@), "end_date"@) {
            Some(v) => v,
            None => "0000-00-00"@,
        },
        None => "0000-00-00"@,
    }
}

fn end_date(d: &ScoredDocument) -> (r: Vec<char>)
    ensures
        r@ == end_date_of(*d),
{
    match &d.fields {
        Some(fs) => match crate::prompt::lookup_template(fs, "end_date") {
            Some(v) => crate::text::str_to_chars(v.as_str()),
            None => crate::text::str_to_chars("0000-00-00"),
        },
        None => crate::text::str_to_chars("0000-00-00"),
    }
}

/// For a recency question on a dated topic, keeps only the hit with the
/// newest `end_date`; ties keep the earliest hit. A list of one or none is
/// returned unchanged.
pub fn pick_latest(hits: Vec<ScoredDocument>) -> (r: Vec<ScoredDocument>)
    ensures
        hits@.len() <= 1 ==> r@ == hits@,
        hits@.len() > 1 ==> r@.len() == 1 && exists|i: int|
            #![trigger hits@[i]]
            0 <= i < hits@.len() && r@[0] == hits@[i] && (forall|j: int|
                0 <= j < hits@.len() ==> !lex_lt(end_date_of(hits@[i]), end_date_of(
                    #[trigger] hits@[j],
                ))) && (forall|j: int|
                0 <= j < i ==> lex_lt(end_date_of(#[trigger] hits@[j]), end_date_of(hits@[i]))),
{
    if hits.len() <= 1 {
        return hits;
    }
    let mut best: usize = 0;
    let mut best_date = end_date(&hits[0]);
    let mut k: usize = 1;
    proof {
        lemma_lex_irrefl(best_date@);
    }
    while k < hits.len()
        invariant
            hits@.len() > 1,
            best < k <= hits@.len(),
            best_date@ == end_date_of(hits@[best as int]),
            forall|j: int| 0 <= j < k ==> !lex_lt(best_date@, end_date_of(#[trigger] hits@[j])),
            forall|j: int| 0 <= j < best ==> lex_lt(end_date_of(#[trigger] hits@[j]), best_date@),
        decreases hits@.len() - k,
    {
        let date_k = end_date(&hits[k]);
        if chars_lt(&best_date, &date_k) {
            proof {
                lemma_lex_irrefl(date_k@);
                assert forall|j: int|
                    0 <= j < k implies !lex_lt(date_k@, end_date_of(
                    #[trigger] hits@[j],
                )) by {
                    if lex_lt(date_k@, end_date_of(hits@[j])) {
                        lemma_lex_lt_trans(best_date@, date_k@, end_date_of(hits@[j]));
                    }
                }
                assert forall|j: int|
                    0 <= j < k implies lex_lt(end_date_of(#[trigger] hits@[j]), date_k@) by {
                    if j < best {
                        lemma_lex_lt_trans(end_date_of(hits@[j]), best_date@, date_k@);
                    } else {
                        lemma_lex_le_lt_trans(end_date_of(hits@[j]), best_date@, date_k@);
                    }
                }
            }
            best = k;
            best_date = date_k;
        }
        k += 1;
    }
    let ghost hits_view = hits@;
    let ghost best_idx = best as int;
    let mut hits = hits;
    let chosen = hits.remove(best);
    let mut out: Vec<ScoredDocument> = Vec::new();
    out.push(chosen);
    proof {
        assert(out@[0] == hits_view[best_idx]);
    }
    out
}

/// True for a topic whose documents carry completion dates, where a recency
/// question narrows the hits to the newest one.
pub fn is_recency_topic(topic: &str) -> (r: bool)
    ensures
        r == (topic@ == "experience"@ || topic@ == "education"@ || topic@ == "portfolio"@),
{
    crate::text::str_eq(topic, "experience") || crate::text::str_eq(topic, "education")
        || crate::text::str_eq(topic, "portfolio")
}

/// True when a lowercased question asks for the most recent entries.
pub open spec fn recency_question(lq: Seq<char>) -> bool {
    contains_seq(lq, "latest"@) || contains_seq(lq, "recent"@) || contains_seq(lq, "newest"@)
        || contains_seq(lq, "current"@)
}

/// Decides whether a lowercased question asks for the most recent entries.
pub fn is_recency_question(lower_q: &str) -> (r: bool)
    ensures
        r == recency_question(lower_q@),
{
    let chars = crate::text::str_to_chars(lower_q);
    crate::text::contains_sub(&chars, &crate::text::str_to_chars("latest"))
        || crate::text::contains_sub(&chars, &crate::text::str_to_chars("recent"))
        || crate::text::contains_sub(&chars, &crate::text::str_to_chars("newest"))
        || crate::text::contains_sub(&chars, &crate::text::str_to_chars("current"))
}

/// True for a field that is never printed into a prompt.
pub open spec fn opaque_field(k: Seq<char>) -> bool {
    k == "vector"@ || k == "pdf"@ || k == "describe_pdf_data"@ || k == "portfolio_detail_pdf_data"@
}

/// A similarity score in ten-thousandths rendered with four decimals.
pub open spec fn score_text(n: u32) -> Seq<char> {
    dec_digits((n / 10000) as nat) + "."@ + seq![
        digit_char(((n / 1000) % 10) as nat),
        digit_char(((n / 100) % 10) as nat),
        digit_char(((n / 10) % 10) as nat),
        digit_char((n % 10) as nat),
    ]
}

fn render_score(n: u32) -> (r: Vec<char>)
    ensures
        r@ == score_text(n),
{
    let mut out = crate::text::u64_to_chars((n / 10000) as u64);
    crate::text::append_chars(&mut out, &crate::text::str_to_chars("."));
    out.push(crate::text::digit_to_char_pub(((n / 1000) % 10) as u64));
    out.push(crate::text::digit_to_char_pub(((n / 100) % 10) as u64));
    out.push(crate::text::digit_to_char_pub(((n / 10) % 10) as u64));
    out.push(crate::text::digit_to_char_pub((n % 10) as u64));
    proof {
        assert(out@ =~= score_text(n));
    }
    out
}

/// The printed lines of a document's fields from index `i` on, opaque
/// fields skipped.
pub open spec fn field_lines(fs: Seq<(String, String)>, i: int) -> Seq<char>
    decreases fs.len() - i,
{
    if i < 0 || i >= fs.len() {
        Seq::empty()
    } else {
        (if opaque_field(fs[i].0@) {
            Seq::<char>::empty()
        } else {
            "  - "@ + fs[i].0@ + ": "@ + fs[i].1@ + "
"@
        }) + field_lines(fs, i + 1)
    }
}

/// The printed block of one document: its header, its field lines (or a
/// placeholder when it has none or is not an object), and a blank line.
pub open spec fn doc_block(d: ScoredDocument) -> Seq<char> {
    "Document ID: "@ + d.id@ + " (Score: "@ + score_text(d.score_scaled) + ")
"@ + (match d.fields {
        Some(fs) => if fs@.len() == 0 {
            "  - (No fields retrieved for this document)
"@
        } else {
            field_lines(fs@, 0)
        },
        None => "  - Document content is not a valid JSON object.
"@,
    }) + "
"@
}

/// The printed blocks of the documents from index `i` on.
pub open spec fn doc_blocks(hits: Seq<ScoredDocument>, i: int) -> Seq<char>
    decreases hits.len() - i,
{
    if i < 0 || i >= hits.len() {
        Seq::empty()
    } else {
        doc_block(hits[i]) + doc_blocks(hits, i + 1)
    }
}

/// What the document section of the final prompt holds: a block per hit, or
/// a fixed line when nothing was retrieved.
pub open spec fn documents_text(hits: Seq<ScoredDocument>) -> Seq<char> {
    if hits.len() == 0 {
        "No relevant documents found."@
    } else {
        doc_blocks(hits, 0)
    }
}

fn field_lines_from(fs: &Vec<(String, String)>, i: usize) -> (r: Vec<char>)
    requires
        i <= fs@.len(),
    ensures
        r@ == field_lines(fs@, i as int),
    decreases fs@.len() - i,
{
    if i >= fs.len() {
        let r: Vec<char> = Vec::new();
        proof {
            assert(r@ =~= field_lines(fs@, i as int));
        }
        return r;
    }
    let pair = &fs[i];
    let k = pair.0.as_str();
    let mut out: Vec<char> = Vec::new();
    if !(crate::text::str_eq(k, "vector") || crate::text::str_eq(k, "pdf") || crate::text::str_eq(
        k,
        "describe_pdf_data",
    ) || crate::text::str_eq(k, "portfolio_detail_pdf_data")) {
        crate::text::append_chars(&mut out, &crate::text::str_to_chars("  - "));
        crate::text::append_chars(&mut out, &crate::text::str_to_chars(k));
        crate::text::append_chars(&mut out, &crate::text::str_to_chars(": "));
        crate::text::append_chars(&mut out, &crate::text::str_to_chars(pair.1.as_str()));
        crate::text::append_chars(&mut out, &crate::text::str_to_chars("
"));
    }
    let rest = field_lines_from(fs, i + 1);
    crate::text::append_chars(&mut out, &rest);
    proof {
        assert(out@ =~= field_lines(fs@, i as int));
    }
    out
}

fn doc_blocks_from(hits: &Vec<ScoredDocument>, i: usize) -> (r: Vec<char>)
    requires
        i <= hits@.len(),
    ensures
        r@ == doc_blocks(hits@, i as int),
    decreases hits@.len() - i,
{
    if i >= hits.len() {
        let r: Vec<char> = Vec::new();
        proof {
            assert(r@ =~= doc_blocks(hits@, i as int));
        }
        return r;
    }
    let d = &hits[i];
    let mut out = crate::text::str_to_chars("Document ID: ");
    crate::text::append_chars(&mut out, &crate::text::str_to_chars(d.id.as_str()));
    crate::text::append_chars(&mut out, &crate::text::str_to_chars(" (Score: "));
    let score = render_score(d.score_scaled);
    crate::text::append_chars(&mut out, &score);
    crate::text::append_chars(&mut out, &crate::text::str_to_chars(")
"));
    match &d.fields {
        Some(fs) => {
            if fs.len() == 0 {
                crate::text::append_chars(
                    &mut out,
                    &crate::text::str_to_chars("  - (No fields retrieved for this document)
"),
                );
            } else {
                let lines = field_lines_from(fs, 0);
                crate::text::append_chars(&mut out, &lines);
            }
        },
        None => {
            crate::text::append_chars(
                &mut out,
                &crate::text::str_to_chars("  - Document content is not a valid JSON object.
"),
            );
        },
    }
    crate::text::append_chars(&mut out, &crate::text::str_to_chars("
"));
    proof {
        assert(out@ =~= doc_block(hits@[i as int]));
    }
    let rest = doc_blocks_from(hits, i + 1);
    crate::text::append_chars(&mut out, &rest);
    out
}

/// Renders the retrieved documents into the block the final prompt embeds:
/// a header with id and four-decimal score per document, one line per
/// printable field, and a fixed line when nothing was retrieved.
pub fn format_documents_for_prompt(hits: &Vec<ScoredDocument>) -> (r: String)
    ensures
        r@ == documents_text(hits@),
{
    if hits.len() == 0 {
        return String::from_str("No relevant documents found.");
    }
    let v = doc_blocks_from(hits, 0);
    crate::text::chars_to_string(&v)
}

} // verus!
