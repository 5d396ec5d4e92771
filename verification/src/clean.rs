//! Cosmetic cleanup of user-visible answer text.
//!
//! Streamed answers may carry stray markup and meta-commentary. Before a
//! `partial` fragment or a cached response reaches the client, markup tokens
//! are stripped, meta-commentary is elided up to the next blank line, runs of
//! blank lines are collapsed, and surrounding whitespace is trimmed.

use vstd::prelude::*;

verus! {

use crate::text::{replace_seq, trim_of};

/// The first index at or after `i` where `pat` occurs in `s`.
pub open spec fn first_match_from(s: Seq<char>, pat: Seq<char>, i: int) -> Option<int>
    decreases s.len() - i,
{
    if i < 0 || i + pat.len() > s.len() {
        None
    } else if pat.len() == 0 {
        Some(i)
    } else if s.subrange(i, i + pat.len()) == pat {
        Some(i)
    } else {
        first_match_from(s, pat, i + 1)
    }
}

/// The markup tokens stripped from user-visible text, in order.
pub open spec fn strip_markup(s: Seq<char>) -> Seq<char> {
    replace_seq(
        replace_seq(
            replace_seq(
                replace_seq(
                    replace_seq(replace_seq(s, "\\boxed{"@, ""@), "\\text{"@, ""@),
                    "\\<strong>"@,
                    ""@,
                ),
                "\\</strong>"@,
                ""@,
            ),
            "**Final Answer:**"@,
            ""@,
        ),
        "**"@,
        ""@,
    )
}

/// Elides one meta-commentary pattern: when the pattern occurs and a blank
/// line follows it, the text from the pattern up to and including that
/// blank line goes; what precedes the pattern is kept.
pub open spec fn elide_from(s: Seq<char>, pat: Seq<char>) -> Seq<char> {
    match first_match_from(s, pat, 0) {
        Some(p) => match first_match_from(s, "\n\n"@, p) {
            Some(e) => s.subrange(0, p) + s.skip(e + 2),
            None => s,
        },
        None => s,
    }
}

/// The meta-commentary prefixes elided from user-visible text, in order.
pub open spec fn elide_meta(s: Seq<char>) -> Seq<char> {
    elide_from(
        elide_from(
            elide_from(
                elide_from(elide_from(s, "The user's input is"@), "The appropriate response"@),
                "Final Answer:"@,
            ),
            "In response to"@,
        ),
        "I'll respond with"@,
    )
}

/// What cleanup makes of a text: markup stripped, meta-commentary elided,
/// triple blank lines collapsed, surrounding whitespace trimmed.
pub open spec fn clean_spec(s: Seq<char>) -> Seq<char> {
    trim_of(replace_seq(elide_meta(strip_markup(s)), "\n\n\n"@, "\n\n"@))
}

pub proof fn lemma_first_match_bounds(s: Seq<char>, pat: Seq<char>, i: int, k: int)
    requires
        first_match_from(s, pat, i) == Some(k),
    ensures
        i <= k,
        k + pat.len() <= s.len(),
        s.subrange(k, k + pat.len()) == pat,
    decreases s.len() - i,
{
    if !(i < 0 || i + pat.len() > s.len()) && pat.len() != 0 && s.subrange(i, i + pat.len())
        != pat {
        lemma_first_match_bounds(s, pat, i + 1, k);
    }
}

/// Finds the first occurrence of `pat` in `hay` at or after position `i`.
pub fn find_from(hay: &Vec<char>, pat: &Vec<char>, i: usize) -> (r: Option<usize>)
    ensures
        match r {
            Some(k) => first_match_from(hay@, pat@, i as int) == Some(k as int),
            None => first_match_from(hay@, pat@, i as int) is None,
        },
    decreases hay@.len() - i,
{
    if i > hay.len() || pat.len() > hay.len() - i {
        None
    } else if pat.len() == 0 {
        proof {
            assert(hay@.subrange(i as int, i as int) =~= pat@);
        }
        Some(i)
    } else if crate::text::check_match_at(hay, pat, i) {
        Some(i)
    } else {
        find_from(hay, pat, i + 1)
    }
}

fn elide_one(s: Vec<char>, pat: &Vec<char>, blank: &Vec<char>) -> (r: Vec<char>)
    requires
        blank@ == "\n\n"@,
    ensures
        r@ == elide_from(s@, pat@),
{
    match find_from(&s, pat, 0) {
        Some(p) => {
            match find_from(&s, blank, p) {
                Some(e) => {
                    let n = s.len();
                    proof {
                        lemma_first_match_bounds(s@, pat@, 0, p as int);
                        lemma_first_match_bounds(s@, blank@, p as int, e as int);
                        reveal_strlit("\n\n");
                        assert(blank@.len() == 2);
                        assert(e + 2 <= n);
                    }
                    let mut r = crate::text::slice_of(&s, 0, p);
                    let tail = crate::text::slice_of(&s, e + 2, n);
                    crate::text::append_chars(&mut r, &tail);
                    proof {
                        assert(r@ =~= s@.subrange(0, p as int) + s@.skip(e + 2));
                    }
                    r
                },
                None => s,
            }
        },
        None => s,
    }
}

/// Cleans user-visible answer text: strips markup tokens, elides
/// meta-commentary up to the following blank line, collapses triple blank
/// lines, and trims surrounding whitespace.
pub fn clean_response_text(text: &str) -> (r: String)
    ensures
        r@ == clean_spec(text@),
{
    let s = crate::text::str_to_chars(text);
    let empty = crate::text::str_to_chars("");
    let s = crate::text::replace_all(&s, &crate::text::str_to_chars("\\boxed{"), &empty);
    let s = crate::text::replace_all(&s, &crate::text::str_to_chars("\\text{"), &empty);
    let s = crate::text::replace_all(&s, &crate::text::str_to_chars("\\<strong>"), &empty);
    let s = crate::text::replace_all(&s, &crate::text::str_to_chars("\\</strong>"), &empty);
    let s = crate::text::replace_all(&s, &crate::text::str_to_chars("**Final Answer:**"), &empty);
    let s = crate::text::replace_all(&s, &crate::text::str_to_chars("**"), &empty);
    let blank = crate::text::str_to_chars("\n\n");
    let s = elide_one(s, &crate::text::str_to_chars("The user's input is"), &blank);
    let s = elide_one(s, &crate::text::str_to_chars("The appropriate response"), &blank);
    let s = elide_one(s, &crate::text::str_to_chars("Final Answer:"), &blank);
    let s = elide_one(s, &crate::text::str_to_chars("In response to"), &blank);
    let s = elide_one(s, &crate::text::str_to_chars("I'll respond with"), &blank);
    let s = crate::text::replace_all(&s, &crate::text::str_to_chars("\n\n\n"), &blank);
    let joined = crate::text::chars_to_string(&s);
    crate::text::trim_str(joined.as_str())
}

} // verus!
