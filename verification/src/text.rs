//! Character-level text utilities shared by the whole library.
//!
//! Most of the orchestration logic manipulates text: normalizing prompts,
//! scanning for stream delimiters, rendering templates. Executable code works
//! on `Vec<char>` so that every step is verified against the `Seq<char>` view.

use vstd::prelude::*;
use vstd::string::*;

verus! {

/// True when `pat` occurs in `s` starting at index `i`.
pub open spec fn matches_at(s: Seq<char>, pat: Seq<char>, i: int) -> bool {
    0 <= i && i + pat.len() <= s.len() && s.subrange(i, i + pat.len()) == pat
}

/// True when `pat` occurs somewhere in `s`.
pub open spec fn contains_seq(s: Seq<char>, pat: Seq<char>) -> bool {
    exists|i: int| matches_at(s, pat, i)
}

/// Relies on String::push: appends one character to the string.
#[verifier::external_body]
pub fn push_char(s: &mut String, c: char)
    ensures
        final(s)@ == old(s)@.push(c),
{
    s.push(c);
}

/// Collects the characters of a string slice into a vector.
pub fn str_to_chars(s: &str) -> (r: Vec<char>)
    ensures
        r@ == s@,
{
    let n = s.unicode_len();
    let mut r: Vec<char> = Vec::new();
    let mut i: usize = 0;
    while i < n
        invariant
            n == s@.len(),
            i <= n,
            r@ == s@.subrange(0, i as int),
        decreases n - i,
    {
        let c = s.get_char(i);
        r.push(c);
        i += 1;
        proof {
            assert(r@ =~= s@.subrange(0, i as int));
        }
    }
    proof {
        assert(r@ =~= s@);
    }
    r
}

/// Builds a `String` out of a character vector.
pub fn chars_to_string(v: &Vec<char>) -> (r: String)
    ensures
        r@ == v@,
{
    let mut r = String::new();
    let mut i: usize = 0;
    while i < v.len()
        invariant
            i <= v@.len(),
            r@ == v@.subrange(0, i as int),
        decreases v@.len() - i,
    {
        push_char(&mut r, v[i]);
        i += 1;
        proof {
            assert(r@ =~= v@.subrange(0, i as int));
        }
    }
    proof {
        assert(r@ =~= v@);
    }
    r
}

/// Compares `hay` against `pat` at position `i`.
pub fn check_match_at(hay: &Vec<char>, pat: &Vec<char>, i: usize) -> (r: bool)
    requires
        i + pat@.len() <= hay@.len(),
    ensures
        r == matches_at(hay@, pat@, i as int),
{
    let n = hay.len();
    let mut k: usize = 0;
    while k < pat.len()
        invariant
            n == hay@.len(),
            i + pat@.len() <= hay@.len(),
            k <= pat@.len(),
            forall|j: int| 0 <= j < k ==> hay@[i + j] == pat@[j],
        decreases pat@.len() - k,
    {
        if hay[i + k] != pat[k] {
            proof {
                assert(hay@.subrange(i as int, i + pat@.len())[k as int] != pat@[k as int]);
            }
            return false;
        }
        k += 1;
    }
    proof {
        assert(hay@.subrange(i as int, i + pat@.len()) =~= pat@);
    }
    true
}

/// Finds the first occurrence of `pat` in `hay`, if any.
pub fn find_sub(hay: &Vec<char>, pat: &Vec<char>) -> (r: Option<usize>)
    ensures
        match r {
            Some(i) => matches_at(hay@, pat@, i as int) && forall|j: int|
                0 <= j < i ==> !matches_at(hay@, pat@, j),
            None => !contains_seq(hay@, pat@),
        },
{
    if pat.len() == 0 {
        proof {
            assert(hay@.subrange(0, 0) =~= pat@);
        }
        return Some(0);
    }
    if pat.len() > hay.len() {
        return None;
    }
    let last = hay.len() - pat.len();
    let mut i: usize = 0;
    while i <= last
        invariant
            1 <= pat@.len() <= hay@.len(),
            last == hay@.len() - pat@.len(),
            last < usize::MAX,
            i <= last + 1,
            forall|j: int| 0 <= j < i ==> !matches_at(hay@, pat@, j),
        decreases last - i + 1,
    {
        if check_match_at(hay, pat, i) {
            return Some(i);
        }
        i += 1;
    }
    None
}

/// True when `pat` occurs anywhere in `hay`.
pub fn contains_sub(hay: &Vec<char>, pat: &Vec<char>) -> (r: bool)
    ensures
        r == contains_seq(hay@, pat@),
{
    find_sub(hay, pat).is_some()
}

/// True when `hay` starts with `pat`.
pub fn starts_with_sub(hay: &Vec<char>, pat: &Vec<char>) -> (r: bool)
    ensures
        r == (pat@.len() <= hay@.len() && hay@.subrange(0, pat@.len() as int) == pat@),
{
    if pat.len() > hay.len() {
        proof {
            assert(!(pat@.len() <= hay@.len()));
        }
        return false;
    }
    let r = check_match_at(hay, pat, 0);
    r
}

/// True when `hay` ends with `pat`.
pub fn ends_with_sub(hay: &Vec<char>, pat: &Vec<char>) -> (r: bool)
    ensures
        r == (pat@.len() <= hay@.len() && hay@.subrange(
            hay@.len() - pat@.len(),
            hay@.len() as int,
        ) == pat@),
{
    if pat.len() > hay.len() {
        return false;
    }
    let r = check_match_at(hay, pat, hay.len() - pat.len());
    r
}

/// Copies the subrange `[from, to)` of `v` into a fresh vector.
pub fn slice_of(v: &Vec<char>, from: usize, to: usize) -> (r: Vec<char>)
    requires
        from <= to <= v@.len(),
    ensures
        r@ == v@.subrange(from as int, to as int),
{
    let mut r: Vec<char> = Vec::new();
    let mut i: usize = from;
    while i < to
        invariant
            from <= i <= to <= v@.len(),
            r@ == v@.subrange(from as int, i as int),
        decreases to - i,
    {
        r.push(v[i]);
        i += 1;
        proof {
            assert(r@ =~= v@.subrange(from as int, i as int));
        }
    }
    r
}

/// Appends all of `src` onto `dst`.
pub fn append_chars(dst: &mut Vec<char>, src: &Vec<char>)
    ensures
        final(dst)@ == old(dst)@ + src@,
{
    let mut i: usize = 0;
    while i < src.len()
        invariant
            i <= src@.len(),
            dst@ == old(dst)@ + src@.subrange(0, i as int),
        decreases src@.len() - i,
    {
        dst.push(src[i]);
        i += 1;
        proof {
            assert(dst@ =~= old(dst)@ + src@.subrange(0, i as int));
        }
    }
    proof {
        assert(dst@ =~= old(dst)@ + src@);
    }
}

/// What a text becomes when every occurrence of `pat` is replaced by `rep`,
/// scanning left to right without overlap. An empty pattern replaces nothing.
pub open spec fn replace_seq(s: Seq<char>, pat: Seq<char>, rep: Seq<char>) -> Seq<char>
    decreases s.len(),
{
    if pat.len() == 0 || s.len() < pat.len() {
        s
    } else if s.subrange(0, pat.len() as int) == pat {
        rep + replace_seq(s.skip(pat.len() as int), pat, rep)
    } else {
        seq![s[0]] + replace_seq(s.skip(1), pat, rep)
    }
}

/// Replaces every occurrence of `pat` in `s` by `rep`, left to right.
pub fn replace_all(s: &Vec<char>, pat: &Vec<char>, rep: &Vec<char>) -> (r: Vec<char>)
    ensures
        r@ == replace_seq(s@, pat@, rep@),
{
    let mut out: Vec<char> = Vec::new();
    if pat.len() == 0 {
        let r = slice_of(s, 0, s.len());
        proof {
            assert(r@ =~= s@);
        }
        return r;
    }
    let n = s.len();
    let mut i: usize = 0;
    proof {
        assert(s@.skip(0) =~= s@);
        assert(out@ + replace_seq(s@, pat@, rep@) =~= replace_seq(s@, pat@, rep@));
    }
    while i < n
        invariant
            1 <= pat@.len(),
            n == s@.len(),
            i <= n,
            replace_seq(s@, pat@, rep@) == out@ + replace_seq(
                s@.skip(i as int),
                pat@,
                rep@,
            ),
        decreases n - i,
    {
        let ghost rest = s@.skip(i as int);
        if pat.len() <= n - i && check_match_at(s, pat, i) {
            append_chars(&mut out, rep);
            proof {
                assert(rest.subrange(0, pat@.len() as int) =~= s@.subrange(
                    i as int,
                    i + pat@.len(),
                ));
                assert(rest.skip(pat@.len() as int) =~= s@.skip(i + pat@.len()));
            }
            i += pat.len();
        } else {
            out.push(s[i]);
            proof {
                assert(rest.len() >= 1);
                if rest.len() >= pat@.len() {
                    assert(rest.subrange(0, pat@.len() as int) != pat@) by {
                        if rest.subrange(0, pat@.len() as int) == pat@ {
                            assert(rest.subrange(0, pat@.len() as int) =~= s@.subrange(
                                i as int,
                                i + pat@.len(),
                            ));
                        }
                    }
                }
                assert(seq![rest[0]] =~= seq![s@[i as int]]);
                assert(rest.skip(1) =~= s@.skip(i + 1));
            }
            i += 1;
        }
    }
    proof {
        assert(s@.skip(n as int) =~= Seq::<char>::empty());
        assert(replace_seq(Seq::<char>::empty(), pat@, rep@) =~= Seq::<char>::empty());
        assert(out@ + Seq::<char>::empty() =~= out@);
    }
    out
}

/// What `str::trim` returns: the text with surrounding whitespace removed.
pub uninterp spec fn trim_of(s: Seq<char>) -> Seq<char>;

/// What `str::to_lowercase` returns for the given text.
pub uninterp spec fn lower_of(s: Seq<char>) -> Seq<char>;

/// Relies on str::trim: returns the slice with leading and trailing
/// whitespace removed, so the result is never longer than the input and the
/// empty text stays empty.
#[verifier::external_body]
pub fn trim_str(s: &str) -> (r: String)
    ensures
        r@ == trim_of(s@),
        r@.len() <= s@.len(),
        s@.len() == 0 ==> r@.len() == 0,
{
    s.trim().to_owned()
}

/// Relies on str::to_lowercase: the result depends on the characters alone,
/// and the empty text stays empty.
#[verifier::external_body]
pub fn lower_str(s: &str) -> (r: String)
    ensures
        r@ == lower_of(s@),
        s@.len() == 0 ==> r@.len() == 0,
{
    s.to_lowercase()
}

/// The decimal digit characters for a natural number, most significant first.
pub open spec fn dec_digits(n: nat) -> Seq<char>
    decreases n,
{
    if n < 10 {
        seq![digit_char(n)]
    } else {
        dec_digits(n / 10).push(digit_char(n % 10))
    }
}

/// The character for one decimal digit value.
pub open spec fn digit_char(d: nat) -> char {
    if d == 0 {
        '0'
    } else if d == 1 {
        '1'
    } else if d == 2 {
        '2'
    } else if d == 3 {
        '3'
    } else if d == 4 {
        '4'
    } else if d == 5 {
        '5'
    } else if d == 6 {
        '6'
    } else if d == 7 {
        '7'
    } else if d == 8 {
        '8'
    } else {
        '9'
    }
}

fn digit_to_char(d: u64) -> (c: char)
    requires
        d < 10,
    ensures
        c == digit_char(d as nat),
{
    if d == 0 {
        '0'
    } else if d == 1 {
        '1'
    } else if d == 2 {
        '2'
    } else if d == 3 {
        '3'
    } else if d == 4 {
        '4'
    } else if d == 5 {
        '5'
    } else if d == 6 {
        '6'
    } else if d == 7 {
        '7'
    } else if d == 8 {
        '8'
    } else {
        '9'
    }
}

/// The character of one decimal digit value.
pub fn digit_to_char_pub(d: u64) -> (c: char)
    requires
        d < 10,
    ensures
        c == digit_char(d as nat),
{
    digit_to_char(d)
}

/// Renders a natural number in decimal.
pub fn u64_to_chars(n: u64) -> (r: Vec<char>)
    ensures
        r@ == dec_digits(n as nat),
    decreases n,
{
    if n < 10 {
        let mut r: Vec<char> = Vec::new();
        r.push(digit_to_char(n));
        proof {
            assert(r@ =~= dec_digits(n as nat));
        }
        r
    } else {
        let mut r = u64_to_chars(n / 10);
        r.push(digit_to_char(n % 10));
        r
    }
}

/// Renders a natural number as a decimal `String`.
pub fn u64_to_string(n: u64) -> (r: String)
    ensures
        r@ == dec_digits(n as nat),
{
    let v = u64_to_chars(n);
    chars_to_string(&v)
}

/// True when `c` is a decimal digit.
pub open spec fn is_dec_digit(c: char) -> bool {
    48 <= c as u32 <= 57
}

/// The numeric value of a digit sequence, most significant first.
pub open spec fn digits_val(s: Seq<char>) -> int
    decreases s.len(),
{
    if s.len() == 0 {
        0
    } else {
        digits_val(s.drop_last()) * 10 + (s.last() as u32 - 48)
    }
}

/// True when every character of `s` is a decimal digit.
pub open spec fn all_dec_digits(s: Seq<char>) -> bool {
    forall|i: int| 0 <= i < s.len() ==> is_dec_digit(#[trigger] s[i])
}

/// The timestamp a handshake parameter denotes: the value of a non-empty
/// all-digit text when it fits in an `i64`, and zero for anything else
/// (mirroring a lenient parse that falls back to zero).
pub open spec fn ts_val(s: Seq<char>) -> int {
    if s.len() > 0 && all_dec_digits(s) && digits_val(s) <= i64::MAX {
        digits_val(s)
    } else {
        0
    }
}

fn char_digit_value(c: char) -> (r: Option<u64>)
    ensures
        match r {
            Some(d) => is_dec_digit(c) && d == c as u32 - 48 && d < 10,
            None => !is_dec_digit(c),
        },
{
    let u = c as u32;
    if 48 <= u && u <= 57 {
        Some((u - 48) as u64)
    } else {
        None
    }
}

/// Parses a handshake timestamp: the value of a non-empty all-digit text
/// that fits in an `i64`, and zero otherwise.
pub fn parse_ts(s: &Vec<char>) -> (r: i64)
    ensures
        r == ts_val(s@),
{
    if s.len() == 0 {
        return 0;
    }
    let mut acc: i64 = 0;
    let mut i: usize = 0;
    while i < s.len()
        invariant
            i <= s@.len(),
            all_dec_digits(s@.subrange(0, i as int)),
            acc == digits_val(s@.subrange(0, i as int)),
            0 <= acc <= i64::MAX,
        decreases s@.len() - i,
    {
        let ghost pre = s@.subrange(0, i as int);
        match char_digit_value(s[i]) {
            Some(d) => {
                if acc > (i64::MAX - d as i64) / 10 {
                    // The digits overflow an i64; the whole text denotes zero.
                    proof {
                        lemma_digits_val_overflow(s@, i as int, acc as int, d as int);
                    }
                    return 0;
                }
                acc = acc * 10 + d as i64;
                i += 1;
                proof {
                    assert(s@.subrange(0, i as int).drop_last() =~= pre);
                }
            },
            None => {
                assert(!all_dec_digits(s@));
                return 0;
            },
        }
    }
    proof {
        assert(s@.subrange(0, s@.len() as int) =~= s@);
    }
    acc
}

proof fn lemma_digits_val_nonneg(s: Seq<char>)
    requires
        all_dec_digits(s),
    ensures
        digits_val(s) >= 0,
    decreases s.len(),
{
    if s.len() > 0 {
        assert(all_dec_digits(s.drop_last())) by {
            assert(forall|i: int|
                0 <= i < s.len() - 1 ==> #[trigger] s.drop_last()[i] == s[i]);
        }
        lemma_digits_val_nonneg(s.drop_last());
    }
}

proof fn lemma_digits_val_grows(s: Seq<char>, i: int)
    requires
        all_dec_digits(s),
        0 <= i <= s.len(),
    ensures
        digits_val(s) >= digits_val(s.subrange(0, i)),
    decreases s.len() - i,
{
    if i < s.len() {
        lemma_digits_val_grows(s, i + 1);
        let a = s.subrange(0, i);
        let b = s.subrange(0, i + 1);
        assert(b.drop_last() =~= a);
        assert(all_dec_digits(a)) by {
            assert(forall|k: int| 0 <= k < a.len() ==> #[trigger] a[k] == s[k]);
        }
        lemma_digits_val_nonneg(a);
        assert(is_dec_digit(b.last()));
        assert(digits_val(b) == digits_val(a) * 10 + (b.last() as u32 - 48));
        assert(digits_val(b) >= digits_val(a));
    } else {
        assert(s.subrange(0, i) =~= s);
    }
}

proof fn lemma_digits_val_overflow(s: Seq<char>, i: int, acc: int, d: int)
    requires
        0 <= i < s.len(),
        all_dec_digits(s.subrange(0, i)),
        acc == digits_val(s.subrange(0, i)),
        0 <= acc,
        is_dec_digit(s[i]),
        d == s[i] as u32 - 48,
        acc * 10 + d > i64::MAX,
    ensures
        ts_val(s) == 0,
{
    if all_dec_digits(s) {
        lemma_digits_val_grows(s, i + 1);
        assert(s.subrange(0, i + 1).drop_last() =~= s.subrange(0, i));
        assert(digits_val(s.subrange(0, i + 1)) == acc * 10 + d);
        assert(digits_val(s) > i64::MAX);
    }
}

/// Compares two character vectors for equality.
pub fn chars_eq(a: &Vec<char>, b: &Vec<char>) -> (r: bool)
    ensures
        r == (a@ == b@),
{
    if a.len() != b.len() {
        proof {
            assert(a@ != b@);
        }
        return false;
    }
    let mut i: usize = 0;
    while i < a.len()
        invariant
            a@.len() == b@.len(),
            i <= a@.len(),
            forall|j: int| 0 <= j < i ==> a@[j] == b@[j],
        decreases a@.len() - i,
    {
        if a[i] != b[i] {
            return false;
        }
        i += 1;
    }
    proof {
        assert(a@ =~= b@);
    }
    true
}

/// Compares two string slices for equality of their texts.
pub fn str_eq(a: &str, b: &str) -> (r: bool)
    ensures
        r == (a@ == b@),
{
    let va = str_to_chars(a);
    let vb = str_to_chars(b);
    chars_eq(&va, &vb)
}

/// Parses a non-empty all-digit text into an `i64`: anything else — an
/// empty text, a non-digit character, a value too large — yields nothing.
pub fn parse_digits_checked(s: &Vec<char>) -> (r: Option<i64>)
    ensures
        match r {
            Some(v) => s@.len() > 0 && all_dec_digits(s@) && digits_val(s@) <= i64::MAX && v
                == digits_val(s@),
            None => !(s@.len() > 0 && all_dec_digits(s@) && digits_val(s@) <= i64::MAX),
        },
{
    if s.len() == 0 {
        return None;
    }
    let mut acc: i64 = 0;
    let mut i: usize = 0;
    while i < s.len()
        invariant
            i <= s@.len(),
            all_dec_digits(s@.subrange(0, i as int)),
            acc == digits_val(s@.subrange(0, i as int)),
            0 <= acc <= i64::MAX,
        decreases s@.len() - i,
    {
        let ghost pre = s@.subrange(0, i as int);
        match char_digit_value(s[i]) {
            Some(d) => {
                if acc > (i64::MAX - d as i64) / 10 {
                    proof {
                        if all_dec_digits(s@) {
                            lemma_digits_val_grows(s@, i as int + 1);
                            assert(s@.subrange(0, i as int + 1).drop_last() =~= pre);
                            assert(digits_val(s@.subrange(0, i as int + 1)) > i64::MAX);
                        }
                    }
                    return None;
                }
                acc = acc * 10 + d as i64;
                i += 1;
                proof {
                    assert(s@.subrange(0, i as int).drop_last() =~= pre);
                }
            },
            None => {
                assert(!all_dec_digits(s@));
                return None;
            },
        }
    }
    proof {
        assert(s@.subrange(0, s@.len() as int) =~= s@);
    }
    Some(acc)
}

/// The value a signed decimal text denotes: an optional leading minus and
/// digits, rejected when empty, non-numeric, or larger than an `i64` in
/// magnitude.
pub open spec fn signed_dec_val(s: Seq<char>) -> Option<int> {
    let digits = if s.len() > 0 && s[0] == '-' {
        s.skip(1)
    } else {
        s
    };
    if digits.len() > 0 && all_dec_digits(digits) && digits_val(digits) <= i64::MAX {
        Some(
            if s.len() > 0 && s[0] == '-' {
                -digits_val(digits)
            } else {
                digits_val(digits)
            },
        )
    } else {
        None
    }
}

/// Parses a signed decimal text into an `i64`.
pub fn parse_signed_checked(s: &Vec<char>) -> (r: Option<i64>)
    ensures
        match r {
            Some(v) => signed_dec_val(s@) == Some(v as int),
            None => signed_dec_val(s@) is None,
        },
{
    if s.len() > 0 && s[0] == '-' {
        let rest = slice_of(s, 1, s.len());
        proof {
            assert(rest@ =~= s@.skip(1));
        }
        match parse_digits_checked(&rest) {
            Some(v) => {
                proof {
                    lemma_digits_val_nonneg(rest@);
                }
                Some(-v)
            },
            None => None,
        }
    } else {
        match parse_digits_checked(s) {
            Some(v) => Some(v),
            None => None,
        }
    }
}

} // verus!
