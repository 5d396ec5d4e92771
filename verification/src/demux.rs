//! The streaming thinking-channel demultiplexer.
//!
//! A model's raw output may carry a side-channel delimited by `<think>` and
//! `</think>`. The transport consumes the stream chunk by chunk and must
//! split it into `thinking` fragments and user-visible fragments even when a
//! delimiter is split across chunk boundaries. The machine works one
//! character at a time: a buffer accumulates text until a delimiter is
//! completed, a delimiter prefix is pending, or a size bound forces a flush.

use vstd::prelude::*;

verus! {

use crate::text::contains_seq;

/// Buffered text above this length is flushed when no delimiter is pending.
pub const FLUSH_LIMIT: usize = 20;

/// The delimiter that opens the thinking channel.
pub open spec fn open_tag() -> Seq<char> {
    seq!['<', 't', 'h', 'i', 'n', 'k', '>']
}

/// The delimiter that closes the thinking channel.
pub open spec fn close_tag() -> Seq<char> {
    seq!['<', '/', 't', 'h', 'i', 'n', 'k', '>']
}

/// True when `s` ends with `t`.
pub open spec fn ends_with(s: Seq<char>, t: Seq<char>) -> bool {
    t.len() <= s.len() && s.subrange(s.len() - t.len(), s.len() as int) == t
}

/// The delimiter the machine scans for in the given mode.
pub open spec fn mode_tag(inside: bool) -> Seq<char> {
    if inside {
        close_tag()
    } else {
        open_tag()
    }
}

/// True when a non-empty suffix of `s` is a proper prefix of the mode's
/// delimiter: such text is held back, because the next chunk may complete
/// the delimiter.
pub open spec fn tag_pending(inside: bool, s: Seq<char>) -> bool {
    exists|k: int|
        1 <= k < mode_tag(inside).len() && k <= s.len() && s.subrange(s.len() - k, s.len() as int)
            == mode_tag(inside).subrange(0, k)
}

/// One emitted fragment: `true` marks the thinking channel, `false` the
/// user-visible channel. Payloads are raw text, before cosmetic cleanup.
pub struct SpecFrag {
    pub thinking: bool,
    pub payload: Seq<char>,
}

/// The machine state seen by specifications.
pub struct SpecDemux {
    pub inside: bool,
    pub buf: Seq<char>,
}

/// The result of consuming one character.
pub struct SpecStepOut {
    pub state: SpecDemux,
    pub emit: Option<SpecFrag>,
}

/// Consumes one character: completes a delimiter, holds a pending delimiter
/// prefix, or flushes oversized buffered text in the current mode. Text that
/// precedes a completed `<think>` and is still buffered is discarded.
pub open spec fn spec_step(st: SpecDemux, c: char) -> SpecStepOut {
    let b = st.buf.push(c);
    if !st.inside && ends_with(b, open_tag()) {
        SpecStepOut {
            state: SpecDemux { inside: true, buf: Seq::empty() },
            emit: None,
        }
    } else if st.inside && ends_with(b, close_tag()) {
        SpecStepOut {
            state: SpecDemux { inside: false, buf: Seq::empty() },
            emit: if b.len() > close_tag().len() {
                Some(
                    SpecFrag {
                        thinking: true,
                        payload: b.subrange(0, b.len() - close_tag().len()),
                    },
                )
            } else {
                None
            },
        }
    } else if b.len() > FLUSH_LIMIT && !tag_pending(st.inside, b) {
        SpecStepOut {
            state: SpecDemux { inside: st.inside, buf: Seq::empty() },
            emit: Some(SpecFrag { thinking: st.inside, payload: b }),
        }
    } else {
        SpecStepOut { state: SpecDemux { inside: st.inside, buf: b }, emit: None }
    }
}

/// Consumes a text, one character after the other, collecting emissions.
pub open spec fn spec_feed(st: SpecDemux, input: Seq<char>) -> (SpecDemux, Seq<SpecFrag>)
    decreases input.len(),
{
    if input.len() == 0 {
        (st, Seq::empty())
    } else {
        let out = spec_step(st, input[0]);
        let (fin, rest) = spec_feed(out.state, input.skip(1));
        (
            fin,
            match out.emit {
                Some(f) => seq![f] + rest,
                None => rest,
            },
        )
    }
}

/// The fragments the end of the stream adds: whatever is still buffered is
/// emitted in the current mode.
pub open spec fn spec_finish(st: SpecDemux) -> Seq<SpecFrag> {
    if st.buf.len() > 0 {
        seq![SpecFrag { thinking: st.inside, payload: st.buf }]
    } else {
        Seq::empty()
    }
}

/// The concatenation of the payloads on one channel.
pub open spec fn channel_total(es: Seq<SpecFrag>, thinking: bool) -> Seq<char>
    decreases es.len(),
{
    if es.len() == 0 {
        Seq::empty()
    } else {
        (if es[0].thinking == thinking {
            es[0].payload
        } else {
            Seq::empty()
        }) + channel_total(es.skip(1), thinking)
    }
}

/// One emitted fragment, as executable data.
pub enum Frag {
    Thinking(Vec<char>),
    Visible(Vec<char>),
}

impl Frag {
    /// The specification view of this fragment.
    pub open spec fn view(&self) -> SpecFrag {
        match self {
            Frag::Thinking(p) => SpecFrag { thinking: true, payload: p@ },
            Frag::Visible(p) => SpecFrag { thinking: false, payload: p@ },
        }
    }
}

/// The specification view of a fragment vector.
pub open spec fn frags_view(v: Seq<Frag>) -> Seq<SpecFrag> {
    v.map(|i: int, f: Frag| f.view())
}

/// The per-turn demultiplexer state.
pub struct Demux {
    inside: bool,
    buf: Vec<char>,
}

fn open_tag_vec() -> (v: Vec<char>)
    ensures
        v@ == open_tag(),
{
    let mut v: Vec<char> = Vec::new();
    v.push('<');
    v.push('t');
    v.push('h');
    v.push('i');
    v.push('n');
    v.push('k');
    v.push('>');
    proof {
        assert(v@ =~= open_tag());
    }
    v
}

fn close_tag_vec() -> (v: Vec<char>)
    ensures
        v@ == close_tag(),
{
    let mut v: Vec<char> = Vec::new();
    v.push('<');
    v.push('/');
    v.push('t');
    v.push('h');
    v.push('i');
    v.push('n');
    v.push('k');
    v.push('>');
    proof {
        assert(v@ =~= close_tag());
    }
    v
}

/// Decides whether a non-empty suffix of `b` is a proper prefix of the
/// delimiter of the given mode.
fn check_tag_pending(b: &Vec<char>, inside: bool) -> (r: bool)
    ensures
        r == tag_pending(inside, b@),
{
    let tag = if inside {
        close_tag_vec()
    } else {
        open_tag_vec()
    };
    proof {
        assert(tag@ == mode_tag(inside));
    }
    let mut k: usize = 1;
    while k < tag.len()
        invariant
            tag@ == mode_tag(inside),
            1 <= k <= tag@.len(),
            forall|j: int|
                1 <= j < k ==> !(j <= b@.len() && b@.subrange(b@.len() - j, b@.len() as int)
                    == mode_tag(inside).subrange(0, j)),
        decreases tag@.len() - k,
    {
        if k <= b.len() {
            let pre = crate::text::slice_of(&tag, 0, k);
            if crate::text::check_match_at(b, &pre, b.len() - k) {
                proof {
                    assert(b@.subrange(b@.len() - k, b@.len() as int) =~= mode_tag(
                        inside,
                    ).subrange(0, k as int));
                    assert(tag_pending(inside, b@));
                }
                return true;
            }
            proof {
                if b@.subrange(b@.len() - k, b@.len() as int) == mode_tag(inside).subrange(
                    0,
                    k as int,
                ) {
                    assert(crate::text::matches_at(b@, pre@, b@.len() - k));
                }
            }
        }
        k += 1;
    }
    false
}

impl Demux {
    /// The specification view of the machine.
    pub closed spec fn view(&self) -> SpecDemux {
        SpecDemux { inside: self.inside, buf: self.buf@ }
    }

    /// A fresh machine: outside the thinking channel, nothing buffered.
    pub fn new() -> (r: Demux)
        ensures
            r@ == (SpecDemux { inside: false, buf: Seq::<char>::empty() }),
    {
        let r = Demux { inside: false, buf: Vec::new() };
        proof {
            assert(r@.buf =~= Seq::<char>::empty());
        }
        r
    }

    /// Consumes one character, possibly emitting one fragment.
    fn step(&mut self, c: char) -> (r: Option<Frag>)
        ensures
            ({
                let out = spec_step(old(self)@, c);
                final(self)@ == out.state && match r {
                    Some(f) => out.emit == Some(f@),
                    None => out.emit is None,
                }
            }),
    {
        self.buf.push(c);
        let open = open_tag_vec();
        let close = close_tag_vec();
        if !self.inside && crate::text::ends_with_sub(&self.buf, &open) {
            self.inside = true;
            self.buf = Vec::new();
            proof {
                assert(self.buf@ =~= Seq::<char>::empty());
            }
            return None;
        }
        if self.inside && crate::text::ends_with_sub(&self.buf, &close) {
            let keep = self.buf.len() - close.len();
            let payload = crate::text::slice_of(&self.buf, 0, keep);
            self.inside = false;
            self.buf = Vec::new();
            proof {
                assert(self.buf@ =~= Seq::<char>::empty());
            }
            if payload.len() > 0 {
                return Some(Frag::Thinking(payload));
            }
            return None;
        }
        let pending = check_tag_pending(&self.buf, self.inside);
        if self.buf.len() > FLUSH_LIMIT && !pending {
            let payload = crate::text::slice_of(&self.buf, 0, self.buf.len());
            let ghost full = self.buf@;
            self.buf = Vec::new();
            proof {
                assert(self.buf@ =~= Seq::<char>::empty());
                assert(payload@ =~= full);
            }
            if self.inside {
                return Some(Frag::Thinking(payload));
            }
            return Some(Frag::Visible(payload));
        }
        None
    }

    /// Consumes one chunk of streamed text, returning the fragments it
    /// completes, in order.
    pub fn feed(&mut self, chunk: &Vec<char>) -> (r: Vec<Frag>)
        ensures
            ({
                let (fin, es) = spec_feed(old(self)@, chunk@);
                final(self)@ == fin && frags_view(r@) == es
            }),
    {
        let mut out: Vec<Frag> = Vec::new();
        let mut i: usize = 0;
        proof {
            assert(chunk@.skip(0) =~= chunk@);
            assert(frags_view(out@) =~= Seq::<SpecFrag>::empty());
        }
        while i < chunk.len()
            invariant
                i <= chunk@.len(),
                spec_feed(old(self)@, chunk@) == {
                    let (fin, rest) = spec_feed(self@, chunk@.skip(i as int));
                    (fin, frags_view(out@) + rest)
                },
            decreases chunk@.len() - i,
        {
            let ghost pre_state = self@;
            let ghost pre_out = out@;
            let e = self.step(chunk[i]);
            match e {
                Some(f) => {
                    out.push(f);
                },
                None => {},
            }
            i += 1;
            proof {
                let rest_in = chunk@.skip(i - 1);
                assert(rest_in[0] == chunk@[i - 1]);
                assert(rest_in.skip(1) =~= chunk@.skip(i as int));
                let stepped = spec_step(pre_state, chunk@[i - 1]);
                let (fin2, rest2) = spec_feed(self@, chunk@.skip(i as int));
                match stepped.emit {
                    Some(sf) => {
                        assert(frags_view(out@) =~= frags_view(pre_out) + seq![sf]);
                        assert(frags_view(pre_out) + (seq![sf] + rest2) =~= frags_view(out@)
                            + rest2);
                    },
                    None => {
                        assert(frags_view(out@) =~= frags_view(pre_out));
                    },
                }
            }
        }
        proof {
            assert(chunk@.skip(chunk@.len() as int) =~= Seq::<char>::empty());
            assert(frags_view(out@) + Seq::<SpecFrag>::empty() =~= frags_view(out@));
        }
        out
    }

    /// Ends the stream: whatever is still buffered is emitted in the current
    /// mode.
    pub fn finish(&mut self) -> (r: Option<Frag>)
        ensures
            final(self)@ == (SpecDemux { inside: old(self)@.inside, buf: Seq::<char>::empty() }),
            match r {
                Some(f) => spec_finish(old(self)@) == seq![f@],
                None => spec_finish(old(self)@) == Seq::<SpecFrag>::empty(),
            },
    {
        let payload = crate::text::slice_of(&self.buf, 0, self.buf.len());
        let ghost full = self.buf@;
        self.buf = Vec::new();
        proof {
            assert(self.buf@ =~= Seq::<char>::empty());
            assert(payload@ =~= full);
        }
        if payload.len() > 0 {
            if self.inside {
                proof {
                    assert(spec_finish(old(self)@) =~= seq![
                        SpecFrag { thinking: true, payload: payload@ },
                    ]);
                }
                return Some(Frag::Thinking(payload));
            }
            proof {
                assert(spec_finish(old(self)@) =~= seq![
                    SpecFrag { thinking: false, payload: payload@ },
                ]);
            }
            return Some(Frag::Visible(payload));
        }
        proof {
            assert(spec_finish(old(self)@) =~= Seq::<SpecFrag>::empty());
        }
        None
    }
}

/// The fresh-machine state.
pub open spec fn init_state() -> SpecDemux {
    SpecDemux { inside: false, buf: Seq::empty() }
}

/// What a whole stream yields on each channel: the thinking total and the
/// user-visible total, end-of-stream flush included.
pub open spec fn demux_totals(r: Seq<char>) -> (Seq<char>, Seq<char>) {
    let (fin, es) = spec_feed(init_state(), r);
    let all = es + spec_finish(fin);
    (channel_total(all, true), channel_total(all, false))
}

proof fn lemma_channel_total_append(a: Seq<SpecFrag>, b: Seq<SpecFrag>, th: bool)
    ensures
        channel_total(a + b, th) == channel_total(a, th) + channel_total(b, th),
    decreases a.len(),
{
    if a.len() == 0 {
        assert(a + b =~= b);
        assert(channel_total(a, th) + channel_total(b, th) =~= channel_total(b, th));
    } else {
        lemma_channel_total_append(a.skip(1), b, th);
        assert((a + b).skip(1) =~= a.skip(1) + b);
        assert((a + b)[0] == a[0]);
        assert((if a[0].thinking == th {
            a[0].payload
        } else {
            Seq::<char>::empty()
        }) + (channel_total(a.skip(1), th) + channel_total(b, th)) =~= channel_total(a, th)
            + channel_total(b, th));
    }
}

/// If a pattern matches inside a prefix, it matches in the whole text.
proof fn lemma_matches_in_prefix(s: Seq<char>, b: Seq<char>, pat: Seq<char>, i: int)
    requires
        b.len() <= s.len(),
        s.subrange(0, b.len() as int) == b,
        crate::text::matches_at(b, pat, i),
    ensures
        crate::text::matches_at(s, pat, i),
{
    assert(s.subrange(i, i + pat.len()) =~= b.subrange(i, i + pat.len()));
}

/// If a pattern occurs in a suffix, it occurs in the whole text.
proof fn lemma_contains_suffix(s: Seq<char>, d: int, pat: Seq<char>)
    requires
        0 <= d <= s.len(),
        contains_seq(s.skip(d), pat),
    ensures
        contains_seq(s, pat),
{
    let i = choose|i: int| crate::text::matches_at(s.skip(d), pat, i);
    assert(s.subrange(d + i, d + i + pat.len()) =~= s.skip(d).subrange(i, i + pat.len()));
    assert(crate::text::matches_at(s, pat, d + i));
}

/// Feeding text while outside the thinking channel, with no opening
/// delimiter anywhere in sight, stays outside and routes everything to the
/// user-visible channel.
proof fn lemma_phase_outside(st: SpecDemux, u: Seq<char>)
    requires
        !st.inside,
        !contains_seq(st.buf + u, open_tag()),
    ensures
        ({
            let (fin, es) = spec_feed(st, u);
            &&& !fin.inside
            &&& channel_total(es, true) == Seq::<char>::empty()
            &&& channel_total(es, false) + fin.buf == st.buf + u
        }),
    decreases u.len(),
{
    let (fin, es) = spec_feed(st, u);
    if u.len() == 0 {
        assert(channel_total(es, false) + fin.buf =~= st.buf + u);
    } else {
        let c = u[0];
        let b = st.buf.push(c);
        let out = spec_step(st, c);
        assert(b + u.skip(1) =~= st.buf + u);
        if ends_with(b, open_tag()) {
            assert(crate::text::matches_at(b, open_tag(), b.len() - open_tag().len()));
            assert((st.buf + u).subrange(0, b.len() as int) =~= b);
            lemma_matches_in_prefix(st.buf + u, b, open_tag(), b.len() - open_tag().len());
            assert(false);
        }
        reveal_with_fuel(channel_total, 3);
        assert(seq![SpecFrag { thinking: st.inside, payload: b }].skip(1)
            =~= Seq::<SpecFrag>::empty());
        assert(!contains_seq(out.state.buf + u.skip(1), open_tag())) by {
            if out.state.buf.len() == 0 {
                assert(out.state.buf + u.skip(1) =~= u.skip(1));
                assert((st.buf + u).skip(st.buf.len() as int + 1) =~= u.skip(1));
                if contains_seq(u.skip(1), open_tag()) {
                    lemma_contains_suffix(st.buf + u, st.buf.len() as int + 1, open_tag());
                }
            } else {
                assert(out.state.buf + u.skip(1) =~= st.buf + u);
            }
        }
        lemma_phase_outside(out.state, u.skip(1));
        let (fin2, rest) = spec_feed(out.state, u.skip(1));
        match out.emit {
            Some(f) => {
                assert(es =~= seq![f] + rest);
                lemma_channel_total_append(seq![f], rest, true);
                lemma_channel_total_append(seq![f], rest, false);
                assert(channel_total(seq![f], true) =~= Seq::<char>::empty());
                assert(channel_total(seq![f], false) =~= b);
                assert(channel_total(es, false) + fin.buf =~= st.buf + u);
                assert(channel_total(es, true) =~= Seq::<char>::empty());
            },
            None => {
                assert(es == rest);
                assert(out.state.buf + u.skip(1) =~= st.buf + u);
                assert(channel_total(es, false) + fin.buf =~= st.buf + u);
            },
        }
    }
}

/// Feeding text while inside the thinking channel, with no closing
/// delimiter anywhere in sight, stays inside and routes everything to the
/// thinking channel.
proof fn lemma_phase_inside(st: SpecDemux, u: Seq<char>)
    requires
        st.inside,
        !contains_seq(st.buf + u, close_tag()),
    ensures
        ({
            let (fin, es) = spec_feed(st, u);
            &&& fin.inside
            &&& channel_total(es, false) == Seq::<char>::empty()
            &&& channel_total(es, true) + fin.buf == st.buf + u
        }),
    decreases u.len(),
{
    let (fin, es) = spec_feed(st, u);
    if u.len() == 0 {
        assert(channel_total(es, true) + fin.buf =~= st.buf + u);
    } else {
        let c = u[0];
        let b = st.buf.push(c);
        let out = spec_step(st, c);
        assert(b + u.skip(1) =~= st.buf + u);
        if ends_with(b, close_tag()) {
            assert(crate::text::matches_at(b, close_tag(), b.len() - close_tag().len()));
            assert((st.buf + u).subrange(0, b.len() as int) =~= b);
            lemma_matches_in_prefix(st.buf + u, b, close_tag(), b.len() - close_tag().len());
            assert(false);
        }
        reveal_with_fuel(channel_total, 3);
        assert(seq![SpecFrag { thinking: st.inside, payload: b }].skip(1)
            =~= Seq::<SpecFrag>::empty());
        assert(!contains_seq(out.state.buf + u.skip(1), close_tag())) by {
            if out.state.buf.len() == 0 {
                assert(out.state.buf + u.skip(1) =~= u.skip(1));
                assert((st.buf + u).skip(st.buf.len() as int + 1) =~= u.skip(1));
                if contains_seq(u.skip(1), close_tag()) {
                    lemma_contains_suffix(st.buf + u, st.buf.len() as int + 1, close_tag());
                }
            } else {
                assert(out.state.buf + u.skip(1) =~= st.buf + u);
            }
        }
        lemma_phase_inside(out.state, u.skip(1));
        let (fin2, rest) = spec_feed(out.state, u.skip(1));
        match out.emit {
            Some(f) => {
                assert(es =~= seq![f] + rest);
                lemma_channel_total_append(seq![f], rest, true);
                lemma_channel_total_append(seq![f], rest, false);
                assert(channel_total(seq![f], false) =~= Seq::<char>::empty());
                assert(channel_total(seq![f], true) =~= b);
                assert(channel_total(es, true) + fin.buf =~= st.buf + u);
            },
            None => {
                assert(es == rest);
                assert(out.state.buf + u.skip(1) =~= st.buf + u);
                assert(channel_total(es, true) + fin.buf =~= st.buf + u);
            },
        }
    }
}

/// A closing delimiter completes only at its real position: a prefix of
/// `t + "</think>" + v` that ends with the closing delimiter, where `t`
/// contains none, is exactly `t + "</think>"`.
#[verifier::rlimit(100)]
#[verifier::spinoff_prover]
proof fn lemma_close_at_boundary(t: Seq<char>, v: Seq<char>, b: Seq<char>)
    requires
        !contains_seq(t, close_tag()),
        b.len() <= t.len() + close_tag().len(),
        b == (t + close_tag() + v).subrange(0, b.len() as int),
        ends_with(b, close_tag()),
    ensures
        b.len() == t.len() + close_tag().len(),
{
    let s = t + close_tag() + v;
    let m = close_tag().len();
    let p = b.len() - m;
    if b.len() < t.len() + m {
        // The supposed occurrence at p would overlap the real delimiter or
        // lie wholly inside t; both are impossible.
        assert(forall|i: int| 0 <= i < m ==> b[p + i] == close_tag()[i]) by {
            assert(b.subrange(p, p + m) == close_tag());
            assert(forall|i: int|
                0 <= i < m ==> b.subrange(p, p + m)[i] == #[trigger] b[p + i]);
        }
        assert(forall|i: int| 0 <= i < b.len() ==> b[i] == s[i]) by {
            assert(forall|i: int|
                0 <= i < b.len() ==> s.subrange(0, b.len() as int)[i] == #[trigger] s[i]);
        }
        if p + m <= t.len() {
            assert(t.subrange(p, p + m) =~= close_tag()) by {
                assert(forall|i: int| 0 <= i < m ==> t[p + i] == s[p + i] && s[p + i] == #[trigger]
                    close_tag()[i]);
            }
            assert(crate::text::matches_at(t, close_tag(), p));
            assert(false);
        } else {
            // Overlap: position t.len() lies inside the occurrence at p.
            let o = t.len() - p;
            assert(1 <= o < m);
            assert(b[t.len() as int] == close_tag()[o]);
            assert(s[t.len() as int] == close_tag()[0]);
            assert(close_tag()[0] == '<');
            assert(close_tag()[1] == '/');
            assert(close_tag()[2] == 't');
            assert(close_tag()[3] == 'h');
            assert(close_tag()[4] == 'i');
            assert(close_tag()[5] == 'n');
            assert(close_tag()[6] == 'k');
            assert(close_tag()[7] == '>');
            assert(false);
        }
    }
}

/// Feeding the rest of a stream from inside the thinking channel, where the
/// remaining text closes the channel and ends in plain visible text: the
/// thinking channel receives exactly the text up to the closing delimiter,
/// the visible channel exactly the text after it.
proof fn lemma_phase_block(st: SpecDemux, u: Seq<char>, t: Seq<char>, v: Seq<char>)
    requires
        st.inside,
        st.buf + u == t + close_tag() + v,
        st.buf.len() < t.len() + close_tag().len(),
        !contains_seq(t, close_tag()),
        !contains_seq(v, open_tag()),
    ensures
        ({
            let (fin, es) = spec_feed(st, u);
            &&& !fin.inside
            &&& channel_total(es, true) == t
            &&& channel_total(es, false) + fin.buf == v
        }),
    decreases u.len(),
{
    reveal_with_fuel(channel_total, 3);
    let (fin, es) = spec_feed(st, u);
    let m = close_tag().len();
    assert(u.len() > 0);
    let c = u[0];
    let b = st.buf.push(c);
    let out = spec_step(st, c);
    assert(b + u.skip(1) =~= st.buf + u);
    assert(b == (t + close_tag() + v).subrange(0, b.len() as int)) by {
        assert(b =~= (st.buf + u).subrange(0, b.len() as int));
    }
    if ends_with(b, close_tag()) {
        lemma_close_at_boundary(t, v, b);
        assert(b =~= t + close_tag());
        assert(b.subrange(0, b.len() - m) =~= t);
        assert(u.skip(1) =~= v) by {
            assert(b + u.skip(1) == t + close_tag() + v);
            assert(u.skip(1) =~= (b + u.skip(1)).skip(b.len() as int));
            assert((t + close_tag() + v).skip((t.len() + m) as int) =~= v);
        }
        lemma_phase_outside(out.state, u.skip(1));
        let (fin2, rest) = spec_feed(out.state, u.skip(1));
        assert(out.state.buf + u.skip(1) =~= v);
        if b.len() > m {
            let f = SpecFrag { thinking: true, payload: t };
            assert(es =~= seq![f] + rest);
            lemma_channel_total_append(seq![f], rest, true);
            lemma_channel_total_append(seq![f], rest, false);
            assert(channel_total(seq![f], true) =~= t);
            assert(channel_total(seq![f], false) =~= Seq::<char>::empty());
            assert(channel_total(es, true) =~= t);
            assert(channel_total(es, false) + fin.buf =~= v);
        } else {
            assert(t =~= Seq::<char>::empty());
            assert(es == rest);
            assert(channel_total(es, true) =~= t);
            assert(channel_total(es, false) + fin.buf =~= v);
        }
    } else {
        assert(b.len() != t.len() + m) by {
            if b.len() == t.len() + m {
                assert(b =~= t + close_tag());
                assert(b.subrange(b.len() - m, b.len() as int) =~= close_tag());
            }
        }
        assert(b.len() < t.len() + m);
        match out.emit {
            Some(f) => {
                // A flush: the flushed text lies inside t, because a partial
                // closing delimiter would have been held back.
                assert(b.len() <= t.len()) by {
                    if b.len() > t.len() {
                        let k = b.len() - t.len();
                        assert(1 <= k < m);
                        assert(b.subrange(b.len() - k, b.len() as int) =~= close_tag().subrange(
                            0,
                            k,
                        )) by {
                            assert(forall|i: int|
                                0 <= i < k ==> b[t.len() + i] == (t + close_tag() + v)[t.len()
                                    + i] && (t + close_tag() + v)[t.len() + i] == #[trigger]
                                    close_tag()[i]);
                        }
                        assert(k <= b.len());
                        assert(mode_tag(true) == close_tag());
                        assert(1 <= k < mode_tag(true).len() && k <= b.len() && b.subrange(
                            b.len() - k,
                            b.len() as int,
                        ) == mode_tag(true).subrange(0, k));
                        assert(tag_pending(true, b));
                        assert(false);
                    }
                }
                let t2 = t.skip(b.len() as int);
                assert(b =~= t.subrange(0, b.len() as int));
                assert(!contains_seq(t2, close_tag())) by {
                    if contains_seq(t2, close_tag()) {
                        let i = choose|i: int| crate::text::matches_at(t2, close_tag(), i);
                        assert(t.subrange(b.len() + i, b.len() + i + m) =~= t2.subrange(i, i + m));
                        assert(crate::text::matches_at(t, close_tag(), b.len() + i));
                    }
                }
                assert(out.state.buf + u.skip(1) =~= t2 + close_tag() + v) by {
                    assert(u.skip(1) =~= (b + u.skip(1)).skip(b.len() as int));
                    assert((t + close_tag() + v).skip(b.len() as int) =~= t2 + close_tag() + v);
                }
                lemma_phase_block(out.state, u.skip(1), t2, v);
                let (fin2, rest) = spec_feed(out.state, u.skip(1));
                assert(es =~= seq![f] + rest);
                lemma_channel_total_append(seq![f], rest, true);
                lemma_channel_total_append(seq![f], rest, false);
                assert(channel_total(seq![f], true) =~= b);
                assert(channel_total(seq![f], false) =~= Seq::<char>::empty());
                assert(b + t2 =~= t);
                assert(channel_total(es, true) =~= t);
                assert(channel_total(es, false) + fin.buf =~= v);
            },
            None => {
                lemma_phase_block(out.state, u.skip(1), t, v);
                assert(es == spec_feed(out.state, u.skip(1)).1);
                assert(channel_total(es, true) =~= t);
                assert(channel_total(es, false) + fin.buf =~= v);
            },
        }
    }
}

proof fn lemma_channel_total_single(f: SpecFrag, th: bool)
    ensures
        channel_total(seq![f], th) == if f.thinking == th {
            f.payload
        } else {
            Seq::<char>::empty()
        },
{
    reveal_with_fuel(channel_total, 3);
    assert(seq![f].skip(1) =~= Seq::<SpecFrag>::empty());
    if f.thinking == th {
        assert(channel_total(seq![f], th) =~= f.payload);
    } else {
        assert(channel_total(seq![f], th) =~= Seq::<char>::empty());
    }
}

/// A stream with no thinking delimiter is delivered wholly, in order, on the
/// user-visible channel, and nothing reaches the thinking channel.
pub proof fn lemma_demux_visible_only(v: Seq<char>)
    requires
        !contains_seq(v, open_tag()),
    ensures
        demux_totals(v).0 == Seq::<char>::empty(),
        demux_totals(v).1 == v,
{
    assert(init_state().buf + v =~= v);
    lemma_phase_outside(init_state(), v);
    let (fin, es) = spec_feed(init_state(), v);
    lemma_channel_total_append(es, spec_finish(fin), true);
    lemma_channel_total_append(es, spec_finish(fin), false);
    if fin.buf.len() > 0 {
        lemma_channel_total_single(SpecFrag { thinking: fin.inside, payload: fin.buf }, true);
        lemma_channel_total_single(SpecFrag { thinking: fin.inside, payload: fin.buf }, false);
    } else {
        assert(fin.buf =~= Seq::<char>::empty());
    }
    assert(demux_totals(v).0 =~= Seq::<char>::empty());
    assert(demux_totals(v).1 =~= v);
}

proof fn lemma_feed_open_tag()
    ensures
        spec_feed(init_state(), open_tag()) == (
            SpecDemux { inside: true, buf: Seq::<char>::empty() },
            Seq::<SpecFrag>::empty(),
        ),
{
    reveal_with_fuel(spec_feed, 10);
    let o = open_tag();
    let s0 = init_state();
    let s1 = spec_step(s0, o[0]).state;
    assert(s0.buf.push(o[0]) =~= o.subrange(0, 1));
    let s2 = spec_step(s1, o[1]).state;
    assert(s1.buf.push(o[1]) =~= o.subrange(0, 2));
    let s3 = spec_step(s2, o[2]).state;
    assert(s2.buf.push(o[2]) =~= o.subrange(0, 3));
    let s4 = spec_step(s3, o[3]).state;
    assert(s3.buf.push(o[3]) =~= o.subrange(0, 4));
    let s5 = spec_step(s4, o[4]).state;
    assert(s4.buf.push(o[4]) =~= o.subrange(0, 5));
    let s6 = spec_step(s5, o[5]).state;
    assert(s5.buf.push(o[5]) =~= o.subrange(0, 6));
    assert(s6.buf.push(o[6]) =~= o);
    assert(ends_with(o, o)) by {
        assert(o.subrange(0, 7) =~= o);
    }
    assert(o.skip(1).skip(1) =~= o.skip(2));
    assert(o.skip(2).skip(1) =~= o.skip(3));
    assert(o.skip(3).skip(1) =~= o.skip(4));
    assert(o.skip(4).skip(1) =~= o.skip(5));
    assert(o.skip(5).skip(1) =~= o.skip(6));
    assert(o.skip(6).skip(1) =~= o.skip(7));
    assert(o.skip(7) =~= Seq::<char>::empty());
    assert(spec_feed(init_state(), o).1 =~= Seq::<SpecFrag>::empty());
}

/// Splitting a stream into two pieces and feeding them one after the other
/// is the same as feeding the whole: fragment boundaries may differ, but
/// state and emissions compose.
pub proof fn lemma_feed_append(st: SpecDemux, a: Seq<char>, b: Seq<char>)
    ensures
        ({
            let (s1, e1) = spec_feed(st, a);
            let (s2, e2) = spec_feed(s1, b);
            spec_feed(st, a + b) == (s2, e1 + e2)
        }),
    decreases a.len(),
{
    let (s1, e1) = spec_feed(st, a);
    let (s2, e2) = spec_feed(s1, b);
    if a.len() == 0 {
        assert(a + b =~= b);
        assert(e1 + e2 =~= e2);
    } else {
        let out = spec_step(st, a[0]);
        lemma_feed_append(out.state, a.skip(1), b);
        assert((a + b)[0] == a[0]);
        assert((a + b).skip(1) =~= a.skip(1) + b);
        let (r1, f1) = spec_feed(out.state, a.skip(1));
        let (r2, f2) = spec_feed(r1, b);
        match out.emit {
            Some(f) => {
                assert(seq![f] + (f1 + f2) =~= (seq![f] + f1) + f2);
            },
            None => {},
        }
    }
}

/// A stream of the shape `<think>` + thinking + `</think>` + answer is split
/// exactly: the thinking channel receives the thinking text, the visible
/// channel the answer, end-of-stream flush included.
pub proof fn lemma_demux_block(t: Seq<char>, v: Seq<char>)
    requires
        !contains_seq(t, close_tag()),
        !contains_seq(v, open_tag()),
    ensures
        demux_totals(open_tag() + t + close_tag() + v).0 == t,
        demux_totals(open_tag() + t + close_tag() + v).1 == v,
{
    let r = open_tag() + t + close_tag() + v;
    let rest = t + close_tag() + v;
    assert(r =~= open_tag() + rest);
    lemma_feed_open_tag();
    lemma_feed_append(init_state(), open_tag(), rest);
    let s1 = SpecDemux { inside: true, buf: Seq::<char>::empty() };
    assert(s1.buf + rest =~= t + close_tag() + v);
    lemma_phase_block(s1, rest, t, v);
    let (fin, es) = spec_feed(s1, rest);
    assert(spec_feed(init_state(), r) == (fin, Seq::<SpecFrag>::empty() + es));
    assert(Seq::<SpecFrag>::empty() + es =~= es);
    lemma_channel_total_append(es, spec_finish(fin), true);
    lemma_channel_total_append(es, spec_finish(fin), false);
    if fin.buf.len() > 0 {
        lemma_channel_total_single(SpecFrag { thinking: fin.inside, payload: fin.buf }, true);
        lemma_channel_total_single(SpecFrag { thinking: fin.inside, payload: fin.buf }, false);
    } else {
        assert(fin.buf =~= Seq::<char>::empty());
    }
    assert(demux_totals(r).0 =~= t);
    assert(demux_totals(r).1 =~= v);
}

/// A stream that opens the thinking channel and never closes it delivers
/// everything after the opening delimiter on the thinking channel.
pub proof fn lemma_demux_unclosed(t: Seq<char>)
    requires
        !contains_seq(t, close_tag()),
    ensures
        demux_totals(open_tag() + t).0 == t,
        demux_totals(open_tag() + t).1 == Seq::<char>::empty(),
{
    let r = open_tag() + t;
    lemma_feed_open_tag();
    lemma_feed_append(init_state(), open_tag(), t);
    let s1 = SpecDemux { inside: true, buf: Seq::<char>::empty() };
    assert(s1.buf + t =~= t);
    lemma_phase_inside(s1, t);
    let (fin, es) = spec_feed(s1, t);
    assert(spec_feed(init_state(), r) == (fin, Seq::<SpecFrag>::empty() + es));
    assert(Seq::<SpecFrag>::empty() + es =~= es);
    lemma_channel_total_append(es, spec_finish(fin), true);
    lemma_channel_total_append(es, spec_finish(fin), false);
    if fin.buf.len() > 0 {
        lemma_channel_total_single(SpecFrag { thinking: fin.inside, payload: fin.buf }, true);
        lemma_channel_total_single(SpecFrag { thinking: fin.inside, payload: fin.buf }, false);
    } else {
        assert(fin.buf =~= Seq::<char>::empty());
    }
    assert(demux_totals(r).0 =~= t);
    assert(demux_totals(r).1 =~= Seq::<char>::empty());
}

} // verus!
