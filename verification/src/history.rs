//! Per-conversation message history.
//!
//! A conversation is an append-only sequence of messages whose timestamps
//! never decrease. A backing store may return messages out of order and from
//! two retrieval legs at once; merging deduplicates by point id, sorts by
//! timestamp and keeps the newest entries, so every conversation handed to
//! the rest of the pipeline is time-ordered.

use vstd::prelude::*;

verus! {

use vstd::multiset::Multiset;

/// One message of a conversation.
pub struct ChatMessage {
    pub role: String,
    pub content: String,
    pub timestamp: i64,
}

/// A conversation: an opaque id and its messages, oldest first.
pub struct Conversation {
    pub id: String,
    pub messages: Vec<ChatMessage>,
}

/// True when the timestamps never decrease along the sequence.
pub open spec fn time_ordered(ms: Seq<ChatMessage>) -> bool {
    forall|i: int, j: int| 0 <= i < j < ms.len() ==> ms[i].timestamp <= ms[j].timestamp
}

/// The display name of a message role in a prompt.
pub open spec fn role_display(r: Seq<char>) -> Seq<char> {
    if r == "user"@ {
        "User"@
    } else if r == "assistant"@ {
        "Assistant"@
    } else {
        r
    }
}

/// The prompt lines for the messages from index `i` on, one per message.
pub open spec fn history_lines(ms: Seq<ChatMessage>, i: int) -> Seq<char>
    decreases ms.len() - i,
{
    if i < 0 || i >= ms.len() {
        Seq::empty()
    } else {
        role_display(ms[i].role@) + ": "@ + ms[i].content@ + "\n"@ + history_lines(ms, i + 1)
    }
}

/// The prompt block for a conversation: a header and one line per message,
/// or the empty text for an empty conversation.
pub open spec fn format_history(ms: Seq<ChatMessage>) -> Seq<char> {
    if ms.len() == 0 {
        Seq::empty()
    } else {
        "Previous conversation:\n"@ + history_lines(ms, 0)
    }
}

fn history_lines_from(ms: &Vec<ChatMessage>, i: usize) -> (r: Vec<char>)
    requires
        i <= ms@.len(),
    ensures
        r@ == history_lines(ms@, i as int),
    decreases ms@.len() - i,
{
    if i >= ms.len() {
        let r: Vec<char> = Vec::new();
        proof {
            assert(r@ =~= history_lines(ms@, i as int));
        }
        return r;
    }
    let m = &ms[i];
    let mut line: Vec<char> = if crate::text::str_eq(m.role.as_str(), "user") {
        crate::text::str_to_chars("User")
    } else if crate::text::str_eq(m.role.as_str(), "assistant") {
        crate::text::str_to_chars("Assistant")
    } else {
        crate::text::str_to_chars(m.role.as_str())
    };
    crate::text::append_chars(&mut line, &crate::text::str_to_chars(": "));
    crate::text::append_chars(&mut line, &crate::text::str_to_chars(m.content.as_str()));
    crate::text::append_chars(&mut line, &crate::text::str_to_chars("\n"));
    let rest = history_lines_from(ms, i + 1);
    crate::text::append_chars(&mut line, &rest);
    line
}

/// Renders a conversation as the literal prompt block: a header line and one
/// `Role: content` line per message, or the empty string when the
/// conversation has no messages.
pub fn format_history_for_prompt(conversation: &Conversation) -> (r: String)
    ensures
        r@ == format_history(conversation.messages@),
{
    if conversation.messages.len() == 0 {
        let r = String::new();
        proof {
            assert(r@ =~= format_history(conversation.messages@));
        }
        return r;
    }
    let mut out = crate::text::str_to_chars("Previous conversation:\n");
    let lines = history_lines_from(&conversation.messages, 0);
    crate::text::append_chars(&mut out, &lines);
    crate::text::chars_to_string(&out)
}

/// True when some entry before index `i` carries the same id.
pub open spec fn id_seen_before(s: Seq<(String, ChatMessage)>, i: int) -> bool {
    exists|j: int| 0 <= j < i && s[j].0@ == s[i].0@
}

/// The entries with every repeated id dropped: the first occurrence wins.
pub open spec fn dedup_upto(s: Seq<(String, ChatMessage)>, i: int) -> Seq<(String, ChatMessage)>
    decreases i,
{
    if i <= 0 {
        Seq::empty()
    } else {
        dedup_upto(s, i - 1) + (if id_seen_before(s, i - 1) {
            Seq::empty()
        } else {
            seq![s[i - 1]]
        })
    }
}

fn has_id(out: &Vec<(String, ChatMessage)>, id: &String) -> (r: bool)
    ensures
        r == exists|j: int| 0 <= j < out@.len() && out@[j].0@ == id@,
{
    let mut k: usize = 0;
    while k < out.len()
        invariant
            k <= out@.len(),
            forall|j: int| 0 <= j < k ==> out@[j].0@ != id@,
        decreases out@.len() - k,
    {
        if crate::text::str_eq(out[k].0.as_str(), id.as_str()) {
            return true;
        }
        k += 1;
    }
    false
}

proof fn lemma_dedup_ids(s: Seq<(String, ChatMessage)>, i: int, id: Seq<char>)
    requires
        0 <= i <= s.len(),
    ensures
        (exists|j: int| 0 <= j < dedup_upto(s, i).len() && dedup_upto(s, i)[j].0@ == id) <==> (
        exists|j: int| 0 <= j < i && s[j].0@ == id),
    decreases i,
{
    if i > 0 {
        lemma_dedup_ids(s, i - 1, id);
        let pre = dedup_upto(s, i - 1);
        let cur = dedup_upto(s, i);
        if id_seen_before(s, i - 1) {
            assert(cur =~= pre);
            if s[i - 1].0@ == id {
                let w = choose|j: int| #![trigger s[j]] 0 <= j < i - 1 && s[j].0@ == s[i - 1].0@;
                assert(s[w].0@ == id);
            }
        } else {
            assert(cur =~= pre.push(s[i - 1]));
            if exists|j: int| 0 <= j < cur.len() && cur[j].0@ == id {
                let j = choose|j: int| #![trigger cur[j]] 0 <= j < cur.len() && cur[j].0@ == id;
                if j < pre.len() {
                    assert(pre[j].0@ == id);
                }
            }
            if exists|j: int| 0 <= j < i && s[j].0@ == id {
                let j = choose|j: int| #![trigger s[j]] 0 <= j < i && s[j].0@ == id;
                if j < i - 1 {
                    let w = choose|k: int| #![trigger pre[k]] 0 <= k < pre.len() && pre[k].0@ == id;
                    assert(cur[w].0@ == id);
                } else {
                    assert(cur[cur.len() - 1].0@ == id);
                }
            }
        }
    }
}

/// Drops every entry whose id already occurred earlier, keeping order.
pub fn dedup_by_id(pairs: Vec<(String, ChatMessage)>) -> (r: Vec<(String, ChatMessage)>)
    ensures
        r@ == dedup_upto(pairs@, pairs@.len() as int),
{
    let ghost orig = pairs@;
    let n = pairs.len();
    let mut rest = pairs;
    let mut out: Vec<(String, ChatMessage)> = Vec::new();
    let mut i: usize = 0;
    proof {
        assert(out@ =~= dedup_upto(orig, 0));
        assert(rest@ =~= orig.skip(0));
    }
    while rest.len() > 0
        invariant
            n == orig.len(),
            i <= n,
            rest@ == orig.skip(i as int),
            out@ == dedup_upto(orig, i as int),
        decreases rest@.len(),
    {
        let pair = rest.remove(0);
        proof {
            assert(i < orig.len());
            assert(orig.skip(i as int)[0] == orig[i as int]);
            assert(orig.skip(i as int).remove(0) =~= orig.skip(i as int + 1));
        }
        let present = has_id(&out, &pair.0);
        proof {
            lemma_dedup_ids(orig, i as int, orig[i as int].0@);
        }
        if !present {
            out.push(pair);
            proof {
                assert(!id_seen_before(orig, i as int));
                assert(out@ =~= dedup_upto(orig, i as int).push(orig[i as int]));
                assert(dedup_upto(orig, i as int + 1) =~= dedup_upto(orig, i as int).push(
                    orig[i as int],
                ));
            }
        } else {
            proof {
                assert(id_seen_before(orig, i as int));
                assert(dedup_upto(orig, i as int + 1) =~= dedup_upto(orig, i as int));
            }
        }
        i += 1;
    }
    proof {
        assert(i == orig.len());
    }
    out
}

fn find_insert_pos(out: &Vec<ChatMessage>, ts: i64) -> (k: usize)
    ensures
        k <= out@.len(),
        forall|j: int| 0 <= j < k ==> out@[j].timestamp <= ts,
        k < out@.len() ==> out@[k as int].timestamp > ts,
{
    let mut k: usize = 0;
    while k < out.len()
        invariant
            k <= out@.len(),
            forall|j: int| 0 <= j < k ==> out@[j].timestamp <= ts,
        decreases out@.len() - k,
    {
        if out[k].timestamp > ts {
            return k;
        }
        k += 1;
    }
    k
}

fn insert_by_time(out: &mut Vec<ChatMessage>, m: ChatMessage)
    requires
        time_ordered(old(out)@),
    ensures
        time_ordered(final(out)@),
        final(out)@.to_multiset() == old(out)@.to_multiset().insert(m),
{
    let k = find_insert_pos(out, m.timestamp);
    let ghost pre = out@;
    let ghost mm = m;
    out.insert(k, m);
    proof {
        broadcast use vstd::seq_lib::to_multiset_insert;
        assert(out@ == pre.insert(k as int, mm));
        assert(out@ =~= pre.subrange(0, k as int) + seq![mm] + pre.subrange(
            k as int,
            pre.len() as int,
        ));
        assert forall|a: int, b: int|
            0 <= a < b < out@.len() implies out@[a].timestamp <= out@[b].timestamp by {
            if a < k && b < k {
                assert(out@[a] == pre[a] && out@[b] == pre[b]);
            } else if a < k && b == k {
                assert(out@[a] == pre[a] && out@[b] == mm);
            } else if a < k && b > k {
                assert(out@[a] == pre[a] && out@[b] == pre[b - 1]);
                if k < pre.len() {
                    assert(pre[k as int].timestamp > mm.timestamp);
                }
            } else if a == k && b > k {
                assert(out@[a] == mm && out@[b] == pre[b - 1]);
                assert(pre[k as int].timestamp > mm.timestamp);
                assert(pre[k as int].timestamp <= pre[b - 1].timestamp);
            } else {
                assert(out@[a] == pre[a - 1] && out@[b] == pre[b - 1]);
            }
        }
    }
}

/// Sorts messages by timestamp, ascending; the result holds exactly the
/// input messages.
pub fn sort_by_timestamp(msgs: Vec<ChatMessage>) -> (r: Vec<ChatMessage>)
    ensures
        time_ordered(r@),
        r@.to_multiset() == msgs@.to_multiset(),
{
    let ghost orig = msgs@;
    let mut rest = msgs;
    let mut out: Vec<ChatMessage> = Vec::new();
    proof {
        broadcast use vstd::seq_lib::group_to_multiset_ensures;
        assert(out@ =~= Seq::<ChatMessage>::empty());
        assert(out@.to_multiset().add(rest@.to_multiset()) =~= orig.to_multiset());
    }
    while rest.len() > 0
        invariant
            time_ordered(out@),
            out@.to_multiset().add(rest@.to_multiset()) == orig.to_multiset(),
        decreases rest@.len(),
    {
        let ghost rest_pre = rest@;
        let ghost out_pre_ms = out@.to_multiset();
        let m = rest.remove(0);
        let ghost mm = m;
        insert_by_time(&mut out, m);
        proof {
            broadcast use vstd::seq_lib::group_to_multiset_ensures;
            assert(rest@ == rest_pre.remove(0));
            assert(rest_pre.remove(0).to_multiset() =~= rest_pre.to_multiset().remove(
                rest_pre[0],
            ));
            assert(mm == rest_pre[0]);
            assert(out@.to_multiset() =~= out_pre_ms.insert(mm));
            assert(out@.to_multiset().add(rest@.to_multiset()) =~= orig.to_multiset());
        }
    }
    proof {
        broadcast use vstd::seq_lib::group_to_multiset_ensures;
        assert(rest@.to_multiset() =~= Multiset::<ChatMessage>::empty()) by {
            assert(rest@ =~= Seq::<ChatMessage>::empty());
        }
        assert(out@.to_multiset() =~= orig.to_multiset());
    }
    out
}

/// Keeps the last `limit` entries of a vector, dropping the front.
pub fn keep_last(msgs: Vec<ChatMessage>, limit: usize) -> (r: Vec<ChatMessage>)
    ensures
        limit >= msgs@.len() ==> r@ == msgs@,
        limit < msgs@.len() ==> r@ == msgs@.skip(msgs@.len() - limit),
{
    let ghost orig = msgs@;
    let mut out = msgs;
    proof {
        assert(orig.skip(0) =~= orig);
    }
    while out.len() > limit
        invariant
            out@.len() <= orig.len(),
            out@.len() >= limit || out@.len() == orig.len(),
            out@ == orig.skip(orig.len() - out@.len()),
        decreases out@.len(),
    {
        let ghost pre = out@;
        let _ = out.remove(0);
        proof {
            assert(pre.remove(0) =~= orig.skip(orig.len() - pre.len() + 1));
        }
    }
    proof {
        if limit >= orig.len() {
            assert(out@ =~= orig);
        }
    }
    out
}

/// The message of each pair, in order.
pub open spec fn messages_of(pairs: Seq<(String, ChatMessage)>) -> Seq<ChatMessage> {
    pairs.map(|i: int, p: (String, ChatMessage)| p.1)
}

/// Merges the two retrieval legs of a history read: entries are
/// deduplicated by point id (the first occurrence wins, recency entries
/// first), sorted ascending by timestamp, and truncated to the newest
/// `limit`. The result is exactly the pool of deduplicated messages when it
/// fits the limit, and otherwise the final `limit` entries of a time-ordered
/// arrangement of that pool — the newest ones.
pub fn merge_history(
    id: String,
    recency: Vec<(String, ChatMessage)>,
    semantic: Vec<(String, ChatMessage)>,
    limit: usize,
) -> (r: Conversation)
    ensures
        r.id == id,
        time_ordered(r.messages@),
        ({
            let pool = messages_of(
                dedup_upto(recency@ + semantic@, (recency@ + semantic@).len() as int),
            );
            &&& (pool.len() <= limit ==> r.messages@.to_multiset() == pool.to_multiset()
                && r.messages@.len() == pool.len())
            &&& (pool.len() > limit ==> r.messages@.len() == limit)
            &&& exists|s: Seq<ChatMessage>|
                #![trigger time_ordered(s)]
                time_ordered(s) && s.to_multiset() == pool.to_multiset() && r.messages@ == (
                if s.len() <= limit {
                    s
                } else {
                    s.skip(s.len() - limit)
                })
        }),
{
    let ghost rec = recency@;
    let ghost sem = semantic@;
    let sem_len = semantic.len();
    let mut all = recency;
    let mut semantic = semantic;
    let mut ki: usize = 0;
    proof {
        assert(sem.subrange(0, 0) =~= Seq::<(String, ChatMessage)>::empty());
        assert(all@ =~= rec + sem.subrange(0, 0));
        assert(semantic@ =~= sem.subrange(0, sem.len() as int));
    }
    while semantic.len() > 0
        invariant
            sem_len == sem.len(),
            ki <= sem_len,
            all@ == rec + sem.subrange(0, ki as int),
            semantic@ == sem.subrange(ki as int, sem.len() as int),
        decreases semantic@.len(),
    {
        let pair = semantic.remove(0);
        all.push(pair);
        proof {
            assert(sem.subrange(ki as int, sem.len() as int)[0] == sem[ki as int]);
            assert(all@ =~= rec + sem.subrange(0, ki as int + 1));
            assert(sem.subrange(ki as int, sem.len() as int).remove(0) =~= sem.subrange(
                ki as int + 1,
                sem.len() as int,
            ));
        }
        ki += 1;
    }
    proof {
        assert(sem.subrange(0, ki as int) =~= sem);
        assert(all@ =~= rec + sem);
    }
    let unique = dedup_by_id(all);
    let ghost uniq = unique@;
    let ghost pool = messages_of(uniq);
    proof {
        assert(uniq == dedup_upto(rec + sem, (rec + sem).len() as int));
    }
    let mut msgs: Vec<ChatMessage> = Vec::new();
    let mut rest = unique;
    proof {
        broadcast use vstd::seq_lib::group_to_multiset_ensures;
        assert(msgs@.to_multiset().add(messages_of(rest@).to_multiset()) =~= pool.to_multiset())
            by {
            assert(messages_of(rest@) =~= pool);
        }
    }
    while rest.len() > 0
        invariant
            msgs@.to_multiset().add(messages_of(rest@).to_multiset()) == pool.to_multiset(),
        decreases rest@.len(),
    {
        let ghost rest_pre = rest@;
        let pair = rest.remove(0);
        msgs.push(pair.1);
        proof {
            broadcast use vstd::seq_lib::group_to_multiset_ensures;
            assert(messages_of(rest_pre)[0] == rest_pre[0].1);
            assert(messages_of(rest@) =~= messages_of(rest_pre).remove(0));
            assert(messages_of(rest_pre).remove(0).to_multiset() =~= messages_of(
                rest_pre,
            ).to_multiset().remove(messages_of(rest_pre)[0]));
        }
    }
    proof {
        broadcast use vstd::seq_lib::group_to_multiset_ensures;
        assert(messages_of(rest@) =~= Seq::<ChatMessage>::empty());
        assert(msgs@.to_multiset() =~= pool.to_multiset());
    }
    let sorted = sort_by_timestamp(msgs);
    let ghost sorted_view = sorted@;
    let kept = keep_last(sorted, limit);
    proof {
        broadcast use vstd::seq_lib::group_to_multiset_ensures;
        assert(sorted_view.to_multiset() == pool.to_multiset());
        assert(sorted_view.len() == pool.len()) by {
            assert(sorted_view.len() == sorted_view.to_multiset().len());
            assert(pool.len() == pool.to_multiset().len());
        }
        assert(kept@ == (if sorted_view.len() <= limit {
            sorted_view
        } else {
            sorted_view.skip(sorted_view.len() - limit)
        }));
        if sorted_view.len() > limit {
            assert(kept@.len() == limit) by {
                assert(kept@ =~= sorted_view.skip(sorted_view.len() - limit));
            }
        }
        assert(time_ordered(sorted_view) && sorted_view.to_multiset() == pool.to_multiset()
            && kept@ == (if sorted_view.len() <= limit {
            sorted_view
        } else {
            sorted_view.skip(sorted_view.len() - limit)
        }));
    }
    Conversation { id, messages: kept }
}

impl Conversation {
    /// Appends one message whose timestamp is not older than the last one,
    /// so a time-ordered conversation stays time-ordered.
    pub fn append_message(&mut self, role: String, content: String, timestamp: i64)
        requires
            time_ordered(old(self).messages@),
            old(self).messages@.len() > 0 ==> old(self).messages@.last().timestamp <= timestamp,
        ensures
            final(self).id == old(self).id,
            final(self).messages@ == old(self).messages@.push(
                ChatMessage { role, content, timestamp },
            ),
            time_ordered(final(self).messages@),
    {
        let ghost pre = self.messages@;
        self.messages.push(ChatMessage { role, content, timestamp });
        proof {
            assert forall|i: int, j: int|
                0 <= i < j < self.messages@.len() implies self.messages@[i].timestamp
                <= self.messages@[j].timestamp by {
                if j < pre.len() {
                    assert(self.messages@[i] == pre[i] && self.messages@[j] == pre[j]);
                } else {
                    assert(self.messages@[j].timestamp == timestamp);
                    if pre.len() > 0 {
                        assert(self.messages@[i] == pre[i]);
                        assert(pre[i].timestamp <= pre[pre.len() - 1].timestamp);
                    }
                }
            }
        }
    }
}

/// What one stored list entry denotes: its role, content and timestamp,
/// when it is an object with string role and content and an integer
/// timestamp number; anything else is a malformed entry and is skipped.
pub open spec fn stored_message_of(t: crate::json::JsonVal) -> Option<
    (Seq<char>, Seq<char>, int),
> {
    match t {
        crate::json::JsonVal::Obj(o) => match (
            crate::json::obj_lookup(o@, "role"@),
            crate::json::obj_lookup(o@, "content"@),
            crate::json::obj_lookup(o@, "timestamp"@),
        ) {
            (
                Some(crate::json::JsonVal::Str(role)),
                Some(crate::json::JsonVal::Str(content)),
                Some(crate::json::JsonVal::Num(ts)),
            ) => {
                match crate::text::signed_dec_val(ts@) {
                    Some(v) => Some((role@, content@, v)),
                    None => None,
                }
            },
            _ => None,
        },
        _ => None,
    }
}

/// The messages the stored entries from index `i` on denote, in stored
/// order, malformed entries skipped.
pub open spec fn decoded_views(entries: Seq<crate::json::JsonVal>, i: int) -> Seq<
    (Seq<char>, Seq<char>, int),
>
    decreases entries.len() - i,
{
    if i < 0 || i >= entries.len() {
        Seq::empty()
    } else {
        (match stored_message_of(entries[i]) {
            Some(v) => seq![v],
            None => Seq::empty(),
        }) + decoded_views(entries, i + 1)
    }
}

/// The role, content and timestamp texts of a message list.
pub open spec fn msg_views(ms: Seq<ChatMessage>) -> Seq<(Seq<char>, Seq<char>, int)> {
    ms.map(|i: int, m: ChatMessage| (m.role@, m.content@, m.timestamp as int))
}

fn decode_stored_message(t: &crate::json::JsonVal) -> (r: Option<ChatMessage>)
    ensures
        match r {
            Some(m) => stored_message_of(*t) == Some((m.role@, m.content@, m.timestamp as int)),
            None => stored_message_of(*t) is None,
        },
{
    let role = match t.get("role") {
        Some(v) => match v.as_str() {
            Some(s) => s.clone(),
            None => {
                return None;
            },
        },
        None => {
            return None;
        },
    };
    let content = match t.get("content") {
        Some(v) => match v.as_str() {
            Some(s) => s.clone(),
            None => {
                return None;
            },
        },
        None => {
            return None;
        },
    };
    match t.get("timestamp") {
        Some(v) => match v {
            crate::json::JsonVal::Num(ts) => {
                let digits = crate::text::str_to_chars(ts.as_str());
                match crate::text::parse_signed_checked(&digits) {
                    Some(value) => Some(ChatMessage { role, content, timestamp: value }),
                    None => None,
                }
            },
            _ => None,
        },
        None => None,
    }
}

/// Decodes a stored message list into a conversation: entries arrive newest
/// first and are reversed into chronological stored order; malformed entries
/// are skipped.
pub fn conversation_from_list(id: String, entries: &Vec<crate::json::JsonVal>) -> (r:
    Conversation)
    ensures
        r.id == id,
        msg_views(r.messages@) == decoded_views(entries@, 0).reverse(),
{
    let mut forward: Vec<ChatMessage> = Vec::new();
    let mut i: usize = 0;
    proof {
        assert(msg_views(forward@) + decoded_views(entries@, 0) =~= decoded_views(entries@, 0));
    }
    while i < entries.len()
        invariant
            i <= entries@.len(),
            msg_views(forward@) + decoded_views(entries@, i as int) == decoded_views(
                entries@,
                0,
            ),
        decreases entries@.len() - i,
    {
        let ghost pre = forward@;
        let decoded = decode_stored_message(&entries[i]);
        match decoded {
            Some(m) => {
                let ghost v = (m.role@, m.content@, m.timestamp as int);
                forward.push(m);
                proof {
                    assert(msg_views(forward@) =~= msg_views(pre).push(v));
                    assert(msg_views(pre).push(v) + decoded_views(entries@, i as int + 1)
                        =~= msg_views(pre) + (seq![v] + decoded_views(entries@, i as int + 1)));
                }
            },
            None => {},
        }
        i += 1;
    }
    proof {
        assert(decoded_views(entries@, entries@.len() as int) =~= Seq::<
            (Seq<char>, Seq<char>, int),
        >::empty());
        assert(msg_views(forward@) + Seq::<(Seq<char>, Seq<char>, int)>::empty() =~= msg_views(
            forward@,
        ));
    }
    let mut reversed: Vec<ChatMessage> = Vec::new();
    let mut rest = forward;
    let ghost fwd = rest@;
    proof {
        assert(msg_views(reversed@) =~= msg_views(fwd.skip(fwd.len() as int)).reverse());
    }
    while rest.len() > 0
        invariant
            rest@.len() <= fwd.len(),
            rest@ == fwd.subrange(0, rest@.len() as int),
            msg_views(reversed@) == msg_views(fwd.skip(rest@.len() as int)).reverse(),
        decreases rest@.len(),
    {
        let ghost pre = rest@;
        let m = rest.pop().unwrap();
        reversed.push(m);
        proof {
            assert(pre.drop_last() =~= fwd.subrange(0, pre.len() - 1));
            assert(m == fwd[pre.len() - 1]);
            let tail_pre = fwd.skip(pre.len() as int);
            let tail_post = fwd.skip(pre.len() - 1);
            assert(tail_post =~= seq![fwd[pre.len() - 1]] + tail_pre);
            assert(msg_views(tail_post) =~= seq![
                (m.role@, m.content@, m.timestamp as int),
            ] + msg_views(tail_pre));
            assert(msg_views(tail_post).reverse() =~= msg_views(tail_pre).reverse().push(
                (m.role@, m.content@, m.timestamp as int),
            ));
            assert(msg_views(reversed@) =~= msg_views(tail_pre).reverse().push(
                (m.role@, m.content@, m.timestamp as int),
            ));
        }
    }
    proof {
        assert(fwd.skip(0) =~= fwd);
        assert(msg_views(reversed@) =~= msg_views(fwd).reverse());
    }
    Conversation { id, messages: reversed }
}

} // verus!

