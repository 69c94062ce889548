//! Reading back the message history: which stored memories hold messages,
//! which messages are kept, and in what order they come out.

use vstd::prelude::*;
use crate::messaging::types::{expired_at, Message};
use crate::models::memory::{memory_type_text, Memory};
use crate::text::{chars_of, has_prefix, vec_has_prefix};
use crate::time::{ts_before, Timestamp};

verus! {

/// Whether a stored memory holds a message: its type reads `msg:` followed
/// by the topic.
pub open spec fn holds_message(memory_type: Seq<char>) -> bool {
    has_prefix(memory_type, "msg:"@)
}

/// Whether a stored memory holds a message.
pub fn is_message_memory(memory: &Memory) -> (r: bool)
    ensures
        r == holds_message(memory_type_text(memory@.memory_type)),
{
    let text = memory.memory_type.to_string();
    let chars = chars_of(text.as_str());
    let prefix = chars_of("msg:");
    vec_has_prefix(&chars, &prefix)
}

/// Whether a message read at `now` stays in the history: expired messages
/// stay only when asked for.
pub open spec fn kept_in_history(m: Message, include_expired: bool, now: Timestamp) -> bool {
    include_expired || !expired_at(m.expires_at, now)
}

/// The test of `kept_in_history` as a predicate.
pub open spec fn kept_at(include_expired: bool, now: Timestamp) -> spec_fn(Message) -> bool {
    |m: Message| kept_in_history(m, include_expired, now)
}

/// The predicate of a message stamped at `t`.
pub open spec fn stamped(t: Timestamp) -> spec_fn(Message) -> bool {
    |m: Message| m.timestamp == t
}

/// Whether the messages run from the most recent to the oldest.
pub open spec fn newest_first(s: Seq<Message>) -> bool {
    forall|i: int, j: int| 0 <= i < j < s.len() ==> !ts_before(#[trigger] s[i].timestamp, #[trigger] s[j].timestamp)
}

/// Whether `r` is `s` ordered from the most recent message to the oldest,
/// messages stamped at the same instant keeping their order in `s`.
pub open spec fn ordered_newest_first(r: Seq<Message>, s: Seq<Message>) -> bool {
    &&& newest_first(r)
    &&& forall|t: Timestamp| #[trigger] r.filter(stamped(t)) == s.filter(stamped(t))
}

/// Put the messages of a history in order: drop the expired ones unless
/// `include_expired` (expiry judged at `now`), then order the rest from the
/// most recent to the oldest, those stamped at the same instant keeping their
/// order.
pub fn order_message_history(messages: Vec<Message>, include_expired: bool, now: Timestamp) -> (r: Vec<Message>)
    ensures
        ordered_newest_first(r@, messages@.filter(kept_at(include_expired, now))),
{
    let ghost orig = messages@;
    let ghost keep = kept_at(include_expired, now);
    let n = messages.len();
    assert(orig.len() == n);
    let mut rest = messages;
    let mut out: Vec<Message> = Vec::new();
    let mut i: usize = 0;
    while rest.len() > 0
        invariant
            keep == kept_at(include_expired, now),
            i <= orig.len(),
            orig.len() <= usize::MAX,
            rest@ == orig.skip(i as int),
            newest_first(out@),
            forall|t: Timestamp| #[trigger] out@.filter(stamped(t)) == orig.take(i as int).filter(keep).filter(stamped(t)),
        decreases rest.len(),
    {
        let m = rest.remove(0);
        assert(m == orig[i as int]);
        assert(orig.take(i + 1) =~= orig.take(i as int).push(m));
        if include_expired || !m.is_expired_at(now) {
            let mut p: usize = 0;
            while p < out.len() && !out[p].timestamp.is_before(&m.timestamp)
                invariant
                    p <= out@.len(),
                    forall|q: int| 0 <= q < p ==> !ts_before(#[trigger] out@[q].timestamp, m.timestamp),
                decreases out.len() - p,
            {
                p += 1;
            }
            let ghost before = out@;
            proof {
                lemma_older_after(before, p as int, m.timestamp);
            }
            out.insert(p, m);
            proof {
                lemma_insert_keeps_order(before, p as int, m);
                assert forall|t: Timestamp| #[trigger] out@.filter(stamped(t))
                    == orig.take(i + 1).filter(keep).filter(stamped(t)) by {
                    lemma_insert_filter(before, p as int, m, t);
                    orig.take(i as int).lemma_filter_push(m, keep);
                    orig.take(i as int).filter(keep).lemma_filter_push(m, stamped(t));
                    assert(before.filter(stamped(t)) == orig.take(i as int).filter(keep).filter(stamped(t)));
                }
            }
        } else {
            proof {
                assert forall|t: Timestamp| #[trigger] out@.filter(stamped(t))
                    == orig.take(i + 1).filter(keep).filter(stamped(t)) by {
                    orig.take(i as int).lemma_filter_push(m, keep);
                    assert(out@.filter(stamped(t)) == orig.take(i as int).filter(keep).filter(stamped(t)));
                }
            }
        }
        i += 1;
        assert(rest@ =~= orig.skip(i as int));
    }
    assert(orig.take(i as int) =~= orig);
    out
}

/// In a list that runs from the most recent to the oldest, once an entry is
/// older than `ts`, so is every entry after it.
proof fn lemma_older_after(s: Seq<Message>, p: int, ts: Timestamp)
    requires
        newest_first(s),
        0 <= p <= s.len(),
        p < s.len() ==> ts_before(s[p].timestamp, ts),
    ensures
        forall|q: int| p <= q < s.len() ==> ts_before(#[trigger] s[q].timestamp, ts),
{
    assert forall|q: int| p <= q < s.len() implies ts_before(#[trigger] s[q].timestamp, ts) by {
        if q > p {
            assert(!ts_before(s[p].timestamp, s[q].timestamp));
        }
    }
}

/// Inserting a message after every entry at least as recent and before every
/// older one keeps the list running from the most recent to the oldest.
proof fn lemma_insert_keeps_order(s: Seq<Message>, p: int, m: Message)
    requires
        newest_first(s),
        0 <= p <= s.len(),
        forall|q: int| 0 <= q < p ==> !ts_before(#[trigger] s[q].timestamp, m.timestamp),
        forall|q: int| p <= q < s.len() ==> ts_before(#[trigger] s[q].timestamp, m.timestamp),
    ensures
        newest_first(s.insert(p, m)),
{
    let r = s.insert(p, m);
    assert forall|i: int, j: int| 0 <= i < j < r.len() implies !ts_before(#[trigger] r[i].timestamp, #[trigger] r[j].timestamp) by {
        if j < p {
            assert(r[i] == s[i] && r[j] == s[j]);
        } else if j == p {
            assert(r[i] == s[i] && r[j] == m);
        } else if i < p {
            assert(r[i] == s[i] && r[j] == s[j - 1]);
        } else if i == p {
            assert(r[i] == m && r[j] == s[j - 1]);
        } else {
            assert(r[i] == s[i - 1] && r[j] == s[j - 1]);
        }
    }
}

/// Inserting a message before every older entry, and after every entry at
/// least as recent, adds it at the end of the entries stamped like it and
/// changes no other stamp's entries.
proof fn lemma_insert_filter(s: Seq<Message>, p: int, m: Message, t: Timestamp)
    requires
        0 <= p <= s.len(),
        forall|q: int| p <= q < s.len() ==> ts_before(#[trigger] s[q].timestamp, m.timestamp),
    ensures
        s.insert(p, m).filter(stamped(t)) == if m.timestamp == t {
            s.filter(stamped(t)).push(m)
        } else {
            s.filter(stamped(t))
        },
{
    let a = s.take(p);
    let b = s.skip(p);
    assert(s =~= a + b);
    assert(s.insert(p, m) =~= a.push(m) + b);
    Seq::filter_distributes_over_add(a.push(m), b, stamped(t));
    Seq::filter_distributes_over_add(a, b, stamped(t));
    a.lemma_filter_push(m, stamped(t));
    if m.timestamp == t {
        assert forall|q: int| 0 <= q < b.len() implies !stamped(t)(#[trigger] b[q]) by {
            assert(b[q] == s[p + q]);
        }
        b.lemma_all_neg_filter_empty(stamped(t));
        assert(b.filter(stamped(t)) =~= Seq::<Message>::empty());
        assert(a.filter(stamped(t)).push(m) + b.filter(stamped(t)) =~= (a.filter(stamped(t)) + b.filter(stamped(t))).push(m));
    }
}

} // verus!
