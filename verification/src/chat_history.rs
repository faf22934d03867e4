//! Local cache of 1-on-1 chat history.
//!
//! One JSON file per conversation partner under `<state>/vapour/chat/<steamid>.json`; reading
//! and writing the files happens outside the library. Here: where the files go, how incoming
//! messages are merged into a conversation (deduplicated on the stable `(timestamp, ordinal)`
//! key, sorted oldest-first), and which messages the retention window keeps.

use vstd::prelude::*;

use crate::locations::{chat_history_dir, spec_chat_history_dir};
use crate::paths::{join_path, spec_join};
use crate::text::{decimal_string, spec_decimal};

verus! {

broadcast use vstd::seq_lib::group_to_multiset_ensures;

/// Seconds in a day.
pub const SECONDS_PER_DAY: u64 = 86_400;

/// One chat message of a conversation.
#[derive(Debug, PartialEq, Eq)]
pub struct ChatMessage {
    /// The conversation partner (the friend), regardless of who authored the message.
    pub steamid: u64,
    pub message: String,
    /// Steam server timestamp (Unix seconds).
    pub timestamp: u32,
    /// Disambiguates multiple messages sharing the same second.
    pub ordinal: u32,
    /// True when the local user authored this message.
    pub from_local: bool,
}

impl Clone for ChatMessage {
    fn clone(&self) -> (r: Self)
        ensures
            r == *self,
    {
        ChatMessage {
            steamid: self.steamid,
            message: self.message.clone(),
            timestamp: self.timestamp,
            ordinal: self.ordinal,
            from_local: self.from_local,
        }
    }
}

/// Local chat-history store: a directory and a retention setting.
#[derive(Debug, Clone)]
pub struct ChatHistory {
    pub dir: String,
    pub retention_days: u32,
}

impl ChatHistory {
    /// Store rooted at the default state directory.
    pub fn new(retention_days: u32) -> (r: ChatHistory)
        ensures
            r.retention_days == retention_days,
            exists|root: Seq<char>| r.dir@ == spec_chat_history_dir(root),
    {
        ChatHistory { dir: chat_history_dir(), retention_days }
    }

    /// Store rooted at an explicit directory.
    pub fn with_dir(dir: String, retention_days: u32) -> (r: ChatHistory)
        ensures
            r.dir == dir,
            r.retention_days == retention_days,
    {
        ChatHistory { dir, retention_days }
    }

    /// The file holding the conversation with `steamid`: `<dir>/<steamid>.json`.
    pub fn path(&self, steamid: u64) -> (r: String)
        ensures
            r@ == spec_join(self.dir@, spec_decimal(steamid as nat) + ".json"@),
    {
        let mut name = decimal_string(steamid);
        name.append(".json");
        join_path(self.dir.as_str(), name.as_str())
    }

    /// The messages that are written when a conversation is saved at time `now_unix`.
    pub fn messages_to_save(&self, messages: &[ChatMessage], now_unix: u64) -> (r: Vec<ChatMessage>)
        ensures
            r@ == spec_prune(messages@, self.retention_days, now_unix),
    {
        prune(messages, self.retention_days, now_unix)
    }
}

// ------------------------------------------------------------------------------------------
// Merging
// ------------------------------------------------------------------------------------------

/// Two messages share the dedup key `(timestamp, ordinal)`.
pub open spec fn same_key(a: ChatMessage, b: ChatMessage) -> bool {
    a.timestamp == b.timestamp && a.ordinal == b.ordinal
}

/// `a` sorts strictly before `b` by `(timestamp, ordinal)`.
pub open spec fn key_before(a: ChatMessage, b: ChatMessage) -> bool {
    a.timestamp < b.timestamp || (a.timestamp == b.timestamp && a.ordinal < b.ordinal)
}

/// Some message of `s` has `m`'s key.
pub open spec fn has_key(s: Seq<ChatMessage>, m: ChatMessage) -> bool {
    exists|i: int| 0 <= i < s.len() && same_key(#[trigger] s[i], m)
}

/// Messages ordered oldest-first by `(timestamp, ordinal)`.
pub open spec fn is_sorted(s: Seq<ChatMessage>) -> bool {
    forall|i: int, j: int| 0 <= i < j < s.len() ==> !key_before(#[trigger] s[j], #[trigger] s[i])
}

/// `existing` with each message of `incoming` appended, in order, unless a message with its
/// key is already there (including one appended just before).
pub open spec fn spec_append_new(existing: Seq<ChatMessage>, incoming: Seq<ChatMessage>) -> Seq<
    ChatMessage,
>
    decreases incoming.len(),
{
    if incoming.len() == 0 {
        existing
    } else {
        let m = incoming[0];
        let next = if has_key(existing, m) {
            existing
        } else {
            existing.push(m)
        };
        spec_append_new(next, incoming.drop_first())
    }
}

/// Position at which `x` is inserted into sorted `s`, searching from `from`: before the first
/// message that sorts strictly after it, so that messages with equal keys keep their order.
pub open spec fn spec_insert_pos(s: Seq<ChatMessage>, x: ChatMessage, from: int) -> int
    decreases s.len() - from,
{
    if from < 0 || from >= s.len() {
        s.len() as int
    } else if key_before(x, s[from]) {
        from
    } else {
        spec_insert_pos(s, x, from + 1)
    }
}

/// `s` with `x` inserted in order.
pub open spec fn spec_insert_sorted(s: Seq<ChatMessage>, x: ChatMessage) -> Seq<ChatMessage> {
    s.insert(spec_insert_pos(s, x, 0), x)
}

/// The stable sort of `s` by `(timestamp, ordinal)`: its messages inserted in order, one by
/// one, each after every message whose key is not greater.
pub open spec fn spec_sort(s: Seq<ChatMessage>) -> Seq<ChatMessage>
    decreases s.len(),
{
    if s.len() == 0 {
        s
    } else {
        spec_insert_sorted(spec_sort(s.drop_last()), s.last())
    }
}

/// The conversation after merging `incoming` into `existing`, and whether anything was added:
/// new messages are appended and the whole conversation re-sorted; with nothing new it is left
/// as it was.
pub open spec fn spec_merge(existing: Seq<ChatMessage>, incoming: Seq<ChatMessage>) -> (
    Seq<ChatMessage>,
    bool,
) {
    let appended = spec_append_new(existing, incoming);
    if appended.len() > existing.len() {
        (spec_sort(appended), true)
    } else {
        (existing, false)
    }
}

fn has_key_exec(s: &Vec<ChatMessage>, m: &ChatMessage) -> (r: bool)
    ensures
        r == has_key(s@, *m),
{
    let mut i: usize = 0;
    while i < s.len()
        invariant
            i <= s.len(),
            forall|j: int| 0 <= j < i ==> !same_key(#[trigger] s@[j], *m),
        decreases s.len() - i,
    {
        if s[i].timestamp == m.timestamp && s[i].ordinal == m.ordinal {
            assert(same_key(s@[i as int], *m));
            return true;
        }
        i += 1;
    }
    false
}

fn insert_pos(s: &Vec<ChatMessage>, x: &ChatMessage) -> (r: usize)
    ensures
        r == spec_insert_pos(s@, *x, 0),
        r <= s.len(),
{
    let mut i: usize = 0;
    while i < s.len()
        invariant
            i <= s.len(),
            spec_insert_pos(s@, *x, 0) == spec_insert_pos(s@, *x, i as int),
        decreases s.len() - i,
    {
        if x.timestamp < s[i].timestamp || (x.timestamp == s[i].timestamp && x.ordinal < s[i].ordinal) {
            return i;
        }
        i += 1;
    }
    i
}

/// Sorts messages oldest-first by `(timestamp, ordinal)`, keeping equal keys in order.
pub fn sort_messages(v: &Vec<ChatMessage>) -> (r: Vec<ChatMessage>)
    ensures
        r@ == spec_sort(v@),
{
    let mut out: Vec<ChatMessage> = Vec::new();
    let mut i: usize = 0;
    assert(v@.take(0) =~= Seq::<ChatMessage>::empty());
    while i < v.len()
        invariant
            i <= v.len(),
            out@ == spec_sort(v@.take(i as int)),
        decreases v.len() - i,
    {
        let p = insert_pos(&out, &v[i]);
        let m = v[i].clone();
        out.insert(p, m);
        assert(v@.take(i + 1).drop_last() =~= v@.take(i as int));
        i += 1;
    }
    assert(v@.take(v.len() as int) =~= v@);
    out
}

/// Merges `incoming` messages into `existing`, deduping on the stable `(timestamp, ordinal)`
/// key and keeping the result sorted oldest-first. Returns `true` if anything new was added.
pub fn merge(existing: &mut Vec<ChatMessage>, incoming: Vec<ChatMessage>) -> (added: bool)
    ensures
        (final(existing)@, added) == spec_merge(old(existing)@, incoming@),
{
    let ghost orig = existing@;
    let mut added = false;
    let mut i: usize = 0;
    assert(incoming@.skip(0) =~= incoming@);
    while i < incoming.len()
        invariant
            i <= incoming.len(),
            spec_append_new(orig, incoming@) == spec_append_new(existing@, incoming@.skip(i as int)),
            orig.len() <= existing@.len(),
            added == (existing@.len() > orig.len()),
            !added ==> existing@ == orig,
        decreases incoming.len() - i,
    {
        assert(incoming@.skip(i as int).drop_first() =~= incoming@.skip(i + 1));
        assert(incoming@.skip(i as int)[0] == incoming@[i as int]);
        if !has_key_exec(existing, &incoming[i]) {
            existing.push(incoming[i].clone());
            added = true;
        }
        i += 1;
    }
    assert(incoming@.skip(incoming.len() as int) =~= Seq::<ChatMessage>::empty());
    if added {
        let sorted = sort_messages(existing);
        *existing = sorted;
    }
    added
}

// ------------------------------------------------------------------------------------------
// Retention
// ------------------------------------------------------------------------------------------

/// Oldest timestamp kept: `retention_days` before `now_unix`, or the epoch when that is
/// earlier.
pub open spec fn spec_cutoff(retention_days: u32, now_unix: u64) -> int {
    let window = retention_days * 86_400;
    if now_unix >= window {
        now_unix - window
    } else {
        0
    }
}

/// The messages of `s` not older than `cutoff`, in order.
pub open spec fn spec_keep_recent(s: Seq<ChatMessage>, cutoff: int) -> Seq<ChatMessage>
    decreases s.len(),
{
    if s.len() == 0 {
        s
    } else {
        let rest = spec_keep_recent(s.drop_last(), cutoff);
        if s.last().timestamp >= cutoff {
            rest.push(s.last())
        } else {
            rest
        }
    }
}

/// The messages the retention window keeps at time `now_unix`; `retention_days == 0` keeps
/// everything.
pub open spec fn spec_prune(s: Seq<ChatMessage>, retention_days: u32, now_unix: u64) -> Seq<
    ChatMessage,
> {
    if retention_days == 0 {
        s
    } else {
        spec_keep_recent(s, spec_cutoff(retention_days, now_unix))
    }
}

/// Retention keeps exactly the messages sent within the window: with a retention of `d > 0`
/// days, a message stays when its timestamp plus `d` days is not before `now_unix`, and the
/// kept messages keep their order; with `d == 0` every message stays.
pub proof fn lemma_prune_keeps_the_window(s: Seq<ChatMessage>, retention_days: u32, now_unix: u64)
    ensures
        retention_days > 0 ==> spec_prune(s, retention_days, now_unix) == s.filter(
            |m: ChatMessage| m.timestamp + retention_days * 86_400 >= now_unix,
        ),
        retention_days == 0 ==> spec_prune(s, retention_days, now_unix) == s,
    decreases s.len(),
{
    if retention_days > 0 {
        let f = |m: ChatMessage| m.timestamp + retention_days * 86_400 >= now_unix;
        let c = spec_cutoff(retention_days, now_unix);
        assert forall|m: ChatMessage| (m.timestamp >= c) == f(m) by {}
        lemma_keep_recent_is_filter(s, c, f);
    }
}

proof fn lemma_keep_recent_is_filter(s: Seq<ChatMessage>, c: int, f: spec_fn(ChatMessage) -> bool)
    requires
        forall|m: ChatMessage| (m.timestamp >= c) == #[trigger] f(m),
    ensures
        spec_keep_recent(s, c) == s.filter(f),
    decreases s.len(),
{
    reveal(Seq::filter);
    if s.len() > 0 {
        lemma_keep_recent_is_filter(s.drop_last(), c, f);
        assert(f(s.last()) == (s.last().timestamp >= c));
    }
}

/// Drops messages older than the retention window. `retention_days == 0` keeps everything.
pub fn prune(messages: &[ChatMessage], retention_days: u32, now_unix: u64) -> (r: Vec<ChatMessage>)
    ensures
        r@ == spec_prune(messages@, retention_days, now_unix),
{
    let window: u64 = (retention_days as u64) * SECONDS_PER_DAY;
    let cutoff: u64 = now_unix.saturating_sub(window);
    let mut out: Vec<ChatMessage> = Vec::new();
    let mut i: usize = 0;
    assert(messages@.take(0) =~= Seq::<ChatMessage>::empty());
    while i < messages.len()
        invariant
            i <= messages.len(),
            cutoff == spec_cutoff(retention_days, now_unix),
            window == retention_days * 86_400,
            retention_days == 0 ==> out@ == messages@.take(i as int),
            retention_days != 0 ==> out@ == spec_keep_recent(messages@.take(i as int), cutoff as int),
        decreases messages.len() - i,
    {
        assert(messages@.take(i + 1).drop_last() =~= messages@.take(i as int));
        assert(messages@.take(i + 1).last() == messages@[i as int]);
        if retention_days == 0 || messages[i].timestamp as u64 >= cutoff {
            out.push(messages[i].clone());
        }
        i += 1;
        assert(retention_days == 0 ==> out@ =~= messages@.take(i as int));
    }
    assert(messages@.take(messages.len() as int) =~= messages@);
    out
}

// ------------------------------------------------------------------------------------------
// Laws
// ------------------------------------------------------------------------------------------

proof fn lemma_insert_pos_bounds(s: Seq<ChatMessage>, x: ChatMessage, from: int)
    requires
        0 <= from <= s.len(),
    ensures
        from <= spec_insert_pos(s, x, from) <= s.len(),
        forall|k: int| from <= k < spec_insert_pos(s, x, from) ==> !key_before(x, #[trigger] s[k]),
        spec_insert_pos(s, x, from) < s.len() ==> key_before(x, s[spec_insert_pos(s, x, from)]),
    decreases s.len() - from,
{
    if from < s.len() && !key_before(x, s[from]) {
        lemma_insert_pos_bounds(s, x, from + 1);
    }
}

proof fn lemma_insert_sorted(s: Seq<ChatMessage>, x: ChatMessage)
    requires
        is_sorted(s),
    ensures
        is_sorted(spec_insert_sorted(s, x)),
        spec_insert_sorted(s, x).len() == s.len() + 1,
{
    let p = spec_insert_pos(s, x, 0);
    lemma_insert_pos_bounds(s, x, 0);
    let r = spec_insert_sorted(s, x);
    assert forall|i: int, j: int| 0 <= i < j < r.len() implies !key_before(#[trigger] r[j], #[trigger] r[i]) by {
        if j < p {
            assert(r[i] == s[i] && r[j] == s[j]);
        } else if j == p {
            assert(r[j] == x && r[i] == s[i]);
        } else if i < p {
            assert(r[i] == s[i] && r[j] == s[j - 1]);
            assert(!key_before(x, s[i]));
            assert(key_before(x, s[p]));
            assert(!key_before(s[j - 1], s[p]) || j - 1 == p);
        } else if i == p {
            assert(r[i] == x && r[j] == s[j - 1]);
            assert(key_before(x, s[p]));
            assert(!key_before(s[j - 1], s[p]) || j - 1 == p);
        } else {
            assert(r[i] == s[i - 1] && r[j] == s[j - 1]);
        }
    }
}

/// A stable sort orders messages oldest-first.
pub proof fn lemma_sort_is_sorted(s: Seq<ChatMessage>)
    ensures
        is_sorted(spec_sort(s)),
        spec_sort(s).len() == s.len(),
    decreases s.len(),
{
    if s.len() > 0 {
        lemma_sort_is_sorted(s.drop_last());
        lemma_insert_sorted(spec_sort(s.drop_last()), s.last());
    }
}

/// Sorting keeps exactly the same messages.
pub proof fn lemma_sort_permutes(s: Seq<ChatMessage>)
    ensures
        spec_sort(s).to_multiset() == s.to_multiset(),
    decreases s.len(),
{
    if s.len() > 0 {
        lemma_sort_permutes(s.drop_last());
        lemma_insert_pos_bounds(spec_sort(s.drop_last()), s.last(), 0);
        lemma_sort_is_sorted(s.drop_last());
        assert(s.drop_last().push(s.last()) =~= s);
    }
}

proof fn lemma_append_new_facts(existing: Seq<ChatMessage>, incoming: Seq<ChatMessage>)
    ensures
        spec_append_new(existing, incoming).len() >= existing.len(),
        spec_append_new(existing, incoming).subrange(0, existing.len() as int) == existing,
        forall|j: int| 0 <= j < incoming.len() ==> has_key(spec_append_new(existing, incoming), #[trigger] incoming[j]),
        spec_append_new(existing, incoming).len() > existing.len() <==> exists|j: int|
            0 <= j < incoming.len() && !has_key(existing, #[trigger] incoming[j]),
    decreases incoming.len(),
{
    if incoming.len() > 0 {
        let m = incoming[0];
        let next = if has_key(existing, m) {
            existing
        } else {
            existing.push(m)
        };
        lemma_append_new_facts(next, incoming.drop_first());
        let r = spec_append_new(existing, incoming);
        assert(r == spec_append_new(next, incoming.drop_first()));
        assert(r.subrange(0, next.len() as int) == next);
        assert(r.subrange(0, existing.len() as int) =~= existing) by {
            assert(next.subrange(0, existing.len() as int) =~= existing);
            assert(r.subrange(0, existing.len() as int) =~= r.subrange(0, next.len() as int).subrange(
                0,
                existing.len() as int,
            ));
        }
        // Every key present in `next` stays present in the result.
        assert(forall|k: int| 0 <= k < next.len() ==> r[k] == #[trigger] next[k]) by {
            assert forall|k: int| 0 <= k < next.len() implies r[k] == #[trigger] next[k] by {
                assert(r.subrange(0, next.len() as int)[k] == r[k]);
            }
        }
        assert forall|j: int| 0 <= j < incoming.len() implies has_key(r, #[trigger] incoming[j]) by {
            if j == 0 {
                if has_key(existing, m) {
                    let w = choose|w: int| 0 <= w < existing.len() && same_key(#[trigger] existing[w], m);
                    assert(same_key(r[w], m));
                } else {
                    assert(next[existing.len() as int] == m);
                    assert(r[existing.len() as int] == next[existing.len() as int]);
                    assert(same_key(r[existing.len() as int], m));
                }
            } else {
                assert(incoming.drop_first()[j - 1] == incoming[j]);
            }
        }
        if has_key(existing, m) {
            if r.len() > existing.len() {
                let j = choose|j: int|
                    0 <= j < incoming.drop_first().len() && !has_key(next, #[trigger] incoming.drop_first()[j]);
                assert(incoming[j + 1] == incoming.drop_first()[j]);
            }
            if exists|j: int| 0 <= j < incoming.len() && !has_key(existing, #[trigger] incoming[j]) {
                let j = choose|j: int| 0 <= j < incoming.len() && !has_key(existing, #[trigger] incoming[j]);
                assert(j != 0);
                assert(incoming.drop_first()[j - 1] == incoming[j]);
            }
        } else {
            assert(!has_key(existing, incoming[0]));
        }
    }
}

/// After a merge that added something, the conversation is ordered oldest-first.
pub proof fn lemma_merge_sorted(existing: Seq<ChatMessage>, incoming: Seq<ChatMessage>)
    requires
        spec_merge(existing, incoming).1,
    ensures
        is_sorted(spec_merge(existing, incoming).0),
{
    lemma_sort_is_sorted(spec_append_new(existing, incoming));
}

/// A merge adds something exactly when some incoming message's key is not yet in the
/// conversation.
pub proof fn lemma_merge_added_iff(existing: Seq<ChatMessage>, incoming: Seq<ChatMessage>)
    ensures
        spec_merge(existing, incoming).1 <==> exists|j: int|
            0 <= j < incoming.len() && !has_key(existing, #[trigger] incoming[j]),
{
    lemma_append_new_facts(existing, incoming);
}

/// Merging keeps every message already in the conversation, and afterwards every incoming
/// message's key is present.
pub proof fn lemma_merge_keeps_and_covers(existing: Seq<ChatMessage>, incoming: Seq<ChatMessage>)
    ensures
        forall|i: int| 0 <= i < existing.len() ==> spec_merge(existing, incoming).0.contains(#[trigger] existing[i]),
        forall|j: int| 0 <= j < incoming.len() ==> has_key(spec_merge(existing, incoming).0, #[trigger] incoming[j]),
{
    let appended = spec_append_new(existing, incoming);
    lemma_append_new_facts(existing, incoming);
    let r = spec_merge(existing, incoming).0;
    if appended.len() > existing.len() {
        lemma_sort_permutes(appended);
        assert forall|i: int| 0 <= i < existing.len() implies r.contains(#[trigger] existing[i]) by {
            assert(appended.subrange(0, existing.len() as int)[i] == appended[i]);
            assert(appended.contains(existing[i]));
            assert(appended.to_multiset().count(existing[i]) > 0);
        }
        assert forall|j: int| 0 <= j < incoming.len() implies has_key(r, #[trigger] incoming[j]) by {
            assert(has_key(appended, incoming[j]));
            let w = choose|w: int| 0 <= w < appended.len() && same_key(#[trigger] appended[w], incoming[j]);
            assert(appended.contains(appended[w]));
            assert(r.to_multiset().count(appended[w]) > 0);
            assert(r.contains(appended[w]));
            let v = choose|v: int| 0 <= v < r.len() && r[v] == appended[w];
            assert(same_key(r[v], incoming[j]));
        }
    } else {
        assert(appended =~= existing) by {
            assert(appended.subrange(0, existing.len() as int) == existing);
        }
        assert forall|i: int| 0 <= i < existing.len() implies r.contains(#[trigger] existing[i]) by {
            assert(r[i] == existing[i]);
        }
    }
}

/// Merging the same messages again adds nothing and changes nothing.
pub proof fn lemma_merge_idempotent(existing: Seq<ChatMessage>, incoming: Seq<ChatMessage>)
    ensures
        spec_merge(spec_merge(existing, incoming).0, incoming) == (spec_merge(existing, incoming).0, false),
{
    let r = spec_merge(existing, incoming).0;
    lemma_merge_keeps_and_covers(existing, incoming);
    lemma_merge_added_iff(r, incoming);
}

} // verus!
