//! Friends and 1-on-1 conversations in the client state: the friends list order, the
//! conversation list, opening a conversation, composing, and taking in messages.

use vstd::prelude::*;

use crate::chat_history::{merge, spec_merge, ChatMessage};
use crate::ordering::{
    covers, idx_before, is_stable_order, keys_view, stable_order, text_order, KeyView,
    SortKey,
};
use crate::protocol::{find_persona, lemma_find_persona, spec_find_persona, Persona, PersonaState, RunCommand};
use crate::routes::{ActiveBlock, Route, RouteId};
use crate::text::{
    chars_of,
    decimal_string,
    spec_decimal,
    spec_lowercase,
    spec_trim,
    string_from_chars,
    to_lowercase,
    trim_chars,
};
use crate::ui::{keys_unique, spec_elapsed, App, Conversation, Effect, TYPING_THROTTLE_MS};

verus! {

/// A conversation as a value.
pub struct ConvView {
    pub messages: Seq<ChatMessage>,
    pub unread: usize,
    pub peer_typing_until: Option<u64>,
}

pub open spec fn conv_view(c: Conversation) -> ConvView {
    ConvView { messages: c.messages@, unread: c.unread, peer_typing_until: c.peer_typing_until }
}

pub open spec fn convs_view(s: Seq<(u64, Conversation)>) -> Seq<(u64, ConvView)> {
    Seq::new(s.len(), |i: int| (s[i].0, conv_view(s[i].1)))
}

/// Position of the first conversation with this partner.
pub open spec fn is_first_conv(s: Seq<(u64, ConvView)>, steamid: u64, i: int) -> bool {
    0 <= i < s.len() && s[i].0 == steamid && forall|j: int| 0 <= j < i ==> s[j].0 != steamid
}

pub open spec fn spec_conv_index(s: Seq<(u64, ConvView)>, steamid: u64) -> Option<int> {
    if exists|i: int| is_first_conv(s, steamid, i) {
        Some(choose|i: int| is_first_conv(s, steamid, i))
    } else {
        None
    }
}

/// The conversations with one for `steamid` added, holding `cached`, when there is none.
pub open spec fn spec_ensure(s: Seq<(u64, ConvView)>, steamid: u64, cached: Seq<ChatMessage>) -> Seq<
    (u64, ConvView),
> {
    match spec_conv_index(s, steamid) {
        Some(_) => s,
        None => s.push((steamid, ConvView { messages: cached, unread: 0, peer_typing_until: None })),
    }
}

/// Timestamp of the newest message, zero for an empty conversation.
pub open spec fn last_activity(c: ConvView) -> int {
    if c.messages.len() > 0 {
        c.messages.last().timestamp as int
    } else {
        0
    }
}

/// Conversation list order: most recent activity first.
pub open spec fn conv_key(c: ConvView) -> KeyView {
    KeyView { major: 4294967295 - last_activity(c), minor: 0, text: Seq::empty(), last: 0 }
}

pub open spec fn conv_keys(s: Seq<(u64, ConvView)>) -> Seq<KeyView> {
    Seq::new(s.len(), |i: int| conv_key(s[i].1))
}

/// Friends order: in game first, then online, then offline; by lowercased name within each.
pub open spec fn presence_rank(p: Persona) -> int {
    if p.game_app_id is Some {
        0
    } else if p.state != PersonaState::Offline && p.state != PersonaState::Invisible {
        1
    } else {
        2
    }
}

pub open spec fn friend_key(p: Persona) -> KeyView {
    KeyView { major: presence_rank(p), minor: 0, text: spec_lowercase(p.name@), last: 0 }
}

pub open spec fn friend_keys(s: Seq<Persona>) -> Seq<KeyView> {
    Seq::new(s.len(), |i: int| friend_key(s[i]))
}

/// In any stable order of the conversation list, a conversation whose newest message is
/// newer comes first: positions earlier in the order hold conversations whose last message
/// is at least as recent (an empty conversation counting as time zero), and conversations
/// equally recent keep the order they were started in.
pub proof fn lemma_conversations_newest_first(cs: Seq<(u64, ConvView)>, order: Seq<usize>, p: int, q: int)
    requires
        is_stable_order(conv_keys(cs), order),
        0 <= p < q < order.len(),
    ensures
        (if cs[order[p] as int].1.messages.len() > 0 {
            cs[order[p] as int].1.messages.last().timestamp as int
        } else {
            0
        }) >= (if cs[order[q] as int].1.messages.len() > 0 {
            cs[order[q] as int].1.messages.last().timestamp as int
        } else {
            0
        }),
        (if cs[order[p] as int].1.messages.len() > 0 {
            cs[order[p] as int].1.messages.last().timestamp as int
        } else {
            0
        }) == (if cs[order[q] as int].1.messages.len() > 0 {
            cs[order[q] as int].1.messages.last().timestamp as int
        } else {
            0
        }) ==> order[p] < order[q],
{
    let keys = conv_keys(cs);
    assert(idx_before(keys, order[p] as int, order[q] as int));
    assert(keys[order[p] as int] == conv_key(cs[order[p] as int].1));
    assert(keys[order[q] as int] == conv_key(cs[order[q] as int].1));
}

/// In any stable order of the friends list, friends in a game come before all others, and
/// friends who are on in any state but offline or invisible come before those who are offline
/// or invisible; within each of these groups, friends are in order of their lowercased names.
pub proof fn lemma_friends_in_game_then_on_then_off(fs: Seq<Persona>, order: Seq<usize>, p: int, q: int)
    requires
        is_stable_order(friend_keys(fs), order),
        0 <= p < q < order.len(),
    ensures
        fs[order[q] as int].game_app_id is Some ==> fs[order[p] as int].game_app_id is Some,
        fs[order[q] as int].game_app_id is None && fs[order[q] as int].state != PersonaState::Offline
            && fs[order[q] as int].state != PersonaState::Invisible ==> fs[order[p] as int].game_app_id
            is Some || (fs[order[p] as int].state != PersonaState::Offline && fs[order[p] as int].state
            != PersonaState::Invisible),
        ({
            let a = fs[order[p] as int];
            let b = fs[order[q] as int];
            let off_a = a.state == PersonaState::Offline || a.state == PersonaState::Invisible;
            let off_b = b.state == PersonaState::Offline || b.state == PersonaState::Invisible;
            (a.game_app_id is Some && b.game_app_id is Some) || (a.game_app_id is None && b.game_app_id
                is None && off_a == off_b) ==> text_order(spec_lowercase(a.name@), spec_lowercase(b.name@))
                <= 0
        }),
{
    let keys = friend_keys(fs);
    assert(idx_before(keys, order[p] as int, order[q] as int));
    assert(keys[order[p] as int] == friend_key(fs[order[p] as int]));
    assert(keys[order[q] as int] == friend_key(fs[order[q] as int]));
}

/// Sum of the unread counts.
pub open spec fn spec_unread_sum(s: Seq<(u64, ConvView)>) -> int
    decreases s.len(),
{
    if s.len() == 0 {
        0
    } else {
        spec_unread_sum(s.drop_last()) + s.last().1.unread
    }
}

/// The name shown for a friend: the persona name unless missing or empty, else the SteamID.
pub open spec fn spec_friend_name(friends: Seq<Persona>, steamid: u64) -> Seq<char> {
    match spec_find_persona(friends, steamid) {
        Some(i) => if friends[i].name@.len() > 0 {
            friends[i].name@
        } else {
            spec_decimal(steamid as nat)
        },
        None => spec_decimal(steamid as nat),
    }
}

fn find_conversation(convs: &Vec<(u64, Conversation)>, steamid: u64) -> (r: Option<usize>)
    ensures
        match r {
            Some(i) => i < convs@.len() && spec_conv_index(convs_view(convs@), steamid) == Some(
                i as int,
            ),
            None => spec_conv_index(convs_view(convs@), steamid) is None && forall|j: int|
                0 <= j < convs@.len() ==> #[trigger] convs@[j].0 != steamid,
        },
{
    let ghost cv = convs_view(convs@);
    let mut i: usize = 0;
    while i < convs.len()
        invariant
            cv == convs_view(convs@),
            i <= convs.len(),
            forall|j: int| 0 <= j < i ==> cv[j].0 != steamid,
        decreases convs.len() - i,
    {
        if convs[i].0 == steamid {
            proof {
                assert(is_first_conv(cv, steamid, i as int));
                let c = choose|k: int| is_first_conv(cv, steamid, k);
                assert(c == i as int);
            }
            return Some(i);
        }
        i = i + 1;
    }
    assert forall|j: int| 0 <= j < convs@.len() implies #[trigger] convs@[j].0 != steamid by {
        assert(cv[j].0 == convs@[j].0);
    }
    None
}

impl App {
    /// Whether a conversation with `steamid` is held.
    pub fn has_conversation(&self, steamid: u64) -> (r: bool)
        ensures
            r == (spec_conv_index(convs_view(self.conversations@), steamid) is Some),
    {
        find_conversation(&self.conversations, steamid).is_some()
    }

    /// The messages held for a conversation, oldest first; empty when there is none.
    pub fn conversation_messages(&self, steamid: u64) -> (r: Vec<ChatMessage>)
        ensures
            match spec_conv_index(convs_view(self.conversations@), steamid) {
                Some(i) => r@ == convs_view(self.conversations@)[i].1.messages,
                None => r@.len() == 0,
            },
    {
        match find_conversation(&self.conversations, steamid) {
            Some(i) => self.conversations[i].1.messages.clone(),
            None => Vec::new(),
        }
    }

    /// Friends in display order: in game, online, offline; by lowercased name within each
    /// group (stable). The friends view and the open-chat key use the same order.
    pub fn sorted_protocol_friends(&self) -> (r: Vec<&Persona>)
        ensures
            exists|order: Seq<usize>|
                is_stable_order(friend_keys(self.protocol_friends@), order) && covers(
                    friend_keys(self.protocol_friends@),
                    order,
                ) && r@.len() == order.len() && forall|p: int|
                    0 <= p < order.len() ==> *#[trigger] r@[p]
                        == self.protocol_friends@[order[p] as int],
            forall|a: int, b: int|
                0 <= a < b < r@.len() ==> (#[trigger] r@[b].game_app_id is Some ==> #[trigger] r@[a].game_app_id
                    is Some),
            forall|a: int, b: int|
                0 <= a < b < r@.len() && #[trigger] r@[b].game_app_id is None && r@[b].state
                    != PersonaState::Offline && r@[b].state != PersonaState::Invisible ==> #[trigger] r@[a].game_app_id
                    is Some || (r@[a].state != PersonaState::Offline && r@[a].state != PersonaState::Invisible),
    {
        let ghost s = self.protocol_friends@;
        let mut keys: Vec<SortKey> = Vec::new();
        let mut i: usize = 0;
        while i < self.protocol_friends.len()
            invariant
                s == self.protocol_friends@,
                i <= s.len(),
                keys@.len() == i,
                forall|j: int| 0 <= j < i ==> #[trigger] keys@[j]@ == friend_key(s[j]),
            decreases s.len() - i,
        {
            let p = &self.protocol_friends[i];
            let rank: u64 = if p.game_app_id.is_some() {
                0
            } else if p.state != PersonaState::Offline && p.state != PersonaState::Invisible {
                1
            } else {
                2
            };
            let lowered = to_lowercase(p.name.as_str());
            keys.push(SortKey { major: rank, minor: 0, text: chars_of(lowered.as_str()), last: 0 });
            i = i + 1;
        }
        proof {
            assert(keys_view(keys@) =~= friend_keys(s));
        }
        let order = stable_order(&keys);
        let mut out: Vec<&Persona> = Vec::new();
        let mut p: usize = 0;
        while p < order.len()
            invariant
                s == self.protocol_friends@,
                is_stable_order(friend_keys(s), order@),
                covers(friend_keys(s), order@),
                p <= order@.len(),
                out@.len() == p,
                forall|q: int| 0 <= q < p ==> *#[trigger] out@[q] == s[order@[q] as int],
            decreases order@.len() - p,
        {
            let idx = order[p];
            out.push(&self.protocol_friends[idx]);
            p = p + 1;
        }
        proof {
            assert forall|a: int, b: int| 0 <= a < b < out@.len() implies (#[trigger] out@[b].game_app_id
                is Some ==> #[trigger] out@[a].game_app_id is Some) && (out@[b].game_app_id is None
                && out@[b].state != PersonaState::Offline && out@[b].state != PersonaState::Invisible
                ==> out@[a].game_app_id is Some || (out@[a].state != PersonaState::Offline
                && out@[a].state != PersonaState::Invisible)) by {
                lemma_friends_in_game_then_on_then_off(s, order@, a, b);
            }
        }
        out
    }

    /// The name shown for a friend's SteamID, falling back to the number.
    pub fn friend_name(&self, steamid: u64) -> (r: String)
        ensures
            r@ == spec_friend_name(self.protocol_friends@, steamid),
    {
        match find_persona(&self.protocol_friends, steamid) {
            Some(i) => {
                proof {
                    lemma_find_persona(self.protocol_friends@, steamid);
                }
                let name = &self.protocol_friends[i].name;
                if !name.as_str().is_empty() {
                    name.clone()
                } else {
                    decimal_string(steamid)
                }
            },
            None => decimal_string(steamid),
        }
    }

    /// Conversation partners, most recent activity first (stable).
    pub fn conversation_order(&self) -> (r: Vec<u64>)
        ensures
            exists|order: Seq<usize>|
                is_stable_order(conv_keys(convs_view(self.conversations@)), order) && covers(
                    conv_keys(convs_view(self.conversations@)),
                    order,
                ) && r@.len() == order.len() && (forall|p: int|
                    0 <= p < order.len() ==> #[trigger] r@[p] == self.conversations@[order[p] as int].0)
                    && forall|a: int, b: int|
                    0 <= a < b < order.len() ==> (if #[trigger] convs_view(self.conversations@)[order[a] as int].1.messages.len() > 0 {
                        convs_view(self.conversations@)[order[a] as int].1.messages.last().timestamp as int
                    } else {
                        0
                    }) >= (if #[trigger] convs_view(self.conversations@)[order[b] as int].1.messages.len() > 0 {
                        convs_view(self.conversations@)[order[b] as int].1.messages.last().timestamp as int
                    } else {
                        0
                    }),
    {
        let ghost cv = convs_view(self.conversations@);
        let mut keys: Vec<SortKey> = Vec::new();
        let mut i: usize = 0;
        while i < self.conversations.len()
            invariant
                cv == convs_view(self.conversations@),
                i <= cv.len(),
                keys@.len() == i,
                forall|j: int| 0 <= j < i ==> #[trigger] keys@[j]@ == conv_key(cv[j].1),
            decreases cv.len() - i,
        {
            let msgs = &self.conversations[i].1.messages;
            let last: u64 = if msgs.len() > 0 {
                msgs[msgs.len() - 1].timestamp as u64
            } else {
                0
            };
            proof {
                assert(cv[i as int].1.messages == msgs@);
            }
            keys.push(SortKey { major: 4294967295u64 - last, minor: 0, text: Vec::new(), last: 0 });
            i = i + 1;
        }
        proof {
            assert(keys_view(keys@) =~= conv_keys(cv));
        }
        let order = stable_order(&keys);
        let mut out: Vec<u64> = Vec::new();
        let mut p: usize = 0;
        while p < order.len()
            invariant
                cv == convs_view(self.conversations@),
                is_stable_order(conv_keys(cv), order@),
                covers(conv_keys(cv), order@),
                p <= order@.len(),
                out@.len() == p,
                forall|q: int| 0 <= q < p ==> #[trigger] out@[q] == self.conversations@[order@[q] as int].0,
            decreases order@.len() - p,
        {
            let idx = order[p];
            out.push(self.conversations[idx].0);
            p = p + 1;
        }
        proof {
            assert forall|a: int, b: int| 0 <= a < b < order@.len() implies (if #[trigger] cv[order@[a] as int].1.messages.len() > 0 {
                cv[order@[a] as int].1.messages.last().timestamp as int
            } else {
                0
            }) >= (if #[trigger] cv[order@[b] as int].1.messages.len() > 0 {
                cv[order@[b] as int].1.messages.last().timestamp as int
            } else {
                0
            }) by {
                lemma_conversations_newest_first(cv, order@, a, b);
            }
        }
        out
    }

    /// Unread messages over all conversations.
    pub fn total_unread(&self) -> (r: usize)
        requires
            spec_unread_sum(convs_view(self.conversations@)) <= usize::MAX,
        ensures
            r == spec_unread_sum(convs_view(self.conversations@)),
    {
        let ghost cv = convs_view(self.conversations@);
        let mut total: usize = 0;
        let mut i: usize = 0;
        while i < self.conversations.len()
            invariant
                cv == convs_view(self.conversations@),
                i <= cv.len(),
                spec_unread_sum(cv) <= usize::MAX,
                total == spec_unread_sum(cv.take(i as int)),
            decreases cv.len() - i,
        {
            proof {
                assert(cv.take(i + 1).drop_last() =~= cv.take(i as int));
                lemma_unread_sum_prefix(cv, i + 1);
            }
            total = total + self.conversations[i].1.unread;
            i = i + 1;
        }
        proof {
            assert(cv.take(cv.len() as int) =~= cv);
        }
        total
    }

    /// Whether the chat view shows the conversation with `steamid` (which suppresses unread
    /// counts and notifications).
    pub fn is_viewing_conversation(&self, steamid: u64) -> (r: bool)
        requires
            self.wf(),
        ensures
            r == (self.spec_route().id == RouteId::Chat && self.active_conversation == Some(steamid)),
    {
        self.current_route().id == RouteId::Chat && self.active_conversation == Some(steamid)
    }

    /// Makes sure a conversation with `steamid` is held, starting it from `cached` (its
    /// saved history) when it is new, so that saving never drops earlier history. Returns
    /// its position.
    pub fn ensure_conversation(&mut self, steamid: u64, cached: Vec<ChatMessage>) -> (r: usize)
        ensures
            convs_view(final(self).conversations@) == spec_ensure(
                convs_view(old(self).conversations@),
                steamid,
                cached@,
            ),
            spec_conv_index(convs_view(final(self).conversations@), steamid) == Some(r as int),
            r < final(self).conversations@.len(),
            final(self).conversations@[r as int].0 == steamid,
            keys_unique(old(self).conversations@) ==> keys_unique(final(self).conversations@),
            *final(self) == (App { conversations: final(self).conversations, ..*old(self) }),
    {
        match find_conversation(&self.conversations, steamid) {
            Some(i) => {
                proof {
                    assert(convs_view(self.conversations@)[i as int].0 == self.conversations@[i as int].0);
                }
                i
            },
            None => {
                let ghost before = convs_view(self.conversations@);
                let ghost raw = self.conversations@;
                let n = self.conversations.len();
                self.conversations.push(
                    (steamid, Conversation { messages: cached, unread: 0, peer_typing_until: None }),
                );
                proof {
                    let cv = convs_view(self.conversations@);
                    assert(cv =~= spec_ensure(before, steamid, cached@));
                    assert forall|j: int| 0 <= j < n implies cv[j].0 != steamid by {
                        assert(cv[j].0 == self.conversations@[j].0);
                    }
                    assert(is_first_conv(cv, steamid, n as int));
                    let c = choose|k: int| is_first_conv(cv, steamid, k);
                    assert(c == n as int);
                    if keys_unique(raw) {
                        assert forall|a: int, b: int| 0 <= a < b < self.conversations@.len() implies
                            #[trigger] self.conversations@[a].0 != #[trigger] self.conversations@[b].0 by {
                            assert(self.conversations@[a] == raw[a]);
                            if b < n {
                                assert(self.conversations@[b] == raw[b]);
                            }
                        }
                    }
                }
                n
            },
        }
    }

    /// Opens (or refocuses) the conversation with `steamid`: starts it from `cached` when
    /// new, clears its unread count, makes the chat composer the only screen, and asks the
    /// connection for recent history.
    pub fn open_conversation(&mut self, steamid: u64, cached: Vec<ChatMessage>)
        requires
            old(self).wf(),
        ensures
            final(self).wf(),
            ({
                let ensured = spec_ensure(convs_view(old(self).conversations@), steamid, cached@);
                let i = spec_conv_index(ensured, steamid).unwrap();
                convs_view(final(self).conversations@) == ensured.update(
                    i,
                    (steamid, ConvView { unread: 0, ..ensured[i].1 }),
                )
            }),
            final(self).navigation_stack@ == seq![Route { id: RouteId::Chat, active_block: ActiveBlock::ChatComposer }],
            final(self).outbox@ == if old(self).friend_cmd_connected {
                old(self).outbox@.push(Effect::Friend(RunCommand::GetRecentMessages { steamid }))
            } else {
                old(self).outbox@
            },
            *final(self) == (App {
                active_conversation: Some(steamid),
                chat_scroll_back: 0,
                conversations: final(self).conversations,
                navigation_stack: final(self).navigation_stack,
                outbox: final(self).outbox,
                ..*old(self)
            }),
    {
        self.active_conversation = Some(steamid);
        self.chat_scroll_back = 0;
        let ghost ensured = spec_ensure(convs_view(self.conversations@), steamid, cached@);
        let i = self.ensure_conversation(steamid, cached);
        let ghost mid = self.conversations@;
        let (id, mut convo) = self.conversations.remove(i);
        convo.unread = 0;
        self.conversations.insert(i, (id, convo));
        proof {
            lemma_keys_kept(mid, self.conversations@, i as int);
            assert(convs_view(self.conversations@) =~= ensured.update(
                i as int,
                (steamid, ConvView { unread: 0, ..ensured[i as int].1 }),
            ));
        }
        let mut stack: Vec<Route> = Vec::new();
        stack.push(Route { id: RouteId::Chat, active_block: ActiveBlock::ChatComposer });
        self.navigation_stack = stack;
        if self.friend_cmd_connected {
            self.outbox.push(Effect::Friend(RunCommand::GetRecentMessages { steamid }));
        }
    }

    /// Sends the composer's trimmed text to the open conversation. The message shows up once
    /// Steam confirms it, with its authoritative timestamp and ordinal.
    pub fn send_chat_message(&mut self)
        ensures
            chat_sent(*old(self), *final(self)),
    {
        let chars = chars_of(self.chat_input.as_str());
        let trimmed = trim_chars(chars.as_slice());
        if trimmed.len() == 0 {
            return;
        }
        let steamid = match self.active_conversation {
            Some(id) => id,
            None => return,
        };
        if self.friend_cmd_connected {
            let text = string_from_chars(trimmed.as_slice());
            let ghost before = self.outbox@;
            self.outbox.push(Effect::Friend(RunCommand::SendMessage { steamid, message: text }));
            proof {
                assert(self.outbox@.drop_last() =~= before);
            }
        }
        self.chat_input = String::new();
        self.chat_scroll_back = 0;
    }

    /// Sends a typing ping for the open conversation at time `now_ms`, at most one per
    /// throttle interval.
    pub fn notify_typing(&mut self, now_ms: u64)
        ensures
            typing_pinged(*old(self), now_ms, *final(self)),
    {
        let steamid = match self.active_conversation {
            Some(id) => id,
            None => return,
        };
        let due = match self.last_typing_sent {
            None => true,
            Some(t) => {
                let elapsed = if now_ms >= t {
                    now_ms - t
                } else {
                    0
                };
                elapsed >= TYPING_THROTTLE_MS
            },
        };
        if !due {
            return;
        }
        if self.friend_cmd_connected {
            self.outbox.push(Effect::Friend(RunCommand::SendTyping { steamid }));
        }
        self.last_typing_sent = Some(now_ms);
    }
}

/// What sending the composer's text does: nothing without text or an open conversation;
/// otherwise the trimmed text goes to the friend (when connected) and the composer empties.
pub open spec fn chat_sent(old: App, new: App) -> bool {
    if spec_trim(old.chat_input@).len() == 0 || old.active_conversation is None {
        new == old
    } else {
        &&& new.chat_input@.len() == 0
        &&& if old.friend_cmd_connected {
            &&& new.outbox@.len() == old.outbox@.len() + 1
            &&& new.outbox@.drop_last() == old.outbox@
            &&& new.outbox@.last() matches Effect::Friend(RunCommand::SendMessage { steamid, message })
                && steamid == old.active_conversation.unwrap() && message@ == spec_trim(
                old.chat_input@,
            )
        } else {
            new.outbox@ == old.outbox@
        }
        &&& new == App {
            chat_input: new.chat_input,
            chat_scroll_back: 0,
            outbox: new.outbox,
            ..old
        }
    }
}

/// What a keystroke in the composer pings: a typing notice for the open conversation, at
/// most one per throttle interval.
pub open spec fn typing_pinged(old: App, now_ms: u64, new: App) -> bool {
    let due = match old.last_typing_sent {
        None => true,
        Some(t) => spec_elapsed(t, now_ms) >= TYPING_THROTTLE_MS,
    };
    if old.active_conversation is None || !due {
        new == old
    } else {
        &&& new.outbox@ == if old.friend_cmd_connected {
            old.outbox@.push(
                Effect::Friend(RunCommand::SendTyping { steamid: old.active_conversation.unwrap() }),
            )
        } else {
            old.outbox@
        }
        &&& new == App { outbox: new.outbox, last_typing_sent: Some(now_ms), ..old }
    }
}

/// An unread count one higher, stopping at the largest count.
pub open spec fn bumped(n: usize) -> usize {
    if n < usize::MAX {
        (n + 1) as usize
    } else {
        n
    }
}

impl App {
    /// Takes in one message of the conversation with `msg.steamid`, started from `cached`
    /// when new. A message not held yet (by `(timestamp, ordinal)`) is merged in and the
    /// conversation is queued for saving; when it came from the friend and the chat view is
    /// not showing that conversation, its unread count goes up and, with notifications on,
    /// the user is alerted.
    pub fn record_message(&mut self, msg: ChatMessage, cached: Vec<ChatMessage>, incoming: bool)
        requires
            old(self).wf(),
        ensures
            final(self).wf(),
            ({
                let steamid = msg.steamid;
                let viewing = old(self).spec_route().id == RouteId::Chat
                    && old(self).active_conversation == Some(steamid);
                let ensured = spec_ensure(convs_view(old(self).conversations@), steamid, cached@);
                let i = spec_conv_index(ensured, steamid).unwrap();
                let (merged, added) = spec_merge(ensured[i].1.messages, seq![msg]);
                let alert = added && incoming && !viewing;
                &&& convs_view(final(self).conversations@) == ensured.update(
                    i,
                    (
                        steamid,
                        ConvView {
                            messages: merged,
                            unread: if alert {
                                bumped(ensured[i].1.unread)
                            } else {
                                ensured[i].1.unread
                            },
                            ..ensured[i].1
                        },
                    ),
                )
                &&& final(self).outbox@ == if !added {
                    old(self).outbox@
                } else if alert && old(self).config.chat.notifications_enabled {
                    old(self).outbox@.push(Effect::SaveConversation(steamid)).push(
                        Effect::Notify {
                            steamid,
                            desktop: old(self).config.chat.desktop_notifications,
                        },
                    )
                } else {
                    old(self).outbox@.push(Effect::SaveConversation(steamid))
                }
            }),
            *final(self) == (App {
                conversations: final(self).conversations,
                outbox: final(self).outbox,
                ..*old(self)
            }),
    {
        let steamid = msg.steamid;
        let viewing = self.is_viewing_conversation(steamid);
        let ghost ensured = spec_ensure(convs_view(self.conversations@), steamid, cached@);
        let i = self.ensure_conversation(steamid, cached);
        let ghost mid = self.conversations@;
        let (id, mut convo) = self.conversations.remove(i);
        let mut batch: Vec<ChatMessage> = Vec::new();
        batch.push(msg);
        proof {
            assert(batch@ =~= seq![msg]);
        }
        let added = merge(&mut convo.messages, batch);
        let alert = added && incoming && !viewing;
        if alert && convo.unread < usize::MAX {
            convo.unread = convo.unread + 1;
        }
        self.conversations.insert(i, (id, convo));
        proof {
            lemma_keys_kept(mid, self.conversations@, i as int);
            let (merged, a) = spec_merge(ensured[i as int].1.messages, seq![msg]);
            assert(convs_view(self.conversations@) =~= ensured.update(
                i as int,
                (
                    steamid,
                    ConvView {
                        messages: merged,
                        unread: if alert {
                            bumped(ensured[i as int].1.unread)
                        } else {
                            ensured[i as int].1.unread
                        },
                        ..ensured[i as int].1
                    },
                ),
            ));
        }
        if added {
            self.outbox.push(Effect::SaveConversation(steamid));
            if alert && self.config.chat.notifications_enabled {
                self.outbox.push(
                    Effect::Notify { steamid, desktop: self.config.chat.desktop_notifications },
                );
            }
        }
    }

    /// Takes in fetched history of the conversation with `steamid`, started from `cached`
    /// when new; the conversation is queued for saving when anything was new.
    pub fn record_history(&mut self, steamid: u64, messages: Vec<ChatMessage>, cached: Vec<ChatMessage>)
        ensures
            ({
                let ensured = spec_ensure(convs_view(old(self).conversations@), steamid, cached@);
                let i = spec_conv_index(ensured, steamid).unwrap();
                let (merged, added) = spec_merge(ensured[i].1.messages, messages@);
                &&& convs_view(final(self).conversations@) == ensured.update(
                    i,
                    (steamid, ConvView { messages: merged, ..ensured[i].1 }),
                )
                &&& final(self).outbox@ == if added {
                    old(self).outbox@.push(Effect::SaveConversation(steamid))
                } else {
                    old(self).outbox@
                }
            }),
            *final(self) == (App {
                conversations: final(self).conversations,
                outbox: final(self).outbox,
                ..*old(self)
            }),
    {
        let ghost ensured = spec_ensure(convs_view(self.conversations@), steamid, cached@);
        let i = self.ensure_conversation(steamid, cached);
        let ghost mid = self.conversations@;
        let (id, mut convo) = self.conversations.remove(i);
        let added = merge(&mut convo.messages, messages);
        self.conversations.insert(i, (id, convo));
        proof {
            lemma_keys_kept(mid, self.conversations@, i as int);
            let (merged, a) = spec_merge(ensured[i as int].1.messages, messages@);
            assert(convs_view(self.conversations@) =~= ensured.update(
                i as int,
                (steamid, ConvView { messages: merged, ..ensured[i as int].1 }),
            ));
        }
        if added {
            self.outbox.push(Effect::SaveConversation(steamid));
        }
    }
}

/// Putting an element back at its position with the same key keeps the keys distinct.
proof fn lemma_keys_kept(before: Seq<(u64, Conversation)>, after: Seq<(u64, Conversation)>, i: int)
    requires
        0 <= i < before.len(),
        after.len() == before.len(),
        after[i].0 == before[i].0,
        forall|j: int| 0 <= j < before.len() && j != i ==> after[j] == before[j],
    ensures
        keys_unique(before) ==> keys_unique(after),
{
    if keys_unique(before) {
        assert forall|a: int, b: int| 0 <= a < b < after.len() implies #[trigger] after[a].0
            != #[trigger] after[b].0 by {
            assert(before[a].0 != before[b].0);
        }
    }
}

/// The unread count of the first conversations never exceeds that of all of them.
pub proof fn lemma_unread_sum_prefix(s: Seq<(u64, ConvView)>, k: int)
    requires
        0 <= k <= s.len(),
    ensures
        spec_unread_sum(s.take(k)) <= spec_unread_sum(s),
    decreases s.len(),
{
    if k < s.len() {
        lemma_unread_sum_prefix(s.drop_last(), k);
        assert(s.drop_last().take(k) =~= s.take(k));
    } else {
        assert(s.take(k) =~= s);
    }
}

} // verus!
