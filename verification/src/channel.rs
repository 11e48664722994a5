//! Channels, messages and senders, as they are named across chat platforms.
use crate::text;
use crate::text::copy_text;
use std::hash::{Hash, Hasher};
use vstd::prelude::*;

verus! {

/// `str::hash` feeds the text to the hasher. Nothing is claimed of the hasher's state.
#[verifier::external_body]
pub fn feed_text<H: Hasher>(part: &str, state: &mut H) {
    part.hash(state)
}

/// `Option::hash` feeds the optional text to the hasher. Nothing is claimed of the hasher's
/// state.
#[verifier::external_body]
pub fn feed_optional<H: Hasher>(part: Option<&str>, state: &mut H) {
    part.hash(state)
}

/// Identifies a channel or thread across platforms.
///
/// Used for **routing**: `channel_id` is the ID the adapter sends messages to.
/// For Discord threads, this is the thread's own channel ID (Discord API
/// requires it for `say`/`edit`). Use `parent_id` to find the parent channel.
///
/// Compare with `SenderContext`, which is **metadata for the agent**: there
/// `channel_id` is the parent channel and `thread_id` is the thread,
/// matching Slack's model for cross-platform consistency.
#[derive(Debug)]
pub struct ChannelRef {
    pub platform: String,
    pub channel_id: String,
    /// Thread within a channel (e.g. Slack thread_ts, Telegram topic_id).
    /// For Discord, threads are separate channels so this is None.
    pub thread_id: Option<String>,
    /// Parent channel if this is a thread-as-channel (Discord).
    pub parent_id: Option<String>,
    /// The gateway event this reference came from, handed back with replies so that the
    /// gateway can match them to the event. Two references to one channel are equal, and
    /// hash alike, whatever event they came from.
    pub origin_event_id: Option<String>,
}

/// What makes two channel references the same channel.
pub struct ChannelKey {
    pub platform: Seq<char>,
    pub channel_id: Seq<char>,
    pub thread_id: Option<Seq<char>>,
    pub parent_id: Option<Seq<char>>,
}

impl ChannelRef {
    pub open spec fn key(self) -> ChannelKey {
        ChannelKey {
            platform: self.platform@,
            channel_id: self.channel_id@,
            thread_id: text::optional_text(self.thread_id),
            parent_id: text::optional_text(self.parent_id),
        }
    }

    /// Whether two references name the same channel; `==` decides this.
    pub open spec fn same_channel(self, other: ChannelRef) -> bool {
        self.key() == other.key()
    }
}

fn same_optional(a: &Option<String>, b: &Option<String>) -> (r: bool)
    ensures
        r == (text::optional_text(*a) == text::optional_text(*b)),
{
    match (a, b) {
        (Some(x), Some(y)) => *x == *y,
        (None, None) => true,
        _ => false,
    }
}

impl PartialEq for ChannelRef {
    fn eq(&self, other: &Self) -> (r: bool) {
        let a = self.identity();
        let b = other.identity();
        *a.0 == *b.0 && *a.1 == *b.1 && same_optional(a.2, b.2) && same_optional(a.3, b.3)
    }
}

impl vstd::std_specs::cmp::PartialEqSpecImpl for ChannelRef {
    open spec fn obeys_eq_spec() -> bool {
        true
    }

    open spec fn eq_spec(&self, other: &Self) -> bool {
        self.same_channel(*other)
    }
}

impl Eq for ChannelRef {

}

impl ChannelRef {
    /// The parts of a reference that count: `==` compares them, and `hash` feeds them to
    /// the hasher in this order.
    pub fn identity(&self) -> (r: (&String, &String, &Option<String>, &Option<String>))
        ensures
            self.key() == (ChannelKey {
                platform: r.0@,
                channel_id: r.1@,
                thread_id: text::optional_text(*r.2),
                parent_id: text::optional_text(*r.3),
            }),
    {
        (&self.platform, &self.channel_id, &self.thread_id, &self.parent_id)
    }
}

/// What an optional string slice holds.
pub open spec fn optional_str(s: Option<&str>) -> Option<Seq<char>> {
    match s {
        Some(s) => Some(s@),
        None => None,
    }
}

fn as_optional_str(s: &Option<String>) -> (r: Option<&str>)
    ensures
        optional_str(r) == text::optional_text(*s),
{
    match s {
        Some(s) => Some(s.as_str()),
        None => None,
    }
}

impl ChannelRef {
    /// Feeds a hasher the parts that count: the platform, the channel, the thread and the
    /// parent, in this order, and nothing else.
    pub fn feed_identity<H: Hasher>(&self, state: &mut H)
        ensures
            exists|
                p: &str,
                q: &str,
                t: Option<&str>,
                u: Option<&str>,
                a: &mut H,
                b: &mut H,
                c: &mut H,
                d: &mut H,
            |
                self.key() == (ChannelKey {
                    platform: p@,
                    channel_id: q@,
                    thread_id: optional_str(t),
                    parent_id: optional_str(u),
                }) && *a == *old(state) && *final(a) == *b && *final(b) == *c && *final(c) == *d
                    && *final(d) == *final(state) && #[trigger] call_ensures(
                    feed_text::<H>,
                    (p, a),
                    (),
                ) && #[trigger] call_ensures(feed_text::<H>, (q, b), ())
                    && #[trigger] call_ensures(feed_optional::<H>, (t, c), ())
                    && #[trigger] call_ensures(feed_optional::<H>, (u, d), ()),
    {
        let (platform, channel_id, thread_id, parent_id) = self.identity();
        feed_text(platform.as_str(), state);
        feed_text(channel_id.as_str(), state);
        feed_optional(as_optional_str(thread_id), state);
        feed_optional(as_optional_str(parent_id), state);
    }
}

impl Hash for ChannelRef {
    /// The hasher is fed the parts that count, once, and nothing else.
    fn hash<H: Hasher>(&self, state: &mut H)
        ensures
            exists|fed: &mut H|
                *fed == *old(state) && *final(fed) == *final(state) && #[trigger] call_ensures(
                    ChannelRef::feed_identity::<H>,
                    (self, fed),
                    (),
                ),
    {
        self.feed_identity(state)
    }
}

impl Clone for ChannelRef {
    fn clone(&self) -> (r: Self)
        ensures
            r == *self,
    {
        ChannelRef {
            platform: self.platform.clone(),
            channel_id: self.channel_id.clone(),
            thread_id: self.thread_id.clone(),
            parent_id: self.parent_id.clone(),
            origin_event_id: self.origin_event_id.clone(),
        }
    }
}

/// Identifies a message across platforms.
#[derive(Debug)]
pub struct MessageRef {
    pub channel: ChannelRef,
    pub message_id: String,
}

impl Clone for MessageRef {
    fn clone(&self) -> (r: Self)
        ensures
            r == *self,
    {
        MessageRef { channel: self.channel.clone(), message_id: self.message_id.clone() }
    }
}

/// Sender identity injected into prompts for downstream agent context.
///
/// This is **metadata for the agent**: `channel_id` always refers to the
/// logical parent channel, and `thread_id` identifies the thread (if any).
/// This convention is consistent across platforms (Slack, Discord, Telegram).
///
/// Compare with `ChannelRef`, which is used for **routing**: there
/// `channel_id` is the ID the adapter sends messages to (for Discord
/// threads, that's the thread's own channel ID, not the parent).
#[derive(Debug)]
pub struct SenderContext {
    pub schema: String,
    pub sender_id: String,
    pub sender_name: String,
    pub display_name: String,
    pub channel: String,
    pub channel_id: String,
    /// Thread identifier, if the message is inside a thread.
    /// Slack: thread_ts. Discord: thread channel ID (channel_id holds the parent).
    pub thread_id: Option<String>,
    pub is_bot: bool,
}

impl Clone for SenderContext {
    fn clone(&self) -> (r: Self)
        ensures
            r == *self,
    {
        SenderContext {
            schema: self.schema.clone(),
            sender_id: self.sender_id.clone(),
            sender_name: self.sender_name.clone(),
            display_name: self.display_name.clone(),
            channel: self.channel.clone(),
            channel_id: self.channel_id.clone(),
            thread_id: self.thread_id.clone(),
            is_bot: self.is_bot,
        }
    }
}

impl ChannelRef {
    /// The thread, or the channel where there is none.
    pub open spec fn session_id(self) -> Seq<char> {
        match self.thread_id {
            Some(thread) => thread@,
            None => self.channel_id@,
        }
    }
}

/// The key of the session that serves a channel: the platform, a colon, and the thread
/// (or the channel where there is no thread).
pub open spec fn session_key(platform: Seq<char>, session_id: Seq<char>) -> Seq<char> {
    platform + seq![':'] + session_id
}

/// The key under which the session of a channel is kept.
pub fn thread_key(platform: &str, channel: &ChannelRef) -> (r: String)
    ensures
        r@ == session_key(platform@, channel.session_id()),
{
    let mut out: String = copy_text(platform);
    out.push(':');
    match &channel.thread_id {
        Some(thread) => out.append(thread.as_str()),
        None => out.append(channel.channel_id.as_str()),
    }
    assert(out@ =~= session_key(platform@, channel.session_id()));
    out
}

/// The event a reference came from plays no part in equality.
pub proof fn origin_event_is_no_part_of_equality(a: ChannelRef, origin: Option<String>)
    ensures
        a.same_channel(ChannelRef { origin_event_id: origin, ..a }),
{
}

/// Equality of channel references is reflexive, symmetric and transitive.
pub proof fn channel_equality_is_an_equivalence(a: ChannelRef, b: ChannelRef, c: ChannelRef)
    ensures
        a.same_channel(a),
        a.same_channel(b) ==> b.same_channel(a),
        a.same_channel(b) && b.same_channel(c) ==> a.same_channel(c),
{
}

/// Equal references hash alike: from one state of a hasher, `hash` comes to one state for
/// both, where a feed of one text comes from one state to one state.
pub proof fn equal_channels_hash_alike<H: Hasher>(
    a: ChannelRef,
    b: ChannelRef,
    before: H,
    after_a: H,
    after_b: H,
)
    requires
        a.same_channel(b),
        forall|s: &str, t: &str, x: &mut H, y: &mut H|
            s@ == t@ && *x == *y && #[trigger] call_ensures(feed_text::<H>, (s, x), ())
                && #[trigger] call_ensures(feed_text::<H>, (t, y), ()) ==> *final(x) == *final(y),
        forall|s: Option<&str>, t: Option<&str>, x: &mut H, y: &mut H|
            optional_str(s) == optional_str(t) && *x == *y && #[trigger] call_ensures(
                feed_optional::<H>,
                (s, x),
                (),
            ) && #[trigger] call_ensures(feed_optional::<H>, (t, y), ()) ==> *final(x) == *final(y),
        exists|fed: &mut H|
            *fed == before && *final(fed) == after_a && #[trigger] call_ensures(
                ChannelRef::feed_identity::<H>,
                (&a, fed),
                (),
            ),
        exists|fed: &mut H|
            *fed == before && *final(fed) == after_b && #[trigger] call_ensures(
                ChannelRef::feed_identity::<H>,
                (&b, fed),
                (),
            ),
    ensures
        after_a == after_b,
{
}

/// Equal references share one session key on each platform.
pub proof fn equal_channels_share_a_session(a: ChannelRef, b: ChannelRef, platform: Seq<char>)
    requires
        a.same_channel(b),
    ensures
        session_key(platform, a.session_id()) == session_key(platform, b.session_id()),
{
}

/// References are equal exactly if they agree on the platform, the channel, the thread and the
/// parent.
pub proof fn channels_are_equal_by_what_counts(a: ChannelRef, b: ChannelRef)
    ensures
        a.same_channel(b) <==> {
            &&& a.platform@ == b.platform@
            &&& a.channel_id@ == b.channel_id@
            &&& a.thread_id is Some == b.thread_id is Some
            &&& a.thread_id is Some ==> a.thread_id->0@ == b.thread_id->0@
            &&& a.parent_id is Some == b.parent_id is Some
            &&& a.parent_id is Some ==> a.parent_id->0@ == b.parent_id->0@
        },
        a.key().platform == a.platform@,
        a.key().channel_id == a.channel_id@,
        a.key().thread_id is Some <==> a.thread_id is Some,
        a.thread_id is Some ==> a.key().thread_id->0 == a.thread_id->0@,
        a.key().parent_id is Some <==> a.parent_id is Some,
        a.parent_id is Some ==> a.key().parent_id->0 == a.parent_id->0@,
{
}

/// A session goes by its thread, or by its channel where there is no thread: the key starts
/// with the platform and ends with that, and one colon stands between.
pub proof fn session_keys_name_platform_and_thread(platform: Seq<char>, channel: ChannelRef)
    ensures
        ({
            let key = session_key(platform, channel.session_id());
            let name = match channel.thread_id {
                Some(thread) => thread@,
                None => channel.channel_id@,
            };
            &&& platform.is_prefix_of(key)
            &&& name.is_suffix_of(key)
            &&& key.len() == platform.len() + 1 + name.len()
            &&& key[platform.len() as int] == ':'
        }),
{
    let key = session_key(platform, channel.session_id());
    assert(key.subrange(0, platform.len() as int) =~= platform);
    assert(key.subrange(platform.len() as int + 1, key.len() as int) =~= channel.session_id());
}

/// On one platform, session keys tell the threads apart.
pub proof fn session_keys_tell_threads_apart(platform: Seq<char>, s: Seq<char>, t: Seq<char>)
    requires
        session_key(platform, s) == session_key(platform, t),
    ensures
        s == t,
{
    let k = session_key(platform, s);
    assert(s =~= k.skip(platform.len() as int + 1));
    assert(t =~= k.skip(platform.len() as int + 1));
}

/// Platforms whose names hold no colon never share a session key.
pub proof fn session_keys_keep_platforms_apart(
    p: Seq<char>,
    s: Seq<char>,
    q: Seq<char>,
    t: Seq<char>,
)
    requires
        !p.contains(':'),
        !q.contains(':'),
        session_key(p, s) == session_key(q, t),
    ensures
        p == q,
        s == t,
{
    let k = session_key(p, s);
    assert(k[p.len() as int] == ':');
    assert(k[q.len() as int] == ':');
    if p.len() < q.len() {
        assert(k[p.len() as int] == q[p.len() as int]);
        assert(q.contains(q[p.len() as int]));
    }
    if q.len() < p.len() {
        assert(k[q.len() as int] == p[q.len() as int]);
        assert(p.contains(p[q.len() as int]));
    }
    assert(p =~= k.take(p.len() as int));
    assert(q =~= k.take(q.len() as int));
    session_keys_tell_threads_apart(p, s, t);
}

} // verus!
