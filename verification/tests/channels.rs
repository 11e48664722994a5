use chat_adapter::adapter::{
    edit_without_support, send_without_uploads, AdapterError, ChatAdapter, OutgoingAttachment,
};
use chat_adapter::channel::{
    feed_optional, feed_text, thread_key, ChannelRef, MessageRef, SenderContext,
};
use std::collections::HashMap;
use std::hash::{Hash, Hasher};
use std::path::PathBuf;

struct TestAdapter;

impl ChatAdapter for TestAdapter {
    fn platform(&self) -> &'static str {
        "test"
    }
    fn message_limit(&self) -> usize {
        2000
    }
    // There is no default: without this method the impl does not compile.
    fn use_streaming(&self, _other_bot_present: bool) -> bool {
        false
    }
}

#[test]
fn use_streaming_is_required_method() {
    let adapter = TestAdapter;
    assert!(!adapter.use_streaming(false));
}

#[test]
fn origin_event_id_excluded_from_eq() {
    let a = ChannelRef {
        platform: "line".into(),
        channel_id: "U123".into(),
        thread_id: None,
        parent_id: None,
        origin_event_id: Some("evt_aaa".into()),
    };
    let b = ChannelRef {
        platform: "line".into(),
        channel_id: "U123".into(),
        thread_id: None,
        parent_id: None,
        origin_event_id: Some("evt_bbb".into()),
    };
    assert_eq!(a, b, "same channel with different event IDs must be equal");
}

#[test]
fn origin_event_id_excluded_from_hash() {
    let a = ChannelRef {
        platform: "line".into(),
        channel_id: "U123".into(),
        thread_id: None,
        parent_id: None,
        origin_event_id: Some("evt_aaa".into()),
    };
    let b = ChannelRef {
        platform: "line".into(),
        channel_id: "U123".into(),
        thread_id: None,
        parent_id: None,
        origin_event_id: Some("evt_bbb".into()),
    };
    let mut map = HashMap::new();
    map.insert(a, "first");
    // b should hit the same bucket and overwrite
    map.insert(b, "second");
    assert_eq!(map.len(), 1);
    assert_eq!(map.values().next(), Some(&"second"));
}

#[test]
fn origin_event_id_survives_clone() {
    let ch = ChannelRef {
        platform: "line".into(),
        channel_id: "U123".into(),
        thread_id: None,
        parent_id: None,
        origin_event_id: Some("evt_abc".into()),
    };
    // Simulates create_thread propagation: clone preserves origin_event_id
    let thread_ch = ChannelRef {
        thread_id: Some("topic_1".into()),
        origin_event_id: ch.origin_event_id.clone(),
        ..ch.clone()
    };
    assert_eq!(thread_ch.origin_event_id.as_deref(), Some("evt_abc"));
}

fn channel(channel_id: &str, thread_id: Option<&str>, parent_id: Option<&str>) -> ChannelRef {
    ChannelRef {
        platform: "discord".into(),
        channel_id: channel_id.into(),
        thread_id: thread_id.map(|t| t.into()),
        parent_id: parent_id.map(|t| t.into()),
        origin_event_id: None,
    }
}

#[test]
fn each_other_part_of_a_channel_counts_for_equality() {
    let base = channel("C1", Some("T1"), Some("P1"));
    assert_eq!(base, base.clone());
    assert_ne!(base, channel("C2", Some("T1"), Some("P1")));
    assert_ne!(base, channel("C1", Some("T2"), Some("P1")));
    assert_ne!(base, channel("C1", None, Some("P1")));
    assert_ne!(base, channel("C1", Some("T1"), Some("P2")));
    assert_ne!(base, channel("C1", Some("T1"), None));
    let mut slack = base.clone();
    slack.platform = "slack".into();
    assert_ne!(base, slack);
}

#[test]
fn different_channels_are_different_map_keys() {
    let mut map = HashMap::new();
    map.insert(channel("C1", None, None), 1);
    map.insert(channel("C1", Some("T1"), None), 2);
    map.insert(channel("C1", None, Some("T1")), 3);
    assert_eq!(map.len(), 3);
    assert_eq!(map.get(&channel("C1", Some("T1"), None)), Some(&2));
}

#[test]
fn thread_keys_name_the_thread_before_the_channel() {
    assert_eq!(thread_key("slack", &channel("C1", Some("17.5"), None)), "slack:17.5");
    assert_eq!(thread_key("discord", &channel("C1", None, Some("P1"))), "discord:C1");
}

#[test]
fn clones_of_messages_and_senders_keep_everything() {
    let message = MessageRef { channel: channel("C1", None, None), message_id: "m1".into() };
    let copy = message.clone();
    assert_eq!(copy.message_id, "m1");
    assert_eq!(copy.channel, message.channel);
    let sender = SenderContext {
        schema: "s".into(),
        sender_id: "1".into(),
        sender_name: "n".into(),
        display_name: "d".into(),
        channel: "c".into(),
        channel_id: "cid".into(),
        thread_id: Some("t".into()),
        is_bot: true,
    };
    let copy = sender.clone();
    assert_eq!(copy.schema, "s");
    assert_eq!(copy.display_name, "d");
    assert_eq!(copy.thread_id.as_deref(), Some("t"));
    assert!(copy.is_bot);
}

#[test]
fn adapters_without_uploads_refuse_attachments() {
    assert!(send_without_uploads("slack", &[]).is_ok());
    let file = OutgoingAttachment { path: PathBuf::from("/tmp/a.png") };
    let copy = file.clone();
    assert_eq!(copy.path, PathBuf::from("/tmp/a.png"));
    let err = send_without_uploads("slack", &[file, copy]).unwrap_err();
    assert!(matches!(err, AdapterError::UploadsUnsupported { .. }));
    assert_eq!(err.message(), "file uploads are not supported by the slack adapter");
}

#[test]
fn adapters_without_edits_say_so() {
    let err = edit_without_support().unwrap_err();
    assert!(matches!(err, AdapterError::EditUnsupported));
    assert_eq!(err.message(), "edit_message not supported");
}

#[test]
fn session_keys_of_two_platforms_differ() {
    let a = channel("1", None, None);
    let b = channel("2", None, None);
    assert_ne!(thread_key("slack", &a), thread_key("discord", &a));
    assert_ne!(thread_key("slack", &a), thread_key("slack", &b));
    let mut event = a.clone();
    event.origin_event_id = Some("evt".into());
    assert_eq!(thread_key("slack", &a), thread_key("slack", &event));
}

#[test]
fn the_parts_that_count_leave_the_event_out() {
    let mut a = channel("1", Some("t"), None);
    a.origin_event_id = Some("evt".into());
    let (platform, channel_id, thread_id, parent_id) = a.identity();
    assert_eq!(platform, "discord");
    assert_eq!(channel_id, "1");
    assert_eq!(thread_id.as_deref(), Some("t"));
    assert_eq!(parent_id.as_deref(), None);
}

/// Keeps what it is fed.
#[derive(Default)]
struct Recorder(Vec<u8>);

impl Hasher for Recorder {
    fn write(&mut self, bytes: &[u8]) {
        self.0.extend_from_slice(bytes);
    }
    fn finish(&self) -> u64 {
        self.0.len() as u64
    }
}

#[test]
fn hashing_feeds_the_parts_that_count_in_order() {
    let mut a = channel("1", Some("t"), None);
    a.origin_event_id = Some("evt".into());
    let mut fed = Recorder::default();
    a.hash(&mut fed);

    let mut parts = Recorder::default();
    feed_text("discord", &mut parts);
    feed_text("1", &mut parts);
    feed_optional(Some("t"), &mut parts);
    feed_optional(None, &mut parts);
    assert_eq!(fed.0, parts.0);

    let mut std_parts = Recorder::default();
    "discord".hash(&mut std_parts);
    "1".hash(&mut std_parts);
    Some("t").hash(&mut std_parts);
    None::<&str>.hash(&mut std_parts);
    assert_eq!(fed.0, std_parts.0);

    let mut same = Recorder::default();
    channel("1", Some("t"), None).hash(&mut same);
    assert_eq!(fed.0, same.0);
    let mut once = Recorder::default();
    a.feed_identity(&mut once);
    assert_eq!(fed.0, once.0);

    let mut other = Recorder::default();
    channel("1", None, Some("t")).hash(&mut other);
    assert_ne!(fed.0, other.0);
}
