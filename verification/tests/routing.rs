use chat_adapter::adapter::ChatAdapter;
use chat_adapter::channel::ChannelRef;
use chat_adapter::config::{ReactionTiming, ReactionsConfig, ToolDisplay, UploadsConfig};
use chat_adapter::router::{
    build_prompt_blocks, AdapterRouter, ContentBlock, MessageAction, MessageEvent, MessageRun,
    MessageStage,
};
use std::sync::Arc;

struct Discord;

impl ChatAdapter for Discord {
    fn platform(&self) -> &'static str {
        "discord"
    }
    fn message_limit(&self) -> usize {
        2000
    }
    fn use_streaming(&self, other_bot_present: bool) -> bool {
        !other_bot_present
    }
}

const TIMING: ReactionTiming = ReactionTiming { done_hold_ms: 1500, error_hold_ms: 2500 };

fn reactions(remove_after_reply: bool) -> ReactionsConfig<[char; 2]> {
    ReactionsConfig {
        enabled: true,
        tool_display: ToolDisplay::Compact,
        remove_after_reply,
        emojis: ['a', 'b'],
        timing: TIMING,
    }
}

fn router(remove_after_reply: bool) -> AdapterRouter<u8, [char; 2], &'static str> {
    AdapterRouter::new(Arc::new(9), reactions(remove_after_reply), "bullets", UploadsConfig::default())
}

fn text(t: &str) -> ContentBlock<u8> {
    ContentBlock::Text { text: t.into() }
}

fn named(block: &ContentBlock<u8>) -> String {
    match block {
        ContentBlock::Text { text } => text.clone(),
        ContentBlock::Other(n) => format!("image {n}"),
    }
}

fn done(action: MessageAction) -> String {
    match action {
        MessageAction::SetQueued => "queued".into(),
        MessageAction::StreamPrompt => "stream".into(),
        MessageAction::SetDone => "done".into(),
        MessageAction::SetError => "error".into(),
        MessageAction::ClearAfter(ms) => format!("clear {ms}"),
        MessageAction::Notify(text) => format!("notify {text}"),
    }
}

fn hear(run: &mut MessageRun, event: MessageEvent) -> Vec<String> {
    run.hear(event).into_iter().map(done).collect()
}

#[test]
fn routers_keep_what_they_were_made_with() {
    let router = router(true);
    assert_eq!(**router.pool(), 9);
    assert_eq!(*router.table_mode(), "bullets");
    assert_eq!(*router.reactions_config(), reactions(true));
    assert_eq!(router.reactions_config().emojis, ['a', 'b']);
    assert_eq!(router.reactions_config().timing.error_hold_ms, 2500);
    assert!(!router.uploads_config().enabled);
}

#[test]
fn prompts_put_transcripts_first_and_images_last() {
    let extra = vec![
        ContentBlock::Other(1),
        text("transcript 1"),
        ContentBlock::Other(2),
        text("transcript 2"),
    ];
    let blocks = build_prompt_blocks("{\"id\":1}", "hello", extra);
    let names: Vec<String> = blocks.iter().map(named).collect();
    assert_eq!(
        names,
        vec![
            "transcript 1",
            "transcript 2",
            "<sender_context>\n{\"id\":1}\n</sender_context>\n\nhello",
            "image 1",
            "image 2",
        ]
    );
}

#[test]
fn messages_go_to_the_session_of_their_thread() {
    let channel = ChannelRef {
        platform: "discord".into(),
        channel_id: "C1".into(),
        thread_id: Some("T1".into()),
        parent_id: None,
        origin_event_id: None,
    };
    let (prompt, run) = router(true).handle_message(&Discord, &channel, "{}", "hi", vec![text("t")]);
    assert_eq!(prompt.thread_key, "discord:T1");
    assert_eq!(prompt.content_blocks.len(), 2);
    assert_eq!(run.stage(), MessageStage::Opening);
}

#[test]
fn messages_are_handled_with_the_timing_of_the_router() {
    let channel = ChannelRef {
        platform: "discord".into(),
        channel_id: "C1".into(),
        thread_id: None,
        parent_id: None,
        origin_event_id: None,
    };
    let none: Vec<ContentBlock<u8>> = Vec::new();
    let (_, mut run) = router(true).handle_message(&Discord, &channel, "{}", "hi", none);
    hear(&mut run, MessageEvent::SessionOpened(Ok(())));
    assert_eq!(hear(&mut run, MessageEvent::RunEnded(Ok(()))), vec!["done", "clear 1500"]);
}

#[test]
fn runs_are_shown_as_the_adapter_says() {
    let plan = router(true).stream_prompt(&Discord, false);
    assert_eq!(plan.message_limit, 2000);
    assert!(plan.streaming);
    assert_eq!(plan.tool_display, ToolDisplay::Compact);
    assert!(!router(true).stream_prompt(&Discord, true).streaming);
}

#[test]
fn a_session_that_cannot_be_opened_ends_the_handling() {
    let mut run = MessageRun::open(true, TIMING);
    let actions = hear(&mut run, MessageEvent::SessionOpened(Err("pool is full".into())));
    assert_eq!(actions, vec!["notify ⚠️ pool is full"]);
    assert_eq!(run.stage(), MessageStage::Over);
    assert!(hear(&mut run, MessageEvent::RunEnded(Ok(()))).is_empty());
}

#[test]
fn good_runs_end_with_the_done_reaction() {
    let mut run = MessageRun::open(true, TIMING);
    assert_eq!(hear(&mut run, MessageEvent::SessionOpened(Ok(()))), vec!["queued", "stream"]);
    assert_eq!(run.stage(), MessageStage::Running);
    assert_eq!(hear(&mut run, MessageEvent::RunEnded(Ok(()))), vec!["done", "clear 1500"]);
    assert_eq!(run.stage(), MessageStage::Over);
}

#[test]
fn bad_runs_end_with_the_error_reaction_and_a_notice() {
    let mut run = MessageRun::open(true, TIMING);
    hear(&mut run, MessageEvent::SessionOpened(Ok(())));
    assert_eq!(
        hear(&mut run, MessageEvent::RunEnded(Err("broken".into()))),
        vec!["error", "clear 2500", "notify ⚠️ broken"]
    );
}

#[test]
fn reactions_stay_where_they_are_to_stay() {
    let mut run = MessageRun::open(false, TIMING);
    hear(&mut run, MessageEvent::SessionOpened(Ok(())));
    assert_eq!(
        hear(&mut run, MessageEvent::RunEnded(Err("broken".into()))),
        vec!["error", "notify ⚠️ broken"]
    );
    let mut run = MessageRun::open(false, TIMING);
    assert!(hear(&mut run, MessageEvent::RunEnded(Ok(()))).is_empty());
    assert_eq!(run.stage(), MessageStage::Opening);
}
