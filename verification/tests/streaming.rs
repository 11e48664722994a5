use chat_adapter::config::ToolDisplay;
use chat_adapter::stream::{
    answer_chunks, AcpEvent, EditLoop, StreamAction, StreamEvent, StreamPlan, StreamSession,
    EDIT_INTERVAL_MS, NOTIFICATION_TIMEOUT_SECS,
};

fn plan(streaming: bool) -> StreamPlan {
    StreamPlan { message_limit: 2000, streaming, tool_display: ToolDisplay::Full }
}

fn named(action: StreamAction<u32>) -> String {
    match action {
        StreamAction::SetThinking => "thinking".into(),
        StreamAction::SetTool(title) => format!("tool {title}"),
        StreamAction::SendPlaceholder(text) => format!("placeholder {text}"),
        StreamAction::Publish(text) => format!("publish {text}"),
        StreamAction::StoreConfig(n) => format!("config {n}"),
        StreamAction::PromptDone => "prompt done".into(),
        StreamAction::StopEditing => "stop editing".into(),
    }
}

fn hear(session: &mut StreamSession, event: StreamEvent<u32>) -> Vec<String> {
    session.hear(event).into_iter().map(named).collect()
}

fn update(event: AcpEvent<u32>) -> StreamEvent<u32> {
    StreamEvent::Update(Some(event))
}

fn text(t: &str) -> StreamEvent<u32> {
    update(AcpEvent::Text(t.into()))
}

fn start(id: &str, title: &str) -> StreamEvent<u32> {
    update(AcpEvent::ToolStart { id: id.into(), title: title.into() })
}

fn done(id: &str, title: &str, status: &str) -> StreamEvent<u32> {
    update(AcpEvent::ToolDone { id: id.into(), title: title.into(), status: status.into() })
}

fn begin(plan: StreamPlan, reset: bool) -> (StreamSession, Vec<String>) {
    let (session, actions) = StreamSession::begin::<u32>(plan, reset);
    (session, actions.into_iter().map(named).collect())
}

#[test]
fn streaming_runs_start_with_a_placeholder() {
    assert_eq!(begin(plan(true), false).1, vec!["thinking", "placeholder …"]);
    assert_eq!(
        begin(plan(true), true).1,
        vec!["thinking", "placeholder ⚠️ _Session expired, starting fresh..._\n\n…"]
    );
    assert_eq!(begin(plan(false), true).1, vec!["thinking"]);
}

#[test]
fn streaming_runs_publish_what_they_hear() {
    let (mut run, _) = begin(plan(true), false);
    assert_eq!(hear(&mut run, text("Hi ")), vec!["publish Hi"]);
    assert_eq!(hear(&mut run, update(AcpEvent::Thinking)), vec!["thinking"]);
    assert_eq!(
        hear(&mut run, start("1", "ls\n`x`")),
        vec!["tool ls\n`x`", "publish 🔧 `ls ; 'x'`...\n\nHi"]
    );
    assert_eq!(
        hear(&mut run, done("1", "", "completed")),
        vec!["thinking", "publish ✅ `ls ; 'x'`\n\nHi"]
    );
    assert_eq!(
        hear(&mut run, done("2", "", "completed")),
        vec!["thinking", "publish ✅ `ls ; 'x'`\n\nHi"]
    );
    assert_eq!(hear(&mut run, text("there")), vec!["publish ✅ `ls ; 'x'`\n\nHi there"]);
    assert!(hear(&mut run, start("3", "")).is_empty());
    assert!(hear(&mut run, StreamEvent::Update(None)).is_empty());
    assert!(hear(&mut run, update(AcpEvent::Other)).is_empty());
    assert_eq!(hear(&mut run, update(AcpEvent::ConfigUpdate { options: 7 })), vec!["config 7"]);
    assert_eq!(
        hear(&mut run, StreamEvent::Response { error: None }),
        vec!["prompt done", "stop editing"]
    );
    assert!(!run.listening());
    assert_eq!(run.final_content(), "✅ `ls ; 'x'`\n\nHi there");
}

#[test]
fn send_once_runs_publish_nothing() {
    let (mut run, _) = begin(plan(false), true);
    assert!(hear(&mut run, text("a")).is_empty());
    assert_eq!(hear(&mut run, start("1", "t")), vec!["tool t"]);
    assert_eq!(hear(&mut run, done("1", "", "failed")), vec!["thinking"]);
    hear(&mut run, StreamEvent::Closed);
    assert_eq!(
        run.final_content(),
        "❌ `t`\n\n⚠️ _Session expired, starting fresh..._\n\na"
    );
}

#[test]
fn silence_ends_a_run() {
    let (mut run, _) = begin(plan(true), false);
    assert!(run.listening());
    assert_eq!(
        hear(&mut run, StreamEvent::TimedOut),
        vec!["prompt done", "stop editing"]
    );
    assert_eq!(run.final_content(), "⚠️ Agent stopped responding");
    assert_eq!(NOTIFICATION_TIMEOUT_SECS, 600);
    assert_eq!(EDIT_INTERVAL_MS, 1500);
}

#[test]
fn errors_lead_the_answer() {
    let (mut run, _) = begin(plan(true), false);
    hear(&mut run, text("partial\n"));
    hear(&mut run, StreamEvent::Response { error: Some("Overloaded (529)".into()) });
    assert_eq!(run.final_content(), "⚠️ Overloaded (529)\n\npartial");
}

#[test]
fn empty_runs_say_so() {
    let (mut run, _) = begin(plan(false), false);
    hear(&mut run, text(" \n"));
    hear(&mut run, StreamEvent::Closed);
    assert_eq!(run.final_content(), "_(no response)_");
    assert_eq!(run.finish().unwrap().0, "_(no response)_");
}

#[test]
fn ended_runs_hear_nothing() {
    let (mut run, _) = begin(plan(true), false);
    hear(&mut run, text("a"));
    hear(&mut run, StreamEvent::Closed);
    assert!(hear(&mut run, text("b")).is_empty());
    assert!(hear(&mut run, StreamEvent::TimedOut).is_empty());
    assert_eq!(run.final_content(), "a");
}

#[test]
fn finished_runs_hand_over_their_uploads() {
    let (mut run, _) = begin(plan(false), false);
    hear(&mut run, text("See:\n```openab-upload\n/tmp/a.png\n"));
    hear(&mut run, text("```\n"));
    hear(&mut run, StreamEvent::Closed);
    let (visible, paths) = run.finish().unwrap();
    assert_eq!(visible, "See:");
    assert_eq!(paths, vec!["/tmp/a.png".to_string()]);
}

#[test]
fn blank_answers_are_not_split() {
    let split = |s: &str, limit: usize| vec![s.to_string(), limit.to_string()];
    assert!(answer_chunks(" \u{2003}\n", 2000, split).is_empty());
    assert_eq!(answer_chunks(" x", 2000, split), vec![" x".to_string(), "2000".to_string()]);
}

#[test]
fn runs_without_their_placeholder_are_given_up() {
    let (mut run, _) = begin(plan(true), false);
    assert!(hear(&mut run, StreamEvent::PlaceholderFailed).is_empty());
    assert!(!run.listening());
    assert!(hear(&mut run, text("late")).is_empty());
    assert!(run.finish().is_none());

    let (mut run, _) = begin(plan(true), false);
    hear(&mut run, StreamEvent::Closed);
    assert!(hear(&mut run, StreamEvent::PlaceholderFailed).is_empty());
    assert!(run.finish().is_some());
}

#[test]
fn empty_displays_need_no_room() {
    let mut edits = EditLoop::new(5);
    assert!(!edits.is_new(&String::new()));
    assert!(edits.is_new(&"a".to_string()));
    assert_eq!(edits.tick(Some(String::new()), tail), None);
    let mut edits = EditLoop::new(2000);
    edits.tick(Some("a".into()), tail);
    assert!(!edits.is_new(&"a".to_string()));
    assert!(edits.is_new(&String::new()));
}

fn tail(s: &str, n: usize) -> String {
    let total = s.chars().count();
    s.chars().skip(total - n).collect()
}

#[test]
fn edits_never_repeat_themselves() {
    let mut edits = EditLoop::new(2000);
    assert_eq!(edits.tick(None, tail), None);
    assert_eq!(edits.tick(Some("".into()), tail), None);
    assert_eq!(edits.tick(Some("a".into()), tail), Some("a".to_string()));
    assert_eq!(edits.tick(Some("a".into()), tail), None);
    assert_eq!(edits.tick(None, tail), None);
    assert_eq!(edits.tick(Some("b".into()), tail), Some("b".to_string()));
    assert_eq!(edits.tick(Some("a".into()), tail), Some("a".to_string()));
}

#[test]
fn long_displays_are_cut_to_their_tail() {
    let mut edits = EditLoop::new(105);
    assert_eq!(edits.tick(Some("12é45".into()), tail), Some("12é45".to_string()));
    assert_eq!(edits.tick(Some("12é456".into()), tail), Some("…2é456".to_string()));
}

#[test]
fn previews_fit_into_a_message() {
    let mut edits = EditLoop::new(150);
    let shown = edits.tick(Some("x".repeat(5000)), tail).unwrap();
    assert_eq!(shown.chars().count(), 51);
    let mut narrow = EditLoop::new(100);
    assert_eq!(narrow.tick(Some("x".into()), tail), Some("…".to_string()));
}

#[test]
fn tools_are_listed_as_they_were_told() {
    let (mut run, _) = begin(plan(false), false);
    hear(&mut run, done("silent", "", "completed"));
    hear(&mut run, start("silent", ""));
    hear(&mut run, start("b", "beta"));
    hear(&mut run, done("a", "al\npha", "completed"));
    hear(&mut run, done("b", "", "failed"));
    hear(&mut run, start("a", "again"));
    hear(&mut run, start("a", ""));
    hear(&mut run, done("c", "gamma", "completed"));
    hear(&mut run, StreamEvent::Closed);
    hear(&mut run, start("late", "late"));
    assert_eq!(run.final_content(), "❌ `beta`\n🔧 `again`...\n✅ `gamma`\n\n");
}
