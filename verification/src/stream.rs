//! A run of the agent: what it says and does is taken up event by event, shown while it
//! goes on, and put together into the final answer.
use crate::config::ToolDisplay;
use crate::directives;
use crate::directives::extract_upload_directives;
use crate::text;
use crate::text::{copy_text, cut_both_chars, to_chars, Cut};
use crate::tools;
use crate::tools::{compose_display, end_tool, start_tool, Tool, ToolEntry};
use vstd::prelude::*;

verus! {

/// How long a run waits for the agent's next notification, in seconds.
pub const NOTIFICATION_TIMEOUT_SECS: u64 = 600;

/// How much time passes between two edits of the placeholder, in milliseconds.
pub const EDIT_INTERVAL_MS: u64 = 1500;

/// How far a preview stays below the platform's message limit.
pub const PREVIEW_MARGIN: usize = 100;

/// What a notification of the agent says. `O` is what the agent reports as its options.
pub enum AcpEvent<O> {
    Text(String),
    Thinking,
    ToolStart { id: String, title: String },
    ToolDone { id: String, title: String, status: String },
    ConfigUpdate { options: O },
    /// Anything else.
    Other,
}

/// What a run hears of the agent.
pub enum StreamEvent<O> {
    /// The placeholder could not be sent.
    PlaceholderFailed,
    /// Nothing came within the waiting time.
    TimedOut,
    /// The agent will send nothing more.
    Closed,
    /// The response to the prompt, with its error in words if it is one.
    Response { error: Option<String> },
    /// A notification, as far as it could be classified.
    Update(Option<AcpEvent<O>>),
}

/// What an event holds.
pub enum Heard<O> {
    PlaceholderFailed,
    TimedOut,
    Closed,
    Response { error: Option<Seq<char>> },
    Text(Seq<char>),
    Thinking,
    ToolStart { id: Seq<char>, title: Seq<char> },
    ToolDone { id: Seq<char>, title: Seq<char>, status: Seq<char> },
    ConfigUpdate { options: O },
    Other,
}

impl<O> View for StreamEvent<O> {
    type V = Heard<O>;

    open spec fn view(&self) -> Heard<O> {
        match *self {
            StreamEvent::PlaceholderFailed => Heard::PlaceholderFailed,
            StreamEvent::TimedOut => Heard::TimedOut,
            StreamEvent::Closed => Heard::Closed,
            StreamEvent::Response { error } => Heard::Response {
                error: text::optional_text(error),
            },
            StreamEvent::Update(None) => Heard::Other,
            StreamEvent::Update(Some(AcpEvent::Text(t))) => Heard::Text(t@),
            StreamEvent::Update(Some(AcpEvent::Thinking)) => Heard::Thinking,
            StreamEvent::Update(Some(AcpEvent::ToolStart { id, title })) => Heard::ToolStart {
                id: id@,
                title: title@,
            },
            StreamEvent::Update(Some(AcpEvent::ToolDone { id, title, status })) => Heard::ToolDone {
                id: id@,
                title: title@,
                status: status@,
            },
            StreamEvent::Update(Some(AcpEvent::ConfigUpdate { options })) => Heard::ConfigUpdate {
                options,
            },
            StreamEvent::Update(Some(AcpEvent::Other)) => Heard::Other,
        }
    }
}

/// What a run wants done.
pub enum StreamAction<O> {
    /// Show the reaction for thinking.
    SetThinking,
    /// Show the reaction for a tool with this title.
    SetTool(String),
    /// Send the placeholder message.
    SendPlaceholder(String),
    /// Hand this display to the edits of the placeholder.
    Publish(String),
    /// Keep the options that the agent reports.
    StoreConfig(O),
    /// Tell the agent that the prompt is done with.
    PromptDone,
    /// Stop editing the placeholder.
    StopEditing,
}

/// What an action holds.
pub enum Act<O> {
    SetThinking,
    SetTool(Seq<char>),
    SendPlaceholder(Seq<char>),
    Publish(Seq<char>),
    StoreConfig(O),
    PromptDone,
    StopEditing,
}

impl<O> View for StreamAction<O> {
    type V = Act<O>;

    open spec fn view(&self) -> Act<O> {
        match *self {
            StreamAction::SetThinking => Act::SetThinking,
            StreamAction::SetTool(title) => Act::SetTool(title@),
            StreamAction::SendPlaceholder(t) => Act::SendPlaceholder(t@),
            StreamAction::Publish(t) => Act::Publish(t@),
            StreamAction::StoreConfig(options) => Act::StoreConfig(options),
            StreamAction::PromptDone => Act::PromptDone,
            StreamAction::StopEditing => Act::StopEditing,
        }
    }
}

/// What each action of a list holds.
pub open spec fn acts<O>(list: Seq<StreamAction<O>>) -> Seq<Act<O>> {
    list.map_values(|a: StreamAction<O>| a@)
}

/// How a run shows itself.
#[derive(Clone, Copy, Debug, PartialEq, Eq, Structural)]
pub struct StreamPlan {
    /// The platform's message limit.
    pub message_limit: usize,
    /// Whether a placeholder is edited while the run goes on.
    pub streaming: bool,
    pub tool_display: ToolDisplay,
}

/// What stands at the head of an answer when the session had to start over.
pub open spec fn reset_note() -> Seq<char> {
    "⚠️ _Session expired, starting fresh..._\n\n"@
}

/// What stands at the head of an answer, if anything does.
pub open spec fn head_note(reset: bool) -> Seq<char> {
    if reset {
        reset_note()
    } else {
        Seq::empty()
    }
}

/// A run, as far as it has gone.
pub struct Session {
    pub plan: StreamPlan,
    /// Whether the agent may still send something.
    pub listening: bool,
    /// Whether the run was given up: it comes to no answer.
    pub abandoned: bool,
    /// What the agent has said.
    pub text: Seq<char>,
    /// What the agent has done.
    pub tools: Seq<Tool>,
    /// What went wrong, in words.
    pub error: Option<Seq<char>>,
}

impl Session {
    /// A run whose prompt has just been sent.
    pub open spec fn start(plan: StreamPlan, reset: bool) -> Session {
        Session {
            plan,
            listening: true,
            abandoned: false,
            text: head_note(reset),
            tools: Seq::empty(),
            error: None,
        }
    }

    /// What a run does once its prompt has been sent.
    pub open spec fn opening<O>(plan: StreamPlan, reset: bool) -> Seq<Act<O>> {
        if plan.streaming {
            seq![Act::SetThinking, Act::SendPlaceholder(head_note(reset) + "…"@)]
        } else {
            seq![Act::SetThinking]
        }
    }

    /// What every run keeps.
    pub open spec fn wf(self) -> bool {
        tools::well_listed(self.tools)
    }

    /// The display of the run, while it goes on or at its end.
    pub open spec fn display(self, streaming: bool) -> Seq<char> {
        tools::display_text(self.tools, self.text, streaming, self.plan.tool_display)
    }

    /// The run after an event. One that is over hears nothing.
    pub open spec fn heard<O>(self, event: Heard<O>) -> Session {
        if !self.listening {
            self
        } else {
            match event {
                Heard::PlaceholderFailed => Session { listening: false, abandoned: true, ..self },
                Heard::TimedOut => Session {
                    listening: false,
                    error: Some("Agent stopped responding"@),
                    ..self
                },
                Heard::Closed => Session { listening: false, ..self },
                Heard::Response { error } => Session {
                    listening: false,
                    error: match error {
                        Some(error) => Some(error),
                        None => self.error,
                    },
                    ..self
                },
                Heard::Text(t) => Session { text: self.text + t, ..self },
                Heard::ToolStart { id, title } => if title.len() > 0 {
                    Session { tools: tools::tool_started(self.tools, id, title), ..self }
                } else {
                    self
                },
                Heard::ToolDone { id, title, status } => Session {
                    tools: tools::tool_ended(self.tools, id, title, status),
                    ..self
                },
                Heard::Thinking => self,
                Heard::ConfigUpdate { .. } => self,
                Heard::Other => self,
            }
        }
    }

    /// The display goes to the placeholder's edits, where there is a placeholder.
    pub open spec fn published<O>(self) -> Seq<Act<O>> {
        if self.plan.streaming {
            seq![Act::Publish(self.display(true))]
        } else {
            Seq::empty()
        }
    }

    /// What a run does about an event.
    pub open spec fn reaction<O>(self, event: Heard<O>) -> Seq<Act<O>> {
        if !self.listening {
            Seq::empty()
        } else {
            match event {
                Heard::PlaceholderFailed => Seq::empty(),
                Heard::TimedOut => seq![Act::PromptDone, Act::StopEditing],
                Heard::Closed => seq![Act::PromptDone, Act::StopEditing],
                Heard::Response { .. } => seq![Act::PromptDone, Act::StopEditing],
                Heard::Text(_) => self.heard(event).published(),
                Heard::Thinking => seq![Act::SetThinking],
                Heard::ToolStart { title, .. } => if title.len() > 0 {
                    seq![Act::SetTool(title)] + self.heard(event).published()
                } else {
                    Seq::empty()
                },
                Heard::ToolDone { .. } => seq![Act::SetThinking] + self.heard(event).published(),
                Heard::ConfigUpdate { options } => seq![Act::StoreConfig(options)],
                Heard::Other => Seq::empty(),
            }
        }
    }

    /// The answer: what went wrong, if anything did, and the display, or a note that there
    /// is nothing.
    pub open spec fn final_content(self) -> Seq<char> {
        let content = self.display(false);
        match self.error {
            Some(error) => if content.len() == 0 {
                "⚠️ "@ + error
            } else {
                "⚠️ "@ + error + "\n\n"@ + content
            },
            None => if content.len() == 0 {
                "_(no response)_"@
            } else {
                content
            },
        }
    }
}

/// A run of the agent.
pub struct StreamSession {
    plan: StreamPlan,
    listening: bool,
    abandoned: bool,
    text_buf: String,
    tool_lines: Vec<ToolEntry>,
    response_error: Option<String>,
}

impl View for StreamSession {
    type V = Session;

    closed spec fn view(&self) -> Session {
        Session {
            plan: self.plan,
            listening: self.listening,
            abandoned: self.abandoned,
            text: self.text_buf@,
            tools: tools::tools(self.tool_lines@),
            error: text::optional_text(self.response_error),
        }
    }
}

impl StreamSession {
    /// A run whose prompt has just been sent, and what to do first.
    pub fn begin<O>(plan: StreamPlan, reset: bool) -> (r: (StreamSession, Vec<StreamAction<O>>))
        ensures
            r.0@ == Session::start(plan, reset),
            r.0@.wf(),
            acts(r.1@) == Session::opening::<O>(plan, reset),
    {
        let mut text_buf: String = String::new();
        if reset {
            text_buf.append("⚠️ _Session expired, starting fresh..._\n\n");
        }
        assert(text_buf@ =~= head_note(reset));
        let mut actions: Vec<StreamAction<O>> = Vec::new();
        actions.push(StreamAction::SetThinking);
        if plan.streaming {
            let mut initial: String = text_buf.clone();
            initial.append("…");
            actions.push(StreamAction::SendPlaceholder(initial));
        }
        assert(acts(actions@) =~= Session::opening::<O>(plan, reset));
        let session = StreamSession {
            plan,
            listening: true,
            abandoned: false,
            text_buf,
            tool_lines: Vec::new(),
            response_error: None,
        };
        assert(session@.tools =~= Seq::empty());
        (session, actions)
    }

    /// Whether the agent may still send something.
    pub fn listening(&self) -> (r: bool)
        ensures
            r == self@.listening,
    {
        self.listening
    }

    fn publish<O>(&self, actions: &mut Vec<StreamAction<O>>)
        ensures
            acts(final(actions)@) == acts(old(actions)@) + self@.published::<O>(),
    {
        if self.plan.streaming {
            let shown = compose_display(
                &self.tool_lines,
                self.text_buf.as_str(),
                true,
                self.plan.tool_display,
            );
            actions.push(StreamAction::Publish(shown));
        }
        assert(acts(actions@) =~= acts(old(actions)@) + self@.published::<O>());
    }

    fn stop<O>(&mut self, actions: &mut Vec<StreamAction<O>>)
        ensures
            final(self)@ == (Session { listening: false, ..old(self)@ }),
            acts(final(actions)@) == acts(old(actions)@) + seq![Act::PromptDone, Act::StopEditing],
    {
        self.listening = false;
        actions.push(StreamAction::PromptDone);
        actions.push(StreamAction::StopEditing);
        assert(acts(actions@) =~= acts(old(actions)@) + seq![Act::PromptDone, Act::StopEditing]);
    }

    /// Takes up an event, and says what to do about it.
    pub fn hear<O>(&mut self, event: StreamEvent<O>) -> (r: Vec<StreamAction<O>>)
        ensures
            final(self)@ == old(self)@.heard(event@),
            old(self)@.wf() ==> final(self)@.wf(),
            acts(r@) == old(self)@.reaction(event@),
    {
        let mut actions: Vec<StreamAction<O>> = Vec::new();
        let ghost before = self@;
        assert(acts(actions@) =~= Seq::empty());
        if !self.listening {
            return actions;
        }
        match event {
            StreamEvent::PlaceholderFailed => {
                self.listening = false;
                self.abandoned = true;
            },
            StreamEvent::TimedOut => {
                self.response_error = Some(copy_text("Agent stopped responding"));
                self.stop(&mut actions);
            },
            StreamEvent::Closed => {
                self.stop(&mut actions);
            },
            StreamEvent::Response { error } => {
                if error.is_some() {
                    self.response_error = error;
                }
                self.stop(&mut actions);
            },
            StreamEvent::Update(Some(AcpEvent::Text(t))) => {
                self.text_buf.append(t.as_str());
                self.publish(&mut actions);
            },
            StreamEvent::Update(Some(AcpEvent::Thinking)) => {
                actions.push(StreamAction::SetThinking);
            },
            StreamEvent::Update(Some(AcpEvent::ToolStart { id, title })) => {
                if !title.as_str().is_empty() {
                    proof {
                        if before.wf() {
                            tools::listing_tools_keeps_them_well_listed(
                                before.tools,
                                id@,
                                title@,
                                title@,
                            );
                        }
                    }
                    actions.push(StreamAction::SetTool(title.clone()));
                    assert(acts(actions@) =~= seq![Act::SetTool(title@)]);
                    start_tool(&mut self.tool_lines, id, title.as_str());
                    self.publish(&mut actions);
                }
            },
            StreamEvent::Update(Some(AcpEvent::ToolDone { id, title, status })) => {
                proof {
                    if before.wf() {
                        tools::listing_tools_keeps_them_well_listed(
                            before.tools,
                            id@,
                            title@,
                            status@,
                        );
                    }
                }
                actions.push(StreamAction::SetThinking);
                assert(acts(actions@) =~= seq![Act::SetThinking]);
                end_tool(&mut self.tool_lines, id, title.as_str(), status.as_str());
                self.publish(&mut actions);
            },
            StreamEvent::Update(Some(AcpEvent::ConfigUpdate { options })) => {
                actions.push(StreamAction::StoreConfig(options));
            },
            StreamEvent::Update(Some(AcpEvent::Other)) => {},
            StreamEvent::Update(None) => {},
        }
        assert(acts(actions@) =~= before.reaction(event@));
        actions
    }

    /// The answer with everything it says, upload directives included.
    pub fn final_content(&self) -> (r: String)
        ensures
            r@ == self@.final_content(),
    {
        let content = compose_display(
            &self.tool_lines,
            self.text_buf.as_str(),
            false,
            self.plan.tool_display,
        );
        let empty: bool = content.as_str().is_empty();
        match &self.response_error {
            Some(error) => {
                let mut out: String = copy_text("⚠️ ");
                out.append(error.as_str());
                if !empty {
                    out.append("\n\n");
                    out.append(content.as_str());
                }
                out
            },
            None => if empty {
                copy_text("_(no response)_")
            } else {
                content
            },
        }
    }

    /// Ends a run: what its answer shows, and the files that it wants uploaded; nothing where
    /// it was given up.
    pub fn finish(&self) -> (r: Option<(String, Vec<String>)>)
        ensures
            match r {
                None => self@.abandoned,
                Some((visible, paths)) => {
                    &&& !self@.abandoned
                    &&& visible@ == directives::visible_text(self@.final_content())
                    &&& text::texts(paths@) == directives::upload_paths(self@.final_content())
                },
            },
    {
        if self.abandoned {
            None
        } else {
            Some(extract_upload_directives(self.final_content().as_str()))
        }
    }
}

/// Whether these are the messages that an answer goes out as: none where it holds nothing but
/// white space, else what `split_message` makes of it within the message limit.
pub open spec fn is_split<F: Fn(&str, usize) -> Vec<String>>(
    answer: &str,
    message_limit: usize,
    split_message: F,
    chunks: Vec<String>,
) -> bool {
    if text::trim(answer@).len() == 0 {
        chunks@.len() == 0
    } else {
        call_ensures(split_message, (answer, message_limit), chunks)
    }
}

/// The messages that an answer goes out as.
pub fn answer_chunks<F: Fn(&str, usize) -> Vec<String>>(
    answer: &str,
    message_limit: usize,
    split_message: F,
) -> (r: Vec<String>)
    requires
        text::trim(answer@).len() > 0 ==> call_requires(split_message, (answer, message_limit)),
    ensures
        is_split(answer, message_limit, split_message, r),
{
    if cut_both_chars(&to_chars(answer), Cut::WhiteSpace).len() == 0 {
        Vec::new()
    } else {
        split_message(answer, message_limit)
    }
}

/// How many characters of a display a preview holds at most.
pub open spec fn preview_len(message_limit: nat) -> nat {
    (message_limit - PREVIEW_MARGIN) as nat
}

/// What an edit of the placeholder shows of a display, given the tail of it that is kept
/// where it is too long.
pub open spec fn preview(content: Seq<char>, message_limit: nat, tail: Seq<char>) -> Seq<char> {
    if content.len() > preview_len(message_limit) {
        "…"@ + tail
    } else {
        content
    }
}

/// The edits of a placeholder.
pub struct EditLoop {
    message_limit: usize,
    last: String,
}

impl EditLoop {
    pub closed spec fn limit(self) -> nat {
        self.message_limit as nat
    }

    /// The display that was shown last.
    pub closed spec fn last(self) -> Seq<char> {
        self.last@
    }

    pub fn new(message_limit: usize) -> (r: EditLoop)
        ensures
            r.limit() == message_limit,
            r.last() == Seq::<char>::empty(),
    {
        EditLoop { message_limit, last: String::new() }
    }

    /// Whether a display is another than the one that was shown last.
    pub fn is_new(&self, content: &String) -> (r: bool)
        ensures
            r == (content@ != self.last()),
    {
        *content != self.last
    }

    /// What to show now, given the display if it was published anew. The display that was
    /// shown last is not shown again. One that is too long is cut down by
    /// `truncate_chars_tail`, which is handed the display and how many characters to keep.
    /// To show anything, the message limit has to leave room for the margin.
    pub fn tick<F: Fn(&str, usize) -> String>(
        &mut self,
        changed: Option<String>,
        truncate_chars_tail: F,
    ) -> (r: Option<String>)
        requires
            changed is Some && changed->0@ != old(self).last() ==> old(self).limit()
                >= PREVIEW_MARGIN,
            forall|s: &str, n: usize| #[trigger] call_requires(truncate_chars_tail, (s, n)),
        ensures
            final(self).limit() == old(self).limit(),
            changed is None ==> r is None && final(self).last() == old(self).last(),
            changed is Some ==> final(self).last() == changed->0@,
            changed is Some ==> (r is Some <==> changed->0@ != old(self).last()),
            r is Some && changed->0@.len() <= preview_len(old(self).limit()) ==> r->0@ == preview(
                changed->0@,
                old(self).limit(),
                Seq::empty(),
            ),
            r is Some && changed->0@.len() > preview_len(old(self).limit()) ==> exists|
                s: &str,
                n: usize,
                tail: String,
            |
                s@ == changed->0@ && n == preview_len(old(self).limit())
                    && #[trigger] call_ensures(truncate_chars_tail, (s, n), tail) && r->0@
                    == preview(changed->0@, old(self).limit(), tail@),
    {
        match changed {
            None => None,
            Some(content) => {
                if !self.is_new(&content) {
                    return None;
                }
                let keep: usize = self.message_limit - PREVIEW_MARGIN;
                let shown = if to_chars(content.as_str()).len() > keep {
                    let tail = truncate_chars_tail(content.as_str(), keep);
                    let mut out: String = copy_text("…");
                    out.append(tail.as_str());
                    out
                } else {
                    content.clone()
                };
                self.last = content;
                Some(shown)
            },
        }
    }
}

} // verus!
