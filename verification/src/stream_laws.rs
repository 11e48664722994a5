//! What holds of every run of the agent.
use crate::config::ToolDisplay;
use crate::stream;
use crate::stream::{Act, Heard, Session, StreamPlan};
use crate::text_laws;
use crate::tools;
use crate::tools::{Tool, ToolState};
use vstd::prelude::*;

verus! {

/// A run after it has heard these events in order.
pub open spec fn after<O>(s: Session, events: Seq<Heard<O>>) -> Session
    decreases events.len(),
{
    if events.len() == 0 {
        s
    } else {
        after(s, events.drop_last()).heard(events.last())
    }
}

/// What the agent says in these events, up to the one that ends the run.
pub open spec fn said<O>(s: Session, events: Seq<Heard<O>>) -> Seq<char>
    decreases events.len(),
{
    if events.len() == 0 {
        Seq::empty()
    } else {
        let before = said(s, events.drop_last());
        match events.last() {
            Heard::Text(t) if after(s, events.drop_last()).listening => before + t,
            _ => before,
        }
    }
}

proof fn lemma_heard_keeps_wf<O>(s: Session, event: Heard<O>)
    requires
        s.wf(),
    ensures
        s.heard(event).wf(),
{
    if s.listening {
        match event {
            Heard::ToolStart { id, title } => {
                tools::listing_tools_keeps_them_well_listed(s.tools, id, title, title);
            },
            Heard::ToolDone { id, title, status } => {
                tools::listing_tools_keeps_them_well_listed(s.tools, id, title, status);
            },
            _ => {},
        }
    }
}

/// Whatever a run hears, no two of its tools share an id and every title is one line.
pub proof fn runs_keep_their_tools_well_listed<O>(
    plan: StreamPlan,
    reset: bool,
    events: Seq<Heard<O>>,
)
    ensures
        after(Session::start(plan, reset), events).wf(),
    decreases events.len(),
{
    if events.len() > 0 {
        runs_keep_their_tools_well_listed(plan, reset, events.drop_last());
        lemma_heard_keeps_wf(after(Session::start(plan, reset), events.drop_last()), events.last());
    }
}

/// The text of a run is its head followed by everything that the agent said, in order.
pub proof fn nothing_the_agent_says_is_lost<O>(
    plan: StreamPlan,
    reset: bool,
    events: Seq<Heard<O>>,
)
    ensures
        after(Session::start(plan, reset), events).text == stream::head_note(reset) + said(
            Session::start(plan, reset),
            events,
        ),
    decreases events.len(),
{
    let s = Session::start(plan, reset);
    if events.len() > 0 {
        nothing_the_agent_says_is_lost(plan, reset, events.drop_last());
        assert(after(s, events).text =~= stream::head_note(reset) + said(s, events));
    } else {
        assert(s.text =~= stream::head_note(reset) + said(s, events));
    }
}

/// The events that a run takes up: those up to the one that ends it.
pub open spec fn taken_up<O>(s: Session, events: Seq<Heard<O>>) -> Seq<Heard<O>>
    decreases events.len(),
{
    if events.len() == 0 {
        Seq::empty()
    } else {
        let before = taken_up(s, events.drop_last());
        if after(s, events.drop_last()).listening {
            before.push(events.last())
        } else {
            before
        }
    }
}

/// The tool that an event gives a title to, and the title, if it does.
pub open spec fn naming<O>(event: Heard<O>) -> Option<(Seq<char>, Seq<char>)> {
    match event {
        Heard::ToolStart { id, title } if title.len() > 0 => Some((id, title)),
        Heard::ToolDone { id, title, .. } if title.len() > 0 => Some((id, title)),
        _ => None,
    }
}

/// The tool that an event puts into a state, and the state, if it does.
pub open spec fn turning<O>(event: Heard<O>) -> Option<(Seq<char>, ToolState)> {
    match event {
        Heard::ToolStart { id, title } if title.len() > 0 => Some((id, ToolState::Running)),
        Heard::ToolDone { id, status, .. } => Some((id, tools::end_state(status))),
        _ => None,
    }
}

/// The tools that events give titles to, each once, in the order of the first title.
pub open spec fn named_tools<O>(events: Seq<Heard<O>>) -> Seq<Seq<char>>
    decreases events.len(),
{
    if events.len() == 0 {
        Seq::empty()
    } else {
        let before = named_tools(events.drop_last());
        match naming(events.last()) {
            Some((id, _)) if !before.contains(id) => before.push(id),
            _ => before,
        }
    }
}

/// The last title that events give to a tool.
pub open spec fn last_title<O>(events: Seq<Heard<O>>, tool: Seq<char>) -> Seq<char>
    decreases events.len(),
{
    if events.len() == 0 {
        Seq::empty()
    } else {
        match naming(events.last()) {
            Some((id, title)) if id == tool => title,
            _ => last_title(events.drop_last(), tool),
        }
    }
}

/// The last state that events put a tool into.
pub open spec fn last_state<O>(events: Seq<Heard<O>>, tool: Seq<char>) -> ToolState
    decreases events.len(),
{
    if events.len() == 0 {
        ToolState::Running
    } else {
        match turning(events.last()) {
            Some((id, state)) if id == tool => state,
            _ => last_state(events.drop_last(), tool),
        }
    }
}

/// A tool as events leave it.
pub open spec fn tool_as_told<O>(events: Seq<Heard<O>>, tool: Seq<char>) -> Tool {
    Tool {
        id: tool,
        title: tools::flat_title(last_title(events, tool)),
        state: last_state(events, tool),
    }
}

/// Whatever a run hears, its tools are those that were given a title, in the order of their
/// first titles, each with its last title, on one line, and in its last state.
pub proof fn runs_list_their_tools_as_told<O>(
    plan: StreamPlan,
    reset: bool,
    events: Seq<Heard<O>>,
)
    ensures
        ({
            let s = Session::start(plan, reset);
            let told = taken_up(s, events);
            after(s, events).tools == named_tools(told).map_values(
                |id: Seq<char>| tool_as_told(told, id),
            )
        }),
    decreases events.len(),
{
    let s = Session::start(plan, reset);
    let told = taken_up(s, events);
    let list = after(s, events).tools;
    let shown = named_tools(told).map_values(|id: Seq<char>| tool_as_told(told, id));
    if events.len() == 0 {
        assert(list =~= shown);
    } else {
        let front = events.drop_last();
        runs_list_their_tools_as_told(plan, reset, front);
        runs_keep_their_tools_well_listed(plan, reset, front);
        let before = after(s, front);
        if before.listening {
            lemma_tools_as_told(before, taken_up(s, front), events.last());
            assert(told.drop_last() =~= taken_up(s, front));
        }
    }
}

proof fn lemma_tools_as_told<O>(s: Session, told: Seq<Heard<O>>, event: Heard<O>)
    requires
        s.listening,
        s.wf(),
        s.tools == named_tools(told).map_values(|id: Seq<char>| tool_as_told(told, id)),
    ensures
        s.heard(event).tools == named_tools(told.push(event)).map_values(
            |id: Seq<char>| tool_as_told(told.push(event), id),
        ),
{
    let ids = named_tools(told);
    let next = told.push(event);
    assert(next.drop_last() =~= told);
    assert(next.last() == event);
    assert(forall|i: int| 0 <= i < ids.len() ==> (#[trigger] s.tools[i]).id == ids[i]);
    match event {
        Heard::ToolStart { id, .. } | Heard::ToolDone { id, .. } => {
            tools::lemma_position_found(s.tools, id);
            let at = tools::position(s.tools, id) as int;
            if at < ids.len() {
                assert(ids[at] == id);
            } else {
                assert forall|i: int| 0 <= i < ids.len() implies ids[i] != id by {
                    assert(s.tools[i].id != id);
                }
            }
        },
        _ => {},
    }
    assert(s.heard(event).tools =~= named_tools(next).map_values(
        |id: Seq<char>| tool_as_told(next, id),
    ));
}

/// What a run shows of its tools while it goes on stays within a few lines, whatever it
/// hears.
pub proof fn running_displays_stay_short<O>(
    plan: StreamPlan,
    reset: bool,
    events: Seq<Heard<O>>,
)
    ensures
        tools::newlines(
            tools::tool_header(
                after(Session::start(plan, reset), events).tools,
                true,
                ToolDisplay::Full,
            ),
        ) <= 2 * tools::TOOL_COLLAPSE_THRESHOLD + 1,
{
    runs_keep_their_tools_well_listed(plan, reset, events);
    tools::streaming_displays_stay_short(after(Session::start(plan, reset), events).tools);
}

/// An answer is never empty, and one with an error leads with it.
pub proof fn answers_are_never_empty(s: Session)
    ensures
        s.final_content().len() > 0,
        s.error is Some ==> ("⚠️ "@ + s.error->0).is_prefix_of(s.final_content()),
{
    reveal_strlit("⚠️ ");
    reveal_strlit("_(no response)_");
    if s.error is Some {
        let lead = "⚠️ "@ + s.error->0;
        assert(lead =~= s.final_content().subrange(0, lead.len() as int));
    }
}

/// Without an error, an answer shows what the run displays at its end, if that is anything.
pub proof fn answers_show_the_whole_run(s: Session)
    requires
        s.display(false).len() > 0,
    ensures
        s.display(false).is_suffix_of(s.final_content()),
        s.error is None ==> s.final_content() == s.display(false),
{
    let d = s.display(false);
    let f = s.final_content();
    assert(d =~= f.subrange(f.len() - d.len(), f.len() as int));
}

/// Whether an action touches a placeholder message.
pub open spec fn shows_progress<O>(act: Act<O>) -> bool {
    act is SendPlaceholder || act is Publish
}

/// A run that sends its answer once shows nothing before.
pub proof fn send_once_runs_show_no_progress<O>(
    s: Session,
    event: Heard<O>,
    reset: bool,
    i: int,
)
    requires
        !s.plan.streaming,
    ensures
        0 <= i < s.reaction(event).len() ==> !shows_progress(s.reaction(event)[i]),
        0 <= i < Session::opening::<O>(s.plan, reset).len() ==> !shows_progress(
            Session::opening::<O>(s.plan, reset)[i],
        ),
{
}

/// A run tells the agent that it is done exactly when it ends without being given up, and
/// one that has ended hears and does nothing more.
pub proof fn runs_end_once<O>(s: Session, event: Heard<O>)
    ensures
        s.reaction(event).contains(Act::PromptDone) <==> s.listening && !s.heard(event).listening
            && event !is PlaceholderFailed,
        !s.listening ==> s.heard(event) == s && s.reaction(event).len() == 0,
{
    let acts = s.reaction(event);
    if s.listening && !s.heard(event).listening && event !is PlaceholderFailed {
        assert(acts[0] == Act::<O>::PromptDone);
    }
}

/// A run is given up exactly when its placeholder fails before it has ended.
pub proof fn runs_are_given_up_for_their_placeholder<O>(
    plan: StreamPlan,
    reset: bool,
    events: Seq<Heard<O>>,
)
    ensures
        after(Session::start(plan, reset), events).abandoned <==> taken_up(
            Session::start(plan, reset),
            events,
        ).contains(Heard::PlaceholderFailed),
        after(Session::start(plan, reset), events).abandoned ==> !after(
            Session::start(plan, reset),
            events,
        ).listening,
    decreases events.len(),
{
    let s = Session::start(plan, reset);
    if events.len() > 0 {
        let front = events.drop_last();
        runs_are_given_up_for_their_placeholder(plan, reset, front);
        if after(s, front).listening {
            let before = taken_up(s, front);
            let told = before.push(events.last());
            assert(told[before.len() as int] == events.last());
            assert(forall|i: int| 0 <= i < before.len() ==> told[i] == before[i]);
        }
    }
}

/// A preview fits into a message, where the tail that is kept is no longer than asked for.
pub proof fn previews_fit_into_a_message(content: Seq<char>, message_limit: nat, tail: Seq<char>)
    requires
        message_limit >= stream::PREVIEW_MARGIN,
        tail.len() <= stream::preview_len(message_limit),
    ensures
        stream::preview(content, message_limit, tail).len() <= message_limit,
{
    reveal_strlit("…");
}

/// A run starts with nothing said but a note where the session had to start over, nothing
/// done and nothing gone wrong. It shows that the agent thinks and, where it is streamed,
/// sends a placeholder of that note and an ellipsis.
pub proof fn runs_start_with_their_placeholder<O>(plan: StreamPlan, reset: bool)
    ensures
        ({
            let s = Session::start(plan, reset);
            let note = if reset {
                "⚠️ _Session expired, starting fresh..._\n\n"@
            } else {
                Seq::empty()
            };
            &&& s.plan == plan
            &&& s.listening
            &&& !s.abandoned
            &&& s.text == note
            &&& s.tools.len() == 0
            &&& s.error is None
            &&& plan.streaming ==> Session::opening::<O>(plan, reset) == seq![
                Act::<O>::SetThinking,
                Act::<O>::SendPlaceholder(note + "…"@),
            ]
            &&& !plan.streaming ==> Session::opening::<O>(plan, reset) == seq![
                Act::<O>::SetThinking,
            ]
        }),
{
}

/// What a run says, does and has gone wrong changes only by the events that are about it:
/// texts add to what was said, tool calls that start with a title or end are listed, silence
/// and errors in the response are what went wrong, and the run ends by silence, by the end of
/// what the agent sends, by the response, or without its placeholder.
pub proof fn events_change_only_what_they_are_about<O>(s: Session, event: Heard<O>)
    requires
        s.listening,
    ensures
        ({
            let after = s.heard(event);
            &&& after.plan == s.plan
            &&& after.text == match event {
                Heard::Text(t) => s.text + t,
                _ => s.text,
            }
            &&& after.tools == match event {
                Heard::ToolStart { id, title } if title.len() > 0 => tools::tool_started(
                    s.tools,
                    id,
                    title,
                ),
                Heard::ToolDone { id, title, status } => tools::tool_ended(
                    s.tools,
                    id,
                    title,
                    status,
                ),
                _ => s.tools,
            }
            &&& after.error == match event {
                Heard::TimedOut => Some("Agent stopped responding"@),
                Heard::Response { error: Some(error) } => Some(error),
                _ => s.error,
            }
            &&& after.listening == !(event is TimedOut || event is Closed || event is Response
                || event is PlaceholderFailed)
            &&& after.abandoned == (s.abandoned || event is PlaceholderFailed)
        }),
{
}

/// Where a run is streamed, each text, each tool call that starts with a title and each one
/// that ends hands the display to the placeholder once, as it is after that event; nothing
/// else does, nor does anything where the run is not streamed.
pub proof fn streamed_runs_publish_every_change<O>(s: Session, event: Heard<O>)
    requires
        s.listening,
    ensures
        ({
            let after = s.heard(event);
            let acts = s.reaction(event);
            let told = event is Text || event is ToolDone || (event matches Heard::ToolStart {
                title,
                ..
            } && title.len() > 0);
            &&& s.plan.streaming && told ==> acts.len() > 0 && acts.last() == Act::<
                O,
            >::Publish(tools::display_text(after.tools, after.text, true, s.plan.tool_display))
            &&& forall|i: int|
                0 <= i < acts.len() && #[trigger] acts[i] is Publish ==> s.plan.streaming && told
                    && i == acts.len() - 1
        }),
{
}

/// A run answers every event in one way: a text is shown, a tool call that starts is named
/// and shown, one that ends is shown while the agent thinks again, options are kept, and the
/// end of the run is told to the agent and stops the edits.
pub proof fn runs_answer_every_event<O>(s: Session, event: Heard<O>)
    requires
        s.listening,
    ensures
        ({
            let after = s.heard(event);
            let shown = if s.plan.streaming {
                seq![
                    Act::<O>::Publish(
                        tools::display_text(after.tools, after.text, true, s.plan.tool_display),
                    ),
                ]
            } else {
                Seq::empty()
            };
            let over = seq![Act::<O>::PromptDone, Act::<O>::StopEditing];
            match event {
                Heard::Text(_) => s.reaction(event) == shown,
                Heard::Thinking => s.reaction(event) == seq![Act::<O>::SetThinking],
                Heard::ToolStart { title, .. } => if title.len() == 0 {
                    s.reaction(event).len() == 0
                } else {
                    s.reaction(event) == seq![Act::<O>::SetTool(title)] + shown
                },
                Heard::ToolDone { .. } => s.reaction(event) == seq![Act::<O>::SetThinking]
                    + shown,
                Heard::ConfigUpdate { options } => s.reaction(event) == seq![
                    Act::<O>::StoreConfig(options),
                ],
                Heard::Other => s.reaction(event).len() == 0,
                Heard::PlaceholderFailed => s.reaction(event).len() == 0,
                Heard::TimedOut => s.reaction(event) == over,
                Heard::Closed => s.reaction(event) == over,
                Heard::Response { .. } => s.reaction(event) == over,
            }
        }),
{
}

/// An answer is the display of the run as it ended, under what went wrong if anything did;
/// where both are missing it says that there was no response.
pub proof fn answers_are_the_display_and_what_went_wrong(s: Session)
    ensures
        ({
            let shown = tools::display_text(s.tools, s.text, false, s.plan.tool_display);
            let answer = s.final_content();
            match s.error {
                None => answer == if shown.len() > 0 {
                    shown
                } else {
                    "_(no response)_"@
                },
                Some(error) => answer == "⚠️ "@ + error + if shown.len() > 0 {
                    "\n\n"@ + shown
                } else {
                    Seq::empty()
                },
            }
        }),
{
    let shown = tools::display_text(s.tools, s.text, false, s.plan.tool_display);
    if let Some(error) = s.error {
        if shown.len() > 0 {
            assert(s.final_content() =~= "⚠️ "@ + error + ("\n\n"@ + shown));
        } else {
            assert("⚠️ "@ + error + Seq::<char>::empty() =~= "⚠️ "@ + error);
        }
    }
}

/// An answer of nothing but white space goes out as no message; any other as what the
/// splitting makes of it within the limit.
pub proof fn blank_answers_are_no_messages<F: Fn(&str, usize) -> Vec<String>>(
    answer: &str,
    message_limit: usize,
    split_message: F,
    chunks: Vec<String>,
)
    requires
        stream::is_split(answer, message_limit, split_message, chunks),
    ensures
        text_laws::is_blank(answer@) ==> chunks@.len() == 0,
        !text_laws::is_blank(answer@) ==> call_ensures(
            split_message,
            (answer, message_limit),
            chunks,
        ),
{
    text_laws::only_blank_texts_are_trimmed_to_nothing(answer@);
}

/// A display of at most a hundred characters below the limit is shown whole; of a longer one
/// the tail is shown after an ellipsis.
pub proof fn previews_show_all_or_the_tail(
    content: Seq<char>,
    message_limit: nat,
    tail: Seq<char>,
)
    requires
        message_limit >= 100,
    ensures
        stream::preview_len(message_limit) == message_limit - 100,
        content.len() + 100 <= message_limit ==> stream::preview(content, message_limit, tail)
            == content,
        content.len() + 100 > message_limit ==> stream::preview(content, message_limit, tail)
            == "…"@ + tail,
{
}

/// A run waits ten minutes for its next notification, and its placeholder is edited every
/// one and a half seconds at most.
pub proof fn runs_wait_and_edit_at_their_pace()
    ensures
        stream::NOTIFICATION_TIMEOUT_SECS == 10 * 60,
        2 * stream::EDIT_INTERVAL_MS == 3000,
{
}

} // verus!
