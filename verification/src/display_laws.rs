//! What a display shows of each tool call and of the text, for every list of tool calls.
use crate::config::ToolDisplay;
use crate::text;
use crate::text_laws;
use crate::tools;
use crate::tools::{Tool, ToolState};
use vstd::prelude::*;

verus! {

/// Titles are made flat character by character: carriage returns go, a line feed becomes
/// ` ; `, a backquote becomes an apostrophe, and everything else stays.
pub proof fn titles_are_flattened_character_by_character(
    a: Seq<char>,
    b: Seq<char>,
    c: char,
)
    ensures
        tools::flat_title(Seq::empty()) == Seq::<char>::empty(),
        tools::flat_title(a + b) == tools::flat_title(a) + tools::flat_title(b),
        tools::flat_title(seq!['\r']) == Seq::<char>::empty(),
        tools::flat_title(seq!['\n']) == " ; "@,
        tools::flat_title(seq!['`']) == "'"@,
        c != '\r' && c != '\n' && c != '`' ==> tools::flat_title(seq![c]) == seq![c],
    decreases b.len(),
{
    reveal_strlit(" ; ");
    reveal_strlit("'");
    lemma_flat_single('\r');
    lemma_flat_single('\n');
    lemma_flat_single('`');
    lemma_flat_single(c);
    if b.len() == 0 {
        assert(a + b =~= a);
        assert(tools::flat_title(a) + tools::flat_title(b) =~= tools::flat_title(a));
    } else {
        titles_are_flattened_character_by_character(a, b.drop_last(), c);
        assert((a + b).drop_last() =~= a + b.drop_last());
        assert((a + b).last() == b.last());
        assert(tools::flat_title(a + b) =~= tools::flat_title(a) + tools::flat_title(b));
    }
}

proof fn lemma_flat_single(c: char)
    ensures
        tools::flat_title(seq![c]) == tools::flat_char(c),
{
    assert(seq![c].drop_last() =~= Seq::empty());
    assert(tools::flat_title(seq![c].drop_last()) =~= Seq::empty());
    assert(tools::flat_title(seq![c]) =~= tools::flat_char(c));
}

/// A tool call that starts runs under its new title: in the first place that its id has in
/// the list, else at the end of the list. Nothing else of the list changes.
pub proof fn started_tool_calls_run_under_their_title(
    list: Seq<Tool>,
    id: Seq<char>,
    title: Seq<char>,
    at: int,
)
    requires
        0 <= at <= list.len(),
        forall|i: int| 0 <= i < at ==> (#[trigger] list[i]).id != id,
        at < list.len() ==> list[at].id == id,
    ensures
        ({
            let tool = Tool { id, title: tools::flat_title(title), state: ToolState::Running };
            &&& at < list.len() ==> tools::tool_started(list, id, title) == list.update(at, tool)
            &&& at == list.len() ==> tools::tool_started(list, id, title) == list.push(tool)
        }),
{
    tools::lemma_position_found(list, id);
}

/// A tool call that ends has completed if its status says `completed`, else failed. It keeps
/// its title unless another comes with it, and the first place that its id has in the list;
/// one that was not listed is listed at the end if a title comes with it, else not at all.
pub proof fn ended_tool_calls_keep_what_is_not_told(
    list: Seq<Tool>,
    id: Seq<char>,
    title: Seq<char>,
    status: Seq<char>,
    at: int,
)
    requires
        0 <= at <= list.len(),
        forall|i: int| 0 <= i < at ==> (#[trigger] list[i]).id != id,
        at < list.len() ==> list[at].id == id,
    ensures
        ({
            let state = if status == "completed"@ {
                ToolState::Completed
            } else {
                ToolState::Failed
            };
            let after = tools::tool_ended(list, id, title, status);
            let named = Tool { id, title: tools::flat_title(title), state };
            &&& at < list.len() && title.len() > 0 ==> after == list.update(at, named)
            &&& at < list.len() && title.len() == 0 ==> after == list.update(
                at,
                Tool { state, ..list[at] },
            )
            &&& at == list.len() && title.len() > 0 ==> after == list.push(named)
            &&& at == list.len() && title.len() == 0 ==> after == list
        }),
{
    tools::lemma_position_found(list, id);
}

/// A tool call shows its whole title as inline code, between a mark for its state and, while
/// it runs, three dots.
pub proof fn tool_calls_show_their_title(id: Seq<char>, title: Seq<char>)
    ensures
        tools::rendered(Tool { id, title, state: ToolState::Running }) == "🔧 `"@ + title
            + "`..."@,
        tools::rendered(Tool { id, title, state: ToolState::Completed }) == "✅ `"@ + title
            + "`"@,
        tools::rendered(Tool { id, title, state: ToolState::Failed }) == "❌ `"@ + title + "`"@,
{
    reveal_strlit("🔧 `");
    reveal_strlit("✅ `");
    reveal_strlit("❌ `");
    reveal_strlit("🔧");
    reveal_strlit("✅");
    reveal_strlit("❌");
    reveal_strlit(" `");
    reveal_strlit("`");
    reveal_strlit("`...");
    reveal_strlit("...");
    reveal_strlit("");
    assert(tools::rendered(Tool { id, title, state: ToolState::Running }) =~= "🔧 `"@ + title
        + "`..."@);
    assert(tools::rendered(Tool { id, title, state: ToolState::Completed }) =~= "✅ `"@ + title
        + "`"@);
    assert(tools::rendered(Tool { id, title, state: ToolState::Failed }) =~= "❌ `"@ + title
        + "`"@);
}

/// A display is what it would be without text, followed by the text without white space at
/// its end; where no tools are shown, it is that text alone.
pub proof fn displays_are_tools_and_then_the_text(
    list: Seq<Tool>,
    body: Seq<char>,
    streaming: bool,
    display: ToolDisplay,
)
    ensures
        tools::display_text(list, body, streaming, display) == tools::display_text(
            list,
            Seq::empty(),
            streaming,
            display,
        ) + text::trim_end(body),
        tools::display_text(Seq::empty(), body, streaming, display) == text::trim_end(body),
        tools::display_text(list, body, streaming, ToolDisplay::Hidden) == text::trim_end(body),
{
    let none = Seq::<char>::empty();
    assert(text::trim_end(none) =~= none);
    assert(tools::display_text(list, body, streaming, display) =~= tools::display_text(
        list,
        none,
        streaming,
        display,
    ) + text::trim_end(body));
}

proof fn lemma_rendered_lines(list: Seq<Tool>)
    requires
        list.len() > 0,
    ensures
        tools::rendered_lines(list) == text::join(
            list.map_values(|t: Tool| tools::rendered(t)),
            "\n"@,
        ) + "\n"@,
    decreases list.len(),
{
    let each = list.map_values(|t: Tool| tools::rendered(t));
    let front = list.drop_last();
    assert(each.drop_last() =~= front.map_values(|t: Tool| tools::rendered(t)));
    if list.len() == 1 {
        assert(tools::rendered_lines(front) =~= Seq::empty());
        assert(tools::rendered_lines(list) =~= text::join(each, "\n"@) + "\n"@);
    } else {
        lemma_rendered_lines(front);
        assert(tools::rendered_lines(list) =~= text::join(each, "\n"@) + "\n"@);
    }
}

/// The full display of a run that is over has a line for every tool call, in order, then an
/// empty line and the text.
pub proof fn full_displays_list_every_tool_call(list: Seq<Tool>, body: Seq<char>)
    requires
        list.len() > 0,
    ensures
        tools::display_text(list, body, false, ToolDisplay::Full) == text::join(
            list.map_values(|t: Tool| tools::rendered(t)),
            "\n"@,
        ) + "\n\n"@ + text::trim_end(body),
{
    lemma_rendered_lines(list);
    reveal_strlit("\n");
    reveal_strlit("\n\n");
    assert(tools::display_text(list, body, false, ToolDisplay::Full) =~= text::join(
        list.map_values(|t: Tool| tools::rendered(t)),
        "\n"@,
    ) + "\n\n"@ + text::trim_end(body));
}

proof fn lemma_filter_all(list: Seq<Tool>, p: spec_fn(Tool) -> bool)
    requires
        forall|i: int| 0 <= i < list.len() ==> p(#[trigger] list[i]),
    ensures
        list.filter(p) == list,
    decreases list.len(),
{
    reveal(Seq::filter);
    if list.len() > 0 {
        assert(forall|i: int| 0 <= i < list.len() - 1 ==> list.drop_last()[i] == list[i]);
        lemma_filter_all(list.drop_last(), p);
        assert(list.last() == list[list.len() - 1]);
        assert(list.drop_last().push(list.last()) =~= list);
    }
}

proof fn lemma_filter_none(list: Seq<Tool>, p: spec_fn(Tool) -> bool)
    requires
        forall|i: int| 0 <= i < list.len() ==> !p(#[trigger] list[i]),
    ensures
        list.filter(p) == Seq::<Tool>::empty(),
    decreases list.len(),
{
    reveal(Seq::filter);
    if list.len() > 0 {
        assert(forall|i: int| 0 <= i < list.len() - 1 ==> list.drop_last()[i] == list[i]);
        lemma_filter_none(list.drop_last(), p);
        assert(list.last() == list[list.len() - 1]);
    }
}

proof fn lemma_filtered(list: Seq<Tool>, p: spec_fn(Tool) -> bool)
    ensures
        forall|i: int| 0 <= i < list.filter(p).len() ==> p(#[trigger] list.filter(p)[i]),
    decreases list.len(),
{
    reveal(Seq::filter);
    if list.len() > 0 {
        lemma_filtered(list.drop_last(), p);
    }
}

proof fn lemma_parts_running(list: Seq<Tool>)
    requires
        forall|i: int| 0 <= i < list.len() ==> (#[trigger] list[i]).state == ToolState::Running,
    ensures
        tools::finished(list) == Seq::<Tool>::empty(),
        tools::in_state(list, ToolState::Running) == list,
        tools::in_state(list, ToolState::Completed) == Seq::<Tool>::empty(),
        tools::in_state(list, ToolState::Failed) == Seq::<Tool>::empty(),
{
    let running = ToolState::Running;
    let done = ToolState::Completed;
    let failed = ToolState::Failed;
    lemma_filter_none(list, |t: Tool| t.state != ToolState::Running);
    lemma_filter_all(list, |t: Tool| t.state == running);
    lemma_filter_none(list, |t: Tool| t.state == done);
    lemma_filter_none(list, |t: Tool| t.state == failed);
}

proof fn lemma_parts_finished(list: Seq<Tool>)
    requires
        forall|i: int| 0 <= i < list.len() ==> (#[trigger] list[i]).state != ToolState::Running,
    ensures
        tools::finished(list) == list,
        tools::in_state(list, ToolState::Running) == Seq::<Tool>::empty(),
{
    let running = ToolState::Running;
    lemma_filter_all(list, |t: Tool| t.state != ToolState::Running);
    lemma_filter_none(list, |t: Tool| t.state == running);
}

proof fn lemma_split(list: Seq<Tool>)
    ensures
        list.filter(|t: Tool| t.state == ToolState::Running) == tools::in_state(
            list,
            ToolState::Running,
        ),
        list.filter(|t: Tool| t.state != ToolState::Running) == tools::finished(list),
{
    let running = ToolState::Running;
    assert((|t: Tool| t.state == ToolState::Running) =~= (|t: Tool| t.state == running));
}

/// While a run goes on, the full display shows the tool calls that ended and then those that
/// still run, each group as it would be shown without the other.
pub proof fn ended_and_running_tool_calls_are_shown_apart(list: Seq<Tool>, body: Seq<char>)
    requires
        list.filter(|t: Tool| t.state != ToolState::Running).len() > 0,
        list.filter(|t: Tool| t.state == ToolState::Running).len() > 0,
    ensures
        tools::display_text(list, body, true, ToolDisplay::Full) == tools::display_text(
            list.filter(|t: Tool| t.state != ToolState::Running),
            Seq::empty(),
            true,
            ToolDisplay::Full,
        ).drop_last() + tools::display_text(
            list.filter(|t: Tool| t.state == ToolState::Running),
            body,
            true,
            ToolDisplay::Full,
        ),
{
    lemma_split(list);
    let ended = tools::finished(list);
    let running = tools::in_state(list, ToolState::Running);
    lemma_filtered(list, |t: Tool| t.state != ToolState::Running);
    lemma_filtered(list, |t: Tool| t.state == ToolState::Running);
    lemma_parts_finished(ended);
    lemma_parts_running(running);
    lemma_counts_of_ended(list);
    reveal_strlit("\n");
    assert(text::trim_end(Seq::empty()) =~= Seq::empty());
    assert(list.len() > 0) by {
        reveal(Seq::filter);
    }
    assert(tools::finished_header(ended) == tools::finished_header(list));
    assert(tools::running_header(ended) =~= Seq::empty());
    assert(tools::finished_header(running) =~= Seq::empty());
    assert(tools::running_header(running) == tools::running_header(list));
    let first = tools::display_text(ended, Seq::empty(), true, ToolDisplay::Full);
    assert(first.drop_last() =~= tools::finished_header(list));
    assert(tools::display_text(list, body, true, ToolDisplay::Full) =~= first.drop_last()
        + tools::display_text(running, body, true, ToolDisplay::Full));
}

proof fn lemma_counts_of_ended(list: Seq<Tool>)
    ensures
        tools::in_state(tools::finished(list), ToolState::Completed) == tools::in_state(
            list,
            ToolState::Completed,
        ),
        tools::in_state(tools::finished(list), ToolState::Failed) == tools::in_state(
            list,
            ToolState::Failed,
        ),
    decreases list.len(),
{
    reveal(Seq::filter);
    let done = ToolState::Completed;
    let failed = ToolState::Failed;
    if list.len() > 0 {
        let front = list.drop_last();
        lemma_counts_of_ended(front);
        let last = list.last();
        if last.state != ToolState::Running {
            assert(tools::finished(front).push(last).drop_last() =~= tools::finished(front));
        }
    }
}

/// While a run goes on, up to three tool calls that ended, and up to three that still run,
/// are shown as when the run is over: one by one.
pub proof fn few_tool_calls_are_shown_one_by_one(list: Seq<Tool>, body: Seq<char>)
    requires
        list.len() <= 3,
        (forall|i: int| 0 <= i < list.len() ==> (#[trigger] list[i]).state == ToolState::Running)
            || (forall|i: int|
            0 <= i < list.len() ==> (#[trigger] list[i]).state != ToolState::Running),
    ensures
        tools::display_text(list, body, true, ToolDisplay::Full) == tools::display_text(
            list,
            body,
            false,
            ToolDisplay::Full,
        ),
{
    if forall|i: int| 0 <= i < list.len() ==> (#[trigger] list[i]).state == ToolState::Running {
        lemma_parts_running(list);
        assert(tools::rendered_lines(Seq::<Tool>::empty()) =~= Seq::empty());
        assert(tools::finished_header(list) + tools::running_header(list)
            =~= tools::rendered_lines(list));
    } else {
        lemma_parts_finished(list);
        assert(tools::rendered_lines(Seq::<Tool>::empty()) =~= Seq::empty());
        assert(tools::finished_header(list) + tools::running_header(list)
            =~= tools::rendered_lines(list));
    }
}

/// While a run goes on, more than three running tool calls are shown as a line that counts
/// all but the last three, and then those three as if there were no others.
pub proof fn many_running_tool_calls_show_the_last_three(list: Seq<Tool>, body: Seq<char>)
    requires
        list.len() > 3,
        forall|i: int| 0 <= i < list.len() ==> (#[trigger] list[i]).state == ToolState::Running,
    ensures
        tools::display_text(list, body, true, ToolDisplay::Full) == "🔧 "@ + text::decimal(
            (list.len() - 3) as nat,
        ) + " more running\n"@ + tools::display_text(
            list.skip(list.len() - 3),
            body,
            true,
            ToolDisplay::Full,
        ),
{
    let last = list.skip(list.len() - 3);
    assert forall|i: int| 0 <= i < last.len() implies (#[trigger] last[i]).state
        == ToolState::Running by {
        assert(last[i] == list[i + list.len() - 3]);
    }
    lemma_parts_running(list);
    lemma_parts_running(last);
    assert(tools::rendered_lines(Seq::<Tool>::empty()) =~= Seq::empty());
    let lead = "🔧 "@ + text::decimal((list.len() - 3) as nat) + " more running\n"@;
    assert(tools::display_text(list, body, true, ToolDisplay::Full) =~= lead
        + tools::display_text(last, body, true, ToolDisplay::Full));
}

proof fn lemma_line_of(list: Seq<Tool>, i: int) -> (r: (Seq<char>, Seq<char>))
    requires
        0 <= i < list.len(),
    ensures
        tools::rendered_lines(list) == r.0 + (tools::rendered(list[i]) + "\n"@) + r.1,
    decreases list.len(),
{
    let front = tools::rendered_lines(list.drop_last());
    if i == list.len() - 1 {
        assert(tools::rendered_lines(list) =~= front + (tools::rendered(list[i]) + "\n"@)
            + Seq::empty());
        (front, Seq::empty())
    } else {
        let (x, y) = lemma_line_of(list.drop_last(), i);
        let z = y + tools::rendered(list.last()) + "\n"@;
        assert(tools::rendered_lines(list) =~= x + (tools::rendered(list[i]) + "\n"@) + z);
        (x, z)
    }
}

/// While a run goes on, each of the last three tool calls that still run has its line in the
/// full display, however many ended; so up to three all have.
pub proof fn running_tool_calls_have_their_line(list: Seq<Tool>, body: Seq<char>, i: int)
    requires
        ({
            let running = list.filter(|t: Tool| t.state == ToolState::Running);
            running.len() - 3 <= i && 0 <= i < running.len()
        }),
    ensures
        ({
            let tool = list.filter(|t: Tool| t.state == ToolState::Running)[i];
            exists|before: Seq<char>, after: Seq<char>|
                tools::display_text(list, body, true, ToolDisplay::Full) == #[trigger] (before + (
                tools::rendered(tool) + "\n"@) + after)
        }),
{
    lemma_split(list);
    let running = tools::in_state(list, ToolState::Running);
    assert(list.len() > 0) by {
        reveal(Seq::filter);
    }
    let hidden = if running.len() > 3 {
        running.len() - 3
    } else {
        0
    };
    let shown = running.skip(hidden);
    if hidden == 0 {
        assert(shown =~= running);
    }
    let (x, y) = lemma_line_of(shown, i - hidden);
    assert(shown[i - hidden] == running[i]);
    let lead = if hidden == 0 {
        Seq::empty()
    } else {
        "🔧 "@ + text::decimal(hidden as nat) + " more running\n"@
    };
    let before = tools::finished_header(list) + lead + x;
    let after = y + "\n"@ + text::trim_end(body);
    assert(tools::running_header(list) =~= lead + tools::rendered_lines(shown));
    assert(tools::display_text(list, body, true, ToolDisplay::Full) =~= before + (
    tools::rendered(running[i]) + "\n"@) + after);
}

/// While a run goes on, more than three tool calls that ended are shown as one line of
/// counts: the counts of the compact display, named as completed.
pub proof fn many_ended_tool_calls_are_counted(list: Seq<Tool>, body: Seq<char>)
    requires
        list.len() > 3,
        forall|i: int| 0 <= i < list.len() ==> (#[trigger] list[i]).state != ToolState::Running,
    ensures
        exists|counts: Seq<char>|
            tools::display_text(list, body, true, ToolDisplay::Full) == #[trigger] (counts
                + " tool(s) completed\n\n"@) + text::trim_end(body) && tools::display_text(
                list,
                body,
                true,
                ToolDisplay::Compact,
            ) == counts + " tool(s)\n\n"@ + text::trim_end(body),
{
    lemma_parts_finished(list);
    let counts = tools::counts(
        tools::in_state(list, ToolState::Completed).len(),
        tools::in_state(list, ToolState::Failed).len(),
        0,
    );
    reveal_strlit(" tool(s) completed\n\n");
    reveal_strlit(" tool(s) completed\n");
    reveal_strlit(" tool(s)\n\n");
    reveal_strlit(" tool(s)\n");
    reveal_strlit("\n");
    assert(tools::rendered_lines(Seq::<Tool>::empty()) =~= Seq::empty());
    assert(tools::display_text(list, body, true, ToolDisplay::Full) =~= counts
        + " tool(s) completed\n\n"@ + text::trim_end(body));
    assert(tools::display_text(list, body, true, ToolDisplay::Compact) =~= counts
        + " tool(s)\n\n"@ + text::trim_end(body));
}

proof fn lemma_one_state(list: Seq<Tool>, state: ToolState, other: ToolState)
    requires
        forall|i: int| 0 <= i < list.len() ==> (#[trigger] list[i]).state == state,
    ensures
        tools::in_state(list, state) == list,
        other != state ==> tools::in_state(list, other) == Seq::<Tool>::empty(),
{
    lemma_filter_all(list, |t: Tool| t.state == state);
    if other != state {
        lemma_filter_none(list, |t: Tool| t.state == other);
    }
}

/// A compact display of tool calls in one state is a line with the mark of the state and how
/// many they are, whether the run goes on or not.
pub proof fn compact_displays_count_a_state(
    list: Seq<Tool>,
    body: Seq<char>,
    streaming: bool,
    state: ToolState,
)
    requires
        list.len() > 0,
        forall|i: int| 0 <= i < list.len() ==> (#[trigger] list[i]).state == state,
    ensures
        tools::display_text(list, body, streaming, ToolDisplay::Compact) == (match state {
            ToolState::Running => "🔧 "@,
            ToolState::Completed => "✅ "@,
            ToolState::Failed => "❌ "@,
        }) + text::decimal(list.len()) + " tool(s)\n\n"@ + text::trim_end(body),
{
    lemma_one_state(list, state, ToolState::Running);
    lemma_one_state(list, state, ToolState::Completed);
    lemma_one_state(list, state, ToolState::Failed);
    reveal_strlit("🔧 ");
    reveal_strlit("✅ ");
    reveal_strlit("❌ ");
    reveal_strlit("🔧");
    reveal_strlit("✅");
    reveal_strlit("❌");
    reveal_strlit(" ");
    reveal_strlit(" tool(s)\n\n");
    reveal_strlit(" tool(s)\n");
    reveal_strlit("\n");
    let part = tools::icon(state) + " "@ + text::decimal(list.len());
    let parts = tools::count_part(
        ToolState::Completed,
        tools::in_state(list, ToolState::Completed).len(),
    ) + tools::count_part(ToolState::Failed, tools::in_state(list, ToolState::Failed).len())
        + tools::count_part(ToolState::Running, tools::in_state(list, ToolState::Running).len());
    assert(parts =~= seq![part]);
    assert(text::join(parts, " · "@) == part);
    let lead = match state {
        ToolState::Running => "🔧 "@,
        ToolState::Completed => "✅ "@,
        ToolState::Failed => "❌ "@,
    };
    assert(tools::display_text(list, body, streaming, ToolDisplay::Compact) =~= lead
        + text::decimal(list.len()) + " tool(s)\n\n"@ + text::trim_end(body));
}

proof fn lemma_without(list: Seq<Tool>, state: ToolState, other: ToolState)
    ensures
        other != state ==> tools::in_state(
            list.filter(|t: Tool| t.state != state),
            other,
        ).len() == tools::in_state(list, other).len(),
        other == state ==> tools::in_state(
            list.filter(|t: Tool| t.state != state),
            other,
        ).len() == 0,
    decreases list.len(),
{
    reveal(Seq::filter);
    let p = |t: Tool| t.state != state;
    if list.len() > 0 {
        let front = list.drop_last();
        lemma_without(front, state, other);
        if p(list.last()) {
            assert(front.filter(p).push(list.last()).drop_last() =~= front.filter(p));
        }
    }
}

proof fn lemma_counts_lead(first: Seq<char>, rest: Seq<Seq<char>>)
    requires
        rest.len() > 0,
    ensures
        text::join(seq![first] + rest, " · "@) == first + " · "@ + text::join(rest, " · "@),
{
    text_laws::joining_puts_a_separator_between(seq![first], rest, first, " · "@);
}

/// A compact display of tool calls in several states counts them state by state: those that
/// completed first, then those that failed, and those that still run last.
pub proof fn compact_displays_count_state_by_state(
    list: Seq<Tool>,
    body: Seq<char>,
    streaming: bool,
)
    ensures
        ({
            let done = list.filter(|t: Tool| t.state == ToolState::Completed).len();
            let others = list.filter(|t: Tool| t.state != ToolState::Completed);
            done > 0 && others.len() > 0 ==> tools::display_text(
                list,
                body,
                streaming,
                ToolDisplay::Compact,
            ) == "✅ "@ + text::decimal(done) + " · "@ + tools::display_text(
                others,
                body,
                streaming,
                ToolDisplay::Compact,
            )
        }),
        ({
            let done = list.filter(|t: Tool| t.state == ToolState::Completed).len();
            let failed = list.filter(|t: Tool| t.state == ToolState::Failed).len();
            let others = list.filter(|t: Tool| t.state != ToolState::Failed);
            done == 0 && failed > 0 && others.len() > 0 ==> tools::display_text(
                list,
                body,
                streaming,
                ToolDisplay::Compact,
            ) == "❌ "@ + text::decimal(failed) + " · "@ + tools::display_text(
                others,
                body,
                streaming,
                ToolDisplay::Compact,
            )
        }),
{
    reveal_strlit("✅ ");
    reveal_strlit("❌ ");
    reveal_strlit("✅");
    reveal_strlit("❌");
    reveal_strlit(" ");
    let c = ToolState::Completed;
    let f = ToolState::Failed;
    let r = ToolState::Running;
    assert((|t: Tool| t.state == ToolState::Completed) =~= (|t: Tool| t.state == c));
    assert((|t: Tool| t.state == ToolState::Failed) =~= (|t: Tool| t.state == f));
    assert((|t: Tool| t.state != ToolState::Completed) =~= (|t: Tool| t.state != c));
    assert((|t: Tool| t.state != ToolState::Failed) =~= (|t: Tool| t.state != f));
    let done = tools::in_state(list, c).len();
    let failed = tools::in_state(list, f).len();
    let running = tools::in_state(list, r).len();
    lemma_states(list);
    let a = tools::count_part(c, done);
    let b = tools::count_part(f, failed);
    let d = tools::count_part(r, running);
    let none = Seq::<Seq<char>>::empty();
    let no_c = list.filter(|t: Tool| t.state != c);
    let no_f = list.filter(|t: Tool| t.state != f);
    lemma_without(list, c, c);
    lemma_without(list, c, f);
    lemma_without(list, c, r);
    lemma_without(list, f, c);
    lemma_without(list, f, f);
    lemma_without(list, f, r);
    lemma_states(no_c);
    lemma_states(no_f);
    if done > 0 && no_c.len() > 0 {
        assert(list.len() > 0);
        let rest = b + d;
        assert(rest.len() > 0);
        assert(a + b + d =~= seq![a[0]] + rest);
        lemma_counts_lead(a[0], rest);
        assert(none + b + d =~= rest);
        assert(tools::display_text(list, body, streaming, ToolDisplay::Compact) =~= "✅ "@
            + text::decimal(done) + " · "@ + tools::display_text(
            no_c,
            body,
            streaming,
            ToolDisplay::Compact,
        ));
    }
    if done == 0 && failed > 0 && no_f.len() > 0 {
        assert(list.len() > 0);
        assert(d.len() > 0);
        assert(a + b + d =~= seq![b[0]] + d);
        lemma_counts_lead(b[0], d);
        assert(a + none + d =~= d);
        assert(tools::display_text(list, body, streaming, ToolDisplay::Compact) =~= "❌ "@
            + text::decimal(failed) + " · "@ + tools::display_text(
            no_f,
            body,
            streaming,
            ToolDisplay::Compact,
        ));
    }
}

proof fn lemma_states(list: Seq<Tool>)
    ensures
        list.len() == tools::in_state(list, ToolState::Completed).len() + tools::in_state(
            list,
            ToolState::Failed,
        ).len() + tools::in_state(list, ToolState::Running).len(),
    decreases list.len(),
{
    reveal(Seq::filter);
    if list.len() > 0 {
        lemma_states(list.drop_last());
    }
}

} // verus!
