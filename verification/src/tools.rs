//! The tool calls of a run, and how a reply shows them.
use crate::config::ToolDisplay;
use crate::text;
use crate::text::{cut_end_chars, from_chars, push_decimal, same_text, to_chars, Cut};
use vstd::prelude::*;

verus! {

#[derive(Clone, Copy, Debug, PartialEq, Eq, Structural)]
pub enum ToolState {
    Running,
    Completed,
    Failed,
}

/// One tool call of the agent.
#[derive(Debug)]
pub struct ToolEntry {
    pub id: String,
    pub title: String,
    pub state: ToolState,
}

/// What a tool entry holds.
pub struct Tool {
    pub id: Seq<char>,
    pub title: Seq<char>,
    pub state: ToolState,
}

impl View for ToolEntry {
    type V = Tool;

    open spec fn view(&self) -> Tool {
        Tool { id: self.id@, title: self.title@, state: self.state }
    }
}

impl Clone for ToolEntry {
    fn clone(&self) -> (r: Self)
        ensures
            r == *self,
    {
        ToolEntry { id: self.id.clone(), title: self.title.clone(), state: self.state }
    }
}

/// What each entry of a list holds.
pub open spec fn tools(list: Seq<ToolEntry>) -> Seq<Tool> {
    list.map_values(|e: ToolEntry| e@)
}

/// What stands in a one-line title for one character.
pub open spec fn flat_char(c: char) -> Seq<char> {
    if c == '\r' {
        Seq::empty()
    } else if c == '\n' {
        seq![' ', ';', ' ']
    } else if c == '`' {
        seq!['\'']
    } else {
        seq![c]
    }
}

/// A title on one line, without backquotes.
pub open spec fn flat_title(title: Seq<char>) -> Seq<char>
    decreases title.len(),
{
    if title.len() == 0 {
        Seq::empty()
    } else {
        flat_title(title.drop_last()) + flat_char(title.last())
    }
}

/// Whether a title can stand in an inline-code span as it is.
pub open spec fn is_flat(title: Seq<char>) -> bool {
    forall|i: int|
        0 <= i < title.len() ==> #[trigger] title[i] != '\r' && title[i] != '\n' && title[i] != '`'
}

/// Flatten a tool-call title into a single line safe for inline-code spans.
pub fn sanitize_title(title: &str) -> (r: String)
    ensures
        r@ == flat_title(title@),
{
    let mut out: String = String::new();
    let chars = to_chars(title);
    for i in 0..chars.len()
        invariant
            chars@ == title@,
            out@ == flat_title(title@.take(i as int)),
    {
        let c = chars[i];
        let ghost before = out@;
        if c == '\r' {
        } else if c == '\n' {
            out.push(' ');
            out.push(';');
            out.push(' ');
        } else if c == '`' {
            out.push('\'');
        } else {
            out.push(c);
        }
        assert(out@ =~= before + flat_char(c));
        assert(title@.take(i + 1).drop_last() =~= title@.take(i as int));
    }
    assert(title@.take(title@.len() as int) =~= title@);
    out
}

/// The mark in front of a tool call.
pub open spec fn icon(state: ToolState) -> Seq<char> {
    match state {
        ToolState::Running => "🔧"@,
        ToolState::Completed => "✅"@,
        ToolState::Failed => "❌"@,
    }
}

/// A tool call on one line: its mark, its title as inline code, and dots while it runs.
pub open spec fn rendered(tool: Tool) -> Seq<char> {
    icon(tool.state) + " `"@ + tool.title + "`"@ + if tool.state == ToolState::Running {
        "..."@
    } else {
        ""@
    }
}

fn icon_text(state: ToolState) -> (r: &'static str)
    ensures
        r@ == icon(state),
{
    match state {
        ToolState::Running => "🔧",
        ToolState::Completed => "✅",
        ToolState::Failed => "❌",
    }
}

impl ToolEntry {
    /// The entry on one line.
    pub fn render(&self) -> (r: String)
        ensures
            r@ == rendered(self@),
    {
        let mut out: String = String::new();
        out.append(icon_text(self.state));
        out.append(" `");
        out.append(self.title.as_str());
        out.append("`");
        if self.state == ToolState::Running {
            out.append("...");
        } else {
            out.append("");
        }
        assert(out@ =~= rendered(self@));
        out
    }
}

/// Maximum number of finished tool entries to show individually
/// during streaming before collapsing into a summary line.
pub const TOOL_COLLAPSE_THRESHOLD: usize = 3;

/// The tools in a given state, in order.
pub open spec fn in_state(list: Seq<Tool>, state: ToolState) -> Seq<Tool> {
    list.filter(|t: Tool| t.state == state)
}

/// The tools that no longer run, in order.
pub open spec fn finished(list: Seq<Tool>) -> Seq<Tool> {
    list.filter(|t: Tool| t.state != ToolState::Running)
}

/// One line for each tool.
pub open spec fn rendered_lines(list: Seq<Tool>) -> Seq<char>
    decreases list.len(),
{
    if list.len() == 0 {
        Seq::empty()
    } else {
        rendered_lines(list.drop_last()) + rendered(list.last()) + "\n"@
    }
}

/// A count with its mark, or nothing where there is nothing to count.
pub open spec fn count_part(state: ToolState, n: nat) -> Seq<Seq<char>> {
    if n > 0 {
        seq![icon(state) + " "@ + text::decimal(n)]
    } else {
        Seq::empty()
    }
}

/// How many tools completed, failed and still run.
pub open spec fn counts(done: nat, failed: nat, running: nat) -> Seq<char> {
    text::join(
        count_part(ToolState::Completed, done) + count_part(ToolState::Failed, failed)
            + count_part(ToolState::Running, running),
        " · "@,
    )
}

/// The line that stands for all tools in a compact display.
pub open spec fn compact_header(done: nat, failed: nat, running: nat) -> Seq<char> {
    counts(done, failed, running) + " tool(s)\n"@
}

/// The finished tools while the run goes on: each on a line, or one line for many.
pub open spec fn finished_header(list: Seq<Tool>) -> Seq<char> {
    if finished(list).len() <= TOOL_COLLAPSE_THRESHOLD {
        rendered_lines(finished(list))
    } else {
        counts(
            in_state(list, ToolState::Completed).len(),
            in_state(list, ToolState::Failed).len(),
            0,
        ) + " tool(s) completed\n"@
    }
}

/// The running tools while the run goes on: each on a line, or how many are left out and
/// then the last ones.
pub open spec fn running_header(list: Seq<Tool>) -> Seq<char> {
    let running = in_state(list, ToolState::Running);
    if running.len() <= TOOL_COLLAPSE_THRESHOLD {
        rendered_lines(running)
    } else {
        let hidden = (running.len() - TOOL_COLLAPSE_THRESHOLD) as nat;
        "🔧 "@ + text::decimal(hidden) + " more running\n"@ + rendered_lines(
            running.skip(hidden as int),
        )
    }
}

/// What a display shows of the tools.
pub open spec fn tool_header(list: Seq<Tool>, streaming: bool, display: ToolDisplay) -> Seq<char> {
    match display {
        ToolDisplay::Compact => compact_header(
            in_state(list, ToolState::Completed).len(),
            in_state(list, ToolState::Failed).len(),
            in_state(list, ToolState::Running).len(),
        ),
        ToolDisplay::Full => if streaming {
            finished_header(list) + running_header(list)
        } else {
            rendered_lines(list)
        },
        ToolDisplay::Hidden => Seq::empty(),
    }
}

/// The tools, an empty line, and the text without white space at its end.
/// Without tools to show, only the text.
pub open spec fn display_text(
    list: Seq<Tool>,
    body: Seq<char>,
    streaming: bool,
    display: ToolDisplay,
) -> Seq<char> {
    if list.len() == 0 || display == ToolDisplay::Hidden {
        text::trim_end(body)
    } else {
        tool_header(list, streaming, display) + "\n"@ + text::trim_end(body)
    }
}

proof fn lemma_filter_push(list: Seq<Tool>, p: spec_fn(Tool) -> bool, t: Tool)
    ensures
        list.push(t).filter(p) == if p(t) {
            list.filter(p).push(t)
        } else {
            list.filter(p)
        },
{
    reveal(Seq::filter);
    assert(list.push(t).drop_last() =~= list);
}

fn count_in(list: &[ToolEntry], state: ToolState) -> (n: usize)
    ensures
        n == in_state(tools(list@), state).len(),
        n <= list.len(),
{
    let mut n: usize = 0;
    let ghost p = |t: Tool| t.state == state;
    let ghost all = tools(list@);
    proof {
        reveal(Seq::filter);
        assert(all.take(0).filter(p).len() == 0);
    }
    for i in 0..list.len()
        invariant
            n <= i,
            all == tools(list@),
            p == (|t: Tool| t.state == state),
            n == all.take(i as int).filter(p).len(),
    {
        proof {
            lemma_filter_push(all.take(i as int), p, all[i as int]);
            assert(all.take(i + 1) =~= all.take(i as int).push(all[i as int]));
        }
        if list[i].state == state {
            n = n + 1;
        }
    }
    assert(all.take(all.len() as int) =~= all);
    n
}

proof fn lemma_states_partition(list: Seq<Tool>)
    ensures
        finished(list).len() == in_state(list, ToolState::Completed).len() + in_state(
            list,
            ToolState::Failed,
        ).len(),
        list.len() == finished(list).len() + in_state(list, ToolState::Running).len(),
    decreases list.len(),
{
    reveal(Seq::filter);
    if list.len() > 0 {
        lemma_states_partition(list.drop_last());
    }
}

proof fn lemma_join_push(parts: Seq<Seq<char>>, sep: Seq<char>, part: Seq<char>)
    ensures
        text::join(parts.push(part), sep) == if parts.len() == 0 {
            part
        } else {
            text::join(parts, sep) + sep + part
        },
{
    assert(parts.push(part).drop_last() =~= parts);
}

/// Appends a count with its mark, after a separator unless it is the first.
fn push_count(out: &mut String, first: bool, state: ToolState, n: usize)
    ensures
        final(out)@ == if n == 0 {
            old(out)@
        } else if first {
            old(out)@ + (icon(state) + " "@ + text::decimal(n as nat))
        } else {
            old(out)@ + " · "@ + (icon(state) + " "@ + text::decimal(n as nat))
        },
{
    if n > 0 {
        if !first {
            out.append(" · ");
        }
        let ghost before = out@;
        out.append(icon_text(state));
        out.append(" ");
        push_decimal(out, n as u64);
        assert(out@ =~= before + (icon(state) + " "@ + text::decimal(n as nat)));
    }
}

fn push_counts(out: &mut String, done: usize, failed: usize, running: usize)
    ensures
        final(out)@ == old(out)@ + counts(done as nat, failed as nat, running as nat),
{
    let ghost sep = " · "@;
    let ghost a = count_part(ToolState::Completed, done as nat);
    let ghost b = count_part(ToolState::Failed, failed as nat);
    let ghost c = count_part(ToolState::Running, running as nat);
    push_count(out, true, ToolState::Completed, done);
    assert(out@ =~= old(out)@ + text::join(a, sep));
    push_count(out, done == 0, ToolState::Failed, failed);
    proof {
        if failed > 0 {
            lemma_join_push(a, sep, b[0]);
            assert(a + b =~= a.push(b[0]));
        } else {
            assert(a + b =~= a);
        }
    }
    assert(out@ =~= old(out)@ + text::join(a + b, sep));
    push_count(out, done == 0 && failed == 0, ToolState::Running, running);
    proof {
        if running > 0 {
            lemma_join_push(a + b, sep, c[0]);
            assert(a + b + c =~= (a + b).push(c[0]));
        } else {
            assert(a + b + c =~= a + b);
        }
    }
    assert(out@ =~= old(out)@ + text::join(a + b + c, sep));
}

/// The running tools, or those that no longer run.
spec fn selected(list: Seq<Tool>, running: bool) -> Seq<Tool> {
    list.filter(|t: Tool| (t.state == ToolState::Running) == running)
}

proof fn lemma_selected(list: Seq<Tool>)
    ensures
        selected(list, true) == in_state(list, ToolState::Running),
        selected(list, false) == finished(list),
    decreases list.len(),
{
    reveal(Seq::filter);
    if list.len() > 0 {
        lemma_selected(list.drop_last());
    }
}

proof fn lemma_rendered_push(list: Seq<Tool>, tool: Tool)
    ensures
        rendered_lines(list.push(tool)) == rendered_lines(list) + rendered(tool) + "\n"@,
{
    assert(list.push(tool).drop_last() =~= list);
}

/// Appends a line for each selected tool but the first `skip`.
fn push_selected(out: &mut String, list: &[ToolEntry], running: bool, skip: usize)
    requires
        skip <= selected(tools(list@), running).len(),
    ensures
        final(out)@ == old(out)@ + rendered_lines(
            selected(tools(list@), running).skip(skip as int),
        ),
{
    let ghost all = tools(list@);
    let ghost p = |t: Tool| (t.state == ToolState::Running) == running;
    let mut seen: usize = 0;
    proof {
        reveal(Seq::filter);
        assert(all.take(0).filter(p) =~= Seq::empty());
        assert(rendered_lines(Seq::<Tool>::empty()) =~= Seq::empty());
    }
    for i in 0..list.len()
        invariant
            all == tools(list@),
            p == (|t: Tool| (t.state == ToolState::Running) == running),
            seen <= i,
            seen == all.take(i as int).filter(p).len(),
            seen <= skip ==> out@ == old(out)@,
            seen > skip ==> out@ == old(out)@ + rendered_lines(
                all.take(i as int).filter(p).skip(skip as int),
            ),
    {
        let ghost before = all.take(i as int).filter(p);
        let ghost shown = out@;
        proof {
            lemma_filter_push(all.take(i as int), p, all[i as int]);
            assert(all.take(i + 1) =~= all.take(i as int).push(all[i as int]));
        }
        if (list[i].state == ToolState::Running) == running {
            if seen >= skip {
                out.append(list[i].render().as_str());
                out.append("\n");
                proof {
                    let after = before.push(all[i as int]);
                    let head = before.skip(skip as int);
                    assert(after.skip(skip as int) =~= head.push(all[i as int]));
                    lemma_rendered_push(head, all[i as int]);
                    if seen == skip {
                        assert(head =~= Seq::empty());
                        assert(rendered_lines(head) =~= Seq::empty());
                    }
                    assert(shown =~= old(out)@ + rendered_lines(head));
                    assert(out@ =~= old(out)@ + (rendered_lines(head) + rendered(all[i as int])
                        + "\n"@));
                }
            }
            seen = seen + 1;
        }
    }
    proof {
        assert(all.take(all.len() as int) =~= all);
        if seen == skip {
            assert(selected(all, running).skip(skip as int) =~= Seq::empty());
            assert(out@ =~= old(out)@ + rendered_lines(
                selected(all, running).skip(skip as int),
            ));
        }
    }
}

fn push_all_rendered(out: &mut String, list: &[ToolEntry])
    ensures
        final(out)@ == old(out)@ + rendered_lines(tools(list@)),
{
    let ghost all = tools(list@);
    assert(out@ =~= old(out)@ + rendered_lines(all.take(0)));
    for i in 0..list.len()
        invariant
            all == tools(list@),
            out@ == old(out)@ + rendered_lines(all.take(i as int)),
    {
        out.append(list[i].render().as_str());
        out.append("\n");
        proof {
            let head = all.take(i as int);
            assert(all.take(i + 1) =~= head.push(all[i as int]));
            lemma_rendered_push(head, all[i as int]);
            assert(out@ =~= old(out)@ + (rendered_lines(head) + rendered(all[i as int])
                + "\n"@));
        }
    }
    assert(all.take(all.len() as int) =~= all);
}

/// The display of a run: its tool calls as far as `tool_display` shows them, then the text.
pub fn compose_display(
    tool_lines: &[ToolEntry],
    text: &str,
    streaming: bool,
    tool_display: ToolDisplay,
) -> (r: String)
    ensures
        r@ == display_text(tools(tool_lines@), text@, streaming, tool_display),
{
    let mut out: String = String::new();
    let ghost all = tools(tool_lines@);
    if tool_lines.len() > 0 && tool_display != ToolDisplay::Hidden {
        proof {
            lemma_states_partition(all);
            lemma_selected(all);
        }
        let done: usize = count_in(tool_lines, ToolState::Completed);
        let failed: usize = count_in(tool_lines, ToolState::Failed);
        let running: usize = count_in(tool_lines, ToolState::Running);
        match tool_display {
            ToolDisplay::Compact => {
                push_counts(&mut out, done, failed, running);
                out.append(" tool(s)\n");
            },
            ToolDisplay::Full => {
                if streaming {
                    if done + failed <= TOOL_COLLAPSE_THRESHOLD {
                        push_selected(&mut out, tool_lines, false, 0);
                        assert(finished(all).skip(0) =~= finished(all));
                    } else {
                        push_counts(&mut out, done, failed, 0);
                        out.append(" tool(s) completed\n");
                    }
                    assert(out@ =~= finished_header(all));
                    if running <= TOOL_COLLAPSE_THRESHOLD {
                        push_selected(&mut out, tool_lines, true, 0);
                        assert(selected(all, true).skip(0) =~= selected(all, true));
                    } else {
                        let hidden: usize = running - TOOL_COLLAPSE_THRESHOLD;
                        out.append("🔧 ");
                        push_decimal(&mut out, hidden as u64);
                        out.append(" more running\n");
                        push_selected(&mut out, tool_lines, true, hidden);
                    }
                    assert(out@ =~= finished_header(all) + running_header(all));
                } else {
                    push_all_rendered(&mut out, tool_lines);
                }
            },
            ToolDisplay::Hidden => {},
        }
        assert(out@ =~= tool_header(all, streaming, tool_display));
        out.append("\n");
    }
    let body = cut_end_chars(&to_chars(text), Cut::WhiteSpace);
    out.append(from_chars(&body).as_str());
    assert(out@ =~= display_text(all, text@, streaming, tool_display));
    out
}

/// Where the tool with this id stands; past the end if there is none.
pub open spec fn position(list: Seq<Tool>, id: Seq<char>) -> nat
    decreases list.len(),
{
    if list.len() == 0 || list.first().id == id {
        0
    } else {
        1 + position(list.drop_first(), id)
    }
}

/// The tools once this one has started. One that is listed starts again under its new
/// title, where it stands; another is listed last.
pub open spec fn tool_started(list: Seq<Tool>, id: Seq<char>, title: Seq<char>) -> Seq<Tool> {
    let at = position(list, id) as int;
    let tool = Tool { id, title: flat_title(title), state: ToolState::Running };
    if at < list.len() {
        list.update(at, tool)
    } else {
        list.push(tool)
    }
}

/// How a tool ended.
pub open spec fn end_state(status: Seq<char>) -> ToolState {
    if status == "completed"@ {
        ToolState::Completed
    } else {
        ToolState::Failed
    }
}

/// The tools once this one has ended. One that is listed keeps its title unless it comes
/// with another; one that is not is listed last if it comes with a title.
pub open spec fn tool_ended(
    list: Seq<Tool>,
    id: Seq<char>,
    title: Seq<char>,
    status: Seq<char>,
) -> Seq<Tool> {
    let at = position(list, id) as int;
    let state = end_state(status);
    if at < list.len() {
        if title.len() > 0 {
            list.update(at, Tool { id, title: flat_title(title), state })
        } else {
            list.update(at, Tool { id, title: list[at].title, state })
        }
    } else if title.len() > 0 {
        list.push(Tool { id, title: flat_title(title), state })
    } else {
        list
    }
}

proof fn lemma_position(list: Seq<Tool>, id: Seq<char>, at: int)
    requires
        0 <= at <= list.len(),
        forall|j: int| 0 <= j < at ==> (#[trigger] list[j]).id != id,
        at < list.len() ==> list[at].id == id,
    ensures
        position(list, id) == at,
    decreases list.len(),
{
    if at > 0 {
        assert(list[0].id != id);
        assert forall|j: int| 0 <= j < at - 1 implies (#[trigger] list.drop_first()[j]).id
            != id by {
            assert(list.drop_first()[j] == list[j + 1]);
        }
        lemma_position(list.drop_first(), id, at - 1);
    }
}

pub(crate) proof fn lemma_position_found(list: Seq<Tool>, id: Seq<char>)
    ensures
        position(list, id) <= list.len(),
        position(list, id) < list.len() ==> list[position(list, id) as int].id == id,
        forall|j: int| 0 <= j < position(list, id) ==> (#[trigger] list[j]).id != id,
    decreases list.len(),
{
    if list.len() > 0 && list.first().id != id {
        let rest = list.drop_first();
        lemma_position_found(rest, id);
        assert forall|j: int| 0 <= j < position(list, id) implies (#[trigger] list[j]).id
            != id by {
            if j > 0 {
                assert(list[j] == rest[j - 1]);
            }
        }
    }
}

fn find_tool(list: &[ToolEntry], id: &String) -> (at: usize)
    ensures
        at == position(tools(list@), id@),
        at <= list.len(),
{
    let mut at: usize = 0;
    while at < list.len() && list[at].id != *id
        invariant
            at <= list.len(),
            forall|j: int| 0 <= j < at ==> (#[trigger] tools(list@)[j]).id != id@,
        decreases list.len() - at,
    {
        at = at + 1;
    }
    proof {
        lemma_position(tools(list@), id@, at as int);
    }
    at
}

/// Lists a tool that has started.
pub fn start_tool(list: &mut Vec<ToolEntry>, id: String, title: &str)
    ensures
        tools(final(list)@) == tool_started(tools(old(list)@), id@, title@),
{
    let ghost before = tools(list@);
    let at: usize = find_tool(list, &id);
    let entry = ToolEntry { id, title: sanitize_title(title), state: ToolState::Running };
    if at < list.len() {
        list.set(at, entry);
    } else {
        list.push(entry);
    }
    assert(tools(list@) =~= tool_started(before, id@, title@));
}

/// Lists a tool that has ended.
pub fn end_tool(list: &mut Vec<ToolEntry>, id: String, title: &str, status: &str)
    ensures
        tools(final(list)@) == tool_ended(tools(old(list)@), id@, title@, status@),
{
    let ghost before = tools(list@);
    let at: usize = find_tool(list, &id);
    let state = if same_text(&to_chars(status), "completed") {
        ToolState::Completed
    } else {
        ToolState::Failed
    };
    if at < list.len() {
        let shown = if title.is_empty() {
            list[at].title.clone()
        } else {
            sanitize_title(title)
        };
        list.set(at, ToolEntry { id, title: shown, state });
    } else if !title.is_empty() {
        list.push(ToolEntry { id, title: sanitize_title(title), state });
    }
    assert(tools(list@) =~= tool_ended(before, id@, title@, status@));
}

/// What every list of tool calls keeps: no two share an id, and every title is one line.
pub open spec fn well_listed(list: Seq<Tool>) -> bool {
    &&& forall|i: int, j: int| 0 <= i < j < list.len() ==> (#[trigger] list[i]).id != (
    #[trigger] list[j]).id
    &&& forall|i: int| 0 <= i < list.len() ==> is_flat((#[trigger] list[i]).title)
}

/// Listing a tool that starts or ends keeps ids apart and titles on one line.
pub proof fn listing_tools_keeps_them_well_listed(
    list: Seq<Tool>,
    id: Seq<char>,
    title: Seq<char>,
    status: Seq<char>,
)
    requires
        well_listed(list),
    ensures
        well_listed(tool_started(list, id, title)),
        well_listed(tool_ended(list, id, title, status)),
{
    lemma_position_found(list, id);
    sanitized_titles_are_flat(title);
}

/// No tool is forgotten: each keeps its place and its id when another starts or ends.
pub proof fn listed_tools_keep_their_place(
    list: Seq<Tool>,
    id: Seq<char>,
    title: Seq<char>,
    status: Seq<char>,
    i: int,
)
    requires
        0 <= i < list.len(),
    ensures
        tool_started(list, id, title)[i].id == list[i].id,
        tool_ended(list, id, title, status)[i].id == list[i].id,
        list[i].id != id ==> tool_started(list, id, title)[i] == list[i],
        list[i].id != id ==> tool_ended(list, id, title, status)[i] == list[i],
{
    lemma_position_found(list, id);
}

/// A sanitized title is one line without backquotes.
pub proof fn sanitized_titles_are_flat(title: Seq<char>)
    ensures
        is_flat(flat_title(title)),
    decreases title.len(),
{
    if title.len() > 0 {
        sanitized_titles_are_flat(title.drop_last());
    }
}

/// A title that needs no change is left as it is.
pub proof fn flat_titles_are_kept(title: Seq<char>)
    requires
        is_flat(title),
    ensures
        flat_title(title) == title,
    decreases title.len(),
{
    if title.len() > 0 {
        assert(is_flat(title.drop_last())) by {
            assert forall|i: int| 0 <= i < title.drop_last().len() implies {
                &&& #[trigger] title.drop_last()[i] != '\r'
                &&& title.drop_last()[i] != '\n'
                &&& title.drop_last()[i] != '`'
            } by {
                assert(title.drop_last()[i] == title[i]);
            }
        }
        flat_titles_are_kept(title.drop_last());
        assert(title.last() == title[title.len() - 1]);
        assert(flat_title(title) =~= title);
    } else {
        assert(flat_title(title) =~= title);
    }
}

/// Sanitizing twice is sanitizing once.
pub proof fn sanitizing_is_idempotent(title: Seq<char>)
    ensures
        flat_title(flat_title(title)) == flat_title(title),
{
    sanitized_titles_are_flat(title);
    flat_titles_are_kept(flat_title(title));
}

/// Whatever is shown of the tools, the display ends with the text.
pub proof fn displays_end_with_the_text(
    list: Seq<Tool>,
    body: Seq<char>,
    streaming: bool,
    display: ToolDisplay,
)
    ensures
        text::trim_end(body).is_suffix_of(display_text(list, body, streaming, display)),
{
    let shown = text::trim_end(body);
    let d = display_text(list, body, streaming, display);
    assert(shown =~= d.subrange(d.len() - shown.len(), d.len() as int));
}

/// A compact display depends on how many tools there are in each state, and on nothing
/// else of them: no title shows.
pub proof fn compact_displays_show_only_counts(
    a: Seq<Tool>,
    b: Seq<Tool>,
    body: Seq<char>,
    streaming_a: bool,
    streaming_b: bool,
)
    requires
        forall|state: ToolState| #[trigger]
            in_state(a, state).len() == in_state(b, state).len(),
    ensures
        display_text(a, body, streaming_a, ToolDisplay::Compact) == display_text(
            b,
            body,
            streaming_b,
            ToolDisplay::Compact,
        ),
{
    lemma_states_partition(a);
    lemma_states_partition(b);
    assert(in_state(a, ToolState::Completed).len() == in_state(b, ToolState::Completed).len());
    assert(in_state(a, ToolState::Failed).len() == in_state(b, ToolState::Failed).len());
    assert(in_state(a, ToolState::Running).len() == in_state(b, ToolState::Running).len());
}

proof fn lemma_rendered_lines_hold(list: Seq<Tool>, i: int) -> (at: int)
    requires
        0 <= i < list.len(),
    ensures
        0 <= at,
        at + rendered(list[i]).len() <= rendered_lines(list).len(),
        rendered_lines(list).subrange(at, at + rendered(list[i]).len()) == rendered(list[i]),
    decreases list.len(),
{
    let front = rendered_lines(list.drop_last());
    if i == list.len() - 1 {
        let at = front.len() as int;
        assert(rendered_lines(list).subrange(at, at + rendered(list[i]).len()) =~= rendered(
            list[i],
        ));
        at
    } else {
        let at = lemma_rendered_lines_hold(list.drop_last(), i);
        assert(rendered_lines(list).subrange(at, at + rendered(list[i]).len())
            =~= front.subrange(at, at + rendered(list[i]).len()));
        at
    }
}

/// The full display of a finished run shows every tool call with its whole title.
pub proof fn full_displays_show_every_tool(list: Seq<Tool>, body: Seq<char>, i: int)
    requires
        0 <= i < list.len(),
    ensures
        exists|at: int|
            0 <= at && at + rendered(list[i]).len() <= display_text(
                list,
                body,
                false,
                ToolDisplay::Full,
            ).len() && #[trigger] display_text(list, body, false, ToolDisplay::Full).subrange(
                at,
                at + rendered(list[i]).len(),
            ) == rendered(list[i]),
{
    let d = display_text(list, body, false, ToolDisplay::Full);
    let at = lemma_rendered_lines_hold(list, i);
    assert(d.subrange(at, at + rendered(list[i]).len()) =~= rendered_lines(list).subrange(
        at,
        at + rendered(list[i]).len(),
    ));
}

/// How many line feeds a text holds.
pub open spec fn newlines(s: Seq<char>) -> nat
    decreases s.len(),
{
    if s.len() == 0 {
        0
    } else {
        newlines(s.drop_last()) + if s.last() == '\n' {
            1nat
        } else {
            0nat
        }
    }
}

proof fn lemma_newlines_add(a: Seq<char>, b: Seq<char>)
    ensures
        newlines(a + b) == newlines(a) + newlines(b),
    decreases b.len(),
{
    if b.len() == 0 {
        assert(a + b =~= a);
    } else {
        lemma_newlines_add(a, b.drop_last());
        assert((a + b).drop_last() =~= a + b.drop_last());
        assert((a + b).last() == b.last());
    }
}

proof fn lemma_no_newlines(s: Seq<char>)
    requires
        forall|i: int| 0 <= i < s.len() ==> s[i] != '\n',
    ensures
        newlines(s) == 0,
    decreases s.len(),
{
    if s.len() > 0 {
        assert(forall|i: int| 0 <= i < s.len() - 1 ==> s.drop_last()[i] == s[i]);
        lemma_no_newlines(s.drop_last());
    }
}

proof fn lemma_decimal_newlines(n: nat)
    ensures
        newlines(text::decimal(n)) == 0,
    decreases n,
{
    if n < 10 {
        assert(text::decimal(n).drop_last() =~= Seq::empty());
        assert(newlines(text::decimal(n).drop_last()) == 0);
    } else {
        lemma_decimal_newlines(n / 10);
        assert(text::decimal(n).drop_last() =~= text::decimal(n / 10));
    }
}

proof fn lemma_icon_newlines(state: ToolState)
    ensures
        newlines(icon(state)) == 0,
{
    reveal_strlit("🔧");
    reveal_strlit("✅");
    reveal_strlit("❌");
    lemma_no_newlines(icon(state));
}

proof fn lemma_rendered_newlines(tool: Tool)
    requires
        is_flat(tool.title),
    ensures
        newlines(rendered(tool)) == 0,
{
    reveal_strlit(" `");
    reveal_strlit("`");
    reveal_strlit("...");
    reveal_strlit("");
    lemma_icon_newlines(tool.state);
    lemma_no_newlines(" `"@);
    lemma_no_newlines("`"@);
    lemma_no_newlines("..."@);
    lemma_no_newlines(""@);
    lemma_no_newlines(tool.title);
    let a = icon(tool.state);
    lemma_newlines_add(a, " `"@);
    lemma_newlines_add(a + " `"@, tool.title);
    lemma_newlines_add(a + " `"@ + tool.title, "`"@);
    lemma_newlines_add(a + " `"@ + tool.title + "`"@, "..."@);
    lemma_newlines_add(a + " `"@ + tool.title + "`"@, ""@);
}

proof fn lemma_rendered_lines_newlines(list: Seq<Tool>)
    requires
        forall|i: int| 0 <= i < list.len() ==> is_flat((#[trigger] list[i]).title),
    ensures
        newlines(rendered_lines(list)) == list.len(),
    decreases list.len(),
{
    if list.len() > 0 {
        assert(forall|i: int| 0 <= i < list.len() - 1 ==> list.drop_last()[i] == list[i]);
        lemma_rendered_lines_newlines(list.drop_last());
        let front = rendered_lines(list.drop_last());
        lemma_rendered_newlines(list.last());
        reveal_strlit("\n");
        assert("\n"@.drop_last() =~= Seq::empty());
        assert(newlines("\n"@.drop_last()) == 0);
        lemma_newlines_add(front, rendered(list.last()));
        lemma_newlines_add(front + rendered(list.last()), "\n"@);
    }
}

proof fn lemma_counts_newlines(done: nat, failed: nat, running: nat)
    ensures
        newlines(counts(done, failed, running)) == 0,
{
    let sep = " · "@;
    reveal_strlit(" · ");
    lemma_no_newlines(sep);
    lemma_part_newlines(ToolState::Completed, done);
    lemma_part_newlines(ToolState::Failed, failed);
    lemma_part_newlines(ToolState::Running, running);
    let parts = count_part(ToolState::Completed, done) + count_part(ToolState::Failed, failed)
        + count_part(ToolState::Running, running);
    lemma_join_newlines(parts, sep);
}

proof fn lemma_part_newlines(state: ToolState, n: nat)
    ensures
        n > 0 ==> newlines(count_part(state, n)[0]) == 0,
{
    reveal_strlit(" ");
    lemma_no_newlines(" "@);
    lemma_icon_newlines(state);
    lemma_decimal_newlines(n);
    lemma_newlines_add(icon(state), " "@);
    lemma_newlines_add(icon(state) + " "@, text::decimal(n));
}

proof fn lemma_join_newlines(parts: Seq<Seq<char>>, sep: Seq<char>)
    requires
        newlines(sep) == 0,
        forall|i: int| 0 <= i < parts.len() ==> newlines(#[trigger] parts[i]) == 0,
    ensures
        newlines(text::join(parts, sep)) == 0,
    decreases parts.len(),
{
    if parts.len() > 1 {
        assert(forall|i: int| 0 <= i < parts.len() - 1 ==> parts.drop_last()[i] == parts[i]);
        lemma_join_newlines(parts.drop_last(), sep);
        let front = text::join(parts.drop_last(), sep);
        lemma_newlines_add(front, sep);
        lemma_newlines_add(front + sep, parts.last());
    }
}

proof fn lemma_filter_flat(list: Seq<Tool>, p: spec_fn(Tool) -> bool)
    requires
        forall|i: int| 0 <= i < list.len() ==> is_flat((#[trigger] list[i]).title),
    ensures
        forall|i: int| 0 <= i < list.filter(p).len() ==> is_flat((#[trigger] list.filter(p)[i]).title),
    decreases list.len(),
{
    reveal(Seq::filter);
    if list.len() > 0 {
        assert(forall|i: int| 0 <= i < list.len() - 1 ==> list.drop_last()[i] == list[i]);
        lemma_filter_flat(list.drop_last(), p);
    }
}

/// However many tools a run has called, its display holds few lines for them while it goes
/// on: one for each finished tool or one for all, and one for each of the last running
/// tools after one for those left out.
pub proof fn streaming_displays_stay_short(list: Seq<Tool>)
    requires
        forall|i: int| 0 <= i < list.len() ==> is_flat((#[trigger] list[i]).title),
    ensures
        newlines(tool_header(list, true, ToolDisplay::Full)) <= 2 * TOOL_COLLAPSE_THRESHOLD + 1,
{
    let done = in_state(list, ToolState::Completed).len();
    let failed = in_state(list, ToolState::Failed).len();
    let running = in_state(list, ToolState::Running);
    lemma_filter_flat(list, |t: Tool| t.state != ToolState::Running);
    let state = ToolState::Running;
    lemma_filter_flat(list, |t: Tool| t.state == state);
    reveal_strlit(" tool(s) completed\n");
    reveal_strlit("🔧 ");
    reveal_strlit(" more running\n");
    assert(newlines(finished_header(list)) <= TOOL_COLLAPSE_THRESHOLD) by {
        if finished(list).len() <= TOOL_COLLAPSE_THRESHOLD {
            lemma_rendered_lines_newlines(finished(list));
        } else {
            let line = " tool(s) completed\n"@;
            lemma_counts_newlines(done, failed, 0);
            lemma_newlines_add(counts(done, failed, 0), line);
            lemma_no_newlines(line.drop_last());
        }
    }
    assert(newlines(running_header(list)) <= TOOL_COLLAPSE_THRESHOLD + 1) by {
        if running.len() <= TOOL_COLLAPSE_THRESHOLD {
            lemma_rendered_lines_newlines(running);
        } else {
            let hidden = (running.len() - TOOL_COLLAPSE_THRESHOLD) as nat;
            let shown = running.skip(hidden as int);
            let line = " more running\n"@;
            assert(forall|i: int| 0 <= i < shown.len() ==> shown[i] == running[i + hidden]);
            lemma_rendered_lines_newlines(shown);
            lemma_decimal_newlines(hidden);
            lemma_no_newlines("🔧 "@);
            lemma_no_newlines(line.drop_last());
            lemma_newlines_add("🔧 "@, text::decimal(hidden));
            lemma_newlines_add("🔧 "@ + text::decimal(hidden), line);
            lemma_newlines_add(
                "🔧 "@ + text::decimal(hidden) + line,
                rendered_lines(shown),
            );
        }
    }
    lemma_newlines_add(finished_header(list), running_header(list));
}

} // verus!
