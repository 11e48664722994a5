//! Routing a user's message to the agent: what the agent is prompted with, and what happens
//! around the run.
use crate::adapter::ChatAdapter;
use crate::channel;
use crate::channel::{thread_key, ChannelRef};
use crate::config::{ReactionTiming, ReactionsConfig, UploadsConfig};
use crate::stream::StreamPlan;
use crate::text;
use crate::text::copy_text;
use std::sync::Arc;
use vstd::prelude::*;

verus! {

/// A part of a prompt. `B` is what parts other than text hold.
#[derive(Debug)]
pub enum ContentBlock<B> {
    Text { text: String },
    Other(B),
}

/// What a content block holds.
pub enum Block<B> {
    Text(Seq<char>),
    Other(B),
}

impl<B> View for ContentBlock<B> {
    type V = Block<B>;

    open spec fn view(&self) -> Block<B> {
        match *self {
            ContentBlock::Text { text } => Block::Text(text@),
            ContentBlock::Other(b) => Block::Other(b),
        }
    }
}

/// What each block of a list holds.
pub open spec fn blocks<B>(list: Seq<ContentBlock<B>>) -> Seq<Block<B>> {
    list.map_values(|b: ContentBlock<B>| b@)
}

/// The prompt with the sender in front of it.
pub open spec fn prompt_text(sender_json: Seq<char>, prompt: Seq<char>) -> Seq<char> {
    "<sender_context>\n"@ + sender_json + "\n</sender_context>\n\n"@ + prompt
}

/// The text blocks of a list, in order.
pub open spec fn text_blocks<B>(list: Seq<Block<B>>) -> Seq<Block<B>> {
    list.filter(|b: Block<B>| b is Text)
}

/// The blocks of a list that are no text, in order.
pub open spec fn other_blocks<B>(list: Seq<Block<B>>) -> Seq<Block<B>> {
    list.filter(|b: Block<B>| !(b is Text))
}

/// What the agent is prompted with: the extra text blocks (transcripts), the prompt, and
/// the other extra blocks (images).
pub open spec fn prompt_blocks<B>(
    sender_json: Seq<char>,
    prompt: Seq<char>,
    extra: Seq<Block<B>>,
) -> Seq<Block<B>> {
    text_blocks(extra) + seq![Block::Text(prompt_text(sender_json, prompt))] + other_blocks(extra)
}

fn prompt_with_sender(sender_json: &str, prompt: &str) -> (r: String)
    ensures
        r@ == prompt_text(sender_json@, prompt@),
{
    let mut out: String = copy_text("<sender_context>\n");
    out.append(sender_json);
    out.append("\n</sender_context>\n\n");
    out.append(prompt);
    assert(out@ =~= prompt_text(sender_json@, prompt@));
    out
}

proof fn lemma_filter_step<B>(list: Seq<Block<B>>, i: int, p: spec_fn(Block<B>) -> bool)
    requires
        0 <= i < list.len(),
    ensures
        list.take(i + 1).filter(p) == if p(list[i]) {
            list.take(i).filter(p).push(list[i])
        } else {
            list.take(i).filter(p)
        },
{
    reveal(Seq::filter);
    assert(list.take(i + 1).drop_last() =~= list.take(i));
}

/// Puts together what the agent is prompted with.
pub fn build_prompt_blocks<B>(
    sender_json: &str,
    prompt: &str,
    extra_blocks: Vec<ContentBlock<B>>,
) -> (r: Vec<ContentBlock<B>>)
    ensures
        blocks(r@) == prompt_blocks(sender_json@, prompt@, blocks(extra_blocks@)),
{
    let ghost extra = blocks(extra_blocks@);
    let ghost p = |b: Block<B>| b is Text;
    let ghost q = |b: Block<B>| !(b is Text);
    let mut content_blocks: Vec<ContentBlock<B>> = Vec::new();
    let mut others: Vec<ContentBlock<B>> = Vec::new();
    proof {
        reveal(Seq::filter);
        assert(blocks(content_blocks@) =~= extra.take(0).filter(p));
        assert(blocks(others@) =~= extra.take(0).filter(q));
    }
    for block in it: extra_blocks
        invariant
            extra == blocks(extra_blocks@),
            it.seq() == extra_blocks@,
            p == (|b: Block<B>| b is Text),
            q == (|b: Block<B>| !(b is Text)),
            blocks(content_blocks@) == extra.take(it.index()).filter(p),
            blocks(others@) == extra.take(it.index()).filter(q),
    {
        let ghost i = it.index();
        let ghost texts_before = content_blocks@;
        let ghost others_before = others@;
        proof {
            assert(extra[i] == block@);
            lemma_filter_step(extra, i, p);
            lemma_filter_step(extra, i, q);
        }
        match block {
            ContentBlock::Text { text } => {
                content_blocks.push(ContentBlock::Text { text });
                assert(blocks(content_blocks@) =~= blocks(texts_before).push(extra[i]));
            },
            ContentBlock::Other(b) => {
                others.push(ContentBlock::Other(b));
                assert(blocks(others@) =~= blocks(others_before).push(extra[i]));
            },
        }
    }
    assert(extra.take(extra.len() as int) =~= extra);
    let ghost texts = content_blocks@;
    let ghost rest = others@;
    let text = prompt_with_sender(sender_json, prompt);
    content_blocks.push(ContentBlock::Text { text });
    content_blocks.append(&mut others);
    assert(blocks(content_blocks@) =~= blocks(texts) + seq![Block::Text(text@)] + blocks(rest));
    content_blocks
}

/// A prompt, and the session that it goes to.
pub struct Prompt<B> {
    pub thread_key: String,
    pub content_blocks: Vec<ContentBlock<B>>,
}

/// What is heard while a message is handled.
pub enum MessageEvent {
    /// The session was opened, or could not be: the error in the user's words.
    SessionOpened(Result<(), String>),
    /// The run ended, well or with an error.
    RunEnded(Result<(), String>),
}

/// What such an event holds.
pub enum Happened {
    SessionOpened(Result<(), Seq<char>>),
    RunEnded(Result<(), Seq<char>>),
}

/// Whether something went well, or what went wrong.
pub open spec fn outcome(r: Result<(), String>) -> Result<(), Seq<char>> {
    match r {
        Ok(()) => Ok(()),
        Err(error) => Err(error@),
    }
}

impl View for MessageEvent {
    type V = Happened;

    open spec fn view(&self) -> Happened {
        match *self {
            MessageEvent::SessionOpened(r) => Happened::SessionOpened(outcome(r)),
            MessageEvent::RunEnded(r) => Happened::RunEnded(outcome(r)),
        }
    }
}

/// What is to be done while a message is handled.
pub enum MessageAction {
    /// Show that the message waits.
    SetQueued,
    /// Prompt the agent.
    StreamPrompt,
    /// Show that the run went well.
    SetDone,
    /// Show that the run went wrong.
    SetError,
    /// Take the reactions away after this many milliseconds.
    ClearAfter(u64),
    /// Tell the user.
    Notify(String),
}

/// What such an action holds.
pub enum Task {
    SetQueued,
    StreamPrompt,
    SetDone,
    SetError,
    ClearAfter(nat),
    Notify(Seq<char>),
}

impl View for MessageAction {
    type V = Task;

    open spec fn view(&self) -> Task {
        match *self {
            MessageAction::SetQueued => Task::SetQueued,
            MessageAction::StreamPrompt => Task::StreamPrompt,
            MessageAction::SetDone => Task::SetDone,
            MessageAction::SetError => Task::SetError,
            MessageAction::ClearAfter(ms) => Task::ClearAfter(ms as nat),
            MessageAction::Notify(t) => Task::Notify(t@),
        }
    }
}

/// What each action of a list holds.
pub open spec fn tasks(list: Seq<MessageAction>) -> Seq<Task> {
    list.map_values(|a: MessageAction| a@)
}

/// How far a message has been handled.
#[derive(Clone, Copy, Debug, PartialEq, Eq, Structural)]
pub enum MessageStage {
    /// Its session is being opened.
    Opening,
    /// The agent is at work.
    Running,
    /// It has been handled.
    Over,
}

/// A warning to the user.
pub open spec fn warning(t: Seq<char>) -> Seq<char> {
    "⚠️ "@ + t
}

/// The handling of a message.
pub struct Handling {
    pub remove_after_reply: bool,
    pub timing: ReactionTiming,
    pub stage: MessageStage,
}

impl Handling {
    /// How long the last reaction stays.
    pub open spec fn hold_ms(self, ok: bool) -> nat {
        if ok {
            self.timing.done_hold_ms as nat
        } else {
            self.timing.error_hold_ms as nat
        }
    }

    /// The handling after an event. One that does not fit changes nothing.
    pub open spec fn after(self, event: Happened) -> Handling {
        match (self.stage, event) {
            (MessageStage::Opening, Happened::SessionOpened(Ok(()))) => Handling {
                stage: MessageStage::Running,
                ..self
            },
            (MessageStage::Opening, Happened::SessionOpened(Err(_))) => Handling {
                stage: MessageStage::Over,
                ..self
            },
            (MessageStage::Running, Happened::RunEnded(_)) => Handling {
                stage: MessageStage::Over,
                ..self
            },
            _ => self,
        }
    }

    /// What is done about an event.
    pub open spec fn tasks(self, event: Happened) -> Seq<Task> {
        match (self.stage, event) {
            (MessageStage::Opening, Happened::SessionOpened(Ok(()))) => seq![
                Task::SetQueued,
                Task::StreamPrompt,
            ],
            (MessageStage::Opening, Happened::SessionOpened(Err(error))) => seq![
                Task::Notify(warning(error)),
            ],
            (MessageStage::Running, Happened::RunEnded(result)) => {
                let reaction = if result is Ok {
                    seq![Task::SetDone]
                } else {
                    seq![Task::SetError]
                };
                let clear = if self.remove_after_reply {
                    seq![Task::ClearAfter(self.hold_ms(result is Ok))]
                } else {
                    Seq::empty()
                };
                let notice = match result {
                    Ok(()) => Seq::empty(),
                    Err(error) => seq![Task::Notify(warning(error))],
                };
                reaction + clear + notice
            },
            _ => Seq::empty(),
        }
    }
}

/// The handling of a message.
pub struct MessageRun {
    remove_after_reply: bool,
    timing: ReactionTiming,
    stage: MessageStage,
}

impl View for MessageRun {
    type V = Handling;

    closed spec fn view(&self) -> Handling {
        Handling {
            remove_after_reply: self.remove_after_reply,
            timing: self.timing,
            stage: self.stage,
        }
    }
}

fn warning_text(t: &str) -> (r: String)
    ensures
        r@ == warning(t@),
{
    let mut out: String = copy_text("⚠️ ");
    out.append(t);
    out
}

impl MessageRun {
    /// The handling of a message whose session is being opened: whether the reactions are
    /// taken away at its end, and after how long.
    pub fn open(remove_after_reply: bool, timing: ReactionTiming) -> (r: MessageRun)
        ensures
            r@ == (Handling { remove_after_reply, timing, stage: MessageStage::Opening }),
    {
        MessageRun { remove_after_reply, timing, stage: MessageStage::Opening }
    }

    /// How far the message has been handled.
    pub fn stage(&self) -> (r: MessageStage)
        ensures
            r == self@.stage,
    {
        self.stage
    }

    /// Takes up an event, and says what to do about it, in order.
    pub fn hear(&mut self, event: MessageEvent) -> (r: Vec<MessageAction>)
        ensures
            final(self)@ == old(self)@.after(event@),
            tasks(r@) == old(self)@.tasks(event@),
    {
        let mut out: Vec<MessageAction> = Vec::new();
        match (self.stage, event) {
            (MessageStage::Opening, MessageEvent::SessionOpened(Ok(()))) => {
                out.push(MessageAction::SetQueued);
                out.push(MessageAction::StreamPrompt);
                self.stage = MessageStage::Running;
            },
            (MessageStage::Opening, MessageEvent::SessionOpened(Err(error))) => {
                out.push(MessageAction::Notify(warning_text(error.as_str())));
                self.stage = MessageStage::Over;
            },
            (MessageStage::Running, MessageEvent::RunEnded(result)) => {
                let ok: bool = result.is_ok();
                if ok {
                    out.push(MessageAction::SetDone);
                } else {
                    out.push(MessageAction::SetError);
                }
                if self.remove_after_reply {
                    let hold_ms: u64 = if ok {
                        self.timing.done_hold_ms
                    } else {
                        self.timing.error_hold_ms
                    };
                    out.push(MessageAction::ClearAfter(hold_ms));
                }
                match result {
                    Ok(()) => {},
                    Err(error) => {
                        out.push(MessageAction::Notify(warning_text(error.as_str())));
                    },
                }
                self.stage = MessageStage::Over;
            },
            _ => {},
        }
        assert(tasks(out@) =~= old(self)@.tasks(event@));
        out
    }
}

/// Shared logic for routing messages to agents, managing sessions, streaming edits, and
/// controlling reactions. Platform-independent. `P` is the pool of sessions, `E` which emoji
/// stands for what, `T` how tables are converted.
pub struct AdapterRouter<P, E, T> {
    pool: Arc<P>,
    reactions_config: ReactionsConfig<E>,
    table_mode: T,
    uploads_config: UploadsConfig,
}

/// What a router was made with.
pub struct Router<P, E, T> {
    pub pool: Arc<P>,
    pub reactions_config: ReactionsConfig<E>,
    pub table_mode: T,
    pub uploads_config: UploadsConfig,
}

impl<P, E, T> View for AdapterRouter<P, E, T> {
    type V = Router<P, E, T>;

    closed spec fn view(&self) -> Router<P, E, T> {
        Router {
            pool: self.pool,
            reactions_config: self.reactions_config,
            table_mode: self.table_mode,
            uploads_config: self.uploads_config,
        }
    }
}

impl<P, E, T> AdapterRouter<P, E, T> {
    pub fn new(
        pool: Arc<P>,
        reactions_config: ReactionsConfig<E>,
        table_mode: T,
        uploads_config: UploadsConfig,
    ) -> (r: Self)
        ensures
            r@ == (Router { pool, reactions_config, table_mode, uploads_config }),
    {
        AdapterRouter { pool, reactions_config, table_mode, uploads_config }
    }

    /// Access the underlying session pool (e.g. for config option queries).
    pub fn pool(&self) -> (r: &Arc<P>)
        ensures
            *r == self@.pool,
    {
        &self.pool
    }

    pub fn reactions_config(&self) -> (r: &ReactionsConfig<E>)
        ensures
            *r == self@.reactions_config,
    {
        &self.reactions_config
    }

    pub fn table_mode(&self) -> (r: &T)
        ensures
            *r == self@.table_mode,
    {
        &self.table_mode
    }

    pub fn uploads_config(&self) -> (r: &UploadsConfig)
        ensures
            *r == self@.uploads_config,
    {
        &self.uploads_config
    }

    /// Starts the handling of a user's message: what the agent is prompted with, in which
    /// session, and what is heard and done on the way. The adapter's own answer decides the
    /// platform in the session's key.
    pub fn handle_message<A: ChatAdapter + ?Sized, B>(
        &self,
        adapter: &A,
        thread_channel: &ChannelRef,
        sender_json: &str,
        prompt: &str,
        extra_blocks: Vec<ContentBlock<B>>,
    ) -> (r: (Prompt<B>, MessageRun))
        ensures
            blocks(r.0.content_blocks@) == prompt_blocks(
                sender_json@,
                prompt@,
                blocks(extra_blocks@),
            ),
            exists|platform: &'static str| #[trigger]
                call_ensures(A::platform, (adapter,), platform) && r.0.thread_key@
                    == channel::session_key(platform@, thread_channel.session_id()),
            r.1@ == (Handling {
                remove_after_reply: self@.reactions_config.remove_after_reply,
                timing: self@.reactions_config.timing,
                stage: MessageStage::Opening,
            }),
    {
        let content_blocks = build_prompt_blocks(sender_json, prompt, extra_blocks);
        let key = thread_key(adapter.platform(), thread_channel);
        let run = MessageRun::open(
            self.reactions_config.remove_after_reply,
            self.reactions_config.timing,
        );
        (Prompt { thread_key: key, content_blocks }, run)
    }

    /// How a run shows itself: as the adapter says for its platform, and as configured.
    pub fn stream_prompt<A: ChatAdapter + ?Sized>(
        &self,
        adapter: &A,
        other_bot_present: bool,
    ) -> (r: StreamPlan)
        ensures
            call_ensures(A::message_limit, (adapter,), r.message_limit),
            call_ensures(A::use_streaming, (adapter, other_bot_present), r.streaming),
            r.tool_display == self@.reactions_config.tool_display,
    {
        StreamPlan {
            message_limit: adapter.message_limit(),
            streaming: adapter.use_streaming(other_bot_present),
            tool_display: self.reactions_config.tool_display,
        }
    }
}

proof fn lemma_filters_split<B>(list: Seq<Block<B>>)
    ensures
        text_blocks(list).len() + other_blocks(list).len() == list.len(),
        (text_blocks(list) + other_blocks(list)).to_multiset() == list.to_multiset(),
    decreases list.len(),
{
    reveal(Seq::filter);
    broadcast use vstd::seq_lib::group_to_multiset_ensures;

    if list.len() == 0 {
        assert(text_blocks(list) + other_blocks(list) =~= list);
    } else {
        let front = list.drop_last();
        let last = list.last();
        lemma_filters_split(front);
        let a = text_blocks(front);
        let b = other_blocks(front);
        assert(list =~= front.push(last));
        vstd::seq_lib::lemma_multiset_commutative(a, b);
        vstd::seq_lib::lemma_multiset_commutative(a.push(last), b);
        vstd::seq_lib::lemma_multiset_commutative(a, b.push(last));
        assert(list.to_multiset() =~= front.to_multiset().insert(last));
        assert((text_blocks(list) + other_blocks(list)).to_multiset() =~= list.to_multiset());
    }
}

/// Nothing that comes with a message is lost: the prompt holds each extra block as often
/// as the message does, and the prompt text once more.
pub proof fn prompts_hold_every_extra_block<B>(
    sender_json: Seq<char>,
    prompt: Seq<char>,
    extra: Seq<Block<B>>,
)
    ensures
        prompt_blocks(sender_json, prompt, extra).len() == extra.len() + 1,
        prompt_blocks(sender_json, prompt, extra).to_multiset() == extra.to_multiset().insert(
            Block::Text(prompt_text(sender_json, prompt)),
        ),
{
    broadcast use vstd::seq_lib::group_to_multiset_ensures;

    let a = text_blocks(extra);
    let b = other_blocks(extra);
    let t = Block::<B>::Text(prompt_text(sender_json, prompt));
    lemma_filters_split(extra);
    assert(a + seq![t] =~= a.push(t));
    vstd::seq_lib::lemma_multiset_commutative(a, b);
    vstd::seq_lib::lemma_multiset_commutative(a.push(t), b);
    assert(prompt_blocks(sender_json, prompt, extra).to_multiset() =~= extra.to_multiset().insert(t));
}

/// The agent reads the prompt after every transcript and before every image.
pub proof fn prompts_put_text_first<B>(
    sender_json: Seq<char>,
    prompt: Seq<char>,
    extra: Seq<Block<B>>,
    i: int,
)
    requires
        0 <= i < prompt_blocks(sender_json, prompt, extra).len(),
    ensures
        prompt_blocks(sender_json, prompt, extra)[i] is Text <==> i <= text_blocks(extra).len(),
        prompt_blocks(sender_json, prompt, extra)[text_blocks(extra).len() as int]
            == Block::<B>::Text(prompt_text(sender_json, prompt)),
{
    lemma_filters_hold(extra);
    let a = text_blocks(extra);
    if i < a.len() {
        assert(prompt_blocks(sender_json, prompt, extra)[i] == a[i]);
    } else if i > a.len() {
        assert(prompt_blocks(sender_json, prompt, extra)[i] == other_blocks(extra)[i - a.len() - 1]);
    }
}

proof fn lemma_filters_hold<B>(list: Seq<Block<B>>)
    ensures
        forall|i: int| 0 <= i < text_blocks(list).len() ==> #[trigger] text_blocks(list)[i] is Text,
        forall|i: int|
            0 <= i < other_blocks(list).len() ==> !(#[trigger] other_blocks(list)[i] is Text),
    decreases list.len(),
{
    reveal(Seq::filter);
    if list.len() > 0 {
        lemma_filters_hold(list.drop_last());
    }
}

/// The user is told of an error exactly when something went wrong, and a run's last
/// reaction says how it ended.
pub proof fn errors_reach_the_user(h: Handling, error: Seq<char>, told: Seq<char>)
    ensures
        h.stage == MessageStage::Opening ==> h.tasks(
            Happened::SessionOpened(Err(error)),
        ).contains(Task::Notify(warning(error))),
        h.stage == MessageStage::Running ==> h.tasks(Happened::RunEnded(Err(error))).contains(
            Task::Notify(warning(error)),
        ),
        h.stage == MessageStage::Running ==> h.tasks(Happened::RunEnded(Err(error)))[0]
            == Task::SetError,
        h.stage == MessageStage::Running ==> h.tasks(Happened::RunEnded(Ok(())))[0]
            == Task::SetDone,
        !h.tasks(Happened::RunEnded(Ok(()))).contains(Task::Notify(told)),
        !h.tasks(Happened::SessionOpened(Ok(()))).contains(Task::Notify(told)),
{
    if h.stage == MessageStage::Opening {
        assert(h.tasks(Happened::SessionOpened(Err(error)))[0] == Task::Notify(warning(error)));
    }
    if h.stage == MessageStage::Running {
        let list = h.tasks(Happened::RunEnded(Err(error)));
        assert(list[list.len() - 1] == Task::Notify(warning(error)));
    }
}

/// A message that has been handled asks for nothing more.
pub proof fn handled_messages_stay_handled(h: Handling, event: Happened)
    requires
        h.stage == MessageStage::Over,
    ensures
        h.after(event) == h,
        h.tasks(event).len() == 0,
{
}

} // verus!
