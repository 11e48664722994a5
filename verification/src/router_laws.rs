//! What the agent is prompted with, and what happens around a run, for every message.
use crate::router;
use crate::router::{Block, Handling, Happened, MessageStage, Task};
use vstd::prelude::*;

verus! {

/// The agent reads the user's message whole, at the end of the prompt; what stands before it
/// is the same for every message of a sender.
pub proof fn prompts_end_with_the_whole_message(
    sender_json: Seq<char>,
    prompt: Seq<char>,
    other: Seq<char>,
)
    ensures
        prompt.is_suffix_of(router::prompt_text(sender_json, prompt)),
        router::prompt_text(sender_json, prompt).len() - prompt.len() == router::prompt_text(
            sender_json,
            other,
        ).len() - other.len(),
        router::prompt_text(sender_json, prompt) == router::prompt_text(
            sender_json,
            Seq::empty(),
        ) + prompt,
{
    let all = router::prompt_text(sender_json, prompt);
    assert(all.subrange(all.len() - prompt.len(), all.len() as int) =~= prompt);
    assert(all =~= router::prompt_text(sender_json, Seq::empty()) + prompt);
}

/// Before the message stands the sender, whole, between the tags for it.
pub proof fn prompts_name_their_sender(sender_json: Seq<char>)
    ensures
        router::prompt_text(sender_json, Seq::empty()) == "<sender_context>\n"@ + (sender_json
            + "\n</sender_context>\n\n"@),
{
    assert(router::prompt_text(sender_json, Seq::empty()) =~= "<sender_context>\n"@ + (
    sender_json + "\n</sender_context>\n\n"@));
}

/// A prompt without extra blocks is one block of text. Each further extra block goes in
/// unchanged: text directly before the message, after the text that came before it; anything
/// else at the end.
pub proof fn extra_blocks_go_in_one_by_one<B>(
    sender_json: Seq<char>,
    prompt: Seq<char>,
    extra: Seq<Block<B>>,
    block: Block<B>,
)
    ensures
        router::prompt_blocks::<B>(sender_json, prompt, Seq::empty()) == seq![
            Block::<B>::Text(router::prompt_text(sender_json, prompt)),
        ],
        ({
            let before = router::prompt_blocks(sender_json, prompt, extra);
            let after = router::prompt_blocks(sender_json, prompt, extra.push(block));
            let message = router::text_blocks(extra).len() as int;
            &&& 0 <= message < before.len()
            &&& before[message] == Block::<B>::Text(router::prompt_text(sender_json, prompt))
            &&& forall|i: int| message < i < before.len() ==> !(#[trigger] before[i] is Text)
            &&& block is Text ==> after == before.insert(message, block)
            &&& !(block is Text) ==> after == before.push(block)
        }),
{
    reveal(Seq::filter);
    let none = Seq::<Block<B>>::empty();
    assert(router::text_blocks(none) =~= none);
    assert(router::other_blocks(none) =~= none);
    assert(router::prompt_blocks(sender_json, prompt, none) =~= seq![
        Block::<B>::Text(router::prompt_text(sender_json, prompt)),
    ]);
    assert(extra.push(block).drop_last() =~= extra);
    lemma_others(extra);
    let before = router::prompt_blocks(sender_json, prompt, extra);
    let after = router::prompt_blocks(sender_json, prompt, extra.push(block));
    let message = router::text_blocks(extra).len() as int;
    assert forall|i: int| message < i < before.len() implies !(#[trigger] before[i] is Text) by {
        assert(before[i] == router::other_blocks(extra)[i - message - 1]);
    }
    if block is Text {
        assert(router::text_blocks(extra.push(block)) =~= router::text_blocks(extra).push(block));
        assert(router::other_blocks(extra.push(block)) =~= router::other_blocks(extra));
        assert(after =~= before.insert(message, block));
    } else {
        assert(router::text_blocks(extra.push(block)) =~= router::text_blocks(extra));
        assert(router::other_blocks(extra.push(block)) =~= router::other_blocks(extra).push(
            block,
        ));
        assert(after =~= before.push(block));
    }
}

proof fn lemma_others<B>(list: Seq<Block<B>>)
    ensures
        forall|i: int|
            0 <= i < router::other_blocks(list).len() ==> !(#[trigger] router::other_blocks(
                list,
            )[i] is Text),
    decreases list.len(),
{
    reveal(Seq::filter);
    if list.len() > 0 {
        lemma_others(list.drop_last());
    }
}

/// A message whose session opens is queued and then handed to the agent; one whose session
/// does not open is over, and the user is told why.
pub proof fn messages_wait_for_their_session(h: Handling, error: Seq<char>)
    requires
        h.stage == MessageStage::Opening,
    ensures
        h.tasks(Happened::SessionOpened(Ok(()))) == seq![Task::SetQueued, Task::StreamPrompt],
        h.after(Happened::SessionOpened(Ok(()))) == (Handling {
            stage: MessageStage::Running,
            ..h
        }),
        h.tasks(Happened::SessionOpened(Err(error))) == seq![Task::Notify("⚠️ "@ + error)],
        h.after(Happened::SessionOpened(Err(error))) == (Handling {
            stage: MessageStage::Over,
            ..h
        }),
{
}

/// A run that ends sets the reaction for how it ended; where reactions are taken away, it
/// does so after the time configured for that end; and the user is told of an error.
pub proof fn runs_end_with_their_reaction(h: Handling, error: Seq<char>)
    requires
        h.stage == MessageStage::Running,
    ensures
        h.remove_after_reply ==> h.tasks(Happened::RunEnded(Ok(()))) == seq![
            Task::SetDone,
            Task::ClearAfter(h.timing.done_hold_ms as nat),
        ],
        !h.remove_after_reply ==> h.tasks(Happened::RunEnded(Ok(()))) == seq![Task::SetDone],
        h.remove_after_reply ==> h.tasks(Happened::RunEnded(Err(error))) == seq![
            Task::SetError,
            Task::ClearAfter(h.timing.error_hold_ms as nat),
            Task::Notify("⚠️ "@ + error),
        ],
        !h.remove_after_reply ==> h.tasks(Happened::RunEnded(Err(error))) == seq![
            Task::SetError,
            Task::Notify("⚠️ "@ + error),
        ],
        h.after(Happened::RunEnded(Ok(()))) == (Handling { stage: MessageStage::Over, ..h }),
        h.after(Happened::RunEnded(Err(error))) == (Handling { stage: MessageStage::Over, ..h }),
{
}

/// What does not fit the stage of a message asks for nothing and changes nothing: no run ends
/// before it began, and no session opens twice.
pub proof fn untimely_events_change_nothing(h: Handling, result: Result<(), Seq<char>>)
    ensures
        h.stage != MessageStage::Opening ==> h.after(Happened::SessionOpened(result)) == h
            && h.tasks(Happened::SessionOpened(result)).len() == 0,
        h.stage != MessageStage::Running ==> h.after(Happened::RunEnded(result)) == h && h.tasks(
            Happened::RunEnded(result),
        ).len() == 0,
{
}

} // verus!
