//! What holds of every final answer that goes out.
use crate::delivery;
use crate::delivery::{Progress, Step, FILES_PER_MESSAGE};
use crate::text;
use vstd::prelude::*;

verus! {

/// The numbers from `from` up to `to`.
pub open spec fn range(from: nat, to: nat) -> Seq<int> {
    Seq::new((to - from) as nat, |k: int| from + k)
}

/// Which attachments a step sends.
pub open spec fn files_of(step: Step) -> Seq<int> {
    match step {
        Step::SendFiles { from, to, .. } => range(from, to),
        _ => Seq::empty(),
    }
}

/// Which attachments the steps send, in order.
pub open spec fn files_sent(steps: Seq<Step>) -> Seq<int>
    decreases steps.len(),
{
    if steps.len() == 0 {
        Seq::empty()
    } else {
        files_of(steps.first()) + files_sent(steps.drop_first())
    }
}

/// The text of a step, if it shows one.
pub open spec fn text_of(step: Step) -> Seq<Seq<char>> {
    match step {
        Step::Edit(text) => seq![text],
        Step::Send(text) => seq![text],
        Step::SendFiles { text, .. } => if text.len() > 0 {
            seq![text]
        } else {
            Seq::empty()
        },
    }
}

/// The texts that the steps show, in order.
pub open spec fn texts_shown(steps: Seq<Step>) -> Seq<Seq<char>>
    decreases steps.len(),
{
    if steps.len() == 0 {
        Seq::empty()
    } else {
        text_of(steps.first()) + texts_shown(steps.drop_first())
    }
}

proof fn lemma_files_add(a: Seq<Step>, b: Seq<Step>)
    ensures
        files_sent(a + b) == files_sent(a) + files_sent(b),
    decreases a.len(),
{
    if a.len() == 0 {
        assert(a + b =~= b);
        assert(files_sent(a) + files_sent(b) =~= files_sent(b));
    } else {
        assert((a + b).drop_first() =~= a.drop_first() + b);
        lemma_files_add(a.drop_first(), b);
        assert(files_sent(a + b) =~= files_sent(a) + files_sent(b));
    }
}

proof fn lemma_texts_add(a: Seq<Step>, b: Seq<Step>)
    ensures
        texts_shown(a + b) == texts_shown(a) + texts_shown(b),
    decreases a.len(),
{
    if a.len() == 0 {
        assert(a + b =~= b);
        assert(texts_shown(a) + texts_shown(b) =~= texts_shown(b));
    } else {
        assert((a + b).drop_first() =~= a.drop_first() + b);
        lemma_texts_add(a.drop_first(), b);
        assert(texts_shown(a + b) =~= texts_shown(a) + texts_shown(b));
    }
}

proof fn lemma_one(step: Step)
    ensures
        files_sent(seq![step]) == files_of(step),
        texts_shown(seq![step]) == text_of(step),
{
    assert(seq![step].drop_first() =~= Seq::empty());
    assert(files_sent(seq![step].drop_first()) =~= Seq::empty());
    assert(texts_shown(seq![step].drop_first()) =~= Seq::empty());
    assert(files_sent(seq![step]) =~= files_of(step));
    assert(texts_shown(seq![step]) =~= text_of(step));
}

proof fn lemma_sends(chunks: Seq<Seq<char>>)
    ensures
        files_sent(delivery::sends(chunks)) == Seq::<int>::empty(),
        texts_shown(delivery::sends(chunks)) == chunks,
    decreases chunks.len(),
{
    let list = delivery::sends(chunks);
    if chunks.len() == 0 {
        assert(texts_shown(list) =~= chunks);
    } else {
        lemma_sends(chunks.drop_first());
        assert(list.drop_first() =~= delivery::sends(chunks.drop_first()));
        assert(list.first() == Step::Send(chunks.first()));
        assert(files_sent(list) =~= Seq::empty());
        assert(texts_shown(list) =~= chunks);
    }
}

proof fn lemma_file_steps(from: nat, files: nat)
    requires
        from <= files,
    ensures
        files_sent(delivery::file_steps(from, files)) == range(from, files),
        texts_shown(delivery::file_steps(from, files)) == Seq::<Seq<char>>::empty(),
    decreases files - from,
{
    let list = delivery::file_steps(from, files);
    if from < files {
        let to = delivery::batch_end(from, files);
        lemma_file_steps(to, files);
        reveal_strlit("");
        assert(list.drop_first() =~= delivery::file_steps(to, files));
        assert(files_sent(list) =~= range(from, files));
        assert(texts_shown(list) =~= Seq::empty());
    } else {
        assert(files_sent(list) =~= range(from, files));
    }
}

/// Every attachment goes out once, and they go out in order.
pub proof fn every_file_goes_out_once(
    has_placeholder: bool,
    chunks: Seq<Seq<char>>,
    files: nat,
)
    ensures
        files_sent(delivery::final_steps(has_placeholder, chunks, files)) == range(0, files),
{
    lemma_file_steps(0, files);
    if chunks.len() == 0 {
        if files > 0 && has_placeholder {
            let a = seq![Step::Edit(delivery::uploading_note(files))];
            let b = delivery::file_steps(0, files);
            let c = seq![Step::Edit(delivery::uploaded_note(files))];
            lemma_one(a[0]);
            lemma_one(c[0]);
            lemma_files_add(a, b);
            lemma_files_add(a + b, c);
            assert(files_sent(a + b + c) =~= range(0, files));
        }
    } else {
        let rest = delivery::sends(chunks.drop_first());
        lemma_sends(chunks.drop_first());
        if has_placeholder {
            let a = seq![Step::Edit(chunks[0])];
            let c = delivery::file_steps(0, files);
            lemma_one(a[0]);
            lemma_files_add(a, rest);
            lemma_files_add(a + rest, c);
            assert(files_sent(a + rest + c) =~= range(0, files));
        } else if files > 0 {
            let to = delivery::batch_end(0, files);
            let a = seq![Step::SendFiles { text: chunks[0], from: 0, to }];
            let c = delivery::file_steps(to, files);
            lemma_file_steps(to, files);
            lemma_one(a[0]);
            lemma_files_add(a, rest);
            lemma_files_add(a + rest, c);
            assert(files_sent(a + rest + c) =~= range(0, files));
        } else {
            lemma_sends(chunks);
            assert(range(0, files) =~= Seq::empty());
        }
    }
}

/// The texts of an answer are shown once each and in order. (A first text that goes out
/// with files is told from no text by not being empty.)
pub proof fn every_text_is_shown_once(
    has_placeholder: bool,
    chunks: Seq<Seq<char>>,
    files: nat,
)
    requires
        chunks.len() > 0,
        has_placeholder || files == 0 || chunks[0].len() > 0,
    ensures
        texts_shown(delivery::final_steps(has_placeholder, chunks, files)) == chunks,
{
    lemma_file_steps(0, files);
    let rest = delivery::sends(chunks.drop_first());
    lemma_sends(chunks.drop_first());
    if has_placeholder {
        let a = seq![Step::Edit(chunks[0])];
        let c = delivery::file_steps(0, files);
        lemma_one(a[0]);
        lemma_texts_add(a, rest);
        lemma_texts_add(a + rest, c);
        assert(texts_shown(a + rest + c) =~= chunks);
    } else if files > 0 {
        let to = delivery::batch_end(0, files);
        let a = seq![Step::SendFiles { text: chunks[0], from: 0, to }];
        let c = delivery::file_steps(to, files);
        lemma_file_steps(to, files);
        lemma_one(a[0]);
        lemma_texts_add(a, rest);
        lemma_texts_add(a + rest, c);
        assert(texts_shown(a + rest + c) =~= chunks);
    } else {
        lemma_sends(chunks);
    }
}

proof fn lemma_file_steps_are_batches(from: nat, files: nat, i: int)
    requires
        0 <= i < delivery::file_steps(from, files).len(),
    ensures
        delivery::file_steps(from, files)[i] is SendFiles,
        is_batch(delivery::file_steps(from, files)[i], files),
    decreases files - from,
{
    let to = delivery::batch_end(from, files);
    if i > 0 {
        lemma_file_steps_are_batches(to, files, i - 1);
    }
}

/// Whether the files of a step, if it sends any, are a batch that one message can carry.
pub open spec fn is_batch(step: Step, files: nat) -> bool {
    match step {
        Step::SendFiles { from, to, .. } => from < to <= files && to - from <= FILES_PER_MESSAGE,
        _ => true,
    }
}

/// No message carries more files than it may, nor an empty batch.
pub proof fn batches_are_never_too_large(
    has_placeholder: bool,
    chunks: Seq<Seq<char>>,
    files: nat,
    i: int,
)
    requires
        0 <= i < delivery::final_steps(has_placeholder, chunks, files).len(),
    ensures
        is_batch(delivery::final_steps(has_placeholder, chunks, files)[i], files),
{
    let all = delivery::final_steps(has_placeholder, chunks, files);
    let rest = (chunks.len() - 1) as nat;
    if chunks.len() == 0 {
        if files > 0 && has_placeholder {
            if 0 < i < all.len() - 1 {
                lemma_file_steps_are_batches(0, files, i - 1);
            }
        } else {
            lemma_file_steps_are_batches(0, files, i);
        }
    } else if has_placeholder {
        if i > rest {
            lemma_file_steps_are_batches(0, files, i - 1 - rest);
        }
    } else if files > 0 {
        if i > rest {
            lemma_file_steps_are_batches(delivery::batch_end(0, files), files, i - 1 - rest);
        }
    }
}

/// Without a placeholder nothing is edited.
pub proof fn nothing_is_edited_without_a_placeholder(
    chunks: Seq<Seq<char>>,
    files: nat,
    i: int,
)
    requires
        0 <= i < delivery::final_steps(false, chunks, files).len(),
    ensures
        delivery::final_steps(false, chunks, files)[i] !is Edit,
{
    let rest = (chunks.len() - 1) as nat;
    if chunks.len() == 0 {
        lemma_file_steps_are_batches(0, files, i);
    } else if files > 0 && i > rest {
        lemma_file_steps_are_batches(delivery::batch_end(0, files), files, i - 1 - rest);
    }
}

/// A message that cannot be sent ends the delivery for good; an edit that fails does not
/// change it.
pub proof fn only_failed_messages_stop_a_delivery(p: Progress, later: bool)
    requires
        p.step() is Some,
    ensures
        p.step()->0 is Edit ==> p.reported(false) == p.reported(true),
        p.step()->0 !is Edit ==> p.reported(false).step() is None && p.reported(false).reported(
            later,
        ) == p.reported(false),
{
}

/// How many batches of ten so many files make.
pub open spec fn batch_count(files: nat) -> nat {
    (files + 9) / 10
}

/// The message with the batch of ten files at this place, or with the files that are left.
pub open spec fn nth_batch(text: Seq<char>, at: int, files: nat) -> Step {
    Step::SendFiles {
        text,
        from: (10 * at) as nat,
        to: if 10 * at + 10 < files {
            (10 * at + 10) as nat
        } else {
            files
        },
    }
}

proof fn lemma_batches(first: nat, files: nat)
    requires
        10 * first <= files,
    ensures
        delivery::file_steps(10 * first, files).len() == batch_count(files) - first,
        forall|j: int|
            0 <= j < batch_count(files) - first ==> #[trigger] delivery::file_steps(
                10 * first,
                files,
            )[j] == nth_batch(""@, first + j, files),
    decreases files - 10 * first,
{
    let list = delivery::file_steps(10 * first, files);
    if 10 * first < files {
        let to = delivery::batch_end(10 * first, files);
        let rest = delivery::file_steps(to, files);
        assert(list =~= seq![Step::SendFiles { text: ""@, from: 10 * first, to }] + rest);
        if 10 * first + 10 < files {
            assert(to == 10 * (first + 1));
            lemma_batches(first + 1, files);
            assert forall|j: int| 0 <= j < batch_count(files) - first implies #[trigger] list[j]
                == nth_batch(""@, first + j, files) by {
                if j > 0 {
                    assert(list[j] == rest[j - 1]);
                    assert(rest[j - 1] == nth_batch(""@, (first + 1) + (j - 1), files));
                }
            }
        } else {
            assert(rest =~= Seq::empty());
            assert(batch_count(files) == first + 1);
        }
    }
}

/// With a placeholder, the first text replaces it, each other text is a message of its own,
/// and the files follow in batches of ten without text.
pub proof fn answers_replace_their_placeholder(chunks: Seq<Seq<char>>, files: nat)
    requires
        chunks.len() > 0,
    ensures
        ({
            let steps = delivery::final_steps(true, chunks, files);
            &&& steps.len() == chunks.len() + batch_count(files)
            &&& steps[0] == Step::Edit(chunks[0])
            &&& forall|i: int| 1 <= i < chunks.len() ==> #[trigger] steps[i] == Step::Send(chunks[i])
            &&& forall|i: int|
                chunks.len() <= i < steps.len() ==> #[trigger] steps[i] == nth_batch(
                    ""@,
                    i - chunks.len(),
                    files,
                )
        }),
{
    lemma_batches(0, files);
    let steps = delivery::final_steps(true, chunks, files);
    let batches = delivery::file_steps(0, files);
    let sends = delivery::sends(chunks.drop_first());
    assert(steps =~= seq![Step::Edit(chunks[0])] + sends + batches);
    assert forall|i: int| chunks.len() <= i < steps.len() implies #[trigger] steps[i]
        == nth_batch(""@, i - chunks.len(), files) by {
        assert(steps[i] == batches[i - chunks.len()]);
    }
}

/// Without a placeholder, the first text goes with the first ten files, each other text is a
/// message of its own, and the other files follow in batches of ten without text.
pub proof fn answers_without_placeholder_lead_with_files(chunks: Seq<Seq<char>>, files: nat)
    requires
        chunks.len() > 0,
        files > 0,
    ensures
        ({
            let steps = delivery::final_steps(false, chunks, files);
            &&& steps.len() == chunks.len() + batch_count(files) - 1
            &&& steps[0] == nth_batch(chunks[0], 0, files)
            &&& forall|i: int| 1 <= i < chunks.len() ==> #[trigger] steps[i] == Step::Send(chunks[i])
            &&& forall|i: int|
                chunks.len() <= i < steps.len() ==> #[trigger] steps[i] == nth_batch(
                    ""@,
                    i - chunks.len() + 1,
                    files,
                )
        }),
{
    let steps = delivery::final_steps(false, chunks, files);
    let to = delivery::batch_end(0, files);
    let rest = delivery::file_steps(to, files);
    let sends = delivery::sends(chunks.drop_first());
    assert(steps =~= seq![Step::SendFiles { text: chunks[0], from: 0, to }] + sends + rest);
    if 10 < files {
        lemma_batches(1, files);
        assert forall|i: int| chunks.len() <= i < steps.len() implies #[trigger] steps[i]
            == nth_batch(""@, i - chunks.len() + 1, files) by {
            assert(steps[i] == rest[i - chunks.len()]);
        }
    } else {
        assert(rest =~= Seq::empty());
        assert(batch_count(files) == 1);
    }
}

/// Without a placeholder and files, each text is a message of its own.
pub proof fn answers_without_files_are_sent_as_they_are(chunks: Seq<Seq<char>>)
    ensures
        ({
            let steps = delivery::final_steps(false, chunks, 0);
            &&& steps.len() == chunks.len()
            &&& forall|i: int| 0 <= i < chunks.len() ==> #[trigger] steps[i] == Step::Send(chunks[i])
        }),
{
    lemma_batches(0, 0);
}

/// Without text, only the files go out, in batches of ten; a placeholder tells how many go
/// out before, and how many went out after.
pub proof fn answers_without_text_are_their_files(files: nat)
    ensures
        ({
            let steps = delivery::final_steps(false, Seq::empty(), files);
            &&& steps.len() == batch_count(files)
            &&& forall|i: int|
                0 <= i < steps.len() ==> #[trigger] steps[i] == nth_batch(""@, i, files)
        }),
        delivery::final_steps(true, Seq::empty(), 0).len() == 0,
        files > 0 ==> ({
            let steps = delivery::final_steps(true, Seq::empty(), files);
            &&& steps.len() == batch_count(files) + 2
            &&& steps[0] == Step::Edit("Uploading "@ + text::decimal(files) + " file(s)..."@)
            &&& forall|i: int|
                1 <= i < steps.len() - 1 ==> #[trigger] steps[i] == nth_batch(""@, i - 1, files)
            &&& steps.last() == Step::Edit("Uploaded "@ + text::decimal(files) + " file(s)."@)
        }),
{
    lemma_batches(0, files);
    lemma_batches(0, 0);
    let batches = delivery::file_steps(0, files);
    if files > 0 {
        let steps = delivery::final_steps(true, Seq::empty(), files);
        assert(steps =~= seq![Step::Edit(delivery::uploading_note(files))] + batches + seq![
            Step::Edit(delivery::uploaded_note(files)),
        ]);
        assert forall|i: int| 1 <= i < steps.len() - 1 implies #[trigger] steps[i]
            == nth_batch(""@, i - 1, files) by {
            assert(steps[i] == batches[i - 1]);
        }
    }
}

/// A delivery does its steps one by one, in order, as long as none of its messages fails.
pub proof fn deliveries_do_every_step_in_order(p: Progress, done: bool)
    requires
        !p.failed,
        p.next < p.steps.len(),
    ensures
        p.step() == Some(p.steps[p.next as int]),
        p.reported(done).steps == p.steps,
        done || p.steps[p.next as int] is Edit ==> p.reported(done).next == p.next + 1
            && !p.reported(done).failed,
        !done && p.steps[p.next as int] !is Edit ==> p.reported(done).failed && p.reported(
            done,
        ).next == p.next,
{
}

/// A delivery that has done every step, or whose message failed, does nothing more.
pub proof fn deliveries_end(p: Progress, done: bool)
    requires
        p.failed || p.next >= p.steps.len(),
    ensures
        p.step() is None,
        p.reported(done) == p,
{
}

} // verus!
