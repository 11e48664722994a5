//! How the final answer of a run goes out: which messages are edited and sent, in which
//! order, and which failures stop it.
use crate::adapter::OutgoingAttachment;
use crate::stream;
use crate::stream::answer_chunks;
use crate::text;
use crate::text::push_decimal;
use crate::uploads::UploadError;
use vstd::prelude::*;

verus! {

/// How many files go out with one message.
pub const FILES_PER_MESSAGE: usize = 10;

/// One thing to do for the final answer.
#[derive(Debug)]
pub enum DeliveryStep {
    /// Edit the placeholder message.
    Edit(String),
    /// Send a message.
    Send(String),
    /// Send a message with the attachments `from..to`.
    SendFiles { text: String, from: usize, to: usize },
}

/// What a delivery step holds.
pub enum Step {
    Edit(Seq<char>),
    Send(Seq<char>),
    SendFiles { text: Seq<char>, from: nat, to: nat },
}

impl View for DeliveryStep {
    type V = Step;

    open spec fn view(&self) -> Step {
        match *self {
            DeliveryStep::Edit(text) => Step::Edit(text@),
            DeliveryStep::Send(text) => Step::Send(text@),
            DeliveryStep::SendFiles { text, from, to } => Step::SendFiles {
                text: text@,
                from: from as nat,
                to: to as nat,
            },
        }
    }
}

/// What each step of a list holds.
pub open spec fn steps(list: Seq<DeliveryStep>) -> Seq<Step> {
    list.map_values(|s: DeliveryStep| s@)
}

/// Each text as a message of its own.
pub open spec fn sends(chunks: Seq<Seq<char>>) -> Seq<Step> {
    chunks.map_values(|c: Seq<char>| Step::Send(c))
}

/// Where the batch of attachments that starts at `from` ends.
pub open spec fn batch_end(from: nat, files: nat) -> nat {
    if from + FILES_PER_MESSAGE < files {
        from + FILES_PER_MESSAGE as nat
    } else {
        files
    }
}

/// The attachments from `from` on, in batches, without text.
pub open spec fn file_steps(from: nat, files: nat) -> Seq<Step>
    decreases files - from,
{
    if from >= files {
        Seq::empty()
    } else {
        seq![Step::SendFiles { text: ""@, from, to: batch_end(from, files) }] + file_steps(
            batch_end(from, files),
            files,
        )
    }
}

/// What the placeholder says while files go out and there is no text to show.
pub open spec fn uploading_note(files: nat) -> Seq<char> {
    "Uploading "@ + text::decimal(files) + " file(s)..."@
}

/// What the placeholder says once files went out and there is no text to show.
pub open spec fn uploaded_note(files: nat) -> Seq<char> {
    "Uploaded "@ + text::decimal(files) + " file(s)."@
}

/// The steps of a final answer of these texts and this many attachments.
pub open spec fn final_steps(
    has_placeholder: bool,
    chunks: Seq<Seq<char>>,
    files: nat,
) -> Seq<Step> {
    if chunks.len() == 0 {
        if files > 0 && has_placeholder {
            seq![Step::Edit(uploading_note(files))] + file_steps(0, files) + seq![
                Step::Edit(uploaded_note(files)),
            ]
        } else {
            file_steps(0, files)
        }
    } else if has_placeholder {
        seq![Step::Edit(chunks[0])] + sends(chunks.drop_first()) + file_steps(0, files)
    } else if files > 0 {
        seq![Step::SendFiles { text: chunks[0], from: 0, to: batch_end(0, files) }] + sends(
            chunks.drop_first(),
        ) + file_steps(batch_end(0, files), files)
    } else {
        sends(chunks)
    }
}

/// How far a final answer has gone out.
pub struct Progress {
    pub steps: Seq<Step>,
    pub next: nat,
    pub failed: bool,
}

impl Progress {
    pub open spec fn wf(self) -> bool {
        self.next <= self.steps.len()
    }

    /// What to do next; nothing once all is done or a message could not be sent.
    pub open spec fn step(self) -> Option<Step> {
        if self.failed || self.next >= self.steps.len() {
            None
        } else {
            Some(self.steps[self.next as int])
        }
    }

    /// After the next step was tried. An edit that fails is passed over; a message that
    /// cannot be sent ends the delivery.
    pub open spec fn reported(self, done: bool) -> Progress {
        match self.step() {
            None => self,
            Some(Step::Edit(_)) => Progress { next: self.next + 1, ..self },
            Some(_) => if done {
                Progress { next: self.next + 1, ..self }
            } else {
                Progress { failed: true, ..self }
            },
        }
    }
}

/// The delivery of a final answer.
pub struct Delivery {
    steps: Vec<DeliveryStep>,
    next: usize,
    failed: bool,
}

impl View for Delivery {
    type V = Progress;

    closed spec fn view(&self) -> Progress {
        Progress { steps: steps(self.steps@), next: self.next as nat, failed: self.failed }
    }
}

fn push_sends(out: &mut Vec<DeliveryStep>, chunks: &[String], from: usize)
    requires
        from <= chunks.len(),
    ensures
        steps(final(out)@) == steps(old(out)@) + sends(text::texts(chunks@).skip(from as int)),
{
    let ghost all = text::texts(chunks@);
    assert(steps(out@) =~= steps(old(out)@) + sends(all.subrange(from as int, from as int)));
    for i in from..chunks.len()
        invariant
            from <= i <= chunks.len(),
            all == text::texts(chunks@),
            steps(out@) == steps(old(out)@) + sends(all.subrange(from as int, i as int)),
    {
        let ghost before = out@;
        out.push(DeliveryStep::Send(chunks[i].clone()));
        assert(steps(out@) =~= steps(before).push(Step::Send(all[i as int])));
        assert(steps(out@) =~= steps(old(out)@) + sends(all.subrange(from as int, i + 1)));
    }
    assert(all.subrange(from as int, all.len() as int) =~= all.skip(from as int));
}

fn batch_limit(from: usize, files: usize) -> (r: usize)
    requires
        from < files,
    ensures
        r == batch_end(from as nat, files as nat),
        from < r <= files,
{
    if FILES_PER_MESSAGE < files - from {
        from + FILES_PER_MESSAGE
    } else {
        files
    }
}

fn push_file_steps(out: &mut Vec<DeliveryStep>, start: usize, files: usize)
    requires
        start <= files,
    ensures
        steps(final(out)@) == steps(old(out)@) + file_steps(start as nat, files as nat),
{
    let mut from: usize = start;
    assert(steps(out@) + file_steps(from as nat, files as nat) =~= steps(old(out)@) + file_steps(
        start as nat,
        files as nat,
    ));
    while from < files
        invariant
            from <= files,
            steps(out@) + file_steps(from as nat, files as nat) == steps(old(out)@) + file_steps(
                start as nat,
                files as nat,
            ),
        decreases files - from,
    {
        let to: usize = batch_limit(from, files);
        let ghost before = out@;
        let empty: String = String::new();
        proof {
            reveal_strlit("");
            assert(empty@ =~= ""@);
        }
        out.push(DeliveryStep::SendFiles { text: empty, from, to });
        assert(steps(out@) =~= steps(before).push(
            Step::SendFiles { text: ""@, from: from as nat, to: to as nat },
        ));
        assert(steps(out@) + file_steps(to as nat, files as nat) =~= steps(before) + file_steps(
            from as nat,
            files as nat,
        ));
        from = to;
    }
    assert(steps(out@) + file_steps(from as nat, files as nat) =~= steps(out@));
}

fn uploading_text(files: usize) -> (r: String)
    ensures
        r@ == uploading_note(files as nat),
{
    let mut out: String = String::new();
    out.append("Uploading ");
    push_decimal(&mut out, files as u64);
    out.append(" file(s)...");
    assert(out@ =~= uploading_note(files as nat));
    out
}

fn uploaded_text(files: usize) -> (r: String)
    ensures
        r@ == uploaded_note(files as nat),
{
    let mut out: String = String::new();
    out.append("Uploaded ");
    push_decimal(&mut out, files as u64);
    out.append(" file(s).");
    assert(out@ =~= uploaded_note(files as nat));
    out
}

/// Plans the final answer: where there is a placeholder the first text replaces it, the
/// other texts follow, and the attachments go out in batches.
pub fn send_final_response(
    has_placeholder: bool,
    chunks: &[String],
    attachments: &[OutgoingAttachment],
) -> (r: Delivery)
    ensures
        r@ == (Progress {
            steps: final_steps(has_placeholder, text::texts(chunks@), attachments@.len()),
            next: 0,
            failed: false,
        }),
{
    let files: usize = attachments.len();
    let ghost all = text::texts(chunks@);
    let mut out: Vec<DeliveryStep> = Vec::new();
    assert(steps(out@) =~= Seq::empty());
    if chunks.len() == 0 {
        if files > 0 && has_placeholder {
            out.push(DeliveryStep::Edit(uploading_text(files)));
            assert(steps(out@) =~= seq![Step::Edit(uploading_note(files as nat))]);
            push_file_steps(&mut out, 0, files);
            let ghost before = out@;
            out.push(DeliveryStep::Edit(uploaded_text(files)));
            assert(steps(out@) =~= steps(before).push(Step::Edit(uploaded_note(files as nat))));
        } else {
            push_file_steps(&mut out, 0, files);
        }
    } else if has_placeholder {
        out.push(DeliveryStep::Edit(chunks[0].clone()));
        assert(steps(out@) =~= seq![Step::Edit(all[0])]);
        push_sends(&mut out, chunks, 1);
        push_file_steps(&mut out, 0, files);
    } else if files > 0 {
        let to: usize = batch_limit(0, files);
        out.push(DeliveryStep::SendFiles { text: chunks[0].clone(), from: 0, to });
        assert(steps(out@) =~= seq![Step::SendFiles { text: all[0], from: 0, to: to as nat }]);
        push_sends(&mut out, chunks, 1);
        push_file_steps(&mut out, to, files);
    } else {
        push_sends(&mut out, chunks, 0);
        assert(all.skip(0) =~= all);
    }
    assert(all.len() > 0 ==> all.skip(1) =~= all.drop_first());
    assert(steps(out@) =~= final_steps(has_placeholder, all, files as nat));
    Delivery { steps: out, next: 0, failed: false }
}

/// Plans how an answer goes out, given what came of its uploads. Uploads that were turned down
/// stop the whole answer; else its tables are converted by `convert_tables` in the given mode,
/// and it goes out as the texts that `split_message` makes of it within the message limit,
/// with the attachments.
pub fn plan_answer<T, C: Fn(&str, &T) -> String, F: Fn(&str, usize) -> Vec<String>>(
    uploads: Result<Vec<OutgoingAttachment>, UploadError>,
    has_placeholder: bool,
    visible: &str,
    table_mode: &T,
    convert_tables: C,
    message_limit: usize,
    split_message: F,
) -> (r: Result<(Vec<OutgoingAttachment>, Delivery), UploadError>)
    requires
        call_requires(convert_tables, (visible, table_mode)),
        forall|answer: &str| #[trigger] call_requires(split_message, (answer, message_limit)),
    ensures
        match uploads {
            Err(error) => r is Err && r->Err_0 == error,
            Ok(attachments) => {
                &&& r is Ok
                &&& r->Ok_0.0 == attachments
                &&& exists|converted: String, answer: &str, chunks: Vec<String>|
                    answer@ == converted@ && #[trigger] call_ensures(
                        convert_tables,
                        (visible, table_mode),
                        converted,
                    ) && #[trigger] stream::is_split(answer, message_limit, split_message, chunks)
                        && r->Ok_0.1@ == (Progress {
                        steps: final_steps(
                            has_placeholder,
                            text::texts(chunks@),
                            attachments@.len(),
                        ),
                        next: 0,
                        failed: false,
                    })
            },
        },
{
    match uploads {
        Err(error) => Err(error),
        Ok(attachments) => {
            let converted = convert_tables(visible, table_mode);
            let chunks = answer_chunks(converted.as_str(), message_limit, split_message);
            let delivery = send_final_response(has_placeholder, &chunks, &attachments);
            Ok((attachments, delivery))
        },
    }
}

impl Delivery {
    /// What to do next; nothing once all is done or a message could not be sent.
    pub fn step(&self) -> (r: Option<&DeliveryStep>)
        ensures
            match r {
                Some(step) => self@.step() == Some(step@),
                None => self@.step() is None,
            },
    {
        if self.failed || self.next >= self.steps.len() {
            None
        } else {
            Some(&self.steps[self.next])
        }
    }

    /// Takes note of whether the next step could be done.
    pub fn report(&mut self, done: bool)
        ensures
            final(self)@ == old(self)@.reported(done),
            old(self)@.wf() ==> final(self)@.wf(),
    {
        if !self.failed && self.next < self.steps.len() {
            let stops: bool = match &self.steps[self.next] {
                DeliveryStep::Edit(_) => false,
                _ => !done,
            };
            if stops {
                self.failed = true;
            } else {
                self.next = self.next + 1;
            }
        }
    }

    /// Whether a message could not be sent.
    pub fn failed(&self) -> (r: bool)
        ensures
            r == self@.failed,
    {
        self.failed
    }
}

} // verus!
