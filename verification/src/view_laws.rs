//! What values stand for: each is read as exactly what it holds, and lists one by one.
use crate::adapter::OutgoingAttachment;
use crate::channel;
use crate::delivery;
use crate::delivery::{DeliveryStep, Step};
use crate::router;
use crate::router::{Block, ContentBlock, Happened, MessageAction, MessageEvent, Task};
use crate::stream;
use crate::stream::{AcpEvent, Act, Heard, StreamAction, StreamEvent};
use crate::tools;
use crate::tools::ToolEntry;
use crate::uploads;
use crate::uploads::{
    Fault, FileInfo, Question, Reply, ResolvedPath, UploadAnswer, UploadError, UploadQuery,
};
use std::path::PathBuf;
use vstd::prelude::*;

verus! {

/// A tool entry is read as its id, its title and its state.
pub proof fn tool_entries_are_read_as_they_are(list: Seq<ToolEntry>)
    ensures
        tools::tools(list).len() == list.len(),
        forall|i: int|
            0 <= i < list.len() ==> {
                &&& (#[trigger] tools::tools(list)[i]).id == list[i].id@
                &&& tools::tools(list)[i].title == list[i].title@
                &&& tools::tools(list)[i].state == list[i].state
            },
{
}

/// A delivery step is read as what it does, with its text and its files.
pub proof fn delivery_steps_are_read_as_they_are(
    list: Seq<DeliveryStep>,
    text: String,
    from: usize,
    to: usize,
)
    ensures
        delivery::steps(list).len() == list.len(),
        forall|i: int| 0 <= i < list.len() ==> #[trigger] delivery::steps(list)[i] == list[i]@,
        DeliveryStep::Edit(text)@ == Step::Edit(text@),
        DeliveryStep::Send(text)@ == Step::Send(text@),
        (DeliveryStep::SendFiles { text, from, to })@ == (Step::SendFiles {
            text: text@,
            from: from as nat,
            to: to as nat,
        }),
{
}

/// An event is read as what was heard, with every text whole.
pub proof fn events_are_read_as_they_are<O>(
    id: String,
    title: String,
    status: String,
    text: String,
    options: O,
)
    ensures
        StreamEvent::<O>::PlaceholderFailed@ == Heard::<O>::PlaceholderFailed,
        StreamEvent::<O>::TimedOut@ == Heard::<O>::TimedOut,
        StreamEvent::<O>::Closed@ == Heard::<O>::Closed,
        (StreamEvent::<O>::Response { error: None })@ == (Heard::<O>::Response { error: None }),
        (StreamEvent::<O>::Response { error: Some(text) })@ == (Heard::<O>::Response {
            error: Some(text@),
        }),
        StreamEvent::<O>::Update(None)@ == Heard::<O>::Other,
        StreamEvent::<O>::Update(Some(AcpEvent::Text(text)))@ == Heard::<O>::Text(text@),
        StreamEvent::<O>::Update(Some(AcpEvent::Thinking))@ == Heard::<O>::Thinking,
        StreamEvent::<O>::Update(Some((AcpEvent::ToolStart { id, title })))@ == (Heard::<
            O,
        >::ToolStart { id: id@, title: title@ }),
        StreamEvent::<O>::Update(Some((AcpEvent::ToolDone { id, title, status })))@ == (Heard::<
            O,
        >::ToolDone { id: id@, title: title@, status: status@ }),
        StreamEvent::<O>::Update(Some((AcpEvent::ConfigUpdate { options })))@ == (Heard::<
            O,
        >::ConfigUpdate { options }),
        StreamEvent::<O>::Update(Some(AcpEvent::Other))@ == Heard::<O>::Other,
{
}

/// An action of a run is read as what is to be done, with every text whole.
pub proof fn stream_actions_are_read_as_they_are<O>(
    list: Seq<StreamAction<O>>,
    text: String,
    options: O,
)
    ensures
        stream::acts(list).len() == list.len(),
        forall|i: int| 0 <= i < list.len() ==> #[trigger] stream::acts(list)[i] == list[i]@,
        StreamAction::<O>::SetThinking@ == Act::<O>::SetThinking,
        StreamAction::<O>::SetTool(text)@ == Act::<O>::SetTool(text@),
        StreamAction::<O>::SendPlaceholder(text)@ == Act::<O>::SendPlaceholder(text@),
        StreamAction::<O>::Publish(text)@ == Act::<O>::Publish(text@),
        StreamAction::<O>::StoreConfig(options)@ == Act::<O>::StoreConfig(options),
        StreamAction::<O>::PromptDone@ == Act::<O>::PromptDone,
        StreamAction::<O>::StopEditing@ == Act::<O>::StopEditing,
{
}

/// A content block is read as its text, or as what it holds instead.
pub proof fn content_blocks_are_read_as_they_are<B>(
    list: Seq<ContentBlock<B>>,
    text: String,
    other: B,
)
    ensures
        router::blocks(list).len() == list.len(),
        forall|i: int| 0 <= i < list.len() ==> #[trigger] router::blocks(list)[i] == list[i]@,
        (ContentBlock::<B>::Text { text })@ == Block::<B>::Text(text@),
        ContentBlock::<B>::Other(other)@ == Block::<B>::Other(other),
{
}

/// What happens to a message is read as it is told, with every error whole.
pub proof fn message_events_are_read_as_they_are(error: String)
    ensures
        MessageEvent::SessionOpened(Ok(()))@ == Happened::SessionOpened(Ok(())),
        MessageEvent::SessionOpened(Err(error))@ == Happened::SessionOpened(Err(error@)),
        MessageEvent::RunEnded(Ok(()))@ == Happened::RunEnded(Ok(())),
        MessageEvent::RunEnded(Err(error))@ == Happened::RunEnded(Err(error@)),
{
}

/// An action on a message is read as what is to be done.
pub proof fn message_actions_are_read_as_they_are(
    list: Seq<MessageAction>,
    text: String,
    ms: u64,
)
    ensures
        router::tasks(list).len() == list.len(),
        forall|i: int| 0 <= i < list.len() ==> #[trigger] router::tasks(list)[i] == list[i]@,
        MessageAction::SetQueued@ == Task::SetQueued,
        MessageAction::StreamPrompt@ == Task::StreamPrompt,
        MessageAction::SetDone@ == Task::SetDone,
        MessageAction::SetError@ == Task::SetError,
        MessageAction::ClearAfter(ms)@ == Task::ClearAfter(ms as nat),
        MessageAction::Notify(text)@ == Task::Notify(text@),
{
}

/// A question of a review is read as what it asks about.
pub proof fn upload_questions_are_read_as_they_are(text: String, path: PathBuf)
    ensures
        (UploadQuery::ResolveRoot { root: &text })@ == (Question::ResolveRoot { root: text@ }),
        (UploadQuery::Resolve { path: &text })@ == (Question::Resolve { path: text@ }),
        (UploadQuery::Inspect { path: &path })@ == (Question::Inspect { path }),
{
}

/// An answer to a review is read as what it tells.
pub proof fn upload_answers_are_read_as_they_are(
    path: PathBuf,
    place: ResolvedPath,
    info: FileInfo,
    error: String,
)
    ensures
        UploadAnswer::Root(Ok(path))@ == Reply::Root(Ok(path)),
        UploadAnswer::Root(Err(error))@ == Reply::Root(Err(error@)),
        UploadAnswer::Path(Ok(place))@ == Reply::Path(Ok((place.path, place.shown@))),
        UploadAnswer::Path(Err(error))@ == Reply::Path(Err(error@)),
        UploadAnswer::File(Ok(info))@ == Reply::File(Ok(info)),
        UploadAnswer::File(Err(error))@ == Reply::File(Err(error@)),
{
}

/// A refusal is read as what was wrong, with its paths and numbers.
pub proof fn upload_errors_are_read_as_they_are(
    path: String,
    error: String,
    count: usize,
    limit: usize,
    size: u64,
    max: u64,
)
    ensures
        UploadError::Disabled@ == Fault::Disabled,
        (UploadError::TooMany { requested: count, max: limit })@ == (Fault::TooMany {
            requested: count as nat,
            max: limit as nat,
        }),
        UploadError::NoAllowedRoots@ == Fault::NoAllowedRoots,
        (UploadError::RootUnresolved { root: path, error })@ == (Fault::RootUnresolved {
            root: path@,
            error: error@,
        }),
        (UploadError::NotAbsolute { path })@ == (Fault::NotAbsolute { path: path@ }),
        (UploadError::PathUnresolved { path, error })@ == (Fault::PathUnresolved {
            path: path@,
            error: error@,
        }),
        (UploadError::OutsideRoots { path })@ == (Fault::OutsideRoots { path: path@ }),
        (UploadError::NoMetadata { path, error })@ == (Fault::NoMetadata {
            path: path@,
            error: error@,
        }),
        (UploadError::NotAFile { path })@ == (Fault::NotAFile { path: path@ }),
        (UploadError::TooLarge { path, size, max })@ == (Fault::TooLarge {
            path: path@,
            size: size as nat,
            max: max as nat,
        }),
{
}

/// Attachments are read as their paths, and optional text as the text.
pub proof fn attachments_are_read_as_their_paths(
    list: Seq<OutgoingAttachment>,
    part: Option<&str>,
)
    ensures
        uploads::attached_paths(list).len() == list.len(),
        forall|i: int|
            0 <= i < list.len() ==> #[trigger] uploads::attached_paths(list)[i] == list[i].path,
        channel::optional_str(part) is Some <==> part is Some,
        part is Some ==> channel::optional_str(part)->0 == part->0@,
{
}

} // verus!
