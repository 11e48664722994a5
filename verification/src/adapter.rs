//! What a chat platform's adapter tells the router, and what it answers where it cannot do
//! something.
use crate::text::copy_text;
use std::path::PathBuf;
use vstd::prelude::*;

verus! {

/// `std::path::PathBuf`: a path of the file system. Nothing is claimed of what it holds.
#[verifier::external_type_specification]
#[verifier::external_body]
pub struct ExPathBuf(PathBuf);

/// `PathBuf::clone` returns the same path.
pub assume_specification[ <PathBuf as Clone>::clone ](path: &PathBuf) -> (r: PathBuf)
    ensures
        r == *path,
;

/// A local file to send with a message.
#[derive(Debug)]
pub struct OutgoingAttachment {
    pub path: PathBuf,
}

impl Clone for OutgoingAttachment {
    fn clone(&self) -> (r: Self)
        ensures
            r == *self,
    {
        OutgoingAttachment { path: self.path.clone() }
    }
}

/// What a platform's adapter decides by itself.
pub trait ChatAdapter {
    /// Platform name for logging and session key namespacing.
    fn platform(&self) -> &'static str;

    /// Maximum message length for this platform (e.g. 2000 for Discord, 4000 for Slack).
    fn message_limit(&self) -> usize;

    /// Whether this adapter should use streaming edit (true) or send-once (false).
    /// `other_bot_present` indicates if another bot has posted in the current thread.
    /// Streaming should be disabled in multi-bot threads to avoid edit interference.
    /// There is no default: every adapter has to choose.
    fn use_streaming(&self, other_bot_present: bool) -> bool;
}

/// What an adapter cannot do.
#[derive(Debug)]
pub enum AdapterError {
    /// Sending files.
    UploadsUnsupported { platform: String },
    /// Editing a message in place.
    EditUnsupported,
}

impl AdapterError {
    pub open spec fn text(self) -> Seq<char> {
        match self {
            AdapterError::UploadsUnsupported { platform } =>
                "file uploads are not supported by the "@ + platform@ + " adapter"@,
            AdapterError::EditUnsupported => "edit_message not supported"@,
        }
    }

    /// The error in words.
    pub fn message(&self) -> (r: String)
        ensures
            r@ == self.text(),
    {
        let mut out: String = String::new();
        match self {
            AdapterError::UploadsUnsupported { platform } => {
                out.append("file uploads are not supported by the ");
                out.append(platform.as_str());
                out.append(" adapter");
            },
            AdapterError::EditUnsupported => {
                out.append("edit_message not supported");
            },
        }
        assert(out@ =~= self.text());
        out
    }
}

/// How an adapter without uploads answers a message with attachments: it can send the
/// message only where there are none.
pub fn send_without_uploads(platform: &str, attachments: &[OutgoingAttachment]) -> (r: Result<
    (),
    AdapterError,
>)
    ensures
        attachments@.len() == 0 ==> r == Ok::<(), AdapterError>(()),
        attachments@.len() > 0 ==> (r matches Err(AdapterError::UploadsUnsupported { platform: p })
            && p@ == platform@),
{
    if attachments.len() == 0 {
        Ok(())
    } else {
        Err(AdapterError::UploadsUnsupported { platform: copy_text(platform) })
    }
}

/// How an adapter without editing answers an edit.
pub fn edit_without_support() -> (r: Result<(), AdapterError>)
    ensures
        r == Err::<(), AdapterError>(AdapterError::EditUnsupported),
{
    Err(AdapterError::EditUnsupported)
}

/// An adapter says what it cannot do, and for files which platform it is for.
pub proof fn adapters_say_what_they_cannot_do(platform: String)
    ensures
        (AdapterError::UploadsUnsupported { platform }).text()
            == "file uploads are not supported by the "@ + (platform@ + " adapter"@),
        AdapterError::EditUnsupported.text() == "edit_message not supported"@,
{
    assert((AdapterError::UploadsUnsupported { platform }).text()
        =~= "file uploads are not supported by the "@ + (platform@ + " adapter"@));
}

} // verus!
