//! Which files the agent may have sent: a review that asks about the file system one
//! question at a time, tests the paths it is given, and decides from the answers.
use crate::adapter::OutgoingAttachment;
use crate::config::UploadsConfig;
use crate::text;
use crate::text::{copy_text, push_decimal};
use std::path::{Path, PathBuf};
use vstd::prelude::*;

verus! {

/// Why a request to upload files is turned down.
#[allow(inconsistent_fields)]
#[derive(Debug)]
pub enum UploadError {
    Disabled,
    TooMany { requested: usize, max: usize },
    NoAllowedRoots,
    RootUnresolved { root: String, error: String },
    NotAbsolute { path: String },
    PathUnresolved { path: String, error: String },
    OutsideRoots { path: String },
    NoMetadata { path: String, error: String },
    NotAFile { path: String },
    TooLarge { path: String, size: u64, max: u64 },
}

/// What an upload error holds.
pub enum Fault {
    Disabled,
    TooMany { requested: nat, max: nat },
    NoAllowedRoots,
    RootUnresolved { root: Seq<char>, error: Seq<char> },
    NotAbsolute { path: Seq<char> },
    PathUnresolved { path: Seq<char>, error: Seq<char> },
    OutsideRoots { path: Seq<char> },
    NoMetadata { path: Seq<char>, error: Seq<char> },
    NotAFile { path: Seq<char> },
    TooLarge { path: Seq<char>, size: nat, max: nat },
}

impl View for UploadError {
    type V = Fault;

    open spec fn view(&self) -> Fault {
        match *self {
            UploadError::Disabled => Fault::Disabled,
            UploadError::TooMany { requested, max } => Fault::TooMany {
                requested: requested as nat,
                max: max as nat,
            },
            UploadError::NoAllowedRoots => Fault::NoAllowedRoots,
            UploadError::RootUnresolved { root, error } => Fault::RootUnresolved {
                root: root@,
                error: error@,
            },
            UploadError::NotAbsolute { path } => Fault::NotAbsolute { path: path@ },
            UploadError::PathUnresolved { path, error } => Fault::PathUnresolved {
                path: path@,
                error: error@,
            },
            UploadError::OutsideRoots { path } => Fault::OutsideRoots { path: path@ },
            UploadError::NoMetadata { path, error } => Fault::NoMetadata {
                path: path@,
                error: error@,
            },
            UploadError::NotAFile { path } => Fault::NotAFile { path: path@ },
            UploadError::TooLarge { path, size, max } => Fault::TooLarge {
                path: path@,
                size: size as nat,
                max: max as nat,
            },
        }
    }
}

impl Fault {
    /// The error in words.
    pub open spec fn text(self) -> Seq<char> {
        match self {
            Fault::Disabled => "agent requested file upload, but [uploads].enabled is false"@,
            Fault::TooMany { requested, max } => "agent requested "@ + text::decimal(requested)
                + " uploads, exceeding [uploads].max_files ("@ + text::decimal(max) + ")"@,
            Fault::NoAllowedRoots =>
                "[uploads].allowed_roots must contain at least one path when uploads are enabled"@,
            Fault::RootUnresolved { root, error } => "failed to resolve upload root "@ + root
                + ": "@ + error,
            Fault::NotAbsolute { path } => "upload path must be absolute: "@ + path,
            Fault::PathUnresolved { path, error } => "failed to resolve upload path "@ + path
                + ": "@ + error,
            Fault::OutsideRoots { path } => "upload path "@ + path
                + " is outside [uploads].allowed_roots"@,
            Fault::NoMetadata { path, error } => "failed to read upload metadata "@ + path + ": "@
                + error,
            Fault::NotAFile { path } => "upload path is not a file: "@ + path,
            Fault::TooLarge { path, size, max } => "upload file "@ + path + " is "@
                + text::decimal(size) + " bytes, exceeding [uploads].max_file_bytes ("@
                + text::decimal(max) + ")"@,
        }
    }
}

impl UploadError {
    /// The error in words.
    pub fn message(&self) -> (r: String)
        ensures
            r@ == self@.text(),
    {
        let mut out: String = String::new();
        match self {
            UploadError::Disabled => {
                out.append("agent requested file upload, but [uploads].enabled is false");
            },
            UploadError::TooMany { requested, max } => {
                out.append("agent requested ");
                push_decimal(&mut out, *requested as u64);
                out.append(" uploads, exceeding [uploads].max_files (");
                push_decimal(&mut out, *max as u64);
                out.append(")");
            },
            UploadError::NoAllowedRoots => {
                out.append(
                    "[uploads].allowed_roots must contain at least one path when uploads are enabled",
                );
            },
            UploadError::RootUnresolved { root, error } => {
                out.append("failed to resolve upload root ");
                out.append(root.as_str());
                out.append(": ");
                out.append(error.as_str());
            },
            UploadError::NotAbsolute { path } => {
                out.append("upload path must be absolute: ");
                out.append(path.as_str());
            },
            UploadError::PathUnresolved { path, error } => {
                out.append("failed to resolve upload path ");
                out.append(path.as_str());
                out.append(": ");
                out.append(error.as_str());
            },
            UploadError::OutsideRoots { path } => {
                out.append("upload path ");
                out.append(path.as_str());
                out.append(" is outside [uploads].allowed_roots");
            },
            UploadError::NoMetadata { path, error } => {
                out.append("failed to read upload metadata ");
                out.append(path.as_str());
                out.append(": ");
                out.append(error.as_str());
            },
            UploadError::NotAFile { path } => {
                out.append("upload path is not a file: ");
                out.append(path.as_str());
            },
            UploadError::TooLarge { path, size, max } => {
                out.append("upload file ");
                out.append(path.as_str());
                out.append(" is ");
                push_decimal(&mut out, *size);
                out.append(" bytes, exceeding [uploads].max_file_bytes (");
                push_decimal(&mut out, *max);
                out.append(")");
            },
        }
        assert(out@ =~= self@.text());
        out
    }
}

/// A path with links and dots resolved, and how it is shown to people.
#[derive(Debug)]
pub struct ResolvedPath {
    pub path: PathBuf,
    pub shown: String,
}

/// What the file system says of a resolved path.
#[derive(Clone, Copy, Debug, PartialEq, Eq, Structural)]
pub struct FileInfo {
    pub is_file: bool,
    pub len: u64,
}

/// What a review wants to know next.
#[allow(inconsistent_fields)]
pub enum UploadQuery<'a> {
    /// Resolve this root directory.
    ResolveRoot { root: &'a String },
    /// Resolve this path.
    Resolve { path: &'a String },
    /// Read the metadata of this path.
    Inspect { path: &'a PathBuf },
}

/// What a question asks.
#[allow(inconsistent_fields)]
pub enum Question {
    ResolveRoot { root: Seq<char> },
    Resolve { path: Seq<char> },
    Inspect { path: PathBuf },
}

impl<'a> View for UploadQuery<'a> {
    type V = Question;

    open spec fn view(&self) -> Question {
        match *self {
            UploadQuery::ResolveRoot { root } => Question::ResolveRoot { root: root@ },
            UploadQuery::Resolve { path } => Question::Resolve { path: path@ },
            UploadQuery::Inspect { path } => Question::Inspect { path: *path },
        }
    }
}

/// The answer to a question.
pub enum UploadAnswer {
    Root(Result<PathBuf, String>),
    Path(Result<ResolvedPath, String>),
    File(Result<FileInfo, String>),
}

/// What an answer holds.
pub enum Reply {
    Root(Result<PathBuf, Seq<char>>),
    Path(Result<(PathBuf, Seq<char>), Seq<char>>),
    File(Result<FileInfo, Seq<char>>),
}

impl View for UploadAnswer {
    type V = Reply;

    open spec fn view(&self) -> Reply {
        match *self {
            UploadAnswer::Root(Ok(path)) => Reply::Root(Ok(path)),
            UploadAnswer::Root(Err(error)) => Reply::Root(Err(error@)),
            UploadAnswer::Path(Ok(found)) => Reply::Path(Ok((found.path, found.shown@))),
            UploadAnswer::Path(Err(error)) => Reply::Path(Err(error@)),
            UploadAnswer::File(Ok(info)) => Reply::File(Ok(info)),
            UploadAnswer::File(Err(error)) => Reply::File(Err(error@)),
        }
    }
}

/// What a review tests by itself.
#[allow(inconsistent_fields)]
pub enum Test {
    /// Is this path absolute?
    IsAbsolute { path: Seq<char> },
    /// Does this path start with one of these roots?
    IsUnderRoot { path: PathBuf, roots: Seq<PathBuf> },
}

/// Whether `result` is what `path_starts_with` said of the path and the roots: yes to one of
/// them, or no to every one.
pub open spec fn found_under_root(path: PathBuf, roots: Seq<PathBuf>, result: bool) -> bool {
    if result {
        exists|i: int|
            0 <= i < roots.len() && #[trigger] call_ensures(
                path_starts_with,
                (&path, &roots[i]),
                true,
            )
    } else {
        forall|i: int|
            0 <= i < roots.len() ==> #[trigger] call_ensures(
                path_starts_with,
                (&path, &roots[i]),
                false,
            )
    }
}

/// Whether `result` is what the path functions said to a test.
pub open spec fn found(test: Option<Test>, result: bool) -> bool {
    match test {
        None => true,
        Some(Test::IsAbsolute { path }) => exists|s: &str|
            s@ == path && #[trigger] call_ensures(path_is_absolute, (s,), result),
        Some(Test::IsUnderRoot { path, roots }) => found_under_root(path, roots, result),
    }
}

/// `Path::is_absolute`. What counts as absolute is the platform's matter; nothing is claimed
/// of it.
#[verifier::external_body]
pub fn path_is_absolute(path: &str) -> bool {
    Path::new(path).is_absolute()
}

/// `Path::starts_with`, which goes by whole components. How a path falls into components is
/// the platform's matter; nothing is claimed of it.
#[verifier::external_body]
pub fn path_starts_with(path: &PathBuf, root: &PathBuf) -> bool {
    path.starts_with(root)
}

/// Whether the path starts with one of the roots.
pub fn under_a_root(path: &PathBuf, roots: &Vec<PathBuf>) -> (r: bool)
    ensures
        found_under_root(*path, roots@, r),
{
    for i in 0..roots.len()
        invariant
            forall|j: int|
                0 <= j < i ==> #[trigger] call_ensures(path_starts_with, (path, &roots@[j]), false),
    {
        if path_starts_with(path, &roots[i]) {
            assert(call_ensures(path_starts_with, (path, &roots@[i as int]), true));
            return true;
        }
    }
    false
}

/// Where a review stands.
pub enum Stage {
    /// The next root is to be resolved.
    Roots,
    /// The next path, which is absolute, is to be resolved.
    Resolve,
    /// The path, which lies under a root, is to be looked at.
    Inspect { path: PathBuf, shown: Seq<char> },
    /// Every path was accepted.
    Accepted,
    /// The request was turned down.
    Refused(Fault),
}

/// What a review has and where it stands.
pub struct Review {
    pub allowed_roots: Seq<Seq<char>>,
    pub max_file_bytes: nat,
    pub requested: Seq<Seq<char>>,
    /// The roots resolved so far.
    pub roots: Seq<PathBuf>,
    /// The files accepted so far.
    pub accepted: Seq<PathBuf>,
    pub stage: Stage,
}

impl Review {
    /// What a review keeps between questions.
    pub open spec fn wf(self) -> bool {
        &&& self.roots.len() <= self.allowed_roots.len()
        &&& self.accepted.len() <= self.requested.len()
        &&& match self.stage {
            Stage::Roots => {
                &&& self.roots.len() < self.allowed_roots.len()
                &&& self.accepted.len() == 0 < self.requested.len()
            },
            Stage::Resolve | Stage::Inspect { .. } => {
                &&& self.roots.len() == self.allowed_roots.len()
                &&& self.accepted.len() < self.requested.len()
                &&& self.roots.len() > 0
            },
            Stage::Accepted => self.accepted.len() == self.requested.len(),
            Stage::Refused(_) => true,
        }
    }

    /// The path that is looked at.
    pub open spec fn current(self) -> Seq<char> {
        self.requested[self.accepted.len() as int]
    }

    /// What the review wants to know next.
    pub open spec fn question(self) -> Option<Question> {
        match self.stage {
            Stage::Roots => Some(
                Question::ResolveRoot { root: self.allowed_roots[self.roots.len() as int] },
            ),
            Stage::Resolve => Some(Question::Resolve { path: self.current() }),
            Stage::Inspect { path, .. } => Some(Question::Inspect { path }),
            Stage::Accepted => None,
            Stage::Refused(_) => None,
        }
    }

    /// Whether a file may be uploaded.
    pub open spec fn admits(self, info: FileInfo) -> bool {
        info.is_file && info.len <= self.max_file_bytes
    }

    /// What the review tests when it gets an answer, if anything: the next path for being
    /// absolute, once all roots are resolved or a file was accepted, and a resolved path for
    /// lying under a root.
    pub open spec fn test_for(self, reply: Reply) -> Option<Test> {
        match (self.stage, reply) {
            (Stage::Roots, Reply::Root(Ok(_))) => if self.roots.len() + 1
                < self.allowed_roots.len() {
                None
            } else {
                Some(Test::IsAbsolute { path: self.current() })
            },
            (Stage::Resolve, Reply::Path(Ok((path, _)))) => Some(
                Test::IsUnderRoot { path, roots: self.roots },
            ),
            (Stage::Inspect { .. }, Reply::File(Ok(info))) => if self.admits(info)
                && self.accepted.len() + 1 < self.requested.len() {
                Some(Test::IsAbsolute { path: self.requested[self.accepted.len() as int + 1] })
            } else {
                None
            },
            _ => None,
        }
    }

    pub open spec fn refused(self, fault: Fault) -> Review {
        Review { stage: Stage::Refused(fault), ..self }
    }

    /// The review at its next path.
    pub open spec fn at_path(self, absolute: bool) -> Review {
        if absolute {
            Review { stage: Stage::Resolve, ..self }
        } else {
            self.refused(Fault::NotAbsolute { path: self.current() })
        }
    }

    pub open spec fn root_resolved(
        self,
        answer: Result<PathBuf, Seq<char>>,
        absolute: bool,
    ) -> Review {
        match answer {
            Ok(root) => {
                let next = Review { roots: self.roots.push(root), ..self };
                if self.roots.len() + 1 < self.allowed_roots.len() {
                    next
                } else {
                    next.at_path(absolute)
                }
            },
            Err(error) => self.refused(
                Fault::RootUnresolved {
                    root: self.allowed_roots[self.roots.len() as int],
                    error,
                },
            ),
        }
    }

    pub open spec fn path_resolved(
        self,
        answer: Result<(PathBuf, Seq<char>), Seq<char>>,
        under_root: bool,
    ) -> Review {
        match answer {
            Ok((path, shown)) => if under_root {
                Review { stage: Stage::Inspect { path, shown }, ..self }
            } else {
                self.refused(Fault::OutsideRoots { path: shown })
            },
            Err(error) => self.refused(Fault::PathUnresolved { path: self.current(), error }),
        }
    }

    pub open spec fn file_inspected(
        self,
        path: PathBuf,
        shown: Seq<char>,
        answer: Result<FileInfo, Seq<char>>,
        absolute: bool,
    ) -> Review {
        match answer {
            Err(error) => self.refused(Fault::NoMetadata { path: shown, error }),
            Ok(info) => if !info.is_file {
                self.refused(Fault::NotAFile { path: shown })
            } else if info.len > self.max_file_bytes {
                self.refused(
                    Fault::TooLarge {
                        path: shown,
                        size: info.len as nat,
                        max: self.max_file_bytes,
                    },
                )
            } else {
                let next = Review { accepted: self.accepted.push(path), ..self };
                if self.accepted.len() + 1 < self.requested.len() {
                    next.at_path(absolute)
                } else {
                    Review { stage: Stage::Accepted, ..next }
                }
            },
        }
    }

    /// The review after an answer, and the result of the test that goes with it. An answer
    /// to another question than the one asked changes nothing.
    pub open spec fn answered(self, reply: Reply, result: bool) -> Review {
        match (self.stage, reply) {
            (Stage::Roots, Reply::Root(answer)) => self.root_resolved(answer, result),
            (Stage::Resolve, Reply::Path(answer)) => self.path_resolved(answer, result),
            (Stage::Inspect { path, shown }, Reply::File(answer)) => self.file_inspected(
                path,
                shown,
                answer,
                result,
            ),
            _ => self,
        }
    }

    /// What came of the review, once it asks nothing more.
    pub open spec fn outcome(self) -> Result<Seq<PathBuf>, Fault> {
        match self.stage {
            Stage::Refused(fault) => Err(fault),
            _ => Ok(self.accepted),
        }
    }
}

#[derive(Debug)]
enum ReviewStage {
    Roots,
    Resolve,
    Inspect { found: ResolvedPath },
    Accepted,
    Refused(UploadError),
}

impl View for ReviewStage {
    type V = Stage;

    closed spec fn view(&self) -> Stage {
        match *self {
            ReviewStage::Roots => Stage::Roots,
            ReviewStage::Resolve => Stage::Resolve,
            ReviewStage::Inspect { found } => Stage::Inspect {
                path: found.path,
                shown: found.shown@,
            },
            ReviewStage::Accepted => Stage::Accepted,
            ReviewStage::Refused(error) => Stage::Refused(error@),
        }
    }
}

/// A review of the files that the agent wants uploaded.
#[derive(Debug)]
pub struct UploadReview {
    allowed_roots: Vec<String>,
    max_file_bytes: u64,
    requested: Vec<String>,
    roots: Vec<PathBuf>,
    accepted: Vec<OutgoingAttachment>,
    stage: ReviewStage,
}

/// The path of each attachment.
pub open spec fn attached_paths(list: Seq<OutgoingAttachment>) -> Seq<PathBuf> {
    list.map_values(|a: OutgoingAttachment| a.path)
}

impl View for UploadReview {
    type V = Review;

    closed spec fn view(&self) -> Review {
        Review {
            allowed_roots: text::texts(self.allowed_roots@),
            max_file_bytes: self.max_file_bytes as nat,
            requested: text::texts(self.requested@),
            roots: self.roots@,
            accepted: attached_paths(self.accepted@),
            stage: self.stage@,
        }
    }
}

/// The review of a request before the first question.
pub open spec fn review_start(
    allowed_roots: Seq<Seq<char>>,
    max_file_bytes: nat,
    requested: Seq<Seq<char>>,
) -> Review {
    Review {
        allowed_roots,
        max_file_bytes,
        requested,
        roots: Seq::empty(),
        accepted: Seq::empty(),
        stage: if requested.len() == 0 {
            Stage::Accepted
        } else {
            Stage::Roots
        },
    }
}

/// What is wrong with a request before the file system is asked, if anything is.
pub open spec fn request_fault(config: UploadsConfig, requested: nat) -> Option<Fault> {
    if requested == 0 {
        None
    } else if !config.enabled {
        Some(Fault::Disabled)
    } else if requested > config.max_files {
        Some(Fault::TooMany { requested, max: config.max_files as nat })
    } else if config.allowed_roots@.len() == 0 {
        Some(Fault::NoAllowedRoots)
    } else {
        None
    }
}

fn copy_texts(list: &[String]) -> (r: Vec<String>)
    ensures
        text::texts(r@) == text::texts(list@),
{
    let mut out: Vec<String> = Vec::new();
    for i in 0..list.len()
        invariant
            text::texts(out@) == text::texts(list@).take(i as int),
    {
        let ghost before = out@;
        out.push(copy_text(list[i].as_str()));
        assert(text::texts(out@) =~= text::texts(before).push(list@[i as int]@));
        assert(text::texts(list@).take(i + 1) =~= text::texts(list@).take(i as int).push(
            list@[i as int]@,
        ));
    }
    assert(text::texts(list@).take(list@.len() as int) =~= text::texts(list@));
    out
}

/// The roots that uploads are confined to, which are to be resolved. There has to be one.
pub fn roots_to_resolve(raw_roots: &[String]) -> (r: Result<Vec<String>, UploadError>)
    ensures
        match r {
            Ok(roots) => raw_roots@.len() > 0 && text::texts(roots@) == text::texts(raw_roots@),
            Err(error) => raw_roots@.len() == 0 && error@ == Fault::NoAllowedRoots,
        },
{
    if raw_roots.len() == 0 {
        return Err(UploadError::NoAllowedRoots);
    }
    Ok(copy_texts(raw_roots))
}

/// Starts the review of the paths that the agent wants uploaded, or turns the request down
/// at once.
pub fn prepare_uploads(config: &UploadsConfig, raw_paths: Vec<String>) -> (r: Result<
    UploadReview,
    UploadError,
>)
    ensures
        match r {
            Ok(review) => {
                &&& request_fault(*config, raw_paths@.len()) is None
                &&& review@.wf()
                &&& review@ == review_start(
                    text::texts(config.allowed_roots@),
                    config.max_file_bytes as nat,
                    text::texts(raw_paths@),
                )
            },
            Err(error) => request_fault(*config, raw_paths@.len()) == Some(error@),
        },
        raw_paths@.len() == 0 ==> r is Ok,
        raw_paths@.len() > 0 ==> (r is Ok <==> config.enabled && raw_paths@.len()
            <= config.max_files && config.allowed_roots@.len() > 0),
{
    let (allowed_roots, stage) = if raw_paths.len() == 0 {
        (copy_texts(&config.allowed_roots), ReviewStage::Accepted)
    } else {
        if !config.enabled {
            return Err(UploadError::Disabled);
        }
        if raw_paths.len() > config.max_files {
            return Err(
                UploadError::TooMany { requested: raw_paths.len(), max: config.max_files },
            );
        }
        match roots_to_resolve(&config.allowed_roots) {
            Ok(roots) => (roots, ReviewStage::Roots),
            Err(error) => {
                return Err(error);
            },
        }
    };
    let review = UploadReview {
        allowed_roots,
        max_file_bytes: config.max_file_bytes,
        requested: raw_paths,
        roots: Vec::new(),
        accepted: Vec::new(),
        stage,
    };
    assert(review@.allowed_roots.len() == config.allowed_roots@.len());
    assert(review@.accepted =~= Seq::empty());
    Ok(review)
}

impl UploadReview {
    #[verifier::type_invariant]
    spec fn inv(self) -> bool {
        self@.wf()
    }

    /// What the review wants to know next; nothing once it is over.
    pub fn query(&self) -> (r: Option<UploadQuery<'_>>)
        ensures
            match r {
                Some(query) => self@.question() == Some(query@),
                None => self@.question() is None,
            },
    {
        proof {
            use_type_invariant(self);
        }
        match &self.stage {
            ReviewStage::Roots => Some(
                UploadQuery::ResolveRoot { root: &self.allowed_roots[self.roots.len()] },
            ),
            ReviewStage::Resolve => Some(
                UploadQuery::Resolve { path: &self.requested[self.accepted.len()] },
            ),
            ReviewStage::Inspect { found } => Some(UploadQuery::Inspect { path: &found.path }),
            ReviewStage::Accepted => None,
            ReviewStage::Refused(_) => None,
        }
    }

    /// Does the test that goes with an answer. Where there is none, the result means nothing.
    pub fn test(&self, answer: &UploadAnswer) -> (r: bool)
        ensures
            found(self@.test_for(answer@), r),
    {
        proof {
            use_type_invariant(self);
        }
        match (&self.stage, answer) {
            (ReviewStage::Roots, UploadAnswer::Root(Ok(_))) => {
                let last: bool = self.allowed_roots.len() - self.roots.len() == 1;
                last && path_is_absolute(self.requested[self.accepted.len()].as_str())
            },
            (ReviewStage::Resolve, UploadAnswer::Path(Ok(place))) => {
                under_a_root(&place.path, &self.roots)
            },
            (ReviewStage::Inspect { .. }, UploadAnswer::File(Ok(_))) => {
                let last: bool = self.requested.len() - self.accepted.len() == 1;
                !last && path_is_absolute(self.requested[self.accepted.len() + 1].as_str())
            },
            _ => false,
        }
    }

    /// Takes the answer to the question asked, and does the test that goes with it. An
    /// answer to another question changes nothing.
    pub fn answer(self, answer: UploadAnswer) -> (r: UploadReview)
        ensures
            exists|result: bool| #[trigger]
                found(self@.test_for(answer@), result) && r@ == self@.answered(answer@, result),
            r@.wf(),
    {
        let result: bool = self.test(&answer);
        self.answer_tested(answer, result)
    }

    /// Takes the answer to the question asked, given the result of the test that goes with
    /// it. An answer to another question changes nothing.
    pub fn answer_tested(self, answer: UploadAnswer, result: bool) -> (r: UploadReview)
        ensures
            r@ == self@.answered(answer@, result),
            r@.wf(),
    {
        proof {
            use_type_invariant(&self);
        }
        let UploadReview {
            allowed_roots,
            max_file_bytes,
            requested,
            mut roots,
            mut accepted,
            stage,
        } = self;
        let stage = match (stage, answer) {
            (ReviewStage::Roots, UploadAnswer::Root(Ok(root))) => {
                roots.push(root);
                if roots.len() < allowed_roots.len() {
                    ReviewStage::Roots
                } else {
                    path_stage(&requested[accepted.len()], result)
                }
            },
            (ReviewStage::Roots, UploadAnswer::Root(Err(error))) => ReviewStage::Refused(
                UploadError::RootUnresolved {
                    root: copy_text(allowed_roots[roots.len()].as_str()),
                    error,
                },
            ),
            (ReviewStage::Resolve, UploadAnswer::Path(Ok(found))) => {
                if result {
                    ReviewStage::Inspect { found }
                } else {
                    ReviewStage::Refused(UploadError::OutsideRoots { path: found.shown })
                }
            },
            (ReviewStage::Resolve, UploadAnswer::Path(Err(error))) => ReviewStage::Refused(
                UploadError::PathUnresolved {
                    path: copy_text(requested[accepted.len()].as_str()),
                    error,
                },
            ),
            (ReviewStage::Inspect { found }, UploadAnswer::File(Err(error))) => {
                ReviewStage::Refused(UploadError::NoMetadata { path: found.shown, error })
            },
            (ReviewStage::Inspect { found }, UploadAnswer::File(Ok(info))) => {
                if !info.is_file {
                    ReviewStage::Refused(UploadError::NotAFile { path: found.shown })
                } else if info.len > max_file_bytes {
                    ReviewStage::Refused(
                        UploadError::TooLarge {
                            path: found.shown,
                            size: info.len,
                            max: max_file_bytes,
                        },
                    )
                } else {
                    let ghost before = accepted@;
                    accepted.push(OutgoingAttachment { path: found.path });
                    assert(attached_paths(accepted@) =~= attached_paths(before).push(found.path));
                    if accepted.len() < requested.len() {
                        path_stage(&requested[accepted.len()], result)
                    } else {
                        ReviewStage::Accepted
                    }
                }
            },
            (stage, _) => stage,
        };
        UploadReview { allowed_roots, max_file_bytes, requested, roots, accepted, stage }
    }

    /// What came of the review: the attachments, or why there are none.
    pub fn finish(self) -> (r: Result<Vec<OutgoingAttachment>, UploadError>)
        requires
            self@.question() is None,
        ensures
            match r {
                Ok(list) => self@.outcome() == Ok::<Seq<PathBuf>, Fault>(attached_paths(list@)),
                Err(error) => self@.outcome() == Err::<Seq<PathBuf>, Fault>(error@),
            },
    {
        match self.stage {
            ReviewStage::Refused(error) => Err(error),
            _ => Ok(self.accepted),
        }
    }
}

fn path_stage(path: &String, absolute: bool) -> (r: ReviewStage)
    ensures
        r@ == if absolute {
            Stage::Resolve
        } else {
            Stage::Refused(Fault::NotAbsolute { path: path@ })
        },
{
    if absolute {
        ReviewStage::Resolve
    } else {
        ReviewStage::Refused(UploadError::NotAbsolute { path: copy_text(path.as_str()) })
    }
}

} // verus!
