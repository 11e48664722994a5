//! What a review of uploads comes to when every question is answered from one file system.
use crate::config::UploadsConfig;
use crate::text;
use crate::uploads;
use crate::uploads::{
    path_is_absolute, path_starts_with, Fault, FileInfo, Question, Reply, Review, Stage, Test,
};
use std::path::PathBuf;
use vstd::prelude::*;

verus! {

/// A file system, as far as reviews ask about it.
pub struct Disk {
    pub resolve_root: spec_fn(Seq<char>) -> Result<PathBuf, Seq<char>>,
    pub is_absolute: spec_fn(Seq<char>) -> bool,
    pub resolve: spec_fn(Seq<char>) -> Result<(PathBuf, Seq<char>), Seq<char>>,
    pub is_within: spec_fn(PathBuf, PathBuf) -> bool,
    pub inspect: spec_fn(PathBuf) -> Result<FileInfo, Seq<char>>,
}

impl Disk {
    pub open spec fn reply(self, question: Question) -> Reply {
        match question {
            Question::ResolveRoot { root } => Reply::Root((self.resolve_root)(root)),
            Question::Resolve { path } => Reply::Path((self.resolve)(path)),
            Question::Inspect { path } => Reply::File((self.inspect)(path)),
        }
    }

    /// What a test finds.
    pub open spec fn finds(self, test: Option<Test>) -> bool {
        match test {
            None => true,
            Some(Test::IsAbsolute { path }) => (self.is_absolute)(path),
            Some(Test::IsUnderRoot { path, roots }) => is_under(path, roots, self),
        }
    }

    /// Whether this is the file system that the path functions tell about.
    pub open spec fn is_told_by_paths(self) -> bool {
        &&& forall|path: &str, yes: bool| #[trigger]
            call_ensures(path_is_absolute, (path,), yes) ==> yes == (self.is_absolute)(path@)
        &&& forall|path: &PathBuf, root: &PathBuf, yes: bool| #[trigger]
            call_ensures(path_starts_with, (path, root), yes) ==> yes == (self.is_within)(
                *path,
                *root,
            )
    }

    /// The review after the next question, answered from this file system.
    pub open spec fn step(self, r: Review) -> Review {
        let reply = self.reply(r.question()->0);
        r.answered(reply, self.finds(r.test_for(reply)))
    }
}

/// How many more questions there can be about the path that is looked at.
pub open spec fn steps_left(r: Review) -> nat {
    match r.stage {
        Stage::Roots => 3,
        Stage::Resolve => 2,
        Stage::Inspect { .. } => 1,
        Stage::Accepted => 0,
        Stage::Refused(_) => 0,
    }
}

/// What a review comes to: it is answered until it asks nothing more.
pub open spec fn run(r: Review, disk: Disk) -> Result<Seq<PathBuf>, Fault>
    decreases
            r.allowed_roots.len() - r.roots.len(),
            r.requested.len() - r.accepted.len(),
            steps_left(r),
    when r.wf()
{
    match r.question() {
        None => r.outcome(),
        Some(_) => run(disk.step(r), disk),
    }
}

/// Whether one of the roots holds the path.
pub open spec fn is_under(path: PathBuf, roots: Seq<PathBuf>, disk: Disk) -> bool {
    exists|i: int| 0 <= i < roots.len() && #[trigger] (disk.is_within)(path, roots[i])
}

/// What one path comes to.
pub open spec fn path_verdict(
    path: Seq<char>,
    roots: Seq<PathBuf>,
    max_file_bytes: nat,
    disk: Disk,
) -> Result<PathBuf, Fault> {
    if !(disk.is_absolute)(path) {
        Err(Fault::NotAbsolute { path })
    } else {
        match (disk.resolve)(path) {
            Err(error) => Err(Fault::PathUnresolved { path, error }),
            Ok((found, shown)) => if !is_under(found, roots, disk) {
                Err(Fault::OutsideRoots { path: shown })
            } else {
                match (disk.inspect)(found) {
                    Err(error) => Err(Fault::NoMetadata { path: shown, error }),
                    Ok(info) => if !info.is_file {
                        Err(Fault::NotAFile { path: shown })
                    } else if info.len > max_file_bytes {
                        Err(
                            Fault::TooLarge {
                                path: shown,
                                size: info.len as nat,
                                max: max_file_bytes,
                            },
                        )
                    } else {
                        Ok(found)
                    },
                }
            },
        }
    }
}

/// What the paths come to: each resolved, in order, or what is wrong with the first bad one.
pub open spec fn paths_verdict(
    paths: Seq<Seq<char>>,
    roots: Seq<PathBuf>,
    max_file_bytes: nat,
    disk: Disk,
) -> Result<Seq<PathBuf>, Fault>
    decreases paths.len(),
{
    if paths.len() == 0 {
        Ok(Seq::empty())
    } else {
        match path_verdict(paths.first(), roots, max_file_bytes, disk) {
            Err(fault) => Err(fault),
            Ok(found) => match paths_verdict(paths.drop_first(), roots, max_file_bytes, disk) {
                Err(fault) => Err(fault),
                Ok(rest) => Ok(seq![found] + rest),
            },
        }
    }
}

/// The roots resolved, in order, or what is wrong with the first bad one.
pub open spec fn roots_verdict(roots: Seq<Seq<char>>, disk: Disk) -> Result<Seq<PathBuf>, Fault>
    decreases roots.len(),
{
    if roots.len() == 0 {
        Ok(Seq::empty())
    } else {
        match (disk.resolve_root)(roots.first()) {
            Err(error) => Err(Fault::RootUnresolved { root: roots.first(), error }),
            Ok(root) => match roots_verdict(roots.drop_first(), disk) {
                Err(fault) => Err(fault),
                Ok(rest) => Ok(seq![root] + rest),
            },
        }
    }
}

/// What a request to upload files comes to.
pub open spec fn verdict(
    config: UploadsConfig,
    requested: Seq<Seq<char>>,
    disk: Disk,
) -> Result<Seq<PathBuf>, Fault> {
    if requested.len() == 0 {
        Ok(Seq::empty())
    } else {
        match uploads::request_fault(config, requested.len()) {
            Some(fault) => Err(fault),
            None => match roots_verdict(text::texts(config.allowed_roots@), disk) {
                Err(fault) => Err(fault),
                Ok(roots) => paths_verdict(
                    requested,
                    roots,
                    config.max_file_bytes as nat,
                    disk,
                ),
            },
        }
    }
}

spec fn after<T>(head: Seq<T>, rest: Result<Seq<T>, Fault>) -> Result<Seq<T>, Fault> {
    match rest {
        Ok(tail) => Ok(head + tail),
        Err(fault) => Err(fault),
    }
}

/// A review that comes to its next path goes on with the verdicts on the paths that are left.
proof fn lemma_run_paths(r: Review, disk: Disk)
    requires
        r.wf(),
        r.roots.len() == r.allowed_roots.len() > 0,
        r.accepted.len() < r.requested.len(),
    ensures
        run(r.at_path((disk.is_absolute)(r.current())), disk) == after(
            r.accepted,
            paths_verdict(
                r.requested.skip(r.accepted.len() as int),
                r.roots,
                r.max_file_bytes,
                disk,
            ),
        ),
    decreases r.requested.len() - r.accepted.len(),
{
    let rest = r.requested.skip(r.accepted.len() as int);
    let path = r.current();
    assert(rest.first() == path);
    let tail = rest.drop_first();
    assert(tail =~= r.requested.skip(r.accepted.len() as int + 1));
    let a = r.at_path((disk.is_absolute)(path));
    if (disk.is_absolute)(path) {
        let b = disk.step(a);
        assert(run(a, disk) == run(b, disk));
        if let Ok((found, shown)) = (disk.resolve)(path) {
            if is_under(found, r.roots, disk) {
                let c = disk.step(b);
                assert(run(b, disk) == run(c, disk));
                if let Ok(info) = (disk.inspect)(found) {
                    if r.admits(info) {
                        let d = Review { accepted: r.accepted.push(found), ..b };
                        if d.accepted.len() < d.requested.len() {
                            assert(c == d.at_path((disk.is_absolute)(d.current())));
                            lemma_run_paths(d, disk);
                            let more = paths_verdict(tail, r.roots, r.max_file_bytes, disk);
                            if let Ok(list) = more {
                                assert(r.accepted.push(found) + list =~= r.accepted + (seq![found]
                                    + list));
                            }
                        } else {
                            assert(tail =~= Seq::empty());
                            assert(r.accepted.push(found) =~= r.accepted + (seq![found]
                                + Seq::empty()));
                        }
                    }
                }
            }
        }
    }
}

proof fn lemma_run_roots(r: Review, disk: Disk)
    requires
        r.wf(),
        r.stage is Roots,
    ensures
        run(r, disk) == match after(
            r.roots,
            roots_verdict(r.allowed_roots.skip(r.roots.len() as int), disk),
        ) {
            Err(fault) => Err(fault),
            Ok(roots) => paths_verdict(r.requested, roots, r.max_file_bytes, disk),
        },
    decreases r.allowed_roots.len() - r.roots.len(),
{
    let rest = r.allowed_roots.skip(r.roots.len() as int);
    let tail = rest.drop_first();
    assert(tail =~= r.allowed_roots.skip(r.roots.len() as int + 1));
    assert(rest.first() == r.allowed_roots[r.roots.len() as int]);
    let next = disk.step(r);
    assert(run(r, disk) == run(next, disk));
    if let Ok(root) = (disk.resolve_root)(rest.first()) {
        let more = roots_verdict(tail, disk);
        if next.stage is Roots {
            lemma_run_roots(next, disk);
            if let Ok(list) = more {
                assert(r.roots.push(root) + list =~= r.roots + (seq![root] + list));
            }
        } else {
            assert(tail =~= Seq::empty());
            assert(r.roots.push(root) =~= r.roots + (seq![root] + Seq::empty()));
            let at = Review { roots: r.roots.push(root), stage: Stage::Resolve, ..r };
            assert(next == at.at_path((disk.is_absolute)(at.current())));
            lemma_run_paths(at, disk);
            assert(r.requested.skip(0) =~= r.requested);
            let list = paths_verdict(r.requested, next.roots, r.max_file_bytes, disk);
            if let Ok(found) = list {
                assert(r.accepted + found =~= found);
            }
        }
    }
}

/// A review that is not turned down at once comes to the verdict on the request, whatever
/// the file system holds.
pub proof fn reviews_come_to_the_verdict(
    config: UploadsConfig,
    requested: Seq<Seq<char>>,
    disk: Disk,
)
    requires
        uploads::request_fault(config, requested.len()) is None,
    ensures
        run(
            uploads::review_start(
                text::texts(config.allowed_roots@),
                config.max_file_bytes as nat,
                requested,
            ),
            disk,
        ) == verdict(config, requested, disk),
{
    let roots = text::texts(config.allowed_roots@);
    let r = uploads::review_start(roots, config.max_file_bytes as nat, requested);
    if requested.len() > 0 {
        lemma_run_roots(r, disk);
        assert(roots.skip(0) =~= roots);
        if let Ok(list) = roots_verdict(roots, disk) {
            assert(Seq::empty() + list =~= list);
        }
    }
}

/// Where uploads are off, every request for a file is turned down for that, whatever else is
/// configured.
pub proof fn uploads_that_are_off_are_refused(
    config: UploadsConfig,
    requested: Seq<Seq<char>>,
    disk: Disk,
)
    requires
        !config.enabled,
    ensures
        verdict(config, requested, disk) == if requested.len() == 0 {
            Ok(Seq::<PathBuf>::empty())
        } else {
            Err(Fault::Disabled)
        },
{
}

proof fn lemma_paths_verdict_ok(
    paths: Seq<Seq<char>>,
    roots: Seq<PathBuf>,
    max_file_bytes: nat,
    disk: Disk,
    found: Seq<PathBuf>,
)
    requires
        paths_verdict(paths, roots, max_file_bytes, disk) == Ok::<Seq<PathBuf>, Fault>(found),
    ensures
        found.len() == paths.len(),
        forall|i: int|
            0 <= i < paths.len() ==> path_verdict(#[trigger] paths[i], roots, max_file_bytes, disk)
                == Ok::<PathBuf, Fault>(found[i]),
    decreases paths.len(),
{
    if paths.len() > 0 {
        let rest = paths_verdict(paths.drop_first(), roots, max_file_bytes, disk)->Ok_0;
        lemma_paths_verdict_ok(paths.drop_first(), roots, max_file_bytes, disk, rest);
        assert forall|i: int| 0 <= i < paths.len() implies path_verdict(
            #[trigger] paths[i],
            roots,
            max_file_bytes,
            disk,
        ) == Ok::<PathBuf, Fault>(found[i]) by {
            if i > 0 {
                assert(paths.drop_first()[i - 1] == paths[i]);
            }
        }
    }
}

/// Whether a resolved path may be uploaded.
pub open spec fn is_admissible(
    path: Seq<char>,
    found: PathBuf,
    roots: Seq<PathBuf>,
    max_file_bytes: nat,
    disk: Disk,
) -> bool {
    &&& (disk.is_absolute)(path)
    &&& (disk.resolve)(path) is Ok
    &&& (disk.resolve)(path)->Ok_0.0 == found
    &&& is_under(found, roots, disk)
    &&& (disk.inspect)(found) is Ok
    &&& (disk.inspect)(found)->Ok_0.is_file
    &&& (disk.inspect)(found)->Ok_0.len <= max_file_bytes
}

/// Nothing is uploaded that the configuration does not allow: where a request is granted,
/// uploads are on, there are not too many paths, and each, in order, is absolute and
/// resolves to a file under an allowed root that is not too large.
pub proof fn granted_uploads_are_allowed(
    config: UploadsConfig,
    requested: Seq<Seq<char>>,
    disk: Disk,
    found: Seq<PathBuf>,
)
    requires
        requested.len() > 0,
        verdict(config, requested, disk) == Ok::<Seq<PathBuf>, Fault>(found),
    ensures
        config.enabled,
        found.len() == requested.len() <= config.max_files,
        roots_verdict(text::texts(config.allowed_roots@), disk) is Ok,
        forall|i: int|
            0 <= i < requested.len() ==> is_admissible(
                #[trigger] requested[i],
                found[i],
                roots_verdict(text::texts(config.allowed_roots@), disk)->Ok_0,
                config.max_file_bytes as nat,
                disk,
            ),
{
    let roots = roots_verdict(text::texts(config.allowed_roots@), disk)->Ok_0;
    lemma_paths_verdict_ok(requested, roots, config.max_file_bytes as nat, disk, found);
}

/// A request is granted where the configuration allows all of it.
pub proof fn allowed_uploads_are_granted(
    config: UploadsConfig,
    requested: Seq<Seq<char>>,
    disk: Disk,
    roots: Seq<PathBuf>,
    found: Seq<PathBuf>,
)
    requires
        uploads::request_fault(config, requested.len()) is None,
        roots_verdict(text::texts(config.allowed_roots@), disk) == Ok::<Seq<PathBuf>, Fault>(roots),
        found.len() == requested.len(),
        forall|i: int|
            0 <= i < requested.len() ==> is_admissible(
                #[trigger] requested[i],
                found[i],
                roots,
                config.max_file_bytes as nat,
                disk,
            ),
    ensures
        verdict(config, requested, disk) == Ok::<Seq<PathBuf>, Fault>(found),
{
    lemma_paths_granted(requested, roots, config.max_file_bytes as nat, disk, found);
    if requested.len() == 0 {
        assert(found =~= Seq::empty());
    }
}

proof fn lemma_paths_granted(
    paths: Seq<Seq<char>>,
    roots: Seq<PathBuf>,
    max_file_bytes: nat,
    disk: Disk,
    found: Seq<PathBuf>,
)
    requires
        found.len() == paths.len(),
        forall|i: int|
            0 <= i < paths.len() ==> is_admissible(
                #[trigger] paths[i],
                found[i],
                roots,
                max_file_bytes,
                disk,
            ),
    ensures
        paths_verdict(paths, roots, max_file_bytes, disk) == Ok::<Seq<PathBuf>, Fault>(found),
    decreases paths.len(),
{
    if paths.len() == 0 {
        assert(found =~= Seq::empty());
    } else {
        assert(paths[0] == paths.first());
        let rest = paths.drop_first();
        assert(forall|i: int| 0 <= i < rest.len() ==> rest[i] == paths[i + 1]);
        assert forall|i: int| 0 <= i < rest.len() implies is_admissible(
            #[trigger] rest[i],
            found.drop_first()[i],
            roots,
            max_file_bytes,
            disk,
        ) by {
            assert(is_admissible(paths[i + 1], found[i + 1], roots, max_file_bytes, disk));
        }
        lemma_paths_granted(rest, roots, max_file_bytes, disk, found.drop_first());
        assert(seq![found[0]] + found.drop_first() =~= found);
    }
}

/// A path is resolved only once it was found to be absolute.
pub proof fn only_absolute_paths_are_resolved(r: Review, reply: Reply, result: bool)
    requires
        r.wf(),
        r.stage !is Resolve,
        r.answered(reply, result).stage is Resolve,
    ensures
        result,
        r.test_for(reply) == Some(Test::IsAbsolute { path: r.answered(reply, result).current() }),
        r.answered(reply, result).question() == Some(
            Question::Resolve { path: r.answered(reply, result).current() },
        ),
{
}

/// The metadata of a path is asked for only once the path was found to lie under a root.
pub proof fn only_paths_under_a_root_are_inspected(r: Review, reply: Reply, result: bool)
    requires
        r.wf(),
        r.stage !is Inspect,
        r.answered(reply, result).stage is Inspect,
    ensures
        result,
        reply is Path && reply->Path_0 is Ok,
        r.test_for(reply) == Some(
            Test::IsUnderRoot { path: reply->Path_0->Ok_0.0, roots: r.roots },
        ),
        r.answered(reply, result).question() == Some(
            Question::Inspect { path: reply->Path_0->Ok_0.0 },
        ),
{
}

/// A review that does its tests by the path functions, and is answered from the file system
/// that they tell about, takes the step that the file system gives.
pub proof fn tested_reviews_take_the_step_of_the_disk(r: Review, disk: Disk, result: bool)
    requires
        disk.is_told_by_paths(),
        r.question() is Some,
        uploads::found(r.test_for(disk.reply(r.question()->0)), result),
    ensures
        r.answered(disk.reply(r.question()->0), result) == disk.step(r),
{
    let test = r.test_for(disk.reply(r.question()->0));
    match test {
        None => {},
        Some(Test::IsAbsolute { path }) => {
            assert(result == disk.finds(test));
        },
        Some(Test::IsUnderRoot { path, roots }) => {
            if result {
                let i = choose|i: int|
                    0 <= i < roots.len() && #[trigger] call_ensures(
                        path_starts_with,
                        (&path, &roots[i]),
                        true,
                    );
                assert((disk.is_within)(path, roots[i]));
            } else {
                assert forall|i: int| 0 <= i < roots.len() implies !#[trigger] (disk.is_within)(
                    path,
                    roots[i],
                ) by {
                    assert(call_ensures(path_starts_with, (&path, &roots[i]), false));
                }
            }
        },
    }
}

/// A review that is over takes no more answers.
pub proof fn finished_reviews_stay_finished(r: Review, reply: Reply, result: bool)
    requires
        r.question() is None,
    ensures
        r.answered(reply, result) == r,
{
}

/// A request for files is turned down before the file system is asked only if uploads are
/// off, it names more paths than are allowed, or no root is allowed, looked at in this order.
pub proof fn requests_within_the_limits_are_looked_at(config: UploadsConfig, requested: nat)
    ensures
        uploads::request_fault(config, 0) is None,
        config.enabled && requested <= config.max_files && config.allowed_roots@.len() > 0
            ==> uploads::request_fault(config, requested) is None,
        requested > 0 && !config.enabled ==> uploads::request_fault(config, requested) == Some(
            Fault::Disabled,
        ),
        requested > config.max_files && config.enabled ==> uploads::request_fault(
            config,
            requested,
        ) == Some(Fault::TooMany { requested, max: config.max_files as nat }),
        0 < requested <= config.max_files && config.enabled && config.allowed_roots@.len() == 0
            ==> uploads::request_fault(config, requested) == Some(Fault::NoAllowedRoots),
{
}

/// A request for fewer files is looked at wherever one for more is.
pub proof fn fewer_files_are_never_too_many(config: UploadsConfig, fewer: nat, more: nat)
    requires
        0 < fewer <= more,
        uploads::request_fault(config, more) is None,
    ensures
        uploads::request_fault(config, fewer) is None,
{
}

proof fn lemma_roots_resolved(names: Seq<Seq<char>>, roots: Seq<PathBuf>, disk: Disk)
    requires
        roots.len() == names.len(),
        forall|i: int|
            0 <= i < names.len() ==> (disk.resolve_root)(#[trigger] names[i])
                == Ok::<PathBuf, Seq<char>>(roots[i]),
    ensures
        roots_verdict(names, disk) == Ok::<Seq<PathBuf>, Fault>(roots),
    decreases names.len(),
{
    if names.len() == 0 {
        assert(roots =~= Seq::empty());
    } else {
        assert(names[0] == names.first());
        let rest = names.drop_first();
        assert(forall|i: int| 0 <= i < rest.len() ==> rest[i] == names[i + 1]);
        lemma_roots_resolved(rest, roots.drop_first(), disk);
        assert(seq![roots[0]] + roots.drop_first() =~= roots);
    }
}

proof fn lemma_root_unresolved(
    names: Seq<Seq<char>>,
    at: int,
    error: Seq<char>,
    disk: Disk,
)
    requires
        0 <= at < names.len(),
        forall|i: int| 0 <= i < at ==> (disk.resolve_root)(#[trigger] names[i]) is Ok,
        (disk.resolve_root)(names[at]) == Err::<PathBuf, Seq<char>>(error),
    ensures
        roots_verdict(names, disk) == Err::<Seq<PathBuf>, Fault>(
            Fault::RootUnresolved { root: names[at], error },
        ),
    decreases names.len(),
{
    assert(names[0] == names.first());
    if at > 0 {
        let rest = names.drop_first();
        assert(forall|i: int| 0 <= i < rest.len() ==> rest[i] == names[i + 1]);
        lemma_root_unresolved(rest, at - 1, error, disk);
    }
}

proof fn lemma_path_refused(
    paths: Seq<Seq<char>>,
    roots: Seq<PathBuf>,
    max_file_bytes: nat,
    disk: Disk,
    found: Seq<PathBuf>,
    fault: Fault,
)
    requires
        found.len() < paths.len(),
        forall|i: int|
            0 <= i < found.len() ==> is_admissible(
                #[trigger] paths[i],
                found[i],
                roots,
                max_file_bytes,
                disk,
            ),
        path_verdict(paths[found.len() as int], roots, max_file_bytes, disk) == Err::<
            PathBuf,
            Fault,
        >(fault),
    ensures
        paths_verdict(paths, roots, max_file_bytes, disk) == Err::<Seq<PathBuf>, Fault>(fault),
    decreases paths.len(),
{
    assert(paths[0] == paths.first());
    if found.len() > 0 {
        let rest = paths.drop_first();
        assert(forall|i: int| 0 <= i < rest.len() ==> rest[i] == paths[i + 1]);
        assert forall|i: int| 0 <= i < found.len() - 1 implies is_admissible(
            #[trigger] rest[i],
            found.drop_first()[i],
            roots,
            max_file_bytes,
            disk,
        ) by {
            assert(is_admissible(paths[i + 1], found[i + 1], roots, max_file_bytes, disk));
        }
        lemma_path_refused(rest, roots, max_file_bytes, disk, found.drop_first(), fault);
    }
}

/// The review of a request within the limits grants every file, in order, where each root
/// resolves and each path is absolute and resolves to a file under one of the roots that is
/// not too large.
pub proof fn reviews_grant_what_is_configured(
    config: UploadsConfig,
    requested: Seq<Seq<char>>,
    disk: Disk,
    roots: Seq<PathBuf>,
    found: Seq<PathBuf>,
)
    requires
        config.enabled,
        0 < requested.len() <= config.max_files,
        roots.len() == config.allowed_roots@.len() > 0,
        forall|i: int|
            0 <= i < roots.len() ==> (disk.resolve_root)(
                (#[trigger] config.allowed_roots@[i])@,
            ) == Ok::<PathBuf, Seq<char>>(roots[i]),
        found.len() == requested.len(),
        forall|i: int|
            0 <= i < requested.len() ==> {
                &&& (disk.is_absolute)(#[trigger] requested[i])
                &&& (disk.resolve)(requested[i]) is Ok
                &&& (disk.resolve)(requested[i])->Ok_0.0 == found[i]
                &&& exists|k: int|
                    0 <= k < roots.len() && #[trigger] (disk.is_within)(found[i], roots[k])
                &&& (disk.inspect)(found[i]) is Ok
                &&& (disk.inspect)(found[i])->Ok_0.is_file
                &&& (disk.inspect)(found[i])->Ok_0.len <= config.max_file_bytes
            },
    ensures
        uploads::request_fault(config, requested.len()) is None,
        run(
            uploads::review_start(
                text::texts(config.allowed_roots@),
                config.max_file_bytes as nat,
                requested,
            ),
            disk,
        ) == Ok::<Seq<PathBuf>, Fault>(found),
{
    let names = text::texts(config.allowed_roots@);
    assert forall|i: int| 0 <= i < names.len() implies (disk.resolve_root)(#[trigger] names[i])
        == Ok::<PathBuf, Seq<char>>(roots[i]) by {
        assert(names[i] == config.allowed_roots@[i]@);
    }
    lemma_roots_resolved(names, roots, disk);
    assert forall|i: int| 0 <= i < requested.len() implies is_admissible(
        #[trigger] requested[i],
        found[i],
        roots,
        config.max_file_bytes as nat,
        disk,
    ) by {
        assert((disk.is_absolute)(requested[i]));
        let k = choose|k: int|
            0 <= k < roots.len() && #[trigger] (disk.is_within)(found[i], roots[k]);
        assert((disk.is_within)(found[i], roots[k]));
    }
    lemma_paths_granted(requested, roots, config.max_file_bytes as nat, disk, found);
    reviews_come_to_the_verdict(config, requested, disk);
}

/// The review of a request for nothing grants nothing, whatever is configured.
pub proof fn reviews_of_nothing_grant_nothing(config: UploadsConfig, disk: Disk)
    ensures
        uploads::request_fault(config, 0) is None,
        run(
            uploads::review_start(
                text::texts(config.allowed_roots@),
                config.max_file_bytes as nat,
                Seq::empty(),
            ),
            disk,
        ) == Ok::<Seq<PathBuf>, Fault>(Seq::empty()),
{
    reviews_come_to_the_verdict(config, Seq::empty(), disk);
}

/// The review of a request within the limits is refused for the first root that cannot be
/// resolved, if there is one.
pub proof fn reviews_refuse_for_the_first_bad_root(
    config: UploadsConfig,
    requested: Seq<Seq<char>>,
    disk: Disk,
    at: int,
)
    requires
        config.enabled,
        0 < requested.len() <= config.max_files,
        0 <= at < config.allowed_roots@.len(),
        forall|i: int|
            0 <= i < at ==> (disk.resolve_root)((#[trigger] config.allowed_roots@[i])@) is Ok,
        (disk.resolve_root)(config.allowed_roots@[at]@) is Err,
    ensures
        run(
            uploads::review_start(
                text::texts(config.allowed_roots@),
                config.max_file_bytes as nat,
                requested,
            ),
            disk,
        ) == Err::<Seq<PathBuf>, Fault>(
            Fault::RootUnresolved {
                root: config.allowed_roots@[at]@,
                error: (disk.resolve_root)(config.allowed_roots@[at]@)->Err_0,
            },
        ),
{
    let names = text::texts(config.allowed_roots@);
    assert(names[at] == config.allowed_roots@[at]@);
    assert forall|i: int| 0 <= i < at implies (disk.resolve_root)(#[trigger] names[i]) is Ok by {
        assert(names[i] == config.allowed_roots@[i]@);
    }
    lemma_root_unresolved(names, at, (disk.resolve_root)(names[at])->Err_0, disk);
    reviews_come_to_the_verdict(config, requested, disk);
}

/// The review of a request within the limits whose roots all resolve is refused for the
/// first path that may not be uploaded, with the first thing that is wrong with it.
pub proof fn reviews_refuse_for_the_first_bad_path(
    config: UploadsConfig,
    requested: Seq<Seq<char>>,
    disk: Disk,
    roots: Seq<PathBuf>,
    found: Seq<PathBuf>,
)
    requires
        config.enabled,
        found.len() < requested.len() <= config.max_files,
        roots.len() == config.allowed_roots@.len() > 0,
        forall|i: int|
            0 <= i < roots.len() ==> (disk.resolve_root)(
                (#[trigger] config.allowed_roots@[i])@,
            ) == Ok::<PathBuf, Seq<char>>(roots[i]),
        forall|i: int|
            0 <= i < found.len() ==> {
                &&& (disk.is_absolute)(#[trigger] requested[i])
                &&& (disk.resolve)(requested[i]) is Ok
                &&& (disk.resolve)(requested[i])->Ok_0.0 == found[i]
                &&& exists|k: int|
                    0 <= k < roots.len() && #[trigger] (disk.is_within)(found[i], roots[k])
                &&& (disk.inspect)(found[i]) is Ok
                &&& (disk.inspect)(found[i])->Ok_0.is_file
                &&& (disk.inspect)(found[i])->Ok_0.len <= config.max_file_bytes
            },
    ensures
        ({
            let path = requested[found.len() as int];
            let max = config.max_file_bytes as nat;
            let came_to = run(
                uploads::review_start(text::texts(config.allowed_roots@), max, requested),
                disk,
            );
            if !(disk.is_absolute)(path) {
                came_to == Err::<Seq<PathBuf>, Fault>(Fault::NotAbsolute { path })
            } else {
                match (disk.resolve)(path) {
                    Err(error) => came_to == Err::<Seq<PathBuf>, Fault>(
                        Fault::PathUnresolved { path, error },
                    ),
                    Ok((place, shown)) => if forall|k: int|
                        0 <= k < roots.len() ==> !#[trigger] (disk.is_within)(place, roots[k]) {
                        came_to == Err::<Seq<PathBuf>, Fault>(
                            Fault::OutsideRoots { path: shown },
                        )
                    } else {
                        match (disk.inspect)(place) {
                            Err(error) => came_to == Err::<Seq<PathBuf>, Fault>(
                                Fault::NoMetadata { path: shown, error },
                            ),
                            Ok(info) => {
                                &&& !info.is_file ==> came_to == Err::<Seq<PathBuf>, Fault>(
                                    Fault::NotAFile { path: shown },
                                )
                                &&& info.is_file && info.len > max ==> came_to == Err::<
                                    Seq<PathBuf>,
                                    Fault,
                                >(Fault::TooLarge { path: shown, size: info.len as nat, max })
                            },
                        }
                    },
                }
            }
        }),
{
    let names = text::texts(config.allowed_roots@);
    let max = config.max_file_bytes as nat;
    assert forall|i: int| 0 <= i < names.len() implies (disk.resolve_root)(#[trigger] names[i])
        == Ok::<PathBuf, Seq<char>>(roots[i]) by {
        assert(names[i] == config.allowed_roots@[i]@);
    }
    lemma_roots_resolved(names, roots, disk);
    assert forall|i: int| 0 <= i < found.len() implies is_admissible(
        #[trigger] requested[i],
        found[i],
        roots,
        max,
        disk,
    ) by {
        assert((disk.is_absolute)(requested[i]));
        let k = choose|k: int|
            0 <= k < roots.len() && #[trigger] (disk.is_within)(found[i], roots[k]);
        assert((disk.is_within)(found[i], roots[k]));
    }
    reviews_come_to_the_verdict(config, requested, disk);
    let path = requested[found.len() as int];
    if let Err(fault) = path_verdict(path, roots, max, disk) {
        lemma_path_refused(requested, roots, max, disk, found, fault);
    }
}

/// A review takes only the answer to the question it asked.
pub proof fn reviews_take_only_the_answer_they_asked_for(r: Review, reply: Reply, result: bool)
    requires
        match r.question() {
            None => true,
            Some(Question::ResolveRoot { .. }) => reply !is Root,
            Some(Question::Resolve { .. }) => reply !is Path,
            Some(Question::Inspect { .. }) => reply !is File,
        },
    ensures
        r.answered(reply, result) == r,
{
}

/// Refusals say in words what was wrong, with the path and the limits that matter.
pub proof fn refusals_say_what_was_wrong(
    path: Seq<char>,
    error: Seq<char>,
    n: nat,
    max: nat,
)
    ensures
        Fault::Disabled.text() == "agent requested file upload, but [uploads].enabled is false"@,
        (Fault::TooMany { requested: n, max }).text() == "agent requested "@ + text::decimal(n)
            + " uploads, exceeding [uploads].max_files ("@ + text::decimal(max) + ")"@,
        Fault::NoAllowedRoots.text()
            == "[uploads].allowed_roots must contain at least one path when uploads are enabled"@,
        (Fault::RootUnresolved { root: path, error }).text() == "failed to resolve upload root "@
            + path + ": "@ + error,
        (Fault::NotAbsolute { path }).text() == "upload path must be absolute: "@ + path,
        (Fault::PathUnresolved { path, error }).text() == "failed to resolve upload path "@ + path
            + ": "@ + error,
        (Fault::OutsideRoots { path }).text() == "upload path "@ + path
            + " is outside [uploads].allowed_roots"@,
        (Fault::NoMetadata { path, error }).text() == "failed to read upload metadata "@ + path
            + ": "@ + error,
        (Fault::NotAFile { path }).text() == "upload path is not a file: "@ + path,
        (Fault::TooLarge { path, size: n, max }).text() == "upload file "@ + path + " is "@
            + text::decimal(n) + " bytes, exceeding [uploads].max_file_bytes ("@ + text::decimal(
            max,
        ) + ")"@,
{
}

} // verus!
