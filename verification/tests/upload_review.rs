use chat_adapter::adapter::OutgoingAttachment;
use chat_adapter::config::UploadsConfig;
use chat_adapter::uploads::{
    path_is_absolute, path_starts_with, prepare_uploads, roots_to_resolve, under_a_root, FileInfo,
    ResolvedPath, UploadAnswer, UploadError, UploadQuery, UploadReview,
};
use std::path::PathBuf;

fn config(roots: &[&str], max_files: usize, max_file_bytes: u64) -> UploadsConfig {
    UploadsConfig {
        enabled: true,
        allowed_roots: roots.iter().map(|r| r.to_string()).collect(),
        max_files,
        max_file_bytes,
    }
}

/// Answers as a disk would on which `/data` holds files of 3 bytes, `/data/dir` is a
/// directory, `/link` leads to `/data/a.png`, and nothing with `missing` in it exists.
fn answer(query: &UploadQuery<'_>) -> UploadAnswer {
    match query {
        UploadQuery::ResolveRoot { root } => UploadAnswer::Root(if root.contains("missing") {
            Err("no such directory".into())
        } else {
            Ok(PathBuf::from(root.as_str()))
        }),
        UploadQuery::Resolve { path } => UploadAnswer::Path(if path.contains("missing") {
            Err("no such file".into())
        } else {
            let target = if path.as_str() == "/link" { "/data/a.png" } else { path.as_str() };
            Ok(ResolvedPath { path: PathBuf::from(target), shown: target.into() })
        }),
        UploadQuery::Inspect { path } => {
            UploadAnswer::File(if path.ends_with("locked") {
                Err("permission denied".into())
            } else {
                Ok(FileInfo { is_file: !path.ends_with("dir"), len: 3 })
            })
        }
    }
}

fn run(mut review: UploadReview) -> Result<Vec<OutgoingAttachment>, UploadError> {
    loop {
        let next = match review.query() {
            Some(query) => answer(&query),
            None => return review.finish(),
        };
        review = review.answer(next);
    }
}

fn outcome(config: &UploadsConfig, paths: &[&str]) -> Result<Vec<PathBuf>, String> {
    let raw = paths.iter().map(|p| p.to_string()).collect();
    match prepare_uploads(config, raw) {
        Err(error) => Err(error.message()),
        Ok(review) => match run(review) {
            Err(error) => Err(error.message()),
            Ok(list) => Ok(list.into_iter().map(|a| a.path).collect()),
        },
    }
}

#[test]
fn prepare_uploads_rejects_disabled_config() {
    let err = prepare_uploads(&UploadsConfig::default(), vec!["/tmp/a.png".into()])
        .unwrap_err()
        .message();
    assert!(err.contains("[uploads].enabled is false"));
}

#[test]
fn files_under_an_allowed_root_are_accepted() {
    let config = config(&["/srv", "/data"], 10, 1024);
    let uploads = outcome(&config, &["/data/a.png", "/link"]).unwrap();
    assert_eq!(uploads, vec![PathBuf::from("/data/a.png"), PathBuf::from("/data/a.png")]);
}

#[test]
fn a_request_for_nothing_is_granted_whatever_is_configured() {
    assert_eq!(outcome(&UploadsConfig::default(), &[]), Ok(Vec::new()));
    assert_eq!(outcome(&config(&["/missing"], 1, 1), &[]), Ok(Vec::new()));
}

#[test]
fn uploads_that_are_off_are_refused_whatever_else_is_set() {
    assert!(!UploadsConfig::default().enabled);
    let mut off = config(&["/data"], 10, 1024);
    off.enabled = false;
    for config in [UploadsConfig::default(), off] {
        assert_eq!(
            outcome(&config, &["/data/a.png"]),
            Err("agent requested file upload, but [uploads].enabled is false".to_string())
        );
    }
}

#[test]
fn too_many_files_are_refused() {
    assert_eq!(
        outcome(&config(&["/data"], 1, 9), &["/data/a", "/data/b"]),
        Err("agent requested 2 uploads, exceeding [uploads].max_files (1)".to_string())
    );
}

#[test]
fn some_root_has_to_be_allowed() {
    assert_eq!(
        outcome(&config(&[], 1, 9), &["/data/a"]),
        Err("[uploads].allowed_roots must contain at least one path when uploads are enabled"
            .to_string())
    );
    assert!(matches!(roots_to_resolve(&Vec::new()), Err(UploadError::NoAllowedRoots)));
    let roots = vec!["/a".to_string(), "/b".to_string()];
    assert_eq!(roots_to_resolve(&roots).unwrap(), roots);
}

#[test]
fn every_root_has_to_exist() {
    assert_eq!(
        outcome(&config(&["/data", "/missing"], 1, 9), &["/data/a"]),
        Err("failed to resolve upload root /missing: no such directory".to_string())
    );
}

#[test]
fn paths_have_to_be_absolute() {
    assert_eq!(
        outcome(&config(&["/data"], 9, 9), &["/data/a", "data/b", "/missing"]),
        Err("upload path must be absolute: data/b".to_string())
    );
}

#[test]
fn paths_have_to_exist() {
    assert_eq!(
        outcome(&config(&["/data"], 9, 9), &["/data/missing"]),
        Err("failed to resolve upload path /data/missing: no such file".to_string())
    );
}

#[test]
fn paths_have_to_lie_under_a_root() {
    assert_eq!(
        outcome(&config(&["/srv", "/data"], 9, 9), &["/etc/passwd"]),
        Err("upload path /etc/passwd is outside [uploads].allowed_roots".to_string())
    );
    assert_eq!(
        outcome(&config(&["/data"], 9, 9), &["/database/x"]),
        Err("upload path /database/x is outside [uploads].allowed_roots".to_string())
    );
}

#[test]
fn paths_have_to_be_readable_files() {
    let config = config(&["/data"], 9, 9);
    assert_eq!(
        outcome(&config, &["/data/locked"]),
        Err("failed to read upload metadata /data/locked: permission denied".to_string())
    );
    assert_eq!(
        outcome(&config, &["/data/dir"]),
        Err("upload path is not a file: /data/dir".to_string())
    );
}

#[test]
fn files_have_to_be_small_enough() {
    assert_eq!(outcome(&config(&["/data"], 9, 3), &["/data/a"]), Ok(vec![PathBuf::from("/data/a")]));
    assert_eq!(
        outcome(&config(&["/data"], 9, 2), &["/data/a"]),
        Err("upload file /data/a is 3 bytes, exceeding [uploads].max_file_bytes (2)".to_string())
    );
}

#[test]
fn reviews_ask_one_thing_at_a_time() {
    let mut review =
        prepare_uploads(&config(&["/srv", "/data"], 9, 9), vec!["/data/a".into()]).unwrap();
    let mut asked = Vec::new();
    loop {
        let next = match review.query() {
            None => break,
            Some(query) => {
                asked.push(match &query {
                    UploadQuery::ResolveRoot { root } => format!("root {root}"),
                    UploadQuery::Resolve { path } => format!("resolve {path}"),
                    UploadQuery::Inspect { path } => format!("inspect {}", path.display()),
                });
                answer(&query)
            }
        };
        review = review.answer(next);
    }
    assert_eq!(
        asked,
        vec![
            "root /srv",
            "root /data",
            "resolve /data/a",
            "inspect /data/a",
        ]
    );
}

#[test]
fn files_outside_the_roots_are_never_inspected() {
    let mut review =
        prepare_uploads(&config(&["/data"], 9, 9), vec!["/etc/passwd".into()]).unwrap();
    loop {
        let next = match review.query() {
            None => break,
            Some(query) => {
                assert!(!matches!(query, UploadQuery::Inspect { .. }));
                answer(&query)
            }
        };
        review = review.answer(next);
    }
    assert!(matches!(review.finish(), Err(UploadError::OutsideRoots { .. })));
}

#[test]
fn answers_to_other_questions_change_nothing() {
    let review = prepare_uploads(&config(&["/data"], 9, 9), vec!["/data/a".into()]).unwrap();
    let review = review.answer(UploadAnswer::Path(Err("no such file".into())));
    let review = review.answer(UploadAnswer::File(Ok(FileInfo { is_file: true, len: 0 })));
    assert!(matches!(review.query(), Some(UploadQuery::ResolveRoot { .. })));
}

#[test]
fn paths_are_tested_by_their_components() {
    assert!(path_is_absolute("/data/a"));
    assert!(!path_is_absolute("data/a"));
    assert!(!path_is_absolute(""));
    let root = PathBuf::from("/data");
    assert!(path_starts_with(&PathBuf::from("/data/a"), &root));
    assert!(path_starts_with(&root, &root));
    assert!(!path_starts_with(&PathBuf::from("/database/a"), &root));
    assert!(!path_starts_with(&root, &PathBuf::from("/data/a")));
}

#[test]
fn one_root_that_holds_the_path_is_enough() {
    let roots = vec![PathBuf::from("/srv"), PathBuf::from("/data")];
    assert!(under_a_root(&PathBuf::from("/srv/a"), &roots));
    assert!(under_a_root(&PathBuf::from("/data/a"), &roots));
    assert!(!under_a_root(&PathBuf::from("/etc/a"), &roots));
    assert!(!under_a_root(&PathBuf::from("/data/a"), &Vec::new()));
}

#[test]
fn the_first_path_has_to_be_absolute_too() {
    let mut review = prepare_uploads(&config(&["/data"], 9, 9), vec!["a".into()]).unwrap();
    review = review.answer(UploadAnswer::Root(Ok(PathBuf::from("/data"))));
    assert!(review.query().is_none());
    assert_eq!(review.finish().unwrap_err().message(), "upload path must be absolute: a");
}

#[test]
fn reviews_go_by_the_result_of_their_test() {
    let start = || prepare_uploads(&config(&["/data"], 9, 9), vec!["/data/a".into()]).unwrap();
    let root = || UploadAnswer::Root(Ok(PathBuf::from("/data")));
    assert!(start().test(&root()));
    let review = start().answer_tested(root(), false);
    assert_eq!(review.finish().unwrap_err().message(), "upload path must be absolute: /data/a");

    let review = start().answer_tested(root(), true);
    assert!(matches!(review.query(), Some(UploadQuery::Resolve { .. })));
    let found = || {
        let path = PathBuf::from("/etc/a");
        UploadAnswer::Path(Ok(ResolvedPath { path, shown: "/etc/a".into() }))
    };
    assert!(!review.test(&found()));
    let review = review.answer_tested(found(), false);
    assert_eq!(
        review.finish().unwrap_err().message(),
        "upload path /etc/a is outside [uploads].allowed_roots"
    );
    let review = start().answer_tested(root(), true).answer_tested(found(), true);
    assert!(matches!(review.query(), Some(UploadQuery::Inspect { .. })));
}
