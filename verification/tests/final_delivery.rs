use chat_adapter::adapter::OutgoingAttachment;
use chat_adapter::delivery::{plan_answer, send_final_response, Delivery, DeliveryStep};
use chat_adapter::uploads::UploadError;
use std::path::PathBuf;

fn files(n: usize) -> Vec<OutgoingAttachment> {
    (0..n).map(|i| OutgoingAttachment { path: PathBuf::from(format!("/f{i}")) }).collect()
}

fn chunks(list: &[&str]) -> Vec<String> {
    list.iter().map(|s| s.to_string()).collect()
}

fn named(step: &DeliveryStep) -> String {
    match step {
        DeliveryStep::Edit(text) => format!("edit {text}"),
        DeliveryStep::Send(text) => format!("send {text}"),
        DeliveryStep::SendFiles { text, from, to } => format!("files {from}..{to} {text}"),
    }
}

fn all(mut delivery: Delivery) -> Vec<String> {
    let mut out = Vec::new();
    loop {
        match delivery.step() {
            Some(step) => out.push(named(step)),
            None => return out,
        }
        delivery.report(true);
    }
}

#[test]
fn text_replaces_the_placeholder() {
    let plan = send_final_response(true, &chunks(&["a", "b", "c"]), &files(0));
    assert_eq!(all(plan), vec!["edit a", "send b", "send c"]);
    assert!(all(send_final_response(true, &chunks(&[]), &files(0))).is_empty());
}

#[test]
fn without_a_placeholder_all_text_is_sent() {
    let plan = send_final_response(false, &chunks(&["a", "b"]), &files(0));
    assert_eq!(all(plan), vec!["send a", "send b"]);
    assert!(all(send_final_response(false, &chunks(&[]), &files(0))).is_empty());
}

#[test]
fn files_follow_the_text_of_a_placeholder() {
    let plan = send_final_response(true, &chunks(&["a", "b"]), &files(21));
    assert_eq!(
        all(plan),
        vec!["edit a", "send b", "files 0..10 ", "files 10..20 ", "files 20..21 "]
    );
}

#[test]
fn a_placeholder_without_text_tells_of_the_upload() {
    let plan = send_final_response(true, &chunks(&[]), &files(10));
    assert_eq!(
        all(plan),
        vec!["edit Uploading 10 file(s)...", "files 0..10 ", "edit Uploaded 10 file(s)."]
    );
}

#[test]
fn the_first_files_go_with_the_first_text() {
    let plan = send_final_response(false, &chunks(&["a", "b"]), &files(11));
    assert_eq!(all(plan), vec!["files 0..10 a", "send b", "files 10..11 "]);
    let plan = send_final_response(false, &chunks(&["a"]), &files(3));
    assert_eq!(all(plan), vec!["files 0..3 a"]);
}

#[test]
fn files_go_out_without_text() {
    let plan = send_final_response(false, &chunks(&[]), &files(12));
    assert_eq!(all(plan), vec!["files 0..10 ", "files 10..12 "]);
}

#[test]
fn failed_edits_are_passed_over() {
    let mut plan = send_final_response(true, &chunks(&["a", "b"]), &files(0));
    plan.report(false);
    assert!(!plan.failed());
    assert_eq!(plan.step().map(named), Some("send b".to_string()));
}

#[test]
fn failed_messages_end_the_delivery() {
    let mut plan = send_final_response(false, &chunks(&["a", "b"]), &files(0));
    plan.report(false);
    assert!(plan.failed());
    assert!(plan.step().is_none());
    plan.report(true);
    assert!(plan.failed());
    assert!(plan.step().is_none());
    let mut plan = send_final_response(false, &chunks(&[]), &files(1));
    plan.report(false);
    assert!(plan.failed());
}

/// Pieces of at most `limit` bytes.
fn pieces(s: &str, limit: usize) -> Vec<String> {
    s.as_bytes().chunks(limit).map(|c| String::from_utf8(c.to_vec()).unwrap()).collect()
}

fn marked(s: &str, mode: &char) -> String {
    s.replace('|', &mode.to_string())
}

#[test]
fn refused_uploads_stop_the_answer() {
    let refused = UploadError::OutsideRoots { path: "/etc/passwd".into() };
    let convert = |_: &str, _: &char| -> String { panic!("the answer is converted") };
    let error = match plan_answer(Err(refused), true, "hello", &'*', convert, 9, pieces) {
        Ok(_) => panic!("the answer goes out"),
        Err(error) => error,
    };
    assert_eq!(error.message(), "upload path /etc/passwd is outside [uploads].allowed_roots");
}

#[test]
fn answers_go_out_with_the_uploads_that_were_granted() {
    let (attachments, delivery) =
        plan_answer(Ok(files(2)), true, "ab|d", &'*', marked, 2, pieces).unwrap();
    assert_eq!(attachments.len(), 2);
    assert_eq!(attachments[1].path, PathBuf::from("/f1"));
    assert_eq!(all(delivery), vec!["edit ab", "send *d", "files 0..2 "]);
    let (attachments, delivery) =
        plan_answer(Ok(files(0)), false, "ab|d", &'-', marked, 3, pieces).unwrap();
    assert!(attachments.is_empty());
    assert_eq!(all(delivery), vec!["send ab-", "send d"]);
}

#[test]
fn blank_answers_go_out_as_their_uploads_alone() {
    let (_, delivery) =
        plan_answer(Ok(files(1)), true, " |\n", &' ', marked, 9, pieces).unwrap();
    assert_eq!(
        all(delivery),
        vec!["edit Uploading 1 file(s)...", "files 0..1 ", "edit Uploaded 1 file(s)."]
    );
}
