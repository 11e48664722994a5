//! Upload directives: fenced blocks in an agent's reply that name local files to send.
use crate::text;
use crate::text::{cut_both_chars, from_chars, same_text, split_lines, to_chars, Cut};
use vstd::prelude::*;

verus! {

/// Whether a trimmed line opens an upload block.
pub open spec fn opens_upload(line: Seq<char>) -> bool {
    ||| line == "```openab-upload"@
    ||| line == "```openab-uploads"@
    ||| line == "```openab-send-images"@
}

/// Whether a trimmed line closes an upload block.
pub open spec fn closes_upload(line: Seq<char>) -> bool {
    line == "```"@
}

/// A line without the mark of a list item.
pub open spec fn without_bullet(line: Seq<char>) -> Seq<char> {
    if line.len() >= 2 && line[0] == '-' && line[1] == ' ' {
        line.skip(2)
    } else {
        line
    }
}

/// The path that a line of an upload block names: nothing for an empty line or a comment,
/// else the line without a list mark, surrounding white space and surrounding quotes.
pub open spec fn path_of_line(line: Seq<char>) -> Option<Seq<char>> {
    let line = text::trim(line);
    if line.len() == 0 || line[0] == '#' {
        None
    } else {
        let path = text::trim(without_bullet(line));
        Some(text::cut_both(text::cut_both(path, Cut::Only('"')), Cut::Only('\'')))
    }
}

/// How far a reply has been read.
pub struct Scan {
    /// Inside an upload block.
    pub in_block: bool,
    /// Directly after an upload block.
    pub after_block: bool,
    /// The lines that stay.
    pub shown: Seq<Seq<char>>,
    /// The paths that were named.
    pub paths: Seq<Seq<char>>,
}

/// Before the first line.
pub open spec fn scan_start() -> Scan {
    Scan { in_block: false, after_block: false, shown: Seq::empty(), paths: Seq::empty() }
}

/// One line read: upload blocks go, with one blank line directly after each, and their
/// lines name paths; every other line stays.
pub open spec fn scan_line(s: Scan, line: Seq<char>) -> Scan {
    let trimmed = text::trim(line);
    let next = Scan { after_block: false, ..s };
    if s.after_block && trimmed.len() == 0 {
        next
    } else if s.in_block {
        if closes_upload(trimmed) {
            Scan { in_block: false, after_block: true, ..s }
        } else {
            match path_of_line(trimmed) {
                Some(path) => Scan { paths: s.paths.push(path), ..next },
                None => next,
            }
        }
    } else if opens_upload(trimmed) {
        Scan { in_block: true, ..next }
    } else {
        Scan { shown: s.shown.push(line), ..next }
    }
}

/// All lines read in order.
pub open spec fn scan(lines: Seq<Seq<char>>) -> Scan
    decreases lines.len(),
{
    if lines.len() == 0 {
        scan_start()
    } else {
        scan_line(scan(lines.drop_last()), lines.last())
    }
}

/// What a reply shows once its upload blocks are out.
pub open spec fn visible_text(reply: Seq<char>) -> Seq<char> {
    text::trim(text::join(scan(text::lines(reply)).shown, seq!['\n']))
}

/// The paths that the upload blocks of a reply name, in order.
pub open spec fn upload_paths(reply: Seq<char>) -> Seq<Seq<char>> {
    scan(text::lines(reply)).paths
}

fn opens(line: &Vec<char>) -> (r: bool)
    ensures
        r == opens_upload(line@),
{
    same_text(line, "```openab-upload") || same_text(line, "```openab-uploads") || same_text(
        line,
        "```openab-send-images",
    )
}

/// Whether the line opens an upload block.
pub fn is_upload_fence_start(line: &str) -> (r: bool)
    ensures
        r == opens_upload(line@),
{
    opens(&to_chars(line))
}

fn path_in(line: &Vec<char>) -> (r: Option<String>)
    ensures
        text::optional_text(r) == path_of_line(line@),
{
    let line = cut_both_chars(line, Cut::WhiteSpace);
    if line.len() == 0 || line[0] == '#' {
        return None;
    }
    let start: usize = if line.len() >= 2 && line[0] == '-' && line[1] == ' ' {
        2
    } else {
        0
    };
    let mut rest: Vec<char> = Vec::new();
    for i in start..line.len()
        invariant
            start <= i <= line.len(),
            rest@ == line@.subrange(start as int, i as int),
    {
        rest.push(line[i]);
    }
    assert(rest@ =~= without_bullet(line@));
    let path = cut_both_chars(&rest, Cut::WhiteSpace);
    let path = cut_both_chars(&path, Cut::Only('"'));
    let path = cut_both_chars(&path, Cut::Only('\''));
    Some(from_chars(&path))
}

/// The path that a line of an upload block names, if it names one.
pub fn parse_upload_path_line(line: &str) -> (r: Option<String>)
    ensures
        text::optional_text(r) == path_of_line(line@),
{
    path_in(&to_chars(line))
}

fn join_lines(lines: &Vec<Vec<char>>) -> (r: Vec<char>)
    ensures
        r@ == text::join(text::char_texts(lines@), seq!['\n']),
{
    let ghost all = text::char_texts(lines@);
    let ghost sep = seq!['\n'];
    let mut out: Vec<char> = Vec::new();
    for i in 0..lines.len()
        invariant
            all == text::char_texts(lines@),
            sep == seq!['\n'],
            out@ == text::join(all.take(i as int), sep),
    {
        let ghost before = out@;
        if i > 0 {
            out.push('\n');
        }
        let ghost head = out@;
        let line = &lines[i];
        for j in 0..line.len()
            invariant
                out@ == head + line@.take(j as int),
        {
            out.push(line[j]);
            assert(line@.take(j + 1) =~= line@.take(j as int).push(line@[j as int]));
        }
        proof {
            assert(line@.take(line@.len() as int) =~= line@);
            let part = all.take(i + 1);
            assert(part.drop_last() =~= all.take(i as int));
            assert(part.last() == line@);
            if i > 0 {
                assert(head =~= before + sep);
            }
            assert(out@ =~= text::join(part, sep));
        }
    }
    assert(all.take(all.len() as int) =~= all);
    out
}

/// Splits a reply into what it shows and the paths that its upload blocks name.
pub fn extract_upload_directives(text: &str) -> (r: (String, Vec<String>))
    ensures
        r.0@ == visible_text(text@),
        text::texts(r.1@) == upload_paths(text@),
{
    let lines = split_lines(&to_chars(text));
    let ghost all = text::char_texts(lines@);
    let mut shown: Vec<Vec<char>> = Vec::new();
    let mut paths: Vec<String> = Vec::new();
    let mut in_block: bool = false;
    let mut after_block: bool = false;
    assert(text::char_texts(shown@) =~= Seq::empty());
    assert(text::texts(paths@) =~= Seq::empty());
    for i in 0..lines.len()
        invariant
            all == text::char_texts(lines@),
            scan(all.take(i as int)) == (Scan {
                in_block,
                after_block,
                shown: text::char_texts(shown@),
                paths: text::texts(paths@),
            }),
    {
        let line = &lines[i];
        let trimmed = cut_both_chars(line, Cut::WhiteSpace);
        let ghost before = scan(all.take(i as int));
        let ghost shown_before = shown@;
        let ghost paths_before = paths@;
        if after_block && trimmed.len() == 0 {
            after_block = false;
        } else if in_block {
            if same_text(&trimmed, "```") {
                in_block = false;
                after_block = true;
            } else {
                after_block = false;
                match path_in(&trimmed) {
                    Some(path) => {
                        paths.push(path);
                        assert(text::texts(paths@) =~= text::texts(paths_before).push(path@));
                    },
                    None => {},
                }
            }
        } else {
            after_block = false;
            if opens(&trimmed) {
                in_block = true;
            } else {
                let kept = line.clone();
                assert(kept@ =~= line@);
                shown.push(kept);
                assert(text::char_texts(shown@) =~= text::char_texts(shown_before).push(line@));
            }
        }
        assert(all.take(i + 1).drop_last() =~= all.take(i as int));
        assert(all.take(i + 1).last() == line@);
    }
    assert(all.take(all.len() as int) =~= all);
    let visible = cut_both_chars(&join_lines(&shown), Cut::WhiteSpace);
    (from_chars(&visible), paths)
}

} // verus!
