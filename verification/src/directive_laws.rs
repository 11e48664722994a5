//! What holds of every reply that is searched for upload directives.
use crate::directives;
use crate::directives::Scan;
use crate::text;
use crate::text::Cut;
use crate::text_laws;
use vstd::prelude::*;

verus! {

/// Whether no line opens an upload block.
pub open spec fn opens_nothing(lines: Seq<Seq<char>>) -> bool {
    forall|i: int|
        0 <= i < lines.len() ==> !directives::opens_upload(text::trim(#[trigger] lines[i]))
}

/// Whether no line feed stands directly after a carriage return.
pub open spec fn no_crlf(s: Seq<char>) -> bool {
    forall|i: int| 0 <= i < s.len() - 1 ==> !(#[trigger] s[i] == '\r' && s[i + 1] == '\n')
}

proof fn lemma_cut_end_push(s: Seq<char>, cut: Cut, c: char)
    requires
        cut.covers(c),
    ensures
        text::cut_end(s.push(c), cut) == text::cut_end(s, cut),
{
    assert(s.push(c).drop_last() =~= s);
}

proof fn lemma_cut_start_push(s: Seq<char>, cut: Cut, c: char)
    requires
        cut.covers(c),
    ensures
        text::cut_end(text::cut_start(s.push(c), cut), cut) == text::cut_end(
            text::cut_start(s, cut),
            cut,
        ),
    decreases s.len(),
{
    if s.len() == 0 {
        assert(s.push(c).drop_first() =~= s);
    } else if cut.covers(s.first()) {
        assert(s.push(c).drop_first() =~= s.drop_first().push(c));
        lemma_cut_start_push(s.drop_first(), cut, c);
    } else {
        lemma_cut_end_push(s, cut, c);
    }
}

proof fn lemma_trim_cons(c: char, s: Seq<char>)
    requires
        text::is_white_space(c),
    ensures
        text::trim(seq![c] + s) == text::trim(s),
{
    assert((seq![c] + s).drop_first() =~= s);
}

proof fn lemma_trim_without_cr(s: Seq<char>)
    ensures
        text::trim(text::without_cr(s)) == text::trim(s),
{
    if s.len() > 0 && s.last() == '\r' {
        lemma_cut_start_push(s.drop_last(), Cut::WhiteSpace, '\r');
        assert(s.drop_last().push('\r') =~= s);
    }
}

proof fn lemma_empty_opens_nothing()
    ensures
        !directives::opens_upload(text::trim(Seq::empty())),
{
    reveal_strlit("```openab-upload");
    reveal_strlit("```openab-uploads");
    reveal_strlit("```openab-send-images");
}

proof fn lemma_until_newline(s: Seq<char>)
    ensures
        text::until_newline(s) <= s.len(),
        forall|i: int| 0 <= i < text::until_newline(s) ==> s[i] != '\n',
        text::until_newline(s) < s.len() ==> s[text::until_newline(s) as int] == '\n',
    decreases s.len(),
{
    if s.len() > 0 && s.first() != '\n' {
        let rest = s.drop_first();
        lemma_until_newline(rest);
        assert forall|i: int| 0 <= i < text::until_newline(s) implies s[i] != '\n' by {
            if i > 0 {
                assert(s[i] == rest[i - 1]);
            }
        }
    }
}

proof fn lemma_until_newline_is(s: Seq<char>, n: int)
    requires
        0 <= n <= s.len(),
        forall|i: int| 0 <= i < n ==> s[i] != '\n',
        n < s.len() ==> s[n] == '\n',
    ensures
        text::until_newline(s) == n,
{
    lemma_until_newline(s);
}

/// A text that is a single line.
proof fn lemma_single_line(s: Seq<char>)
    requires
        s.len() > 0,
        !s.contains('\n'),
    ensures
        text::lines(s) == seq![s],
{
    assert forall|i: int| 0 <= i < s.len() implies s[i] != '\n' by {
        assert(s.contains(s[i]));
    }
    lemma_until_newline_is(s, s.len() as int);
}

/// The first line of a text, and the rest.
proof fn lemma_lines_split(a: Seq<char>, b: Seq<char>)
    requires
        !a.contains('\n'),
    ensures
        text::lines(a + seq!['\n'] + b) == seq![text::without_cr(a)] + text::lines(b),
{
    let s = a + seq!['\n'] + b;
    assert forall|i: int| 0 <= i < a.len() implies s[i] != '\n' by {
        assert(a.contains(a[i]));
    }
    lemma_until_newline_is(s, a.len() as int);
    assert(s.take(a.len() as int) =~= a);
    assert(s.skip(a.len() as int + 1) =~= b);
}

/// Every text is one line, or a line, a line feed and a shorter text.
proof fn lemma_line_cases(s: Seq<char>) -> (r: (Seq<char>, Seq<char>))
    requires
        s.contains('\n'),
    ensures
        s == r.0 + seq!['\n'] + r.1,
        !r.0.contains('\n'),
        r.1.len() < s.len(),
{
    lemma_until_newline(s);
    let n = text::until_newline(s) as int;
    let a = s.take(n);
    let b = s.skip(n + 1);
    let at = choose|i: int| 0 <= i < s.len() && s[i] == '\n';
    assert(n <= at);
    assert(s =~= a + seq!['\n'] + b);
    (a, b)
}

proof fn lemma_lines_hold_no_newline(s: Seq<char>)
    ensures
        forall|i: int| 0 <= i < text::lines(s).len() ==> !(#[trigger] text::lines(s)[i]).contains('\n'),
    decreases s.len(),
{
    if s.len() == 0 {
    } else if s.contains('\n') {
        let (a, b) = lemma_line_cases(s);
        lemma_lines_split(a, b);
        lemma_lines_hold_no_newline(b);
        assert(!text::without_cr(a).contains('\n')) by {
            if text::without_cr(a).contains('\n') {
                let i = choose|i: int|
                    0 <= i < text::without_cr(a).len() && text::without_cr(a)[i] == '\n';
                assert(a[i] == '\n');
            }
        }
        let ls = text::lines(s);
        assert forall|i: int| 0 <= i < ls.len() implies !(#[trigger] ls[i]).contains('\n') by {
            if i > 0 {
                assert(ls[i] == text::lines(b)[i - 1]);
            }
        }
    } else {
        lemma_single_line(s);
    }
}

proof fn lemma_tail_opens_nothing(head: Seq<char>, tail: Seq<Seq<char>>)
    ensures
        opens_nothing(seq![head] + tail) <==> (!directives::opens_upload(text::trim(head))
            && opens_nothing(tail)),
{
    let all = seq![head] + tail;
    if opens_nothing(all) {
        assert(all[0] == head);
        assert forall|i: int| 0 <= i < tail.len() implies !directives::opens_upload(
            text::trim(#[trigger] tail[i]),
        ) by {
            assert(all[i + 1] == tail[i]);
        }
    }
    if !directives::opens_upload(text::trim(head)) && opens_nothing(tail) {
        assert forall|i: int| 0 <= i < all.len() implies !directives::opens_upload(
            text::trim(#[trigger] all[i]),
        ) by {
            if i > 0 {
                assert(all[i] == tail[i - 1]);
            }
        }
    }
}

proof fn lemma_concat_opens_nothing(a: Seq<char>, b: Seq<char>)
    requires
        opens_nothing(text::lines(a)),
        opens_nothing(text::lines(b)),
    ensures
        opens_nothing(text::lines(a + seq!['\n'] + b)),
    decreases a.len(),
{
    if a.contains('\n') {
        let (x, y) = lemma_line_cases(a);
        lemma_lines_split(x, y);
        lemma_tail_opens_nothing(text::without_cr(x), text::lines(y));
        lemma_concat_opens_nothing(y, b);
        assert(a + seq!['\n'] + b =~= x + seq!['\n'] + (y + seq!['\n'] + b));
        lemma_lines_split(x, y + seq!['\n'] + b);
        lemma_tail_opens_nothing(text::without_cr(x), text::lines(y + seq!['\n'] + b));
    } else {
        lemma_lines_split(a, b);
        lemma_tail_opens_nothing(text::without_cr(a), text::lines(b));
        lemma_trim_without_cr(a);
        if a.len() == 0 {
            lemma_empty_opens_nothing();
            assert(a =~= Seq::empty());
        } else {
            lemma_single_line(a);
            assert(text::lines(a)[0] == a);
        }
    }
}

proof fn lemma_join_opens_nothing(parts: Seq<Seq<char>>)
    requires
        opens_nothing(parts),
        forall|i: int| 0 <= i < parts.len() ==> !(#[trigger] parts[i]).contains('\n'),
    ensures
        opens_nothing(text::lines(text::join(parts, seq!['\n']))),
    decreases parts.len(),
{
    if parts.len() > 0 {
        let last = parts.last();
        assert(opens_nothing(text::lines(last))) by {
            if last.len() > 0 {
                lemma_single_line(last);
                assert(last == parts[parts.len() - 1]);
            }
        }
        if parts.len() > 1 {
            let front = parts.drop_last();
            assert(forall|i: int| 0 <= i < front.len() ==> front[i] == parts[i]);
            lemma_join_opens_nothing(front);
            lemma_concat_opens_nothing(text::join(front, seq!['\n']), last);
        }
    }
}

proof fn lemma_cut_start_opens_nothing(s: Seq<char>)
    requires
        opens_nothing(text::lines(s)),
    ensures
        opens_nothing(text::lines(text::cut_start(s, Cut::WhiteSpace))),
    decreases s.len(),
{
    if s.len() > 0 && text::is_white_space(s.first()) {
        let c = s.first();
        let rest = s.drop_first();
        assert(s =~= seq![c] + rest);
        assert(opens_nothing(text::lines(rest))) by {
            if c == '\n' {
                assert(s =~= Seq::<char>::empty() + seq!['\n'] + rest);
                lemma_lines_split(Seq::empty(), rest);
                lemma_tail_opens_nothing(text::without_cr(Seq::empty()), text::lines(rest));
            } else if rest.contains('\n') {
                let (x, y) = lemma_line_cases(rest);
                let cx = seq![c] + x;
                assert(!cx.contains('\n')) by {
                    if cx.contains('\n') {
                        let i = choose|i: int| 0 <= i < cx.len() && cx[i] == '\n';
                        assert(x[i - 1] == '\n');
                    }
                }
                assert(s =~= cx + seq!['\n'] + y);
                lemma_lines_split(cx, y);
                lemma_lines_split(x, y);
                lemma_tail_opens_nothing(text::without_cr(cx), text::lines(y));
                lemma_tail_opens_nothing(text::without_cr(x), text::lines(y));
                lemma_trim_without_cr(cx);
                lemma_trim_without_cr(x);
                lemma_trim_cons(c, x);
            } else if rest.len() > 0 {
                assert(!s.contains('\n')) by {
                    if s.contains('\n') {
                        let i = choose|i: int| 0 <= i < s.len() && s[i] == '\n';
                        assert(rest[i - 1] == '\n');
                    }
                }
                lemma_single_line(s);
                lemma_single_line(rest);
                lemma_trim_cons(c, rest);
                assert(text::lines(s)[0] == s);
            }
        }
        lemma_cut_start_opens_nothing(rest);
    }
}

proof fn lemma_drop_last_opens_nothing(s: Seq<char>)
    requires
        s.len() > 0,
        text::is_white_space(s.last()),
        opens_nothing(text::lines(s)),
    ensures
        opens_nothing(text::lines(s.drop_last())),
    decreases s.len(),
{
    let c = s.last();
    let rest = s.drop_last();
    if rest.len() == 0 {
    } else if rest.contains('\n') {
        let (x, y) = lemma_line_cases(rest);
        assert(s =~= rest.push(c));
        assert(rest.push(c) =~= x + seq!['\n'] + y.push(c));
        lemma_lines_split(x, y.push(c));
        lemma_tail_opens_nothing(text::without_cr(x), text::lines(y.push(c)));
        lemma_drop_last_opens_nothing(y.push(c));
        assert(y.push(c).drop_last() =~= y);
        lemma_lines_split(x, y);
        lemma_tail_opens_nothing(text::without_cr(x), text::lines(y));
    } else {
        lemma_single_line(rest);
        assert(s =~= rest.push(c));
        if c == '\n' {
            assert(s =~= rest + seq!['\n'] + Seq::empty());
            lemma_lines_split(rest, Seq::empty());
            lemma_tail_opens_nothing(text::without_cr(rest), text::lines(Seq::empty()));
            lemma_trim_without_cr(rest);
        } else {
            assert(!s.contains('\n')) by {
                if s.contains('\n') {
                    let i = choose|i: int| 0 <= i < s.len() && s[i] == '\n';
                    assert(rest[i] == '\n');
                }
            }
            lemma_single_line(s);
            assert(text::lines(s)[0] == s);
            lemma_cut_start_push(rest, Cut::WhiteSpace, c);
        }
    }
}

proof fn lemma_cut_end_opens_nothing(s: Seq<char>)
    requires
        opens_nothing(text::lines(s)),
    ensures
        opens_nothing(text::lines(text::cut_end(s, Cut::WhiteSpace))),
    decreases s.len(),
{
    if s.len() > 0 && text::is_white_space(s.last()) {
        lemma_drop_last_opens_nothing(s);
        lemma_cut_end_opens_nothing(s.drop_last());
    }
}

proof fn lemma_shown_lines(lines: Seq<Seq<char>>)
    ensures
        opens_nothing(directives::scan(lines).shown),
    decreases lines.len(),
{
    if lines.len() > 0 {
        lemma_shown_lines(lines.drop_last());
    }
}

proof fn lemma_shown_lines_lack(lines: Seq<Seq<char>>, c: char)
    requires
        forall|i: int| 0 <= i < lines.len() ==> !(#[trigger] lines[i]).contains(c),
    ensures
        forall|i: int|
            0 <= i < directives::scan(lines).shown.len() ==> !(#[trigger] directives::scan(
                lines,
            ).shown[i]).contains(c),
    decreases lines.len(),
{
    if lines.len() > 0 {
        assert(forall|i: int| 0 <= i < lines.len() - 1 ==> lines.drop_last()[i] == lines[i]);
        lemma_shown_lines_lack(lines.drop_last(), c);
        let before = directives::scan(lines.drop_last()).shown;
        let shown = directives::scan(lines).shown;
        assert(!lines[lines.len() - 1].contains(c));
        assert forall|i: int| 0 <= i < shown.len() implies !(#[trigger] shown[i]).contains(c) by {
            if i < before.len() {
                assert(shown[i] == before[i]);
            }
        }
    }
}

proof fn lemma_scan_plain(lines: Seq<Seq<char>>)
    requires
        opens_nothing(lines),
    ensures
        directives::scan(lines) == (Scan {
            in_block: false,
            after_block: false,
            shown: lines,
            paths: Seq::empty(),
        }),
    decreases lines.len(),
{
    if lines.len() > 0 {
        assert(forall|i: int| 0 <= i < lines.len() - 1 ==> lines.drop_last()[i] == lines[i]);
        lemma_scan_plain(lines.drop_last());
        assert(lines.drop_last().push(lines.last()) =~= lines);
    } else {
        assert(directives::scan(lines).shown =~= lines);
    }
}

/// No line of what a reply shows opens an upload block.
pub proof fn shown_text_opens_no_block(reply: Seq<char>)
    ensures
        opens_nothing(text::lines(directives::visible_text(reply))),
{
    let ls = text::lines(reply);
    let shown = directives::scan(ls).shown;
    lemma_lines_hold_no_newline(reply);
    lemma_shown_lines(ls);
    lemma_shown_lines_lack(ls, '\n');
    lemma_join_opens_nothing(shown);
    let joined = text::join(shown, seq!['\n']);
    lemma_cut_start_opens_nothing(joined);
    lemma_cut_end_opens_nothing(text::cut_start(joined, Cut::WhiteSpace));
}

/// What a reply shows names no paths: every directive was taken out.
pub proof fn shown_text_names_no_paths(reply: Seq<char>)
    ensures
        directives::upload_paths(directives::visible_text(reply)) == Seq::<Seq<char>>::empty(),
{
    shown_text_opens_no_block(reply);
    lemma_scan_plain(text::lines(directives::visible_text(reply)));
}

proof fn lemma_cut_start_head(s: Seq<char>, cut: Cut)
    ensures
        text::cut_start(s, cut).len() > 0 ==> !cut.covers(text::cut_start(s, cut).first()),
        text::cut_start(s, cut).len() <= s.len(),
    decreases s.len(),
{
    if s.len() > 0 && cut.covers(s.first()) {
        lemma_cut_start_head(s.drop_first(), cut);
    }
}

proof fn lemma_cut_end_last(s: Seq<char>, cut: Cut)
    ensures
        text::cut_end(s, cut).len() > 0 ==> !cut.covers(text::cut_end(s, cut).last())
            && text::cut_end(s, cut).first() == s.first(),
    decreases s.len(),
{
    if s.len() > 0 && cut.covers(s.last()) {
        lemma_cut_end_last(s.drop_last(), cut);
    }
}

proof fn lemma_trim_twice(s: Seq<char>)
    ensures
        text::trim(text::trim(s)) == text::trim(s),
        text::trim(s).len() > 0 ==> !text::is_white_space(text::trim(s).last()),
{
    let cut = Cut::WhiteSpace;
    lemma_cut_start_head(s, cut);
    lemma_cut_end_last(text::cut_start(s, cut), cut);
}

/// What a reply shows has no white space at either end.
pub proof fn shown_text_is_trimmed(reply: Seq<char>)
    ensures
        text::trim(directives::visible_text(reply)) == directives::visible_text(reply),
{
    lemma_trim_twice(text::join(directives::scan(text::lines(reply)).shown, seq!['\n']));
}

proof fn lemma_join_cons(head: Seq<char>, tail: Seq<Seq<char>>, sep: Seq<char>)
    requires
        tail.len() > 0,
    ensures
        text::join(seq![head] + tail, sep) == head + sep + text::join(tail, sep),
    decreases tail.len(),
{
    let all = seq![head] + tail;
    if tail.len() == 1 {
        assert(all.drop_last() =~= seq![head]);
        assert(text::join(all.drop_last(), sep) == head);
    } else {
        assert(all.drop_last() =~= seq![head] + tail.drop_last());
        assert(all.last() == tail.last());
        lemma_join_cons(head, tail.drop_last(), sep);
        assert(text::join(all, sep) =~= head + sep + text::join(tail, sep));
    }
}

proof fn lemma_join_lines(s: Seq<char>)
    requires
        no_crlf(s),
    ensures
        s.len() > 0 && s.last() != '\n' ==> text::join(text::lines(s), seq!['\n']) == s,
        s.len() > 0 && s.last() == '\n' ==> text::join(text::lines(s), seq!['\n'])
            == s.drop_last(),
        s.len() > 0 ==> text::lines(s).len() > 0,
        s.len() == 0 ==> text::lines(s).len() == 0,
    decreases s.len(),
{
    let sep = seq!['\n'];
    if s.len() == 0 {
    } else if s.contains('\n') {
        let (a, b) = lemma_line_cases(s);
        lemma_lines_split(a, b);
        assert(text::without_cr(a) == a) by {
            if a.len() > 0 {
                assert(s[a.len() - 1] == a.last());
                assert(s[a.len() - 1 + 1] == '\n');
            }
        }
        assert(no_crlf(b)) by {
            assert forall|i: int| 0 <= i < b.len() - 1 implies !(#[trigger] b[i] == '\r' && b[i
                + 1] == '\n') by {
                assert(s[i + a.len() + 1] == b[i]);
                assert(s[i + a.len() + 1 + 1] == b[i + 1]);
            }
        }
        lemma_join_lines(b);
        if b.len() == 0 {
            assert(text::lines(s) =~= seq![a]);
            assert(s =~= a.push('\n'));
            assert(s.drop_last() =~= a);
        } else {
            lemma_join_cons(a, text::lines(b), sep);
            assert(s.last() == b.last());
            assert(s.drop_last() =~= a + sep + b.drop_last());
        }
    } else {
        lemma_single_line(s);
        if s.last() == '\n' {
            assert(s.contains(s.last()));
        }
    }
}

proof fn lemma_trim_join_lines(s: Seq<char>)
    requires
        no_crlf(s),
    ensures
        text::trim(text::join(text::lines(s), seq!['\n'])) == text::trim(s),
{
    lemma_join_lines(s);
    if s.len() == 0 {
        assert(text::join(text::lines(s), seq!['\n']) =~= s);
    } else if s.last() == '\n' {
        lemma_cut_start_push(s.drop_last(), Cut::WhiteSpace, '\n');
        assert(s.drop_last().push('\n') =~= s);
    }
}

/// A reply in which no line opens an upload block names no paths and is shown line by line,
/// without white space at either end. Where its lines end in bare line feeds, it is shown
/// as it is, without white space at either end.
pub proof fn plain_replies_are_shown_whole(reply: Seq<char>)
    requires
        opens_nothing(text::lines(reply)),
    ensures
        directives::upload_paths(reply) == Seq::<Seq<char>>::empty(),
        directives::visible_text(reply) == text::trim(
            text::join(text::lines(reply), seq!['\n']),
        ),
        no_crlf(reply) ==> directives::visible_text(reply) == text::trim(reply),
{
    lemma_scan_plain(text::lines(reply));
    if no_crlf(reply) {
        lemma_trim_join_lines(reply);
    }
}

/// Taking the directives out again changes nothing, where what a reply shows ends its lines
/// in bare line feeds.
pub proof fn taking_directives_out_is_idempotent(reply: Seq<char>)
    requires
        no_crlf(directives::visible_text(reply)),
    ensures
        directives::visible_text(directives::visible_text(reply)) == directives::visible_text(
            reply,
        ),
{
    shown_text_opens_no_block(reply);
    shown_text_is_trimmed(reply);
    plain_replies_are_shown_whole(directives::visible_text(reply));
}

proof fn lemma_lines_lack(s: Seq<char>, c: char)
    requires
        !s.contains(c),
    ensures
        forall|i: int| 0 <= i < text::lines(s).len() ==> !(#[trigger] text::lines(s)[i]).contains(c),
    decreases s.len(),
{
    if s.len() > 0 {
        let n = text::until_newline(s) as int;
        if n < s.len() {
            let head = text::without_cr(s.take(n));
            let rest = s.skip(n + 1);
            assert(!head.contains(c)) by {
                assert forall|i: int| 0 <= i < head.len() implies head[i] != c by {
                    assert(head[i] == s[i]);
                }
            }
            assert(!rest.contains(c)) by {
                assert forall|i: int| 0 <= i < rest.len() implies rest[i] != c by {
                    assert(rest[i] == s[i + n + 1]);
                }
            }
            lemma_lines_lack(rest, c);
            let ls = text::lines(s);
            assert forall|i: int| 0 <= i < ls.len() implies !(#[trigger] ls[i]).contains(c) by {
                if i > 0 {
                    assert(ls[i] == text::lines(rest)[i - 1]);
                }
            }
        }
    }
}

proof fn lemma_join_lacks(parts: Seq<Seq<char>>, c: char)
    requires
        c != '\n',
        forall|i: int| 0 <= i < parts.len() ==> !(#[trigger] parts[i]).contains(c),
    ensures
        !text::join(parts, seq!['\n']).contains(c),
    decreases parts.len(),
{
    if parts.len() > 1 {
        let front = text::join(parts.drop_last(), seq!['\n']);
        assert(forall|i: int| 0 <= i < parts.len() - 1 ==> parts.drop_last()[i] == parts[i]);
        lemma_join_lacks(parts.drop_last(), c);
        let last = parts[parts.len() - 1];
        let all = front + seq!['\n'] + last;
        assert forall|i: int| 0 <= i < all.len() implies all[i] != c by {
            if i < front.len() {
                assert(front[i] != c);
            } else if i > front.len() {
                assert(last[i - front.len() - 1] != c);
            }
        }
    }
}

proof fn lemma_cut_start_lacks(s: Seq<char>, cut: Cut, c: char)
    requires
        !s.contains(c),
    ensures
        !text::cut_start(s, cut).contains(c),
    decreases s.len(),
{
    if s.len() > 0 && cut.covers(s.first()) {
        assert(forall|i: int| 0 <= i < s.len() - 1 ==> s.drop_first()[i] == s[i + 1]);
        lemma_cut_start_lacks(s.drop_first(), cut, c);
    }
}

proof fn lemma_cut_end_lacks(s: Seq<char>, cut: Cut, c: char)
    requires
        !s.contains(c),
    ensures
        !text::cut_end(s, cut).contains(c),
    decreases s.len(),
{
    if s.len() > 0 && cut.covers(s.last()) {
        assert(forall|i: int| 0 <= i < s.len() - 1 ==> s.drop_last()[i] == s[i]);
        lemma_cut_end_lacks(s.drop_last(), cut, c);
    }
}

/// What a reply shows holds only characters of the reply, line feeds aside.
pub proof fn shown_text_comes_from_the_reply(reply: Seq<char>, c: char)
    requires
        c != '\n',
        directives::visible_text(reply).contains(c),
    ensures
        reply.contains(c),
{
    if !reply.contains(c) {
        let ls = text::lines(reply);
        let shown = directives::scan(ls).shown;
        let joined = text::join(shown, seq!['\n']);
        lemma_lines_lack(reply, c);
        lemma_shown_lines_lack(ls, c);
        lemma_join_lacks(shown, c);
        lemma_cut_start_lacks(joined, Cut::WhiteSpace, c);
        lemma_cut_end_lacks(
            text::cut_start(joined, Cut::WhiteSpace),
            Cut::WhiteSpace,
            c,
        );
    }
}

/// Taking the directives out again changes nothing, where a reply holds no carriage return.
pub proof fn replies_without_returns_are_settled_at_once(reply: Seq<char>)
    requires
        !reply.contains('\r'),
    ensures
        directives::visible_text(directives::visible_text(reply)) == directives::visible_text(
            reply,
        ),
{
    let shown = directives::visible_text(reply);
    if shown.contains('\r') {
        shown_text_comes_from_the_reply(reply, '\r');
    }
    assert(no_crlf(shown)) by {
        assert forall|i: int| 0 <= i < shown.len() - 1 implies !(#[trigger] shown[i] == '\r'
            && shown[i + 1] == '\n') by {
            assert(shown.contains(shown[i]));
        }
    }
    taking_directives_out_is_idempotent(reply);
}

/// Whether a line of an upload block names itself as a path.
pub open spec fn is_plain_path(path: Seq<char>) -> bool {
    &&& directives::path_of_line(path) == Some(path)
    &&& text::trim(path) == path
    &&& !directives::closes_upload(path)
}

/// A path that starts with a slash and ends in neither white space nor a quote names
/// itself.
pub proof fn rooted_paths_are_plain(path: Seq<char>)
    requires
        path.len() > 0,
        path[0] == '/',
        !text::is_white_space(path.last()),
        path.last() != '"',
        path.last() != '\'',
    ensures
        is_plain_path(path),
{
    reveal_strlit("```");
}

proof fn lemma_scan_paths(before: Scan, lines: Seq<Seq<char>>, paths: Seq<Seq<char>>)
    requires
        directives::scan(lines) == before,
        before.in_block,
        !before.after_block,
        forall|i: int| 0 <= i < paths.len() ==> is_plain_path(#[trigger] paths[i]),
    ensures
        directives::scan(lines + paths) == (Scan { paths: before.paths + paths, ..before }),
    decreases paths.len(),
{
    if paths.len() == 0 {
        assert(lines + paths =~= lines);
        assert(before.paths + paths =~= before.paths);
    } else {
        let front = paths.drop_last();
        assert(forall|i: int| 0 <= i < front.len() ==> front[i] == paths[i]);
        lemma_scan_paths(before, lines, front);
        assert((lines + paths).drop_last() =~= lines + front);
        assert(paths.last() == paths[paths.len() - 1]);
        assert((before.paths + front).push(paths.last()) =~= before.paths + paths);
    }
}

/// An upload block hands over the paths that stand in it, in order, and adds nothing to
/// what is shown.
pub proof fn blocks_hand_over_their_paths(
    lines: Seq<Seq<char>>,
    open: Seq<char>,
    paths: Seq<Seq<char>>,
    close: Seq<char>,
)
    requires
        !directives::scan(lines).in_block,
        directives::opens_upload(text::trim(open)),
        directives::closes_upload(text::trim(close)),
        forall|i: int| 0 <= i < paths.len() ==> is_plain_path(#[trigger] paths[i]),
    ensures
        directives::scan(lines.push(open) + paths.push(close)).paths == directives::scan(lines).paths
            + paths,
        directives::scan(lines.push(open) + paths.push(close)).shown == directives::scan(lines).shown,
        !directives::scan(lines.push(open) + paths.push(close)).in_block,
{
    let opened = lines.push(open);
    assert(opened.drop_last() =~= lines);
    reveal_strlit("```openab-upload");
    reveal_strlit("```openab-uploads");
    reveal_strlit("```openab-send-images");
    lemma_scan_paths(directives::scan(opened), opened, paths);
    assert((opened + paths.push(close)).drop_last() =~= opened + paths);
    assert((opened + paths.push(close)).last() == close);
    reveal_strlit("```");
}

/// The paths that the lines of an upload block name, in order.
pub open spec fn named_paths(lines: Seq<Seq<char>>) -> Seq<Seq<char>>
    decreases lines.len(),
{
    if lines.len() == 0 {
        Seq::empty()
    } else {
        let before = named_paths(lines.drop_last());
        match directives::path_of_line(lines.last()) {
            Some(path) => before.push(path),
            None => before,
        }
    }
}

/// Lines without the first one, if that is blank.
pub open spec fn after_blank(lines: Seq<Seq<char>>) -> Seq<Seq<char>> {
    if lines.len() > 0 && text::trim(lines[0]).len() == 0 {
        lines.drop_first()
    } else {
        lines
    }
}

/// Three lines open an upload block: fences with the name of one of the directives.
pub proof fn fences_open_uploads_by_their_name(line: Seq<char>)
    ensures
        directives::opens_upload(line) <==> exists|name: Seq<char>|
            line == #[trigger] ("```openab-"@ + name) && (name == "upload"@ || name == "uploads"@
                || name == "send-images"@),
        directives::closes_upload(line) <==> line.len() == 3 && line[0] == '`' && line[1] == '`'
            && line[2] == '`',
{
    reveal_strlit("```openab-upload");
    reveal_strlit("```openab-uploads");
    reveal_strlit("```openab-send-images");
    reveal_strlit("```openab-");
    reveal_strlit("upload");
    reveal_strlit("uploads");
    reveal_strlit("send-images");
    reveal_strlit("```");
    assert("```openab-"@ + "upload"@ =~= "```openab-upload"@);
    assert("```openab-"@ + "uploads"@ =~= "```openab-uploads"@);
    assert("```openab-"@ + "send-images"@ =~= "```openab-send-images"@);
    if line.len() == 3 && line[0] == '`' && line[1] == '`' && line[2] == '`' {
        assert(line =~= "```"@);
    }
}

/// A line of an upload block that is blank, or starts with a number sign, names no path.
pub proof fn blanks_and_comments_name_no_path(lead: Seq<char>, rest: Seq<char>)
    requires
        text_laws::is_blank(lead),
    ensures
        directives::path_of_line(lead) is None,
        directives::path_of_line(lead + seq!['#'] + rest) is None,
{
    let none = Seq::<char>::empty();
    text_laws::trimming_takes_the_white_space_around_a_text(lead, none, none);
    assert(lead + none + none =~= lead);
    let line = lead + seq!['#'] + rest;
    let whole = seq!['#'] + rest;
    assert(line =~= lead + whole);
    lemma_cut_start_lead(lead, whole);
    lemma_cut_end_keeps_first(whole);
}

proof fn lemma_cut_start_lead(lead: Seq<char>, rest: Seq<char>)
    requires
        text_laws::is_blank(lead),
        rest.len() > 0,
        !text::is_white_space(rest[0]),
    ensures
        text::cut_start(lead + rest, Cut::WhiteSpace) == rest,
    decreases lead.len(),
{
    if lead.len() == 0 {
        assert(lead + rest =~= rest);
    } else {
        assert((lead + rest).first() == lead[0]);
        assert((lead + rest).drop_first() =~= lead.drop_first() + rest);
        assert(forall|i: int| 0 <= i < lead.len() - 1 ==> lead.drop_first()[i] == lead[i + 1]);
        lemma_cut_start_lead(lead.drop_first(), rest);
    }
}

proof fn lemma_cut_end_keeps_first(s: Seq<char>)
    requires
        s.len() > 0,
        !text::is_white_space(s[0]),
    ensures
        text::cut_end(s, Cut::WhiteSpace).len() > 0,
        text::cut_end(s, Cut::WhiteSpace)[0] == s[0],
    decreases s.len(),
{
    if text::is_white_space(s.last()) {
        assert(s.len() > 1);
        lemma_cut_end_keeps_first(s.drop_last());
    }
}

/// Any other line of an upload block names a path: what it holds without white space around
/// it, without the mark of a list item, without double quotes around that, and without single
/// quotes around what is left.
pub proof fn lines_name_their_path_without_marks(
    lead: Seq<char>,
    bullet: bool,
    gap: Seq<char>,
    double_open: Seq<char>,
    single_open: Seq<char>,
    path: Seq<char>,
    single_close: Seq<char>,
    double_close: Seq<char>,
    tail: Seq<char>,
)
    requires
        text_laws::is_blank(lead),
        text_laws::is_blank(gap),
        text_laws::is_blank(tail),
        !bullet ==> gap.len() == 0,
        text_laws::is_run_of(double_open, '"'),
        text_laws::is_run_of(double_close, '"'),
        text_laws::is_run_of(single_open, '\''),
        text_laws::is_run_of(single_close, '\''),
        path.len() > 0 ==> path[0] != '\'' && path.last() != '\'',
        ({
            let quoted = single_open + path + single_close;
            let named = double_open + quoted + double_close;
            &&& quoted.len() > 0 ==> quoted[0] != '"' && quoted.last() != '"'
            &&& named.len() > 0
            &&& !text::is_white_space(named[0])
            &&& !text::is_white_space(named.last())
            &&& !bullet ==> named[0] != '#' && !"- "@.is_prefix_of(named)
        }),
    ensures
        ({
            let named = double_open + (single_open + path + single_close) + double_close;
            let mark = if bullet {
                "- "@ + gap
            } else {
                Seq::empty()
            };
            directives::path_of_line(lead + (mark + named) + tail) == Some(path)
        }),
{
    let quoted = single_open + path + single_close;
    let named = double_open + quoted + double_close;
    let mark = if bullet {
        "- "@ + gap
    } else {
        Seq::empty()
    };
    let core = mark + named;
    let line = lead + core + tail;
    lemma_marks(bullet, gap, named);
    text_laws::trimming_takes_the_white_space_around_a_text(lead, core, tail);
    assert(text::trim(line) == core);
    assert(text::trim(directives::without_bullet(core)) == named);
    text_laws::cutting_a_character_takes_it_at_both_ends(double_open, quoted, double_close, '"');
    assert(text::cut_both(named, Cut::Only('"')) == quoted);
    text_laws::cutting_a_character_takes_it_at_both_ends(single_open, path, single_close, '\'');
    assert(text::cut_both(quoted, Cut::Only('\'')) == path);
    assert(directives::path_of_line(line) == Some(path));
}

proof fn lemma_marks(bullet: bool, gap: Seq<char>, named: Seq<char>)
    requires
        text_laws::is_blank(gap),
        !bullet ==> gap.len() == 0,
        named.len() > 0,
        !text::is_white_space(named[0]),
        !text::is_white_space(named.last()),
        !bullet ==> named[0] != '#' && !"- "@.is_prefix_of(named),
    ensures
        ({
            let core = if bullet {
                "- "@ + gap
            } else {
                Seq::empty()
            } + named;
            &&& core.len() > 0
            &&& core[0] != '#'
            &&& !text::is_white_space(core[0])
            &&& !text::is_white_space(core.last())
            &&& text::trim(directives::without_bullet(core)) == named
        }),
{
    reveal_strlit("- ");
    let none = Seq::<char>::empty();
    let core = if bullet {
        "- "@ + gap
    } else {
        none
    } + named;
    assert(core.last() == named.last());
    if bullet {
        assert(core[0] == '-');
        assert(core[1] == ' ');
        assert(core.skip(2) =~= gap + named + none);
        text_laws::trimming_takes_the_white_space_around_a_text(gap, named, none);
    } else {
        assert(core =~= named);
        if named.len() >= 2 && named[0] == '-' && named[1] == ' ' {
            assert(named.subrange(0, 2) =~= "- "@);
        }
        assert(none + named + none =~= named);
        text_laws::trimming_takes_the_white_space_around_a_text(none, named, none);
    }
}

/// Outside a block, a line that opens none stays as it is, at its place, unless it is the one
/// blank line directly after a block; whatever blocks before it named.
pub proof fn lines_outside_blocks_stay(lines: Seq<Seq<char>>, line: Seq<char>)
    requires
        !directives::scan(lines).in_block,
        !directives::opens_upload(text::trim(line)),
        directives::scan(lines).after_block ==> text::trim(line).len() > 0,
    ensures
        directives::scan(lines.push(line)).shown == directives::scan(lines).shown.push(line),
        directives::scan(lines.push(line)).paths == directives::scan(lines).paths,
        !directives::scan(lines.push(line)).in_block,
        !directives::scan(lines.push(line)).after_block,
{
    assert(lines.push(line).drop_last() =~= lines);
}

/// What is read after a place outside every block is read as if it stood alone.
proof fn lemma_scan_apart(front: Seq<Seq<char>>, rest: Seq<Seq<char>>)
    requires
        !directives::scan(front).in_block,
        directives::scan(front).after_block && rest.len() > 0 ==> text::trim(rest[0]).len() > 0,
    ensures
        directives::scan(front + rest).shown == directives::scan(front).shown + directives::scan(
            rest,
        ).shown,
        directives::scan(front + rest).paths == directives::scan(front).paths + directives::scan(
            rest,
        ).paths,
        directives::scan(front + rest).in_block == directives::scan(rest).in_block,
        rest.len() > 0 ==> directives::scan(front + rest).after_block == directives::scan(
            rest,
        ).after_block,
    decreases rest.len(),
{
    let all = front + rest;
    if rest.len() == 0 {
        assert(all =~= front);
        assert(directives::scan(front).shown + directives::scan(rest).shown
            =~= directives::scan(front).shown);
        assert(directives::scan(front).paths + directives::scan(rest).paths
            =~= directives::scan(front).paths);
    } else {
        let less = rest.drop_last();
        assert(all.drop_last() =~= front + less);
        assert(all.last() == rest.last());
        lemma_scan_apart(front, less);
        if less.len() == 0 {
            assert(rest[0] == rest.last());
            assert(front + less =~= front);
            assert(directives::scan(less) == directives::scan_start());
        }
        assert(directives::scan(all).shown =~= directives::scan(front).shown
            + directives::scan(rest).shown);
        assert(directives::scan(all).paths =~= directives::scan(front).paths
            + directives::scan(rest).paths);
    }
}

proof fn lemma_scan_open(front: Seq<Seq<char>>, open: Seq<char>, body: Seq<Seq<char>>)
    requires
        !directives::scan(front).in_block,
        directives::opens_upload(text::trim(open)),
        forall|i: int| 0 <= i < body.len() ==> text::trim(#[trigger] body[i]) != "```"@,
    ensures
        directives::scan(front.push(open) + body) == (Scan {
            in_block: true,
            after_block: false,
            shown: directives::scan(front).shown,
            paths: directives::scan(front).paths + named_paths(body),
        }),
    decreases body.len(),
{
    let all = front.push(open) + body;
    if body.len() == 0 {
        assert(all =~= front.push(open));
        assert(all.drop_last() =~= front);
        reveal_strlit("```openab-upload");
        reveal_strlit("```openab-uploads");
        reveal_strlit("```openab-send-images");
        assert(directives::scan(front).paths + named_paths(body) =~= directives::scan(
            front,
        ).paths);
    } else {
        let less = body.drop_last();
        assert(forall|i: int| 0 <= i < less.len() ==> less[i] == body[i]);
        lemma_scan_open(front, open, less);
        assert(all.drop_last() =~= front.push(open) + less);
        assert(all.last() == body[body.len() - 1]);
        lemma_trim_twice(body.last());
        assert(directives::scan(all).paths =~= directives::scan(front).paths + named_paths(body));
    }
}

/// An upload block goes, with one blank line directly after it: what stands before and after
/// it is read as if the block were not there, and its lines name paths in between.
pub proof fn blocks_go_and_the_rest_stays(
    front: Seq<Seq<char>>,
    open: Seq<char>,
    body: Seq<Seq<char>>,
    close: Seq<char>,
    rest: Seq<Seq<char>>,
)
    requires
        !directives::scan(front).in_block,
        directives::opens_upload(text::trim(open)),
        forall|i: int| 0 <= i < body.len() ==> text::trim(#[trigger] body[i]) != "```"@,
        text::trim(close) == "```"@,
    ensures
        ({
            let all = front.push(open) + body.push(close) + rest;
            &&& directives::scan(all).shown == directives::scan(front).shown + directives::scan(
                after_blank(rest),
            ).shown
            &&& directives::scan(all).paths == directives::scan(front).paths + named_paths(body)
                + directives::scan(after_blank(rest)).paths
            &&& directives::scan(all).in_block == directives::scan(after_blank(rest)).in_block
        }),
{
    lemma_scan_open(front, open, body);
    let block = front.push(open) + body.push(close);
    assert(block.drop_last() =~= front.push(open) + body);
    assert(block.last() == close);
    assert(!directives::scan(block).in_block);
    assert(directives::scan(block).after_block);
    if rest.len() > 0 && text::trim(rest[0]).len() == 0 {
        let more = block.push(rest[0]);
        assert(more.drop_last() =~= block);
        assert(block + rest =~= more + rest.drop_first());
        lemma_scan_apart(more, rest.drop_first());
    } else {
        lemma_scan_apart(block, rest);
    }
}

/// An upload block that is never closed takes everything after it: nothing of that is shown,
/// and all its lines may name paths.
pub proof fn unclosed_blocks_take_the_rest(
    front: Seq<Seq<char>>,
    open: Seq<char>,
    body: Seq<Seq<char>>,
)
    requires
        !directives::scan(front).in_block,
        directives::opens_upload(text::trim(open)),
        forall|i: int| 0 <= i < body.len() ==> text::trim(#[trigger] body[i]) != "```"@,
    ensures
        directives::scan(front.push(open) + body).shown == directives::scan(front).shown,
        directives::scan(front.push(open) + body).paths == directives::scan(front).paths
            + named_paths(body),
        directives::scan(front.push(open) + body).in_block,
{
    lemma_scan_open(front, open, body);
}

/// Lines that open no block all stay, and name nothing.
pub proof fn lines_without_blocks_all_stay(lines: Seq<Seq<char>>)
    requires
        forall|i: int|
            0 <= i < lines.len() ==> !directives::opens_upload(text::trim(#[trigger] lines[i])),
    ensures
        directives::scan(lines).shown == lines,
        directives::scan(lines).paths == Seq::<Seq<char>>::empty(),
        !directives::scan(lines).in_block,
{
    lemma_scan_plain(lines);
}

/// A reply shows the lines that stay, joined again by line feeds, without white space around
/// them, and hands over the paths that were named.
pub proof fn replies_show_the_lines_that_stay(reply: Seq<char>, lines: Seq<Seq<char>>)
    requires
        text::lines(reply) == lines,
    ensures
        directives::visible_text(reply) == text::trim(
            text::join(directives::scan(lines).shown, "\n"@),
        ),
        directives::upload_paths(reply) == directives::scan(lines).paths,
{
    reveal_strlit("\n");
    assert("\n"@ =~= seq!['\n']);
}

/// A reply with one upload block shows every line before it and every line after it, but for
/// one blank line directly after it, and hands over the paths that stand in it.
pub proof fn replies_keep_what_stands_around_a_block(
    reply: Seq<char>,
    front: Seq<Seq<char>>,
    open: Seq<char>,
    body: Seq<Seq<char>>,
    close: Seq<char>,
    rest: Seq<Seq<char>>,
)
    requires
        text::lines(reply) == front.push(open) + body.push(close) + rest,
        forall|i: int|
            0 <= i < front.len() ==> !directives::opens_upload(text::trim(#[trigger] front[i])),
        directives::opens_upload(text::trim(open)),
        forall|i: int| 0 <= i < body.len() ==> text::trim(#[trigger] body[i]) != "```"@,
        text::trim(close) == "```"@,
        forall|i: int|
            0 <= i < rest.len() ==> !directives::opens_upload(text::trim(#[trigger] rest[i])),
    ensures
        directives::visible_text(reply) == text::trim(
            text::join(front + after_blank(rest), "\n"@),
        ),
        directives::upload_paths(reply) == named_paths(body),
{
    let kept = after_blank(rest);
    assert forall|i: int| 0 <= i < kept.len() implies !directives::opens_upload(
        text::trim(#[trigger] kept[i]),
    ) by {
        if kept.len() < rest.len() {
            assert(kept[i] == rest[i + 1]);
        } else {
            assert(kept[i] == rest[i]);
        }
    }
    lines_without_blocks_all_stay(front);
    lines_without_blocks_all_stay(kept);
    blocks_go_and_the_rest_stays(front, open, body, close, rest);
    replies_show_the_lines_that_stay(reply, text::lines(reply));
    let none = Seq::<Seq<char>>::empty();
    assert(none + named_paths(body) + none =~= named_paths(body));
}

} // verus!
