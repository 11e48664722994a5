//! Text as sequences of characters: trimming, splitting into lines, joining, decimal numbers.
use vstd::prelude::*;

verus! {

/// The characters with the Unicode property `White_Space`.
pub open spec fn is_white_space(c: char) -> bool {
    ||| '\u{9}' <= c <= '\u{d}'
    ||| c == ' '
    ||| c == '\u{85}'
    ||| c == '\u{a0}'
    ||| c == '\u{1680}'
    ||| '\u{2000}' <= c <= '\u{200a}'
    ||| c == '\u{2028}'
    ||| c == '\u{2029}'
    ||| c == '\u{202f}'
    ||| c == '\u{205f}'
    ||| c == '\u{3000}'
}

/// `char::is_whitespace` tests for the Unicode property `White_Space`, whose members
/// `is_white_space` lists.
pub assume_specification[ char::is_whitespace ](c: char) -> (r: bool)
    ensures
        r == is_white_space(c),
;

/// `String::push` appends one character and leaves what stood before it.
pub assume_specification[ String::push ](s: &mut String, ch: char)
    ensures
        final(s)@ == old(s)@.push(ch),
;

/// Which characters a trim cuts off.
#[derive(Clone, Copy)]
pub enum Cut {
    WhiteSpace,
    Only(char),
}

impl Cut {
    pub open spec fn covers(self, c: char) -> bool {
        match self {
            Cut::WhiteSpace => is_white_space(c),
            Cut::Only(d) => c == d,
        }
    }

    fn test(&self, c: char) -> (r: bool)
        ensures
            r == self.covers(c),
    {
        match self {
            Cut::WhiteSpace => c.is_whitespace(),
            Cut::Only(d) => c == *d,
        }
    }
}

/// `s` without the longest prefix whose characters are all cut.
pub open spec fn cut_start(s: Seq<char>, cut: Cut) -> Seq<char>
    decreases s.len(),
{
    if s.len() > 0 && cut.covers(s.first()) {
        cut_start(s.drop_first(), cut)
    } else {
        s
    }
}

/// `s` without the longest suffix whose characters are all cut.
pub open spec fn cut_end(s: Seq<char>, cut: Cut) -> Seq<char>
    decreases s.len(),
{
    if s.len() > 0 && cut.covers(s.last()) {
        cut_end(s.drop_last(), cut)
    } else {
        s
    }
}

/// `s` without cut characters at either end.
pub open spec fn cut_both(s: Seq<char>, cut: Cut) -> Seq<char> {
    cut_end(cut_start(s, cut), cut)
}

/// `s` without white space at either end.
pub open spec fn trim(s: Seq<char>) -> Seq<char> {
    cut_both(s, Cut::WhiteSpace)
}

/// `s` without white space at its end.
pub open spec fn trim_end(s: Seq<char>) -> Seq<char> {
    cut_end(s, Cut::WhiteSpace)
}

/// How many characters stand before the first line feed.
pub open spec fn until_newline(s: Seq<char>) -> nat
    decreases s.len(),
{
    if s.len() == 0 || s.first() == '\n' {
        0
    } else {
        1 + until_newline(s.drop_first())
    }
}

/// `s` without one carriage return at its end.
pub open spec fn without_cr(s: Seq<char>) -> Seq<char> {
    if s.len() > 0 && s.last() == '\r' {
        s.drop_last()
    } else {
        s
    }
}

/// The lines of `s`. A line ends at a line feed, or at a carriage return directly followed
/// by one; the ending belongs to no line, and the last line may lack it.
pub open spec fn lines(s: Seq<char>) -> Seq<Seq<char>>
    decreases s.len(),
{
    if s.len() == 0 {
        Seq::empty()
    } else {
        let n = until_newline(s) as int;
        if n < s.len() {
            seq![without_cr(s.take(n))] + lines(s.skip(n + 1))
        } else {
            seq![s]
        }
    }
}

/// The parts one after another, with `sep` between each two.
pub open spec fn join(parts: Seq<Seq<char>>, sep: Seq<char>) -> Seq<char>
    decreases parts.len(),
{
    if parts.len() == 0 {
        Seq::empty()
    } else if parts.len() == 1 {
        parts[0]
    } else {
        join(parts.drop_last(), sep) + sep + parts.last()
    }
}

pub open spec fn digit(d: nat) -> char {
    (48 + d) as char
}

/// `n` in decimal, without leading zeros.
pub open spec fn decimal(n: nat) -> Seq<char>
    decreases n,
{
    if n < 10 {
        seq![digit(n)]
    } else {
        decimal(n / 10).push(digit(n % 10))
    }
}

/// What each string of a list holds.
pub open spec fn texts(list: Seq<String>) -> Seq<Seq<char>> {
    list.map_values(|s: String| s@)
}

/// What each character vector of a list holds.
pub open spec fn char_texts(list: Seq<Vec<char>>) -> Seq<Seq<char>> {
    list.map_values(|v: Vec<char>| v@)
}

/// What an optional string holds.
pub open spec fn optional_text(s: Option<String>) -> Option<Seq<char>> {
    match s {
        Some(s) => Some(s@),
        None => None,
    }
}

pub(crate) fn to_chars(s: &str) -> (r: Vec<char>)
    ensures
        r@ == s@,
{
    let mut out: Vec<char> = Vec::new();
    for c in it: s.chars()
        invariant
            out@ == it.seq().take(it.index()),
            it.seq() == s@,
    {
        out.push(c);
    }
    out
}

pub(crate) fn from_chars(v: &Vec<char>) -> (r: String)
    ensures
        r@ == v@,
{
    let mut out: String = String::new();
    for i in 0..v.len()
        invariant
            out@ == v@.take(i as int),
    {
        out.push(v[i]);
    }
    out
}

pub(crate) fn copy_text(s: &str) -> (r: String)
    ensures
        r@ == s@,
{
    let mut out: String = String::new();
    out.append(s);
    out
}

/// Whether the characters are those of `s`.
pub(crate) fn same_text(v: &Vec<char>, s: &str) -> (r: bool)
    ensures
        r == (v@ == s@),
{
    let w = to_chars(s);
    if v.len() != w.len() {
        return false;
    }
    for i in 0..v.len()
        invariant
            v.len() == w.len(),
            w@ == s@,
            forall|j: int| 0 <= j < i ==> v@[j] == w@[j],
    {
        if v[i] != w[i] {
            return false;
        }
    }
    assert(v@ =~= w@);
    true
}

proof fn lemma_cut_start_at(s: Seq<char>, cut: Cut, from: int)
    requires
        0 <= from <= s.len(),
        forall|j: int| 0 <= j < from ==> cut.covers(s[j]),
        from < s.len() ==> !cut.covers(s[from]),
    ensures
        cut_start(s, cut) == s.skip(from),
    decreases s.len(),
{
    if from > 0 {
        lemma_cut_start_at(s.drop_first(), cut, from - 1);
        assert(s.drop_first().skip(from - 1) =~= s.skip(from));
    } else {
        assert(s.skip(0) =~= s);
    }
}

proof fn lemma_cut_end_at(s: Seq<char>, cut: Cut, to: int)
    requires
        0 <= to <= s.len(),
        forall|j: int| to <= j < s.len() ==> cut.covers(s[j]),
        to > 0 ==> !cut.covers(s[to - 1]),
    ensures
        cut_end(s, cut) == s.take(to),
    decreases s.len(),
{
    if to < s.len() {
        lemma_cut_end_at(s.drop_last(), cut, to);
        assert(s.drop_last().take(to) =~= s.take(to));
    } else {
        assert(s.take(to) =~= s);
    }
}

fn sub_chars(v: &Vec<char>, from: usize, to: usize) -> (r: Vec<char>)
    requires
        from <= to <= v.len(),
    ensures
        r@ == v@.subrange(from as int, to as int),
{
    let mut out: Vec<char> = Vec::new();
    for i in from..to
        invariant
            from <= i <= to <= v.len(),
            out@ == v@.subrange(from as int, i as int),
    {
        out.push(v[i]);
    }
    out
}

/// The characters without those that `cut` covers at either end.
pub(crate) fn cut_both_chars(v: &Vec<char>, cut: Cut) -> (r: Vec<char>)
    ensures
        r@ == cut_both(v@, cut),
{
    let mut from: usize = 0;
    while from < v.len() && cut.test(v[from])
        invariant
            from <= v.len(),
            forall|j: int| 0 <= j < from ==> cut.covers(v@[j]),
        decreases v.len() - from,
    {
        from = from + 1;
    }
    proof {
        lemma_cut_start_at(v@, cut, from as int);
    }
    let rest = sub_chars(v, from, v.len());
    assert(rest@ =~= v@.skip(from as int));
    cut_end_chars(&rest, cut)
}

/// The characters without those that `cut` covers at the end.
pub(crate) fn cut_end_chars(v: &Vec<char>, cut: Cut) -> (r: Vec<char>)
    ensures
        r@ == cut_end(v@, cut),
{
    let mut to: usize = v.len();
    while to > 0 && cut.test(v[to - 1])
        invariant
            to <= v.len(),
            forall|j: int| to <= j < v.len() ==> cut.covers(v@[j]),
        decreases to,
    {
        to = to - 1;
    }
    proof {
        lemma_cut_end_at(v@, cut, to as int);
    }
    sub_chars(v, 0, to)
}

proof fn lemma_until_newline_at(s: Seq<char>, n: int)
    requires
        0 <= n <= s.len(),
        forall|j: int| 0 <= j < n ==> s[j] != '\n',
        n < s.len() ==> s[n] == '\n',
    ensures
        until_newline(s) == n,
    decreases s.len(),
{
    if n > 0 {
        lemma_until_newline_at(s.drop_first(), n - 1);
    }
}

pub(crate) fn split_lines(v: &Vec<char>) -> (r: Vec<Vec<char>>)
    ensures
        char_texts(r@) == lines(v@),
{
    let mut out: Vec<Vec<char>> = Vec::new();
    let mut start: usize = 0;
    assert(v@.skip(0) =~= v@);
    assert(char_texts(out@) + lines(v@) =~= lines(v@));
    while start < v.len()
        invariant
            start <= v.len(),
            char_texts(out@) + lines(v@.skip(start as int)) == lines(v@),
        decreases v.len() - start,
    {
        let mut end: usize = start;
        while end < v.len() && v[end] != '\n'
            invariant
                start <= end <= v.len(),
                forall|j: int| start <= j < end ==> v@[j] != '\n',
            decreases v.len() - end,
        {
            end = end + 1;
        }
        let ghost rest = v@.skip(start as int);
        let ghost before = out@;
        proof {
            lemma_until_newline_at(rest, end - start);
        }
        if end == v.len() {
            let line = sub_chars(v, start, end);
            assert(line@ =~= rest);
            out.push(line);
            start = end;
            assert(v@.skip(start as int) =~= Seq::empty());
            assert(char_texts(out@) =~= char_texts(before) + seq![rest]);
            assert(char_texts(out@) + lines(v@.skip(start as int)) =~= char_texts(out@));
        } else {
            let stop: usize = if end > start && v[end - 1] == '\r' {
                end - 1
            } else {
                end
            };
            let line = sub_chars(v, start, stop);
            assert(line@ =~= without_cr(rest.take(end - start)));
            out.push(line);
            assert(rest.skip(end - start + 1) =~= v@.skip(end + 1));
            assert(char_texts(out@) =~= char_texts(before) + seq![line@]);
            start = end + 1;
            assert(char_texts(out@) + lines(v@.skip(start as int)) =~= char_texts(before)
                + lines(rest));
        }
    }
    assert(v@.skip(start as int) =~= Seq::empty());
    assert(char_texts(out@) + lines(v@.skip(start as int)) =~= char_texts(out@));
    out
}

fn digit_char(d: u64) -> (c: char)
    requires
        d < 10,
    ensures
        c == digit(d as nat),
{
    (48u8 + d as u8) as char
}

/// Appends `n` in decimal.
pub(crate) fn push_decimal(out: &mut String, n: u64)
    ensures
        final(out)@ == old(out)@ + decimal(n as nat),
    decreases n,
{
    if n < 10 {
        out.push(digit_char(n));
        assert(out@ =~= old(out)@ + decimal(n as nat));
    } else {
        push_decimal(out, n / 10);
        out.push(digit_char(n % 10));
        assert(out@ =~= old(out)@ + decimal(n as nat));
    }
}

} // verus!
