//! What trimming, splitting, joining and decimal numbers come to.
use crate::text;
use crate::text::Cut;
use vstd::prelude::*;

verus! {

/// Whether a text is nothing but white space.
pub open spec fn is_blank(s: Seq<char>) -> bool {
    forall|i: int| 0 <= i < s.len() ==> text::is_white_space(#[trigger] s[i])
}

/// Whether a text is nothing but one character.
pub open spec fn is_run_of(s: Seq<char>, c: char) -> bool {
    forall|i: int| 0 <= i < s.len() ==> #[trigger] s[i] == c
}

/// Every printable ASCII character but the space is no white space; tabs, line ends and the
/// space are.
pub proof fn ascii_white_space(c: char)
    requires
        c as int <= 0x7f,
    ensures
        text::is_white_space(c) <==> c == ' ' || c == '\t' || c == '\n' || c == '\r' || c
            == '\u{b}' || c == '\u{c}',
{
}

/// Beyond ASCII, white space is the next-line and no-break spaces, the Ogham and ideographic
/// spaces, the spaces and separators of general punctuation, and nothing else.
pub proof fn other_white_space(c: char)
    requires
        c as int > 0x7f,
    ensures
        text::is_white_space(c) <==> {
            let n = c as int;
            n == 0x85 || n == 0xa0 || n == 0x1680 || 0x2000 <= n <= 0x200a || n == 0x2028 || n
                == 0x2029 || n == 0x202f || n == 0x205f || n == 0x3000
        },
{
}

proof fn lemma_cut_start(lead: Seq<char>, rest: Seq<char>, cut: Cut)
    requires
        forall|i: int| 0 <= i < lead.len() ==> cut.covers(#[trigger] lead[i]),
        rest.len() > 0 ==> !cut.covers(rest[0]),
    ensures
        text::cut_start(lead + rest, cut) == rest,
    decreases lead.len(),
{
    if lead.len() == 0 {
        assert(lead + rest =~= rest);
    } else {
        assert((lead + rest).first() == lead[0]);
        assert((lead + rest).drop_first() =~= lead.drop_first() + rest);
        assert(forall|i: int| 0 <= i < lead.len() - 1 ==> lead.drop_first()[i] == lead[i + 1]);
        lemma_cut_start(lead.drop_first(), rest, cut);
    }
}

proof fn lemma_cut_end(rest: Seq<char>, tail: Seq<char>, cut: Cut)
    requires
        forall|i: int| 0 <= i < tail.len() ==> cut.covers(#[trigger] tail[i]),
        rest.len() > 0 ==> !cut.covers(rest.last()),
    ensures
        text::cut_end(rest + tail, cut) == rest,
    decreases tail.len(),
{
    if tail.len() == 0 {
        assert(rest + tail =~= rest);
    } else {
        assert((rest + tail).last() == tail[tail.len() - 1]);
        assert((rest + tail).drop_last() =~= rest + tail.drop_last());
        assert(forall|i: int| 0 <= i < tail.len() - 1 ==> tail.drop_last()[i] == tail[i]);
        lemma_cut_end(rest, tail.drop_last(), cut);
    }
}

proof fn lemma_cut_both(lead: Seq<char>, core: Seq<char>, tail: Seq<char>, cut: Cut)
    requires
        forall|i: int| 0 <= i < lead.len() ==> cut.covers(#[trigger] lead[i]),
        forall|i: int| 0 <= i < tail.len() ==> cut.covers(#[trigger] tail[i]),
        core.len() > 0 ==> !cut.covers(core[0]) && !cut.covers(core.last()),
    ensures
        text::cut_both(lead + core + tail, cut) == core,
{
    if core.len() > 0 {
        assert(lead + core + tail =~= lead + (core + tail));
        lemma_cut_start(lead, core + tail, cut);
        lemma_cut_end(core, tail, cut);
    } else {
        let all = lead + tail;
        assert(lead + core + tail =~= all + core);
        assert forall|i: int| 0 <= i < all.len() implies cut.covers(#[trigger] all[i]) by {
            if i >= lead.len() {
                assert(all[i] == tail[i - lead.len()]);
            }
        }
        lemma_cut_start(all, core, cut);
    }
}

/// Trimming takes away the white space around a text, and nothing of what stands between the
/// first and the last character that is none.
pub proof fn trimming_takes_the_white_space_around_a_text(
    lead: Seq<char>,
    core: Seq<char>,
    tail: Seq<char>,
)
    requires
        is_blank(lead),
        is_blank(tail),
        core.len() > 0 ==> !text::is_white_space(core[0]) && !text::is_white_space(core.last()),
    ensures
        text::trim(lead + core + tail) == core,
{
    lemma_cut_both(lead, core, tail, Cut::WhiteSpace);
}

/// Only a text that is nothing but white space is trimmed to nothing.
pub proof fn only_blank_texts_are_trimmed_to_nothing(s: Seq<char>)
    ensures
        text::trim(s).len() == 0 <==> is_blank(s),
{
    if is_blank(s) {
        let none = Seq::<char>::empty();
        assert(s + none + none =~= s);
        trimming_takes_the_white_space_around_a_text(s, none, none);
    } else {
        let i = choose|i: int| 0 <= i < s.len() && !text::is_white_space(#[trigger] s[i]);
        lemma_cut_start_holds(s, i);
    }
}

proof fn lemma_cut_start_holds(s: Seq<char>, i: int)
    requires
        0 <= i < s.len(),
        !text::is_white_space(s[i]),
    ensures
        text::trim(s).len() > 0,
    decreases s.len(),
{
    if text::is_white_space(s.first()) {
        assert(s.drop_first()[i - 1] == s[i]);
        lemma_cut_start_holds(s.drop_first(), i - 1);
    } else {
        lemma_cut_end_holds(s);
    }
}

proof fn lemma_cut_end_holds(s: Seq<char>)
    requires
        s.len() > 0,
        !text::is_white_space(s[0]),
    ensures
        text::cut_end(s, Cut::WhiteSpace).len() > 0,
    decreases s.len(),
{
    if text::is_white_space(s.last()) {
        lemma_cut_end_holds(s.drop_last());
    }
}

/// Trimming the end takes away the white space at the end of a text, and nothing before it.
pub proof fn trimming_the_end_keeps_the_start(core: Seq<char>, tail: Seq<char>)
    requires
        is_blank(tail),
        core.len() > 0 ==> !text::is_white_space(core.last()),
    ensures
        text::trim_end(core + tail) == core,
{
    lemma_cut_end(core, tail, Cut::WhiteSpace);
}

/// Cutting one character off takes it away at both ends, and nowhere else.
pub proof fn cutting_a_character_takes_it_at_both_ends(
    lead: Seq<char>,
    core: Seq<char>,
    tail: Seq<char>,
    c: char,
)
    requires
        is_run_of(lead, c),
        is_run_of(tail, c),
        core.len() > 0 ==> core[0] != c && core.last() != c,
    ensures
        text::cut_both(lead + core + tail, Cut::Only(c)) == core,
{
    lemma_cut_both(lead, core, tail, Cut::Only(c));
}

proof fn lemma_until_newline(a: Seq<char>, b: Seq<char>)
    requires
        !a.contains('\n'),
        b.len() > 0 ==> b[0] == '\n',
    ensures
        text::until_newline(a + b) == a.len(),
    decreases a.len(),
{
    if a.len() == 0 {
        assert(a + b =~= b);
    } else {
        assert((a + b).first() == a[0]);
        assert(a.contains(a[0]));
        assert((a + b).drop_first() =~= a.drop_first() + b);
        assert(!a.drop_first().contains('\n')) by {
            assert forall|i: int| 0 <= i < a.len() - 1 implies a.drop_first()[i] != '\n' by {
                assert(a.contains(a[i + 1]));
            }
        }
        lemma_until_newline(a.drop_first(), b);
    }
}

/// A text is cut into lines at its line feeds: what stands before the first one is the first
/// line, without one carriage return at its end, and the lines of the rest follow. What
/// stands after the last line feed is a line unless it is empty.
pub proof fn lines_end_at_line_feeds(a: Seq<char>, b: Seq<char>)
    requires
        !a.contains('\n'),
    ensures
        text::lines(Seq::empty()) == Seq::<Seq<char>>::empty(),
        a.len() > 0 ==> text::lines(a) == seq![a],
        text::lines(a + seq!['\n'] + b) == seq![
            if a.len() > 0 && a.last() == '\r' {
                a.drop_last()
            } else {
                a
            },
        ] + text::lines(b),
{
    lemma_until_newline(a, Seq::empty());
    assert(a + Seq::<char>::empty() =~= a);
    let s = a + seq!['\n'] + b;
    assert(s =~= a + (seq!['\n'] + b));
    lemma_until_newline(a, seq!['\n'] + b);
    assert(s.take(a.len() as int) =~= a);
    assert(s.skip(a.len() as int + 1) =~= b);
}

/// Joined texts stand one after another, with the separator between each two: nothing for no
/// text, the text for one, and for two lists what each is joined to, with a separator.
pub proof fn joining_puts_a_separator_between(
    a: Seq<Seq<char>>,
    b: Seq<Seq<char>>,
    part: Seq<char>,
    sep: Seq<char>,
)
    ensures
        text::join(Seq::empty(), sep) == Seq::<char>::empty(),
        text::join(seq![part], sep) == part,
        a.len() > 0 && b.len() > 0 ==> text::join(a + b, sep) == text::join(a, sep) + sep
            + text::join(b, sep),
    decreases b.len(),
{
    if a.len() > 0 && b.len() > 0 {
        let ab = a + b;
        assert(ab.drop_last() =~= a + b.drop_last());
        assert(ab.last() == b.last());
        if b.len() == 1 {
            assert(ab.drop_last() =~= a);
        } else {
            joining_puts_a_separator_between(a, b.drop_last(), part, sep);
            assert(text::join(ab, sep) =~= text::join(a, sep) + sep + text::join(b, sep));
        }
    }
}

/// The number that a text of decimal digits stands for.
pub open spec fn number(digits: Seq<char>) -> nat
    decreases digits.len(),
{
    if digits.len() == 0 {
        0
    } else {
        10 * number(digits.drop_last()) + (digits.last() as nat - 48) as nat
    }
}

/// A number in decimal is made of digits, stands for that number, and starts with a zero
/// only if it is zero.
pub proof fn decimals_stand_for_their_number(n: nat)
    ensures
        number(text::decimal(n)) == n,
        text::decimal(n).len() > 0,
        text::decimal(n)[0] == '0' ==> n == 0 && text::decimal(n).len() == 1,
        forall|i: int|
            0 <= i < text::decimal(n).len() ==> '0' <= #[trigger] text::decimal(n)[i] <= '9',
    decreases n,
{
    if n < 10 {
        assert(text::decimal(n).drop_last() =~= Seq::empty());
        assert(number(text::decimal(n).drop_last()) == 0);
    } else {
        decimals_stand_for_their_number(n / 10);
        assert(text::decimal(n).drop_last() =~= text::decimal(n / 10));
        assert(text::decimal(n)[0] == text::decimal(n / 10)[0]);
    }
}

/// Lists of strings are read string by string.
pub proof fn texts_are_read_one_by_one(
    list: Seq<String>,
    chars: Seq<Vec<char>>,
    optional: Option<String>,
)
    ensures
        text::texts(list).len() == list.len(),
        forall|i: int| 0 <= i < list.len() ==> #[trigger] text::texts(list)[i] == list[i]@,
        text::char_texts(chars).len() == chars.len(),
        forall|i: int| 0 <= i < chars.len() ==> #[trigger] text::char_texts(chars)[i] == chars[i]@,
        optional is Some <==> text::optional_text(optional) is Some,
        optional is Some ==> text::optional_text(optional)->0 == optional->0@,
{
}

} // verus!
