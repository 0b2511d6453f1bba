//! What trimming, searching, splitting and replacing do to a text.
use vstd::prelude::*;

use crate::text::{
    find, first_nonblank, has, has_prefix, has_suffix, join, lemma_find_from, lemma_next_separator,
    lines, lines_from, lower, lowercase, matches_at, next_separator, pieces, pieces_from, replace,
    replace_from, trim, trim_end, trim_start, white, without_cr,
};

verus! {

// ---------------------------------------------------------------------------
// White space
// ---------------------------------------------------------------------------

/// Of the ASCII characters the tab, the line ends, the form feeds and the space are white.
pub proof fn ascii_white_space(c: char)
    requires
        c <= '\u{7f}',
    ensures
        white(c) <==> (c == ' ' || '\t' <= c <= '\r'),
{
}

/// Whether a text holds nothing but white space.
pub open spec fn all_white(s: Seq<char>) -> bool {
    forall|i: int| 0 <= i < s.len() ==> white(#[trigger] s[i])
}

/// Whether a text neither begins nor ends with white space.
pub open spec fn tight(s: Seq<char>) -> bool {
    s.len() > 0 ==> !white(s[0]) && !white(s.last())
}

proof fn lemma_trim_start(s: Seq<char>) -> (a: int)
    ensures
        0 <= a <= s.len(),
        trim_start(s) == s.skip(a),
        all_white(s.take(a)),
        a < s.len() ==> !white(s[a]),
    decreases s.len(),
{
    if s.len() > 0 && white(s[0]) {
        let b = lemma_trim_start(s.drop_first());
        assert(s.drop_first().skip(b) == s.skip(b + 1));
        assert forall|i: int| 0 <= i < b + 1 implies white(#[trigger] s.take(b + 1)[i]) by {
            if i > 0 {
                assert(s.drop_first().take(b)[i - 1] == s[i]);
            }
        }
        if b < s.drop_first().len() {
            assert(s.drop_first()[b] == s[b + 1]);
        }
        b + 1
    } else {
        assert(s.skip(0) == s);
        0
    }
}

proof fn lemma_trim_end(s: Seq<char>) -> (b: int)
    ensures
        0 <= b <= s.len(),
        trim_end(s) == s.take(b),
        all_white(s.skip(b)),
        b > 0 ==> !white(s[b - 1]),
    decreases s.len(),
{
    if s.len() > 0 && white(s.last()) {
        let b = lemma_trim_end(s.drop_last());
        assert(s.drop_last().take(b) == s.take(b));
        assert forall|i: int| 0 <= i < s.skip(b).len() implies white(#[trigger] s.skip(b)[i]) by {
            if i + b < s.len() - 1 {
                assert(s.drop_last().skip(b)[i] == s[i + b]);
            }
        }
        b
    } else {
        assert(s.take(s.len() as int) == s);
        s.len() as int
    }
}

/// Trimming takes white space off both ends and nothing else: what is left is a middle part with
/// white space before and behind it that neither begins nor ends with white space.
pub proof fn trimming_takes_the_ends_off(s: Seq<char>) -> (ends: (int, int))
    ensures
        0 <= ends.0 <= ends.1 <= s.len(),
        trim(s) == s.subrange(ends.0, ends.1),
        all_white(s.take(ends.0)),
        all_white(s.skip(ends.1)),
        tight(trim(s)),
{
    let a = lemma_trim_start(s);
    let rest = s.skip(a);
    let b = lemma_trim_end(rest);
    assert(rest.take(b) == s.subrange(a, a + b));
    assert forall|i: int| 0 <= i < s.skip(a + b).len() implies white(
        #[trigger] s.skip(a + b)[i],
    ) by {
        assert(rest.skip(b)[i] == s[a + b + i]);
    }
    if b > 0 {
        assert(rest[b - 1] == s[a + b - 1]);
    }
    (a, a + b)
}

/// A text without white space at its ends is trimmed already.
pub proof fn tight_texts_stay(s: Seq<char>)
    requires
        tight(s),
    ensures
        trim(s) == s,
{
}

/// Nothing is left of a text exactly if it holds nothing but white space.
pub proof fn blank_texts_are_white(s: Seq<char>)
    ensures
        trim(s).len() == 0 <==> all_white(s),
{
    let (a, b) = trimming_takes_the_ends_off(s);
    if trim(s).len() == 0 {
        assert forall|i: int| 0 <= i < s.len() implies white(#[trigger] s[i]) by {
            if i < a {
                assert(s.take(a)[i] == s[i]);
            } else {
                assert(s.skip(b)[i - b] == s[i]);
            }
        }
    } else {
        assert(trim(s)[0] == s[a]);
    }
}

/// White space around a text does not change what trimming leaves of it.
pub proof fn white_space_around_is_dropped(before: Seq<char>, s: Seq<char>, after: Seq<char>)
    requires
        all_white(before),
        all_white(after),
        tight(s),
        s.len() > 0,
    ensures
        trim(before + s + after) == s,
{
    let all = before + s + after;
    let (a, b) = trimming_takes_the_ends_off(all);
    let n = before.len() as int;
    let m = n + s.len();
    assert(all[n] == s[0]);
    assert(all[m - 1] == s.last());
    if a > n {
        assert(all.take(a)[n] == all[n]);
    }
    if b < m {
        assert(all.skip(b)[m - 1 - b] == all[m - 1]);
    }
    assert(trim(all).len() > 0);
    if a < n {
        assert(trim(all)[0] == all[a]);
        assert(all[a] == before[a]);
    }
    if b > m {
        assert(trim(all).last() == all[b - 1]);
        assert(all[b - 1] == after[b - 1 - m]);
    }
    assert(all.subrange(n, m) == s);
}

/// Lower case changes the capitals of ASCII and nothing else.
pub proof fn lower_case_changes_capitals(s: Seq<char>, i: int)
    requires
        0 <= i < s.len(),
    ensures
        lowercase(s).len() == s.len(),
        'A' <= s[i] <= 'Z' ==> 'a' <= lowercase(s)[i] <= 'z' && lowercase(s)[i] as u32 - 'a' as u32
            == s[i] as u32 - 'A' as u32,
        !('A' <= s[i] <= 'Z') ==> lowercase(s)[i] == s[i],
{
    assert(lowercase(s)[i] == lower(s[i]));
}

// ---------------------------------------------------------------------------
// Searching
// ---------------------------------------------------------------------------

/// A text holds a pattern exactly if it can be cut into what comes before, the pattern, and what
/// comes after.
pub proof fn holding_is_standing_somewhere(s: Seq<char>, p: Seq<char>)
    ensures
        has(s, p) <==> exists|a: Seq<char>, b: Seq<char>| s == #[trigger] (a + p + b),
{
    lemma_find_from(s, p, 0);
    if has(s, p) {
        let k = find(s, p)->0;
        let a = s.take(k);
        let b = s.skip(k + p.len());
        assert(s == a + p + b);
    }
    if exists|a: Seq<char>, b: Seq<char>| s == #[trigger] (a + p + b) {
        let (a, b) = choose|a: Seq<char>, b: Seq<char>| s == #[trigger] (a + p + b);
        assert(s.subrange(a.len() as int, (a.len() + p.len()) as int) == p);
        assert(matches_at(s, p, a.len() as int));
    }
}

/// A text begins and ends with a pattern exactly if it is that pattern with something behind or
/// before it.
pub proof fn ends_of_a_text(s: Seq<char>, p: Seq<char>)
    ensures
        has_prefix(p + s, p),
        has_suffix(s + p, p),
        has_prefix(s, p) ==> s == p + s.skip(p.len() as int),
        has_suffix(s, p) ==> s == s.take(s.len() - p.len()) + p,
{
    assert((p + s).subrange(0, p.len() as int) == p);
    assert((s + p).subrange(s.len() as int, (s.len() + p.len()) as int) == p);
    if has_prefix(s, p) {
        assert(s.subrange(0, p.len() as int) == p);
        assert(s == p + s.skip(p.len() as int));
    }
    if has_suffix(s, p) {
        assert(s.subrange(s.len() - p.len(), s.len() as int) == p);
        assert(s == s.take(s.len() - p.len()) + p);
    }
}

/// The first place at which a pattern stands is that of the cut before which it does not begin.
pub proof fn found_at_the_first_place(a: Seq<char>, p: Seq<char>, b: Seq<char>)
    requires
        forall|j: int| 0 <= j < a.len() ==> !(#[trigger] matches_at(a + p + b, p, j)),
    ensures
        find(a + p + b, p) == Some(a.len() as int),
{
    let s = a + p + b;
    lemma_find_from(s, p, 0);
    assert(s.subrange(a.len() as int, (a.len() + p.len()) as int) == p);
    assert(matches_at(s, p, a.len() as int));
}

/// A pattern is not found before its first character.
pub proof fn not_before_its_first_character(s: Seq<char>, p: Seq<char>, n: int)
    requires
        p.len() > 0,
        0 <= n <= s.len(),
        forall|j: int| 0 <= j < n ==> #[trigger] s[j] != p[0],
    ensures
        forall|j: int| 0 <= j < n ==> !(#[trigger] matches_at(s, p, j)),
{
    assert forall|j: int| 0 <= j < n implies !(#[trigger] matches_at(s, p, j)) by {
        if matches_at(s, p, j) {
            assert(s.subrange(j, j + p.len())[0] == s[j]);
        }
    }
}

// ---------------------------------------------------------------------------
// Replacing
// ---------------------------------------------------------------------------

/// Where a pattern does not stand, replacing passes over the text.
pub proof fn passed_over(s: Seq<char>, p: Seq<char>, q: Seq<char>, i: int, m: int)
    requires
        p.len() > 0,
        0 <= i,
        0 <= m,
        i + m <= s.len(),
        forall|j: int| i <= j < i + m ==> !(#[trigger] matches_at(s, p, j)),
    ensures
        replace_from(s, p, q, i) == s.subrange(i, i + m) + replace_from(s, p, q, i + m),
    decreases m,
{
    if m > 0 {
        assert(!(matches_at(s, p, i)));
        passed_over(s, p, q, i + 1, m - 1);
        assert(s.subrange(i, i + m) == seq![s[i]] + s.subrange(i + 1, i + m));
    } else {
        assert(s.subrange(i, i + m) == Seq::<char>::empty());
    }
}

/// A text that does not hold a pattern is not changed by replacing it.
pub proof fn absent_patterns_change_nothing(s: Seq<char>, p: Seq<char>, q: Seq<char>)
    requires
        p.len() > 0,
        !(has(s, p)),
    ensures
        replace(s, p, q) == s,
{
    lemma_find_from(s, p, 0);
    passed_over(s, p, q, 0, s.len() as int);
    assert(s.subrange(0, s.len() as int) == s);
    assert(replace_from(s, p, q, s.len() as int) == Seq::<char>::empty());
}

// ---------------------------------------------------------------------------
// Splitting
// ---------------------------------------------------------------------------

/// Whether a text does not hold a character.
pub open spec fn free_of(s: Seq<char>, c: char) -> bool {
    forall|i: int| 0 <= i < s.len() ==> #[trigger] s[i] != c
}

proof fn lemma_next_shift(pre: Seq<char>, t: Seq<char>, seps: Seq<char>, i: int)
    requires
        0 <= i <= t.len(),
    ensures
        next_separator(pre + t, seps, pre.len() + i) == pre.len() + next_separator(t, seps, i),
    decreases t.len() - i,
{
    let all = pre + t;
    if i < t.len() {
        assert(all[pre.len() + i] == t[i]);
        if !seps.contains(t[i]) {
            lemma_next_shift(pre, t, seps, i + 1);
        }
    }
}

proof fn lemma_pieces_shift(pre: Seq<char>, t: Seq<char>, seps: Seq<char>, i: int)
    requires
        0 <= i <= t.len(),
    ensures
        pieces_from(pre + t, seps, pre.len() + i) == pieces_from(t, seps, i),
    decreases t.len() - i,
{
    let all = pre + t;
    lemma_next_shift(pre, t, seps, i);
    lemma_next_separator(t, seps, i);
    let end = next_separator(t, seps, i);
    if end < t.len() {
        lemma_pieces_shift(pre, t, seps, end + 1);
        assert(all.subrange(pre.len() + i, pre.len() + end) == t.subrange(i, end));
    } else {
        assert(all.skip(pre.len() + i) == t.skip(i));
    }
}

proof fn lemma_first_gap(a: Seq<char>, c: char, t: Seq<char>)
    requires
        free_of(a, c),
    ensures
        next_separator(a + seq![c] + t, seq![c], 0) == a.len(),
{
    let all = a + seq![c] + t;
    let gap = seq![c];
    lemma_next_separator(all, gap, 0);
    let end = next_separator(all, gap, 0);
    assert(gap[0] == c);
    assert(gap.contains(c));
    assert(all[a.len() as int] == c);
    if end < a.len() {
        assert(all[end] == a[end]);
    }
    if end > a.len() {
        assert(gap.contains(all[a.len() as int]));
    }
}

/// What stands before the first separator is the first piece, and the rest is split by itself.
pub proof fn first_piece_is_split_off(a: Seq<char>, c: char, t: Seq<char>)
    requires
        free_of(a, c),
    ensures
        pieces(a + seq![c] + t, seq![c]) == seq![a] + pieces(t, seq![c]),
{
    let all = a + seq![c] + t;
    lemma_first_gap(a, c, t);
    assert(all.subrange(0, a.len() as int) == a);
    assert(all == (a + seq![c]) + t);
    lemma_pieces_shift(a + seq![c], t, seq![c], 0);
}

/// A text without the separator is one piece.
pub proof fn one_piece(a: Seq<char>, c: char)
    requires
        free_of(a, c),
    ensures
        pieces(a, seq![c]) == seq![a],
{
    lemma_next_separator(a, seq![c], 0);
    let end = next_separator(a, seq![c], 0);
    if end < a.len() {
        assert(seq![c].contains(a[end]));
    }
    assert(a.skip(0) == a);
}

/// What stands before the first line feed is the first line.
pub proof fn first_line_is_split_off(a: Seq<char>, t: Seq<char>)
    requires
        free_of(a, '\n'),
    ensures
        lines(a + seq!['\n'] + t) == seq![without_cr(a)] + lines(t),
{
    let all = a + seq!['\n'] + t;
    lemma_first_gap(a, '\n', t);
    assert(all.subrange(0, a.len() as int) == a);
    assert(all == (a + seq!['\n']) + t);
    lemma_lines_shift(a + seq!['\n'], t, 0);
}

proof fn lemma_lines_shift(pre: Seq<char>, t: Seq<char>, i: int)
    requires
        0 <= i <= t.len(),
    ensures
        lines_from(pre + t, pre.len() + i) == lines_from(t, i),
    decreases t.len() - i,
{
    let all = pre + t;
    let feed = seq!['\n'];
    lemma_next_shift(pre, t, feed, i);
    lemma_next_separator(t, feed, i);
    let end = next_separator(t, feed, i);
    if i < t.len() {
        if end < t.len() {
            lemma_lines_shift(pre, t, end + 1);
            assert(all.subrange(pre.len() + i, pre.len() + end) == t.subrange(i, end));
        } else {
            assert(all.skip(pre.len() + i) == t.skip(i));
        }
    }
}

/// A text without a line feed is one line.
pub proof fn one_line(a: Seq<char>)
    requires
        a.len() > 0,
        free_of(a, '\n'),
    ensures
        lines(a) == seq![a],
{
    lemma_next_separator(a, seq!['\n'], 0);
    let end = next_separator(a, seq!['\n'], 0);
    if end < a.len() {
        assert(seq!['\n'].contains(a[end]));
    }
    assert(a.skip(0) == a);
}

/// The first line that is not blank, trimmed, is the headline: blank lines before it are passed
/// over, and what follows it does not matter.
pub proof fn first_line_with_something(a: Seq<char>, t: Seq<char>)
    requires
        free_of(a, '\n'),
        a.len() > 0,
    ensures
        !all_white(a) ==> first_nonblank(lines(a + seq!['\n'] + t)) == Some(trim(a)),
        !all_white(a) ==> first_nonblank(lines(a)) == Some(trim(a)),
        all_white(a) ==> first_nonblank(lines(a + seq!['\n'] + t)) == first_nonblank(lines(t)),
        all_white(a) ==> first_nonblank(lines(a)) is None,
{
    first_line_is_split_off(a, t);
    one_line(a);
    let cut = without_cr(a);
    blank_texts_are_white(a);
    lemma_trim_without_cr(a);
    let all = seq![cut] + lines(t);
    assert(all[0] == cut);
    assert(all.drop_first() == lines(t));
    let single = seq![a];
    assert(single.drop_first() == Seq::<Seq<char>>::empty());
    reveal_with_fuel(first_nonblank, 2);
}

proof fn lemma_trim_without_cr(a: Seq<char>)
    ensures
        trim(without_cr(a)) == trim(a),
    decreases a.len(),
{
    if a.len() > 0 && a.last() == '\r' {
        let s = a.drop_last();
        let k = lemma_trim_start(a);
        if all_white(s) {
            assert(all_white(a)) by {
                assert forall|i: int| 0 <= i < a.len() implies white(#[trigger] a[i]) by {
                    if i < s.len() {
                        assert(s[i] == a[i]);
                    }
                }
            }
            blank_texts_are_white(s);
            blank_texts_are_white(a);
            assert(trim(s) == trim(a));
        } else {
            let (x, y) = trimming_takes_the_ends_off(s);
            blank_texts_are_white(s);
            let t = trim(s);
            let tail = s.skip(y) + seq!['\r'];
            assert forall|i: int| 0 <= i < tail.len() implies white(#[trigger] tail[i]) by {
                if i < s.skip(y).len() {
                    assert(white(s.skip(y)[i]));
                }
            }
            assert(a == s.take(x) + t + tail);
            white_space_around_is_dropped(s.take(x), t, tail);
        }
    }
}

proof fn lemma_join_cons(first: Seq<char>, rest: Seq<Seq<char>>, sep: Seq<char>)
    requires
        rest.len() > 0,
    ensures
        join(seq![first] + rest, sep) == first + sep + join(rest, sep),
    decreases rest.len(),
{
    let all = seq![first] + rest;
    assert(all.last() == rest.last());
    if rest.len() == 1 {
        assert(all.drop_last() == seq![first]);
        reveal_with_fuel(join, 2);
    } else {
        assert(all.drop_last() == seq![first] + rest.drop_last());
        lemma_join_cons(first, rest.drop_last(), sep);
        assert(join(all, sep) == first + sep + join(rest, sep));
    }
}

/// The pieces of a text hold no separator, and put together with it they are the text again.
pub proof fn pieces_make_up_the_text(s: Seq<char>, c: char)
    ensures
        join(pieces(s, seq![c]), seq![c]) == s,
        forall|k: int| 0 <= k < pieces(s, seq![c]).len() ==> free_of(#[trigger] pieces(s, seq![c])[k], c),
    decreases s.len(),
{
    let gap = seq![c];
    lemma_next_separator(s, gap, 0);
    let end = next_separator(s, gap, 0);
    assert(gap[0] == c);
    assert forall|j: int| 0 <= j < end implies #[trigger] s[j] != c by {
        if s[j] == c {
            assert(gap.contains(s[j]));
        }
    }
    if end < s.len() {
        let a = s.take(end);
        let t = s.skip(end + 1);
        assert(s == a + gap + t);
        assert(free_of(a, c));
        first_piece_is_split_off(a, c, t);
        pieces_make_up_the_text(t, c);
        lemma_join_cons(a, pieces(t, gap), gap);
        assert forall|k: int| 0 <= k < pieces(s, gap).len() implies free_of(
            #[trigger] pieces(s, gap)[k],
            c,
        ) by {
            if k > 0 {
                assert(pieces(s, gap)[k] == pieces(t, gap)[k - 1]);
            }
        }
    } else {
        assert(free_of(s, c));
        one_piece(s, c);
    }
}

} // verus!
