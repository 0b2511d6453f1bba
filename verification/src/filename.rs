//! Names of delivered files: who, when and what, made of letters, digits and underscores and short
//! enough for every place they go to.
use vstd::prelude::*;
use vstd::slice::slice_subrange;

use crate::metadata::DeliveryFilenameMetadata;
use crate::numbers::{two_digit_text, two_digits};
use crate::text::{
    ascii_alphanumeric, chars_of, join, join_chars, pieces, push_chars, split, text_of, views,
    white, is_white,
};

verus! {

// ---------------------------------------------------------------------------
// Parts
// ---------------------------------------------------------------------------

/// Whether a character beyond ASCII is a letter or a digit, as `char::is_alphanumeric` says.
pub uninterp spec fn unicode_alphanumeric(c: char) -> bool;

/// Specifies `char::is_alphanumeric`: of the ASCII characters it is true of the letters and
/// digits; beyond ASCII its result depends on the character alone, and is named
/// `unicode_alphanumeric`.
pub assume_specification[ char::is_alphanumeric ](c: char) -> (r: bool)
    ensures
        r == if '\0' <= c <= '\x7f' {
            ascii_alphanumeric(c)
        } else {
            unicode_alphanumeric(c)
        },
;

/// Whether a character stays in a file name.
pub open spec fn stays(c: char) -> bool {
    !white(c) && if '\0' <= c <= '\x7f' {
        ascii_alphanumeric(c)
    } else {
        unicode_alphanumeric(c)
    }
}

/// A character of a file name, or a space in its place.
pub open spec fn kept(c: char) -> char {
    if stays(c) {
        c
    } else {
        ' '
    }
}

/// The parts that are not empty.
pub open spec fn nonempty(parts: Seq<Seq<char>>) -> Seq<Seq<char>>
    decreases parts.len(),
{
    if parts.len() == 0 {
        Seq::empty()
    } else if parts.last().len() == 0 {
        nonempty(parts.drop_last())
    } else {
        nonempty(parts.drop_last()).push(parts.last())
    }
}

/// The words of a text: what stands between the characters that do not stay.
pub open spec fn words(s: Seq<char>) -> Seq<Seq<char>> {
    nonempty(pieces(s.map_values(|c: char| kept(c)), seq![' ']))
}

/// A part of a file name: the words of the text with underscores between them, or the fallback
/// where there are none.
pub open spec fn sanitized(s: Seq<char>, fallback: Seq<char>) -> Seq<char> {
    let joined = join(words(s), "_"@);
    if joined.len() == 0 {
        fallback
    } else {
        joined
    }
}

/// The parts that are not empty.
fn nonempty_parts(parts: Vec<Vec<char>>) -> (r: Vec<Vec<char>>)
    ensures
        views(r@) == nonempty(views(parts@)),
{
    let ghost all = views(parts@);
    let mut out: Vec<Vec<char>> = Vec::new();
    assert(views(out@) == Seq::<Seq<char>>::empty());
    let mut i: usize = 0;
    while i < parts.len()
        invariant
            i <= parts.len(),
            all == views(parts@),
            views(out@) == nonempty(all.take(i as int)),
        decreases parts.len() - i,
    {
        assert(all.take(i + 1).drop_last() == all.take(i as int));
        assert(all.take(i + 1).last() == parts@[i as int]@);
        if parts[i].len() > 0 {
            let ghost before = views(out@);
            let word = crate::text::copy_chars(parts[i].as_slice());
            out.push(word);
            assert(views(out@) == before.push(word@));
        }
        i += 1;
    }
    assert(all.take(i as int) == all);
    out
}

/// Makes a part of a file name.
fn sanitize_chars(input: &str, fallback: &str) -> (r: Vec<char>)
    ensures
        r@ == sanitized(input@, fallback@),
{
    let cs = chars_of(input);
    let mut marked: Vec<char> = Vec::new();
    let mut i: usize = 0;
    while i < cs.len()
        invariant
            i <= cs.len(),
            marked@ == cs@.take(i as int).map_values(|c: char| kept(c)),
        decreases cs.len() - i,
    {
        let c = cs[i];
        let next = if c.is_alphanumeric() && !is_white(c) {
            c
        } else {
            ' '
        };
        assert(next == kept(c));
        marked.push(next);
        assert(cs@.take(i + 1) == cs@.take(i as int).push(c));
        assert(marked@ == cs@.take(i + 1).map_values(|c: char| kept(c)));
        i += 1;
    }
    assert(cs@.take(i as int) == input@);
    let gap: [char; 1] = [' '];
    assert(gap@ == seq![' ']);
    let found = nonempty_parts(split(marked.as_slice(), &gap));
    let joined = join_chars(&found, "_");
    if joined.len() == 0 {
        chars_of(fallback)
    } else {
        joined
    }
}

/// Makes a part of a file name.
pub fn sanitize_filename_part(input: &str, fallback: &str) -> (r: String)
    ensures
        r@ == sanitized(input@, fallback@),
{
    let cs = sanitize_chars(input, fallback);
    text_of(cs.as_slice())
}

/// At most the first characters of a text.
pub open spec fn truncated(s: Seq<char>, max: nat) -> Seq<char> {
    if s.len() <= max {
        s
    } else {
        s.take(max as int)
    }
}

/// At most the first characters of a text.
fn truncate_chars(s: &[char], max_chars: usize) -> (r: &[char])
    ensures
        r@ == truncated(s@, max_chars as nat),
{
    if s.len() <= max_chars {
        s
    } else {
        slice_subrange(s, 0, max_chars)
    }
}

/// At most the first characters of a text.
pub fn truncate_to_chars(input: &str, max_chars: usize) -> (r: String)
    ensures
        r@ == truncated(input@, max_chars as nat),
{
    let cs = chars_of(input);
    text_of(truncate_chars(cs.as_slice(), max_chars))
}

// ---------------------------------------------------------------------------
// Names
// ---------------------------------------------------------------------------

/// The user and the date with an underscore between them. Where they do not fit, the user is cut;
/// where not even the date fits with a user before it, the date alone is kept, cut if need be.
pub open spec fn prefix(user: Seq<char>, date: Seq<char>, max: nat) -> Seq<char> {
    if user.len() + 1 + date.len() <= max {
        user + seq!['_'] + date
    } else if date.len() + 1 < max {
        let cut = truncated(user, (max - date.len() - 1) as nat);
        if cut.len() == 0 {
            truncated(date, max)
        } else {
            cut + seq!['_'] + date
        }
    } else {
        truncated(date, max)
    }
}

/// Whether two lengths and one more stay within the bound.
fn fits(a: usize, b: usize, max: usize) -> (r: bool)
    ensures
        r == (a + 1 + b <= max),
{
    a < max && b <= max - a - 1
}

/// The user and the date with an underscore between them, cut to the bound.
fn prefix_chars(user: &[char], date: &[char], max_len: usize) -> (r: Vec<char>)
    ensures
        r@ == prefix(user@, date@, max_len as nat),
{
    let mut out: Vec<char> = Vec::new();
    if fits(user.len(), date.len(), max_len) {
        push_chars(&mut out, user);
        out.push('_');
        push_chars(&mut out, date);
        assert(out@ == user@ + seq!['_'] + date@);
        return out;
    }
    if max_len >= 1 && date.len() < max_len - 1 {
        let cut = truncate_chars(user, max_len - date.len() - 1);
        if cut.len() == 0 {
            push_chars(&mut out, truncate_chars(date, max_len));
            return out;
        }
        push_chars(&mut out, cut);
        out.push('_');
        push_chars(&mut out, date);
        assert(out@ == cut@ + seq!['_'] + date@);
        return out;
    }
    push_chars(&mut out, truncate_chars(date, max_len));
    out
}

/// The user and the date with an underscore between them, cut to the bound.
pub fn truncate_prefix_with_date(username: &str, date: &str, max_len: usize) -> (r: String)
    ensures
        r@ == prefix(username@, date@, max_len as nat),
{
    let u = chars_of(username);
    let d = chars_of(date);
    let out = prefix_chars(u.as_slice(), d.as_slice(), max_len);
    text_of(out.as_slice())
}

/// The name without number and extension: the prefix, then as much of the title as fits.
pub open spec fn basename(user: Seq<char>, date: Seq<char>, title: Seq<char>, max: nat) -> Seq<
    char,
> {
    let start = prefix(
        sanitized(user, "unknown"@),
        sanitized(date, "unknown"@),
        max,
    );
    let what = sanitized(title, "untitled"@);
    if start.len() >= max || what.len() == 0 {
        start
    } else {
        let cut = truncated(what, (max - start.len() - 1) as nat);
        if cut.len() == 0 {
            start
        } else {
            start + seq!['_'] + cut
        }
    }
}

/// The name without number and extension.
pub fn delivery_basename(user: &str, date: &str, title: &str, max_len: usize) -> (r: String)
    ensures
        r@ == basename(user@, date@, title@, max_len as nat),
{
    let u = sanitize_chars(user, "unknown");
    let d = sanitize_chars(date, "unknown");
    let what = sanitize_chars(title, "untitled");
    let mut out = prefix_chars(u.as_slice(), d.as_slice(), max_len);
    if out.len() >= max_len || what.len() == 0 {
        return text_of(out.as_slice());
    }
    let cut = truncate_chars(what.as_slice(), max_len - out.len() - 1);
    if cut.len() > 0 {
        let ghost start = out@;
        out.push('_');
        push_chars(&mut out, cut);
        assert(out@ == start + seq!['_'] + cut@);
    }
    text_of(out.as_slice())
}

/// The name without number and extension.
pub fn build_delivery_basename(metadata: &DeliveryFilenameMetadata, max_len: usize) -> (r: String)
    ensures
        r@ == basename(
            metadata@.filename_username,
            metadata@.date,
            metadata@.title,
            max_len as nat,
        ),
{
    delivery_basename(
        metadata.filename_username.as_str(),
        metadata.date.as_str(),
        metadata.title.as_str(),
        max_len,
    )
}

/// The longest name of a delivered file.
pub const MAX_DELIVERY_FILENAME_LEN: usize = 79;

/// The number of a file among several.
pub open spec fn number_suffix(sequence: Option<usize>) -> Seq<char> {
    match sequence {
        Some(n) => seq!['_'] + two_digits(n as nat),
        None => Seq::empty(),
    }
}

/// How long the name without number and extension may be.
pub open spec fn base_budget(extension: Seq<char>, suffix: Seq<char>) -> nat {
    if extension.len() + 1 + suffix.len() <= MAX_DELIVERY_FILENAME_LEN {
        (MAX_DELIVERY_FILENAME_LEN - extension.len() - 1 - suffix.len()) as nat
    } else {
        0
    }
}

/// The name of a delivered file.
pub open spec fn file_name(
    user: Seq<char>,
    date: Seq<char>,
    title: Seq<char>,
    sequence: Option<usize>,
    extension: Seq<char>,
) -> Seq<char> {
    let suffix = number_suffix(sequence);
    basename(user, date, title, base_budget(extension, suffix)) + suffix + "."@ + extension
}

/// Names a delivered file.
pub fn delivery_filename(
    user: &str,
    date: &str,
    title: &str,
    sequence: Option<usize>,
    extension: &str,
) -> (r: String)
    ensures
        r@ == file_name(user@, date@, title@, sequence, extension@),
{
    let mut suffix = String::new();
    if let Some(n) = sequence {
        suffix.push('_');
        let digits = two_digit_text(n as u64);
        suffix.append(digits.as_str());
    }
    assert(suffix@ == number_suffix(sequence));
    let suffix_cs = chars_of(suffix.as_str());
    let extension_cs = chars_of(extension);
    let max: usize = if fits(extension_cs.len(), suffix_cs.len(), MAX_DELIVERY_FILENAME_LEN) {
        MAX_DELIVERY_FILENAME_LEN - extension_cs.len() - 1 - suffix_cs.len()
    } else {
        0
    };
    let mut out = delivery_basename(user, date, title, max);
    out.append(suffix.as_str());
    out.append(".");
    out.append(extension);
    out
}

/// Names a delivered file.
pub fn build_delivery_filename(
    metadata: &DeliveryFilenameMetadata,
    sequence: Option<usize>,
    extension: &str,
) -> (r: String)
    ensures
        r@ == file_name(
            metadata@.filename_username,
            metadata@.date,
            metadata@.title,
            sequence,
            extension@,
        ),
{
    delivery_filename(
        metadata.filename_username.as_str(),
        metadata.date.as_str(),
        metadata.title.as_str(),
        sequence,
        extension,
    )
}

// ---------------------------------------------------------------------------
// Laws
// ---------------------------------------------------------------------------

/// A name without number and extension is never longer than its bound.
pub proof fn basename_fits(user: Seq<char>, date: Seq<char>, title: Seq<char>, max: nat)
    ensures
        basename(user, date, title, max).len() <= max,
{
}

/// The name of a delivered file is never longer than 79 characters, unless the number and the
/// extension alone are.
pub proof fn file_name_fits(
    user: Seq<char>,
    date: Seq<char>,
    title: Seq<char>,
    sequence: Option<usize>,
    extension: Seq<char>,
)
    requires
        number_suffix(sequence).len() + 1 + extension.len() <= MAX_DELIVERY_FILENAME_LEN,
    ensures
        file_name(user, date, title, sequence, extension).len() <= MAX_DELIVERY_FILENAME_LEN,
{
    reveal_strlit(".");
    basename_fits(user, date, title, base_budget(extension, number_suffix(sequence)));
}

/// Whether a text holds nothing but what stays in file names, and underscores.
pub open spec fn safe(s: Seq<char>) -> bool {
    forall|i: int| 0 <= i < s.len() ==> (stays(#[trigger] s[i]) || s[i] == '_')
}

/// Whether every part is made of what stays in file names.
spec fn all_stay(parts: Seq<Seq<char>>) -> bool {
    forall|i: int, j: int|
        0 <= i < parts.len() && 0 <= j < parts[i].len() ==> stays(#[trigger] parts[i][j])
}

proof fn lemma_pieces_stay(s: Seq<char>, i: int)
    requires
        0 <= i <= s.len(),
        forall|k: int| 0 <= k < s.len() ==> stays(#[trigger] s[k]) || s[k] == ' ',
    ensures
        all_stay(crate::text::pieces_from(s, seq![' '], i)),
    decreases s.len() - i,
{
    let gap = seq![' '];
    crate::text::lemma_next_separator(s, gap, i);
    let end = crate::text::next_separator(s, gap, i);
    assert forall|k: int| i <= k < end implies stays(#[trigger] s[k]) by {
        if s[k] == ' ' {
            assert(gap[0] == s[k]);
        }
    }
    if end < s.len() {
        lemma_pieces_stay(s, end + 1);
        let first = s.subrange(i, end);
        let rest = crate::text::pieces_from(s, gap, end + 1);
        let all = seq![first] + rest;
        assert forall|a: int, b: int| 0 <= a < all.len() && 0 <= b < all[a].len() implies stays(
            #[trigger] all[a][b],
        ) by {
            if a == 0 {
                assert(all[a][b] == s[i + b]);
            } else {
                assert(all[a] == rest[a - 1]);
            }
        }
    } else {
        assert forall|b: int| 0 <= b < s.skip(i).len() implies stays(#[trigger] s.skip(i)[b]) by {
            assert(s.skip(i)[b] == s[i + b]);
        }
    }
}

proof fn lemma_nonempty_stay(parts: Seq<Seq<char>>)
    requires
        all_stay(parts),
    ensures
        all_stay(nonempty(parts)),
    decreases parts.len(),
{
    if parts.len() > 0 {
        let shorter = parts.drop_last();
        assert forall|i: int, j: int| 0 <= i < shorter.len() && 0 <= j < shorter[i].len() implies
            stays(#[trigger] shorter[i][j]) by {
            assert(shorter[i] == parts[i]);
        }
        lemma_nonempty_stay(shorter);
        let before = nonempty(shorter);
        let after = nonempty(parts);
        assert forall|i: int, j: int| 0 <= i < after.len() && 0 <= j < after[i].len() implies stays(
            #[trigger] after[i][j],
        ) by {
            if i < before.len() {
                assert(after[i] == before[i]);
            } else {
                assert(after[i] == parts[parts.len() - 1]);
            }
        }
    }
}

proof fn lemma_join_safe(parts: Seq<Seq<char>>)
    requires
        all_stay(parts),
    ensures
        safe(join(parts, "_"@)),
    decreases parts.len(),
{
    reveal_strlit("_");
    if parts.len() == 1 {
        assert forall|j: int| 0 <= j < parts[0].len() implies stays(#[trigger] parts[0][j]) by {}
    } else if parts.len() > 1 {
        let shorter = parts.drop_last();
        assert forall|i: int, j: int| 0 <= i < shorter.len() && 0 <= j < shorter[i].len() implies
            stays(#[trigger] shorter[i][j]) by {
            assert(shorter[i] == parts[i]);
        }
        lemma_join_safe(shorter);
        let last = parts[parts.len() - 1];
        assert forall|j: int| 0 <= j < last.len() implies stays(#[trigger] last[j]) by {
            assert(parts[parts.len() - 1][j] == last[j]);
        }
        let before = join(shorter, "_"@);
        let all = before + "_"@ + last;
        assert(join(parts, "_"@) == all);
        assert forall|i: int| 0 <= i < all.len() implies (stays(#[trigger] all[i]) || all[i]
            == '_') by {
            if i < before.len() {
                assert(all[i] == before[i]);
            } else if i > before.len() {
                assert(all[i] == last[i - before.len() - 1]);
            }
        }
    }
}

/// A part of a file name is made of letters, digits and underscores, whatever text it comes from.
pub proof fn sanitized_is_safe(s: Seq<char>, fallback: Seq<char>)
    requires
        safe(fallback),
    ensures
        safe(sanitized(s, fallback)),
{
    let marked = s.map_values(|c: char| kept(c));
    lemma_pieces_stay(marked, 0);
    lemma_nonempty_stay(pieces(marked, seq![' ']));
    lemma_join_safe(words(s));
}

/// A last piece without a gap in it is split off behind the gap.
proof fn lemma_pieces_append(s: Seq<char>, t: Seq<char>, i: int)
    requires
        0 <= i <= s.len(),
        forall|k: int| 0 <= k < t.len() ==> #[trigger] t[k] != ' ',
    ensures
        crate::text::pieces_from(s + seq![' '] + t, seq![' '], i) == crate::text::pieces_from(
            s,
            seq![' '],
            i,
        ).push(t),
    decreases s.len() - i,
{
    let gap = seq![' '];
    let all = s + gap + t;
    crate::text::lemma_next_separator(s, gap, i);
    crate::text::lemma_next_separator(all, gap, i);
    let end = crate::text::next_separator(s, gap, i);
    let stop = crate::text::next_separator(all, gap, i);
    assert(gap[0] == ' ');
    assert(gap.contains(' '));
    assert forall|k: int| 0 <= k < s.len() implies #[trigger] all[k] == s[k] by {}
    assert(all[s.len() as int] == ' ');
    if end < s.len() {
        assert(gap.contains(all[end]));
        assert(stop <= end);
        assert(gap.contains(s[stop]));
        assert(stop == end);
        lemma_pieces_append(s, t, end + 1);
        assert(all.subrange(i, end) == s.subrange(i, end));
        let rest = crate::text::pieces_from(s, gap, end + 1);
        assert(seq![s.subrange(i, end)] + rest.push(t) == (seq![s.subrange(i, end)] + rest).push(
            t,
        ));
    } else {
        assert(gap.contains(all[s.len() as int]));
        assert(stop <= s.len());
        if stop < s.len() {
            assert(gap.contains(s[stop]));
        }
        let from = (s.len() + 1) as int;
        crate::text::lemma_next_separator(all, gap, from);
        let last = crate::text::next_separator(all, gap, from);
        if last < all.len() {
            assert(all[last] == t[last - from]);
        }
        assert(all.skip(from) == t);
        assert(crate::text::pieces_from(all, gap, from) == seq![t]);
        assert(stop == s.len());
        assert(all.subrange(i, s.len() as int) == s.skip(i));
        assert(crate::text::pieces_from(s, gap, i) == seq![s.skip(i)]);
        assert(crate::text::pieces_from(all, gap, i) == seq![s.skip(i)] + seq![t]);
        assert(seq![s.skip(i)] + seq![t] == seq![s.skip(i)].push(t));
    }
}

/// Words that were put together with gaps between them are taken apart into the same words.
proof fn lemma_pieces_of_joined(parts: Seq<Seq<char>>)
    requires
        parts.len() > 0,
        all_stay(parts),
    ensures
        pieces(join(parts, seq![' ']), seq![' ']) == parts,
    decreases parts.len(),
{
    let gap = seq![' '];
    let last = parts.last();
    assert forall|k: int| 0 <= k < last.len() implies #[trigger] last[k] != ' ' by {
        assert(stays(parts[parts.len() - 1][k]));
    }
    if parts.len() == 1 {
        let all = join(parts, gap);
        assert(all == last);
        crate::text::lemma_next_separator(all, gap, 0);
        assert(crate::text::next_separator(all, gap, 0) == all.len());
        assert(all.skip(0) == all);
        assert(parts == seq![last]);
    } else {
        let shorter = parts.drop_last();
        assert forall|a: int, b: int|
            0 <= a < shorter.len() && 0 <= b < shorter[a].len() implies stays(
            #[trigger] shorter[a][b],
        ) by {
            assert(shorter[a] == parts[a]);
        }
        lemma_pieces_of_joined(shorter);
        lemma_pieces_append(join(shorter, gap), last, 0);
        assert(join(parts, gap) == join(shorter, gap) + gap + last);
        assert(shorter.push(last) == parts);
    }
}

/// Underscores between words become gaps, and the words stay.
proof fn lemma_joined_kept(parts: Seq<Seq<char>>)
    requires
        all_stay(parts),
    ensures
        join(parts, "_"@).map_values(|c: char| kept(c)) == join(parts, seq![' ']),
    decreases parts.len(),
{
    reveal_strlit("_");
    let marks = |c: char| kept(c);
    if parts.len() > 0 {
        let shorter = parts.drop_last();
        let last = parts.last();
        assert forall|a: int, b: int|
            0 <= a < shorter.len() && 0 <= b < shorter[a].len() implies stays(
            #[trigger] shorter[a][b],
        ) by {
            assert(shorter[a] == parts[a]);
        }
        lemma_joined_kept(shorter);
        assert(last.map_values(marks) == last) by {
            assert forall|k: int| 0 <= k < last.len() implies kept(#[trigger] last[k])
                == last[k] by {
                assert(stays(parts[parts.len() - 1][k]));
            }
        }
        if parts.len() > 1 {
            let front = join(shorter, "_"@);
            assert("_"@ == seq!['_']);
            assert((front + "_"@ + last).map_values(marks) == front.map_values(marks) + seq![' ']
                + last.map_values(marks));
        }
    }
}

proof fn lemma_nonempty_parts(parts: Seq<Seq<char>>)
    ensures
        forall|k: int| 0 <= k < nonempty(parts).len() ==> (#[trigger] nonempty(parts)[k]).len() > 0,
        (forall|k: int| 0 <= k < parts.len() ==> (#[trigger] parts[k]).len() > 0) ==> nonempty(parts)
            == parts,
    decreases parts.len(),
{
    if parts.len() > 0 {
        let shorter = parts.drop_last();
        lemma_nonempty_parts(shorter);
        if forall|k: int| 0 <= k < parts.len() ==> (#[trigger] parts[k]).len() > 0 {
            assert forall|k: int| 0 <= k < shorter.len() implies (#[trigger] shorter[k]).len()
                > 0 by {
                assert(shorter[k] == parts[k]);
            }
            assert(parts[parts.len() - 1].len() > 0);
            assert(shorter.push(parts.last()) == parts);
        }
    }
}

/// Words that were put together with underscores are the words of what that gives.
proof fn lemma_words_of_joined(parts: Seq<Seq<char>>)
    requires
        parts.len() > 0,
        all_stay(parts),
        forall|k: int| 0 <= k < parts.len() ==> (#[trigger] parts[k]).len() > 0,
    ensures
        words(join(parts, "_"@)) == parts,
{
    lemma_joined_kept(parts);
    lemma_pieces_of_joined(parts);
    lemma_nonempty_parts(parts);
}

/// Making a part of a file name out of one changes nothing, with a fallback that is one word.
pub proof fn sanitized_stays(s: Seq<char>, fallback: Seq<char>)
    requires
        fallback.len() > 0,
        forall|i: int| 0 <= i < fallback.len() ==> stays(#[trigger] fallback[i]),
    ensures
        sanitized(sanitized(s, fallback), fallback) == sanitized(s, fallback),
{
    let marked = s.map_values(|c: char| kept(c));
    lemma_pieces_stay(marked, 0);
    lemma_nonempty_stay(pieces(marked, seq![' ']));
    lemma_nonempty_parts(pieces(marked, seq![' ']));
    if join(words(s), "_"@).len() == 0 {
        let one = seq![fallback];
        lemma_words_of_joined(one);
        reveal_with_fuel(join, 2);
        assert(join(one, "_"@) == fallback);
    } else {
        lemma_words_of_joined(words(s));
    }
}

/// The whole name of a delivered file before its extension is made of letters, digits and
/// underscores, whatever the texts are.
pub proof fn basename_is_safe(user: Seq<char>, date: Seq<char>, title: Seq<char>, max: nat)
    ensures
        safe(basename(user, date, title, max)),
{
    reveal_strlit("unknown");
    reveal_strlit("untitled");
    assert(safe("unknown"@));
    assert(safe("untitled"@));
    sanitized_is_safe(user, "unknown"@);
    sanitized_is_safe(date, "unknown"@);
    sanitized_is_safe(title, "untitled"@);
    let u = sanitized(user, "unknown"@);
    let d = sanitized(date, "unknown"@);
    let start = prefix(u, d, max);
    lemma_prefix_safe(u, d, max);
    let what = sanitized(title, "untitled"@);
    if start.len() < max && what.len() > 0 {
        let cut = truncated(what, (max - start.len() - 1) as nat);
        assert forall|i: int| 0 <= i < cut.len() implies (stays(#[trigger] cut[i]) || cut[i]
            == '_') by {
            assert(cut[i] == what[i]);
        }
        let all = start + seq!['_'] + cut;
        assert forall|i: int| 0 <= i < all.len() implies (stays(#[trigger] all[i]) || all[i]
            == '_') by {
            if i < start.len() {
                assert(all[i] == start[i]);
            } else if i > start.len() {
                assert(all[i] == cut[i - start.len() - 1]);
            }
        }
    }
}

proof fn lemma_prefix_safe(user: Seq<char>, date: Seq<char>, max: nat)
    requires
        safe(user),
        safe(date),
    ensures
        safe(prefix(user, date, max)),
{
    let cut = if user.len() + 1 + date.len() <= max {
        user
    } else {
        truncated(user, (max - date.len() - 1) as nat)
    };
    let all = cut + seq!['_'] + date;
    assert forall|i: int| 0 <= i < all.len() && (user.len() + 1 + date.len() <= max || date.len()
        + 1 < max) implies (stays(#[trigger] all[i]) || all[i] == '_') by {
        if i < cut.len() {
            assert(all[i] == user[i]);
        } else if i > cut.len() {
            assert(all[i] == date[i - cut.len() - 1]);
        }
    }
    let short = truncated(date, max);
    assert forall|i: int| 0 <= i < short.len() implies (stays(#[trigger] short[i]) || short[i]
        == '_') by {
        assert(short[i] == date[i]);
    }
}

} // verus!
