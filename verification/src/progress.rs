//! The lines in which the downloader and the encoder tell how far they are.
use vstd::prelude::*;
use vstd::slice::slice_subrange;

use crate::json::some_string;
use crate::numbers::{number_read, parse_u64};
use crate::text::{
    ascii_digit, chars_of, find, has_prefix, is_digit, lemma_find_from,
    matches_at, pieces, position_of, split, strip_prefix, text_of, trim, trim_chars, views,
};

verus! {

// ---------------------------------------------------------------------------
// The downloader
// ---------------------------------------------------------------------------

/// Whether a character may stand in a percentage.
pub open spec fn numeral_char(c: char) -> bool {
    ascii_digit(c) || c == '.'
}

/// The digits and dots with which a text ends.
pub open spec fn numeral_tail(s: Seq<char>) -> Seq<char>
    decreases s.len(),
{
    if s.len() > 0 && numeral_char(s.last()) {
        numeral_tail(s.drop_last()).push(s.last())
    } else {
        Seq::empty()
    }
}

/// How many dots a text holds.
pub open spec fn dots(s: Seq<char>) -> nat
    decreases s.len(),
{
    if s.len() == 0 {
        0
    } else if s.last() == '.' {
        dots(s.drop_last()) + 1
    } else {
        dots(s.drop_last())
    }
}

/// Whether digits and dots make up a number: at most one dot and at least one digit.
pub open spec fn is_numeral(s: Seq<char>) -> bool {
    dots(s) <= 1 && s.len() > dots(s)
}

/// The number before the first percent sign of a text.
pub open spec fn percent_number(text: Seq<char>) -> Option<Seq<char>> {
    match find(text, "%"@) {
        Some(i) => {
            let raw = numeral_tail(text.take(i));
            if is_numeral(raw) {
                Some(raw)
            } else {
                None
            }
        },
        None => None,
    }
}

/// The text of a line behind the word with which progress lines may begin.
pub open spec fn progress_part(line: Seq<char>) -> Seq<char> {
    let t = trim(line);
    if has_prefix(t, "download:"@) {
        trim(t.skip("download:"@.len() as int))
    } else {
        trim(t)
    }
}

/// How many digits and dots a text ends with.
fn tail_start(s: &[char]) -> (r: usize)
    ensures
        r <= s.len(),
        s@.skip(r as int) == numeral_tail(s@),
{
    let mut i: usize = s.len();
    assert(s@.take(s@.len() as int) == s@);
    assert(numeral_tail(s@) == numeral_tail(s@.take(i as int)) + s@.skip(i as int));
    while i > 0 && (is_digit(s[i - 1]) || s[i - 1] == '.')
        invariant
            i <= s.len(),
            numeral_tail(s@) == numeral_tail(s@.take(i as int)) + s@.skip(i as int),
        decreases i,
    {
        let ghost c = s@[i - 1];
        proof {
            assert(s@.take(i as int).drop_last() == s@.take(i - 1));
            assert(s@.take(i as int).last() == c);
            assert(s@.skip(i - 1) == seq![c] + s@.skip(i as int));
            assert(numeral_tail(s@.take(i - 1)).push(c) + s@.skip(i as int) == numeral_tail(
                s@.take(i - 1),
            ) + s@.skip(i - 1));
        }
        i -= 1;
    }
    proof {
        if i > 0 {
            assert(s@.take(i as int).last() == s@[i - 1]);
        }
        assert(numeral_tail(s@.take(i as int)) == Seq::<char>::empty());
        assert(Seq::<char>::empty() + s@.skip(i as int) == s@.skip(i as int));
    }
    i
}

/// How many dots a text holds.
fn count_dots(s: &[char]) -> (r: usize)
    ensures
        r == dots(s@),
        r <= s.len(),
{
    let mut n: usize = 0;
    let mut i: usize = 0;
    while i < s.len()
        invariant
            i <= s.len(),
            n == dots(s@.take(i as int)),
            n <= i,
        decreases s.len() - i,
    {
        assert(s@.take(i + 1).drop_last() == s@.take(i as int));
        assert(s@.take(i + 1).last() == s@[i as int]);
        if s[i] == '.' {
            n += 1;
        }
        i += 1;
    }
    assert(s@.take(i as int) == s@);
    n
}

/// The number before the first percent sign of a text.
pub fn parse_percent_from_text(text: &[char]) -> (r: Option<String>)
    ensures
        some_string(r) == percent_number(text@),
{
    match position_of(text, "%") {
        Some(i) => {
            proof {
                lemma_find_from(text@, "%"@, 0);
                assert(matches_at(text@, "%"@, i as int));
            }
            let before = slice_subrange(text, 0, i);
            assert(before@ == text@.take(i as int));
            let start: usize = tail_start(before);
            let raw = slice_subrange(before, start, before.len());
            assert(raw@ == before@.skip(start as int));
            let n: usize = count_dots(raw);
            if n <= 1 && raw.len() > n {
                Some(text_of(raw))
            } else {
                None
            }
        },
        None => None,
    }
}

/// The number that a line of the downloader gives as its percentage.
pub open spec fn line_percent(line: Seq<char>) -> Option<Seq<char>> {
    percent_number(progress_part(line))
}

/// The number that a line of the downloader gives as its percentage.
pub fn parse_yt_dlp_progress_percent(line: &str) -> (r: Option<String>)
    ensures
        some_string(r) == line_percent(line@),
{
    let cs = chars_of(line);
    let t = trim_chars(cs.as_slice());
    match strip_prefix(t, "download:") {
        Some(rest) => parse_percent_from_text(trim_chars(rest)),
        None => parse_percent_from_text(trim_chars(t)),
    }
}

/// Whether a line of the downloader tells its progress.
pub fn is_yt_dlp_progress_line(line: &str) -> (r: bool)
    ensures
        r == line_percent(line@) is Some,
{
    match parse_yt_dlp_progress_percent(line) {
        Some(_) => true,
        None => false,
    }
}

/// Adds a line to what a tool has said.
pub fn keep_line(text: &mut String, line: &str)
    ensures
        final(text)@ == old(text)@ + line@ + "\n"@,
{
    text.append(line);
    text.append("\n");
}

/// What is kept of the downloader's error output after a line: progress is not kept.
pub open spec fn kept_errors(text: Seq<char>, line: Seq<char>) -> Seq<char> {
    if line_percent(line) is Some {
        text
    } else {
        text + line + "\n"@
    }
}

/// Adds a line of the downloader's error output to what is kept of it: progress is not kept.
pub fn keep_error_line(text: &mut String, line: &str)
    ensures
        final(text)@ == kept_errors(old(text)@, line@),
{
    if !is_yt_dlp_progress_line(line) {
        keep_line(text, line);
    }
}

// ---------------------------------------------------------------------------
// The encoder
// ---------------------------------------------------------------------------

/// The microseconds that a line of the encoder tells it has written.
pub open spec fn out_time(line: Seq<char>) -> Option<nat> {
    if has_prefix(line, "out_time_ms="@) {
        number_read(trim(line.skip("out_time_ms="@.len() as int)), u64::MAX as nat)
    } else {
        None
    }
}

/// The microseconds that a line of the encoder tells it has written.
pub fn ffmpeg_out_time_us(line: &str) -> (r: Option<u64>)
    ensures
        match r {
            Some(n) => out_time(line@) == Some(n as nat),
            None => out_time(line@) is None,
        },
{
    let cs = chars_of(line);
    match strip_prefix(cs.as_slice(), "out_time_ms=") {
        Some(rest) => parse_u64(trim_chars(rest)),
        None => None,
    }
}

/// The time stamp of the duration that a line of the encoder tells.
pub open spec fn duration_stamp(line: Seq<char>) -> Option<Seq<char>> {
    match find(line, "Duration:"@) {
        Some(i) => {
            let rest = trim(line.skip((i + "Duration:"@.len()) as int));
            match find(rest, ","@) {
                Some(j) => Some(trim(rest.take(j))),
                None => None,
            }
        },
        None => None,
    }
}

/// The hours, minutes and seconds of a time stamp.
pub open spec fn stamp_parts(stamp: Seq<char>) -> Option<(Seq<char>, Seq<char>, Seq<char>)> {
    let parts = pieces(stamp, seq![':']);
    if parts.len() == 3 {
        Some((parts[0], parts[1], parts[2]))
    } else {
        None
    }
}

/// The hours, minutes and seconds of a duration.
#[derive(Debug, PartialEq, Eq)]
pub struct DurationTexts {
    pub hours: String,
    pub minutes: String,
    pub seconds: String,
}

/// What the hours, minutes and seconds are.
pub open spec fn duration_view(d: Option<DurationTexts>) -> Option<
    (Seq<char>, Seq<char>, Seq<char>),
> {
    match d {
        Some(t) => Some((t.hours@, t.minutes@, t.seconds@)),
        None => None,
    }
}

/// The hours, minutes and seconds of a time stamp.
pub fn parse_ffmpeg_timestamp(stamp: &[char]) -> (r: Option<DurationTexts>)
    ensures
        duration_view(r) == stamp_parts(stamp@),
{
    let colon: [char; 1] = [':'];
    assert(colon@ == seq![':']);
    let parts = split(stamp, &colon);
    assert(views(parts@).len() == parts@.len());
    if parts.len() != 3 {
        return None;
    }
    assert(views(parts@)[0] == parts@[0]@);
    assert(views(parts@)[1] == parts@[1]@);
    assert(views(parts@)[2] == parts@[2]@);
    Some(
        DurationTexts {
            hours: text_of(parts[0].as_slice()),
            minutes: text_of(parts[1].as_slice()),
            seconds: text_of(parts[2].as_slice()),
        },
    )
}

/// The hours, minutes and seconds of the duration that a line of the encoder tells.
pub open spec fn line_duration(line: Seq<char>) -> Option<(Seq<char>, Seq<char>, Seq<char>)> {
    match duration_stamp(line) {
        Some(stamp) => stamp_parts(stamp),
        None => None,
    }
}

/// The hours, minutes and seconds of the duration that a line of the encoder tells.
pub fn parse_ffmpeg_duration(line: &str) -> (r: Option<DurationTexts>)
    ensures
        duration_view(r) == line_duration(line@),
{
    let cs = chars_of(line);
    let len: usize = cs.len();
    let mark = chars_of("Duration:");
    match position_of(cs.as_slice(), "Duration:") {
        Some(i) => {
            proof {
                lemma_find_from(cs@, mark@, 0);
                assert(matches_at(cs@, mark@, i as int));
            }
            let behind = slice_subrange(cs.as_slice(), i + mark.len(), len);
            assert(behind@ == line@.skip(i + mark@.len()));
            let rest = trim_chars(behind);
            match position_of(rest, ",") {
                Some(j) => {
                    proof {
                        lemma_find_from(rest@, ","@, 0);
                        assert(matches_at(rest@, ","@, j as int));
                    }
                    let stamp = slice_subrange(rest, 0, j);
                    assert(stamp@ == rest@.take(j as int));
                    parse_ffmpeg_timestamp(trim_chars(stamp))
                },
                None => None,
            }
        },
        None => None,
    }
}

} // verus!
