//! What the tools report and what the status message shows of it.
use vstd::prelude::*;

use crate::laws::documents::without_its_first_character;
use crate::laws::texts::{
    all_white, ends_of_a_text, first_piece_is_split_off, found_at_the_first_place, free_of,
    not_before_its_first_character, one_piece, tight, tight_texts_stay,
    trimming_takes_the_ends_off, white_space_around_is_dropped,
};
use crate::numbers::{decimal, decimal_reads_back, lemma_decimal_digits};
use crate::progress::{
    dots, duration_stamp, is_numeral, kept_errors, line_duration, line_percent, numeral_char,
    numeral_tail, out_time, percent_number, progress_part,
};
use crate::status::{
    bar, bucket_of, failure, flushed, phase_label, phase_progress, updated, ProgressThrottle,
    StatusPhase,
};
use crate::text::{all_digits, ascii_digit, find, has_prefix, has_suffix, pieces, trim, white};

verus! {

// ---------------------------------------------------------------------------
// The downloader
// ---------------------------------------------------------------------------

proof fn lemma_numeral_tail(before: Seq<char>, num: Seq<char>)
    requires
        before.len() == 0 || !numeral_char(before.last()),
        forall|i: int| 0 <= i < num.len() ==> numeral_char(#[trigger] num[i]),
    ensures
        numeral_tail(before + num) == num,
    decreases num.len(),
{
    let all = before + num;
    if num.len() == 0 {
        assert(all == before);
        assert(num == Seq::<char>::empty());
    } else {
        let shorter = num.drop_last();
        assert forall|i: int| 0 <= i < shorter.len() implies numeral_char(#[trigger] shorter[i]) by {
            assert(shorter[i] == num[i]);
        }
        lemma_numeral_tail(before, shorter);
        assert(numeral_char(num[num.len() - 1]));
        assert(all.drop_last() == before + shorter);
        assert(all.last() == num.last());
        assert(shorter.push(num.last()) == num);
    }
}

proof fn lemma_dots(s: Seq<char>)
    requires
        free_of(s, '.'),
    ensures
        dots(s) == 0,
    decreases s.len(),
{
    if s.len() > 0 {
        assert(s[s.len() - 1] != '.');
        assert forall|i: int| 0 <= i < s.drop_last().len() implies #[trigger] s.drop_last()[i]
            != '.' by {
            assert(s.drop_last()[i] == s[i]);
        }
        lemma_dots(s.drop_last());
    }
}

proof fn lemma_dots_append(a: Seq<char>, b: Seq<char>)
    ensures
        dots(a + b) == dots(a) + dots(b),
    decreases b.len(),
{
    if b.len() == 0 {
        assert(a + b == a);
    } else {
        lemma_dots_append(a, b.drop_last());
        assert((a + b).drop_last() == a + b.drop_last());
        assert((a + b).last() == b.last());
    }
}

/// Digits are a number, and so are digits with one dot among them or at either end; a dot alone or
/// two dots are none.
pub proof fn numbers_have_one_dot(a: Seq<char>, b: Seq<char>, c: Seq<char>)
    requires
        all_digits(a),
        all_digits(b),
        all_digits(c),
    ensures
        is_numeral(a) <==> a.len() > 0,
        is_numeral(a + seq!['.'] + b) <==> a.len() + b.len() > 0,
        !is_numeral(a + seq!['.'] + b + seq!['.'] + c),
{
    lemma_digits_free(a);
    lemma_digits_free(b);
    lemma_digits_free(c);
    lemma_dots(a);
    lemma_dots(b);
    lemma_dots(c);
    let dot = seq!['.'];
    reveal_with_fuel(dots, 2);
    assert(dot.drop_last() == Seq::<char>::empty());
    assert(dots(dot) == 1);
    lemma_dots_append(a, dot);
    lemma_dots_append(a + dot, b);
    lemma_dots_append(a + dot + b, dot);
    lemma_dots_append(a + dot + b + dot, c);
}

proof fn lemma_digits_free(s: Seq<char>)
    requires
        all_digits(s),
    ensures
        free_of(s, '.'),
        free_of(s, '%'),
        free_of(s, ','),
        free_of(s, ':'),
{
    assert forall|i: int| 0 <= i < s.len() implies #[trigger] s[i] != '.' && s[i] != '%' && s[i]
        != ',' && s[i] != ':' by {
        assert(ascii_digit(s[i]));
    }
}

/// The percentage of a line is the number right before its first percent sign; a line without a
/// percent sign gives none.
pub proof fn percentages_stand_before_the_sign(
    before: Seq<char>,
    num: Seq<char>,
    after: Seq<char>,
    other: Seq<char>,
)
    requires
        free_of(before, '%'),
        before.len() == 0 || !numeral_char(before.last()),
        forall|i: int| 0 <= i < num.len() ==> numeral_char(#[trigger] num[i]),
        free_of(other, '%'),
    ensures
        is_numeral(num) ==> percent_number(before + num + seq!['%'] + after) == Some(num),
        !is_numeral(num) ==> percent_number(before + num + seq!['%'] + after) is None,
        percent_number(other) is None,
{
    reveal_strlit("%");
    assert("%"@ == seq!['%']);
    let front = before + num;
    let all = front + seq!['%'] + after;
    assert(all == front + "%"@ + after);
    assert forall|j: int| 0 <= j < front.len() implies #[trigger] all[j] != '%' by {
        if j < before.len() {
            assert(all[j] == before[j]);
        } else {
            assert(all[j] == num[j - before.len()]);
            assert(numeral_char(num[j - before.len()]));
        }
    }
    not_before_its_first_character(all, "%"@, front.len() as int);
    found_at_the_first_place(front, "%"@, after);
    assert(all.take(front.len() as int) == front);
    lemma_numeral_tail(before, num);
    without_its_first_character(other, "%"@);
}

/// The word with which a line of progress may begin does not matter, nor white space around.
pub proof fn progress_lines_may_be_announced(before: Seq<char>, text: Seq<char>, after: Seq<char>)
    requires
        all_white(before),
        all_white(after),
        tight(text),
        text.len() > 0,
    ensures
        line_percent("download:"@ + text) == percent_number(text),
        !(has_prefix(text, "download:"@)) ==> line_percent(before + text + after)
            == percent_number(text),
{
    reveal_strlit("download:");
    let all = "download:"@ + text;
    assert(tight(all)) by {
        assert(all.last() == text.last());
    }
    tight_texts_stay(all);
    ends_of_a_text(text, "download:"@);
    assert(all.skip("download:"@.len() as int) == text);
    tight_texts_stay(text);
    white_space_around_is_dropped(before, text, after);
}

// ---------------------------------------------------------------------------
// The encoder
// ---------------------------------------------------------------------------

/// The time that the encoder reports is read as the number it is written as; other lines report
/// none.
pub proof fn reported_times_are_read(n: nat, line: Seq<char>)
    ensures
        n <= u64::MAX ==> out_time("out_time_ms="@ + decimal(n)) == Some(n),
        !(has_prefix(line, "out_time_ms="@)) ==> out_time(line) is None,
{
    let all = "out_time_ms="@ + decimal(n);
    ends_of_a_text(decimal(n), "out_time_ms="@);
    assert(all.skip("out_time_ms="@.len() as int) == decimal(n));
    lemma_decimal_digits(n);
    assert(ascii_digit(decimal(n)[0]));
    assert(ascii_digit(decimal(n)[decimal(n).len() - 1]));
    tight_texts_stay(decimal(n));
    decimal_reads_back(n);
}

/// Whether a text may be a part of a time stamp.
pub open spec fn stamp_part(s: Seq<char>) -> bool {
    &&& s.len() > 0
    &&& free_of(s, ':')
    &&& free_of(s, ',')
    &&& forall|i: int| 0 <= i < s.len() ==> !white(#[trigger] s[i])
}

/// The duration of a video is what the encoder writes behind the word and before the next comma: its
/// hours, its minutes and its seconds.
pub proof fn durations_are_read(
    before: Seq<char>,
    h: Seq<char>,
    m: Seq<char>,
    s: Seq<char>,
    after: Seq<char>,
)
    requires
        free_of(before, 'D'),
        stamp_part(h),
        stamp_part(m),
        stamp_part(s),
        after.len() == 0 || !white(after.last()),
    ensures
        line_duration(
            before + "Duration:"@ + (seq![' '] + (h + seq![':'] + m + seq![':'] + s + seq![','] + after)),
        ) == Some((h, m, s)),
{
    reveal_strlit("Duration:");
    reveal_strlit(",");
    let word = "Duration:"@;
    let stamp = h + seq![':'] + m + seq![':'] + s;
    let rest = h + seq![':'] + m + seq![':'] + s + seq![','] + after;
    assert(rest == stamp + seq![','] + after);
    let tail = seq![' '] + rest;
    let line = before + word + tail;
    assert forall|j: int| 0 <= j < before.len() implies #[trigger] line[j] != 'D' by {
        assert(line[j] == before[j]);
    }
    not_before_its_first_character(line, word, before.len() as int);
    found_at_the_first_place(before, word, tail);
    assert(line.skip((before.len() + word.len()) as int) == tail);
    let none = Seq::<char>::empty();
    assert(tight(rest)) by {
        assert(rest[0] == h[0]);
        if after.len() > 0 {
            assert(rest.last() == after.last());
        } else {
            assert(rest.last() == ',');
        }
    }
    white_space_around_is_dropped(seq![' '], rest, none);
    assert(seq![' '] + rest + none == tail);
    assert(","@ == seq![',']);
    assert(rest == stamp + ","@ + after);
    assert forall|j: int| 0 <= j < stamp.len() implies #[trigger] rest[j] != ',' by {
        if j < h.len() {
            assert(rest[j] == h[j]);
        } else if j == h.len() || j == h.len() + 1 + m.len() {
            assert(rest[j] == ':');
        } else if j < h.len() + 1 + m.len() {
            assert(rest[j] == m[j - h.len() - 1]);
        } else {
            assert(rest[j] == s[j - h.len() - m.len() - 2]);
        }
    }
    not_before_its_first_character(rest, ","@, stamp.len() as int);
    found_at_the_first_place(stamp, ","@, after);
    assert(rest.take(stamp.len() as int) == stamp);
    assert(tight(stamp)) by {
        assert(stamp[0] == h[0]);
        assert(stamp.last() == s[s.len() - 1]);
    }
    tight_texts_stay(stamp);
    let second = m + seq![':'] + s;
    assert(stamp == h + seq![':'] + second);
    first_piece_is_split_off(h, ':', second);
    first_piece_is_split_off(m, ':', s);
    one_piece(s, ':');
    let parts = pieces(stamp, seq![':']);
    assert(parts == seq![h] + (seq![m] + seq![s]));
    assert(parts[0] == h && parts[1] == m && parts[2] == s);
}

// ---------------------------------------------------------------------------
// The status message
// ---------------------------------------------------------------------------

/// A step of the bar stands for five percent, and all of them for the whole.
pub proof fn steps_are_five_percent(percent: u8)
    ensures
        percent < 100 ==> 5 * bucket_of(percent) <= percent < 5 * bucket_of(percent) + 5,
        percent >= 100 ==> bucket_of(percent) == 20,
        bucket_of(percent) <= 20,
{
}

/// The bar has twenty steps between brackets, as many of them filled as are done, and the percentage
/// behind it, widened to three characters; it is always as long.
pub proof fn bars_show_what_is_done(bucket: u8, percent: u8, i: int)
    requires
        bucket <= 20,
        percent <= 100,
        0 <= i < 20,
    ensures
        bar(bucket, percent).len() == 27,
        bar(bucket, percent)[0] == '[',
        bar(bucket, percent)[1 + i] == if i < bucket {
            '#'
        } else {
            '-'
        },
        bar(bucket, percent)[21] == ']',
        has_suffix(bar(bucket, percent), decimal(percent as nat) + seq!['%']),
{
    reveal_strlit("] ");
    reveal_strlit("%");
    reveal_with_fuel(decimal, 4);
    let digits = decimal(percent as nat);
    assert(1 <= digits.len() <= 3);
    let all = bar(bucket, percent);
    let front = all.take(all.len() - digits.len() - 1);
    assert(all == front + (digits + seq!['%']));
    ends_of_a_text(front, digits + seq!['%']);
}

/// Every bucket and every percentage beyond the whole is shown as the whole.
pub proof fn bars_end_with_the_whole(bucket: u8, percent: u8)
    ensures
        bucket > 20 ==> bar(bucket, percent) == bar(20, percent),
        percent > 100 ==> bar(bucket, percent) == bar(bucket, 100),
{
}

/// The status message shows the phase and, on a line of its own, the bar.
pub proof fn progress_is_shown_below_the_phase(phase: StatusPhase, bucket: u8, percent: u8)
    ensures
        phase_progress(phase, bucket, percent) == phase_label(phase) + "\n<code>"@ + bar(
            bucket,
            percent,
        ) + "</code>"@,
{
}

/// A phase is one of failure exactly if it says so.
pub proof fn failures_say_so(phase: StatusPhase)
    ensures
        failure(phase) <==> has_suffix(phase_label(phase), " failed."@),
{
    reveal_strlit(" failed.");
    reveal_strlit("Fetching link...");
    reveal_strlit("Fetch failed.");
    reveal_strlit("Downloading media...");
    reveal_strlit("Download failed.");
    reveal_strlit("Converting media...");
    reveal_strlit("Conversion failed.");
    reveal_strlit("Compressing media... Pass 1/2");
    reveal_strlit("Compressing media... Pass 2/2");
    reveal_strlit("Compression failed.");
    reveal_strlit("Uploading media...");
    reveal_strlit("Upload failed.");
    reveal_strlit("Download complete.");
    let label = phase_label(phase);
    let n = label.len() as int;
    assert(n >= 8);
    if failure(phase) {
        assert(label.subrange(n - 8, n) == " failed."@);
    } else {
        assert(label.subrange(n - 8, n)[6] == label[n - 2]);
        assert(label[n - 2] != 'd');
    }
}

/// A new percentage is shown at once when the last change is five seconds old or older, and is the
/// last one shown from then on; one that comes sooner waits.
pub proof fn percentages_are_shown_in_time(t: ProgressThrottle, percent: u8, now: u64, last: u64)
    requires
        t.last_display_percent != Some(percent),
        t.last_update == Some(last),
        last <= now,
    ensures
        now - last >= 5_000_000_000 ==> updated(t, percent, now).1 == Some(percent) && updated(
            t,
            percent,
            now,
        ).0.last_update == Some(now) && updated(t, percent, now).0.last_display_percent == Some(
            percent,
        ),
        now - last < 5_000_000_000 ==> updated(t, percent, now).1 is None && updated(
            t,
            percent,
            now,
        ).0.pending_display_percent == Some(percent) && updated(t, percent, now).0.last_update
            == Some(last),
        updated(t, percent, now).0.phase == t.phase,
{
}

/// At the end of a phase what waits is shown, unless it is shown already, and nothing waits then.
pub proof fn what_waits_is_shown_at_the_end(t: ProgressThrottle, now: u64)
    ensures
        flushed(t, now).0.pending_display_percent is None,
        flushed(t, now).1 is Some <==> t.pending_display_percent is Some
            && t.pending_display_percent != t.last_display_percent,
        flushed(t, now).1 is Some ==> flushed(t, now).1 == t.pending_display_percent,
        flushed(t, now).0.phase == t.phase,
{
}

/// White space around a duration or a reported time does not count.
pub proof fn white_space_around_times_is_dropped(
    line: Seq<char>,
    before: Seq<char>,
    n: nat,
    after: Seq<char>,
)
    ensures
        duration_stamp(line) matches Some(stamp) ==> tight(stamp),
        all_white(before) && all_white(after) && n <= u64::MAX ==> out_time(
            "out_time_ms="@ + (before + decimal(n) + after),
        ) == Some(n),
{
    if duration_stamp(line) is Some {
        let i = find(line, "Duration:"@)->0;
        let rest = trim(line.skip((i + "Duration:"@.len()) as int));
        let j = find(rest, ","@)->0;
        trimming_takes_the_ends_off(rest.take(j));
    }
    if all_white(before) && all_white(after) && n <= u64::MAX {
        let told = before + decimal(n) + after;
        let all = "out_time_ms="@ + told;
        ends_of_a_text(told, "out_time_ms="@);
        assert(all.skip("out_time_ms="@.len() as int) == told);
        lemma_decimal_digits(n);
        assert(ascii_digit(decimal(n)[0]));
        assert(ascii_digit(decimal(n)[decimal(n).len() - 1]));
        white_space_around_is_dropped(before, decimal(n), after);
        decimal_reads_back(n);
    }
}

/// A line without a percent sign is kept with what was kept before; a line of progress changes
/// nothing.
pub proof fn errors_are_kept(text: Seq<char>, line: Seq<char>)
    ensures
        free_of(line, '%') ==> kept_errors(text, line) == text + line + "\n"@,
        line_percent(line) is Some ==> kept_errors(text, line) == text,
        line_percent(line) is None ==> kept_errors(text, line) == text + line + "\n"@,
{
    if free_of(line, '%') {
        lemma_no_percentage(line);
    }
}

proof fn lemma_trim_free(s: Seq<char>, c: char)
    requires
        free_of(s, c),
    ensures
        free_of(trim(s), c),
{
    let ends = trimming_takes_the_ends_off(s);
    assert forall|i: int| 0 <= i < trim(s).len() implies #[trigger] trim(s)[i] != c by {
        assert(trim(s)[i] == s[ends.0 + i]);
    }
}

proof fn lemma_no_percentage(line: Seq<char>)
    requires
        free_of(line, '%'),
    ensures
        line_percent(line) is None,
{
    let t = trim(line);
    lemma_trim_free(line, '%');
    assert(free_of(progress_part(line), '%')) by {
        if has_prefix(t, "download:"@) {
            let rest = t.skip("download:"@.len() as int);
            assert forall|i: int| 0 <= i < rest.len() implies #[trigger] rest[i] != '%' by {
                assert(rest[i] == t["download:"@.len() + i]);
            }
            lemma_trim_free(rest, '%');
        } else {
            lemma_trim_free(t, '%');
        }
    }
    assert("%"@.len() == 1 && "%"@[0] == '%') by {
        reveal_strlit("%");
    }
    without_its_first_character(progress_part(line), "%"@);
}

} // verus!
