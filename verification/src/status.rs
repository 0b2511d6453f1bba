//! The status message of a download: its phases, its progress bar, and how often it changes.
use vstd::prelude::*;

use crate::numbers::{decimal, decimal_chars};
use crate::text::text_of;

verus! {

// ---------------------------------------------------------------------------
// Phases
// ---------------------------------------------------------------------------

/// Where a download stands.
#[derive(Clone, Copy, PartialEq, Eq, Structural, Debug, Hash)]
pub enum StatusPhase {
    FetchingLink,
    FetchFailed,
    DownloadingMedia,
    DownloadFailed,
    ConvertingMedia,
    ConvertingFailed,
    CompressingMediaPass1,
    CompressingMediaPass2,
    CompressingFailed,
    UploadingMedia,
    UploadFailed,
    DownloadComplete,
}

/// What the status message says in a phase.
pub open spec fn phase_label(phase: StatusPhase) -> Seq<char> {
    match phase {
        StatusPhase::FetchingLink => "Fetching link..."@,
        StatusPhase::FetchFailed => "Fetch failed."@,
        StatusPhase::DownloadingMedia => "Downloading media..."@,
        StatusPhase::DownloadFailed => "Download failed."@,
        StatusPhase::ConvertingMedia => "Converting media..."@,
        StatusPhase::ConvertingFailed => "Conversion failed."@,
        StatusPhase::CompressingMediaPass1 => "Compressing media... Pass 1/2"@,
        StatusPhase::CompressingMediaPass2 => "Compressing media... Pass 2/2"@,
        StatusPhase::CompressingFailed => "Compression failed."@,
        StatusPhase::UploadingMedia => "Uploading media..."@,
        StatusPhase::UploadFailed => "Upload failed."@,
        StatusPhase::DownloadComplete => "Download complete."@,
    }
}

/// Whether a phase is one of failure.
pub open spec fn failure(phase: StatusPhase) -> bool {
    match phase {
        StatusPhase::FetchFailed => true,
        StatusPhase::DownloadFailed => true,
        StatusPhase::ConvertingFailed => true,
        StatusPhase::CompressingFailed => true,
        StatusPhase::UploadFailed => true,
        _ => false,
    }
}

/// What the status message says while a phase goes on.
pub open spec fn phase_progress(phase: StatusPhase, bucket: u8, percent: u8) -> Seq<char> {
    phase_label(phase) + "\n<code>"@ + bar(bucket, percent) + "</code>"@
}

impl StatusPhase {
    /// What the status message says in the phase.
    pub fn label(self) -> (r: &'static str)
        ensures
            r@ == phase_label(self),
    {
        match self {
            StatusPhase::FetchingLink => "Fetching link...",
            StatusPhase::FetchFailed => "Fetch failed.",
            StatusPhase::DownloadingMedia => "Downloading media...",
            StatusPhase::DownloadFailed => "Download failed.",
            StatusPhase::ConvertingMedia => "Converting media...",
            StatusPhase::ConvertingFailed => "Conversion failed.",
            StatusPhase::CompressingMediaPass1 => "Compressing media... Pass 1/2",
            StatusPhase::CompressingMediaPass2 => "Compressing media... Pass 2/2",
            StatusPhase::CompressingFailed => "Compression failed.",
            StatusPhase::UploadingMedia => "Uploading media...",
            StatusPhase::UploadFailed => "Upload failed.",
            StatusPhase::DownloadComplete => "Download complete.",
        }
    }

    /// Whether the phase is one of failure.
    pub fn is_failure(self) -> (r: bool)
        ensures
            r == failure(self),
    {
        match self {
            StatusPhase::FetchFailed => true,
            StatusPhase::DownloadFailed => true,
            StatusPhase::ConvertingFailed => true,
            StatusPhase::CompressingFailed => true,
            StatusPhase::UploadFailed => true,
            _ => false,
        }
    }

    /// What the status message says while the phase goes on.
    pub fn progress_text(self, bucket: u8, display_percent: u8) -> (r: String)
        ensures
            r@ == phase_progress(self, bucket, display_percent),
    {
        let mut out = self.label().to_owned();
        out.append("\n<code>");
        let shown = progress_bar(bucket, display_percent);
        out.append(shown.as_str());
        out.append("</code>");
        out
    }

    /// What the status message says while the phase goes on, from the percentage alone.
    pub fn bar_text(self, display_percent: u8) -> (r: String)
        ensures
            r@ == phase_progress(self, bucket_of(display_percent), display_percent),
    {
        self.progress_text(progress_bucket_from_display_percent(display_percent), display_percent)
    }
}

/// No two phases say the same.
pub proof fn phase_labels_are_distinct(a: StatusPhase, b: StatusPhase)
    requires
        a != b,
    ensures
        phase_label(a) != phase_label(b),
{
    reveal_strlit("Fetching link...");
    reveal_strlit("Fetch failed.");
    reveal_strlit("Downloading media...");
    reveal_strlit("Download failed.");
    reveal_strlit("Converting media...");
    reveal_strlit("Conversion failed.");
    reveal_strlit("Compressing media... Pass 1/2");
    reveal_strlit("Compressing media... Pass 2/2");
    reveal_strlit("Compression failed.");
    reveal_strlit("Uploading media...");
    reveal_strlit("Upload failed.");
    reveal_strlit("Download complete.");
    let x = phase_label(a);
    let y = phase_label(b);
    assert(x.len() != y.len() || x[0] != y[0] || x[3] != y[3] || x[26] != y[26]);
}

/// The last phase that was shown.
pub struct PhaseRecord {
    pub phase: Option<StatusPhase>,
}

impl PhaseRecord {
    /// Nothing was shown yet.
    pub fn new() -> (r: PhaseRecord)
        ensures
            r.phase is None,
    {
        PhaseRecord { phase: None }
    }

    /// Notes that a phase is shown.
    pub fn record_phase(&mut self, phase: StatusPhase)
        ensures
            final(self).phase == Some(phase),
    {
        self.phase = Some(phase);
    }

    /// Whether the phase that is shown is one of failure.
    pub fn has_failure_phase(&self) -> (r: bool)
        ensures
            r == (self.phase matches Some(p) && failure(p)),
    {
        match self.phase {
            Some(p) => p.is_failure(),
            None => false,
        }
    }
}

// ---------------------------------------------------------------------------
// The progress bar
// ---------------------------------------------------------------------------

/// The width of the bar.
pub const PROGRESS_BAR_WIDTH: usize = 20;

/// The percentage that is shown for a whole number of percent.
pub fn shown_percent(whole: i64) -> (r: u8)
    ensures
        r == if whole < 0 {
            0
        } else if whole > 100 {
            100
        } else {
            whole as int
        },
{
    if whole < 0 {
        0
    } else if whole > 100 {
        100
    } else {
        whole as u8
    }
}

/// How many steps of five percent are done, at most twenty.
pub open spec fn bucket_of(percent: u8) -> u8 {
    if percent >= 100 {
        20
    } else {
        percent / 5
    }
}

/// How many steps of five percent are done, at most twenty.
pub fn progress_bucket_from_display_percent(display_percent: u8) -> (r: u8)
    ensures
        r == bucket_of(display_percent),
{
    if display_percent >= 100 {
        20
    } else {
        display_percent / 5
    }
}

/// The character, time after time.
pub open spec fn repeated(c: char, n: nat) -> Seq<char> {
    Seq::new(n, |i: int| c)
}

/// Spaces that widen a text to three characters.
pub open spec fn padding(len: nat) -> Seq<char> {
    if len < 3 {
        repeated(' ', (3 - len) as nat)
    } else {
        Seq::empty()
    }
}

/// The bar: what is done, what is left, and the percentage.
pub open spec fn bar(bucket: u8, percent: u8) -> Seq<char> {
    let filled: nat = if bucket > 20 {
        20
    } else {
        bucket as nat
    };
    let shown: nat = if percent > 100 {
        100
    } else {
        percent as nat
    };
    let digits = decimal(shown);
    seq!['['] + repeated('#', filled) + repeated('-', (20 - filled) as nat) + "] "@ + padding(
        digits.len(),
    ) + digits + "%"@
}

/// Adds a character time after time.
fn push_repeated(out: &mut Vec<char>, c: char, n: usize)
    ensures
        final(out)@ == old(out)@ + repeated(c, n as nat),
{
    let mut i: usize = 0;
    while i < n
        invariant
            i <= n,
            out@ == old(out)@ + repeated(c, i as nat),
        decreases n - i,
    {
        out.push(c);
        assert(out@ == old(out)@ + repeated(c, (i + 1) as nat));
        i += 1;
    }
}

/// Draws the bar.
pub fn progress_bar(bucket: u8, display_percent: u8) -> (r: String)
    ensures
        r@ == bar(bucket, display_percent),
{
    let filled: usize = if bucket > 20 {
        20
    } else {
        bucket as usize
    };
    let shown: u64 = if display_percent > 100 {
        100
    } else {
        display_percent as u64
    };
    let digits = decimal_chars(shown);
    let mut cs: Vec<char> = Vec::new();
    cs.push('[');
    push_repeated(&mut cs, '#', filled);
    push_repeated(&mut cs, '-', PROGRESS_BAR_WIDTH - filled);
    assert(cs@ == seq!['['] + repeated('#', filled as nat) + repeated('-', (20 - filled) as nat));
    let mut out = text_of(cs.as_slice());
    out.append("] ");
    let mut tail: Vec<char> = Vec::new();
    if digits.len() < 3 {
        push_repeated(&mut tail, ' ', 3 - digits.len());
    }
    assert(tail@ == padding(digits@.len()));
    let pad = text_of(tail.as_slice());
    out.append(pad.as_str());
    let number = text_of(digits.as_slice());
    out.append(number.as_str());
    out.append("%");
    out
}

// ---------------------------------------------------------------------------
// How often the bar changes
// ---------------------------------------------------------------------------

/// How long a shown percentage stays, in nanoseconds.
pub const PROGRESS_UPDATE_INTERVAL: u64 = 5_000_000_000;

/// Decides when a new percentage is shown. Times are nanoseconds of a clock that does not go
/// back.
#[derive(Debug, PartialEq, Eq)]
pub struct ProgressThrottle {
    pub phase: StatusPhase,
    pub last_update: Option<u64>,
    pub last_display_percent: Option<u8>,
    pub pending_display_percent: Option<u8>,
}

/// Whether the last change is too recent for another one.
pub open spec fn too_soon(last: Option<u64>, now: u64) -> bool {
    last matches Some(t) && now - t < PROGRESS_UPDATE_INTERVAL
}

/// What a percentage does to a throttle, and the percentage that is then shown.
pub open spec fn updated(t: ProgressThrottle, percent: u8, now: u64) -> (
    ProgressThrottle,
    Option<u8>,
) {
    if t.last_display_percent == Some(percent) {
        (t, None)
    } else if too_soon(t.last_update, now) {
        (ProgressThrottle { pending_display_percent: Some(percent), ..t }, None)
    } else {
        (sent(t, percent, now), Some(percent))
    }
}

/// The throttle after a percentage was shown.
pub open spec fn sent(t: ProgressThrottle, percent: u8, now: u64) -> ProgressThrottle {
    ProgressThrottle {
        phase: t.phase,
        last_update: Some(now),
        last_display_percent: Some(percent),
        pending_display_percent: None,
    }
}

/// What the end of a phase does to a throttle, and the percentage that is then shown.
pub open spec fn flushed(t: ProgressThrottle, now: u64) -> (ProgressThrottle, Option<u8>) {
    match t.pending_display_percent {
        Some(p) => if t.last_display_percent != Some(p) {
            (sent(t, p, now), Some(p))
        } else {
            (ProgressThrottle { pending_display_percent: None, ..t }, None)
        },
        None => (t, None),
    }
}

impl ProgressThrottle {
    /// The throttle of a phase of which a percentage was just shown.
    pub fn after_sent(phase: StatusPhase, display_percent: u8, now: u64) -> (r: ProgressThrottle)
        ensures
            r == (ProgressThrottle {
                phase,
                last_update: Some(now),
                last_display_percent: Some(display_percent),
                pending_display_percent: None,
            }),
    {
        ProgressThrottle {
            phase,
            last_update: Some(now),
            last_display_percent: Some(display_percent),
            pending_display_percent: None,
        }
    }

    /// Takes a new percentage, and says which one is to be shown now.
    pub fn update(&mut self, display_percent: u8, now: u64) -> (r: Option<u8>)
        ensures
            (*final(self), r) == updated(*old(self), display_percent, now),
    {
        if let Some(last) = self.last_display_percent {
            if last == display_percent {
                return None;
            }
        }
        if let Some(t) = self.last_update {
            if now < t || now - t < PROGRESS_UPDATE_INTERVAL {
                self.pending_display_percent = Some(display_percent);
                return None;
            }
        }
        self.last_update = Some(now);
        self.last_display_percent = Some(display_percent);
        self.pending_display_percent = None;
        Some(display_percent)
    }

    /// Ends the phase, and says which percentage is still to be shown.
    pub fn flush(&mut self, now: u64) -> (r: Option<u8>)
        ensures
            (*final(self), r) == flushed(*old(self), now),
    {
        match self.pending_display_percent {
            Some(p) => {
                self.pending_display_percent = None;
                if let Some(last) = self.last_display_percent {
                    if last == p {
                        return None;
                    }
                }
                self.last_update = Some(now);
                self.last_display_percent = Some(p);
                Some(p)
            },
            None => None,
        }
    }
}

/// A percentage is never shown twice in a row.
pub proof fn percentage_is_not_repeated(t: ProgressThrottle, percent: u8, now: u64)
    ensures
        updated(t, percent, now).1 is Some ==> t.last_display_percent != updated(
            t,
            percent,
            now,
        ).1,
        flushed(t, now).1 is Some ==> t.last_display_percent != flushed(t, now).1,
{
}

/// Between two changes while a phase goes on lie at least five seconds.
pub proof fn changes_are_five_seconds_apart(
    t: ProgressThrottle,
    first: u8,
    then: u64,
    second: u8,
    now: u64,
)
    requires
        updated(t, first, then).1 is Some,
        updated(updated(t, first, then).0, second, now).1 is Some,
    ensures
        now >= then + PROGRESS_UPDATE_INTERVAL,
{
}

/// A percentage other than the one that is shown is never lost: where it is not shown at once, the
/// end of the phase shows it.
pub proof fn newest_percentage_is_shown_at_the_end(
    t: ProgressThrottle,
    percent: u8,
    now: u64,
    end: u64,
)
    requires
        t.last_display_percent != Some(percent),
    ensures
        flushed(updated(t, percent, now).0, end).0.last_display_percent == Some(percent),
{
}

} // verus!
