use std::collections::HashSet;

use notnotsavebot::progress::{
    ffmpeg_out_time_us, is_yt_dlp_progress_line, keep_error_line, parse_ffmpeg_duration,
    parse_yt_dlp_progress_percent,
};
use notnotsavebot::status::{
    progress_bar, progress_bucket_from_display_percent, shown_percent, PhaseRecord,
    ProgressThrottle, StatusPhase,
};

fn progress_display_percent(percent: f64) -> Option<u8> {
    if percent.is_finite() {
        Some(shown_percent(percent.floor() as i64))
    } else {
        None
    }
}

fn percent_of(line: &str) -> Option<f64> {
    parse_yt_dlp_progress_percent(line).map(|number| number.parse::<f64>().expect("a number"))
}

#[test]
fn status_phase_labels_are_distinct() {
    let phases = [
        StatusPhase::FetchingLink,
        StatusPhase::FetchFailed,
        StatusPhase::DownloadingMedia,
        StatusPhase::DownloadFailed,
        StatusPhase::ConvertingMedia,
        StatusPhase::ConvertingFailed,
        StatusPhase::CompressingMediaPass1,
        StatusPhase::CompressingMediaPass2,
        StatusPhase::CompressingFailed,
        StatusPhase::UploadingMedia,
        StatusPhase::UploadFailed,
        StatusPhase::DownloadComplete,
    ];
    let labels = phases.map(StatusPhase::label);
    let unique = labels.iter().copied().collect::<HashSet<_>>();
    assert_eq!(unique.len(), labels.len());
}

#[test]
fn formats_progress_bar_in_five_percent_steps_with_one_percent_text() {
    assert_eq!(progress_display_percent(52.9), Some(52));
    assert_eq!(progress_bucket_from_display_percent(52), 10);
    assert_eq!(progress_bar(10, 52), "[##########----------]  52%");
}

#[test]
fn parses_yt_dlp_progress_template_lines() {
    assert_eq!(percent_of("download: 42.7%"), Some(42.7));
    assert_eq!(percent_of(" 42.7%"), Some(42.7));
    assert_eq!(percent_of("[download]  42.7% of 10.00MiB"), Some(42.7));
    assert_eq!(percent_of("[download] Destination: file.mp4"), None);
}

#[test]
fn parses_ffmpeg_progress_timestamps() {
    let duration_seconds = 20.0;
    let percent = ffmpeg_out_time_us("out_time_ms=5000000")
        .map(|us| (us as f64 / 1_000_000.0) * 100.0 / duration_seconds);
    assert_eq!(percent, Some(25.0));
}

#[test]
fn parses_ffmpeg_duration_lines() {
    let texts = parse_ffmpeg_duration(
        "  Duration: 00:00:24.90, start: 0.000000, bitrate: 1240 kb/s",
    )
    .expect("a duration");
    let number = |text: &str| text.parse::<f64>().expect("a number");
    assert_eq!(
        Some(
            number(&texts.hours) * 3600.0 + number(&texts.minutes) * 60.0
                + number(&texts.seconds)
        ),
        Some(24.9)
    );
}

#[test]
fn percentages_are_kept_within_bounds() {
    assert_eq!(progress_display_percent(-3.2), Some(0));
    assert_eq!(progress_display_percent(100.4), Some(100));
    assert_eq!(progress_display_percent(1e300), Some(100));
    assert_eq!(progress_display_percent(f64::NAN), None);
    assert_eq!(shown_percent(i64::MIN), 0);
    assert_eq!(shown_percent(7), 7);
}

#[test]
fn bars_are_never_longer_than_twenty_steps() {
    assert_eq!(progress_bar(0, 0), "[--------------------]   0%");
    assert_eq!(progress_bar(20, 100), "[####################] 100%");
    assert_eq!(progress_bar(99, 255), "[####################] 100%");
    assert_eq!(progress_bucket_from_display_percent(4), 0);
    assert_eq!(progress_bucket_from_display_percent(99), 19);
    assert_eq!(progress_bucket_from_display_percent(255), 20);
}

#[test]
fn progress_text_holds_the_label_and_the_bar() {
    assert_eq!(
        StatusPhase::ConvertingMedia.progress_text(1, 9),
        "Converting media...\n<code>[#-------------------]   9%</code>"
    );
    assert_eq!(
        StatusPhase::ConvertingMedia.bar_text(9),
        "Converting media...\n<code>[#-------------------]   9%</code>"
    );
}

#[test]
fn failures_are_remembered_until_another_phase_is_shown() {
    let mut record = PhaseRecord::new();
    assert!(!record.has_failure_phase());
    record.record_phase(StatusPhase::UploadFailed);
    assert!(record.has_failure_phase());
    record.record_phase(StatusPhase::DownloadComplete);
    assert!(!record.has_failure_phase());
    assert!(StatusPhase::CompressingFailed.is_failure());
    assert!(!StatusPhase::UploadingMedia.is_failure());
}

#[test]
fn percentages_change_at_most_every_five_seconds() {
    let second = 1_000_000_000;
    let mut throttle = ProgressThrottle::after_sent(StatusPhase::DownloadingMedia, 0, 10 * second);
    assert_eq!(throttle.update(0, 60 * second), None);
    assert_eq!(throttle.update(10, 14 * second), None);
    assert_eq!(throttle.update(20, 15 * second - 1), None);
    assert_eq!(throttle.update(30, 15 * second), Some(30));
    assert_eq!(throttle.update(30, 30 * second), None);
    assert_eq!(throttle.update(40, 16 * second), None);
    assert_eq!(throttle.flush(17 * second), Some(40));
    assert_eq!(throttle.flush(18 * second), None);
}

#[test]
fn numbers_before_the_percent_sign_are_read() {
    assert_eq!(parse_yt_dlp_progress_percent("x 5.%").as_deref(), Some("5."));
    assert_eq!(parse_yt_dlp_progress_percent(".5%").as_deref(), Some(".5"));
    assert_eq!(parse_yt_dlp_progress_percent("1.2.3%"), None);
    assert_eq!(parse_yt_dlp_progress_percent(".%"), None);
    assert_eq!(parse_yt_dlp_progress_percent("%"), None);
    assert_eq!(parse_yt_dlp_progress_percent("50 %"), None);
    assert_eq!(parse_yt_dlp_progress_percent("a% 7%"), None);
    for text in ["5.", ".5", "42.7", "100"] {
        assert!(text.parse::<f64>().is_ok());
    }
    for text in [".", "1.2.3", ""] {
        assert!(text.parse::<f64>().is_err());
    }
}

#[test]
fn progress_lines_are_not_kept() {
    let mut text = String::new();
    keep_error_line(&mut text, "ERROR: one");
    keep_error_line(&mut text, "[download]  10.0% of 1MiB");
    keep_error_line(&mut text, "two");
    assert_eq!(text, "ERROR: one\ntwo\n");
    assert!(is_yt_dlp_progress_line("download:99.9%"));
    assert!(!is_yt_dlp_progress_line("done"));
}

#[test]
fn encoder_lines_that_say_something_else_are_passed_over() {
    assert_eq!(ffmpeg_out_time_us("out_time_ms= 12 "), Some(12));
    assert_eq!(ffmpeg_out_time_us("out_time_ms=N/A"), None);
    assert_eq!(ffmpeg_out_time_us("out_time=1"), None);
    assert_eq!(ffmpeg_out_time_us("out_time_ms=99999999999999999999"), None);
    assert!(parse_ffmpeg_duration("Duration: 1:2:3:4, x").is_none());
    assert!(parse_ffmpeg_duration("Duration: 1:2:3").is_none());
    assert!(parse_ffmpeg_duration("bitrate: 1").is_none());
}
