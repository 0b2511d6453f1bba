//! Turning a downloaded video into one that Telegram takes: what the encoder is told, how much
//! room the video gets, and what happens when a step fails.
use vstd::prelude::*;

use crate::json::{item_trees, some_text, Json, JsonTree};
use crate::numbers::{decimal, decimal_text, number_read, parse_u64};
use crate::posts::is_empty_text;
use crate::status::StatusPhase;
use crate::text::{chars_of, same_text, texts, trim, trimmed};

verus! {

/// The largest file that a bot may upload.
pub const TELEGRAM_UPLOAD_LIMIT_BYTES: u64 = 50_000_000;

/// The size that a video is compressed to.
pub const TELEGRAM_REENCODE_TARGET_BYTES: u64 = 48_000_000;

/// The bit rate that sound gets when it is encoded anew.
pub const TELEGRAM_REENCODE_AUDIO_BITRATE_BPS: u64 = 128_000;

/// The largest bit rate at which sound is kept as it is.
pub const TELEGRAM_COPY_AUDIO_MAX_BITRATE_BPS: u64 = 131_000;

/// The bit rate that the container is given.
pub const TELEGRAM_REENCODE_CONTAINER_OVERHEAD_BPS: u64 = 64_000;

/// The least bit rate of a video that is worth watching.
pub const TELEGRAM_REENCODE_MIN_VIDEO_BITRATE_BPS: u64 = 150_000;

// ---------------------------------------------------------------------------
// What the encoder is told
// ---------------------------------------------------------------------------

/// An argument of the encoder: a word, or one of the files of the job.
#[derive(Debug, PartialEq, Eq)]
pub enum Arg {
    Word(String),
    Input,
    Audio,
    Output,
    PassLog,
}

/// What an argument of the encoder is.
pub enum ArgView {
    Word(Seq<char>),
    Input,
    Audio,
    Output,
    PassLog,
}

impl View for Arg {
    type V = ArgView;

    open spec fn view(&self) -> ArgView {
        match self {
            Arg::Word(w) => ArgView::Word(w@),
            Arg::Input => ArgView::Input,
            Arg::Audio => ArgView::Audio,
            Arg::Output => ArgView::Output,
            Arg::PassLog => ArgView::PassLog,
        }
    }
}

/// What the arguments are.
pub open spec fn arg_views(args: Seq<Arg>) -> Seq<ArgView> {
    args.map_values(|a: Arg| a@)
}

/// Words as arguments.
pub open spec fn word_args(words: Seq<Seq<char>>) -> Seq<ArgView> {
    words.map_values(|w: Seq<char>| ArgView::Word(w))
}

/// The words as texts.
pub open spec fn word_texts(words: Seq<&str>) -> Seq<Seq<char>> {
    words.map_values(|w: &str| w@)
}

/// The words as strings of their own.
pub(crate) fn owned_words(words: &[&str]) -> (r: Vec<String>)
    ensures
        texts(r@) == word_texts(words@),
{
    let ghost all = word_texts(words@);
    let mut out: Vec<String> = Vec::new();
    assert(texts(out@) == all.take(0));
    let mut i: usize = 0;
    while i < words.len()
        invariant
            i <= words.len(),
            all == word_texts(words@),
            texts(out@) == all.take(i as int),
        decreases words.len() - i,
    {
        let ghost before = texts(out@);
        out.push(words[i].to_owned());
        assert(texts(out@) == before.push(words@[i as int]@));
        assert(all.take(i + 1) == all.take(i as int).push(all[i as int]));
        i += 1;
    }
    assert(all.take(i as int) == all);
    out
}

/// Adds words to the arguments.
pub(crate) fn push_words(args: &mut Vec<Arg>, words: &[&str])
    ensures
        arg_views(final(args)@) == arg_views(old(args)@) + word_args(word_texts(words@)),
{
    let ghost all = word_args(word_texts(words@));
    let ghost start = arg_views(args@);
    assert(start + all.take(0) == start);
    let mut i: usize = 0;
    while i < words.len()
        invariant
            i <= words.len(),
            all == word_args(word_texts(words@)),
            arg_views(args@) == start + all.take(i as int),
        decreases words.len() - i,
    {
        let ghost before = arg_views(args@);
        args.push(Arg::Word(words[i].to_owned()));
        assert(arg_views(args@) == before.push(ArgView::Word(words@[i as int]@)));
        assert(all[i as int] == ArgView::Word(words@[i as int]@));
        assert(all.take(i + 1) == all.take(i as int).push(all[i as int]));
        i += 1;
    }
    assert(all.take(i as int) == all);
}

/// Adds an argument.
pub(crate) fn push_arg(args: &mut Vec<Arg>, arg: Arg)
    ensures
        arg_views(final(args)@) == arg_views(old(args)@).push(arg@),
{
    let ghost before = arg_views(args@);
    args.push(arg);
    assert(arg_views(args@) == before.push(arg@));
}

/// The words with which every job begins.
pub open spec fn opening() -> Seq<ArgView> {
    word_args(seq!["-y"@, "-nostdin"@, "-i"@]).push(ArgView::Input)
}

/// The words that make the encoder tell its progress.
pub open spec fn progress_arguments() -> Seq<ArgView> {
    word_args(seq!["-progress"@, "pipe:2"@])
}

/// The words that make the size of a picture even and its pixels square.
pub open spec fn picture_words() -> Seq<Seq<char>> {
    seq![
        "-vf"@,
        "scale=trunc(iw/2)*2:trunc(ih/2)*2,setsar=1"@,
        "-pix_fmt"@,
        "yuv420p"@,
    ]
}

/// What makes a delivered video: the picture of the input, and the sound of the other file where
/// there is one, else of the input if it has any.
pub open spec fn convert_arguments(with_audio: bool) -> Seq<ArgView> {
    let sound = if with_audio {
        word_args(seq!["-i"@]).push(ArgView::Audio) + word_args(
            seq!["-map"@, "0:v:0"@, "-map"@, "1:a:0"@, "-c:a"@, "aac"@, "-b:a"@, "128k"@],
        )
    } else {
        word_args(seq!["-map"@, "0:v:0"@, "-map"@, "0:a:0?"@, "-c:a"@, "aac"@, "-b:a"@, "128k"@])
    };
    (opening() + sound + word_args(seq!["-c:v"@, "libx264"@, "-preset"@, "veryfast"@]) + word_args(
        picture_words(),
    ) + word_args(seq!["-movflags"@, "+faststart"@])).push(ArgView::Output) + progress_arguments()
}

/// Begins a job.
pub(crate) fn open_args() -> (r: Vec<Arg>)
    ensures
        arg_views(r@) == opening(),
{
    let mut args: Vec<Arg> = Vec::new();
    let words: [&str; 3] = ["-y", "-nostdin", "-i"];
    assert(word_texts(words@) == seq!["-y"@, "-nostdin"@, "-i"@]);
    push_words(&mut args, &words);
    assert(arg_views(args@) == word_args(seq!["-y"@, "-nostdin"@, "-i"@]));
    push_arg(&mut args, Arg::Input);
    args
}

/// Adds the words that make the encoder tell its progress.
fn push_progress(args: &mut Vec<Arg>)
    ensures
        arg_views(final(args)@) == arg_views(old(args)@) + progress_arguments(),
{
    let words: [&str; 2] = ["-progress", "pipe:2"];
    assert(word_texts(words@) == seq!["-progress"@, "pipe:2"@]);
    push_words(args, &words);
}

/// Adds the words that make the size of a picture even and its pixels square.
fn push_picture(args: &mut Vec<Arg>)
    ensures
        arg_views(final(args)@) == arg_views(old(args)@) + word_args(picture_words()),
{
    let words: [&str; 4] = [
        "-vf",
        "scale=trunc(iw/2)*2:trunc(ih/2)*2,setsar=1",
        "-pix_fmt",
        "yuv420p",
    ];
    assert(word_texts(words@) == picture_words());
    push_words(args, &words);
}

/// What makes a delivered video.
pub fn convert_args(with_audio: bool) -> (r: Vec<Arg>)
    ensures
        arg_views(r@) == convert_arguments(with_audio),
{
    let mut args = open_args();
    if with_audio {
        let first: [&str; 1] = ["-i"];
        assert(word_texts(first@) == seq!["-i"@]);
        push_words(&mut args, &first);
        push_arg(&mut args, Arg::Audio);
        let sound: [&str; 8] = ["-map", "0:v:0", "-map", "1:a:0", "-c:a", "aac", "-b:a", "128k"];
        assert(word_texts(sound@) == seq![
            "-map"@,
            "0:v:0"@,
            "-map"@,
            "1:a:0"@,
            "-c:a"@,
            "aac"@,
            "-b:a"@,
            "128k"@,
        ]);
        push_words(&mut args, &sound);
    } else {
        let sound: [&str; 8] = ["-map", "0:v:0", "-map", "0:a:0?", "-c:a", "aac", "-b:a", "128k"];
        assert(word_texts(sound@) == seq![
            "-map"@,
            "0:v:0"@,
            "-map"@,
            "0:a:0?"@,
            "-c:a"@,
            "aac"@,
            "-b:a"@,
            "128k"@,
        ]);
        push_words(&mut args, &sound);
    }
    let coding: [&str; 4] = ["-c:v", "libx264", "-preset", "veryfast"];
    assert(word_texts(coding@) == seq!["-c:v"@, "libx264"@, "-preset"@, "veryfast"@]);
    push_words(&mut args, &coding);
    push_picture(&mut args);
    let tail: [&str; 2] = ["-movflags", "+faststart"];
    assert(word_texts(tail@) == seq!["-movflags"@, "+faststart"@]);
    push_words(&mut args, &tail);
    push_arg(&mut args, Arg::Output);
    push_progress(&mut args);
    args
}

/// A bit rate as the encoder takes it, in thousands.
pub open spec fn rate_text(bps: u64) -> Seq<char> {
    decimal((bps / 1000) as nat) + "k"@
}

/// A bit rate as the encoder takes it, in thousands.
fn rate(bps: u64) -> (r: String)
    ensures
        r@ == rate_text(bps),
{
    let mut out = decimal_text(bps / 1000);
    out.append("k");
    out
}

/// What both passes say about the picture.
pub open spec fn coding_arguments(bitrate: u64) -> Seq<ArgView> {
    word_args(
        seq!["-c:v"@, "libx264"@, "-preset"@, "veryfast"@, "-b:v"@, rate_text(bitrate)],
    ) + word_args(picture_words())
}

/// The first pass: the picture is measured and nothing is written.
pub open spec fn first_pass_arguments(bitrate: u64) -> Seq<ArgView> {
    (opening() + word_args(seq!["-map"@, "0:v:0"@]) + coding_arguments(bitrate) + word_args(
        seq!["-pass"@, "1"@, "-passlogfile"@],
    )).push(ArgView::PassLog) + word_args(seq!["-an"@, "-f"@, "null"@, "-"@])
        + progress_arguments()
}

/// What the second pass says about the sound.
pub open spec fn sound_arguments(audio: TargetAudioPlan) -> Seq<ArgView> {
    if audio.copy {
        word_args(seq!["-c:a"@, "copy"@])
    } else {
        word_args(
            seq!["-c:a"@, "aac"@, "-b:a"@, rate_text(TELEGRAM_REENCODE_AUDIO_BITRATE_BPS)],
        )
    }
}

/// The second pass: the video is written.
pub open spec fn second_pass_arguments(bitrate: u64, audio: TargetAudioPlan) -> Seq<ArgView> {
    ((opening() + word_args(seq!["-map"@, "0:v:0"@, "-map"@, "0:a:0?"@]) + coding_arguments(
        bitrate,
    ) + word_args(seq!["-pass"@, "2"@, "-passlogfile"@])).push(ArgView::PassLog) + sound_arguments(
        audio,
    ) + word_args(seq!["-movflags"@, "+faststart"@])).push(ArgView::Output) + progress_arguments()
}

/// Adds what both passes say about the picture.
fn push_coding(args: &mut Vec<Arg>, bitrate: u64)
    ensures
        arg_views(final(args)@) == arg_views(old(args)@) + coding_arguments(bitrate),
{
    let ghost start = arg_views(args@);
    let kbps = rate(bitrate);
    let words: [&str; 6] = ["-c:v", "libx264", "-preset", "veryfast", "-b:v", kbps.as_str()];
    assert(word_texts(words@) == seq![
        "-c:v"@,
        "libx264"@,
        "-preset"@,
        "veryfast"@,
        "-b:v"@,
        rate_text(bitrate),
    ]);
    push_words(args, &words);
    push_picture(args);
    assert(arg_views(args@) == start + coding_arguments(bitrate));
}

/// The arguments of the first pass.
pub fn first_pass_args(bitrate: u64) -> (r: Vec<Arg>)
    ensures
        arg_views(r@) == first_pass_arguments(bitrate),
{
    let mut args = open_args();
    let picture: [&str; 2] = ["-map", "0:v:0"];
    assert(word_texts(picture@) == seq!["-map"@, "0:v:0"@]);
    push_words(&mut args, &picture);
    push_coding(&mut args, bitrate);
    let pass: [&str; 3] = ["-pass", "1", "-passlogfile"];
    assert(word_texts(pass@) == seq!["-pass"@, "1"@, "-passlogfile"@]);
    push_words(&mut args, &pass);
    push_arg(&mut args, Arg::PassLog);
    let tail: [&str; 4] = ["-an", "-f", "null", "-"];
    assert(word_texts(tail@) == seq!["-an"@, "-f"@, "null"@, "-"@]);
    push_words(&mut args, &tail);
    push_progress(&mut args);
    args
}

/// The arguments of the second pass.
pub fn second_pass_args(bitrate: u64, audio: &TargetAudioPlan) -> (r: Vec<Arg>)
    ensures
        arg_views(r@) == second_pass_arguments(bitrate, *audio),
{
    let mut args = open_args();
    let picture: [&str; 4] = ["-map", "0:v:0", "-map", "0:a:0?"];
    assert(word_texts(picture@) == seq!["-map"@, "0:v:0"@, "-map"@, "0:a:0?"@]);
    push_words(&mut args, &picture);
    push_coding(&mut args, bitrate);
    let pass: [&str; 3] = ["-pass", "2", "-passlogfile"];
    assert(word_texts(pass@) == seq!["-pass"@, "2"@, "-passlogfile"@]);
    push_words(&mut args, &pass);
    push_arg(&mut args, Arg::PassLog);
    if audio.copy {
        let sound: [&str; 2] = ["-c:a", "copy"];
        assert(word_texts(sound@) == seq!["-c:a"@, "copy"@]);
        push_words(&mut args, &sound);
    } else {
        let kbps = rate(TELEGRAM_REENCODE_AUDIO_BITRATE_BPS);
        let sound: [&str; 4] = ["-c:a", "aac", "-b:a", kbps.as_str()];
        assert(word_texts(sound@) == seq![
            "-c:a"@,
            "aac"@,
            "-b:a"@,
            rate_text(TELEGRAM_REENCODE_AUDIO_BITRATE_BPS),
        ]);
        push_words(&mut args, &sound);
    }
    let tail: [&str; 2] = ["-movflags", "+faststart"];
    assert(word_texts(tail@) == seq!["-movflags"@, "+faststart"@]);
    push_words(&mut args, &tail);
    push_arg(&mut args, Arg::Output);
    push_progress(&mut args);
    args
}

/// What turns an image into a JPEG: one frame of it is written.
pub open spec fn image_arguments() -> Seq<ArgView> {
    (opening() + word_args(seq!["-frames:v"@, "1"@])).push(ArgView::Output)
}

/// What turns an image into a JPEG.
pub fn image_args() -> (r: Vec<Arg>)
    ensures
        arg_views(r@) == image_arguments(),
{
    let mut args = open_args();
    let words: [&str; 2] = ["-frames:v", "1"];
    assert(word_texts(words@) == seq!["-frames:v"@, "1"@]);
    push_words(&mut args, &words);
    push_arg(&mut args, Arg::Output);
    args
}

/// The endings of the files in which the first pass leaves its notes.
pub open spec fn passlog_endings() -> Seq<Seq<char>> {
    seq!["-0.log"@, "-0.log.mbtree"@, ".log"@, ".log.mbtree"@]
}

/// The files in which the first pass leaves its notes.
pub fn passlog_files(passlog: &str) -> (r: Vec<String>)
    ensures
        texts(r@) == passlog_endings().map_values(|e: Seq<char>| passlog@ + e),
{
    let endings: [&str; 4] = ["-0.log", "-0.log.mbtree", ".log", ".log.mbtree"];
    let ghost all = passlog_endings().map_values(|e: Seq<char>| passlog@ + e);
    assert(word_texts(endings@) == passlog_endings());
    let mut out: Vec<String> = Vec::new();
    let mut i: usize = 0;
    while i < 4
        invariant
            i <= 4,
            endings@.len() == 4,
            word_texts(endings@) == passlog_endings(),
            all == passlog_endings().map_values(|e: Seq<char>| passlog@ + e),
            texts(out@) == all.take(i as int),
        decreases 4 - i,
    {
        let ghost before = texts(out@);
        let mut name = passlog.to_owned();
        name.append(endings[i]);
        assert(word_texts(endings@)[i as int] == endings@[i as int]@);
        assert(name@ == all[i as int]);
        out.push(name);
        assert(texts(out@) == before.push(name@));
        assert(all.take(i + 1) == all.take(i as int).push(all[i as int]));
        i += 1;
    }
    assert(all.take(4) == all);
    out
}

// ---------------------------------------------------------------------------
// What is known of a video
// ---------------------------------------------------------------------------

/// What becomes of the sound of a video that is compressed.
#[derive(Clone, Copy, PartialEq, Eq, Structural, Debug)]
pub struct TargetAudioPlan {
    pub copy: bool,
    pub reserved_bitrate_bps: u64,
}

/// The first stream of sound from position `i` on.
pub open spec fn audio_from(streams: Seq<JsonTree>, i: int) -> Option<JsonTree>
    decreases streams.len() - i,
{
    if i < 0 || i >= streams.len() {
        None
    } else if streams[i].text_at("codec_type"@) == Some("audio"@) {
        Some(streams[i])
    } else {
        audio_from(streams, i + 1)
    }
}

/// The first stream of sound of a video.
pub open spec fn audio_stream(payload: JsonTree) -> Option<JsonTree> {
    match payload.get("streams"@) {
        Some(list) => match list.items() {
            Some(streams) => audio_from(streams, 0),
            None => None,
        },
        None => None,
    }
}

/// The bit rate of a stream.
pub open spec fn stream_bitrate(stream: JsonTree) -> Option<nat> {
    match stream.text_at("bit_rate"@) {
        Some(t) => number_read(t, u64::MAX as nat),
        None => None,
    }
}

/// Sound that is coded as AAC at a low bit rate is kept; other sound is encoded anew.
pub open spec fn audio_plan(payload: JsonTree) -> TargetAudioPlan {
    match audio_stream(payload) {
        Some(stream) => match stream_bitrate(stream) {
            Some(bps) => if stream.text_at("codec_name"@) == Some("aac"@) && bps
                <= TELEGRAM_COPY_AUDIO_MAX_BITRATE_BPS {
                TargetAudioPlan { copy: true, reserved_bitrate_bps: bps as u64 }
            } else {
                new_sound()
            },
            None => new_sound(),
        },
        None => new_sound(),
    }
}

/// Sound that is encoded anew.
pub open spec fn new_sound() -> TargetAudioPlan {
    TargetAudioPlan {
        copy: false,
        reserved_bitrate_bps: TELEGRAM_REENCODE_AUDIO_BITRATE_BPS,
    }
}

/// The bit rate of a stream.
pub fn read_stream_bitrate_bps(stream: &Json) -> (r: Option<u64>)
    ensures
        match r {
            Some(n) => stream_bitrate(stream@) == Some(n as nat),
            None => stream_bitrate(stream@) is None,
        },
{
    match stream.text_at("bit_rate") {
        Some(t) => {
            let cs = chars_of(t);
            parse_u64(cs.as_slice())
        },
        None => None,
    }
}

/// Whether the text at a key is the given one.
fn text_at_is(j: &Json, key: &str, value: &str) -> (r: bool)
    ensures
        r == (j@.text_at(key@) == Some(value@)),
{
    match j.text_at(key) {
        Some(t) => same_text(t, value),
        None => false,
    }
}

/// The first stream of sound of a video.
fn find_audio(payload: &Json) -> (r: Option<&Json>)
    ensures
        match r {
            Some(j) => audio_stream(payload@) == Some(j@),
            None => audio_stream(payload@) is None,
        },
{
    match payload.get("streams") {
        Some(list) => match list.as_array() {
            Some(streams) => {
                let ghost all = item_trees(streams@);
                let mut i: usize = 0;
                while i < streams.len()
                    invariant
                        i <= streams.len(),
                        all == item_trees(streams@),
                        audio_stream(payload@) == audio_from(all, i as int),
                    decreases streams.len() - i,
                {
                    assert(all[i as int] == streams@[i as int]@);
                    if text_at_is(&streams[i], "codec_type", "audio") {
                        return Some(&streams[i]);
                    }
                    i += 1;
                }
                None
            },
            None => None,
        },
        None => None,
    }
}

/// Plans the sound of a video that is compressed. What is set aside for it is at most the bit rate
/// at which sound is kept.
pub fn target_audio_plan(payload: &Json) -> (r: TargetAudioPlan)
    ensures
        r == audio_plan(payload@),
        r.reserved_bitrate_bps <= TELEGRAM_COPY_AUDIO_MAX_BITRATE_BPS,
{
    match find_audio(payload) {
        Some(stream) => match read_stream_bitrate_bps(stream) {
            Some(bps) => if text_at_is(stream, "codec_name", "aac") && bps
                <= TELEGRAM_COPY_AUDIO_MAX_BITRATE_BPS {
                TargetAudioPlan { copy: true, reserved_bitrate_bps: bps }
            } else {
                TargetAudioPlan {
                    copy: false,
                    reserved_bitrate_bps: TELEGRAM_REENCODE_AUDIO_BITRATE_BPS,
                }
            },
            None => TargetAudioPlan {
                copy: false,
                reserved_bitrate_bps: TELEGRAM_REENCODE_AUDIO_BITRATE_BPS,
            },
        },
        None => TargetAudioPlan {
            copy: false,
            reserved_bitrate_bps: TELEGRAM_REENCODE_AUDIO_BITRATE_BPS,
        },
    }
}

/// The text of the duration of a video.
pub open spec fn duration_text(payload: JsonTree) -> Option<Seq<char>> {
    match payload.get("format"@) {
        Some(f) => f.text_at("duration"@),
        None => None,
    }
}

/// The text of the duration of a video.
pub fn video_duration_text(payload: &Json) -> (r: Option<&str>)
    ensures
        some_text(r) == duration_text(payload@),
{
    match payload.get("format") {
        Some(f) => f.text_at("duration"),
        None => None,
    }
}

/// The number at a key, if it is not too large.
pub open spec fn small_number(j: JsonTree, key: Seq<char>) -> Option<u32> {
    match j.get(key) {
        Some(n) => match n.unsigned() {
            Some(v) => if v <= u32::MAX {
                Some(v as u32)
            } else {
                None
            },
            None => None,
        },
        None => None,
    }
}

/// The number at a key, if it is not too large.
fn small_number_at(j: &Json, key: &str) -> (r: Option<u32>)
    ensures
        r == small_number(j@, key@),
{
    match j.get(key) {
        Some(n) => match n.as_u64() {
            Some(v) => if v <= u32::MAX as u64 {
                Some(v as u32)
            } else {
                None
            },
            None => None,
        },
        None => None,
    }
}

/// The width and height of the first stream.
pub open spec fn stream_size(payload: JsonTree) -> Option<(u32, u32)> {
    match payload.get("streams"@) {
        Some(list) => match list.item(0) {
            Some(stream) => match (
                small_number(stream, "width"@),
                small_number(stream, "height"@),
            ) {
                (Some(w), Some(h)) => Some((w, h)),
                _ => None,
            },
            None => None,
        },
        None => None,
    }
}

/// The width and height of the first stream.
pub fn video_size(payload: &Json) -> (r: Option<(u32, u32)>)
    ensures
        r == stream_size(payload@),
{
    match payload.get("streams") {
        Some(list) => match list.item(0) {
            Some(stream) => match (
                small_number_at(stream, "width"),
                small_number_at(stream, "height"),
            ) {
                (Some(w), Some(h)) => Some((w, h)),
                _ => None,
            },
            None => None,
        },
        None => None,
    }
}

/// What Telegram is told about a video.
#[derive(Clone, Copy, PartialEq, Eq, Structural, Debug)]
pub struct TelegramVideoMetadata {
    pub width: u32,
    pub height: u32,
    pub duration_seconds: u32,
}

/// What Telegram is told about a video: its size and, in whole seconds, its duration, if both are
/// known.
pub fn telegram_video_metadata(payload: &Json, duration_seconds: Option<u32>) -> (r: Option<
    TelegramVideoMetadata,
>)
    ensures
        match (stream_size(payload@), duration_seconds) {
            (Some((w, h)), Some(d)) => r == Some(
                (TelegramVideoMetadata { width: w, height: h, duration_seconds: d }),
            ),
            _ => r is None,
        },
{
    match (video_size(payload), duration_seconds) {
        (Some((width, height)), Some(seconds)) => Some(
            TelegramVideoMetadata { width, height, duration_seconds: seconds },
        ),
        _ => None,
    }
}

// ---------------------------------------------------------------------------
// How much room the video gets
// ---------------------------------------------------------------------------

/// The bit rate of the picture, given the bit rate of the whole: what is left after the sound and
/// the container, if that is more than the least that is worth watching.
pub open spec fn video_budget(total_bps: u64, audio_bps: u64) -> Option<int> {
    if total_bps > audio_bps + TELEGRAM_REENCODE_CONTAINER_OVERHEAD_BPS
        + TELEGRAM_REENCODE_MIN_VIDEO_BITRATE_BPS {
        Some(total_bps - audio_bps - TELEGRAM_REENCODE_CONTAINER_OVERHEAD_BPS)
    } else {
        None
    }
}

/// The bit rate of the picture, given the bit rate of the whole.
pub fn telegram_target_video_bitrate_bps(total_bitrate_bps: u64, audio_bitrate_bps: u64) -> (r:
    Option<u64>)
    requires
        audio_bitrate_bps + TELEGRAM_REENCODE_CONTAINER_OVERHEAD_BPS
            + TELEGRAM_REENCODE_MIN_VIDEO_BITRATE_BPS <= u64::MAX,
    ensures
        match r {
            Some(n) => video_budget(total_bitrate_bps, audio_bitrate_bps) == Some(n as int),
            None => video_budget(total_bitrate_bps, audio_bitrate_bps) is None,
        },
{
    let reserved: u64 = audio_bitrate_bps + TELEGRAM_REENCODE_CONTAINER_OVERHEAD_BPS
        + TELEGRAM_REENCODE_MIN_VIDEO_BITRATE_BPS;
    if total_bitrate_bps <= reserved {
        return None;
    }
    Some(total_bitrate_bps - audio_bitrate_bps - TELEGRAM_REENCODE_CONTAINER_OVERHEAD_BPS)
}

/// The picture, the sound and the container together use what there is and no more, so that a
/// video of `seconds` whose whole bit rate is at most its share of the target stays within the
/// target and below the limit.
pub proof fn budget_leaves_headroom(total_bps: u64, audio_bps: u64, seconds: nat)
    requires
        video_budget(total_bps, audio_bps) is Some,
        total_bps * seconds <= 8 * TELEGRAM_REENCODE_TARGET_BYTES,
    ensures
        (video_budget(total_bps, audio_bps)->0 + audio_bps
            + TELEGRAM_REENCODE_CONTAINER_OVERHEAD_BPS) * seconds
            <= 8 * TELEGRAM_REENCODE_TARGET_BYTES,
        (video_budget(total_bps, audio_bps)->0 + audio_bps
            + TELEGRAM_REENCODE_CONTAINER_OVERHEAD_BPS) * seconds < 8
            * TELEGRAM_UPLOAD_LIMIT_BYTES,
        video_budget(total_bps, audio_bps)->0 > TELEGRAM_REENCODE_MIN_VIDEO_BITRATE_BPS,
{
    assert(video_budget(total_bps, audio_bps)->0 + audio_bps
        + TELEGRAM_REENCODE_CONTAINER_OVERHEAD_BPS == total_bps);
}

// ---------------------------------------------------------------------------
// When a tool fails
// ---------------------------------------------------------------------------

/// The message that a tool has failed: how it ended and, if it said anything, what it said.
pub open spec fn failure_message(context: Seq<char>, status: Seq<char>, stderr: Seq<char>) -> Seq<
    char,
> {
    let said = trim(stderr);
    if said.len() == 0 {
        context + " failed with status "@ + status
    } else {
        context + " failed with status "@ + status + ": "@ + said
    }
}

/// The message that a tool has failed.
pub fn tool_failure(context: &str, status: &str, stderr: &str) -> (r: String)
    ensures
        r@ == failure_message(context@, status@, stderr@),
{
    let said = trimmed(stderr);
    let mut out = context.to_owned();
    out.append(" failed with status ");
    out.append(status);
    if !is_empty_text(said.as_str()) {
        out.append(": ");
        out.append(said.as_str());
    }
    out
}

/// How a tool ended.
#[derive(Debug, PartialEq, Eq)]
pub struct ToolExit {
    pub success: bool,
    pub status: String,
    pub stderr: String,
}

/// Whether a tool did its work, or why not.
pub fn ensure_ffmpeg_success(output: &ToolExit, context: &str) -> (r: Result<(), String>)
    ensures
        match r {
            Ok(_) => output.success,
            Err(m) => !output.success && m@ == failure_message(
                context@,
                output.status@,
                output.stderr@,
            ),
        },
{
    if output.success {
        Ok(())
    } else {
        Err(tool_failure(context, output.status.as_str(), output.stderr.as_str()))
    }
}

// ---------------------------------------------------------------------------
// The whole way of a video
// ---------------------------------------------------------------------------

/// How far the work on a video is.
#[derive(Debug, PartialEq, Eq)]
pub enum VideoState {
    /// The video is made.
    Converting,
    /// The size of the video is looked up.
    Measuring,
    /// The video is too large: its duration and its sound are looked up.
    Probing,
    /// The video is compressed, first pass.
    FirstPass { bitrate: u64, audio: TargetAudioPlan },
    /// The video is compressed, second pass.
    SecondPass,
    /// The size of the compressed video is looked up.
    MeasuringTarget,
    /// The work is over.
    Finished,
}

/// What is known of a video that is too large: the bit rate that the whole may have, its duration
/// as it is shown, and what becomes of its sound.
pub struct VideoReencodeInfo {
    pub total_bitrate_bps: u64,
    pub duration_label: String,
    pub audio: TargetAudioPlan,
}

/// What has happened.
pub enum VideoEvent {
    /// The encoder could not be run, or ended.
    Ran(Result<ToolExit, String>),
    /// The size was looked up.
    Measured(Result<u64, String>),
    /// The duration and the sound were looked up.
    Probed(Result<VideoReencodeInfo, String>),
}

/// Which of the files of the job is delivered.
#[derive(Clone, Copy, PartialEq, Eq, Structural, Debug)]
pub enum VideoFile {
    Converted,
    Target,
}

/// What is done next.
#[derive(Debug, PartialEq, Eq)]
pub enum VideoAction {
    /// The status shows the phase at nothing done, and the encoder runs.
    Run { phase: StatusPhase, args: Vec<Arg> },
    /// The size of the file is looked up.
    Measure(VideoFile),
    /// The duration and the sound of the converted file are looked up.
    Probe,
    /// The file is delivered; the trouble is noted.
    Deliver { file: VideoFile, trouble: Option<String> },
    /// There is nothing to deliver.
    Fail(String),
}

/// What is done next.
pub enum VideoActionView {
    Run { phase: StatusPhase, args: Seq<ArgView> },
    Measure(VideoFile),
    Probe,
    Deliver { file: VideoFile, trouble: Option<Seq<char>> },
    Fail(Seq<char>),
}

impl View for VideoAction {
    type V = VideoActionView;

    open spec fn view(&self) -> VideoActionView {
        match self {
            VideoAction::Run { phase, args } => VideoActionView::Run {
                phase: *phase,
                args: arg_views(args@),
            },
            VideoAction::Measure(file) => VideoActionView::Measure(*file),
            VideoAction::Probe => VideoActionView::Probe,
            VideoAction::Deliver { file, trouble } => VideoActionView::Deliver {
                file: *file,
                trouble: crate::json::some_string(*trouble),
            },
            VideoAction::Fail(m) => VideoActionView::Fail(m@),
        }
    }
}

/// A step of the work on a video: the phase of failure that is shown, if any, whether the notes of
/// the first pass are removed, what is done next, and how far the work then is.
#[derive(Debug, PartialEq, Eq)]
pub struct VideoStep {
    pub show: Option<StatusPhase>,
    pub clean_up: bool,
    pub action: VideoAction,
    pub state: VideoState,
}

/// What a step of the work on a video is.
pub struct VideoStepView {
    pub show: Option<StatusPhase>,
    pub clean_up: bool,
    pub action: VideoActionView,
    pub state: VideoState,
}

impl View for VideoStep {
    type V = VideoStepView;

    open spec fn view(&self) -> VideoStepView {
        VideoStepView {
            show: self.show,
            clean_up: self.clean_up,
            action: self.action@,
            state: self.state,
        }
    }
}

/// A step that only goes on.
pub open spec fn go_on(action: VideoActionView, state: VideoState) -> VideoStepView {
    VideoStepView { show: None, clean_up: false, action, state }
}

/// A step that gives compression up: the converted video is delivered as it is.
pub open spec fn give_up(show: Option<StatusPhase>, clean_up: bool, trouble: Seq<char>) ->
    VideoStepView {
    VideoStepView {
        show,
        clean_up,
        action: VideoActionView::Deliver { file: VideoFile::Converted, trouble: Some(trouble) },
        state: VideoState::Finished,
    }
}

/// Why the encoder did not do its work, if it did not.
pub open spec fn run_trouble(ran: Result<ToolExit, String>, context: Seq<char>) -> Option<
    Seq<char>,
> {
    match ran {
        Ok(exit) => if exit.success {
            None
        } else {
            Some(failure_message(context, exit.status@, exit.stderr@))
        },
        Err(m) => Some(m@),
    }
}

/// Whether the event is one that the state waits for.
pub open spec fn awaited(state: VideoState, event: VideoEvent) -> bool {
    match state {
        VideoState::Converting => event is Ran,
        VideoState::Measuring => event is Measured,
        VideoState::Probing => event is Probed && (event->Probed_0 matches Ok(info) ==> info.audio
            .reserved_bitrate_bps <= TELEGRAM_COPY_AUDIO_MAX_BITRATE_BPS),
        VideoState::FirstPass { .. } => event is Ran,
        VideoState::SecondPass => event is Ran,
        VideoState::MeasuringTarget => event is Measured,
        VideoState::Finished => false,
    }
}

/// The first step: the video is made.
pub open spec fn video_start(with_audio: bool) -> VideoStepView {
    go_on(
        VideoActionView::Run {
            phase: StatusPhase::ConvertingMedia,
            args: convert_arguments(with_audio),
        },
        VideoState::Converting,
    )
}

/// The step that an event leads to.
pub open spec fn video_next(state: VideoState, event: VideoEvent) -> VideoStepView {
    match (state, event) {
        (VideoState::Converting, VideoEvent::Ran(ran)) => match run_trouble(ran, "ffmpeg"@) {
            Some(m) => VideoStepView {
                show: Some(StatusPhase::ConvertingFailed),
                clean_up: false,
                action: VideoActionView::Fail(m),
                state: VideoState::Finished,
            },
            None => go_on(VideoActionView::Measure(VideoFile::Converted), VideoState::Measuring),
        },
        (VideoState::Measuring, VideoEvent::Measured(size)) => match size {
            Err(m) => go_on(VideoActionView::Fail(m@), VideoState::Finished),
            Ok(bytes) => if bytes <= TELEGRAM_UPLOAD_LIMIT_BYTES {
                go_on(
                    VideoActionView::Deliver { file: VideoFile::Converted, trouble: None },
                    VideoState::Finished,
                )
            } else {
                go_on(VideoActionView::Probe, VideoState::Probing)
            },
        },
        (VideoState::Probing, VideoEvent::Probed(probed)) => match probed {
            Err(m) => give_up(Some(StatusPhase::CompressingFailed), false, m@),
            Ok(info) => match video_budget(
                info.total_bitrate_bps,
                info.audio.reserved_bitrate_bps,
            ) {
                None => give_up(
                    Some(StatusPhase::CompressingFailed),
                    false,
                    "video is too long to fit under 50 MB with a usable bitrate: duration_seconds="@
                        + info.duration_label@,
                ),
                Some(bps) => go_on(
                    VideoActionView::Run {
                        phase: StatusPhase::CompressingMediaPass1,
                        args: first_pass_arguments(bps as u64),
                    },
                    VideoState::FirstPass { bitrate: bps as u64, audio: info.audio },
                ),
            },
        },
        (VideoState::FirstPass { bitrate, audio }, VideoEvent::Ran(ran)) => match run_trouble(
            ran,
            "ffmpeg target-size first pass"@,
        ) {
            Some(m) => give_up(Some(StatusPhase::CompressingFailed), false, m),
            None => go_on(
                VideoActionView::Run {
                    phase: StatusPhase::CompressingMediaPass2,
                    args: second_pass_arguments(bitrate, audio),
                },
                VideoState::SecondPass,
            ),
        },
        (VideoState::SecondPass, VideoEvent::Ran(ran)) => match run_trouble(
            ran,
            "ffmpeg target-size second pass"@,
        ) {
            Some(m) => give_up(Some(StatusPhase::CompressingFailed), true, m),
            None => VideoStepView {
                show: None,
                clean_up: true,
                action: VideoActionView::Measure(VideoFile::Target),
                state: VideoState::MeasuringTarget,
            },
        },
        (VideoState::MeasuringTarget, VideoEvent::Measured(size)) => match size {
            Err(m) => give_up(None, false, m@),
            Ok(_) => go_on(
                VideoActionView::Deliver { file: VideoFile::Target, trouble: None },
                VideoState::Finished,
            ),
        },
        (s, _) => go_on(VideoActionView::Fail(Seq::empty()), VideoState::Finished),
    }
}

/// Why the encoder did not do its work, if it did not.
fn trouble_of(ran: Result<ToolExit, String>, context: &str) -> (r: Option<String>)
    ensures
        crate::json::some_string(r) == run_trouble(ran, context@),
{
    match ran {
        Ok(exit) => match ensure_ffmpeg_success(&exit, context) {
            Ok(_) => None,
            Err(m) => Some(m),
        },
        Err(m) => Some(m),
    }
}

/// Begins the work on a video.
pub fn start_video(with_audio: bool) -> (r: VideoStep)
    ensures
        r@ == video_start(with_audio),
{
    VideoStep {
        show: None,
        clean_up: false,
        action: VideoAction::Run {
            phase: StatusPhase::ConvertingMedia,
            args: convert_args(with_audio),
        },
        state: VideoState::Converting,
    }
}

/// A step that only goes on.
fn on(action: VideoAction, state: VideoState) -> (r: VideoStep)
    ensures
        r@ == go_on(action@, state),
{
    VideoStep { show: None, clean_up: false, action, state }
}

/// A step that gives compression up.
fn abandon(show: Option<StatusPhase>, clean_up: bool, trouble: String) -> (r: VideoStep)
    ensures
        r@ == give_up(show, clean_up, trouble@),
{
    VideoStep {
        show,
        clean_up,
        action: VideoAction::Deliver { file: VideoFile::Converted, trouble: Some(trouble) },
        state: VideoState::Finished,
    }
}

/// Takes the next step of the work on a video.
pub fn advance_video(state: VideoState, event: VideoEvent) -> (r: VideoStep)
    requires
        awaited(state, event),
    ensures
        r@ == video_next(state, event),
{
    match (state, event) {
        (VideoState::Converting, VideoEvent::Ran(ran)) => match trouble_of(ran, "ffmpeg") {
            Some(m) => VideoStep {
                show: Some(StatusPhase::ConvertingFailed),
                clean_up: false,
                action: VideoAction::Fail(m),
                state: VideoState::Finished,
            },
            None => on(VideoAction::Measure(VideoFile::Converted), VideoState::Measuring),
        },
        (VideoState::Measuring, VideoEvent::Measured(size)) => match size {
            Err(m) => on(VideoAction::Fail(m), VideoState::Finished),
            Ok(bytes) => if bytes <= TELEGRAM_UPLOAD_LIMIT_BYTES {
                on(
                    VideoAction::Deliver { file: VideoFile::Converted, trouble: None },
                    VideoState::Finished,
                )
            } else {
                on(VideoAction::Probe, VideoState::Probing)
            },
        },
        (VideoState::Probing, VideoEvent::Probed(probed)) => match probed {
            Err(m) => abandon(Some(StatusPhase::CompressingFailed), false, m),
            Ok(info) => match telegram_target_video_bitrate_bps(
                info.total_bitrate_bps,
                info.audio.reserved_bitrate_bps,
            ) {
                None => {
                    let mut m =
                        "video is too long to fit under 50 MB with a usable bitrate: duration_seconds=".to_owned();
                    m.append(info.duration_label.as_str());
                    abandon(Some(StatusPhase::CompressingFailed), false, m)
                },
                Some(bitrate) => on(
                    VideoAction::Run {
                        phase: StatusPhase::CompressingMediaPass1,
                        args: first_pass_args(bitrate),
                    },
                    VideoState::FirstPass { bitrate, audio: info.audio },
                ),
            },
        },
        (VideoState::FirstPass { bitrate, audio }, VideoEvent::Ran(ran)) => match trouble_of(
            ran,
            "ffmpeg target-size first pass",
        ) {
            Some(m) => abandon(Some(StatusPhase::CompressingFailed), false, m),
            None => on(
                VideoAction::Run {
                    phase: StatusPhase::CompressingMediaPass2,
                    args: second_pass_args(bitrate, &audio),
                },
                VideoState::SecondPass,
            ),
        },
        (VideoState::SecondPass, VideoEvent::Ran(ran)) => match trouble_of(
            ran,
            "ffmpeg target-size second pass",
        ) {
            Some(m) => abandon(Some(StatusPhase::CompressingFailed), true, m),
            None => VideoStep {
                show: None,
                clean_up: true,
                action: VideoAction::Measure(VideoFile::Target),
                state: VideoState::MeasuringTarget,
            },
        },
        (VideoState::MeasuringTarget, VideoEvent::Measured(size)) => match size {
            Err(m) => abandon(None, false, m),
            Ok(_) => on(
                VideoAction::Deliver { file: VideoFile::Target, trouble: None },
                VideoState::Finished,
            ),
        },
        (_, _) => on(VideoAction::Fail(String::new()), VideoState::Finished),
    }
}

/// How many steps lie behind a state.
pub open spec fn steps_done(state: VideoState) -> nat {
    match state {
        VideoState::Converting => 0,
        VideoState::Measuring => 1,
        VideoState::Probing => 2,
        VideoState::FirstPass { .. } => 3,
        VideoState::SecondPass => 4,
        VideoState::MeasuringTarget => 5,
        VideoState::Finished => 6,
    }
}

/// Every step brings the work on a video forward, so that it ends after at most six of them; it
/// ends with a video or a message, and not before.
pub proof fn video_work_ends(state: VideoState, event: VideoEvent)
    requires
        awaited(state, event),
    ensures
        steps_done(video_next(state, event).state) > steps_done(state),
        (video_next(state, event).state is Finished) == (video_next(state, event).action is Deliver
            || video_next(state, event).action is Fail),
{
}

/// Once a video is made and measured, something is delivered whatever becomes of compression.
pub proof fn failed_compression_delivers_the_converted_video(state: VideoState, event: VideoEvent)
    requires
        awaited(state, event),
        state is Probing || state is FirstPass || state is SecondPass || state is MeasuringTarget,
    ensures
        !(video_next(state, event).action is Fail),
        video_next(state, event).show is Some ==> (video_next(
            state,
            event,
        ).action matches VideoActionView::Deliver { file, trouble } && file == VideoFile::Converted
            && trouble is Some),
{
}

/// Only a video over the limit is compressed.
pub proof fn small_videos_are_delivered_as_they_are(bytes: u64)
    ensures
        bytes <= TELEGRAM_UPLOAD_LIMIT_BYTES <==> (video_next(
            VideoState::Measuring,
            VideoEvent::Measured(Ok(bytes)),
        ).action matches VideoActionView::Deliver { file, .. } && file == VideoFile::Converted),
{
}

} // verus!
