//! What becomes of a downloaded video.
use vstd::prelude::*;

use crate::encode::{
    audio_from, audio_plan, convert_arguments, failure_message, first_pass_arguments, rate_text,
    second_pass_arguments, stream_bitrate, stream_size, video_budget, video_next, video_start,
    ArgView, TargetAudioPlan, ToolExit, VideoActionView, VideoEvent, VideoFile, VideoReencodeInfo,
    VideoState,
};
use crate::json::JsonTree;
use crate::laws::texts::{all_white, blank_texts_are_white};
use crate::numbers::{decimal, decimal_reads_back, digits_value, lemma_decimal_digits, number_read};
use crate::status::StatusPhase;
use crate::text::trim;

verus! {

// ---------------------------------------------------------------------------
// Which file is delivered
// ---------------------------------------------------------------------------

/// Once the compressed video was written and measured it is the one that is delivered, whatever
/// its size is, and nothing is noted or shown as failed. So what is delivered after a compression
/// that came out within the limit is within the limit.
pub proof fn compressed_video_is_delivered(size: u64)
    ensures
        ({
            let step = video_next(VideoState::MeasuringTarget, VideoEvent::Measured(Ok(size)));
            &&& step.action == (VideoActionView::Deliver { file: VideoFile::Target, trouble: None })
            &&& step.state is Finished
            &&& step.show is None
        }),
{
}

/// A video that was made within the limit is delivered at once; a larger one is compressed.
pub proof fn limit_decides_on_compression(size: u64)
    ensures
        ({
            let step = video_next(VideoState::Measuring, VideoEvent::Measured(Ok(size)));
            &&& step.show is None
            &&& size <= 50_000_000 ==> step.action == (VideoActionView::Deliver {
                file: VideoFile::Converted,
                trouble: None,
            })
            &&& size > 50_000_000 ==> step.action is Probe && step.state is Probing
        }),
{
}

/// The whole way of a video over the limit when every tool does its work: it is made, measured,
/// looked into, compressed in two passes and measured again, and the compressed file is delivered.
/// No failure is shown on the way, and the notes of the first pass are removed after the second.
pub proof fn large_videos_are_compressed(
    with_audio: bool,
    made: ToolExit,
    size: u64,
    info: VideoReencodeInfo,
    first: ToolExit,
    second: ToolExit,
    target_size: u64,
)
    requires
        made.success,
        first.success,
        second.success,
        size > 50_000_000,
        info.audio.reserved_bitrate_bps <= 131_000,
        info.total_bitrate_bps > info.audio.reserved_bitrate_bps + 64_000 + 150_000,
    ensures
        ({
            let s0 = video_start(with_audio);
            let s1 = video_next(s0.state, VideoEvent::Ran(Ok(made)));
            let s2 = video_next(s1.state, VideoEvent::Measured(Ok(size)));
            let s3 = video_next(s2.state, VideoEvent::Probed(Ok(info)));
            let s4 = video_next(s3.state, VideoEvent::Ran(Ok(first)));
            let s5 = video_next(s4.state, VideoEvent::Ran(Ok(second)));
            let s6 = video_next(s5.state, VideoEvent::Measured(Ok(target_size)));
            let picture = info.total_bitrate_bps - info.audio.reserved_bitrate_bps - 64_000;
            let rate = ArgView::Word(decimal((picture / 1000) as nat) + "k"@);
            &&& s0.action is Run && s0.action->phase == StatusPhase::ConvertingMedia
            &&& s1.action == VideoActionView::Measure(VideoFile::Converted)
            &&& s2.action is Probe
            &&& s3.action is Run && s3.action->phase == StatusPhase::CompressingMediaPass1
            &&& told(s3.action->args, "-b:v"@, rate)
            &&& told(s3.action->args, "-pass"@, ArgView::Word("1"@))
            &&& s4.action is Run && s4.action->phase == StatusPhase::CompressingMediaPass2
            &&& told(s4.action->args, "-b:v"@, rate)
            &&& told(s4.action->args, "-pass"@, ArgView::Word("2"@))
            &&& info.audio.copy ==> told(s4.action->args, "-c:a"@, ArgView::Word("copy"@))
            &&& !info.audio.copy ==> told(s4.action->args, "-c:a"@, ArgView::Word("aac"@))
            &&& s5.action == VideoActionView::Measure(VideoFile::Target)
            &&& s5.clean_up
            &&& s6.action == (VideoActionView::Deliver { file: VideoFile::Target, trouble: None })
            &&& s0.show is None && s1.show is None && s2.show is None && s3.show is None
            &&& s4.show is None && s5.show is None && s6.show is None
            &&& !s1.clean_up && !s2.clean_up && !s3.clean_up && !s4.clean_up
        }),
{
    let picture = (info.total_bitrate_bps - info.audio.reserved_bitrate_bps - 64_000) as u64;
    assert(video_budget(info.total_bitrate_bps, info.audio.reserved_bitrate_bps) == Some(
        picture as int,
    ));
    passes_are_told_what_to_do(picture, info.audio);
    assert(rate_text(picture) == decimal((picture / 1000) as nat) + "k"@);
}

/// A video that could not be made is not delivered: the failure is shown, and it says why.
pub proof fn failed_conversion_fails(exit: ToolExit, reason: String)
    requires
        !exit.success,
    ensures
        ({
            let ended = video_next(VideoState::Converting, VideoEvent::Ran(Ok(exit)));
            let never = video_next(VideoState::Converting, VideoEvent::Ran(Err(reason)));
            &&& ended.action == VideoActionView::Fail(
                failure_message("ffmpeg"@, exit.status@, exit.stderr@),
            )
            &&& never.action == VideoActionView::Fail(reason@)
            &&& ended.show == Some(StatusPhase::ConvertingFailed)
            &&& never.show == Some(StatusPhase::ConvertingFailed)
        }),
{
}

/// Where compressing fails, the video that was made is delivered, and what went wrong is noted: a
/// tool that could not be run, one that failed, or a video that is too long to be compressed.
pub proof fn failed_compression_is_noted(
    bitrate: u64,
    audio: TargetAudioPlan,
    exit: ToolExit,
    reason: String,
    info: VideoReencodeInfo,
)
    requires
        !exit.success,
        info.audio.reserved_bitrate_bps <= 131_000,
        info.total_bitrate_bps <= info.audio.reserved_bitrate_bps + 64_000 + 150_000,
    ensures
        ({
            let pass1 = VideoState::FirstPass { bitrate, audio };
            &&& gives_up(video_next(VideoState::Probing, VideoEvent::Probed(Err(reason))), reason@)
            &&& gives_up(video_next(pass1, VideoEvent::Ran(Err(reason))), reason@)
            &&& gives_up(
                video_next(pass1, VideoEvent::Ran(Ok(exit))),
                failure_message("ffmpeg target-size first pass"@, exit.status@, exit.stderr@),
            )
            &&& gives_up(video_next(VideoState::SecondPass, VideoEvent::Ran(Err(reason))), reason@)
            &&& gives_up(
                video_next(VideoState::SecondPass, VideoEvent::Ran(Ok(exit))),
                failure_message("ffmpeg target-size second pass"@, exit.status@, exit.stderr@),
            )
            &&& gives_up(
                video_next(VideoState::Probing, VideoEvent::Probed(Ok(info))),
                "video is too long to fit under 50 MB with a usable bitrate: duration_seconds="@
                    + info.duration_label@,
            )
            &&& video_next(VideoState::SecondPass, VideoEvent::Ran(Ok(exit))).clean_up
            &&& video_next(VideoState::SecondPass, VideoEvent::Ran(Err(reason))).clean_up
            &&& video_next(
                VideoState::MeasuringTarget,
                VideoEvent::Measured(Err(reason)),
            ).action == (VideoActionView::Deliver {
                file: VideoFile::Converted,
                trouble: Some(reason@),
            })
        }),
{
}

/// Whether a step delivers the converted video, notes the trouble and shows that compressing
/// failed.
pub open spec fn gives_up(step: crate::encode::VideoStepView, trouble: Seq<char>) -> bool {
    &&& step.action == (VideoActionView::Deliver {
        file: VideoFile::Converted,
        trouble: Some(trouble),
    })
    &&& step.show == Some(StatusPhase::CompressingFailed)
    &&& step.state is Finished
}

/// A tool that failed is named with how it ended and, if it said anything, what it said.
pub proof fn failures_tell_what_was_said(
    context: Seq<char>,
    status: Seq<char>,
    stderr: Seq<char>,
)
    ensures
        all_white(stderr) ==> failure_message(context, status, stderr) == context
            + " failed with status "@ + status,
        !all_white(stderr) ==> failure_message(context, status, stderr) == context
            + " failed with status "@ + status + ": "@ + trim(stderr),
{
    blank_texts_are_white(stderr);
}

/// The three shares of the whole bit rate add up to it, and a picture gets more than the least
/// that is worth watching or nothing is compressed.
pub proof fn bit_rates_add_up(total: u64, audio: u64)
    ensures
        video_budget(total, audio) is Some <==> total > audio + 64_000 + 150_000,
        video_budget(total, audio) matches Some(picture) ==> picture + audio + 64_000 == total,
{
}

// ---------------------------------------------------------------------------
// What the encoder is told
// ---------------------------------------------------------------------------

/// Whether the arguments hold a word with something right behind it.
pub open spec fn told(args: Seq<ArgView>, word: Seq<char>, next: ArgView) -> bool {
    exists|i: int|
        0 <= i < args.len() - 1 && #[trigger] args[i] == ArgView::Word(word) && args[i + 1] == next
}

/// A video is made of the picture of the input and the sound of the other file, or of the input
/// where there is no other file; it is coded for phones and written to the output.
pub proof fn conversion_is_told_what_to_do(with_audio: bool)
    ensures
        ({
            let args = convert_arguments(with_audio);
            &&& told(args, "-i"@, ArgView::Input)
            &&& told(args, "-i"@, ArgView::Audio) == with_audio
            &&& told(args, "-map"@, ArgView::Word("0:v:0"@))
            &&& with_audio ==> told(args, "-map"@, ArgView::Word("1:a:0"@))
            &&& !with_audio ==> told(args, "-map"@, ArgView::Word("0:a:0?"@))
            &&& told(args, "-c:a"@, ArgView::Word("aac"@))
            &&& told(args, "-b:a"@, ArgView::Word("128k"@))
            &&& told(args, "-c:v"@, ArgView::Word("libx264"@))
            &&& told(args, "-pix_fmt"@, ArgView::Word("yuv420p"@))
            &&& told(args, "-progress"@, ArgView::Word("pipe:2"@))
            &&& args[args.len() - 3] == ArgView::Output
        }),
{
    let args = convert_arguments(with_audio);
    let b = if with_audio {
        6int
    } else {
        4int
    };
    assert(args[2] == ArgView::Word("-i"@) && args[3] == ArgView::Input);
    if with_audio {
        assert(args[4] == ArgView::Word("-i"@) && args[5] == ArgView::Audio);
    } else {
        assert forall|i: int| 0 <= i < args.len() implies #[trigger] args[i] != ArgView::Audio by {}
    }
    assert(args[b] == ArgView::Word("-map"@) && args[b + 1] == ArgView::Word("0:v:0"@));
    assert(args[b + 2] == ArgView::Word("-map"@));
    assert(args[b + 4] == ArgView::Word("-c:a"@) && args[b + 5] == ArgView::Word("aac"@));
    assert(args[b + 6] == ArgView::Word("-b:a"@) && args[b + 7] == ArgView::Word("128k"@));
    assert(args[b + 8] == ArgView::Word("-c:v"@) && args[b + 9] == ArgView::Word("libx264"@));
    assert(args[b + 14] == ArgView::Word("-pix_fmt"@) && args[b + 15] == ArgView::Word("yuv420p"@));
    assert(args[b + 19] == ArgView::Word("-progress"@) && args[b + 20] == ArgView::Word("pipe:2"@));
    assert(args.len() == b + 21);
}

/// Both passes read the converted video and code the picture at the same bit rate; the first only
/// leaves notes, and the second uses them to write the file, with the sound that is planned.
pub proof fn passes_are_told_what_to_do(bitrate: u64, audio: TargetAudioPlan)
    ensures
        ({
            let first = first_pass_arguments(bitrate);
            let second = second_pass_arguments(bitrate, audio);
            let rate = ArgView::Word(rate_text(bitrate));
            &&& told(first, "-i"@, ArgView::Input)
            &&& told(second, "-i"@, ArgView::Input)
            &&& told(first, "-b:v"@, rate)
            &&& told(second, "-b:v"@, rate)
            &&& told(first, "-pass"@, ArgView::Word("1"@))
            &&& told(second, "-pass"@, ArgView::Word("2"@))
            &&& told(first, "-passlogfile"@, ArgView::PassLog)
            &&& told(second, "-passlogfile"@, ArgView::PassLog)
            &&& !first.contains(ArgView::Output)
            &&& second[second.len() - 3] == ArgView::Output
            &&& told(second, "-map"@, ArgView::Word("0:a:0?"@))
            &&& audio.copy ==> told(second, "-c:a"@, ArgView::Word("copy"@))
            &&& !audio.copy ==> told(second, "-c:a"@, ArgView::Word("aac"@))
            &&& !audio.copy ==> told(second, "-b:a"@, ArgView::Word(rate_text(128_000)))
        }),
{
    let first = first_pass_arguments(bitrate);
    let second = second_pass_arguments(bitrate, audio);
    let rate = ArgView::Word(rate_text(bitrate));
    assert(first[2] == ArgView::Word("-i"@) && first[3] == ArgView::Input);
    assert(second[2] == ArgView::Word("-i"@) && second[3] == ArgView::Input);
    assert(first[10] == ArgView::Word("-b:v"@) && first[11] == rate);
    assert(second[12] == ArgView::Word("-b:v"@) && second[13] == rate);
    assert(first[16] == ArgView::Word("-pass"@) && first[17] == ArgView::Word("1"@));
    assert(second[18] == ArgView::Word("-pass"@) && second[19] == ArgView::Word("2"@));
    assert(first[18] == ArgView::Word("-passlogfile"@) && first[19] == ArgView::PassLog);
    assert(second[20] == ArgView::Word("-passlogfile"@) && second[21] == ArgView::PassLog);
    assert forall|i: int| 0 <= i < first.len() implies #[trigger] first[i] != ArgView::Output by {}
    assert(second[6] == ArgView::Word("-map"@) && second[7] == ArgView::Word("0:a:0?"@));
    assert(second[22] == ArgView::Word("-c:a"@));
    if audio.copy {
        assert(second[23] == ArgView::Word("copy"@));
    } else {
        assert(second[23] == ArgView::Word("aac"@));
        assert(second[24] == ArgView::Word("-b:a"@));
        assert(second[25] == ArgView::Word(rate_text(128_000)));
    }
}

/// A bit rate is written in whole thousands.
pub proof fn rates_are_written_in_thousands(thousands: u64, rest: u64)
    requires
        rest < 1000,
        thousands * 1000 + rest <= u64::MAX,
    ensures
        rate_text((thousands * 1000 + rest) as u64) == decimal(thousands as nat) + "k"@,
{
    assert((thousands * 1000 + rest) / 1000 == thousands) by (nonlinear_arith)
        requires
            rest < 1000,
    ;
}

// ---------------------------------------------------------------------------
// What is known of a video
// ---------------------------------------------------------------------------

proof fn lemma_audio_from(streams: Seq<JsonTree>, i: int, k: int)
    requires
        0 <= i <= k < streams.len(),
        streams[k].text_at("codec_type"@) == Some("audio"@),
        forall|j: int|
            i <= j < k ==> (#[trigger] streams[j]).text_at("codec_type"@) != Some("audio"@),
    ensures
        audio_from(streams, i) == Some(streams[k]),
    decreases k - i,
{
    if i < k {
        assert(streams[i].text_at("codec_type"@) != Some("audio"@));
        lemma_audio_from(streams, i + 1, k);
    }
}

/// The sound of a video is kept exactly if its first stream of sound is coded as AAC at no more
/// than 131 thousand bits a second, and then its bit rate is what is set aside; any other sound is
/// coded anew, at 128 thousand.
pub proof fn small_aac_sound_is_kept(payload: JsonTree, streams: Seq<JsonTree>, k: int, n: nat)
    requires
        payload.get("streams"@) == Some(JsonTree::Array(streams)),
        0 <= k < streams.len(),
        streams[k].text_at("codec_type"@) == Some("audio"@),
        forall|j: int|
            0 <= j < k ==> (#[trigger] streams[j]).text_at("codec_type"@) != Some("audio"@),
        streams[k].text_at("bit_rate"@) == Some(decimal(n)),
    ensures
        audio_plan(payload).copy <==> (streams[k].text_at("codec_name"@) == Some("aac"@) && n
            <= 131_000),
        audio_plan(payload).reserved_bitrate_bps == if audio_plan(payload).copy {
            n as int
        } else {
            128_000
        },
{
    lemma_audio_from(streams, 0, k);
    decimal_reads_back(n);
    lemma_decimal_digits(n);
    let s = decimal(n);
    assert(crate::text::ascii_digit(s[0]));
    assert(digits_value(s) == n);
    assert(stream_bitrate(streams[k]) == number_read(s, u64::MAX as nat));
}

/// A video without sound, or with sound of which the bit rate is not known, is coded with sound
/// anew.
pub proof fn other_sound_is_coded_anew(payload: JsonTree, streams: Seq<JsonTree>)
    requires
        payload.get("streams"@) == Some(JsonTree::Array(streams)),
        forall|j: int|
            0 <= j < streams.len() ==> (#[trigger] streams[j]).text_at("codec_type"@) != Some(
                "audio"@,
            ) || streams[j].text_at("bit_rate"@) is None,
    ensures
        audio_plan(payload) == (TargetAudioPlan { copy: false, reserved_bitrate_bps: 128_000 }),
{
    lemma_unrated(streams, 0);
}

proof fn lemma_unrated(streams: Seq<JsonTree>, i: int)
    requires
        0 <= i <= streams.len(),
        forall|j: int|
            0 <= j < streams.len() ==> (#[trigger] streams[j]).text_at("codec_type"@) != Some(
                "audio"@,
            ) || streams[j].text_at("bit_rate"@) is None,
    ensures
        audio_from(streams, i) matches Some(s) ==> s.text_at("bit_rate"@) is None,
    decreases streams.len() - i,
{
    if i < streams.len() {
        assert(streams[i].text_at("codec_type"@) != Some("audio"@) || streams[i].text_at(
            "bit_rate"@,
        ) is None);
        lemma_unrated(streams, i + 1);
    }
}

/// The size of a video is that of its first stream, if both numbers are there and fit.
pub proof fn size_is_that_of_the_first_stream(
    payload: JsonTree,
    streams: Seq<JsonTree>,
    width: u64,
    height: u64,
)
    requires
        payload.get("streams"@) == Some(JsonTree::Array(streams)),
        streams.len() > 0,
        streams[0].get("width"@) matches Some(w) && w.unsigned() == Some(width),
        streams[0].get("height"@) matches Some(h) && h.unsigned() == Some(height),
    ensures
        width <= 0xffff_ffff && height <= 0xffff_ffff ==> stream_size(payload) == Some(
            (width as u32, height as u32),
        ),
        width > 0xffff_ffff || height > 0xffff_ffff ==> stream_size(payload) is None,
{
}

/// What the first pass left is cleaned up after the second pass, whether that succeeded or not, and at
/// no other time.
pub proof fn second_pass_cleans_up(state: VideoState, event: VideoEvent)
    ensures
        video_next(state, event).clean_up <==> state is SecondPass && event is Ran,
{
}

/// A converted video whose size cannot be told is not delivered.
pub proof fn unmeasured_videos_fail(message: String)
    ensures
        ({
            let next = video_next(VideoState::Measuring, VideoEvent::Measured(Err(message)));
            next.action == VideoActionView::Fail(message@) && next.show is None
        }),
{
}

} // verus!
