use notnotsavebot::encode::{
    advance_video, convert_args, ensure_ffmpeg_success, first_pass_args, image_args,
    passlog_files, read_stream_bitrate_bps, second_pass_args, start_video, target_audio_plan,
    telegram_target_video_bitrate_bps, telegram_video_metadata, tool_failure, video_duration_text,
    video_size, Arg, TargetAudioPlan, TelegramVideoMetadata, ToolExit, VideoAction, VideoEvent,
    VideoFile, VideoReencodeInfo, VideoState, TELEGRAM_REENCODE_AUDIO_BITRATE_BPS,
    TELEGRAM_REENCODE_CONTAINER_OVERHEAD_BPS, TELEGRAM_REENCODE_TARGET_BYTES,
    TELEGRAM_UPLOAD_LIMIT_BYTES,
};
use notnotsavebot::json::{parse_json, Json};
use notnotsavebot::status::StatusPhase;

fn json(text: &str) -> Json {
    parse_json(text).expect("valid JSON")
}

fn total_bitrate(duration_seconds: f64) -> u64 {
    (TELEGRAM_REENCODE_TARGET_BYTES as f64 * 8.0 / duration_seconds) as u64
}

fn shown(args: &[Arg]) -> String {
    let words: Vec<&str> = args
        .iter()
        .map(|arg| match arg {
            Arg::Word(word) => word.as_str(),
            Arg::Input => "IN",
            Arg::Audio => "AUDIO",
            Arg::Output => "OUT",
            Arg::PassLog => "LOG",
        })
        .collect();
    words.join(" ")
}

fn exit(success: bool, status: &str, stderr: &str) -> ToolExit {
    ToolExit { success, status: status.to_string(), stderr: stderr.to_string() }
}

#[test]
fn copies_aac_audio_at_or_below_threshold_for_target_encode() {
    let payload = json(
        r#"{
            "streams": [{
                "codec_type": "audio",
                "codec_name": "aac",
                "bit_rate": "131000"
            }]
        }"#,
    );

    assert_eq!(
        target_audio_plan(&payload),
        TargetAudioPlan {
            copy: true,
            reserved_bitrate_bps: 131_000,
        }
    );
}

#[test]
fn transcodes_audio_above_threshold_for_target_encode() {
    let payload = json(
        r#"{
            "streams": [{
                "codec_type": "audio",
                "codec_name": "aac",
                "bit_rate": "131001"
            }]
        }"#,
    );

    assert_eq!(
        target_audio_plan(&payload),
        TargetAudioPlan {
            copy: false,
            reserved_bitrate_bps: TELEGRAM_REENCODE_AUDIO_BITRATE_BPS,
        }
    );
}

#[test]
fn target_size_bitrate_budget_leaves_upload_headroom() {
    let duration_seconds = 156.0;
    let video_bitrate = telegram_target_video_bitrate_bps(
        total_bitrate(duration_seconds),
        TELEGRAM_REENCODE_AUDIO_BITRATE_BPS,
    )
    .unwrap();
    let total_bitrate = video_bitrate
        + TELEGRAM_REENCODE_AUDIO_BITRATE_BPS
        + TELEGRAM_REENCODE_CONTAINER_OVERHEAD_BPS;
    let estimated_bytes = (total_bitrate as f64 * duration_seconds / 8.0) as u64;

    assert!(estimated_bytes <= TELEGRAM_REENCODE_TARGET_BYTES);
    assert!(estimated_bytes < TELEGRAM_UPLOAD_LIMIT_BYTES);
}

#[test]
fn target_size_bitrate_budget_rejects_too_long_videos() {
    assert!(telegram_target_video_bitrate_bps(
        total_bitrate(1800.0),
        TELEGRAM_REENCODE_AUDIO_BITRATE_BPS
    )
    .is_none());
}

#[test]
fn budgets_are_exact_at_the_edge() {
    assert_eq!(telegram_target_video_bitrate_bps(342_000, 128_000), None);
    assert_eq!(telegram_target_video_bitrate_bps(342_001, 128_000), Some(150_001));
}

#[test]
fn other_sound_is_encoded_anew() {
    let new_sound = TargetAudioPlan { copy: false, reserved_bitrate_bps: 128_000 };
    assert_eq!(target_audio_plan(&Json::Null), new_sound);
    assert_eq!(
        target_audio_plan(&json(
            r#"{"streams":[{"codec_type":"audio","codec_name":"opus","bit_rate":"64000"}]}"#
        )),
        new_sound
    );
    assert_eq!(
        target_audio_plan(&json(r#"{"streams":[{"codec_type":"audio","codec_name":"aac"}]}"#)),
        new_sound
    );
    assert_eq!(
        target_audio_plan(&json(
            r#"{"streams":[{"codec_type":"video","codec_name":"aac","bit_rate":"1"},
                {"codec_type":"audio","codec_name":"aac","bit_rate":"2"}]}"#
        )),
        TargetAudioPlan { copy: true, reserved_bitrate_bps: 2 }
    );
    assert_eq!(read_stream_bitrate_bps(&json(r#"{"bit_rate":"x"}"#)), None);
    assert_eq!(read_stream_bitrate_bps(&json(r#"{"bit_rate":5}"#)), None);
}

#[test]
fn video_facts_are_read_from_the_probe() {
    let payload = json(
        r#"{"streams":[{"width":640,"height":360},{"width":1,"height":1}],
            "format":{"duration":"12.34"}}"#,
    );
    assert_eq!(video_size(&payload), Some((640, 360)));
    assert_eq!(video_duration_text(&payload), Some("12.34"));
    assert_eq!(
        telegram_video_metadata(&payload, Some(13)),
        Some(TelegramVideoMetadata { width: 640, height: 360, duration_seconds: 13 })
    );
    assert_eq!(telegram_video_metadata(&payload, None), None);
    assert_eq!(video_size(&json(r#"{"streams":[]}"#)), None);
    assert_eq!(video_size(&json(r#"{"streams":[{"width":4294967296,"height":1}]}"#)), None);
    assert_eq!(video_duration_text(&json(r#"{"format":{"duration":3}}"#)), None);
}

#[test]
fn encoder_jobs_are_spelled_out() {
    assert_eq!(
        shown(&convert_args(false)),
        "-y -nostdin -i IN -map 0:v:0 -map 0:a:0? -c:a aac -b:a 128k -c:v libx264 -preset veryfast \
         -vf scale=trunc(iw/2)*2:trunc(ih/2)*2,setsar=1 -pix_fmt yuv420p -movflags +faststart OUT \
         -progress pipe:2"
    );
    assert_eq!(
        shown(&convert_args(true)),
        "-y -nostdin -i IN -i AUDIO -map 0:v:0 -map 1:a:0 -c:a aac -b:a 128k -c:v libx264 \
         -preset veryfast -vf scale=trunc(iw/2)*2:trunc(ih/2)*2,setsar=1 -pix_fmt yuv420p \
         -movflags +faststart OUT -progress pipe:2"
    );
    assert_eq!(
        shown(&first_pass_args(1_234_567)),
        "-y -nostdin -i IN -map 0:v:0 -c:v libx264 -preset veryfast -b:v 1234k \
         -vf scale=trunc(iw/2)*2:trunc(ih/2)*2,setsar=1 -pix_fmt yuv420p -pass 1 -passlogfile LOG \
         -an -f null - -progress pipe:2"
    );
    let copied = TargetAudioPlan { copy: true, reserved_bitrate_bps: 1 };
    let anew = TargetAudioPlan { copy: false, reserved_bitrate_bps: 128_000 };
    assert_eq!(
        shown(&second_pass_args(999, &copied)),
        "-y -nostdin -i IN -map 0:v:0 -map 0:a:0? -c:v libx264 -preset veryfast -b:v 0k \
         -vf scale=trunc(iw/2)*2:trunc(ih/2)*2,setsar=1 -pix_fmt yuv420p -pass 2 -passlogfile LOG \
         -c:a copy -movflags +faststart OUT -progress pipe:2"
    );
    assert!(shown(&second_pass_args(999, &anew)).contains("-c:a aac -b:a 128k -movflags"));
    assert_eq!(shown(&image_args()), "-y -nostdin -i IN -frames:v 1 OUT");
}

#[test]
fn notes_of_the_first_pass_are_found() {
    assert_eq!(
        passlog_files("/tmp/log"),
        vec![
            "/tmp/log-0.log",
            "/tmp/log-0.log.mbtree",
            "/tmp/log.log",
            "/tmp/log.log.mbtree"
        ]
    );
}

#[test]
fn failures_of_tools_tell_what_was_said() {
    assert_eq!(tool_failure("ffmpeg", "exit 1", "  \n"), "ffmpeg failed with status exit 1");
    assert_eq!(
        tool_failure("ffmpeg", "exit 1", " bad input\n"),
        "ffmpeg failed with status exit 1: bad input"
    );
    assert!(ensure_ffmpeg_success(&exit(true, "exit 0", "noise"), "ffmpeg").is_ok());
    assert_eq!(
        ensure_ffmpeg_success(&exit(false, "exit 2", ""), "ffprobe").unwrap_err(),
        "ffprobe failed with status exit 2"
    );
}

#[test]
fn small_videos_are_delivered_at_once() {
    let step = start_video(false);
    assert_eq!(step.state, VideoState::Converting);
    let step = advance_video(step.state, VideoEvent::Ran(Ok(exit(true, "0", ""))));
    assert_eq!(step.action, VideoAction::Measure(VideoFile::Converted));
    let step = advance_video(step.state, VideoEvent::Measured(Ok(50_000_000)));
    assert_eq!(
        step.action,
        VideoAction::Deliver { file: VideoFile::Converted, trouble: None }
    );
    assert_eq!(step.state, VideoState::Finished);
}

#[test]
fn large_videos_are_compressed_in_two_passes() {
    let audio = TargetAudioPlan { copy: true, reserved_bitrate_bps: 100_000 };
    let step = advance_video(VideoState::Measuring, VideoEvent::Measured(Ok(50_000_001)));
    assert_eq!(step.action, VideoAction::Probe);
    let step = advance_video(
        step.state,
        VideoEvent::Probed(Ok(VideoReencodeInfo {
            total_bitrate_bps: 2_000_000,
            duration_label: "192.0".to_string(),
            audio,
        })),
    );
    assert_eq!(step.state, VideoState::FirstPass { bitrate: 1_836_000, audio });
    assert_eq!(
        step.action,
        VideoAction::Run {
            phase: StatusPhase::CompressingMediaPass1,
            args: first_pass_args(1_836_000)
        }
    );
    let step = advance_video(step.state, VideoEvent::Ran(Ok(exit(true, "0", ""))));
    assert_eq!(
        step.action,
        VideoAction::Run {
            phase: StatusPhase::CompressingMediaPass2,
            args: second_pass_args(1_836_000, &audio)
        }
    );
    let step = advance_video(step.state, VideoEvent::Ran(Ok(exit(true, "0", ""))));
    assert!(step.clean_up);
    assert_eq!(step.action, VideoAction::Measure(VideoFile::Target));
    let step = advance_video(step.state, VideoEvent::Measured(Ok(99_000_000)));
    assert_eq!(
        step.action,
        VideoAction::Deliver { file: VideoFile::Target, trouble: None }
    );
}

#[test]
fn failed_conversion_delivers_nothing() {
    let step = advance_video(
        VideoState::Converting,
        VideoEvent::Ran(Ok(exit(false, "exit 1", "no codec"))),
    );
    assert_eq!(step.show, Some(StatusPhase::ConvertingFailed));
    assert_eq!(
        step.action,
        VideoAction::Fail("ffmpeg failed with status exit 1: no codec".to_string())
    );
    let step = advance_video(VideoState::Measuring, VideoEvent::Measured(Err("gone".to_string())));
    assert_eq!(step.show, None);
    assert_eq!(step.action, VideoAction::Fail("gone".to_string()));
}

#[test]
fn failed_compression_delivers_the_converted_video() {
    let audio = TargetAudioPlan { copy: false, reserved_bitrate_bps: 128_000 };
    let steps = [
        advance_video(VideoState::Probing, VideoEvent::Probed(Err("no probe".to_string()))),
        advance_video(
            VideoState::FirstPass { bitrate: 1, audio },
            VideoEvent::Ran(Err("no encoder".to_string())),
        ),
        advance_video(VideoState::SecondPass, VideoEvent::Ran(Ok(exit(false, "exit 9", "")))),
    ];
    for step in steps {
        assert_eq!(step.show, Some(StatusPhase::CompressingFailed));
        assert!(matches!(
            step.action,
            VideoAction::Deliver { file: VideoFile::Converted, trouble: Some(_) }
        ));
    }
    let step = advance_video(
        VideoState::Probing,
        VideoEvent::Probed(Ok(VideoReencodeInfo {
            total_bitrate_bps: 342_000,
            duration_label: "1122.8".to_string(),
            audio,
        })),
    );
    assert_eq!(
        step.action,
        VideoAction::Deliver {
            file: VideoFile::Converted,
            trouble: Some(
                "video is too long to fit under 50 MB with a usable bitrate: \
                 duration_seconds=1122.8"
                    .to_string()
            )
        }
    );
    let step = advance_video(
        VideoState::MeasuringTarget,
        VideoEvent::Measured(Err("gone".to_string())),
    );
    assert_eq!(step.show, None);
    assert!(matches!(
        step.action,
        VideoAction::Deliver { file: VideoFile::Converted, .. }
    ));
}
