use notnotsavebot::delivery::{
    delivery_error_text, file_kind, file_too_large_text, files_too_large_text, image_sequence,
    image_step, is_description_file, is_image_path, is_info_file, item_dir_has_deliverable_files,
    oversized_telegram_file_size, plan_delivery, plan_sending, renamed, DeliveryPlan, FileKind,
    ImageStep, Notice, Upload,
};
use notnotsavebot::download::{
    advance_download, download_failed_text, numbered, phase_after_failure, prepare_response,
    start_download, yt_dlp_args, yt_dlp_failure, Attempt, DownloadAction, DownloadEvent,
    DownloadState,
};
use notnotsavebot::encode::ToolExit;
use notnotsavebot::images::Platform;
use notnotsavebot::metadata::DeliveryFilenameMetadata;
use notnotsavebot::status::StatusPhase;

fn metadata() -> DeliveryFilenameMetadata {
    DeliveryFilenameMetadata {
        filename_username: "me".to_string(),
        platform_name: "X".to_string(),
        source_name: "Me".to_string(),
        source_handle: Some("@me".to_string()),
        date: "2024.01.31".to_string(),
        title: "Hi".to_string(),
    }
}

fn exit(success: bool, status: &str, stderr: &str) -> ToolExit {
    ToolExit { success, status: status.to_string(), stderr: stderr.to_string() }
}

fn names(list: &[&str]) -> Vec<Vec<u8>> {
    list.iter().map(|name| name.as_bytes().to_vec()).collect()
}

fn strings(list: &[&str]) -> Vec<String> {
    list.iter().map(|text| text.to_string()).collect()
}

#[test]
fn files_are_told_by_extension() {
    assert_eq!(file_kind(Some("mp4")), FileKind::Video);
    assert_eq!(file_kind(Some("m4a")), FileKind::Audio);
    assert_eq!(file_kind(Some("webp")), FileKind::Image);
    assert_eq!(file_kind(Some("JPG")), FileKind::Other);
    assert_eq!(file_kind(None), FileKind::Other);
    assert!(item_dir_has_deliverable_files(&vec![None, Some("png".to_string())]));
    assert!(!item_dir_has_deliverable_files(&vec![Some("m4a".to_string()), None]));
    assert!(is_description_file(Some("description")));
    assert!(!is_description_file(None));
    assert!(is_info_file(Some("json"), "/a/b.info.json"));
    assert!(!is_info_file(Some("json"), "/a/b.json"));
}

#[test]
fn videos_come_before_images() {
    let kinds = vec![FileKind::Image, FileKind::Video, FileKind::Audio, FileKind::Video];
    assert_eq!(
        plan_delivery(&names(&["a.jpg", "z.mp4", "b.m4a", "c.mp4"]), &kinds),
        DeliveryPlan::Video { video: 3, audio: Some(2) }
    );
    assert_eq!(
        plan_delivery(&names(&["z.mp4"]), &vec![FileKind::Video]),
        DeliveryPlan::Video { video: 0, audio: None }
    );
}

#[test]
fn images_come_in_the_order_of_their_names() {
    let kinds = vec![FileKind::Image, FileKind::Other, FileKind::Image, FileKind::Image];
    assert_eq!(
        plan_delivery(&names(&["c.jpg", "a.json", "B.png", "b.webp"]), &kinds),
        DeliveryPlan::Images(vec![2, 3, 0])
    );
    assert_eq!(
        plan_delivery(&names(&["a.m4a"]), &vec![FileKind::Audio]),
        DeliveryPlan::Nothing
    );
}

#[test]
fn delivered_files_get_names() {
    assert_eq!(
        renamed(&metadata(), None, Some("mp4"), "/x/delivery.mp4").unwrap(),
        "me_2024_01_31_Hi.mp4"
    );
    assert_eq!(
        renamed(&metadata(), None, None, "/x/delivery").unwrap_err(),
        "downloaded media file has no extension: /x/delivery"
    );
    assert_eq!(image_sequence(0, 1), None);
    assert_eq!(image_sequence(1, 3), Some(2));
    assert_eq!(
        image_step(&metadata(), Some(2), Some("png")),
        ImageStep::Rename("me_2024_01_31_Hi_02.png".to_string())
    );
    assert_eq!(
        image_step(&metadata(), None, Some("webp")),
        ImageStep::Transcode("me_2024_01_31_Hi.jpg".to_string())
    );
}

#[test]
fn single_files_are_sent_as_what_they_are() {
    assert!(is_image_path("/a/b.webp"));
    assert!(!is_image_path("/a/b.mp4"));
    assert_eq!(
        plan_sending(&strings(&["/a/b.jpg"]), &vec![50_000_000]),
        (Upload::Photo(0), Notice::Nothing)
    );
    assert_eq!(
        plan_sending(&strings(&["/a/b.mp4"]), &vec![1]),
        (Upload::Video(0), Notice::Nothing)
    );
    assert_eq!(
        plan_sending(&strings(&["/a/b.mp4"]), &vec![50_000_001]),
        (Upload::Nothing, Notice::OneTooLarge { size: 50_000_001 })
    );
}

#[test]
fn of_several_files_the_large_ones_are_left_out() {
    let files = strings(&["a.jpg", "b.jpg", "c.jpg"]);
    assert_eq!(
        plan_sending(&files, &vec![1, 2, 3]),
        (Upload::Album(vec![0, 1, 2]), Notice::Nothing)
    );
    assert_eq!(
        plan_sending(&files, &vec![60_000_000, 2, 70_000_000]),
        (
            Upload::Photo(1),
            Notice::SomeTooLarge { skipped: 2, largest: 70_000_000 }
        )
    );
    assert_eq!(
        plan_sending(&files, &vec![60_000_000, 80_000_000, 70_000_000]),
        (
            Upload::Nothing,
            Notice::SomeTooLarge { skipped: 3, largest: 80_000_000 }
        )
    );
    assert_eq!(plan_sending(&vec![], &vec![]), (Upload::Nothing, Notice::Nothing));
    assert_eq!(oversized_telegram_file_size(50_000_000), None);
    assert_eq!(oversized_telegram_file_size(50_000_001), Some(50_000_001));
}

#[test]
fn notices_name_the_sizes() {
    assert_eq!(
        file_too_large_text("61.2 MB"),
        "The downloaded file is 61.2 MB, which is over Telegram's 50 MB bot upload limit, so I did not send it."
    );
    assert_eq!(
        files_too_large_text(1, "61.2 MB"),
        "1 downloaded file was over Telegram's 50 MB bot upload limit and were not sent. The largest was 61.2 MB."
    );
    assert_eq!(
        files_too_large_text(12, "61.2 MB"),
        "12 downloaded files were over Telegram's 50 MB bot upload limit and were not sent. The largest was 61.2 MB."
    );
    assert!(delivery_error_text(true).contains("larger than the 50 MB"));
    assert!(delivery_error_text(false).contains("try again later"));
}

#[test]
fn the_downloader_is_told_what_to_do() {
    assert_eq!(
        yt_dlp_args("https://youtu.be/1", "/d/%(id)s", Attempt::Preferred).join(" "),
        "-f bv*[ext=mp4]+ba[ext=m4a]/b[ext=mp4]/b --merge-output-format mp4 -S res,vcodec:h265:h264 \
         --newline --progress --progress-delta 1 --write-info-json --write-description \
         --convert-thumbnails jpg --output /d/%(id)s https://youtu.be/1"
    );
    assert_eq!(
        yt_dlp_args("https://youtu.be/1", "/d/%(id)s", Attempt::AnyFormat).join(" "),
        "--newline --progress --progress-delta 1 --write-info-json --write-description \
         --convert-thumbnails jpg --output /d/%(id)s https://youtu.be/1"
    );
}

#[test]
fn downloads_go_through_all_steps() {
    let (address, step) = start_download(" example.com/post ");
    assert_eq!(address, "https://example.com/post");
    assert_eq!(step.show, Some(StatusPhase::DownloadingMedia));
    assert_eq!(step.action, DownloadAction::Run(Attempt::Preferred));
    let step = advance_download(
        &address,
        step.state,
        DownloadEvent::Ran(Ok(exit(true, "exit status: 0", ""))),
    );
    assert_eq!(step.action, DownloadAction::Fetch(Platform::Instagram));
    let step = advance_download(&address, step.state, DownloadEvent::Fetched(Ok(())));
    assert_eq!(step.action, DownloadAction::Fetch(Platform::Twitter));
    let step = advance_download(&address, step.state, DownloadEvent::Fetched(Ok(())));
    assert_eq!(step.action, DownloadAction::Fetch(Platform::Bluesky));
    let step = advance_download(&address, step.state, DownloadEvent::Fetched(Ok(())));
    assert_eq!(step.action, DownloadAction::Collect);
    let step = advance_download(&address, step.state, DownloadEvent::Collected(Ok(())));
    assert_eq!(step.action, DownloadAction::Deliver);
    assert_eq!(step.state, DownloadState::Finished);
}

#[test]
fn downloads_fail_where_nothing_helps() {
    let (_, step) = start_download("http://");
    assert_eq!(step.show, Some(StatusPhase::FetchFailed));
    assert_eq!(step.action, DownloadAction::Fail("empty host".to_string()));
    let running = DownloadState::Running(Attempt::Preferred);
    let step = advance_download(
        "https://example.com/",
        running,
        DownloadEvent::Ran(Ok(exit(false, "exit status: 1", " ERROR: Unsupported URL\n"))),
    );
    assert_eq!(step.show, Some(StatusPhase::DownloadFailed));
    assert_eq!(
        step.action,
        DownloadAction::Fail(
            "yt-dlp failed with status exit status: 1: ERROR: Unsupported URL".to_string()
        )
    );
    let step = advance_download(
        "https://example.com/",
        running,
        DownloadEvent::Ran(Err("no such file".to_string())),
    );
    assert_eq!(step.action, DownloadAction::Fail("no such file".to_string()));
    assert_eq!(yt_dlp_failure("exit status: 1", " "), "yt-dlp failed with status: exit status: 1");
    let step = advance_download(
        "https://example.com/",
        DownloadState::Fetching(Platform::Twitter),
        DownloadEvent::Fetched(Err("no images".to_string())),
    );
    assert_eq!(step.show, Some(StatusPhase::FetchFailed));
    let step = advance_download(
        "https://example.com/",
        DownloadState::Collecting,
        DownloadEvent::Collected(Err("nothing".to_string())),
    );
    assert_eq!(step.show, Some(StatusPhase::ConvertingFailed));
    assert_eq!(step.action, DownloadAction::Fail("nothing".to_string()));
}

#[test]
fn missing_formats_lead_to_another_attempt_and_then_to_images() {
    let address = "https://www.instagram.com/p/abc/";
    let said = "ERROR: [Instagram] abc: There is no video in this post";
    let step = advance_download(
        address,
        DownloadState::Running(Attempt::Preferred),
        DownloadEvent::Ran(Ok(exit(false, "exit status: 1", said))),
    );
    assert_eq!(step.action, DownloadAction::Run(Attempt::AnyFormat));
    let step = advance_download(
        address,
        step.state,
        DownloadEvent::Ran(Ok(exit(false, "exit status: 1", said))),
    );
    assert_eq!(step.action, DownloadAction::Fetch(Platform::Instagram));
    assert_eq!(step.show, None);
}

#[test]
fn responses_hold_what_is_shown() {
    let prepared = prepare_response(
        "https://x.com/a",
        &metadata(),
        Some(" a body \n"),
        strings(&["/d/a.jpg", "/d/b.jpg"]),
    );
    assert_eq!(prepared.name, "/d/a.jpg,/d/b.jpg");
    assert_eq!(prepared.post_text, "(X)\nHi\nMe (@me)\n2024.01.31\n\na body");
    let response = numbered(prepared, 7);
    assert_eq!(response.media_id, 7);
    assert_eq!(response.normalized_url, "https://x.com/a");
    assert_eq!(response.post_body, "a body");
    assert_eq!(response.post_source, "Me (@me)");
    assert_eq!(response.files.len(), 2);
    let bare = prepare_response("https://x.com/a", &metadata(), None, vec![]);
    assert_eq!(bare.post_body, "(no description)");
    assert_eq!(bare.name, "");
}

#[test]
fn a_shown_failure_is_not_overwritten() {
    assert_eq!(phase_after_failure(Some(StatusPhase::FetchFailed)), None);
    assert_eq!(
        phase_after_failure(Some(StatusPhase::ConvertingMedia)),
        Some(StatusPhase::DownloadFailed)
    );
    assert_eq!(phase_after_failure(None), Some(StatusPhase::DownloadFailed));
    assert_eq!(download_failed_text("x"), "Download failed: x");
}
