use notnotsavebot::commands::{Command, Reply};
use notnotsavebot::delivery::FileKind;
use notnotsavebot::download::shown_description;
use notnotsavebot::encode::Arg;
use notnotsavebot::json::parse_json;
use notnotsavebot::mine_bot::{
    answer_to, convert_args, default_database_path, delivery_metadata_from, file_kind,
    format_compact_date, format_post_text_html, is_image_path, normalize_url, plan_sending,
    read_delivery_filename_metadata, read_upload_date, renamed, yt_dlp_args, Answer, Upload,
};
use notnotsavebot::users::UserRole;

#[test]
fn addresses_are_taken_as_they_are() {
    assert_eq!(
        normalize_url("https://X.com/a?b=c").unwrap(),
        "https://x.com/a?b=c"
    );
    assert_eq!(
        normalize_url("x.com/a").unwrap_err(),
        "relative URL without a base"
    );
    assert_eq!(default_database_path(), "./mine-bot.sqlite");
}

#[test]
fn dates_are_written_with_spaces() {
    assert_eq!(format_compact_date("20240131").as_deref(), Some("2024 01 31"));
    let info = parse_json(r#"{"timestamp":1706248090}"#).unwrap();
    assert_eq!(read_upload_date(&info).as_deref(), Some("2024 01 26"));
    let metadata = delivery_metadata_from(&info, "2030 05 06");
    assert_eq!(metadata.date, "2024 01 26");
    let metadata = read_delivery_filename_metadata(None, "2030 05 06");
    assert_eq!(metadata.date, "2030 05 06");
    assert_eq!(metadata.username, "unknown");
    assert_eq!(metadata.title, "untitled");
    assert_eq!(
        renamed(&metadata, Some(1), Some("jpg"), "/x").unwrap(),
        "unknown_2030_05_06_untitled_01.jpg"
    );
    assert!(renamed(&metadata, None, Some(""), "/x").is_err());
}

#[test]
fn only_plain_images_are_images() {
    assert!(is_image_path("a.png"));
    assert!(!is_image_path("a.webp"));
    assert_eq!(file_kind(Some("webp")), FileKind::Other);
    assert_eq!(file_kind(Some("jpeg")), FileKind::Image);
    assert_eq!(plan_sending(&vec![]), Upload::Nothing);
    assert_eq!(plan_sending(&vec!["a.jpg".to_string()]), Upload::Photo);
    assert_eq!(plan_sending(&vec!["a.mp4".to_string()]), Upload::Video);
    assert_eq!(
        plan_sending(&vec!["a.jpg".to_string(), "b.jpg".to_string()]),
        Upload::Album
    );
}

#[test]
fn tools_are_told_what_to_do() {
    assert_eq!(
        yt_dlp_args("https://a/", "/d/t").join(" "),
        "-f bv*[ext=mp4]+ba[ext=m4a]/b[ext=mp4]/b --merge-output-format mp4 --write-info-json \
         --write-description --convert-thumbnails jpg --output /d/t https://a/"
    );
    let silent = convert_args(false);
    assert!(silent.contains(&Arg::Word("-an".to_string())));
    assert_eq!(silent.last(), Some(&Arg::Output));
    assert!(convert_args(true).contains(&Arg::Audio));
}

#[test]
fn posts_are_quoted() {
    assert_eq!(
        format_post_text_html("a < b"),
        "<blockquote>a &lt; b</blockquote>"
    );
}

#[test]
fn strangers_are_refused_with_their_id() {
    assert_eq!(
        answer_to(UserRole::Nobody, "7", "/help", Some(Command::Help)),
        Answer::Refuse(
            "You are not authorized to use this bot. Your Telegram user id is 7.".to_string()
        )
    );
    assert_eq!(
        answer_to(UserRole::User, "7", "/help", Some(Command::Help)),
        Answer::Serve(Reply::ListCommands)
    );
    assert_eq!(
        answer_to(UserRole::Admin, "7", "https://a/", None),
        Answer::Serve(Reply::Download("https://a/".to_string()))
    );
    assert_eq!(
        answer_to(UserRole::Admin, "7", " /x", None),
        Answer::Serve(Reply::UnknownCommand)
    );
}

#[test]
fn posts_without_a_description_say_so() {
    assert_eq!(shown_description(Some("  hello \n")), "hello");
    assert_eq!(shown_description(Some(" ")), "");
    assert_eq!(shown_description(None), "(no description)");
}
