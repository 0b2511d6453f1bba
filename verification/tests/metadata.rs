use notnotsavebot::filename::{
    build_delivery_basename, build_delivery_filename, sanitize_filename_part, truncate_to_chars,
    truncate_prefix_with_date,
};
use notnotsavebot::images::{post_sidecar, Platform};
use notnotsavebot::json::{parse_json, Json};
use notnotsavebot::metadata::{
    clean_source_name_for_platform, delivery_metadata_from, display_post_title,
    extract_at_handle_from_url, format_compact_date, format_post_source_line, is_youtube_source,
    normalize_display_handle, normalize_platform_name, read_delivery_filename_metadata,
    read_string_field, read_upload_date, DeliveryFilenameMetadata,
};
use notnotsavebot::posts::{decode_twitter_text, PostMetadata};
use notnotsavebot::present::{
    compose_post_text, escape_html, format_post_text_html, preview_log_text,
};

fn json(text: &str) -> Json {
    parse_json(text).expect("valid JSON")
}

fn named(user: &str, date: &str, title: &str) -> DeliveryFilenameMetadata {
    DeliveryFilenameMetadata {
        filename_username: user.to_string(),
        platform_name: "X".to_string(),
        source_name: "Someone".to_string(),
        source_handle: None,
        date: date.to_string(),
        title: title.to_string(),
    }
}

#[test]
fn missing_upload_date_stays_empty() {
    let metadata = read_delivery_filename_metadata(None);

    assert_eq!(metadata.date, "");
}

#[test]
fn downloads_without_notes_are_unknown() {
    let metadata = read_delivery_filename_metadata(Some("not json"));
    assert_eq!(metadata.platform_name, "Unknown");
    assert_eq!(metadata.source_name, "unknown");
    assert_eq!(metadata.source_handle, None);
    assert_eq!(metadata.filename_username, "unknown");
    assert_eq!(metadata.title, "untitled");
}

#[test]
fn notes_about_a_video_are_read() {
    let metadata = read_delivery_filename_metadata(Some(
        r#"{"extractor_key":"Youtube","webpage_url_domain":"youtube.com","channel":" A Channel ",
            "uploader":"Someone","uploader_id":"@handle","upload_date":"20240131",
            "title":"A title"}"#,
    ));
    assert_eq!(
        metadata,
        DeliveryFilenameMetadata {
            filename_username: "@handle".to_string(),
            platform_name: "YouTube".to_string(),
            source_name: "A Channel".to_string(),
            source_handle: Some("@handle".to_string()),
            date: "2024.01.31".to_string(),
            title: "A title".to_string(),
        }
    );
}

#[test]
fn handles_of_channels_are_found_in_addresses() {
    let info = json(
        r#"{"extractor":"youtube","uploader_id":"UC123","channel_url":"https://www.youtube.com/@me/videos"}"#,
    );
    assert!(is_youtube_source(&info));
    let metadata = delivery_metadata_from(&info);
    assert_eq!(metadata.source_handle.as_deref(), Some("@me"));
    assert_eq!(metadata.filename_username, "@me");
    assert_eq!(extract_at_handle_from_url("https://a/@x?y").as_deref(), Some("@x"));
    assert_eq!(extract_at_handle_from_url("https://a/@ /y"), None);
    assert_eq!(extract_at_handle_from_url("https://a/b"), None);
}

#[test]
fn a_blank_field_hides_the_ones_behind_it() {
    let value = json(r#"{"a":3,"b":"  ","c":"x"}"#);
    assert_eq!(read_string_field(&value, &["a", "c"]).as_deref(), Some("x"));
    assert_eq!(read_string_field(&value, &["a", "b", "c"]), None);
    assert_eq!(read_string_field(&value, &["d"]), None);
}

#[test]
fn platforms_have_names() {
    for (raw, name) in [
        ("Youtube", "YouTube"),
        ("instagram:story", "Instagram"),
        ("TikTok", "TikTok"),
        ("bsky.app", "Bluesky"),
        ("twitter", "X"),
        (" X ", "X"),
        ("www.x.com", "X"),
        ("Reddit", "Reddit"),
        ("soundcloud", "Soundcloud"),
        ("my_great-site x:list", "My Great Site X"),
        ("vimeo.com", "Vimeo"),
        ("élan", "Élan"),
        ("...", "Unknown"),
    ] {
        assert_eq!(normalize_platform_name(raw), name);
    }
}

#[test]
fn handles_begin_with_an_at_sign() {
    assert_eq!(normalize_display_handle(" @me ").as_deref(), Some("@me"));
    assert_eq!(normalize_display_handle("me"), None);
    assert_eq!(normalize_display_handle("@"), None);
}

#[test]
fn names_on_x_lose_the_platform() {
    let clean = |platform: &str, name: &str| {
        clean_source_name_for_platform(platform, name.to_string())
    };
    assert_eq!(clean("X", " Someone on X "), "Someone");
    assert_eq!(clean("X", " on X"), " on X");
    assert_eq!(clean("Bluesky", "Someone on X"), "Someone on X");
}

#[test]
fn dates_are_read_in_order() {
    assert_eq!(format_compact_date("20240131").as_deref(), Some("2024.01.31"));
    assert_eq!(format_compact_date("2024013"), None);
    assert_eq!(format_compact_date("2024013x"), None);
    assert_eq!(format_compact_date("２0240131"), None);
    assert_eq!(
        read_upload_date(&json(r#"{"upload_date":"bad","release_date":"20200229","timestamp":0}"#))
            .as_deref(),
        Some("2020.02.29")
    );
    assert_eq!(
        read_upload_date(&json(r#"{"timestamp":1706248090}"#)).as_deref(),
        Some("2024.01.26")
    );
    assert_eq!(
        read_upload_date(&json(r#"{"timestamp":-1}"#)).as_deref(),
        Some("1969.12.31")
    );
    assert_eq!(read_upload_date(&json(r#"{"timestamp":9223372036854775807}"#)), None);
    assert_eq!(read_upload_date(&Json::Null), None);
}

#[test]
fn titles_and_sources_are_shown() {
    let mut metadata = named("u", "d", " UnTitled ");
    assert_eq!(display_post_title(&metadata), None);
    assert_eq!(format_post_source_line(&metadata), "Someone");
    metadata.title = " A title ".to_string();
    metadata.source_handle = Some("@me".to_string());
    assert_eq!(display_post_title(&metadata).as_deref(), Some("A title"));
    assert_eq!(format_post_source_line(&metadata), "Someone (@me)");
}

#[test]
fn parts_of_file_names_are_words() {
    assert_eq!(sanitize_filename_part(" a/b\\c  d.e\t", "x"), "a_b_c_d_e");
    assert_eq!(sanitize_filename_part("ünï 日本", "x"), "ünï_日本");
    assert_eq!(sanitize_filename_part("../..", "x"), "x");
    assert_eq!(sanitize_filename_part("snake_case", "x"), "snake_case");
}

#[test]
fn file_names_are_cut_to_fit() {
    let metadata = named("@someone", "2024.01.31", "A title, with more");
    assert_eq!(
        build_delivery_filename(&metadata, None, "mp4"),
        "someone_2024_01_31_A_title_with_more.mp4"
    );
    assert_eq!(
        build_delivery_filename(&metadata, Some(3), "jpg"),
        "someone_2024_01_31_A_title_with_more_03.jpg"
    );
    let long = named(&"u".repeat(200), "2024.01.31", &"t".repeat(200));
    let name = build_delivery_filename(&long, Some(12), "jpeg");
    assert_eq!(name.chars().count(), 79);
    assert!(name.ends_with("u_2024_01_31_12.jpeg"));
    let long_title = named("u", "2024.01.31", &"é".repeat(200));
    let name = build_delivery_filename(&long_title, None, "mp4");
    assert_eq!(name.chars().count(), 79);
    let long_extension = "x".repeat(90);
    assert_eq!(
        build_delivery_filename(&metadata, None, &long_extension),
        format!(".{long_extension}")
    );
}

#[test]
fn short_budgets_keep_the_date() {
    assert_eq!(truncate_prefix_with_date("someone", "2024", 20), "someone_2024");
    assert_eq!(truncate_prefix_with_date("someone", "2024", 8), "som_2024");
    assert_eq!(truncate_prefix_with_date("someone", "2024", 5), "2024");
    assert_eq!(truncate_prefix_with_date("someone", "2024", 2), "20");
    assert_eq!(truncate_prefix_with_date("", "2024", 20), "_2024");
    assert_eq!(truncate_to_chars("héllo", 2), "hé");
    assert_eq!(build_delivery_basename(&named("u", "d", "title"), 3), "u_d");
    assert_eq!(build_delivery_basename(&named("u", "d", "title"), 4), "u_d");
    assert_eq!(build_delivery_basename(&named("u", "d", "title"), 5), "u_d_t");
    assert_eq!(build_delivery_basename(&named("", "", ""), 40), "unknown_unknown_untitled");
}

#[test]
fn html_is_escaped() {
    assert_eq!(escape_html("<a href=\"x\">&'"), "&lt;a href=&quot;x&quot;&gt;&amp;'");
    assert_eq!(
        format_post_text_html("X", Some("A & B"), "me", "2024.01.31", " body "),
        "(X)\n<b>A &amp; B</b>\nme\n2024.01.31\n<blockquote expandable> body </blockquote>"
    );
    assert_eq!(format_post_text_html(" ", Some(" "), "me", "", " \n"), "me");
}

#[test]
fn records_are_plain_text() {
    assert_eq!(
        compose_post_text("X", Some("T"), "me", "2024", "b<"),
        "(X)\nT\nme\n2024\n\nb<"
    );
    assert_eq!(compose_post_text("", None, "me", "", ""), "me\n\n\n");
}

#[test]
fn previews_are_short() {
    let short = "é".repeat(120);
    assert_eq!(preview_log_text(&short), short);
    assert_eq!(preview_log_text(&"x".repeat(121)), format!("{}...", "x".repeat(120)));
}

#[test]
fn what_is_kept_of_a_post_is_shown_of_it() {
    let post = PostMetadata {
        source_name: "Peter & Friends".to_string(),
        source_handle: Some("@notpeter".to_string()),
        timestamp: Some(1706248090),
        title: "A title".to_string(),
        text: "A title\nand more".to_string(),
    };
    for (platform, name) in [
        (Platform::Instagram, "Instagram"),
        (Platform::Twitter, "X"),
        (Platform::Bluesky, "Bluesky"),
    ] {
        let sidecar = post_sidecar(platform, "id", "https://example.com/", &post);
        let shown = delivery_metadata_from(&sidecar.info);
        assert_eq!(shown.platform_name, name);
        assert_eq!(shown.source_name, "Peter & Friends");
        assert_eq!(shown.source_handle.as_deref(), Some("@notpeter"));
        assert_eq!(shown.title, "A title");
        assert_eq!(shown.date, "2024.01.26");
    }
}

#[test]
fn parts_of_file_names_stay_as_they_are() {
    for text in [" a/b\\c  d.e\t", "ünï 日本", "../..", "snake__case", ""] {
        let once = sanitize_filename_part(text, "unknown");
        assert_eq!(sanitize_filename_part(&once, "unknown"), once);
    }
}

#[test]
fn escaped_texts_are_decoded() {
    for text in ["<a href=\"x\">&'", "&lt;", "&amp;quot;", "&#x27;", "&&amp;;", ""] {
        assert_eq!(decode_twitter_text(&escape_html(text)), text);
    }
    assert_eq!(decode_twitter_text(&escape_html(" <b> ")), "<b>");
}
