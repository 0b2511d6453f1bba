use notnotsavebot::links::{
    bluesky_post_ref_from_url, clean_url, embed_url_for, form_query,
    format_sort_of, has_fitting_embed_url, image_extension_for, image_extension_from_url,
    instagram_embed_url, instagram_embed_url_if_it_fits,
    instagram_shortcode_from_url, is_bluesky_image, is_bluesky_image_url, is_instagram_image,
    is_instagram_media_image_url, normalize_input_url, original_image_of, post_ref_of,
    shortcode_of, should_continue_with_bluesky_image_fallback,
    should_continue_with_instagram_embed_fallback, should_continue_with_twitter_image_fallback,
    should_retry_without_video_format, status_id_of, twitter_original_image_url,
    twitter_status_id_from_url, yt_dlp_format_sort, BlueskyPostRef, UrlParts,
};

fn parts(host: &str, path: &str) -> UrlParts {
    UrlParts {
        href: format!("https://{host}{path}?q=1#f"),
        head: format!("https://{host}{path}"),
        host: Some(host.to_string()),
        path: path.to_string(),
        query: Some("q=1".to_string()),
        fragment: Some("f".to_string()),
    }
}

#[test]
fn extracts_bluesky_post_refs() {
    assert_eq!(
        bluesky_post_ref_from_url(
            "https://bsky.app/profile/notpeter.bsky.social/post/3mjcw2b6ajk25"
        )
        .unwrap(),
        Some(BlueskyPostRef {
            handle: "notpeter.bsky.social".into(),
            rkey: "3mjcw2b6ajk25".into(),
        })
    );
    assert_eq!(
        bluesky_post_ref_from_url(
            "https://example.com/profile/notpeter.bsky.social/post/3mjcw2b6ajk25"
        )
        .unwrap(),
        None
    );
}

#[test]
fn continues_to_bluesky_image_fallback_for_photo_post_errors() {
    assert!(should_continue_with_bluesky_image_fallback(
        "https://bsky.app/profile/notpeter.bsky.social/post/3mjcw2b6ajk25",
        "ERROR: [Bluesky] 3mjcw2b6ajk25: No video could be found in this post"
    ));
    assert!(!should_continue_with_bluesky_image_fallback(
        "https://example.com/profile/notpeter.bsky.social/post/3mjcw2b6ajk25",
        "ERROR: [Bluesky] 3mjcw2b6ajk25: No video could be found in this post"
    ));
}

#[test]
fn normalizes_schemeless_urls_as_https() {
    assert_eq!(
        normalize_input_url("facebook.com/reel/1838643350132773").unwrap(),
        "https://facebook.com/reel/1838643350132773"
    );
}

#[test]
fn normalizes_schemeless_twitter_urls_and_strips_query() {
    assert_eq!(
        normalize_input_url("x.com/notpeter/status/123?ref=ignored").unwrap(),
        "https://x.com/notpeter/status/123"
    );
}

#[test]
fn extracts_shortcode_from_instagram_post_urls() {
    assert_eq!(
        instagram_shortcode_from_url("https://www.instagram.com/p/C2jWM5qM0SJ/")
            .unwrap()
            .as_deref(),
        Some("C2jWM5qM0SJ")
    );
    assert_eq!(
        instagram_shortcode_from_url("https://www.instagram.com/notpeter/p/C2jWM5qM0SJ/")
            .unwrap()
            .as_deref(),
        Some("C2jWM5qM0SJ")
    );
}

#[test]
fn extracts_twitter_status_ids() {
    assert_eq!(
        twitter_status_id_from_url("https://x.com/notpeter/status/1837259033054453894")
            .unwrap()
            .as_deref(),
        Some("1837259033054453894")
    );
    assert_eq!(
        twitter_status_id_from_url("https://twitter.com/i/web/status/1739889150990438752")
            .unwrap()
            .as_deref(),
        Some("1739889150990438752")
    );
    assert_eq!(
        twitter_status_id_from_url("https://example.com/notpeter/status/1837259033054453894")
            .unwrap()
            .as_deref(),
        None
    );
}

#[test]
fn continues_to_twitter_image_fallback_for_photo_post_errors() {
    assert!(should_continue_with_twitter_image_fallback(
        "https://x.com/notpeter/status/1837259033054453894",
        "ERROR: [twitter] 1837259033054453894: No video could be found in this tweet"
    ));
    assert!(!should_continue_with_twitter_image_fallback(
        "https://example.com/notpeter/status/1837259033054453894",
        "ERROR: [twitter] 1837259033054453894: No video could be found in this tweet"
    ));
}

#[test]
fn continues_to_embed_fallback_for_instagram_photo_post_errors() {
    assert!(should_continue_with_instagram_embed_fallback(
        "https://www.instagram.com/p/Ce2szzFPqwO/",
        "ERROR: [Instagram] Ce2szzFPqwO: There is no video in this post"
    ));
    assert!(!should_continue_with_instagram_embed_fallback(
        "https://example.com/p/Ce2szzFPqwO/",
        "ERROR: Requested format is not available"
    ));
}

#[test]
fn builds_instagram_embed_url_for_posts() {
    assert_eq!(
        instagram_embed_url("https://www.instagram.com/p/Ccwj6xYMEoX/?utm_source=x")
            .unwrap()
            .unwrap()
            .as_str(),
        "https://www.instagram.com/p/Ccwj6xYMEoX/embed"
    );
}

#[test]
fn other_addresses_have_no_embed_page() {
    assert_eq!(instagram_embed_url("https://example.com/p/abc/").unwrap(), None);
    assert!(instagram_embed_url("not an address").is_err());
}

#[test]
fn embed_addresses_escape_odd_shortcodes() {
    assert_eq!(
        embed_url_for("a-b_c"),
        "https://www.instagram.com/p/a-b_c/embed"
    );
    assert_eq!(
        embed_url_for("a%2Fb"),
        "https://www.instagram.com/p/a%252Fb/embed"
    );
    assert_eq!(
        embed_url_for("\u{e9}\u{20ac}"),
        "https://www.instagram.com/p/%C3%A9%E2%82%AC/embed"
    );
    assert_eq!(embed_url_for(""), "https://www.instagram.com/p//embed");
    assert_eq!(embed_url_for("a\tb\r\nc"), "https://www.instagram.com/p/abc/embed");
    for byte in 0u8..0x80 {
        let c = byte as char;
        let written = if c == '\t' || c == '\n' || c == '\r' {
            String::new()
        } else if c.is_ascii_graphic() && !"\"#%/<>?\\`{}".contains(c) {
            c.to_string()
        } else {
            format!("%{byte:02X}")
        };
        assert_eq!(
            embed_url_for(&format!("a{c}")),
            format!("https://www.instagram.com/p/a{written}/embed")
        );
    }
}

#[test]
fn ordinary_embed_addresses_fit() {
    let address = "https://www.instagram.com/p/Ccwj6xYMEoX/";
    assert!(has_fitting_embed_url(address));
    assert!(has_fitting_embed_url("not an address"));
    assert_eq!(
        instagram_embed_url_if_it_fits(address),
        Some(Ok(Some("https://www.instagram.com/p/Ccwj6xYMEoX/embed".to_string())))
    );
    assert_eq!(instagram_embed_url_if_it_fits("https://example.com/"), Some(Ok(None)));
    let long = format!("https://www.instagram.com/p/{}/", "a".repeat(100_000));
    assert!(has_fitting_embed_url(&long));
}

#[test]
fn addresses_with_a_scheme_are_taken_as_they_are() {
    assert_eq!(
        normalize_input_url("  HTTP://Example.COM/a b?x=1#y ").unwrap(),
        "http://example.com/a%20b?x=1#y"
    );
}

#[test]
fn fragments_of_twitter_addresses_stay() {
    assert_eq!(
        normalize_input_url("https://Twitter.com/a/status/1?s=20&t=x#frag").unwrap(),
        "https://twitter.com/a/status/1#frag"
    );
    assert_eq!(
        normalize_input_url("https://example.com/a?s=20").unwrap(),
        "https://example.com/a?s=20"
    );
}

#[test]
fn texts_that_are_no_address_are_refused() {
    assert_eq!(
        normalize_input_url("http://").unwrap_err(),
        "empty host"
    );
    assert!(normalize_input_url("").is_err());
}

#[test]
fn cleaning_keeps_other_queries() {
    assert_eq!(clean_url(&parts("example.com", "/a")), "https://example.com/a?q=1#f");
    assert_eq!(clean_url(&parts("WWW.X.com", "/a")), "https://WWW.X.com/a#f");
    let mut no_host = parts("x.com", "/a");
    no_host.host = None;
    assert_eq!(clean_url(&no_host), "https://x.com/a?q=1#f");
}

#[test]
fn shortcodes_follow_the_kind_of_post() {
    let code = |path: &str| shortcode_of(&parts("instagram.com", path));
    assert_eq!(code("/p/abc/").as_deref(), Some("abc"));
    assert_eq!(code("/reel/abc").as_deref(), Some("abc"));
    assert_eq!(code("/tv/abc/x").as_deref(), Some("abc"));
    assert_eq!(code("/me/reel/abc").as_deref(), Some("abc"));
    assert_eq!(code("/p//abc"), None);
    assert_eq!(code("/stories/abc"), None);
    assert_eq!(code("/p"), None);
    assert_eq!(shortcode_of(&parts("example.com", "/p/abc")), None);
}

#[test]
fn status_ids_are_digits_behind_status() {
    let id = |path: &str| status_id_of(&parts("x.com", path));
    assert_eq!(id("/a/status/12").as_deref(), Some("12"));
    assert_eq!(id("/a/statuses/12/photo/1").as_deref(), Some("12"));
    assert_eq!(id("/status/x/status/7").as_deref(), Some("7"));
    assert_eq!(id("/a/status/"), None);
    assert_eq!(id("/a/status/12a"), None);
    assert_eq!(id("/a"), None);
}

#[test]
fn bluesky_posts_need_a_handle_and_a_key() {
    let found = |path: &str| post_ref_of(&parts("www.bsky.app", path));
    assert!(found("/profile/h/post/k").is_some());
    assert!(found("/profile/h/post/k/liked-by").is_some());
    assert!(found("/profile//post/k").is_none());
    assert!(found("/profile/h/post/").is_none());
    assert!(found("/profile/h").is_none());
}

#[test]
fn addresses_that_cannot_be_read_are_errors() {
    assert!(bluesky_post_ref_from_url("::").is_err());
    assert!(instagram_shortcode_from_url("::").is_err());
    assert!(twitter_status_id_from_url("::").is_err());
}

#[test]
fn image_addresses_are_told_by_host_and_path() {
    assert!(is_bluesky_image_url("https://cdn.bsky.app/img/feed_fullsize/x"));
    assert!(!is_bluesky_image_url("https://cdn.bsky.app/img/avatar/x"));
    assert!(!is_bluesky_image_url("nonsense"));
    assert!(is_bluesky_image(&parts("cdn.bsky.app", "/img/feed_fullsize/x")));
    assert!(is_instagram_media_image_url("https://a.cdninstagram.com/v/t51.2/x.jpg"));
    assert!(!is_instagram_media_image_url("https://a.cdninstagram.com/x.jpg"));
    assert!(is_instagram_image(&parts("x.fbcdn.net", "/v/t51.2/x.jpg")));
    assert!(!is_instagram_image(&parts("fbcdn.net.example.com", "/v/t51.2/x.jpg")));
}

#[test]
fn original_images_keep_their_format() {
    assert_eq!(
        original_image_of(&parts("pbs.twimg.com", "/media/a.JPEG")).as_deref(),
        Some("https://pbs.twimg.com/media/a.JPEG?format=jpg&name=orig#f")
    );
    assert_eq!(
        twitter_original_image_url("https://pbs.twimg.com/media/a.webp?name=small").as_deref(),
        Some("https://pbs.twimg.com/media/a.webp?format=webp&name=orig")
    );
    assert_eq!(twitter_original_image_url("https://pbs.twimg.com/media/a.gif"), None);
    assert_eq!(twitter_original_image_url("https://pbs.twimg.com/profile/a.jpg"), None);
    assert_eq!(twitter_original_image_url("https://example.com/media/a.jpg"), None);
    assert_eq!(twitter_original_image_url("https://pbs.twimg.com/media/a"), None);
}

#[test]
fn extensions_of_images_fall_back_to_jpeg() {
    assert_eq!(image_extension_from_url("https://a.b/c.PNG?x=.webp"), "png");
    assert_eq!(image_extension_from_url("https://a.b/c.webp"), "webp");
    assert_eq!(image_extension_from_url("https://a.b/c.jpeg"), "jpg");
    assert_eq!(image_extension_from_url("https://a.b/c.gif"), "jpg");
    assert_eq!(image_extension_from_url("https://a.b/"), "jpg");
    assert_eq!(image_extension_from_url("nonsense"), "jpg");
    assert_eq!(image_extension_for("/a.b/c"), "jpg");
    assert_eq!(image_extension_for("/x.y.png"), "png");
}

#[test]
fn formats_are_sorted_on_instagram_and_youtube() {
    assert_eq!(
        yt_dlp_format_sort("https://www.youtube.com/watch?v=1"),
        Some("res,vcodec:h265:h264")
    );
    assert_eq!(yt_dlp_format_sort("https://youtu.be/1"), Some("res,vcodec:h265:h264"));
    assert_eq!(yt_dlp_format_sort("https://x.com/1"), None);
    assert_eq!(yt_dlp_format_sort("nonsense"), None);
    assert_eq!(format_sort_of(&parts("M.YouTube.com", "/")), Some("res,vcodec:h265:h264"));
    assert_eq!(format_sort_of(&parts("instagram.com", "/")), Some("res,vcodec:h265:h264"));
}

#[test]
fn missing_formats_are_retried() {
    assert!(should_retry_without_video_format("ERROR: Requested format is not available. Use"));
    assert!(should_retry_without_video_format("There is no video in this post"));
    assert!(!should_retry_without_video_format("ERROR: Unsupported URL"));
}

#[test]
fn queries_are_written_as_forms() {
    assert_eq!(form_query(&[]), "");
    assert_eq!(
        form_query(&[("a b", "x&y=z"), ("uri", "at://did:plc:1/app~é")]),
        "a+b=x%26y%3Dz&uri=at%3A%2F%2Fdid%3Aplc%3A1%2Fapp%7E%C3%A9"
    );
    assert_eq!(form_query(&[("name", "a-b._*9Z")]), "name=a-b._*9Z");
}
