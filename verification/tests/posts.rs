use notnotsavebot::json::{parse_json, Json};
use notnotsavebot::posts::{
    decode_instagram_embed_url, decode_twitter_text, extract_bluesky_image_urls,
    extract_bluesky_metadata, extract_instagram_graphql_image_urls, extract_instagram_metadata,
    extract_instagram_sidecar_image_urls, extract_twitter_image_urls,
    extract_twitter_initial_state, extract_twitter_metadata, instagram_caption_text,
    instagram_graphql_image_url, twitter_visible_text, PostMetadata,
};

fn json(text: &str) -> Json {
    parse_json(text).expect("valid JSON")
}

#[test]
fn extracts_bluesky_image_urls() {
    let post = json(
        r#"{
            "embed": {"images": [
                {"fullsize": "https://cdn.bsky.app/img/feed_fullsize/plain/did:plc:test/one"},
                {"fullsize": "https://cdn.bsky.app/img/feed_thumbnail/plain/did:plc:test/ignored"},
                {"fullsize": "https://cdn.bsky.app/img/feed_fullsize/plain/did:plc:test/two"},
                {"fullsize": "https://cdn.bsky.app/img/feed_fullsize/plain/did:plc:test/one"}
            ]}
        }"#,
    );

    assert_eq!(
        extract_bluesky_image_urls(&post),
        vec![
            "https://cdn.bsky.app/img/feed_fullsize/plain/did:plc:test/one",
            "https://cdn.bsky.app/img/feed_fullsize/plain/did:plc:test/two",
        ]
    );
}

#[test]
fn extracts_bluesky_metadata() {
    let post = json(
        r#"{
            "author": {
                "handle": "notpeter.bsky.social",
                "displayName": "Peter &amp; Friends"
            },
            "record": {
                "createdAt": "2026-04-12T17:50:29.007Z",
                "text": "Steps to reproduce:\n1. Put these two PNG images in a folder."
            }
        }"#,
    );

    assert_eq!(
        extract_bluesky_metadata(&post),
        Some(PostMetadata {
            source_name: "Peter & Friends".into(),
            source_handle: Some("@notpeter.bsky.social".into()),
            timestamp: Some(1776016229),
            title: "Steps to reproduce:".into(),
            text: "Steps to reproduce:\n1. Put these two PNG images in a folder.".into(),
        })
    );
}

#[test]
fn extracts_instagram_metadata_from_graphql_media() {
    let media = json(
        r#"{
            "owner": {
                "username": "notpeter",
                "full_name": "Peter &amp; Friends"
            },
            "taken_at_timestamp": 1706248090,
            "accessibility_caption": "fallback title",
            "edge_media_to_caption": {"edges": [{"node": {
                "text": "First line title\n\nRest of caption &amp; details"
            }}]}
        }"#,
    );

    assert_eq!(
        extract_instagram_metadata(&media),
        Some(PostMetadata {
            source_name: "Peter & Friends".into(),
            source_handle: Some("@notpeter".into()),
            timestamp: Some(1706248090),
            title: "First line title".into(),
            text: "First line title\n\nRest of caption & details".into(),
        })
    );
}

#[test]
fn uses_instagram_accessibility_caption_when_caption_is_missing() {
    let media = json(
        r#"{
            "owner": {"username": "notpeter"},
            "accessibility_caption": "iHome HT160B Hilton Alarm Clock."
        }"#,
    );

    assert_eq!(
        extract_instagram_metadata(&media).map(|metadata| metadata.title),
        Some("iHome HT160B Hilton Alarm Clock.".into())
    );
}

#[test]
fn extracts_largest_graphql_image_for_single_post() {
    let media = json(
        r#"{
            "__typename": "XDTGraphImage",
            "is_video": false,
            "display_resources": [
                {"config_width": 640, "config_height": 800, "src": "https://scontent.example.cdninstagram.com/v/t51.82787-15/small.jpg"},
                {"config_width": 1080, "config_height": 1350, "src": "https://scontent.example.cdninstagram.com/v/t51.82787-15/large.jpg"}
            ]
        }"#,
    );

    assert_eq!(
        extract_instagram_graphql_image_urls(&media),
        vec!["https://scontent.example.cdninstagram.com/v/t51.82787-15/large.jpg"]
    );
}

#[test]
fn extracts_graphql_images_for_sidecar_children() {
    let media = json(
        r#"{
            "__typename": "XDTGraphSidecar",
            "edge_sidecar_to_children": {"edges": [
                {"node": {"is_video": false, "display_url": "https://scontent.example.cdninstagram.com/v/t51.82787-15/one.jpg"}},
                {"node": {"is_video": false, "display_resources": [
                    {"config_width": 750, "config_height": 750, "src": "https://scontent.example.cdninstagram.com/v/t51.82787-15/two-small.jpg"},
                    {"config_width": 1080, "config_height": 1080, "src": "https://scontent.example.cdninstagram.com/v/t51.82787-15/two-large.jpg"}
                ]}},
                {"node": {"is_video": true, "display_url": "https://scontent.example.cdninstagram.com/v/t51.82787-15/video-cover.jpg"}}
            ]}
        }"#,
    );

    assert_eq!(
        extract_instagram_graphql_image_urls(&media),
        vec![
            "https://scontent.example.cdninstagram.com/v/t51.82787-15/one.jpg",
            "https://scontent.example.cdninstagram.com/v/t51.82787-15/two-large.jpg",
        ]
    );
}

#[test]
fn extracts_twitter_metadata_from_initial_state() {
    let html = r#"
            window.__INITIAL_STATE__={"entities":{"users":{"entities":{"1542461":{
              "name":"Peter &amp; Friends",
              "screen_name":"notpeter"
            }}},"tweets":{"entities":{"1837259033054453894":{
              "full_text":"They literally made signs. https://t.co/voxvxhPSHN",
              "display_text_range":[0,26],
              "created_at":"2024-09-20T22:34:22.000Z",
              "user":"1542461"
            }}}}};
        "#;

    let metadata = extract_twitter_metadata(html, "1837259033054453894").expect("a tweet");
    assert_eq!(metadata.source_name, "Peter & Friends");
    assert_eq!(metadata.source_handle.as_deref(), Some("@notpeter"));
    assert_eq!(metadata.timestamp, Some(1726871662));
    assert_eq!(metadata.text, "They literally made signs.");
    assert_eq!(metadata.title, "They literally made signs.");
}

#[test]
fn extracts_twitter_image_urls_from_initial_state() {
    let html = r#"
            window.__INITIAL_STATE__={"entities":{"tweets":{"entities":{"1":{
              "entities":{"media":[{"media_url_https":"https://pbs.twimg.com/media/one.jpg"}]},
              "extended_entities":{"media":[
                {"media_url_https":"https://pbs.twimg.com/media/one.jpg"},
                {"media_url_https":"https://pbs.twimg.com/media/two.png"}
              ]}
            }}}}};
        "#;

    assert_eq!(
        extract_twitter_image_urls(html),
        vec![
            "https://pbs.twimg.com/media/one.jpg?format=jpg&name=orig",
            "https://pbs.twimg.com/media/two.png?format=png&name=orig",
        ]
    );
}

#[test]
fn extracts_instagram_sidecar_display_urls_from_embed_payload() {
    let html = r#"
            "edge_sidecar_to_children":{"edges":[
              {"node":{"display_url":"https:\/\/cdn.example.com\/one.jpg?x=1&amp;y=2","display_resources":[{"src":"https:\/\/cdn.example.com\/ignored.jpg"}]}},
              {"node":{"display_url":"https:\/\/cdn.example.com\/two.webp?x=1\u0026y=2"}},
              {"node":{"display_url":"https:\/\/cdn.example.com\/one.jpg?x=1&amp;y=2"}}
            ]}
        "#;

    assert_eq!(
        extract_instagram_sidecar_image_urls(html),
        vec![
            "https://cdn.example.com/one.jpg?x=1&y=2",
            "https://cdn.example.com/two.webp?x=1&y=2",
        ]
    );
}

#[test]
fn extracts_escaped_instagram_sidecar_display_urls_from_embed_payload() {
    let html = r#"
            \"edge_sidecar_to_children\":{\"edges\":[
              {\"node\":{\"display_url\":\"https:\\/\\/cdn.example.com\\/one.jpg?x=1&amp;y=2\"}},
              {\"node\":{\"display_url\":\"https:\\/\\/cdn.example.com\\/two.jpg?x=1\u0026y=2\"}}
            ]}
        "#;

    assert_eq!(
        extract_instagram_sidecar_image_urls(html),
        vec![
            "https://cdn.example.com/one.jpg?x=1&y=2",
            "https://cdn.example.com/two.jpg?x=1&y=2",
        ]
    );
}

#[test]
fn decodes_references_with_the_ampersand_last() {
    assert_eq!(
        decode_twitter_text("  &quot;a&quot; &lt;b&gt; it&#x27;s &amp;lt; "),
        "\"a\" <b> it's &lt;"
    );
}

#[test]
fn decodes_escaped_addresses() {
    assert_eq!(
        decode_instagram_embed_url(r"https:\\/\\/a.b\/c?x=1\u0026y=2&amp;z=3"),
        "https://a.b/c?x=1&y=2&z=3"
    );
}

#[test]
fn posts_without_an_author_are_unknown_and_untitled() {
    assert_eq!(
        extract_bluesky_metadata(&Json::Null),
        Some(PostMetadata {
            source_name: "unknown".into(),
            source_handle: None,
            timestamp: None,
            title: "untitled".into(),
            text: String::new(),
        })
    );
    assert_eq!(
        extract_instagram_metadata(&json(r#"{"owner":{"username":" me ","full_name":" "}}"#)),
        Some(PostMetadata {
            source_name: "me".into(),
            source_handle: Some("@me".into()),
            timestamp: None,
            title: "untitled".into(),
            text: String::new(),
        })
    );
}

#[test]
fn captions_that_are_blank_are_passed_over() {
    let media = json(
        r#"{"edge_media_to_caption":{"edges":[
            {"node":{"text":"   "}},{"node":{}},{"node":{"text":" second "}}]}}"#,
    );
    assert_eq!(instagram_caption_text(&media).as_deref(), Some("second"));
    assert_eq!(instagram_caption_text(&Json::Null), None);
}

#[test]
fn unreadable_times_are_left_out() {
    let post = json(r#"{"record":{"createdAt":"yesterday","text":"x"}}"#);
    assert_eq!(extract_bluesky_metadata(&post).unwrap().timestamp, None);
}

#[test]
fn visible_text_counts_characters() {
    let tweet = json(r#"{"text":"héllo wörld","display_text_range":[1,5]}"#);
    assert_eq!(twitter_visible_text(&tweet).as_deref(), Some("éllo"));
    let open_end = json(r#"{"full_text":"abcdef","text":"no","display_text_range":[4]}"#);
    assert_eq!(twitter_visible_text(&open_end).as_deref(), Some("ef"));
    let beyond = json(r#"{"text":"abc","display_text_range":[9,12]}"#);
    assert_eq!(twitter_visible_text(&beyond).as_deref(), Some(""));
    let backwards = json(r#"{"text":"abc","display_text_range":[2,1]}"#);
    assert_eq!(twitter_visible_text(&backwards).as_deref(), Some(""));
    let plain = json(r#"{"text":" abc "}"#);
    assert_eq!(twitter_visible_text(&plain).as_deref(), Some("abc"));
    let no_text = json(r#"{"full_text":3,"text":"abc"}"#);
    assert_eq!(twitter_visible_text(&no_text), None);
}

#[test]
fn initial_state_ends_where_the_document_does() {
    let state = extract_twitter_initial_state("x window.__INITIAL_STATE__={\"a\":1}; more {")
        .expect("a state");
    assert_eq!(state.get("a").and_then(|j| j.as_u64()), Some(1));
    assert_eq!(extract_twitter_initial_state("window.__INITIAL_STATE__=;"), None);
    assert_eq!(extract_twitter_initial_state("nothing here"), None);
}

#[test]
fn tweets_that_are_not_on_the_page_have_no_metadata() {
    let html = r#"window.__INITIAL_STATE__={"entities":{"tweets":{"entities":{"1":{"text":""}}}}}"#;
    assert_eq!(extract_twitter_metadata(html, "2"), None);
    let metadata = extract_twitter_metadata(html, "1").expect("a tweet");
    assert_eq!(metadata.text, "untitled");
    assert_eq!(metadata.source_name, "unknown");
    assert_eq!(metadata.source_handle, None);
}

#[test]
fn of_images_of_one_size_the_last_is_taken() {
    let media = json(
        r#"{"display_resources":[
            {"config_width":2,"config_height":3,"src":"https://a.fbcdn.net/v/t51.1/first.jpg"},
            {"config_width":3,"config_height":2,"src":"https://a.fbcdn.net/v/t51.1/last.jpg"},
            {"config_width":1,"config_height":1,"src":"https://a.fbcdn.net/v/t51.1/small.jpg"}]}"#,
    );
    assert_eq!(
        instagram_graphql_image_url(&media).as_deref(),
        Some("https://a.fbcdn.net/v/t51.1/last.jpg")
    );
}

#[test]
fn huge_sizes_do_not_overflow() {
    let media = json(
        r#"{"display_resources":[
            {"config_width":18446744073709551615,"config_height":2,"src":"https://a.fbcdn.net/v/t51.1/huge.jpg"},
            {"config_width":1,"config_height":1,"src":"https://a.fbcdn.net/v/t51.1/small.jpg"}]}"#,
    );
    assert_eq!(
        instagram_graphql_image_url(&media).as_deref(),
        Some("https://a.fbcdn.net/v/t51.1/huge.jpg")
    );
}

#[test]
fn videos_and_foreign_images_are_no_images_of_a_post() {
    assert_eq!(
        instagram_graphql_image_url(&json(
            r#"{"is_video":true,"display_url":"https://a.fbcdn.net/v/t51.1/x.jpg"}"#
        )),
        None
    );
    assert_eq!(
        instagram_graphql_image_url(&json(r#"{"display_url":"https://example.com/v/t51.1/x.jpg"}"#)),
        None
    );
    assert_eq!(
        instagram_graphql_image_url(&json(r#"{"display_url":"https://a.fbcdn.net/other/x.jpg"}"#)),
        None
    );
}

#[test]
fn pages_without_a_sidecar_list_no_images() {
    assert!(extract_instagram_sidecar_image_urls(r#"{"display_url":"https://a/b.jpg"}"#).is_empty());
    assert!(extract_twitter_image_urls(r#""media_url_https":"https://pbs.twimg.com/media/x.jpg"#)
        .is_empty());
}
