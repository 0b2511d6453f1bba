use notnotsavebot::images::{
    bluesky_answer, bluesky_resolved, bluesky_search, check_image_type, image_file_name,
    instagram_answer, instagram_answer_if_it_fits, instagram_page, instagram_search, post_sidecar, twitter_page, twitter_search,
    ContentType, HandleSearch, Images, Platform, Search,
};
use notnotsavebot::json::{parse_json, Json};
use notnotsavebot::posts::PostMetadata;

fn json(text: &str) -> Json {
    parse_json(text).expect("valid JSON")
}

#[test]
fn searches_end_where_there_are_files() {
    assert_eq!(instagram_search(true, "https://www.instagram.com/p/a/"), Search::Nothing);
    assert_eq!(twitter_search(true, "https://x.com/a/status/1"), Search::Nothing);
    assert_eq!(
        bluesky_search(true, "https://bsky.app/profile/a/post/b"),
        HandleSearch::Nothing
    );
}

#[test]
fn searches_are_only_for_the_own_platform() {
    let other = "https://example.com/p/a/";
    assert_eq!(instagram_search(false, other), Search::Nothing);
    assert_eq!(twitter_search(false, other), Search::Nothing);
    assert_eq!(bluesky_search(false, other), HandleSearch::Nothing);
    assert!(matches!(instagram_search(false, "::"), Search::Failed(_)));
    assert!(matches!(twitter_search(false, "::"), Search::Failed(_)));
    assert!(matches!(bluesky_search(false, "::"), HandleSearch::Failed(_)));
}

#[test]
fn instagram_is_asked_by_shortcode() {
    assert_eq!(
        instagram_search(false, "https://www.instagram.com/p/C2j/"),
        Search::Fetch {
            id: "C2j".to_string(),
            address: "https://www.instagram.com/graphql/query?doc_id=8845758582119845\
                      &variables=%7B%22shortcode%22%3A%22C2j%22%7D"
                .to_string(),
        }
    );
}

#[test]
fn instagram_answers_list_images_or_lead_to_the_page() {
    let address = "https://www.instagram.com/p/C2j/";
    let payload = json(
        r#"{"data":{"xdt_shortcode_media":{"owner":{"username":"me"},
            "display_url":"https://a.fbcdn.net/v/t51.1/x.jpg"}}}"#,
    );
    let (kept, images) = instagram_answer(&payload, "C2j", address);
    let kept = kept.expect("notes");
    assert_eq!(kept.info_name, "instagram-C2j.info.json");
    assert_eq!(kept.description_name, "instagram-C2j.description");
    assert_eq!(
        images,
        Images::Listed(vec!["https://a.fbcdn.net/v/t51.1/x.jpg".to_string()])
    );
    assert_eq!(
        instagram_answer_if_it_fits(&payload, "C2j", address),
        Some(instagram_answer(&payload, "C2j", address))
    );
    let (kept, images) = instagram_answer(&json("{}"), "C2j", address);
    assert!(kept.is_none());
    assert_eq!(
        images,
        Images::Look("https://www.instagram.com/p/C2j/embed".to_string())
    );
    assert_eq!(
        instagram_page("<html>"),
        Images::Failed("Instagram post did not expose uncropped image URLs".to_string())
    );
    assert_eq!(
        instagram_page(r#""edge_sidecar_to_children" "display_url":"https://a/b.jpg""#),
        Images::Listed(vec!["https://a/b.jpg".to_string()])
    );
}

#[test]
fn twitter_pages_are_fetched_as_they_are() {
    let address = "https://x.com/a/status/7";
    assert_eq!(
        twitter_search(false, address),
        Search::Fetch { id: "7".to_string(), address: address.to_string() }
    );
    let html = r#"window.__INITIAL_STATE__={"entities":{"tweets":{"entities":{"7":{"text":"hi"}}}}};
        "media_url_https":"https://pbs.twimg.com/media/a.png""#;
    let (kept, images) = twitter_page(html, "7", address);
    let kept = kept.expect("notes");
    assert_eq!(kept.info_name, "twitter-7.info.json");
    assert_eq!(kept.description, "");
    assert_eq!(kept.info.text_at("title"), Some("hi"));
    assert_eq!(
        images,
        Images::Listed(vec![
            "https://pbs.twimg.com/media/a.png?format=png&name=orig".to_string()
        ])
    );
    let (kept, images) = twitter_page("", "7", address);
    assert!(kept.is_none());
    assert_eq!(
        images,
        Images::Failed("Twitter/X post did not expose image URLs".to_string())
    );
}

#[test]
fn bluesky_is_asked_for_the_author_and_then_the_post() {
    let address = "https://bsky.app/profile/me.example/post/k";
    assert_eq!(
        bluesky_search(false, address),
        HandleSearch::Resolve {
            handle: "me.example".to_string(),
            rkey: "k".to_string(),
            address: "https://public.api.bsky.app/xrpc/com.atproto.identity.resolveHandle\
                      ?handle=me.example"
                .to_string(),
        }
    );
    assert_eq!(
        bluesky_resolved(&json(r#"{"did":"did:plc:1"}"#), "me.example", "k").unwrap(),
        "https://public.api.bsky.app/xrpc/app.bsky.feed.getPostThread\
         ?uri=at%3A%2F%2Fdid%3Aplc%3A1%2Fapp.bsky.feed.post%2Fk&depth=0"
    );
    assert_eq!(
        bluesky_resolved(&json(r#"{"did":""}"#), "me.example", "k").unwrap_err(),
        "Bluesky handle did not resolve to a DID: me.example"
    );
    let payload = json(
        r#"{"thread":{"post":{"author":{"handle":"me.example"},"record":{"text":"hi"},
            "embed":{"images":[{"fullsize":"https://cdn.bsky.app/img/feed_fullsize/a"}]}}}}"#,
    );
    let (kept, images) = bluesky_answer(&payload, "k", address).unwrap();
    assert_eq!(kept.info_name, "bluesky-k.info.json");
    assert_eq!(kept.description, "hi");
    assert_eq!(
        images,
        Images::Listed(vec!["https://cdn.bsky.app/img/feed_fullsize/a".to_string()])
    );
    assert_eq!(
        bluesky_answer(&json("{}"), "k", address).unwrap_err(),
        "Bluesky post response did not include thread.post"
    );
    let (_, images) = bluesky_answer(&json(r#"{"thread":{"post":{}}}"#), "k", address).unwrap();
    assert_eq!(
        images,
        Images::Failed("Bluesky post did not expose image URLs".to_string())
    );
}

#[test]
fn notes_are_kept_in_the_order_of_their_keys() {
    let post = PostMetadata {
        source_name: "Name".to_string(),
        source_handle: None,
        timestamp: Some(-5),
        title: "T".to_string(),
        text: "B".to_string(),
    };
    let sidecar = post_sidecar(Platform::Bluesky, "k", "https://bsky.app/x", &post);
    assert_eq!(
        sidecar.info,
        json(
            r#"{"channel":"Name","extractor":"Bluesky","extractor_key":"Bluesky","id":"k",
                "timestamp":-5,"title":"T","uploader":"Name","webpage_url":"https://bsky.app/x",
                "webpage_url_domain":"bsky.app"}"#
        )
    );
}

#[test]
fn answers_that_are_no_images_are_refused() {
    let image = ContentType::Named("image/jpeg".to_string());
    let page = ContentType::Named("text/html".to_string());
    assert!(check_image_type(Platform::Instagram, &image).is_ok());
    assert!(check_image_type(Platform::Twitter, &ContentType::Missing).is_ok());
    assert_eq!(
        check_image_type(Platform::Twitter, &page).unwrap_err(),
        "Twitter/X image URL returned non-image content type: text/html"
    );
    assert_eq!(
        check_image_type(Platform::Bluesky, &ContentType::Unreadable).unwrap_err(),
        "Bluesky image URL returned non-image content type: <invalid content type>"
    );
}

#[test]
fn image_files_are_numbered() {
    assert_eq!(
        image_file_name(Platform::Instagram, 0, "https://a.b/c.webp"),
        "instagram-sidecar-01.webp"
    );
    assert_eq!(
        image_file_name(Platform::Twitter, 9, "https://a.b/c.png"),
        "twitter-image-10.png"
    );
    assert_eq!(
        image_file_name(Platform::Bluesky, 99, "https://a.b/c"),
        "bluesky-image-100.jpg"
    );
}
