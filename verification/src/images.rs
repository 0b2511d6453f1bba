//! Fetching the images of a post where no video could be had: which addresses are asked, what is
//! kept of the answers, and how the images are named.
use vstd::prelude::*;

use crate::json::{entry_trees, object_tree, Json, JsonNumber, JsonTree, NumberTree};
use crate::links::{
    bluesky_post, bluesky_post_ref_from_url, embed_address, embed_url_fits, form_query,
    has_fitting_embed_url, image_extension, image_extension_from_url, instagram_embed_url,
    instagram_shortcode, instagram_shortcode_from_url, pair_texts, query_text, twitter_status_id,
    twitter_status_id_from_url,
};
use crate::numbers::{signed_decimal, signed_decimal_text, two_digit_text, two_digits};
use crate::posts::{
    bluesky_images, bluesky_metadata, extract_bluesky_image_urls, extract_bluesky_metadata,
    extract_instagram_graphql_image_urls, extract_instagram_metadata,
    extract_instagram_sidecar_image_urls, extract_twitter_image_urls, extract_twitter_metadata,
    instagram_images, instagram_metadata, is_empty_text, sidecar_images, twitter_images,
    twitter_metadata, PostMetadata, PostView,
};
use crate::text::{chars_of, has_prefix, starts_with, texts};

verus! {

/// A platform whose posts may hold images only.
#[derive(Clone, Copy, PartialEq, Eq, Structural, Debug)]
pub enum Platform {
    Instagram,
    Twitter,
    Bluesky,
}

impl Platform {
    /// The name under which the platform is known to the downloader.
    pub open spec fn key(self) -> Seq<char> {
        match self {
            Platform::Instagram => "Instagram"@,
            Platform::Twitter => "Twitter"@,
            Platform::Bluesky => "Bluesky"@,
        }
    }

    /// The name of the extractor for the platform.
    pub open spec fn extractor(self) -> Seq<char> {
        match self {
            Platform::Instagram => "instagram"@,
            Platform::Twitter => "twitter"@,
            Platform::Bluesky => "Bluesky"@,
        }
    }

    /// The domain of the platform.
    pub open spec fn domain(self) -> Seq<char> {
        match self {
            Platform::Instagram => "instagram.com"@,
            Platform::Twitter => "x.com"@,
            Platform::Bluesky => "bsky.app"@,
        }
    }

    /// What the names of files about a post of the platform begin with.
    pub open spec fn prefix(self) -> Seq<char> {
        match self {
            Platform::Instagram => "instagram-"@,
            Platform::Twitter => "twitter-"@,
            Platform::Bluesky => "bluesky-"@,
        }
    }

    /// What the names of image files of the platform begin with.
    pub open spec fn image_prefix(self) -> Seq<char> {
        match self {
            Platform::Instagram => "instagram-sidecar-"@,
            Platform::Twitter => "twitter-image-"@,
            Platform::Bluesky => "bluesky-image-"@,
        }
    }

    /// The name of the platform in messages.
    pub open spec fn label(self) -> Seq<char> {
        match self {
            Platform::Instagram => "Instagram"@,
            Platform::Twitter => "Twitter/X"@,
            Platform::Bluesky => "Bluesky"@,
        }
    }

    /// The message that a post shows no images.
    pub open spec fn no_images(self) -> Seq<char> {
        match self {
            Platform::Instagram => "Instagram post did not expose uncropped image URLs"@,
            Platform::Twitter => "Twitter/X post did not expose image URLs"@,
            Platform::Bluesky => "Bluesky post did not expose image URLs"@,
        }
    }

    fn key_text(self) -> (r: &'static str)
        ensures
            r@ == self.key(),
    {
        match self {
            Platform::Instagram => "Instagram",
            Platform::Twitter => "Twitter",
            Platform::Bluesky => "Bluesky",
        }
    }

    fn extractor_text(self) -> (r: &'static str)
        ensures
            r@ == self.extractor(),
    {
        match self {
            Platform::Instagram => "instagram",
            Platform::Twitter => "twitter",
            Platform::Bluesky => "Bluesky",
        }
    }

    fn domain_text(self) -> (r: &'static str)
        ensures
            r@ == self.domain(),
    {
        match self {
            Platform::Instagram => "instagram.com",
            Platform::Twitter => "x.com",
            Platform::Bluesky => "bsky.app",
        }
    }

    fn prefix_text(self) -> (r: &'static str)
        ensures
            r@ == self.prefix(),
    {
        match self {
            Platform::Instagram => "instagram-",
            Platform::Twitter => "twitter-",
            Platform::Bluesky => "bluesky-",
        }
    }

    fn image_prefix_text(self) -> (r: &'static str)
        ensures
            r@ == self.image_prefix(),
    {
        match self {
            Platform::Instagram => "instagram-sidecar-",
            Platform::Twitter => "twitter-image-",
            Platform::Bluesky => "bluesky-image-",
        }
    }

    fn label_text(self) -> (r: &'static str)
        ensures
            r@ == self.label(),
    {
        match self {
            Platform::Instagram => "Instagram",
            Platform::Twitter => "Twitter/X",
            Platform::Bluesky => "Bluesky",
        }
    }

    fn no_images_text(self) -> (r: &'static str)
        ensures
            r@ == self.no_images(),
    {
        match self {
            Platform::Instagram => "Instagram post did not expose uncropped image URLs",
            Platform::Twitter => "Twitter/X post did not expose image URLs",
            Platform::Bluesky => "Bluesky post did not expose image URLs",
        }
    }
}

// ---------------------------------------------------------------------------
// Files about a post
// ---------------------------------------------------------------------------

/// The files that are kept beside the images of a post.
#[derive(Debug, PartialEq, Eq)]
pub struct Sidecar {
    pub info_name: String,
    pub info: Json,
    pub description_name: String,
    pub description: String,
}

/// What the files beside the images of a post are.
#[verifier::ext_equal]
pub struct SidecarView {
    pub info_name: Seq<char>,
    pub info: JsonTree,
    pub description_name: Seq<char>,
    pub description: Seq<char>,
}

impl View for Sidecar {
    type V = SidecarView;

    open spec fn view(&self) -> SidecarView {
        SidecarView {
            info_name: self.info_name@,
            info: self.info@,
            description_name: self.description_name@,
            description: self.description@,
        }
    }
}

/// An integer as a document.
pub open spec fn integer_tree(n: i64) -> JsonTree {
    JsonTree::Number(
        NumberTree {
            unsigned: if n >= 0 {
                Some(n as u64)
            } else {
                None
            },
            signed: Some(n),
            numeral: signed_decimal(n as int),
        },
    )
}

/// An integer as a document.
fn integer_json(n: i64) -> (r: Json)
    ensures
        r@ == integer_tree(n),
{
    Json::Number(
        JsonNumber {
            unsigned: if n >= 0 {
                Some(n as u64)
            } else {
                None
            },
            signed: Some(n),
            numeral: signed_decimal_text(n),
        },
    )
}

/// The entry for the time of a post.
pub open spec fn time_entries(timestamp: Option<i64>) -> Seq<(Seq<char>, JsonTree)> {
    match timestamp {
        Some(t) => seq![("timestamp"@, integer_tree(t))],
        None => Seq::empty(),
    }
}

/// The entries for who uploaded a post: the handle where there is one, else the name.
pub open spec fn uploader_entries(post: PostView) -> Seq<(Seq<char>, JsonTree)> {
    match post.source_handle {
        Some(h) => seq![("uploader"@, JsonTree::Text(h)), ("uploader_id"@, JsonTree::Text(h))],
        None => seq![("uploader"@, JsonTree::Text(post.source_name))],
    }
}

/// What is kept about a post, in the order of the keys.
pub open spec fn info_entries(
    platform: Platform,
    id: Seq<char>,
    address: Seq<char>,
    post: PostView,
) -> Seq<(Seq<char>, JsonTree)> {
    seq![
        ("channel"@, JsonTree::Text(post.source_name)),
        ("extractor"@, JsonTree::Text(platform.extractor())),
        ("extractor_key"@, JsonTree::Text(platform.key())),
        ("id"@, JsonTree::Text(id)),
    ] + time_entries(post.timestamp) + seq![("title"@, JsonTree::Text(post.title))]
        + uploader_entries(post) + seq![
        ("webpage_url"@, JsonTree::Text(address)),
        ("webpage_url_domain"@, JsonTree::Text(platform.domain())),
    ]
}

/// The files beside the images of a post. The text of a tweet is its title, so that its
/// description is empty.
pub open spec fn sidecar(
    platform: Platform,
    id: Seq<char>,
    address: Seq<char>,
    post: PostView,
) -> SidecarView {
    SidecarView {
        info_name: platform.prefix() + id + ".info.json"@,
        info: JsonTree::Object(info_entries(platform, id, address, post)),
        description_name: platform.prefix() + id + ".description"@,
        description: if platform == Platform::Twitter {
            Seq::empty()
        } else {
            post.text
        },
    }
}

/// Adds an entry that holds a text.
fn push_text(entries: &mut Vec<(String, Json)>, key: &str, value: &str)
    ensures
        entry_trees(final(entries)@) == entry_trees(old(entries)@).push(
            (key@, JsonTree::Text(value@)),
        ),
{
    let ghost before = entry_trees(entries@);
    let j = Json::Text(value.to_owned());
    assert(j@ == JsonTree::Text(value@));
    entries.push((key.to_owned(), j));
    assert(entry_trees(entries@) == before.push((key@, JsonTree::Text(value@))));
}

/// Makes the files beside the images of a post.
pub fn post_sidecar(platform: Platform, id: &str, address: &str, post: &PostMetadata) -> (r:
    Sidecar)
    ensures
        r@ == sidecar(platform, id@, address@, post@),
{
    broadcast use object_tree;

    let mut entries: Vec<(String, Json)> = Vec::new();
    assert(entry_trees(entries@) == Seq::<(Seq<char>, JsonTree)>::empty());
    push_text(&mut entries, "channel", post.source_name.as_str());
    push_text(&mut entries, "extractor", platform.extractor_text());
    push_text(&mut entries, "extractor_key", platform.key_text());
    push_text(&mut entries, "id", id);
    let ghost first = entry_trees(entries@);
    match post.timestamp {
        Some(t) => {
            let j = integer_json(t);
            entries.push(("timestamp".to_owned(), j));
            assert(entry_trees(entries@) == first.push(("timestamp"@, integer_tree(t))));
        },
        None => {},
    }
    assert(entry_trees(entries@) == first + time_entries(post@.timestamp));
    push_text(&mut entries, "title", post.title.as_str());
    match &post.source_handle {
        Some(h) => {
            push_text(&mut entries, "uploader", h.as_str());
            push_text(&mut entries, "uploader_id", h.as_str());
        },
        None => {
            push_text(&mut entries, "uploader", post.source_name.as_str());
        },
    }
    push_text(&mut entries, "webpage_url", address);
    push_text(&mut entries, "webpage_url_domain", platform.domain_text());
    assert(entry_trees(entries@) == info_entries(platform, id@, address@, post@));
    let mut info_name = platform.prefix_text().to_owned();
    info_name.append(id);
    info_name.append(".info.json");
    let mut description_name = platform.prefix_text().to_owned();
    description_name.append(id);
    description_name.append(".description");
    let description = match platform {
        Platform::Twitter => String::new(),
        _ => post.text.clone(),
    };
    Sidecar { info_name, info: Json::Object(entries), description_name, description }
}

// ---------------------------------------------------------------------------
// Looking for images
// ---------------------------------------------------------------------------

/// Where the search for images begins.
#[derive(Debug, PartialEq, Eq)]
pub enum Search {
    /// There is nothing to look for.
    Nothing,
    /// The search fails.
    Failed(String),
    /// The address is fetched for the post with the id.
    Fetch { id: String, address: String },
}

/// Where the search for images begins.
pub enum SearchView {
    Nothing,
    Failed(Seq<char>),
    Fetch { id: Seq<char>, address: Seq<char> },
}

impl View for Search {
    type V = SearchView;

    open spec fn view(&self) -> SearchView {
        match self {
            Search::Nothing => SearchView::Nothing,
            Search::Failed(m) => SearchView::Failed(m@),
            Search::Fetch { id, address } => SearchView::Fetch { id: id@, address: address@ },
        }
    }
}

/// What an answer says about the images of a post.
#[derive(Debug, PartialEq, Eq)]
pub enum Images {
    /// These are the addresses of the images.
    Listed(Vec<String>),
    /// Another page is fetched to find them.
    Look(String),
    /// There are none.
    Failed(String),
}

/// What an answer says about the images of a post.
pub enum ImagesView {
    Listed(Seq<Seq<char>>),
    Look(Seq<char>),
    Failed(Seq<char>),
}

impl View for Images {
    type V = ImagesView;

    open spec fn view(&self) -> ImagesView {
        match self {
            Images::Listed(urls) => ImagesView::Listed(texts(urls@)),
            Images::Look(address) => ImagesView::Look(address@),
            Images::Failed(m) => ImagesView::Failed(m@),
        }
    }
}

/// The images that were found, or that there are none.
pub open spec fn listed_or_none(platform: Platform, urls: Seq<Seq<char>>) -> ImagesView {
    if urls.len() > 0 {
        ImagesView::Listed(urls)
    } else {
        ImagesView::Failed(platform.no_images())
    }
}

/// The images that were found, or that there are none.
fn listed(platform: Platform, urls: Vec<String>) -> (r: Images)
    ensures
        r@ == listed_or_none(platform, texts(urls@)),
{
    assert(texts(urls@).len() == urls@.len());
    if urls.len() > 0 {
        Images::Listed(urls)
    } else {
        Images::Failed(platform.no_images_text().to_owned())
    }
}

/// What a kept sidecar is.
pub open spec fn some_sidecar(s: Option<Sidecar>) -> Option<SidecarView> {
    match s {
        Some(v) => Some(v@),
        None => None,
    }
}

/// What is asked of Instagram about a post.
pub open spec fn graphql_address(code: Seq<char>) -> Seq<char> {
    "https://www.instagram.com/graphql/query?"@ + query_text(
        seq![
            ("doc_id"@, "8845758582119845"@),
            ("variables"@, "{\"shortcode\":\""@ + code + "\"}"@),
        ],
    )
}

/// Where the search for the images of an Instagram post begins.
pub open spec fn instagram_start(has_files: bool, address: Seq<char>) -> SearchView {
    if has_files {
        SearchView::Nothing
    } else {
        match instagram_shortcode(address) {
            Err(m) => SearchView::Failed(m),
            Ok(None) => SearchView::Nothing,
            Ok(Some(code)) => SearchView::Fetch { id: code, address: graphql_address(code) },
        }
    }
}

/// Begins the search for the images of an Instagram post.
pub fn instagram_search(has_files: bool, normalized: &str) -> (r: Search)
    ensures
        r@ == instagram_start(has_files, normalized@),
{
    if has_files {
        return Search::Nothing;
    }
    match instagram_shortcode_from_url(normalized) {
        Err(m) => Search::Failed(m),
        Ok(None) => Search::Nothing,
        Ok(Some(code)) => {
            let mut variables = "{\"shortcode\":\"".to_owned();
            variables.append(code.as_str());
            variables.append("\"}");
            let pairs: [(&str, &str); 2] = [
                ("doc_id", "8845758582119845"),
                ("variables", variables.as_str()),
            ];
            let query = form_query(&pairs);
            proof {
                assert(pair_texts(pairs@) == seq![
                    ("doc_id"@, "8845758582119845"@),
                    ("variables"@, "{\"shortcode\":\""@ + code@ + "\"}"@),
                ]);
            }
            let mut address = "https://www.instagram.com/graphql/query?".to_owned();
            address.append(query.as_str());
            Search::Fetch { id: code, address }
        },
    }
}

/// The files that are kept of an answer of Instagram.
pub open spec fn instagram_sidecar(payload: JsonTree, code: Seq<char>, address: Seq<char>) -> Option<
    SidecarView,
> {
    match payload.pointer("/data/xdt_shortcode_media"@) {
        Some(media) => Some(
            sidecar(Platform::Instagram, code, address, instagram_metadata(media)),
        ),
        None => None,
    }
}

/// The images that an answer of Instagram lists.
pub open spec fn instagram_listed(payload: JsonTree) -> Seq<Seq<char>> {
    match payload.pointer("/data/xdt_shortcode_media"@) {
        Some(media) => instagram_images(media),
        None => Seq::empty(),
    }
}

/// What follows an answer of Instagram that lists no images: the embeddable page is looked at.
pub open spec fn embed_look(address: Seq<char>) -> ImagesView {
    match instagram_shortcode(address) {
        Err(m) => ImagesView::Failed(m),
        Ok(None) => ImagesView::Failed(Platform::Instagram.no_images()),
        Ok(Some(code)) => ImagesView::Look(embed_address(code)),
    }
}

/// The images that an answer of Instagram lists.
fn listed_images(payload: &Json) -> (r: Vec<String>)
    ensures
        texts(r@) == instagram_listed(payload@),
{
    match payload.pointer("/data/xdt_shortcode_media") {
        Some(media) => extract_instagram_graphql_image_urls(media),
        None => {
            let none: Vec<String> = Vec::new();
            assert(texts(none@) == Seq::<Seq<char>>::empty());
            none
        },
    }
}

/// The images after an answer of Instagram: those that it lists, or else the embeddable page.
pub open spec fn answered_images(payload: JsonTree, address: Seq<char>) -> ImagesView {
    if instagram_listed(payload).len() > 0 {
        ImagesView::Listed(instagram_listed(payload))
    } else {
        embed_look(address)
    }
}

/// Takes an answer of Instagram about a post: the files to keep, then the images.
pub fn instagram_answer(payload: &Json, code: &str, normalized: &str) -> (r: (
    Option<Sidecar>,
    Images,
))
    requires
        instagram_listed(payload@).len() == 0 ==> embed_url_fits(normalized@),
    ensures
        some_sidecar(r.0) == instagram_sidecar(payload@, code@, normalized@),
        r.1@ == answered_images(payload@, normalized@),
{
    let kept = match payload.pointer("/data/xdt_shortcode_media") {
        Some(media) => match extract_instagram_metadata(media) {
            Some(post) => Some(post_sidecar(Platform::Instagram, code, normalized, &post)),
            None => None,
        },
        None => None,
    };
    let urls = listed_images(payload);
    assert(texts(urls@).len() == urls@.len());
    if urls.len() > 0 {
        return (kept, Images::Listed(urls));
    }
    let next = match instagram_embed_url(normalized) {
        Err(m) => Images::Failed(m),
        Ok(Some(address)) => Images::Look(address),
        Ok(None) => Images::Failed(Platform::Instagram.no_images_text().to_owned()),
    };
    (kept, next)
}

/// Takes an answer of Instagram about a post, where the address of the embeddable page is not
/// needed or not too long to build.
pub fn instagram_answer_if_it_fits(payload: &Json, code: &str, normalized: &str) -> (r: Option<
    (Option<Sidecar>, Images),
>)
    ensures
        r is Some <==> (instagram_listed(payload@).len() > 0 || embed_url_fits(normalized@)),
        r matches Some(taken) ==> some_sidecar(taken.0) == instagram_sidecar(
            payload@,
            code@,
            normalized@,
        ) && taken.1@ == answered_images(payload@, normalized@),
{
    let urls = listed_images(payload);
    assert(texts(urls@).len() == urls@.len());
    if urls.len() > 0 || has_fitting_embed_url(normalized) {
        Some(instagram_answer(payload, code, normalized))
    } else {
        None
    }
}

/// Takes the embeddable page of an Instagram post.
pub fn instagram_page(html: &str) -> (r: Images)
    ensures
        r@ == listed_or_none(Platform::Instagram, sidecar_images(html@)),
{
    listed(Platform::Instagram, extract_instagram_sidecar_image_urls(html))
}

/// Where the search for the images of a Twitter post begins.
pub open spec fn twitter_start(has_files: bool, address: Seq<char>) -> SearchView {
    if has_files {
        SearchView::Nothing
    } else {
        match twitter_status_id(address) {
            Err(m) => SearchView::Failed(m),
            Ok(None) => SearchView::Nothing,
            Ok(Some(id)) => SearchView::Fetch { id, address },
        }
    }
}

/// Begins the search for the images of a Twitter post.
pub fn twitter_search(has_files: bool, normalized: &str) -> (r: Search)
    ensures
        r@ == twitter_start(has_files, normalized@),
{
    if has_files {
        return Search::Nothing;
    }
    match twitter_status_id_from_url(normalized) {
        Err(m) => Search::Failed(m),
        Ok(None) => Search::Nothing,
        Ok(Some(id)) => Search::Fetch { id, address: normalized.to_owned() },
    }
}

/// The files that are kept of a page of Twitter.
pub open spec fn twitter_sidecar(html: Seq<char>, id: Seq<char>, address: Seq<char>) -> Option<
    SidecarView,
> {
    match twitter_metadata(html, id) {
        Some(post) => Some(sidecar(Platform::Twitter, id, address, post)),
        None => None,
    }
}

/// Takes a page of Twitter: the files to keep, then the images.
pub fn twitter_page(html: &str, id: &str, normalized: &str) -> (r: (Option<Sidecar>, Images))
    ensures
        some_sidecar(r.0) == twitter_sidecar(html@, id@, normalized@),
        r.1@ == listed_or_none(Platform::Twitter, twitter_images(html@)),
{
    let kept = match extract_twitter_metadata(html, id) {
        Some(post) => Some(post_sidecar(Platform::Twitter, id, normalized, &post)),
        None => None,
    };
    (kept, listed(Platform::Twitter, extract_twitter_image_urls(html)))
}

/// Where the search for the images of a Bluesky post begins.
#[derive(Debug, PartialEq, Eq)]
pub enum HandleSearch {
    /// There is nothing to look for.
    Nothing,
    /// The search fails.
    Failed(String),
    /// The address is fetched to find the author.
    Resolve { handle: String, rkey: String, address: String },
}

/// Where the search for the images of a Bluesky post begins.
pub enum HandleSearchView {
    Nothing,
    Failed(Seq<char>),
    Resolve { handle: Seq<char>, rkey: Seq<char>, address: Seq<char> },
}

impl View for HandleSearch {
    type V = HandleSearchView;

    open spec fn view(&self) -> HandleSearchView {
        match self {
            HandleSearch::Nothing => HandleSearchView::Nothing,
            HandleSearch::Failed(m) => HandleSearchView::Failed(m@),
            HandleSearch::Resolve { handle, rkey, address } => HandleSearchView::Resolve {
                handle: handle@,
                rkey: rkey@,
                address: address@,
            },
        }
    }
}

/// What is asked of Bluesky about a handle.
pub open spec fn resolve_address(handle: Seq<char>) -> Seq<char> {
    "https://public.api.bsky.app/xrpc/com.atproto.identity.resolveHandle?"@ + query_text(
        seq![("handle"@, handle)],
    )
}

/// Where the search for the images of a Bluesky post begins.
pub open spec fn bluesky_start(has_files: bool, address: Seq<char>) -> HandleSearchView {
    if has_files {
        HandleSearchView::Nothing
    } else {
        match bluesky_post(address) {
            Err(m) => HandleSearchView::Failed(m),
            Ok(None) => HandleSearchView::Nothing,
            Ok(Some((handle, rkey))) => HandleSearchView::Resolve {
                handle,
                rkey,
                address: resolve_address(handle),
            },
        }
    }
}

/// Begins the search for the images of a Bluesky post.
pub fn bluesky_search(has_files: bool, normalized: &str) -> (r: HandleSearch)
    ensures
        r@ == bluesky_start(has_files, normalized@),
{
    if has_files {
        return HandleSearch::Nothing;
    }
    match bluesky_post_ref_from_url(normalized) {
        Err(m) => HandleSearch::Failed(m),
        Ok(None) => HandleSearch::Nothing,
        Ok(Some(post)) => {
            let pairs: [(&str, &str); 1] = [("handle", post.handle.as_str())];
            let query = form_query(&pairs);
            assert(pair_texts(pairs@) == seq![("handle"@, post.handle@)]);
            let mut address =
                "https://public.api.bsky.app/xrpc/com.atproto.identity.resolveHandle?".to_owned();
            address.append(query.as_str());
            HandleSearch::Resolve { handle: post.handle, rkey: post.rkey, address }
        },
    }
}

/// What is asked of Bluesky about a post.
pub open spec fn thread_address(did: Seq<char>, rkey: Seq<char>) -> Seq<char> {
    "https://public.api.bsky.app/xrpc/app.bsky.feed.getPostThread?"@ + query_text(
        seq![("uri"@, "at://"@ + did + "/app.bsky.feed.post/"@ + rkey), ("depth"@, "0"@)],
    )
}

/// Takes the answer of Bluesky about a handle: the address at which the post is asked for.
pub fn bluesky_resolved(payload: &Json, handle: &str, rkey: &str) -> (r: Result<String, String>)
    ensures
        match r {
            Ok(a) => payload@.text_at("did"@) matches Some(did) && did.len() > 0 && a@
                == thread_address(did, rkey@),
            Err(m) => !(payload@.text_at("did"@) matches Some(did) && did.len() > 0) && m@
                == "Bluesky handle did not resolve to a DID: "@ + handle@,
        },
{
    match payload.text_at("did") {
        Some(did) if !is_empty_text(did) => {
            let mut uri = "at://".to_owned();
            uri.append(did);
            uri.append("/app.bsky.feed.post/");
            uri.append(rkey);
            let pairs: [(&str, &str); 2] = [("uri", uri.as_str()), ("depth", "0")];
            let query = form_query(&pairs);
            assert(pair_texts(pairs@) == seq![
                ("uri"@, "at://"@ + did@ + "/app.bsky.feed.post/"@ + rkey@),
                ("depth"@, "0"@),
            ]);
            let mut address =
                "https://public.api.bsky.app/xrpc/app.bsky.feed.getPostThread?".to_owned();
            address.append(query.as_str());
            Ok(address)
        },
        _ => {
            let mut message = "Bluesky handle did not resolve to a DID: ".to_owned();
            message.append(handle);
            Err(message)
        },
    }
}

/// Takes the answer of Bluesky about a post: the files to keep, then the images.
pub fn bluesky_answer(payload: &Json, rkey: &str, normalized: &str) -> (r: Result<
    (Sidecar, Images),
    String,
>)
    ensures
        match payload@.pointer("/thread/post"@) {
            Some(post) => r matches Ok(found) && found.0@ == sidecar(
                Platform::Bluesky,
                rkey@,
                normalized@,
                bluesky_metadata(post),
            ) && found.1@ == listed_or_none(Platform::Bluesky, bluesky_images(post)),
            None => r matches Err(m) && m@
                == "Bluesky post response did not include thread.post"@,
        },
{
    match payload.pointer("/thread/post") {
        Some(post) => match extract_bluesky_metadata(post) {
            Some(metadata) => Ok(
                (
                    post_sidecar(Platform::Bluesky, rkey, normalized, &metadata),
                    listed(Platform::Bluesky, extract_bluesky_image_urls(post)),
                ),
            ),
            None => Err(String::new()),
        },
        None => Err("Bluesky post response did not include thread.post".to_owned()),
    }
}

// ---------------------------------------------------------------------------
// Image files
// ---------------------------------------------------------------------------

/// What the header of an answer says about its content.
pub enum ContentType {
    Missing,
    Unreadable,
    Named(String),
}

/// Whether an answer may hold an image: what it says about its content, if anything, is that it
/// is one.
pub open spec fn may_be_image(content: ContentType) -> bool {
    match content {
        ContentType::Missing => true,
        ContentType::Unreadable => false,
        ContentType::Named(t) => has_prefix(t@, "image/"@),
    }
}

/// Checks that an answer may hold an image.
pub fn check_image_type(platform: Platform, content: &ContentType) -> (r: Result<(), String>)
    ensures
        match r {
            Ok(_) => may_be_image(*content),
            Err(m) => !may_be_image(*content) && m@ == platform.label()
                + " image URL returned non-image content type: "@ + (match content {
                ContentType::Named(t) => t@,
                _ => "<invalid content type>"@,
            }),
        },
{
    let shown = match content {
        ContentType::Missing => {
            return Ok(());
        },
        ContentType::Unreadable => "<invalid content type>",
        ContentType::Named(t) => {
            let cs = chars_of(t.as_str());
            if starts_with(cs.as_slice(), "image/") {
                return Ok(());
            }
            t.as_str()
        },
    };
    let mut message = platform.label_text().to_owned();
    message.append(" image URL returned non-image content type: ");
    message.append(shown);
    Err(message)
}

/// The name of the file for an image, by its position.
pub open spec fn image_name(platform: Platform, index: nat, address: Seq<char>) -> Seq<char> {
    platform.image_prefix() + two_digits(index + 1) + "."@ + image_extension(address)
}

/// Names the file for an image, by its position.
pub fn image_file_name(platform: Platform, index: usize, image_url: &str) -> (r: String)
    requires
        index < usize::MAX,
    ensures
        r@ == image_name(platform, index as nat, image_url@),
{
    let mut out = platform.image_prefix_text().to_owned();
    let number = two_digit_text((index + 1) as u64);
    out.append(number.as_str());
    out.append(".");
    out.append(image_extension_from_url(image_url));
    out
}

} // verus!
