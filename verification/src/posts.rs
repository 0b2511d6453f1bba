//! What the pages and answers of social platforms say about a post: who wrote it, when, its text
//! and the addresses of its images.
use vstd::prelude::*;
use vstd::slice::slice_subrange;

use crate::json::{
    item_trees, json_prefix, parse_leading_json, some_string, some_text, some_tree, Json,
    JsonTree,
};
use crate::links::{
    bluesky_image_address, instagram_media_image, is_bluesky_image_url,
    is_instagram_media_image_url, twitter_original, twitter_original_image_url,
};
use crate::text::{
    chars_of, find, find_from, first_nonblank, first_nonblank_line, has_prefix, lemma_find_from,
    lines, matches_at, position_from, position_of, replace, replace_all, same_text, starts_with,
    text_of, texts, trim, trim_chars,
};

verus! {

// ---------------------------------------------------------------------------
// Texts
// ---------------------------------------------------------------------------

/// A text of a page with its character references resolved, the ampersand last.
pub open spec fn unescaped(s: Seq<char>) -> Seq<char> {
    replace(
        replace(
            replace(replace(replace(s, "&quot;"@, "\""@), "&#x27;"@, "'"@), "&lt;"@, "<"@),
            "&gt;"@,
            ">"@,
        ),
        "&amp;"@,
        "&"@,
    )
}

/// A text of a page, decoded and trimmed.
pub open spec fn decoded(s: Seq<char>) -> Seq<char> {
    trim(unescaped(s))
}

/// A text of a page, decoded and trimmed.
pub fn decode_twitter_text(input: &str) -> (r: String)
    ensures
        r@ == decoded(input@),
{
    proof {
        reveal_strlit("&quot;");
        reveal_strlit("&#x27;");
        reveal_strlit("&lt;");
        reveal_strlit("&gt;");
        reveal_strlit("&amp;");
    }
    let cs = chars_of(input);
    let cs = replace_all(cs.as_slice(), "&quot;", "\"");
    let cs = replace_all(cs.as_slice(), "&#x27;", "'");
    let cs = replace_all(cs.as_slice(), "&lt;", "<");
    let cs = replace_all(cs.as_slice(), "&gt;", ">");
    let cs = replace_all(cs.as_slice(), "&amp;", "&");
    text_of(trim_chars(cs.as_slice()))
}

/// An address as it stands in a script of a page, without its escapes.
pub open spec fn decoded_address(s: Seq<char>) -> Seq<char> {
    replace(
        replace(replace(replace(s, "\\\\/"@, "/"@), "\\/"@, "/"@), "\\u0026"@, "&"@),
        "&amp;"@,
        "&"@,
    )
}

/// An address as it stands in a script of a page, without its escapes.
pub fn decode_instagram_embed_url(input: &str) -> (r: String)
    ensures
        r@ == decoded_address(input@),
{
    proof {
        reveal_strlit("\\\\/");
        reveal_strlit("\\/");
        reveal_strlit("\\u0026");
        reveal_strlit("&amp;");
    }
    let cs = chars_of(input);
    let cs = replace_all(cs.as_slice(), "\\\\/", "/");
    let cs = replace_all(cs.as_slice(), "\\/", "/");
    let cs = replace_all(cs.as_slice(), "\\u0026", "&");
    let cs = replace_all(cs.as_slice(), "&amp;", "&");
    text_of(cs.as_slice())
}

/// The trimmed text, if there is one and it is not blank.
pub open spec fn nonblank(s: Option<Seq<char>>) -> Option<Seq<char>> {
    match s {
        Some(t) => if trim(t).len() > 0 {
            Some(trim(t))
        } else {
            None
        },
        None => None,
    }
}

/// The trimmed text, if there is one and it is not blank.
pub fn nonblank_text(s: Option<&str>) -> (r: Option<String>)
    ensures
        some_string(r) == nonblank(some_text(s)),
{
    match s {
        Some(t) => {
            let cs = chars_of(t);
            let inner = trim_chars(cs.as_slice());
            if inner.len() > 0 {
                Some(text_of(inner))
            } else {
                None
            }
        },
        None => None,
    }
}

/// The decoded text, if there is one and something is left of it.
pub open spec fn decoded_nonempty(s: Option<Seq<char>>) -> Option<Seq<char>> {
    match s {
        Some(t) => if decoded(t).len() > 0 {
            Some(decoded(t))
        } else {
            None
        },
        None => None,
    }
}

/// Whether the text is empty.
pub fn is_empty_text(s: &str) -> (r: bool)
    ensures
        r == (s@.len() == 0),
{
    let cs = chars_of(s);
    cs.len() == 0
}

/// The decoded text, if there is one and something is left of it.
fn decoded_text(s: Option<&str>) -> (r: Option<String>)
    ensures
        some_string(r) == decoded_nonempty(some_text(s)),
{
    match s {
        Some(t) => {
            let d = decode_twitter_text(t);
            if is_empty_text(d.as_str()) {
                None
            } else {
                Some(d)
            }
        },
        None => None,
    }
}

/// The text at a key of what may be there.
pub open spec fn field(parent: Option<JsonTree>, key: Seq<char>) -> Option<Seq<char>> {
    match parent {
        Some(j) => j.text_at(key),
        None => None,
    }
}

/// The text at a key of what may be there.
fn field_of<'a>(parent: Option<&'a Json>, key: &str) -> (r: Option<&'a str>)
    ensures
        some_text(r) == field(some_tree(parent), key@),
{
    match parent {
        Some(j) => j.text_at(key),
        None => None,
    }
}

/// The text that a JSON pointer leads to.
pub open spec fn text_behind(j: JsonTree, pointer: Seq<char>) -> Option<Seq<char>> {
    match j.pointer(pointer) {
        Some(t) => t.text(),
        None => None,
    }
}

/// The text that a JSON pointer leads to.
fn text_at_pointer<'a>(j: &'a Json, pointer: &str) -> (r: Option<&'a str>)
    ensures
        some_text(r) == text_behind(j@, pointer@),
{
    match j.pointer(pointer) {
        Some(t) => t.as_text(),
        None => None,
    }
}

/// The items of the array that a JSON pointer leads to.
pub open spec fn items_behind(j: JsonTree, pointer: Seq<char>) -> Option<Seq<JsonTree>> {
    match j.pointer(pointer) {
        Some(t) => t.items(),
        None => None,
    }
}

/// The items of the array that a JSON pointer leads to.
fn items_at_pointer<'a>(j: &'a Json, pointer: &str) -> (r: Option<&'a Vec<Json>>)
    ensures
        match r {
            Some(items) => items_behind(j@, pointer@) == Some(item_trees(items@)),
            None => items_behind(j@, pointer@) is None,
        },
{
    match j.pointer(pointer) {
        Some(t) => t.as_array(),
        None => None,
    }
}

// ---------------------------------------------------------------------------
// Posts
// ---------------------------------------------------------------------------

/// What is known of a post.
#[derive(Debug, PartialEq, Eq)]
pub struct PostMetadata {
    pub source_name: String,
    pub source_handle: Option<String>,
    pub timestamp: Option<i64>,
    pub title: String,
    pub text: String,
}

/// What is known of a post.
#[verifier::ext_equal]
pub struct PostView {
    pub source_name: Seq<char>,
    pub source_handle: Option<Seq<char>>,
    pub timestamp: Option<i64>,
    pub title: Seq<char>,
    pub text: Seq<char>,
}

impl View for PostMetadata {
    type V = PostView;

    open spec fn view(&self) -> PostView {
        PostView {
            source_name: self.source_name@,
            source_handle: some_string(self.source_handle),
            timestamp: self.timestamp,
            title: self.title@,
            text: self.text@,
        }
    }
}

/// What a found post is.
pub open spec fn some_post(p: Option<PostMetadata>) -> Option<PostView> {
    match p {
        Some(m) => Some(m@),
        None => None,
    }
}

/// The seconds since 1970 of the time that `chrono::DateTime::parse_from_rfc3339` reads from a
/// text.
pub uninterp spec fn rfc3339_seconds(text: Seq<char>) -> Option<i64>;

/// Calls `chrono::DateTime::parse_from_rfc3339` and takes the timestamp of the time. The result
/// depends on the text alone, and is named `rfc3339_seconds`.
#[verifier::external_body]
fn parse_rfc3339(text: &str) -> (r: Option<i64>)
    ensures
        r == rfc3339_seconds(text@),
{
    chrono::DateTime::parse_from_rfc3339(text).ok().map(|time| time.timestamp())
}

/// The time that a text names.
pub open spec fn time_named(text: Option<Seq<char>>) -> Option<i64> {
    match text {
        Some(t) => rfc3339_seconds(t),
        None => None,
    }
}

/// The time that a text names.
fn time_of(text: Option<&str>) -> (r: Option<i64>)
    ensures
        r == time_named(some_text(text)),
{
    match text {
        Some(t) => parse_rfc3339(t),
        None => None,
    }
}

/// The name under which a post is shown: the name of its author, else the handle, else `unknown`.
pub open spec fn shown_name(name: Option<Seq<char>>, handle: Option<Seq<char>>) -> Seq<char> {
    match decoded_nonempty(name) {
        Some(n) => n,
        None => match handle {
            Some(h) => h,
            None => "unknown"@,
        },
    }
}

/// The name under which a post is shown.
fn name_of(name: Option<&str>, handle: &Option<String>) -> (r: String)
    ensures
        r@ == shown_name(some_text(name), some_string(*handle)),
{
    match decoded_text(name) {
        Some(n) => n,
        None => match handle {
            Some(h) => h.clone(),
            None => "unknown".to_owned(),
        },
    }
}

/// A handle behind an at sign.
pub open spec fn at_handle(handle: Option<Seq<char>>) -> Option<Seq<char>> {
    match handle {
        Some(h) => Some("@"@ + h),
        None => None,
    }
}

/// A handle behind an at sign.
fn with_at(handle: &Option<String>) -> (r: Option<String>)
    ensures
        some_string(r) == at_handle(some_string(*handle)),
{
    match handle {
        Some(h) => {
            let mut out = "@".to_owned();
            out.append(h.as_str());
            Some(out)
        },
        None => None,
    }
}

/// The first line of a text that is not blank.
pub open spec fn headline(text: Seq<char>) -> Option<Seq<char>> {
    first_nonblank(lines(text))
}

/// What a Bluesky post says about itself.
pub open spec fn bluesky_metadata(post: JsonTree) -> PostView {
    let author = post.get("author"@);
    let handle = nonblank(field(author, "handle"@));
    let text = match text_behind(post, "/record/text"@) {
        Some(t) => decoded(t),
        None => Seq::empty(),
    };
    PostView {
        source_name: shown_name(field(author, "displayName"@), handle),
        source_handle: at_handle(handle),
        timestamp: time_named(text_behind(post, "/record/createdAt"@)),
        title: match headline(text) {
            Some(t) => t,
            None => "untitled"@,
        },
        text,
    }
}

/// What a Bluesky post says about itself.
pub fn extract_bluesky_metadata(post: &Json) -> (r: Option<PostMetadata>)
    ensures
        some_post(r) == Some(bluesky_metadata(post@)),
{
    let author = post.get("author");
    let handle = nonblank_text(field_of(author, "handle"));
    let text = match text_at_pointer(post, "/record/text") {
        Some(t) => decode_twitter_text(t),
        None => String::new(),
    };
    let cs = chars_of(text.as_str());
    let title = match first_nonblank_line(cs.as_slice()) {
        Some(t) => t,
        None => "untitled".to_owned(),
    };
    Some(
        PostMetadata {
            source_name: name_of(field_of(author, "displayName"), &handle),
            source_handle: with_at(&handle),
            timestamp: time_of(text_at_pointer(post, "/record/createdAt")),
            title,
            text,
        },
    )
}

/// The first caption among the edges from position `i` on with something in it.
pub open spec fn caption_from(edges: Seq<JsonTree>, i: int) -> Option<Seq<char>>
    decreases edges.len() - i,
{
    if i < 0 || i >= edges.len() {
        None
    } else {
        match decoded_nonempty(text_behind(edges[i], "/node/text"@)) {
            Some(t) => Some(t),
            None => caption_from(edges, i + 1),
        }
    }
}

/// The caption of an Instagram post.
pub open spec fn caption(media: JsonTree) -> Option<Seq<char>> {
    match items_behind(media, "/edge_media_to_caption/edges"@) {
        Some(edges) => caption_from(edges, 0),
        None => None,
    }
}

/// The caption of an Instagram post.
pub fn instagram_caption_text(media: &Json) -> (r: Option<String>)
    ensures
        some_string(r) == caption(media@),
{
    match items_at_pointer(media, "/edge_media_to_caption/edges") {
        Some(edges) => {
            let ghost all = item_trees(edges@);
            let mut i: usize = 0;
            while i < edges.len()
                invariant
                    i <= edges.len(),
                    all == item_trees(edges@),
                    caption(media@) == caption_from(all, i as int),
                decreases edges.len() - i,
            {
                assert(all[i as int] == edges@[i as int]@);
                match decoded_text(text_at_pointer(&edges[i], "/node/text")) {
                    Some(t) => {
                        return Some(t);
                    },
                    None => {},
                }
                i += 1;
            }
            None
        },
        None => None,
    }
}

/// The title of an Instagram post: the first line of its caption, else what the image shows.
pub open spec fn instagram_headline(media: JsonTree, caption: Seq<char>) -> Seq<char> {
    match headline(caption) {
        Some(t) => t,
        None => match decoded_nonempty(media.text_at("accessibility_caption"@)) {
            Some(t) => t,
            None => "untitled"@,
        },
    }
}

/// The title of an Instagram post.
pub fn instagram_title(media: &Json, caption: &str) -> (r: String)
    ensures
        r@ == instagram_headline(media@, caption@),
{
    let cs = chars_of(caption);
    match first_nonblank_line(cs.as_slice()) {
        Some(t) => t,
        None => match decoded_text(media.text_at("accessibility_caption")) {
            Some(t) => t,
            None => "untitled".to_owned(),
        },
    }
}

/// What an Instagram post says about itself.
pub open spec fn instagram_metadata(media: JsonTree) -> PostView {
    let owner = media.get("owner"@);
    let username = nonblank(field(owner, "username"@));
    let text = match caption(media) {
        Some(t) => t,
        None => Seq::empty(),
    };
    PostView {
        source_name: shown_name(field(owner, "full_name"@), username),
        source_handle: at_handle(username),
        timestamp: match media.get("taken_at_timestamp"@) {
            Some(t) => t.signed(),
            None => None,
        },
        title: instagram_headline(media, text),
        text,
    }
}

/// What an Instagram post says about itself.
pub fn extract_instagram_metadata(media: &Json) -> (r: Option<PostMetadata>)
    ensures
        some_post(r) == Some(instagram_metadata(media@)),
{
    let owner = media.get("owner");
    let username = nonblank_text(field_of(owner, "username"));
    let text = match instagram_caption_text(media) {
        Some(t) => t,
        None => String::new(),
    };
    let title = instagram_title(media, text.as_str());
    Some(
        PostMetadata {
            source_name: name_of(field_of(owner, "full_name"), &username),
            source_handle: with_at(&username),
            timestamp: match media.get("taken_at_timestamp") {
                Some(t) => t.as_i64(),
                None => None,
            },
            title,
            text,
        },
    )
}

/// The smaller of a number and a length.
pub open spec fn at_most(n: int, len: nat) -> int {
    if n < len {
        n
    } else {
        len as int
    }
}

/// The part of a tweet's text that is shown. The range counts characters.
pub open spec fn shown_range(raw: Seq<char>, range: Option<Seq<JsonTree>>) -> Seq<char> {
    match range {
        Some(r) => {
            let start = if r.len() > 0 && r[0].unsigned() is Some {
                r[0].unsigned()->0 as int
            } else {
                0
            };
            let end = if r.len() > 1 && r[1].unsigned() is Some {
                r[1].unsigned()->0 as int
            } else {
                raw.len() as int
            };
            if end <= start {
                Seq::empty()
            } else {
                raw.subrange(at_most(start, raw.len()), at_most(end, raw.len()))
            }
        },
        None => raw,
    }
}

/// The text that a tweet shows.
pub open spec fn visible_text(tweet: JsonTree) -> Option<Seq<char>> {
    let holder = match tweet.get("full_text"@) {
        Some(t) => Some(t),
        None => tweet.get("text"@),
    };
    match holder {
        Some(t) => match t.text() {
            Some(raw) => Some(
                decoded(
                    shown_range(
                        raw,
                        match tweet.get("display_text_range"@) {
                            Some(r) => r.items(),
                            None => None,
                        },
                    ),
                ),
            ),
            None => None,
        },
        None => None,
    }
}

/// The number at a position of an array.
fn number_in(items: &Vec<Json>, i: usize) -> (r: Option<u64>)
    ensures
        r == if i < items.len() {
            item_trees(items@)[i as int].unsigned()
        } else {
            None
        },
{
    if i < items.len() {
        items[i].as_u64()
    } else {
        None
    }
}

/// The part of a tweet's text that is shown.
fn range_of(raw: &str, range: Option<&Vec<Json>>) -> (r: String)
    ensures
        r@ == shown_range(
            raw@,
            match range {
                Some(items) => Some(item_trees(items@)),
                None => None,
            },
        ),
{
    match range {
        Some(items) => {
            let cs = chars_of(raw);
            let len = cs.len() as u64;
            let start: u64 = match number_in(items, 0) {
                Some(n) => n,
                None => 0,
            };
            let end: u64 = match number_in(items, 1) {
                Some(n) => n,
                None => len,
            };
            if end <= start {
                return String::new();
            }
            let from: usize = if start < len {
                start as usize
            } else {
                cs.len()
            };
            let to: usize = if end < len {
                end as usize
            } else {
                cs.len()
            };
            text_of(slice_subrange(cs.as_slice(), from, to))
        },
        None => raw.to_owned(),
    }
}

/// The text that a tweet shows.
pub fn twitter_visible_text(tweet: &Json) -> (r: Option<String>)
    ensures
        some_string(r) == visible_text(tweet@),
{
    let holder = match tweet.get("full_text") {
        Some(t) => Some(t),
        None => tweet.get("text"),
    };
    match holder {
        Some(t) => match t.as_text() {
            Some(raw) => {
                let range = match tweet.get("display_text_range") {
                    Some(r) => r.as_array(),
                    None => None,
                };
                let shown = range_of(raw, range);
                Some(decode_twitter_text(shown.as_str()))
            },
            None => None,
        },
        None => None,
    }
}

/// The state that a page of Twitter carries.
pub open spec fn initial_state(html: Seq<char>) -> Option<JsonTree> {
    match find(html, "window.__INITIAL_STATE__="@) {
        Some(i) => json_prefix(html.skip(i + "window.__INITIAL_STATE__="@.len())),
        None => None,
    }
}

/// The state that a page of Twitter carries.
pub fn extract_twitter_initial_state(html: &str) -> (r: Option<Json>)
    ensures
        match r {
            Some(j) => initial_state(html@) == Some(j@),
            None => initial_state(html@) is None,
        },
{
    let cs = chars_of(html);
    let len: usize = cs.len();
    let marker = chars_of("window.__INITIAL_STATE__=");
    match position_of(cs.as_slice(), "window.__INITIAL_STATE__=") {
        Some(i) => {
            proof {
                lemma_find_from(cs@, marker@, 0);
                assert(matches_at(cs@, marker@, i as int));
            }
            let rest = slice_subrange(cs.as_slice(), i + marker.len(), len);
            assert(rest@ == html@.skip(i + marker@.len()));
            let text = text_of(rest);
            parse_leading_json(text.as_str())
        },
        None => None,
    }
}

/// What a state says about the tweet with an id.
pub open spec fn twitter_metadata_in(state: JsonTree, status_id: Seq<char>) -> Option<PostView> {
    match state.pointer("/entities/tweets/entities/"@ + status_id) {
        Some(tweet) => {
            let user = match tweet.text_at("user"@) {
                Some(id) => state.pointer("/entities/users/entities/"@ + id),
                None => None,
            };
            let text = match visible_text(tweet) {
                Some(t) => if t.len() > 0 {
                    t
                } else {
                    "untitled"@
                },
                None => "untitled"@,
            };
            Some(
                PostView {
                    source_name: shown_name(field(user, "name"@), None),
                    source_handle: at_handle(nonblank(field(user, "screen_name"@))),
                    timestamp: time_named(tweet.text_at("created_at"@)),
                    title: text,
                    text,
                },
            )
        },
        None => None,
    }
}

/// What a state says about the tweet with an id.
pub fn twitter_metadata_from(state: &Json, status_id: &str) -> (r: Option<PostMetadata>)
    ensures
        some_post(r) == twitter_metadata_in(state@, status_id@),
{
    let mut tweet_pointer = "/entities/tweets/entities/".to_owned();
    tweet_pointer.append(status_id);
    match state.pointer(tweet_pointer.as_str()) {
        Some(tweet) => {
            let user = match tweet.text_at("user") {
                Some(id) => {
                    let mut user_pointer = "/entities/users/entities/".to_owned();
                    user_pointer.append(id);
                    state.pointer(user_pointer.as_str())
                },
                None => None,
            };
            let text = match twitter_visible_text(tweet) {
                Some(t) => if is_empty_text(t.as_str()) {
                    "untitled".to_owned()
                } else {
                    t
                },
                None => "untitled".to_owned(),
            };
            let handle = nonblank_text(field_of(user, "screen_name"));
            Some(
                PostMetadata {
                    source_name: name_of(field_of(user, "name"), &None),
                    source_handle: with_at(&handle),
                    timestamp: time_of(tweet.text_at("created_at")),
                    title: text.clone(),
                    text,
                },
            )
        },
        None => None,
    }
}

/// What a page of Twitter says about the tweet with an id.
pub open spec fn twitter_metadata(html: Seq<char>, status_id: Seq<char>) -> Option<PostView> {
    match initial_state(html) {
        Some(state) => twitter_metadata_in(state, status_id),
        None => None,
    }
}

/// What a page of Twitter says about the tweet with an id.
pub fn extract_twitter_metadata(html: &str, status_id: &str) -> (r: Option<PostMetadata>)
    ensures
        some_post(r) == twitter_metadata(html@, status_id@),
{
    match extract_twitter_initial_state(html) {
        Some(state) => twitter_metadata_from(&state, status_id),
        None => None,
    }
}

// ---------------------------------------------------------------------------
// Images
// ---------------------------------------------------------------------------

/// What is listed of a row of candidates: each that there is, once, where it comes first.
pub open spec fn distinct(candidates: Seq<Option<Seq<char>>>) -> Seq<Seq<char>>
    decreases candidates.len(),
{
    if candidates.len() == 0 {
        Seq::empty()
    } else {
        let before = distinct(candidates.drop_last());
        match candidates.last() {
            Some(c) => if before.contains(c) {
                before
            } else {
                before.push(c)
            },
            None => before,
        }
    }
}

/// A list of distinct candidates holds nothing twice, and what it holds are the candidates.
pub proof fn listed_candidates_are_distinct(candidates: Seq<Option<Seq<char>>>)
    ensures
        forall|i: int, j: int|
            0 <= i < j < distinct(candidates).len() ==> #[trigger] distinct(candidates)[i]
                != #[trigger] distinct(candidates)[j],
        forall|i: int|
            0 <= i < distinct(candidates).len() ==> candidates.contains(
                Some(#[trigger] distinct(candidates)[i]),
            ),
        forall|i: int|
            0 <= i < candidates.len() && candidates[i] is Some ==> distinct(candidates).contains(
                (#[trigger] candidates[i])->0,
            ),
    decreases candidates.len(),
{
    if candidates.len() > 0 {
        let shorter = candidates.drop_last();
        let before = distinct(shorter);
        let after = distinct(candidates);
        listed_candidates_are_distinct(shorter);
        assert forall|i: int, j: int| 0 <= i < j < after.len() implies #[trigger] after[i]
            != #[trigger] after[j] by {
            if j < before.len() {
                assert(after[i] == before[i] && after[j] == before[j]);
            } else {
                assert(after[i] == before[i]);
                assert(before.contains(before[i]));
            }
        }
        assert forall|i: int| 0 <= i < after.len() implies candidates.contains(
            Some(#[trigger] after[i]),
        ) by {
            if i < before.len() {
                assert(after[i] == before[i]);
                assert(shorter.contains(Some(before[i])));
                let k = choose|k: int| 0 <= k < shorter.len() && shorter[k] == Some(before[i]);
                assert(candidates[k] == Some(before[i]));
            } else {
                assert(candidates[candidates.len() - 1] == Some(after[i]));
            }
        }
        assert forall|i: int| 0 <= i < candidates.len() && candidates[i] is Some implies
            after.contains((#[trigger] candidates[i])->0) by {
            if i < shorter.len() {
                assert(shorter[i] == candidates[i]);
                let c = candidates[i]->0;
                assert(before.contains(c));
                let k = choose|k: int| 0 <= k < before.len() && before[k] == c;
                assert(after[k] == c);
            } else {
                let c = candidates.last()->0;
                if before.contains(c) {
                    assert(after == before);
                } else {
                    assert(after[before.len() as int] == c);
                }
            }
        }
    }
}

/// Whether the list holds the text.
pub fn lists(list: &Vec<String>, s: &str) -> (r: bool)
    ensures
        r == texts(list@).contains(s@),
{
    let mut i: usize = 0;
    while i < list.len()
        invariant
            i <= list.len(),
            forall|j: int| 0 <= j < i ==> #[trigger] texts(list@)[j] != s@,
        decreases list.len() - i,
    {
        if same_text(list[i].as_str(), s) {
            assert(texts(list@)[i as int] == s@);
            return true;
        }
        i += 1;
    }
    false
}

/// Adds the next candidate to the list.
fn add_candidate(list: &mut Vec<String>, candidate: Option<String>, Ghost(done): Ghost<Seq<Option<Seq<char>>>>)
    requires
        texts(old(list)@) == distinct(done),
    ensures
        texts(final(list)@) == distinct(done.push(some_string(candidate))),
{
    let ghost all = done.push(some_string(candidate));
    assert(all.drop_last() == done);
    match candidate {
        Some(c) => {
            if !lists(list, c.as_str()) {
                let ghost before = texts(list@);
                list.push(c);
                assert(texts(list@) == before.push(c@));
            }
        },
        None => {},
    }
}

/// The image of an entry of a Bluesky post.
pub open spec fn bluesky_candidate(image: JsonTree) -> Option<Seq<char>> {
    match image.text_at("fullsize"@) {
        Some(u) => if bluesky_image_address(u) {
            Some(u)
        } else {
            None
        },
        None => None,
    }
}

/// The image of an entry of a Bluesky post.
fn bluesky_candidate_of(image: &Json) -> (r: Option<String>)
    ensures
        some_string(r) == bluesky_candidate(image@),
{
    match image.text_at("fullsize") {
        Some(u) => if is_bluesky_image_url(u) {
            Some(u.to_owned())
        } else {
            None
        },
        None => None,
    }
}

/// The addresses of the images of a Bluesky post.
pub open spec fn bluesky_images(post: JsonTree) -> Seq<Seq<char>> {
    match items_behind(post, "/embed/images"@) {
        Some(images) => distinct(images.map_values(|i: JsonTree| bluesky_candidate(i))),
        None => Seq::empty(),
    }
}

/// The addresses of the images of a Bluesky post.
pub fn extract_bluesky_image_urls(post: &Json) -> (r: Vec<String>)
    ensures
        texts(r@) == bluesky_images(post@),
{
    let mut urls: Vec<String> = Vec::new();
    assert(texts(urls@) == Seq::<Seq<char>>::empty());
    match items_at_pointer(post, "/embed/images") {
        Some(images) => {
            let ghost all = item_trees(images@).map_values(|i: JsonTree| bluesky_candidate(i));
            let mut i: usize = 0;
            while i < images.len()
                invariant
                    i <= images.len(),
                    all == item_trees(images@).map_values(|i: JsonTree| bluesky_candidate(i)),
                    texts(urls@) == distinct(all.take(i as int)),
                decreases images.len() - i,
            {
                let candidate = bluesky_candidate_of(&images[i]);
                assert(item_trees(images@)[i as int] == images@[i as int]@);
                assert(all.take(i + 1) == all.take(i as int).push(all[i as int]));
                add_candidate(&mut urls, candidate, Ghost(all.take(i as int)));
                i += 1;
            }
            assert(all.take(i as int) == all);
        },
        None => {},
    }
    urls
}

/// The number at a key, or zero.
pub open spec fn number_at(j: JsonTree, key: Seq<char>) -> u64 {
    match j.get(key) {
        Some(n) => match n.unsigned() {
            Some(v) => v,
            None => 0,
        },
        None => 0,
    }
}

/// The number at a key, or zero.
fn number_at_key(j: &Json, key: &str) -> (r: u64)
    ensures
        r == number_at(j@, key@),
{
    match j.get(key) {
        Some(n) => match n.as_u64() {
            Some(v) => v,
            None => 0,
        },
        None => 0,
    }
}

/// The area of an image, at most the largest number.
pub open spec fn area(resource: JsonTree) -> int {
    let product = number_at(resource, "config_width"@) * number_at(resource, "config_height"@);
    if product > u64::MAX {
        u64::MAX as int
    } else {
        product
    }
}

/// The area of an image.
fn area_of(resource: &Json) -> (r: u64)
    ensures
        r == area(resource@),
{
    let width: u64 = number_at_key(resource, "config_width");
    let height: u64 = number_at_key(resource, "config_height");
    match width.checked_mul(height) {
        Some(product) => product,
        None => u64::MAX,
    }
}

/// The position of the image with the largest area, the last of several.
pub open spec fn largest(resources: Seq<JsonTree>) -> Option<int>
    decreases resources.len(),
{
    if resources.len() == 0 {
        None
    } else {
        match largest(resources.drop_last()) {
            Some(i) => if area(resources[i]) > area(resources.last()) {
                Some(i)
            } else {
                Some(resources.len() - 1)
            },
            None => Some(resources.len() - 1),
        }
    }
}

/// No image has a larger area than the largest, and none after it as large a one.
pub proof fn largest_is_largest(resources: Seq<JsonTree>)
    requires
        resources.len() > 0,
    ensures
        largest(resources) matches Some(k) && 0 <= k < resources.len() && (forall|i: int|
            0 <= i < resources.len() ==> area(#[trigger] resources[i]) <= area(resources[k])) && (
        forall|i: int|
            k < i < resources.len() ==> area(#[trigger] resources[i]) < area(resources[k])),
    decreases resources.len(),
{
    let shorter = resources.drop_last();
    if shorter.len() > 0 {
        largest_is_largest(shorter);
        let k = largest(shorter)->0;
        assert(shorter[k] == resources[k]);
        assert forall|i: int| 0 <= i < shorter.len() implies area(#[trigger] resources[i]) <= area(
            resources[k],
        ) by {
            assert(shorter[i] == resources[i]);
        }
        assert forall|i: int| k < i < shorter.len() implies area(#[trigger] resources[i]) < area(
            resources[k],
        ) by {
            assert(shorter[i] == resources[i]);
        }
    }
}

/// The position of the image with the largest area, the last of several.
fn largest_of(resources: &Vec<Json>) -> (r: Option<usize>)
    ensures
        match r {
            Some(k) => largest(item_trees(resources@)) == Some(k as int) && k < resources.len(),
            None => largest(item_trees(resources@)) is None,
        },
{
    let ghost all = item_trees(resources@);
    let mut best: Option<usize> = None;
    let mut i: usize = 0;
    while i < resources.len()
        invariant
            i <= resources.len(),
            all == item_trees(resources@),
            match best {
                Some(k) => largest(all.take(i as int)) == Some(k as int) && k < i,
                None => largest(all.take(i as int)) is None,
            },
        decreases resources.len() - i,
    {
        assert(all.take(i + 1).drop_last() == all.take(i as int));
        assert(all[i as int] == resources@[i as int]@);
        best = match best {
            Some(k) => {
                assert(all[k as int] == resources@[k as int]@);
                if area_of(&resources[k]) > area_of(&resources[i]) {
                    Some(k)
                } else {
                    Some(i)
                }
            },
            None => Some(i),
        };
        i += 1;
    }
    assert(all.take(i as int) == all);
    best
}

/// The address of the largest of the images that a node offers.
pub open spec fn best_resource(media: JsonTree) -> Option<Seq<char>> {
    match media.get("display_resources"@) {
        Some(list) => match list.items() {
            Some(resources) => match largest(resources) {
                Some(k) => resources[k].text_at("src"@),
                None => None,
            },
            None => None,
        },
        None => None,
    }
}

/// The address of the largest of the images that a node offers.
fn best_resource_of(media: &Json) -> (r: Option<&str>)
    ensures
        some_text(r) == best_resource(media@),
{
    match media.get("display_resources") {
        Some(list) => match list.as_array() {
            Some(resources) => match largest_of(resources) {
                Some(k) => {
                    assert(item_trees(resources@)[k as int] == resources@[k as int]@);
                    resources[k].text_at("src")
                },
                None => None,
            },
            None => None,
        },
        None => None,
    }
}

/// The image of a node of an Instagram post: none of a video; of the addresses that are offered
/// the largest, else the one that is displayed, if Instagram serves it in full.
pub open spec fn instagram_candidate(media: JsonTree) -> Option<Seq<char>> {
    if (media.get("is_video"@) matches Some(v) && v.truth() == Some(true)) {
        None
    } else {
        let address = match best_resource(media) {
            Some(u) => Some(u),
            None => media.text_at("display_url"@),
        };
        match address {
            Some(u) => if instagram_media_image(u) {
                Some(u)
            } else {
                None
            },
            None => None,
        }
    }
}

/// The image of a node of an Instagram post.
pub fn instagram_graphql_image_url(media: &Json) -> (r: Option<String>)
    ensures
        some_string(r) == instagram_candidate(media@),
{
    let video = match media.get("is_video") {
        Some(v) => match v.as_bool() {
            Some(b) => b,
            None => false,
        },
        None => false,
    };
    if video {
        return None;
    }
    let address = match best_resource_of(media) {
        Some(u) => Some(u),
        None => media.text_at("display_url"),
    };
    match address {
        Some(u) => if is_instagram_media_image_url(u) {
            Some(u.to_owned())
        } else {
            None
        },
        None => None,
    }
}

/// The image of an edge to a part of an Instagram post.
pub open spec fn child_candidate(edge: JsonTree) -> Option<Seq<char>> {
    match edge.get("node"@) {
        Some(node) => instagram_candidate(node),
        None => None,
    }
}

/// The addresses of the images of an Instagram post: those of its parts, or its own where it has
/// no parts.
pub open spec fn instagram_images(media: JsonTree) -> Seq<Seq<char>> {
    match items_behind(media, "/edge_sidecar_to_children/edges"@) {
        Some(edges) => distinct(edges.map_values(|e: JsonTree| child_candidate(e))),
        None => distinct(seq![instagram_candidate(media)]),
    }
}

/// The addresses of the images of an Instagram post.
pub fn extract_instagram_graphql_image_urls(media: &Json) -> (r: Vec<String>)
    ensures
        texts(r@) == instagram_images(media@),
{
    let mut urls: Vec<String> = Vec::new();
    assert(texts(urls@) == Seq::<Seq<char>>::empty());
    match items_at_pointer(media, "/edge_sidecar_to_children/edges") {
        Some(edges) => {
            let ghost all = item_trees(edges@).map_values(|e: JsonTree| child_candidate(e));
            let mut i: usize = 0;
            while i < edges.len()
                invariant
                    i <= edges.len(),
                    all == item_trees(edges@).map_values(|e: JsonTree| child_candidate(e)),
                    texts(urls@) == distinct(all.take(i as int)),
                decreases edges.len() - i,
            {
                let candidate = match edges[i].get("node") {
                    Some(node) => instagram_graphql_image_url(node),
                    None => None,
                };
                assert(item_trees(edges@)[i as int] == edges@[i as int]@);
                assert(all.take(i + 1) == all.take(i as int).push(all[i as int]));
                add_candidate(&mut urls, candidate, Ghost(all.take(i as int)));
                i += 1;
            }
            assert(all.take(i as int) == all);
        },
        None => {
            let candidate = instagram_graphql_image_url(media);
            add_candidate(&mut urls, candidate, Ghost(Seq::empty()));
            assert(Seq::<Option<Seq<char>>>::empty().push(some_string(candidate)) == seq![
                instagram_candidate(media@),
            ]);
        },
    }
    urls
}

// ---------------------------------------------------------------------------
// Images in pages
// ---------------------------------------------------------------------------

/// What stands between the pattern `p` and the next `q`, time after time, from position `i` on.
pub open spec fn enclosed_from(s: Seq<char>, p: Seq<char>, q: Seq<char>, i: int) -> Seq<Seq<char>>
    decreases s.len() + 1 - i,
{
    match find_from(s, p, i) {
        Some(k) => match find_from(s, q, (k + p.len()) as int) {
            Some(e) => if i <= k && k + p.len() <= e && e + q.len() <= s.len() && p.len() + q.len()
                > 0 {
                seq![s.subrange((k + p.len()) as int, e)] + enclosed_from(
                    s,
                    p,
                    q,
                    (e + q.len()) as int,
                )
            } else {
                Seq::empty()
            },
            None => Seq::empty(),
        },
        None => Seq::empty(),
    }
}

/// What stands between the pattern `p` and the next `q`, time after time.
pub open spec fn enclosed(s: Seq<char>, p: Seq<char>, q: Seq<char>) -> Seq<Seq<char>> {
    enclosed_from(s, p, q, 0)
}

/// What stands between the pattern and the next end mark, time after time.
fn enclosed_texts(s: &[char], pattern: &str, end: &str) -> (r: Vec<String>)
    requires
        pattern@.len() + end@.len() > 0,
    ensures
        texts(r@) == enclosed(s@, pattern@, end@),
{
    let p = chars_of(pattern);
    let q = chars_of(end);
    let mut out: Vec<String> = Vec::new();
    assert(texts(out@) == Seq::<Seq<char>>::empty());
    let mut i: usize = 0;
    let len: usize = s.len();
    loop
        invariant
            p@ == pattern@,
            q@ == end@,
            p@.len() + q@.len() > 0,
            i <= s@.len(),
            len == s@.len(),
            enclosed(s@, pattern@, end@) == texts(out@) + enclosed_from(s@, p@, q@, i as int),
        decreases s.len() - i,
    {
        let start: usize = match position_from(s, p.as_slice(), i) {
            Some(k) => {
                proof {
                    lemma_find_from(s@, p@, i as int);
                    assert(matches_at(s@, p@, k as int));
                }
                k + p.len()
            },
            None => {
                assert(texts(out@) + Seq::<Seq<char>>::empty() == texts(out@));
                return out;
            },
        };
        let stop: usize = match position_from(s, q.as_slice(), start) {
            Some(e) => {
                proof {
                    lemma_find_from(s@, q@, start as int);
                    assert(matches_at(s@, q@, e as int));
                }
                e
            },
            None => {
                assert(texts(out@) + Seq::<Seq<char>>::empty() == texts(out@));
                return out;
            },
        };
        let piece = text_of(slice_subrange(s, start, stop));
        let ghost before = texts(out@);
        let ghost rest = enclosed_from(s@, p@, q@, stop + q@.len());
        out.push(piece);
        proof {
            assert(texts(out@) == before.push(piece@));
            assert(before + (seq![piece@] + rest) == texts(out@) + rest);
        }
        i = stop + q.len();
    }
}

/// The image that a media address in a page of Twitter stands for.
pub open spec fn twitter_candidate(raw: Seq<char>) -> Option<Seq<char>> {
    twitter_original(decoded_address(raw))
}

/// The addresses of the images that a page of Twitter holds, in their original size.
pub open spec fn twitter_images(html: Seq<char>) -> Seq<Seq<char>> {
    distinct(
        enclosed(html, "\"media_url_https\":\""@, "\""@).map_values(
            |raw: Seq<char>| twitter_candidate(raw),
        ),
    )
}

/// The addresses of the images that a page of Twitter holds, in their original size.
pub fn extract_twitter_image_urls(html: &str) -> (r: Vec<String>)
    ensures
        texts(r@) == twitter_images(html@),
{
    proof {
        reveal_strlit("\"media_url_https\":\"");
    }
    let cs = chars_of(html);
    let found = enclosed_texts(cs.as_slice(), "\"media_url_https\":\"", "\"");
    let ghost all = texts(found@).map_values(|raw: Seq<char>| twitter_candidate(raw));
    let mut urls: Vec<String> = Vec::new();
    assert(texts(urls@) == Seq::<Seq<char>>::empty());
    let mut i: usize = 0;
    while i < found.len()
        invariant
            i <= found.len(),
            all == texts(found@).map_values(|raw: Seq<char>| twitter_candidate(raw)),
            texts(urls@) == distinct(all.take(i as int)),
        decreases found.len() - i,
    {
        let address = decode_instagram_embed_url(found[i].as_str());
        let candidate = twitter_original_image_url(address.as_str());
        assert(texts(found@)[i as int] == found@[i as int]@);
        assert(all.take(i + 1) == all.take(i as int).push(all[i as int]));
        add_candidate(&mut urls, candidate, Ghost(all.take(i as int)));
        i += 1;
    }
    assert(all.take(i as int) == all);
    urls
}

/// The image that an address in a page of Instagram stands for.
pub open spec fn embed_candidate(raw: Seq<char>) -> Option<Seq<char>> {
    if has_prefix(decoded_address(raw), "https://"@) {
        Some(decoded_address(raw))
    } else {
        None
    }
}

/// The addresses that stand between a pattern and an end mark in a page of Instagram.
pub open spec fn addresses_between(s: Seq<char>, p: Seq<char>, q: Seq<char>) -> Seq<Seq<char>> {
    distinct(enclosed(s, p, q).map_values(|raw: Seq<char>| embed_candidate(raw)))
}

/// The addresses that stand between a pattern and an end mark in a page of Instagram.
pub fn extract_instagram_urls_with_pattern(
    haystack: &[char],
    start_pattern: &str,
    end_pattern: &str,
) -> (r: Vec<String>)
    requires
        start_pattern@.len() + end_pattern@.len() > 0,
    ensures
        texts(r@) == addresses_between(haystack@, start_pattern@, end_pattern@),
{
    let found = enclosed_texts(haystack, start_pattern, end_pattern);
    let ghost all = texts(found@).map_values(|raw: Seq<char>| embed_candidate(raw));
    let mut urls: Vec<String> = Vec::new();
    assert(texts(urls@) == Seq::<Seq<char>>::empty());
    let mut i: usize = 0;
    while i < found.len()
        invariant
            i <= found.len(),
            all == texts(found@).map_values(|raw: Seq<char>| embed_candidate(raw)),
            texts(urls@) == distinct(all.take(i as int)),
        decreases found.len() - i,
    {
        let address = decode_instagram_embed_url(found[i].as_str());
        let cs = chars_of(address.as_str());
        let candidate = if starts_with(cs.as_slice(), "https://") {
            Some(address)
        } else {
            None
        };
        assert(texts(found@)[i as int] == found@[i as int]@);
        assert(all.take(i + 1) == all.take(i as int).push(all[i as int]));
        add_candidate(&mut urls, candidate, Ghost(all.take(i as int)));
        i += 1;
    }
    assert(all.take(i as int) == all);
    urls
}

/// Where the parts of a post begin in a page of Instagram.
pub open spec fn sidecar_start(html: Seq<char>) -> Option<int> {
    match find(html, "\\\"edge_sidecar_to_children\\\""@) {
        Some(i) => Some(i),
        None => find(html, "\"edge_sidecar_to_children\""@),
    }
}

/// The addresses of the images of a post in a page of Instagram: the escaped ones if there are
/// any, else the plain ones.
pub open spec fn sidecar_images(html: Seq<char>) -> Seq<Seq<char>> {
    match sidecar_start(html) {
        Some(i) => {
            let escaped = addresses_between(
                html.skip(i),
                "\\\"display_url\\\":\\\""@,
                "\\\""@,
            );
            if escaped.len() > 0 {
                escaped
            } else {
                addresses_between(html.skip(i), "\"display_url\":\""@, "\""@)
            }
        },
        None => Seq::empty(),
    }
}

/// The addresses of the images of a post in a page of Instagram.
pub fn extract_instagram_sidecar_image_urls(html: &str) -> (r: Vec<String>)
    ensures
        texts(r@) == sidecar_images(html@),
{
    let cs = chars_of(html);
    let len: usize = cs.len();
    let start: usize = match position_of(cs.as_slice(), "\\\"edge_sidecar_to_children\\\"") {
        Some(i) => {
            proof {
                lemma_find_from(html@, "\\\"edge_sidecar_to_children\\\""@, 0);
                assert(matches_at(html@, "\\\"edge_sidecar_to_children\\\""@, i as int));
            }
            i
        },
        None => match position_of(cs.as_slice(), "\"edge_sidecar_to_children\"") {
            Some(i) => {
                proof {
                    lemma_find_from(html@, "\"edge_sidecar_to_children\""@, 0);
                    assert(matches_at(html@, "\"edge_sidecar_to_children\""@, i as int));
                }
                i
            },
            None => {
                let none: Vec<String> = Vec::new();
                assert(texts(none@) == Seq::<Seq<char>>::empty());
                return none;
            },
        },
    };
    let sidecar = slice_subrange(cs.as_slice(), start, len);
    assert(sidecar@ == html@.skip(start as int));
    proof {
        reveal_strlit("\\\"display_url\\\":\\\"");
        reveal_strlit("\"display_url\":\"");
    }
    let escaped = extract_instagram_urls_with_pattern(
        sidecar,
        "\\\"display_url\\\":\\\"",
        "\\\"",
    );
    assert(texts(escaped@).len() == escaped@.len());
    if escaped.len() > 0 {
        return escaped;
    }
    extract_instagram_urls_with_pattern(sidecar, "\"display_url\":\"", "\"")
}

} // verus!
