//! What is read of a post and which of its images are fetched.
use vstd::prelude::*;

use crate::images::{
    answered_images, bluesky_start, image_name, instagram_listed, instagram_start, listed_or_none,
    may_be_image, sidecar, twitter_start, ContentType, HandleSearchView, ImagesView, Platform,
    SearchView,
};
use crate::json::{json_prefix, JsonTree};
use crate::laws::documents::without_its_first_character;
use crate::laws::texts::{
    absent_patterns_change_nothing, all_white, blank_texts_are_white, first_line_with_something,
    found_at_the_first_place, free_of, tight, tight_texts_stay,
};
use crate::links::{
    bluesky_image_address, bluesky_post, embed_address, instagram_media_image, instagram_shortcode,
    twitter_original, twitter_status_id,
};
use crate::numbers::{decimal, decimal_is_injective, lemma_decimal_digits, two_digits};
use crate::posts::{
    addresses_between, area, bluesky_candidate, bluesky_images, bluesky_metadata, caption_from,
    child_candidate, decoded, decoded_address, distinct, embed_candidate, enclosed, enclosed_from,
    initial_state, instagram_candidate, instagram_images, instagram_metadata, items_behind, largest,
    largest_is_largest, listed_candidates_are_distinct, rfc3339_seconds, shown_range,
    sidecar_images, text_behind, twitter_candidate, twitter_images, twitter_metadata,
    twitter_metadata_in, unescaped, visible_text, PostView,
};
use crate::text::{find_from, has, has_prefix, lemma_find_from, matches_at, trim};

verus! {

// ---------------------------------------------------------------------------
// Texts
// ---------------------------------------------------------------------------

/// A text without ampersands has no character references to resolve.
pub proof fn plain_texts_are_decoded_as_they_are(s: Seq<char>)
    requires
        free_of(s, '&'),
    ensures
        unescaped(s) == s,
        decoded(s) == trim(s),
        tight(s) ==> decoded(s) == s,
{
    reveal_strlit("&quot;");
    reveal_strlit("&#x27;");
    reveal_strlit("&lt;");
    reveal_strlit("&gt;");
    reveal_strlit("&amp;");
    without_its_first_character(s, "&quot;"@);
    absent_patterns_change_nothing(s, "&quot;"@, "\""@);
    without_its_first_character(s, "&#x27;"@);
    absent_patterns_change_nothing(s, "&#x27;"@, "'"@);
    without_its_first_character(s, "&lt;"@);
    absent_patterns_change_nothing(s, "&lt;"@, "<"@);
    without_its_first_character(s, "&gt;"@);
    absent_patterns_change_nothing(s, "&gt;"@, ">"@);
    without_its_first_character(s, "&amp;"@);
    absent_patterns_change_nothing(s, "&amp;"@, "&"@);
    if tight(s) {
        tight_texts_stay(s);
    }
}

/// The name under which a post is shown is that of the author, else the other name, else that it is
/// not known.
pub open spec fn names_the_author(shown: Seq<char>, name: Option<Seq<char>>, other: Option<Seq<char>>)
    -> bool {
    let known = name is Some && decoded(name->0).len() > 0;
    &&& known ==> shown == decoded(name->0)
    &&& !known && other is Some ==> shown == other->0
    &&& !known && other is None ==> shown == "unknown"@
}

/// A text at a key with the white space around it taken off, unless it is blank.
pub open spec fn tight_text(j: JsonTree, key: Seq<char>) -> Option<Seq<char>> {
    match j.text_at(key) {
        Some(t) => if all_white(t) {
            None
        } else {
            Some(trim(t))
        },
        None => None,
    }
}

/// Whether a handle is shown with an at sign before it.
pub open spec fn with_an_at_sign(shown: Option<Seq<char>>, handle: Option<Seq<char>>) -> bool {
    &&& shown is Some <==> handle is Some
    &&& shown matches Some(s) ==> s == "@"@ + handle->0
}

// ---------------------------------------------------------------------------
// Tweets
// ---------------------------------------------------------------------------

/// A tweet is known by its whole text, line breaks and all: both its text and its title are what is
/// shown of it, decoded, and where nothing is left of that, the stand-in for a title.
pub proof fn tweets_keep_their_whole_text(
    state: JsonTree,
    id: Seq<char>,
    tweet: JsonTree,
    raw: Seq<char>,
)
    requires
        state.pointer("/entities/tweets/entities/"@ + id) == Some(tweet),
        tweet.get("full_text"@) == Some(JsonTree::Text(raw)),
        tweet.get("display_text_range"@) is None,
    ensures
        ({
            let post = twitter_metadata_in(state, id);
            &&& post is Some
            &&& post->0.text == post->0.title
            &&& decoded(raw).len() > 0 ==> post->0.text == decoded(raw)
            &&& decoded(raw).len() == 0 ==> post->0.text == "untitled"@
            &&& raw.len() > 0 && tight(raw) && free_of(raw, '&') ==> post->0.text == raw
        }),
{
    if raw.len() > 0 && tight(raw) && free_of(raw, '&') {
        plain_texts_are_decoded_as_they_are(raw);
    }
}

/// Of a tweet with a range the characters in the range are shown.
pub proof fn tweets_show_their_range(
    state: JsonTree,
    id: Seq<char>,
    tweet: JsonTree,
    raw: Seq<char>,
    range: Seq<JsonTree>,
    start: u64,
    end: u64,
)
    requires
        state.pointer("/entities/tweets/entities/"@ + id) == Some(tweet),
        tweet.get("full_text"@) == Some(JsonTree::Text(raw)),
        tweet.get("display_text_range"@) == Some(JsonTree::Array(range)),
        range.len() >= 2,
        range[0].unsigned() == Some(start),
        range[1].unsigned() == Some(end),
        start < end <= raw.len(),
    ensures
        visible_text(tweet) == Some(decoded(raw.subrange(start as int, end as int))),
        decoded(raw.subrange(start as int, end as int)).len() > 0 ==> (twitter_metadata_in(
            state,
            id,
        ) matches Some(post) && post.text == decoded(raw.subrange(start as int, end as int))
            && post.title == post.text),
{
}

/// A range that goes beyond a text ends with the text, and one that ends before it begins shows
/// nothing.
pub proof fn ranges_end_with_the_text(raw: Seq<char>, range: Seq<JsonTree>, start: u64, end: u64)
    requires
        range.len() >= 2,
        range[0].unsigned() == Some(start),
        range[1].unsigned() == Some(end),
    ensures
        end <= start ==> shown_range(raw, Some(range)).len() == 0,
        start <= raw.len() < end ==> shown_range(raw, Some(range)) == raw.skip(start as int),
        shown_range(raw, None) == raw,
        shown_range(raw, Some(Seq::empty())) == raw,
        start <= raw.len() ==> shown_range(raw, Some(seq![range[0]])) == raw.skip(start as int),
        start > raw.len() ==> shown_range(raw, Some(range)).len() == 0,
{
    if start <= raw.len() {
        assert(raw.subrange(start as int, raw.len() as int) == raw.skip(start as int));
        assert(start == raw.len() ==> raw.skip(start as int) == Seq::<char>::empty());
    }
    assert(seq![range[0]][0] == range[0]);
    assert(raw.subrange(0, raw.len() as int) == raw);
    if raw.len() == 0 {
        assert(raw == Seq::<char>::empty());
    }
}

/// The text of a tweet without a full one is the other one it has.
pub proof fn older_tweets_have_a_text(tweet: JsonTree, raw: Seq<char>)
    requires
        tweet.get("full_text"@) is None,
        tweet.get("text"@) == Some(JsonTree::Text(raw)),
        tweet.get("display_text_range"@) is None,
    ensures
        visible_text(tweet) == Some(decoded(raw)),
{
}

/// A tweet is by the user whom it names, at the time that it gives.
pub proof fn tweets_are_by_their_user(
    state: JsonTree,
    id: Seq<char>,
    tweet: JsonTree,
    user_id: Seq<char>,
    user: JsonTree,
    time: Seq<char>,
)
    requires
        state.pointer("/entities/tweets/entities/"@ + id) == Some(tweet),
        tweet.text_at("user"@) == Some(user_id),
        state.pointer("/entities/users/entities/"@ + user_id) == Some(user),
        tweet.text_at("created_at"@) == Some(time),
    ensures
        twitter_metadata_in(state, id) matches Some(post) && names_the_author(
            post.source_name,
            user.text_at("name"@),
            None,
        ) && with_an_at_sign(post.source_handle, tight_text(user, "screen_name"@))
            && post.timestamp == rfc3339_seconds(time),
{
    if user.text_at("screen_name"@) is Some {
        blank_texts_are_white(user.text_at("screen_name"@)->0);
    }
}

/// A tweet that the page does not hold is not known.
pub proof fn missing_tweets_are_not_known(html: Seq<char>, state: JsonTree, id: Seq<char>)
    ensures
        !(has(html, "window.__INITIAL_STATE__="@)) ==> twitter_metadata(html, id) is None,
        initial_state(html) == Some(state) ==> twitter_metadata(html, id) == twitter_metadata_in(
            state,
            id,
        ),
        state.pointer("/entities/tweets/entities/"@ + id) is None ==> twitter_metadata_in(state, id)
            is None,
{
}

/// The state of a page is the document behind the first place where it is announced.
pub proof fn states_stand_behind_their_name(before: Seq<char>, after: Seq<char>)
    requires
        forall|j: int|
            0 <= j < before.len() ==> !(#[trigger] matches_at(
                before + "window.__INITIAL_STATE__="@ + after,
                "window.__INITIAL_STATE__="@,
                j,
            )),
    ensures
        initial_state(before + "window.__INITIAL_STATE__="@ + after) == json_prefix(after),
{
    let name = "window.__INITIAL_STATE__="@;
    found_at_the_first_place(before, name, after);
    assert((before + name + after).skip((before.len() + name.len()) as int) == after);
}

// ---------------------------------------------------------------------------
// Bluesky and Instagram
// ---------------------------------------------------------------------------

/// A Bluesky post is known by its whole text, decoded; its title is the first line of it that is
/// not blank.
pub proof fn bluesky_posts_keep_their_text(
    post: JsonTree,
    raw: Seq<char>,
    line: Seq<char>,
    rest: Seq<char>,
)
    requires
        text_behind(post, "/record/text"@) == Some(raw),
        line.len() > 0,
        free_of(line, '\n'),
        !all_white(line),
        decoded(raw) == line || decoded(raw) == line + seq!['\n'] + rest,
    ensures
        bluesky_metadata(post).text == decoded(raw),
        bluesky_metadata(post).title == trim(line),
        tight(raw) && free_of(raw, '&') ==> bluesky_metadata(post).text == raw,
{
    first_line_with_something(line, rest);
    if tight(raw) && free_of(raw, '&') {
        plain_texts_are_decoded_as_they_are(raw);
    }
}

/// A Bluesky post without a text has none and no title.
pub proof fn bluesky_posts_without_text(post: JsonTree)
    requires
        text_behind(post, "/record/text"@) is None,
    ensures
        bluesky_metadata(post).text.len() == 0,
        bluesky_metadata(post).title == "untitled"@,
{
}

/// A Bluesky post is by its author, at the time that it gives.
pub proof fn bluesky_posts_are_by_their_author(post: JsonTree, author: JsonTree)
    requires
        post.get("author"@) == Some(author),
    ensures
        names_the_author(
            bluesky_metadata(post).source_name,
            author.text_at("displayName"@),
            tight_text(author, "handle"@),
        ),
        with_an_at_sign(bluesky_metadata(post).source_handle, tight_text(author, "handle"@)),
        text_behind(post, "/record/createdAt"@) matches Some(time) ==> bluesky_metadata(
            post,
        ).timestamp == rfc3339_seconds(time),
{
    if author.text_at("handle"@) is Some {
        blank_texts_are_white(author.text_at("handle"@)->0);
    }
}

proof fn lemma_caption_from(edges: Seq<JsonTree>, i: int, k: int, raw: Seq<char>)
    requires
        0 <= i <= k < edges.len(),
        text_behind(edges[k], "/node/text"@) == Some(raw),
        decoded(raw).len() > 0,
        forall|j: int|
            0 <= j < k ==> (text_behind(#[trigger] edges[j], "/node/text"@) matches Some(t)
                ==> decoded(t).len() == 0),
    ensures
        caption_from(edges, i) == Some(decoded(raw)),
    decreases k - i,
{
    if i < k {
        assert(text_behind(edges[i], "/node/text"@) matches Some(t) ==> decoded(t).len() == 0);
        lemma_caption_from(edges, i + 1, k, raw);
    }
}

/// An Instagram post is known by the whole of its first caption that is not empty, decoded; its
/// title is the first line of that which is not blank.
pub proof fn instagram_posts_keep_their_caption(
    media: JsonTree,
    edges: Seq<JsonTree>,
    k: int,
    raw: Seq<char>,
    line: Seq<char>,
    rest: Seq<char>,
)
    requires
        items_behind(media, "/edge_media_to_caption/edges"@) == Some(edges),
        0 <= k < edges.len(),
        text_behind(edges[k], "/node/text"@) == Some(raw),
        decoded(raw).len() > 0,
        forall|j: int|
            0 <= j < k ==> (text_behind(#[trigger] edges[j], "/node/text"@) matches Some(t)
                ==> decoded(t).len() == 0),
        line.len() > 0,
        free_of(line, '\n'),
        !all_white(line),
        decoded(raw) == line || decoded(raw) == line + seq!['\n'] + rest,
    ensures
        instagram_metadata(media).text == decoded(raw),
        instagram_metadata(media).title == trim(line),
        tight(raw) && free_of(raw, '&') ==> instagram_metadata(media).text == raw,
{
    lemma_caption_from(edges, 0, k, raw);
    first_line_with_something(line, rest);
    if tight(raw) && free_of(raw, '&') {
        plain_texts_are_decoded_as_they_are(raw);
    }
}

/// An Instagram post without a caption is called by what its image shows, and has no text.
pub proof fn uncaptioned_posts_are_called_by_their_image(media: JsonTree)
    requires
        items_behind(media, "/edge_media_to_caption/edges"@) is None,
    ensures
        instagram_metadata(media).text.len() == 0,
        (media.text_at("accessibility_caption"@) matches Some(t) && decoded(t).len() > 0)
            ==> instagram_metadata(media).title == decoded(
            media.text_at("accessibility_caption"@)->0,
        ),
        media.text_at("accessibility_caption"@) is None ==> instagram_metadata(media).title
            == "untitled"@,
{
}

/// An Instagram post is by its owner, at the time that it gives.
pub proof fn instagram_posts_are_by_their_owner(media: JsonTree, owner: JsonTree)
    requires
        media.get("owner"@) == Some(owner),
    ensures
        names_the_author(
            instagram_metadata(media).source_name,
            owner.text_at("full_name"@),
            tight_text(owner, "username"@),
        ),
        with_an_at_sign(instagram_metadata(media).source_handle, tight_text(owner, "username"@)),
        media.get("taken_at_timestamp"@) matches Some(t) ==> instagram_metadata(media).timestamp
            == t.signed(),
        media.get("taken_at_timestamp"@) is None ==> instagram_metadata(media).timestamp is None,
{
    if owner.text_at("username"@) is Some {
        blank_texts_are_white(owner.text_at("username"@)->0);
    }
}

// ---------------------------------------------------------------------------
// Images
// ---------------------------------------------------------------------------

/// Whether a list holds what there is of the candidates: each of them once, none besides, in the
/// order in which they first come.
pub open spec fn lists_in_order(list: Seq<Seq<char>>, candidates: Seq<Option<Seq<char>>>) -> bool {
    &&& forall|i: int, j: int|
        0 <= i < j < list.len() ==> #[trigger] list[i] != #[trigger] list[j]
    &&& forall|k: int|
        0 <= k < candidates.len() && (#[trigger] candidates[k]) is Some ==> list.contains(
            candidates[k]->0,
        )
    &&& forall|i: int|
        0 <= i < list.len() ==> candidates.contains(Some(#[trigger] list[i]))
    &&& forall|i: int, j: int, k: int|
        0 <= i < j < list.len() && 0 <= k < candidates.len() && #[trigger] candidates[k] == Some(
            #[trigger] list[j],
        ) ==> #[trigger] comes_before(candidates, list[i], k)
}

/// Whether a text is among the candidates before a position.
pub open spec fn comes_before(candidates: Seq<Option<Seq<char>>>, u: Seq<char>, k: int) -> bool {
    exists|m: int| 0 <= m < k && #[trigger] candidates[m] == Some(u)
}

/// Candidates are listed once each, in the order in which they first come.
pub proof fn candidates_are_listed_in_order(candidates: Seq<Option<Seq<char>>>)
    ensures
        lists_in_order(distinct(candidates), candidates),
    decreases candidates.len(),
{
    let list = distinct(candidates);
    listed_candidates_are_distinct(candidates);
    if candidates.len() > 0 {
        let shorter = candidates.drop_last();
        let before = distinct(shorter);
        candidates_are_listed_in_order(shorter);
        assert forall|i: int, j: int, k: int|
            0 <= i < j < list.len() && 0 <= k < candidates.len() && #[trigger] candidates[k] == Some(
                #[trigger] list[j],
            ) implies #[trigger] comes_before(candidates, list[i], k) by {
            assert(list[i] == before[i]);
            if j < before.len() && k < shorter.len() {
                assert(list[j] == before[j]);
                assert(shorter[k] == Some(before[j]));
                assert(comes_before(shorter, before[i], k));
                let m = choose|m: int| 0 <= m < k && #[trigger] shorter[m] == Some(before[i]);
                assert(candidates[m] == Some(list[i]));
            } else {
                assert(shorter.contains(Some(before[i])));
                let m = choose|m: int| 0 <= m < shorter.len() && shorter[m] == Some(before[i]);
                assert(candidates[m] == Some(list[i]));
                if k < shorter.len() {
                    assert(shorter[k] == Some(list[j]));
                    assert(before.contains(shorter[k]->0));
                    assert(false);
                }
            }
        }
    }
}

/// The images of a Bluesky post are those of its entries that Bluesky serves in full.
pub proof fn bluesky_images_are_listed(post: JsonTree, images: Seq<JsonTree>)
    requires
        items_behind(post, "/embed/images"@) == Some(images),
    ensures
        lists_in_order(
            bluesky_images(post),
            images.map_values(
                |image: JsonTree|
                    match image.text_at("fullsize"@) {
                        Some(u) if bluesky_image_address(u) => Some(u),
                        _ => None,
                    },
            ),
        ),
{
    let candidates = images.map_values(|i: JsonTree| bluesky_candidate(i));
    assert(candidates =~= images.map_values(
        |image: JsonTree|
            match image.text_at("fullsize"@) {
                Some(u) if bluesky_image_address(u) => Some(u),
                _ => None,
            },
    ));
    candidates_are_listed_in_order(candidates);
}

/// A video has no image; of another part the image is the largest that is offered or, where none
/// is, the one that is displayed, if Instagram serves it in full.
pub proof fn parts_have_their_largest_image(media: JsonTree, resources: Seq<JsonTree>, k: int, u: Seq<char>)
    requires
        !(media.get("is_video"@) matches Some(v) && v == JsonTree::Bool(true)),
        media.get("display_resources"@) == Some(JsonTree::Array(resources)),
        0 <= k < resources.len(),
        forall|i: int|
            0 <= i < resources.len() ==> area(#[trigger] resources[i]) <= area(resources[k]),
        forall|i: int|
            k < i < resources.len() ==> area(#[trigger] resources[i]) < area(resources[k]),
        resources[k].text_at("src"@) == Some(u),
    ensures
        instagram_candidate(media) == if instagram_media_image(u) {
            Some(u)
        } else {
            None
        },
{
    largest_is_largest(resources);
    let j = largest(resources)->0;
    assert(area(resources[j]) <= area(resources[k]));
    assert(area(resources[k]) <= area(resources[j]));
    assert(j == k);
}

/// The area of an image is its width times its height.
pub proof fn areas_are_products(resource: JsonTree, width: u64, height: u64)
    requires
        resource.get("config_width"@) matches Some(w) && w.unsigned() == Some(width),
        resource.get("config_height"@) matches Some(h) && h.unsigned() == Some(height),
        width * height <= u64::MAX,
    ensures
        area(resource) == width * height,
{
}

/// Videos are not fetched as images, and a part without offers has the image that is displayed.
pub proof fn parts_without_offers(media: JsonTree, u: Seq<char>)
    ensures
        media.get("is_video"@) == Some(JsonTree::Bool(true)) ==> instagram_candidate(media) is None,
        !(media.get("is_video"@) matches Some(v) && v == JsonTree::Bool(true)) && media.get(
            "display_resources"@,
        ) is None && media.text_at("display_url"@) == Some(u) ==> instagram_candidate(media)
            == if instagram_media_image(u) {
            Some(u)
        } else {
            None
        },
        instagram_candidate(media) matches Some(found) ==> instagram_media_image(found),
{
}

/// The images of an Instagram post are those of its parts, in order, or its own where it has no
/// parts.
pub proof fn instagram_images_are_listed(media: JsonTree, edges: Seq<JsonTree>)
    ensures
        items_behind(media, "/edge_sidecar_to_children/edges"@) == Some(edges) ==> lists_in_order(
            instagram_images(media),
            edges.map_values(
                |edge: JsonTree|
                    match edge.get("node"@) {
                        Some(node) => instagram_candidate(node),
                        None => None,
                    },
            ),
        ),
        items_behind(media, "/edge_sidecar_to_children/edges"@) is None ==> lists_in_order(
            instagram_images(media),
            seq![instagram_candidate(media)],
        ),
{
    let candidates = edges.map_values(|e: JsonTree| child_candidate(e));
    assert(candidates =~= edges.map_values(
        |edge: JsonTree|
            match edge.get("node"@) {
                Some(node) => instagram_candidate(node),
                None => None,
            },
    ));
    candidates_are_listed_in_order(candidates);
    candidates_are_listed_in_order(seq![instagram_candidate(media)]);
}

proof fn lemma_find_shift(pre: Seq<char>, t: Seq<char>, p: Seq<char>, i: int)
    requires
        0 <= i,
    ensures
        find_from(pre + t, p, pre.len() + i) == (match find_from(t, p, i) {
            Some(k) => Some(pre.len() + k),
            None => None,
        }),
    decreases t.len() + 1 - i,
{
    let all = pre + t;
    if i + p.len() <= t.len() {
        assert(all.subrange(pre.len() + i, pre.len() + i + p.len()) == t.subrange(i, i + p.len()));
        if !matches_at(t, p, i) {
            lemma_find_shift(pre, t, p, i + 1);
        }
    }
}

proof fn lemma_enclosed_shift(pre: Seq<char>, t: Seq<char>, p: Seq<char>, q: Seq<char>, i: int)
    requires
        0 <= i,
    ensures
        enclosed_from(pre + t, p, q, pre.len() + i) == enclosed_from(t, p, q, i),
    decreases t.len() + 1 - i,
{
    let all = pre + t;
    lemma_find_shift(pre, t, p, i);
    lemma_find_from(t, p, i);
    match find_from(t, p, i) {
        Some(k) => {
            lemma_find_shift(pre, t, q, k + p.len());
            lemma_find_from(t, q, k + p.len());
            match find_from(t, q, (k + p.len()) as int) {
                Some(e) => {
                    if p.len() + q.len() > 0 {
                        lemma_enclosed_shift(pre, t, p, q, e + q.len());
                        assert(all.subrange(pre.len() + k + p.len(), pre.len() + e) == t.subrange(
                            (k + p.len()) as int,
                            e,
                        ));
                    }
                },
                None => {},
            }
        },
        None => {},
    }
}

/// What stands between a pattern and the next end mark is found, time after time: first what
/// follows the first place of the pattern, then what is found behind the end mark.
pub proof fn enclosed_texts_are_found(
    before: Seq<char>,
    p: Seq<char>,
    inner: Seq<char>,
    q: Seq<char>,
    after: Seq<char>,
)
    requires
        p.len() > 0,
        q.len() > 0,
        forall|j: int|
            0 <= j < before.len() ==> !(#[trigger] matches_at(
                before + p + (inner + q + after),
                p,
                j,
            )),
        forall|j: int|
            0 <= j < inner.len() ==> !(#[trigger] matches_at(inner + q + after, q, j)),
    ensures
        enclosed(before + p + (inner + q + after), p, q) == seq![inner] + enclosed(after, p, q),
{
    let tail = inner + q + after;
    let all = before + p + tail;
    let pre = before + p;
    found_at_the_first_place(before, p, tail);
    found_at_the_first_place(inner, q, after);
    lemma_find_shift(pre, tail, q, 0);
    let e = (pre.len() + inner.len()) as int;
    assert(all == pre + tail);
    assert(find_from(all, q, pre.len() as int) == Some(e));
    assert(all.subrange(pre.len() as int, e) == inner);
    let done = pre + inner + q;
    assert(all == done + after);
    lemma_enclosed_shift(done, after, p, q, 0);
}

/// A text without the pattern encloses nothing.
pub proof fn nothing_is_found_without_the_pattern(s: Seq<char>, p: Seq<char>, q: Seq<char>)
    requires
        !(has(s, p)),
    ensures
        enclosed(s, p, q).len() == 0,
{
}

/// The images of a page of Twitter are those whose addresses it gives, in their original size.
pub proof fn twitter_images_are_listed(html: Seq<char>)
    ensures
        lists_in_order(
            twitter_images(html),
            enclosed(html, "\"media_url_https\":\""@, "\""@).map_values(
                |raw: Seq<char>| twitter_original(decoded_address(raw)),
            ),
        ),
{
    let found = enclosed(html, "\"media_url_https\":\""@, "\""@);
    let candidates = found.map_values(|raw: Seq<char>| twitter_candidate(raw));
    assert(candidates =~= found.map_values(
        |raw: Seq<char>| twitter_original(decoded_address(raw)),
    ));
    candidates_are_listed_in_order(candidates);
}

/// An address without escapes is decoded as it is.
pub proof fn plain_addresses_are_decoded_as_they_are(s: Seq<char>)
    requires
        free_of(s, '\\'),
        free_of(s, '&'),
    ensures
        decoded_address(s) == s,
{
    reveal_strlit("\\\\/");
    reveal_strlit("\\/");
    reveal_strlit("\\u0026");
    reveal_strlit("&amp;");
    without_its_first_character(s, "\\\\/"@);
    absent_patterns_change_nothing(s, "\\\\/"@, "/"@);
    without_its_first_character(s, "\\/"@);
    absent_patterns_change_nothing(s, "\\/"@, "/"@);
    without_its_first_character(s, "\\u0026"@);
    absent_patterns_change_nothing(s, "\\u0026"@, "&"@);
    without_its_first_character(s, "&amp;"@);
    absent_patterns_change_nothing(s, "&amp;"@, "&"@);
}

/// The addresses that a page of Instagram gives between two marks are listed, decoded, if they are
/// secure ones.
pub proof fn embedded_addresses_are_listed(s: Seq<char>, p: Seq<char>, q: Seq<char>)
    ensures
        lists_in_order(
            addresses_between(s, p, q),
            enclosed(s, p, q).map_values(
                |raw: Seq<char>|
                    if has_prefix(decoded_address(raw), "https://"@) {
                        Some(decoded_address(raw))
                    } else {
                        None
                    },
            ),
        ),
{
    let found = enclosed(s, p, q);
    let candidates = found.map_values(|raw: Seq<char>| embed_candidate(raw));
    assert(candidates =~= found.map_values(
        |raw: Seq<char>|
            if has_prefix(decoded_address(raw), "https://"@) {
                Some(decoded_address(raw))
            } else {
                None
            },
    ));
    candidates_are_listed_in_order(candidates);
}

/// A page of Instagram gives the images behind the place where the parts of the post begin: those
/// whose addresses are escaped or, where there are none, the others. A page without parts gives
/// none.
pub proof fn embedded_images_follow_the_parts(html: Seq<char>, before: Seq<char>, after: Seq<char>)
    requires
        forall|j: int|
            0 <= j < before.len() ==> !(#[trigger] matches_at(
                before + "\\\"edge_sidecar_to_children\\\""@ + after,
                "\\\"edge_sidecar_to_children\\\""@,
                j,
            )),
    ensures
        !(has(html, "\\\"edge_sidecar_to_children\\\""@)) && !(has(
            html,
            "\"edge_sidecar_to_children\""@,
        )) ==> sidecar_images(html).len() == 0,
        html == before + "\\\"edge_sidecar_to_children\\\""@ + after ==> ({
            let part = "\\\"edge_sidecar_to_children\\\""@ + after;
            let first = addresses_between(part, "\\\"display_url\\\":\\\""@, "\\\""@);
            let second = addresses_between(part, "\"display_url\":\""@, "\""@);
            &&& first.len() > 0 ==> sidecar_images(html) == first
            &&& first.len() == 0 ==> sidecar_images(html) == second
        }),
{
    let name = "\\\"edge_sidecar_to_children\\\""@;
    found_at_the_first_place(before, name, after);
    assert((before + name + after).skip(before.len() as int) == name + after);
}

// ---------------------------------------------------------------------------
// Fetching
// ---------------------------------------------------------------------------

/// Images are looked for only where nothing was downloaded and the address names a post of the
/// platform.
pub proof fn images_are_looked_for_if_needed(address: Seq<char>)
    ensures
        instagram_start(true, address) is Nothing,
        twitter_start(true, address) is Nothing,
        bluesky_start(true, address) is Nothing,
        instagram_start(false, address) is Fetch <==> (instagram_shortcode(address) matches Ok(c)
            && c is Some),
        instagram_start(false, address) matches SearchView::Fetch { id, .. } ==> Some(id)
            == instagram_shortcode(address)->Ok_0,
        twitter_start(false, address) is Fetch <==> (twitter_status_id(address) matches Ok(c) && c
            is Some),
        twitter_start(false, address) matches SearchView::Fetch { id, address: asked } ==> Some(id)
            == twitter_status_id(address)->Ok_0 && asked == address,
        bluesky_start(false, address) is Resolve <==> (bluesky_post(address) matches Ok(c) && c
            is Some),
        bluesky_start(false, address) matches HandleSearchView::Resolve { handle, rkey, .. }
            ==> Some((handle, rkey)) == bluesky_post(address)->Ok_0,
        instagram_start(false, address) matches SearchView::Failed(m) ==> instagram_shortcode(
            address,
        ) == Err::<Option<Seq<char>>, Seq<char>>(m),
        twitter_start(false, address) matches SearchView::Failed(m) ==> twitter_status_id(address)
            == Err::<Option<Seq<char>>, Seq<char>>(m),
{
}

/// The images that an answer lists are fetched; where it lists none, the page of the post is looked
/// at, and where that gives none either, it is said that there are none.
pub proof fn listed_images_are_fetched(
    payload: JsonTree,
    address: Seq<char>,
    code: Seq<char>,
    platform: Platform,
    urls: Seq<Seq<char>>,
)
    ensures
        instagram_listed(payload).len() > 0 ==> answered_images(payload, address)
            == ImagesView::Listed(instagram_listed(payload)),
        instagram_listed(payload).len() == 0 && instagram_shortcode(address) == Ok::<_, Seq<char>>(
            Some(code),
        ) ==> answered_images(payload, address) == ImagesView::Look(embed_address(code)),
        urls.len() > 0 ==> listed_or_none(platform, urls) == ImagesView::Listed(urls),
        urls.len() == 0 ==> listed_or_none(platform, urls) is Failed,
{
}

/// What says that it is no image is not kept as one.
pub proof fn only_images_are_kept(name: String)
    ensures
        may_be_image(ContentType::Missing),
        !may_be_image(ContentType::Unreadable),
        may_be_image(ContentType::Named(name)) <==> has_prefix(name@, "image/"@),
{
}

/// The text of a post is kept as its description; that of a tweet is its title, and is not kept
/// twice. The files are named after the post.
pub proof fn posts_are_kept_with_their_text(
    platform: Platform,
    id: Seq<char>,
    address: Seq<char>,
    post: PostView,
)
    ensures
        ({
            let kept = sidecar(platform, id, address, post);
            &&& platform == Platform::Twitter ==> kept.description.len() == 0
            &&& platform != Platform::Twitter ==> kept.description == post.text
            &&& kept.info_name == platform.prefix() + id + ".info.json"@
            &&& kept.description_name == platform.prefix() + id + ".description"@
        }),
{
}

/// The numbers from one on are written differently, with two digits at least.
pub proof fn numbers_look_different(a: nat, b: nat)
    ensures
        two_digits(a).len() >= 2,
        two_digits(a) == two_digits(b) ==> a == b,
{
    lemma_decimal_digits(a);
    lemma_decimal_digits(b);
    reveal_with_fuel(decimal, 3);
    if a >= 10 {
        lemma_decimal_digits(a / 10);
    }
    if b >= 10 {
        lemma_decimal_digits(b / 10);
    }
    if two_digits(a) == two_digits(b) {
        if a >= 10 && b >= 10 {
            decimal_is_injective(a, b);
        } else if a < 10 && b < 10 {
            assert(two_digits(a)[1] == two_digits(b)[1]);
        } else if a < 10 {
            lemma_no_leading_zero(b);
            assert(two_digits(a)[0] == '0');
        } else {
            lemma_no_leading_zero(a);
            assert(two_digits(b)[0] == '0');
        }
    }
}

proof fn lemma_no_leading_zero(n: nat)
    requires
        n > 0,
    ensures
        decimal(n).len() > 0,
        decimal(n)[0] != '0',
    decreases n,
{
    if n >= 10 {
        lemma_no_leading_zero(n / 10);
        lemma_decimal_digits(n / 10);
        assert(decimal(n)[0] == decimal(n / 10)[0]);
    }
}

/// Two images of a post with the same extension get different names.
pub proof fn images_get_different_names(
    platform: Platform,
    a: nat,
    b: nat,
    first: Seq<char>,
    second: Seq<char>,
)
    requires
        a != b,
        crate::links::image_extension(first) == crate::links::image_extension(second),
    ensures
        image_name(platform, a, first) != image_name(platform, b, second),
{
    let x = image_name(platform, a, first);
    let y = image_name(platform, b, second);
    let n = platform.image_prefix().len() as int;
    if x == y {
        let da = two_digits(a + 1);
        let db = two_digits(b + 1);
        let e = crate::links::image_extension(first);
        assert(x.len() == n + da.len() + "."@.len() + e.len());
        assert(y.len() == n + db.len() + "."@.len() + e.len());
        assert(da.len() == db.len());
        assert(x.subrange(n, n + da.len()) == da);
        assert(y.subrange(n, n + db.len()) == db);
        numbers_look_different(a + 1, b + 1);
    }
}

} // verus!
