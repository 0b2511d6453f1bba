//! What the files beside the images of a post say is what is shown of it.
use vstd::prelude::*;

use crate::images::{info_entries, sidecar, time_entries, uploader_entries, Platform};
use crate::json::{entry_from, JsonTree};
use crate::metadata::{
    clean_name, delivery_metadata, display_handle, from_youtube, name_keys, platform_called,
    platform_keys, platform_name, source_handle, source_keys, source_name, string_field,
    title_keys,
};
use crate::posts::{nonblank, PostView};
use crate::text::{
    find, has, lemma_find_from, lowercase, matches_at, trim, trim_end, trim_start, white,
};

verus! {

/// The name under which a platform is shown.
pub open spec fn shown_platform(platform: Platform) -> Seq<char> {
    match platform {
        Platform::Instagram => "Instagram"@,
        Platform::Twitter => "X"@,
        Platform::Bluesky => "Bluesky"@,
    }
}

/// The document that is kept about a post.
pub open spec fn kept(platform: Platform, id: Seq<char>, address: Seq<char>, post: PostView) ->
    JsonTree {
    sidecar(platform, id, address, post).info
}

proof fn lemma_first_entry(
    entries: Seq<(Seq<char>, JsonTree)>,
    key: Seq<char>,
    i: int,
    k: int,
)
    requires
        0 <= i <= k < entries.len(),
        entries[k].0 == key,
        forall|j: int| i <= j < k ==> (#[trigger] entries[j]).0 != key,
    ensures
        entry_from(entries, key, i) == Some(k),
    decreases k - i,
{
    if i < k {
        lemma_first_entry(entries, key, i + 1, k);
    }
}

/// The document that is kept about a post holds what is known of it: its id and address, who it is
/// by, its title, and its time as a number.
pub proof fn kept_document_holds_the_post(
    platform: Platform,
    id: Seq<char>,
    address: Seq<char>,
    post: PostView,
)
    ensures
        ({
            let info = kept(platform, id, address, post);
            &&& info.text_at("channel"@) == Some(post.source_name)
            &&& info.text_at("extractor"@) == Some(platform.extractor())
            &&& info.text_at("extractor_key"@) == Some(platform.key())
            &&& info.text_at("id"@) == Some(id)
            &&& info.text_at("title"@) == Some(post.title)
            &&& info.text_at("webpage_url"@) == Some(address)
            &&& info.text_at("webpage_url_domain"@) == Some(platform.domain())
            &&& post.source_handle is Some ==> info.text_at("uploader"@) == post.source_handle
                && info.text_at("uploader_id"@) == post.source_handle
            &&& post.source_handle is None ==> info.text_at("uploader"@) == Some(post.source_name)
            &&& post.timestamp is Some ==> info.get("timestamp"@) is Some && info.get(
                "timestamp"@,
            )->0.signed() == post.timestamp
        }),
        ({
            let info = kept(platform, id, address, post);
            post.timestamp is Some && post.timestamp->0 >= 0 ==> info.get("timestamp"@)->0.unsigned()
                == Some(post.timestamp->0 as u64)
        }),
{
    let entries = info_entries(platform, id, address, post);
    reveal_strlit("channel");
    reveal_strlit("extractor");
    reveal_strlit("extractor_key");
    reveal_strlit("id");
    reveal_strlit("timestamp");
    reveal_strlit("title");
    reveal_strlit("uploader");
    reveal_strlit("uploader_id");
    reveal_strlit("webpage_url");
    reveal_strlit("webpage_url_domain");
    let t = time_entries(post.timestamp).len() as int;
    let u = uploader_entries(post).len() as int;
    assert(entries[0].0 == "channel"@);
    assert(entries[1].0 == "extractor"@);
    assert(entries[2].0 == "extractor_key"@);
    assert(entries[3] == ("id"@, JsonTree::Text(id)));
    if t == 1 {
        assert(entries[4] == time_entries(post.timestamp)[0]);
    }
    assert(entries[4 + t] == ("title"@, JsonTree::Text(post.title)));
    assert(entries[5 + t] == uploader_entries(post)[0]);
    if u == 2 {
        assert(entries[6 + t] == ("uploader_id"@, JsonTree::Text(post.source_handle->0)));
    }
    assert(entries[5 + t + u] == ("webpage_url"@, JsonTree::Text(address)));
    assert(entries[6 + t + u] == ("webpage_url_domain"@, JsonTree::Text(platform.domain())));
    assert("title"@[1] == 'i');
    assert("channel"@.len() == 7);
    assert("timestamp"@.len() == 9);
    assert("extractor"@.len() == 9);
    assert("timestamp"@[0] != "extractor"@[0]);
    assert("extractor_key"@.len() == 13);
    assert("id"@.len() == 2);
    assert("title"@.len() == 5);
    assert("uploader"@.len() == 8);
    assert("uploader_id"@.len() == 11);
    assert("webpage_url"@.len() == 11);
    assert("uploader_id"@[0] != "webpage_url"@[0]);
    assert("webpage_url_domain"@.len() == 18);
    lemma_first_entry(entries, "channel"@, 0, 0);
    lemma_first_entry(entries, "extractor"@, 0, 1);
    lemma_first_entry(entries, "extractor_key"@, 0, 2);
    lemma_first_entry(entries, "id"@, 0, 3);
    if t == 1 {
        lemma_first_entry(entries, "timestamp"@, 0, 4);
    }
    lemma_first_entry(entries, "uploader"@, 0, 5 + t);
    lemma_first_entry(entries, "webpage_url"@, 0, 5 + t + u);
    lemma_first_entry(entries, "title"@, 0, 4 + t);
    lemma_first_entry(entries, "webpage_url_domain"@, 0, 6 + t + u);
    if u == 2 {
        lemma_first_entry(entries, "uploader_id"@, 0, 6 + t);
    }
}

proof fn lemma_trim_of_word(s: Seq<char>)
    requires
        s.len() > 0,
        !white(s[0]),
        !white(s.last()),
    ensures
        trim(s) == s,
{
    assert(trim_start(s) == s);
    assert(trim_end(s) == s);
}

proof fn lemma_first_key(info: JsonTree, keys: Seq<Seq<char>>, text: Seq<char>)
    requires
        keys.len() > 0,
        info.text_at(keys[0]) == Some(text),
    ensures
        string_field(info, keys) == nonblank(Some(text)),
{
}

/// A word does not hold a pattern if at no position both the first and the last character fit.
proof fn lemma_absent(s: Seq<char>, p: Seq<char>)
    requires
        p.len() > 0,
        forall|j: int|
            0 <= j && j + p.len() <= s.len() ==> (#[trigger] s[j] != p[0] || s[j + p.len() - 1]
                != p.last()),
    ensures
        !(has(s, p)),
{
    lemma_find_from(s, p, 0);
    if has(s, p) {
        let k = find(s, p)->0;
        assert(matches_at(s, p, k));
        assert(s.subrange(k, k + p.len())[0] == s[k]);
        assert(s.subrange(k, k + p.len()).last() == s[k + p.len() - 1]);
    }
}

/// A word holds itself.
proof fn lemma_present(s: Seq<char>, p: Seq<char>)
    requires
        s == p,
    ensures
        has(s, p),
{
    assert(s.subrange(0, s.len() as int) == p);
    assert(matches_at(s, p, 0));
}

proof fn lemma_platform_called(platform: Platform)
    ensures
        platform_called(platform.key()) == shown_platform(platform),
        nonblank(Some(platform.key())) == Some(platform.key()),
{
    reveal_strlit("Instagram");
    reveal_strlit("Twitter");
    reveal_strlit("Bluesky");
    reveal_strlit("youtube");
    reveal_strlit("instagram");
    reveal_strlit("tiktok");
    reveal_strlit("bluesky");
    reveal_strlit("bsky");
    reveal_strlit("twitter");
    let key = platform.key();
    lemma_trim_of_word(key);
    let word = lowercase(key);
    match platform {
        Platform::Instagram => {
            assert(word =~= "instagram"@);
            lemma_absent(word, "youtube"@);
            lemma_present(word, "instagram"@);
        },
        Platform::Twitter => {
            assert(word =~= "twitter"@);
            lemma_absent(word, "youtube"@);
            lemma_absent(word, "instagram"@);
            lemma_absent(word, "tiktok"@);
            lemma_absent(word, "bluesky"@);
            lemma_absent(word, "bsky"@);
            lemma_present(word, "twitter"@);
        },
        Platform::Bluesky => {
            assert(word =~= "bluesky"@);
            lemma_absent(word, "youtube"@);
            lemma_absent(word, "instagram"@);
            lemma_absent(word, "tiktok"@);
            lemma_present(word, "bluesky"@);
        },
    }
}

proof fn lemma_not_youtube(platform: Platform)
    ensures
        !(has(lowercase(platform.domain()), "youtube"@)),
        nonblank(Some(platform.domain())) == Some(platform.domain()),
{
    reveal_strlit("instagram.com");
    reveal_strlit("x.com");
    reveal_strlit("bsky.app");
    reveal_strlit("youtube");
    let domain = platform.domain();
    lemma_trim_of_word(domain);
    let word = lowercase(domain);
    match platform {
        Platform::Instagram => {
            assert(word =~= "instagram.com"@);
        },
        Platform::Twitter => {
            assert(word =~= "x.com"@);
        },
        Platform::Bluesky => {
            assert(word =~= "bsky.app"@);
        },
    }
    lemma_absent(word, "youtube"@);
}

/// What is kept beside the images of a post says where it is from, who made it and what it is
/// called: the platform is the one it was fetched from, the title is that of the post, the name is
/// that of its author, and a handle is kept as it is. On the platform X the name loses the words
/// that the platform puts behind it.
pub proof fn kept_post_is_shown(
    platform: Platform,
    id: Seq<char>,
    address: Seq<char>,
    post: PostView,
)
    requires
        trim(post.title).len() > 0,
        trim(post.source_name).len() > 0,
        post.source_handle matches Some(h) ==> h.len() > 1 && h[0] == '@' && !white(h.last()),
    ensures
        ({
            let shown = delivery_metadata(kept(platform, id, address, post));
            &&& shown.platform_name == shown_platform(platform)
            &&& shown.title == trim(post.title)
            &&& shown.source_name == clean_name(shown_platform(platform), trim(post.source_name))
            &&& post.source_handle is Some ==> shown.source_handle == post.source_handle
        }),
{
    let info = kept(platform, id, address, post);
    kept_document_holds_the_post(platform, id, address, post);
    lemma_platform_called(platform);
    lemma_not_youtube(platform);
    lemma_first_key(info, platform_keys(), platform.key());
    lemma_first_key(info, title_keys(), post.title);
    lemma_first_key(info, name_keys(), post.source_name);
    lemma_first_key(info, source_keys(), platform.domain());
    assert(!from_youtube(info));
    if post.source_handle is Some {
        let h = post.source_handle->0;
        lemma_first_key(info, seq!["uploader_id"@], h);
        lemma_trim_of_word(h);
        reveal_strlit("@");
        assert(h.subrange(0, 1) =~= "@"@);
        assert(display_handle(h) == Some(h));
    }
}

} // verus!
