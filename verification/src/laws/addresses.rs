//! What is made of an address, and which posts and images it names.
use vstd::prelude::*;

use crate::laws::texts::{
    ends_of_a_text, first_piece_is_split_off, free_of, holding_is_standing_somewhere, one_piece,
    pieces_make_up_the_text,
};
use crate::links::{
    after_last_dot, bluesky_image, bluesky_post, cleaned, embed_address, image_extension,
    image_format, instagram_image, instagram_shortcode, lemma_segment_plain, normalized,
    original_image, plain_segment, post_ref, segments, shortcode, status_from, status_id,
    twitter_original, twitter_status_id, url_read, UrlView,
};
use crate::text::{all_digits, has, has_prefix, has_suffix, lowercase, pieces, trim};

verus! {

// ---------------------------------------------------------------------------
// Normalizing
// ---------------------------------------------------------------------------

/// Whether a URL is what a text means: it is what the trimmed text reads as or, where that is no
/// URL and names no scheme, what the text behind `https://` reads as.
pub open spec fn means(input: Seq<char>, url: UrlView) -> bool {
    let text = trim(input);
    url_read(text) == Ok::<UrlView, Seq<char>>(url) || (url_read(text) is Err && !(has(
        text,
        "://"@,
    )) && url_read("https://"@ + text) == Ok::<UrlView, Seq<char>>(url))
}

/// Whether the host of a URL, in lower case, is a given one.
pub open spec fn is_at(url: UrlView, host: Seq<char>) -> bool {
    url.host matches Some(h) && lowercase(h) == host
}

/// Whether a URL is one of Twitter.
pub open spec fn at_twitter(url: UrlView) -> bool {
    is_at(url, "x.com"@) || is_at(url, "www.x.com"@) || is_at(url, "twitter.com"@) || is_at(
        url,
        "www.twitter.com"@,
    )
}

/// Whether a URL is one of Instagram.
pub open spec fn at_instagram(url: UrlView) -> bool {
    is_at(url, "instagram.com"@) || is_at(url, "www.instagram.com"@)
}

/// Whether a URL is one of Bluesky.
pub open spec fn at_bluesky(url: UrlView) -> bool {
    is_at(url, "bsky.app"@) || is_at(url, "www.bsky.app"@)
}

/// An address anywhere but at Twitter is downloaded as it is, with its query and its fragment.
pub proof fn addresses_keep_their_query(input: Seq<char>, url: UrlView)
    requires
        means(input, url),
        !at_twitter(url),
    ensures
        normalized(input) == Ok::<Seq<char>, Seq<char>>(url.href),
        cleaned(url) == url.href,
{
}

/// An address at Twitter loses its query and keeps everything else.
pub proof fn tweets_lose_their_query(input: Seq<char>, url: UrlView)
    requires
        means(input, url),
        at_twitter(url),
    ensures
        url.fragment is None ==> normalized(input) == Ok::<Seq<char>, Seq<char>>(url.head),
        url.fragment matches Some(f) ==> normalized(input) == Ok::<Seq<char>, Seq<char>>(
            url.head + seq!['#'] + f,
        ),
        normalized(input) == Ok::<Seq<char>, Seq<char>>(cleaned(url)),
{
    if url.fragment is None {
        assert(url.head + Seq::<char>::empty() == url.head);
    } else {
        assert(url.head + (seq!['#'] + url.fragment->0) == url.head + seq!['#']
            + url.fragment->0);
    }
}

/// What is no URL is refused with the reason why it is none: a text that names a scheme with its
/// own reason, another one with that of the text behind `https://`.
pub proof fn other_texts_are_refused(input: Seq<char>, reason: Seq<char>, second: Seq<char>)
    requires
        url_read(trim(input)) == Err::<UrlView, Seq<char>>(reason),
    ensures
        has(trim(input), "://"@) ==> normalized(input) == Err::<Seq<char>, Seq<char>>(reason),
        !(has(trim(input), "://"@)) && url_read("https://"@ + trim(input)) == Err::<
            UrlView,
            Seq<char>,
        >(second) ==> normalized(input) == Err::<Seq<char>, Seq<char>>(second),
{
}

// ---------------------------------------------------------------------------
// Paths
// ---------------------------------------------------------------------------

/// Whether what follows a segment ends it.
pub open spec fn ends_a_segment(rest: Seq<char>) -> bool {
    rest.len() == 0 || rest[0] == '/'
}

/// The segments of a path are what stands between its slashes.
pub proof fn segments_make_up_the_path(path: Seq<char>)
    requires
        path.len() > 0,
        path[0] == '/',
    ensures
        crate::text::join(segments(path), seq!['/']) == path.skip(1),
        forall|k: int| 0 <= k < segments(path).len() ==> free_of(#[trigger] segments(path)[k], '/'),
{
    pieces_make_up_the_text(path.skip(1), '/');
}

/// The first piece of a text with something behind it.
proof fn lemma_next_piece(a: Seq<char>, rest: Seq<char>)
    requires
        free_of(a, '/'),
        ends_a_segment(rest),
    ensures
        pieces(a + rest, seq!['/']).len() > 0,
        pieces(a + rest, seq!['/'])[0] == a,
        rest.len() > 0 ==> pieces(a + rest, seq!['/']) == seq![a] + pieces(rest.skip(1), seq!['/']),
{
    if rest.len() == 0 {
        assert(a + rest == a);
        one_piece(a, '/');
    } else {
        assert(a + rest == a + seq!['/'] + rest.skip(1));
        first_piece_is_split_off(a, '/', rest.skip(1));
    }
}

proof fn lemma_two_segments(a: Seq<char>, b: Seq<char>, rest: Seq<char>)
    requires
        free_of(a, '/'),
        free_of(b, '/'),
        ends_a_segment(rest),
    ensures
        ({
            let segs = segments(seq!['/'] + a + seq!['/'] + b + rest);
            segs.len() >= 2 && segs[0] == a && segs[1] == b
        }),
{
    let path = seq!['/'] + a + seq!['/'] + b + rest;
    let tail = b + rest;
    assert(path.skip(1) == a + (seq!['/'] + tail));
    assert((seq!['/'] + tail).skip(1) == tail);
    lemma_next_piece(a, seq!['/'] + tail);
    lemma_next_piece(b, rest);
}

proof fn lemma_three_segments(a: Seq<char>, b: Seq<char>, c: Seq<char>, rest: Seq<char>)
    requires
        free_of(a, '/'),
        free_of(b, '/'),
        free_of(c, '/'),
        ends_a_segment(rest),
    ensures
        ({
            let segs = segments(seq!['/'] + a + seq!['/'] + b + seq!['/'] + c + rest);
            segs.len() >= 3 && segs[0] == a && segs[1] == b && segs[2] == c
        }),
{
    let path = seq!['/'] + a + seq!['/'] + b + seq!['/'] + c + rest;
    let inner = b + (seq!['/'] + (c + rest));
    assert(path.skip(1) == a + (seq!['/'] + inner));
    assert((seq!['/'] + inner).skip(1) == inner);
    lemma_next_piece(a, seq!['/'] + inner);
    assert((seq!['/'] + (c + rest)).skip(1) == c + rest);
    lemma_next_piece(b, seq!['/'] + (c + rest));
    lemma_next_piece(c, rest);
}

proof fn lemma_four_segments(
    a: Seq<char>,
    b: Seq<char>,
    c: Seq<char>,
    d: Seq<char>,
    rest: Seq<char>,
)
    requires
        free_of(a, '/'),
        free_of(b, '/'),
        free_of(c, '/'),
        free_of(d, '/'),
        ends_a_segment(rest),
    ensures
        ({
            let segs = segments(
                seq!['/'] + a + seq!['/'] + b + seq!['/'] + c + seq!['/'] + d + rest,
            );
            segs.len() >= 4 && segs[0] == a && segs[1] == b && segs[2] == c && segs[3] == d
        }),
{
    let path = seq!['/'] + a + seq!['/'] + b + seq!['/'] + c + seq!['/'] + d + rest;
    let last = d + rest;
    let third = c + (seq!['/'] + last);
    let second = b + (seq!['/'] + third);
    assert(path.skip(1) == a + (seq!['/'] + second));
    assert((seq!['/'] + second).skip(1) == second);
    assert((seq!['/'] + third).skip(1) == third);
    assert((seq!['/'] + last).skip(1) == last);
    lemma_next_piece(a, seq!['/'] + second);
    lemma_next_piece(b, seq!['/'] + third);
    lemma_next_piece(c, seq!['/'] + last);
    lemma_next_piece(d, rest);
}

/// Whether a word announces a post of Instagram.
pub open spec fn announces_a_post(word: Seq<char>) -> bool {
    word == "p"@ || word == "reel"@ || word == "tv"@
}

proof fn lemma_literals()
    ensures
        free_of("p"@, '/'),
        free_of("reel"@, '/'),
        free_of("tv"@, '/'),
        free_of("status"@, '/'),
        free_of("statuses"@, '/'),
        free_of("profile"@, '/'),
        free_of("post"@, '/'),
        free_of("media"@, '/'),
        !all_digits("status"@),
        !all_digits("statuses"@),
{
    reveal_strlit("p");
    reveal_strlit("reel");
    reveal_strlit("tv");
    reveal_strlit("status");
    reveal_strlit("statuses");
    reveal_strlit("profile");
    reveal_strlit("post");
    reveal_strlit("media");
    assert(!crate::text::ascii_digit("status"@[0]));
    assert(!crate::text::ascii_digit("statuses"@[0]));
}

/// The shortcode of an Instagram post stands behind the word that announces it, at the start of the
/// path or behind the name of a user; whatever follows it does not matter.
pub proof fn shortcodes_are_found(
    url: UrlView,
    kind: Seq<char>,
    user: Seq<char>,
    code: Seq<char>,
    rest: Seq<char>,
)
    requires
        at_instagram(url),
        announces_a_post(kind),
        !announces_a_post(user),
        free_of(user, '/'),
        code.len() > 0,
        free_of(code, '/'),
        ends_a_segment(rest),
    ensures
        url.path == seq!['/'] + kind + seq!['/'] + code + rest ==> shortcode(url) == Some(code),
        url.path == seq!['/'] + user + seq!['/'] + kind + seq!['/'] + code + rest ==> shortcode(url)
            == Some(code),
{
    lemma_literals();
    lemma_two_segments(kind, code, rest);
    lemma_three_segments(user, kind, code, rest);
}

/// Only an address of Instagram has a shortcode, and that is a segment of its path.
pub proof fn shortcodes_are_segments(address: Seq<char>, url: UrlView)
    requires
        url_read(address) == Ok::<UrlView, Seq<char>>(url),
    ensures
        instagram_shortcode(address) == Ok::<_, Seq<char>>(shortcode(url)),
        !at_instagram(url) ==> shortcode(url) is None,
        shortcode(url) matches Some(code) ==> code.len() > 0 && segments(url.path).contains(code)
            && announces_a_post(
            segments(url.path)[if segments(url.path)[1] == code && announces_a_post(
                segments(url.path)[0],
            ) {
                0int
            } else {
                1int
            }],
        ),
{
    let segs = segments(url.path);
    if shortcode(url) is Some {
        if announces_a_post(segs[0]) && segs[1].len() > 0 && segs.len() >= 2 {
            assert(segs[1] == shortcode(url)->0);
        } else {
            assert(segs[2] == shortcode(url)->0);
        }
    }
}

/// The id of a tweet is the number behind `status` or `statuses`; whatever follows it does not
/// matter.
pub proof fn status_ids_are_found(
    url: UrlView,
    user: Seq<char>,
    word: Seq<char>,
    id: Seq<char>,
    rest: Seq<char>,
)
    requires
        at_twitter(url),
        free_of(user, '/'),
        word == "status"@ || word == "statuses"@,
        id.len() > 0,
        all_digits(id),
        ends_a_segment(rest),
        url.path == seq!['/'] + user + seq!['/'] + word + seq!['/'] + id + rest,
    ensures
        status_id(url) == Some(id),
{
    lemma_literals();
    assert forall|i: int| 0 <= i < id.len() implies #[trigger] id[i] != '/' by {
        assert(crate::text::ascii_digit(id[i]));
    }
    lemma_three_segments(user, word, id, rest);
    let segs = segments(url.path);
    reveal_with_fuel(status_from, 3);
    assert(!all_digits(segs[1]));
}

/// Only an address of Twitter has the id of a tweet, and that is the first number that follows
/// `status` or `statuses` in its path.
pub proof fn status_ids_follow_status(address: Seq<char>, url: UrlView)
    requires
        url_read(address) == Ok::<UrlView, Seq<char>>(url),
    ensures
        twitter_status_id(address) == Ok::<_, Seq<char>>(status_id(url)),
        !at_twitter(url) ==> status_id(url) is None,
        status_id(url) matches Some(id) ==> exists|k: int|
            is_status_at(segments(url.path), k) && #[trigger] segments(url.path)[k + 1] == id,
        at_twitter(url) && status_id(url) is None ==> forall|k: int|
            !(#[trigger] is_status_at(segments(url.path), k)),
{
    lemma_status_from(segments(url.path), 0);
}

/// Whether a number follows `status` or `statuses` among the segments.
pub open spec fn is_status_at(segs: Seq<Seq<char>>, k: int) -> bool {
    &&& 0 <= k < segs.len() - 1
    &&& segs[k] == "status"@ || segs[k] == "statuses"@
    &&& segs[k + 1].len() > 0
    &&& all_digits(segs[k + 1])
}

proof fn lemma_status_from(segs: Seq<Seq<char>>, i: int)
    requires
        0 <= i,
    ensures
        status_from(segs, i) matches Some(id) ==> exists|k: int|
            is_status_at(segs, k) && #[trigger] segs[k + 1] == id,
        status_from(segs, i) is None ==> forall|k: int| i <= k ==> !(#[trigger] is_status_at(segs, k)),
    decreases segs.len() - i,
{
    if i + 1 < segs.len() {
        if is_status_at(segs, i) {
            assert(segs[i + 1] == status_from(segs, i)->0);
        } else {
            lemma_status_from(segs, i + 1);
        }
    }
}

/// A Bluesky post is named by the handle of its author and its key; whatever follows does not
/// matter.
pub proof fn bluesky_posts_are_found(
    url: UrlView,
    handle: Seq<char>,
    rkey: Seq<char>,
    rest: Seq<char>,
)
    requires
        at_bluesky(url),
        handle.len() > 0,
        rkey.len() > 0,
        free_of(handle, '/'),
        free_of(rkey, '/'),
        ends_a_segment(rest),
        url.path == seq!['/'] + "profile"@ + seq!['/'] + handle + seq!['/'] + "post"@ + seq!['/']
            + rkey + rest,
    ensures
        post_ref(url) == Some((handle, rkey)),
{
    lemma_literals();
    lemma_four_segments("profile"@, handle, "post"@, rkey, rest);
}

/// Only an address of Bluesky names a post there, and its path says whose and which.
pub proof fn bluesky_posts_are_named(address: Seq<char>, url: UrlView)
    requires
        url_read(address) == Ok::<UrlView, Seq<char>>(url),
    ensures
        bluesky_post(address) == Ok::<_, Seq<char>>(post_ref(url)),
        !at_bluesky(url) ==> post_ref(url) is None,
        post_ref(url) matches Some((handle, rkey)) ==> ({
            let segs = segments(url.path);
            &&& segs.len() >= 4
            &&& segs[0] == "profile"@ && segs[1] == handle && handle.len() > 0
            &&& segs[2] == "post"@ && segs[3] == rkey && rkey.len() > 0
        }),
{
}

/// What is no URL is no post.
pub proof fn posts_need_a_url(address: Seq<char>, reason: Seq<char>)
    requires
        url_read(address) == Err::<UrlView, Seq<char>>(reason),
    ensures
        instagram_shortcode(address) == Err::<Option<Seq<char>>, Seq<char>>(reason),
        twitter_status_id(address) == Err::<Option<Seq<char>>, Seq<char>>(reason),
        bluesky_post(address) == Err::<Option<(Seq<char>, Seq<char>)>, Seq<char>>(reason),
{
}

/// The embeddable page of a post is addressed by its shortcode.
pub proof fn embeddable_pages_are_addressed(code: Seq<char>)
    requires
        plain_segment(code),
    ensures
        embed_address(code) == "https://www.instagram.com/p/"@ + code + "/embed"@,
{
    lemma_segment_plain(code);
}

// ---------------------------------------------------------------------------
// Images
// ---------------------------------------------------------------------------

proof fn lemma_after_last_dot(a: Seq<char>, e: Seq<char>)
    requires
        free_of(e, '.'),
    ensures
        after_last_dot(a + seq!['.'] + e) == Some(e),
    decreases e.len(),
{
    let all = a + seq!['.'] + e;
    if e.len() == 0 {
        assert(all.last() == '.');
        assert(e == Seq::<char>::empty());
    } else {
        let shorter = e.drop_last();
        assert forall|i: int| 0 <= i < shorter.len() implies #[trigger] shorter[i] != '.' by {
            assert(shorter[i] == e[i]);
        }
        lemma_after_last_dot(a, shorter);
        assert(all.drop_last() == a + seq!['.'] + shorter);
        assert(all.last() == e[e.len() - 1]);
        assert(shorter.push(e.last()) == e);
    }
}

proof fn lemma_last_piece(s: Seq<char>, t: Seq<char>)
    requires
        free_of(t, '/'),
    ensures
        pieces(s + seq!['/'] + t, seq!['/']).len() > 0,
        pieces(s + seq!['/'] + t, seq!['/']).last() == t,
    decreases s.len(),
{
    let gap = seq!['/'];
    crate::text::lemma_next_separator(s, gap, 0);
    let end = crate::text::next_separator(s, gap, 0);
    let a = s.take(end);
    assert(gap[0] == '/');
    assert forall|j: int| 0 <= j < a.len() implies #[trigger] a[j] != '/' by {
        if s[j] == '/' {
            assert(gap.contains(s[j]));
        }
    }
    if end < s.len() {
        let rest = s.skip(end + 1);
        assert(s + gap + t == a + gap + (rest + gap + t));
        first_piece_is_split_off(a, '/', rest + gap + t);
        lemma_last_piece(rest, t);
    } else {
        assert(a == s);
        first_piece_is_split_off(s, '/', t);
        one_piece(t, '/');
    }
}

/// The formats of images that are known by their extensions.
pub open spec fn format_named(extension: Seq<char>) -> Option<Seq<char>> {
    let e = lowercase(extension);
    if e == "png"@ || e == "webp"@ || e == "jpg"@ {
        Some(e)
    } else if e == "jpeg"@ {
        Some("jpg"@)
    } else {
        None
    }
}

proof fn lemma_format_named(extension: Seq<char>)
    ensures
        image_format(lowercase(extension)) == format_named(extension),
{
    reveal_strlit("jpg");
    reveal_strlit("jpeg");
    reveal_strlit("png");
    reveal_strlit("webp");
    assert("jpg"@[0] == 'j' && "jpeg"@[0] == 'j' && "png"@[0] == 'p' && "webp"@[0] == 'w');
    assert("jpg"@.len() == 3 && "jpeg"@.len() == 4);
}

proof fn lemma_last_segment(pre: Seq<char>, file: Seq<char>)
    requires
        pre.len() == 0 || pre[0] == '/',
        free_of(file, '/'),
    ensures
        segments(pre + seq!['/'] + file).len() > 0,
        segments(pre + seq!['/'] + file).last() == file,
{
    let path = pre + seq!['/'] + file;
    if pre.len() == 0 {
        assert(path.skip(1) == file);
        one_piece(file, '/');
    } else {
        assert(path.skip(1) == pre.skip(1) + seq!['/'] + file);
        lemma_last_piece(pre.skip(1), file);
    }
    assert(path[0] == '/');
}

proof fn lemma_path_format(pre: Seq<char>, name: Seq<char>, extension: Seq<char>)
    requires
        pre.len() == 0 || pre[0] == '/',
        free_of(name, '/'),
        free_of(extension, '/'),
        free_of(extension, '.'),
    ensures
        crate::links::path_format(pre + seq!['/'] + name + seq!['.'] + extension) == format_named(
            extension,
        ),
{
    let file = name + seq!['.'] + extension;
    let path = pre + seq!['/'] + name + seq!['.'] + extension;
    assert(path == pre + seq!['/'] + file);
    assert forall|i: int| 0 <= i < file.len() implies #[trigger] file[i] != '/' by {
        if i < name.len() {
            assert(file[i] == name[i]);
        } else if i > name.len() {
            assert(file[i] == extension[i - name.len() - 1]);
        }
    }
    lemma_last_segment(pre, file);
    lemma_after_last_dot(name, extension);
    lemma_format_named(extension);
}

/// A fetched image gets the extension of its address, in lower case, with `jpg` for `jpeg`; one of
/// another kind gets that of a JPEG.
pub proof fn images_keep_their_extension(
    url: UrlView,
    address: Seq<char>,
    pre: Seq<char>,
    name: Seq<char>,
    extension: Seq<char>,
)
    requires
        url_read(address) == Ok::<UrlView, Seq<char>>(url),
        pre.len() == 0 || pre[0] == '/',
        free_of(name, '/'),
        free_of(extension, '/'),
        free_of(extension, '.'),
        url.path == pre + seq!['/'] + name + seq!['.'] + extension,
    ensures
        image_extension(address) == (match format_named(extension) {
            Some(f) => f,
            None => "jpg"@,
        }),
{
    lemma_path_format(pre, name, extension);
}

/// An image of Twitter is asked for in the format that its path names and in its original size,
/// whatever size its address asked for.
pub proof fn tweeted_images_are_asked_for_whole(
    url: UrlView,
    address: Seq<char>,
    name: Seq<char>,
    extension: Seq<char>,
)
    requires
        url_read(address) == Ok::<UrlView, Seq<char>>(url),
        url.host == Some("pbs.twimg.com"@),
        free_of(name, '/'),
        free_of(extension, '/'),
        free_of(extension, '.'),
        url.path == "/media/"@ + name + seq!['.'] + extension,
    ensures
        format_named(extension) is None ==> twitter_original(address) is None,
        format_named(extension) matches Some(f) ==> twitter_original(address) == Some(
            url.head + "?format="@ + f + "&name=orig"@ + (match url.fragment {
                Some(g) => seq!['#'] + g,
                None => Seq::empty(),
            }),
        ),
{
    reveal_strlit("/media/");
    let pre = seq!['/', 'm', 'e', 'd', 'i', 'a'];
    assert("/media/"@ == pre + seq!['/']);
    assert(url.path == pre + seq!['/'] + name + seq!['.'] + extension);
    lemma_path_format(pre, name, extension);
    ends_of_a_text(name + seq!['.'] + extension, "/media/"@);
    assert("/media/"@ + (name + seq!['.'] + extension) == url.path);
}

/// Only what lies under the media of Twitter's image server is an image of a tweet.
pub proof fn other_images_are_not_tweeted(url: UrlView)
    requires
        original_image(url) is Some,
    ensures
        url.host == Some("pbs.twimg.com"@),
        url.path == "/media/"@ + url.path.skip("/media/"@.len() as int),
{
    ends_of_a_text(url.path, "/media/"@);
}

/// The images that Instagram and Bluesky serve in full are told by their hosts and their paths.
pub proof fn full_images_are_told_by_their_addresses(
    url: UrlView,
    site: Seq<char>,
    before: Seq<char>,
    after: Seq<char>,
)
    ensures
        url.host == Some(site + "cdninstagram.com"@) && url.path == before + "/v/t51."@ + after
            ==> instagram_image(url),
        url.host == Some(site + "fbcdn.net"@) && url.path == before + "/v/t51."@ + after
            ==> instagram_image(url),
        url.host == Some("cdn.bsky.app"@) && url.path == "/img/feed_fullsize/"@ + after
            ==> bluesky_image(url),
        instagram_image(url) ==> has(url.path, "/v/t51."@) && (url.host matches Some(h) && (
        has_suffix(h, "cdninstagram.com"@) || has_suffix(h, "fbcdn.net"@))),
        bluesky_image(url) ==> url.host == Some("cdn.bsky.app"@) && has_prefix(
            url.path,
            "/img/feed_fullsize/"@,
        ),
{
    ends_of_a_text(site, "cdninstagram.com"@);
    ends_of_a_text(site, "fbcdn.net"@);
    ends_of_a_text(after, "/img/feed_fullsize/"@);
    holding_is_standing_somewhere(before + "/v/t51."@ + after, "/v/t51."@);
}

} // verus!
