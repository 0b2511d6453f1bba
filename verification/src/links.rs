//! Addresses of posts and images: what the bot reads out of a URL and which URLs it builds.
use vstd::prelude::*;
use vstd::slice::slice_subrange;
use vstd::utf8::encode_utf8;

use crate::json::{some_string, some_text};
use crate::text::{
    all_digits, are_digits, chars_of, contains, ends_with, has, has_prefix, has_suffix, is_text,
    lowercase, lowercase_chars, pieces, split, starts_with, text_of, trim, trim_chars, views,
};

verus! {

// ---------------------------------------------------------------------------
// URLs
// ---------------------------------------------------------------------------

/// The parts of a URL. The head is everything before the query and the fragment.
#[derive(Debug, PartialEq, Eq)]
pub struct UrlParts {
    pub href: String,
    pub head: String,
    pub host: Option<String>,
    pub path: String,
    pub query: Option<String>,
    pub fragment: Option<String>,
}

/// What the parts of a URL are.
#[verifier::ext_equal]
pub struct UrlView {
    pub href: Seq<char>,
    pub head: Seq<char>,
    pub host: Option<Seq<char>>,
    pub path: Seq<char>,
    pub query: Option<Seq<char>>,
    pub fragment: Option<Seq<char>>,
}

impl View for UrlParts {
    type V = UrlView;

    open spec fn view(&self) -> UrlView {
        UrlView {
            href: self.href@,
            head: self.head@,
            host: some_string(self.host),
            path: self.path@,
            query: some_string(self.query),
            fragment: some_string(self.fragment),
        }
    }
}

/// What follows the head: the part behind its mark, or nothing.
pub open spec fn marked(mark: char, part: Option<Seq<char>>) -> Seq<char> {
    match part {
        Some(p) => seq![mark] + p,
        None => Seq::empty(),
    }
}

/// What `url::Url::parse` makes of a text: the parts of the URL, or the message of the error.
pub uninterp spec fn url_read(text: Seq<char>) -> Result<UrlView, Seq<char>>;

/// What a parse gave.
pub open spec fn parts_result(r: Result<UrlParts, String>) -> Result<UrlView, Seq<char>> {
    match r {
        Ok(u) => Ok(u@),
        Err(m) => Err(m@),
    }
}

/// Calls `url::Url::parse` and takes the URL apart. The result depends on the text alone, and is
/// named `url_read`; the whole URL is its head, then the query behind a question mark, then the
/// fragment behind a number sign.
#[verifier::external_body]
pub(crate) fn parse_url(text: &str) -> (r: Result<UrlParts, String>)
    ensures
        parts_result(r) == url_read(text@),
        r matches Ok(u) ==> u@.href == u@.head + marked('?', u@.query) + marked('#', u@.fragment),
{
    match url::Url::parse(text) {
        Ok(url) => Ok(UrlParts {
            href: url.to_string(),
            head: url[..url::Position::AfterPath].to_string(),
            host: url.host_str().map(|part| part.to_string()),
            path: url.path().to_string(),
            query: url.query().map(|part| part.to_string()),
            fragment: url.fragment().map(|part| part.to_string()),
        }),
        Err(err) => Err(err.to_string()),
    }
}

/// The host in lower case.
pub open spec fn lower_host(url: UrlView) -> Option<Seq<char>> {
    match url.host {
        Some(h) => Some(lowercase(h)),
        None => None,
    }
}

/// The host in lower case.
fn host_of(url: &UrlParts) -> (r: Option<Vec<char>>)
    ensures
        match r {
            Some(h) => lower_host(url@) == Some(h@),
            None => lower_host(url@) is None,
        },
{
    match &url.host {
        Some(h) => {
            let cs = chars_of(h.as_str());
            Some(lowercase_chars(cs.as_slice()))
        },
        None => None,
    }
}

/// The segments of a path: what stands between its slashes, behind the first one. A path that
/// does not begin with a slash has none.
pub open spec fn segments(path: Seq<char>) -> Seq<Seq<char>> {
    if path.len() > 0 && path[0] == '/' {
        pieces(path.skip(1), seq!['/'])
    } else {
        Seq::empty()
    }
}

/// The segments of a path.
pub fn path_segments(path: &str) -> (r: Vec<Vec<char>>)
    ensures
        views(r@) == segments(path@),
{
    let cs = chars_of(path);
    if cs.len() > 0 && cs[0] == '/' {
        let rest = slice_subrange(cs.as_slice(), 1, cs.len());
        assert(rest@ == path@.skip(1));
        let slash: [char; 1] = ['/'];
        assert(slash@ == seq!['/']);
        split(rest, &slash)
    } else {
        let none: Vec<Vec<char>> = Vec::new();
        assert(views(none@) == Seq::<Seq<char>>::empty());
        none
    }
}

/// What stands behind the last dot, if there is a dot.
pub open spec fn after_last_dot(s: Seq<char>) -> Option<Seq<char>>
    decreases s.len(),
{
    if s.len() == 0 {
        None
    } else if s.last() == '.' {
        Some(Seq::empty())
    } else {
        match after_last_dot(s.drop_last()) {
            Some(rest) => Some(rest.push(s.last())),
            None => None,
        }
    }
}

/// What stands behind the last dot, if there is a dot.
fn extension_part(s: &[char]) -> (r: Option<Vec<char>>)
    ensures
        match r {
            Some(e) => after_last_dot(s@) == Some(e@),
            None => after_last_dot(s@) is None,
        },
{
    let mut out: Option<Vec<char>> = None;
    let mut i: usize = 0;
    while i < s.len()
        invariant
            i <= s.len(),
            match out {
                Some(e) => after_last_dot(s@.take(i as int)) == Some(e@),
                None => after_last_dot(s@.take(i as int)) is None,
            },
        decreases s.len() - i,
    {
        assert(s@.take(i + 1).drop_last() == s@.take(i as int));
        assert(s@.take(i + 1).last() == s@[i as int]);
        if s[i] == '.' {
            let none: Vec<char> = Vec::new();
            assert(none@ == Seq::<char>::empty());
            out = Some(none);
        } else {
            match &mut out {
                Some(e) => {
                    e.push(s[i]);
                },
                None => {},
            }
        }
        i += 1;
    }
    assert(s@.take(i as int) == s@);
    out
}

/// The extension of the last segment of a path, in lower case.
pub open spec fn path_suffix(path: Seq<char>) -> Option<Seq<char>> {
    let segs = segments(path);
    if segs.len() == 0 {
        None
    } else {
        match after_last_dot(segs.last()) {
            Some(e) => Some(lowercase(e)),
            None => None,
        }
    }
}

/// The extension of the last segment of a path, in lower case.
fn suffix_of_path(path: &str) -> (r: Option<Vec<char>>)
    ensures
        match r {
            Some(e) => path_suffix(path@) == Some(e@),
            None => path_suffix(path@) is None,
        },
{
    let segs = path_segments(path);
    if segs.len() == 0 {
        return None;
    }
    assert(views(segs@).last() == segs@.last()@);
    match extension_part(segs[segs.len() - 1].as_slice()) {
        Some(e) => Some(lowercase_chars(e.as_slice())),
        None => None,
    }
}

// ---------------------------------------------------------------------------
// What a user sends
// ---------------------------------------------------------------------------

/// Whether the host is one of Twitter's.
pub open spec fn twitter_host(host: Seq<char>) -> bool {
    host == "x.com"@ || host == "www.x.com"@ || host == "twitter.com"@ || host
        == "www.twitter.com"@
}

/// Whether the host is one of Twitter's.
fn is_twitter_host(host: &[char]) -> (r: bool)
    ensures
        r == twitter_host(host@),
{
    is_text(host, "x.com") || is_text(host, "www.x.com") || is_text(host, "twitter.com")
        || is_text(host, "www.twitter.com")
}

/// The URL without its query.
pub open spec fn without_query(url: UrlView) -> Seq<char> {
    url.head + marked('#', url.fragment)
}

/// A URL as it is downloaded: one of Twitter loses its query.
pub open spec fn cleaned(url: UrlView) -> Seq<char> {
    match lower_host(url) {
        Some(h) if twitter_host(h) => without_query(url),
        _ => url.href,
    }
}

/// The URL that a message means: the text itself, or the text behind `https://` where the text
/// alone is no URL and names no scheme.
pub open spec fn url_meant(input: Seq<char>) -> Result<UrlView, Seq<char>> {
    let text = trim(input);
    match url_read(text) {
        Ok(url) => Ok(url),
        Err(m) => if has(text, "://"@) {
            Err(m)
        } else {
            url_read("https://"@ + text)
        },
    }
}

/// The normalized form of what a user sent.
pub open spec fn normalized(input: Seq<char>) -> Result<Seq<char>, Seq<char>> {
    match url_meant(input) {
        Ok(url) => Ok(cleaned(url)),
        Err(m) => Err(m),
    }
}

/// What a function that makes a text or fails gave.
pub open spec fn text_result(r: Result<String, String>) -> Result<Seq<char>, Seq<char>> {
    match r {
        Ok(s) => Ok(s@),
        Err(m) => Err(m@),
    }
}

/// Puts a URL in the form in which it is downloaded.
pub fn clean_url(url: &UrlParts) -> (r: String)
    ensures
        r@ == cleaned(url@),
{
    let strip = match host_of(url) {
        Some(h) => is_twitter_host(h.as_slice()),
        None => false,
    };
    if strip {
        let mut out = url.head.clone();
        if let Some(f) = &url.fragment {
            out.push('#');
            out.append(f.as_str());
        }
        assert(out@ == without_query(url@));
        out
    } else {
        url.href.clone()
    }
}

/// Normalizes what a user sent, or says why it is no URL.
pub fn normalize_input_url(input_url: &str) -> (r: Result<String, String>)
    ensures
        text_result(r) == normalized(input_url@),
{
    let cs = chars_of(input_url);
    let trimmed_cs = trim_chars(cs.as_slice());
    let text = text_of(trimmed_cs);
    match parse_url(text.as_str()) {
        Ok(url) => Ok(clean_url(&url)),
        Err(m) => {
            if contains(trimmed_cs, "://") {
                return Err(m);
            }
            let mut with_scheme = "https://".to_owned();
            with_scheme.append(text.as_str());
            match parse_url(with_scheme.as_str()) {
                Ok(url) => Ok(clean_url(&url)),
                Err(m) => Err(m),
            }
        },
    }
}

// ---------------------------------------------------------------------------
// Instagram
// ---------------------------------------------------------------------------

/// Whether the host is Instagram's.
pub open spec fn instagram_host(host: Seq<char>) -> bool {
    host == "instagram.com"@ || host == "www.instagram.com"@
}

/// Whether the host is Instagram's.
pub fn is_instagram_host(host: &[char]) -> (r: bool)
    ensures
        r == instagram_host(host@),
{
    is_text(host, "instagram.com") || is_text(host, "www.instagram.com")
}

/// Whether a segment announces a post.
pub open spec fn post_kind(segment: Seq<char>) -> bool {
    segment == "p"@ || segment == "reel"@ || segment == "tv"@
}

/// Whether a segment announces a post.
fn is_post_kind(segment: &[char]) -> (r: bool)
    ensures
        r == post_kind(segment@),
{
    is_text(segment, "p") || is_text(segment, "reel") || is_text(segment, "tv")
}

/// The shortcode among the segments of a path: it follows the kind of the post, which comes first
/// or second.
pub open spec fn shortcode_in(segs: Seq<Seq<char>>) -> Option<Seq<char>> {
    if segs.len() >= 2 && post_kind(segs[0]) && segs[1].len() > 0 {
        Some(segs[1])
    } else if segs.len() >= 3 && post_kind(segs[1]) && segs[2].len() > 0 {
        Some(segs[2])
    } else {
        None
    }
}

/// The shortcode of the post that a URL points to.
pub open spec fn shortcode(url: UrlView) -> Option<Seq<char>> {
    match lower_host(url) {
        Some(h) if instagram_host(h) => shortcode_in(segments(url.path)),
        _ => None,
    }
}

/// What a function that finds a text or fails gave.
pub open spec fn found_result(r: Result<Option<String>, String>) -> Result<
    Option<Seq<char>>,
    Seq<char>,
> {
    match r {
        Ok(s) => Ok(some_string(s)),
        Err(m) => Err(m@),
    }
}

/// The shortcode of the post that a URL points to.
pub fn shortcode_of(url: &UrlParts) -> (r: Option<String>)
    ensures
        some_string(r) == shortcode(url@),
{
    match host_of(url) {
        Some(h) => {
            if !is_instagram_host(h.as_slice()) {
                return None;
            }
        },
        None => {
            return None;
        },
    }
    let segs = path_segments(url.path.as_str());
    assert forall|i: int| 0 <= i < segs.len() implies segments(url@.path)[i]
        == #[trigger] segs@[i]@ by {
        assert(views(segs@)[i] == segs@[i]@);
    }
    if segs.len() >= 2 && is_post_kind(segs[0].as_slice()) && segs[1].len() > 0 {
        Some(text_of(segs[1].as_slice()))
    } else if segs.len() >= 3 && is_post_kind(segs[1].as_slice()) && segs[2].len() > 0 {
        Some(text_of(segs[2].as_slice()))
    } else {
        None
    }
}

/// The shortcode of the Instagram post that an address points to, if it points to one.
pub open spec fn instagram_shortcode(address: Seq<char>) -> Result<Option<Seq<char>>, Seq<char>> {
    match url_read(address) {
        Ok(url) => Ok(shortcode(url)),
        Err(m) => Err(m),
    }
}

/// The shortcode of the Instagram post that an address points to, if it points to one.
pub fn instagram_shortcode_from_url(normalized: &str) -> (r: Result<Option<String>, String>)
    ensures
        found_result(r) == instagram_shortcode(normalized@),
{
    match parse_url(normalized) {
        Ok(url) => Ok(shortcode_of(&url)),
        Err(m) => Err(m),
    }
}

/// What clearing the path of a URL and pushing segments to it gives with the `url` crate.
pub uninterp spec fn url_with_path(base: Seq<char>, segments: Seq<Seq<char>>) -> Seq<char>;

/// Whether a byte stands for itself in a segment of a path.
pub open spec fn plain_segment_byte(b: u8) -> bool {
    &&& 0x21 <= b <= 0x7e
    &&& b != 0x22 && b != 0x23 && b != 0x25 && b != 0x2f && b != 0x3c && b != 0x3e && b != 0x3f
    &&& b != 0x5c && b != 0x60 && b != 0x7b && b != 0x7d
}

/// How a byte is written in a segment of a path: itself or its hexadecimal code. Tabs and line
/// ends are left out.
pub open spec fn segment_byte(b: u8) -> Seq<char> {
    if b == 0x09 || b == 0x0a || b == 0x0d {
        Seq::empty()
    } else if plain_segment_byte(b) {
        seq![b as char]
    } else {
        seq!['%', hex_digit(b / 16), hex_digit(b % 16)]
    }
}

/// How bytes are written in a segment of a path.
pub open spec fn segment_bytes(bytes: Seq<u8>) -> Seq<char>
    decreases bytes.len(),
{
    if bytes.len() == 0 {
        Seq::empty()
    } else {
        segment_bytes(bytes.drop_last()) + segment_byte(bytes.last())
    }
}

/// How a text is written as a segment of a path.
pub open spec fn segment_text(text: Seq<char>) -> Seq<char> {
    segment_bytes(encode_utf8(text))
}

/// Whether a segment names the place itself or the one above it.
pub open spec fn dotted(segment: Seq<char>) -> bool {
    segment == "."@ || segment == ".."@
}

/// Whether a segment needs no escape in a path: it is made of ASCII letters, digits, hyphens and
/// underscores, at least one.
pub open spec fn plain_segment(s: Seq<char>) -> bool {
    &&& s.len() > 0
    &&& forall|i: int|
        0 <= i < s.len() ==> (crate::text::ascii_alphanumeric(#[trigger] s[i]) || s[i] == '-'
            || s[i] == '_')
}

/// Whether a text is the address of a site `https://www.<letters>.com/`.
pub open spec fn plain_site(base: Seq<char>) -> bool {
    exists|name: Seq<char>|
        base == "https://www."@ + name + ".com/"@ && name.len() > 0 && forall|i: int|
            0 <= i < name.len() ==> 'a' <= #[trigger] name[i] <= 'z'
}

/// The views of three segments.
pub open spec fn three(a: Seq<char>, b: Seq<char>, c: Seq<char>) -> Seq<Seq<char>> {
    seq![a, b, c]
}

/// Calls `url::Url::parse`, then `clear` and three times `push` on what
/// `url::Url::path_segments_mut` gives. The result depends on the arguments alone, and is named
/// `url_with_path`. Where no segment is a dot or two, the segments stand behind the address of the
/// site as `segment_text` writes them, with slashes between them. A URL of more bytes than 32 bits
/// can count is left out: the crate panics there.
#[verifier::external_body]
fn replace_path(base: &str, first: &str, second: &str, third: &str) -> (r: Option<String>)
    requires
        plain_site(base@),
        base@.len() + segment_text(first@).len() + 1 + segment_text(second@).len() + 1
            + segment_text(third@).len() <= u32::MAX,
    ensures
        some_string(r) == Some(url_with_path(base@, three(first@, second@, third@))),
        segment_text(first@).len() > 0 && !dotted(segment_text(first@)) && !dotted(
            segment_text(second@),
        ) && !dotted(segment_text(third@)) ==> some_string(r) == Some(
            base@ + segment_text(first@) + "/"@ + segment_text(second@) + "/"@ + segment_text(
                third@,
            ),
        ),
{
    let mut url = url::Url::parse(base).ok()?;
    url.path_segments_mut().ok()?.clear().push(first).push(second).push(third);
    Some(url.to_string())
}

/// Plain text stands for itself in a path.
pub proof fn lemma_segment_plain(text: Seq<char>)
    requires
        plain_segment(text),
    ensures
        segment_text(text) == text,
        !dotted(text),
{
    reveal_strlit(".");
    reveal_strlit("..");
    assert(crate::text::ascii_alphanumeric(text[0]) || text[0] == '-' || text[0] == '_');
    assert(vstd::utf8::is_ascii_chars(text));
    vstd::utf8::is_ascii_chars_encode_utf8(text);
    lemma_segment_bytes_plain(encode_utf8(text), text);
}

proof fn lemma_segment_bytes_plain(bytes: Seq<u8>, text: Seq<char>)
    requires
        bytes.len() == text.len(),
        forall|i: int|
            0 <= i < text.len() ==> (crate::text::ascii_alphanumeric(#[trigger] text[i]) || text[i]
                == '-' || text[i] == '_') && bytes[i] == text[i] as u8,
    ensures
        segment_bytes(bytes) == text,
    decreases bytes.len(),
{
    if bytes.len() > 0 {
        lemma_segment_bytes_plain(bytes.drop_last(), text.drop_last());
        let c = text.last();
        assert(c == text[text.len() - 1]);
        assert((c as u8) as char == c);
        assert(segment_byte(bytes.last()) == seq![c]);
        assert(segment_bytes(bytes) == text);
    }
}

/// Bytes are written no shorter than their first ones.
proof fn lemma_segment_grows(bytes: Seq<u8>, i: int)
    requires
        0 <= i <= bytes.len(),
    ensures
        segment_bytes(bytes.take(i)).len() <= segment_bytes(bytes).len(),
    decreases bytes.len(),
{
    if i < bytes.len() {
        lemma_segment_grows(bytes.drop_last(), i);
        assert(bytes.drop_last().take(i) == bytes.take(i));
    } else {
        assert(bytes.take(i) == bytes);
    }
}

/// Whether a text is written as a segment of a path with at most so many characters.
fn segment_within(text: &str, limit: u64) -> (r: bool)
    ensures
        r == (segment_text(text@).len() <= limit),
{
    let bytes = text.as_bytes();
    let ghost all = encode_utf8(text@);
    let mut size: u64 = 0;
    let mut i: usize = 0;
    assert(all.take(0) == Seq::<u8>::empty());
    while i < bytes.len()
        invariant
            i <= bytes.len(),
            bytes@ == all,
            all == encode_utf8(text@),
            size == segment_bytes(all.take(i as int)).len(),
            size <= limit,
        decreases bytes.len() - i,
    {
        let b = bytes[i];
        assert(all.take(i + 1).drop_last() == all.take(i as int));
        assert(all.take(i + 1).last() == b);
        let plain = 0x21 <= b && b <= 0x7e && b != 0x22 && b != 0x23 && b != 0x25 && b != 0x2f && b
            != 0x3c && b != 0x3e && b != 0x3f && b != 0x5c && b != 0x60 && b != 0x7b && b != 0x7d;
        let more: u64 = if b == 0x09 || b == 0x0a || b == 0x0d {
            0
        } else if plain {
            1
        } else {
            3
        };
        assert(more == segment_byte(b).len());
        if more > limit - size {
            proof {
                lemma_segment_grows(all, i + 1);
            }
            return false;
        }
        size = size + more;
        i += 1;
    }
    assert(all.take(i as int) == all);
    true
}

/// The address of the embeddable page of an Instagram post.
pub open spec fn embed_address(code: Seq<char>) -> Seq<char> {
    if dotted(segment_text(code)) {
        url_with_path("https://www.instagram.com/"@, three("p"@, code, "embed"@))
    } else {
        "https://www.instagram.com/p/"@ + segment_text(code) + "/embed"@
    }
}

/// Whether the address of the embeddable page has no more bytes than 32 bits can count.
pub open spec fn embed_fits(code: Seq<char>) -> bool {
    "https://www.instagram.com/p/"@.len() + segment_text(code).len() + "/embed"@.len() <= u32::MAX
}

proof fn lemma_instagram_is_plain()
    ensures
        plain_site("https://www.instagram.com/"@),
{
    reveal_strlit("https://www.instagram.com/");
    reveal_strlit("https://www.");
    reveal_strlit(".com/");
    let name = seq!['i', 'n', 's', 't', 'a', 'g', 'r', 'a', 'm'];
    assert("https://www.instagram.com/"@ == "https://www."@ + name + ".com/"@);
}

proof fn lemma_embed_words_are_plain()
    ensures
        plain_segment("p"@),
        plain_segment("embed"@),
        segment_text("p"@) == "p"@,
        segment_text("embed"@) == "embed"@,
        !dotted("p"@),
        !dotted("embed"@),
{
    reveal_strlit("p");
    reveal_strlit("embed");
    lemma_segment_plain("p"@);
    lemma_segment_plain("embed"@);
}

proof fn lemma_embed_address_joins(segment: Seq<char>)
    ensures
        "https://www.instagram.com/"@ + "p"@ + "/"@ + segment + "/"@ + "embed"@
            == "https://www.instagram.com/p/"@ + segment + "/embed"@,
        "https://www.instagram.com/p/"@.len() == "https://www.instagram.com/"@.len() + 2,
        "/embed"@.len() == 6,
        "p"@.len() == 1,
        "embed"@.len() == 5,
        "/"@.len() == 1,
{
    reveal_strlit("https://www.instagram.com/");
    reveal_strlit("https://www.instagram.com/p/");
    reveal_strlit("/embed");
    reveal_strlit("p");
    reveal_strlit("embed");
    reveal_strlit("/");
    assert("https://www.instagram.com/"@ + "p"@ + "/"@ == "https://www.instagram.com/p/"@);
    assert("/"@ + "embed"@ == "/embed"@);
    assert("https://www.instagram.com/"@ + "p"@ + "/"@ + segment + "/"@ + "embed"@ == (
    "https://www.instagram.com/"@ + "p"@ + "/"@) + segment + ("/"@ + "embed"@));
}

/// Builds the address of the embeddable page of an Instagram post. For a shortcode of letters,
/// digits, hyphens and underscores it is `https://www.instagram.com/p/<shortcode>/embed`.
pub fn embed_url_for(code: &str) -> (r: String)
    requires
        embed_fits(code@),
    ensures
        r@ == embed_address(code@),
        plain_segment(code@) ==> r@ == "https://www.instagram.com/p/"@ + code@ + "/embed"@,
{
    proof {
        lemma_instagram_is_plain();
        lemma_embed_words_are_plain();
        if plain_segment(code@) {
            lemma_segment_plain(code@);
        }
        lemma_embed_address_joins(segment_text(code@));
    }
    replace_path("https://www.instagram.com/", "p", code, "embed").unwrap()
}

/// Whether the address of the embeddable page of the Instagram post that an address points to has
/// no more bytes than 32 bits can count.
pub open spec fn embed_url_fits(address: Seq<char>) -> bool {
    instagram_shortcode(address) matches Ok(Some(code)) ==> embed_fits(code)
}

/// Whether the address of the embeddable page of the Instagram post that an address points to can
/// be built.
pub fn has_fitting_embed_url(normalized: &str) -> (r: bool)
    ensures
        r == embed_url_fits(normalized@),
{
    proof {
        reveal_strlit("https://www.instagram.com/p/");
        reveal_strlit("/embed");
    }
    match instagram_shortcode_from_url(normalized) {
        Ok(Some(code)) => segment_within(code.as_str(), 0xffff_ffdd),
        _ => true,
    }
}

/// The address of the embeddable page of the Instagram post that an address points to.
pub open spec fn embed_url(address: Seq<char>) -> Result<Option<Seq<char>>, Seq<char>> {
    match instagram_shortcode(address) {
        Err(m) => Err(m),
        Ok(None) => Ok(None),
        Ok(Some(code)) => Ok(Some(embed_address(code))),
    }
}

/// The address of the embeddable page of the Instagram post that an address points to, if it
/// points to one.
pub fn instagram_embed_url(normalized: &str) -> (r: Result<Option<String>, String>)
    requires
        embed_url_fits(normalized@),
    ensures
        found_result(r) == embed_url(normalized@),
{
    match instagram_shortcode_from_url(normalized) {
        Err(m) => Err(m),
        Ok(None) => Ok(None),
        Ok(Some(code)) => Ok(Some(embed_url_for(code.as_str()))),
    }
}

/// The address of the embeddable page of the Instagram post that an address points to, if it
/// points to one; nothing at all where that address would be too long to build.
pub fn instagram_embed_url_if_it_fits(normalized: &str) -> (r: Option<
    Result<Option<String>, String>,
>)
    ensures
        match r {
            Some(found) => embed_url_fits(normalized@) && found_result(found) == embed_url(
                normalized@,
            ),
            None => !embed_url_fits(normalized@),
        },
{
    if has_fitting_embed_url(normalized) {
        Some(instagram_embed_url(normalized))
    } else {
        None
    }
}

/// Whether the error output says that the post has no video in the wanted format.
pub open spec fn no_video_format(stderr: Seq<char>) -> bool {
    has(stderr, "There is no video in this post"@) || has(
        stderr,
        "Requested format is not available"@,
    )
}

/// Whether a download is tried again without asking for a video format.
pub fn should_retry_without_video_format(stderr: &str) -> (r: bool)
    ensures
        r == no_video_format(stderr@),
{
    let cs = chars_of(stderr);
    contains(cs.as_slice(), "There is no video in this post") || contains(
        cs.as_slice(),
        "Requested format is not available",
    )
}

/// Whether a failed download goes on with the images of an Instagram post.
pub open spec fn continues_with_instagram(address: Seq<char>, stderr: Seq<char>) -> bool {
    no_video_format(stderr) && (instagram_shortcode(address) matches Ok(code) && code is Some)
}

/// Whether a failed download goes on with the images of an Instagram post.
pub fn should_continue_with_instagram_embed_fallback(normalized: &str, stderr: &str) -> (r: bool)
    ensures
        r == continues_with_instagram(normalized@, stderr@),
{
    should_retry_without_video_format(stderr) && match instagram_shortcode_from_url(normalized) {
        Ok(Some(_)) => true,
        _ => false,
    }
}

/// Whether a URL is that of an image that Instagram serves in full.
pub open spec fn instagram_image(url: UrlView) -> bool {
    &&& url.host matches Some(h) && (has_suffix(h, "cdninstagram.com"@) || has_suffix(
        h,
        "fbcdn.net"@,
    ))
    &&& has(url.path, "/v/t51."@)
}

/// Whether a URL is that of an image that Instagram serves in full.
pub fn is_instagram_image(url: &UrlParts) -> (r: bool)
    ensures
        r == instagram_image(url@),
{
    match &url.host {
        Some(h) => {
            let host = chars_of(h.as_str());
            let path = chars_of(url.path.as_str());
            (ends_with(host.as_slice(), "cdninstagram.com") || ends_with(
                host.as_slice(),
                "fbcdn.net",
            )) && contains(path.as_slice(), "/v/t51.")
        },
        None => false,
    }
}

/// Whether an address is that of an image that Instagram serves in full.
pub open spec fn instagram_media_image(address: Seq<char>) -> bool {
    url_read(address) matches Ok(url) && instagram_image(url)
}

/// Whether an address is that of an image that Instagram serves in full.
pub fn is_instagram_media_image_url(url: &str) -> (r: bool)
    ensures
        r == instagram_media_image(url@),
{
    match parse_url(url) {
        Ok(parts) => is_instagram_image(&parts),
        Err(_) => false,
    }
}

// ---------------------------------------------------------------------------
// Twitter
// ---------------------------------------------------------------------------

/// The first status id among the segments from position `i` on: digits behind `status` or
/// `statuses`.
pub open spec fn status_from(segs: Seq<Seq<char>>, i: int) -> Option<Seq<char>>
    decreases segs.len() - i,
{
    if i < 0 || i + 1 >= segs.len() {
        None
    } else if (segs[i] == "status"@ || segs[i] == "statuses"@) && segs[i + 1].len() > 0
        && all_digits(segs[i + 1]) {
        Some(segs[i + 1])
    } else {
        status_from(segs, i + 1)
    }
}

/// The id of the status that a URL points to.
pub open spec fn status_id(url: UrlView) -> Option<Seq<char>> {
    match lower_host(url) {
        Some(h) if twitter_host(h) => status_from(segments(url.path), 0),
        _ => None,
    }
}

/// The id of the status that a URL points to.
pub fn status_id_of(url: &UrlParts) -> (r: Option<String>)
    ensures
        some_string(r) == status_id(url@),
{
    match host_of(url) {
        Some(h) => {
            if !is_twitter_host(h.as_slice()) {
                return None;
            }
        },
        None => {
            return None;
        },
    }
    let segs = path_segments(url.path.as_str());
    if segs.len() < 2 {
        return None;
    }
    let ghost all = segments(url@.path);
    let mut i: usize = 0;
    while i < segs.len() - 1
        invariant
            i + 1 <= segs.len(),
            all == views(segs@),
            status_id(url@) == status_from(all, i as int),
        decreases segs.len() - i,
    {
        assert(all[i as int] == segs@[i as int]@);
        assert(all[i + 1] == segs@[i + 1]@);
        if (is_text(segs[i].as_slice(), "status") || is_text(segs[i].as_slice(), "statuses"))
            && segs[i + 1].len() > 0 && are_digits(segs[i + 1].as_slice()) {
            return Some(text_of(segs[i + 1].as_slice()));
        }
        i += 1;
    }
    None
}

/// The id of the status that an address points to, if it points to one.
pub open spec fn twitter_status_id(address: Seq<char>) -> Result<Option<Seq<char>>, Seq<char>> {
    match url_read(address) {
        Ok(url) => Ok(status_id(url)),
        Err(m) => Err(m),
    }
}

/// The id of the status that an address points to, if it points to one.
pub fn twitter_status_id_from_url(normalized: &str) -> (r: Result<Option<String>, String>)
    ensures
        found_result(r) == twitter_status_id(normalized@),
{
    match parse_url(normalized) {
        Ok(url) => Ok(status_id_of(&url)),
        Err(m) => Err(m),
    }
}

/// Whether a failed download goes on with the images of a Twitter post.
pub open spec fn continues_with_twitter(address: Seq<char>, stderr: Seq<char>) -> bool {
    has(stderr, "No video could be found in this tweet"@) && (twitter_status_id(
        address,
    ) matches Ok(id) && id is Some)
}

/// Whether a failed download goes on with the images of a Twitter post.
pub fn should_continue_with_twitter_image_fallback(normalized: &str, stderr: &str) -> (r: bool)
    ensures
        r == continues_with_twitter(normalized@, stderr@),
{
    let cs = chars_of(stderr);
    contains(cs.as_slice(), "No video could be found in this tweet")
        && match twitter_status_id_from_url(normalized) {
        Ok(Some(_)) => true,
        _ => false,
    }
}

/// The image format that an extension stands for.
pub open spec fn image_format(extension: Seq<char>) -> Option<Seq<char>> {
    if extension == "jpg"@ || extension == "jpeg"@ {
        Some("jpg"@)
    } else if extension == "png"@ {
        Some("png"@)
    } else if extension == "webp"@ {
        Some("webp"@)
    } else {
        None
    }
}

/// The image format that an extension stands for.
fn format_of_extension(extension: &[char]) -> (r: Option<&'static str>)
    ensures
        some_text(r) == image_format(extension@),
{
    if is_text(extension, "jpg") || is_text(extension, "jpeg") {
        Some("jpg")
    } else if is_text(extension, "png") {
        Some("png")
    } else if is_text(extension, "webp") {
        Some("webp")
    } else {
        None
    }
}

/// The image format that a path names.
pub open spec fn path_format(path: Seq<char>) -> Option<Seq<char>> {
    match path_suffix(path) {
        Some(e) => image_format(e),
        None => None,
    }
}

/// The image format that a path names.
fn format_of_path(path: &str) -> (r: Option<&'static str>)
    ensures
        some_text(r) == path_format(path@),
{
    match suffix_of_path(path) {
        Some(e) => format_of_extension(e.as_slice()),
        None => None,
    }
}

/// The URL of a Twitter image in its original size: the query asks for the format that the path
/// names and for the original.
pub open spec fn original_image(url: UrlView) -> Option<Seq<char>> {
    if url.host == Some("pbs.twimg.com"@) && has_prefix(url.path, "/media/"@) {
        match path_format(url.path) {
            Some(f) => Some(
                url.head + "?format="@ + f + "&name=orig"@ + marked('#', url.fragment),
            ),
            None => None,
        }
    } else {
        None
    }
}

/// The URL of a Twitter image in its original size.
pub fn original_image_of(url: &UrlParts) -> (r: Option<String>)
    ensures
        some_string(r) == original_image(url@),
{
    match &url.host {
        Some(h) => {
            let host = chars_of(h.as_str());
            if !is_text(host.as_slice(), "pbs.twimg.com") {
                return None;
            }
        },
        None => {
            return None;
        },
    }
    let path = chars_of(url.path.as_str());
    if !starts_with(path.as_slice(), "/media/") {
        return None;
    }
    match format_of_path(url.path.as_str()) {
        Some(format) => {
            let mut out = url.head.clone();
            let pairs: [(&str, &str); 2] = [("format", format), ("name", "orig")];
            let query = form_query(&pairs);
            out.push('?');
            out.append(query.as_str());
            if let Some(f) = &url.fragment {
                out.push('#');
                out.append(f.as_str());
            }
            proof {
                lemma_original_query(format@);
                assert(pair_texts(pairs@) == seq![("format"@, format@), ("name"@, "orig"@)]);
                assert(out@ == url@.head + (seq!['?'] + query@) + marked('#', url@.fragment));
                assert(out@ == url@.head + "?format="@ + format@ + "&name=orig"@ + marked(
                    '#',
                    url@.fragment,
                ));
            }
            Some(out)
        },
        None => None,
    }
}

/// The address of a Twitter image in its original size.
pub open spec fn twitter_original(address: Seq<char>) -> Option<Seq<char>> {
    match url_read(address) {
        Ok(url) => original_image(url),
        Err(_) => None,
    }
}

/// The address of a Twitter image in its original size.
pub fn twitter_original_image_url(media_url: &str) -> (r: Option<String>)
    ensures
        some_string(r) == twitter_original(media_url@),
{
    match parse_url(media_url) {
        Ok(url) => original_image_of(&url),
        Err(_) => None,
    }
}

/// The extension that a downloaded image gets.
pub open spec fn image_extension(address: Seq<char>) -> Seq<char> {
    match url_read(address) {
        Ok(url) => extension_for(url.path),
        Err(_) => "jpg"@,
    }
}

/// The extension for an image with a path: that of the format it names, else that of a JPEG.
pub open spec fn extension_for(path: Seq<char>) -> Seq<char> {
    match path_format(path) {
        Some(f) => f,
        None => "jpg"@,
    }
}

/// The extension for an image with a path.
pub fn image_extension_for(path: &str) -> (r: &'static str)
    ensures
        r@ == extension_for(path@),
{
    match format_of_path(path) {
        Some(f) => f,
        None => "jpg",
    }
}

/// The extension that a downloaded image gets.
pub fn image_extension_from_url(image_url: &str) -> (r: &'static str)
    ensures
        r@ == image_extension(image_url@),
{
    match parse_url(image_url) {
        Ok(url) => image_extension_for(url.path.as_str()),
        Err(_) => "jpg",
    }
}

// ---------------------------------------------------------------------------
// Bluesky
// ---------------------------------------------------------------------------

/// What a Bluesky address names: the handle of the author and the key of the post.
#[derive(Debug, PartialEq, Eq)]
pub struct BlueskyPostRef {
    pub handle: String,
    pub rkey: String,
}

/// The handle and the key that a reference holds.
pub open spec fn ref_view(r: Option<BlueskyPostRef>) -> Option<(Seq<char>, Seq<char>)> {
    match r {
        Some(p) => Some((p.handle@, p.rkey@)),
        None => None,
    }
}

/// The post that the segments of a path name.
pub open spec fn post_in(segs: Seq<Seq<char>>) -> Option<(Seq<char>, Seq<char>)> {
    if segs.len() >= 4 && segs[0] == "profile"@ && segs[2] == "post"@ && segs[1].len() > 0
        && segs[3].len() > 0 {
        Some((segs[1], segs[3]))
    } else {
        None
    }
}

/// The Bluesky post that a URL points to.
pub open spec fn post_ref(url: UrlView) -> Option<(Seq<char>, Seq<char>)> {
    match lower_host(url) {
        Some(h) if h == "bsky.app"@ || h == "www.bsky.app"@ => post_in(segments(url.path)),
        _ => None,
    }
}

/// The Bluesky post that a URL points to.
pub fn post_ref_of(url: &UrlParts) -> (r: Option<BlueskyPostRef>)
    ensures
        ref_view(r) == post_ref(url@),
{
    match host_of(url) {
        Some(h) => {
            if !(is_text(h.as_slice(), "bsky.app") || is_text(h.as_slice(), "www.bsky.app")) {
                return None;
            }
        },
        None => {
            return None;
        },
    }
    let segs = path_segments(url.path.as_str());
    assert forall|i: int| 0 <= i < segs.len() implies segments(url@.path)[i]
        == #[trigger] segs@[i]@ by {
        assert(views(segs@)[i] == segs@[i]@);
    }
    if segs.len() >= 4 && is_text(segs[0].as_slice(), "profile") && is_text(
        segs[2].as_slice(),
        "post",
    ) && segs[1].len() > 0 && segs[3].len() > 0 {
        Some(
            BlueskyPostRef {
                handle: text_of(segs[1].as_slice()),
                rkey: text_of(segs[3].as_slice()),
            },
        )
    } else {
        None
    }
}

/// The Bluesky post that an address points to, if it points to one.
pub open spec fn bluesky_post(address: Seq<char>) -> Result<
    Option<(Seq<char>, Seq<char>)>,
    Seq<char>,
> {
    match url_read(address) {
        Ok(url) => Ok(post_ref(url)),
        Err(m) => Err(m),
    }
}

/// The Bluesky post that an address points to, if it points to one.
pub fn bluesky_post_ref_from_url(normalized: &str) -> (r: Result<Option<BlueskyPostRef>, String>)
    ensures
        match r {
            Ok(p) => bluesky_post(normalized@) == Ok::<_, Seq<char>>(ref_view(p)),
            Err(m) => bluesky_post(normalized@) == Err::<
                Option<(Seq<char>, Seq<char>)>,
                Seq<char>,
            >(m@),
        },
{
    match parse_url(normalized) {
        Ok(url) => Ok(post_ref_of(&url)),
        Err(m) => Err(m),
    }
}

/// Whether a failed download goes on with the images of a Bluesky post.
pub open spec fn continues_with_bluesky(address: Seq<char>, stderr: Seq<char>) -> bool {
    has(stderr, "No video could be found in this post"@) && (bluesky_post(address) matches Ok(p)
        && p is Some)
}

/// Whether a failed download goes on with the images of a Bluesky post.
pub fn should_continue_with_bluesky_image_fallback(normalized: &str, stderr: &str) -> (r: bool)
    ensures
        r == continues_with_bluesky(normalized@, stderr@),
{
    let cs = chars_of(stderr);
    contains(cs.as_slice(), "No video could be found in this post")
        && match bluesky_post_ref_from_url(normalized) {
        Ok(Some(_)) => true,
        _ => false,
    }
}

/// Whether a URL is that of an image that Bluesky serves in full.
pub open spec fn bluesky_image(url: UrlView) -> bool {
    url.host == Some("cdn.bsky.app"@) && has_prefix(url.path, "/img/feed_fullsize/"@)
}

/// Whether a URL is that of an image that Bluesky serves in full.
pub fn is_bluesky_image(url: &UrlParts) -> (r: bool)
    ensures
        r == bluesky_image(url@),
{
    match &url.host {
        Some(h) => {
            let host = chars_of(h.as_str());
            let path = chars_of(url.path.as_str());
            is_text(host.as_slice(), "cdn.bsky.app") && starts_with(
                path.as_slice(),
                "/img/feed_fullsize/",
            )
        },
        None => false,
    }
}

/// Whether an address is that of an image that Bluesky serves in full.
pub open spec fn bluesky_image_address(address: Seq<char>) -> bool {
    url_read(address) matches Ok(url) && bluesky_image(url)
}

/// Whether an address is that of an image that Bluesky serves in full.
pub fn is_bluesky_image_url(url: &str) -> (r: bool)
    ensures
        r == bluesky_image_address(url@),
{
    match parse_url(url) {
        Ok(parts) => is_bluesky_image(&parts),
        Err(_) => false,
    }
}

// ---------------------------------------------------------------------------
// Choosing formats
// ---------------------------------------------------------------------------

/// Whether the host is one of YouTube's.
pub open spec fn youtube_host(host: Seq<char>) -> bool {
    host == "youtube.com"@ || host == "www.youtube.com"@ || host == "m.youtube.com"@ || host
        == "youtu.be"@
}

/// Whether the host is one of YouTube's.
pub fn is_youtube_host(host: &[char]) -> (r: bool)
    ensures
        r == youtube_host(host@),
{
    is_text(host, "youtube.com") || is_text(host, "www.youtube.com") || is_text(
        host,
        "m.youtube.com",
    ) || is_text(host, "youtu.be")
}

/// How the formats of a URL are sorted: by resolution and then codec on Instagram and YouTube.
pub open spec fn format_sort(url: UrlView) -> Option<Seq<char>> {
    match lower_host(url) {
        Some(h) if instagram_host(h) || youtube_host(h) => Some("res,vcodec:h265:h264"@),
        _ => None,
    }
}

/// How the formats of a URL are sorted.
pub fn format_sort_of(url: &UrlParts) -> (r: Option<&'static str>)
    ensures
        some_text(r) == format_sort(url@),
{
    match host_of(url) {
        Some(h) => if is_instagram_host(h.as_slice()) || is_youtube_host(h.as_slice()) {
            Some("res,vcodec:h265:h264")
        } else {
            None
        },
        None => None,
    }
}

/// How the formats at an address are sorted.
pub open spec fn sort_for(address: Seq<char>) -> Option<Seq<char>> {
    match url_read(address) {
        Ok(url) => format_sort(url),
        Err(_) => None,
    }
}

/// How the formats at an address are sorted.
pub fn yt_dlp_format_sort(normalized: &str) -> (r: Option<&'static str>)
    ensures
        some_text(r) == sort_for(normalized@),
{
    match parse_url(normalized) {
        Ok(url) => format_sort_of(&url),
        Err(_) => None,
    }
}

// ---------------------------------------------------------------------------
// Queries
// ---------------------------------------------------------------------------

/// The digit of a number below sixteen.
pub open spec fn hex_digit(n: u8) -> char {
    if n < 10 {
        (('0' as u8) + n) as char
    } else {
        (('A' as u8) + n - 10) as char
    }
}

/// Whether a byte stands for itself in a form.
pub open spec fn plain_byte(b: u8) -> bool {
    b == 0x2a || b == 0x2d || b == 0x2e || b == 0x5f || 0x30 <= b <= 0x39 || 0x41 <= b <= 0x5a
        || 0x61 <= b <= 0x7a
}

/// How a byte is written in a form: itself, a plus sign for a space, or its hexadecimal code.
pub open spec fn form_byte(b: u8) -> Seq<char> {
    if plain_byte(b) {
        seq![b as char]
    } else if b == 0x20 {
        seq!['+']
    } else {
        seq!['%', hex_digit(b / 16), hex_digit(b % 16)]
    }
}

/// How bytes are written in a form.
pub open spec fn form_bytes(bytes: Seq<u8>) -> Seq<char>
    decreases bytes.len(),
{
    if bytes.len() == 0 {
        Seq::empty()
    } else {
        form_bytes(bytes.drop_last()) + form_byte(bytes.last())
    }
}

/// How a text is written in a form.
pub open spec fn form_text(text: Seq<char>) -> Seq<char> {
    form_bytes(encode_utf8(text))
}

/// Calls `url::form_urlencoded::byte_serialize` on the bytes of a text: claims that each byte
/// comes out as `form_byte` says.
#[verifier::external_body]
fn form_encoded(text: &str) -> (r: String)
    ensures
        r@ == form_text(text@),
{
    url::form_urlencoded::byte_serialize(text.as_bytes()).collect()
}

/// The names and values as texts.
pub open spec fn pair_texts(pairs: Seq<(&str, &str)>) -> Seq<(Seq<char>, Seq<char>)> {
    pairs.map_values(|p: (&str, &str)| (p.0@, p.1@))
}

/// A query: the names and values written as in a form.
pub open spec fn query_text(pairs: Seq<(Seq<char>, Seq<char>)>) -> Seq<char>
    decreases pairs.len(),
{
    if pairs.len() == 0 {
        Seq::empty()
    } else {
        let last = form_text(pairs.last().0) + seq!['='] + form_text(pairs.last().1);
        if pairs.len() == 1 {
            last
        } else {
            query_text(pairs.drop_last()) + seq!['&'] + last
        }
    }
}

/// Writes a query.
pub fn form_query(pairs: &[(&str, &str)]) -> (r: String)
    ensures
        r@ == query_text(pair_texts(pairs@)),
{
    let ghost all = pair_texts(pairs@);
    let mut out = String::new();
    let mut i: usize = 0;
    while i < pairs.len()
        invariant
            i <= pairs.len(),
            all == pair_texts(pairs@),
            out@ == query_text(all.take(i as int)),
        decreases pairs.len() - i,
    {
        assert(all.take(i + 1).drop_last() == all.take(i as int));
        assert(all.take(i + 1).last() == all[i as int]);
        let ghost before = out@;
        if i > 0 {
            out.push('&');
        }
        let (name, value) = pairs[i];
        let n = form_encoded(name);
        let v = form_encoded(value);
        out.append(n.as_str());
        out.push('=');
        out.append(v.as_str());
        let ghost last = form_text(name@) + seq!['='] + form_text(value@);
        assert(out@ == if i == 0 {
            last
        } else {
            before + seq!['&'] + last
        });
        i += 1;
    }
    assert(all.take(i as int) == all);
    out
}

/// Plain ASCII text stands for itself in a form.
proof fn lemma_form_plain(text: Seq<char>)
    requires
        forall|i: int| 0 <= i < text.len() ==> 'a' <= #[trigger] text[i] <= 'z',
    ensures
        form_text(text) == text,
{
    assert(vstd::utf8::is_ascii_chars(text));
    vstd::utf8::is_ascii_chars_encode_utf8(text);
    lemma_form_bytes_plain(encode_utf8(text), text);
}

proof fn lemma_form_bytes_plain(bytes: Seq<u8>, text: Seq<char>)
    requires
        bytes.len() == text.len(),
        forall|i: int|
            0 <= i < text.len() ==> 'a' <= #[trigger] text[i] <= 'z' && bytes[i] == text[i] as u8,
    ensures
        form_bytes(bytes) == text,
    decreases bytes.len(),
{
    if bytes.len() > 0 {
        lemma_form_bytes_plain(bytes.drop_last(), text.drop_last());
        let c = text.last();
        assert(c == text[text.len() - 1]);
        assert((c as u8) as char == c);
        assert(form_byte(bytes.last()) == seq![c]);
        assert(form_bytes(bytes) == text);
    }
}

proof fn lemma_original_query(format: Seq<char>)
    requires
        format == "jpg"@ || format == "png"@ || format == "webp"@,
    ensures
        seq!['?'] + query_text(seq![("format"@, format), ("name"@, "orig"@)]) == "?format="@ + format
            + "&name=orig"@,
{
    reveal_strlit("jpg");
    reveal_strlit("png");
    reveal_strlit("webp");
    reveal_strlit("format");
    reveal_strlit("name");
    reveal_strlit("orig");
    reveal_strlit("?format=");
    reveal_strlit("&name=orig");
    lemma_form_plain("format"@);
    lemma_form_plain(format);
    lemma_form_plain("name"@);
    lemma_form_plain("orig"@);
    let pairs = seq![("format"@, format), ("name"@, "orig"@)];
    reveal_with_fuel(query_text, 2);
    assert(pairs.drop_last() == seq![("format"@, format)]);
    assert(seq!['?'] + query_text(pairs) == "?format="@ + format + "&name=orig"@);
}

} // verus!
