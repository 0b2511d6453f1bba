//! What is shown of a download: the platform, the source, the title and the date, as the
//! downloader's notes about it say.
use vstd::prelude::*;
use vstd::slice::slice_subrange;

use crate::json::{some_string, some_text, Json, JsonTree};
use crate::posts::{nonblank, nonblank_text};
use crate::text::{
    all_digits, are_digits, chars_of, contains, ends_with, find, first_piece, has, has_prefix,
    has_suffix, is_text, join, join_chars, lemma_find_from, lemma_next_separator, lower, lowercase,
    lowercase_chars, matches_at, next_separator, pieces, pieces_from, position_of, push_chars,
    same_ignoring_case, same_text, separator_from, split, starts_with, text_of, trim, trim_chars,
    views,
};

verus! {

// ---------------------------------------------------------------------------
// Fields
// ---------------------------------------------------------------------------

/// The keys as texts.
pub open spec fn key_texts(keys: Seq<&str>) -> Seq<Seq<char>> {
    keys.map_values(|k: &str| k@)
}

/// The first text that stands at one of the keys from position `i` on.
pub open spec fn first_text(value: JsonTree, keys: Seq<Seq<char>>, i: int) -> Option<Seq<char>>
    decreases keys.len() - i,
{
    if i < 0 || i >= keys.len() {
        None
    } else {
        match value.text_at(keys[i]) {
            Some(t) => Some(t),
            None => first_text(value, keys, i + 1),
        }
    }
}

/// The first text that stands at one of the keys, trimmed, unless it is blank.
pub open spec fn string_field(value: JsonTree, keys: Seq<Seq<char>>) -> Option<Seq<char>> {
    nonblank(first_text(value, keys, 0))
}

/// The first text that stands at one of the keys, trimmed, unless it is blank.
pub fn read_string_field(value: &Json, keys: &[&str]) -> (r: Option<String>)
    ensures
        some_string(r) == string_field(value@, key_texts(keys@)),
{
    let ghost all = key_texts(keys@);
    let mut i: usize = 0;
    while i < keys.len()
        invariant
            i <= keys.len(),
            all == key_texts(keys@),
            first_text(value@, all, 0) == first_text(value@, all, i as int),
        decreases keys.len() - i,
    {
        assert(all[i as int] == keys@[i as int]@);
        match value.text_at(keys[i]) {
            Some(t) => {
                return nonblank_text(Some(t));
            },
            None => {},
        }
        i += 1;
    }
    None
}

// ---------------------------------------------------------------------------
// The platform
// ---------------------------------------------------------------------------

/// What `char::to_uppercase` makes of a character beyond ASCII.
pub uninterp spec fn uppercase_of(c: char) -> Seq<char>;

/// What `char::to_lowercase` makes of a character beyond ASCII.
pub uninterp spec fn lowercase_of(c: char) -> Seq<char>;

/// Whether a character is an ASCII character.
pub open spec fn ascii(c: char) -> bool {
    '\0' <= c <= '\x7f'
}

/// The capital of a small ASCII letter; another character stays.
pub open spec fn capital(c: char) -> char {
    if 'a' <= c <= 'z' {
        ((c as u32) - 32) as char
    } else {
        c
    }
}

/// A character in upper case.
pub open spec fn upper_text(c: char) -> Seq<char> {
    if ascii(c) {
        seq![capital(c)]
    } else {
        uppercase_of(c)
    }
}

/// A character in lower case.
pub open spec fn lower_text(c: char) -> Seq<char> {
    if ascii(c) {
        seq![lower(c)]
    } else {
        lowercase_of(c)
    }
}

/// Calls `char::to_uppercase`: a small ASCII letter becomes the capital, and the other ASCII
/// characters stay. Beyond ASCII the result depends on the character alone, and is named
/// `uppercase_of`.
#[verifier::external_body]
fn to_upper_text(c: char) -> (r: String)
    ensures
        ascii(c) ==> r@ == seq![capital(c)],
        !ascii(c) ==> r@ == uppercase_of(c),
{
    c.to_uppercase().collect()
}

/// Calls `char::to_lowercase`: a capital ASCII letter becomes the small one, and the other ASCII
/// characters stay. Beyond ASCII the result depends on the character alone, and is named
/// `lowercase_of`.
#[verifier::external_body]
fn to_lower_text(c: char) -> (r: String)
    ensures
        ascii(c) ==> r@ == seq![lower(c)],
        !ascii(c) ==> r@ == lowercase_of(c),
{
    c.to_lowercase().collect()
}

/// The characters in lower case, one after the other.
pub open spec fn all_lowercase(s: Seq<char>) -> Seq<char>
    decreases s.len(),
{
    if s.len() == 0 {
        Seq::empty()
    } else {
        all_lowercase(s.drop_last()) + lower_text(s.last())
    }
}

/// A word with its first character in upper case and the others in lower case.
pub open spec fn title_case(s: Seq<char>) -> Seq<char> {
    if s.len() == 0 {
        Seq::empty()
    } else {
        upper_text(s[0]) + all_lowercase(s.skip(1))
    }
}

/// Whether all characters are ASCII characters.
pub open spec fn all_ascii(s: Seq<char>) -> bool {
    forall|i: int| 0 <= i < s.len() ==> ascii(#[trigger] s[i])
}

/// A word with its first letter as a capital and the others small, by ASCII alone.
pub open spec fn capitalized(s: Seq<char>) -> Seq<char> {
    if s.len() == 0 {
        Seq::empty()
    } else {
        seq![capital(s[0])] + lowercase(s.skip(1))
    }
}

proof fn lemma_all_lowercase_ascii(s: Seq<char>)
    requires
        all_ascii(s),
    ensures
        all_lowercase(s) == lowercase(s),
    decreases s.len(),
{
    if s.len() > 0 {
        assert(all_ascii(s.drop_last())) by {
            assert forall|i: int| 0 <= i < s.drop_last().len() implies ascii(
                #[trigger] s.drop_last()[i],
            ) by {
                assert(s.drop_last()[i] == s[i]);
            }
        }
        lemma_all_lowercase_ascii(s.drop_last());
        assert(ascii(s[s.len() - 1]));
        assert(lowercase(s) == lowercase(s.drop_last()) + seq![lower(s.last())]);
    } else {
        assert(lowercase(s) == Seq::<char>::empty());
    }
}

/// In a word of ASCII characters the first letter becomes a capital and the others small ones, and
/// nothing else changes.
pub proof fn ascii_words_are_capitalized(s: Seq<char>)
    requires
        all_ascii(s),
    ensures
        title_case(s) == capitalized(s),
{
    if s.len() > 0 {
        assert(all_ascii(s.skip(1))) by {
            assert forall|i: int| 0 <= i < s.skip(1).len() implies ascii(
                #[trigger] s.skip(1)[i],
            ) by {
                assert(s.skip(1)[i] == s[i + 1]);
            }
        }
        lemma_all_lowercase_ascii(s.skip(1));
        assert(ascii(s[0]));
    }
}

/// A word with its first character in upper case and the others in lower case.
pub fn title_case_ascii(input: &[char]) -> (r: Vec<char>)
    ensures
        r@ == title_case(input@),
        all_ascii(input@) ==> r@ == capitalized(input@),
{
    proof {
        if all_ascii(input@) {
            ascii_words_are_capitalized(input@);
        }
    }
    let mut out: Vec<char> = Vec::new();
    if input.len() == 0 {
        return out;
    }
    let first = to_upper_text(input[0]);
    let first_cs = chars_of(first.as_str());
    push_chars(&mut out, first_cs.as_slice());
    let ghost head = out@;
    let ghost rest = input@.skip(1);
    let mut i: usize = 1;
    assert(rest.take(0) == Seq::<char>::empty());
    while i < input.len()
        invariant
            1 <= i <= input.len(),
            rest == input@.skip(1),
            out@ == head + all_lowercase(rest.take(i - 1)),
        decreases input.len() - i,
    {
        let ghost done = rest.take(i - 1);
        assert(rest.take(i as int).drop_last() == done);
        assert(rest.take(i as int).last() == input@[i as int]);
        let next = to_lower_text(input[i]);
        let next_cs = chars_of(next.as_str());
        push_chars(&mut out, next_cs.as_slice());
        assert(out@ == head + all_lowercase(rest.take(i as int)));
        i += 1;
    }
    assert(rest.take(i - 1) == rest);
    out
}

/// The parts that are not empty, each in title case.
pub open spec fn titled(parts: Seq<Seq<char>>) -> Seq<Seq<char>>
    decreases parts.len(),
{
    if parts.len() == 0 {
        Seq::empty()
    } else if parts.last().len() == 0 {
        titled(parts.drop_last())
    } else {
        titled(parts.drop_last()).push(title_case(parts.last()))
    }
}

/// The parts that are not empty, each in title case.
fn titled_parts(parts: &Vec<Vec<char>>) -> (r: Vec<Vec<char>>)
    ensures
        views(r@) == titled(views(parts@)),
{
    let ghost all = views(parts@);
    let mut out: Vec<Vec<char>> = Vec::new();
    assert(views(out@) == Seq::<Seq<char>>::empty());
    let mut i: usize = 0;
    while i < parts.len()
        invariant
            i <= parts.len(),
            all == views(parts@),
            views(out@) == titled(all.take(i as int)),
        decreases parts.len() - i,
    {
        assert(all.take(i + 1).drop_last() == all.take(i as int));
        assert(all.take(i + 1).last() == parts@[i as int]@);
        if parts[i].len() > 0 {
            let ghost before = views(out@);
            let word = title_case_ascii(parts[i].as_slice());
            out.push(word);
            assert(views(out@) == before.push(word@));
        }
        i += 1;
    }
    assert(all.take(i as int) == all);
    out
}

/// The parts that are not empty, each with its first letter as a capital and the others small.
pub open spec fn capitalized_parts(parts: Seq<Seq<char>>) -> Seq<Seq<char>>
    decreases parts.len(),
{
    if parts.len() == 0 {
        Seq::empty()
    } else if parts.last().len() == 0 {
        capitalized_parts(parts.drop_last())
    } else {
        capitalized_parts(parts.drop_last()).push(capitalized(parts.last()))
    }
}

proof fn lemma_titled_ascii(parts: Seq<Seq<char>>)
    requires
        forall|i: int| 0 <= i < parts.len() ==> all_ascii(#[trigger] parts[i]),
    ensures
        titled(parts) == capitalized_parts(parts),
    decreases parts.len(),
{
    if parts.len() > 0 {
        let shorter = parts.drop_last();
        assert forall|i: int| 0 <= i < shorter.len() implies all_ascii(#[trigger] shorter[i]) by {
            assert(shorter[i] == parts[i]);
        }
        lemma_titled_ascii(shorter);
        assert(all_ascii(parts[parts.len() - 1]));
        ascii_words_are_capitalized(parts.last());
    }
}

proof fn lemma_pieces_ascii(s: Seq<char>, seps: Seq<char>, i: int)
    requires
        0 <= i <= s.len(),
        all_ascii(s),
    ensures
        forall|k: int|
            0 <= k < pieces_from(s, seps, i).len() ==> all_ascii(
                #[trigger] pieces_from(s, seps, i)[k],
            ),
    decreases s.len() - i,
{
    lemma_next_separator(s, seps, i);
    let end = next_separator(s, seps, i);
    let all = pieces_from(s, seps, i);
    if end < s.len() {
        lemma_pieces_ascii(s, seps, end + 1);
    }
    assert forall|k: int| 0 <= k < all.len() implies all_ascii(#[trigger] all[k]) by {
        if k == 0 {
            assert forall|b: int| 0 <= b < all[0].len() implies ascii(#[trigger] all[0][b]) by {
                assert(all[0][b] == s[i + b]);
            }
        } else {
            assert(all[k] == pieces_from(s, seps, end + 1)[k - 1]);
        }
    }
}

/// The words of the first part of what a platform is called.
pub open spec fn platform_words(lower: Seq<char>) -> Seq<Seq<char>> {
    pieces(first_piece(lower, seq!['.', ':']), seq!['_', '-', ' '])
}

/// The words with spaces between them, or that the platform is unknown where there are none.
pub open spec fn words_or_unknown(words: Seq<Seq<char>>) -> Seq<char> {
    let name = join(words, " "@);
    if name.len() == 0 {
        "Unknown"@
    } else {
        name
    }
}

/// The name of a platform that has no name of its own here: the words of the first part in title
/// case.
pub open spec fn other_platform(lower: Seq<char>) -> Seq<char> {
    words_or_unknown(titled(platform_words(lower)))
}

/// The name of a platform that has one of its own here.
pub open spec fn known_platform(lower: Seq<char>) -> Option<Seq<char>> {
    if has(lower, "youtube"@) {
        Some("YouTube"@)
    } else if has(lower, "instagram"@) {
        Some("Instagram"@)
    } else if has(lower, "tiktok"@) {
        Some("TikTok"@)
    } else if has(lower, "bluesky"@) || has(lower, "bsky"@) {
        Some("Bluesky"@)
    } else if has(lower, "twitter"@) || lower == "x"@ || has(lower, "x.com"@) {
        Some("X"@)
    } else if has(lower, "reddit"@) {
        Some("Reddit"@)
    } else {
        None
    }
}

/// The name of a platform.
pub open spec fn platform_called(raw: Seq<char>) -> Seq<char> {
    let lower = lowercase(trim(raw));
    match known_platform(lower) {
        Some(name) => name,
        None => other_platform(lower),
    }
}

/// A platform that has no name of its own here and is called in ASCII has the words of the first
/// part for its name, each with a capital and small letters behind it.
pub proof fn other_platforms_are_capitalized(raw: Seq<char>)
    requires
        known_platform(lowercase(trim(raw))) is None,
        all_ascii(trim(raw)),
    ensures
        platform_called(raw) == words_or_unknown(
            capitalized_parts(platform_words(lowercase(trim(raw)))),
        ),
{
    let lower = lowercase(trim(raw));
    let marks = seq!['.', ':'];
    let first = first_piece(lower, marks);
    lemma_next_separator(lower, marks, 0);
    assert forall|i: int| 0 <= i < first.len() implies ascii(#[trigger] first[i]) by {
        assert(first[i] == lower[i]);
        assert(ascii(trim(raw)[i]));
    }
    lemma_pieces_ascii(first, seq!['_', '-', ' '], 0);
    lemma_titled_ascii(platform_words(lower));
}

proof fn lemma_absent(s: Seq<char>, p: Seq<char>)
    requires
        p.len() > 0,
        forall|i: int| 0 <= i < s.len() ==> #[trigger] s[i] != p[0],
    ensures
        !(has(s, p)),
{
    lemma_find_from(s, p, 0);
    if has(s, p) {
        let k = find(s, p)->0;
        assert(matches_at(s, p, k));
        assert(s.subrange(k, k + p.len())[0] == s[k]);
    }
}

proof fn lemma_unknown_platform()
    ensures
        platform_called("unknown"@) == "Unknown"@,
{
    reveal_strlit("unknown");
    reveal_strlit("Unknown");
    reveal_strlit("youtube");
    reveal_strlit("instagram");
    reveal_strlit("tiktok");
    reveal_strlit("bluesky");
    reveal_strlit("bsky");
    reveal_strlit("twitter");
    reveal_strlit("x");
    reveal_strlit("x.com");
    reveal_strlit("reddit");
    let s = "unknown"@;
    assert(trim(s) == s);
    assert(lowercase(s) == s);
    lemma_absent(s, "youtube"@);
    lemma_absent(s, "instagram"@);
    lemma_absent(s, "tiktok"@);
    lemma_absent(s, "bluesky"@);
    lemma_absent(s, "bsky"@);
    lemma_absent(s, "twitter"@);
    lemma_absent(s, "x.com"@);
    lemma_absent(s, "reddit"@);
    other_platforms_are_capitalized(s);
    let marks = seq!['.', ':'];
    let gaps = seq!['_', '-', ' '];
    lemma_next_separator(s, marks, 0);
    lemma_next_separator(s, gaps, 0);
    assert(next_separator(s, marks, 0) == s.len());
    assert(next_separator(s, gaps, 0) == s.len());
    assert(first_piece(s, marks) == s);
    assert(platform_words(s) == seq![s]);
    reveal_with_fuel(capitalized_parts, 2);
    reveal_with_fuel(join, 2);
    assert(seq![s].drop_last() == Seq::<Seq<char>>::empty());
    assert(capitalized(s) == "Unknown"@);
    assert(capitalized_parts(seq![s]) == seq!["Unknown"@]);
    assert(join(seq!["Unknown"@], " "@) == "Unknown"@);
}

/// The name of a platform.
pub fn normalize_platform_name(raw: &str) -> (r: String)
    ensures
        r@ == platform_called(raw@),
        known_platform(lowercase(trim(raw@))) is None && all_ascii(trim(raw@)) ==> r@
            == words_or_unknown(capitalized_parts(platform_words(lowercase(trim(raw@))))),
{
    proof {
        if known_platform(lowercase(trim(raw@))) is None && all_ascii(trim(raw@)) {
            other_platforms_are_capitalized(raw@);
        }
    }
    let cs = chars_of(raw);
    let lower_cs = lowercase_chars(trim_chars(cs.as_slice()));
    let lower = lower_cs.as_slice();
    if contains(lower, "youtube") {
        return "YouTube".to_owned();
    }
    if contains(lower, "instagram") {
        return "Instagram".to_owned();
    }
    if contains(lower, "tiktok") {
        return "TikTok".to_owned();
    }
    if contains(lower, "bluesky") || contains(lower, "bsky") {
        return "Bluesky".to_owned();
    }
    if contains(lower, "twitter") || is_text(lower, "x") || contains(lower, "x.com") {
        return "X".to_owned();
    }
    if contains(lower, "reddit") {
        return "Reddit".to_owned();
    }
    let marks: [char; 2] = ['.', ':'];
    assert(marks@ == seq!['.', ':']);
    let end: usize = separator_from(lower, &marks, 0);
    let first = slice_subrange(lower, 0, end);
    assert(first@ == first_piece(lower@, marks@));
    let gaps: [char; 3] = ['_', '-', ' '];
    assert(gaps@ == seq!['_', '-', ' ']);
    let parts = split(first, &gaps);
    let words = titled_parts(&parts);
    let name = join_chars(&words, " ");
    if name.len() == 0 {
        "Unknown".to_owned()
    } else {
        text_of(name.as_slice())
    }
}

/// The keys that name the platform.
pub open spec fn platform_keys() -> Seq<Seq<char>> {
    seq!["extractor_key"@, "extractor"@, "webpage_url_domain"@]
}

/// The name of the platform of a download.
pub open spec fn platform_name(info: JsonTree) -> Seq<char> {
    match string_field(info, platform_keys()) {
        Some(raw) => platform_called(raw),
        None => "Unknown"@,
    }
}

/// The name of the platform of a download.
pub fn read_platform_name(value: &Json) -> (r: String)
    ensures
        r@ == platform_name(value@),
{
    let keys: [&str; 3] = ["extractor_key", "extractor", "webpage_url_domain"];
    assert(key_texts(keys@) == platform_keys());
    match read_string_field(value, &keys) {
        Some(raw) => normalize_platform_name(raw.as_str()),
        None => {
            proof {
                lemma_unknown_platform();
            }
            normalize_platform_name("unknown")
        },
    }
}

/// The keys that tell whether a download is from YouTube.
pub open spec fn source_keys() -> Seq<Seq<char>> {
    seq!["webpage_url_domain"@, "extractor_key"@, "extractor"@]
}

/// Whether a download is from YouTube.
pub open spec fn from_youtube(info: JsonTree) -> bool {
    string_field(info, source_keys()) matches Some(t) && has(lowercase(t), "youtube"@)
}

/// Whether a download is from YouTube.
pub fn is_youtube_source(value: &Json) -> (r: bool)
    ensures
        r == from_youtube(value@),
{
    let keys: [&str; 3] = ["webpage_url_domain", "extractor_key", "extractor"];
    assert(key_texts(keys@) == source_keys());
    match read_string_field(value, &keys) {
        Some(t) => {
            let cs = chars_of(t.as_str());
            let lower = lowercase_chars(cs.as_slice());
            contains(lower.as_slice(), "youtube")
        },
        None => false,
    }
}

// ---------------------------------------------------------------------------
// The source
// ---------------------------------------------------------------------------

/// A handle as it is shown: one that begins with an at sign and has something behind it.
pub open spec fn display_handle(input: Seq<char>) -> Option<Seq<char>> {
    let t = trim(input);
    if has_prefix(t, "@"@) && t.len() > 1 {
        Some(t)
    } else {
        None
    }
}

/// A handle as it is shown.
pub fn normalize_display_handle(input: &str) -> (r: Option<String>)
    ensures
        some_string(r) == display_handle(input@),
{
    let cs = chars_of(input);
    let t = trim_chars(cs.as_slice());
    if starts_with(t, "@") && t.len() > 1 {
        Some(text_of(t))
    } else {
        None
    }
}

/// The handle behind the first `/@` of an address.
pub open spec fn handle_in_address(input: Seq<char>) -> Option<Seq<char>> {
    match find(input, "/@"@) {
        Some(i) => {
            let handle = trim(first_piece(input.skip(i + 2), seq!['/', '?', '#']));
            if handle.len() == 0 {
                None
            } else {
                Some("@"@ + handle)
            }
        },
        None => None,
    }
}

/// The handle behind the first `/@` of an address.
pub fn extract_at_handle_from_url(input: &str) -> (r: Option<String>)
    ensures
        some_string(r) == handle_in_address(input@),
{
    let cs = chars_of(input);
    let len: usize = cs.len();
    match position_of(cs.as_slice(), "/@") {
        Some(i) => {
            proof {
                reveal_strlit("/@");
                lemma_find_from(cs@, "/@"@, 0);
                assert(matches_at(cs@, "/@"@, i as int));
            }
            let rest = slice_subrange(cs.as_slice(), i + 2, len);
            assert(rest@ == input@.skip(i + 2));
            let marks: [char; 3] = ['/', '?', '#'];
            assert(marks@ == seq!['/', '?', '#']);
            let end: usize = separator_from(rest, &marks, 0);
            let first = slice_subrange(rest, 0, end);
            assert(first@ == first_piece(rest@, marks@));
            let handle = trim_chars(first);
            if handle.len() == 0 {
                None
            } else {
                let mut out = "@".to_owned();
                let name = text_of(handle);
                out.append(name.as_str());
                Some(out)
            }
        },
        None => None,
    }
}

/// The handle in the addresses at the keys from position `i` on.
pub open spec fn handle_in_fields(info: JsonTree, keys: Seq<Seq<char>>, i: int) -> Option<
    Seq<char>,
>
    decreases keys.len() - i,
{
    if i < 0 || i >= keys.len() {
        None
    } else {
        let here = match info.text_at(keys[i]) {
            Some(address) => handle_in_address(address),
            None => None,
        };
        match here {
            Some(h) => Some(h),
            None => handle_in_fields(info, keys, i + 1),
        }
    }
}

/// The keys whose addresses may hold a handle.
pub open spec fn address_keys() -> Seq<Seq<char>> {
    seq!["uploader_url"@, "channel_url"@, "webpage_url"@]
}

/// The shown handle at a key.
pub open spec fn handle_field(info: JsonTree, key: Seq<char>) -> Option<Seq<char>> {
    match string_field(info, seq![key]) {
        Some(h) => display_handle(h),
        None => None,
    }
}

/// The handle of a YouTube source.
pub open spec fn youtube_handle(info: JsonTree) -> Option<Seq<char>> {
    match handle_field(info, "uploader_id"@) {
        Some(h) => Some(h),
        None => handle_in_fields(info, address_keys(), 0),
    }
}

/// The text at one key, trimmed, unless it is blank.
fn one_field(value: &Json, key: &str) -> (r: Option<String>)
    ensures
        some_string(r) == string_field(value@, seq![key@]),
{
    let keys: [&str; 1] = [key];
    assert(key_texts(keys@) == seq![key@]);
    read_string_field(value, &keys)
}

/// The handle of a YouTube source.
pub fn read_youtube_handle(value: &Json) -> (r: Option<String>)
    ensures
        some_string(r) == youtube_handle(value@),
{
    match one_field(value, "uploader_id") {
        Some(raw) => match normalize_display_handle(raw.as_str()) {
            Some(h) => {
                return Some(h);
            },
            None => {},
        },
        None => {},
    }
    let keys: [&str; 3] = ["uploader_url", "channel_url", "webpage_url"];
    assert(key_texts(keys@) == address_keys());
    let mut i: usize = 0;
    while i < 3
        invariant
            i <= 3,
            keys@.len() == 3,
            key_texts(keys@) == address_keys(),
            youtube_handle(value@) == handle_in_fields(value@, address_keys(), i as int),
        decreases 3 - i,
    {
        assert(address_keys()[i as int] == keys@[i as int]@) by {
            assert(key_texts(keys@)[i as int] == keys@[i as int]@);
        }
        match value.text_at(keys[i]) {
            Some(address) => match extract_at_handle_from_url(address) {
                Some(h) => {
                    return Some(h);
                },
                None => {},
            },
            None => {},
        }
        i += 1;
    }
    None
}

/// The handle of the source of a download.
pub open spec fn source_handle(info: JsonTree) -> Option<Seq<char>> {
    if from_youtube(info) {
        youtube_handle(info)
    } else {
        let raw = match string_field(info, seq!["uploader_id"@]) {
            Some(h) => Some(h),
            None => string_field(info, seq!["channel_id"@]),
        };
        match raw {
            Some(h) => display_handle(h),
            None => None,
        }
    }
}

/// The handle of the source of a download.
pub fn read_source_handle(value: &Json) -> (r: Option<String>)
    ensures
        some_string(r) == source_handle(value@),
{
    if is_youtube_source(value) {
        return read_youtube_handle(value);
    }
    let raw = match one_field(value, "uploader_id") {
        Some(h) => Some(h),
        None => one_field(value, "channel_id"),
    };
    match raw {
        Some(h) => normalize_display_handle(h.as_str()),
        None => None,
    }
}

/// The name of a source without the words that the platform X puts behind it.
pub open spec fn clean_name(platform: Seq<char>, name: Seq<char>) -> Seq<char> {
    let t = trim(name);
    let clean = trim(t.take(t.len() - " on X"@.len()));
    if platform == "X"@ && has_suffix(t, " on X"@) && clean.len() > 0 {
        clean
    } else {
        name
    }
}

/// The name of a source without the words that the platform X puts behind it.
pub fn clean_source_name_for_platform(platform_name: &str, source_name: String) -> (r: String)
    ensures
        r@ == clean_name(platform_name@, source_name@),
{
    if same_text(platform_name, "X") {
        let cs = chars_of(source_name.as_str());
        let t = trim_chars(cs.as_slice());
        if ends_with(t, " on X") {
            proof {
                reveal_strlit(" on X");
            }
            let front = slice_subrange(t, 0, t.len() - 5);
            assert(front@ == t@.take(t@.len() - " on X"@.len()));
            let clean = trim_chars(front);
            if clean.len() > 0 {
                return text_of(clean);
            }
        }
    }
    source_name
}

// ---------------------------------------------------------------------------
// The date
// ---------------------------------------------------------------------------

/// A date of eight digits with a separator between the year, the month and the day.
pub open spec fn compact_date(s: Seq<char>, separator: Seq<char>) -> Option<Seq<char>> {
    if s.len() == 8 && all_digits(s) {
        Some(
            s.subrange(0, 4) + separator + s.subrange(4, 6) + separator + s.subrange(6, 8),
        )
    } else {
        None
    }
}

/// A date of eight digits with a separator between the year, the month and the day.
pub fn separate_compact_date(input: &str, separator: &str) -> (r: Option<String>)
    ensures
        some_string(r) == compact_date(input@, separator@),
{
    let cs = chars_of(input);
    if cs.len() != 8 || !are_digits(cs.as_slice()) {
        return None;
    }
    let mut out = text_of(slice_subrange(cs.as_slice(), 0, 4));
    out.append(separator);
    let month = text_of(slice_subrange(cs.as_slice(), 4, 6));
    out.append(month.as_str());
    out.append(separator);
    let day = text_of(slice_subrange(cs.as_slice(), 6, 8));
    out.append(day.as_str());
    Some(out)
}

/// A date of eight digits with dots between the year, the month and the day.
pub fn format_compact_date(input: &str) -> (r: Option<String>)
    ensures
        some_string(r) == compact_date(input@, "."@),
{
    separate_compact_date(input, ".")
}

/// What `chrono` writes with a pattern for the time at a number of seconds since 1970, if that
/// time is in its range.
pub uninterp spec fn utc_date(seconds: i64, pattern: Seq<char>) -> Option<Seq<char>>;

/// Calls `chrono::DateTime::from_timestamp`, and `format` on what it gives. The result depends on
/// the arguments alone, and is named `utc_date`. The pattern is one that `format` knows.
#[verifier::external_body]
fn format_timestamp(seconds: i64, pattern: &str) -> (r: Option<String>)
    requires
        pattern@ == "%Y.%m.%d"@ || pattern@ == "%Y %m %d"@,
    ensures
        some_string(r) == utc_date(seconds, pattern@),
{
    chrono::DateTime::<chrono::Utc>::from_timestamp(seconds, 0).map(
        |time| time.format(pattern).to_string(),
    )
}

/// The date at a key.
pub open spec fn date_at(info: JsonTree, key: Seq<char>, separator: Seq<char>) -> Option<Seq<char>> {
    match info.text_at(key) {
        Some(t) => compact_date(t, separator),
        None => None,
    }
}

/// The date at a key.
fn date_at_key(value: &Json, key: &str, separator: &str) -> (r: Option<String>)
    ensures
        some_string(r) == date_at(value@, key@, separator@),
{
    match value.text_at(key) {
        Some(t) => separate_compact_date(t, separator),
        None => None,
    }
}

/// The date of a download: that of the upload, else that of the release, else that of the time.
pub open spec fn upload_date(info: JsonTree, separator: Seq<char>, pattern: Seq<char>) -> Option<
    Seq<char>,
> {
    match date_at(info, "upload_date"@, separator) {
        Some(d) => Some(d),
        None => match date_at(info, "release_date"@, separator) {
            Some(d) => Some(d),
            None => match info.get("timestamp"@) {
                Some(t) => match t.signed() {
                    Some(seconds) => utc_date(seconds, pattern),
                    None => None,
                },
                None => None,
            },
        },
    }
}

/// The date of a download, in a form.
pub(crate) fn upload_date_in(value: &Json, separator: &str, pattern: &str) -> (r: Option<String>)
    requires
        pattern@ == "%Y.%m.%d"@ || pattern@ == "%Y %m %d"@,
    ensures
        some_string(r) == upload_date(value@, separator@, pattern@),
{
    match date_at_key(value, "upload_date", separator) {
        Some(d) => Some(d),
        None => match date_at_key(value, "release_date", separator) {
            Some(d) => Some(d),
            None => match value.get("timestamp") {
                Some(t) => match t.as_i64() {
                    Some(seconds) => format_timestamp(seconds, pattern),
                    None => None,
                },
                None => None,
            },
        },
    }
}

/// The date of a download.
pub fn read_upload_date(value: &Json) -> (r: Option<String>)
    ensures
        some_string(r) == upload_date(value@, "."@, "%Y.%m.%d"@),
{
    upload_date_in(value, ".", "%Y.%m.%d")
}

// ---------------------------------------------------------------------------
// All of it
// ---------------------------------------------------------------------------

/// What is shown of a download, and what its files are named after.
#[derive(Debug, PartialEq, Eq)]
pub struct DeliveryFilenameMetadata {
    pub filename_username: String,
    pub platform_name: String,
    pub source_name: String,
    pub source_handle: Option<String>,
    pub date: String,
    pub title: String,
}

/// What is shown of a download, and what its files are named after.
#[verifier::ext_equal]
pub struct DeliveryView {
    pub filename_username: Seq<char>,
    pub platform_name: Seq<char>,
    pub source_name: Seq<char>,
    pub source_handle: Option<Seq<char>>,
    pub date: Seq<char>,
    pub title: Seq<char>,
}

impl View for DeliveryFilenameMetadata {
    type V = DeliveryView;

    open spec fn view(&self) -> DeliveryView {
        DeliveryView {
            filename_username: self.filename_username@,
            platform_name: self.platform_name@,
            source_name: self.source_name@,
            source_handle: some_string(self.source_handle),
            date: self.date@,
            title: self.title@,
        }
    }
}

/// The keys that name the source.
pub open spec fn name_keys() -> Seq<Seq<char>> {
    seq!["channel"@, "uploader"@, "creator"@, "artist"@]
}

/// The keys that name the user.
pub open spec fn user_keys() -> Seq<Seq<char>> {
    seq![
        "uploader"@,
        "channel"@,
        "creator"@,
        "artist"@,
        "uploader_id"@,
        "channel_id"@,
    ]
}

/// The keys that hold the title.
pub open spec fn title_keys() -> Seq<Seq<char>> {
    seq!["title"@, "fulltitle"@, "alt_title"@]
}

/// The text, or what stands in for it.
pub open spec fn or_text(s: Option<Seq<char>>, other: Seq<char>) -> Seq<char> {
    match s {
        Some(t) => t,
        None => other,
    }
}

/// The name of the source of a download.
pub open spec fn source_name(info: JsonTree) -> Seq<char> {
    clean_name(platform_name(info), or_text(string_field(info, name_keys()), "unknown"@))
}

/// The name of the user in file names: the handle on YouTube, else who uploaded.
pub open spec fn filename_username(info: JsonTree) -> Seq<char> {
    if from_youtube(info) {
        or_text(source_handle(info), source_name(info))
    } else {
        or_text(string_field(info, user_keys()), source_name(info))
    }
}

/// What is shown of a download.
pub open spec fn delivery_metadata(info: JsonTree) -> DeliveryView {
    DeliveryView {
        filename_username: filename_username(info),
        platform_name: platform_name(info),
        source_name: source_name(info),
        source_handle: source_handle(info),
        date: or_text(upload_date(info, "."@, "%Y.%m.%d"@), Seq::empty()),
        title: or_text(string_field(info, title_keys()), "untitled"@),
    }
}

/// A copy of an optional string.
pub(crate) fn copy_optional(s: &Option<String>) -> (r: Option<String>)
    ensures
        some_string(r) == some_string(*s),
{
    match s {
        Some(t) => Some(t.clone()),
        None => None,
    }
}

/// The user that the notes about a download name.
pub(crate) fn read_user_field(info: &Json) -> (r: Option<String>)
    ensures
        some_string(r) == string_field(info@, user_keys()),
{
    let keys: [&str; 6] = [
        "uploader",
        "channel",
        "creator",
        "artist",
        "uploader_id",
        "channel_id",
    ];
    assert(key_texts(keys@) == user_keys());
    read_string_field(info, &keys)
}

/// The title that the notes about a download hold.
pub(crate) fn read_title(info: &Json) -> (r: String)
    ensures
        r@ == or_text(string_field(info@, title_keys()), "untitled"@),
{
    let keys: [&str; 3] = ["title", "fulltitle", "alt_title"];
    assert(key_texts(keys@) == title_keys());
    match read_string_field(info, &keys) {
        Some(t) => t,
        None => "untitled".to_owned(),
    }
}

/// What is shown of a download, as its notes say. Where there are no notes, they are null.
pub fn delivery_metadata_from(info: &Json) -> (r: DeliveryFilenameMetadata)
    ensures
        r@ == delivery_metadata(info@),
{
    let platform_name = read_platform_name(info);
    let keys: [&str; 4] = ["channel", "uploader", "creator", "artist"];
    assert(key_texts(keys@) == name_keys());
    let raw_name = match read_string_field(info, &keys) {
        Some(t) => t,
        None => "unknown".to_owned(),
    };
    let source_name = clean_source_name_for_platform(platform_name.as_str(), raw_name);
    let source_handle = read_source_handle(info);
    let filename_username = if is_youtube_source(info) {
        match copy_optional(&source_handle) {
            Some(h) => h,
            None => source_name.clone(),
        }
    } else {
        match read_user_field(info) {
            Some(t) => t,
            None => source_name.clone(),
        }
    };
    let date = match read_upload_date(info) {
        Some(d) => d,
        None => String::new(),
    };
    DeliveryFilenameMetadata {
        filename_username,
        platform_name,
        source_name,
        source_handle,
        date,
        title: read_title(info),
    }
}

/// What is shown of a download, from the text of its notes.
pub fn read_delivery_filename_metadata(raw_info: Option<&str>) -> (r: DeliveryFilenameMetadata)
    ensures
        r@ == delivery_metadata(info_document(some_text(raw_info))),
{
    let info = read_info_json(raw_info);
    delivery_metadata_from(&info)
}

/// The notes about a download: null where there are none or they are no document.
pub open spec fn info_document(raw: Option<Seq<char>>) -> JsonTree {
    match raw {
        Some(text) => match crate::json::json_document(text) {
            Some(j) => j,
            None => JsonTree::Null,
        },
        None => JsonTree::Null,
    }
}

/// Reads the notes about a download.
pub fn read_info_json(raw: Option<&str>) -> (r: Json)
    ensures
        r@ == info_document(some_text(raw)),
{
    match raw {
        Some(text) => match crate::json::parse_json(text) {
            Some(j) => j,
            None => Json::Null,
        },
        None => Json::Null,
    }
}

/// The line that names the source of a post.
pub open spec fn source_line(m: DeliveryView) -> Seq<char> {
    match m.source_handle {
        Some(h) => m.source_name + " ("@ + h + ")"@,
        None => m.source_name,
    }
}

/// The line that names the source of a post.
pub fn format_post_source_line(metadata: &DeliveryFilenameMetadata) -> (r: String)
    ensures
        r@ == source_line(metadata@),
{
    let mut out = metadata.source_name.clone();
    match &metadata.source_handle {
        Some(h) => {
            out.append(" (");
            out.append(h.as_str());
            out.append(")");
        },
        None => {},
    }
    out
}

/// The title that is shown: none where there is none, or only its stand-in.
pub open spec fn shown_title(m: DeliveryView) -> Option<Seq<char>> {
    let t = trim(m.title);
    if t.len() == 0 || lowercase(t) == lowercase("untitled"@) {
        None
    } else {
        Some(t)
    }
}

/// The title that is shown.
pub fn display_post_title(metadata: &DeliveryFilenameMetadata) -> (r: Option<String>)
    ensures
        some_string(r) == shown_title(metadata@),
{
    let cs = chars_of(metadata.title.as_str());
    let t = trim_chars(cs.as_slice());
    let stand_in = chars_of("untitled");
    if t.len() == 0 || same_ignoring_case(t, stand_in.as_slice()) {
        None
    } else {
        Some(text_of(t))
    }
}

} // verus!
