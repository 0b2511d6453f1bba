//! What is asked of the sites: the queries of the addresses that are fetched.
use vstd::prelude::*;
use vstd::utf8::encode_utf8;

use crate::images::{
    bluesky_start, instagram_start, thread_address, HandleSearchView, SearchView,
};
use crate::laws::texts::free_of;
use crate::links::{
    bluesky_post, form_byte, form_bytes, form_text, hex_digit, instagram_shortcode, query_text,
};
use crate::text::ascii_alphanumeric;

verus! {

// ---------------------------------------------------------------------------
// Forms
// ---------------------------------------------------------------------------

/// The number that a hexadecimal digit stands for.
pub open spec fn hex_value(c: char) -> u8 {
    if '0' <= c <= '9' {
        ((c as u8) - 48) as u8
    } else {
        ((c as u8) - 55) as u8
    }
}

/// The bytes that a text in a query stands for: a plus sign is a space, and a percent sign begins
/// the code of a byte.
pub open spec fn form_meaning(s: Seq<char>) -> Seq<u8>
    decreases s.len(),
{
    if s.len() == 0 {
        Seq::empty()
    } else if s[0] == '+' {
        seq![0x20u8] + form_meaning(s.skip(1))
    } else if s[0] == '%' && s.len() >= 3 {
        seq![(hex_value(s[1]) * 16 + hex_value(s[2])) as u8] + form_meaning(s.skip(3))
    } else {
        seq![s[0] as u8] + form_meaning(s.skip(1))
    }
}

/// Whether a text may stand in a query as a name or a value.
pub open spec fn separable(s: Seq<char>) -> bool {
    free_of(s, '&') && free_of(s, '=') && free_of(s, '#') && free_of(s, ' ') && free_of(s, '/')
}

proof fn lemma_form_bytes_front(bytes: Seq<u8>)
    requires
        bytes.len() > 0,
    ensures
        form_bytes(bytes) == form_byte(bytes[0]) + form_bytes(bytes.drop_first()),
    decreases bytes.len(),
{
    if bytes.len() == 1 {
        assert(bytes.drop_last() == Seq::<u8>::empty());
        assert(bytes.drop_first() == Seq::<u8>::empty());
        assert(form_bytes(bytes.drop_last()) == Seq::<char>::empty());
        assert(form_bytes(bytes) == form_byte(bytes[0]));
    } else {
        lemma_form_bytes_front(bytes.drop_last());
        assert(bytes.drop_last()[0] == bytes[0]);
        assert(bytes.drop_last().drop_first() == bytes.drop_first().drop_last());
        assert(bytes.drop_first().last() == bytes.last());
        assert(form_bytes(bytes) == form_byte(bytes[0]) + (form_bytes(
            bytes.drop_first().drop_last(),
        ) + form_byte(bytes.last())));
    }
}

proof fn lemma_form_byte(b: u8, rest: Seq<char>)
    ensures
        form_meaning(form_byte(b) + rest) == seq![b] + form_meaning(rest),
        separable(form_byte(b)),
        form_byte(b).len() > 0,
{
    let w = form_byte(b);
    if w.len() == 1 {
        assert((w + rest).skip(1) == rest);
        if b != 0x20 {
            assert((b as char) as u8 == b);
        }
    } else {
        let hi: u8 = b / 16;
        let lo: u8 = b % 16;
        lemma_hex(hi);
        lemma_hex(lo);
        assert((w + rest).skip(3) == rest);
        assert((w + rest)[1] == hex_digit(hi));
        assert((w + rest)[2] == hex_digit(lo));
        assert(hi * 16 + lo == b);
    }
}

proof fn lemma_hex(n: u8)
    requires
        n < 16,
    ensures
        hex_value(hex_digit(n)) == n,
        '0' <= hex_digit(n) <= '9' || 'A' <= hex_digit(n) <= 'F',
{
}

proof fn lemma_form_reads_back(bytes: Seq<u8>)
    ensures
        form_meaning(form_bytes(bytes)) == bytes,
        separable(form_bytes(bytes)),
    decreases bytes.len(),
{
    if bytes.len() > 0 {
        lemma_form_bytes_front(bytes);
        lemma_form_reads_back(bytes.drop_first());
        lemma_form_byte(bytes[0], form_bytes(bytes.drop_first()));
        assert(seq![bytes[0]] + bytes.drop_first() == bytes);
    }
}

/// What stands in a query for a text holds no separator, and reading it gives the text back.
pub proof fn forms_are_read_back(text: Seq<char>)
    ensures
        form_meaning(form_text(text)) == encode_utf8(text),
        separable(form_text(text)),
{
    lemma_form_reads_back(encode_utf8(text));
}

/// Letters and digits, hyphens, dots, underscores and asterisks stand in a query for themselves.
pub proof fn letters_stay_in_queries(text: Seq<char>)
    requires
        forall|i: int|
            0 <= i < text.len() ==> (ascii_alphanumeric(#[trigger] text[i]) || text[i] == '-'
                || text[i] == '.' || text[i] == '_' || text[i] == '*'),
    ensures
        form_text(text) == text,
{
    assert(vstd::utf8::is_ascii_chars(text));
    vstd::utf8::is_ascii_chars_encode_utf8(text);
    lemma_letters(encode_utf8(text), text);
}

proof fn lemma_letters(bytes: Seq<u8>, text: Seq<char>)
    requires
        bytes.len() == text.len(),
        forall|i: int|
            0 <= i < text.len() ==> (ascii_alphanumeric(#[trigger] text[i]) || text[i] == '-'
                || text[i] == '.' || text[i] == '_' || text[i] == '*') && bytes[i] == text[i] as u8,
    ensures
        form_bytes(bytes) == text,
    decreases bytes.len(),
{
    if bytes.len() > 0 {
        lemma_letters(bytes.drop_last(), text.drop_last());
        let c = text.last();
        assert(c == text[text.len() - 1]);
        assert((c as u8) as char == c);
        assert(form_byte(bytes.last()) == seq![c]);
        assert(text.drop_last() + seq![c] == text);
    }
}

/// A query holds each name before its value, and the pairs in order, with a separator between two.
pub proof fn queries_hold_their_pairs(
    first: (Seq<char>, Seq<char>),
    second: (Seq<char>, Seq<char>),
)
    ensures
        query_text(seq![first]) == form_text(first.0) + seq!['='] + form_text(first.1),
        query_text(seq![first, second]) == form_text(first.0) + seq!['='] + form_text(first.1)
            + seq!['&'] + form_text(second.0) + seq!['='] + form_text(second.1),
{
    let both = seq![first, second];
    assert(both.drop_last() == seq![first]);
    assert(both.last() == second);
    assert(seq![first].last() == first);
    assert(query_text(both) == query_text(seq![first]) + seq!['&'] + (form_text(second.0) + seq!['=']
        + form_text(second.1)));
    assert(query_text(both) =~= form_text(first.0) + seq!['='] + form_text(first.1) + seq!['&']
        + form_text(second.0) + seq!['='] + form_text(second.1));
}

// ---------------------------------------------------------------------------
// Requests
// ---------------------------------------------------------------------------

/// Instagram is asked about the shortcode of the post.
pub proof fn instagram_is_asked_for_the_post(address: Seq<char>, code: Seq<char>) -> (value: Seq<
    char,
>)
    requires
        instagram_shortcode(address) == Ok::<_, Seq<char>>(Some(code)),
    ensures
        instagram_start(false, address) matches SearchView::Fetch { id, address: asked } && id == code
            && asked == "https://www.instagram.com/graphql/query?"@ + ("doc_id"@ + seq!['=']
            + "8845758582119845"@ + seq!['&'] + "variables"@ + seq!['='] + value),
        form_meaning(value) == encode_utf8("{\"shortcode\":\""@ + code + "\"}"@),
        separable(value),
{
    let value = form_text("{\"shortcode\":\""@ + code + "\"}"@);
    forms_are_read_back("{\"shortcode\":\""@ + code + "\"}"@);
    reveal_strlit("doc_id");
    reveal_strlit("8845758582119845");
    reveal_strlit("variables");
    letters_stay_in_queries("doc_id"@);
    letters_stay_in_queries("8845758582119845"@);
    letters_stay_in_queries("variables"@);
    queries_hold_their_pairs(
        ("doc_id"@, "8845758582119845"@),
        ("variables"@, "{\"shortcode\":\""@ + code + "\"}"@),
    );
    value
}

/// Bluesky is asked whose handle it is.
pub proof fn bluesky_is_asked_for_the_author(
    address: Seq<char>,
    handle: Seq<char>,
    rkey: Seq<char>,
) -> (value: Seq<char>)
    requires
        bluesky_post(address) == Ok::<_, Seq<char>>(Some((handle, rkey))),
    ensures
        bluesky_start(false, address) matches HandleSearchView::Resolve {
            handle: h,
            rkey: k,
            address: asked,
        } && h == handle && k == rkey && asked
            == "https://public.api.bsky.app/xrpc/com.atproto.identity.resolveHandle?"@ + ("handle"@
            + seq!['='] + value),
        form_meaning(value) == encode_utf8(handle),
        separable(value),
{
    forms_are_read_back(handle);
    reveal_strlit("handle");
    letters_stay_in_queries("handle"@);
    queries_hold_their_pairs(("handle"@, handle), ("handle"@, handle));
    form_text(handle)
}

/// Bluesky is asked for the post of the author, without its answers.
pub proof fn bluesky_is_asked_for_the_post(did: Seq<char>, rkey: Seq<char>) -> (value: Seq<char>)
    ensures
        thread_address(did, rkey)
            == "https://public.api.bsky.app/xrpc/app.bsky.feed.getPostThread?"@ + ("uri"@ + seq!['=']
            + value + seq!['&'] + "depth"@ + seq!['='] + "0"@),
        form_meaning(value) == encode_utf8("at://"@ + did + "/app.bsky.feed.post/"@ + rkey),
        separable(value),
{
    let uri = "at://"@ + did + "/app.bsky.feed.post/"@ + rkey;
    forms_are_read_back(uri);
    reveal_strlit("uri");
    reveal_strlit("depth");
    reveal_strlit("0");
    letters_stay_in_queries("uri"@);
    letters_stay_in_queries("depth"@);
    letters_stay_in_queries("0"@);
    queries_hold_their_pairs(("uri"@, uri), ("depth"@, "0"@));
    form_text(uri)
}

} // verus!
