//! How a post is shown and recorded.
use vstd::prelude::*;

use crate::decoding::escaped_text_is_decoded;
use crate::laws::texts::{all_white, blank_texts_are_white};
use crate::metadata::{shown_title, source_line, DeliveryView};
use crate::posts::unescaped;
use crate::present::{
    escape_char, escaped, escaped_text_holds_no_markup, post_html, post_record, preview,
};
use crate::text::{lowercase, matches_at, trim};

verus! {

/// Whether a character reference of HTML stands at a position.
pub open spec fn reference_at(s: Seq<char>, i: int) -> bool {
    matches_at(s, "&amp;"@, i) || matches_at(s, "&lt;"@, i) || matches_at(s, "&gt;"@, i)
        || matches_at(s, "&quot;"@, i)
}

/// Whether a text stands in HTML for another one: it holds no angle bracket and no quotation mark,
/// every ampersand in it begins a character reference, and with the references resolved it is the
/// other text.
pub open spec fn stands_for(shown: Seq<char>, meant: Seq<char>) -> bool {
    &&& forall|i: int|
        0 <= i < shown.len() ==> #[trigger] shown[i] != '<' && shown[i] != '>' && shown[i] != '"'
    &&& forall|i: int| 0 <= i < shown.len() && #[trigger] shown[i] == '&' ==> reference_at(shown, i)
    &&& unescaped(shown) == meant
}

proof fn lemma_references_stand(s: Seq<char>)
    ensures
        forall|i: int|
            0 <= i < escaped(s).len() && #[trigger] escaped(s)[i] == '&' ==> reference_at(
                escaped(s),
                i,
            ),
    decreases s.len(),
{
    if s.len() > 0 {
        lemma_references_stand(s.drop_last());
        reveal_strlit("&amp;");
        reveal_strlit("&lt;");
        reveal_strlit("&gt;");
        reveal_strlit("&quot;");
        let before = escaped(s.drop_last());
        let last = escape_char(s.last());
        let all = escaped(s);
        assert(all == before + last);
        assert forall|i: int| 0 <= i < all.len() && #[trigger] all[i] == '&' implies reference_at(
            all,
            i,
        ) by {
            if i < before.len() {
                assert(before[i] == all[i]);
                assert(reference_at(before, i));
                if matches_at(before, "&amp;"@, i) {
                    assert(all.subrange(i, i + 5) == before.subrange(i, i + 5));
                }
                if matches_at(before, "&lt;"@, i) {
                    assert(all.subrange(i, i + 4) == before.subrange(i, i + 4));
                }
                if matches_at(before, "&gt;"@, i) {
                    assert(all.subrange(i, i + 4) == before.subrange(i, i + 4));
                }
                if matches_at(before, "&quot;"@, i) {
                    assert(all.subrange(i, i + 6) == before.subrange(i, i + 6));
                }
            } else {
                assert(all[i] == last[i - before.len()]);
                assert(i == before.len());
                assert(all.subrange(i, all.len() as int) == last);
            }
        }
    }
}

/// An escaped text stands for the text.
pub proof fn escaped_text_stands_for_the_text(s: Seq<char>)
    ensures
        stands_for(escaped(s), s),
{
    escaped_text_holds_no_markup(s);
    escaped_text_is_decoded(s);
    lemma_references_stand(s);
    assert forall|i: int| 0 <= i < escaped(s).len() implies #[trigger] escaped(s)[i] != '<'
        && escaped(s)[i] != '>' && escaped(s)[i] != '"' by {
        assert(!crate::present::markup(escaped(s)[i]));
    }
}

/// What a post shows: the platform, the title, the source, the date and the body.
pub struct Shown {
    pub platform: Seq<char>,
    pub title: Seq<char>,
    pub source: Seq<char>,
    pub date: Seq<char>,
    pub body: Seq<char>,
}

/// The message about a post is made of texts that stand for the platform, the title, the source, the
/// date and the body, so that its only angle brackets are those of its own tags: the title is bold,
/// the body is quoted, and what is blank is left out with everything around it.
pub proof fn messages_are_well_formed(
    platform: Seq<char>,
    title: Option<Seq<char>>,
    source: Seq<char>,
    date: Seq<char>,
    body: Seq<char>,
) -> (shown: Shown)
    ensures
        stands_for(shown.platform, platform),
        title matches Some(t) ==> stands_for(shown.title, t),
        stands_for(shown.source, source),
        stands_for(shown.date, date),
        stands_for(shown.body, body),
        ({
            let first = if all_white(platform) {
                Seq::empty()
            } else {
                "("@ + shown.platform + ")\n"@
            };
            let second = if title is None || all_white(title->0) {
                Seq::empty()
            } else {
                "<b>"@ + shown.title + "</b>\n"@
            };
            let fourth = if date.len() == 0 {
                Seq::empty()
            } else {
                "\n"@ + shown.date
            };
            let fifth = if all_white(body) {
                Seq::empty()
            } else {
                "\n<blockquote expandable>"@ + shown.body + "</blockquote>"@
            };
            post_html(platform, title, source, date, body) == first + second + shown.source + fourth
                + fifth
        }),
{
    blank_texts_are_white(platform);
    blank_texts_are_white(body);
    let named = match title {
        Some(t) => t,
        None => Seq::empty(),
    };
    blank_texts_are_white(named);
    escaped_text_stands_for_the_text(platform);
    escaped_text_stands_for_the_text(named);
    escaped_text_stands_for_the_text(source);
    escaped_text_stands_for_the_text(date);
    escaped_text_stands_for_the_text(body);
    Shown {
        platform: escaped(platform),
        title: escaped(named),
        source: escaped(source),
        date: escaped(date),
        body: escaped(body),
    }
}

/// Two posts with the same message have the same source, where nothing else is shown.
pub proof fn different_sources_look_different(a: Seq<char>, b: Seq<char>)
    requires
        post_html(Seq::empty(), None, a, Seq::empty(), Seq::empty()) == post_html(
            Seq::empty(),
            None,
            b,
            Seq::empty(),
            Seq::empty(),
        ),
    ensures
        a == b,
{
    let none = Seq::<char>::empty();
    blank_texts_are_white(none);
    escaped_text_is_decoded(a);
    escaped_text_is_decoded(b);
    assert(none + none + escaped(a) + none + none == escaped(a));
    assert(none + none + escaped(b) + none + none == escaped(b));
}

/// The message of the smaller bot is the text of the post, quoted.
pub proof fn quoted_messages_are_well_formed(text: Seq<char>) -> (shown: Seq<char>)
    ensures
        stands_for(shown, text),
        crate::mine_bot::post_html(text) == "<blockquote>"@ + shown + "</blockquote>"@,
{
    escaped_text_stands_for_the_text(text);
    escaped(text)
}

/// The record of a post holds everything as it is: the platform and the title on lines of their own
/// where they are not blank, then the source, the date and, behind an empty line, the body.
pub proof fn records_hold_everything(
    platform: Seq<char>,
    title: Option<Seq<char>>,
    source: Seq<char>,
    date: Seq<char>,
    body: Seq<char>,
)
    ensures
        ({
            let first = if all_white(platform) {
                Seq::empty()
            } else {
                "("@ + platform + ")\n"@
            };
            let second = if title is None || all_white(title->0) {
                Seq::empty()
            } else {
                title->0 + "\n"@
            };
            post_record(platform, title, source, date, body) == first + second + source + "\n"@ + date
                + "\n\n"@ + body
        }),
{
    blank_texts_are_white(platform);
    if title is Some {
        blank_texts_are_white(title->0);
    }
}

/// A text of up to 120 characters is logged whole; of a longer one the first 120 are, with dots
/// behind them.
pub proof fn logs_show_the_beginning(s: Seq<char>, more: Seq<char>)
    requires
        s.len() == 120,
        more.len() > 0,
    ensures
        preview(s) == s,
        preview(s + more) == s + "..."@,
        forall|n: int| 0 <= n <= 120 ==> preview(#[trigger] s.take(n)) == s.take(n),
{
    assert((s + more).take(120) == s);
}

/// The source of a post is its name, with the handle in brackets behind it where there is one.
pub proof fn sources_are_named(m: DeliveryView)
    ensures
        m.source_handle is None ==> source_line(m) == m.source_name,
        m.source_handle matches Some(h) ==> source_line(m) == m.source_name + " ("@ + h + ")"@,
{
}

/// A title is shown without the white space around it; a blank one is not shown, nor the word that
/// stands in for one, however it is spelled.
pub proof fn stand_in_titles_are_not_shown(m: DeliveryView)
    ensures
        shown_title(m) is None <==> all_white(m.title) || lowercase(trim(m.title)) == "untitled"@,
        shown_title(m) matches Some(t) ==> t == trim(m.title),
{
    blank_texts_are_white(m.title);
    reveal_strlit("untitled");
    assert(lowercase("untitled"@) == "untitled"@);
}

} // verus!
