//! How a post is presented: as HTML in a message, as plain text in the records, shortened in logs.
use vstd::prelude::*;
use vstd::slice::slice_subrange;

use crate::json::some_text;
use crate::posts::is_empty_text;
use crate::text::{chars_of, is_blank, text_of, trim};

verus! {

/// How a character stands in HTML.
pub open spec fn escape_char(c: char) -> Seq<char> {
    if c == '&' {
        "&amp;"@
    } else if c == '<' {
        "&lt;"@
    } else if c == '>' {
        "&gt;"@
    } else if c == '"' {
        "&quot;"@
    } else {
        seq![c]
    }
}

/// How a text stands in HTML.
pub open spec fn escaped(s: Seq<char>) -> Seq<char>
    decreases s.len(),
{
    if s.len() == 0 {
        Seq::empty()
    } else {
        escaped(s.drop_last()) + escape_char(s.last())
    }
}

/// Writes a text as HTML.
pub fn escape_html(text: &str) -> (r: String)
    ensures
        r@ == escaped(text@),
{
    let mut out = String::new();
    for c in it: text.chars()
        invariant
            it.seq() == text@,
            out@ == escaped(text@.take(it.index())),
    {
        let ghost done = text@.take(it.index() + 1);
        assert(done.drop_last() == text@.take(it.index()));
        assert(done.last() == c);
        match c {
            '&' => out.append("&amp;"),
            '<' => out.append("&lt;"),
            '>' => out.append("&gt;"),
            '"' => out.append("&quot;"),
            _ => out.push(c),
        }
        assert(out@ == escaped(done));
    }
    assert(text@.take(text@.len() as int) == text@);
    out
}

/// Whether a character is an angle bracket or a quotation mark.
pub open spec fn markup(c: char) -> bool {
    c == '<' || c == '>' || c == '"'
}

/// An escaped text holds no angle bracket and no quotation mark.
pub proof fn escaped_text_holds_no_markup(s: Seq<char>)
    ensures
        forall|i: int| 0 <= i < escaped(s).len() ==> !markup(#[trigger] escaped(s)[i]),
    decreases s.len(),
{
    if s.len() > 0 {
        escaped_text_holds_no_markup(s.drop_last());
        reveal_strlit("&amp;");
        reveal_strlit("&lt;");
        reveal_strlit("&gt;");
        reveal_strlit("&quot;");
        let before = escaped(s.drop_last());
        let last = escape_char(s.last());
        assert forall|i: int| 0 <= i < escaped(s).len() implies !markup(
            #[trigger] escaped(s)[i],
        ) by {
            if i < before.len() {
                assert(escaped(s)[i] == before[i]);
            } else {
                assert(escaped(s)[i] == last[i - before.len()]);
            }
        }
    }
}

/// The line of the platform, where one is known.
pub open spec fn platform_line(platform: Seq<char>) -> Seq<char> {
    if trim(platform).len() == 0 {
        Seq::empty()
    } else {
        "("@ + platform + ")\n"@
    }
}

/// The title that is shown, if any.
pub open spec fn title_shown(title: Option<Seq<char>>) -> bool {
    title matches Some(t) && trim(t).len() > 0
}

/// The message about a post.
pub open spec fn post_html(
    platform: Seq<char>,
    title: Option<Seq<char>>,
    source: Seq<char>,
    date: Seq<char>,
    body: Seq<char>,
) -> Seq<char> {
    let first = if trim(platform).len() == 0 {
        Seq::empty()
    } else {
        "("@ + escaped(platform) + ")\n"@
    };
    let second = if title_shown(title) {
        "<b>"@ + escaped(title->0) + "</b>\n"@
    } else {
        Seq::empty()
    };
    let fourth = if date.len() == 0 {
        Seq::empty()
    } else {
        "\n"@ + escaped(date)
    };
    let fifth = if trim(body).len() == 0 {
        Seq::empty()
    } else {
        "\n<blockquote expandable>"@ + escaped(body) + "</blockquote>"@
    };
    first + second + escaped(source) + fourth + fifth
}

/// Writes the message about a post.
pub fn format_post_text_html(
    platform: &str,
    title: Option<&str>,
    source: &str,
    date: &str,
    body: &str,
) -> (r: String)
    ensures
        r@ == post_html(platform@, some_text(title), source@, date@, body@),
{
    let mut out = String::new();
    if !is_blank(platform) {
        out.append("(");
        let shown = escape_html(platform);
        out.append(shown.as_str());
        out.append(")\n");
    }
    let ghost first = out@;
    if let Some(t) = title {
        if !is_blank(t) {
            out.append("<b>");
            let shown = escape_html(t);
            out.append(shown.as_str());
            out.append("</b>\n");
        }
    }
    let ghost second = if title_shown(some_text(title)) {
        "<b>"@ + escaped(some_text(title)->0) + "</b>\n"@
    } else {
        Seq::empty()
    };
    assert(out@ == first + second);
    let shown = escape_html(source);
    out.append(shown.as_str());
    let ghost third = out@;
    if !is_empty_text(date) {
        out.append("\n");
        let shown = escape_html(date);
        out.append(shown.as_str());
    }
    let ghost fourth = if date@.len() == 0 {
        Seq::empty()
    } else {
        "\n"@ + escaped(date@)
    };
    assert(out@ == third + fourth);
    let ghost before = out@;
    if !is_blank(body) {
        out.append("\n<blockquote expandable>");
        let shown = escape_html(body);
        out.append(shown.as_str());
        out.append("</blockquote>");
    }
    let ghost fifth = if trim(body@).len() == 0 {
        Seq::empty()
    } else {
        "\n<blockquote expandable>"@ + escaped(body@) + "</blockquote>"@
    };
    assert(out@ == before + fifth);
    out
}

/// The record of a post.
pub open spec fn post_record(
    platform: Seq<char>,
    title: Option<Seq<char>>,
    source: Seq<char>,
    date: Seq<char>,
    body: Seq<char>,
) -> Seq<char> {
    let second = if title_shown(title) {
        title->0 + "\n"@
    } else {
        Seq::empty()
    };
    platform_line(platform) + second + source + "\n"@ + date + "\n\n"@ + body
}

/// Writes the record of a post.
pub fn compose_post_text(
    platform: &str,
    title: Option<&str>,
    source: &str,
    date: &str,
    body: &str,
) -> (r: String)
    ensures
        r@ == post_record(platform@, some_text(title), source@, date@, body@),
{
    let mut out = String::new();
    if !is_blank(platform) {
        out.append("(");
        out.append(platform);
        out.append(")\n");
    }
    let ghost first = out@;
    assert(first == platform_line(platform@));
    if let Some(t) = title {
        if !is_blank(t) {
            out.append(t);
            out.append("\n");
        }
    }
    let ghost second = if title_shown(some_text(title)) {
        some_text(title)->0 + "\n"@
    } else {
        Seq::empty()
    };
    assert(out@ == first + second);
    out.append(source);
    out.append("\n");
    out.append(date);
    out.append("\n\n");
    out.append(body);
    out
}

/// The first characters of a text, with dots behind them where it goes on.
pub open spec fn preview(s: Seq<char>) -> Seq<char> {
    if s.len() <= 120 {
        s
    } else {
        s.take(120) + "..."@
    }
}

/// Shortens a text for the log.
pub fn preview_log_text(input: &str) -> (r: String)
    ensures
        r@ == preview(input@),
{
    let cs = chars_of(input);
    if cs.len() <= 120 {
        return input.to_owned();
    }
    let mut out = text_of(slice_subrange(cs.as_slice(), 0, 120));
    assert(out@ == input@.take(120));
    out.append("...");
    out
}

} // verus!
