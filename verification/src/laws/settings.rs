//! What the settings mean and what the commands on them show.
use vstd::prelude::*;
use vstd::utf8::encode_utf8;

use crate::config::{path_read, ConfigPathError, Segment};
use crate::document::{step, value_at, SetFailure};
use crate::json::{entry_from, json_document, JsonTree};
use crate::laws::texts::{all_white, ends_of_a_text};
use crate::listing::{by_path, leaves, leaves_below, path_keys, under, width, written, Leaf};
use crate::numbers::decimal;
use crate::order::{bytes_less, sorted_indices, sorting_is_stable, stands_before};
use crate::settings::{
    after_set, answer_to_get, cli_value, effective_token, failure_message, file_text, format_of_extension, format_of_lines,
    jsonc_comment, without_comments, Answer, ConfigFailure, ConfigFormat,
};
use crate::text::{has_prefix, has_suffix, trim_start, white};

verus! {

// ---------------------------------------------------------------------------
// Files
// ---------------------------------------------------------------------------

proof fn lemma_trim_start_line(before: Seq<char>, rest: Seq<char>)
    requires
        all_white(before),
        rest.len() == 0 || !white(rest[0]),
    ensures
        trim_start(before + rest) == rest,
    decreases before.len(),
{
    let all = before + rest;
    if before.len() > 0 {
        assert(all[0] == before[0]);
        assert(white(before[0]));
        assert(all.drop_first() == before.drop_first() + rest);
        assert forall|i: int| 0 <= i < before.drop_first().len() implies white(
            #[trigger] before.drop_first()[i],
        ) by {
            assert(before.drop_first()[i] == before[i + 1]);
        }
        lemma_trim_start_line(before.drop_first(), rest);
    } else {
        assert(all == rest);
    }
}

/// Whether a line says nothing about the format: behind white space there is nothing, or a comment.
pub open spec fn says_nothing(rest: Seq<char>) -> bool {
    rest.len() == 0 || rest[0] == ';' || (rest.len() > 1 && rest[0] == '/' && rest[1] == '/')
}

/// The first line of a file that is neither blank nor a comment decides on its format: JSON if it
/// begins with a brace, behind white space if there is any, and CONL otherwise.
pub proof fn first_lines_decide_on_the_format(
    before: Seq<char>,
    rest: Seq<char>,
    more: Seq<Seq<char>>,
)
    requires
        all_white(before),
        rest.len() == 0 || !white(rest[0]),
    ensures
        says_nothing(rest) ==> format_of_lines(seq![before + rest] + more) == format_of_lines(more),
        !says_nothing(rest) && rest[0] == '{' ==> format_of_lines(seq![before + rest] + more)
            == ConfigFormat::Json,
        !says_nothing(rest) && rest[0] != '{' ==> format_of_lines(seq![before + rest] + more)
            == ConfigFormat::Conl,
        format_of_lines(Seq::empty()) == ConfigFormat::Conl,
{
    reveal_strlit(";");
    reveal_strlit("//");
    reveal_strlit("{");
    lemma_trim_start_line(before, rest);
    let all = seq![before + rest] + more;
    assert(all[0] == before + rest);
    assert(all.drop_first() == more);
    if rest.len() > 0 {
        assert(rest.subrange(0, 1)[0] == rest[0]);
        if rest[0] == ';' {
            assert(rest.subrange(0, 1) == ";"@);
        }
        if rest[0] == '{' {
            assert(rest.subrange(0, 1) == "{"@);
        }
    }
    if rest.len() > 1 {
        assert(rest.subrange(0, 2)[0] == rest[0]);
        assert(rest.subrange(0, 2)[1] == rest[1]);
        if rest[0] == '/' && rest[1] == '/' {
            assert(rest.subrange(0, 2) == "//"@);
        }
    }
}

/// Whole-line comments are left out of JSON, and every other line stays where it is.
pub proof fn comment_lines_are_left_out(
    before: Seq<char>,
    rest: Seq<char>,
    more: Seq<Seq<char>>,
)
    requires
        all_white(before),
        rest.len() == 0 || !white(rest[0]),
    ensures
        rest.len() > 1 && rest[0] == '/' && rest[1] == '/' ==> without_comments(
            seq![before + rest] + more,
        ) == without_comments(more),
        !(rest.len() > 1 && rest[0] == '/' && rest[1] == '/') ==> without_comments(
            seq![before + rest] + more,
        ) == seq![before + rest] + without_comments(more),
        without_comments(Seq::empty()).len() == 0,
{
    reveal_strlit("//");
    lemma_trim_start_line(before, rest);
    let line = before + rest;
    if rest.len() > 1 {
        assert(rest.subrange(0, 2)[0] == rest[0]);
        assert(rest.subrange(0, 2)[1] == rest[1]);
        if rest[0] == '/' && rest[1] == '/' {
            assert(rest.subrange(0, 2) == "//"@);
        }
    }
    let keeps = |l: Seq<char>| !jsonc_comment(l);
    Seq::filter_distributes_over_add(seq![line], more, keeps);
    reveal(Seq::filter);
    let none = Seq::<Seq<char>>::empty();
    assert(none.filter(keeps) == none);
    assert(seq![line].drop_last() == none);
    assert(seq![line].last() == line);
    assert(none.push(line) == seq![line]);
    assert(seq![line].filter(keeps) == if keeps(line) {
        seq![line]
    } else {
        Seq::empty()
    });
    assert(Seq::<Seq<char>>::empty() + more.filter(keeps) == more.filter(keeps));
}

/// A written file ends with a line feed, and one that ends with a line feed already is written as
/// it is, unless it is JSON.
pub proof fn written_files_end_with_a_line_feed(format: ConfigFormat, rendered: Seq<char>)
    ensures
        file_text(format, rendered).len() > 0,
        file_text(format, rendered).last() == '\n',
        has_prefix(file_text(format, rendered), rendered),
        file_text(format, rendered).len() <= rendered.len() + 1,
        format == ConfigFormat::Conl && rendered.len() > 0 && rendered.last() == '\n' ==> file_text(
            format,
            rendered,
        ) == rendered,
{
    reveal_strlit("\n");
    let all = file_text(format, rendered);
    assert(all.subrange(0, rendered.len() as int) == rendered);
    let n = rendered.len() as int;
    if n > 0 {
        assert(rendered.subrange(n - 1, n)[0] == rendered[n - 1]);
        if rendered.last() == '\n' {
            assert(rendered.subrange(n - 1, n) == "\n"@);
        }
    }
}

/// A new file is written as JSON exactly if its extension is that of JSON.
pub proof fn extensions_decide_on_new_files(extension: Option<Seq<char>>)
    ensures
        format_of_extension(extension) == ConfigFormat::Json <==> extension == Some("json"@),
{
}

// ---------------------------------------------------------------------------
// Commands
// ---------------------------------------------------------------------------

/// A value on the command line is the document it is in JSON, or else the text itself.
pub proof fn values_are_read_as_json(input: Seq<char>, document: JsonTree)
    ensures
        json_document(input) == Some(document) ==> cli_value(input) == document,
        json_document(input) is None ==> cli_value(input) == JsonTree::Text(input),
{
}

/// Asking for a key shows the value that its path leads to, or says that there is none, or that the
/// key is no path.
pub proof fn keys_show_their_values(
    document: JsonTree,
    key: Seq<char>,
    path: Seq<Segment>,
    error: ConfigPathError,
)
    ensures
        path_read(encode_utf8(key)) == Ok::<Seq<Segment>, ConfigPathError>(path) ==> (match value_at(
            document,
            path,
        ) {
            Some(v) => answer_to_get(document, false, Some(key)) == Ok::<Answer, ConfigFailure>(
                Answer::Value(v),
            ),
            None => answer_to_get(document, false, Some(key)) == Err::<Answer, ConfigFailure>(
                ConfigFailure::NotFound(key),
            ),
        }),
        path_read(encode_utf8(key)) == Err::<Seq<Segment>, ConfigPathError>(error) ==> answer_to_get(
            document,
            false,
            Some(key),
        ) == Err::<Answer, ConfigFailure>(ConfigFailure::Path(error, key)),
        answer_to_get(document, false, None) == Err::<Answer, ConfigFailure>(
            ConfigFailure::MissingKey,
        ),
{
}

/// Asking for everything shows the leaves of the document, or of the value at the key, in the order
/// of their paths.
pub proof fn everything_is_shown_by_path(document: JsonTree, key: Seq<char>, value: JsonTree)
    ensures
        answer_to_get(document, true, None) == Ok::<Answer, ConfigFailure>(
            Answer::Entries(by_path(written(None, leaves(document)))),
        ),
        answer_to_get(document, false, Some(key)) == Ok::<Answer, ConfigFailure>(
            Answer::Value(value),
        ) ==> answer_to_get(document, true, Some(key)) == Ok::<Answer, ConfigFailure>(
            Answer::Entries(by_path(written(Some(key), leaves(value)))),
        ),
{
}

/// A key that is no path changes nothing.
pub proof fn bad_keys_change_nothing(
    document: JsonTree,
    key: Seq<char>,
    new: JsonTree,
    error: ConfigPathError,
)
    requires
        path_read(encode_utf8(key)) == Err::<Seq<Segment>, ConfigPathError>(error),
    ensures
        after_set(document, key, new) == (document, Some(ConfigFailure::Path(error, key))),
{
}

/// A listing by path holds the entries that it is made of, all of them and no others, and no entry
/// comes before one with a lesser path.
pub proof fn listings_are_in_order(entries: Seq<(Seq<char>, JsonTree)>)
    requires
        entries.len() <= usize::MAX,
    ensures
        by_path(entries).len() == entries.len(),
        forall|i: int, j: int|
            0 <= i < j < entries.len() ==> !bytes_less(
                encode_utf8((#[trigger] by_path(entries)[j]).0),
                encode_utf8((#[trigger] by_path(entries)[i]).0),
            ),
        forall|k: int| 0 <= k < entries.len() ==> by_path(entries).contains(#[trigger] entries[k]),
        forall|i: int| 0 <= i < entries.len() ==> entries.contains(#[trigger] by_path(entries)[i]),
{
    let keys = path_keys(entries);
    sorting_is_stable(keys, entries.len());
    let order = sorted_indices(keys, entries.len());
    let r = by_path(entries);
    assert forall|i: int, j: int| 0 <= i < j < entries.len() implies !bytes_less(
        encode_utf8((#[trigger] r[j]).0),
        encode_utf8((#[trigger] r[i]).0),
    ) by {
        assert(stands_before(keys, order[i], order[j]));
        assert(r[i] == entries[order[i] as int]);
        assert(r[j] == entries[order[j] as int]);
        let a = keys[order[i] as int];
        let b = keys[order[j] as int];
        if bytes_less(b, a) {
            if bytes_less(a, b) {
                crate::order::lemma_less_transitive(a, b, a);
                lemma_not_less_than_itself(a);
            } else {
                lemma_not_less_than_itself(a);
            }
        }
    }
    assert forall|k: int| 0 <= k < entries.len() implies r.contains(#[trigger] entries[k]) by {
        assert(order.contains(k as usize));
        let i = choose|i: int| 0 <= i < order.len() && order[i] == k as usize;
        assert(r[i] == entries[k]);
    }
    assert forall|i: int| 0 <= i < entries.len() implies entries.contains(#[trigger] r[i]) by {
        assert(r[i] == entries[order[i] as int]);
    }
}

proof fn lemma_not_less_than_itself(a: Seq<u8>)
    ensures
        !bytes_less(a, a),
    decreases a.len(),
{
    if a.len() > 0 {
        lemma_not_less_than_itself(a.drop_first());
    }
}

proof fn lemma_below(v: JsonTree, n: nat, k: int, segment: Segment, child: JsonTree, leaf: Leaf)
    requires
        n <= width(v),
        0 <= k < n,
        v matches JsonTree::Object(entries) ==> segment == Segment::Key(entries[k].0) && child
            == entries[k].1,
        v matches JsonTree::Array(items) ==> segment == Segment::Index(k as nat) && child
            == items[k],
        leaves(child).contains(leaf),
    ensures
        leaves_below(v, n).contains((seq![segment] + leaf.0, leaf.1)),
    decreases n,
{
    let m = (n - 1) as nat;
    let all = leaves_below(v, n);
    let before = leaves_below(v, m);
    let wanted = (seq![segment] + leaf.0, leaf.1);
    if k < m {
        lemma_below(v, m, k, segment, child, leaf);
        let i = choose|i: int| 0 <= i < before.len() && before[i] == wanted;
        assert(all[i] == wanted);
    } else {
        let i = choose|i: int| 0 <= i < leaves(child).len() && leaves(child)[i] == leaf;
        assert(under(segment, leaves(child))[i] == wanted);
        assert(all[before.len() + i] == wanted);
    }
}

/// Every value of a document that is neither a filled object nor a filled array is listed, under the
/// path that leads to it.
pub proof fn every_value_is_listed(v: JsonTree, path: Seq<Segment>, value: JsonTree)
    requires
        value_at(v, path) == Some(value),
        width(value) == 0,
    ensures
        leaves(v).contains((path, value)),
    decreases path.len(),
{
    if path.len() == 0 {
        assert(leaves(v)[0] == (Seq::<Segment>::empty(), v));
        assert(path == Seq::<Segment>::empty());
    } else {
        let next = step(v, path[0])->0;
        let tail = path.drop_first();
        every_value_is_listed(next, tail, value);
        assert(seq![path[0]] + tail == path);
        match path[0] {
            Segment::Key(key) => {
                let entries = v->Object_0;
                let k = entry_from(entries, key, 0)->0;
                lemma_entry_from(entries, key, 0);
                lemma_below(v, width(v), k, path[0], next, (tail, value));
            },
            Segment::Index(index) => {
                lemma_below(v, width(v), index as int, path[0], next, (tail, value));
            },
        }
    }
}

proof fn lemma_entry_from(entries: Seq<(Seq<char>, JsonTree)>, key: Seq<char>, i: int)
    requires
        0 <= i,
    ensures
        entry_from(entries, key, i) matches Some(k) ==> i <= k < entries.len() && entries[k].0
            == key,
    decreases entries.len() - i,
{
    if i < entries.len() && entries[i].0 != key {
        lemma_entry_from(entries, key, i + 1);
    }
}

/// A text that begins with a dot, or with a bracket without digits, is no path; nor is an empty one.
pub proof fn bad_paths_are_refused(bytes: Seq<u8>)
    ensures
        path_read(Seq::empty()) == Err::<Seq<Segment>, ConfigPathError>(ConfigPathError::Empty),
        bytes.len() > 0 && bytes[0] == '.' as u8 ==> path_read(bytes) == Err::<
            Seq<Segment>,
            ConfigPathError,
        >(ConfigPathError::Invalid),
        bytes.len() > 0 && bytes[0] == '[' as u8 && (bytes.len() == 1 || !('0' as u8 <= bytes[1]
            <= '9' as u8)) ==> path_read(bytes) == Err::<Seq<Segment>, ConfigPathError>(
            ConfigPathError::Invalid,
        ),
{
}

/// The message about a key ends with the key, and that about an item with its position.
pub proof fn failures_name_the_key(key: Seq<char>, index: nat)
    ensures
        has_suffix(failure_message(ConfigFailure::Path(ConfigPathError::Invalid, key)), key),
        has_suffix(failure_message(ConfigFailure::NotFound(key)), key),
        has_suffix(failure_message(ConfigFailure::Blocked(SetFailure::NotAnObject(key))), key),
        has_suffix(
            failure_message(ConfigFailure::Blocked(SetFailure::NotAnArray(index))),
            decimal(index),
        ),
{
    ends_of_a_text("invalid config key: "@, key);
    ends_of_a_text("config key not found: "@, key);
    ends_of_a_text("config path traverses a non-object at key "@, key);
    ends_of_a_text("config path traverses a non-array at index "@, decimal(index));
}

/// A token from the environment counts, whatever the settings hold; without one theirs does.
pub proof fn tokens_come_from_the_environment_first(
    stored: Seq<char>,
    other: Seq<char>,
    token: Seq<char>,
)
    ensures
        effective_token(stored, Some(token)) == token,
        effective_token(stored, Some(token)) == effective_token(other, Some(token)),
        effective_token(stored, None) == stored,
{
}

} // verus!
