//! Listing the values of a configuration document under the paths that lead to them.
use vstd::prelude::*;
use vstd::utf8::encode_utf8;

use crate::config::{
    byte_chars, digit_byte, digits_end, key_byte, key_end, path_from, path_read,
    ConfigPathError, Previous, Segment,
};
use crate::document::{step, value_at};
use crate::json::{
    array_tree, entry_from, entry_trees, item_trees, object_tree, Json, JsonTree,
};
use crate::numbers::{decimal, decimal_reads_back, decimal_text, lemma_decimal_digits};
use crate::order::{key_views, sort_indices, sorted_indices};
use crate::text::{ascii_digit, texts};

verus! {

/// A value of a document with the steps that lead to it.
pub type Leaf = (Seq<Segment>, JsonTree);

/// The leaves with one more step before their own.
pub open spec fn under(segment: Segment, leaves: Seq<Leaf>) -> Seq<Leaf> {
    leaves.map_values(|l: Leaf| (seq![segment] + l.0, l.1))
}

/// The number of entries or items of a document.
pub open spec fn width(v: JsonTree) -> nat {
    match v {
        JsonTree::Object(entries) => entries.len(),
        JsonTree::Array(items) => items.len(),
        _ => 0,
    }
}

/// The values of a document that are neither a filled object nor a filled array, in order.
pub open spec fn leaves(v: JsonTree) -> Seq<Leaf>
    decreases v, width(v) + 1,
{
    if width(v) > 0 {
        leaves_below(v, width(v))
    } else {
        seq![(Seq::empty(), v)]
    }
}

/// The leaves below the first `n` entries or items of a document.
pub open spec fn leaves_below(v: JsonTree, n: nat) -> Seq<Leaf>
    decreases v, n,
{
    if n == 0 || n > width(v) {
        Seq::empty()
    } else {
        leaves_below(v, (n - 1) as nat) + match v {
            JsonTree::Object(entries) => under(
                Segment::Key(entries[n - 1].0),
                leaves(entries[n - 1].1),
            ),
            JsonTree::Array(items) => under(
                Segment::Index((n - 1) as nat),
                leaves(items[n - 1]),
            ),
            _ => Seq::empty(),
        }
    }
}

/// How a path is written that goes one step on from a written path.
pub open spec fn path_step(prefix: Option<Seq<char>>, segment: Segment) -> Seq<char> {
    let before = match prefix {
        Some(p) => p,
        None => Seq::empty(),
    };
    match segment {
        Segment::Key(key) => if before.len() > 0 {
            before + "."@ + key
        } else {
            key
        },
        Segment::Index(index) => before + "["@ + decimal(index) + "]"@,
    }
}

/// How a path is written; `$` stands for the empty one.
pub open spec fn path_text(prefix: Option<Seq<char>>, path: Seq<Segment>) -> Seq<char>
    decreases path.len(),
{
    if path.len() == 0 {
        match prefix {
            Some(p) => p,
            None => "$"@,
        }
    } else {
        path_text(Some(path_step(prefix, path[0])), path.drop_first())
    }
}

/// The leaves with their paths written down.
pub open spec fn written(prefix: Option<Seq<char>>, all: Seq<Leaf>) -> Seq<(Seq<char>, JsonTree)> {
    all.map_values(|l: Leaf| (path_text(prefix, l.0), l.1))
}

/// The models of listed entries.
pub open spec fn listed(entries: Seq<(String, &Json)>) -> Seq<(Seq<char>, JsonTree)> {
    entries.map_values(|e: (String, &Json)| (e.0@, e.1@))
}

/// The view of an optional prefix.
pub open spec fn prefix_view(prefix: Option<&str>) -> Option<Seq<char>> {
    match prefix {
        Some(p) => Some(p@),
        None => None,
    }
}

proof fn lemma_written_under(prefix: Option<Seq<char>>, segment: Segment, all: Seq<Leaf>)
    ensures
        written(prefix, under(segment, all)) == written(Some(path_step(prefix, segment)), all),
{
    assert forall|i: int| 0 <= i < all.len() implies #[trigger] written(
        prefix,
        under(segment, all),
    )[i] == written(Some(path_step(prefix, segment)), all)[i] by {
        let p = seq![segment] + all[i].0;
        assert(p[0] == segment);
        assert(p.drop_first() == all[i].0);
    }
    assert(written(prefix, under(segment, all)) =~= written(
        Some(path_step(prefix, segment)),
        all,
    ));
}

proof fn lemma_written_concat(prefix: Option<Seq<char>>, a: Seq<Leaf>, b: Seq<Leaf>)
    ensures
        written(prefix, a + b) == written(prefix, a) + written(prefix, b),
{
    assert(written(prefix, a + b) =~= written(prefix, a) + written(prefix, b));
}

/// How a path is written that goes on to a key.
fn key_path(prefix: Option<&str>, key: &str) -> (r: String)
    ensures
        r@ == path_step(prefix_view(prefix), Segment::Key(key@)),
{
    let mut out = String::new();
    match prefix {
        Some(p) => {
            if !p.is_empty() {
                out.append(p);
                out.append(".");
            }
        },
        None => {},
    }
    out.append(key);
    assert(out@ =~= path_step(prefix_view(prefix), Segment::Key(key@)));
    out
}

/// How a path is written that goes on to an index.
fn index_path(prefix: Option<&str>, index: usize) -> (r: String)
    ensures
        r@ == path_step(prefix_view(prefix), Segment::Index(index as nat)),
{
    let mut out = String::new();
    match prefix {
        Some(p) => {
            out.append(p);
        },
        None => {},
    }
    out.append("[");
    let numeral = decimal_text(index as u64);
    out.append(numeral.as_str());
    out.append("]");
    assert(out@ =~= path_step(prefix_view(prefix), Segment::Index(index as nat)));
    out
}

/// Lists the leaves of the value, in order, behind what is listed already.
pub fn collect_config_entries<'a>(
    value: &'a Json,
    prefix: Option<&str>,
    out: &mut Vec<(String, &'a Json)>,
)
    ensures
        listed(final(out)@) == listed(old(out)@) + written(prefix_view(prefix), leaves(value@)),
    decreases value@,
{
    broadcast use array_tree, object_tree;

    let ghost start = listed(out@);
    let ghost p = prefix_view(prefix);
    match value {
        Json::Object(entries) => {
            if entries.len() > 0 {
                let ghost trees = entry_trees(entries@);
                let mut i: usize = 0;
                assert(written(p, leaves_below(value@, 0)) =~= Seq::empty());
                while i < entries.len()
                    invariant
                        i <= entries.len(),
                        trees == entry_trees(entries@),
                        value@ == JsonTree::Object(trees),
                        p == prefix_view(prefix),
                        listed(out@) == start + written(p, leaves_below(value@, i as nat)),
                    decreases entries.len() - i,
                {
                    assert(trees[i as int] == (entries@[i as int].0@, entries@[i as int].1@));
                    assert(decreases_to!(value@ => value@->Object_0));
                    assert(decreases_to!(trees => trees[i as int]));
                    assert(decreases_to!(trees[i as int] => trees[i as int].1));
                    let next = key_path(prefix, entries[i].0.as_str());
                    collect_config_entries(&entries[i].1, Some(next.as_str()), out);
                    proof {
                        let done = leaves_below(value@, i as nat);
                        let more = under(
                            Segment::Key(trees[i as int].0),
                            leaves(trees[i as int].1),
                        );
                        lemma_written_under(
                            p,
                            Segment::Key(trees[i as int].0),
                            leaves(trees[i as int].1),
                        );
                        lemma_written_concat(p, done, more);
                        assert(leaves_below(value@, (i + 1) as nat) == done + more);
                        assert(listed(out@) =~= start + (written(p, done) + written(p, more)));
                    }
                    i += 1;
                }
                return;
            }
        },
        Json::Array(items) => {
            if items.len() > 0 {
                let ghost trees = item_trees(items@);
                let mut i: usize = 0;
                assert(written(p, leaves_below(value@, 0)) =~= Seq::empty());
                while i < items.len()
                    invariant
                        i <= items.len(),
                        trees == item_trees(items@),
                        value@ == JsonTree::Array(trees),
                        p == prefix_view(prefix),
                        listed(out@) == start + written(p, leaves_below(value@, i as nat)),
                    decreases items.len() - i,
                {
                    assert(trees[i as int] == items@[i as int]@);
                    assert(decreases_to!(value@ => value@->Array_0));
                    assert(decreases_to!(trees => trees[i as int]));
                    let next = index_path(prefix, i);
                    collect_config_entries(&items[i], Some(next.as_str()), out);
                    proof {
                        let done = leaves_below(value@, i as nat);
                        let more = under(Segment::Index(i as nat), leaves(trees[i as int]));
                        lemma_written_under(p, Segment::Index(i as nat), leaves(trees[i as int]));
                        lemma_written_concat(p, done, more);
                        assert(leaves_below(value@, (i + 1) as nat) == done + more);
                        assert(listed(out@) =~= start + (written(p, done) + written(p, more)));
                    }
                    i += 1;
                }
                return;
            }
        },
        _ => {},
    }
    let path = match prefix {
        Some(p) => p.to_owned(),
        None => "$".to_owned(),
    };
    let ghost name = path@;
    out.push((path, value));
    assert(width(value@) == 0);
    assert(listed(out@) =~= start.push((name, value@)));
    assert(written(p, leaves(value@)) =~= seq![(name, value@)]);
}

/// The leaves of a document under their paths, in the order of the document.
pub fn flatten_config_entries<'a>(root: &'a Json, prefix: Option<&str>) -> (r: Vec<
    (String, &'a Json),
>)
    ensures
        listed(r@) == written(prefix_view(prefix), leaves(root@)),
{
    let mut out: Vec<(String, &'a Json)> = Vec::new();
    assert(listed(out@) =~= Seq::empty());
    collect_config_entries(root, prefix, &mut out);
    assert(Seq::empty() + written(prefix_view(prefix), leaves(root@)) =~= written(
        prefix_view(prefix),
        leaves(root@),
    ));
    out
}

/// The bytes by which listed entries are ordered: those of their paths.
pub open spec fn path_keys(entries: Seq<(Seq<char>, JsonTree)>) -> Seq<Seq<u8>> {
    entries.map_values(|e: (Seq<char>, JsonTree)| encode_utf8(e.0))
}

/// The entries in the order of their paths; entries with equal paths stay in order.
pub open spec fn by_path(entries: Seq<(Seq<char>, JsonTree)>) -> Seq<(Seq<char>, JsonTree)> {
    sorted_indices(path_keys(entries), entries.len()).map_values(|k: usize| entries[k as int])
}

/// The entries in the order of their paths.
pub fn sorted_config_entries<'a>(root: &'a Json, prefix: Option<&str>) -> (r: Vec<
    (String, &'a Json),
>)
    ensures
        listed(r@) == by_path(written(prefix_view(prefix), leaves(root@))),
{
    let entries = flatten_config_entries(root, prefix);
    let ghost all = listed(entries@);
    let mut keys: Vec<Vec<u8>> = Vec::new();
    let mut i: usize = 0;
    while i < entries.len()
        invariant
            i <= entries.len(),
            all == listed(entries@),
            key_views(keys@) == path_keys(all).take(i as int),
        decreases entries.len() - i,
    {
        let ghost before = key_views(keys@);
        let key = vstd::slice::slice_to_vec(entries[i].0.as_str().as_bytes());
        assert(all[i as int].0 == entries@[i as int].0@);
        keys.push(key);
        assert(key_views(keys@) =~= before.push(key@));
        assert(path_keys(all).take(i + 1) =~= path_keys(all).take(i as int).push(
            path_keys(all)[i as int],
        ));
        i += 1;
    }
    assert(path_keys(all).take(i as int) =~= path_keys(all));
    let order = sort_indices(&keys);
    let mut out: Vec<(String, &'a Json)> = Vec::new();
    let mut j: usize = 0;
    while j < order.len()
        invariant
            j <= order.len(),
            all == listed(entries@),
            order@ == sorted_indices(path_keys(all), all.len()),
            forall|k: int| 0 <= k < order.len() ==> (#[trigger] order@[k]) < entries.len(),
            listed(out@) == by_path(all).take(j as int),
        decreases order.len() - j,
    {
        let ghost before = listed(out@);
        let k: usize = order[j];
        out.push((entries[k].0.clone(), entries[k].1));
        assert(all[k as int] == (entries@[k as int].0@, entries@[k as int].1@));
        assert(listed(out@) =~= before.push(all[k as int]));
        assert(by_path(all).take(j + 1) =~= by_path(all).take(j as int).push(
            by_path(all)[j as int],
        ));
        j += 1;
    }
    assert(by_path(all).take(j as int) =~= by_path(all));
    out
}

/// The paths of the leaves of a document, in the order of the document.
pub fn flatten_config_paths(root: &Json, prefix: Option<&str>) -> (r: Vec<String>)
    ensures
        texts(r@) == written(prefix_view(prefix), leaves(root@)).map_values(
            |e: (Seq<char>, JsonTree)| e.0,
        ),
{
    let entries = flatten_config_entries(root, prefix);
    paths_of(&entries)
}

/// The paths of the leaves of a document, in order.
pub fn sorted_config_paths(root: &Json) -> (r: Vec<String>)
    ensures
        texts(r@) == by_path(written(None, leaves(root@))).map_values(
            |e: (Seq<char>, JsonTree)| e.0,
        ),
{
    let entries = sorted_config_entries(root, None);
    paths_of(&entries)
}

/// The paths of listed entries.
fn paths_of(entries: &Vec<(String, &Json)>) -> (r: Vec<String>)
    ensures
        texts(r@) == listed(entries@).map_values(|e: (Seq<char>, JsonTree)| e.0),
{
    let ghost all = listed(entries@).map_values(|e: (Seq<char>, JsonTree)| e.0);
    let mut out: Vec<String> = Vec::new();
    let mut i: usize = 0;
    while i < entries.len()
        invariant
            i <= entries.len(),
            all == listed(entries@).map_values(|e: (Seq<char>, JsonTree)| e.0),
            texts(out@) == all.take(i as int),
        decreases entries.len() - i,
    {
        let ghost before = texts(out@);
        out.push(entries[i].0.clone());
        assert(texts(out@) =~= before.push(all[i as int]));
        assert(all.take(i + 1) =~= all.take(i as int).push(all[i as int]));
        i += 1;
    }
    assert(all.take(i as int) =~= all);
    out
}

// ---------------------------------------------------------------------------
// What a listing says
// ---------------------------------------------------------------------------

/// Whether no object in the document has a key twice.
pub open spec fn keys_distinct(v: JsonTree) -> bool
    decreases v,
{
    match v {
        JsonTree::Object(entries) => {
            &&& forall|i: int, j: int|
                0 <= i < j < entries.len() ==> (#[trigger] entries[i]).0 != (
                #[trigger] entries[j]).0
            &&& forall|i: int|
                0 <= i < entries.len() ==> keys_distinct((#[trigger] entries[i]).1)
        },
        JsonTree::Array(items) => forall|i: int|
            0 <= i < items.len() ==> keys_distinct(#[trigger] items[i]),
        _ => true,
    }
}

proof fn lemma_entry_of_distinct(entries: Seq<(Seq<char>, JsonTree)>, i: int, k: int)
    requires
        0 <= i <= k < entries.len(),
        forall|a: int, b: int|
            0 <= a < b < entries.len() ==> (#[trigger] entries[a]).0 != (#[trigger] entries[b]).0,
    ensures
        entry_from(entries, entries[k].0, i) == Some(k),
    decreases k - i,
{
    if i < k {
        assert(entries[i].0 != entries[k].0);
        lemma_entry_of_distinct(entries, i + 1, k);
    }
}

proof fn lemma_leaves_below(v: JsonTree, n: nat, i: int)
    requires
        keys_distinct(v),
        n <= width(v),
        0 <= i < leaves_below(v, n).len(),
    ensures
        value_at(v, leaves_below(v, n)[i].0) == Some(leaves_below(v, n)[i].1),
        width(leaves_below(v, n)[i].1) == 0,
    decreases v, n,
{
    let before = leaves_below(v, (n - 1) as nat);
    if i < before.len() {
        lemma_leaves_below(v, (n - 1) as nat, i);
    } else {
        let k = i - before.len();
        let (segment, child) = match v {
            JsonTree::Object(entries) => (Segment::Key(entries[n - 1].0), entries[n - 1].1),
            JsonTree::Array(items) => (Segment::Index((n - 1) as nat), items[n - 1]),
            _ => (Segment::Index(0), v),
        };
        match v {
            JsonTree::Object(entries) => {
                assert(keys_distinct(entries[n - 1].1));
                lemma_entry_of_distinct(entries, 0, n - 1);
                assert(decreases_to!(v => v->Object_0));
                assert(decreases_to!(entries => entries[n - 1]));
                assert(decreases_to!(entries[n - 1] => entries[n - 1].1));
            },
            JsonTree::Array(items) => {
                assert(keys_distinct(items[n - 1]));
                assert(decreases_to!(v => v->Array_0));
                assert(decreases_to!(items => items[n - 1]));
            },
            _ => {},
        }
        assert(step(v, segment) == Some(child));
        let inner = leaves(child);
        let path = seq![segment] + inner[k].0;
        assert(path.drop_first() == inner[k].0);
        assert(path[0] == segment);
        assert(leaves_below(v, n)[i] == under(segment, inner)[k]);
        assert(leaves_below(v, n)[i] == (path, inner[k].1));
        assert(value_at(v, path) == value_at(child, inner[k].0));
        if width(child) > 0 {
            lemma_leaves_below(child, width(child), k);
        } else {
            assert(inner[k].0.len() == 0);
        }
    }
}

/// Each listed value is the one that stands at its path, and is neither a filled object nor a
/// filled array.
pub proof fn listed_paths_lead_to_their_values(v: JsonTree, i: int)
    requires
        keys_distinct(v),
        0 <= i < leaves(v).len(),
    ensures
        value_at(v, leaves(v)[i].0) == Some(leaves(v)[i].1),
        width(leaves(v)[i].1) == 0,
{
    if width(v) > 0 {
        lemma_leaves_below(v, width(v), i);
    }
}

/// Whether the key can be written in a path: it is not empty, and holds ASCII characters other
/// than `.` and `[`.
pub open spec fn plain_key(key: Seq<char>) -> bool {
    &&& key.len() > 0
    &&& forall|i: int|
        0 <= i < key.len() ==> '\0' <= (#[trigger] key[i]) <= '\u{7f}' && key[i] != '.' && key[i] != '['
}

/// Whether the path can be written: its keys are plain, its indices fit in `usize`, and no key
/// follows an index.
pub open spec fn plain_path(path: Seq<Segment>) -> bool {
    &&& forall|i: int|
        0 <= i < path.len() ==> match #[trigger] path[i] {
            Segment::Key(key) => plain_key(key),
            Segment::Index(index) => index <= usize::MAX,
        }
    &&& forall|i: int|
        0 < i < path.len() && (#[trigger] path[i]) is Key ==> path[i - 1] is Key
}

/// How the rest of a path is written.
spec fn tail_text(path: Seq<Segment>, first: bool) -> Seq<char>
    decreases path.len(),
{
    if path.len() == 0 {
        Seq::empty()
    } else {
        (match path[0] {
            Segment::Key(key) => if first {
                key
            } else {
                seq!['.'] + key
            },
            Segment::Index(index) => seq!['['] + decimal(index) + seq![']'],
        }) + tail_text(path.drop_first(), false)
    }
}

proof fn lemma_plain_tail(path: Seq<Segment>)
    requires
        plain_path(path),
        path.len() > 0,
    ensures
        plain_path(path.drop_first()),
        match path[0] {
            Segment::Key(key) => plain_key(key),
            Segment::Index(index) => index <= usize::MAX,
        },
{
    let rest = path.drop_first();
    assert forall|i: int| 0 <= i < rest.len() implies match #[trigger] rest[i] {
        Segment::Key(key) => plain_key(key),
        Segment::Index(index) => index <= usize::MAX,
    } by {
        assert(rest[i] == path[i + 1]);
    }
    assert forall|i: int| 0 < i < rest.len() && (
    #[trigger] rest[i]) is Key implies rest[i - 1] is Key by {
        assert(rest[i] == path[i + 1] && rest[i - 1] == path[i]);
    }
}

proof fn lemma_path_text(prefix: Option<Seq<char>>, path: Seq<Segment>)
    requires
        plain_path(path),
        prefix matches Some(p) ==> p.len() > 0,
        prefix is None ==> path.len() > 0,
    ensures
        prefix matches Some(p) ==> path_text(prefix, path) == p + tail_text(path, false),
        prefix is None ==> path_text(prefix, path) == tail_text(path, true),
    decreases path.len(),
{
    reveal_strlit(".");
    reveal_strlit("[");
    reveal_strlit("]");
    assert("."@ =~= seq!['.']);
    assert("["@ =~= seq!['[']);
    assert("]"@ =~= seq![']']);
    if path.len() > 0 {
        let next = path_step(prefix, path[0]);
        let rest = path.drop_first();
        lemma_plain_tail(path);
        assert(next.len() > 0) by {
            assert(match path[0] {
                Segment::Key(key) => plain_key(key),
                Segment::Index(index) => index <= usize::MAX,
            });
        }
        lemma_path_text(Some(next), rest);
        if prefix is Some {
            assert(next + tail_text(rest, false) =~= prefix->0 + tail_text(path, false));
        } else {
            assert(next + tail_text(rest, false) =~= tail_text(path, true));
        }
    } else if prefix is Some {
        assert(prefix->0 + Seq::<char>::empty() =~= prefix->0);
    }
}

proof fn lemma_tail_ascii(path: Seq<Segment>, first: bool)
    requires
        plain_path(path),
    ensures
        forall|i: int|
            0 <= i < tail_text(path, first).len() ==> '\0' <= (#[trigger] tail_text(path, first)[i])
                <= '\u{7f}',
    decreases path.len(),
{
    if path.len() > 0 {
        let rest = path.drop_first();
        lemma_plain_tail(path);
        lemma_tail_ascii(rest, false);
        match path[0] {
            Segment::Key(key) => {
                assert(plain_key(key));
            },
            Segment::Index(index) => {
                lemma_decimal_digits(index);
            },
        }
        let t = tail_text(path, first);
        let r = tail_text(rest, false);
        let h = t.len() - r.len();
        assert forall|i: int| 0 <= i < t.len() implies '\0' <= (#[trigger] t[i]) <= '\u{7f}' by {
            if i >= h {
                assert(t[i] == r[i - h]);
            } else {
                match path[0] {
                    Segment::Key(key) => {
                        if first {
                            assert(t[i] == key[i]);
                        } else if i > 0 {
                            assert(t[i] == key[i - 1]);
                        }
                    },
                    Segment::Index(index) => {
                        let d = decimal(index);
                        if 0 < i <= d.len() {
                            assert(t[i] == d[i - 1]);
                            assert(ascii_digit(d[i - 1]));
                        }
                    },
                }
            }
        }
    }
}

/// The bytes of ASCII characters.
spec fn ascii_bytes(s: Seq<char>) -> Seq<u8> {
    s.map_values(|c: char| c as u8)
}

proof fn lemma_key_run(b: Seq<u8>, i: int, end: int)
    requires
        0 <= i <= end <= b.len(),
        forall|j: int| i <= j < end ==> key_byte(#[trigger] b[j]),
        end < b.len() ==> !key_byte(b[end]),
    ensures
        key_end(b, i) == end,
    decreases end - i,
{
    if i < end {
        assert(key_byte(b[i]));
        lemma_key_run(b, i + 1, end);
    }
}

proof fn lemma_digit_run(b: Seq<u8>, i: int, end: int)
    requires
        0 <= i <= end < b.len(),
        forall|j: int| i <= j < end ==> digit_byte(#[trigger] b[j]),
        !digit_byte(b[end]),
    ensures
        digits_end(b, i) == end,
    decreases end - i,
{
    if i < end {
        assert(digit_byte(b[i]));
        lemma_digit_run(b, i + 1, end);
    }
}

/// The first byte of what follows a key or an index cannot stand in a key.
proof fn lemma_tail_head(path: Seq<Segment>)
    ensures
        tail_text(path, false).len() > 0 ==> tail_text(path, false)[0] == '.' || tail_text(
            path,
            false,
        )[0] == '[',
{
}

/// The bytes of a key, followed by what cannot stand in a key, are read as that key.
proof fn lemma_key_reads_back(
    b: Seq<u8>,
    at: int,
    key: Seq<char>,
    rest: Seq<Segment>,
    previous: Previous,
)
    requires
        0 <= at,
        at + key.len() <= b.len(),
        plain_key(key),
        b.subrange(at, at + key.len()) == ascii_bytes(key),
        at + key.len() < b.len() ==> !key_byte(b[at + key.len()]),
        path_from(b, at + key.len(), Previous::Key) == Ok::<Seq<Segment>, ConfigPathError>(rest),
    ensures
        path_from(b, at, previous) == Ok::<Seq<Segment>, ConfigPathError>(
            seq![Segment::Key(key)] + rest,
        ),
{
    let end = at + key.len();
    let part = b.subrange(at, end);
    assert forall|j: int| at <= j < end implies key_byte(#[trigger] b[j]) by {
        assert(part[j - at] == key[j - at] as u8);
    }
    lemma_key_run(b, at, end);
    assert(byte_chars(part) =~= key) by {
        assert forall|j: int| 0 <= j < key.len() implies byte_chars(part)[j] == key[j] by {
            assert(part[j] == key[j] as u8);
        }
    }
    assert(key_byte(b[at]));
}

/// The bytes of an index, followed by what cannot stand in a key, are read as that index.
proof fn lemma_index_reads_back(
    b: Seq<u8>,
    at: int,
    index: nat,
    rest: Seq<Segment>,
    previous: Previous,
)
    requires
        0 <= at,
        at + decimal(index).len() + 2 <= b.len(),
        index <= usize::MAX,
        b[at] == 91,
        b.subrange(at + 1, at + 1 + decimal(index).len()) == ascii_bytes(decimal(index)),
        b[at + 1 + decimal(index).len()] == 93,
        at + decimal(index).len() + 2 < b.len() ==> !key_byte(b[at + decimal(index).len() + 2]),
        path_from(b, at + decimal(index).len() + 2, Previous::Other) == Ok::<
            Seq<Segment>,
            ConfigPathError,
        >(rest),
    ensures
        path_from(b, at, previous) == Ok::<Seq<Segment>, ConfigPathError>(
            seq![Segment::Index(index)] + rest,
        ),
{
    let d = decimal(index);
    lemma_decimal_digits(index);
    decimal_reads_back(index);
    let end = at + 1 + d.len();
    let part = b.subrange(at + 1, end);
    assert forall|j: int| at + 1 <= j < end implies digit_byte(#[trigger] b[j]) by {
        assert(part[j - at - 1] == d[j - at - 1] as u8);
        assert(ascii_digit(d[j - at - 1]));
    }
    lemma_digit_run(b, at + 1, end);
    assert(byte_chars(part) =~= d) by {
        assert forall|j: int| 0 <= j < d.len() implies byte_chars(part)[j] == d[j] by {
            assert(part[j] == d[j] as u8);
            assert(ascii_digit(d[j]));
        }
    }
}

proof fn lemma_bytes_cut(b: Seq<u8>, i: int, t: Seq<char>, from: int, to: int)
    requires
        0 <= i <= b.len(),
        b.skip(i) == ascii_bytes(t),
        0 <= from <= to <= t.len(),
    ensures
        i + t.len() == b.len(),
        b.subrange(i + from, i + to) == ascii_bytes(t.subrange(from, to)),
        b.skip(i + to) == ascii_bytes(t.skip(to)),
{
    assert(b.skip(i).len() == t.len());
    assert forall|j: int| 0 <= j < t.len() implies b[i + j] == (#[trigger] t[j]) as u8 by {
        assert(b.skip(i)[j] == ascii_bytes(t)[j]);
    }
    assert forall|j: int| 0 <= j < to - from implies b.subrange(i + from, i + to)[j]
        == ascii_bytes(t.subrange(from, to))[j] by {
        assert(b[i + (from + j)] == t[from + j] as u8);
    }
    assert(b.subrange(i + from, i + to) =~= ascii_bytes(t.subrange(from, to)));
    assert forall|j: int| 0 <= j < t.len() - to implies b.skip(i + to)[j] == ascii_bytes(
        t.skip(to),
    )[j] by {
        assert(b[i + (to + j)] == t[to + j] as u8);
    }
    assert(b.skip(i + to) =~= ascii_bytes(t.skip(to)));
}

proof fn lemma_byte_at(b: Seq<u8>, i: int, t: Seq<char>, k: int)
    requires
        0 <= i <= b.len(),
        b.skip(i) == ascii_bytes(t),
        0 <= k < t.len(),
    ensures
        i + k < b.len(),
        b[i + k] == t[k] as u8,
{
    assert(b.skip(i)[k] == ascii_bytes(t)[k]);
    assert(b.skip(i).len() == t.len());
}

proof fn lemma_tail_reads_back(
    b: Seq<u8>,
    i: int,
    path: Seq<Segment>,
    first: bool,
    previous: Previous,
)
    requires
        0 <= i <= b.len(),
        plain_path(path),
        b.skip(i) == ascii_bytes(tail_text(path, first)),
        path.len() > 0 && path[0] is Key && !first ==> previous == Previous::Key,
    ensures
        path_from(b, i, previous) == Ok::<Seq<Segment>, ConfigPathError>(path),
    decreases path.len(),
{
    let t = tail_text(path, first);
    assert(b.skip(i).len() == t.len());
    if path.len() == 0 {
        assert(path =~= Seq::empty());
    } else {
        let rest = path.drop_first();
        lemma_plain_tail(path);
        lemma_tail_head(rest);
        let r = tail_text(rest, false);
        let h = t.len() - r.len();
        assert(t.skip(h) =~= r);
        lemma_bytes_cut(b, i, t, 0, h);
        if r.len() > 0 {
            lemma_byte_at(b, i + h, r, 0);
        }
        assert(rest.len() > 0 && rest[0] is Key ==> path[0] is Key) by {
            if rest.len() > 0 {
                assert(path[1] == rest[0]);
            }
        }
        assert(seq![path[0]] + rest =~= path);
        match path[0] {
            Segment::Key(key) => {
                lemma_tail_reads_back(b, i + h, rest, false, Previous::Key);
                if first {
                    assert(t.subrange(0, h) =~= key);
                    lemma_key_reads_back(b, i, key, rest, previous);
                } else {
                    lemma_bytes_cut(b, i, t, 1, h);
                    assert(t.subrange(1, h) =~= key);
                    lemma_byte_at(b, i, t, 0);
                    lemma_key_reads_back(b, i + 1, key, rest, Previous::Other);
                }
            },
            Segment::Index(index) => {
                let d = decimal(index);
                lemma_tail_reads_back(b, i + h, rest, false, Previous::Other);
                lemma_byte_at(b, i, t, 0);
                lemma_byte_at(b, i, t, h - 1);
                lemma_bytes_cut(b, i, t, 1, h - 1);
                assert(t.subrange(1, h - 1) =~= d);
                assert(t[h - 1] == ']');
                lemma_index_reads_back(b, i, index, rest, previous);
            },
        }
    }
}

/// A path that is written down as in a listing is read back as the same path.
pub proof fn written_path_reads_back(path: Seq<Segment>)
    requires
        path.len() > 0,
        plain_path(path),
    ensures
        path_read(encode_utf8(path_text(None, path))) == Ok::<Seq<Segment>, ConfigPathError>(path),
{
    let t = path_text(None, path);
    lemma_path_text(None, path);
    lemma_tail_ascii(path, true);
    assert(vstd::utf8::is_ascii_chars(t)) by {
        assert forall|i: int| 0 <= i < t.len() implies '\0' <= (#[trigger] t[i]) <= '\u{7f}' by {}
    }
    vstd::utf8::is_ascii_chars_encode_utf8(t);
    let b = encode_utf8(t);
    assert(b =~= ascii_bytes(t));
    assert(b.skip(0) =~= b);
    assert(t.len() > 0) by {
        match path[0] {
            Segment::Key(key) => {
                assert(plain_key(key));
            },
            Segment::Index(index) => {},
        }
    }
    lemma_tail_reads_back(b, 0, path, true, Previous::Other);
}

} // verus!
