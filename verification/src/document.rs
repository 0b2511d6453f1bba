//! Reading, changing and listing the values of a configuration document.
use vstd::prelude::*;
use vstd::utf8::encode_utf8;

use crate::config::{segments, PathSegment, Segment};
use crate::json::{
    array_tree, entry_from, entry_position, entry_trees, item_trees, object_tree, some_tree, Json,
    JsonTree,
};
use crate::order::{bytes_less, comes_before};

verus! {

// ---------------------------------------------------------------------------
// Reading
// ---------------------------------------------------------------------------

/// One step from a document along a path.
pub open spec fn step(v: JsonTree, segment: Segment) -> Option<JsonTree> {
    match segment {
        Segment::Key(key) => v.get(key),
        Segment::Index(index) => v.item(index),
    }
}

/// What stands at a path of a document.
pub open spec fn value_at(v: JsonTree, path: Seq<Segment>) -> Option<JsonTree>
    decreases path.len(),
{
    if path.len() == 0 {
        Some(v)
    } else {
        match step(v, path[0]) {
            Some(next) => value_at(next, path.drop_first()),
            None => None,
        }
    }
}

/// What stands at a path of a document.
pub fn get_value_at_path<'a>(value: &'a Json, path: &[PathSegment]) -> (r: Option<&'a Json>)
    ensures
        some_tree(r) == value_at(value@, segments(path@)),
{
    let ghost all = segments(path@);
    let mut current: &'a Json = value;
    let mut i: usize = 0;
    assert(all.skip(0) == all);
    while i < path.len()
        invariant
            i <= path.len(),
            all == segments(path@),
            value_at(value@, all) == value_at(current@, all.skip(i as int)),
        decreases path.len() - i,
    {
        assert(all.skip(i as int)[0] == path@[i as int]@);
        assert(all.skip(i as int).drop_first() == all.skip(i + 1));
        let found = match &path[i] {
            PathSegment::Key(key) => current.get(key.as_str()),
            PathSegment::Index(index) => current.item(*index),
        };
        match found {
            Some(next) => {
                current = next;
            },
            None => {
                return None;
            },
        }
        i += 1;
    }
    Some(current)
}

// ---------------------------------------------------------------------------
// Changing
// ---------------------------------------------------------------------------

/// Why a value cannot be put at a path.
#[derive(Debug, PartialEq, Eq)]
pub enum SetPathError {
    /// The path has a key where the document has no object.
    NotAnObject(String),
    /// The path has an index where the document has no array.
    NotAnArray(usize),
}

/// What an error of setting a value is.
pub enum SetFailure {
    NotAnObject(Seq<char>),
    NotAnArray(nat),
}

impl View for SetPathError {
    type V = SetFailure;

    open spec fn view(&self) -> SetFailure {
        match self {
            SetPathError::NotAnObject(key) => SetFailure::NotAnObject(key@),
            SetPathError::NotAnArray(index) => SetFailure::NotAnArray(*index as nat),
        }
    }
}

/// The empty container in which a step can be taken.
pub open spec fn container_for(segment: Segment) -> JsonTree {
    match segment {
        Segment::Key(_) => JsonTree::Object(Seq::empty()),
        Segment::Index(_) => JsonTree::Array(Seq::empty()),
    }
}

/// The first position from `i` on with a key that comes after the given one, or the end.
pub open spec fn place_from(
    entries: Seq<(Seq<char>, JsonTree)>,
    key: Seq<char>,
    i: int,
) -> int
    decreases entries.len() - i,
{
    if i < 0 || i >= entries.len() {
        entries.len() as int
    } else if bytes_less(encode_utf8(key), encode_utf8(entries[i].0)) {
        i
    } else {
        place_from(entries, key, i + 1)
    }
}

/// The entries with the value at the key: in the place of the entry with that key or, if there is
/// none, before the first entry with a greater key.
pub open spec fn with_entry(
    entries: Seq<(Seq<char>, JsonTree)>,
    key: Seq<char>,
    value: JsonTree,
) -> Seq<(Seq<char>, JsonTree)> {
    match entry_from(entries, key, 0) {
        Some(i) => entries.update(i, (entries[i].0, value)),
        None => entries.insert(place_from(entries, key, 0), (key, value)),
    }
}

/// The items, with copies of `fill` behind them up to the position `index`.
pub open spec fn grown(items: Seq<JsonTree>, index: nat, fill: JsonTree) -> Seq<JsonTree> {
    if items.len() <= index {
        items + Seq::new((index + 1 - items.len()) as nat, |i: int| fill)
    } else {
        items
    }
}

/// The value in which the rest of a path is followed: a missing or null one gives way to an empty
/// container.
pub open spec fn slot(found: Option<JsonTree>, next: Segment) -> JsonTree {
    match found {
        Some(v) => if v is Null {
            container_for(next)
        } else {
            v
        },
        None => container_for(next),
    }
}

/// The document after the new value was put at the path, and why that failed if it did. Missing
/// containers on the way are made.
pub open spec fn set_at(v: JsonTree, path: Seq<Segment>, new: JsonTree) -> (
    JsonTree,
    Option<SetFailure>,
)
    decreases path.len(),
{
    if path.len() == 0 {
        (new, None)
    } else {
        match path[0] {
            Segment::Key(key) => match v {
                JsonTree::Object(entries) => if path.len() == 1 {
                    (JsonTree::Object(with_entry(entries, key, new)), None)
                } else {
                    let (child, failure) = set_at(
                        slot(v.get(key), path[1]),
                        path.drop_first(),
                        new,
                    );
                    (JsonTree::Object(with_entry(entries, key, child)), failure)
                },
                _ => (v, Some(SetFailure::NotAnObject(key))),
            },
            Segment::Index(index) => match v {
                JsonTree::Array(items) => if path.len() == 1 {
                    (
                        JsonTree::Array(
                            grown(items, index, JsonTree::Null).update(index as int, new),
                        ),
                        None,
                    )
                } else {
                    let more = grown(items, index, container_for(path[1]));
                    let (child, failure) = set_at(
                        slot(Some(more[index as int]), path[1]),
                        path.drop_first(),
                        new,
                    );
                    (JsonTree::Array(more.update(index as int, child)), failure)
                },
                _ => (v, Some(SetFailure::NotAnArray(index))),
            },
        }
    }
}

/// Whether no array on the way is asked for the position behind which there is no room for one
/// more item.
pub open spec fn room_at(v: JsonTree, path: Seq<Segment>) -> bool
    decreases path.len(),
{
    path.len() > 0 ==> match path[0] {
        Segment::Key(key) => v is Object && path.len() > 1 ==> room_at(
            slot(v.get(key), path[1]),
            path.drop_first(),
        ),
        Segment::Index(index) => v is Array ==> index < usize::MAX && (path.len() > 1 ==> room_at(
            slot(v.item(index), path[1]),
            path.drop_first(),
        )),
    }
}

/// The failure of setting a value, if there was one.
pub open spec fn set_failure(r: Result<(), SetPathError>) -> Option<SetFailure> {
    match r {
        Ok(_) => None,
        Err(e) => Some(e@),
    }
}

/// The empty container in which a step can be taken.
pub fn container_for_segment(segment: &PathSegment) -> (r: Json)
    ensures
        r@ == container_for(segment@),
{
    broadcast use array_tree, object_tree;

    match segment {
        PathSegment::Key(_) => {
            let r = Json::Object(Vec::new());
            assert(r@->Object_0 =~= Seq::empty());
            r
        },
        PathSegment::Index(_) => {
            let r = Json::Array(Vec::new());
            assert(r@->Array_0 =~= Seq::empty());
            r
        },
    }
}

/// The first position with a key that comes after the given one, or the end.
fn place_of(entries: &Vec<(String, Json)>, key: &str) -> (r: usize)
    ensures
        r == place_from(entry_trees(entries@), key@, 0),
        r <= entries.len(),
{
    let ghost trees = entry_trees(entries@);
    let mut i: usize = 0;
    while i < entries.len()
        invariant
            i <= entries.len(),
            trees == entry_trees(entries@),
            place_from(trees, key@, 0) == place_from(trees, key@, i as int),
        decreases entries.len() - i,
    {
        assert(trees[i as int].0 == entries@[i as int].0@);
        if comes_before(key.as_bytes(), entries[i].0.as_str().as_bytes()) {
            return i;
        }
        i += 1;
    }
    entries.len()
}

/// Puts the value at the key.
pub fn put_entry(entries: &mut Vec<(String, Json)>, key: &str, value: Json)
    ensures
        entry_trees(final(entries)@) == with_entry(entry_trees(old(entries)@), key@, value@),
{
    let ghost before = entry_trees(entries@);
    match entry_position(entries, key) {
        Some(i) => {
            let (name, _) = entries.remove(i);
            let ghost left = entries@;
            entries.insert(i, (name, value));
            assert(entry_trees(entries@) =~= before.update(i as int, (before[i as int].0, value@)));
        },
        None => {
            let i: usize = place_of(entries, key);
            let name = key.to_owned();
            entries.insert(i, (name, value));
            assert(entry_trees(entries@) =~= before.insert(i as int, (key@, value@)));
        },
    }
}

/// A tail of a path has the tail of its steps.
proof fn lemma_segments_tail(path: Seq<PathSegment>)
    requires
        path.len() > 0,
    ensures
        segments(path.subrange(1, path.len() as int)) == segments(path).drop_first(),
{
    assert(segments(path.subrange(1, path.len() as int)) =~= segments(path).drop_first());
}

/// Whether a value can be put at the path, or be refused there: whether no array on the way is
/// asked for the last position that can be named.
pub fn has_room(value: &Json, path: &[PathSegment]) -> (r: bool)
    ensures
        r == room_at(value@, segments(path@)),
    decreases path@.len(),
{
    broadcast use array_tree, object_tree;

    if path.len() == 0 {
        return true;
    }
    let ghost all = segments(path@);
    let rest = vstd::slice::slice_subrange(path, 1, path.len());
    proof {
        lemma_segments_tail(path@);
        assert(all[0] == path@[0]@);
        assert(all.len() > 1 ==> all[1] == path@[1]@);
    }
    let found = match &path[0] {
        PathSegment::Key(key) => match value {
            Json::Object(_) => value.get(key.as_str()),
            _ => {
                return true;
            },
        },
        PathSegment::Index(index) => match value {
            Json::Array(_) => {
                if *index == usize::MAX {
                    return false;
                }
                value.item(*index)
            },
            _ => {
                return true;
            },
        },
    };
    if path.len() == 1 {
        return true;
    }
    match found {
        Some(Json::Null) | None => {
            let made = container_for_segment(&path[1]);
            has_room(&made, rest)
        },
        Some(next) => has_room(next, rest),
    }
}

/// Puts the new value at the path, and makes the missing containers on the way.
pub fn set_value_at_path(value: &mut Json, path: &[PathSegment], new_value: Json) -> (r: Result<
    (),
    SetPathError,
>)
    requires
        room_at(old(value)@, segments(path@)),
    ensures
        (final(value)@, set_failure(r)) == set_at(old(value)@, segments(path@), new_value@),
    decreases path@.len(),
{
    broadcast use array_tree, object_tree;

    if path.len() == 0 {
        *value = new_value;
        return Ok(());
    }
    let ghost all = segments(path@);
    let ghost start = value@;
    let rest = vstd::slice::slice_subrange(path, 1, path.len());
    proof {
        lemma_segments_tail(path@);
        assert(all[0] == path@[0]@);
    }
    let mut current = Json::Null;
    std::mem::swap(&mut current, value);
    match &path[0] {
        PathSegment::Key(key) => match current {
            Json::Object(mut entries) => {
                let ghost before = entry_trees(entries@);
                assert(start == JsonTree::Object(before));
                if path.len() == 1 {
                    put_entry(&mut entries, key.as_str(), new_value);
                    *value = Json::Object(entries);
                    return Ok(());
                }
                assert(all[1] == path@[1]@);
                let mut child = container_for_segment(&path[1]);
                match entry_position(&entries, key.as_str()) {
                    Some(i) => {
                        let (name, found) = entries.remove(i);
                        assert(before[i as int] == (name@, found@));
                        let keep = match &found {
                            Json::Null => false,
                            _ => true,
                        };
                        assert(keep == !(found@ is Null));
                        if keep {
                            child = found;
                        }
                        assert(child@ == slot(start.get(key@), all[1]));
                        let r = set_value_at_path(&mut child, rest, new_value);
                        entries.insert(i, (name, child));
                        assert(entry_trees(entries@) =~= before.update(
                            i as int,
                            (before[i as int].0, child@),
                        ));
                        *value = Json::Object(entries);
                        r
                    },
                    None => {
                        let r = set_value_at_path(&mut child, rest, new_value);
                        put_entry(&mut entries, key.as_str(), child);
                        *value = Json::Object(entries);
                        r
                    },
                }
            },
            other => {
                *value = other;
                Err(SetPathError::NotAnObject(key.clone()))
            },
        },
        PathSegment::Index(index) => {
            let index: usize = *index;
            match current {
                Json::Array(mut items) => {
                    let ghost before = item_trees(items@);
                    assert(start == JsonTree::Array(before));
                    let ghost fill = if all.len() == 1 {
                        JsonTree::Null
                    } else {
                        container_for(all[1])
                    };
                    assert(all[0] == Segment::Index(index as nat));
                    assert(all.len() > 1 ==> all[1] == path@[1]@);
                    while items.len() <= index
                        invariant
                            index < usize::MAX,
                            path.len() >= 1,
                            path.len() > 1 ==> fill == container_for(path@[1]@),
                            path.len() == 1 ==> fill is Null,
                            items.len() <= index + 1 || items.len() == before.len(),
                            items.len() >= before.len(),
                            item_trees(items@) == before + Seq::new(
                                (items@.len() - before.len()) as nat,
                                |i: int| fill,
                            ),
                        decreases index + 1 - items.len(),
                    {
                        let ghost prior = item_trees(items@);
                        let more = if path.len() == 1 {
                            Json::Null
                        } else {
                            container_for_segment(&path[1])
                        };
                        items.push(more);
                        assert(item_trees(items@) =~= prior.push(fill));
                        assert(item_trees(items@) =~= before + Seq::new(
                            (items@.len() - before.len()) as nat,
                            |i: int| fill,
                        ));
                    }
                    assert(item_trees(items@) =~= grown(before, index as nat, fill));
                    let ghost wide = item_trees(items@);
                    let mut child = Json::Null;
                    let mut r: Result<(), SetPathError> = Ok(());
                    let found = items.remove(index);
                    assert(found@ == wide[index as int]);
                    if path.len() == 1 {
                        child = new_value;
                    } else {
                        let keep = match &found {
                            Json::Null => false,
                            _ => true,
                        };
                        assert(keep == !(found@ is Null));
                        if keep {
                            child = found;
                        } else {
                            child = container_for_segment(&path[1]);
                        }
                        assert(child@ == slot(start.item(index as nat), all[1]));
                        r = set_value_at_path(&mut child, rest, new_value);
                    }
                    items.insert(index, child);
                    assert(item_trees(items@) =~= wide.update(index as int, child@));
                    *value = Json::Array(items);
                    r
                },
                other => {
                    *value = other;
                    Err(SetPathError::NotAnArray(index))
                },
            }
        },
    }
}

// ---------------------------------------------------------------------------
// What setting a value keeps
// ---------------------------------------------------------------------------

proof fn lemma_entry_from(entries: Seq<(Seq<char>, JsonTree)>, key: Seq<char>, i: int)
    requires
        0 <= i,
    ensures
        entry_from(entries, key, i) matches Some(k) ==> i <= k < entries.len() && entries[k].0
            == key && (forall|j: int| i <= j < k ==> (#[trigger] entries[j]).0 != key),
        entry_from(entries, key, i) is None ==> forall|j: int|
            i <= j < entries.len() ==> (#[trigger] entries[j]).0 != key,
    decreases entries.len() - i,
{
    if i < entries.len() && entries[i].0 != key {
        lemma_entry_from(entries, key, i + 1);
    }
}

proof fn lemma_entry_is(entries: Seq<(Seq<char>, JsonTree)>, key: Seq<char>, i: int, k: int)
    requires
        0 <= i <= k < entries.len(),
        entries[k].0 == key,
        forall|j: int| i <= j < k ==> (#[trigger] entries[j]).0 != key,
    ensures
        entry_from(entries, key, i) == Some(k),
    decreases k - i,
{
    if i < k {
        assert(entries[i].0 != key);
        lemma_entry_is(entries, key, i + 1, k);
    }
}

proof fn lemma_place_from(entries: Seq<(Seq<char>, JsonTree)>, key: Seq<char>, i: int)
    requires
        0 <= i <= entries.len(),
    ensures
        i <= place_from(entries, key, i) <= entries.len(),
    decreases entries.len() - i,
{
    if i < entries.len() {
        lemma_place_from(entries, key, i + 1);
    }
}

/// Putting a value at a key makes it what stands there, and leaves the other keys alone.
pub proof fn entry_put_is_found(
    entries: Seq<(Seq<char>, JsonTree)>,
    key: Seq<char>,
    value: JsonTree,
    other: Seq<char>,
)
    ensures
        JsonTree::Object(with_entry(entries, key, value)).get(key) == Some(value),
        other != key ==> JsonTree::Object(with_entry(entries, key, value)).get(other)
            == JsonTree::Object(entries).get(other),
{
    lemma_entry_from(entries, key, 0);
    lemma_entry_from(entries, other, 0);
    let after = with_entry(entries, key, value);
    match entry_from(entries, key, 0) {
        Some(i) => {
            assert forall|j: int| 0 <= j < i implies (#[trigger] after[j]).0 != key by {
                assert(after[j] == entries[j]);
            }
            lemma_entry_is(after, key, 0, i);
            if other != key {
                match entry_from(entries, other, 0) {
                    Some(k) => {
                        assert(k != i);
                        assert forall|j: int| 0 <= j < k implies (#[trigger] after[j]).0
                            != other by {
                            if j != i {
                                assert(after[j] == entries[j]);
                            }
                        }
                        assert(after[k] == entries[k]);
                        lemma_entry_is(after, other, 0, k);
                    },
                    None => {
                        lemma_entry_from(after, other, 0);
                        if entry_from(after, other, 0) is Some {
                            let k = entry_from(after, other, 0)->0;
                            assert(entries[k].0 == other);
                        }
                    },
                }
            }
        },
        None => {
            let at = place_from(entries, key, 0);
            lemma_place_from(entries, key, 0);
            assert forall|j: int| 0 <= j < at implies (#[trigger] after[j]).0 != key by {
                assert(after[j] == entries[j]);
            }
            lemma_entry_is(after, key, 0, at);
            if other != key {
                match entry_from(entries, other, 0) {
                    Some(k) => {
                        let k2 = if k < at {
                            k
                        } else {
                            k + 1
                        };
                        assert forall|j: int| 0 <= j < k2 implies (#[trigger] after[j]).0
                            != other by {
                            if j < at {
                                assert(after[j] == entries[j]);
                            } else if j > at {
                                assert(after[j] == entries[j - 1]);
                            }
                        }
                        assert(after[k2] == entries[k]);
                        lemma_entry_is(after, other, 0, k2);
                    },
                    None => {
                        lemma_entry_from(after, other, 0);
                        if entry_from(after, other, 0) is Some {
                            let k = entry_from(after, other, 0)->0;
                            if k < at {
                                assert(entries[k].0 == other);
                            } else if k > at {
                                assert(entries[k - 1].0 == other);
                            }
                        }
                    },
                }
            }
        },
    }
}

/// A value that was put at a path is what is read there.
pub proof fn set_value_is_read_back(v: JsonTree, path: Seq<Segment>, new: JsonTree)
    requires
        set_at(v, path, new).1 is None,
    ensures
        value_at(set_at(v, path, new).0, path) == Some(new),
    decreases path.len(),
{
    if path.len() > 0 {
        let after = set_at(v, path, new).0;
        let tail = path.drop_first();
        match path[0] {
            Segment::Key(key) => {
                let entries = v->Object_0;
                if path.len() == 1 {
                    entry_put_is_found(entries, key, new, key);
                    assert(value_at(new, tail) == Some(new));
                } else {
                    let child = set_at(slot(v.get(key), path[1]), tail, new).0;
                    set_value_is_read_back(slot(v.get(key), path[1]), tail, new);
                    entry_put_is_found(entries, key, child, key);
                }
            },
            Segment::Index(index) => {
                let items = v->Array_0;
                if path.len() == 1 {
                    assert(after.item(index) == Some(new));
                    assert(value_at(new, tail) == Some(new));
                } else {
                    let more = grown(items, index, container_for(path[1]));
                    set_value_is_read_back(slot(Some(more[index as int]), path[1]), tail, new);
                }
            },
        }
    }
}

/// Whether the paths part at some step, so that neither leads through the other.
pub open spec fn paths_part(p: Seq<Segment>, q: Seq<Segment>) -> bool
    decreases p.len(),
{
    p.len() > 0 && q.len() > 0 && (p[0] != q[0] || paths_part(p.drop_first(), q.drop_first()))
}

/// Putting a value at a path, whether or not that fails, keeps every value that stands at a path
/// that parts from it.
pub proof fn set_value_keeps_other_paths(
    v: JsonTree,
    path: Seq<Segment>,
    new: JsonTree,
    other: Seq<Segment>,
)
    requires
        paths_part(path, other),
        value_at(v, other) is Some,
    ensures
        value_at(set_at(v, path, new).0, other) == value_at(v, other),
    decreases path.len(),
{
    let after = set_at(v, path, new).0;
    let tail = path.drop_first();
    let other_tail = other.drop_first();
    match path[0] {
        Segment::Key(key) => {
            if v is Object {
                let entries = v->Object_0;
                let child = if path.len() == 1 {
                    new
                } else {
                    set_at(slot(v.get(key), path[1]), tail, new).0
                };
                let asked = other[0]->Key_0;
                entry_put_is_found(entries, key, child, asked);
                if other[0] == path[0] {
                    assert(paths_part(tail, other_tail));
                    let found = v.get(key)->0;
                    assert(step(v, other[0]) == v.get(key));
                    assert(value_at(found, other_tail) is Some);
                    assert(!(found is Null)) by {
                        assert(step(found, other_tail[0]) is Some);
                    }
                    set_value_keeps_other_paths(found, tail, new, other_tail);
                }
            }
        },
        Segment::Index(index) => {
            if v is Array {
                let items = v->Array_0;
                if other[0] == path[0] {
                    assert(paths_part(tail, other_tail));
                    let found = items[index as int];
                    assert(step(v, other[0]) == v.item(index));
                    assert(value_at(found, other_tail) is Some);
                    assert(!(found is Null)) by {
                        assert(step(found, other_tail[0]) is Some);
                    }
                    set_value_keeps_other_paths(found, tail, new, other_tail);
                }
            }
        },
    }
}

} // verus!
