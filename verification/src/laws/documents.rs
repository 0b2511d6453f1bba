//! What keys, pointers and paths lead to in a document.
use vstd::prelude::*;

use crate::json::{entry_from, pointer_token, JsonTree};
use crate::laws::texts::{
    absent_patterns_change_nothing, first_piece_is_split_off, free_of,
    not_before_its_first_character, one_piece,
};
use crate::text::{has, lemma_find_from, matches_at, pieces};

verus! {

proof fn lemma_first_entry(
    entries: Seq<(Seq<char>, JsonTree)>,
    key: Seq<char>,
    i: int,
    k: int,
)
    requires
        0 <= i <= k < entries.len(),
        entries[k].0 == key,
        forall|j: int| i <= j < k ==> (#[trigger] entries[j]).0 != key,
    ensures
        entry_from(entries, key, i) == Some(k),
    decreases k - i,
{
    if i < k {
        assert(entries[i].0 != key);
        lemma_first_entry(entries, key, i + 1, k);
    }
}

proof fn lemma_no_entry(entries: Seq<(Seq<char>, JsonTree)>, key: Seq<char>, i: int)
    requires
        0 <= i <= entries.len(),
        forall|j: int| 0 <= j < entries.len() ==> (#[trigger] entries[j]).0 != key,
    ensures
        entry_from(entries, key, i) is None,
    decreases entries.len() - i,
{
    if i < entries.len() {
        assert(entries[i].0 != key);
        lemma_no_entry(entries, key, i + 1);
    }
}

/// At a key of an object stands the value of the first entry with that key, and nothing where there
/// is none.
pub proof fn keys_lead_to_their_values(entries: Seq<(Seq<char>, JsonTree)>, key: Seq<char>, k: int)
    requires
        0 <= k <= entries.len(),
        forall|j: int| 0 <= j < k ==> (#[trigger] entries[j]).0 != key,
        k < entries.len() ==> entries[k].0 == key,
    ensures
        JsonTree::Object(entries).get(key) == if k < entries.len() {
            Some(entries[k].1)
        } else {
            None
        },
{
    if k < entries.len() {
        lemma_first_entry(entries, key, 0, k);
    } else {
        lemma_no_entry(entries, key, 0);
    }
}

/// A text without the first character of a pattern does not hold it.
pub proof fn without_its_first_character(s: Seq<char>, p: Seq<char>)
    requires
        p.len() > 0,
        free_of(s, p[0]),
    ensures
        !(has(s, p)),
{
    not_before_its_first_character(s, p, s.len() as int);
    lemma_find_from(s, p, 0);
    if has(s, p) {
        let k = crate::text::find(s, p)->0;
        assert(matches_at(s, p, k));
    }
}

/// A pointer leads through an object by its first name and goes on from there.
pub proof fn pointers_lead_by_names(j: JsonTree, name: Seq<char>, rest: Seq<char>)
    requires
        j is Object,
        free_of(name, '/'),
        free_of(name, '~'),
        rest.len() == 0 || rest[0] == '/',
    ensures
        j.pointer(seq!['/'] + name + rest) == (match j.get(name) {
            Some(next) => next.pointer(rest),
            None => None,
        }),
        j.pointer(Seq::empty()) == Some(j),
{
    let gap = seq!['/'];
    let all = gap + name + rest;
    reveal_strlit("/");
    reveal_strlit("~1");
    reveal_strlit("~0");
    assert(all.subrange(0, 1) == "/"@);
    without_its_first_character(name, "~1"@);
    absent_patterns_change_nothing(name, "~1"@, "/"@);
    without_its_first_character(name, "~0"@);
    absent_patterns_change_nothing(name, "~0"@, "~"@);
    assert(pointer_token(name) == name);
    let none = Seq::<char>::empty();
    assert(all == none + gap + (name + rest));
    first_piece_is_split_off(none, '/', name + rest);
    let tokens = pieces(all, gap).drop_first();
    assert(tokens == pieces(name + rest, gap));
    if rest.len() == 0 {
        assert(name + rest == name);
        one_piece(name, '/');
        assert(tokens.drop_first() == Seq::<Seq<char>>::empty());
        if j.get(name) is Some {
            assert(j.get(name)->0.walk(tokens.drop_first()) == j.get(name));
        }
    } else {
        assert(name + rest == name + gap + rest.skip(1));
        first_piece_is_split_off(name, '/', rest.skip(1));
        assert(rest == none + gap + rest.skip(1));
        first_piece_is_split_off(none, '/', rest.skip(1));
        assert(pieces(rest, gap).drop_first() == pieces(rest.skip(1), gap));
        assert(tokens.drop_first() == pieces(rest.skip(1), gap));
        assert(rest.subrange(0, 1) == "/"@);
    }
    assert(tokens[0] == name);
    assert(j.pointer_step(name) == j.get(name));
}

/// A token without slashes and tildes leads a single step.
pub proof fn single_tokens_lead(j: JsonTree, token: Seq<char>)
    requires
        free_of(token, '/'),
        free_of(token, '~'),
    ensures
        j.pointer(seq!['/'] + token) == j.pointer_step(token),
{
    let gap = seq!['/'];
    let all = gap + token;
    reveal_strlit("/");
    reveal_strlit("~1");
    reveal_strlit("~0");
    assert(all.subrange(0, 1) == "/"@);
    without_its_first_character(token, "~1"@);
    absent_patterns_change_nothing(token, "~1"@, "/"@);
    without_its_first_character(token, "~0"@);
    absent_patterns_change_nothing(token, "~0"@, "~"@);
    assert(pointer_token(token) == token);
    let none = Seq::<char>::empty();
    assert(all == none + gap + token);
    first_piece_is_split_off(none, '/', token);
    one_piece(token, '/');
    let tokens = pieces(all, gap).drop_first();
    assert(tokens == seq![token]);
    assert(tokens.drop_first() == Seq::<Seq<char>>::empty());
    if j.pointer_step(token) is Some {
        assert(j.pointer_step(token)->0.walk(tokens.drop_first()) == j.pointer_step(token));
    }
}

} // verus!
