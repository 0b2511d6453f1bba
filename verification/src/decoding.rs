//! Decoding a text that was written as HTML gives the text back.
use vstd::prelude::*;

use crate::posts::{decoded, unescaped};
use crate::present::{escape_char, escaped};
use crate::text::{matches_at, replace, replace_from, trim};

verus! {

/// The character reference that a step of decoding resolves.
spec fn reference(n: int) -> Seq<char> {
    if n == 1 {
        "&quot;"@
    } else if n == 2 {
        "&#x27;"@
    } else if n == 3 {
        "&lt;"@
    } else if n == 4 {
        "&gt;"@
    } else {
        "&amp;"@
    }
}

/// What a step of decoding puts in the place of the reference.
spec fn meaning(n: int) -> Seq<char> {
    if n == 1 {
        "\""@
    } else if n == 2 {
        "'"@
    } else if n == 3 {
        "<"@
    } else if n == 4 {
        ">"@
    } else {
        "&"@
    }
}

/// How a character stands in an escaped text after so many steps of decoding.
spec fn stage(n: int, c: char) -> Seq<char> {
    if (c == '"' && n >= 1) || (c == '<' && n >= 3) || (c == '>' && n >= 4) || (c == '&' && n >= 5) {
        seq![c]
    } else {
        escape_char(c)
    }
}

/// How a text stands, escaped, after so many steps of decoding.
spec fn staged(n: int, s: Seq<char>) -> Seq<char>
    decreases s.len(),
{
    if s.len() == 0 {
        Seq::empty()
    } else {
        staged(n, s.drop_last()) + stage(n, s.last())
    }
}

/// Whether a text is a character reference: an ampersand, then a semicolon at the end, and no
/// other of the two.
spec fn is_reference(t: Seq<char>) -> bool {
    &&& t.len() >= 2
    &&& t[0] == '&'
    &&& t.last() == ';'
    &&& forall|j: int| 0 < j < t.len() ==> #[trigger] t[j] != '&'
    &&& forall|j: int| 0 <= j < t.len() - 1 ==> #[trigger] t[j] != ';'
}

/// Whether a text is a character reference or a single character that begins none.
spec fn is_token(t: Seq<char>) -> bool {
    is_reference(t) || (t.len() == 1 && t[0] != '&')
}

proof fn lemma_references(n: int)
    requires
        1 <= n <= 5,
    ensures
        is_reference(reference(n)),
{
    reveal_strlit("&quot;");
    reveal_strlit("&#x27;");
    reveal_strlit("&lt;");
    reveal_strlit("&gt;");
    reveal_strlit("&amp;");
}

/// Before each step a character stands as a token, and the step resolves it if it is the
/// reference.
proof fn lemma_stage(n: int, c: char)
    requires
        1 <= n <= 5,
    ensures
        is_token(stage(n - 1, c)),
        stage(n, c) == if stage(n - 1, c) == reference(n) {
            meaning(n)
        } else {
            stage(n - 1, c)
        },
{
    reveal_strlit("&quot;");
    reveal_strlit("&#x27;");
    reveal_strlit("&lt;");
    reveal_strlit("&gt;");
    reveal_strlit("&amp;");
    reveal_strlit("\"");
    reveal_strlit("'");
    reveal_strlit("<");
    reveal_strlit(">");
    reveal_strlit("&");
    assert("&quot;"@.len() == 6 && "&quot;"@[1] == 'q');
    assert("&#x27;"@.len() == 6 && "&#x27;"@[1] == '#');
    assert("&lt;"@.len() == 4 && "&lt;"@[1] == 'l');
    assert("&gt;"@.len() == 4 && "&gt;"@[1] == 'g');
    assert("&amp;"@.len() == 5);
    assert("\""@ == seq!['"']);
    assert("<"@ == seq!['<']);
    assert(">"@ == seq!['>']);
    assert("&"@ == seq!['&']);
    assert(is_reference("&quot;"@));
    assert(is_reference("&lt;"@));
    assert(is_reference("&gt;"@));
    assert(is_reference("&amp;"@));
    assert(seq![c].len() == 1);
}

proof fn lemma_staged_append(n: int, a: Seq<char>, b: Seq<char>)
    ensures
        staged(n, a + b) == staged(n, a) + staged(n, b),
    decreases b.len(),
{
    if b.len() == 0 {
        assert(a + b == a);
    } else {
        lemma_staged_append(n, a, b.drop_last());
        assert((a + b).drop_last() == a + b.drop_last());
        assert((a + b).last() == b.last());
    }
}

proof fn lemma_staged_one(n: int, c: char)
    ensures
        staged(n, seq![c]) == stage(n, c),
{
    reveal_with_fuel(staged, 2);
    assert(seq![c].drop_last() == Seq::<char>::empty());
}

/// Where a pattern does not stand, replacing passes over the text.
proof fn lemma_passed_over(s: Seq<char>, p: Seq<char>, q: Seq<char>, i: int, m: int)
    requires
        p.len() > 0,
        0 <= i,
        0 <= m,
        i + m <= s.len(),
        forall|j: int| i <= j < i + m ==> !(#[trigger] matches_at(s, p, j)),
    ensures
        replace_from(s, p, q, i) == s.subrange(i, i + m) + replace_from(s, p, q, i + m),
    decreases m,
{
    if m > 0 {
        assert(!(matches_at(s, p, i)));
        lemma_passed_over(s, p, q, i + 1, m - 1);
        assert(s.subrange(i, i + m) == seq![s[i]] + s.subrange(i + 1, i + m));
    } else {
        assert(s.subrange(i, i + m) == Seq::<char>::empty());
    }
}

/// A reference stands where a token begins only if it is that token, and nowhere inside it.
proof fn lemma_matches_tokens(s: Seq<char>, t: Seq<char>, p: Seq<char>, i: int, j: int)
    requires
        is_token(t),
        is_reference(p),
        0 <= i <= j < i + t.len() <= s.len(),
        s.subrange(i, i + t.len()) == t,
    ensures
        matches_at(s, p, j) <==> (j == i && t == p),
{
    assert forall|k: int| 0 <= k < t.len() implies #[trigger] t[k] == s[i + k] by {
        assert(s.subrange(i, i + t.len())[k] == s[i + k]);
    }
    if matches_at(s, p, j) {
        assert forall|k: int| 0 <= k < p.len() implies #[trigger] p[k] == s[j + k] by {
            assert(s.subrange(j, j + p.len())[k] == s[j + k]);
        }
        assert(t[j - i] == '&');
        assert(j == i);
        if p.len() < t.len() {
            assert(t[p.len() - 1] == ';');
        } else if t.len() < p.len() {
            assert(p[t.len() - 1] == ';');
        }
        assert(t.len() == p.len());
        assert(t == p);
    }
}

/// A step of decoding resolves its reference from the character at `k` on.
proof fn lemma_step_from(n: int, s: Seq<char>, k: int)
    requires
        1 <= n <= 5,
        0 <= k <= s.len(),
    ensures
        replace_from(
            staged(n - 1, s),
            reference(n),
            meaning(n),
            staged(n - 1, s.take(k)).len() as int,
        ) == staged(n, s.skip(k)),
    decreases s.len() - k,
{
    let all = staged(n - 1, s);
    let p = reference(n);
    let q = meaning(n);
    let i = staged(n - 1, s.take(k)).len() as int;
    lemma_references(n);
    if k == s.len() {
        assert(s.take(k) == s);
        assert(s.skip(k) == Seq::<char>::empty());
    } else {
        let c = s[k];
        let t = stage(n - 1, c);
        let rest = s.skip(k + 1);
        lemma_stage(n, c);
        lemma_step_from(n, s, k + 1);
        lemma_staged_one(n - 1, c);
        lemma_staged_one(n, c);
        lemma_staged_append(n - 1, s.take(k), seq![c]);
        assert(s.take(k) + seq![c] == s.take(k + 1));
        lemma_staged_append(n - 1, s.take(k + 1), rest);
        assert(s.take(k + 1) + rest == s);
        lemma_staged_append(n, seq![c], rest);
        assert(seq![c] + rest == s.skip(k));
        assert(all == staged(n - 1, s.take(k)) + t + staged(n - 1, rest));
        assert(all.subrange(i, i + t.len()) == t);
        assert(staged(n - 1, s.take(k + 1)).len() == i + t.len());
        if t == p {
            lemma_matches_tokens(all, t, p, i, i);
        } else {
            assert forall|j: int| i <= j < i + t.len() implies !(#[trigger] matches_at(
                all,
                p,
                j,
            )) by {
                lemma_matches_tokens(all, t, p, i, j);
            }
            lemma_passed_over(all, p, q, i, t.len() as int);
        }
    }
}

proof fn lemma_step(n: int, s: Seq<char>)
    requires
        1 <= n <= 5,
    ensures
        replace(staged(n - 1, s), reference(n), meaning(n)) == staged(n, s),
{
    lemma_step_from(n, s, 0);
    assert(s.take(0) == Seq::<char>::empty());
    assert(s.skip(0) == s);
}

proof fn lemma_ends(s: Seq<char>)
    ensures
        staged(0, s) == escaped(s),
        staged(5, s) == s,
    decreases s.len(),
{
    if s.len() > 0 {
        lemma_ends(s.drop_last());
        assert(s.drop_last() + seq![s.last()] == s);
    }
}

/// A text that was written as HTML and decoded is the text again, trimmed.
pub proof fn escaped_text_is_decoded(s: Seq<char>)
    ensures
        unescaped(escaped(s)) == s,
        decoded(escaped(s)) == trim(s),
{
    lemma_ends(s);
    lemma_step(1, s);
    lemma_step(2, s);
    lemma_step(3, s);
    lemma_step(4, s);
    lemma_step(5, s);
}

} // verus!
