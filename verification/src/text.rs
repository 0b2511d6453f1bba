//! Text as sequences of characters: trimming, searching, splitting, replacing.
//!
//! Every function here works on slices of characters and is specified over
//! `Seq<char>`, the view that Verus gives to `str` and `String`.
use vstd::prelude::*;
use vstd::slice::slice_subrange;

verus! {

/// Specifies `String::push`: the character becomes the last one.
pub assume_specification[ String::push ](s: &mut String, c: char)
    ensures
        final(s)@ == old(s)@.push(c),
;

// ---------------------------------------------------------------------------
// Between `str`, `String` and characters
// ---------------------------------------------------------------------------

/// The characters of a string.
pub fn chars_of(s: &str) -> (r: Vec<char>)
    ensures
        r@ == s@,
{
    let mut out: Vec<char> = Vec::new();
    for c in it: s.chars()
        invariant
            out@ == it.seq().take(it.index()),
            it.seq() == s@,
    {
        out.push(c);
    }
    out
}

/// The string made of the given characters.
pub fn text_of(cs: &[char]) -> (r: String)
    ensures
        r@ == cs@,
{
    let mut out = String::new();
    let mut i: usize = 0;
    while i < cs.len()
        invariant
            i <= cs.len(),
            out@ == cs@.take(i as int),
        decreases cs.len() - i,
    {
        out.push(cs[i]);
        i += 1;
    }
    out
}

/// Whether two slices hold the same characters.
pub fn same_chars(a: &[char], b: &[char]) -> (r: bool)
    ensures
        r == (a@ == b@),
{
    if a.len() != b.len() {
        return false;
    }
    let mut i: usize = 0;
    while i < a.len()
        invariant
            i <= a.len() == b.len(),
            a@.take(i as int) == b@.take(i as int),
        decreases a.len() - i,
    {
        if a[i] != b[i] {
            return false;
        }
        assert(a@.take(i + 1) == a@.take(i as int).push(a@[i as int]));
        assert(b@.take(i + 1) == b@.take(i as int).push(b@[i as int]));
        i += 1;
    }
    assert(a@ == a@.take(i as int));
    assert(b@ == b@.take(i as int));
    true
}

/// Whether the slice holds exactly the characters of `literal`.
pub fn is_text(a: &[char], literal: &str) -> (r: bool)
    ensures
        r == (a@ == literal@),
{
    let b = chars_of(literal);
    same_chars(a, b.as_slice())
}

/// Whether two strings hold the same characters.
pub fn same_text(a: &str, b: &str) -> (r: bool)
    ensures
        r == (a@ == b@),
{
    let x = chars_of(a);
    is_text(x.as_slice(), b)
}

// ---------------------------------------------------------------------------
// White space
// ---------------------------------------------------------------------------

/// The characters with the Unicode property White_Space.
pub open spec fn white(c: char) -> bool {
    ||| '\u{9}' <= c <= '\u{d}'
    ||| c == '\u{20}'
    ||| c == '\u{85}'
    ||| c == '\u{a0}'
    ||| c == '\u{1680}'
    ||| '\u{2000}' <= c <= '\u{200a}'
    ||| c == '\u{2028}'
    ||| c == '\u{2029}'
    ||| c == '\u{202f}'
    ||| c == '\u{205f}'
    ||| c == '\u{3000}'
}

/// Whether the character is white space.
pub fn is_white(c: char) -> (r: bool)
    ensures
        r == white(c),
{
    ('\u{9}' <= c && c <= '\u{d}') || c == '\u{20}' || c == '\u{85}' || c == '\u{a0}' || c
        == '\u{1680}' || ('\u{2000}' <= c && c <= '\u{200a}') || c == '\u{2028}' || c == '\u{2029}'
        || c == '\u{202f}' || c == '\u{205f}' || c == '\u{3000}'
}

/// `s` without the white space at its start.
pub open spec fn trim_start(s: Seq<char>) -> Seq<char>
    decreases s.len(),
{
    if s.len() > 0 && white(s[0]) {
        trim_start(s.drop_first())
    } else {
        s
    }
}

/// `s` without the white space at its end.
pub open spec fn trim_end(s: Seq<char>) -> Seq<char>
    decreases s.len(),
{
    if s.len() > 0 && white(s.last()) {
        trim_end(s.drop_last())
    } else {
        s
    }
}

/// `s` without the white space at either end.
pub open spec fn trim(s: Seq<char>) -> Seq<char> {
    trim_end(trim_start(s))
}

/// The slice without the white space at its start.
pub fn trim_start_chars(s: &[char]) -> (r: &[char])
    ensures
        r@ == trim_start(s@),
{
    let n: usize = s.len();
    let mut i: usize = 0;
    assert(s@.subrange(0, n as int) == s@);
    while i < n && is_white(s[i])
        invariant
            i <= n == s.len(),
            trim_start(s@) == trim_start(s@.subrange(i as int, n as int)),
        decreases n - i,
    {
        assert(s@.subrange(i as int, n as int).drop_first() == s@.subrange(i + 1, n as int));
        i += 1;
    }
    slice_subrange(s, i, n)
}

/// The slice without the white space at its end.
pub fn trim_end_chars(s: &[char]) -> (r: &[char])
    ensures
        r@ == trim_end(s@),
{
    let mut n: usize = s.len();
    assert(s@.subrange(0, n as int) == s@);
    while n > 0 && is_white(s[n - 1])
        invariant
            n <= s.len(),
            trim_end(s@) == trim_end(s@.subrange(0, n as int)),
        decreases n,
    {
        assert(s@.subrange(0, n as int).drop_last() == s@.subrange(0, n - 1));
        n -= 1;
    }
    slice_subrange(s, 0, n)
}

/// The slice without the white space at either end.
pub fn trim_chars(s: &[char]) -> (r: &[char])
    ensures
        r@ == trim(s@),
{
    trim_end_chars(trim_start_chars(s))
}

/// The string without the white space at either end.
pub fn trimmed(s: &str) -> (r: String)
    ensures
        r@ == trim(s@),
{
    let cs = chars_of(s);
    text_of(trim_chars(cs.as_slice()))
}

/// Whether nothing but white space is in the string.
pub fn is_blank(s: &str) -> (r: bool)
    ensures
        r == (trim(s@).len() == 0),
{
    let cs = chars_of(s);
    trim_chars(cs.as_slice()).len() == 0
}

// ---------------------------------------------------------------------------
// ASCII
// ---------------------------------------------------------------------------

/// The ASCII digits.
pub open spec fn ascii_digit(c: char) -> bool {
    '0' <= c <= '9'
}

/// Whether the character is an ASCII digit.
pub fn is_digit(c: char) -> (r: bool)
    ensures
        r == ascii_digit(c),
{
    '0' <= c && c <= '9'
}

/// Whether every character is an ASCII digit.
pub open spec fn all_digits(s: Seq<char>) -> bool {
    forall|i: int| 0 <= i < s.len() ==> ascii_digit(#[trigger] s[i])
}

/// Whether every character is an ASCII digit.
pub fn are_digits(s: &[char]) -> (r: bool)
    ensures
        r == all_digits(s@),
{
    let mut i: usize = 0;
    while i < s.len()
        invariant
            i <= s.len(),
            forall|j: int| 0 <= j < i ==> ascii_digit(#[trigger] s@[j]),
        decreases s.len() - i,
    {
        if !is_digit(s[i]) {
            return false;
        }
        i += 1;
    }
    true
}

/// The ASCII letters and digits.
pub open spec fn ascii_alphanumeric(c: char) -> bool {
    ascii_digit(c) || 'a' <= c <= 'z' || 'A' <= c <= 'Z'
}

/// Whether the character is an ASCII letter or digit.
pub fn is_ascii_alnum(c: char) -> (r: bool)
    ensures
        r == ascii_alphanumeric(c),
{
    is_digit(c) || ('a' <= c && c <= 'z') || ('A' <= c && c <= 'Z')
}

/// The character with `A` to `Z` mapped to `a` to `z`.
pub open spec fn lower(c: char) -> char {
    if 'A' <= c <= 'Z' {
        ((c as u8) + 32) as char
    } else {
        c
    }
}

/// The character with `A` to `Z` mapped to `a` to `z`.
pub fn to_lower(c: char) -> (r: char)
    ensures
        r == lower(c),
{
    if 'A' <= c && c <= 'Z' {
        ((c as u8) + 32) as char
    } else {
        c
    }
}

/// The text with `A` to `Z` mapped to `a` to `z`.
pub open spec fn lowercase(s: Seq<char>) -> Seq<char> {
    s.map_values(|c: char| lower(c))
}

/// The text with `A` to `Z` mapped to `a` to `z`.
pub fn lowercase_chars(s: &[char]) -> (r: Vec<char>)
    ensures
        r@ == lowercase(s@),
{
    let mut out: Vec<char> = Vec::new();
    let mut i: usize = 0;
    while i < s.len()
        invariant
            i <= s.len(),
            out@ == lowercase(s@).take(i as int),
        decreases s.len() - i,
    {
        out.push(to_lower(s[i]));
        assert(lowercase(s@).take(i + 1) == lowercase(s@).take(i as int).push(
            lowercase(s@)[i as int],
        ));
        i += 1;
    }
    assert(lowercase(s@).take(i as int) == lowercase(s@));
    out
}

/// Whether two texts agree up to the case of ASCII letters.
pub fn same_ignoring_case(a: &[char], b: &[char]) -> (r: bool)
    ensures
        r == (lowercase(a@) == lowercase(b@)),
{
    let x = lowercase_chars(a);
    let y = lowercase_chars(b);
    same_chars(x.as_slice(), y.as_slice())
}

// ---------------------------------------------------------------------------
// Searching
// ---------------------------------------------------------------------------

/// Whether `p` stands in `s` at position `i`.
pub open spec fn matches_at(s: Seq<char>, p: Seq<char>, i: int) -> bool {
    0 <= i && i + p.len() <= s.len() && s.subrange(i, i + p.len()) == p
}

/// Whether `s` starts with `p`.
pub open spec fn has_prefix(s: Seq<char>, p: Seq<char>) -> bool {
    matches_at(s, p, 0)
}

/// Whether `s` ends with `p`.
pub open spec fn has_suffix(s: Seq<char>, p: Seq<char>) -> bool {
    matches_at(s, p, s.len() - p.len())
}

/// The first position from `i` on at which `p` stands in `s`.
pub open spec fn find_from(s: Seq<char>, p: Seq<char>, i: int) -> Option<int>
    decreases s.len() + 1 - i,
{
    if i < 0 || i + p.len() > s.len() {
        None
    } else if matches_at(s, p, i) {
        Some(i)
    } else {
        find_from(s, p, i + 1)
    }
}

/// The first position at which `p` stands in `s`.
pub open spec fn find(s: Seq<char>, p: Seq<char>) -> Option<int> {
    find_from(s, p, 0)
}

/// Whether `p` stands somewhere in `s`.
pub open spec fn has(s: Seq<char>, p: Seq<char>) -> bool {
    find(s, p) is Some
}

/// `find_from` gives the least position at or after `i`.
pub proof fn lemma_find_from(s: Seq<char>, p: Seq<char>, i: int)
    requires
        0 <= i,
    ensures
        find_from(s, p, i) matches Some(k) ==> i <= k && matches_at(s, p, k) && (forall|j: int|
            i <= j < k ==> !matches_at(s, p, j)),
        find_from(s, p, i) is None ==> forall|j: int| i <= j ==> !matches_at(s, p, j),
    decreases s.len() + 1 - i,
{
    if i + p.len() <= s.len() && !matches_at(s, p, i) {
        lemma_find_from(s, p, i + 1);
    }
}

/// Whether `p` stands in `s` at position `i`.
pub fn stands_at(s: &[char], p: &[char], i: usize) -> (r: bool)
    ensures
        r == matches_at(s@, p@, i as int),
{
    if i > s.len() || p.len() > s.len() - i {
        return false;
    }
    same_chars(slice_subrange(s, i, i + p.len()), p)
}

/// Whether `s` starts with the literal.
pub fn starts_with(s: &[char], literal: &str) -> (r: bool)
    ensures
        r == has_prefix(s@, literal@),
{
    let p = chars_of(literal);
    stands_at(s, p.as_slice(), 0)
}

/// Whether `s` ends with the literal.
pub fn ends_with(s: &[char], literal: &str) -> (r: bool)
    ensures
        r == has_suffix(s@, literal@),
{
    let p = chars_of(literal);
    if p.len() > s.len() {
        return false;
    }
    stands_at(s, p.as_slice(), s.len() - p.len())
}

/// The rest of `s` after the literal with which it starts.
pub fn strip_prefix<'a>(s: &'a [char], literal: &str) -> (r: Option<&'a [char]>)
    ensures
        r is Some == has_prefix(s@, literal@),
        r matches Some(t) ==> t@ == s@.skip(literal@.len() as int),
{
    let p = chars_of(literal);
    if stands_at(s, p.as_slice(), 0) {
        Some(slice_subrange(s, p.len(), s.len()))
    } else {
        None
    }
}

/// The first position from `from` on at which `p` stands in `s`.
pub fn position_from(s: &[char], p: &[char], from: usize) -> (r: Option<usize>)
    ensures
        match r {
            Some(k) => find_from(s@, p@, from as int) == Some(k as int),
            None => find_from(s@, p@, from as int) is None,
        },
{
    let mut i: usize = from;
    while i <= s.len() && p.len() <= s.len() - i
        invariant
            find_from(s@, p@, from as int) == find_from(s@, p@, i as int),
            i <= from || i <= s.len() + 1,
        decreases s.len() + 1 - i,
    {
        if stands_at(s, p, i) {
            return Some(i);
        }
        if i == s.len() {
            assert(find_from(s@, p@, i + 1) is None);
            return None;
        }
        i += 1;
    }
    None
}

/// The first position at which the literal stands in `s`.
pub fn position_of(s: &[char], literal: &str) -> (r: Option<usize>)
    ensures
        match r {
            Some(k) => find(s@, literal@) == Some(k as int),
            None => find(s@, literal@) is None,
        },
{
    let p = chars_of(literal);
    position_from(s, p.as_slice(), 0)
}

/// Whether the literal stands somewhere in `s`.
pub fn contains(s: &[char], literal: &str) -> (r: bool)
    ensures
        r == has(s@, literal@),
{
    match position_of(s, literal) {
        Some(_) => true,
        None => false,
    }
}

// ---------------------------------------------------------------------------
// Replacing
// ---------------------------------------------------------------------------

/// `s` from position `i` on, with each occurrence of `p`, from the left, replaced by `q`.
pub open spec fn replace_from(s: Seq<char>, p: Seq<char>, q: Seq<char>, i: int) -> Seq<char>
    decreases s.len() - i,
{
    if p.len() == 0 || i < 0 || i >= s.len() {
        Seq::empty()
    } else if matches_at(s, p, i) {
        q + replace_from(s, p, q, i + p.len())
    } else {
        seq![s[i]] + replace_from(s, p, q, i + 1)
    }
}

/// `s` with each occurrence of `p`, from the left, replaced by `q`.
pub open spec fn replace(s: Seq<char>, p: Seq<char>, q: Seq<char>) -> Seq<char> {
    replace_from(s, p, q, 0)
}

/// The text with each occurrence of the pattern, from the left, replaced.
pub fn replace_all(s: &[char], pattern: &str, with: &str) -> (r: Vec<char>)
    requires
        pattern@.len() > 0,
    ensures
        r@ == replace(s@, pattern@, with@),
{
    let p = chars_of(pattern);
    let q = chars_of(with);
    let mut out: Vec<char> = Vec::new();
    let mut i: usize = 0;
    while i < s.len()
        invariant
            i <= s.len(),
            p@ == pattern@,
            q@ == with@,
            p@.len() > 0,
            replace(s@, p@, q@) == out@ + replace_from(s@, p@, q@, i as int),
        decreases s.len() - i,
    {
        let ghost before = out@;
        if stands_at(s, p.as_slice(), i) {
            push_chars(&mut out, q.as_slice());
            assert(before + (q@ + replace_from(s@, p@, q@, i + p@.len())) == out@ + replace_from(
                s@,
                p@,
                q@,
                i + p@.len(),
            ));
            i += p.len();
        } else {
            out.push(s[i]);
            assert(before + (seq![s@[i as int]] + replace_from(s@, p@, q@, i + 1)) == out@
                + replace_from(s@, p@, q@, i + 1));
            i += 1;
        }
    }
    assert(out@ + Seq::<char>::empty() == out@);
    out
}

/// Appends the characters.
pub fn push_chars(out: &mut Vec<char>, more: &[char])
    ensures
        final(out)@ == old(out)@ + more@,
{
    let mut i: usize = 0;
    while i < more.len()
        invariant
            i <= more.len(),
            out@ == old(out)@ + more@.take(i as int),
        decreases more.len() - i,
    {
        out.push(more[i]);
        assert(more@.take(i + 1) == more@.take(i as int).push(more@[i as int]));
        i += 1;
    }
    assert(more@.take(i as int) == more@);
}

// ---------------------------------------------------------------------------
// Splitting
// ---------------------------------------------------------------------------

/// The first position from `i` on that holds one of the separators, or the length of `s`.
pub open spec fn next_separator(s: Seq<char>, seps: Seq<char>, i: int) -> int
    decreases s.len() - i,
{
    if i < 0 || i >= s.len() {
        s.len() as int
    } else if seps.contains(s[i]) {
        i
    } else {
        next_separator(s, seps, i + 1)
    }
}

/// The pieces of `s` from position `i` on between the separators.
pub open spec fn pieces_from(s: Seq<char>, seps: Seq<char>, i: int) -> Seq<Seq<char>>
    decreases s.len() - i,
{
    let end = next_separator(s, seps, i);
    if i < 0 || i > s.len() {
        Seq::empty()
    } else if end >= s.len() || end < i {
        seq![s.skip(i)]
    } else {
        seq![s.subrange(i, end)] + pieces_from(s, seps, end + 1)
    }
}

/// The pieces of `s` between the separators.
pub open spec fn pieces(s: Seq<char>, seps: Seq<char>) -> Seq<Seq<char>> {
    pieces_from(s, seps, 0)
}

/// The part of `s` before its first separator.
pub open spec fn first_piece(s: Seq<char>, seps: Seq<char>) -> Seq<char> {
    s.take(next_separator(s, seps, 0))
}

/// `next_separator` lies between `i` and the end.
pub proof fn lemma_next_separator(s: Seq<char>, seps: Seq<char>, i: int)
    requires
        0 <= i <= s.len(),
    ensures
        i <= next_separator(s, seps, i) <= s.len(),
        next_separator(s, seps, i) < s.len() ==> seps.contains(s[next_separator(s, seps, i)]),
        forall|j: int|
            i <= j < next_separator(s, seps, i) ==> !seps.contains(#[trigger] s[j]),
    decreases s.len() - i,
{
    if i < s.len() && !seps.contains(s[i]) {
        lemma_next_separator(s, seps, i + 1);
    }
}

/// There is always at least one piece.
pub proof fn lemma_pieces_nonempty(s: Seq<char>, seps: Seq<char>)
    ensures
        pieces(s, seps).len() > 0,
{
}

/// Whether the character is among the given ones.
pub fn is_among(c: char, set: &[char]) -> (r: bool)
    ensures
        r == set@.contains(c),
{
    let mut i: usize = 0;
    while i < set.len()
        invariant
            i <= set.len(),
            forall|j: int| 0 <= j < i ==> set@[j] != c,
        decreases set.len() - i,
    {
        if set[i] == c {
            return true;
        }
        i += 1;
    }
    false
}

/// The first position from `from` on that holds one of the separators, or the length.
pub fn separator_from(s: &[char], seps: &[char], from: usize) -> (r: usize)
    requires
        from <= s.len(),
    ensures
        r == next_separator(s@, seps@, from as int),
        from <= r <= s.len(),
{
    let mut i: usize = from;
    while i < s.len() && !is_among(s[i], seps)
        invariant
            from <= i <= s.len(),
            next_separator(s@, seps@, from as int) == next_separator(s@, seps@, i as int),
        decreases s.len() - i,
    {
        i += 1;
    }
    i
}

/// The views of a vector of character vectors.
pub open spec fn views(v: Seq<Vec<char>>) -> Seq<Seq<char>> {
    v.map_values(|x: Vec<char>| x@)
}

/// The views of a vector of strings.
pub open spec fn texts(v: Seq<String>) -> Seq<Seq<char>> {
    v.map_values(|x: String| x@)
}

/// A copy of the slice.
pub fn copy_chars(s: &[char]) -> (r: Vec<char>)
    ensures
        r@ == s@,
{
    let mut out: Vec<char> = Vec::new();
    push_chars(&mut out, s);
    out
}

/// The pieces of `s` between the separators.
pub fn split(s: &[char], seps: &[char]) -> (r: Vec<Vec<char>>)
    ensures
        views(r@) == pieces(s@, seps@),
{
    let mut out: Vec<Vec<char>> = Vec::new();
    let mut i: usize = 0;
    loop
        invariant
            i <= s.len(),
            pieces(s@, seps@) == views(out@) + pieces_from(s@, seps@, i as int),
        decreases s.len() - i,
    {
        let ghost before = views(out@);
        let end: usize = separator_from(s, seps, i);
        if end == s.len() {
            let piece = copy_chars(slice_subrange(s, i, end));
            assert(piece@ == s@.skip(i as int));
            out.push(piece);
            assert(views(out@) == before.push(piece@));
            assert(views(out@) == before + seq![s@.skip(i as int)]);
            return out;
        }
        let piece = copy_chars(slice_subrange(s, i, end));
        out.push(piece);
        assert(views(out@) == before.push(piece@));
        assert(before + (seq![s@.subrange(i as int, end as int)] + pieces_from(
            s@,
            seps@,
            end + 1,
        )) == views(out@) + pieces_from(s@, seps@, end + 1));
        i = end + 1;
    }
}

/// The pieces joined with the separator between them.
pub open spec fn join(parts: Seq<Seq<char>>, sep: Seq<char>) -> Seq<char>
    decreases parts.len(),
{
    if parts.len() == 0 {
        Seq::empty()
    } else if parts.len() == 1 {
        parts[0]
    } else {
        join(parts.drop_last(), sep) + sep + parts.last()
    }
}

/// The pieces joined with the separator between them.
pub fn join_chars(parts: &Vec<Vec<char>>, sep: &str) -> (r: Vec<char>)
    ensures
        r@ == join(views(parts@), sep@),
{
    let s = chars_of(sep);
    let mut out: Vec<char> = Vec::new();
    let mut i: usize = 0;
    while i < parts.len()
        invariant
            i <= parts.len(),
            s@ == sep@,
            out@ == join(views(parts@).take(i as int), sep@),
        decreases parts.len() - i,
    {
        let ghost done = views(parts@).take(i + 1);
        assert(done.drop_last() == views(parts@).take(i as int));
        assert(done.last() == parts@[i as int]@);
        if i > 0 {
            push_chars(&mut out, s.as_slice());
        }
        push_chars(&mut out, parts[i].as_slice());
        i += 1;
    }
    assert(views(parts@).take(i as int) == views(parts@));
    out
}

// ---------------------------------------------------------------------------
// Lines
// ---------------------------------------------------------------------------

/// A line without the carriage return at its end.
pub open spec fn without_cr(s: Seq<char>) -> Seq<char> {
    if s.len() > 0 && s.last() == '\r' {
        s.drop_last()
    } else {
        s
    }
}

/// The lines of `s` from position `i` on. A line ends with a line feed, or with a carriage
/// return and a line feed; the end of the last line may be missing.
pub open spec fn lines_from(s: Seq<char>, i: int) -> Seq<Seq<char>>
    decreases s.len() - i,
{
    let end = next_separator(s, seq!['\n'], i);
    if i < 0 || i >= s.len() {
        Seq::empty()
    } else if end >= s.len() || end < i {
        seq![s.skip(i)]
    } else {
        seq![without_cr(s.subrange(i, end))] + lines_from(s, end + 1)
    }
}

/// The lines of `s`.
pub open spec fn lines(s: Seq<char>) -> Seq<Seq<char>> {
    lines_from(s, 0)
}

/// The lines of `s`.
pub fn split_lines(s: &[char]) -> (r: Vec<Vec<char>>)
    ensures
        views(r@) == lines(s@),
{
    let feed: [char; 1] = ['\n'];
    let mut out: Vec<Vec<char>> = Vec::new();
    let mut i: usize = 0;
    assert(feed@ == seq!['\n']);
    while i < s.len()
        invariant
            i <= s.len(),
            feed@ == seq!['\n'],
            lines(s@) == views(out@) + lines_from(s@, i as int),
        decreases s.len() - i,
    {
        let ghost before = views(out@);
        let end: usize = separator_from(s, feed.as_slice(), i);
        if end == s.len() {
            let piece = copy_chars(slice_subrange(s, i, end));
            assert(piece@ == s@.skip(i as int));
            out.push(piece);
            assert(views(out@) == before.push(piece@));
            assert(views(out@) == before + seq![s@.skip(i as int)]);
            return out;
        }
        let mut stop: usize = end;
        if end > i && s[end - 1] == '\r' {
            stop = end - 1;
        }
        let piece = copy_chars(slice_subrange(s, i, stop));
        assert(piece@ == without_cr(s@.subrange(i as int, end as int)));
        out.push(piece);
        assert(views(out@) == before.push(piece@));
        assert(before + (seq![piece@] + lines_from(s@, end + 1)) == views(out@) + lines_from(
            s@,
            end + 1,
        ));
        i = end + 1;
    }
    assert(views(out@) + Seq::<Seq<char>>::empty() == views(out@));
    out
}

/// The first of the texts that is not blank, trimmed.
pub open spec fn first_nonblank(parts: Seq<Seq<char>>) -> Option<Seq<char>>
    decreases parts.len(),
{
    if parts.len() == 0 {
        None
    } else if trim(parts[0]).len() > 0 {
        Some(trim(parts[0]))
    } else {
        first_nonblank(parts.drop_first())
    }
}

/// The first line that is not blank, trimmed.
pub fn first_nonblank_line(s: &[char]) -> (r: Option<String>)
    ensures
        match r {
            Some(t) => first_nonblank(lines(s@)) == Some(t@),
            None => first_nonblank(lines(s@)) is None,
        },
{
    let all = split_lines(s);
    let ghost parts = views(all@);
    let mut i: usize = 0;
    assert(parts.skip(0) == parts);
    while i < all.len()
        invariant
            i <= all.len(),
            parts == views(all@),
            parts == lines(s@),
            first_nonblank(parts) == first_nonblank(parts.skip(i as int)),
        decreases all.len() - i,
    {
        let t = trim_chars(all[i].as_slice());
        assert(parts.skip(i as int)[0] == all@[i as int]@);
        if t.len() > 0 {
            return Some(text_of(t));
        }
        assert(parts.skip(i as int).drop_first() == parts.skip(i + 1));
        i += 1;
    }
    None
}

} // verus!
