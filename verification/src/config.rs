//! The paths into the configuration document.
use vstd::prelude::*;
use vstd::string::StringSliceAdditionalSpecFns;

use crate::numbers::{digits_value, read_digits};
use crate::text::{all_digits, ascii_digit, text_of};

verus! {

// ---------------------------------------------------------------------------
// Paths
// ---------------------------------------------------------------------------

/// One step of a path into the configuration.
#[derive(Debug, PartialEq, Eq)]
pub enum PathSegment {
    Key(String),
    Index(usize),
}

/// What a step of a path is.
pub enum Segment {
    Key(Seq<char>),
    Index(nat),
}

impl View for PathSegment {
    type V = Segment;

    open spec fn view(&self) -> Segment {
        match self {
            PathSegment::Key(k) => Segment::Key(k@),
            PathSegment::Index(i) => Segment::Index(*i as nat),
        }
    }
}

/// What the steps of a path are.
pub open spec fn segments(path: Seq<PathSegment>) -> Seq<Segment> {
    path.map_values(|s: PathSegment| s@)
}

/// Why a text is not a path.
#[derive(Clone, Copy, PartialEq, Eq, Debug, Structural)]
pub enum ConfigPathError {
    /// The text is empty.
    Empty,
    /// The text is not made of keys and indices.
    Invalid,
    /// An index does not fit in `usize`.
    IndexTooLarge,
}

/// What a step has to follow for a dot to be allowed after it.
#[derive(Clone, Copy, PartialEq, Eq, Structural)]
pub enum Previous {
    Key,
    Other,
}

/// Whether the byte can stand in a key.
pub open spec fn key_byte(b: u8) -> bool {
    b != 46 && b != 91
}

/// The end of the run of key bytes that starts at `i`.
pub open spec fn key_end(b: Seq<u8>, i: int) -> int
    decreases b.len() - i,
{
    if 0 <= i < b.len() && key_byte(b[i]) {
        key_end(b, i + 1)
    } else {
        i
    }
}

/// Whether the byte is an ASCII digit.
pub open spec fn digit_byte(b: u8) -> bool {
    48 <= b <= 57
}

/// The end of the run of digits that starts at `i`.
pub open spec fn digits_end(b: Seq<u8>, i: int) -> int
    decreases b.len() - i,
{
    if 0 <= i < b.len() && digit_byte(b[i]) {
        digits_end(b, i + 1)
    } else {
        i
    }
}

/// Each byte as the character with the same number.
pub open spec fn byte_chars(b: Seq<u8>) -> Seq<char> {
    b.map_values(|x: u8| x as char)
}

/// What a path yields that begins with `first` and goes on as `rest`.
pub open spec fn with_first(
    first: Segment,
    rest: Result<Seq<Segment>, ConfigPathError>,
) -> Result<Seq<Segment>, ConfigPathError> {
    match rest {
        Ok(more) => Ok(seq![first] + more),
        Err(e) => Err(e),
    }
}

/// The steps written from position `i` on.
///
/// A key is a longest run of bytes other than `.` and `[`. A dot may stand after a key only. An
/// index is a run of digits in square brackets; the end, a dot or another bracket has to follow.
pub open spec fn path_from(b: Seq<u8>, i: int, previous: Previous) -> Result<
    Seq<Segment>,
    ConfigPathError,
>
    decreases b.len() - i,
{
    if i < 0 || i >= b.len() {
        Ok(Seq::empty())
    } else if b[i] == 46 {
        if previous == Previous::Key {
            path_from(b, i + 1, Previous::Other)
        } else {
            Err(ConfigPathError::Invalid)
        }
    } else if b[i] == 91 {
        let end = digits_end(b, i + 1);
        if end <= i + 1 || end >= b.len() || b[end] != 93 {
            Err(ConfigPathError::Invalid)
        } else if digits_value(byte_chars(b.subrange(i + 1, end))) > usize::MAX {
            Err(ConfigPathError::IndexTooLarge)
        } else if end + 1 < b.len() && key_byte(b[end + 1]) {
            Err(ConfigPathError::Invalid)
        } else {
            with_first(
                Segment::Index(digits_value(byte_chars(b.subrange(i + 1, end)))),
                path_from(b, end + 1, Previous::Other),
            )
        }
    } else {
        let end = key_end(b, i);
        if end <= i || end > b.len() {
            Err(ConfigPathError::Invalid)
        } else {
            with_first(
                Segment::Key(byte_chars(b.subrange(i, end))),
                path_from(b, end, Previous::Key),
            )
        }
    }
}

/// The path that the bytes write down.
pub open spec fn path_read(b: Seq<u8>) -> Result<Seq<Segment>, ConfigPathError> {
    if b.len() == 0 {
        Err(ConfigPathError::Empty)
    } else {
        path_from(b, 0, Previous::Other)
    }
}

proof fn lemma_key_end(b: Seq<u8>, i: int)
    requires
        0 <= i <= b.len(),
    ensures
        i <= key_end(b, i) <= b.len(),
        forall|j: int| i <= j < key_end(b, i) ==> key_byte(#[trigger] b[j]),
        key_end(b, i) < b.len() ==> !key_byte(b[key_end(b, i)]),
    decreases b.len() - i,
{
    if i < b.len() && key_byte(b[i]) {
        lemma_key_end(b, i + 1);
    }
}

proof fn lemma_digits_end(b: Seq<u8>, i: int)
    requires
        0 <= i <= b.len(),
    ensures
        i <= digits_end(b, i) <= b.len(),
        forall|j: int| i <= j < digits_end(b, i) ==> digit_byte(#[trigger] b[j]),
        digits_end(b, i) < b.len() ==> !digit_byte(b[digits_end(b, i)]),
    decreases b.len() - i,
{
    if i < b.len() && digit_byte(b[i]) {
        lemma_digits_end(b, i + 1);
    }
}

/// The result of parsing, over the models of the steps.
pub open spec fn path_result(r: Result<Vec<PathSegment>, ConfigPathError>) -> Result<
    Seq<Segment>,
    ConfigPathError,
> {
    match r {
        Ok(path) => Ok(segments(path@)),
        Err(e) => Err(e),
    }
}

/// What is read so far, followed by what is still to read.
spec fn continued(
    done: Seq<Segment>,
    rest: Result<Seq<Segment>, ConfigPathError>,
) -> Result<Seq<Segment>, ConfigPathError> {
    match rest {
        Ok(more) => Ok(done + more),
        Err(e) => Err(e),
    }
}

/// The bytes as the characters with the same numbers.
fn chars_of_bytes(b: &[u8], from: usize, to: usize) -> (r: Vec<char>)
    requires
        from <= to <= b.len(),
    ensures
        r@ == byte_chars(b@.subrange(from as int, to as int)),
{
    let ghost all = byte_chars(b@.subrange(from as int, to as int));
    let mut out: Vec<char> = Vec::new();
    let mut i: usize = from;
    while i < to
        invariant
            from <= i <= to <= b.len(),
            all == byte_chars(b@.subrange(from as int, to as int)),
            out@ == all.take(i - from),
        decreases to - i,
    {
        out.push(b[i] as char);
        assert(all.take(i + 1 - from) == all.take(i - from).push(all[i - from]));
        i += 1;
    }
    assert(all.take(i - from) == all);
    out
}

/// Reads a path such as `telegram.enabled` or `seed_users[0]`.
pub fn parse_config_path(path: &str) -> (r: Result<Vec<PathSegment>, ConfigPathError>)
    ensures
        path_result(r) == path_read(path.spec_bytes()),
{
    let b = path.as_bytes();
    if b.len() == 0 {
        return Err(ConfigPathError::Empty);
    }
    let n: usize = b.len();
    let mut out: Vec<PathSegment> = Vec::new();
    let mut previous = Previous::Other;
    let mut i: usize = 0;
    assert(segments(out@) == Seq::<Segment>::empty());
    proof {
        let whole = path_from(b@, 0, Previous::Other);
        if whole is Ok {
            assert(Seq::<Segment>::empty() + whole->Ok_0 == whole->Ok_0);
        }
    }
    while i < n
        invariant
            i <= n == b.len(),
            n > 0,
            b@ == path.spec_bytes(),
            path_read(b@) == continued(segments(out@), path_from(b@, i as int, previous)),
        decreases n - i,
    {
        let ghost done = segments(out@);
        if b[i] == 46 {
            match previous {
                Previous::Key => {},
                Previous::Other => {
                    return Err(ConfigPathError::Invalid);
                },
            }
            previous = Previous::Other;
            i += 1;
        } else if b[i] == 91 {
            let start: usize = i + 1;
            let mut end: usize = start;
            proof {
                lemma_digits_end(b@, start as int);
            }
            while end < n && 48 <= b[end] && b[end] <= 57
                invariant
                    start <= end <= n == b.len(),
                    digits_end(b@, start as int) == digits_end(b@, end as int),
                decreases n - end,
            {
                end += 1;
            }
            if end == start || end >= n || b[end] != 93 {
                return Err(ConfigPathError::Invalid);
            }
            let numeral = chars_of_bytes(b, start, end);
            assert(all_digits(numeral@)) by {
                assert forall|j: int| 0 <= j < numeral@.len() implies ascii_digit(
                    #[trigger] numeral@[j],
                ) by {
                    assert(digit_byte(b@[start + j]));
                }
            }
            let index: usize = match read_digits(numeral.as_slice(), usize::MAX as u64) {
                Some(v) => v as usize,
                None => {
                    return Err(ConfigPathError::IndexTooLarge);
                },
            };
            if end + 1 < n && b[end + 1] != 46 && b[end + 1] != 91 {
                return Err(ConfigPathError::Invalid);
            }
            out.push(PathSegment::Index(index));
            assert(segments(out@) == done.push(Segment::Index(index as nat)));
            proof {
                let rest = path_from(b@, end + 1, Previous::Other);
                if rest is Ok {
                    assert(done + (seq![Segment::Index(index as nat)] + rest->Ok_0) == segments(
                        out@,
                    ) + rest->Ok_0);
                }
            }
            previous = Previous::Other;
            i = end + 1;
        } else {
            let mut end: usize = i;
            proof {
                lemma_key_end(b@, i as int);
            }
            while end < n && b[end] != 46 && b[end] != 91
                invariant
                    i <= end <= n == b.len(),
                    key_end(b@, i as int) == key_end(b@, end as int),
                decreases n - end,
            {
                end += 1;
            }
            let name = chars_of_bytes(b, i, end);
            let key = text_of(name.as_slice());
            out.push(PathSegment::Key(key));
            assert(segments(out@) == done.push(Segment::Key(key@)));
            proof {
                let rest = path_from(b@, end as int, Previous::Key);
                if rest is Ok {
                    assert(done + (seq![Segment::Key(key@)] + rest->Ok_0) == segments(out@)
                        + rest->Ok_0);
                }
            }
            previous = Previous::Key;
            i = end;
        }
    }
    assert(segments(out@) + Seq::<Segment>::empty() == segments(out@));
    Ok(out)
}

} // verus!
