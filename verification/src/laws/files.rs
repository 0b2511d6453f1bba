//! Which files are delivered, what they are named and how they are sent.
use vstd::prelude::*;

use crate::delivery::{
    delivery_plan, files_are_listed_by_name, first_of, image_path, kind_of, largest_skipped,
    named_files, one_too_large, sending, sending_failed, small_files, some_too_large, too_many,
    FileKind, Notice, PlanView, UploadView,
};
use crate::filename::{
    base_budget, basename, basename_fits, file_name, kept, nonempty, prefix, sanitized, stays, truncated, words,
};
use crate::laws::posts::numbers_look_different;
use crate::laws::texts::{
    ends_of_a_text, free_of, one_piece, pieces_make_up_the_text,
};
use crate::numbers::{decimal, lemma_decimal_digits, two_digits};
use crate::order::{bytes_less, stands_before};
use crate::text::{has_prefix, has_suffix, join, pieces, white};

verus! {

// ---------------------------------------------------------------------------
// What is delivered
// ---------------------------------------------------------------------------

/// The kind of a file is told by its extension.
pub proof fn extensions_tell_the_kind(extension: Seq<char>)
    ensures
        kind_of(None) == FileKind::Other,
        kind_of(Some(extension)) == FileKind::Video <==> extension == "mp4"@,
        kind_of(Some(extension)) == FileKind::Audio <==> extension == "m4a"@,
        kind_of(Some(extension)) == FileKind::Image <==> (extension == "jpg"@ || extension
            == "jpeg"@ || extension == "png"@ || extension == "webp"@),
        crate::mine_bot::kind_of(Some(extension)) == FileKind::Video <==> extension == "mp4"@,
        crate::mine_bot::kind_of(Some(extension)) == FileKind::Audio <==> extension == "m4a"@,
        crate::mine_bot::kind_of(Some(extension)) == FileKind::Image <==> (extension == "jpg"@
            || extension == "jpeg"@ || extension == "png"@),
{
    reveal_strlit("mp4");
    reveal_strlit("m4a");
    reveal_strlit("jpg");
    reveal_strlit("jpeg");
    reveal_strlit("png");
    reveal_strlit("webp");
    assert("mp4"@[1] == 'p' && "m4a"@[1] == '4');
    assert("mp4"@[0] == 'm' && "m4a"@[0] == 'm');
    assert("jpg"@[0] == 'j' && "jpeg"@[0] == 'j' && "png"@[0] == 'p' && "webp"@[0] == 'w');
}

/// Names are ordered by the first byte in which they differ, and a name before its continuations.
pub proof fn names_are_ordered_by_their_bytes(
    common: Seq<u8>,
    x: u8,
    y: u8,
    s: Seq<u8>,
    t: Seq<u8>,
)
    ensures
        x != y ==> (bytes_less(common + seq![x] + s, common + seq![y] + t) <==> x < y),
        bytes_less(common, common + seq![x] + s),
        !bytes_less(common + seq![x] + s, common),
        !bytes_less(common, common),
    decreases common.len(),
{
    let a = common + seq![x] + s;
    let b = common + seq![y] + t;
    if common.len() > 0 {
        let rest = common.drop_first();
        names_are_ordered_by_their_bytes(rest, x, y, s, t);
        assert(a.drop_first() == rest + seq![x] + s);
        assert(b.drop_first() == rest + seq![y] + t);
    }
}

/// Whether a file is the first of its kind by name.
pub open spec fn first_of_its_kind(
    names: Seq<Seq<u8>>,
    kinds: Seq<FileKind>,
    kind: FileKind,
    k: usize,
) -> bool {
    &&& k < names.len()
    &&& kinds[k as int] == kind
    &&& forall|j: usize|
        j < names.len() && #[trigger] kinds[j as int] == kind && j != k ==> stands_before(names, k, j)
}

/// Whether there is a file of a kind.
pub open spec fn holds_kind(kinds: Seq<FileKind>, kind: FileKind) -> bool {
    exists|j: int| 0 <= j < kinds.len() && #[trigger] kinds[j] == kind
}

proof fn lemma_first_of(names: Seq<Seq<u8>>, kinds: Seq<FileKind>, kind: FileKind)
    requires
        names.len() == kinds.len(),
        names.len() <= usize::MAX,
    ensures
        first_of(named_files(names, kinds, kind)) matches Some(k) ==> first_of_its_kind(
            names,
            kinds,
            kind,
            k,
        ),
        first_of(named_files(names, kinds, kind)) is Some <==> holds_kind(kinds, kind),
{
    files_are_listed_by_name(names, kinds, kind);
    let files = named_files(names, kinds, kind);
    if files.len() > 0 {
        let k = files[0];
        assert(kinds[k as int] == kind);
        assert forall|j: usize|
            j < names.len() && #[trigger] kinds[j as int] == kind && j != k implies stands_before(
            names,
            k,
            j,
        ) by {
            assert(files.contains(j));
            let i = choose|i: int| 0 <= i < files.len() && files[i] == j;
            assert(stands_before(names, files[0], files[i]));
        }
    } else if holds_kind(kinds, kind) {
        let j = choose|j: int| 0 <= j < kinds.len() && #[trigger] kinds[j] == kind;
        assert(files.contains(j as usize));
    }
}

/// Where there is a video, the first one by name is delivered, with the first sound by name if
/// there is any; else all the images are, in the order of their names; else there is nothing.
pub proof fn videos_are_delivered_before_images(names: Seq<Seq<u8>>, kinds: Seq<FileKind>)
    requires
        names.len() == kinds.len(),
        names.len() <= usize::MAX,
    ensures
        holds_kind(kinds, FileKind::Video) ==> (delivery_plan(names, kinds) matches PlanView::Video {
            video,
            audio,
        } && first_of_its_kind(names, kinds, FileKind::Video, video) && (audio is Some <==> holds_kind(
            kinds,
            FileKind::Audio,
        )) && (audio matches Some(a) ==> first_of_its_kind(names, kinds, FileKind::Audio, a))),
        !holds_kind(kinds, FileKind::Video) && holds_kind(kinds, FileKind::Image) ==> (
        delivery_plan(names, kinds) matches PlanView::Images(files) && lists_the_kind(
            names,
            kinds,
            FileKind::Image,
            files,
        )),
        !holds_kind(kinds, FileKind::Video) && !holds_kind(kinds, FileKind::Image)
            ==> delivery_plan(names, kinds) is Nothing,
{
    lemma_first_of(names, kinds, FileKind::Video);
    lemma_first_of(names, kinds, FileKind::Audio);
    lemma_first_of(names, kinds, FileKind::Image);
    files_are_listed_by_name(names, kinds, FileKind::Image);
}

/// Whether files are all those of a kind, in the order of their names.
pub open spec fn lists_the_kind(
    names: Seq<Seq<u8>>,
    kinds: Seq<FileKind>,
    kind: FileKind,
    files: Seq<usize>,
) -> bool {
    &&& forall|i: int|
        0 <= i < files.len() ==> (#[trigger] files[i]) < names.len() && kinds[files[i] as int] == kind
    &&& forall|k: usize|
        k < names.len() && kinds[k as int] == kind ==> #[trigger] files.contains(k)
    &&& forall|i: int, j: int|
        0 <= i < j < files.len() ==> stands_before(names, #[trigger] files[i], #[trigger] files[j])
}

// ---------------------------------------------------------------------------
// How files are sent
// ---------------------------------------------------------------------------

/// A path is that of an image by its ending alone.
pub proof fn image_paths_are_told_by_their_ending(stem: Seq<char>, path: Seq<char>)
    ensures
        image_path(stem + ".jpg"@),
        image_path(stem + ".jpeg"@),
        image_path(stem + ".png"@),
        image_path(stem + ".webp"@),
        image_path(path) ==> has_suffix(path, ".jpg"@) || has_suffix(path, ".jpeg"@) || has_suffix(
            path,
            ".png"@,
        ) || has_suffix(path, ".webp"@),
{
    ends_of_a_text(stem, ".jpg"@);
    ends_of_a_text(stem, ".jpeg"@);
    ends_of_a_text(stem, ".png"@);
    ends_of_a_text(stem, ".webp"@);
}

/// A single file within the limit is sent, an image as a photo and anything else as a video, and
/// nothing is said; one over the limit is not sent, and its size is told.
pub proof fn single_files_are_sent(path: Seq<char>, size: u64)
    ensures
        size <= 50_000_000 && image_path(path) ==> sending(seq![path], seq![size]) == (
            UploadView::Photo(0),
            Notice::Nothing,
        ),
        size <= 50_000_000 && !image_path(path) ==> sending(seq![path], seq![size]) == (
            UploadView::Video(0),
            Notice::Nothing,
        ),
        size > 50_000_000 ==> sending(seq![path], seq![size]) == (
            UploadView::Nothing,
            Notice::OneTooLarge { size },
        ),
{
}

proof fn lemma_small_files(sizes: Seq<u64>, n: nat)
    requires
        n <= sizes.len() <= usize::MAX,
    ensures
        forall|i: int|
            0 <= i < small_files(sizes, n).len() ==> (#[trigger] small_files(sizes, n)[i]) < n
                && sizes[small_files(sizes, n)[i] as int] <= 50_000_000,
        forall|k: usize|
            k < n && sizes[k as int] <= 50_000_000 ==> #[trigger] small_files(sizes, n).contains(k),
        forall|i: int, j: int|
            0 <= i < j < small_files(sizes, n).len() ==> (#[trigger] small_files(sizes, n)[i]) < (
            #[trigger] small_files(sizes, n)[j]),
        small_files(sizes, n).len() + too_many(sizes, n) == n,
        too_many(sizes, n) > 0 ==> is_largest_skipped(sizes, n, largest_skipped(sizes, n)),
        too_many(sizes, n) == 0 ==> largest_skipped(sizes, n) == 0,
    decreases n,
{
    if n > 0 {
        let m = (n - 1) as nat;
        lemma_small_files(sizes, m);
        let before = small_files(sizes, m);
        let after = small_files(sizes, n);
        assert forall|k: usize|
            k < n && sizes[k as int] <= 50_000_000 implies #[trigger] after.contains(k) by {
            if k < m {
                assert(before.contains(k));
                let i = choose|i: int| 0 <= i < before.len() && before[i] == k;
                assert(after[i] == k);
            } else {
                assert(after[after.len() - 1] == k);
            }
        }
        if too_many(sizes, n) > 0 {
            let big = largest_skipped(sizes, n);
            if sizes[m as int] > 50_000_000 && sizes[m as int] == big {
                assert(over(sizes, n, m as int) && sizes[m as int] == big);
            } else if too_many(sizes, m) > 0 {
                let k = choose|k: int| #[trigger] over(sizes, m, k) && sizes[k] == largest_skipped(
                    sizes,
                    m,
                );
                assert(over(sizes, n, k));
            }
            assert forall|k: int| #[trigger] over(sizes, n, k) implies sizes[k] <= big by {
                if k < m {
                    assert(over(sizes, m, k));
                    assert(too_many(sizes, m) > 0) by {
                        if too_many(sizes, m) == 0 {
                            lemma_none_over(sizes, m);
                        }
                    }
                }
            }
        }
    }
}

proof fn lemma_none_over(sizes: Seq<u64>, n: nat)
    requires
        n <= sizes.len(),
        too_many(sizes, n) == 0,
    ensures
        forall|k: int| !(#[trigger] over(sizes, n, k)),
    decreases n,
{
    if n > 0 {
        lemma_none_over(sizes, (n - 1) as nat);
        assert forall|k: int| !(#[trigger] over(sizes, n, k)) by {
            if over(sizes, n, k) && k < n - 1 {
                assert(over(sizes, (n - 1) as nat, k));
            }
        }
    }
}

/// Whether a file among the first `n` is over the limit.
pub open spec fn over(sizes: Seq<u64>, n: nat, k: int) -> bool {
    0 <= k < n && sizes[k] > 50_000_000
}

/// Whether a size is the largest of those over the limit among the first `n`.
pub open spec fn is_largest_skipped(sizes: Seq<u64>, n: nat, size: u64) -> bool {
    &&& exists|k: int| #[trigger] over(sizes, n, k) && sizes[k] == size
    &&& forall|k: int| #[trigger] over(sizes, n, k) ==> sizes[k] <= size
}

/// Whether indices are those of the files within the limit, in order.
pub open spec fn are_small(sizes: Seq<u64>, files: Seq<usize>) -> bool {
    &&& forall|i: int|
        0 <= i < files.len() ==> (#[trigger] files[i]) < sizes.len() && sizes[files[i] as int]
            <= 50_000_000
    &&& forall|k: usize|
        k < sizes.len() && sizes[k as int] <= 50_000_000 ==> #[trigger] files.contains(k)
    &&& forall|i: int, j: int|
        0 <= i < j < files.len() ==> (#[trigger] files[i]) < (#[trigger] files[j])
}

/// Of several files exactly those within the limit are sent, in order: one as a photo, more of them
/// together. How many are not sent is told, with the size of the largest of them; where all are
/// sent nothing is said.
pub proof fn small_files_are_sent_together(paths: Seq<Seq<char>>, sizes: Seq<u64>)
    requires
        paths.len() == sizes.len(),
        paths.len() != 1,
        paths.len() <= usize::MAX,
    ensures
        ({
            let (upload, notice) = sending(paths, sizes);
            let sent = match upload {
                UploadView::Nothing => Seq::empty(),
                UploadView::Photo(i) => seq![i],
                UploadView::Video(i) => seq![i],
                UploadView::Album(v) => v,
            };
            &&& are_small(sizes, sent)
            &&& !(upload is Video)
            &&& upload matches UploadView::Album(v) ==> v.len() >= 2
            &&& sent.len() == sizes.len() ==> notice is Nothing
            &&& sent.len() < sizes.len() ==> (notice matches Notice::SomeTooLarge {
                skipped,
                largest,
            } && skipped + sent.len() == sizes.len() && is_largest_skipped(
                sizes,
                sizes.len(),
                largest,
            ))
        }),
{
    lemma_small_files(sizes, sizes.len());
    let small = small_files(sizes, sizes.len());
    if small.len() == 1 {
        assert(seq![small[0]] == small);
    } else if small.len() == 0 {
        assert(small == Seq::<usize>::empty());
    }
}

// ---------------------------------------------------------------------------
// File names
// ---------------------------------------------------------------------------

/// The letters and digits of a text that stay in a file name, in order.
pub open spec fn letters(s: Seq<char>) -> Seq<char>
    decreases s.len(),
{
    if s.len() == 0 {
        Seq::empty()
    } else if stays(s.last()) {
        letters(s.drop_last()).push(s.last())
    } else {
        letters(s.drop_last())
    }
}

proof fn lemma_letters_append(a: Seq<char>, b: Seq<char>)
    ensures
        letters(a + b) == letters(a) + letters(b),
    decreases b.len(),
{
    if b.len() == 0 {
        assert(a + b == a);
    } else {
        lemma_letters_append(a, b.drop_last());
        assert((a + b).drop_last() == a + b.drop_last());
        assert((a + b).last() == b.last());
    }
}

proof fn lemma_letters_none(s: Seq<char>)
    requires
        forall|i: int| 0 <= i < s.len() ==> !stays(#[trigger] s[i]),
    ensures
        letters(s).len() == 0,
    decreases s.len(),
{
    if s.len() > 0 {
        assert(!stays(s[s.len() - 1]));
        assert forall|i: int| 0 <= i < s.drop_last().len() implies !stays(
            #[trigger] s.drop_last()[i],
        ) by {
            assert(s.drop_last()[i] == s[i]);
        }
        lemma_letters_none(s.drop_last());
    }
}

/// The letters of parts, one after the other.
spec fn all_letters(parts: Seq<Seq<char>>) -> Seq<char>
    decreases parts.len(),
{
    if parts.len() == 0 {
        Seq::empty()
    } else {
        all_letters(parts.drop_last()) + letters(parts.last())
    }
}

proof fn lemma_letters_joined(parts: Seq<Seq<char>>, sep: Seq<char>)
    requires
        forall|i: int| 0 <= i < sep.len() ==> !stays(#[trigger] sep[i]),
    ensures
        letters(join(parts, sep)) == all_letters(parts),
    decreases parts.len(),
{
    if parts.len() == 1 {
        reveal_with_fuel(all_letters, 2);
        assert(all_letters(parts) == letters(parts[0]));
    } else if parts.len() > 1 {
        lemma_letters_joined(parts.drop_last(), sep);
        lemma_letters_none(sep);
        let front = join(parts.drop_last(), sep);
        lemma_letters_append(front + sep, parts.last());
        lemma_letters_append(front, sep);
        assert(letters(front) + letters(sep) == letters(front));
    }
}

proof fn lemma_letters_nonempty(parts: Seq<Seq<char>>)
    ensures
        all_letters(nonempty(parts)) == all_letters(parts),
    decreases parts.len(),
{
    if parts.len() > 0 {
        lemma_letters_nonempty(parts.drop_last());
        if parts.last().len() == 0 {
            assert(letters(parts.last()) == Seq::<char>::empty());
            assert(all_letters(parts.drop_last()) + letters(parts.last()) == all_letters(
                parts.drop_last(),
            ));
        } else {
            let shorter = nonempty(parts.drop_last());
            assert(shorter.push(parts.last()).drop_last() == shorter);
        }
    }
}

proof fn lemma_letters_marked(s: Seq<char>)
    ensures
        letters(s.map_values(|c: char| kept(c))) == letters(s),
    decreases s.len(),
{
    let mark = |c: char| kept(c);
    let marked = s.map_values(mark);
    if s.len() > 0 {
        lemma_letters_marked(s.drop_last());
        assert(marked.drop_last() == s.drop_last().map_values(mark));
        assert(marked.last() == kept(s.last()));
        assert(white(' '));
    }
}

/// A part of a file name holds the letters and digits of the text it is made of, all of them and in
/// order; only a text without any gives way to the fallback.
pub proof fn letters_stay_in_file_names(s: Seq<char>, fallback: Seq<char>)
    ensures
        letters(s).len() > 0 ==> letters(sanitized(s, fallback)) == letters(s),
        letters(s).len() == 0 ==> sanitized(s, fallback) == fallback,
{
    let mark = |c: char| kept(c);
    let marked = s.map_values(mark);
    let parts = pieces(marked, seq![' ']);
    reveal_strlit("_");
    assert(!stays('_'));
    assert(!stays(' ')) by {
        assert(white(' '));
    }
    pieces_make_up_the_text(marked, ' ');
    lemma_letters_joined(parts, seq![' ']);
    lemma_letters_marked(s);
    lemma_letters_nonempty(parts);
    lemma_letters_joined(words(s), "_"@);
    if letters(s).len() == 0 && words(s).len() > 0 {
        lemma_words_have_letters(marked, s);
        assert(all_letters(words(s)).len() > 0);
    }
    if words(s).len() == 0 {
        assert(join(words(s), "_"@).len() == 0);
    }
}

proof fn lemma_words_have_letters(marked: Seq<char>, s: Seq<char>)
    requires
        marked == s.map_values(|c: char| kept(c)),
        words(s).len() > 0,
    ensures
        all_letters(words(s)).len() > 0,
{
    let parts = pieces(marked, seq![' ']);
    pieces_make_up_the_text(marked, ' ');
    let last = words(s).last();
    lemma_nonempty_from(parts);
    assert(words(s).contains(last)) by {
        assert(words(s)[words(s).len() - 1] == last);
    }
    let k = choose|k: int| 0 <= k < parts.len() && #[trigger] parts[k] == last;
    assert(free_of(parts[k], ' '));
    lemma_piece_chars(marked, k);
    let c = last[last.len() - 1];
    assert(marked.contains(c));
    let i = choose|i: int| 0 <= i < marked.len() && marked[i] == c;
    assert(c == kept(s[i]));
    assert(c != ' ');
    assert(stays(c));
    assert(letters(last).len() > 0);
}

proof fn lemma_nonempty_from(parts: Seq<Seq<char>>)
    ensures
        forall|i: int|
            0 <= i < nonempty(parts).len() ==> (#[trigger] nonempty(parts)[i]).len() > 0
                && parts.contains(nonempty(parts)[i]),
    decreases parts.len(),
{
    if parts.len() > 0 {
        let shorter = parts.drop_last();
        lemma_nonempty_from(shorter);
        assert forall|i: int| 0 <= i < nonempty(parts).len() implies (
        #[trigger] nonempty(parts)[i]).len() > 0 && parts.contains(nonempty(parts)[i]) by {
            if i < nonempty(shorter).len() {
                let w = nonempty(shorter)[i];
                assert(shorter.contains(w));
                let k = choose|k: int| 0 <= k < shorter.len() && shorter[k] == w;
                assert(parts[k] == w);
            } else {
                assert(parts[parts.len() - 1] == nonempty(parts)[i]);
            }
        }
    }
}

/// The characters of a piece are characters of the text.
proof fn lemma_piece_chars(s: Seq<char>, k: int)
    requires
        0 <= k < pieces(s, seq![' ']).len(),
    ensures
        forall|j: int|
            0 <= j < pieces(s, seq![' '])[k].len() ==> s.contains(#[trigger] pieces(s, seq![' '])[k][j]),
{
    pieces_make_up_the_text(s, ' ');
    lemma_joined_holds(pieces(s, seq![' ']), seq![' '], k);
}

proof fn lemma_joined_holds(parts: Seq<Seq<char>>, sep: Seq<char>, k: int)
    requires
        0 <= k < parts.len(),
    ensures
        forall|j: int|
            0 <= j < parts[k].len() ==> join(parts, sep).contains(#[trigger] parts[k][j]),
    decreases parts.len(),
{
    let all = join(parts, sep);
    if parts.len() > 1 {
        let front = join(parts.drop_last(), sep);
        if k < parts.len() - 1 {
            lemma_joined_holds(parts.drop_last(), sep, k);
        }
        assert forall|j: int| 0 <= j < parts[k].len() implies all.contains(
            #[trigger] parts[k][j],
        ) by {
            if k < parts.len() - 1 {
                assert(parts.drop_last()[k] == parts[k]);
                assert(front.contains(parts[k][j]));
                let m = choose|m: int| 0 <= m < front.len() && front[m] == parts[k][j];
                assert(all[m] == parts[k][j]);
            } else {
                assert(all[(front.len() + sep.len() + j) as int] == parts[k][j]);
            }
        }
    } else {
        assert forall|j: int| 0 <= j < parts[k].len() implies all.contains(
            #[trigger] parts[k][j],
        ) by {
            assert(all[j] == parts[k][j]);
        }
    }
}

/// A single word stays as it is.
pub proof fn words_stay_in_file_names(word: Seq<char>, fallback: Seq<char>)
    requires
        word.len() > 0,
        forall|i: int| 0 <= i < word.len() ==> stays(#[trigger] word[i]),
    ensures
        sanitized(word, fallback) == word,
{
    let marked = word.map_values(|c: char| kept(c));
    assert(marked == word);
    assert forall|i: int| 0 <= i < word.len() implies #[trigger] word[i] != ' ' by {
        assert(stays(word[i]));
        assert(white(' '));
    }
    one_piece(word, ' ');
    reveal_with_fuel(nonempty, 2);
    reveal_with_fuel(join, 2);
    assert(seq![word].drop_last() == Seq::<Seq<char>>::empty());
    assert(words(word) == seq![word]);
}

/// The name of a file ends with its number, if it has one, and its extension.
pub proof fn file_names_keep_their_extension(
    user: Seq<char>,
    date: Seq<char>,
    title: Seq<char>,
    number: usize,
    extension: Seq<char>,
)
    ensures
        has_suffix(file_name(user, date, title, None, extension), seq!['.'] + extension),
        has_suffix(
            file_name(user, date, title, Some(number), extension),
            seq!['_'] + two_digits(number as nat) + seq!['.'] + extension,
        ),
{
    reveal_strlit(".");
    let plain = file_name(user, date, title, None, extension);
    let base = basename(user, date, title, base_budget(extension, Seq::empty()));
    ends_of_a_text(base, seq!['.'] + extension);
    assert(plain == base + (seq!['.'] + extension));
    let suffix = seq!['_'] + two_digits(number as nat);
    let counted = file_name(user, date, title, Some(number), extension);
    let other = basename(user, date, title, base_budget(extension, suffix));
    ends_of_a_text(other, suffix + seq!['.'] + extension);
    assert(counted == other + (suffix + seq!['.'] + extension));
}

/// Where everything fits, the name is the user, the date and the title with underscores between
/// them.
pub proof fn short_names_are_whole(user: Seq<char>, date: Seq<char>, title: Seq<char>, max: nat)
    requires
        sanitized(title, "untitled"@).len() > 0,
        sanitized(user, "unknown"@).len() + sanitized(date, "unknown"@).len() + sanitized(
            title,
            "untitled"@,
        ).len() + 2 <= max,
    ensures
        basename(user, date, title, max) == sanitized(user, "unknown"@) + seq!['_'] + sanitized(
            date,
            "unknown"@,
        ) + seq!['_'] + sanitized(title, "untitled"@),
{
}

/// Where the title does not fit, as much of it as does is kept behind the user and the date.
pub proof fn long_titles_are_cut(user: Seq<char>, date: Seq<char>, title: Seq<char>, max: nat)
    requires
        sanitized(user, "unknown"@).len() + sanitized(date, "unknown"@).len() + 2 < max,
        sanitized(user, "unknown"@).len() + sanitized(date, "unknown"@).len() + sanitized(
            title,
            "untitled"@,
        ).len() + 2 > max,
    ensures
        basename(user, date, title, max).len() == max,
        has_prefix(
            sanitized(user, "unknown"@) + seq!['_'] + sanitized(date, "unknown"@) + seq!['_']
                + sanitized(title, "untitled"@),
            basename(user, date, title, max),
        ),
{
    let start = sanitized(user, "unknown"@) + seq!['_'] + sanitized(date, "unknown"@);
    let what = sanitized(title, "untitled"@);
    let all = start + seq!['_'] + what;
    let name = basename(user, date, title, max);
    assert(all.subrange(0, name.len() as int) == name);
}

/// Where the user and the date do not fit, the user is cut and the date is kept whole.
pub proof fn long_users_are_cut(user: Seq<char>, date: Seq<char>, max: nat)
    requires
        user.len() > 0,
        date.len() + 1 < max,
        user.len() + 1 + date.len() > max,
    ensures
        prefix(user, date, max).len() == max,
        has_suffix(prefix(user, date, max), seq!['_'] + date),
        has_prefix(user, prefix(user, date, max).take(max - date.len() - 1)),
{
    let cut = truncated(user, (max - date.len() - 1) as nat);
    let all = prefix(user, date, max);
    assert(all == cut + (seq!['_'] + date));
    ends_of_a_text(cut, seq!['_'] + date);
    assert(all.take(max - date.len() - 1) == cut);
    assert(user.subrange(0, cut.len() as int) == cut);
}

/// Two files of a download that are numbered differently get different names, so that none takes
/// the place of another.
pub proof fn numbered_files_get_different_names(
    user: Seq<char>,
    date: Seq<char>,
    title: Seq<char>,
    a: usize,
    b: usize,
    extension: Seq<char>,
)
    requires
        a != b,
    ensures
        file_name(user, date, title, Some(a), extension) != file_name(
            user,
            date,
            title,
            Some(b),
            extension,
        ),
{
    let x = file_name(user, date, title, Some(a), extension);
    let y = file_name(user, date, title, Some(b), extension);
    if x == y {
        let da = two_digits(a as nat);
        let db = two_digits(b as nat);
        lemma_two_digits_are_digits(a as nat);
        lemma_two_digits_are_digits(b as nat);
        file_names_keep_their_extension(user, date, title, a, extension);
        file_names_keep_their_extension(user, date, title, b, extension);
        let ta = seq!['_'] + da + seq!['.'] + extension;
        let tb = seq!['_'] + db + seq!['.'] + extension;
        let n = x.len() as int;
        let e = extension.len() as int;
        assert(x.subrange(n - ta.len(), n) == ta);
        assert(y.subrange(n - tb.len(), n) == tb);
        if da.len() < db.len() {
            let i = n - ta.len();
            assert(x[i] == ta[0]);
            assert(x[i] == tb[i - (n - tb.len())]);
            assert(tb[i - (n - tb.len())] == db[i - (n - tb.len()) - 1]);
        } else if db.len() < da.len() {
            let i = n - tb.len();
            assert(y[i] == tb[0]);
            assert(y[i] == ta[i - (n - ta.len())]);
            assert(ta[i - (n - ta.len())] == da[i - (n - ta.len()) - 1]);
        } else {
            assert(ta == tb);
            assert(ta.subrange(1, (1 + da.len()) as int) == da);
            assert(tb.subrange(1, (1 + db.len()) as int) == db);
            numbers_look_different(a as nat, b as nat);
        }
    }
}

proof fn lemma_two_digits_are_digits(n: nat)
    ensures
        forall|i: int| 0 <= i < two_digits(n).len() ==> '0' <= #[trigger] two_digits(n)[i] <= '9',
{
    lemma_decimal_digits(n);
    if n >= 10 {
        assert forall|i: int| 0 <= i < two_digits(n).len() implies '0' <= #[trigger] two_digits(
            n,
        )[i] <= '9' by {
            assert(crate::text::ascii_digit(decimal(n)[i]));
        }
    }
}

/// A name of which the number and the extension leave nothing is the number and the extension.
pub proof fn long_extensions_stand_alone(
    user: Seq<char>,
    date: Seq<char>,
    title: Seq<char>,
    number: usize,
    extension: Seq<char>,
)
    ensures
        extension.len() >= 78 ==> file_name(user, date, title, None, extension) == seq!['.']
            + extension,
        extension.len() + two_digits(number as nat).len() >= 77 ==> file_name(
            user,
            date,
            title,
            Some(number),
            extension,
        ) == seq!['_'] + two_digits(number as nat) + seq!['.'] + extension,
{
    reveal_strlit(".");
    let none = Seq::<char>::empty();
    let suffix = seq!['_'] + two_digits(number as nat);
    basename_fits(user, date, title, base_budget(extension, none));
    basename_fits(user, date, title, base_budget(extension, suffix));
    if extension.len() >= 78 {
        assert(basename(user, date, title, base_budget(extension, none)) == none);
        assert(file_name(user, date, title, None, extension) == none + none + "."@ + extension);
    }
    if extension.len() + two_digits(number as nat).len() >= 77 {
        assert(basename(user, date, title, base_budget(extension, suffix)) == none);
        assert(file_name(user, date, title, Some(number), extension) == none + suffix + "."@
            + extension);
    }
}

/// What is said about files that are too large begins with their number and ends with the size of
/// the largest; what is said about the only file holds its size.
pub proof fn large_files_are_told_of(skipped: nat, size: Seq<char>)
    ensures
        has_prefix(some_too_large(skipped, size), decimal(skipped) + " downloaded "@),
        has_suffix(some_too_large(skipped, size), size + "."@),
        skipped == 1 ==> has_prefix(
            some_too_large(skipped, size),
            decimal(1) + " downloaded "@ + "file was"@,
        ),
        skipped != 1 ==> has_prefix(
            some_too_large(skipped, size),
            decimal(skipped) + " downloaded "@ + "files were"@,
        ),
        has_prefix(one_too_large(size), "The downloaded file is "@ + size),
        sending_failed(true) != sending_failed(false),
{
    let said = some_too_large(skipped, size);
    let front = decimal(skipped) + " downloaded "@;
    let verb = if skipped == 1 {
        "file was"@
    } else {
        "files were"@
    };
    let middle = " over Telegram's 50 MB bot upload limit and were not sent. The largest was "@;
    assert(said.subrange(0, front.len() as int) == front);
    assert(said.subrange(0, (front + verb).len() as int) == front + verb);
    assert(said == (front + verb + middle) + (size + "."@));
    ends_of_a_text(front + verb + middle, size + "."@);
    let one = one_too_large(size);
    let begin = "The downloaded file is "@ + size;
    assert(one.subrange(0, begin.len() as int) == begin);
    reveal_strlit(
        "Something went wrong while sending the file: Telegram rejected it as larger than the 50 MB bot upload limit.",
    );
    reveal_strlit("Something went wrong while sending the downloaded media. Please try again later.");
    assert(sending_failed(true).len() == 108);
    assert(sending_failed(false).len() == 80);
}

} // verus!
