//! Delivering what was downloaded: which files are taken, what they are called, and which of them
//! are sent.
use vstd::prelude::*;

use crate::encode::TELEGRAM_UPLOAD_LIMIT_BYTES;
use crate::filename::{build_delivery_filename, file_name};
use crate::json::{some_string, some_text};
use crate::metadata::{DeliveryFilenameMetadata, DeliveryView};
use crate::numbers::{decimal, decimal_text};
use crate::order::{key_views, sort_indices, sorted_indices, sorting_is_stable, stands_before};
use crate::posts::is_empty_text;
use crate::text::{chars_of, ends_with, has_suffix, same_text};

verus! {

// ---------------------------------------------------------------------------
// Kinds of files
// ---------------------------------------------------------------------------

/// What a downloaded file is.
#[derive(Clone, Copy, PartialEq, Eq, Structural, Debug)]
pub enum FileKind {
    Video,
    Audio,
    Image,
    Other,
}

/// Whether an extension is that of an image that Telegram takes as it is.
pub open spec fn plain_image(extension: Seq<char>) -> bool {
    extension == "jpg"@ || extension == "jpeg"@ || extension == "png"@
}

/// What a file with an extension is.
pub open spec fn kind_of(extension: Option<Seq<char>>) -> FileKind {
    match extension {
        Some(e) => if e == "mp4"@ {
            FileKind::Video
        } else if e == "m4a"@ {
            FileKind::Audio
        } else if plain_image(e) || e == "webp"@ {
            FileKind::Image
        } else {
            FileKind::Other
        },
        None => FileKind::Other,
    }
}

/// Whether an extension is that of an image that Telegram takes as it is.
pub fn is_plain_image(extension: &str) -> (r: bool)
    ensures
        r == plain_image(extension@),
{
    same_text(extension, "jpg") || same_text(extension, "jpeg") || same_text(extension, "png")
}

/// What a file with an extension is.
pub fn file_kind(extension: Option<&str>) -> (r: FileKind)
    ensures
        r == kind_of(some_text(extension)),
{
    match extension {
        Some(e) => if same_text(e, "mp4") {
            FileKind::Video
        } else if same_text(e, "m4a") {
            FileKind::Audio
        } else if is_plain_image(e) || same_text(e, "webp") {
            FileKind::Image
        } else {
            FileKind::Other
        },
        None => FileKind::Other,
    }
}

/// Whether a file with an extension can be delivered by itself: it is a video or an image.
pub fn is_deliverable(extension: Option<&str>) -> (r: bool)
    ensures
        r == (kind_of(some_text(extension)) == FileKind::Video || kind_of(some_text(extension))
            == FileKind::Image),
{
    match file_kind(extension) {
        FileKind::Video => true,
        FileKind::Image => true,
        _ => false,
    }
}

/// Whether there is something among the extensions that can be delivered.
pub fn item_dir_has_deliverable_files(extensions: &Vec<Option<String>>) -> (r: bool)
    ensures
        r == exists|i: int|
            0 <= i < extensions@.len() && (kind_of(some_string(#[trigger] extensions@[i]))
                == FileKind::Video || kind_of(some_string(extensions@[i])) == FileKind::Image),
{
    let mut i: usize = 0;
    while i < extensions.len()
        invariant
            i <= extensions.len(),
            forall|j: int|
                0 <= j < i ==> !(kind_of(some_string(#[trigger] extensions@[j]))
                    == FileKind::Video || kind_of(some_string(extensions@[j])) == FileKind::Image),
        decreases extensions.len() - i,
    {
        let found = match &extensions[i] {
            Some(e) => is_deliverable(Some(e.as_str())),
            None => is_deliverable(None),
        };
        if found {
            return true;
        }
        i += 1;
    }
    false
}

/// Whether a file holds the description of a post.
pub fn is_description_file(extension: Option<&str>) -> (r: bool)
    ensures
        r == (some_text(extension) == Some("description"@)),
{
    match extension {
        Some(e) => same_text(e, "description"),
        None => false,
    }
}

/// Whether a file holds the notes about a download.
pub fn is_info_file(extension: Option<&str>, path: &str) -> (r: bool)
    ensures
        r == (some_text(extension) == Some("json"@) && has_suffix(path@, ".info.json"@)),
{
    match extension {
        Some(e) => {
            let cs = chars_of(path);
            same_text(e, "json") && ends_with(cs.as_slice(), ".info.json")
        },
        None => false,
    }
}

// ---------------------------------------------------------------------------
// Which files are taken
// ---------------------------------------------------------------------------

/// What is delivered of the files of a download.
#[derive(Debug, PartialEq, Eq)]
pub enum DeliveryPlan {
    /// A video, with the sound of another file where there is one.
    Video { video: usize, audio: Option<usize> },
    /// Images.
    Images(Vec<usize>),
    /// There is nothing to deliver.
    Nothing,
}

/// What is delivered of the files of a download.
pub enum PlanView {
    Video { video: usize, audio: Option<usize> },
    Images(Seq<usize>),
    Nothing,
}

impl View for DeliveryPlan {
    type V = PlanView;

    open spec fn view(&self) -> PlanView {
        match self {
            DeliveryPlan::Video { video, audio } => PlanView::Video {
                video: *video,
                audio: *audio,
            },
            DeliveryPlan::Images(v) => PlanView::Images(v@),
            DeliveryPlan::Nothing => PlanView::Nothing,
        }
    }
}

/// The files of a kind, in the given order.
pub open spec fn of_kind(order: Seq<usize>, kinds: Seq<FileKind>, kind: FileKind) -> Seq<usize>
    decreases order.len(),
{
    if order.len() == 0 {
        Seq::empty()
    } else if kinds[order.last() as int] == kind {
        of_kind(order.drop_last(), kinds, kind).push(order.last())
    } else {
        of_kind(order.drop_last(), kinds, kind)
    }
}

/// The first of the files, if there is one.
pub open spec fn first_of(files: Seq<usize>) -> Option<usize> {
    if files.len() > 0 {
        Some(files[0])
    } else {
        None
    }
}

/// The files of a kind, in the order of their names.
pub open spec fn named_files(names: Seq<Seq<u8>>, kinds: Seq<FileKind>, kind: FileKind) -> Seq<
    usize,
> {
    of_kind(sorted_indices(names, names.len()), kinds, kind)
}

/// What is delivered: the first video with the first sound, else all the images.
pub open spec fn delivery_plan(names: Seq<Seq<u8>>, kinds: Seq<FileKind>) -> PlanView {
    match first_of(named_files(names, kinds, FileKind::Video)) {
        Some(video) => PlanView::Video {
            video,
            audio: first_of(named_files(names, kinds, FileKind::Audio)),
        },
        None => if named_files(names, kinds, FileKind::Image).len() > 0 {
            PlanView::Images(named_files(names, kinds, FileKind::Image))
        } else {
            PlanView::Nothing
        },
    }
}

/// The files of a kind, in the given order.
fn select_kind(order: &Vec<usize>, kinds: &Vec<FileKind>, kind: FileKind) -> (r: Vec<usize>)
    requires
        forall|i: int| 0 <= i < order@.len() ==> (#[trigger] order@[i]) < kinds@.len(),
    ensures
        r@ == of_kind(order@, kinds@, kind),
{
    let mut out: Vec<usize> = Vec::new();
    let mut i: usize = 0;
    while i < order.len()
        invariant
            i <= order.len(),
            forall|i: int| 0 <= i < order@.len() ==> (#[trigger] order@[i]) < kinds@.len(),
            out@ == of_kind(order@.take(i as int), kinds@, kind),
        decreases order.len() - i,
    {
        assert(order@.take(i + 1).drop_last() == order@.take(i as int));
        assert(order@.take(i + 1).last() == order@[i as int]);
        let k: usize = order[i];
        if kinds[k] == kind {
            out.push(k);
        }
        i += 1;
    }
    assert(order@.take(i as int) == order@);
    out
}

/// Decides what is delivered, by the names and the kinds of the files.
pub fn plan_delivery(names: &Vec<Vec<u8>>, kinds: &Vec<FileKind>) -> (r: DeliveryPlan)
    requires
        names@.len() == kinds@.len(),
    ensures
        r@ == delivery_plan(key_views(names@), kinds@),
{
    let order = sort_indices(names);
    assert(key_views(names@).len() == names@.len());
    let videos = select_kind(&order, kinds, FileKind::Video);
    if videos.len() > 0 {
        let sounds = select_kind(&order, kinds, FileKind::Audio);
        let audio = if sounds.len() > 0 {
            Some(sounds[0])
        } else {
            None
        };
        return DeliveryPlan::Video { video: videos[0], audio };
    }
    let images = select_kind(&order, kinds, FileKind::Image);
    if images.len() > 0 {
        DeliveryPlan::Images(images)
    } else {
        DeliveryPlan::Nothing
    }
}

proof fn lemma_of_kind(order: Seq<usize>, keys: Seq<Seq<u8>>, kinds: Seq<FileKind>, kind: FileKind)
    requires
        forall|i: int, j: int|
            0 <= i < j < order.len() ==> stands_before(
                keys,
                #[trigger] order[i],
                #[trigger] order[j],
            ),
    ensures
        forall|i: int|
            0 <= i < of_kind(order, kinds, kind).len() ==> order.contains(
                #[trigger] of_kind(order, kinds, kind)[i],
            ) && kinds[of_kind(order, kinds, kind)[i] as int] == kind,
        forall|i: int|
            0 <= i < order.len() && kinds[(#[trigger] order[i]) as int] == kind ==> of_kind(
                order,
                kinds,
                kind,
            ).contains(order[i]),
        forall|i: int, j: int|
            0 <= i < j < of_kind(order, kinds, kind).len() ==> stands_before(
                keys,
                #[trigger] of_kind(order, kinds, kind)[i],
                #[trigger] of_kind(order, kinds, kind)[j],
            ),
    decreases order.len(),
{
    if order.len() > 0 {
        let shorter = order.drop_last();
        let before = of_kind(shorter, kinds, kind);
        let after = of_kind(order, kinds, kind);
        assert forall|i: int, j: int| 0 <= i < j < shorter.len() implies stands_before(
            keys,
            #[trigger] shorter[i],
            #[trigger] shorter[j],
        ) by {
            assert(shorter[i] == order[i] && shorter[j] == order[j]);
        }
        lemma_of_kind(shorter, keys, kinds, kind);
        let last = order.last();
        assert(order[order.len() - 1] == last);
        assert forall|i: int| 0 <= i < after.len() implies order.contains(#[trigger] after[i])
            && kinds[after[i] as int] == kind by {
            if i < before.len() {
                assert(after[i] == before[i]);
                assert(shorter.contains(before[i]));
                let k = choose|k: int| 0 <= k < shorter.len() && shorter[k] == before[i];
                assert(order[k] == before[i]);
            }
        }
        assert forall|i: int| 0 <= i < order.len() && kinds[(#[trigger] order[i]) as int]
            == kind implies after.contains(order[i]) by {
            if i < shorter.len() {
                assert(shorter[i] == order[i]);
                assert(before.contains(shorter[i]));
                let k = choose|k: int| 0 <= k < before.len() && before[k] == order[i];
                assert(after[k] == order[i]);
            } else {
                assert(after[before.len() as int] == last);
            }
        }
        assert forall|i: int, j: int| 0 <= i < j < after.len() implies stands_before(
            keys,
            #[trigger] after[i],
            #[trigger] after[j],
        ) by {
            assert(after[i] == before[i]);
            if j < before.len() {
                assert(after[j] == before[j]);
            } else {
                assert(shorter.contains(before[i]));
                let k = choose|k: int| 0 <= k < shorter.len() && shorter[k] == before[i];
                assert(order[k] == before[i]);
                assert(stands_before(keys, order[k], order[order.len() - 1]));
            }
        }
    }
}

/// The files of a kind are listed in the order of their names, each of them and no others.
pub proof fn files_are_listed_by_name(names: Seq<Seq<u8>>, kinds: Seq<FileKind>, kind: FileKind)
    requires
        names.len() == kinds.len(),
        names.len() <= usize::MAX,
    ensures
        forall|i: int|
            0 <= i < named_files(names, kinds, kind).len() ==> (#[trigger] named_files(
                names,
                kinds,
                kind,
            )[i]) < names.len() && kinds[named_files(names, kinds, kind)[i] as int] == kind,
        forall|k: usize|
            k < names.len() && kinds[k as int] == kind ==> #[trigger] named_files(
                names,
                kinds,
                kind,
            ).contains(k),
        forall|i: int, j: int|
            0 <= i < j < named_files(names, kinds, kind).len() ==> stands_before(
                names,
                #[trigger] named_files(names, kinds, kind)[i],
                #[trigger] named_files(names, kinds, kind)[j],
            ),
{
    let order = sorted_indices(names, names.len());
    sorting_is_stable(names, names.len());
    lemma_of_kind(order, names, kinds, kind);
    let files = named_files(names, kinds, kind);
    assert forall|i: int| 0 <= i < files.len() implies (#[trigger] files[i]) < names.len()
        && kinds[files[i] as int] == kind by {
        assert(order.contains(files[i]));
        let k = choose|k: int| 0 <= k < order.len() && order[k] == files[i];
        assert(order[k] < names.len());
    }
    assert forall|k: usize| k < names.len() && kinds[k as int] == kind implies
        #[trigger] files.contains(k) by {
        assert(order.contains(k));
        let i = choose|i: int| 0 <= i < order.len() && order[i] == k;
        assert(kinds[order[i] as int] == kind);
        assert(of_kind(order, kinds, kind).contains(order[i]));
    }
}

// ---------------------------------------------------------------------------
// What they are called
// ---------------------------------------------------------------------------

/// The name of a file after one of its own metadata.
pub open spec fn delivered_name(m: DeliveryView, sequence: Option<usize>, extension: Seq<char>) ->
    Seq<char> {
    file_name(m.filename_username, m.date, m.title, sequence, extension)
}

/// The new name of a delivered file, or that it has no extension to keep.
pub fn renamed(
    metadata: &DeliveryFilenameMetadata,
    sequence: Option<usize>,
    extension: Option<&str>,
    path: &str,
) -> (r: Result<String, String>)
    ensures
        match r {
            Ok(name) => some_text(extension) matches Some(e) && e.len() > 0 && name@
                == delivered_name(metadata@, sequence, e),
            Err(m) => !(some_text(extension) matches Some(e) && e.len() > 0) && m@
                == "downloaded media file has no extension: "@ + path@,
        },
{
    match extension {
        Some(e) if !is_empty_text(e) => Ok(build_delivery_filename(metadata, sequence, e)),
        _ => {
            let mut m = "downloaded media file has no extension: ".to_owned();
            m.append(path);
            Err(m)
        },
    }
}

/// The number that an image gets: none where it is the only one.
pub fn image_sequence(index: usize, total: usize) -> (r: Option<usize>)
    requires
        index < total,
    ensures
        r == if total > 1 {
            Some((index + 1) as usize)
        } else {
            None
        },
{
    if total > 1 {
        Some(index + 1)
    } else {
        None
    }
}

/// How an image is made ready.
#[derive(Debug, PartialEq, Eq)]
pub enum ImageStep {
    /// It gets the name.
    Rename(String),
    /// It is turned into a JPEG with the name.
    Transcode(String),
}

/// Decides how an image is made ready.
pub fn image_step(
    metadata: &DeliveryFilenameMetadata,
    sequence: Option<usize>,
    extension: Option<&str>,
) -> (r: ImageStep)
    ensures
        match some_text(extension) {
            Some(e) if plain_image(e) => r matches ImageStep::Rename(name) && name@
                == delivered_name(metadata@, sequence, e),
            _ => r matches ImageStep::Transcode(name) && name@ == delivered_name(
                metadata@,
                sequence,
                "jpg"@,
            ),
        },
{
    match extension {
        Some(e) if is_plain_image(e) => ImageStep::Rename(
            build_delivery_filename(metadata, sequence, e),
        ),
        _ => ImageStep::Transcode(build_delivery_filename(metadata, sequence, "jpg")),
    }
}

/// Whether a path is that of an image.
pub open spec fn image_path(path: Seq<char>) -> bool {
    has_suffix(path, ".jpg"@) || has_suffix(path, ".jpeg"@) || has_suffix(path, ".png"@)
        || has_suffix(path, ".webp"@)
}

/// Whether a path is that of an image.
pub fn is_image_path(path: &str) -> (r: bool)
    ensures
        r == image_path(path@),
{
    let cs = chars_of(path);
    ends_with(cs.as_slice(), ".jpg") || ends_with(cs.as_slice(), ".jpeg") || ends_with(
        cs.as_slice(),
        ".png",
    ) || ends_with(cs.as_slice(), ".webp")
}

// ---------------------------------------------------------------------------
// Which of them are sent
// ---------------------------------------------------------------------------

/// What is sent.
#[derive(Debug, PartialEq, Eq)]
pub enum Upload {
    Nothing,
    Photo(usize),
    Video(usize),
    Album(Vec<usize>),
}

/// What is sent.
pub enum UploadView {
    Nothing,
    Photo(usize),
    Video(usize),
    Album(Seq<usize>),
}

impl View for Upload {
    type V = UploadView;

    open spec fn view(&self) -> UploadView {
        match self {
            Upload::Nothing => UploadView::Nothing,
            Upload::Photo(i) => UploadView::Photo(*i),
            Upload::Video(i) => UploadView::Video(*i),
            Upload::Album(v) => UploadView::Album(v@),
        }
    }
}

/// What is said about files that are not sent.
#[derive(Clone, Copy, PartialEq, Eq, Structural, Debug)]
pub enum Notice {
    Nothing,
    /// The only file is too large.
    OneTooLarge { size: u64 },
    /// Some of the files are too large.
    SomeTooLarge { skipped: usize, largest: u64 },
}

/// The size of a file that is too large to send.
pub fn oversized_telegram_file_size(size: u64) -> (r: Option<u64>)
    ensures
        r == if size > TELEGRAM_UPLOAD_LIMIT_BYTES {
            Some(size)
        } else {
            None
        },
{
    if size > TELEGRAM_UPLOAD_LIMIT_BYTES {
        Some(size)
    } else {
        None
    }
}

/// The first `n` files that are small enough.
pub open spec fn small_files(sizes: Seq<u64>, n: nat) -> Seq<usize>
    decreases n,
{
    if n == 0 {
        Seq::empty()
    } else if sizes[n - 1] > TELEGRAM_UPLOAD_LIMIT_BYTES {
        small_files(sizes, (n - 1) as nat)
    } else {
        small_files(sizes, (n - 1) as nat).push((n - 1) as usize)
    }
}

/// How many of the first `n` files are too large.
pub open spec fn too_many(sizes: Seq<u64>, n: nat) -> nat
    decreases n,
{
    if n == 0 {
        0
    } else if sizes[n - 1] > TELEGRAM_UPLOAD_LIMIT_BYTES {
        too_many(sizes, (n - 1) as nat) + 1
    } else {
        too_many(sizes, (n - 1) as nat)
    }
}

/// The size of the largest of the first `n` files that are too large.
pub open spec fn largest_skipped(sizes: Seq<u64>, n: nat) -> u64
    decreases n,
{
    if n == 0 {
        0
    } else {
        let before = largest_skipped(sizes, (n - 1) as nat);
        if sizes[n - 1] > TELEGRAM_UPLOAD_LIMIT_BYTES && sizes[n - 1] > before {
            sizes[n - 1]
        } else {
            before
        }
    }
}

/// What is sent of the files, and what is said about the others.
pub open spec fn sending(paths: Seq<Seq<char>>, sizes: Seq<u64>) -> (UploadView, Notice) {
    if paths.len() == 1 {
        if sizes[0] > TELEGRAM_UPLOAD_LIMIT_BYTES {
            (UploadView::Nothing, Notice::OneTooLarge { size: sizes[0] })
        } else if image_path(paths[0]) {
            (UploadView::Photo(0), Notice::Nothing)
        } else {
            (UploadView::Video(0), Notice::Nothing)
        }
    } else {
        let small = small_files(sizes, sizes.len());
        let skipped = too_many(sizes, sizes.len());
        let upload = if small.len() == 0 {
            UploadView::Nothing
        } else if small.len() == 1 {
            UploadView::Photo(small[0])
        } else {
            UploadView::Album(small)
        };
        let notice = if skipped > 0 {
            Notice::SomeTooLarge {
                skipped: skipped as usize,
                largest: largest_skipped(sizes, sizes.len()),
            }
        } else {
            Notice::Nothing
        };
        (upload, notice)
    }
}

/// Decides what is sent of the files, and what is said about the others.
pub fn plan_sending(files: &Vec<String>, sizes: &Vec<u64>) -> (r: (Upload, Notice))
    requires
        files@.len() == sizes@.len(),
    ensures
        (r.0@, r.1) == sending(crate::text::texts(files@), sizes@),
{
    assert(crate::text::texts(files@).len() == files@.len());
    if files.len() == 1 {
        assert(crate::text::texts(files@)[0] == files@[0]@);
        return match oversized_telegram_file_size(sizes[0]) {
            Some(size) => (Upload::Nothing, Notice::OneTooLarge { size }),
            None => if is_image_path(files[0].as_str()) {
                (Upload::Photo(0), Notice::Nothing)
            } else {
                (Upload::Video(0), Notice::Nothing)
            },
        };
    }
    let mut small: Vec<usize> = Vec::new();
    let mut skipped: usize = 0;
    let mut largest: u64 = 0;
    let mut i: usize = 0;
    while i < sizes.len()
        invariant
            i <= sizes.len(),
            small@ == small_files(sizes@, i as nat),
            skipped == too_many(sizes@, i as nat),
            skipped <= i,
            largest == largest_skipped(sizes@, i as nat),
        decreases sizes.len() - i,
    {
        match oversized_telegram_file_size(sizes[i]) {
            Some(size) => {
                skipped += 1;
                if size > largest {
                    largest = size;
                }
            },
            None => {
                small.push(i);
            },
        }
        i += 1;
    }
    let notice = if skipped > 0 {
        Notice::SomeTooLarge { skipped, largest }
    } else {
        Notice::Nothing
    };
    let upload = if small.len() == 0 {
        Upload::Nothing
    } else if small.len() == 1 {
        Upload::Photo(small[0])
    } else {
        Upload::Album(small)
    };
    (upload, notice)
}

proof fn lemma_small_files(sizes: Seq<u64>, n: nat)
    requires
        n <= sizes.len() <= usize::MAX,
    ensures
        small_files(sizes, n).len() + too_many(sizes, n) == n,
        forall|i: int|
            0 <= i < small_files(sizes, n).len() ==> (#[trigger] small_files(sizes, n)[i]) < n
                && sizes[small_files(sizes, n)[i] as int] <= TELEGRAM_UPLOAD_LIMIT_BYTES,
        forall|k: int|
            0 <= k < n && #[trigger] sizes[k] > TELEGRAM_UPLOAD_LIMIT_BYTES ==> sizes[k]
                <= largest_skipped(sizes, n),
    decreases n,
{
    if n > 0 {
        lemma_small_files(sizes, (n - 1) as nat);
        let before = small_files(sizes, (n - 1) as nat);
        let after = small_files(sizes, n);
        assert forall|i: int| 0 <= i < after.len() implies (#[trigger] after[i]) < n
            && sizes[after[i] as int] <= TELEGRAM_UPLOAD_LIMIT_BYTES by {
            if i < before.len() {
                assert(after[i] == before[i]);
            }
        }
    }
}

/// Of several files each is either sent or counted among those that are not; what is sent is
/// within the limit, and none that is not is larger than the largest that is named.
pub proof fn every_file_is_sent_or_mentioned(paths: Seq<Seq<char>>, sizes: Seq<u64>)
    requires
        paths.len() == sizes.len(),
        1 < sizes.len() <= usize::MAX,
    ensures
        ({
            let sent = match sending(paths, sizes).0 {
                UploadView::Nothing => Seq::empty(),
                UploadView::Photo(i) => seq![i],
                UploadView::Video(i) => seq![i],
                UploadView::Album(v) => v,
            };
            let (skipped, largest) = match sending(paths, sizes).1 {
                Notice::SomeTooLarge { skipped, largest } => (skipped as int, largest),
                _ => (0, 0),
            };
            &&& sent.len() + skipped == sizes.len()
            &&& forall|i: int|
                0 <= i < sent.len() ==> (#[trigger] sent[i]) < sizes.len() && sizes[sent[i] as int]
                    <= TELEGRAM_UPLOAD_LIMIT_BYTES
            &&& forall|k: int|
                0 <= k < sizes.len() && #[trigger] sizes[k] > TELEGRAM_UPLOAD_LIMIT_BYTES
                    ==> sizes[k] <= largest
        }),
{
    lemma_small_files(sizes, sizes.len());
    let small = small_files(sizes, sizes.len());
    if small.len() == 1 {
        assert(seq![small[0]] == small);
    } else if small.len() == 0 {
        assert(Seq::<usize>::empty() == small);
    }
    if too_many(sizes, sizes.len()) == 0 {
        lemma_none_too_large(sizes, sizes.len());
    }
}

proof fn lemma_none_too_large(sizes: Seq<u64>, n: nat)
    requires
        n <= sizes.len(),
        too_many(sizes, n) == 0,
    ensures
        forall|k: int| 0 <= k < n ==> #[trigger] sizes[k] <= TELEGRAM_UPLOAD_LIMIT_BYTES,
    decreases n,
{
    if n > 0 {
        lemma_none_too_large(sizes, (n - 1) as nat);
    }
}

/// What is said about the only file when it is too large.
pub open spec fn one_too_large(size: Seq<char>) -> Seq<char> {
    "The downloaded file is "@ + size
        + ", which is over Telegram's 50 MB bot upload limit, so I did not send it."@
}

/// Says that the only file is too large.
pub fn file_too_large_text(size_label: &str) -> (r: String)
    ensures
        r@ == one_too_large(size_label@),
{
    let mut out = "The downloaded file is ".to_owned();
    out.append(size_label);
    out.append(", which is over Telegram's 50 MB bot upload limit, so I did not send it.");
    out
}

/// What is said about files that are too large.
pub open spec fn some_too_large(skipped: nat, largest: Seq<char>) -> Seq<char> {
    decimal(skipped) + " downloaded "@ + (if skipped == 1 {
        "file was"@
    } else {
        "files were"@
    }) + " over Telegram's 50 MB bot upload limit and were not sent. The largest was "@ + largest
        + "."@
}

/// Says that some of the files are too large.
pub fn files_too_large_text(skipped_files: usize, largest_label: &str) -> (r: String)
    ensures
        r@ == some_too_large(skipped_files as nat, largest_label@),
{
    let mut out = decimal_text(skipped_files as u64);
    out.append(" downloaded ");
    if skipped_files == 1 {
        out.append("file was");
    } else {
        out.append("files were");
    }
    out.append(" over Telegram's 50 MB bot upload limit and were not sent. The largest was ");
    out.append(largest_label);
    out.append(".");
    out
}

/// What is said when sending fails.
pub open spec fn sending_failed(too_large: bool) -> Seq<char> {
    if too_large {
        "Something went wrong while sending the file: Telegram rejected it as larger than the 50 MB bot upload limit."@
    } else {
        "Something went wrong while sending the downloaded media. Please try again later."@
    }
}

/// Says that sending failed.
pub fn delivery_error_text(too_large: bool) -> (r: &'static str)
    ensures
        r@ == sending_failed(too_large),
{
    if too_large {
        "Something went wrong while sending the file: Telegram rejected it as larger than the 50 MB bot upload limit."
    } else {
        "Something went wrong while sending the downloaded media. Please try again later."
    }
}

} // verus!
