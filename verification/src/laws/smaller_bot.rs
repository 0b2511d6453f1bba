//! What the smaller bot does in its own way.
use vstd::prelude::*;

use crate::encode::ArgView;
use crate::laws::texts::ends_of_a_text;
use crate::laws::videos::told;
use crate::links::{url_read, UrlView};
use crate::mine_bot::{
    address_of, convert_arguments, downloader_words, image_path, sending, Upload,
};
use crate::text::has_suffix;

verus! {

/// An address is downloaded as it is, and what is none is refused with the reason.
pub proof fn addresses_are_taken_as_they_are(input: Seq<char>, url: UrlView, reason: Seq<char>)
    ensures
        url_read(input) == Ok::<UrlView, Seq<char>>(url) ==> address_of(input) == Ok::<
            Seq<char>,
            Seq<char>,
        >(url.href),
        url_read(input) == Err::<UrlView, Seq<char>>(reason) ==> address_of(input) == Err::<
            Seq<char>,
            Seq<char>,
        >(reason),
{
}

/// A single file is sent as the photo or the video that it is, several together, and nothing where
/// there is nothing.
pub proof fn files_are_sent(path: Seq<char>, stem: Seq<char>, more: Seq<Seq<char>>)
    ensures
        sending(Seq::empty()) == Upload::Nothing,
        image_path(path) ==> sending(seq![path]) == Upload::Photo,
        !image_path(path) ==> sending(seq![path]) == Upload::Video,
        more.len() > 0 ==> sending(seq![path] + more) == Upload::Album,
        image_path(stem + ".jpg"@),
        image_path(stem + ".jpeg"@),
        image_path(stem + ".png"@),
        image_path(path) ==> has_suffix(path, ".jpg"@) || has_suffix(path, ".jpeg"@) || has_suffix(
            path,
            ".png"@,
        ),
{
    ends_of_a_text(stem, ".jpg"@);
    ends_of_a_text(stem, ".jpeg"@);
    ends_of_a_text(stem, ".png"@);
}

/// The downloader is told the address last and where to write before it, and to ask for MP4 with M4A
/// sound.
pub proof fn downloader_is_told_what_to_do(address: Seq<char>, template: Seq<char>)
    ensures
        ({
            let words = downloader_words(address, template);
            &&& words.last() == address
            &&& words[words.len() - 2] == template
            &&& words[words.len() - 3] == "--output"@
            &&& words[0] == "-f"@ && words[1] == "bv*[ext=mp4]+ba[ext=m4a]/b[ext=mp4]/b"@
            &&& words.contains("--write-info-json"@)
            &&& words.contains("--write-description"@)
        }),
{
    let words = downloader_words(address, template);
    assert(words[4] == "--write-info-json"@);
    assert(words[5] == "--write-description"@);
}

/// A video is made with the sound of the other file or, where there is none, without sound.
pub proof fn conversion_is_told_what_to_do(with_audio: bool)
    ensures
        ({
            let args = convert_arguments(with_audio);
            &&& told(args, "-i"@, ArgView::Input)
            &&& told(args, "-i"@, ArgView::Audio) == with_audio
            &&& told(args, "-map"@, ArgView::Word("0:v:0"@))
            &&& with_audio ==> told(args, "-map"@, ArgView::Word("1:a:0"@))
            &&& with_audio ==> told(args, "-c:a"@, ArgView::Word("aac"@))
            &&& !with_audio ==> args.contains(ArgView::Word("-an"@))
            &&& told(args, "-c:v"@, ArgView::Word("libx264"@))
            &&& told(args, "-pix_fmt"@, ArgView::Word("yuv420p"@))
            &&& args.last() == ArgView::Output
        }),
{
    let args = convert_arguments(with_audio);
    assert(args[2] == ArgView::Word("-i"@) && args[3] == ArgView::Input);
    let c = if with_audio {
        14int
    } else {
        7int
    };
    if with_audio {
        assert(args[4] == ArgView::Word("-i"@) && args[5] == ArgView::Audio);
        assert(args[6] == ArgView::Word("-map"@) && args[7] == ArgView::Word("0:v:0"@));
        assert(args[8] == ArgView::Word("-map"@) && args[9] == ArgView::Word("1:a:0"@));
        assert(args[10] == ArgView::Word("-c:a"@) && args[11] == ArgView::Word("aac"@));
    } else {
        assert forall|i: int| 0 <= i < args.len() implies #[trigger] args[i] != ArgView::Audio by {}
        assert(args[4] == ArgView::Word("-map"@) && args[5] == ArgView::Word("0:v:0"@));
        assert(args[6] == ArgView::Word("-an"@));
    }
    assert(args[c] == ArgView::Word("-c:v"@) && args[c + 1] == ArgView::Word("libx264"@));
    assert(args[c + 4] == ArgView::Word("-pix_fmt"@) && args[c + 5] == ArgView::Word("yuv420p"@));
}

} // verus!
