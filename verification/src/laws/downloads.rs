//! What becomes of an address that someone sends.
use vstd::prelude::*;

use crate::download::{
    download_next, download_start, downloader_words, post_body, Attempt, DownloadActionView,
    DownloadEvent, DownloadState, DownloadStepView,
};
use crate::encode::ToolExit;
use crate::images::Platform;
use crate::laws::texts::{all_white, blank_texts_are_white};
use crate::links::{
    bluesky_post, instagram_shortcode, normalized, twitter_status_id, url_read, UrlView,
};
use crate::status::StatusPhase;
use crate::text::{has, lowercase, trim};

verus! {

/// The step after the downloader has ended.
pub open spec fn after_run(address: Seq<char>, attempt: Attempt, exit: ToolExit) ->
    DownloadStepView {
    download_next(address, DownloadState::Running(attempt), DownloadEvent::Ran(Ok(exit)))
}

/// Whether a step goes on to the images of the post and shows nothing as failed.
pub open spec fn looks_for_images(step: DownloadStepView) -> bool {
    &&& step.action == DownloadActionView::Fetch(Platform::Instagram)
    &&& step.state == DownloadState::Fetching(Platform::Instagram)
    &&& step.show is None
}

/// Whether the error output asks for another try without a wanted format.
pub open spec fn asks_for_another_format(stderr: Seq<char>) -> bool {
    has(stderr, "There is no video in this post"@) || has(
        stderr,
        "Requested format is not available"@,
    )
}

/// A photo post of Twitter is downloaded: where the downloader finds no video in a tweet, its
/// images are looked for.
pub proof fn tweets_without_video_go_on(address: Seq<char>, attempt: Attempt, exit: ToolExit, id: Seq<char>)
    requires
        !exit.success,
        has(trim(exit.stderr@), "No video could be found in this tweet"@),
        twitter_status_id(address) == Ok::<_, Seq<char>>(Some(id)),
    ensures
        !(after_run(address, attempt, exit).action is Fail),
        attempt == Attempt::AnyFormat || !asks_for_another_format(exit.stderr@)
            ==> looks_for_images(after_run(address, attempt, exit)),
{
}

/// A photo post of Bluesky is downloaded: where the downloader finds no video in a post, its images
/// are looked for.
pub proof fn bluesky_posts_without_video_go_on(
    address: Seq<char>,
    attempt: Attempt,
    exit: ToolExit,
    post: (Seq<char>, Seq<char>),
)
    requires
        !exit.success,
        has(trim(exit.stderr@), "No video could be found in this post"@),
        bluesky_post(address) == Ok::<_, Seq<char>>(Some(post)),
    ensures
        !(after_run(address, attempt, exit).action is Fail),
        attempt == Attempt::AnyFormat || !asks_for_another_format(exit.stderr@)
            ==> looks_for_images(after_run(address, attempt, exit)),
{
}

/// A photo post of Instagram is downloaded: where the downloader finds no video in any format, the
/// images of the post are looked for.
pub proof fn instagram_posts_without_video_go_on(address: Seq<char>, exit: ToolExit, code: Seq<char>)
    requires
        !exit.success,
        asks_for_another_format(trim(exit.stderr@)),
        instagram_shortcode(address) == Ok::<_, Seq<char>>(Some(code)),
    ensures
        looks_for_images(after_run(address, Attempt::AnyFormat, exit)),
{
}

/// A post without a video in the wanted format is asked for in any format, once.
pub proof fn other_formats_are_tried_once(address: Seq<char>, exit: ToolExit)
    requires
        !exit.success,
        asks_for_another_format(exit.stderr@),
    ensures
        after_run(address, Attempt::Preferred, exit).action == DownloadActionView::Run(
            Attempt::AnyFormat,
        ),
        after_run(address, Attempt::Preferred, exit).state == DownloadState::Running(
            Attempt::AnyFormat,
        ),
        after_run(address, Attempt::Preferred, exit).show is None,
        !(after_run(address, Attempt::AnyFormat, exit).action is Run),
{
}

/// Any other failure of the downloader ends the download, and the message says how it ended and
/// what it said.
pub proof fn other_failures_end_the_download(address: Seq<char>, attempt: Attempt, exit: ToolExit)
    requires
        !exit.success,
        !asks_for_another_format(exit.stderr@),
        !asks_for_another_format(trim(exit.stderr@)),
        !(has(trim(exit.stderr@), "No video could be found in this tweet"@)),
        !(has(trim(exit.stderr@), "No video could be found in this post"@)),
    ensures
        after_run(address, attempt, exit).show == Some(StatusPhase::DownloadFailed),
        after_run(address, attempt, exit).state is Finished,
        all_white(exit.stderr@) ==> after_run(address, attempt, exit).action
            == DownloadActionView::Fail("yt-dlp failed with status: "@ + exit.status@),
        !all_white(exit.stderr@) ==> after_run(address, attempt, exit).action
            == DownloadActionView::Fail(
            "yt-dlp failed with status "@ + exit.status@ + ": "@ + trim(exit.stderr@),
        ),
{
    blank_texts_are_white(exit.stderr@);
}

/// Posts that are on none of the platforms with photo posts have no images to fall back on.
pub proof fn other_sites_have_no_fallback(address: Seq<char>, exit: ToolExit)
    requires
        !exit.success,
        !(instagram_shortcode(address) matches Ok(code) && code is Some),
        !(twitter_status_id(address) matches Ok(id) && id is Some),
        !(bluesky_post(address) matches Ok(post) && post is Some),
    ensures
        after_run(address, Attempt::AnyFormat, exit).action is Fail,
{
}

/// A download that the tools carry out goes from one platform's images to the next, makes the files
/// ready and is delivered; nothing is shown as failed.
pub proof fn successful_downloads_are_delivered(
    address: Seq<char>,
    attempt: Attempt,
    exit: ToolExit,
    done: (),
)
    requires
        exit.success,
    ensures
        ({
            let s1 = after_run(address, attempt, exit);
            let s2 = download_next(address, s1.state, DownloadEvent::Fetched(Ok(done)));
            let s3 = download_next(address, s2.state, DownloadEvent::Fetched(Ok(done)));
            let s4 = download_next(address, s3.state, DownloadEvent::Fetched(Ok(done)));
            let s5 = download_next(address, s4.state, DownloadEvent::Collected(Ok(done)));
            &&& looks_for_images(s1)
            &&& s2.action == DownloadActionView::Fetch(Platform::Twitter)
            &&& s3.action == DownloadActionView::Fetch(Platform::Bluesky)
            &&& s4.action is Collect
            &&& s5.action is Deliver
            &&& s2.show is None && s3.show is None && s4.show is None && s5.show is None
        }),
{
}

/// What goes wrong on the way is what the download fails with, and the phase that is shown is that
/// of the work that failed.
pub proof fn troubles_are_passed_on(
    address: Seq<char>,
    attempt: Attempt,
    platform: Platform,
    reason: String,
)
    ensures
        ({
            let run = download_next(
                address,
                DownloadState::Running(attempt),
                DownloadEvent::Ran(Err(reason)),
            );
            let fetch = download_next(
                address,
                DownloadState::Fetching(platform),
                DownloadEvent::Fetched(Err(reason)),
            );
            let collect = download_next(
                address,
                DownloadState::Collecting,
                DownloadEvent::Collected(Err(reason)),
            );
            &&& run.action == DownloadActionView::Fail(reason@)
            &&& run.show == Some(StatusPhase::DownloadFailed)
            &&& fetch.action == DownloadActionView::Fail(reason@)
            &&& fetch.show == Some(StatusPhase::FetchFailed)
            &&& collect.action == DownloadActionView::Fail(reason@)
            &&& collect.show == Some(StatusPhase::ConvertingFailed)
        }),
{
}

/// A download begins with the normalized address, in the wanted formats; what is no address fails
/// with the reason.
pub proof fn downloads_begin_with_the_address(input: Seq<char>)
    ensures
        normalized(input) matches Ok(address) ==> download_start(input).0 == address
            && download_start(input).1.action == DownloadActionView::Run(Attempt::Preferred)
            && download_start(input).1.state == DownloadState::Running(Attempt::Preferred)
            && download_start(input).1.show == Some(StatusPhase::DownloadingMedia),
        normalized(input) matches Err(reason) ==> download_start(input).1.action
            == DownloadActionView::Fail(reason) && download_start(input).1.show == Some(
            StatusPhase::FetchFailed,
        ),
{
}

/// The downloader is told the address last, where to write, and to write the notes and the
/// description; the first try asks for MP4 with M4A sound, and another one for no format.
pub proof fn downloader_is_told_what_to_do(
    address: Seq<char>,
    template: Seq<char>,
    attempt: Attempt,
)
    ensures
        ({
            let words = downloader_words(address, template, attempt);
            &&& words.last() == address
            &&& words[words.len() - 2] == template
            &&& words[words.len() - 3] == "--output"@
            &&& words[words.len() - 5] == "--convert-thumbnails"@
            &&& words[words.len() - 4] == "jpg"@
            &&& words.contains("--write-info-json"@)
            &&& words.contains("--write-description"@)
            &&& words.contains("--newline"@)
            &&& words.contains("--progress"@)
            &&& words[words.len() - 9] == "--progress-delta"@
            &&& words[words.len() - 8] == "1"@
            &&& attempt == Attempt::Preferred ==> words[0] == "-f"@ && words[1]
                == "bv*[ext=mp4]+ba[ext=m4a]/b[ext=mp4]/b"@ && words[2] == "--merge-output-format"@
                && words[3] == "mp4"@
            &&& attempt == Attempt::AnyFormat ==> words.len() == 11 && words[0] == "--newline"@
        }),
{
    let words = downloader_words(address, template, attempt);
    let n = words.len();
    assert(words[n - 11] == "--newline"@);
    assert(words[n - 10] == "--progress"@);
    assert(words[n - 7] == "--write-info-json"@);
    assert(words[n - 6] == "--write-description"@);
}

/// On Instagram and YouTube, and only there, the first try sorts the formats by resolution and then
/// by codec.
pub proof fn formats_are_sorted_on_some_sites(
    address: Seq<char>,
    template: Seq<char>,
    url: UrlView,
    host: Seq<char>,
)
    requires
        url_read(address) == Ok::<UrlView, Seq<char>>(url),
        url.host == Some(host),
    ensures
        ({
            let words = downloader_words(address, template, Attempt::Preferred);
            let h = lowercase(host);
            let sorted = h == "instagram.com"@ || h == "www.instagram.com"@ || h == "youtube.com"@
                || h == "www.youtube.com"@ || h == "m.youtube.com"@ || h == "youtu.be"@;
            &&& sorted ==> words.len() == 17 && words[4] == "-S"@ && words[5]
                == "res,vcodec:h265:h264"@
            &&& !sorted ==> words.len() == 15 && words[4] == "--newline"@
        }),
{
}

/// The body of a post is its description without the white space around it; a post without one
/// says so.
pub proof fn descriptions_are_shown(description: Seq<char>)
    ensures
        post_body(None) == "(no description)"@,
        post_body(Some(description)) == trim(description),
{
}

} // verus!
