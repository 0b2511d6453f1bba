//! The way of a download from the message to the record: what runs when, what a failure means, and
//! what comes out at the end.
use vstd::prelude::*;

use crate::encode::ToolExit;
use crate::images::Platform;
use crate::json::{some_string, some_text};
use crate::links::{
    continues_with_bluesky, continues_with_instagram, continues_with_twitter, no_video_format,
    normalize_input_url, normalized, should_continue_with_bluesky_image_fallback,
    should_continue_with_instagram_embed_fallback, should_continue_with_twitter_image_fallback,
    should_retry_without_video_format, sort_for, yt_dlp_format_sort,
};
use crate::metadata::{
    display_post_title, format_post_source_line, shown_title, source_line,
    DeliveryFilenameMetadata,
};
use crate::posts::is_empty_text;
use crate::present::{compose_post_text, post_record};
use crate::status::{failure, StatusPhase};
use crate::text::{join, texts, trim, trimmed};

verus! {

// ---------------------------------------------------------------------------
// What the downloader is told
// ---------------------------------------------------------------------------

/// How the downloader is run.
#[derive(Clone, Copy, PartialEq, Eq, Structural, Debug)]
pub enum Attempt {
    /// With the formats that are wanted.
    Preferred,
    /// With whatever there is.
    AnyFormat,
}

/// What the downloader is told about formats.
pub open spec fn format_words(address: Seq<char>, attempt: Attempt) -> Seq<Seq<char>> {
    match attempt {
        Attempt::Preferred => {
            let wanted = seq![
                "-f"@,
                "bv*[ext=mp4]+ba[ext=m4a]/b[ext=mp4]/b"@,
                "--merge-output-format"@,
                "mp4"@,
            ];
            match sort_for(address) {
                Some(sort) => wanted + seq!["-S"@, sort],
                None => wanted,
            }
        },
        Attempt::AnyFormat => Seq::empty(),
    }
}

/// What the downloader is told.
pub open spec fn downloader_words(address: Seq<char>, template: Seq<char>, attempt: Attempt) -> Seq<
    Seq<char>,
> {
    format_words(address, attempt) + seq![
        "--newline"@,
        "--progress"@,
        "--progress-delta"@,
        "1"@,
        "--write-info-json"@,
        "--write-description"@,
        "--convert-thumbnails"@,
        "jpg"@,
        "--output"@,
        template,
        address,
    ]
}

/// Adds a word.
fn push_word(words: &mut Vec<String>, word: &str)
    ensures
        texts(final(words)@) == texts(old(words)@).push(word@),
{
    let ghost before = texts(words@);
    words.push(word.to_owned());
    assert(texts(words@) == before.push(word@));
}

/// The arguments of the downloader.
pub fn yt_dlp_args(address: &str, template: &str, attempt: Attempt) -> (r: Vec<String>)
    ensures
        texts(r@) == downloader_words(address@, template@, attempt),
{
    let mut words: Vec<String> = Vec::new();
    assert(texts(words@) == Seq::<Seq<char>>::empty());
    match attempt {
        Attempt::Preferred => {
            push_word(&mut words, "-f");
            push_word(&mut words, "bv*[ext=mp4]+ba[ext=m4a]/b[ext=mp4]/b");
            push_word(&mut words, "--merge-output-format");
            push_word(&mut words, "mp4");
            if let Some(sort) = yt_dlp_format_sort(address) {
                push_word(&mut words, "-S");
                push_word(&mut words, sort);
            }
        },
        Attempt::AnyFormat => {},
    }
    assert(texts(words@) == format_words(address@, attempt));
    push_word(&mut words, "--newline");
    push_word(&mut words, "--progress");
    push_word(&mut words, "--progress-delta");
    push_word(&mut words, "1");
    push_word(&mut words, "--write-info-json");
    push_word(&mut words, "--write-description");
    push_word(&mut words, "--convert-thumbnails");
    push_word(&mut words, "jpg");
    push_word(&mut words, "--output");
    push_word(&mut words, template);
    push_word(&mut words, address);
    assert(texts(words@) == downloader_words(address@, template@, attempt));
    words
}

// ---------------------------------------------------------------------------
// The steps
// ---------------------------------------------------------------------------

/// How far a download is.
#[derive(Clone, Copy, PartialEq, Eq, Structural, Debug)]
pub enum DownloadState {
    /// The downloader runs.
    Running(Attempt),
    /// The images of a platform are fetched, if need be.
    Fetching(Platform),
    /// The files are made ready.
    Collecting,
    /// The download is over.
    Finished,
}

/// What has happened.
pub enum DownloadEvent {
    /// The downloader could not be run, or ended.
    Ran(Result<ToolExit, String>),
    /// The images were fetched, or could not be.
    Fetched(Result<(), String>),
    /// The files are ready, or could not be made so.
    Collected(Result<(), String>),
}

/// What is done next.
#[derive(Debug, PartialEq, Eq)]
pub enum DownloadAction {
    /// The downloader runs.
    Run(Attempt),
    /// The images of the platform are fetched, if need be.
    Fetch(Platform),
    /// The files are made ready.
    Collect,
    /// The download is recorded and delivered.
    Deliver,
    /// The download fails.
    Fail(String),
}

/// What is done next.
pub enum DownloadActionView {
    Run(Attempt),
    Fetch(Platform),
    Collect,
    Deliver,
    Fail(Seq<char>),
}

impl View for DownloadAction {
    type V = DownloadActionView;

    open spec fn view(&self) -> DownloadActionView {
        match self {
            DownloadAction::Run(a) => DownloadActionView::Run(*a),
            DownloadAction::Fetch(p) => DownloadActionView::Fetch(*p),
            DownloadAction::Collect => DownloadActionView::Collect,
            DownloadAction::Deliver => DownloadActionView::Deliver,
            DownloadAction::Fail(m) => DownloadActionView::Fail(m@),
        }
    }
}

/// A step of a download: the phase that is shown, if it changes, what is done next, and how far
/// the download then is.
#[derive(Debug, PartialEq, Eq)]
pub struct DownloadStep {
    pub show: Option<StatusPhase>,
    pub action: DownloadAction,
    pub state: DownloadState,
}

/// What a step of a download is.
pub struct DownloadStepView {
    pub show: Option<StatusPhase>,
    pub action: DownloadActionView,
    pub state: DownloadState,
}

impl View for DownloadStep {
    type V = DownloadStepView;

    open spec fn view(&self) -> DownloadStepView {
        DownloadStepView { show: self.show, action: self.action@, state: self.state }
    }
}

/// A step that goes on.
pub open spec fn forward(action: DownloadActionView, state: DownloadState) -> DownloadStepView {
    DownloadStepView { show: None, action, state }
}

/// A step that fails in a phase.
pub open spec fn fail(phase: StatusPhase, message: Seq<char>) -> DownloadStepView {
    DownloadStepView {
        show: Some(phase),
        action: DownloadActionView::Fail(message),
        state: DownloadState::Finished,
    }
}

/// The message that the downloader has failed.
pub open spec fn downloader_failure(status: Seq<char>, stderr: Seq<char>) -> Seq<char> {
    let said = trim(stderr);
    if said.len() == 0 {
        "yt-dlp failed with status: "@ + status
    } else {
        "yt-dlp failed with status "@ + status + ": "@ + said
    }
}

/// The message that the downloader has failed.
pub fn yt_dlp_failure(status: &str, stderr: &str) -> (r: String)
    ensures
        r@ == downloader_failure(status@, stderr@),
{
    let said = trimmed(stderr);
    if is_empty_text(said.as_str()) {
        let mut out = "yt-dlp failed with status: ".to_owned();
        out.append(status);
        out
    } else {
        let mut out = "yt-dlp failed with status ".to_owned();
        out.append(status);
        out.append(": ");
        out.append(said.as_str());
        out
    }
}

/// Whether a failed download goes on with the images of the post.
pub open spec fn goes_on(address: Seq<char>, stderr: Seq<char>) -> bool {
    continues_with_instagram(address, stderr) || continues_with_twitter(address, stderr)
        || continues_with_bluesky(address, stderr)
}

/// The step after the downloader has ended for good.
pub open spec fn judged(address: Seq<char>, exit: ToolExit) -> DownloadStepView {
    if exit.success || goes_on(address, trim(exit.stderr@)) {
        forward(
            DownloadActionView::Fetch(Platform::Instagram),
            DownloadState::Fetching(Platform::Instagram),
        )
    } else {
        fail(StatusPhase::DownloadFailed, downloader_failure(exit.status@, exit.stderr@))
    }
}

/// Whether the event is one that the state waits for.
pub open spec fn awaited(state: DownloadState, event: DownloadEvent) -> bool {
    match state {
        DownloadState::Running(_) => event is Ran,
        DownloadState::Fetching(_) => event is Fetched,
        DownloadState::Collecting => event is Collected,
        DownloadState::Finished => false,
    }
}

/// The step that an event leads to.
pub open spec fn download_next(
    address: Seq<char>,
    state: DownloadState,
    event: DownloadEvent,
) -> DownloadStepView {
    match (state, event) {
        (DownloadState::Running(attempt), DownloadEvent::Ran(ran)) => match ran {
            Err(m) => fail(StatusPhase::DownloadFailed, m@),
            Ok(exit) => if !exit.success && attempt == Attempt::Preferred && no_video_format(
                exit.stderr@,
            ) {
                forward(
                    DownloadActionView::Run(Attempt::AnyFormat),
                    DownloadState::Running(Attempt::AnyFormat),
                )
            } else {
                judged(address, exit)
            },
        },
        (DownloadState::Fetching(platform), DownloadEvent::Fetched(fetched)) => match fetched {
            Err(m) => fail(StatusPhase::FetchFailed, m@),
            Ok(_) => match platform {
                Platform::Instagram => forward(
                    DownloadActionView::Fetch(Platform::Twitter),
                    DownloadState::Fetching(Platform::Twitter),
                ),
                Platform::Twitter => forward(
                    DownloadActionView::Fetch(Platform::Bluesky),
                    DownloadState::Fetching(Platform::Bluesky),
                ),
                Platform::Bluesky => forward(
                    DownloadActionView::Collect,
                    DownloadState::Collecting,
                ),
            },
        },
        (DownloadState::Collecting, DownloadEvent::Collected(collected)) => match collected {
            Err(m) => fail(StatusPhase::ConvertingFailed, m@),
            Ok(_) => forward(DownloadActionView::Deliver, DownloadState::Finished),
        },
        (_, _) => fail(StatusPhase::DownloadFailed, Seq::empty()),
    }
}

/// The first step: the address that is downloaded and the downloader that runs, or that the
/// message is no address.
pub open spec fn download_start(input: Seq<char>) -> (Seq<char>, DownloadStepView) {
    match normalized(input) {
        Ok(address) => (
            address,
            DownloadStepView {
                show: Some(StatusPhase::DownloadingMedia),
                action: DownloadActionView::Run(Attempt::Preferred),
                state: DownloadState::Running(Attempt::Preferred),
            },
        ),
        Err(m) => (Seq::empty(), fail(StatusPhase::FetchFailed, m)),
    }
}

/// Begins a download.
pub fn start_download(input_url: &str) -> (r: (String, DownloadStep))
    ensures
        (r.0@, r.1@) == download_start(input_url@),
{
    match normalize_input_url(input_url) {
        Ok(address) => (
            address,
            DownloadStep {
                show: Some(StatusPhase::DownloadingMedia),
                action: DownloadAction::Run(Attempt::Preferred),
                state: DownloadState::Running(Attempt::Preferred),
            },
        ),
        Err(m) => {
            let none = String::new();
            assert(none@ == Seq::<char>::empty());
            (none, failed(StatusPhase::FetchFailed, m))
        },
    }
}

/// A step that goes on.
fn on(action: DownloadAction, state: DownloadState) -> (r: DownloadStep)
    ensures
        r@ == forward(action@, state),
{
    DownloadStep { show: None, action, state }
}

/// A step that fails in a phase.
fn failed(phase: StatusPhase, message: String) -> (r: DownloadStep)
    ensures
        r@ == fail(phase, message@),
{
    DownloadStep {
        show: Some(phase),
        action: DownloadAction::Fail(message),
        state: DownloadState::Finished,
    }
}

/// The step after the downloader has ended for good.
pub fn judge_exit(address: &str, exit: &ToolExit) -> (r: DownloadStep)
    ensures
        r@ == judged(address@, *exit),
{
    let goes = if exit.success {
        true
    } else {
        let said = trimmed(exit.stderr.as_str());
        should_continue_with_instagram_embed_fallback(address, said.as_str())
            || should_continue_with_twitter_image_fallback(address, said.as_str())
            || should_continue_with_bluesky_image_fallback(address, said.as_str())
    };
    if goes {
        on(
            DownloadAction::Fetch(Platform::Instagram),
            DownloadState::Fetching(Platform::Instagram),
        )
    } else {
        failed(
            StatusPhase::DownloadFailed,
            yt_dlp_failure(exit.status.as_str(), exit.stderr.as_str()),
        )
    }
}

/// Takes the next step of a download.
pub fn advance_download(address: &str, state: DownloadState, event: DownloadEvent) -> (r:
    DownloadStep)
    requires
        awaited(state, event),
    ensures
        r@ == download_next(address@, state, event),
{
    match (state, event) {
        (DownloadState::Running(attempt), DownloadEvent::Ran(ran)) => match ran {
            Err(m) => failed(StatusPhase::DownloadFailed, m),
            Ok(exit) => {
                let preferred = match attempt {
                    Attempt::Preferred => true,
                    Attempt::AnyFormat => false,
                };
                if !exit.success && preferred && should_retry_without_video_format(
                    exit.stderr.as_str(),
                ) {
                    on(
                        DownloadAction::Run(Attempt::AnyFormat),
                        DownloadState::Running(Attempt::AnyFormat),
                    )
                } else {
                    judge_exit(address, &exit)
                }
            },
        },
        (DownloadState::Fetching(platform), DownloadEvent::Fetched(fetched)) => match fetched {
            Err(m) => failed(StatusPhase::FetchFailed, m),
            Ok(_) => match platform {
                Platform::Instagram => on(
                    DownloadAction::Fetch(Platform::Twitter),
                    DownloadState::Fetching(Platform::Twitter),
                ),
                Platform::Twitter => on(
                    DownloadAction::Fetch(Platform::Bluesky),
                    DownloadState::Fetching(Platform::Bluesky),
                ),
                Platform::Bluesky => on(DownloadAction::Collect, DownloadState::Collecting),
            },
        },
        (DownloadState::Collecting, DownloadEvent::Collected(collected)) => match collected {
            Err(m) => failed(StatusPhase::ConvertingFailed, m),
            Ok(_) => on(DownloadAction::Deliver, DownloadState::Finished),
        },
        (_, _) => failed(StatusPhase::DownloadFailed, String::new()),
    }
}

/// How many steps lie behind a state.
pub open spec fn steps_done(state: DownloadState) -> nat {
    match state {
        DownloadState::Running(Attempt::Preferred) => 0,
        DownloadState::Running(Attempt::AnyFormat) => 1,
        DownloadState::Fetching(Platform::Instagram) => 2,
        DownloadState::Fetching(Platform::Twitter) => 3,
        DownloadState::Fetching(Platform::Bluesky) => 4,
        DownloadState::Collecting => 5,
        DownloadState::Finished => 6,
    }
}

/// Every step brings a download forward, so that it ends after at most six of them: it is
/// delivered or it fails, and not before.
pub proof fn download_ends(address: Seq<char>, state: DownloadState, event: DownloadEvent)
    requires
        awaited(state, event),
    ensures
        steps_done(download_next(address, state, event).state) > steps_done(state),
        (download_next(address, state, event).state is Finished) == (download_next(
            address,
            state,
            event,
        ).action is Deliver || download_next(address, state, event).action is Fail),
{
}

/// A download that fails shows a phase of failure, and one that goes on does not.
pub proof fn failures_are_shown(
    input: Seq<char>,
    address: Seq<char>,
    state: DownloadState,
    event: DownloadEvent,
)
    requires
        awaited(state, event),
    ensures
        download_next(address, state, event).action is Fail <==> (download_next(
            address,
            state,
            event,
        ).show matches Some(phase) && failure(phase)),
        download_start(input).1.action is Fail <==> (download_start(input).1.show matches Some(
            phase,
        ) && failure(phase)),
{
}

/// A failed run of the downloader ends the download unless another format is tried or the post is
/// one whose images can be fetched.
pub proof fn unexplained_failures_end_the_download(
    address: Seq<char>,
    attempt: Attempt,
    exit: ToolExit,
)
    requires
        !exit.success,
        !no_video_format(exit.stderr@),
        !goes_on(address, trim(exit.stderr@)),
    ensures
        download_next(
            address,
            DownloadState::Running(attempt),
            DownloadEvent::Ran(Ok(exit)),
        ) == fail(
            StatusPhase::DownloadFailed,
            downloader_failure(exit.status@, exit.stderr@),
        ),
{
}

// ---------------------------------------------------------------------------
// What comes out
// ---------------------------------------------------------------------------

/// What a download gives.
#[derive(Debug)]
pub struct DownloadResponse {
    pub media_id: i64,
    pub normalized_url: String,
    pub post_platform: String,
    pub post_title: Option<String>,
    pub post_source: String,
    pub post_date: String,
    pub post_body: String,
    pub post_text: String,
    pub files: Vec<String>,
}

/// What a download gives before it has a number: what it is recorded under comes first.
pub struct PreparedDownload {
    pub name: String,
    pub normalized_url: String,
    pub post_platform: String,
    pub post_title: Option<String>,
    pub post_source: String,
    pub post_date: String,
    pub post_body: String,
    pub post_text: String,
    pub files: Vec<String>,
}

/// The body of a post.
pub open spec fn post_body(description: Option<Seq<char>>) -> Seq<char> {
    match description {
        Some(d) => trim(d),
        None => "(no description)"@,
    }
}

/// Joins the files with commas.
pub fn joined_files(files: &Vec<String>) -> (r: String)
    ensures
        r@ == join(texts(files@), ","@),
{
    let ghost all = texts(files@);
    let mut out = String::new();
    let mut i: usize = 0;
    while i < files.len()
        invariant
            i <= files.len(),
            all == texts(files@),
            out@ == join(all.take(i as int), ","@),
        decreases files.len() - i,
    {
        let ghost done = all.take(i + 1);
        assert(done.drop_last() == all.take(i as int));
        assert(done.last() == files@[i as int]@);
        if i > 0 {
            out.append(",");
        }
        out.append(files[i].as_str());
        proof {
            if i == 0 {
                assert(all.take(0) == Seq::<Seq<char>>::empty());
                assert(out@ == done[0]);
            }
        }
        i += 1;
    }
    assert(all.take(i as int) == all);
    out
}

/// The description of a post as it is shown.
pub fn shown_description(description: Option<&str>) -> (r: String)
    ensures
        r@ == post_body(some_text(description)),
{
    match description {
        Some(d) => trimmed(d),
        None => "(no description)".to_owned(),
    }
}

/// Puts together what a download gives, from what is known of the post, the text of its
/// description and the files.
pub fn prepare_response(
    address: &str,
    metadata: &DeliveryFilenameMetadata,
    description: Option<&str>,
    files: Vec<String>,
) -> (r: PreparedDownload)
    ensures
        r.name@ == join(texts(files@), ","@),
        r.normalized_url@ == address@,
        r.post_platform@ == metadata@.platform_name,
        some_string(r.post_title) == shown_title(metadata@),
        r.post_source@ == source_line(metadata@),
        r.post_date@ == metadata@.date,
        r.post_body@ == post_body(some_text(description)),
        r.post_text@ == post_record(
            metadata@.platform_name,
            shown_title(metadata@),
            source_line(metadata@),
            metadata@.date,
            post_body(some_text(description)),
        ),
        r.files@ == files@,
{
    let name = joined_files(&files);
    let post_body = shown_description(description);
    let post_title = display_post_title(metadata);
    let post_source = format_post_source_line(metadata);
    let post_text = {
        let title = match &post_title {
            Some(t) => Some(t.as_str()),
            None => None,
        };
        compose_post_text(
            metadata.platform_name.as_str(),
            title,
            post_source.as_str(),
            metadata.date.as_str(),
            post_body.as_str(),
        )
    };
    PreparedDownload {
        name,
        normalized_url: address.to_owned(),
        post_platform: metadata.platform_name.clone(),
        post_title,
        post_source,
        post_date: metadata.date.clone(),
        post_body,
        post_text,
        files,
    }
}

/// What a download gives, under the number of its record.
pub fn numbered(prepared: PreparedDownload, media_id: i64) -> (r: DownloadResponse)
    ensures
        r == (DownloadResponse {
            media_id,
            normalized_url: prepared.normalized_url,
            post_platform: prepared.post_platform,
            post_title: prepared.post_title,
            post_source: prepared.post_source,
            post_date: prepared.post_date,
            post_body: prepared.post_body,
            post_text: prepared.post_text,
            files: prepared.files,
        }),
{
    DownloadResponse {
        media_id,
        normalized_url: prepared.normalized_url,
        post_platform: prepared.post_platform,
        post_title: prepared.post_title,
        post_source: prepared.post_source,
        post_date: prepared.post_date,
        post_body: prepared.post_body,
        post_text: prepared.post_text,
        files: prepared.files,
    }
}

/// The message that a download has failed.
pub fn download_failed_text(reason: &str) -> (r: String)
    ensures
        r@ == "Download failed: "@ + reason@,
{
    let mut out = "Download failed: ".to_owned();
    out.append(reason);
    out
}

/// The phase that is shown after a failed download: the one of failure that is shown already, else
/// that of a failed download.
pub fn phase_after_failure(shown: Option<StatusPhase>) -> (r: Option<StatusPhase>)
    ensures
        r == if (shown matches Some(p) && failure(p)) {
            None
        } else {
            Some(StatusPhase::DownloadFailed)
        },
{
    match shown {
        Some(p) => if p.is_failure() {
            None
        } else {
            Some(StatusPhase::DownloadFailed)
        },
        None => Some(StatusPhase::DownloadFailed),
    }
}

} // verus!
