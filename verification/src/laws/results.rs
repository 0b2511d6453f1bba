//! What the functions of the library return: whatever result their contracts allow is as stated
//! here.
use vstd::prelude::*;

use crate::accounts::{needs_insert, settled_role, upsert_target, AuthorizeStep, RoleTarget};
use crate::commands::{
    command_scope_for_message, command_set_for_role, grant_of, AuthorizationTarget, CommandMenu,
    CommandScope,
};
use crate::delivery::{
    image_sequence, image_step, is_description_file, is_info_file, item_dir_has_deliverable_files,
    oversized_telegram_file_size, renamed, ImageStep,
};
use crate::download::{
    advance_download, judge_exit, numbered, phase_after_failure, prepare_response, Attempt,
    DownloadAction, DownloadEvent, DownloadResponse, DownloadState, DownloadStep, PreparedDownload,
};
use crate::encode::{
    advance_video, ensure_ffmpeg_success, telegram_target_video_bitrate_bps,
    telegram_video_metadata, TelegramVideoMetadata, ToolExit, VideoAction, VideoEvent, VideoFile,
    VideoState, VideoStep,
};
use crate::images::{
    bluesky_answer, bluesky_resolved, check_image_type, ContentType, Images, Platform, Sidecar,
};
use crate::json::{some_string, some_text, Json, JsonTree};
use crate::laws::addresses::{
    addresses_keep_their_query, at_twitter, means, tweets_lose_their_query,
};
use crate::laws::downloads::asks_for_another_format;
use crate::laws::files::file_names_keep_their_extension;
use crate::laws::messages::{messages_are_well_formed, stands_for, Shown};
use crate::laws::posts::tweets_keep_their_whole_text;
use crate::laws::texts::{all_white, blank_texts_are_white, free_of, tight};
use crate::links::{
    bluesky_post, clean_url, normalize_input_url, twitter_status_id, UrlParts, UrlView,
};
use crate::metadata::DeliveryFilenameMetadata;
use crate::mine_bot::delivery_metadata_from;
use crate::posts::{decoded, twitter_metadata_from, PostMetadata};
use crate::present::format_post_text_html;
use crate::schema::{ensure_media_table, MediaTableStep};
use crate::settings::{require_runtime_adapter, Config};
use crate::status::{shown_percent, StatusPhase};
use crate::text::{has, has_prefix, has_suffix, join, texts, trim};
use crate::users::UserRole;

verus! {

// ---------------------------------------------------------------------------
// Videos
// ---------------------------------------------------------------------------

/// After the compressed video was measured it is delivered without trouble, whatever its size.
pub proof fn advance_video_delivers_the_compressed_video(size: u64, r: VideoStep)
    requires
        call_ensures(
            advance_video,
            (VideoState::MeasuringTarget, VideoEvent::Measured(Ok(size))),
            r,
        ),
    ensures
        r.action matches VideoAction::Deliver { file, trouble } && file == VideoFile::Target
            && trouble is None,
        r.show is None,
{
}

/// After the converted video was measured it is delivered if it is within the limit, and looked
/// into for compression otherwise.
pub proof fn advance_video_compresses_large_videos(size: u64, r: VideoStep)
    requires
        call_ensures(advance_video, (VideoState::Measuring, VideoEvent::Measured(Ok(size))), r),
    ensures
        size <= 50_000_000 ==> (r.action matches VideoAction::Deliver { file, trouble } && file
            == VideoFile::Converted && trouble is None),
        size > 50_000_000 ==> r.action is Probe,
{
}

/// The picture, the sound and the container share the whole bit rate.
pub proof fn bit_rate_of_the_picture(total: u64, audio: u64, r: Option<u64>)
    requires
        audio <= 131_000,
        call_ensures(telegram_target_video_bitrate_bps, (total, audio), r),
    ensures
        r is Some <==> total > audio + 214_000,
        r matches Some(picture) ==> picture + audio + 64_000 == total,
{
}

/// Telegram is told the size and the duration of a video, or nothing.
pub proof fn videos_are_described(
    payload: &Json,
    duration: Option<u32>,
    width: u32,
    height: u32,
    r: Option<TelegramVideoMetadata>,
)
    requires
        call_ensures(telegram_video_metadata, (payload, duration), r),
        crate::encode::stream_size(payload@) == Some((width, height)),
    ensures
        duration is None ==> r is None,
        duration matches Some(seconds) ==> (r matches Some(m) && m.width == width && m.height == height
            && m.duration_seconds == seconds),
{
}

/// A tool did its work exactly if it ended with success.
pub proof fn tools_succeed_by_their_exit(output: &ToolExit, context: &str, r: Result<(), String>)
    requires
        call_ensures(ensure_ffmpeg_success, (output, context), r),
    ensures
        r is Ok <==> output.success,
        r is Err && all_white(output.stderr@) ==> r->Err_0@ == context@ + " failed with status "@
            + output.status@,
        r is Err && !all_white(output.stderr@) ==> r->Err_0@ == context@ + " failed with status "@
            + output.status@ + ": "@ + trim(output.stderr@),
{
    blank_texts_are_white(output.stderr@);
}

// ---------------------------------------------------------------------------
// Downloads
// ---------------------------------------------------------------------------

/// Where the downloader finds no video in a tweet, or in a Bluesky post, its images are fetched and
/// nothing fails.
pub proof fn judge_exit_falls_back_on_images(
    address: &str,
    exit: &ToolExit,
    id: Seq<char>,
    post: (Seq<char>, Seq<char>),
    r: DownloadStep,
)
    requires
        call_ensures(judge_exit, (address, exit), r),
    ensures
        has(trim(exit.stderr@), "No video could be found in this tweet"@) && twitter_status_id(
            address@,
        ) == Ok::<_, Seq<char>>(Some(id)) ==> r.action == DownloadAction::Fetch(Platform::Instagram)
            && r.show is None,
        has(trim(exit.stderr@), "No video could be found in this post"@) && bluesky_post(address@)
            == Ok::<_, Seq<char>>(Some(post)) ==> r.action == DownloadAction::Fetch(
            Platform::Instagram,
        ) && r.show is None,
        exit.success ==> r.action == DownloadAction::Fetch(Platform::Instagram) && r.show is None,
{
}

/// The same holds of the step after a run of the downloader, unless another format is tried first.
pub proof fn advance_download_falls_back_on_images(
    address: &str,
    attempt: Attempt,
    exit: ToolExit,
    id: Seq<char>,
    post: (Seq<char>, Seq<char>),
    r: DownloadStep,
)
    requires
        call_ensures(
            advance_download,
            (address, DownloadState::Running(attempt), DownloadEvent::Ran(Ok(exit))),
            r,
        ),
        !exit.success,
        (has(trim(exit.stderr@), "No video could be found in this tweet"@) && twitter_status_id(
            address@,
        ) == Ok::<_, Seq<char>>(Some(id))) || (has(
            trim(exit.stderr@),
            "No video could be found in this post"@,
        ) && bluesky_post(address@) == Ok::<_, Seq<char>>(Some(post))),
    ensures
        r.show is None,
        attempt == Attempt::AnyFormat || !asks_for_another_format(exit.stderr@) ==> r.action
            == DownloadAction::Fetch(Platform::Instagram),
        attempt == Attempt::Preferred && asks_for_another_format(exit.stderr@) ==> r.action
            == DownloadAction::Run(Attempt::AnyFormat),
{
}

/// After a failure the status shows one: the one that it shows already, or that the download failed.
pub proof fn failures_stay_shown(shown: Option<StatusPhase>, r: Option<StatusPhase>)
    requires
        call_ensures(phase_after_failure, (shown,), r),
    ensures
        r is None ==> (shown matches Some(p) && crate::status::failure(p)),
        r matches Some(p) ==> p == StatusPhase::DownloadFailed,
        shown is None ==> r is Some,
        shown matches Some(p) && crate::status::failure(p) ==> r is None,
{
}

/// What is put together about a download holds its address, its files, in order, and what is known
/// of the post.
pub proof fn responses_hold_what_is_known(
    address: &str,
    metadata: &DeliveryFilenameMetadata,
    description: Option<&str>,
    files: Vec<String>,
    media_id: i64,
    r: PreparedDownload,
    numbered_r: DownloadResponse,
)
    requires
        call_ensures(prepare_response, (address, metadata, description, files), r),
        call_ensures(numbered, (r, media_id), numbered_r),
    ensures
        numbered_r.media_id == media_id,
        numbered_r.normalized_url@ == address@,
        numbered_r.files@ == files@,
        numbered_r.post_platform@ == metadata.platform_name@,
        numbered_r.post_date@ == metadata.date@,
        description is None ==> numbered_r.post_body@ == "(no description)"@,
        description matches Some(d) ==> numbered_r.post_body@ == trim(d@),
        metadata.source_handle is None ==> numbered_r.post_source@ == metadata.source_name@,
        metadata.source_handle matches Some(h) ==> numbered_r.post_source@ == metadata.source_name@
            + " ("@ + h@ + ")"@,
        numbered_r.post_title matches Some(t) ==> t@ == trim(metadata.title@),
        has_suffix(numbered_r.post_text@, numbered_r.post_body@),
        files@.len() == 1 ==> r.name@ == files@[0]@,
        files@.len() == 2 ==> r.name@ == files@[0]@ + ","@ + files@[1]@,
{
    let body = numbered_r.post_body@;
    let text = numbered_r.post_text@;
    assert(text == text.take(text.len() - body.len()) + body);
    crate::laws::texts::ends_of_a_text(text.take(text.len() - body.len()), body);
    reveal_with_fuel(join, 3);
    if files@.len() == 1 {
        assert(texts(files@)[0] == files@[0]@);
    }
    if files@.len() == 2 {
        let all = texts(files@);
        assert(all[0] == files@[0]@ && all[1] == files@[1]@);
        assert(all.drop_last() == seq![all[0]]);
        assert(all.last() == all[1]);
    }
}

// ---------------------------------------------------------------------------
// Addresses, posts and messages
// ---------------------------------------------------------------------------

/// An address is normalized to the whole URL it means, query included, anywhere but at Twitter.
pub proof fn normalize_input_url_keeps_the_query(input: &str, url: UrlView, r: Result<String, String>)
    requires
        call_ensures(normalize_input_url, (input,), r),
        means(input@, url),
    ensures
        !at_twitter(url) ==> (r matches Ok(a) && a@ == url.href),
        at_twitter(url) && url.fragment is None ==> (r matches Ok(a) && a@ == url.head),
        at_twitter(url) && url.fragment is Some ==> (r matches Ok(a) && a@ == url.head + seq!['#']
            + url.fragment->0),
{
    if at_twitter(url) {
        tweets_lose_their_query(input@, url);
    } else {
        addresses_keep_their_query(input@, url);
    }
}

/// A URL keeps its query anywhere but at Twitter.
pub proof fn clean_url_keeps_the_query(url: &UrlParts, r: String)
    requires
        call_ensures(clean_url, (url,), r),
    ensures
        !at_twitter(url@) ==> r@ == url.href@,
        at_twitter(url@) && url.fragment is None ==> r@ == url.head@,
        at_twitter(url@) && url.fragment is Some ==> r@ == url.head@ + seq!['#'] + url.fragment->0@,
{
    if at_twitter(url@) {
        if url.fragment is None {
            assert(url.head@ + Seq::<char>::empty() == url.head@);
        } else {
            assert(url.head@ + (seq!['#'] + url.fragment->0@) == url.head@ + seq!['#']
                + url.fragment->0@);
        }
    }
}

/// The text and the title of a tweet are its whole text, decoded.
pub proof fn twitter_metadata_keeps_the_whole_text(
    state: &Json,
    id: &str,
    tweet: JsonTree,
    raw: Seq<char>,
    r: Option<PostMetadata>,
)
    requires
        call_ensures(twitter_metadata_from, (state, id), r),
        state@.pointer("/entities/tweets/entities/"@ + id@) == Some(tweet),
        tweet.get("full_text"@) == Some(JsonTree::Text(raw)),
        tweet.get("display_text_range"@) is None,
    ensures
        r matches Some(post) && post.text@ == post.title@ && (decoded(raw).len() > 0 ==> post.text@
            == decoded(raw)) && (raw.len() > 0 && tight(raw) && free_of(raw, '&') ==> post.text@
            == raw),
{
    tweets_keep_their_whole_text(state@, id@, tweet, raw);
}

/// The message about a post is made of texts that stand for what is known of it, so that the only
/// angle brackets are those of its own tags.
pub proof fn format_post_text_html_is_well_formed(
    platform: &str,
    title: Option<&str>,
    source: &str,
    date: &str,
    body: &str,
    r: String,
) -> (shown: Shown)
    requires
        call_ensures(format_post_text_html, (platform, title, source, date, body), r),
    ensures
        stands_for(shown.platform, platform@),
        title matches Some(t) ==> stands_for(shown.title, t@),
        stands_for(shown.source, source@),
        stands_for(shown.date, date@),
        stands_for(shown.body, body@),
        ({
            let first = if all_white(platform@) {
                Seq::empty()
            } else {
                "("@ + shown.platform + ")\n"@
            };
            let second = if title is None || all_white(title->0@) {
                Seq::empty()
            } else {
                "<b>"@ + shown.title + "</b>\n"@
            };
            let fourth = if date@.len() == 0 {
                Seq::empty()
            } else {
                "\n"@ + shown.date
            };
            let fifth = if all_white(body@) {
                Seq::empty()
            } else {
                "\n<blockquote expandable>"@ + shown.body + "</blockquote>"@
            };
            r@ == first + second + shown.source + fourth + fifth
        }),
{
    messages_are_well_formed(platform@, some_text(title), source@, date@, body@)
}

// ---------------------------------------------------------------------------
// Images
// ---------------------------------------------------------------------------

/// An author who is known by their id has posts that can be asked for; one who is not is named in
/// the message.
pub proof fn handles_are_resolved(
    payload: &Json,
    handle: &str,
    rkey: &str,
    r: Result<String, String>,
)
    requires
        call_ensures(bluesky_resolved, (payload, handle, rkey), r),
    ensures
        r is Ok <==> (payload@.text_at("did"@) matches Some(did) && did.len() > 0),
        r matches Ok(a) ==> has_prefix(
            a@,
            "https://public.api.bsky.app/xrpc/app.bsky.feed.getPostThread?"@,
        ),
        r matches Err(m) ==> m@ == "Bluesky handle did not resolve to a DID: "@ + handle@,
{
    let base = "https://public.api.bsky.app/xrpc/app.bsky.feed.getPostThread?"@;
    if r is Ok {
        let a = r->Ok_0@;
        crate::laws::texts::ends_of_a_text(a.skip(base.len() as int), base);
        assert(a == base + a.skip(base.len() as int));
    }
}

/// An answer about a Bluesky post is taken if it holds the post: its text is kept and its images are
/// listed, or it is said that there are none.
pub proof fn bluesky_answers_are_taken(
    payload: &Json,
    rkey: &str,
    normalized: &str,
    post: JsonTree,
    r: Result<(Sidecar, Images), String>,
)
    requires
        call_ensures(bluesky_answer, (payload, rkey, normalized), r),
    ensures
        payload@.pointer("/thread/post"@) is None ==> r is Err,
        payload@.pointer("/thread/post"@) == Some(post) ==> (r matches Ok(found)
            && found.0.description@ == crate::posts::bluesky_metadata(post).text
            && found.0.info_name@ == "bluesky-"@ + rkey@ + ".info.json"@ && (match found.1 {
            Images::Listed(urls) => texts(urls@) == crate::posts::bluesky_images(post) && urls@.len()
                > 0,
            Images::Look(_) => false,
            Images::Failed(_) => crate::posts::bluesky_images(post).len() == 0,
        })),
{
}

/// What is fetched is kept as an image unless it says that it is something else.
pub proof fn fetched_images_are_checked(
    platform: Platform,
    content: &ContentType,
    r: Result<(), String>,
)
    requires
        call_ensures(check_image_type, (platform, content), r),
    ensures
        *content is Missing ==> r is Ok,
        *content is Unreadable ==> r is Err,
        *content matches ContentType::Named(t) ==> (r is Ok <==> has_prefix(t@, "image/"@)),
{
}

// ---------------------------------------------------------------------------
// Files
// ---------------------------------------------------------------------------

/// Files are numbered from one on where there are several.
pub proof fn several_files_are_numbered(index: usize, total: usize, r: Option<usize>)
    requires
        index < total,
        call_ensures(image_sequence, (index, total), r),
    ensures
        total == 1 ==> r is None,
        total > 1 ==> r == Some((index + 1) as usize),
{
}

/// A renamed file keeps its extension; a file without one is not renamed.
pub proof fn renamed_files_keep_their_extension(
    metadata: &DeliveryFilenameMetadata,
    sequence: Option<usize>,
    extension: Option<&str>,
    path: &str,
    r: Result<String, String>,
)
    requires
        call_ensures(renamed, (metadata, sequence, extension, path), r),
    ensures
        r is Ok <==> (extension matches Some(e) && e@.len() > 0),
        r matches Ok(name) ==> has_suffix(name@, seq!['.'] + extension->0@),
        r matches Err(m) ==> m@ == "downloaded media file has no extension: "@ + path@,
{
    if r is Ok {
        lemma_keeps_extension(metadata, sequence, extension->0@);
    }
}

proof fn lemma_keeps_extension(
    metadata: &DeliveryFilenameMetadata,
    sequence: Option<usize>,
    extension: Seq<char>,
)
    ensures
        has_suffix(
            crate::delivery::delivered_name(metadata@, sequence, extension),
            seq!['.'] + extension,
        ),
{
    let user = metadata@.filename_username;
    let date = metadata@.date;
    let title = metadata@.title;
    match sequence {
        None => {
            file_names_keep_their_extension(user, date, title, 0, extension);
        },
        Some(n) => {
            file_names_keep_their_extension(user, date, title, n, extension);
            let name = crate::delivery::delivered_name(metadata@, sequence, extension);
            let tail = seq!['_'] + crate::numbers::two_digits(n as nat) + seq!['.'] + extension;
            let end = seq!['.'] + extension;
            let len = name.len() as int;
            assert(name.subrange(len - tail.len(), len) == tail);
            assert(name.subrange(len - end.len(), len) == tail.subrange(
                tail.len() - end.len(),
                tail.len() as int,
            ));
            assert(tail.subrange(tail.len() - end.len(), tail.len() as int) == end);
        },
    }
}

/// An image that Telegram takes as it is keeps its extension; any other is turned into a JPEG.
pub proof fn images_are_made_ready(
    metadata: &DeliveryFilenameMetadata,
    sequence: Option<usize>,
    extension: Option<&str>,
    r: ImageStep,
)
    requires
        call_ensures(image_step, (metadata, sequence, extension), r),
    ensures
        r is Rename <==> (extension matches Some(e) && (e@ == "jpg"@ || e@ == "jpeg"@ || e@ == "png"@)),
        r matches ImageStep::Rename(name) ==> has_suffix(name@, seq!['.'] + extension->0@),
        r matches ImageStep::Transcode(name) ==> has_suffix(name@, seq!['.'] + "jpg"@),
{
    lemma_keeps_extension(metadata, sequence, "jpg"@);
    if extension is Some {
        lemma_keeps_extension(metadata, sequence, extension->0@);
    }
}

/// A file is too large exactly if it is over the limit.
pub proof fn large_files_are_told(size: u64, r: Option<u64>)
    requires
        call_ensures(oversized_telegram_file_size, (size,), r),
    ensures
        size <= 50_000_000 ==> r is None,
        size > 50_000_000 ==> r == Some(size),
{
}

/// Something can be delivered exactly if there is a video or an image.
pub proof fn deliverable_files_are_found(extensions: &Vec<Option<String>>, k: int, r: bool)
    requires
        call_ensures(item_dir_has_deliverable_files, (extensions,), r),
        0 <= k < extensions@.len(),
    ensures
        extensions@[k] matches Some(e) && (e@ == "mp4"@ || e@ == "jpg"@ || e@ == "jpeg"@ || e@
            == "png"@ || e@ == "webp"@) ==> r,
        (forall|i: int|
            0 <= i < extensions@.len() ==> ((#[trigger] extensions@[i]) matches Some(e) ==> e@ != "mp4"@
                && e@ != "jpg"@ && e@ != "jpeg"@ && e@ != "png"@ && e@ != "webp"@)) ==> !r,
{
    if extensions@[k] is Some {
        crate::laws::files::extensions_tell_the_kind(extensions@[k]->0@);
    }
    if r {
        let i = choose|i: int|
            0 <= i < extensions@.len() && (crate::delivery::kind_of(
                some_string(#[trigger] extensions@[i]),
            ) == crate::delivery::FileKind::Video || crate::delivery::kind_of(
                some_string(extensions@[i]),
            ) == crate::delivery::FileKind::Image);
        if extensions@[i] is Some {
            crate::laws::files::extensions_tell_the_kind(extensions@[i]->0@);
        }
    }
}

/// The description and the notes of a download are told by the names of their files.
pub proof fn files_about_a_download_are_found(
    extension: Option<&str>,
    path: &str,
    description: bool,
    info: bool,
)
    requires
        call_ensures(is_description_file, (extension,), description),
        call_ensures(is_info_file, (extension, path), info),
    ensures
        description <==> (extension matches Some(e) && e@ == "description"@),
        info <==> (extension matches Some(e) && e@ == "json"@) && has_suffix(path@, ".info.json"@),
{
}

// ---------------------------------------------------------------------------
// Users and settings
// ---------------------------------------------------------------------------

/// Each role is offered its own commands: strangers none.
pub proof fn roles_are_offered_their_commands(role: Option<UserRole>, r: CommandMenu)
    requires
        call_ensures(command_set_for_role, (role,), r),
    ensures
        r == CommandMenu::Admin <==> role == Some(UserRole::Admin),
        r == CommandMenu::User <==> role == Some(UserRole::User),
        r == CommandMenu::Empty <==> (role is None || role == Some(UserRole::Nobody)),
{
}

/// Commands are offered to a private chat, and elsewhere to who wrote alone.
pub proof fn commands_are_offered_to_who_wrote(
    private: bool,
    from: Option<u64>,
    r: Option<CommandScope>,
)
    requires
        call_ensures(command_scope_for_message, (private, from), r),
    ensures
        private ==> r == Some(CommandScope::Chat),
        !private && from is None ==> r is None,
        !private && from is Some ==> r == Some(CommandScope::Member(from->0)),
{
}

/// What is asked of the table for a target is the id or the username that it names, never both.
pub proof fn targets_are_asked_for(
    target: &AuthorizationTarget,
    r: (Option<String>, Option<String>),
)
    requires
        call_ensures(grant_of, (target,), r),
    ensures
        *target matches AuthorizationTarget::UserId(id) ==> (r.0 matches Some(s) && s@ == id@) && r.1
            is None,
        *target matches AuthorizationTarget::Username(name) ==> (r.1 matches Some(s) && s@ == name@)
            && r.0 is None,
{
}

/// A known user has the stored role, and a stored role that is none is an error; an unknown user has
/// no role.
pub proof fn stored_roles_are_settled(step: &AuthorizeStep, r: Result<Option<UserRole>, String>)
    requires
        call_ensures(settled_role, (step,), r),
    ensures
        !(*step is Known) ==> (r matches Ok(role) && role is None),
        *step is Known && step->role@ == "admin"@ ==> (r matches Ok(role) && role == Some(
            UserRole::Admin,
        )),
        *step is Known && step->role@ == "user"@ ==> (r matches Ok(role) && role == Some(
            UserRole::User,
        )),
        *step is Known && step->role@ == "none"@ ==> (r matches Ok(role) && role == Some(
            UserRole::Nobody,
        )),
        *step is Known && r is Err ==> step->role@ != "admin"@ && step->role@ != "user"@
            && step->role@ != "none"@,
        *step is Known && r is Ok ==> r->Ok_0 is Some,
{
    crate::laws::replies::roles_are_stored_by_name("admin"@);
    if *step is Known {
        crate::laws::replies::roles_are_stored_by_name(step->role@);
    }
}

/// A role is given to the id where there is one, else to the username, and to nobody without both; a
/// row is made where none was updated.
pub proof fn roles_have_targets(
    id: Option<&str>,
    name: Option<&str>,
    r: Result<RoleTarget, String>,
    rows: usize,
    insert: bool,
)
    requires
        call_ensures(upsert_target, (id, name), r),
        call_ensures(needs_insert, (rows,), insert),
    ensures
        id matches Some(i) ==> (r matches Ok(RoleTarget::UserId(s)) && s@ == i@),
        id is None && name is Some ==> (r matches Ok(RoleTarget::Username(s)) && s@ == name->0@),
        id is None && name is None ==> r is Err,
        insert <==> rows == 0,
{
}

/// The table of downloads is made where there is none, kept if it is strict, and made anew
/// otherwise.
pub proof fn table_of_downloads_is_ready(present: bool, strict: bool, r: MediaTableStep)
    requires
        call_ensures(ensure_media_table, (present, strict), r),
    ensures
        r == MediaTableStep::Create <==> !present,
        r == MediaTableStep::Keep <==> present && strict,
{
}

/// The bot runs exactly if its adapter is enabled.
pub proof fn bots_run_if_enabled(config: &Config, r: Result<(), String>)
    requires
        call_ensures(require_runtime_adapter, (config,), r),
    ensures
        r is Ok <==> config.telegram.enabled,
{
}

/// A shown percentage is the number itself, between nothing and the whole.
pub proof fn percentages_are_within_bounds(whole: i64, r: u8)
    requires
        call_ensures(shown_percent, (whole,), r),
    ensures
        r <= 100,
        0 <= whole <= 100 ==> r == whole,
        whole < 0 ==> r == 0,
        whole > 100 ==> r == 100,
{
}

/// The smaller bot names files after who uploaded a download, its date or else that of today, and
/// its title.
pub proof fn smaller_bot_names_files(
    info: &Json,
    today: &str,
    r: crate::mine_bot::DeliveryFilenameMetadata,
    t: Seq<char>,
)
    requires
        call_ensures(delivery_metadata_from, (info, today), r),
        tight(t),
        t.len() > 0,
    ensures
        info@.text_at("uploader"@) == Some(t) ==> r.username@ == t,
        info@.text_at("title"@) == Some(t) ==> r.title@ == t,
        info@.text_at("upload_date"@) is None && info@.text_at("release_date"@) is None && info@.get(
            "timestamp"@,
        ) is None ==> r.date@ == today@,
        crate::metadata::compact_date(t, " "@) is Some && info@.text_at("upload_date"@) == Some(t)
            ==> r.date@ == crate::metadata::compact_date(t, " "@)->0,
{
    crate::laws::texts::tight_texts_stay(t);
    reveal_with_fuel(crate::metadata::first_text, 2);
    assert(crate::metadata::user_keys()[0] == "uploader"@);
    assert(crate::metadata::title_keys()[0] == "title"@);
}

} // verus!
