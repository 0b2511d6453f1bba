//! The rules of the smaller bot, where they differ: it takes addresses as they are, asks for no
//! progress, refuses strangers with an answer, and puts dates with spaces.
use vstd::prelude::*;

use crate::accounts::{
    has_user_id, role_of, row_of_user, table_ok, UserRow,
};
use crate::commands::{other_reply, reply_to_other, Command, Reply, ReplyView};
use crate::delivery::{is_plain_image, plain_image, FileKind};
use crate::encode::{arg_views, opening, owned_words, word_args, word_texts, Arg, ArgView};
use crate::filename::{delivery_filename, file_name};
use crate::json::{some_string, some_text, Json};
use crate::links::{parse_url, text_result, url_read};
use crate::metadata::{
    compact_date, info_document, or_text, read_info_json, read_title, read_user_field,
    separate_compact_date, string_field, title_keys, upload_date, upload_date_in, user_keys,
};
use crate::present::{escape_html, escaped};
use crate::text::{chars_of, ends_with, has_suffix, same_text, texts};
use crate::users::{role_name, role_named, stored_role_is_found, UserRole};

verus! {

// ---------------------------------------------------------------------------
// Addresses and arguments
// ---------------------------------------------------------------------------

/// Where the database is, unless the configuration says otherwise.
pub fn default_database_path() -> (r: String)
    ensures
        r@ == "./mine-bot.sqlite"@,
{
    "./mine-bot.sqlite".to_owned()
}

/// The address that a text stands for, as it is written out.
pub open spec fn address_of(input: Seq<char>) -> Result<Seq<char>, Seq<char>> {
    match url_read(input) {
        Ok(url) => Ok(url.href),
        Err(m) => Err(m),
    }
}

/// The address that a text stands for, or why it is none.
pub fn normalize_url(input_url: &str) -> (r: Result<String, String>)
    ensures
        text_result(r) == address_of(input_url@),
{
    match parse_url(input_url) {
        Ok(url) => Ok(url.href),
        Err(m) => Err(m),
    }
}

/// What the downloader is told.
pub open spec fn downloader_words(address: Seq<char>, template: Seq<char>) -> Seq<Seq<char>> {
    seq![
        "-f"@,
        "bv*[ext=mp4]+ba[ext=m4a]/b[ext=mp4]/b"@,
        "--merge-output-format"@,
        "mp4"@,
        "--write-info-json"@,
        "--write-description"@,
        "--convert-thumbnails"@,
        "jpg"@,
        "--output"@,
        template,
        address,
    ]
}

/// The arguments of the downloader.
pub fn yt_dlp_args(address: &str, template: &str) -> (r: Vec<String>)
    ensures
        texts(r@) == downloader_words(address@, template@),
{
    let words: [&str; 11] = [
        "-f",
        "bv*[ext=mp4]+ba[ext=m4a]/b[ext=mp4]/b",
        "--merge-output-format",
        "mp4",
        "--write-info-json",
        "--write-description",
        "--convert-thumbnails",
        "jpg",
        "--output",
        template,
        address,
    ];
    assert(word_texts(words@) == downloader_words(address@, template@));
    owned_words(&words)
}

/// What makes a delivered video: without another file for the sound there is none.
pub open spec fn convert_arguments(with_audio: bool) -> Seq<ArgView> {
    let sound = if with_audio {
        word_args(seq!["-i"@]).push(ArgView::Audio) + word_args(
            seq!["-map"@, "0:v:0"@, "-map"@, "1:a:0"@, "-c:a"@, "aac"@, "-b:a"@, "128k"@],
        )
    } else {
        word_args(seq!["-map"@, "0:v:0"@, "-an"@])
    };
    (opening() + sound + word_args(
        seq![
            "-c:v"@,
            "libx264"@,
            "-preset"@,
            "veryfast"@,
            "-pix_fmt"@,
            "yuv420p"@,
            "-movflags"@,
            "+faststart"@,
        ],
    )).push(ArgView::Output)
}

/// What makes a delivered video.
pub fn convert_args(with_audio: bool) -> (r: Vec<Arg>)
    ensures
        arg_views(r@) == convert_arguments(with_audio),
{
    let mut args = crate::encode::open_args();
    if with_audio {
        let first: [&str; 1] = ["-i"];
        assert(word_texts(first@) == seq!["-i"@]);
        crate::encode::push_words(&mut args, &first);
        crate::encode::push_arg(&mut args, Arg::Audio);
        let sound: [&str; 8] = ["-map", "0:v:0", "-map", "1:a:0", "-c:a", "aac", "-b:a", "128k"];
        assert(word_texts(sound@) == seq![
            "-map"@,
            "0:v:0"@,
            "-map"@,
            "1:a:0"@,
            "-c:a"@,
            "aac"@,
            "-b:a"@,
            "128k"@,
        ]);
        crate::encode::push_words(&mut args, &sound);
    } else {
        let sound: [&str; 3] = ["-map", "0:v:0", "-an"];
        assert(word_texts(sound@) == seq!["-map"@, "0:v:0"@, "-an"@]);
        crate::encode::push_words(&mut args, &sound);
    }
    let tail: [&str; 8] = [
        "-c:v",
        "libx264",
        "-preset",
        "veryfast",
        "-pix_fmt",
        "yuv420p",
        "-movflags",
        "+faststart",
    ];
    assert(word_texts(tail@) == seq![
        "-c:v"@,
        "libx264"@,
        "-preset"@,
        "veryfast"@,
        "-pix_fmt"@,
        "yuv420p"@,
        "-movflags"@,
        "+faststart"@,
    ]);
    crate::encode::push_words(&mut args, &tail);
    crate::encode::push_arg(&mut args, Arg::Output);
    args
}

// ---------------------------------------------------------------------------
// Files
// ---------------------------------------------------------------------------

/// What a file with an extension is.
pub open spec fn kind_of(extension: Option<Seq<char>>) -> FileKind {
    match extension {
        Some(e) => if e == "mp4"@ {
            FileKind::Video
        } else if e == "m4a"@ {
            FileKind::Audio
        } else if plain_image(e) {
            FileKind::Image
        } else {
            FileKind::Other
        },
        None => FileKind::Other,
    }
}

/// What a file with an extension is.
pub fn file_kind(extension: Option<&str>) -> (r: FileKind)
    ensures
        r == kind_of(some_text(extension)),
{
    match extension {
        Some(e) => if same_text(e, "mp4") {
            FileKind::Video
        } else if same_text(e, "m4a") {
            FileKind::Audio
        } else if is_plain_image(e) {
            FileKind::Image
        } else {
            FileKind::Other
        },
        None => FileKind::Other,
    }
}

/// Whether a path is that of an image.
pub open spec fn image_path(path: Seq<char>) -> bool {
    has_suffix(path, ".jpg"@) || has_suffix(path, ".jpeg"@) || has_suffix(path, ".png"@)
}

/// Whether a path is that of an image.
pub fn is_image_path(path: &str) -> (r: bool)
    ensures
        r == image_path(path@),
{
    let cs = chars_of(path);
    ends_with(cs.as_slice(), ".jpg") || ends_with(cs.as_slice(), ".jpeg") || ends_with(
        cs.as_slice(),
        ".png",
    )
}

/// What is sent.
#[derive(Clone, Copy, PartialEq, Eq, Structural, Debug)]
pub enum Upload {
    Nothing,
    Photo,
    Video,
    Album,
}

/// What is sent: a single file as what it is, several together as images.
pub open spec fn sending(paths: Seq<Seq<char>>) -> Upload {
    if paths.len() == 0 {
        Upload::Nothing
    } else if paths.len() > 1 {
        Upload::Album
    } else if image_path(paths[0]) {
        Upload::Photo
    } else {
        Upload::Video
    }
}

/// Decides what is sent.
pub fn plan_sending(files: &Vec<String>) -> (r: Upload)
    ensures
        r == sending(texts(files@)),
{
    assert(texts(files@).len() == files@.len());
    if files.len() == 0 {
        return Upload::Nothing;
    }
    if files.len() > 1 {
        return Upload::Album;
    }
    assert(texts(files@)[0] == files@[0]@);
    if is_image_path(files[0].as_str()) {
        Upload::Photo
    } else {
        Upload::Video
    }
}

/// A date of eight digits with spaces between the year, the month and the day.
pub fn format_compact_date(input: &str) -> (r: Option<String>)
    ensures
        some_string(r) == compact_date(input@, " "@),
{
    separate_compact_date(input, " ")
}

/// The date of a download.
pub fn read_upload_date(value: &Json) -> (r: Option<String>)
    ensures
        some_string(r) == upload_date(value@, " "@, "%Y %m %d"@),
{
    upload_date_in(value, " ", "%Y %m %d")
}

/// What files are named after.
#[derive(Debug, PartialEq, Eq)]
pub struct DeliveryFilenameMetadata {
    pub username: String,
    pub date: String,
    pub title: String,
}

/// Who, when and what the notes about a download name; a download without a date has that of
/// today.
pub fn delivery_metadata_from(info: &Json, today: &str) -> (r: DeliveryFilenameMetadata)
    ensures
        r.username@ == or_text(string_field(info@, user_keys()), "unknown"@),
        r.date@ == or_text(upload_date(info@, " "@, "%Y %m %d"@), today@),
        r.title@ == or_text(string_field(info@, title_keys()), "untitled"@),
{
    let username = match read_user_field(info) {
        Some(t) => t,
        None => "unknown".to_owned(),
    };
    let date = match read_upload_date(info) {
        Some(d) => d,
        None => today.to_owned(),
    };
    DeliveryFilenameMetadata { username, date, title: read_title(info) }
}

/// Who, when and what the text of the notes about a download names.
pub fn read_delivery_filename_metadata(raw_info: Option<&str>, today: &str) -> (r:
    DeliveryFilenameMetadata)
    ensures
        ({
            let info = info_document(some_text(raw_info));
            &&& r.username@ == or_text(string_field(info, user_keys()), "unknown"@)
            &&& r.date@ == or_text(upload_date(info, " "@, "%Y %m %d"@), today@)
            &&& r.title@ == or_text(string_field(info, title_keys()), "untitled"@)
        }),
{
    let info = read_info_json(raw_info);
    delivery_metadata_from(&info, today)
}

/// The new name of a delivered file, or that it has no extension to keep.
pub fn renamed(
    metadata: &DeliveryFilenameMetadata,
    sequence: Option<usize>,
    extension: Option<&str>,
    path: &str,
) -> (r: Result<String, String>)
    ensures
        match r {
            Ok(name) => some_text(extension) matches Some(e) && e.len() > 0 && name@ == file_name(
                metadata.username@,
                metadata.date@,
                metadata.title@,
                sequence,
                e,
            ),
            Err(m) => !(some_text(extension) matches Some(e) && e.len() > 0) && m@
                == "downloaded media file has no extension: "@ + path@,
        },
{
    match extension {
        Some(e) if !crate::posts::is_empty_text(e) => Ok(
            delivery_filename(
                metadata.username.as_str(),
                metadata.date.as_str(),
                metadata.title.as_str(),
                sequence,
                e,
            ),
        ),
        _ => {
            let mut m = "downloaded media file has no extension: ".to_owned();
            m.append(path);
            Err(m)
        },
    }
}

/// The message about a post.
pub open spec fn post_html(text: Seq<char>) -> Seq<char> {
    "<blockquote>"@ + escaped(text) + "</blockquote>"@
}

/// Writes the message about a post.
pub fn format_post_text_html(text: &str) -> (r: String)
    ensures
        r@ == post_html(text@),
{
    let mut out = "<blockquote>".to_owned();
    let shown = escape_html(text);
    out.append(shown.as_str());
    out.append("</blockquote>");
    out
}

// ---------------------------------------------------------------------------
// Users
// ---------------------------------------------------------------------------

/// What is answered to someone who may not use the bot.
pub open spec fn refusal(user_id: Seq<char>) -> Seq<char> {
    "You are not authorized to use this bot. Your Telegram user id is "@ + user_id + "."@
}

/// What the bot does about a message.
#[derive(Debug, PartialEq, Eq)]
pub enum Answer {
    /// It answers with a text that tells why it does nothing else.
    Refuse(String),
    /// It does what the message asks.
    Serve(Reply),
}

/// What the bot does about a message.
pub enum AnswerView {
    Refuse(Seq<char>),
    Serve(ReplyView),
}

impl View for Answer {
    type V = AnswerView;

    open spec fn view(&self) -> AnswerView {
        match self {
            Answer::Refuse(m) => AnswerView::Refuse(m@),
            Answer::Serve(reply) => AnswerView::Serve(reply@),
        }
    }
}

/// What the bot does about a message, by the role of who sent it. Authorizing is not among its
/// commands.
pub open spec fn answer(
    role: UserRole,
    user_id: Seq<char>,
    text: Seq<char>,
    parsed: Option<Command>,
) -> AnswerView {
    if role == UserRole::Nobody {
        AnswerView::Refuse(refusal(user_id))
    } else {
        AnswerView::Serve(other_reply(text, parsed, false))
    }
}

/// Decides what the bot does about a message.
pub fn answer_to(role: UserRole, user_id: &str, text: &str, parsed: Option<Command>) -> (r: Answer)
    ensures
        r@ == answer(role, user_id@, text@, parsed),
{
    if !role.is_allowed() {
        let mut m = "You are not authorized to use this bot. Your Telegram user id is ".to_owned();
        m.append(user_id);
        m.append(".");
        return Answer::Refuse(m);
    }
    Answer::Serve(reply_to_other(text, parsed, false))
}

/// The table after a message from a user: someone new gets a row with the role of nobody, whose id
/// is given.
pub open spec fn seen(
    table: Seq<UserRow>,
    id: i64,
    platform: Seq<char>,
    user_id: Seq<char>,
    now: Seq<char>,
) -> Seq<UserRow> {
    if row_of_user(table, platform, user_id, 0) is Some {
        table.map_values(
            |row: UserRow|
                if has_user_id(row, platform, user_id) {
                    UserRow { updated_at: now, ..row }
                } else {
                    row
                },
        )
    } else {
        table.push(
            UserRow {
                id,
                platform,
                platform_user_id: Some(user_id),
                username: None,
                role: role_name(UserRole::Nobody),
                created_at: now,
                updated_at: now,
            },
        )
    }
}

/// After a message the sender has a row with a valid role: the one from before, or that of nobody
/// where there was none.
pub proof fn seen_users_have_a_role(
    table: Seq<UserRow>,
    id: i64,
    platform: Seq<char>,
    user_id: Seq<char>,
    now: Seq<char>,
)
    requires
        table_ok(table),
    ensures
        role_of(seen(table, id, platform, user_id, now), platform, user_id) == match role_of(
            table,
            platform,
            user_id,
        ) {
            Some(role) => Some(role),
            None => Some(role_name(UserRole::Nobody)),
        },
        role_of(seen(table, id, platform, user_id, now), platform, user_id) matches Some(role)
            && role_named(role) is Some,
{
    let after = seen(table, id, platform, user_id, now);
    stored_role_is_found(UserRole::Nobody);
    crate::accounts::lemma_row_of_user(table, platform, user_id, 0);
    crate::accounts::lemma_row_of_user(after, platform, user_id, 0);
    match row_of_user(table, platform, user_id, 0) {
        Some(k) => {
            assert(has_user_id(after[k], platform, user_id));
            let f = row_of_user(after, platform, user_id, 0)->0;
            assert(has_user_id(table[f], platform, user_id));
            crate::accounts::lemma_the_row_of_user(table, platform, user_id, f);
        },
        None => {
            assert(has_user_id(after[table.len() as int], platform, user_id));
            let f = row_of_user(after, platform, user_id, 0)->0;
            if f < table.len() {
                assert(after[f] == table[f]);
            }
        },
    }
}

/// Someone of whom the table knows nothing is refused.
pub proof fn strangers_are_refused(
    table: Seq<UserRow>,
    id: i64,
    platform: Seq<char>,
    user_id: Seq<char>,
    now: Seq<char>,
    text: Seq<char>,
    parsed: Option<Command>,
)
    requires
        table_ok(table),
        role_of(table, platform, user_id) is None,
    ensures
        ({
            let stored = role_of(seen(table, id, platform, user_id, now), platform, user_id);
            stored matches Some(name) && role_named(name) matches Some(role) && answer(
                role,
                user_id,
                text,
                parsed,
            ) == AnswerView::Refuse(refusal(user_id))
        }),
{
    seen_users_have_a_role(table, id, platform, user_id, now);
    stored_role_is_found(UserRole::Nobody);
}

} // verus!
