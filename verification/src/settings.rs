//! The settings of the bot: the formats they are written in, their defaults, and the commands
//! that look at and change them.
use vstd::prelude::*;
use vstd::utf8::encode_utf8;

use crate::config::{parse_config_path, path_read, ConfigPathError};
use crate::document::{
    get_value_at_path, has_room, room_at, set_at, set_value_at_path, value_at, SetFailure, SetPathError,
};
use crate::json::{json_document, parse_json, some_string, some_text, Json, JsonTree};
use crate::listing::{by_path, leaves, listed, sorted_config_entries, written};
use crate::numbers::{decimal, decimal_text};
use crate::text::{
    chars_of, copy_chars, ends_with, has_prefix, has_suffix, is_text, join, join_chars, lines,
    split_lines, starts_with, text_of, trim_start, trim_start_chars, views,
};
use crate::users::UserRole;

verus! {

// ---------------------------------------------------------------------------
// Formats
// ---------------------------------------------------------------------------

/// The formats that a configuration file can have.
#[derive(Clone, Copy, PartialEq, Eq, Debug, Structural)]
pub enum ConfigFormat {
    Json,
    Conl,
}

/// Whether the line says nothing about the format: it is blank or a comment.
pub open spec fn insignificant(line: Seq<char>) -> bool {
    let t = trim_start(line);
    t.len() == 0 || has_prefix(t, ";"@) || has_prefix(t, "//"@)
}

/// The format of a file with the given lines: JSON if the first significant one starts with a
/// brace, CONL otherwise.
pub open spec fn format_of_lines(all: Seq<Seq<char>>) -> ConfigFormat
    decreases all.len(),
{
    if all.len() == 0 {
        ConfigFormat::Conl
    } else if insignificant(all[0]) {
        format_of_lines(all.drop_first())
    } else if has_prefix(trim_start(all[0]), "{"@) {
        ConfigFormat::Json
    } else {
        ConfigFormat::Conl
    }
}

/// The format of a configuration text.
pub fn detect_config_format(text: &str) -> (r: ConfigFormat)
    ensures
        r == format_of_lines(lines(text@)),
{
    let cs = chars_of(text);
    let all = split_lines(cs.as_slice());
    let ghost parts = views(all@);
    let mut i: usize = 0;
    assert(parts.skip(0) == parts);
    while i < all.len()
        invariant
            i <= all.len(),
            parts == views(all@),
            parts == lines(text@),
            format_of_lines(parts) == format_of_lines(parts.skip(i as int)),
        decreases all.len() - i,
    {
        let t = trim_start_chars(all[i].as_slice());
        assert(parts.skip(i as int)[0] == all@[i as int]@);
        assert(parts.skip(i as int).drop_first() == parts.skip(i + 1));
        if !(t.len() == 0 || starts_with(t, ";") || starts_with(t, "//")) {
            if starts_with(t, "{") {
                return ConfigFormat::Json;
            } else {
                return ConfigFormat::Conl;
            }
        }
        i += 1;
    }
    ConfigFormat::Conl
}

/// Whether the line is a whole-line comment of JSON with comments.
pub open spec fn jsonc_comment(line: Seq<char>) -> bool {
    has_prefix(trim_start(line), "//"@)
}

/// The lines that are not whole-line comments.
pub open spec fn without_comments(all: Seq<Seq<char>>) -> Seq<Seq<char>> {
    all.filter(|l: Seq<char>| !jsonc_comment(l))
}

/// The text without its whole-line comments, its other lines joined by line feeds.
pub fn strip_jsonc_comment_lines(text: &str) -> (r: String)
    ensures
        r@ == join(without_comments(lines(text@)), "\n"@),
{
    let cs = chars_of(text);
    let all = split_lines(cs.as_slice());
    let ghost parts = views(all@);
    let mut kept: Vec<Vec<char>> = Vec::new();
    let mut i: usize = 0;
    proof {
        reveal(Seq::filter);
        assert(views(kept@) =~= without_comments(parts.take(0)));
    }
    while i < all.len()
        invariant
            i <= all.len(),
            parts == views(all@),
            views(kept@) == without_comments(parts.take(i as int)),
        decreases all.len() - i,
    {
        let ghost before = views(kept@);
        let t = trim_start_chars(all[i].as_slice());
        assert(parts.take(i + 1).drop_last() == parts.take(i as int));
        assert(parts.take(i + 1).last() == all@[i as int]@);
        proof {
            reveal(Seq::filter);
        }
        if !starts_with(t, "//") {
            let line = copy_chars(all[i].as_slice());
            kept.push(line);
            assert(views(kept@) =~= before.push(line@));
        }
        i += 1;
    }
    assert(parts.take(i as int) == parts);
    let joined = join_chars(&kept, "\n");
    text_of(joined.as_slice())
}

/// The extension of the last component of a path, as `camino::Utf8Path` splits paths on Linux.
pub uninterp spec fn path_extension(path: Seq<char>) -> Option<Seq<char>>;

/// Calls `camino::Utf8Path::extension`: the result depends on the path alone, and is named
/// `path_extension`.
#[verifier::external_body]
pub(crate) fn extension_of(path: &str) -> (r: Option<String>)
    ensures
        some_string(r) == path_extension(path@),
{
    camino::Utf8Path::new(path).extension().map(|extension| extension.to_string())
}

/// The format that goes with an extension.
pub open spec fn format_of_extension(extension: Option<Seq<char>>) -> ConfigFormat {
    if extension == Some("json"@) {
        ConfigFormat::Json
    } else {
        ConfigFormat::Conl
    }
}

/// The format of a file with the extension.
pub fn format_for_extension(extension: Option<&str>) -> (r: ConfigFormat)
    ensures
        r == format_of_extension(some_text(extension)),
{
    match extension {
        Some(e) => {
            let cs = chars_of(e);
            if is_text(cs.as_slice(), "json") {
                ConfigFormat::Json
            } else {
                ConfigFormat::Conl
            }
        },
        None => ConfigFormat::Conl,
    }
}

/// The format in which a new configuration is written at the path.
pub fn default_format_for_path(path: &str) -> (r: ConfigFormat)
    ensures
        r == format_of_extension(path_extension(path@)),
{
    match extension_of(path) {
        Some(e) => format_for_extension(Some(e.as_str())),
        None => format_for_extension(None),
    }
}

/// What is written to the file for a rendered configuration: it ends with a line feed.
pub open spec fn file_text(format: ConfigFormat, rendered: Seq<char>) -> Seq<char> {
    match format {
        ConfigFormat::Json => rendered + "\n"@,
        ConfigFormat::Conl => if has_suffix(rendered, "\n"@) {
            rendered
        } else {
            rendered + "\n"@
        },
    }
}

/// What is written to the file for a rendered configuration.
pub fn config_file_text(format: ConfigFormat, rendered: &str) -> (r: String)
    ensures
        r@ == file_text(format, rendered@),
{
    let cs = chars_of(rendered);
    let mut out = rendered.to_owned();
    match format {
        ConfigFormat::Json => {
            out.append("\n");
        },
        ConfigFormat::Conl => {
            if !ends_with(cs.as_slice(), "\n") {
                out.append("\n");
            }
        },
    }
    out
}

// ---------------------------------------------------------------------------
// The settings
// ---------------------------------------------------------------------------

/// The settings of the Telegram adapter.
#[derive(Debug, PartialEq, Eq)]
pub struct TelegramConfig {
    pub enabled: bool,
    pub bot_token: String,
}

/// A user whose role is set at every start.
#[derive(Debug, PartialEq, Eq)]
pub struct SeedUser {
    pub platform: String,
    pub platform_user_id: String,
    pub role: UserRole,
}

/// The settings of the bot.
#[derive(Debug, PartialEq, Eq)]
pub struct Config {
    pub database_path: String,
    pub download_dir: String,
    pub telegram: TelegramConfig,
    pub seed_users: Vec<SeedUser>,
}

/// Where the database stands if nothing else is set.
pub fn default_database_path() -> (r: String)
    ensures
        r@ == "./notnotsavebot.sqlite"@,
{
    "./notnotsavebot.sqlite".to_owned()
}

/// Where downloads are kept if nothing else is set.
pub fn default_download_dir() -> (r: String)
    ensures
        r@ == "./downloads"@,
{
    "./downloads".to_owned()
}

impl Default for Config {
    fn default() -> (r: Self)
        ensures
            r.database_path@ == "./notnotsavebot.sqlite"@,
            r.download_dir@ == "./downloads"@,
            !r.telegram.enabled,
            r.telegram.bot_token@.len() == 0,
            r.seed_users@.len() == 0,
    {
        Config {
            database_path: default_database_path(),
            download_dir: default_download_dir(),
            telegram: TelegramConfig { enabled: false, bot_token: String::new() },
            seed_users: Vec::new(),
        }
    }
}

/// The token that counts: the one from the environment where there is one, else the one in the
/// settings.
pub open spec fn effective_token(stored: Seq<char>, token: Option<Seq<char>>) -> Seq<char> {
    match token {
        Some(t) => t,
        None => stored,
    }
}

/// Lets a token from the environment take the place of the one in the settings.
pub fn apply_env_overrides(config: &mut Config, token: Option<String>)
    ensures
        final(config).telegram.bot_token@ == effective_token(
            old(config).telegram.bot_token@,
            some_string(token),
        ),
        final(config).telegram.enabled == old(config).telegram.enabled,
        final(config).database_path == old(config).database_path,
        final(config).download_dir == old(config).download_dir,
        final(config).seed_users == old(config).seed_users,
{
    match token {
        Some(t) => {
            config.telegram.bot_token = t;
        },
        None => {},
    }
}

/// Whether the bot has anything to run; the message says what to set if not.
pub fn require_runtime_adapter(config: &Config) -> (r: Result<(), String>)
    ensures
        r is Ok == config.telegram.enabled,
        r matches Err(m) ==> m@ == "no runtime adapters enabled; set telegram.enabled = true"@,
{
    if config.telegram.enabled {
        Ok(())
    } else {
        Err("no runtime adapters enabled; set telegram.enabled = true".to_owned())
    }
}

// ---------------------------------------------------------------------------
// Commands
// ---------------------------------------------------------------------------

/// Why a command on the settings fails.
#[derive(Debug, PartialEq, Eq)]
pub enum ConfigError {
    /// The key is not a path.
    Path(ConfigPathError, String),
    /// Nothing stands at the key.
    NotFound(String),
    /// Neither a key nor all values were asked for.
    MissingKey,
    /// The path leads through something that is not a container.
    Blocked(SetPathError),
}

/// What an error of a command is.
pub enum ConfigFailure {
    Path(ConfigPathError, Seq<char>),
    NotFound(Seq<char>),
    MissingKey,
    Blocked(SetFailure),
}

impl View for ConfigError {
    type V = ConfigFailure;

    open spec fn view(&self) -> ConfigFailure {
        match self {
            ConfigError::Path(e, key) => ConfigFailure::Path(*e, key@),
            ConfigError::NotFound(key) => ConfigFailure::NotFound(key@),
            ConfigError::MissingKey => ConfigFailure::MissingKey,
            ConfigError::Blocked(e) => ConfigFailure::Blocked(e@),
        }
    }
}

/// The message for a failed command.
pub open spec fn failure_message(failure: ConfigFailure) -> Seq<char> {
    match failure {
        ConfigFailure::Path(ConfigPathError::Empty, _) => "config key cannot be empty"@,
        ConfigFailure::Path(ConfigPathError::Invalid, key) => "invalid config key: "@ + key,
        ConfigFailure::Path(ConfigPathError::IndexTooLarge, _) =>
            "number too large to fit in target type"@,
        ConfigFailure::NotFound(key) => "config key not found: "@ + key,
        ConfigFailure::MissingKey => "config get requires KEY or --all"@,
        ConfigFailure::Blocked(SetFailure::NotAnObject(key)) =>
            "config path traverses a non-object at key "@ + key,
        ConfigFailure::Blocked(SetFailure::NotAnArray(index)) =>
            "config path traverses a non-array at index "@ + decimal(index),
    }
}

impl ConfigError {
    /// The message for the user.
    pub fn message(&self) -> (r: String)
        ensures
            r@ == failure_message(self@),
    {
        match self {
            ConfigError::Path(e, key) => match e {
                ConfigPathError::Empty => "config key cannot be empty".to_owned(),
                ConfigPathError::Invalid => {
                    let mut out = "invalid config key: ".to_owned();
                    out.append(key.as_str());
                    out
                },
                ConfigPathError::IndexTooLarge =>
                    "number too large to fit in target type".to_owned(),
            },
            ConfigError::NotFound(key) => {
                let mut out = "config key not found: ".to_owned();
                out.append(key.as_str());
                out
            },
            ConfigError::MissingKey => "config get requires KEY or --all".to_owned(),
            ConfigError::Blocked(e) => match e {
                SetPathError::NotAnObject(key) => {
                    let mut out = "config path traverses a non-object at key ".to_owned();
                    out.append(key.as_str());
                    out
                },
                SetPathError::NotAnArray(index) => {
                    let mut out = "config path traverses a non-array at index ".to_owned();
                    let numeral = decimal_text(*index as u64);
                    out.append(numeral.as_str());
                    out
                },
            },
        }
    }
}

/// The value that a key asks for.
pub open spec fn value_for_key(document: JsonTree, key: Seq<char>) -> Result<
    JsonTree,
    ConfigFailure,
> {
    match path_read(encode_utf8(key)) {
        Err(e) => Err(ConfigFailure::Path(e, key)),
        Ok(path) => match value_at(document, path) {
            Some(v) => Ok(v),
            None => Err(ConfigFailure::NotFound(key)),
        },
    }
}

/// The result of a lookup, over the models.
pub open spec fn lookup_result(r: Result<&Json, ConfigError>) -> Result<JsonTree, ConfigFailure> {
    match r {
        Ok(j) => Ok(j@),
        Err(e) => Err(e@),
    }
}

/// The value that a key asks for.
pub fn config_value<'a>(document: &'a Json, key: &str) -> (r: Result<&'a Json, ConfigError>)
    ensures
        lookup_result(r) == value_for_key(document@, key@),
{
    match parse_config_path(key) {
        Err(e) => Err(ConfigError::Path(e, key.to_owned())),
        Ok(path) => match get_value_at_path(document, path.as_slice()) {
            Some(v) => Ok(v),
            None => Err(ConfigError::NotFound(key.to_owned())),
        },
    }
}

/// What `config get` shows.
#[derive(Debug, PartialEq, Eq)]
pub enum ConfigAnswer<'a> {
    /// One value.
    Value(&'a Json),
    /// The leaves of a value under their paths, in the order of the paths.
    Entries(Vec<(String, &'a Json)>),
}

/// What the answer to `config get` is.
pub enum Answer {
    Value(JsonTree),
    Entries(Seq<(Seq<char>, JsonTree)>),
}

/// The result of `config get`, over the models.
pub open spec fn answer_result(r: Result<ConfigAnswer, ConfigError>) -> Result<
    Answer,
    ConfigFailure,
> {
    match r {
        Ok(ConfigAnswer::Value(j)) => Ok(Answer::Value(j@)),
        Ok(ConfigAnswer::Entries(entries)) => Ok(Answer::Entries(listed(entries@))),
        Err(e) => Err(e@),
    }
}

/// The answer to `config get`.
pub open spec fn answer_to_get(document: JsonTree, all: bool, key: Option<Seq<char>>) -> Result<
    Answer,
    ConfigFailure,
> {
    match key {
        Some(k) => match value_for_key(document, k) {
            Ok(v) => if all {
                Ok(Answer::Entries(by_path(written(Some(k), leaves(v)))))
            } else {
                Ok(Answer::Value(v))
            },
            Err(e) => Err(e),
        },
        None => if all {
            Ok(Answer::Entries(by_path(written(None, leaves(document)))))
        } else {
            Err(ConfigFailure::MissingKey)
        },
    }
}

/// Answers `config get`: the value at the key, or with `all` its leaves under their paths.
pub fn answer_config_get<'a>(document: &'a Json, all: bool, key: Option<&str>) -> (r: Result<
    ConfigAnswer<'a>,
    ConfigError,
>)
    ensures
        answer_result(r) == answer_to_get(document@, all, some_text(key)),
{
    match key {
        Some(k) => match config_value(document, k) {
            Ok(v) => {
                if all {
                    let entries = sorted_config_entries(v, Some(k));
                    Ok(ConfigAnswer::Entries(entries))
                } else {
                    Ok(ConfigAnswer::Value(v))
                }
            },
            Err(e) => Err(e),
        },
        None => if all {
            let entries = sorted_config_entries(document, None);
            Ok(ConfigAnswer::Entries(entries))
        } else {
            Err(ConfigError::MissingKey)
        },
    }
}

/// The document that a value on the command line stands for: what it is in JSON, else the text.
pub open spec fn cli_value(input: Seq<char>) -> JsonTree {
    match json_document(input) {
        Some(v) => v,
        None => JsonTree::Text(input),
    }
}

/// Reads a value from the command line.
pub fn parse_cli_value(input: &str) -> (r: Json)
    ensures
        r@ == cli_value(input@),
{
    let parsed = parse_json(input);
    cli_value_of(parsed, input)
}

/// The value on the command line of which the JSON reading is given.
pub fn cli_value_of(parsed: Option<Json>, input: &str) -> (r: Json)
    ensures
        r@ == match parsed {
            Some(j) => j@,
            None => JsonTree::Text(input@),
        },
{
    match parsed {
        Some(j) => j,
        None => Json::Text(input.to_owned()),
    }
}

/// What `config set` does to the document, and why it fails if it does.
pub open spec fn after_set(document: JsonTree, key: Seq<char>, new: JsonTree) -> (
    JsonTree,
    Option<ConfigFailure>,
) {
    match path_read(encode_utf8(key)) {
        Err(e) => (document, Some(ConfigFailure::Path(e, key))),
        Ok(path) => {
            let (after, failure) = set_at(document, path, new);
            (
                after,
                match failure {
                    Some(f) => Some(ConfigFailure::Blocked(f)),
                    None => None,
                },
            )
        },
    }
}

/// The failure of `config set`, if there was one.
pub open spec fn update_failure(r: Result<(), ConfigError>) -> Option<ConfigFailure> {
    match r {
        Ok(_) => None,
        Err(e) => Some(e@),
    }
}

/// Whether the key asks no array of the document for the last position that can be named.
pub open spec fn key_fits(document: JsonTree, key: Seq<char>) -> bool {
    path_read(encode_utf8(key)) matches Ok(path) ==> room_at(document, path)
}

/// Whether a value can be put at the key of the document, or be refused there.
pub fn key_has_room(document: &Json, key: &str) -> (r: bool)
    ensures
        r == key_fits(document@, key@),
{
    match parse_config_path(key) {
        Ok(path) => has_room(document, path.as_slice()),
        Err(_) => true,
    }
}

/// Puts a value at the key of the document.
pub fn put_config_value(document: &mut Json, key: &str, new_value: Json) -> (r: Result<
    (),
    ConfigError,
>)
    requires
        key_fits(old(document)@, key@),
    ensures
        (final(document)@, update_failure(r)) == after_set(old(document)@, key@, new_value@),
{
    match parse_config_path(key) {
        Err(e) => Err(ConfigError::Path(e, key.to_owned())),
        Ok(path) => match set_value_at_path(document, path.as_slice(), new_value) {
            Ok(_) => Ok(()),
            Err(e) => Err(ConfigError::Blocked(e)),
        },
    }
}

/// Carries out `config set` on the document.
pub fn set_config_value(document: &mut Json, key: &str, input: &str) -> (r: Result<(), ConfigError>)
    requires
        key_fits(old(document)@, key@),
    ensures
        (final(document)@, update_failure(r)) == after_set(
            old(document)@,
            key@,
            cli_value(input@),
        ),
{
    let new_value = parse_cli_value(input);
    put_config_value(document, key, new_value)
}

/// After `config set` has succeeded, `config get` shows the value that was set.
pub proof fn set_value_is_shown(document: JsonTree, key: Seq<char>, new: JsonTree)
    requires
        after_set(document, key, new).1 is None,
    ensures
        answer_to_get(after_set(document, key, new).0, false, Some(key)) == Ok::<
            Answer,
            ConfigFailure,
        >(Answer::Value(new)),
{
    let path = path_read(encode_utf8(key))->Ok_0;
    crate::document::set_value_is_read_back(document, path, new);
}

} // verus!
