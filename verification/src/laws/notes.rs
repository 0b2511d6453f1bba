//! What is read of the notes about a download.
use vstd::prelude::*;

use crate::json::{json_document, JsonTree};
use crate::laws::texts::{
    all_white, blank_texts_are_white, ends_of_a_text, found_at_the_first_place, free_of, tight,
    tight_texts_stay,
};
use crate::metadata::{
    capital, clean_name, compact_date, delivery_metadata, display_handle, first_text, from_youtube,
    handle_in_address, handle_in_fields, info_document, known_platform, platform_called,
    platform_name, source_handle, source_name, string_field, upload_date, utc_date,
    words_or_unknown,
};
use crate::text::{
    all_digits, has, has_suffix, join, lemma_next_separator, lower, lowercase, matches_at,
    next_separator, trim,
};

verus! {

proof fn lemma_first_text(value: JsonTree, keys: Seq<Seq<char>>, i: int, k: int)
    requires
        0 <= i <= k <= keys.len(),
        forall|j: int| i <= j < k ==> value.text_at(#[trigger] keys[j]) is None,
        k < keys.len() ==> value.text_at(keys[k]) is Some,
    ensures
        first_text(value, keys, i) == if k < keys.len() {
            value.text_at(keys[k])
        } else {
            None
        },
    decreases k - i,
{
    if i < k {
        assert(value.text_at(keys[i]) is None);
        lemma_first_text(value, keys, i + 1, k);
    }
}

/// The text that the notes give is that at the first of the keys that holds one, without the white
/// space around it; a blank one is none, and later keys are not asked.
pub proof fn first_keys_decide(value: JsonTree, keys: Seq<Seq<char>>, k: int)
    requires
        0 <= k <= keys.len(),
        forall|j: int| 0 <= j < k ==> value.text_at(#[trigger] keys[j]) is None,
        k < keys.len() ==> value.text_at(keys[k]) is Some,
    ensures
        k == keys.len() ==> string_field(value, keys) is None,
        k < keys.len() && all_white(value.text_at(keys[k])->0) ==> string_field(value, keys) is None,
        k < keys.len() && !all_white(value.text_at(keys[k])->0) ==> string_field(value, keys)
            == Some(trim(value.text_at(keys[k])->0)),
{
    lemma_first_text(value, keys, 0, k);
    if k < keys.len() {
        blank_texts_are_white(value.text_at(keys[k])->0);
    }
}

/// The title of a download is that in its notes, or else its full or its alternative one, or else
/// the stand-in for a title.
pub proof fn titles_are_read(info: JsonTree, t: Seq<char>)
    requires
        tight(t),
        t.len() > 0,
    ensures
        info.text_at("title"@) == Some(t) ==> delivery_metadata(info).title == t,
        info.text_at("title"@) is None && info.text_at("fulltitle"@) == Some(t) ==> delivery_metadata(
            info,
        ).title == t,
        info.text_at("title"@) is None && info.text_at("fulltitle"@) is None && info.text_at(
            "alt_title"@,
        ) == Some(t) ==> delivery_metadata(info).title == t,
        info.text_at("title"@) is None && info.text_at("fulltitle"@) is None && info.text_at(
            "alt_title"@,
        ) is None ==> delivery_metadata(info).title == "untitled"@,
{
    tight_texts_stay(t);
    reveal_with_fuel(first_text, 4);
    let keys = crate::metadata::title_keys();
    assert(keys[0] == "title"@ && keys[1] == "fulltitle"@ && keys[2] == "alt_title"@);
}

/// The source of a download is its channel, or else who uploaded it, created it or performs it; only
/// on the platform X does it lose anything.
pub proof fn sources_are_read(info: JsonTree, t: Seq<char>)
    requires
        tight(t),
        t.len() > 0,
        platform_name(info) != "X"@,
    ensures
        info.text_at("channel"@) == Some(t) ==> delivery_metadata(info).source_name == t,
        info.text_at("channel"@) is None && info.text_at("uploader"@) == Some(t)
            ==> delivery_metadata(info).source_name == t,
        info.text_at("channel"@) is None && info.text_at("uploader"@) is None && info.text_at(
            "creator"@,
        ) == Some(t) ==> delivery_metadata(info).source_name == t,
        info.text_at("channel"@) is None && info.text_at("uploader"@) is None && info.text_at(
            "creator"@,
        ) is None && info.text_at("artist"@) == Some(t) ==> delivery_metadata(info).source_name == t,
        info.text_at("channel"@) is None && info.text_at("uploader"@) is None && info.text_at(
            "creator"@,
        ) is None && info.text_at("artist"@) is None ==> delivery_metadata(info).source_name
            == "unknown"@,
{
    tight_texts_stay(t);
    reveal_with_fuel(first_text, 5);
    let keys = crate::metadata::name_keys();
    assert(keys[0] == "channel"@ && keys[1] == "uploader"@ && keys[2] == "creator"@ && keys[3]
        == "artist"@);
}

/// Files are named after who uploaded a download, or else after its channel; on YouTube after the
/// handle, or where there is none after the source.
pub proof fn files_are_named_after_the_uploader(info: JsonTree, t: Seq<char>)
    requires
        tight(t),
        t.len() > 0,
    ensures
        !from_youtube(info) && info.text_at("uploader"@) == Some(t) ==> delivery_metadata(
            info,
        ).filename_username == t,
        !from_youtube(info) && info.text_at("uploader"@) is None && info.text_at("channel"@) == Some(
            t,
        ) ==> delivery_metadata(info).filename_username == t,
        from_youtube(info) && source_handle(info) == Some(t) ==> delivery_metadata(
            info,
        ).filename_username == t,
        from_youtube(info) && source_handle(info) is None ==> delivery_metadata(
            info,
        ).filename_username == delivery_metadata(info).source_name,
{
    tight_texts_stay(t);
    reveal_with_fuel(first_text, 3);
    let keys = crate::metadata::user_keys();
    assert(keys[0] == "uploader"@ && keys[1] == "channel"@);
}

/// On the platform X a name loses the words that the platform puts behind it; elsewhere, and without
/// those words, names stay as they are.
pub proof fn names_lose_the_platform(platform: Seq<char>, name: Seq<char>)
    requires
        tight(name),
        name.len() > 0,
    ensures
        clean_name("X"@, name + " on X"@) == name,
        platform != "X"@ ==> clean_name(platform, name) == name,
        !(has_suffix(name, " on X"@)) ==> clean_name(platform, name) == name,
{
    reveal_strlit(" on X");
    let all = name + " on X"@;
    assert(tight(all)) by {
        assert(all[0] == name[0]);
        assert(all.last() == 'X');
    }
    tight_texts_stay(all);
    tight_texts_stay(name);
    ends_of_a_text(name, " on X"@);
    assert(all.take(all.len() - " on X"@.len()) == name);
}

// ---------------------------------------------------------------------------
// Dates
// ---------------------------------------------------------------------------

/// A date of four, two and two digits is written with the separator between them; anything else is
/// no date.
pub proof fn dates_are_separated(
    year: Seq<char>,
    month: Seq<char>,
    day: Seq<char>,
    separator: Seq<char>,
    other: Seq<char>,
)
    requires
        year.len() == 4,
        month.len() == 2,
        day.len() == 2,
        all_digits(year),
        all_digits(month),
        all_digits(day),
        other.len() != 8 || !all_digits(other),
    ensures
        compact_date(year + month + day, separator) == Some(
            year + separator + month + separator + day,
        ),
        compact_date(other, separator) is None,
{
    let all = year + month + day;
    assert forall|i: int| 0 <= i < all.len() implies crate::text::ascii_digit(
        #[trigger] all[i],
    ) by {
        if i < 4 {
            assert(all[i] == year[i]);
        } else if i < 6 {
            assert(all[i] == month[i - 4]);
        } else {
            assert(all[i] == day[i - 6]);
        }
    }
    assert(all.subrange(0, 4) == year);
    assert(all.subrange(4, 6) == month);
    assert(all.subrange(6, 8) == day);
}

/// The date of a download is that of its upload, or else that of its release, or else the day of its
/// time; without any of them there is none.
pub proof fn dates_are_read(
    info: JsonTree,
    separator: Seq<char>,
    pattern: Seq<char>,
    date: Seq<char>,
    seconds: i64,
)
    ensures
        ({
            let uploaded = info.text_at("upload_date"@);
            let released = info.text_at("release_date"@);
            let read = upload_date(info, separator, pattern);
            &&& uploaded is Some && compact_date(uploaded->0, separator) is Some ==> read
                == compact_date(uploaded->0, separator)
            &&& (uploaded is None || compact_date(uploaded->0, separator) is None) && released is Some
                && compact_date(released->0, separator) is Some ==> read == compact_date(
                released->0,
                separator,
            )
            &&& uploaded is None && released is None && info.get("timestamp"@) is Some && info.get(
                "timestamp"@,
            )->0.signed() == Some(seconds) ==> read == utc_date(seconds, pattern)
            &&& uploaded is None && released is None && info.get("timestamp"@) is None ==> read
                is None
        }),
        upload_date(info, "."@, "%Y.%m.%d"@) == Some(date) ==> delivery_metadata(info).date == date,
        upload_date(info, "."@, "%Y.%m.%d"@) is None ==> delivery_metadata(info).date.len() == 0,
{
}

// ---------------------------------------------------------------------------
// Handles and platforms
// ---------------------------------------------------------------------------

/// A handle is shown exactly if it begins with an at sign and goes on.
pub proof fn handles_begin_with_an_at_sign(s: Seq<char>)
    requires
        tight(s),
    ensures
        s.len() > 1 && s[0] == '@' ==> display_handle(s) == Some(s),
        !(s.len() > 1 && s[0] == '@') ==> display_handle(s) is None,
{
    reveal_strlit("@");
    tight_texts_stay(s);
    if s.len() > 0 {
        assert(s.subrange(0, 1)[0] == s[0]);
        if s[0] == '@' {
            assert(s.subrange(0, 1) == "@"@);
        }
    }
}

/// The handle in an address stands behind the first slash with an at sign and ends with the next
/// slash, question mark or number sign, or with the address.
pub proof fn handles_stand_in_addresses(before: Seq<char>, handle: Seq<char>, after: Seq<char>)
    requires
        forall|j: int|
            0 <= j < before.len() ==> !(#[trigger] matches_at(
                before + "/@"@ + (handle + after),
                "/@"@,
                j,
            )),
        tight(handle),
        handle.len() > 0,
        free_of(handle, '/'),
        free_of(handle, '?'),
        free_of(handle, '#'),
        after.len() == 0 || after[0] == '/' || after[0] == '?' || after[0] == '#',
    ensures
        handle_in_address(before + "/@"@ + (handle + after)) == Some(seq!['@'] + handle),
{
    reveal_strlit("/@");
    reveal_strlit("@");
    let marks = seq!['/', '?', '#'];
    let rest = handle + after;
    let all = before + "/@"@ + rest;
    found_at_the_first_place(before, "/@"@, rest);
    assert(all.skip((before.len() + 2) as int) == rest);
    lemma_next_separator(rest, marks, 0);
    let end = next_separator(rest, marks, 0);
    assert(marks[0] == '/' && marks[1] == '?' && marks[2] == '#');
    if end < handle.len() {
        assert(rest[end] == handle[end]);
        assert(marks.contains(rest[end]));
    }
    if end > handle.len() {
        assert(rest[handle.len() as int] == after[0]);
        assert(marks.contains(rest[handle.len() as int]));
    }
    assert(rest.take(handle.len() as int) == handle);
    tight_texts_stay(handle);
    assert("@"@ == seq!['@']);
}

/// The handle of a YouTube download is the one it gives or, where that is none, the one in the
/// address of who uploaded it, of its channel or of its page.
pub proof fn youtube_handles_are_read(info: JsonTree, t: Seq<char>, address: Seq<char>, h: Seq<char>)
    requires
        from_youtube(info),
        tight(t),
        handle_in_address(address) == Some(h),
    ensures
        info.text_at("uploader_id"@) == Some(t) && t.len() > 1 && t[0] == '@' ==> source_handle(info)
            == Some(t),
        info.text_at("uploader_id"@) is None && info.text_at("uploader_url"@) == Some(address)
            ==> source_handle(info) == Some(h),
        info.text_at("uploader_id"@) is None && info.text_at("uploader_url"@) is None
            && info.text_at("channel_url"@) == Some(address) ==> source_handle(info) == Some(h),
        info.text_at("uploader_id"@) is None && info.text_at("uploader_url"@) is None
            && info.text_at("channel_url"@) is None && info.text_at("webpage_url"@) == Some(address)
            ==> source_handle(info) == Some(h),
{
    handles_begin_with_an_at_sign(t);
    tight_texts_stay(t);
    reveal_with_fuel(first_text, 2);
    reveal_with_fuel(handle_in_fields, 4);
    assert(seq!["uploader_id"@][0] == "uploader_id"@);
    let keys = crate::metadata::address_keys();
    assert(keys[0] == "uploader_url"@ && keys[1] == "channel_url"@ && keys[2] == "webpage_url"@);
}

/// The handle of another download is that of who uploaded it, or else that of its channel.
pub proof fn other_handles_are_read(info: JsonTree, t: Seq<char>)
    requires
        !from_youtube(info),
        tight(t),
        t.len() > 1,
        t[0] == '@',
    ensures
        info.text_at("uploader_id"@) == Some(t) ==> source_handle(info) == Some(t),
        info.text_at("uploader_id"@) is None && info.text_at("channel_id"@) == Some(t)
            ==> source_handle(info) == Some(t),
        info.text_at("uploader_id"@) is None && info.text_at("channel_id"@) is None
            ==> source_handle(info) is None,
{
    handles_begin_with_an_at_sign(t);
    tight_texts_stay(t);
    reveal_with_fuel(first_text, 2);
    assert(seq!["uploader_id"@][0] == "uploader_id"@);
    assert(seq!["channel_id"@][0] == "channel_id"@);
}

/// Where a download is from is told by what names its page, its extractor or its site; a name that
/// holds that of a known platform is shown as that platform.
pub proof fn platforms_are_recognized(raw: Seq<char>)
    ensures
        ({
            let l = lowercase(trim(raw));
            &&& has(l, "youtube"@) ==> platform_called(raw) == "YouTube"@
            &&& !(has(l, "youtube"@)) && has(l, "instagram"@) ==> platform_called(raw)
                == "Instagram"@
            &&& !(has(l, "youtube"@)) && !(has(l, "instagram"@)) && has(l, "tiktok"@)
                ==> platform_called(raw) == "TikTok"@
            &&& !(has(l, "youtube"@)) && !(has(l, "instagram"@)) && !(has(l, "tiktok"@)) && (has(
                l,
                "bluesky"@,
            ) || has(l, "bsky"@)) ==> platform_called(raw) == "Bluesky"@
            &&& l == "twitter"@ || l == "x"@ || l == "x.com"@ || l == "twitter:card"@
                ==> known_platform(l) is Some
            &&& !(has(l, "youtube"@)) && !(has(l, "instagram"@)) && !(has(l, "tiktok"@)) && !(has(
                l,
                "bluesky"@,
            )) && !(has(l, "bsky"@)) && (has(l, "twitter"@) || l == "x"@ || has(l, "x.com"@))
                ==> platform_called(raw) == "X"@
        }),
{
    let l = lowercase(trim(raw));
    if l == "twitter"@ {
        lemma_holds_itself(l, Seq::empty());
    }
    if l == "x.com"@ {
        lemma_holds_itself(l, Seq::empty());
    }
    if l == "twitter:card"@ {
        reveal_strlit("twitter:card");
        reveal_strlit("twitter");
        assert(l == "twitter"@ + l.skip(7));
        lemma_holds_itself("twitter"@, l.skip(7));
    }
}

proof fn lemma_holds_itself(p: Seq<char>, more: Seq<char>)
    ensures
        has(p + more, p),
        has(p, p),
{
    let none = Seq::<char>::empty();
    crate::laws::texts::holding_is_standing_somewhere(p + more, p);
    assert(p + more == none + p + more);
    crate::laws::texts::holding_is_standing_somewhere(p, p);
    assert(p == none + p + none);
}

/// The platform of a download is read of its extractor's key, or else of its extractor, or else of
/// the site; a download that names none has one that is not known.
pub proof fn platforms_are_read(info: JsonTree, t: Seq<char>)
    requires
        tight(t),
        t.len() > 0,
    ensures
        info.text_at("extractor_key"@) == Some(t) ==> delivery_metadata(info).platform_name
            == platform_called(t),
        info.text_at("extractor_key"@) is None && info.text_at("extractor"@) == Some(t)
            ==> delivery_metadata(info).platform_name == platform_called(t),
        info.text_at("extractor_key"@) is None && info.text_at("extractor"@) is None && info.text_at(
            "webpage_url_domain"@,
        ) == Some(t) ==> delivery_metadata(info).platform_name == platform_called(t),
        info.text_at("extractor_key"@) is None && info.text_at("extractor"@) is None && info.text_at(
            "webpage_url_domain"@,
        ) is None ==> delivery_metadata(info).platform_name == "Unknown"@,
        info.text_at("webpage_url_domain"@) == Some(t) ==> (from_youtube(info) <==> has(
            lowercase(t),
            "youtube"@,
        )),
{
    tight_texts_stay(t);
    reveal_with_fuel(first_text, 4);
    let keys = crate::metadata::platform_keys();
    assert(keys[0] == "extractor_key"@ && keys[1] == "extractor"@ && keys[2]
        == "webpage_url_domain"@);
    assert(crate::metadata::source_keys()[0] == "webpage_url_domain"@);
}

/// The notes are the document that their text is; without a text, or with one that is no document,
/// there are none.
pub proof fn notes_are_documents(text: Seq<char>, document: JsonTree)
    ensures
        json_document(text) == Some(document) ==> info_document(Some(text)) == document,
        json_document(text) is None ==> info_document(Some(text)) is Null,
        info_document(None) is Null,
{
}

/// The capital of a small letter is the letter whose small one it is; what is no small letter stays.
pub proof fn capitals_belong_to_letters(c: char)
    ensures
        'a' <= c <= 'z' ==> 'A' <= capital(c) <= 'Z' && lower(capital(c)) == c,
        !('a' <= c <= 'z') ==> capital(c) == c,
{
}

/// A platform of one word is called by it; only one without a word is unknown.
pub proof fn named_platforms_are_not_unknown(word: Seq<char>)
    ensures
        word.len() > 0 ==> words_or_unknown(seq![word]) == word,
        words_or_unknown(Seq::empty()) == "Unknown"@,
        words_or_unknown(seq![Seq::<char>::empty()]) == "Unknown"@,
{
    reveal_with_fuel(join, 2);
    assert(join(seq![word], " "@) == word);
    assert(join(seq![Seq::<char>::empty()], " "@).len() == 0);
}

} // verus!
