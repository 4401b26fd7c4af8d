//! Read-only interpretation of Cursor's local stores and the rules that decide
//! what a cleanup may touch.

use vstd::prelude::*;
use crate::config::Config;
use crate::domain::{SchemaProbe, SchemaState};
use crate::error::AppError;
use crate::json::JsonValue;
use crate::text::{
    chars_eq_ignore_ascii_case, chars_ends_with, chars_equal, chars_of, chars_starts_with,
    concat_chars, ends_with, eq_ignore_ascii_case, is_white_space, prefix_chars, remove_chars,
    replace_char, replace_chars, skip_chars, starts_with, string_from_chars, take_chars,
    trim_by, trim_white_space, utf8_to_string, without_char, ascii_lower_text, chars_contain,
    contains_text, int_decimal, int_text, join_strings, joined, strings_equal, strings_of,
    to_ascii_lower,
};

verus! {

/// Characters allowed in a conversation identifier.
pub open spec fn is_id_char(c: char) -> bool {
    ('0' <= c <= '9') || ('a' <= c <= 'z') || ('A' <= c <= 'Z') || c == '.' || c == '_' || c == '-'
}

/// A conversation identifier: 1 to 160 ASCII letters, digits, `.`, `_` or `-`.
pub open spec fn valid_id_text(id: Seq<char>) -> bool {
    0 < id.len() <= 160 && forall|i: int| 0 <= i < id.len() ==> is_id_char(#[trigger] id[i])
}

/// Whether `id` is a well-formed conversation identifier.
pub fn valid_id(id: &str) -> (r: bool)
    ensures
        r == valid_id_text(id@),
{
    let cs = chars_of(id);
    if cs.len() == 0 || cs.len() > 160 {
        return false;
    }
    let mut i: usize = 0;
    while i < cs.len()
        invariant
            i <= cs@.len(),
            cs@ == id@,
            forall|k: int| 0 <= k < i ==> is_id_char(#[trigger] cs@[k]),
        decreases cs@.len() - i,
    {
        let c = cs[i];
        if !(('0' <= c && c <= '9') || ('a' <= c && c <= 'z') || ('A' <= c && c <= 'Z') || c == '.'
            || c == '_' || c == '-') {
            assert(!is_id_char(id@[i as int]));
            return false;
        }
        i = i + 1;
    }
    true
}

/// A `cursorDiskKV` key that belongs to conversation `id`.
pub open spec fn cursor_key_of(key: Seq<char>, id: Seq<char>) -> bool {
    ||| key == "composerData:"@ + id
    ||| key == "composerVirtualRowHeights:"@ + id
    ||| starts_with(key, "bubbleId:"@ + id + ":"@)
    ||| starts_with(key, "checkpointId:"@ + id + ":"@)
    ||| starts_with(key, "codeBlockPartialInlineDiffFates:"@ + id + ":"@)
    ||| starts_with(key, "ofsContent:"@ + id + ":"@)
}

/// An `ItemTable` key that belongs to conversation `id`.
pub open spec fn item_key_of(key: Seq<char>, id: Seq<char>) -> bool {
    ||| key == "glass/cursor.editorPanelVisibility.agent/"@ + id
    ||| key == "cursor/glass.editorPanelFullscreen/"@ + id
    ||| (starts_with(key, "cursor/glass.tabs.v2/"@) && ends_with(key, "/"@ + id + "/state.json"@))
}

/// `key` equals `prefix` followed by `id`.
fn is_prefixed(key: &[char], prefix: &str, id: &[char]) -> (r: bool)
    ensures
        r == (key@ == prefix@ + id@),
{
    let p = chars_of(prefix);
    let whole = concat_chars(p.as_slice(), id);
    chars_equal(key, whole.as_slice())
}

/// `key` starts with `prefix`, `id` and `suffix`.
fn starts_with_parts(key: &[char], prefix: &str, id: &[char], suffix: &str) -> (r: bool)
    ensures
        r == starts_with(key@, prefix@ + id@ + suffix@),
{
    let p = chars_of(prefix);
    let s = chars_of(suffix);
    let a = concat_chars(p.as_slice(), id);
    let whole = concat_chars(a.as_slice(), s.as_slice());
    chars_starts_with(key, whole.as_slice())
}

/// Whether `key` of `cursorDiskKV` belongs to one conversation of `ids`.
pub fn known_cursor_key(key: &str, ids: &[String]) -> (r: bool)
    ensures
        r == exists|i: int| 0 <= i < ids@.len() && cursor_key_of(key@, #[trigger] ids@[i]@),
{
    let k = chars_of(key);
    let mut i: usize = 0;
    while i < ids.len()
        invariant
            i <= ids@.len(),
            k@ == key@,
            forall|j: int| 0 <= j < i ==> !cursor_key_of(key@, #[trigger] ids@[j]@),
        decreases ids@.len() - i,
    {
        let id = chars_of(ids[i].as_str());
        let ks = k.as_slice();
        let ids_ = id.as_slice();
        if is_prefixed(ks, "composerData:", ids_) || is_prefixed(ks, "composerVirtualRowHeights:", ids_)
            || starts_with_parts(ks, "bubbleId:", ids_, ":")
            || starts_with_parts(ks, "checkpointId:", ids_, ":")
            || starts_with_parts(ks, "codeBlockPartialInlineDiffFates:", ids_, ":")
            || starts_with_parts(ks, "ofsContent:", ids_, ":") {
            assert(cursor_key_of(key@, ids@[i as int]@));
            return true;
        }
        i = i + 1;
    }
    false
}

/// Whether `key` of `ItemTable` belongs to one conversation of `ids`.
pub fn known_item_key(key: &str, ids: &[String]) -> (r: bool)
    ensures
        r == exists|i: int| 0 <= i < ids@.len() && item_key_of(key@, #[trigger] ids@[i]@),
{
    let k = chars_of(key);
    let tabs = chars_of("cursor/glass.tabs.v2/");
    let mut i: usize = 0;
    while i < ids.len()
        invariant
            i <= ids@.len(),
            k@ == key@,
            tabs@ == "cursor/glass.tabs.v2/"@,
            forall|j: int| 0 <= j < i ==> !item_key_of(key@, #[trigger] ids@[j]@),
        decreases ids@.len() - i,
    {
        let id = chars_of(ids[i].as_str());
        let ks = k.as_slice();
        let ids_ = id.as_slice();
        let slash = chars_of("/");
        let state = chars_of("/state.json");
        let a = concat_chars(slash.as_slice(), ids_);
        let tail = concat_chars(a.as_slice(), state.as_slice());
        if is_prefixed(ks, "glass/cursor.editorPanelVisibility.agent/", ids_)
            || is_prefixed(ks, "cursor/glass.editorPanelFullscreen/", ids_)
            || (chars_starts_with(ks, tabs.as_slice()) && chars_ends_with(ks, tail.as_slice())) {
            assert(item_key_of(key@, ids@[i as int]@));
            return true;
        }
        i = i + 1;
    }
    false
}

/// The value of an ASCII hexadecimal digit.
pub open spec fn hex_value(b: u8) -> Option<nat> {
    if 48 <= b <= 57 {
        Some((b - 48) as nat)
    } else if 97 <= b <= 102 {
        Some((b - 87) as nat)
    } else if 65 <= b <= 70 {
        Some((b - 55) as nat)
    } else {
        None
    }
}

/// The byte that a two-byte escape stands for, read as `u8::from_str_radix`
/// reads it in base 16: two hex digits, or `+` and one hex digit.
pub open spec fn escape_value(a: u8, b: u8) -> Option<u8> {
    match (hex_value(a), hex_value(b)) {
        (Some(x), Some(y)) => Some((16 * x + y) as u8),
        (None, Some(y)) => if a == 43 { Some(y as u8) } else { None },
        _ => None,
    }
}

/// The bytes of `s` with each `%` escape decoded; `None` when an escape is
/// cut short or malformed.
pub open spec fn unescape(s: Seq<u8>) -> Option<Seq<u8>>
    decreases s.len(),
{
    if s.len() == 0 {
        Some(Seq::<u8>::empty())
    } else if s[0] == 37 {
        if s.len() < 3 {
            None
        } else {
            match escape_value(s[1], s[2]) {
                Some(v) => match unescape(s.skip(3)) {
                    Some(rest) => Some(seq![v] + rest),
                    None => None,
                },
                None => None,
            }
        }
    } else {
        match unescape(s.skip(1)) {
            Some(rest) => Some(seq![s[0]] + rest),
            None => None,
        }
    }
}

/// The text of a percent-encoded string: escapes decoded, then read as UTF-8.
pub open spec fn percent_decoded(value: Seq<char>) -> Option<Seq<char>> {
    match unescape(vstd::utf8::encode_utf8(value)) {
        Some(b) => if vstd::utf8::valid_utf8(b) { Some(vstd::utf8::decode_utf8(b)) } else { None },
        None => None,
    }
}

pub open spec fn prepend_bytes(front: Seq<u8>, rest: Option<Seq<u8>>) -> Option<Seq<u8>> {
    match rest {
        Some(r) => Some(front + r),
        None => None,
    }
}

fn hex_digit(b: u8) -> (r: Option<u8>)
    ensures
        match r {
            Some(v) => hex_value(b) == Some(v as nat),
            None => hex_value(b) is None,
        },
{
    if 48 <= b && b <= 57 {
        Some(b - 48)
    } else if 97 <= b && b <= 102 {
        Some(b - 87)
    } else if 65 <= b && b <= 70 {
        Some(b - 55)
    } else {
        None
    }
}

fn escape_byte(a: u8, b: u8) -> (r: Option<u8>)
    ensures
        r == escape_value(a, b),
{
    match (hex_digit(a), hex_digit(b)) {
        (Some(x), Some(y)) => Some(16 * x + y),
        (None, Some(y)) => if a == 43 { Some(y) } else { None },
        _ => None,
    }
}

/// Decodes `%XX` escapes, then UTF-8.
pub fn percent_decode(value: &str) -> (r: Option<String>)
    ensures
        match r {
            Some(s) => percent_decoded(value@) == Some(s@),
            None => percent_decoded(value@) is None,
        },
{
    let bytes = value.as_bytes();
    let ghost all = bytes@;
    let mut out: Vec<u8> = Vec::new();
    let mut i: usize = 0;
    assert(all.skip(0) =~= all);
    while i < bytes.len()
        invariant
            i <= all.len(),
            all == bytes@,
            all == vstd::utf8::encode_utf8(value@),
            unescape(all) == prepend_bytes(out@, unescape(all.skip(i as int))),
        decreases all.len() - i,
    {
        let ghost t = all.skip(i as int);
        if bytes[i] == 37 {
            if bytes.len() - i < 3 {
                assert(t[0] == 37 && t.len() < 3);
                assert(unescape(t) is None);
                return None;
            }
            match escape_byte(bytes[i + 1], bytes[i + 2]) {
                Some(v) => {
                    assert(t.skip(3) =~= all.skip(i + 3));
                    assert(t[1] == bytes@[i + 1] && t[2] == bytes@[i + 2]);
                    let ghost before = out@;
                    out.push(v);
                    assert(before + (seq![v] + unescape(t.skip(3))->0) =~= out@ + unescape(t.skip(3))->0
                        || unescape(t.skip(3)) is None);
                    i = i + 3;
                },
                None => {
                    assert(t[0] == 37 && t[1] == bytes@[i + 1] && t[2] == bytes@[i + 2]);
                    assert(unescape(t) is None);
                    return None;
                },
            }
        } else {
            assert(t.skip(1) =~= all.skip(i + 1));
            let ghost before = out@;
            out.push(bytes[i]);
            assert(before + (seq![t[0]] + unescape(t.skip(1))->0) =~= out@ + unescape(t.skip(1))->0
                || unescape(t.skip(1)) is None);
            i = i + 1;
        }
    }
    assert(all.skip(i as int) =~= Seq::<u8>::empty());
    assert(unescape(Seq::<u8>::empty()) == Some(Seq::<u8>::empty()));
    assert(out@ + Seq::<u8>::empty() =~= out@);
    utf8_to_string(out)
}


/// An ASCII letter.
pub open spec fn is_ascii_alpha(c: char) -> bool {
    ('a' <= c <= 'z') || ('A' <= c <= 'Z')
}

/// The local path named by a `file://` URI. With Windows rules, `/C:/x`
/// becomes `C:\x`, a host form `server/share` becomes `\\server\share`,
/// anything else is refused; with the other rules the decoded path must be
/// absolute, that is start with `/`.
pub open spec fn file_uri_local_path(value: Seq<char>, windows: bool) -> Option<Seq<char>> {
    if !starts_with(value, "file://"@) {
        None
    } else {
        match percent_decoded(value.skip(7)) {
            None => None,
            Some(decoded) => if windows {
                if decoded.len() > 0 && decoded[0] == '/' {
                    let path = decoded.skip(1);
                    if path.len() >= 2 && path[1] == ':' && is_ascii_alpha(path[0]) {
                        Some(replace_char(path, '/', '\\'))
                    } else {
                        None
                    }
                } else if decoded.len() > 0 {
                    Some("\\\\"@ + replace_char(decoded, '/', '\\'))
                } else {
                    None
                }
            } else if decoded.len() > 0 && decoded[0] == '/' {
                Some(decoded)
            } else {
                None
            },
        }
    }
}

/// Reads a `file://` URI as a local path (see `file_uri_local_path`).
pub fn file_uri_path_for(value: &str, windows: bool) -> (r: Option<String>)
    ensures
        match r {
            Some(p) => file_uri_local_path(value@, windows) == Some(p@),
            None => file_uri_local_path(value@, windows) is None,
        },
{
    let v = chars_of(value);
    let scheme = chars_of("file://");
    proof {
        reveal_strlit("file://");
    }
    if !chars_starts_with(v.as_slice(), scheme.as_slice()) {
        return None;
    }
    let raw = string_from_chars(skip_chars(v.as_slice(), 7).as_slice());
    let decoded = match percent_decode(raw.as_str()) {
        Some(d) => d,
        None => {
            return None;
        },
    };
    let d = chars_of(decoded.as_str());
    if windows {
        if d.len() > 0 && d[0] == '/' {
            let path = skip_chars(d.as_slice(), 1);
            if path.len() >= 2 && path[1] == ':' && (('a' <= path[0] && path[0] <= 'z') || ('A'
                <= path[0] && path[0] <= 'Z')) {
                Some(string_from_chars(replace_chars(path.as_slice(), '/', '\\').as_slice()))
            } else {
                None
            }
        } else if d.len() > 0 {
            let mut s = String::from_str("\\\\");
            let rest = string_from_chars(replace_chars(d.as_slice(), '/', '\\').as_slice());
            s.append(rest.as_str());
            Some(s)
        } else {
            None
        }
    } else if d.len() > 0 && d[0] == '/' {
        Some(decoded)
    } else {
        None
    }
}

/// Path separators.
pub open spec fn is_path_sep(c: char) -> bool {
    c == '/' || c == '\\'
}

/// The transcript project name that Cursor derives from a workspace path:
/// separators at both ends dropped, inner ones turned into `-`.
pub open spec fn project_slug(path: Seq<char>) -> Seq<char> {
    replace_char(replace_char(trim_by(path, |c: char| is_path_sep(c)), '/', '-'), '\\', '-')
}

/// The slugs accepted for a path: the slug itself, without `:`, and with `:` as `-`.
pub open spec fn slug_candidates(path: Seq<char>) -> Seq<Seq<char>> {
    let base = project_slug(path);
    seq![base, without_char(base, ':'), replace_char(base, ':', '-')]
}

/// Whether the transcript project `project_id` was derived from `path`.
pub open spec fn slug_matches(path: Seq<char>, project_id: Seq<char>, case_insensitive: bool) -> bool {
    exists|i: int| 0 <= i < 3 && if case_insensitive {
        eq_ignore_ascii_case(#[trigger] slug_candidates(path)[i], project_id)
    } else {
        slug_candidates(path)[i] == project_id
    }
}

/// `s` without separators at either end.
fn trim_separators(s: &[char]) -> (r: Vec<char>)
    ensures
        r@ == trim_by(s@, |c: char| is_path_sep(c)),
{
    let ghost pred = |c: char| is_path_sep(c);
    let mut i: usize = 0;
    while i < s.len() && (s[i] == '/' || s[i] == '\\')
        invariant
            i <= s@.len(),
            pred == (|c: char| is_path_sep(c)),
            forall|k: int| 0 <= k < i ==> is_path_sep(s@[k]),
        decreases s@.len() - i,
    {
        i = i + 1;
    }
    proof {
        crate::text::lemma_leading_count(s@, pred, i as int);
        if i < s@.len() {
            assert(!pred(s@.skip(i as int)[0]));
        }
        assert(crate::text::leading_count(s@.skip(i as int), pred) == 0);
    }
    let ghost t = s@.skip(i as int);
    let mut j: usize = s.len();
    while j > i && (s[j - 1] == '/' || s[j - 1] == '\\')
        invariant
            i <= j <= s@.len(),
            t == s@.skip(i as int),
            pred == (|c: char| is_path_sep(c)),
            forall|k: int| j <= k < s@.len() ==> is_path_sep(s@[k]),
        decreases j,
    {
        j = j - 1;
    }
    proof {
        crate::text::lemma_trailing_count(t, pred, j - i);
        if j > i {
            assert(t.take(j - i).last() == s@[j - 1]);
        }
        assert(crate::text::trailing_count(t.take(j - i), pred) == 0);
    }
    let mut r: Vec<char> = Vec::new();
    let mut k: usize = i;
    while k < j
        invariant
            i <= k <= j <= s@.len(),
            r@ =~= s@.subrange(i as int, k as int),
        decreases j - k,
    {
        r.push(s[k]);
        k = k + 1;
    }
    assert(r@ =~= t.take(t.len() - crate::text::trailing_count(t, pred)));
    r
}

/// Whether a transcript project name belongs to a workspace path.
pub fn project_slug_matches_for(path: &str, project_id: &str, case_insensitive: bool) -> (r: bool)
    ensures
        r == slug_matches(path@, project_id@, case_insensitive),
{
    let p = chars_of(path);
    let id = chars_of(project_id);
    let trimmed = trim_separators(p.as_slice());
    let slashes = replace_chars(trimmed.as_slice(), '/', '-');
    let base = replace_chars(slashes.as_slice(), '\\', '-');
    let plain = remove_chars(base.as_slice(), ':');
    let dashed = replace_chars(base.as_slice(), ':', '-');
    let ghost cands = slug_candidates(path@);
    assert(cands[0] == base@ && cands[1] == plain@ && cands[2] == dashed@);
    let r = if case_insensitive {
        chars_eq_ignore_ascii_case(base.as_slice(), id.as_slice())
            || chars_eq_ignore_ascii_case(plain.as_slice(), id.as_slice())
            || chars_eq_ignore_ascii_case(dashed.as_slice(), id.as_slice())
    } else {
        chars_equal(base.as_slice(), id.as_slice()) || chars_equal(plain.as_slice(), id.as_slice())
            || chars_equal(dashed.as_slice(), id.as_slice())
    };
    assert(r ==> slug_matches(path@, project_id@, case_insensitive));
    assert(slug_matches(path@, project_id@, case_insensitive) ==> r) by {
        if slug_matches(path@, project_id@, case_insensitive) {
            let i = choose|i: int| 0 <= i < 3 && if case_insensitive {
                eq_ignore_ascii_case(#[trigger] slug_candidates(path@)[i], project_id@)
            } else {
                slug_candidates(path@)[i] == project_id@
            };
            assert(i == 0 || i == 1 || i == 2);
        }
    }
    r
}

/// At most the first 200 characters of a diagnostic.
pub fn redact_detail(value: &str) -> (r: String)
    ensures
        r@ == prefix_chars(value@, 200),
{
    let v = chars_of(value);
    string_from_chars(take_chars(v.as_slice(), 200).as_slice())
}

/// The raw title of a conversation payload: the first of `title`, `name` and
/// `composerTitle` that holds a string.
pub open spec fn raw_title(value: JsonValue) -> Option<Seq<char>> {
    if value.field_text("title"@) is Some {
        value.field_text("title"@)
    } else if value.field_text("name"@) is Some {
        value.field_text("name"@)
    } else {
        value.field_text("composerTitle"@)
    }
}

/// The title shown for a payload: the raw title trimmed of white space, cut
/// to 200 characters, absent when empty.
pub open spec fn title_of(value: JsonValue) -> Option<Seq<char>> {
    match raw_title(value) {
        Some(t) => {
            let trimmed = trim_by(t, |c: char| is_white_space(c));
            if trimmed.len() == 0 { None } else { Some(prefix_chars(trimmed, 200)) }
        },
        None => None,
    }
}

/// `t` trimmed of white space and cut to 200 characters, absent when nothing
/// but white space.
pub open spec fn shown_title(t: Seq<char>) -> Option<Seq<char>> {
    let trimmed = trim_by(t, |c: char| is_white_space(c));
    if trimmed.len() == 0 { None } else { Some(prefix_chars(trimmed, 200)) }
}

/// A payload's title comes from the first of its `title`, `name` and
/// `composerTitle` members that holds text: a payload with a `title` text
/// shows it; one without shows its `name` text; one with neither shows its
/// `composerTitle` text; one with none of the three has no title. Other
/// members never make a title.
pub proof fn law_title_sources(v: JsonValue)
    ensures
        v.field_text("title"@) is Some ==> title_of(v) == shown_title(v.field_text("title"@)->0),
        v.field_text("title"@) is None && v.field_text("name"@) is Some ==> title_of(v) == shown_title(
            v.field_text("name"@)->0,
        ),
        v.field_text("title"@) is None && v.field_text("name"@) is None && v.field_text("composerTitle"@) is Some
            ==> title_of(v) == shown_title(v.field_text("composerTitle"@)->0),
        v.field_text("title"@) is None && v.field_text("name"@) is None && v.field_text("composerTitle"@) is None
            ==> title_of(v) is None,
{
}

/// The title of a conversation payload (see `title_of`).
pub fn conversation_title(value: &JsonValue) -> (r: Option<String>)
    ensures
        match r {
            Some(t) => title_of(*value) == Some(t@),
            None => title_of(*value) is None,
        },
{
    let raw = match value.get_text("title") {
        Some(t) => t,
        None => match value.get_text("name") {
            Some(t) => t,
            None => match value.get_text("composerTitle") {
                Some(t) => t,
                None => {
                    return None;
                },
            },
        },
    };
    let cs = chars_of(raw.as_str());
    let trimmed = trim_white_space(cs.as_slice());
    if trimmed.len() == 0 {
        return None;
    }
    Some(string_from_chars(take_chars(trimmed.as_slice(), 200).as_slice()))
}


/// Access to Cursor's local stores under a configuration.
pub struct CursorStore {
    pub config: Config,
}

/// Columns of the key-value tables.
pub open spec fn kv_columns() -> Seq<Seq<char>> {
    seq!["key"@, "value"@]
}

/// Columns of `composerHeaders`.
pub open spec fn header_columns() -> Seq<Seq<char>> {
    seq!["composerId"@, "workspaceId"@, "createdAt"@, "lastUpdatedAt"@, "isArchived"@, "isSubagent"@,
        "recency"@, "checkpointAt"@, "value"@]
}

/// Columns of `conversations` in the search database.
pub open spec fn search_columns() -> Seq<Seq<char>> {
    seq!["fts_rowid"@, "source"@, "scope"@, "id"@, "title"@, "updated_at"@, "is_archived"@,
        "root_fingerprint"@, "cache_fingerprint"@]
}

/// Columns of `conversation_search_candidates`.
pub open spec fn candidate_columns() -> Seq<Seq<char>> {
    seq!["id"@, "updated_at"@]
}

/// What was read from `state.vscdb`: its `user_version` and the columns of
/// `ItemTable`, `cursorDiskKV` and `composerHeaders`.
pub struct StateFacts {
    pub version: i64,
    pub item_columns: Vec<String>,
    pub cursor_columns: Vec<String>,
    pub header_columns: Vec<String>,
}

/// What was read from `conversation-search.db`: its `user_version`, the
/// columns of `conversations` and `conversation_search_candidates`, and the
/// SQL that created `conversation_fts`.
pub struct SearchFacts {
    pub version: i64,
    pub conversation_columns: Vec<String>,
    pub candidate_columns: Vec<String>,
    pub fts_sql: Option<String>,
}

/// The problem reported for a table whose columns differ from the verified ones.
pub open spec fn column_problem(table: Seq<char>, expected: Seq<Seq<char>>, actual: Seq<Seq<char>>) -> Seq<Seq<char>> {
    if actual == expected {
        Seq::<Seq<char>>::empty()
    } else {
        seq![table + " 列结构不匹配：期望 "@ + joined(expected, ","@) + "，实际 "@ + joined(actual, ","@)]
    }
}

/// Problems found in `state.vscdb`.
pub open spec fn state_problems(f: StateFacts) -> Seq<Seq<char>> {
    (if f.version == 1 {
        Seq::<Seq<char>>::empty()
    } else {
        seq!["state.vscdb user_version="@ + int_decimal(f.version as int) + "，仅验证过 1"@]
    })
        + column_problem("ItemTable"@, kv_columns(), f.item_columns.deep_view())
        + column_problem("cursorDiskKV"@, kv_columns(), f.cursor_columns.deep_view())
        + column_problem("composerHeaders"@, header_columns(), f.header_columns.deep_view())
}

/// Whether the full-text table was created as an FTS5 table.
pub open spec fn fts5_table(sql: Option<String>) -> bool {
    sql matches Some(q) && contains_text(ascii_lower_text(q@), "fts5"@)
}

/// Problems found in `conversation-search.db`.
pub open spec fn search_problems(f: SearchFacts) -> Seq<Seq<char>> {
    (if f.version == 7 {
        Seq::<Seq<char>>::empty()
    } else {
        seq!["conversation-search.db user_version="@ + int_decimal(f.version as int) + "，仅验证过 7"@]
    })
        + column_problem("conversations"@, search_columns(), f.conversation_columns.deep_view())
        + column_problem("conversation_search_candidates"@, candidate_columns(), f.candidate_columns.deep_view())
        + (if fts5_table(f.fts_sql) { Seq::<Seq<char>>::empty() } else { seq!["conversation_fts 不是已验证的 FTS5 表"@] })
}

/// The diagnostic that announces the state-only layout.
pub open spec fn state_only_note() -> Seq<char> {
    "未发现 conversation-search.db；使用已验证的 state.vscdb 单库模式"@
}

/// The probe verdict. Without `state.vscdb` the stores are missing. Otherwise
/// they are supported exactly when no problem was found; the diagnostics list
/// the problems, preceded by a note when the search database is absent.
pub open spec fn probe_verdict(state_db: Seq<char>, state: Option<StateFacts>, search: Option<SearchFacts>)
    -> (SchemaState, Option<i64>, Option<i64>, Seq<Seq<char>>)
{
    match state {
        None => (SchemaState::Missing, None, None, seq!["缺少 state.vscdb："@ + state_db]),
        Some(st) => {
            let problems = state_problems(st) + match search {
                Some(se) => search_problems(se),
                None => Seq::<Seq<char>>::empty(),
            };
            let notes = match search {
                Some(_) => Seq::<Seq<char>>::empty(),
                None => seq![state_only_note()],
            };
            (
                if problems.len() == 0 { SchemaState::Supported } else { SchemaState::Unsupported },
                match search {
                    Some(se) => Some(se.version),
                    None => None,
                },
                Some(st.version),
                notes + problems,
            )
        },
    }
}

fn check_columns(table: &str, expected: &Vec<String>, actual: &Vec<String>, problems: &mut Vec<String>)
    ensures
        final(problems).deep_view() == old(problems).deep_view() + column_problem(table@,
            expected.deep_view(), actual.deep_view()),
{
    if strings_equal(actual, expected) {
        assert(old(problems).deep_view() + Seq::<Seq<char>>::empty() =~= old(problems).deep_view());
        return;
    }
    let mut m = String::from_str(table);
    m.append(" 列结构不匹配：期望 ");
    m.append(join_strings(expected, ",").as_str());
    m.append("，实际 ");
    m.append(join_strings(actual, ",").as_str());
    let ghost before = problems.deep_view();
    problems.push(m);
    assert(problems.deep_view() =~= before.push(m@));
}

fn version_problem(prefix: &str, version: i64, suffix: &str) -> (r: String)
    ensures
        r@ == prefix@ + int_decimal(version as int) + suffix@,
{
    let mut m = String::from_str(prefix);
    m.append(int_text(version).as_str());
    m.append(suffix);
    m
}

fn push_string(v: &mut Vec<String>, s: String)
    ensures
        final(v).deep_view() == old(v).deep_view().push(s@),
{
    let ghost before = v.deep_view();
    v.push(s);
    assert(v.deep_view() =~= before.push(s@));
}

fn state_problem_list(st: &StateFacts) -> (r: Vec<String>)
    ensures
        r.deep_view() == state_problems(*st),
{
    let kv = strings_of(&["key", "value"]);
    let headers = strings_of(&["composerId", "workspaceId", "createdAt", "lastUpdatedAt",
        "isArchived", "isSubagent", "recency", "checkpointAt", "value"]);
    assert(kv.deep_view() =~= kv_columns());
    assert(headers.deep_view() =~= header_columns());
    let mut problems: Vec<String> = Vec::new();
    if st.version != 1 {
        push_string(&mut problems, version_problem("state.vscdb user_version=", st.version, "，仅验证过 1"));
    }
    check_columns("ItemTable", &kv, &st.item_columns, &mut problems);
    check_columns("cursorDiskKV", &kv, &st.cursor_columns, &mut problems);
    check_columns("composerHeaders", &headers, &st.header_columns, &mut problems);
    assert(problems.deep_view() =~= state_problems(*st));
    problems
}

fn search_problem_list(se: &SearchFacts) -> (r: Vec<String>)
    ensures
        r.deep_view() == search_problems(*se),
{
    let cols = strings_of(&["fts_rowid", "source", "scope", "id", "title", "updated_at",
        "is_archived", "root_fingerprint", "cache_fingerprint"]);
    let cand = strings_of(&["id", "updated_at"]);
    assert(cols.deep_view() =~= search_columns());
    assert(cand.deep_view() =~= candidate_columns());
    let mut problems: Vec<String> = Vec::new();
    if se.version != 7 {
        push_string(&mut problems, version_problem("conversation-search.db user_version=", se.version, "，仅验证过 7"));
    }
    check_columns("conversations", &cols, &se.conversation_columns, &mut problems);
    check_columns("conversation_search_candidates", &cand, &se.candidate_columns, &mut problems);
    let fts = match &se.fts_sql {
        Some(sql) => {
            let lower = to_ascii_lower(chars_of(sql.as_str()).as_slice());
            let needle = chars_of("fts5");
            chars_contain(lower.as_slice(), needle.as_slice())
        },
        None => false,
    };
    if !fts {
        push_string(&mut problems, String::from_str("conversation_fts 不是已验证的 FTS5 表"));
    }
    assert(problems.deep_view() =~= search_problems(*se));
    problems
}

impl CursorStore {
    pub fn new(config: Config) -> (r: CursorStore)
        ensures
            r.config == config,
    {
        CursorStore { config }
    }

    /// Interprets what was read from the stores (see `probe_verdict`).
    pub fn probe(&self, state: Option<StateFacts>, search: Option<SearchFacts>) -> (r: SchemaProbe)
        ensures
            (r.state, r.search_version, r.state_version, r.diagnostics.deep_view())
                == probe_verdict(self.config.state_db@, state, search),
    {
        match state {
            None => {
                let mut d: Vec<String> = Vec::new();
                let mut m = String::from_str("缺少 state.vscdb：");
                m.append(self.config.state_db.as_str());
                push_string(&mut d, m);
                assert(d.deep_view() =~= seq!["缺少 state.vscdb："@ + self.config.state_db@]);
                SchemaProbe { state: SchemaState::Missing, search_version: None, state_version: None, diagnostics: d }
            },
            Some(st) => {
                let mut problems = state_problem_list(&st);
                let mut diagnostics: Vec<String> = Vec::new();
                let search_version = match &search {
                    Some(se) => {
                        let more = search_problem_list(se);
                        let ghost before = problems.deep_view();
                        let mut k: usize = 0;
                        while k < more.len()
                            invariant
                                k <= more@.len(),
                                problems.deep_view() =~= before + more.deep_view().take(k as int),
                            decreases more@.len() - k,
                        {
                            push_string(&mut problems, more[k].clone());
                            k = k + 1;
                        }
                        assert(more.deep_view().take(k as int) =~= more.deep_view());
                        Some(se.version)
                    },
                    None => {
                        push_string(&mut diagnostics, String::from_str(
                            "未发现 conversation-search.db；使用已验证的 state.vscdb 单库模式"));
                        None
                    },
                };
                let supported = problems.len() == 0;
                let ghost notes = diagnostics.deep_view();
                let mut k: usize = 0;
                while k < problems.len()
                    invariant
                        k <= problems@.len(),
                        diagnostics.deep_view() =~= notes + problems.deep_view().take(k as int),
                    decreases problems@.len() - k,
                {
                    push_string(&mut diagnostics, problems[k].clone());
                    k = k + 1;
                }
                assert(problems.deep_view().take(k as int) =~= problems.deep_view());
                assert(problems.deep_view().len() == problems@.len());
                SchemaProbe {
                    state: if supported { SchemaState::Supported } else { SchemaState::Unsupported },
                    search_version,
                    state_version: Some(st.version),
                    diagnostics,
                }
            },
        }
    }

    /// Refuses any write when the probe did not find the verified layout; the
    /// error lists the diagnostics.
    pub fn require_supported(probe: SchemaProbe) -> (r: Result<SchemaProbe, AppError>)
        ensures
            match r {
                Ok(p) => p == probe && probe.state == SchemaState::Supported,
                Err(e) => probe.state != SchemaState::Supported && (e matches AppError::UnsupportedSchema(m)
                    && m@ == joined(probe.diagnostics.deep_view(), "；"@)),
            },
    {
        if !probe.supported() {
            return Err(AppError::UnsupportedSchema(join_strings(&probe.diagnostics, "；")));
        }
        Ok(probe)
    }

    /// Judges the `PRAGMA quick_check` results of `state.vscdb` and, when it
    /// exists, of `conversation-search.db`: anything but `ok` fails, with at
    /// most 200 characters of the result.
    pub fn integrity_check(state_result: &str, search_result: Option<&str>) -> (r: Result<(), AppError>)
        ensures
            match r {
                Ok(()) => state_result@ == "ok"@ && (search_result matches Some(s) ==> s@ == "ok"@),
                Err(e) => if state_result@ != "ok"@ {
                    e matches AppError::Preflight(m) && m@ == "state.vscdb"@ + " 完整性检查失败："@
                        + prefix_chars(state_result@, 200)
                } else {
                    search_result matches Some(s) && s@ != "ok"@ && (e matches AppError::Preflight(m)
                        && m@ == "conversation-search.db"@ + " 完整性检查失败："@ + prefix_chars(s@, 200))
                },
            },
    {
        let ok = String::from_str("ok");
        let st = String::from_str(state_result);
        if st != ok {
            let mut m = String::from_str("state.vscdb");
            m.append(" 完整性检查失败：");
            m.append(redact_detail(state_result).as_str());
            return Err(AppError::Preflight(m));
        }
        match search_result {
            Some(s) => {
                let se = String::from_str(s);
                if se != ok {
                    let mut m = String::from_str("conversation-search.db");
                    m.append(" 完整性检查失败：");
                    m.append(redact_detail(s).as_str());
                    return Err(AppError::Preflight(m));
                }
                Ok(())
            },
            None => Ok(()),
        }
    }
}

} // verus!
