//! Which working directory a conversation belongs to, from the hints that
//! Cursor leaves in its payloads, its tab state and its transcript folders.

use vstd::prelude::*;
use crate::json::{json_document, parse_json, JsonValue};
use crate::platform::{absolute_path, is_absolute_path};
use crate::store::{file_uri_local_path, file_uri_path_for, project_slug_matches_for, slug_matches};
use crate::text::{chars_of, chars_starts_with, starts_with};

verus! {

/// A folder of Cursor's `workspaceStorage`: its directory name and the local
/// path of the folder it stands for.
#[derive(Clone, Debug)]
pub struct KnownWorkspace {
    pub id: String,
    pub path: String,
}

/// The path of the first known workspace named `id`.
pub open spec fn lookup(known: Seq<KnownWorkspace>, id: Seq<char>) -> Option<Seq<char>>
    decreases known.len(),
{
    if known.len() == 0 {
        None
    } else if known[0].id@ == id {
        Some(known[0].path@)
    } else {
        lookup(known.drop_first(), id)
    }
}

/// Looks up a workspace by directory name (see `lookup`).
pub fn find_known(known: &Vec<KnownWorkspace>, id: &str) -> (r: Option<String>)
    ensures
        match r {
            Some(p) => lookup(known@, id@) == Some(p@),
            None => lookup(known@, id@) is None,
        },
{
    let target = String::from_str(id);
    let mut i: usize = 0;
    assert(known@.skip(0) =~= known@);
    while i < known.len()
        invariant
            i <= known@.len(),
            target@ == id@,
            lookup(known@, id@) == lookup(known@.skip(i as int), id@),
        decreases known@.len() - i,
    {
        assert(known@.skip(i as int).drop_first() =~= known@.skip(i + 1));
        assert(known@.skip(i as int)[0] == known@[i as int]);
        if known[i].id == target {
            return Some(known[i].path.clone());
        }
        i = i + 1;
    }
    None
}

/// The one value that all present candidates share, when at least one is
/// present and they do not differ; `None` otherwise.
pub open spec fn sole_value(vals: Seq<Option<Seq<char>>>) -> Option<Seq<char>> {
    if exists|i: int|
        0 <= i < vals.len() && #[trigger] vals[i] is Some && forall|j: int|
            0 <= j < vals.len() && #[trigger] vals[j] is Some ==> vals[j] == vals[i] {
        vals[choose|i: int|
            0 <= i < vals.len() && #[trigger] vals[i] is Some && forall|j: int|
                0 <= j < vals.len() && #[trigger] vals[j] is Some ==> vals[j] == vals[i]]
    } else {
        None
    }
}

/// The views of optional strings.
pub open spec fn option_views(v: Seq<Option<String>>) -> Seq<Option<Seq<char>>> {
    v.map_values(|o: Option<String>| match o {
        Some(s) => Some(s@),
        None => None,
    })
}

/// The one distinct candidate, when there is exactly one (see `sole_value`).
pub fn sole_candidate(cands: &Vec<Option<String>>) -> (r: Option<String>)
    ensures
        match r {
            Some(p) => sole_value(option_views(cands@)) == Some(p@),
            None => sole_value(option_views(cands@)) is None,
        },
{
    let ghost vals = option_views(cands@);
    let mut found: Option<String> = None;
    let ghost mut at: int = -1;
    let mut i: usize = 0;
    while i < cands.len()
        invariant
            i <= cands@.len(),
            vals == option_views(cands@),
            vals.len() == cands@.len(),
            found is None ==> forall|j: int| 0 <= j < i ==> #[trigger] vals[j] is None,
            found is Some ==> 0 <= at < i && vals[at] == Some(found->0@) && forall|j: int|
                0 <= j < i && #[trigger] vals[j] is Some ==> vals[j] == vals[at],
        decreases cands@.len() - i,
    {
        assert(vals[i as int] == match cands@[i as int] {
            Some(s) => Some(s@),
            None => None,
        });
        match &cands[i] {
            Some(p) => {
                match &found {
                    None => {
                        found = Some(p.clone());
                        proof {
                            at = i as int;
                        }
                    },
                    Some(f) => {
                        if *f != *p {
                            assert(vals[at] != vals[i as int]);
                            assert(!(exists|k: int|
                                0 <= k < vals.len() && #[trigger] vals[k] is Some && forall|j: int|
                                    0 <= j < vals.len() && #[trigger] vals[j] is Some ==> vals[j]
                                        == vals[k])) by {
                                if exists|k: int|
                                    0 <= k < vals.len() && #[trigger] vals[k] is Some && forall|j: int|
                                        0 <= j < vals.len() && #[trigger] vals[j] is Some ==> vals[j]
                                            == vals[k] {
                                    let k = choose|k: int|
                                        0 <= k < vals.len() && #[trigger] vals[k] is Some && forall|j: int|
                                            0 <= j < vals.len() && #[trigger] vals[j] is Some ==> vals[j]
                                                == vals[k];
                                    assert(vals[at] == vals[k]);
                                    assert(vals[i as int] == vals[k]);
                                }
                            }
                            return None;
                        }
                    },
                }
            },
            None => {},
        }
        i = i + 1;
    }
    match &found {
        None => {
            assert(!(exists|k: int|
                0 <= k < vals.len() && #[trigger] vals[k] is Some && forall|j: int|
                    0 <= j < vals.len() && #[trigger] vals[j] is Some ==> vals[j] == vals[k]));
        },
        Some(f) => {
            assert(vals[at] is Some);
            let ghost k = choose|k: int|
                0 <= k < vals.len() && #[trigger] vals[k] is Some && forall|j: int|
                    0 <= j < vals.len() && #[trigger] vals[j] is Some ==> vals[j] == vals[k];
            assert(vals[at] == vals[k]);
        },
    }
    found
}

/// A `repoPath` of a tracked repository, when it is an absolute path.
pub open spec fn repo_path_of(item: JsonValue, windows: bool) -> Option<Seq<char>> {
    match item.field_text("repoPath"@) {
        Some(p) => if absolute_path(p, windows) { Some(p) } else { None },
        None => None,
    }
}

/// The one repository that a payload tracks: the absolute `repoPath` values
/// of `trackedGitRepos`, when they name exactly one path.
pub open spec fn tracked_repo(payload: JsonValue, windows: bool) -> Option<Seq<char>> {
    match payload.field("trackedGitRepos"@) {
        Some(JsonValue::Array(items)) => sole_value(
            items@.map_values(|v: JsonValue| repo_path_of(v, windows)),
        ),
        _ => None,
    }
}

/// The repository path of one tracked repository (see `repo_path_of`).
fn repo_path(item: &JsonValue, windows: bool) -> (r: Option<String>)
    ensures
        match r {
            Some(p) => repo_path_of(*item, windows) == Some(p@),
            None => repo_path_of(*item, windows) is None,
        },
{
    match item.get_text("repoPath") {
        Some(p) => if is_absolute_path(p.as_str(), windows) {
            Some(p.clone())
        } else {
            None
        },
        None => None,
    }
}

/// The one repository that a payload tracks (see `tracked_repo`).
pub fn tracked_repo_workspace(payload: &JsonValue, windows: bool) -> (r: Option<String>)
    ensures
        match r {
            Some(p) => tracked_repo(*payload, windows) == Some(p@),
            None => tracked_repo(*payload, windows) is None,
        },
{
    let items = match payload.get("trackedGitRepos") {
        Some(JsonValue::Array(items)) => items,
        _ => {
            return None;
        },
    };
    let ghost spec_items = items@.map_values(|v: JsonValue| repo_path_of(v, windows));
    let mut cands: Vec<Option<String>> = Vec::new();
    let mut i: usize = 0;
    while i < items.len()
        invariant
            i <= items@.len(),
            spec_items == items@.map_values(|v: JsonValue| repo_path_of(v, windows)),
            cands@.len() == i,
            option_views(cands@) =~= spec_items.take(i as int),
        decreases items@.len() - i,
    {
        let c = repo_path(&items[i], windows);
        let ghost cview = match &c {
            Some(p) => Some(p@),
            None => None,
        };
        assert(cview == spec_items[i as int]);
        let ghost before = cands@;
        cands.push(c);
        proof {
            assert forall|k: int| 0 <= k < i + 1 implies option_views(cands@)[k] == spec_items.take(
                i + 1,
            )[k] by {
                if k < i {
                    assert(cands@[k] == before[k]);
                    assert(option_views(before)[k] == spec_items.take(i as int)[k]);
                }
            }
            assert(option_views(cands@) =~= spec_items.take(i + 1));
        }
        i = i + 1;
    }
    assert(spec_items.take(i as int) =~= spec_items);
    sole_candidate(&cands)
}

/// The explicit path of a payload: an absolute `fsPath`, else an absolute
/// `path`, of `workspaceIdentifier.uri`.
pub open spec fn uri_workspace(payload: JsonValue, windows: bool) -> Option<Seq<char>> {
    match payload.field("workspaceIdentifier"@) {
        None => None,
        Some(ident) => match ident.field("uri"@) {
            Some(uri) => if uri.field_text("fsPath"@) is Some && absolute_path(uri.field_text("fsPath"@)->0, windows) {
                uri.field_text("fsPath"@)
            } else if uri.field_text("path"@) is Some && absolute_path(uri.field_text("path"@)->0, windows) {
                uri.field_text("path"@)
            } else {
                None
            },
            None => None,
        },
    }
}

/// The known workspace whose `workspaceStorage` directory is the payload's
/// `workspaceIdentifier.id`.
pub open spec fn id_workspace(payload: JsonValue, known: Seq<KnownWorkspace>) -> Option<Seq<char>> {
    match payload.field("workspaceIdentifier"@) {
        None => None,
        Some(ident) => match ident.field_text("id"@) {
            Some(id) => lookup(known, id),
            None => None,
        },
    }
}

/// The workspace that a payload names: its explicit path, else its
/// `workspaceStorage` entry.
pub open spec fn payload_workspace(payload: JsonValue, known: Seq<KnownWorkspace>, windows: bool) -> Option<Seq<char>> {
    if uri_workspace(payload, windows) is Some {
        uri_workspace(payload, windows)
    } else {
        id_workspace(payload, known)
    }
}

/// The explicit path of a payload (see `uri_workspace`).
pub fn workspace_from_uri(payload: &JsonValue, windows: bool) -> (r: Option<String>)
    ensures
        match r {
            Some(p) => uri_workspace(*payload, windows) == Some(p@),
            None => uri_workspace(*payload, windows) is None,
        },
{
    let ident = match payload.get("workspaceIdentifier") {
        Some(v) => v,
        None => {
            return None;
        },
    };
    match ident.get("uri") {
        Some(uri) => {
            match uri.get_text("fsPath") {
                Some(p) => if is_absolute_path(p.as_str(), windows) {
                    return Some(p.clone());
                },
                None => {},
            }
            match uri.get_text("path") {
                Some(p) => if is_absolute_path(p.as_str(), windows) {
                    return Some(p.clone());
                },
                None => {},
            }
            None
        },
        None => None,
    }
}

/// The `workspaceStorage` entry a payload names (see `id_workspace`).
pub fn workspace_from_id(payload: &JsonValue, known: &Vec<KnownWorkspace>) -> (r: Option<String>)
    ensures
        match r {
            Some(p) => id_workspace(*payload, known@) == Some(p@),
            None => id_workspace(*payload, known@) is None,
        },
{
    match payload.get("workspaceIdentifier") {
        Some(ident) => match ident.get_text("id") {
            Some(id) => find_known(known, id.as_str()),
            None => None,
        },
        None => None,
    }
}

/// The workspace that a payload names (see `payload_workspace`).
pub fn workspace_from_payload(payload: &JsonValue, known: &Vec<KnownWorkspace>, windows: bool) -> (r: Option<String>)
    ensures
        match r {
            Some(p) => payload_workspace(*payload, known@, windows) == Some(p@),
            None => payload_workspace(*payload, known@, windows) is None,
        },
{
    match workspace_from_uri(payload, windows) {
        Some(p) => Some(p),
        None => workspace_from_id(payload, known),
    }
}

/// The workspace shown for conversations opened in no folder.
pub open spec fn empty_window_label() -> Seq<char> {
    "未打开文件夹（empty-window）"@
}

/// The explicit path of an optional payload.
pub open spec fn opt_uri(payload: Option<JsonValue>, windows: bool) -> Option<Seq<char>> {
    match payload {
        Some(v) => uri_workspace(v, windows),
        None => None,
    }
}

/// The `workspaceStorage` entry of an optional payload.
pub open spec fn opt_id(payload: Option<JsonValue>, known: Seq<KnownWorkspace>) -> Option<Seq<char>> {
    match payload {
        Some(v) => id_workspace(v, known),
        None => None,
    }
}

/// The one repository an optional payload tracks.
pub open spec fn opt_repo(payload: Option<JsonValue>, windows: bool) -> Option<Seq<char>> {
    match payload {
        Some(v) => tracked_repo(v, windows),
        None => None,
    }
}

/// The workspace told by the conversation's own records without the Git
/// clues, in this order: the explicit path of its payload, that of its
/// header, the `workspaceStorage` entry named by the payload, by the header,
/// and the header's workspace directory (`empty-window` for none).
pub open spec fn explicit_workspace(
    composer: Option<JsonValue>,
    header: Option<JsonValue>,
    header_workspace_id: Option<Seq<char>>,
    known: Seq<KnownWorkspace>,
    windows: bool,
) -> Option<Seq<char>> {
    if opt_uri(composer, windows) is Some {
        opt_uri(composer, windows)
    } else if opt_uri(header, windows) is Some {
        opt_uri(header, windows)
    } else if opt_id(composer, known) is Some {
        opt_id(composer, known)
    } else if opt_id(header, known) is Some {
        opt_id(header, known)
    } else {
        match header_workspace_id {
            Some(id) => if id == "empty-window"@ {
                Some(empty_window_label())
            } else {
                lookup(known, id)
            },
            None => None,
        }
    }
}

/// The Git clue of the conversation's records: the one repository its
/// payload tracks, else the one its header tracks.
pub open spec fn git_workspace(composer: Option<JsonValue>, header: Option<JsonValue>, windows: bool) -> Option<Seq<char>> {
    if opt_repo(composer, windows) is Some {
        opt_repo(composer, windows)
    } else {
        opt_repo(header, windows)
    }
}

fn uri_of(payload: Option<&JsonValue>, windows: bool) -> (r: Option<String>)
    ensures
        ({
            let p = match payload {
                Some(x) => Some(*x),
                None => None,
            };
            match r {
                Some(s) => opt_uri(p, windows) == Some(s@),
                None => opt_uri(p, windows) is None,
            }
        }),
{
    match payload {
        Some(v) => workspace_from_uri(v, windows),
        None => None,
    }
}

fn id_of(payload: Option<&JsonValue>, known: &Vec<KnownWorkspace>) -> (r: Option<String>)
    ensures
        ({
            let p = match payload {
                Some(x) => Some(*x),
                None => None,
            };
            match r {
                Some(s) => opt_id(p, known@) == Some(s@),
                None => opt_id(p, known@) is None,
            }
        }),
{
    match payload {
        Some(v) => workspace_from_id(v, known),
        None => None,
    }
}

fn repo_of(payload: Option<&JsonValue>, windows: bool) -> (r: Option<String>)
    ensures
        ({
            let p = match payload {
                Some(x) => Some(*x),
                None => None,
            };
            match r {
                Some(s) => opt_repo(p, windows) == Some(s@),
                None => opt_repo(p, windows) is None,
            }
        }),
{
    match payload {
        Some(v) => tracked_repo_workspace(v, windows),
        None => None,
    }
}

/// The workspace told by the records without the Git clues (see `explicit_workspace`).
pub fn workspace_from_records(
    composer: Option<&JsonValue>,
    header: Option<&JsonValue>,
    header_workspace_id: Option<&str>,
    known: &Vec<KnownWorkspace>,
    windows: bool,
) -> (r: Option<String>)
    ensures
        ({
            let c = match composer {
                Some(x) => Some(*x),
                None => None,
            };
            let h = match header {
                Some(x) => Some(*x),
                None => None,
            };
            let w = match header_workspace_id {
                Some(x) => Some(x@),
                None => None,
            };
            match r {
                Some(p) => explicit_workspace(c, h, w, known@, windows) == Some(p@),
                None => explicit_workspace(c, h, w, known@, windows) is None,
            }
        }),
{
    match uri_of(composer, windows) {
        Some(p) => {
            return Some(p);
        },
        None => {},
    }
    match uri_of(header, windows) {
        Some(p) => {
            return Some(p);
        },
        None => {},
    }
    match id_of(composer, known) {
        Some(p) => {
            return Some(p);
        },
        None => {},
    }
    match id_of(header, known) {
        Some(p) => {
            return Some(p);
        },
        None => {},
    }
    match header_workspace_id {
        Some(id) => {
            let e = String::from_str("empty-window");
            let given = String::from_str(id);
            if given == e {
                Some(String::from_str("未打开文件夹（empty-window）"))
            } else {
                find_known(known, id)
            }
        },
        None => None,
    }
}

/// The Git clue of the records (see `git_workspace`).
pub fn workspace_from_git(composer: Option<&JsonValue>, header: Option<&JsonValue>, windows: bool) -> (r: Option<String>)
    ensures
        ({
            let c = match composer {
                Some(x) => Some(*x),
                None => None,
            };
            let h = match header {
                Some(x) => Some(*x),
                None => None,
            };
            match r {
                Some(p) => git_workspace(c, h, windows) == Some(p@),
                None => git_workspace(c, h, windows) is None,
            }
        }),
{
    match repo_of(composer, windows) {
        Some(p) => Some(p),
        None => repo_of(header, windows),
    }
}

/// `s` cut at every `sep`, as `str::split` cuts it: `k` separators give
/// `k + 1` pieces, empty ones included.
pub open spec fn split_chars(s: Seq<char>, sep: char) -> Seq<Seq<char>>
    decreases s.len(),
{
    if s.len() == 0 {
        seq![Seq::<char>::empty()]
    } else if s.last() == sep {
        split_chars(s.drop_last(), sep).push(Seq::<char>::empty())
    } else {
        let p = split_chars(s.drop_last(), sep);
        p.update(p.len() - 1, p.last().push(s.last()))
    }
}

pub proof fn lemma_split_chars_nonempty(s: Seq<char>, sep: char)
    ensures
        split_chars(s, sep).len() >= 1,
    decreases s.len(),
{
    if s.len() > 0 {
        lemma_split_chars_nonempty(s.drop_last(), sep);
    }
}

/// Splits `s` at every `sep` (see `split_chars`).
pub fn split_text(s: &[char], sep: char) -> (r: Vec<Vec<char>>)
    ensures
        r.deep_view() == split_chars(s@, sep),
{
    let mut result: Vec<Vec<char>> = Vec::new();
    let mut cur: Vec<char> = Vec::new();
    let mut i: usize = 0;
    assert(s@.take(0) =~= Seq::<char>::empty());
    assert(result.deep_view().push(cur@) =~= split_chars(s@.take(0), sep));
    while i < s.len()
        invariant
            i <= s@.len(),
            result.deep_view().push(cur@) =~= split_chars(s@.take(i as int), sep),
        decreases s@.len() - i,
    {
        let c = s[i];
        assert(s@.take(i + 1).drop_last() =~= s@.take(i as int));
        let ghost before = result.deep_view();
        if c == sep {
            let done = cur;
            assert(done.deep_view() =~= done@);
            result.push(done);
            cur = Vec::new();
            assert(result.deep_view() =~= before.push(done@));
        } else {
            cur.push(c);
        }
        i = i + 1;
        assert(result.deep_view().push(cur@) =~= split_chars(s@.take(i as int), sep));
    }
    assert(s@.take(i as int) =~= s@);
    let ghost before = result.deep_view();
    assert(cur.deep_view() =~= cur@);
    result.push(cur);
    assert(result.deep_view() =~= before.push(cur@));
    result
}

/// The workspace named by a tab-state key `cursor/glass.tabs.v2/<workspace>/...`:
/// its third `/`-separated part, `empty-window` for none.
pub open spec fn tab_key_workspace(key: Seq<char>, known: Seq<KnownWorkspace>) -> Option<Seq<char>> {
    let parts = split_chars(key, '/');
    if parts.len() > 2 {
        if parts[2] == "empty-window"@ {
            Some(empty_window_label())
        } else {
            lookup(known, parts[2])
        }
    } else {
        None
    }
}

/// The workspace of the first tab-state key that names one.
pub open spec fn tab_keys_workspace(keys: Seq<Seq<char>>, known: Seq<KnownWorkspace>) -> Option<Seq<char>>
    decreases keys.len(),
{
    if keys.len() == 0 {
        None
    } else if tab_key_workspace(keys[0], known) is Some {
        tab_key_workspace(keys[0], known)
    } else {
        tab_keys_workspace(keys.drop_first(), known)
    }
}

/// The workspace named by one tab-state key (see `tab_key_workspace`).
fn tab_key_lookup(key: &str, known: &Vec<KnownWorkspace>) -> (r: Option<String>)
    ensures
        match r {
            Some(p) => tab_key_workspace(key@, known@) == Some(p@),
            None => tab_key_workspace(key@, known@) is None,
        },
{
    let k = chars_of(key);
    let parts = split_text(k.as_slice(), '/');
    if parts.len() > 2 {
        assert(parts.deep_view()[2] == parts@[2]@);
        let part = crate::text::string_from_chars(parts[2].as_slice());
        let e = String::from_str("empty-window");
        if part == e {
            Some(String::from_str("未打开文件夹（empty-window）"))
        } else {
            find_known(known, part.as_str())
        }
    } else {
        None
    }
}

/// The workspace named by the conversation's tab-state keys (see `tab_keys_workspace`).
pub fn workspace_from_tab_keys(keys: &Vec<String>, known: &Vec<KnownWorkspace>) -> (r: Option<String>)
    ensures
        match r {
            Some(p) => tab_keys_workspace(keys.deep_view(), known@) == Some(p@),
            None => tab_keys_workspace(keys.deep_view(), known@) is None,
        },
{
    let ghost ks = keys.deep_view();
    let mut i: usize = 0;
    assert(ks.skip(0) =~= ks);
    while i < keys.len()
        invariant
            i <= ks.len(),
            ks == keys.deep_view(),
            tab_keys_workspace(ks, known@) == tab_keys_workspace(ks.skip(i as int), known@),
        decreases ks.len() - i,
    {
        assert(ks.skip(i as int).drop_first() =~= ks.skip(i + 1));
        assert(ks.skip(i as int)[0] == keys@[i as int]@);
        match tab_key_lookup(keys[i].as_str(), known) {
            Some(p) => {
                return Some(p);
            },
            None => {},
        }
        i = i + 1;
    }
    None
}

/// The known workspaces whose path a transcript project name was derived from.
pub open spec fn project_candidates(known: Seq<KnownWorkspace>, project_id: Seq<char>, windows: bool) -> Seq<Option<Seq<char>>> {
    known.map_values(|w: KnownWorkspace| if slug_matches(w.path@, project_id, windows) {
        Some(w.path@)
    } else {
        None
    })
}

/// The label of workspaces that only left a temporary transcript folder.
pub open spec fn temporary_workspace_label() -> Seq<char> {
    "临时/历史工作区（路径已不可用）"@
}

/// The label of a conversation whose workspace could not be told.
pub open spec fn unknown_workspace_label() -> Seq<char> {
    "无法识别工作目录"@
}

/// The workspace of one transcript project folder: the one known workspace
/// path it was derived from, else `empty-window` for none, else a temporary
/// workspace for `var-folders-…`. On Windows names compare without case.
pub open spec fn project_workspace(project_id: Seq<char>, known: Seq<KnownWorkspace>, windows: bool) -> Option<Seq<char>> {
    if sole_value(project_candidates(known, project_id, windows)) is Some {
        sole_value(project_candidates(known, project_id, windows))
    } else if project_id == "empty-window"@ {
        Some(empty_window_label())
    } else if starts_with(project_id, "var-folders-"@) {
        Some(temporary_workspace_label())
    } else {
        None
    }
}

/// The workspace of the first transcript project folder that tells one.
pub open spec fn projects_workspace(project_ids: Seq<Seq<char>>, known: Seq<KnownWorkspace>, windows: bool) -> Option<Seq<char>>
    decreases project_ids.len(),
{
    if project_ids.len() == 0 {
        None
    } else if project_workspace(project_ids[0], known, windows) is Some {
        project_workspace(project_ids[0], known, windows)
    } else {
        projects_workspace(project_ids.drop_first(), known, windows)
    }
}

/// The workspace of one transcript project folder (see `project_workspace`).
fn project_lookup(project_id: &str, known: &Vec<KnownWorkspace>, windows: bool) -> (r: Option<String>)
    ensures
        match r {
            Some(p) => project_workspace(project_id@, known@, windows) == Some(p@),
            None => project_workspace(project_id@, known@, windows) is None,
        },
{
    let ghost spec_cands = project_candidates(known@, project_id@, windows);
    let mut cands: Vec<Option<String>> = Vec::new();
    let mut i: usize = 0;
    while i < known.len()
        invariant
            i <= known@.len(),
            spec_cands == project_candidates(known@, project_id@, windows),
            cands@.len() == i,
            option_views(cands@) =~= spec_cands.take(i as int),
        decreases known@.len() - i,
    {
        let c = if project_slug_matches_for(known[i].path.as_str(), project_id, windows) {
            Some(known[i].path.clone())
        } else {
            None
        };
        let ghost cview = match &c {
            Some(p) => Some(p@),
            None => None,
        };
        assert(cview == spec_cands[i as int]);
        let ghost before = cands@;
        cands.push(c);
        proof {
            assert forall|k: int| 0 <= k < i + 1 implies option_views(cands@)[k] == spec_cands.take(
                i + 1,
            )[k] by {
                if k < i {
                    assert(cands@[k] == before[k]);
                    assert(option_views(before)[k] == spec_cands.take(i as int)[k]);
                }
            }
            assert(option_views(cands@) =~= spec_cands.take(i + 1));
        }
        i = i + 1;
    }
    assert(spec_cands.take(i as int) =~= spec_cands);
    match sole_candidate(&cands) {
        Some(p) => {
            return Some(p);
        },
        None => {},
    }
    let id = chars_of(project_id);
    let empty = chars_of("empty-window");
    let temp = chars_of("var-folders-");
    if crate::text::chars_equal(id.as_slice(), empty.as_slice()) {
        Some(String::from_str("未打开文件夹（empty-window）"))
    } else if chars_starts_with(id.as_slice(), temp.as_slice()) {
        Some(String::from_str("临时/历史工作区（路径已不可用）"))
    } else {
        None
    }
}

/// The workspace told by the transcript project folders (see `projects_workspace`).
pub fn workspace_from_projects(project_ids: &Vec<String>, known: &Vec<KnownWorkspace>, windows: bool) -> (r: Option<String>)
    ensures
        match r {
            Some(p) => projects_workspace(project_ids.deep_view(), known@, windows) == Some(p@),
            None => projects_workspace(project_ids.deep_view(), known@, windows) is None,
        },
{
    let ghost ps = project_ids.deep_view();
    let mut i: usize = 0;
    assert(ps.skip(0) =~= ps);
    while i < project_ids.len()
        invariant
            i <= ps.len(),
            ps == project_ids.deep_view(),
            projects_workspace(ps, known@, windows) == projects_workspace(ps.skip(i as int), known@, windows),
        decreases ps.len() - i,
    {
        assert(ps.skip(i as int).drop_first() =~= ps.skip(i + 1));
        assert(ps.skip(i as int)[0] == project_ids@[i as int]@);
        match project_lookup(project_ids[i].as_str(), known, windows) {
            Some(p) => {
                return Some(p);
            },
            None => {},
        }
        i = i + 1;
    }
    None
}

/// The next step of telling a conversation's workspace: the answer, or the
/// records that have to be read first.
#[derive(Debug)]
pub enum WorkspaceLookup {
    Found(String),
    /// The `ItemTable` keys `cursor/glass.tabs.v2/%/<id>/state.json` are needed.
    NeedTabKeys,
    /// The names of the transcript project folders that hold the conversation are needed.
    NeedProjects,
}

/// The workspace told by what has been read so far: the explicit paths and
/// `workspaceStorage` entries of the conversation's own records, then its
/// tab-state keys, then the Git repositories its records track, then its
/// transcript project folders, and at the end the label of an unknown
/// workspace. `None` while the answer waits for records not read yet.
pub open spec fn workspace_found(
    composer: Option<JsonValue>,
    header: Option<JsonValue>,
    header_workspace_id: Option<Seq<char>>,
    tab_keys: Option<Seq<Seq<char>>>,
    project_ids: Option<Seq<Seq<char>>>,
    known: Seq<KnownWorkspace>,
    windows: bool,
) -> Option<Seq<char>> {
    if explicit_workspace(composer, header, header_workspace_id, known, windows) is Some {
        explicit_workspace(composer, header, header_workspace_id, known, windows)
    } else {
        match tab_keys {
            None => None,
            Some(keys) => if tab_keys_workspace(keys, known) is Some {
                tab_keys_workspace(keys, known)
            } else if git_workspace(composer, header, windows) is Some {
                git_workspace(composer, header, windows)
            } else {
                match project_ids {
                    None => None,
                    Some(ids) => if projects_workspace(ids, known, windows) is Some {
                        projects_workspace(ids, known, windows)
                    } else {
                        Some(unknown_workspace_label())
                    },
                }
            },
        }
    }
}

/// Tells a conversation's workspace from what has been read so far, or names
/// the records to read next (see `workspace_found`). The tab-state keys are
/// asked for only when the records do not tell, and the project folders only
/// when the keys do not either.
pub fn infer_workspace(
    composer: Option<&JsonValue>,
    header: Option<&JsonValue>,
    header_workspace_id: Option<&str>,
    tab_keys: Option<&Vec<String>>,
    project_ids: Option<&Vec<String>>,
    known: &Vec<KnownWorkspace>,
    windows: bool,
) -> (r: WorkspaceLookup)
    ensures
        ({
            let found = workspace_found(
                match composer {
                    Some(x) => Some(*x),
                    None => None,
                },
                match header {
                    Some(x) => Some(*x),
                    None => None,
                },
                match header_workspace_id {
                    Some(x) => Some(x@),
                    None => None,
                },
                match tab_keys {
                    Some(k) => Some(k.deep_view()),
                    None => None,
                },
                match project_ids {
                    Some(p) => Some(p.deep_view()),
                    None => None,
                },
                known@,
                windows,
            );
            match r {
                WorkspaceLookup::Found(p) => found == Some(p@),
                WorkspaceLookup::NeedTabKeys => found is None && tab_keys is None,
                WorkspaceLookup::NeedProjects => found is None && tab_keys is Some && project_ids is None,
            }
        }),
{
    match workspace_from_records(composer, header, header_workspace_id, known, windows) {
        Some(p) => {
            return WorkspaceLookup::Found(p);
        },
        None => {},
    }
    let keys = match tab_keys {
        Some(k) => k,
        None => {
            return WorkspaceLookup::NeedTabKeys;
        },
    };
    match workspace_from_tab_keys(keys, known) {
        Some(p) => {
            return WorkspaceLookup::Found(p);
        },
        None => {},
    }
    match workspace_from_git(composer, header, windows) {
        Some(p) => {
            return WorkspaceLookup::Found(p);
        },
        None => {},
    }
    let ids = match project_ids {
        Some(p) => p,
        None => {
            return WorkspaceLookup::NeedProjects;
        },
    };
    match workspace_from_projects(ids, known, windows) {
        Some(p) => WorkspaceLookup::Found(p),
        None => WorkspaceLookup::Found(String::from_str("无法识别工作目录")),
    }
}

/// The local folder of a `workspace.json` document: its `folder` URI read as
/// a local path.
pub open spec fn workspace_folder(document: JsonValue, windows: bool) -> Option<Seq<char>> {
    match document.field_text("folder"@) {
        Some(uri) => file_uri_local_path(uri, windows),
        None => None,
    }
}

/// Reads the local folder of a `workspace.json` document (see `workspace_folder`).
pub fn workspace_folder_path(document: &JsonValue, windows: bool) -> (r: Option<String>)
    ensures
        match r {
            Some(p) => workspace_folder(*document, windows) == Some(p@),
            None => workspace_folder(*document, windows) is None,
        },
{
    match document.get_text("folder") {
        Some(uri) => file_uri_path_for(uri.as_str(), windows),
        None => None,
    }
}

/// The `workspaceStorage` folder `dir` with the stored `workspace.json`
/// bytes `raw`: known when the document names a local folder.
pub fn known_workspace(dir: String, raw: &[u8], windows: bool) -> (r: Option<KnownWorkspace>)
    ensures
        match json_document(raw@) {
            Some(doc) => match workspace_folder(doc, windows) {
                Some(p) => r matches Some(k) && k.id@ == dir@ && k.path@ == p,
                None => r is None,
            },
            None => r is None,
        },
{
    match parse_json(raw) {
        Some(doc) => match workspace_folder_path(&doc, windows) {
            Some(path) => Some(KnownWorkspace { id: dir, path }),
            None => None,
        },
        None => None,
    }
}

/// The explicit project path of stored conversation bytes, which a cleanup
/// never writes to.
pub fn payload_path(raw: &[u8], windows: bool) -> (r: Option<String>)
    ensures
        match json_document(raw@) {
            Some(doc) => match r {
                Some(p) => uri_workspace(doc, windows) == Some(p@),
                None => uri_workspace(doc, windows) is None,
            },
            None => r is None,
        },
{
    match parse_json(raw) {
        Some(doc) => workspace_from_uri(&doc, windows),
        None => None,
    }
}

} // verus!
