//! Host platforms, Cursor's default locations and process-list parsing.

use vstd::prelude::*;
use crate::text::{
    ascii_digits, ascii_lower, bytes_as_chars, chars_of, ci_match_at, contains_ci, keep_ascii_digits,
    lower_byte, split_bytes, split_on, string_from_chars,
};

verus! {

/// The operating systems the tool distinguishes.
#[derive(Clone, Copy, Debug, PartialEq, Eq, Structural)]
pub enum HostPlatform {
    MacOs,
    Windows,
    Unsupported,
}

/// The platforms the tool supports: macOS and Windows.
pub open spec fn host_supported(p: HostPlatform) -> bool {
    p == HostPlatform::MacOs || p == HostPlatform::Windows
}

impl HostPlatform {
    /// The platform named by a Rust target OS name (`std::env::consts::OS`).
    pub fn from_target_os(os: &str) -> (r: Self)
        ensures
            r == (if os@ == "macos"@ {
                HostPlatform::MacOs
            } else if os@ == "windows"@ {
                HostPlatform::Windows
            } else {
                HostPlatform::Unsupported
            }),
    {
        let name = string_from_chars(chars_of(os).as_slice());
        let mac = String::from_str("macos");
        let win = String::from_str("windows");
        if name == mac {
            HostPlatform::MacOs
        } else if name == win {
            HostPlatform::Windows
        } else {
            HostPlatform::Unsupported
        }
    }

    /// Only macOS and Windows are supported.
    pub fn supported(self) -> (r: bool)
        ensures
            r == host_supported(self),
    {
        match self {
            HostPlatform::MacOs | HostPlatform::Windows => true,
            HostPlatform::Unsupported => false,
        }
    }
}

/// The path separator written between joined parts: `\` under the Windows
/// rules, `/` otherwise.
pub open spec fn separator(windows: bool) -> char {
    if windows { '\\' } else { '/' }
}

/// Whether `c` separates path components: `/` everywhere, `\` too under
/// the Windows rules.
pub open spec fn is_separator(c: char, windows: bool) -> bool {
    c == '/' || (windows && c == '\\')
}

/// `base` followed by the relative path `rel` as `Path::join` joins them:
/// one separator between them unless `base` is empty, already ends with a
/// separator, or (under the Windows rules) is a bare drive such as `C:`.
pub open spec fn join_path(base: Seq<char>, rel: Seq<char>, windows: bool) -> Seq<char> {
    if base.len() == 0 || is_separator(base.last(), windows) || (windows && base.len() == 2 && base[1] == ':') {
        base + rel
    } else {
        base + seq![separator(windows)] + rel
    }
}

/// Joins a relative path onto `base` under the path rules of the host
/// (`windows` for the Windows rules).
pub fn join(base: &str, rel: &str, windows: bool) -> (r: String)
    ensures
        r@ == join_path(base@, rel@, windows),
{
    let b = chars_of(base);
    let mut s = String::from_str(base);
    let n = b.len();
    let ends_with_separator = n > 0 && (b[n - 1] == '/' || (windows && b[n - 1] == '\\'));
    let bare_drive = windows && n == 2 && b[1] == ':';
    if n > 0 && !ends_with_separator && !bare_drive {
        if windows {
            proof {
                reveal_strlit("\\");
            }
            s.append("\\");
        } else {
            proof {
                reveal_strlit("/");
            }
            s.append("/");
        }
    }
    s.append(rel);
    s
}

/// Cursor's per-user data directory on `platform`, its parts joined under
/// the host's path rules (`windows`).
pub open spec fn cursor_user_path(
    platform: HostPlatform,
    home: Seq<char>,
    appdata: Option<Seq<char>>,
    windows: bool,
) -> Seq<char> {
    match platform {
        HostPlatform::MacOs => join_path(home, "Library/Application Support/Cursor/User"@, windows),
        HostPlatform::Windows => match appdata {
            Some(a) => join_path(a, "Cursor/User"@, windows),
            None => join_path(join_path(home, "AppData/Roaming"@, windows), "Cursor/User"@, windows),
        },
        HostPlatform::Unsupported => join_path(home, ".config/Cursor/User"@, windows),
    }
}

/// Cursor's per-user data directory for a platform, home and `APPDATA`
/// value, joined under the host's path rules (`windows`).
pub fn cursor_user_for(platform: HostPlatform, home: &str, appdata: Option<&str>, windows: bool) -> (r: String)
    ensures
        r@ == cursor_user_path(platform, home@, match appdata {
            Some(a) => Some(a@),
            None => None,
        }, windows),
{
    match platform {
        HostPlatform::MacOs => join(home, "Library/Application Support/Cursor/User", windows),
        HostPlatform::Windows => match appdata {
            Some(a) => join(a, "Cursor/User", windows),
            None => {
                let roaming = join(home, "AppData/Roaming", windows);
                join(roaming.as_str(), "Cursor/User", windows)
            },
        },
        HostPlatform::Unsupported => join(home, ".config/Cursor/User", windows),
    }
}

/// Whether `needle` occurs in `haystack`, comparing ASCII letters without case.
pub fn contains_ascii_case_insensitive(haystack: &[u8], needle: &[u8]) -> (r: bool)
    requires
        needle@.len() > 0,
    ensures
        r == contains_ci(haystack@, needle@),
{
    if haystack.len() < needle.len() {
        assert forall|i: int| !ci_match_at(haystack@, needle@, i) by {}
        return false;
    }
    let last = haystack.len() - needle.len();
    let mut i: usize = 0;
    while i <= last
        invariant
            needle@.len() <= haystack@.len(),
            needle@.len() > 0,
            haystack@.len() <= usize::MAX,
            last == haystack@.len() - needle@.len(),
            i <= last + 1,
            forall|k: int| 0 <= k < i ==> !ci_match_at(haystack@, needle@, k),
        decreases last + 1 - i,
    {
        let mut j: usize = 0;
        let mut same = true;
        while j < needle.len()
            invariant
                i <= last,
                haystack@.len() <= usize::MAX,
                last == haystack@.len() - needle@.len(),
                j <= needle@.len(),
                same == (forall|m: int| 0 <= m < j ==> ascii_lower(#[trigger] haystack@[i + m]) == ascii_lower(needle@[m])),
            decreases needle@.len() - j,
        {
            if lower_byte(haystack[i + j]) != lower_byte(needle[j]) {
                same = false;
            }
            j = j + 1;
        }
        if same {
            assert(ci_match_at(haystack@, needle@, i as int));
            return true;
        }
        i = i + 1;
    }
    assert forall|k: int| !ci_match_at(haystack@, needle@, k) by {
        if 0 <= k && k >= i {
            assert(k + needle@.len() > haystack@.len());
        }
    }
    false
}

/// The process id shown for a `tasklist` line: the ASCII digits of its second
/// comma-separated field, or `?` when there are none.
pub open spec fn tasklist_pid(line: Seq<u8>) -> Seq<char> {
    let fields = split_on(line, 44u8);
    if fields.len() > 1 && ascii_digits(fields[1]).len() > 0 {
        bytes_as_chars(ascii_digits(fields[1]))
    } else {
        "?"@
    }
}

/// The entry listed for a `tasklist` line.
pub open spec fn tasklist_entry(line: Seq<u8>) -> Seq<char> {
    "Cursor.exe (PID "@ + tasklist_pid(line) + ")"@
}

/// The entries for the lines that mention `cursor.exe` in any ASCII case.
pub open spec fn tasklist_entries(lines: Seq<Seq<u8>>) -> Seq<Seq<char>>
    decreases lines.len(),
{
    if lines.len() == 0 {
        Seq::<Seq<char>>::empty()
    } else if contains_ci(lines.last(), "cursor.exe"@.map_values(|c: char| c as u8)) {
        tasklist_entries(lines.drop_last()).push(tasklist_entry(lines.last()))
    } else {
        tasklist_entries(lines.drop_last())
    }
}

/// Lists the Cursor processes in the CSV output of `tasklist.exe`, reading the
/// bytes directly so that localized output needs no decoding.
pub fn parse_windows_tasklist(output: &[u8]) -> (r: Vec<String>)
    ensures
        r.deep_view() == tasklist_entries(split_on(output@, 10u8)),
{
    let needle: Vec<u8> = vec![99u8, 117u8, 114u8, 115u8, 111u8, 114u8, 46u8, 101u8, 120u8, 101u8];
    proof {
        reveal_strlit("cursor.exe");
        assert(needle@ =~= "cursor.exe"@.map_values(|c: char| c as u8));
    }
    let lines = split_bytes(output, 10u8);
    let mut result: Vec<String> = Vec::new();
    let mut i: usize = 0;
    while i < lines.len()
        invariant
            i <= lines@.len(),
            lines.deep_view() == split_on(output@, 10u8),
            needle@ == "cursor.exe"@.map_values(|c: char| c as u8),
            needle@.len() == 10,
            result.deep_view() == tasklist_entries(lines.deep_view().take(i as int)),
        decreases lines@.len() - i,
    {
        let line = &lines[i];
        assert(lines.deep_view().take(i + 1).drop_last() =~= lines.deep_view().take(i as int));
        assert(lines.deep_view()[i as int] == line@);
        if contains_ascii_case_insensitive(line.as_slice(), needle.as_slice()) {
            let entry = tasklist_line_entry(line.as_slice());
            let ghost before = result.deep_view();
            result.push(entry);
            assert(result.deep_view() =~= before.push(tasklist_entry(line@)));
        }
        i = i + 1;
    }
    assert(lines.deep_view().take(i as int) =~= lines.deep_view());
    result
}

/// Builds `tasklist_entry(line)`.
fn tasklist_line_entry(line: &[u8]) -> (r: String)
    ensures
        r@ == tasklist_entry(line@),
{
    let fields = split_bytes(line, 44u8);
    let mut pid: Vec<char> = Vec::new();
    if fields.len() > 1 {
        let digits = keep_ascii_digits(fields[1].as_slice());
        assert(fields.deep_view()[1] == fields@[1]@);
        let mut k: usize = 0;
        while k < digits.len()
            invariant
                k <= digits@.len(),
                pid@ =~= bytes_as_chars(digits@.take(k as int)),
            decreases digits@.len() - k,
        {
            pid.push(digits[k] as char);
            k = k + 1;
        }
        assert(digits@.take(k as int) =~= digits@);
    }
    if pid.len() == 0 {
        pid.push('?');
        proof { reveal_strlit("?"); }
        assert(pid@ =~= "?"@);
    }
    let mut s = String::from_str("Cursor.exe (PID ");
    let p = string_from_chars(pid.as_slice());
    s.append(p.as_str());
    s.append(")");
    s
}

} // verus!

verus! {

/// Whether `path` is absolute under the rules of `Path::is_absolute`: on
/// Windows a drive letter, `:` and a separator, or two leading separators (a
/// UNC, device or verbatim prefix, which carries its root); elsewhere a
/// leading `/`.
pub open spec fn absolute_path(path: Seq<char>, windows: bool) -> bool {
    if windows {
        ||| (path.len() >= 2 && (path[0] == '/' || path[0] == '\\') && (path[1] == '/' || path[1] == '\\'))
        ||| (path.len() >= 3 && (('a' <= path[0] <= 'z') || ('A' <= path[0] <= 'Z')) && path[1] == ':'
            && (path[2] == '/' || path[2] == '\\'))
    } else {
        path.len() > 0 && path[0] == '/'
    }
}

fn is_sep_char(c: char) -> (r: bool)
    ensures
        r == (c == '/' || c == '\\'),
{
    c == '/' || c == '\\'
}

/// Whether `path` is absolute (see `absolute_path`).
pub fn is_absolute_path(path: &str, windows: bool) -> (r: bool)
    ensures
        r == absolute_path(path@, windows),
{
    let p = chars_of(path);
    if windows {
        (p.len() >= 2 && is_sep_char(p[0]) && is_sep_char(p[1])) || (p.len() >= 3 && (('a' <= p[0]
            && p[0] <= 'z') || ('A' <= p[0] && p[0] <= 'Z')) && p[1] == ':' && is_sep_char(p[2]))
    } else {
        p.len() > 0 && p[0] == '/'
    }
}

impl HostPlatform {
    /// Whether the host uses Windows path rules.
    pub open spec fn windows_paths(self) -> bool {
        self == HostPlatform::Windows
    }

    pub fn uses_windows_paths(self) -> (r: bool)
        ensures
            r == self.windows_paths(),
    {
        match self {
            HostPlatform::Windows => true,
            _ => false,
        }
    }
}

} // verus!
