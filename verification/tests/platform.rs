use cursor_cleaner::platform::{
    contains_ascii_case_insensitive, cursor_user_for, is_absolute_path, join, parse_windows_tasklist,
    HostPlatform,
};

#[test]
fn parses_tasklist_without_decoding_localized_output() {
    let output = br#""Cursor.exe","5472","Console","1","100,000 K"
INFO: No tasks are running
"Cursor.EXE","8244","Console","1","20,000 K""#;
    assert_eq!(
        parse_windows_tasklist(output),
        ["Cursor.exe (PID 5472)", "Cursor.exe (PID 8244)"]
    );
}

#[test]
fn chooses_platform_specific_cursor_user_roots() {
    let here_windows = std::path::MAIN_SEPARATOR == '\\';
    let home = std::path::Path::new("/home/test");
    let appdata = std::path::Path::new("/roaming");
    let user = |platform, appdata: Option<&str>| cursor_user_for(platform, "/home/test", appdata, here_windows);
    assert_eq!(
        std::path::PathBuf::from(user(HostPlatform::MacOs, None)),
        home.join("Library/Application Support/Cursor/User")
    );
    assert_eq!(
        std::path::PathBuf::from(user(HostPlatform::Windows, Some("/roaming"))),
        appdata.join("Cursor/User")
    );
    assert_eq!(
        std::path::PathBuf::from(user(HostPlatform::Windows, None)),
        home.join("AppData/Roaming/Cursor/User")
    );
}

#[test]
fn cursor_user_roots_are_plain_joins() {
    assert_eq!(
        cursor_user_for(HostPlatform::MacOs, "/home/test", None, false),
        "/home/test/Library/Application Support/Cursor/User"
    );
    assert_eq!(cursor_user_for(HostPlatform::Windows, "/home/test", Some("/roaming"), false), "/roaming/Cursor/User");
    assert_eq!(join("/a/", "b", false), "/a/b");
}

#[test]
fn windows_joins_insert_a_backslash() {
    assert_eq!(
        cursor_user_for(HostPlatform::Windows, "C:\\Users\\me", Some("C:\\Users\\me\\AppData\\Roaming"), true),
        "C:\\Users\\me\\AppData\\Roaming\\Cursor/User"
    );
    assert_eq!(
        cursor_user_for(HostPlatform::Windows, "C:\\Users\\me", None, true),
        "C:\\Users\\me\\AppData/Roaming\\Cursor/User"
    );
    assert_eq!(join("C:\\data\\", "x", true), "C:\\data\\x");
    assert_eq!(join("C:", "x", true), "C:x");
    assert_eq!(join("", "x", true), "x");
    assert_eq!(join("/a", "b", false), "/a/b");
}

#[test]
fn tasklist_ignores_other_images_and_short_lines() {
    let output = b"\"explorer.exe\",\"1\"\n\"Cursor.exe\"\n\"cursor.exe\",\"77\",\"x\"\n";
    assert_eq!(parse_windows_tasklist(output), ["Cursor.exe (PID ?)", "Cursor.exe (PID 77)"]);
    assert!(parse_windows_tasklist(b"").is_empty());
}

#[test]
fn ascii_search_ignores_case_only_for_ascii() {
    assert!(contains_ascii_case_insensitive(b"xxCURSOR.EXEyy", b"cursor.exe"));
    assert!(!contains_ascii_case_insensitive(b"cursor.ex", b"cursor.exe"));
}

#[test]
fn absolute_paths_follow_platform_rules() {
    assert!(is_absolute_path("/tmp/x", false));
    assert!(!is_absolute_path("tmp/x", false));
    assert!(is_absolute_path("C:\\Users", true));
    assert!(is_absolute_path("\\\\server\\share", true));
    assert!(!is_absolute_path("\\Users", true));
    assert!(!is_absolute_path("C:", true));
}

#[test]
fn only_macos_and_windows_are_supported() {
    assert!(HostPlatform::from_target_os("macos").supported());
    assert!(HostPlatform::from_target_os("windows").supported());
    assert!(!HostPlatform::from_target_os("linux").supported());
}
