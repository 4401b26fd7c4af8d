use cursor_cleaner::store::{file_uri_path_for, percent_decode, project_slug_matches_for, redact_detail, valid_id};

#[test]
fn parses_windows_file_uris_without_accepting_remote_uris() {
    assert_eq!(
        file_uri_path_for("file:///C%3A/Users/test/My%20Project", true),
        Some(r"C:\Users\test\My Project".into())
    );
    assert_eq!(
        file_uri_path_for("file:///C:/Users/test/project", true),
        Some(r"C:\Users\test\project".into())
    );
    assert_eq!(
        file_uri_path_for("file://server/share/project", true),
        Some(r"\\server\share\project".into())
    );
    assert_eq!(
        file_uri_path_for("vscode-remote://ssh-remote+host/project", true),
        None
    );
    assert!(project_slug_matches_for(
        r"C:\Users\Test\Project",
        "c-users-test-project",
        true
    ));
}

#[test]
fn unix_file_uris_must_be_absolute() {
    assert_eq!(file_uri_path_for("file:///Users/a/b%20c", false), Some("/Users/a/b c".into()));
    assert_eq!(file_uri_path_for("file://host/x", false), None);
    assert_eq!(file_uri_path_for("/Users/a", false), None);
}

#[test]
fn percent_decoding_refuses_broken_escapes() {
    assert_eq!(percent_decode("a%20b"), Some("a b".into()));
    assert_eq!(percent_decode("%E4%B8%AD"), Some("中".into()));
    assert_eq!(percent_decode("%2"), None);
    assert_eq!(percent_decode("%zz"), None);
    assert_eq!(percent_decode("%FF"), None);
}

#[test]
fn slugs_compare_case_only_where_asked() {
    assert!(project_slug_matches_for("/Users/me/proj", "Users-me-proj", false));
    assert!(!project_slug_matches_for("/Users/me/proj", "users-me-proj", false));
    assert!(project_slug_matches_for("/Users/me/proj", "users-me-proj", true));
    assert!(project_slug_matches_for("C:/x/y", "C-x-y", false));
    assert!(project_slug_matches_for("C:/x/y", "C--x-y", false));
}

#[test]
fn ids_are_short_ascii_words() {
    assert!(valid_id("abc-DEF_1.2"));
    assert!(!valid_id(""));
    assert!(!valid_id("a/b"));
    assert!(!valid_id(&"x".repeat(161)));
    assert!(valid_id(&"x".repeat(160)));
}

#[test]
fn details_are_cut_to_two_hundred_characters() {
    let long = "中".repeat(250);
    assert_eq!(redact_detail(&long).chars().count(), 200);
    assert_eq!(redact_detail("ok"), "ok");
}
