use cursor_cleaner::tools::{lines_of, parse_lsof, parse_pgrep};

fn lines(s: &str) -> Vec<String> {
    lines_of(s).into_iter().map(|l| l.into_iter().collect()).collect()
}

#[test]
fn lines_follow_str_lines() {
    for text in ["", "\n", "a", "a\n", "a\r\nb", "a\n\nb\n", "x\r", "\r\n\r\n", "中\r\n文"] {
        let expected: Vec<String> = text.lines().map(str::to_string).collect();
        assert_eq!(lines(text), expected, "text = {text:?}");
    }
}

#[test]
fn pgrep_lines_name_process_and_pid() {
    let out = "123 /Applications/Cursor.app/Contents/MacOS/Cursor --type=gpu\n  456\n\n789\tHelper\u{3000}x\n";
    assert_eq!(
        parse_pgrep(out),
        [
            "/Applications/Cursor.app/Contents/MacOS/Cursor (PID 123)",
            "Cursor (PID 456)",
            "Helper (PID 789)",
        ]
    );
    assert!(parse_pgrep("").is_empty());
}

#[test]
fn lsof_holders_are_sorted_and_unique() {
    let out = "p42\ncCursor\nf12\np7\ncCursor Helper\ncCursor Helper\np42\ncCursor\n";
    assert_eq!(parse_lsof(out), ["Cursor (PID 42)", "Cursor Helper (PID 7)"]);
    assert_eq!(parse_lsof("cNoPid\n"), ["NoPid (PID )"]);
    assert!(parse_lsof("").is_empty());
}
