use wormhole_gui::storage::{sanitize_filename, save_name_candidate, MAX_SAVE_ATTEMPTS};

#[test]
fn strips_path_traversal() {
    assert_eq!(sanitize_filename("../etc/passwd"), "passwd");
    assert_eq!(sanitize_filename("..\\..\\Windows\\evil.exe"), "evil.exe");
}

#[test]
fn replaces_reserved_chars() {
    assert_eq!(sanitize_filename("a:b|c?d.txt"), "a_b_c_d.txt");
}

#[test]
fn empty_falls_back() {
    assert_eq!(sanitize_filename(""), "untitled");
    assert_eq!(sanitize_filename("..."), "untitled");
}

#[test]
fn unicode_preserved() {
    assert_eq!(sanitize_filename("测试-中文_🔒.bin"), "测试-中文_🔒.bin");
}

#[test]
fn windows_reserved_prefixed() {
    assert_eq!(sanitize_filename("CON"), "_CON");
    assert_eq!(sanitize_filename("COM1.txt"), "_COM1.txt");
    // LPT without a digit is fine.
    assert_eq!(sanitize_filename("LPT.txt"), "LPT.txt");
}

#[test]
fn control_and_quote_characters_replaced() {
    assert_eq!(sanitize_filename("a\u{1}b\"c<d>e*f"), "a_b_c_d_e_f");
    assert_eq!(sanitize_filename("tab\there"), "tab_here");
}

#[test]
fn surrounding_dots_and_spaces_trimmed() {
    assert_eq!(sanitize_filename(" .hidden. "), "hidden");
    assert_eq!(sanitize_filename("dir/  name.txt  "), "name.txt");
    assert_eq!(sanitize_filename("dir/"), "untitled");
}

#[test]
fn reserved_names_ignore_case_and_extension() {
    assert_eq!(sanitize_filename("con.txt"), "_con.txt");
    assert_eq!(sanitize_filename("nul"), "_nul");
    assert_eq!(sanitize_filename("lpt12.log"), "_lpt12.log");
    assert_eq!(sanitize_filename("COM1x.txt"), "COM1x.txt");
    assert_eq!(sanitize_filename("CONSOLE"), "CONSOLE");
}

#[test]
fn long_names_capped_at_200_chars() {
    let long: String = std::iter::repeat('x').take(250).collect();
    let out = sanitize_filename(&long);
    assert_eq!(out.chars().count(), 200);
    assert!(out.chars().all(|c| c == 'x'));
    let wide: String = std::iter::repeat('中').take(201).collect();
    assert_eq!(sanitize_filename(&wide).chars().count(), 200);
}

#[test]
fn sanitized_names_never_hold_separators() {
    for input in ["a/b\\c", "/", "\\\\server\\share\\x.bin", "..", "a:b/c:d"] {
        let out = sanitize_filename(input);
        assert!(!out.is_empty());
        assert!(!out.contains('/') && !out.contains('\\') && !out.contains(':'));
    }
}

#[test]
fn save_names_number_the_stem() {
    assert_eq!(save_name_candidate("report.pdf", 0), "report.pdf");
    assert_eq!(save_name_candidate("report.pdf", 2), "report-2.pdf");
    assert_eq!(save_name_candidate("a/b.tar.gz", 3), "b.tar-3.gz");
    assert_eq!(save_name_candidate(".bashrc", 1), "bashrc-1");
    assert_eq!(save_name_candidate("noext", 10), "noext-10");
    assert_eq!(save_name_candidate("../x.txt", MAX_SAVE_ATTEMPTS), "x-999.txt");
}

#[test]
fn sanitising_twice_changes_nothing() {
    for s in ["../etc/passwd", "a:b|c?d.txt", "...", "CON", "COM1.txt", " .x. ", "测试-中文_🔒.bin", ""] {
        let once = sanitize_filename(s);
        assert_eq!(sanitize_filename(&once), once);
    }
}

#[test]
fn cutting_at_200_chars_can_leave_a_device_name() {
    // The name is not reserved before the cut ("COM1…1x"), but its first
    // 200 characters are "COM" followed by digits.
    let long = format!("COM{}x", "1".repeat(197));
    let cut = sanitize_filename(&long);
    assert_eq!(cut, format!("COM{}", "1".repeat(197)));
}
