use keylog_core::label::{extract_after_last_hyphen, filter_windows_filename};

#[test]
fn report_title_yields_application_label() {
    let sanitized = filter_windows_filename("Report.docx - Microsoft Word");
    assert_eq!(sanitized, "Report.docx - Microsoft Word");
    assert_eq!(extract_after_last_hyphen(&sanitized), "Microsoft Word");
}

#[test]
fn illegal_path_characters_are_stripped() {
    assert_eq!(filter_windows_filename("a<b>c:d\"e/f\\g|h?i*j"), "abcdefghij");
    assert_eq!(filter_windows_filename(""), "");
    assert_eq!(filter_windows_filename("???"), "");
}

#[test]
fn sanitizing_keeps_ordinary_text() {
    assert_eq!(filter_windows_filename("key_log 12.txt"), "key_log 12.txt");
}

#[test]
fn last_hyphen_wins() {
    assert_eq!(extract_after_last_hyphen("a - b - Notepad"), "Notepad");
}

#[test]
fn em_dash_also_cuts() {
    assert_eq!(extract_after_last_hyphen("Draft \u{2014} Emacs"), "Emacs");
}

#[test]
fn suffix_is_trimmed_then_reduced_to_label_characters() {
    // After the dash: "  B2.txt " -> trimmed "B2.txt" -> letters only.
    assert_eq!(extract_after_last_hyphen("A -  B2.txt "), "Btxt");
}

#[test]
fn without_a_dash_the_whole_title_is_reduced_untrimmed() {
    assert_eq!(extract_after_last_hyphen("Notepad"), "Notepad");
    assert_eq!(extract_after_last_hyphen(" My App 2"), " My App ");
}

#[test]
fn dash_at_the_end_yields_empty_label() {
    assert_eq!(extract_after_last_hyphen("untitled -"), "");
}

#[test]
fn underscores_and_spaces_survive_the_label() {
    assert_eq!(extract_after_last_hyphen("x - my_editor v2"), "my_editor v");
}
