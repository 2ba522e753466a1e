use rustdown::editing::{
    default_image_uri_scheme,
    find_match_count, first_markdown_path, is_markdown_path, replace_all_occurrences,
    save_trigger_from_shortcut, suggested_html_file_name, DocumentStats, Mode, SaveTrigger,
    SearchState,
};

#[test]
fn markdown_path_helpers_cover_detection_selection_and_html_name() {
    assert!(is_markdown_path("note.md"));
    assert!(is_markdown_path("README.Markdown"));
    assert!(!is_markdown_path("notes.txt"));
    assert!(!is_markdown_path("README"));
    let files = vec![
        "notes.txt".to_owned(),
        "chapter.markdown".to_owned(),
        "later.md".to_owned(),
    ];
    assert_eq!(first_markdown_path(&files), Some("chapter.markdown".to_owned()));
    assert_eq!(suggested_html_file_name(Some("/tmp/readme.md")), "readme.html");
    assert_eq!(suggested_html_file_name(None), "document.html");
}

#[test]
fn search_and_replace_helpers_handle_empty_and_replacement_cases() {
    assert_eq!(find_match_count("abc abc", ""), 0);
    let (text, replaced) = replace_all_occurrences("alpha beta alpha", "alpha", "zeta");
    assert_eq!(text.as_str(), "zeta beta zeta");
    assert_eq!(replaced, 2);
    let (text, replaced) = replace_all_occurrences("alpha beta", "alpha", "alpha");
    assert_eq!(text.as_str(), "alpha beta");
    assert_eq!(replaced, 0);

    let mut search = SearchState {
        query: "alpha".to_owned(),
        ..Default::default()
    };
    assert_eq!(search.match_count("alpha beta alpha", 1), 2);
    assert_eq!(search.match_count("alpha beta alpha", 1), 2);
    search.query = "beta".to_owned();
    assert_eq!(search.match_count("alpha beta alpha", 1), 1);
    assert_eq!(search.match_count("alpha beta alpha", 2), 1);
}

#[test]
fn document_stats_cover_empty_and_populated_text() {
    let stats = DocumentStats::from_text("one two\nthree");
    assert_eq!(stats.words, 3);
    assert_eq!(stats.chars, 13);
    assert_eq!(stats.lines, 2);
    assert_eq!(stats.reading_minutes(), 1);

    let unicode_stats = DocumentStats::from_text("héllo 世界\n🙂");
    assert_eq!(unicode_stats.words, 3);
    assert_eq!(unicode_stats.chars, 10);
    assert_eq!(unicode_stats.lines, 2);

    let empty_stats = DocumentStats::from_text("");
    assert_eq!(empty_stats, DocumentStats::default());
    assert_eq!(empty_stats.reading_minutes(), 0);
}

#[test]
fn save_trigger_follows_shortcut() {
    assert_eq!(save_trigger_from_shortcut(true, false, true), Some(SaveTrigger::Save));
    assert_eq!(save_trigger_from_shortcut(true, true, true), Some(SaveTrigger::SaveAs));
    assert_eq!(save_trigger_from_shortcut(false, false, true), None);
    assert_eq!(save_trigger_from_shortcut(true, false, false), None);
}

#[test]
fn matches_do_not_overlap() {
    assert_eq!(find_match_count("aaaa", "aa"), 2);
    assert_eq!(find_match_count("aaa", "aa"), 1);
    let (text, n) = replace_all_occurrences("aaa", "aa", "b");
    assert_eq!(text, "ba");
    assert_eq!(n, 1);
    let (text, n) = replace_all_occurrences("abc", "x", "y");
    assert_eq!(text, "abc");
    assert_eq!(n, 0);
}

#[test]
fn reading_minutes_round_up() {
    let s = DocumentStats { words: 201, chars: 0, lines: 1 };
    assert_eq!(s.reading_minutes(), 2);
    let s = DocumentStats { words: 400, chars: 0, lines: 1 };
    assert_eq!(s.reading_minutes(), 2);
}

#[test]
fn stats_count_vertical_tab_only_outside_ascii() {
    assert_eq!(DocumentStats::from_text("a\u{b}b").words, 1);
    assert_eq!(DocumentStats::from_text("é\u{b}b").words, 2);
}

#[test]
fn modes_cycle_and_label() {
    assert_eq!(Mode::default(), Mode::Edit);
    assert_eq!(Mode::Edit.cycle(), Mode::Preview);
    assert_eq!(Mode::Preview.cycle(), Mode::SideBySide);
    assert_eq!(Mode::SideBySide.cycle(), Mode::Edit);
    assert_eq!(Mode::SideBySide.label(), "Side-by-side");
    assert_eq!(Mode::Edit.label(), "Edit");
}

#[test]
fn html_name_edge_cases() {
    assert_eq!(suggested_html_file_name(Some("notes/")), "notes.html");
    assert_eq!(suggested_html_file_name(Some(".hidden")), ".hidden.html");
    assert_eq!(suggested_html_file_name(Some("/")), "document.html");
    assert!(!is_markdown_path(".md"));
    assert!(is_markdown_path("dir/a.b.MD"));
}

#[test]
fn image_uri_scheme_uses_document_directory() {
    assert_eq!(default_image_uri_scheme(None), "file://");
    assert_eq!(default_image_uri_scheme(Some("/tmp/docs")), "file:///tmp/docs/");
    assert_eq!(default_image_uri_scheme(Some("C:\\docs\\")), "file:///C:/docs/");
    assert_eq!(default_image_uri_scheme(Some("")), "file:///");
}

#[test]
fn version_is_reported() {
    assert_eq!(rustdown::editing::app_version(), "0.1.0");
}
