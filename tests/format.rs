use rustdown::editorconfig::{glob_match, options_from_configs, parse_editorconfig};
use rustdown::format::{format_markdown, EndOfLine, FormatOptions};

#[test]
fn glob_match_basics() {
    assert!(glob_match("*", "a.md"));
    assert!(glob_match("*.md", "a.md"));
    assert!(!glob_match("*.md", "a.rs"));
    assert!(glob_match("foo*", "foobar"));
    assert!(glob_match("*bar", "foobar"));
    assert!(glob_match("f*bar", "foobar"));
}

#[test]
fn format_keeps_markdown_hardbreak() {
    let input = "a  \n";
    let got = format_markdown(
        input,
        FormatOptions {
            trim_trailing_whitespace: true,
            insert_final_newline: true,
            end_of_line: Some(EndOfLine::Lf),
        },
    );
    assert_eq!(got, input);
}

#[test]
fn format_does_not_trim_in_fenced_code() {
    let input = "```rs\nlet x = 1;   \n```\n";
    let got = format_markdown(
        input,
        FormatOptions {
            trim_trailing_whitespace: true,
            insert_final_newline: true,
            end_of_line: Some(EndOfLine::Lf),
        },
    );
    assert_eq!(got, input);
}

#[test]
fn format_converts_end_of_line() {
    let input = "a\nb\n";
    let got = format_markdown(
        input,
        FormatOptions {
            trim_trailing_whitespace: true,
            insert_final_newline: true,
            end_of_line: Some(EndOfLine::CrLf),
        },
    );
    assert_eq!(got, "a\r\nb\r\n");
}

#[test]
fn editorconfig_section_applies() {
    let cfg = parse_editorconfig(
        r#"
root = true

[*]
trim_trailing_whitespace = false

[*.md]
insert_final_newline = false
end_of_line = crlf
"#,
    );

    let mut opts = FormatOptions::default();
    cfg.apply("note.md", &mut opts);
    assert!(!opts.trim_trailing_whitespace);
    assert!(!opts.insert_final_newline);
    assert_eq!(opts.end_of_line, Some(EndOfLine::CrLf));
}

#[test]
fn editorconfig_brace_pattern_applies() {
    let cfg = parse_editorconfig(
        r#"
[*.{md,markdown}]
insert_final_newline = false
"#,
    );

    let mut opts = FormatOptions::default();
    cfg.apply("note.md", &mut opts);
    assert!(!opts.insert_final_newline);
}

#[test]
fn options_merge_parent_and_child_editorconfig() {
    let child = "\n[*.md]\ninsert_final_newline = false\n".to_owned();
    let parent = "\nroot = true\n\n[*]\ntrim_trailing_whitespace = false\n".to_owned();
    let above_root = "\n[*]\nend_of_line = crlf\n".to_owned();
    let opts = options_from_configs("note.md", &vec![child, parent, above_root]);
    assert!(!opts.trim_trailing_whitespace);
    assert!(!opts.insert_final_newline);
    assert_eq!(opts.end_of_line, None);
}

#[test]
fn nearer_editorconfig_wins() {
    let child = "[*]\nend_of_line = lf\n".to_owned();
    let parent = "[*]\nend_of_line = CRLF\n".to_owned();
    let opts = options_from_configs("x.md", &vec![child, parent]);
    assert_eq!(opts.end_of_line, Some(EndOfLine::Lf));
}

#[test]
fn format_trims_and_adds_final_newline() {
    let got = format_markdown("a \t\nb", FormatOptions::default());
    assert_eq!(got, "a\nb\n");
}

#[test]
fn format_keeps_detected_crlf_and_normalizes_lone_cr() {
    let got = format_markdown("a\r\nb\rc", FormatOptions::default());
    assert_eq!(got, "a\r\nb\r\nc\r\n");
}

#[test]
fn format_without_final_newline_leaves_end() {
    let opts = FormatOptions {
        trim_trailing_whitespace: false,
        insert_final_newline: false,
        end_of_line: None,
    };
    assert_eq!(format_markdown("x   ", opts), "x   ");
    assert_eq!(format_markdown("", opts), "");
}

#[test]
fn format_empty_document_gets_newline() {
    assert_eq!(format_markdown("", FormatOptions::default()), "\n");
}

#[test]
fn end_of_line_strings() {
    assert_eq!(EndOfLine::Lf.as_str(), "\n");
    assert_eq!(EndOfLine::CrLf.as_str(), "\r\n");
}

#[test]
fn glob_match_more_cases() {
    assert!(glob_match("README", "README"));
    assert!(!glob_match("README", "readme"));
    assert!(glob_match("**", "anything"));
    assert!(glob_match("a*b*c", "axxbyyc"));
    assert!(!glob_match("a*b*c", "axxbyy"));
    assert!(!glob_match("ab*ba", "aba"));
}

#[test]
fn editorconfig_ignores_comments_and_unknown_keys() {
    let cfg = parse_editorconfig("# c\n; c\n[*.md]\nindent_size = 4\ninsert_final_newline: FALSE\n");
    let mut opts = FormatOptions::default();
    cfg.apply("a.md", &mut opts);
    assert!(!opts.insert_final_newline);
    assert!(opts.trim_trailing_whitespace);
    let mut other = FormatOptions::default();
    cfg.apply("a.txt", &mut other);
    assert!(other.insert_final_newline);
}
