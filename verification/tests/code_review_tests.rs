use automation::code_review::{
    code_review_config, default_report_path, determine_analyze_dir, entry_allowed, find_design_issues,
    generate_report, is_common_pattern, is_supported_file, issues_of_file, longest_files, parse_exclude_list,
    sort_longest_first, DesignIssue, DuplicationFinding, FileInfo,
};
use automation::duplication::find_duplications;
use automation::workspace_config::AgentConfig as AgentSettings;

fn file(path: &str, content: &str) -> FileInfo {
    FileInfo::new(path.to_string(), content.to_string())
}

#[test]
fn file_lines_are_counted_as_str_lines_does() {
    assert_eq!(file("a.rs", "").line_count, 0);
    assert_eq!(file("a.rs", "one").line_count, 1);
    assert_eq!(file("a.rs", "one\ntwo\n").line_count, 2);
    assert_eq!(file("a.rs", "one\r\ntwo\n\n").line_count, 3);
}

#[test]
fn boilerplate_blocks() {
    assert!(is_common_pattern("use std::fs;\nuse serde::Serialize;"));
    assert!(is_common_pattern("  impl Foo {"));
    assert!(!is_common_pattern("use std::fs;\nlet x = 1;"));
}

#[test]
fn unwrap_todo_and_missing_docs_are_found() {
    let f = file("src/x.rs", "pub fn undocumented() {\n    let v = thing().unwrap();\n    // TODO: tidy this\n}\n");
    let issues = issues_of_file(&f);
    let types: Vec<&str> = issues.iter().map(|i| i.issue_type.as_str()).collect();
    assert!(types.contains(&"Unfinished Work"));
    assert!(types.contains(&"Potential Panic Risk"));
    assert!(types.contains(&"Missing Documentation"));
    let todo = issues.iter().find(|i| i.issue_type == "Unfinished Work").unwrap();
    assert_eq!(todo.description, "// TODO: tidy this");
    assert_eq!(todo.line_number, Some(3));
    let unwrap = issues.iter().find(|i| i.issue_type == "Potential Panic Risk").unwrap();
    assert_eq!(unwrap.line_number, Some(2));
}

#[test]
fn documented_functions_are_not_reported() {
    let f = file("src/x.rs", "/// Does it.\npub fn documented() {}\n");
    let issues = issues_of_file(&f);
    assert!(issues.iter().all(|i| i.issue_type != "Missing Documentation"));
}

#[test]
fn long_files_are_reported() {
    let content = "let a = 1;\n".repeat(501);
    let f = file("big.rs", &content);
    let issues = issues_of_file(&f);
    let long = issues.iter().find(|i| i.issue_type == "Long File").unwrap();
    assert_eq!(long.description, "File has 501 lines, which may indicate multiple responsibilities");
    assert_eq!(long.line_number, None);
}

#[test]
fn design_issues_are_ordered_by_severity() {
    let files = vec![
        file("a.rs", "// TODO: later\n"),
        file("b.rs", "fn f() { x.unwrap(); }\n"),
    ];
    let issues = find_design_issues(&files);
    assert_eq!(issues.len(), 2);
    assert_eq!(issues[0].issue_type, "Potential Panic Risk");
    assert_eq!(issues[1].issue_type, "Unfinished Work");
}

#[test]
fn exclude_list_is_trimmed() {
    assert_eq!(parse_exclude_list("target, node_modules ,.git"), vec!["target", "node_modules", ".git"]);
}

#[test]
fn walk_filters() {
    let exclude = vec!["target".to_string()];
    assert!(!entry_allowed("target", true, &exclude));
    assert!(!entry_allowed("my-target-dir", true, &exclude));
    assert!(entry_allowed("target", false, &exclude));
    assert!(!entry_allowed(".git", true, &exclude));
    assert!(entry_allowed(".gitignore", false, &exclude));
    assert!(entry_allowed("src", true, &exclude));
}

#[test]
fn supported_files() {
    assert!(is_supported_file("main.rs"));
    assert!(is_supported_file("Cargo.toml"));
    assert!(is_supported_file("run.ps1"));
    assert!(!is_supported_file("image.png"));
    assert!(!is_supported_file("Makefile"));
}

#[test]
fn analyze_dir_and_report_path() {
    assert_eq!(determine_analyze_dir(None, "/ws"), "/ws");
    assert_eq!(determine_analyze_dir(Some("/x".to_string()), "/ws"), "/x");
    assert_eq!(default_report_path("20240101-000000"), "./reports/code-review-20240101-000000.md");
}

#[test]
fn code_review_settings() {
    let settings = AgentSettings::default_code_review();
    let c = code_review_config("/etc/c.toml", "/ws".to_string(), ".state", &settings);
    assert_eq!(c.workspace_path, "/ws");
    assert_eq!(c.state_dir, "/ws/.state");
    assert_eq!(c.interval_minutes, settings.interval_minutes);
}

#[test]
fn longest_files_come_first() {
    let files = vec![
        file("a", "1\n"),
        file("b", "1\n2\n3\n"),
        file("c", "1\n2\n"),
        file("d", "1\n2\n3\n4\n"),
        file("e", ""),
        file("f", "1\n2\n3\n4\n5\n"),
    ];
    let sorted = sort_longest_first(&files);
    let names: Vec<&str> = sorted.iter().map(|f| f.path.as_str()).collect();
    assert_eq!(names, vec!["f", "d", "b", "c", "a", "e"]);
    let top = longest_files(&files);
    assert_eq!(top.len(), 5);
    assert_eq!(top[0].path, "f");
    assert!(top.iter().all(|f| f.path != "e"));
}

#[test]
fn files_of_equal_length_keep_their_order() {
    let files = vec![
        file("p", "1\n2\n"),
        file("q", "1\n"),
        file("r", "1\n2\n"),
        file("s", "1\n2\n"),
        file("t", "1\n2\n"),
        file("u", "1\n2\n"),
        file("v", "1\n2\n3\n"),
    ];
    let top = longest_files(&files);
    let names: Vec<&str> = top.iter().map(|f| f.path.as_str()).collect();
    assert_eq!(names, vec!["v", "p", "r", "s", "t"]);
}

#[test]
fn report_sections() {
    let longest = vec![file("src/big.rs", "a\nb\n")];
    let dups = vec![DuplicationFinding {
        pattern: "let x = 1;".to_string(),
        files: vec![("a.rs".to_string(), 1, 2), ("b.rs".to_string(), 3, 4)],
        line_count: 2,
    }];
    let issues = vec![DesignIssue {
        file_path: "src/big.rs".to_string(),
        issue_type: "Potential Panic Risk".to_string(),
        description: "Using .unwrap() which will panic if the Result/Option is None/Err".to_string(),
        line_number: Some(7),
        recommendation: "Use proper error handling with ? operator or match statement".to_string(),
    }];
    let r = generate_report("2024-01-01 00:00:00 UTC", "/ws", &longest, &dups, &issues);
    assert!(r.starts_with("# Code Review Report\n\n**Generated:** 2024-01-01 00:00:00 UTC\n\n**Analyzed Directory:** `/ws`\n\n---\n\n"));
    assert!(r.contains("| Longest File | 2 lines (src/big.rs) |\n"));
    assert!(r.contains("| Duplication Patterns | 1 |\n"));
    assert!(r.contains("| Design Issues | 1 |\n"));
    assert!(r.contains("Found 1 duplication patterns."));
    assert!(r.contains("- **Panic Risks:**"));
    assert!(!r.contains("- **Documentation:**"));
    assert!(r.ends_with("*This report was generated by the Code Review Agent for the automation-rust project.*\n"));
}

#[test]
fn empty_report_has_no_recommendations() {
    let r = generate_report("t", "/d", &Vec::new(), &Vec::new(), &Vec::new());
    assert!(r.contains("| Longest File | 0 lines (N/A) |\n"));
    assert!(r.ends_with("## 4. Recommendations\n\n---\n\n*This report was generated by the Code Review Agent for the automation-rust project.*\n"));
}

const SHARED: &str = "let alpha = compute(1);\nlet beta = compute(2);\nlet gamma = alpha + beta;\nprintln!(\"{}\", gamma);\nreturn gamma * 2;";

#[test]
fn blocks_repeated_across_files_are_found() {
    let files = vec![file("a.rs", SHARED), file("b.rs", SHARED)];
    let found = find_duplications(&files);
    assert_eq!(found.len(), 1);
    assert_eq!(found[0].pattern, SHARED);
    assert_eq!(found[0].line_count, 5);
    assert_eq!(found[0].files, vec![("a.rs".to_string(), 1, 5), ("b.rs".to_string(), 1, 5)]);
}

#[test]
fn blocks_repeated_in_one_file_only_are_not_findings() {
    let twice = format!("{}\n{}", SHARED, SHARED);
    let files = vec![file("a.rs", &twice), file("b.rs", "fn other() {}\n")];
    assert!(find_duplications(&files).is_empty());
}

#[test]
fn short_and_boilerplate_blocks_are_ignored() {
    let short = "a\nb\nc\nd\ne";
    let boiler = "use std::fs;\nuse std::io;\nuse std::path::PathBuf;\nuse serde::Serialize;\nuse chrono::Utc;";
    let files = vec![file("a.rs", short), file("b.rs", short), file("c.rs", boiler), file("d.rs", boiler)];
    assert!(find_duplications(&files).is_empty());
}

#[test]
fn longer_files_give_one_block_per_window() {
    let six = format!("{}\nextra line here", SHARED);
    let files = vec![file("a.rs", &six), file("b.rs", SHARED)];
    let found = find_duplications(&files);
    assert_eq!(found.len(), 1);
    assert_eq!(found[0].files, vec![("a.rs".to_string(), 1, 5), ("b.rs".to_string(), 1, 5)]);
}
