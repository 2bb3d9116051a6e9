use bmo_search::detail::{format_bug_detail, format_bug_detail_compact, format_bug_detail_markdown};
use bmo_search::model::{Bug, Comment, Flag, HistoryChange, HistoryEntry, OutputFormat};
use bmo_search::render::{
    format_bugs, format_bugs_compact, format_bugs_markdown, format_flags, Rendering,
};

fn make_bug(id: u64, summary: &str, status: &str, resolution: &str) -> Bug {
    Bug {
        id,
        summary: summary.into(),
        status: status.into(),
        resolution: resolution.into(),
        product: "Firefox".into(),
        component: "General".into(),
        severity: "S2".into(),
        priority: "P1".into(),
        assigned_to: "dev@mozilla.org".into(),
        keywords: vec![],
        last_change_time: "2025-03-15T12:00:00Z".into(),
        creation_time: "2025-01-01T00:00:00Z".into(),
        cf_crash_signature: String::new(),
        cf_webcompat_priority: String::new(),
        whiteboard: String::new(),
        bug_type: "defect".into(),
        url: String::new(),
        depends_on: vec![],
        blocks: vec![],
        see_also: vec![],
        dupe_of: None,
        duplicates: vec![],
        flags: vec![],
        comments: None,
    }
}

fn text(r: Rendering) -> String {
    match r {
        Rendering::Text(t) => t,
        _ => panic!("expected text"),
    }
}

#[test]
fn format_flags_empty() {
    assert_eq!(format_flags(&[]), "");
}

#[test]
fn format_flags_single() {
    let flags = vec![Flag { name: "needinfo".into(), status: "?".into(), requestee: None }];
    assert_eq!(format_flags(&flags), "needinfo?");
}

#[test]
fn format_flags_with_requestee() {
    let flags = vec![Flag {
        name: "needinfo".into(),
        status: "?".into(),
        requestee: Some("dev@mozilla.org".into()),
    }];
    assert_eq!(format_flags(&flags), "needinfo?(dev@mozilla.org)");
}

#[test]
fn format_flags_multiple() {
    let flags = vec![
        Flag { name: "review".into(), status: "+".into(), requestee: None },
        Flag { name: "needinfo".into(), status: "?".into(), requestee: None },
    ];
    assert_eq!(format_flags(&flags), "review+, needinfo?");
}

#[test]
fn format_bugs_compact_empty() {
    let output = format_bugs_compact(&[]);
    assert!(output.starts_with("FOUND 0 bugs"));
}

#[test]
fn format_bugs_compact_with_resolution() {
    let bug = make_bug(123, "test bug", "RESOLVED", "FIXED");
    let output = format_bugs_compact(&[bug]);
    assert!(output.contains("RESOLVED:FIXED"));
    assert!(output.contains("123"));
    assert!(output.contains("test bug"));
}

#[test]
fn format_bugs_compact_open() {
    let bug = make_bug(456, "open bug", "NEW", "");
    let output = format_bugs_compact(&[bug]);
    assert!(output.contains("|NEW|"));
    assert!(!output.contains("NEW:"));
}

#[test]
fn format_bugs_compact_exact() {
    let bugs = vec![make_bug(123, "test bug", "RESOLVED", "FIXED"), make_bug(7, "x", "NEW", "")];
    assert_eq!(
        format_bugs_compact(&bugs),
        "FOUND 2 bugs\nID|SEVERITY|STATUS|COMPONENT|SUMMARY|CHANGED\n\
         123|S2|RESOLVED:FIXED|Firefox::General|test bug|2025-03-15\n\
         7|S2|NEW|Firefox::General|x|2025-03-15\n"
    );
}

#[test]
fn format_bugs_compact_one_line_per_bug() {
    let bugs: Vec<Bug> = (0..5).map(|i| make_bug(i, "b", "NEW", "")).collect();
    assert_eq!(format_bugs_compact(&bugs).lines().count(), 7);
}

#[test]
fn format_bugs_markdown_has_table_header() {
    let output = format_bugs_markdown(&[]);
    assert!(output.contains("| Bug |"));
    assert!(output.contains("|--"));
}

#[test]
fn format_bugs_markdown_links_to_bugzilla() {
    let bug = make_bug(789, "linked bug", "NEW", "");
    let output = format_bugs_markdown(&[bug]);
    assert!(output.contains("https://bugzilla.mozilla.org/show_bug.cgi?id=789"));
}

#[test]
fn format_bugs_markdown_escapes_pipes() {
    let bug = make_bug(1, "summary | with pipe", "NEW", "");
    let output = format_bugs_markdown(&[bug]);
    assert!(output.contains("summary \\| with pipe"));
}

#[test]
fn format_bugs_markdown_exact() {
    let bug = make_bug(5, "a|b", "RESOLVED", "WONTFIX");
    assert_eq!(
        format_bugs_markdown(&[bug]),
        "Found **1** bugs\n\n\
         | Bug | Severity | Status | Component | Summary | Changed |\n\
         |-----|----------|--------|-----------|---------|---------|\n\
         | [5](https://bugzilla.mozilla.org/show_bug.cgi?id=5) | S2 | RESOLVED (WONTFIX) | Firefox::General | a\\|b | 2025-03-15 |\n"
    );
}

#[test]
fn format_bugs_chooses_the_format() {
    let bugs = vec![make_bug(1, "s", "NEW", "")];
    assert_eq!(text(format_bugs(&bugs, &OutputFormat::Compact)), format_bugs_compact(&bugs));
    assert_eq!(text(format_bugs(&bugs, &OutputFormat::Markdown)), format_bugs_markdown(&bugs));
    assert!(matches!(format_bugs(&bugs, &OutputFormat::Json), Rendering::Json));
}

#[test]
fn format_bug_detail_compact_basic() {
    let bug = make_bug(100, "detail bug", "NEW", "");
    let output = format_bug_detail_compact(&bug, &[]);
    assert!(output.contains("Bug 100 - detail bug"));
    assert!(output.contains("Status: NEW"));
    assert!(output.contains("Assignee: dev"));
    assert!(output.contains("Product: Firefox :: General"));
}

#[test]
fn format_bug_detail_compact_with_comments() {
    let mut bug = make_bug(100, "detail bug", "NEW", "");
    bug.comments = Some(vec![Comment {
        id: 1,
        text: "first comment".into(),
        creator: "user@mozilla.org".into(),
        creation_time: "2025-01-02T00:00:00Z".into(),
        count: 0,
    }]);
    let output = format_bug_detail_compact(&bug, &[]);
    assert!(output.contains("COMMENTS (1)"));
    assert!(output.contains("first comment"));
    assert!(output.contains("user"));
}

#[test]
fn format_bug_detail_compact_with_history() {
    let bug = make_bug(100, "detail bug", "NEW", "");
    let history = vec![HistoryEntry {
        when: "2025-02-01T00:00:00Z".into(),
        who: "editor@mozilla.org".into(),
        changes: vec![HistoryChange {
            field_name: "status".into(),
            removed: "NEW".into(),
            added: "ASSIGNED".into(),
        }],
    }];
    let output = format_bug_detail_compact(&bug, &history);
    assert!(output.contains("HISTORY (1 entries)"));
    assert!(output.contains("status: NEW -> ASSIGNED"));
}

fn full_bug() -> Bug {
    let mut bug = make_bug(42, "full", "RESOLVED", "DUPLICATE");
    bug.keywords = vec!["regression".into(), "crash".into()];
    bug.whiteboard = "[a|b]".into();
    bug.cf_crash_signature = "[@ foo]".into();
    bug.cf_webcompat_priority = "P2".into();
    bug.url = "https://example.com".into();
    bug.flags = vec![Flag { name: "needinfo".into(), status: "?".into(), requestee: Some("x@y".into()) }];
    bug.depends_on = vec![1, 2];
    bug.blocks = vec![3];
    bug.see_also = vec!["https://a".into()];
    bug.dupe_of = Some(9);
    bug.duplicates = vec![10, 11];
    bug.comments = Some(vec![Comment {
        id: 5,
        text: "hello".into(),
        creator: "c@d".into(),
        creation_time: "2025-01-02T03:04:05Z".into(),
        count: 0,
    }]);
    bug
}

fn full_history() -> Vec<HistoryEntry> {
    vec![HistoryEntry {
        when: "2025-02-01T00:00:00Z".into(),
        who: "editor@mozilla.org".into(),
        changes: vec![
            HistoryChange { field_name: "status".into(), removed: "".into(), added: "NEW".into() },
            HistoryChange { field_name: "cc".into(), removed: "a|b".into(), added: "".into() },
            HistoryChange { field_name: "s".into(), removed: "x".into(), added: "y".into() },
        ],
    }]
}

#[test]
fn format_bug_detail_compact_exact() {
    let expected = "Bug 42 - full\n\
Status: RESOLVED:DUPLICATE | Severity: S2 | Priority: P1\n\
Product: Firefox :: General\n\
Type: defect | Assignee: dev\n\
Created: 2025-01-01 | Changed: 2025-03-15\n\
Keywords: regression, crash\n\
Whiteboard: [a|b]\n\
Crash signature: [@ foo]\n\
Webcompat priority: P2\n\
URL: https://example.com\n\
Flags: needinfo?(x@y)\n\
Depends on: 1, 2\n\
Blocks: 3\n\
See also: https://a\n\
Duplicate of: 9\n\
Duplicates: 10, 11\n\
\n--- COMMENTS (1) ---\n\
\n[Comment #0] c (2025-01-02)\n\
hello\n\
\n--- HISTORY (1 entries) ---\n\
\n2025-02-01 - editor\n  status: +NEW\n  cc: -a|b\n  s: x -> y\n";
    assert_eq!(format_bug_detail_compact(&full_bug(), &full_history()), expected);
}

#[test]
fn format_bug_detail_markdown_exact() {
    let expected = "# Bug 42 - full\n\n\
| Field | Value |\n\
|-------|-------|\n\
| Status | RESOLVED (DUPLICATE) |\n\
| Severity | S2 |\n\
| Priority | P1 |\n\
| Product | Firefox :: General |\n\
| Type | defect |\n\
| Assignee | dev |\n\
| Created | 2025-01-01 |\n\
| Changed | 2025-03-15 |\n\
| Keywords | regression, crash |\n\
| Whiteboard | [a\\|b] |\n\
| Crash signature | `[@ foo]` |\n\
| Webcompat priority | P2 |\n\
| URL | https://example.com |\n\
| Flags | needinfo?(x@y) |\n\
| Depends on | [1](https://bugzilla.mozilla.org/show_bug.cgi?id=1), [2](https://bugzilla.mozilla.org/show_bug.cgi?id=2) |\n\
| Blocks | [3](https://bugzilla.mozilla.org/show_bug.cgi?id=3) |\n\
| See also | https://a |\n\
| Duplicate of | [9](https://bugzilla.mozilla.org/show_bug.cgi?id=9) |\n\
| Duplicates | [10](https://bugzilla.mozilla.org/show_bug.cgi?id=10), [11](https://bugzilla.mozilla.org/show_bug.cgi?id=11) |\n\
\n## Comments (1)\n\n\
### Comment #0 - c (2025-01-02)\n\n\
hello\n\n\
\n## History (1 entries)\n\n\
| Date | Who | Field | Removed | Added |\n\
|------|-----|-------|---------|-------|\n\
| 2025-02-01 | editor | status |  | NEW |\n\
| 2025-02-01 | editor | cc | a\\|b |  |\n\
| 2025-02-01 | editor | s | x | y |\n";
    assert_eq!(format_bug_detail_markdown(&full_bug(), &full_history()), expected);
}

#[test]
fn format_bug_detail_markdown_minimal() {
    let bug = make_bug(3, "m", "NEW", "");
    let out = format_bug_detail_markdown(&bug, &[]);
    assert!(out.starts_with("# Bug 3 - m\n\n| Field | Value |\n"));
    assert!(!out.contains("Keywords"));
    assert!(!out.contains("History"));
}

#[test]
fn format_bug_detail_json_includes_history() {
    let bug = make_bug(100, "json bug", "NEW", "");
    let history = vec![HistoryEntry {
        when: "2025-02-01T00:00:00Z".into(),
        who: "editor@mozilla.org".into(),
        changes: vec![],
    }];
    let output = format_bug_detail(&bug, &history, &OutputFormat::Json);
    assert!(matches!(output, Rendering::JsonWithHistory));
}

#[test]
fn format_bug_detail_json_no_history_key_when_empty() {
    let bug = make_bug(100, "json bug", "NEW", "");
    let output = format_bug_detail(&bug, &[], &OutputFormat::Json);
    assert!(matches!(output, Rendering::Json));
}

#[test]
fn format_bug_detail_chooses_the_format() {
    let bug = make_bug(1, "s", "NEW", "");
    assert_eq!(
        text(format_bug_detail(&bug, &[], &OutputFormat::Compact)),
        format_bug_detail_compact(&bug, &[])
    );
    assert_eq!(
        text(format_bug_detail(&bug, &[], &OutputFormat::Markdown)),
        format_bug_detail_markdown(&bug, &[])
    );
}

#[test]
fn format_bugs_markdown_one_row_per_bug() {
    let bugs: Vec<Bug> = (0..3).map(|i| make_bug(i, "a|b", "NEW", "")).collect();
    assert_eq!(format_bugs_markdown(&bugs).lines().count(), 7);
}
