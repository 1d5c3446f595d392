use code_review_engine::ordering::{distinct_sorted_texts, sort_texts};
use code_review_engine::presentation::{
    category_badge, change_marker, count_change_type, is_hidden_line, line_number_label, severity_badge,
};
use code_review_engine::suggestions::{count_with_severity, generate_recommendations, group_suggestions_by_file};
use code_review_engine::syntax::{metrics_from_nodes, SyntaxNode};
use code_review_engine::{ChangeType, CodeChange, CodeSuggestion, ComplexityMetrics, LineChange};

fn node(kind: &str, named: bool, row: usize, depth: u32) -> SyntaxNode {
    SyntaxNode { kind: kind.to_string(), is_named: named, start_row: row, depth }
}

#[test]
fn metrics_skip_excluded_subtrees() {
    let nodes = vec![
        node("source_file", true, 0, 0),
        node("function_item", true, 0, 1),
        node("block", true, 1, 2),
        node("if_expression", true, 2, 3),
        node("{", false, 3, 2),
        node("identifier", true, 9, 3),
        node("line_comment", true, 4, 1),
        node("identifier", true, 5, 2),
        node("function_declaration", true, 6, 1),
        node("while_statement", true, 6, 2),
    ];
    let m = metrics_from_nodes(&nodes);
    assert_eq!(m.function_count, 2);
    assert_eq!(m.cyclomatic_complexity, 2);
    assert_eq!(m.max_nesting_depth, 3);
    // rows 0, 1, 2 and 6: the anonymous node and the comment take their subtrees with them
    assert_eq!(m.lines_of_code, 4);
}

#[test]
fn metrics_of_no_nodes_are_zero() {
    let m = metrics_from_nodes(&vec![]);
    assert_eq!(
        m,
        ComplexityMetrics { cyclomatic_complexity: 0, lines_of_code: 0, function_count: 0, max_nesting_depth: 0 }
    );
}

fn line(a: Option<u32>, b: Option<u32>, t: ChangeType, content: &str) -> LineChange {
    LineChange { line_a: a, line_b: b, change_type: t, content: content.to_string() }
}

fn change(path: &str, lines: Vec<LineChange>) -> CodeChange {
    CodeChange {
        file_path: path.to_string(),
        old_content: String::new(),
        new_content: String::new(),
        line_changes: lines,
        complexity: ComplexityMetrics { cyclomatic_complexity: 0, lines_of_code: 0, function_count: 0, max_nesting_depth: 0 },
    }
}

#[test]
fn recommendations_without_analysis() {
    let r = generate_recommendations(&None);
    assert_eq!(r.code_suggestions.len(), 1);
    let s = &r.code_suggestions[0];
    assert_eq!(s.file_path, "README.md");
    assert_eq!(s.lines, vec![1]);
    assert_eq!(s.category, "add");
    assert_eq!(s.improvement_type, "documentation");
    assert_eq!(s.severity, "low");
    assert_eq!(
        r.overall_assessment,
        "No specific code changes were analyzed. Consider running the analysis on a pull request with actual changes."
    );
    let r = generate_recommendations(&Some(vec![]));
    assert_eq!(r.code_suggestions[0].file_path, "README.md");
}

#[test]
fn recommendations_follow_extensions_and_changed_lines() {
    let analysis = vec![
        change(
            "src/engine/core.rs",
            vec![
                line(Some(1), Some(1), ChangeType::Equal, "a"),
                line(Some(2), None, ChangeType::Removed, "b"),
                line(None, Some(2), ChangeType::Added, "c"),
                line(None, Some(3), ChangeType::Added, "d"),
                line(None, Some(4), ChangeType::Added, "e"),
            ],
        ),
        change("web/app.ts", vec![line(Some(1), Some(1), ChangeType::Equal, "x")]),
        change("tool.py", vec![]),
        change("docs/guide.md", vec![]),
    ];
    let r = generate_recommendations(&Some(analysis));
    assert_eq!(r.code_suggestions.len(), 3);
    let rs = &r.code_suggestions[0];
    assert_eq!(rs.lines, vec![2, 2, 3]);
    assert_eq!(rs.category, "modify");
    assert_eq!(rs.improvement_type, "performance");
    assert_eq!(rs.severity, "high");
    assert_eq!(
        rs.comments,
        "Consider optimizing the implementation in core.rs. The current approach could be more efficient."
    );
    assert_eq!(
        rs.reasoning,
        "Analysis of src/engine/core.rs shows potential performance improvements. Consider using more efficient algorithms or data structures where applicable."
    );
    let ts = &r.code_suggestions[1];
    assert_eq!(ts.lines, vec![1]);
    assert_eq!(ts.category, "add");
    assert_eq!(ts.improvement_type, "error_handling");
    assert_eq!(ts.comments, "Add proper error handling in app.ts");
    let py = &r.code_suggestions[2];
    assert_eq!(py.improvement_type, "code_quality");
    assert_eq!(py.severity, "low");
    assert_eq!(py.comments, "Consider following Python best practices in tool.py");
    assert!(r.overall_assessment.starts_with("Analysis of 4 file(s) shows generally good code structure."));
}

#[test]
fn other_files_get_maintainability_suggestions() {
    let r = generate_recommendations(&Some(vec![change("Makefile", vec![]), change("b.rs", vec![])]));
    assert_eq!(r.code_suggestions[0].improvement_type, "maintainability");
    assert_eq!(r.code_suggestions[0].comments, "Review the changes in Makefile for maintainability");
    assert_eq!(r.code_suggestions[1].severity, "medium");
}

fn suggestion(path: &str, severity: &str) -> CodeSuggestion {
    CodeSuggestion {
        file_path: path.to_string(),
        lines: vec![1],
        category: "add".to_string(),
        improvement_type: "x".to_string(),
        severity: severity.to_string(),
        comments: String::new(),
        reasoning: String::new(),
    }
}

#[test]
fn suggestions_are_grouped_by_file_in_order() {
    let s = vec![
        suggestion("src/b.rs", "high"),
        suggestion("src/a.rs", "low"),
        suggestion("src/b.rs", "high"),
        suggestion("README.md", "medium"),
    ];
    let groups = group_suggestions_by_file(&s);
    let paths: Vec<&str> = groups.iter().map(|g| g.file_path.as_str()).collect();
    assert_eq!(paths, vec!["README.md", "src/a.rs", "src/b.rs"]);
    assert_eq!(groups[0].indices, vec![3]);
    assert_eq!(groups[1].indices, vec![1]);
    assert_eq!(groups[2].indices, vec![0, 2]);
    assert_eq!(count_with_severity(&s, &groups[2].indices, "high"), 2);
    assert_eq!(count_with_severity(&s, &groups[2].indices, "low"), 0);
    assert!(group_suggestions_by_file(&vec![]).is_empty());
}

#[test]
fn sorting_strings() {
    let v: Vec<String> = ["b/x", "a/y", "b/x", "C", "a"].iter().map(|s| s.to_string()).collect();
    let mut expected = v.clone();
    expected.sort();
    assert_eq!(sort_texts(v.clone()), expected);
    expected.dedup();
    assert_eq!(distinct_sorted_texts(&v), expected);
}

#[test]
fn line_presentation() {
    assert_eq!(change_marker(ChangeType::Added), "+");
    assert_eq!(change_marker(ChangeType::Removed), "-");
    assert_eq!(change_marker(ChangeType::Modified), "~");
    assert_eq!(change_marker(ChangeType::Equal), " ");
    assert_eq!(line_number_label(Some(3), Some(12)), format!("{:4}:{:4}", 3, 12));
    assert_eq!(line_number_label(Some(7), None), format!("{:4}:    ", 7));
    assert_eq!(line_number_label(None, Some(12345)), format!("    {:4}", 12345));
    assert_eq!(line_number_label(None, None), "        ");
    assert!(is_hidden_line(&line(Some(1), Some(1), ChangeType::Equal, "  \t")));
    assert!(!is_hidden_line(&line(Some(1), None, ChangeType::Removed, "")));
    assert!(!is_hidden_line(&line(Some(1), Some(1), ChangeType::Equal, " x")));
    let lines = vec![
        line(None, Some(1), ChangeType::Added, "a"),
        line(None, Some(2), ChangeType::Added, "b"),
        line(Some(1), None, ChangeType::Removed, "c"),
    ];
    assert_eq!(count_change_type(&lines, ChangeType::Added), 2);
    assert_eq!(count_change_type(&lines, ChangeType::Removed), 1);
    assert_eq!(count_change_type(&lines, ChangeType::Modified), 0);
}

#[test]
fn badges() {
    assert_eq!(severity_badge("critical"), ((220, 53, 69), "🚨"));
    assert_eq!(severity_badge("high"), ((218, 54, 51), "⚠️"));
    assert_eq!(severity_badge("medium"), ((255, 193, 7), "⚡"));
    assert_eq!(severity_badge("other"), ((108, 117, 125), "ℹ️"));
    assert_eq!(category_badge("add"), ((46, 160, 67), "➕"));
    assert_eq!(category_badge("remove"), ((218, 54, 51), "❌"));
    assert_eq!(category_badge("?"), ((108, 117, 125), "📝"));
}

#[test]
fn sorting_does_not_depend_on_input_order() {
    let a: Vec<String> = ["m", "b", "z", "b"].iter().map(|s| s.to_string()).collect();
    let b: Vec<String> = ["z", "b", "b", "m"].iter().map(|s| s.to_string()).collect();
    assert_eq!(sort_texts(a), sort_texts(b));
}

#[test]
fn a_comment_root_counts_no_line() {
    let nodes = vec![node("line_comment", true, 0, 0), node("identifier", true, 1, 1), node("block", true, 2, 2)];
    let m = metrics_from_nodes(&nodes);
    assert_eq!(m.lines_of_code, 0);
    assert_eq!(m.max_nesting_depth, 2);
}
