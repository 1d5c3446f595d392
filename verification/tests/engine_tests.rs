use code_review_engine::diff::compute_line_changes;
use code_review_engine::{ChangeType, CodeAnalysisEngine, ComplexityMetrics};

#[test]
fn test_analysis_engine_creation() {
    let engine = CodeAnalysisEngine::new();
    assert_eq!(engine.config().max_concurrent_files, num_cpus::get());
}

#[test]
fn test_should_analyze_file() {
    let engine = CodeAnalysisEngine::new();

    assert!(engine.should_analyze_file("main.rs"));
    assert!(engine.should_analyze_file("script.py"));
    assert!(engine.should_analyze_file("app.js"));
    assert!(!engine.should_analyze_file("image.png"));
    assert!(!engine.should_analyze_file("README.md"));
}

#[test]
fn test_complexity_metrics() {
    let engine = CodeAnalysisEngine::new();
    let content = r#"
fn main() {
    if true {
        println!("Hello");
        if false {
            println!("World");
        }
    }
}
"#;

    let metrics = engine.compute_complexity_metrics("test.rs", content);
    assert!(metrics.lines_of_code > 0);
    assert!(metrics.function_count > 0);
    assert!(metrics.cyclomatic_complexity > 0);
}

#[test]
fn rust_source_metrics_are_exact() {
    let engine = CodeAnalysisEngine::new();
    let content = "fn a() {\n    if x {\n    }\n}\n// note\nfn b() {}\n";
    let m = engine.compute_complexity_metrics("src/lib.rs", content);
    assert_eq!(m.function_count, 2);
    assert_eq!(m.cyclomatic_complexity, 1);
    // named nodes start on rows 0, 1 and 5; anonymous tokens and the comment are left out
    assert_eq!(m.lines_of_code, 3);
    assert!(m.max_nesting_depth >= 3);
}

#[test]
fn unknown_extension_counts_lines_only() {
    let engine = CodeAnalysisEngine::new();
    let m = engine.compute_complexity_metrics("notes.txt", "one\ntwo\r\nthree");
    assert_eq!(
        m,
        ComplexityMetrics { cyclomatic_complexity: 0, lines_of_code: 3, function_count: 0, max_nesting_depth: 0 }
    );
    let m = engine.compute_complexity_metrics("Makefile", "all:\n\n");
    assert_eq!(m.lines_of_code, 2);
    assert_eq!(engine.compute_complexity_metrics("x.md", "").lines_of_code, 0);
}

#[test]
fn line_changes_follow_the_patience_diff() {
    let changes = compute_line_changes("a\nb\nc", "a\nb\nC").unwrap();
    let got: Vec<(Option<u32>, Option<u32>, ChangeType, String)> = changes
        .iter()
        .map(|c| (c.line_a, c.line_b, c.change_type, c.content.clone()))
        .collect();
    assert_eq!(
        got,
        vec![
            (Some(1), Some(1), ChangeType::Equal, "a".to_string()),
            (Some(2), Some(2), ChangeType::Equal, "b".to_string()),
            (Some(3), None, ChangeType::Removed, "c".to_string()),
            (None, Some(3), ChangeType::Added, "C".to_string()),
        ]
    );
}

#[test]
fn line_numbers_run_consecutively_on_each_side() {
    let changes = compute_line_changes("x\ny\nz\nw\n", "y\nnew1\nnew2\nw\n").unwrap();
    let old: Vec<u32> = changes.iter().filter_map(|c| c.line_a).collect();
    let new: Vec<u32> = changes.iter().filter_map(|c| c.line_b).collect();
    assert_eq!(old, vec![1, 2, 3, 4]);
    assert_eq!(new, vec![1, 2, 3, 4]);
    assert!(changes.iter().all(|c| c.change_type != ChangeType::Modified));
    assert!(changes.iter().all(|c| !c.content.ends_with('\n')));
}

#[test]
fn identical_texts_give_only_equal_lines() {
    let changes = compute_line_changes("one\ntwo\n", "one\ntwo\n").unwrap();
    assert_eq!(changes.len(), 2);
    assert!(changes.iter().all(|c| c.change_type == ChangeType::Equal));
    assert!(compute_line_changes("", "").unwrap().is_empty());
}

#[test]
fn file_change_carries_contents_lines_and_metrics() {
    let engine = CodeAnalysisEngine::new();
    let change = engine
        .analyze_file_change("src/main.py", "def f():\n    pass\n", "def f():\n    return 1\n")
        .unwrap();
    assert_eq!(change.file_path, "src/main.py");
    assert_eq!(change.old_content, "def f():\n    pass\n");
    assert_eq!(change.new_content, "def f():\n    return 1\n");
    assert_eq!(change.line_changes.len(), 3);
    assert_eq!(change.complexity.function_count, 0);
    assert!(change.complexity.lines_of_code >= 2);
}

#[test]
fn default_config_lists_the_supported_extensions() {
    let config = code_review_engine::AnalysisConfig::default();
    assert_eq!(
        config.supported_extensions,
        vec!["rs", "py", "js", "ts", "go", "java", "cpp", "c", "h", "tsx"]
    );
    assert_eq!(config.max_file_size, 1024 * 1024);
    assert!(!config.include_binary_files);
    assert!(config.max_concurrent_files >= 1);
}

#[test]
fn every_grammar_is_loaded_by_default() {
    let engine = CodeAnalysisEngine::new();
    let python = engine.compute_complexity_metrics("a.py", "if x:\n    pass\n");
    assert!(python.cyclomatic_complexity >= 1);
    let js = engine.compute_complexity_metrics("a.js", "function f() { if (x) {} }\n");
    assert_eq!(js.function_count, 1);
    assert!(js.cyclomatic_complexity >= 1);
    let ts = engine.compute_complexity_metrics("a.ts", "function f(): void {}\n");
    assert_eq!(ts.function_count, 1);
    let tsx = engine.compute_complexity_metrics("a.tsx", "function f() { return <div />; }\n");
    assert_eq!(tsx.function_count, 1);
    let go = engine.compute_complexity_metrics("a.go", "package main\n\nfunc f() {}\n");
    assert_eq!(go.function_count, 1);
    let rust = engine.compute_complexity_metrics("a.rs", "fn f() {}\n");
    assert_eq!(rust.function_count, 1);
}

#[test]
fn with_concurrency_sets_the_file_count() {
    let config = code_review_engine::AnalysisConfig::with_concurrency(3);
    assert_eq!(config.max_concurrent_files, 3);
    assert_eq!(config.max_file_size, 1024 * 1024);
    assert!(!config.include_binary_files);
    assert_eq!(config.supported_extensions.len(), 10);
    let default = code_review_engine::AnalysisConfig::default();
    assert_eq!(default.max_concurrent_files, num_cpus::get());
}

#[test]
fn each_side_of_the_diff_spells_its_text() {
    let old = "keep\ngone\nlast";
    let new = "keep\nadded\nlast\nmore\n";
    let changes = compute_line_changes(old, new).unwrap();
    let old_side: Vec<&str> =
        changes.iter().filter(|c| c.change_type != ChangeType::Added).map(|c| c.content.as_str()).collect();
    let new_side: Vec<&str> =
        changes.iter().filter(|c| c.change_type != ChangeType::Removed).map(|c| c.content.as_str()).collect();
    assert_eq!(old_side, old.lines().collect::<Vec<_>>());
    assert_eq!(new_side, new.lines().collect::<Vec<_>>());
    assert_eq!(changes.iter().filter_map(|c| c.line_a).max(), Some(3));
    assert_eq!(changes.iter().filter_map(|c| c.line_b).max(), Some(4));
}

#[test]
fn a_text_diffed_with_itself_is_numbered_line_by_line() {
    let text = "a\n\nb\nc";
    let changes = compute_line_changes(text, text).unwrap();
    assert_eq!(changes.len(), 4);
    for (i, c) in changes.iter().enumerate() {
        assert_eq!(c.change_type, ChangeType::Equal);
        assert_eq!(c.line_a, Some(i as u32 + 1));
        assert_eq!(c.line_b, Some(i as u32 + 1));
        assert_eq!(c.content, text.lines().nth(i).unwrap());
    }
}

#[test]
fn files_over_the_size_limit_are_not_analyzed() {
    let mut config = code_review_engine::AnalysisConfig::with_concurrency(1);
    config.max_file_size = 4;
    let engine = CodeAnalysisEngine::with_config(config);
    assert!(engine.contents_within_size_limit("abcd", ""));
    assert!(!engine.contents_within_size_limit("abcd", "abcde"));
    assert!(!engine.contents_within_size_limit("é€", "a"));
}

#[test]
fn complexity_is_that_of_the_parsed_tree() {
    let engine = CodeAnalysisEngine::default();
    let m = engine.compute_complexity_metrics("main.go", "package main\n\n// c\nfunc a() {\n\tif x {\n\t}\n}\n");
    assert_eq!(m.function_count, 1);
    assert_eq!(m.cyclomatic_complexity, 1);
    assert!(m.lines_of_code >= 3);
    let change = engine.analyze_file_change("main.go", "", "package main\n\nfunc a() {}\n").unwrap();
    assert_eq!(change.complexity, engine.compute_complexity_metrics("main.go", "package main\n\nfunc a() {}\n"));
}

#[test]
fn small_texts_always_give_line_changes() {
    assert!(compute_line_changes("a\n", "b\n").is_some());
    let engine = CodeAnalysisEngine::new();
    assert!(engine.analyze_file_change("x.rs", "a\n", "b\n").is_some());
}

#[test]
fn empty_source_is_a_single_root() {
    let engine = CodeAnalysisEngine::new();
    let m = engine.compute_complexity_metrics("a.rs", "");
    assert_eq!(m.lines_of_code, 1);
    assert_eq!(m.max_nesting_depth, 0);
}
