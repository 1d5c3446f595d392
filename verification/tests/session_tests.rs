use code_review_engine::github::{
    clone_url, filter_repositories, org_repos_url, pull_request_entries, pull_request_label, pull_url,
    pulls_url, user_repos_url,
};
use code_review_engine::token::{decode_token, encode_token};
use code_review_engine::{AnalysisTab, PullRequest, PullRequestHead, Session};

#[test]
fn github_addresses() {
    assert_eq!(pulls_url("me/repo"), "https://api.github.com/repos/me/repo/pulls?state=open&per_page=100");
    assert_eq!(pull_url("me/repo", 42), "https://api.github.com/repos/me/repo/pulls/42");
    assert_eq!(clone_url("me/repo"), "https://github.com/me/repo.git");
    assert_eq!(user_repos_url(3), "https://api.github.com/user/repos?per_page=100&page=3&sort=updated");
    assert_eq!(org_repos_url("acme", 1), "https://api.github.com/orgs/acme/repos?per_page=100&page=1&sort=updated");
    assert_eq!(pull_request_label(7, "Fix it"), "#7 Fix it");
}

#[test]
fn repositories_are_filtered_ignoring_case() {
    let repos: Vec<String> = ["Acme/Tools", "me/notes", "acme/web"].iter().map(|s| s.to_string()).collect();
    let shown = filter_repositories(&repos, "ACME");
    assert_eq!(shown, vec![(0, "Acme/Tools".to_string()), (2, "acme/web".to_string())]);
    assert_eq!(filter_repositories(&repos, "").len(), 3);
    assert!(filter_repositories(&repos, "zzz").is_empty());
}

fn pr(number: u32, title: &str) -> PullRequest {
    PullRequest { number, title: title.to_string(), head: PullRequestHead { sha: "abc".to_string() } }
}

#[test]
fn pull_requests_become_entries() {
    let entries = pull_request_entries(&vec![pr(3, "One"), pr(9, "Two")]);
    assert_eq!(entries, vec![(3, "One".to_string()), (9, "Two".to_string())]);
}

#[test]
fn token_round_trips_through_its_stored_form() {
    let encoded = encode_token("ghp_abc");
    assert_eq!(encoded, "Z2hwX2FiYw==");
    assert_eq!(decode_token(&encoded), Some("ghp_abc".to_string()));
    let unicode = "tök€n";
    assert_eq!(decode_token(&encode_token(unicode)), Some(unicode.to_string()));
    assert_eq!(decode_token("not base64!"), None);
    assert_eq!(decode_token("/w=="), None);
}

#[test]
fn choosing_another_repository_resets_its_state() {
    let mut s = Session::new();
    s.repos = vec!["a/x".to_string(), "b/y".to_string()];
    s.select_repository(0);
    s.prs = vec![(1, "t".to_string())];
    s.selected_pr = Some(0);
    s.set_analysis(Some(vec![]));
    s.select_repository(0);
    assert_eq!(s.prs.len(), 1);
    assert_eq!(s.selected_pr, Some(0));
    s.select_repository(1);
    assert_eq!(s.selected_repo, Some(1));
    assert!(s.prs.is_empty());
    assert_eq!(s.selected_pr, None);
    assert!(s.analysis.is_none());
    assert!(s.ai_recommendation.is_none());
}

#[test]
fn token_submission() {
    let mut s = Session::new();
    s.token_input = "   ".to_string();
    assert!(!s.submit_token());
    assert_eq!(s.error.as_deref(), Some("Token cannot be empty"));
    assert!(s.github_token.is_none());
    s.token_input = "  ghp_x \n".to_string();
    assert!(s.submit_token());
    assert_eq!(s.github_token.as_deref(), Some("ghp_x"));
    s.reject_token();
    assert!(s.github_token.is_none());
    assert_eq!(s.error.as_deref(), Some("Invalid GitHub token. Please check your token."));
}

#[test]
fn repositories_are_sorted_when_loaded() {
    let mut s = Session::new();
    s.begin_repository_load();
    assert!(s.is_loading_repos);
    s.repos.extend(["b/b", "a/z", "a/a"].iter().map(|x| x.to_string()));
    s.finish_repository_load();
    assert!(!s.is_loading_repos);
    assert_eq!(s.repos, vec!["a/a", "a/z", "b/b"]);
}

#[test]
fn analysis_flow() {
    let mut s = Session::new();
    s.repos = vec!["me/r".to_string()];
    assert!(s.begin_analysis().is_none());
    s.selected_repo = Some(0);
    s.prs = vec![(5, "T".to_string())];
    s.selected_pr = Some(0);
    s.request_analysis();
    assert!(s.take_analysis_request());
    assert!(s.is_analyzing);
    assert!(!s.take_analysis_request());
    assert_eq!(s.begin_analysis(), Some(("me/r".to_string(), 5)));
    s.fall_back_to_placeholder();
    assert!(!s.is_analyzing);
    let a = s.analysis.as_ref().unwrap();
    assert_eq!(a[0].file_path, "test.rs");
    assert_eq!(a[0].line_changes.len(), 2);
    s.request_recommendations();
    assert!(s.take_recommendation_request());
    s.complete_recommendations();
    assert_eq!(s.selected_analysis_tab, AnalysisTab::AiRecommendations);
    assert_eq!(s.ai_recommendation.as_ref().unwrap().code_suggestions[0].file_path, "test.rs");
    s.finish_analysis(vec![]);
    assert!(s.ai_recommendation.is_none());
    s.settle_tab();
    assert_eq!(s.selected_analysis_tab, AnalysisTab::CodeChanges);
}

#[test]
fn disconnecting_forgets_the_account() {
    let mut s = Session::new();
    s.github_token = Some("t".to_string());
    s.repos = vec!["r".to_string()];
    s.selected_repo = Some(0);
    s.repo_search = "r".to_string();
    s.disconnect();
    assert!(s.github_token.is_none());
    assert!(s.repos.is_empty());
    assert!(s.selected_repo.is_none());
    assert!(s.repo_search.is_empty());
}

#[test]
fn pull_request_loading() {
    let mut s = Session::new();
    s.request_pull_requests();
    assert!(s.take_pull_request_request());
    assert!(s.begin_pull_request_load().is_none());
    assert!(!s.is_loading_prs);
    s.repos = vec!["me/r".to_string()];
    s.selected_repo = Some(0);
    s.is_loading_prs = true;
    assert_eq!(s.begin_pull_request_load(), Some("me/r".to_string()));
    s.finish_pull_request_load(&vec![pr(1, "A")]);
    assert_eq!(s.prs, vec![(1, "A".to_string())]);
    assert!(!s.is_loading_prs);
    s.fail_pull_request_load("boom".to_string());
    assert_eq!(s.error.as_deref(), Some("boom"));
}

#[test]
fn repository_pages_are_appended_until_an_empty_one() {
    let mut s = Session::new();
    s.begin_repository_load();
    assert!(s.receive_repository_page(vec!["b/two".to_string(), "a/one".to_string()]));
    assert!(s.receive_repository_page(vec!["c/three".to_string()]));
    assert!(!s.receive_repository_page(Vec::new()));
    assert_eq!(s.repos, vec!["b/two", "a/one", "c/three"]);
    s.finish_repository_load();
    assert_eq!(s.repos, vec!["a/one", "b/two", "c/three"]);
}
