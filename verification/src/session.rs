//! The state of a review session and the steps that change it: connecting to
//! GitHub, choosing a repository and a pull request, analyzing it and
//! generating recommendations.

use vstd::prelude::*;

use crate::github::{pull_request_entries, PullRequest};
use crate::model::{ChangeType, CodeChange, ComplexityMetrics, LineChange};
use crate::ordering::{sort_texts, sorted_texts, texts};
use crate::suggestions::{generate_recommendations, recommendations_for, AiRecommendationResponse};
use crate::text::{trim, trim_white_space};
use vstd::string::StringExecFns;

verus! {

/// The tab shown for an analysis.
#[derive(Debug, Clone, Copy, PartialEq, Eq, Structural)]
pub enum AnalysisTab {
    /// The changed files and their lines.
    CodeChanges,
    /// The generated recommendations.
    AiRecommendations,
}

/// Everything a review session knows, apart from timing.
pub struct Session {
    /// The token of the connected GitHub account.
    pub github_token: Option<String>,
    /// The token being typed.
    pub token_input: String,
    /// The repositories the account can see.
    pub repos: Vec<String>,
    /// The chosen repository, by position in `repos`.
    pub selected_repo: Option<usize>,
    /// The open pull requests of the chosen repository: number and title.
    pub prs: Vec<(u32, String)>,
    /// The chosen pull request, by position in `prs`.
    pub selected_pr: Option<usize>,
    /// The analysis of the chosen pull request.
    pub analysis: Option<Vec<CodeChange>>,
    /// The recommendations generated for the analysis.
    pub ai_recommendation: Option<AiRecommendationResponse>,
    /// The error to show.
    pub error: Option<String>,
    /// Repositories are being loaded.
    pub is_loading_repos: bool,
    /// Pull requests are being loaded.
    pub is_loading_prs: bool,
    /// The pull request is being analyzed.
    pub is_analyzing: bool,
    /// Recommendations are being generated.
    pub is_generating_ai: bool,
    /// The search text for repositories.
    pub repo_search: String,
    /// Pull requests are to be loaded on the next step.
    pub should_load_prs: bool,
    /// The pull request is to be analyzed on the next step.
    pub should_analyze_pr: bool,
    /// Recommendations are to be generated on the next step.
    pub should_generate_ai: bool,
    /// The tab shown for the analysis.
    pub selected_analysis_tab: AnalysisTab,
}

/// The message when the token typed is empty.
pub open spec fn empty_token_message() -> Seq<char> {
    "Token cannot be empty"@
}

/// The message when GitHub rejects the token.
pub open spec fn invalid_token_message() -> Seq<char> {
    "Invalid GitHub token. Please check your token."@
}

/// The message when a saved token is no longer accepted.
pub open spec fn expired_token_message() -> Seq<char> {
    "Saved token is invalid or expired. Please reconnect."@
}

/// The placeholder analysis shown when analyzing a pull request fails: one
/// file `test.rs` whose one function was replaced.
pub open spec fn placeholder_change(c: CodeChange) -> bool {
    &&& c.file_path@ == "test.rs"@
    &&& c.old_content@ == "fn old() {}"@
    &&& c.new_content@ == "fn new() {}"@
    &&& c.line_changes@.len() == 2
    &&& c.line_changes@[0]@ == (Some(1u32), None::<u32>, ChangeType::Removed, "fn old() {}"@)
    &&& c.line_changes@[1]@ == (None::<u32>, Some(1u32), ChangeType::Added, "fn new() {}"@)
    &&& c.complexity == ComplexityMetrics {
        cyclomatic_complexity: 1,
        lines_of_code: 3,
        function_count: 1,
        max_nesting_depth: 1,
    }
}

/// The placeholder analysis shown when analyzing a pull request fails.
pub fn placeholder_analysis() -> (r: Vec<CodeChange>)
    ensures
        r.len() == 1,
        placeholder_change(r@[0]),
{
    let mut line_changes: Vec<LineChange> = Vec::new();
    line_changes.push(
        LineChange {
            line_a: Some(1),
            line_b: None,
            change_type: ChangeType::Removed,
            content: String::from_str("fn old() {}"),
        },
    );
    line_changes.push(
        LineChange {
            line_a: None,
            line_b: Some(1),
            change_type: ChangeType::Added,
            content: String::from_str("fn new() {}"),
        },
    );
    let mut r: Vec<CodeChange> = Vec::new();
    r.push(
        CodeChange {
            file_path: String::from_str("test.rs"),
            old_content: String::from_str("fn old() {}"),
            new_content: String::from_str("fn new() {}"),
            line_changes,
            complexity: ComplexityMetrics {
                cyclomatic_complexity: 1,
                lines_of_code: 3,
                function_count: 1,
                max_nesting_depth: 1,
            },
        },
    );
    r
}

impl Session {
    /// A session with nothing loaded, on the code changes tab.
    pub fn new() -> (s: Self)
        ensures
            s.github_token is None,
            s.token_input@.len() == 0,
            s.repos.len() == 0,
            s.selected_repo is None,
            s.prs.len() == 0,
            s.selected_pr is None,
            s.analysis is None,
            s.ai_recommendation is None,
            s.error is None,
            !s.is_loading_repos && !s.is_loading_prs && !s.is_analyzing && !s.is_generating_ai,
            s.repo_search@.len() == 0,
            !s.should_load_prs && !s.should_analyze_pr && !s.should_generate_ai,
            s.selected_analysis_tab == AnalysisTab::CodeChanges,
    {
        Session {
            github_token: None,
            token_input: String::new(),
            repos: Vec::new(),
            selected_repo: None,
            prs: Vec::new(),
            selected_pr: None,
            analysis: None,
            ai_recommendation: None,
            error: None,
            is_loading_repos: false,
            is_loading_prs: false,
            is_analyzing: false,
            is_generating_ai: false,
            repo_search: String::new(),
            should_load_prs: false,
            should_analyze_pr: false,
            should_generate_ai: false,
            selected_analysis_tab: AnalysisTab::CodeChanges,
        }
    }

    /// Replaces the analysis; nothing else changes.
    pub fn set_analysis(&mut self, analysis: Option<Vec<CodeChange>>)
        ensures
            *final(self) == (Session { analysis: analysis, ..*old(self) }),
    {
        self.analysis = analysis;
    }

    /// The name of the chosen repository, if one is chosen and exists.
    pub fn selected_repository(&self) -> (r: Option<String>)
        ensures
            match self.selected_repo {
                Some(i) if i < self.repos.len() => r matches Some(n) && n@ == self.repos@[i as int]@,
                _ => r is None,
            },
    {
        match self.selected_repo {
            Some(i) => if i < self.repos.len() {
                Some(self.repos[i].clone())
            } else {
                None
            },
            None => None,
        }
    }

    /// The number of the chosen pull request, if one is chosen and exists.
    pub fn selected_pull_request(&self) -> (r: Option<u32>)
        ensures
            match self.selected_pr {
                Some(i) if i < self.prs.len() => r == Some(self.prs@[i as int].0),
                _ => r is None,
            },
    {
        match self.selected_pr {
            Some(i) => if i < self.prs.len() {
                Some(self.prs[i].0)
            } else {
                None
            },
            None => None,
        }
    }

    /// Chooses the repository at `index`. Choosing another repository than the
    /// current one drops its pull requests, analysis and recommendations.
    pub fn select_repository(&mut self, index: usize)
        ensures
            old(self).selected_repo == Some(index) ==> *final(self) == *old(self),
            old(self).selected_repo != Some(index) ==> *final(self) == (Session {
                selected_repo: Some(index),
                prs: final(self).prs,
                selected_pr: None,
                analysis: None,
                ai_recommendation: None,
                ..*old(self)
            }),
            final(self).prs.len() == if old(self).selected_repo == Some(index) {
                old(self).prs.len()
            } else {
                0
            },
    {
        let was_selected = match self.selected_repo {
            Some(i) => i == index,
            None => false,
        };
        if !was_selected {
            self.selected_repo = Some(index);
            self.prs.clear();
            self.selected_pr = None;
            self.set_analysis(None);
            self.ai_recommendation = None;
        }
    }

    /// Forgets the account: its token, repositories, pull requests, choices,
    /// analysis, recommendations and search.
    pub fn disconnect(&mut self)
        ensures
            *final(self) == (Session {
                github_token: None,
                repos: final(self).repos,
                selected_repo: None,
                prs: final(self).prs,
                selected_pr: None,
                analysis: None,
                ai_recommendation: None,
                repo_search: final(self).repo_search,
                ..*old(self)
            }),
            final(self).repos.len() == 0,
            final(self).prs.len() == 0,
            final(self).repo_search@.len() == 0,
    {
        self.github_token = None;
        self.repos.clear();
        self.prs.clear();
        self.selected_repo = None;
        self.selected_pr = None;
        self.set_analysis(None);
        self.ai_recommendation = None;
        self.repo_search = String::new();
    }

    /// Takes the typed token, trimmed. An empty token is refused with an
    /// error and `false`; otherwise the token becomes the session's token, to
    /// be checked with GitHub, and the answer is `true`.
    pub fn submit_token(&mut self) -> (accepted: bool)
        ensures
            accepted == (trim_white_space(old(self).token_input@).len() > 0),
            !accepted ==> *final(self) == (Session { error: final(self).error, ..*old(self) }),
            !accepted ==> (final(self).error matches Some(e) && e@ == empty_token_message()),
            accepted ==> *final(self) == (Session {
                github_token: final(self).github_token,
                ..*old(self)
            }),
            accepted ==> (final(self).github_token matches Some(t) && t@ == trim_white_space(
                old(self).token_input@,
            )),
    {
        let token = trim(self.token_input.as_str());
        if token.as_str().unicode_len() == 0 {
            self.error = Some(String::from_str("Token cannot be empty"));
            false
        } else {
            self.github_token = Some(token);
            true
        }
    }

    /// GitHub refused the token: it is dropped and the error says so.
    pub fn reject_token(&mut self)
        ensures
            *final(self) == (Session { github_token: None, error: final(self).error, ..*old(self) }),
            final(self).error matches Some(e) && e@ == invalid_token_message(),
    {
        self.github_token = None;
        self.error = Some(String::from_str("Invalid GitHub token. Please check your token."));
    }

    /// The saved token is no longer accepted: it is dropped and the error says so.
    pub fn reject_saved_token(&mut self)
        ensures
            *final(self) == (Session { github_token: None, error: final(self).error, ..*old(self) }),
            final(self).error matches Some(e) && e@ == expired_token_message(),
    {
        self.github_token = None;
        self.error = Some(String::from_str("Saved token is invalid or expired. Please reconnect."));
    }

    /// Starts loading repositories: the list is emptied and the error cleared.
    pub fn begin_repository_load(&mut self)
        ensures
            *final(self) == (Session {
                is_loading_repos: true,
                error: None,
                repos: final(self).repos,
                ..*old(self)
            }),
            final(self).repos.len() == 0,
    {
        self.is_loading_repos = true;
        self.error = None;
        self.repos.clear();
    }

    /// Loading repositories failed: the repositories loaded so far stay, and
    /// the error is shown.
    pub fn fail_repository_load(&mut self, message: String)
        ensures
            *final(self) == (Session {
                is_loading_repos: false,
                error: Some(message),
                ..*old(self)
            }),
    {
        self.error = Some(message);
        self.is_loading_repos = false;
    }

    /// One page of repository names came in. An empty page ends the listing
    /// (`false`: ask for no further page); otherwise its names are appended to
    /// the list and the next page is wanted.
    pub fn receive_repository_page(&mut self, names: Vec<String>) -> (more: bool)
        ensures
            more == (names.len() > 0),
            *final(self) == (Session { repos: final(self).repos, ..*old(self) }),
            final(self).repos@ == old(self).repos@ + names@,
    {
        if names.len() == 0 {
            assert(self.repos@ + names@ =~= self.repos@);
            return false;
        }
        let mut names = names;
        self.repos.append(&mut names);
        true
    }

    /// All repositories are loaded: they are sorted by name.
    pub fn finish_repository_load(&mut self)
        ensures
            *final(self) == (Session {
                is_loading_repos: false,
                repos: final(self).repos,
                ..*old(self)
            }),
            sorted_texts(texts(final(self).repos@)),
            texts(final(self).repos@).to_multiset() == texts(old(self).repos@).to_multiset(),
    {
        let mut repos: Vec<String> = Vec::new();
        std::mem::swap(&mut repos, &mut self.repos);
        self.repos = sort_texts(repos);
        self.is_loading_repos = false;
    }

    /// Starts loading the pull requests of the chosen repository, whose name it
    /// returns. Without a chosen repository nothing is loaded.
    pub fn begin_pull_request_load(&mut self) -> (repo: Option<String>)
        ensures
            repo is None <==> !(old(self).selected_repo matches Some(i) && i < old(self).repos.len()),
            repo matches Some(name) ==> {
                &&& name@ == old(self).repos@[old(self).selected_repo->0 as int]@
                &&& *final(self) == (Session { error: None, prs: final(self).prs, ..*old(self) })
                &&& final(self).prs.len() == 0
            },
            repo is None ==> *final(self) == (Session { is_loading_prs: false, ..*old(self) }),
    {
        match self.selected_repository() {
            Some(name) => {
                self.error = None;
                self.prs.clear();
                Some(name)
            },
            None => {
                self.is_loading_prs = false;
                None
            },
        }
    }

    /// The pull requests arrived: their numbers and titles are listed.
    pub fn finish_pull_request_load(&mut self, list: &Vec<PullRequest>)
        ensures
            *final(self) == (Session { is_loading_prs: false, prs: final(self).prs, ..*old(self) }),
            final(self).prs.len() == list.len(),
            forall|i: int|
                0 <= i < list.len() ==> (#[trigger] final(self).prs@[i]).0 == list@[i].number
                    && final(self).prs@[i].1@ == list@[i].title@,
    {
        self.prs = pull_request_entries(list);
        self.is_loading_prs = false;
    }

    /// Loading pull requests failed: the error is shown.
    pub fn fail_pull_request_load(&mut self, message: String)
        ensures
            *final(self) == (Session { is_loading_prs: false, error: Some(message), ..*old(self) }),
    {
        self.error = Some(message);
        self.is_loading_prs = false;
    }

    /// Starts analyzing the chosen pull request: returns its repository and
    /// number, or stops when either is not chosen.
    pub fn begin_analysis(&mut self) -> (target: Option<(String, u32)>)
        ensures
            target is Some <==> (old(self).selected_repo matches Some(i) && i < old(
                self,
            ).repos.len()) && (old(self).selected_pr matches Some(j) && j < old(self).prs.len()),
            target matches Some(t) ==> {
                &&& t.0@ == old(self).repos@[old(self).selected_repo->0 as int]@
                &&& t.1 == old(self).prs@[old(self).selected_pr->0 as int].0
                &&& *final(self) == (Session { error: None, ..*old(self) })
            },
            target is None ==> *final(self) == (Session { is_analyzing: false, ..*old(self) }),
    {
        let repo = match self.selected_repository() {
            Some(r) => r,
            None => {
                self.is_analyzing = false;
                return None;
            },
        };
        let number = match self.selected_pull_request() {
            Some(n) => n,
            None => {
                self.is_analyzing = false;
                return None;
            },
        };
        self.error = None;
        Some((repo, number))
    }

    /// The analysis is done: it replaces the previous one and any
    /// recommendations for it are dropped.
    pub fn finish_analysis(&mut self, changes: Vec<CodeChange>)
        ensures
            *final(self) == (Session {
                analysis: Some(changes),
                ai_recommendation: None,
                is_analyzing: false,
                ..*old(self)
            }),
    {
        self.set_analysis(Some(changes));
        self.ai_recommendation = None;
        self.is_analyzing = false;
    }

    /// The analysis failed: the placeholder analysis is shown instead.
    pub fn fall_back_to_placeholder(&mut self)
        ensures
            *final(self) == (Session {
                analysis: final(self).analysis,
                is_analyzing: false,
                ..*old(self)
            }),
            final(self).analysis matches Some(a) && a.len() == 1 && placeholder_change(a@[0]),
    {
        self.set_analysis(Some(placeholder_analysis()));
        self.is_analyzing = false;
    }

    /// The pull request could not be fetched: the error is shown.
    pub fn fail_analysis(&mut self, message: String)
        ensures
            *final(self) == (Session { is_analyzing: false, error: Some(message), ..*old(self) }),
    {
        self.error = Some(message);
        self.is_analyzing = false;
    }

    /// Asks for the pull requests to be loaded on the next step.
    pub fn request_pull_requests(&mut self)
        ensures
            *final(self) == (Session { should_load_prs: true, ..*old(self) }),
    {
        self.should_load_prs = true;
    }

    /// Asks for the pull request to be analyzed on the next step.
    pub fn request_analysis(&mut self)
        ensures
            *final(self) == (Session { should_analyze_pr: true, ..*old(self) }),
    {
        self.should_analyze_pr = true;
    }

    /// Asks for recommendations on the next step, clearing the error.
    pub fn request_recommendations(&mut self)
        ensures
            *final(self) == (Session { should_generate_ai: true, error: None, ..*old(self) }),
    {
        self.should_generate_ai = true;
        self.error = None;
    }

    /// Takes a pending request to load pull requests: when there is one, it is
    /// cleared and loading starts.
    pub fn take_pull_request_request(&mut self) -> (taken: bool)
        ensures
            taken == old(self).should_load_prs,
            taken ==> *final(self) == (Session {
                should_load_prs: false,
                is_loading_prs: true,
                ..*old(self)
            }),
            !taken ==> *final(self) == *old(self),
    {
        if self.should_load_prs {
            self.should_load_prs = false;
            self.is_loading_prs = true;
            true
        } else {
            false
        }
    }

    /// Takes a pending request to analyze: when there is one, it is cleared and
    /// analysis starts.
    pub fn take_analysis_request(&mut self) -> (taken: bool)
        ensures
            taken == old(self).should_analyze_pr,
            taken ==> *final(self) == (Session {
                should_analyze_pr: false,
                is_analyzing: true,
                ..*old(self)
            }),
            !taken ==> *final(self) == *old(self),
    {
        if self.should_analyze_pr {
            self.should_analyze_pr = false;
            self.is_analyzing = true;
            true
        } else {
            false
        }
    }

    /// Takes a pending request for recommendations: when there is one, it is
    /// cleared and generation starts.
    pub fn take_recommendation_request(&mut self) -> (taken: bool)
        ensures
            taken == old(self).should_generate_ai,
            taken ==> *final(self) == (Session {
                should_generate_ai: false,
                is_generating_ai: true,
                ..*old(self)
            }),
            !taken ==> *final(self) == *old(self),
    {
        if self.should_generate_ai {
            self.should_generate_ai = false;
            self.is_generating_ai = true;
            true
        } else {
            false
        }
    }

    /// Generation is over: the recommendations for the current analysis are
    /// stored and their tab is shown.
    pub fn complete_recommendations(&mut self)
        ensures
            *final(self) == (Session {
                ai_recommendation: final(self).ai_recommendation,
                is_generating_ai: false,
                selected_analysis_tab: AnalysisTab::AiRecommendations,
                ..*old(self)
            }),
            final(self).ai_recommendation matches Some(r) && recommendations_for(old(self).analysis, r),
    {
        let r = generate_recommendations(&self.analysis);
        self.ai_recommendation = Some(r);
        self.is_generating_ai = false;
        self.selected_analysis_tab = AnalysisTab::AiRecommendations;
    }

    /// Shows a tab.
    pub fn select_tab(&mut self, tab: AnalysisTab)
        ensures
            *final(self) == (Session { selected_analysis_tab: tab, ..*old(self) }),
    {
        self.selected_analysis_tab = tab;
    }

    /// The recommendations tab cannot be shown without recommendations: it
    /// falls back to the code changes tab.
    pub fn settle_tab(&mut self)
        ensures
            (old(self).selected_analysis_tab == AnalysisTab::AiRecommendations && old(
                self,
            ).ai_recommendation is None) ==> *final(self) == (Session {
                selected_analysis_tab: AnalysisTab::CodeChanges,
                ..*old(self)
            }),
            !(old(self).selected_analysis_tab == AnalysisTab::AiRecommendations && old(
                self,
            ).ai_recommendation is None) ==> *final(self) == *old(self),
    {
        if self.selected_analysis_tab == AnalysisTab::AiRecommendations
            && self.ai_recommendation.is_none() {
            self.selected_analysis_tab = AnalysisTab::CodeChanges;
        }
    }
}

} // verus!
