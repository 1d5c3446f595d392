//! GitHub addresses and the listing of repositories and pull requests.

use vstd::prelude::*;

use crate::text::{contains_str, decimal, decimal_string, has_infix};
use vstd::string::StringExecFns;

verus! {

/// A pull request as the GitHub API lists it.
#[derive(Debug, Clone)]
pub struct PullRequest {
    /// Its number in the repository.
    pub number: u32,
    /// Its title.
    pub title: String,
    /// Its head commit.
    pub head: PullRequestHead,
}

/// The head commit of a pull request.
#[derive(Debug, Clone)]
pub struct PullRequestHead {
    /// The commit's hash.
    pub sha: String,
}

/// The API address of a repository's open pull requests.
pub open spec fn pulls_url_spec(repo: Seq<char>) -> Seq<char> {
    "https://api.github.com/repos/"@ + repo + "/pulls?state=open&per_page=100"@
}

/// The API address of one pull request.
pub open spec fn pull_url_spec(repo: Seq<char>, number: u32) -> Seq<char> {
    "https://api.github.com/repos/"@ + repo + "/pulls/"@ + decimal(number as nat)
}

/// The address to clone a repository from.
pub open spec fn clone_url_spec(repo: Seq<char>) -> Seq<char> {
    "https://github.com/"@ + repo + ".git"@
}

/// The API address of a page of the user's repositories.
pub open spec fn user_repos_url_spec(page: u32) -> Seq<char> {
    "https://api.github.com/user/repos?per_page=100&page="@ + decimal(page as nat)
        + "&sort=updated"@
}

/// The API address of a page of an organization's repositories.
pub open spec fn org_repos_url_spec(org: Seq<char>, page: u32) -> Seq<char> {
    "https://api.github.com/orgs/"@ + org + "/repos?per_page=100&page="@ + decimal(page as nat)
        + "&sort=updated"@
}

/// The API address of a repository's open pull requests.
pub fn pulls_url(repo: &str) -> (r: String)
    ensures
        r@ == pulls_url_spec(repo@),
{
    let mut r = String::from_str("https://api.github.com/repos/");
    r.append(repo);
    r.append("/pulls?state=open&per_page=100");
    r
}

/// The API address of one pull request.
pub fn pull_url(repo: &str, number: u32) -> (r: String)
    ensures
        r@ == pull_url_spec(repo@, number),
{
    let mut r = String::from_str("https://api.github.com/repos/");
    r.append(repo);
    r.append("/pulls/");
    let n = decimal_string(number as u64);
    r.append(n.as_str());
    r
}

/// The address to clone a repository from.
pub fn clone_url(repo: &str) -> (r: String)
    ensures
        r@ == clone_url_spec(repo@),
{
    let mut r = String::from_str("https://github.com/");
    r.append(repo);
    r.append(".git");
    r
}

/// The API address of a page of the user's repositories.
pub fn user_repos_url(page: u32) -> (r: String)
    ensures
        r@ == user_repos_url_spec(page),
{
    let mut r = String::from_str("https://api.github.com/user/repos?per_page=100&page=");
    let n = decimal_string(page as u64);
    r.append(n.as_str());
    r.append("&sort=updated");
    r
}

/// The API address of a page of an organization's repositories.
pub fn org_repos_url(org: &str, page: u32) -> (r: String)
    ensures
        r@ == org_repos_url_spec(org@, page),
{
    let mut r = String::from_str("https://api.github.com/orgs/");
    r.append(org);
    r.append("/repos?per_page=100&page=");
    let n = decimal_string(page as u64);
    r.append(n.as_str());
    r.append("&sort=updated");
    r
}

/// The number and title of each pull request, in order.
pub fn pull_request_entries(list: &Vec<PullRequest>) -> (r: Vec<(u32, String)>)
    ensures
        r.len() == list.len(),
        forall|i: int|
            0 <= i < list.len() ==> (#[trigger] r@[i]).0 == list@[i].number && r@[i].1@
                == list@[i].title@,
{
    let mut r: Vec<(u32, String)> = Vec::new();
    let mut i: usize = 0;
    while i < list.len()
        invariant
            i <= list.len(),
            r.len() == i,
            forall|k: int|
                0 <= k < i ==> (#[trigger] r@[k]).0 == list@[k].number && r@[k].1@
                    == list@[k].title@,
        decreases list.len() - i,
    {
        r.push((list[i].number, list[i].title.clone()));
        i = i + 1;
    }
    r
}

/// The text `s` in lower case, as `str::to_lowercase` gives it (full Unicode
/// case mapping).
pub uninterp spec fn lowercase(s: Seq<char>) -> Seq<char>;

/// `str::to_lowercase`. Its result is named, not described: `lowercase` of `s`.
#[verifier::external_body]
fn to_lowercase(s: &str) -> (r: String)
    ensures
        r@ == lowercase(s@),
{
    s.to_lowercase()
}

/// Whether a repository is shown for a search: every repository when the
/// search is empty, else those whose name holds the search, ignoring case.
pub open spec fn repo_matches(repo: Seq<char>, search: Seq<char>) -> bool {
    search.len() == 0 || has_infix(lowercase(repo), lowercase(search))
}

/// The repositories among the first `n` that a search shows, each with its
/// position.
pub open spec fn matching_repos(repos: Seq<Seq<char>>, search: Seq<char>, n: int) -> Seq<
    (usize, Seq<char>),
>
    decreases n,
{
    if n <= 0 {
        Seq::empty()
    } else {
        let prev = matching_repos(repos, search, n - 1);
        if repo_matches(repos[n - 1], search) {
            prev.push(((n - 1) as usize, repos[n - 1]))
        } else {
            prev
        }
    }
}

/// The repositories that a search shows, with their positions, in order.
pub fn filter_repositories(repos: &Vec<String>, search: &str) -> (r: Vec<(usize, String)>)
    ensures
        r@.map_values(|e: (usize, String)| (e.0, e.1@)) == matching_repos(
            repos@.map_values(|s: String| s@),
            search@,
            repos.len() as int,
        ),
{
    let ghost names = repos@.map_values(|s: String| s@);
    let empty = search.unicode_len() == 0;
    let needle = to_lowercase(search);
    let mut r: Vec<(usize, String)> = Vec::new();
    let mut i: usize = 0;
    while i < repos.len()
        invariant
            i <= repos.len(),
            names == repos@.map_values(|s: String| s@),
            empty == (search@.len() == 0),
            needle@ == lowercase(search@),
            r@.map_values(|e: (usize, String)| (e.0, e.1@)) == matching_repos(
                names,
                search@,
                i as int,
            ),
        decreases repos.len() - i,
    {
        let ghost before = r@;
        let shown = if empty {
            true
        } else {
            let name = to_lowercase(repos[i].as_str());
            contains_str(name.as_str(), needle.as_str())
        };
        assert(names[i as int] == repos@[i as int]@);
        if shown {
            r.push((i, repos[i].clone()));
            assert(r@.map_values(|e: (usize, String)| (e.0, e.1@)) =~= before.map_values(
                |e: (usize, String)| (e.0, e.1@),
            ).push((i, names[i as int])));
        }
        i = i + 1;
    }
    r
}

/// The label of a pull request: `#<number> <title>`.
pub open spec fn pull_request_label_spec(number: u32, title: Seq<char>) -> Seq<char> {
    "#"@ + decimal(number as nat) + " "@ + title
}

/// The label of a pull request: `#<number> <title>`.
pub fn pull_request_label(number: u32, title: &str) -> (r: String)
    ensures
        r@ == pull_request_label_spec(number, title@),
{
    let mut r = String::from_str("#");
    let n = decimal_string(number as u64);
    r.append(n.as_str());
    r.append(" ");
    r.append(title);
    r
}

/// With an empty search every repository is shown, in order, with its position.
pub proof fn law_empty_search_shows_all(repos: Seq<Seq<char>>, n: int)
    requires
        0 <= n <= repos.len(),
        n <= usize::MAX + 1,
    ensures
        matching_repos(repos, Seq::empty(), n) == Seq::new(n as nat, |i: int| (i as usize, repos[i])),
    decreases n,
{
    if n > 0 {
        law_empty_search_shows_all(repos, n - 1);
    }
    assert(matching_repos(repos, Seq::empty(), n) =~= Seq::new(n as nat, |i: int| (i as usize, repos[i])));
}

/// A search never shows a repository twice, and shows them in their order:
/// the positions it lists increase.
pub proof fn law_search_positions_increase(repos: Seq<Seq<char>>, search: Seq<char>, n: int)
    requires
        0 <= n <= repos.len(),
        n <= usize::MAX + 1,
    ensures
        forall|a: int, b: int|
            0 <= a < b < matching_repos(repos, search, n).len() ==> (#[trigger] matching_repos(
                repos,
                search,
                n,
            )[a]).0 < (#[trigger] matching_repos(repos, search, n)[b]).0,
        forall|a: int|
            0 <= a < matching_repos(repos, search, n).len() ==> (#[trigger] matching_repos(
                repos,
                search,
                n,
            )[a]).0 < n && matching_repos(repos, search, n)[a].1 == repos[matching_repos(
                repos,
                search,
                n,
            )[a].0 as int],
    decreases n,
{
    if n > 0 {
        law_search_positions_increase(repos, search, n - 1);
        let prev = matching_repos(repos, search, n - 1);
        let cur = matching_repos(repos, search, n);
        if repo_matches(repos[n - 1], search) {
            assert(cur == prev.push(((n - 1) as usize, repos[n - 1])));
            assert forall|a: int, b: int| 0 <= a < b < cur.len() implies (#[trigger] cur[a]).0 < (
            #[trigger] cur[b]).0 by {
                assert(cur[a] == prev[a]);
                if b < prev.len() {
                    assert(cur[b] == prev[b]);
                }
            }
            assert forall|a: int| 0 <= a < cur.len() implies (#[trigger] cur[a]).0 < n && cur[a].1
                == repos[cur[a].0 as int] by {
                if a < prev.len() {
                    assert(cur[a] == prev[a]);
                }
            }
        } else {
            assert(cur == prev);
        }
    }
}


/// A repository is shown exactly when the search is empty or the lower-cased
/// search occurs somewhere in the lower-cased name, at any position.
pub proof fn law_search_shows_names_holding_it(repos: Seq<Seq<char>>, search: Seq<char>, n: int, k: int)
    requires
        0 <= k < n <= repos.len(),
        n <= usize::MAX + 1,
    ensures
        matching_repos(repos, search, n).contains((k as usize, repos[k])) <==> (search.len() == 0
            || exists|i: int|
            0 <= i && i + lowercase(search).len() <= lowercase(repos[k]).len() && #[trigger] lowercase(
                repos[k],
            ).subrange(i, i + lowercase(search).len()) == lowercase(search)),
    decreases n,
{
    let prev = matching_repos(repos, search, n - 1);
    let cur = matching_repos(repos, search, n);
    law_search_positions_increase(repos, search, n - 1);
    if k < n - 1 {
        law_search_shows_names_holding_it(repos, search, n - 1, k);
        if repo_matches(repos[n - 1], search) {
            assert(cur == prev.push(((n - 1) as usize, repos[n - 1])));
            if cur.contains((k as usize, repos[k])) {
                let j = choose|j: int| 0 <= j < cur.len() && cur[j] == (k as usize, repos[k]);
                if j < prev.len() {
                    assert(prev[j] == cur[j]);
                }
            }
            if prev.contains((k as usize, repos[k])) {
                let j = choose|j: int| 0 <= j < prev.len() && prev[j] == (k as usize, repos[k]);
                assert(cur[j] == prev[j]);
            }
        }
    } else {
        if prev.contains((k as usize, repos[k])) {
            let j = choose|j: int| 0 <= j < prev.len() && prev[j] == (k as usize, repos[k]);
            assert(prev[j].0 < n - 1);
        }
        if repo_matches(repos[n - 1], search) {
            assert(cur[prev.len() as int] == ((n - 1) as usize, repos[n - 1]));
        }
    }
}

} // verus!
