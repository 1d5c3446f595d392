//! Review suggestions derived from an analysis, and their grouping by file.

use vstd::prelude::*;

use crate::diff::line_changes_view;
use crate::model::{ChangeType, CodeChange, LineChange, LineChangeView};
use crate::ordering::{distinct_sorted_texts, strictly_sorted_texts, texts};
use crate::text::{
    after_last_slash, decimal, decimal_string, ends_with, has_suffix, last_path_segment,
    lemma_seq_less_irreflexive, same_str, seq_less,
};
use vstd::string::StringExecFns;

verus! {

/// A suggestion for improving one file.
#[derive(Debug, Clone)]
pub struct CodeSuggestion {
    /// The file the suggestion is about.
    pub file_path: String,
    /// The lines it concerns.
    pub lines: Vec<u32>,
    /// What to do: `add`, `modify` or `remove`.
    pub category: String,
    /// The kind of improvement, such as `performance`.
    pub improvement_type: String,
    /// `critical`, `high`, `medium` or `low`.
    pub severity: String,
    /// The suggestion itself.
    pub comments: String,
    /// Why it is suggested.
    pub reasoning: String,
}

/// A set of suggestions with an overall assessment.
#[derive(Debug, Clone)]
pub struct AiRecommendationResponse {
    /// The suggestions, file by file.
    pub code_suggestions: Vec<CodeSuggestion>,
    /// A summary of the review.
    pub overall_assessment: String,
}

/// A suggestion as plain values: path, lines, category, improvement type,
/// severity, comments, reasoning.
pub type SuggestionView = (Seq<char>, Seq<u32>, Seq<char>, Seq<char>, Seq<char>, Seq<char>, Seq<char>);

impl View for CodeSuggestion {
    type V = SuggestionView;

    open spec fn view(&self) -> SuggestionView {
        (
            self.file_path@,
            self.lines@,
            self.category@,
            self.improvement_type@,
            self.severity@,
            self.comments@,
            self.reasoning@,
        )
    }
}

/// The plain values of a list of suggestions.
pub open spec fn suggestions_view(v: Seq<CodeSuggestion>) -> Seq<SuggestionView> {
    v.map_values(|s: CodeSuggestion| s@)
}

/// A changed file as the suggestions see it: its path and its line changes.
pub type ChangeSummary = (Seq<char>, Seq<LineChangeView>);

/// The path and line changes of each file of an analysis.
pub open spec fn change_summaries(v: Seq<CodeChange>) -> Seq<ChangeSummary> {
    v.map_values(|c: CodeChange| (c.file_path@, line_changes_view(c.line_changes@)))
}

/// The line numbers of the changed (not equal) lines, the new line number
/// where there is one and the old one otherwise.
pub open spec fn changed_line_numbers(lcs: Seq<LineChangeView>) -> Seq<u32>
    decreases lcs.len(),
{
    if lcs.len() == 0 {
        Seq::empty()
    } else {
        let prev = changed_line_numbers(lcs.drop_last());
        let lc = lcs.last();
        if lc.2 != ChangeType::Equal {
            match lc.1 {
                Some(b) => prev.push(b),
                None => match lc.0 {
                    Some(a) => prev.push(a),
                    None => prev,
                },
            }
        } else {
            prev
        }
    }
}

/// At most the first `n` elements of `s`.
pub open spec fn first_n<A>(s: Seq<A>, n: nat) -> Seq<A> {
    if s.len() <= n {
        s
    } else {
        s.take(n as int)
    }
}

/// The lines a suggestion for a file names: its first three changed lines, or
/// line 1 when none changed.
pub open spec fn suggestion_lines(lcs: Seq<LineChangeView>) -> Seq<u32> {
    let changed = first_n(changed_line_numbers(lcs), 3);
    if changed.len() == 0 {
        seq![1u32]
    } else {
        changed
    }
}

/// The suggestion for the `index`-th changed file, chosen by its extension.
pub open spec fn suggestion_for(index: int, change: ChangeSummary) -> SuggestionView {
    let path = change.0;
    let name = after_last_slash(path);
    let lines = suggestion_lines(change.1);
    if has_suffix(path, ".rs"@) {
        (
            path,
            lines,
            "modify"@,
            "performance"@,
            if index == 0 {
                "high"@
            } else {
                "medium"@
            },
            "Consider optimizing the implementation in "@ + name
                + ". The current approach could be more efficient."@,
            "Analysis of "@ + path
                + " shows potential performance improvements. Consider using more efficient algorithms or data structures where applicable."@,
        )
    } else if has_suffix(path, ".js"@) || has_suffix(path, ".ts"@) {
        (
            path,
            lines,
            "add"@,
            "error_handling"@,
            "medium"@,
            "Add proper error handling in "@ + name,
            "The changes in "@ + path
                + " could benefit from more robust error handling to improve application reliability."@,
        )
    } else if has_suffix(path, ".py"@) {
        (
            path,
            lines,
            "modify"@,
            "code_quality"@,
            "low"@,
            "Consider following Python best practices in "@ + name,
            "The implementation in "@ + path
                + " could be improved by following PEP 8 guidelines and Python idioms."@,
        )
    } else {
        (
            path,
            lines,
            "modify"@,
            "maintainability"@,
            "low"@,
            "Review the changes in "@ + name + " for maintainability"@,
            "The modifications in "@ + path
                + " should be reviewed to ensure they maintain code quality and readability."@,
        )
    }
}

/// The suggestion given when there is nothing to review.
pub open spec fn documentation_suggestion() -> SuggestionView {
    (
        "README.md"@,
        seq![1u32],
        "add"@,
        "documentation"@,
        "low"@,
        "Consider adding more detailed documentation"@,
        "Good documentation helps other developers understand and contribute to the project."@,
    )
}

/// The suggestions for an analysis: one for each of its first three files, or
/// the documentation suggestion when there are none.
pub open spec fn suggestions_for(changes: Seq<ChangeSummary>) -> Seq<SuggestionView> {
    let firsts = first_n(changes, 3);
    if firsts.len() == 0 {
        seq![documentation_suggestion()]
    } else {
        Seq::new(firsts.len(), |i: int| suggestion_for(i, firsts[i]))
    }
}

/// The overall assessment for an analysis of `total` files.
pub open spec fn assessment_for(total: nat) -> Seq<char> {
    if total > 0 {
        "Analysis of "@ + decimal(total)
            + " file(s) shows generally good code structure. The recommendations focus on performance optimization, error handling, and maintainability improvements. Priority should be given to higher severity suggestions."@
    } else {
        "No specific code changes were analyzed. Consider running the analysis on a pull request with actual changes."@
    }
}

proof fn lemma_changed_line_numbers_prefix(lcs: Seq<LineChangeView>, i: int)
    requires
        0 <= i <= lcs.len(),
    ensures
        changed_line_numbers(lcs.take(i)).len() <= changed_line_numbers(lcs).len(),
        changed_line_numbers(lcs).take(changed_line_numbers(lcs.take(i)).len() as int)
            == changed_line_numbers(lcs.take(i)),
    decreases lcs.len() - i,
{
    if i == lcs.len() {
        assert(lcs.take(i) =~= lcs);
        assert(changed_line_numbers(lcs).take(changed_line_numbers(lcs).len() as int)
            =~= changed_line_numbers(lcs));
    } else {
        lemma_changed_line_numbers_prefix(lcs, i + 1);
        assert(lcs.take(i + 1).drop_last() =~= lcs.take(i));
        let a = changed_line_numbers(lcs.take(i));
        let b = changed_line_numbers(lcs.take(i + 1));
        let full = changed_line_numbers(lcs);
        assert(b.take(a.len() as int) =~= a);
        assert(full.take(a.len() as int) =~= full.take(b.len() as int).take(a.len() as int));
    }
}

/// The lines of a suggestion for a file with these line changes.
fn lines_for_suggestion(line_changes: &Vec<LineChange>) -> (r: Vec<u32>)
    ensures
        r@ == suggestion_lines(line_changes_view(line_changes@)),
{
    let ghost lcs = line_changes_view(line_changes@);
    let mut r: Vec<u32> = Vec::new();
    let mut i: usize = 0;
    while i < line_changes.len() && r.len() < 3
        invariant
            i <= line_changes.len(),
            lcs == line_changes_view(line_changes@),
            r@ == changed_line_numbers(lcs.take(i as int)),
            r.len() <= 3,
        decreases line_changes.len() - i,
    {
        assert(lcs.take(i + 1).drop_last() =~= lcs.take(i as int));
        let lc = &line_changes[i];
        assert(lcs[i as int] == lc@);
        if lc.change_type != ChangeType::Equal {
            match lc.line_b {
                Some(b) => r.push(b),
                None => match lc.line_a {
                    Some(a) => r.push(a),
                    None => {},
                },
            }
        }
        i = i + 1;
    }
    proof {
        lemma_changed_line_numbers_prefix(lcs, i as int);
        let full = changed_line_numbers(lcs);
        if i == line_changes.len() {
            assert(lcs.take(i as int) =~= lcs);
        }
        assert(first_n(full, 3) =~= r@);
    }
    if r.len() == 0 {
        let mut one: Vec<u32> = Vec::new();
        one.push(1);
        one
    } else {
        r
    }
}

/// `lit` followed by `s`.
fn prefixed(lit: &str, s: &str) -> (r: String)
    ensures
        r@ == lit@ + s@,
{
    let mut r = String::from_str(lit);
    r.append(s);
    r
}

/// `lit` followed by `s` and `tail`.
fn joined(lit: &str, s: &str, tail: &str) -> (r: String)
    ensures
        r@ == lit@ + s@ + tail@,
{
    let mut r = String::from_str(lit);
    r.append(s);
    r.append(tail);
    r
}

/// The suggestion for the `index`-th changed file.
fn suggestion_for_change(index: usize, change: &CodeChange) -> (s: CodeSuggestion)
    ensures
        s@ == suggestion_for(
            index as int,
            (change.file_path@, line_changes_view(change.line_changes@)),
        ),
{
    let path = change.file_path.as_str();
    let name = last_path_segment(path);
    let lines = lines_for_suggestion(&change.line_changes);
    if ends_with(path, ".rs") {
        CodeSuggestion {
            file_path: change.file_path.clone(),
            lines,
            category: String::from_str("modify"),
            improvement_type: String::from_str("performance"),
            severity: if index == 0 {
                String::from_str("high")
            } else {
                String::from_str("medium")
            },
            comments: joined(
                "Consider optimizing the implementation in ",
                name.as_str(),
                ". The current approach could be more efficient.",
            ),
            reasoning: joined(
                "Analysis of ",
                path,
                " shows potential performance improvements. Consider using more efficient algorithms or data structures where applicable.",
            ),
        }
    } else if ends_with(path, ".js") || ends_with(path, ".ts") {
        CodeSuggestion {
            file_path: change.file_path.clone(),
            lines,
            category: String::from_str("add"),
            improvement_type: String::from_str("error_handling"),
            severity: String::from_str("medium"),
            comments: prefixed("Add proper error handling in ", name.as_str()),
            reasoning: joined(
                "The changes in ",
                path,
                " could benefit from more robust error handling to improve application reliability.",
            ),
        }
    } else if ends_with(path, ".py") {
        CodeSuggestion {
            file_path: change.file_path.clone(),
            lines,
            category: String::from_str("modify"),
            improvement_type: String::from_str("code_quality"),
            severity: String::from_str("low"),
            comments: prefixed("Consider following Python best practices in ", name.as_str()),
            reasoning: joined(
                "The implementation in ",
                path,
                " could be improved by following PEP 8 guidelines and Python idioms.",
            ),
        }
    } else {
        CodeSuggestion {
            file_path: change.file_path.clone(),
            lines,
            category: String::from_str("modify"),
            improvement_type: String::from_str("maintainability"),
            severity: String::from_str("low"),
            comments: joined("Review the changes in ", name.as_str(), " for maintainability"),
            reasoning: joined(
                "The modifications in ",
                path,
                " should be reviewed to ensure they maintain code quality and readability.",
            ),
        }
    }
}

/// The suggestion given when there is nothing to review.
fn documentation_suggestion_exec() -> (s: CodeSuggestion)
    ensures
        s@ == documentation_suggestion(),
{
    let mut lines: Vec<u32> = Vec::new();
    lines.push(1);
    CodeSuggestion {
        file_path: String::from_str("README.md"),
        lines,
        category: String::from_str("add"),
        improvement_type: String::from_str("documentation"),
        severity: String::from_str("low"),
        comments: String::from_str("Consider adding more detailed documentation"),
        reasoning: String::from_str(
            "Good documentation helps other developers understand and contribute to the project.",
        ),
    }
}

/// `r` holds the recommendations for `analysis`: the suggestions for its
/// files and the assessment of how many there are.
pub open spec fn recommendations_for(analysis: Option<Vec<CodeChange>>, r: AiRecommendationResponse) -> bool {
    &&& suggestions_view(r.code_suggestions@) == suggestions_for(
        match analysis {
            Some(a) => change_summaries(a@),
            None => Seq::empty(),
        },
    )
    &&& r.overall_assessment@ == assessment_for(
        match analysis {
            Some(a) => a.len() as nat,
            None => 0nat,
        },
    )
}

/// The recommendations for an analysis (none when there is no analysis): a
/// suggestion for each of its first three files, chosen by the file's
/// extension, and an assessment that names how many files were analyzed.
pub fn generate_recommendations(analysis: &Option<Vec<CodeChange>>) -> (r: AiRecommendationResponse)
    ensures
        recommendations_for(*analysis, r),
{
    let ghost changes = match analysis {
        Some(a) => change_summaries(a@),
        None => Seq::<ChangeSummary>::empty(),
    };
    let mut suggestions: Vec<CodeSuggestion> = Vec::new();
    let mut total: usize = 0;
    if let Some(a) = analysis {
        total = a.len();
        let mut index: usize = 0;
        while index < a.len() && index < 3
            invariant
                index <= a.len(),
                index <= 3,
                changes == change_summaries(a@),
                suggestions.len() == index,
                forall|k: int|
                    0 <= k < index ==> #[trigger] suggestions@[k]@ == suggestion_for(k, changes[k]),
            decreases a.len() - index,
        {
            let s = suggestion_for_change(index, &a[index]);
            suggestions.push(s);
            index = index + 1;
        }
        proof {
            let firsts = first_n(changes, 3);
            assert(firsts.len() == index);
            if index > 0 {
                assert(suggestions_view(suggestions@) =~= Seq::new(
                    firsts.len(),
                    |i: int| suggestion_for(i, firsts[i]),
                ));
            }
        }
    }
    if suggestions.len() == 0 {
        suggestions.push(documentation_suggestion_exec());
        assert(suggestions_view(suggestions@) =~= seq![documentation_suggestion()]);
    }
    let overall_assessment = if total > 0 {
        let count = decimal_string(total as u64);
        joined(
            "Analysis of ",
            count.as_str(),
            " file(s) shows generally good code structure. The recommendations focus on performance optimization, error handling, and maintainability improvements. Priority should be given to higher severity suggestions.",
        )
    } else {
        String::from_str(
            "No specific code changes were analyzed. Consider running the analysis on a pull request with actual changes.",
        )
    };
    AiRecommendationResponse { code_suggestions: suggestions, overall_assessment }
}

/// The suggestions about one file: the file and the positions of its
/// suggestions in the list they were grouped from.
#[derive(Debug, Clone)]
pub struct SuggestionGroup {
    /// The file.
    pub file_path: String,
    /// Positions of the file's suggestions, in their original order.
    pub indices: Vec<usize>,
}

/// The positions below `n` of the suggestions about `path`, in order.
pub open spec fn positions_with_path(s: Seq<SuggestionView>, path: Seq<char>, n: int) -> Seq<usize>
    decreases n,
{
    if n <= 0 {
        Seq::empty()
    } else {
        let prev = positions_with_path(s, path, n - 1);
        if s[n - 1].0 == path {
            prev.push((n - 1) as usize)
        } else {
            prev
        }
    }
}

/// The file paths of a list of suggestions.
pub open spec fn suggestion_paths(s: Seq<SuggestionView>) -> Seq<Seq<char>> {
    s.map_values(|v: SuggestionView| v.0)
}

/// Some group lists position `i`.
pub open spec fn in_some_group(groups: Seq<SuggestionGroup>, i: usize) -> bool {
    exists|g: int| 0 <= g < groups.len() && (#[trigger] groups[g]).indices@.contains(i)
}

proof fn lemma_every_position_grouped(sv: Seq<SuggestionView>, gs: Seq<SuggestionGroup>, i: int)
    requires
        0 <= i < sv.len() <= usize::MAX,
        gs.map_values(|g: SuggestionGroup| g.file_path@).to_set() == suggestion_paths(sv).to_set(),
        forall|g: int|
            0 <= g < gs.len() ==> (#[trigger] gs[g]).indices@ == positions_with_path(
                sv,
                gs[g].file_path@,
                sv.len() as int,
            ),
    ensures
        in_some_group(gs, i as usize),
{
    let gp = gs.map_values(|g: SuggestionGroup| g.file_path@);
    let path = sv[i].0;
    assert(suggestion_paths(sv)[i] == path);
    assert(suggestion_paths(sv).to_set().contains(path));
    assert(gp.to_set().contains(path));
    let g = choose|g: int| 0 <= g < gp.len() && gp[g] == path;
    assert(gp[g] == gs[g].file_path@);
    law_group_positions_match_the_path(sv, path, sv.len() as int);
    assert(gs[g].indices@.contains(i as usize));
}

/// The suggestions grouped by file (as a `BTreeMap` from path to suggestions
/// gives them): one group per file, files in the order of `String`, each
/// group holding the positions of its file's suggestions in order.
pub fn group_suggestions_by_file(suggestions: &Vec<CodeSuggestion>) -> (groups: Vec<SuggestionGroup>)
    ensures
        strictly_sorted_texts(groups@.map_values(|g: SuggestionGroup| g.file_path@)),
        groups@.map_values(|g: SuggestionGroup| g.file_path@).to_set() == suggestion_paths(
            suggestions_view(suggestions@),
        ).to_set(),
        forall|g: int|
            0 <= g < groups.len() ==> (#[trigger] groups@[g]).indices@ == positions_with_path(
                suggestions_view(suggestions@),
                groups@[g].file_path@,
                suggestions.len() as int,
            ),
        forall|g: int, k: int|
            0 <= g < groups.len() && 0 <= k < groups@[g].indices.len() ==> (#[trigger] groups@[g].indices@[k])
                < suggestions.len() && suggestions@[groups@[g].indices@[k] as int].file_path@
                == groups@[g].file_path@,
        forall|i: usize| i < suggestions.len() ==> #[trigger] in_some_group(groups@, i),
        forall|g1: int, g2: int, i: usize|
            #![trigger groups@[g1].indices@.contains(i), groups@[g2].indices@.contains(i)]
            0 <= g1 < groups.len() && 0 <= g2 < groups.len() && groups@[g1].indices@.contains(i)
                && groups@[g2].indices@.contains(i) ==> g1 == g2,
{
    let ghost sv = suggestions_view(suggestions@);
    let mut paths: Vec<String> = Vec::new();
    let mut i: usize = 0;
    while i < suggestions.len()
        invariant
            i <= suggestions.len(),
            sv == suggestions_view(suggestions@),
            texts(paths@) == suggestion_paths(sv).take(i as int),
        decreases suggestions.len() - i,
    {
        let ghost before = paths@;
        let path = suggestions[i].file_path.clone();
        assert(path@ == suggestions@[i as int].file_path@);
        paths.push(path);
        assert(sv[i as int] == suggestions@[i as int]@);
        assert(texts(paths@) =~= texts(before).push(path@));
        assert(suggestion_paths(sv).take(i + 1) =~= suggestion_paths(sv).take(i as int).push(sv[i as int].0));
        assert(texts(paths@) =~= suggestion_paths(sv).take(i + 1));
        i = i + 1;
    }
    assert(suggestion_paths(sv).take(i as int) =~= suggestion_paths(sv));
    let keys = distinct_sorted_texts(&paths);
    let mut groups: Vec<SuggestionGroup> = Vec::new();
    let mut g: usize = 0;
    while g < keys.len()
        invariant
            g <= keys.len(),
            sv == suggestions_view(suggestions@),
            groups.len() == g,
            forall|k: int| 0 <= k < g ==> (#[trigger] groups@[k]).file_path@ == keys@[k]@,
            forall|k: int|
                0 <= k < g ==> (#[trigger] groups@[k]).indices@ == positions_with_path(
                    sv,
                    groups@[k].file_path@,
                    suggestions.len() as int,
                ),
        decreases keys.len() - g,
    {
        let key = keys[g].clone();
        let mut indices: Vec<usize> = Vec::new();
        let mut j: usize = 0;
        while j < suggestions.len()
            invariant
                j <= suggestions.len(),
                sv == suggestions_view(suggestions@),
                indices@ == positions_with_path(sv, key@, j as int),
            decreases suggestions.len() - j,
        {
            assert(sv[j as int] == suggestions@[j as int]@);
            if same_str(suggestions[j].file_path.as_str(), key.as_str()) {
                indices.push(j);
            }
            j = j + 1;
        }
        groups.push(SuggestionGroup { file_path: key, indices });
        g = g + 1;
    }
    assert(groups@.map_values(|g: SuggestionGroup| g.file_path@) =~= texts(keys@));
    proof {
        let n = suggestions.len() as int;
        let gp = groups@.map_values(|g: SuggestionGroup| g.file_path@);
        assert forall|g: int| 0 <= g < groups.len() implies #[trigger] groups@[g].indices@ == positions_with_path(
            sv,
            groups@[g].file_path@,
            n,
        ) && (forall|k: int|
            0 <= k < groups@[g].indices.len() ==> (#[trigger] groups@[g].indices@[k]) < n && sv[groups@[g].indices@[k] as int].0
                == groups@[g].file_path@) && (forall|i: int|
            0 <= i < n ==> (groups@[g].indices@.contains(i as usize) <==> (#[trigger] sv[i]).0
                == groups@[g].file_path@)) by {
            law_group_positions_match_the_path(sv, groups@[g].file_path@, n);
        }
        assert forall|g: int, k: int|
            0 <= g < groups.len() && 0 <= k < groups@[g].indices.len() implies (#[trigger] groups@[g].indices@[k])
                < suggestions.len() && suggestions@[groups@[g].indices@[k] as int].file_path@
                == groups@[g].file_path@ by {
            assert(groups@[g].indices@ == positions_with_path(sv, groups@[g].file_path@, n));
            let idx = groups@[g].indices@[k] as int;
            assert(sv[idx] == suggestions@[idx]@);
        }
        assert forall|i: usize| i < suggestions.len() implies #[trigger] in_some_group(groups@, i) by {
            lemma_every_position_grouped(sv, groups@, i as int);
        }
        assert forall|g1: int, g2: int, i: usize|
            #![trigger groups@[g1].indices@.contains(i), groups@[g2].indices@.contains(i)]
            0 <= g1 < groups.len() && 0 <= g2 < groups.len() && groups@[g1].indices@.contains(i)
                && groups@[g2].indices@.contains(i) implies g1 == g2 by {
            assert(groups@[g1].indices@ == positions_with_path(sv, groups@[g1].file_path@, n));
            assert(groups@[g2].indices@ == positions_with_path(sv, groups@[g2].file_path@, n));
            let k1 = choose|k: int| 0 <= k < groups@[g1].indices@.len() && groups@[g1].indices@[k] == i;
            let k2 = choose|k: int| 0 <= k < groups@[g2].indices@.len() && groups@[g2].indices@[k] == i;
            assert(groups@[g1].indices@[k1] == i);
            assert(groups@[g2].indices@[k2] == i);
            assert(gp[g1] == gp[g2]);
            lemma_seq_less_irreflexive(gp[g1]);
            if g1 < g2 {
                assert(seq_less(gp[g1], gp[g2]));
            } else if g2 < g1 {
                assert(seq_less(gp[g2], gp[g1]));
            }
        }
    }
    groups
}

/// How many of the positions `idx` hold a suggestion of severity `severity`.
pub open spec fn severity_count(s: Seq<SuggestionView>, idx: Seq<usize>, severity: Seq<char>) -> nat
    decreases idx.len(),
{
    if idx.len() == 0 {
        0
    } else {
        severity_count(s, idx.drop_last(), severity) + if s[idx.last() as int].4 == severity {
            1nat
        } else {
            0nat
        }
    }
}

/// How many of the suggestions at `indices` have severity `severity`.
pub fn count_with_severity(suggestions: &Vec<CodeSuggestion>, indices: &Vec<usize>, severity: &str) -> (n: usize)
    requires
        forall|k: int| 0 <= k < indices.len() ==> #[trigger] indices@[k] < suggestions.len(),
    ensures
        n == severity_count(suggestions_view(suggestions@), indices@, severity@),
{
    let ghost sv = suggestions_view(suggestions@);
    let mut n: usize = 0;
    let mut k: usize = 0;
    while k < indices.len()
        invariant
            k <= indices.len(),
            sv == suggestions_view(suggestions@),
            forall|m: int| 0 <= m < indices.len() ==> #[trigger] indices@[m] < suggestions.len(),
            n == severity_count(sv, indices@.take(k as int), severity@),
            n <= k,
        decreases indices.len() - k,
    {
        assert(indices@.take(k + 1).drop_last() =~= indices@.take(k as int));
        let i = indices[k];
        assert(i < suggestions.len());
        assert(sv[i as int] == suggestions@[i as int]@);
        if same_str(suggestions[i].severity.as_str(), severity) {
            n = n + 1;
        }
        k = k + 1;
    }
    assert(indices@.take(indices.len() as int) =~= indices@);
    n
}

// ---------------------------------------------------------------------------
// Laws
// ---------------------------------------------------------------------------

/// There is always at least one suggestion and never more than three, and
/// each of the first three files gets exactly one, in order.
pub proof fn law_suggestion_count(changes: Seq<ChangeSummary>)
    ensures
        1 <= suggestions_for(changes).len() <= 3,
        changes.len() > 0 ==> suggestions_for(changes).len() == if changes.len() < 3 {
            changes.len()
        } else {
            3
        },
        forall|i: int|
            0 <= i < changes.len() && i < 3 ==> (#[trigger] suggestions_for(changes)[i]).0
                == changes[i].0,
{
}

/// A suggestion never names more than three lines, and always at least one.
pub proof fn law_suggestion_lines_bounded(lcs: Seq<LineChangeView>)
    ensures
        1 <= suggestion_lines(lcs).len() <= 3,
{
}

/// Every suggestion lies in the group of its file: its position is among the
/// positions with its path.
pub proof fn law_suggestion_in_its_group(s: Seq<SuggestionView>, i: int, n: int)
    requires
        0 <= i < n <= s.len(),
    ensures
        positions_with_path(s, s[i].0, n).contains(i as usize),
    decreases n,
{
    if n - 1 > i {
        law_suggestion_in_its_group(s, i, n - 1);
        let prev = positions_with_path(s, s[i].0, n - 1);
        let k = choose|k: int| 0 <= k < prev.len() && prev[k] == i as usize;
        if s[n - 1].0 == s[i].0 {
            assert(prev.push((n - 1) as usize)[k] == i as usize);
        }
    } else {
        let prev = positions_with_path(s, s[i].0, n - 1);
        assert(prev.push((n - 1) as usize)[prev.len() as int] == i as usize);
    }
}


/// What each of the first three files gets is chosen by how its path ends:
/// `.rs` asks to modify for performance (high for the first file, medium
/// after), `.js` and `.ts` ask to add error handling (medium), `.py` asks to
/// follow Python practice (low), and any other file asks for a maintainability
/// review (low).
pub proof fn law_suggestion_by_extension(changes: Seq<ChangeSummary>, i: int)
    requires
        0 <= i < changes.len(),
        i < 3,
    ensures
        ({
            let p = changes[i].0;
            let s = suggestions_for(changes)[i];
            let ends = |e: Seq<char>| e.len() <= p.len() && p.subrange(p.len() - e.len(), p.len() as int) == e;
            &&& ends(".rs"@) ==> s.2 == "modify"@ && s.3 == "performance"@ && s.4 == (if i == 0 {
                "high"@
            } else {
                "medium"@
            })
            &&& (ends(".js"@) || ends(".ts"@)) && !ends(".rs"@) ==> s.2 == "add"@ && s.3
                == "error_handling"@ && s.4 == "medium"@ && s.5 == "Add proper error handling in "@
                + after_last_slash(p)
            &&& ends(".py"@) && !ends(".rs"@) && !ends(".js"@) && !ends(".ts"@) ==> s.2 == "modify"@
                && s.3 == "code_quality"@ && s.4 == "low"@
            &&& !ends(".rs"@) && !ends(".js"@) && !ends(".ts"@) && !ends(".py"@) ==> s.2 == "modify"@
                && s.3 == "maintainability"@ && s.4 == "low"@
        }),
{
    assert(first_n(changes, 3)[i] == changes[i]);
}

/// A group of a file lists exactly the positions of that file's suggestions:
/// every listed position is below `n` and holds a suggestion with exactly the
/// group's path, and every such position is listed.
pub proof fn law_group_positions_match_the_path(s: Seq<SuggestionView>, path: Seq<char>, n: int)
    requires
        0 <= n <= s.len(),
        n <= usize::MAX + 1,
    ensures
        forall|k: int|
            0 <= k < positions_with_path(s, path, n).len() ==> (#[trigger] positions_with_path(
                s,
                path,
                n,
            )[k]) < n && s[positions_with_path(s, path, n)[k] as int].0 == path,
        forall|i: int|
            0 <= i < n ==> (positions_with_path(s, path, n).contains(i as usize) <==> (#[trigger] s[i]).0
                == path),
    decreases n,
{
    if n > 0 {
        law_group_positions_match_the_path(s, path, n - 1);
        let prev = positions_with_path(s, path, n - 1);
        let cur = positions_with_path(s, path, n);
        assert forall|k: int| 0 <= k < cur.len() implies (#[trigger] cur[k]) < n && s[cur[k] as int].0 == path by {
            if k < prev.len() {
                assert(cur[k] == prev[k]);
            }
        }
        assert forall|i: int| 0 <= i < n implies (cur.contains(i as usize) <==> (#[trigger] s[i]).0 == path) by {
            if cur.contains(i as usize) {
                let j = choose|j: int| 0 <= j < cur.len() && cur[j] == i as usize;
                if j < prev.len() {
                    assert(prev[j] == cur[j]);
                }
            }
            if i < n - 1 && prev.contains(i as usize) {
                let j = choose|j: int| 0 <= j < prev.len() && prev[j] == i as usize;
                if s[n - 1].0 == path {
                    assert(cur[j] == prev[j]);
                }
            }
            if i == n - 1 && s[i].0 == path {
                assert(cur[prev.len() as int] == i as usize);
            }
        }
    }
}


/// The severity count of a group is the number of its positions whose
/// suggestion has exactly that severity.
pub proof fn law_severity_count_is_filtered_length(s: Seq<SuggestionView>, idx: Seq<usize>, severity: Seq<char>)
    ensures
        severity_count(s, idx, severity) == idx.filter(|j: usize| s[j as int].4 == severity).len(),
    decreases idx.len(),
{
    reveal(Seq::filter);
    if idx.len() > 0 {
        law_severity_count_is_filtered_length(s, idx.drop_last(), severity);
    }
}

} // verus!
