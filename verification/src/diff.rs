//! Line-level differences between two versions of a file, numbered on both sides.

use vstd::prelude::*;

use crate::model::{ChangeType, LineChange, LineChangeView};
use crate::text::{count_char, line_count, trim_newlines_end, trim_trailing_newlines};

verus! {

/// Which side of a diff a line belongs to (as `similar::ChangeTag`).
#[derive(Debug, Clone, Copy, PartialEq, Eq, Structural)]
pub enum DiffTag {
    /// The line is only in the old version.
    Delete,
    /// The line is only in the new version.
    Insert,
    /// The line is in both versions.
    Equal,
}

/// One line of a line diff, as the diff prints it.
#[derive(Debug, Clone)]
pub struct DiffLine {
    /// Which side the line belongs to.
    pub tag: DiffTag,
    /// The line, newline-terminated.
    pub text: String,
}

/// A diff line as a plain value.
pub type DiffEntry = (DiffTag, Seq<char>);

/// The plain values of a sequence of diff lines.
pub open spec fn diff_view(v: Seq<DiffLine>) -> Seq<DiffEntry> {
    v.map_values(|d: DiffLine| (d.tag, d.text@))
}

/// The line diff that `similar` computes between `old` and `new` with the
/// patience algorithm, each change printed with its `Display` form.
pub uninterp spec fn patience_line_diff(old: Seq<char>, new: Seq<char>) -> Seq<DiffEntry>;

/// A line as a line diff prints it: it ends with its newline and holds no other.
pub open spec fn is_diff_line(t: Seq<char>) -> bool {
    t.len() >= 1 && t.last() == '\n' && !t.drop_last().contains('\n')
}

/// `s` with a newline added at its end when its last line lacks one.
pub open spec fn newline_completed(s: Seq<char>) -> Seq<char> {
    if s.len() > 0 && s.last() != '\n' {
        s.push('\n')
    } else {
        s
    }
}

/// The old-version lines of `d` (deleted or kept), concatenated.
pub open spec fn old_side_text(d: Seq<DiffEntry>) -> Seq<char>
    decreases d.len(),
{
    if d.len() == 0 {
        Seq::empty()
    } else {
        old_side_text(d.drop_last()) + if is_old_side(d.last().0) {
            d.last().1
        } else {
            Seq::empty()
        }
    }
}

/// The new-version lines of `d` (inserted or kept), concatenated.
pub open spec fn new_side_text(d: Seq<DiffEntry>) -> Seq<char>
    decreases d.len(),
{
    if d.len() == 0 {
        Seq::empty()
    } else {
        new_side_text(d.drop_last()) + if is_new_side(d.last().0) {
            d.last().1
        } else {
            Seq::empty()
        }
    }
}

/// Calls `similar::TextDiff::configure().algorithm(Algorithm::Patience).diff_lines`
/// and lists `iter_all_changes()`, each change as its tag and its `to_string()`.
/// The result is named, not described: it is `patience_line_diff` of the two texts.
/// Three facts of the source are stated. `diff_lines` cuts each text into lines
/// ending at `'\n'`, `'\r\n'` or a lone `'\r'` (the last may have none), the
/// changes cover the lines of the old text in order on the deleted and kept
/// side and those of the new text on the inserted and kept side, and a change
/// prints as its line with a `'\n'` added when the line has none; so, for texts
/// without `'\r'`, each side prints its text line by line. Two equal texts
/// give kept lines only: the Myers step under the patience algorithm reports
/// the common prefix of the two line lists as kept lines.
#[verifier::external_body]
fn similar_patience_line_diff(old: &str, new: &str) -> (r: Vec<DiffLine>)
    ensures
        diff_view(r@) == patience_line_diff(old@, new@),
        (!old@.contains('\r') && !new@.contains('\r')) ==> (old_side_text(diff_view(r@))
            == newline_completed(old@) && new_side_text(diff_view(r@)) == newline_completed(new@)
            && forall|i: int| 0 <= i < r.len() ==> is_diff_line(#[trigger] r@[i].text@)),
        (old@ == new@) ==> (forall|i: int| 0 <= i < r.len() ==> #[trigger] r@[i].tag == DiffTag::Equal),
{
    let diff = similar::TextDiff::configure().algorithm(similar::Algorithm::Patience).diff_lines(
        old,
        new,
    );
    diff.iter_all_changes().map(
        |c| DiffLine {
            tag: match c.tag() {
                similar::ChangeTag::Delete => DiffTag::Delete,
                similar::ChangeTag::Insert => DiffTag::Insert,
                similar::ChangeTag::Equal => DiffTag::Equal,
            },
            text: c.to_string(),
        },
    ).collect()
}

/// A line that exists in the old version (deleted or kept).
pub open spec fn is_old_side(t: DiffTag) -> bool {
    t != DiffTag::Insert
}

/// A line that exists in the new version (inserted or kept).
pub open spec fn is_new_side(t: DiffTag) -> bool {
    t != DiffTag::Delete
}

/// Number of old-version lines in `d`.
pub open spec fn old_side_count(d: Seq<DiffEntry>) -> nat
    decreases d.len(),
{
    if d.len() == 0 {
        0
    } else {
        old_side_count(d.drop_last()) + if is_old_side(d.last().0) {
            1nat
        } else {
            0nat
        }
    }
}

/// Number of new-version lines in `d`.
pub open spec fn new_side_count(d: Seq<DiffEntry>) -> nat
    decreases d.len(),
{
    if d.len() == 0 {
        0
    } else {
        new_side_count(d.drop_last()) + if is_new_side(d.last().0) {
            1nat
        } else {
            0nat
        }
    }
}

/// Line numbers can be given to every line of `d` in a `u32`.
pub open spec fn numbering_fits(d: Seq<DiffEntry>) -> bool {
    old_side_count(d) < u32::MAX && new_side_count(d) < u32::MAX
}

/// The line change for entry `i` of `d`: old-side lines are numbered from 1 in
/// the old version, new-side lines from 1 in the new version; the content is
/// the line without its trailing newlines.
pub open spec fn numbered_line(d: Seq<DiffEntry>, i: int) -> LineChangeView {
    let a = (old_side_count(d.take(i)) + 1) as u32;
    let b = (new_side_count(d.take(i)) + 1) as u32;
    let content = trim_trailing_newlines(d[i].1);
    match d[i].0 {
        DiffTag::Delete => (Some(a), None, ChangeType::Removed, content),
        DiffTag::Insert => (None, Some(b), ChangeType::Added, content),
        DiffTag::Equal => (Some(a), Some(b), ChangeType::Equal, content),
    }
}

/// The line changes for every entry of `d`.
pub open spec fn numbered_lines(d: Seq<DiffEntry>) -> Seq<LineChangeView> {
    Seq::new(d.len(), |i: int| numbered_line(d, i))
}

/// The plain values of a sequence of line changes.
pub open spec fn line_changes_view(v: Seq<LineChange>) -> Seq<LineChangeView> {
    v.map_values(|c: LineChange| c@)
}

/// The lines of the old version in `v` (removed or kept), each content
/// followed by a newline, concatenated.
pub open spec fn old_version_text(v: Seq<LineChangeView>) -> Seq<char>
    decreases v.len(),
{
    if v.len() == 0 {
        Seq::empty()
    } else {
        old_version_text(v.drop_last()) + if v.last().2 != ChangeType::Added {
            v.last().3.push('\n')
        } else {
            Seq::empty()
        }
    }
}

/// The lines of the new version in `v` (added or kept), each content followed
/// by a newline, concatenated.
pub open spec fn new_version_text(v: Seq<LineChangeView>) -> Seq<char>
    decreases v.len(),
{
    if v.len() == 0 {
        Seq::empty()
    } else {
        new_version_text(v.drop_last()) + if v.last().2 != ChangeType::Removed {
            v.last().3.push('\n')
        } else {
            Seq::empty()
        }
    }
}

proof fn lemma_counts_take_succ(d: Seq<DiffEntry>, i: int)
    requires
        0 <= i < d.len(),
    ensures
        old_side_count(d.take(i + 1)) == old_side_count(d.take(i)) + if is_old_side(d[i].0) {
            1nat
        } else {
            0nat
        },
        new_side_count(d.take(i + 1)) == new_side_count(d.take(i)) + if is_new_side(d[i].0) {
            1nat
        } else {
            0nat
        },
{
    assert(d.take(i + 1).drop_last() =~= d.take(i));
}

proof fn lemma_counts_take_mono(d: Seq<DiffEntry>, i: int)
    requires
        0 <= i <= d.len(),
    ensures
        old_side_count(d.take(i)) <= old_side_count(d),
        new_side_count(d.take(i)) <= new_side_count(d),
        old_side_count(d.take(i)) <= i,
        new_side_count(d.take(i)) <= i,
    decreases d.len() - i,
{
    lemma_counts_bounded(d.take(i));
    if i < d.len() {
        lemma_counts_take_succ(d, i);
        lemma_counts_take_mono(d, i + 1);
    } else {
        assert(d.take(i) =~= d);
        lemma_counts_bounded(d);
    }
}

proof fn lemma_counts_bounded(d: Seq<DiffEntry>)
    ensures
        old_side_count(d) <= d.len(),
        new_side_count(d) <= d.len(),
    decreases d.len(),
{
    if d.len() > 0 {
        lemma_counts_bounded(d.drop_last());
    }
}

/// Numbers the lines of a diff: deleted lines carry their old line number,
/// inserted lines their new line number, kept lines both.
pub fn line_changes_from_diff(diff: &Vec<DiffLine>) -> (r: Vec<LineChange>)
    requires
        numbering_fits(diff_view(diff@)),
    ensures
        line_changes_view(r@) == numbered_lines(diff_view(diff@)),
{
    let ghost d = diff_view(diff@);
    let mut r: Vec<LineChange> = Vec::new();
    let mut line_a: u32 = 1;
    let mut line_b: u32 = 1;
    let mut i: usize = 0;
    while i < diff.len()
        invariant
            i <= diff.len(),
            d == diff_view(diff@),
            numbering_fits(d),
            r.len() == i,
            line_a == old_side_count(d.take(i as int)) + 1,
            line_b == new_side_count(d.take(i as int)) + 1,
            forall|k: int| 0 <= k < i ==> r@[k]@ == #[trigger] numbered_line(d, k),
        decreases diff.len() - i,
    {
        proof {
            lemma_counts_take_succ(d, i as int);
            lemma_counts_take_mono(d, i + 1);
        }
        let content = trim_newlines_end(diff[i].text.as_str());
        match diff[i].tag {
            DiffTag::Delete => {
                r.push(
                    LineChange {
                        line_a: Some(line_a),
                        line_b: None,
                        change_type: ChangeType::Removed,
                        content,
                    },
                );
                line_a = line_a + 1;
            },
            DiffTag::Insert => {
                r.push(
                    LineChange {
                        line_a: None,
                        line_b: Some(line_b),
                        change_type: ChangeType::Added,
                        content,
                    },
                );
                line_b = line_b + 1;
            },
            DiffTag::Equal => {
                r.push(
                    LineChange {
                        line_a: Some(line_a),
                        line_b: Some(line_b),
                        change_type: ChangeType::Equal,
                        content,
                    },
                );
                line_a = line_a + 1;
                line_b = line_b + 1;
            },
        }
        i = i + 1;
    }
    assert(line_changes_view(r@) =~= numbered_lines(d));
    r
}

/// Whether the lines of `diff` can be numbered in a `u32` on both sides.
pub fn diff_numbering_fits(diff: &Vec<DiffLine>) -> (b: bool)
    ensures
        b == numbering_fits(diff_view(diff@)),
{
    let ghost d = diff_view(diff@);
    let mut old_count: usize = 0;
    let mut new_count: usize = 0;
    let mut i: usize = 0;
    while i < diff.len()
        invariant
            i <= diff.len(),
            d == diff_view(diff@),
            old_count == old_side_count(d.take(i as int)),
            new_count == new_side_count(d.take(i as int)),
        decreases diff.len() - i,
    {
        proof {
            lemma_counts_take_succ(d, i as int);
            lemma_counts_take_mono(d, i + 1);
        }
        match diff[i].tag {
            DiffTag::Delete => {
                old_count = old_count + 1;
            },
            DiffTag::Insert => {
                new_count = new_count + 1;
            },
            DiffTag::Equal => {
                old_count = old_count + 1;
                new_count = new_count + 1;
            },
        }
        i = i + 1;
    }
    assert(d.take(diff.len() as int) =~= d);
    old_count < 4294967295 && new_count < 4294967295
}

/// The line changes between two versions of a file, by the patience algorithm.
/// `None` when a side has so many lines that they cannot be numbered in a `u32`.
///
/// For texts without `'\r'` the diff drops no line and invents none: the
/// old-version lines of the result, each followed by a newline, spell the old
/// text (with a newline added at its end when it has none), the new-version
/// lines spell the new text, no content holds a newline, and the line numbers
/// on each side run up to that side's line count; so the result is present
/// exactly when each text has fewer than `u32::MAX` lines. A text compared with itself
/// gives kept lines only, numbered 1, 2, 3, ... on both sides.
pub fn compute_line_changes(old_content: &str, new_content: &str) -> (r: Option<Vec<LineChange>>)
    ensures
        r is Some <==> numbering_fits(patience_line_diff(old_content@, new_content@)),
        r matches Some(v) ==> line_changes_view(v@) == numbered_lines(
            patience_line_diff(old_content@, new_content@),
        ),
        r matches Some(v) ==> ((!old_content@.contains('\r') && !new_content@.contains('\r')) ==> (
        old_version_text(line_changes_view(v@)) == newline_completed(old_content@)
            && new_version_text(line_changes_view(v@)) == newline_completed(new_content@) && (forall|
            i: int,
        | 0 <= i < v.len() ==> !(#[trigger] v@[i]).content@.contains('\n')))),
        (!old_content@.contains('\r') && !new_content@.contains('\r')) ==> (old_side_count(
            patience_line_diff(old_content@, new_content@),
        ) == line_count(old_content@) && new_side_count(
            patience_line_diff(old_content@, new_content@),
        ) == line_count(new_content@)),
        (!old_content@.contains('\r') && !new_content@.contains('\r')) ==> (r is Some <==> (
        line_count(old_content@) < u32::MAX && line_count(new_content@) < u32::MAX)),
        r matches Some(v) ==> (old_content@ == new_content@ ==> (forall|i: int|
            0 <= i < v.len() ==> (#[trigger] v@[i]).change_type == ChangeType::Equal && v@[i].line_a
                == Some((i + 1) as u32) && v@[i].line_b == Some((i + 1) as u32))),
        r matches Some(v) ==> ((old_content@ == new_content@ && !old_content@.contains('\r')) ==> v.len()
            == line_count(old_content@)),
{
    let diff = similar_patience_line_diff(old_content, new_content);
    let ghost d = diff_view(diff@);
    proof {
        assert forall|i: int| 0 <= i < d.len() implies #[trigger] d[i] == (diff@[i].tag, diff@[i].text@) by {}
        if !old_content@.contains('\r') && !new_content@.contains('\r') {
            assert forall|i: int| 0 <= i < d.len() implies is_diff_line(#[trigger] d[i].1) by {
                assert(is_diff_line(diff@[i].text@));
            }
            lemma_numbered_text(d);
            lemma_side_counts(d);
            lemma_completed_count(old_content@);
            lemma_completed_count(new_content@);
        }
    }
    if diff_numbering_fits(&diff) {
        let v = line_changes_from_diff(&diff);
        proof {
            if !old_content@.contains('\r') && !new_content@.contains('\r') {
                assert forall|i: int| 0 <= i < v.len() implies !(#[trigger] v@[i]).content@.contains('\n') by {
                    assert(line_changes_view(v@)[i] == numbered_lines(d)[i]);
                }
            }
            if old_content@ == new_content@ {
                assert forall|i: int| 0 <= i < d.len() implies #[trigger] d[i].0 == DiffTag::Equal by {
                    assert(diff@[i].tag == DiffTag::Equal);
                }
                lemma_all_kept_numbering(d);
                assert forall|i: int| 0 <= i < v.len() implies (#[trigger] v@[i]).change_type == ChangeType::Equal
                    && v@[i].line_a == Some((i + 1) as u32) && v@[i].line_b == Some((i + 1) as u32) by {
                    assert(line_changes_view(v@)[i] == numbered_lines(d)[i]);
                    assert(old_side_count(d.take(i)) == i && new_side_count(d.take(i)) == i);
                    assert(d[i].0 == DiffTag::Equal);
                }
            }
        }
        Some(v)
    } else {
        None
    }
}

proof fn lemma_trim_diff_line(t: Seq<char>)
    requires
        is_diff_line(t),
    ensures
        trim_trailing_newlines(t) == t.drop_last(),
        trim_trailing_newlines(t).push('\n') == t,
        !trim_trailing_newlines(t).contains('\n'),
{
    let u = t.drop_last();
    if u.len() > 0 {
        assert(u[u.len() - 1] == u.last());
        assert(u.last() != '\n');
    }
    assert(trim_trailing_newlines(u) == u);
    assert(trim_trailing_newlines(t) == trim_trailing_newlines(u));
    assert(u.push('\n') =~= t);
}

proof fn lemma_numbered_lines_drop_last(d: Seq<DiffEntry>)
    requires
        d.len() > 0,
    ensures
        numbered_lines(d).drop_last() == numbered_lines(d.drop_last()),
{
    assert forall|i: int| 0 <= i < d.len() - 1 implies numbered_line(d, i) == numbered_line(d.drop_last(), i) by {
        assert(d.drop_last().take(i) =~= d.take(i));
    }
    assert(numbered_lines(d).drop_last() =~= numbered_lines(d.drop_last()));
}

/// When every entry is a printed line, the numbered lines spell both sides of
/// the diff, and no content holds a newline.
proof fn lemma_numbered_text(d: Seq<DiffEntry>)
    requires
        forall|i: int| 0 <= i < d.len() ==> is_diff_line(#[trigger] d[i].1),
    ensures
        old_version_text(numbered_lines(d)) == old_side_text(d),
        new_version_text(numbered_lines(d)) == new_side_text(d),
        forall|i: int| 0 <= i < d.len() ==> !(#[trigger] numbered_lines(d)[i]).3.contains('\n'),
    decreases d.len(),
{
    if d.len() > 0 {
        let n = d.len() - 1;
        assert forall|i: int| 0 <= i < d.drop_last().len() implies is_diff_line(
            #[trigger] d.drop_last()[i].1,
        ) by {
            assert(d.drop_last()[i] == d[i]);
        }
        lemma_numbered_text(d.drop_last());
        lemma_numbered_lines_drop_last(d);
        lemma_trim_diff_line(d[n].1);
        let v = numbered_lines(d);
        assert(v.last() == numbered_line(d, n));
        assert forall|i: int| 0 <= i < d.len() implies !(#[trigger] numbered_lines(d)[i]).3.contains('\n') by {
            if i < n {
                assert(numbered_lines(d)[i] == numbered_lines(d.drop_last())[i]);
            } else {
                lemma_trim_diff_line(d[i].1);
            }
        }
    }
}

proof fn lemma_count_char_concat(a: Seq<char>, b: Seq<char>, c: char)
    ensures
        count_char(a + b, c) == count_char(a, c) + count_char(b, c),
    decreases b.len(),
{
    if b.len() > 0 {
        assert((a + b).drop_last() =~= a + b.drop_last());
        lemma_count_char_concat(a, b.drop_last(), c);
    } else {
        assert(a + b =~= a);
    }
}

proof fn lemma_count_char_absent(s: Seq<char>, c: char)
    requires
        !s.contains(c),
    ensures
        count_char(s, c) == 0,
    decreases s.len(),
{
    if s.len() > 0 {
        assert forall|i: int| 0 <= i < s.drop_last().len() implies s.drop_last()[i] != c by {
            assert(s[i] == s.drop_last()[i]);
        }
        lemma_count_char_absent(s.drop_last(), c);
        assert(s.contains(s.last()));
    }
}

/// When every entry is a printed line, each side has as many lines as its text
/// has newlines.
proof fn lemma_side_counts(d: Seq<DiffEntry>)
    requires
        forall|i: int| 0 <= i < d.len() ==> is_diff_line(#[trigger] d[i].1),
    ensures
        count_char(old_side_text(d), '\n') == old_side_count(d),
        count_char(new_side_text(d), '\n') == new_side_count(d),
    decreases d.len(),
{
    if d.len() > 0 {
        let n = d.len() - 1;
        assert forall|i: int| 0 <= i < d.drop_last().len() implies is_diff_line(
            #[trigger] d.drop_last()[i].1,
        ) by {
            assert(d.drop_last()[i] == d[i]);
        }
        lemma_side_counts(d.drop_last());
        let t = d[n].1;
        lemma_count_char_absent(t.drop_last(), '\n');
        assert(t.drop_last().push('\n') =~= t);
        assert(count_char(t, '\n') == 1);
        lemma_count_char_concat(old_side_text(d.drop_last()), t, '\n');
        lemma_count_char_concat(new_side_text(d.drop_last()), t, '\n');
        lemma_count_char_concat(old_side_text(d.drop_last()), Seq::empty(), '\n');
        lemma_count_char_concat(new_side_text(d.drop_last()), Seq::empty(), '\n');
    }
}

/// A text with its last line completed has as many newlines as it has lines.
proof fn lemma_completed_count(s: Seq<char>)
    ensures
        count_char(newline_completed(s), '\n') == line_count(s),
{
    if s.len() > 0 && s.last() != '\n' {
        assert(s.push('\n').drop_last() =~= s);
    }
}

/// When every entry is kept, entry `i` is the `i + 1`-th line on both sides.
proof fn lemma_all_kept_numbering(d: Seq<DiffEntry>)
    requires
        forall|i: int| 0 <= i < d.len() ==> #[trigger] d[i].0 == DiffTag::Equal,
    ensures
        forall|i: int|
            0 <= i <= d.len() ==> old_side_count(#[trigger] d.take(i)) == i && new_side_count(
                d.take(i),
            ) == i,
        old_side_count(d) == d.len(),
{
    assert forall|i: int| 0 <= i <= d.len() implies old_side_count(#[trigger] d.take(i)) == i
        && new_side_count(d.take(i)) == i by {
        lemma_kept_prefix(d, i);
    }
    assert(d.take(d.len() as int) =~= d);
}

proof fn lemma_kept_prefix(d: Seq<DiffEntry>, i: int)
    requires
        0 <= i <= d.len(),
        forall|k: int| 0 <= k < d.len() ==> #[trigger] d[k].0 == DiffTag::Equal,
    ensures
        old_side_count(d.take(i)) == i,
        new_side_count(d.take(i)) == i,
    decreases i,
{
    if i > 0 {
        lemma_kept_prefix(d, i - 1);
        lemma_counts_take_succ(d, i - 1);
    } else {
        assert(d.take(0).len() == 0);
    }
}

// ---------------------------------------------------------------------------
// Laws
// ---------------------------------------------------------------------------

proof fn lemma_counts_between(d: Seq<DiffEntry>, i: int, j: int)
    requires
        0 <= i < j <= d.len(),
        forall|k: int| i < k < j ==> !is_old_side(#[trigger] d[k].0),
    ensures
        old_side_count(d.take(j)) == old_side_count(d.take(i + 1)),
    decreases j - i,
{
    if j > i + 1 {
        lemma_counts_between(d, i, j - 1);
        lemma_counts_take_succ(d, j - 1);
    }
}

proof fn lemma_new_counts_between(d: Seq<DiffEntry>, i: int, j: int)
    requires
        0 <= i < j <= d.len(),
        forall|k: int| i < k < j ==> !is_new_side(#[trigger] d[k].0),
    ensures
        new_side_count(d.take(j)) == new_side_count(d.take(i + 1)),
    decreases j - i,
{
    if j > i + 1 {
        lemma_new_counts_between(d, i, j - 1);
        lemma_counts_take_succ(d, j - 1);
    }
}

/// Old line numbers run 1, 2, 3, ...: the first old-version line is numbered 1,
/// and two old-version lines with none between them are numbered one apart.
pub proof fn law_old_line_numbers_consecutive(d: Seq<DiffEntry>, i: int, j: int)
    requires
        numbering_fits(d),
        0 <= i < j < d.len(),
        is_old_side(d[i].0),
        is_old_side(d[j].0),
        forall|k: int| i < k < j ==> !is_old_side(#[trigger] d[k].0),
    ensures
        numbered_line(d, i).0 matches Some(a) && numbered_line(d, j).0 == Some((a + 1) as u32),
        forall|k: int|
            0 <= k < d.len() && is_old_side(d[k].0) && (forall|m: int|
                0 <= m < k ==> !is_old_side(#[trigger] d[m].0)) ==> #[trigger] numbered_line(d, k).0
                == Some(1u32),
{
    lemma_counts_take_succ(d, i);
    lemma_counts_between(d, i, j);
    lemma_counts_take_mono(d, j);
    assert forall|k: int|
        0 <= k < d.len() && is_old_side(d[k].0) && (forall|m: int|
            0 <= m < k ==> !is_old_side(#[trigger] d[m].0)) implies #[trigger] numbered_line(
        d,
        k,
    ).0 == Some(1u32) by {
        lemma_no_old_before(d, k);
    }
}

proof fn lemma_no_old_before(d: Seq<DiffEntry>, k: int)
    requires
        0 <= k <= d.len(),
        forall|m: int| 0 <= m < k ==> !is_old_side(#[trigger] d[m].0),
    ensures
        old_side_count(d.take(k)) == 0,
    decreases k,
{
    if k > 0 {
        lemma_no_old_before(d, k - 1);
        lemma_counts_take_succ(d, k - 1);
    } else {
        assert(d.take(0).len() == 0);
    }
}

proof fn lemma_no_new_before(d: Seq<DiffEntry>, k: int)
    requires
        0 <= k <= d.len(),
        forall|m: int| 0 <= m < k ==> !is_new_side(#[trigger] d[m].0),
    ensures
        new_side_count(d.take(k)) == 0,
    decreases k,
{
    if k > 0 {
        lemma_no_new_before(d, k - 1);
        lemma_counts_take_succ(d, k - 1);
    } else {
        assert(d.take(0).len() == 0);
    }
}

/// New line numbers run 1, 2, 3, ... in the same way.
pub proof fn law_new_line_numbers_consecutive(d: Seq<DiffEntry>, i: int, j: int)
    requires
        numbering_fits(d),
        0 <= i < j < d.len(),
        is_new_side(d[i].0),
        is_new_side(d[j].0),
        forall|k: int| i < k < j ==> !is_new_side(#[trigger] d[k].0),
    ensures
        numbered_line(d, i).1 matches Some(b) && numbered_line(d, j).1 == Some((b + 1) as u32),
        forall|k: int|
            0 <= k < d.len() && is_new_side(d[k].0) && (forall|m: int|
                0 <= m < k ==> !is_new_side(#[trigger] d[m].0)) ==> #[trigger] numbered_line(d, k).1
                == Some(1u32),
{
    lemma_counts_take_succ(d, i);
    lemma_new_counts_between(d, i, j);
    lemma_counts_take_mono(d, j);
    assert forall|k: int|
        0 <= k < d.len() && is_new_side(d[k].0) && (forall|m: int|
            0 <= m < k ==> !is_new_side(#[trigger] d[m].0)) implies #[trigger] numbered_line(
        d,
        k,
    ).1 == Some(1u32) by {
        lemma_no_new_before(d, k);
    }
}

/// A line carries an old line number exactly when it is in the old version, a
/// new line number exactly when it is in the new version, and no line is ever
/// reported as modified.
pub proof fn law_sides_of_numbered_lines(d: Seq<DiffEntry>, i: int)
    requires
        0 <= i < d.len(),
    ensures
        numbered_line(d, i).0 is Some <==> is_old_side(d[i].0),
        numbered_line(d, i).1 is Some <==> is_new_side(d[i].0),
        numbered_line(d, i).2 != ChangeType::Modified,
        numbered_line(d, i).2 == ChangeType::Equal <==> d[i].0 == DiffTag::Equal,
{
}

} // verus!
