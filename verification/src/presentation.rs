//! How changes and suggestions are presented: line markers, line number
//! columns, change counts and severity badges.

use vstd::prelude::*;

use crate::diff::line_changes_view;
use crate::model::{ChangeType, LineChange, LineChangeView};
use crate::text::{all_white_space, decimal, decimal_string, is_blank, left_pad, pad_left, same_str};
use vstd::string::StringExecFns;

verus! {

/// How many line changes have type `t`.
pub open spec fn type_count(lcs: Seq<LineChangeView>, t: ChangeType) -> nat
    decreases lcs.len(),
{
    if lcs.len() == 0 {
        0
    } else {
        type_count(lcs.drop_last(), t) + if lcs.last().2 == t {
            1nat
        } else {
            0nat
        }
    }
}

/// How many of the line changes have type `t`.
pub fn count_change_type(changes: &Vec<LineChange>, t: ChangeType) -> (n: usize)
    ensures
        n == type_count(line_changes_view(changes@), t),
{
    let ghost lcs = line_changes_view(changes@);
    let mut n: usize = 0;
    let mut i: usize = 0;
    while i < changes.len()
        invariant
            i <= changes.len(),
            lcs == line_changes_view(changes@),
            n == type_count(lcs.take(i as int), t),
            n <= i,
        decreases changes.len() - i,
    {
        assert(lcs.take(i + 1).drop_last() =~= lcs.take(i as int));
        assert(lcs[i as int] == changes@[i as int]@);
        if changes[i].change_type == t {
            n = n + 1;
        }
        i = i + 1;
    }
    assert(lcs.take(changes.len() as int) =~= lcs);
    n
}

/// The marker in front of a line: `+` added, `-` removed, `~` modified, a
/// space when unchanged.
pub open spec fn marker(t: ChangeType) -> Seq<char> {
    match t {
        ChangeType::Added => "+"@,
        ChangeType::Removed => "-"@,
        ChangeType::Modified => "~"@,
        ChangeType::Equal => " "@,
    }
}

/// The marker in front of a line.
pub fn change_marker(t: ChangeType) -> (r: &'static str)
    ensures
        r@ == marker(t),
{
    match t {
        ChangeType::Added => "+",
        ChangeType::Removed => "-",
        ChangeType::Modified => "~",
        ChangeType::Equal => " ",
    }
}

/// The line number column: both numbers right-aligned in four characters
/// (`old:new`), blanks standing for a missing number.
pub open spec fn number_column(a: Option<u32>, b: Option<u32>) -> Seq<char> {
    match (a, b) {
        (Some(a), Some(b)) => left_pad(decimal(a as nat), 4) + ":"@ + left_pad(decimal(b as nat), 4),
        (Some(a), None) => left_pad(decimal(a as nat), 4) + ":    "@,
        (None, Some(b)) => "    "@ + left_pad(decimal(b as nat), 4),
        (None, None) => "        "@,
    }
}

/// The line number column of a line change.
pub fn line_number_label(a: Option<u32>, b: Option<u32>) -> (r: String)
    ensures
        r@ == number_column(a, b),
{
    match (a, b) {
        (Some(a), Some(b)) => {
            let mut r = pad_left(decimal_string(a as u64), 4);
            r.append(":");
            let right = pad_left(decimal_string(b as u64), 4);
            r.append(right.as_str());
            r
        },
        (Some(a), None) => {
            let mut r = pad_left(decimal_string(a as u64), 4);
            r.append(":    ");
            r
        },
        (None, Some(b)) => {
            let mut r = String::from_str("    ");
            let right = pad_left(decimal_string(b as u64), 4);
            r.append(right.as_str());
            r
        },
        (None, None) => String::from_str("        "),
    }
}

/// An unchanged line that is blank is not shown.
pub fn is_hidden_line(change: &LineChange) -> (hidden: bool)
    ensures
        hidden == (change.change_type == ChangeType::Equal && all_white_space(change.content@)),
{
    change.change_type == ChangeType::Equal && is_blank(change.content.as_str())
}

/// A color as red, green and blue.
pub type Rgb = (u8, u8, u8);

/// The color and icon of a severity; unknown severities look like `low`.
pub open spec fn severity_badge_spec(severity: Seq<char>) -> (Rgb, Seq<char>) {
    if severity == "critical"@ {
        ((220, 53, 69), "🚨"@)
    } else if severity == "high"@ {
        ((218, 54, 51), "⚠️"@)
    } else if severity == "medium"@ {
        ((255, 193, 7), "⚡"@)
    } else {
        ((108, 117, 125), "ℹ️"@)
    }
}

/// The color and icon of a severity.
pub fn severity_badge(severity: &str) -> (r: (Rgb, &'static str))
    ensures
        (r.0, r.1@) == severity_badge_spec(severity@),
{
    if same_str(severity, "critical") {
        ((220, 53, 69), "🚨")
    } else if same_str(severity, "high") {
        ((218, 54, 51), "⚠️")
    } else if same_str(severity, "medium") {
        ((255, 193, 7), "⚡")
    } else {
        ((108, 117, 125), "ℹ️")
    }
}

/// The color and icon of a category; unknown categories get a note icon.
pub open spec fn category_badge_spec(category: Seq<char>) -> (Rgb, Seq<char>) {
    if category == "add"@ {
        ((46, 160, 67), "➕"@)
    } else if category == "modify"@ {
        ((255, 193, 7), "✏️"@)
    } else if category == "remove"@ {
        ((218, 54, 51), "❌"@)
    } else {
        ((108, 117, 125), "📝"@)
    }
}

/// The color and icon of a category.
pub fn category_badge(category: &str) -> (r: (Rgb, &'static str))
    ensures
        (r.0, r.1@) == category_badge_spec(category@),
{
    if same_str(category, "add") {
        ((46, 160, 67), "➕")
    } else if same_str(category, "modify") {
        ((255, 193, 7), "✏️")
    } else if same_str(category, "remove") {
        ((218, 54, 51), "❌")
    } else {
        ((108, 117, 125), "📝")
    }
}


/// The count for a type is the number of line changes of exactly that type:
/// the length of the list kept by filtering on the type.
pub proof fn law_type_count_is_filtered_length(lcs: Seq<LineChangeView>, t: ChangeType)
    ensures
        type_count(lcs, t) == lcs.filter(|c: LineChangeView| c.2 == t).len(),
    decreases lcs.len(),
{
    reveal(Seq::filter);
    if lcs.len() > 0 {
        law_type_count_is_filtered_length(lcs.drop_last(), t);
    }
}

/// Every line change has exactly one type: the counts of the four types add up
/// to the number of line changes, and a type no line has counts 0.
pub proof fn law_type_counts_partition(lcs: Seq<LineChangeView>, t: ChangeType)
    ensures
        type_count(lcs, ChangeType::Added) + type_count(lcs, ChangeType::Removed) + type_count(
            lcs,
            ChangeType::Modified,
        ) + type_count(lcs, ChangeType::Equal) == lcs.len(),
        (forall|i: int| 0 <= i < lcs.len() ==> (#[trigger] lcs[i]).2 != t) ==> type_count(lcs, t) == 0,
    decreases lcs.len(),
{
    if lcs.len() > 0 {
        law_type_counts_partition(lcs.drop_last(), t);
        assert forall|i: int| 0 <= i < lcs.drop_last().len() implies lcs.drop_last()[i] == lcs[i] by {}
    }
}

} // verus!
