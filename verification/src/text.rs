//! Character-level helpers on strings, each specified over `Seq<char>`.

use vstd::prelude::*;
use vstd::std_specs::iter::IteratorSpec;
use vstd::string::StrSliceExecFns;
use vstd::string::StringExecFns;

verus! {

broadcast use vstd::string::group_string_axioms;

// ---------------------------------------------------------------------------
// Specifications
// ---------------------------------------------------------------------------

/// Index of the last occurrence of `c` in `s`, or `-1` when there is none.
pub open spec fn last_index_of(s: Seq<char>, c: char) -> int
    decreases s.len(),
{
    if s.len() == 0 {
        -1
    } else if s.last() == c {
        s.len() - 1
    } else {
        last_index_of(s.drop_last(), c)
    }
}

/// `s` with every trailing `'\n'` removed.
pub open spec fn trim_trailing_newlines(s: Seq<char>) -> Seq<char>
    decreases s.len(),
{
    if s.len() > 0 && s.last() == '\n' {
        trim_trailing_newlines(s.drop_last())
    } else {
        s
    }
}

/// Number of occurrences of `c` in `s`.
pub open spec fn count_char(s: Seq<char>, c: char) -> nat
    decreases s.len(),
{
    if s.len() == 0 {
        0
    } else {
        count_char(s.drop_last(), c) + if s.last() == c {
            1nat
        } else {
            0nat
        }
    }
}

/// Number of lines of `s` in the sense of `str::lines`: lines end at `'\n'`,
/// and a final line without a terminator counts too.
pub open spec fn line_count(s: Seq<char>) -> nat {
    count_char(s, '\n') + if s.len() > 0 && s.last() != '\n' {
        1nat
    } else {
        0nat
    }
}

/// The ASCII digit for `d` (0 to 9).
pub open spec fn digit_char(d: nat) -> char {
    if d == 0 {
        '0'
    } else if d == 1 {
        '1'
    } else if d == 2 {
        '2'
    } else if d == 3 {
        '3'
    } else if d == 4 {
        '4'
    } else if d == 5 {
        '5'
    } else if d == 6 {
        '6'
    } else if d == 7 {
        '7'
    } else if d == 8 {
        '8'
    } else {
        '9'
    }
}

/// The decimal representation of `n`, without leading zeros.
pub open spec fn decimal(n: nat) -> Seq<char>
    decreases n,
{
    if n < 10 {
        seq![digit_char(n)]
    } else {
        decimal(n / 10) + seq![digit_char(n % 10)]
    }
}

/// `s` right-aligned in a field of `width` characters, padded with spaces.
pub open spec fn left_pad(s: Seq<char>, width: nat) -> Seq<char> {
    if s.len() >= width {
        s
    } else {
        Seq::new((width - s.len()) as nat, |i: int| ' ') + s
    }
}

/// `s` ends with `suffix`.
pub open spec fn has_suffix(s: Seq<char>, suffix: Seq<char>) -> bool {
    suffix.len() <= s.len() && s.subrange(s.len() - suffix.len(), s.len() as int) == suffix
}

/// `pattern` occurs in `s` as a contiguous block.
pub open spec fn has_infix(s: Seq<char>, pattern: Seq<char>) -> bool {
    exists|i: int|
        0 <= i && i + pattern.len() <= s.len() && #[trigger] s.subrange(i, i + pattern.len())
            == pattern
}

/// The part of `s` after its last `'/'` (all of `s` when it has none), as
/// `s.split('/').last()` gives it.
pub open spec fn after_last_slash(s: Seq<char>) -> Seq<char> {
    s.subrange(last_index_of(s, '/') + 1, s.len() as int)
}

/// Whether `c` has the Unicode `White_Space` property (as `char::is_whitespace`).
pub open spec fn is_white_space(c: char) -> bool {
    let u = c as u32;
    (0x09 <= u && u <= 0x0d) || u == 0x20 || u == 0x85 || u == 0xa0 || u == 0x1680 || (0x2000
        <= u && u <= 0x200a) || u == 0x2028 || u == 0x2029 || u == 0x202f || u == 0x205f || u
        == 0x3000
}

/// Every character of `s` is white space.
pub open spec fn all_white_space(s: Seq<char>) -> bool {
    forall|i: int| 0 <= i < s.len() ==> is_white_space(#[trigger] s[i])
}

/// `s` with white space removed at both ends (as `str::trim`).
pub open spec fn trim_white_space(s: Seq<char>) -> Seq<char>
    decreases s.len(),
{
    if s.len() > 0 && is_white_space(s.last()) {
        trim_white_space(s.drop_last())
    } else if s.len() > 0 && is_white_space(s[0]) {
        trim_white_space(s.drop_first())
    } else {
        s
    }
}

/// Lexicographic order on character sequences (code point by code point), which
/// is the order of `String` since UTF-8 keeps the order of code points.
pub open spec fn seq_less(a: Seq<char>, b: Seq<char>) -> bool
    decreases a.len(),
{
    if b.len() == 0 {
        false
    } else if a.len() == 0 {
        true
    } else if a[0] != b[0] {
        (a[0] as u32) < (b[0] as u32)
    } else {
        seq_less(a.drop_first(), b.drop_first())
    }
}

/// Lexicographic "less or equal".
pub open spec fn seq_less_eq(a: Seq<char>, b: Seq<char>) -> bool {
    seq_less(a, b) || a == b
}

/// The file name of a `/`-separated path, as `Path::file_name` gives it: the
/// last component, ignoring trailing separators and `.` components; none when
/// the path is empty, is `.` or `/`, or ends in `..`.
pub open spec fn file_name(p: Seq<char>) -> Option<Seq<char>>
    decreases p.len(),
{
    if p.len() == 0 {
        None
    } else if p.last() == '/' {
        file_name(p.drop_last())
    } else if p.last() == '.' && (p.len() == 1 || p[p.len() - 2] == '/') {
        file_name(p.drop_last())
    } else if p.len() >= 2 && p.last() == '.' && p[p.len() - 2] == '.' && (p.len() == 2 || p[p.len()
        - 3] == '/') {
        None
    } else {
        Some(after_last_slash(p))
    }
}

/// The extension of a file name, as `Path::extension` gives it: the part after
/// the last `.`, unless there is no `.` or the only `.` leads the name.
pub open spec fn name_extension(name: Seq<char>) -> Option<Seq<char>> {
    let d = last_index_of(name, '.');
    if d <= 0 {
        None
    } else {
        Some(name.subrange(d + 1, name.len() as int))
    }
}

/// The extension of a path (see `file_name` and `name_extension`).
pub open spec fn path_extension(p: Seq<char>) -> Option<Seq<char>> {
    match file_name(p) {
        Some(name) => name_extension(name),
        None => None,
    }
}

// ---------------------------------------------------------------------------
// Lemmas
// ---------------------------------------------------------------------------

/// `last_index_of` is `-1` or the index of an occurrence, with none after it.
pub proof fn lemma_last_index_of(s: Seq<char>, c: char)
    ensures
        -1 <= last_index_of(s, c) < s.len(),
        last_index_of(s, c) >= 0 ==> s[last_index_of(s, c)] == c,
        forall|k: int| last_index_of(s, c) < k < s.len() ==> s[k] != c,
    decreases s.len(),
{
    if s.len() > 0 && s.last() != c {
        lemma_last_index_of(s.drop_last(), c);
        assert forall|k: int| last_index_of(s, c) < k < s.len() implies s[k] != c by {
            if k < s.len() - 1 {
                assert(s.drop_last()[k] == s[k]);
            }
        }
    }
}

/// Seen through a prefix that holds every occurrence, `last_index_of` is unchanged.
pub proof fn lemma_last_index_of_take(s: Seq<char>, c: char, n: int)
    requires
        0 <= n <= s.len(),
        forall|k: int| n <= k < s.len() ==> s[k] != c,
    ensures
        last_index_of(s.take(n), c) == last_index_of(s, c),
    decreases s.len() - n,
{
    if n < s.len() {
        lemma_last_index_of_take(s, c, n + 1);
        assert(s.take(n + 1).drop_last() =~= s.take(n));
    } else {
        assert(s.take(n) =~= s);
    }
}

/// There are no more occurrences of `c` than characters, and fewer when `s`
/// does not end with `c`.
pub proof fn lemma_count_char_bound(s: Seq<char>, c: char)
    ensures
        count_char(s, c) <= s.len(),
        s.len() > 0 && s.last() != c ==> count_char(s, c) < s.len(),
    decreases s.len(),
{
    if s.len() > 0 {
        lemma_count_char_bound(s.drop_last(), c);
    }
}

pub proof fn lemma_count_char_push(s: Seq<char>, x: char, c: char)
    ensures
        count_char(s.push(x), c) == count_char(s, c) + if x == c {
            1nat
        } else {
            0nat
        },
{
    assert(s.push(x).drop_last() =~= s);
}

/// `seq_less` is irreflexive.
pub proof fn lemma_seq_less_irreflexive(a: Seq<char>)
    ensures
        !seq_less(a, a),
    decreases a.len(),
{
    if a.len() > 0 {
        lemma_seq_less_irreflexive(a.drop_first());
    }
}

/// `seq_less` is transitive.
pub proof fn lemma_seq_less_transitive(a: Seq<char>, b: Seq<char>, c: Seq<char>)
    requires
        seq_less(a, b),
        seq_less(b, c),
    ensures
        seq_less(a, c),
    decreases a.len(),
{
    if a.len() > 0 && b.len() > 0 && c.len() > 0 && a[0] == b[0] && b[0] == c[0] {
        lemma_seq_less_transitive(a.drop_first(), b.drop_first(), c.drop_first());
    }
}

/// Two different sequences are ordered one way or the other.
pub proof fn lemma_seq_less_total(a: Seq<char>, b: Seq<char>)
    ensures
        a == b || seq_less(a, b) || seq_less(b, a),
    decreases a.len(),
{
    if a.len() > 0 && b.len() > 0 && a[0] == b[0] {
        lemma_seq_less_total(a.drop_first(), b.drop_first());
        if a.drop_first() == b.drop_first() {
            assert(a =~= seq![a[0]] + a.drop_first());
            assert(b =~= seq![b[0]] + b.drop_first());
        }
    } else if a.len() == 0 && b.len() == 0 {
        assert(a =~= b);
    } else if a.len() > 0 && b.len() > 0 {
        vstd::utf8::char_u32_cast(a[0], a[0] as u32);
        vstd::utf8::char_u32_cast(b[0], b[0] as u32);
    }
}

/// `seq_less` is asymmetric.
pub proof fn lemma_seq_less_asymmetric(a: Seq<char>, b: Seq<char>)
    requires
        seq_less(a, b),
    ensures
        !seq_less(b, a),
{
    if seq_less(b, a) {
        lemma_seq_less_transitive(a, b, a);
        lemma_seq_less_irreflexive(a);
    }
}

// ---------------------------------------------------------------------------
// Executable functions
// ---------------------------------------------------------------------------

/// The characters of `s`, in order.
pub fn chars_of(s: &str) -> (v: Vec<char>)
    ensures
        v@ == s@,
{
    let mut v: Vec<char> = Vec::new();
    for c in it: s.chars()
        invariant
            v@ == it.seq().take(it.index() as int),
            it.seq() == s@,
    {
        v.push(c);
    }
    v
}

/// Whether `a` and `b` hold the same characters.
pub fn same_str(a: &str, b: &str) -> (r: bool)
    ensures
        r == (a@ == b@),
{
    let v = chars_of(a);
    let w = chars_of(b);
    if v.len() != w.len() {
        return false;
    }
    let mut i: usize = 0;
    while i < v.len()
        invariant
            i <= v.len(),
            v.len() == w.len(),
            v@ == a@,
            w@ == b@,
            forall|k: int| 0 <= k < i ==> v@[k] == w@[k],
        decreases v.len() - i,
    {
        if v[i] != w[i] {
            return false;
        }
        i = i + 1;
    }
    assert(v@ =~= w@);
    true
}

/// Index of the last `c` in `v`.
pub fn find_last(v: &Vec<char>, c: char) -> (r: Option<usize>)
    ensures
        match r {
            Some(i) => i == last_index_of(v@, c),
            None => last_index_of(v@, c) == -1,
        },
{
    let mut i = v.len();
    while i > 0
        invariant
            i <= v.len(),
            forall|k: int| i <= k < v.len() ==> v@[k] != c,
        decreases i,
    {
        if v[i - 1] == c {
            proof {
                lemma_last_index_of_take(v@, c, i as int);
                assert(v@.take(i as int).last() == c);
            }
            return Some(i - 1);
        }
        i = i - 1;
    }
    proof {
        lemma_last_index_of_take(v@, c, 0);
    }
    None
}

/// The characters `from..to` of `s` as a new `String`.
pub fn substring(s: &str, from: usize, to: usize) -> (r: String)
    requires
        from <= to <= s@.len(),
    ensures
        r@ == s@.subrange(from as int, to as int),
{
    String::from_str(s.substring_char(from, to))
}

/// `s` with every trailing `'\n'` removed (as `trim_end_matches('\n')`).
pub fn trim_newlines_end(s: &str) -> (r: String)
    ensures
        r@ == trim_trailing_newlines(s@),
{
    let v = chars_of(s);
    let mut n = v.len();
    assert(v@.take(n as int) =~= v@);
    while n > 0 && v[n - 1] == '\n'
        invariant
            n <= v.len(),
            trim_trailing_newlines(v@) == trim_trailing_newlines(v@.take(n as int)),
        decreases n,
    {
        assert(v@.take(n as int).drop_last() =~= v@.take(n - 1));
        n = n - 1;
    }
    assert(v@.take(v.len() as int) =~= v@);
    substring(s, 0, n)
}

/// Number of lines of `s` as `str::lines().count()` counts them.
pub fn count_lines(s: &str) -> (n: usize)
    ensures
        n == line_count(s@),
{
    let v = chars_of(s);
    let mut count: usize = 0;
    let mut i: usize = 0;
    while i < v.len()
        invariant
            i <= v.len(),
            count == count_char(v@.take(i as int), '\n'),
            count <= i,
        decreases v.len() - i,
    {
        proof {
            lemma_count_char_push(v@.take(i as int), v@[i as int], '\n');
            assert(v@.take(i as int).push(v@[i as int]) =~= v@.take(i + 1));
        }
        if v[i] == '\n' {
            count = count + 1;
        }
        i = i + 1;
    }
    assert(v@.take(v.len() as int) =~= v@);
    proof {
        lemma_count_char_bound(v@, '\n');
    }
    if v.len() > 0 && v[v.len() - 1] != '\n' {
        count + 1
    } else {
        count
    }
}

/// Whether `c` has the Unicode `White_Space` property.
pub fn is_white_space_char(c: char) -> (b: bool)
    ensures
        b == is_white_space(c),
{
    let u = c as u32;
    (0x09 <= u && u <= 0x0d) || u == 0x20 || u == 0x85 || u == 0xa0 || u == 0x1680 || (0x2000
        <= u && u <= 0x200a) || u == 0x2028 || u == 0x2029 || u == 0x202f || u == 0x205f || u
        == 0x3000
}

/// `s` without white space at either end (as `str::trim`).
pub fn trim(s: &str) -> (r: String)
    ensures
        r@ == trim_white_space(s@),
{
    let v = chars_of(s);
    let mut lo: usize = 0;
    let mut hi: usize = v.len();
    assert(v@.subrange(0, v.len() as int) =~= v@);
    while lo < hi && is_white_space_char(v[hi - 1])
        invariant
            lo <= hi <= v.len(),
            lo == 0,
            trim_white_space(v@) == trim_white_space(v@.subrange(lo as int, hi as int)),
        decreases hi,
    {
        assert(v@.subrange(lo as int, hi as int).drop_last() =~= v@.subrange(lo as int, hi - 1));
        hi = hi - 1;
    }
    while lo < hi && is_white_space_char(v[lo])
        invariant
            lo <= hi <= v.len(),
            hi == 0 || !is_white_space(v@[hi - 1]),
            trim_white_space(v@) == trim_white_space(v@.subrange(lo as int, hi as int)),
        decreases hi - lo,
    {
        let ghost sub = v@.subrange(lo as int, hi as int);
        assert(sub.last() == v@[hi - 1]);
        assert(sub.drop_first() =~= v@.subrange(lo + 1, hi as int));
        lo = lo + 1;
    }
    proof {
        let sub = v@.subrange(lo as int, hi as int);
        if sub.len() > 0 {
            assert(sub.last() == v@[hi - 1]);
            assert(sub[0] == v@[lo as int]);
        }
    }
    substring(s, lo, hi)
}

/// Whether `s` is empty once trimmed, that is, all white space.
pub fn is_blank(s: &str) -> (b: bool)
    ensures
        b == all_white_space(s@),
{
    let v = chars_of(s);
    let mut i: usize = 0;
    while i < v.len()
        invariant
            i <= v.len(),
            v@ == s@,
            forall|k: int| 0 <= k < i ==> is_white_space(#[trigger] v@[k]),
        decreases v.len() - i,
    {
        if !is_white_space_char(v[i]) {
            assert(!is_white_space(s@[i as int]));
            return false;
        }
        i = i + 1;
    }
    true
}

/// Whether `s` ends with `suffix`.
pub fn ends_with(s: &str, suffix: &str) -> (b: bool)
    ensures
        b == has_suffix(s@, suffix@),
{
    let v = chars_of(s);
    let w = chars_of(suffix);
    if w.len() > v.len() {
        return false;
    }
    let off = v.len() - w.len();
    let mut i: usize = 0;
    while i < w.len()
        invariant
            i <= w.len(),
            v@ == s@,
            w@ == suffix@,
            off + w.len() == v.len(),
            forall|k: int| 0 <= k < i ==> v@[off + k] == w@[k],
        decreases w.len() - i,
    {
        if v[off + i] != w[i] {
            assert(v@.subrange(off as int, v.len() as int)[i as int] != w@[i as int]);
            return false;
        }
        i = i + 1;
    }
    assert(v@.subrange(off as int, v.len() as int) =~= w@);
    true
}

/// Whether `pattern` occurs in `s` (as `str::contains`).
pub fn contains_str(s: &str, pattern: &str) -> (b: bool)
    ensures
        b == has_infix(s@, pattern@),
{
    let v = chars_of(s);
    let w = chars_of(pattern);
    if w.len() > v.len() {
        return false;
    }
    if w.len() == 0 {
        assert(s@.subrange(0int, 0int + pattern@.len()) =~= pattern@);
        return true;
    }
    let mut start: usize = 0;
    while start <= v.len() - w.len()
        invariant
            w.len() <= v.len(),
            v@ == s@,
            w@ == pattern@,
            0 < w.len(),
            start <= v.len() - w.len() + 1,
            forall|j: int| 0 <= j < start ==> #[trigger] v@.subrange(j, j + w.len()) != w@,
        decreases v.len() - start,
    {
        let mut i: usize = 0;
        let mut same = true;
        while i < w.len()
            invariant
                i <= w.len(),
                v@ == s@,
                w@ == pattern@,
                start + w.len() <= v.len(),
                same ==> forall|k: int| 0 <= k < i ==> v@[start + k] == w@[k],
                !same ==> v@.subrange(start as int, start + w.len()) != w@,
            decreases w.len() - i,
        {
            if same && v[start + i] != w[i] {
                assert(v@.subrange(start as int, start + w.len())[i as int] != w@[i as int]);
                same = false;
            }
            i = i + 1;
        }
        if same {
            assert(s@.subrange(start as int, start + w.len()) =~= pattern@);
            return true;
        }
        start = start + 1;
    }
    false
}

/// The part of `s` after its last `'/'` (as `s.split('/').last()`).
pub fn last_path_segment(s: &str) -> (r: String)
    ensures
        r@ == after_last_slash(s@),
{
    let v = chars_of(s);
    proof {
        lemma_last_index_of(v@, '/');
    }
    match find_last(&v, '/') {
        Some(i) => {
            assert(i < v.len());
            substring(s, i + 1, v.len())
        },
        None => substring(s, 0, v.len()),
    }
}

/// Whether `a` comes before `b` in the order of `String`.
pub fn str_less(a: &str, b: &str) -> (r: bool)
    ensures
        r == seq_less(a@, b@),
{
    let v = chars_of(a);
    let w = chars_of(b);
    let mut i: usize = 0;
    assert(v@.skip(0) =~= v@);
    assert(w@.skip(0) =~= w@);
    while i < v.len() && i < w.len() && v[i] == w[i]
        invariant
            i <= v.len(),
            i <= w.len(),
            seq_less(v@, w@) == seq_less(v@.skip(i as int), w@.skip(i as int)),
        decreases v.len() - i,
    {
        assert(v@.skip(i as int).drop_first() =~= v@.skip(i + 1));
        assert(w@.skip(i as int).drop_first() =~= w@.skip(i + 1));
        i = i + 1;
    }
    if i == w.len() {
        false
    } else if i == v.len() {
        true
    } else {
        (v[i] as u32) < (w[i] as u32)
    }
}

/// The decimal representation of `n`.
pub fn decimal_string(n: u64) -> (s: String)
    ensures
        s@ == decimal(n as nat),
    decreases n,
{
    let digits = "0123456789";
    proof {
        reveal_strlit("0123456789");
    }
    if n < 10 {
        let d = n as usize;
        substring(digits, d, d + 1)
    } else {
        let mut s = decimal_string(n / 10);
        let d = (n % 10) as usize;
        s.append(digits.substring_char(d, d + 1));
        s
    }
}

/// `s` right-aligned in a field of `width` characters (as `{:width}` does for numbers).
pub fn pad_left(s: String, width: usize) -> (r: String)
    ensures
        r@ == left_pad(s@, width as nat),
{
    let len = s.as_str().unicode_len();
    if len >= width {
        s
    } else {
        let mut r = String::new();
        let mut k: usize = 0;
        while k < width - len
            invariant
                k <= width - len,
                r@ == Seq::new(k as nat, |i: int| ' '),
            decreases width - len - k,
        {
            let space = " ";
            proof {
                reveal_strlit(" ");
            }
            r.append(space);
            assert(r@ =~= Seq::new((k + 1) as nat, |i: int| ' '));
            k = k + 1;
        }
        r.append(s.as_str());
        r
    }
}

/// The extension of the path `p`, as `Path::new(p).extension()` gives it.
pub fn extension_of(p: &str) -> (r: Option<String>)
    ensures
        match r {
            Some(e) => path_extension(p@) == Some(e@),
            None => path_extension(p@) is None,
        },
{
    let v = chars_of(p);
    let mut end = v.len();
    assert(v@.take(end as int) =~= v@);
    loop
        invariant
            end <= v.len(),
            v@ == p@,
            file_name(v@) == file_name(v@.take(end as int)),
        ensures
            end <= v.len(),
            v@ == p@,
            file_name(v@) == Some(after_last_slash(v@.take(end as int))),
        decreases end,
    {
        let ghost t = v@.take(end as int);
        if end == 0 {
            return None;
        }
        assert(t.last() == v@[end - 1]);
        assert(t.drop_last() =~= v@.take(end - 1));
        if end >= 2 {
            assert(t[t.len() - 2] == v@[end - 2]);
        }
        if end >= 3 {
            assert(t[t.len() - 3] == v@[end - 3]);
        }
        if v[end - 1] == '/' {
            end = end - 1;
        } else if v[end - 1] == '.' && (end == 1 || v[end - 2] == '/') {
            end = end - 1;
        } else if end >= 2 && v[end - 1] == '.' && v[end - 2] == '.' && (end == 2 || v[end - 3]
            == '/') {
            return None;
        } else {
            break;
        }
    }
    let ghost t = v@.take(end as int);
    // the file name is the segment after the last '/' of the first `end` characters
    let mut start = end;
    while start > 0 && v[start - 1] != '/'
        invariant
            start <= end <= v.len(),
            v@ == p@,
            forall|k: int| start <= k < end ==> v@[k] != '/',
        decreases start,
    {
        start = start - 1;
    }
    proof {
        lemma_last_index_of_take(t, '/', start as int);
        if start > 0 {
            assert(t.take(start as int).last() == '/');
            assert(last_index_of(t.take(start as int), '/') == start - 1);
        } else {
            lemma_last_index_of(t.take(0), '/');
        }
        assert(after_last_slash(t) =~= v@.subrange(start as int, end as int));
    }
    let ghost name = v@.subrange(start as int, end as int);
    // the extension is what follows the name's last '.'
    let mut d = end;
    while d > start && v[d - 1] != '.'
        invariant
            start <= d <= end,
            end <= v.len(),
            v@ == p@,
            forall|k: int| d <= k < end ==> v@[k] != '.',
        decreases d,
    {
        d = d - 1;
    }
    proof {
        lemma_last_index_of_take(name, '.', d - start);
        if d > start {
            assert(name.take(d - start).last() == '.');
            assert(last_index_of(name.take(d - start), '.') == d - start - 1);
        } else {
            lemma_last_index_of(name.take(0), '.');
        }
    }
    if d - start <= 1 {
        None
    } else {
        assert(name.subrange(d - start, name.len() as int) =~= v@.subrange(d as int, end as int));
        Some(substring(p, d, end))
    }
}

} // verus!
