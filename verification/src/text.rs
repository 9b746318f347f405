//! Verified text utilities over `String` and `&str`.
//!
//! Everything here is plain character logic: equality, substring search,
//! prefix and suffix handling, path-segment extraction, line splitting and
//! joining, and lexicographic sorting. The specs speak of `Seq<char>` views.

use vstd::prelude::*;

verus! {

/// True of the characters that Rust's `char::is_whitespace` accepts: the
/// Unicode `White_Space` code points.
pub open spec fn is_ws(c: char) -> bool {
    c == ' ' || c == '\t' || c == '\n' || c == '\r' || c == '\u{000B}' || c == '\u{000C}'
        || c == '\u{0085}' || c == '\u{00A0}' || c == '\u{1680}'
        || ('\u{2000}' <= c && c <= '\u{200A}') || c == '\u{2028}' || c == '\u{2029}'
        || c == '\u{202F}' || c == '\u{205F}' || c == '\u{3000}'
}

/// Whitespace test on a single character, the same set as `char::is_whitespace`.
pub fn is_whitespace(c: char) -> (r: bool)
    ensures
        r == is_ws(c),
{
    c == ' ' || c == '\t' || c == '\n' || c == '\r' || c == '\u{000B}' || c == '\u{000C}'
        || c == '\u{0085}' || c == '\u{00A0}' || c == '\u{1680}'
        || ('\u{2000}' <= c && c <= '\u{200A}') || c == '\u{2028}' || c == '\u{2029}'
        || c == '\u{202F}' || c == '\u{205F}' || c == '\u{3000}'
}

/// Character-for-character equality of two string slices.
pub fn str_eq(a: &str, b: &str) -> (r: bool)
    ensures
        r == (a@ == b@),
{
    let sa: String = a.to_owned();
    let sb: String = b.to_owned();
    sa == sb
}

/// The needle occurs in the haystack starting at position `i`.
pub open spec fn sub_at(hay: Seq<char>, needle: Seq<char>, i: int) -> bool {
    0 <= i && i + needle.len() <= hay.len() && hay.subrange(i, i + needle.len()) == needle
}

/// The needle occurs somewhere in the haystack.
pub open spec fn has_sub(hay: Seq<char>, needle: Seq<char>) -> bool {
    exists|i: int| sub_at(hay, needle, i)
}

/// Whether `hay` starting at `from` matches `needle` completely.
fn matches_at(hay: &str, needle: &str, from: usize) -> (r: bool)
    requires
        from + needle@.len() <= hay@.len(),
    ensures
        r == sub_at(hay@, needle@, from as int),
{
    let h = hay.unicode_len();
    let n = needle.unicode_len();
    let mut j: usize = 0;
    while j < n
        invariant
            h == hay@.len(),
            n == needle@.len(),
            from + n <= h,
            0 <= j <= n,
            forall|k: int| 0 <= k < j ==> hay@[from + k] == needle@[k],
        decreases n - j,
    {
        if hay.get_char(from + j) != needle.get_char(j) {
            assert(hay@.subrange(from as int, from + n) != needle@) by {
                assert(hay@.subrange(from as int, from + n)[j as int] != needle@[j as int]);
            }
            return false;
        }
        j += 1;
    }
    assert(hay@.subrange(from as int, from + n) =~= needle@);
    true
}

/// Substring search: does `needle` occur anywhere in `hay`?
pub fn str_contains(hay: &str, needle: &str) -> (r: bool)
    ensures
        r == has_sub(hay@, needle@),
{
    match str_find(hay, needle) {
        Some(_) => true,
        None => false,
    }
}

/// Substring search returning the first match position.
pub fn str_find(hay: &str, needle: &str) -> (r: Option<usize>)
    ensures
        match r {
            Some(i) => sub_at(hay@, needle@, i as int) && forall|k: int|
                0 <= k < i ==> !sub_at(hay@, needle@, k),
            None => !has_sub(hay@, needle@),
        },
{
    let h = hay.unicode_len();
    let n = needle.unicode_len();
    if n > h {
        assert(forall|i: int| !sub_at(hay@, needle@, i));
        return None;
    }
    if n == 0 {
        assert(hay@.subrange(0, 0) =~= needle@);
        return Some(0);
    }
    let mut i: usize = 0;
    while i <= h - n
        invariant
            h == hay@.len(),
            n == needle@.len(),
            1 <= n <= h,
            0 <= i <= h - n + 1,
            forall|k: int| 0 <= k < i ==> !sub_at(hay@, needle@, k),
        decreases h - i,
    {
        if matches_at(hay, needle, i) {
            return Some(i);
        }
        i += 1;
    }
    assert(forall|k: int| !sub_at(hay@, needle@, k));
    None
}

/// `s` begins with `prefix`.
pub open spec fn has_prefix(s: Seq<char>, prefix: Seq<char>) -> bool {
    sub_at(s, prefix, 0)
}

/// Prefix test.
pub fn str_starts_with(s: &str, prefix: &str) -> (r: bool)
    ensures
        r == has_prefix(s@, prefix@),
{
    let n = prefix.unicode_len();
    if n > s.unicode_len() {
        return false;
    }
    matches_at(s, prefix, 0)
}

/// What is left of `s` when `prefix` is taken off the front, if it is there.
pub fn strip_prefix_of(s: &str, prefix: &str) -> (r: Option<String>)
    ensures
        match r {
            Some(t) => has_prefix(s@, prefix@) && t@ == s@.subrange(
                prefix@.len() as int,
                s@.len() as int,
            ),
            None => !has_prefix(s@, prefix@),
        },
{
    if str_starts_with(s, prefix) {
        let rest = s.substring_char(prefix.unicode_len(), s.unicode_len());
        Some(rest.to_owned())
    } else {
        None
    }
}

/// `s` ends with `suffix`.
pub open spec fn has_suffix(s: Seq<char>, suffix: Seq<char>) -> bool {
    s.len() >= suffix.len() && s.subrange(s.len() - suffix.len(), s.len() as int) == suffix
}

/// Suffix test.
pub fn str_ends_with(s: &str, suffix: &str) -> (r: bool)
    ensures
        r == has_suffix(s@, suffix@),
{
    let n = s.unicode_len();
    let m = suffix.unicode_len();
    if m > n {
        return false;
    }
    let r = matches_at(s, suffix, n - m);
    assert(sub_at(s@, suffix@, n - m) == has_suffix(s@, suffix@));
    r
}

/// A copy of the characters of `s` between positions `a` and `b`.
pub fn substr(s: &str, a: usize, b: usize) -> (r: String)
    requires
        a <= b <= s@.len(),
    ensures
        r@ == s@.subrange(a as int, b as int),
{
    s.substring_char(a, b).to_owned()
}

/// The position of the first occurrence of `c` in `s`, or -1 if there is none.
pub open spec fn find_char(s: Seq<char>, c: char) -> int
    decreases s.len(),
{
    if s.len() == 0 {
        -1
    } else if s[0] == c {
        0
    } else if find_char(s.skip(1), c) < 0 {
        -1
    } else {
        1 + find_char(s.skip(1), c)
    }
}

pub proof fn lemma_find_char(s: Seq<char>, c: char)
    ensures
        -1 <= find_char(s, c) < s.len(),
        find_char(s, c) >= 0 ==> s[find_char(s, c)] == c,
        find_char(s, c) >= 0 ==> forall|k: int| 0 <= k < find_char(s, c) ==> s[k] != c,
        find_char(s, c) == -1 ==> forall|k: int| 0 <= k < s.len() ==> s[k] != c,
    decreases s.len(),
{
    if s.len() > 0 && s[0] != c {
        lemma_find_char(s.skip(1), c);
        assert(forall|k: int| 0 <= k < s.len() - 1 ==> s.skip(1)[k] == s[k + 1]);
        let f = find_char(s.skip(1), c);
        if f >= 0 {
            assert(s[1 + f] == s.skip(1)[f]);
            assert(forall|k: int| 1 <= k < 1 + f ==> s[k] == s.skip(1)[k - 1]);
        } else {
            assert forall|k: int| 0 <= k < s.len() implies s[k] != c by {
                if k >= 1 {
                    assert(s.skip(1)[k - 1] != c);
                    assert(s.skip(1)[k - 1] == s[k]);
                }
            }
        }
    }
}

/// The position of the last occurrence of `c` in `s`, or -1 if there is none.
pub open spec fn rfind_char(s: Seq<char>, c: char) -> int
    decreases s.len(),
{
    if s.len() == 0 {
        -1
    } else if s[s.len() - 1] == c {
        s.len() - 1
    } else {
        rfind_char(s.drop_last(), c)
    }
}

pub proof fn lemma_rfind_char(s: Seq<char>, c: char)
    ensures
        -1 <= rfind_char(s, c) < s.len(),
        rfind_char(s, c) >= 0 ==> s[rfind_char(s, c)] == c,
        forall|k: int| rfind_char(s, c) < k < s.len() ==> s[k] != c,
    decreases s.len(),
{
    if s.len() > 0 && s[s.len() - 1] != c {
        lemma_rfind_char(s.drop_last(), c);
        assert(forall|k: int| 0 <= k < s.len() - 1 ==> s.drop_last()[k] == s[k]);
    }
}

/// The last position of `c` in `s`, scanning from the end.
pub fn str_rfind(s: &str, c: char) -> (r: Option<usize>)
    ensures
        match r {
            Some(i) => i == rfind_char(s@, c),
            None => rfind_char(s@, c) == -1,
        },
{
    let n = s.unicode_len();
    let mut i = n;
    while i > 0
        invariant
            n == s@.len(),
            0 <= i <= n,
            forall|k: int| i <= k < n ==> s@[k] != c,
        decreases i,
    {
        i -= 1;
        if s.get_char(i) == c {
            proof {
                lemma_rfind_char(s@, c);
                let f = rfind_char(s@, c);
                assert(f == i) by {
                    if f < i as int {
                        assert(s@[i as int] != c);
                    }
                    if f > i as int {
                        assert(s@[f] != c);
                    }
                }
            }
            return Some(i);
        }
    }
    proof {
        lemma_rfind_char(s@, c);
        let f = rfind_char(s@, c);
        if f >= 0 {
            assert(s@[f] != c);
        }
    }
    None
}

/// The number of whitespace characters at the front of `s`.
pub open spec fn trim_from(s: Seq<char>) -> int
    decreases s.len(),
{
    if s.len() == 0 {
        0
    } else if !is_ws(s[0]) {
        0
    } else {
        1 + trim_from(s.skip(1))
    }
}

/// Where the trailing whitespace of `s` begins.
pub open spec fn trim_to(s: Seq<char>) -> int
    decreases s.len(),
{
    if s.len() == 0 {
        0
    } else if !is_ws(s[s.len() - 1]) {
        s.len() as int
    } else {
        trim_to(s.drop_last())
    }
}

/// `s` with leading and trailing whitespace removed, as `str::trim` leaves it.
pub open spec fn spec_trim(s: Seq<char>) -> Seq<char> {
    if trim_from(s) >= trim_to(s) {
        Seq::empty()
    } else {
        s.subrange(trim_from(s), trim_to(s))
    }
}

proof fn lemma_trim_from_at(s: Seq<char>, a: int)
    requires
        0 <= a <= s.len(),
        forall|k: int| 0 <= k < a ==> is_ws(s[k]),
        a < s.len() ==> !is_ws(s[a]),
    ensures
        trim_from(s) == a,
    decreases a,
{
    if a > 0 {
        lemma_trim_from_at(s.skip(1), a - 1);
    }
}

proof fn lemma_trim_to_at(s: Seq<char>, b: int)
    requires
        0 <= b <= s.len(),
        forall|k: int| b <= k < s.len() ==> is_ws(s[k]),
        b > 0 ==> !is_ws(s[b - 1]),
    ensures
        trim_to(s) == b,
    decreases s.len() - b,
{
    if b < s.len() {
        lemma_trim_to_at(s.drop_last(), b);
        assert(forall|k: int| 0 <= k < s.len() - 1 ==> s.drop_last()[k] == s[k]);
    }
}

/// Leading and trailing whitespace removed, the same set as `str::trim`.
pub fn str_trim(s: &str) -> (r: String)
    ensures
        r@ == spec_trim(s@),
{
    let n = s.unicode_len();
    let mut a: usize = 0;
    while a < n && is_whitespace(s.get_char(a))
        invariant
            n == s@.len(),
            0 <= a <= n,
            forall|k: int| 0 <= k < a ==> is_ws(s@[k]),
        decreases n - a,
    {
        a += 1;
    }
    proof {
        lemma_trim_from_at(s@, a as int);
    }
    if a == n {
        proof {
            lemma_trim_to_at(s@, 0);
        }
        return String::new();
    }
    let mut b: usize = n;
    while b > a && is_whitespace(s.get_char(b - 1))
        invariant
            n == s@.len(),
            a <= b <= n,
            a < n,
            !is_ws(s@[a as int]),
            forall|k: int| b <= k < n ==> is_ws(s@[k]),
        decreases b,
    {
        b -= 1;
    }
    proof {
        assert(b > a) by {
            if b == a {
                assert(is_ws(s@[a as int]));
            }
        }
        lemma_trim_to_at(s@, b as int);
    }
    substr(s, a, b)
}

/// Strict lexicographic order on character sequences, by code point, the
/// order in which Rust compares and sorts strings.
pub open spec fn lex_lt(a: Seq<char>, b: Seq<char>) -> bool
    decreases a.len(),
{
    if b.len() == 0 {
        false
    } else if a.len() == 0 {
        true
    } else if a[0] < b[0] {
        true
    } else if a[0] == b[0] {
        lex_lt(a.skip(1), b.skip(1))
    } else {
        false
    }
}

/// Lexicographic order, allowing equality.
pub open spec fn lex_le(a: Seq<char>, b: Seq<char>) -> bool {
    lex_lt(a, b) || a == b
}

proof fn lemma_lex_lt_skip(a: Seq<char>, b: Seq<char>, i: int)
    requires
        0 <= i <= a.len(),
        i <= b.len(),
        forall|k: int| 0 <= k < i ==> a[k] == b[k],
    ensures
        lex_lt(a, b) == lex_lt(a.skip(i), b.skip(i)),
    decreases i,
{
    if i > 0 {
        assert(a.skip(0) =~= a);
        assert(b.skip(0) =~= b);
        lemma_lex_lt_skip(a.skip(1), b.skip(1), i - 1);
        assert(a.skip(1).skip(i - 1) =~= a.skip(i));
        assert(b.skip(1).skip(i - 1) =~= b.skip(i));
    } else {
        assert(a.skip(0) =~= a);
        assert(b.skip(0) =~= b);
    }
}

/// Strict lexicographic comparison of two strings, by code point.
pub fn str_lt(a: &str, b: &str) -> (r: bool)
    ensures
        r == lex_lt(a@, b@),
{
    let la = a.unicode_len();
    let lb = b.unicode_len();
    let mut i: usize = 0;
    while i < la && i < lb
        invariant
            la == a@.len(),
            lb == b@.len(),
            0 <= i <= la,
            i <= lb,
            forall|k: int| 0 <= k < i ==> a@[k] == b@[k],
        decreases la - i,
    {
        let ca = a.get_char(i);
        let cb = b.get_char(i);
        if ca != cb {
            proof {
                lemma_lex_lt_skip(a@, b@, i as int);
                assert(a@.skip(i as int)[0] == a@[i as int]);
                assert(b@.skip(i as int)[0] == b@[i as int]);
            }
            return ca < cb;
        }
        i += 1;
    }
    proof {
        lemma_lex_lt_skip(a@, b@, i as int);
        if la < lb {
            assert(b@.skip(i as int).len() > 0);
        } else if la == lb {
            assert(b@.skip(i as int).len() == 0);
        } else {
            assert(b@.skip(i as int).len() == 0);
        }
    }
    la < lb
}

/// `t` with one trailing carriage return removed, if it ends in one.
pub open spec fn strip_cr(t: Seq<char>) -> Seq<char> {
    if t.len() > 0 && t[t.len() - 1] == '\r' {
        t.drop_last()
    } else {
        t
    }
}

/// The lines of `s`, as `str::lines` yields them: split at `\n`, a carriage
/// return directly before the split removed, no final empty line.
pub open spec fn spec_lines(s: Seq<char>) -> Seq<Seq<char>>
    decreases s.len(),
{
    if s.len() == 0 {
        Seq::empty()
    } else {
        let i = find_char(s, '\n');
        if 0 <= i < s.len() {
            seq![strip_cr(s.subrange(0, i))] + spec_lines(s.skip(i + 1))
        } else {
            seq![s]
        }
    }
}

/// The lines of `s`, the same splitting as `str::lines`.
pub fn split_lines(s: &str) -> (r: Vec<String>)
    ensures
        r.deep_view() == spec_lines(s@),
{
    let n = s.unicode_len();
    let mut out: Vec<String> = Vec::new();
    let mut start: usize = 0;
    proof {
        assert(s@.skip(0) =~= s@);
        assert(out.deep_view() + spec_lines(s@) =~= spec_lines(s@));
    }
    while start < n
        invariant
            n == s@.len(),
            0 <= start <= n,
            spec_lines(s@) =~= out.deep_view() + spec_lines(s@.skip(start as int)),
        decreases n - start,
    {
        let ghost rest = s@.skip(start as int);
        let mut j: usize = start;
        while j < n && s.get_char(j) != '\n'
            invariant
                n == s@.len(),
                start <= j <= n,
                forall|k: int| start <= k < j ==> s@[k] != '\n',
            decreases n - j,
        {
            j += 1;
        }
        proof {
            lemma_find_char(rest, '\n');
            assert(forall|k: int| 0 <= k < rest.len() ==> rest[k] == s@[start + k]);
        }
        if j < n {
            proof {
                let f = find_char(rest, '\n');
                assert(rest[j - start] == '\n');
                assert(f == j - start) by {
                    if f < j - start {
                        if f >= 0 {
                            assert(s@[start + f] != '\n');
                        }
                    }
                    if f > j - start {
                        assert(rest[j - start] != '\n');
                    }
                }
            }
            let end = if j > start && s.get_char(j - 1) == '\r' {
                j - 1
            } else {
                j
            };
            let line = substr(s, start, end);
            let ghost dv0 = out.deep_view();
            proof {
                assert(rest.subrange(0, j - start) =~= s@.subrange(start as int, j as int));
                assert(strip_cr(rest.subrange(0, j - start)) =~= line@);
                assert(rest.skip(j - start + 1) =~= s@.skip(j + 1));
            }
            out.push(line);
            proof {
                assert(out.deep_view() =~= dv0 + seq![line@]);
            }
            start = j + 1;
        } else {
            proof {
                let f = find_char(rest, '\n');
                assert(f == -1) by {
                    if f >= 0 {
                        assert(s@[start + f] != '\n');
                    }
                }
                assert(spec_lines(rest) =~= seq![rest]);
            }
            let line = substr(s, start, n);
            let ghost dv0 = out.deep_view();
            proof {
                assert(line@ =~= rest);
                assert(s@.skip(n as int) =~= Seq::<char>::empty());
            }
            out.push(line);
            proof {
                assert(out.deep_view() =~= dv0 + seq![line@]);
            }
            start = n;
        }
    }
    proof {
        assert(s@.skip(n as int) =~= Seq::<char>::empty());
        assert(out.deep_view() + spec_lines(Seq::<char>::empty()) =~= out.deep_view());
    }
    out
}

/// The given lines joined with a single newline between each pair.
pub open spec fn spec_join_nl(ls: Seq<Seq<char>>) -> Seq<char>
    decreases ls.len(),
{
    if ls.len() == 0 {
        Seq::empty()
    } else if ls.len() == 1 {
        ls[0]
    } else {
        spec_join_nl(ls.drop_last()) + seq!['\n'] + ls.last()
    }
}

/// Joins lines with `\n`, the inverse of `split_lines` on newline-free lines.
pub fn join_lines(v: &Vec<String>) -> (r: String)
    ensures
        r@ == spec_join_nl(v.deep_view()),
{
    let mut out = String::new();
    let mut i: usize = 0;
    while i < v.len()
        invariant
            0 <= i <= v.len(),
            out@ == spec_join_nl(v.deep_view().take(i as int)),
        decreases v.len() - i,
    {
        if i > 0 {
            out.append("\n");
        }
        out.append(v[i].as_str());
        proof {
            reveal_strlit("\n");
            let dv = v.deep_view();
            assert(dv.take(i + 1).drop_last() =~= dv.take(i as int));
            assert(dv.take(i + 1).last() == dv[i as int]);
            assert("\n"@ =~= seq!['\n']);
            if i == 0 {
                assert(spec_join_nl(dv.take(1)) == dv[0]);
            }
        }
        i += 1;
    }
    proof {
        assert(v.deep_view().take(v.len() as int) =~= v.deep_view());
    }
    out
}

/// The position at which `x` goes into `s` to keep it sorted: the first
/// index whose element is strictly greater.
pub open spec fn insert_pos(x: Seq<char>, s: Seq<Seq<char>>) -> int
    decreases s.len(),
{
    if s.len() == 0 {
        0
    } else if lex_lt(x, s[0]) {
        0
    } else {
        1 + insert_pos(x, s.skip(1))
    }
}

proof fn lemma_insert_pos_at(x: Seq<char>, s: Seq<Seq<char>>, j: int)
    requires
        0 <= j <= s.len(),
        forall|k: int| 0 <= k < j ==> !lex_lt(x, s[k]),
        j < s.len() ==> lex_lt(x, s[j]),
    ensures
        insert_pos(x, s) == j,
    decreases j,
{
    if j > 0 {
        lemma_insert_pos_at(x, s.skip(1), j - 1);
        assert(forall|k: int| 0 <= k < s.len() - 1 ==> s.skip(1)[k] == s[k + 1]);
    }
}

/// One element placed into an already processed sequence at its sorted
/// position.
pub open spec fn sorted_place(x: Seq<char>, s: Seq<Seq<char>>) -> Seq<Seq<char>> {
    s.insert(insert_pos(x, s), x)
}

/// Insertion sort of a sequence of lines under [`lex_lt`], processed left to
/// right; stable, and the value `<[String]>::sort` produces.
pub open spec fn spec_sort(s: Seq<Seq<char>>) -> Seq<Seq<char>>
    decreases s.len(),
{
    if s.len() == 0 {
        Seq::empty()
    } else {
        sorted_place(s.last(), spec_sort(s.drop_last()))
    }
}

/// Every pair of elements stands in order.
pub open spec fn lex_sorted(s: Seq<Seq<char>>) -> bool {
    forall|i: int, j: int| 0 <= i < j < s.len() ==> lex_le(s[i], s[j])
}

/// Any two texts compare: one is strictly smaller, or they are equal.
pub proof fn lemma_lex_trichotomy(a: Seq<char>, b: Seq<char>)
    ensures
        lex_lt(a, b) || lex_lt(b, a) || a == b,
    decreases a.len(),
{
    if a.len() == 0 {
        if b.len() == 0 {
            assert(a =~= b);
        }
    } else if b.len() == 0 {
    } else if a[0] < b[0] {
    } else if b[0] < a[0] {
    } else {
        assert(a[0] == b[0]);
        lemma_lex_trichotomy(a.skip(1), b.skip(1));
        if a.skip(1) == b.skip(1) {
            assert(a.skip(1).len() == a.len() - 1);
            assert(b.skip(1).len() == b.len() - 1);
            assert(a.len() == b.len());
            assert forall|k: int| 0 <= k < a.len() implies a[k] == b[k] by {
                if k >= 1 {
                    assert(a[k] == a.skip(1)[k - 1]);
                    assert(b[k] == b.skip(1)[k - 1]);
                }
            }
            assert(a =~= b);
        }
    }
}

/// Strict lexicographic order is transitive.
pub proof fn lemma_lex_lt_trans(a: Seq<char>, b: Seq<char>, c: Seq<char>)
    requires
        lex_lt(a, b),
        lex_lt(b, c),
    ensures
        lex_lt(a, c),
    decreases a.len(),
{
    if a.len() > 0 && b.len() > 0 && c.len() > 0 {
        if a[0] == b[0] && b[0] == c[0] {
            lemma_lex_lt_trans(a.skip(1), b.skip(1), c.skip(1));
        }
    }
}

proof fn lemma_insert_pos_props(x: Seq<char>, s: Seq<Seq<char>>)
    ensures
        0 <= insert_pos(x, s) <= s.len(),
        forall|k: int| 0 <= k < insert_pos(x, s) ==> !lex_lt(x, s[k]),
        insert_pos(x, s) < s.len() ==> lex_lt(x, s[insert_pos(x, s)]),
    decreases s.len(),
{
    if s.len() > 0 && !lex_lt(x, s[0]) {
        lemma_insert_pos_props(x, s.skip(1));
        assert(forall|k: int| 0 <= k < s.len() - 1 ==> s.skip(1)[k] == s[k + 1]);
        assert forall|k: int| 0 <= k < insert_pos(x, s) implies !lex_lt(x, s[k]) by {
            if k >= 1 {
                assert(!lex_lt(x, s.skip(1)[k - 1]));
                assert(s.skip(1)[k - 1] == s[k]);
            }
        }
        if insert_pos(x, s) < s.len() {
            assert(lex_lt(x, s.skip(1)[insert_pos(x, s.skip(1))]));
        }
    }
}

#[verifier::rlimit(100)]
proof fn lemma_sorted_place_sorted(x: Seq<char>, s: Seq<Seq<char>>)
    requires
        lex_sorted(s),
    ensures
        lex_sorted(sorted_place(x, s)),
{
    let p = insert_pos(x, s);
    lemma_insert_pos_props(x, s);
    s.insert_ensures(p, x);
    let t = sorted_place(x, s);
    assert forall|i: int, j: int| 0 <= i < j < t.len() implies lex_le(t[i], t[j]) by {
        if j < p {
            assert(t[i] == s[i] && t[j] == s[j]);
        } else if i < p && j == p {
            lemma_lex_trichotomy(x, s[i]);
        } else if i < p && j > p {
            assert(t[i] == s[i] && t[j] == s[j - 1]);
        } else if i == p && j > p {
            assert(t[j] == s[j - 1]);
            assert(lex_lt(x, s[p]));
            if j - 1 > p {
                assert(lex_le(s[p], s[j - 1]));
                if s[p] == s[j - 1] {
                } else {
                    lemma_lex_lt_trans(x, s[p], s[j - 1]);
                }
            }
        } else {
            assert(t[i] == s[i - 1] && t[j] == s[j - 1]);
        }
    }
}

/// Law: the sorted lines really are in lexicographic order, every pair of
/// them.
pub proof fn lemma_spec_sort_sorted(s: Seq<Seq<char>>)
    ensures
        lex_sorted(spec_sort(s)),
    decreases s.len(),
{
    if s.len() > 0 {
        lemma_spec_sort_sorted(s.drop_last());
        lemma_sorted_place_sorted(s.last(), spec_sort(s.drop_last()));
    }
}

/// Law: sorting only reorders: the lines afterwards are exactly the lines
/// before, kept with their multiplicities.
pub proof fn lemma_spec_sort_permutes(s: Seq<Seq<char>>)
    ensures
        spec_sort(s).to_multiset() == s.to_multiset(),
    decreases s.len(),
{
    broadcast use vstd::seq_lib::group_to_multiset_ensures;
    broadcast use vstd::seq_lib::to_multiset_insert;

    if s.len() == 0 {
        assert(spec_sort(s).to_multiset() =~= s.to_multiset());
    } else {
        let front = s.drop_last();
        let x = s.last();
        lemma_spec_sort_permutes(front);
        let sorted_front = spec_sort(front);
        let p = insert_pos(x, sorted_front);
        lemma_insert_pos_props(x, sorted_front);
        assert(spec_sort(s) == sorted_front.insert(p, x));
        assert(sorted_front.insert(p, x).to_multiset() =~= sorted_front.to_multiset().insert(x));
        assert(front.push(x) =~= s);
        assert(front.push(x).to_multiset() =~= front.to_multiset().insert(x));
    }
}

/// Sorts the strings in place, lexicographically by code point, as
/// `<[String]>::sort` does.
pub fn sort_strings(v: &mut Vec<String>)
    ensures
        final(v).deep_view() == spec_sort(old(v).deep_view()),
{
    let mut out: Vec<String> = Vec::new();
    let mut i: usize = 0;
    while i < v.len()
        invariant
            0 <= i <= v.len(),
            out.deep_view() =~= spec_sort(v.deep_view().take(i as int)),
        decreases v.len() - i,
    {
        let x = v[i].clone();
        assert(x@ == v.deep_view()[i as int]);
        let mut j: usize = 0;
        while j < out.len() && !str_lt(x.as_str(), out[j].as_str())
            invariant
                0 <= j <= out.len(),
                forall|k: int| 0 <= k < j ==> !lex_lt(x@, out.deep_view()[k]),
            decreases out.len() - j,
        {
            j += 1;
        }
        proof {
            lemma_insert_pos_at(x@, out.deep_view(), j as int);
            let dv = v.deep_view();
            assert(dv.take(i + 1).drop_last() =~= dv.take(i as int));
            assert(dv.take(i + 1).last() == dv[i as int]);
        }
        out.insert(j, x);
        proof {
            assert(out.deep_view() =~= spec_sort(v.deep_view().take(i + 1)));
        }
        i += 1;
    }
    proof {
        assert(v.deep_view().take(v.len() as int) =~= v.deep_view());
    }
    *v = out;
}

} // verus!
