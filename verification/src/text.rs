//! Character-level text utilities: equality, prefix tests, splitting,
//! line separation, trimming and quote stripping, each specified over
//! `Seq<char>` views.

use vstd::prelude::*;
use vstd::string::StrSliceExecFns;

verus! {

/// `p` is an initial segment of `s`.
pub open spec fn has_prefix(s: Seq<char>, p: Seq<char>) -> bool {
    p.len() <= s.len() && s.take(p.len() as int) == p
}

/// Index of the first occurrence of `c` in `s`, or `s.len()` if `c` does
/// not occur.
pub open spec fn find_char(s: Seq<char>, c: char) -> int
    decreases s.len(),
{
    if s.len() == 0 {
        0
    } else if s[0] == c {
        0
    } else {
        1 + find_char(s.skip(1), c)
    }
}

pub proof fn lemma_find_char_bounds(s: Seq<char>, c: char)
    ensures
        0 <= find_char(s, c) <= s.len(),
        find_char(s, c) < s.len() ==> s[find_char(s, c)] == c,
        forall|i: int| 0 <= i < find_char(s, c) ==> s[i] != c,
    decreases s.len(),
{
    if s.len() == 0 || s[0] == c {
    } else {
        lemma_find_char_bounds(s.skip(1), c);
        assert forall|i: int| 0 <= i < find_char(s, c) implies s[i] != c by {
            if i > 0 {
                assert(s.skip(1)[i - 1] == s[i]);
            }
        }
    }
}

/// `find_char` returns exactly the position that a left-to-right scan
/// stops at.
pub proof fn lemma_find_char_at(s: Seq<char>, c: char, k: int)
    requires
        0 <= k <= s.len(),
        forall|i: int| 0 <= i < k ==> s[i] != c,
        k < s.len() ==> s[k] == c,
    ensures
        find_char(s, c) == k,
    decreases s.len(),
{
    if s.len() == 0 {
    } else if s[0] == c {
        assert(k == 0);
    } else {
        assert(s[0] != c);
        assert(k > 0 || k == s.len());
        if k == s.len() && s.len() == 0 {
        } else {
            assert(forall|i: int| 0 <= i < k - 1 ==> s.skip(1)[i] == s[i + 1]);
            if k < s.len() {
                assert(s.skip(1)[k - 1] == s[k]);
            }
            lemma_find_char_at(s.skip(1), c, k - 1);
        }
    }
}

/// The pieces of `s` between occurrences of `sep`: splitting never loses
/// characters, and `n` separators yield `n + 1` pieces (an empty input is
/// one empty piece).
pub open spec fn split_char_spec(s: Seq<char>, sep: char) -> Seq<Seq<char>>
    decreases s.len(),
        via split_char_spec_decreases
{
    let k = find_char(s, sep);
    if k == s.len() {
        seq![s]
    } else {
        seq![s.take(k)] + split_char_spec(s.skip(k + 1), sep)
    }
}

#[via_fn]
proof fn split_char_spec_decreases(s: Seq<char>, sep: char) {
    lemma_find_char_bounds(s, sep);
}

/// A line's trailing carriage return is not part of the line.
pub open spec fn chomp_cr(line: Seq<char>) -> Seq<char> {
    if line.len() > 0 && line.last() == '\r' {
        line.drop_last()
    } else {
        line
    }
}

/// The lines of `s`: pieces separated by `'\n'`, where a `'\r'` standing
/// immediately before the `'\n'` belongs to the separator, and a final
/// line break opens no further (empty) line.
pub open spec fn lines_spec(s: Seq<char>) -> Seq<Seq<char>>
    decreases s.len(),
        via lines_spec_decreases
{
    if s.len() == 0 {
        Seq::empty()
    } else {
        let k = find_char(s, '\n');
        if k == s.len() {
            seq![s]
        } else {
            seq![chomp_cr(s.take(k))] + lines_spec(s.skip(k + 1))
        }
    }
}

#[via_fn]
proof fn lines_spec_decreases(s: Seq<char>) {
    lemma_find_char_bounds(s, '\n');
}

/// Character-for-character equality of two string slices.
pub fn str_eq(a: &str, b: &str) -> (r: bool)
    ensures
        r == (a@ == b@),
{
    let na = a.unicode_len();
    let nb = b.unicode_len();
    if na != nb {
        proof {
            assert(a@ != b@) by {
                assert(a@.len() != b@.len());
            }
        }
        return false;
    }
    let mut i: usize = 0;
    while i < na
        invariant
            na == a@.len(),
            na == b@.len(),
            i <= na,
            forall|j: int| 0 <= j < i ==> a@[j] == b@[j],
        decreases na - i,
    {
        if a.get_char(i) != b.get_char(i) {
            return false;
        }
        i += 1;
    }
    proof {
        assert(a@ =~= b@);
    }
    true
}

/// Does `s` start with `p`?
pub fn starts_with(s: &str, p: &str) -> (r: bool)
    ensures
        r == has_prefix(s@, p@),
{
    let ns = s.unicode_len();
    let np = p.unicode_len();
    if np > ns {
        return false;
    }
    let mut i: usize = 0;
    while i < np
        invariant
            ns == s@.len(),
            np == p@.len(),
            np <= ns,
            i <= np,
            forall|j: int| 0 <= j < i ==> s@[j] == p@[j],
        decreases np - i,
    {
        if s.get_char(i) != p.get_char(i) {
            proof {
                assert(s@.take(np as int)[i as int] != p@[i as int]);
            }
            return false;
        }
        i += 1;
    }
    proof {
        assert(s@.take(np as int) =~= p@);
    }
    true
}

/// Split `s` at every occurrence of `sep`.
pub fn split_char(s: &str, sep: char) -> (r: Vec<String>)
    ensures
        r.deep_view() == split_char_spec(s@, sep),
{
    let n = s.unicode_len();
    let mut out: Vec<String> = Vec::new();
    let mut start: usize = 0;
    let mut i: usize = 0;
    proof {
        assert(s@.skip(0) =~= s@);
        assert(out.deep_view() + split_char_spec(s@, sep) =~= split_char_spec(s@, sep));
    }
    while i < n
        invariant
            n == s@.len(),
            start <= i <= n,
            forall|j: int| start <= j < i ==> s@[j] != sep,
            split_char_spec(s@, sep) == out.deep_view() + split_char_spec(
                s@.skip(start as int),
                sep,
            ),
        decreases n - i,
    {
        if s.get_char(i) == sep {
            let piece = s.substring_char(start, i).to_owned();
            let ghost pv = piece@;
            let ghost old_dv = out.deep_view();
            out.push(piece);
            proof {
                assert(out.deep_view() =~= old_dv.push(pv));
                let t = s@.skip(start as int);
                assert(forall|j: int| 0 <= j < i - start ==> t[j] == s@[start + j]);
                lemma_find_char_at(t, sep, i - start);
                assert(t.take(i - start) =~= s@.subrange(start as int, i as int));
                assert(t.skip(i - start + 1) =~= s@.skip(i + 1));
                assert(old_dv.push(pv) + split_char_spec(s@.skip(i + 1), sep) =~= old_dv + (
                seq![t.take(i - start)] + split_char_spec(t.skip(i - start + 1), sep)));
            }
            start = i + 1;
        }
        i += 1;
    }
    let last = s.substring_char(start, n).to_owned();
    let ghost lv = last@;
    let ghost old_dv = out.deep_view();
    out.push(last);
    proof {
        assert(out.deep_view() =~= old_dv.push(lv));
        let t = s@.skip(start as int);
        assert(forall|j: int| 0 <= j < n - start ==> t[j] == s@[start + j]);
        lemma_find_char_at(t, sep, n - start);
        assert(t =~= s@.subrange(start as int, n as int));
        assert(old_dv.push(lv) =~= old_dv + seq![t]);
        assert(out.deep_view() =~= split_char_spec(s@, sep));
    }
    out
}

/// Split `s` into its lines.
pub fn split_lines(s: &str) -> (r: Vec<String>)
    ensures
        r.deep_view() == lines_spec(s@),
{
    let n = s.unicode_len();
    let mut out: Vec<String> = Vec::new();
    let mut start: usize = 0;
    let mut i: usize = 0;
    proof {
        assert(s@.skip(0) =~= s@);
        assert(out.deep_view() + lines_spec(s@) =~= lines_spec(s@));
    }
    while i < n
        invariant
            n == s@.len(),
            start <= i <= n,
            forall|j: int| start <= j < i ==> s@[j] != '\n',
            lines_spec(s@) == out.deep_view() + lines_spec(s@.skip(start as int)),
        decreases n - i,
    {
        if s.get_char(i) == '\n' {
            let end: usize = if i > start && s.get_char(i - 1) == '\r' {
                i - 1
            } else {
                i
            };
            let piece = s.substring_char(start, end).to_owned();
            let ghost pv = piece@;
            let ghost old_dv = out.deep_view();
            out.push(piece);
            proof {
                assert(out.deep_view() =~= old_dv.push(pv));
                let t = s@.skip(start as int);
                assert(forall|j: int| 0 <= j < i - start ==> t[j] == s@[start + j]);
                lemma_find_char_at(t, '\n', i - start);
                assert(t.take(i - start) =~= s@.subrange(start as int, i as int));
                assert(chomp_cr(t.take(i - start)) =~= s@.subrange(start as int, end as int));
                assert(t.skip(i - start + 1) =~= s@.skip(i + 1));
                assert(old_dv.push(pv) + lines_spec(s@.skip(i + 1)) =~= old_dv + (seq![
                    chomp_cr(t.take(i - start)),
                ] + lines_spec(t.skip(i - start + 1))));
            }
            start = i + 1;
        }
        i += 1;
    }
    if start < n {
        let last = s.substring_char(start, n).to_owned();
        let ghost lv = last@;
        let ghost old_dv = out.deep_view();
        out.push(last);
        proof {
            assert(out.deep_view() =~= old_dv.push(lv));
            let t = s@.skip(start as int);
            assert(forall|j: int| 0 <= j < n - start ==> t[j] == s@[start + j]);
            lemma_find_char_at(t, '\n', n - start);
            assert(t =~= s@.subrange(start as int, n as int));
            assert(old_dv.push(lv) =~= old_dv + seq![t]);
            assert(out.deep_view() =~= lines_spec(s@));
        }
    } else {
        proof {
            assert(s@.skip(start as int) =~= Seq::<char>::empty());
            assert(out.deep_view() + lines_spec(s@.skip(start as int)) =~= out.deep_view());
        }
    }
    out
}

/// The Unicode White_Space characters, which trimming removes.
pub open spec fn is_space(c: char) -> bool {
    (0x09 <= c as u32 && c as u32 <= 0x0D) || c as u32 == 0x20 || c as u32 == 0x85 || c as u32
        == 0xA0 || c as u32 == 0x1680 || (0x2000 <= c as u32 && c as u32 <= 0x200A) || c as u32
        == 0x2028 || c as u32 == 0x2029 || c as u32 == 0x202F || c as u32 == 0x205F || c as u32
        == 0x3000
}

/// `s` without its leading whitespace.
pub open spec fn trim_start_spec(s: Seq<char>) -> Seq<char>
    decreases s.len(),
{
    if s.len() > 0 && is_space(s[0]) {
        trim_start_spec(s.skip(1))
    } else {
        s
    }
}

/// `s` without its trailing whitespace.
pub open spec fn trim_end_spec(s: Seq<char>) -> Seq<char>
    decreases s.len(),
{
    if s.len() > 0 && is_space(s.last()) {
        trim_end_spec(s.drop_last())
    } else {
        s
    }
}

/// `s` without surrounding whitespace.
pub open spec fn trim_spec(s: Seq<char>) -> Seq<char> {
    trim_end_spec(trim_start_spec(s))
}

proof fn lemma_trim_start_at(s: Seq<char>, a: int)
    requires
        0 <= a <= s.len(),
        forall|i: int| 0 <= i < a ==> is_space(s[i]),
        a < s.len() ==> !is_space(s[a]),
    ensures
        trim_start_spec(s) == s.skip(a),
    decreases a,
{
    if a == 0 {
        assert(s.skip(0) =~= s);
    } else {
        assert(is_space(s[0]));
        assert(forall|i: int| 0 <= i < a - 1 ==> s.skip(1)[i] == s[i + 1]);
        if a < s.len() {
            assert(s.skip(1)[a - 1] == s[a]);
        }
        lemma_trim_start_at(s.skip(1), a - 1);
        assert(s.skip(1).skip(a - 1) =~= s.skip(a));
    }
}

proof fn lemma_trim_end_at(s: Seq<char>, b: int)
    requires
        0 <= b <= s.len(),
        forall|i: int| b <= i < s.len() ==> is_space(s[i]),
        b > 0 ==> !is_space(s[b - 1]),
    ensures
        trim_end_spec(s) == s.take(b),
    decreases s.len(),
{
    if b == s.len() {
        assert(s.take(b) =~= s);
    } else {
        assert(is_space(s[s.len() - 1]));
        assert(forall|i: int| 0 <= i < s.len() - 1 ==> s.drop_last()[i] == s[i]);
        lemma_trim_end_at(s.drop_last(), b);
        assert(s.drop_last().take(b) =~= s.take(b));
    }
}

/// Is `c` one of the whitespace characters?
fn char_is_space(c: char) -> (r: bool)
    ensures
        r == is_space(c),
{
    let u = c as u32;
    (0x09 <= u && u <= 0x0D) || u == 0x20 || u == 0x85 || u == 0xA0 || u == 0x1680 || (0x2000 <= u
        && u <= 0x200A) || u == 0x2028 || u == 0x2029 || u == 0x202F || u == 0x205F || u == 0x3000
}

/// `s` without surrounding whitespace.
pub fn trim(s: &str) -> (r: String)
    ensures
        r@ == trim_spec(s@),
{
    let n = s.unicode_len();
    let mut a: usize = 0;
    while a < n && char_is_space(s.get_char(a))
        invariant
            n == s@.len(),
            a <= n,
            forall|i: int| 0 <= i < a ==> is_space(s@[i]),
        decreases n - a,
    {
        a += 1;
    }
    let mut b: usize = n;
    while b > a && char_is_space(s.get_char(b - 1))
        invariant
            n == s@.len(),
            a <= b <= n,
            forall|i: int| b <= i < n ==> is_space(s@[i]),
        decreases b,
    {
        b -= 1;
    }
    let r = s.substring_char(a, b).to_owned();
    proof {
        lemma_trim_start_at(s@, a as int);
        let t = s@.skip(a as int);
        assert(forall|i: int| 0 <= i < t.len() ==> t[i] == s@[a + i]);
        lemma_trim_end_at(t, b - a);
        assert(t.take(b - a) =~= s@.subrange(a as int, b as int));
    }
    r
}

/// One layer of surrounding double quotes, removed if present.
pub open spec fn unquote_spec(s: Seq<char>) -> Seq<char> {
    if s.len() >= 2 && s[0] == '"' && s.last() == '"' {
        s.subrange(1, s.len() - 1)
    } else {
        s
    }
}

/// Remove one layer of surrounding double quotes, if present.
pub fn unquote(s: &str) -> (r: String)
    ensures
        r@ == unquote_spec(s@),
{
    let n = s.unicode_len();
    if n >= 2 && s.get_char(0) == '"' && s.get_char(n - 1) == '"' {
        s.substring_char(1, n - 1).to_owned()
    } else {
        s.to_owned()
    }
}

/// `sub` occurs contiguously somewhere in `h`.
pub open spec fn contains_seq(h: Seq<char>, sub: Seq<char>) -> bool {
    exists|i: int| 0 <= i <= h.len() - sub.len() && #[trigger] h.subrange(i, i + sub.len())
        == sub
}

fn match_at(h: &str, sub: &str, i: usize) -> (r: bool)
    requires
        i + sub@.len() <= h@.len(),
    ensures
        r == (h@.subrange(i as int, i + sub@.len()) == sub@),
{
    let nh = h.unicode_len();
    let ns = sub.unicode_len();
    let mut j: usize = 0;
    while j < ns
        invariant
            nh == h@.len(),
            ns == sub@.len(),
            i + ns <= nh,
            j <= ns,
            forall|y: int| 0 <= y < j ==> h@[i + y] == sub@[y],
        decreases ns - j,
    {
        if h.get_char(i + j) != sub.get_char(j) {
            proof {
                assert(h@.subrange(i as int, i + ns) [j as int] != sub@[j as int]);
            }
            return false;
        }
        j += 1;
    }
    proof {
        assert(h@.subrange(i as int, i + ns) =~= sub@);
    }
    true
}

/// Does `sub` occur contiguously in `h`?
pub fn contains_substring(h: &str, sub: &str) -> (r: bool)
    ensures
        r == contains_seq(h@, sub@),
{
    let nh = h.unicode_len();
    let ns = sub.unicode_len();
    if ns > nh {
        return false;
    }
    if ns == 0 {
        proof {
            assert(contains_seq(h@, sub@)) by {
                assert(h@.subrange(0, 0 + sub@.len() as int) =~= sub@);
            }
        }
        return true;
    }
    let mut i: usize = 0;
    while i <= nh - ns
        invariant
            nh == h@.len(),
            ns == sub@.len(),
            0 < ns <= nh,
            i <= nh - ns + 1,
            forall|x: int| 0 <= x < i ==> #[trigger] h@.subrange(x, x + ns) != sub@,
        decreases nh - i,
    {
        if match_at(h, sub, i) {
            return true;
        }
        i += 1;
    }
    false
}

} // verus!
