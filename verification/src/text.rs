//! Verified text utilities over `&str` and `String`.
//!
//! All scanning in this crate is done character-wise through vstd's
//! unicode string operations, so every helper here is specified over
//! the `Seq<char>` view of its arguments.
use vstd::prelude::*;
use vstd::string::StrSliceExecFns;

verus! {

/// Decimal rendering of a natural number, most significant digit first.
pub open spec fn spec_decimal(n: nat) -> Seq<char>
    decreases n,
{
    if n < 10 {
        seq![((48 + n) as u8) as char]
    } else {
        spec_decimal(n / 10).push(((48 + n % 10) as u8) as char)
    }
}

/// The character of a decimal digit.
fn digit_char(d: usize) -> (c: char)
    requires
        d < 10,
    ensures
        c == ((48 + d as nat) as u8) as char,
{
    match d {
        0 => '0',
        1 => '1',
        2 => '2',
        3 => '3',
        4 => '4',
        5 => '5',
        6 => '6',
        7 => '7',
        8 => '8',
        _ => '9',
    }
}

/// Write `n` in decimal, most significant digit first.
pub fn usize_to_string(n: usize) -> (s: String)
    ensures
        s@ == spec_decimal(n as nat),
    decreases n,
{
    if n < 10 {
        let c = digit_char(n);
        char_to_string(c)
    } else {
        let mut s = usize_to_string(n / 10);
        let last = char_to_string(digit_char(n % 10));
        s.append(last.as_str());
        s
    }
}

/// Relies on `char::to_string`: the one-character string of `c`.
#[verifier::external_body]
pub fn char_to_string(c: char) -> (s: String)
    ensures
        s@ == seq![c],
{
    c.to_string()
}

/// Index of the first occurrence of `c` in `s`, or `-1` if there is none.
pub open spec fn spec_find_char(s: Seq<char>, c: char) -> int
    decreases s.len(),
{
    if s.len() == 0 {
        -1
    } else if s[0] == c {
        0
    } else if spec_find_char(s.drop_first(), c) == -1 {
        -1
    } else {
        1 + spec_find_char(s.drop_first(), c)
    }
}

/// `spec_find_char` returns the first occurrence, or `-1` when `c` does not occur.
pub proof fn lemma_find_char(s: Seq<char>, c: char)
    ensures
        spec_find_char(s, c) == -1 <==> (forall|j: int| 0 <= j < s.len() ==> s[j] != c),
        spec_find_char(s, c) != -1 ==> {
            let r = spec_find_char(s, c);
            &&& 0 <= r < s.len()
            &&& s[r] == c
            &&& forall|j: int| 0 <= j < r ==> s[j] != c
        },
    decreases s.len(),
{
    if s.len() == 0 {
    } else if s[0] == c {
        assert(spec_find_char(s, c) == 0);
        assert(s[0] == c);
    } else {
        let d = s.drop_first();
        lemma_find_char(d, c);
        assert(forall|j: int| 0 <= j < d.len() ==> d[j] == s[j + 1]);
        if spec_find_char(d, c) == -1 {
            assert forall|j: int| 0 <= j < s.len() implies s[j] != c by {
                if j > 0 {
                    assert(d[j - 1] == s[j]);
                }
            }
        } else {
            let r = spec_find_char(d, c);
            assert(spec_find_char(s, c) == 1 + r);
            assert(s[1 + r] == d[r]);
            assert forall|j: int| 0 <= j < 1 + r implies s[j] != c by {
                if j > 0 {
                    assert(d[j - 1] == s[j]);
                }
            }
        }
    }
}

/// Find the first occurrence of `c` in `s`.
pub fn find_char(s: &str, c: char) -> (r: Option<usize>)
    ensures
        match r {
            Some(i) => i == spec_find_char(s@, c) && i < s@.len(),
            None => spec_find_char(s@, c) == -1,
        },
{
    let n = s.unicode_len();
    let mut i: usize = 0;
    while i < n
        invariant
            n == s@.len(),
            i <= n,
            forall|j: int| 0 <= j < i ==> s@[j] != c,
        decreases n - i,
    {
        if s.get_char(i) == c {
            proof {
                lemma_find_char(s@, c);
                let r = spec_find_char(s@, c);
                assert(r != -1);
                assert(r == i);
            }
            return Some(i);
        }
        i = i + 1;
    }
    proof {
        lemma_find_char(s@, c);
    }
    None
}

/// `s` with leading spaces removed.
pub open spec fn spec_trim_start(s: Seq<char>) -> Seq<char>
    decreases s.len(),
{
    if s.len() > 0 && s[0] == ' ' {
        spec_trim_start(s.drop_first())
    } else {
        s
    }
}

/// `s` with trailing spaces removed.
pub open spec fn spec_trim_end(s: Seq<char>) -> Seq<char>
    decreases s.len(),
{
    if s.len() > 0 && s[s.len() - 1] == ' ' {
        spec_trim_end(s.drop_last())
    } else {
        s
    }
}

/// `s` with leading and trailing spaces removed.
pub open spec fn spec_trim(s: Seq<char>) -> Seq<char> {
    spec_trim_end(spec_trim_start(s))
}

/// Trimming never lengthens a text.
pub proof fn lemma_trim_start_le(s: Seq<char>)
    ensures
        spec_trim_start(s).len() <= s.len(),
    decreases s.len(),
{
    if s.len() > 0 && s[0] == ' ' {
        lemma_trim_start_le(s.drop_first());
    }
}

/// Trimming never lengthens a text.
pub proof fn lemma_trim_end_le(s: Seq<char>)
    ensures
        spec_trim_end(s).len() <= s.len(),
    decreases s.len(),
{
    if s.len() > 0 && s[s.len() - 1] == ' ' {
        lemma_trim_end_le(s.drop_last());
    }
}

/// Trimming never lengthens a text.
pub proof fn lemma_trim_le(s: Seq<char>)
    ensures
        spec_trim(s).len() <= s.len(),
{
    lemma_trim_start_le(s);
    lemma_trim_end_le(spec_trim_start(s));
}

/// Remove leading and trailing spaces.
pub fn trim_str(s: &str) -> (r: String)
    ensures
        r@ == spec_trim(s@),
{
    let n = s.unicode_len();
    proof {
        assert(s@.subrange(0, n as int) =~= s@);
    }
    let mut a: usize = 0;
    while a < n && s.get_char(a) == ' '
        invariant
            n == s@.len(),
            a <= n,
            spec_trim_start(s@.subrange(a as int, n as int)) == spec_trim_start(s@),
        decreases n - a,
    {
        proof {
            let t = s@.subrange(a as int, n as int);
            assert(t[0] == ' ');
            assert(t.drop_first() =~= s@.subrange(a + 1, n as int));
        }
        a = a + 1;
    }
    proof {
        let t = s@.subrange(a as int, n as int);
        assert(t.len() == 0 || t[0] != ' ');
        assert(spec_trim_start(t) == t);
    }
    let mut b: usize = n;
    while b > a && s.get_char(b - 1) == ' '
        invariant
            n == s@.len(),
            a <= b <= n,
            spec_trim_start(s@) == s@.subrange(a as int, n as int),
            spec_trim_end(s@.subrange(a as int, b as int)) == spec_trim_end(
                s@.subrange(a as int, n as int),
            ),
        decreases b,
    {
        proof {
            let t = s@.subrange(a as int, b as int);
            assert(t[t.len() - 1] == ' ');
            assert(t.drop_last() =~= s@.subrange(a as int, b - 1));
        }
        b = b - 1;
    }
    proof {
        let t = s@.subrange(a as int, b as int);
        assert(t.len() == 0 || t[t.len() - 1] != ' ');
        assert(spec_trim_end(t) == t);
    }
    let r = s.substring_char(a, b);
    String::from_str(r)
}

/// True when `sub` occurs in `s` starting at index `i`.
pub open spec fn spec_match_at(s: Seq<char>, sub: Seq<char>, i: int) -> bool {
    0 <= i && i + sub.len() <= s.len() && s.subrange(i, i + sub.len()) == sub
}

/// True when `sub` occurs somewhere in `s`.
pub open spec fn spec_contains(s: Seq<char>, sub: Seq<char>) -> bool {
    exists|i: int| spec_match_at(s, sub, i)
}

/// True when `sub` occurs in `s` starting at index `i`.
pub fn match_at(s: &str, s_len: usize, sub: &str, sub_len: usize, i: usize) -> (r: bool)
    requires
        s_len == s@.len(),
        sub_len == sub@.len(),
        i + sub_len <= s_len,
    ensures
        r == spec_match_at(s@, sub@, i as int),
{
    let mut j: usize = 0;
    while j < sub_len
        invariant
            s_len == s@.len(),
            sub_len == sub@.len(),
            i + sub_len <= s_len,
            j <= sub_len,
            forall|k: int| 0 <= k < j ==> s@[i + k] == sub@[k],
        decreases sub_len - j,
    {
        if s.get_char(i + j) != sub.get_char(j) {
            proof {
                assert(s@.subrange(i as int, i + sub@.len())[j as int] == s@[i + j]);
            }
            return false;
        }
        j = j + 1;
    }
    proof {
        assert(s@.subrange(i as int, i + sub@.len()) =~= sub@);
    }
    true
}

/// True when `sub` occurs somewhere in `s`.
pub fn contains_str(s: &str, sub: &str) -> (r: bool)
    ensures
        r == spec_contains(s@, sub@),
{
    let n = s.unicode_len();
    let m = sub.unicode_len();
    if m > n {
        proof {
            assert(forall|i: int| !spec_match_at(s@, sub@, i));
        }
        return false;
    }
    if m == 0 {
        proof {
            assert(s@.subrange(0, 0) =~= sub@);
            assert(spec_match_at(s@, sub@, 0));
        }
        return true;
    }
    let mut i: usize = 0;
    while i <= n - m
        invariant
            n == s@.len(),
            m == sub@.len(),
            0 < m <= n,
            i <= n - m + 1,
            forall|k: int| 0 <= k < i ==> !spec_match_at(s@, sub@, k),
        decreases n - i,
    {
        if match_at(s, n, sub, m, i) {
            return true;
        }
        i = i + 1;
    }
    proof {
        assert(forall|k: int| spec_match_at(s@, sub@, k) ==> 0 <= k <= n - m);
    }
    false
}

/// `t` with every occurrence of the two-character placeholder `{}`
/// substituted by `v`, scanning left to right.
pub open spec fn spec_replace_marker(t: Seq<char>, v: Seq<char>) -> Seq<char>
    decreases t.len(),
{
    if t.len() < 2 {
        t
    } else if t[0] == '{' && t[1] == '}' {
        v + spec_replace_marker(t.skip(2), v)
    } else {
        seq![t[0]] + spec_replace_marker(t.skip(1), v)
    }
}

/// Substitute every `{}` placeholder of template `t` by `v`.
pub fn replace_marker(t: &str, v: &str) -> (r: String)
    ensures
        r@ == spec_replace_marker(t@, v@),
{
    let n = t.unicode_len();
    proof {
        assert(t@.skip(0) =~= t@);
    }
    let mut out = String::new();
    let mut i: usize = 0;
    while i < n
        invariant
            n == t@.len(),
            i <= n,
            out@ + spec_replace_marker(t@.skip(i as int), v@) == spec_replace_marker(t@, v@),
        decreases n - i,
    {
        let c = t.get_char(i);
        if i + 1 < n && c == '{' && t.get_char(i + 1) == '}' {
            proof {
                let rest = t@.skip(i as int);
                assert(rest[0] == '{' && rest[1] == '}');
                assert(rest.skip(2) =~= t@.skip(i + 2));
            }
            out.append(v);
            i = i + 2;
        } else {
            proof {
                let rest = t@.skip(i as int);
                assert(rest[0] == c);
                assert(rest.skip(1) =~= t@.skip(i + 1));
                if rest.len() >= 2 && rest[0] == '{' && rest[1] == '}' {
                    assert(false);
                }
                assert(spec_replace_marker(rest, v@) == seq![c] + spec_replace_marker(
                    t@.skip(i + 1),
                    v@,
                ));
            }
            let cs = char_to_string(c);
            out.append(cs.as_str());
            i = i + 1;
        }
    }
    proof {
        assert(t@.skip(n as int) =~= Seq::<char>::empty());
        assert(out@ =~= spec_replace_marker(t@, v@));
    }
    out
}

/// Character-wise string equality.
pub fn str_eq(a: &str, b: &str) -> (r: bool)
    ensures
        r == (a@ == b@),
{
    let an = a.unicode_len();
    let bn = b.unicode_len();
    if an != bn {
        proof {
            assert(a@ != b@) by {
                if a@ == b@ {
                    assert(a@.len() == b@.len());
                }
            }
        }
        return false;
    }
    let mut i: usize = 0;
    while i < an
        invariant
            an == a@.len(),
            an == b@.len(),
            i <= an,
            forall|j: int| 0 <= j < i ==> a@[j] == b@[j],
        decreases an - i,
    {
        if a.get_char(i) != b.get_char(i) {
            return false;
        }
        i = i + 1;
    }
    proof {
        assert(a@ =~= b@);
    }
    true
}

/// Numeric value of a decimal digit character, or `-1`.
pub open spec fn spec_digit(c: char) -> int {
    if c == '0' {
        0
    } else if c == '1' {
        1
    } else if c == '2' {
        2
    } else if c == '3' {
        3
    } else if c == '4' {
        4
    } else if c == '5' {
        5
    } else if c == '6' {
        6
    } else if c == '7' {
        7
    } else if c == '8' {
        8
    } else if c == '9' {
        9
    } else {
        -1
    }
}

/// True when every character of `s` is a decimal digit.
pub open spec fn spec_all_digits(s: Seq<char>) -> bool {
    forall|i: int| 0 <= i < s.len() ==> spec_digit(#[trigger] s[i]) >= 0
}

/// Value of a digit text, most significant digit first.
pub open spec fn spec_digits_val(s: Seq<char>) -> int
    decreases s.len(),
{
    if s.len() == 0 {
        0
    } else {
        spec_digits_val(s.drop_last()) * 10 + spec_digit(s[s.len() - 1])
    }
}

/// What parsing a decimal number yields: its value if the text is
/// nonempty, all digits, and the value representable.
pub open spec fn spec_parse_usize(s: Seq<char>) -> Option<int> {
    if s.len() > 0 && spec_all_digits(s) && spec_digits_val(s) <= usize::MAX {
        Some(spec_digits_val(s))
    } else {
        None
    }
}

/// A digit text's value is never negative.
proof fn lemma_digits_val_nonneg(s: Seq<char>, i: int)
    requires
        0 <= i <= s.len(),
        spec_all_digits(s),
    ensures
        spec_digits_val(s.take(i)) >= 0,
    decreases i,
{
    if i == 0 {
        assert(s.take(0).len() == 0);
    } else {
        lemma_digits_val_nonneg(s, i - 1);
        let t = s.take(i);
        assert(t.drop_last() =~= s.take(i - 1));
        assert(t[t.len() - 1] == s[i - 1]);
        assert(spec_digit(s[i - 1]) >= 0);
    }
}

/// A digit text's value never shrinks as the text grows.
proof fn lemma_digits_val_monotonic(s: Seq<char>, i: int, j: int)
    requires
        0 <= i <= j <= s.len(),
        spec_all_digits(s),
    ensures
        spec_digits_val(s.take(i)) <= spec_digits_val(s.take(j)),
        spec_digits_val(s.take(i)) >= 0,
    decreases j - i,
{
    lemma_digits_val_nonneg(s, i);
    if j > i {
        lemma_digits_val_monotonic(s, i, j - 1);
        let t = s.take(j);
        assert(t.drop_last() =~= s.take(j - 1));
        assert(t[t.len() - 1] == s[j - 1]);
        assert(spec_digit(s[j - 1]) >= 0);
        lemma_digits_val_nonneg(s, j - 1);
    }
}

/// Numeric value of a decimal digit character, or `-1`.
fn digit_of(c: char) -> (r: i8)
    ensures
        r as int == spec_digit(c),
{
    match c {
        '0' => 0,
        '1' => 1,
        '2' => 2,
        '3' => 3,
        '4' => 4,
        '5' => 5,
        '6' => 6,
        '7' => 7,
        '8' => 8,
        '9' => 9,
        _ => -1,
    }
}

/// Parse a decimal number; see `spec_parse_usize`.
pub fn parse_usize(s: &str) -> (r: Option<usize>)
    ensures
        match r {
            Some(v) => spec_parse_usize(s@) == Some(v as int),
            None => spec_parse_usize(s@) is None,
        },
{
    let n = s.unicode_len();
    if n == 0 {
        return None;
    }
    let mut acc: usize = 0;
    let mut i: usize = 0;
    proof {
        assert(s@.take(0).len() == 0);
    }
    #[verifier::loop_isolation(false)]
    while i < n
        invariant
            i <= n,
            forall|j: int| 0 <= j < i ==> spec_digit(#[trigger] s@[j]) >= 0,
            acc == spec_digits_val(s@.take(i as int)),
        decreases n - i,
    {
        let c = s.get_char(i);
        let d = digit_of(c);
        if d < 0 {
            return None;
        }
        proof {
            assert(s@.take(i + 1).drop_last() =~= s@.take(i as int));
            assert(s@.take(i + 1)[i as int] == s@[i as int]);
        }
        if acc > (usize::MAX - (d as usize)) / 10 {
            proof {
                assert(spec_digits_val(s@.take(i + 1)) > usize::MAX);
                if spec_all_digits(s@) {
                    lemma_digits_val_monotonic(s@, i + 1, n as int);
                    assert(s@.take(n as int) =~= s@);
                }
            }
            return None;
        }
        acc = acc * 10 + (d as usize);
        i = i + 1;
    }
    proof {
        assert(s@.take(n as int) =~= s@);
    }
    Some(acc)
}

} // verus!
