//! Verified text utilities for the line-oriented wire protocol: prefix
//! tests, an ASCII case-insensitive prefix test, substring search, and
//! trimming of line endings.
use vstd::prelude::*;
use vstd::string::*;

verus! {

/// Whether `s` contains `n` as a contiguous subsequence.
pub open spec fn spec_contains(s: Seq<char>, n: Seq<char>) -> bool {
    exists|i: int|
        0 <= i && i + n.len() <= s.len() && #[trigger] s.subrange(i, i + n.len() as int) == n
}

/// ASCII case-insensitive character equality: equal outright, or equal up
/// to the 32 that separates an ASCII capital from its small letter.
pub open spec fn spec_char_eq_ci(a: char, b: char) -> bool {
    ||| a == b
    ||| ('A' <= a && a <= 'Z' && a as u32 + 32 == b as u32)
    ||| ('A' <= b && b <= 'Z' && b as u32 + 32 == a as u32)
}

/// Whether `p` is a prefix of `s` up to ASCII case.
pub open spec fn spec_prefix_ci(p: Seq<char>, s: Seq<char>) -> bool {
    p.len() <= s.len() && forall|k: int| 0 <= k < p.len() ==> spec_char_eq_ci(s[k], p[k])
}

/// `s` with every trailing newline or carriage return removed.
pub open spec fn spec_trim_end(s: Seq<char>) -> Seq<char>
    decreases s.len(),
{
    if s.len() > 0 && (s.last() == '\n' || s.last() == '\r') {
        spec_trim_end(s.drop_last())
    } else {
        s
    }
}

/// Whether `p` is a prefix of `s`.
pub fn str_starts_with(s: &str, p: &str) -> (r: bool)
    ensures
        r == p@.is_prefix_of(s@),
{
    let n = p.unicode_len();
    if n > s.unicode_len() {
        return false;
    }
    let mut i: usize = 0;
    while i < n
        invariant
            i <= n,
            n == p@.len(),
            n <= s@.len(),
            forall|k: int| 0 <= k < i ==> s@[k] == p@[k],
        decreases n - i,
    {
        if s.get_char(i) != p.get_char(i) {
            assert(!p@.is_prefix_of(s@));
            return false;
        }
        i = i + 1;
    }
    assert(p@ =~= s@.subrange(0, n as int));
    true
}

/// Whether `p` is a prefix of `s` up to ASCII case.
pub fn str_starts_with_ci(s: &str, p: &str) -> (r: bool)
    ensures
        r == spec_prefix_ci(p@, s@),
{
    let n = p.unicode_len();
    if n > s.unicode_len() {
        return false;
    }
    let mut i: usize = 0;
    while i < n
        invariant
            i <= n,
            n == p@.len(),
            n <= s@.len(),
            forall|k: int| 0 <= k < i ==> spec_char_eq_ci(s@[k], p@[k]),
        decreases n - i,
    {
        let a = s.get_char(i);
        let b = p.get_char(i);
        let same = if a == b {
            true
        } else if 'A' <= a && a <= 'Z' {
            a as u32 + 32 == b as u32
        } else if 'A' <= b && b <= 'Z' {
            b as u32 + 32 == a as u32
        } else {
            false
        };
        if !same {
            assert(!spec_char_eq_ci(s@[i as int], p@[i as int]));
            return false;
        }
        i = i + 1;
    }
    true
}

/// Whether `s` contains `n` as a contiguous substring.
pub fn str_contains(s: &str, n: &str) -> (r: bool)
    ensures
        r == spec_contains(s@, n@),
{
    let sl = s.unicode_len();
    let nl = n.unicode_len();
    if nl > sl {
        assert(!spec_contains(s@, n@));
        return false;
    }
    if nl == 0 {
        proof {
            assert(s@.subrange(0, 0 + n@.len() as int) =~= n@);
            assert(spec_contains(s@, n@));
        }
        return true;
    }
    let mut i: usize = 0;
    while i <= sl - nl
        invariant
            nl == n@.len(),
            sl == s@.len(),
            nl <= sl,
            0 < nl,
            i <= sl - nl + 1,
            forall|ii: int|
                0 <= ii < i ==> #[trigger] s@.subrange(ii, ii + nl as int) != n@,
        decreases sl + 1 - i,
    {
        let mut j: usize = 0;
        let mut hit = true;
        while j < nl
            invariant
                i + nl <= sl,
                nl == n@.len(),
                sl == s@.len(),
                j <= nl,
                hit ==> forall|k: int| 0 <= k < j ==> s@[i + k] == n@[k],
                !hit ==> s@.subrange(i as int, i + nl as int) != n@,
            decreases nl - j,
        {
            if s.get_char(i + j) != n.get_char(j) {
                proof {
                    let sub = s@.subrange(i as int, i + nl as int);
                    assert(sub[j as int] == s@[i + j]);
                }
                hit = false;
                j = nl;
            } else {
                j = j + 1;
            }
        }
        if hit {
            proof {
                assert(s@.subrange(i as int, i + nl as int) =~= n@);
            }
            return true;
        }
        i = i + 1;
    }
    proof {
        assert forall|ii: int| 0 <= ii && ii + n@.len() <= s@.len() implies #[trigger] s@.subrange(
            ii,
            ii + n@.len() as int,
        ) != n@ by {
            assert(ii < i);
        }
    }
    false
}

/// `s` with every trailing newline or carriage return removed.
pub fn trim_line_end<'a>(s: &'a str) -> (r: &'a str)
    ensures
        r@ == spec_trim_end(s@),
{
    let mut end = s.unicode_len();
    proof {
        assert(s@.subrange(0, s@.len() as int) =~= s@);
    }
    loop
        invariant
            end <= s@.len(),
            spec_trim_end(s@) == spec_trim_end(s@.subrange(0, end as int)),
        ensures
            end <= s@.len(),
            spec_trim_end(s@) == spec_trim_end(s@.subrange(0, end as int)),
            end == 0 || (s@[end - 1] != '\n' && s@[end - 1] != '\r'),
        decreases end,
    {
        if end == 0 {
            break;
        }
        let c = s.get_char(end - 1);
        if c != '\n' && c != '\r' {
            break;
        }
        proof {
            let cur = s@.subrange(0, end as int);
            assert(cur.last() == s@[end - 1]);
            assert(cur.drop_last() =~= s@.subrange(0, end - 1));
        }
        end = end - 1;
    }
    let r = s.substring_char(0, end);
    proof {
        let cur = s@.subrange(0, end as int);
        if end > 0 {
            assert(cur.last() == s@[end - 1]);
        }
        assert(spec_trim_end(cur) == cur);
    }
    r
}

/// Whether two strings hold the same characters.
pub fn str_equal(a: &str, b: &str) -> (r: bool)
    ensures
        r == (a@ == b@),
{
    let n = a.unicode_len();
    if n != b.unicode_len() {
        return false;
    }
    let mut i: usize = 0;
    while i < n
        invariant
            i <= n,
            n == a@.len(),
            n == b@.len(),
            forall|k: int| 0 <= k < i ==> a@[k] == b@[k],
        decreases n - i,
    {
        if a.get_char(i) != b.get_char(i) {
            return false;
        }
        i = i + 1;
    }
    proof {
        assert(a@ =~= b@);
    }
    true
}

/// Character-sequence equality up to ASCII case.
pub open spec fn spec_eq_ci(a: Seq<char>, b: Seq<char>) -> bool {
    a.len() == b.len() && forall|k: int| 0 <= k < a.len() ==> spec_char_eq_ci(a[k], b[k])
}

/// Whether two strings hold the same characters up to ASCII case.
pub fn str_equal_ci(a: &str, b: &str) -> (r: bool)
    ensures
        r == spec_eq_ci(a@, b@),
{
    let n = a.unicode_len();
    if n != b.unicode_len() {
        return false;
    }
    let mut i: usize = 0;
    while i < n
        invariant
            i <= n,
            n == a@.len(),
            n == b@.len(),
            forall|k: int| 0 <= k < i ==> spec_char_eq_ci(a@[k], b@[k]),
        decreases n - i,
    {
        let x = a.get_char(i);
        let y = b.get_char(i);
        let same = if x == y {
            true
        } else if 'A' <= x && x <= 'Z' {
            x as u32 + 32 == y as u32
        } else if 'A' <= y && y <= 'Z' {
            y as u32 + 32 == x as u32
        } else {
            false
        };
        if !same {
            assert(!spec_char_eq_ci(a@[i as int], b@[i as int]));
            return false;
        }
        i = i + 1;
    }
    true
}

/// Whether `p` ends with `suffix`.
pub fn str_ends_with(s: &str, suffix: &str) -> (r: bool)
    ensures
        r == (suffix@.len() <= s@.len() && s@.subrange(
            s@.len() - suffix@.len(),
            s@.len() as int,
        ) == suffix@),
{
    let n = s.unicode_len();
    let m = suffix.unicode_len();
    if m > n {
        return false;
    }
    let tail = s.substring_char(n - m, n);
    let r = str_starts_with(tail, suffix);
    proof {
        assert(tail@.subrange(0, suffix@.len() as int) =~= tail@);
    }
    r
}

/// The decimal digit character for a value below ten.
pub open spec fn spec_digit(d: nat) -> char {
    if d == 0 {
        '0'
    } else if d == 1 {
        '1'
    } else if d == 2 {
        '2'
    } else if d == 3 {
        '3'
    } else if d == 4 {
        '4'
    } else if d == 5 {
        '5'
    } else if d == 6 {
        '6'
    } else if d == 7 {
        '7'
    } else if d == 8 {
        '8'
    } else {
        '9'
    }
}

/// The decimal digits of `n`, most significant first, with no leading
/// zeros except for zero itself.
pub open spec fn spec_digits(n: nat) -> Seq<char>
    decreases n,
{
    if n < 10 {
        seq![spec_digit(n)]
    } else {
        spec_digits(n / 10).push(spec_digit(n % 10))
    }
}

/// Appends the digit character of a value below ten.
fn append_digit(s: &mut String, d: usize)
    requires
        d < 10,
    ensures
        final(s)@ == old(s)@.push(spec_digit(d as nat)),
{
    if d == 0 {
        s.append("0");
        proof {
            reveal_strlit("0");
            assert(s@ =~= old(s)@.push('0'));
        }
    } else if d == 1 {
        s.append("1");
        proof {
            reveal_strlit("1");
            assert(s@ =~= old(s)@.push('1'));
        }
    } else if d == 2 {
        s.append("2");
        proof {
            reveal_strlit("2");
            assert(s@ =~= old(s)@.push('2'));
        }
    } else if d == 3 {
        s.append("3");
        proof {
            reveal_strlit("3");
            assert(s@ =~= old(s)@.push('3'));
        }
    } else if d == 4 {
        s.append("4");
        proof {
            reveal_strlit("4");
            assert(s@ =~= old(s)@.push('4'));
        }
    } else if d == 5 {
        s.append("5");
        proof {
            reveal_strlit("5");
            assert(s@ =~= old(s)@.push('5'));
        }
    } else if d == 6 {
        s.append("6");
        proof {
            reveal_strlit("6");
            assert(s@ =~= old(s)@.push('6'));
        }
    } else if d == 7 {
        s.append("7");
        proof {
            reveal_strlit("7");
            assert(s@ =~= old(s)@.push('7'));
        }
    } else if d == 8 {
        s.append("8");
        proof {
            reveal_strlit("8");
            assert(s@ =~= old(s)@.push('8'));
        }
    } else {
        s.append("9");
        proof {
            reveal_strlit("9");
            assert(s@ =~= old(s)@.push('9'));
        }
    }
}

/// Appends the decimal digits of `n`.
pub fn append_decimal(s: &mut String, n: usize)
    ensures
        final(s)@ == old(s)@ + spec_digits(n as nat),
    decreases n,
{
    if n >= 10 {
        let q = n / 10;
        proof {
            assert(q < n) by (nonlinear_arith)
                requires
                    n >= 10,
                    q == n / 10,
            ;
        }
        append_decimal(s, q);
        append_digit(s, n % 10);
        proof {
            assert(s@ =~= old(s)@ + spec_digits(n as nat));
        }
    } else {
        append_digit(s, n);
        proof {
            assert(s@ =~= old(s)@ + spec_digits(n as nat));
        }
    }
}

/// The decimal representation of `n`.
pub fn usize_to_string(n: usize) -> (s: String)
    ensures
        s@ == spec_digits(n as nat),
{
    let mut s = String::new();
    append_decimal(&mut s, n);
    proof {
        assert(s@ =~= spec_digits(n as nat));
    }
    s
}

/// The characters of `s` from position `from` on.
pub fn str_suffix<'a>(s: &'a str, from: usize) -> (r: &'a str)
    requires
        from <= s@.len(),
    ensures
        r@ == s@.subrange(from as int, s@.len() as int),
{
    let n = s.unicode_len();
    s.substring_char(from, n)
}

} // verus!
