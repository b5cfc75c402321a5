//! String utilities shared by the gateways and the orchestrator: digit
//! parsing, substring search and removal, whitespace trimming, and ASCII
//! upper-casing of recording codes.

use vstd::prelude::*;

verus! {

/// Whether `c` is a decimal digit.
pub open spec fn is_digit(c: char) -> bool {
    '0' <= c && c <= '9'
}

/// The numeric value of a decimal digit.
pub open spec fn digit_val(c: char) -> int {
    c as int - '0' as int
}

/// Whether every character of `s` is a decimal digit.
pub open spec fn all_digits(s: Seq<char>) -> bool {
    forall|i: int| 0 <= i < s.len() ==> is_digit(s[i])
}

/// The value of `s` read as a decimal numeral.
pub open spec fn dec_val(s: Seq<char>) -> int
    decreases s.len(),
{
    if s.len() == 0 {
        0
    } else {
        dec_val(s.drop_last()) * 10 + digit_val(s.last())
    }
}

/// A decimal numeral over digits has a non-negative value, and extending it
/// to the right never shrinks the value.
pub proof fn lemma_dec_val_nonneg(s: Seq<char>)
    requires
        all_digits(s),
    ensures
        dec_val(s) >= 0,
    decreases s.len(),
{
    if s.len() > 0 {
        assert(all_digits(s.drop_last()));
        lemma_dec_val_nonneg(s.drop_last());
    }
}

/// The value of a prefix of a digit string never exceeds the whole value.
pub proof fn lemma_dec_val_prefix(s: Seq<char>, i: int)
    requires
        all_digits(s),
        0 <= i <= s.len(),
    ensures
        dec_val(s.subrange(0, i)) <= dec_val(s),
    decreases s.len() - i,
{
    if i < s.len() {
        lemma_dec_val_prefix(s, i + 1);
        let p = s.subrange(0, i + 1);
        assert(p.drop_last() =~= s.subrange(0, i));
        assert(is_digit(p.last()));
        assert(all_digits(s.subrange(0, i)));
        lemma_dec_val_nonneg(s.subrange(0, i));
        assert(dec_val(p) == dec_val(s.subrange(0, i)) * 10 + digit_val(p.last()));
    } else {
        assert(s.subrange(0, i) =~= s);
    }
}

/// Parse a string of decimal digits.  Fails exactly when the string is
/// empty, holds a non-digit, or encodes a value above `u64::MAX`.
pub fn parse_u64_digits(s: &str) -> (r: Option<u64>)
    ensures
        r is Some <==> s@.len() > 0 && all_digits(s@) && dec_val(s@) <= u64::MAX,
        r matches Some(v) ==> v == dec_val(s@),
{
    let n = s.unicode_len();
    if n == 0 {
        return None;
    }
    let mut i: usize = 0;
    let mut v: u64 = 0;
    while i < n
        invariant
            n == s@.len(),
            0 <= i <= n,
            all_digits(s@.subrange(0, i as int)),
            v == dec_val(s@.subrange(0, i as int)),
        decreases n - i,
    {
        let c = s.get_char(i);
        if c < '0' || c > '9' {
            return None;
        }
        let d: u64 = (c as u32 - '0' as u32) as u64;
        proof {
            assert(s@.subrange(0, i + 1).drop_last() =~= s@.subrange(0, i as int));
            assert(s@.subrange(0, i + 1).last() == s@[i as int]);
            assert(all_digits(s@.subrange(0, i + 1)));
        }
        if v > (u64::MAX - d) / 10 {
            proof {
                assert(dec_val(s@.subrange(0, i + 1)) > u64::MAX);
                if all_digits(s@) {
                    lemma_dec_val_prefix(s@, i + 1);
                }
            }
            return None;
        }
        v = v * 10 + d;
        i = i + 1;
    }
    proof {
        assert(s@.subrange(0, n as int) =~= s@);
    }
    Some(v)
}

/// Relies on `String::push`: it appends exactly the given character.
#[verifier::external_body]
pub(crate) fn push_char(s: &mut String, c: char)
    ensures
        final(s)@ == old(s)@.push(c),
{
    s.push(c)
}

/// Whether `pat` occurs in `s` starting at position `i`.
pub open spec fn occurs_at(s: Seq<char>, pat: Seq<char>, i: int) -> bool {
    0 <= i && i + pat.len() <= s.len() && s.subrange(i, i + pat.len()) == pat
}

/// Whether `pat` occurs at position `at` of `s`.
fn match_at(s: &str, pat: &str, at: usize) -> (r: bool)
    requires
        at <= s@.len(),
    ensures
        r <==> occurs_at(s@, pat@, at as int),
{
    let n = s.unicode_len();
    let m = pat.unicode_len();
    if n - at < m {
        return false;
    }
    let mut k: usize = 0;
    while k < m
        invariant
            n == s@.len(),
            m == pat@.len(),
            at + m <= n,
            0 <= k <= m,
            forall|j: int| 0 <= j < k ==> s@[at + j] == pat@[j],
        decreases m - k,
    {
        if s.get_char(at + k) != pat.get_char(k) {
            proof {
                assert(s@.subrange(at as int, at + pat@.len())[k as int] != pat@[k as int]);
            }
            return false;
        }
        k = k + 1;
    }
    proof {
        assert(s@.subrange(at as int, at + pat@.len()) =~= pat@);
    }
    true
}

/// Whether `pat` occurs anywhere in `s`.
pub fn contains_sub(s: &str, pat: &str) -> (r: bool)
    ensures
        r <==> exists|i: int| occurs_at(s@, pat@, i),
{
    let n = s.unicode_len();
    let m = pat.unicode_len();
    if m > n {
        return false;
    }
    if m == 0 {
        proof {
            assert(s@.subrange(0, 0) =~= pat@);
            assert(occurs_at(s@, pat@, 0));
        }
        return true;
    }
    let mut i: usize = 0;
    while i <= n - m
        invariant
            n == s@.len(),
            m == pat@.len(),
            0 < m <= n,
            0 <= i <= n - m + 1,
            forall|j: int| 0 <= j < i ==> !occurs_at(s@, pat@, j),
        decreases n - i,
    {
        if match_at(s, pat, i) {
            return true;
        }
        i = i + 1;
    }
    false
}

/// `s` with every occurrence of `pat` removed, scanning left to right and
/// skipping a whole occurrence each time one starts.
pub open spec fn strip_spec(s: Seq<char>, pat: Seq<char>) -> Seq<char>
    decreases s.len(),
{
    if pat.len() == 0 || s.len() < pat.len() {
        s
    } else if s.subrange(0, pat.len() as int) == pat {
        strip_spec(s.skip(pat.len() as int), pat)
    } else {
        seq![s[0]] + strip_spec(s.drop_first(), pat)
    }
}

/// Remove every occurrence of `pat` from `s`, scanning left to right.
pub fn remove_all(s: &str, pat: &str) -> (r: String)
    requires
        pat@.len() > 0,
    ensures
        r@ == strip_spec(s@, pat@),
{
    let n = s.unicode_len();
    let m = pat.unicode_len();
    let mut out = String::new();
    let mut p: usize = 0;
    proof {
        assert(s@.skip(0) =~= s@);
        assert(out@ + strip_spec(s@, pat@) =~= strip_spec(s@, pat@));
    }
    while p < n
        invariant
            n == s@.len(),
            m == pat@.len(),
            m > 0,
            0 <= p <= n,
            out@ + strip_spec(s@.skip(p as int), pat@) == strip_spec(s@, pat@),
        decreases n - p,
    {
        let ghost rem = s@.skip(p as int);
        if match_at(s, pat, p) {
            proof {
                assert(rem.subrange(0, pat@.len() as int) =~= s@.subrange(p as int, p + pat@.len()));
                assert(rem.skip(pat@.len() as int) =~= s@.skip(p + pat@.len()));
            }
            p = p + m;
        } else {
            proof {
                if rem.len() >= pat@.len() {
                    assert(rem.subrange(0, pat@.len() as int) =~= s@.subrange(
                        p as int,
                        p + pat@.len(),
                    ));
                }
                assert(rem.drop_first() =~= s@.skip(p + 1));
                assert(rem[0] == s@[p as int]);
            }
            let c = s.get_char(p);
            push_char(&mut out, c);
            proof {
                assert(out@ + strip_spec(s@.skip(p + 1), pat@) =~= strip_spec(s@, pat@));
            }
            p = p + 1;
        }
    }
    proof {
        assert(s@.skip(n as int).len() == 0);
        assert(out@ =~= strip_spec(s@, pat@));
    }
    out
}

/// Whether `c` is one of the whitespace characters trimmed from playlist
/// names: space, tab, line feed or carriage return.
pub open spec fn is_space(c: char) -> bool {
    c == ' ' || c == '\t' || c == '\n' || c == '\r'
}

/// `s` without its leading and trailing whitespace.
pub open spec fn trim_spec(s: Seq<char>) -> Seq<char>
    decreases s.len(),
{
    if s.len() == 0 {
        s
    } else if is_space(s[0]) {
        trim_spec(s.drop_first())
    } else if is_space(s.last()) {
        trim_spec(s.drop_last())
    } else {
        s
    }
}

/// Trim leading and trailing whitespace from `s`.
pub fn trim(s: &str) -> (r: &str)
    ensures
        r@ == trim_spec(s@),
{
    let n = s.unicode_len();
    let mut lo: usize = 0;
    proof {
        assert(s@.subrange(0, n as int) =~= s@);
    }
    while lo < n
        invariant
            n == s@.len(),
            0 <= lo <= n,
            trim_spec(s@.subrange(lo as int, n as int)) == trim_spec(s@),
        ensures
            lo <= n,
            trim_spec(s@.subrange(lo as int, n as int)) == trim_spec(s@),
            lo == n || !is_space(s@[lo as int]),
        decreases n - lo,
    {
        let c = s.get_char(lo);
        if c == ' ' || c == '\t' || c == '\n' || c == '\r' {
            proof {
                assert(s@.subrange(lo as int, n as int).drop_first() =~= s@.subrange(
                    lo + 1,
                    n as int,
                ));
            }
            lo = lo + 1;
        } else {
            break;
        }
    }
    let mut hi: usize = n;
    while hi > lo
        invariant
            n == s@.len(),
            0 <= lo <= hi <= n,
            lo == n || !is_space(s@[lo as int]),
            trim_spec(s@.subrange(lo as int, hi as int)) == trim_spec(s@),
        ensures
            lo <= hi <= n,
            trim_spec(s@.subrange(lo as int, hi as int)) == trim_spec(s@),
            lo == n || !is_space(s@[lo as int]),
            hi == lo || !is_space(s@[hi - 1]),
        decreases hi,
    {
        let c = s.get_char(hi - 1);
        if c == ' ' || c == '\t' || c == '\n' || c == '\r' {
            proof {
                let cur = s@.subrange(lo as int, hi as int);
                assert(cur.drop_last() =~= s@.subrange(lo as int, hi - 1));
                assert(cur.last() == s@[hi - 1]);
                assert(lo < hi ==> cur[0] == s@[lo as int]);
            }
            hi = hi - 1;
        } else {
            break;
        }
    }
    let r = s.substring_char(lo, hi);
    proof {
        let cur = s@.subrange(lo as int, hi as int);
        assert(lo < hi ==> cur[0] == s@[lo as int]);
        assert(lo < hi ==> cur.last() == s@[hi - 1]);
        assert(trim_spec(cur) == cur);
    }
    r
}

/// `c` upper-cased when it is an ASCII lower-case letter, `c` itself
/// otherwise.  Recording codes are ASCII, so this matches full Unicode
/// upper-casing on every code the catalogs hand out.
pub open spec fn to_upper(c: char) -> char {
    if c == 'a' {
        'A'
    } else if c == 'b' {
        'B'
    } else if c == 'c' {
        'C'
    } else if c == 'd' {
        'D'
    } else if c == 'e' {
        'E'
    } else if c == 'f' {
        'F'
    } else if c == 'g' {
        'G'
    } else if c == 'h' {
        'H'
    } else if c == 'i' {
        'I'
    } else if c == 'j' {
        'J'
    } else if c == 'k' {
        'K'
    } else if c == 'l' {
        'L'
    } else if c == 'm' {
        'M'
    } else if c == 'n' {
        'N'
    } else if c == 'o' {
        'O'
    } else if c == 'p' {
        'P'
    } else if c == 'q' {
        'Q'
    } else if c == 'r' {
        'R'
    } else if c == 's' {
        'S'
    } else if c == 't' {
        'T'
    } else if c == 'u' {
        'U'
    } else if c == 'v' {
        'V'
    } else if c == 'w' {
        'W'
    } else if c == 'x' {
        'X'
    } else if c == 'y' {
        'Y'
    } else if c == 'z' {
        'Z'
    } else {
        c
    }
}

/// `s` with every ASCII lower-case letter upper-cased.
pub open spec fn upper_seq(s: Seq<char>) -> Seq<char> {
    s.map_values(|c: char| to_upper(c))
}

/// Upper-case every ASCII lower-case letter of `s`.
pub fn to_upper_ascii(s: &str) -> (r: String)
    ensures
        r@ == upper_seq(s@),
{
    let n = s.unicode_len();
    let mut out = String::new();
    let mut i: usize = 0;
    while i < n
        invariant
            n == s@.len(),
            0 <= i <= n,
            out@ == upper_seq(s@.subrange(0, i as int)),
        decreases n - i,
    {
        let c = s.get_char(i);
        let u: char = match c {
            'a' => 'A',
            'b' => 'B',
            'c' => 'C',
            'd' => 'D',
            'e' => 'E',
            'f' => 'F',
            'g' => 'G',
            'h' => 'H',
            'i' => 'I',
            'j' => 'J',
            'k' => 'K',
            'l' => 'L',
            'm' => 'M',
            'n' => 'N',
            'o' => 'O',
            'p' => 'P',
            'q' => 'Q',
            'r' => 'R',
            's' => 'S',
            't' => 'T',
            'u' => 'U',
            'v' => 'V',
            'w' => 'W',
            'x' => 'X',
            'y' => 'Y',
            'z' => 'Z',
            other => other,
        };
        push_char(&mut out, u);
        proof {
            assert(u == to_upper(s@[i as int]));
            assert(upper_seq(s@.subrange(0, i + 1)) =~= upper_seq(s@.subrange(0, i as int)).push(
                to_upper(s@[i as int]),
            ));
        }
        i = i + 1;
    }
    proof {
        assert(s@.subrange(0, n as int) =~= s@);
    }
    out
}

} // verus!
