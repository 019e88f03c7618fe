use vstd::prelude::*;
use vstd::string::*;

verus! {

/// The character of the decimal digit `d`.
pub open spec fn digit_char(d: int) -> char {
    (48 + d) as char
}

/// The decimal digits of `n`, most significant first, without leading zeros.
pub open spec fn digits(n: nat) -> Seq<char>
    decreases n,
{
    if n < 10 {
        seq![digit_char(n as int)]
    } else {
        digits(n / 10) + seq![digit_char((n % 10) as int)]
    }
}

/// The decimal rendering of `n`, with a leading `-` where it is negative.
pub open spec fn decimal(n: int) -> Seq<char> {
    if n < 0 {
        seq!['-'] + digits((-n) as nat)
    } else {
        digits(n as nat)
    }
}

/// `s` with every non-overlapping occurrence of `pat`, scanned from the
/// left, replaced by `rep`.
pub open spec fn replaced(s: Seq<char>, pat: Seq<char>, rep: Seq<char>) -> Seq<char>
    decreases s.len(),
{
    if pat.len() == 0 || s.len() < pat.len() {
        s
    } else if s.take(pat.len() as int) == pat {
        rep + replaced(s.skip(pat.len() as int), pat, rep)
    } else {
        seq![s[0]] + replaced(s.skip(1), pat, rep)
    }
}

/// The one-character string of the decimal digit `d`.
fn digit_string(d: u64) -> (s: String)
    requires
        d < 10,
    ensures
        s@ == seq![digit_char(d as int)],
{
    let all = "0123456789";
    proof {
        reveal_strlit("0123456789");
    }
    let one = all.substring_char(d as usize, (d + 1) as usize);
    let s = String::from_str(one);
    assert(s@ =~= seq![digit_char(d as int)]);
    s
}

/// The decimal digits of `n`, as `n.to_string()` gives them.
pub fn digits_string(n: u64) -> (s: String)
    ensures
        s@ == digits(n as nat),
{
    let ghost mag = n as nat;
    let mut x: u64 = n;
    let mut s = if x == 0 {
        digit_string(0)
    } else {
        String::new()
    };
    while x > 0
        invariant
            x <= mag,
            x > 0 ==> digits(mag) == digits(x as nat) + s@,
            x == 0 ==> digits(mag) == s@,
        decreases x,
    {
        let d = digit_string(x % 10);
        assert(x < 10 ==> digits(x as nat) == seq![digit_char((x % 10) as int)]);
        assert(x >= 10 ==> digits(x as nat) == digits((x / 10) as nat) + seq![
            digit_char((x % 10) as int),
        ]);
        let ghost before = s@;
        s = d.concat(s.as_str());
        assert(s@ == seq![digit_char((x % 10) as int)] + before);
        x = x / 10;
        proof {
            if x > 0 {
                assert(digits(mag) =~= digits(x as nat) + s@);
            } else {
                assert(digits(mag) =~= s@);
            }
        }
    }
    s
}

/// The decimal rendering of `n`, as `n.to_string()` gives it.
pub fn decimal_string(n: i64) -> (s: String)
    ensures
        s@ == decimal(n as int),
{
    if n < 0 {
        let magnitude: u64 = (0i128 - (n as i128)) as u64;
        let minus = "-";
        proof {
            reveal_strlit("-");
        }
        let r = String::from_str(minus).concat(digits_string(magnitude).as_str());
        assert(r@ =~= decimal(n as int));
        r
    } else {
        digits_string(n as u64)
    }
}

/// Whether `pat` occurs in `s` at char index `i`.
fn occurs_at(s: &str, n: usize, pat: &str, m: usize, i: usize) -> (r: bool)
    requires
        n == s@.len(),
        m == pat@.len(),
        i <= n,
    ensures
        r == (i + m <= n && s@.subrange(i as int, i + m) == pat@),
{
    if m > n - i {
        return false;
    }
    let mut j: usize = 0;
    while j < m
        invariant
            n == s@.len(),
            m == pat@.len(),
            i + m <= n,
            j <= m,
            forall|k: int| 0 <= k < j ==> s@[i + k] == pat@[k],
        decreases m - j,
    {
        if s.get_char(i + j) != pat.get_char(j) {
            assert(s@.subrange(i as int, i + m)[j as int] != pat@[j as int]);
            return false;
        }
        j = j + 1;
    }
    assert(s@.subrange(i as int, i + m) =~= pat@);
    true
}

/// `s` with every non-overlapping occurrence of `pat`, scanned from the left,
/// replaced by `rep`, as `str::replace` gives it.
pub fn replace_all(s: &str, pat: &str, rep: &str) -> (r: String)
    requires
        pat@.len() > 0,
    ensures
        r@ == replaced(s@, pat@, rep@),
{
    let n = s.unicode_len();
    let m = pat.unicode_len();
    let mut out = String::new();
    let mut i: usize = 0;
    assert(s@.skip(0) =~= s@);
    while i < n
        invariant
            n == s@.len(),
            m == pat@.len(),
            m > 0,
            i <= n,
            replaced(s@, pat@, rep@) == out@ + replaced(s@.skip(i as int), pat@, rep@),
        decreases n - i,
    {
        let ghost rest = s@.skip(i as int);
        if occurs_at(s, n, pat, m, i) {
            assert(rest.take(m as int) =~= s@.subrange(i as int, i + m));
            assert(rest.skip(m as int) =~= s@.skip(i + m));
            out.append(rep);
            i = i + m;
        } else {
            assert(rest.len() >= m ==> rest.take(m as int) =~= s@.subrange(i as int, i + m));
            assert(rest.skip(1) =~= s@.skip(i + 1));
            let one = s.substring_char(i, i + 1);
            proof {
                if rest.len() < m {
                    assert(replaced(rest.skip(1), pat@, rep@) == rest.skip(1));
                    assert(rest =~= seq![rest[0]] + rest.skip(1));
                }
            }
            assert(one@ =~= seq![rest[0]]);
            out.append(one);
            i = i + 1;
        }
    }
    assert(s@.skip(n as int) =~= Seq::<char>::empty());
    assert(out@ + Seq::<char>::empty() =~= out@);
    out
}

/// Whether `a` and `b` hold the same text.
pub fn same_text(a: &str, b: &str) -> (r: bool)
    ensures
        r == (a@ == b@),
{
    let n = a.unicode_len();
    if n != b.unicode_len() {
        return false;
    }
    let r = occurs_at(a, n, b, n, 0);
    assert(a@.subrange(0, n as int) =~= a@);
    r
}

} // verus!
