//! Verified character-level utilities shared by the chart and download
//! components: substring search, decimal formatting and parsing, and
//! building `String`s character by character.
use vstd::prelude::*;

verus! {

/// Relies on std's `String::push`: appends exactly one character.
#[verifier::external_body]
pub fn push_char(s: &mut String, c: char)
    ensures
        final(s)@ == old(s)@.push(c),
{
    s.push(c);
}

/// The characters of `s`, as a vector.
pub fn chars_of(s: &str) -> (v: Vec<char>)
    ensures
        v@ == s@,
{
    let n = s.unicode_len();
    let mut v: Vec<char> = Vec::new();
    let mut i: usize = 0;
    while i < n
        invariant
            n == s@.len(),
            i <= n,
            v@ == s@.subrange(0, i as int),
        decreases n - i,
    {
        v.push(s.get_char(i));
        i += 1;
        proof {
            assert(v@ =~= s@.subrange(0, i as int));
        }
    }
    proof {
        assert(v@ =~= s@);
    }
    v
}

/// A `String` holding exactly the characters of `v`.
pub fn string_from_chars(v: &Vec<char>) -> (s: String)
    ensures
        s@ == v@,
{
    let mut s = String::new();
    let mut i: usize = 0;
    while i < v.len()
        invariant
            i <= v@.len(),
            s@ == v@.subrange(0, i as int),
        decreases v@.len() - i,
    {
        push_char(&mut s, v[i]);
        i += 1;
        proof {
            assert(s@ =~= v@.subrange(0, i as int));
        }
    }
    proof {
        assert(s@ =~= v@);
    }
    s
}

/// The decimal digit character for `d`.
pub open spec fn digit_char(d: nat) -> char {
    if d == 0 { '0' }
    else if d == 1 { '1' }
    else if d == 2 { '2' }
    else if d == 3 { '3' }
    else if d == 4 { '4' }
    else if d == 5 { '5' }
    else if d == 6 { '6' }
    else if d == 7 { '7' }
    else if d == 8 { '8' }
    else { '9' }
}

/// The usual decimal writing of `n`, most significant digit first.
pub open spec fn dec_of(n: nat) -> Seq<char>
    decreases n,
{
    if n < 10 {
        seq![digit_char(n)]
    } else {
        dec_of(n / 10).push(digit_char(n % 10))
    }
}

/// Writes `n` in decimal.
pub fn u64_to_dec(n: u64) -> (s: String)
    ensures
        s@ == dec_of(n as nat),
{
    let mut rev: Vec<char> = Vec::new();
    let mut m: u64 = n;
    loop
        invariant_except_break
            dec_of(n as nat) == dec_of(m as nat) + rev@.reverse(),
        ensures
            dec_of(n as nat) == rev@.reverse(),
        decreases m,
    {
        let d: u64 = m % 10;
        let c: char = digit_to_char(d);
        proof {
            let prev = m as nat;
            assert(dec_of(prev) == if prev < 10 { seq![digit_char(prev)] } else {
                dec_of(prev / 10).push(digit_char(prev % 10))
            });
            assert((rev@.push(c)).reverse() =~= seq![c] + rev@.reverse());
            if prev >= 10 {
                assert(dec_of(prev / 10) + (rev@.push(c)).reverse()
                    =~= dec_of(prev / 10).push(c) + rev@.reverse());
            } else {
                assert(dec_of(prev) + rev@.reverse() =~= seq![c] + rev@.reverse());
            }
        }
        rev.push(c);
        if m < 10 {
            break;
        }
        m = m / 10;
    }
    let mut v: Vec<char> = Vec::new();
    let mut i: usize = rev.len();
    while i > 0
        invariant
            i <= rev@.len(),
            v@ == rev@.subrange(i as int, rev@.len() as int).reverse(),
        decreases i,
    {
        i -= 1;
        v.push(rev[i]);
        proof {
            assert(v@ =~= rev@.subrange(i as int, rev@.len() as int).reverse());
        }
    }
    proof {
        assert(rev@.subrange(0, rev@.len() as int) =~= rev@);
    }
    string_from_chars(&v)
}

/// The character of one decimal digit.
pub fn digit_to_char(d: u64) -> (c: char)
    requires
        d < 10,
    ensures
        c == digit_char(d as nat),
{
    if d == 0 { '0' }
    else if d == 1 { '1' }
    else if d == 2 { '2' }
    else if d == 3 { '3' }
    else if d == 4 { '4' }
    else if d == 5 { '5' }
    else if d == 6 { '6' }
    else if d == 7 { '7' }
    else if d == 8 { '8' }
    else { '9' }
}

/// Writes `n` in decimal, with a leading minus sign when negative.
pub open spec fn dec_of_signed(n: int) -> Seq<char> {
    if n < 0 {
        seq!['-'] + dec_of((-n) as nat)
    } else {
        dec_of(n as nat)
    }
}

/// Writes `n` in decimal, `-` first when negative.
pub fn i64_to_dec(n: i64) -> (s: String)
    ensures
        s@ == dec_of_signed(n as int),
{
    if n >= 0 {
        u64_to_dec(n as u64)
    } else {
        let mag: u64 = if n == i64::MIN {
            9223372036854775808u64
        } else {
            (-n) as u64
        };
        let mut s = String::new();
        push_char(&mut s, '-');
        let digits = u64_to_dec(mag);
        s.append(digits.as_str());
        proof {
            assert(s@ =~= seq!['-'] + dec_of(mag as nat));
        }
        s
    }
}

/// `c` is a decimal digit.
pub open spec fn is_digit(c: char) -> bool {
    '0' <= c && c <= '9'
}

/// The value of the decimal digit `c`.
pub open spec fn digit_val(c: char) -> nat {
    (c as int - '0' as int) as nat
}

/// Every character of `s` is a decimal digit.
pub open spec fn all_digits(s: Seq<char>) -> bool {
    forall|i: int| 0 <= i < s.len() ==> is_digit(#[trigger] s[i])
}

/// The number written by the digit string `s`, most significant digit first.
pub open spec fn digits_val(s: Seq<char>) -> nat
    decreases s.len(),
{
    if s.len() == 0 {
        0
    } else {
        digits_val(s.drop_last()) * 10 + digit_val(s.last())
    }
}

/// What `str::parse::<i32>` returns on `s`: an optional sign, then at
/// least one digit, and a value within `i32`'s range.
pub open spec fn i32_of_seq(s: Seq<char>) -> Option<i32> {
    let mag = if s.len() > 0 && (s[0] == '+' || s[0] == '-') { s.drop_first() } else { s };
    let neg = s.len() > 0 && s[0] == '-';
    if mag.len() >= 1 && all_digits(mag) {
        if neg {
            if digits_val(mag) <= 2147483648 {
                Some((-(digits_val(mag) as int)) as i32)
            } else {
                None
            }
        } else {
            if digits_val(mag) <= 2147483647 {
                Some(digits_val(mag) as i32)
            } else {
                None
            }
        }
    } else {
        None
    }
}

proof fn lemma_digits_val_append_keeps_large(s: Seq<char>, bound: nat)
    requires
        s.len() > 0,
        digits_val(s.drop_last()) > bound,
    ensures
        digits_val(s) > bound,
{
    let v = digits_val(s.drop_last());
    assert(digits_val(s) == v * 10 + digit_val(s.last()));
    assert(v * 10 >= v) by (nonlinear_arith)
        requires v >= 0;
}

/// Reads the digits of `s` in `[from, to)`, as `str::parse` would:
/// fails unless every character there is a digit and there is at
/// least one; reports `None` in `.0` when the value exceeds `cap`.
pub(crate) fn parse_digits_range(s: &Vec<char>, from: usize, to: usize, cap: u64) -> (r: (
    Option<u64>,
    bool,
))
    requires
        from <= to <= s@.len(),
        cap <= (u64::MAX - 9) / 10,
    ensures
        r.1 == (to - from >= 1 && all_digits(s@.subrange(from as int, to as int))),
        r.1 ==> match r.0 {
            Some(v) => v == digits_val(s@.subrange(from as int, to as int)) && v <= cap,
            None => digits_val(s@.subrange(from as int, to as int)) > cap,
        },
{
    let n = to;
    if from >= n {
        return (None, false);
    }
    let mut acc: u64 = 0;
    let mut over: bool = false;
    let mut i: usize = from;
    while i < n
        invariant
            from <= i <= n,
            n == to <= s@.len(),
            cap <= (u64::MAX - 9) / 10,
            all_digits(s@.subrange(from as int, i as int)),
            !over ==> acc == digits_val(s@.subrange(from as int, i as int)) && acc <= cap,
            over ==> digits_val(s@.subrange(from as int, i as int)) > cap,
        decreases n - i,
    {
        let c = s[i];
        if c < '0' || c > '9' {
            proof {
                assert(s@.subrange(from as int, to as int)[i - from] == s@[i as int]);
                assert(!is_digit(s@[i as int]));
            }
            return (None, false);
        }
        let d: u64 = (c as u32 as u64) - 48;
        proof {
            let pre = s@.subrange(from as int, i as int);
            let post = s@.subrange(from as int, i + 1 as int);
            assert(post.drop_last() =~= pre);
            assert(post.last() == s@[i as int]);
            assert(d == digit_val(s@[i as int]));
            if over {
                lemma_digits_val_append_keeps_large(post, cap as nat);
            }
        }
        if !over {
            // acc <= cap <= (u64::MAX - 9) / 10, so acc * 10 + 9 cannot overflow
            let next: u64 = acc * 10 + d;
            if next > cap {
                over = true;
            } else {
                acc = next;
            }
            proof {
                let post = s@.subrange(from as int, i + 1 as int);
                if over {
                    assert(digits_val(post) > cap);
                }
            }
        }
        i += 1;
    }
    proof {
        assert(s@.subrange(from as int, n as int) =~= s@.subrange(from as int, to as int));
    }
    if over {
        (None, true)
    } else {
        (Some(acc), true)
    }
}

/// What `str::parse::<i32>` returns on `s`, as an `Option`.
pub fn parse_i32(s: &str) -> (r: Option<i32>)
    ensures
        r == i32_of_seq(s@),
{
    let v = chars_of(s);
    let n = v.len();
    if n == 0 {
        return None;
    }
    let c0 = v[0];
    let has_sign = c0 == '+' || c0 == '-';
    let neg = c0 == '-';
    let start: usize = if has_sign { 1 } else { 0 };
    let bound: u64 = if neg { 2147483648 } else { 2147483647 };
    let (val, ok) = parse_digits_range(&v, start, v.len(), bound);
    proof {
        if has_sign {
            assert(s@.drop_first() =~= s@.subrange(1, s@.len() as int));
        } else {
            assert(s@ =~= s@.subrange(0, s@.len() as int));
        }
    }
    if !ok {
        return None;
    }
    match val {
        None => None,
        Some(m) => {
            if neg {
                if m == 2147483648 {
                    Some(i32::MIN)
                } else {
                    Some(-(m as i32))
                }
            } else {
                Some(m as i32)
            }
        },
    }
}

/// `pat` occurs at position `i` of `s`.
pub open spec fn matches_seq_at(s: Seq<char>, pat: Seq<char>, i: int) -> bool {
    0 <= i && i + pat.len() <= s.len() && s.subrange(i, i + pat.len() as int) == pat
}

/// `pat` occurs as a contiguous run inside `s`.
pub open spec fn contains_seq(s: Seq<char>, pat: Seq<char>) -> bool {
    exists|i: int| #[trigger] matches_seq_at(s, pat, i)
}

fn matches_at(s: &Vec<char>, pat: &Vec<char>, at: usize) -> (r: bool)
    requires
        at + pat@.len() <= s@.len(),
    ensures
        r == (s@.subrange(at as int, at + pat@.len() as int) == pat@),
{
    let slen = s.len();
    let plen = pat.len();
    let mut j: usize = 0;
    while j < plen
        invariant
            slen == s@.len(),
            plen == pat@.len(),
            at + plen <= slen,
            j <= plen,
            forall|k: int| 0 <= k < j ==> s@[at + k] == pat@[k],
        decreases plen - j,
    {
        if s[at + j] != pat[j] {
            proof {
                assert(s@.subrange(at as int, at + pat@.len() as int)[j as int] != pat@[j as int]);
            }
            return false;
        }
        j += 1;
    }
    proof {
        assert(s@.subrange(at as int, at + pat@.len() as int) =~= pat@);
    }
    true
}

/// Whether `pat` occurs anywhere inside `s`.
pub fn contains_str(s: &str, pat: &str) -> (r: bool)
    ensures
        r == contains_seq(s@, pat@),
{
    let sv = chars_of(s);
    let pv = chars_of(pat);
    if pv.len() > sv.len() {
        return false;
    }
    if pv.len() == 0 {
        proof {
            assert(s@.subrange(0, 0) =~= pat@);
            assert(matches_seq_at(s@, pat@, 0));
        }
        return true;
    }
    let slen = sv.len();
    let last = slen - pv.len();
    let mut i: usize = 0;
    while i <= last
        invariant
            0 < pv@.len() <= sv@.len(),
            slen == sv@.len(),
            last == sv@.len() - pv@.len(),
            i <= last + 1,
            sv@ == s@,
            pv@ == pat@,
            forall|k: int| 0 <= k < i ==> !#[trigger] matches_seq_at(s@, pat@, k),
        decreases last + 1 - i,
    {
        if matches_at(&sv, &pv, i) {
            proof {
                assert(matches_seq_at(s@, pat@, i as int));
            }
            return true;
        }
        i += 1;
    }
    proof {
        assert(forall|k: int| !#[trigger] matches_seq_at(s@, pat@, k));
    }
    false
}

/// Whether two strings hold the same characters.
pub fn str_eq(a: &str, b: &str) -> (r: bool)
    ensures
        r == (a@ == b@),
{
    let va = chars_of(a);
    let vb = chars_of(b);
    if va.len() != vb.len() {
        return false;
    }
    if matches_at(&va, &vb, 0) {
        proof {
            assert(a@.subrange(0, b@.len() as int) =~= a@);
        }
        true
    } else {
        proof {
            if a@ == b@ {
                assert(a@.subrange(0, b@.len() as int) =~= b@);
            }
        }
        false
    }
}

/// `s` ends with `suffix`.
pub open spec fn ends_with_seq(s: Seq<char>, suffix: Seq<char>) -> bool {
    suffix.len() <= s.len() && s.subrange(s.len() - suffix.len(), s.len() as int) == suffix
}

/// Whether `s` ends with `suffix`.
pub fn ends_with_str(s: &str, suffix: &str) -> (r: bool)
    ensures
        r == ends_with_seq(s@, suffix@),
{
    let sv = chars_of(s);
    let pv = chars_of(suffix);
    if pv.len() > sv.len() {
        return false;
    }
    matches_at(&sv, &pv, sv.len() - pv.len())
}

} // verus!
