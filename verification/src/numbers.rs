//! Numeric text, read the way `str::parse` reads it: unsigned integers by value, and the
//! grammar that `f64::from_str` documents for the floating-point literals it accepts.
use vstd::prelude::*;

verus! {

pub open spec fn is_digit(c: char) -> bool {
    '0' <= c && c <= '9'
}

pub open spec fn all_digits(s: Seq<char>) -> bool {
    forall|i: int| 0 <= i < s.len() ==> #[trigger] is_digit(s[i])
}

/// Value of a run of decimal digits.
pub open spec fn digits_value(s: Seq<char>) -> nat
    decreases s.len(),
{
    if s.len() == 0 {
        0
    } else {
        digits_value(s.drop_last()) * 10 + ((s.last() as int) - 48) as nat
    }
}

/// `s` without one leading `+` or `-`.
pub open spec fn drop_sign(s: Seq<char>) -> Seq<char> {
    if s.len() > 0 && (s[0] == '+' || s[0] == '-') {
        s.drop_first()
    } else {
        s
    }
}

/// What `str::parse::<u64>` gives: an optional `+`, then at least one digit, of a value
/// that fits in `u64`.
pub open spec fn u64_of(s: Seq<char>) -> Option<u64> {
    let body = if s.len() > 0 && s[0] == '+' { s.drop_first() } else { s };
    if body.len() > 0 && all_digits(body) && digits_value(body) <= u64::MAX {
        Some(digits_value(body) as u64)
    } else {
        None
    }
}

/// Reads an unsigned decimal integer as `str::parse::<u64>` does.
pub fn parse_u64(s: &[char]) -> (r: Option<u64>)
    ensures
        r == u64_of(s@),
{
    let mut start: usize = 0;
    if s.len() > 0 && s[0] == '+' {
        start = 1;
    }
    let ghost body = if s@.len() > 0 && s@[0] == '+' { s@.drop_first() } else { s@ };
    assert(body =~= s@.skip(start as int));
    if start >= s.len() {
        return None;
    }
    let mut value: u64 = 0;
    let mut i: usize = start;
    while i < s.len()
        invariant
            start <= i <= s.len(),
            body == s@.skip(start as int),
            body == (if s@.len() > 0 && s@[0] == '+' { s@.drop_first() } else { s@ }),
            all_digits(s@.subrange(start as int, i as int)),
            value as nat == digits_value(s@.subrange(start as int, i as int)),
        decreases s.len() - i,
    {
        let c = s[i];
        let ghost prev = s@.subrange(start as int, i as int);
        let ghost next = s@.subrange(start as int, i + 1);
        assert(next.drop_last() =~= prev);
        assert(body[i - start] == c);
        if !('0' <= c && c <= '9') {
            assert(!is_digit(body[i - start]));
            return None;
        }
        let d: u64 = ((c as u32) - 48) as u64;
        match value.checked_mul(10) {
            Some(m) => match m.checked_add(d) {
                Some(v) => {
                    assert(next.last() == c);
                    value = v;
                },
                None => {
                    assert(body.take((i + 1 - start) as int) =~= next);
                    proof {
                        if all_digits(body) {
                            lemma_digits_prefix_bound(body, (i + 1 - start) as int);
                        }
                    }
                    return None;
                },
            },
            None => {
                assert(body.take((i + 1 - start) as int) =~= next);
                proof {
                    if all_digits(body) {
                        lemma_digits_prefix_bound(body, (i + 1 - start) as int);
                    }
                }
                return None;
            },
        }
        i += 1;
    }
    assert(s@.subrange(start as int, s@.len() as int) =~= body);
    Some(value)
}

/// The value of a run of digits is at least that of any of its prefixes.
pub proof fn lemma_digits_prefix_bound(s: Seq<char>, k: int)
    requires
        0 <= k <= s.len(),
        all_digits(s),
    ensures
        digits_value(s.take(k)) <= digits_value(s),
    decreases s.len(),
{
    if k < s.len() {
        lemma_digits_prefix_bound(s.drop_last(), k);
        assert(s.drop_last().take(k) =~= s.take(k));
        assert(all_digits(s.drop_last()));
        assert(is_digit(s[s.len() - 1]));
    } else {
        assert(s.take(k) =~= s);
    }
}

pub proof fn lemma_dec_digits(n: nat)
    ensures
        all_digits(crate::text::dec(n)),
        digits_value(crate::text::dec(n)) == n,
        crate::text::dec(n).len() > 0,
        crate::text::dec(n)[0] != '+',
    decreases n,
{
    let d = crate::text::dec(n);
    if n < 10 {
        assert(d.drop_last() =~= Seq::<char>::empty());
        assert((crate::text::digit_char(n) as int) == n + 48);
        assert(digits_value(d) == digits_value(d.drop_last()) * 10 + ((d.last() as int) - 48) as nat);
    } else {
        lemma_dec_digits(n / 10);
        assert(d.drop_last() =~= crate::text::dec(n / 10));
        assert(d[0] == crate::text::dec(n / 10)[0]);
        assert((crate::text::digit_char((n % 10) as nat) as int) == (n % 10) + 48);
        assert(d.last() == crate::text::digit_char((n % 10) as nat));
        assert(n == (n / 10) * 10 + n % 10);
        assert(digits_value(d.drop_last()) == n / 10);
        assert(digits_value(d) == digits_value(d.drop_last()) * 10 + ((d.last() as int) - 48) as nat);
        assert(((d.last() as int) - 48) as nat == n % 10);
    }
}

/// Reading back the decimal rendering of a number gives the number: `parse::<u64>` undoes
/// `to_string` on `u64`.
pub proof fn law_u64_round_trip(n: u64)
    ensures
        u64_of(crate::text::dec(n as nat)) == Some(n),
{
    lemma_dec_digits(n as nat);
}

/// A mantissa: digits and at most one `.`, with at least one digit.
pub open spec fn is_mantissa(s: Seq<char>) -> bool {
    &&& forall|i: int| 0 <= i < s.len() ==> is_digit(#[trigger] s[i]) || s[i] == '.'
    &&& forall|i: int, j: int| 0 <= i < s.len() && 0 <= j < s.len() && s[i] == '.' && s[j] == '.' ==> i == j
    &&& exists|i: int| 0 <= i < s.len() && is_digit(#[trigger] s[i])
}

/// An exponent after `e`: an optional sign, then at least one digit.
pub open spec fn is_exponent(s: Seq<char>) -> bool {
    drop_sign(s).len() > 0 && all_digits(drop_sign(s))
}

pub open spec fn is_exp_mark(c: char) -> bool {
    c == 'e' || c == 'E'
}

/// A decimal number: a mantissa, optionally followed by `e` or `E` and an exponent.
pub open spec fn is_decimal(s: Seq<char>) -> bool {
    ||| is_mantissa(s)
    ||| exists|k: int|
        0 <= k < s.len() && #[trigger] is_exp_mark(s[k]) && is_mantissa(s.take(k))
            && is_exponent(s.skip(k + 1))
}

/// ASCII case-insensitive equality with a lowercase word.
pub open spec fn eq_ignore_case(s: Seq<char>, word: Seq<char>) -> bool {
    s.len() == word.len() && forall|i: int| 0 <= i < s.len() ==> crate::text::lower_char(
        #[trigger] s[i],
    ) == word[i]
}

/// The strings that `f64::from_str` accepts, by the grammar its documentation gives: an
/// optional sign, then `inf`, `infinity` or `nan` in any case, or a decimal number.
pub open spec fn is_float_literal(s: Seq<char>) -> bool {
    let t = drop_sign(s);
    ||| eq_ignore_case(t, seq!['i', 'n', 'f'])
    ||| eq_ignore_case(t, seq!['i', 'n', 'f', 'i', 'n', 'i', 't', 'y'])
    ||| eq_ignore_case(t, seq!['n', 'a', 'n'])
    ||| is_decimal(t)
}

fn mantissa_ok(s: &[char], from: usize, to: usize) -> (r: bool)
    requires
        from <= to <= s.len(),
    ensures
        r == is_mantissa(s@.subrange(from as int, to as int)),
{
    let ghost m = s@.subrange(from as int, to as int);
    let mut dots: usize = 0;
    let mut digits: bool = false;
    let ghost mut dot_at: int = -1;
    let mut i = from;
    while i < to
        invariant
            from <= i <= to <= s.len(),
            m == s@.subrange(from as int, to as int),
            forall|j: int| 0 <= j < i - from ==> is_digit(#[trigger] m[j]) || m[j] == '.',
            dots <= 1,
            dots == 0 ==> forall|j: int| 0 <= j < i - from ==> #[trigger] m[j] != '.',
            dots == 1 ==> 0 <= dot_at < i - from && m[dot_at] == '.' && forall|j: int|
                0 <= j < i - from && #[trigger] m[j] == '.' ==> j == dot_at,
            digits <==> exists|j: int| 0 <= j < i - from && is_digit(#[trigger] m[j]),
        decreases to - i,
    {
        let c = s[i];
        assert(m[i - from] == c);
        if '0' <= c && c <= '9' {
            digits = true;
        } else if c == '.' {
            if dots == 1 {
                assert(m[dot_at] == '.' && m[i - from] == '.' && dot_at != i - from);
                return false;
            }
            dots = 1;
            proof { dot_at = i - from; }
        } else {
            assert(!(is_digit(m[i - from]) || m[i - from] == '.'));
            return false;
        }
        i += 1;
    }
    digits
}

fn exponent_ok(s: &[char], from: usize) -> (r: bool)
    requires
        from <= s.len(),
    ensures
        r == is_exponent(s@.skip(from as int)),
{
    let ghost e = s@.skip(from as int);
    let mut i = from;
    if i < s.len() && (s[i] == '+' || s[i] == '-') {
        i += 1;
    }
    assert(drop_sign(e) =~= s@.skip(i as int));
    if i >= s.len() {
        return false;
    }
    let start = i;
    while i < s.len()
        invariant
            start <= i <= s.len(),
            drop_sign(e) == s@.skip(start as int),
            e == s@.skip(from as int),
            forall|j: int| start <= j < i ==> is_digit(#[trigger] s@[j]),
        decreases s.len() - i,
    {
        assert(drop_sign(e)[i - start] == s@[i as int]);
        if !('0' <= s[i] && s[i] <= '9') {
            assert(!is_digit(drop_sign(e)[i - start]));
            return false;
        }
        i += 1;
    }
    assert forall|j: int| 0 <= j < drop_sign(e).len() implies #[trigger] is_digit(drop_sign(e)[j]) by {
        assert(drop_sign(e)[j] == s@[start + j]);
    }
    true
}

fn word_ok(s: &[char], from: usize, word: &str) -> (r: bool)
    requires
        from <= s.len(),
    ensures
        r == eq_ignore_case(s@.skip(from as int), word@),
{
    let w = crate::text::chars_of(word);
    let t = s.len() - from;
    if t != w.len() {
        return false;
    }
    let mut i: usize = 0;
    while i < t
        invariant
            t == s.len() - from,
            t == w@.len(),
            w@ == word@,
            i <= t,
            forall|j: int| 0 <= j < i ==> crate::text::lower_char(s@[from + j]) == w@[j],
        decreases t - i,
    {
        if crate::text::to_lower_char(s[from + i]) != w[i] {
            assert(crate::text::lower_char(s@.skip(from as int)[i as int]) != word@[i as int]);
            return false;
        }
        i += 1;
    }
    assert forall|j: int| 0 <= j < s@.skip(from as int).len() implies crate::text::lower_char(
        #[trigger] s@.skip(from as int)[j],
    ) == word@[j] by {
        assert(s@.skip(from as int)[j] == s@[from + j]);
    }
    true
}

/// Whether `f64::from_str` accepts `s`.
pub fn is_float_text(s: &[char]) -> (r: bool)
    ensures
        r == is_float_literal(s@),
{
    let mut from: usize = 0;
    if s.len() > 0 && (s[0] == '+' || s[0] == '-') {
        from = 1;
    }
    let ghost t = drop_sign(s@);
    assert(t =~= s@.skip(from as int));
    proof {
        reveal_strlit("inf");
        reveal_strlit("infinity");
        reveal_strlit("nan");
    }
    if word_ok(s, from, "inf") || word_ok(s, from, "infinity") || word_ok(s, from, "nan") {
        return true;
    }
    let mut k = from;
    while k < s.len()
        invariant
            from <= k <= s.len(),
            t == s@.skip(from as int),
            forall|j: int| from <= j < k ==> !is_exp_mark(#[trigger] s@[j]),
        ensures
            from <= k <= s.len(),
            forall|j: int| from <= j < k ==> !is_exp_mark(#[trigger] s@[j]),
            k < s.len() ==> is_exp_mark(s@[k as int]),
        decreases s.len() - k,
    {
        if s[k] == 'e' || s[k] == 'E' {
            break;
        }
        k += 1;
    }
    if k == s.len() {
        let r = mantissa_ok(s, from, s.len());
        assert(s@.subrange(from as int, s@.len() as int) =~= t);
        proof {
            if !r {
                assert forall|q: int| 0 <= q < t.len() implies !#[trigger] is_exp_mark(t[q]) by {
                    assert(t[q] == s@[from + q]);
                }
            }
        }
        r
    } else {
        let ghost kk = k - from;
        assert(t[kk] == s@[k as int]);
        assert(is_exp_mark(t[kk]));
        let m = mantissa_ok(s, from, k);
        assert(s@.subrange(from as int, k as int) =~= t.take(kk));
        let e = exponent_ok(s, k + 1);
        assert(s@.skip(k + 1) =~= t.skip(kk + 1));
        proof {
            if !(m && e) {
                // No other `e` can split `t`: a mantissa holds no `e`.
                assert forall|q: int|
                    0 <= q < t.len() && #[trigger] is_exp_mark(t[q]) && is_mantissa(t.take(q))
                        implies q == kk by {
                    if q > kk {
                        assert(t.take(q)[kk] == t[kk]);
                        assert(!(is_digit(t.take(q)[kk]) || t.take(q)[kk] == '.'));
                    }
                    if q < kk {
                        assert(t[q] == s@[from + q]);
                    }
                }
                if is_mantissa(t) {
                    assert(!(is_digit(t[kk]) || t[kk] == '.'));
                }
            }
        }
        m && e
    }
}

} // verus!
