use vstd::prelude::*;
use vstd::string::*;

verus! {

pub open spec fn is_digit(c: char) -> bool {
    '0' <= c <= '9'
}

pub open spec fn all_digits(s: Seq<char>) -> bool {
    forall|i: int| 0 <= i < s.len() ==> is_digit(#[trigger] s[i])
}

/// A non-empty run of decimal digits.
pub open spec fn is_digits(s: Seq<char>) -> bool {
    s.len() > 0 && all_digits(s)
}

/// `s` without one leading `+` or `-`.
pub open spec fn without_sign(s: Seq<char>) -> Seq<char> {
    if s.len() > 0 && (s[0] == '+' || s[0] == '-') {
        s.drop_first()
    } else {
        s
    }
}

/// Digits with at most one decimal point, and at least one digit.
pub open spec fn is_mantissa(m: Seq<char>) -> bool {
    is_digits(m) || exists|k: int|
        0 <= k < m.len() && #[trigger] m[k] == '.' && m.len() > 1 && all_digits(m.take(k))
            && all_digits(m.skip(k + 1))
}

/// What follows the `e` of an exponent: an optional sign and digits.
pub open spec fn is_exponent(x: Seq<char>) -> bool {
    is_digits(without_sign(x))
}

pub open spec fn is_exp_mark(c: char) -> bool {
    c == 'e' || c == 'E'
}

/// A mantissa, optionally followed by `e` or `E` and an exponent.
pub open spec fn is_decimal(b: Seq<char>) -> bool {
    is_mantissa(b) || exists|k: int|
        0 <= k < b.len() && is_exp_mark(#[trigger] b[k]) && is_mantissa(b.take(k)) && is_exponent(
            b.skip(k + 1),
        )
}

fn chars_of(s: &str) -> (r: Vec<char>)
    ensures
        r@ == s@,
{
    let n = s.unicode_len();
    let mut r: Vec<char> = Vec::new();
    let mut i: usize = 0;
    while i < n
        invariant
            n == s@.len(),
            i <= n,
            r@ == s@.take(i as int),
        decreases n - i,
    {
        r.push(s.get_char(i));
        i = i + 1;
        assert(r@ =~= s@.take(i as int));
    }
    assert(r@ =~= s@);
    r
}

/// The first index in `lo..hi` that holds `a` or `b`, or `hi` if none does.
fn find_either(v: &Vec<char>, lo: usize, hi: usize, a: char, b: char) -> (p: usize)
    requires
        lo <= hi <= v.len(),
    ensures
        lo <= p <= hi,
        forall|i: int| lo <= i < p ==> #[trigger] v@[i] != a && v@[i] != b,
        p < hi ==> v@[p as int] == a || v@[p as int] == b,
{
    let mut p = lo;
    while p < hi && v[p] != a && v[p] != b
        invariant
            lo <= p <= hi <= v.len(),
            forall|i: int| lo <= i < p ==> #[trigger] v@[i] != a && v@[i] != b,
        decreases hi - p,
    {
        p = p + 1;
    }
    p
}

fn digits_in(v: &Vec<char>, lo: usize, hi: usize) -> (r: bool)
    requires
        lo <= hi <= v.len(),
    ensures
        r == all_digits(v@.subrange(lo as int, hi as int)),
{
    let mut i = lo;
    while i < hi
        invariant
            lo <= i <= hi <= v.len(),
            all_digits(v@.subrange(lo as int, i as int)),
        decreases hi - i,
    {
        if !('0' <= v[i] && v[i] <= '9') {
            assert(v@.subrange(lo as int, hi as int)[i - lo] == v@[i as int]);
            return false;
        }
        i = i + 1;
        assert forall|j: int| 0 <= j < i - lo implies is_digit(
            #[trigger] v@.subrange(lo as int, i as int)[j],
        ) by {
            assert(v@.subrange(lo as int, i as int)[j] == v@[lo + j]);
            if j < i - 1 - lo {
                assert(v@.subrange(lo as int, i - 1)[j] == v@[lo + j]);
            }
        }
    }
    true
}

/// Whether `v[lo..hi]` is a mantissa.
fn mantissa_in(v: &Vec<char>, lo: usize, hi: usize) -> (r: bool)
    requires
        lo <= hi <= v.len(),
    ensures
        r == is_mantissa(v@.subrange(lo as int, hi as int)),
{
    let ghost m = v@.subrange(lo as int, hi as int);
    let p = find_either(v, lo, hi, '.', '.');
    if p == hi {
        let r = lo < hi && digits_in(v, lo, hi);
        proof {
            assert forall|k: int| 0 <= k < m.len() implies #[trigger] m[k] != '.' by {
                assert(m[k] == v@[lo + k]);
            }
        }
        r
    } else {
        let k0 = p - lo;
        let before = digits_in(v, lo, p);
        let after = digits_in(v, p + 1, hi);
        proof {
            assert(m[k0 as int] == '.');
            assert(m.take(k0 as int) =~= v@.subrange(lo as int, p as int));
            assert(m.skip(k0 + 1) =~= v@.subrange(p + 1, hi as int));
            assert(!is_digit(m[k0 as int]));
            if is_mantissa(m) {
                let k = choose|k: int|
                    0 <= k < m.len() && #[trigger] m[k] == '.' && m.len() > 1 && all_digits(
                        m.take(k),
                    ) && all_digits(m.skip(k + 1));
                if k < k0 {
                    assert(m[k] == v@[lo + k]);
                } else if k > k0 {
                    assert(m.take(k)[k0 as int] == '.');
                }
            }
        }
        hi - lo > 1 && before && after
    }
}

/// Whether `v[lo..hi]` is an exponent without its `e`.
fn exponent_in(v: &Vec<char>, lo: usize, hi: usize) -> (r: bool)
    requires
        lo <= hi <= v.len(),
    ensures
        r == is_exponent(v@.subrange(lo as int, hi as int)),
{
    let ghost x = v@.subrange(lo as int, hi as int);
    let start = if lo < hi && (v[lo] == '+' || v[lo] == '-') {
        lo + 1
    } else {
        lo
    };
    proof {
        if lo < hi {
            assert(x[0] == v@[lo as int]);
        }
        assert(without_sign(x) =~= v@.subrange(start as int, hi as int));
    }
    start < hi && digits_in(v, start, hi)
}

/// Whether `v[lo..hi]` is a decimal number.
fn decimal_in(v: &Vec<char>, lo: usize, hi: usize) -> (r: bool)
    requires
        lo <= hi <= v.len(),
    ensures
        r == is_decimal(v@.subrange(lo as int, hi as int)),
{
    let ghost b = v@.subrange(lo as int, hi as int);
    let p = find_either(v, lo, hi, 'e', 'E');
    if p == hi {
        let r = mantissa_in(v, lo, hi);
        proof {
            assert forall|k: int| 0 <= k < b.len() implies !is_exp_mark(#[trigger] b[k]) by {
                assert(b[k] == v@[lo + k]);
            }
        }
        r
    } else {
        let k0 = p - lo;
        let before = mantissa_in(v, lo, p);
        let after = exponent_in(v, p + 1, hi);
        proof {
            assert(b[k0 as int] == v@[p as int]);
            assert(b.take(k0 as int) =~= v@.subrange(lo as int, p as int));
            assert(b.skip(k0 + 1) =~= v@.subrange(p + 1, hi as int));
            // a mantissa holds no exponent mark
            assert forall|m: Seq<char>, j: int|
                0 <= j < m.len() && is_exp_mark(#[trigger] m[j]) implies !is_mantissa(m) by {
                if is_mantissa(m) {
                    if !is_digits(m) {
                        let k = choose|k: int|
                            0 <= k < m.len() && #[trigger] m[k] == '.' && m.len() > 1
                                && all_digits(m.take(k)) && all_digits(m.skip(k + 1));
                        if j < k {
                            assert(m.take(k)[j] == m[j]);
                        } else {
                            assert(m.skip(k + 1)[j - k - 1] == m[j]);
                        }
                    }
                }
            }
            if is_decimal(b) {
                assert(b[k0 as int] == 'e' || b[k0 as int] == 'E');
                if !is_mantissa(b) {
                    let k = choose|k: int|
                        0 <= k < b.len() && is_exp_mark(#[trigger] b[k]) && is_mantissa(b.take(k))
                            && is_exponent(b.skip(k + 1));
                    if k < k0 {
                        assert(b[k] == v@[lo + k]);
                    } else if k > k0 {
                        assert(b.take(k)[k0 as int] == b[k0 as int]);
                    }
                }
            }
        }
        before && after
    }
}

/// Whether `s` is a finite base-10 number: an optional sign, then a decimal
/// number with an optional exponent. The words `inf`, `infinity` and `nan`,
/// which `f32`'s `FromStr` also takes, are not numbers here.
pub fn is_signed_decimal(s: &str) -> (r: bool)
    ensures
        r == is_decimal(without_sign(s@)),
{
    let v = chars_of(s);
    let hi = v.len();
    let lo: usize = if hi > 0 && (v[0] == '+' || v[0] == '-') {
        1
    } else {
        0
    };
    proof {
        assert(without_sign(s@) =~= v@.subrange(lo as int, hi as int));
    }
    decimal_in(&v, lo, hi)
}

} // verus!
