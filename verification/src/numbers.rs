//! Decimal digits as characters: printing numbers at a fixed width and
//! parsing digit runs back, with the facts that make the two inverse to
//! each other.

use vstd::prelude::*;

verus! {

/// Width, in digits, of every unsigned number in the persisted
/// configuration document. Twenty digits cover every `u64`.
pub const FIELD_WIDTH: usize = 20;

pub open spec fn is_digit(c: char) -> bool {
    48 <= c as u32 <= 57
}

/// The numeric value of a digit character.
pub open spec fn digit_val(c: char) -> int {
    c as u32 - 48
}

pub open spec fn char_of_digit(d: int) -> char {
    if d == 0 {
        '0'
    } else if d == 1 {
        '1'
    } else if d == 2 {
        '2'
    } else if d == 3 {
        '3'
    } else if d == 4 {
        '4'
    } else if d == 5 {
        '5'
    } else if d == 6 {
        '6'
    } else if d == 7 {
        '7'
    } else if d == 8 {
        '8'
    } else {
        '9'
    }
}

pub proof fn lemma_char_of_digit(d: int)
    requires
        0 <= d <= 9,
    ensures
        is_digit(char_of_digit(d)),
        digit_val(char_of_digit(d)) == d,
{
}

pub open spec fn all_digits(s: Seq<char>) -> bool {
    forall|i: int| 0 <= i < s.len() ==> is_digit(#[trigger] s[i])
}

/// The number a run of digit characters denotes, most significant first.
pub open spec fn digits_val(s: Seq<char>) -> int
    decreases s.len(),
{
    if s.len() == 0 {
        0
    } else {
        digits_val(s.drop_last()) * 10 + digit_val(s.last())
    }
}

pub proof fn lemma_digits_val_nonneg(s: Seq<char>)
    requires
        all_digits(s),
    ensures
        digits_val(s) >= 0,
    decreases s.len(),
{
    if s.len() > 0 {
        assert(all_digits(s.drop_last()));
        lemma_digits_val_nonneg(s.drop_last());
    }
}

pub proof fn lemma_digits_val_push(s: Seq<char>, c: char)
    ensures
        digits_val(s.push(c)) == digits_val(s) * 10 + digit_val(c),
{
    assert(s.push(c).drop_last() =~= s);
    assert(s.push(c).last() == c);
}

/// A digit run is worth at least any of its prefixes: appending digits
/// never shrinks the value.
pub proof fn lemma_digits_val_prefix_le(s: Seq<char>, k: int)
    requires
        all_digits(s),
        0 <= k <= s.len(),
    ensures
        digits_val(s.subrange(0, k)) <= digits_val(s),
    decreases s.len() - k,
{
    if k == s.len() {
        assert(s.subrange(0, k) =~= s);
    } else {
        let a = s.subrange(0, k);
        let b = s.subrange(0, k + 1);
        assert(b.drop_last() =~= a);
        assert(all_digits(a));
        lemma_digits_val_nonneg(a);
        assert(digits_val(b) == digits_val(a) * 10 + digit_val(s[k]));
        assert(is_digit(s[k]));
        lemma_digits_val_prefix_le(s, k + 1);
    }
}

pub open spec fn pow10(w: nat) -> int
    decreases w,
{
    if w == 0 {
        1
    } else {
        10 * pow10((w - 1) as nat)
    }
}

/// Every `u64` fits in `FIELD_WIDTH` digits.
pub proof fn lemma_u64_fits_field_width()
    ensures
        u64::MAX < pow10(FIELD_WIDTH as nat),
{
    reveal_with_fuel(pow10, 21);
}

/// `n` written at exactly `w` digits, zero-padded on the left (the low
/// `w` digits of `n`, when `n` is wider).
pub open spec fn fixed_digits(n: nat, w: nat) -> Seq<char>
    decreases w,
{
    if w == 0 {
        Seq::empty()
    } else {
        fixed_digits(n / 10, (w - 1) as nat).push(char_of_digit((n % 10) as int))
    }
}

pub proof fn lemma_fixed_digits_shape(n: nat, w: nat)
    ensures
        fixed_digits(n, w).len() == w,
        all_digits(fixed_digits(n, w)),
    decreases w,
{
    if w > 0 {
        lemma_fixed_digits_shape(n / 10, (w - 1) as nat);
        lemma_char_of_digit((n % 10) as int);
        let s = fixed_digits(n / 10, (w - 1) as nat);
        let c = char_of_digit((n % 10) as int);
        assert forall|i: int| 0 <= i < s.push(c).len() implies is_digit(#[trigger] s.push(c)[i]) by {
            if i < s.len() {
                assert(s.push(c)[i] == s[i]);
            } else {
                assert(s.push(c)[i] == c);
            }
        }
    }
}

/// Reading back the fixed-width digits of `n` yields `n`, provided `n`
/// fits the width.
pub proof fn lemma_fixed_digits_val(n: nat, w: nat)
    requires
        n < pow10(w),
    ensures
        digits_val(fixed_digits(n, w)) == n,
    decreases w,
{
    if w == 0 {
        assert(pow10(0) == 1);
    } else {
        let q = n / 10;
        let m = n % 10;
        vstd::arithmetic::div_mod::lemma_fundamental_div_mod(n as int, 10);
        assert(n == 10 * q + m);
        assert(q < pow10((w - 1) as nat));
        lemma_fixed_digits_val(q, (w - 1) as nat);
        lemma_digits_val_push(fixed_digits(q, (w - 1) as nat), char_of_digit(m as int));
        lemma_char_of_digit(m as int);
    }
}

/// Print the decimal digit `d`.
pub fn digit_char(d: u8) -> (c: char)
    requires
        d <= 9,
    ensures
        c == char_of_digit(d as int),
{
    match d {
        0 => '0',
        1 => '1',
        2 => '2',
        3 => '3',
        4 => '4',
        5 => '5',
        6 => '6',
        7 => '7',
        8 => '8',
        _ => '9',
    }
}

/// Append `n` as exactly `w` zero-padded decimal digits.
pub fn push_fixed(out: &mut Vec<char>, n: u64, w: usize)
    ensures
        final(out)@ == old(out)@ + fixed_digits(n as nat, w as nat),
    decreases w,
{
    if w == 0 {
        proof {
            assert(out@ =~= out@ + fixed_digits(n as nat, 0));
        }
        return ;
    }
    push_fixed(out, n / 10, w - 1);
    let d: u8 = (n % 10) as u8;
    out.push(digit_char(d));
    proof {
        assert(out@ =~= old(out)@ + fixed_digits(n as nat, w as nat));
    }
}

/// Parse the characters of `s` between `from` (inclusive) and `upto`
/// (exclusive) as an unsigned decimal number. Succeeds exactly when the
/// range is nonempty, holds only digits, and denotes a value that fits a
/// `u64`.
pub fn parse_uint(s: &Vec<char>, from: usize, upto: usize) -> (r: Option<u64>)
    requires
        from <= upto <= s@.len(),
    ensures
        match r {
            Some(v) => from < upto && all_digits(s@.subrange(from as int, upto as int))
                && digits_val(s@.subrange(from as int, upto as int)) == v as int,
            None => !(from < upto && all_digits(s@.subrange(from as int, upto as int))
                && digits_val(s@.subrange(from as int, upto as int)) <= u64::MAX as int),
        },
{
    let ghost seg = s@.subrange(from as int, upto as int);
    if from == upto {
        return None;
    }
    let mut acc: u64 = 0;
    let mut i: usize = from;
    while i < upto
        invariant
            from <= i <= upto <= s@.len(),
            from < upto,
            seg == s@.subrange(from as int, upto as int),
            all_digits(s@.subrange(from as int, i as int)),
            acc as int == digits_val(s@.subrange(from as int, i as int)),
        decreases upto - i,
    {
        let c = s[i];
        let u = c as u32;
        if u < 48 || u > 57 {
            proof {
                assert(seg[i - from] == s@[i as int]);
                assert(!is_digit(seg[i - from]));
            }
            return None;
        }
        let d: u64 = (u - 48) as u64;
        let ghost pre = s@.subrange(from as int, i as int);
        let ghost ext = s@.subrange(from as int, i + 1);
        proof {
            assert(ext.drop_last() =~= pre);
            assert(ext.last() == s@[i as int]);
            assert(is_digit(s@[i as int]));
            assert(digits_val(ext) == digits_val(pre) * 10 + digit_val(s@[i as int]));
            assert(all_digits(ext));
        }
        if acc > (u64::MAX - d) / 10 {
            proof {
                let m = u64::MAX as int;
                vstd::arithmetic::div_mod::lemma_fundamental_div_mod(m - d, 10);
                assert(acc as int * 10 + d > m);
                assert(digits_val(ext) > m);
                if all_digits(seg) && digits_val(seg) <= m {
                    assert(ext =~= seg.subrange(0, i + 1 - from));
                    lemma_digits_val_prefix_le(seg, i + 1 - from);
                }
            }
            return None;
        }
        proof {
            vstd::arithmetic::div_mod::lemma_fundamental_div_mod(u64::MAX as int - d, 10);
        }
        acc = acc * 10 + d;
        i += 1;
    }
    proof {
        assert(seg =~= s@.subrange(from as int, i as int));
    }
    Some(acc)
}

/// Parse exactly `FIELD_WIDTH` characters starting at `i` as an unsigned
/// decimal number: the fixed-width reader of the configuration document.
pub open spec fn rd_fixed(s: Seq<char>, i: int) -> Option<(int, int)> {
    let w = FIELD_WIDTH as int;
    if i + w <= s.len() && all_digits(s.subrange(i, i + w)) && digits_val(s.subrange(i, i + w))
        <= u64::MAX as int {
        Some((digits_val(s.subrange(i, i + w)), i + w))
    } else {
        None
    }
}

pub fn read_fixed(s: &Vec<char>, i: usize) -> (r: Option<(u64, usize)>)
    requires
        i <= s@.len(),
    ensures
        match r {
            Some((v, j)) => rd_fixed(s@, i as int) == Some((v as int, j as int)),
            None => rd_fixed(s@, i as int) is None,
        },
{
    if s.len() - i < FIELD_WIDTH {
        return None;
    }
    match parse_uint(s, i, i + FIELD_WIDTH) {
        Some(v) => Some((v, i + FIELD_WIDTH)),
        None => {
            proof {
                if rd_fixed(s@, i as int) is Some {
                    lemma_digits_val_nonneg(s@.subrange(i as int, i + FIELD_WIDTH as int));
                }
            }
            None
        },
    }
}

} // verus!
