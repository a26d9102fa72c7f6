//! Positional numerals: digit strings in a base, their value, and conversion
//! between bases that keeps leading zero digits.

use vstd::prelude::*;

verus! {

/// Every digit of `s` is below `base`.
pub open spec fn digits_below(s: Seq<u8>, base: int) -> bool {
    forall|i: int| 0 <= i < s.len() ==> (#[trigger] s[i] as int) < base
}

/// Value of a digit string whose first digit is the most significant.
pub open spec fn value_be(s: Seq<u8>, base: int) -> int
    decreases s.len(),
{
    if s.len() == 0 {
        0
    } else {
        value_be(s.drop_last(), base) * base + s.last() as int
    }
}

/// The digits of `n` in `base`, most significant first, without a leading
/// zero digit; the empty string for zero.
pub open spec fn digits_of(n: int, base: int) -> Seq<u8>
    decreases n,
    via digits_of_decreases
{
    if n <= 0 || base < 2 {
        Seq::empty()
    } else {
        digits_of(n / base, base).push(#[verifier::truncate] ((n % base) as u8))
    }
}

#[via_fn]
proof fn digits_of_decreases(n: int, base: int) {
    if n > 0 && base >= 2 {
        assert(n / base < n) by (nonlinear_arith)
            requires
                n > 0,
                base >= 2,
        ;
    }
}

/// How many zero digits stand at the front of `s`.
pub open spec fn leading_zeros(s: Seq<u8>) -> nat
    decreases s.len(),
{
    if s.len() == 0 || s[0] != 0 {
        0
    } else {
        1 + leading_zeros(s.drop_first())
    }
}

/// A string of `n` zero digits.
pub open spec fn zeros(n: nat) -> Seq<u8> {
    Seq::new(n, |i: int| 0u8)
}

/// The string `s`, read in base `from`, written in base `to`: as many zero
/// digits as `s` has at its front, then the digits of its value.
pub open spec fn recode_spec(s: Seq<u8>, from: int, to: int) -> Seq<u8> {
    zeros(leading_zeros(s)) + digits_of(value_be(s, from), to)
}

/// Value of a digit string whose first digit is the least significant, with
/// `top` standing above its last digit.
pub open spec fn value_le(s: Seq<u8>, top: int, base: int) -> int
    decreases s.len(),
{
    if s.len() == 0 {
        top
    } else {
        s[0] as int + base * value_le(s.drop_first(), top, base)
    }
}

/// A digit pushed onto a string counts as part of what stands above it.
proof fn lemma_value_le_push(s: Seq<u8>, x: u8, top: int, base: int)
    ensures
        value_le(s.push(x), top, base) == value_le(s, x as int + base * top, base),
    decreases s.len(),
{
    if s.len() == 0 {
        assert(s.push(x).drop_first() =~= Seq::<u8>::empty());
        assert(value_le(s.push(x).drop_first(), top, base) == top);
    } else {
        assert(s.push(x).drop_first() =~= s.drop_first().push(x));
        lemma_value_le_push(s.drop_first(), x, top, base);
    }
}

/// Digits above a top that is not negative have a value that is not
/// negative.
proof fn lemma_value_le_nonnegative(s: Seq<u8>, top: int, base: int)
    requires
        base >= 0,
        top >= 0,
    ensures
        value_le(s, top, base) >= 0,
    decreases s.len(),
{
    if s.len() > 0 {
        lemma_value_le_nonnegative(s.drop_first(), top, base);
        let r = value_le(s.drop_first(), top, base);
        assert(base * r >= 0) by (nonlinear_arith)
            requires
                base >= 0,
                r >= 0,
        ;
    }
}

/// The value of a digit string is not negative.
pub proof fn lemma_value_be_nonnegative(s: Seq<u8>, base: int)
    requires
        base >= 0,
    ensures
        value_be(s, base) >= 0,
    decreases s.len(),
{
    if s.len() > 0 {
        lemma_value_be_nonnegative(s.drop_last(), base);
        let r = value_be(s.drop_last(), base);
        assert(r * base >= 0) by (nonlinear_arith)
            requires
                base >= 0,
                r >= 0,
        ;
    }
}

/// A least-significant-first string without a zero at its end is, reversed,
/// the digit string of its value.
proof fn lemma_reverse_is_digits(s: Seq<u8>, base: int)
    requires
        2 <= base <= 256,
        digits_below(s, base),
        s.len() > 0 ==> s.last() != 0,
    ensures
        s.reverse() == digits_of(value_le(s, 0, base), base),
        s.len() > 0 ==> value_le(s, 0, base) > 0,
    decreases s.len(),
{
    if s.len() == 0 {
        assert(s.reverse() =~= Seq::<u8>::empty());
    } else {
        let rest = s.drop_first();
        let r = value_le(rest, 0, base);
        let d = s[0] as int;
        assert(digits_below(rest, base)) by {
            assert forall|i: int| 0 <= i < rest.len() implies (#[trigger] rest[i] as int) < base by {
                assert(rest[i] == s[i + 1]);
            }
        }
        if rest.len() > 0 {
            assert(rest.last() == s.last());
        }
        lemma_reverse_is_digits(rest, base);
        lemma_value_le_nonnegative(rest, 0, base);
        let n = d + base * r;
        assert(value_le(s, 0, base) == n);
        assert(n / base == r && n % base == d) by (nonlinear_arith)
            requires
                n == d + base * r,
                0 <= d < base,
                r >= 0,
        ;
        if rest.len() == 0 {
            assert(r == 0);
            assert(d != 0);
        } else {
            assert(n > 0) by (nonlinear_arith)
                requires
                    n == d + base * r,
                    d >= 0,
                    r > 0,
                    base >= 2,
            ;
        }
        assert(s.reverse() =~= rest.reverse().push(s[0]));
        assert((n % base) as u8 == s[0]);
    }
}

/// The digits of a number are below the base, start with no zero, and
/// have the number as their value.
pub proof fn lemma_digits_of_shape(n: int, base: int)
    requires
        2 <= base <= 256,
        n >= 0,
    ensures
        digits_below(digits_of(n, base), base),
        value_be(digits_of(n, base), base) == n,
        n > 0 ==> digits_of(n, base).len() > 0 && digits_of(n, base)[0] != 0,
        n == 0 ==> digits_of(n, base).len() == 0,
    decreases n,
{
    if n > 0 {
        let q = n / base;
        let m = n % base;
        assert(0 <= q < n && 0 <= m < base && n == q * base + m && (q == 0 ==> m == n))
            by (nonlinear_arith)
            requires
                q == n / base,
                m == n % base,
                n > 0,
                base >= 2,
        ;
        lemma_digits_of_shape(q, base);
        let ds = digits_of(q, base);
        let all = ds.push(m as u8);
        assert(digits_of(n, base) == all);
        assert(all.drop_last() =~= ds);
        assert(all.last() == m as u8);
        assert forall|i: int| 0 <= i < all.len() implies (#[trigger] all[i] as int) < base by {
            if i < ds.len() {
                assert(all[i] == ds[i]);
            }
        }
        if q > 0 {
            assert(all[0] == ds[0]);
        } else {
            assert(m == n);
        }
    }
}

/// The leading zeros of a string are zeros, and the digit after them is
/// none.
proof fn lemma_leading_zeros_bound(s: Seq<u8>)
    ensures
        leading_zeros(s) <= s.len(),
        forall|i: int| 0 <= i < leading_zeros(s) ==> s[i] == 0,
        leading_zeros(s) < s.len() ==> s[leading_zeros(s) as int] != 0,
    decreases s.len(),
{
    if s.len() > 0 && s[0] == 0 {
        let rest = s.drop_first();
        lemma_leading_zeros_bound(rest);
        assert forall|i: int| 0 <= i < leading_zeros(s) implies s[i] == 0 by {
            if i > 0 {
                assert(s[i] == rest[i - 1]);
            }
        }
        if leading_zeros(s) < s.len() {
            assert(s[leading_zeros(s) as int] == rest[leading_zeros(rest) as int]);
        }
    }
}

/// The count of leading zeros is fixed by where the first non-zero digit is.
proof fn lemma_leading_zeros_is(s: Seq<u8>, z: nat)
    requires
        z <= s.len(),
        forall|i: int| 0 <= i < z ==> s[i] == 0,
        z < s.len() ==> s[z as int] != 0,
    ensures
        leading_zeros(s) == z,
    decreases s.len(),
{
    if s.len() > 0 && s[0] == 0 {
        let rest = s.drop_first();
        assert(z > 0);
        assert forall|i: int| 0 <= i < z - 1 implies rest[i] == 0 by {
            assert(rest[i] == s[i + 1]);
        }
        if z < s.len() {
            assert(rest[z - 1] == s[z as int]);
        }
        lemma_leading_zeros_is(rest, (z - 1) as nat);
    }
}

/// A string of zeros has the value zero.
proof fn lemma_value_be_of_zeros(s: Seq<u8>, base: int)
    requires
        forall|i: int| 0 <= i < s.len() ==> s[i] == 0,
    ensures
        value_be(s, base) == 0,
    decreases s.len(),
{
    if s.len() > 0 {
        let init = s.drop_last();
        assert forall|i: int| 0 <= i < init.len() implies init[i] == 0 by {
            assert(init[i] == s[i]);
        }
        lemma_value_be_of_zeros(init, base);
        assert(0 * base == 0) by (nonlinear_arith);
    }
}

/// A digit string is its leading zeros followed by the digits of its value.
pub proof fn lemma_decompose(s: Seq<u8>, base: int)
    requires
        2 <= base <= 256,
        digits_below(s, base),
    ensures
        s == zeros(leading_zeros(s)) + digits_of(value_be(s, base), base),
    decreases s.len(),
{
    lemma_leading_zeros_bound(s);
    if s.len() == 0 {
        assert(s =~= zeros(0) + digits_of(0, base));
    } else {
        let init = s.drop_last();
        let x = s.last();
        assert(digits_below(init, base)) by {
            assert forall|i: int| 0 <= i < init.len() implies (#[trigger] init[i] as int) < base by {
                assert(init[i] == s[i]);
            }
        }
        lemma_decompose(init, base);
        lemma_leading_zeros_bound(init);
        lemma_value_be_nonnegative(init, base);
        let r = value_be(init, base);
        let v = value_be(s, base);
        let d = x as int;
        assert(v == r * base + d);
        assert(v / base == r && v % base == d && v >= 0 && (v == 0 <==> (r == 0 && d == 0)))
            by (nonlinear_arith)
            requires
                v == r * base + d,
                0 <= d < base,
                r >= 0,
                base >= 2,
        ;
        lemma_digits_of_shape(r, base);
        let z0 = leading_zeros(init);
        assert forall|i: int| 0 <= i < z0 implies s[i] == 0 by {
            assert(s[i] == init[i]);
        }
        if r == 0 {
            // Every digit of `init` is zero.
            assert(init =~= zeros(z0));
            assert(z0 == init.len());
            if d == 0 {
                lemma_leading_zeros_is(s, s.len());
                assert(s =~= zeros(s.len()) + digits_of(0, base));
            } else {
                lemma_leading_zeros_is(s, z0);
                assert(digits_of(v, base) == digits_of(0, base).push(x));
                assert(digits_of(v, base) =~= seq![x]);
                assert(s =~= zeros(z0) + seq![x]);
            }
        } else {
            assert(z0 < init.len()) by {
                if z0 == init.len() {
                    lemma_value_be_of_zeros(init, base);
                }
            }
            lemma_leading_zeros_is(s, z0);
            assert(digits_of(v, base) == digits_of(r, base).push(x));
            assert(s =~= init.push(x));
            assert(s =~= zeros(z0) + digits_of(r, base).push(x));
        }
    }
}

/// Zeros in front of a string leave its value as it is.
proof fn lemma_value_be_after_zeros(z: nat, s: Seq<u8>, base: int)
    ensures
        value_be(zeros(z) + s, base) == value_be(s, base),
    decreases s.len(),
{
    let all = zeros(z) + s;
    if s.len() == 0 {
        assert(all =~= zeros(z));
        lemma_value_be_of_zeros(all, base);
    } else {
        assert(all.drop_last() =~= zeros(z) + s.drop_last());
        assert(all.last() == s.last());
        lemma_value_be_after_zeros(z, s.drop_last(), base);
    }
}

/// Zeros followed by the digits of a number: the zeros are its leading
/// zeros, and its value is the number.
pub proof fn lemma_compose(z: nat, n: int, base: int)
    requires
        2 <= base <= 256,
        n >= 0,
    ensures
        leading_zeros(zeros(z) + digits_of(n, base)) == z,
        value_be(zeros(z) + digits_of(n, base), base) == n,
        digits_below(zeros(z) + digits_of(n, base), base),
{
    let ds = digits_of(n, base);
    let all = zeros(z) + ds;
    lemma_digits_of_shape(n, base);
    lemma_value_be_after_zeros(z, ds, base);
    assert forall|i: int| 0 <= i < z implies all[i] == 0 by {}
    if z < all.len() {
        assert(all[z as int] == ds[0]);
    }
    lemma_leading_zeros_is(all, z);
    assert forall|i: int| 0 <= i < all.len() implies (#[trigger] all[i] as int) < base by {
        if i >= z {
            assert(all[i] == ds[i - z]);
        }
    }
}

/// Writing a digit string in another base and back gives the string again.
pub proof fn lemma_recode_round_trip(s: Seq<u8>, from: int, to: int)
    requires
        2 <= from <= 256,
        2 <= to <= 256,
        digits_below(s, from),
    ensures
        digits_below(recode_spec(s, from, to), to),
        recode_spec(recode_spec(s, from, to), to, from) == s,
{
    lemma_value_be_nonnegative(s, from);
    lemma_compose(leading_zeros(s), value_be(s, from), to);
    lemma_decompose(s, from);
}

/// The lowest `width` base-256 digits of `v`, most significant first.
pub open spec fn be_bytes(v: int, width: nat) -> Seq<u8>
    decreases width,
{
    if width == 0 {
        Seq::empty()
    } else {
        be_bytes(v / 256, (width - 1) as nat).push(#[verifier::truncate] ((v % 256) as u8))
    }
}

/// 256 to the power of `width`.
pub open spec fn span(width: nat) -> int
    decreases width,
{
    if width == 0 {
        1
    } else {
        256 * span((width - 1) as nat)
    }
}

/// A number below 256 to the power of `width` is the value of its `width`
/// lowest digits.
pub proof fn lemma_be_bytes_value(v: int, width: nat)
    requires
        0 <= v < span(width),
    ensures
        be_bytes(v, width).len() == width,
        value_be(be_bytes(v, width), 256) == v,
    decreases width,
{
    if width > 0 {
        let q = v / 256;
        let m = v % 256;
        let rest = span((width - 1) as nat);
        assert(0 <= q < rest && 0 <= m < 256 && v == q * 256 + m) by (nonlinear_arith)
            requires
                q == v / 256,
                m == v % 256,
                0 <= v < 256 * rest,
        ;
        lemma_be_bytes_value(q, (width - 1) as nat);
        let all = be_bytes(v, width);
        assert(all.drop_last() =~= be_bytes(q, (width - 1) as nat));
        assert(all.last() == m as u8);
    }
}

/// 256 to the power of 16 is 2 to the power of 128.
pub proof fn lemma_span_16()
    ensures
        span(16) == 0x1_0000_0000_0000_0000_0000_0000_0000_0000,
{
    reveal_with_fuel(span, 17);
}

/// Writes the digit string `input`, read in base `from`, in base `to`.
pub fn recode(input: &[u8], from: u32, to: u32) -> (out: Vec<u8>)
    requires
        2 <= from <= 256,
        2 <= to <= 256,
        digits_below(input@, from as int),
    ensures
        out@ == recode_spec(input@, from as int, to as int),
{
    let n: usize = input.len();
    let mut z: usize = 0;
    while z < n && input[z] == 0
        invariant
            z <= n,
            n == input@.len(),
            forall|i: int| 0 <= i < z ==> input@[i] == 0,
        decreases n - z,
    {
        z += 1;
    }
    proof {
        lemma_leading_zeros_is(input@, z as nat);
    }
    let mut low: Vec<u8> = Vec::new();
    let mut i: usize = 0;
    assert(input@.subrange(0, 0) =~= Seq::<u8>::empty());
    while i < n
        invariant
            i <= n,
            n == input@.len(),
            2 <= from <= 256,
            2 <= to <= 256,
            digits_below(input@, from as int),
            digits_below(low@, to as int),
            value_le(low@, 0, to as int) == value_be(input@.subrange(0, i as int), from as int),
        decreases n - i,
    {
        let ghost before = low@;
        let ghost target = from as int * value_le(before, 0, to as int) + input@[i as int] as int;
        let m: usize = low.len();
        let mut carry: u32 = input[i] as u32;
        let mut j: usize = 0;
        assert(before.subrange(0, m as int) =~= before);
        assert(low@.subrange(0, 0) =~= Seq::<u8>::empty());
        while j < m
            invariant
                j <= m,
                m == low@.len(),
                m == before.len(),
                2 <= from <= 256,
                2 <= to <= 256,
                carry < from,
                low@.subrange(j as int, m as int) == before.subrange(j as int, m as int),
                digits_below(low@, to as int),
                value_le(
                    low@.subrange(0, j as int),
                    carry as int + from as int * value_le(
                        before.subrange(j as int, m as int),
                        0,
                        to as int,
                    ),
                    to as int,
                ) == target,
            decreases m - j,
        {
            let ghost prefix = low@.subrange(0, j as int);
            let ghost rest = before.subrange(j as int, m as int);
            let ghost tail = before.subrange(j as int + 1, m as int);
            let ghost old_carry = carry as int;
            let digit: u32 = low[j] as u32;
            assert(low@[j as int] == low@.subrange(j as int, m as int)[0]);
            assert(digit == rest[0] as u32);
            assert(digit < to);
            assert(digit * from + carry < to * from) by (nonlinear_arith)
                requires
                    digit < to,
                    carry < from,
                    2 <= from <= 256,
                    2 <= to <= 256,
            ;
            assert(to * from <= 65536) by (nonlinear_arith)
                requires
                    2 <= from <= 256,
                    2 <= to <= 256,
            ;
            let t: u32 = digit * from + carry;
            let x: u8 = (t % to) as u8;
            let ghost low_before = low@;
            low.set(j, x);
            carry = t / to;
            j += 1;
            proof {
                let tt = t as int;
                let b = to as int;
                let f = from as int;
                let c1 = carry as int;
                let vt = value_le(tail, 0, b);
                assert(c1 < f && tt == x as int + b * c1) by (nonlinear_arith)
                    requires
                        c1 == tt / b,
                        x as int == tt % b,
                        0 <= tt < b * f,
                        b >= 2,
                ;
                assert(rest.drop_first() =~= tail);
                assert(value_le(rest, 0, b) == rest[0] as int + b * vt);
                assert(low@.subrange(0, j as int) =~= prefix.push(x));
                lemma_value_le_push(prefix, x, c1 + f * vt, b);
                assert(x as int + b * (c1 + f * vt) == old_carry + f * (digit as int + b * vt))
                    by (nonlinear_arith)
                    requires
                        tt == x as int + b * c1,
                        tt == digit as int * f + old_carry,
                ;
                assert(low@.subrange(j as int, m as int) =~= before.subrange(j as int, m as int))
                    by {
                    assert forall|k: int| j <= k < m implies low@[k] == before[k] by {
                        assert(low_before.subrange(j as int - 1, m as int)[k - (j as int - 1)]
                            == before.subrange(j as int - 1, m as int)[k - (j as int - 1)]);
                    }
                }
                assert forall|k: int| 0 <= k < low@.len() implies (#[trigger] low@[k] as int)
                    < b by {
                    if k != j as int - 1 {
                        assert(low@[k] == low_before[k]);
                    }
                }
            }
        }
        assert(low@.subrange(0, m as int) =~= low@);
        assert(before.subrange(m as int, m as int) =~= Seq::<u8>::empty());
        assert(from as int * 0 == 0) by (nonlinear_arith);
        while carry > 0
            invariant
                2 <= to <= 256,
                digits_below(low@, to as int),
                value_le(low@, carry as int, to as int) == target,
            decreases carry,
        {
            let x: u8 = (carry % to) as u8;
            proof {
                let c = carry as int;
                let b = to as int;
                assert(c / b < c && c == x as int + b * (c / b)) by (nonlinear_arith)
                    requires
                        x as int == c % b,
                        c > 0,
                        b >= 2,
                ;
                lemma_value_le_push(low@, x, c / b, b);
                assert forall|k: int| 0 <= k < low@.push(x).len() implies (
                #[trigger] low@.push(x)[k] as int) < b by {
                    if k < low@.len() {
                        assert(low@.push(x)[k] == low@[k]);
                    }
                }
            }
            low.push(x);
            carry = carry / to;
        }
        proof {
            let next = input@.subrange(0, i as int + 1);
            assert(next.drop_last() =~= input@.subrange(0, i as int));
            assert(next.last() == input@[i as int]);
            let v = value_be(input@.subrange(0, i as int), from as int);
            assert(from as int * v == v * from as int) by (nonlinear_arith);
        }
        i += 1;
    }
    assert(input@.subrange(0, n as int) =~= input@);
    while low.len() > 0 && low[low.len() - 1] == 0
        invariant
            2 <= to <= 256,
            digits_below(low@, to as int),
            value_le(low@, 0, to as int) == value_be(input@, from as int),
        decreases low@.len(),
    {
        proof {
            let init = low@.drop_last();
            lemma_value_le_push(init, 0, 0, to as int);
            assert(init.push(0) =~= low@);
            assert(to as int * 0 == 0) by (nonlinear_arith);
            assert forall|k: int| 0 <= k < init.len() implies (#[trigger] init[k] as int)
                < to as int by {
                assert(init[k] == low@[k]);
            }
        }
        low.pop();
    }
    proof {
        lemma_reverse_is_digits(low@, to as int);
    }
    let mut out: Vec<u8> = Vec::new();
    let mut k: usize = 0;
    while k < z
        invariant
            k <= z,
            out@ == zeros(k as nat),
        decreases z - k,
    {
        out.push(0);
        k += 1;
        assert(out@ =~= zeros(k as nat));
    }
    let len: usize = low.len();
    let mut r: usize = 0;
    while r < len
        invariant
            r <= len,
            len == low@.len(),
            out@ == zeros(z as nat) + low@.reverse().subrange(0, r as int),
        decreases len - r,
    {
        out.push(low[len - 1 - r]);
        r += 1;
        assert(out@ =~= zeros(z as nat) + low@.reverse().subrange(0, r as int));
    }
    assert(low@.reverse().subrange(0, len as int) =~= low@.reverse());
    out
}

} // verus!
