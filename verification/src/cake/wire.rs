//! Fixed-width little-endian integers, the only number format on the wire.

use vstd::prelude::*;

verus! {

/// Digit `i` of `x` in base 256, counting from the least significant.
pub open spec fn digit(x: int, i: nat) -> int
    decreases i,
{
    if i == 0 {
        x % 256
    } else {
        digit(x / 256, (i - 1) as nat)
    }
}

/// The number with the given base-256 digits, least significant first.
pub open spec fn from_digits(s: Seq<u8>) -> int
    decreases s.len(),
{
    if s.len() == 0 {
        0
    } else {
        s[0] as int + 256 * from_digits(s.skip(1))
    }
}

/// The eight little-endian bytes of `x`.
pub open spec fn u64_le(x: u64) -> Seq<u8> {
    Seq::new(8, |i: int| digit(x as int, i as nat) as u8)
}

/// The number whose little-endian bytes are the first eight bytes of `s`.
pub open spec fn u64_from_le(s: Seq<u8>) -> u64
    recommends
        s.len() >= 8,
{
    from_digits(s.subrange(0, 8)) as u64
}

/// A digit is a byte.
proof fn lemma_digit_range(x: int, i: nat)
    requires
        0 <= x,
    ensures
        0 <= digit(x, i) < 256,
    decreases i,
{
    if i > 0 {
        lemma_digit_range(x / 256, (i - 1) as nat);
    }
}

/// A number below `256^n` is the value of its first `n` digits.
proof fn lemma_from_digits_of_digits(x: int, s: Seq<u8>, bound: int)
    requires
        0 <= x < bound,
        bound == limit(s.len()),
        forall|i: int| 0 <= i < s.len() ==> s[i] as int == digit(x, i as nat),
    ensures
        from_digits(s) == x,
    decreases s.len(),
{
    if s.len() == 0 {
    } else {
        let t = s.skip(1);
        assert forall|i: int| 0 <= i < t.len() implies t[i] as int == digit(x / 256, i as nat) by {
            assert(t[i] == s[i + 1]);
            assert((i + 1) as nat - 1 == i as nat);
        }
        lemma_from_digits_of_digits(x / 256, t, limit(t.len()));
        assert(s[0] as int == digit(x, 0));
    }
}

/// The digits of the value of `s` are the bytes of `s`.
proof fn lemma_digits_of_from_digits(s: Seq<u8>, i: nat)
    requires
        i < s.len(),
    ensures
        0 <= from_digits(s) < limit(s.len()),
        digit(from_digits(s), i) == s[i as int] as int,
    decreases s.len(),
{
    let t = s.skip(1);
    lemma_from_digits_range(t);
    let v = from_digits(t);
    assert(from_digits(s) == s[0] as int + 256 * v);
    assert((s[0] as int + 256 * v) / 256 == v);
    assert((s[0] as int + 256 * v) % 256 == s[0] as int);
    if i > 0 {
        lemma_digits_of_from_digits(t, (i - 1) as nat);
        assert(t[i - 1] == s[i as int]);
    }
}

/// `n` bytes hold a number below `256^n`.
proof fn lemma_from_digits_range(s: Seq<u8>)
    ensures
        0 <= from_digits(s) < limit(s.len()),
    decreases s.len(),
{
    if s.len() > 0 {
        lemma_from_digits_range(s.skip(1));
    }
}

/// `256^n`: one more than the largest number that `n` bytes can hold.
pub open spec fn limit(n: nat) -> int
    decreases n,
{
    if n == 0 {
        1
    } else {
        256 * limit((n - 1) as nat)
    }
}

/// Eight bytes hold the numbers of a `u64`.
proof fn lemma_limit_eight()
    ensures
        limit(8) == 0x1_0000_0000_0000_0000,
{
    reveal_with_fuel(limit, 9);
}

/// Reading back the bytes of a number gives the number, also when other
/// bytes follow them.
pub proof fn lemma_u64_le_roundtrip(x: u64, rest: Seq<u8>)
    ensures
        u64_le(x).len() == 8,
        u64_from_le(u64_le(x) + rest) == x,
        (u64_le(x) + rest).subrange(0, 8) == u64_le(x),
        (u64_le(x) + rest).subrange(8, 8 + rest.len() as int) == rest,
{
    let s = u64_le(x) + rest;
    assert(s.subrange(0, 8) =~= u64_le(x));
    assert(s.subrange(8, 8 + rest.len() as int) =~= rest);
    lemma_limit_eight();
    assert forall|i: int| 0 <= i < 8 implies (#[trigger] u64_le(x)[i]) as int == digit(
        x as int,
        i as nat,
    ) by {
        lemma_digit_range(x as int, i as nat);
    }
    lemma_from_digits_of_digits(x as int, u64_le(x), limit(8));
}

/// Eight bytes are the encoding of exactly the number they read as.
pub proof fn lemma_u64_le_canonical(s: Seq<u8>)
    requires
        s.len() >= 8,
    ensures
        u64_le(u64_from_le(s)) == s.subrange(0, 8),
{
    let t = s.subrange(0, 8);
    lemma_limit_eight();
    lemma_from_digits_range(t);
    assert forall|i: int| 0 <= i < 8 implies (#[trigger] u64_le(u64_from_le(s))[i]) == t[i] by {
        lemma_digits_of_from_digits(t, i as nat);
    }
    assert(u64_le(u64_from_le(s)) =~= t);
}

/// Appends the little-endian bytes of `x` to `out`.
pub fn put_u64(out: &mut Vec<u8>, x: u64)
    ensures
        final(out)@ == old(out)@ + u64_le(x),
{
    let mut rest: u64 = x;
    let mut i: usize = 0;
    while i < 8
        invariant
            i <= 8,
            out@.len() == old(out)@.len() + i,
            forall|k: int| 0 <= k < old(out)@.len() ==> out@[k] == old(out)@[k],
            forall|k: int| 0 <= k < i ==> (#[trigger] out@[old(out)@.len() + k]) as int == digit(x as int, k as nat),
            forall|k: nat| digit(rest as int, k) == digit(x as int, k + i as nat),
        decreases 8 - i,
    {
        let ghost before = rest;
        out.push((rest % 256) as u8);
        rest = rest / 256;
        proof {
            assert forall|k: nat| digit(rest as int, k) == digit(x as int, k + (i + 1) as nat) by {
                assert(digit(before as int, k + 1) == digit(rest as int, k));
            }
            assert(digit(before as int, 0) == digit(x as int, i as nat));
        }
        i = i + 1;
    }
    proof {
        let base = old(out)@.len() as int;
        assert forall|j: int| base <= j < base + 8 implies out@[j] == u64_le(x)[j - base] by {
            let k = j - base;
            lemma_digit_range(x as int, k as nat);
            assert(out@[base + k] as int == digit(x as int, k as nat));
        }
        assert(out@ =~= old(out)@ + u64_le(x));
    }
}

/// Reads the little-endian number at `at`.
pub fn get_u64(bytes: &[u8], at: usize) -> (x: u64)
    requires
        at + 8 <= bytes@.len(),
    ensures
        x == u64_from_le(bytes@.subrange(at as int, at + 8)),
{
    let ghost s = bytes@.subrange(at as int, at + 8);
    let n: usize = bytes.len();
    let mut value: u64 = 0;
    let mut i: usize = 8;
    proof {
        assert(s.subrange(8, 8) =~= Seq::<u8>::empty());
    }
    while i > 0
        invariant
            i <= 8,
            at + 8 <= n,
            n == bytes@.len(),
            s == bytes@.subrange(at as int, at + 8),
            value as int == from_digits(s.subrange(i as int, 8)),
        decreases i,
    {
        i = i - 1;
        proof {
            let t = s.subrange(i as int, 8);
            assert(t.skip(1) =~= s.subrange(i + 1, 8));
            lemma_from_digits_range(t);
            lemma_from_digits_range(t.skip(1));
            lemma_limit_eight();
            lemma_limit_monotone(t.len(), 8);
            assert(t[0] == bytes@[at + i]);
        }
        value = value * 256 + bytes[at + i] as u64;
    }
    proof {
        assert(s.subrange(0, 8) =~= s);
        assert(s.subrange(0, 8) =~= s.subrange(0, 8).subrange(0, 8));
    }
    value
}

/// More bytes hold larger numbers.
proof fn lemma_limit_monotone(a: nat, b: nat)
    requires
        a <= b,
    ensures
        0 < limit(a) <= limit(b),
    decreases b,
{
    if a < b {
        lemma_limit_monotone(a, (b - 1) as nat);
    } else if a > 0 {
        lemma_limit_monotone((a - 1) as nat, (b - 1) as nat);
    }
}

} // verus!
