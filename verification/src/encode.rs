//! Bytes of numbers, most significant first.
use vstd::prelude::*;

verus! {

/// The lowest `width` bytes of a number, most significant first.
pub open spec fn be_bytes(value: nat, width: nat) -> Seq<u8>
    decreases width,
{
    if width == 0 {
        Seq::empty()
    } else {
        be_bytes(value / 256, (width - 1) as nat).push((value % 256) as u8)
    }
}

/// The number that some bytes stand for, most significant first.
pub open spec fn be_value(bytes: Seq<u8>) -> nat
    decreases bytes.len(),
{
    if bytes.len() == 0 {
        0
    } else {
        be_value(bytes.drop_last()) * 256 + bytes.last() as nat
    }
}

pub proof fn lemma_be_bytes_len(value: nat, width: nat)
    ensures
        be_bytes(value, width).len() == width,
    decreases width,
{
    if width > 0 {
        lemma_be_bytes_len(value / 256, (width - 1) as nat);
    }
}

/// How many numbers some bytes can stand for.
pub open spec fn span(width: nat) -> nat
    decreases width,
{
    if width == 0 {
        1
    } else {
        256 * span((width - 1) as nat)
    }
}

proof fn lemma_be_bytes_value(value: nat, width: nat)
    requires
        value < span(width),
    ensures
        be_value(be_bytes(value, width)) == value,
    decreases width,
{
    if width > 0 {
        lemma_be_bytes_value(value / 256, (width - 1) as nat);
        let bytes = be_bytes(value, width);
        assert(bytes.drop_last() =~= be_bytes(value / 256, (width - 1) as nat));
    }
}

/// Different numbers that fit have different bytes.
pub proof fn lemma_be_bytes_injective(a: nat, b: nat, width: nat)
    requires
        a < span(width),
        b < span(width),
        be_bytes(a, width) == be_bytes(b, width),
    ensures
        a == b,
{
    lemma_be_bytes_value(a, width);
    lemma_be_bytes_value(b, width);
}

/// Byte by byte, the bytes of a number are its digits to the base 256, the highest first.
pub proof fn law_bytes_are_digits(value: nat, width: nat, i: int)
    requires
        0 <= i < width,
    ensures
        be_bytes(value, width).len() == width,
        be_bytes(value, width)[i] == (value / vstd::arithmetic::power::pow(
            256,
            (width - 1 - i) as nat,
        ) as nat) % 256,
    decreases width,
{
    lemma_be_bytes_len(value, width);
    lemma_be_bytes_len(value / 256, (width - 1) as nat);
    let k = (width - 1 - i) as nat;
    vstd::arithmetic::power::lemma_pow_positive(256, k);
    if k == 0 {
        vstd::arithmetic::power::lemma_pow0(256);
        vstd::arithmetic::div_mod::lemma_div_basics(value as int);
        assert(be_bytes(value, width)[i] == value % 256);
    } else {
        law_bytes_are_digits(value / 256, (width - 1) as nat, i);
        vstd::arithmetic::power::lemma_pow_positive(256, (k - 1) as nat);
        reveal(vstd::arithmetic::power::pow);
        vstd::arithmetic::div_mod::lemma_div_denominator(
            value as int,
            256,
            vstd::arithmetic::power::pow(256, (k - 1) as nat),
        );
        assert(be_bytes(value, width)[i] == be_bytes(value / 256, (width - 1) as nat)[i]);
    }
}

/// What a number is written as stands for that number, if it fits; and a byte in front counts for
/// as many as the bytes behind it can stand for.
pub proof fn law_bytes_stand_for_their_number(value: nat, width: nat, first: u8, rest: Seq<u8>)
    requires
        value < vstd::arithmetic::power::pow(256, width),
    ensures
        be_value(be_bytes(value, width)) == value,
        be_value(rest) < vstd::arithmetic::power::pow(256, rest.len()),
        be_value(seq![first] + rest) == first * vstd::arithmetic::power::pow(256, rest.len())
            + be_value(rest),
    decreases rest.len(),
{
    lemma_span_is_power(width);
    lemma_be_bytes_value(value, width);
    reveal(vstd::arithmetic::power::pow);
    let whole = seq![first] + rest;
    assert(whole.last() == if rest.len() == 0 { first } else { rest.last() });
    if rest.len() == 0 {
        assert(whole.drop_last() =~= Seq::<u8>::empty());
        assert(be_value(whole.drop_last()) == 0);
        let one = vstd::arithmetic::power::pow(256, 0);
        assert(first * one == first) by (nonlinear_arith)
            requires
                one == 1,
        ;
    } else {
        let shorter = rest.drop_last();
        assert(whole.drop_last() =~= seq![first] + shorter);
        law_bytes_stand_for_their_number(value, width, first, shorter);
        let p = vstd::arithmetic::power::pow(256, shorter.len());
        assert((first * p + be_value(shorter)) * 256 == first * (256 * p) + be_value(shorter) * 256)
            by (nonlinear_arith);
    }
}

proof fn lemma_span_is_power(width: nat)
    ensures
        span(width) == vstd::arithmetic::power::pow(256, width),
    decreases width,
{
    reveal(vstd::arithmetic::power::pow);
    if width > 0 {
        lemma_span_is_power((width - 1) as nat);
    }
}

/// Appends the lowest `width` bytes of a number.
pub fn push_be(out: &mut Vec<u8>, value: u128, width: usize)
    ensures
        final(out)@ == old(out)@ + be_bytes(value as nat, width as nat),
    decreases width,
{
    let ghost before = out@;
    if width > 0 {
        push_be(out, value / 256, width - 1);
        out.push((value % 256) as u8);
    }
    assert(out@ =~= before + be_bytes(value as nat, width as nat));
}

/// Appends some bytes.
pub fn push_all(out: &mut Vec<u8>, bytes: &[u8])
    ensures
        final(out)@ == old(out)@ + bytes@,
{
    let ghost before = out@;
    let mut i: usize = 0;
    while i < bytes.len()
        invariant
            i <= bytes.len(),
            out@ =~= before + bytes@.subrange(0, i as int),
        decreases bytes.len() - i,
    {
        out.push(bytes[i]);
        i = i + 1;
    }
    assert(bytes@.subrange(0, i as int) =~= bytes@);
}

/// The number that the first eight bytes of a digest stand for.
pub fn leading_u64(digest: &[u8; 32]) -> (value: u64)
    ensures
        value == be_value(digest@.subrange(0, 8)),
{
    let mut value: u128 = 0;
    let mut limit: u128 = 1;
    let mut i: usize = 0;
    while i < 8
        invariant
            i <= 8,
            value == be_value(digest@.subrange(0, i as int)),
            value < limit,
            limit == (if i == 0 { 1u128 } else if i == 1 { 0x100u128 } else if i == 2 { 0x10000u128
            } else if i == 3 { 0x1000000u128 } else if i == 4 { 0x100000000u128 } else if i == 5 {
                0x10000000000u128
            } else if i == 6 { 0x1000000000000u128 } else if i == 7 { 0x100000000000000u128
            } else { 0x10000000000000000u128 }),
        decreases 8 - i,
    {
        assert(digest@.subrange(0, i + 1).drop_last() =~= digest@.subrange(0, i as int));
        value = value * 256 + digest[i] as u128;
        limit = limit * 256;
        i = i + 1;
    }
    value as u64
}

} // verus!
