//! Values drawn from raw bytes by [`arbitrary::Unstructured`].
//!
//! Each draw takes the bytes that are left and gives the value and the bytes that
//! are left after it.

use vstd::prelude::*;

verus! {

/// The first `n` bytes, or all of them where there are fewer.
pub open spec fn first(data: Seq<u8>, n: nat) -> Seq<u8> {
    if n <= data.len() {
        data.take(n as int)
    } else {
        data
    }
}

/// The bytes behind the first `n`.
pub open spec fn behind(data: Seq<u8>, n: nat) -> Seq<u8> {
    if n <= data.len() {
        data.skip(n as int)
    } else {
        Seq::empty()
    }
}

/// The number that the bytes stand for, the least significant byte first.
pub open spec fn little_endian(bytes: Seq<u8>) -> nat
    decreases bytes.len(),
{
    if bytes.len() == 0 {
        0
    } else {
        bytes[0] as nat + 256 * little_endian(bytes.skip(1))
    }
}

/// The number that the bytes stand for, the most significant byte first.
pub open spec fn big_endian(bytes: Seq<u8>) -> nat
    decreases bytes.len(),
{
    if bytes.len() == 0 {
        0
    } else {
        256 * big_endian(bytes.drop_last()) + bytes.last() as nat
    }
}

/// How many bytes it takes to write `n`.
pub open spec fn byte_width(n: nat) -> nat
    decreases n,
{
    if n == 0 {
        0
    } else {
        1 + byte_width(n / 256)
    }
}

/// A 64-bit number drawn from the bytes.
pub open spec fn drawn_u64(data: Seq<u8>) -> u64 {
    little_endian(first(data, 8)) as u64
}

/// A truth value drawn from the bytes.
pub open spec fn drawn_bool(data: Seq<u8>) -> bool {
    data.len() > 0 && data[0] % 2 == 1
}

/// A number from 0 to `max` drawn from the bytes.
pub open spec fn drawn_up_to(data: Seq<u8>, max: u64) -> u64 {
    (big_endian(first(data, byte_width(max as nat))) % (max as nat + 1)) as u64
}

/// A number drawn from a range is in it.
pub proof fn law_drawn_number_is_in_range(data: Seq<u8>, max: u64)
    ensures
        drawn_up_to(data, max) <= max,
{
    let number = big_endian(first(data, byte_width(max as nat))) as int;
    vstd::arithmetic::div_mod::lemma_mod_bound(number, max + 1);
}

/// A truth value, drawn from the bytes, that is true in about `n` of `d` cases.
pub open spec fn drawn_ratio(data: Seq<u8>, n: u32, d: u32) -> bool {
    1 + big_endian(first(data, byte_width((d - 1) as nat))) % (d as nat) <= n
}

/// Calls [`arbitrary::Unstructured::arbitrary`] for a `u64`: the first eight
/// bytes, padded with zeros where there are fewer, in little-endian order. The
/// call does not fail.
#[verifier::external_body]
pub(crate) fn draw_u64(data: &[u8]) -> (res: Option<(u64, &[u8])>)
    ensures
        res is Some,
        res->Some_0.0 == drawn_u64(data@),
        res->Some_0.1@ == behind(data@, 8),
{
    let mut source = arbitrary::Unstructured::new(data);
    let value: u64 = source.arbitrary().ok()?;
    Some((value, source.take_rest()))
}

/// Calls [`arbitrary::Unstructured::arbitrary`] for a `bool`: the lowest bit of
/// the first byte, false where there is none. The call does not fail.
#[verifier::external_body]
pub(crate) fn draw_bool(data: &[u8]) -> (res: Option<(bool, &[u8])>)
    ensures
        res is Some,
        res->Some_0.0 == drawn_bool(data@),
        res->Some_0.1@ == behind(data@, 1),
{
    let mut source = arbitrary::Unstructured::new(data);
    let value: bool = source.arbitrary().ok()?;
    Some((value, source.take_rest()))
}

/// Calls [`arbitrary::Unstructured::int_in_range`] for a number from 0 to `max`:
/// as many bytes as it takes to write `max` are read in big-endian order, fewer
/// where fewer are left, and brought into the range by the remainder. The call
/// does not fail.
#[verifier::external_body]
pub(crate) fn draw_up_to(data: &[u8], max: u64) -> (res: Option<(u64, &[u8])>)
    ensures
        res is Some,
        res->Some_0.0 == drawn_up_to(data@, max),
        res->Some_0.1@ == behind(data@, byte_width(max as nat)),
{
    let mut source = arbitrary::Unstructured::new(data);
    let value: u64 = source.int_in_range(0..=max).ok()?;
    Some((value, source.take_rest()))
}

/// Calls [`arbitrary::Unstructured::ratio`]: a number from 1 to `d` is drawn as
/// from a range, and is compared with `n`. The call does not fail.
#[verifier::external_body]
pub(crate) fn draw_ratio(data: &[u8], n: u32, d: u32) -> (res: Option<(bool, &[u8])>)
    requires
        0 < n <= d,
    ensures
        res is Some,
        res->Some_0.0 == drawn_ratio(data@, n, d),
        res->Some_0.1@ == behind(data@, byte_width((d - 1) as nat)),
{
    let mut source = arbitrary::Unstructured::new(data);
    let value: bool = source.ratio(n, d).ok()?;
    Some((value, source.take_rest()))
}

/// Calls [`arbitrary::Unstructured::bytes`]: the first `n` bytes. The call fails
/// exactly where there are fewer.
#[verifier::external_body]
pub(crate) fn draw_bytes(data: &[u8], n: usize) -> (res: Option<(&[u8], &[u8])>)
    ensures
        match res {
            Some((bytes, rest)) => {
                &&& n <= data@.len()
                &&& bytes@ == data@.take(n as int)
                &&& rest@ == data@.skip(n as int)
            },
            None => n > data@.len(),
        },
{
    let mut source = arbitrary::Unstructured::new(data);
    let bytes = source.bytes(n).ok()?;
    Some((bytes, source.take_rest()))
}

/// The byte at a position, zero behind the end.
pub open spec fn byte_at(data: Seq<u8>, i: int) -> int {
    if 0 <= i < data.len() {
        data[i] as int
    } else {
        0
    }
}

/// The bytes that a draw uses and those that it leaves are together the bytes that
/// there were, in their order; a draw uses no more than it asks for, and less only
/// where there is no more.
pub proof fn law_draws_share_the_bytes(data: Seq<u8>, n: nat)
    ensures
        first(data, n) + behind(data, n) == data,
        first(data, n).len() <= n,
        behind(data, n).len() > 0 ==> first(data, n).len() == n,
        forall|i: int| 0 <= i ==> #[trigger] byte_at(behind(data, n), i) == byte_at(data, n + i),
{
    assert(first(data, n) + behind(data, n) =~= data);
}

/// The two byte orders mirror each other, and a byte on its own is its number.
pub proof fn law_byte_orders_mirror(bytes: Seq<u8>, byte: u8)
    ensures
        big_endian(bytes) == little_endian(bytes.reverse()),
        big_endian(seq![byte]) == byte,
        big_endian(bytes.push(byte)) == 256 * big_endian(bytes) + byte,
    decreases bytes.len(),
{
    reveal_with_fuel(big_endian, 2);
    reveal_with_fuel(little_endian, 2);
    assert(bytes.push(byte).drop_last() =~= bytes);
    assert(seq![byte].drop_last() =~= Seq::<u8>::empty());
    if bytes.len() > 0 {
        law_byte_orders_mirror(bytes.drop_last(), byte);
        assert(bytes.reverse().skip(1) =~= bytes.drop_last().reverse());
    }
}

/// It takes one byte more to write a number with one byte more.
pub proof fn law_width_counts_bytes(n: nat, byte: u8)
    ensures
        byte_width(0) == 0,
        n > 0 || byte > 0 ==> byte_width(256 * n + byte as nat) == byte_width(n) + 1,
{
    assert((256 * n + byte as nat) / 256 == n);
}

/// A 64-bit number is the first eight bytes, the least significant first, with zeros
/// where there are fewer.
pub proof fn law_drawn_u64_is_little_endian(data: Seq<u8>)
    ensures
        drawn_u64(data) == byte_at(data, 0) + 0x100 * byte_at(data, 1) + 0x1_0000 * byte_at(
            data,
            2,
        ) + 0x100_0000 * byte_at(data, 3) + 0x1_0000_0000 * byte_at(data, 4) + 0x100_0000_0000
            * byte_at(data, 5) + 0x1_0000_0000_0000 * byte_at(data, 6) + 0x100_0000_0000_0000
            * byte_at(data, 7),
{
    let bytes = first(data, 8);
    assert forall|i: int| 0 <= i < 8 implies #[trigger] byte_at(bytes, i) == byte_at(data, i) by {}
    lemma_sum_of_bytes(bytes);
}

proof fn lemma_sum_of_bytes(bytes: Seq<u8>)
    requires
        bytes.len() <= 8,
    ensures
        little_endian(bytes) == byte_at(bytes, 0) + 0x100 * byte_at(bytes, 1) + 0x1_0000 * byte_at(
            bytes,
            2,
        ) + 0x100_0000 * byte_at(bytes, 3) + 0x1_0000_0000 * byte_at(bytes, 4) + 0x100_0000_0000
            * byte_at(bytes, 5) + 0x1_0000_0000_0000 * byte_at(bytes, 6) + 0x100_0000_0000_0000
            * byte_at(bytes, 7),
    decreases bytes.len(),
{
    if bytes.len() > 0 {
        let tail = bytes.skip(1);
        lemma_sum_of_bytes(tail);
        assert forall|i: int| 0 <= i < 8 implies #[trigger] byte_at(tail, i) == byte_at(
            bytes,
            i + 1,
        ) by {}
        assert(byte_at(tail, 0) == byte_at(bytes, 1));
        assert(byte_at(tail, 1) == byte_at(bytes, 2));
        assert(byte_at(tail, 2) == byte_at(bytes, 3));
        assert(byte_at(tail, 3) == byte_at(bytes, 4));
        assert(byte_at(tail, 4) == byte_at(bytes, 5));
        assert(byte_at(tail, 5) == byte_at(bytes, 6));
        assert(byte_at(tail, 6) == byte_at(bytes, 7));
        assert(byte_at(tail, 7) == 0);
    }
}

/// A truth value is whether the first byte is odd, and false where there is none.
pub proof fn law_drawn_bool_is_parity(data: Seq<u8>)
    ensures
        drawn_bool(data) <==> byte_at(data, 0) % 2 == 1,
{
}

/// A number from a short range uses one byte, and is its remainder; a range of one
/// number uses none. In any range the number differs from what the bytes stand for
/// by a multiple of the range's size.
pub proof fn law_drawn_number_is_remainder(data: Seq<u8>, max: u64)
    ensures
        0 < max < 256 ==> drawn_up_to(data, max) == byte_at(data, 0) % (max + 1),
        0 < max < 256 ==> byte_width(max as nat) == 1,
        max == 0 ==> drawn_up_to(data, max) == 0,
        max == 0 ==> byte_width(max as nat) == 0,
        drawn_up_to(data, max) <= max,
        (big_endian(first(data, byte_width(max as nat))) - drawn_up_to(data, max)) % (max + 1) == 0,
{
    let number = big_endian(first(data, byte_width(max as nat))) as int;
    let size = max as int + 1;
    law_drawn_number_is_in_range(data, max);
    vstd::arithmetic::div_mod::lemma_fundamental_div_mod(number, size);
    vstd::arithmetic::div_mod::lemma_mod_bound(number, size);
    let quotient = number / size;
    assert(number - number % size == quotient * size) by (nonlinear_arith)
        requires
            number == size * quotient + number % size,
    ;
    vstd::arithmetic::div_mod::lemma_mod_multiples_basic(quotient, size);
    reveal_with_fuel(byte_width, 2);
    reveal_with_fuel(big_endian, 2);
    if 0 < max < 256 {
        assert(byte_width(max as nat) == 1) by {
            assert(max as nat / 256 == 0);
        }
        let bytes = first(data, 1);
        if data.len() > 0 {
            assert(bytes.drop_last() =~= Seq::<u8>::empty());
            assert(bytes.last() == data[0]);
        }
        assert(number == byte_at(data, 0));
    }
    if max == 0 {
        assert(number % 1 == 0);
    }
}

/// A truth value with odds uses one byte: it is true where the remainder of that byte
/// by the odds' second number is below the first.
pub proof fn law_drawn_ratio_is_odds(data: Seq<u8>, n: u32, d: u32)
    requires
        0 < n <= d,
        1 < d <= 256,
    ensures
        drawn_ratio(data, n, d) <==> byte_at(data, 0) % (d as int) < n,
        byte_width((d - 1) as nat) == 1,
{
    law_drawn_number_is_remainder(data, (d - 1) as u64);
    reveal_with_fuel(big_endian, 2);
    let bytes = first(data, 1);
    if data.len() > 0 {
        assert(bytes.drop_last() =~= Seq::<u8>::empty());
        assert(bytes.last() == data[0]);
    }
    assert(big_endian(bytes) == byte_at(data, 0));
}

} // verus!
