//! Fixed-width integers as byte sequences, and comparison of byte slices.

use vstd::prelude::*;

verus! {

/// Number of values that `width` bytes can hold.
pub open spec fn capacity(width: nat) -> nat
    decreases width,
{
    if width == 0 {
        1
    } else {
        256 * capacity((width - 1) as nat)
    }
}

/// The `width` bytes of `value`, most significant byte first.
pub open spec fn be_bytes(value: nat, width: nat) -> Seq<u8>
    decreases width,
{
    if width == 0 {
        Seq::empty()
    } else {
        be_bytes(value / 256, (width - 1) as nat).push((value % 256) as u8)
    }
}

/// The number that `bytes` spell, most significant byte first.
pub open spec fn be_value(bytes: Seq<u8>) -> nat
    decreases bytes.len(),
{
    if bytes.len() == 0 {
        0
    } else {
        be_value(bytes.drop_last()) * 256 + bytes.last() as nat
    }
}

/// The `width` bytes of `value`, least significant byte first.
pub open spec fn le_bytes(value: nat, width: nat) -> Seq<u8> {
    be_bytes(value, width).reverse()
}

/// The number that `bytes` spell, least significant byte first.
pub open spec fn le_value(bytes: Seq<u8>) -> nat {
    be_value(bytes.reverse())
}

/// The part of `bytes` that starts at `start` and holds `count` bytes.
pub open spec fn slice_of(bytes: Seq<u8>, start: int, count: int) -> Seq<u8> {
    bytes.subrange(start, start + count)
}

pub proof fn lemma_capacity_values()
    ensures
        capacity(0) == 1,
        capacity(1) == 0x100,
        capacity(2) == 0x1_0000,
        capacity(4) == 0x1_0000_0000,
        capacity(8) == 0x1_0000_0000_0000_0000,
        capacity(16) == 0x1_0000_0000_0000_0000_0000_0000_0000_0000,
{
    reveal_with_fuel(capacity, 17);
}

pub proof fn lemma_capacity_grows(small: nat, large: nat)
    requires
        small <= large,
    ensures
        0 < capacity(small) <= capacity(large),
    decreases large,
{
    if small < large {
        lemma_capacity_grows(small, (large - 1) as nat);
    } else if large > 0 {
        lemma_capacity_grows((large - 1) as nat, (large - 1) as nat);
    }
}

pub proof fn lemma_be_bytes_len(value: nat, width: nat)
    ensures
        be_bytes(value, width).len() == width,
    decreases width,
{
    if width > 0 {
        lemma_be_bytes_len(value / 256, (width - 1) as nat);
    }
}

/// Reading back the bytes of a number gives the number.
pub proof fn lemma_be_value_of_bytes(value: nat, width: nat)
    requires
        value < capacity(width),
    ensures
        be_bytes(value, width).len() == width,
        be_value(be_bytes(value, width)) == value,
    decreases width,
{
    if width > 0 {
        let rest = be_bytes(value / 256, (width - 1) as nat);
        lemma_be_value_of_bytes(value / 256, (width - 1) as nat);
        assert(be_bytes(value, width).drop_last() =~= rest);
    }
}

/// Writing out the number that bytes spell gives the bytes.
pub proof fn lemma_be_bytes_of_value(bytes: Seq<u8>)
    ensures
        be_value(bytes) < capacity(bytes.len()),
        be_bytes(be_value(bytes), bytes.len()) == bytes,
    decreases bytes.len(),
{
    if bytes.len() > 0 {
        let rest = bytes.drop_last();
        lemma_be_bytes_of_value(rest);
        let value = be_value(bytes);
        assert(value / 256 == be_value(rest));
        assert(value % 256 == bytes.last());
        assert(be_bytes(value, bytes.len()) =~= rest.push(bytes.last()));
        assert(rest.push(bytes.last()) =~= bytes);
    }
}

/// Reading back the little-endian bytes of a number gives the number.
pub proof fn lemma_le_value_of_bytes(value: nat, width: nat)
    requires
        value < capacity(width),
    ensures
        le_bytes(value, width).len() == width,
        le_value(le_bytes(value, width)) == value,
{
    lemma_be_value_of_bytes(value, width);
    assert(be_bytes(value, width).reverse().reverse() =~= be_bytes(value, width));
}

/// Writing out the number that little-endian bytes spell gives the bytes.
pub proof fn lemma_le_bytes_of_value(bytes: Seq<u8>)
    ensures
        le_value(bytes) < capacity(bytes.len()),
        le_bytes(le_value(bytes), bytes.len()) == bytes,
{
    lemma_be_bytes_of_value(bytes.reverse());
    assert(bytes.reverse().reverse() =~= bytes);
}

/// The number of two byte sequences in a row.
pub proof fn lemma_be_value_joins(high: Seq<u8>, low: Seq<u8>)
    ensures
        be_value(high + low) == be_value(high) * capacity(low.len()) + be_value(low),
    decreases low.len(),
{
    if low.len() == 0 {
        assert(high + low =~= high);
        assert(be_value(high) * capacity(0) == be_value(high)) by (nonlinear_arith)
            requires
                capacity(0) == 1,
        ;
    } else {
        let rest = low.drop_last();
        lemma_be_value_joins(high, rest);
        assert((high + low).drop_last() =~= high + rest);
        let value = be_value(high);
        let size = capacity(rest.len());
        assert((value * size + be_value(rest)) * 256 == value * (256 * size) + be_value(rest) * 256)
            by (nonlinear_arith);
    }
}

/// Whether two slices hold the same bytes.
pub fn bytes_equal(left: &[u8], right: &[u8]) -> (same: bool)
    ensures
        same == (left@ == right@),
{
    if left.len() != right.len() {
        return false;
    }
    let mut index: usize = 0;
    while index < left.len()
        invariant
            left@.len() == right@.len(),
            index <= left@.len(),
            forall|k: int| 0 <= k < index ==> left@[k] == right@[k],
        decreases left@.len() - index,
    {
        if left[index] != right[index] {
            assert(left@[index as int] != right@[index as int]);
            return false;
        }
        index += 1;
    }
    assert(left@ =~= right@);
    true
}

/// The bytes of `bytes` from `start` on, `count` of them.
pub fn copy_range(bytes: &[u8], start: usize, count: usize) -> (copy: Vec<u8>)
    requires
        start + count <= bytes@.len(),
    ensures
        copy@ == slice_of(bytes@, start as int, count as int),
{
    assert(start + count <= bytes.len());
    let mut copy: Vec<u8> = Vec::new();
    copy.extend_from_slice(&bytes[start..start + count]);
    assert(copy@ =~= slice_of(bytes@, start as int, count as int));
    copy
}

/// The 16 bytes of `bytes` from `start` on.
pub fn array_16(bytes: &[u8], start: usize) -> (array: [u8; 16])
    requires
        start + 16 <= bytes@.len(),
    ensures
        array@ == slice_of(bytes@, start as int, 16),
        array == spec_array_16(bytes@, start as int),
{
    assert(start + 16 <= bytes.len());
    let mut array: [u8; 16] = [0;16];
    let mut index: usize = 0;
    while index < 16
        invariant
            index <= 16,
            start + 16 <= bytes@.len(),
            bytes@.len() <= usize::MAX,
            forall|k: int| 0 <= k < index ==> array@[k] == bytes@[start + k],
        decreases 16 - index,
    {
        array[index] = bytes[start + index];
        index += 1;
    }
    proof {
        assert(array@ =~= slice_of(bytes@, start as int, 16));
        lemma_array_16(array, bytes@, start as int);
    }
    array
}

/// The 32 bytes of `bytes` from `start` on.
pub fn array_32(bytes: &[u8], start: usize) -> (array: [u8; 32])
    requires
        start + 32 <= bytes@.len(),
    ensures
        array@ == slice_of(bytes@, start as int, 32),
        array == spec_array_32(bytes@, start as int),
{
    assert(start + 32 <= bytes.len());
    let mut array: [u8; 32] = [0;32];
    let mut index: usize = 0;
    while index < 32
        invariant
            index <= 32,
            start + 32 <= bytes@.len(),
            bytes@.len() <= usize::MAX,
            forall|k: int| 0 <= k < index ==> array@[k] == bytes@[start + k],
        decreases 32 - index,
    {
        array[index] = bytes[start + index];
        index += 1;
    }
    proof {
        assert(array@ =~= slice_of(bytes@, start as int, 32));
        lemma_array_32(array, bytes@, start as int);
    }
    array
}

/// The array of sixteen bytes that stands at `start`.
pub open spec fn spec_array_16(bytes: Seq<u8>, start: int) -> [u8; 16] {
    choose|array: [u8; 16]| array@ == slice_of(bytes, start, 16)
}

/// The array of thirty-two bytes that stands at `start`.
pub open spec fn spec_array_32(bytes: Seq<u8>, start: int) -> [u8; 32] {
    choose|array: [u8; 32]| array@ == slice_of(bytes, start, 32)
}

pub proof fn lemma_array_16(array: [u8; 16], bytes: Seq<u8>, start: int)
    requires
        array@ == slice_of(bytes, start, 16),
    ensures
        spec_array_16(bytes, start) == array,
{
    let chosen = spec_array_16(bytes, start);
    assert(chosen@ == slice_of(bytes, start, 16));
    assert(chosen =~= array);
}

pub proof fn lemma_array_32(array: [u8; 32], bytes: Seq<u8>, start: int)
    requires
        array@ == slice_of(bytes, start, 32),
    ensures
        spec_array_32(bytes, start) == array,
{
    let chosen = spec_array_32(bytes, start);
    assert(chosen@ == slice_of(bytes, start, 32));
    assert(chosen =~= array);
}

/// Whether two arrays are the same.
pub fn same_32(left: &[u8; 32], right: &[u8; 32]) -> (same: bool)
    ensures
        same == (*left == *right),
{
    let same = bytes_equal(left, right);
    proof {
        if same {
            assert(*left =~= *right);
        }
    }
    same
}

/// Whether every byte is zero.
pub open spec fn all_zero(bytes: Seq<u8>) -> bool {
    forall|k: int| 0 <= k < bytes.len() ==> #[trigger] bytes[k] == 0
}

/// Whether every byte is zero.
pub fn is_all_zero(bytes: &[u8]) -> (zero: bool)
    ensures
        zero == all_zero(bytes@),
{
    let mut index: usize = 0;
    while index < bytes.len()
        invariant
            index <= bytes@.len(),
            forall|k: int| 0 <= k < index ==> #[trigger] bytes@[k] == 0,
        decreases bytes@.len() - index,
    {
        if bytes[index] != 0 {
            assert(bytes@[index as int] != 0);
            return false;
        }
        index += 1;
    }
    true
}

/// Appends `bytes` to `out`.
pub fn append(out: &mut Vec<u8>, bytes: &[u8])
    ensures
        final(out)@ == old(out)@ + bytes@,
{
    out.extend_from_slice(bytes);
    assert(out@ =~= old(out)@ + bytes@);
}

/// Appends the `width` big-endian bytes of `value` to `out`.
pub fn put_be(out: &mut Vec<u8>, value: u64, width: usize)
    requires
        width <= 8,
        value < capacity(width as nat),
    ensures
        final(out)@ == old(out)@ + be_bytes(value as nat, width as nat),
    decreases width,
{
    proof {
        lemma_be_bytes_len(value as nat, width as nat);
    }
    if width == 0 {
        assert(out@ =~= old(out)@ + be_bytes(value as nat, width as nat));
    } else {
        put_be(out, value / 256, width - 1);
        out.push((value % 256) as u8);
        assert(out@ =~= old(out)@ + be_bytes(value as nat, width as nat));
    }
}

/// Appends the `width` little-endian bytes of `value` to `out`.
pub fn put_le(out: &mut Vec<u8>, value: u64, width: usize)
    requires
        width <= 8,
        value < capacity(width as nat),
    ensures
        final(out)@ == old(out)@ + le_bytes(value as nat, width as nat),
    decreases width,
{
    proof {
        lemma_be_bytes_len(value as nat, width as nat);
    }
    if width == 0 {
        assert(out@ =~= old(out)@ + le_bytes(value as nat, width as nat));
    } else {
        let ghost before = out@;
        out.push((value % 256) as u8);
        let ghost middle = out@;
        put_le(out, value / 256, width - 1);
        proof {
            lemma_be_bytes_len(value as nat / 256, (width - 1) as nat);
            assert(le_bytes(value as nat, width as nat) =~= seq![(value % 256) as u8] + le_bytes(
                value as nat / 256,
                (width - 1) as nat,
            ));
            assert(out@ =~= before + le_bytes(value as nat, width as nat));
        }
    }
}

/// The big-endian number in the `width` bytes of `bytes` from `start` on.
pub fn get_be(bytes: &[u8], start: usize, width: usize) -> (value: u64)
    requires
        width <= 8,
        start + width <= bytes@.len(),
    ensures
        value == be_value(slice_of(bytes@, start as int, width as int)),
        value < capacity(width as nat),
{
    let mut value: u64 = 0;
    let mut index: usize = 0;
    proof {
        lemma_capacity_values();
    }
    while index < width
        invariant
            index <= width <= 8,
            start + width <= bytes@.len(),
            value == be_value(slice_of(bytes@, start as int, index as int)),
            value < capacity(index as nat),
            capacity(8) == 0x1_0000_0000_0000_0000,
        decreases width - index,
    {
        let ghost prefix = slice_of(bytes@, start as int, index as int);
        let ghost longer = slice_of(bytes@, start as int, index + 1);
        proof {
            assert(longer.drop_last() =~= prefix);
            assert(capacity((index + 1) as nat) == 256 * capacity(index as nat));
            lemma_capacity_grows((index + 1) as nat, 8);
        }
        assert(start + index < bytes.len());
        value = value * 256 + bytes[start + index] as u64;
        index += 1;
    }
    value
}

/// The little-endian number in the `width` bytes of `bytes` from `start` on.
pub fn get_le(bytes: &[u8], start: usize, width: usize) -> (value: u64)
    requires
        width <= 8,
        start + width <= bytes@.len(),
    ensures
        value == le_value(slice_of(bytes@, start as int, width as int)),
        value < capacity(width as nat),
{
    let mut value: u64 = 0;
    let mut index: usize = width;
    proof {
        lemma_capacity_values();
        assert(slice_of(bytes@, start + width, 0).reverse() =~= Seq::<u8>::empty());
    }
    while index > 0
        invariant
            index <= width <= 8,
            start + width <= bytes@.len(),
            value == le_value(slice_of(bytes@, start + index, width - index)),
            value < capacity((width - index) as nat),
            capacity(8) == 0x1_0000_0000_0000_0000,
        decreases index,
    {
        index -= 1;
        let ghost suffix = slice_of(bytes@, start + index + 1, width - index - 1).reverse();
        let ghost longer = slice_of(bytes@, start + index, width - index).reverse();
        proof {
            assert(longer.drop_last() =~= suffix);
            assert(longer.last() == bytes@[start + index]);
            assert(capacity((width - index) as nat) == 256 * capacity((width - index - 1) as nat));
            lemma_capacity_grows((width - index) as nat, 8);
        }
        assert(start + index < bytes.len());
        value = value * 256 + bytes[start + index] as u64;
    }
    value
}

/// Appends the sixteen big-endian bytes of `value` to `out`.
pub fn put_be_16(out: &mut Vec<u8>, value: u128)
    ensures
        final(out)@ == old(out)@ + be_bytes(value as nat, 16),
{
    let high: u64 = (value / 0x1_0000_0000_0000_0000) as u64;
    let low: u64 = (value % 0x1_0000_0000_0000_0000) as u64;
    proof {
        lemma_capacity_values();
        lemma_be_value_of_bytes(high as nat, 8);
        lemma_be_value_of_bytes(low as nat, 8);
        let both = be_bytes(high as nat, 8) + be_bytes(low as nat, 8);
        lemma_be_value_joins(be_bytes(high as nat, 8), be_bytes(low as nat, 8));
        lemma_be_bytes_of_value(both);
        assert(high * capacity(8) == high * 0x1_0000_0000_0000_0000) by (nonlinear_arith)
            requires
                capacity(8) == 0x1_0000_0000_0000_0000,
        ;
        assert(be_value(both) == value);
    }
    put_be(out, high, 8);
    put_be(out, low, 8);
    assert(out@ =~= old(out)@ + be_bytes(value as nat, 16));
}

/// The big-endian number in the sixteen bytes of `bytes` from `start` on.
pub fn get_be_16(bytes: &[u8], start: usize) -> (value: u128)
    requires
        start + 16 <= bytes@.len(),
    ensures
        value == be_value(slice_of(bytes@, start as int, 16)),
{
    proof {
        lemma_capacity_values();
        let high = slice_of(bytes@, start as int, 8);
        let low = slice_of(bytes@, start + 8, 8);
        lemma_be_value_joins(high, low);
        assert(high + low =~= slice_of(bytes@, start as int, 16));
        assert(be_value(high) * capacity(8) == be_value(high) * 0x1_0000_0000_0000_0000)
            by (nonlinear_arith)
            requires
                capacity(8) == 0x1_0000_0000_0000_0000,
        ;
    }
    assert(start + 16 <= bytes.len());
    let high: u64 = get_be(bytes, start, 8);
    let low: u64 = get_be(bytes, start + 8, 8);
    high as u128 * 0x1_0000_0000_0000_0000 + low as u128
}

/// Whether one byte sequence comes before another, byte by byte.
pub open spec fn bytes_before(left: Seq<u8>, right: Seq<u8>) -> bool
    decreases left.len(),
{
    if right.len() == 0 {
        false
    } else if left.len() == 0 {
        true
    } else if left[0] != right[0] {
        left[0] < right[0]
    } else {
        bytes_before(left.skip(1), right.skip(1))
    }
}

/// Whether one byte sequence comes before another, byte by byte.
pub fn comes_before(left: &[u8], right: &[u8]) -> (before: bool)
    ensures
        before == bytes_before(left@, right@),
{
    let mut index: usize = 0;
    assert(left@.skip(0) =~= left@);
    assert(right@.skip(0) =~= right@);
    while index < left.len() && index < right.len()
        invariant
            index <= left@.len(),
            index <= right@.len(),
            bytes_before(left@, right@) == bytes_before(
                left@.skip(index as int),
                right@.skip(index as int),
            ),
        decreases left@.len() - index,
    {
        if left[index] != right[index] {
            return left[index] < right[index];
        }
        proof {
            assert(left@.skip(index as int).skip(1) =~= left@.skip(index + 1));
            assert(right@.skip(index as int).skip(1) =~= right@.skip(index + 1));
        }
        index += 1;
    }
    index < right.len()
}

/// Little-endian bytes start with the lowest byte of a number, and go on with those of what is left
/// of it; big-endian bytes end with it.
pub proof fn lemma_order_of_bytes(value: nat, width: nat)
    requires
        width > 0,
    ensures
        le_bytes(value, width).len() == width,
        le_bytes(value, width)[0] == value % 256,
        le_bytes(value, width).skip(1) == le_bytes(value / 256, (width - 1) as nat),
        be_bytes(value, width).len() == width,
        be_bytes(value, width).last() == value % 256,
        be_bytes(value, width).drop_last() == be_bytes(value / 256, (width - 1) as nat),
        le_bytes(value, 0).len() == 0,
        be_bytes(value, 0).len() == 0,
{
    lemma_be_bytes_len(value, width);
    lemma_be_bytes_len(value / 256, (width - 1) as nat);
    lemma_be_bytes_len(value, 0);
    assert(be_bytes(value, width).drop_last() =~= be_bytes(value / 256, (width - 1) as nat));
    assert(le_bytes(value, width).skip(1) =~= le_bytes(value / 256, (width - 1) as nat));
}

/// The two bytes of a number below 2^16.
pub proof fn lemma_two_bytes(value: nat)
    requires
        value < 0x1_0000,
    ensures
        le_bytes(value, 2) == seq![(value % 256) as u8, (value / 256) as u8],
        be_bytes(value, 2) == seq![(value / 256) as u8, (value % 256) as u8],
{
    lemma_order_of_bytes(value, 2);
    lemma_order_of_bytes(value / 256, 1);
    assert(be_bytes(value, 2).drop_last().last() == be_bytes(value, 2)[0]);
    assert(be_bytes(value, 2) =~= seq![(value / 256) as u8, (value % 256) as u8]);
    assert(le_bytes(value, 2) =~= seq![(value % 256) as u8, (value / 256) as u8]);
}

/// Bytes come before others where the first of them that differs is the smaller one, or where they
/// are the start of the others.
pub proof fn lemma_order_of_sequences(left: Seq<u8>, right: Seq<u8>, same: int)
    requires
        0 <= same <= left.len(),
        same <= right.len(),
        left.take(same) == right.take(same),
        same < left.len() && same < right.len() ==> left[same] != right[same],
    ensures
        bytes_before(left, right) == if same < left.len() && same < right.len() {
            left[same] < right[same]
        } else {
            left.len() < right.len()
        },
    decreases same,
{
    if same > 0 {
        assert(left[0] == left.take(same)[0]);
        assert(right[0] == right.take(same)[0]);
        assert(left.skip(1).take(same - 1) =~= left.take(same).skip(1));
        assert(right.skip(1).take(same - 1) =~= right.take(same).skip(1));
        lemma_order_of_sequences(left.skip(1), right.skip(1), same - 1);
    }
}

/// The four bytes of a number below 2^32, the lowest first.
pub proof fn lemma_four_bytes(value: nat)
    requires
        value < 0x1_0000_0000,
    ensures
        ({
            let written = le_bytes(value, 4);
            &&& written.len() == 4
            &&& written[0] + 0x100 * written[1] + 0x1_0000 * written[2] + 0x100_0000 * written[3] == value
        }),
{
    lemma_order_of_bytes(value, 4);
    lemma_order_of_bytes(value / 256, 3);
    lemma_order_of_bytes(value / 256 / 256, 2);
    lemma_order_of_bytes(value / 256 / 256 / 256, 1);
    let written = le_bytes(value, 4);
    assert(written[1] == written.skip(1)[0]);
    assert(written[2] == written.skip(1).skip(1)[0]);
    assert(written[3] == written.skip(1).skip(1).skip(1)[0]);
}

} // verus!
