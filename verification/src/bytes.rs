use vstd::prelude::*;

verus! {

/// Order in which the bytes of a multi-byte scalar are stored.
#[derive(Clone, Copy, Debug, PartialEq, Eq, Structural)]
pub enum ByteOrder {
    /// Least significant byte first.
    LittleEndian,
    /// Most significant byte first.
    BigEndian,
}

/// Number of values that `width` bytes can hold: 256 to the power `width`.
pub open spec fn range_of(width: nat) -> nat
    decreases width,
{
    if width == 0 {
        1
    } else {
        256 * range_of((width - 1) as nat)
    }
}

/// The number whose base-256 digits are `bytes`, least significant first.
pub open spec fn le_value(bytes: Seq<u8>) -> nat
    decreases bytes.len(),
{
    if bytes.len() == 0 {
        0
    } else {
        bytes[0] as nat + 256 * le_value(bytes.skip(1))
    }
}

/// The number whose base-256 digits are `bytes`, most significant first.
pub open spec fn be_value(bytes: Seq<u8>) -> nat
    decreases bytes.len(),
{
    if bytes.len() == 0 {
        0
    } else {
        256 * be_value(bytes.drop_last()) + bytes.last() as nat
    }
}

/// The unsigned number that `bytes` hold in the given order.
pub open spec fn unsigned_value(bytes: Seq<u8>, order: ByteOrder) -> nat {
    match order {
        ByteOrder::LittleEndian => le_value(bytes),
        ByteOrder::BigEndian => be_value(bytes),
    }
}

/// The two's-complement reading of the unsigned number `raw` of `width` bytes.
pub open spec fn twos_complement(raw: nat, width: nat) -> int {
    if 2 * raw < range_of(width) {
        raw as int
    } else {
        raw - range_of(width)
    }
}

/// The signed number that `bytes` hold in the given order.
pub open spec fn signed_value(bytes: Seq<u8>, order: ByteOrder) -> int {
    twos_complement(unsigned_value(bytes, order), bytes.len())
}

/// The ranges of the widths that occur, as numbers.
pub proof fn lemma_range_of_values()
    ensures
        range_of(0) == 1,
        range_of(1) == 0x100,
        range_of(2) == 0x1_0000,
        range_of(3) == 0x100_0000,
        range_of(4) == 0x1_0000_0000,
        range_of(5) == 0x100_0000_0000,
        range_of(6) == 0x1_0000_0000_0000,
        range_of(7) == 0x100_0000_0000_0000,
        range_of(8) == 0x1_0000_0000_0000_0000,
{
    reveal_with_fuel(range_of, 10);
}

/// The number that bytes hold is below the range of their width, in either
/// order, and their two's-complement reading lies in the half of that range
/// on either side of zero.
pub proof fn lemma_value_bounds(bytes: Seq<u8>, order: ByteOrder)
    ensures
        unsigned_value(bytes, order) < range_of(bytes.len()),
        -(range_of(bytes.len()) as int) <= 2 * signed_value(bytes, order) < range_of(bytes.len()),
    decreases bytes.len(),
{
    if bytes.len() > 0 {
        match order {
            ByteOrder::LittleEndian => {
                lemma_value_bounds(bytes.skip(1), order);
            },
            ByteOrder::BigEndian => {
                lemma_value_bounds(bytes.drop_last(), order);
            },
        }
    }
}

/// Reads the first `width` bytes of `bytes` as an unsigned number.
pub fn read_unsigned(bytes: &[u8], width: usize, order: ByteOrder) -> (value: u64)
    requires
        width <= 8,
        width <= bytes.len(),
    ensures
        value == unsigned_value(bytes@.take(width as int), order),
        value < range_of(width as nat),
{
    let ghost digits = bytes@.take(width as int);
    let mut value: u64 = 0;
    proof {
        lemma_range_of_values();
    }
    match order {
        ByteOrder::BigEndian => {
            let mut i: usize = 0;
            while i < width
                invariant
                    i <= width <= 8,
                    width <= bytes.len(),
                    digits == bytes@.take(width as int),
                    value == be_value(digits.take(i as int)),
                    value < range_of(i as nat),
                decreases width - i,
            {
                proof {
                    lemma_range_of_values();
                    assert(digits.take(i + 1).drop_last() =~= digits.take(i as int));
                }
                value = value * 256 + bytes[i] as u64;
                i += 1;
            }
            assert(digits.take(width as int) =~= digits);
        },
        ByteOrder::LittleEndian => {
            let mut i: usize = width;
            while i > 0
                invariant
                    i <= width <= 8,
                    width <= bytes.len(),
                    digits == bytes@.take(width as int),
                    value == le_value(digits.subrange(i as int, width as int)),
                    value < range_of((width - i) as nat),
                decreases i,
            {
                proof {
                    lemma_range_of_values();
                    assert(digits.subrange(i - 1, width as int).skip(1) =~= digits.subrange(
                        i as int,
                        width as int,
                    ));
                }
                value = value * 256 + bytes[i - 1] as u64;
                i -= 1;
            }
            assert(digits.subrange(0, width as int) =~= digits);
        },
    }
    value
}

/// Reads the first `width` bytes of `bytes` as a two's-complement number.
pub fn read_signed(bytes: &[u8], width: usize, order: ByteOrder) -> (value: i64)
    requires
        width == 1 || width == 2 || width == 4 || width == 8,
        width <= bytes.len(),
    ensures
        value == signed_value(bytes@.take(width as int), order),
        -(range_of(width as nat) as int) <= 2 * value < range_of(width as nat),
{
    let raw = read_unsigned(bytes, width, order);
    proof {
        lemma_range_of_values();
    }
    if width == 8 {
        if raw < 0x8000_0000_0000_0000 {
            raw as i64
        } else {
            (raw - 0x8000_0000_0000_0000) as i64 + i64::MIN
        }
    } else {
        let range: u64 = if width == 1 {
            0x100
        } else if width == 2 {
            0x1_0000
        } else {
            0x1_0000_0000
        };
        if 2 * raw < range {
            raw as i64
        } else {
            raw as i64 - range as i64
        }
    }
}

} // verus!
