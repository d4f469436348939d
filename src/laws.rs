use vstd::prelude::*;

use crate::bit_date::{
    BitDate, day_of, is_leap, lemma_pack_fields, leap_bit, leap_of, month_length, month_of,
    packed_date, valid_date, valid_packed, year_of,
};

verus! {

/// Every valid date fits in 32 bits, and decoding its packed form gives back
/// the year, month and day it was built from, with the leap bit of its year.
pub proof fn round_trip(y: u32, m: u32, d: u32)
    requires
        valid_date(y as int, m as int, d as int),
    ensures
        0 <= packed_date(y as int, m as int, d as int) <= u32::MAX,
        ({
            let p = packed_date(y as int, m as int, d as int) as u32;
            &&& year_of(p) == y
            &&& month_of(p) == m
            &&& day_of(p) == d
            &&& leap_of(p) == leap_bit(y as int)
            &&& valid_packed(p)
        }),
{
    let l = leap_bit(y as int) as u32;
    lemma_pack_fields(y, m, d, l);
}

/// A month of 0 or of 13 is never part of a valid date, whatever the year
/// and the day.
pub proof fn month_out_of_range_rejected(y: u32, d: u32)
    ensures
        !valid_date(y as int, 0, d as int),
        !valid_date(y as int, 13, d as int),
{
}

/// February 29 is valid exactly in leap years, and February 30 never is.
pub proof fn february_bounds(y: u32)
    requires
        1000 <= y <= 999999,
    ensures
        valid_date(y as int, 2, 29) <==> is_leap(y as int),
        !valid_date(y as int, 2, 30),
{
}

/// Two valid dates with the same packed form are the same date.
pub proof fn packing_injective(y1: u32, m1: u32, d1: u32, y2: u32, m2: u32, d2: u32)
    requires
        valid_date(y1 as int, m1 as int, d1 as int),
        valid_date(y2 as int, m2 as int, d2 as int),
        packed_date(y1 as int, m1 as int, d1 as int) == packed_date(
            y2 as int,
            m2 as int,
            d2 as int,
        ),
    ensures
        y1 == y2,
        m1 == m2,
        d1 == d2,
{
    round_trip(y1, m1, d1);
    round_trip(y2, m2, d2);
}

/// A valid packed integer is the packed form of the date that it decodes to,
/// so each one stands for exactly one date.
pub proof fn decode_then_pack(p: u32)
    requires
        valid_packed(p),
    ensures
        valid_date(year_of(p), month_of(p), day_of(p)),
        packed_date(year_of(p), month_of(p), day_of(p)) == p,
{
    assert(p == (p / 1024) * 1024 + ((p / 64) % 16) * 64 + ((p / 2) % 32) * 2 + p % 2)
        by (bit_vector);
}

/// `MIN` decodes to 1000-01-01 and `MAX` to 999999-12-31; both are the
/// packed forms of those dates.
pub proof fn boundary_constants()
    ensures
        year_of(BitDate::MIN) == 1000,
        month_of(BitDate::MIN) == 1,
        day_of(BitDate::MIN) == 1,
        leap_of(BitDate::MIN) == 0,
        BitDate::MIN == packed_date(1000, 1, 1),
        valid_packed(BitDate::MIN),
        year_of(BitDate::MAX) == 999999,
        month_of(BitDate::MAX) == 12,
        day_of(BitDate::MAX) == 31,
        leap_of(BitDate::MAX) == 0,
        BitDate::MAX == packed_date(999999, 12, 31),
        valid_packed(BitDate::MAX),
{
    assert(BitDate::MIN == 1024066) by (bit_vector);
    assert(BitDate::MAX == 1023999806) by (bit_vector);
    assert(month_length(12, is_leap(999999)) == 31);
}

} // verus!
