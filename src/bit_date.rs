use vstd::prelude::*;

verus! {

/// Gregorian leap-year rule: divisible by 4, and if by 100 then also by 400.
pub open spec fn is_leap(year: int) -> bool {
    year % 4 == 0 && (year % 100 != 0 || year % 400 == 0)
}

/// The leap flag of a year as a bit.
pub open spec fn leap_bit(year: int) -> int {
    if is_leap(year) {
        1
    } else {
        0
    }
}

/// Number of days of a month (1 = January) in a common or a leap year.
pub open spec fn month_length(month: int, leap: bool) -> int {
    if month == 2 {
        if leap {
            29
        } else {
            28
        }
    } else if month == 4 || month == 6 || month == 9 || month == 11 {
        30
    } else {
        31
    }
}

/// A representable calendar date: year in 1000..=999999, a real month and a
/// day within that month's length.
pub open spec fn valid_date(year: int, month: int, day: int) -> bool {
    &&& 1000 <= year <= 999999
    &&& 1 <= month <= 12
    &&& 1 <= day <= month_length(month, is_leap(year))
}

/// The bit layout `year << 10 | month << 6 | day << 1 | leap`, as arithmetic.
pub open spec fn pack(year: int, month: int, day: int, leap: int) -> int {
    year * 1024 + month * 64 + day * 2 + leap
}

/// Bits 31..10 of a packed date.
pub open spec fn year_of(p: u32) -> int {
    p as int / 1024
}

/// Bits 9..6 of a packed date.
pub open spec fn month_of(p: u32) -> int {
    (p as int / 64) % 16
}

/// Bits 5..1 of a packed date.
pub open spec fn day_of(p: u32) -> int {
    (p as int / 2) % 32
}

/// Bit 0 of a packed date.
pub open spec fn leap_of(p: u32) -> int {
    p as int % 2
}

/// A packed integer that encodes a valid date with the leap bit of its year.
pub open spec fn valid_packed(p: u32) -> bool {
    &&& valid_date(year_of(p), month_of(p), day_of(p))
    &&& leap_of(p) == leap_bit(year_of(p))
}

/// The packed integer of a valid date, leap bit taken from its year.
pub open spec fn packed_date(year: int, month: int, day: int) -> int {
    pack(year, month, day, leap_bit(year))
}

/// A calendar date stored as one `u32`:
/// `year << 10 | month << 6 | day << 1 | leap`.
#[derive(Clone, Copy, PartialEq, Eq, Structural)]
pub struct BitDate(u32);

impl View for BitDate {
    type V = u32;

    closed spec fn view(&self) -> u32 {
        self.0
    }
}

/// Shifting the fields into place and or-ing them adds them up, and the
/// fields can be read back out of the sum.
pub(crate) proof fn lemma_pack_fields(y: u32, m: u32, d: u32, l: u32)
    requires
        y <= 0x3FFFFF,
        m < 16,
        d < 32,
        l < 2,
    ensures
        (y << 10u32) | (m << 6u32) | (d << 1u32) | l == pack(y as int, m as int, d as int, l as int),
        ({
            let p = ((y << 10u32) | (m << 6u32) | (d << 1u32) | l) as u32;
            &&& year_of(p) == y
            &&& month_of(p) == m
            &&& day_of(p) == d
            &&& leap_of(p) == l
        }),
{
    let p = ((y << 10u32) | (m << 6u32) | (d << 1u32) | l) as u32;
    assert(p == y * 1024 + m * 64 + d * 2 + l) by (bit_vector)
        requires
            y <= 0x3FFFFF,
            m < 16,
            d < 32,
            l < 2,
            p == ((y << 10u32) | (m << 6u32) | (d << 1u32) | l),
    ;
    assert(p / 1024 == y && (p / 64) % 16 == m && (p / 2) % 32 == d && p % 2 == l) by (bit_vector)
        requires
            y <= 0x3FFFFF,
            m < 16,
            d < 32,
            l < 2,
            p == y * 1024 + m * 64 + d * 2 + l,
    ;
}

/// Reading a field out of the month-length table.
proof fn lemma_month_table(table: u64, shift: u32)
    by (bit_vector)
    requires
        table == BitDate::DAYS_IN_YEAR || table == BitDate::DAYS_IN_LEAP_YEAR,
    ensures
        shift == 0 ==> (table >> shift) & 0x1F == 31,
        shift == 5 && table == BitDate::DAYS_IN_YEAR ==> (table >> shift) & 0x1F == 28,
        shift == 5 && table == BitDate::DAYS_IN_LEAP_YEAR ==> (table >> shift) & 0x1F == 29,
        shift == 10 ==> (table >> shift) & 0x1F == 31,
        shift == 15 ==> (table >> shift) & 0x1F == 30,
        shift == 20 ==> (table >> shift) & 0x1F == 31,
        shift == 25 ==> (table >> shift) & 0x1F == 30,
        shift == 30 ==> (table >> shift) & 0x1F == 31,
        shift == 35 ==> (table >> shift) & 0x1F == 31,
        shift == 40 ==> (table >> shift) & 0x1F == 30,
        shift == 45 ==> (table >> shift) & 0x1F == 31,
        shift == 50 ==> (table >> shift) & 0x1F == 30,
        shift == 55 ==> (table >> shift) & 0x1F == 31,
{
}

impl BitDate {
    /// Packed form of 999999-12-31 (999999 is a common year, so bit 0 is 0).
    pub const MAX: u32 = 999_999 << 10 | 12 << 6 | 31 << 1;

    /// Packed form of 1000-01-01 (1000 is a common year, so bit 0 is 0).
    pub const MIN: u32 = 1_000 << 10 | 1 << 6 | 1 << 1;

    const YEAR_MASK: u32 = 0x003FFFFF;

    const MONTH_MASK: u32 = 0xF;

    const DAY_MASK: u32 = 0x1F;

    const LEAP_YEAR_MASK: u32 = 0x01;

    /// Month lengths of a common year, five bits per month, January lowest.
    const DAYS_IN_YEAR: u64 = 31 << 55 | 30 << 50 | 31 << 45 | 30 << 40 | 31 << 35 | 31 << 30
        | 30 << 25 | 31 << 20 | 30 << 15 | 31 << 10 | 28 << 5 | 31;

    /// Month lengths of a leap year, five bits per month, January lowest.
    const DAYS_IN_LEAP_YEAR: u64 = 31 << 55 | 30 << 50 | 31 << 45 | 30 << 40 | 31 << 35 | 31
        << 30 | 30 << 25 | 31 << 20 | 30 << 15 | 31 << 10 | 29 << 5 | 31;

    #[verifier::type_invariant]
    spec fn inv(self) -> bool {
        valid_packed(self.0)
    }

    /// Builds a date from year, month and day; `None` unless they name a real
    /// day with the year in 1000..=999999. The year bound keeps the year
    /// inside its 22-bit field, and day 0 is refused as no day of the month.
    pub fn from_ymd(y: u32, m: u32, d: u32) -> (r: Option<Self>)
        ensures
            r is Some <==> valid_date(y as int, m as int, d as int),
            r matches Some(date) ==> date@ == packed_date(y as int, m as int, d as int),
            r matches Some(date) ==> year_of(date@) == y && month_of(date@) == m && day_of(
                date@,
            ) == d && leap_of(date@) == leap_bit(y as int),
    {
        let leap_year = Self::leap_year_bit(y);
        if 1000 <= y && y <= 999_999 && 1 <= m && m <= 12 && 1 <= d && d <= Self::days_in_month(
            m,
            leap_year,
        ) {
            let packed_year = Self::pack_year(y);
            let packed_month = Self::pack_month(m);
            let packed_day = Self::pack_day(d);
            let packed_leap_year = Self::pack_leap_year(leap_year);
            proof {
                lemma_pack_fields(y, m, d, leap_year);
            }
            Some(Self::from_packed_integer(packed_year | packed_month | packed_day | packed_leap_year))
        } else {
            None
        }
    }

    fn from_packed_integer(ymdl: u32) -> (r: Self)
        requires
            valid_packed(ymdl),
        ensures
            r@ == ymdl,
    {
        Self(ymdl)
    }

    /// The packed integer itself.
    pub fn ymdl(&self) -> (r: u32)
        ensures
            r == self@,
            valid_packed(r),
    {
        proof {
            use_type_invariant(self);
        }
        self.0
    }

    /// Length of `month` (1..=12), read from the table of a leap year when
    /// `leap_year_bit` is 1 and of a common year otherwise.
    pub fn days_in_month(month: u32, leap_year_bit: u32) -> (r: u32)
        requires
            1 <= month <= 12,
        ensures
            r == month_length(month as int, leap_year_bit == 1),
    {
        let source = if leap_year_bit == 1 {
            Self::DAYS_IN_LEAP_YEAR
        } else {
            Self::DAYS_IN_YEAR
        };
        let shift: u32 = (month - 1) * 5;
        proof {
            lemma_month_table(source, shift);
        }
        ((source >> shift) & 0x1F) as u32
    }

    /// `year` moved to bits 31..10.
    pub fn pack_year(year: u32) -> (r: u32)
        requires
            year <= 0x3FFFFF,
        ensures
            r == year << 10u32,
            r == year * 1024,
    {
        assert(year <= 0x3FFFFF ==> year << 10u32 == year * 1024) by (bit_vector);
        year << 10
    }

    /// `month` moved to bits 9..6.
    pub fn pack_month(month: u32) -> (r: u32)
        requires
            month < 16,
        ensures
            r == month << 6u32,
            r == month * 64,
    {
        assert(month < 16 ==> month << 6u32 == month * 64) by (bit_vector);
        month << 6
    }

    /// `day` moved to bits 5..1.
    pub fn pack_day(day: u32) -> (r: u32)
        requires
            day < 32,
        ensures
            r == day << 1u32,
            r == day * 2,
    {
        assert(day < 32 ==> day << 1u32 == day * 2) by (bit_vector);
        day << 1
    }

    /// The leap bit, which stays at bit 0.
    pub fn pack_leap_year(leap_year: u32) -> (r: u32)
        ensures
            r == leap_year,
    {
        leap_year
    }

    /// Bits 31..10 of `ymdl`.
    pub fn unpack_year(ymdl: u32) -> (r: u32)
        ensures
            r == year_of(ymdl),
    {
        assert(ymdl >> 10u32 & 0x3FFFFFu32 == ymdl / 1024) by (bit_vector);
        ymdl >> 10 & Self::YEAR_MASK
    }

    /// Bits 9..6 of `ymdl`.
    pub fn unpack_month(ymdl: u32) -> (r: u32)
        ensures
            r == month_of(ymdl),
    {
        assert(ymdl >> 6u32 & 0xFu32 == (ymdl / 64) % 16) by (bit_vector);
        ymdl >> 6 & Self::MONTH_MASK
    }

    /// Bits 5..1 of `ymdl`.
    pub fn unpack_day(ymdl: u32) -> (r: u32)
        ensures
            r == day_of(ymdl),
    {
        assert(ymdl >> 1u32 & 0x1Fu32 == (ymdl / 2) % 32) by (bit_vector);
        ymdl >> 1 & Self::DAY_MASK
    }

    /// Bit 0 of `ymdl`.
    pub fn unpack_leap_year(ymdl: u32) -> (r: u32)
        ensures
            r == leap_of(ymdl),
    {
        assert(ymdl & 0x1u32 == ymdl % 2) by (bit_vector);
        ymdl & Self::LEAP_YEAR_MASK
    }

    /// 1 when `year` is a Gregorian leap year, else 0.
    pub fn leap_year_bit(year: u32) -> (r: u32)
        ensures
            r == leap_bit(year as int),
    {
        assert(year & 3 == year % 4) by (bit_vector);
        if year & 3 != 0 {
            return 0b0;
        }
        if year % 100 == 0 && year % 400 != 0 {
            return 0b0;
        }
        0b1
    }

    /// The year of the date.
    pub fn year(&self) -> (r: u32)
        ensures
            r == year_of(self@),
            1000 <= r <= 999999,
    {
        proof {
            use_type_invariant(self);
        }
        Self::unpack_year(self.ymdl())
    }

    /// The month of the date, 1..=12.
    pub fn month(&self) -> (r: u32)
        ensures
            r == month_of(self@),
            1 <= r <= 12,
    {
        proof {
            use_type_invariant(self);
        }
        Self::unpack_month(self.ymdl())
    }

    /// The day of the month.
    pub fn day(&self) -> (r: u32)
        ensures
            r == day_of(self@),
            1 <= r <= month_length(month_of(self@), is_leap(year_of(self@))),
    {
        proof {
            use_type_invariant(self);
        }
        Self::unpack_day(self.ymdl())
    }

    /// 1 when the year of the date is a leap year, else 0.
    pub fn leap_year(&self) -> (r: u32)
        ensures
            r == leap_of(self@),
            r == leap_bit(year_of(self@)),
    {
        proof {
            use_type_invariant(self);
        }
        Self::unpack_leap_year(self.ymdl())
    }
}

} // verus!
