//! A calendar date packed into one `u32`: year, month, day and a leap flag.

pub mod bit_date;
pub mod laws;

pub use bit_date::BitDate;
