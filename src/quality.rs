//! Qualities, held as the bit pattern of an IEEE 754 binary64 value, and the
//! weight a header item states before it is read as a number.
use vstd::prelude::*;

verus! {

/// The bit pattern of 1.0: full preference.
pub const FULL_BITS: u64 = 0x3FF0_0000_0000_0000;

/// The bit pattern of -1.0: not accepted, or a quality that does not read as a number.
pub const REJECTED_BITS: u64 = 0xBFF0_0000_0000_0000;

/// The bit pattern of positive infinity, the largest bit pattern of a value above zero.
pub const INFINITY_BITS: u64 = 0x7FF0_0000_0000_0000;

/// Whether the binary64 value with these bits is strictly greater than zero:
/// the sign bit is clear, the value is not zero, and it is not a NaN.
pub open spec fn is_positive(bits: u64) -> bool {
    0 < bits && bits <= INFINITY_BITS
}

/// A quality: a binary64 value, kept as its bits.
#[derive(Clone, Copy, Debug, PartialEq, Eq, Structural)]
pub struct Quality {
    pub bits: u64,
}

impl View for Quality {
    type V = u64;

    open spec fn view(&self) -> u64 {
        self.bits
    }
}

impl Quality {
    /// The quality 1.0.
    pub fn full() -> (r: Quality)
        ensures
            r.bits == FULL_BITS,
    {
        Quality { bits: FULL_BITS }
    }

    /// The sentinel quality -1.0.
    pub fn rejected() -> (r: Quality)
        ensures
            r.bits == REJECTED_BITS,
    {
        Quality { bits: REJECTED_BITS }
    }

    pub fn from_bits(bits: u64) -> (r: Quality)
        ensures
            r.bits == bits,
    {
        Quality { bits }
    }

    pub fn to_bits(&self) -> (r: u64)
        ensures
            r == self.bits,
    {
        self.bits
    }

    /// Whether this quality is strictly greater than zero.
    pub fn is_accepted(&self) -> (r: bool)
        ensures
            r == is_positive(self.bits),
    {
        0 < self.bits && self.bits <= INFINITY_BITS
    }
}

/// What a header item states about its token's quality.
#[derive(Clone, Debug, PartialEq, Eq)]
pub enum Weight {
    /// No `q` parameter: full preference.
    Unstated,
    /// The value of the first `q` parameter, trimmed, not yet read as a number.
    Stated(String),
}

impl View for Weight {
    type V = Option<Seq<char>>;

    open spec fn view(&self) -> Option<Seq<char>> {
        match self {
            Weight::Unstated => None,
            Weight::Stated(t) => Some(t@),
        }
    }
}

/// The quality that a weight gives, where `number` is what the stated text
/// reads as, if it reads as a binary64 number.
pub open spec fn weight_quality(w: Option<Seq<char>>, number: Option<u64>) -> u64 {
    match w {
        None => FULL_BITS,
        Some(_) => match number {
            Some(bits) => bits,
            None => REJECTED_BITS,
        },
    }
}

impl Weight {
    /// The quality of this weight: 1.0 where none is stated; else the number
    /// that the stated text reads as (`number`, its bits), or -1.0 where it
    /// reads as none.
    pub fn quality(&self, number: Option<u64>) -> (r: Quality)
        ensures
            r.bits == weight_quality(self@, number),
    {
        match self {
            Weight::Unstated => Quality::full(),
            Weight::Stated(_) => match number {
                Some(bits) => Quality::from_bits(bits),
                None => Quality::rejected(),
            },
        }
    }
}

} // verus!
