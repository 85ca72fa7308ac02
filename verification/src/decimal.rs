//! Exact decimal numbers, the value type of prices, quantities and query
//! results.

use vstd::prelude::*;

verus! {

/// Greatest number of fractional digits an input decimal may carry.
pub const MAX_SCALE: u32 = 12;

/// Greatest magnitude an input decimal mantissa may carry (`10^29`).
pub const MAX_MANTISSA: i128 = 100_000_000_000_000_000_000_000_000_000;

/// An exact decimal number, `mantissa / 10^scale`.
///
/// Two values are equal exactly when mantissa and scale both agree, so every
/// function states which scale its result carries.
#[derive(Debug, Clone, Copy, PartialEq, Eq, Structural)]
pub struct Dec {
    pub mantissa: i128,
    pub scale: u32,
}

impl Dec {
    /// A decimal the aggregation accepts: at most `MAX_SCALE` fractional
    /// digits and a mantissa of magnitude at most `MAX_MANTISSA`.
    pub open spec fn valid(self) -> bool {
        &&& -MAX_MANTISSA <= self.mantissa <= MAX_MANTISSA
        &&& self.scale <= MAX_SCALE
    }

    pub fn new(mantissa: i128, scale: u32) -> (r: Dec)
        ensures
            r.mantissa == mantissa,
            r.scale == scale,
    {
        Dec { mantissa, scale }
    }
}

} // verus!
