//! Fixed-point currency amounts with four decimal digits.

use vstd::prelude::*;

verus! {

/// Number of scaled units in one whole currency unit: four decimal digits.
pub const SCALE: i64 = 10000;

/// Whether `v` can be held as a scaled amount.
pub open spec fn fits(v: int) -> bool {
    i64::MIN <= v <= i64::MAX
}

/// A signed currency value, held exactly as a count of ten-thousandths.
///
/// Every `i64` is a valid amount; equality and order are those of the
/// scaled integer.
#[derive(Debug, Copy, Clone, PartialEq, Eq, Structural, Ord)]
pub struct Amount(pub i64);

impl Default for Amount {
    fn default() -> (r: Amount)
        ensures
            r.0 == 0,
    {
        Amount(0)
    }
}

impl PartialOrd for Amount {
    fn partial_cmp(&self, other: &Amount) -> (r: Option<core::cmp::Ordering>) {
        if self.0 < other.0 {
            Some(core::cmp::Ordering::Less)
        } else if self.0 > other.0 {
            Some(core::cmp::Ordering::Greater)
        } else {
            Some(core::cmp::Ordering::Equal)
        }
    }
}

impl vstd::std_specs::cmp::PartialOrdSpecImpl for Amount {
    open spec fn obeys_partial_cmp_spec() -> bool {
        true
    }

    open spec fn partial_cmp_spec(&self, other: &Amount) -> Option<core::cmp::Ordering> {
        if self.0 < other.0 {
            Some(core::cmp::Ordering::Less)
        } else if self.0 > other.0 {
            Some(core::cmp::Ordering::Greater)
        } else {
            Some(core::cmp::Ordering::Equal)
        }
    }
}

impl Amount {
    /// Exact sum, or `None` when it leaves the representable range.
    pub fn checked_add(self, rhs: Amount) -> (r: Option<Amount>)
        ensures
            r is Some <==> fits(self.0 + rhs.0),
            r matches Some(s) ==> s.0 == self.0 + rhs.0,
    {
        match self.0.checked_add(rhs.0) {
            None => None,
            Some(v) => Some(Amount(v)),
        }
    }

    /// Exact difference, or `None` when it leaves the representable range.
    pub fn checked_sub(self, rhs: Amount) -> (r: Option<Amount>)
        ensures
            r is Some <==> fits(self.0 - rhs.0),
            r matches Some(s) ==> s.0 == self.0 - rhs.0,
    {
        match self.0.checked_sub(rhs.0) {
            None => None,
            Some(v) => Some(Amount(v)),
        }
    }
}

} // verus!
