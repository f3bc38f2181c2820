//! Prices as the oracle collaborator hands them in, and the choice between
//! the two sources of a reserve.

use vstd::prelude::*;
use crate::decimal::Decimal;
use crate::error::LendingError;

verus! {

/// One observation of a price.
#[derive(Clone, Copy, Debug)]
pub struct OraclePrice {
    /// Price of one whole token in the quote currency.
    pub price: Decimal,
    /// Width of the interval around the price that the source vouches for,
    /// in the source's own units. It is recorded, not judged.
    pub confidence: u64,
    /// Slot in which the source published the price.
    pub published_slot: u64,
}

impl OraclePrice {
    /// Whether the price was published at or before `slot`, and no more than
    /// `max_age` slots before it.
    pub open spec fn spec_in_window(self, slot: u64, max_age: u64) -> bool {
        self.published_slot <= slot && slot - self.published_slot <= max_age
    }

    /// Whether the price is in the window and not zero.
    pub open spec fn spec_usable(self, slot: u64, max_age: u64) -> bool {
        self.spec_in_window(slot, max_age) && self.price@ > 0
    }

    /// Whether the price was published at or before `slot`, and no more than
    /// `max_age` slots before it.
    pub fn in_window(&self, slot: u64, max_age: u64) -> (r: bool)
        ensures
            r == self.spec_in_window(slot, max_age),
    {
        self.published_slot <= slot && slot - self.published_slot <= max_age
    }

    /// Whether the price is in the window and not zero.
    pub fn usable(&self, slot: u64, max_age: u64) -> (r: bool)
        ensures
            r == self.spec_usable(slot, max_age),
    {
        self.in_window(slot, max_age) && !self.price.is_zero()
    }
}

/// The scaled price to value a reserve with at `slot`.
///
/// The primary source decides while its price is in the window: the price is
/// taken, and a price of zero is `InvalidOracleConfig`. When the primary price
/// is outside the window, a usable secondary price stands in for it; without
/// one the refusal is `StalePrice`.
pub open spec fn spec_select_price(
    primary: OraclePrice,
    secondary: Option<OraclePrice>,
    slot: u64,
    max_age: u64,
) -> Result<nat, LendingError> {
    if primary.spec_in_window(slot, max_age) {
        if primary.price@ > 0 {
            Ok(primary.price@)
        } else {
            Err(LendingError::InvalidOracleConfig)
        }
    } else {
        match secondary {
            Some(second) if second.spec_usable(slot, max_age) => Ok(second.price@),
            _ => Err(LendingError::StalePrice),
        }
    }
}

/// The price to value a reserve with at `slot`, from its two sources.
pub fn select_price(
    primary: &OraclePrice,
    secondary: &Option<OraclePrice>,
    slot: u64,
    max_age: u64,
) -> (r: Result<Decimal, LendingError>)
    ensures
        match spec_select_price(*primary, *secondary, slot, max_age) {
            Ok(price) => r matches Ok(x) && x@ == price && price > 0,
            Err(e) => r matches Err(x) && x == e,
        },
{
    if primary.in_window(slot, max_age) {
        if primary.price.is_zero() {
            Err(LendingError::InvalidOracleConfig)
        } else {
            Ok(primary.price)
        }
    } else {
        match secondary {
            Some(second) => {
                if second.usable(slot, max_age) {
                    Ok(second.price)
                } else {
                    Err(LendingError::StalePrice)
                }
            },
            None => Err(LendingError::StalePrice),
        }
    }
}

} // verus!
