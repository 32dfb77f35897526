//! Notification records.
//!
//! Successful operations return the notification they would publish; the
//! host environment forwards them to observers. They are observational
//! only and are never consumed back by the ledger.

use vstd::prelude::*;

verus! {

/// One notification record, mirroring the four events the ledger announces.
#[derive(Debug)]
pub enum Event {
    /// A shelter was registered under `shelter` with the given `name`.
    ShelterAdded { shelter: u64, name: String },
    /// The shelter registered under `shelter` was deactivated.
    ShelterRemoved { shelter: u64 },
    /// `donor` donated and `amount` (net of the fee) was credited to `shelter`.
    DonationMade { donor: u64, shelter: u64, amount: u64 },
    /// `amount` was paid out of custody to `shelter`.
    FundsWithdrawn { shelter: u64, amount: u64 },
}

} // verus!
