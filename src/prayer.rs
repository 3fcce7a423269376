//! The six canonical prayers, in their daily cyclic order.
use vstd::prelude::*;

verus! {

/// A prayer label; the day runs Fajr, Sherook, Dohr, Asr, Maghreb, Ishaa and back to Fajr.
#[derive(Debug, Clone, Copy, PartialEq, Eq, Structural)]
pub enum Prayer {
    Fajr,
    Sherook,
    Dohr,
    Asr,
    Maghreb,
    Ishaa,
}

/// The prayer that follows `p` in the daily cycle.
pub open spec fn successor(p: Prayer) -> Prayer {
    match p {
        Prayer::Fajr => Prayer::Sherook,
        Prayer::Sherook => Prayer::Dohr,
        Prayer::Dohr => Prayer::Asr,
        Prayer::Asr => Prayer::Maghreb,
        Prayer::Maghreb => Prayer::Ishaa,
        Prayer::Ishaa => Prayer::Fajr,
    }
}

impl Prayer {
    /// The prayer that follows this one in the daily cycle.
    pub fn successor(self) -> (r: Prayer)
        ensures
            r == successor(self),
    {
        match self {
            Prayer::Fajr => Prayer::Sherook,
            Prayer::Sherook => Prayer::Dohr,
            Prayer::Dohr => Prayer::Asr,
            Prayer::Asr => Prayer::Maghreb,
            Prayer::Maghreb => Prayer::Ishaa,
            Prayer::Ishaa => Prayer::Fajr,
        }
    }
}

} // verus!
