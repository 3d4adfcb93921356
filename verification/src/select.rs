//! Chain selection between competing verified tips.
//!
//! The comparison is a strict order with explicit ties: a tip with a
//! greater slot number wins; at equal slot numbers the tip whose chain
//! carries more primary claims since the fork point wins; tips equal on
//! both counts are incomparable, and the caller keeps all of them until a
//! later block extends one.

use vstd::prelude::*;

verus! {

/// The outcome of comparing two tips.
#[derive(Clone, Copy, Debug, PartialEq, Eq, Structural)]
pub enum Selection {
    Greater,
    Less,
    Incomparable,
}

/// A verified chain tip, reduced to what the fork-choice rule reads: its
/// slot number and the count of primary claims since the fork point.
#[derive(Clone, Copy, Debug, PartialEq, Eq, Structural)]
pub struct ChainTip {
    pub slot: u64,
    pub primary_count: u64,
}

/// The fork-choice rule.
pub open spec fn spec_select(a: ChainTip, b: ChainTip) -> Selection {
    if a.slot > b.slot {
        Selection::Greater
    } else if a.slot < b.slot {
        Selection::Less
    } else if a.primary_count > b.primary_count {
        Selection::Greater
    } else if a.primary_count < b.primary_count {
        Selection::Less
    } else {
        Selection::Incomparable
    }
}

/// Compares two tips under the fork-choice rule.
pub fn select(a: &ChainTip, b: &ChainTip) -> (r: Selection)
    ensures
        r == spec_select(*a, *b),
        r == Selection::Incomparable <==> (a.slot == b.slot && a.primary_count
            == b.primary_count),
        r == Selection::Greater <==> spec_select(*b, *a) == Selection::Less,
{
    if a.slot > b.slot {
        Selection::Greater
    } else if a.slot < b.slot {
        Selection::Less
    } else if a.primary_count > b.primary_count {
        Selection::Greater
    } else if a.primary_count < b.primary_count {
        Selection::Less
    } else {
        Selection::Incomparable
    }
}

} // verus!
