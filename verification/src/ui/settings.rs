//! The settings dialog.

use vstd::prelude::*;

use crate::config::Retention;

verus! {

/// The position of a retention in the list of choices.
pub open spec fn retention_position(r: Retention) -> int {
    match r {
        Retention::Days7 => 0,
        Retention::Days30 => 1,
        Retention::Months3 => 2,
        Retention::Months6 => 3,
        Retention::Year1 => 4,
        Retention::Unlimited => 5,
    }
}

/// The position of a retention in the list of choices.
pub fn retention_to_index(r: &Retention) -> (idx: u32)
    ensures
        idx == retention_position(*r),
{
    match r {
        Retention::Days7 => 0,
        Retention::Days30 => 1,
        Retention::Months3 => 2,
        Retention::Months6 => 3,
        Retention::Year1 => 4,
        Retention::Unlimited => 5,
    }
}

/// The retention at a position of the list of choices; beyond the list there is
/// no limit.
pub open spec fn retention_at(idx: int) -> Retention {
    if idx == 0 {
        Retention::Days7
    } else if idx == 1 {
        Retention::Days30
    } else if idx == 2 {
        Retention::Months3
    } else if idx == 3 {
        Retention::Months6
    } else if idx == 4 {
        Retention::Year1
    } else {
        Retention::Unlimited
    }
}

/// The retention at a position of the list of choices.
pub fn index_to_retention(idx: u32) -> (r: Retention)
    ensures
        r == retention_at(idx as int),
{
    match idx {
        0 => Retention::Days7,
        1 => Retention::Days30,
        2 => Retention::Months3,
        3 => Retention::Months6,
        4 => Retention::Year1,
        _ => Retention::Unlimited,
    }
}

/// Choosing the position that a retention has chooses that retention, and the
/// six positions are all different.
pub proof fn law_retention_position_round_trip(r: Retention, idx: int)
    ensures
        retention_at(retention_position(r)) == r,
        0 <= idx <= 5 ==> retention_position(retention_at(idx)) == idx,
{
}

} // verus!
