//! The fields of a printed summary, in the order in which they are shown.

use vstd::prelude::*;

verus! {

/// Number of fields.
pub const FIELD_COUNT: usize = 13;

/// One field of a printed summary.
#[derive(Clone, Copy, Debug, PartialEq, Eq)]
pub enum Field {
    Len,
    Sum,
    Min,
    Max,
    Avg,
    Std,
    Mode,
    ModeCount,
    P50,
    P75,
    P90,
    P95,
    P99,
}

impl Field {
    /// The place of the field in a row, counted from zero.
    pub open spec fn position(self) -> nat {
        match self {
            Field::Len => 0,
            Field::Sum => 1,
            Field::Min => 2,
            Field::Max => 3,
            Field::Avg => 4,
            Field::Std => 5,
            Field::Mode => 6,
            Field::ModeCount => 7,
            Field::P50 => 8,
            Field::P75 => 9,
            Field::P90 => 10,
            Field::P95 => 11,
            Field::P99 => 12,
        }
    }

    /// The short name under which the field is shown.
    pub open spec fn label(self) -> Seq<char> {
        match self {
            Field::Len => "len"@,
            Field::Sum => "sum"@,
            Field::Min => "min"@,
            Field::Max => "max"@,
            Field::Avg => "avg"@,
            Field::Std => "std"@,
            Field::Mode => "mode"@,
            Field::ModeCount => "mode#"@,
            Field::P50 => "p50"@,
            Field::P75 => "p75"@,
            Field::P90 => "p90"@,
            Field::P95 => "p95"@,
            Field::P99 => "p99"@,
        }
    }

    /// The place of the field in a row.
    pub fn index(self) -> (r: usize)
        ensures
            r == self.position(),
            r < FIELD_COUNT,
    {
        match self {
            Field::Len => 0,
            Field::Sum => 1,
            Field::Min => 2,
            Field::Max => 3,
            Field::Avg => 4,
            Field::Std => 5,
            Field::Mode => 6,
            Field::ModeCount => 7,
            Field::P50 => 8,
            Field::P75 => 9,
            Field::P90 => 10,
            Field::P95 => 11,
            Field::P99 => 12,
        }
    }

    /// The field at place `i` of a row, nothing where a row has no such
    /// place.
    pub fn from_index(i: usize) -> (r: Option<Field>)
        ensures
            i < FIELD_COUNT ==> r.is_some() && r.unwrap().position() == i,
            i >= FIELD_COUNT ==> r.is_none(),
    {
        match i {
            0 => Some(Field::Len),
            1 => Some(Field::Sum),
            2 => Some(Field::Min),
            3 => Some(Field::Max),
            4 => Some(Field::Avg),
            5 => Some(Field::Std),
            6 => Some(Field::Mode),
            7 => Some(Field::ModeCount),
            8 => Some(Field::P50),
            9 => Some(Field::P75),
            10 => Some(Field::P90),
            11 => Some(Field::P95),
            12 => Some(Field::P99),
            _ => None,
        }
    }

    /// The short name under which the field is shown.
    pub fn name(self) -> (r: &'static str)
        ensures
            r@ == self.label(),
    {
        match self {
            Field::Len => "len",
            Field::Sum => "sum",
            Field::Min => "min",
            Field::Max => "max",
            Field::Avg => "avg",
            Field::Std => "std",
            Field::Mode => "mode",
            Field::ModeCount => "mode#",
            Field::P50 => "p50",
            Field::P75 => "p75",
            Field::P90 => "p90",
            Field::P95 => "p95",
            Field::P99 => "p99",
        }
    }
}

/// No two fields share a place.
pub proof fn law_position_unique(a: Field, b: Field)
    requires
        a.position() == b.position(),
    ensures
        a == b,
{
}

} // verus!
