//! The calendar and clock units that a designator label can stand for.

use vstd::prelude::*;

verus! {

/// A calendar or clock unit, from years down to nanoseconds.
#[derive(Clone, Copy, Debug, PartialEq, Eq, Hash, Structural)]
pub enum Unit {
    Year,
    Month,
    Week,
    Day,
    Hour,
    Minute,
    Second,
    Millisecond,
    Microsecond,
    Nanosecond,
}

impl Unit {
    /// The identifier of the unit as it is written in Rust source.
    pub open spec fn name_text(self) -> Seq<char> {
        match self {
            Unit::Year => "Year"@,
            Unit::Month => "Month"@,
            Unit::Week => "Week"@,
            Unit::Day => "Day"@,
            Unit::Hour => "Hour"@,
            Unit::Minute => "Minute"@,
            Unit::Second => "Second"@,
            Unit::Millisecond => "Millisecond"@,
            Unit::Microsecond => "Microsecond"@,
            Unit::Nanosecond => "Nanosecond"@,
        }
    }

    /// The identifier of the unit, as `jiff` prints it.
    pub fn name(self) -> (name: String)
        ensures
            name@ == self.name_text(),
    {
        debug_name(self)
    }
}

/// Formats the `jiff::Unit` of the same name with its `Debug` impl.
///
/// `jiff` derives `Debug` for its field-less `Unit` enum, so the output is
/// the variant's identifier; the contract claims exactly that.
#[verifier::external_body]
fn debug_name(unit: Unit) -> (name: String)
    ensures
        name@ == unit.name_text(),
{
    let outside = match unit {
        Unit::Year => jiff::Unit::Year,
        Unit::Month => jiff::Unit::Month,
        Unit::Week => jiff::Unit::Week,
        Unit::Day => jiff::Unit::Day,
        Unit::Hour => jiff::Unit::Hour,
        Unit::Minute => jiff::Unit::Minute,
        Unit::Second => jiff::Unit::Second,
        Unit::Millisecond => jiff::Unit::Millisecond,
        Unit::Microsecond => jiff::Unit::Microsecond,
        Unit::Nanosecond => jiff::Unit::Nanosecond,
    };
    format!("{:?}", outside)
}

} // verus!
