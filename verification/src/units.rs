use vstd::prelude::*;

verus! {

/// Units of measurement.
#[derive(Copy, Clone, Debug, PartialEq, Eq)]
pub enum Units {
    Nautical,
    Metric,
    Imperial,
}

/// Name of the distance unit of `u`.
pub open spec fn distance_unit_text(u: Units) -> Seq<char> {
    match u {
        Units::Nautical => seq!['M'],
        Units::Metric => seq!['k', 'm'],
        Units::Imperial => seq!['m', 'i'],
    }
}

/// Name of the speed unit of `u`.
pub open spec fn speed_unit_text(u: Units) -> Seq<char> {
    match u {
        Units::Nautical => seq!['k', 'n'],
        Units::Metric => seq!['k', 'm', '/', 'h'],
        Units::Imperial => seq!['m', 'p', 'h'],
    }
}

impl Units {
    /// Returns the distance unit name.
    pub fn distance_unit_name(&self) -> (name: String)
        ensures
            name@ == distance_unit_text(*self),
    {
        match *self {
            Units::Nautical => {
                proof { reveal_strlit("M"); }
                String::from_str("M")
            },
            Units::Metric => {
                proof { reveal_strlit("km"); }
                String::from_str("km")
            },
            Units::Imperial => {
                proof { reveal_strlit("mi"); }
                String::from_str("mi")
            },
        }
    }

    /// Returns the speed unit name.
    pub fn speed_unit_name(&self) -> (name: String)
        ensures
            name@ == speed_unit_text(*self),
    {
        match *self {
            Units::Nautical => {
                proof { reveal_strlit("kn"); }
                String::from_str("kn")
            },
            Units::Metric => {
                proof { reveal_strlit("km/h"); }
                String::from_str("km/h")
            },
            Units::Imperial => {
                proof { reveal_strlit("mph"); }
                String::from_str("mph")
            },
        }
    }

    /// Metres in one distance unit, as a fraction: numerator and denominator.
    /// A nautical mile is 1852 m, a kilometre 1000 m and a mile 1609.344 m;
    /// one unit per hour is this many metres per 3600 seconds.
    pub fn metres_per_unit(&self) -> (r: (u32, u32))
        ensures
            r == match *self {
                Units::Nautical => (1852u32, 1u32),
                Units::Metric => (1000u32, 1u32),
                Units::Imperial => (1609344u32, 1000u32),
            },
    {
        match *self {
            Units::Nautical => (1852, 1),
            Units::Metric => (1000, 1),
            Units::Imperial => (1609344, 1000),
        }
    }
}

} // verus!
