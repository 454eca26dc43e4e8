//! The eight-way compass direction mapping and the resampling filter choices.

use vstd::prelude::*;

verus! {

/// The eight compass directions a DMI state can face, in the stable order the
/// format stores them (South first, ordinals 0 through 7).
#[derive(Debug, Clone, Copy, Hash, PartialEq, Eq, PartialOrd, Ord, Structural)]
pub enum Directions {
    South,
    North,
    East,
    West,
    SouthEast,
    SouthWest,
    NorthEast,
    NorthWest,
}

/// The direction a numeric ordinal denotes; ordinals eight and above fall
/// back to South, as the source format reserves only 0 through 7.
pub open spec fn spec_direction_of(value: u8) -> Directions {
    if value == 0 {
        Directions::South
    } else if value == 1 {
        Directions::North
    } else if value == 2 {
        Directions::East
    } else if value == 3 {
        Directions::West
    } else if value == 4 {
        Directions::SouthEast
    } else if value == 5 {
        Directions::SouthWest
    } else if value == 6 {
        Directions::NorthEast
    } else if value == 7 {
        Directions::NorthWest
    } else {
        Directions::South
    }
}

/// The numeric ordinal of a direction.
pub open spec fn spec_direction_index(d: Directions) -> u8 {
    match d {
        Directions::South => 0,
        Directions::North => 1,
        Directions::East => 2,
        Directions::West => 3,
        Directions::SouthEast => 4,
        Directions::SouthWest => 5,
        Directions::NorthEast => 6,
        Directions::NorthWest => 7,
    }
}

/// Every ordinal below eight maps to a direction and back to itself
/// unchanged.
pub proof fn lemma_direction_round_trip(value: u8)
    requires
        value < 8,
    ensures
        spec_direction_index(spec_direction_of(value)) == value,
{
}

/// Every direction maps to its ordinal and back to itself unchanged.
pub proof fn lemma_direction_index_round_trip(d: Directions)
    ensures
        spec_direction_of(spec_direction_index(d)) == d,
{
}

impl From<u8> for Directions {
    fn from(value: u8) -> (r: Self) {
        match value {
            0 => Directions::South,
            1 => Directions::North,
            2 => Directions::East,
            3 => Directions::West,
            4 => Directions::SouthEast,
            5 => Directions::SouthWest,
            6 => Directions::NorthEast,
            7 => Directions::NorthWest,
            _ => Directions::South,
        }
    }
}

impl vstd::std_specs::convert::FromSpecImpl<u8> for Directions {
    open spec fn obeys_from_spec() -> bool {
        true
    }

    open spec fn from_spec(v: u8) -> Self {
        spec_direction_of(v)
    }
}

impl From<Directions> for u8 {
    fn from(value: Directions) -> (r: u8) {
        match value {
            Directions::South => 0,
            Directions::North => 1,
            Directions::East => 2,
            Directions::West => 3,
            Directions::SouthEast => 4,
            Directions::SouthWest => 5,
            Directions::NorthEast => 6,
            Directions::NorthWest => 7,
        }
    }
}

impl vstd::std_specs::convert::FromSpecImpl<Directions> for u8 {
    open spec fn obeys_from_spec() -> bool {
        true
    }

    open spec fn from_spec(v: Directions) -> Self {
        spec_direction_index(v)
    }
}

/// The text a direction displays as.
pub open spec fn spec_direction_name(d: Directions) -> Seq<char> {
    match d {
        Directions::South => "South"@,
        Directions::North => "North"@,
        Directions::East => "East"@,
        Directions::West => "West"@,
        Directions::SouthEast => "SouthEast"@,
        Directions::SouthWest => "SouthWest"@,
        Directions::NorthEast => "NorthEast"@,
        Directions::NorthWest => "NorthWest"@,
    }
}

impl Directions {
    /// The name shown for this direction.
    pub fn display_name(&self) -> (r: String)
        ensures
            r@ == spec_direction_name(*self),
    {
        match self {
            Directions::South => "South".to_owned(),
            Directions::North => "North".to_owned(),
            Directions::East => "East".to_owned(),
            Directions::West => "West".to_owned(),
            Directions::SouthEast => "SouthEast".to_owned(),
            Directions::SouthWest => "SouthWest".to_owned(),
            Directions::NorthEast => "NorthEast".to_owned(),
            Directions::NorthWest => "NorthWest".to_owned(),
        }
    }
}

/// The resampling filters a resize may use.
#[derive(Debug, Clone, Copy, PartialEq, Eq, Structural)]
pub enum CustomFilterType {
    /// Nearest Neighbor
    Nearest,
    /// Linear Filter
    Triangle,
    /// Cubic Filter
    CatmullRom,
    /// Gaussian Filter
    Gaussian,
    /// Lanczos with window 3
    Lanczos3,
}

impl Default for CustomFilterType {
    fn default() -> (r: Self)
        ensures
            r == CustomFilterType::Nearest,
    {
        CustomFilterType::Nearest
    }
}

/// A stable numeric code for each filter, used to index the resampler's
/// abstract result.
pub open spec fn filter_code(f: CustomFilterType) -> u8 {
    match f {
        CustomFilterType::Nearest => 0,
        CustomFilterType::Triangle => 1,
        CustomFilterType::CatmullRom => 2,
        CustomFilterType::Gaussian => 3,
        CustomFilterType::Lanczos3 => 4,
    }
}

/// The text a filter choice displays as.
pub open spec fn spec_filter_name(f: CustomFilterType) -> Seq<char> {
    match f {
        CustomFilterType::Nearest => "Nearest Neighbor"@,
        CustomFilterType::Triangle => "Linear Filter"@,
        CustomFilterType::CatmullRom => "Cubic Filter"@,
        CustomFilterType::Gaussian => "Gaussian Filter"@,
        CustomFilterType::Lanczos3 => "Lanczos with window 3"@,
    }
}

impl CustomFilterType {
    /// The name shown for this filter.
    pub fn display_name(&self) -> (r: String)
        ensures
            r@ == spec_filter_name(*self),
    {
        match self {
            CustomFilterType::Nearest => "Nearest Neighbor".to_owned(),
            CustomFilterType::Triangle => "Linear Filter".to_owned(),
            CustomFilterType::CatmullRom => "Cubic Filter".to_owned(),
            CustomFilterType::Gaussian => "Gaussian Filter".to_owned(),
            CustomFilterType::Lanczos3 => "Lanczos with window 3".to_owned(),
        }
    }
}

} // verus!
