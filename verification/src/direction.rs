use vstd::prelude::*;

verus! {

/// A cardinal direction of movement on the tile grid.
#[derive(PartialEq, Eq, Structural, Clone, Copy, Debug)]
pub enum Direction4 {
    North,
    East,
    South,
    West,
}

/// The symbolic name under which the direction is persisted.
pub open spec fn spec_direction4_name(v: Direction4) -> Seq<char> {
    match v {
        Direction4::North => "north"@,
        Direction4::East => "east"@,
        Direction4::South => "south"@,
        Direction4::West => "west"@,
    }
}

/// The direction's ordinal in this build, as written by the serializer.
pub open spec fn spec_direction4_id(v: Direction4) -> u8 {
    match v {
        Direction4::North => 0,
        Direction4::East => 1,
        Direction4::South => 2,
        Direction4::West => 3,
    }
}

/// Every direction, in build order.
pub open spec fn spec_all_direction4s() -> Seq<Direction4> {
    seq![Direction4::North, Direction4::East, Direction4::South, Direction4::West]
}

/// The direction whose symbolic name is `s`, if any.
pub open spec fn spec_direction4_from_name(s: Seq<char>) -> Option<Direction4> {
    if s == spec_direction4_name(Direction4::North) {
        Some(Direction4::North)
    } else if s == spec_direction4_name(Direction4::East) {
        Some(Direction4::East)
    } else if s == spec_direction4_name(Direction4::South) {
        Some(Direction4::South)
    } else if s == spec_direction4_name(Direction4::West) {
        Some(Direction4::West)
    } else {
        None
    }
}

impl Direction4 {
    pub fn get_name_id(self) -> (r: &'static str)
        ensures
            r@ == spec_direction4_name(self),
    {
        match self {
            Self::North => "north",
            Self::East => "east",
            Self::South => "south",
            Self::West => "west",
        }
    }

    /// The direction's ordinal in this build.
    pub fn id(self) -> (r: u8)
        ensures
            r == spec_direction4_id(self),
    {
        match self {
            Self::North => 0,
            Self::East => 1,
            Self::South => 2,
            Self::West => 3,
        }
    }

    /// The direction carrying the given symbolic name.
    pub fn from_name(name: &String) -> (r: Option<Direction4>)
        ensures
            r == spec_direction4_from_name(name@),
    {
        if crate::util::string_eq_lit(name, "north") {
            Some(Self::North)
        } else if crate::util::string_eq_lit(name, "east") {
            Some(Self::East)
        } else if crate::util::string_eq_lit(name, "south") {
            Some(Self::South)
        } else if crate::util::string_eq_lit(name, "west") {
            Some(Self::West)
        } else {
            None
        }
    }

    /// Every direction, in build order.
    pub fn all_variants() -> (r: Vec<Direction4>)
        ensures
            r@ == spec_all_direction4s(),
    {
        let mut out: Vec<Direction4> = Vec::new();
        out.push(Self::North);
        out.push(Self::East);
        out.push(Self::South);
        out.push(Self::West);
        proof {
            assert(out@ =~= spec_all_direction4s());
        }
        out
    }
}

} // verus!
