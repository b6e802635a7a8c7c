use vstd::prelude::*;

verus! {

/// How forgiving a world is; sandbox mode disables item consumption.
#[derive(PartialEq, Eq, Structural, Clone, Copy, Debug)]
pub enum Difficulty {
    Sandbox,
    Easy,
    Medium,
    Hard,
}

/// The symbolic name under which the difficulty is persisted.
pub open spec fn spec_difficulty_name(v: Difficulty) -> Seq<char> {
    match v {
        Difficulty::Sandbox => "sandbox"@,
        Difficulty::Easy => "easy"@,
        Difficulty::Medium => "medium"@,
        Difficulty::Hard => "hard"@,
    }
}

/// The difficulty's ordinal in this build, as written by the serializer.
pub open spec fn spec_difficulty_id(v: Difficulty) -> u8 {
    match v {
        Difficulty::Sandbox => 0,
        Difficulty::Easy => 1,
        Difficulty::Medium => 2,
        Difficulty::Hard => 3,
    }
}

/// Every difficulty, in build order.
pub open spec fn spec_all_difficulties() -> Seq<Difficulty> {
    seq![Difficulty::Sandbox, Difficulty::Easy, Difficulty::Medium, Difficulty::Hard]
}

/// The difficulty whose symbolic name is `s`, if any.
pub open spec fn spec_difficulty_from_name(s: Seq<char>) -> Option<Difficulty> {
    if s == spec_difficulty_name(Difficulty::Sandbox) {
        Some(Difficulty::Sandbox)
    } else if s == spec_difficulty_name(Difficulty::Easy) {
        Some(Difficulty::Easy)
    } else if s == spec_difficulty_name(Difficulty::Medium) {
        Some(Difficulty::Medium)
    } else if s == spec_difficulty_name(Difficulty::Hard) {
        Some(Difficulty::Hard)
    } else {
        None
    }
}

impl Difficulty {
    pub fn get_name_id(self) -> (r: &'static str)
        ensures
            r@ == spec_difficulty_name(self),
    {
        match self {
            Self::Sandbox => "sandbox",
            Self::Easy => "easy",
            Self::Medium => "medium",
            Self::Hard => "hard",
        }
    }

    /// The difficulty's ordinal in this build.
    pub fn id(self) -> (r: u8)
        ensures
            r == spec_difficulty_id(self),
    {
        match self {
            Self::Sandbox => 0,
            Self::Easy => 1,
            Self::Medium => 2,
            Self::Hard => 3,
        }
    }

    /// The difficulty carrying the given symbolic name.
    pub fn from_name(name: &String) -> (r: Option<Difficulty>)
        ensures
            r == spec_difficulty_from_name(name@),
    {
        if crate::util::string_eq_lit(name, "sandbox") {
            Some(Self::Sandbox)
        } else if crate::util::string_eq_lit(name, "easy") {
            Some(Self::Easy)
        } else if crate::util::string_eq_lit(name, "medium") {
            Some(Self::Medium)
        } else if crate::util::string_eq_lit(name, "hard") {
            Some(Self::Hard)
        } else {
            None
        }
    }

    /// Every difficulty, in build order.
    pub fn all_variants() -> (r: Vec<Difficulty>)
        ensures
            r@ == spec_all_difficulties(),
    {
        let mut out: Vec<Difficulty> = Vec::new();
        out.push(Self::Sandbox);
        out.push(Self::Easy);
        out.push(Self::Medium);
        out.push(Self::Hard);
        proof {
            assert(out@ =~= spec_all_difficulties());
        }
        out
    }
}

} // verus!
