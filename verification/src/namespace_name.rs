use vstd::prelude::*;

use crate::error::Error;

verus! {

/// The category a namespace section belongs to.
#[derive(PartialEq, Eq, Structural, Clone, Copy, Debug)]
pub enum NamespaceName {
    Tile,
    Item,
    Entity,
    Direction4,
    EntityActionStates,
    Difficulty,
}

/// The category carrying the given section name, if any.
pub open spec fn spec_namespace_name_from(s: Seq<char>) -> Option<NamespaceName> {
    if s == "tile"@ {
        Some(NamespaceName::Tile)
    } else if s == "item"@ {
        Some(NamespaceName::Item)
    } else if s == "entity"@ {
        Some(NamespaceName::Entity)
    } else if s == "direction_4"@ {
        Some(NamespaceName::Direction4)
    } else if s == "entity_action_state"@ {
        Some(NamespaceName::EntityActionStates)
    } else if s == "difficulty"@ {
        Some(NamespaceName::Difficulty)
    } else {
        None
    }
}

impl NamespaceName {
    /// The category carrying the given section name; an unknown name is a
    /// namespace-id error.
    pub fn from_name(name: &String) -> (r: Result<NamespaceName, Error>)
        ensures
            match spec_namespace_name_from(name@) {
                Some(n) => r == Result::<NamespaceName, Error>::Ok(n),
                None => r == Result::<NamespaceName, Error>::Err(Error::IDOutOfNamespaceBounds),
            },
    {
        if crate::util::string_eq_lit(name, "tile") {
            Ok(Self::Tile)
        } else if crate::util::string_eq_lit(name, "item") {
            Ok(Self::Item)
        } else if crate::util::string_eq_lit(name, "entity") {
            Ok(Self::Entity)
        } else if crate::util::string_eq_lit(name, "direction_4") {
            Ok(Self::Direction4)
        } else if crate::util::string_eq_lit(name, "entity_action_state") {
            Ok(Self::EntityActionStates)
        } else if crate::util::string_eq_lit(name, "difficulty") {
            Ok(Self::Difficulty)
        } else {
            Err(Error::IDOutOfNamespaceBounds)
        }
    }
}

} // verus!
