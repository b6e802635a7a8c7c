use vstd::prelude::*;

use crate::direction::{spec_direction4_id, Direction4};
use crate::file_reader::FileReader;
use crate::file_writer::FileWriter;
use crate::namespace::Namespace;

verus! {

/// What an entity is doing: standing still, or walking in a direction with
/// a progress count of 0 to 16 pixels.
#[derive(PartialEq, Eq, Structural, Clone, Copy, Debug)]
pub enum EntityActionState {
    Idle,
    Walking(Direction4, u8),
}

/// The symbolic categories of action state, in build order.
#[derive(PartialEq, Eq, Structural, Clone, Copy, Debug)]
pub enum EntityActionStateVariant {
    Idle,
    Walking,
}

/// The category of an action state.
pub open spec fn spec_entity_action_state_variant(s: EntityActionState) -> EntityActionStateVariant {
    match s {
        EntityActionState::Idle => EntityActionStateVariant::Idle,
        EntityActionState::Walking(_, _) => EntityActionStateVariant::Walking,
    }
}

/// The category's ordinal in this build, as written by the serializer.
pub open spec fn spec_entity_action_state_variant_id(v: EntityActionStateVariant) -> u8 {
    match v {
        EntityActionStateVariant::Idle => 0,
        EntityActionStateVariant::Walking => 1,
    }
}

/// The symbolic name under which the category is persisted.
pub open spec fn spec_entity_action_state_variant_name(v: EntityActionStateVariant) -> Seq<char> {
    match v {
        EntityActionStateVariant::Idle => "idle"@,
        EntityActionStateVariant::Walking => "walking"@,
    }
}

/// Every category, in build order.
pub open spec fn spec_all_entity_action_state_variants() -> Seq<EntityActionStateVariant> {
    seq![EntityActionStateVariant::Idle, EntityActionStateVariant::Walking]
}

/// The category whose symbolic name is `s`, if any.
pub open spec fn spec_entity_action_state_variant_from_name(s: Seq<char>) -> Option<
    EntityActionStateVariant,
> {
    if s == spec_entity_action_state_variant_name(EntityActionStateVariant::Idle) {
        Some(EntityActionStateVariant::Idle)
    } else if s == spec_entity_action_state_variant_name(EntityActionStateVariant::Walking) {
        Some(EntityActionStateVariant::Walking)
    } else {
        None
    }
}

/// The byte image of an action state: its category's build ordinal, and for
/// walking also the direction's build ordinal and the progress count.
pub open spec fn spec_entity_action_state_bytes(s: EntityActionState) -> Seq<u8> {
    match s {
        EntityActionState::Idle => seq![spec_entity_action_state_variant_id(
            EntityActionStateVariant::Idle,
        )],
        EntityActionState::Walking(direction, amount) => seq![
            spec_entity_action_state_variant_id(EntityActionStateVariant::Walking),
            spec_direction4_id(direction),
            amount,
        ],
    }
}

/// Reading an action state at `i` under namespace `ns` and format version
/// `version`. Legacy version-0 saves carry no walking direction; the
/// entity's facing direction, given by the caller, stands in for it. From
/// version one on, the serializer writes the direction byte, so the reader
/// consumes it.
pub open spec fn spec_parse_entity_action_state(
    data: Seq<u8>,
    i: int,
    ns: Namespace,
    version: u32,
    facing: Direction4,
) -> Option<(EntityActionState, int)> {
    if i < 0 || i >= data.len() {
        None
    } else if data[i] as int >= ns.entity_action_states@.len() {
        None
    } else {
        match ns.entity_action_states@[data[i] as int] {
            EntityActionStateVariant::Idle => Some((EntityActionState::Idle, i + 1)),
            EntityActionStateVariant::Walking => {
                if version < 1 {
                    if i + 2 <= data.len() {
                        Some((EntityActionState::Walking(facing, data[i + 1]), i + 2))
                    } else {
                        None
                    }
                } else {
                    if i + 3 <= data.len() && (data[i + 1] as int) < ns.direction_4s@.len() {
                        Some(
                            (
                                EntityActionState::Walking(
                                    ns.direction_4s@[data[i + 1] as int],
                                    data[i + 2],
                                ),
                                i + 3,
                            ),
                        )
                    } else {
                        None
                    }
                }
            },
        }
    }
}

impl EntityActionState {
    /// The category of this action state.
    pub fn variant(&self) -> (r: EntityActionStateVariant)
        ensures
            r == spec_entity_action_state_variant(*self),
    {
        match self {
            Self::Idle => EntityActionStateVariant::Idle,
            Self::Walking(_, _) => EntityActionStateVariant::Walking,
        }
    }

    pub fn serialize(&self, file: &mut FileWriter)
        ensures
            final(file).data@ == old(file).data@ + spec_entity_action_state_bytes(*self),
    {
        file.push_u8(self.variant().id());
        match self {
            Self::Idle => {},
            Self::Walking(moving_direction, amount) => {
                file.push_u8(moving_direction.id());
                file.push_u8(*amount);
            },
        }
        proof {
            assert(file.data@ =~= old(file).data@ + spec_entity_action_state_bytes(*self));
        }
    }

    pub fn deserialize(
        file: &mut FileReader,
        namespace: &Namespace,
        version: u32,
        facing: Direction4,
    ) -> (r: Option<EntityActionState>)
        ensures
            final(file).data == old(file).data,
            final(file).strings_v0 == old(file).strings_v0,
            match spec_parse_entity_action_state(
                old(file).data@,
                old(file).read_index as int,
                *namespace,
                version,
                facing,
            ) {
                Some((s, j)) => r == Some(s) && final(file).read_index == j,
                None => r is None,
            },
    {
        let id = match file.read_u8() {
            Ok(id) => id,
            Err(_) => {
                return None;
            },
        };
        let variant = match crate::util::vec_get(&namespace.entity_action_states, id as usize) {
            Some(v) => v,
            None => {
                return None;
            },
        };
        match variant {
            EntityActionStateVariant::Idle => Some(EntityActionState::Idle),
            EntityActionStateVariant::Walking => {
                let moving_direction = if version < 1 {
                    facing
                } else {
                    let dir_id = match file.read_u8() {
                        Ok(d) => d,
                        Err(_) => {
                            return None;
                        },
                    };
                    match crate::util::vec_get(&namespace.direction_4s, dir_id as usize) {
                        Some(d) => d,
                        None => {
                            return None;
                        },
                    }
                };
                let amount = match file.read_u8() {
                    Ok(a) => a,
                    Err(_) => {
                        return None;
                    },
                };
                Some(EntityActionState::Walking(moving_direction, amount))
            },
        }
    }
}

impl EntityActionStateVariant {
    /// The category's ordinal in this build.
    pub fn id(self) -> (r: u8)
        ensures
            r == spec_entity_action_state_variant_id(self),
    {
        match self {
            Self::Idle => 0,
            Self::Walking => 1,
        }
    }

    pub fn get_name_id(self) -> (r: &'static str)
        ensures
            r@ == spec_entity_action_state_variant_name(self),
    {
        match self {
            Self::Idle => "idle",
            Self::Walking => "walking",
        }
    }

    /// The category carrying the given symbolic name.
    pub fn from_name(name: &String) -> (r: Option<EntityActionStateVariant>)
        ensures
            r == spec_entity_action_state_variant_from_name(name@),
    {
        if crate::util::string_eq_lit(name, "idle") {
            Some(Self::Idle)
        } else if crate::util::string_eq_lit(name, "walking") {
            Some(Self::Walking)
        } else {
            None
        }
    }

    /// Every category, in build order.
    pub fn all_variants() -> (r: Vec<EntityActionStateVariant>)
        ensures
            r@ == spec_all_entity_action_state_variants(),
    {
        let mut out: Vec<EntityActionStateVariant> = Vec::new();
        out.push(Self::Idle);
        out.push(Self::Walking);
        proof {
            assert(out@ =~= spec_all_entity_action_state_variants());
        }
        out
    }
}

} // verus!
