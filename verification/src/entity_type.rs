use vstd::prelude::*;

verus! {

/// The symbolic kinds of entity, in build order.
#[derive(PartialEq, Eq, Structural, Clone, Copy, Debug)]
pub enum EntityVariant {
    Player,
}

/// The kind's ordinal in this build, as written by the serializer.
pub open spec fn spec_entity_variant_id(v: EntityVariant) -> u8 {
    match v {
        EntityVariant::Player => 0,
    }
}

/// The symbolic name under which the kind is persisted.
pub open spec fn spec_entity_variant_name(v: EntityVariant) -> Seq<char> {
    match v {
        EntityVariant::Player => "player"@,
    }
}

/// Every kind, in build order.
pub open spec fn spec_all_entity_variants() -> Seq<EntityVariant> {
    seq![EntityVariant::Player]
}

/// The kind whose symbolic name is `s`, if any.
pub open spec fn spec_entity_variant_from_name(s: Seq<char>) -> Option<EntityVariant> {
    if s == spec_entity_variant_name(EntityVariant::Player) {
        Some(EntityVariant::Player)
    } else {
        None
    }
}

impl EntityVariant {
    /// The kind's ordinal in this build.
    pub fn id(self) -> (r: u8)
        ensures
            r == spec_entity_variant_id(self),
    {
        match self {
            Self::Player => 0,
        }
    }

    pub fn get_name_id(self) -> (r: &'static str)
        ensures
            r@ == spec_entity_variant_name(self),
    {
        match self {
            Self::Player => "player",
        }
    }

    /// The kind carrying the given symbolic name.
    pub fn from_name(name: &String) -> (r: Option<EntityVariant>)
        ensures
            r == spec_entity_variant_from_name(name@),
    {
        if crate::util::string_eq_lit(name, "player") {
            Some(Self::Player)
        } else {
            None
        }
    }

    /// Every kind, in build order.
    pub fn all_variants() -> (r: Vec<EntityVariant>)
        ensures
            r@ == spec_all_entity_variants(),
    {
        let mut out: Vec<EntityVariant> = Vec::new();
        out.push(Self::Player);
        proof {
            assert(out@ =~= spec_all_entity_variants());
        }
        out
    }

    /// The largest health a kind can have.
    pub fn max_health(self) -> (r: u32)
        ensures
            r == 100u32,
    {
        match self {
            Self::Player => 100,
        }
    }
}


/// What kind of entity a thing is, with its per-kind state; the player
/// carries an inventory, a selected slot and a respawn position.
pub enum EntityType {
    Player {
        inventory: crate::inventory::Inventory<50>,
        selected_item: u8,
        respawn_pos: [i64; 2],
        is_swaping_item: bool,
    },
}

/// The kind of an entity.
pub open spec fn spec_entity_type_variant(t: EntityType) -> EntityVariant {
    match t {
        EntityType::Player { .. } => EntityVariant::Player,
    }
}

/// The byte image of an entity's kind and per-kind state: the kind's build
/// ordinal, then for a player the inventory, the selected slot and the
/// respawn position. The transient item-swap flag is not persisted.
pub open spec fn spec_entity_type_bytes(t: EntityType) -> Seq<u8> {
    match t {
        EntityType::Player { inventory, selected_item, respawn_pos, .. } => seq![
            spec_entity_variant_id(EntityVariant::Player),
        ] + crate::inventory::spec_inventory_bytes(inventory.items@) + seq![selected_item]
            + crate::file_writer::spec_world_pos_bytes(respawn_pos[0], respawn_pos[1]),
    }
}

/// Reading an entity kind record at `i`: the id translated through the
/// namespace, then the player's inventory, selected slot, and - in saves of
/// version one and later - the respawn position, which older saves default
/// to the origin.
pub open spec fn spec_parse_entity_type(
    data: Seq<u8>,
    i: int,
    ns: crate::namespace::Namespace,
    version: u32,
) -> crate::parse::Parse<(Seq<(crate::item::Item, u8)>, u8, i64, i64)> {
    if i < 0 || i >= data.len() {
        crate::parse::Parse::Failed(crate::error::Error::OutOfBoundsFileRead)
    } else if data[i] as int >= ns.entities@.len() {
        crate::parse::Parse::Failed(crate::error::Error::IDOutOfNamespaceBounds)
    } else {
        match crate::inventory::spec_parse_inventory(data, i + 1, 50, ns) {
            crate::parse::Parse::Failed(e) => crate::parse::Parse::Failed(e),
            crate::parse::Parse::Found(slots, j) => if j + 1 <= data.len() {
                if version == 0 {
                    crate::parse::Parse::Found((slots, data[j], 0i64, 0i64), j + 1)
                } else if j + 17 <= data.len() {
                    crate::parse::Parse::Found(
                        (
                            slots,
                            data[j],
                            crate::file_reader::spec_i64_at(data, j + 1),
                            crate::file_reader::spec_i64_at(data, j + 9),
                        ),
                        j + 17,
                    )
                } else {
                    crate::parse::Parse::Failed(crate::error::Error::OutOfBoundsFileRead)
                }
            } else {
                crate::parse::Parse::Failed(crate::error::Error::OutOfBoundsFileRead)
            },
        }
    }
}

impl EntityType {
    /// The texture used to draw the entity.
    pub fn get_texture(&self) -> (r: crate::texture::Texture)
        ensures
            r == crate::texture::Texture::Player,
    {
        match self {
            Self::Player { .. } => crate::texture::Texture::Player,
        }
    }

    /// Append the kind's record to the file.
    pub fn serialize(&self, file: &mut crate::file_writer::FileWriter)
        ensures
            final(file).data@ == old(file).data@ + spec_entity_type_bytes(*self),
    {
        match self {
            Self::Player { inventory, selected_item, respawn_pos, is_swaping_item: _ } => {
                file.push_u8(EntityVariant::Player.id());
                inventory.serialize(file);
                file.push_u8(*selected_item);
                file.push_world_pos(*respawn_pos);
                proof {
                    assert(file.data@ =~= old(file).data@ + spec_entity_type_bytes(*self));
                }
            },
        }
    }

    /// Read an entity kind record at the cursor.
    pub fn deserialize(
        file: &mut crate::file_reader::FileReader,
        namespace: &crate::namespace::Namespace,
        version: u32,
        _difficulty: crate::difficulty::Difficulty,
    ) -> (r: Result<EntityType, crate::error::Error>)
        ensures
            final(file).data@ == old(file).data@,
            final(file).strings_v0@ == old(file).strings_v0@,
            match spec_parse_entity_type(
                old(file).data@,
                old(file).read_index as int,
                *namespace,
                version,
            ) {
                crate::parse::Parse::Found((slots, selected, rx, ry), j) => {
                    &&& r matches Ok(EntityType::Player { inventory, selected_item, respawn_pos, is_swaping_item })
                    &&& (r.unwrap() matches EntityType::Player {
                        inventory,
                        selected_item,
                        respawn_pos,
                        is_swaping_item,
                    } && inventory.items@ == slots && selected_item == selected && respawn_pos[0]
                        == rx && respawn_pos[1] == ry && is_swaping_item == false)
                    &&& final(file).read_index == j
                },
                crate::parse::Parse::Failed(e) => r == Result::<EntityType, crate::error::Error>::Err(
                    e,
                ),
            },
    {
        let id = match file.read_u8() {
            Ok(id) => id,
            Err(e) => {
                return Err(e);
            },
        };
        let variant = match crate::util::vec_get(&namespace.entities, id as usize) {
            Some(v) => v,
            None => {
                return Err(crate::error::Error::IDOutOfNamespaceBounds);
            },
        };
        match variant {
            EntityVariant::Player => {
                let inventory = match crate::inventory::Inventory::<50>::deserialize(
                    file,
                    namespace,
                    version,
                ) {
                    Ok(inv) => inv,
                    Err(e) => {
                        return Err(e);
                    },
                };
                let selected_item = match file.read_u8() {
                    Ok(s) => s,
                    Err(e) => {
                        return Err(e);
                    },
                };
                let respawn_pos: [i64; 2] = if version == 0 {
                    [0, 0]
                } else {
                    match file.read_world_pos() {
                        Ok(p) => p,
                        Err(e) => {
                            return Err(e);
                        },
                    }
                };
                Ok(
                    EntityType::Player {
                        inventory,
                        selected_item,
                        respawn_pos,
                        is_swaping_item: false,
                    },
                )
            },
        }
    }
}

} // verus!
