use vstd::prelude::*;

use crate::difficulty::Difficulty;
use crate::direction::Direction4;
use crate::entity_action_state::{
    spec_entity_action_state_bytes, spec_parse_entity_action_state, EntityActionState,
};
use crate::entity_type::{
    spec_entity_type_bytes, spec_parse_entity_type, EntityType,
};
use crate::error::Error;
use crate::file_reader::{spec_i64_at, FileReader};
use crate::file_writer::{spec_world_pos_bytes, FileWriter};
use crate::inventory::Inventory;
use crate::item::Item;
use crate::namespace::Namespace;
use crate::parse::Parse;
use crate::tile::Tile;

verus! {

/// A world object that moves from tile to tile: its position, the way it
/// faces, what it is doing, what kind it is, and its health.
pub struct Entity {
    pub pos: [i64; 2],
    pub facing: Direction4,
    pub action_state: EntityActionState,
    pub entity_type: EntityType,
    pub health: u32,
}

/// A walking entity's progress count stays within one tile of sixteen
/// pixels.
pub open spec fn spec_entity_wf(e: Entity) -> bool {
    match e.action_state {
        EntityActionState::Walking(_, amount) => amount <= 16,
        EntityActionState::Idle => true,
    }
}

/// The byte image of an entity: position, facing ordinal, action state,
/// kind with its state, then health.
pub open spec fn spec_entity_bytes(e: Entity) -> Seq<u8> {
    spec_world_pos_bytes(e.pos[0], e.pos[1]) + seq![
        crate::direction::spec_direction4_id(e.facing),
    ] + spec_entity_action_state_bytes(e.action_state) + spec_entity_type_bytes(e.entity_type)
        + vstd::bytes::spec_u32_to_le_bytes(e.health)
}

impl Entity {
    /// How many pixels the entity is offset from its tile while walking.
    pub fn get_subtile_pos(&self) -> (r: [i8; 2])
        requires
            spec_entity_wf(*self),
        ensures
            match self.action_state {
                EntityActionState::Idle => r[0] == 0 && r[1] == 0,
                EntityActionState::Walking(direction, amount) => match direction {
                    Direction4::North => r[0] == 0 && r[1] == -(amount as int),
                    Direction4::East => r[0] == amount as int && r[1] == 0,
                    Direction4::South => r[0] == 0 && r[1] == amount as int,
                    Direction4::West => r[0] == -(amount as int) && r[1] == 0,
                },
            },
    {
        match self.action_state {
            EntityActionState::Idle => [0, 0],
            EntityActionState::Walking(walking_direction, walked_amount) => match walking_direction {
                Direction4::North => [0, -(walked_amount as i8)],
                Direction4::East => [walked_amount as i8, 0],
                Direction4::South => [0, walked_amount as i8],
                Direction4::West => [-(walked_amount as i8), 0],
            },
        }
    }

    /// The position of the tile directly in front of the entity.
    pub fn get_pos_in_front(&self) -> (r: [i64; 2])
        requires
            -0x7fffffffffffffff < self.pos[0] < 0x7fffffffffffffff,
            -0x7fffffffffffffff < self.pos[1] < 0x7fffffffffffffff,
        ensures
            match self.facing {
                Direction4::North => r[0] == self.pos[0] && r[1] == self.pos[1] - 1,
                Direction4::East => r[0] == self.pos[0] + 1 && r[1] == self.pos[1],
                Direction4::South => r[0] == self.pos[0] && r[1] == self.pos[1] + 1,
                Direction4::West => r[0] == self.pos[0] - 1 && r[1] == self.pos[1],
            },
    {
        self.get_pos_in_direction(self.facing)
    }

    /// The position of the tile one step in the given direction.
    pub fn get_pos_in_direction(&self, direction: Direction4) -> (r: [i64; 2])
        requires
            -0x7fffffffffffffff < self.pos[0] < 0x7fffffffffffffff,
            -0x7fffffffffffffff < self.pos[1] < 0x7fffffffffffffff,
        ensures
            match direction {
                Direction4::North => r[0] == self.pos[0] && r[1] == self.pos[1] - 1,
                Direction4::East => r[0] == self.pos[0] + 1 && r[1] == self.pos[1],
                Direction4::South => r[0] == self.pos[0] && r[1] == self.pos[1] + 1,
                Direction4::West => r[0] == self.pos[0] - 1 && r[1] == self.pos[1],
            },
    {
        let pos = self.pos;
        match direction {
            Direction4::North => [pos[0], pos[1] - 1],
            Direction4::East => [pos[0] + 1, pos[1]],
            Direction4::South => [pos[0], pos[1] + 1],
            Direction4::West => [pos[0] - 1, pos[1]],
        }
    }

    /// A new player at the origin: idle, facing south, at full health. In
    /// sandbox worlds the first slots carry one of each creative tool and
    /// placeable tile; other worlds start with nothing.
    pub fn new_player(difficulty: Difficulty) -> (r: Entity)
        ensures
            r.pos[0] == 0 && r.pos[1] == 0,
            r.action_state == EntityActionState::Idle,
            r.facing == Direction4::South,
            r.health == 100,
            spec_entity_wf(r),
            r.entity_type matches EntityType::Player { inventory, selected_item, respawn_pos, .. }
                && inventory.wf() && selected_item == 0 && respawn_pos[0] == 0 && respawn_pos[1]
                == 0 && (difficulty == Difficulty::Sandbox ==> inventory.items@[0] == (
            Item::SandboxDestroyWand,
            1u8,
            ) && inventory.items@[12] == (Item::Axe, 1u8) && inventory.items@[13] == (
            Item::Shovel,
            1u8,
            )) && (difficulty != Difficulty::Sandbox ==> forall|k: int|
                0 <= k < 50 ==> (#[trigger] inventory.items@[k]).0 matches Item::Empty),
    {
        let mut inventory = Inventory::<50>::new();
        if matches!(difficulty, Difficulty::Sandbox) {
            inventory.items[0] = (Item::SandboxDestroyWand, 1);
            inventory.items[1] = (Item::Tile(Tile::Grass), 1);
            inventory.items[2] = (Item::Tile(Tile::Gravel), 1);
            inventory.items[3] = (Item::Tile(Tile::Sand), 1);
            inventory.items[4] = (Item::Tile(Tile::BlackSand), 1);
            inventory.items[5] = (Item::Tile(Tile::Rocks), 1);
            inventory.items[6] = (Item::Tile(Tile::OakTree), 1);
            inventory.items[7] = (Item::Tile(Tile::PineTree), 1);
            inventory.items[8] = (Item::Tile(Tile::Flowers), 1);
            inventory.items[9] = (Item::Tile(Tile::FlowersRedYellow), 1);
            inventory.items[10] = (Item::Tile(Tile::Water), 1);
            inventory.items[11] = (Item::Tile(Tile::Path), 1);
            inventory.items[12] = (Item::Axe, 1);
            inventory.items[13] = (Item::Shovel, 1);
        }
        Entity {
            pos: [0, 0],
            action_state: EntityActionState::Idle,
            facing: Direction4::South,
            entity_type: EntityType::Player {
                inventory,
                selected_item: 0,
                respawn_pos: [0, 0],
                is_swaping_item: false,
            },
            health: 100,
        }
    }


    /// One tick of the entity: a walking entity advances one pixel, and on
    /// reaching the far edge of its tile it arrives — provided the chunk
    /// under it is loaded — stepping onto the stack there, which drains any
    /// dropped items into its inventory. While the chunk is still
    /// streaming, the entity waits at the edge.
    pub fn tick(&mut self, chunks: &mut crate::chunk_pool::ChunkPool)
        requires
            old(chunks).wf(),
            spec_entity_wf(*old(self)),
            -0x7fffffffffffffff < old(self).pos[0] < 0x7fffffffffffffff,
            -0x7fffffffffffffff < old(self).pos[1] < 0x7fffffffffffffff,
            (old(self).entity_type matches EntityType::Player { inventory, .. }
                && inventory.wf()),
        ensures
            final(chunks).wf(),
            spec_entity_wf(*final(self)),
            match old(self).action_state {
                EntityActionState::Idle => *final(self) == *old(self)
                    && final(chunks).spec_same_state(*old(chunks)),
                EntityActionState::Walking(d, a) => {
                    let a2 = if a < 16 {
                        (a + 1) as u8
                    } else {
                        a
                    };
                    if a2 > 15 {
                        match crate::chunk_pool::spec_find_pos(
                            old(chunks).entries@,
                            crate::chunk_pool::spec_chunk_coord(old(self).pos[0]),
                            crate::chunk_pool::spec_chunk_coord(old(self).pos[1]),
                        ) {
                            Some(i) => match old(chunks).entries@[i].slot {
                                crate::chunk_slot::ChunkSlot::Chunk(c) => {
                                    &&& final(self).action_state == EntityActionState::Idle
                                    &&& final(self).facing == old(self).facing
                                    &&& final(self).health == old(self).health
                                    &&& (match d {
                                        crate::direction::Direction4::North => final(self).pos[0]
                                            == old(self).pos[0] && final(self).pos[1] == old(
                                            self,
                                        ).pos[1] - 1,
                                        crate::direction::Direction4::East => final(self).pos[0]
                                            == old(self).pos[0] + 1 && final(self).pos[1] == old(
                                            self,
                                        ).pos[1],
                                        crate::direction::Direction4::South => final(self).pos[0]
                                            == old(self).pos[0] && final(self).pos[1] == old(
                                            self,
                                        ).pos[1] + 1,
                                        crate::direction::Direction4::West => final(self).pos[0]
                                            == old(self).pos[0] - 1 && final(self).pos[1] == old(
                                            self,
                                        ).pos[1],
                                    })
                                    &&& final(chunks).entries@.len()
                                        == old(chunks).entries@.len()
                                    &&& (forall|j: int|
                                        0 <= j < old(chunks).entries@.len() && j != i
                                            ==> #[trigger] final(chunks).entries@[j]
                                            == old(chunks).entries@[j])
                                    &&& (final(self).entity_type matches EntityType::Player {
                                        inventory,
                                        selected_item,
                                        respawn_pos,
                                        is_swaping_item,
                                    } && inventory.wf() && (old(self).entity_type
                                        matches EntityType::Player {
                                        inventory: inv0,
                                        selected_item: sel0,
                                        respawn_pos: rp0,
                                        is_swaping_item: sw0,
                                    } && selected_item == sel0 && respawn_pos == rp0
                                        && is_swaping_item == sw0
                                        && (final(chunks).entries@[i].slot
                                        matches crate::chunk_slot::ChunkSlot::Chunk(c2)
                                        && crate::tile_stack::spec_drained_into(
                                        c.tile_stacks@[crate::chunk_pool::spec_cell_index(
                                            old(self).pos,
                                        )].tiles@,
                                        c2.tile_stacks@[crate::chunk_pool::spec_cell_index(
                                            old(self).pos,
                                        )].tiles@,
                                        inv0.items@,
                                        inventory.items@,
                                    ))))
                                },
                                _ => final(self).action_state == EntityActionState::Walking(
                                    d,
                                    a2,
                                ) && final(self).pos == old(self).pos
                                    && final(chunks).spec_same_state(*old(chunks)),
                            },
                            None => final(self).action_state == EntityActionState::Walking(d, a2)
                                && final(self).pos == old(self).pos
                                && final(chunks).spec_same_state(*old(chunks)),
                        }
                    } else {
                        final(self).action_state == EntityActionState::Walking(d, a2)
                            && final(self).pos == old(self).pos
                            && final(chunks).spec_same_state(*old(chunks))
                    }
                },
            },
    {
        let (direction, amount) = match self.action_state {
            EntityActionState::Idle => {
                return ;
            },
            EntityActionState::Walking(direction, amount) => (direction, amount),
        };
        let amount2 = if amount < 16 {
            amount + 1
        } else {
            amount
        };
        self.action_state = EntityActionState::Walking(direction, amount2);
        if amount2 > 15 {
            let pos = self.get_pos_in_direction(direction);
            match chunks.get_tile_stack_at_mut(self.pos) {
                Some(tile) => {
                    self.pos = pos;
                    self.action_state = EntityActionState::Idle;
                    tile.entity_move_to(self);
                    proof {
                        let cell = crate::chunk_pool::spec_cell_index(old(self).pos);
                        assert(0 <= old(self).pos[1] as int % 64 < 64);
                        assert(0 <= old(self).pos[0] as int % 64 < 64);
                        assert(0 <= cell < 4096);
                        crate::chunk_pool::lemma_find_pos_bounds(
                            old(chunks).entries@,
                            crate::chunk_pool::spec_chunk_coord(old(self).pos[0]),
                            crate::chunk_pool::spec_chunk_coord(old(self).pos[1]),
                        );
                        match crate::chunk_pool::spec_find_pos(
                            old(chunks).entries@,
                            crate::chunk_pool::spec_chunk_coord(old(self).pos[0]),
                            crate::chunk_pool::spec_chunk_coord(old(self).pos[1]),
                        ) {
                            Some(i) => {
                                assert(0 <= i < old(chunks).entries@.len());
                                assert(crate::chunk_slot::spec_slot_wf(
                                    old(chunks).entries@[i].slot,
                                ));
                                match old(chunks).entries@[i].slot {
                                    crate::chunk_slot::ChunkSlot::Chunk(c) => {
                                        assert(crate::chunk::spec_chunk_wf(c));
                                        match chunks.entries@[i].slot {
                                            crate::chunk_slot::ChunkSlot::Chunk(c2) => {
                                                assert(c2.tile_stacks@[cell]
                                                    == c.tile_stacks@.update(
                                                    cell,
                                                    c2.tile_stacks@[cell],
                                                )[cell]);
                                            },
                                            _ => {},
                                        }
                                    },
                                    _ => {},
                                }
                            },
                            None => {},
                        }
                    }
                },
                None => {},
            }
        }
    }

    /// Append the entity's record to the file.
    pub fn serialize(&self, file: &mut FileWriter)
        ensures
            final(file).data@ == old(file).data@ + spec_entity_bytes(*self),
    {
        file.push_world_pos(self.pos);
        file.push_u8(self.facing.id());
        self.action_state.serialize(file);
        self.entity_type.serialize(file);
        file.push_u32(self.health);
        proof {
            assert(file.data@ =~= old(file).data@ + spec_entity_bytes(*self));
        }
    }

    /// Read an entity record at the cursor. Saves older than version one
    /// carry no health; those entities revive at full health.
    pub fn deserialize(
        file: &mut FileReader,
        namespace: &Namespace,
        version: u32,
        difficulty: Difficulty,
    ) -> (r: Option<Entity>)
        ensures
            final(file).data@ == old(file).data@,
            final(file).strings_v0@ == old(file).strings_v0@,
            match spec_parse_entity(
                old(file).data@,
                old(file).read_index as int,
                *namespace,
                version,
            ) {
                Some((e, j)) => {
                    &&& r is Some
                    &&& r.unwrap().pos[0] == e.pos_x && r.unwrap().pos[1] == e.pos_y
                    &&& r.unwrap().facing == e.facing
                    &&& r.unwrap().action_state == e.action_state
                    &&& r.unwrap().health == e.health
                    &&& (r.unwrap().entity_type matches EntityType::Player {
                        inventory,
                        selected_item,
                        respawn_pos,
                        is_swaping_item,
                    } && inventory.items@ == e.slots && selected_item == e.selected
                        && respawn_pos[0] == e.respawn_x && respawn_pos[1] == e.respawn_y
                        && is_swaping_item == false)
                    &&& final(file).read_index == j
                },
                None => r is None,
            },
    {
        let pos = match file.read_world_pos() {
            Ok(p) => p,
            Err(_) => {
                return None;
            },
        };
        let facing_id = match file.read_u8() {
            Ok(f) => f,
            Err(_) => {
                return None;
            },
        };
        let facing = match crate::util::vec_get(&namespace.direction_4s, facing_id as usize) {
            Some(d) => d,
            None => {
                return None;
            },
        };
        let action_state = match EntityActionState::deserialize(file, namespace, version, facing) {
            Some(s) => s,
            None => {
                return None;
            },
        };
        let entity_type = match EntityType::deserialize(file, namespace, version, difficulty) {
            Ok(t) => t,
            Err(_) => {
                return None;
            },
        };
        let health: u32 = if version == 0 {
            100
        } else {
            match file.read_u32() {
                Ok(h) => h,
                Err(_) => {
                    return None;
                },
            }
        };
        Some(Entity { pos, facing, action_state, entity_type, health })
    }

    /// The byte image of the player's save file: the namespace hash, then
    /// the entity's record. Writing it to disk is the caller's business.
    pub fn save_player(&self, namespace_hash: u64) -> (r: Vec<u8>)
        ensures
            r@ == vstd::bytes::spec_u64_to_le_bytes(namespace_hash) + spec_entity_bytes(*self),
    {
        let mut file = FileWriter::new();
        file.push_u64(namespace_hash);
        self.serialize(&mut file);
        file.data
    }

    /// Load the player out of a whole save file image under the resolved
    /// namespace; nothing on a missing or malformed record.
    pub fn load_player(
        file_data: &Vec<u8>,
        namespace: &Namespace,
        difficulty: Difficulty,
    ) -> (r: Option<Entity>)
        ensures
            match spec_player_load(file_data@, *namespace) {
                Some(e) => {
                    &&& r is Some
                    &&& r.unwrap().pos[0] == e.pos_x && r.unwrap().pos[1] == e.pos_y
                    &&& r.unwrap().facing == e.facing
                    &&& r.unwrap().action_state == e.action_state
                    &&& r.unwrap().health == e.health
                    &&& (r.unwrap().entity_type matches EntityType::Player {
                        inventory,
                        selected_item,
                        respawn_pos,
                        ..
                    } && inventory.items@ == e.slots && selected_item == e.selected
                        && respawn_pos[0] == e.respawn_x && respawn_pos[1] == e.respawn_y)
                },
                None => r is None,
            },
    {
        let framed = FileReader::from_bytes(file_data.clone());
        let mut file = match framed {
            Ok((file, _)) => file,
            Err(_) => {
                return None;
            },
        };
        match file.read_u64() {
            Ok(_) => {},
            Err(_) => {
                return None;
            },
        }
        Self::deserialize(&mut file, namespace, namespace.version, difficulty)
    }
}

/// The fields of a parsed entity, as plain values.
pub struct ParsedEntity {
    pub pos_x: i64,
    pub pos_y: i64,
    pub facing: Direction4,
    pub action_state: EntityActionState,
    pub slots: Seq<(Item, u8)>,
    pub selected: u8,
    pub respawn_x: i64,
    pub respawn_y: i64,
    pub health: u32,
}

/// Reading an entity record at `i` under the namespace and version.
pub open spec fn spec_parse_entity(data: Seq<u8>, i: int, ns: Namespace, version: u32) -> Option<
    (ParsedEntity, int),
> {
    if i < 0 || i + 17 > data.len() {
        None
    } else {
        let px = spec_i64_at(data, i);
        let py = spec_i64_at(data, i + 8);
        if data[i + 16] as int >= ns.direction_4s@.len() {
            None
        } else {
            let facing = ns.direction_4s@[data[i + 16] as int];
            match spec_parse_entity_action_state(data, i + 17, ns, version, facing) {
                None => None,
                Some((action_state, j)) => match spec_parse_entity_type(data, j, ns, version) {
                    Parse::Failed(_) => None,
                    Parse::Found((slots, selected, rx, ry), k) => {
                        if version == 0 {
                            Some(
                                (
                                    ParsedEntity {
                                        pos_x: px,
                                        pos_y: py,
                                        facing,
                                        action_state,
                                        slots,
                                        selected,
                                        respawn_x: rx,
                                        respawn_y: ry,
                                        health: 100,
                                    },
                                    k,
                                ),
                            )
                        } else if k + 4 <= data.len() {
                            Some(
                                (
                                    ParsedEntity {
                                        pos_x: px,
                                        pos_y: py,
                                        facing,
                                        action_state,
                                        slots,
                                        selected,
                                        respawn_x: rx,
                                        respawn_y: ry,
                                        health: crate::file_reader::spec_u32_at(data, k),
                                    },
                                    k + 4,
                                ),
                            )
                        } else {
                            None
                        }
                    },
                },
            }
        }
    }
}

/// The player save that a whole file image yields under the resolved
/// namespace.
pub open spec fn spec_player_load(bytes: Seq<u8>, ns: Namespace) -> Option<ParsedEntity> {
    if crate::chunk::spec_chunk_file_hash(bytes) is None {
        None
    } else {
        let body = if crate::file_reader::spec_u32_at(bytes, 0) != 0 {
            bytes
        } else {
            bytes.subrange(8, bytes.len() as int)
        };
        match spec_parse_entity(body, 8, ns, ns.version) {
            Some((e, _)) => Some(e),
            None => None,
        }
    }
}

} // verus!
