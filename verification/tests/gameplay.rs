use ceolmund::difficulty::Difficulty;
use ceolmund::direction::Direction4;
use ceolmund::entity::Entity;
use ceolmund::entity_action_state::EntityActionState;
use ceolmund::entity_type::EntityType;
use ceolmund::inventory::Inventory;
use ceolmund::item::Item;
use ceolmund::item_category::ItemCategory;
use ceolmund::namespace_name::NamespaceName;
use ceolmund::item_drop::ItemDrop;
use ceolmund::tile::Tile;
use ceolmund::tile_stack::TileStack;

#[test]
fn add_items_fills_then_overflows() {
    let mut inv: Inventory<50> = Inventory::new();
    let leftover = inv.add_items((Item::Rock, 250));
    assert_eq!(leftover, (Item::Empty, 0));
    // 250 rocks: two full stacks of 99 and one of 52.
    assert_eq!(inv.items[0], (Item::Rock, 99));
    assert_eq!(inv.items[1], (Item::Rock, 99));
    assert_eq!(inv.items[2], (Item::Rock, 52));
    assert_eq!(inv.items[3], (Item::Empty, 0));
    // Adding more first tops up the partial stack.
    let leftover2 = inv.add_items((Item::Acorn, 10));
    assert_eq!(leftover2, (Item::Empty, 0));
    assert_eq!(inv.items[3], (Item::Acorn, 10));
}

#[test]
fn add_items_returns_what_finds_no_room() {
    let mut inv: Inventory<50> = Inventory::new();
    let leftover = inv.add_items((Item::Rock, 6000));
    assert_eq!(leftover, (Item::Rock, 6000 - 50 * 99));
    assert!(inv.items.iter().all(|s| s == &(Item::Rock, 99)));
}

#[test]
fn adding_nothing_changes_nothing() {
    let mut inv: Inventory<50> = Inventory::new();
    assert_eq!(inv.add_items((Item::Empty, 40)), (Item::Empty, 0));
    assert!(inv.items.iter().all(|s| s == &(Item::Empty, 0)));
}

#[test]
fn count_items_saturates() {
    let mut inv: Inventory<50> = Inventory::new();
    inv.add_items((Item::OakStick, 120));
    inv.add_items((Item::PineStick, 7));
    assert_eq!(inv.count_items(&ItemCategory::Single(Item::OakStick)), 120);
    assert_eq!(inv.count_items(&ItemCategory::Stick), 127);
    assert_eq!(inv.count_items(&ItemCategory::Single(Item::Axe)), 0);
}

#[test]
fn try_remove_items_is_all_or_nothing() {
    let mut inv: Inventory<50> = Inventory::new();
    inv.add_items((Item::OakStick, 5));
    inv.add_items((Item::SharpendFlint, 2));
    assert!(!inv.try_remove_items(vec![(ItemCategory::Stick, 6)]));
    assert_eq!(inv.count_items(&ItemCategory::Stick), 5);
    assert!(inv.try_remove_items(vec![
        (ItemCategory::Stick, 1),
        (ItemCategory::Single(Item::SharpendFlint), 2),
    ]));
    assert_eq!(inv.count_items(&ItemCategory::Stick), 4);
    assert_eq!(inv.count_items(&ItemCategory::Single(Item::SharpendFlint)), 0);
    // A drained slot frees up.
    assert_eq!(inv.items[1], (Item::Empty, 0));
}

#[test]
fn swap_items_exchanges_slots() {
    let mut inv: Inventory<50> = Inventory::new();
    inv.add_items((Item::Rock, 3));
    assert!(inv.swap_items(0, 5).is_some());
    assert_eq!(inv.items[5], (Item::Rock, 3));
    assert_eq!(inv.items[0], (Item::Empty, 0));
    assert!(inv.swap_items(0, 50).is_none());
}

#[test]
fn consume_item_empties_the_stack() {
    let mut item = Item::Acorn;
    let mut count: u8 = 2;
    item.consume_item(&mut count);
    assert_eq!((item.clone(), count), (Item::Acorn, 1));
    item.consume_item(&mut count);
    assert_eq!(count, 0);
    assert!(matches!(item, Item::Empty));
}

#[test]
fn roll_respects_the_range() {
    assert_eq!(ItemDrop::Single(Item::Rock).roll(), (Item::Rock, 1));
    assert_eq!(
        ItemDrop::ConstantAmount { item: Item::Acorn, amount: 9 }.roll(),
        (Item::Acorn, 9)
    );
    for _ in 0..32 {
        let (item, n) =
            ItemDrop::RangedRandomAmount { item: Item::PineCone, amount_min: 1, amount_max: 4 }
                .roll();
        assert_eq!(item, Item::PineCone);
        assert!((1..=4).contains(&n));
    }
}

#[test]
fn drop_item_onto_merges_then_overflows() {
    let mut stack = TileStack { tiles: vec![Tile::Grass], needs_redrawing: false };
    stack.drop_item_onto((Item::Rock, 10));
    assert_eq!(stack.tiles.len(), 2);
    assert!(matches!(&stack.tiles[1], Tile::DroppedItemStack(it, 10) if **it == Item::Rock));
    stack.drop_item_onto((Item::Rock, 5));
    assert_eq!(stack.tiles.len(), 2);
    assert!(matches!(&stack.tiles[1], Tile::DroppedItemStack(it, 15) if **it == Item::Rock));
    stack.drop_item_onto((Item::Acorn, 1));
    assert_eq!(stack.tiles.len(), 3);
    stack.drop_item_onto((Item::Empty, 99));
    assert_eq!(stack.tiles.len(), 3);
}

#[test]
fn entity_walks_onto_clear_ground_only() {
    let mut player = Entity::new_player(Difficulty::Easy);
    let mut clear = TileStack { tiles: vec![Tile::Grass], needs_redrawing: false };
    clear.entity_try_move_to(&mut player, Direction4::East);
    assert_eq!(player.action_state, EntityActionState::Walking(Direction4::East, 0));
    let mut blocked_player = Entity::new_player(Difficulty::Easy);
    let mut wall = TileStack { tiles: vec![Tile::Grass, Tile::PineTree], needs_redrawing: false };
    wall.entity_try_move_to(&mut blocked_player, Direction4::East);
    assert_eq!(blocked_player.action_state, EntityActionState::Idle);
    let mut pit_player = Entity::new_player(Difficulty::Easy);
    let mut pit = TileStack::new();
    pit.entity_try_move_to(&mut pit_player, Direction4::North);
    assert_eq!(pit_player.action_state, EntityActionState::Walking(Direction4::North, 0));
}

#[test]
fn stepping_on_drops_picks_them_up() {
    let mut player = Entity::new_player(Difficulty::Easy);
    let mut stack = TileStack {
        tiles: vec![
            Tile::Grass,
            Tile::DroppedItemStack(Box::new(Item::Rock), 7),
            Tile::Flowers,
            Tile::DroppedItemStack(Box::new(Item::Acorn), 2),
        ],
        needs_redrawing: false,
    };
    stack.entity_move_to(&mut player);
    assert_eq!(stack.tiles, vec![Tile::Grass, Tile::Flowers]);
    match &player.entity_type {
        EntityType::Player { inventory, .. } => {
            assert_eq!(inventory.count_items(&ItemCategory::Single(Item::Rock)), 7);
            assert_eq!(inventory.count_items(&ItemCategory::Single(Item::Acorn)), 2);
        },
    }
}

#[test]
fn using_the_wand_breaks_the_top_layer() {
    let mut stack = TileStack { tiles: vec![Tile::Grass, Tile::Flowers], needs_redrawing: false };
    let mut held = (Item::SandboxDestroyWand, 1u8);
    let (consumed, drops) = Item::use_stack_mut_self(&mut held, &mut stack);
    assert!(!consumed);
    assert_eq!(stack.tiles, vec![Tile::Grass]);
    assert!(stack.needs_redrawing);
    assert_eq!(drops.len(), 1);
    assert!(matches!(&drops[0], ItemDrop::Single(Item::Tile(Tile::Flowers))));
}

#[test]
fn placing_a_tile_consumes_it() {
    let mut stack = TileStack::new();
    let mut held = (Item::Tile(Tile::Sand), 1u8);
    let (consumed, drops) = Item::use_stack_mut_self(&mut held, &mut stack);
    assert!(consumed);
    assert!(drops.is_empty());
    assert_eq!(stack.tiles, vec![Tile::Sand]);
    // Sand cannot go on top of sand.
    let (again, _) = Item::use_stack_mut_self(&mut held, &mut stack);
    assert!(!again);
    assert_eq!(stack.tiles, vec![Tile::Sand]);
}

#[test]
fn flint_sharpens_on_rocks() {
    let mut stack = TileStack { tiles: vec![Tile::Sand, Tile::Rocks], needs_redrawing: false };
    let mut held = (Item::FlintRock, 1u8);
    let (consumed, drops) = Item::use_stack_mut_self(&mut held, &mut stack);
    assert!(consumed);
    assert_eq!(stack.tiles, vec![Tile::Sand, Tile::Rocks]);
    assert_eq!(drops.len(), 1);
    assert!(matches!(&drops[0], ItemDrop::Single(Item::SharpendFlint)));
}

#[test]
fn bare_hand_plucks_flowers_only() {
    let flowers = TileStack { tiles: vec![Tile::Grass, Tile::Flowers], needs_redrawing: false };
    let grass = TileStack { tiles: vec![Tile::Grass], needs_redrawing: false };
    assert!(Item::Empty.can_break(&flowers));
    assert!(!Item::Empty.can_break(&grass));
    assert!(Item::Shovel.can_break(&grass));
    assert!(!Item::Shovel.can_break(&flowers));
    assert!(Item::Axe.can_break(&TileStack {
        tiles: vec![Tile::Grass, Tile::PineTree],
        needs_redrawing: false
    }));
}

#[test]
fn movement_helpers() {
    let mut player = Entity::new_player(Difficulty::Easy);
    player.pos = [10, -3];
    player.facing = Direction4::North;
    assert_eq!(player.get_pos_in_front(), [10, -4]);
    assert_eq!(player.get_pos_in_direction(Direction4::West), [9, -3]);
    assert_eq!(player.get_subtile_pos(), [0, 0]);
    player.action_state = EntityActionState::Walking(Direction4::East, 5);
    assert_eq!(player.get_subtile_pos(), [5, 0]);
}

#[test]
fn quick_recipes_cost_flint_and_sticks() {
    let recipes = ceolmund::crafting_recipes::CraftingRecipes::Quick.get_recipes();
    assert_eq!(recipes.len(), 2);
    assert!(matches!(recipes[0].1[0], (Item::FlintAxe, 1)));
    assert!(matches!(recipes[1].1[0], (Item::FlintShovel, 1)));
    assert!(matches!(recipes[1].0[0], (ItemCategory::Single(Item::SharpendFlint), 5)));
    // A freshly stocked inventory can craft the axe.
    let mut inv: Inventory<50> = Inventory::new();
    inv.add_items((Item::SharpendFlint, 1));
    inv.add_items((Item::OakStick, 1));
    let mut recipes = recipes;
    let (axe_cost, _) = recipes.remove(0);
    assert!(inv.try_remove_items(axe_cost));
}

#[test]
fn namespace_section_names_resolve() {
    assert_eq!(
        NamespaceName::from_name(&String::from("tile")),
        Ok(NamespaceName::Tile)
    );
    assert!(NamespaceName::from_name(&String::from("tiles")).is_err());
}

#[test]
fn remainder_stays_only_when_the_inventory_is_full() {
    let mut player = Entity::new_player(Difficulty::Easy);
    // Fill the whole inventory with rocks to the cap, then step on more.
    match &mut player.entity_type {
        EntityType::Player { inventory, .. } => {
            let leftover = inventory.add_items((Item::Rock, 50 * 99));
            assert_eq!(leftover, (Item::Empty, 0));
        },
    }
    let mut stack = TileStack {
        tiles: vec![Tile::Grass, Tile::DroppedItemStack(Box::new(Item::Rock), 40)],
        needs_redrawing: false,
    };
    stack.entity_move_to(&mut player);
    // Nothing fits: the whole remainder stays on the tile.
    assert_eq!(stack.tiles.len(), 2);
    assert!(matches!(&stack.tiles[1], Tile::DroppedItemStack(it, 40) if **it == Item::Rock));
    // With one stack short of the cap, exactly the room is absorbed.
    let mut partial = Entity::new_player(Difficulty::Easy);
    match &mut partial.entity_type {
        EntityType::Player { inventory, .. } => {
            inventory.add_items((Item::Rock, 49 * 99 + 90));
        },
    }
    let mut stack2 = TileStack {
        tiles: vec![Tile::Grass, Tile::DroppedItemStack(Box::new(Item::Rock), 40)],
        needs_redrawing: false,
    };
    stack2.entity_move_to(&mut partial);
    assert!(matches!(&stack2.tiles[1], Tile::DroppedItemStack(it, 31) if **it == Item::Rock));
    match &partial.entity_type {
        EntityType::Player { inventory, .. } => {
            assert_eq!(inventory.count_items(&ItemCategory::Single(Item::Rock)), u16::MAX.min(50 * 99));
        },
    }
}
