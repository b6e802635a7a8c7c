use ceolmund::difficulty::Difficulty;
use ceolmund::entity::Entity;
use ceolmund::entity_type::EntityType;
use ceolmund::file_reader::FileReader;
use ceolmund::namespace::{build_namespace, Namespace};
use ceolmund::validate_filename;
use ceolmund::world_overview::WorldOverview;

fn current_namespace() -> Namespace {
    let (blob, _) = build_namespace().unwrap();
    let (mut reader, _) = FileReader::from_bytes(blob).unwrap();
    Namespace::load(&mut reader, false).unwrap()
}

#[test]
fn overview_round_trip() {
    let ns = current_namespace();
    let (_, hash) = build_namespace().unwrap();
    let overview = WorldOverview {
        name: String::from("Home Sweet Home"),
        seed: 420,
        difficulty: Difficulty::Medium,
    };
    let bytes = overview.save_overview(hash);
    let (mut reader, is_v0) = FileReader::from_bytes(bytes).unwrap();
    assert!(!is_v0);
    assert_eq!(reader.read_u64().unwrap(), hash);
    let back = WorldOverview::load_overview(&mut reader, &ns).unwrap();
    assert_eq!(back.name, "Home Sweet Home");
    assert_eq!(back.seed, 420);
    assert_eq!(back.difficulty, Difficulty::Medium);
}

#[test]
fn player_save_round_trip() {
    let ns = current_namespace();
    let (_, hash) = build_namespace().unwrap();
    let player = Entity::new_player(Difficulty::Sandbox);
    let bytes = player.save_player(hash);
    let back = Entity::load_player(&bytes, &ns, Difficulty::Sandbox).unwrap();
    assert_eq!(back.pos, player.pos);
    assert_eq!(back.facing, player.facing);
    assert_eq!(back.action_state, player.action_state);
    assert_eq!(back.health, 100);
    match (&back.entity_type, &player.entity_type) {
        (
            EntityType::Player { inventory: a, selected_item: sa, respawn_pos: ra, .. },
            EntityType::Player { inventory: b, selected_item: sb, respawn_pos: rb, .. },
        ) => {
            assert_eq!(a.items, b.items);
            assert_eq!(sa, sb);
            assert_eq!(ra, rb);
        },
    }
}

#[test]
fn truncated_player_save_is_rejected() {
    let ns = current_namespace();
    let (_, hash) = build_namespace().unwrap();
    let player = Entity::new_player(Difficulty::Easy);
    let mut bytes = player.save_player(hash);
    bytes.truncate(bytes.len() - 3);
    assert!(Entity::load_player(&bytes, &ns, Difficulty::Easy).is_none());
}

#[test]
fn filenames_are_made_safe() {
    assert_eq!(validate_filename(String::from("My World!")), "My World_");
    assert_eq!(validate_filename(String::from("a/b\\c:d")), "a_b_c_d");
    assert_eq!(validate_filename(String::from("plain name")), "plain name");
}

#[test]
fn reserved_filenames_get_a_suffix() {
    assert_eq!(validate_filename(String::from("CON")), "CON_");
    assert_eq!(validate_filename(String::from("con")), "con_");
    assert_eq!(validate_filename(String::from("Lpt7")), "Lpt7_");
    assert_eq!(validate_filename(String::from("console")), "console");
}

#[test]
fn sandbox_players_start_with_tools() {
    let sandbox = Entity::new_player(Difficulty::Sandbox);
    match &sandbox.entity_type {
        EntityType::Player { inventory, .. } => {
            assert_eq!(inventory.items[0].0, ceolmund::item::Item::SandboxDestroyWand);
            assert_eq!(inventory.items[13].0, ceolmund::item::Item::Shovel);
        },
    }
    let hard = Entity::new_player(Difficulty::Hard);
    match &hard.entity_type {
        EntityType::Player { inventory, .. } => {
            assert!(inventory.items.iter().all(|s| s.0 == ceolmund::item::Item::Empty));
        },
    }
}

#[test]
fn difficulty_names() {
    assert_eq!(Difficulty::Sandbox.get_name_id(), "sandbox");
    assert_eq!(Difficulty::Hard.id(), 3);
    assert_eq!(
        Difficulty::from_name(&String::from("medium")),
        Some(Difficulty::Medium)
    );
    assert_eq!(Difficulty::from_name(&String::from("nightmare")), None);
}

#[test]
fn walking_player_save_round_trip() {
    let ns = current_namespace();
    let (_, hash) = build_namespace().unwrap();
    let mut player = Entity::new_player(Difficulty::Easy);
    player.pos = [3, -9];
    player.action_state = ceolmund::entity_action_state::EntityActionState::Walking(
        ceolmund::direction::Direction4::West,
        7,
    );
    let bytes = player.save_player(hash);
    let back = Entity::load_player(&bytes, &ns, Difficulty::Easy)
        .expect("a save of this build's own version must read back");
    assert_eq!(back.pos, [3, -9]);
    assert_eq!(
        back.action_state,
        ceolmund::entity_action_state::EntityActionState::Walking(
            ceolmund::direction::Direction4::West,
            7,
        )
    );
}

#[test]
fn legacy_overview_loads_as_sandbox() {
    // Legacy framing: [0u32][string table offset], body holds the name
    // pointer and the seed, the table holds the name.
    let mut bytes: Vec<u8> = Vec::new();
    bytes.extend(&0u32.to_le_bytes());
    bytes.extend(&16u32.to_le_bytes()); // string table offset
    bytes.extend(&0u32.to_le_bytes()); // name pointer
    bytes.extend(&99u32.to_le_bytes()); // seed
    bytes.extend(b"old world\0");
    let (mut reader, is_v0) = FileReader::from_bytes(bytes).unwrap();
    assert!(is_v0);
    let back = WorldOverview::load_overview_v0(&mut reader).unwrap();
    assert_eq!(back.name, "old world");
    assert_eq!(back.seed, 99);
    assert_eq!(back.difficulty, Difficulty::Sandbox);
}
