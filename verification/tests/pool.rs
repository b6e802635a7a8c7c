use ceolmund::chunk::Chunk;
use ceolmund::difficulty::Difficulty;
use ceolmund::direction::Direction4;
use ceolmund::entity::Entity;
use ceolmund::entity_action_state::EntityActionState;
use ceolmund::chunk_pool::{ChunkPool, ChunkRect, ChunkTask};
use ceolmund::chunk_slot::ChunkSlot;

fn interest_at_origin() -> ChunkRect {
    // World tiles 0..=0 in both axes: the desired window becomes the chunk
    // at the origin plus one chunk of margin on every side.
    ChunkRect { min_x: 0, max_x: 0, min_y: 0, max_y: 0 }
}

fn slot_at(pool: &ChunkPool, x: i64, y: i64) -> Option<&ChunkSlot> {
    pool.entries.iter().find(|e| e.pos == [x, y]).map(|e| &e.slot)
}

fn complete_loads(pool: &mut ChunkPool, tasks: Vec<ChunkTask>, seed: u32) -> Vec<ChunkTask> {
    let mut out = Vec::new();
    for task in tasks {
        match task {
            ChunkTask::Load { task_id, pos, seed: task_seed } => {
                assert_eq!(task_seed, seed);
                let chunk = Chunk::get(pos, task_seed, None, None).unwrap();
                if let Some(t) =
                    pool.apply_event(ceolmund::chunk_pool::ChunkEvent::Loaded { task_id, chunk })
                {
                    out.push(t);
                }
            },
            other => out.push(other),
        }
    }
    out
}

// The desired window covering the origin yields loading slots for every
// window coordinate, among them the origin chunk and its western
// neighbour; once their tasks complete, both report loaded.
#[test]
fn window_loads_then_completes() {
    let mut pool = ChunkPool::new();
    let tasks = pool.advance_window(interest_at_origin(), None, 420);
    assert_eq!(tasks.len(), 9); // a three by three window of chunks
    assert!(matches!(slot_at(&pool, 0, 0), Some(ChunkSlot::Getting(_))));
    assert!(matches!(slot_at(&pool, -1, 0), Some(ChunkSlot::Getting(_))));
    let leftover = complete_loads(&mut pool, tasks, 420);
    assert!(leftover.is_empty());
    assert!(matches!(slot_at(&pool, 0, 0), Some(ChunkSlot::Chunk(_))));
    assert!(matches!(slot_at(&pool, -1, 0), Some(ChunkSlot::Chunk(_))));
    // A loaded chunk answers tile queries; its neighbours in the margin do.
    assert!(pool.get_tile_stack_at_mut([0, 0]).is_some());
    assert!(pool.get_tile_stack_at_mut([-1, 0]).is_some());
}

// Shrinking the desired window to exclude the western neighbour demotes it
// to saving on the next reconcile; once the save completes the coordinate
// is gone from the pool.
#[test]
fn leaving_the_window_saves_and_retires() {
    let mut pool = ChunkPool::new();
    let tasks = pool.advance_window(interest_at_origin(), None, 420);
    complete_loads(&mut pool, tasks, 420);
    // Move the window east so that x = -1 falls outside it.
    let east = ChunkRect { min_x: 64, max_x: 64, min_y: 0, max_y: 0 };
    let tasks2 = pool.advance_window(east, None, 420);
    complete_loads(&mut pool, tasks2, 420);
    let saves = pool.reconcile(0xdead);
    let save_for_west = saves.iter().find_map(|t| match t {
        ChunkTask::Save { task_id, pos, .. } if *pos == [-1, 0] => Some(*task_id),
        _ => None,
    });
    let task_id = save_for_west.expect("the western neighbour must be swept out");
    assert!(matches!(slot_at(&pool, -1, 0), Some(ChunkSlot::Freeing(_))));
    assert!(pool.get_tile_stack_at_mut([-64, 0]).is_none());
    let r = pool.apply_event(ceolmund::chunk_pool::ChunkEvent::Saved { task_id });
    assert!(r.is_none());
    assert!(slot_at(&pool, -1, 0).is_none());
}

// A completion for a task the pool no longer waits on is stale and changes
// nothing: at most one task is ever outstanding per coordinate.
#[test]
fn stale_completions_are_ignored() {
    let mut pool = ChunkPool::new();
    let tasks = pool.advance_window(interest_at_origin(), None, 7);
    let first_id = match &tasks[0] {
        ChunkTask::Load { task_id, .. } => *task_id,
        _ => unreachable!(),
    };
    complete_loads(&mut pool, tasks, 7);
    let before = pool.entries.len();
    let chunk = Chunk::get([5, 5], 7, None, None).unwrap();
    let r = pool
        .apply_event(ceolmund::chunk_pool::ChunkEvent::Loaded { task_id: first_id, chunk });
    assert!(r.is_none());
    assert_eq!(pool.entries.len(), before);
    assert!(matches!(slot_at(&pool, 0, 0), Some(ChunkSlot::Chunk(_))));
}

// A failed save is retried under a fresh task id rather than crashing the
// world; the retried save then retires the coordinate.
#[test]
fn failed_saves_retry() {
    let mut pool = ChunkPool::new();
    let tasks = pool.advance_window(interest_at_origin(), None, 3);
    complete_loads(&mut pool, tasks, 3);
    pool.begin_shutdown();
    let saves = pool.reconcile(1);
    let first = match &saves[0] {
        ChunkTask::Save { task_id, .. } => *task_id,
        _ => unreachable!(),
    };
    let retry = pool.apply_event(ceolmund::chunk_pool::ChunkEvent::SaveFailed { task_id: first });
    let retry_id = match retry {
        Some(ChunkTask::RetrySave { task_id, .. }) => task_id,
        _ => panic!("a failed save must be retried"),
    };
    assert_ne!(retry_id, first);
    let done = pool.apply_event(ceolmund::chunk_pool::ChunkEvent::Saved { task_id: retry_id });
    assert!(done.is_none());
}

// A failed load is retried indefinitely under fresh task ids.
#[test]
fn failed_loads_retry() {
    let mut pool = ChunkPool::new();
    let tasks = pool.advance_window(interest_at_origin(), None, 3);
    let (first_id, pos) = match &tasks[0] {
        ChunkTask::Load { task_id, pos, .. } => (*task_id, *pos),
        _ => unreachable!(),
    };
    let retry = pool.apply_event(ceolmund::chunk_pool::ChunkEvent::LoadFailed { task_id: first_id });
    match retry {
        Some(ChunkTask::Load { task_id, pos: pos2, seed }) => {
            assert_ne!(task_id, first_id);
            assert_eq!(pos2, pos);
            assert_eq!(seed, 3);
        },
        _ => panic!("a failed load must be retried"),
    }
}

// After shutdown begins, repeated reconciling with completing tasks drives
// the pool empty, from any mix of loaded, loading and saving slots.
#[test]
fn shutdown_drains_the_pool() {
    let mut pool = ChunkPool::new();
    let tasks = pool.advance_window(interest_at_origin(), None, 11);
    // Complete only some loads, so shutdown starts from a mixed pool.
    let mut pending_loads = Vec::new();
    for (i, task) in tasks.into_iter().enumerate() {
        match task {
            ChunkTask::Load { task_id, pos, seed } if i % 2 == 0 => {
                let chunk = Chunk::get(pos, seed, None, None).unwrap();
                pool.apply_event(ceolmund::chunk_pool::ChunkEvent::Loaded { task_id, chunk });
            },
            other => pending_loads.push(other),
        }
    }
    pool.begin_shutdown();
    // No new loads start during shutdown.
    assert!(pool.advance_window(interest_at_origin(), None, 11).is_empty());
    let mut pending: Vec<ChunkTask> = pending_loads;
    let mut rounds = 0;
    while !pool.is_fully_shut_down() {
        rounds += 1;
        assert!(rounds < 100, "shutdown must make progress");
        let mut next: Vec<ChunkTask> = Vec::new();
        for task in pending.drain(..) {
            let event = match task {
                ChunkTask::Load { task_id, pos, seed } => {
                    let chunk = Chunk::get(pos, seed, None, None).unwrap();
                    ceolmund::chunk_pool::ChunkEvent::Loaded { task_id, chunk }
                },
                ChunkTask::Save { task_id, .. } => {
                    ceolmund::chunk_pool::ChunkEvent::Saved { task_id }
                },
                ChunkTask::RetrySave { task_id, .. } => {
                    ceolmund::chunk_pool::ChunkEvent::Saved { task_id }
                },
            };
            if let Some(t) = pool.apply_event(event) {
                next.push(t);
            }
        }
        next.extend(pool.reconcile(0x99));
        pending = next;
    }
    assert!(pool.entries.is_empty());
}

// The walking direction widens the desired window by one chunk on that
// side.
#[test]
fn walking_extends_the_window() {
    let mut pool = ChunkPool::new();
    let tasks = pool.advance_window(
        interest_at_origin(),
        Some(ceolmund::direction::Direction4::East),
        0,
    );
    assert_eq!(tasks.len(), 12); // three rows of four
    assert!(matches!(slot_at(&pool, 2, 0), Some(ChunkSlot::Getting(_))));
}

// A walking entity advances one pixel per tick and arrives only once the
// chunk under it is loaded; while the chunk streams, it waits at the edge.
#[test]
fn walking_arrives_when_the_chunk_is_loaded() {
    let mut empty_pool = ChunkPool::new();
    let mut waiting = Entity::new_player(Difficulty::Easy);
    waiting.action_state = EntityActionState::Walking(Direction4::East, 15);
    waiting.tick(&mut empty_pool);
    assert_eq!(waiting.action_state, EntityActionState::Walking(Direction4::East, 16));
    assert_eq!(waiting.pos, [0, 0]);

    let mut pool = ChunkPool::new();
    let tasks = pool.advance_window(interest_at_origin(), None, 420);
    complete_loads(&mut pool, tasks, 420);
    let mut walker = Entity::new_player(Difficulty::Easy);
    walker.action_state = EntityActionState::Walking(Direction4::East, 14);
    walker.tick(&mut pool);
    assert_eq!(walker.action_state, EntityActionState::Walking(Direction4::East, 15));
    walker.tick(&mut pool);
    assert_eq!(walker.action_state, EntityActionState::Idle);
    assert_eq!(walker.pos, [1, 0]);
}
