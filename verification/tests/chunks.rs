use ceolmund::chunk::{Chunk, CHUNK_CELLS};
use ceolmund::error::Error;
use ceolmund::file_reader::FileReader;
use ceolmund::namespace::{build_namespace, Namespace};

fn current_namespace() -> Namespace {
    let (blob, _) = build_namespace().unwrap();
    let (mut reader, _) = FileReader::from_bytes(blob).unwrap();
    Namespace::load(&mut reader, false).unwrap()
}

fn chunks_equal(a: &Chunk, b: &Chunk) -> bool {
    if a.tile_stacks.len() != b.tile_stacks.len() {
        return false;
    }
    for k in 0..a.tile_stacks.len() {
        if a.tile_stacks[k].tiles != b.tile_stacks[k].tiles {
            return false;
        }
    }
    true
}

#[test]
fn generation_is_deterministic() {
    let a = Chunk::get([0, 0], 420, None, None).unwrap();
    let b = Chunk::get([0, 0], 420, None, None).unwrap();
    assert!(chunks_equal(&a, &b));
    let c = Chunk::get([-1, 0], 420, None, None).unwrap();
    let d = Chunk::get([-1, 0], 420, None, None).unwrap();
    assert!(chunks_equal(&c, &d));
}

#[test]
fn generated_terrain_varies_across_cells() {
    // The noise fields must actually vary with position: a generator whose
    // sampling ignored its inputs would fill every cell alike.
    let a = Chunk::get([0, 0], 420, None, None).unwrap();
    let first = &a.tile_stacks[0].tiles;
    assert!(a.tile_stacks.iter().any(|s| &s.tiles != first));
}

#[test]
fn chunk_save_load_round_trip() {
    let ns = current_namespace();
    let (_, hash) = build_namespace().unwrap();
    let chunk = Chunk::get([2, -3], 7, None, None).unwrap();
    let copy = Chunk::get([2, -3], 7, None, None).unwrap();
    let bytes = chunk.save(hash);
    assert_eq!(Chunk::chunk_file_namespace_hash(&bytes), Some(hash));
    let mut back = Chunk::new_blank();
    assert_eq!(back.load(&bytes, &ns), Ok(true));
    assert!(chunks_equal(&back, &copy));
}

#[test]
fn truncated_chunk_file_regenerates() {
    let ns = current_namespace();
    let (_, hash) = build_namespace().unwrap();
    let chunk = Chunk::get([0, 0], 420, None, None).unwrap();
    let mut bytes = chunk.save(hash);
    bytes.truncate(4);
    // The header cannot carry a namespace hash any more.
    assert_eq!(Chunk::chunk_file_namespace_hash(&bytes), None);
    // The load falls back to generation: the result equals a fresh chunk.
    let loaded = Chunk::get([0, 0], 420, Some(&bytes), Some(&ns)).unwrap();
    let fresh = Chunk::get([0, 0], 420, None, None).unwrap();
    assert!(chunks_equal(&loaded, &fresh));
}

#[test]
fn corrupt_body_regenerates() {
    let ns = current_namespace();
    let (_, hash) = build_namespace().unwrap();
    let chunk = Chunk::get([1, 1], 9, None, None).unwrap();
    let mut bytes = chunk.save(hash);
    let mid = bytes.len() / 2;
    bytes.truncate(mid);
    let loaded = Chunk::get([1, 1], 9, Some(&bytes), Some(&ns)).unwrap();
    let fresh = Chunk::get([1, 1], 9, None, None).unwrap();
    assert!(chunks_equal(&loaded, &fresh));
}

#[test]
fn unresolvable_namespace_aborts_the_load() {
    let (_, hash) = build_namespace().unwrap();
    let chunk = Chunk::get([0, 0], 420, None, None).unwrap();
    let bytes = chunk.save(hash);
    assert!(matches!(
        Chunk::get([0, 0], 420, Some(&bytes), None),
        Err(Error::CannotReadNamespace)
    ));
}

#[test]
fn blank_chunk_shape() {
    let c = Chunk::new_blank();
    assert_eq!(c.tile_stacks.len(), CHUNK_CELLS);
    assert!(c.tile_stacks.iter().all(|s| s.tiles.is_empty() && s.needs_redrawing));
}

#[test]
fn generated_stacks_are_never_empty() {
    let c = Chunk::get([0, 0], 1, None, None).unwrap();
    assert!(c.tile_stacks.iter().all(|s| !s.tiles.is_empty() && s.tiles.len() <= 3));
}

#[test]
fn failed_load_leaves_the_chunk_untouched() {
    let ns = current_namespace();
    let (_, hash) = build_namespace().unwrap();
    let probe = Chunk::get([4, 4], 2, None, None).unwrap();
    let probe_copy = Chunk::get([4, 4], 2, None, None).unwrap();
    let mut bytes = Chunk::get([0, 0], 2, None, None).unwrap().save(hash);
    let mid = bytes.len() / 2;
    bytes.truncate(mid);
    // A malformed image reports not-found and leaves the chunk exactly as
    // it was.
    let mut target = probe;
    assert_eq!(target.load(&bytes, &ns), Ok(false));
    assert!(chunks_equal(&target, &probe_copy));
}
