use vstd::prelude::*;

use crate::difficulty::{spec_all_difficulties, spec_difficulty_from_name, spec_difficulty_name, Difficulty};
use crate::direction::{spec_all_direction4s, spec_direction4_from_name, spec_direction4_name, Direction4};
use crate::entity_action_state::{
    spec_all_entity_action_state_variants, spec_entity_action_state_variant_from_name,
    spec_entity_action_state_variant_name, EntityActionStateVariant,
};
use crate::entity_type::{spec_all_entity_variants, spec_entity_variant_from_name, spec_entity_variant_name, EntityVariant};
use crate::file_reader::{lemma_read_string_bounds, spec_read_string, spec_u32_at, FileReader};
use crate::file_writer::{spec_string_bytes, FileWriter};
use crate::error::Error;
use crate::item::{spec_all_item_variants, spec_item_variant_from_name, spec_item_variant_name, ItemVariant};
use crate::tile::{spec_all_tile_variants, spec_tile_variant_from_name, spec_tile_variant_name, TileVariant};

verus! {

/// The serialization format version that this build writes.
pub const SERIALIZATION_VERSION: u32 = 1;

/// The checksum that the crc64 crate computes over a byte sequence, folded
/// onto a starting value: a function of its arguments alone.
pub uninterp spec fn crc64_of(crc: u64, data: Seq<u8>) -> u64;

/// Relies on crc64::crc64: the CRC-64 (Jones variant) checksum of the data
/// folded onto the starting value, a pure function of its arguments.
#[verifier::external_body]
pub(crate) fn crc64_sum(crc: u64, data: &Vec<u8>) -> (r: u64)
    ensures
        r == crc64_of(crc, data@),
{
    crc64::crc64(crc, data.as_slice())
}

/// The number of grapheme clusters that unicode-segmentation counts in a
/// string: a function of the characters alone.
pub uninterp spec fn grapheme_count_of(s: Seq<char>) -> nat;

/// Relies on unicode-segmentation's graphemes: the count of extended
/// grapheme clusters, which is zero exactly on the empty string.
#[verifier::external_body]
pub(crate) fn grapheme_count(s: &String) -> (r: usize)
    ensures
        r == grapheme_count_of(s@),
        (r == 0) <==> (s@.len() == 0),
{
    unicode_segmentation::UnicodeSegmentation::graphemes(s.as_str(), true).count()
}

/// A symbol table loaded from disk: for each category, the list mapping an
/// on-disk integer id to the symbolic identity it had when the data was
/// written, resolved against this build's variants. It decouples persisted
/// data from the build's ordinal layout: saved ids stay meaningful across
/// builds that reorder, add or remove variants.
pub struct Namespace {
    pub version: u32,
    pub tiles: Vec<TileVariant>,
    pub items: Vec<ItemVariant>,
    pub entities: Vec<EntityVariant>,
    pub direction_4s: Vec<Direction4>,
    pub entity_action_states: Vec<EntityActionStateVariant>,
    pub difficulties: Vec<Difficulty>,
}

/// The namespace whose every table lists this build's variants in build
/// order: the one that this build writes beside its own saves.
pub open spec fn spec_namespace_is_current(ns: Namespace) -> bool {
    &&& ns.tiles@ == crate::tile::spec_all_tile_variants()
    &&& ns.items@ == crate::item::spec_all_item_variants()
    &&& ns.entities@ == crate::entity_type::spec_all_entity_variants()
    &&& ns.direction_4s@ == crate::direction::spec_all_direction4s()
    &&& ns.entity_action_states@
        == crate::entity_action_state::spec_all_entity_action_state_variants()
    &&& ns.difficulties@ == crate::difficulty::spec_all_difficulties()
}

/// The six symbol tables of a namespace, as plain sequences.
pub struct NamespaceTables {
    pub tiles: Seq<TileVariant>,
    pub items: Seq<ItemVariant>,
    pub entities: Seq<EntityVariant>,
    pub direction_4s: Seq<Direction4>,
    pub entity_action_states: Seq<EntityActionStateVariant>,
    pub difficulties: Seq<Difficulty>,
}

/// Names read one after another until an empty one, which is consumed.
pub open spec fn spec_parse_names(data: Seq<u8>, i: int) -> Option<(Seq<Seq<char>>, int)>
    decreases data.len() - i,
    via spec_parse_names_decreases
{
    match spec_read_string(data, i) {
        Result::Err(_) => None,
        Result::Ok((s, j)) => if s.len() == 0 {
            Some((Seq::<Seq<char>>::empty(), j))
        } else {
            match spec_parse_names(data, j) {
                None => None,
                Some((rest, k)) => Some((seq![s] + rest, k)),
            }
        },
    }
}

#[via_fn]
proof fn spec_parse_names_decreases(data: Seq<u8>, i: int) {
    lemma_read_string_bounds(data, i);
}

/// A successful name-list parse lands strictly past where it started.
pub proof fn lemma_parse_names_bounds(data: Seq<u8>, i: int)
    ensures
        spec_parse_names(data, i) matches Some((_, j)) ==> i < j <= data.len(),
    decreases data.len() - i,
{
    lemma_read_string_bounds(data, i);
    match spec_read_string(data, i) {
        Result::Ok((s, j)) => {
            if s.len() != 0 {
                lemma_parse_names_bounds(data, j);
            }
        },
        Result::Err(_) => {},
    }
}

/// Categories read one after another until one with an empty name, which
/// is consumed: each is its name together with its symbol names.
pub open spec fn spec_parse_categories(data: Seq<u8>, i: int) -> Option<
    (Seq<(Seq<char>, Seq<Seq<char>>)>, int),
>
    decreases data.len() - i,
    via spec_parse_categories_decreases
{
    match spec_read_string(data, i) {
        Result::Err(_) => None,
        Result::Ok((cat, j)) => if cat.len() == 0 {
            Some((Seq::<(Seq<char>, Seq<Seq<char>>)>::empty(), j))
        } else {
            match spec_parse_names(data, j) {
                None => None,
                Some((names, k)) => match spec_parse_categories(data, k) {
                    None => None,
                    Some((rest, m)) => Some((seq![(cat, names)] + rest, m)),
                },
            }
        },
    }
}

#[via_fn]
proof fn spec_parse_categories_decreases(data: Seq<u8>, i: int) {
    lemma_read_string_bounds(data, i);
    match spec_read_string(data, i) {
        Result::Ok((cat, j)) => {
            lemma_parse_names_bounds(data, j);
        },
        Result::Err(_) => {},
    }
}

/// Version-0 names: four-byte pointers into the legacy string table, ended
/// by an all-ones pointer, which is consumed.
pub open spec fn spec_parse_names_v0(data: Seq<u8>, strings: Seq<u8>, i: int) -> Option<
    (Seq<Seq<char>>, int),
>
    decreases data.len() - i,
{
    if i < 0 || i + 4 > data.len() {
        None
    } else {
        let ptr = spec_u32_at(data, i);
        if ptr == 0xFFFFFFFF {
            Some((Seq::<Seq<char>>::empty(), i + 4))
        } else {
            match spec_read_string(strings, ptr as int) {
                Result::Err(_) => None,
                Result::Ok((s, _)) => match spec_parse_names_v0(data, strings, i + 4) {
                    None => None,
                    Some((rest, k)) => Some((seq![s] + rest, k)),
                },
            }
        }
    }
}

/// A successful version-0 name-list parse lands strictly past its start.
pub proof fn lemma_parse_names_v0_bounds(data: Seq<u8>, strings: Seq<u8>, i: int)
    ensures
        spec_parse_names_v0(data, strings, i) matches Some((_, j)) ==> i < j <= data.len(),
    decreases data.len() - i,
{
    if 0 <= i && i + 4 <= data.len() {
        lemma_parse_names_v0_bounds(data, strings, i + 4);
    }
}

/// Version-0 categories: a pointer to the category's name, then its symbol
/// names, until an all-ones pointer ends the outer list.
pub open spec fn spec_parse_categories_v0(data: Seq<u8>, strings: Seq<u8>, i: int) -> Option<
    (Seq<(Seq<char>, Seq<Seq<char>>)>, int),
>
    decreases data.len() - i,
    via spec_parse_categories_v0_decreases
{
    if i < 0 || i + 4 > data.len() {
        None
    } else {
        let ptr = spec_u32_at(data, i);
        if ptr == 0xFFFFFFFF {
            Some((Seq::<(Seq<char>, Seq<Seq<char>>)>::empty(), i + 4))
        } else {
            match spec_read_string(strings, ptr as int) {
                Result::Err(_) => None,
                Result::Ok((cat, _)) => match spec_parse_names_v0(data, strings, i + 4) {
                    None => None,
                    Some((names, k)) => match spec_parse_categories_v0(data, strings, k) {
                        None => None,
                        Some((rest, m)) => Some((seq![(cat, names)] + rest, m)),
                    },
                },
            }
        }
    }
}

#[via_fn]
proof fn spec_parse_categories_v0_decreases(data: Seq<u8>, strings: Seq<u8>, i: int) {
    if 0 <= i && i + 4 <= data.len() {
        lemma_parse_names_v0_bounds(data, strings, i + 4);
    }
}

/// The tile kinds that a list of symbolic names resolves to; nothing when a
/// name is unknown to this build.
pub open spec fn spec_map_tile_names(names: Seq<Seq<char>>) -> Option<Seq<TileVariant>>
    decreases names.len(),
{
    if names.len() == 0 {
        Some(Seq::<TileVariant>::empty())
    } else {
        match spec_tile_variant_from_name(names[0]) {
            None => None,
            Some(v) => match spec_map_tile_names(names.skip(1)) {
                None => None,
                Some(rest) => Some(seq![v] + rest),
            },
        }
    }
}

/// A mapped name list keeps its length, and resolves position by position;
/// one unknown name fails the whole list.
pub proof fn lemma_spec_map_tile_names_at(names: Seq<Seq<char>>, k: int)
    requires
        0 <= k < names.len(),
    ensures
        spec_map_tile_names(names) matches Some(vs) ==> vs.len() == names.len() && Some(vs[k])
            == spec_tile_variant_from_name(names[k]),
        spec_tile_variant_from_name(names[k]) is None ==> spec_map_tile_names(names) is None,
    decreases names.len(),
{
    if names.len() > 0 {
        if k > 0 {
            lemma_spec_map_tile_names_at(names.skip(1), k - 1);
            assert(names.skip(1)[k - 1] == names[k]);
        }
        lemma_spec_map_tile_names_len(names.skip(1));
    }
}

/// A fully resolved name list maps successfully.
pub proof fn lemma_spec_map_tile_names_all(names: Seq<Seq<char>>, vs: Seq<TileVariant>)
    requires
        vs.len() == names.len(),
        forall|m: int|
            0 <= m < names.len() ==> spec_tile_variant_from_name(names[m]) == Some(#[trigger] vs[m]),
    ensures
        spec_map_tile_names(names) is Some,
    decreases names.len(),
{
    if names.len() > 0 {
        assert(spec_tile_variant_from_name(names[0]) == Some(vs[0]));
        assert forall|m: int| 0 <= m < names.skip(1).len() implies spec_tile_variant_from_name(
            names.skip(1)[m],
        ) == Some(#[trigger] vs.skip(1)[m]) by {
            assert(names.skip(1)[m] == names[m + 1]);
            assert(vs.skip(1)[m] == vs[m + 1]);
        }
        lemma_spec_map_tile_names_all(names.skip(1), vs.skip(1));
    }
}

/// A mapped name list keeps its length.
pub proof fn lemma_spec_map_tile_names_len(names: Seq<Seq<char>>)
    ensures
        spec_map_tile_names(names) matches Some(vs) ==> vs.len() == names.len(),
    decreases names.len(),
{
    if names.len() > 0 {
        lemma_spec_map_tile_names_len(names.skip(1));
    }
}

/// The item kinds that a list of symbolic names resolves to; nothing when a
/// name is unknown to this build.
pub open spec fn spec_map_item_names(names: Seq<Seq<char>>) -> Option<Seq<ItemVariant>>
    decreases names.len(),
{
    if names.len() == 0 {
        Some(Seq::<ItemVariant>::empty())
    } else {
        match spec_item_variant_from_name(names[0]) {
            None => None,
            Some(v) => match spec_map_item_names(names.skip(1)) {
                None => None,
                Some(rest) => Some(seq![v] + rest),
            },
        }
    }
}

/// A mapped name list keeps its length, and resolves position by position;
/// one unknown name fails the whole list.
pub proof fn lemma_spec_map_item_names_at(names: Seq<Seq<char>>, k: int)
    requires
        0 <= k < names.len(),
    ensures
        spec_map_item_names(names) matches Some(vs) ==> vs.len() == names.len() && Some(vs[k])
            == spec_item_variant_from_name(names[k]),
        spec_item_variant_from_name(names[k]) is None ==> spec_map_item_names(names) is None,
    decreases names.len(),
{
    if names.len() > 0 {
        if k > 0 {
            lemma_spec_map_item_names_at(names.skip(1), k - 1);
            assert(names.skip(1)[k - 1] == names[k]);
        }
        lemma_spec_map_item_names_len(names.skip(1));
    }
}

/// A fully resolved name list maps successfully.
pub proof fn lemma_spec_map_item_names_all(names: Seq<Seq<char>>, vs: Seq<ItemVariant>)
    requires
        vs.len() == names.len(),
        forall|m: int|
            0 <= m < names.len() ==> spec_item_variant_from_name(names[m]) == Some(#[trigger] vs[m]),
    ensures
        spec_map_item_names(names) is Some,
    decreases names.len(),
{
    if names.len() > 0 {
        assert(spec_item_variant_from_name(names[0]) == Some(vs[0]));
        assert forall|m: int| 0 <= m < names.skip(1).len() implies spec_item_variant_from_name(
            names.skip(1)[m],
        ) == Some(#[trigger] vs.skip(1)[m]) by {
            assert(names.skip(1)[m] == names[m + 1]);
            assert(vs.skip(1)[m] == vs[m + 1]);
        }
        lemma_spec_map_item_names_all(names.skip(1), vs.skip(1));
    }
}

/// A mapped name list keeps its length.
pub proof fn lemma_spec_map_item_names_len(names: Seq<Seq<char>>)
    ensures
        spec_map_item_names(names) matches Some(vs) ==> vs.len() == names.len(),
    decreases names.len(),
{
    if names.len() > 0 {
        lemma_spec_map_item_names_len(names.skip(1));
    }
}

/// The entity kinds that a list of symbolic names resolves to; nothing when a
/// name is unknown to this build.
pub open spec fn spec_map_entity_names(names: Seq<Seq<char>>) -> Option<Seq<EntityVariant>>
    decreases names.len(),
{
    if names.len() == 0 {
        Some(Seq::<EntityVariant>::empty())
    } else {
        match spec_entity_variant_from_name(names[0]) {
            None => None,
            Some(v) => match spec_map_entity_names(names.skip(1)) {
                None => None,
                Some(rest) => Some(seq![v] + rest),
            },
        }
    }
}

/// A mapped name list keeps its length, and resolves position by position;
/// one unknown name fails the whole list.
pub proof fn lemma_spec_map_entity_names_at(names: Seq<Seq<char>>, k: int)
    requires
        0 <= k < names.len(),
    ensures
        spec_map_entity_names(names) matches Some(vs) ==> vs.len() == names.len() && Some(vs[k])
            == spec_entity_variant_from_name(names[k]),
        spec_entity_variant_from_name(names[k]) is None ==> spec_map_entity_names(names) is None,
    decreases names.len(),
{
    if names.len() > 0 {
        if k > 0 {
            lemma_spec_map_entity_names_at(names.skip(1), k - 1);
            assert(names.skip(1)[k - 1] == names[k]);
        }
        lemma_spec_map_entity_names_len(names.skip(1));
    }
}

/// A fully resolved name list maps successfully.
pub proof fn lemma_spec_map_entity_names_all(names: Seq<Seq<char>>, vs: Seq<EntityVariant>)
    requires
        vs.len() == names.len(),
        forall|m: int|
            0 <= m < names.len() ==> spec_entity_variant_from_name(names[m]) == Some(#[trigger] vs[m]),
    ensures
        spec_map_entity_names(names) is Some,
    decreases names.len(),
{
    if names.len() > 0 {
        assert(spec_entity_variant_from_name(names[0]) == Some(vs[0]));
        assert forall|m: int| 0 <= m < names.skip(1).len() implies spec_entity_variant_from_name(
            names.skip(1)[m],
        ) == Some(#[trigger] vs.skip(1)[m]) by {
            assert(names.skip(1)[m] == names[m + 1]);
            assert(vs.skip(1)[m] == vs[m + 1]);
        }
        lemma_spec_map_entity_names_all(names.skip(1), vs.skip(1));
    }
}

/// A mapped name list keeps its length.
pub proof fn lemma_spec_map_entity_names_len(names: Seq<Seq<char>>)
    ensures
        spec_map_entity_names(names) matches Some(vs) ==> vs.len() == names.len(),
    decreases names.len(),
{
    if names.len() > 0 {
        lemma_spec_map_entity_names_len(names.skip(1));
    }
}

/// The directions that a list of symbolic names resolves to; nothing when a
/// name is unknown to this build.
pub open spec fn spec_map_direction_names(names: Seq<Seq<char>>) -> Option<Seq<Direction4>>
    decreases names.len(),
{
    if names.len() == 0 {
        Some(Seq::<Direction4>::empty())
    } else {
        match spec_direction4_from_name(names[0]) {
            None => None,
            Some(v) => match spec_map_direction_names(names.skip(1)) {
                None => None,
                Some(rest) => Some(seq![v] + rest),
            },
        }
    }
}

/// A mapped name list keeps its length, and resolves position by position;
/// one unknown name fails the whole list.
pub proof fn lemma_spec_map_direction_names_at(names: Seq<Seq<char>>, k: int)
    requires
        0 <= k < names.len(),
    ensures
        spec_map_direction_names(names) matches Some(vs) ==> vs.len() == names.len() && Some(vs[k])
            == spec_direction4_from_name(names[k]),
        spec_direction4_from_name(names[k]) is None ==> spec_map_direction_names(names) is None,
    decreases names.len(),
{
    if names.len() > 0 {
        if k > 0 {
            lemma_spec_map_direction_names_at(names.skip(1), k - 1);
            assert(names.skip(1)[k - 1] == names[k]);
        }
        lemma_spec_map_direction_names_len(names.skip(1));
    }
}

/// A fully resolved name list maps successfully.
pub proof fn lemma_spec_map_direction_names_all(names: Seq<Seq<char>>, vs: Seq<Direction4>)
    requires
        vs.len() == names.len(),
        forall|m: int|
            0 <= m < names.len() ==> spec_direction4_from_name(names[m]) == Some(#[trigger] vs[m]),
    ensures
        spec_map_direction_names(names) is Some,
    decreases names.len(),
{
    if names.len() > 0 {
        assert(spec_direction4_from_name(names[0]) == Some(vs[0]));
        assert forall|m: int| 0 <= m < names.skip(1).len() implies spec_direction4_from_name(
            names.skip(1)[m],
        ) == Some(#[trigger] vs.skip(1)[m]) by {
            assert(names.skip(1)[m] == names[m + 1]);
            assert(vs.skip(1)[m] == vs[m + 1]);
        }
        lemma_spec_map_direction_names_all(names.skip(1), vs.skip(1));
    }
}

/// A mapped name list keeps its length.
pub proof fn lemma_spec_map_direction_names_len(names: Seq<Seq<char>>)
    ensures
        spec_map_direction_names(names) matches Some(vs) ==> vs.len() == names.len(),
    decreases names.len(),
{
    if names.len() > 0 {
        lemma_spec_map_direction_names_len(names.skip(1));
    }
}

/// The action-state categories that a list of symbolic names resolves to; nothing when a
/// name is unknown to this build.
pub open spec fn spec_map_action_state_names(names: Seq<Seq<char>>) -> Option<Seq<EntityActionStateVariant>>
    decreases names.len(),
{
    if names.len() == 0 {
        Some(Seq::<EntityActionStateVariant>::empty())
    } else {
        match spec_entity_action_state_variant_from_name(names[0]) {
            None => None,
            Some(v) => match spec_map_action_state_names(names.skip(1)) {
                None => None,
                Some(rest) => Some(seq![v] + rest),
            },
        }
    }
}

/// A mapped name list keeps its length, and resolves position by position;
/// one unknown name fails the whole list.
pub proof fn lemma_spec_map_action_state_names_at(names: Seq<Seq<char>>, k: int)
    requires
        0 <= k < names.len(),
    ensures
        spec_map_action_state_names(names) matches Some(vs) ==> vs.len() == names.len() && Some(vs[k])
            == spec_entity_action_state_variant_from_name(names[k]),
        spec_entity_action_state_variant_from_name(names[k]) is None ==> spec_map_action_state_names(names) is None,
    decreases names.len(),
{
    if names.len() > 0 {
        if k > 0 {
            lemma_spec_map_action_state_names_at(names.skip(1), k - 1);
            assert(names.skip(1)[k - 1] == names[k]);
        }
        lemma_spec_map_action_state_names_len(names.skip(1));
    }
}

/// A fully resolved name list maps successfully.
pub proof fn lemma_spec_map_action_state_names_all(names: Seq<Seq<char>>, vs: Seq<EntityActionStateVariant>)
    requires
        vs.len() == names.len(),
        forall|m: int|
            0 <= m < names.len() ==> spec_entity_action_state_variant_from_name(names[m]) == Some(#[trigger] vs[m]),
    ensures
        spec_map_action_state_names(names) is Some,
    decreases names.len(),
{
    if names.len() > 0 {
        assert(spec_entity_action_state_variant_from_name(names[0]) == Some(vs[0]));
        assert forall|m: int| 0 <= m < names.skip(1).len() implies spec_entity_action_state_variant_from_name(
            names.skip(1)[m],
        ) == Some(#[trigger] vs.skip(1)[m]) by {
            assert(names.skip(1)[m] == names[m + 1]);
            assert(vs.skip(1)[m] == vs[m + 1]);
        }
        lemma_spec_map_action_state_names_all(names.skip(1), vs.skip(1));
    }
}

/// A mapped name list keeps its length.
pub proof fn lemma_spec_map_action_state_names_len(names: Seq<Seq<char>>)
    ensures
        spec_map_action_state_names(names) matches Some(vs) ==> vs.len() == names.len(),
    decreases names.len(),
{
    if names.len() > 0 {
        lemma_spec_map_action_state_names_len(names.skip(1));
    }
}

/// The difficulties that a list of symbolic names resolves to; nothing when a
/// name is unknown to this build.
pub open spec fn spec_map_difficulty_names(names: Seq<Seq<char>>) -> Option<Seq<Difficulty>>
    decreases names.len(),
{
    if names.len() == 0 {
        Some(Seq::<Difficulty>::empty())
    } else {
        match spec_difficulty_from_name(names[0]) {
            None => None,
            Some(v) => match spec_map_difficulty_names(names.skip(1)) {
                None => None,
                Some(rest) => Some(seq![v] + rest),
            },
        }
    }
}

/// A mapped name list keeps its length, and resolves position by position;
/// one unknown name fails the whole list.
pub proof fn lemma_spec_map_difficulty_names_at(names: Seq<Seq<char>>, k: int)
    requires
        0 <= k < names.len(),
    ensures
        spec_map_difficulty_names(names) matches Some(vs) ==> vs.len() == names.len() && Some(vs[k])
            == spec_difficulty_from_name(names[k]),
        spec_difficulty_from_name(names[k]) is None ==> spec_map_difficulty_names(names) is None,
    decreases names.len(),
{
    if names.len() > 0 {
        if k > 0 {
            lemma_spec_map_difficulty_names_at(names.skip(1), k - 1);
            assert(names.skip(1)[k - 1] == names[k]);
        }
        lemma_spec_map_difficulty_names_len(names.skip(1));
    }
}

/// A fully resolved name list maps successfully.
pub proof fn lemma_spec_map_difficulty_names_all(names: Seq<Seq<char>>, vs: Seq<Difficulty>)
    requires
        vs.len() == names.len(),
        forall|m: int|
            0 <= m < names.len() ==> spec_difficulty_from_name(names[m]) == Some(#[trigger] vs[m]),
    ensures
        spec_map_difficulty_names(names) is Some,
    decreases names.len(),
{
    if names.len() > 0 {
        assert(spec_difficulty_from_name(names[0]) == Some(vs[0]));
        assert forall|m: int| 0 <= m < names.skip(1).len() implies spec_difficulty_from_name(
            names.skip(1)[m],
        ) == Some(#[trigger] vs.skip(1)[m]) by {
            assert(names.skip(1)[m] == names[m + 1]);
            assert(vs.skip(1)[m] == vs[m + 1]);
        }
        lemma_spec_map_difficulty_names_all(names.skip(1), vs.skip(1));
    }
}

/// A mapped name list keeps its length.
pub proof fn lemma_spec_map_difficulty_names_len(names: Seq<Seq<char>>)
    ensures
        spec_map_difficulty_names(names) matches Some(vs) ==> vs.len() == names.len(),
    decreases names.len(),
{
    if names.len() > 0 {
        lemma_spec_map_difficulty_names_len(names.skip(1));
    }
}

/// Empty symbol tables.
pub open spec fn spec_empty_tables() -> NamespaceTables {
    NamespaceTables {
        tiles: Seq::<TileVariant>::empty(),
        items: Seq::<ItemVariant>::empty(),
        entities: Seq::<EntityVariant>::empty(),
        direction_4s: Seq::<Direction4>::empty(),
        entity_action_states: Seq::<EntityActionStateVariant>::empty(),
        difficulties: Seq::<Difficulty>::empty(),
    }
}

/// The tables that a parsed category list builds: each category's names
/// resolve against this build's variants and append, in order, to the
/// category's table; an unknown category or symbol name fails the whole
/// load, since data saved under the blob could not be understood.
pub open spec fn spec_tables_of(cats: Seq<(Seq<char>, Seq<Seq<char>>)>) -> Option<NamespaceTables>
    decreases cats.len(),
{
    if cats.len() == 0 {
        Some(spec_empty_tables())
    } else {
        let (cat, names) = cats[0];
        match spec_tables_of(cats.skip(1)) {
            None => None,
            Some(rest) => {
                if cat == "tile"@ {
                    match spec_map_tile_names(names) {
                        None => None,
                        Some(vs) => Some(NamespaceTables { tiles: vs + rest.tiles, ..rest }),
                    }
                } else if cat == "item"@ {
                    match spec_map_item_names(names) {
                        None => None,
                        Some(vs) => Some(NamespaceTables { items: vs + rest.items, ..rest }),
                    }
                } else if cat == "entity"@ {
                    match spec_map_entity_names(names) {
                        None => None,
                        Some(vs) => Some(NamespaceTables { entities: vs + rest.entities, ..rest }),
                    }
                } else if cat == "direction_4"@ {
                    match spec_map_direction_names(names) {
                        None => None,
                        Some(vs) => Some(
                            NamespaceTables { direction_4s: vs + rest.direction_4s, ..rest },
                        ),
                    }
                } else if cat == "entity_action_state"@ {
                    match spec_map_action_state_names(names) {
                        None => None,
                        Some(vs) => Some(
                            NamespaceTables {
                                entity_action_states: vs + rest.entity_action_states,
                                ..rest
                            },
                        ),
                    }
                } else if cat == "difficulty"@ {
                    match spec_map_difficulty_names(names) {
                        None => None,
                        Some(vs) => Some(
                            NamespaceTables { difficulties: vs + rest.difficulties, ..rest },
                        ),
                    }
                } else {
                    None
                }
            },
        }
    }
}

/// The namespace that a whole blob body yields: the format version (zero
/// under the legacy framing, read from the body otherwise, and refused
/// when newer than this build), then the categories in either layout.
pub open spec fn spec_parse_namespace(
    data: Seq<u8>,
    strings: Seq<u8>,
    i: int,
    is_version_0: bool,
) -> Option<(u32, NamespaceTables)> {
    if is_version_0 {
        match spec_parse_categories_v0(data, strings, i) {
            None => None,
            Some((cats, _)) => match spec_tables_of(cats) {
                None => None,
                Some(t) => Some((0u32, t)),
            },
        }
    } else {
        if i < 0 || i + 4 > data.len() {
            None
        } else {
            let version = spec_u32_at(data, i);
            if version > SERIALIZATION_VERSION {
                None
            } else {
                match spec_parse_categories(data, i + 4) {
                    None => None,
                    Some((cats, _)) => match spec_tables_of(cats) {
                        None => None,
                        Some(t) => Some((version, t)),
                    },
                }
            }
        }
    }
}

impl Namespace {

    /// The tile kinds carrying the given symbolic names.
    #[verifier::loop_isolation(false)]
    fn map_tile_names(names: &Vec<String>) -> (r: Option<Vec<TileVariant>>)
        ensures
            match spec_map_tile_names(names@.map_values(|s: String| s@)) {
                Some(vs) => r is Some && r.unwrap()@ == vs,
                None => r is None,
            },
    {
        let ghost nv = names@.map_values(|s: String| s@);
        let mut out: Vec<TileVariant> = Vec::new();
        let mut k: usize = 0;
        while k < names.len()
            invariant
                0 <= k <= names@.len(),
                out@.len() == k,
                forall|m: int|
                    0 <= m < k ==> spec_tile_variant_from_name(nv[m]) == Some(#[trigger] out@[m]),
            decreases names@.len() - k,
        {
            let v = match TileVariant::from_name(&names[k]) {
                Some(v) => v,
                None => {
                    proof {
                        lemma_spec_map_tile_names_at(nv, k as int);
                    }
                    return None;
                },
            };
            out.push(v);
            k = k + 1;
        }
        proof {
            match spec_map_tile_names(nv) {
                Some(vs) => {
                    lemma_spec_map_tile_names_len(nv);
                    assert forall|m: int| 0 <= m < nv.len() implies #[trigger] vs[m] == out@[m] by {
                        lemma_spec_map_tile_names_at(nv, m);
                    }
                    assert(out@ =~= vs);
                },
                None => {
                    lemma_spec_map_tile_names_all(nv, out@);
                },
            }
        }
        Some(out)
    }

    /// The item kinds carrying the given symbolic names.
    #[verifier::loop_isolation(false)]
    fn map_item_names(names: &Vec<String>) -> (r: Option<Vec<ItemVariant>>)
        ensures
            match spec_map_item_names(names@.map_values(|s: String| s@)) {
                Some(vs) => r is Some && r.unwrap()@ == vs,
                None => r is None,
            },
    {
        let ghost nv = names@.map_values(|s: String| s@);
        let mut out: Vec<ItemVariant> = Vec::new();
        let mut k: usize = 0;
        while k < names.len()
            invariant
                0 <= k <= names@.len(),
                out@.len() == k,
                forall|m: int|
                    0 <= m < k ==> spec_item_variant_from_name(nv[m]) == Some(#[trigger] out@[m]),
            decreases names@.len() - k,
        {
            let v = match ItemVariant::from_name(&names[k]) {
                Some(v) => v,
                None => {
                    proof {
                        lemma_spec_map_item_names_at(nv, k as int);
                    }
                    return None;
                },
            };
            out.push(v);
            k = k + 1;
        }
        proof {
            match spec_map_item_names(nv) {
                Some(vs) => {
                    lemma_spec_map_item_names_len(nv);
                    assert forall|m: int| 0 <= m < nv.len() implies #[trigger] vs[m] == out@[m] by {
                        lemma_spec_map_item_names_at(nv, m);
                    }
                    assert(out@ =~= vs);
                },
                None => {
                    lemma_spec_map_item_names_all(nv, out@);
                },
            }
        }
        Some(out)
    }

    /// The entity kinds carrying the given symbolic names.
    #[verifier::loop_isolation(false)]
    fn map_entity_names(names: &Vec<String>) -> (r: Option<Vec<EntityVariant>>)
        ensures
            match spec_map_entity_names(names@.map_values(|s: String| s@)) {
                Some(vs) => r is Some && r.unwrap()@ == vs,
                None => r is None,
            },
    {
        let ghost nv = names@.map_values(|s: String| s@);
        let mut out: Vec<EntityVariant> = Vec::new();
        let mut k: usize = 0;
        while k < names.len()
            invariant
                0 <= k <= names@.len(),
                out@.len() == k,
                forall|m: int|
                    0 <= m < k ==> spec_entity_variant_from_name(nv[m]) == Some(#[trigger] out@[m]),
            decreases names@.len() - k,
        {
            let v = match EntityVariant::from_name(&names[k]) {
                Some(v) => v,
                None => {
                    proof {
                        lemma_spec_map_entity_names_at(nv, k as int);
                    }
                    return None;
                },
            };
            out.push(v);
            k = k + 1;
        }
        proof {
            match spec_map_entity_names(nv) {
                Some(vs) => {
                    lemma_spec_map_entity_names_len(nv);
                    assert forall|m: int| 0 <= m < nv.len() implies #[trigger] vs[m] == out@[m] by {
                        lemma_spec_map_entity_names_at(nv, m);
                    }
                    assert(out@ =~= vs);
                },
                None => {
                    lemma_spec_map_entity_names_all(nv, out@);
                },
            }
        }
        Some(out)
    }

    /// The directions carrying the given symbolic names.
    #[verifier::loop_isolation(false)]
    fn map_direction_names(names: &Vec<String>) -> (r: Option<Vec<Direction4>>)
        ensures
            match spec_map_direction_names(names@.map_values(|s: String| s@)) {
                Some(vs) => r is Some && r.unwrap()@ == vs,
                None => r is None,
            },
    {
        let ghost nv = names@.map_values(|s: String| s@);
        let mut out: Vec<Direction4> = Vec::new();
        let mut k: usize = 0;
        while k < names.len()
            invariant
                0 <= k <= names@.len(),
                out@.len() == k,
                forall|m: int|
                    0 <= m < k ==> spec_direction4_from_name(nv[m]) == Some(#[trigger] out@[m]),
            decreases names@.len() - k,
        {
            let v = match Direction4::from_name(&names[k]) {
                Some(v) => v,
                None => {
                    proof {
                        lemma_spec_map_direction_names_at(nv, k as int);
                    }
                    return None;
                },
            };
            out.push(v);
            k = k + 1;
        }
        proof {
            match spec_map_direction_names(nv) {
                Some(vs) => {
                    lemma_spec_map_direction_names_len(nv);
                    assert forall|m: int| 0 <= m < nv.len() implies #[trigger] vs[m] == out@[m] by {
                        lemma_spec_map_direction_names_at(nv, m);
                    }
                    assert(out@ =~= vs);
                },
                None => {
                    lemma_spec_map_direction_names_all(nv, out@);
                },
            }
        }
        Some(out)
    }

    /// The action-state categories carrying the given symbolic names.
    #[verifier::loop_isolation(false)]
    fn map_action_state_names(names: &Vec<String>) -> (r: Option<Vec<EntityActionStateVariant>>)
        ensures
            match spec_map_action_state_names(names@.map_values(|s: String| s@)) {
                Some(vs) => r is Some && r.unwrap()@ == vs,
                None => r is None,
            },
    {
        let ghost nv = names@.map_values(|s: String| s@);
        let mut out: Vec<EntityActionStateVariant> = Vec::new();
        let mut k: usize = 0;
        while k < names.len()
            invariant
                0 <= k <= names@.len(),
                out@.len() == k,
                forall|m: int|
                    0 <= m < k ==> spec_entity_action_state_variant_from_name(nv[m]) == Some(#[trigger] out@[m]),
            decreases names@.len() - k,
        {
            let v = match EntityActionStateVariant::from_name(&names[k]) {
                Some(v) => v,
                None => {
                    proof {
                        lemma_spec_map_action_state_names_at(nv, k as int);
                    }
                    return None;
                },
            };
            out.push(v);
            k = k + 1;
        }
        proof {
            match spec_map_action_state_names(nv) {
                Some(vs) => {
                    lemma_spec_map_action_state_names_len(nv);
                    assert forall|m: int| 0 <= m < nv.len() implies #[trigger] vs[m] == out@[m] by {
                        lemma_spec_map_action_state_names_at(nv, m);
                    }
                    assert(out@ =~= vs);
                },
                None => {
                    lemma_spec_map_action_state_names_all(nv, out@);
                },
            }
        }
        Some(out)
    }

    /// The difficulties carrying the given symbolic names.
    #[verifier::loop_isolation(false)]
    fn map_difficulty_names(names: &Vec<String>) -> (r: Option<Vec<Difficulty>>)
        ensures
            match spec_map_difficulty_names(names@.map_values(|s: String| s@)) {
                Some(vs) => r is Some && r.unwrap()@ == vs,
                None => r is None,
            },
    {
        let ghost nv = names@.map_values(|s: String| s@);
        let mut out: Vec<Difficulty> = Vec::new();
        let mut k: usize = 0;
        while k < names.len()
            invariant
                0 <= k <= names@.len(),
                out@.len() == k,
                forall|m: int|
                    0 <= m < k ==> spec_difficulty_from_name(nv[m]) == Some(#[trigger] out@[m]),
            decreases names@.len() - k,
        {
            let v = match Difficulty::from_name(&names[k]) {
                Some(v) => v,
                None => {
                    proof {
                        lemma_spec_map_difficulty_names_at(nv, k as int);
                    }
                    return None;
                },
            };
            out.push(v);
            k = k + 1;
        }
        proof {
            match spec_map_difficulty_names(nv) {
                Some(vs) => {
                    lemma_spec_map_difficulty_names_len(nv);
                    assert forall|m: int| 0 <= m < nv.len() implies #[trigger] vs[m] == out@[m] by {
                        lemma_spec_map_difficulty_names_at(nv, m);
                    }
                    assert(out@ =~= vs);
                },
                None => {
                    lemma_spec_map_difficulty_names_all(nv, out@);
                },
            }
        }
        Some(out)
    }


    /// Load a namespace out of its blob file, already framed by the
    /// reader. A version newer than this build is a hard error: forward
    /// compatibility is deliberately refused.
    #[verifier::loop_isolation(false)]
    #[verifier::rlimit(100)]
    pub fn load(file: &mut FileReader, is_version_0: bool) -> (r: Option<Namespace>)
        requires
            old(file).read_index <= old(file).data@.len(),
        ensures
            final(file).data@ == old(file).data@,
            final(file).strings_v0@ == old(file).strings_v0@,
            match spec_parse_namespace(
                old(file).data@,
                old(file).strings_v0@,
                old(file).read_index as int,
                is_version_0,
            ) {
                Some((version, t)) => {
                    &&& r is Some
                    &&& r.unwrap().version == version
                    &&& r.unwrap().tiles@ == t.tiles
                    &&& r.unwrap().items@ == t.items
                    &&& r.unwrap().entities@ == t.entities
                    &&& r.unwrap().direction_4s@ == t.direction_4s
                    &&& r.unwrap().entity_action_states@ == t.entity_action_states
                    &&& r.unwrap().difficulties@ == t.difficulties
                },
                None => r is None,
            },
    {
        let ghost data = old(file).data@;
        let ghost strings = old(file).strings_v0@;
        let version: u32;
        if is_version_0 {
            version = 0;
        } else {
            version = match file.read_u32() {
                Ok(v) => v,
                Err(_) => {
                    return None;
                },
            };
            if version > SERIALIZATION_VERSION {
                return None;
            }
        }
        let ghost i1 = file.read_index as int;
        let mut tiles: Vec<TileVariant> = Vec::new();
        let mut items: Vec<ItemVariant> = Vec::new();
        let mut entities: Vec<EntityVariant> = Vec::new();
        let mut direction_4s: Vec<Direction4> = Vec::new();
        let mut entity_action_states: Vec<EntityActionStateVariant> = Vec::new();
        let mut difficulties: Vec<Difficulty> = Vec::new();
        proof {
            match spec_parse_cats_either(data, strings, i1, is_version_0) {
                Some((cats, _)) => {
                    assert(cats.skip(0) =~= cats);
                },
                None => {},
            }
        }
        let ghost mut n: int = 0;
        loop
            invariant
                file.data@ == data,
                file.strings_v0@ == strings,
                file.read_index <= data.len(),
                0 <= n,
                match spec_parse_cats_either(data, strings, i1, is_version_0) {
                    Some((cats, end)) => {
                        &&& n <= cats.len()
                        &&& spec_parse_cats_either(data, strings, file.read_index as int, is_version_0)
                            == Some((cats.skip(n), end))
                        &&& match spec_tables_of(cats) {
                            Some(t) => spec_tables_of(cats.skip(n)) matches Some(trest) && {
                                &&& t.tiles == tiles@ + trest.tiles
                                &&& t.items == items@ + trest.items
                                &&& t.entities == entities@ + trest.entities
                                &&& t.direction_4s == direction_4s@ + trest.direction_4s
                                &&& t.entity_action_states == entity_action_states@
                                    + trest.entity_action_states
                                &&& t.difficulties == difficulties@ + trest.difficulties
                            },
                            None => spec_tables_of(cats.skip(n)) is None,
                        }
                    },
                    None => spec_parse_cats_either(
                        data,
                        strings,
                        file.read_index as int,
                        is_version_0,
                    ) is None,
                },
            decreases data.len() - file.read_index,
        {
            let ghost cur = file.read_index as int;
            proof {
                if !is_version_0 {
                    lemma_read_string_bounds(data, cur);
                }
            }
            let namespace_name: String;
            if is_version_0 {
                let ptr = match file.read_u32() {
                    Ok(p) => p,
                    Err(_) => {
                        return None;
                    },
                };
                if ptr == 0xFFFFFFFF {
                    break ;
                }
                namespace_name = match file.get_string_v0(ptr) {
                    Some(s) => s,
                    None => {
                        return None;
                    },
                };
            } else {
                namespace_name = match file.read_string() {
                    Ok(s) => s,
                    Err(_) => {
                        return None;
                    },
                };
                if grapheme_count(&namespace_name) == 0 {
                    break ;
                }
            }
            let ghost after_name = file.read_index as int;
            let names = match Self::read_names(file, is_version_0) {
                Some(ns) => ns,
                None => {
                    return None;
                },
            };
            proof {
                if is_version_0 {
                    lemma_parse_names_v0_bounds(data, strings, after_name);
                } else {
                    lemma_parse_names_bounds(data, after_name);
                }
            }
            let ghost names_view = names@.map_values(|s: String| s@);
            let ghost tiles_pre = tiles@;
            let ghost items_pre = items@;
            let ghost entities_pre = entities@;
            let ghost dirs_pre = direction_4s@;
            let ghost eas_pre = entity_action_states@;
            let ghost diff_pre = difficulties@;
            if crate::util::string_eq_lit(&namespace_name, "tile") {
                let mut vs = match Self::map_tile_names(&names) {
                    Some(vs) => vs,
                    None => {
                        return None;
                    },
                };
                tiles.append(&mut vs);
            } else if crate::util::string_eq_lit(&namespace_name, "item") {
                let mut vs = match Self::map_item_names(&names) {
                    Some(vs) => vs,
                    None => {
                        return None;
                    },
                };
                items.append(&mut vs);
            } else if crate::util::string_eq_lit(&namespace_name, "entity") {
                let mut vs = match Self::map_entity_names(&names) {
                    Some(vs) => vs,
                    None => {
                        return None;
                    },
                };
                entities.append(&mut vs);
            } else if crate::util::string_eq_lit(&namespace_name, "direction_4") {
                let mut vs = match Self::map_direction_names(&names) {
                    Some(vs) => vs,
                    None => {
                        return None;
                    },
                };
                direction_4s.append(&mut vs);
            } else if crate::util::string_eq_lit(&namespace_name, "entity_action_state") {
                let mut vs = match Self::map_action_state_names(&names) {
                    Some(vs) => vs,
                    None => {
                        return None;
                    },
                };
                entity_action_states.append(&mut vs);
            } else if crate::util::string_eq_lit(&namespace_name, "difficulty") {
                let mut vs = match Self::map_difficulty_names(&names) {
                    Some(vs) => vs,
                    None => {
                        return None;
                    },
                };
                difficulties.append(&mut vs);
            } else {
                return None;
            }
            proof {
                match spec_parse_cats_either(data, strings, i1, is_version_0) {
                    Some((cats, end)) => {
                        assert(cats.skip(n)[0] == (namespace_name@, names_view));
                        assert(cats.skip(n).skip(1) =~= cats.skip(n + 1));
                        match spec_tables_of(cats.skip(n + 1)) {
                            Some(trest) => {
                                assert(tiles@ + trest.tiles =~= tiles_pre + (tiles@.skip(
                                    tiles_pre.len() as int,
                                ) + trest.tiles));
                                assert(items@ + trest.items =~= items_pre + (items@.skip(
                                    items_pre.len() as int,
                                ) + trest.items));
                                assert(entities@ + trest.entities =~= entities_pre + (
                                entities@.skip(entities_pre.len() as int) + trest.entities));
                                assert(direction_4s@ + trest.direction_4s =~= dirs_pre + (
                                direction_4s@.skip(dirs_pre.len() as int) + trest.direction_4s));
                                assert(entity_action_states@ + trest.entity_action_states
                                    =~= eas_pre + (entity_action_states@.skip(eas_pre.len() as int)
                                    + trest.entity_action_states));
                                assert(difficulties@ + trest.difficulties =~= diff_pre + (
                                difficulties@.skip(diff_pre.len() as int) + trest.difficulties));
                            },
                            None => {},
                        }
                        n = n + 1;
                    },
                    None => {},
                }
            }
        }
        Some(
            Namespace {
                version,
                tiles,
                items,
                entities,
                direction_4s,
                entity_action_states,
                difficulties,
            },
        )
    }

    /// Read symbol names until the empty sentinel, in either layout.
    #[verifier::loop_isolation(false)]
    fn read_names(file: &mut FileReader, is_version_0: bool) -> (r: Option<Vec<String>>)
        requires
            old(file).read_index <= old(file).data@.len(),
        ensures
            final(file).data@ == old(file).data@,
            final(file).strings_v0@ == old(file).strings_v0@,
            final(file).read_index <= final(file).data@.len(),
            match (if is_version_0 {
                spec_parse_names_v0(
                    old(file).data@,
                    old(file).strings_v0@,
                    old(file).read_index as int,
                )
            } else {
                spec_parse_names(old(file).data@, old(file).read_index as int)
            }) {
                Some((names, j)) => {
                    &&& r is Some
                    &&& r.unwrap()@.map_values(|s: String| s@) == names
                    &&& final(file).read_index == j
                },
                None => r is None,
            },
    {
        let ghost data = old(file).data@;
        let ghost strings = old(file).strings_v0@;
        let ghost i0 = old(file).read_index as int;
        let mut out: Vec<String> = Vec::new();
        proof {
            assert(out@.map_values(|s: String| s@) =~= Seq::<Seq<char>>::empty());
            match (if is_version_0 {
                spec_parse_names_v0(data, strings, i0)
            } else {
                spec_parse_names(data, i0)
            }) {
                Some((names, _)) => {
                    assert(Seq::<Seq<char>>::empty() + names =~= names);
                },
                None => {},
            }
        }
        loop
            invariant
                file.data@ == data,
                file.strings_v0@ == strings,
                file.read_index <= data.len(),
                match (if is_version_0 {
                    spec_parse_names_v0(data, strings, i0)
                } else {
                    spec_parse_names(data, i0)
                }) {
                    Some((names, j)) => (if is_version_0 {
                        spec_parse_names_v0(data, strings, file.read_index as int)
                    } else {
                        spec_parse_names(data, file.read_index as int)
                    }) matches Some((rest, j2)) && names == out@.map_values(|s: String| s@) + rest
                        && j == j2,
                    None => (if is_version_0 {
                        spec_parse_names_v0(data, strings, file.read_index as int)
                    } else {
                        spec_parse_names(data, file.read_index as int)
                    }) is None,
                },
            decreases data.len() - file.read_index,
        {
            let ghost cur = file.read_index as int;
            proof {
                if !is_version_0 {
                    lemma_read_string_bounds(data, cur);
                }
            }
            let name: String;
            if is_version_0 {
                let ptr = match file.read_u32() {
                    Ok(p) => p,
                    Err(_) => {
                        return None;
                    },
                };
                if ptr == 0xFFFFFFFF {
                    proof {
                        assert(out@.map_values(|s: String| s@) + Seq::<Seq<char>>::empty()
                            =~= out@.map_values(|s: String| s@));
                    }
                    return Some(out);
                }
                name = match file.get_string_v0(ptr) {
                    Some(s) => s,
                    None => {
                        return None;
                    },
                };
            } else {
                name = match file.read_string() {
                    Ok(s) => s,
                    Err(_) => {
                        return None;
                    },
                };
                if grapheme_count(&name) == 0 {
                    proof {
                        assert(out@.map_values(|s: String| s@) + Seq::<Seq<char>>::empty()
                            =~= out@.map_values(|s: String| s@));
                    }
                    return Some(out);
                }
            }
            let ghost outpre = out@;
            let ghost namev = name@;
            out.push(name);
            proof {
                assert(out@.map_values(|s: String| s@) =~= outpre.map_values(|s: String| s@).push(
                    namev,
                ));
                match (if is_version_0 {
                    spec_parse_names_v0(data, strings, file.read_index as int)
                } else {
                    spec_parse_names(data, file.read_index as int)
                }) {
                    Some((rest, _)) => {
                        assert(outpre.map_values(|s: String| s@) + (seq![namev] + rest)
                            =~= out@.map_values(|s: String| s@) + rest);
                    },
                    None => {},
                }
            }
        }
    }
}

/// The category list under either framing.
pub open spec fn spec_parse_cats_either(
    data: Seq<u8>,
    strings: Seq<u8>,
    i: int,
    is_version_0: bool,
) -> Option<(Seq<(Seq<char>, Seq<Seq<char>>)>, int)> {
    if is_version_0 {
        spec_parse_categories_v0(data, strings, i)
    } else {
        spec_parse_categories(data, i)
    }
}



/// The byte images of the names, one null-terminated string after another.
pub open spec fn spec_strings_bytes(names: Seq<Seq<char>>) -> Seq<u8>
    decreases names.len(),
{
    if names.len() == 0 {
        Seq::<u8>::empty()
    } else {
        spec_string_bytes(names[0]) + spec_strings_bytes(names.skip(1))
    }
}

pub proof fn lemma_strings_bytes_push(names: Seq<Seq<char>>, n: Seq<char>)
    ensures
        spec_strings_bytes(names.push(n)) == spec_strings_bytes(names) + spec_string_bytes(n),
    decreases names.len(),
{
    if names.len() == 0 {
        assert(names.push(n)[0] == n);
        assert(names.push(n).skip(1) =~= Seq::<Seq<char>>::empty());
        assert(spec_strings_bytes(Seq::<Seq<char>>::empty()) == Seq::<u8>::empty());
        assert(spec_strings_bytes(names.push(n)) =~= spec_strings_bytes(names)
            + spec_string_bytes(n));
    } else {
        assert(names.push(n)[0] == names[0]);
        assert(names.push(n).skip(1) =~= names.skip(1).push(n));
        lemma_strings_bytes_push(names.skip(1), n);
        assert(spec_strings_bytes(names.push(n)) == spec_string_bytes(names[0]) + (
        spec_strings_bytes(names.skip(1)) + spec_string_bytes(n)));
        assert(spec_strings_bytes(names.push(n)) =~= spec_strings_bytes(names)
            + spec_string_bytes(n));
    }
}

/// The byte image of one category in the blob: its name, its symbol names,
/// then the empty-name sentinel.
pub open spec fn spec_category_bytes(name: Seq<char>, names: Seq<Seq<char>>) -> Seq<u8> {
    spec_string_bytes(name) + spec_strings_bytes(names) + seq![0u8]
}

/// The byte image of this build's namespace blob: the format version, then
/// each category's name and symbol names in build order, and a final empty
/// name ending the category list.
pub open spec fn spec_namespace_blob() -> Seq<u8> {
    vstd::bytes::spec_u32_to_le_bytes(SERIALIZATION_VERSION) + spec_category_bytes(
        "tile"@,
        crate::tile::spec_all_tile_variants().map_values(|v| spec_tile_variant_name(v)),
    ) + spec_category_bytes(
        "item"@,
        crate::item::spec_all_item_variants().map_values(|v| spec_item_variant_name(v)),
    ) + spec_category_bytes(
        "entity"@,
        crate::entity_type::spec_all_entity_variants().map_values(|v| spec_entity_variant_name(v)),
    ) + spec_category_bytes(
        "direction_4"@,
        crate::direction::spec_all_direction4s().map_values(|v| spec_direction4_name(v)),
    ) + spec_category_bytes(
        "entity_action_state"@,
        crate::entity_action_state::spec_all_entity_action_state_variants().map_values(
            |v| spec_entity_action_state_variant_name(v),
        ),
    ) + spec_category_bytes(
        "difficulty"@,
        crate::difficulty::spec_all_difficulties().map_values(|v| spec_difficulty_name(v)),
    ) + seq![0u8]
}

/// Build this build's namespace blob, the symbol tables under which it
/// saves all its data.
pub fn build_namespace_blob() -> (r: FileWriter)
    ensures
        r.data@ == spec_namespace_blob(),
{
    let mut writer = FileWriter::new();
    writer.push_u32(SERIALIZATION_VERSION);
    push_category_tile(&mut writer);
    push_category_item(&mut writer);
    push_category_entity(&mut writer);
    push_category_direction_4(&mut writer);
    push_category_entity_action_state(&mut writer);
    push_category_difficulty(&mut writer);
    writer.push_u8(0);
    proof {
        assert(writer.data@ =~= spec_namespace_blob());
    }
    writer
}

/// Build this build's namespace blob together with its content hash. A
/// file whose first four bytes are all zero would be mistaken for the
/// legacy framing, so the rare blob whose hash ends in thirty-two zero
/// bits is refused rather than ever written.
pub fn build_namespace() -> (r: Result<(Vec<u8>, u64), Error>)
    ensures
        match r {
            Ok((blob, hash)) => {
                &&& blob@ == spec_namespace_blob()
                &&& hash == crc64_of(0, spec_namespace_blob())
                &&& hash as int % 0x100000000 != 0
            },
            Err(e) => {
                &&& e == Error::LogicError
                &&& crc64_of(0, spec_namespace_blob()) as int % 0x100000000 == 0
            },
        },
{
    let writer = build_namespace_blob();
    let blob = writer.data;
    let hash = crc64_sum(0, &blob);
    if hash % 0x100000000 == 0 {
        Err(Error::LogicError)
    } else {
        Ok((blob, hash))
    }
}

/// The lowercase hexadecimal digit of a value below sixteen.
pub open spec fn spec_hex_digit(v: int) -> char {
    if v == 0 {
        '0'
    } else if v == 1 {
        '1'
    } else if v == 2 {
        '2'
    } else if v == 3 {
        '3'
    } else if v == 4 {
        '4'
    } else if v == 5 {
        '5'
    } else if v == 6 {
        '6'
    } else if v == 7 {
        '7'
    } else if v == 8 {
        '8'
    } else if v == 9 {
        '9'
    } else if v == 10 {
        'a'
    } else if v == 11 {
        'b'
    } else if v == 12 {
        'c'
    } else if v == 13 {
        'd'
    } else if v == 14 {
        'e'
    } else {
        'f'
    }
}

/// The last `digits` hexadecimal digits of a value, most significant
/// first.
pub open spec fn spec_hex_chars(v: int, digits: nat) -> Seq<char>
    decreases digits,
{
    if digits == 0 {
        Seq::<char>::empty()
    } else {
        spec_hex_chars(v / 16, (digits - 1) as nat) + seq![spec_hex_digit(v % 16)]
    }
}

/// The file name under which a namespace blob with the given hash is kept:
/// sixteen zero-padded hexadecimal digits and the blob suffix.
pub open spec fn spec_namespace_file_name(hash: u64) -> Seq<char> {
    spec_hex_chars(hash as int, 16) + ".nsp"@
}

/// One hexadecimal digit as text.
fn hex_digit_str(d: u64) -> (r: &'static str)
    requires
        d < 16,
    ensures
        r@ == seq![spec_hex_digit(d as int)],
{
    let r: &'static str = match d {
        0 => "0",
        1 => "1",
        2 => "2",
        3 => "3",
        4 => "4",
        5 => "5",
        6 => "6",
        7 => "7",
        8 => "8",
        9 => "9",
        10 => "a",
        11 => "b",
        12 => "c",
        13 => "d",
        14 => "e",
        _ => "f",
    };
    proof {
        reveal_strlit("0");
        reveal_strlit("1");
        reveal_strlit("2");
        reveal_strlit("3");
        reveal_strlit("4");
        reveal_strlit("5");
        reveal_strlit("6");
        reveal_strlit("7");
        reveal_strlit("8");
        reveal_strlit("9");
        reveal_strlit("a");
        reveal_strlit("b");
        reveal_strlit("c");
        reveal_strlit("d");
        reveal_strlit("e");
        reveal_strlit("f");
        assert(r@ =~= seq![spec_hex_digit(d as int)]);
    }
    r
}

/// Append the last `digits` hexadecimal digits of the value.
fn append_hex_chars(v: u64, digits: usize, out: &mut String)
    ensures
        final(out)@ == old(out)@ + spec_hex_chars(v as int, digits as nat),
    decreases digits,
{
    if digits == 0 {
        proof {
            assert(old(out)@ + spec_hex_chars(v as int, 0) =~= old(out)@);
        }
        return ;
    }
    append_hex_chars(v / 16, digits - 1, out);
    let d = v % 16;
    vstd::string::StringExecFns::append(out, hex_digit_str(d));
    proof {
        assert(out@ =~= old(out)@ + spec_hex_chars(v as int, digits as nat));
    }
}

/// The file name of the namespace blob with the given hash.
pub fn namespace_blob_file_name(hash: u64) -> (r: String)
    ensures
        r@ == spec_namespace_file_name(hash),
{
    let mut out = String::new();
    append_hex_chars(hash, 16, &mut out);
    vstd::string::StringExecFns::append(&mut out, ".nsp");
    proof {
        assert(out@ =~= spec_namespace_file_name(hash));
    }
    out
}

/// Append the tile category to the blob under construction.
#[verifier::loop_isolation(false)]
fn push_category_tile(writer: &mut FileWriter)
    ensures
        final(writer).data@ == old(writer).data@ + spec_category_bytes(
            "tile"@,
            spec_all_tile_variants().map_values(|v| spec_tile_variant_name(v)),
        ),
{
    let ghost names = spec_all_tile_variants().map_values(|v| spec_tile_variant_name(v));
    writer.push_str("tile");
    let all = TileVariant::all_variants();
    let mut k: usize = 0;
    proof {
        assert(names.take(0) =~= Seq::<Seq<char>>::empty());
        assert(spec_strings_bytes(Seq::<Seq<char>>::empty()) == Seq::<u8>::empty());
        assert(writer.data@ =~= old(writer).data@ + spec_string_bytes("tile"@)
            + spec_strings_bytes(names.take(0)));
    }
    while k < all.len()
        invariant
            0 <= k <= all@.len(),
            writer.data@ == old(writer).data@ + spec_string_bytes("tile"@) + spec_strings_bytes(
                names.take(k as int),
            ),
        decreases all@.len() - k,
    {
        proof {
            assert(names.take(k as int).push(names[k as int]) =~= names.take(k as int + 1));
            lemma_strings_bytes_push(names.take(k as int), names[k as int]);
            assert(names[k as int] == spec_tile_variant_name(all@[k as int]));
        }
        writer.push_str(all[k].get_name_id());
        k = k + 1;
    }
    writer.push_u8(0);
    proof {
        assert(names.take(all@.len() as int) =~= names);
        assert(writer.data@ =~= old(writer).data@ + spec_category_bytes(
            "tile"@,
            names,
        ));
    }
}

/// Append the item category to the blob under construction.
#[verifier::loop_isolation(false)]
fn push_category_item(writer: &mut FileWriter)
    ensures
        final(writer).data@ == old(writer).data@ + spec_category_bytes(
            "item"@,
            spec_all_item_variants().map_values(|v| spec_item_variant_name(v)),
        ),
{
    let ghost names = spec_all_item_variants().map_values(|v| spec_item_variant_name(v));
    writer.push_str("item");
    let all = ItemVariant::all_variants();
    let mut k: usize = 0;
    proof {
        assert(names.take(0) =~= Seq::<Seq<char>>::empty());
        assert(spec_strings_bytes(Seq::<Seq<char>>::empty()) == Seq::<u8>::empty());
        assert(writer.data@ =~= old(writer).data@ + spec_string_bytes("item"@)
            + spec_strings_bytes(names.take(0)));
    }
    while k < all.len()
        invariant
            0 <= k <= all@.len(),
            writer.data@ == old(writer).data@ + spec_string_bytes("item"@) + spec_strings_bytes(
                names.take(k as int),
            ),
        decreases all@.len() - k,
    {
        proof {
            assert(names.take(k as int).push(names[k as int]) =~= names.take(k as int + 1));
            lemma_strings_bytes_push(names.take(k as int), names[k as int]);
            assert(names[k as int] == spec_item_variant_name(all@[k as int]));
        }
        writer.push_str(all[k].get_name_id());
        k = k + 1;
    }
    writer.push_u8(0);
    proof {
        assert(names.take(all@.len() as int) =~= names);
        assert(writer.data@ =~= old(writer).data@ + spec_category_bytes(
            "item"@,
            names,
        ));
    }
}

/// Append the entity category to the blob under construction.
#[verifier::loop_isolation(false)]
fn push_category_entity(writer: &mut FileWriter)
    ensures
        final(writer).data@ == old(writer).data@ + spec_category_bytes(
            "entity"@,
            spec_all_entity_variants().map_values(|v| spec_entity_variant_name(v)),
        ),
{
    let ghost names = spec_all_entity_variants().map_values(|v| spec_entity_variant_name(v));
    writer.push_str("entity");
    let all = EntityVariant::all_variants();
    let mut k: usize = 0;
    proof {
        assert(names.take(0) =~= Seq::<Seq<char>>::empty());
        assert(spec_strings_bytes(Seq::<Seq<char>>::empty()) == Seq::<u8>::empty());
        assert(writer.data@ =~= old(writer).data@ + spec_string_bytes("entity"@)
            + spec_strings_bytes(names.take(0)));
    }
    while k < all.len()
        invariant
            0 <= k <= all@.len(),
            writer.data@ == old(writer).data@ + spec_string_bytes("entity"@) + spec_strings_bytes(
                names.take(k as int),
            ),
        decreases all@.len() - k,
    {
        proof {
            assert(names.take(k as int).push(names[k as int]) =~= names.take(k as int + 1));
            lemma_strings_bytes_push(names.take(k as int), names[k as int]);
            assert(names[k as int] == spec_entity_variant_name(all@[k as int]));
        }
        writer.push_str(all[k].get_name_id());
        k = k + 1;
    }
    writer.push_u8(0);
    proof {
        assert(names.take(all@.len() as int) =~= names);
        assert(writer.data@ =~= old(writer).data@ + spec_category_bytes(
            "entity"@,
            names,
        ));
    }
}

/// Append the direction_4 category to the blob under construction.
#[verifier::loop_isolation(false)]
fn push_category_direction_4(writer: &mut FileWriter)
    ensures
        final(writer).data@ == old(writer).data@ + spec_category_bytes(
            "direction_4"@,
            spec_all_direction4s().map_values(|v| spec_direction4_name(v)),
        ),
{
    let ghost names = spec_all_direction4s().map_values(|v| spec_direction4_name(v));
    writer.push_str("direction_4");
    let all = Direction4::all_variants();
    let mut k: usize = 0;
    proof {
        assert(names.take(0) =~= Seq::<Seq<char>>::empty());
        assert(spec_strings_bytes(Seq::<Seq<char>>::empty()) == Seq::<u8>::empty());
        assert(writer.data@ =~= old(writer).data@ + spec_string_bytes("direction_4"@)
            + spec_strings_bytes(names.take(0)));
    }
    while k < all.len()
        invariant
            0 <= k <= all@.len(),
            writer.data@ == old(writer).data@ + spec_string_bytes("direction_4"@) + spec_strings_bytes(
                names.take(k as int),
            ),
        decreases all@.len() - k,
    {
        proof {
            assert(names.take(k as int).push(names[k as int]) =~= names.take(k as int + 1));
            lemma_strings_bytes_push(names.take(k as int), names[k as int]);
            assert(names[k as int] == spec_direction4_name(all@[k as int]));
        }
        writer.push_str(all[k].get_name_id());
        k = k + 1;
    }
    writer.push_u8(0);
    proof {
        assert(names.take(all@.len() as int) =~= names);
        assert(writer.data@ =~= old(writer).data@ + spec_category_bytes(
            "direction_4"@,
            names,
        ));
    }
}

/// Append the entity_action_state category to the blob under construction.
#[verifier::loop_isolation(false)]
fn push_category_entity_action_state(writer: &mut FileWriter)
    ensures
        final(writer).data@ == old(writer).data@ + spec_category_bytes(
            "entity_action_state"@,
            spec_all_entity_action_state_variants().map_values(|v| spec_entity_action_state_variant_name(v)),
        ),
{
    let ghost names = spec_all_entity_action_state_variants().map_values(|v| spec_entity_action_state_variant_name(v));
    writer.push_str("entity_action_state");
    let all = EntityActionStateVariant::all_variants();
    let mut k: usize = 0;
    proof {
        assert(names.take(0) =~= Seq::<Seq<char>>::empty());
        assert(spec_strings_bytes(Seq::<Seq<char>>::empty()) == Seq::<u8>::empty());
        assert(writer.data@ =~= old(writer).data@ + spec_string_bytes("entity_action_state"@)
            + spec_strings_bytes(names.take(0)));
    }
    while k < all.len()
        invariant
            0 <= k <= all@.len(),
            writer.data@ == old(writer).data@ + spec_string_bytes("entity_action_state"@) + spec_strings_bytes(
                names.take(k as int),
            ),
        decreases all@.len() - k,
    {
        proof {
            assert(names.take(k as int).push(names[k as int]) =~= names.take(k as int + 1));
            lemma_strings_bytes_push(names.take(k as int), names[k as int]);
            assert(names[k as int] == spec_entity_action_state_variant_name(all@[k as int]));
        }
        writer.push_str(all[k].get_name_id());
        k = k + 1;
    }
    writer.push_u8(0);
    proof {
        assert(names.take(all@.len() as int) =~= names);
        assert(writer.data@ =~= old(writer).data@ + spec_category_bytes(
            "entity_action_state"@,
            names,
        ));
    }
}

/// Append the difficulty category to the blob under construction.
#[verifier::loop_isolation(false)]
fn push_category_difficulty(writer: &mut FileWriter)
    ensures
        final(writer).data@ == old(writer).data@ + spec_category_bytes(
            "difficulty"@,
            spec_all_difficulties().map_values(|v| spec_difficulty_name(v)),
        ),
{
    let ghost names = spec_all_difficulties().map_values(|v| spec_difficulty_name(v));
    writer.push_str("difficulty");
    let all = Difficulty::all_variants();
    let mut k: usize = 0;
    proof {
        assert(names.take(0) =~= Seq::<Seq<char>>::empty());
        assert(spec_strings_bytes(Seq::<Seq<char>>::empty()) == Seq::<u8>::empty());
        assert(writer.data@ =~= old(writer).data@ + spec_string_bytes("difficulty"@)
            + spec_strings_bytes(names.take(0)));
    }
    while k < all.len()
        invariant
            0 <= k <= all@.len(),
            writer.data@ == old(writer).data@ + spec_string_bytes("difficulty"@) + spec_strings_bytes(
                names.take(k as int),
            ),
        decreases all@.len() - k,
    {
        proof {
            assert(names.take(k as int).push(names[k as int]) =~= names.take(k as int + 1));
            lemma_strings_bytes_push(names.take(k as int), names[k as int]);
            assert(names[k as int] == spec_difficulty_name(all@[k as int]));
        }
        writer.push_str(all[k].get_name_id());
        k = k + 1;
    }
    writer.push_u8(0);
    proof {
        assert(names.take(all@.len() as int) =~= names);
        assert(writer.data@ =~= old(writer).data@ + spec_category_bytes(
            "difficulty"@,
            names,
        ));
    }
}

} // verus!
