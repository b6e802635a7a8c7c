use vstd::prelude::*;
use vstd::bytes::{spec_u32_to_le_bytes, spec_u64_to_le_bytes};

use crate::difficulty::{spec_difficulty_id, Difficulty};
use crate::error::Error;
use crate::file_reader::{spec_read_string, spec_u32_at, FileReader};
use crate::file_writer::{spec_string_bytes, FileWriter};
use crate::namespace::Namespace;

verus! {

/// What the world's overview file records besides its chunks: the world's
/// name, its generation seed, and its difficulty.
pub struct WorldOverview {
    pub name: String,
    pub seed: u32,
    pub difficulty: Difficulty,
}

/// The byte image of the overview file: the namespace hash, the
/// null-terminated world name, the seed, and the difficulty's ordinal.
pub open spec fn spec_overview_bytes(
    namespace_hash: u64,
    name: Seq<char>,
    seed: u32,
    difficulty: Difficulty,
) -> Seq<u8> {
    spec_u64_to_le_bytes(namespace_hash) + spec_string_bytes(name) + spec_u32_to_le_bytes(seed)
        + seq![spec_difficulty_id(difficulty)]
}

/// Reading an overview body at `i`, just past the namespace hash: the
/// world name, the seed, and the difficulty resolved through the
/// namespace.
pub open spec fn spec_parse_overview(data: Seq<u8>, i: int, ns: Namespace) -> Option<
    (Seq<char>, u32, Difficulty),
> {
    match spec_read_string(data, i) {
        Result::Err(_) => None,
        Result::Ok((name, j)) => {
            if j + 5 <= data.len() {
                let seed = spec_u32_at(data, j);
                if (data[j + 4] as int) < ns.difficulties@.len() {
                    Some((name, seed, ns.difficulties@[data[j + 4] as int]))
                } else {
                    None
                }
            } else {
                None
            }
        },
    }
}


/// Reading a legacy version-0 overview body at `i`: a four-byte pointer to
/// the world name in the string table, then the seed. Those files carry no
/// difficulty; it defaults to sandbox.
pub open spec fn spec_parse_overview_v0(data: Seq<u8>, strings: Seq<u8>, i: int) -> Option<
    (Seq<char>, u32),
> {
    if i < 0 || i + 8 > data.len() {
        None
    } else {
        let ptr = spec_u32_at(data, i);
        match spec_read_string(strings, ptr as int) {
            Result::Err(_) => None,
            Result::Ok((name, _)) => Some((name, spec_u32_at(data, i + 4))),
        }
    }
}

impl WorldOverview {
    /// The byte image of the world's overview file. Writing it to disk is
    /// the caller's business.
    pub fn save_overview(&self, namespace_hash: u64) -> (r: Vec<u8>)
        ensures
            r@ == spec_overview_bytes(namespace_hash, self.name@, self.seed, self.difficulty),
    {
        let mut file = FileWriter::new();
        file.push_u64(namespace_hash);
        file.push_string(&self.name);
        file.push_u32(self.seed);
        file.push_u8(self.difficulty.id());
        proof {
            assert(file.data@ =~= spec_overview_bytes(
                namespace_hash,
                self.name@,
                self.seed,
                self.difficulty,
            ));
        }
        file.data
    }


    /// Read a legacy version-0 overview at the reader's cursor: the world
    /// name through its string-table pointer, the seed, and the sandbox
    /// difficulty those files imply.
    pub fn load_overview_v0(file: &mut FileReader) -> (r: Result<WorldOverview, Error>)
        ensures
            final(file).data@ == old(file).data@,
            final(file).strings_v0@ == old(file).strings_v0@,
            match spec_parse_overview_v0(
                old(file).data@,
                old(file).strings_v0@,
                old(file).read_index as int,
            ) {
                Some((name, seed)) => {
                    &&& r is Ok
                    &&& r.unwrap().name@ == name
                    &&& r.unwrap().seed == seed
                    &&& r.unwrap().difficulty == Difficulty::Sandbox
                },
                None => r is Err,
            },
    {
        let name_ptr = match file.read_u32() {
            Ok(p) => p,
            Err(e) => {
                return Err(e);
            },
        };
        let name = match file.get_string_v0(name_ptr) {
            Some(n) => n,
            None => {
                return Err(Error::FileStringReadError);
            },
        };
        let seed = match file.read_u32() {
            Ok(s) => s,
            Err(e) => {
                return Err(e);
            },
        };
        Ok(WorldOverview { name, seed, difficulty: Difficulty::Sandbox })
    }

    /// Read the overview at the reader's cursor, just past the namespace
    /// hash, under the resolved namespace.
    pub fn load_overview(file: &mut FileReader, namespace: &Namespace) -> (r: Result<
        WorldOverview,
        Error,
    >)
        requires
            old(file).read_index <= old(file).data@.len(),
        ensures
            final(file).data@ == old(file).data@,
            final(file).strings_v0@ == old(file).strings_v0@,
            match spec_parse_overview(old(file).data@, old(file).read_index as int, *namespace) {
                Some((name, seed, difficulty)) => {
                    &&& r is Ok
                    &&& r.unwrap().name@ == name
                    &&& r.unwrap().seed == seed
                    &&& r.unwrap().difficulty == difficulty
                },
                None => r is Err,
            },
    {
        let name = match file.read_string() {
            Ok(n) => n,
            Err(e) => {
                return Err(e);
            },
        };
        let seed = match file.read_u32() {
            Ok(s) => s,
            Err(e) => {
                return Err(e);
            },
        };
        let difficulty_id = match file.read_u8() {
            Ok(d) => d,
            Err(e) => {
                return Err(e);
            },
        };
        let difficulty = match crate::util::vec_get(&namespace.difficulties, difficulty_id as usize) {
            Some(d) => d,
            None => {
                return Err(Error::IDOutOfNamespaceBounds);
            },
        };
        Ok(WorldOverview { name, seed, difficulty })
    }
}

} // verus!
