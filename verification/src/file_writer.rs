use vstd::prelude::*;
use vstd::bytes::{spec_u16_to_le_bytes, spec_u32_to_le_bytes, spec_u64_to_le_bytes};
use vstd::bytes::{u16_to_le_bytes, u32_to_le_bytes, u64_to_le_bytes};
use vstd::string::StrSliceExecFns;

verus! {

/// The little-endian byte image of a signed 64-bit value: the bytes of its
/// two's-complement bit pattern.
pub open spec fn spec_i64_to_le_bytes(x: i64) -> Seq<u8> {
    spec_u64_to_le_bytes(x as u64)
}

/// The byte image of a null-terminated string: its UTF-8 encoding followed
/// by a single zero byte.
pub open spec fn spec_string_bytes(s: Seq<char>) -> Seq<u8> {
    vstd::utf8::encode_utf8(s) + seq![0u8]
}

/// The byte image of a world position: two signed 64-bit values, x then y.
pub open spec fn spec_world_pos_bytes(x: i64, y: i64) -> Seq<u8> {
    spec_i64_to_le_bytes(x) + spec_i64_to_le_bytes(y)
}

/// Accumulates the binary image of a file body: little-endian fixed-width
/// integers and null-terminated strings.
pub struct FileWriter {
    pub data: Vec<u8>,
}

impl FileWriter {
    pub fn new() -> (r: Self)
        ensures
            r.data@ == Seq::<u8>::empty(),
    {
        Self { data: Vec::new() }
    }

    /// The accumulated body as a standalone byte vector.
    pub fn write_to_vec(&self) -> (r: Option<Vec<u8>>)
        ensures
            r is Some,
            r.unwrap()@ == self.data@,
    {
        let mut out: Vec<u8> = Vec::new();
        let mut copy = self.data.clone();
        out.append(&mut copy);
        Some(out)
    }

    pub fn push_u8(&mut self, to_push: u8)
        ensures
            final(self).data@ == old(self).data@ + seq![to_push],
    {
        self.data.push(to_push);
    }

    pub fn push_u16(&mut self, to_push: u16)
        ensures
            final(self).data@ == old(self).data@ + spec_u16_to_le_bytes(to_push),
    {
        let mut bytes = u16_to_le_bytes(to_push);
        self.data.append(&mut bytes);
    }

    pub fn push_u32(&mut self, to_push: u32)
        ensures
            final(self).data@ == old(self).data@ + spec_u32_to_le_bytes(to_push),
    {
        let mut bytes = u32_to_le_bytes(to_push);
        self.data.append(&mut bytes);
    }

    pub fn push_u64(&mut self, to_push: u64)
        ensures
            final(self).data@ == old(self).data@ + spec_u64_to_le_bytes(to_push),
    {
        let mut bytes = u64_to_le_bytes(to_push);
        self.data.append(&mut bytes);
    }

    pub fn push_i64(&mut self, to_push: i64)
        ensures
            final(self).data@ == old(self).data@ + spec_i64_to_le_bytes(to_push),
    {
        let mut bytes = u64_to_le_bytes(to_push as u64);
        self.data.append(&mut bytes);
    }

    pub fn push_world_pos(&mut self, to_push: [i64; 2])
        ensures
            final(self).data@ == old(self).data@ + spec_world_pos_bytes(to_push[0], to_push[1]),
    {
        self.push_i64(to_push[0]);
        self.push_i64(to_push[1]);
        proof {
            assert(self.data@ =~= old(self).data@ + spec_world_pos_bytes(to_push[0], to_push[1]));
        }
    }

    pub fn push_string(&mut self, string: &String)
        ensures
            final(self).data@ == old(self).data@ + spec_string_bytes(string@),
    {
        self.push_str(string.as_str());
    }

    pub fn push_str(&mut self, string: &str)
        ensures
            final(self).data@ == old(self).data@ + spec_string_bytes(string@),
    {
        let mut bytes = string.as_bytes_vec();
        self.data.append(&mut bytes);
        self.data.push(0);
        proof {
            assert(self.data@ =~= old(self).data@ + spec_string_bytes(string@));
        }
    }
}

} // verus!
