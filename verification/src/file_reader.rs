use vstd::prelude::*;
use vstd::bytes::{spec_u16_from_le_bytes, spec_u32_from_le_bytes, spec_u64_from_le_bytes};
use vstd::bytes::{u16_from_le_bytes, u32_from_le_bytes, u64_from_le_bytes};
use vstd::slice::{slice_subrange, slice_to_vec};
use vstd::utf8::{decode_utf8, valid_utf8};

use crate::error::Error;

verus! {

/// The unsigned 16-bit value whose little-endian image sits at `i` in `data`.
pub open spec fn spec_u16_at(data: Seq<u8>, i: int) -> u16 {
    spec_u16_from_le_bytes(data.subrange(i, i + 2))
}

/// The unsigned 32-bit value whose little-endian image sits at `i` in `data`.
pub open spec fn spec_u32_at(data: Seq<u8>, i: int) -> u32 {
    spec_u32_from_le_bytes(data.subrange(i, i + 4))
}

/// The unsigned 64-bit value whose little-endian image sits at `i` in `data`.
pub open spec fn spec_u64_at(data: Seq<u8>, i: int) -> u64 {
    spec_u64_from_le_bytes(data.subrange(i, i + 8))
}

/// The signed 64-bit value whose little-endian two's-complement image sits
/// at `i` in `data`.
pub open spec fn spec_i64_at(data: Seq<u8>, i: int) -> i64 {
    spec_u64_at(data, i) as i64
}

/// The position of the first zero byte at or after `i`, if any.
pub open spec fn spec_find_nul(data: Seq<u8>, i: int) -> Option<int>
    decreases data.len() - i,
{
    if i < 0 || i >= data.len() {
        None
    } else if data[i] == 0 {
        Some(i)
    } else {
        spec_find_nul(data, i + 1)
    }
}

/// Reading a null-terminated string that starts at `i`: the decoded
/// characters and the position just past the terminator, or the error that
/// the read reports. A missing terminator and an invalid UTF-8 body are
/// told apart.
pub open spec fn spec_read_string(data: Seq<u8>, i: int) -> Result<(Seq<char>, int), Error> {
    match spec_find_nul(data, i) {
        Option::None => Result::Err(Error::UnterminatedStringRead),
        Option::Some(j) => {
            let bytes = data.subrange(i, j);
            if valid_utf8(bytes) {
                Result::Ok((decode_utf8(bytes), j + 1))
            } else {
                Result::Err(Error::InvalidUTF8InString)
            }
        },
    }
}

/// Copy of `v[i..j]` as an owned vector.
pub(crate) fn vec_subrange(v: &Vec<u8>, i: usize, j: usize) -> (r: Vec<u8>)
    requires
        i <= j <= v@.len(),
    ensures
        r@ == v@.subrange(i as int, j as int),
{
    slice_to_vec(slice_subrange(v.as_slice(), i, j))
}

/// Relies on String::from_utf8: it succeeds exactly on input that is valid
/// UTF-8 and then returns the decoding of that input.
#[verifier::external_body]
pub(crate) fn vec_to_string(bytes: Vec<u8>) -> (r: Option<String>)
    ensures
        r is Some <==> valid_utf8(bytes@),
        r is Some ==> r.unwrap()@ == decode_utf8(bytes@),
{
    String::from_utf8(bytes).ok()
}

/// A cursor over the body of a file read into memory: little-endian
/// fixed-width integers and null-terminated strings, plus the legacy
/// separate string table of the version-0 framing.
pub struct FileReader {
    /// The content of the file's body.
    pub data: Vec<u8>,
    /// Where we have read to; advances with each read.
    pub read_index: usize,
    /// The legacy string table of a version-0 file; empty otherwise.
    pub strings_v0: Vec<u8>,
}

impl FileReader {
    /// Frame the raw bytes of a file. A file whose first four bytes are
    /// zero uses the legacy version-0 framing: the next four bytes point at
    /// a separate string table, and the body starts at offset eight (and
    /// runs to the end of the file, string table included). Any other file
    /// is its own body. Returns the cursor and whether the file is
    /// version 0.
    pub fn from_bytes(bytes: Vec<u8>) -> (r: Result<(Self, bool), Error>)
        ensures
            bytes@.len() < 4 ==> r == Result::<(Self, bool), Error>::Err(Error::OutOfBoundsFileRead),
            bytes@.len() >= 4 && spec_u32_at(bytes@, 0) != 0 ==> {
                &&& r is Ok
                &&& r.unwrap().0.data@ == bytes@
                &&& r.unwrap().0.read_index == 0
                &&& r.unwrap().0.strings_v0@ == Seq::<u8>::empty()
                &&& r.unwrap().1 == false
            },
            bytes@.len() >= 4 && spec_u32_at(bytes@, 0) == 0 && bytes@.len() < 8 ==> r
                == Result::<(Self, bool), Error>::Err(Error::OutOfBoundsFileRead),
            bytes@.len() >= 8 && spec_u32_at(bytes@, 0) == 0 && spec_u32_at(bytes@, 4) > bytes@.len() ==> r
                == Result::<(Self, bool), Error>::Err(Error::OutOfBoundsFileRead),
            bytes@.len() >= 8 && spec_u32_at(bytes@, 0) == 0 && spec_u32_at(bytes@, 4) <= bytes@.len() ==> {
                &&& r is Ok
                &&& r.unwrap().0.data@ == bytes@.subrange(8, bytes@.len() as int)
                &&& r.unwrap().0.read_index == 0
                &&& r.unwrap().0.strings_v0@ == bytes@.subrange(spec_u32_at(bytes@, 4) as int, bytes@.len() as int)
                &&& r.unwrap().1 == true
            },
    {
        if bytes.len() < 4 {
            return Err(Error::OutOfBoundsFileRead);
        }
        let val_0 = u32_from_le_bytes(slice_subrange(bytes.as_slice(), 0, 4));
        if val_0 == 0 {
            if bytes.len() < 8 {
                return Err(Error::OutOfBoundsFileRead);
            }
            let string_area_ptr = u32_from_le_bytes(slice_subrange(bytes.as_slice(), 4, 8));
            if string_area_ptr as usize > bytes.len() {
                return Err(Error::OutOfBoundsFileRead);
            }
            let strings = vec_subrange(&bytes, string_area_ptr as usize, bytes.len());
            let data = vec_subrange(&bytes, 8, bytes.len());
            Ok((Self { data, read_index: 0, strings_v0: strings }, true))
        } else {
            Ok((Self { data: bytes, read_index: 0, strings_v0: Vec::new() }, false))
        }
    }

    pub fn read_u8(&mut self) -> (r: Result<u8, Error>)
        ensures
            final(self).data == old(self).data,
            final(self).strings_v0 == old(self).strings_v0,
            old(self).read_index + 1 <= old(self).data@.len() ==> {
                &&& r == Result::<u8, Error>::Ok(old(self).data@[old(self).read_index as int])
                &&& final(self).read_index == old(self).read_index + 1
            },
            old(self).read_index + 1 > old(self).data@.len() ==> {
                &&& r == Result::<u8, Error>::Err(Error::OutOfBoundsFileRead)
                &&& final(self).read_index == old(self).read_index
            },
    {
        if self.read_index < self.data.len() {
            let out = self.data[self.read_index];
            self.read_index = self.read_index + 1;
            Ok(out)
        } else {
            Err(Error::OutOfBoundsFileRead)
        }
    }

    pub fn read_u16(&mut self) -> (r: Result<u16, Error>)
        ensures
            final(self).data == old(self).data,
            final(self).strings_v0 == old(self).strings_v0,
            old(self).read_index + 2 <= old(self).data@.len() ==> {
                &&& r == Result::<u16, Error>::Ok(spec_u16_at(old(self).data@, old(self).read_index as int))
                &&& final(self).read_index == old(self).read_index + 2
            },
            old(self).read_index + 2 > old(self).data@.len() ==> {
                &&& r == Result::<u16, Error>::Err(Error::OutOfBoundsFileRead)
                &&& final(self).read_index == old(self).read_index
            },
    {
        if self.read_index <= self.data.len() && self.data.len() - self.read_index >= 2 {
            let out = u16_from_le_bytes(
                slice_subrange(self.data.as_slice(), self.read_index, self.read_index + 2),
            );
            self.read_index = self.read_index + 2;
            Ok(out)
        } else {
            Err(Error::OutOfBoundsFileRead)
        }
    }

    pub fn read_u32(&mut self) -> (r: Result<u32, Error>)
        ensures
            final(self).data == old(self).data,
            final(self).strings_v0 == old(self).strings_v0,
            old(self).read_index + 4 <= old(self).data@.len() ==> {
                &&& r == Result::<u32, Error>::Ok(spec_u32_at(old(self).data@, old(self).read_index as int))
                &&& final(self).read_index == old(self).read_index + 4
            },
            old(self).read_index + 4 > old(self).data@.len() ==> {
                &&& r == Result::<u32, Error>::Err(Error::OutOfBoundsFileRead)
                &&& final(self).read_index == old(self).read_index
            },
    {
        if self.read_index <= self.data.len() && self.data.len() - self.read_index >= 4 {
            let out = u32_from_le_bytes(
                slice_subrange(self.data.as_slice(), self.read_index, self.read_index + 4),
            );
            self.read_index = self.read_index + 4;
            Ok(out)
        } else {
            Err(Error::OutOfBoundsFileRead)
        }
    }

    pub fn read_u64(&mut self) -> (r: Result<u64, Error>)
        ensures
            final(self).data == old(self).data,
            final(self).strings_v0 == old(self).strings_v0,
            old(self).read_index + 8 <= old(self).data@.len() ==> {
                &&& r == Result::<u64, Error>::Ok(spec_u64_at(old(self).data@, old(self).read_index as int))
                &&& final(self).read_index == old(self).read_index + 8
            },
            old(self).read_index + 8 > old(self).data@.len() ==> {
                &&& r == Result::<u64, Error>::Err(Error::OutOfBoundsFileRead)
                &&& final(self).read_index == old(self).read_index
            },
    {
        if self.read_index <= self.data.len() && self.data.len() - self.read_index >= 8 {
            let out = u64_from_le_bytes(
                slice_subrange(self.data.as_slice(), self.read_index, self.read_index + 8),
            );
            self.read_index = self.read_index + 8;
            Ok(out)
        } else {
            Err(Error::OutOfBoundsFileRead)
        }
    }

    pub fn read_i64(&mut self) -> (r: Result<i64, Error>)
        ensures
            final(self).data == old(self).data,
            final(self).strings_v0 == old(self).strings_v0,
            old(self).read_index + 8 <= old(self).data@.len() ==> {
                &&& r == Result::<i64, Error>::Ok(spec_i64_at(old(self).data@, old(self).read_index as int))
                &&& final(self).read_index == old(self).read_index + 8
            },
            old(self).read_index + 8 > old(self).data@.len() ==> {
                &&& r == Result::<i64, Error>::Err(Error::OutOfBoundsFileRead)
                &&& final(self).read_index == old(self).read_index
            },
    {
        match self.read_u64() {
            Ok(out) => Ok(out as i64),
            Err(e) => Err(e),
        }
    }

    pub fn read_world_pos(&mut self) -> (r: Result<[i64; 2], Error>)
        ensures
            final(self).data == old(self).data,
            final(self).strings_v0 == old(self).strings_v0,
            old(self).read_index + 16 <= old(self).data@.len() ==> {
                &&& r is Ok
                &&& r.unwrap()[0] == spec_i64_at(old(self).data@, old(self).read_index as int)
                &&& r.unwrap()[1] == spec_i64_at(old(self).data@, old(self).read_index + 8)
                &&& final(self).read_index == old(self).read_index + 16
            },
            old(self).read_index + 16 > old(self).data@.len() ==> r == Result::<[i64; 2], Error>::Err(
                Error::OutOfBoundsFileRead,
            ),
    {
        let x = match self.read_i64() {
            Ok(x) => x,
            Err(e) => {
                return Err(e);
            },
        };
        let y = match self.read_i64() {
            Ok(y) => y,
            Err(e) => {
                return Err(e);
            },
        };
        Ok([x, y])
    }

    /// Read the null-terminated string at the cursor and advance past its
    /// terminator.
    pub fn read_string(&mut self) -> (r: Result<String, Error>)
        requires
            old(self).read_index <= old(self).data@.len(),
        ensures
            final(self).data == old(self).data,
            final(self).strings_v0 == old(self).strings_v0,
            match spec_read_string(old(self).data@, old(self).read_index as int) {
                Result::Ok((s, j)) => {
                    &&& r is Ok
                    &&& r.unwrap()@ == s
                    &&& final(self).read_index == j
                },
                Result::Err(e) => {
                    &&& r == Result::<String, Error>::Err(e)
                    &&& final(self).read_index == old(self).read_index
                },
            },
    {
        let mut j = self.read_index;
        while j < self.data.len() && *vstd::slice::slice_index_get(self.data.as_slice(), j) != 0
            invariant
                self.read_index <= j <= self.data@.len(),
                spec_find_nul(self.data@, self.read_index as int) == spec_find_nul(self.data@, j as int),
            decreases self.data@.len() - j,
        {
            j = j + 1;
        }
        if j == self.data.len() {
            return Err(Error::UnterminatedStringRead);
        }
        let bytes = vec_subrange(&self.data, self.read_index, j);
        match vec_to_string(bytes) {
            Some(s) => {
                self.read_index = j + 1;
                Ok(s)
            },
            None => Err(Error::InvalidUTF8InString),
        }
    }

    /// The null-terminated string at `start_index` in the body, with the
    /// count of bytes it occupies (terminator included). The cursor does
    /// not move.
    pub fn get_string(&self, start_index: usize) -> (r: Option<(String, usize)>)
        ensures
            match spec_read_string(self.data@, start_index as int) {
                Result::Ok((s, j)) => {
                    &&& r is Some
                    &&& r.unwrap().0@ == s
                    &&& r.unwrap().1 == j - start_index
                },
                Result::Err(_) => r is None,
            },
            start_index > self.data@.len() ==> r is None,
    {
        if start_index > self.data.len() {
            proof {
                assert(spec_find_nul(self.data@, start_index as int) is None);
            }
            return None;
        }
        let mut j = start_index;
        while j < self.data.len() && *vstd::slice::slice_index_get(self.data.as_slice(), j) != 0
            invariant
                start_index <= j <= self.data@.len(),
                spec_find_nul(self.data@, start_index as int) == spec_find_nul(self.data@, j as int),
            decreases self.data@.len() - j,
        {
            j = j + 1;
        }
        if j == self.data.len() {
            return None;
        }
        let bytes = vec_subrange(&self.data, start_index, j);
        match vec_to_string(bytes) {
            Some(s) => Some((s, j + 1 - start_index)),
            None => None,
        }
    }

    /// The null-terminated string at `start_index` in the legacy string
    /// table of a version-0 file.
    pub fn get_string_v0(&self, start_index: u32) -> (r: Option<String>)
        ensures
            match spec_read_string(self.strings_v0@, start_index as int) {
                Result::Ok((s, _)) => {
                    &&& r is Some
                    &&& r.unwrap()@ == s
                },
                Result::Err(_) => r is None,
            },
    {
        if start_index as usize > self.strings_v0.len() {
            proof {
                assert(spec_find_nul(self.strings_v0@, start_index as int) is None);
            }
            return None;
        }
        let mut j = start_index as usize;
        while j < self.strings_v0.len() && *vstd::slice::slice_index_get(self.strings_v0.as_slice(), j) != 0
            invariant
                start_index <= j <= self.strings_v0@.len(),
                spec_find_nul(self.strings_v0@, start_index as int) == spec_find_nul(
                    self.strings_v0@,
                    j as int,
                ),
            decreases self.strings_v0@.len() - j,
        {
            j = j + 1;
        }
        if j == self.strings_v0.len() {
            return None;
        }
        let bytes = vec_subrange(&self.strings_v0, start_index as usize, j);
        match vec_to_string(bytes) {
            Some(s) => Some(s),
            None => None,
        }
    }
}

/// A found terminator lies at or past the start, inside the data.
pub proof fn lemma_find_nul_bounds(data: Seq<u8>, i: int)
    ensures
        spec_find_nul(data, i) matches Some(p) ==> i <= p < data.len(),
    decreases data.len() - i,
{
    if 0 <= i < data.len() && data[i] != 0 {
        lemma_find_nul_bounds(data, i + 1);
    }
}

/// A successful string read lands strictly past where it started and
/// within the data.
pub proof fn lemma_read_string_bounds(data: Seq<u8>, i: int)
    ensures
        spec_read_string(data, i) matches Ok((s, j)) ==> i < j <= data.len(),
{
    lemma_find_nul_bounds(data, i);
}

} // verus!
