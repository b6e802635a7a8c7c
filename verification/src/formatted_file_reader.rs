use vstd::prelude::*;

use crate::file_reader::{spec_read_string, spec_u32_at, vec_subrange, vec_to_string};

verus! {

/// Reads the legacy file layout: a body of raw bytes and a separate string
/// table that the body points into. A file starting with four zero bytes
/// is the oldest framing, whose table offset follows the marker; otherwise
/// the leading word is the table offset itself.
pub struct FormattedFileReader {
    pub body: Vec<u8>,
    pub strings: Vec<u8>,
}

impl FormattedFileReader {
    /// Frame the raw bytes of a file: the body and the string table, and
    /// whether the oldest framing was used.
    pub fn from_bytes(data: Vec<u8>) -> (r: Option<(Self, bool)>)
        ensures
            match spec_formatted_file(data@) {
                Some((body, strings, is_version_0)) => {
                    &&& r is Some
                    &&& r.unwrap().0.body@ == body
                    &&& r.unwrap().0.strings@ == strings
                    &&& r.unwrap().1 == is_version_0
                },
                None => r is None,
            },
    {
        if data.len() < 4 {
            return None;
        }
        let val_0 = vstd::bytes::u32_from_le_bytes(
            vstd::slice::slice_subrange(data.as_slice(), 0, 4),
        );
        let (string_area_ptr, is_version_0, body_start): (u32, bool, usize) = if val_0 == 0 {
            if data.len() < 8 {
                return None;
            }
            let ptr = vstd::bytes::u32_from_le_bytes(
                vstd::slice::slice_subrange(data.as_slice(), 4, 8),
            );
            (ptr, true, 8)
        } else {
            (val_0, false, 4)
        };
        if (string_area_ptr as usize) < body_start || string_area_ptr as usize > data.len() {
            return None;
        }
        let body = vec_subrange(&data, body_start, string_area_ptr as usize);
        let strings = vec_subrange(&data, string_area_ptr as usize, data.len());
        Some((Self { body, strings }, is_version_0))
    }

    /// The null-terminated string at `start_index` in the string table.
    pub fn get_string(&self, start_index: u32) -> (r: Option<String>)
        ensures
            match spec_read_string(self.strings@, start_index as int) {
                Result::Ok((s, _)) => r is Some && r.unwrap()@ == s,
                Result::Err(_) => r is None,
            },
    {
        if start_index as usize > self.strings.len() {
            proof {
                assert(crate::file_reader::spec_find_nul(self.strings@, start_index as int)
                    is None);
            }
            return None;
        }
        let mut j = start_index as usize;
        while j < self.strings.len() && *vstd::slice::slice_index_get(self.strings.as_slice(), j)
            != 0
            invariant
                start_index <= j <= self.strings@.len(),
                crate::file_reader::spec_find_nul(self.strings@, start_index as int)
                    == crate::file_reader::spec_find_nul(self.strings@, j as int),
            decreases self.strings@.len() - j,
        {
            j = j + 1;
        }
        if j == self.strings.len() {
            return None;
        }
        let bytes = vec_subrange(&self.strings, start_index as usize, j);
        match vec_to_string(bytes) {
            Some(s) => Some(s),
            None => None,
        }
    }
}

/// The body, string table and framing age that a whole legacy file image
/// yields, or nothing when its offsets do not fit the file.
pub open spec fn spec_formatted_file(data: Seq<u8>) -> Option<(Seq<u8>, Seq<u8>, bool)> {
    if data.len() < 4 {
        None
    } else if spec_u32_at(data, 0) == 0 {
        if data.len() < 8 {
            None
        } else {
            let ptr = spec_u32_at(data, 4);
            if ptr < 8 || ptr > data.len() {
                None
            } else {
                Some(
                    (
                        data.subrange(8, ptr as int),
                        data.subrange(ptr as int, data.len() as int),
                        true,
                    ),
                )
            }
        }
    } else {
        let ptr = spec_u32_at(data, 0);
        if ptr < 4 || ptr > data.len() {
            None
        } else {
            Some(
                (
                    data.subrange(4, ptr as int),
                    data.subrange(ptr as int, data.len() as int),
                    false,
                ),
            )
        }
    }
}

} // verus!
