use vstd::prelude::*;
use vstd::bytes::{spec_u32_to_le_bytes, u32_to_le_bytes};
use vstd::string::StrSliceExecFns;
use vstd::utf8::encode_utf8;

verus! {

/// Writes the legacy file layout: a body of raw bytes, and a separate
/// string table that the body points into; the file starts with the
/// table's offset.
pub struct FormattedFileWriter {
    pub body: Vec<u8>,
    pub strings: Vec<u8>,
}

/// The first position where the needle occurs in the haystack at or after
/// `i`, if any.
pub open spec fn spec_find_window_from(hay: Seq<u8>, needle: Seq<u8>, i: int) -> Option<int>
    decreases hay.len() + 1 - i,
{
    if i < 0 || i + needle.len() > hay.len() {
        None
    } else if hay.subrange(i, i + needle.len() as int) == needle {
        Some(i)
    } else {
        spec_find_window_from(hay, needle, i + 1)
    }
}

/// A nonempty string encodes to at least one byte.
pub proof fn lemma_encode_utf8_nonempty(s: Seq<char>)
    requires
        s.len() > 0,
    ensures
        encode_utf8(s).len() > 0,
{
    vstd::utf8::char_is_scalar(s[0]);
}

impl FormattedFileWriter {
    pub fn new() -> (r: Self)
        ensures
            r.body@ == Seq::<u8>::empty(),
            r.strings@ == Seq::<u8>::empty(),
    {
        Self { body: Vec::new(), strings: Vec::new() }
    }

    /// The whole file image: the string table's offset, the body, then the
    /// string table; nothing when the body is too large for the offset to
    /// fit.
    pub fn write_to_vec(&self) -> (r: Option<Vec<u8>>)
        ensures
            self.body@.len() + 4 <= u32::MAX ==> (r matches Some(out) && out@
                == spec_u32_to_le_bytes((self.body@.len() + 4) as u32) + self.body@
                + self.strings@),
            self.body@.len() + 4 > u32::MAX ==> r is None,
    {
        if self.body.len() > (u32::MAX - 4) as usize {
            return None;
        }
        let mut out: Vec<u8> = Vec::new();
        let mut ptr_bytes = u32_to_le_bytes((self.body.len() + 4) as u32);
        out.append(&mut ptr_bytes);
        let mut body = self.body.clone();
        out.append(&mut body);
        let mut strings = self.strings.clone();
        out.append(&mut strings);
        Some(out)
    }

    /// Intern a string in the table and hand back its position: an
    /// occurrence of its bytes that is already there is reused, and a new
    /// string is appended with its terminator. Nothing when the table has
    /// outgrown the pointer width.
    #[verifier::loop_isolation(false)]
    pub fn push_string(&mut self, string: &String) -> (r: Option<u32>)
        requires
            string@.len() > 0,
        ensures
            final(self).body@ == old(self).body@,
            match spec_find_window_from(old(self).strings@, encode_utf8(string@), 0) {
                Some(pos) => {
                    &&& final(self).strings@ == old(self).strings@
                    &&& r == Some(pos as u32)
                },
                None => {
                    if old(self).strings@.len() <= u32::MAX {
                        &&& final(self).strings@ == old(self).strings@ + encode_utf8(string@)
                            + seq![0u8]
                        &&& r == Some(old(self).strings@.len() as u32)
                    } else {
                        &&& final(self).strings@ == old(self).strings@
                        &&& r is None
                    }
                },
            },
    {
        proof {
            lemma_encode_utf8_nonempty(string@);
        }
        let string_bytes = string.as_str().as_bytes_vec();
        let n = string_bytes.len();
        let ghost hay = self.strings@;
        let ghost needle = string_bytes@;
        if n <= self.strings.len() {
            let mut i: usize = 0;
            proof {
                assert(spec_find_window_from(hay, needle, 0) == spec_find_window_from(
                    hay,
                    needle,
                    0,
                ));
            }
            while i <= self.strings.len() - n
                invariant
                    0 <= i,
                    n <= hay.len(),
                    i + n <= hay.len() + 1,
                    spec_find_window_from(hay, needle, 0) == spec_find_window_from(
                        hay,
                        needle,
                        i as int,
                    ),
                decreases hay.len() + 1 - i,
            {
                let mut matches_here = true;
                let mut k: usize = 0;
                while k < n
                    invariant
                        0 <= k <= n,
                        i + n <= hay.len(),
                        matches_here ==> hay.subrange(i as int, i + k as int) == needle.subrange(
                            0,
                            k as int,
                        ),
                        !matches_here ==> exists|w: int|
                            0 <= w < k && hay[i + w] != needle[w],
                    decreases n - k,
                {
                    let ghost pre = matches_here;
                    if self.strings[i + k] != string_bytes[k] {
                        matches_here = false;
                    }
                    proof {
                        if pre && hay[i + k] == needle[k as int] {
                            assert(hay.subrange(i as int, i + k as int + 1) =~= hay.subrange(
                                i as int,
                                i + k as int,
                            ).push(hay[i + k]));
                            assert(needle.subrange(0, k as int + 1) =~= needle.subrange(
                                0,
                                k as int,
                            ).push(needle[k as int]));
                        }
                        if pre && hay[i + k] != needle[k as int] {
                            assert(hay[i + k as int] != needle[k as int]);
                        }
                    }
                    k = k + 1;
                }
                if matches_here {
                    proof {
                        assert(needle.subrange(0, n as int) =~= needle);
                        assert(hay.subrange(i as int, i + n as int) == needle);
                    }
                    return Some(#[verifier::truncate] (i as u32));
                }
                proof {
                    let w = choose|w: int| 0 <= w < n && hay[i + w] != needle[w];
                    assert(hay.subrange(i as int, i + n as int)[w] == hay[i + w]);
                    assert(hay.subrange(i as int, i + n as int) != needle);
                }
                i = i + 1;
            }
            proof {
                assert(spec_find_window_from(hay, needle, i as int) is None);
            }
        } else {
            proof {
                assert(spec_find_window_from(hay, needle, 0) is None);
            }
        }
        if self.strings.len() > u32::MAX as usize {
            return None;
        }
        let pos = self.strings.len() as u32;
        let mut bytes = string_bytes;
        self.strings.append(&mut bytes);
        self.strings.push(0);
        proof {
            assert(self.strings@ =~= hay + needle + seq![0u8]);
        }
        Some(pos)
    }
}

} // verus!
