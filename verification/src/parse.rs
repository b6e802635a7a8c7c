use vstd::prelude::*;

use crate::error::Error;

verus! {

/// The outcome of reading one record out of a byte sequence: the decoded
/// value together with the index just past it, or the error that the read
/// reports. Used in specifications only.
pub enum Parse<T> {
    Found(T, int),
    Failed(Error),
}

} // verus!
