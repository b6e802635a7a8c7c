use vstd::prelude::*;

verus! {

/// True exactly when the string's characters equal the literal's.
pub(crate) fn string_eq_lit(name: &String, lit: &str) -> (r: bool)
    ensures
        r == (name@ == lit@),
{
    let s: String = lit.to_owned();
    *name == s
}

/// The element at `i`, or nothing when `i` is out of bounds.
pub(crate) fn vec_get<T: Copy>(v: &Vec<T>, i: usize) -> (r: Option<T>)
    ensures
        i < v@.len() ==> r == Some(v@[i as int]),
        i >= v@.len() ==> r is None,
{
    if i < v.len() {
        Some(v[i])
    } else {
        None
    }
}

/// Floor division of a world coordinate by the chunk side: the chunk
/// coordinate containing it.
pub fn floor_div_64(x: i64) -> (r: i64)
    ensures
        r == x as int / 64,
{
    if x >= 0 {
        let q = ((x as u64) / 64) as i64;
        proof {
            assert(q == x as int / 64) by (nonlinear_arith)
                requires
                    x >= 0,
                    q == (x as u64) / 64,
            ;
        }
        q
    } else {
        let y = (-(x + 1)) as u64;
        let q = -((y / 64) as i64) - 1;
        proof {
            assert(q == x as int / 64) by (nonlinear_arith)
                requires
                    x < 0,
                    y == -(x as int + 1),
                    q == -((y as int) / 64) - 1,
            ;
        }
        q
    }
}

/// The offset of a world coordinate inside its chunk.
pub fn rem_euclid_64(x: i64) -> (r: i64)
    ensures
        r == x as int % 64,
        0 <= r < 64,
{
    let d = floor_div_64(x);
    proof {
        assert(x as int % 64 == x - 64 * (x as int / 64)) by (nonlinear_arith);
        assert(0 <= x as int % 64 < 64) by (nonlinear_arith);
        assert(-0x8000000000000000 <= x - 64 * (d as int) < 0x8000000000000000);
    }
    let r = x - 64 * d;
    r
}

} // verus!
