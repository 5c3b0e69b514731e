//! Flat-buffer layout of the internal-fields output.
use vstd::prelude::*;
use crate::layout::{lemma_radix_bound, lemma_radix_digits_unique};

verus! {

/// Position of the real part of one complex field sample in the flat
/// per-point buffer: `(((pol * 2 + eh) * n_z + iz) * 3 + comp) * 2`.
pub open spec fn field_buf_offset(pol: int, eh: int, iz: int, comp: int, n_z: int) -> int {
    (((pol * 2 + eh) * n_z + iz) * 3 + comp) * 2
}

/// Flat-buffer index for one (pol, E/H, depth, component) complex value,
/// pointing at its real part (the imaginary part follows at `+ 1`).
/// `pol`: p = 0, s = 1; `eh`: E = 0, H = 1.
pub fn field_buf_index(pol: usize, eh: usize, iz: usize, comp: usize, n_z: usize) -> (idx: usize)
    requires
        pol * 2 + eh <= usize::MAX,
        field_buf_offset(pol as int, eh as int, iz as int, comp as int, n_z as int) <= usize::MAX,
    ensures
        idx == field_buf_offset(pol as int, eh as int, iz as int, comp as int, n_z as int),
{
    let a: usize = pol * 2 + eh;
    proof {
        assert(0 <= a * n_z <= (a * n_z + iz) * 3 + comp) by (nonlinear_arith)
            requires 0 <= a, 0 <= n_z, 0 <= iz, 0 <= comp;
    }
    let b: usize = a * n_z + iz;
    let c: usize = b * 3 + comp;
    c * 2
}

/// Layout law of the internal-fields buffer: for every valid
/// (pol, E/H, depth, component) the real part sits at an even offset, the
/// real/imaginary pair fits in a buffer of `2 * 2 * n_z * 3 * 2` values, and
/// two distinct samples never share an offset.
pub proof fn lemma_field_buf_layout(
    n_z: int,
    pol: int, eh: int, iz: int, comp: int,
    pol2: int, eh2: int, iz2: int, comp2: int,
)
    requires
        0 <= pol < 2, 0 <= eh < 2, 0 <= iz < n_z, 0 <= comp < 3,
        0 <= pol2 < 2, 0 <= eh2 < 2, 0 <= iz2 < n_z, 0 <= comp2 < 3,
    ensures
        field_buf_offset(pol, eh, iz, comp, n_z) % 2 == 0,
        0 <= field_buf_offset(pol, eh, iz, comp, n_z),
        field_buf_offset(pol, eh, iz, comp, n_z) + 1 < 2 * 2 * n_z * 3 * 2,
        field_buf_offset(pol, eh, iz, comp, n_z) == field_buf_offset(pol2, eh2, iz2, comp2, n_z)
            ==> (pol == pol2 && eh == eh2 && iz == iz2 && comp == comp2),
{
    let a = pol * 2 + eh;
    let a2 = pol2 * 2 + eh2;
    lemma_radix_bound(pol, eh, 2, 2);
    lemma_radix_bound(pol2, eh2, 2, 2);
    lemma_radix_bound(a, iz, 4, n_z);
    lemma_radix_bound(a2, iz2, 4, n_z);
    let b = a * n_z + iz;
    let b2 = a2 * n_z + iz2;
    lemma_radix_bound(b, comp, 4 * n_z, 3);
    let c = b * 3 + comp;
    let c2 = b2 * 3 + comp2;
    assert(field_buf_offset(pol, eh, iz, comp, n_z) == c * 2);
    assert(field_buf_offset(pol2, eh2, iz2, comp2, n_z) == c2 * 2);
    assert((c * 2) % 2 == 0);
    assert(c * 2 + 1 < 2 * 2 * n_z * 3 * 2) by (nonlinear_arith)
        requires 0 <= c < 4 * n_z * 3;
    if c * 2 == c2 * 2 {
        assert(0 <= b2) by (nonlinear_arith) requires 0 <= a2, 0 <= n_z, 0 <= iz2, b2 == a2 * n_z + iz2;
        lemma_radix_digits_unique(b, comp, b2, comp2, 3);
        lemma_radix_digits_unique(a, iz, a2, iz2, n_z);
        lemma_radix_digits_unique(pol, eh, pol2, eh2, 2);
    }
}

/// Coverage half of the layout law: every even offset below
/// `2 * 2 * n_z * 3 * 2` is the real-part slot of some valid
/// (pol, E/H, depth, component) sample. With `lemma_field_buf_layout` the
/// layout is a bijection onto the even offsets of the buffer.
pub proof fn lemma_field_buf_covers(n_z: int, o: int)
    requires
        0 <= o < 2 * 2 * n_z * 3 * 2,
        o % 2 == 0,
    ensures
        exists|pol: int, eh: int, iz: int, comp: int|
            0 <= pol < 2 && 0 <= eh < 2 && 0 <= iz < n_z && 0 <= comp < 3
                && #[trigger] field_buf_offset(pol, eh, iz, comp, n_z) == o,
{
    assert(n_z > 0) by (nonlinear_arith) requires 0 <= o < 2 * 2 * n_z * 3 * 2;
    let c = o / 2;
    vstd::arithmetic::div_mod::lemma_fundamental_div_mod(o, 2);
    assert(o == 2 * c);
    let comp = c % 3;
    let b = c / 3;
    vstd::arithmetic::div_mod::lemma_fundamental_div_mod(c, 3);
    vstd::arithmetic::div_mod::lemma_mod_pos_bound(c, 3);
    assert(0 <= b < 4 * n_z);
    let iz = b % n_z;
    let a = b / n_z;
    vstd::arithmetic::div_mod::lemma_fundamental_div_mod(b, n_z);
    vstd::arithmetic::div_mod::lemma_mod_pos_bound(b, n_z);
    assert(0 <= a < 4) by (nonlinear_arith)
        requires b == n_z * a + iz, 0 <= iz < n_z, 0 <= b < 4 * n_z, n_z > 0;
    let eh = a % 2;
    let pol = a / 2;
    vstd::arithmetic::div_mod::lemma_fundamental_div_mod(a, 2);
    vstd::arithmetic::div_mod::lemma_mod_pos_bound(a, 2);
    assert(0 <= pol < 2);
    assert(a == pol * 2 + eh);
    assert(b == a * n_z + iz) by (nonlinear_arith) requires b == n_z * a + iz;
    assert(field_buf_offset(pol, eh, iz, comp, n_z) == o);
}

/// Order of the internal-fields buffer: the first sample starts the buffer,
/// and each complex sample (two values) directly follows the previous one
/// with the component varying fastest, then the depth, then E/H, then the
/// polarization.
pub proof fn lemma_field_buf_order(n_z: int, pol: int, eh: int, iz: int, comp: int)
    requires
        n_z >= 1,
        0 <= pol < 2,
        0 <= eh < 2,
        0 <= iz < n_z,
        0 <= comp < 3,
    ensures
        field_buf_offset(0, 0, 0, 0, n_z) == 0,
        comp + 1 < 3 ==> field_buf_offset(pol, eh, iz, comp + 1, n_z) == field_buf_offset(pol, eh, iz, comp, n_z) + 2,
        iz + 1 < n_z ==> field_buf_offset(pol, eh, iz + 1, 0, n_z) == field_buf_offset(pol, eh, iz, 2, n_z) + 2,
        field_buf_offset(pol, 1, 0, 0, n_z) == field_buf_offset(pol, 0, n_z - 1, 2, n_z) + 2,
        field_buf_offset(1, 0, 0, 0, n_z) == field_buf_offset(0, 1, n_z - 1, 2, n_z) + 2,
{
    assert((pol * 2 + 1) * n_z == (pol * 2) * n_z + n_z) by (nonlinear_arith);
    assert(2 * n_z == n_z + n_z) by (nonlinear_arith);
    assert(0 * n_z == 0) by (nonlinear_arith);
}

} // verus!
