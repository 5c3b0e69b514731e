//! Ordering of the four partial waves of a layer: split into forward
//! (transmitted) and backward (reflected) pairs, order each pair, and
//! permute eigenvalues and eigenvector columns accordingly.
use vstd::prelude::*;

verus! {

/// Number of forward waves among the first `k` flags.
pub open spec fn count_forward(forward: [bool; 4], k: int) -> int
    decreases k,
{
    if k <= 0 {
        0
    } else {
        count_forward(forward, k - 1) + if forward[k - 1] { 1int } else { 0int }
    }
}

/// `t` lists the two forward waves and `r` the two backward ones, each pair
/// in increasing index order.
pub open spec fn is_direction_split(forward: [bool; 4], t: [usize; 2], r: [usize; 2]) -> bool {
    &&& t[0] < t[1] < 4
    &&& r[0] < r[1] < 4
    &&& forward[t[0] as int] && forward[t[1] as int]
    &&& !forward[r[0] as int] && !forward[r[1] as int]
}

/// Split the partial waves by propagation direction: `Some((forward pair,
/// backward pair))` exactly when two waves propagate forward.
pub fn split_by_direction(forward: [bool; 4]) -> (res: Option<([usize; 2], [usize; 2])>)
    ensures
        res is Some <==> count_forward(forward, 4) == 2,
        res matches Some((t, r)) ==> is_direction_split(forward, t, r),
{
    let mut t: [usize; 2] = [0, 0];
    let mut r: [usize; 2] = [0, 0];
    let mut nt: usize = 0;
    let mut nr: usize = 0;
    let mut k: usize = 0;
    while k < 4
        invariant
            0 <= k <= 4,
            nt == count_forward(forward, k as int),
            nt + nr == k,
            nt >= 1 ==> t[0] < k && forward[t[0] as int],
            nt >= 2 ==> t[0] < t[1] < k && forward[t[1] as int],
            nr >= 1 ==> r[0] < k && !forward[r[0] as int],
            nr >= 2 ==> r[0] < r[1] < k && !forward[r[1] as int],
        decreases 4 - k,
    {
        if forward[k] {
            if nt < 2 {
                t[nt] = k;
            }
            nt = nt + 1;
        } else {
            if nr < 2 {
                r[nr] = k;
            }
            nr = nr + 1;
        }
        k = k + 1;
    }
    if nt != 2 {
        return None;
    }
    Some((t, r))
}

/// Final column order of the partial waves:
/// `[second forward, first forward, second backward, first backward]`
/// after optionally swapping each pair.
pub open spec fn spec_wave_order(t: [usize; 2], r: [usize; 2], swap_trans: bool, swap_refl: bool) -> Seq<usize> {
    let (t0, t1) = if swap_trans { (t[1], t[0]) } else { (t[0], t[1]) };
    let (r0, r1) = if swap_refl { (r[1], r[0]) } else { (r[0], r[1]) };
    seq![t1, t0, r1, r0]
}

/// Column order of the sorted partial waves from the direction split and
/// the two pair-swap decisions.
pub fn sorted_wave_order(t: [usize; 2], r: [usize; 2], swap_trans: bool, swap_refl: bool) -> (order: [usize; 4])
    ensures
        order@ == spec_wave_order(t, r, swap_trans, swap_refl),
{
    let (t0, t1): (usize, usize) = if swap_trans { (t[1], t[0]) } else { (t[0], t[1]) };
    let (r0, r1): (usize, usize) = if swap_refl { (r[1], r[0]) } else { (r[0], r[1]) };
    let order: [usize; 4] = [t1, t0, r1, r0];
    assert(order@ =~= spec_wave_order(t, r, swap_trans, swap_refl));
    order
}

/// The sorted order is a permutation of the four waves with the forward
/// pair in columns 0 and 1 and the backward pair in columns 2 and 3,
/// whatever the pair-swap decisions.
pub proof fn lemma_wave_order_is_permutation(
    forward: [bool; 4],
    t: [usize; 2],
    r: [usize; 2],
    swap_trans: bool,
    swap_refl: bool,
)
    requires
        is_direction_split(forward, t, r),
    ensures
        forall|m: int| 0 <= m < 4 ==> #[trigger] spec_wave_order(t, r, swap_trans, swap_refl)[m] < 4,
        forall|m: int, n: int|
            0 <= m < 4 && 0 <= n < 4 && m != n ==> #[trigger] spec_wave_order(t, r, swap_trans, swap_refl)[m]
                != #[trigger] spec_wave_order(t, r, swap_trans, swap_refl)[n],
        forward[spec_wave_order(t, r, swap_trans, swap_refl)[0] as int],
        forward[spec_wave_order(t, r, swap_trans, swap_refl)[1] as int],
        !forward[spec_wave_order(t, r, swap_trans, swap_refl)[2] as int],
        !forward[spec_wave_order(t, r, swap_trans, swap_refl)[3] as int],
{
}

/// How the pair-swap decisions act on the sorted order: without swaps each
/// pair is listed with its higher wave index first; swapping the forward
/// pair exchanges columns 0 and 1 and leaves the backward columns alone, and
/// swapping the backward pair exchanges columns 2 and 3 and leaves the
/// forward columns alone.
pub proof fn lemma_wave_order_swaps(
    forward: [bool; 4],
    t: [usize; 2],
    r: [usize; 2],
    swap_trans: bool,
    swap_refl: bool,
)
    requires
        is_direction_split(forward, t, r),
    ensures
        spec_wave_order(t, r, false, false)[0] > spec_wave_order(t, r, false, false)[1],
        spec_wave_order(t, r, false, false)[2] > spec_wave_order(t, r, false, false)[3],
        spec_wave_order(t, r, !swap_trans, swap_refl)[0] == spec_wave_order(t, r, swap_trans, swap_refl)[1],
        spec_wave_order(t, r, !swap_trans, swap_refl)[1] == spec_wave_order(t, r, swap_trans, swap_refl)[0],
        spec_wave_order(t, r, !swap_trans, swap_refl)[2] == spec_wave_order(t, r, swap_trans, swap_refl)[2],
        spec_wave_order(t, r, !swap_trans, swap_refl)[3] == spec_wave_order(t, r, swap_trans, swap_refl)[3],
        spec_wave_order(t, r, swap_trans, !swap_refl)[2] == spec_wave_order(t, r, swap_trans, swap_refl)[3],
        spec_wave_order(t, r, swap_trans, !swap_refl)[3] == spec_wave_order(t, r, swap_trans, swap_refl)[2],
        spec_wave_order(t, r, swap_trans, !swap_refl)[0] == spec_wave_order(t, r, swap_trans, swap_refl)[0],
        spec_wave_order(t, r, swap_trans, !swap_refl)[1] == spec_wave_order(t, r, swap_trans, swap_refl)[1],
        spec_wave_order(t, r, swap_trans, swap_refl).len() == 4,
{
}

/// Permute eigenvalues and eigenvector columns (column `k` of `vecs` belongs
/// to `vals[k]`): column `m` of the result is column `order[m]` of the input.
pub fn assemble_waves<T: Copy>(vals: &[T; 4], vecs: &[[T; 4]; 4], order: &[usize; 4]) -> (res: ([T; 4], [[T; 4]; 4]))
    requires
        forall|m: int| 0 <= m < 4 ==> #[trigger] order[m] < 4,
    ensures
        forall|m: int| 0 <= m < 4 ==> #[trigger] res.0[m] == vals[order[m] as int],
        forall|i: int, m: int| 0 <= i < 4 && 0 <= m < 4 ==> #[trigger] res.1[i][m] == vecs[i][order[m] as int],
{
    let (o0, o1, o2, o3): (usize, usize, usize, usize) = (order[0], order[1], order[2], order[3]);
    let q = [vals[o0], vals[o1], vals[o2], vals[o3]];
    let p = [
        [vecs[0][o0], vecs[0][o1], vecs[0][o2], vecs[0][o3]],
        [vecs[1][o0], vecs[1][o1], vecs[1][o2], vecs[1][o3]],
        [vecs[2][o0], vecs[2][o1], vecs[2][o2], vecs[2][o3]],
        [vecs[3][o0], vecs[3][o1], vecs[3][o2], vecs[3][o3]],
    ];
    assert forall|m: int| 0 <= m < 4 implies #[trigger] q[m] == vals[order[m] as int] by {
        if m == 0 {} else if m == 1 {} else if m == 2 {} else {}
    }
    assert forall|i: int, m: int| 0 <= i < 4 && 0 <= m < 4 implies #[trigger] p[i][m] == vecs[i][order[m] as int] by {
        if m == 0 {} else if m == 1 {} else if m == 2 {} else {}
    }
    (q, p)
}

} // verus!
