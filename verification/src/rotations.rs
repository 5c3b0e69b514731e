//! Structural helpers of the 3x3 rotation algebra.
use vstd::prelude::*;

verus! {

/// Transpose of a 3x3 matrix (the inverse of a rotation).
pub fn transpose3<T: Copy>(r: &[[T; 3]; 3]) -> (o: [[T; 3]; 3])
    ensures
        forall|i: int, j: int| 0 <= i < 3 && 0 <= j < 3 ==> #[trigger] o[i][j] == r[j][i],
{
    [
        [r[0][0], r[1][0], r[2][0]],
        [r[0][1], r[1][1], r[2][1]],
        [r[0][2], r[1][2], r[2][2]],
    ]
}

/// Transposing twice gives back the matrix.
pub proof fn lemma_transpose3_involution<T>(r: [[T; 3]; 3], o: [[T; 3]; 3], back: [[T; 3]; 3])
    requires
        forall|i: int, j: int| 0 <= i < 3 && 0 <= j < 3 ==> #[trigger] o[i][j] == r[j][i],
        forall|i: int, j: int| 0 <= i < 3 && 0 <= j < 3 ==> #[trigger] back[i][j] == o[j][i],
    ensures
        forall|i: int, j: int| 0 <= i < 3 && 0 <= j < 3 ==> #[trigger] back[i][j] == r[i][j],
{
    assert forall|i: int, j: int| 0 <= i < 3 && 0 <= j < 3 implies #[trigger] back[i][j] == r[i][j] by {
        assert(back[i][j] == o[j][i]);
        assert(o[j][i] == r[i][j]);
    }
}

} // verus!
