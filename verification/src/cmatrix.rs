//! Grouping of the eigenvalues of a 4x4 matrix into clusters of
//! (numerically) repeated values.
use vstd::prelude::*;

verus! {

/// `leader[k]` is the cluster leader of eigenvalue `k` under the greedy
/// grouping: eigenvalues are visited in index order; an eigenvalue not yet
/// grouped leads a new cluster, which takes every later ungrouped eigenvalue
/// close to it. So `k` leads a cluster exactly when no earlier leader is
/// close to it, and otherwise joins the first earlier leader close to it.
pub open spec fn is_greedy_grouping(close: [[bool; 4]; 4], leader: [usize; 4]) -> bool {
    forall|k: int| 0 <= k < 4 ==> #[trigger] leader_ok(close, leader, k)
}

/// The grouping rule at eigenvalue `k`.
pub open spec fn leader_ok(close: [[bool; 4]; 4], leader: [usize; 4], k: int) -> bool {
    &&& leader[k] <= k
    &&& (leader[k] == k <==> forall|i: int| 0 <= i < k && leader[i] == i ==> !#[trigger] close[i][k])
    &&& leader[k] < k ==> {
        &&& leader[leader[k] as int] == leader[k]
        &&& close[leader[k] as int][k]
        &&& forall|i: int| 0 <= i < leader[k] && leader[i] == i ==> !#[trigger] close[i][k]
    }
}

/// `k` is not grouped yet, and no leader below `bound` is close to it.
spec fn pending(close: [[bool; 4]; 4], leader: [usize; 4], k: int, bound: int) -> bool {
    &&& leader[k] == 4
    &&& forall|i: int| 0 <= i < bound && leader[i] == i ==> !#[trigger] close[i][k]
}

/// `k` is either pending or already grouped under a leader below `bound`.
spec fn pending_or_joined(close: [[bool; 4]; 4], leader: [usize; 4], k: int, bound: int) -> bool {
    ||| pending(close, leader, k, bound)
    ||| (leader[k] < bound && leader_ok(close, leader, k))
}

/// The grouping rule at `k` only reads the leaders of indices up to `k`.
proof fn lemma_leader_ok_frame(close: [[bool; 4]; 4], old: [usize; 4], new: [usize; 4], k: int)
    requires
        0 <= k < 4,
        forall|m: int| 0 <= m <= k ==> #[trigger] new[m] == old[m],
        leader_ok(close, old, k),
    ensures
        leader_ok(close, new, k),
{
    assert(new[k] == old[k]);
    if old[k] < k {
        assert(new[old[k] as int] == old[old[k] as int]);
    }
}

/// A joined index keeps its grouping as long as the leaders up to its own
/// leader and its own entry are unchanged.
proof fn lemma_leader_ok_frame_joined(close: [[bool; 4]; 4], old: [usize; 4], new: [usize; 4], k: int)
    requires
        0 <= k < 4,
        old[k] < k,
        new[k] == old[k],
        forall|m: int| 0 <= m <= old[k] ==> #[trigger] new[m] == old[m],
        leader_ok(close, old, k),
    ensures
        leader_ok(close, new, k),
{
    let l = old[k] as int;
    assert(new[l] == old[l]);
    assert(new[l] == l && close[l][k]);
}

/// A pending index stays pending while its own entry and the leaders below
/// the bound are unchanged.
proof fn lemma_pending_frame(close: [[bool; 4]; 4], old: [usize; 4], new: [usize; 4], k: int, bound: int)
    requires
        0 <= k < 4,
        new[k] == old[k],
        forall|m: int| 0 <= m < bound ==> #[trigger] new[m] == old[m],
        pending(close, old, k, bound),
    ensures
        pending(close, new, k, bound),
{
    assert forall|i: int| 0 <= i < bound && new[i] == i implies !#[trigger] close[i][k] by {
        assert(new[i] == old[i]);
    }
}

/// Group four eigenvalues into clusters; `close[i][j]` (read for `i < j`)
/// tells whether eigenvalue `j` is close enough to `i` to count as the
/// same repeated value. The members of the cluster led by `i` are the
/// indices `k` with `leader[k] == i`, in increasing order, `i` first.
pub fn eigen_clusters(close: &[[bool; 4]; 4]) -> (leader: [usize; 4])
    ensures
        is_greedy_grouping(*close, leader),
{
    let mut leader: [usize; 4] = [4, 4, 4, 4];
    let mut i: usize = 0;
    while i < 4
        invariant
            0 <= i <= 4,
            forall|k: int| 0 <= k < i ==> #[trigger] leader_ok(*close, leader, k),
            forall|k: int| i <= k < 4 ==> #[trigger] pending_or_joined(*close, leader, k, i as int),
        decreases 4 - i,
    {
        let ghost start = leader;
        assert(pending_or_joined(*close, start, i as int, i as int));
        if leader[i] == 4 {
            leader[i] = i;
            proof {
                assert forall|k: int| 0 <= k < i implies #[trigger] leader_ok(*close, leader, k) by {
                    lemma_leader_ok_frame(*close, start, leader, k);
                }
                assert forall|ii: int| 0 <= ii < i && leader[ii] == ii
                    implies !#[trigger] close[ii][i as int] by {
                    assert(start[ii] == leader[ii]);
                }
                assert(leader_ok(*close, leader, i as int));
                assert forall|k: int| i < k < 4 implies #[trigger] pending_or_joined(*close, leader, k, i as int) by {
                    assert(pending_or_joined(*close, start, k, i as int));
                    if pending(*close, start, k, i as int) {
                        lemma_pending_frame(*close, start, leader, k, i as int);
                    } else {
                        lemma_leader_ok_frame_joined(*close, start, leader, k);
                    }
                }
            }
            let mut j: usize = i + 1;
            while j < 4
                invariant
                    0 <= i < 4,
                    i + 1 <= j <= 4,
                    leader[i as int] == i,
                    forall|k: int| 0 <= k <= i ==> #[trigger] leader_ok(*close, leader, k),
                    forall|k: int| j <= k < 4 ==> #[trigger] pending_or_joined(*close, leader, k, i as int),
                    forall|k: int| i < k < j ==> #[trigger] pending_or_joined(*close, leader, k, i + 1),
                decreases 4 - j,
            {
                let ghost before = leader;
                assert(pending_or_joined(*close, before, j as int, i as int));
                if leader[j] == 4 && close[i][j] {
                    leader[j] = i;
                    proof {
                        assert forall|k: int| 0 <= k <= i implies #[trigger] leader_ok(*close, leader, k) by {
                            lemma_leader_ok_frame(*close, before, leader, k);
                        }
                        assert forall|ii: int| 0 <= ii < i && leader[ii] == ii
                            implies !#[trigger] close[ii][j as int] by {
                            assert(before[ii] == leader[ii]);
                        }
                        assert(leader_ok(*close, leader, j as int));
                        assert forall|k: int| j < k < 4 implies #[trigger] pending_or_joined(*close, leader, k, i as int) by {
                            assert(pending_or_joined(*close, before, k, i as int));
                            if pending(*close, before, k, i as int) {
                                lemma_pending_frame(*close, before, leader, k, i as int);
                            } else {
                                lemma_leader_ok_frame_joined(*close, before, leader, k);
                            }
                        }
                        assert forall|k: int| i < k < j implies #[trigger] pending_or_joined(*close, leader, k, i + 1) by {
                            assert(pending_or_joined(*close, before, k, i + 1));
                            if pending(*close, before, k, i + 1) {
                                lemma_pending_frame(*close, before, leader, k, i + 1);
                            } else {
                                lemma_leader_ok_frame_joined(*close, before, leader, k);
                            }
                        }
                    }
                } else {
                    proof {
                        if pending(*close, before, j as int, i as int) {
                            assert forall|ii: int| 0 <= ii < i + 1 && leader[ii] == ii
                                implies !#[trigger] close[ii][j as int] by {
                                if ii < i {
                                } else {
                                    assert(ii == i);
                                }
                            }
                            assert(pending(*close, leader, j as int, i + 1));
                        }
                        assert(pending_or_joined(*close, leader, j as int, i + 1));
                    }
                }
                j = j + 1;
            }
        } else {
            proof {
                assert(leader_ok(*close, leader, i as int));
                assert forall|k: int| i < k < 4 implies #[trigger] pending_or_joined(*close, leader, k, i + 1) by {
                    assert(pending_or_joined(*close, leader, k, i as int));
                    if pending(*close, leader, k, i as int) {
                        assert forall|ii: int| 0 <= ii < i + 1 && leader[ii] == ii
                            implies !#[trigger] close[ii][k] by {
                            if ii == i {
                                assert(leader[i as int] < i);
                            }
                        }
                    }
                }
            }
        }
        i = i + 1;
    }
    leader
}

/// Every eigenvalue belongs to exactly one cluster: its leader leads a
/// cluster and is the cluster's smallest member.
pub proof fn lemma_grouping_is_partition(close: [[bool; 4]; 4], leader: [usize; 4], k: int)
    requires
        is_greedy_grouping(close, leader),
        0 <= k < 4,
    ensures
        leader[k] <= k,
        leader[leader[k] as int] == leader[k],
{
    assert(leader_ok(close, leader, k));
}

/// With no two eigenvalues close, every eigenvalue forms a cluster of its
/// own (the singleton path of the eigensolver).
pub proof fn lemma_distinct_spectrum_singletons(close: [[bool; 4]; 4], leader: [usize; 4], k: int)
    requires
        is_greedy_grouping(close, leader),
        forall|i: int, j: int| 0 <= i < j < 4 ==> !#[trigger] close[i][j],
        0 <= k < 4,
    ensures
        leader[k] == k,
{
    assert(leader_ok(close, leader, k));
}

/// Cluster membership follows the closeness table: a joined eigenvalue is
/// close to its leader, two leaders are never close, and when every pair is
/// close all four eigenvalues form one cluster led by the first.
pub proof fn lemma_grouping_follows_closeness(close: [[bool; 4]; 4], leader: [usize; 4], k: int, m: int)
    requires
        is_greedy_grouping(close, leader),
        0 <= k < 4,
        0 <= m < 4,
    ensures
        leader[k] < k ==> close[leader[k] as int][k],
        (m < k && leader[m] == m && leader[k] == k) ==> !close[m][k],
        (forall|i: int, j: int| 0 <= i < j < 4 ==> #[trigger] close[i][j]) ==> leader[k] == 0,
{
    assert(leader_ok(close, leader, k));
    assert(leader_ok(close, leader, 0));
    if forall|i: int, j: int| 0 <= i < j < 4 ==> #[trigger] close[i][j] {
        assert(leader[0] == 0);
        if k > 0 {
            assert(close[0][k]);
            assert(leader[k] != k);
            assert(leader_ok(close, leader, leader[k] as int));
            if leader[k] > 0 {
                assert(close[0][leader[k] as int]);
                assert(leader[leader[k] as int] == leader[k]);
            }
        }
    }
}

} // verus!
