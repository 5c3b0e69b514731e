//! Stack-assembly bookkeeping: solve-method and power-method selectors,
//! block layout of 4x4 scattering matrices, Fresnel read-off from a
//! scattering matrix, and the per-interface roughness sequence of plain and
//! periodic stacks.
use vstd::prelude::*;

verus! {

/// Method selector for the stack solve.
#[derive(Clone, Copy, PartialEq, Eq, Debug, Structural)]
pub enum Method {
    Scattering,
    Transfer,
    /// Transfer via the direct matrix exponential of each layer.
    Exponential,
}

/// Which power formula produced the transmitted power of a solve.
#[derive(Clone, Copy, PartialEq, Eq, Debug, Structural)]
pub enum PowerMethod {
    /// T = Re(kz_exit / kz_entry) * |J|^2 (isotropic exits).
    JonesFactor,
    /// Flux ratio over the exit eigenmodes (anisotropic exits).
    Flux,
}

/// Power formula used for a given exit half-space: the Jones factor for an
/// isotropic exit, the exit-mode flux ratio for an anisotropic one.
pub fn power_method_for(anisotropic_exit: bool) -> (m: PowerMethod)
    ensures
        m == (if anisotropic_exit { PowerMethod::Flux } else { PowerMethod::JonesFactor }),
{
    if anisotropic_exit {
        PowerMethod::Flux
    } else {
        PowerMethod::JonesFactor
    }
}

/// 2x2 Jones matrices of one solve: reflection and transmission, p/s basis.
#[derive(Clone, Copy)]
pub struct Jones<T> {
    pub refl: [[T; 2]; 2],
    pub trans: [[T; 2]; 2],
}

/// The 2x2 block `(br, bc)` of a 4x4 matrix: rows `2*br ..`, columns `2*bc ..`.
pub fn block<T: Copy>(s: &[[T; 4]; 4], br: usize, bc: usize) -> (b: [[T; 2]; 2])
    requires
        br < 2,
        bc < 2,
    ensures
        forall|i: int, j: int|
            0 <= i < 2 && 0 <= j < 2 ==> #[trigger] b[i][j] == s[2 * br + i][2 * bc + j],
{
    let r: usize = br * 2;
    let cc: usize = bc * 2;
    [[s[r][cc], s[r][cc + 1]], [s[r + 1][cc], s[r + 1][cc + 1]]]
}

/// Reassemble a 4x4 matrix from its four 2x2 blocks
/// (`b00` top-left, `b01` top-right, `b10` bottom-left, `b11` bottom-right).
pub fn join_blocks<T: Copy>(
    b00: &[[T; 2]; 2],
    b01: &[[T; 2]; 2],
    b10: &[[T; 2]; 2],
    b11: &[[T; 2]; 2],
) -> (m: [[T; 4]; 4])
    ensures
        forall|i: int, j: int|
            0 <= i < 2 && 0 <= j < 2 ==> {
                &&& m[i][j] == b00[i][j]
                &&& m[i][j + 2] == b01[i][j]
                &&& m[i + 2][j] == b10[i][j]
                &&& m[i + 2][j + 2] == b11[i][j]
            },
{
    [
        [b00[0][0], b00[0][1], b01[0][0], b01[0][1]],
        [b00[1][0], b00[1][1], b01[1][0], b01[1][1]],
        [b10[0][0], b10[0][1], b11[0][0], b11[0][1]],
        [b10[1][0], b10[1][1], b11[1][0], b11[1][1]],
    ]
}

/// Splitting a 4x4 matrix into its four blocks and joining them again gives
/// back the matrix.
pub proof fn lemma_blocks_rejoin<T>(
    s: [[T; 4]; 4],
    b00: [[T; 2]; 2],
    b01: [[T; 2]; 2],
    b10: [[T; 2]; 2],
    b11: [[T; 2]; 2],
    m: [[T; 4]; 4],
)
    requires
        forall|i: int, j: int| 0 <= i < 2 && 0 <= j < 2 ==> #[trigger] b00[i][j] == s[i][j],
        forall|i: int, j: int| 0 <= i < 2 && 0 <= j < 2 ==> #[trigger] b01[i][j] == s[i][j + 2],
        forall|i: int, j: int| 0 <= i < 2 && 0 <= j < 2 ==> #[trigger] b10[i][j] == s[i + 2][j],
        forall|i: int, j: int| 0 <= i < 2 && 0 <= j < 2 ==> #[trigger] b11[i][j] == s[i + 2][j + 2],
        forall|i: int, j: int| 0 <= i < 2 && 0 <= j < 2 ==> {
            &&& #[trigger] m[i][j] == b00[i][j]
            &&& m[i][j + 2] == b01[i][j]
            &&& m[i + 2][j] == b10[i][j]
            &&& m[i + 2][j + 2] == b11[i][j]
        },
    ensures
        forall|i: int, j: int| 0 <= i < 4 && 0 <= j < 4 ==> #[trigger] m[i][j] == s[i][j],
{
    assert forall|i: int, j: int| 0 <= i < 4 && 0 <= j < 4 implies #[trigger] m[i][j] == s[i][j] by {
        let bi = if i < 2 { i } else { i - 2 };
        let bj = if j < 2 { j } else { j - 2 };
        assert(m[bi][bj] == b00[bi][bj]);
        assert(b00[bi][bj] == s[bi][bj]);
        assert(b01[bi][bj] == s[bi][bj + 2]);
        assert(b10[bi][bj] == s[bi + 2][bj]);
        assert(b11[bi][bj] == s[bi + 2][bj + 2]);
    }
}

/// Fresnel coefficients from a scattering matrix: the transmission block is
/// the top-left 2x2 block, the reflection block the bottom-left one.
pub fn fresnel_from_scattering<T: Copy>(sm: &[[T; 4]; 4]) -> (j: Jones<T>)
    ensures
        forall|i: int, k: int|
            0 <= i < 2 && 0 <= k < 2 ==> {
                &&& j.refl[i][k] == sm[i + 2][k]
                &&& j.trans[i][k] == sm[i][k]
            },
{
    Jones {
        refl: [[sm[2][0], sm[2][1]], [sm[3][0], sm[3][1]]],
        trans: [[sm[0][0], sm[0][1]], [sm[1][0], sm[1][1]]],
    }
}

// ───────────── per-interface roughness of plain and periodic stacks ─────────────

/// Interface dressings of a plain stack: one per interface, in order
/// `[entry|layer0, layer0|layer1, .., layer_{n-1}|exit]`; layer `k`'s front
/// dressing sits on the interface in front of it, the exit dressing last.
pub open spec fn stack_interfaces<R>(fronts: Seq<R>, exit: R) -> Seq<R> {
    fronts.push(exit)
}

/// Dressings of the interfaces inside one cell (`l[k] | l[k+1]` carries the
/// front dressing of `l[k+1]`).
pub open spec fn cell_interior<R>(cell_fronts: Seq<R>) -> Seq<R> {
    if cell_fronts.len() == 0 {
        Seq::empty()
    } else {
        cell_fronts.skip(1)
    }
}

/// `s` repeated `n` times.
pub open spec fn repeat_seq<R>(s: Seq<R>, n: nat) -> Seq<R>
    decreases n,
{
    if n == 0 {
        Seq::empty()
    } else {
        s + repeat_seq(s, (n - 1) as nat)
    }
}

/// Interface sequence that the periodic scattering assembly dresses, in
/// order: entry|cell (cell[0]'s front), the bare cell interior, then
/// `periods - 1` copies of [wrap (cell[0]'s front), cell interior], then
/// last|exit.
pub open spec fn periodic_interfaces<R>(cell_fronts: Seq<R>, periods: nat, exit: R) -> Seq<R> {
    let wrap_cell = seq![cell_fronts[0]] + cell_interior(cell_fronts);
    seq![cell_fronts[0]] + cell_interior(cell_fronts) + repeat_seq(wrap_cell, (periods - 1) as nat)
        + seq![exit]
}

/// One dressing per interface of a plain stack, from the layers' front
/// dressings and the exit dressing.
pub fn interface_roughness<R: Copy>(fronts: &[R], exit: R) -> (r: Vec<R>)
    ensures
        r@ == stack_interfaces(fronts@, exit),
{
    let mut r: Vec<R> = Vec::new();
    let n: usize = fronts.len();
    let mut i: usize = 0;
    while i < n
        invariant
            n == fronts@.len(),
            i <= n,
            r@ == fronts@.take(i as int),
        decreases n - i,
    {
        r.push(fronts[i]);
        i = i + 1;
        assert(r@ =~= fronts@.take(i as int));
    }
    assert(fronts@.take(n as int) =~= fronts@);
    r.push(exit);
    r
}

/// Appending one more copy of `s` at the back of `repeat_seq(s, n)`.
pub proof fn lemma_repeat_seq_push_back<R>(s: Seq<R>, n: nat)
    ensures
        repeat_seq(s, n + 1) == repeat_seq(s, n) + s,
    decreases n,
{
    if n == 0 {
        assert(repeat_seq(s, 0) =~= Seq::<R>::empty());
        assert(repeat_seq(s, 1) =~= s + Seq::<R>::empty());
        assert(repeat_seq(s, 1) =~= repeat_seq(s, 0) + s);
    } else {
        lemma_repeat_seq_push_back(s, (n - 1) as nat);
        assert(repeat_seq(s, n + 1) =~= s + repeat_seq(s, n));
        assert(repeat_seq(s, n) =~= s + repeat_seq(s, (n - 1) as nat));
        assert(repeat_seq(s, n + 1) =~= repeat_seq(s, n) + s);
    }
}

/// `repeat_seq(s, n)` holds `n` copies of `s`.
pub proof fn lemma_repeat_seq_len<R>(s: Seq<R>, n: nat)
    ensures
        repeat_seq(s, n).len() == s.len() * n,
    decreases n,
{
    if n == 0 {
        assert(s.len() * 0 == 0) by (nonlinear_arith);
    } else {
        lemma_repeat_seq_len(s, (n - 1) as nat);
        assert(repeat_seq(s, n) == s + repeat_seq(s, (n - 1) as nat));
        let m: nat = (n - 1) as nat;
        assert(s.len() * (m + 1) == s.len() + s.len() * m) by (nonlinear_arith);
    }
}

/// A periodic stack is dressed exactly like the stack that repeats its cell
/// `periods` times: the interface sequence of the periodic assembly equals
/// the plain stack's interface sequence over the expanded layer list.
pub proof fn lemma_periodic_dressing_matches_expansion<R>(cell_fronts: Seq<R>, periods: nat, exit: R)
    requires
        cell_fronts.len() > 0,
        periods >= 1,
    ensures
        periodic_interfaces(cell_fronts, periods, exit)
            == stack_interfaces(repeat_seq(cell_fronts, periods), exit),
{
    assert(seq![cell_fronts[0]] + cell_interior(cell_fronts) =~= cell_fronts);
    assert(repeat_seq(cell_fronts, periods) == cell_fronts + repeat_seq(cell_fronts, (periods - 1) as nat));
    assert(periodic_interfaces(cell_fronts, periods, exit)
        =~= stack_interfaces(repeat_seq(cell_fronts, periods), exit));
}

/// Dressings of every interface of a periodic stack, in the order the
/// periodic scattering assembly uses them: the entry interface, the cell's
/// interior interfaces, then for each further period the wrap interface and
/// the interior again, and last the exit interface.
pub fn periodic_roughness<R: Copy>(cell_fronts: &[R], periods: u32, exit: R) -> (r: Vec<R>)
    requires
        cell_fronts@.len() > 0,
        periods >= 1,
    ensures
        r@ == periodic_interfaces(cell_fronts@, periods as nat, exit),
        r@ == stack_interfaces(repeat_seq(cell_fronts@, periods as nat), exit),
        r@.len() == cell_fronts@.len() * periods + 1,
        r@[0] == cell_fronts@[0],
        r@.subrange(1, cell_fronts@.len() as int) == cell_interior(cell_fronts@),
        periods >= 2 ==> r@[cell_fronts@.len() as int] == cell_fronts@[0],
        r@.last() == exit,
{
    let n: usize = cell_fronts.len();
    let mut r: Vec<R> = Vec::new();
    let mut p: u32 = 0;
    while p < periods
        invariant
            n == cell_fronts@.len(),
            p <= periods,
            r@ == repeat_seq(cell_fronts@, p as nat),
        decreases periods - p,
    {
        let ghost before = r@;
        let mut i: usize = 0;
        while i < n
            invariant
                n == cell_fronts@.len(),
                i <= n,
                r@ == before + cell_fronts@.take(i as int),
            decreases n - i,
        {
            r.push(cell_fronts[i]);
            i = i + 1;
            assert(r@ =~= before + cell_fronts@.take(i as int));
        }
        assert(cell_fronts@.take(n as int) =~= cell_fronts@);
        proof {
            lemma_repeat_seq_push_back(cell_fronts@, p as nat);
        }
        p = p + 1;
    }
    r.push(exit);
    proof {
        let ghost c = cell_fronts@;
        let ghost k = periods as nat;
        lemma_periodic_dressing_matches_expansion(c, k, exit);
        lemma_repeat_seq_len(c, k);
        assert(repeat_seq(c, k) =~= c + repeat_seq(c, (k - 1) as nat));
        assert(r@[0] == c[0]);
        assert(r@.subrange(1, c.len() as int) =~= cell_interior(c));
        if k >= 2 {
            assert(repeat_seq(c, (k - 1) as nat) =~= c + repeat_seq(c, (k - 2) as nat));
            assert(r@[c.len() as int] == c[0]);
        }
    }
    r
}

/// How a periodic solve proceeds for a given repetition count and cell size.
#[derive(Clone, Copy, PartialEq, Eq, Debug, Structural)]
pub enum PeriodicRoute {
    /// Zero periods or an empty cell: no solve.
    Rejected,
    /// One period: the plain stack solve.
    Single,
    /// Two or more periods: the powered-cell solve.
    Powered,
}

/// Route of a periodic solve.
pub fn periodic_route(periods: u32, cell_len: usize) -> (route: PeriodicRoute)
    ensures
        route == (if periods == 0 || cell_len == 0 {
            PeriodicRoute::Rejected
        } else if periods == 1 {
            PeriodicRoute::Single
        } else {
            PeriodicRoute::Powered
        }),
{
    if periods == 0 || cell_len == 0 {
        PeriodicRoute::Rejected
    } else if periods == 1 {
        PeriodicRoute::Single
    } else {
        PeriodicRoute::Powered
    }
}

} // verus!
