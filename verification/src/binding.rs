//! Argument checks, selector decoding and flat-array layouts of the
//! spectrum-sweep entry points. Every check runs in the same order as the
//! sweep performs it, so the first violated rule is the one reported.
use vstd::prelude::*;
use crate::layout::{lemma_radix_bound, lemma_radix_digits_unique};
use crate::transfer::Method;

verus! {

/// One of the four optional exit-tensor arrays.
#[derive(Clone, Copy, PartialEq, Eq, Debug, Structural)]
pub enum ExitArray {
    Eps,
    Rho,
    Rhop,
    Mu,
}

/// Why a sweep request is refused.
#[derive(Clone, Copy, PartialEq, Eq, Debug, Structural)]
pub enum GridError {
    /// No wavelengths, no angles or no layers.
    EmptyGrid,
    /// `periods == 0` (one period is a plain stack).
    ZeroPeriods,
    /// The layer-tensor array does not hold `n_wl * n_layers * 18` values.
    EpsLength { got: usize, want: usize },
    /// The roughness arrays do not hold one entry per interface.
    RoughLength { want: usize },
    /// Interface roughness was requested with a non-scattering method.
    RoughnessNeedsScattering,
    /// No depths were requested for the internal fields.
    EmptyDepths,
    /// An exit-tensor array is neither empty nor `n_wl * 18` long.
    ExitLength { which: ExitArray, got: usize, want: usize },
    /// Only some of the exit magneto-optic tensors were given.
    ExitMoPartial,
    /// Exit magneto-optic tensors were given without an exit permittivity.
    ExitMoWithoutEps,
    /// Exit magneto-optic tensors were given to a simple (non-full) sweep.
    ExitMoNeedsFull,
}

/// How the exit half-space of every wavelength is described.
#[derive(Clone, Copy, PartialEq, Eq, Debug, Structural)]
pub enum ExitLayout {
    /// Scalar exit index.
    Isotropic,
    /// Exit permittivity tensor.
    Anisotropic,
    /// Exit permittivity plus magneto-optic tensors.
    AnisotropicFull,
}

/// True when some interface carries a roughness model (a non-zero code).
pub fn has_roughness(rough_types: &[i32]) -> (r: bool)
    ensures
        r == (exists|i: int| 0 <= i < rough_types@.len() && rough_types@[i] != 0),
{
    let n: usize = rough_types.len();
    let mut i: usize = 0;
    while i < n
        invariant
            n == rough_types@.len(),
            i <= n,
            forall|k: int| 0 <= k < i ==> rough_types@[k] == 0,
        decreases n - i,
    {
        if rough_types[i] != 0 {
            return true;
        }
        i = i + 1;
    }
    false
}

/// The method selected by a solve-sweep method code: 1 is the transfer
/// method, 2 the exponential one, 0 and any other code the scattering
/// method. Roughness is only supported by the scattering method.
pub open spec fn spec_method_from_code(method_code: i32, has_rough: bool) -> Result<Method, GridError> {
    if method_code == 1 {
        if has_rough { Err(GridError::RoughnessNeedsScattering) } else { Ok(Method::Transfer) }
    } else if method_code == 2 {
        if has_rough { Err(GridError::RoughnessNeedsScattering) } else { Ok(Method::Exponential) }
    } else {
        Ok(Method::Scattering)
    }
}

/// Decode the solve-sweep method code.
pub fn method_from_code(method_code: i32, has_rough: bool) -> (r: Result<Method, GridError>)
    ensures
        r == spec_method_from_code(method_code, has_rough),
{
    if method_code == 1 {
        if has_rough {
            return Err(GridError::RoughnessNeedsScattering);
        }
        Ok(Method::Transfer)
    } else if method_code == 2 {
        if has_rough {
            return Err(GridError::RoughnessNeedsScattering);
        }
        Ok(Method::Exponential)
    } else {
        Ok(Method::Scattering)
    }
}

/// Decode the fields-sweep method code (no roughness on that path).
pub fn fields_method_from_code(method_code: i32) -> (m: Method)
    ensures
        m == (if method_code == 1 {
            Method::Transfer
        } else if method_code == 2 {
            Method::Exponential
        } else {
            Method::Scattering
        }),
{
    if method_code == 1 {
        Method::Transfer
    } else if method_code == 2 {
        Method::Exponential
    } else {
        Method::Scattering
    }
}

/// Shape checks of a solve sweep, in order.
pub open spec fn spec_check_solve_grid(
    n_wl: nat,
    n_th: nat,
    n_layers: nat,
    periods: nat,
    eps_len: nat,
    n_rough_types: nat,
    n_rough_vals: nat,
) -> Result<(), GridError> {
    if n_wl == 0 || n_th == 0 || n_layers == 0 {
        Err(GridError::EmptyGrid)
    } else if periods == 0 {
        Err(GridError::ZeroPeriods)
    } else if eps_len != n_wl * n_layers * 18 {
        Err(GridError::EpsLength { got: eps_len as usize, want: (n_wl * n_layers * 18) as usize })
    } else if n_rough_types != n_layers + 1 || n_rough_vals != n_layers + 1 {
        Err(GridError::RoughLength { want: (n_layers + 1) as usize })
    } else {
        Ok(())
    }
}

/// Check the grid, period count, layer-tensor length and per-interface
/// roughness lengths of a solve sweep.
pub fn check_solve_grid(
    n_wl: usize,
    n_th: usize,
    n_layers: usize,
    periods: u32,
    eps_len: usize,
    n_rough_types: usize,
    n_rough_vals: usize,
) -> (r: Result<(), GridError>)
    requires
        n_wl * n_layers * 18 <= usize::MAX,
    ensures
        r == spec_check_solve_grid(
            n_wl as nat,
            n_th as nat,
            n_layers as nat,
            periods as nat,
            eps_len as nat,
            n_rough_types as nat,
            n_rough_vals as nat,
        ),
{
    if n_wl == 0 || n_th == 0 || n_layers == 0 {
        return Err(GridError::EmptyGrid);
    }
    if periods == 0 {
        return Err(GridError::ZeroPeriods);
    }
    proof {
        assert(n_wl * n_layers <= n_wl * n_layers * 18) by (nonlinear_arith)
            requires 0 <= n_wl, 0 <= n_layers;
        assert(n_layers <= n_wl * n_layers) by (nonlinear_arith)
            requires 1 <= n_wl, 0 <= n_layers;
    }
    let want: usize = n_wl * n_layers * 18;
    if eps_len != want {
        return Err(GridError::EpsLength { got: eps_len, want });
    }
    if n_rough_types != n_layers + 1 || n_rough_vals != n_layers + 1 {
        return Err(GridError::RoughLength { want: n_layers + 1 });
    }
    Ok(())
}

/// Shape checks of an internal-fields sweep, in order.
pub open spec fn spec_check_fields_grid(
    n_wl: nat,
    n_th: nat,
    n_layers: nat,
    n_z: nat,
    eps_len: nat,
) -> Result<(), GridError> {
    if n_wl == 0 || n_th == 0 || n_layers == 0 {
        Err(GridError::EmptyGrid)
    } else if n_z == 0 {
        Err(GridError::EmptyDepths)
    } else if eps_len != n_wl * n_layers * 18 {
        Err(GridError::EpsLength { got: eps_len as usize, want: (n_wl * n_layers * 18) as usize })
    } else {
        Ok(())
    }
}

/// Check the grid, depth list and layer-tensor length of a fields sweep.
pub fn check_fields_grid(n_wl: usize, n_th: usize, n_layers: usize, n_z: usize, eps_len: usize)
    -> (r: Result<(), GridError>)
    requires
        n_wl * n_layers * 18 <= usize::MAX,
    ensures
        r == spec_check_fields_grid(n_wl as nat, n_th as nat, n_layers as nat, n_z as nat, eps_len as nat),
{
    if n_wl == 0 || n_th == 0 || n_layers == 0 {
        return Err(GridError::EmptyGrid);
    }
    if n_z == 0 {
        return Err(GridError::EmptyDepths);
    }
    proof {
        assert(n_wl * n_layers <= n_wl * n_layers * 18) by (nonlinear_arith)
            requires 0 <= n_wl, 0 <= n_layers;
    }
    let want: usize = n_wl * n_layers * 18;
    if eps_len != want {
        return Err(GridError::EpsLength { got: eps_len, want });
    }
    Ok(())
}

/// Which solve sweeps pass the shape checks: a non-empty grid and stack, at
/// least one period, one tensor per (wavelength, layer) and one roughness
/// code and value per interface. An empty grid is reported before any other
/// fault, and a zero period count before any length fault.
pub proof fn lemma_solve_grid_acceptance(
    n_wl: nat,
    n_th: nat,
    n_layers: nat,
    periods: nat,
    eps_len: nat,
    n_rough_types: nat,
    n_rough_vals: nat,
)
    ensures
        spec_check_solve_grid(n_wl, n_th, n_layers, periods, eps_len, n_rough_types, n_rough_vals) is Ok <==> {
            &&& n_wl > 0 && n_th > 0 && n_layers > 0
            &&& periods > 0
            &&& eps_len == n_wl * n_layers * 18
            &&& n_rough_types == n_layers + 1
            &&& n_rough_vals == n_layers + 1
        },
        (n_wl == 0 || n_th == 0 || n_layers == 0) ==> spec_check_solve_grid(
            n_wl, n_th, n_layers, periods, eps_len, n_rough_types, n_rough_vals,
        ) == Err::<(), GridError>(GridError::EmptyGrid),
        (n_wl > 0 && n_th > 0 && n_layers > 0 && periods == 0) ==> spec_check_solve_grid(
            n_wl, n_th, n_layers, periods, eps_len, n_rough_types, n_rough_vals,
        ) == Err::<(), GridError>(GridError::ZeroPeriods),
{
}

/// Which fields sweeps pass the shape checks: a non-empty grid and stack, at
/// least one depth and one tensor per (wavelength, layer).
pub proof fn lemma_fields_grid_acceptance(n_wl: nat, n_th: nat, n_layers: nat, n_z: nat, eps_len: nat)
    ensures
        spec_check_fields_grid(n_wl, n_th, n_layers, n_z, eps_len) is Ok <==> {
            &&& n_wl > 0 && n_th > 0 && n_layers > 0
            &&& n_z > 0
            &&& eps_len == n_wl * n_layers * 18
        },
        (n_wl == 0 || n_th == 0 || n_layers == 0) ==> spec_check_fields_grid(n_wl, n_th, n_layers, n_z, eps_len)
            == Err::<(), GridError>(GridError::EmptyGrid),
{
}

/// True when an exit array length is neither 0 nor `want`.
pub open spec fn bad_exit_len(len: nat, want: nat) -> bool {
    len != 0 && len != want
}

/// Exit-description protocol, in order: each of exit eps / rho / rhop / mu
/// is empty or `n_wl * 18` long; the magneto-optic tensors come all together
/// or not at all; they need an exit permittivity and a full sweep. An empty
/// exit permittivity means a scalar exit index.
pub open spec fn spec_exit_layout(
    n_wl: nat,
    eps_len: nat,
    rho_len: nat,
    rhop_len: nat,
    mu_len: nat,
    layer_full: bool,
) -> Result<ExitLayout, GridError> {
    let want = n_wl * 18;
    let mo_given = rho_len != 0 || rhop_len != 0 || mu_len != 0;
    let mo_full = rho_len != 0 && rhop_len != 0 && mu_len != 0;
    if bad_exit_len(eps_len, want) {
        Err(GridError::ExitLength { which: ExitArray::Eps, got: eps_len as usize, want: want as usize })
    } else if bad_exit_len(rho_len, want) {
        Err(GridError::ExitLength { which: ExitArray::Rho, got: rho_len as usize, want: want as usize })
    } else if bad_exit_len(rhop_len, want) {
        Err(GridError::ExitLength { which: ExitArray::Rhop, got: rhop_len as usize, want: want as usize })
    } else if bad_exit_len(mu_len, want) {
        Err(GridError::ExitLength { which: ExitArray::Mu, got: mu_len as usize, want: want as usize })
    } else if mo_given && !mo_full {
        Err(GridError::ExitMoPartial)
    } else if mo_full && eps_len == 0 {
        Err(GridError::ExitMoWithoutEps)
    } else if !layer_full && mo_full {
        Err(GridError::ExitMoNeedsFull)
    } else if eps_len == 0 {
        Ok(ExitLayout::Isotropic)
    } else if mo_full {
        Ok(ExitLayout::AnisotropicFull)
    } else {
        Ok(ExitLayout::Anisotropic)
    }
}

/// Decide how the exit half-space is described from the lengths of the
/// exit-tensor arrays; `layer_full` tells whether the sweep is the full
/// (magneto-optic) one.
pub fn exit_layout(
    n_wl: usize,
    eps_len: usize,
    rho_len: usize,
    rhop_len: usize,
    mu_len: usize,
    layer_full: bool,
) -> (r: Result<ExitLayout, GridError>)
    requires
        n_wl * 18 <= usize::MAX,
    ensures
        r == spec_exit_layout(n_wl as nat, eps_len as nat, rho_len as nat, rhop_len as nat, mu_len as nat, layer_full),
        eps_len == 0 && rho_len == 0 && rhop_len == 0 && mu_len == 0 ==> r == Ok::<ExitLayout, GridError>(ExitLayout::Isotropic),
        n_wl > 0 && eps_len == n_wl * 18 && rho_len == 0 && rhop_len == 0 && mu_len == 0
            ==> r == Ok::<ExitLayout, GridError>(ExitLayout::Anisotropic),
{
    let want: usize = n_wl * 18;
    if eps_len != 0 && eps_len != want {
        return Err(GridError::ExitLength { which: ExitArray::Eps, got: eps_len, want });
    }
    if rho_len != 0 && rho_len != want {
        return Err(GridError::ExitLength { which: ExitArray::Rho, got: rho_len, want });
    }
    if rhop_len != 0 && rhop_len != want {
        return Err(GridError::ExitLength { which: ExitArray::Rhop, got: rhop_len, want });
    }
    if mu_len != 0 && mu_len != want {
        return Err(GridError::ExitLength { which: ExitArray::Mu, got: mu_len, want });
    }
    let mo_given: bool = rho_len != 0 || rhop_len != 0 || mu_len != 0;
    let mo_full: bool = rho_len != 0 && rhop_len != 0 && mu_len != 0;
    if mo_given && !mo_full {
        return Err(GridError::ExitMoPartial);
    }
    if mo_full && eps_len == 0 {
        return Err(GridError::ExitMoWithoutEps);
    }
    if !layer_full && mo_full {
        return Err(GridError::ExitMoNeedsFull);
    }
    if eps_len == 0 {
        Ok(ExitLayout::Isotropic)
    } else if mo_full {
        Ok(ExitLayout::AnisotropicFull)
    } else {
        Ok(ExitLayout::Anisotropic)
    }
}

/// A sweep with interface roughness is always solved by the scattering
/// method (or refused), and a sweep without roughness is never refused on
/// account of its method code.
pub proof fn lemma_roughness_forces_scattering(method_code: i32)
    ensures
        spec_method_from_code(method_code, true) matches Ok(m) ==> m == Method::Scattering,
        spec_method_from_code(method_code, false) is Ok,
{
}

/// An accepted exit description is isotropic exactly when no exit
/// permittivity was given; a magneto-optic exit needs every exit array at
/// full length and a full sweep.
pub proof fn lemma_exit_layout_consistent(
    n_wl: nat,
    eps_len: nat,
    rho_len: nat,
    rhop_len: nat,
    mu_len: nat,
    layer_full: bool,
)
    ensures
        spec_exit_layout(n_wl, eps_len, rho_len, rhop_len, mu_len, layer_full) matches Ok(l) ==> {
            &&& (l == ExitLayout::Isotropic <==> eps_len == 0)
            &&& (l == ExitLayout::Isotropic ==> rho_len == 0 && rhop_len == 0 && mu_len == 0)
            &&& (l != ExitLayout::Isotropic ==> eps_len == n_wl * 18)
            &&& (l == ExitLayout::AnisotropicFull <==> (eps_len != 0 && rho_len != 0))
            &&& (l == ExitLayout::AnisotropicFull ==> {
                &&& layer_full
                &&& rho_len == n_wl * 18
                &&& rhop_len == n_wl * 18
                &&& mu_len == n_wl * 18
            })
        },
{
}

/// Which exit descriptions are accepted, whatever the sweep kind: every
/// exit array is empty or holds one tensor per wavelength, and the three
/// magneto-optic arrays are either all absent or all present together with
/// an exit permittivity in a full sweep. With no exit array at all the exit
/// is the scalar-index half-space; with only a permittivity it is the
/// anisotropic one, in simple and full sweeps alike.
pub proof fn lemma_exit_layout_acceptance(
    n_wl: nat,
    eps_len: nat,
    rho_len: nat,
    rhop_len: nat,
    mu_len: nat,
    layer_full: bool,
)
    ensures
        spec_exit_layout(n_wl, eps_len, rho_len, rhop_len, mu_len, layer_full) is Ok <==> {
            &&& (eps_len == 0 || eps_len == n_wl * 18)
            &&& (rho_len == 0 || rho_len == n_wl * 18)
            &&& (rhop_len == 0 || rhop_len == n_wl * 18)
            &&& (mu_len == 0 || mu_len == n_wl * 18)
            &&& ((rho_len == 0 && rhop_len == 0 && mu_len == 0)
                || (rho_len != 0 && rhop_len != 0 && mu_len != 0 && eps_len != 0 && layer_full))
        },
        spec_exit_layout(n_wl, 0, 0, 0, 0, layer_full) == Ok::<ExitLayout, GridError>(ExitLayout::Isotropic),
        spec_exit_layout(n_wl, n_wl * 18, 0, 0, 0, layer_full) == Ok::<ExitLayout, GridError>(
            ExitLayout::Anisotropic,
        ) || n_wl == 0,
        spec_exit_layout(n_wl, eps_len, rho_len, rhop_len, mu_len, true) is Err
            ==> spec_exit_layout(n_wl, eps_len, rho_len, rhop_len, mu_len, false) is Err,
{
}

/// Number of `false` entries.
pub open spec fn count_false(ok: Seq<bool>) -> nat
    decreases ok.len(),
{
    if ok.len() == 0 {
        0
    } else {
        count_false(ok.drop_last()) + if ok.last() { 0nat } else { 1nat }
    }
}

/// Number of grid points whose solve failed.
pub fn count_failed(ok: &[bool]) -> (n: usize)
    ensures
        n == count_false(ok@),
{
    let len: usize = ok.len();
    let mut n: usize = 0;
    let mut i: usize = 0;
    while i < len
        invariant
            len == ok@.len(),
            i <= len,
            n == count_false(ok@.take(i as int)),
            n <= i,
        decreases len - i,
    {
        assert(ok@.take(i as int + 1).drop_last() =~= ok@.take(i as int));
        if !ok[i] {
            n = n + 1;
        }
        i = i + 1;
    }
    assert(ok@.take(len as int) =~= ok@);
    n
}

/// Failure count bounds: never more failures than points, none exactly
/// when every point succeeded, all exactly when every point failed, and the
/// count of a concatenation is the sum of the counts.
pub proof fn lemma_count_false_laws(a: Seq<bool>, b: Seq<bool>)
    ensures
        count_false(a) <= a.len(),
        count_false(a) == 0 <==> (forall|k: int| 0 <= k < a.len() ==> a[k]),
        count_false(a) == a.len() <==> (forall|k: int| 0 <= k < a.len() ==> !a[k]),
        count_false(a + b) == count_false(a) + count_false(b),
    decreases a.len() + b.len(),
{
    if b.len() > 0 {
        lemma_count_false_laws(a, b.drop_last());
        assert((a + b).drop_last() =~= a + b.drop_last());
    } else {
        assert(a + b =~= a);
    }
    if a.len() > 0 {
        lemma_count_false_laws(a.drop_last(), Seq::<bool>::empty());
        assert forall|k: int| 0 <= k < a.drop_last().len() implies a.drop_last()[k] == a[k] by {}
        if count_false(a) == 0 {
            assert forall|k: int| 0 <= k < a.len() implies a[k] by {
                if k < a.len() - 1 {
                    assert(a.drop_last()[k] == a[k]);
                }
            }
        }
        if count_false(a) == a.len() {
            assert forall|k: int| 0 <= k < a.len() implies !a[k] by {
                if k < a.len() - 1 {
                    assert(a.drop_last()[k] == a[k]);
                }
            }
        }
        if forall|k: int| 0 <= k < a.len() ==> !a[k] {
            assert forall|k: int| 0 <= k < a.drop_last().len() implies !a.drop_last()[k] by {
                assert(a.drop_last()[k] == a[k]);
            }
        }
        if forall|k: int| 0 <= k < a.len() ==> a[k] {
            assert forall|k: int| 0 <= k < a.drop_last().len() implies a.drop_last()[k] by {
                assert(a.drop_last()[k] == a[k]);
            }
        }
    }
}

/// (wavelength, angle) of flat grid point `k`, angles varying fastest.
pub fn grid_point(k: usize, n_th: usize) -> (r: (usize, usize))
    requires
        n_th > 0,
    ensures
        r.0 == k / n_th,
        r.1 == k % n_th,
{
    (k / n_th, k % n_th)
}

/// Grid point `k = w * n_th + th` decodes back to `(w, th)`, and every flat
/// index below `n_wl * n_th` decodes to a valid (wavelength, angle) pair.
pub proof fn lemma_grid_point_roundtrip(w: int, th: int, n_wl: int, n_th: int, k: int)
    requires
        0 <= w < n_wl,
        0 <= th < n_th,
        0 <= k < n_wl * n_th,
    ensures
        (w * n_th + th) / n_th == w,
        (w * n_th + th) % n_th == th,
        0 <= w * n_th + th < n_wl * n_th,
        0 <= k / n_th < n_wl,
        0 <= k % n_th < n_th,
{
    lemma_radix_bound(w, th, n_wl, n_th);
    vstd::arithmetic::div_mod::lemma_fundamental_div_mod_converse(w * n_th + th, n_th, w, th);
    vstd::arithmetic::div_mod::lemma_fundamental_div_mod(k, n_th);
    vstd::arithmetic::div_mod::lemma_mod_pos_bound(k, n_th);
    assert(0 <= k / n_th) by {
        vstd::arithmetic::div_mod::lemma_div_pos_is_pos(k, n_th);
    }
    if k / n_th >= n_wl {
        assert(n_th * (k / n_th) >= n_th * n_wl) by (nonlinear_arith)
            requires k / n_th >= n_wl, n_th > 0;
        assert(n_wl * n_th == n_th * n_wl) by (nonlinear_arith);
    }
}

/// Offset of one 3x3 complex tensor (9 real/imaginary pairs) for
/// wavelength `w` and layer `l` in a `[n_wl * n_layers * 18]` array.
pub open spec fn spec_tensor_offset(w: int, l: int, n_layers: int) -> int {
    (w * n_layers + l) * 18
}

/// Position of the real part of entry `(i, j)` of the tensor at `off`.
pub open spec fn spec_tensor_entry(off: int, i: int, j: int) -> int {
    off + (i * 3 + j) * 2
}

/// Offset of the tensor of wavelength `w`, layer `l`.
pub fn tensor_offset(w: usize, l: usize, n_layers: usize) -> (off: usize)
    requires
        spec_tensor_offset(w as int, l as int, n_layers as int) <= usize::MAX,
    ensures
        off == spec_tensor_offset(w as int, l as int, n_layers as int),
{
    proof {
        assert(0 <= w * n_layers <= (w * n_layers + l) * 18) by (nonlinear_arith)
            requires 0 <= w, 0 <= n_layers, 0 <= l;
    }
    (w * n_layers + l) * 18
}

/// Position of the real part of tensor entry `(i, j)` (imaginary at `+ 1`).
pub fn tensor_entry(off: usize, i: usize, j: usize) -> (p: usize)
    requires
        i < 3,
        j < 3,
        off + 17 <= usize::MAX,
    ensures
        p == spec_tensor_entry(off as int, i as int, j as int),
        p + 1 <= off + 17,
{
    off + (i * 3 + j) * 2
}

/// Tensor layout law: every (wavelength, layer, row, column) real/imaginary
/// pair lies inside the `n_wl * n_layers * 18` array, and two distinct
/// entries never share a position.
pub proof fn lemma_tensor_layout(
    n_wl: int, n_layers: int,
    w: int, l: int, i: int, j: int,
    w2: int, l2: int, i2: int, j2: int,
)
    requires
        0 <= w < n_wl, 0 <= l < n_layers, 0 <= i < 3, 0 <= j < 3,
        0 <= w2 < n_wl, 0 <= l2 < n_layers, 0 <= i2 < 3, 0 <= j2 < 3,
    ensures
        0 <= spec_tensor_entry(spec_tensor_offset(w, l, n_layers), i, j),
        spec_tensor_entry(spec_tensor_offset(w, l, n_layers), i, j) + 1 < n_wl * n_layers * 18,
        spec_tensor_entry(spec_tensor_offset(w, l, n_layers), i, j)
            == spec_tensor_entry(spec_tensor_offset(w2, l2, n_layers), i2, j2)
            ==> (w == w2 && l == l2 && i == i2 && j == j2),
{
    let t = w * n_layers + l;
    let t2 = w2 * n_layers + l2;
    lemma_radix_bound(w, l, n_wl, n_layers);
    lemma_radix_bound(w2, l2, n_wl, n_layers);
    let e = i * 3 + j;
    let e2 = i2 * 3 + j2;
    lemma_radix_bound(i, j, 3, 3);
    lemma_radix_bound(i2, j2, 3, 3);
    assert(spec_tensor_entry(spec_tensor_offset(w, l, n_layers), i, j) == (t * 9 + e) * 2);
    assert(spec_tensor_entry(spec_tensor_offset(w2, l2, n_layers), i2, j2) == (t2 * 9 + e2) * 2);
    lemma_radix_bound(t, e, n_wl * n_layers, 9);
    assert((t * 9 + e) * 2 + 1 < n_wl * n_layers * 18) by (nonlinear_arith)
        requires 0 <= t * 9 + e < n_wl * n_layers * 9;
    if (t * 9 + e) * 2 == (t2 * 9 + e2) * 2 {
        lemma_radix_digits_unique(t, e, t2, e2, 9);
        lemma_radix_digits_unique(w, l, w2, l2, n_layers);
        lemma_radix_digits_unique(i, j, i2, j2, 3);
    }
}

/// Order of the layer-tensor array: the first tensor starts the array,
/// the tensor of layer `l + 1` follows that of layer `l` of the same
/// wavelength directly, and the first layer of wavelength `w + 1` follows
/// the last layer of wavelength `w`. So layer `l` of the tensor array is
/// layer `l` of the thickness and roughness arrays, whatever the layer
/// count. Inside one tensor the nine complex entries follow row by row.
pub proof fn lemma_tensor_order(n_layers: int, w: int, l: int, off: int, i: int, j: int)
    requires
        n_layers >= 1,
        0 <= w,
        0 <= l < n_layers,
        0 <= i < 3,
        0 <= j < 3,
    ensures
        spec_tensor_offset(0, 0, n_layers) == 0,
        l + 1 < n_layers ==> spec_tensor_offset(w, l + 1, n_layers) == spec_tensor_offset(w, l, n_layers) + 18,
        spec_tensor_offset(w + 1, 0, n_layers) == spec_tensor_offset(w, n_layers - 1, n_layers) + 18,
        spec_tensor_entry(off, 0, 0) == off,
        j + 1 < 3 ==> spec_tensor_entry(off, i, j + 1) == spec_tensor_entry(off, i, j) + 2,
        i + 1 < 3 ==> spec_tensor_entry(off, i + 1, 0) == spec_tensor_entry(off, i, 2) + 2,
        spec_tensor_entry(off, 2, 2) + 2 == off + 18,
{
    assert((w + 1) * n_layers == w * n_layers + n_layers) by (nonlinear_arith);
}

/// Row-major slot of entry `(i, j)` of the `dim x dim` matrix of grid point
/// `k` in a flat `[n_points * dim * dim]` output buffer.
pub open spec fn spec_matrix_slot(k: int, i: int, j: int, dim: int) -> int {
    k * (dim * dim) + i * dim + j
}

/// Output-buffer slot of matrix entry `(i, j)` of grid point `k`.
pub fn matrix_slot(k: usize, i: usize, j: usize, dim: usize) -> (s: usize)
    requires
        i < dim,
        j < dim,
        dim * dim <= usize::MAX,
        spec_matrix_slot(k as int, i as int, j as int, dim as int) <= usize::MAX,
    ensures
        s == spec_matrix_slot(k as int, i as int, j as int, dim as int),
{
    proof {
        assert(0 <= k * (dim * dim) && 0 <= i * dim) by (nonlinear_arith)
            requires 0 <= k, 0 <= dim, 0 <= i;
    }
    let dd: usize = dim * dim;
    k * dd + i * dim + j
}

/// Matrix-slot law: for `n_points` grid points every `(k, i, j)` lands
/// inside the `n_points * dim * dim` buffer, on a slot of its own.
pub proof fn lemma_matrix_slot_layout(
    n_points: int, dim: int,
    k: int, i: int, j: int,
    k2: int, i2: int, j2: int,
)
    requires
        0 <= k < n_points, 0 <= i < dim, 0 <= j < dim,
        0 <= k2 < n_points, 0 <= i2 < dim, 0 <= j2 < dim,
    ensures
        0 <= spec_matrix_slot(k, i, j, dim) < n_points * (dim * dim),
        spec_matrix_slot(k, i, j, dim) == spec_matrix_slot(k2, i2, j2, dim)
            ==> (k == k2 && i == i2 && j == j2),
{
    lemma_radix_bound(i, j, dim, dim);
    lemma_radix_bound(i2, j2, dim, dim);
    lemma_radix_bound(k, i * dim + j, n_points, dim * dim);
    if spec_matrix_slot(k, i, j, dim) == spec_matrix_slot(k2, i2, j2, dim) {
        lemma_radix_digits_unique(k, i * dim + j, k2, i2 * dim + j2, dim * dim);
        lemma_radix_digits_unique(i, j, i2, j2, dim);
    }
}

/// Order of a matrix output buffer: the first entry of the first grid point
/// starts the buffer, entries follow along a row, a row follows the end of
/// the row above it, and the matrix of grid point `k + 1` follows the last
/// entry of that of point `k`: row-major, rows in their natural order, for
/// every matrix size.
pub proof fn lemma_matrix_slot_order(dim: int, k: int, i: int, j: int)
    requires
        dim >= 1,
        0 <= k,
        0 <= i < dim,
        0 <= j < dim,
    ensures
        spec_matrix_slot(0, 0, 0, dim) == 0,
        j + 1 < dim ==> spec_matrix_slot(k, i, j + 1, dim) == spec_matrix_slot(k, i, j, dim) + 1,
        i + 1 < dim ==> spec_matrix_slot(k, i + 1, 0, dim) == spec_matrix_slot(k, i, dim - 1, dim) + 1,
        spec_matrix_slot(k + 1, 0, 0, dim) == spec_matrix_slot(k, dim - 1, dim - 1, dim) + 1,
{
    assert((k + 1) * (dim * dim) == k * (dim * dim) + (dim - 1) * dim + dim) by (nonlinear_arith);
    assert((i + 1) * dim == i * dim + dim) by (nonlinear_arith);
    assert(0 * (dim * dim) == 0 && 0 * dim == 0) by (nonlinear_arith);
}

/// Row-major 4x4 matrix from a flat 16-element slice; `None` for any other
/// length.
pub fn matrix4_from_flat<T: Copy>(flat: &[T]) -> (m: Option<[[T; 4]; 4]>)
    ensures
        m is Some <==> flat@.len() == 16,
        m matches Some(a) ==> forall|i: int, j: int|
            0 <= i < 4 && 0 <= j < 4 ==> #[trigger] a[i][j] == flat@[i * 4 + j],
{
    if flat.len() != 16 {
        return None;
    }
    Some([
        [flat[0], flat[1], flat[2], flat[3]],
        [flat[4], flat[5], flat[6], flat[7]],
        [flat[8], flat[9], flat[10], flat[11]],
        [flat[12], flat[13], flat[14], flat[15]],
    ])
}

/// Number of row-major 3x3 tensors in a batch given as real and imaginary
/// arrays; `None` unless both arrays have the same non-zero length that is
/// a multiple of 9.
pub fn tensor_batch_count(re_len: usize, im_len: usize) -> (n: Option<usize>)
    ensures
        n is Some <==> (re_len == im_len && re_len % 9 == 0 && re_len != 0),
        n matches Some(c) ==> c == re_len / 9 && c >= 1,
{
    if re_len != im_len || re_len % 9 != 0 || re_len == 0 {
        None
    } else {
        Some(re_len / 9)
    }
}

/// Slot of component `comp` at depth `iz` of grid point `k` in a flat
/// `[n_points, n_z, 3]` field-output buffer.
pub open spec fn spec_depth_slot(k: int, iz: int, comp: int, n_z: int) -> int {
    k * (n_z * 3) + iz * 3 + comp
}

/// Output-buffer slot of one field component of grid point `k`.
pub fn depth_slot(k: usize, iz: usize, comp: usize, n_z: usize) -> (s: usize)
    requires
        iz < n_z,
        comp < 3,
        n_z * 3 <= usize::MAX,
        spec_depth_slot(k as int, iz as int, comp as int, n_z as int) <= usize::MAX,
    ensures
        s == spec_depth_slot(k as int, iz as int, comp as int, n_z as int),
{
    proof {
        assert(0 <= k * (n_z * 3)) by (nonlinear_arith)
            requires 0 <= k, 0 <= n_z;
    }
    let cell: usize = n_z * 3;
    k * cell + iz * 3 + comp
}

/// Depth-slot law: every `(k, iz, comp)` of `n_points` grid points lands
/// inside the `n_points * n_z * 3` buffer, on a slot of its own.
pub proof fn lemma_depth_slot_layout(
    n_points: int, n_z: int,
    k: int, iz: int, comp: int,
    k2: int, iz2: int, comp2: int,
)
    requires
        0 <= k < n_points, 0 <= iz < n_z, 0 <= comp < 3,
        0 <= k2 < n_points, 0 <= iz2 < n_z, 0 <= comp2 < 3,
    ensures
        0 <= spec_depth_slot(k, iz, comp, n_z) < n_points * (n_z * 3),
        spec_depth_slot(k, iz, comp, n_z) == spec_depth_slot(k2, iz2, comp2, n_z)
            ==> (k == k2 && iz == iz2 && comp == comp2),
{
    lemma_radix_bound(iz, comp, n_z, 3);
    lemma_radix_bound(iz2, comp2, n_z, 3);
    lemma_radix_bound(k, iz * 3 + comp, n_points, n_z * 3);
    if spec_depth_slot(k, iz, comp, n_z) == spec_depth_slot(k2, iz2, comp2, n_z) {
        lemma_radix_digits_unique(k, iz * 3 + comp, k2, iz2 * 3 + comp2, n_z * 3);
        lemma_radix_digits_unique(iz, comp, iz2, comp2, 3);
    }
}

/// Order of a field output buffer: components follow each other, the
/// components of depth `iz + 1` follow those of depth `iz`, and grid point
/// `k + 1` follows the last component of the last depth of point `k`.
pub proof fn lemma_depth_slot_order(n_z: int, k: int, iz: int, comp: int)
    requires
        n_z >= 1,
        0 <= k,
        0 <= iz < n_z,
        0 <= comp < 3,
    ensures
        spec_depth_slot(0, 0, 0, n_z) == 0,
        comp + 1 < 3 ==> spec_depth_slot(k, iz, comp + 1, n_z) == spec_depth_slot(k, iz, comp, n_z) + 1,
        iz + 1 < n_z ==> spec_depth_slot(k, iz + 1, 0, n_z) == spec_depth_slot(k, iz, 2, n_z) + 1,
        spec_depth_slot(k + 1, 0, 0, n_z) == spec_depth_slot(k, n_z - 1, 2, n_z) + 1,
{
    assert((k + 1) * (n_z * 3) == k * (n_z * 3) + n_z * 3) by (nonlinear_arith);
    assert(0 * (n_z * 3) == 0) by (nonlinear_arith);
}

} // verus!
