//! Channel map of the interface-roughness dressing.
//!
//! The element `(i, j)` of an interface scattering matrix couples incoming
//! mode `j` to outgoing mode `i`. Mode ordering in each medium is
//! `[forward0, forward1, backward0, backward1]`; with `a` the incident-side
//! medium and `b` the transmitted-side one:
//!   * out rows 0, 1 are forward modes of `b` (transmitted into `b`),
//!   * out rows 2, 3 are backward modes of `a` (reflected into `a`),
//!   * in columns 0, 1 are forward modes of `a` (incident from `a`),
//!   * in columns 2, 3 are backward modes of `b` (incident from `b`).
//!
//! Roughness codes: 0 none, 1 uniform (box), 2 two-delta, 3 Lorentzian,
//! 4 Gaussian, 5 Nevot-Croce; any other code leaves the interface smooth.
use vstd::prelude::*;

verus! {

/// Side of an interface.
#[derive(Clone, Copy, PartialEq, Eq, Debug, Structural)]
pub enum Medium {
    /// The medium in front of the interface (`a`).
    Incident,
    /// The medium behind the interface (`b`).
    Transmitted,
}

/// One partial wave on one side of an interface.
#[derive(Clone, Copy, PartialEq, Eq, Debug, Structural)]
pub struct Channel {
    pub medium: Medium,
    pub mode: usize,
}

/// Single-argument height-distribution form factors W(q).
#[derive(Clone, Copy, PartialEq, Eq, Debug, Structural)]
pub enum FormModel {
    /// sin(q*sqrt3) / (q*sqrt3)
    Uniform,
    /// cos(q)
    TwoDelta,
    /// 1 / (1 + q^2/2)
    Lorentzian,
    /// exp(-q^2/2)
    Gaussian,
}

/// Factor applied to one element of the interface scattering matrix.
#[derive(Clone, Copy, PartialEq, Eq, Debug, Structural)]
pub enum CouplingFactor {
    /// No attenuation.
    Unity,
    /// `W((kz[input] - kz[output]) * sigma)` with the given model.
    Form { model: FormModel, input: Channel, output: Channel },
    /// Nevot-Croce cross factor `exp(-2 * kz_a[mode] * kz_b[mode] * sigma^2)`.
    Cross { mode: usize },
}

/// Channel of outgoing row `i`.
pub open spec fn output_channel(i: int) -> Channel {
    if i < 2 {
        Channel { medium: Medium::Transmitted, mode: i as usize }
    } else {
        Channel { medium: Medium::Incident, mode: i as usize }
    }
}

/// Channel of incoming column `j`.
pub open spec fn input_channel(j: int) -> Channel {
    if j < 2 {
        Channel { medium: Medium::Incident, mode: j as usize }
    } else {
        Channel { medium: Medium::Transmitted, mode: j as usize }
    }
}

/// Form-factor model of a single-argument roughness code (1 to 4).
pub open spec fn spec_form_model(rough_type: i32) -> Option<FormModel> {
    if rough_type == 1 {
        Some(FormModel::Uniform)
    } else if rough_type == 2 {
        Some(FormModel::TwoDelta)
    } else if rough_type == 3 {
        Some(FormModel::Lorentzian)
    } else if rough_type == 4 {
        Some(FormModel::Gaussian)
    } else {
        None
    }
}

/// Form-factor model of a roughness code; `None` for codes without a
/// single-argument form factor (0, 5 and unknown codes).
pub fn form_model(rough_type: i32) -> (m: Option<FormModel>)
    ensures
        m == spec_form_model(rough_type),
{
    if rough_type == 1 {
        Some(FormModel::Uniform)
    } else if rough_type == 2 {
        Some(FormModel::TwoDelta)
    } else if rough_type == 3 {
        Some(FormModel::Lorentzian)
    } else if rough_type == 4 {
        Some(FormModel::Gaussian)
    } else {
        None
    }
}

/// True for the transmission couplings (forward a -> forward b and
/// backward b -> backward a); the others are reflections.
pub open spec fn is_transmission(i: int, j: int) -> bool {
    (i < 2) == (j < 2)
}

/// The factor that dresses element `(i, j)`.
pub open spec fn spec_coupling_factor(rough_type: i32, i: int, j: int) -> CouplingFactor {
    if rough_type == 5 {
        if is_transmission(i, j) {
            CouplingFactor::Form {
                model: FormModel::Gaussian,
                input: input_channel(j),
                output: output_channel(i),
            }
        } else {
            CouplingFactor::Cross { mode: (if j < 2 { j } else { i }) as usize }
        }
    } else {
        match spec_form_model(rough_type) {
            Some(model) => CouplingFactor::Form {
                model,
                input: input_channel(j),
                output: output_channel(i),
            },
            None => CouplingFactor::Unity,
        }
    }
}

/// Gaussian transfer factor on element `(i, j)`: incoming mode `j`
/// (forward modes on the incident side, backward ones on the transmitted
/// side), outgoing mode `i` (forward modes on the transmitted side,
/// backward ones on the incident side).
pub open spec fn coupling_factor_gaussian(i: usize, j: usize) -> CouplingFactor {
    CouplingFactor::Form {
        model: FormModel::Gaussian,
        input: Channel { medium: if j < 2 { Medium::Incident } else { Medium::Transmitted }, mode: j },
        output: Channel { medium: if i < 2 { Medium::Transmitted } else { Medium::Incident }, mode: i },
    }
}

/// Roughness factor kind of element `(i, j)` of the interface scattering
/// matrix for a roughness code. Codes 1-4 attenuate every element by the
/// form factor of its wavevector transfer; code 5 applies the Nevot-Croce
/// cross factor on reflections and the Gaussian transfer factor on
/// transmissions.
pub fn coupling_factor(rough_type: i32, i: usize, j: usize) -> (f: CouplingFactor)
    requires
        i < 4,
        j < 4,
    ensures
        f == spec_coupling_factor(rough_type, i as int, j as int),
        1 <= rough_type <= 4 ==> f == (CouplingFactor::Form {
            model: if rough_type == 1 {
                FormModel::Uniform
            } else if rough_type == 2 {
                FormModel::TwoDelta
            } else if rough_type == 3 {
                FormModel::Lorentzian
            } else {
                FormModel::Gaussian
            },
            input: Channel { medium: if j < 2 { Medium::Incident } else { Medium::Transmitted }, mode: j },
            output: Channel { medium: if i < 2 { Medium::Transmitted } else { Medium::Incident }, mode: i },
        }),
        !(1 <= rough_type <= 5) ==> f == CouplingFactor::Unity,
        rough_type == 5 && (i < 2) == (j < 2) ==> f == coupling_factor_gaussian(i, j),
        rough_type == 5 && (i < 2) != (j < 2) ==> f == (CouplingFactor::Cross {
            mode: if i < 2 { i } else { j },
        }),
{
    let output = if i < 2 {
        Channel { medium: Medium::Transmitted, mode: i }
    } else {
        Channel { medium: Medium::Incident, mode: i }
    };
    let input = if j < 2 {
        Channel { medium: Medium::Incident, mode: j }
    } else {
        Channel { medium: Medium::Transmitted, mode: j }
    };
    if rough_type == 5 {
        if (i < 2) == (j < 2) {
            CouplingFactor::Form { model: FormModel::Gaussian, input, output }
        } else {
            CouplingFactor::Cross { mode: if j < 2 { j } else { i } }
        }
    } else {
        match form_model(rough_type) {
            Some(model) => CouplingFactor::Form { model, input, output },
            None => CouplingFactor::Unity,
        }
    }
}

/// The single-argument codes 1 to 4 dress every element of the interface
/// scattering matrix, reflections as well as transmissions, with one and the
/// same form factor: the model is fixed by the code alone (uniform,
/// two-delta, Lorentzian, Gaussian in that order, all different), and the
/// element `(i, j)` is attenuated on the wavevector transfer from incoming
/// mode `j` to outgoing mode `i`. A reflection couples two modes of the same
/// medium, a transmission modes of the two different media.
pub proof fn lemma_form_codes_dress_every_element(code: i32, i: int, j: int, i2: int, j2: int)
    requires
        1 <= code <= 4,
        0 <= i < 4,
        0 <= j < 4,
        0 <= i2 < 4,
        0 <= j2 < 4,
    ensures
        spec_coupling_factor(code, i, j) is Form,
        spec_coupling_factor(code, i, j)->Form_model == spec_coupling_factor(code, i2, j2)->Form_model,
        spec_coupling_factor(code, i, j)->Form_input.mode == j,
        spec_coupling_factor(code, i, j)->Form_output.mode == i,
        spec_coupling_factor(code, i, j)->Form_input.medium == (if j < 2 {
            Medium::Incident
        } else {
            Medium::Transmitted
        }),
        spec_coupling_factor(code, i, j)->Form_output.medium == (if i < 2 {
            Medium::Transmitted
        } else {
            Medium::Incident
        }),
        ((i < 2) != (j < 2)) <==> spec_coupling_factor(code, i, j)->Form_input.medium
            == spec_coupling_factor(code, i, j)->Form_output.medium,
        code == 1 ==> spec_coupling_factor(code, i, j)->Form_model == FormModel::Uniform,
        code == 2 ==> spec_coupling_factor(code, i, j)->Form_model == FormModel::TwoDelta,
        code == 3 ==> spec_coupling_factor(code, i, j)->Form_model == FormModel::Lorentzian,
        code == 4 ==> spec_coupling_factor(code, i, j)->Form_model == FormModel::Gaussian,
{
}

/// On transmission couplings the Nevot-Croce dressing is exactly the
/// Gaussian (code 4) dressing; on reflections it pairs the same mode index
/// on both sides, taken from the incoming forward mode or the outgoing
/// backward one.
pub proof fn lemma_nevot_croce_transmission_is_gaussian(i: int, j: int)
    requires
        0 <= i < 4,
        0 <= j < 4,
    ensures
        is_transmission(i, j) ==> spec_coupling_factor(5, i, j) == spec_coupling_factor(4, i, j),
        !is_transmission(i, j) ==> spec_coupling_factor(5, i, j) == (CouplingFactor::Cross {
            mode: (if j < 2 { j } else { i }) as usize,
        }),
{
}

/// Nevot-Croce (code 5) against the Gaussian code 4: every transmission
/// element is dressed exactly as under code 4, and every reflection element
/// carries the cross factor of one forward mode index (below 2), the one of
/// `i` and `j` that names a forward mode, so that the same mode is paired on
/// both sides of the interface.
pub proof fn lemma_nevot_croce_against_gaussian(i: int, j: int)
    requires
        0 <= i < 4,
        0 <= j < 4,
    ensures
        (i < 2) == (j < 2) ==> spec_coupling_factor(5, i, j) == spec_coupling_factor(4, i, j),
        (i < 2) != (j < 2) ==> spec_coupling_factor(5, i, j) is Cross,
        (i < 2) != (j < 2) ==> spec_coupling_factor(5, i, j)->Cross_mode < 2,
        (i < 2) != (j < 2) ==> (spec_coupling_factor(5, i, j)->Cross_mode == i
            || spec_coupling_factor(5, i, j)->Cross_mode == j),
        spec_coupling_factor(5, i, j) != CouplingFactor::Unity,
{
}

/// Codes 0 and unknown codes leave every element unattenuated.
pub proof fn lemma_smooth_codes_are_unity(rough_type: i32, i: int, j: int)
    requires
        !(1 <= rough_type <= 5),
    ensures
        spec_coupling_factor(rough_type, i, j) == CouplingFactor::Unity,
{
}

/// Column `i` entry of the eigenvector column that a channel names:
/// column `ch.mode` of `pa` for the incident side, of `pb` otherwise.
pub open spec fn channel_entry<T>(pa: [[T; 4]; 4], pb: [[T; 4]; 4], ch: Channel, i: int) -> T {
    match ch.medium {
        Medium::Incident => pa[i][ch.mode as int],
        Medium::Transmitted => pb[i][ch.mode as int],
    }
}

/// Eigenvector columns of the interface problem between layer `a` (columns
/// of `pa`) and layer `b` (columns of `pb`): the first result holds, in
/// column `k`, the eigenvector of incoming channel `k` (forward modes of
/// `a`, then backward modes of `b`), the second that of outgoing channel `k`
/// (forward modes of `b`, then backward modes of `a`). These are the same
/// channels that `coupling_factor` attenuates, so the dressing of element
/// `(i, j)` acts on exactly the modes of incoming column `j` and outgoing
/// column `i`.
pub fn interface_columns<T: Copy>(pa: &[[T; 4]; 4], pb: &[[T; 4]; 4]) -> (r: ([[T; 4]; 4], [[T; 4]; 4]))
    ensures
        forall|i: int, k: int| 0 <= i < 4 && 0 <= k < 4 ==> {
            &&& #[trigger] r.0[i][k] == channel_entry(*pa, *pb, input_channel(k), i)
            &&& #[trigger] r.1[i][k] == channel_entry(*pa, *pb, output_channel(k), i)
        },
{
    let incoming = [
        [pa[0][0], pa[0][1], pb[0][2], pb[0][3]],
        [pa[1][0], pa[1][1], pb[1][2], pb[1][3]],
        [pa[2][0], pa[2][1], pb[2][2], pb[2][3]],
        [pa[3][0], pa[3][1], pb[3][2], pb[3][3]],
    ];
    let outgoing = [
        [pb[0][0], pb[0][1], pa[0][2], pa[0][3]],
        [pb[1][0], pb[1][1], pa[1][2], pa[1][3]],
        [pb[2][0], pb[2][1], pa[2][2], pa[2][3]],
        [pb[3][0], pb[3][1], pa[3][2], pa[3][3]],
    ];
    (incoming, outgoing)
}

} // verus!
