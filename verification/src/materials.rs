//! Shape validation of the dispersion-model inputs.
use vstd::prelude::*;

verus! {

/// Why a flat oscillator matrix is refused.
#[derive(Clone, Copy, PartialEq, Eq, Debug, Structural)]
pub enum OscillatorShapeError {
    /// Zero width, or a length that is not a multiple of the row width.
    NotRowMajor { width: usize, len: usize },
    /// No oscillator row at all.
    Empty,
}

/// Number of oscillator rows of a flat `(N, width)` row-major matrix of
/// `len` values.
pub fn oscillator_rows(len: usize, width: usize) -> (r: Result<usize, OscillatorShapeError>)
    ensures
        r == (if width == 0 || len % width != 0 {
            Err(OscillatorShapeError::NotRowMajor { width, len })
        } else if len / width == 0 {
            Err(OscillatorShapeError::Empty)
        } else {
            Ok((len / width) as usize)
        }),
{
    if width == 0 || len % width != 0 {
        return Err(OscillatorShapeError::NotRowMajor { width, len });
    }
    let n: usize = len / width;
    if n == 0 {
        return Err(OscillatorShapeError::Empty);
    }
    Ok(n)
}

/// Why tabulated (n, k) data is refused.
#[derive(Clone, Copy, PartialEq, Eq, Debug, Structural)]
pub enum TableShapeError {
    /// Fewer than two grid points.
    TooFewPoints { got: usize },
    /// The n column does not match the grid.
    GridNMismatch { grid: usize, n: usize },
    /// The k column does not match the grid.
    GridKMismatch { grid: usize, k: usize },
}

/// Check the lengths of tabulated data: at least two grid points, and n
/// (and k, when given) columns as long as the grid.
pub fn check_table_shape(grid_len: usize, n_len: usize, k_len: Option<usize>) -> (r: Result<(), TableShapeError>)
    ensures
        r == (if grid_len < 2 {
            Err(TableShapeError::TooFewPoints { got: grid_len })
        } else if grid_len != n_len {
            Err(TableShapeError::GridNMismatch { grid: grid_len, n: n_len })
        } else {
            match k_len {
                Some(k) => if k != grid_len {
                    Err(TableShapeError::GridKMismatch { grid: grid_len, k })
                } else {
                    Ok(())
                },
                None => Ok(()),
            }
        }),
{
    if grid_len < 2 {
        return Err(TableShapeError::TooFewPoints { got: grid_len });
    }
    if grid_len != n_len {
        return Err(TableShapeError::GridNMismatch { grid: grid_len, n: n_len });
    }
    if let Some(k) = k_len {
        if k != grid_len {
            return Err(TableShapeError::GridKMismatch { grid: grid_len, k });
        }
    }
    Ok(())
}

} // verus!
