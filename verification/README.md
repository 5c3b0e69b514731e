# navette-berreman

A 4x4 Berreman / Mueller solver for birefringent multilayer stacks:
Jones, power and Mueller responses of layered anisotropic (optionally
magneto-optic) media over a grid of wavelengths and incidence angles, by the
scattering-matrix, transfer-matrix and exponential-matrix methods, plus
internal fields, interface roughness, dispersion models and Mueller metrics.

Layout:

* `src/` — the verified library (Verus). Everything that decides or lays
  out data on plain values: flat-buffer layouts of the sweep inputs and
  outputs (with injectivity / bounds laws), argument checks and selector
  decoding of the sweep entry points, the exit-medium protocol, the greedy
  grouping of repeated eigenvalues, the partial-wave ordering, the block
  layout and Fresnel read-off of scattering matrices, the per-interface
  roughness sequences of plain and periodic stacks (with the law that a
  periodic stack is dressed exactly like its expansion), the channel map of
  the roughness dressing, and the shape checks of the dispersion inputs.
* `app/` — the floating-point kernels (complex linear algebra, Berreman
  matrices, eigensolver, stack solves, fields, roughness factors, Mueller
  metrics, dispersion models through the `navette` crate) and the Python
  extension module; they call the library for every decision above.
* `tests/` — tests of the library.
