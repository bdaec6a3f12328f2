# scf_stability

Verified index and decision logic of the stability analysis of a converged
SCF reference (is the Hessian of the energy with respect to orbital rotations
free of negative eigenvalues?).

- `src/flat_index.rs` — flattening of index pairs, with the bijection lemmas.
- `src/orbital.rs` — occupied/virtual counts of a spin channel, the
  virtual-occupied pair index and the pairing of diagonal Fock terms.
- `src/layout.rs` — the spin-blocked layout of orbital-rotation vectors
  (blocks, concatenation, round trips) and the scale factors.
- `src/slow_hessian.rs` — positions used by the explicit assembly of the
  restricted A and B matrices.
- `src/plan.rs` — which checks run, how they are reported, and which Coulomb,
  exchange and kernel terms make up the response.

`app/` holds the floating-point side (matrix products with `rest_tensors`,
the Davidson solver, response potentials), driven by the library above.
