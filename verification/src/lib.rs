//! Index layout, spin blocking and decision logic behind the SCF stability
//! analysis: which Hessian checks are run, how the occupied-virtual space is
//! flattened into vectors, and which Coulomb, exchange and kernel terms make
//! up the orbital response.

pub mod flat_index;
pub mod orbital;
pub mod layout;
pub mod slow_hessian;
pub mod plan;
