//! Discrete core of an energy-lattice simulator.
//!
//! The simulator keeps, for every cell of a three-dimensional lattice, a
//! matrix of energies by variable and force; it moves energy within a cell by
//! a redistribution operator and between neighbouring cells by transport.
//! The energies are floating-point numbers and stay with the caller. This
//! library holds what is decided on integers and flags, with a proof for each
//! decision:
//!
//! - `geometry` and `lattice`: coordinates, flat indices, boundary policies,
//!   neighbours, and the storage of one value per cell;
//! - `redistribution`: the layout of the channels, the transfer mask, and the
//!   sub-step schedule of the adaptive integrator;
//! - `transport`: every pair of neighbouring cells exactly once, and the
//!   wavevectors of Fourier bins;
//! - `conservation`: sorting cells into voids, walls and filaments, and box
//!   counting;
//! - `evolution`: the order of the phases of a time step;
//! - `init`, `visualization`, `control`: seeds, slices, and the key handling
//!   of a front end.

pub mod types;
pub mod geometry;
pub mod lattice;
pub mod redistribution;
pub mod transport;
pub mod conservation;
pub mod evolution;
pub mod init;
pub mod visualization;
pub mod control;
