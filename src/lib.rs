//! A small simulator of qubit registers: a dense matrix engine over a
//! caller-supplied scalar field, a catalog of standard gates, single qubits,
//! and a register that tracks which qubits have become entangled.
pub mod scalar;
pub mod matrix;
pub mod gate;
pub mod qubit;
pub mod system;
pub mod laws;
