//! A bridge that lets contract code on an EVM-style engine reach external,
//! stateful services through a precompile: call dispatch, a caller-bound
//! handle registry and the precompile's gas and error rules.
pub mod abi;
pub mod registry;
pub mod precompile;
pub mod laws;
