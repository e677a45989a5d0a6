/// The ballistic aim solver: launch directions and the least reaching speed.
pub mod ballistic;
/// Blocks and the effects they carry.
pub mod block;
/// Debris of a destroyed block.
pub mod debris;
/// Fixed-point arithmetic: truncating division and integer square roots.
pub mod fixed;
/// Points, rotations and poses in micro-cells.
pub mod geometry;
/// The bonding solver of glue blocks.
pub mod glue;
/// The block lifecycle state machine and the tower of launched blocks.
pub mod lifecycle;
/// The magnetic field solver.
pub mod magnetic;
/// The trajectory predictor.
pub mod predictor;
/// Random draws.
pub mod rng;
/// The seven block forms.
pub mod shape;
/// The player's aim and the throw queue.
pub mod throw;
