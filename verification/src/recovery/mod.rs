//! Recovery of a node after a partition: the recovery state machine, checkpoints,
//! replay checks and corruption detection.

pub mod state;
pub mod checkpoint;
pub mod replay;
pub mod corruption;



