//! Progressive distillation pipeline for room intelligence: a log of cloud
//! corrections per room, the thresholds that decide when a distillation round
//! is due, and the export of training examples.
//!
//! Confidences are fixed-point integers in millionths: `UNIT` stands for 1.0.
pub mod config;
pub mod correction;
mod external;
pub mod store;

pub use config::DistillationConfig;
pub use correction::{Correction, TrainingExample, UNIT};
pub use store::CorrectionStore;
