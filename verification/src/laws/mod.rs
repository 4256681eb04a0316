//! What holds of the library as a whole.
pub mod batches;
pub mod decoder;
pub mod descent;
pub mod encoder;
pub mod figures;
pub mod files;
pub mod geometry;
pub mod iterations;
pub mod layers;
pub mod lora;
pub mod mazes;
pub mod measures;
pub mod metrics;
pub mod model;
pub mod order;
pub mod parity;
pub mod readout;
pub mod reals;
pub mod report;
pub mod ring;
pub mod solvers;
pub mod sums;
