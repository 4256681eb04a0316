//! Verified core of a sheaf-coordination engine.
pub mod admm;
pub mod algebra;
pub mod config;
pub mod decoder;
pub mod demo;
pub mod encoder;
pub mod figures;
pub mod geometry;
pub mod graph;
pub mod laws;
pub mod layers;
pub mod mazegen;
pub mod metrics;
pub mod model;
pub mod modular;
pub mod npz;
pub mod par;
pub mod parity;
pub mod plain;
pub mod readout;
pub mod reduce;
pub mod report;
pub mod restriction_maps;
pub mod scalar;
pub mod scene;
pub mod session;
pub mod solvers;
pub mod tensor;
pub mod terminal;
pub mod text;
pub mod views;
pub mod weights;
