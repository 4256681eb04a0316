//! Model configuration.
use vstd::prelude::*;

verus! {

/// Architecture and solver hyperparameters. Numbers that an architecture does not use
/// are zero, texts empty.
#[derive(Debug)]
pub struct ModelConfig<S> {
    pub num_classes: usize,
    pub d_v: usize,
    pub d_e: usize,
    pub encoder_arch: String,
    pub enc_hidden_dim: usize,
    /// Mixer width of the sudoku encoder.
    pub enc_d_model: usize,
    /// Mixer blocks of the sudoku encoder.
    pub enc_num_blocks: usize,
    pub comm_norm_type: String,
    pub objective_mode: String,
    /// The l1 weight of the lasso objective.
    pub l1_weight: Option<S>,
    pub x_solver: String,
    pub z_solver: String,
    pub z_mode: String,
    pub gamma: S,
    pub cg_iters: usize,
    pub tikhonov_eps: S,
    pub prox_init: String,
    pub rm_sharing: String,
    pub rm_init: String,
    pub rm_mode: String,
    pub lora_rank: usize,
    pub lora_alpha: S,
    pub lora_use_gate: bool,
    pub lora_init_style: String,
    pub num_directions: usize,
    pub relaxation_alpha: S,
    pub z_init: String,
    pub q_epsilon: S,
    pub l1_init: S,
    pub upper_init: S,
    pub decoder_arch: String,
    pub dec_hidden_dim: usize,
    /// Block widths of the sudoku decoder.
    pub dec_hidden_dims: Vec<usize>,
    pub dec_readout_mode: Option<String>,
}

/// Task and data geometry.
#[derive(Debug, Clone)]
pub struct TaskConfig {
    pub task: String,
    pub patch_size: usize,
    pub stride: usize,
    pub connectivity: usize,
    /// Input token classes.
    pub num_classes: usize,
    pub k_eval: usize,
    pub loss_window: usize,
}

/// Scalars evaluated once, when the weights were written.
#[derive(Debug)]
pub struct BakedScalars<S> {
    /// The learned penalty.
    pub rho: S,
}

/// Model block, task geometry and baked scalars.
#[derive(Debug)]
pub struct ExportedConfig<S> {
    pub model: ModelConfig<S>,
    pub task: TaskConfig,
    pub baked: BakedScalars<S>,
}

impl<S: crate::scalar::Scalar> ExportedConfig<S> {
    /// The l1 weight of the lasso objective; zero where none is configured.
    pub fn l1_weight(&self) -> (r: S)
        ensures
            r == match self.model.l1_weight {
                Some(w) => w,
                None => S::spec_zero(),
            },
    {
        match self.model.l1_weight {
            Some(w) => w,
            None => S::zero(),
        }
    }
}

} // verus!
