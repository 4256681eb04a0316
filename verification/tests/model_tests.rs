//! Weights, model and session tests on single-precision numbers.

use safetensors::tensor::TensorView;
use safetensors::Dtype;
use sheaf::config::{BakedScalars, ExportedConfig, ModelConfig, TaskConfig};
use sheaf::decoder::{ConcatMlpDecoderV2, ConcatMlpDecoderV2Params, ReadoutMode};
use sheaf::demo::run_mazes;
use sheaf::encoder::{MlpEncoderV2, MlpEncoderV2Config, MlpEncoderV2Params};
use sheaf::geometry::SheafGeometry;
use sheaf::graph::{compute_direction_index, AgentGraph};
use sheaf::layers::{
    gelu_tanh, inverse_softplus, sigmoid, softplus, Dense, LayerNorm, RmsNorm,
};
use sheaf::mazegen::generate_maze;
use sheaf::model::{stack_states, RmParams, SheafAdmmModel};
use sheaf::npz::{Npz, NpzData, NpzEntry, NpzError};
use sheaf::parity::{compare_run, plan_run, Archive, Check, Comparison, Row, Verdict, Wanted};
use sheaf::plain::Plain;
use sheaf::report::Outcome;
use sheaf::restriction_maps::{build_directional_restriction_maps, direction_names};
use sheaf::scalar::Scalar;
use sheaf::scene::{grid_countable, modes_run, prepare_scene};
use sheaf::session::{path_cells, SessionCore, SessionError};
use sheaf::solvers::Objective;
use sheaf::tensor::{Matrix, Tensor3};
use sheaf::views::{build_grid_edge_indices, grid_agent_centers, prepare_maze_patches};
use sheaf::weights::{
    expected_keys, load_maze_model, load_maze_model_from_bytes, load_mnist_model, load_sudoku_model,
    maze_sizes_countable, mnist_expected_keys, mnist_sizes_countable, offsets_are_countable,
    sudoku_expected_keys, sudoku_sizes_countable, widen_half, ManifestEntry, WeightCollection,
    WeightsError,
};
use std::collections::{BTreeMap, HashMap};
use std::sync::Arc;

/// Single-precision numbers.
#[derive(Clone, Copy, Debug, PartialEq)]
struct F(f32);

impl Scalar for F {
    fn zero() -> F {
        F(0.0)
    }
    fn one() -> F {
        F(1.0)
    }
    fn infinity() -> F {
        F(f32::INFINITY)
    }
    fn neg_infinity() -> F {
        F(f32::NEG_INFINITY)
    }
    fn negate(self) -> F {
        F(-self.0)
    }
    fn abs(self) -> F {
        F(self.0.abs())
    }
    fn sqrt(self) -> F {
        F(self.0.sqrt())
    }
    fn exp(self) -> F {
        F(self.0.exp())
    }
    fn ln(self) -> F {
        F(self.0.ln())
    }
    fn ln_1p(self) -> F {
        F(self.0.ln_1p())
    }
    fn tanh(self) -> F {
        F(self.0.tanh())
    }
    fn log10(self) -> F {
        F(self.0.log10())
    }
    fn floor(self) -> F {
        F(self.0.floor())
    }
    fn ceil(self) -> F {
        F(self.0.ceil())
    }
    fn round(self) -> F {
        F(self.0.round())
    }
    fn plus(self, rhs: F) -> F {
        F(self.0 + rhs.0)
    }
    fn minus(self, rhs: F) -> F {
        F(self.0 - rhs.0)
    }
    fn times(self, rhs: F) -> F {
        F(self.0 * rhs.0)
    }
    fn over(self, rhs: F) -> F {
        F(self.0 / rhs.0)
    }
    fn max(self, rhs: F) -> F {
        F(self.0.max(rhs.0))
    }
    fn min(self, rhs: F) -> F {
        F(self.0.min(rhs.0))
    }
    fn pow(self, rhs: F) -> F {
        F(self.0.powf(rhs.0))
    }
    fn less(self, rhs: F) -> bool {
        self.0 < rhs.0
    }
    fn same(self, rhs: F) -> bool {
        self.0 == rhs.0
    }
    fn is_nan(self) -> bool {
        self.0.is_nan()
    }
    fn is_finite(self) -> bool {
        self.0.is_finite()
    }
    fn to_index(self) -> usize {
        self.0 as usize
    }
    fn to_byte(self) -> u8 {
        self.0 as u8
    }
    fn to_exponent(self) -> i32 {
        self.0 as i32
    }
    fn to_bits(self) -> u32 {
        self.0.to_bits()
    }
    fn from_count(count: usize) -> F {
        F(count as f32)
    }
    fn from_int(value: i64) -> F {
        F(value as f32)
    }
    fn from_bits(bits: u32) -> F {
        F(f32::from_bits(bits))
    }
    fn decimal(digits: i64, exponent: i32) -> F {
        F(format!("{digits}e{exponent}").parse().unwrap())
    }
    fn sum(a: &[F]) -> F {
        let x: Vec<f32> = a.iter().map(|v| v.0).collect();
        F(ndarray::ArrayView1::from(&x[..]).sum())
    }
    fn dot(a: &[F], b: &[F]) -> F {
        let x: Vec<f32> = a.iter().map(|v| v.0).collect();
        let y: Vec<f32> = b.iter().map(|v| v.0).collect();
        F(ndarray::ArrayView1::from(&x[..]).dot(&ndarray::ArrayView1::from(&y[..])))
    }
}
fn text(s: &str) -> String {
    s.to_string()
}

fn model_block() -> ModelConfig<F> {
    ModelConfig {
        num_classes: 0,
        d_v: 0,
        d_e: 0,
        encoder_arch: text(""),
        enc_hidden_dim: 0,
        enc_d_model: 0,
        enc_num_blocks: 0,
        comm_norm_type: text("layernorm"),
        objective_mode: text(""),
        l1_weight: None,
        x_solver: text("diagonal_prox"),
        z_solver: text("unrolled_cg"),
        z_mode: text("prox"),
        gamma: F(0.0),
        cg_iters: 5,
        tikhonov_eps: F(1e-5),
        prox_init: text("legacy"),
        rm_sharing: text(""),
        rm_init: text("orthonormal"),
        rm_mode: text("context"),
        lora_rank: 0,
        lora_alpha: F(1.0),
        lora_use_gate: false,
        lora_init_style: text("standard"),
        num_directions: 8,
        relaxation_alpha: F(1.0),
        z_init: text("h"),
        q_epsilon: F(1e-4),
        l1_init: F(0.01),
        upper_init: F(1.0),
        decoder_arch: text(""),
        dec_hidden_dim: 0,
        dec_hidden_dims: Vec::new(),
        dec_readout_mode: None,
    }
}

fn maze_config() -> ExportedConfig<F> {
    ExportedConfig {
        model: ModelConfig {
            num_classes: 6,
            d_v: 10,
            d_e: 5,
            encoder_arch: text("mlp_v2"),
            enc_hidden_dim: 256,
            objective_mode: text("l1box_diag"),
            gamma: F(5.0),
            rm_sharing: text("directional"),
            lora_rank: 4,
            decoder_arch: text("mlp_concat_v2"),
            dec_hidden_dim: 256,
            ..model_block()
        },
        task: TaskConfig {
            task: text("maze"),
            patch_size: 3,
            stride: 2,
            connectivity: 8,
            num_classes: 6,
            k_eval: 100,
            loss_window: 4,
        },
        baked: BakedScalars { rho: F(0.3125) },
    }
}

fn mnist_config() -> ExportedConfig<F> {
    ExportedConfig {
        model: ModelConfig {
            num_classes: 10,
            d_v: 4,
            d_e: 3,
            encoder_arch: text("mlp"),
            enc_hidden_dim: 5,
            objective_mode: text("lasso"),
            l1_weight: Some(F(0.006337180166370117)),
            z_mode: text("project"),
            rm_sharing: text("global"),
            lora_rank: 2,
            decoder_arch: text("classification"),
            dec_readout_mode: Some(text("x_only")),
            ..model_block()
        },
        task: TaskConfig {
            task: text("mnist"),
            patch_size: 3,
            stride: 3,
            connectivity: 8,
            num_classes: 10,
            k_eval: 100,
            loss_window: 2,
        },
        baked: BakedScalars { rho: F(0.12) },
    }
}

fn sudoku_config(d_v: usize, d_e: usize, d_model: usize, blocks: usize, widths: Vec<usize>, rank: usize, rm_mode: &str) -> ExportedConfig<F> {
    ExportedConfig {
        model: ModelConfig {
            num_classes: 10,
            d_v,
            d_e,
            encoder_arch: text("sudoku"),
            enc_d_model: d_model,
            enc_num_blocks: blocks,
            objective_mode: text("non_negative"),
            gamma: F(2.0),
            rm_sharing: text("sudoku"),
            rm_init: text("soft_slice"),
            rm_mode: text(rm_mode),
            lora_rank: rank,
            num_directions: 9,
            decoder_arch: text("sudoku"),
            dec_hidden_dims: widths,
            ..model_block()
        },
        task: TaskConfig {
            task: text("sudoku"),
            patch_size: 3,
            stride: 3,
            connectivity: 8,
            num_classes: 10,
            k_eval: 50,
            loss_window: 2,
        },
        baked: BakedScalars { rho: F(0.28) },
    }
}

/// The manifest in key order.
fn sorted(entries: &[ManifestEntry]) -> BTreeMap<String, Vec<usize>> {
    entries.iter().map(|e| (e.key.clone(), e.shape.clone())).collect()
}

fn total(entries: &BTreeMap<String, Vec<usize>>) -> usize {
    entries.values().map(|s| s.iter().product::<usize>()).sum()
}

/// Deterministic per-key fill so that mixed-up tensors show.
fn fill(seed: usize, len: usize) -> Vec<f32> {
    (0..len).map(|i| (seed as f32) + (i as f32) * 1e-3).collect()
}

struct Stored {
    name: String,
    dtype: Dtype,
    shape: Vec<usize>,
    raw: Vec<u8>,
}

fn single(name: String, shape: Vec<usize>, data: &[f32]) -> Stored {
    let raw = data.iter().flat_map(|v| v.to_le_bytes()).collect();
    Stored { name, dtype: Dtype::F32, shape, raw }
}

fn serialize(stored: &[Stored]) -> Vec<u8> {
    let views: HashMap<&str, TensorView> = stored
        .iter()
        .map(|s| (s.name.as_str(), TensorView::new(s.dtype, s.shape.clone(), &s.raw).unwrap()))
        .collect();
    safetensors::serialize(&views, &None).unwrap()
}

fn fixture(expected: &BTreeMap<String, Vec<usize>>, prefixes: &[&str], skip: Option<&str>, extra: Option<&str>) -> Vec<u8> {
    let mut stored = Vec::new();
    for prefix in prefixes {
        for (i, (suffix, shape)) in expected.iter().enumerate() {
            let full = format!("{prefix}/{suffix}");
            if skip == Some(full.as_str()) {
                continue;
            }
            let len: usize = shape.iter().product();
            let seed = i + if *prefix == "ema_params" { 1000 } else { 0 };
            stored.push(single(full, shape.clone(), &fill(seed, len)));
        }
    }
    if let Some(name) = extra {
        stored.push(single(name.to_string(), vec![2], &[0.0, 0.0]));
    }
    serialize(&stored)
}

const BOTH: [&str; 2] = ["params", "ema_params"];

fn maze_fixture(skip: Option<&str>, extra: Option<&str>) -> Vec<u8> {
    fixture(&sorted(&expected_keys(&maze_config())), &BOTH, skip, extra)
}

fn shape_of(m: &Matrix<F>) -> (usize, usize) {
    (m.nrows(), m.ncols())
}

#[test]
fn loads_typed_structs_from_ema_by_default_layout() {
    let bytes = maze_fixture(None, None);
    let model = load_maze_model(maze_config(), &bytes, WeightCollection::default()).unwrap();
    let p = &model.encoder.params;
    assert_eq!(p.input_norm.scale.len(), 54);
    assert_eq!(shape_of(&p.dense.kernel), (54, 256));
    assert_eq!(shape_of(&p.comm_dense.kernel), (256, 10));
    assert_eq!(p.comm_norm.scale.len(), 10);
    assert_eq!(shape_of(&p.lora_a_dense.kernel), (256, 160));
    assert_eq!(shape_of(&p.lora_b_dense.kernel), (256, 320));
    assert_eq!(p.q_diag_dense.bias.len(), 10);
    assert_eq!(p.input_norm.eps.0, 1e-6);
    assert_eq!(p.comm_norm.eps.0, 1e-6);
    let d = &model.decoder.params;
    assert_eq!(d.input_norm.scale.len(), 64);
    assert_eq!(shape_of(&d.dense.kernel), (64, 256));
    assert_eq!(shape_of(&d.output_dense.kernel), (256, 54));
    assert_eq!(model.decoder.output_shape, (3, 3, 6));
    assert_eq!(model.rm.r_stack.len(), 8);
    assert!(model.rm.r_stack.iter().all(|m| shape_of(m) == (5, 10)));
    assert_eq!(model.rho.0, 0.3125);

    let expected = sorted(&expected_keys(&maze_config()));
    let dense_idx = expected.keys().position(|k| k == "MLPEncoderV2_0/dense/kernel").unwrap();
    let want = (dense_idx + 1000) as f32 + 1e-3;
    assert_eq!(p.dense.kernel.get(0, 1).0, want);
    let raw = load_maze_model(maze_config(), &bytes, WeightCollection::Raw).unwrap();
    assert_eq!(raw.encoder.params.dense.kernel.get(0, 1).0, dense_idx as f32 + 1e-3);
    let rn_idx = expected.keys().position(|k| k == "rm/R_N").unwrap();
    assert_eq!(model.rm.r_stack[0].get(0, 0).0, (rn_idx + 1000) as f32);
    let rnw_idx = expected.keys().position(|k| k == "rm/R_NW").unwrap();
    assert_eq!(model.rm.r_stack[7].get(0, 0).0, (rnw_idx + 1000) as f32);
}

#[test]
fn missing_key_fails_loudly() {
    let bytes = maze_fixture(Some("ema_params/rm/R_SE"), None);
    let err = load_maze_model(maze_config(), &bytes, WeightCollection::Ema)
        .err()
        .expect("load should fail on a missing key");
    assert!(err.message().contains("missing key"), "{}", err.message());
    assert_eq!(
        err.message(),
        "missing key ema_params/rm/R_SE in safetensors (manifest violation)"
    );
}

#[test]
fn unexpected_key_fails_loudly() {
    let bytes = maze_fixture(None, Some("ema_params/MLPEncoderV2_0/bogus"));
    let err = load_maze_model(maze_config(), &bytes, WeightCollection::Ema)
        .err()
        .expect("load should fail on an unexpected key");
    assert!(err.message().contains("unexpected key"), "{}", err.message());
}

#[test]
fn f16_is_widened_to_f32() {
    // Half-precision patterns of 0, 0.5, 1, 1.5, 2, 2.5 and 3.
    let halves: [u16; 7] = [0x0000, 0x3800, 0x3C00, 0x3E00, 0x4000, 0x4100, 0x4200];
    let expected = sorted(&expected_keys(&maze_config()));
    let mut stored = Vec::new();
    for prefix in BOTH {
        for (suffix, shape) in expected.iter() {
            let len: usize = shape.iter().product();
            let raw = (0..len).flat_map(|i| halves[i % 7].to_le_bytes()).collect();
            stored.push(Stored {
                name: format!("{prefix}/{suffix}"),
                dtype: Dtype::F16,
                shape: shape.clone(),
                raw,
            });
        }
    }
    let bytes = serialize(&stored);
    let model = load_maze_model(maze_config(), &bytes, WeightCollection::Ema).unwrap();
    assert_eq!(model.encoder.params.dense.kernel.get(0, 3).0, 1.5);
}

#[test]
fn manifest_matches_contract_count() {
    let entries = expected_keys(&maze_config());
    let expected = sorted(&entries);
    assert_eq!(entries.len(), 35, "35 arrays per collection");
    assert_eq!(expected.len(), 35, "no key twice");
    assert_eq!(total(&expected), 181_859);
}

#[test]
fn other_load_errors_are_told_apart() {
    let err = |config: ExportedConfig<F>, bytes: &[u8]| {
        load_maze_model(config, bytes, WeightCollection::Ema).err().unwrap()
    };
    let mut config = maze_config();
    config.model.decoder_arch = text("mlp");
    let e = err(config, &[]);
    assert!(matches!(e, WeightsError::Unsupported { .. }));
    assert_eq!(e.message(), "unsupported decoder_arch \"mlp\"");

    assert!(matches!(err(maze_config(), b"no container"), WeightsError::Malformed));
    let e = err(maze_config(), &maze_fixture(None, Some("stray")));
    assert!(matches!(e, WeightsError::ForeignKey { .. }));
    assert!(e.message().contains("stray"));

    let expected = sorted(&expected_keys(&maze_config()));
    let with = |change: &dyn Fn(&mut Stored)| {
        let mut stored = Vec::new();
        for prefix in BOTH {
            for (i, (suffix, shape)) in expected.iter().enumerate() {
                let len: usize = shape.iter().product();
                let mut s = single(format!("{prefix}/{suffix}"), shape.clone(), &fill(i, len));
                if s.name == "params/rm/R_E" {
                    change(&mut s);
                }
                stored.push(s);
            }
        }
        serialize(&stored)
    };
    let e = err(maze_config(), &with(&|s| s.shape = vec![10, 5]));
    assert!(matches!(e, WeightsError::WrongShape { .. }));
    assert_eq!(e.message(), "tensor \"params/rm/R_E\": expected shape [5, 10], got [10, 5]");
    let e = err(maze_config(), &with(&|s| s.dtype = Dtype::I32));
    assert!(matches!(e, WeightsError::UnsupportedType { .. }));
    assert_eq!(
        e.message(),
        "tensor \"params/rm/R_E\": unsupported dtype I32 (want F32 or F16)"
    );
}

#[test]
fn the_first_missing_key_is_named_once_nothing_else_is_wrong() {
    let expected = sorted(&expected_keys(&maze_config()));
    let mut stored = Vec::new();
    for prefix in BOTH {
        for (i, (suffix, shape)) in expected.iter().enumerate() {
            let len: usize = shape.iter().product();
            if !["rho_raw", "rm/R_S", "rm/R_NE"].contains(&suffix.as_str()) {
                stored.push(single(format!("{prefix}/{suffix}"), shape.clone(), &fill(i, len)));
            }
        }
    }
    let e = load_maze_model(maze_config(), &serialize(&stored), WeightCollection::Ema).err().unwrap();
    assert!(matches!(e, WeightsError::MissingKey { name } if name == "params/rho_raw"));
    stored.push(single(text("params/rho_raw"), vec![], &[0.0]));
    let e = load_maze_model(maze_config(), &serialize(&stored), WeightCollection::Ema).err().unwrap();
    assert!(matches!(e, WeightsError::MissingKey { name } if name == "params/rm/R_NE"));
    stored.push(single(text("params/odd"), vec![], &[0.0]));
    let e = load_maze_model(maze_config(), &serialize(&stored), WeightCollection::Ema).err().unwrap();
    assert!(matches!(e, WeightsError::UnexpectedKey { name } if name == "params/odd"));
}

#[test]
fn bytes_loader_needs_only_the_requested_collection() {
    let expected = sorted(&expected_keys(&maze_config()));
    let bytes = fixture(&expected, &["ema_params"], None, None);
    assert!(load_maze_model(maze_config(), &bytes, WeightCollection::Ema).is_err());
    let model = load_maze_model_from_bytes(maze_config(), &bytes, WeightCollection::Ema).unwrap();
    assert_eq!(model.decoder.output_shape, (3, 3, 6));
    let e = load_maze_model_from_bytes(maze_config(), &bytes, WeightCollection::Raw).err().unwrap();
    assert!(matches!(e, WeightsError::MissingKey { .. }));
    let stray = fixture(&expected, &["ema_params"], None, Some("other/key"));
    let e = load_maze_model_from_bytes(maze_config(), &stray, WeightCollection::Ema).err().unwrap();
    assert!(matches!(e, WeightsError::ForeignKey { .. }));
}

#[test]
fn huge_offsets_are_refused_before_reading() {
    let with_header = |json: &str| {
        let mut bytes = (json.len() as u64).to_le_bytes().to_vec();
        bytes.extend_from_slice(json.as_bytes());
        bytes
    };
    let huge = with_header(
        "{\"params/a\":{\"dtype\":\"U8\",\"shape\":[18446744073709551615],\"data_offsets\":[0,18446744073709551615]}}",
    );
    assert!(!offsets_are_countable(&huge));
    assert!(matches!(
        load_maze_model(maze_config(), &huge, WeightCollection::Ema).err().unwrap(),
        WeightsError::Malformed
    ));
    assert!(offsets_are_countable(&with_header("{\"a\":18446744073709551615}")));
    assert!(offsets_are_countable(b"short"));
    assert!(offsets_are_countable(&[255; 12]));
}

#[test]
fn large_numbers_in_names_and_shapes_are_no_offsets() {
    let expected = sorted(&expected_keys(&maze_config()));
    let mut stored = Vec::new();
    for (i, (suffix, shape)) in expected.iter().enumerate() {
        let len: usize = shape.iter().product();
        stored.push(single(format!("ema_params/{suffix}"), shape.clone(), &fill(i, len)));
    }
    let views: HashMap<&str, TensorView> = stored
        .iter()
        .map(|s| (s.name.as_str(), TensorView::new(s.dtype, s.shape.clone(), &s.raw).unwrap()))
        .collect();
    let note = HashMap::from([(text("run"), text("18446744073709551615"))]);
    let bytes = safetensors::serialize(&views, &Some(note)).unwrap();
    assert!(offsets_are_countable(&bytes));
    assert!(load_maze_model_from_bytes(maze_config(), &bytes, WeightCollection::Ema).is_ok());
    stored.push(single(text("ema_params/18446744073709551615"), vec![1], &[0.0]));
    let e = load_maze_model_from_bytes(maze_config(), &serialize(&stored), WeightCollection::Ema)
        .err()
        .unwrap();
    assert!(matches!(e, WeightsError::UnexpectedKey { .. }));
    stored.pop();
    stored.push(single(text("ema_params/odd"), vec![usize::MAX, 0], &[]));
    let e = load_maze_model_from_bytes(maze_config(), &serialize(&stored), WeightCollection::Ema)
        .err()
        .unwrap();
    assert!(matches!(e, WeightsError::UnexpectedKey { .. }));
}

#[test]
fn half_patterns_widen() {
    let cases: [(u16, u32); 10] = [
        (0x0000, 0x0000_0000),
        (0x8000, 0x8000_0000),
        (0x3C00, 0x3F80_0000),
        (0xC000, 0xC000_0000),
        (0x0001, 0x3380_0000),
        (0x03FF, 0x387F_C000),
        (0x0400, 0x3880_0000),
        (0x7BFF, 0x477F_E000),
        (0x7C00, 0x7F80_0000),
        (0xFC01, 0xFFC0_2000),
    ];
    for (half, want) in cases {
        assert_eq!(widen_half(half), want, "{half:#06x}");
    }
    assert_eq!(f32::from_bits(widen_half(0x3555)), 0.33325195);
}

#[test]
fn every_half_pattern_widens_as_the_half_crate_does() {
    for pattern in 0..=u16::MAX {
        let want = half::f16::from_bits(pattern).to_f32().to_bits();
        assert_eq!(widen_half(pattern), want, "{pattern:#06x}");
    }
}

#[test]
fn loads_mnist_typed_structs() {
    let expected = sorted(&mnist_expected_keys(&mnist_config()));
    let bytes = fixture(&expected, &BOTH, None, None);
    let model = load_mnist_model(mnist_config(), &bytes, WeightCollection::default()).unwrap();
    let p = &model.encoder.params;
    assert_eq!(shape_of(&p.input_proj.kernel), (9, 5));
    assert_eq!(p.blocks.len(), 1);
    assert_eq!(shape_of(&p.blocks[0].dense1.kernel), (5, 5));
    assert_eq!(shape_of(&p.blocks[0].dense2.kernel), (5, 5));
    assert!(p.blocks[0].residual_proj.is_none());
    assert_eq!(shape_of(&p.comm_dense.kernel), (5, 4));
    assert_eq!(shape_of(&p.q_diag_dense.kernel), (5, 4));
    assert_eq!(shape_of(&p.lora_a_dense.kernel), (5, 8 * 3 * 2));
    assert_eq!(shape_of(&p.lora_b_dense.kernel), (5, 8 * 4 * 2));
    assert_eq!(model.encoder.config.l1_weight.0, 0.006_337_180_3);
    assert_eq!(shape_of(&model.decoder.params.cls_output.kernel), (4, 10));
    assert_eq!(model.decoder.readout_mode, ReadoutMode::XOnly);
    assert_eq!(model.decoder.num_classes, 10);
    assert_eq!(shape_of(&model.rm_shared), (3, 4));
    assert_eq!(model.rho.0, 0.12);
    let at = expected.keys().position(|k| k == "rm/R_shared").unwrap();
    assert_eq!(model.rm_shared.get(1, 0).0, (at + 1000) as f32 + 4.0 * 1e-3);
}

#[test]
fn mnist_readout_mode_must_be_known() {
    let bytes = fixture(&sorted(&mnist_expected_keys(&mnist_config())), &BOTH, None, None);
    for (mode, shown) in [(None, "None"), (Some(text("mean")), "Some(\"mean\")")] {
        let mut config = mnist_config();
        config.model.dec_readout_mode = mode;
        let e = load_mnist_model(config, &bytes, WeightCollection::Ema).err().unwrap();
        assert!(matches!(e, WeightsError::UnsupportedReadout { .. }));
        assert_eq!(
            e.message(),
            format!("unsupported dec_readout_mode {shown} (x_only|concat)")
        );
    }
    let mut config = mnist_config();
    config.model.dec_readout_mode = Some(text("concat"));
    config.model.l1_weight = None;
    let model = load_mnist_model(config, &bytes, WeightCollection::Ema).unwrap();
    assert_eq!(model.decoder.readout_mode, ReadoutMode::Concat);
    assert_eq!(model.encoder.config.l1_weight.0, 0.0);
}

#[test]
fn sudoku_manifest_matches_param_pins() {
    let fixed = sudoku_config(288, 32, 128, 2, vec![256], 4, "fixed");
    let lora = sudoku_config(288, 32, 128, 2, vec![256], 4, "context");
    assert_eq!(total(&sorted(&sudoku_expected_keys(&fixed))), 543_025, "fixed sudoku_sheaf param pin");
    assert_eq!(
        total(&sorted(&sudoku_expected_keys(&lora))),
        2_029_233,
        "LoRA sudoku_sheaf_lora param pin"
    );
}

fn sudoku_tiny(rm_mode: &str) -> ExportedConfig<F> {
    sudoku_config(18, 2, 4, 1, vec![5], 1, rm_mode)
}

#[test]
fn loads_sudoku_typed_structs() {
    let expected = sorted(&sudoku_expected_keys(&sudoku_tiny("context")));
    let bytes = fixture(&expected, &BOTH, None, None);
    let model =
        load_sudoku_model(sudoku_tiny("context"), &bytes, WeightCollection::default()).unwrap();
    let p = &model.encoder.params;
    assert_eq!(shape_of(&p.token_embed.kernel), (10, 4));
    assert_eq!(shape_of(&p.global_pos_embed), (81, 4));
    assert_eq!(shape_of(&p.pos_embed), (9, 4));
    assert_eq!(p.mixer_blocks.len(), 1);
    assert_eq!(shape_of(&p.mixer_blocks[0].token_mlp.gate_up.kernel), (9, 36));
    assert_eq!(shape_of(&p.mixer_blocks[0].token_mlp.down.kernel), (18, 9));
    assert_eq!(shape_of(&p.mixer_blocks[0].channel_mlp.gate_up.kernel), (4, 16));
    assert_eq!(shape_of(&p.mixer_blocks[0].channel_mlp.down.kernel), (8, 4));
    assert_eq!(shape_of(&p.cell_proj.kernel), (4, 2));
    assert_eq!(shape_of(&p.comm_dense.kernel), (18, 18));
    assert_eq!(shape_of(&p.q_diag_dense.kernel), (4, 18));
    let lora = p.lora.as_ref().expect("context config carries LoRA heads");
    assert_eq!(shape_of(&lora.lora_a_dense.kernel), (4, 9 * 2));
    assert_eq!(shape_of(&lora.lora_b_dense.kernel), (4, 9 * 18));
    let d = &model.decoder.params;
    assert_eq!(d.blocks.len(), 1);
    assert_eq!(shape_of(&d.blocks[0].dense1.kernel), (2, 5));
    assert!(d.blocks[0].residual_proj.is_some(), "2->5 block needs residual_proj");
    assert_eq!(shape_of(&d.output_dense.kernel), (5, 10));
    assert_eq!(model.r_indices.len(), 9);
    assert!(model.r_indices.iter().all(|m| shape_of(m) == (2, 18)));
    assert_eq!((model.cell_ids.nrows(), model.cell_ids.ncols()), (27, 9));
    assert_eq!(model.rho.0, 0.28);
    let at = expected.keys().position(|k| k == "rm/R_indices").unwrap();
    let want = (at + 1000) as f32 + ((2 * 2 + 1) * 18 + 3) as f32 * 1e-3;
    assert_eq!(model.r_indices[2].get(1, 3).0, want);
}

#[test]
fn sudoku_fixed_config_has_no_lora_heads() {
    let expected = sorted(&sudoku_expected_keys(&sudoku_tiny("fixed")));
    let bytes = fixture(&expected, &BOTH, None, None);
    let model = load_sudoku_model(sudoku_tiny("fixed"), &bytes, WeightCollection::Ema).unwrap();
    assert!(model.encoder.params.lora.is_none(), "fixed config must not load LoRA heads");
}

#[test]
fn sudoku_blocks_of_equal_width_have_no_projection() {
    let config = || sudoku_config(18, 2, 4, 0, vec![2, 2, 7], 1, "fixed");
    let bytes = fixture(&sorted(&sudoku_expected_keys(&config())), &BOTH, None, None);
    let model = load_sudoku_model(config(), &bytes, WeightCollection::Raw).unwrap();
    let present: Vec<bool> =
        model.decoder.params.blocks.iter().map(|b| b.residual_proj.is_some()).collect();
    assert_eq!(present, vec![false, false, true]);
    assert!(model.encoder.params.mixer_blocks.is_empty());
}

#[test]
fn sizes_that_cannot_be_counted_are_told() {
    assert!(maze_sizes_countable(&maze_config()));
    let mut config = maze_config();
    config.task.patch_size = usize::MAX;
    assert!(!maze_sizes_countable(&config));
    let mut config = maze_config();
    config.model.num_directions = 6;
    assert!(!maze_sizes_countable(&config));
    assert!(mnist_sizes_countable(&mnist_config()));
    let mut config = mnist_config();
    config.model.lora_rank = usize::MAX;
    assert!(!mnist_sizes_countable(&config));
    assert!(sudoku_sizes_countable(&sudoku_tiny("fixed")));
    let mut config = sudoku_tiny("context");
    config.model.lora_rank = usize::MAX;
    assert!(!sudoku_sizes_countable(&config));
}

#[test]
fn collections_have_their_prefixes() {
    assert_eq!(WeightCollection::default(), WeightCollection::Ema);
    assert_eq!(WeightCollection::Ema.prefix(), "ema_params");
    assert_eq!(WeightCollection::Raw.prefix(), "params");
}

#[test]
fn direction_names_follow_the_slots() {
    assert_eq!(direction_names(4), vec!["N", "E", "S", "W"]);
    assert_eq!(direction_names(8), vec!["N", "NE", "E", "SE", "S", "SW", "W", "NW"]);
}

#[test]
fn direction_names_tell_where_a_delta_leads() {
    for n in [4, 8] {
        let names = direction_names(n);
        for (dy, dx) in [(-1, 0), (-1, 1), (0, 1), (1, 1), (1, 0), (1, -1), (0, -1), (-1, -1)] {
            let slot = compute_direction_index(F(dy as f32), F(dx as f32), n);
            let name = names[slot as usize];
            assert_eq!(name.contains('N'), dy < 0);
            assert_eq!(name.contains('S'), dy > 0);
            assert_eq!(name.contains('E'), dx > 0 && (n == 8 || dy == 0));
            assert_eq!(name.contains('W'), dx < 0 && (n == 8 || dy == 0));
        }
    }
}

#[test]
fn files_that_agree_on_a_collection_load_alike() {
    let expected = sorted(&expected_keys(&maze_config()));
    let both = maze_fixture(None, None);
    let strict = load_maze_model(maze_config(), &both, WeightCollection::Ema).unwrap();
    let spoiled = maze_fixture(Some("params/rm/R_N"), Some("params/odd"));
    let alone = fixture(&expected, &["ema_params"], None, None);
    for bytes in [&both, &spoiled, &alone] {
        let model =
            load_maze_model_from_bytes(maze_config(), bytes, WeightCollection::Ema).unwrap();
        for (i, j) in [(0, 0), (3, 200), (53, 255)] {
            assert_eq!(
                model.encoder.params.dense.kernel.get(i, j),
                strict.encoder.params.dense.kernel.get(i, j)
            );
        }
        assert_eq!(model.rm.r_stack[5].get(4, 9), strict.rm.r_stack[5].get(4, 9));
    }
    assert!(load_maze_model(maze_config(), &spoiled, WeightCollection::Ema).is_err());
    assert!(load_maze_model_from_bytes(maze_config(), &alone, WeightCollection::Raw).is_err());
}

// ---- layers and model ----

fn mat(rows: usize, cols: usize, f: impl Fn(usize, usize) -> f32) -> Matrix<F> {
    Matrix::from_shape_fn(rows, cols, |i, j| F(f(i, j)))
}

fn numbers(values: &[f32]) -> Vec<F> {
    values.iter().map(|&v| F(v)).collect()
}

#[test]
fn layer_values() {
    let x = mat(1, 2, |_, j| [3.0, 4.0][j]);
    let dense = Dense::new(mat(2, 2, |i, j| [[1.0, 2.0], [3.0, 4.0]][i][j]), numbers(&[0.5, -1.0]));
    let y = dense.forward(&x);
    assert_eq!((y.get(0, 0).0, y.get(0, 1).0), (15.5, 21.0));
    let norm = RmsNorm::new(numbers(&[1.0, 2.0])).forward(&x);
    let root = (12.5f32 + 1e-6).sqrt();
    assert_eq!(norm.get(0, 0).0, 3.0 / root);
    assert_eq!(norm.get(0, 1).0, 4.0 / root * 2.0);
    let layer = LayerNorm::new(numbers(&[2.0, 1.0]), numbers(&[0.0, 10.0])).forward(&x);
    let root = (0.25f32 + 1e-6).sqrt();
    assert_eq!(layer.get(0, 0).0, -0.5 / root * 2.0);
    assert_eq!(layer.get(0, 1).0, 0.5 / root + 10.0);
    assert_eq!(gelu_tanh(F(0.0)).0, 0.0);
    assert!((gelu_tanh(F(1.0)).0 - 0.841192).abs() < 1e-6);
    assert!((softplus(F(0.0)).0 - 0.6931472).abs() < 1e-6);
    assert_eq!(softplus(F(100.0)).0, 100.0);
    assert_eq!(sigmoid(F(0.0)).0, 0.5);
    assert_eq!(inverse_softplus(F(25.0)).0, 25.0);
    assert!((softplus(inverse_softplus(F(0.25))).0 - 0.25).abs() < 1e-6);
    assert_eq!(inverse_softplus(F(-1.0)), inverse_softplus(F(1e-7)));
}

fn tiny_decoder() -> ConcatMlpDecoderV2<F> {
    ConcatMlpDecoderV2 {
        params: ConcatMlpDecoderV2Params {
            input_norm: RmsNorm::new(numbers(&[1.0; 4])),
            dense: Dense::new(
                mat(4, 3, |i, j| 0.1 * (i as f32 + 1.0) - 0.05 * j as f32),
                numbers(&[0.0; 3]),
            ),
            output_dense: Dense::new(
                mat(3, 2, |i, j| 0.2 * i as f32 + 0.1 * j as f32),
                numbers(&[0.01, -0.01]),
            ),
        },
        output_shape: (1, 1, 2),
    }
}

fn tiny_config() -> ExportedConfig<F> {
    let mut c = maze_config();
    c.model.num_classes = 2;
    c.model.d_v = 2;
    c.model.d_e = 1;
    c.model.enc_hidden_dim = 4;
    c.model.lora_rank = 1;
    c.model.dec_hidden_dim = 4;
    c.task.num_classes = 2;
    c.baked.rho = F(0.25);
    c
}

fn dummy_encoder() -> MlpEncoderV2<F> {
    let dense = |i: usize, o: usize| Dense::new(mat(i, o, |_, _| 0.0), vec![F(0.0); o]);
    MlpEncoderV2 {
        params: MlpEncoderV2Params {
            input_norm: RmsNorm::new(numbers(&[1.0; 2])),
            dense: dense(2, 4),
            comm_dense: dense(4, 2),
            comm_norm: LayerNorm::new(numbers(&[1.0; 2]), numbers(&[0.0; 2])),
            q_diag_dense: dense(4, 2),
            q_dense: dense(4, 2),
            l1_weight_dense: dense(4, 2),
            upper_bound_dense: dense(4, 2),
            lora_pre_ln: LayerNorm::new(numbers(&[1.0; 4]), numbers(&[0.0; 4])),
            lora_a_dense: dense(4, 8),
            lora_b_dense: dense(4, 16),
        },
        config: MlpEncoderV2Config {
            d_v: 2,
            d_e: 1,
            num_directions: 8,
            lora_rank: 1,
            lora_alpha: F(1.0),
            q_epsilon: F(1e-4),
        },
    }
}

fn tiny_model() -> SheafAdmmModel<F> {
    SheafAdmmModel {
        config: tiny_config(),
        encoder: dummy_encoder(),
        decoder: tiny_decoder(),
        rm: RmParams { r_stack: (0..8).map(|_| mat(1, 2, |_, _| 0.0)).collect() },
        rho: F(0.25),
    }
}

#[test]
fn decode_x_iterates_stacks_per_iteration_decodes() {
    let decoder = tiny_decoder();
    let (k, n, b, d_v) = (3, 2, 2, 2);
    let xs: Vec<Tensor3<F>> = (0..k)
        .map(|a| {
            Tensor3::from_shape_fn(n, b, d_v, |i, j, d| {
                F(0.1 * a as f32 + 0.3 * i as f32 - 0.2 * j as f32 + 0.7 * d as f32)
            })
        })
        .collect();
    let patches =
        Tensor3::from_shape_fn(n, b, 2, |i, j, c| F(0.5 * i as f32 - 0.1 * j as f32 + c as f32));
    let got = tiny_model().decode_x_iterates(&xs, &patches);
    assert_eq!(got.len(), k);
    for a in 0..k {
        let want = decoder.forward(&xs[a], &patches);
        assert_eq!(got[a].dim(), (n, b, 2));
        for i in 0..n {
            for j in 0..b {
                for c in 0..2 {
                    assert!((got[a].get(i, j, c).0 - want.get(i, j, c).0).abs() <= 1e-6);
                }
            }
        }
    }
}

#[test]
fn stack_states_is_oldest_first() {
    let mk = |v: f32| Tensor3::from_elem(1, 1, 2, F(v));
    let stacked = stack_states(&[mk(1.0), mk(2.0), mk(3.0)]);
    assert_eq!(stacked.len(), 3);
    assert_eq!(stacked[0].dim(), (1, 1, 2));
    assert_eq!(stacked[0].get(0, 0, 0).0, 1.0);
    assert_eq!(stacked[2].get(0, 0, 1).0, 3.0);
}

/// Small pseudo-random weights of the full maze layout.
fn small_weights(expected: &BTreeMap<String, Vec<usize>>, prefixes: &[&str]) -> Vec<u8> {
    let mut state = 0x9E3779B97F4A7C15u64;
    let mut next = || {
        state = state.wrapping_mul(6364136223846793005).wrapping_add(1442695040888963407);
        ((state >> 40) as f32 / (1u64 << 24) as f32 - 0.5) * 0.2
    };
    let mut stored = Vec::new();
    for prefix in prefixes {
        for (suffix, shape) in expected.iter() {
            let len: usize = shape.iter().product();
            let data: Vec<f32> = (0..len)
                .map(|_| if suffix.ends_with("scale") { 1.0 } else { next() })
                .collect();
            stored.push(single(format!("{prefix}/{suffix}"), shape.clone(), &data));
        }
    }
    serialize(&stored)
}

/// The maze layout with a narrow trunk.
fn narrow_config() -> ExportedConfig<F> {
    let mut config = maze_config();
    config.model.enc_hidden_dim = 16;
    config.model.dec_hidden_dim = 16;
    config
}

fn narrow_bytes() -> Vec<u8> {
    small_weights(&sorted(&expected_keys(&narrow_config())), &["ema_params"])
}

#[test]
fn forward_and_window_agree() {
    let model =
        load_maze_model_from_bytes(narrow_config(), &narrow_bytes(), WeightCollection::Ema).unwrap();
    let maze = generate_maze(7, 3, 4);
    let tokens = Tensor3::from_shape_fn(1, 7, 7, |_, y, x| maze.tokens.get(y, x));
    let centers = grid_agent_centers((7, 7), 2, 3);
    let edges = build_grid_edge_indices(&centers, 2, 8);
    let positions = Matrix::from_shape_fn(9, 2, |i, k| F(centers.get(i, k) as f32));
    let graph = Arc::new(AgentGraph::new_grid(edges, positions, 8));
    let patches: Tensor3<F> = prepare_maze_patches(&tokens, &centers, 3, 6);
    let fwd = model.forward(&patches, graph.clone(), 5);
    assert_eq!(fwd.history.x.len(), 5);
    assert_eq!(fwd.logits_per_iter.len(), 5);
    let last = fwd.logits_final();
    assert_eq!(last.dim(), (9, 1, 54));
    let (state, window) = model.forward_window(&patches, graph.clone(), 5, 2);
    assert_eq!(window.len(), 2);
    for i in 0..9 {
        for c in 0..54 {
            assert_eq!(window[1].get(i, 0, c), last.get(i, 0, c));
            assert_eq!(window[0].get(i, 0, c), fwd.logits_per_iter[3].get(i, 0, c));
        }
        for d in 0..10 {
            assert_eq!(state.z.get(i, 0, d), fwd.final_state.z.get(i, 0, d));
        }
    }
    let maps = build_directional_restriction_maps(&model.rm.r_stack, &graph, 5, 10);
    assert_eq!(maps.maps.len(), graph.num_edges());
    let slot = graph.dir_uv[3] as usize;
    assert_eq!(maps.maps[3].u.get(2, 7), model.rm.r_stack[slot].get(2, 7));
    let geometry = model.geometry(&patches, &graph);
    let r = geometry.consistency_rms(&fwd.history.z[4]);
    assert_eq!(r[0], fwd.history.consistency_rms[4][0]);
}

#[test]
fn fixed_maps_and_zero_seed_run_too() {
    let mut config = narrow_config();
    config.model.rm_mode = text("fixed");
    config.model.z_init = text("zeros");
    config.model.z_mode = text("project");
    config.model.relaxation_alpha = F(0.5);
    let mut s = SessionCore::from_bytes(config, &narrow_bytes()).unwrap();
    let maze = generate_maze(7, 3, 4);
    assert_eq!(s.solve(&tokens_u8(&maze.tokens), 7, 7, 2), Ok(2));
    assert!(s.residuals().unwrap().iter().all(|v| v.0.is_finite()));
}

// ---- sessions ----

fn tokens_u8(tokens: &Matrix<i64>) -> Vec<u8> {
    let mut out = Vec::new();
    for y in 0..tokens.nrows() {
        for x in 0..tokens.ncols() {
            out.push(tokens.get(y, x) as u8);
        }
    }
    out
}

fn session() -> SessionCore<F> {
    SessionCore::from_bytes(narrow_config(), &narrow_bytes()).expect("weights load")
}

#[test]
fn session_solves_19x19_and_37x37() {
    let mut s = session();
    let toks = tokens_u8(&generate_maze(19, 7, 18).tokens);
    let k = s.solve(&toks, 19, 19, 40).unwrap();
    assert_eq!(k, 40);
    let f_last = s.frame(39).unwrap();
    assert_eq!(f_last.len(), 19 * 19);
    assert!(f_last.iter().all(|&v| v < 6));
    let res = s.residuals().unwrap();
    assert_eq!(res.len(), 40 * 3);
    assert!(res.iter().all(|v| v.0.is_finite()));
    let ac = s.agent_consistency(39).unwrap();
    assert_eq!(ac.len(), 81);
    assert!(ac.iter().all(|v| v.0.is_finite() && v.0 >= 0.0));
    let meta = s.agent_meta().unwrap();
    assert_eq!(meta.len(), 81 * 3);
    assert_eq!(&meta[..3], &[1, 1, 3]);
    assert_eq!(meta[80 * 3], 17);

    let toks2 = tokens_u8(&generate_maze(37, 1, 36).tokens);
    let k2 = s.solve(&toks2, 37, 37, 12).unwrap();
    assert_eq!(k2, 12);
    assert_eq!(s.frame(11).unwrap().len(), 37 * 37);
    assert_eq!(s.agent_meta().unwrap().len(), 18 * 18 * 3);
    assert_eq!(s.residuals().unwrap().len(), 12 * 3);
}

#[test]
fn solve_rejects_invalid_inputs() {
    let mut s = session();
    let all_empty = vec![2u8; 19 * 19];
    assert_eq!(s.solve(&all_empty, 19, 19, 4), Err(SessionError::MissingEndpoints));
    assert_eq!(
        s.solve(&all_empty, 19, 18, 4),
        Err(SessionError::LengthMismatch { found: 361, height: 19, width: 18 })
    );
    let mut bad = tokens_u8(&generate_maze(19, 0, 18).tokens);
    bad[0] = 6;
    let e = s.solve(&bad, 19, 19, 4).err().unwrap();
    assert_eq!(e, SessionError::InvalidToken { token: 6, num_classes: 6 });
    assert_eq!(e.message(), "invalid token 6 (tokens are 0..5)");
    let good = tokens_u8(&generate_maze(19, 0, 18).tokens);
    assert_eq!(s.solve(&good, 19, 19, 0), Err(SessionError::ZeroIterations));
    assert_eq!(s.refused(&good, 19, 19, 0), Some(SessionError::ZeroIterations));
    assert_eq!(s.refused(&good, 19, 19, 4), None);
    let e = s.solve(&good, 19, 19, 1001).err().unwrap();
    assert_eq!(e.message(), "k=1001 too large (max 1000)");
    let e = s.solve(&good, 2, 19, 4).err().unwrap();
    assert_eq!(e.message(), "grid 2x19 smaller than patch_size 3");
    assert!(s.solve(&good, usize::MAX, usize::MAX, 4).is_err());
    assert!(s.frame(0).is_err());
    assert!(s.residuals().is_err());
    assert!(s.agent_consistency(0).is_err());
    assert_eq!(s.agent_meta().err().unwrap().message(), "no solve() has run yet");
    assert!(s.can_run(19, 19));
    assert!(!s.can_run(usize::MAX, 1));
}

#[test]
fn failed_solve_preserves_previous_results() {
    let mut s = session();
    let toks = tokens_u8(&generate_maze(19, 7, 18).tokens);
    s.solve(&toks, 19, 19, 6).unwrap();
    let frame_before = s.frame(5).unwrap().to_vec();
    let res_before = s.residuals().unwrap().to_vec();
    let all_empty = vec![2u8; 19 * 19];
    assert!(s.solve(&all_empty, 19, 19, 6).is_err());
    assert_eq!(s.frame(5).unwrap(), frame_before.as_slice());
    assert_eq!(s.residuals().unwrap(), res_before.as_slice());
    assert_eq!(s.agent_meta().unwrap().len(), 81 * 3);
}

#[test]
fn frame_iter_bounds_are_checked() {
    let mut s = session();
    let toks = tokens_u8(&generate_maze(19, 3, 18).tokens);
    s.solve(&toks, 19, 19, 5).unwrap();
    assert!(s.frame(4).is_ok());
    assert!(s.frame(5).is_err());
    let e = s.agent_consistency(5).err().unwrap();
    assert_eq!(e.message(), "iter 5 out of range (k=5)");
}

#[test]
fn longer_solves_begin_as_shorter_ones() {
    let toks = tokens_u8(&generate_maze(7, 3, 4).tokens);
    let mut short = session();
    let mut long = session();
    short.solve(&toks, 7, 7, 2).unwrap();
    long.solve(&toks, 7, 7, 4).unwrap();
    for k in 0..2 {
        assert_eq!(short.frame(k).unwrap(), long.frame(k).unwrap());
        assert_eq!(short.agent_consistency(k).unwrap(), long.agent_consistency(k).unwrap());
    }
    assert_eq!(short.residuals().unwrap(), &long.residuals().unwrap()[..6]);
    assert_eq!(short.agent_meta().unwrap(), long.agent_meta().unwrap());
}

#[test]
fn numbers_that_are_not_finite_stop_a_solve() {
    let mut config = narrow_config();
    config.baked.rho = F(f32::NAN);
    let mut s = SessionCore::from_bytes(config, &narrow_bytes()).unwrap();
    let toks = tokens_u8(&generate_maze(7, 3, 4).tokens);
    let e = s.solve(&toks, 7, 7, 3).err().unwrap();
    assert_eq!(e, SessionError::NonFinite { iteration: 0 });
    assert_eq!(e.message(), "non-finite residuals at iteration 0");
    assert!(s.frame(0).is_err());
}

#[test]
fn path_cells_are_counted() {
    assert_eq!(path_cells(&[0, 5, 1, 5, 5, 2]), 3);
    assert_eq!(path_cells(&[]), 0);
}

// ---- runs on batches ----

fn narrow_model() -> SheafAdmmModel<F> {
    load_maze_model_from_bytes(narrow_config(), &narrow_bytes(), WeightCollection::Ema).unwrap()
}

fn two_mazes() -> Tensor3<i64> {
    let mazes = [generate_maze(7, 3, 4).tokens, generate_maze(7, 4, 4).tokens];
    Tensor3::from_shape_fn(2, 7, 7, |b, y, x| mazes[b].get(y, x))
}

#[test]
fn a_run_shows_the_first_maze_of_a_batch() {
    let model = narrow_model();
    let tokens = two_mazes();
    let run = run_mazes(&model, &tokens, 3).unwrap();
    assert_eq!((run.agents, run.edges), (9, 20));
    assert_eq!((run.frames.len(), run.metrics.len()), (3, 3));
    let scene = prepare_scene(&model.config, &tokens);
    let fwd = model.forward(&scene.patches, scene.graph.clone(), 3);
    let cons = &fwd.history.consistency_rms[2];
    assert_eq!(run.metrics[2].consistency.0, (0.0 + cons[0].0 + cons[1].0) / 2.0);
    // The first maze is decoded as a session decodes it.
    let mut s = session();
    let first: Vec<u8> =
        (0..49).map(|p| tokens.get(0, p / 7, p % 7) as u8).collect();
    s.solve(&first, 7, 7, 3).unwrap();
    for k in 0..3 {
        let frame: Vec<u8> = (0..49).map(|p| run.frames[k].get(p / 7, p % 7) as u8).collect();
        assert_eq!(frame.as_slice(), s.frame(k).unwrap());
    }
    let mut config = narrow_config();
    config.baked.rho = F(f32::NAN);
    let broken =
        load_maze_model_from_bytes(config, &narrow_bytes(), WeightCollection::Ema).unwrap();
    let (at, measures) = run_mazes(&broken, &tokens, 3).err().unwrap();
    assert_eq!(at, 0);
    assert!(measures.primal.0.is_nan());
}

#[test]
fn batch_elements_run_as_they_run_alone() {
    let model = narrow_model();
    let tokens = two_mazes();
    let run = |tokens: &Tensor3<i64>, k: usize| {
        let scene = prepare_scene(&model.config, tokens);
        model.forward(&scene.patches, scene.graph.clone(), k)
    };
    let all = run(&tokens, 3);
    for b in 0..2 {
        let one = run(&Tensor3::from_shape_fn(1, 7, 7, |_, y, x| tokens.get(b, y, x)), 3);
        for i in 0..9 {
            for d in 0..10 {
                assert_eq!(all.history.x[2].get(i, b, d), one.history.x[2].get(i, 0, d));
                assert_eq!(all.final_state.z.get(i, b, d), one.final_state.z.get(i, 0, d));
                assert_eq!(all.final_state.y.get(i, b, d), one.final_state.y.get(i, 0, d));
            }
        }
        assert_eq!(all.history.consistency_rms[1][b], one.history.consistency_rms[1][0]);
        assert!(all.history.consistency_rms[1][b].0 >= 1e-6f32.sqrt());
    }
    // A longer run begins as a shorter one.
    let short = run(&tokens, 2);
    for k in 0..2 {
        assert_eq!(short.history.consistency_rms[k], all.history.consistency_rms[k]);
        assert_eq!(short.history.dual_res[k].row(4), all.history.dual_res[k].row(4));
        assert_eq!(short.history.y[k].row(4, 1), all.history.y[k].row(4, 1));
    }
}

#[test]
fn curvatures_have_their_floor() {
    let model = narrow_model();
    let scene = prepare_scene(&model.config, &two_mazes());
    match model.encoder.forward(&scene.patches).objective {
        Objective::L1Box { q_diag, l1, upper, .. } => {
            for i in 0..9 {
                for b in 0..2 {
                    assert!(q_diag.row(i, b).iter().all(|v| v.0 >= 1e-4));
                    assert!(l1.row(i, b).iter().all(|v| v.0 >= 0.0));
                    assert!(upper.row(i, b).iter().all(|v| v.0 >= 0.0));
                }
            }
        }
        _ => panic!("the encoder sets boxed objectives"),
    }
}

#[test]
fn modes_and_sizes_are_tested_before_a_run() {
    assert!(modes_run(&narrow_config()));
    for field in 0..5 {
        let mut config = narrow_config();
        match field {
            0 => config.model.rm_mode = text("other"),
            1 => config.model.z_mode = text("other"),
            2 => config.model.x_solver = text("simple"),
            3 => config.task.stride = 0,
            _ => config.task.connectivity = 6,
        }
        assert!(!modes_run(&config));
    }
    assert!(grid_countable(&narrow_config(), 73, 73));
    assert!(grid_countable(&narrow_config(), 0, 1000));
    assert!(!grid_countable(&narrow_config(), usize::MAX, 1));
    assert!(!grid_countable(&narrow_config(), 1 << 20, 1 << 20));
}

// ---- comparison with a recorded run ----

fn entry(name: &str, shape: Vec<usize>, data: NpzData) -> NpzEntry {
    NpzEntry { file_name: format!("{name}.npy"), shape, data }
}

fn bits(values: &[F]) -> Vec<u32> {
    values.iter().map(|v| v.0.to_bits()).collect()
}

/// Archives that record exactly what the model computes, but for changes made by name.
fn recording(model: &SheafAdmmModel<F>, steps: usize, change: &dyn Fn(&str, &mut Vec<u32>), drop: &str) -> (Npz, Npz) {
    let tokens = two_mazes();
    let flat: Vec<i64> = (0..98).map(|p| tokens.get(p / 49, p / 7 % 7, p % 7)).collect();
    let mut batch = vec![entry("tokens", vec![2, 7, 7], NpzData::Integer(flat))];
    let mut trace = Vec::new();
    let mut slabs: BTreeMap<String, Vec<Plain<F>>> = BTreeMap::new();
    for check in plan_run(model, &tokens, steps, &Npz::open(vec![]).unwrap()) {
        match check {
            Check::Integers { got, archive, stored, .. } => {
                let e = entry(&stored, got.shape, NpzData::Integer(got.data));
                match archive {
                    Archive::Batch => batch.push(e),
                    Archive::Trace => trace.push(e),
                }
            }
            Check::Numbers { got, want: Wanted::Stored { archive, name }, .. } => {
                let mut members = bits(&got.data);
                change(&name, &mut members);
                let e = entry(&name, got.shape, NpzData::Single(members));
                match archive {
                    Archive::Batch => batch.push(e),
                    Archive::Trace => trace.push(e),
                }
            }
            Check::Numbers { got, want: Wanted::Slab { name, .. }, .. } => {
                slabs.entry(name).or_default().push(got);
            }
            Check::Pattern { got, stored, .. } => {
                trace.push(entry(&stored, vec![], NpzData::Single(vec![got])));
            }
            Check::Unfit { .. } => {}
            Check::Numbers { .. } => panic!("no recorded factors are gathered"),
        }
    }
    for (name, list) in slabs {
        let mut shape = vec![list.len()];
        shape.extend(&list[0].shape);
        let mut members: Vec<u32> = list.iter().flat_map(|a| bits(&a.data)).collect();
        change(&name, &mut members);
        trace.push(entry(&name, shape, NpzData::Single(members)));
    }
    trace.retain(|e| e.file_name != format!("{drop}.npy"));
    (Npz::open(batch).unwrap(), Npz::open(trace).unwrap())
}

fn compared(change: &dyn Fn(&str, &mut Vec<u32>), drop: &str) -> Comparison<F> {
    let model = narrow_model();
    let (batch, trace) = recording(&model, 3, change, drop);
    compare_run(&model, &batch, &trace)
}

fn names(rows: &[Row<F>]) -> Vec<&str> {
    rows.iter().map(|r| r.name.as_str()).collect()
}

#[test]
fn a_faithful_recording_is_reproduced() {
    let c = compared(&|_, _| {}, "");
    assert!(c.stopped.is_none());
    assert!(c.rows.iter().all(|r| r.passed()));
    assert!(c.report.all_passed());
    assert_eq!(c.report.checks, 6 + 5 + 3 + 4 + 1 + 3 * 7 + 3);
    let names = names(&c.rows);
    assert_eq!(
        &names[..14],
        &[
            "centers", "edges", "node_positions", "patches", "dir_uv", "dir_vu", "enc_h",
            "enc_q_diag", "enc_q", "enc_l1_weight", "enc_upper", "lora_A", "lora_B",
            "base_restriction_maps",
        ]
    );
    assert_eq!(
        &names[14..20],
        &["lora_A_u_edge", "lora_A_v_edge", "lora_B_u_edge", "lora_B_v_edge", "rho", "x[k=0]"]
    );
    assert_eq!(&names[39..], &["logits[k=2]", "logits_final", "reassembled_final", "pred_grid"]);
}

#[test]
fn the_first_difference_is_named() {
    let nudge = |name: &str, members: &mut Vec<u32>| {
        if name == "z" {
            let at = members.len() / 3 + 7;
            members[at] = (f32::from_bits(members[at]) + 0.5).to_bits();
        }
    };
    let c = compared(&nudge, "");
    assert!(c.stopped.is_none());
    assert_eq!(c.report.failures, vec!["z[k=1]"]);
    let row = c.rows.iter().find(|r| !r.passed()).unwrap();
    match &row.verdict {
        Verdict::Numbers { outcome: Outcome::Beyond { violations, worst, .. }, members, .. } => {
            assert_eq!((*violations, *worst), (1, 7));
            let (got, want) = members.unwrap();
            assert!((want.0 - got.0 - 0.5).abs() < 1e-6);
        }
        _ => panic!("a number is beyond its tolerance"),
    }
    let flip = |name: &str, members: &mut Vec<u32>| {
        if name == "base_restriction_maps" {
            members[0] ^= 1;
        }
    };
    assert_eq!(compared(&flip, "").report.failures, vec!["base_restriction_maps"]);
}

#[test]
fn missing_recordings_stop_a_comparison() {
    let c = compared(&|_, _| {}, "lora_B");
    assert_eq!(names(&c.rows).last(), Some(&"enc_upper"));
    assert!(matches!(c.stopped, Some(NpzError::Missing { name }) if name == "lora_B"));
    let c = compared(&|_, _| {}, "consistency");
    assert_eq!(names(&c.rows).last(), Some(&"rho"));
    assert!(matches!(c.stopped, Some(NpzError::Missing { name }) if name == "consistency"));
    let c = compared(&|_, _| {}, "x");
    assert!(c.rows.is_empty());
    assert!(matches!(c.stopped, Some(NpzError::Missing { name }) if name == "x"));
    let model = narrow_model();
    let none = Npz::open(vec![]).unwrap();
    let c = compare_run(&model, &none, &none);
    assert!(matches!(c.stopped, Some(NpzError::Missing { name }) if name == "tokens"));
    let flat = Npz::open(vec![entry("tokens", vec![4], NpzData::Integer(vec![1; 4]))]).unwrap();
    let c = compare_run(&model, &flat, &none);
    assert!(matches!(c.stopped, Some(NpzError::WrongShape { .. })));
}

#[test]
fn another_penalty_is_told_bit_for_bit() {
    let model = narrow_model();
    let (batch, trace) = recording(&model, 2, &|_, _| {}, "");
    let mut config = narrow_config();
    config.baked.rho = F(0.3125 + 1e-7);
    let other =
        load_maze_model_from_bytes(config, &narrow_bytes(), WeightCollection::Ema).unwrap();
    let c = compare_run(&other, &batch, &trace);
    assert_eq!(c.report.failures.first().map(|s| s.as_str()), Some("rho"));
    let row = c.rows.iter().find(|r| r.name == "rho").unwrap();
    match row.verdict {
        Verdict::Pattern { got, want } => {
            assert_eq!(want, 0.3125f32.to_bits());
            assert_eq!(got, (0.3125f32 + 1e-7).to_bits());
        }
        _ => panic!("patterns are compared"),
    }
}
