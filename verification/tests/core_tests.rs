//! Graph, geometry, solver and loop tests on single-precision numbers.

use sheaf::admm::{run_admm, run_admm_history, AdmmParams, XSolverKind};
use sheaf::geometry::{
    EdgeMaps, FactorGrid, FixedGeometry, LoraGeometry, RestrictionMaps, SheafGeometry,
};
use sheaf::graph::{compute_direction_index, AgentGraph, Endpoint, NodeIncidence};
use sheaf::modular::Modular;
use sheaf::par::map_batches;
use sheaf::scalar::Scalar;
use sheaf::solvers::{
    diagonal_prox_solve, simple_solve, soft_threshold, unrolled_cg_solve, EncoderOutput, Objective,
    UnrolledCgParams, ZMode,
};
use sheaf::tensor::{Matrix, Tensor3};
use std::sync::Arc;

/// Single-precision numbers.
#[derive(Clone, Copy, Debug, PartialEq)]
struct F(f32);

impl Scalar for F {
    fn zero() -> F {
        F(0.0)
    }
    fn one() -> F {
        F(1.0)
    }
    fn infinity() -> F {
        F(f32::INFINITY)
    }
    fn neg_infinity() -> F {
        F(f32::NEG_INFINITY)
    }
    fn negate(self) -> F {
        F(-self.0)
    }
    fn abs(self) -> F {
        F(self.0.abs())
    }
    fn sqrt(self) -> F {
        F(self.0.sqrt())
    }
    fn exp(self) -> F {
        F(self.0.exp())
    }
    fn ln(self) -> F {
        F(self.0.ln())
    }
    fn ln_1p(self) -> F {
        F(self.0.ln_1p())
    }
    fn tanh(self) -> F {
        F(self.0.tanh())
    }
    fn log10(self) -> F {
        F(self.0.log10())
    }
    fn floor(self) -> F {
        F(self.0.floor())
    }
    fn ceil(self) -> F {
        F(self.0.ceil())
    }
    fn round(self) -> F {
        F(self.0.round())
    }
    fn plus(self, rhs: F) -> F {
        F(self.0 + rhs.0)
    }
    fn minus(self, rhs: F) -> F {
        F(self.0 - rhs.0)
    }
    fn times(self, rhs: F) -> F {
        F(self.0 * rhs.0)
    }
    fn over(self, rhs: F) -> F {
        F(self.0 / rhs.0)
    }
    fn max(self, rhs: F) -> F {
        F(self.0.max(rhs.0))
    }
    fn min(self, rhs: F) -> F {
        F(self.0.min(rhs.0))
    }
    fn pow(self, rhs: F) -> F {
        F(self.0.powf(rhs.0))
    }
    fn less(self, rhs: F) -> bool {
        self.0 < rhs.0
    }
    fn same(self, rhs: F) -> bool {
        self.0 == rhs.0
    }
    fn is_nan(self) -> bool {
        self.0.is_nan()
    }
    fn is_finite(self) -> bool {
        self.0.is_finite()
    }
    fn to_index(self) -> usize {
        self.0 as usize
    }
    fn to_byte(self) -> u8 {
        self.0 as u8
    }
    fn to_exponent(self) -> i32 {
        self.0 as i32
    }
    fn to_bits(self) -> u32 {
        self.0.to_bits()
    }
    fn from_count(count: usize) -> F {
        F(count as f32)
    }
    fn from_int(value: i64) -> F {
        F(value as f32)
    }
    fn from_bits(bits: u32) -> F {
        F(f32::from_bits(bits))
    }
    fn decimal(digits: i64, exponent: i32) -> F {
        F(format!("{digits}e{exponent}").parse().unwrap())
    }
    fn sum(a: &[F]) -> F {
        let x: Vec<f32> = a.iter().map(|v| v.0).collect();
        F(ndarray::ArrayView1::from(&x[..]).sum())
    }
    fn dot(a: &[F], b: &[F]) -> F {
        let x: Vec<f32> = a.iter().map(|v| v.0).collect();
        let y: Vec<f32> = b.iter().map(|v| v.0).collect();
        F(ndarray::ArrayView1::from(&x[..]).dot(&ndarray::ArrayView1::from(&y[..])))
    }
}
type NodeState = Tensor3<F>;

/// Small deterministic generator; seeds are pinned.
struct Rng(u64);

impl Rng {
    fn new(seed: u64) -> Self {
        Self(seed.wrapping_mul(0x9E3779B97F4A7C15).max(1))
    }
    fn next_u64(&mut self) -> u64 {
        let mut x = self.0;
        x ^= x >> 12;
        x ^= x << 25;
        x ^= x >> 27;
        self.0 = x;
        x.wrapping_mul(0x2545F4914F6CDD1D)
    }
    /// Uniform in [-1, 1).
    fn f32(&mut self) -> f32 {
        let u = (self.next_u64() >> 40) as f32 / (1u64 << 24) as f32;
        2.0 * u - 1.0
    }
    fn array3(&mut self, d: (usize, usize, usize)) -> NodeState {
        tensor(d, |_| self.f32())
    }
}

/// Fills an array in row-major order.
fn tensor(d: (usize, usize, usize), mut f: impl FnMut((usize, usize, usize)) -> f32) -> NodeState {
    let (n, b, k) = d;
    let mut flat = Vec::new();
    for i in 0..n {
        for j in 0..b {
            for l in 0..k {
                flat.push(F(f((i, j, l))));
            }
        }
    }
    Tensor3::from_shape_fn(n, b, k, |i, j, l| flat[(i * b + j) * k + l])
}

fn matrix(rows: usize, cols: usize, mut f: impl FnMut(usize, usize) -> f32) -> Matrix<F> {
    let mut flat = Vec::new();
    for i in 0..rows {
        for j in 0..cols {
            flat.push(F(f(i, j)));
        }
    }
    Matrix::from_shape_fn(rows, cols, |i, j| flat[i * cols + j])
}

fn zeros(d: (usize, usize, usize)) -> NodeState {
    Tensor3::from_elem(d.0, d.1, d.2, F(0.0))
}

fn constant(d: (usize, usize, usize), v: f32) -> NodeState {
    Tensor3::from_elem(d.0, d.1, d.2, F(v))
}

fn at(a: &NodeState, i: usize, j: usize, k: usize) -> f32 {
    a.get(i, j, k).0
}

fn members(a: &NodeState) -> Vec<f32> {
    let (n, b, d) = a.dim();
    let mut out = Vec::new();
    for i in 0..n {
        for j in 0..b {
            for k in 0..d {
                out.push(at(a, i, j, k));
            }
        }
    }
    out
}

fn zip(a: &NodeState, b: &NodeState, f: impl Fn(f32, f32) -> f32) -> NodeState {
    tensor(a.dim(), |(i, j, k)| f(at(a, i, j, k), at(b, i, j, k)))
}

fn assert_close_flat(a: &[f32], b: &[f32], atol: f32, rtol: f32, what: &str) {
    assert_eq!(a.len(), b.len(), "{what}: length mismatch");
    for (i, (&av, &bv)) in a.iter().zip(b.iter()).enumerate() {
        let tol = atol + rtol * bv.abs();
        assert!((av - bv).abs() <= tol, "{what}: element {i} differs: {av} vs {bv} (tol {tol})");
    }
}

fn assert_close(a: &NodeState, b: &NodeState, atol: f32, rtol: f32, what: &str) {
    assert_eq!(a.dim(), b.dim(), "{what}: shape mismatch");
    assert_close_flat(&members(a), &members(b), atol, rtol, what);
}

/// Dense coboundary from per-edge endpoint blocks, as rows.
fn dense_coboundary(
    edges: &[[u32; 2]],
    fu: &[Matrix<F>],
    fv: &[Matrix<F>],
    mask: Option<&[f32]>,
    n: usize,
    d_v: usize,
) -> Vec<Vec<f32>> {
    let d_e = fu[0].nrows();
    let mut f = vec![vec![0.0f32; n * d_v]; edges.len() * d_e];
    for (ei, &[u, v]) in edges.iter().enumerate() {
        let m = mask.map_or(1.0, |mk| mk[ei]);
        for i in 0..d_e {
            for j in 0..d_v {
                f[ei * d_e + i][u as usize * d_v + j] += m * fu[ei].get(i, j).0;
                f[ei * d_e + i][v as usize * d_v + j] -= m * fv[ei].get(i, j).0;
            }
        }
    }
    f
}

fn mat_vec(f: &[Vec<f32>], x: &[f32]) -> Vec<f32> {
    f.iter().map(|row| row.iter().zip(x).map(|(a, b)| a * b).sum()).collect()
}

fn mat_t_vec(f: &[Vec<f32>], r: &[f32]) -> Vec<f32> {
    let cols = f[0].len();
    (0..cols).map(|j| f.iter().zip(r).map(|(row, v)| row[j] * v).sum()).collect()
}

/// One batch element as a flat row.
fn flatten_batch(z: &NodeState, b: usize) -> Vec<f32> {
    let (n, _, d) = z.dim();
    let mut out = Vec::new();
    for i in 0..n {
        for k in 0..d {
            out.push(at(z, i, b, k));
        }
    }
    out
}

/// Five edges over four nodes; node 0 sits on three of them.
fn tiny_graph() -> Arc<AgentGraph<F>> {
    let edges = vec![[0, 1], [0, 2], [1, 3], [2, 3], [0, 3]];
    Arc::new(AgentGraph::from_edges(edges, 4))
}

/// A two by two grid with eight-way edges.
fn grid_2x2_8way() -> Arc<AgentGraph<F>> {
    let flat = [0.0, 0.0, 0.0, 1.0, 1.0, 0.0, 1.0, 1.0];
    let positions = matrix(4, 2, |i, j| flat[i * 2 + j]);
    let edges = vec![[0, 1], [0, 2], [1, 3], [2, 3], [0, 3], [1, 2]];
    Arc::new(AgentGraph::new_grid(edges, positions, 8))
}

/// Random restriction maps, edge by edge, u before v.
fn random_maps(rng: &mut Rng, e: usize, d_e: usize, d_v: usize, scale: f32) -> RestrictionMaps<F> {
    let mut maps = Vec::new();
    for _ in 0..e {
        let u = matrix(d_e, d_v, |_, _| scale * rng.f32());
        let v = matrix(d_e, d_v, |_, _| scale * rng.f32());
        maps.push(EdgeMaps { u, v });
    }
    RestrictionMaps { d_e, d_v, maps }
}

fn copy_maps(maps: &RestrictionMaps<F>) -> RestrictionMaps<F> {
    let copies = maps.maps.iter().map(|m| EdgeMaps { u: m.u.clone(), v: m.v.clone() }).collect();
    RestrictionMaps { d_e: maps.d_e, d_v: maps.d_v, maps: copies }
}

fn maps_to_blocks(maps: &RestrictionMaps<F>) -> (Vec<Matrix<F>>, Vec<Matrix<F>>) {
    let fu = maps.maps.iter().map(|m| m.u.clone()).collect();
    let fv = maps.maps.iter().map(|m| m.v.clone()).collect();
    (fu, fv)
}

fn lap<G: SheafGeometry<F>>(geo: &G, z: &NodeState) -> NodeState {
    let mut out = zeros(z.dim());
    geo.laplacian_apply(z, &mut out);
    out
}

fn dot_all(a: &NodeState, b: &NodeState) -> f32 {
    members(a).iter().zip(members(b).iter()).map(|(x, y)| x * y).sum()
}

// ---- direction slots and incidence ----

fn slot(dy: f32, dx: f32, k: usize) -> u8 {
    compute_direction_index(F(dy), F(dx), k)
}

#[test]
fn direction_index_4way_table() {
    assert_eq!(slot(-1.0, 0.0, 4), 0, "N");
    assert_eq!(slot(0.0, 1.0, 4), 1, "E");
    assert_eq!(slot(1.0, 0.0, 4), 2, "S");
    assert_eq!(slot(0.0, -1.0, 4), 3, "W");
    assert_eq!(slot(-1.0, 1.0, 4), 0, "NE -> N");
    assert_eq!(slot(-1.0, -1.0, 4), 0, "NW -> N");
    assert_eq!(slot(1.0, 1.0, 4), 2, "SE -> S");
    assert_eq!(slot(1.0, -1.0, 4), 2, "SW -> S");
    assert_eq!(slot(0.0, 0.0, 4), 3, "zero -> W");
}

#[test]
fn direction_index_8way_table() {
    assert_eq!(slot(-1.0, 0.0, 8), 0, "N");
    assert_eq!(slot(-1.0, 1.0, 8), 1, "NE");
    assert_eq!(slot(0.0, 1.0, 8), 2, "E");
    assert_eq!(slot(1.0, 1.0, 8), 3, "SE");
    assert_eq!(slot(1.0, 0.0, 8), 4, "S");
    assert_eq!(slot(1.0, -1.0, 8), 5, "SW");
    assert_eq!(slot(0.0, -1.0, 8), 6, "W");
    assert_eq!(slot(-1.0, -1.0, 8), 7, "NW");
    assert_eq!(slot(0.0, 0.0, 8), 6, "zero -> W");
}

#[test]
fn opposite_slot_asymmetry() {
    let opposite_8 = [4u8, 5, 6, 7, 0, 1, 2, 3];
    for k in 0..8u8 {
        let (dy, dx) = match k {
            0 => (-1.0, 0.0),
            1 => (-1.0, 1.0),
            2 => (0.0, 1.0),
            3 => (1.0, 1.0),
            4 => (1.0, 0.0),
            5 => (1.0, -1.0),
            6 => (0.0, -1.0),
            _ => (-1.0, -1.0),
        };
        assert_eq!(slot(dy, dx, 8), k);
        assert_eq!(slot(-dy, -dx, 8), opposite_8[k as usize], "8-way opposite of slot {k}");
    }
    let opposite_4 = [2u8, 3, 0, 1];
    for k in 0..4u8 {
        let (dy, dx) = match k {
            0 => (-1.0, 0.0),
            1 => (0.0, 1.0),
            2 => (1.0, 0.0),
            _ => (0.0, -1.0),
        };
        assert_eq!(slot(dy, dx, 4), k);
        assert_eq!(slot(-dy, -dx, 4), opposite_4[k as usize], "4-way opposite of slot {k}");
    }
}

#[test]
fn grid_slot_tables_pinned() {
    let g = grid_2x2_8way();
    assert_eq!(g.dir_uv, vec![2, 4, 4, 2, 3, 5], "dir_uv");
    assert_eq!(g.dir_vu, vec![6, 0, 0, 6, 7, 1], "dir_vu");
}

#[test]
fn incidence_csr_structure() {
    let g = tiny_graph();
    assert_eq!(g.node_edges.entries.len(), 2 * g.num_edges());
    let mut per_edge = vec![0usize; g.num_edges()];
    for n in 0..g.num_nodes {
        for &(ei, ep) in g.node_edges.incident(n) {
            per_edge[ei as usize] += 1;
            let [u, v] = g.edges[ei as usize];
            match ep {
                Endpoint::U => assert_eq!(u as usize, n, "U entry filed under u"),
                Endpoint::V => assert_eq!(v as usize, n, "V entry filed under v"),
            }
        }
    }
    assert!(per_edge.iter().all(|&c| c == 2), "each edge twice: {per_edge:?}");
    let n0: Vec<u32> = g.node_edges.incident(0).iter().map(|&(e, _)| e).collect();
    assert_eq!(n0, vec![0, 1, 4]);
}

#[test]
fn new_grid_positions_are_y_x() {
    let flat = [0.0, 0.0, 1.0, 0.0];
    let positions = matrix(2, 2, |i, j| flat[i * 2 + j]);
    let g = AgentGraph::new_grid(vec![[0, 1]], positions, 4);
    assert_eq!(g.dir_uv, vec![2], "downward edge is S at u");
    assert_eq!(g.dir_vu, vec![0], "downward edge is N at v");
}

#[test]
fn self_loop_is_filed_twice_u_first() {
    let inc = NodeIncidence::build(&[[1, 1], [0, 1]], 3);
    assert_eq!(inc.offsets, vec![0, 1, 4, 4]);
    assert_eq!(inc.incident(0), &[(1, Endpoint::U)]);
    assert_eq!(inc.incident(1), &[(0, Endpoint::U), (0, Endpoint::V), (1, Endpoint::V)]);
    assert!(inc.incident(2).is_empty());
}

#[test]
fn batches_are_mapped_in_order() {
    assert_eq!(map_batches(4, |i| 10 * i + 1), vec![1, 11, 21, 31]);
    assert!(map_batches(0, |i| i).is_empty());
}

// ---- fixed geometry ----

const G_N: usize = 4;
const G_B: usize = 3;
const G_DV: usize = 3;
const G_DE: usize = 2;

fn fixed_setup(mask: Option<Vec<f32>>) -> (FixedGeometry<F>, NodeState) {
    let mut rng = Rng::new(7);
    let graph = tiny_graph();
    let e = graph.num_edges();
    let maps = random_maps(&mut rng, e, G_DE, G_DV, 0.8);
    let mut geo = FixedGeometry::new(graph, maps);
    geo.edge_mask = mask.map(|m| m.into_iter().map(F).collect());
    let z = rng.array3((G_N, G_B, G_DV));
    (geo, z)
}

fn dense_of(geo: &FixedGeometry<F>) -> Vec<Vec<f32>> {
    let (fu, fv) = maps_to_blocks(&geo.restriction_maps);
    dense_coboundary(&geo.graph.edges, &fu, &fv, None, G_N, G_DV)
}

#[test]
fn edge_residuals_match_dense_coboundary() {
    let (geo, z) = fixed_setup(None);
    let f = dense_of(&geo);
    let r = geo.edge_residuals(&z);
    for b in 0..G_B {
        let fz = mat_vec(&f, &flatten_batch(&z, b));
        assert_close_flat(&flatten_batch(&r, b), &fz, 1e-5, 1e-5, "edge_residuals vs dense F z");
    }
}

#[test]
fn laplacian_apply_matches_dense_ftf() {
    let (geo, z) = fixed_setup(None);
    let f = dense_of(&geo);
    let lz = lap(&geo, &z);
    for b in 0..G_B {
        let dense = mat_t_vec(&f, &mat_vec(&f, &flatten_batch(&z, b)));
        assert_close_flat(&flatten_batch(&lz, b), &dense, 1e-4, 1e-4, "laplacian_apply vs F^T F z");
    }
}

#[test]
fn energy_identities() {
    let (geo, z) = fixed_setup(None);
    let r = geo.edge_residuals(&z);
    let half_r2: f32 = 0.5 * members(&r).iter().map(|&x| x * x).sum::<f32>();
    let energy = geo.energy(&z).0;
    assert!(
        (energy - half_r2).abs() <= 1e-4 * half_r2.abs().max(1.0),
        "energy {energy} != 1/2 sum r^2 {half_r2}"
    );
    let ztlz = dot_all(&z, &lap(&geo, &z));
    assert!(
        (energy - 0.5 * ztlz).abs() <= 1e-3 * energy.abs().max(1.0),
        "energy {energy} != 1/2 z^T L z {}",
        0.5 * ztlz
    );
}

#[test]
fn laplacian_symmetric_psd_rayleigh() {
    let (geo, _z) = fixed_setup(None);
    let mut rng = Rng::new(21);
    for _ in 0..8 {
        let a = rng.array3((G_N, G_B, G_DV));
        let b = rng.array3((G_N, G_B, G_DV));
        let la = lap(&geo, &a);
        let lb = lap(&geo, &b);
        let a_lb = dot_all(&a, &lb);
        let la_b = dot_all(&la, &b);
        assert!(
            (a_lb - la_b).abs() <= 1e-3 * a_lb.abs().max(1.0),
            "L not symmetric: <a, Lb> = {a_lb}, <La, b> = {la_b}"
        );
        let a_la = dot_all(&a, &la);
        assert!(a_la >= -1e-5, "L not PSD: Rayleigh <a, La> = {a_la}");
    }
}

#[test]
fn edge_mask_applied_once_not_squared() {
    let mask = vec![1.0, 0.5, 0.0, 1.0, 0.25];
    let (geo, z) = fixed_setup(Some(mask.clone()));
    let f_unmasked = dense_of(&geo);
    let lz = lap(&geo, &z);
    for b in 0..G_B {
        let mut r = mat_vec(&f_unmasked, &flatten_batch(&z, b));
        for ei in 0..geo.graph.num_edges() {
            for i in 0..G_DE {
                r[ei * G_DE + i] *= mask[ei];
            }
        }
        let dense = mat_t_vec(&f_unmasked, &r);
        assert_close_flat(&flatten_batch(&lz, b), &dense, 1e-4, 1e-4, "masked laplacian (mask once)");
    }
    let r = geo.edge_residuals(&z);
    for bi in 0..G_B {
        for di in 0..G_DE {
            assert_eq!(at(&r, 2, bi, di), 0.0, "mask 0 edge must have zero residual");
        }
    }
}

#[test]
fn batch_axis_is_independent_and_bitwise_equal() {
    let (geo, z) = fixed_setup(None);
    let r_full = geo.edge_residuals(&z);
    let l_full = lap(&geo, &z);
    let crms_full = geo.consistency_rms(&z);
    for b in 0..G_B {
        let z_b = tensor((G_N, 1, G_DV), |(i, _, k)| at(&z, i, b, k));
        let r_b = geo.edge_residuals(&z_b);
        let l_b = lap(&geo, &z_b);
        let crms_b = geo.consistency_rms(&z_b);
        assert_eq!(
            flatten_batch(&r_b, 0),
            flatten_batch(&r_full, b),
            "edge_residuals batch {b} slab must match single-batch run bitwise"
        );
        assert_eq!(
            flatten_batch(&l_b, 0),
            flatten_batch(&l_full, b),
            "laplacian_apply batch {b} slab must match single-batch run bitwise"
        );
        assert_eq!(
            crms_b[0], crms_full[b],
            "consistency_rms batch {b} must match single-batch run bitwise"
        );
    }
}

#[test]
fn consistency_rms_at_zero_is_sqrt_eps() {
    let (geo, _z) = fixed_setup(None);
    let rms = geo.consistency_rms(&zeros((G_N, G_B, G_DV)));
    let expect = 1e-6f32.sqrt();
    assert_eq!(rms.len(), G_B);
    for v in rms.iter() {
        assert!(
            (v.0 - expect).abs() <= 1e-9,
            "consistency_rms(0) = {}, expected sqrt(1e-6) = {expect}",
            v.0
        );
    }
}

#[test]
fn consistency_rms_matches_manual_formula() {
    let (geo, z) = fixed_setup(None);
    let r = geo.edge_residuals(&z);
    let (e, _b, d_e) = r.dim();
    let rms = geo.consistency_rms(&z);
    for bi in 0..G_B {
        let mut acc = 0.0f32;
        for ei in 0..e {
            for di in 0..d_e {
                acc += at(&r, ei, bi, di) * at(&r, ei, bi, di);
            }
        }
        let expect = (acc / (e * d_e) as f32 + 1e-6).sqrt();
        assert!(
            (rms[bi].0 - expect).abs() <= 1e-6,
            "consistency_rms[{bi}] = {}, expected {expect}",
            rms[bi].0
        );
    }
}

// ---- modulated geometry ----

const L_N: usize = 4;
const L_B: usize = 2;
const L_DV: usize = 3;
const L_DE: usize = 2;
const RANK: usize = 2;
const K_DIRS: usize = 8;
const LORA_ALPHA: f32 = 4.0;

/// Per-node factors in row-major order of node, batch, slot, row, rank.
struct Factors {
    rows: usize,
    flat: Vec<f32>,
}

impl Factors {
    fn new(rows: usize, mut f: impl FnMut(usize, usize, usize, usize, usize) -> f32) -> Self {
        let mut flat = Vec::new();
        for n in 0..L_N {
            for b in 0..L_B {
                for k in 0..K_DIRS {
                    for i in 0..rows {
                        for r in 0..RANK {
                            flat.push(f(n, b, k, i, r));
                        }
                    }
                }
            }
        }
        Factors { rows, flat }
    }
    fn at(&self, n: usize, b: usize, k: usize, i: usize, r: usize) -> f32 {
        self.flat[(((n * L_B + b) * K_DIRS + k) * self.rows + i) * RANK + r]
    }
    fn grids(&self) -> Vec<FactorGrid<F>> {
        (0..K_DIRS)
            .map(|k| {
                FactorGrid::from_shape_fn(L_N, L_B, self.rows, RANK, |n, b| {
                    matrix(self.rows, RANK, |i, r| self.at(n, b, k, i, r))
                })
            })
            .collect()
    }
}

fn setup_lora(
    b_zero: bool,
    with_gate: bool,
    seed: u64,
) -> (LoraGeometry<F>, FixedGeometry<F>, NodeState) {
    let mut rng = Rng::new(seed);
    let graph = grid_2x2_8way();
    let e = graph.num_edges();
    let maps = random_maps(&mut rng, e, L_DE, L_DV, 0.8);
    let a = Factors::new(L_DE, |_, _, _, _, _| rng.f32());
    let b = if b_zero {
        Factors::new(L_DV, |_, _, _, _, _| 0.0)
    } else {
        Factors::new(L_DV, |_, _, _, _, _| rng.f32())
    };
    let gate = if with_gate { Some(rng.array3((L_N, L_B, K_DIRS))) } else { None };
    let lora = LoraGeometry::create_directional(
        graph.clone(),
        copy_maps(&maps),
        &a.grids(),
        &b.grids(),
        gate.as_ref(),
        F(LORA_ALPHA),
        L_B,
        RANK,
    );
    let fixed = FixedGeometry::new(graph, maps);
    let z = rng.array3((L_N, L_B, L_DV));
    (lora, fixed, z)
}

#[test]
fn lora_scale_is_alpha_over_rank() {
    let (lora, _fixed, _z) = setup_lora(false, false, 3);
    assert_eq!(lora.scale().0, LORA_ALPHA / RANK as f32);
}

#[test]
fn lora_with_b_zero_equals_fixed() {
    let (lora, fixed, z) = setup_lora(true, false, 5);
    assert_close(
        &lora.edge_residuals(&z),
        &fixed.edge_residuals(&z),
        1e-5,
        1e-5,
        "B=0 edge_residuals == Fixed",
    );
    assert_close(&lap(&lora, &z), &lap(&fixed, &z), 1e-5, 1e-5, "B=0 laplacian == Fixed");
    let e_lora = lora.energy(&z).0;
    let e_fixed = fixed.energy(&z).0;
    assert!((e_lora - e_fixed).abs() <= 1e-5 * e_fixed.abs().max(1.0));
}

#[test]
fn lora_gate_zero_equals_fixed() {
    let mut rng = Rng::new(11);
    let graph = grid_2x2_8way();
    let e = graph.num_edges();
    let maps = random_maps(&mut rng, e, L_DE, L_DV, 0.8);
    let a = Factors::new(L_DE, |_, _, _, _, _| rng.f32());
    let b = Factors::new(L_DV, |_, _, _, _, _| rng.f32());
    let gate = zeros((L_N, L_B, K_DIRS));
    let lora = LoraGeometry::create_directional(
        graph.clone(),
        copy_maps(&maps),
        &a.grids(),
        &b.grids(),
        Some(&gate),
        F(LORA_ALPHA),
        L_B,
        RANK,
    );
    let fixed = FixedGeometry::new(graph, maps);
    let z = rng.array3((L_N, L_B, L_DV));
    assert_close(
        &lora.edge_residuals(&z),
        &fixed.edge_residuals(&z),
        1e-6,
        1e-6,
        "gate=0 == Fixed residuals",
    );
    assert_close(&lap(&lora, &z), &lap(&fixed, &z), 1e-6, 1e-6, "gate=0 == Fixed laplacian");
}

/// The effective per-edge map of one endpoint in one batch element.
fn effective_blocks(lora: &LoraGeometry<F>, side: usize, b: usize) -> Vec<Matrix<F>> {
    let (a_e, b_e, gate) = if side == 0 {
        (&lora.a_u_edge, &lora.b_u_edge, &lora.gate_u_edge)
    } else {
        (&lora.a_v_edge, &lora.b_v_edge, &lora.gate_v_edge)
    };
    let scale = lora.scale().0;
    (0..lora.graph.num_edges())
        .map(|ei| {
            let pair = &lora.restriction_maps.maps[ei];
            let r = if side == 0 { &pair.u } else { &pair.v };
            let a = a_e.get(ei, b);
            let bm = b_e.get(ei, b);
            let g = gate.as_ref().map_or(1.0, |gm| gm.get(ei, b).0);
            matrix(L_DE, L_DV, |i, k| {
                let low: f32 = (0..RANK).map(|j| a.get(i, j).0 * bm.get(k, j).0).sum();
                r.get(i, k).0 + low * (scale * g)
            })
        })
        .collect()
}

#[test]
fn lora_matches_dense_materialized_f() {
    let (lora, _fixed, z) = setup_lora(false, true, 13);
    let r = lora.edge_residuals(&z);
    let lz = lap(&lora, &z);
    for b in 0..L_B {
        let fu = effective_blocks(&lora, 0, b);
        let fv = effective_blocks(&lora, 1, b);
        let f = dense_coboundary(&lora.graph.edges, &fu, &fv, None, L_N, L_DV);
        let fz = mat_vec(&f, &flatten_batch(&z, b));
        assert_close_flat(&flatten_batch(&r, b), &fz, 1e-4, 1e-4, "LoRA residuals vs dense F z");
        let dense = mat_t_vec(&f, &fz);
        assert_close_flat(&flatten_batch(&lz, b), &dense, 1e-4, 1e-4, "LoRA laplacian vs dense F^T F z");
    }
}

#[test]
fn create_directional_gathers_by_slot_tables() {
    let mut rng = Rng::new(17);
    let graph = grid_2x2_8way();
    let e_cnt = graph.num_edges();
    let maps = random_maps(&mut rng, e_cnt, L_DE, L_DV, 1.0);
    let a = Factors::new(L_DE, |n, b, k, i, r| {
        (n * 1000 + k * 10) as f32 + b as f32 * 0.5 + i as f32 * 0.01 + r as f32 * 0.001
    });
    let b_f = Factors::new(L_DV, |n, b, k, j, r| {
        -((n * 1000 + k * 10) as f32) - b as f32 * 0.5 - j as f32 * 0.01 - r as f32 * 0.001
    });
    let gate = tensor((L_N, L_B, K_DIRS), |(n, b, k)| (n * 100 + k) as f32 + b as f32 * 0.25);
    let lora = LoraGeometry::create_directional(
        graph.clone(),
        maps,
        &a.grids(),
        &b_f.grids(),
        Some(&gate),
        F(LORA_ALPHA),
        L_B,
        RANK,
    );
    for (ei, &[u, v]) in graph.edges.iter().enumerate() {
        let (u, v) = (u as usize, v as usize);
        let su = graph.dir_uv[ei] as usize;
        let sv = graph.dir_vu[ei] as usize;
        for bi in 0..L_B {
            for r in 0..RANK {
                for i in 0..L_DE {
                    assert_eq!(lora.a_u_edge.get(ei, bi).get(i, r).0, a.at(u, bi, su, i, r));
                    assert_eq!(lora.a_v_edge.get(ei, bi).get(i, r).0, a.at(v, bi, sv, i, r));
                }
                for k in 0..L_DV {
                    assert_eq!(lora.b_u_edge.get(ei, bi).get(k, r).0, b_f.at(u, bi, su, k, r));
                    assert_eq!(lora.b_v_edge.get(ei, bi).get(k, r).0, b_f.at(v, bi, sv, k, r));
                }
            }
            assert_eq!(lora.gate_u_edge.as_ref().unwrap().get(ei, bi).0, at(&gate, u, bi, su));
            assert_eq!(lora.gate_v_edge.as_ref().unwrap().get(ei, bi).0, at(&gate, v, bi, sv));
        }
    }
}

#[test]
fn lora_laplacian_symmetric_psd() {
    let (lora, _fixed, _z) = setup_lora(false, true, 23);
    let mut rng = Rng::new(29);
    for _ in 0..6 {
        let a = rng.array3((L_N, L_B, L_DV));
        let b = rng.array3((L_N, L_B, L_DV));
        let la = lap(&lora, &a);
        let lb = lap(&lora, &b);
        let a_lb = dot_all(&a, &lb);
        let la_b = dot_all(&la, &b);
        assert!(
            (a_lb - la_b).abs() <= 1e-2 * a_lb.abs().max(1.0),
            "LoRA L not symmetric: {a_lb} vs {la_b}"
        );
        let a_la = dot_all(&a, &la);
        assert!(a_la >= -1e-4, "LoRA L not PSD: {a_la}");
    }
}

// ---- local solvers ----

const X_N: usize = 3;
const X_B: usize = 2;
const X_D: usize = 4;
const X_RHO: f32 = 0.25;

fn x_shape() -> (usize, usize, usize) {
    (X_N, X_B, X_D)
}

fn each(mut f: impl FnMut(usize, usize, usize)) {
    for n in 0..X_N {
        for b in 0..X_B {
            for d in 0..X_D {
                f(n, b, d);
            }
        }
    }
}

/// Strictly positive diagonal curvature.
fn positive_diag(rng: &mut Rng) -> NodeState {
    tensor(x_shape(), |_| rng.f32().abs() + 0.1 + 1e-4)
}

fn soft(x: f32, th: f32) -> f32 {
    soft_threshold(F(x), F(th)).0
}

#[test]
fn soft_threshold_kinks() {
    assert_eq!(soft(0.5, 0.5), 0.0);
    assert_eq!(soft(-0.5, 0.5), 0.0);
    assert!((soft(0.6, 0.5) - 0.1).abs() < 1e-7);
    assert!((soft(-0.6, 0.5) + 0.1).abs() < 1e-7);
    assert_eq!(soft(0.0, 0.0), 0.0);
    assert_eq!(soft(0.0, 0.3), 0.0);
    assert_eq!(soft(2.0, 0.0), 2.0);
    assert_eq!(soft(-2.0, 0.0), -2.0);
}

#[test]
fn quadratic_stationarity() {
    let mut rng = Rng::new(31);
    let q_diag = positive_diag(&mut rng);
    let q = rng.array3(x_shape());
    let z = rng.array3(x_shape());
    let y = rng.array3(x_shape());
    let obj = Objective::Quadratic { q_diag: q_diag.clone(), q: q.clone() };
    let x = diagonal_prox_solve(&z, &y, F(X_RHO), &obj);
    each(|n, b, d| {
        let xi = at(&x, n, b, d);
        let v = at(&z, n, b, d) - at(&y, n, b, d);
        let resid = at(&q_diag, n, b, d) * xi + at(&q, n, b, d) + X_RHO * (xi - v);
        assert!(resid.abs() <= 1e-5, "stationarity violated: {resid}");
    });
}

#[test]
fn lasso_subgradient_optimality() {
    let mut rng = Rng::new(37);
    let q_diag = positive_diag(&mut rng);
    let q = rng.array3(x_shape());
    let z = rng.array3(x_shape());
    let y = rng.array3(x_shape());
    let l1: f32 = 0.3;
    let obj = Objective::Lasso { q_diag: q_diag.clone(), q: q.clone(), l1: F(l1) };
    let x = diagonal_prox_solve(&z, &y, F(X_RHO), &obj);
    let mut zero_count = 0;
    let mut nonzero_count = 0;
    each(|n, b, d| {
        let xi = at(&x, n, b, d);
        let v = at(&z, n, b, d) - at(&y, n, b, d);
        if xi != 0.0 {
            nonzero_count += 1;
            let resid =
                at(&q_diag, n, b, d) * xi + at(&q, n, b, d) + l1 * xi.signum() + X_RHO * (xi - v);
            assert!(resid.abs() <= 1e-5, "nonzero stationarity: {resid}");
        } else {
            zero_count += 1;
            let sub = (at(&q, n, b, d) - X_RHO * v).abs();
            assert!(sub <= l1 + 1e-5, "zero subgradient: |q - rho v| = {sub} > {l1}");
        }
    });
    assert!(zero_count > 0, "test vacuous: no coordinate hit the L1 dead zone");
    assert!(nonzero_count > 0, "test vacuous: every coordinate hit the dead zone");
}

#[test]
fn l1box_clip_after_soft_threshold_ordering() {
    let shape = (1, 1, 1);
    let obj = Objective::L1Box {
        q_diag: constant(shape, 1.0),
        q: zeros(shape),
        l1: constant(shape, 1.0),
        upper: constant(shape, 1.0),
    };
    let x = diagonal_prox_solve(&constant(shape, 4.0), &zeros(shape), F(1.0), &obj);
    assert_eq!(at(&x, 0, 0, 0), 1.0, "clip must run AFTER the soft-threshold");
}

#[test]
fn l1box_respects_box_and_stationarity_in_interior() {
    let mut rng = Rng::new(41);
    let q_diag = positive_diag(&mut rng);
    let q = rng.array3(x_shape());
    let z = rng.array3(x_shape());
    let y = rng.array3(x_shape());
    let l1 = tensor(x_shape(), |_| rng.f32().abs() * 0.2);
    let upper = tensor(x_shape(), |_| rng.f32().abs() * 0.8 + 0.05);
    let obj = Objective::L1Box {
        q_diag: q_diag.clone(),
        q: q.clone(),
        l1: l1.clone(),
        upper: upper.clone(),
    };
    let x = diagonal_prox_solve(&z, &y, F(X_RHO), &obj);
    each(|n, b, d| {
        let xi = at(&x, n, b, d);
        let hi = at(&upper, n, b, d);
        assert!(xi >= 0.0, "lower bound 0 violated: {xi}");
        assert!(xi <= hi, "upper bound violated");
        if xi > 1e-6 && xi < hi - 1e-6 {
            let v = at(&z, n, b, d) - at(&y, n, b, d);
            let resid = at(&q_diag, n, b, d) * xi
                + at(&q, n, b, d)
                + at(&l1, n, b, d)
                + X_RHO * (xi - v);
            assert!(resid.abs() <= 1e-5, "interior stationarity: {resid}");
        }
    });
}

#[test]
fn non_negative_projects_to_zero() {
    let mut rng = Rng::new(43);
    let q_diag = positive_diag(&mut rng);
    let q = rng.array3(x_shape());
    let z = rng.array3(x_shape());
    let y = rng.array3(x_shape());
    let obj = Objective::NonNeg { q_diag: q_diag.clone(), q: q.clone() };
    let x = diagonal_prox_solve(&z, &y, F(X_RHO), &obj);
    let mut clamped = 0;
    each(|n, b, d| {
        let xi = at(&x, n, b, d);
        assert!(xi >= 0.0, "NonNeg violated");
        let v = at(&z, n, b, d) - at(&y, n, b, d);
        let unconstrained =
            (X_RHO * v - at(&q, n, b, d)) / (at(&q_diag, n, b, d) + X_RHO);
        if unconstrained < 0.0 {
            clamped += 1;
            assert_eq!(xi, 0.0, "negative unconstrained solution must clamp to 0");
        } else {
            assert!((xi - unconstrained).abs() <= 1e-6);
        }
    });
    assert!(clamped > 0, "test vacuous: nothing clamped");
}

#[test]
fn simple_solver_identity_and_limits() {
    let mut rng = Rng::new(47);
    let z = rng.array3(x_shape());
    let y = rng.array3(x_shape());
    let h = rng.array3(x_shape());
    let beta: f32 = 0.7;
    let x = simple_solve(&z, &y, F(X_RHO), &h, F(beta));
    each(|n, b, d| {
        let xi = at(&x, n, b, d);
        let hi_ = at(&h, n, b, d);
        let v = at(&z, n, b, d) - at(&y, n, b, d);
        let lhs = (beta + X_RHO) * xi;
        let rhs = beta * hi_ + X_RHO * v;
        assert!((lhs - rhs).abs() <= 1e-5, "simple identity");
        let (lo, hi) = if hi_ <= v { (hi_, v) } else { (v, hi_) };
        assert!(xi >= lo - 1e-6 && xi <= hi + 1e-6, "not a convex combination");
    });
    let x0 = simple_solve(&z, &y, F(X_RHO), &h, F(0.0));
    each(|n, b, d| {
        assert!((at(&x0, n, b, d) - (at(&z, n, b, d) - at(&y, n, b, d))).abs() <= 1e-6);
    });
}

// ---- consensus solver ----

const C_N: usize = 8;
const C_B: usize = 2;
const C_DV: usize = 3;
const C_DE: usize = 2;
const C_RHO: f32 = 0.25;
const C_GAMMA: f32 = 5.0;

fn cg_params(mode: ZMode, num_iters: usize) -> UnrolledCgParams<F> {
    UnrolledCgParams { mode, gamma: F(C_GAMMA), num_iters, tikhonov_eps: F(1e-5) }
}

/// Ring and chords over eight nodes, random fixed maps.
fn cg_setup(seed: u64) -> (FixedGeometry<F>, NodeState, NodeState) {
    let mut rng = Rng::new(seed);
    let mut edges: Vec<[u32; 2]> = (0..C_N as u32).map(|i| [i, (i + 1) % C_N as u32]).collect();
    edges.push([0, 4]);
    edges.push([2, 6]);
    edges.push([1, 5]);
    let e = edges.len();
    let graph = Arc::new(AgentGraph::from_edges(edges, C_N));
    let maps = random_maps(&mut rng, e, C_DE, C_DV, 0.6);
    let geo = FixedGeometry::new(graph, maps);
    let z_target = rng.array3((C_N, C_B, C_DV));
    let z_prev = rng.array3((C_N, C_B, C_DV));
    (geo, z_target, z_prev)
}

fn bnorm(a: &NodeState) -> Vec<f32> {
    let (_, b, _) = a.dim();
    (0..b).map(|bi| flatten_batch(a, bi).iter().map(|v| v * v).sum::<f32>().sqrt()).collect()
}

/// Residual and right-hand side of the prox system at `z`.
fn prox_residual(geo: &FixedGeometry<F>, z: &NodeState, z_target: &NodeState) -> (NodeState, NodeState) {
    let az = zip(&lap(geo, z), z, |a, zi| C_GAMMA * a + C_RHO * zi);
    let b = tensor(z.dim(), |(i, j, k)| C_RHO * at(z_target, i, j, k));
    (zip(&az, &b, |x, y| x - y), b)
}

#[test]
fn prox_mode_relative_residual_at_t30() {
    let (geo, z_target, z_prev) = cg_setup(53);
    let z = unrolled_cg_solve(&z_target, &z_prev, &geo, &cg_params(ZMode::Prox, 30), F(C_RHO));
    let (resid, b) = prox_residual(&geo, &z, &z_target);
    for (bi, (r, n_b)) in bnorm(&resid).iter().zip(bnorm(&b).iter()).enumerate() {
        let rel = r / n_b;
        assert!(rel < 1e-4, "batch {bi}: relative residual {rel} >= 1e-4");
    }
}

#[test]
fn project_mode_reduces_sheaf_residual_below_10pct() {
    let (geo, z_target, z_prev) = cg_setup(59);
    let z = unrolled_cg_solve(&z_target, &z_prev, &geo, &cg_params(ZMode::Project, 30), F(C_RHO));
    let in_sq: f32 = members(&geo.edge_residuals(&z_target)).iter().map(|v| v * v).sum();
    let out_sq: f32 = members(&geo.edge_residuals(&z)).iter().map(|v| v * v).sum();
    assert!(
        out_sq < 0.1 * in_sq,
        "project mode: residual energy {out_sq} not < 10% of input {in_sq}"
    );
}

#[test]
fn cg_denominator_guard_no_nan_on_zero_system() {
    let (geo, _zt, _zp) = cg_setup(61);
    let z0 = zeros((C_N, C_B, C_DV));
    let z = unrolled_cg_solve(&z0, &z0, &geo, &cg_params(ZMode::Prox, 5), F(C_RHO));
    for v in members(&z) {
        assert_eq!(v, 0.0, "zero system must stay exactly zero (no NaN)");
    }
    let z = unrolled_cg_solve(&z0, &z0, &geo, &cg_params(ZMode::Project, 5), F(C_RHO));
    for v in members(&z) {
        assert!(v.is_finite(), "project mode NaN on zero system");
        assert_eq!(v, 0.0);
    }
}

#[test]
fn project_mode_is_not_idempotent_by_design() {
    let (geo, z_target, z_prev) = cg_setup(67);
    let params = cg_params(ZMode::Project, 5);
    let z1 = unrolled_cg_solve(&z_target, &z_prev, &geo, &params, F(C_RHO));
    let z2 = unrolled_cg_solve(&z1, &z_prev, &geo, &params, F(C_RHO));
    let diff: f32 = members(&z1).iter().zip(members(&z2)).map(|(a, b)| (a - b).abs()).sum();
    assert!(diff > 1e-4, "project mode unexpectedly idempotent (diff {diff})");
}

#[test]
fn prox_mode_more_iters_reduce_residual() {
    let (geo, z_target, z_prev) = cg_setup(71);
    let resid_at = |t: usize| -> f32 {
        let z = unrolled_cg_solve(&z_target, &z_prev, &geo, &cg_params(ZMode::Prox, t), F(C_RHO));
        bnorm(&prox_residual(&geo, &z, &z_target).0).iter().sum()
    };
    let r5 = resid_at(5);
    let r20 = resid_at(20);
    assert!(r20 < r5, "CG residual did not shrink with more iterations: T=5 {r5}, T=20 {r20}");
}

#[test]
fn default_cg_params() {
    let p: UnrolledCgParams<F> = UnrolledCgParams::default();
    assert_eq!(p.mode, ZMode::Prox);
    assert_eq!(p.gamma.0, 1.0);
    assert_eq!(p.num_iters, 5);
    assert_eq!(p.tikhonov_eps.0, 1e-5);
}

// ---- the loop ----

const A_N: usize = 4;
const A_B: usize = 2;
const A_DV: usize = 4;
const A_DE: usize = 2;
const A_RHO: f32 = 0.25;
const A_GAMMA: f32 = 5.0;

fn admm_setup(seed: u64) -> (EncoderOutput<F>, FixedGeometry<F>, UnrolledCgParams<F>, NodeState) {
    let mut rng = Rng::new(seed);
    let graph = tiny_graph();
    let e = graph.num_edges();
    let maps = random_maps(&mut rng, e, A_DE, A_DV, 0.6);
    let geo = FixedGeometry::new(graph, maps);
    let shape = (A_N, A_B, A_DV);
    let h = rng.array3(shape);
    let q_diag = tensor(shape, |_| rng.f32().abs() + 0.1 + 1e-4);
    let q = rng.array3(shape);
    let l1 = tensor(shape, |_| rng.f32().abs() * 0.05);
    let upper = constant(shape, 1.0);
    let enc = EncoderOutput {
        h: h.clone(),
        objective: Objective::L1Box { q_diag, q, l1, upper },
        lora: None,
    };
    let z_params = UnrolledCgParams {
        mode: ZMode::Prox,
        gamma: F(A_GAMMA),
        num_iters: 5,
        tikhonov_eps: F(1e-5),
    };
    (enc, geo, z_params, h)
}

fn params(k: usize, alpha: f32) -> AdmmParams<F> {
    AdmmParams { rho: F(A_RHO), alpha: F(alpha), gamma: F(A_GAMMA), k }
}

const PROX: XSolverKind = XSolverKind::DiagonalProx;

#[test]
fn x_window_last_equals_final_x() {
    let (enc, geo, z_params, z_init) = admm_setup(101);
    let (state, x_window) = run_admm(&enc, &geo, PROX, &z_params, &params(6, 1.0), &z_init, 3);
    assert_eq!(x_window.len(), 3);
    assert_close(x_window.last().unwrap(), &state.x, 0.0, 0.0, "x_window[last] == state.x");
}

#[test]
fn loss_window_clamps_to_k() {
    let (enc, geo, z_params, z_init) = admm_setup(103);
    let k = 4;
    let (state, x_window) = run_admm(&enc, &geo, PROX, &z_params, &params(k, 1.0), &z_init, 10);
    assert_eq!(x_window.len(), k, "loss_window > K clamps to K");
    assert_close(x_window.last().unwrap(), &state.x, 0.0, 0.0, "clamped window last");
    let (_, hist) = run_admm_history(&enc, &geo, PROX, &z_params, &params(k, 1.0), &z_init);
    for (i, xw) in x_window.iter().enumerate() {
        assert_close(xw, &hist.x[i], 0.0, 0.0, "x_window oldest-first matches history");
    }
}

#[test]
fn history_final_state_matches_run_admm() {
    let (enc, geo, z_params, z_init) = admm_setup(107);
    let p = params(8, 1.0);
    let (state, _) = run_admm(&enc, &geo, PROX, &z_params, &p, &z_init, 1);
    let (state_h, hist) = run_admm_history(&enc, &geo, PROX, &z_params, &p, &z_init);
    assert_close(&state.x, &state_h.x, 0.0, 0.0, "final x");
    assert_close(&state.z, &state_h.z, 0.0, 0.0, "final z");
    assert_close(&state.y, &state_h.y, 0.0, 0.0, "final y");
    assert_close(&hist.x[7], &state.x, 0.0, 0.0, "history.x[K-1] == final x");
}

#[test]
fn history_residual_definitions() {
    let (enc, geo, z_params, z_init) = admm_setup(109);
    let k = 5;
    let (_, hist) = run_admm_history(&enc, &geo, PROX, &z_params, &params(k, 1.0), &z_init);
    for ki in 0..k {
        let xk = &hist.x[ki];
        let zk = &hist.z[ki];
        let z_prev = if ki == 0 { &z_init } else { &hist.z[ki - 1] };
        for ni in 0..A_N {
            for bi in 0..A_B {
                let mut p_acc = 0.0f32;
                let mut d_acc = 0.0f32;
                for di in 0..A_DV {
                    let pd = at(xk, ni, bi, di) - at(zk, ni, bi, di);
                    p_acc += pd * pd;
                    let dd = at(zk, ni, bi, di) - at(z_prev, ni, bi, di);
                    d_acc += dd * dd;
                }
                let p_expect = p_acc.sqrt();
                let d_expect = A_RHO * d_acc.sqrt();
                assert!(
                    (hist.primal_res[ki].get(ni, bi).0 - p_expect).abs() <= 1e-6,
                    "primal_res[{ki},{ni},{bi}]"
                );
                assert!(
                    (hist.dual_res[ki].get(ni, bi).0 - d_expect).abs() <= 1e-6,
                    "dual_res[{ki},{ni},{bi}]"
                );
            }
        }
        let crms = geo.consistency_rms(zk);
        for bi in 0..A_B {
            assert!(
                (hist.consistency_rms[ki][bi].0 - crms[bi].0).abs() <= 1e-6,
                "consistency_rms[{ki},{bi}]"
            );
        }
    }
}

/// The recurrence written out with the public solvers.
fn reference_run(
    enc: &EncoderOutput<F>,
    geo: &FixedGeometry<F>,
    z_params: &UnrolledCgParams<F>,
    z_init: &NodeState,
    k: usize,
    alpha: f32,
) -> (NodeState, NodeState, NodeState) {
    let mut x = z_init.clone();
    let mut z = z_init.clone();
    let mut y = zeros(z_init.dim());
    for _ in 0..k {
        let z_prev = z.clone();
        x = diagonal_prox_solve(&z, &y, F(A_RHO), &enc.objective);
        let x_relaxed = if alpha == 1.0 {
            x.clone()
        } else {
            zip(&x, &z_prev, |v, zp| alpha * v + (1.0 - alpha) * zp)
        };
        let z_target = zip(&x_relaxed, &y, |a, b| a + b);
        z = unrolled_cg_solve(&z_target, &z_prev, geo, z_params, F(A_RHO));
        let gap = zip(&x_relaxed, &z, |a, b| a - b);
        y = zip(&y, &gap, |a, b| a + b);
    }
    (x, z, y)
}

#[test]
fn matches_reference_loop_alpha_1() {
    let (enc, geo, z_params, z_init) = admm_setup(113);
    let k = 6;
    let (state, _) = run_admm(&enc, &geo, PROX, &z_params, &params(k, 1.0), &z_init, 1);
    let (rx, rz, ry) = reference_run(&enc, &geo, &z_params, &z_init, k, 1.0);
    assert_close(&state.x, &rx, 0.0, 0.0, "x vs reference (alpha=1)");
    assert_close(&state.z, &rz, 0.0, 0.0, "z vs reference (alpha=1)");
    assert_close(&state.y, &ry, 0.0, 0.0, "y vs reference (alpha=1)");
}

#[test]
fn matches_reference_loop_alpha_relaxed() {
    let (enc, geo, z_params, z_init) = admm_setup(127);
    let k = 6;
    let alpha = 0.5;
    let (state, _) = run_admm(&enc, &geo, PROX, &z_params, &params(k, alpha), &z_init, 1);
    let (rx, rz, ry) = reference_run(&enc, &geo, &z_params, &z_init, k, alpha);
    assert_close(&state.x, &rx, 0.0, 0.0, "x vs reference (alpha=0.5)");
    assert_close(&state.z, &rz, 0.0, 0.0, "z vs reference (alpha=0.5)");
    assert_close(&state.y, &ry, 0.0, 0.0, "y vs reference (alpha=0.5)");
    let (state1, _) = run_admm(&enc, &geo, PROX, &z_params, &params(k, 1.0), &z_init, 1);
    let diff: f32 =
        members(&state.z).iter().zip(members(&state1.z)).map(|(a, b)| (a - b).abs()).sum();
    assert!(diff > 1e-6, "alpha=0.5 should differ from alpha=1.0");
}

#[test]
fn simple_x_solver_path_runs() {
    let mut rng = Rng::new(131);
    let graph = tiny_graph();
    let e = graph.num_edges();
    let maps = random_maps(&mut rng, e, A_DE, A_DV, 0.6);
    let geo = FixedGeometry::new(graph, maps);
    let h = rng.array3((A_N, A_B, A_DV));
    let enc =
        EncoderOutput { h: h.clone(), objective: Objective::Simple { beta: F(0.8) }, lora: None };
    let z_params = UnrolledCgParams {
        mode: ZMode::Prox,
        gamma: F(A_GAMMA),
        num_iters: 5,
        tikhonov_eps: F(1e-5),
    };
    let (state, x_window) =
        run_admm(&enc, &geo, XSolverKind::Simple, &z_params, &params(4, 1.0), &h, 1);
    assert_eq!(x_window.len(), 1);
    assert!(members(&state.x).iter().all(|v| v.is_finite()));
    assert!(members(&state.z).iter().all(|v| v.is_finite()));
}

#[test]
fn prox_z_update_never_increases_sheaf_energy_vs_target() {
    let (enc, geo, z_params, z_init) = admm_setup(137);
    let k = 20;
    let (_, hist) = run_admm_history(&enc, &geo, PROX, &z_params, &params(k, 1.0), &z_init);
    for ki in 0..k {
        let zk = &hist.z[ki];
        let z_target = zip(zk, &hist.y[ki], |a, b| a + b);
        let e_z = geo.energy(zk).0;
        let e_t = geo.energy(&z_target).0;
        assert!(
            e_z <= e_t * (1.0 + 1e-4) + 1e-6,
            "iter {ki}: E(z) = {e_z} > E(z_target) = {e_t}"
        );
    }
}

// ---- exact arithmetic ----

fn mod3(d: (usize, usize, usize), mut seed: u32) -> Tensor3<Modular> {
    let mut flat = Vec::new();
    for _ in 0..d.0 * d.1 * d.2 {
        seed = seed.wrapping_mul(1664525).wrapping_add(1013904223);
        flat.push(Modular { value: seed });
    }
    Tensor3::from_shape_fn(d.0, d.1, d.2, |i, j, k| flat[(i * d.1 + j) * d.2 + k])
}

fn mod_dot(a: &Tensor3<Modular>, c: &Tensor3<Modular>) -> Modular {
    let (n, b, d) = a.dim();
    let mut sum = Modular::zero();
    for i in 0..n {
        for j in 0..b {
            for k in 0..d {
                sum = sum.plus(a.get(i, j, k).times(c.get(i, j, k)));
            }
        }
    }
    sum
}

#[test]
fn laplacian_is_exactly_symmetric_on_whole_numbers() {
    let edges = vec![[0, 1], [0, 2], [1, 3], [2, 3], [0, 3]];
    let graph: Arc<AgentGraph<Modular>> = Arc::new(AgentGraph::from_edges(edges, 4));
    let source = mod3((5, 2, 6), 99);
    let maps = (0..5)
        .map(|e| EdgeMaps {
            u: Matrix::from_shape_fn(2, 3, |i, k| source.get(e, 0, i * 3 + k)),
            v: Matrix::from_shape_fn(2, 3, |i, k| source.get(e, 1, i * 3 + k)),
        })
        .collect();
    let geo = FixedGeometry::new(graph, RestrictionMaps { d_e: 2, d_v: 3, maps });
    let a = mod3((4, 1, 3), 5);
    let z = mod3((4, 1, 3), 6);
    let mut la = Tensor3::from_elem(4, 1, 3, Modular::zero());
    let mut lz = Tensor3::from_elem(4, 1, 3, Modular::zero());
    geo.laplacian_apply(&a, &mut la);
    geo.laplacian_apply(&z, &mut lz);
    assert_eq!(mod_dot(&a, &lz), mod_dot(&la, &z));
    let r = geo.edge_residuals(&z);
    assert_eq!(mod_dot(&z, &lz), mod_dot(&r, &r));
}

#[test]
fn modular_arithmetic_values() {
    let m = |value: u32| Modular { value };
    assert_eq!(m(u32::MAX).plus(m(2)), m(1));
    assert_eq!(m(1).minus(m(2)), m(u32::MAX));
    assert_eq!(m(0x1_0001).times(m(0x1_0001)), m(0x2_0001));
    assert_eq!(m(35).over(m(7)), m(5));
    assert_eq!(m(3).times(m(1).over(m(3))), m(1));
    assert_eq!(m(2).pow(m(10)), m(1024));
    assert_eq!(Modular::from_int(-1), m(u32::MAX));
    assert_eq!(Modular::decimal(12, 2), m(1200));
    assert_eq!(m(5).negate().plus(m(5)), m(0));
    assert_eq!(Modular::dot(&[m(2), m(3)], &[m(5), m(7)]), m(31));
    assert_eq!(m(300).to_byte(), 255);
}
