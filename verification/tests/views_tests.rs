//! Views, mazes, archives, reports and figures.

use sheaf::admm::AdmmHistory;
use sheaf::figures::{
    colormap, drawing, element, grid_layout, principal_inputs, project_xz, render_coordination, render_xz,
    select_history, Basis, ColorMap, HistoryError, LogNorm, Shape,
};
use sheaf::mazegen::{bfs_path_len, generate_maze, generate_maze_hw, maze_tokens};
use sheaf::metrics::{
    consistency_fell, key_frames, peak_consistency, run_metrics, summary_rows, IterationMetrics,
};
use sheaf::npz::{Npz, NpzData, NpzEntry, NpzError};
use sheaf::report::{index_of, iter_tol, Compared, ExactOutcome, Outcome, Report};
use sheaf::scalar::{Scalar, Widens};
use sheaf::readout::argmax_frame;
use sheaf::tensor::{Matrix, Tensor3};
use sheaf::terminal::{cell, render_rows};
use sheaf::text::{decimal_text, escaped, starts_with};
use sheaf::views::{
    build_grid_edge_indices, build_sudoku_cell_indices, grid_agent_centers, prepare_maze_patches,
    reassemble_logits, TOKEN_EMPTY, TOKEN_GOAL, TOKEN_PATH, TOKEN_START, TOKEN_WALL,
};

/// Single-precision numbers.
#[derive(Clone, Copy, Debug, PartialEq)]
struct F(f32);

impl Scalar for F {
    fn zero() -> F {
        F(0.0)
    }
    fn one() -> F {
        F(1.0)
    }
    fn infinity() -> F {
        F(f32::INFINITY)
    }
    fn neg_infinity() -> F {
        F(f32::NEG_INFINITY)
    }
    fn negate(self) -> F {
        F(-self.0)
    }
    fn abs(self) -> F {
        F(self.0.abs())
    }
    fn sqrt(self) -> F {
        F(self.0.sqrt())
    }
    fn exp(self) -> F {
        F(self.0.exp())
    }
    fn ln(self) -> F {
        F(self.0.ln())
    }
    fn ln_1p(self) -> F {
        F(self.0.ln_1p())
    }
    fn tanh(self) -> F {
        F(self.0.tanh())
    }
    fn log10(self) -> F {
        F(self.0.log10())
    }
    fn floor(self) -> F {
        F(self.0.floor())
    }
    fn ceil(self) -> F {
        F(self.0.ceil())
    }
    fn round(self) -> F {
        F(self.0.round())
    }
    fn plus(self, rhs: F) -> F {
        F(self.0 + rhs.0)
    }
    fn minus(self, rhs: F) -> F {
        F(self.0 - rhs.0)
    }
    fn times(self, rhs: F) -> F {
        F(self.0 * rhs.0)
    }
    fn over(self, rhs: F) -> F {
        F(self.0 / rhs.0)
    }
    fn max(self, rhs: F) -> F {
        F(self.0.max(rhs.0))
    }
    fn min(self, rhs: F) -> F {
        F(self.0.min(rhs.0))
    }
    fn pow(self, rhs: F) -> F {
        F(self.0.powf(rhs.0))
    }
    fn less(self, rhs: F) -> bool {
        self.0 < rhs.0
    }
    fn same(self, rhs: F) -> bool {
        self.0 == rhs.0
    }
    fn is_nan(self) -> bool {
        self.0.is_nan()
    }
    fn is_finite(self) -> bool {
        self.0.is_finite()
    }
    fn to_index(self) -> usize {
        self.0 as usize
    }
    fn to_byte(self) -> u8 {
        self.0 as u8
    }
    fn to_exponent(self) -> i32 {
        self.0 as i32
    }
    fn to_bits(self) -> u32 {
        self.0.to_bits()
    }
    fn from_count(count: usize) -> F {
        F(count as f32)
    }
    fn from_int(value: i64) -> F {
        F(value as f32)
    }
    fn from_bits(bits: u32) -> F {
        F(f32::from_bits(bits))
    }
    fn decimal(digits: i64, exponent: i32) -> F {
        F(format!("{digits}e{exponent}").parse().unwrap())
    }
    fn sum(a: &[F]) -> F {
        let x: Vec<f32> = a.iter().map(|v| v.0).collect();
        F(ndarray::ArrayView1::from(&x[..]).sum())
    }
    fn dot(a: &[F], b: &[F]) -> F {
        let x: Vec<f32> = a.iter().map(|v| v.0).collect();
        let y: Vec<f32> = b.iter().map(|v| v.0).collect();
        F(ndarray::ArrayView1::from(&x[..]).dot(&ndarray::ArrayView1::from(&y[..])))
    }
}
impl Widens<F> for F {
    fn widen(self) -> F {
        self
    }
}

fn grid(rows: &[&[i64]]) -> Matrix<i64> {
    Matrix::from_shape_fn(rows.len(), rows[0].len(), |i, j| rows[i][j])
}

fn center_list(centers: &Matrix<i64>) -> Vec<(i64, i64)> {
    (0..centers.nrows()).map(|i| (centers.get(i, 0), centers.get(i, 1))).collect()
}

// ---- views ----

#[test]
fn centers_start_at_half_a_patch() {
    let centers = grid_agent_centers((19, 19), 2, 3);
    assert_eq!(centers.nrows(), 81);
    let list = center_list(&centers);
    assert_eq!(list[0], (1, 1));
    assert_eq!(list[1], (1, 3));
    assert_eq!(list[9], (3, 1));
    assert_eq!(list[80], (17, 17));
    assert_eq!(grid_agent_centers((37, 37), 2, 3).nrows(), 18 * 18);
    assert_eq!(center_list(&grid_agent_centers((6, 4), 3, 3)), vec![(1, 1), (4, 1)]);
    assert_eq!(grid_agent_centers((1, 9), 2, 3).nrows(), 0);
}

#[test]
fn grid_edges_are_oriented_right_and_down() {
    let centers = grid_agent_centers((19, 19), 2, 3);
    let edges = build_grid_edge_indices(&centers, 2, 8);
    assert_eq!(edges.len(), 272);
    assert!(edges.iter().all(|&[u, v]| u < v));
    let mut pairs: Vec<[u32; 2]> = edges.clone();
    pairs.sort();
    pairs.dedup();
    assert_eq!(pairs.len(), 272, "each edge once");
    assert_eq!(&edges[..4], &[[0, 1], [0, 9], [0, 10], [1, 2]]);
    assert_eq!(edges[6], [1, 9 + 0], "down left");

    // A four by four grid of centers has 24 four-way edges.
    let centers = grid_agent_centers((8, 8), 2, 1);
    assert_eq!(centers.nrows(), 16);
    assert_eq!(build_grid_edge_indices(&centers, 2, 4).len(), 24);
    assert!(build_grid_edge_indices(&centers, 3, 4).is_empty());
}

#[test]
fn patches_are_padded_with_walls_and_one_hot() {
    let tokens = Tensor3::from_shape_fn(1, 3, 3, |_, y, x| [[2, 3, 2], [2, 4, 2], [5, 2, 0]][y][x]);
    let centers = grid(&[&[0, 0], &[1, 1]]);
    let patches: Tensor3<F> = prepare_maze_patches(&tokens, &centers, 3, 6);
    assert_eq!(patches.dim(), (2, 1, 54));
    let class_at = |n: usize, cell: usize| {
        let hot: Vec<usize> = (0..6).filter(|&c| patches.get(n, 0, cell * 6 + c).0 == 1.0).collect();
        assert_eq!(hot.len(), 1);
        assert!((0..6).all(|c| hot[0] == c || patches.get(n, 0, cell * 6 + c).0 == 0.0));
        hot[0]
    };
    let first: Vec<usize> = (0..9).map(|c| class_at(0, c)).collect();
    assert_eq!(first, vec![1, 1, 1, 1, 2, 3, 1, 2, 4]);
    let second: Vec<usize> = (0..9).map(|c| class_at(1, c)).collect();
    assert_eq!(second, vec![2, 3, 2, 2, 4, 2, 5, 2, 0]);
    // A token that is no class leaves its cell cold.
    let odd = Tensor3::from_elem(1, 3, 3, 9);
    let cold: Tensor3<F> = prepare_maze_patches(&odd, &grid(&[&[1, 1]]), 3, 6);
    assert!((0..54).all(|k| cold.get(0, 0, k).0 == 0.0));
}

#[test]
fn patchify_then_mean_reassembly_restores_the_image() {
    let (h, w, classes) = (7, 9, 2);
    let value = |y: usize, x: usize, c: usize| (y * 31 + x * 7 + c) as f32 * 0.25 - 3.0;
    let centers = grid_agent_centers((h, w), 2, 3);
    let n = centers.nrows();
    let logits = Tensor3::from_shape_fn(n, 1, 9 * classes, |i, _, k| {
        let (cell, c) = (k / classes, k % classes);
        let y = centers.get(i, 0) + (cell / 3) as i64 - 1;
        let x = centers.get(i, 1) + (cell % 3) as i64 - 1;
        if y >= 0 && x >= 0 && (y as usize) < h && (x as usize) < w {
            F(value(y as usize, x as usize, c))
        } else {
            F(1000.0)
        }
    });
    let grids = reassemble_logits(&logits, &centers, 3, classes, (h, w));
    assert_eq!(grids.len(), 1);
    assert_eq!(grids[0].dim(), (h, w, classes));
    for y in 0..h {
        for x in 0..w {
            for c in 0..classes {
                assert!((grids[0].get(y, x, c).0 - value(y, x, c)).abs() < 1e-5);
            }
        }
    }
}

#[test]
fn reassembly_averages_overlap_and_leaves_gaps_at_zero() {
    let centers = grid(&[&[1, 1], &[1, 3]]);
    let logits = Tensor3::from_shape_fn(2, 1, 9, |i, _, _| F(if i == 0 { 1.0 } else { 4.0 }));
    let grids = reassemble_logits(&logits, &centers, 3, 1, (4, 5));
    let row: Vec<f32> = (0..5).map(|x| grids[0].get(1, x, 0).0).collect();
    assert_eq!(row, vec![1.0, 1.0, 2.5, 4.0, 4.0]);
    assert!((0..5).all(|x| grids[0].get(3, x, 0).0 == 0.0));
}

#[test]
fn argmax_takes_the_first_of_the_largest() {
    let g = Tensor3::from_shape_fn(1, 3, 3, |_, x, c| {
        F([[0.0, 2.0, 2.0], [f32::NAN, -1.0, -3.0], [f32::NEG_INFINITY; 3]][x][c])
    });
    assert_eq!(argmax_frame(&g), vec![1, 1, 0]);
}

#[test]
fn sudoku_cells_are_covered_thrice() {
    let cells = build_sudoku_cell_indices();
    assert_eq!((cells.nrows(), cells.ncols()), (27, 9));
    let mut seen = vec![0; 81];
    for v in 0..27 {
        for k in 0..9 {
            seen[cells.get(v, k) as usize] += 1;
        }
    }
    assert!(seen.iter().all(|&c| c == 3));
    assert_eq!(cells.get(3, 4), 31);
    assert_eq!(cells.get(9 + 3, 4), 39);
    assert_eq!(cells.get(18 + 4, 5), 4 * 9 + 5);
}

// ---- mazes ----

#[test]
fn shortest_paths_are_found() {
    let t = grid(&[&[3, 2, 2], &[1, 1, 2], &[4, 2, 2]]);
    assert_eq!(bfs_path_len(&t), Some(6));
    let t = grid(&[&[3, 4]]);
    assert_eq!(bfs_path_len(&t), Some(1));
    let t = grid(&[&[3, 1, 4]]);
    assert_eq!(bfs_path_len(&t), None);
    let t = grid(&[&[3, 2, 2]]);
    assert_eq!(bfs_path_len(&t), None);
    let t = grid(&[&[2, 4]]);
    assert_eq!(bfs_path_len(&t), None);
    // Two ways round: the shorter counts.
    let t = grid(&[&[3, 2, 2, 2], &[2, 1, 1, 2], &[2, 2, 4, 2]]);
    assert_eq!(bfs_path_len(&t), Some(4));
}

fn check_structure(tokens: &Matrix<i64>) {
    let (h, w) = (tokens.nrows(), tokens.ncols());
    let mut starts = 0;
    let mut goals = 0;
    for y in 0..h {
        for x in 0..w {
            let v = tokens.get(y, x);
            assert!([TOKEN_WALL, TOKEN_EMPTY, TOKEN_START, TOKEN_GOAL].contains(&v));
            if y == 0 || x == 0 || y == h - 1 || x == w - 1 || (y % 2 == 0 && x % 2 == 0) {
                assert_eq!(v, TOKEN_WALL);
            }
            if y % 2 == 1 && x % 2 == 1 {
                assert!(v != TOKEN_WALL);
            } else {
                assert!(v != TOKEN_START && v != TOKEN_GOAL);
            }
            starts += (v == TOKEN_START) as usize;
            goals += (v == TOKEN_GOAL) as usize;
        }
    }
    assert_eq!((starts, goals), (1, 1));
}

fn flat(tokens: &Matrix<i64>) -> Vec<i64> {
    (0..tokens.nrows()).flat_map(|y| tokens.row(y).to_vec()).collect()
}

#[test]
fn generated_mazes_are_well_built() {
    for seed in 0..5 {
        let maze = generate_maze(19, seed, 18);
        assert_eq!((maze.tokens.nrows(), maze.tokens.ncols()), (19, 19));
        check_structure(&maze.tokens);
        assert!(maze.path_len >= 18);
        assert_eq!(bfs_path_len(&maze.tokens), Some(maze.path_len));
    }
    let maze = generate_maze_hw(5, 11, 7, 10);
    assert_eq!((maze.tokens.nrows(), maze.tokens.ncols()), (5, 11));
    check_structure(&maze.tokens);
}

#[test]
fn every_cell_of_a_carved_maze_is_connected() {
    let maze = generate_maze(19, 11, 18);
    // Carving opens exactly one passage for each cell but the first.
    let open = flat(&maze.tokens).iter().filter(|&&v| v != TOKEN_WALL).count();
    assert_eq!(open, 81 + 80);
}

#[test]
fn generation_is_deterministic_in_its_seed() {
    let a = generate_maze(19, 42, 18);
    let b = generate_maze(19, 42, 18);
    assert_eq!(flat(&a.tokens), flat(&b.tokens));
    assert_eq!(a.path_len, b.path_len);
    let c = generate_maze(19, 43, 18);
    assert!(flat(&a.tokens) != flat(&c.tokens));
}

#[test]
fn the_longest_possible_path_can_be_asked_for() {
    let maze = generate_maze(9, 1, 30);
    check_structure(&maze.tokens);
    assert_eq!(maze.path_len, 30);
    assert_eq!(bfs_path_len(&maze.tokens), Some(30));
    let maze = generate_maze_hw(3, 5, 0, 2);
    assert_eq!(maze.path_len, 2);
}

#[test]
fn maze_tokens_are_flat_mazes() {
    let tokens = maze_tokens(7, 5, 9).unwrap();
    let maze = generate_maze_hw(5, 9, 7, 8);
    assert_eq!(tokens, flat(&maze.tokens).iter().map(|&v| v as u8).collect::<Vec<u8>>());
    for (h, w) in [(4, 5), (5, 4), (1, 5), (5, 1), (0, 0)] {
        let error = maze_tokens(7, h, w).err().unwrap();
        assert_eq!((error.height, error.width), (h, w));
    }
    assert_eq!(
        maze_tokens(0, 18, 19).err().unwrap().message(),
        "maze sizes must be odd and >= 3 (odd-index lattice); got 18x19"
    );
}

// ---- archives ----

fn archive() -> Npz {
    Npz::open(vec![
        NpzEntry {
            file_name: "x.npy".to_string(),
            shape: vec![2, 2],
            data: NpzData::Single(vec![1, 2, 3, 4]),
        },
        NpzEntry {
            file_name: "rho".to_string(),
            shape: vec![],
            data: NpzData::Single(vec![7]),
        },
        NpzEntry {
            file_name: "centers.npy".to_string(),
            shape: vec![1, 2],
            data: NpzData::Integer(vec![-3, 9]),
        },
        NpzEntry {
            file_name: "none.npy".to_string(),
            shape: vec![usize::MAX, 0, usize::MAX],
            data: NpzData::Integer(vec![]),
        },
    ])
    .unwrap()
}

#[test]
fn archives_are_read_by_name_and_type() {
    let npz = archive();
    assert_eq!(npz.names(), &["x", "rho", "centers", "none"]);
    let (shape, bits) = npz.f32_bits("x").unwrap();
    assert_eq!((shape.as_slice(), bits.as_slice()), (&[2, 2][..], &[1, 2, 3, 4][..]));
    assert_eq!(npz.f32_shaped("rho", &[]).unwrap(), &[7]);
    assert_eq!(npz.i64_shaped("centers", &[1, 2]).unwrap(), &[-3, 9]);
    assert!(matches!(npz.i64("x"), Err(NpzError::WrongType { .. })));
    assert!(matches!(npz.f32_bits("centers"), Err(NpzError::WrongType { .. })));
    assert!(matches!(npz.f32_bits("y"), Err(NpzError::Missing { .. })));
    assert!(matches!(npz.i64_shaped("centers", &[2, 1]), Err(NpzError::WrongShape { .. })));
    assert!(matches!(npz.f32_shaped("x", &[4]), Err(NpzError::WrongShape { .. })));
}

#[test]
fn archives_with_wrong_lengths_are_refused() {
    for (shape, len) in [(vec![2, 3], 5), (vec![usize::MAX, 2], 1), (vec![0], 1)] {
        let entry = NpzEntry {
            file_name: "bad.npy".to_string(),
            shape,
            data: NpzData::Integer(vec![0; len]),
        };
        match Npz::open(vec![entry]) {
            Err(NpzError::Malformed { name }) => assert_eq!(name, "bad"),
            _ => panic!("refusal expected"),
        }
    }
}

// ---- reports ----

fn floats(values: &[f32]) -> Vec<F> {
    values.iter().map(|&v| F(v)).collect()
}

fn compare(rep: &mut Report, got: &[f32], want: &[f32], tol: f32) -> Outcome<F> {
    let (g, w) = (floats(got), floats(want));
    let (gs, ws) = ([got.len()], [want.len()]);
    rep.check_f32(
        "probe",
        &Compared { shape: &gs, data: &g },
        &Compared { shape: &ws, data: &w },
        F(tol),
        F(tol),
    )
}

#[test]
fn comparisons_are_tallied() {
    let mut rep = Report::new();
    match compare(&mut rep, &[1.0, 2.0], &[1.0, 2.0], 0.0) {
        Outcome::Within { max_abs, max_rel } => assert_eq!((max_abs.0, max_rel.0), (0.0, 0.0)),
        _ => panic!("equal arrays pass"),
    }
    assert!(rep.all_passed());
    match compare(&mut rep, &[1.0, 2.5, 7.0], &[1.0, 2.0, 4.0], 0.125) {
        Outcome::Beyond { violations, worst, max_abs, max_rel } => {
            assert_eq!((violations, worst), (2, 2));
            assert_eq!((max_abs.0, max_rel.0), (3.0, 0.75));
        }
        _ => panic!("too far"),
    }
    assert!(matches!(
        compare(&mut rep, &[1.0, f32::NAN], &[9.0, 0.0], 1e9),
        Outcome::NotANumber { at: 1 }
    ));
    assert!(matches!(compare(&mut rep, &[1.0], &[1.0, 1.0], 1.0), Outcome::ShapeMismatch));
    assert_eq!(rep.checks, 4);
    assert_eq!(rep.failures, vec!["probe", "probe", "probe"]);
    assert!(!rep.all_passed());
}

#[test]
fn integers_are_compared_exactly() {
    let mut rep = Report::new();
    let shape = [2, 2];
    let a = [1i64, 2, 3, 4];
    let b = [1i64, 0, 3, 0];
    let one = Compared { shape: &shape, data: &a };
    let other = Compared { shape: &shape, data: &b };
    assert_eq!(rep.check_i64("same", &one, &one), ExactOutcome::Equal { count: 4 });
    assert_eq!(
        rep.check_i64("other", &other, &one),
        ExactOutcome::Different { violations: 2, first: 1 }
    );
    let flat_shape = [4];
    let flat = Compared { shape: &flat_shape, data: &a };
    assert_eq!(rep.check_i64("shape", &flat, &one), ExactOutcome::ShapeMismatch);
    assert_eq!(rep.failures, vec!["other", "shape"]);
}

#[test]
fn members_are_found_along_their_axes() {
    assert_eq!(index_of(23, &vec![2, 3, 4]), vec![1, 2, 3]);
    assert_eq!(index_of(5, &vec![2, 3, 4]), vec![0, 1, 1]);
    assert!(index_of(0, &vec![]).is_empty());
}

#[test]
fn row_means_are_summed_as_the_number_type_sums() {
    let member = |n: usize| 0.1f32 + n as f32 * 0.3;
    let a = Matrix::from_shape_fn(1, 21, |_, n| F(member(n)));
    let figure = render_coordination::<F, F>(&a, &a, None, None);
    let want = ndarray::Array1::from_iter((0..21).map(member)).sum() / 21.0;
    let norm = LogNorm::from_values(&floats(&[want, member(20)]));
    let y = figure.shapes.iter().find_map(|s| match s {
        Shape::Polyline { points, .. } => Some(points[0].1 .0),
        _ => None,
    });
    assert_eq!(y, Some(32.0 + 280.0 - norm.t(F(want)).0 * 280.0));
}

#[test]
fn tolerances_widen_a_hundredfold() {
    assert_eq!(iter_tol::<F>(0, 1).0, 1e-5);
    assert_eq!(iter_tol::<F>(0, 12).0, 1e-5);
    assert!((iter_tol::<F>(11, 12).0 - 1e-3).abs() < 1e-9);
    assert!((iter_tol::<F>(1, 3).0 - 1e-4).abs() < 1e-9);
}

// ---- summaries and terminal text ----

#[test]
fn summaries_list_every_fifth_and_the_last() {
    assert_eq!(summary_rows(12), vec![0, 5, 10, 11]);
    assert_eq!(summary_rows(11), vec![0, 5, 10]);
    assert!(summary_rows(0).is_empty());
    assert_eq!(key_frames(40), vec![0, 19, 39]);
    assert_eq!(key_frames(2), vec![0, 1]);
    assert_eq!(key_frames(1), vec![0]);
}

#[test]
fn run_measures_are_means_over_batch_and_agents() {
    let history = |primal: f32| AdmmHistory {
        x: vec![Tensor3::from_elem(2, 2, 1, F(0.0))],
        z: vec![Tensor3::from_elem(2, 2, 1, F(0.0))],
        y: vec![Tensor3::from_elem(2, 2, 1, F(0.0))],
        primal_res: vec![Matrix::from_elem(2, 2, F(primal))],
        dual_res: vec![Matrix::from_shape_fn(2, 2, |i, j| F((i * 2 + j) as f32))],
        consistency_rms: vec![floats(&[1.0, 3.0])],
    };
    let m = run_metrics(&history(2.0)).unwrap();
    assert_eq!(m.len(), 1);
    assert_eq!((m[0].consistency.0, m[0].primal.0), (2.0, 2.0));
    assert_eq!(m[0].dual.0, 3.5f32.sqrt());
    let (at, measures) = run_metrics(&history(f32::INFINITY)).err().unwrap();
    assert_eq!((at, measures.primal.0, measures.consistency.0), (0, f32::INFINITY, 2.0));
}

#[test]
fn peaks_are_the_last_of_the_largest() {
    let metrics = |c: &[f32]| -> Vec<IterationMetrics<F>> {
        c.iter()
            .map(|&v| IterationMetrics { consistency: F(v), primal: F(0.0), dual: F(0.0) })
            .collect()
    };
    let m = metrics(&[1.0, 3.0, 3.0, 2.0]);
    assert_eq!(peak_consistency(&m), 2);
    assert!(consistency_fell(&m));
    assert!(!consistency_fell(&metrics(&[1.0, 2.0])));
    assert!(consistency_fell(&metrics(&[1.0])));
}

#[test]
fn cells_are_coloured_by_class() {
    assert_eq!(cell(1, None), "\x1b[48;5;236m\x1b[38;5;250m  \x1b[0m");
    assert_eq!(cell(TOKEN_PATH, Some("S")), "\x1b[48;5;220m\x1b[38;5;232mS \x1b[0m");
    assert_eq!(cell(99, None), cell(0, None));
    let pred = grid(&[&[1, 5], &[2, 4]]);
    let tokens = grid(&[&[1, 3], &[2, 4]]);
    let rows = render_rows(&pred, &tokens);
    assert_eq!(rows.len(), 2);
    assert_eq!(rows[0], cell(1, None) + &cell(5, Some("S")));
    assert_eq!(rows[1], cell(2, None) + &cell(4, Some("G")));
}

#[test]
fn texts_are_written_and_tested() {
    assert_eq!(decimal_text(0), "0");
    assert_eq!(decimal_text(18_446_744_073), "18446744073");
    assert_eq!(escaped("a<b>&\"\u{e9}"), "a&lt;b&gt;&amp;\"\u{e9}");
    assert!(starts_with("params/x", "params/"));
    assert!(!starts_with("param", "params/"));
    assert!(!starts_with("ema_params/x", "params/"));
}

// ---- figures ----

#[test]
fn colormap_endpoints_and_interior() {
    let viridis = |t: f32| colormap(ColorMap::Viridis, F(t));
    let magma = |t: f32| colormap(ColorMap::Magma, F(t));
    assert_eq!(viridis(0.0), "#440154");
    assert_eq!(viridis(1.0), "#fde725");
    assert_eq!(magma(0.0), "#000004");
    assert_eq!(magma(1.0), "#fcfdbf");
    assert_eq!(viridis(-1.0), viridis(0.0));
    assert_eq!(viridis(2.0), viridis(1.0));
    assert_eq!(viridis(0.5), "#26828e");
}

#[test]
fn log_norm_floors_zeros_at_min_positive() {
    let norm = LogNorm::from_values(&floats(&[0.0, 1e-3, 1e-1, 10.0]));
    assert_eq!(norm.t(F(0.0)).0, 0.0);
    assert_eq!(norm.t(F(1e-3)).0, 0.0);
    assert_eq!(norm.t(F(10.0)).0, 1.0);
    let mid = norm.t(F(0.1)).0;
    assert!(mid > 0.0 && mid < 1.0);
    let ticks = norm.decade_ticks();
    assert_eq!(ticks.len(), 5);
    assert_eq!(ticks[0].1, -3);
    assert_eq!(ticks[4].1, 1);
}

#[test]
fn log_norm_without_positive_values() {
    let norm = LogNorm::from_values(&floats(&[0.0, -1.0]));
    assert_eq!(norm.vmin.0, 1e-12);
    assert!((norm.vmax.0 - 1e-11).abs() < 1e-17);
}

/// The two leading eigenvectors of a symmetric matrix, by repeated multiplication.
fn leading_pair(gram: &Matrix<F>) -> Vec<[f32; 2]> {
    let d = gram.nrows();
    let mut a: Vec<Vec<f64>> =
        (0..d).map(|i| (0..d).map(|j| gram.get(i, j).0 as f64).collect()).collect();
    let mut out = vec![[0.0f32; 2]; d];
    for c in 0..2 {
        let mut v: Vec<f64> = (0..d).map(|i| 1.0 + 0.37 * i as f64).collect();
        let mut length = 0.0;
        for _ in 0..500 {
            let w: Vec<f64> =
                (0..d).map(|i| (0..d).map(|j| a[i][j] * v[j]).sum::<f64>()).collect();
            length = w.iter().map(|x| x * x).sum::<f64>().sqrt();
            v = w.iter().map(|x| x / length).collect();
        }
        for i in 0..d {
            out[i][c] = v[i] as f32;
            for j in 0..d {
                a[i][j] -= length * v[i] * v[j];
            }
        }
    }
    out
}

#[test]
fn pca_recovers_a_planar_embedding() {
    let (k, n, d) = (6, 4, 5);
    let embed = |u: f32, v: f32| [u + 0.5 * v, -u + v, 2.0 * u, 0.3 * v, u - 0.7 * v];
    let x = Tensor3::from_shape_fn(k, n, d, |ki, ni, di| F(embed(ki as f32, ni as f32)[di]));
    let z = Tensor3::from_shape_fn(k, n, d, |ki, ni, di| {
        F(embed(ki as f32 + 0.25, ni as f32 - 0.25)[di])
    });
    let (mean, gram): (Vec<F>, Matrix<F>) = principal_inputs(&x, &z);
    let pair = leading_pair(&gram);
    let basis = Basis { mean, components: Matrix::from_shape_fn(d, 2, |i, c| F(pair[i][c])) };
    let (x2, z2) = project_xz(&x, &z, Some(&basis));
    assert_eq!(x2.dim(), (k, n, 2));
    let dist = |a: &Tensor3<F>, i: (usize, usize), b: &Tensor3<F>, j: (usize, usize), d: usize| {
        (0..d)
            .map(|c| (a.get(i.0, i.1, c).0 - b.get(j.0, j.1, c).0).powi(2))
            .sum::<f32>()
            .sqrt()
    };
    for (i, j) in [((0, 0), (5, 3)), ((2, 1), (3, 2)), ((1, 3), (4, 0))] {
        let want = dist(&x, i, &x, j, d);
        let got = dist(&x2, i, &x2, j, 2);
        assert!((want - got).abs() < 1e-3 * want.max(1.0), "{want} vs {got}");
        let want = dist(&x, i, &z, j, d);
        let got = dist(&x2, i, &z2, j, 2);
        assert!((want - got).abs() < 1e-3 * want.max(1.0), "{want} vs {got}");
    }
}

#[test]
fn low_dimensions_are_not_projected() {
    let one = Tensor3::from_shape_fn(2, 1, 1, |k, _, _| F(k as f32));
    let (x2, _) = project_xz(&one, &one, None);
    assert_eq!((x2.get(1, 0, 0).0, x2.get(1, 0, 1).0), (1.0, 0.0));
    let two = Tensor3::from_shape_fn(2, 1, 2, |k, _, c| F((k * 2 + c) as f32));
    let (x2, _) = project_xz(&two, &two, None);
    assert_eq!((x2.get(1, 0, 0).0, x2.get(1, 0, 1).0), (2.0, 3.0));
}

#[test]
fn grid_layout_uses_centers_when_present() {
    let centers = grid(&[&[9, 4], &[1, 4], &[1, 0], &[9, 0], &[1, 8], &[9, 8]]);
    let (nrows, ncols, slots) = grid_layout(6, Some(&centers));
    assert_eq!((nrows, ncols), (2, 3));
    assert_eq!(slots, vec![(1, 1), (0, 1), (0, 0), (1, 0), (0, 2), (1, 2)]);
    let (nrows, ncols, slots) = grid_layout(5, None);
    assert_eq!((nrows, ncols), (2, 3));
    assert_eq!(slots[4], (1, 1));
    for (n, cols) in [(1, 1), (2, 2), (4, 2), (9, 3), (10, 4), (81, 9)] {
        assert_eq!(grid_layout(n, None).1, cols);
    }
}

fn labels<'a>(shapes: &'a [Shape<F>]) -> Vec<&'a str> {
    shapes
        .iter()
        .filter_map(|s| match s {
            Shape::Text { text, .. } => Some(text.as_str()),
            _ => None,
        })
        .collect()
}

#[test]
fn coordination_figure_has_its_panels() {
    let primal = Matrix::from_shape_fn(7, 3, |k, n| F(1.0 / ((k + 1) * (n + 1)) as f32));
    let dual = Matrix::from_elem(7, 3, F(0.5));
    let cons = floats(&[1.0; 7]);
    let figure = render_coordination::<F, F>(&primal, &dual, Some(&cons), Some("title"));
    assert_eq!((figure.width.0, figure.height.0), (1320.0, 376.0));
    let rects = figure.shapes.iter().filter(|s| matches!(s, Shape::Rect { .. })).count();
    assert_eq!(rects, 1 + 2 * (7 * 3 + 64));
    let lines = figure.shapes.iter().filter(|s| matches!(s, Shape::Polyline { .. })).count();
    assert_eq!(lines, 5);
    let names = labels(&figure.shapes);
    assert_eq!(names[0], "title");
    assert!(names.contains(&"convergence") && names.contains(&"consistency RMS"));
    // Every second of seven iterations has a tick.
    assert_eq!(names.iter().filter(|&&t| t == "7").count(), 3);
    assert!(!names.contains(&"6"));
    match &figure.shapes[2] {
        Shape::Rect { x, y, w, h, fill } => {
            assert_eq!(x.0, 58.0);
            assert_eq!(y.0, 52.0 + 280.0 - 280.0 / 3.0);
            assert_eq!((w.0, h.0), (330.0 / 7.0 + 0.5, 280.0 / 3.0 + 0.5));
            assert_eq!(fill, "#fde725");
        }
        _ => panic!("a cell follows the title"),
    }
    let bare = render_coordination::<F, F>(&primal, &dual, None, None);
    assert_eq!(bare.height.0, 356.0);
    assert_eq!(bare.shapes.iter().filter(|s| matches!(s, Shape::Polyline { .. })).count(), 4);
}

#[test]
fn portraits_share_their_limits() {
    let x = Tensor3::from_shape_fn(3, 2, 2, |k, n, c| F((k + n + c) as f32));
    let z = Tensor3::from_shape_fn(3, 2, 2, |k, _, _| F(k as f32));
    let figure = render_xz::<F, F>(&x, &z, None, None);
    assert_eq!(figure.width.0, 2.0 * 14.0 + 2.0 * 62.0 + 6.0);
    assert_eq!(figure.height.0, 20.0 + 78.0 - 16.0 + 30.0);
    let circles = figure.shapes.iter().filter(|s| matches!(s, Shape::Circle { .. })).count();
    assert_eq!(circles, 2 * (2 * 3 + 2) + 2);
    let names = labels(&figure.shapes);
    assert_eq!(names, vec!["agent 0", "agent 1", "x (local)", "z (consensus)"]);
    match &figure.shapes[3] {
        Shape::Polyline { points, .. } => {
            // The least x is 0 and the greatest 3, padded by a twentieth of their distance.
            assert_eq!(points.len(), 3);
            assert!((points[0].0 .0 - (14.0 + 62.0 * 0.15 / 3.3)).abs() < 1e-3);
        }
        _ => panic!("the first path"),
    }
    // Long runs are drawn without dots.
    let long = Tensor3::from_elem(41, 1, 2, F(1.0));
    let figure = render_xz::<F, F>(&long, &long, None, Some("t"));
    assert_eq!(figure.shapes.iter().filter(|s| matches!(s, Shape::Circle { .. })).count(), 2 + 2);
}

// ---- examples of recorded runs ----

fn member(name: &str, shape: &[usize]) -> NpzEntry {
    let count: usize = shape.iter().product();
    let data = NpzData::Single((0..count).map(|i| (i as f32).to_bits()).collect());
    NpzEntry { file_name: format!("{name}.npy"), shape: shape.to_vec(), data }
}

fn run_archive() -> Vec<NpzEntry> {
    vec![
        member("x", &[2, 3, 4, 5]),
        member("z", &[2, 3, 4, 5]),
        member("primal_res", &[2, 3, 4]),
        member("dual_res", &[2, 3, 4]),
    ]
}

fn taken(entries: Vec<NpzEntry>, batch: usize) -> Result<sheaf::figures::RunHistory<F>, HistoryError> {
    select_history(&Npz::open(entries).unwrap(), batch)
}

#[test]
fn one_example_is_taken_from_an_archive() {
    let mut entries = run_archive();
    entries.push(member("consistency", &[2, 4]));
    entries.push(NpzEntry {
        file_name: "centers.npy".to_string(),
        shape: vec![3, 2],
        data: NpzData::Integer(vec![1, 1, 1, 3, 3, 1]),
    });
    let h = taken(entries, 2).unwrap();
    assert_eq!(h.batch_size, 4);
    assert_eq!(h.x.dim(), (2, 3, 5));
    assert_eq!(h.x.get(1, 2, 4).0, (((1 * 3 + 2) * 4 + 2) * 5 + 4) as f32);
    assert_eq!(h.primal.get(1, 0).0, ((1 * 3 + 0) * 4 + 2) as f32);
    assert_eq!(h.dual.get(0, 2).0, (2 * 4 + 2) as f32);
    assert_eq!(h.consistency.unwrap(), floats(&[2.0, 6.0]));
    assert_eq!(center_list(&h.centers.unwrap()), vec![(1, 1), (1, 3), (3, 1)]);
    let bare = taken(run_archive(), 0).unwrap();
    assert!(bare.consistency.is_none() && bare.centers.is_none());
}

#[test]
fn unfit_archives_are_refused() {
    assert!(matches!(
        taken(run_archive(), 4),
        Err(HistoryError::BatchOutOfRange { batch: 4, size: 4 })
    ));
    for lost in 0..4 {
        let mut entries = run_archive();
        let name = ["x", "z", "primal_res", "dual_res"][lost];
        entries.remove(lost);
        match taken(entries, 0) {
            Err(HistoryError::Array { error: NpzError::Missing { name: n } }) => assert_eq!(n, name),
            _ => panic!("{name} is missing"),
        }
    }
    let mut entries = run_archive();
    entries[0] = member("x", &[2, 3, 4]);
    assert!(matches!(
        taken(entries, 0),
        Err(HistoryError::Array { error: NpzError::WrongShape { .. } })
    ));
    for (at, entry) in [
        (1, member("z", &[2, 3, 4, 6])),
        (2, member("primal_res", &[2, 4, 3])),
        (3, member("dual_res", &[1, 3, 4])),
    ] {
        let mut entries = run_archive();
        entries[at] = entry;
        assert!(matches!(taken(entries, 0), Err(HistoryError::Mismatch { .. })));
    }
    let mut entries = run_archive();
    entries.push(member("consistency", &[4, 2]));
    match taken(entries, 0) {
        Err(HistoryError::Mismatch { name, found, wanted }) => {
            assert_eq!((name.as_str(), found, wanted), ("consistency", vec![4, 2], vec![2, 4]));
        }
        _ => panic!("extents differ"),
    }
    let mut entries = run_archive();
    entries.push(member("centers", &[3, 2]));
    assert!(matches!(
        taken(entries, 0),
        Err(HistoryError::Array { error: NpzError::WrongType { .. } })
    ));
}

// ---- markup ----

fn t(text: &str) -> String {
    text.to_string()
}

#[test]
fn shapes_are_written_as_markup() {
    let rect = Shape::Rect { x: t("0"), y: t("1"), w: t("2"), h: t("3"), fill: t("white") };
    assert_eq!(
        element(&rect),
        "<rect x=\"0\" y=\"1\" width=\"2\" height=\"3\" fill=\"white\"/>\n"
    );
    let frame = Shape::Frame { x: t("0"), y: t("1"), w: t("2"), h: t("3"), stroke: t("red") };
    assert_eq!(
        element(&frame),
        "<rect x=\"0\" y=\"1\" width=\"2\" height=\"3\" fill=\"none\" stroke=\"red\" stroke-width=\"0.8\"/>\n"
    );
    let line = |dash: &str| Shape::Line {
        x1: t("1"),
        y1: t("2"),
        x2: t("3"),
        y2: t("4"),
        stroke: t("red"),
        width: t("0.7"),
        dash: t(dash),
    };
    let stem = "<line x1=\"1\" y1=\"2\" x2=\"3\" y2=\"4\" stroke=\"red\" stroke-width=\"0.7\"";
    assert_eq!(element(&line("")), format!("{stem}/>\n"));
    assert_eq!(element(&line("4 3")), format!("{stem} stroke-dasharray=\"4 3\"/>\n"));
    let path = Shape::Polyline {
        points: vec![(t("1"), t("2")), (t("3"), t("4"))],
        stroke: t("red"),
        width: t("1.4"),
        dash: t(""),
        opacity: t("1"),
    };
    assert_eq!(
        element(&path),
        "<polyline points=\"1,2 3,4\" fill=\"none\" stroke=\"red\" stroke-width=\"1.4\" stroke-opacity=\"1\"/>\n"
    );
    let dot = |stroke: &str| Shape::Circle {
        cx: t("1"),
        cy: t("2"),
        r: t("3"),
        fill: t("none"),
        stroke: t(stroke),
    };
    let stem = "<circle cx=\"1\" cy=\"2\" r=\"3\" fill=\"none\"";
    assert_eq!(element(&dot("")), format!("{stem}/>\n"));
    assert_eq!(element(&dot("red")), format!("{stem} stroke=\"red\" stroke-width=\"1\"/>\n"));
    let label = |rotate: &str| Shape::Text {
        x: t("1"),
        y: t("2"),
        size: t("9"),
        anchor: t("end"),
        fill: t("red"),
        rotate: t(rotate),
        text: t("a<b"),
    };
    let stem = "<text x=\"1\" y=\"2\" font-family=\"Helvetica, Arial, sans-serif\" font-size=\"9\" text-anchor=\"end\" fill=\"red\"";
    assert_eq!(element(&label("")), format!("{stem}>a&lt;b</text>\n"));
    assert_eq!(
        element(&label("-90")),
        format!("{stem} transform=\"rotate(-90 1 2)\">a&lt;b</text>\n")
    );
    assert_eq!(
        drawing("5", "6", &vec![dot(""), rect]),
        format!(
            "<svg xmlns=\"http://www.w3.org/2000/svg\" width=\"5\" height=\"6\" viewBox=\"0 0 5 6\">\n{}{}</svg>\n",
            "<circle cx=\"1\" cy=\"2\" r=\"3\" fill=\"none\"/>\n",
            "<rect x=\"0\" y=\"1\" width=\"2\" height=\"3\" fill=\"white\"/>\n"
        )
    );
}
