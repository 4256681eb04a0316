//! A recorded run on a batch of mazes, as a terminal shows it: the decoded grid of the first
//! maze and the measures of every iteration.
use crate::admm::{distances, weighted_distances, Problem};
use crate::geometry::consistency_of;
use crate::metrics::{mean_of, metrics_of, rms_of_all, run_metrics, IterationMetrics};
use crate::model::SheafAdmmModel;
use crate::readout::{argmax_grid, classes_of};
use crate::scalar::Scalar;
use crate::scene::{config_runs, grid_fits, prepare_scene, scene_is_runnable, scene_of, weights_fit};
use crate::tensor::{Arr2, Arr3, Matrix, Tensor3};
use crate::views::{reassemble_logits, reassembled};
use vstd::prelude::*;

verus! {

/// What a run leaves to be shown.
#[derive(Debug)]
pub struct MazeRun<S> {
    pub agents: usize,
    pub edges: usize,
    /// The decoded grid of the first maze, for each iteration.
    pub frames: Vec<Matrix<i64>>,
    pub metrics: Vec<IterationMetrics<S>>,
}

/// The measures of iteration `i` of a problem: means over the whole batch.
pub open spec fn batch_measures<S: Scalar>(problem: Problem<S>, seed: Arr3<S>, i: int) -> IterationMetrics<S> {
    let before = problem.iterate(seed, i as nat);
    let after = problem.iterate(seed, (i + 1) as nat);
    IterationMetrics {
        consistency: mean_of(consistency_of(problem.ops.residuals_of(after.z))),
        primal: rms_of_all(distances(problem.relaxed(before), after.z)),
        dual: rms_of_all(weighted_distances(problem.rho, after.z, before.z)),
    }
}

/// The measures of iteration `i` of a run on these mazes.
pub open spec fn run_measures<S: Scalar>(model: &SheafAdmmModel<S>, tokens: Arr3<i64>, i: int) -> IterationMetrics<S> {
    let scene = scene_of(&model.config, tokens);
    batch_measures(model.problem(scene.graph, scene.patches), model.seed(scene.patches), i)
}

/// The decoded grid of the first maze after iteration `i`.
pub open spec fn run_frame<S: Scalar>(model: &SheafAdmmModel<S>, tokens: Arr3<i64>, i: int) -> Arr2<i64> {
    let scene = scene_of(&model.config, tokens);
    let problem = model.problem(scene.graph, scene.patches);
    let x = problem.iterate(model.seed(scene.patches), (i + 1) as nat).x;
    classes_of(
        reassembled(
            model.decoder.logits_of(x, scene.patches),
            scene.centers,
            model.config.task.patch_size as int,
            model.config.model.num_classes as nat,
            0,
            tokens.b,
            tokens.d,
        ),
        model.config.task.num_classes as nat,
    )
}

/// Runs `k` iterations on a batch of mazes and decodes the first maze after each of them; the
/// first iteration with a measure that is not finite, and its measures, where there is one.
pub fn run_mazes<S: Scalar>(model: &SheafAdmmModel<S>, tokens: &Tensor3<i64>, k: usize) -> (r: Result<
    MazeRun<S>,
    (usize, IterationMetrics<S>),
>)
    requires
        tokens.wf(),
        tokens@.n > 0,
        weights_fit(model),
        config_runs(&model.config),
        grid_fits(&model.config, tokens@.b as int, tokens@.d as int),
        model.config.task.num_classes <= model.config.model.num_classes,
        tokens@.n * (tokens@.b * tokens@.d) <= usize::MAX,
    ensures
        match r {
            Ok(run) => {
                let scene = scene_of(&model.config, tokens@);
                &&& run.agents == scene.centers.rows
                &&& run.edges == scene.graph.edges.len()
                &&& run.frames@.len() == k
                &&& run.metrics@.len() == k
                &&& forall|i: int| 0 <= i < k ==> (#[trigger] run.frames@[i])@ == run_frame(model, tokens@, i)
                &&& forall|i: int|
                    0 <= i < k ==> #[trigger] run.metrics@[i] == run_measures(model, tokens@, i)
                        && run.metrics@[i].finite()
            },
            Err((at, measures)) => {
                &&& at < k
                &&& measures == run_measures(model, tokens@, at as int)
                &&& !measures.finite()
                &&& forall|i: int| 0 <= i < at ==> (#[trigger] run_measures(model, tokens@, i)).finite()
            },
        },
{
    let t = &model.config.task;
    let (_b, h, w) = tokens.dim();
    let scene = prepare_scene(&model.config, tokens);
    proof {
        scene_is_runnable(model, scene, tokens@, k);
    }
    let fwd = model.forward(&scene.patches, scene.graph.clone(), k);
    let ghost problem = model.problem(scene@.graph, scene@.patches);
    let ghost seed = model.seed(scene@.patches);
    proof {
        let n = scene@.centers.rows;
        let b = tokens@.n;
        let cells = tokens@.b * tokens@.d;
        assert(n * b <= usize::MAX) by (nonlinear_arith)
            requires
                0 <= n <= cells,
                0 <= b,
                b * cells <= usize::MAX,
        ;
        assert forall|i: int| 0 <= i < k implies (#[trigger] fwd.history.primal_res@[i])@.has_shape(n, b) by {
            assert(fwd.history.records_step(problem, seed, i));
        }
        assert forall|i: int| 0 <= i < k implies (#[trigger] fwd.history.dual_res@[i])@.has_shape(n, b) by {
            assert(fwd.history.records_step(problem, seed, i));
        }
        assert forall|i: int| 0 <= i < k implies #[trigger] metrics_of(&fwd.history, i) == run_measures(
            model,
            tokens@,
            i,
        ) by {
            assert(fwd.history.records_step(problem, seed, i));
        }
    }
    let metrics = match run_metrics(&fwd.history) {
        Ok(metrics) => metrics,
        Err((at, measures)) => {
            assert(metrics_of(&fwd.history, at as int) == run_measures(model, tokens@, at as int));
            assert forall|i: int| 0 <= i < at implies (#[trigger] run_measures(model, tokens@, i)).finite() by {
                assert(metrics_of(&fwd.history, i).finite());
            }
            return Err((at, measures));
        },
    };
    let mut frames: Vec<Matrix<i64>> = Vec::new();
    for i in 0..k
        invariant
            h == tokens@.b,
            w == tokens@.d,
            t == &model.config.task,
            tokens@.n > 0,
            weights_fit(model),
            grid_fits(&model.config, tokens@.b as int, tokens@.d as int),
            t.num_classes <= model.config.model.num_classes,
            scene.wf(tokens@.b as int, tokens@.d as int),
            scene@ == scene_of(&model.config, tokens@),
            scene@.patches.b == tokens@.n,
            problem == model.problem(scene@.graph, scene@.patches),
            seed == model.seed(scene@.patches),
            fwd.history.records(problem, seed, k as nat),
            fwd.logits_per_iter@.len() == k,
            seed.n == scene@.centers.rows,
            seed.b == tokens@.n,
            forall|i: int|
                0 <= i < k ==> (#[trigger] fwd.logits_per_iter@[i])@ == model.decoder.logits_of(
                    fwd.history.x@[i]@,
                    scene@.patches,
                ) && fwd.logits_per_iter@[i].wf(),
            frames@.len() == i,
            forall|j: int| 0 <= j < i ==> (#[trigger] frames@[j])@ == run_frame(model, tokens@, j),
    {
        assert(fwd.history.records_step(problem, seed, i as int));
        assert(fwd.logits_per_iter@[i as int].wf());
        let grids = reassemble_logits(
            &fwd.logits_per_iter[i],
            &scene.centers,
            t.patch_size,
            model.config.model.num_classes,
            (h, w),
        );
        frames.push(argmax_grid(&grids[0], t.num_classes));
    }
    proof {
        assert forall|i: int| 0 <= i < k implies #[trigger] metrics@[i] == run_measures(model, tokens@, i) by {
            assert(metrics@[i] == metrics_of(&fwd.history, i));
            assert(fwd.history.records_step(problem, seed, i));
        }
    }
    Ok(MazeRun { agents: scene.centers.nrows(), edges: scene.graph.num_edges(), frames, metrics })
}

} // verus!
