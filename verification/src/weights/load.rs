//! Loaders: from a configuration and the bytes of a container to a model.
use super::container::{
    by_name, container_contents, names_distinct, offsets_are_countable, offsets_countable, read_container,
    RawTensor, TensorModel,
};
use super::manifest::{
    expected_keys, listing, lists, lists_with_directions, lists_with_key, maze_countable, maze_dims,
    maze_dims_of, maze_encoder_keys, maze_keys, with_dense, with_rms_norm, ManifestEntry, MazeDims,
};
use super::tree::{Source, Tree};
use super::{WeightCollection, WeightsError};
use crate::config::ExportedConfig;
use crate::decoder::{ConcatMlpDecoderV2, ConcatMlpDecoderV2Params};
use crate::encoder::{MlpEncoderV2, MlpEncoderV2Config, MlpEncoderV2Params};
use crate::model::{RmParams, SheafAdmmModel};
use crate::restriction_maps::{compass, direction_names};
use crate::scalar::Scalar;
use crate::tensor::Matrix;
use crate::text::{begins_with, joined, starts_with, text_is};
use vstd::prelude::*;

verus! {

/// The first of several fields that does not hold what the loader wants, as field name and
/// found text.
pub open spec fn first_mismatch(checks: Seq<(Seq<char>, Seq<char>, Seq<char>)>) -> Option<(Seq<char>, Seq<char>)>
    decreases checks.len(),
{
    if checks.len() == 0 {
        None
    } else if checks[0].1 != checks[0].2 {
        Some((checks[0].0, checks[0].1))
    } else {
        first_mismatch(checks.skip(1))
    }
}

/// The error reports this mismatch.
pub open spec fn reports_mismatch(error: WeightsError, mismatch: Option<(Seq<char>, Seq<char>)>) -> bool {
    match error {
        WeightsError::Unsupported { field, found } => mismatch == Some((field@, found@)),
        _ => false,
    }
}

/// What the maze loader asks of a configuration, in the order of its tests: field, found
/// text, wanted text.
pub open spec fn maze_scope<S>(config: &ExportedConfig<S>) -> Seq<(Seq<char>, Seq<char>, Seq<char>)> {
    let m = &config.model;
    seq![
        ("encoder_arch"@, m.encoder_arch@, "mlp_v2"@),
        ("decoder_arch"@, m.decoder_arch@, "mlp_concat_v2"@),
        ("rm_sharing"@, m.rm_sharing@, "directional"@),
        ("objective_mode"@, m.objective_mode@, "l1box_diag"@),
        ("task"@, config.task.task@, "maze"@),
    ]
}

/// What the mnist loader asks of a configuration.
pub open spec fn mnist_scope<S>(config: &ExportedConfig<S>) -> Seq<(Seq<char>, Seq<char>, Seq<char>)> {
    let m = &config.model;
    seq![
        ("encoder_arch"@, m.encoder_arch@, "mlp"@),
        ("decoder_arch"@, m.decoder_arch@, "classification"@),
        ("rm_sharing"@, m.rm_sharing@, "global"@),
        ("objective_mode"@, m.objective_mode@, "lasso"@),
        ("task"@, config.task.task@, "mnist"@),
    ]
}

/// What the sudoku loader asks of a configuration.
pub open spec fn sudoku_scope<S>(config: &ExportedConfig<S>) -> Seq<(Seq<char>, Seq<char>, Seq<char>)> {
    let m = &config.model;
    seq![
        ("encoder_arch"@, m.encoder_arch@, "sudoku"@),
        ("decoder_arch"@, m.decoder_arch@, "sudoku"@),
        ("rm_sharing"@, m.rm_sharing@, "sudoku"@),
        ("rm_init"@, m.rm_init@, "soft_slice"@),
        ("objective_mode"@, m.objective_mode@, "non_negative"@),
        ("task"@, config.task.task@, "sudoku"@),
    ]
}

/// One field that a loader looks at.
struct ScopeCheck<'a> {
    field: &'a str,
    found: &'a String,
    wanted: &'a str,
}

/// The names, found texts and wanted texts of a list of checks.
spec fn checks_view(checks: Seq<ScopeCheck>) -> Seq<(Seq<char>, Seq<char>, Seq<char>)> {
    checks.map_values(|c: ScopeCheck| (c.field@, c.found@, c.wanted@))
}

proof fn no_mismatch_upto(checks: Seq<(Seq<char>, Seq<char>, Seq<char>)>, n: int)
    requires
        0 <= n <= checks.len(),
        forall|i: int| 0 <= i < n ==> (#[trigger] checks[i]).1 == checks[i].2,
    ensures
        first_mismatch(checks) == first_mismatch(checks.skip(n)),
    decreases checks.len(),
{
    if n == 0 {
        assert(checks.skip(0) =~= checks);
    } else {
        let rest = checks.skip(1);
        assert(checks[0].1 == checks[0].2);
        assert forall|i: int| 0 <= i < n - 1 implies (#[trigger] rest[i]).1 == rest[i].2 by {
            assert(rest[i] == checks[i + 1]);
        }
        no_mismatch_upto(rest, n - 1);
        assert(rest.skip(n - 1) =~= checks.skip(n));
    }
}

fn check_scope(checks: &Vec<ScopeCheck>) -> (r: Result<(), WeightsError>)
    ensures
        match r {
            Ok(_) => first_mismatch(checks_view(checks@)) is None,
            Err(error) => {
                &&& first_mismatch(checks_view(checks@)) is Some
                &&& reports_mismatch(error, first_mismatch(checks_view(checks@)))
            },
        },
{
    let ghost all = checks_view(checks@);
    for i in 0..checks.len()
        invariant
            all == checks_view(checks@),
            forall|j: int| 0 <= j < i ==> (#[trigger] all[j]).1 == all[j].2,
    {
        let check = &checks[i];
        assert(all[i as int] == (check.field@, check.found@, check.wanted@));
        if !text_is(check.found, check.wanted) {
            proof {
                no_mismatch_upto(all, i as int);
                assert(all.skip(i as int)[0] == all[i as int]);
            }
            return Err(
                WeightsError::Unsupported { field: check.field.to_owned(), found: check.found.clone() },
            );
        }
    }
    proof {
        no_mismatch_upto(all, all.len() as int);
    }
    Ok(())
}

/// Refuses configurations that the maze loader does not understand.
pub fn maze_scope_guards<S: Scalar>(config: &ExportedConfig<S>) -> (r: Result<(), WeightsError>)
    ensures
        match r {
            Ok(_) => first_mismatch(maze_scope(config)) is None,
            Err(error) => first_mismatch(maze_scope(config)) is Some && reports_mismatch(
                error,
                first_mismatch(maze_scope(config)),
            ),
        },
{
    let m = &config.model;
    let checks = vec![
        ScopeCheck { field: "encoder_arch", found: &m.encoder_arch, wanted: "mlp_v2" },
        ScopeCheck { field: "decoder_arch", found: &m.decoder_arch, wanted: "mlp_concat_v2" },
        ScopeCheck { field: "rm_sharing", found: &m.rm_sharing, wanted: "directional" },
        ScopeCheck { field: "objective_mode", found: &m.objective_mode, wanted: "l1box_diag" },
        ScopeCheck { field: "task", found: &config.task.task, wanted: "maze" },
    ];
    assert(checks_view(checks@) =~= maze_scope(config));
    check_scope(&checks)
}

/// Refuses configurations that the mnist loader does not understand.
pub fn mnist_scope_guards<S: Scalar>(config: &ExportedConfig<S>) -> (r: Result<(), WeightsError>)
    ensures
        match r {
            Ok(_) => first_mismatch(mnist_scope(config)) is None,
            Err(error) => first_mismatch(mnist_scope(config)) is Some && reports_mismatch(
                error,
                first_mismatch(mnist_scope(config)),
            ),
        },
{
    let m = &config.model;
    let checks = vec![
        ScopeCheck { field: "encoder_arch", found: &m.encoder_arch, wanted: "mlp" },
        ScopeCheck { field: "decoder_arch", found: &m.decoder_arch, wanted: "classification" },
        ScopeCheck { field: "rm_sharing", found: &m.rm_sharing, wanted: "global" },
        ScopeCheck { field: "objective_mode", found: &m.objective_mode, wanted: "lasso" },
        ScopeCheck { field: "task", found: &config.task.task, wanted: "mnist" },
    ];
    assert(checks_view(checks@) =~= mnist_scope(config));
    check_scope(&checks)
}

/// Refuses configurations that the sudoku loader does not understand.
pub fn sudoku_scope_guards<S: Scalar>(config: &ExportedConfig<S>) -> (r: Result<(), WeightsError>)
    ensures
        match r {
            Ok(_) => first_mismatch(sudoku_scope(config)) is None,
            Err(error) => first_mismatch(sudoku_scope(config)) is Some && reports_mismatch(
                error,
                first_mismatch(sudoku_scope(config)),
            ),
        },
{
    let m = &config.model;
    let checks = vec![
        ScopeCheck { field: "encoder_arch", found: &m.encoder_arch, wanted: "sudoku" },
        ScopeCheck { field: "decoder_arch", found: &m.decoder_arch, wanted: "sudoku" },
        ScopeCheck { field: "rm_sharing", found: &m.rm_sharing, wanted: "sudoku" },
        ScopeCheck { field: "rm_init", found: &m.rm_init, wanted: "soft_slice" },
        ScopeCheck { field: "objective_mode", found: &m.objective_mode, wanted: "non_negative" },
        ScopeCheck { field: "task", found: &config.task.task, wanted: "sudoku" },
    ];
    assert(checks_view(checks@) =~= sudoku_scope(config));
    check_scope(&checks)
}

/// The collection of this kind among stored tensors.
pub open spec fn source_of(tensors: Map<Seq<char>, TensorModel>, collection: WeightCollection) -> Source {
    Source { tensors, prefix: collection.spec_prefix() }
}

/// A tensor that belongs to neither collection is among the stored ones.
pub open spec fn foreign(name: Seq<char>) -> bool {
    !begins_with(name, "params/"@) && !begins_with(name, "ema_params/"@)
}

/// Every stored tensor belongs to one of the two collections.
pub open spec fn only_collections(tensors: Map<Seq<char>, TensorModel>) -> bool {
    forall|name: Seq<char>| #[trigger] tensors.dom().contains(name) ==> !foreign(name)
}

/// Looks for a tensor that belongs to neither collection.
fn check_foreign(tensors: &Vec<RawTensor>) -> (r: Result<(), WeightsError>)
    requires
        names_distinct(tensors@),
    ensures
        match r {
            Ok(_) => only_collections(by_name(tensors@)),
            Err(WeightsError::ForeignKey { name }) => by_name(tensors@).dom().contains(name@) && foreign(name@),
            Err(_) => false,
        },
{
    for t in 0..tensors.len()
        invariant
            names_distinct(tensors@),
            forall|j: int| 0 <= j < t ==> !foreign(#[trigger] tensors@[j].name@),
    {
        let name = &tensors[t].name;
        if !starts_with(name.as_str(), "params/") && !starts_with(name.as_str(), "ema_params/") {
            proof {
                super::container::by_name_holds(tensors@, t as int);
            }
            return Err(WeightsError::ForeignKey { name: name.clone() });
        }
    }
    assert forall|name: Seq<char>| #[trigger] by_name(tensors@).dom().contains(name) implies !foreign(name) by {
        let j = choose|j: int| 0 <= j < tensors@.len() && #[trigger] tensors@[j].name@ == name;
        assert(!foreign(tensors@[j].name@));
    }
    Ok(())
}

/// The maze weights are those of the collection, and the rest is taken from the
/// configuration.
pub open spec fn maze_model_is<S: Scalar>(model: SheafAdmmModel<S>, config: ExportedConfig<S>, source: Source) -> bool {
    let d = maze_dims_of(&config);
    let m = &config.model;
    let p = &model.encoder.params;
    let c = &model.encoder.config;
    let q = &model.decoder.params;
    &&& model.config == config
    &&& model.rho == config.baked.rho
    &&& source.rms_norm_is(p.input_norm, "MLPEncoderV2_0/input_norm"@, d.in_feats)
    &&& source.dense_is(p.dense, "MLPEncoderV2_0/dense"@, d.in_feats, d.enc_h)
    &&& source.dense_is(p.comm_dense, "MLPEncoderV2_0/comm_head/comm_dense"@, d.enc_h, d.d_v)
    &&& source.layer_norm_is(p.comm_norm, "MLPEncoderV2_0/comm_head/comm_norm"@, d.d_v)
    &&& source.dense_is(p.q_diag_dense, "MLPEncoderV2_0/objective_heads/q_diag_dense"@, d.enc_h, d.d_v)
    &&& source.dense_is(p.q_dense, "MLPEncoderV2_0/objective_heads/q_dense"@, d.enc_h, d.d_v)
    &&& source.dense_is(
        p.l1_weight_dense,
        "MLPEncoderV2_0/objective_heads/l1_weight_dense"@,
        d.enc_h,
        d.d_v,
    )
    &&& source.dense_is(
        p.upper_bound_dense,
        "MLPEncoderV2_0/objective_heads/upper_bound_dense"@,
        d.enc_h,
        d.d_v,
    )
    &&& source.layer_norm_is(p.lora_pre_ln, "MLPEncoderV2_0/lora_pre_ln"@, d.enc_h)
    &&& source.dense_is(p.lora_a_dense, "MLPEncoderV2_0/lora_A_dense"@, d.enc_h, d.lora_a_out)
    &&& source.dense_is(p.lora_b_dense, "MLPEncoderV2_0/lora_B_dense"@, d.enc_h, d.lora_b_out)
    &&& c.d_v == m.d_v
    &&& c.d_e == m.d_e
    &&& c.num_directions == m.num_directions
    &&& c.lora_rank == m.lora_rank
    &&& c.lora_alpha == m.lora_alpha
    &&& c.q_epsilon == m.q_epsilon
    &&& source.rms_norm_is(q.input_norm, "ConcatMLPDecoderV2_0/input_norm"@, d.dec_in)
    &&& source.dense_is(q.dense, "ConcatMLPDecoderV2_0/dense"@, d.dec_in, d.dec_h)
    &&& source.dense_is(q.output_dense, "ConcatMLPDecoderV2_0/output_dense"@, d.dec_h, d.dec_out)
    &&& model.decoder.output_shape == (config.task.patch_size, config.task.patch_size, m.num_classes)
    &&& model.rm.r_stack@.len() == m.num_directions
    &&& forall|k: int|
        0 <= k < m.num_directions ==> (#[trigger] model.rm.r_stack@[k])@ == source.matrix::<S>(
            "rm/R_"@ + compass(m.num_directions)[k],
            m.d_e as nat,
            m.d_v as nat,
        )
}

/// Loaded weights fit each other.
pub proof fn loaded_maze_fits<S: Scalar>(model: SheafAdmmModel<S>, config: ExportedConfig<S>, source: Source)
    requires
        maze_countable(&config),
        maze_model_is(model, config, source),
    ensures
        model.encoder.wf(),
        model.decoder.wf(),
        model.encoder.in_feats() == config.task.patch_size * config.task.patch_size
            * config.task.num_classes,
        model.decoder.in_feats() == model.encoder.in_feats() + config.model.d_v,
        forall|k: int|
            0 <= k < model.rm.r_stack@.len() ==> (#[trigger] model.rm.r_stack@[k])@.has_shape(
                config.model.d_e as nat,
                config.model.d_v as nat,
            ),
{
}

/// Fills the typed maze parameters from the requested collection.
pub fn build_model<S: Scalar>(
    config: ExportedConfig<S>,
    tensors: &Vec<RawTensor>,
    collection: WeightCollection,
) -> (r: Result<SheafAdmmModel<S>, WeightsError>)
    requires
        maze_countable(&config),
        names_distinct(tensors@),
        forall|i: int| 0 <= i < tensors@.len() ==> (#[trigger] tensors@[i])@.sized(),
    ensures
        ({
            let source = source_of(by_name(tensors@), collection);
            let keys = maze_keys(maze_dims_of(&config));
            match r {
                Ok(model) => source.complete(keys) && maze_model_is(model, config, source),
                Err(error) => !source.complete(keys) && source.violated(keys, error),
            }
        }),
{
    let ghost source = source_of(by_name(tensors@), collection);
    let expected = expected_keys(&config);
    let tree = match Tree::load(tensors, collection.prefix(), &expected) {
        Ok(tree) => tree,
        Err(error) => {
            return Err(error);
        },
    };
    let d = maze_dims(&config);
    let m = &config.model;
    proof {
        maze_lists(d);
    }
    let params = MlpEncoderV2Params {
        input_norm: tree.rms_norm("MLPEncoderV2_0/input_norm", d.in_feats),
        dense: tree.dense("MLPEncoderV2_0/dense", d.in_feats, d.enc_h),
        comm_dense: tree.dense("MLPEncoderV2_0/comm_head/comm_dense", d.enc_h, d.d_v),
        comm_norm: tree.layer_norm("MLPEncoderV2_0/comm_head/comm_norm", d.d_v),
        q_diag_dense: tree.dense("MLPEncoderV2_0/objective_heads/q_diag_dense", d.enc_h, d.d_v),
        q_dense: tree.dense("MLPEncoderV2_0/objective_heads/q_dense", d.enc_h, d.d_v),
        l1_weight_dense: tree.dense("MLPEncoderV2_0/objective_heads/l1_weight_dense", d.enc_h, d.d_v),
        upper_bound_dense: tree.dense("MLPEncoderV2_0/objective_heads/upper_bound_dense", d.enc_h, d.d_v),
        lora_pre_ln: tree.layer_norm("MLPEncoderV2_0/lora_pre_ln", d.enc_h),
        lora_a_dense: tree.dense("MLPEncoderV2_0/lora_A_dense", d.enc_h, d.lora_a_out),
        lora_b_dense: tree.dense("MLPEncoderV2_0/lora_B_dense", d.enc_h, d.lora_b_out),
    };
    let encoder = MlpEncoderV2 {
        params,
        config: MlpEncoderV2Config {
            d_v: m.d_v,
            d_e: m.d_e,
            num_directions: m.num_directions,
            lora_rank: m.lora_rank,
            lora_alpha: m.lora_alpha,
            q_epsilon: m.q_epsilon,
        },
    };
    let decoder = ConcatMlpDecoderV2 {
        params: ConcatMlpDecoderV2Params {
            input_norm: tree.rms_norm("ConcatMLPDecoderV2_0/input_norm", d.dec_in),
            dense: tree.dense("ConcatMLPDecoderV2_0/dense", d.dec_in, d.dec_h),
            output_dense: tree.dense("ConcatMLPDecoderV2_0/output_dense", d.dec_h, d.dec_out),
        },
        output_shape: (config.task.patch_size, config.task.patch_size, m.num_classes),
    };
    let names = direction_names(m.num_directions);
    let mut r_stack: Vec<Matrix<S>> = Vec::new();
    for k in 0..names.len()
        invariant
            tree.wf(),
            tree.source() == source,
            tree.keys() == maze_keys(d),
            names@.len() == d.num_directions,
            names@.map_values(|name: &str| name@) == compass(d.num_directions),
            forall|i: int|
                0 <= i < d.num_directions ==> lists(
                    maze_keys(d),
                    "rm/R_"@ + #[trigger] compass(d.num_directions)[i],
                    seq![d.d_e, d.d_v],
                ),
            r_stack@.len() == k,
            forall|i: int|
                0 <= i < k ==> (#[trigger] r_stack@[i])@ == source.matrix::<S>(
                    "rm/R_"@ + compass(d.num_directions)[i],
                    d.d_e as nat,
                    d.d_v as nat,
                ),
    {
        assert(names@.map_values(|name: &str| name@)[k as int] == names@[k as int]@);
        let key = joined("rm/R_", names[k]);
        assert(key@ == "rm/R_"@ + compass(d.num_directions)[k as int]);
        r_stack.push(tree.mat2(key.as_str(), d.d_e, d.d_v));
    }
    let rho = config.baked.rho;
    Ok(SheafAdmmModel { config, encoder, decoder, rm: RmParams { r_stack }, rho })
}

/// Both tensors of a dense layer are listed.
pub open spec fn lists_dense(keys: Seq<(Seq<char>, Seq<usize>)>, name: Seq<char>, i: usize, o: usize) -> bool {
    lists(keys, name + "/kernel"@, seq![i, o]) && lists(keys, name + "/bias"@, seq![o])
}

/// Both tensors of a layer norm are listed.
pub open spec fn lists_layer_norm(keys: Seq<(Seq<char>, Seq<usize>)>, name: Seq<char>, n: usize) -> bool {
    lists(keys, name + "/scale"@, seq![n]) && lists(keys, name + "/bias"@, seq![n])
}

proof fn maze_encoder_lists(d: MazeDims)
    ensures
        ({
            let k = maze_encoder_keys(d);
            &&& lists(k, "MLPEncoderV2_0/input_norm"@ + "/scale"@, seq![d.in_feats])
            &&& lists_dense(k, "MLPEncoderV2_0/dense"@, d.in_feats, d.enc_h)
            &&& lists_dense(k, "MLPEncoderV2_0/comm_head/comm_dense"@, d.enc_h, d.d_v)
            &&& lists_layer_norm(k, "MLPEncoderV2_0/comm_head/comm_norm"@, d.d_v)
            &&& lists_dense(k, "MLPEncoderV2_0/objective_heads/q_diag_dense"@, d.enc_h, d.d_v)
            &&& lists_dense(k, "MLPEncoderV2_0/objective_heads/q_dense"@, d.enc_h, d.d_v)
            &&& lists_dense(k, "MLPEncoderV2_0/objective_heads/l1_weight_dense"@, d.enc_h, d.d_v)
            &&& lists_dense(k, "MLPEncoderV2_0/objective_heads/upper_bound_dense"@, d.enc_h, d.d_v)
            &&& lists_layer_norm(k, "MLPEncoderV2_0/lora_pre_ln"@, d.enc_h)
            &&& lists_dense(k, "MLPEncoderV2_0/lora_A_dense"@, d.enc_h, d.lora_a_out)
            &&& lists_dense(k, "MLPEncoderV2_0/lora_B_dense"@, d.enc_h, d.lora_b_out)
        }),
{
    broadcast use lists_with_key;

}

/// The manifest lists every tensor that a maze model is filled from.
pub(crate) proof fn maze_lists(d: MazeDims)
    ensures
        ({
            let k = maze_keys(d);
            &&& lists(k, "MLPEncoderV2_0/input_norm"@ + "/scale"@, seq![d.in_feats])
            &&& lists_dense(k, "MLPEncoderV2_0/dense"@, d.in_feats, d.enc_h)
            &&& lists_dense(k, "MLPEncoderV2_0/comm_head/comm_dense"@, d.enc_h, d.d_v)
            &&& lists_layer_norm(k, "MLPEncoderV2_0/comm_head/comm_norm"@, d.d_v)
            &&& lists_dense(k, "MLPEncoderV2_0/objective_heads/q_diag_dense"@, d.enc_h, d.d_v)
            &&& lists_dense(k, "MLPEncoderV2_0/objective_heads/q_dense"@, d.enc_h, d.d_v)
            &&& lists_dense(k, "MLPEncoderV2_0/objective_heads/l1_weight_dense"@, d.enc_h, d.d_v)
            &&& lists_dense(k, "MLPEncoderV2_0/objective_heads/upper_bound_dense"@, d.enc_h, d.d_v)
            &&& lists_layer_norm(k, "MLPEncoderV2_0/lora_pre_ln"@, d.enc_h)
            &&& lists_dense(k, "MLPEncoderV2_0/lora_A_dense"@, d.enc_h, d.lora_a_out)
            &&& lists_dense(k, "MLPEncoderV2_0/lora_B_dense"@, d.enc_h, d.lora_b_out)
            &&& lists(k, "ConcatMLPDecoderV2_0/input_norm"@ + "/scale"@, seq![d.dec_in])
            &&& lists_dense(k, "ConcatMLPDecoderV2_0/dense"@, d.dec_in, d.dec_h)
            &&& lists_dense(k, "ConcatMLPDecoderV2_0/output_dense"@, d.dec_h, d.dec_out)
            &&& forall|i: int|
                0 <= i < d.num_directions ==> lists(
                    k,
                    "rm/R_"@ + #[trigger] compass(d.num_directions)[i],
                    seq![d.d_e, d.d_v],
                )
        }),
{
    broadcast use lists_with_key;

    let k = maze_encoder_keys(d);
    let k = with_rms_norm(k, "ConcatMLPDecoderV2_0/input_norm"@, d.dec_in);
    let k = with_dense(k, "ConcatMLPDecoderV2_0/dense"@, d.dec_in, d.dec_h);
    let k = with_dense(k, "ConcatMLPDecoderV2_0/output_dense"@, d.dec_h, d.dec_out);
    lists_with_directions(k, compass(d.num_directions), d.num_directions as nat, d.d_e, d.d_v);
    let all = maze_keys(d);
    assert forall|key: Seq<char>, shape: Seq<usize>| #[trigger] lists(k, key, shape) implies lists(
        all,
        key,
        shape,
    ) by {}
    assert forall|key: Seq<char>, shape: Seq<usize>| #[trigger]
        lists(maze_encoder_keys(d), key, shape) implies lists(all, key, shape) by {
        assert(lists(k, key, shape));
    }
    maze_encoder_lists(d);
    maze_decoder_lists(d);
}

proof fn maze_decoder_lists(d: MazeDims)
    ensures
        ({
            let k = maze_keys(d);
            &&& lists(k, "ConcatMLPDecoderV2_0/input_norm"@ + "/scale"@, seq![d.dec_in])
            &&& lists_dense(k, "ConcatMLPDecoderV2_0/dense"@, d.dec_in, d.dec_h)
            &&& lists_dense(k, "ConcatMLPDecoderV2_0/output_dense"@, d.dec_h, d.dec_out)
            &&& forall|i: int|
                0 <= i < d.num_directions ==> lists(
                    k,
                    "rm/R_"@ + #[trigger] compass(d.num_directions)[i],
                    seq![d.d_e, d.d_v],
                )
        }),
{
    broadcast use lists_with_key;

    let k = maze_encoder_keys(d);
    let k = with_rms_norm(k, "ConcatMLPDecoderV2_0/input_norm"@, d.dec_in);
    let k = with_dense(k, "ConcatMLPDecoderV2_0/dense"@, d.dec_in, d.dec_h);
    let k = with_dense(k, "ConcatMLPDecoderV2_0/output_dense"@, d.dec_h, d.dec_out);
    assert(lists(k, "ConcatMLPDecoderV2_0/input_norm"@ + "/scale"@, seq![d.dec_in]));
    assert(lists_dense(k, "ConcatMLPDecoderV2_0/dense"@, d.dec_in, d.dec_h));
    assert(lists_dense(k, "ConcatMLPDecoderV2_0/output_dense"@, d.dec_h, d.dec_out));
    lists_with_directions(k, compass(d.num_directions), d.num_directions as nat, d.d_e, d.d_v);
}

/// Bytes that hold a container with tensors: what it holds, where positions in it can be
/// counted.
pub open spec fn stored_tensors(bytes: Seq<u8>) -> Option<Map<Seq<char>, TensorModel>> {
    if offsets_countable(bytes) {
        container_contents(bytes)
    } else {
        None
    }
}

/// Takes a container apart.
pub(crate) fn read_tensors(bytes: &[u8]) -> (r: Result<Vec<RawTensor>, WeightsError>)
    ensures
        match r {
            Ok(tensors) => {
                &&& stored_tensors(bytes@) == Some(by_name(tensors@))
                &&& names_distinct(tensors@)
                &&& forall|i: int| 0 <= i < tensors@.len() ==> (#[trigger] tensors@[i])@.sized()
            },
            Err(error) => stored_tensors(bytes@) is None && error is Malformed,
        },
{
    if !offsets_are_countable(bytes) {
        return Err(WeightsError::Malformed);
    }
    match read_container(bytes) {
        Ok(tensors) => Ok(tensors),
        Err(_) => Err(WeightsError::Malformed),
    }
}

/// What makes tensors acceptable to a loader that wants both collections.
pub open spec fn both_complete(tensors: Map<Seq<char>, TensorModel>, keys: Seq<(Seq<char>, Seq<usize>)>) -> bool {
    &&& source_of(tensors, WeightCollection::Raw).complete(keys)
    &&& source_of(tensors, WeightCollection::Ema).complete(keys)
    &&& only_collections(tensors)
}

/// The error names something that is wrong with the tensors of a loader that wants both
/// collections: with the raw ones, else with the averaged ones, else a tensor of neither.
pub open spec fn both_violated(
    tensors: Map<Seq<char>, TensorModel>,
    keys: Seq<(Seq<char>, Seq<usize>)>,
    error: WeightsError,
) -> bool {
    let raw = source_of(tensors, WeightCollection::Raw);
    let ema = source_of(tensors, WeightCollection::Ema);
    if !raw.complete(keys) {
        raw.violated(keys, error)
    } else if !ema.complete(keys) {
        ema.violated(keys, error)
    } else {
        error matches WeightsError::ForeignKey { name } && tensors.dom().contains(name@) && foreign(name@)
    }
}

/// Checks both collections against one manifest, and that there is nothing else.
pub(crate) fn check_collections(tensors: &Vec<RawTensor>, expected: &Vec<ManifestEntry>) -> (r: Result<(), WeightsError>)
    requires
        names_distinct(tensors@),
        forall|i: int| 0 <= i < tensors@.len() ==> (#[trigger] tensors@[i])@.sized(),
    ensures
        match r {
            Ok(_) => both_complete(by_name(tensors@), listing(expected@)),
            Err(error) => {
                &&& !both_complete(by_name(tensors@), listing(expected@))
                &&& both_violated(by_name(tensors@), listing(expected@), error)
            },
        },
{
    match Tree::load(tensors, WeightCollection::Raw.prefix(), expected) {
        Ok(_) => {},
        Err(error) => {
            return Err(error);
        },
    }
    match Tree::load(tensors, WeightCollection::Ema.prefix(), expected) {
        Ok(_) => {},
        Err(error) => {
            return Err(error);
        },
    }
    check_foreign(tensors)
}

/// A configuration and bytes that the loader of both collections accepts.
pub open spec fn loads_strictly<S: Scalar>(config: &ExportedConfig<S>, bytes: Seq<u8>) -> bool {
    &&& first_mismatch(maze_scope(config)) is None
    &&& stored_tensors(bytes) matches Some(tensors) && both_complete(tensors, maze_keys(maze_dims_of(config)))
}

/// A configuration and bytes that the loader of one collection accepts.
pub open spec fn loads_leniently<S: Scalar>(
    config: &ExportedConfig<S>,
    bytes: Seq<u8>,
    collection: WeightCollection,
) -> bool {
    &&& first_mismatch(maze_scope(config)) is None
    &&& stored_tensors(bytes) matches Some(tensors) && only_collections(tensors) && source_of(
        tensors,
        collection,
    ).complete(maze_keys(maze_dims_of(config)))
}

/// Loads a maze model. Both collections must satisfy the manifest, and nothing else may be
/// stored; the requested collection fills the model.
pub fn load_maze_model<S: Scalar>(config: ExportedConfig<S>, weights: &[u8], collection: WeightCollection) -> (r:
    Result<SheafAdmmModel<S>, WeightsError>)
    requires
        first_mismatch(maze_scope(&config)) is None ==> maze_countable(&config),
    ensures
        ({
            let mismatch = first_mismatch(maze_scope(&config));
            let stored = stored_tensors(weights@);
            let keys = maze_keys(maze_dims_of(&config));
            match r {
                Ok(model) => {
                    &&& loads_strictly(&config, weights@)
                    &&& maze_model_is(model, config, source_of(stored->0, collection))
                },
                Err(error) => !loads_strictly(&config, weights@) && {
                    ||| mismatch is Some && reports_mismatch(error, mismatch)
                    ||| mismatch is None && stored is None && error is Malformed
                    ||| mismatch is None && stored is Some && !both_complete(stored->0, keys) && both_violated(
                        stored->0,
                        keys,
                        error,
                    )
                },
            }
        }),
{
    match maze_scope_guards(&config) {
        Ok(_) => {},
        Err(error) => {
            return Err(error);
        },
    }
    let tensors = match read_tensors(weights) {
        Ok(tensors) => tensors,
        Err(error) => {
            return Err(error);
        },
    };
    let expected = expected_keys(&config);
    match check_collections(&tensors, &expected) {
        Ok(_) => build_model(config, &tensors, collection),
        Err(error) => Err(error),
    }
}

/// Loads a maze model of which only the requested collection need be stored. Tensors
/// outside the two collections are still refused.
pub fn load_maze_model_from_bytes<S: Scalar>(
    config: ExportedConfig<S>,
    weights: &[u8],
    collection: WeightCollection,
) -> (r: Result<SheafAdmmModel<S>, WeightsError>)
    requires
        first_mismatch(maze_scope(&config)) is None ==> maze_countable(&config),
    ensures
        ({
            let mismatch = first_mismatch(maze_scope(&config));
            let stored = stored_tensors(weights@);
            let keys = maze_keys(maze_dims_of(&config));
            match r {
                Ok(model) => {
                    &&& loads_leniently(&config, weights@, collection)
                    &&& maze_model_is(model, config, source_of(stored->0, collection))
                },
                Err(error) => !loads_leniently(&config, weights@, collection) && {
                    ||| mismatch is Some && reports_mismatch(error, mismatch)
                    ||| mismatch is None && stored is None && error is Malformed
                    ||| {
                        &&& mismatch is None
                        &&& stored is Some
                        &&& error matches WeightsError::ForeignKey { name } && stored->0.dom().contains(name@)
                            && foreign(name@)
                    }
                    ||| {
                        &&& mismatch is None
                        &&& stored is Some
                        &&& only_collections(stored->0)
                        &&& !source_of(stored->0, collection).complete(keys)
                        &&& source_of(stored->0, collection).violated(keys, error)
                    }
                },
            }
        }),
{
    match maze_scope_guards(&config) {
        Ok(_) => {},
        Err(error) => {
            return Err(error);
        },
    }
    let tensors = match read_tensors(weights) {
        Ok(tensors) => tensors,
        Err(error) => {
            return Err(error);
        },
    };
    match check_foreign(&tensors) {
        Ok(_) => build_model(config, &tensors, collection),
        Err(error) => Err(error),
    }
}

} // verus!
