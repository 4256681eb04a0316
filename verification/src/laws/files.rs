//! Weights come from where their names say: a layer of a loaded model depends on the stored
//! tensors of its own name alone.
use crate::config::ExportedConfig;
use crate::decoder::ReadoutMode;
use crate::layers::{Dense, LayerNorm, MlpBlock, MlpMixerBlock, RmsNorm};
use crate::model::{MnistSheafModel, SheafAdmmModel, SudokuSheafModel};
use crate::restriction_maps::compass;
use crate::scalar::Scalar;
use crate::tensor::{arr2_ext, Arr2};
use crate::text::numeral;
use crate::weights::{
    block_is, first_mismatch, last_width, maze_dims_of, maze_model_is, maze_scope, mixer_is, mnist_dims_of, mnist_model_is, mnist_scope,
    sudoku_dims_of, sudoku_model_is, sudoku_scope, width_before, Source,
};
use vstd::prelude::*;
use vstd::string::*;

verus! {

/// Two collections hold the same tensor under a name.
pub open spec fn same_tensor(a: Source, b: Source, key: Seq<char>) -> bool {
    a.tensor(key) == b.tensor(key)
}

/// A dense layer depends on the kernel and the bias of its name alone.
pub open spec fn dense_follows<S: Scalar>(a: Source, b: Source, la: Dense<S>, lb: Dense<S>, name: Seq<char>) -> bool {
    &&& same_tensor(a, b, name + "/kernel"@) ==> la.kernel@ == lb.kernel@
    &&& same_tensor(a, b, name + "/bias"@) ==> la.bias@ == lb.bias@
}

/// A norm with mean and variance depends on the scale and the bias of its name alone.
pub open spec fn norm_follows<S: Scalar>(
    a: Source,
    b: Source,
    la: LayerNorm<S>,
    lb: LayerNorm<S>,
    name: Seq<char>,
) -> bool {
    &&& same_tensor(a, b, name + "/scale"@) ==> la.scale@ == lb.scale@
    &&& same_tensor(a, b, name + "/bias"@) ==> la.bias@ == lb.bias@
    &&& la.eps == lb.eps
}

/// A norm depends on the scale of its name alone.
pub open spec fn scale_follows<S: Scalar>(a: Source, b: Source, la: RmsNorm<S>, lb: RmsNorm<S>, name: Seq<char>) -> bool {
    &&& same_tensor(a, b, name + "/scale"@) ==> la.scale@ == lb.scale@
    &&& la.eps == lb.eps
}

/// A matrix depends on the tensor of its name alone.
pub open spec fn matrix_follows<S>(a: Source, b: Source, ma: Arr2<S>, mb: Arr2<S>, key: Seq<char>) -> bool {
    same_tensor(a, b, key) ==> ma == mb
}

proof fn matrix_is_read<S: Scalar>(a: Source, b: Source, key: Seq<char>, k: int, rows: nat, cols: nat)
    ensures
        same_tensor(a, b, key) ==> a.matrix::<S>(key, rows, cols) == b.matrix::<S>(key, rows, cols)
            && a.slab::<S>(key, k, rows, cols) == b.slab::<S>(key, k, rows, cols) && a.vector::<S>(key)
            == b.vector::<S>(key),
{
    if same_tensor(a, b, key) {
        assert(a.vector::<S>(key) =~= b.vector::<S>(key));
        arr2_ext(a.matrix::<S>(key, rows, cols), b.matrix::<S>(key, rows, cols));
        arr2_ext(a.slab::<S>(key, k, rows, cols), b.slab::<S>(key, k, rows, cols));
    }
}

proof fn dense_is_read<S: Scalar>(a: Source, b: Source, la: Dense<S>, lb: Dense<S>, name: Seq<char>, i: usize, o: usize)
    requires
        a.dense_is(la, name, i, o),
        b.dense_is(lb, name, i, o),
    ensures
        dense_follows(a, b, la, lb, name),
{
    matrix_is_read::<S>(a, b, name + "/kernel"@, 0, i as nat, o as nat);
    matrix_is_read::<S>(a, b, name + "/bias"@, 0, 0, 0);
}

proof fn norm_is_read<S: Scalar>(a: Source, b: Source, la: LayerNorm<S>, lb: LayerNorm<S>, name: Seq<char>, n: usize)
    requires
        a.layer_norm_is(la, name, n),
        b.layer_norm_is(lb, name, n),
    ensures
        norm_follows(a, b, la, lb, name),
{
    matrix_is_read::<S>(a, b, name + "/scale"@, 0, 0, 0);
    matrix_is_read::<S>(a, b, name + "/bias"@, 0, 0, 0);
}

proof fn scale_is_read<S: Scalar>(a: Source, b: Source, la: RmsNorm<S>, lb: RmsNorm<S>, name: Seq<char>, n: usize)
    requires
        a.rms_norm_is(la, name, n),
        b.rms_norm_is(lb, name, n),
    ensures
        scale_follows(a, b, la, lb, name),
{
    matrix_is_read::<S>(a, b, name + "/scale"@, 0, 0, 0);
}

/// Every layer of a loaded maze model comes from the tensors of its own name, every base map from
/// the tensor of its direction, and every setting from the configuration.
pub proof fn maze_layers_follow_their_names<S: Scalar>(
    ma: SheafAdmmModel<S>,
    mb: SheafAdmmModel<S>,
    config: ExportedConfig<S>,
    a: Source,
    b: Source,
)
    requires
        maze_model_is(ma, config, a),
        maze_model_is(mb, config, b),
    ensures
        scale_follows(a, b, ma.encoder.params.input_norm, mb.encoder.params.input_norm, "MLPEncoderV2_0/input_norm"@),
        dense_follows(a, b, ma.encoder.params.dense, mb.encoder.params.dense, "MLPEncoderV2_0/dense"@),
        dense_follows(a, b, ma.encoder.params.comm_dense, mb.encoder.params.comm_dense, "MLPEncoderV2_0/comm_head/comm_dense"@),
        norm_follows(a, b, ma.encoder.params.comm_norm, mb.encoder.params.comm_norm, "MLPEncoderV2_0/comm_head/comm_norm"@),
        dense_follows(a, b, ma.encoder.params.q_diag_dense, mb.encoder.params.q_diag_dense, "MLPEncoderV2_0/objective_heads/q_diag_dense"@),
        dense_follows(a, b, ma.encoder.params.q_dense, mb.encoder.params.q_dense, "MLPEncoderV2_0/objective_heads/q_dense"@),
        dense_follows(a, b, ma.encoder.params.l1_weight_dense, mb.encoder.params.l1_weight_dense, "MLPEncoderV2_0/objective_heads/l1_weight_dense"@),
        dense_follows(a, b, ma.encoder.params.upper_bound_dense, mb.encoder.params.upper_bound_dense, "MLPEncoderV2_0/objective_heads/upper_bound_dense"@),
        norm_follows(a, b, ma.encoder.params.lora_pre_ln, mb.encoder.params.lora_pre_ln, "MLPEncoderV2_0/lora_pre_ln"@),
        dense_follows(a, b, ma.encoder.params.lora_a_dense, mb.encoder.params.lora_a_dense, "MLPEncoderV2_0/lora_A_dense"@),
        dense_follows(a, b, ma.encoder.params.lora_b_dense, mb.encoder.params.lora_b_dense, "MLPEncoderV2_0/lora_B_dense"@),
        scale_follows(a, b, ma.decoder.params.input_norm, mb.decoder.params.input_norm, "ConcatMLPDecoderV2_0/input_norm"@),
        dense_follows(a, b, ma.decoder.params.dense, mb.decoder.params.dense, "ConcatMLPDecoderV2_0/dense"@),
        dense_follows(a, b, ma.decoder.params.output_dense, mb.decoder.params.output_dense, "ConcatMLPDecoderV2_0/output_dense"@),
        forall|k: int|
            0 <= k < config.model.num_directions ==> matrix_follows(
                a,
                b,
                (#[trigger] ma.rm.r_stack@[k])@,
                mb.rm.r_stack@[k]@,
                "rm/R_"@ + compass(config.model.num_directions)[k],
            ),
        ma.rho == config.baked.rho,
        ma.encoder.config.q_epsilon == config.model.q_epsilon,
        ma.encoder.config.lora_alpha == config.model.lora_alpha,
        ma.encoder.config.d_v == config.model.d_v,
        ma.encoder.config.d_e == config.model.d_e,
        ma.encoder.config.lora_rank == config.model.lora_rank,
{
    let d = maze_dims_of(&config);
    scale_is_read(a, b, ma.encoder.params.input_norm, mb.encoder.params.input_norm, "MLPEncoderV2_0/input_norm"@, d.in_feats);
    dense_is_read(a, b, ma.encoder.params.dense, mb.encoder.params.dense, "MLPEncoderV2_0/dense"@, d.in_feats, d.enc_h);
    dense_is_read(a, b, ma.encoder.params.comm_dense, mb.encoder.params.comm_dense, "MLPEncoderV2_0/comm_head/comm_dense"@, d.enc_h, d.d_v);
    norm_is_read(a, b, ma.encoder.params.comm_norm, mb.encoder.params.comm_norm, "MLPEncoderV2_0/comm_head/comm_norm"@, d.d_v);
    dense_is_read(a, b, ma.encoder.params.q_diag_dense, mb.encoder.params.q_diag_dense, "MLPEncoderV2_0/objective_heads/q_diag_dense"@, d.enc_h, d.d_v);
    dense_is_read(a, b, ma.encoder.params.q_dense, mb.encoder.params.q_dense, "MLPEncoderV2_0/objective_heads/q_dense"@, d.enc_h, d.d_v);
    dense_is_read(a, b, ma.encoder.params.l1_weight_dense, mb.encoder.params.l1_weight_dense, "MLPEncoderV2_0/objective_heads/l1_weight_dense"@, d.enc_h, d.d_v);
    dense_is_read(a, b, ma.encoder.params.upper_bound_dense, mb.encoder.params.upper_bound_dense, "MLPEncoderV2_0/objective_heads/upper_bound_dense"@, d.enc_h, d.d_v);
    norm_is_read(a, b, ma.encoder.params.lora_pre_ln, mb.encoder.params.lora_pre_ln, "MLPEncoderV2_0/lora_pre_ln"@, d.enc_h);
    dense_is_read(a, b, ma.encoder.params.lora_a_dense, mb.encoder.params.lora_a_dense, "MLPEncoderV2_0/lora_A_dense"@, d.enc_h, d.lora_a_out);
    dense_is_read(a, b, ma.encoder.params.lora_b_dense, mb.encoder.params.lora_b_dense, "MLPEncoderV2_0/lora_B_dense"@, d.enc_h, d.lora_b_out);
    scale_is_read(a, b, ma.decoder.params.input_norm, mb.decoder.params.input_norm, "ConcatMLPDecoderV2_0/input_norm"@, d.dec_in);
    dense_is_read(a, b, ma.decoder.params.dense, mb.decoder.params.dense, "ConcatMLPDecoderV2_0/dense"@, d.dec_in, d.dec_h);
    dense_is_read(a, b, ma.decoder.params.output_dense, mb.decoder.params.output_dense, "ConcatMLPDecoderV2_0/output_dense"@, d.dec_h, d.dec_out);
    let m = &config.model;
    assert forall|k: int| 0 <= k < m.num_directions implies matrix_follows(
        a,
        b,
        (#[trigger] ma.rm.r_stack@[k])@,
        mb.rm.r_stack@[k]@,
        "rm/R_"@ + compass(m.num_directions)[k],
    ) by {
        let key = "rm/R_"@ + compass(m.num_directions)[k];
        assert(mb.rm.r_stack@[k]@ == b.matrix::<S>(key, m.d_e as nat, m.d_v as nat));
        matrix_is_read::<S>(a, b, key, 0, m.d_e as nat, m.d_v as nat);
    }
}

/// Every layer of a loaded mnist model comes from the tensors of its own name.
pub proof fn mnist_layers_follow_their_names<S: Scalar>(
    ma: MnistSheafModel<S>,
    mb: MnistSheafModel<S>,
    config: ExportedConfig<S>,
    a: Source,
    b: Source,
)
    requires
        mnist_model_is(ma, config, a),
        mnist_model_is(mb, config, b),
    ensures
        dense_follows(a, b, ma.encoder.params.input_proj, mb.encoder.params.input_proj, "MLPEncoder_0/input_proj"@),
        scale_follows(a, b, ma.encoder.params.blocks@[0].norm, mb.encoder.params.blocks@[0].norm, "MLPEncoder_0/block_0/norm"@),
        dense_follows(a, b, ma.encoder.params.blocks@[0].dense1, mb.encoder.params.blocks@[0].dense1, "MLPEncoder_0/block_0/dense1"@),
        dense_follows(a, b, ma.encoder.params.blocks@[0].dense2, mb.encoder.params.blocks@[0].dense2, "MLPEncoder_0/block_0/dense2"@),
        dense_follows(a, b, ma.encoder.params.comm_dense, mb.encoder.params.comm_dense, "MLPEncoder_0/comm_head/comm_dense"@),
        norm_follows(a, b, ma.encoder.params.comm_norm, mb.encoder.params.comm_norm, "MLPEncoder_0/comm_head/comm_norm"@),
        dense_follows(a, b, ma.encoder.params.q_diag_dense, mb.encoder.params.q_diag_dense, "MLPEncoder_0/objective_heads/q_diag_dense"@),
        dense_follows(a, b, ma.encoder.params.q_dense, mb.encoder.params.q_dense, "MLPEncoder_0/objective_heads/q_dense"@),
        norm_follows(a, b, ma.encoder.params.lora_pre_ln, mb.encoder.params.lora_pre_ln, "MLPEncoder_0/lora_pre_ln"@),
        dense_follows(a, b, ma.encoder.params.lora_a_dense, mb.encoder.params.lora_a_dense, "MLPEncoder_0/lora_A_dense"@),
        dense_follows(a, b, ma.encoder.params.lora_b_dense, mb.encoder.params.lora_b_dense, "MLPEncoder_0/lora_B_dense"@),
        dense_follows(a, b, ma.decoder.params.cls_output, mb.decoder.params.cls_output, "ClassificationDecoder_0/cls_output"@),
        matrix_follows(a, b, ma.rm_shared@, mb.rm_shared@, "rm/R_shared"@),
        ma.rho == config.baked.rho,
        ma.encoder.config.q_epsilon == config.model.q_epsilon,
        ma.encoder.config.lora_alpha == config.model.lora_alpha,
        ma.encoder.config.d_v == config.model.d_v,
        ma.encoder.config.d_e == config.model.d_e,
        ma.encoder.config.lora_rank == config.model.lora_rank,
        config.model.l1_weight matches Some(w) ==> ma.encoder.config.l1_weight == w,
{
    let d = mnist_dims_of(&config);
    dense_is_read(a, b, ma.encoder.params.input_proj, mb.encoder.params.input_proj, "MLPEncoder_0/input_proj"@, d.in_feats, d.enc_h);
    scale_is_read(a, b, ma.encoder.params.blocks@[0].norm, mb.encoder.params.blocks@[0].norm, "MLPEncoder_0/block_0/norm"@, d.enc_h);
    dense_is_read(a, b, ma.encoder.params.blocks@[0].dense1, mb.encoder.params.blocks@[0].dense1, "MLPEncoder_0/block_0/dense1"@, d.enc_h, d.enc_h);
    dense_is_read(a, b, ma.encoder.params.blocks@[0].dense2, mb.encoder.params.blocks@[0].dense2, "MLPEncoder_0/block_0/dense2"@, d.enc_h, d.enc_h);
    dense_is_read(a, b, ma.encoder.params.comm_dense, mb.encoder.params.comm_dense, "MLPEncoder_0/comm_head/comm_dense"@, d.enc_h, d.d_v);
    norm_is_read(a, b, ma.encoder.params.comm_norm, mb.encoder.params.comm_norm, "MLPEncoder_0/comm_head/comm_norm"@, d.d_v);
    dense_is_read(a, b, ma.encoder.params.q_diag_dense, mb.encoder.params.q_diag_dense, "MLPEncoder_0/objective_heads/q_diag_dense"@, d.enc_h, d.d_v);
    dense_is_read(a, b, ma.encoder.params.q_dense, mb.encoder.params.q_dense, "MLPEncoder_0/objective_heads/q_dense"@, d.enc_h, d.d_v);
    norm_is_read(a, b, ma.encoder.params.lora_pre_ln, mb.encoder.params.lora_pre_ln, "MLPEncoder_0/lora_pre_ln"@, d.enc_h);
    dense_is_read(a, b, ma.encoder.params.lora_a_dense, mb.encoder.params.lora_a_dense, "MLPEncoder_0/lora_A_dense"@, d.enc_h, d.lora_a_out);
    dense_is_read(a, b, ma.encoder.params.lora_b_dense, mb.encoder.params.lora_b_dense, "MLPEncoder_0/lora_B_dense"@, d.enc_h, d.lora_b_out);
    dense_is_read(a, b, ma.decoder.params.cls_output, mb.decoder.params.cls_output, "ClassificationDecoder_0/cls_output"@, d.d_v, d.num_classes);
    matrix_is_read::<S>(a, b, "rm/R_shared"@, 0, config.model.d_e as nat, config.model.d_v as nat);
}

/// Every layer of a loaded sudoku model outside its blocks comes from the tensors of its own name.
pub proof fn sudoku_layers_follow_their_names<S: Scalar>(
    ma: SudokuSheafModel<S>,
    mb: SudokuSheafModel<S>,
    config: ExportedConfig<S>,
    a: Source,
    b: Source,
)
    requires
        sudoku_model_is(ma, config, a),
        sudoku_model_is(mb, config, b),
    ensures
        dense_follows(a, b, ma.encoder.params.token_embed, mb.encoder.params.token_embed, "SudokuEncoder_0/token_embed"@),
        scale_follows(a, b, ma.encoder.params.pre_flat_norm, mb.encoder.params.pre_flat_norm, "SudokuEncoder_0/pre_flat_norm"@),
        dense_follows(a, b, ma.encoder.params.cell_proj, mb.encoder.params.cell_proj, "SudokuEncoder_0/cell_proj"@),
        scale_follows(a, b, ma.encoder.params.cell_norm, mb.encoder.params.cell_norm, "SudokuEncoder_0/cell_norm"@),
        dense_follows(a, b, ma.encoder.params.comm_dense, mb.encoder.params.comm_dense, "SudokuEncoder_0/comm_head/comm_dense"@),
        norm_follows(a, b, ma.encoder.params.comm_norm, mb.encoder.params.comm_norm, "SudokuEncoder_0/comm_head/comm_norm"@),
        dense_follows(a, b, ma.encoder.params.q_diag_dense, mb.encoder.params.q_diag_dense, "SudokuEncoder_0/objective_heads/q_diag_dense"@),
        dense_follows(a, b, ma.encoder.params.q_dense, mb.encoder.params.q_dense, "SudokuEncoder_0/objective_heads/q_dense"@),
        dense_follows(a, b, ma.decoder.params.output_dense, mb.decoder.params.output_dense, "SudokuDecoder_0/output_dense"@),
        matrix_follows(
            a,
            b,
            ma.encoder.params.global_pos_embed@,
            mb.encoder.params.global_pos_embed@,
            "SudokuEncoder_0/global_pos_embed/embedding"@,
        ),
        matrix_follows(
            a,
            b,
            ma.encoder.params.pos_embed@,
            mb.encoder.params.pos_embed@,
            "SudokuEncoder_0/pos_embed"@,
        ),
        match (ma.encoder.params.lora, mb.encoder.params.lora) {
            (Some(x), Some(y)) => {
                &&& scale_follows(a, b, x.lora_pre_norm, y.lora_pre_norm, "SudokuEncoder_0/lora_pre_norm"@)
                &&& dense_follows(a, b, x.lora_a_dense, y.lora_a_dense, "SudokuEncoder_0/lora_A_dense"@)
                &&& dense_follows(a, b, x.lora_b_dense, y.lora_b_dense, "SudokuEncoder_0/lora_B_dense"@)
            },
            (None, None) => true,
            _ => false,
        },
        forall|k: int|
            0 <= k < 9 ==> matrix_follows(
                a,
                b,
                (#[trigger] ma.r_indices@[k])@,
                mb.r_indices@[k]@,
                "rm/R_indices"@,
            ),
        ma.rho == config.baked.rho,
        ma.encoder.config.q_epsilon == config.model.q_epsilon,
        ma.encoder.config.lora_alpha == config.model.lora_alpha,
        ma.encoder.config.d_v == config.model.d_v,
        ma.encoder.config.d_e == config.model.d_e,
        ma.encoder.config.lora_rank == config.model.lora_rank,
{
    let d = sudoku_dims_of(&config);
    let m = &config.model;
    dense_is_read(a, b, ma.encoder.params.token_embed, mb.encoder.params.token_embed, "SudokuEncoder_0/token_embed"@, d.num_classes, d.d_model);
    scale_is_read(a, b, ma.encoder.params.pre_flat_norm, mb.encoder.params.pre_flat_norm, "SudokuEncoder_0/pre_flat_norm"@, d.d_model);
    dense_is_read(a, b, ma.encoder.params.cell_proj, mb.encoder.params.cell_proj, "SudokuEncoder_0/cell_proj"@, d.d_model, d.cell_dim);
    scale_is_read(a, b, ma.encoder.params.cell_norm, mb.encoder.params.cell_norm, "SudokuEncoder_0/cell_norm"@, d.cell_dim);
    dense_is_read(a, b, ma.encoder.params.comm_dense, mb.encoder.params.comm_dense, "SudokuEncoder_0/comm_head/comm_dense"@, d.d_v, d.d_v);
    norm_is_read(a, b, ma.encoder.params.comm_norm, mb.encoder.params.comm_norm, "SudokuEncoder_0/comm_head/comm_norm"@, d.d_v);
    dense_is_read(a, b, ma.encoder.params.q_diag_dense, mb.encoder.params.q_diag_dense, "SudokuEncoder_0/objective_heads/q_diag_dense"@, d.d_model, d.d_v);
    dense_is_read(a, b, ma.encoder.params.q_dense, mb.encoder.params.q_dense, "SudokuEncoder_0/objective_heads/q_dense"@, d.d_model, d.d_v);
    dense_is_read(a, b, ma.decoder.params.output_dense, mb.decoder.params.output_dense, "SudokuDecoder_0/output_dense"@, last_width(d.cell_dim, config.model.dec_hidden_dims@), d.num_classes);
    matrix_is_read::<S>(a, b, "SudokuEncoder_0/global_pos_embed/embedding"@, 0, 81, d.d_model as nat);
    matrix_is_read::<S>(a, b, "SudokuEncoder_0/pos_embed"@, 0, 9, d.d_model as nat);
    match (ma.encoder.params.lora, mb.encoder.params.lora) {
        (Some(x), Some(y)) => {
            scale_is_read(a, b, x.lora_pre_norm, y.lora_pre_norm, "SudokuEncoder_0/lora_pre_norm"@, d.d_model);
            dense_is_read(
                a,
                b,
                x.lora_a_dense,
                y.lora_a_dense,
                "SudokuEncoder_0/lora_A_dense"@,
                d.d_model,
                d.lora_a_out,
            );
            dense_is_read(
                a,
                b,
                x.lora_b_dense,
                y.lora_b_dense,
                "SudokuEncoder_0/lora_B_dense"@,
                d.d_model,
                d.lora_b_out,
            );
        },
        _ => {},
    }
    assert forall|k: int| 0 <= k < 9 implies matrix_follows(
        a,
        b,
        (#[trigger] ma.r_indices@[k])@,
        mb.r_indices@[k]@,
        "rm/R_indices"@,
    ) by {
        assert(mb.r_indices@[k]@ == b.slab::<S>("rm/R_indices"@, k, m.d_e as nat, m.d_v as nat));
        matrix_is_read::<S>(a, b, "rm/R_indices"@, k, m.d_e as nat, m.d_v as nat);
    }
}

/// A mixer block depends on the layers under its name alone.
pub open spec fn mixer_follows<S: Scalar>(
    a: Source,
    b: Source,
    x: MlpMixerBlock<S>,
    y: MlpMixerBlock<S>,
    name: Seq<char>,
) -> bool {
    &&& dense_follows(a, b, x.token_mlp.gate_up, y.token_mlp.gate_up, name + "/token_mlp/gate_up"@)
    &&& dense_follows(a, b, x.token_mlp.down, y.token_mlp.down, name + "/token_mlp/down"@)
    &&& scale_follows(a, b, x.token_norm, y.token_norm, name + "/token_norm"@)
    &&& dense_follows(a, b, x.channel_mlp.gate_up, y.channel_mlp.gate_up, name + "/channel_mlp/gate_up"@)
    &&& dense_follows(a, b, x.channel_mlp.down, y.channel_mlp.down, name + "/channel_mlp/down"@)
    &&& scale_follows(a, b, x.channel_norm, y.channel_norm, name + "/channel_norm"@)
}

/// A block depends on the layers under its name alone.
pub open spec fn block_follows<S: Scalar>(a: Source, b: Source, x: MlpBlock<S>, y: MlpBlock<S>, name: Seq<char>) -> bool {
    &&& scale_follows(a, b, x.norm, y.norm, name + "/norm"@)
    &&& dense_follows(a, b, x.dense1, y.dense1, name + "/dense1"@)
    &&& dense_follows(a, b, x.dense2, y.dense2, name + "/dense2"@)
    &&& match (x.residual_proj, y.residual_proj) {
        (Some(p), Some(q)) => dense_follows(a, b, p, q, name + "/residual_proj"@),
        (None, None) => true,
        _ => false,
    }
}

/// Mixer block `i` of a loaded sudoku model comes from the tensors under
/// `SudokuEncoder_0/mixer_block_i`, decoder block `i` from those under `SudokuDecoder_0/block_i`.
pub proof fn sudoku_blocks_follow_their_names<S: Scalar>(
    ma: SudokuSheafModel<S>,
    mb: SudokuSheafModel<S>,
    config: ExportedConfig<S>,
    a: Source,
    b: Source,
    i: int,
)
    requires
        sudoku_model_is(ma, config, a),
        sudoku_model_is(mb, config, b),
        0 <= i,
    ensures
        ma.encoder.params.mixer_blocks@.len() == mb.encoder.params.mixer_blocks@.len(),
        ma.decoder.params.blocks@.len() == mb.decoder.params.blocks@.len(),
        i < ma.encoder.params.mixer_blocks@.len() ==> mixer_follows(
            a,
            b,
            ma.encoder.params.mixer_blocks@[i],
            mb.encoder.params.mixer_blocks@[i],
            "SudokuEncoder_0/mixer_block_"@ + numeral(i as nat),
        ),
        i < ma.decoder.params.blocks@.len() ==> block_follows(
            a,
            b,
            ma.decoder.params.blocks@[i],
            mb.decoder.params.blocks@[i],
            "SudokuDecoder_0/block_"@ + numeral(i as nat),
        ),
{
    let d = sudoku_dims_of(&config);
    let widths = config.model.dec_hidden_dims@;
    if i < ma.encoder.params.mixer_blocks@.len() {
        let x = ma.encoder.params.mixer_blocks@[i];
        let y = mb.encoder.params.mixer_blocks@[i];
        let name = "SudokuEncoder_0/mixer_block_"@ + numeral(i as nat);
        assert(mixer_is(a, x, i as nat, d) && mixer_is(b, y, i as nat, d));
        dense_is_read(a, b, x.token_mlp.gate_up, y.token_mlp.gate_up, name + "/token_mlp/gate_up"@, 9, 36);
        dense_is_read(a, b, x.token_mlp.down, y.token_mlp.down, name + "/token_mlp/down"@, 18, 9);
        scale_is_read(a, b, x.token_norm, y.token_norm, name + "/token_norm"@, d.d_model);
        dense_is_read(a, b, x.channel_mlp.gate_up, y.channel_mlp.gate_up, name + "/channel_mlp/gate_up"@, d.d_model, d.channel_gates);
        dense_is_read(a, b, x.channel_mlp.down, y.channel_mlp.down, name + "/channel_mlp/down"@, d.channel, d.d_model);
        scale_is_read(a, b, x.channel_norm, y.channel_norm, name + "/channel_norm"@, d.d_model);
    }
    if i < ma.decoder.params.blocks@.len() {
        let x = ma.decoder.params.blocks@[i];
        let y = mb.decoder.params.blocks@[i];
        let name = "SudokuDecoder_0/block_"@ + numeral(i as nat);
        let f = width_before(d.cell_dim, widths, i);
        let t = widths[i];
        assert(block_is(a, x, i as nat, f, t) && block_is(b, y, i as nat, f, t));
        scale_is_read(a, b, x.norm, y.norm, name + "/norm"@, f);
        dense_is_read(a, b, x.dense1, y.dense1, name + "/dense1"@, f, t);
        dense_is_read(a, b, x.dense2, y.dense2, name + "/dense2"@, t, t);
        match (x.residual_proj, y.residual_proj) {
            (Some(p), Some(q)) => {
                dense_is_read(a, b, p, q, name + "/residual_proj"@, f, t);
            },
            _ => {},
        }
    }
}

/// A stored kernel is read row by row: member `r * o + c` stands in row `r` and column `c`.
pub proof fn kernels_are_stored_by_rows<S: Scalar>(
    source: Source,
    layer: Dense<S>,
    name: Seq<char>,
    i: usize,
    o: usize,
    r: int,
    c: int,
)
    requires
        source.dense_is(layer, name, i, o),
        0 <= r < i,
        0 <= c < o,
        source.tensor(name + "/kernel"@).patterns().len() == i * o,
    ensures
        layer.kernel@.at(r, c) == S::spec_from_bits(
            source.tensor(name + "/kernel"@).patterns()[r * o + c],
        ),
{
    assert(0 <= r * o + c < i * o) by (nonlinear_arith)
        requires
            0 <= r < i,
            0 <= c < o,
    ;
}
/// The readout mode is the one that the configuration names, and no other name is known.
pub proof fn readouts_are_picked_by_name<S: Scalar>(model: MnistSheafModel<S>, config: ExportedConfig<S>, source: Source)
    requires
        mnist_model_is(model, config, source),
    ensures
        config.model.dec_readout_mode matches Some(mode) && {
            ||| mode@ == "x_only"@ && model.decoder.readout_mode == ReadoutMode::XOnly
            ||| mode@ == "concat"@ && model.decoder.readout_mode == ReadoutMode::Concat
        },
        "x_only"@ != "concat"@,
{
    reveal_strlit("x_only");
    reveal_strlit("concat");
    assert("x_only"@[0] != "concat"@[0]);
}

/// Each loader takes the configurations of its own kind, and no other.
pub proof fn loaders_take_their_own_kind<S>(config: &ExportedConfig<S>)
    ensures
        first_mismatch(maze_scope(config)) is None <==> {
            &&& config.task.task@ == "maze"@
            &&& config.model.encoder_arch@ == "mlp_v2"@
            &&& config.model.decoder_arch@ == "mlp_concat_v2"@
            &&& config.model.rm_sharing@ == "directional"@
            &&& config.model.objective_mode@ == "l1box_diag"@
        },
        first_mismatch(mnist_scope(config)) is None <==> {
            &&& config.task.task@ == "mnist"@
            &&& config.model.encoder_arch@ == "mlp"@
            &&& config.model.decoder_arch@ == "classification"@
            &&& config.model.rm_sharing@ == "global"@
            &&& config.model.objective_mode@ == "lasso"@
        },
        first_mismatch(sudoku_scope(config)) is None <==> {
            &&& config.task.task@ == "sudoku"@
            &&& config.model.encoder_arch@ == "sudoku"@
            &&& config.model.decoder_arch@ == "sudoku"@
            &&& config.model.rm_sharing@ == "sudoku"@
            &&& config.model.rm_init@ == "soft_slice"@
            &&& config.model.objective_mode@ == "non_negative"@
        },
{
    no_mismatch(maze_scope(config));
    no_mismatch(mnist_scope(config));
    no_mismatch(sudoku_scope(config));
    let (a, b, c) = (maze_scope(config), mnist_scope(config), sudoku_scope(config));
    assert(a[0].1 == a[0].2 && a[1].1 == a[1].2 && a[2].1 == a[2].2 && a[3].1 == a[3].2 && a[4].1 == a[4].2
        <==> first_mismatch(a) is None);
    assert(b[0].1 == b[0].2 && b[1].1 == b[1].2 && b[2].1 == b[2].2 && b[3].1 == b[3].2 && b[4].1 == b[4].2
        <==> first_mismatch(b) is None);
    assert(c[0].1 == c[0].2 && c[1].1 == c[1].2 && c[2].1 == c[2].2 && c[3].1 == c[3].2 && c[4].1 == c[4].2
        && c[5].1 == c[5].2 <==> first_mismatch(c) is None);
}

proof fn no_mismatch(checks: Seq<(Seq<char>, Seq<char>, Seq<char>)>)
    ensures
        first_mismatch(checks) is None <==> forall|i: int|
            0 <= i < checks.len() ==> (#[trigger] checks[i]).1 == checks[i].2,
    decreases checks.len(),
{
    if checks.len() > 0 {
        let rest = checks.skip(1);
        no_mismatch(rest);
        if checks[0].1 == checks[0].2 {
            if first_mismatch(checks) is None {
                assert forall|i: int| 0 <= i < checks.len() implies (#[trigger] checks[i]).1 == checks[i].2 by {
                    if i > 0 {
                        assert(rest[i - 1] == checks[i]);
                    }
                }
            } else {
                let i = choose|i: int| 0 <= i < rest.len() && (#[trigger] rest[i]).1 != rest[i].2;
                assert(checks[i + 1] == rest[i]);
            }
        }
    }
}

} // verus!
