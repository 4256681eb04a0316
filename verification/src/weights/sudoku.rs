//! Loader of the sudoku model.
use super::container::{by_name, names_distinct, RawTensor};
use super::load::{
    both_complete, both_violated, check_collections, first_mismatch, lists_dense, lists_layer_norm,
    read_tensors, reports_mismatch, source_of, stored_tensors, sudoku_scope, sudoku_scope_guards,
};
use super::manifest::{
    block_name, last_width, lists, lists_with_key, mixer_name, sudoku_countable, sudoku_dims,
    sudoku_dims_of, sudoku_encoder_keys, sudoku_expected_keys, sudoku_keys, width_before,
    with_block, with_blocks, with_dense, with_key, with_mixer, with_mixers, SudokuDims,
};
use super::tree::{Source, Tree};
use super::{WeightCollection, WeightsError};
use crate::config::ExportedConfig;
use crate::decoder::{SudokuDecoder, SudokuDecoderParams};
use crate::encoder::{SudokuEncoder, SudokuEncoderConfig, SudokuEncoderParams, SudokuLoraHeads};
use crate::layers::{MlpBlock, MlpMixerBlock, SwiGlu};
use crate::model::SudokuSheafModel;
use crate::scalar::Scalar;
use crate::text::{decimal_text, joined};
use crate::views::{build_sudoku_cell_indices, sudoku_cell};
use vstd::prelude::*;

verus! {

/// The block holds the weights of mixer block `i`.
pub open spec fn mixer_is<S: Scalar>(source: Source, block: MlpMixerBlock<S>, i: nat, d: SudokuDims) -> bool {
    let blk = mixer_name(i);
    &&& source.dense_is(block.token_mlp.gate_up, blk + "/token_mlp/gate_up"@, 9, 36)
    &&& source.dense_is(block.token_mlp.down, blk + "/token_mlp/down"@, 18, 9)
    &&& source.rms_norm_is(block.token_norm, blk + "/token_norm"@, d.d_model)
    &&& source.dense_is(block.channel_mlp.gate_up, blk + "/channel_mlp/gate_up"@, d.d_model, d.channel_gates)
    &&& source.dense_is(block.channel_mlp.down, blk + "/channel_mlp/down"@, d.channel, d.d_model)
    &&& source.rms_norm_is(block.channel_norm, blk + "/channel_norm"@, d.d_model)
}

/// The block holds the weights of decoder block `i`, with a residual projection where its
/// width changes.
pub open spec fn block_is<S: Scalar>(source: Source, block: MlpBlock<S>, i: nat, from: usize, to: usize) -> bool {
    let blk = block_name(i);
    &&& source.rms_norm_is(block.norm, blk + "/norm"@, from)
    &&& source.dense_is(block.dense1, blk + "/dense1"@, from, to)
    &&& source.dense_is(block.dense2, blk + "/dense2"@, to, to)
    &&& match block.residual_proj {
        Some(proj) => from != to && source.dense_is(proj, blk + "/residual_proj"@, from, to),
        None => from == to,
    }
}

/// The heads hold the modulation weights.
pub open spec fn heads_are<S: Scalar>(source: Source, heads: SudokuLoraHeads<S>, d: SudokuDims) -> bool {
    &&& source.rms_norm_is(heads.lora_pre_norm, "SudokuEncoder_0/lora_pre_norm"@, d.d_model)
    &&& source.dense_is(heads.lora_a_dense, "SudokuEncoder_0/lora_A_dense"@, d.d_model, d.lora_a_out)
    &&& source.dense_is(heads.lora_b_dense, "SudokuEncoder_0/lora_B_dense"@, d.d_model, d.lora_b_out)
}

/// The encoder weights are those of the collection.
pub open spec fn sudoku_params_are<S: Scalar>(source: Source, p: SudokuEncoderParams<S>, d: SudokuDims) -> bool {
    &&& source.dense_is(p.token_embed, "SudokuEncoder_0/token_embed"@, d.num_classes, d.d_model)
    &&& p.global_pos_embed@ == source.matrix::<S>(
        "SudokuEncoder_0/global_pos_embed/embedding"@,
        81,
        d.d_model as nat,
    )
    &&& p.pos_embed@ == source.slab::<S>("SudokuEncoder_0/pos_embed"@, 0, 9, d.d_model as nat)
    &&& p.mixer_blocks@.len() == d.blocks
    &&& forall|i: int|
        0 <= i < d.blocks ==> mixer_is(source, #[trigger] p.mixer_blocks@[i], i as nat, d)
    &&& source.rms_norm_is(p.pre_flat_norm, "SudokuEncoder_0/pre_flat_norm"@, d.d_model)
    &&& source.dense_is(p.cell_proj, "SudokuEncoder_0/cell_proj"@, d.d_model, d.cell_dim)
    &&& source.rms_norm_is(p.cell_norm, "SudokuEncoder_0/cell_norm"@, d.cell_dim)
    &&& source.dense_is(p.comm_dense, "SudokuEncoder_0/comm_head/comm_dense"@, d.d_v, d.d_v)
    &&& source.layer_norm_is(p.comm_norm, "SudokuEncoder_0/comm_head/comm_norm"@, d.d_v)
    &&& source.dense_is(p.q_diag_dense, "SudokuEncoder_0/objective_heads/q_diag_dense"@, d.d_model, d.d_v)
    &&& source.dense_is(p.q_dense, "SudokuEncoder_0/objective_heads/q_dense"@, d.d_model, d.d_v)
    &&& match p.lora {
        Some(heads) => d.context && heads_are(source, heads, d),
        None => !d.context,
    }
}

/// The sudoku weights are those of the collection, and the rest is taken from the
/// configuration.
pub open spec fn sudoku_model_is<S: Scalar>(model: SudokuSheafModel<S>, config: ExportedConfig<S>, source: Source) -> bool {
    let d = sudoku_dims_of(&config);
    let m = &config.model;
    let c = &model.encoder.config;
    let widths = m.dec_hidden_dims@;
    let q = &model.decoder.params;
    &&& model.config == config
    &&& model.rho == config.baked.rho
    &&& sudoku_params_are(source, model.encoder.params, d)
    &&& c.d_v == m.d_v
    &&& c.d_e == m.d_e
    &&& c.d_model == m.enc_d_model
    &&& c.num_slots == 9
    &&& c.lora_rank == m.lora_rank
    &&& c.lora_alpha == m.lora_alpha
    &&& c.q_epsilon == m.q_epsilon
    &&& q.blocks@.len() == widths.len()
    &&& forall|i: int|
        0 <= i < widths.len() ==> block_is(
            source,
            #[trigger] q.blocks@[i],
            i as nat,
            width_before(d.cell_dim, widths, i),
            widths[i],
        )
    &&& source.dense_is(
        q.output_dense,
        "SudokuDecoder_0/output_dense"@,
        last_width(d.cell_dim, widths),
        d.num_classes,
    )
    &&& model.decoder.num_classes == m.num_classes
    &&& model.r_indices@.len() == 9
    &&& forall|k: int|
        0 <= k < 9 ==> (#[trigger] model.r_indices@[k])@ == source.slab::<S>(
            "rm/R_indices"@,
            k,
            m.d_e as nat,
            m.d_v as nat,
        )
    &&& model.cell_ids@.has_shape(27, 9)
    &&& forall|v: int, k: int|
        0 <= v < 27 && 0 <= k < 9 ==> #[trigger] model.cell_ids@.at(v, k) == sudoku_cell(v, k)
}

/// Every tensor of mixer block `i` is listed.
spec fn lists_mixer(keys: Seq<(Seq<char>, Seq<usize>)>, i: nat, d: SudokuDims) -> bool {
    let blk = mixer_name(i);
    &&& lists_dense(keys, blk + "/token_mlp/gate_up"@, 9, 36)
    &&& lists_dense(keys, blk + "/token_mlp/down"@, 18, 9)
    &&& lists(keys, blk + "/token_norm"@ + "/scale"@, seq![d.d_model])
    &&& lists_dense(keys, blk + "/channel_mlp/gate_up"@, d.d_model, d.channel_gates)
    &&& lists_dense(keys, blk + "/channel_mlp/down"@, d.channel, d.d_model)
    &&& lists(keys, blk + "/channel_norm"@ + "/scale"@, seq![d.d_model])
}

/// Every tensor of decoder block `i` is listed.
spec fn lists_block(keys: Seq<(Seq<char>, Seq<usize>)>, i: nat, from: usize, to: usize) -> bool {
    let blk = block_name(i);
    &&& lists(keys, blk + "/norm"@ + "/scale"@, seq![from])
    &&& lists_dense(keys, blk + "/dense1"@, from, to)
    &&& lists_dense(keys, blk + "/dense2"@, to, to)
    &&& from != to ==> lists_dense(keys, blk + "/residual_proj"@, from, to)
}

/// All that one manifest lists, another lists too.
spec fn lists_all(small: Seq<(Seq<char>, Seq<usize>)>, large: Seq<(Seq<char>, Seq<usize>)>) -> bool {
    forall|key: Seq<char>, shape: Seq<usize>| #[trigger] lists(small, key, shape) ==> lists(large, key, shape)
}

proof fn lists_with_mixers(keys: Seq<(Seq<char>, Seq<usize>)>, n: nat, d: SudokuDims)
    ensures
        lists_all(keys, with_mixers(keys, n, d)),
        forall|i: nat| i < n ==> #[trigger] lists_mixer(with_mixers(keys, n, d), i, d),
    decreases n,
{
    if n > 0 {
        let before = with_mixers(keys, (n - 1) as nat, d);
        let after = with_mixers(keys, n, d);
        lists_with_mixers(keys, (n - 1) as nat, d);
        mixer_listed(before, (n - 1) as nat, d);
        assert forall|i: nat| i < n implies #[trigger] lists_mixer(after, i, d) by {
            if i < n - 1 {
                assert(lists_mixer(before, i, d));
            }
        }
    }
}

proof fn mixer_listed(keys: Seq<(Seq<char>, Seq<usize>)>, i: nat, d: SudokuDims)
    ensures
        lists_all(keys, with_mixer(keys, i, d)),
        lists_mixer(with_mixer(keys, i, d), i, d),
{
    broadcast use lists_with_key;

}

proof fn block_listed(keys: Seq<(Seq<char>, Seq<usize>)>, i: nat, from: usize, to: usize)
    ensures
        lists_all(keys, with_block(keys, i, from, to)),
        lists_block(with_block(keys, i, from, to), i, from, to),
{
    broadcast use lists_with_key;

}

proof fn lists_with_blocks(keys: Seq<(Seq<char>, Seq<usize>)>, n: nat, cell_dim: usize, widths: Seq<usize>)
    requires
        n <= widths.len(),
    ensures
        lists_all(keys, with_blocks(keys, n, cell_dim, widths)),
        forall|i: nat|
            i < n ==> #[trigger] lists_block(
                with_blocks(keys, n, cell_dim, widths),
                i,
                width_before(cell_dim, widths, i as int),
                widths[i as int],
            ),
    decreases n,
{
    if n > 0 {
        let before = with_blocks(keys, (n - 1) as nat, cell_dim, widths);
        let after = with_blocks(keys, n, cell_dim, widths);
        lists_with_blocks(keys, (n - 1) as nat, cell_dim, widths);
        block_listed(before, (n - 1) as nat, width_before(cell_dim, widths, n - 1), widths[n - 1]);
        assert forall|i: nat| i < n implies #[trigger] lists_block(
            after,
            i,
            width_before(cell_dim, widths, i as int),
            widths[i as int],
        ) by {
            if i < n - 1 {
                assert(lists_block(before, i, width_before(cell_dim, widths, i as int), widths[i as int]));
            }
        }
    }
}

/// Every encoder tensor outside the mixer blocks is listed.
spec fn lists_encoder(k: Seq<(Seq<char>, Seq<usize>)>, d: SudokuDims) -> bool {
    &&& lists_dense(k, "SudokuEncoder_0/token_embed"@, d.num_classes, d.d_model)
    &&& lists(k, "SudokuEncoder_0/global_pos_embed/embedding"@, seq![81usize, d.d_model])
    &&& lists(k, "SudokuEncoder_0/pos_embed"@, seq![1usize, 9, d.d_model])
    &&& lists(k, "SudokuEncoder_0/pre_flat_norm"@ + "/scale"@, seq![d.d_model])
    &&& lists_dense(k, "SudokuEncoder_0/cell_proj"@, d.d_model, d.cell_dim)
    &&& lists(k, "SudokuEncoder_0/cell_norm"@ + "/scale"@, seq![d.cell_dim])
    &&& lists_dense(k, "SudokuEncoder_0/comm_head/comm_dense"@, d.d_v, d.d_v)
    &&& lists_layer_norm(k, "SudokuEncoder_0/comm_head/comm_norm"@, d.d_v)
    &&& lists_dense(k, "SudokuEncoder_0/objective_heads/q_diag_dense"@, d.d_model, d.d_v)
    &&& lists_dense(k, "SudokuEncoder_0/objective_heads/q_dense"@, d.d_model, d.d_v)
    &&& d.context ==> lists(k, "SudokuEncoder_0/lora_pre_norm"@ + "/scale"@, seq![d.d_model])
    &&& d.context ==> lists_dense(k, "SudokuEncoder_0/lora_A_dense"@, d.d_model, d.lora_a_out)
    &&& d.context ==> lists_dense(k, "SudokuEncoder_0/lora_B_dense"@, d.d_model, d.lora_b_out)
}

proof fn encoder_listed(d: SudokuDims)
    ensures
        lists_encoder(sudoku_encoder_keys(d), d),
        forall|i: nat| i < d.blocks ==> #[trigger] lists_mixer(sudoku_encoder_keys(d), i, d),
{
    broadcast use lists_with_key;

    let all = sudoku_encoder_keys(d);
    let k = with_dense(Seq::empty(), "SudokuEncoder_0/token_embed"@, d.num_classes, d.d_model);
    let k = with_key(k, "SudokuEncoder_0/global_pos_embed/embedding"@, seq![81usize, d.d_model]);
    let k = with_key(k, "SudokuEncoder_0/pos_embed"@, seq![1usize, 9, d.d_model]);
    let mixers = with_mixers(k, d.blocks as nat, d);
    lists_with_mixers(k, d.blocks as nat, d);
    assert(lists_all(mixers, all)) by {
        assert forall|key: Seq<char>, shape: Seq<usize>| #[trigger] lists(mixers, key, shape) implies lists(
            all,
            key,
            shape,
        ) by {}
    }
    assert(lists_dense(k, "SudokuEncoder_0/token_embed"@, d.num_classes, d.d_model));
    assert(lists(k, "SudokuEncoder_0/global_pos_embed/embedding"@, seq![81usize, d.d_model]));
    assert(lists(k, "SudokuEncoder_0/pos_embed"@, seq![1usize, 9, d.d_model]));
    assert forall|i: nat| i < d.blocks implies #[trigger] lists_mixer(all, i, d) by {
        assert(lists_mixer(mixers, i, d));
    }
}

proof fn sudoku_listed(d: SudokuDims, widths: Seq<usize>)
    ensures
        lists_all(sudoku_encoder_keys(d), sudoku_keys(d, widths)),
        forall|i: nat|
            i < widths.len() ==> #[trigger] lists_block(
                sudoku_keys(d, widths),
                i,
                width_before(d.cell_dim, widths, i as int),
                widths[i as int],
            ),
        lists_dense(
            sudoku_keys(d, widths),
            "SudokuDecoder_0/output_dense"@,
            last_width(d.cell_dim, widths),
            d.num_classes,
        ),
        lists(sudoku_keys(d, widths), "rm/R_indices"@, seq![9usize, d.d_e, d.d_v]),
{
    broadcast use lists_with_key;

    let all = sudoku_keys(d, widths);
    let k = sudoku_encoder_keys(d);
    let blocks = with_blocks(k, widths.len(), d.cell_dim, widths);
    lists_with_blocks(k, widths.len(), d.cell_dim, widths);
    assert(lists_all(blocks, all)) by {
        assert forall|key: Seq<char>, shape: Seq<usize>| #[trigger] lists(blocks, key, shape) implies lists(
            all,
            key,
            shape,
        ) by {}
    }
    assert forall|i: nat| i < widths.len() implies #[trigger] lists_block(
        all,
        i,
        width_before(d.cell_dim, widths, i as int),
        widths[i as int],
    ) by {
        assert(lists_block(blocks, i, width_before(d.cell_dim, widths, i as int), widths[i as int]));
    }
}

fn read_mixer<S: Scalar>(tree: &Tree, i: usize, d: SudokuDims) -> (r: MlpMixerBlock<S>)
    requires
        tree.wf(),
        lists_mixer(tree.keys(), i as nat, d),
    ensures
        mixer_is(tree.source(), r, i as nat, d),
{
    let blk = joined("SudokuEncoder_0/mixer_block_", decimal_text(i).as_str());
    let b = blk.as_str();
    MlpMixerBlock {
        token_mlp: SwiGlu {
            gate_up: tree.dense(joined(b, "/token_mlp/gate_up").as_str(), 9, 36),
            down: tree.dense(joined(b, "/token_mlp/down").as_str(), 18, 9),
        },
        token_norm: tree.rms_norm(joined(b, "/token_norm").as_str(), d.d_model),
        channel_mlp: SwiGlu {
            gate_up: tree.dense(joined(b, "/channel_mlp/gate_up").as_str(), d.d_model, d.channel_gates),
            down: tree.dense(joined(b, "/channel_mlp/down").as_str(), d.channel, d.d_model),
        },
        channel_norm: tree.rms_norm(joined(b, "/channel_norm").as_str(), d.d_model),
    }
}

fn read_block<S: Scalar>(tree: &Tree, i: usize, from: usize, to: usize) -> (r: MlpBlock<S>)
    requires
        tree.wf(),
        lists_block(tree.keys(), i as nat, from, to),
    ensures
        block_is(tree.source(), r, i as nat, from, to),
{
    let blk = joined("SudokuDecoder_0/block_", decimal_text(i).as_str());
    let b = blk.as_str();
    let residual_proj = if from != to {
        Some(tree.dense(joined(b, "/residual_proj").as_str(), from, to))
    } else {
        None
    };
    MlpBlock {
        norm: tree.rms_norm(joined(b, "/norm").as_str(), from),
        dense1: tree.dense(joined(b, "/dense1").as_str(), from, to),
        dense2: tree.dense(joined(b, "/dense2").as_str(), to, to),
        residual_proj,
    }
}

fn read_encoder<S: Scalar>(tree: &Tree, d: SudokuDims) -> (r: SudokuEncoderParams<S>)
    requires
        tree.wf(),
        lists_encoder(tree.keys(), d),
        forall|i: nat| i < d.blocks ==> #[trigger] lists_mixer(tree.keys(), i, d),
    ensures
        sudoku_params_are(tree.source(), r, d),
{
    let mut mixer_blocks: Vec<MlpMixerBlock<S>> = Vec::new();
    for i in 0..d.blocks
        invariant
            tree.wf(),
            forall|i: nat| i < d.blocks ==> #[trigger] lists_mixer(tree.keys(), i, d),
            mixer_blocks@.len() == i,
            forall|j: int|
                0 <= j < i ==> mixer_is(tree.source(), #[trigger] mixer_blocks@[j], j as nat, d),
    {
        assert(lists_mixer(tree.keys(), i as nat, d));
        let block = read_mixer(tree, i, d);
        mixer_blocks.push(block);
    }
    let global_pos_embed = tree.mat2("SudokuEncoder_0/global_pos_embed/embedding", 81, d.d_model);
    let mut positions = tree.mat3("SudokuEncoder_0/pos_embed", 1, 9, d.d_model);
    let pos_embed = positions.remove(0);
    let lora = if d.context {
        Some(
            SudokuLoraHeads {
                lora_pre_norm: tree.rms_norm("SudokuEncoder_0/lora_pre_norm", d.d_model),
                lora_a_dense: tree.dense("SudokuEncoder_0/lora_A_dense", d.d_model, d.lora_a_out),
                lora_b_dense: tree.dense("SudokuEncoder_0/lora_B_dense", d.d_model, d.lora_b_out),
            },
        )
    } else {
        None
    };
    SudokuEncoderParams {
        token_embed: tree.dense("SudokuEncoder_0/token_embed", d.num_classes, d.d_model),
        global_pos_embed,
        pos_embed,
        mixer_blocks,
        pre_flat_norm: tree.rms_norm("SudokuEncoder_0/pre_flat_norm", d.d_model),
        cell_proj: tree.dense("SudokuEncoder_0/cell_proj", d.d_model, d.cell_dim),
        cell_norm: tree.rms_norm("SudokuEncoder_0/cell_norm", d.cell_dim),
        comm_dense: tree.dense("SudokuEncoder_0/comm_head/comm_dense", d.d_v, d.d_v),
        comm_norm: tree.layer_norm("SudokuEncoder_0/comm_head/comm_norm", d.d_v),
        q_diag_dense: tree.dense("SudokuEncoder_0/objective_heads/q_diag_dense", d.d_model, d.d_v),
        q_dense: tree.dense("SudokuEncoder_0/objective_heads/q_dense", d.d_model, d.d_v),
        lora,
    }
}

/// Fills the typed sudoku parameters from the requested collection.
pub fn build_sudoku_model<S: Scalar>(
    config: ExportedConfig<S>,
    tensors: &Vec<RawTensor>,
    collection: WeightCollection,
) -> (r: Result<SudokuSheafModel<S>, WeightsError>)
    requires
        sudoku_countable(&config),
        names_distinct(tensors@),
        forall|i: int| 0 <= i < tensors@.len() ==> (#[trigger] tensors@[i])@.sized(),
    ensures
        ({
            let source = source_of(by_name(tensors@), collection);
            let keys = sudoku_keys(sudoku_dims_of(&config), config.model.dec_hidden_dims@);
            match r {
                Ok(model) => source.complete(keys) && sudoku_model_is(model, config, source),
                Err(error) => !source.complete(keys) && source.violated(keys, error),
            }
        }),
{
    let expected = sudoku_expected_keys(&config);
    let tree = match Tree::load(tensors, collection.prefix(), &expected) {
        Ok(tree) => tree,
        Err(error) => {
            return Err(error);
        },
    };
    let d = sudoku_dims(&config);
    let m = &config.model;
    let widths = &m.dec_hidden_dims;
    let ghost full = sudoku_dims_of(&config);
    proof {
        encoder_listed(full);
        sudoku_listed(full, widths@);
        assert forall|i: nat| i < d.blocks implies #[trigger] lists_mixer(tree.keys(), i, d) by {
            assert(lists_mixer(sudoku_encoder_keys(full), i, full));
        }
        assert(lists_encoder(tree.keys(), d));
    }
    let params = read_encoder(&tree, d);
    proof {
        assert forall|i: int| 0 <= i < d.blocks implies mixer_is(
            tree.source(),
            #[trigger] params.mixer_blocks@[i],
            i as nat,
            full,
        ) by {
            assert(mixer_is(tree.source(), params.mixer_blocks@[i], i as nat, d));
        }
        assert(sudoku_params_are(tree.source(), params, full));
    }
    let encoder = SudokuEncoder {
        params,
        config: SudokuEncoderConfig {
            d_v: m.d_v,
            d_e: m.d_e,
            d_model: m.enc_d_model,
            num_slots: 9,
            lora_rank: m.lora_rank,
            lora_alpha: m.lora_alpha,
            q_epsilon: m.q_epsilon,
        },
    };
    let mut blocks: Vec<MlpBlock<S>> = Vec::new();
    let mut from = d.cell_dim;
    for i in 0..widths.len()
        invariant
            tree.wf(),
            forall|i: nat|
                i < widths@.len() ==> #[trigger] lists_block(
                    tree.keys(),
                    i,
                    width_before(d.cell_dim, widths@, i as int),
                    widths@[i as int],
                ),
            from == width_before(d.cell_dim, widths@, i as int),
            blocks@.len() == i,
            forall|j: int|
                0 <= j < i ==> block_is(
                    tree.source(),
                    #[trigger] blocks@[j],
                    j as nat,
                    width_before(d.cell_dim, widths@, j),
                    widths@[j],
                ),
    {
        let to = widths[i];
        assert(lists_block(tree.keys(), i as nat, from, to));
        let block = read_block(&tree, i, from, to);
        blocks.push(block);
        from = to;
    }
    let decoder = SudokuDecoder {
        params: SudokuDecoderParams {
            blocks,
            output_dense: tree.dense("SudokuDecoder_0/output_dense", from, d.num_classes),
        },
        num_classes: m.num_classes,
    };
    let r_indices = tree.mat3("rm/R_indices", 9, d.d_e, d.d_v);
    let rho = config.baked.rho;
    Ok(
        SudokuSheafModel {
            config,
            encoder,
            decoder,
            r_indices,
            cell_ids: build_sudoku_cell_indices(),
            rho,
        },
    )
}

/// Loads a sudoku model. Both collections must satisfy the manifest, and nothing else may
/// be stored.
pub fn load_sudoku_model<S: Scalar>(config: ExportedConfig<S>, weights: &[u8], collection: WeightCollection) -> (r:
    Result<SudokuSheafModel<S>, WeightsError>)
    requires
        first_mismatch(sudoku_scope(&config)) is None ==> sudoku_countable(&config),
    ensures
        ({
            let mismatch = first_mismatch(sudoku_scope(&config));
            let stored = stored_tensors(weights@);
            let keys = sudoku_keys(sudoku_dims_of(&config), config.model.dec_hidden_dims@);
            match r {
                Ok(model) => {
                    &&& mismatch is None
                    &&& stored is Some
                    &&& both_complete(stored->0, keys)
                    &&& sudoku_model_is(model, config, source_of(stored->0, collection))
                },
                Err(error) => {
                    ||| mismatch is Some && reports_mismatch(error, mismatch)
                    ||| mismatch is None && stored is None && error is Malformed
                    ||| mismatch is None && stored is Some && !both_complete(stored->0, keys) && both_violated(
                        stored->0,
                        keys,
                        error,
                    )
                },
            }
        }),
{
    match sudoku_scope_guards(&config) {
        Ok(_) => {},
        Err(error) => {
            return Err(error);
        },
    }
    let tensors = match read_tensors(weights) {
        Ok(tensors) => tensors,
        Err(error) => {
            return Err(error);
        },
    };
    let expected = sudoku_expected_keys(&config);
    match check_collections(&tensors, &expected) {
        Ok(_) => build_sudoku_model(config, &tensors, collection),
        Err(error) => Err(error),
    }
}

} // verus!
