//! Loader of the mnist model.
use super::container::{by_name, names_distinct, RawTensor};
use super::load::{
    both_complete, both_violated, check_collections, first_mismatch, lists_dense, lists_layer_norm,
    mnist_scope, mnist_scope_guards, read_tensors, reports_mismatch, source_of, stored_tensors,
};
use super::manifest::{
    lists, lists_with_key, mnist_countable, mnist_dims, mnist_dims_of, mnist_expected_keys, mnist_keys,
    MnistDims,
};
use super::tree::{Source, Tree};
use super::{WeightCollection, WeightsError};
use crate::config::ExportedConfig;
use crate::decoder::{ClassificationDecoder, ClassificationDecoderParams, ReadoutMode};
use crate::encoder::{MlpEncoder, MlpEncoderConfig, MlpEncoderParams};
use crate::layers::MlpBlock;
use crate::model::MnistSheafModel;
use crate::scalar::Scalar;
use crate::text::text_is;
use vstd::prelude::*;

verus! {

/// The readout mode that a configuration names, if it is a known one.
pub open spec fn readout_of<S>(config: &ExportedConfig<S>) -> Option<ReadoutMode> {
    match config.model.dec_readout_mode {
        Some(mode) => if mode@ == "x_only"@ {
            Some(ReadoutMode::XOnly)
        } else if mode@ == "concat"@ {
            Some(ReadoutMode::Concat)
        } else {
            None
        },
        None => None,
    }
}

/// The mnist weights are those of the collection, and the rest is taken from the
/// configuration.
pub open spec fn mnist_model_is<S: Scalar>(model: MnistSheafModel<S>, config: ExportedConfig<S>, source: Source) -> bool {
    let d = mnist_dims_of(&config);
    let m = &config.model;
    let p = &model.encoder.params;
    let c = &model.encoder.config;
    &&& model.config == config
    &&& model.rho == config.baked.rho
    &&& source.dense_is(p.input_proj, "MLPEncoder_0/input_proj"@, d.in_feats, d.enc_h)
    &&& p.blocks@.len() == 1
    &&& source.rms_norm_is(p.blocks@[0].norm, "MLPEncoder_0/block_0/norm"@, d.enc_h)
    &&& source.dense_is(p.blocks@[0].dense1, "MLPEncoder_0/block_0/dense1"@, d.enc_h, d.enc_h)
    &&& source.dense_is(p.blocks@[0].dense2, "MLPEncoder_0/block_0/dense2"@, d.enc_h, d.enc_h)
    &&& p.blocks@[0].residual_proj is None
    &&& source.dense_is(p.comm_dense, "MLPEncoder_0/comm_head/comm_dense"@, d.enc_h, d.d_v)
    &&& source.layer_norm_is(p.comm_norm, "MLPEncoder_0/comm_head/comm_norm"@, d.d_v)
    &&& source.dense_is(p.q_diag_dense, "MLPEncoder_0/objective_heads/q_diag_dense"@, d.enc_h, d.d_v)
    &&& source.dense_is(p.q_dense, "MLPEncoder_0/objective_heads/q_dense"@, d.enc_h, d.d_v)
    &&& source.layer_norm_is(p.lora_pre_ln, "MLPEncoder_0/lora_pre_ln"@, d.enc_h)
    &&& source.dense_is(p.lora_a_dense, "MLPEncoder_0/lora_A_dense"@, d.enc_h, d.lora_a_out)
    &&& source.dense_is(p.lora_b_dense, "MLPEncoder_0/lora_B_dense"@, d.enc_h, d.lora_b_out)
    &&& c.d_v == m.d_v
    &&& c.d_e == m.d_e
    &&& c.num_directions == m.num_directions
    &&& c.lora_rank == m.lora_rank
    &&& c.lora_alpha == m.lora_alpha
    &&& c.q_epsilon == m.q_epsilon
    &&& c.l1_weight == match m.l1_weight {
        Some(w) => w,
        None => S::spec_zero(),
    }
    &&& source.dense_is(
        model.decoder.params.cls_output,
        "ClassificationDecoder_0/cls_output"@,
        d.d_v,
        d.num_classes,
    )
    &&& Some(model.decoder.readout_mode) == readout_of(&config)
    &&& model.decoder.num_classes == m.num_classes
    &&& model.rm_shared@ == source.matrix::<S>("rm/R_shared"@, m.d_e as nat, m.d_v as nat)
}

proof fn mnist_lists(d: MnistDims)
    ensures
        ({
            let k = mnist_keys(d);
            &&& lists_dense(k, "MLPEncoder_0/input_proj"@, d.in_feats, d.enc_h)
            &&& lists(k, "MLPEncoder_0/block_0/norm"@ + "/scale"@, seq![d.enc_h])
            &&& lists_dense(k, "MLPEncoder_0/block_0/dense1"@, d.enc_h, d.enc_h)
            &&& lists_dense(k, "MLPEncoder_0/block_0/dense2"@, d.enc_h, d.enc_h)
            &&& lists_dense(k, "MLPEncoder_0/comm_head/comm_dense"@, d.enc_h, d.d_v)
            &&& lists_layer_norm(k, "MLPEncoder_0/comm_head/comm_norm"@, d.d_v)
            &&& lists_dense(k, "MLPEncoder_0/objective_heads/q_diag_dense"@, d.enc_h, d.d_v)
            &&& lists_dense(k, "MLPEncoder_0/objective_heads/q_dense"@, d.enc_h, d.d_v)
            &&& lists_layer_norm(k, "MLPEncoder_0/lora_pre_ln"@, d.enc_h)
            &&& lists_dense(k, "MLPEncoder_0/lora_A_dense"@, d.enc_h, d.lora_a_out)
            &&& lists_dense(k, "MLPEncoder_0/lora_B_dense"@, d.enc_h, d.lora_b_out)
            &&& lists_dense(k, "ClassificationDecoder_0/cls_output"@, d.d_v, d.num_classes)
            &&& lists(k, "rm/R_shared"@, seq![d.d_e, d.d_v])
        }),
{
    broadcast use lists_with_key;

}

/// Fills the typed mnist parameters from the requested collection.
pub fn build_mnist_model<S: Scalar>(
    config: ExportedConfig<S>,
    tensors: &Vec<RawTensor>,
    collection: WeightCollection,
) -> (r: Result<MnistSheafModel<S>, WeightsError>)
    requires
        mnist_countable(&config),
        names_distinct(tensors@),
        forall|i: int| 0 <= i < tensors@.len() ==> (#[trigger] tensors@[i])@.sized(),
    ensures
        ({
            let source = source_of(by_name(tensors@), collection);
            let keys = mnist_keys(mnist_dims_of(&config));
            match r {
                Ok(model) => source.complete(keys) && mnist_model_is(model, config, source),
                Err(error) => {
                    ||| !source.complete(keys) && source.violated(keys, error)
                    ||| source.complete(keys) && readout_of(&config) is None && reports_readout(error, &config)
                },
            }
        }),
{
    let expected = mnist_expected_keys(&config);
    let tree = match Tree::load(tensors, collection.prefix(), &expected) {
        Ok(tree) => tree,
        Err(error) => {
            return Err(error);
        },
    };
    let d = mnist_dims(&config);
    let m = &config.model;
    proof {
        mnist_lists(d);
    }
    let block = MlpBlock {
        norm: tree.rms_norm("MLPEncoder_0/block_0/norm", d.enc_h),
        dense1: tree.dense("MLPEncoder_0/block_0/dense1", d.enc_h, d.enc_h),
        dense2: tree.dense("MLPEncoder_0/block_0/dense2", d.enc_h, d.enc_h),
        residual_proj: None,
    };
    let params = MlpEncoderParams {
        input_proj: tree.dense("MLPEncoder_0/input_proj", d.in_feats, d.enc_h),
        blocks: vec![block],
        comm_dense: tree.dense("MLPEncoder_0/comm_head/comm_dense", d.enc_h, d.d_v),
        comm_norm: tree.layer_norm("MLPEncoder_0/comm_head/comm_norm", d.d_v),
        q_diag_dense: tree.dense("MLPEncoder_0/objective_heads/q_diag_dense", d.enc_h, d.d_v),
        q_dense: tree.dense("MLPEncoder_0/objective_heads/q_dense", d.enc_h, d.d_v),
        lora_pre_ln: tree.layer_norm("MLPEncoder_0/lora_pre_ln", d.enc_h),
        lora_a_dense: tree.dense("MLPEncoder_0/lora_A_dense", d.enc_h, d.lora_a_out),
        lora_b_dense: tree.dense("MLPEncoder_0/lora_B_dense", d.enc_h, d.lora_b_out),
    };
    let encoder = MlpEncoder {
        params,
        config: MlpEncoderConfig {
            d_v: m.d_v,
            d_e: m.d_e,
            num_directions: m.num_directions,
            lora_rank: m.lora_rank,
            lora_alpha: m.lora_alpha,
            q_epsilon: m.q_epsilon,
            l1_weight: config.l1_weight(),
        },
    };
    let readout_mode = match &m.dec_readout_mode {
        Some(mode) => if text_is(mode, "x_only") {
            ReadoutMode::XOnly
        } else if text_is(mode, "concat") {
            ReadoutMode::Concat
        } else {
            return Err(WeightsError::UnsupportedReadout { found: Some(mode.clone()) });
        },
        None => {
            return Err(WeightsError::UnsupportedReadout { found: None });
        },
    };
    let decoder = ClassificationDecoder {
        params: ClassificationDecoderParams {
            cls_output: tree.dense("ClassificationDecoder_0/cls_output", d.d_v, d.num_classes),
        },
        readout_mode,
        num_classes: m.num_classes,
    };
    let rm_shared = tree.mat2("rm/R_shared", d.d_e, d.d_v);
    let rho = config.baked.rho;
    Ok(MnistSheafModel { config, encoder, decoder, rm_shared, rho })
}

/// The error names the readout mode of a configuration.
pub open spec fn reports_readout<S>(error: WeightsError, config: &ExportedConfig<S>) -> bool {
    error matches WeightsError::UnsupportedReadout { found } && match (found, config.model.dec_readout_mode) {
        (Some(a), Some(b)) => a@ == b@,
        (None, None) => true,
        _ => false,
    }
}

/// Loads an mnist model. Both collections must satisfy the manifest, and nothing else may
/// be stored.
pub fn load_mnist_model<S: Scalar>(config: ExportedConfig<S>, weights: &[u8], collection: WeightCollection) -> (r:
    Result<MnistSheafModel<S>, WeightsError>)
    requires
        first_mismatch(mnist_scope(&config)) is None ==> mnist_countable(&config),
    ensures
        ({
            let mismatch = first_mismatch(mnist_scope(&config));
            let stored = stored_tensors(weights@);
            let keys = mnist_keys(mnist_dims_of(&config));
            match r {
                Ok(model) => {
                    &&& mismatch is None
                    &&& stored is Some
                    &&& both_complete(stored->0, keys)
                    &&& mnist_model_is(model, config, source_of(stored->0, collection))
                },
                Err(error) => {
                    ||| mismatch is Some && reports_mismatch(error, mismatch)
                    ||| mismatch is None && stored is None && error is Malformed
                    ||| mismatch is None && stored is Some && !both_complete(stored->0, keys) && both_violated(
                        stored->0,
                        keys,
                        error,
                    )
                    ||| {
                        &&& mismatch is None
                        &&& stored is Some
                        &&& both_complete(stored->0, keys)
                        &&& readout_of(&config) is None
                        &&& reports_readout(error, &config)
                    }
                },
            }
        }),
{
    match mnist_scope_guards(&config) {
        Ok(_) => {},
        Err(error) => {
            return Err(error);
        },
    }
    let tensors = match read_tensors(weights) {
        Ok(tensors) => tensors,
        Err(error) => {
            return Err(error);
        },
    };
    let expected = mnist_expected_keys(&config);
    match check_collections(&tensors, &expected) {
        Ok(_) => build_mnist_model(config, &tensors, collection),
        Err(error) => Err(error),
    }
}

} // verus!
