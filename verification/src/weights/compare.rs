//! How the two maze loaders and different files compare.
use super::container::TensorModel;
use super::load::{
    foreign, lists_dense, lists_layer_norm, loads_leniently, loads_strictly, maze_lists, maze_model_is,
    only_collections, source_of, stored_tensors,
};
use super::manifest::{lists, maze_dims_of, maze_keys};
use super::tree::{full_key, Source};
use super::WeightCollection;
use crate::config::ExportedConfig;
use crate::layers::{Dense, LayerNorm, RmsNorm};
use crate::model::SheafAdmmModel;
use crate::restriction_maps::compass;
use crate::scalar::Scalar;
use crate::tensor::arr2_ext;
use crate::text::begins_with;
use vstd::prelude::*;

verus! {

pub open spec fn same_dense<S: Scalar>(a: Dense<S>, b: Dense<S>) -> bool {
    a.kernel@ == b.kernel@ && a.bias@ == b.bias@
}

pub open spec fn same_rms_norm<S: Scalar>(a: RmsNorm<S>, b: RmsNorm<S>) -> bool {
    a.scale@ == b.scale@ && a.eps == b.eps
}

pub open spec fn same_layer_norm<S: Scalar>(a: LayerNorm<S>, b: LayerNorm<S>) -> bool {
    a.scale@ == b.scale@ && a.bias@ == b.bias@ && a.eps == b.eps
}

/// Two models have the same configuration, weights and penalty.
pub open spec fn same_model<S: Scalar>(a: SheafAdmmModel<S>, b: SheafAdmmModel<S>) -> bool {
    let (p, q) = (a.encoder.params, b.encoder.params);
    let (c, d) = (a.encoder.config, b.encoder.config);
    &&& a.config == b.config
    &&& a.rho == b.rho
    &&& same_rms_norm(p.input_norm, q.input_norm)
    &&& same_dense(p.dense, q.dense)
    &&& same_dense(p.comm_dense, q.comm_dense)
    &&& same_layer_norm(p.comm_norm, q.comm_norm)
    &&& same_dense(p.q_diag_dense, q.q_diag_dense)
    &&& same_dense(p.q_dense, q.q_dense)
    &&& same_dense(p.l1_weight_dense, q.l1_weight_dense)
    &&& same_dense(p.upper_bound_dense, q.upper_bound_dense)
    &&& same_layer_norm(p.lora_pre_ln, q.lora_pre_ln)
    &&& same_dense(p.lora_a_dense, q.lora_a_dense)
    &&& same_dense(p.lora_b_dense, q.lora_b_dense)
    &&& c == d
    &&& same_rms_norm(a.decoder.params.input_norm, b.decoder.params.input_norm)
    &&& same_dense(a.decoder.params.dense, b.decoder.params.dense)
    &&& same_dense(a.decoder.params.output_dense, b.decoder.params.output_dense)
    &&& a.decoder.output_shape == b.decoder.output_shape
    &&& a.rm.r_stack@.len() == b.rm.r_stack@.len()
    &&& forall|k: int| 0 <= k < a.rm.r_stack@.len() ==> (#[trigger] a.rm.r_stack@[k])@ == b.rm.r_stack@[k]@
}

/// A collection fixes the model that is filled from it.
pub proof fn collections_fix_their_model<S: Scalar>(
    a: SheafAdmmModel<S>,
    b: SheafAdmmModel<S>,
    config: ExportedConfig<S>,
    source: Source,
)
    requires
        maze_model_is(a, config, source),
        maze_model_is(b, config, source),
    ensures
        same_model(a, b),
{
    assert forall|k: int| 0 <= k < a.rm.r_stack@.len() implies (#[trigger] a.rm.r_stack@[k])@
        == b.rm.r_stack@[k]@ by {
        assert(b.rm.r_stack@[k]@ == source.matrix::<S>(
            "rm/R_"@ + compass(config.model.num_directions)[k],
            config.model.d_e as nat,
            config.model.d_v as nat,
        ));
    }
}

/// What the loader of both collections accepts, the loader of one accepts too, and their models
/// are the same.
pub proof fn strict_loads_are_lenient<S: Scalar>(
    config: ExportedConfig<S>,
    bytes: Seq<u8>,
    collection: WeightCollection,
    strict: SheafAdmmModel<S>,
    lenient: SheafAdmmModel<S>,
)
    requires
        loads_strictly(&config, bytes),
        maze_model_is(strict, config, source_of(stored_tensors(bytes)->0, collection)),
        maze_model_is(lenient, config, source_of(stored_tensors(bytes)->0, collection)),
    ensures
        loads_leniently(&config, bytes, collection),
        same_model(strict, lenient),
{
    collections_fix_their_model(strict, lenient, config, source_of(stored_tensors(bytes)->0, collection));
}

/// Two files hold the same tensors in a collection.
pub open spec fn agree_on(a: Map<Seq<char>, TensorModel>, b: Map<Seq<char>, TensorModel>, collection: WeightCollection) -> bool {
    forall|name: Seq<char>| #[trigger]
        source_of(a, collection).owns(name) ==> {
            &&& a.dom().contains(name) == b.dom().contains(name)
            &&& a.dom().contains(name) ==> a[name] == b[name]
        }
}

/// The full name of a tensor of a collection belongs to it.
proof fn owns_full_key(source: Source, key: Seq<char>)
    ensures
        source.owns(full_key(source.prefix, key)),
{
    let stem = source.prefix + "/"@;
    let name = full_key(source.prefix, key);
    assert(name.subrange(0, stem.len() as int) =~= stem);
}

proof fn tensors_agree(
    a: Map<Seq<char>, TensorModel>,
    b: Map<Seq<char>, TensorModel>,
    collection: WeightCollection,
    key: Seq<char>,
)
    requires
        agree_on(a, b, collection),
    ensures
        source_of(a, collection).has(key) == source_of(b, collection).has(key),
        source_of(a, collection).has(key) ==> source_of(a, collection).tensor(key) == source_of(
            b,
            collection,
        ).tensor(key),
{
    owns_full_key(source_of(a, collection), key);
}

proof fn completeness_agrees(
    a: Map<Seq<char>, TensorModel>,
    b: Map<Seq<char>, TensorModel>,
    collection: WeightCollection,
    keys: Seq<(Seq<char>, Seq<usize>)>,
)
    requires
        agree_on(a, b, collection),
        source_of(a, collection).complete(keys),
    ensures
        source_of(b, collection).complete(keys),
{
    let (sa, sb) = (source_of(a, collection), source_of(b, collection));
    assert forall|i: int| 0 <= i < keys.len() implies sb.has((#[trigger] keys[i]).0) && sb.tensor(keys[i].0).shape
        == keys[i].1 && sb.tensor(keys[i].0).loadable() by {
        tensors_agree(a, b, collection, keys[i].0);
    }
    assert forall|name: Seq<char>| #[trigger] sb.tensors.dom().contains(name) && sb.owns(name) implies sb.expects(
        keys,
        name,
    ) by {
        assert(sa.owns(name));
        assert(sa.tensors.dom().contains(name));
        assert(sa.expects(keys, name));
    }
}

proof fn flip_agreement(a: Map<Seq<char>, TensorModel>, b: Map<Seq<char>, TensorModel>, collection: WeightCollection)
    requires
        agree_on(a, b, collection),
    ensures
        agree_on(b, a, collection),
{
    assert forall|name: Seq<char>| #[trigger] source_of(b, collection).owns(name) implies {
        &&& b.dom().contains(name) == a.dom().contains(name)
        &&& b.dom().contains(name) ==> b[name] == a[name]
    } by {
        assert(source_of(a, collection).owns(name));
    }
}

/// The same vector under a listed name.
proof fn vectors_agree<S: Scalar>(
    a: Map<Seq<char>, TensorModel>,
    b: Map<Seq<char>, TensorModel>,
    collection: WeightCollection,
    keys: Seq<(Seq<char>, Seq<usize>)>,
    key: Seq<char>,
    shape: Seq<usize>,
)
    requires
        agree_on(a, b, collection),
        source_of(a, collection).complete(keys),
        lists(keys, key, shape),
    ensures
        source_of(a, collection).vector::<S>(key) == source_of(b, collection).vector::<S>(key),
        forall|rows: nat, cols: nat| #[trigger]
            source_of(a, collection).matrix::<S>(key, rows, cols) == source_of(b, collection).matrix::<S>(
                key,
                rows,
                cols,
            ),
{
    reveal(lists);
    let i = choose|i: int| 0 <= i < keys.len() && keys[i] == (key, shape);
    assert(source_of(a, collection).has(keys[i].0));
    tensors_agree(a, b, collection, key);
    let (sa, sb) = (source_of(a, collection), source_of(b, collection));
    assert forall|rows: nat, cols: nat| #[trigger] sa.matrix::<S>(key, rows, cols) == sb.matrix::<S>(
        key,
        rows,
        cols,
    ) by {
        arr2_ext(sa.matrix::<S>(key, rows, cols), sb.matrix::<S>(key, rows, cols));
    }
}

proof fn dense_agrees<S: Scalar>(
    a: Map<Seq<char>, TensorModel>,
    b: Map<Seq<char>, TensorModel>,
    collection: WeightCollection,
    keys: Seq<(Seq<char>, Seq<usize>)>,
    layer: Dense<S>,
    name: Seq<char>,
    i: usize,
    o: usize,
)
    requires
        agree_on(a, b, collection),
        source_of(a, collection).complete(keys),
        lists_dense(keys, name, i, o),
    ensures
        source_of(a, collection).dense_is(layer, name, i, o) == source_of(b, collection).dense_is(
            layer,
            name,
            i,
            o,
        ),
{
    vectors_agree::<S>(a, b, collection, keys, name + "/kernel"@, seq![i, o]);
    vectors_agree::<S>(a, b, collection, keys, name + "/bias"@, seq![o]);
}

proof fn norm_agrees<S: Scalar>(
    a: Map<Seq<char>, TensorModel>,
    b: Map<Seq<char>, TensorModel>,
    collection: WeightCollection,
    keys: Seq<(Seq<char>, Seq<usize>)>,
    layer: LayerNorm<S>,
    name: Seq<char>,
    n: usize,
)
    requires
        agree_on(a, b, collection),
        source_of(a, collection).complete(keys),
        lists_layer_norm(keys, name, n),
    ensures
        source_of(a, collection).layer_norm_is(layer, name, n) == source_of(b, collection).layer_norm_is(
            layer,
            name,
            n,
        ),
{
    vectors_agree::<S>(a, b, collection, keys, name + "/scale"@, seq![n]);
    vectors_agree::<S>(a, b, collection, keys, name + "/bias"@, seq![n]);
}

proof fn scale_agrees<S: Scalar>(
    a: Map<Seq<char>, TensorModel>,
    b: Map<Seq<char>, TensorModel>,
    collection: WeightCollection,
    keys: Seq<(Seq<char>, Seq<usize>)>,
    layer: RmsNorm<S>,
    name: Seq<char>,
    n: usize,
)
    requires
        agree_on(a, b, collection),
        source_of(a, collection).complete(keys),
        lists(keys, name + "/scale"@, seq![n]),
    ensures
        source_of(a, collection).rms_norm_is(layer, name, n) == source_of(b, collection).rms_norm_is(
            layer,
            name,
            n,
        ),
{
    vectors_agree::<S>(a, b, collection, keys, name + "/scale"@, seq![n]);
}

/// A model filled from one file is one filled from any file that agrees with it on the
/// collection.
proof fn models_agree<S: Scalar>(
    a: Map<Seq<char>, TensorModel>,
    b: Map<Seq<char>, TensorModel>,
    collection: WeightCollection,
    model: SheafAdmmModel<S>,
    config: ExportedConfig<S>,
)
    requires
        agree_on(a, b, collection),
        source_of(a, collection).complete(maze_keys(maze_dims_of(&config))),
        maze_model_is(model, config, source_of(a, collection)),
    ensures
        maze_model_is(model, config, source_of(b, collection)),
{
    let d = maze_dims_of(&config);
    let keys = maze_keys(d);
    let p = model.encoder.params;
    let q = model.decoder.params;
    maze_lists(d);
    scale_agrees(a, b, collection, keys, p.input_norm, "MLPEncoderV2_0/input_norm"@, d.in_feats);
    dense_agrees(a, b, collection, keys, p.dense, "MLPEncoderV2_0/dense"@, d.in_feats, d.enc_h);
    dense_agrees(a, b, collection, keys, p.comm_dense, "MLPEncoderV2_0/comm_head/comm_dense"@, d.enc_h, d.d_v);
    norm_agrees(a, b, collection, keys, p.comm_norm, "MLPEncoderV2_0/comm_head/comm_norm"@, d.d_v);
    dense_agrees(
        a,
        b,
        collection,
        keys,
        p.q_diag_dense,
        "MLPEncoderV2_0/objective_heads/q_diag_dense"@,
        d.enc_h,
        d.d_v,
    );
    dense_agrees(a, b, collection, keys, p.q_dense, "MLPEncoderV2_0/objective_heads/q_dense"@, d.enc_h, d.d_v);
    dense_agrees(
        a,
        b,
        collection,
        keys,
        p.l1_weight_dense,
        "MLPEncoderV2_0/objective_heads/l1_weight_dense"@,
        d.enc_h,
        d.d_v,
    );
    dense_agrees(
        a,
        b,
        collection,
        keys,
        p.upper_bound_dense,
        "MLPEncoderV2_0/objective_heads/upper_bound_dense"@,
        d.enc_h,
        d.d_v,
    );
    norm_agrees(a, b, collection, keys, p.lora_pre_ln, "MLPEncoderV2_0/lora_pre_ln"@, d.enc_h);
    dense_agrees(a, b, collection, keys, p.lora_a_dense, "MLPEncoderV2_0/lora_A_dense"@, d.enc_h, d.lora_a_out);
    dense_agrees(a, b, collection, keys, p.lora_b_dense, "MLPEncoderV2_0/lora_B_dense"@, d.enc_h, d.lora_b_out);
    scale_agrees(a, b, collection, keys, q.input_norm, "ConcatMLPDecoderV2_0/input_norm"@, d.dec_in);
    dense_agrees(a, b, collection, keys, q.dense, "ConcatMLPDecoderV2_0/dense"@, d.dec_in, d.dec_h);
    dense_agrees(a, b, collection, keys, q.output_dense, "ConcatMLPDecoderV2_0/output_dense"@, d.dec_h, d.dec_out);
    let m = &config.model;
    assert forall|k: int| 0 <= k < m.num_directions implies (#[trigger] model.rm.r_stack@[k])@ == source_of(
        b,
        collection,
    ).matrix::<S>("rm/R_"@ + compass(m.num_directions)[k], m.d_e as nat, m.d_v as nat) by {
        assert(compass(d.num_directions)[k] == compass(m.num_directions)[k]);
        vectors_agree::<S>(
            a,
            b,
            collection,
            keys,
            "rm/R_"@ + compass(d.num_directions)[k],
            seq![d.d_e, d.d_v],
        );
    }
}

/// Files that agree on the collection that is asked for, and hold nothing outside the two
/// collections, load alike: both or neither are accepted, and a model that comes of the one
/// may come of the other. What is in the other collection does not matter.
pub proof fn agreeing_files_load_alike<S: Scalar>(
    config: ExportedConfig<S>,
    one: Seq<u8>,
    other: Seq<u8>,
    collection: WeightCollection,
    model: SheafAdmmModel<S>,
)
    requires
        stored_tensors(one) is Some,
        stored_tensors(other) is Some,
        only_collections(stored_tensors(one)->0),
        only_collections(stored_tensors(other)->0),
        agree_on(stored_tensors(one)->0, stored_tensors(other)->0, collection),
    ensures
        loads_leniently(&config, one, collection) == loads_leniently(&config, other, collection),
        loads_leniently(&config, one, collection) ==> (maze_model_is(
            model,
            config,
            source_of(stored_tensors(one)->0, collection),
        ) == maze_model_is(model, config, source_of(stored_tensors(other)->0, collection))),
{
    let (a, b) = (stored_tensors(one)->0, stored_tensors(other)->0);
    let keys = maze_keys(maze_dims_of(&config));
    flip_agreement(a, b, collection);
    if source_of(a, collection).complete(keys) {
        completeness_agrees(a, b, collection, keys);
        if maze_model_is(model, config, source_of(a, collection)) {
            models_agree(a, b, collection, model, config);
        }
        if maze_model_is(model, config, source_of(b, collection)) {
            models_agree(b, a, collection, model, config);
        }
    }
    if source_of(b, collection).complete(keys) {
        completeness_agrees(b, a, collection, keys);
    }
}

/// A tensor outside the two collections makes either loader refuse a file.
pub proof fn foreign_tensors_are_refused<S: Scalar>(
    config: ExportedConfig<S>,
    bytes: Seq<u8>,
    collection: WeightCollection,
    name: Seq<char>,
)
    requires
        stored_tensors(bytes) is Some,
        stored_tensors(bytes)->0.dom().contains(name),
        foreign(name),
    ensures
        !loads_leniently(&config, bytes, collection),
        !loads_strictly(&config, bytes),
{
}

/// Without a single tensor of a collection, that collection does not load, nor do both.
pub proof fn absent_collections_are_refused<S: Scalar>(
    config: ExportedConfig<S>,
    bytes: Seq<u8>,
    collection: WeightCollection,
)
    requires
        stored_tensors(bytes) is Some,
        forall|name: Seq<char>| #[trigger]
            stored_tensors(bytes)->0.dom().contains(name) ==> !begins_with(
                name,
                collection.spec_prefix() + "/"@,
            ),
    ensures
        !loads_leniently(&config, bytes, collection),
        !loads_strictly(&config, bytes),
{
    let d = maze_dims_of(&config);
    let keys = maze_keys(d);
    let source = source_of(stored_tensors(bytes)->0, collection);
    maze_lists(d);
    reveal(lists);
    let key = "ConcatMLPDecoderV2_0/input_norm"@ + "/scale"@;
    assert(keys.contains((key, seq![d.dec_in])));
    let i = choose|i: int| 0 <= i < keys.len() && keys[i] == (key, seq![d.dec_in]);
    owns_full_key(source, keys[i].0);
    assert(!source.has(keys[i].0));
}

} // verus!
