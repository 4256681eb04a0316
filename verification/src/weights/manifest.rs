//! The names and shapes that a collection of weights must consist of.
use crate::config::ExportedConfig;
use crate::restriction_maps::{compass, direction_names};
use crate::scalar::Scalar;
use crate::text::{decimal_text, joined, numeral, text_is};
use vstd::prelude::*;

verus! {

/// One expected tensor: its name within the collection, and its shape.
#[derive(Debug)]
pub struct ManifestEntry {
    pub key: String,
    pub shape: Vec<usize>,
}

impl View for ManifestEntry {
    type V = (Seq<char>, Seq<usize>);

    open spec fn view(&self) -> (Seq<char>, Seq<usize>) {
        (self.key@, self.shape@)
    }
}

/// The names and shapes of a manifest, in order.
pub open spec fn listing(entries: Seq<ManifestEntry>) -> Seq<(Seq<char>, Seq<usize>)> {
    entries.map_values(|e: ManifestEntry| e@)
}

/// The manifest asks for a tensor of this name and shape.
#[verifier::opaque]
pub open spec fn lists(keys: Seq<(Seq<char>, Seq<usize>)>, key: Seq<char>, shape: Seq<usize>) -> bool {
    keys.contains((key, shape))
}

/// A manifest with one more tensor.
#[verifier::opaque]
pub open spec fn with_key(keys: Seq<(Seq<char>, Seq<usize>)>, key: Seq<char>, shape: Seq<usize>) -> Seq<
    (Seq<char>, Seq<usize>),
> {
    keys.push((key, shape))
}

/// A manifest with the kernel and the bias of one more dense layer.
pub open spec fn with_dense(keys: Seq<(Seq<char>, Seq<usize>)>, name: Seq<char>, i: usize, o: usize) -> Seq<
    (Seq<char>, Seq<usize>),
> {
    with_key(with_key(keys, name + "/kernel"@, seq![i, o]), name + "/bias"@, seq![o])
}

/// A manifest with the scale and the bias of one more layer norm.
pub open spec fn with_layer_norm(keys: Seq<(Seq<char>, Seq<usize>)>, name: Seq<char>, n: usize) -> Seq<
    (Seq<char>, Seq<usize>),
> {
    with_key(with_key(keys, name + "/scale"@, seq![n]), name + "/bias"@, seq![n])
}

/// A manifest with the scale of one more RMS norm.
pub open spec fn with_rms_norm(keys: Seq<(Seq<char>, Seq<usize>)>, name: Seq<char>, n: usize) -> Seq<
    (Seq<char>, Seq<usize>),
> {
    with_key(keys, name + "/scale"@, seq![n])
}

/// A longer manifest asks for the new tensor and for those it asked for before.
pub broadcast proof fn lists_with_key(
    keys: Seq<(Seq<char>, Seq<usize>)>,
    key: Seq<char>,
    shape: Seq<usize>,
    k: Seq<char>,
    s: Seq<usize>,
)
    ensures
        #[trigger] lists(with_key(keys, key, shape), k, s) == (lists(keys, k, s) || (k == key && s == shape)),
{
    reveal(lists);
    reveal(with_key);
    let longer = keys.push((key, shape));
    assert(longer[keys.len() as int] == (key, shape));
    if keys.contains((k, s)) {
        let i = choose|i: int| 0 <= i < keys.len() && keys[i] == (k, s);
        assert(longer[i] == (k, s));
    }
    if longer.contains((k, s)) {
        let i = choose|i: int| 0 <= i < longer.len() && longer[i] == (k, s);
        if i < keys.len() {
            assert(keys[i] == (k, s));
        }
    }
}

fn put_key(keys: &mut Vec<ManifestEntry>, key: String, shape: Vec<usize>)
    ensures
        listing(final(keys)@) == with_key(listing(old(keys)@), key@, shape@),
{
    reveal(with_key);
    keys.push(ManifestEntry { key, shape });
    assert(listing(keys@) =~= listing(old(keys)@).push((key@, shape@)));
}

fn put_dense(keys: &mut Vec<ManifestEntry>, name: &str, i: usize, o: usize)
    ensures
        listing(final(keys)@) == with_dense(listing(old(keys)@), name@, i, o),
{
    let wide = vec![i, o];
    let flat = vec![o];
    assert(wide@ =~= seq![i, o]);
    assert(flat@ =~= seq![o]);
    put_key(keys, joined(name, "/kernel"), wide);
    put_key(keys, joined(name, "/bias"), flat);
}

fn put_layer_norm(keys: &mut Vec<ManifestEntry>, name: &str, n: usize)
    ensures
        listing(final(keys)@) == with_layer_norm(listing(old(keys)@), name@, n),
{
    let scale = vec![n];
    let bias = vec![n];
    assert(scale@ =~= seq![n]);
    assert(bias@ =~= seq![n]);
    put_key(keys, joined(name, "/scale"), scale);
    put_key(keys, joined(name, "/bias"), bias);
}

fn put_rms_norm(keys: &mut Vec<ManifestEntry>, name: &str, n: usize)
    ensures
        listing(final(keys)@) == with_rms_norm(listing(old(keys)@), name@, n),
{
    let scale = vec![n];
    assert(scale@ =~= seq![n]);
    put_key(keys, joined(name, "/scale"), scale);
}

/// The widths that the maze layers have.
#[derive(Debug, Clone, Copy)]
pub struct MazeDims {
    pub in_feats: usize,
    pub enc_h: usize,
    pub d_v: usize,
    pub d_e: usize,
    pub dec_h: usize,
    pub dec_in: usize,
    pub dec_out: usize,
    pub lora_a_out: usize,
    pub lora_b_out: usize,
    pub num_directions: usize,
}

/// The widths that a maze configuration asks for.
pub open spec fn maze_dims_of<S>(config: &ExportedConfig<S>) -> MazeDims {
    let m = &config.model;
    let t = &config.task;
    let in_feats = t.patch_size * t.patch_size * t.num_classes;
    MazeDims {
        in_feats: in_feats as usize,
        enc_h: m.enc_hidden_dim,
        d_v: m.d_v,
        d_e: m.d_e,
        dec_h: m.dec_hidden_dim,
        dec_in: (in_feats + m.d_v) as usize,
        dec_out: (t.patch_size * t.patch_size * m.num_classes) as usize,
        lora_a_out: (m.num_directions * m.d_e * m.lora_rank) as usize,
        lora_b_out: (m.num_directions * m.d_v * m.lora_rank) as usize,
        num_directions: m.num_directions,
    }
}

/// The product of three sizes, formed from the left, stays within machine numbers.
pub open spec fn product_fits(a: usize, b: usize, c: usize) -> bool {
    a * b <= usize::MAX && a * b * c <= usize::MAX
}

/// All widths can be counted, and the directions are those of a compass.
pub open spec fn maze_countable<S>(config: &ExportedConfig<S>) -> bool {
    let m = &config.model;
    let t = &config.task;
    &&& product_fits(t.patch_size, t.patch_size, t.num_classes)
    &&& product_fits(t.patch_size, t.patch_size, m.num_classes)
    &&& t.patch_size * t.patch_size * t.num_classes + m.d_v <= usize::MAX
    &&& product_fits(m.num_directions, m.d_e, m.lora_rank)
    &&& product_fits(m.num_directions, m.d_v, m.lora_rank)
    &&& m.num_directions == 4 || m.num_directions == 8
}

/// The product of three sizes, where it can be counted.
fn checked_product(a: usize, b: usize, c: usize) -> (r: Option<usize>)
    ensures
        r is Some <==> product_fits(a, b, c),
        r matches Some(p) ==> p == a * b * c,
{
    match a.checked_mul(b) {
        Some(ab) => ab.checked_mul(c),
        None => None,
    }
}

/// Tests whether all widths of a maze configuration can be counted.
pub fn maze_sizes_countable<S: Scalar>(config: &ExportedConfig<S>) -> (r: bool)
    ensures
        r == maze_countable(config),
{
    let m = &config.model;
    let t = &config.task;
    let in_fits = match checked_product(t.patch_size, t.patch_size, t.num_classes) {
        Some(p) => p <= usize::MAX - m.d_v,
        None => false,
    };
    in_fits && checked_product(t.patch_size, t.patch_size, m.num_classes).is_some() && checked_product(
        m.num_directions,
        m.d_e,
        m.lora_rank,
    ).is_some() && checked_product(m.num_directions, m.d_v, m.lora_rank).is_some() && (m.num_directions
        == 4 || m.num_directions == 8)
}

pub fn maze_dims<S: Scalar>(config: &ExportedConfig<S>) -> (r: MazeDims)
    requires
        maze_countable(config),
    ensures
        r == maze_dims_of(config),
{
    let m = &config.model;
    let t = &config.task;
    let in_feats = t.patch_size * t.patch_size * t.num_classes;
    MazeDims {
        in_feats,
        enc_h: m.enc_hidden_dim,
        d_v: m.d_v,
        d_e: m.d_e,
        dec_h: m.dec_hidden_dim,
        dec_in: in_feats + m.d_v,
        dec_out: t.patch_size * t.patch_size * m.num_classes,
        lora_a_out: m.num_directions * m.d_e * m.lora_rank,
        lora_b_out: m.num_directions * m.d_v * m.lora_rank,
        num_directions: m.num_directions,
    }
}

/// A manifest with the base maps of the first `k` directions.
pub open spec fn with_directions(
    keys: Seq<(Seq<char>, Seq<usize>)>,
    names: Seq<Seq<char>>,
    k: nat,
    d_e: usize,
    d_v: usize,
) -> Seq<(Seq<char>, Seq<usize>)>
    decreases k,
{
    if k == 0 {
        keys
    } else {
        with_key(
            with_directions(keys, names, (k - 1) as nat, d_e, d_v),
            "rm/R_"@ + names[k - 1],
            seq![d_e, d_v],
        )
    }
}

/// The manifest asks for the map of each direction, and for what it asked before.
pub proof fn lists_with_directions(
    keys: Seq<(Seq<char>, Seq<usize>)>,
    names: Seq<Seq<char>>,
    k: nat,
    d_e: usize,
    d_v: usize,
)
    ensures
        forall|key: Seq<char>, shape: Seq<usize>| #[trigger]
            lists(keys, key, shape) ==> lists(with_directions(keys, names, k, d_e, d_v), key, shape),
        forall|i: int|
            0 <= i < k ==> lists(
                with_directions(keys, names, k, d_e, d_v),
                "rm/R_"@ + #[trigger] names[i],
                seq![d_e, d_v],
            ),
    decreases k,
{
    broadcast use lists_with_key;

    if k > 0 {
        lists_with_directions(keys, names, (k - 1) as nat, d_e, d_v);
    }
}

/// Encoder tensors of the maze model.
pub open spec fn maze_encoder_keys(d: MazeDims) -> Seq<(Seq<char>, Seq<usize>)> {
    let k = with_rms_norm(Seq::empty(), "MLPEncoderV2_0/input_norm"@, d.in_feats);
    let k = with_dense(k, "MLPEncoderV2_0/dense"@, d.in_feats, d.enc_h);
    let k = with_dense(k, "MLPEncoderV2_0/comm_head/comm_dense"@, d.enc_h, d.d_v);
    let k = with_layer_norm(k, "MLPEncoderV2_0/comm_head/comm_norm"@, d.d_v);
    let k = with_dense(k, "MLPEncoderV2_0/objective_heads/q_diag_dense"@, d.enc_h, d.d_v);
    let k = with_dense(k, "MLPEncoderV2_0/objective_heads/q_dense"@, d.enc_h, d.d_v);
    let k = with_dense(k, "MLPEncoderV2_0/objective_heads/l1_weight_dense"@, d.enc_h, d.d_v);
    let k = with_dense(k, "MLPEncoderV2_0/objective_heads/upper_bound_dense"@, d.enc_h, d.d_v);
    let k = with_layer_norm(k, "MLPEncoderV2_0/lora_pre_ln"@, d.enc_h);
    let k = with_dense(k, "MLPEncoderV2_0/lora_A_dense"@, d.enc_h, d.lora_a_out);
    with_dense(k, "MLPEncoderV2_0/lora_B_dense"@, d.enc_h, d.lora_b_out)
}

/// Every tensor of the maze model: encoder, decoder, base maps, and the penalty before it
/// was baked.
pub open spec fn maze_keys(d: MazeDims) -> Seq<(Seq<char>, Seq<usize>)> {
    let k = maze_encoder_keys(d);
    let k = with_rms_norm(k, "ConcatMLPDecoderV2_0/input_norm"@, d.dec_in);
    let k = with_dense(k, "ConcatMLPDecoderV2_0/dense"@, d.dec_in, d.dec_h);
    let k = with_dense(k, "ConcatMLPDecoderV2_0/output_dense"@, d.dec_h, d.dec_out);
    let k = with_directions(
        k,
        compass(d.num_directions),
        d.num_directions as nat,
        d.d_e,
        d.d_v,
    );
    with_key(k, "rho_raw"@, Seq::empty())
}

/// Exhaustive manifest of the maze model, with shapes derived from the configuration.
pub fn expected_keys<S: Scalar>(config: &ExportedConfig<S>) -> (r: Vec<ManifestEntry>)
    requires
        maze_countable(config),
    ensures
        listing(r@) == maze_keys(maze_dims_of(config)),
{
    let d = maze_dims(config);
    let mut keys: Vec<ManifestEntry> = Vec::new();
    assert(listing(keys@) =~= Seq::empty());
    put_rms_norm(&mut keys, "MLPEncoderV2_0/input_norm", d.in_feats);
    put_dense(&mut keys, "MLPEncoderV2_0/dense", d.in_feats, d.enc_h);
    put_dense(&mut keys, "MLPEncoderV2_0/comm_head/comm_dense", d.enc_h, d.d_v);
    put_layer_norm(&mut keys, "MLPEncoderV2_0/comm_head/comm_norm", d.d_v);
    put_dense(&mut keys, "MLPEncoderV2_0/objective_heads/q_diag_dense", d.enc_h, d.d_v);
    put_dense(&mut keys, "MLPEncoderV2_0/objective_heads/q_dense", d.enc_h, d.d_v);
    put_dense(&mut keys, "MLPEncoderV2_0/objective_heads/l1_weight_dense", d.enc_h, d.d_v);
    put_dense(&mut keys, "MLPEncoderV2_0/objective_heads/upper_bound_dense", d.enc_h, d.d_v);
    put_layer_norm(&mut keys, "MLPEncoderV2_0/lora_pre_ln", d.enc_h);
    put_dense(&mut keys, "MLPEncoderV2_0/lora_A_dense", d.enc_h, d.lora_a_out);
    put_dense(&mut keys, "MLPEncoderV2_0/lora_B_dense", d.enc_h, d.lora_b_out);
    assert(listing(keys@) == maze_encoder_keys(d));
    put_rms_norm(&mut keys, "ConcatMLPDecoderV2_0/input_norm", d.dec_in);
    put_dense(&mut keys, "ConcatMLPDecoderV2_0/dense", d.dec_in, d.dec_h);
    put_dense(&mut keys, "ConcatMLPDecoderV2_0/output_dense", d.dec_h, d.dec_out);
    let ghost before = listing(keys@);
    let names = direction_names(d.num_directions);
    for k in 0..d.num_directions
        invariant
            names@.len() == d.num_directions,
            names@.map_values(|name: &str| name@) == compass(d.num_directions),
            listing(keys@) == with_directions(before, compass(d.num_directions), k as nat, d.d_e, d.d_v),
    {
        assert(compass(d.num_directions)[k as int] == names@[k as int]@) by {
            assert(names@.map_values(|name: &str| name@)[k as int] == names@[k as int]@);
        }
        put_key(&mut keys, joined("rm/R_", names[k]), vec![d.d_e, d.d_v]);
    }
    let none: Vec<usize> = Vec::new();
    assert(none@ =~= Seq::empty());
    put_key(&mut keys, "rho_raw".to_owned(), none);
    keys
}

/// The widths that the mnist layers have.
#[derive(Debug, Clone, Copy)]
pub struct MnistDims {
    pub in_feats: usize,
    pub enc_h: usize,
    pub d_v: usize,
    pub d_e: usize,
    pub num_classes: usize,
    pub lora_a_out: usize,
    pub lora_b_out: usize,
}

/// The widths that an mnist configuration asks for; images have one channel.
pub open spec fn mnist_dims_of<S>(config: &ExportedConfig<S>) -> MnistDims {
    let m = &config.model;
    let t = &config.task;
    MnistDims {
        in_feats: (t.patch_size * t.patch_size) as usize,
        enc_h: m.enc_hidden_dim,
        d_v: m.d_v,
        d_e: m.d_e,
        num_classes: m.num_classes,
        lora_a_out: (m.num_directions * m.d_e * m.lora_rank) as usize,
        lora_b_out: (m.num_directions * m.d_v * m.lora_rank) as usize,
    }
}

/// All widths can be counted.
pub open spec fn mnist_countable<S>(config: &ExportedConfig<S>) -> bool {
    let m = &config.model;
    let t = &config.task;
    &&& t.patch_size * t.patch_size <= usize::MAX
    &&& product_fits(m.num_directions, m.d_e, m.lora_rank)
    &&& product_fits(m.num_directions, m.d_v, m.lora_rank)
}

/// Tests whether all widths of an mnist configuration can be counted.
pub fn mnist_sizes_countable<S: Scalar>(config: &ExportedConfig<S>) -> (r: bool)
    ensures
        r == mnist_countable(config),
{
    let m = &config.model;
    let t = &config.task;
    t.patch_size.checked_mul(t.patch_size).is_some() && checked_product(
        m.num_directions,
        m.d_e,
        m.lora_rank,
    ).is_some() && checked_product(m.num_directions, m.d_v, m.lora_rank).is_some()
}

pub fn mnist_dims<S: Scalar>(config: &ExportedConfig<S>) -> (r: MnistDims)
    requires
        mnist_countable(config),
    ensures
        r == mnist_dims_of(config),
{
    let m = &config.model;
    let t = &config.task;
    MnistDims {
        in_feats: t.patch_size * t.patch_size,
        enc_h: m.enc_hidden_dim,
        d_v: m.d_v,
        d_e: m.d_e,
        num_classes: m.num_classes,
        lora_a_out: m.num_directions * m.d_e * m.lora_rank,
        lora_b_out: m.num_directions * m.d_v * m.lora_rank,
    }
}

/// Every tensor of the mnist model.
pub open spec fn mnist_keys(d: MnistDims) -> Seq<(Seq<char>, Seq<usize>)> {
    let k = with_dense(Seq::empty(), "MLPEncoder_0/input_proj"@, d.in_feats, d.enc_h);
    let k = with_rms_norm(k, "MLPEncoder_0/block_0/norm"@, d.enc_h);
    let k = with_dense(k, "MLPEncoder_0/block_0/dense1"@, d.enc_h, d.enc_h);
    let k = with_dense(k, "MLPEncoder_0/block_0/dense2"@, d.enc_h, d.enc_h);
    let k = with_dense(k, "MLPEncoder_0/comm_head/comm_dense"@, d.enc_h, d.d_v);
    let k = with_layer_norm(k, "MLPEncoder_0/comm_head/comm_norm"@, d.d_v);
    let k = with_dense(k, "MLPEncoder_0/objective_heads/q_diag_dense"@, d.enc_h, d.d_v);
    let k = with_dense(k, "MLPEncoder_0/objective_heads/q_dense"@, d.enc_h, d.d_v);
    let k = with_layer_norm(k, "MLPEncoder_0/lora_pre_ln"@, d.enc_h);
    let k = with_dense(k, "MLPEncoder_0/lora_A_dense"@, d.enc_h, d.lora_a_out);
    let k = with_dense(k, "MLPEncoder_0/lora_B_dense"@, d.enc_h, d.lora_b_out);
    let k = with_dense(k, "ClassificationDecoder_0/cls_output"@, d.d_v, d.num_classes);
    let k = with_key(k, "rm/R_shared"@, seq![d.d_e, d.d_v]);
    with_key(k, "rho_raw"@, Seq::empty())
}

/// Exhaustive manifest of the mnist model.
pub fn mnist_expected_keys<S: Scalar>(config: &ExportedConfig<S>) -> (r: Vec<ManifestEntry>)
    requires
        mnist_countable(config),
    ensures
        listing(r@) == mnist_keys(mnist_dims_of(config)),
{
    let d = mnist_dims(config);
    let mut keys: Vec<ManifestEntry> = Vec::new();
    assert(listing(keys@) =~= Seq::empty());
    put_dense(&mut keys, "MLPEncoder_0/input_proj", d.in_feats, d.enc_h);
    put_rms_norm(&mut keys, "MLPEncoder_0/block_0/norm", d.enc_h);
    put_dense(&mut keys, "MLPEncoder_0/block_0/dense1", d.enc_h, d.enc_h);
    put_dense(&mut keys, "MLPEncoder_0/block_0/dense2", d.enc_h, d.enc_h);
    put_dense(&mut keys, "MLPEncoder_0/comm_head/comm_dense", d.enc_h, d.d_v);
    put_layer_norm(&mut keys, "MLPEncoder_0/comm_head/comm_norm", d.d_v);
    put_dense(&mut keys, "MLPEncoder_0/objective_heads/q_diag_dense", d.enc_h, d.d_v);
    put_dense(&mut keys, "MLPEncoder_0/objective_heads/q_dense", d.enc_h, d.d_v);
    put_layer_norm(&mut keys, "MLPEncoder_0/lora_pre_ln", d.enc_h);
    put_dense(&mut keys, "MLPEncoder_0/lora_A_dense", d.enc_h, d.lora_a_out);
    put_dense(&mut keys, "MLPEncoder_0/lora_B_dense", d.enc_h, d.lora_b_out);
    put_dense(&mut keys, "ClassificationDecoder_0/cls_output", d.d_v, d.num_classes);
    put_key(&mut keys, "rm/R_shared".to_owned(), vec![d.d_e, d.d_v]);
    let none: Vec<usize> = Vec::new();
    assert(none@ =~= Seq::empty());
    put_key(&mut keys, "rho_raw".to_owned(), none);
    keys
}

/// The widths that the sudoku layers have.
#[derive(Debug, Clone, Copy)]
pub struct SudokuDims {
    pub num_classes: usize,
    pub d_model: usize,
    pub d_v: usize,
    pub d_e: usize,
    /// State width of one cell: a ninth of the state.
    pub cell_dim: usize,
    /// Hidden width of the channel mixer.
    pub channel: usize,
    pub channel_gates: usize,
    pub lora_a_out: usize,
    pub lora_b_out: usize,
    pub blocks: usize,
    /// Whether the maps are modulated.
    pub context: bool,
}

/// The widths that a sudoku configuration asks for. Hidden widths are twice the outer ones.
pub open spec fn sudoku_dims_of<S>(config: &ExportedConfig<S>) -> SudokuDims {
    let m = &config.model;
    SudokuDims {
        num_classes: m.num_classes,
        d_model: m.enc_d_model,
        d_v: m.d_v,
        d_e: m.d_e,
        cell_dim: (m.d_v as int / 9) as usize,
        channel: (m.enc_d_model * 2) as usize,
        channel_gates: (2 * (m.enc_d_model * 2)) as usize,
        lora_a_out: (9 * m.d_e * m.lora_rank) as usize,
        lora_b_out: (9 * m.d_v * m.lora_rank) as usize,
        blocks: m.enc_num_blocks,
        context: m.rm_mode@ == "context"@,
    }
}

/// All widths can be counted. Those of the modulation heads matter only where there are
/// such heads.
pub open spec fn sudoku_countable<S>(config: &ExportedConfig<S>) -> bool {
    let m = &config.model;
    &&& 4 * m.enc_d_model <= usize::MAX
    &&& m.rm_mode@ == "context"@ ==> product_fits(9, m.d_e, m.lora_rank) && product_fits(9, m.d_v, m.lora_rank)
}

/// Tests whether all widths of a sudoku configuration can be counted.
pub fn sudoku_sizes_countable<S: Scalar>(config: &ExportedConfig<S>) -> (r: bool)
    ensures
        r == sudoku_countable(config),
{
    let m = &config.model;
    m.enc_d_model <= usize::MAX / 4 && (!text_is(&m.rm_mode, "context") || (checked_product(
        9,
        m.d_e,
        m.lora_rank,
    ).is_some() && checked_product(9, m.d_v, m.lora_rank).is_some()))
}

pub fn sudoku_dims<S: Scalar>(config: &ExportedConfig<S>) -> (r: SudokuDims)
    requires
        sudoku_countable(config),
    ensures
        r == (SudokuDims {
            lora_a_out: r.lora_a_out,
            lora_b_out: r.lora_b_out,
            ..sudoku_dims_of(config)
        }),
        r.context ==> r == sudoku_dims_of(config),
{
    let m = &config.model;
    let context = text_is(&m.rm_mode, "context");
    let (lora_a_out, lora_b_out) = if context {
        (9 * m.d_e * m.lora_rank, 9 * m.d_v * m.lora_rank)
    } else {
        (0, 0)
    };
    SudokuDims {
        num_classes: m.num_classes,
        d_model: m.enc_d_model,
        d_v: m.d_v,
        d_e: m.d_e,
        cell_dim: m.d_v / 9,
        channel: m.enc_d_model * 2,
        channel_gates: 2 * (m.enc_d_model * 2),
        lora_a_out,
        lora_b_out,
        blocks: m.enc_num_blocks,
        context,
    }
}

/// Name of mixer block `i`.
pub open spec fn mixer_name(i: nat) -> Seq<char> {
    "SudokuEncoder_0/mixer_block_"@ + numeral(i)
}

/// Name of decoder block `i`.
pub open spec fn block_name(i: nat) -> Seq<char> {
    "SudokuDecoder_0/block_"@ + numeral(i)
}

/// A manifest with one more mixer block: gated token and channel layers over nine tokens,
/// each followed by a norm.
pub open spec fn with_mixer(keys: Seq<(Seq<char>, Seq<usize>)>, i: nat, d: SudokuDims) -> Seq<
    (Seq<char>, Seq<usize>),
> {
    let blk = mixer_name(i);
    let k = with_dense(keys, blk + "/token_mlp/gate_up"@, 9, 36);
    let k = with_dense(k, blk + "/token_mlp/down"@, 18, 9);
    let k = with_rms_norm(k, blk + "/token_norm"@, d.d_model);
    let k = with_dense(k, blk + "/channel_mlp/gate_up"@, d.d_model, d.channel_gates);
    let k = with_dense(k, blk + "/channel_mlp/down"@, d.channel, d.d_model);
    with_rms_norm(k, blk + "/channel_norm"@, d.d_model)
}

pub open spec fn with_mixers(keys: Seq<(Seq<char>, Seq<usize>)>, n: nat, d: SudokuDims) -> Seq<
    (Seq<char>, Seq<usize>),
>
    decreases n,
{
    if n == 0 {
        keys
    } else {
        with_mixer(with_mixers(keys, (n - 1) as nat, d), (n - 1) as nat, d)
    }
}

/// Input width of decoder block `i`: that of a cell for the first, else the width of the
/// block before it.
pub open spec fn width_before(cell_dim: usize, widths: Seq<usize>, i: int) -> usize {
    if i == 0 {
        cell_dim
    } else {
        widths[i - 1]
    }
}

/// A manifest with one more decoder block; where its width changes, the block has a
/// projection on the residual path.
pub open spec fn with_block(keys: Seq<(Seq<char>, Seq<usize>)>, i: nat, from: usize, to: usize) -> Seq<
    (Seq<char>, Seq<usize>),
> {
    let blk = block_name(i);
    let k = with_rms_norm(keys, blk + "/norm"@, from);
    let k = with_dense(k, blk + "/dense1"@, from, to);
    let k = with_dense(k, blk + "/dense2"@, to, to);
    if from != to {
        with_dense(k, blk + "/residual_proj"@, from, to)
    } else {
        k
    }
}

pub open spec fn with_blocks(
    keys: Seq<(Seq<char>, Seq<usize>)>,
    n: nat,
    cell_dim: usize,
    widths: Seq<usize>,
) -> Seq<(Seq<char>, Seq<usize>)>
    decreases n,
{
    if n == 0 {
        keys
    } else {
        with_block(
            with_blocks(keys, (n - 1) as nat, cell_dim, widths),
            (n - 1) as nat,
            width_before(cell_dim, widths, n - 1),
            widths[n - 1],
        )
    }
}

/// Encoder tensors of the sudoku model.
pub open spec fn sudoku_encoder_keys(d: SudokuDims) -> Seq<(Seq<char>, Seq<usize>)> {
    let k = with_dense(Seq::empty(), "SudokuEncoder_0/token_embed"@, d.num_classes, d.d_model);
    let k = with_key(k, "SudokuEncoder_0/global_pos_embed/embedding"@, seq![81usize, d.d_model]);
    let k = with_key(k, "SudokuEncoder_0/pos_embed"@, seq![1usize, 9, d.d_model]);
    let k = with_mixers(k, d.blocks as nat, d);
    let k = with_rms_norm(k, "SudokuEncoder_0/pre_flat_norm"@, d.d_model);
    let k = with_dense(k, "SudokuEncoder_0/cell_proj"@, d.d_model, d.cell_dim);
    let k = with_rms_norm(k, "SudokuEncoder_0/cell_norm"@, d.cell_dim);
    let k = with_dense(k, "SudokuEncoder_0/comm_head/comm_dense"@, d.d_v, d.d_v);
    let k = with_layer_norm(k, "SudokuEncoder_0/comm_head/comm_norm"@, d.d_v);
    let k = with_dense(k, "SudokuEncoder_0/objective_heads/q_diag_dense"@, d.d_model, d.d_v);
    let k = with_dense(k, "SudokuEncoder_0/objective_heads/q_dense"@, d.d_model, d.d_v);
    if d.context {
        let k = with_rms_norm(k, "SudokuEncoder_0/lora_pre_norm"@, d.d_model);
        let k = with_dense(k, "SudokuEncoder_0/lora_A_dense"@, d.d_model, d.lora_a_out);
        with_dense(k, "SudokuEncoder_0/lora_B_dense"@, d.d_model, d.lora_b_out)
    } else {
        k
    }
}

/// Output width of the last decoder block.
pub open spec fn last_width(cell_dim: usize, widths: Seq<usize>) -> usize {
    width_before(cell_dim, widths, widths.len() as int)
}

/// Every tensor of the sudoku model.
pub open spec fn sudoku_keys(d: SudokuDims, widths: Seq<usize>) -> Seq<(Seq<char>, Seq<usize>)> {
    let k = sudoku_encoder_keys(d);
    let k = with_blocks(k, widths.len(), d.cell_dim, widths);
    let k = with_dense(k, "SudokuDecoder_0/output_dense"@, last_width(d.cell_dim, widths), d.num_classes);
    let k = with_key(k, "rm/R_indices"@, seq![9usize, d.d_e, d.d_v]);
    with_key(k, "rho_raw"@, Seq::empty())
}

fn put_mixer(keys: &mut Vec<ManifestEntry>, i: usize, d: SudokuDims)
    ensures
        listing(final(keys)@) == with_mixer(listing(old(keys)@), i as nat, d),
{
    let blk = joined("SudokuEncoder_0/mixer_block_", decimal_text(i).as_str());
    let b = blk.as_str();
    put_dense(keys, joined(b, "/token_mlp/gate_up").as_str(), 9, 36);
    put_dense(keys, joined(b, "/token_mlp/down").as_str(), 18, 9);
    put_rms_norm(keys, joined(b, "/token_norm").as_str(), d.d_model);
    put_dense(keys, joined(b, "/channel_mlp/gate_up").as_str(), d.d_model, d.channel_gates);
    put_dense(keys, joined(b, "/channel_mlp/down").as_str(), d.channel, d.d_model);
    put_rms_norm(keys, joined(b, "/channel_norm").as_str(), d.d_model);
}

fn put_block(keys: &mut Vec<ManifestEntry>, i: usize, from: usize, to: usize)
    ensures
        listing(final(keys)@) == with_block(listing(old(keys)@), i as nat, from, to),
{
    let blk = joined("SudokuDecoder_0/block_", decimal_text(i).as_str());
    let b = blk.as_str();
    put_rms_norm(keys, joined(b, "/norm").as_str(), from);
    put_dense(keys, joined(b, "/dense1").as_str(), from, to);
    put_dense(keys, joined(b, "/dense2").as_str(), to, to);
    if from != to {
        put_dense(keys, joined(b, "/residual_proj").as_str(), from, to);
    }
}

/// Exhaustive manifest of the sudoku model. The modulation heads are in it only where the
/// maps are modulated.
pub fn sudoku_expected_keys<S: Scalar>(config: &ExportedConfig<S>) -> (r: Vec<ManifestEntry>)
    requires
        sudoku_countable(config),
    ensures
        listing(r@) == sudoku_keys(sudoku_dims_of(config), config.model.dec_hidden_dims@),
{
    let d = sudoku_dims(config);
    let widths = &config.model.dec_hidden_dims;
    let mut keys: Vec<ManifestEntry> = Vec::new();
    assert(listing(keys@) =~= Seq::empty());
    put_dense(&mut keys, "SudokuEncoder_0/token_embed", d.num_classes, d.d_model);
    put_key(&mut keys, "SudokuEncoder_0/global_pos_embed/embedding".to_owned(), vec![81, d.d_model]);
    put_key(&mut keys, "SudokuEncoder_0/pos_embed".to_owned(), vec![1, 9, d.d_model]);
    let ghost before = listing(keys@);
    for i in 0..d.blocks
        invariant
            listing(keys@) == with_mixers(before, i as nat, d),
    {
        put_mixer(&mut keys, i, d);
    }
    put_rms_norm(&mut keys, "SudokuEncoder_0/pre_flat_norm", d.d_model);
    put_dense(&mut keys, "SudokuEncoder_0/cell_proj", d.d_model, d.cell_dim);
    put_rms_norm(&mut keys, "SudokuEncoder_0/cell_norm", d.cell_dim);
    put_dense(&mut keys, "SudokuEncoder_0/comm_head/comm_dense", d.d_v, d.d_v);
    put_layer_norm(&mut keys, "SudokuEncoder_0/comm_head/comm_norm", d.d_v);
    put_dense(&mut keys, "SudokuEncoder_0/objective_heads/q_diag_dense", d.d_model, d.d_v);
    put_dense(&mut keys, "SudokuEncoder_0/objective_heads/q_dense", d.d_model, d.d_v);
    if d.context {
        put_rms_norm(&mut keys, "SudokuEncoder_0/lora_pre_norm", d.d_model);
        put_dense(&mut keys, "SudokuEncoder_0/lora_A_dense", d.d_model, d.lora_a_out);
        put_dense(&mut keys, "SudokuEncoder_0/lora_B_dense", d.d_model, d.lora_b_out);
    }
    assert(listing(keys@) == sudoku_encoder_keys(d));
    let ghost encoder = listing(keys@);
    let mut from = d.cell_dim;
    for i in 0..widths.len()
        invariant
            from == width_before(d.cell_dim, widths@, i as int),
            listing(keys@) == with_blocks(encoder, i as nat, d.cell_dim, widths@),
    {
        let to = widths[i];
        put_block(&mut keys, i, from, to);
        from = to;
    }
    put_dense(&mut keys, "SudokuDecoder_0/output_dense", from, d.num_classes);
    put_key(&mut keys, "rm/R_indices".to_owned(), vec![9, d.d_e, d.d_v]);
    let none: Vec<usize> = Vec::new();
    assert(none@ =~= Seq::empty());
    put_key(&mut keys, "rho_raw".to_owned(), none);
    proof {
        sudoku_keys_unmodulated(d, sudoku_dims_of(config), widths@);
    }
    keys
}

proof fn with_mixers_same(keys: Seq<(Seq<char>, Seq<usize>)>, n: nat, a: SudokuDims, b: SudokuDims)
    requires
        a.d_model == b.d_model,
        a.channel == b.channel,
        a.channel_gates == b.channel_gates,
    ensures
        with_mixers(keys, n, a) == with_mixers(keys, n, b),
    decreases n,
{
    if n > 0 {
        with_mixers_same(keys, (n - 1) as nat, a, b);
    }
}

/// Without modulation the widths of the modulation heads do not matter.
proof fn sudoku_keys_unmodulated(a: SudokuDims, b: SudokuDims, widths: Seq<usize>)
    requires
        a == (SudokuDims { lora_a_out: a.lora_a_out, lora_b_out: a.lora_b_out, ..b }),
        a.context ==> a == b,
    ensures
        sudoku_keys(a, widths) == sudoku_keys(b, widths),
{
    let k = with_dense(Seq::empty(), "SudokuEncoder_0/token_embed"@, a.num_classes, a.d_model);
    let k = with_key(k, "SudokuEncoder_0/global_pos_embed/embedding"@, seq![81usize, a.d_model]);
    let k = with_key(k, "SudokuEncoder_0/pos_embed"@, seq![1usize, 9, a.d_model]);
    with_mixers_same(k, a.blocks as nat, a, b);
}

} // verus!
