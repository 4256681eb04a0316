//! Stored weights to typed parameters.
//!
//! A stored tensor is named by the path of its layer, with `/` between the parts, behind
//! the name of its collection. All names are resolved here, once.
//!
//! - Kernels are `[in, out]` and are not transposed.
//! - Tensors may be single or half precision; half precision is widened.
//! - Every expected tensor must be present, and no other may be.
use crate::text::{bracketed, joined, list_text};
use vstd::prelude::*;
use vstd::string::*;

mod compare;
mod container;
mod load;
mod manifest;
mod mnist;
mod sudoku;
mod tree;

pub use compare::{
    absent_collections_are_refused, agree_on, agreeing_files_load_alike, collections_fix_their_model,
    foreign_tensors_are_refused, same_dense, same_layer_norm, same_model, same_rms_norm,
    strict_loads_are_lenient,
};
pub use container::{
    by_name, by_name_holds, container_contents, ends_countable, half_at, header, header_ends,
    leading_bit, little_endian, member_count, named, names_distinct,
    offsets_are_countable, offsets_countable, pow2, single_at, to_f32_vec, widen_half, widened_half,
    ElementType, RawTensor, TensorModel,
};
pub use manifest::{
    block_name, expected_keys, last_width, listing, lists, maze_countable, maze_dims_of,
    maze_encoder_keys, maze_keys, maze_sizes_countable, mixer_name, mnist_countable, mnist_dims_of,
    mnist_expected_keys, mnist_keys, mnist_sizes_countable, product_fits, sudoku_countable,
    sudoku_dims_of, sudoku_encoder_keys, sudoku_expected_keys, sudoku_keys, sudoku_sizes_countable,
    width_before, with_block, with_blocks, with_dense, with_directions, with_key, with_layer_norm,
    with_mixer, with_mixers, with_rms_norm, ManifestEntry, MazeDims, MnistDims, SudokuDims,
};
pub use load::{
    both_complete, both_violated, build_model, first_mismatch, foreign, lists_dense, lists_layer_norm,
    load_maze_model, load_maze_model_from_bytes, loaded_maze_fits, loads_leniently, loads_strictly,
    maze_model_is, maze_scope,
    maze_scope_guards, mnist_scope, mnist_scope_guards, only_collections, reports_mismatch, source_of,
    stored_tensors, sudoku_scope, sudoku_scope_guards,
};
pub use mnist::{build_mnist_model, load_mnist_model, mnist_model_is, readout_of, reports_readout};
pub use sudoku::{
    block_is, build_sudoku_model, heads_are, load_sudoku_model, mixer_is, sudoku_model_is,
    sudoku_params_are,
};
pub use tree::{full_key, Source};

verus! {

/// Which collection to read.
#[derive(Debug, Clone, Copy, PartialEq, Eq, Structural)]
pub enum WeightCollection {
    /// Averaged weights; the default.
    Ema,
    /// Weights as trained.
    Raw,
}

impl Default for WeightCollection {
    fn default() -> (r: Self)
        ensures
            r == WeightCollection::Ema,
    {
        WeightCollection::Ema
    }
}

impl WeightCollection {
    pub open spec fn spec_prefix(self) -> Seq<char> {
        match self {
            WeightCollection::Ema => "ema_params"@,
            WeightCollection::Raw => "params"@,
        }
    }

    /// The name that stored tensors of the collection begin with.
    pub fn prefix(self) -> (r: &'static str)
        ensures
            r@ == self.spec_prefix(),
    {
        match self {
            WeightCollection::Ema => "ema_params",
            WeightCollection::Raw => "params",
        }
    }
}

/// Why weights were refused.
#[derive(Debug)]
pub enum WeightsError {
    /// The configuration names something that the loader does not know.
    Unsupported { field: String, found: String },
    /// The bytes are no well-formed container.
    Malformed,
    /// The collection holds a tensor that its manifest does not list.
    UnexpectedKey { name: String },
    /// A tensor has another shape than its manifest entry.
    WrongShape { name: String, expected: Vec<usize>, found: Vec<usize> },
    /// A tensor's number format cannot be loaded.
    UnsupportedType { name: String, format: String },
    /// The collection lacks a tensor that its manifest lists.
    MissingKey { name: String },
    /// A tensor belongs to neither collection.
    ForeignKey { name: String },
    /// The configuration names no readout mode that the loader knows.
    UnsupportedReadout { found: Option<String> },
}

impl WeightsError {
    /// The text of an error.
    pub open spec fn text(self) -> Seq<char> {
        match self {
            WeightsError::Unsupported { field, found } => "unsupported "@ + field@ + " \""@ + found@ + "\""@,
            WeightsError::Malformed => "parsing safetensors"@,
            WeightsError::UnexpectedKey { name } => "unexpected key \""@ + name@
                + "\" in safetensors (manifest violation)"@,
            WeightsError::WrongShape { name, expected, found } => "tensor \""@ + name@ + "\": expected shape "@
                + bracketed(expected@) + ", got "@ + bracketed(found@),
            WeightsError::UnsupportedType { name, format } => "tensor \""@ + name@
                + "\": unsupported dtype "@ + format@ + " (want F32 or F16)"@,
            WeightsError::MissingKey { name } => "missing key "@ + name@
                + " in safetensors (manifest violation)"@,
            WeightsError::ForeignKey { name } => "unexpected top-level key \""@ + name@
                + "\" (want params/... or ema_params/...)"@,
            WeightsError::UnsupportedReadout { found } => "unsupported dec_readout_mode "@ + (match found {
                Some(mode) => "Some(\""@ + mode@ + "\")"@,
                None => "None"@,
            }) + " (x_only|concat)"@,
        }
    }

    /// Describes the error.
    pub fn message(&self) -> (r: String)
        ensures
            r@ == self.text(),
    {
        match self {
            WeightsError::Unsupported { field, found } => {
                let mut out = joined("unsupported ", field.as_str());
                out.append(" \"");
                out.append(found.as_str());
                out.append("\"");
                out
            },
            WeightsError::Malformed => "parsing safetensors".to_owned(),
            WeightsError::UnexpectedKey { name } => {
                let mut out = joined("unexpected key \"", name.as_str());
                out.append("\" in safetensors (manifest violation)");
                out
            },
            WeightsError::WrongShape { name, expected, found } => {
                let mut out = joined("tensor \"", name.as_str());
                out.append("\": expected shape ");
                out.append(list_text(expected).as_str());
                out.append(", got ");
                out.append(list_text(found).as_str());
                out
            },
            WeightsError::UnsupportedType { name, format } => {
                let mut out = joined("tensor \"", name.as_str());
                out.append("\": unsupported dtype ");
                out.append(format.as_str());
                out.append(" (want F32 or F16)");
                out
            },
            WeightsError::MissingKey { name } => {
                let mut out = joined("missing key ", name.as_str());
                out.append(" in safetensors (manifest violation)");
                out
            },
            WeightsError::ForeignKey { name } => {
                let mut out = joined("unexpected top-level key \"", name.as_str());
                out.append("\" (want params/... or ema_params/...)");
                out
            },
            WeightsError::UnsupportedReadout { found } => {
                let mut mode = match found {
                    Some(mode) => {
                        let mut text = joined("Some(\"", mode.as_str());
                        text.append("\")");
                        text
                    },
                    None => "None".to_owned(),
                };
                mode.append(" (x_only|concat)");
                joined("unsupported dec_readout_mode ", mode.as_str())
            },
        }
    }
}

} // verus!
