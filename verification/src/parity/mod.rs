//! Comparison of a run with a recorded one, array by array in the order of computation, so that
//! the first comparison that fails names the step that went wrong.
mod agree;
mod checks;
mod gather;
mod plan;
mod run;

pub use agree::gathers_agree;
pub use checks::{
    archive_of, error_says, failed_names, fetch_numbers, integers_in, lack_of, numbers_in, numbers_of,
    pair_at, pointed_at, replay, replayed, row_is, slab_of, stored_name, wanted_of, Archive, Check,
    CheckModel, Comparison, Lack, Row, Verdict, Wanted, WantedModel,
};
pub use gather::{block_of, cube_of, edge_blocks, gather_blocks, gathered, unflatten};
pub use plan::{
    all_reassembled, awaited, edge_blocks_of, edge_factors, encoder_checks, encoder_tolerance, ends_u, ends_v, exactly,
    factor_names, final_checks, gather_check, gather_checks, integers_check, map_checks, numbers_check,
    objective_checks, plain2, plain3, plain5, plain_dirs, plain_edges, plain_factors, plan_of, scene_checks,
    slab_check, step_checks, step_label, step_names,
};
pub use run::{compare_run, plan_run, planned, recorded_steps, recorded_tokens, refused};
