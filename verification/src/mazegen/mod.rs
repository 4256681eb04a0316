//! Mazes and their paths.
mod carve;
mod path;
mod tokens;

pub use carve::{
    accepted, attempt_of, blank, built_size, carve_next, carve_start, carved, found_where_it_is,
    generate_maze, generate_maze_hw, last_column, lattice_maze, lattice_of, long_enough, maze_size,
    maze_with, on_border, paint, path_len_is, put, rng_next, rng_pick, search_finds_the_length, turn,
    well_built, winding, CarveState, GeneratedMaze, Lattice, MAX_ATTEMPTS,
};
pub(crate) use carve::{cell_parts, options_are_steps, step_parts};
pub use path::{
    beside, bfs_path_len, find_token, first_from, free, neighbor, path_length, path_length_is_found,
    shortest, walk,
};
pub use tokens::{flat_tokens, lattice_size, maze_tokens, path_asked, MazeSizeError};
