//! Mazes as flat tokens.
use super::{accepted, built_size, generate_maze_hw, MAX_ATTEMPTS};
use crate::tensor::Arr2;
use crate::text::{decimal_text, joined, numeral};
use crate::views::TOKEN_GOAL;
use vstd::prelude::*;
use vstd::string::*;

verus! {

/// A size of which there are no mazes.
#[derive(Debug, Clone, Copy, PartialEq, Eq, Structural)]
pub struct MazeSizeError {
    pub height: usize,
    pub width: usize,
}

impl MazeSizeError {
    /// The text of the error.
    pub open spec fn text(self) -> Seq<char> {
        "maze sizes must be odd and >= 3 (odd-index lattice); got "@ + numeral(self.height as nat) + "x"@
            + numeral(self.width as nat)
    }

    /// Describes the error.
    pub fn message(&self) -> (r: String)
        ensures
            r@ == self.text(),
    {
        let mut out = joined(
            "maze sizes must be odd and >= 3 (odd-index lattice); got ",
            decimal_text(self.height).as_str(),
        );
        out.append("x");
        out.append(decimal_text(self.width).as_str());
        out
    }
}

/// Both extents are odd and at least three.
pub open spec fn lattice_size(h: usize, w: usize) -> bool {
    h >= 3 && w >= 3 && h % 2 == 1 && w % 2 == 1
}

/// The shortest path that is asked of a maze: one less than its longer side.
pub open spec fn path_asked(h: usize, w: usize) -> nat {
    (if h > w {
        h - 1
    } else {
        w - 1
    }) as nat
}

/// The tokens of a grid, row after row.
pub open spec fn flat_tokens(t: Arr2<i64>) -> Seq<u8> {
    Seq::new(t.rows * t.cols, |p: int| t.at(p / t.cols as int, p % t.cols as int) as u8)
}

/// Generates a maze whose shortest path is at least its longer side less one, as row-major
/// tokens. A maze of one row or column of cells has no path of that length.
pub fn maze_tokens(seed: u64, h: usize, w: usize) -> (r: Result<Vec<u8>, MazeSizeError>)
    requires
        lattice_size(h, w) ==> h >= 5 && w >= 5 && h * w <= usize::MAX,
    ensures
        if lattice_size(h, w) {
            r matches Ok(tokens) && tokens@ == flat_tokens(
                accepted(h as nat, w as nat, seed, path_asked(h, w), MAX_ATTEMPTS as nat),
            )
        } else {
            r == Err::<Vec<u8>, MazeSizeError>(MazeSizeError { height: h, width: w })
        },
{
    if h < 3 || w < 3 || h % 2 == 0 || w % 2 == 0 {
        return Err(MazeSizeError { height: h, width: w });
    }
    let min_path = if h > w {
        h - 1
    } else {
        w - 1
    };
    assert(min_path <= 2 * (((h - 1) / 2) * ((w - 1) / 2) - 1)) by {
        let ky = (h - 1) / 2;
        let kx = (w - 1) / 2;
        assert(ky * kx >= 2 * ky && ky * kx >= 2 * kx) by (nonlinear_arith)
            requires
                ky >= 2,
                kx >= 2,
        ;
    }
    let maze = generate_maze_hw(h, w, seed, min_path);
    let ghost want = flat_tokens(maze.tokens@);
    proof {
        built_size(maze.tokens@, h as nat, w as nat);
    }
    let mut out: Vec<u8> = Vec::new();
    for p in 0..h * w
        invariant
            maze.tokens.wf(),
            maze.tokens@.rows == h,
            maze.tokens@.cols == w,
            forall|y: int, x: int|
                0 <= y < h && 0 <= x < w ==> 0 <= #[trigger] maze.tokens@.at(y, x) <= TOKEN_GOAL,
            h * w <= usize::MAX,
            want == flat_tokens(maze.tokens@),
            out@.len() == p,
            forall|q: int| 0 <= q < p ==> #[trigger] out@[q] == want[q],
    {
        assert(0 < w && 0 <= p as int / w as int && (p as int / w as int) < h) by (nonlinear_arith)
            requires
                0 <= p < h * w,
                0 <= w,
        ;
        out.push(maze.tokens.get(p / w, p % w) as u8);
    }
    assert(out@ =~= want);
    Ok(out)
}

} // verus!
