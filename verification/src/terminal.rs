//! Mazes and predictions as lines of coloured terminal text.
use crate::tensor::Matrix;
use crate::text::{decimal_text, joined, numeral};
use crate::views::{TOKEN_GOAL, TOKEN_START};
use vstd::prelude::*;
use vstd::string::*;

verus! {

/// Background and foreground colour of a predicted class: walls dark, free cells light, start
/// green, goal red, path bright yellow, everything else near black.
pub open spec fn palette_of(class: i64) -> (nat, nat) {
    if class == 1 {
        (236, 250)
    } else if class == 2 {
        (252, 232)
    } else if class == 3 {
        (34, 231)
    } else if class == 4 {
        (160, 231)
    } else if class == 5 {
        (220, 232)
    } else {
        (233, 245)
    }
}

fn palette(class: i64) -> (r: (usize, usize))
    ensures
        (r.0 as nat, r.1 as nat) == palette_of(class),
{
    if class == 1 {
        (236, 250)
    } else if class == 2 {
        (252, 232)
    } else if class == 3 {
        (34, 231)
    } else if class == 4 {
        (160, 231)
    } else if class == 5 {
        (220, 232)
    } else {
        (233, 245)
    }
}

/// Two columns of text for a cell: its marker and a blank, or two blanks.
pub open spec fn cell_text(marker: Option<Seq<char>>) -> Seq<char> {
    match marker {
        Some(m) => m + " "@,
        None => "  "@,
    }
}

/// A coloured cell: colour codes, text, reset.
pub open spec fn cell_of(class: i64, marker: Option<Seq<char>>) -> Seq<char> {
    let (bg, fg) = palette_of(class);
    "\x1b[48;5;"@ + numeral(bg) + "m\x1b[38;5;"@ + numeral(fg) + "m"@ + cell_text(marker) + "\x1b[0m"@
}

/// Colours a two-column cell by its class.
pub fn cell(class: i64, marker: Option<&str>) -> (r: String)
    ensures
        r@ == cell_of(
            class,
            match marker {
                Some(m) => Some(m@),
                None => None,
            },
        ),
{
    let (bg, fg) = palette(class);
    let mut out = "\x1b[48;5;".to_owned();
    out.append(decimal_text(bg).as_str());
    out.append("m\x1b[38;5;");
    out.append(decimal_text(fg).as_str());
    out.append("m");
    let text = match marker {
        Some(m) => joined(m, " "),
        None => "  ".to_owned(),
    };
    out.append(text.as_str());
    out.append("\x1b[0m");
    out
}

/// The letter of a true start or goal.
pub open spec fn marker_of(token: i64) -> Option<Seq<char>> {
    if token == TOKEN_START {
        Some("S"@)
    } else if token == TOKEN_GOAL {
        Some("G"@)
    } else {
        None
    }
}

/// The first `x` cells of a line.
pub open spec fn line_of(classes: Seq<i64>, tokens: Seq<i64>, x: nat) -> Seq<char>
    decreases x,
{
    if x == 0 {
        Seq::empty()
    } else {
        line_of(classes, tokens, (x - 1) as nat) + cell_of(classes[x - 1], marker_of(tokens[x - 1]))
    }
}

/// Renders predicted classes line by line, with true start and goal lettered.
pub fn render_rows(pred: &Matrix<i64>, tokens: &Matrix<i64>) -> (r: Vec<String>)
    requires
        pred.wf(),
        tokens@.has_shape(pred@.rows, pred@.cols),
    ensures
        r@.len() == pred@.rows,
        forall|y: int|
            0 <= y < r@.len() ==> (#[trigger] r@[y])@ == line_of(pred@.data[y], tokens@.data[y], pred@.cols),
{
    let h = pred.nrows();
    let w = pred.ncols();
    let mut out: Vec<String> = Vec::new();
    for y in 0..h
        invariant
            pred.wf(),
            tokens@.has_shape(pred@.rows, pred@.cols),
            h == pred@.rows,
            w == pred@.cols,
            out@.len() == y,
            forall|j: int|
                0 <= j < y ==> (#[trigger] out@[j])@ == line_of(pred@.data[j], tokens@.data[j], pred@.cols),
    {
        let mut line = String::new();
        proof {
            reveal_strlit("");
            assert(line@ =~= Seq::empty());
        }
        for x in 0..w
            invariant
                y < h,
                pred.wf(),
                tokens@.has_shape(pred@.rows, pred@.cols),
                h == pred@.rows,
                w == pred@.cols,
                line@ == line_of(pred@.data[y as int], tokens@.data[y as int], x as nat),
        {
            let token = tokens.get(y, x);
            let marker = if token == TOKEN_START {
                Some("S")
            } else if token == TOKEN_GOAL {
                Some("G")
            } else {
                None
            };
            line.append(cell(pred.get(y, x), marker).as_str());
        }
        out.push(line);
    }
    out
}

} // verus!
