//! Shapes as markup. Numbers come written out; a rotation that is left empty is none.
use super::canvas::{Shape, ShapeModel};
use crate::text::{escaped, markup_of};
use vstd::prelude::*;
use vstd::string::*;

verus! {

/// An attribute, with the space in front of it.
pub open spec fn attribute(name: Seq<char>, value: Seq<char>) -> Seq<char> {
    " "@ + name + "=\""@ + value + "\""@
}

/// The attribute of dashes, where there are any.
pub open spec fn dashes_of(dash: Seq<char>) -> Seq<char> {
    if dash.len() == 0 {
        Seq::empty()
    } else {
        attribute("stroke-dasharray"@, dash)
    }
}

/// The first `n` points, with spaces between them.
pub open spec fn points_of(points: Seq<(String, String)>, n: nat) -> Seq<char>
    decreases n,
{
    if n == 0 {
        Seq::empty()
    } else {
        let p = points[n - 1];
        points_of(points, (n - 1) as nat) + (if n == 1 {
            ""@
        } else {
            " "@
        }) + p.0@ + ","@ + p.1@
    }
}

/// Place and extents of a rectangle.
pub open spec fn box_of(x: Seq<char>, y: Seq<char>, w: Seq<char>, h: Seq<char>) -> Seq<char> {
    "<rect"@ + attribute("x"@, x) + attribute("y"@, y) + attribute("width"@, w) + attribute("height"@, h)
}

/// The markup of a shape.
pub open spec fn element_of(shape: ShapeModel<String>) -> Seq<char> {
    match shape {
        ShapeModel::Rect { x, y, w, h, fill } => box_of(x@, y@, w@, h@) + attribute("fill"@, fill) + "/>\n"@,
        ShapeModel::Frame { x, y, w, h, stroke } => box_of(x@, y@, w@, h@) + attribute("fill"@, "none"@)
            + attribute("stroke"@, stroke) + attribute("stroke-width"@, "0.8"@) + "/>\n"@,
        ShapeModel::Line { x1, y1, x2, y2, stroke, width, dash } => "<line"@ + attribute("x1"@, x1@)
            + attribute("y1"@, y1@) + attribute("x2"@, x2@) + attribute("y2"@, y2@) + attribute(
            "stroke"@,
            stroke,
        ) + attribute("stroke-width"@, width@) + dashes_of(dash) + "/>\n"@,
        ShapeModel::Polyline { points, stroke, width, dash, opacity } => "<polyline"@ + attribute(
            "points"@,
            points_of(points, points.len()),
        ) + attribute("fill"@, "none"@) + attribute("stroke"@, stroke) + attribute("stroke-width"@, width@)
            + attribute("stroke-opacity"@, opacity@) + dashes_of(dash) + "/>\n"@,
        ShapeModel::Circle { cx, cy, r, fill, stroke } => "<circle"@ + attribute("cx"@, cx@) + attribute(
            "cy"@,
            cy@,
        ) + attribute("r"@, r@) + attribute("fill"@, fill) + (if stroke.len() == 0 {
            Seq::empty()
        } else {
            attribute("stroke"@, stroke) + attribute("stroke-width"@, "1"@)
        }) + "/>\n"@,
        ShapeModel::Text { x, y, size, anchor, fill, rotate, text } => "<text"@ + attribute("x"@, x@)
            + attribute("y"@, y@) + attribute("font-family"@, "Helvetica, Arial, sans-serif"@) + attribute(
            "font-size"@,
            size@,
        ) + attribute("text-anchor"@, anchor) + attribute("fill"@, fill) + (if rotate@.len() == 0 {
            Seq::empty()
        } else {
            attribute("transform"@, "rotate("@ + rotate@ + " "@ + x@ + " "@ + y@ + ")"@)
        }) + ">"@ + markup_of(text, text.len()) + "</text>\n"@,
    }
}

/// The markup of the first `n` shapes.
pub open spec fn elements_of(shapes: Seq<ShapeModel<String>>, n: nat) -> Seq<char>
    decreases n,
{
    if n == 0 {
        Seq::empty()
    } else {
        elements_of(shapes, (n - 1) as nat) + element_of(shapes[n - 1])
    }
}

/// A drawing of these extents.
pub open spec fn drawing_of(width: Seq<char>, height: Seq<char>, shapes: Seq<ShapeModel<String>>) -> Seq<char> {
    "<svg"@ + attribute("xmlns"@, "http://www.w3.org/2000/svg"@) + attribute("width"@, width) + attribute(
        "height"@,
        height,
    ) + attribute("viewBox"@, "0 0 "@ + width + " "@ + height) + ">\n"@ + elements_of(shapes, shapes.len())
        + "</svg>\n"@
}

/// Puts an attribute at the end of a text.
fn put_attribute(out: &mut String, name: &str, value: &str)
    ensures
        final(out)@ == old(out)@ + attribute(name@, value@),
{
    out.append(" ");
    out.append(name);
    out.append("=\"");
    out.append(value);
    out.append("\"");
    assert(out@ =~= old(out)@ + attribute(name@, value@));
}

/// Puts the attribute of dashes at the end of a text.
fn put_dashes(out: &mut String, dash: &str)
    ensures
        final(out)@ == old(out)@ + dashes_of(dash@),
{
    if dash.unicode_len() > 0 {
        put_attribute(out, "stroke-dasharray", dash);
    } else {
        assert(out@ =~= old(out)@ + dashes_of(dash@));
    }
}

/// Starts a rectangle.
fn start_box(x: &str, y: &str, w: &str, h: &str) -> (r: String)
    ensures
        r@ == box_of(x@, y@, w@, h@),
{
    let mut out = "<rect".to_owned();
    put_attribute(&mut out, "x", x);
    put_attribute(&mut out, "y", y);
    put_attribute(&mut out, "width", w);
    put_attribute(&mut out, "height", h);
    out
}

/// Writes points, with spaces between them.
fn write_points(points: &Vec<(String, String)>) -> (r: String)
    ensures
        r@ == points_of(points@, points@.len()),
{
    let mut out = "".to_owned();
    proof {
        reveal_strlit("");
        assert(""@ =~= Seq::empty());
    }
    for i in 0..points.len()
        invariant
            ""@ == Seq::<char>::empty(),
            out@ == points_of(points@, i as nat),
    {
        if i > 0 {
            out.append(" ");
        }
        assert(out@ =~= points_of(points@, i as nat) + (if i == 0 {
            ""@
        } else {
            " "@
        }));
        let p = &points[i];
        out.append(p.0.as_str());
        out.append(",");
        out.append(p.1.as_str());
    }
    out
}

/// Writes the markup of a shape.
pub fn element(shape: &Shape<String>) -> (r: String)
    ensures
        r@ == element_of(shape@),
{
    match shape {
        Shape::Rect { x, y, w, h, fill } => {
            let mut out = start_box(x.as_str(), y.as_str(), w.as_str(), h.as_str());
            put_attribute(&mut out, "fill", fill.as_str());
            out.append("/>\n");
            out
        },
        Shape::Frame { x, y, w, h, stroke } => {
            let mut out = start_box(x.as_str(), y.as_str(), w.as_str(), h.as_str());
            put_attribute(&mut out, "fill", "none");
            put_attribute(&mut out, "stroke", stroke.as_str());
            put_attribute(&mut out, "stroke-width", "0.8");
            out.append("/>\n");
            out
        },
        Shape::Line { x1, y1, x2, y2, stroke, width, dash } => {
            let mut out = "<line".to_owned();
            put_attribute(&mut out, "x1", x1.as_str());
            put_attribute(&mut out, "y1", y1.as_str());
            put_attribute(&mut out, "x2", x2.as_str());
            put_attribute(&mut out, "y2", y2.as_str());
            put_attribute(&mut out, "stroke", stroke.as_str());
            put_attribute(&mut out, "stroke-width", width.as_str());
            put_dashes(&mut out, dash.as_str());
            out.append("/>\n");
            out
        },
        Shape::Polyline { points, stroke, width, dash, opacity } => {
            let mut out = "<polyline".to_owned();
            put_attribute(&mut out, "points", write_points(points).as_str());
            put_attribute(&mut out, "fill", "none");
            put_attribute(&mut out, "stroke", stroke.as_str());
            put_attribute(&mut out, "stroke-width", width.as_str());
            put_attribute(&mut out, "stroke-opacity", opacity.as_str());
            put_dashes(&mut out, dash.as_str());
            out.append("/>\n");
            out
        },
        Shape::Circle { cx, cy, r, fill, stroke } => {
            let mut out = "<circle".to_owned();
            put_attribute(&mut out, "cx", cx.as_str());
            put_attribute(&mut out, "cy", cy.as_str());
            put_attribute(&mut out, "r", r.as_str());
            put_attribute(&mut out, "fill", fill.as_str());
            let ghost before = out@;
            if stroke.as_str().unicode_len() > 0 {
                put_attribute(&mut out, "stroke", stroke.as_str());
                put_attribute(&mut out, "stroke-width", "1");
            }
            assert(out@ =~= before + (if stroke@.len() == 0 {
                Seq::empty()
            } else {
                attribute("stroke"@, stroke@) + attribute("stroke-width"@, "1"@)
            }));
            out.append("/>\n");
            out
        },
        Shape::Text { x, y, size, anchor, fill, rotate, text } => {
            let mut out = "<text".to_owned();
            put_attribute(&mut out, "x", x.as_str());
            put_attribute(&mut out, "y", y.as_str());
            put_attribute(&mut out, "font-family", "Helvetica, Arial, sans-serif");
            put_attribute(&mut out, "font-size", size.as_str());
            put_attribute(&mut out, "text-anchor", anchor.as_str());
            put_attribute(&mut out, "fill", fill.as_str());
            let ghost before = out@;
            if rotate.as_str().unicode_len() > 0 {
                let mut turn = "rotate(".to_owned();
                turn.append(rotate.as_str());
                turn.append(" ");
                turn.append(x.as_str());
                turn.append(" ");
                turn.append(y.as_str());
                turn.append(")");
                put_attribute(&mut out, "transform", turn.as_str());
            }
            assert(out@ =~= before + (if rotate@.len() == 0 {
                Seq::empty()
            } else {
                attribute("transform"@, "rotate("@ + rotate@ + " "@ + x@ + " "@ + y@ + ")"@)
            }));
            out.append(">");
            out.append(escaped(text.as_str()).as_str());
            out.append("</text>\n");
            out
        },
    }
}

/// Writes a drawing of these extents.
pub fn drawing(width: &str, height: &str, shapes: &Vec<Shape<String>>) -> (r: String)
    ensures
        r@ == drawing_of(width@, height@, shapes@.map_values(|s: Shape<String>| s@)),
{
    let ghost models = shapes@.map_values(|s: Shape<String>| s@);
    let mut extents = "0 0 ".to_owned();
    extents.append(width);
    extents.append(" ");
    extents.append(height);
    let mut out = "<svg".to_owned();
    put_attribute(&mut out, "xmlns", "http://www.w3.org/2000/svg");
    put_attribute(&mut out, "width", width);
    put_attribute(&mut out, "height", height);
    put_attribute(&mut out, "viewBox", extents.as_str());
    out.append(">\n");
    let ghost head = out@;
    assert(out@ =~= head + elements_of(models, 0));
    for i in 0..shapes.len()
        invariant
            models == shapes@.map_values(|s: Shape<String>| s@),
            out@ == head + elements_of(models, i as nat),
    {
        out.append(element(&shapes[i]).as_str());
        assert(out@ =~= head + elements_of(models, (i + 1) as nat));
    }
    out.append("</svg>\n");
    out
}

} // verus!
