//! A canvas: a list of shapes to draw, in order.
use crate::scalar::Scalar;
use vstd::prelude::*;

verus! {

/// A whole number of units.
pub open spec fn spec_units<W: Scalar>(n: int) -> W {
    W::spec_decimal(n, 0)
}

/// A whole number of tenths of a unit.
pub open spec fn spec_tenths<W: Scalar>(n: int) -> W {
    W::spec_decimal(n, -1)
}

/// A whole number of units.
pub fn units<W: Scalar>(n: i64) -> (r: W)
    ensures
        r == spec_units::<W>(n as int),
{
    W::decimal(n, 0)
}

/// A whole number of tenths of a unit.
pub fn tenths<W: Scalar>(n: i64) -> (r: W)
    ensures
        r == spec_tenths::<W>(n as int),
{
    W::decimal(n, -1)
}

/// One shape. Coordinates grow right and down.
#[derive(Debug)]
pub enum Shape<W> {
    /// A filled rectangle.
    Rect { x: W, y: W, w: W, h: W, fill: String },
    /// The outline of a rectangle.
    Frame { x: W, y: W, w: W, h: W, stroke: String },
    Line { x1: W, y1: W, x2: W, y2: W, stroke: String, width: W, dash: String },
    Polyline { points: Vec<(W, W)>, stroke: String, width: W, dash: String, opacity: W },
    Circle { cx: W, cy: W, r: W, fill: String, stroke: String },
    Text { x: W, y: W, size: W, anchor: String, fill: String, rotate: W, text: String },
}

/// The contents of a shape.
pub ghost enum ShapeModel<W> {
    Rect { x: W, y: W, w: W, h: W, fill: Seq<char> },
    Frame { x: W, y: W, w: W, h: W, stroke: Seq<char> },
    Line { x1: W, y1: W, x2: W, y2: W, stroke: Seq<char>, width: W, dash: Seq<char> },
    Polyline { points: Seq<(W, W)>, stroke: Seq<char>, width: W, dash: Seq<char>, opacity: W },
    Circle { cx: W, cy: W, r: W, fill: Seq<char>, stroke: Seq<char> },
    Text {
        x: W,
        y: W,
        size: W,
        anchor: Seq<char>,
        fill: Seq<char>,
        rotate: W,
        text: Seq<char>,
    },
}

impl<W> View for Shape<W> {
    type V = ShapeModel<W>;

    open spec fn view(&self) -> ShapeModel<W> {
        match self {
            Shape::Rect { x, y, w, h, fill } => ShapeModel::Rect { x: *x, y: *y, w: *w, h: *h, fill: fill@ },
            Shape::Frame { x, y, w, h, stroke } => ShapeModel::Frame {
                x: *x,
                y: *y,
                w: *w,
                h: *h,
                stroke: stroke@,
            },
            Shape::Line { x1, y1, x2, y2, stroke, width, dash } => ShapeModel::Line {
                x1: *x1,
                y1: *y1,
                x2: *x2,
                y2: *y2,
                stroke: stroke@,
                width: *width,
                dash: dash@,
            },
            Shape::Polyline { points, stroke, width, dash, opacity } => ShapeModel::Polyline {
                points: points@,
                stroke: stroke@,
                width: *width,
                dash: dash@,
                opacity: *opacity,
            },
            Shape::Circle { cx, cy, r, fill, stroke } => ShapeModel::Circle {
                cx: *cx,
                cy: *cy,
                r: *r,
                fill: fill@,
                stroke: stroke@,
            },
            Shape::Text { x, y, size, anchor, fill, rotate, text } => ShapeModel::Text {
                x: *x,
                y: *y,
                size: *size,
                anchor: anchor@,
                fill: fill@,
                rotate: *rotate,
                text: text@,
            },
        }
    }
}

/// A figure: its size and its shapes.
#[derive(Debug)]
pub struct Canvas<W> {
    pub width: W,
    pub height: W,
    pub shapes: Vec<Shape<W>>,
}

impl<W: Scalar> View for Canvas<W> {
    type V = Seq<ShapeModel<W>>;

    open spec fn view(&self) -> Seq<ShapeModel<W>> {
        self.shapes@.map_values(|s: Shape<W>| s@)
    }
}

impl<W: Scalar> Canvas<W> {
    /// The canvas has one shape more.
    pub open spec fn drew(before: Canvas<W>, after: Canvas<W>, shape: ShapeModel<W>) -> bool {
        &&& after.width == before.width
        &&& after.height == before.height
        &&& after@ == before@.push(shape)
    }

    /// A white canvas.
    pub fn new(width: W, height: W) -> (r: Self)
        ensures
            r.width == width,
            r.height == height,
            r@ == seq![
                ShapeModel::Rect {
                    x: W::spec_zero(),
                    y: W::spec_zero(),
                    w: width,
                    h: height,
                    fill: "white"@,
                },
            ],
    {
        let ground = Shape::Rect {
            x: W::zero(),
            y: W::zero(),
            w: width,
            h: height,
            fill: "white".to_owned(),
        };
        let r = Canvas { width, height, shapes: vec![ground] };
        assert(r@ =~= seq![
            ShapeModel::Rect {
                x: W::spec_zero(),
                y: W::spec_zero(),
                w: width,
                h: height,
                fill: "white"@,
            },
        ]);
        r
    }

    fn put(&mut self, shape: Shape<W>)
        ensures
            Self::drew(*old(self), *final(self), shape@),
    {
        self.shapes.push(shape);
        assert(self@ =~= old(self)@.push(shape@));
    }

    pub fn rect(&mut self, x: W, y: W, w: W, h: W, fill: &str)
        ensures
            Self::drew(*old(self), *final(self), ShapeModel::Rect { x, y, w, h, fill: fill@ }),
    {
        self.put(Shape::Rect { x, y, w, h, fill: fill.to_owned() });
    }

    pub fn frame(&mut self, x: W, y: W, w: W, h: W, stroke: &str)
        ensures
            Self::drew(*old(self), *final(self), ShapeModel::Frame { x, y, w, h, stroke: stroke@ }),
    {
        self.put(Shape::Frame { x, y, w, h, stroke: stroke.to_owned() });
    }

    pub fn line(&mut self, x1: W, y1: W, x2: W, y2: W, stroke: &str, width: W, dash: &str)
        ensures
            Self::drew(
                *old(self),
                *final(self),
                ShapeModel::Line { x1, y1, x2, y2, stroke: stroke@, width, dash: dash@ },
            ),
    {
        self.put(
            Shape::Line { x1, y1, x2, y2, stroke: stroke.to_owned(), width, dash: dash.to_owned() },
        );
    }

    /// Draws a line through points; nothing, where there are none.
    pub fn polyline(&mut self, points: Vec<(W, W)>, stroke: &str, width: W, dash: &str, opacity: W)
        ensures
            if points@.len() == 0 {
                *final(self) == *old(self)
            } else {
                Self::drew(
                    *old(self),
                    *final(self),
                    ShapeModel::Polyline { points: points@, stroke: stroke@, width, dash: dash@, opacity },
                )
            },
    {
        if points.len() > 0 {
            self.put(
                Shape::Polyline {
                    points,
                    stroke: stroke.to_owned(),
                    width,
                    dash: dash.to_owned(),
                    opacity,
                },
            );
        }
    }

    pub fn circle(&mut self, cx: W, cy: W, r: W, fill: &str, stroke: &str)
        ensures
            Self::drew(
                *old(self),
                *final(self),
                ShapeModel::Circle { cx, cy, r, fill: fill@, stroke: stroke@ },
            ),
    {
        self.put(Shape::Circle { cx, cy, r, fill: fill.to_owned(), stroke: stroke.to_owned() });
    }

    /// Writes text at a place; `rotate` is in degrees around it.
    pub fn text(&mut self, x: W, y: W, size: W, anchor: &str, fill: &str, rotate: W, text: &str)
        ensures
            Self::drew(
                *old(self),
                *final(self),
                ShapeModel::Text { x, y, size, anchor: anchor@, fill: fill@, rotate, text: text@ },
            ),
    {
        self.put(
            Shape::Text {
                x,
                y,
                size,
                anchor: anchor.to_owned(),
                fill: fill.to_owned(),
                rotate,
                text: text.to_owned(),
            },
        );
    }
}

} // verus!
