//! The phase-portrait figure: one panel for each agent, with the paths of its proposal and of
//! the consensus in one shared frame.
use super::canvas::{spec_tenths, spec_units, tenths, units, Canvas, ShapeModel};
use super::layout::{grid_layout, layout_is};
use super::pca::point_of;
use crate::scalar::{Scalar, Widens};
use crate::tensor::{Arr2, Arr3, Matrix, Tensor3};
use crate::text::{decimal_text, joined, numeral};
use vstd::prelude::*;
use vstd::string::*;

verus! {

/// Least and greatest coordinates of the points, before and after padding.
#[derive(Debug, Clone, Copy)]
pub struct Limits<S> {
    pub lo0: S,
    pub lo1: S,
    pub hi0: S,
    pub hi1: S,
}

/// Least coordinate `c` of the first `m` points.
pub open spec fn least_of<S: Scalar>(x: Arr3<S>, z: Arr3<S>, c: int, m: nat) -> S
    decreases m,
{
    if m == 0 {
        S::spec_infinity()
    } else {
        least_of(x, z, c, (m - 1) as nat).spec_min(point_of(x, z, m - 1)[c])
    }
}

/// Greatest coordinate `c` of the first `m` points.
pub open spec fn greatest_of<S: Scalar>(x: Arr3<S>, z: Arr3<S>, c: int, m: nat) -> S
    decreases m,
{
    if m == 0 {
        S::spec_neg_infinity()
    } else {
        greatest_of(x, z, c, (m - 1) as nat).spec_max(point_of(x, z, m - 1)[c])
    }
}

/// A twentieth of the extent, which counts as at least a millionth.
pub open spec fn padding_of<S: Scalar>(lo: S, hi: S) -> S {
    S::spec_decimal(5, -2).spec_times(hi.spec_minus(lo).spec_max(S::spec_decimal(1, -6)))
}

/// The limits that all panels share: those of all points, padded.
pub open spec fn limits_of<S: Scalar>(x: Arr3<S>, z: Arr3<S>) -> Limits<S> {
    let m = 2 * (x.n * x.b);
    let (lo0, hi0) = (least_of(x, z, 0, m), greatest_of(x, z, 0, m));
    let (lo1, hi1) = (least_of(x, z, 1, m), greatest_of(x, z, 1, m));
    Limits {
        lo0: lo0.spec_minus(padding_of(lo0, hi0)),
        lo1: lo1.spec_minus(padding_of(lo1, hi1)),
        hi0: hi0.spec_plus(padding_of(lo0, hi0)),
        hi1: hi1.spec_plus(padding_of(lo1, hi1)),
    }
}

/// Left edge of panel column `col`.
pub open spec fn panel_x<W: Scalar>(col: int) -> W {
    spec_units::<W>(14).spec_plus(W::spec_from_count(col as nat).spec_times(spec_units::<W>(62).spec_plus(spec_units(6))))
}

/// Top edge of panel row `row`, below the room for a title.
pub open spec fn panel_y<W: Scalar>(titled: bool, row: int) -> W {
    top_margin::<W>(titled).spec_plus(
        W::spec_from_count(row as nat).spec_times(spec_units::<W>(62).spec_plus(spec_units(16))),
    )
}

pub open spec fn top_margin<W: Scalar>(titled: bool) -> W {
    spec_units(
        if titled {
            40
        } else {
            20
        },
    )
}

/// Where a point lies in a panel.
pub open spec fn place_in<S: Widens<W>, W: Scalar>(
    px: W,
    py: W,
    limits: Limits<S>,
    u: S,
    v: S,
) -> (W, W) {
    (
        px.spec_plus(
            u.spec_minus(limits.lo0).spec_over(limits.hi0.spec_minus(limits.lo0)).spec_widen().spec_times(
                spec_units(62),
            ),
        ),
        py.spec_plus(spec_units(62)).spec_minus(
            v.spec_minus(limits.lo1).spec_over(limits.hi1.spec_minus(limits.lo1)).spec_widen().spec_times(
                spec_units(62),
            ),
        ),
    )
}

fn place<S: Widens<W>, W: Scalar>(px: W, py: W, limits: Limits<S>, u: S, v: S) -> (r: (W, W))
    ensures
        r == place_in(px, py, limits, u, v),
{
    let across: W = u.minus(limits.lo0).over(limits.hi0.minus(limits.lo0)).widen();
    let up: W = v.minus(limits.lo1).over(limits.hi1.minus(limits.lo1)).widen();
    (px.plus(across.times(units(62))), py.plus(units(62)).minus(up.times(units(62))))
}

/// The path of agent `a` in its panel.
pub open spec fn path_of<S: Widens<W>, W: Scalar>(
    px: W,
    py: W,
    limits: Limits<S>,
    arr: Arr3<S>,
    a: int,
) -> Seq<(W, W)> {
    Seq::new(arr.n, |ki: int| place_in(px, py, limits, arr.at(ki, a, 0), arr.at(ki, a, 1)))
}

fn trace_path<S: Widens<W>, W: Scalar>(
    px: W,
    py: W,
    limits: Limits<S>,
    arr: &Tensor3<S>,
    a: usize,
) -> (r: Vec<(W, W)>)
    requires
        arr.wf(),
        a < arr@.b,
        arr@.d == 2,
    ensures
        r@ == path_of(px, py, limits, arr@, a as int),
{
    let (k, _n, _d) = arr.dim();
    let mut out: Vec<(W, W)> = Vec::new();
    for ki in 0..k
        invariant
            arr.wf(),
            a < arr@.b,
            arr@.d == 2,
            k == arr@.n,
            out@.len() == ki,
            forall|j: int| 0 <= j < ki ==> #[trigger] out@[j] == path_of(px, py, limits, arr@, a as int)[j],
    {
        out.push(place(px, py, limits, arr.get(ki, a, 0), arr.get(ki, a, 1)));
    }
    assert(out@ =~= path_of(px, py, limits, arr@, a as int));
    out
}

/// Dots at the first `t` points of a path.
pub open spec fn dots<W: Scalar>(
    acc: Seq<ShapeModel<W>>,
    points: Seq<(W, W)>,
    color: Seq<char>,
    t: nat,
) -> Seq<ShapeModel<W>>
    decreases t,
{
    if t == 0 {
        acc
    } else {
        dots(acc, points, color, (t - 1) as nat).push(
            ShapeModel::Circle {
                cx: points[t - 1].0,
                cy: points[t - 1].1,
                r: spec_tenths(11),
                fill: color,
                stroke: ""@,
            },
        )
    }
}

/// A path and, on short runs, dots at its points.
pub open spec fn path_shapes<W: Scalar>(
    acc: Seq<ShapeModel<W>>,
    points: Seq<(W, W)>,
    color: Seq<char>,
) -> Seq<ShapeModel<W>> {
    let s = acc.push(
        ShapeModel::Polyline {
            points,
            stroke: color,
            width: spec_tenths(9),
            dash: ""@,
            opacity: W::spec_one(),
        },
    );
    if points.len() <= 40 {
        dots(s, points, color, points.len())
    } else {
        s
    }
}

/// The panel of agent `a`: frame, name, path of the proposal, path of the consensus, and where
/// the consensus starts and ends.
pub open spec fn panel_shapes<S: Widens<W>, W: Scalar>(
    acc: Seq<ShapeModel<W>>,
    x: Arr3<S>,
    z: Arr3<S>,
    limits: Limits<S>,
    titled: bool,
    slot: (usize, usize),
    a: int,
) -> Seq<ShapeModel<W>> {
    let px = panel_x::<W>(slot.1 as int);
    let py = panel_y::<W>(titled, slot.0 as int);
    let x_path = path_of(px, py, limits, x, a);
    let z_path = path_of(px, py, limits, z, a);
    let first = z_path[0];
    let last = z_path[z_path.len() - 1];
    let s = acc.push(
        ShapeModel::Frame {
            x: px,
            y: py,
            w: spec_units(62),
            h: spec_units(62),
            stroke: "#d1d5db"@,
        },
    ).push(
        ShapeModel::Text {
            x: px.spec_plus(spec_units::<W>(62).spec_over(spec_units(2))),
            y: py.spec_minus(spec_units(3)),
            size: spec_tenths(65),
            anchor: "middle"@,
            fill: "#6b7280"@,
            rotate: W::spec_zero(),
            text: "agent "@ + numeral(a as nat),
        },
    );
    let s = path_shapes(s, x_path, "#1d4ed8"@);
    let s = path_shapes(s, z_path, "#dc2626"@);
    s.push(
        ShapeModel::Circle {
            cx: first.0,
            cy: first.1,
            r: spec_tenths(26),
            fill: "none"@,
            stroke: "#dc2626"@,
        },
    ).push(
        ShapeModel::Circle {
            cx: last.0,
            cy: last.1,
            r: spec_tenths(22),
            fill: "#111827"@,
            stroke: ""@,
        },
    )
}

/// The panels of the first `a` agents.
pub open spec fn panels<S: Widens<W>, W: Scalar>(
    acc: Seq<ShapeModel<W>>,
    x: Arr3<S>,
    z: Arr3<S>,
    limits: Limits<S>,
    titled: bool,
    slots: Seq<(usize, usize)>,
    a: nat,
) -> Seq<ShapeModel<W>>
    decreases a,
{
    if a == 0 {
        acc
    } else {
        panel_shapes(
            panels(acc, x, z, limits, titled, slots, (a - 1) as nat),
            x,
            z,
            limits,
            titled,
            slots[a - 1],
            a - 1,
        )
    }
}

/// Width and height of the figure.
pub open spec fn portrait_size<W: Scalar>(rows: int, cols: int, titled: bool) -> (W, W) {
    let margins = spec_units::<W>(2).spec_times(spec_units(14));
    let panels_w = W::spec_from_count(cols as nat).spec_times(spec_units(62));
    let gaps = W::spec_from_count((cols - 1) as nat).spec_times(spec_units(6));
    let panels_h = W::spec_from_count(rows as nat).spec_times(spec_units::<W>(62).spec_plus(spec_units(16)));
    (
        margins.spec_plus(panels_w).spec_plus(gaps),
        top_margin::<W>(titled).spec_plus(panels_h).spec_minus(spec_units(16)).spec_plus(spec_units(30)),
    )
}

/// The legend at the bottom.
pub open spec fn portrait_legend<W: Scalar>(acc: Seq<ShapeModel<W>>, w: W, h: W) -> Seq<ShapeModel<W>> {
    let ly = h.spec_minus(spec_units(12));
    let lx = w.spec_over(spec_units(2)).spec_minus(spec_units(90));
    let mid = ly.spec_minus(spec_units(3));
    acc.push(
        ShapeModel::Line {
            x1: lx,
            y1: mid,
            x2: lx.spec_plus(spec_units(18)),
            y2: mid,
            stroke: "#1d4ed8"@,
            width: spec_tenths(16),
            dash: ""@,
        },
    ).push(
        ShapeModel::Circle {
            cx: lx.spec_plus(spec_units(9)),
            cy: mid,
            r: spec_tenths(16),
            fill: "#1d4ed8"@,
            stroke: ""@,
        },
    ).push(
        ShapeModel::Text {
            x: lx.spec_plus(spec_units(22)),
            y: ly,
            size: spec_units(9),
            anchor: "start"@,
            fill: "#111827"@,
            rotate: W::spec_zero(),
            text: "x (local)"@,
        },
    ).push(
        ShapeModel::Line {
            x1: lx.spec_plus(spec_units(90)),
            y1: mid,
            x2: lx.spec_plus(spec_units(108)),
            y2: mid,
            stroke: "#dc2626"@,
            width: spec_tenths(16),
            dash: ""@,
        },
    ).push(
        ShapeModel::Circle {
            cx: lx.spec_plus(spec_units(99)),
            cy: mid,
            r: spec_tenths(16),
            fill: "#dc2626"@,
            stroke: ""@,
        },
    ).push(
        ShapeModel::Text {
            x: lx.spec_plus(spec_units(112)),
            y: ly,
            size: spec_units(9),
            anchor: "start"@,
            fill: "#111827"@,
            rotate: W::spec_zero(),
            text: "z (consensus)"@,
        },
    )
}

/// The phase-portrait figure of `[K, N, 2]` paths, panels laid out in the given slots.
pub open spec fn portrait<S: Widens<W>, W: Scalar>(
    x: Arr3<S>,
    z: Arr3<S>,
    rows: int,
    cols: int,
    slots: Seq<(usize, usize)>,
    suptitle: Option<Seq<char>>,
) -> Seq<ShapeModel<W>> {
    let titled = suptitle is Some;
    let (w, h) = portrait_size::<W>(rows, cols, titled);
    let s = seq![
        ShapeModel::Rect { x: W::spec_zero(), y: W::spec_zero(), w, h, fill: "white"@ },
    ];
    let s = match suptitle {
        Some(t) => s.push(
            ShapeModel::Text {
                x: w.spec_over(spec_units(2)),
                y: spec_units(22),
                size: spec_units(14),
                anchor: "middle"@,
                fill: "#111827"@,
                rotate: W::spec_zero(),
                text: t,
            },
        ),
        None => s,
    };
    let s = panels(s, x, z, limits_of(x, z), titled, slots, x.b);
    portrait_legend(s, w, h)
}

/// The figure is the portrait of some layout of its agents.
pub open spec fn is_portrait<S: Widens<W>, W: Scalar>(
    canvas: Canvas<W>,
    x: Arr3<S>,
    z: Arr3<S>,
    centers: Option<Arr2<i64>>,
    suptitle: Option<Seq<char>>,
) -> bool {
    exists|rows: int, cols: int, slots: Seq<(usize, usize)>| #[trigger]
        layout_is(x.b as int, centers, rows, cols, slots) && (canvas.width, canvas.height) == portrait_size::<W>(
            rows,
            cols,
            suptitle is Some,
        ) && canvas@ == portrait::<S, W>(x, z, rows, cols, slots, suptitle)
}

/// Finds the limits that all panels share.
fn find_limits<S: Scalar>(x: &Tensor3<S>, z: &Tensor3<S>) -> (r: Limits<S>)
    requires
        x.wf(),
        z@.same_shape(x@),
        x@.d == 2,
        2 * (x@.n * x@.b) <= usize::MAX,
    ensures
        r == limits_of(x@, z@),
{
    let (k, n, _d) = x.dim();
    let half = k * n;
    let total = 2 * half;
    let mut lo0 = S::infinity();
    let mut lo1 = S::infinity();
    let mut hi0 = S::neg_infinity();
    let mut hi1 = S::neg_infinity();
    for m in 0..total
        invariant
            x.wf(),
            z@.same_shape(x@),
            x@.d == 2,
            half == x@.n * x@.b,
            total == 2 * half,
            lo0 == least_of(x@, z@, 0, m as nat),
            lo1 == least_of(x@, z@, 1, m as nat),
            hi0 == greatest_of(x@, z@, 0, m as nat),
            hi1 == greatest_of(x@, z@, 1, m as nat),
    {
        let p = super::pca::point(x, z, half, m);
        lo0 = lo0.min(p[0]);
        lo1 = lo1.min(p[1]);
        hi0 = hi0.max(p[0]);
        hi1 = hi1.max(p[1]);
    }
    let part = S::decimal(5, -2);
    let floor = S::decimal(1, -6);
    let pad0 = part.times(hi0.minus(lo0).max(floor));
    let pad1 = part.times(hi1.minus(lo1).max(floor));
    Limits {
        lo0: lo0.minus(pad0),
        lo1: lo1.minus(pad1),
        hi0: hi0.plus(pad0),
        hi1: hi1.plus(pad1),
    }
}

fn draw_path<W: Scalar>(canvas: &mut Canvas<W>, points: Vec<(W, W)>, color: &str)
    requires
        points@.len() > 0,
    ensures
        final(canvas).width == old(canvas).width,
        final(canvas).height == old(canvas).height,
        final(canvas)@ == path_shapes(old(canvas)@, points@, color@),
{
    let mut marks: Vec<(W, W)> = Vec::new();
    for i in 0..points.len()
        invariant
            marks@ == points@.take(i as int),
    {
        marks.push(points[i]);
        assert(points@.take(i + 1) =~= points@.take(i as int).push(points@[i as int]));
    }
    assert(points@.take(points@.len() as int) =~= points@);
    let ghost all = points@;
    canvas.polyline(points, color, tenths(9), "", W::one());
    if marks.len() <= 40 {
        let ghost s0 = canvas@;
        for t in 0..marks.len()
            invariant
                marks@ == all,
                canvas.width == old(canvas).width,
                canvas.height == old(canvas).height,
                canvas@ == dots(s0, all, color@, t as nat),
        {
            canvas.circle(marks[t].0, marks[t].1, tenths(11), color, "");
        }
    }
}

fn draw_panel<S: Widens<W>, W: Scalar>(
    canvas: &mut Canvas<W>,
    x: &Tensor3<S>,
    z: &Tensor3<S>,
    limits: Limits<S>,
    titled: bool,
    slot: (usize, usize),
    a: usize,
)
    requires
        x.wf(),
        z@.same_shape(x@),
        x@.d == 2,
        x@.n > 0,
        a < x@.b,
    ensures
        final(canvas).width == old(canvas).width,
        final(canvas).height == old(canvas).height,
        final(canvas)@ == panel_shapes(old(canvas)@, x@, z@, limits, titled, slot, a as int),
{
    let col = slot.1;
    let row = slot.0;
    let mt: W = units(
        if titled {
            40
        } else {
            20
        },
    );
    let px: W = units::<W>(14).plus(W::from_count(col).times(units::<W>(62).plus(units(6))));
    let py: W = mt.plus(W::from_count(row).times(units::<W>(62).plus(units(16))));
    canvas.frame(px, py, units(62), units(62), "#d1d5db");
    let name = joined("agent ", decimal_text(a).as_str());
    canvas.text(
        px.plus(units::<W>(62).over(units(2))),
        py.minus(units(3)),
        tenths(65),
        "middle",
        "#6b7280",
        W::zero(),
        name.as_str(),
    );
    let x_path = trace_path(px, py, limits, x, a);
    let z_path = trace_path(px, py, limits, z, a);
    let first = z_path[0];
    let last = z_path[z_path.len() - 1];
    draw_path(canvas, x_path, "#1d4ed8");
    draw_path(canvas, z_path, "#dc2626");
    canvas.circle(first.0, first.1, tenths(26), "none", "#dc2626");
    canvas.circle(last.0, last.1, tenths(22), "#111827", "");
}

/// Draws the phase portraits of `[K, N, 2]` proposals and consensus.
pub fn render_xz<S: Widens<W>, W: Scalar>(
    x2: &Tensor3<S>,
    z2: &Tensor3<S>,
    centers: Option<&Matrix<i64>>,
    suptitle: Option<&str>,
) -> (r: Canvas<W>)
    requires
        x2.wf(),
        z2@.same_shape(x2@),
        x2@.d == 2,
        x2@.n > 0,
        x2@.b > 0,
        2 * (x2@.n * x2@.b) <= usize::MAX,
        match centers {
            Some(c) => c.wf() && c@.cols == 2 && x2@.b <= c@.rows,
            None => true,
        },
    ensures
        is_portrait(
            r,
            x2@,
            z2@,
            match centers {
                Some(c) => Some(c@),
                None => None,
            },
            match suptitle {
                Some(t) => Some(t@),
                None => None,
            },
        ),
{
    let (k, n, _d) = x2.dim();
    assert(2 * n <= 2 * (k * n)) by (nonlinear_arith)
        requires
            k >= 1,
            n >= 1,
    ;
    let (rows, cols, slots) = grid_layout(n, centers);
    let titled = suptitle.is_some();
    let ghost given = match centers {
        Some(c) => Some(c@),
        None => None,
    };
    let ghost heading = match suptitle {
        Some(t) => Some(t@),
        None => None,
    };
    proof {
        some_column(n as int, given, rows as int, cols as int, slots@);
    }
    let mt: W = units(
        if titled {
            40
        } else {
            20
        },
    );
    let margins = units::<W>(2).times(units(14));
    let panels_w = W::from_count(cols).times(units(62));
    let gaps = W::from_count(cols - 1).times(units(6));
    let panels_h = W::from_count(rows).times(units::<W>(62).plus(units(16)));
    let w = margins.plus(panels_w).plus(gaps);
    let h = mt.plus(panels_h).minus(units(16)).plus(units(30));
    let mut canvas: Canvas<W> = Canvas::new(w, h);
    if let Some(t) = suptitle {
        canvas.text(
            w.over(units(2)),
            units(22),
            units(14),
            "middle",
            "#111827",
            W::zero(),
            t,
        );
    }
    let limits = find_limits(x2, z2);
    let ghost s0 = canvas@;
    for a in 0..n
        invariant
            x2.wf(),
            z2@.same_shape(x2@),
            x2@.d == 2,
            x2@.n > 0,
            n == x2@.b,
            slots@.len() == n,
            canvas.width == w,
            canvas.height == h,
            canvas@ == panels(s0, x2@, z2@, limits, titled, slots@, a as nat),
    {
        draw_panel(&mut canvas, x2, z2, limits, titled, slots[a], a);
    }
    let ly = h.minus(units(12));
    let lx = w.over(units(2)).minus(units(90));
    let mid = ly.minus(units(3));
    canvas.line(lx, mid, lx.plus(units(18)), mid, "#1d4ed8", tenths(16), "");
    canvas.circle(lx.plus(units(9)), mid, tenths(16), "#1d4ed8", "");
    canvas.text(lx.plus(units(22)), ly, units(9), "start", "#111827", W::zero(), "x (local)");
    canvas.line(lx.plus(units(90)), mid, lx.plus(units(108)), mid, "#dc2626", tenths(16), "");
    canvas.circle(lx.plus(units(99)), mid, tenths(16), "#dc2626", "");
    canvas.text(lx.plus(units(112)), ly, units(9), "start", "#111827", W::zero(), "z (consensus)");
    assert(canvas@ == portrait::<S, W>(x2@, z2@, rows as int, cols as int, slots@, heading));
    assert(layout_is(x2@.b as int, given, rows as int, cols as int, slots@));
    canvas
}

/// A layout of at least one panel has at least one column.
proof fn some_column(
    n: int,
    centers: Option<Arr2<i64>>,
    rows: int,
    cols: int,
    slots: Seq<(usize, usize)>,
)
    requires
        n > 0,
        layout_is(n, centers, rows, cols, slots),
    ensures
        cols > 0,
{
    match centers {
        Some(c) => {
            let (ys, xs) = choose|ys: Seq<i64>, xs: Seq<i64>| #[trigger]
                super::layout::slots_follow(ys, xs, c, n, slots) && rows == ys.len() && cols == xs.len();
            let (i, j) = slots[0];
            assert(j < xs.len());
        },
        None => {
            if cols == 0 {
                assert(cols * cols == 0);
            }
        },
    }
}

} // verus!
