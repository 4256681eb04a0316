//! The coordination figure: residual heatmaps of all agents, and convergence curves.
use super::canvas::{spec_tenths, spec_units, tenths, units, Canvas, ShapeModel};
use super::color::{colormap, hex_color, sample_of, ColorMap};
use super::scale::{norm_of, LogNorm};
use crate::scalar::{Scalar, Widens};
use crate::tensor::{copy_row, Arr2, Matrix};
use crate::text::{decimal_text, joined, numeral};
use vstd::prelude::*;
use vstd::string::*;

verus! {

/// Where a panel lies on the canvas.
#[derive(Debug, Clone, Copy)]
pub struct Panel<W> {
    pub x0: W,
    pub y0: W,
    pub pw: W,
    pub ph: W,
}

/// How many steps lie between two ticks, so that there are about five.
pub open spec fn tick_step(count: int) -> int {
    if count == 0 {
        1
    } else {
        (count - 1) / 5 + 1
    }
}

/// How many ticks there are.
pub open spec fn tick_count(count: int) -> int {
    if count == 0 {
        0
    } else {
        (count - 1) / tick_step(count) + 1
    }
}

proof fn tick_fits(count: int, t: int)
    requires
        0 <= t < tick_count(count),
        0 <= count,
    ensures
        0 <= t * tick_step(count) < count,
{
    let step = tick_step(count);
    let top = (count - 1) / step;
    assert(0 <= t * step <= top * step) by (nonlinear_arith)
        requires
            0 <= t <= top,
            0 < step,
    ;
    assert(top * step <= count - 1) by (nonlinear_arith)
        requires
            top == (count - 1) / step,
            0 < step,
    ;
}

fn tick_plan(count: usize) -> (r: (usize, usize))
    ensures
        r.0 == tick_step(count as int),
        r.1 == tick_count(count as int),
{
    if count == 0 {
        (1, 0)
    } else {
        let step = (count - 1) / 5 + 1;
        assert((count - 1) as int / step as int <= count - 1) by (nonlinear_arith)
            requires
                step >= 1,
                count >= 1,
        ;
        (step, (count - 1) / step + 1)
    }
}

/// A signed number in decimal.
pub open spec fn signed_numeral(p: int) -> Seq<char> {
    if p < 0 {
        "-"@ + numeral((-p) as nat)
    } else {
        numeral(p as nat)
    }
}

/// The label of a decade.
pub open spec fn decade_label(p: int) -> Seq<char> {
    "1e"@ + signed_numeral(p)
}

fn decade_text(p: i32) -> (r: String)
    ensures
        r@ == decade_label(p as int),
{
    if p < 0 {
        let magnitude = (-(p as i64)) as u32;
        let mut out = "1e".to_owned();
        let sign = joined("-", decimal_text(magnitude as usize).as_str());
        out.append(sign.as_str());
        out
    } else {
        joined("1e", decimal_text(p as usize).as_str())
    }
}

/// The cell of iteration `ki` and agent `ni`, agents from the bottom up. Half a unit of overlap
/// hides seams.
pub open spec fn heat_cell<S: Scalar, W: Scalar>(
    panel: Panel<W>,
    k: int,
    n: int,
    ki: int,
    ni: int,
    map: ColorMap,
    t: S,
) -> ShapeModel<W> {
    let cw = panel.pw.spec_over(W::spec_from_count(k as nat));
    let ch = panel.ph.spec_over(W::spec_from_count(n as nat));
    let x = panel.x0.spec_plus(W::spec_from_count(ki as nat).spec_times(cw));
    let y = panel.y0.spec_plus(panel.ph).spec_minus(W::spec_from_count((ni + 1) as nat).spec_times(ch));
    ShapeModel::Rect {
        x,
        y,
        w: cw.spec_plus(spec_tenths(5)),
        h: ch.spec_plus(spec_tenths(5)),
        fill: hex_color(sample_of(map, t)),
    }
}

/// The first `i` cells, iteration by iteration.
pub open spec fn heat_cells<S: Scalar, W: Scalar>(
    acc: Seq<ShapeModel<W>>,
    panel: Panel<W>,
    data: Arr2<S>,
    norm: LogNorm<S>,
    map: ColorMap,
    i: nat,
) -> Seq<ShapeModel<W>>
    decreases i,
{
    if i == 0 {
        acc
    } else {
        let k = data.rows as int;
        let n = data.cols as int;
        let ki = (i - 1) / n;
        let ni = (i - 1) % n;
        let t = norm.place(data.at(ki, ni));
        heat_cells(acc, panel, data, norm, map, (i - 1) as nat).push(
            heat_cell::<S, W>(panel, k, n, ki, ni, map, t),
        )
    }
}

/// Frame, title and axis names of a heatmap.
pub open spec fn heat_labels<W: Scalar>(
    acc: Seq<ShapeModel<W>>,
    panel: Panel<W>,
    title: Seq<char>,
) -> Seq<ShapeModel<W>> {
    let mid = panel.x0.spec_plus(panel.pw.spec_over(spec_units(2)));
    let bottom = panel.y0.spec_plus(panel.ph);
    acc.push(
        ShapeModel::Frame {
            x: panel.x0,
            y: panel.y0,
            w: panel.pw,
            h: panel.ph,
            stroke: "#374151"@,
        },
    ).push(
        ShapeModel::Text {
            x: mid,
            y: panel.y0.spec_minus(spec_units(8)),
            size: spec_units(12),
            anchor: "middle"@,
            fill: "#111827"@,
            rotate: W::spec_zero(),
            text: title,
        },
    ).push(
        ShapeModel::Text {
            x: mid,
            y: bottom.spec_plus(spec_units(28)),
            size: spec_units(11),
            anchor: "middle"@,
            fill: "#111827"@,
            rotate: W::spec_zero(),
            text: "ADMM iteration k"@,
        },
    ).push(
        ShapeModel::Text {
            x: panel.x0.spec_minus(spec_units(30)),
            y: panel.y0.spec_plus(panel.ph.spec_over(spec_units(2))),
            size: spec_units(11),
            anchor: "middle"@,
            fill: "#111827"@,
            rotate: spec_units(-90),
            text: "agent i"@,
        },
    )
}

/// The first `t` ticks below a heatmap, at iterations counted from one.
pub open spec fn heat_x_ticks<W: Scalar>(
    acc: Seq<ShapeModel<W>>,
    panel: Panel<W>,
    k: int,
    t: nat,
) -> Seq<ShapeModel<W>>
    decreases t,
{
    if t == 0 {
        acc
    } else {
        let ki = (t - 1) * tick_step(k);
        let bottom = panel.y0.spec_plus(panel.ph);
        let cw = panel.pw.spec_over(W::spec_from_count(k as nat));
        let tx = panel.x0.spec_plus(W::spec_from_count(ki as nat).spec_plus(spec_tenths(5)).spec_times(cw));
        let before = heat_x_ticks(acc, panel, k, (t - 1) as nat);
        before.push(
            ShapeModel::Line {
                x1: tx,
                y1: bottom,
                x2: tx,
                y2: bottom.spec_plus(spec_units(3)),
                stroke: "#374151"@,
                width: spec_tenths(8),
                dash: ""@,
            },
        ).push(
            ShapeModel::Text {
                x: tx,
                y: bottom.spec_plus(spec_units(14)),
                size: spec_units(9),
                anchor: "middle"@,
                fill: "#374151"@,
                rotate: W::spec_zero(),
                text: numeral((ki + 1) as nat),
            },
        )
    }
}

/// The first `t` ticks left of a heatmap, at agents.
pub open spec fn heat_y_ticks<W: Scalar>(
    acc: Seq<ShapeModel<W>>,
    panel: Panel<W>,
    n: int,
    t: nat,
) -> Seq<ShapeModel<W>>
    decreases t,
{
    if t == 0 {
        acc
    } else {
        let ni = (t - 1) * tick_step(n);
        let ch = panel.ph.spec_over(W::spec_from_count(n as nat));
        let rise = W::spec_from_count(ni as nat).spec_plus(spec_tenths(5)).spec_times(ch);
        let ty = panel.y0.spec_plus(panel.ph).spec_minus(rise);
        let before = heat_y_ticks(acc, panel, n, (t - 1) as nat);
        before.push(
            ShapeModel::Line {
                x1: panel.x0.spec_minus(spec_units(3)),
                y1: ty,
                x2: panel.x0,
                y2: ty,
                stroke: "#374151"@,
                width: spec_tenths(8),
                dash: ""@,
            },
        ).push(
            ShapeModel::Text {
                x: panel.x0.spec_minus(spec_units(6)),
                y: ty.spec_plus(spec_units(3)),
                size: spec_units(9),
                anchor: "end"@,
                fill: "#374151"@,
                rotate: W::spec_zero(),
                text: numeral(ni as nat),
            },
        )
    }
}

/// The first `t` of 64 steps of the colour bar, from the bottom up.
pub open spec fn color_bar<S: Scalar, W: Scalar>(
    acc: Seq<ShapeModel<W>>,
    panel: Panel<W>,
    map: ColorMap,
    t: nat,
) -> Seq<ShapeModel<W>>
    decreases t,
{
    if t == 0 {
        acc
    } else {
        let i = t - 1;
        let bx = panel.x0.spec_plus(panel.pw).spec_plus(spec_units(8));
        let rise = W::spec_from_count((i + 1) as nat).spec_times(panel.ph).spec_over(spec_units(64));
        let by = panel.y0.spec_plus(panel.ph).spec_minus(rise);
        let middle = S::spec_from_count(i as nat).spec_plus(S::spec_decimal(5, -1));
        let place = middle.spec_over(S::spec_decimal(64, 0));
        let before = color_bar::<S, W>(acc, panel, map, (t - 1) as nat);
        before.push(
            ShapeModel::Rect {
                x: bx,
                y: by,
                w: spec_units(12),
                h: panel.ph.spec_over(spec_units(64)).spec_plus(spec_tenths(5)),
                fill: hex_color(sample_of::<S>(map, place)),
            },
        )
    }
}

/// The first `t` decades beside the colour bar.
pub open spec fn bar_ticks<S: Widens<W>, W: Scalar>(
    acc: Seq<ShapeModel<W>>,
    panel: Panel<W>,
    ticks: Seq<(S, int)>,
    t: nat,
) -> Seq<ShapeModel<W>>
    decreases t,
{
    if t == 0 {
        acc
    } else {
        let (place, p) = ticks[t - 1];
        let right = panel.x0.spec_plus(panel.pw).spec_plus(spec_units(8)).spec_plus(spec_units(12));
        let ty = panel.y0.spec_plus(panel.ph).spec_minus(place.spec_widen().spec_times(panel.ph));
        let before = bar_ticks(acc, panel, ticks, (t - 1) as nat);
        before.push(
            ShapeModel::Line {
                x1: right,
                y1: ty,
                x2: right.spec_plus(spec_units(3)),
                y2: ty,
                stroke: "#374151"@,
                width: spec_tenths(8),
                dash: ""@,
            },
        ).push(
            ShapeModel::Text {
                x: right.spec_plus(spec_units(5)),
                y: ty.spec_plus(spec_units(3)),
                size: spec_tenths(85),
                anchor: "start"@,
                fill: "#374151"@,
                rotate: W::spec_zero(),
                text: decade_label(p),
            },
        )
    }
}

/// The members of an array, in memory order.
pub open spec fn members<S>(data: Arr2<S>, i: nat) -> Seq<S>
    decreases i,
{
    if i == 0 {
        Seq::empty()
    } else {
        members(data, (i - 1) as nat) + data.data[i - 1]
    }
}

/// A heatmap: `[K, N]` values on a logarithmic colour scale, with labels, ticks and colour bar.
pub open spec fn heatmap<S: Widens<W>, W: Scalar>(
    acc: Seq<ShapeModel<W>>,
    panel: Panel<W>,
    data: Arr2<S>,
    title: Seq<char>,
    map: ColorMap,
) -> Seq<ShapeModel<W>> {
    let k = data.rows as int;
    let n = data.cols as int;
    let norm = norm_of(members(data, data.rows));
    let s = heat_cells(acc, panel, data, norm, map, (k * n) as nat);
    let s = heat_labels(s, panel, title);
    let s = heat_x_ticks(s, panel, k, tick_count(k) as nat);
    let s = heat_y_ticks(s, panel, n, tick_count(n) as nat);
    let s = color_bar::<S, W>(s, panel, map, 64).push(
        ShapeModel::Frame {
            x: panel.x0.spec_plus(panel.pw).spec_plus(spec_units(8)),
            y: panel.y0,
            w: spec_units(12),
            h: panel.ph,
            stroke: "#374151"@,
        },
    );
    bar_ticks(s, panel, norm.ticks(), norm.ticks().len())
}

fn collect_members<S: Scalar>(data: &Matrix<S>) -> (r: Vec<S>)
    requires
        data.wf(),
    ensures
        r@ == members(data@, data@.rows),
{
    let mut out: Vec<S> = Vec::new();
    let n = data.nrows();
    for i in 0..n
        invariant
            data.wf(),
            n == data@.rows,
            out@ == members(data@, i as nat),
    {
        let mut row = copy_row(data.row(i));
        out.append(&mut row);
    }
    out
}

/// Draws one `[K, N]` heatmap panel.
pub fn draw_heatmap<S: Widens<W>, W: Scalar>(
    canvas: &mut Canvas<W>,
    panel: Panel<W>,
    data: &Matrix<S>,
    title: &str,
    map: ColorMap,
)
    requires
        data.wf(),
        data@.rows * data@.cols <= usize::MAX,
    ensures
        final(canvas).width == old(canvas).width,
        final(canvas).height == old(canvas).height,
        final(canvas)@ == heatmap(old(canvas)@, panel, data@, title@, map),
{
    let k = data.nrows();
    let n = data.ncols();
    let all = collect_members(data);
    let norm = LogNorm::from_values(all.as_slice());
    let ghost s0 = canvas@;
    for i in 0..k * n
        invariant
            data.wf(),
            k == data@.rows,
            n == data@.cols,
            k * n <= usize::MAX,
            canvas.width == old(canvas).width,
            canvas.height == old(canvas).height,
            canvas@ == heat_cells(s0, panel, data@, norm, map, i as nat),
    {
        assert(0 < n && i as int / n as int >= 0 && (i as int / n as int) < k) by (nonlinear_arith)
            requires
                0 <= i < k * n,
                0 <= n,
        ;
        let ki = i / n;
        let ni = i % n;
        let fill = colormap(map, norm.t(data.get(ki, ni)));
        let cw = panel.pw.over(W::from_count(k));
        let ch = panel.ph.over(W::from_count(n));
        let x = panel.x0.plus(W::from_count(ki).times(cw));
        let y = panel.y0.plus(panel.ph).minus(W::from_count(ni + 1).times(ch));
        canvas.rect(x, y, cw.plus(tenths(5)), ch.plus(tenths(5)), fill.as_str());
    }
    let mid = panel.x0.plus(panel.pw.over(units(2)));
    let bottom = panel.y0.plus(panel.ph);
    canvas.frame(panel.x0, panel.y0, panel.pw, panel.ph, "#374151");
    canvas.text(mid, panel.y0.minus(units(8)), units(12), "middle", "#111827", W::zero(), title);
    canvas.text(
        mid,
        bottom.plus(units(28)),
        units(11),
        "middle",
        "#111827",
        W::zero(),
        "ADMM iteration k",
    );
    canvas.text(
        panel.x0.minus(units(30)),
        panel.y0.plus(panel.ph.over(units(2))),
        units(11),
        "middle",
        "#111827",
        units(-90),
        "agent i",
    );
    let (step, count) = tick_plan(k);
    let ghost s1 = canvas@;
    for t in 0..count
        invariant
            step == tick_step(k as int),
            count == tick_count(k as int),
            canvas.width == old(canvas).width,
            canvas.height == old(canvas).height,
            canvas@ == heat_x_ticks(s1, panel, k as int, t as nat),
    {
        proof {
            tick_fits(k as int, t as int);
        }
        let ki = t * step;
        let bottom = panel.y0.plus(panel.ph);
        let cw = panel.pw.over(W::from_count(k));
        let tx = panel.x0.plus(W::from_count(ki).plus(tenths(5)).times(cw));
        canvas.line(tx, bottom, tx, bottom.plus(units(3)), "#374151", tenths(8), "");
        canvas.text(
            tx,
            bottom.plus(units(14)),
            units(9),
            "middle",
            "#374151",
            W::zero(),
            decimal_text(ki + 1).as_str(),
        );
    }
    let (ystep, ycount) = tick_plan(n);
    let ghost s2 = canvas@;
    for t in 0..ycount
        invariant
            ystep == tick_step(n as int),
            ycount == tick_count(n as int),
            canvas.width == old(canvas).width,
            canvas.height == old(canvas).height,
            canvas@ == heat_y_ticks(s2, panel, n as int, t as nat),
    {
        proof {
            tick_fits(n as int, t as int);
        }
        let ni = t * ystep;
        let ch = panel.ph.over(W::from_count(n));
        let rise = W::from_count(ni).plus(tenths(5)).times(ch);
        let ty = panel.y0.plus(panel.ph).minus(rise);
        canvas.line(panel.x0.minus(units(3)), ty, panel.x0, ty, "#374151", tenths(8), "");
        canvas.text(
            panel.x0.minus(units(6)),
            ty.plus(units(3)),
            units(9),
            "end",
            "#374151",
            W::zero(),
            decimal_text(ni).as_str(),
        );
    }
    let ghost s3 = canvas@;
    for i in 0..64usize
        invariant
            canvas.width == old(canvas).width,
            canvas.height == old(canvas).height,
            canvas@ == color_bar::<S, W>(s3, panel, map, i as nat),
    {
        let bx = panel.x0.plus(panel.pw).plus(units(8));
        let rise = W::from_count(i + 1).times(panel.ph).over(units(64));
        let by = panel.y0.plus(panel.ph).minus(rise);
        let middle: S = S::from_count(i).plus(S::decimal(5, -1));
        let place = middle.over(S::decimal(64, 0));
        let fill = colormap(map, place);
        canvas.rect(bx, by, units(12), panel.ph.over(units(64)).plus(tenths(5)), fill.as_str());
    }
    canvas.frame(panel.x0.plus(panel.pw).plus(units(8)), panel.y0, units(12), panel.ph, "#374151");
    let ticks = norm.decade_ticks();
    let ghost s4 = canvas@;
    for t in 0..ticks.len()
        invariant
            ticks@.map_values(|p: (S, i32)| (p.0, p.1 as int)) == norm.ticks(),
            canvas.width == old(canvas).width,
            canvas.height == old(canvas).height,
            canvas@ == bar_ticks(s4, panel, norm.ticks(), t as nat),
    {
        assert(norm.ticks()[t as int] == (ticks@[t as int].0, ticks@[t as int].1 as int)) by {
            assert(ticks@.map_values(|p: (S, i32)| (p.0, p.1 as int))[t as int] == norm.ticks()[t as int]);
        }
        let (place, p) = ticks[t];
        let right = panel.x0.plus(panel.pw).plus(units(8)).plus(units(12));
        let ty = panel.y0.plus(panel.ph).minus(place.widen().times(panel.ph));
        canvas.line(right, ty, right.plus(units(3)), ty, "#374151", tenths(8), "");
        canvas.text(
            right.plus(units(5)),
            ty.plus(units(3)),
            tenths(85),
            "start",
            "#374151",
            W::zero(),
            decade_text(p).as_str(),
        );
    }
}

/// One curve: colour, dash pattern, label, values.
pub ghost struct Curve<S> {
    pub color: Seq<char>,
    pub dash: Seq<char>,
    pub label: Seq<char>,
    pub values: Seq<S>,
}

struct Series<S> {
    color: &'static str,
    dash: &'static str,
    label: &'static str,
    values: Vec<S>,
}

impl<S> Series<S> {
    spec fn curve(&self) -> Curve<S> {
        Curve { color: self.color@, dash: self.dash@, label: self.label@, values: self.values@ }
    }
}

spec fn curves<S>(series: Seq<Series<S>>) -> Seq<Curve<S>> {
    series.map_values(|s: Series<S>| s.curve())
}

/// The largest of the first `i` members.
pub open spec fn largest<S: Scalar>(x: Seq<S>, i: nat) -> S
    decreases i,
{
    if i == 0 {
        S::spec_neg_infinity()
    } else {
        largest(x, (i - 1) as nat).spec_max(x[i - 1])
    }
}

/// The mean of a row, summed as the number type prefers.
pub open spec fn row_mean<S: Scalar>(x: Seq<S>) -> S {
    S::spec_sum(x).spec_over(S::spec_from_count(x.len()))
}

/// The mean of every row.
pub open spec fn row_means<S: Scalar>(a: Arr2<S>) -> Seq<S> {
    Seq::new(a.rows, |i: int| row_mean(a.data[i]))
}

/// The largest member of every row.
pub open spec fn row_maxima<S: Scalar>(a: Arr2<S>) -> Seq<S> {
    Seq::new(a.rows, |i: int| largest(a.data[i], a.cols))
}

fn mean_max<S: Scalar>(a: &Matrix<S>) -> (r: (Vec<S>, Vec<S>))
    requires
        a.wf(),
    ensures
        r.0@ == row_means(a@),
        r.1@ == row_maxima(a@),
{
    let n = a.nrows();
    let mut means: Vec<S> = Vec::new();
    let mut maxima: Vec<S> = Vec::new();
    for i in 0..n
        invariant
            a.wf(),
            n == a@.rows,
            means@.len() == i,
            maxima@.len() == i,
            forall|j: int| 0 <= j < i ==> #[trigger] means@[j] == row_mean(a@.data[j]),
            forall|j: int| 0 <= j < i ==> #[trigger] maxima@[j] == largest(a@.data[j], a@.cols),
    {
        let row = a.row(i);
        assert(row@.len() == a@.cols);
        means.push(S::sum(row).over(S::from_count(row.len())));
        let mut most = S::neg_infinity();
        for j in 0..row.len()
            invariant
                most == largest(row@, j as nat),
        {
            most = most.max(row[j]);
        }
        maxima.push(most);
    }
    assert(means@ =~= row_means(a@));
    assert(maxima@ =~= row_maxima(a@));
    (means, maxima)
}

/// The curves of a run: mean and maximum of primal and dual residuals over agents, and the
/// consistency where it is given.
pub open spec fn run_curves<S: Scalar>(
    primal: Arr2<S>,
    dual: Arr2<S>,
    cons: Option<Seq<S>>,
) -> Seq<Curve<S>> {
    let four = seq![
        Curve { color: "#1d4ed8"@, dash: ""@, label: "primal (mean)"@, values: row_means(primal) },
        Curve { color: "#1d4ed8"@, dash: "4 3"@, label: "primal (max)"@, values: row_maxima(primal) },
        Curve { color: "#dc2626"@, dash: ""@, label: "dual (mean)"@, values: row_means(dual) },
        Curve { color: "#dc2626"@, dash: "4 3"@, label: "dual (max)"@, values: row_maxima(dual) },
    ];
    match cons {
        Some(c) => four.push(
            Curve { color: "#16a34a"@, dash: ""@, label: "consistency RMS"@, values: c },
        ),
        None => four,
    }
}

/// The values of the first `i` curves, one after the other.
pub open spec fn curve_values<S>(curves: Seq<Curve<S>>, i: nat) -> Seq<S>
    decreases i,
{
    if i == 0 {
        Seq::empty()
    } else {
        curve_values(curves, (i - 1) as nat) + curves[i - 1].values
    }
}

/// The first `t` decades across the panel.
pub open spec fn grid_lines<S: Widens<W>, W: Scalar>(
    acc: Seq<ShapeModel<W>>,
    panel: Panel<W>,
    ticks: Seq<(S, int)>,
    t: nat,
) -> Seq<ShapeModel<W>>
    decreases t,
{
    if t == 0 {
        acc
    } else {
        let (place, p) = ticks[t - 1];
        let ty = panel.y0.spec_plus(panel.ph).spec_minus(place.spec_widen().spec_times(panel.ph));
        let before = grid_lines(acc, panel, ticks, (t - 1) as nat);
        before.push(
            ShapeModel::Line {
                x1: panel.x0,
                y1: ty,
                x2: panel.x0.spec_plus(panel.pw),
                y2: ty,
                stroke: "#e5e7eb"@,
                width: spec_tenths(7),
                dash: ""@,
            },
        ).push(
            ShapeModel::Text {
                x: panel.x0.spec_minus(spec_units(5)),
                y: ty.spec_plus(spec_units(3)),
                size: spec_tenths(85),
                anchor: "end"@,
                fill: "#374151"@,
                rotate: W::spec_zero(),
                text: decade_label(p),
            },
        )
    }
}

/// The points of a curve.
pub open spec fn curve_points<S: Widens<W>, W: Scalar>(
    panel: Panel<W>,
    norm: LogNorm<S>,
    k: int,
    values: Seq<S>,
) -> Seq<(W, W)> {
    Seq::new(values.len(), |ki: int| curve_point(panel, norm, k, ki, values[ki]))
}

/// Where a curve has value `v` at iteration `ki`.
pub open spec fn curve_point<S: Widens<W>, W: Scalar>(
    panel: Panel<W>,
    norm: LogNorm<S>,
    k: int,
    ki: int,
    v: S,
) -> (W, W) {
    let share = W::spec_from_count(ki as nat).spec_plus(spec_tenths(5)).spec_over(W::spec_from_count(k as nat));
    (
        panel.x0.spec_plus(share.spec_times(panel.pw)),
        panel.y0.spec_plus(panel.ph).spec_minus(norm.place(v).spec_widen().spec_times(panel.ph)),
    )
}

/// Dashed curves are drawn faintly.
pub open spec fn opacity_of<W: Scalar>(dash: Seq<char>) -> W {
    if dash.len() == 0 {
        W::spec_one()
    } else {
        spec_tenths(6)
    }
}

/// The first `t` curves.
pub open spec fn curve_lines<S: Widens<W>, W: Scalar>(
    acc: Seq<ShapeModel<W>>,
    panel: Panel<W>,
    norm: LogNorm<S>,
    k: int,
    curves: Seq<Curve<S>>,
    t: nat,
) -> Seq<ShapeModel<W>>
    decreases t,
{
    if t == 0 {
        acc
    } else {
        let before = curve_lines(acc, panel, norm, k, curves, (t - 1) as nat);
        let c = curves[t - 1];
        if c.values.len() == 0 {
            before
        } else {
            before.push(
                ShapeModel::Polyline {
                    points: curve_points(panel, norm, k, c.values),
                    stroke: c.color,
                    width: spec_tenths(14),
                    dash: c.dash,
                    opacity: opacity_of(c.dash),
                },
            )
        }
    }
}

/// Frame, title and axis names of the convergence panel.
pub open spec fn curve_labels<W: Scalar>(
    acc: Seq<ShapeModel<W>>,
    panel: Panel<W>,
) -> Seq<ShapeModel<W>> {
    let mid = panel.x0.spec_plus(panel.pw.spec_over(spec_units(2)));
    let bottom = panel.y0.spec_plus(panel.ph);
    acc.push(
        ShapeModel::Frame {
            x: panel.x0,
            y: panel.y0,
            w: panel.pw,
            h: panel.ph,
            stroke: "#374151"@,
        },
    ).push(
        ShapeModel::Text {
            x: mid,
            y: panel.y0.spec_minus(spec_units(8)),
            size: spec_units(12),
            anchor: "middle"@,
            fill: "#111827"@,
            rotate: W::spec_zero(),
            text: "convergence"@,
        },
    ).push(
        ShapeModel::Text {
            x: mid,
            y: bottom.spec_plus(spec_units(28)),
            size: spec_units(11),
            anchor: "middle"@,
            fill: "#111827"@,
            rotate: W::spec_zero(),
            text: "ADMM iteration k"@,
        },
    ).push(
        ShapeModel::Text {
            x: panel.x0.spec_minus(spec_units(42)),
            y: panel.y0.spec_plus(panel.ph.spec_over(spec_units(2))),
            size: spec_units(11),
            anchor: "middle"@,
            fill: "#111827"@,
            rotate: spec_units(-90),
            text: "residual (log)"@,
        },
    )
}

/// The first `t` ticks below the convergence panel.
pub open spec fn curve_x_ticks<W: Scalar>(
    acc: Seq<ShapeModel<W>>,
    panel: Panel<W>,
    k: int,
    t: nat,
) -> Seq<ShapeModel<W>>
    decreases t,
{
    if t == 0 {
        acc
    } else {
        let ki = (t - 1) * tick_step(k);
        let bottom = panel.y0.spec_plus(panel.ph);
        let share = W::spec_from_count(ki as nat).spec_plus(spec_tenths(5)).spec_over(W::spec_from_count(k as nat));
        let tx = panel.x0.spec_plus(share.spec_times(panel.pw));
        let before = curve_x_ticks(acc, panel, k, (t - 1) as nat);
        before.push(
            ShapeModel::Line {
                x1: tx,
                y1: bottom,
                x2: tx,
                y2: bottom.spec_plus(spec_units(3)),
                stroke: "#374151"@,
                width: spec_tenths(8),
                dash: ""@,
            },
        ).push(
            ShapeModel::Text {
                x: tx,
                y: bottom.spec_plus(spec_units(14)),
                size: spec_units(9),
                anchor: "middle"@,
                fill: "#374151"@,
                rotate: W::spec_zero(),
                text: numeral((ki + 1) as nat),
            },
        )
    }
}

/// The height of legend entry `t`: eleven units below the one before it.
pub open spec fn legend_y<W: Scalar>(panel: Panel<W>, t: nat) -> W
    decreases t,
{
    if t == 0 {
        panel.y0.spec_plus(spec_units(12))
    } else {
        legend_y(panel, (t - 1) as nat).spec_plus(spec_units(11))
    }
}

/// The first `t` entries of the legend.
pub open spec fn legend_entries<S: Scalar, W: Scalar>(
    acc: Seq<ShapeModel<W>>,
    panel: Panel<W>,
    curves: Seq<Curve<S>>,
    t: nat,
) -> Seq<ShapeModel<W>>
    decreases t,
{
    if t == 0 {
        acc
    } else {
        let ly = legend_y(panel, (t - 1) as nat);
        let c = curves[t - 1];
        let lx = panel.x0.spec_plus(panel.pw).spec_minus(spec_units(118));
        let mid = ly.spec_minus(spec_units(3));
        let before = legend_entries(acc, panel, curves, (t - 1) as nat);
        before.push(
            ShapeModel::Line {
                x1: lx,
                y1: mid,
                x2: lx.spec_plus(spec_units(18)),
                y2: mid,
                stroke: c.color,
                width: spec_tenths(16),
                dash: c.dash,
            },
        ).push(
            ShapeModel::Text {
                x: lx.spec_plus(spec_units(22)),
                y: ly,
                size: spec_tenths(85),
                anchor: "start"@,
                fill: "#111827"@,
                rotate: W::spec_zero(),
                text: c.label,
            },
        )
    }
}

/// The convergence panel: curves on a logarithmic axis, with grid, labels, ticks and legend.
pub open spec fn convergence<S: Widens<W>, W: Scalar>(
    acc: Seq<ShapeModel<W>>,
    panel: Panel<W>,
    primal: Arr2<S>,
    dual: Arr2<S>,
    cons: Option<Seq<S>>,
) -> Seq<ShapeModel<W>> {
    let k = primal.rows as int;
    let curves = run_curves(primal, dual, cons);
    let norm = norm_of(curve_values(curves, curves.len()));
    let s = grid_lines(acc, panel, norm.ticks(), norm.ticks().len());
    let s = curve_lines(s, panel, norm, k, curves, curves.len());
    let s = curve_labels(s, panel);
    let s = curve_x_ticks(s, panel, k, tick_count(k) as nat);
    legend_entries(s, panel, curves, curves.len())
}

/// Draws the convergence panel.
pub fn draw_convergence<S: Widens<W>, W: Scalar>(
    canvas: &mut Canvas<W>,
    panel: Panel<W>,
    primal: &Matrix<S>,
    dual: &Matrix<S>,
    cons: Option<&[S]>,
)
    requires
        primal.wf(),
        dual.wf(),
    ensures
        final(canvas).width == old(canvas).width,
        final(canvas).height == old(canvas).height,
        final(canvas)@ == convergence(
            old(canvas)@,
            panel,
            primal@,
            dual@,
            match cons {
                Some(c) => Some(c@),
                None => None,
            },
        ),
{
    let k = primal.nrows();
    let (p_mean, p_max) = mean_max(primal);
    let (d_mean, d_max) = mean_max(dual);
    let mut series: Vec<Series<S>> = vec![
        Series { color: "#1d4ed8", dash: "", label: "primal (mean)", values: p_mean },
        Series { color: "#1d4ed8", dash: "4 3", label: "primal (max)", values: p_max },
        Series { color: "#dc2626", dash: "", label: "dual (mean)", values: d_mean },
        Series { color: "#dc2626", dash: "4 3", label: "dual (max)", values: d_max },
    ];
    if let Some(c) = cons {
        let values = copy_row(c);
        series.push(Series { color: "#16a34a", dash: "", label: "consistency RMS", values });
    }
    let ghost given = match cons {
        Some(c) => Some(c@),
        None => None,
    };
    let ghost want = run_curves(primal@, dual@, given);
    assert(curves(series@) =~= want);
    let mut all: Vec<S> = Vec::new();
    for i in 0..series.len()
        invariant
            curves(series@) == want,
            all@ == curve_values(want, i as nat),
    {
        assert(curves(series@)[i as int] == series@[i as int].curve());
        let mut values = copy_row(series[i].values.as_slice());
        all.append(&mut values);
    }
    let norm = LogNorm::from_values(all.as_slice());
    let ticks = norm.decade_ticks();
    let ghost s0 = canvas@;
    for t in 0..ticks.len()
        invariant
            ticks@.map_values(|p: (S, i32)| (p.0, p.1 as int)) == norm.ticks(),
            canvas.width == old(canvas).width,
            canvas.height == old(canvas).height,
            canvas@ == grid_lines(s0, panel, norm.ticks(), t as nat),
    {
        assert(norm.ticks()[t as int] == (ticks@[t as int].0, ticks@[t as int].1 as int)) by {
            assert(ticks@.map_values(|p: (S, i32)| (p.0, p.1 as int))[t as int] == norm.ticks()[t as int]);
        }
        let (place, p) = ticks[t];
        let ty = panel.y0.plus(panel.ph).minus(place.widen().times(panel.ph));
        canvas.line(panel.x0, ty, panel.x0.plus(panel.pw), ty, "#e5e7eb", tenths(7), "");
        canvas.text(
            panel.x0.minus(units(5)),
            ty.plus(units(3)),
            tenths(85),
            "end",
            "#374151",
            W::zero(),
            decade_text(p).as_str(),
        );
    }
    let ghost s1 = canvas@;
    for t in 0..series.len()
        invariant
            curves(series@) == want,
            canvas.width == old(canvas).width,
            canvas.height == old(canvas).height,
            canvas@ == curve_lines(s1, panel, norm, k as int, want, t as nat),
    {
        assert(curves(series@)[t as int] == series@[t as int].curve());
        let c = &series[t];
        let mut points: Vec<(W, W)> = Vec::new();
        for ki in 0..c.values.len()
            invariant
                points@.len() == ki,
                forall|j: int|
                    0 <= j < ki ==> #[trigger] points@[j] == curve_point(
                        panel,
                        norm,
                        k as int,
                        j,
                        c.values@[j],
                    ),
        {
            let v = c.values[ki];
            let share = W::from_count(ki).plus(tenths(5)).over(W::from_count(k));
            let x = panel.x0.plus(share.times(panel.pw));
            let y = panel.y0.plus(panel.ph).minus(norm.t(v).widen().times(panel.ph));
            points.push((x, y));
        }
        assert(points@ =~= curve_points(panel, norm, k as int, c.values@));
        let opacity = if c.dash.unicode_len() == 0 {
            W::one()
        } else {
            tenths(6)
        };
        canvas.polyline(points, c.color, tenths(14), c.dash, opacity);
    }
    let mid = panel.x0.plus(panel.pw.over(units(2)));
    let bottom = panel.y0.plus(panel.ph);
    canvas.frame(panel.x0, panel.y0, panel.pw, panel.ph, "#374151");
    canvas.text(
        mid,
        panel.y0.minus(units(8)),
        units(12),
        "middle",
        "#111827",
        W::zero(),
        "convergence",
    );
    canvas.text(
        mid,
        bottom.plus(units(28)),
        units(11),
        "middle",
        "#111827",
        W::zero(),
        "ADMM iteration k",
    );
    canvas.text(
        panel.x0.minus(units(42)),
        panel.y0.plus(panel.ph.over(units(2))),
        units(11),
        "middle",
        "#111827",
        units(-90),
        "residual (log)",
    );
    let (step, count) = tick_plan(k);
    let ghost s2 = canvas@;
    for t in 0..count
        invariant
            step == tick_step(k as int),
            count == tick_count(k as int),
            canvas.width == old(canvas).width,
            canvas.height == old(canvas).height,
            canvas@ == curve_x_ticks(s2, panel, k as int, t as nat),
    {
        proof {
            tick_fits(k as int, t as int);
        }
        let ki = t * step;
        let bottom = panel.y0.plus(panel.ph);
        let share = W::from_count(ki).plus(tenths(5)).over(W::from_count(k));
        let tx = panel.x0.plus(share.times(panel.pw));
        canvas.line(tx, bottom, tx, bottom.plus(units(3)), "#374151", tenths(8), "");
        canvas.text(
            tx,
            bottom.plus(units(14)),
            units(9),
            "middle",
            "#374151",
            W::zero(),
            decimal_text(ki + 1).as_str(),
        );
    }
    let mut ly = panel.y0.plus(units(12));
    let ghost s3 = canvas@;
    for t in 0..series.len()
        invariant
            curves(series@) == want,
            ly == legend_y(panel, t as nat),
            canvas.width == old(canvas).width,
            canvas.height == old(canvas).height,
            canvas@ == legend_entries(s3, panel, want, t as nat),
    {
        assert(curves(series@)[t as int] == series@[t as int].curve());
        let c = &series[t];
        let lx = panel.x0.plus(panel.pw).minus(units(118));
        let mid = ly.minus(units(3));
        canvas.line(lx, mid, lx.plus(units(18)), mid, c.color, tenths(16), c.dash);
        canvas.text(lx.plus(units(22)), ly, tenths(85), "start", "#111827", W::zero(), c.label);
        ly = ly.plus(units(11));
    }
}

/// The three panels side by side, with room for a title above where there is one.
pub open spec fn coordination_panel<W: Scalar>(i: int, titled: bool) -> Panel<W> {
    let ml = spec_units::<W>(58);
    let pw = spec_units::<W>(330);
    let stride = ml.spec_plus(pw).spec_plus(spec_units(52));
    Panel {
        x0: if i == 0 {
            ml
        } else if i == 1 {
            stride.spec_plus(ml)
        } else {
            spec_units::<W>(2).spec_times(stride).spec_plus(ml)
        },
        y0: spec_units(
            if titled {
                52
            } else {
                32
            },
        ),
        pw,
        ph: spec_units(280),
    }
}

/// Width and height of the coordination figure.
pub open spec fn coordination_size<W: Scalar>(titled: bool) -> (W, W) {
    let p = coordination_panel::<W>(0, titled);
    (
        spec_units::<W>(3).spec_times(p.x0.spec_plus(p.pw).spec_plus(spec_units(52))),
        p.y0.spec_plus(p.ph).spec_plus(spec_units(44)),
    )
}

/// The coordination figure: primal and dual heatmaps, and convergence.
pub open spec fn coordination<S: Widens<W>, W: Scalar>(
    primal: Arr2<S>,
    dual: Arr2<S>,
    cons: Option<Seq<S>>,
    suptitle: Option<Seq<char>>,
) -> Seq<ShapeModel<W>> {
    let titled = suptitle is Some;
    let (w, h) = coordination_size::<W>(titled);
    let s = seq![
        ShapeModel::Rect { x: W::spec_zero(), y: W::spec_zero(), w, h, fill: "white"@ },
    ];
    let s = match suptitle {
        Some(t) => s.push(
            ShapeModel::Text {
                x: w.spec_over(spec_units(2)),
                y: spec_units(22),
                size: spec_units(14),
                anchor: "middle"@,
                fill: "#111827"@,
                rotate: W::spec_zero(),
                text: t,
            },
        ),
        None => s,
    };
    let s = heatmap(
        s,
        coordination_panel(0, titled),
        primal,
        "primal residual  ||x_i - z_i||"@,
        ColorMap::Viridis,
    );
    let s = heatmap(
        s,
        coordination_panel(1, titled),
        dual,
        "dual residual  rho ||z_i - z_prev_i||"@,
        ColorMap::Magma,
    );
    convergence(s, coordination_panel(2, titled), primal, dual, cons)
}

/// Draws the coordination figure from `[K, N]` residuals and, where given, `[K]` consistency.
pub fn render_coordination<S: Widens<W>, W: Scalar>(
    primal: &Matrix<S>,
    dual: &Matrix<S>,
    cons: Option<&[S]>,
    suptitle: Option<&str>,
) -> (r: Canvas<W>)
    requires
        primal.wf(),
        dual.wf(),
        primal@.rows * primal@.cols <= usize::MAX,
        dual@.rows * dual@.cols <= usize::MAX,
    ensures
        (r.width, r.height) == coordination_size::<W>(suptitle is Some),
        r@ == coordination::<S, W>(
            primal@,
            dual@,
            match cons {
                Some(c) => Some(c@),
                None => None,
            },
            match suptitle {
                Some(t) => Some(t@),
                None => None,
            },
        ),
{
    let pw: W = units(330);
    let ph = units(280);
    let ml: W = units(58);
    let mt: W = units(
        if suptitle.is_some() {
            52
        } else {
            32
        },
    );
    let stride = ml.plus(pw).plus(units(52));
    let w = units::<W>(3).times(stride);
    let h = mt.plus(ph).plus(units(44));
    let mut canvas = Canvas::new(w, h);
    if let Some(t) = suptitle {
        canvas.text(
            w.over(units(2)),
            units(22),
            units(14),
            "middle",
            "#111827",
            W::zero(),
            t,
        );
    }
    draw_heatmap(
        &mut canvas,
        Panel { x0: ml, y0: mt, pw, ph },
        primal,
        "primal residual  ||x_i - z_i||",
        ColorMap::Viridis,
    );
    draw_heatmap(
        &mut canvas,
        Panel { x0: stride.plus(ml), y0: mt, pw, ph },
        dual,
        "dual residual  rho ||z_i - z_prev_i||",
        ColorMap::Magma,
    );
    draw_convergence(
        &mut canvas,
        Panel { x0: units::<W>(2).times(stride).plus(ml), y0: mt, pw, ph },
        primal,
        dual,
        cons,
    );
    canvas
}

} // verus!
