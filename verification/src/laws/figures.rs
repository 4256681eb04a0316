//! What the figures show: scales and frames that hold all of their values, curves under the
//! names of their series, and cells in the colours of their members.
use crate::figures::{
    bar_ticks, color_bar, convergence, coordination, coordination_panel, coordination_size, curve_labels,
    curve_lines, curve_points, curve_values, curve_x_ticks, dots, extent_of, greatest_of, grid_lines,
    heat_cells, heat_labels, heat_x_ticks, heat_y_ticks, heatmap, hex_color, largest, least_of,
    legend_entries, members, norm_of, panel_shapes, panel_x, panel_y, path_of, path_shapes, point_of,
    run_curves, sample_of, spec_tenths, spec_units, tick_count, ColorMap, Curve, Limits, LogNorm, Panel,
    ShapeModel,
};
use crate::scalar::{Scalar, Widens};
use crate::tensor::{Arr2, Arr3};
use crate::text::numeral;
use vstd::prelude::*;
use vstd::string::*;

verus! {

/// The order ranks numbers between the two infinities, and the larger and the smaller of two
/// numbers are one of them.
#[verifier::opaque]
pub open spec fn ordered_line<S: Scalar>() -> bool {
    &&& !S::spec_zero().spec_is_nan()
    &&& !S::spec_infinity().spec_is_nan()
    &&& !S::spec_neg_infinity().spec_is_nan()
    &&& forall|a: S, b: S|
        !a.spec_is_nan() && !b.spec_is_nan() && #[trigger] a.spec_less(b) ==> !b.spec_less(a)
    &&& forall|a: S, b: S, c: S|
        !a.spec_is_nan() && !b.spec_is_nan() && !c.spec_is_nan() && #[trigger] a.spec_less(b)
            ==> (#[trigger] a.spec_less(c)) || c.spec_less(b)
    &&& forall|a: S|
        !a.spec_is_nan() ==> !(#[trigger] S::spec_infinity().spec_less(a)) && !a.spec_less(
            S::spec_neg_infinity(),
        )
    &&& forall|a: S, b: S|
        !a.spec_is_nan() && !b.spec_is_nan() ==> {
            let m = #[trigger] a.spec_max(b);
            (m == a || m == b) && !m.spec_less(a) && !m.spec_less(b)
        }
    &&& forall|a: S, b: S|
        !a.spec_is_nan() && !b.spec_is_nan() ==> {
            let m = #[trigger] a.spec_min(b);
            (m == a || m == b) && !a.spec_less(m) && !b.spec_less(m)
        }
}

proof fn above_both<S: Scalar>(m: S, a: S, x: S)
    requires
        ordered_line::<S>(),
        !m.spec_is_nan(),
        !a.spec_is_nan(),
        !x.spec_is_nan(),
        !m.spec_less(a),
        !a.spec_less(x),
    ensures
        !m.spec_less(x),
{
    reveal(ordered_line);
    if m.spec_less(x) {
        assert(m.spec_less(a) || a.spec_less(x));
    }
}

proof fn below_both<S: Scalar>(m: S, a: S, x: S)
    requires
        ordered_line::<S>(),
        !m.spec_is_nan(),
        !a.spec_is_nan(),
        !x.spec_is_nan(),
        !a.spec_less(m),
        !x.spec_less(a),
    ensures
        !x.spec_less(m),
{
    reveal(ordered_line);
    if x.spec_less(m) {
        assert(x.spec_less(a) || a.spec_less(m));
    }
}

proof fn extent_holds<S: Scalar>(values: Seq<S>, n: nat)
    requires
        ordered_line::<S>(),
        n <= values.len(),
        forall|i: int| 0 <= i < n ==> !(#[trigger] values[i]).spec_is_nan(),
    ensures
        ({
            let (least, most) = extent_of(values, n);
            &&& !least.spec_is_nan()
            &&& !most.spec_is_nan()
            &&& forall|i: int|
                0 <= i < n && S::spec_zero().spec_less(#[trigger] values[i]) ==> !values[i].spec_less(least)
            &&& forall|i: int| 0 <= i < n ==> !most.spec_less(#[trigger] values[i])
            &&& least == S::spec_infinity() || exists|i: int|
                0 <= i < n && S::spec_zero().spec_less(#[trigger] values[i]) && least == values[i]
            &&& most == S::spec_neg_infinity() || exists|i: int| 0 <= i < n && most == #[trigger] values[i]
        }),
    decreases n,
{
    if n == 0 {
        reveal(ordered_line);
    } else {
        let m = (n - 1) as nat;
        extent_holds(values, m);
        let (l0, m0) = extent_of(values, m);
        let (l1, m1) = extent_of(values, n);
        let v = values[n - 1];
        let zero = S::spec_zero();
        assert(l1.spec_less(l1) ==> false) by {
            reveal(ordered_line);
        }
        assert(m1.spec_less(m1) ==> false) by {
            reveal(ordered_line);
        }
        assert(!l0.spec_less(l1) && !m1.spec_less(m0)) by {
            reveal(ordered_line);
        }
        assert forall|i: int| 0 <= i < n && zero.spec_less(#[trigger] values[i]) implies !values[i].spec_less(l1) by {
            if i < m {
                below_both(l1, l0, values[i]);
            }
        }
        assert forall|i: int| 0 <= i < n implies !m1.spec_less(#[trigger] values[i]) by {
            if i < m {
                above_both(m1, m0, values[i]);
            }
        }
        if l1 == v && zero.spec_less(v) {
            assert(zero.spec_less(values[n - 1]) && l1 == values[n - 1]);
        }
        if m1 == v {
            assert(m1 == values[n - 1]);
        }
    }
}

/// Where there is a positive value, a scale starts at the least of them; and it ends no lower
/// than the largest value.
pub proof fn scales_span_their_values<S: Scalar>(values: Seq<S>, i: int)
    requires
        ordered_line::<S>(),
        0 <= i < values.len(),
        S::spec_zero().spec_less(values[i]),
        values[i].spec_is_finite(),
        forall|j: int| 0 <= j < values.len() ==> !(#[trigger] values[j]).spec_is_nan(),
        forall|a: S| #[trigger] a.spec_is_finite() ==> a.spec_less(S::spec_infinity()),
        forall|a: S|
            !a.spec_is_nan() && S::spec_zero().spec_less(a) && a != S::spec_infinity()
                ==> #[trigger] a.spec_is_finite(),
        !norm_of(values).vmin.spec_times(S::spec_from_int(10)).spec_is_nan(),
    ensures
        exists|j: int|
            0 <= j < values.len() && S::spec_zero().spec_less(#[trigger] values[j]) && norm_of(values).vmin
                == values[j],
        forall|j: int|
            0 <= j < values.len() && S::spec_zero().spec_less(#[trigger] values[j]) ==> !values[j].spec_less(
                norm_of(values).vmin,
            ),
        forall|j: int| 0 <= j < values.len() ==> !norm_of(values).vmax.spec_less(#[trigger] values[j]),
{
    extent_holds(values, values.len());
    let norm = norm_of(values);
    let (least, most) = extent_of(values, values.len());
    assert(least != S::spec_infinity()) by {
        assert(values[i].spec_less(S::spec_infinity()));
        assert(!values[i].spec_less(least));
    }
    assert(least.spec_is_finite());
    assert(!norm.vmax.spec_less(most) && !norm.vmax.spec_is_nan()) by {
        reveal(ordered_line);
    }
    assert forall|j: int| 0 <= j < values.len() implies !norm.vmax.spec_less(#[trigger] values[j]) by {
        above_both(norm.vmax, most, values[j]);
    }
}

/// The maximum of a row is one of its members, and none is above it.
pub proof fn row_maxima_are_largest<S: Scalar>(x: Seq<S>, n: nat)
    requires
        ordered_line::<S>(),
        n <= x.len(),
        forall|i: int| 0 <= i < n ==> !(#[trigger] x[i]).spec_is_nan(),
    ensures
        !largest(x, n).spec_is_nan(),
        forall|i: int| 0 <= i < n ==> !largest(x, n).spec_less(#[trigger] x[i]),
        largest(x, n) == S::spec_neg_infinity() || exists|i: int| 0 <= i < n && largest(x, n) == #[trigger] x[i],
    decreases n,
{
    if n == 0 {
        reveal(ordered_line);
    } else {
        let m = (n - 1) as nat;
        row_maxima_are_largest(x, m);
        let before = largest(x, m);
        let now = largest(x, n);
        assert((now == before || now == x[n - 1]) && !now.spec_less(before) && !now.spec_less(x[n - 1])) by {
            reveal(ordered_line);
        }
        assert forall|i: int| 0 <= i < n implies !now.spec_less(#[trigger] x[i]) by {
            if i < m {
                above_both(now, before, x[i]);
            }
        }
    }
}

/// No coordinate of the first `m` points is below the least or above the greatest.
pub proof fn frames_hold_their_points<S: Scalar>(x: Arr3<S>, z: Arr3<S>, c: int, m: nat)
    requires
        ordered_line::<S>(),
        forall|i: int| 0 <= i < m ==> !(#[trigger] point_of(x, z, i)[c]).spec_is_nan(),
    ensures
        !least_of(x, z, c, m).spec_is_nan(),
        !greatest_of(x, z, c, m).spec_is_nan(),
        forall|i: int|
            0 <= i < m ==> !(#[trigger] point_of(x, z, i)[c]).spec_less(least_of(x, z, c, m))
                && !greatest_of(x, z, c, m).spec_less(point_of(x, z, i)[c]),
    decreases m,
{
    if m == 0 {
        reveal(ordered_line);
    } else {
        let n = (m - 1) as nat;
        frames_hold_their_points(x, z, c, n);
        let p = point_of(x, z, m - 1)[c];
        let (l0, g0) = (least_of(x, z, c, n), greatest_of(x, z, c, n));
        let (l1, g1) = (least_of(x, z, c, m), greatest_of(x, z, c, m));
        assert(!l1.spec_is_nan() && !g1.spec_is_nan() && !l0.spec_less(l1) && !p.spec_less(l1) && !g1.spec_less(g0)
            && !g1.spec_less(p)) by {
            reveal(ordered_line);
        }
        assert forall|i: int| 0 <= i < m implies !(#[trigger] point_of(x, z, i)[c]).spec_less(l1)
            && !g1.spec_less(point_of(x, z, i)[c]) by {
            if i < n {
                below_both(l1, l0, point_of(x, z, i)[c]);
                above_both(g1, g0, point_of(x, z, i)[c]);
            }
        }
    }
}

/// The points are those of the proposals and, behind them, those of the consensus: every point
/// of either is among them.
pub proof fn points_are_of_both_states<S>(x: Arr3<S>, z: Arr3<S>, k: int, a: int)
    requires
        x.wf(),
        z.has_shape(x.n, x.b, x.d),
        0 <= k < x.n,
        0 <= a < x.b,
    ensures
        ({
            let m = x.n * x.b;
            &&& 0 <= k * x.b + a < m
            &&& point_of(x, z, k * x.b + a) == x.data[k][a]
            &&& point_of(x, z, m + k * x.b + a) == z.data[k][a]
        }),
{
    let b = x.b as int;
    let i = k * b + a;
    let m = x.n * x.b;
    assert(0 <= i < x.n * b && i / b == k && i % b == a) by (nonlinear_arith)
        requires
            0 <= k < x.n,
            0 <= a < b,
            i == k * b + a,
    ;
}

/// A curve tells of its own series: the two primal curves of the primal residuals, the two dual
/// ones of the dual residuals, and the last of the consistency.
pub proof fn curves_tell_of_their_series<S: Scalar>(
    primal: Arr2<S>,
    dual: Arr2<S>,
    cons: Option<Seq<S>>,
    other: Arr2<S>,
    others: Option<Seq<S>>,
)
    ensures
        ({
            let all = run_curves(primal, dual, cons);
            let p = run_curves(primal, other, others);
            let d = run_curves(other, dual, others);
            &&& all[0].label == "primal (mean)"@ && all[1].label == "primal (max)"@
            &&& all[2].label == "dual (mean)"@ && all[3].label == "dual (max)"@
            &&& all[0] == p[0] && all[1] == p[1]
            &&& all[2] == d[2] && all[3] == d[3]
            &&& all[0].values == run_curves(other, primal, others)[2].values
            &&& all[1].values == run_curves(other, primal, others)[3].values
            &&& cons matches Some(c) ==> all.len() == 5 && all[4].label == "consistency RMS"@ && all[4].values == c
            &&& cons is None ==> all.len() == 4
        }),
{
}

/// At every iteration a curve of maxima is not below any agent's residual, and is one of them.
pub proof fn maxima_top_their_agents<S: Scalar>(primal: Arr2<S>, dual: Arr2<S>, cons: Option<Seq<S>>, k: int, a: int)
    requires
        ordered_line::<S>(),
        primal.wf(),
        dual.wf(),
        0 <= k,
        0 <= a,
        forall|i: int, j: int|
            0 <= i < primal.rows && 0 <= j < primal.cols ==> !(#[trigger] primal.at(i, j)).spec_is_nan(),
        forall|i: int, j: int| 0 <= i < dual.rows && 0 <= j < dual.cols ==> !(#[trigger] dual.at(i, j)).spec_is_nan(),
    ensures
        ({
            let all = run_curves(primal, dual, cons);
            &&& k < primal.rows && a < primal.cols ==> !all[1].values[k].spec_less(primal.at(k, a))
            &&& k < dual.rows && a < dual.cols ==> !all[3].values[k].spec_less(dual.at(k, a))
        }),
{
    if k < primal.rows && a < primal.cols {
        assert forall|j: int| 0 <= j < primal.cols implies !(#[trigger] primal.data[k][j]).spec_is_nan() by {
            assert(!primal.at(k, j).spec_is_nan());
        }
        row_maxima_are_largest(primal.data[k], primal.cols);
        assert(primal.at(k, a) == primal.data[k][a]);
    }
    if k < dual.rows && a < dual.cols {
        assert forall|j: int| 0 <= j < dual.cols implies !(#[trigger] dual.data[k][j]).spec_is_nan() by {
            assert(!dual.at(k, j).spec_is_nan());
        }
        row_maxima_are_largest(dual.data[k], dual.cols);
        assert(dual.at(k, a) == dual.data[k][a]);
    }
}

proof fn cells_stay<S: Scalar, W: Scalar>(
    acc: Seq<ShapeModel<W>>,
    panel: Panel<W>,
    data: Arr2<S>,
    norm: LogNorm<S>,
    map: ColorMap,
    i: nat,
    j: int,
)
    requires
        0 <= j < i,
    ensures
        heat_cells(acc, panel, data, norm, map, i).len() == acc.len() + i,
        heat_cells(acc, panel, data, norm, map, i)[acc.len() + j] == heat_cells(
            acc,
            panel,
            data,
            norm,
            map,
            (j + 1) as nat,
        ).last(),
    decreases i,
{
    if j < i - 1 {
        cells_stay(acc, panel, data, norm, map, (i - 1) as nat, j);
    } else {
        cells_extend(acc, panel, data, norm, map, i);
    }
}

/// The cell of an iteration and an agent has the colour of their residual. All cells of an
/// iteration stand in one column, all cells of an agent in one row.
pub proof fn cells_have_the_colour_of_their_residual<S: Scalar, W: Scalar>(
    acc: Seq<ShapeModel<W>>,
    panel: Panel<W>,
    data: Arr2<S>,
    norm: LogNorm<S>,
    map: ColorMap,
    k: int,
    a: int,
    l: int,
    b: int,
)
    requires
        0 <= k < data.rows,
        0 <= a < data.cols,
        0 <= l < data.rows,
        0 <= b < data.cols,
    ensures
        ({
            let s = heat_cells(acc, panel, data, norm, map, data.rows * data.cols);
            let (i, j) = (acc.len() + k * data.cols + a, acc.len() + l * data.cols + b);
            &&& s[i] matches ShapeModel::Rect { x, y, fill, .. } && (s[j] matches ShapeModel::Rect {
                x: x2,
                y: y2,
                fill: fill2,
                ..
            } && {
                &&& fill == hex_color(sample_of(map, norm.place(data.at(k, a))))
                &&& data.at(k, a) == data.at(l, b) ==> fill == fill2
                &&& k == l ==> x == x2
                &&& a == b ==> y == y2
            })
        }),
{
    let n = data.cols as int;
    let total = data.rows * data.cols;
    let i = k * n + a;
    let j = l * n + b;
    assert(0 <= i < data.rows * n && i / n == k && i % n == a) by (nonlinear_arith)
        requires
            0 <= k < data.rows,
            0 <= a < n,
            i == k * n + a,
    ;
    assert(0 <= j < data.rows * n && j / n == l && j % n == b) by (nonlinear_arith)
        requires
            0 <= l < data.rows,
            0 <= b < n,
            j == l * n + b,
    ;
    cells_stay(acc, panel, data, norm, map, total, i);
    cells_stay(acc, panel, data, norm, map, total, j);
}

proof fn dots_extend<W: Scalar>(acc: Seq<ShapeModel<W>>, points: Seq<(W, W)>, color: Seq<char>, t: nat)
    ensures
        dots(acc, points, color, t).len() == acc.len() + t,
        forall|i: int| 0 <= i < acc.len() ==> #[trigger] dots(acc, points, color, t)[i] == acc[i],
    decreases t,
{
    if t > 0 {
        dots_extend(acc, points, color, (t - 1) as nat);
    }
}

/// How many shapes a path of `n` points takes.
pub open spec fn path_size(n: nat) -> nat {
    if n <= 40 {
        n + 1
    } else {
        1
    }
}

proof fn paths_extend<W: Scalar>(acc: Seq<ShapeModel<W>>, points: Seq<(W, W)>, color: Seq<char>)
    ensures
        path_shapes(acc, points, color).len() == acc.len() + path_size(points.len()),
        forall|i: int| 0 <= i < acc.len() ==> #[trigger] path_shapes(acc, points, color)[i] == acc[i],
        path_shapes(acc, points, color)[acc.len() as int] matches ShapeModel::Polyline { points: p, stroke, .. } && p
            == points && stroke == color,
{
    let s = acc.push(
        ShapeModel::Polyline { points, stroke: color, width: spec_tenths(9), dash: ""@, opacity: W::spec_one() },
    );
    dots_extend(s, points, color, points.len());
    assert(s[acc.len() as int] is Polyline);
    if points.len() <= 40 {
        assert(dots(s, points, color, points.len())[acc.len() as int] == s[acc.len() as int]);
        assert forall|i: int| 0 <= i < acc.len() implies #[trigger] path_shapes(acc, points, color)[i] == acc[i] by {
            assert(dots(s, points, color, points.len())[i] == s[i]);
        }
    }
}

/// Two states take an agent along the same path.
pub open spec fn same_path<S>(x: Arr3<S>, x2: Arr3<S>, a: int) -> bool {
    &&& x.n == x2.n
    &&& forall|k: int, c: int| 0 <= k < x.n && 0 <= c < 2 ==> #[trigger] x.at(k, a, c) == x2.at(k, a, c)
}

proof fn paths_agree<S: Widens<W>, W: Scalar>(px: W, py: W, limits: Limits<S>, x: Arr3<S>, x2: Arr3<S>, a: int)
    requires
        same_path(x, x2, a),
    ensures
        path_of::<S, W>(px, py, limits, x, a) == path_of::<S, W>(px, py, limits, x2, a),
{
    let p = path_of::<S, W>(px, py, limits, x, a);
    let q = path_of::<S, W>(px, py, limits, x2, a);
    assert forall|k: int| 0 <= k < x.n implies #[trigger] p[k] == q[k] by {
        assert(x.at(k, a, 0) == x2.at(k, a, 0));
        assert(x.at(k, a, 1) == x2.at(k, a, 1));
    }
    assert(p =~= q);
}

/// In the panel of an agent the blue path is that of its proposals and the red one that of its
/// consensus: each sees its own state and this agent alone, within the shared limits.
pub proof fn paths_follow_their_states<S: Widens<W>, W: Scalar>(
    acc: Seq<ShapeModel<W>>,
    x: Arr3<S>,
    z: Arr3<S>,
    x2: Arr3<S>,
    z2: Arr3<S>,
    limits: Limits<S>,
    titled: bool,
    slot: (usize, usize),
    a: int,
)
    requires
        x.n == x2.n,
        z.n == z2.n,
    ensures
        ({
            let s = panel_shapes::<S, W>(acc, x, z, limits, titled, slot, a);
            let t = panel_shapes::<S, W>(acc, x2, z2, limits, titled, slot, a);
            let i = acc.len() + 2;
            let j = i + path_size(x.n);
            &&& s[i as int] matches ShapeModel::Polyline { points, stroke, .. } && points.len() == x.n && stroke
                == "#1d4ed8"@ && (same_path(x, x2, a) ==> (t[i as int] matches ShapeModel::Polyline { points: q, .. }
                && q == points))
            &&& s[j as int] matches ShapeModel::Polyline { points, stroke, .. } && points.len() == z.n && stroke
                == "#dc2626"@ && (same_path(z, z2, a) ==> (t[j as int] matches ShapeModel::Polyline { points: q, .. }
                && q == points))
        }),
{
    panel_has_its_paths::<S, W>(acc, x, z, limits, titled, slot, a);
    panel_has_its_paths::<S, W>(acc, x2, z2, limits, titled, slot, a);
    let px = panel_x::<W>(slot.1 as int);
    let py = panel_y::<W>(titled, slot.0 as int);
    if same_path(x, x2, a) {
        paths_agree::<S, W>(px, py, limits, x, x2, a);
    }
    if same_path(z, z2, a) {
        paths_agree::<S, W>(px, py, limits, z, z2, a);
    }
}

proof fn panel_has_its_paths<S: Widens<W>, W: Scalar>(
    acc: Seq<ShapeModel<W>>,
    x: Arr3<S>,
    z: Arr3<S>,
    limits: Limits<S>,
    titled: bool,
    slot: (usize, usize),
    a: int,
)
    ensures
        ({
            let s = panel_shapes::<S, W>(acc, x, z, limits, titled, slot, a);
            let px = panel_x::<W>(slot.1 as int);
            let py = panel_y::<W>(titled, slot.0 as int);
            let i = acc.len() + 2;
            let j = i + path_size(x.n);
            &&& s[i as int] matches ShapeModel::Polyline { points, stroke, .. } && points == path_of::<S, W>(
                px,
                py,
                limits,
                x,
                a,
            ) && stroke == "#1d4ed8"@
            &&& s[j as int] matches ShapeModel::Polyline { points, stroke, .. } && points == path_of::<S, W>(
                px,
                py,
                limits,
                z,
                a,
            ) && stroke == "#dc2626"@
        }),
{
    let px = panel_x::<W>(slot.1 as int);
    let py = panel_y::<W>(titled, slot.0 as int);
    let s0 = acc.push(
        ShapeModel::Frame { x: px, y: py, w: spec_units(62), h: spec_units(62), stroke: "#d1d5db"@ },
    ).push(
        ShapeModel::Text {
            x: px.spec_plus(spec_units::<W>(62).spec_over(spec_units(2))),
            y: py.spec_minus(spec_units(3)),
            size: spec_tenths(65),
            anchor: "middle"@,
            fill: "#6b7280"@,
            rotate: W::spec_zero(),
            text: "agent "@ + numeral(a as nat),
        },
    );
    let xp = path_of::<S, W>(px, py, limits, x, a);
    let zp = path_of::<S, W>(px, py, limits, z, a);
    paths_extend(s0, xp, "#1d4ed8"@);
    let s1 = path_shapes(s0, xp, "#1d4ed8"@);
    paths_extend(s1, zp, "#dc2626"@);
    let s2 = path_shapes(s1, zp, "#dc2626"@);
    let i = (acc.len() + 2) as int;
    assert(s2[i] == s1[i]);
    let s = panel_shapes::<S, W>(acc, x, z, limits, titled, slot, a);
    assert(s[i] == s2[i]);
    let j = i + path_size(x.n);
    assert(s[j] == s2[j]);
}

/// The shapes begin with these.
pub open spec fn begins<W>(s: Seq<ShapeModel<W>>, acc: Seq<ShapeModel<W>>) -> bool {
    &&& acc.len() <= s.len()
    &&& forall|i: int| 0 <= i < acc.len() ==> #[trigger] s[i] == acc[i]
}

proof fn begins_on<W>(a: Seq<ShapeModel<W>>, b: Seq<ShapeModel<W>>, c: Seq<ShapeModel<W>>)
    requires
        begins(a, b),
        begins(b, c),
    ensures
        begins(a, c),
{
    assert forall|i: int| 0 <= i < c.len() implies #[trigger] a[i] == c[i] by {
        assert(b[i] == c[i]);
    }
}

proof fn x_ticks_extend<W: Scalar>(acc: Seq<ShapeModel<W>>, panel: Panel<W>, k: int, t: nat)
    ensures
        begins(heat_x_ticks(acc, panel, k, t), acc),
    decreases t,
{
    if t > 0 {
        x_ticks_extend(acc, panel, k, (t - 1) as nat);
    }
}

proof fn y_ticks_extend<W: Scalar>(acc: Seq<ShapeModel<W>>, panel: Panel<W>, n: int, t: nat)
    ensures
        begins(heat_y_ticks(acc, panel, n, t), acc),
    decreases t,
{
    if t > 0 {
        y_ticks_extend(acc, panel, n, (t - 1) as nat);
    }
}

proof fn bar_extend<S: Scalar, W: Scalar>(acc: Seq<ShapeModel<W>>, panel: Panel<W>, map: ColorMap, t: nat)
    ensures
        begins(color_bar::<S, W>(acc, panel, map, t), acc),
    decreases t,
{
    if t > 0 {
        bar_extend::<S, W>(acc, panel, map, (t - 1) as nat);
    }
}

proof fn decades_extend<S: Widens<W>, W: Scalar>(acc: Seq<ShapeModel<W>>, panel: Panel<W>, ticks: Seq<(S, int)>, t: nat)
    ensures
        begins(bar_ticks(acc, panel, ticks, t), acc),
    decreases t,
{
    if t > 0 {
        decades_extend::<S, W>(acc, panel, ticks, (t - 1) as nat);
    }
}

proof fn grid_extend<S: Widens<W>, W: Scalar>(acc: Seq<ShapeModel<W>>, panel: Panel<W>, ticks: Seq<(S, int)>, t: nat)
    ensures
        begins(grid_lines(acc, panel, ticks, t), acc),
    decreases t,
{
    if t > 0 {
        grid_extend::<S, W>(acc, panel, ticks, (t - 1) as nat);
    }
}

proof fn curve_ticks_extend<W: Scalar>(acc: Seq<ShapeModel<W>>, panel: Panel<W>, k: int, t: nat)
    ensures
        begins(curve_x_ticks(acc, panel, k, t), acc),
    decreases t,
{
    if t > 0 {
        curve_ticks_extend(acc, panel, k, (t - 1) as nat);
    }
}

proof fn legend_extend<S: Scalar, W: Scalar>(acc: Seq<ShapeModel<W>>, panel: Panel<W>, curves: Seq<Curve<S>>, t: nat)
    ensures
        begins(legend_entries(acc, panel, curves, t), acc),
    decreases t,
{
    if t > 0 {
        legend_extend::<S, W>(acc, panel, curves, (t - 1) as nat);
    }
}

proof fn lines_extend<S: Widens<W>, W: Scalar>(
    acc: Seq<ShapeModel<W>>,
    panel: Panel<W>,
    norm: LogNorm<S>,
    k: int,
    curves: Seq<Curve<S>>,
    t: nat,
)
    ensures
        begins(curve_lines(acc, panel, norm, k, curves, t), acc),
    decreases t,
{
    if t > 0 {
        lines_extend(acc, panel, norm, k, curves, (t - 1) as nat);
    }
}

/// The shapes hold the line of a curve, in its colour and dash.
pub open spec fn holds_curve<S: Widens<W>, W: Scalar>(
    s: Seq<ShapeModel<W>>,
    panel: Panel<W>,
    norm: LogNorm<S>,
    k: int,
    c: Curve<S>,
) -> bool {
    exists|i: int|
        0 <= i < s.len() && (#[trigger] s[i] matches ShapeModel::Polyline { points, stroke, dash, .. } && points
            == curve_points(panel, norm, k, c.values) && stroke == c.color && dash == c.dash)
}

proof fn held_curves_stay<S: Widens<W>, W: Scalar>(
    s: Seq<ShapeModel<W>>,
    u: Seq<ShapeModel<W>>,
    panel: Panel<W>,
    norm: LogNorm<S>,
    k: int,
    c: Curve<S>,
)
    requires
        begins(u, s),
        holds_curve(s, panel, norm, k, c),
    ensures
        holds_curve(u, panel, norm, k, c),
{
    let i = choose|i: int|
        0 <= i < s.len() && (#[trigger] s[i] matches ShapeModel::Polyline { points, stroke, dash, .. } && points
            == curve_points(panel, norm, k, c.values) && stroke == c.color && dash == c.dash);
    assert(u[i] == s[i]);
}

proof fn lines_hold_their_curves<S: Widens<W>, W: Scalar>(
    acc: Seq<ShapeModel<W>>,
    panel: Panel<W>,
    norm: LogNorm<S>,
    k: int,
    curves: Seq<Curve<S>>,
    t: nat,
    c: int,
)
    requires
        0 <= c < t,
        curves[c].values.len() > 0,
    ensures
        holds_curve(curve_lines(acc, panel, norm, k, curves, t), panel, norm, k, curves[c]),
    decreases t,
{
    let before = curve_lines(acc, panel, norm, k, curves, (t - 1) as nat);
    let now = curve_lines(acc, panel, norm, k, curves, t);
    if c < t - 1 {
        lines_hold_their_curves(acc, panel, norm, k, curves, (t - 1) as nat, c);
        held_curves_stay(before, now, panel, norm, k, curves[c]);
    } else {
        assert(now[before.len() as int] is Polyline);
    }
}

proof fn heatmap_begins<S: Widens<W>, W: Scalar>(
    acc: Seq<ShapeModel<W>>,
    panel: Panel<W>,
    data: Arr2<S>,
    title: Seq<char>,
    map: ColorMap,
)
    ensures
        ({
            let s = heatmap(acc, panel, data, title, map);
            let n = data.rows * data.cols;
            let cells = heat_cells(acc, panel, data, norm_of(members(data, data.rows)), map, n);
            &&& begins(s, acc)
            &&& begins(s, cells)
            &&& cells.len() == acc.len() + n
            &&& s.len() > acc.len() + n + 1
            &&& s[(acc.len() + n + 1) as int] matches ShapeModel::Text { text, .. } && text == title
        }),
{
    let k = data.rows as int;
    let n = data.cols as int;
    let norm = norm_of(members(data, data.rows));
    let total = (k * n) as nat;
    cells_extend(acc, panel, data, norm, map, total);
    let s0 = heat_cells(acc, panel, data, norm, map, total);
    let s1 = heat_labels(s0, panel, title);
    assert(begins(s1, s0));
    let s2 = heat_x_ticks(s1, panel, k, tick_count(k) as nat);
    x_ticks_extend(s1, panel, k, tick_count(k) as nat);
    let s3 = heat_y_ticks(s2, panel, n, tick_count(n) as nat);
    y_ticks_extend(s2, panel, n, tick_count(n) as nat);
    let s4 = color_bar::<S, W>(s3, panel, map, 64);
    bar_extend::<S, W>(s3, panel, map, 64);
    let s5 = s4.push(
        ShapeModel::Frame {
            x: panel.x0.spec_plus(panel.pw).spec_plus(spec_units(8)),
            y: panel.y0,
            w: spec_units(12),
            h: panel.ph,
            stroke: "#374151"@,
        },
    );
    assert(begins(s5, s4));
    let s6 = bar_ticks(s5, panel, norm.ticks(), norm.ticks().len());
    decades_extend::<S, W>(s5, panel, norm.ticks(), norm.ticks().len());
    assert(s6 == heatmap(acc, panel, data, title, map));
    begins_on(s6, s5, s4);
    begins_on(s6, s4, s3);
    begins_on(s6, s3, s2);
    begins_on(s6, s2, s1);
    begins_on(s6, s1, s0);
    begins_on(s6, s0, acc);
    let at = acc.len() + data.rows * data.cols + 1;
    assert(s1[at as int] is Text);
    assert(s6[at as int] == s1[at as int]);
}

proof fn cells_extend<S: Scalar, W: Scalar>(
    acc: Seq<ShapeModel<W>>,
    panel: Panel<W>,
    data: Arr2<S>,
    norm: LogNorm<S>,
    map: ColorMap,
    i: nat,
)
    ensures
        begins(heat_cells(acc, panel, data, norm, map, i), acc),
        heat_cells(acc, panel, data, norm, map, i).len() == acc.len() + i,
    decreases i,
{
    if i > 0 {
        cells_extend(acc, panel, data, norm, map, (i - 1) as nat);
    }
}

proof fn convergence_holds<S: Widens<W>, W: Scalar>(
    acc: Seq<ShapeModel<W>>,
    panel: Panel<W>,
    primal: Arr2<S>,
    dual: Arr2<S>,
    cons: Option<Seq<S>>,
    c: int,
)
    requires
        0 <= c < run_curves(primal, dual, cons).len(),
        run_curves(primal, dual, cons)[c].values.len() > 0,
    ensures
        ({
            let curves = run_curves(primal, dual, cons);
            let norm = norm_of(curve_values(curves, curves.len()));
            let s = convergence(acc, panel, primal, dual, cons);
            &&& begins(s, acc)
            &&& holds_curve(s, panel, norm, primal.rows as int, curves[c])
        }),
{
    let k = primal.rows as int;
    let curves = run_curves(primal, dual, cons);
    let norm = norm_of(curve_values(curves, curves.len()));
    let s1 = grid_lines(acc, panel, norm.ticks(), norm.ticks().len());
    grid_extend::<S, W>(acc, panel, norm.ticks(), norm.ticks().len());
    let s2 = curve_lines(s1, panel, norm, k, curves, curves.len());
    lines_extend(s1, panel, norm, k, curves, curves.len());
    lines_hold_their_curves(s1, panel, norm, k, curves, curves.len(), c);
    let s3 = curve_labels(s2, panel);
    assert(begins(s3, s2));
    let s4 = curve_x_ticks(s3, panel, k, tick_count(k) as nat);
    curve_ticks_extend(s3, panel, k, tick_count(k) as nat);
    let s5 = legend_entries(s4, panel, curves, curves.len());
    legend_extend::<S, W>(s4, panel, curves, curves.len());
    begins_on(s5, s4, s3);
    begins_on(s5, s3, s2);
    begins_on(s5, s2, s1);
    begins_on(s5, s1, acc);
    held_curves_stay(s2, s5, panel, norm, k, curves[c]);
}

/// The coordination figure shows the primal residuals first, under their title, whatever the
/// dual ones are; and its last panel holds the line of every curve of the run.
pub proof fn figures_show_their_series<S: Widens<W>, W: Scalar>(
    primal: Arr2<S>,
    dual: Arr2<S>,
    other: Arr2<S>,
    cons: Option<Seq<S>>,
    suptitle: Option<Seq<char>>,
    c: int,
)
    requires
        primal.rows > 0,
        dual.rows > 0,
        other.rows > 0,
        0 <= c < 4,
    ensures
        ({
            let s = coordination::<S, W>(primal, dual, cons, suptitle);
            let t = coordination::<S, W>(primal, other, cons, suptitle);
            let first = (if suptitle is Some {
                2nat
            } else {
                1
            }) + primal.rows * primal.cols;
            let panel = coordination_panel::<W>(2, suptitle is Some);
            let curves = run_curves(primal, dual, cons);
            let norm = norm_of(curve_values(curves, curves.len()));
            &&& first + 1 < s.len()
            &&& forall|i: int| 0 <= i < first ==> #[trigger] s[i] == t[i]
            &&& s[(first + 1) as int] matches ShapeModel::Text { text, .. } && text == "primal residual  ||x_i - z_i||"@
            &&& holds_curve(s, panel, norm, primal.rows as int, curves[c])
        }),
{
    figure_holds::<S, W>(primal, dual, cons, suptitle, c);
    figure_holds::<S, W>(primal, other, cons, suptitle, c);
    let s = coordination::<S, W>(primal, dual, cons, suptitle);
    let t = coordination::<S, W>(primal, other, cons, suptitle);
    let a = primal_part::<S, W>(primal, suptitle);
    assert forall|i: int| 0 <= i < a.len() implies #[trigger] s[i] == t[i] by {
        assert(s[i] == a[i] && t[i] == a[i]);
    }
}

/// What is drawn of the primal residuals.
spec fn primal_part<S: Widens<W>, W: Scalar>(primal: Arr2<S>, suptitle: Option<Seq<char>>) -> Seq<ShapeModel<W>> {
    let titled = suptitle is Some;
    let (w, h) = coordination_size::<W>(titled);
    let s = seq![
        ShapeModel::Rect { x: W::spec_zero(), y: W::spec_zero(), w, h, fill: "white"@ },
    ];
    let s = match suptitle {
        Some(t) => s.push(
            ShapeModel::Text {
                x: w.spec_over(spec_units(2)),
                y: spec_units(22),
                size: spec_units(14),
                anchor: "middle"@,
                fill: "#111827"@,
                rotate: W::spec_zero(),
                text: t,
            },
        ),
        None => s,
    };
    heatmap(s, coordination_panel(0, titled), primal, "primal residual  ||x_i - z_i||"@, ColorMap::Viridis)
}

proof fn figure_holds<S: Widens<W>, W: Scalar>(
    primal: Arr2<S>,
    dual: Arr2<S>,
    cons: Option<Seq<S>>,
    suptitle: Option<Seq<char>>,
    c: int,
)
    requires
        primal.rows > 0,
        dual.rows > 0,
        0 <= c < 4,
    ensures
        ({
            let s = coordination::<S, W>(primal, dual, cons, suptitle);
            let a = primal_part::<S, W>(primal, suptitle);
            let first = (if suptitle is Some {
                2nat
            } else {
                1
            }) + primal.rows * primal.cols;
            let panel = coordination_panel::<W>(2, suptitle is Some);
            let curves = run_curves(primal, dual, cons);
            let norm = norm_of(curve_values(curves, curves.len()));
            &&& begins(s, a)
            &&& first + 1 < a.len()
            &&& s[(first + 1) as int] matches ShapeModel::Text { text, .. } && text == "primal residual  ||x_i - z_i||"@
            &&& holds_curve(s, panel, norm, primal.rows as int, curves[c])
        }),
{
    let titled = suptitle is Some;
    let (w, h) = coordination_size::<W>(titled);
    let s0 = seq![
        ShapeModel::Rect { x: W::spec_zero(), y: W::spec_zero(), w, h, fill: "white"@ },
    ];
    let s1 = match suptitle {
        Some(t) => s0.push(
            ShapeModel::Text {
                x: w.spec_over(spec_units(2)),
                y: spec_units(22),
                size: spec_units(14),
                anchor: "middle"@,
                fill: "#111827"@,
                rotate: W::spec_zero(),
                text: t,
            },
        ),
        None => s0,
    };
    let one = "primal residual  ||x_i - z_i||"@;
    let two = "dual residual  rho ||z_i - z_prev_i||"@;
    heatmap_begins::<S, W>(s1, coordination_panel(0, titled), primal, one, ColorMap::Viridis);
    let a = primal_part::<S, W>(primal, suptitle);
    heatmap_begins::<S, W>(a, coordination_panel(1, titled), dual, two, ColorMap::Magma);
    let b = heatmap(a, coordination_panel(1, titled), dual, two, ColorMap::Magma);
    convergence_holds::<S, W>(b, coordination_panel(2, titled), primal, dual, cons, c);
    let s = coordination::<S, W>(primal, dual, cons, suptitle);
    assert(s == convergence(b, coordination_panel(2, titled), primal, dual, cons));
    begins_on(s, b, a);
    let first = s1.len() + primal.rows * primal.cols;
    assert(s[(first + 1) as int] == a[(first + 1) as int]);
}

} // verus!
