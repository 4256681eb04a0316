//! In which order sums are formed, whatever the arithmetic: one long sum goes on where a shorter
//! one stopped.
use crate::algebra::batch_dots;
use crate::plain::{chained, chained_length};
use crate::reduce::batch_dot;
use crate::scalar::{mul_acc, sum_acc, Scalar};
use crate::tensor::Arr3;
use vstd::prelude::*;

verus! {

proof fn products_of_prefix<S: Scalar>(acc: S, x: Seq<S>, y: Seq<S>, u: Seq<S>, v: Seq<S>, k: nat)
    requires
        k <= x.len(),
        k <= y.len(),
    ensures
        mul_acc(acc, x + u, y + v, k) == mul_acc(acc, x, y, k),
    decreases k,
{
    if k > 0 {
        products_of_prefix(acc, x, y, u, v, (k - 1) as nat);
    }
}

/// A sum of products over two lists, one behind the other, goes on over the second where it
/// stopped after the first.
pub proof fn products_go_on<S: Scalar>(acc: S, x: Seq<S>, y: Seq<S>, u: Seq<S>, v: Seq<S>, k: nat)
    requires
        x.len() == y.len(),
        k <= u.len(),
        k <= v.len(),
    ensures
        mul_acc(acc, x + u, y + v, x.len() + k) == mul_acc(mul_acc(acc, x, y, x.len()), u, v, k),
    decreases k,
{
    if k > 0 {
        products_go_on(acc, x, y, u, v, (k - 1) as nat);
        assert((x + u)[x.len() + k - 1] == u[k - 1]);
        assert((y + v)[x.len() + k - 1] == v[k - 1]);
        assert((x.len() + k - 1) as nat == x.len() + (k - 1) as nat);
    } else {
        products_of_prefix(acc, x, y, u, v, x.len());
    }
}

proof fn sum_of_prefix<S: Scalar>(acc: S, x: Seq<S>, u: Seq<S>, k: nat)
    requires
        k <= x.len(),
    ensures
        sum_acc(acc, x + u, k) == sum_acc(acc, x, k),
    decreases k,
{
    if k > 0 {
        sum_of_prefix(acc, x, u, (k - 1) as nat);
    }
}

/// A sum over two lists, one behind the other, goes on over the second where it stopped after
/// the first.
pub proof fn sums_go_on<S: Scalar>(acc: S, x: Seq<S>, u: Seq<S>, k: nat)
    requires
        k <= u.len(),
    ensures
        sum_acc(acc, x + u, x.len() + k) == sum_acc(sum_acc(acc, x, x.len()), u, k),
    decreases k,
{
    if k > 0 {
        sums_go_on(acc, x, u, (k - 1) as nat);
        assert((x + u)[x.len() + k - 1] == u[k - 1]);
        assert((x.len() + k - 1) as nat == x.len() + (k - 1) as nat);
    } else {
        sum_of_prefix(acc, x, u, x.len());
    }
}

/// The members of batch element `b`, agent after agent.
pub open spec fn element_row<S>(a: Arr3<S>, b: int) -> Seq<Seq<S>> {
    Seq::new(a.n, |i: int| a.data[i][b])
}

/// The inner product of a batch element is formed over its members in one row, agent after
/// agent.
pub proof fn inner_products_go_agent_by_agent<S: Scalar>(a: Arr3<S>, c: Arr3<S>, b: int, n: nat)
    requires
        a.wf(),
        c.same_shape(a),
        0 <= b < a.b,
        n <= a.n,
    ensures
        batch_dot(a, c, b, n) == mul_acc(
            S::spec_zero(),
            chained(element_row(a, b), n),
            chained(element_row(c, b), n),
            n * a.d,
        ),
        n == a.n ==> batch_dots(a, c)[b] == batch_dot(a, c, b, n),
    decreases n,
{
    let (p, q) = (element_row(a, b), element_row(c, b));
    if n > 0 {
        let m = (n - 1) as nat;
        inner_products_go_agent_by_agent(a, c, b, m);
        assert forall|i: int| 0 <= i < m implies (#[trigger] p[i]).len() == a.d by {
            assert(a.data[i][b].len() == a.d);
        }
        assert forall|i: int| 0 <= i < m implies (#[trigger] q[i]).len() == a.d by {
            assert(c.data[i][b].len() == c.d);
        }
        chained_length(p, m, a.d);
        chained_length(q, m, a.d);
        assert(a.data[n - 1][b].len() == a.d && c.data[n - 1][b].len() == a.d);
        products_go_on(S::spec_zero(), chained(p, m), chained(q, m), p[n - 1], q[n - 1], a.d);
        assert(m * a.d + a.d == n * a.d) by (nonlinear_arith)
            requires
                m == n - 1,
        ;
    } else {
        assert(0 * a.d == 0) by (nonlinear_arith);
    }
}

} // verus!
