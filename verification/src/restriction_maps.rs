//! Assembly of the base restriction maps.
//!
//! The learned parameters are K base maps, one for each direction, stacked in the order
//! of [`direction_names`]. Assembly gathers them per edge by the graph's slot tables;
//! the v-endpoint uses the slot of the reversed direction.
use crate::geometry::{EdgeMaps, RestrictionMaps};
use crate::graph::{direction_slot, AgentGraph};
use crate::scalar::Scalar;
use crate::tensor::Matrix;
use vstd::prelude::*;
use vstd::string::*;

verus! {

/// The names of the compass directions, in slot order.
pub open spec fn compass(num_directions: usize) -> Seq<Seq<char>> {
    if num_directions == 4 {
        seq!["N"@, "E"@, "S"@, "W"@]
    } else {
        seq!["N"@, "NE"@, "E"@, "SE"@, "S"@, "SW"@, "W"@, "NW"@]
    }
}

/// Ordered direction names; these are also the suffixes of the stored map names.
pub fn direction_names(num_directions: usize) -> (r: Vec<&'static str>)
    requires
        num_directions == 4 || num_directions == 8,
    ensures
        r@.len() == num_directions,
        r@.map_values(|name: &str| name@) == compass(num_directions),
{
    let names = if num_directions == 4 {
        vec!["N", "E", "S", "W"]
    } else {
        vec!["N", "NE", "E", "SE", "S", "SW", "W", "NW"]
    };
    assert(names@.map_values(|name: &str| name@) =~= compass(num_directions));
    names
}

/// Every edge has a slot at both ends, and the stack has a map for each of these slots.
pub open spec fn slots_covered<S: Scalar>(graph: &AgentGraph<S>, stack: nat) -> bool {
    &&& graph.dir_uv@.len() == graph.edges@.len()
    &&& forall|e: int| 0 <= e < graph.edges@.len() ==> (#[trigger] graph.dir_uv@[e]) < stack
    &&& forall|e: int| 0 <= e < graph.edges@.len() ==> (#[trigger] graph.dir_vu@[e]) < stack
}

/// Gathers the stacked base maps (K of `[d_e, d_v]`) per edge by the graph's slot tables.
pub fn build_directional_restriction_maps<S: Scalar>(
    r_stack: &Vec<Matrix<S>>,
    graph: &AgentGraph<S>,
    d_e: usize,
    d_v: usize,
) -> (r: RestrictionMaps<S>)
    requires
        graph.wf(),
        slots_covered(graph, r_stack@.len()),
        forall|k: int|
            0 <= k < r_stack@.len() ==> (#[trigger] r_stack@[k])@.has_shape(d_e as nat, d_v as nat),
        graph.edges@.len() * d_e <= usize::MAX,
    ensures
        r.wf(),
        r.d_e == d_e,
        r.d_v == d_v,
        r.maps@.len() == graph.edges@.len(),
        forall|e: int|
            0 <= e < graph.edges@.len() ==> (#[trigger] r.maps@[e]).u@ == r_stack@[graph.dir_uv@[e] as int]@
                && r.maps@[e].v@ == r_stack@[graph.dir_vu@[e] as int]@,
{
    let mut maps: Vec<EdgeMaps<S>> = Vec::new();
    for e in 0..graph.edges.len()
        invariant
            graph.wf(),
            slots_covered(graph, r_stack@.len()),
            maps@.len() == e,
            forall|i: int|
                0 <= i < e ==> (#[trigger] maps@[i]).u@ == r_stack@[graph.dir_uv@[i] as int]@ && maps@[i].v@
                    == r_stack@[graph.dir_vu@[i] as int]@,
    {
        let u = r_stack[graph.dir_uv[e] as usize].clone();
        let v = r_stack[graph.dir_vu[e] as usize].clone();
        maps.push(EdgeMaps { u, v });
    }
    RestrictionMaps { d_e, d_v, maps }
}

/// The letters of the direction names.
proof fn compass_letters()
    ensures
        "N"@ == seq!['N'],
        "E"@ == seq!['E'],
        "S"@ == seq!['S'],
        "W"@ == seq!['W'],
        "NE"@ == seq!['N', 'E'],
        "SE"@ == seq!['S', 'E'],
        "SW"@ == seq!['S', 'W'],
        "NW"@ == seq!['N', 'W'],
{
    reveal_strlit("N");
    reveal_strlit("E");
    reveal_strlit("S");
    reveal_strlit("W");
    reveal_strlit("NE");
    reveal_strlit("SE");
    reveal_strlit("SW");
    reveal_strlit("NW");
    assert("N"@ =~= seq!['N']);
    assert("E"@ =~= seq!['E']);
    assert("S"@ =~= seq!['S']);
    assert("W"@ =~= seq!['W']);
    assert("NE"@ =~= seq!['N', 'E']);
    assert("SE"@ =~= seq!['S', 'E']);
    assert("SW"@ =~= seq!['S', 'W']);
    assert("NW"@ =~= seq!['N', 'W']);
}

proof fn holds_one(a: char, c: char)
    ensures
        seq![a].contains(c) == (c == a),
{
    assert(seq![a][0] == a);
}

proof fn holds_two(a: char, b: char, c: char)
    ensures
        seq![a, b].contains(c) == (c == a || c == b),
{
    assert(seq![a, b][0] == a);
    assert(seq![a, b][1] == b);
}

proof fn letters_in_names(c: char)
    ensures
        "N"@.contains(c) == (c == 'N'),
        "E"@.contains(c) == (c == 'E'),
        "S"@.contains(c) == (c == 'S'),
        "W"@.contains(c) == (c == 'W'),
        "NE"@.contains(c) == (c == 'N' || c == 'E'),
        "SE"@.contains(c) == (c == 'S' || c == 'E'),
        "SW"@.contains(c) == (c == 'S' || c == 'W'),
        "NW"@.contains(c) == (c == 'N' || c == 'W'),
{
    compass_letters();
    holds_one('N', c);
    holds_one('E', c);
    holds_one('S', c);
    holds_one('W', c);
    holds_two('N', 'E', c);
    holds_two('S', 'E', c);
    holds_two('S', 'W', c);
    holds_two('N', 'W', c);
}

/// The letters of the name of a slot tell where the delta leads: north up, south down, east
/// right, west left. With four directions the vertical ones go first.
pub proof fn names_tell_directions<S: Scalar>(dy: S, dx: S, num_directions: usize)
    requires
        num_directions == 4 || num_directions == 8,
        ({
            let zero = S::spec_zero();
            &&& !(dy.spec_less(zero) && zero.spec_less(dy))
            &&& !(dx.spec_less(zero) && zero.spec_less(dx))
            &&& dy.spec_less(zero) || zero.spec_less(dy) || dx.spec_less(zero) || zero.spec_less(dx)
        }),
    ensures
        ({
            let zero = S::spec_zero();
            let name = compass(num_directions)[direction_slot(dy, dx, num_directions) as int];
            let level = !dy.spec_less(zero) && !zero.spec_less(dy);
            &&& name.contains('N') == dy.spec_less(zero)
            &&& name.contains('S') == zero.spec_less(dy)
            &&& name.contains('E') == (zero.spec_less(dx) && (num_directions == 8 || level))
            &&& name.contains('W') == (dx.spec_less(zero) && (num_directions == 8 || level))
        }),
{
    letters_in_names('N');
    letters_in_names('S');
    letters_in_names('E');
    letters_in_names('W');
}

/// No two directions have the same name.
pub proof fn names_are_distinct(num_directions: usize, i: int, j: int)
    requires
        num_directions == 4 || num_directions == 8,
        0 <= i < j < num_directions,
    ensures
        compass(num_directions)[i] != compass(num_directions)[j],
{
    compass_letters();
    let (a, b) = (compass(num_directions)[i], compass(num_directions)[j]);
    if a == b {
        assert(a.len() == b.len());
        assert(a[0] == b[0]);
        assert(a.len() == 2 ==> a[1] == b[1]);
    }
}

} // verus!
