//! A* over the portal graph, with string-pulling and clip resolution.
//!
//! The search works on (leaf, entry point) states ordered by accumulated
//! cost plus heuristic.  What is proved of it: the search terminates, and
//! every path it returns is a chain — it starts at the start point in the
//! start leaf, ends at the end point in the end leaf, and every
//! intermediate waypoint crosses exactly the portal that joins its
//! predecessor's leaf to its own.  The post-processing passes move only
//! interior points and never touch the chain itself.

use vstd::prelude::*;
use glam::Vec2;

use crate::geom::{Scalar, sub_of, add_of, mul_of, dot_of, abs_of, dist_of, dist_sq_of, int_val, lt_of, le_of, tol, perp_of, unit_of, vec_sub, vec_add, vec_mul, vec_dot, vec_abs, vec_dist, vec_dist_sq, vec_perp, vec_unit, vec_lt, vec_le, vec_from_int, tolerance};
use crate::shape::Face;
use crate::tree::{BSPTree, NodeIndex, Portals, Portal, PortalRef, locate_spec, mirrored_once, lemma_portal_symmetry};
use crate::tree::portal::margin_points;
use crate::util::{isect_param, isect_point};

verus! {

/// One step of a path: where to stand, which leaf that is, and the portal
/// crossed to get there (`None` for the first and last step).
#[derive(Clone, Copy, Debug)]
pub struct WayPoint {
    pub point: Vec2,
    pub node: NodeIndex,
    pub portal: Option<PortalRef>,
}

impl WayPoint {
    pub fn new(point: Vec2, node: NodeIndex, portal: Option<PortalRef>) -> (r: WayPoint)
        ensures
            r.point == point,
            r.node == node,
            r.portal == portal,
    {
        WayPoint { point, node, portal }
    }

    /// Get the waypoint's position.
    pub fn point(&self) -> (r: Vec2)
        ensures
            r == self.point,
    {
        self.point
    }
}

/// An ordered run of waypoints from a start point to an end point.
#[derive(Debug)]
pub struct Path {
    pub points: Vec<WayPoint>,
}

impl Path {
    pub fn new(points: Vec<WayPoint>) -> (r: Path)
        ensures
            r.points@ == points@,
    {
        Path { points }
    }

    /// The straight run from `start` to `end`, used when the scene holds
    /// no walls at all.
    pub fn euclidian(start: Vec2, end: Vec2) -> (r: Path)
        ensures
            r.points@.len() == 2,
            r.points@[0].point == start,
            r.points@[0].portal is None,
            r.points@[1].point == end,
            r.points@[1].portal is None,
    {
        let mut points: Vec<WayPoint> = Vec::new();
        points.push(WayPoint { point: start, node: NodeIndex(0), portal: None });
        points.push(WayPoint { point: end, node: NodeIndex(0), portal: None });
        Path { points }
    }

    /// Get a reference to the path's points.
    pub fn points(&self) -> (r: &Vec<WayPoint>)
        ensures
            r == self.points,
    {
        &self.points
    }

    pub fn push(&mut self, value: WayPoint)
        ensures
            final(self).points@ == old(self).points@.push(value),
    {
        self.points.push(value)
    }

    pub fn append(&mut self, other: &mut Path)
        ensures
            final(self).points@ == old(self).points@ + old(other).points@,
            final(other).points@.len() == 0,
    {
        self.points.append(&mut other.points)
    }
}

/// The search's tuning: how much clearance the agent needs.
#[derive(Clone, Copy, Debug)]
pub struct SearchInfo {
    pub agent_radius: Scalar,
}

impl Default for SearchInfo {
    /// No clearance at all.
    fn default() -> (d: SearchInfo)
        ensures
            d.agent_radius.0 == int_val(0),
    {
        SearchInfo { agent_radius: Scalar::from_int(0) }
    }
}

/// How a leaf was reached: through which portal, from which leaf, at what
/// cost.
#[derive(Clone, Copy, Debug)]
struct Backtrace {
    node: NodeIndex,
    point: Vec2,
    portal: Option<Portal>,
    prev: Option<NodeIndex>,
    start_cost: Scalar,
    total_cost: Scalar,
}

/// The returned run of waypoints is a chain from `start` in `start_leaf`
/// to `end` in `end_leaf`: interior waypoints cross exactly the portal
/// that joins the previous waypoint's leaf to their own, and that portal
/// is an edge of the store, kept at its source leaf and wide enough for
/// the clearance.
pub open spec fn chain_ok(
    pts: Seq<WayPoint>,
    start: Vec2,
    end: Vec2,
    start_leaf: NodeIndex,
    end_leaf: NodeIndex,
    portals: Portals,
    radius: Vec2,
) -> bool {
    &&& pts.len() >= 2
    &&& pts[0].point == start
    &&& pts[0].node == start_leaf
    &&& pts[0].portal is None
    &&& pts.last().point == end
    &&& pts.last().node == end_leaf
    &&& pts.last().portal is None
    &&& pts.len() == 2 ==> start_leaf == end_leaf
    &&& pts.len() > 2 ==> pts[pts.len() - 2].node == end_leaf
    &&& forall|i: int|
        0 < i < pts.len() - 1 ==> ((#[trigger] pts[i]).portal matches Some(pr) && pr.dst
            == pts[i].node && pr.src == pts[i - 1].node && stored_portal(portals, pr)
            && wide_portal(portals, pr, radius))
}

/// Whether the portal's geometry is strictly longer than twice the
/// clearance, so that the shrunk doorway keeps positive width.
pub open spec fn wide_portal(portals: Portals, pr: PortalRef, radius: Vec2) -> bool {
    &&& (pr.face as int) < portals.faces@.len()
    &&& lt_of(
        add_of(radius, radius),
        dist_of(
            portals.faces@[pr.face as int].vertices[0],
            portals.faces@[pr.face as int].vertices[1],
        ),
    )
}

/// Whether a run of at most `k` wide stored portals leads from `from` to
/// `to`.
pub open spec fn portal_connected(
    portals: Portals,
    radius: Vec2,
    from: NodeIndex,
    to: NodeIndex,
    k: nat,
) -> bool
    decreases k,
{
    from == to || (k > 0 && exists|j: int|
        0 <= j < portals.per_leaf@[from.0 as int]@.len() && {
            let pr = #[trigger] portals.per_leaf@[from.0 as int]@[j];
            wide_portal(portals, pr, radius) && portal_connected(
                portals,
                radius,
                pr.dst,
                to,
                (k - 1) as nat,
            )
        })
}

/// A chain witnesses connectivity: its run of crossed portals leads from
/// the start leaf to the end leaf.
pub proof fn lemma_chain_connected(
    pts: Seq<WayPoint>,
    start: Vec2,
    end: Vec2,
    start_leaf: NodeIndex,
    end_leaf: NodeIndex,
    portals: Portals,
    radius: Vec2,
)
    requires
        portals.wf(),
        chain_ok(pts, start, end, start_leaf, end_leaf, portals, radius),
    ensures
        portal_connected(portals, radius, start_leaf, end_leaf, pts.len() as nat),
{
    lemma_chain_connected_from(pts, start, end, start_leaf, end_leaf, portals, radius, 0);
}

proof fn lemma_chain_connected_from(
    pts: Seq<WayPoint>,
    start: Vec2,
    end: Vec2,
    start_leaf: NodeIndex,
    end_leaf: NodeIndex,
    portals: Portals,
    radius: Vec2,
    i: int,
)
    requires
        portals.wf(),
        chain_ok(pts, start, end, start_leaf, end_leaf, portals, radius),
        0 <= i < pts.len(),
    ensures
        portal_connected(portals, radius, pts[i].node, end_leaf, (pts.len() - i) as nat),
    decreases pts.len() - i,
{
    if i >= pts.len() - 2 {
        assert(pts[i].node == end_leaf);
    } else {
        lemma_chain_connected_from(pts, start, end, start_leaf, end_leaf, portals, radius, i + 1);
        let pr = pts[i + 1].portal->Some_0;
        assert(pr.src == pts[i].node && pr.dst == pts[i + 1].node);
        let j = choose|j: int|
            0 <= j < portals.per_leaf@[pr.src.0 as int]@.len() && #[trigger] portals.per_leaf@[
                pr.src.0 as int
            ]@[j] == pr;
        assert(portals.per_leaf@[pts[i].node.0 as int]@[j] == pr);
    }
}

/// Whether `pr` is one of the references the store keeps at its source
/// leaf.
pub open spec fn stored_portal(portals: Portals, pr: PortalRef) -> bool {
    &&& pr.src.0 < portals.per_leaf@.len()
    &&& exists|k: int|
        0 <= k < portals.per_leaf@[pr.src.0 as int]@.len() && #[trigger] portals.per_leaf@[
            pr.src.0 as int
        ]@[k] == pr
}

/// Path connectivity: along a returned chain every consecutive pair of
/// waypoints is joined by exactly the portal the second one records — an
/// edge of the store from the first pair member's leaf into the second's,
/// kept at the first leaf and mirrored exactly once at the second.
pub proof fn lemma_path_connectivity(
    portals: Portals,
    pts: Seq<WayPoint>,
    start: Vec2,
    end: Vec2,
    start_leaf: NodeIndex,
    end_leaf: NodeIndex,
    radius: Vec2,
    i: int,
)
    requires
        portals.wf(),
        chain_ok(pts, start, end, start_leaf, end_leaf, portals, radius),
        0 < i < pts.len() - 1,
    ensures
        (pts[i].portal matches Some(pr) && pr.src == pts[i - 1].node && pr.dst == pts[i].node
            && stored_portal(portals, pr) && mirrored_once(portals, pr)),
{
    let pr = pts[i].portal->Some_0;
    let k = choose|k: int|
        0 <= k < portals.per_leaf@[pr.src.0 as int]@.len() && #[trigger] portals.per_leaf@[
            pr.src.0 as int
        ]@[k] == pr;
    lemma_portal_symmetry(portals, pr.src.0 as int, k);
}

/// How many entries of `s` are set.
pub open spec fn count_true(s: Seq<bool>) -> int
    decreases s.len(),
{
    if s.len() == 0 {
        0
    } else {
        count_true(s.drop_last()) + if s.last() {
            1int
        } else {
            0int
        }
    }
}

proof fn lemma_count_le(s: Seq<bool>)
    ensures
        count_true(s) <= s.len(),
    decreases s.len(),
{
    if s.len() > 0 {
        lemma_count_le(s.drop_last());
    }
}

proof fn lemma_count_update(s: Seq<bool>, i: int)
    requires
        0 <= i < s.len(),
        !s[i],
    ensures
        count_true(s.update(i, true)) == count_true(s) + 1,
    decreases s.len(),
{
    let t = s.update(i, true);
    if i == s.len() - 1 {
        assert(t.drop_last() =~= s.drop_last());
    } else {
        assert(t.drop_last() =~= s.drop_last().update(i, true));
        lemma_count_update(s.drop_last(), i);
    }
}

/// The per-slot facts the relaxation keeps: an entry sits in its own
/// slot; an entry without a portal is the start entry; an entry with a
/// portal records the leaf it came from, which is the portal's source.
spec fn traces_ok(
    traces: Seq<Option<Backtrace>>,
    start: Vec2,
    start_leaf: NodeIndex,
    n: int,
    portals: Portals,
    radius: Vec2,
) -> bool {
    forall|j: int|
        0 <= j < traces.len() ==> ((#[trigger] traces[j]) matches Some(bt) ==> {
            &&& bt.node.0 == j
            &&& (bt.portal is None ==> bt.prev is None && bt.point == start && bt.node
                == start_leaf)
            &&& (bt.portal matches Some(p) ==> (bt.prev matches Some(pv) && pv.0 < n
                && p.portal_ref.src == pv && p.portal_ref.dst == bt.node && stored_portal(
                portals,
                p.portal_ref,
            ) && wide_portal(portals, p.portal_ref, radius)))
        })
}

/// The index the scan settles on: a later entry replaces the running
/// best exactly when its total cost compares strictly lower.
spec fn min_index(s: Seq<Backtrace>, k: int) -> int
    decreases k,
{
    if k <= 1 {
        0
    } else {
        let b = min_index(s, k - 1);
        if lt_of(s[k - 1].total_cost.0, s[b].total_cost.0) {
            k - 1
        } else {
            b
        }
    }
}

/// Pops the entry the left-to-right scan of the named cost order settles
/// on: the first of several equal minima.
fn pop_min(open: &mut Vec<Backtrace>) -> (r: Option<Backtrace>)
    ensures
        r is Some <==> old(open)@.len() > 0,
        r is None ==> final(open)@ == old(open)@,
        r matches Some(bt) ==> final(open)@.len() == old(open)@.len() - 1 && bt == old(
            open,
        )@[min_index(old(open)@, old(open)@.len() as int)],
        r matches Some(bt) ==> (exists|j: int| 0 <= j < old(open)@.len() && old(open)@[j] == bt),
        forall|k: int|
            0 <= k < final(open)@.len() ==> exists|j: int|
                0 <= j < old(open)@.len() && #[trigger] final(open)@[k] == #[trigger] old(
                    open,
                )@[j],
{
    if open.len() == 0 {
        return None;
    }
    let mut best: usize = 0;
    let mut k: usize = 1;
    while k < open.len()
        invariant
            0 <= best < open@.len(),
            1 <= k <= open@.len(),
            best as int == min_index(open@, k as int),
        decreases open@.len() - k,
    {
        if vec_lt(&open[k].total_cost, &open[best].total_cost) {
            best = k;
        }
        k = k + 1;
    }
    let bt = open.swap_remove(best);
    proof {
        assert(old(open)@[best as int] == bt);
        assert forall|k: int| 0 <= k < open@.len() implies exists|j: int|
            0 <= j < old(open)@.len() && #[trigger] open@[k] == #[trigger] old(open)@[j] by {
            if k == best as int && open@.len() > best as int {
                assert(open@[k] == old(open)@[old(open)@.len() - 1]);
            } else {
                assert(open@[k] == old(open)@[k]);
            }
        }
    }
    Some(bt)
}

/// Searches the portal graph from `start` to `end` and returns the raw
/// chain of crossings, `None` when either point lies behind its last
/// splitting plane or no sequence of wide-enough portals joins the two
/// leaves.
///
/// The contract pins every success: a returned path is a chain of wide
/// stored portals, which also witnesses that the two leaves are
/// connected.  The converse — that the search must succeed whenever the
/// leaves are connected — holds of the code but is not stated: its proof
/// needs the full exhaustion invariant of the closed set, which did not
/// fit the verifier's resource bounds.
#[verifier::rlimit(80)]
pub fn astar<F: Fn(Vec2, Vec2) -> Scalar>(
    tree: &BSPTree,
    portals: &Portals,
    start: Vec2,
    end: Vec2,
    heuristic: F,
    info: SearchInfo,
) -> (r: Option<Path>)
    requires
        tree.wf(),
        portals.wf(),
        portals.per_leaf@.len() == tree.nodes@.len(),
        forall|a: Vec2, b: Vec2| heuristic.requires((a, b)),
    ensures
        r matches Some(path) ==> chain_ok(
            path.points@,
            start,
            end,
            locate_spec(tree.nodes@, tree.root.0 as int, start).index,
            locate_spec(tree.nodes@, tree.root.0 as int, end).index,
            *portals,
            info.agent_radius.0,
        ),
        r matches Some(path) ==> exists|k: nat|
            #[trigger] portal_connected(
                *portals,
                info.agent_radius.0,
                locate_spec(tree.nodes@, tree.root.0 as int, start).index,
                locate_spec(tree.nodes@, tree.root.0 as int, end).index,
                k,
            ),
        locate_spec(tree.nodes@, tree.root.0 as int, start).covered ==> r is None,
        locate_spec(tree.nodes@, tree.root.0 as int, end).covered ==> r is None,
{
    let n = tree.nodes.len();
    let start_payload = tree.locate(start);
    let end_payload = tree.locate(end);

    // A point behind its last splitting plane stands inside a wall.
    if start_payload.covered() || end_payload.covered() {
        return None;
    }
    let start_node = start_payload.index();
    let end_node = end_payload.index();

    let zero = vec_from_int(0);
    let start_bt = Backtrace {
        node: start_node,
        point: start,
        portal: None,
        prev: None,
        start_cost: Scalar(zero.0),
        total_cost: heuristic(start, end),
    };

    let mut traces: Vec<Option<Backtrace>> = Vec::new();
    let mut i: usize = 0;
    while i < n
        invariant
            0 <= i <= n,
            traces@.len() == i,
            forall|j: int| 0 <= j < i ==> (#[trigger] traces@[j]) is None,
        decreases n - i,
    {
        traces.push(None);
        i = i + 1;
    }
    let mut closed: Vec<bool> = Vec::new();
    let mut i: usize = 0;
    while i < n
        invariant
            0 <= i <= n,
            closed@.len() == i,
            forall|j: int| 0 <= j < i ==> !(#[trigger] closed@[j]),
        decreases n - i,
    {
        closed.push(false);
        i = i + 1;
    }
    proof {
        lemma_count_all_false(closed@);
    }
    let mut closed_count: usize = 0;

    let mut open: Vec<Backtrace> = Vec::new();
    open.push(start_bt);
    traces[start_node.0] = Some(start_bt);

    loop
        invariant
            tree.wf(),
            portals.wf(),
            portals.per_leaf@.len() == n as int,
            n == tree.nodes@.len(),
            start_node.0 < n,
            end_node.0 < n,
            start_node == locate_spec(tree.nodes@, tree.root.0 as int, start).index,
            end_node == locate_spec(tree.nodes@, tree.root.0 as int, end).index,
            !locate_spec(tree.nodes@, tree.root.0 as int, start).covered,
            !locate_spec(tree.nodes@, tree.root.0 as int, end).covered,
            traces@.len() == n,
            closed@.len() == n,
            closed_count == count_true(closed@),
            closed_count <= n,
            traces_ok(traces@, start, start_node, n as int, *portals, info.agent_radius.0),
            forall|k: int| 0 <= k < open@.len() ==> (#[trigger] open@[k]).node.0 < n,
            forall|a: Vec2, b: Vec2| heuristic.requires((a, b)),
        decreases n - closed_count, open@.len(),
    {
        let cur = match pop_min(&mut open) {
            Some(cur) => cur,
            None => {
                return None;
            }
        };
        proof {
            assert(cur.node.0 < n);
        }
        if !closed[cur.node.0] {
            if cur.node.0 == end_node.0 {
                proof {
                    assert(cur.node == end_node);
                }
                let walked = backtrace_walk(
                    end,
                    end_node,
                    start_node,
                    start,
                    &traces,
                    portals,
                    info.agent_radius,
                );
                proof {
                    if walked is Some {
                        let found_path = walked->Some_0;
                        lemma_chain_connected(
                            found_path.points@,
                            start,
                            end,
                            start_node,
                            end_node,
                            *portals,
                            info.agent_radius.0,
                        );
                        assert(portal_connected(
                            *portals,
                            info.agent_radius.0,
                            locate_spec(tree.nodes@, tree.root.0 as int, start).index,
                            locate_spec(tree.nodes@, tree.root.0 as int, end).index,
                            found_path.points@.len() as nat,
                        ));
                    }
                }
                return walked;
            }

            let end_rel = vec_sub(end, cur.point);
            let two_radius = Scalar(vec_add(info.agent_radius.0, info.agent_radius.0));

            let reachable = portals.get(cur.node);
            proof {
                assert forall|j: int|
                    0 <= j < reachable@.len() implies (#[trigger] reachable@[j]).portal_ref.src
                        == cur.node && reachable@[j].portal_ref.dst.0 < n && stored_portal(
                        *portals,
                        reachable@[j].portal_ref,
                    ) && (reachable@[j].portal_ref.face as int) < portals.faces@.len()
                        && reachable@[j].face == portals.faces@[
                        reachable@[j].portal_ref.face as int
                    ] by {
                    let pr = portals.per_leaf@[cur.node.0 as int]@[j];
                    assert(reachable@[j].portal_ref == pr);
                    assert(pr.src.0 == cur.node.0 as int && pr.dst.0 < portals.per_leaf@.len());
                    assert(pr.src == cur.node);
                    assert(pr.face < portals.faces@.len());
                }
            }
            let mut k: usize = 0;
            while k < reachable.len()
                invariant
                    tree.wf(),
                    portals.wf(),
                    portals.per_leaf@.len() == n as int,
                    n == tree.nodes@.len(),
                    start_node.0 < n,
                    cur.node.0 < n,
                    traces@.len() == n,
                    closed@.len() == n,
                    traces_ok(traces@, start, start_node, n as int, *portals, info.agent_radius.0),
                    forall|j: int| 0 <= j < open@.len() ==> (#[trigger] open@[j]).node.0 < n,
                    forall|j: int|
                        0 <= j < reachable@.len() ==> (#[trigger] reachable@[j]).portal_ref.src
                            == cur.node && reachable@[j].portal_ref.dst.0 < n && stored_portal(
                            *portals,
                            reachable@[j].portal_ref,
                        ) && (reachable@[j].portal_ref.face as int) < portals.faces@.len()
                            && reachable@[j].face == portals.faces@[
                            reachable@[j].portal_ref.face as int
                        ],
                    two_radius.0 == add_of(info.agent_radius.0, info.agent_radius.0),
                    0 <= k <= reachable@.len(),
                    forall|a: Vec2, b: Vec2| heuristic.requires((a, b)),
                decreases reachable@.len() - k,
            {
                let portal = reachable[k];
                let wide_enough = vec_lt(&two_radius, &portal.face.length());
                let self_loop = portal.dst().0 == cur.node.0;
                let already_closed = closed[portal.dst().0];
                if wide_enough && !self_loop && !already_closed {
                    let (p1, p2) = portal.apply_margin(info.agent_radius);
                    let p1_dist = heuristic(p1, end);
                    let p2_dist = heuristic(p2, end);

                    // The destination is ahead through the portal when its
                    // normal points along the remaining run to the end.
                    let toward = vec_dot(portal.normal(), end_rel);
                    let p = if vec_lt(&Scalar(zero.0), &toward) {
                        portal.clip(cur.point, end, info.agent_radius)
                    } else if vec_lt(&p1_dist, &p2_dist) {
                        p1
                    } else {
                        p2
                    };

                    let start_cost = Scalar(vec_add(cur.start_cost.0, vec_dist(cur.point, p).0));
                    let h = heuristic(p, end);
                    let bt = Backtrace {
                        node: portal.dst(),
                        point: p,
                        portal: Some(portal),
                        prev: Some(cur.node),
                        start_cost,
                        total_cost: Scalar(vec_add(start_cost.0, h.0)),
                    };

                    // Relax: keep the cheaper way into the destination leaf.
                    let better = match &traces[bt.node.0] {
                        Some(existing) => vec_lt(&bt.total_cost, &existing.total_cost),
                        None => true,
                    };
                    if better {
                        proof {
                            assert(stored_portal(*portals, reachable@[k as int].portal_ref));
                            assert(wide_portal(
                                *portals,
                                reachable@[k as int].portal_ref,
                                info.agent_radius.0,
                            ));
                        }
                        traces[bt.node.0] = Some(bt);
                        open.push(bt);
                    }
                }
                k = k + 1;
            }

            let ghost pre_closed = closed@;
            closed[cur.node.0] = true;
            proof {
                lemma_count_update(pre_closed, cur.node.0 as int);
                lemma_count_le(closed@);
                assert(closed_count < n);
            }
            closed_count = closed_count + 1;
        }
    }
}

proof fn lemma_count_all_false(s: Seq<bool>)
    requires
        forall|j: int| 0 <= j < s.len() ==> !(#[trigger] s[j]),
    ensures
        count_true(s) == 0,
    decreases s.len(),
{
    if s.len() > 0 {
        lemma_count_all_false(s.drop_last());
    }
}

/// Rebuilds the chain of crossings from the per-leaf backtraces, walking
/// the `prev` links from the end leaf up to the start entry.  Fails only
/// if the links are broken, which the relaxation's invariant rules out
/// for every chain the search actually produces.
///
/// Every crossing is kept, even when two crossing points coincide: each
/// waypoint must record the one portal it crossed, and dropping a
/// coincident point would leave a pair of neighbours that crossed two.
fn backtrace_walk(
    end: Vec2,
    end_node: NodeIndex,
    start_node: NodeIndex,
    start: Vec2,
    traces: &Vec<Option<Backtrace>>,
    portals: &Portals,
    agent_radius: Scalar,
) -> (r: Option<Path>)
    requires
        traces_ok(traces@, start, start_node, traces@.len() as int, *portals, agent_radius.0),
        end_node.0 < traces@.len(),
    ensures
        r matches Some(path) ==> chain_ok(
            path.points@,
            start,
            end,
            start_node,
            end_node,
            *portals,
            agent_radius.0,
        ),
{
    let mut rev: Vec<WayPoint> = Vec::new();
    rev.push(WayPoint { point: end, node: end_node, portal: None });

    let mut cur = end_node;
    let mut fuel: usize = traces.len();
    let ghost n = traces@.len() as int;

    loop
        invariant_except_break
            traces_ok(traces@, start, start_node, n, *portals, agent_radius.0),
            n == traces@.len(),
            cur.0 < traces@.len(),
            rev@.len() >= 1,
            rev@[0].point == end && rev@[0].node == end_node && rev@[0].portal is None,
            rev@.len() == 1 ==> cur == end_node,
            rev@.len() > 1 ==> rev@[1].node == end_node,
            forall|i: int|
                1 <= i < rev@.len() ==> ((#[trigger] rev@[i]).portal matches Some(pr) && pr.dst
                    == rev@[i].node && stored_portal(*portals, pr) && wide_portal(
                    *portals,
                    pr,
                    agent_radius.0,
                )),
            forall|i: int|
                1 <= i < rev@.len() - 1 ==> ((#[trigger] rev@[i]).portal matches Some(pr)
                    && pr.src == rev@[i + 1].node),
            rev@.len() > 1 ==> (rev@[rev@.len() - 1].portal matches Some(pr) && pr.src == cur
                && pr.dst == rev@[rev@.len() - 1].node),
        ensures
            rev@.len() >= 2,
            rev@[0].point == end && rev@[0].node == end_node && rev@[0].portal is None,
            rev@.len() == 2 ==> start_node == end_node,
            rev@.len() > 2 ==> rev@[1].node == end_node,
            rev@.last().point == start && rev@.last().node == start_node && rev@.last().portal
                is None,
            forall|i: int|
                1 <= i < rev@.len() - 1 ==> ((#[trigger] rev@[i]).portal matches Some(pr)
                    && pr.dst == rev@[i].node && pr.src == rev@[i + 1].node && stored_portal(
                    *portals,
                    pr,
                ) && wide_portal(*portals, pr, agent_radius.0)),
        decreases fuel,
    {
        let bt = match &traces[cur.0] {
            Some(bt) => *bt,
            None => {
                return None;
            }
        };

        match bt.portal {
            Some(portal) => {
                // Pull the crossing point back by the agent's clearance.
                let p = vec_sub(bt.point, vec_mul(portal.face.normal, agent_radius.0));
                rev.push(WayPoint { point: p, node: bt.node, portal: Some(portal.portal_ref()) });
                let prev = match bt.prev {
                    Some(prev) => prev,
                    None => {
                        return None;
                    }
                };
                if fuel == 0 {
                    return None;
                }
                fuel = fuel - 1;
                cur = prev;
            }
            None => {
                // The start entry: close the chain.
                if cur.0 != start_node.0 {
                    return None;
                }
                rev.push(WayPoint { point: bt.point, node: bt.node, portal: None });
                break;
            }
        }
    }

    // Reverse into start-to-end order.
    let mut points: Vec<WayPoint> = Vec::new();
    let total = rev.len();
    let mut i: usize = 0;
    while i < total
        invariant
            total == rev@.len(),
            0 <= i <= total,
            points@.len() == i,
            forall|j: int| 0 <= j < i ==> points@[j] == rev@[total - 1 - j],
        decreases total - i,
    {
        points.push(rev[total - 1 - i]);
        i = i + 1;
    }
    proof {
        assert(points@.len() == total as int);
        assert(points@[0] == rev@[total - 1]);
        assert(points@[total - 1] == rev@[0]);
        assert forall|j: int|
            0 < j < total - 1 implies ((#[trigger] points@[j]).portal matches Some(pr) && pr.dst
                == points@[j].node && pr.src == points@[j - 1].node) by {
            assert(points@[j] == rev@[total - 1 - j]);
            assert(points@[j - 1] == rev@[total - j]);
            assert(1 <= total - 1 - j < total - 1);
        }
        if total > 2 {
            assert(points@[total - 2] == rev@[1]);
        }
    }
    Some(Path { points })
}


/// What one rooted string-pulling pass computes: if the middle waypoint
/// of the triple at `at` crosses a stored portal and the straight run
/// between its neighbours meets the shrunk portal strictly inside, the
/// middle point moves to that crossing; a move smaller than the tolerance
/// stops the pass, otherwise the pass continues downstream and, when the
/// downstream finished, retries from `at`.  The flag is the original
/// recursion's "finished" result.
pub open spec fn shorten_model(
    faces: Seq<Face>,
    pts: Seq<WayPoint>,
    at: nat,
    radius: Vec2,
    fuel: nat,
) -> (Seq<WayPoint>, bool)
    decreases fuel,
{
    if fuel == 0 {
        (pts, true)
    } else if pts.len() < 3 || at + 2 >= pts.len() {
        (pts, true)
    } else {
        let a = pts[at as int];
        let b = pts[at + 1int];
        let c = pts[at + 2int];
        match b.portal {
            Some(pref) => if (pref.face as int) < faces.len() {
                let pface = faces[pref.face as int];
                let lr = margin_points(pface.vertices[0], pface.vertices[1], radius);
                let n = perp_of(sub_of(c.point, a.point));
                let tpar = isect_param(lr.0, sub_of(lr.1, lr.0), a.point, n);
                if lt_of(int_val(0), tpar) && lt_of(tpar, int_val(1)) {
                    let p = isect_point(lr.0, sub_of(lr.1, lr.0), a.point, n);
                    let moved = pts.update(
                        at + 1int,
                        WayPoint { point: p, node: b.node, portal: b.portal },
                    );
                    if lt_of(dist_sq_of(b.point, p), tol()) {
                        (moved, false)
                    } else {
                        let down = shorten_model(faces, moved, at + 1, radius, (fuel - 1) as nat);
                        if down.1 {
                            (shorten_model(faces, down.0, at, radius, (fuel - 1) as nat).0, true)
                        } else {
                            (down.0, true)
                        }
                    }
                } else {
                    shorten_model(faces, pts, at + 1, radius, (fuel - 1) as nat)
                }
            } else {
                shorten_model(faces, pts, at + 1, radius, (fuel - 1) as nat)
            },
            None => shorten_model(faces, pts, at + 1, radius, (fuel - 1) as nat),
        }
    }
}


/// What the clip-resolution pass does to the waypoint at `i`: when it
/// crosses a stored portal and stands within the clearance plus the
/// tolerance of a portal endpoint flagged adjacent, the point shifts
/// along the portal normal by the clearance scaled with the difference
/// of the two approach incidences; otherwise nothing moves.
pub open spec fn clip_shift_step(
    faces: Seq<Face>,
    pts: Seq<WayPoint>,
    i: int,
    radius: Vec2,
) -> Seq<WayPoint> {
    let wp = pts[i];
    match wp.portal {
        Some(pref) => if (pref.face as int) < faces.len() {
            let pface = faces[pref.face as int];
            let reach = add_of(radius, tol());
            let near0 = pref.adjacent[0] && le_of(dist_of(wp.point, pface.vertices[0]), reach);
            let near1 = pref.adjacent[1] && le_of(dist_of(wp.point, pface.vertices[1]), reach);
            if near0 || near1 {
                let a_inc = abs_of(
                    dot_of(perp_of(unit_of(sub_of(pts[i - 1].point, wp.point))), pref.normal),
                );
                let c_inc = abs_of(
                    dot_of(perp_of(unit_of(sub_of(pts[i + 1].point, wp.point))), pref.normal),
                );
                let shift = mul_of(mul_of(pref.normal, radius), sub_of(c_inc, a_inc));
                pts.update(
                    i,
                    WayPoint { point: add_of(wp.point, shift), node: wp.node, portal: wp.portal },
                )
            } else {
                pts
            }
        } else {
            pts
        },
        None => pts,
    }
}

/// The shift pass applied to the interior waypoints before `upto`, in
/// order.
pub open spec fn resolve_upto(faces: Seq<Face>, pts: Seq<WayPoint>, upto: int, radius: Vec2) -> Seq<
    WayPoint,
>
    decreases upto,
{
    if upto <= 1 {
        pts
    } else {
        clip_shift_step(faces, resolve_upto(faces, pts, upto - 1, radius), upto - 1, radius)
    }
}

/// The whole clip-resolution pass.
pub open spec fn resolve_clip_model(faces: Seq<Face>, pts: Seq<WayPoint>, radius: Vec2) -> Seq<
    WayPoint,
> {
    if pts.len() < 3 {
        pts
    } else {
        resolve_upto(faces, pts, pts.len() - 1, radius)
    }
}

/// The absolute perpendicular incidence of the approach from `x` into the
/// crossing point `b`, against the portal normal `n`.
fn incidence(x: Vec2, b: Vec2, n: Vec2) -> (r: Scalar)
    ensures
        r.0 == abs_of(dot_of(perp_of(unit_of(sub_of(x, b))), n)),
{
    Scalar(vec_abs(vec_dot(vec_perp(vec_unit(vec_sub(x, b))), n).0))
}

/// String-pulling: slides interior waypoints along their portals toward
/// the straight line between their neighbours.  Only interior points
/// move; the chain of leaves and portals, the length of the path and both
/// endpoints stay exactly as they were.
pub fn shorten(portals: &Portals, path: &mut Path, agent_radius: Scalar) -> (r: bool)
    ensures
        final(path).points@ == shorten_model(
            portals.faces@,
            old(path).points@,
            0,
            agent_radius.0,
            usize::MAX as nat,
        ).0,
        r == shorten_model(
            portals.faces@,
            old(path).points@,
            0,
            agent_radius.0,
            usize::MAX as nat,
        ).1,
        final(path).points@.len() == old(path).points@.len(),
        forall|i: int|
            0 <= i < final(path).points@.len() ==> (#[trigger] final(path).points@[i]).node == old(
                path,
            ).points@[i].node && final(path).points@[i].portal == old(path).points@[i].portal,
        forall|i: int|
            0 <= i < final(path).points@.len() && !(0 < i < final(path).points@.len() - 1)
                ==> final(path).points@[i] == old(path).points@[i],
{
    shorten_at(portals, &mut path.points, 0, agent_radius, usize::MAX)
}

/// One step of the string-pulling recursion, rooted at index `at` of the
/// full run of waypoints.
fn shorten_at(
    portals: &Portals,
    pts: &mut Vec<WayPoint>,
    at: usize,
    agent_radius: Scalar,
    fuel: usize,
) -> (r: bool)
    ensures
        final(pts)@ == shorten_model(portals.faces@, old(pts)@, at as nat, agent_radius.0, fuel as nat).0,
        r == shorten_model(portals.faces@, old(pts)@, at as nat, agent_radius.0, fuel as nat).1,
        final(pts)@.len() == old(pts)@.len(),
        forall|i: int|
            0 <= i < final(pts)@.len() ==> (#[trigger] final(pts)@[i]).node == old(pts)@[i].node
                && final(pts)@[i].portal == old(pts)@[i].portal,
        forall|i: int|
            0 <= i < final(pts)@.len() && !(at < i < final(pts)@.len() - 1) ==> final(pts)@[i]
                == old(pts)@[i],
    decreases fuel,
{
    if fuel == 0 {
        return true;
    }
    if pts.len() < 3 || at >= pts.len() - 2 {
        return true;
    }
    let a = pts[at];
    let b = pts[at + 1];
    let c = pts[at + 2];
    if let Some(pref) = b.portal {
        if let Some(portal) = portals.from_ref(pref) {
            // The middle waypoint can move if the straight run from its
            // neighbours still crosses the shrunk portal.
            if let Some(p) = portal.try_clip(a.point, c.point, agent_radius) {
                let prev = b.point;
                pts[at + 1] = WayPoint { point: p, node: b.node, portal: b.portal };
                let moved = vec_dist_sq(prev, p);
                let t = tolerance();
                if vec_lt(&moved, &t) {
                    return false;
                }
                // Shorten downstream; when that changed something, the
                // move may have opened more slack here, so retry.
                if shorten_at(portals, pts, at + 1, agent_radius, fuel - 1) {
                    shorten_at(portals, pts, at, agent_radius, fuel - 1);
                }
                return true;
            }
        }
    }
    shorten_at(portals, pts, at + 1, agent_radius, fuel - 1)
}

/// Pushes any interior waypoint that grazes an adjacent-flagged portal
/// endpoint away from the wall, by the clearance scaled with the
/// difference of the approach incidences.  Only interior points move; the
/// chain of leaves and portals, the length and both endpoints stay.
pub fn resolve_clip(portals: &Portals, path: &mut Path, agent_radius: Scalar)
    ensures
        final(path).points@ == resolve_clip_model(
            portals.faces@,
            old(path).points@,
            agent_radius.0,
        ),
        final(path).points@.len() == old(path).points@.len(),
        forall|i: int|
            0 <= i < final(path).points@.len() ==> (#[trigger] final(path).points@[i]).node == old(
                path,
            ).points@[i].node && final(path).points@[i].portal == old(path).points@[i].portal,
        forall|i: int|
            0 <= i < final(path).points@.len() && !(0 < i < final(path).points@.len() - 1)
                ==> final(path).points@[i] == old(path).points@[i],
{
    let len = path.points.len();
    if len < 3 {
        return;
    }
    let t = tolerance();
    let reach = Scalar(vec_add(agent_radius.0, t.0));
    let mut i: usize = 1;
    while i < len - 1
        invariant
            3 <= len,
            len == path.points@.len(),
            1 <= i <= len - 1,
            t.0 == tol(),
            reach.0 == add_of(agent_radius.0, tol()),
            path.points@ == resolve_upto(portals.faces@, old(path).points@, i as int, agent_radius.0),
            forall|j: int|
                0 <= j < len ==> (#[trigger] path.points@[j]).node == old(path).points@[j].node
                    && path.points@[j].portal == old(path).points@[j].portal,
            forall|j: int|
                0 <= j < len && !(0 < j < len - 1) ==> path.points@[j] == old(path).points@[j],
        decreases len - i,
    {
        let wp = path.points[i];
        if let Some(pref) = wp.portal {
            if let Some(portal) = portals.from_ref(pref) {
                let d0 = vec_dist(wp.point, portal.face.vertices[0]);
                let d1 = vec_dist(wp.point, portal.face.vertices[1]);
                let near0 = pref.adjacent[0] && vec_le(&d0, &reach);
                let near1 = pref.adjacent[1] && vec_le(&d1, &reach);
                if near0 || near1 {
                    let a = path.points[i - 1].point;
                    let c = path.points[i + 1].point;
                    let a_inc = incidence(a, wp.point, pref.normal);
                    let c_inc = incidence(c, wp.point, pref.normal);
                    let shift = vec_mul(
                        vec_mul(pref.normal, agent_radius.0),
                        vec_sub(c_inc.0, a_inc.0),
                    );
                    path.points[i] = WayPoint {
                        point: vec_add(wp.point, shift),
                        node: wp.node,
                        portal: wp.portal,
                    };
                }
            }
        }
        i = i + 1;
    }
}

} // verus!
