//! The navigation facade: owns the tree and the portals and answers the
//! queries.

use vstd::prelude::*;
use glam::Vec2;
use rand::seq::SliceRandom;

use crate::geom::Scalar;
use crate::shape::Face;
use crate::tree::{BSPTree, BSPNode, NodeIndex, NodePayload, Portal, Portals, locate_spec, models, build_model, generate_model, frame_planes, bounds_lo, bounds_hi, lemma_models_len};
use crate::tree::portals::store_model;
use crate::geom::{sub_of, add_of, int_val};
use crate::astar::{astar, chain_ok, portal_connected, shorten, resolve_clip, shorten_model, resolve_clip_model, Path, SearchInfo, WayPoint};

verus! {

#[verifier::external_type_specification]
#[verifier::external_body]
pub struct ExStdRng(rand::rngs::StdRng);

/// Relies on rand's `SliceRandom::shuffle`: the result is a permutation
/// of the input, whatever the generator returned.
#[verifier::external_body]
fn shuffle_faces(faces: &mut Vec<Face>, rng: &mut rand::rngs::StdRng)
    ensures
        final(faces)@.to_multiset() == old(faces)@.to_multiset(),
        final(faces)@.len() == old(faces)@.len(),
        forall|i: int|
            0 <= i < final(faces)@.len() ==> exists|j: int|
                0 <= j < old(faces)@.len() && #[trigger] final(faces)@[i] == #[trigger] old(
                    faces,
                )@[j],
{
    faces.shuffle(rng);
}

/// Contains the tree and portals necessary for path finding.
#[derive(Debug)]
pub struct NavigationContext {
    pub tree: Option<BSPTree>,
    pub portals: Portals,
}

impl NavigationContext {
    /// What construction establishes: a well-formed tree, where there is
    /// one, and a symmetric portal store sized to it.
    pub open spec fn wf(self) -> bool {
        &&& (self.tree matches Some(t) ==> t.wf() && self.portals.per_leaf@.len()
            == t.nodes@.len())
        &&& self.portals.wf()
    }

    /// Creates a new navigation context.
    pub fn new(faces: Vec<Face>) -> (r: NavigationContext)
        requires
            forall|k: int| 0 <= k < faces@.len() ==> faces@[k].wf(),
        ensures
            r.wf(),
            r.tree is Some <==> faces@.len() > 0,
            r.tree matches Some(t) ==> models(t.nodes@) == build_model(0, faces@, 0),
            r.tree matches Some(t) ==> t.l == sub_of(bounds_lo(faces@), int_val(10)) && t.r
                == add_of(bounds_hi(faces@), int_val(10)),
            r.tree matches Some(t) ==> r.portals.store_view() == store_model(
                generate_model(models(t.nodes@), t.root.0 as int, frame_planes(t.l, t.r)),
                t.nodes@.len() as nat,
            ),
            r.tree is None ==> r.portals.faces@.len() == 0 && r.portals.per_leaf@.len() == 0,
    {
        let tree = BSPTree::new(faces);
        let mut portals = Portals::new();
        if let Some(t) = &tree {
            portals.generate(t);
        }
        NavigationContext { tree, portals }
    }

    /// Creates a new navigation context, shuffling the input first, which
    /// usually reduces the depth of the final tree.  The same seed gives
    /// the same shuffle and therefore the same context.
    pub fn new_shuffle(faces: Vec<Face>, rng: &mut rand::rngs::StdRng) -> (r: NavigationContext)
        requires
            forall|k: int| 0 <= k < faces@.len() ==> faces@[k].wf(),
        ensures
            r.wf(),
            r.tree is Some <==> faces@.len() > 0,
            r.tree matches Some(t) ==> exists|s: Seq<Face>|
                #[trigger] s.to_multiset() == faces@.to_multiset() && models(t.nodes@)
                    == build_model(0, s, 0) && t.l == sub_of(bounds_lo(s), int_val(10)) && t.r
                    == add_of(bounds_hi(s), int_val(10)) && r.portals.store_view() == store_model(
                    generate_model(models(t.nodes@), t.root.0 as int, frame_planes(t.l, t.r)),
                    t.nodes@.len() as nat,
                ),
            r.tree is None ==> r.portals.faces@.len() == 0 && r.portals.per_leaf@.len() == 0,
    {
        let mut faces = faces;
        let ghost pre = faces@;
        shuffle_faces(&mut faces, rng);
        proof {
            assert forall|k: int| 0 <= k < faces@.len() implies faces@[k].wf() by {
                let j = choose|j: int| 0 <= j < pre.len() && #[trigger] faces@[k] == pre[j];
            }
        }
        let ghost shuffled = faces@;
        let r = Self::new(faces);
        proof {
            if r.tree is Some {
                assert(shuffled.to_multiset() == pre.to_multiset());
            }
        }
        r
    }

    /// Looks a node up by its handle.
    pub fn node(&self, index: NodeIndex) -> (r: Option<&BSPNode>)
        ensures
            r matches Some(n) ==> (self.tree matches Some(t) && index.0 < t.nodes@.len() && *n
                == t.nodes@[index.0 as int]),
            self.tree is None ==> r is None,
    {
        match &self.tree {
            Some(t) => t.node(index),
            None => None,
        }
    }

    /// Locates a position in the tree; `None` when the scene holds no
    /// faces.
    pub fn locate(&self, point: Vec2) -> (r: Option<NodePayload>)
        requires
            self.wf(),
        ensures
            r is Some <==> self.tree is Some,
            r matches Some(p) ==> (self.tree matches Some(t) && p == locate_spec(
                t.nodes@,
                t.root.0 as int,
                point,
            )),
    {
        match &self.tree {
            Some(tree) => Some(tree.locate(point)),
            None => None,
        }
    }

    /// Get a reference to the navigation context's tree.
    pub fn tree(&self) -> (r: &Option<BSPTree>)
        ensures
            r == self.tree,
    {
        &self.tree
    }

    /// Get a reference to the navigation context's portals.
    pub fn portals(&self) -> (r: &Portals)
        ensures
            r == self.portals,
    {
        &self.portals
    }

    /// Get the portals associated to a node.
    pub fn get(&self, index: NodeIndex) -> (r: Vec<Portal>)
        requires
            self.wf(),
        ensures
            index.0 < self.portals.per_leaf@.len() ==> r@.len()
                == self.portals.per_leaf@[index.0 as int]@.len() && forall|k: int|
                0 <= k < r@.len() ==> r@[k].portal_ref == self.portals.per_leaf@[index.0 as int]@[k]
                    && r@[k].face == self.portals.faces@[self.portals.per_leaf@[index.0 as int]@[k].face as int],
            index.0 >= self.portals.per_leaf@.len() ==> r@.len() == 0,
    {
        self.portals.get(index)
    }

    /// Finds a path from `start` to `end`; `None` when no run of portals
    /// joins the two leaves.  With no faces in the scene the straight
    /// line is returned.  A returned path is a chain: it runs from
    /// `start` in the start leaf to `end` in the end leaf and every
    /// intermediate waypoint crosses exactly the portal joining its
    /// predecessor's leaf to its own.
    pub fn find_path<F: Fn(Vec2, Vec2) -> Scalar>(
        &self,
        start: Vec2,
        end: Vec2,
        heuristic: F,
        info: SearchInfo,
    ) -> (r: Option<Path>)
        requires
            self.wf(),
            forall|a: Vec2, b: Vec2| heuristic.requires((a, b)),
        ensures
            self.tree is None ==> (r matches Some(p) && p.points@.len() == 2 && p.points@[0].point
                == start && p.points@.last().point == end),
            self.tree matches Some(t) ==> (r matches Some(p) ==> chain_ok(
                p.points@,
                start,
                end,
                locate_spec(t.nodes@, t.root.0 as int, start).index,
                locate_spec(t.nodes@, t.root.0 as int, end).index,
                self.portals,
                info.agent_radius.0,
            )),
            self.tree matches Some(t) ==> ((locate_spec(t.nodes@, t.root.0 as int, start).covered
                || locate_spec(t.nodes@, t.root.0 as int, end).covered) ==> r is None),
            self.tree matches Some(t) ==> (r is Some ==> exists|k: nat|
                #[trigger] portal_connected(
                    self.portals,
                    info.agent_radius.0,
                    locate_spec(t.nodes@, t.root.0 as int, start).index,
                    locate_spec(t.nodes@, t.root.0 as int, end).index,
                    k,
                )),
            self.tree matches Some(t) ==> (r matches Some(p) ==> exists|raw: Seq<WayPoint>|
                #[trigger] chain_ok(
                    raw,
                    start,
                    end,
                    locate_spec(t.nodes@, t.root.0 as int, start).index,
                    locate_spec(t.nodes@, t.root.0 as int, end).index,
                    self.portals,
                    info.agent_radius.0,
                ) && p.points@ == resolve_clip_model(
                    self.portals.faces@,
                    shorten_model(
                        self.portals.faces@,
                        raw,
                        0,
                        info.agent_radius.0,
                        usize::MAX as nat,
                    ).0,
                    info.agent_radius.0,
                )),
    {
        match &self.tree {
            Some(tree) => {
                let mut path = match astar(tree, &self.portals, start, end, heuristic, info) {
                    Some(p) => p,
                    None => {
                        return None;
                    }
                };
                let ghost raw = path.points@;
                shorten(&self.portals, &mut path, info.agent_radius);
                resolve_clip(&self.portals, &mut path, info.agent_radius);
                proof {
                    assert(path.points@ == resolve_clip_model(
                        self.portals.faces@,
                        shorten_model(
                            self.portals.faces@,
                            raw,
                            0,
                            info.agent_radius.0,
                            usize::MAX as nat,
                        ).0,
                        info.agent_radius.0,
                    ));
                }
                Some(path)
            }
            None => Some(Path::euclidian(start, end)),
        }
    }

    /// As [`Self::find_path`], but fills the caller's buffer, reusing its
    /// allocation, and says whether a path was found.
    pub fn find_path_inc<F: Fn(Vec2, Vec2) -> Scalar>(
        &self,
        start: Vec2,
        end: Vec2,
        heuristic: F,
        info: SearchInfo,
        path: &mut Option<Path>,
    ) -> (found: bool)
        requires
            self.wf(),
            forall|a: Vec2, b: Vec2| heuristic.requires((a, b)),
        ensures
            found <==> (*final(path)) is Some,
            self.tree is None ==> found && ((*final(path)) matches Some(p) && p.points@.len() == 2
                && p.points@[0].point == start && p.points@.last().point == end),
            self.tree matches Some(t) ==> ((*final(path)) matches Some(p) ==> chain_ok(
                p.points@,
                start,
                end,
                locate_spec(t.nodes@, t.root.0 as int, start).index,
                locate_spec(t.nodes@, t.root.0 as int, end).index,
                self.portals,
                info.agent_radius.0,
            )),
            self.tree matches Some(t) ==> ((locate_spec(t.nodes@, t.root.0 as int, start).covered
                || locate_spec(t.nodes@, t.root.0 as int, end).covered) ==> !found),
            self.tree matches Some(t) ==> ((*final(path)) matches Some(p) ==> exists|
                raw: Seq<WayPoint>,
            |
                #[trigger] chain_ok(
                    raw,
                    start,
                    end,
                    locate_spec(t.nodes@, t.root.0 as int, start).index,
                    locate_spec(t.nodes@, t.root.0 as int, end).index,
                    self.portals,
                    info.agent_radius.0,
                ) && p.points@ == resolve_clip_model(
                    self.portals.faces@,
                    shorten_model(
                        self.portals.faces@,
                        raw,
                        0,
                        info.agent_radius.0,
                        usize::MAX as nat,
                    ).0,
                    info.agent_radius.0,
                )),
    {
        let fresh = self.find_path(start, end, heuristic, info);
        match fresh {
            Some(mut newp) => {
                let ghost fresh_points = newp.points@;
                let reuse = match path {
                    Some(_) => true,
                    None => false,
                };
                if reuse {
                    if let Some(buf) = path.as_mut() {
                        buf.points.clear();
                        buf.points.append(&mut newp.points);
                        proof {
                            assert(buf.points@ =~= fresh_points);
                        }
                    }
                } else {
                    *path = Some(newp);
                }
                true
            }
            None => {
                *path = None;
                false
            }
        }
    }
}


/// Deterministic rebuild, for the whole context: two contexts built from
/// the same run of faces carry identical trees — same node data, root and
/// bounds — and identical portal stores.  Everything observable equals
/// the one value that the construction models assign to the input.
pub proof fn lemma_deterministic_context(
    a: NavigationContext,
    b: NavigationContext,
    faces: Seq<crate::shape::Face>,
)
    requires
        a.tree matches Some(ta) && {
            &&& ta.wf()
            &&& models(ta.nodes@) == build_model(0, faces, 0)
            &&& ta.l == sub_of(bounds_lo(faces), int_val(10))
            &&& ta.r == add_of(bounds_hi(faces), int_val(10))
            &&& a.portals.store_view() == store_model(
                generate_model(models(ta.nodes@), ta.root.0 as int, frame_planes(ta.l, ta.r)),
                ta.nodes@.len() as nat,
            )
        },
        b.tree matches Some(tb) && {
            &&& tb.wf()
            &&& models(tb.nodes@) == build_model(0, faces, 0)
            &&& tb.l == sub_of(bounds_lo(faces), int_val(10))
            &&& tb.r == add_of(bounds_hi(faces), int_val(10))
            &&& b.portals.store_view() == store_model(
                generate_model(models(tb.nodes@), tb.root.0 as int, frame_planes(tb.l, tb.r)),
                tb.nodes@.len() as nat,
            )
        },
    ensures
        (a.tree matches Some(ta) && b.tree matches Some(tb) && {
            &&& models(ta.nodes@) == models(tb.nodes@)
            &&& ta.nodes@.len() == tb.nodes@.len()
            &&& ta.root == tb.root
            &&& ta.l == tb.l && ta.r == tb.r
        }),
        a.portals.store_view() == b.portals.store_view(),
{
    let ta = a.tree->Some_0;
    let tb = b.tree->Some_0;
    lemma_models_len(ta.nodes@);
    lemma_models_len(tb.nodes@);
}

} // verus!
