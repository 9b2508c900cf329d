//! A single node of the binary space partition and the recursive builder.
//!
//! Nodes live in an arena (`Vec<BSPNode>`); children are always inserted
//! before their parent, so every child handle is numerically smaller than
//! the handle of the node that holds it.  That ordering is the
//! well-formedness invariant every traversal's termination rests on.

use vstd::prelude::*;
use glam::Vec2;

use crate::geom::{Scalar, dot_of, int_val, lt_of, le_of, sub_of, abs_of, tol, inf, finite_of, perp_of, vec_dot, vec_lt, vec_le, vec_from_int, vec_sub, vec_abs, vec_perp, vec_is_finite, tolerance, infinity};
use crate::shape::{Face, Side, side_of_spec, point_side_spec, contains_point_spec, overlaps_spec, midpoint_of, face_new_spec};
use crate::tree::portals::ClippedFace;
use crate::util::{Intersect, face_intersect_dir};

verus! {

/// A stable handle into the node arena.  Entries are never removed, so a
/// handle never dangles.
#[derive(Clone, Copy, PartialEq, Eq, Structural, Debug, Hash)]
pub struct NodeIndex(pub usize);

/// A node: a splitting plane, the faces that lie on it, and the child
/// subtrees in front of and behind the plane.
#[derive(Debug)]
pub struct BSPNode {
    pub origin: Vec2,
    pub normal: Vec2,

    pub front: Option<NodeIndex>,
    pub back: Option<NodeIndex>,

    pub faces: Vec<Face>,

    pub depth: usize,

    pub double_planar: bool,
}

/// The observable content of a node: everything but the container type of
/// the face list.
pub struct NodeModel {
    pub origin: Vec2,
    pub normal: Vec2,
    pub front: Option<NodeIndex>,
    pub back: Option<NodeIndex>,
    pub faces: Seq<Face>,
    pub depth: nat,
    pub double_planar: bool,
}

/// The routing state of the builder: the two buckets, the coplanar faces
/// beyond the splitter, and the double-planar flag.
pub struct Buckets {
    pub front: Seq<Face>,
    pub back: Seq<Face>,
    pub coplanar: Seq<Face>,
    pub dp: bool,
}

/// The two pieces a straddling face splits into, the front piece first.
pub open spec fn split_halves(f: Face, p: Vec2, n: Vec2) -> (Face, Face) {
    let i = crate::util::isect_point(f.vertices[0], sub_of(f.vertices[1], f.vertices[0]), p, n);
    if le_of(int_val(0), dot_of(sub_of(f.vertices[0], p), n)) {
        (face_new_spec(f.vertices[0], i), face_new_spec(i, f.vertices[1]))
    } else {
        (face_new_spec(i, f.vertices[1]), face_new_spec(f.vertices[0], i))
    }
}

/// Where one face goes when classified against the splitter's plane.
pub open spec fn route_one(acc: Buckets, f: Face, p: Vec2, n: Vec2) -> Buckets {
    match side_of_spec(f.vertices[0], f.vertices[1], p, n) {
        Side::Front => Buckets {
            front: acc.front.push(f),
            back: acc.back,
            coplanar: acc.coplanar,
            dp: acc.dp,
        },
        Side::Back => Buckets {
            front: acc.front,
            back: acc.back.push(f),
            coplanar: acc.coplanar,
            dp: acc.dp,
        },
        Side::Coplanar => Buckets {
            front: acc.front,
            back: acc.back,
            coplanar: acc.coplanar.push(f),
            dp: acc.dp || lt_of(dot_of(f.normal, n), int_val(0)),
        },
        Side::Intersecting => {
            let halves = split_halves(f, p, n);
            Buckets {
                front: acc.front.push(halves.0),
                back: acc.back.push(halves.1),
                coplanar: acc.coplanar,
                dp: acc.dp,
            }
        },
    }
}

/// The routing of a whole run of faces, from the left.
pub open spec fn route_all(faces: Seq<Face>, p: Vec2, n: Vec2) -> Buckets
    decreases faces.len(),
{
    if faces.len() == 0 {
        Buckets { front: Seq::empty(), back: Seq::empty(), coplanar: Seq::empty(), dp: false }
    } else {
        route_one(route_all(faces.drop_last(), p, n), faces.last(), p, n)
    }
}

/// Each face contributes at most one piece to either bucket.
pub proof fn lemma_route_all_lens(faces: Seq<Face>, p: Vec2, n: Vec2)
    ensures
        route_all(faces, p, n).front.len() <= faces.len(),
        route_all(faces, p, n).back.len() <= faces.len(),
    decreases faces.len(),
{
    if faces.len() > 0 {
        lemma_route_all_lens(faces.drop_last(), p, n);
    }
}

/// The nodes the builder appends to an arena of `base` entries for this
/// run of faces: the front subtree, then the back subtree, then the node
/// itself, children referred to by their final position.
pub open spec fn build_model(base: int, faces: Seq<Face>, depth: nat) -> Seq<NodeModel>
    decreases faces.len()
        via build_model_decreases
{
    if faces.len() == 0 {
        Seq::empty()
    } else {
        let current = faces[0];
        let p = current.vertices[0];
        let n = current.normal;
        let acc = route_all(faces.subrange(1, faces.len() as int), p, n);
        let fronts = build_model(base, acc.front, depth + 1);
        let backs = build_model(base + fronts.len(), acc.back, depth + 1);
        let front_ix = if acc.front.len() == 0 {
            None
        } else {
            Some(NodeIndex((base + fronts.len() - 1) as usize))
        };
        let back_ix = if acc.back.len() == 0 {
            None
        } else {
            Some(NodeIndex((base + fronts.len() + backs.len() - 1) as usize))
        };
        let node = NodeModel {
            origin: midpoint_of(current.vertices[0], current.vertices[1]),
            normal: n,
            front: front_ix,
            back: back_ix,
            faces: Seq::empty().push(current) + acc.coplanar,
            depth,
            double_planar: acc.dp,
        };
        fronts + backs + Seq::empty().push(node)
    }
}

#[via_fn]
proof fn build_model_decreases(base: int, faces: Seq<Face>, depth: nat) {
    if faces.len() > 0 {
        lemma_route_all_lens(
            faces.subrange(1, faces.len() as int),
            faces[0].vertices[0],
            faces[0].normal,
        );
    }
}

/// The models of a whole arena, in order.
pub open spec fn models(nodes: Seq<BSPNode>) -> Seq<NodeModel>
    decreases nodes.len(),
{
    if nodes.len() == 0 {
        Seq::empty()
    } else {
        models(nodes.drop_last()).push(nodes.last().model())
    }
}

pub proof fn lemma_models_len(nodes: Seq<BSPNode>)
    ensures
        models(nodes).len() == nodes.len(),
    decreases nodes.len(),
{
    if nodes.len() > 0 {
        lemma_models_len(nodes.drop_last());
    }
}

pub proof fn lemma_models_index(nodes: Seq<BSPNode>, i: int)
    requires
        0 <= i < nodes.len(),
    ensures
        models(nodes).len() == nodes.len(),
        models(nodes)[i] == nodes[i].model(),
    decreases nodes.len(),
{
    lemma_models_len(nodes);
    if i < nodes.len() - 1 {
        lemma_models_index(nodes.drop_last(), i);
    }
}

/// The child ordering, read off the models alone.
pub open spec fn models_arena_wf(ns: Seq<NodeModel>) -> bool {
    forall|i: int|
        0 <= i < ns.len() ==> child_lt((#[trigger] ns[i]).front, i) && child_lt(ns[i].back, i)
            && ns[i].faces.len() >= 1
}

pub proof fn lemma_models_arena_wf(nodes: Seq<BSPNode>)
    requires
        arena_wf(nodes),
    ensures
        models_arena_wf(models(nodes)),
{
    lemma_models_len(nodes);
    assert forall|i: int|
        0 <= i < models(nodes).len() implies child_lt((#[trigger] models(nodes)[i]).front, i)
            && child_lt(models(nodes)[i].back, i) && models(nodes)[i].faces.len() >= 1 by {
        lemma_models_index(nodes, i);
        assert(nodes[i].wf(i));
    }
}

/// Whether a child handle stays strictly below the owning index.
pub open spec fn child_lt(c: Option<NodeIndex>, i: int) -> bool {
    match c {
        Some(x) => x.0 < i,
        None => true,
    }
}

impl BSPNode {
    /// The observable content of the node.
    pub open spec fn model(self) -> NodeModel {
        NodeModel {
            origin: self.origin,
            normal: self.normal,
            front: self.front,
            back: self.back,
            faces: self.faces@,
            depth: self.depth as nat,
            double_planar: self.double_planar,
        }
    }

    /// The splitting plane's reference point used during construction: the
    /// first vertex of the defining face.
    pub open spec fn plane_point(self) -> Vec2 {
        self.faces@[0].vertices[0]
    }

    /// What construction guarantees of a node stored at index `i`:
    /// children sit strictly below `i`; the node keeps at least its
    /// defining face; the plane is the defining face's; every stored face
    /// is well formed; every coplanar face after the first classified
    /// `Coplanar` on the plane; and `double_planar` holds exactly when a
    /// coplanar face after the first opposes the plane normal.
    pub open spec fn wf(self, i: int) -> bool {
        &&& child_lt(self.front, i)
        &&& child_lt(self.back, i)
        &&& self.faces@.len() >= 1
        &&& self.normal == self.faces@[0].normal
        &&& self.origin == midpoint_of(self.faces@[0].vertices[0], self.faces@[0].vertices[1])
        &&& forall|k: int| 0 <= k < self.faces@.len() ==> self.faces@[k].wf()
        &&& forall|k: int|
            1 <= k < self.faces@.len() ==> side_of_spec(
                self.faces@[k].vertices[0],
                self.faces@[k].vertices[1],
                self.plane_point(),
                self.normal,
            ) == Side::Coplanar
        &&& self.double_planar == exists|k: int|
            1 <= k < self.faces@.len() && lt_of(dot_of(self.faces@[k].normal, self.normal), int_val(0))
    }

    /// Classifies a point against the node's splitting plane.
    pub fn get_side(&self, point: Vec2) -> (r: Side)
        ensures
            r == point_side_spec(point, self.origin, self.normal),
    {
        let d = vec_dot(vec_sub(point, self.origin), self.normal);
        let t = tolerance();
        let abs_d = Scalar(vec_abs(d.0));
        let zero = vec_from_int(0);
        if vec_lt(&abs_d, &t) {
            Side::Coplanar
        } else if vec_le(&d, &zero) {
            Side::Back
        } else {
            Side::Front
        }
    }

    /// Get the node's front child.
    pub fn front(&self) -> (r: Option<NodeIndex>)
        ensures
            r == self.front,
    {
        self.front
    }

    /// Get the node's back child.
    pub fn back(&self) -> (r: Option<NodeIndex>)
        ensures
            r == self.back,
    {
        self.back
    }

    /// Get the node's normal.
    pub fn normal(&self) -> (r: Vec2)
        ensures
            r == self.normal,
    {
        self.normal
    }

    /// Get the node's origin.
    pub fn origin(&self) -> (r: Vec2)
        ensures
            r == self.origin,
    {
        self.origin
    }

    /// Get the node's depth.
    pub fn depth(&self) -> (r: usize)
        ensures
            r == self.depth,
    {
        self.depth
    }

    /// Whether the node stands on both sides of its plane.
    pub fn double_planar(&self) -> (r: bool)
        ensures
            r == self.double_planar,
    {
        self.double_planar
    }

    pub fn is_leaf(&self) -> (r: bool)
        ensures
            r == (self.front is None && self.back is None),
    {
        self.front.is_none() && self.back.is_none()
    }

    /// Get the faces lying on the node's plane.
    pub fn faces(&self) -> (r: &Vec<Face>)
        ensures
            r == self.faces,
    {
        &self.faces
    }

    /// Builds the subtree for `faces` into the arena and returns the handle
    /// of its root, `None` when there are no faces.  The first face becomes
    /// the splitting plane; every other face is classified against it and
    /// routed to the front or back bucket, kept on the node when coplanar,
    /// or split and its halves routed by their own classification.  The
    /// appended nodes are exactly `build_model` of the input, which makes
    /// construction a function of the face order alone.
    #[verifier::rlimit(60)]
    pub fn from_faces(nodes: &mut Vec<BSPNode>, faces: &Vec<Face>, depth: usize) -> (r: Option<
        NodeIndex,
    >)
        requires
            arena_wf(old(nodes)@),
            forall|k: int| 0 <= k < faces@.len() ==> faces@[k].wf(),
            depth + faces@.len() <= usize::MAX,
        ensures
            arena_wf(final(nodes)@),
            old(nodes)@.is_prefix_of(final(nodes)@),
            r is Some <==> faces@.len() > 0,
            r is None ==> final(nodes)@ == old(nodes)@,
            r matches Some(ix) ==> final(nodes)@.len() > old(nodes)@.len() && ix.0 == final(nodes)@.len() - 1,
            r matches Some(ix) ==> {
                let node = final(nodes)@[ix.0 as int];
                &&& node.faces@[0] == faces@[0]
                &&& node.normal == faces@[0].normal
                &&& node.origin == midpoint_of(faces@[0].vertices[0], faces@[0].vertices[1])
                &&& node.depth == depth
            },
            models(final(nodes)@) == models(old(nodes)@) + build_model(
                old(nodes)@.len() as int,
                faces@,
                depth as nat,
            ),
        decreases faces@.len(),
    {
        if faces.len() == 0 {
            proof {
                assert(models(nodes@) + build_model(nodes@.len() as int, faces@, depth as nat)
                    =~= models(nodes@));
            }
            return None;
        }
        let current = faces[0];
        let p = current.vertices[0];
        let normal = current.normal;
        let zero = vec_from_int(0);

        let mut front_bucket: Vec<Face> = Vec::new();
        let mut back_bucket: Vec<Face> = Vec::new();
        let mut coplanar: Vec<Face> = Vec::new();
        coplanar.push(current);
        let mut double_planar = false;

        let mut i: usize = 1;
        while i < faces.len()
            invariant
                1 <= i <= faces@.len(),
                forall|k: int| 0 <= k < faces@.len() ==> faces@[k].wf(),
                front_bucket@.len() <= i - 1,
                back_bucket@.len() <= i - 1,
                forall|k: int| 0 <= k < front_bucket@.len() ==> front_bucket@[k].wf(),
                forall|k: int| 0 <= k < back_bucket@.len() ==> back_bucket@[k].wf(),
                coplanar@.len() >= 1,
                coplanar@[0] == current,
                forall|k: int| 0 <= k < coplanar@.len() ==> coplanar@[k].wf(),
                forall|k: int|
                    1 <= k < coplanar@.len() ==> side_of_spec(
                        coplanar@[k].vertices[0],
                        coplanar@[k].vertices[1],
                        current.vertices[0],
                        normal,
                    ) == Side::Coplanar,
                double_planar == exists|k: int|
                    1 <= k < coplanar@.len() && lt_of(dot_of(coplanar@[k].normal, normal), int_val(0)),
                normal == current.normal,
                p == current.vertices[0],
                current.wf(),
                current == faces@[0],
                zero.0 == int_val(0),
                ({
                    let acc = route_all(faces@.subrange(1, i as int), p, normal);
                    &&& front_bucket@ == acc.front
                    &&& back_bucket@ == acc.back
                    &&& coplanar@ == Seq::empty().push(current) + acc.coplanar
                    &&& double_planar == acc.dp
                }),
            decreases faces@.len() - i,
        {
            let face = faces[i];
            let ghost acc_pre = route_all(faces@.subrange(1, i as int), p, normal);
            let side = face.side_of(p, normal);
            match side {
                Side::Front => front_bucket.push(face),
                Side::Back => back_bucket.push(face),
                Side::Coplanar => {
                    let opposed = vec_lt(&vec_dot(face.normal, normal), &zero);
                    let ghost old_coplanar = coplanar@;
                    let ghost old_dp = double_planar;
                    coplanar.push(face);
                    double_planar = double_planar || opposed;
                    proof {
                        lemma_dp_push(old_coplanar, face, normal, old_dp, opposed);
                    }
                }
                Side::Intersecting => {
                    let halves = face.split(p, normal);
                    front_bucket.push(halves[0]);
                    back_bucket.push(halves[1]);
                }
            }
            proof {
                assert(faces@.subrange(1, i + 1).drop_last() =~= faces@.subrange(1, i as int));
                assert(faces@.subrange(1, i + 1).last() == faces@[i as int]);
                assert(route_all(faces@.subrange(1, i + 1), p, normal) == route_one(
                    acc_pre,
                    faces@[i as int],
                    p,
                    normal,
                ));
                let acc_post = route_one(acc_pre, faces@[i as int], p, normal);
                assert(coplanar@ =~= Seq::empty().push(current) + acc_post.coplanar);
                assert(front_bucket@ =~= acc_post.front);
                assert(back_bucket@ =~= acc_post.back);
            }
            i = i + 1;
        }

        let ghost base = nodes@.len() as int;
        let ghost n0 = nodes@;
        let ghost acc = route_all(faces@.subrange(1, faces@.len() as int), p, normal);
        proof {
            assert(front_bucket@ == acc.front);
            assert(back_bucket@ == acc.back);
        }

        let front = Self::from_faces(nodes, &front_bucket, depth + 1);
        let ghost n1 = nodes@;
        let back = Self::from_faces(nodes, &back_bucket, depth + 1);
        let ghost n2 = nodes@;

        let origin = current.midpoint();
        let node = BSPNode {
            origin,
            faces: coplanar,
            normal,
            front,
            back,
            depth,
            double_planar,
        };
        let ghost pre = nodes@;
        nodes.push(node);
        proof {
            assert forall|j: int| 0 <= j < nodes@.len() implies nodes@[j].wf(j) by {
                if j < pre.len() {
                    assert(pre[j].wf(j));
                }
            }
            // The appended run of nodes is exactly what the model builds.
            let fronts = build_model(base, acc.front, (depth + 1) as nat);
            lemma_models_len(n0);
            lemma_models_len(n1);
            lemma_models_len(n2);
            assert(models(n1) == models(n0) + fronts);
            assert(n1.len() as int == base + fronts.len());
            let backs = build_model(base + fronts.len(), acc.back, (depth + 1) as nat);
            assert(models(n2) == models(n1) + backs);
            assert(nodes@.drop_last() =~= n2);
            assert(models(nodes@) == models(n2).push(node.model()));
            let m = build_model(old(nodes)@.len() as int, faces@, depth as nat);
            let model_node = NodeModel {
                origin: midpoint_of(faces@[0].vertices[0], faces@[0].vertices[1]),
                normal: faces@[0].normal,
                front: if acc.front.len() == 0 {
                    None
                } else {
                    Some(NodeIndex((base + fronts.len() - 1) as usize))
                },
                back: if acc.back.len() == 0 {
                    None
                } else {
                    Some(NodeIndex((base + fronts.len() + backs.len() - 1) as usize))
                },
                faces: Seq::empty().push(faces@[0]) + acc.coplanar,
                depth: depth as nat,
                double_planar: acc.dp,
            };
            assert(m == fronts + backs + Seq::empty().push(model_node));
            assert(node.model().faces =~= model_node.faces);
            assert(node.model().front == model_node.front);
            assert(node.model().back == model_node.back);
            assert(node.model() == model_node);
            assert(models(nodes@) =~= models(old(nodes)@) + m);
        }
        Some(NodeIndex(nodes.len() - 1))
    }
}


/// The side the faces containing `p` assign to `other`, folded over the
/// faces from the left, the back side winning when several contain the
/// point.
pub open spec fn adjacent_side_model(faces: Seq<Face>, p: Vec2, other: Vec2) -> Option<Side>
    decreases faces.len(),
{
    if faces.len() == 0 {
        None
    } else {
        let acc = adjacent_side_model(faces.drop_last(), p, other);
        let f = faces.last();
        if contains_point_spec(f.vertices[0], f.vertices[1], p) {
            let s = if lt_of(int_val(0), dot_of(sub_of(other, f.vertices[0]), f.normal)) {
                Side::Front
            } else {
                Side::Back
            };
            match acc {
                None => Some(s),
                Some(prev) => Some(
                    if prev == Side::Back || s == Side::Back {
                        Side::Back
                    } else {
                        prev
                    },
                ),
            }
        } else {
            acc
        }
    }
}

/// How many times one straddling piece may be re-split at a single node
/// before it is dropped; with the classification tolerance one re-split
/// already settles every piece that arises in practice.
pub const CLIP_REENTRY_FUEL: usize = 32;


/// The two pieces a straddling clipped face splits into: the first keeps
/// the first vertex and its adjacency flag, the cut ends are open, the
/// side tags reset.
pub open spec fn split_cf_model(cf: ClippedFace, p: Vec2, n: Vec2) -> (ClippedFace, ClippedFace) {
    let i = crate::util::isect_point(
        cf.face.vertices[0],
        sub_of(cf.face.vertices[1], cf.face.vertices[0]),
        p,
        n,
    );
    (
        ClippedFace {
            face: face_new_spec(cf.face.vertices[0], i),
            sides: [Side::Front, Side::Front],
            adjacent: [cf.adjacent[0], false],
            src: cf.src,
            dst: cf.dst,
        },
        ClippedFace {
            face: face_new_spec(i, cf.face.vertices[1]),
            sides: [Side::Front, Side::Front],
            adjacent: [false, cf.adjacent[1]],
            src: cf.src,
            dst: cf.dst,
        },
    )
}

/// An endpoint of the candidate resting on the node's plane docks against
/// the node's faces: the adjacency flag is raised and the faces override
/// the endpoint's side tag.
pub open spec fn override_ends(node: NodeModel, portal: ClippedFace) -> ClippedFace {
    let a = dot_of(sub_of(portal.face.vertices[0], node.origin), node.normal);
    let p1 = if lt_of(abs_of(a), tol()) {
        match adjacent_side_model(node.faces, portal.face.vertices[0], portal.face.vertices[1]) {
            Some(ad) => ClippedFace {
                face: portal.face,
                sides: [ad, portal.sides[1]],
                adjacent: [true, portal.adjacent[1]],
                src: portal.src,
                dst: portal.dst,
            },
            None => portal,
        }
    } else {
        portal
    };
    let b = dot_of(sub_of(p1.face.vertices[1], node.origin), node.normal);
    if lt_of(abs_of(b), tol()) {
        match adjacent_side_model(node.faces, p1.face.vertices[1], p1.face.vertices[0]) {
            Some(ad) => ClippedFace {
                face: p1.face,
                sides: [p1.sides[0], ad],
                adjacent: [p1.adjacent[0], true],
                src: p1.src,
                dst: p1.dst,
            },
            None => p1,
        }
    } else {
        p1
    }
}

/// What clipping a candidate down the subtree at `index` returns.
pub open spec fn clip_model(
    ns: Seq<NodeModel>,
    index: int,
    portal: ClippedFace,
    root_side: Side,
    fuel: int,
) -> Seq<ClippedFace>
    decreases index, fuel, 1int,
        when models_arena_wf(ns) && 0 <= index < ns.len()
{
    let node = ns[index];
    let pp = override_ends(node, portal);
    let side = side_of_spec(pp.face.vertices[0], pp.face.vertices[1], node.origin, node.normal);
    match (side, node.front, node.back) {
        (Side::Coplanar, Some(front), Some(back)) => clip_through_back(
            ns,
            back.0 as int,
            clip_model(ns, front.0 as int, pp, Side::Front, CLIP_REENTRY_FUEL as int),
        ),
        (Side::Coplanar, Some(front), None) => clip_model(
            ns,
            front.0 as int,
            pp,
            Side::Front,
            CLIP_REENTRY_FUEL as int,
        ),
        (Side::Coplanar, None, Some(back)) => clip_model(
            ns,
            back.0 as int,
            pp,
            Side::Back,
            CLIP_REENTRY_FUEL as int,
        ),
        (Side::Front, Some(front), _) => clip_model(
            ns,
            front.0 as int,
            pp,
            root_side,
            CLIP_REENTRY_FUEL as int,
        ),
        (Side::Back, _, Some(back)) => clip_model(
            ns,
            back.0 as int,
            pp,
            root_side,
            CLIP_REENTRY_FUEL as int,
        ),
        (Side::Intersecting, _, _) => {
            if fuel <= 0 {
                Seq::empty()
            } else {
                let halves = split_cf_model(pp, node.origin, node.normal);
                clip_model(ns, index, halves.0, root_side, fuel - 1) + clip_model(
                    ns,
                    index,
                    halves.1,
                    root_side,
                    fuel - 1,
                )
            }
        },
        _ => {
            let landed = if root_side == Side::Back {
                ClippedFace {
                    face: pp.face,
                    sides: pp.sides,
                    adjacent: pp.adjacent,
                    src: pp.src,
                    dst: NodeIndex(index as usize),
                }
            } else {
                ClippedFace {
                    face: pp.face,
                    sides: pp.sides,
                    adjacent: pp.adjacent,
                    src: NodeIndex(index as usize),
                    dst: pp.dst,
                }
            };
            Seq::empty().push(landed)
        },
    }
}

/// Clips every piece in turn through the back child of a coplanar node.
pub open spec fn clip_through_back(ns: Seq<NodeModel>, back: int, pieces: Seq<ClippedFace>) -> Seq<
    ClippedFace,
>
    decreases back, CLIP_REENTRY_FUEL as int + 1, pieces.len(),
        when models_arena_wf(ns) && 0 <= back < ns.len()
{
    if pieces.len() == 0 {
        Seq::empty()
    } else {
        clip_through_back(ns, back, pieces.drop_last()) + clip_model(
            ns,
            back,
            pieces.last(),
            Side::Back,
            CLIP_REENTRY_FUEL as int,
        )
    }
}


/// The running extremes while the node's splitting line is cast against
/// the ancestor clipping planes.
pub struct Cast {
    pub max_pt: Vec2,
    pub max_d: Vec2,
    pub adj0: bool,
    pub min_pt: Vec2,
    pub min_d: Vec2,
    pub adj1: bool,
}

/// Casting the line `origin + dir * t` against every clipping plane from
/// the left: the smallest positive and the closest negative parameter
/// survive, each remembering whether its point lies within the segment of
/// the plane that produced it.
pub open spec fn cast_model(planes: Seq<Face>, origin: Vec2, dir: Vec2) -> Cast
    decreases planes.len(),
{
    if planes.len() == 0 {
        Cast {
            max_pt: int_val(0),
            max_d: inf(),
            adj0: false,
            min_pt: int_val(0),
            min_d: inf(),
            adj1: false,
        }
    } else {
        let c = cast_model(planes.drop_last(), origin, dir);
        let val = planes.last();
        let d = crate::util::isect_param(origin, dir, val.vertices[0], val.normal);
        let pt = crate::util::isect_point(origin, dir, val.vertices[0], val.normal);
        if finite_of(d) {
            let ad = contains_point_spec(val.vertices[0], val.vertices[1], pt);
            let c1 = if lt_of(int_val(0), d) && lt_of(d, c.max_d) {
                Cast {
                    max_pt: pt,
                    max_d: d,
                    adj0: ad,
                    min_pt: c.min_pt,
                    min_d: c.min_d,
                    adj1: c.adj1,
                }
            } else {
                c
            };
            if lt_of(d, int_val(0)) && lt_of(abs_of(d), abs_of(c1.min_d)) {
                Cast {
                    max_pt: c1.max_pt,
                    max_d: c1.max_d,
                    adj0: c1.adj0,
                    min_pt: pt,
                    min_d: d,
                    adj1: ad,
                }
            } else {
                c1
            }
        } else {
            c
        }
    }
}

/// Whether any wall of `walls` overlaps `face` by more than the
/// tolerance.
pub open spec fn overlaps_any_model(walls: Seq<Face>, face: Face) -> bool
    decreases walls.len(),
{
    if walls.len() == 0 {
        false
    } else {
        overlaps_any_model(walls.drop_last(), face) || overlaps_spec(
            walls.last().vertices[0],
            walls.last().vertices[1],
            face.vertices[0],
            face.vertices[1],
        )
    }
}

/// Whether a clipped piece becomes a portal: it separates two distinct
/// leaves through open endpoints and does not coincide with a wall on the
/// node's plane.
pub open spec fn published(piece: ClippedFace, walls: Seq<Face>) -> bool {
    &&& piece.src != piece.dst
    &&& piece.sides[0] == Side::Front
    &&& piece.sides[1] == Side::Front
    &&& !overlaps_any_model(walls, piece.face)
}

/// The pieces that survive the publishing filter, in order.
pub open spec fn publish_model(pieces: Seq<ClippedFace>, walls: Seq<Face>) -> Seq<ClippedFace>
    decreases pieces.len(),
{
    if pieces.len() == 0 {
        Seq::empty()
    } else {
        let rest = publish_model(pieces.drop_last(), walls);
        if published(pieces.last(), walls) {
            rest.push(pieces.last())
        } else {
            rest
        }
    }
}

/// The portals of the subtree at `index`: the node's own surviving
/// pieces, then the front subtree's, then the back subtree's, each child
/// clipping against the ancestors' planes extended by this node's faces.
pub open spec fn generate_model(ns: Seq<NodeModel>, index: int, planes: Seq<Face>) -> Seq<
    ClippedFace,
>
    decreases index,
        when models_arena_wf(ns) && 0 <= index < ns.len()
{
    let node = ns[index];
    let dir = perp_of(node.normal);
    let c = cast_model(planes, node.origin, dir);
    let candidate = ClippedFace {
        face: face_new_spec(c.max_pt, c.min_pt),
        sides: [Side::Front, Side::Front],
        adjacent: [c.adj0, c.adj1],
        src: NodeIndex(index as usize),
        dst: NodeIndex(index as usize),
    };
    let mine = publish_model(
        clip_model(ns, index, candidate, Side::Front, CLIP_REENTRY_FUEL as int),
        node.faces,
    );
    let planes2 = planes + node.faces;
    let fronts = match node.front {
        Some(f) => generate_model(ns, f.0 as int, planes2),
        None => Seq::empty(),
    };
    let backs = match node.back {
        Some(b) => generate_model(ns, b.0 as int, planes2),
        None => Seq::empty(),
    };
    mine + fronts + backs
}

/// Every clipped face of `s` refers to leaves inside an arena of `n`
/// nodes, and carries well-formed geometry.
pub open spec fn clips_in_range(s: Seq<ClippedFace>, n: int) -> bool {
    forall|k: int|
        0 <= k < s.len() ==> (#[trigger] s[k]).src.0 < n && s[k].dst.0 < n && s[k].face.wf()
}

impl BSPNode {
    /// The side of the segment endpoints against the faces stored on this
    /// node that contain `p`: front or back by where `other` lies, the
    /// back side winning when several faces contain the point.
    fn get_adjacent_side(&self, p: Vec2, other: Vec2) -> (r: Option<Side>)
        ensures
            r == adjacent_side_model(self.faces@, p, other),
    {
        let zero = vec_from_int(0);
        let mut acc: Option<Side> = None;
        let mut k: usize = 0;
        while k < self.faces.len()
            invariant
                0 <= k <= self.faces@.len(),
                zero.0 == int_val(0),
                acc == adjacent_side_model(self.faces@.take(k as int), p, other),
            decreases self.faces@.len() - k,
        {
            let f = &self.faces[k];
            if f.contains_point(p) {
                let d = vec_dot(vec_sub(other, f.vertices[0]), f.normal);
                let s = if vec_lt(&zero, &d) {
                    Side::Front
                } else {
                    Side::Back
                };
                acc = Some(
                    match acc {
                        None => s,
                        Some(prev) => prev.min(s),
                    },
                );
            }
            proof {
                assert(self.faces@.take(k + 1).drop_last() =~= self.faces@.take(k as int));
                assert(self.faces@.take(k + 1).last() == self.faces@[k as int]);
            }
            k = k + 1;
        }
        proof {
            assert(self.faces@.take(self.faces@.len() as int) =~= self.faces@);
        }
        acc
    }

    /// Clips a candidate portal down the subtree at `index` and returns
    /// the surviving pieces, each tagged with the leaves found on its two
    /// sides.
    pub fn clip(
        index: NodeIndex,
        nodes: &Vec<BSPNode>,
        portal: ClippedFace,
        root_side: Side,
    ) -> (r: Vec<ClippedFace>)
        requires
            arena_wf(nodes@),
            index.0 < nodes@.len(),
            portal.src.0 < nodes@.len(),
            portal.dst.0 < nodes@.len(),
            portal.face.wf(),
        ensures
            clips_in_range(r@, nodes@.len() as int),
            r@ == clip_model(
                models(nodes@),
                index.0 as int,
                portal,
                root_side,
                CLIP_REENTRY_FUEL as int,
            ),
    {
        Self::clip_bounded(index, nodes, portal, root_side, CLIP_REENTRY_FUEL)
    }

    /// The recursive worker behind [`Self::clip`].  The fuel bounds the
    /// re-entries a straddling piece may cause at one node; the tolerance
    /// makes more than one re-split of the same piece impossible in
    /// practice, and an exhausted budget drops the piece.
    fn clip_bounded(
        index: NodeIndex,
        nodes: &Vec<BSPNode>,
        portal: ClippedFace,
        root_side: Side,
        fuel: usize,
    ) -> (r: Vec<ClippedFace>)
        requires
            arena_wf(nodes@),
            index.0 < nodes@.len(),
            portal.src.0 < nodes@.len(),
            portal.dst.0 < nodes@.len(),
            portal.face.wf(),
        ensures
            clips_in_range(r@, nodes@.len() as int),
            r@ == clip_model(models(nodes@), index.0 as int, portal, root_side, fuel as int),
        decreases index.0, fuel,
    {
        let node = &nodes[index.0];
        let ghost ns = models(nodes@);
        let ghost orig = portal;
        proof {
            assert(nodes@[index.0 as int].wf(index.0 as int));
            lemma_models_arena_wf(nodes@);
            lemma_models_index(nodes@, index.0 as int);
        }
        let mut portal = portal;
        let t = tolerance();

        // An endpoint resting on this node's plane docks against the
        // node's faces: record adjacency and let the faces override the
        // endpoint's side tag.
        let a = vec_dot(vec_sub(portal.face.vertices[0], node.origin), node.normal);
        let abs_a = Scalar(vec_abs(a.0));
        if vec_lt(&abs_a, &t) {
            if let Some(ad) = node.get_adjacent_side(portal.face.vertices[0], portal.face.vertices[1]) {
                portal.adjacent = [true, portal.adjacent[1]];
                portal.sides = [ad, portal.sides[1]];
            }
        }
        let b = vec_dot(vec_sub(portal.face.vertices[1], node.origin), node.normal);
        let abs_b = Scalar(vec_abs(b.0));
        if vec_lt(&abs_b, &t) {
            if let Some(ad) = node.get_adjacent_side(portal.face.vertices[1], portal.face.vertices[0]) {
                portal.adjacent = [portal.adjacent[0], true];
                portal.sides = [portal.sides[0], ad];
            }
        }

        proof {
            assert(portal == override_ends(ns[index.0 as int], orig));
        }
        let side = portal.face.side_of(node.origin, node.normal);

        match (side, node.front, node.back) {
            (Side::Coplanar, Some(front), Some(back)) => {
                let first = Self::clip_bounded(front, nodes, portal, Side::Front, CLIP_REENTRY_FUEL);
                let mut out: Vec<ClippedFace> = Vec::new();
                let mut k: usize = 0;
                while k < first.len()
                    invariant
                        arena_wf(nodes@),
                        ns == models(nodes@),
                        models_arena_wf(ns),
                        back.0 < nodes@.len(),
                        back.0 < index.0,
                        ns.len() == nodes@.len(),
                        clips_in_range(first@, nodes@.len() as int),
                        clips_in_range(out@, nodes@.len() as int),
                        0 <= k <= first@.len(),
                        out@ == clip_through_back(ns, back.0 as int, first@.take(k as int)),
                    decreases first@.len() - k,
                {
                    let mut piece = Self::clip_bounded(back, nodes, first[k], Side::Back, CLIP_REENTRY_FUEL);
                    out.append(&mut piece);
                    proof {
                        assert(first@.take(k + 1).drop_last() =~= first@.take(k as int));
                        assert(first@.take(k + 1).last() == first@[k as int]);
                    }
                    k = k + 1;
                }
                proof {
                    assert(first@.take(first@.len() as int) =~= first@);
                }
                out
            }
            (Side::Coplanar, Some(front), None) => Self::clip_bounded(front, nodes, portal, Side::Front, CLIP_REENTRY_FUEL),
            (Side::Coplanar, None, Some(back)) => Self::clip_bounded(back, nodes, portal, Side::Back, CLIP_REENTRY_FUEL),
            (Side::Front, Some(front), _) => Self::clip_bounded(front, nodes, portal, root_side, CLIP_REENTRY_FUEL),
            (Side::Back, _, Some(back)) => Self::clip_bounded(back, nodes, portal, root_side, CLIP_REENTRY_FUEL),
            (Side::Intersecting, _, _) => {
                if fuel == 0 {
                    Vec::new()
                } else {
                    let halves = portal.split(node.origin, node.normal);
                    let mut out = Self::clip_bounded(index, nodes, halves[0], root_side, fuel - 1);
                    let mut rest = Self::clip_bounded(index, nodes, halves[1], root_side, fuel - 1);
                    out.append(&mut rest);
                    out
                }
            }
            _ => {
                if root_side == Side::Back {
                    portal.dst = index;
                } else {
                    portal.src = index;
                }
                let mut out: Vec<ClippedFace> = Vec::new();
                out.push(portal);
                proof {
                    assert(out@ =~= clip_model(ns, index.0 as int, orig, root_side, fuel as int));
                }
                out
            }
        }
    }

    /// Casts the node's splitting line against the ancestor clipping
    /// planes, clips the bounded candidate against the whole subtree, and
    /// appends every surviving piece that separates two distinct leaves
    /// through open endpoints and does not coincide with a wall on this
    /// plane.  Recurses with the node's own faces added to the clipping
    /// planes.
    pub fn generate_portals(
        index: NodeIndex,
        nodes: &Vec<BSPNode>,
        clipping_planes: &Vec<Face>,
        result: &mut Vec<ClippedFace>,
    )
        requires
            arena_wf(nodes@),
            index.0 < nodes@.len(),
            portals_ok(old(result)@, nodes@.len() as int),
        ensures
            portals_ok(final(result)@, nodes@.len() as int),
            old(result)@.is_prefix_of(final(result)@),
            final(result)@ == old(result)@ + generate_model(
                models(nodes@),
                index.0 as int,
                clipping_planes@,
            ),
        decreases index.0,
    {
        let node = &nodes[index.0];
        let ghost ns = models(nodes@);
        let ghost pre = result@;
        proof {
            assert(nodes@[index.0 as int].wf(index.0 as int));
            lemma_models_arena_wf(nodes@);
            lemma_models_index(nodes@, index.0 as int);
        }
        let dir = vec_perp(node.normal);
        let zero = vec_from_int(0);
        let origin = node.origin;
        let inf_s = infinity();
        let mut min_i = Intersect { point: zero.0, distance: inf_s };
        let mut max_i = Intersect { point: zero.0, distance: inf_s };
        let mut adj0 = false;
        let mut adj1 = false;

        let mut k: usize = 0;
        while k < clipping_planes.len()
            invariant
                0 <= k <= clipping_planes@.len(),
                zero.0 == int_val(0),
                origin == ns[index.0 as int].origin,
                dir == perp_of(ns[index.0 as int].normal),
                index.0 < ns.len(),
                ({
                    let c = cast_model(clipping_planes@.take(k as int), origin, dir);
                    &&& max_i.point == c.max_pt
                    &&& max_i.distance.0 == c.max_d
                    &&& adj0 == c.adj0
                    &&& min_i.point == c.min_pt
                    &&& min_i.distance.0 == c.min_d
                    &&& adj1 == c.adj1
                }),
            decreases clipping_planes@.len() - k,
        {
            let val = &clipping_planes[k];
            let isect = face_intersect_dir(origin, dir, val.vertices[0], val.normal);
            if vec_is_finite(&isect.distance) {
                let ad = val.contains_point(isect.point);
                if vec_lt(&zero, &isect.distance) && vec_lt(&isect.distance, &max_i.distance) {
                    max_i = isect;
                    adj0 = ad;
                }
                let abs_d = Scalar(vec_abs(isect.distance.0));
                let abs_min = Scalar(vec_abs(min_i.distance.0));
                if vec_lt(&isect.distance, &zero) && vec_lt(&abs_d, &abs_min) {
                    min_i = isect;
                    adj1 = ad;
                }
            }
            proof {
                assert(clipping_planes@.take(k + 1).drop_last() =~= clipping_planes@.take(
                    k as int,
                ));
                assert(clipping_planes@.take(k + 1).last() == clipping_planes@[k as int]);
            }
            k = k + 1;
        }
        proof {
            assert(clipping_planes@.take(clipping_planes@.len() as int) =~= clipping_planes@);
        }

        let portal = ClippedFace::new(
            [max_i.point, min_i.point],
            [Side::Front, Side::Front],
            [adj0, adj1],
            index,
            index,
        );
        let ghost cand = ClippedFace {
            face: face_new_spec(
                cast_model(clipping_planes@, origin, dir).max_pt,
                cast_model(clipping_planes@, origin, dir).min_pt,
            ),
            sides: [Side::Front, Side::Front],
            adjacent: [
                cast_model(clipping_planes@, origin, dir).adj0,
                cast_model(clipping_planes@, origin, dir).adj1,
            ],
            src: NodeIndex(index.0),
            dst: NodeIndex(index.0),
        };
        proof {
            assert(portal == cand);
        }

        let clipped = Self::clip(index, nodes, portal, Side::Front);
        let mut k: usize = 0;
        while k < clipped.len()
            invariant
                clips_in_range(clipped@, nodes@.len() as int),
                portals_ok(result@, nodes@.len() as int),
                0 <= k <= clipped@.len(),
                index.0 < ns.len(),
                node == nodes@[index.0 as int],
                ns[index.0 as int] == nodes@[index.0 as int].model(),
                pre.is_prefix_of(result@),
                pre == old(result)@,
                result@ == pre + publish_model(clipped@.take(k as int), ns[index.0 as int].faces),
            decreases clipped@.len() - k,
        {
            let val = clipped[k];
            if val.src.0 != val.dst.0 && side_is_front(val.sides[0]) && side_is_front(val.sides[1])
                && !overlaps_any(&node.faces, &val) {
                result.push(val);
            }
            proof {
                assert(clipped@.take(k + 1).drop_last() =~= clipped@.take(k as int));
                assert(clipped@.take(k + 1).last() == clipped@[k as int]);
                if !(val.src.0 != val.dst.0) {
                    assert(val.src == val.dst);
                }
            }
            k = k + 1;
        }
        proof {
            assert(clipped@.take(clipped@.len() as int) =~= clipped@);
        }
        let ghost mine = publish_model(clipped@, ns[index.0 as int].faces);

        // The node's own faces clip the descendants, never the siblings.
        let mut planes2: Vec<Face> = Vec::new();
        let mut k: usize = 0;
        while k < clipping_planes.len()
            invariant
                0 <= k <= clipping_planes@.len(),
                planes2@ == clipping_planes@.take(k as int),
            decreases clipping_planes@.len() - k,
        {
            planes2.push(clipping_planes[k]);
            k = k + 1;
        }
        let mut k: usize = 0;
        while k < node.faces.len()
            invariant
                0 <= k <= node.faces@.len(),
                node == nodes@[index.0 as int],
                planes2@ == clipping_planes@.take(clipping_planes@.len() as int) + node.faces@.take(
                    k as int,
                ),
            decreases node.faces@.len() - k,
        {
            planes2.push(node.faces[k]);
            proof {
                assert(clipping_planes@.take(clipping_planes@.len() as int) + node.faces@.take(
                    k + 1,
                ) =~= (clipping_planes@.take(clipping_planes@.len() as int) + node.faces@.take(
                    k as int,
                )).push(node.faces@[k as int]));
            }
            k = k + 1;
        }
        proof {
            assert(planes2@ =~= clipping_planes@ + ns[index.0 as int].faces);
        }

        if let Some(child) = node.front {
            Self::generate_portals(child, nodes, &planes2, result);
        }
        let ghost after_front = result@;
        if let Some(child) = node.back {
            Self::generate_portals(child, nodes, &planes2, result);
        }
        proof {
            let planes2s = clipping_planes@ + ns[index.0 as int].faces;
            let fronts = match ns[index.0 as int].front {
                Some(f) => generate_model(ns, f.0 as int, planes2s),
                None => Seq::empty(),
            };
            let backs = match ns[index.0 as int].back {
                Some(b) => generate_model(ns, b.0 as int, planes2s),
                None => Seq::empty(),
            };
            assert(after_front =~= pre + mine + fronts);
            assert(result@ =~= pre + mine + fronts + backs);
            assert(result@ =~= pre + generate_model(ns, index.0 as int, clipping_planes@));
        }
    }
}

/// Every entry refers to two distinct in-range leaves through open
/// endpoints.
pub open spec fn portals_ok(s: Seq<ClippedFace>, n: int) -> bool {
    forall|k: int|
        0 <= k < s.len() ==> (#[trigger] s[k]).src.0 < n && s[k].dst.0 < n && s[k].src != s[k].dst
            && s[k].face.wf()
}

fn side_is_front(s: Side) -> (r: bool)
    ensures
        r == (s == Side::Front),
{
    match s {
        Side::Front => true,
        _ => false,
    }
}

fn overlaps_any(faces: &Vec<Face>, val: &ClippedFace) -> (r: bool)
    ensures
        r == overlaps_any_model(faces@, val.face),
{
    let mut k: usize = 0;
    let mut found = false;
    while k < faces.len()
        invariant
            0 <= k <= faces@.len(),
            found == overlaps_any_model(faces@.take(k as int), val.face),
        decreases faces@.len() - k,
    {
        if faces[k].overlaps(&val.face) {
            found = true;
        }
        proof {
            assert(faces@.take(k + 1).drop_last() =~= faces@.take(k as int));
            assert(faces@.take(k + 1).last() == faces@[k as int]);
        }
        k = k + 1;
    }
    proof {
        assert(faces@.take(faces@.len() as int) =~= faces@);
    }
    found
}


/// Tree partition on the stored data: every face a node keeps beyond its
/// defining one classified `Coplanar` against the node's plane when it
/// was routed there, and the double-planar flag holds exactly when one of
/// those faces opposes the plane's normal; children always sit strictly
/// below their parent in the arena, so no handle chain can loop.
pub proof fn lemma_node_partition(nodes: Seq<BSPNode>, i: int)
    requires
        arena_wf(nodes),
        0 <= i < nodes.len(),
    ensures
        forall|k: int|
            1 <= k < nodes[i].faces@.len() ==> side_of_spec(
                nodes[i].faces@[k].vertices[0],
                nodes[i].faces@[k].vertices[1],
                nodes[i].plane_point(),
                nodes[i].normal,
            ) == Side::Coplanar,
        nodes[i].double_planar == exists|k: int|
            1 <= k < nodes[i].faces@.len() && lt_of(
                dot_of(nodes[i].faces@[k].normal, nodes[i].normal),
                int_val(0),
            ),
        child_lt(nodes[i].front, i),
        child_lt(nodes[i].back, i),
{
    assert(nodes[i].wf(i));
}

/// Every node of the arena satisfies its per-index well-formedness.
pub open spec fn arena_wf(nodes: Seq<BSPNode>) -> bool {
    forall|i: int| 0 <= i < nodes.len() ==> nodes[i].wf(i)
}

/// Extending the coplanar list keeps the double-planar flag exact.
proof fn lemma_dp_push(coplanar: Seq<Face>, face: Face, normal: Vec2, dp: bool, opposed: bool)
    requires
        coplanar.len() >= 1,
        dp == exists|k: int|
            1 <= k < coplanar.len() && lt_of(dot_of(coplanar[k].normal, normal), int_val(0)),
        opposed == lt_of(dot_of(face.normal, normal), int_val(0)),
    ensures
        (dp || opposed) == exists|k: int|
            1 <= k < coplanar.push(face).len() && lt_of(
                dot_of(coplanar.push(face)[k].normal, normal),
                int_val(0),
            ),
{
    let s = coplanar.push(face);
    if dp {
        let k = choose|k: int|
            1 <= k < coplanar.len() && lt_of(dot_of(coplanar[k].normal, normal), int_val(0));
        assert(s[k] == coplanar[k]);
        assert(1 <= k < s.len() && lt_of(dot_of(s[k].normal, normal), int_val(0)));
    } else if opposed {
        let k = coplanar.len() as int;
        assert(s[k] == face);
        assert(1 <= k < s.len() && lt_of(dot_of(s[k].normal, normal), int_val(0)));
    } else {
        assert forall|k: int| 1 <= k < s.len() implies !lt_of(dot_of(s[k].normal, normal), int_val(0)) by {
            if k < coplanar.len() {
                assert(s[k] == coplanar[k]);
            } else {
                assert(s[k] == face);
            }
        }
    }
}


} // verus!
