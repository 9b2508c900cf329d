//! The binary space partition tree: an arena of nodes, the handle of the
//! root, and the bounding rectangle of the scene.

use vstd::prelude::*;
use glam::Vec2;

use crate::geom::{sub_of, add_of, mul_of, dot_of, min_of, max_of, neg_of, corner_of, le_of, int_val, inf, vec_sub, vec_add, vec_mul, vec_dot, vec_min, vec_max, vec_neg, vec_le, vec_from_int, vec_corner, infinity};
use crate::shape::{Face, midpoint_of, face_new_spec};

pub mod node;
pub mod portal;
pub mod portals;

pub use node::{BSPNode, NodeIndex, NodeModel, arena_wf, child_lt, portals_ok, models, models_arena_wf, build_model, generate_model, lemma_models_len, lemma_models_index, lemma_models_arena_wf};
pub use portal::{Portal, PortalRef};
pub use portals::{ClippedFace, Portals, mirror_match, mirrored_once, lemma_portal_symmetry};

verus! {

/// The componentwise lower bound of all face vertices, folded from the
/// left, seeded with positive infinity.
pub open spec fn bounds_lo(faces: Seq<Face>) -> Vec2
    decreases faces.len(),
{
    if faces.len() == 0 {
        inf()
    } else {
        min_of(
            min_of(bounds_lo(faces.drop_last()), faces.last().vertices[0]),
            faces.last().vertices[1],
        )
    }
}

/// The componentwise upper bound of all face vertices, folded from the
/// left, seeded with negative infinity.
pub open spec fn bounds_hi(faces: Seq<Face>) -> Vec2
    decreases faces.len(),
{
    if faces.len() == 0 {
        neg_of(inf())
    } else {
        max_of(
            max_of(bounds_hi(faces.drop_last()), faces.last().vertices[0]),
            faces.last().vertices[1],
        )
    }
}


/// Deterministic rebuild: two trees built from the same run of faces are
/// identical — same node data in the same order, same root handle, same
/// bounds.  Their node models, bounds and roots all equal the one value
/// that `build_model` and the bound folds assign to the input.
pub proof fn lemma_deterministic_rebuild(a: BSPTree, b: BSPTree, faces: Seq<Face>)
    requires
        a.wf(),
        b.wf(),
        models(a.nodes@) == build_model(0, faces, 0),
        models(b.nodes@) == build_model(0, faces, 0),
        a.l == sub_of(bounds_lo(faces), int_val(10)),
        b.l == sub_of(bounds_lo(faces), int_val(10)),
        a.r == add_of(bounds_hi(faces), int_val(10)),
        b.r == add_of(bounds_hi(faces), int_val(10)),
    ensures
        models(a.nodes@) == models(b.nodes@),
        a.nodes@.len() == b.nodes@.len(),
        a.root == b.root,
        a.l == b.l,
        a.r == b.r,
{
    lemma_models_len(a.nodes@);
    lemma_models_len(b.nodes@);
}

/// The four sides of the widened bounding rectangle, wound so their
/// normals face inward, as the outermost clipping frame.
pub open spec fn frame_planes(l: Vec2, r: Vec2) -> Seq<Face> {
    seq![
        face_new_spec(corner_of(l, r), l),
        face_new_spec(l, corner_of(r, l)),
        face_new_spec(corner_of(r, l), r),
        face_new_spec(r, corner_of(l, r)),
    ]
}

/// The tree used for navigation.
#[derive(Debug)]
pub struct BSPTree {
    pub nodes: Vec<BSPNode>,
    pub root: NodeIndex,
    pub l: Vec2,
    pub r: Vec2,
}

/// Where a located point landed: the leaf handle, whether the last descent
/// step went behind its plane, and the push-out vector onto that plane.
#[derive(Clone, Copy, Debug)]
pub struct NodePayload {
    pub index: NodeIndex,
    pub covered: bool,
    pub depth: Vec2,
}

impl NodePayload {
    /// Get the payload's leaf handle.
    pub fn index(&self) -> (r: NodeIndex)
        ensures
            r == self.index,
    {
        self.index
    }

    /// Get the payload's covered flag.
    pub fn covered(&self) -> (r: bool)
        ensures
            r == self.covered,
    {
        self.covered
    }

    /// Get the payload's push-out vector.
    pub fn depth(&self) -> (r: Vec2)
        ensures
            r == self.depth,
    {
        self.depth
    }
}

/// The leaf a point descends to: front of the plane while the dot product
/// is at least zero, back otherwise, until the chosen child is absent.
pub open spec fn locate_spec(nodes: Seq<BSPNode>, i: int, point: Vec2) -> NodePayload
    decreases i,
    when arena_wf(nodes) && 0 <= i < nodes.len()
{
    let node = nodes[i];
    let d = dot_of(sub_of(point, node.origin), node.normal);
    if le_of(int_val(0), d) {
        match node.front {
            Some(next) => locate_spec(nodes, next.0 as int, point),
            None => NodePayload {
                index: NodeIndex(i as usize),
                covered: false,
                depth: mul_of(neg_of(node.normal), d),
            },
        }
    } else {
        match node.back {
            Some(next) => locate_spec(nodes, next.0 as int, point),
            None => NodePayload {
                index: NodeIndex(i as usize),
                covered: true,
                depth: mul_of(neg_of(node.normal), d),
            },
        }
    }
}

fn locate_at(nodes: &Vec<BSPNode>, i: NodeIndex, point: Vec2) -> (r: NodePayload)
    requires
        arena_wf(nodes@),
        i.0 < nodes@.len(),
    ensures
        r == locate_spec(nodes@, i.0 as int, point),
        r.index.0 < nodes@.len(),
    decreases i.0,
{
    let node = &nodes[i.0];
    let d = vec_dot(vec_sub(point, node.origin), node.normal);
    let zero = vec_from_int(0);
    if vec_le(&zero, &d) {
        match node.front {
            Some(next) => locate_at(nodes, next, point),
            None => NodePayload { index: i, covered: false, depth: vec_mul(vec_neg(node.normal), d.0) },
        }
    } else {
        match node.back {
            Some(next) => locate_at(nodes, next, point),
            None => NodePayload { index: i, covered: true, depth: vec_mul(vec_neg(node.normal), d.0) },
        }
    }
}

impl BSPTree {
    /// What construction establishes: a well-formed arena with the root
    /// stored last.
    pub open spec fn wf(self) -> bool {
        &&& arena_wf(self.nodes@)
        &&& self.nodes@.len() >= 1
        &&& self.root.0 == self.nodes@.len() - 1
    }

    /// Constructs a new tree; `None` when there are no faces.  The bounds
    /// are the componentwise extremes of all vertices, widened by ten
    /// units on every side.
    pub fn new(faces: Vec<Face>) -> (r: Option<BSPTree>)
        requires
            forall|k: int| 0 <= k < faces@.len() ==> faces@[k].wf(),
        ensures
            r is Some <==> faces@.len() > 0,
            r matches Some(t) ==> t.wf() && t.l == sub_of(bounds_lo(faces@), int_val(10)) && t.r
                == add_of(bounds_hi(faces@), int_val(10)),
            r matches Some(t) ==> {
                let root = t.nodes@[t.root.0 as int];
                &&& root.faces@[0] == faces@[0]
                &&& root.normal == faces@[0].normal
                &&& root.origin == midpoint_of(faces@[0].vertices[0], faces@[0].vertices[1])
                &&& root.depth == 0
            },
            r matches Some(t) ==> models(t.nodes@) == build_model(0, faces@, 0),
    {
        let pos_inf = infinity();
        let mut lo: Vec2 = pos_inf.0;
        let mut hi: Vec2 = vec_neg(pos_inf.0);

        let mut i: usize = 0;
        while i < faces.len()
            invariant
                0 <= i <= faces@.len(),
                lo == bounds_lo(faces@.take(i as int)),
                hi == bounds_hi(faces@.take(i as int)),
            decreases faces@.len() - i,
        {
            let f = &faces[i];
            lo = vec_min(vec_min(lo, f.vertices[0]), f.vertices[1]);
            hi = vec_max(vec_max(hi, f.vertices[0]), f.vertices[1]);
            proof {
                assert(faces@.take(i + 1).drop_last() =~= faces@.take(i as int));
                assert(faces@.take(i + 1).last() == faces@[i as int]);
            }
            i = i + 1;
        }
        proof {
            assert(faces@.take(faces@.len() as int) =~= faces@);
        }

        let ten = vec_from_int(10);
        let l = vec_sub(lo, ten.0);
        let r = vec_add(hi, ten.0);

        let mut nodes: Vec<BSPNode> = Vec::new();
        let root = BSPNode::from_faces(&mut nodes, &faces, 0);
        proof {
            assert(models(nodes@) =~= build_model(0, faces@, 0));
        }
        match root {
            Some(root) => Some(BSPTree { nodes, root, l, r }),
            None => None,
        }
    }

    /// Looks a node up by its handle.
    pub fn node(&self, index: NodeIndex) -> (r: Option<&BSPNode>)
        ensures
            r matches Some(n) ==> index.0 < self.nodes@.len() && *n == self.nodes@[index.0 as int],
            r is None <==> index.0 >= self.nodes@.len(),
    {
        if index.0 < self.nodes.len() {
            Some(&self.nodes[index.0])
        } else {
            None
        }
    }

    /// Returns the root handle.
    pub fn root(&self) -> (r: NodeIndex)
        ensures
            r == self.root,
    {
        self.root
    }

    /// Returns a reference to the root node.
    pub fn root_node(&self) -> (r: &BSPNode)
        requires
            self.wf(),
        ensures
            *r == self.nodes@[self.root.0 as int],
    {
        &self.nodes[self.root.0]
    }

    /// Get a reference to the tree's node arena.
    pub fn nodes(&self) -> (r: &Vec<BSPNode>)
        ensures
            r == self.nodes,
    {
        &self.nodes
    }

    /// All node handles of the tree in pre-order: the root first, every
    /// front subtree before its back sibling.
    pub fn descendants(&self) -> (r: Vec<NodeIndex>)
        requires
            self.wf(),
        ensures
            forall|k: int| 0 <= k < r@.len() ==> r@[k].0 < self.nodes@.len(),
            r@.len() >= 1,
            r@[0] == self.root,
            r@ == preorder(models(self.nodes@), self.root.0 as int),
    {
        let mut out: Vec<NodeIndex> = Vec::new();
        proof {
            lemma_models_arena_wf(self.nodes@);
            lemma_models_len(self.nodes@);
        }
        collect_descendants(&self.nodes, self.root, &mut out);
        proof {
            assert(out@ =~= preorder(models(self.nodes@), self.root.0 as int));
        }
        out
    }

    /// Casts, clips and collects the portals of the whole tree, starting
    /// from the four sides of the widened bounding rectangle as the
    /// outermost clipping frame.
    pub fn generate_portals(&self) -> (r: Vec<ClippedFace>)
        requires
            self.wf(),
        ensures
            portals_ok(r@, self.nodes@.len() as int),
            r@ == generate_model(models(self.nodes@), self.root.0 as int, frame_planes(self.l, self.r)),
    {
        let c0 = vec_corner(self.l, self.r);
        let c1 = vec_corner(self.r, self.l);
        let mut clipping_planes: Vec<Face> = Vec::new();
        clipping_planes.push(Face::new([c0, self.l]));
        clipping_planes.push(Face::new([self.l, c1]));
        clipping_planes.push(Face::new([c1, self.r]));
        clipping_planes.push(Face::new([self.r, c0]));
        proof {
            assert(clipping_planes@ =~= frame_planes(self.l, self.r));
        }

        let mut portals: Vec<ClippedFace> = Vec::new();
        BSPNode::generate_portals(self.root, &self.nodes, &clipping_planes, &mut portals);
        proof {
            assert(portals@ =~= generate_model(
                models(self.nodes@),
                self.root.0 as int,
                frame_planes(self.l, self.r),
            ));
        }
        portals
    }

    /// Returns the containing leaf and whether the point is covered.
    pub fn locate(&self, point: Vec2) -> (r: NodePayload)
        requires
            self.wf(),
        ensures
            r == locate_spec(self.nodes@, self.root.0 as int, point),
            r.index.0 < self.nodes@.len(),
    {
        locate_at(&self.nodes, self.root, point)
    }
}

/// The handles of the subtree at `i` in pre-order: the node itself, its
/// front subtree, then its back subtree.
pub open spec fn preorder(ns: Seq<NodeModel>, i: int) -> Seq<NodeIndex>
    decreases i,
    when models_arena_wf(ns) && 0 <= i < ns.len()
{
    let fronts = match ns[i].front {
        Some(f) => preorder(ns, f.0 as int),
        None => Seq::empty(),
    };
    let backs = match ns[i].back {
        Some(b) => preorder(ns, b.0 as int),
        None => Seq::empty(),
    };
    Seq::empty().push(NodeIndex(i as usize)) + fronts + backs
}

/// Collects `i` and everything below it in pre-order.
fn collect_descendants(nodes: &Vec<BSPNode>, i: NodeIndex, out: &mut Vec<NodeIndex>)
    requires
        arena_wf(nodes@),
        i.0 < nodes@.len(),
        forall|k: int| 0 <= k < old(out)@.len() ==> old(out)@[k].0 < nodes@.len(),
    ensures
        forall|k: int| 0 <= k < final(out)@.len() ==> final(out)@[k].0 < nodes@.len(),
        final(out)@.len() > old(out)@.len(),
        forall|k: int| 0 <= k < old(out)@.len() ==> final(out)@[k] == old(out)@[k],
        final(out)@[old(out)@.len() as int] == i,
        final(out)@ == old(out)@ + preorder(models(nodes@), i.0 as int),
    decreases i.0,
{
    proof {
        lemma_models_arena_wf(nodes@);
        lemma_models_index(nodes@, i.0 as int);
    }
    let ghost pre = out@;
    out.push(i);
    let node = &nodes[i.0];
    if let Some(front) = node.front {
        collect_descendants(nodes, front, out);
    }
    let ghost mid = out@;
    if let Some(back) = node.back {
        collect_descendants(nodes, back, out);
    }
    proof {
        assert(out@ =~= pre + preorder(models(nodes@), i.0 as int));
    }
}

} // verus!
