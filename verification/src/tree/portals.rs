//! The portal store: the deduplicated portal geometry and, for every
//! leaf, the references of the portals that touch it.
//!
//! Every accepted clipped face yields exactly two references sharing one
//! face index: one stored at the source leaf, one at the destination leaf,
//! with the normal inverted between them.  That symmetry is the store's
//! invariant, established by [`Portals::push`] and stated as a law by
//! [`lemma_portal_symmetry`].

use vstd::prelude::*;
use glam::Vec2;

use crate::geom::{neg_of, vec_neg};
use crate::shape::{Face, Side};
use crate::tree::node::NodeIndex;
use crate::tree::portal::{Portal, PortalRef};
use crate::tree::BSPTree;

verus! {

/// A piece of a candidate portal while it is clipped down the tree:
/// its geometry, the side tags and adjacency flags of its two endpoints,
/// and the leaves found on its two sides.
#[derive(Clone, Copy, Debug)]
pub struct ClippedFace {
    pub face: Face,
    pub sides: [Side; 2],
    pub adjacent: [bool; 2],
    pub src: NodeIndex,
    pub dst: NodeIndex,
}

impl ClippedFace {
    pub fn new(
        vertices: [Vec2; 2],
        sides: [Side; 2],
        adjacent: [bool; 2],
        src: NodeIndex,
        dst: NodeIndex,
    ) -> (r: ClippedFace)
        ensures
            r.face.normal == crate::shape::face_normal(vertices[0], vertices[1]),
            r.face.vertices == vertices,
            r.face.wf(),
            r.sides == sides,
            r.adjacent == adjacent,
            r.src == src,
            r.dst == dst,
    {
        ClippedFace { face: Face::new(vertices), sides, adjacent, src, dst }
    }

    /// Get the portal's src.
    pub fn src(&self) -> (r: NodeIndex)
        ensures
            r == self.src,
    {
        self.src
    }

    /// Get the portal's dst.
    pub fn dst(&self) -> (r: NodeIndex)
        ensures
            r == self.dst,
    {
        self.dst
    }

    /// Get the portal's sides.
    pub fn sides(&self) -> (r: [Side; 2])
        ensures
            r == self.sides,
    {
        self.sides
    }

    /// Get the clipped face's face.
    pub fn face(&self) -> (r: Face)
        ensures
            r == self.face,
    {
        self.face
    }

    /// Splits the clipped face at the intersection of its carrier line
    /// with the plane through `p` with normal `n`.  The piece keeping the
    /// first vertex keeps the first adjacency flag; the cut ends are not
    /// adjacent; side tags reset to `Front`.
    pub fn split(&self, p: Vec2, n: Vec2) -> (r: [ClippedFace; 2])
        ensures
            ({
                let i = crate::util::isect_point(
                    self.face.vertices[0],
                    crate::geom::sub_of(self.face.vertices[1], self.face.vertices[0]),
                    p,
                    n,
                );
                r[0].face.vertices == [self.face.vertices[0], i] && r[1].face.vertices == [
                    i,
                    self.face.vertices[1],
                ]
            }),
            r[0].face.wf() && r[1].face.wf(),
            r[0].sides == [Side::Front, Side::Front] && r[1].sides == [Side::Front, Side::Front],
            r[0].adjacent == [self.adjacent[0], false] && r[1].adjacent == [false, self.adjacent[1]],
            r[0].src == self.src && r[1].src == self.src,
            r[0].dst == self.dst && r[1].dst == self.dst,
    {
        let isect = crate::util::face_intersect(self.face.into_tuple(), p, n);
        [
            ClippedFace::new(
                [self.face.vertices[0], isect.point],
                [Side::Front, Side::Front],
                [self.adjacent[0], false],
                self.src,
                self.dst,
            ),
            ClippedFace::new(
                [isect.point, self.face.vertices[1]],
                [Side::Front, Side::Front],
                [false, self.adjacent[1]],
                self.src,
                self.dst,
            ),
        ]
    }
}

/// Whether `m` is the mirror of `r`: the same geometry index and adjacency
/// flags, source and destination swapped, the normal inverted.
pub open spec fn mirror_match(m: PortalRef, r: PortalRef) -> bool {
    &&& m.src == r.dst
    &&& m.dst == r.src
    &&& m.face == r.face
    &&& m.normal == neg_of(r.normal)
    &&& m.adjacent == r.adjacent
}

/// The observable content of a portal store.
pub struct StoreModel {
    pub faces: Seq<Face>,
    pub per_leaf: Seq<Seq<PortalRef>>,
}

/// The per-leaf reference lists as sequences.
pub open spec fn leaf_views(s: Seq<Vec<PortalRef>>) -> Seq<Seq<PortalRef>>
    decreases s.len(),
{
    if s.len() == 0 {
        Seq::empty()
    } else {
        leaf_views(s.drop_last()).push(s.last()@)
    }
}

pub proof fn lemma_leaf_views_index(s: Seq<Vec<PortalRef>>, i: int)
    requires
        0 <= i < s.len(),
    ensures
        leaf_views(s).len() == s.len(),
        leaf_views(s)[i] == s[i]@,
    decreases s.len(),
{
    lemma_leaf_views_len(s);
    if i < s.len() - 1 {
        lemma_leaf_views_index(s.drop_last(), i);
    }
}

pub proof fn lemma_leaf_views_len(s: Seq<Vec<PortalRef>>)
    ensures
        leaf_views(s).len() == s.len(),
    decreases s.len(),
{
    if s.len() > 0 {
        lemma_leaf_views_len(s.drop_last());
    }
}

/// What storing one clipped face does to the store's content: the
/// geometry is appended, the source leaf gains the reference with the
/// inverted normal, the destination leaf the one with the face's own
/// normal.
pub open spec fn push_model(m: StoreModel, cf: ClippedFace) -> StoreModel {
    let ix = m.faces.len() as usize;
    let r_src = PortalRef {
        src: cf.src,
        dst: cf.dst,
        face: ix,
        normal: neg_of(cf.face.normal),
        adjacent: cf.adjacent,
    };
    let r_dst = PortalRef {
        src: cf.dst,
        dst: cf.src,
        face: ix,
        normal: cf.face.normal,
        adjacent: cf.adjacent,
    };
    let mid = m.per_leaf.update(cf.src.0 as int, m.per_leaf[cf.src.0 as int].push(r_src));
    StoreModel {
        faces: m.faces.push(cf.face),
        per_leaf: mid.update(cf.dst.0 as int, mid[cf.dst.0 as int].push(r_dst)),
    }
}

/// The store that holds every clipped face of `clips`, in order, over
/// `leaves` empty lists.
pub open spec fn store_model(clips: Seq<ClippedFace>, leaves: nat) -> StoreModel
    decreases clips.len(),
{
    if clips.len() == 0 {
        StoreModel { faces: Seq::empty(), per_leaf: Seq::new(leaves, |i: int| Seq::empty()) }
    } else {
        push_model(store_model(clips.drop_last(), leaves), clips.last())
    }
}

/// The side table mapping each leaf to its portal references, over one
/// backing vector of portal geometry.
#[derive(Debug)]
pub struct Portals {
    pub faces: Vec<Face>,
    pub per_leaf: Vec<Vec<PortalRef>>,
}

impl Portals {
    /// The observable content of the store.
    pub open spec fn store_view(self) -> StoreModel {
        StoreModel { faces: self.faces@, per_leaf: leaf_views(self.per_leaf@) }
    }

    /// The store's invariant: every reference is stored at its own source
    /// leaf, points at a real geometry entry and at another in-range leaf,
    /// no leaf holds two references to one geometry entry, and every
    /// reference has a mirror at its destination.
    pub open spec fn wf(self) -> bool {
        &&& forall|a: int, k: int|
            0 <= a < self.per_leaf@.len() && 0 <= k < self.per_leaf@[a]@.len() ==> {
                let r = #[trigger] self.per_leaf@[a]@[k];
                &&& r.src.0 == a
                &&& r.face < self.faces@.len()
                &&& r.dst.0 < self.per_leaf@.len()
                &&& r.dst.0 != a
                &&& exists|k2: int|
                    0 <= k2 < self.per_leaf@[r.dst.0 as int]@.len() && mirror_match(
                        #[trigger] self.per_leaf@[r.dst.0 as int]@[k2],
                        r,
                    )
            }
        &&& forall|a: int, k1: int, k2: int|
            0 <= a < self.per_leaf@.len() && 0 <= k1 < self.per_leaf@[a]@.len() && 0 <= k2
                < self.per_leaf@[a]@.len() && k1 != k2 ==> #[trigger] self.per_leaf@[a]@[k1].face
                != #[trigger] self.per_leaf@[a]@[k2].face
    }

    /// An empty store for a tree of `leaves` nodes.
    pub fn new_sized(leaves: usize) -> (r: Portals)
        ensures
            r.wf(),
            r.faces@.len() == 0,
            r.per_leaf@.len() == leaves,
            forall|a: int| 0 <= a < leaves ==> r.per_leaf@[a]@.len() == 0,
    {
        let mut per_leaf: Vec<Vec<PortalRef>> = Vec::new();
        let mut i: usize = 0;
        while i < leaves
            invariant
                0 <= i <= leaves,
                per_leaf@.len() == i,
                forall|a: int| 0 <= a < i ==> per_leaf@[a]@.len() == 0,
            decreases leaves - i,
        {
            per_leaf.push(Vec::new());
            i = i + 1;
        }
        Portals { faces: Vec::new(), per_leaf }
    }

    /// An empty store.
    pub fn new() -> (r: Portals)
        ensures
            r.wf(),
            r.faces@.len() == 0,
            r.per_leaf@.len() == 0,
    {
        Portals { faces: Vec::new(), per_leaf: Vec::new() }
    }

    /// Adds a new portal, stored for both its source and its destination.
    pub fn push(&mut self, portal: ClippedFace)
        requires
            old(self).wf(),
            portal.src.0 < old(self).per_leaf@.len(),
            portal.dst.0 < old(self).per_leaf@.len(),
            portal.src != portal.dst,
        ensures
            final(self).wf(),
            final(self).per_leaf@.len() == old(self).per_leaf@.len(),
            final(self).faces@ == old(self).faces@.push(portal.face),
            final(self).per_leaf@[portal.src.0 as int]@.len() == old(
                self,
            ).per_leaf@[portal.src.0 as int]@.len() + 1,
            final(self).per_leaf@[portal.src.0 as int]@.last() == (PortalRef {
                src: portal.src,
                dst: portal.dst,
                face: old(self).faces@.len() as usize,
                normal: neg_of(portal.face.normal),
                adjacent: portal.adjacent,
            }),
            final(self).per_leaf@[portal.dst.0 as int]@.last() == (PortalRef {
                src: portal.dst,
                dst: portal.src,
                face: old(self).faces@.len() as usize,
                normal: portal.face.normal,
                adjacent: portal.adjacent,
            }),
            forall|a: int|
                0 <= a < old(self).per_leaf@.len() && a != portal.src.0 && a != portal.dst.0
                    ==> final(self).per_leaf@[a] == old(self).per_leaf@[a],
            final(self).store_view() == push_model(old(self).store_view(), portal),
    {
        let face_ix = self.faces.len();
        self.faces.push(portal.face);

        let inverted = vec_neg(portal.face.normal);

        let r_src = PortalRef {
            src: portal.src,
            dst: portal.dst,
            face: face_ix,
            normal: inverted,
            adjacent: portal.adjacent,
        };
        let r_dst = PortalRef {
            src: portal.dst,
            dst: portal.src,
            face: face_ix,
            normal: portal.face.normal,
            adjacent: portal.adjacent,
        };

        self.per_leaf[portal.src.0].push(r_src);
        self.per_leaf[portal.dst.0].push(r_dst);

        proof {
            let pre = *old(self);
            let s = portal.src.0 as int;
            let d = portal.dst.0 as int;
            let fin = self.per_leaf@;
            let ks = pre.per_leaf@[s]@.len() as int;
            let kd = pre.per_leaf@[d]@.len() as int;
            assert(fin[s]@ == pre.per_leaf@[s]@.push(r_src));
            assert(fin[d]@ == pre.per_leaf@[d]@.push(r_dst));
            assert(forall|a: int|
                0 <= a < fin.len() && a != s && a != d ==> fin[a] == pre.per_leaf@[a]);
            assert(mirror_match(r_dst, r_src));
            assert(mirror_match(r_src, r_dst));

            assert forall|a: int, k: int|
                0 <= a < fin.len() && 0 <= k < fin[a]@.len() implies {
                    let r = #[trigger] fin[a]@[k];
                    &&& r.src.0 == a
                    &&& r.face < self.faces@.len()
                    &&& r.dst.0 < fin.len()
                    &&& r.dst.0 != a
                    &&& exists|k2: int|
                        0 <= k2 < fin[r.dst.0 as int]@.len() && mirror_match(
                            #[trigger] fin[r.dst.0 as int]@[k2],
                            r,
                        )
                } by {
                let r = fin[a]@[k];
                let is_new = (a == s && k == ks) || (a == d && k == kd);
                if is_new {
                    if a == s {
                        assert(r == r_src);
                        assert(fin[d]@[kd] == r_dst);
                        assert(mirror_match(fin[r.dst.0 as int]@[kd], r));
                    } else {
                        assert(r == r_dst);
                        assert(fin[s]@[ks] == r_src);
                        assert(mirror_match(fin[r.dst.0 as int]@[ks], r));
                    }
                } else {
                    assert(r == pre.per_leaf@[a]@[k]);
                    assert(r.src.0 == a && r.face < pre.faces@.len() && r.dst.0 < fin.len()
                        && r.dst.0 != a);
                    let b = r.dst.0 as int;
                    let k2 = choose|k2: int|
                        0 <= k2 < pre.per_leaf@[b]@.len() && mirror_match(
                            #[trigger] pre.per_leaf@[b]@[k2],
                            r,
                        );
                    assert(fin[b]@[k2] == pre.per_leaf@[b]@[k2]);
                    assert(0 <= k2 < fin[b]@.len() && mirror_match(fin[b]@[k2], r));
                }
            }

            assert forall|a: int, k1: int, k2: int|
                0 <= a < fin.len() && 0 <= k1 < fin[a]@.len() && 0 <= k2 < fin[a]@.len() && k1
                    != k2 implies #[trigger] fin[a]@[k1].face != #[trigger] fin[a]@[k2].face by {
                let n1 = (a == s && k1 == ks) || (a == d && k1 == kd);
                let n2 = (a == s && k2 == ks) || (a == d && k2 == kd);
                if n1 && !n2 {
                    assert(fin[a]@[k2] == pre.per_leaf@[a]@[k2]);
                    assert(fin[a]@[k2].face < pre.faces@.len());
                } else if !n1 && n2 {
                    assert(fin[a]@[k1] == pre.per_leaf@[a]@[k1]);
                    assert(fin[a]@[k1].face < pre.faces@.len());
                } else if !n1 && !n2 {
                    assert(fin[a]@[k1] == pre.per_leaf@[a]@[k1]);
                    assert(fin[a]@[k2] == pre.per_leaf@[a]@[k2]);
                }
            }

            // The observable content changed exactly as the model says.
            let target = push_model(pre.store_view(), portal);
            lemma_leaf_views_len(pre.per_leaf@);
            lemma_leaf_views_len(fin);
            assert forall|a: int| 0 <= a < fin.len() implies leaf_views(fin)[a]
                == target.per_leaf[a] by {
                lemma_leaf_views_index(fin, a);
                lemma_leaf_views_index(pre.per_leaf@, a);
                if a == s {
                    assert(fin[a]@ =~= pre.per_leaf@[a]@.push(r_src));
                } else if a == d {
                    assert(fin[a]@ =~= pre.per_leaf@[a]@.push(r_dst));
                } else {
                    assert(fin[a] == pre.per_leaf@[a]);
                }
            }
            assert(leaf_views(fin) =~= target.per_leaf);
            assert(self.faces@ =~= target.faces);
            assert(self.store_view() == target);
        }
    }

    /// The portal references stored at a leaf, expanded with their
    /// geometry.
    pub fn get(&self, index: NodeIndex) -> (r: Vec<Portal>)
        requires
            self.wf(),
        ensures
            index.0 < self.per_leaf@.len() ==> r@.len() == self.per_leaf@[index.0 as int]@.len()
                && forall|k: int|
                0 <= k < r@.len() ==> r@[k].portal_ref == self.per_leaf@[index.0 as int]@[k]
                    && r@[k].face == self.faces@[self.per_leaf@[index.0 as int]@[k].face as int],
            index.0 >= self.per_leaf@.len() ==> r@.len() == 0,
    {
        let mut out: Vec<Portal> = Vec::new();
        if index.0 >= self.per_leaf.len() {
            return out;
        }
        let list = &self.per_leaf[index.0];
        let mut k: usize = 0;
        while k < list.len()
            invariant
                self.wf(),
                index.0 < self.per_leaf@.len(),
                list == self.per_leaf@[index.0 as int],
                0 <= k <= list@.len(),
                out@.len() == k,
                forall|j: int|
                    0 <= j < k ==> out@[j].portal_ref == list@[j] && out@[j].face
                        == self.faces@[list@[j].face as int],
            decreases list@.len() - k,
        {
            let pr = list[k];
            assert(self.per_leaf@[index.0 as int]@[k as int].face < self.faces@.len());
            out.push(Portal { face: self.faces[pr.face], portal_ref: pr });
            k = k + 1;
        }
        out
    }

    /// Expands a reference with its geometry.
    pub fn from_ref(&self, portal: PortalRef) -> (r: Option<Portal>)
        ensures
            portal.face < self.faces@.len() ==> (r matches Some(p) && p.portal_ref == portal
                && p.face == self.faces@[portal.face as int]),
            portal.face >= self.faces@.len() ==> r is None,
    {
        if portal.face < self.faces.len() {
            Some(Portal { face: self.faces[portal.face], portal_ref: portal })
        } else {
            None
        }
    }

    /// Generates and stores the portals of a tree.
    pub fn generate(&mut self, tree: &BSPTree)
        requires
            old(self).wf(),
            old(self).per_leaf@.len() == 0,
            old(self).faces@.len() == 0,
            tree.wf(),
        ensures
            final(self).wf(),
            final(self).per_leaf@.len() == tree.nodes@.len(),
            final(self).store_view() == store_model(
                crate::tree::generate_model(
                    crate::tree::models(tree.nodes@),
                    tree.root.0 as int,
                    crate::tree::frame_planes(tree.l, tree.r),
                ),
                tree.nodes@.len() as nat,
            ),
    {
        let sized = Portals::new_sized(tree.nodes.len());
        self.faces = sized.faces;
        self.per_leaf = sized.per_leaf;
        proof {
            lemma_leaf_views_len(self.per_leaf@);
            assert forall|a: int| 0 <= a < self.per_leaf@.len() implies leaf_views(
                self.per_leaf@,
            )[a] == Seq::<PortalRef>::empty() by {
                lemma_leaf_views_index(self.per_leaf@, a);
                assert(self.per_leaf@[a]@ =~= Seq::<PortalRef>::empty());
            }
        }

        let clipped = tree.generate_portals();
        let ghost leaves = tree.nodes@.len() as nat;
        proof {
            assert(self.store_view().faces =~= store_model(
                clipped@.take(0),
                leaves,
            ).faces);
            assert(self.store_view().per_leaf =~= store_model(clipped@.take(0), leaves).per_leaf);
            assert(self.store_view() == store_model(clipped@.take(0), leaves));
        }
        let mut i: usize = 0;
        while i < clipped.len()
            invariant
                self.wf(),
                self.per_leaf@.len() == tree.nodes@.len(),
                leaves == tree.nodes@.len() as nat,
                0 <= i <= clipped@.len(),
                forall|k: int|
                    0 <= k < clipped@.len() ==> (#[trigger] clipped@[k]).src.0 < tree.nodes@.len()
                        && clipped@[k].dst.0 < tree.nodes@.len() && clipped@[k].src
                        != clipped@[k].dst,
                self.store_view() == store_model(clipped@.take(i as int), leaves),
            decreases clipped@.len() - i,
        {
            let cf = clipped[i];
            self.push(cf);
            proof {
                assert(clipped@.take(i + 1).drop_last() =~= clipped@.take(i as int));
                assert(clipped@.take(i + 1).last() == clipped@[i as int]);
            }
            i = i + 1;
        }
        proof {
            assert(clipped@.take(clipped@.len() as int) =~= clipped@);
        }
    }
}

/// Whether `r` has exactly one mirror stored at its destination leaf.
pub open spec fn mirrored_once(p: Portals, r: PortalRef) -> bool {
    &&& exists|k2: int|
        0 <= k2 < p.per_leaf@[r.dst.0 as int]@.len() && mirror_match(
            #[trigger] p.per_leaf@[r.dst.0 as int]@[k2],
            r,
        )
    &&& forall|k2: int, k3: int|
        0 <= k2 < p.per_leaf@[r.dst.0 as int]@.len() && 0 <= k3 < p.per_leaf@[
            r.dst.0 as int
        ]@.len() && mirror_match(#[trigger] p.per_leaf@[r.dst.0 as int]@[k2], r) && mirror_match(
            #[trigger] p.per_leaf@[r.dst.0 as int]@[k3],
            r,
        ) ==> k2 == k3
}

/// Portal symmetry: every reference `r` stored at leaf `a` has exactly
/// one mirror at its destination leaf, sharing the geometry index and the
/// adjacency flags and carrying the inverted normal, with source and
/// destination swapped.
pub proof fn lemma_portal_symmetry(p: Portals, a: int, k: int)
    requires
        p.wf(),
        0 <= a < p.per_leaf@.len(),
        0 <= k < p.per_leaf@[a]@.len(),
    ensures
        mirrored_once(p, p.per_leaf@[a]@[k]),
{
    let r = p.per_leaf@[a]@[k];
    let b = r.dst.0 as int;
    assert(r.src.0 == a && b < p.per_leaf@.len());
    assert forall|k2: int, k3: int|
        0 <= k2 < p.per_leaf@[b]@.len() && 0 <= k3 < p.per_leaf@[b]@.len() && mirror_match(
            #[trigger] p.per_leaf@[b]@[k2],
            r,
        ) && mirror_match(#[trigger] p.per_leaf@[b]@[k3], r) implies k2 == k3 by {
        if k2 != k3 {
            assert(p.per_leaf@[b]@[k2].face == r.face);
            assert(p.per_leaf@[b]@[k3].face == r.face);
        }
    }
}

} // verus!
