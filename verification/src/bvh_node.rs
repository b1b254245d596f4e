//! The bounding-volume hierarchy: a binary tree of boxes over the objects
//! of a scene, and the search for the nearest hit through it.
//!
//! The tree does not know what a box, a ray or a distance is. It is handed
//! four functions: the box of an object, whether the ray passes a box
//! within a window of distances, what the ray hits of an object within a
//! window, and the distance of a hit. A leaf names an object by its place
//! in the list of objects.
//!
//! The search through the tree is proved equal to a search through the
//! leaves one after another, provided the boxes are honest: a box that the
//! ray misses holds no object that the ray hits.

use crate::data_bus::DataReader;
use crate::error::TracerError;
use crate::scene::{
    apply_event,
    is_applied,
    is_place,
    lemma_event_has_one_outcome,
    SceneObjectEvent,
};
use vstd::prelude::*;
use vstd::seq_lib::lemma_multiset_commutative;

verus! {

/// A node of the hierarchy.
pub enum Node<B> {
    /// One object, by its place in the list of objects.
    Leaf { obj: usize },
    /// Two subtrees and a box around both.
    Inner { left: Box<Node<B>>, right: Box<Node<B>>, aabb: B },
}

/// The four functions through which the hierarchy sees the world.
pub struct Probe<FBd, FB, FO, FT> {
    /// The box of an object.
    pub bounds: FBd,
    /// Whether the ray passes a box within the window from the first to the
    /// second distance.
    pub box_hit: FB,
    /// What the ray hits of an object within such a window.
    pub obj_hit: FO,
    /// The distance of a hit.
    pub dist: FT,
}

/// The box that `bounds` gives for `obj`.
pub open spec fn box_by<O, B, FBd: Fn(&O) -> B>(bounds: FBd, obj: O) -> B {
    choose|b: B| call_ensures(bounds, (&obj,), b)
}

/// Whether `bounds` may be called on every object and gives one answer for
/// one question.
pub open spec fn is_bounds<O, B, FBd: Fn(&O) -> B>(bounds: FBd) -> bool {
    &&& forall|obj: O| call_requires(bounds, (&obj,))
    &&& forall|obj: O, b: B| #[trigger] call_ensures(bounds, (&obj,), b) ==> b == box_by(bounds, obj)
}

/// The box that `probe` gives for `obj`.
pub open spec fn bounds_of<O, B, FBd: Fn(&O) -> B, FB, FO, FT>(
    probe: Probe<FBd, FB, FO, FT>,
    obj: O,
) -> B {
    box_by(probe.bounds, obj)
}

/// Whether `probe` says that the ray passes `b` within the window.
pub open spec fn passes<B, T, FBd, FB: Fn(&B, &T, &T) -> bool, FO, FT>(
    probe: Probe<FBd, FB, FO, FT>,
    b: B,
    lo: T,
    hi: T,
) -> bool {
    choose|r: bool| call_ensures(probe.box_hit, (&b, &lo, &hi), r)
}

/// What `probe` says the ray hits of `obj` within the window.
pub open spec fn hit_of<O, T, H, FBd, FB, FO: Fn(&O, &T, &T) -> Option<H>, FT>(
    probe: Probe<FBd, FB, FO, FT>,
    obj: O,
    lo: T,
    hi: T,
) -> Option<H> {
    choose|r: Option<H>| call_ensures(probe.obj_hit, (&obj, &lo, &hi), r)
}

/// The distance that `probe` gives for `hit`.
pub open spec fn dist_of<T, H, FBd, FB, FO, FT: Fn(&H) -> T>(
    probe: Probe<FBd, FB, FO, FT>,
    hit: H,
) -> T {
    choose|t: T| call_ensures(probe.dist, (&hit,), t)
}

/// Whether the functions of `probe` may be called on everything and give
/// one answer for one question.
pub open spec fn is_probe<
    O,
    B,
    T,
    H,
    FBd: Fn(&O) -> B,
    FB: Fn(&B, &T, &T) -> bool,
    FO: Fn(&O, &T, &T) -> Option<H>,
    FT: Fn(&H) -> T,
>(probe: Probe<FBd, FB, FO, FT>) -> bool {
    &&& is_bounds(probe.bounds)
    &&& forall|b: B, lo: T, hi: T| call_requires(probe.box_hit, (&b, &lo, &hi))
    &&& forall|b: B, lo: T, hi: T, r: bool| #[trigger]
        call_ensures(probe.box_hit, (&b, &lo, &hi), r) ==> r == passes(probe, b, lo, hi)
    &&& forall|obj: O, lo: T, hi: T| call_requires(probe.obj_hit, (&obj, &lo, &hi))
    &&& forall|obj: O, lo: T, hi: T, r: Option<H>| #[trigger]
        call_ensures(probe.obj_hit, (&obj, &lo, &hi), r) ==> r == hit_of(probe, obj, lo, hi)
    &&& forall|hit: H| call_requires(probe.dist, (&hit,))
    &&& forall|hit: H, t: T| #[trigger]
        call_ensures(probe.dist, (&hit,), t) ==> t == dist_of(probe, hit)
}

/// The far end of the window once `best` is the nearest hit so far: the
/// distance of that hit, or `hi` while there is none.
pub open spec fn limit<T, H, FBd, FB, FO, FT: Fn(&H) -> T>(
    probe: Probe<FBd, FB, FO, FT>,
    best: Option<(usize, H)>,
    hi: T,
) -> T {
    match best {
        Some((_, hit)) => dist_of(probe, hit),
        None => hi,
    }
}

/// `found` if it is a hit, else `best`.
pub open spec fn keep<H>(best: Option<(usize, H)>, found: Option<(usize, H)>) -> Option<
    (usize, H),
> {
    match found {
        Some(hit) => Some(hit),
        None => best,
    }
}

/// The nearest hit after the objects at the places `order` were tried one
/// after another, each within the window that ends at the nearest hit so
/// far, starting from `best`.
pub open spec fn scan_from<
    O,
    B,
    T,
    H,
    FBd: Fn(&O) -> B,
    FB: Fn(&B, &T, &T) -> bool,
    FO: Fn(&O, &T, &T) -> Option<H>,
    FT: Fn(&H) -> T,
>(
    probe: Probe<FBd, FB, FO, FT>,
    objects: Seq<O>,
    order: Seq<usize>,
    lo: T,
    hi: T,
    best: Option<(usize, H)>,
) -> Option<(usize, H)>
    decreases order.len(),
{
    if order.len() == 0 {
        best
    } else {
        let so_far = scan_from(probe, objects, order.drop_last(), lo, hi, best);
        let at = order.last();
        match hit_of(probe, objects[at as int], lo, limit(probe, so_far, hi)) {
            Some(hit) => Some((at, hit)),
            None => so_far,
        }
    }
}

impl<B> Node<B> {
    /// The objects under this node, left to right.
    pub open spec fn leaves(self) -> Seq<usize>
        decreases self,
    {
        match self {
            Node::Leaf { obj } => seq![obj],
            Node::Inner { left, right, .. } => left.leaves() + right.leaves(),
        }
    }

    /// Whether every leaf under this node names one of `count` objects.
    pub open spec fn is_over(self, count: int) -> bool
        decreases self,
    {
        match self {
            Node::Leaf { obj } => obj < count,
            Node::Inner { left, right, .. } => left.is_over(count) && right.is_over(count),
        }
    }
}

/// The box of a node: of a leaf, the box of its object; of an inner node,
/// the box it holds.
pub open spec fn node_box<O, B, FBd: Fn(&O) -> B, FB, FO, FT>(
    probe: Probe<FBd, FB, FO, FT>,
    objects: Seq<O>,
    node: Node<B>,
) -> B {
    match node {
        Node::Leaf { obj } => bounds_of(probe, objects[obj as int]),
        Node::Inner { aabb, .. } => aabb,
    }
}

/// The nearest hit under `node` within the window from `lo` to `hi`.
///
/// A node whose box the ray misses has none. A leaf has what the ray hits
/// of its object. An inner node asks its left subtree, then its right
/// subtree within the window that ends at the left one's hit, and prefers
/// the right one's answer.
pub open spec fn tree_hit<
    O,
    B,
    T,
    H,
    FBd: Fn(&O) -> B,
    FB: Fn(&B, &T, &T) -> bool,
    FO: Fn(&O, &T, &T) -> Option<H>,
    FT: Fn(&H) -> T,
>(probe: Probe<FBd, FB, FO, FT>, objects: Seq<O>, node: Node<B>, lo: T, hi: T) -> Option<
    (usize, H),
>
    decreases node,
{
    if !passes(probe, node_box(probe, objects, node), lo, hi) {
        None
    } else {
        match node {
            Node::Leaf { obj } => match hit_of(probe, objects[obj as int], lo, hi) {
                Some(hit) => Some((obj, hit)),
                None => None,
            },
            Node::Inner { left, right, .. } => match tree_hit(probe, objects, *left, lo, hi) {
                Some(near) => keep(
                    Some(near),
                    tree_hit(probe, objects, *right, lo, dist_of(probe, near.1)),
                ),
                None => tree_hit(probe, objects, *right, lo, hi),
            },
        }
    }
}

/// Whether the boxes under `node` are honest for windows that begin at
/// `lo`: whenever the ray misses the box of a node within a window, it
/// hits no object under that node within that window.
pub open spec fn boxes_are_honest<
    O,
    B,
    T,
    H,
    FBd: Fn(&O) -> B,
    FB: Fn(&B, &T, &T) -> bool,
    FO: Fn(&O, &T, &T) -> Option<H>,
    FT: Fn(&H) -> T,
>(probe: Probe<FBd, FB, FO, FT>, objects: Seq<O>, node: Node<B>, lo: T) -> bool
    decreases node,
{
    &&& forall|hi: T, k: int|
        !passes(probe, node_box(probe, objects, node), lo, hi) && 0 <= k < node.leaves().len()
            ==> #[trigger] hit_of(probe, objects[node.leaves()[k] as int], lo, hi) is None
    &&& match node {
        Node::Leaf { .. } => true,
        Node::Inner { left, right, .. } => boxes_are_honest(probe, objects, *left, lo)
            && boxes_are_honest(probe, objects, *right, lo),
    }
}

/// Trying objects one after another, then more objects, is trying them all
/// one after another.
pub proof fn lemma_scan_continues<
    O,
    B,
    T,
    H,
    FBd: Fn(&O) -> B,
    FB: Fn(&B, &T, &T) -> bool,
    FO: Fn(&O, &T, &T) -> Option<H>,
    FT: Fn(&H) -> T,
>(
    probe: Probe<FBd, FB, FO, FT>,
    objects: Seq<O>,
    first: Seq<usize>,
    then: Seq<usize>,
    lo: T,
    hi: T,
    best: Option<(usize, H)>,
)
    ensures
        scan_from(probe, objects, first + then, lo, hi, best) == scan_from(
            probe,
            objects,
            then,
            lo,
            hi,
            scan_from(probe, objects, first, lo, hi, best),
        ),
    decreases then.len(),
{
    if then.len() == 0 {
        assert(first + then =~= first);
    } else {
        assert((first + then).drop_last() =~= first + then.drop_last());
        assert((first + then).last() == then.last());
        lemma_scan_continues(probe, objects, first, then.drop_last(), lo, hi, best);
    }
}

/// Trying objects that the ray misses within the window changes nothing.
pub proof fn lemma_scan_of_misses<
    O,
    B,
    T,
    H,
    FBd: Fn(&O) -> B,
    FB: Fn(&B, &T, &T) -> bool,
    FO: Fn(&O, &T, &T) -> Option<H>,
    FT: Fn(&H) -> T,
>(
    probe: Probe<FBd, FB, FO, FT>,
    objects: Seq<O>,
    order: Seq<usize>,
    lo: T,
    hi: T,
    best: Option<(usize, H)>,
)
    requires
        forall|k: int|
            0 <= k < order.len() ==> #[trigger] hit_of(
                probe,
                objects[order[k] as int],
                lo,
                limit(probe, best, hi),
            ) is None,
    ensures
        scan_from(probe, objects, order, lo, hi, best) == best,
    decreases order.len(),
{
    if order.len() > 0 {
        let front = order.drop_last();
        assert forall|k: int| 0 <= k < front.len() implies #[trigger] hit_of(
            probe,
            objects[front[k] as int],
            lo,
            limit(probe, best, hi),
        ) is None by {
            assert(front[k] == order[k]);
        }
        lemma_scan_of_misses(probe, objects, front, lo, hi, best);
        assert(hit_of(probe, objects[order[order.len() - 1] as int], lo, limit(probe, best, hi))
            is None);
    }
}

/// With honest boxes, the search through the tree finds what trying its
/// leaves one after another finds: the same object and the same hit. This
/// holds from any nearest hit so far; with none so far, the search through
/// the tree is the scan of its leaves.
pub proof fn lemma_tree_hit_is_scan<
    O,
    B,
    T,
    H,
    FBd: Fn(&O) -> B,
    FB: Fn(&B, &T, &T) -> bool,
    FO: Fn(&O, &T, &T) -> Option<H>,
    FT: Fn(&H) -> T,
>(
    probe: Probe<FBd, FB, FO, FT>,
    objects: Seq<O>,
    node: Node<B>,
    lo: T,
    hi: T,
    best: Option<(usize, H)>,
)
    requires
        boxes_are_honest(probe, objects, node, lo),
    ensures
        keep(best, tree_hit(probe, objects, node, lo, limit(probe, best, hi))) == scan_from(
            probe,
            objects,
            node.leaves(),
            lo,
            hi,
            best,
        ),
        tree_hit(probe, objects, node, lo, hi) == scan_from(
            probe,
            objects,
            node.leaves(),
            lo,
            hi,
            None,
        ),
    decreases node, 1int,
{
    lemma_tree_hit_is_scan_from(probe, objects, node, lo, hi, best);
    lemma_tree_hit_is_scan_from(probe, objects, node, lo, hi, None);
}

proof fn lemma_tree_hit_is_scan_from<
    O,
    B,
    T,
    H,
    FBd: Fn(&O) -> B,
    FB: Fn(&B, &T, &T) -> bool,
    FO: Fn(&O, &T, &T) -> Option<H>,
    FT: Fn(&H) -> T,
>(
    probe: Probe<FBd, FB, FO, FT>,
    objects: Seq<O>,
    node: Node<B>,
    lo: T,
    hi: T,
    best: Option<(usize, H)>,
)
    requires
        boxes_are_honest(probe, objects, node, lo),
    ensures
        keep(best, tree_hit(probe, objects, node, lo, limit(probe, best, hi))) == scan_from(
            probe,
            objects,
            node.leaves(),
            lo,
            hi,
            best,
        ),
    decreases node, 0int,
{
    let window = limit(probe, best, hi);
    if !passes(probe, node_box(probe, objects, node), lo, window) {
        lemma_scan_of_misses(probe, objects, node.leaves(), lo, hi, best);
    } else {
        match node {
            Node::Leaf { obj } => {
                let order = node.leaves();
                assert(order.len() == 1 && order.last() == obj);
                assert(order.drop_last() =~= Seq::<usize>::empty());
                assert(scan_from(probe, objects, order.drop_last(), lo, hi, best) == best);
            },
            Node::Inner { left, right, .. } => {
                lemma_tree_hit_is_scan_from(probe, objects, *left, lo, hi, best);
                let after_left = scan_from(probe, objects, left.leaves(), lo, hi, best);
                lemma_tree_hit_is_scan_from(probe, objects, *right, lo, hi, after_left);
                lemma_scan_continues(probe, objects, left.leaves(), right.leaves(), lo, hi, best);
                match tree_hit(probe, objects, *left, lo, window) {
                    Some(near) => {
                        assert(after_left == Some(near));
                        assert(limit(probe, after_left, hi) == dist_of(probe, near.1));
                    },
                    None => {
                        assert(after_left == best);
                    },
                }
            },
        }
    }
}

/// Whether the places `order` name objects out of `count`.
pub open spec fn places_within(order: Seq<usize>, count: int) -> bool {
    forall|k: int| 0 <= k < order.len() ==> #[trigger] order[k] < count
}

/// Tries the objects one after another, in list order, each within the
/// window that ends at the nearest hit so far, and hands back the nearest
/// hit with the place of its object.
pub fn scan<
    O,
    B,
    T,
    H,
    FBd: Fn(&O) -> B,
    FB: Fn(&B, &T, &T) -> bool,
    FO: Fn(&O, &T, &T) -> Option<H>,
    FT: Fn(&H) -> T,
>(objects: &Vec<O>, t_min: &T, t_max: T, probe: &Probe<FBd, FB, FO, FT>) -> (res: Option<
    (usize, H),
>)
    requires
        is_probe(*probe),
    ensures
        res == scan_from(
            *probe,
            objects@,
            Seq::new(objects@.len(), |k: int| k as usize),
            *t_min,
            t_max,
            None,
        ),
{
    let ghost order = Seq::new(objects@.len(), |k: int| k as usize);
    let ghost hi = t_max;
    let mut best: Option<(usize, H)> = None;
    let mut closest_so_far = t_max;
    let mut k: usize = 0;
    while k < objects.len()
        invariant
            is_probe(*probe),
            k <= objects@.len(),
            order == Seq::new(objects@.len(), |k: int| k as usize),
            best == scan_from(*probe, objects@, order.take(k as int), *t_min, hi, None),
            closest_so_far == limit(*probe, best, hi),
        decreases objects@.len() - k,
    {
        proof {
            assert(order.take(k + 1).drop_last() =~= order.take(k as int));
            assert(order.take(k + 1).last() == k);
        }
        match (probe.obj_hit)(&objects[k], t_min, &closest_so_far) {
            Some(hit) => {
                closest_so_far = (probe.dist)(&hit);
                best = Some((k, hit));
            },
            None => {},
        }
        k = k + 1;
    }
    proof {
        assert(order.take(k as int) =~= order);
    }
    best
}

impl<B> Node<B> {
    /// The nearest hit under this node within the window from `t_min` to
    /// `t_max`, with the place of the object that was hit. See [`tree_hit`].
    pub fn hit<
        O,
        T,
        H,
        FBd: Fn(&O) -> B,
        FB: Fn(&B, &T, &T) -> bool,
        FO: Fn(&O, &T, &T) -> Option<H>,
        FT: Fn(&H) -> T,
    >(&self, objects: &Vec<O>, t_min: &T, t_max: &T, probe: &Probe<FBd, FB, FO, FT>) -> (res:
        Option<(usize, H)>)
        requires
            is_probe(*probe),
            self.is_over(objects@.len() as int),
        ensures
            res == tree_hit(*probe, objects@, *self, *t_min, *t_max),
        decreases self,
    {
        match self {
            Node::Leaf { obj } => {
                let aabb = (probe.bounds)(&objects[*obj]);
                if !(probe.box_hit)(&aabb, t_min, t_max) {
                    return None;
                }
                match (probe.obj_hit)(&objects[*obj], t_min, t_max) {
                    Some(hit) => Some((*obj, hit)),
                    None => None,
                }
            },
            Node::Inner { left, right, aabb } => {
                if !(probe.box_hit)(aabb, t_min, t_max) {
                    return None;
                }
                match left.hit(objects, t_min, t_max, probe) {
                    Some(near) => {
                        let closest = (probe.dist)(&near.1);
                        match right.hit(objects, t_min, &closest, probe) {
                            Some(nearer) => Some(nearer),
                            None => Some(near),
                        }
                    },
                    None => right.hit(objects, t_min, t_max, probe),
                }
            },
        }
    }
}

/// For every object and each of the three axes, the number by which the
/// object is ordered along that axis: the objects are sorted by the least
/// corner of their boxes, and a smaller number means a smaller corner.
pub struct AxisKeys {
    pub x: Vec<i64>,
    pub y: Vec<i64>,
    pub z: Vec<i64>,
}

impl AxisKeys {
    /// The keys along `axis`: 0 is x, 1 is y, anything else is z.
    pub open spec fn along(self, axis: int) -> Seq<i64> {
        if axis == 0 {
            self.x@
        } else if axis == 1 {
            self.y@
        } else {
            self.z@
        }
    }

    /// Whether there is a key for each of `count` objects along each axis.
    pub open spec fn covers(self, count: int) -> bool {
        self.x@.len() == count && self.y@.len() == count && self.z@.len() == count
    }

    /// The keys along `axis`.
    pub fn axis(&self, axis: usize) -> (keys: &Vec<i64>)
        ensures
            keys@ == self.along(axis as int),
    {
        if axis == 0 {
            &self.x
        } else if axis == 1 {
            &self.y
        } else {
            &self.z
        }
    }
}

/// `slice::sort_by_key` on places, by the key of each place: afterwards the
/// places are the same, each as often as before, and their keys ascend.
#[verifier::external_body]
fn sort_by_keys(order: &mut Vec<usize>, keys: &Vec<i64>)
    requires
        places_within(old(order)@, keys@.len() as int),
    ensures
        final(order)@.to_multiset() == old(order)@.to_multiset(),
        forall|a: int, b: int|
            0 <= a <= b < final(order)@.len() ==> keys@[#[trigger] final(order)@[a] as int]
                <= keys@[#[trigger] final(order)@[b] as int],
{
    order.sort_by_key(|at| keys[*at]);
}

/// The box that `union` makes of two boxes.
pub open spec fn union_of<B, FU: Fn(&B, &B) -> B>(union: FU, a: B, b: B) -> B {
    choose|u: B| call_ensures(union, (&a, &b), u)
}

/// Whether `union` may be called on every two boxes and gives one answer
/// for one question.
pub open spec fn is_union<B, FU: Fn(&B, &B) -> B>(union: FU) -> bool {
    &&& forall|a: B, b: B| call_requires(union, (&a, &b))
    &&& forall|a: B, b: B, u: B| #[trigger]
        call_ensures(union, (&a, &b), u) ==> u == union_of(union, a, b)
}

/// Whether `pick_axis` may be called and always names one of the three
/// axes.
pub open spec fn is_axis_choice<FA: Fn() -> usize>(pick_axis: FA) -> bool {
    &&& call_requires(pick_axis, ())
    &&& forall|axis: usize| #[trigger] call_ensures(pick_axis, (), axis) ==> axis < 3
}

impl<B> Node<B> {
    /// The box of this node where `boxes` holds the box of every object.
    pub open spec fn aabb_over(self, boxes: Seq<B>) -> B {
        match self {
            Node::Leaf { obj } => boxes[obj as int],
            Node::Inner { aabb, .. } => aabb,
        }
    }

    /// Whether every inner node under this node holds the union of the
    /// boxes of its two subtrees.
    pub open spec fn is_unioned<FU: Fn(&B, &B) -> B>(self, boxes: Seq<B>, union: FU) -> bool
        decreases self,
    {
        match self {
            Node::Leaf { .. } => true,
            Node::Inner { left, right, aabb } => {
                &&& aabb == union_of(union, left.aabb_over(boxes), right.aabb_over(boxes))
                &&& left.is_unioned(boxes, union)
                &&& right.is_unioned(boxes, union)
            },
        }
    }

    /// Whether every inner node under this node splits its objects in the
    /// middle of their order along one axis: its left subtree holds half of
    /// them, rounded down, and along that axis no object on the left has a
    /// larger key than an object on the right.
    pub open spec fn is_split(self, key_at: spec_fn(int, usize) -> i64) -> bool
        decreases self,
    {
        match self {
            Node::Leaf { .. } => true,
            Node::Inner { left, right, .. } => {
                &&& left.leaves().len() == (left.leaves().len() + right.leaves().len()) / 2
                &&& exists|axis: int|
                    0 <= axis < 3 && #[trigger] ordered_along(
                        key_at,
                        axis,
                        left.leaves(),
                        right.leaves(),
                    )
                &&& left.is_split(key_at)
                &&& right.is_split(key_at)
            },
        }
    }

    /// The box of this node.
    fn aabb<'a>(&'a self, boxes: &'a Vec<B>) -> (aabb: &'a B)
        requires
            self.is_over(boxes@.len() as int),
        ensures
            *aabb == self.aabb_over(boxes@),
    {
        match self {
            Node::Leaf { obj } => &boxes[*obj],
            Node::Inner { aabb, .. } => aabb,
        }
    }
}

/// Whether along `axis` no place of `left` has a larger key than a place of
/// `right`, where `key_at` gives the key of a place along an axis.
pub open spec fn ordered_along(
    key_at: spec_fn(int, usize) -> i64,
    axis: int,
    left: Seq<usize>,
    right: Seq<usize>,
) -> bool {
    forall|a: int, b: int|
        0 <= a < left.len() && 0 <= b < right.len() ==> key_at(axis, #[trigger] left[a]) <= key_at(
            axis,
            #[trigger] right[b],
        )
}

/// Two sequences with the same members have the same places within a count
/// and the same order against a third.
proof fn lemma_same_members(one: Seq<usize>, other: Seq<usize>)
    requires
        one.to_multiset() == other.to_multiset(),
    ensures
        one.len() == other.len(),
        forall|k: int| 0 <= k < one.len() ==> other.contains(#[trigger] one[k]),
{
    one.to_multiset_ensures();
    other.to_multiset_ensures();
    assert forall|k: int| 0 <= k < one.len() implies other.contains(#[trigger] one[k]) by {
        assert(one.contains(one[k]));
        assert(one.to_multiset().count(one[k]) > 0);
    }
}

/// Builds the tree over the objects at the places `order`.
///
/// One object makes a leaf. Two objects make two leaves, the one with the
/// smaller key along the chosen axis on the left. More objects are sorted
/// by their key along the chosen axis and split in the middle; each half is
/// built in the same way, with an axis of its own.
fn build_range<B, FU: Fn(&B, &B) -> B, FA: Fn() -> usize>(
    boxes: &Vec<B>,
    keys: &AxisKeys,
    order: Vec<usize>,
    union: &FU,
    pick_axis: &FA,
    Ghost(key_at): Ghost<spec_fn(int, usize) -> i64>,
) -> (node: Node<B>)
    requires
        order@.len() > 0,
        places_within(order@, boxes@.len() as int),
        keys.covers(boxes@.len() as int),
        forall|axis: int, at: usize|
            0 <= axis < 3 && at < boxes@.len() ==> keys.along(axis)[at as int] == #[trigger] key_at(
                axis,
                at,
            ),
        is_union(*union),
        is_axis_choice(*pick_axis),
    ensures
        node.leaves().to_multiset() == order@.to_multiset(),
        node.is_over(boxes@.len() as int),
        node.is_unioned(boxes@, *union),
        node.is_split(key_at),
    decreases order@.len(),
{
    let axis = pick_axis();
    let object_span = order.len();
    if object_span == 1 {
        let node = Node::Leaf { obj: order[0] };
        assert(node.leaves() =~= order@);
        node
    } else if object_span == 2 {
        let axis_keys = keys.axis(axis);
        let (left_index, right_index) = if axis_keys[order[0]] < axis_keys[order[1]] {
            (order[0], order[1])
        } else {
            (order[1], order[0])
        };
        let aabb = union(&boxes[left_index], &boxes[right_index]);
        let left = Node::Leaf { obj: left_index };
        let right = Node::Leaf { obj: right_index };
        proof {
            let leaves = left.leaves() + right.leaves();
            assert(leaves =~= seq![left_index, right_index]);
            if left_index == order@[0] {
                assert(leaves =~= order@);
            } else {
                assert(order@ =~= seq![right_index] + seq![left_index]);
                assert(leaves =~= seq![left_index] + seq![right_index]);
                vstd::seq_lib::lemma_seq_union_to_multiset_commutative(
                    seq![left_index],
                    seq![right_index],
                );
            }
            assert(ordered_along(key_at, axis as int, left.leaves(), right.leaves()));
            assert(left.is_over(boxes@.len() as int) && right.is_over(boxes@.len() as int));
            assert(left.is_unioned(boxes@, *union) && right.is_unioned(boxes@, *union));
            assert(left.is_split(key_at) && right.is_split(key_at));
        }
        Node::Inner { left: Box::new(left), right: Box::new(right), aabb }
    } else {
        let mut order = order;
        let ghost given = order@;
        sort_by_keys(&mut order, keys.axis(axis));
        let ghost sorted = order@;
        proof {
            lemma_same_members(sorted, given);
            assert forall|k: int| 0 <= k < sorted.len() implies #[trigger] sorted[k]
                < boxes@.len() by {
                let at = choose|at: int| 0 <= at < given.len() && given[at] == sorted[k];
                assert(given[at] < boxes@.len());
            }
        }
        let mid = object_span / 2;
        let tail = order.split_off(mid);
        proof {
            assert(sorted =~= order@ + tail@);
            lemma_multiset_commutative(order@, tail@);
        }
        let left = build_range(boxes, keys, order, union, pick_axis, Ghost(key_at));
        let right = build_range(boxes, keys, tail, union, pick_axis, Ghost(key_at));
        let aabb = union(left.aabb(boxes), right.aabb(boxes));
        proof {
            lemma_multiset_commutative(left.leaves(), right.leaves());
            lemma_same_members(left.leaves(), order@);
            lemma_same_members(right.leaves(), tail@);
            let along = keys.along(axis as int);
            assert forall|a: int, b: int|
                0 <= a < left.leaves().len() && 0 <= b < right.leaves().len() implies key_at(
                axis as int,
                #[trigger] left.leaves()[a],
            ) <= key_at(axis as int, #[trigger] right.leaves()[b]) by {
                let i = choose|i: int| 0 <= i < order@.len() && order@[i] == left.leaves()[a];
                let j = choose|j: int| 0 <= j < tail@.len() && tail@[j] == right.leaves()[b];
                assert(sorted[i] == order@[i]);
                assert(sorted[mid + j] == tail@[j]);
                assert(along[sorted[i] as int] <= along[sorted[mid + j] as int]);
            }
            assert(ordered_along(key_at, axis as int, left.leaves(), right.leaves()));
            assert(left.leaves().len() == mid);
            assert(right.leaves().len() == object_span - mid);
        }
        Node::Inner { left: Box::new(left), right: Box::new(right), aabb }
    }
}

/// The functions by which a hierarchy is built.
pub struct Builder<FBd, FU, FK, FA> {
    /// The box of an object.
    pub bounds: FBd,
    /// The smallest box around two boxes.
    pub union: FU,
    /// The number by which a box is ordered along an axis: a number that
    /// grows with the least corner of the box along that axis.
    pub key: FK,
    /// The axis along which the next node splits its objects: 0, 1 or 2.
    pub pick_axis: FA,
}

/// The key that `key` gives for the box `b` along `axis`.
pub open spec fn key_by<B, FK: Fn(&B, usize) -> i64>(key: FK, b: B, axis: usize) -> i64 {
    choose|k: i64| call_ensures(key, (&b, axis), k)
}

/// Whether the functions of `builder` may be called on everything, give
/// one answer for one question, and the axis is always one of the three.
pub open spec fn is_builder<
    O,
    B,
    FBd: Fn(&O) -> B,
    FU: Fn(&B, &B) -> B,
    FK: Fn(&B, usize) -> i64,
    FA: Fn() -> usize,
>(builder: Builder<FBd, FU, FK, FA>) -> bool {
    &&& is_bounds(builder.bounds)
    &&& is_union(builder.union)
    &&& forall|b: B, axis: usize| axis < 3 ==> call_requires(builder.key, (&b, axis))
    &&& forall|b: B, axis: usize, k: i64| #[trigger]
        call_ensures(builder.key, (&b, axis), k) ==> k == key_by(builder.key, b, axis)
    &&& is_axis_choice(builder.pick_axis)
}

/// The places of `count` objects, in list order.
pub open spec fn places(count: nat) -> Seq<usize> {
    Seq::new(count, |k: int| k as usize)
}

/// The boxes of `objects`, in list order.
pub open spec fn boxes_of<O, B, FBd: Fn(&O) -> B>(bounds: FBd, objects: Seq<O>) -> Seq<B> {
    Seq::new(objects.len(), |k: int| box_by(bounds, objects[k]))
}

/// The key of the object at a place along an axis.
pub open spec fn keys_of<O, B, FBd: Fn(&O) -> B, FK: Fn(&B, usize) -> i64>(
    bounds: FBd,
    key: FK,
    objects: Seq<O>,
) -> spec_fn(int, usize) -> i64 {
    |axis: int, at: usize| key_by(key, box_by(bounds, objects[at as int]), axis as usize)
}

/// Whether `tree` is a hierarchy over `objects` as `builder` builds it.
///
/// There is no tree over no objects. Otherwise every object is under
/// exactly one leaf, every inner node holds the union of the boxes of its
/// subtrees, and every inner node splits its objects in the middle of
/// their order along one axis.
pub open spec fn is_hierarchy<
    O,
    B,
    FBd: Fn(&O) -> B,
    FU: Fn(&B, &B) -> B,
    FK: Fn(&B, usize) -> i64,
    FA: Fn() -> usize,
>(builder: Builder<FBd, FU, FK, FA>, objects: Seq<O>, tree: Option<Node<B>>) -> bool {
    match tree {
        None => objects.len() == 0,
        Some(node) => {
            &&& objects.len() > 0
            &&& node.is_over(objects.len() as int)
            &&& node.leaves().to_multiset() == places(objects.len()).to_multiset()
            &&& node.is_unioned(boxes_of(builder.bounds, objects), builder.union)
            &&& node.is_split(keys_of(builder.bounds, builder.key, objects))
        },
    }
}

impl<B> Node<B> {
    /// Builds the hierarchy over `objects`; there is none over no objects.
    ///
    /// One object makes a leaf. Two objects make two leaves, the one with
    /// the smaller key along the chosen axis on the left. More objects are
    /// sorted by their key along the chosen axis and split in the middle;
    /// each half is built in the same way, with an axis of its own.
    pub fn build<
        O,
        FBd: Fn(&O) -> B,
        FU: Fn(&B, &B) -> B,
        FK: Fn(&B, usize) -> i64,
        FA: Fn() -> usize,
    >(objects: &Vec<O>, builder: &Builder<FBd, FU, FK, FA>) -> (tree: Option<Node<B>>)
        requires
            is_builder(*builder),
        ensures
            is_hierarchy(*builder, objects@, tree),
    {
        if objects.len() == 0 {
            return None;
        }
        let mut boxes: Vec<B> = Vec::new();
        let mut keys = AxisKeys { x: Vec::new(), y: Vec::new(), z: Vec::new() };
        let mut order: Vec<usize> = Vec::new();
        let ghost key_at = keys_of(builder.bounds, builder.key, objects@);
        let mut k: usize = 0;
        while k < objects.len()
            invariant
                is_builder(*builder),
                k <= objects@.len(),
                boxes@.len() == k,
                keys.covers(k as int),
                order@ == places(k as nat),
                key_at == keys_of(builder.bounds, builder.key, objects@),
                forall|at: int|
                    0 <= at < k ==> #[trigger] boxes@[at] == box_by(builder.bounds, objects@[at]),
                forall|axis: int, at: usize|
                    0 <= axis < 3 && at < k ==> keys.along(axis)[at as int] == #[trigger] key_at(
                        axis,
                        at,
                    ),
            decreases objects@.len() - k,
        {
            let aabb = (builder.bounds)(&objects[k]);
            keys.x.push((builder.key)(&aabb, 0));
            keys.y.push((builder.key)(&aabb, 1));
            keys.z.push((builder.key)(&aabb, 2));
            boxes.push(aabb);
            order.push(k);
            assert(order@ =~= places((k + 1) as nat));
            k = k + 1;
        }
        assert(boxes@ =~= boxes_of(builder.bounds, objects@));
        let node = build_range(
            &boxes,
            &keys,
            order,
            &builder.union,
            &builder.pick_axis,
            Ghost(key_at),
        );
        Some(node)
    }
}

/// Whether `le` orders distances: any two compare, and the order carries
/// over a middle term.
pub open spec fn is_order<T>(le: spec_fn(T, T) -> bool) -> bool {
    &&& forall|a: T, b: T| #[trigger] le(a, b) || le(b, a)
    &&& forall|a: T, b: T, c: T| #[trigger] le(a, b) && #[trigger] le(b, c) ==> le(a, c)
}

/// Whether the hits of `objects` go by their window, for windows that begin
/// at `lo`: a hit lies within its window, and within a narrower window an
/// object shows the same hit if that still lies within, and none
/// otherwise.
pub open spec fn hits_go_by_window<
    O,
    B,
    T,
    H,
    FBd: Fn(&O) -> B,
    FB: Fn(&B, &T, &T) -> bool,
    FO: Fn(&O, &T, &T) -> Option<H>,
    FT: Fn(&H) -> T,
>(probe: Probe<FBd, FB, FO, FT>, objects: Seq<O>, le: spec_fn(T, T) -> bool, lo: T) -> bool {
    &&& forall|k: int, hi: T|
        0 <= k < objects.len() ==> (#[trigger] hit_of(probe, objects[k], lo, hi) matches Some(hit)
            ==> le(dist_of(probe, hit), hi))
    &&& forall|k: int, hi: T, narrow: T|
        #![trigger hit_of(probe, objects[k], lo, hi), hit_of(probe, objects[k], lo, narrow)]
        0 <= k < objects.len() && le(narrow, hi) ==> hit_of(probe, objects[k], lo, narrow)
            == narrowed(probe, le, hit_of(probe, objects[k], lo, hi), narrow)
}

/// What is left of a hit within a window that ends at `narrow`.
pub open spec fn narrowed<T, H, FBd, FB, FO, FT: Fn(&H) -> T>(
    probe: Probe<FBd, FB, FO, FT>,
    le: spec_fn(T, T) -> bool,
    hit: Option<H>,
    narrow: T,
) -> Option<H> {
    match hit {
        Some(h) => if le(dist_of(probe, h), narrow) {
            Some(h)
        } else {
            None
        },
        None => None,
    }
}

/// Whether `best` is a nearest hit among the objects at the places `order`
/// within the window from `lo` to `hi`: with no hit, none of them is hit;
/// with a hit, it is the hit of one of them, and none of them is hit
/// nearer.
pub open spec fn is_nearest<
    O,
    B,
    T,
    H,
    FBd: Fn(&O) -> B,
    FB: Fn(&B, &T, &T) -> bool,
    FO: Fn(&O, &T, &T) -> Option<H>,
    FT: Fn(&H) -> T,
>(
    probe: Probe<FBd, FB, FO, FT>,
    objects: Seq<O>,
    order: Seq<usize>,
    le: spec_fn(T, T) -> bool,
    lo: T,
    hi: T,
    best: Option<(usize, H)>,
) -> bool {
    match best {
        None => forall|k: int|
            0 <= k < order.len() ==> hit_of(probe, objects[#[trigger] order[k] as int], lo, hi)
                is None,
        Some((at, hit)) => {
            &&& order.contains(at)
            &&& hit_of(probe, objects[at as int], lo, hi) == Some(hit)
            &&& forall|k: int|
                0 <= k < order.len() ==> (hit_of(
                    probe,
                    objects[#[trigger] order[k] as int],
                    lo,
                    hi,
                ) matches Some(other) ==> le(dist_of(probe, hit), dist_of(probe, other)))
        },
    }
}

/// Trying objects one after another finds a nearest hit among them.
pub proof fn lemma_scan_finds_nearest<
    O,
    B,
    T,
    H,
    FBd: Fn(&O) -> B,
    FB: Fn(&B, &T, &T) -> bool,
    FO: Fn(&O, &T, &T) -> Option<H>,
    FT: Fn(&H) -> T,
>(
    probe: Probe<FBd, FB, FO, FT>,
    objects: Seq<O>,
    order: Seq<usize>,
    le: spec_fn(T, T) -> bool,
    lo: T,
    hi: T,
)
    requires
        is_order(le),
        hits_go_by_window(probe, objects, le, lo),
        places_within(order, objects.len() as int),
    ensures
        is_nearest(probe, objects, order, le, lo, hi, scan_from(probe, objects, order, lo, hi, None)),
    decreases order.len(),
{
    if order.len() > 0 {
        let front = order.drop_last();
        let at = order.last();
        assert(order[order.len() - 1] == at);
        assert forall|k: int| 0 <= k < front.len() implies #[trigger] front[k] < objects.len() by {
            assert(front[k] == order[k]);
        }
        lemma_scan_finds_nearest(probe, objects, front, le, lo, hi);
        let so_far = scan_from(probe, objects, front, lo, hi, None);
        let window = limit(probe, so_far, hi);
        let whole = hit_of(probe, objects[at as int], lo, hi);
        let found = hit_of(probe, objects[at as int], lo, window);
        let best = scan_from(probe, objects, order, lo, hi, None);
        assert(le(hi, hi));
        match so_far {
            Some((near_at, near)) => {
                assert(front.contains(near_at));
                let i = choose|i: int| 0 <= i < front.len() && front[i] == near_at;
                assert(order[i] == near_at);
                assert(le(dist_of(probe, near), hi));
            },
            None => {},
        }
        assert(le(window, hi));
        assert(found == narrowed(probe, le, whole, window));
        match found {
            Some(hit) => {
                assert(best == Some((at, hit)));
                assert(le(dist_of(probe, hit), dist_of(probe, hit)));
                assert forall|k: int| 0 <= k < order.len() implies (hit_of(
                    probe,
                    objects[#[trigger] order[k] as int],
                    lo,
                    hi,
                ) matches Some(other) ==> le(dist_of(probe, hit), dist_of(probe, other))) by {
                    if k < front.len() {
                        assert(front[k] == order[k]);
                    }
                }
            },
            None => {
                assert(best == so_far);
                match so_far {
                    Some((near_at, near)) => {
                        assert forall|k: int| 0 <= k < order.len() implies (hit_of(
                            probe,
                            objects[#[trigger] order[k] as int],
                            lo,
                            hi,
                        ) matches Some(other) ==> le(dist_of(probe, near), dist_of(probe, other))) by {
                            if k < front.len() {
                                assert(front[k] == order[k]);
                            } else {
                                match whole {
                                    Some(other) => {
                                        assert(le(dist_of(probe, other), window) || le(
                                            window,
                                            dist_of(probe, other),
                                        ));
                                    },
                                    None => {},
                                }
                            }
                        }
                    },
                    None => {
                        assert forall|k: int| 0 <= k < order.len() implies hit_of(
                            probe,
                            objects[#[trigger] order[k] as int],
                            lo,
                            hi,
                        ) is None by {
                            if k < front.len() {
                                assert(front[k] == order[k]);
                            }
                        }
                    },
                }
            },
        }
    }
}

/// The hierarchy finds what a scan of the scene finds: either both find
/// nothing, or both find a hit and the two hits are equally near.
///
/// This holds of every tree whose leaves are the objects of the scene, each
/// once, in any order, provided the boxes are honest and the hits go by
/// their window.
pub proof fn lemma_hierarchy_is_brute_force<
    O,
    B,
    T,
    H,
    FBd: Fn(&O) -> B,
    FB: Fn(&B, &T, &T) -> bool,
    FO: Fn(&O, &T, &T) -> Option<H>,
    FT: Fn(&H) -> T,
>(
    probe: Probe<FBd, FB, FO, FT>,
    objects: Seq<O>,
    node: Node<B>,
    le: spec_fn(T, T) -> bool,
    lo: T,
    hi: T,
)
    requires
        is_order(le),
        hits_go_by_window(probe, objects, le, lo),
        boxes_are_honest(probe, objects, node, lo),
        node.leaves().to_multiset() == places(objects.len()).to_multiset(),
    ensures
        tree_hit(probe, objects, node, lo, hi) is None <==> scan_from(
            probe,
            objects,
            places(objects.len()),
            lo,
            hi,
            None,
        ) is None,
        tree_hit(probe, objects, node, lo, hi) matches Some((_, by_tree)) ==> (scan_from(
            probe,
            objects,
            places(objects.len()),
            lo,
            hi,
            None,
        ) matches Some((_, by_scan)) ==> le(dist_of(probe, by_tree), dist_of(probe, by_scan))
            && le(dist_of(probe, by_scan), dist_of(probe, by_tree))),
{
    let leaves = node.leaves();
    let all = places(objects.len());
    lemma_tree_hit_is_scan(probe, objects, node, lo, hi, None);
    lemma_same_members(leaves, all);
    lemma_same_members(all, leaves);
    assert forall|k: int| 0 <= k < leaves.len() implies #[trigger] leaves[k] < objects.len() by {
        let i = choose|i: int| 0 <= i < all.len() && all[i] == leaves[k];
    }
    lemma_scan_finds_nearest(probe, objects, leaves, le, lo, hi);
    lemma_scan_finds_nearest(probe, objects, all, le, lo, hi);
    let by_tree = scan_from(probe, objects, leaves, lo, hi, None);
    let by_scan = scan_from(probe, objects, all, lo, hi, None);
    match by_tree {
        Some((at, hit)) => {
            let i = choose|i: int| 0 <= i < all.len() && all[i] == at;
            assert(hit_of(probe, objects[all[i] as int], lo, hi) == Some(hit));
        },
        None => {},
    }
    match by_scan {
        Some((at, hit)) => {
            assert(all.contains(at));
            let i = choose|i: int| 0 <= i < all.len() && all[i] == at;
            let k = choose|k: int| 0 <= k < leaves.len() && leaves[k] == all[i];
            assert(hit_of(probe, objects[leaves[k] as int], lo, hi) == Some(hit));
        },
        None => {},
    }
}

/// Whether `after` is what the events `events` make of the list
/// `before`, one after another.
pub open spec fn is_replayed<O, P, F: Fn(&O, &P) -> O>(
    place: F,
    before: Seq<O>,
    events: Seq<SceneObjectEvent<P>>,
    after: Seq<O>,
) -> bool
    decreases events.len(),
{
    if events.len() == 0 {
        after == before
    } else {
        exists|between: Seq<O>|
            is_replayed(place, before, events.drop_last(), between) && #[trigger] is_applied(
                place,
                between,
                events.last(),
                after,
            )
    }
}

/// One more event after a replay makes a replay.
proof fn lemma_replay_one_more<O, P, F: Fn(&O, &P) -> O>(
    place: F,
    before: Seq<O>,
    events: Seq<SceneObjectEvent<P>>,
    between: Seq<O>,
    after: Seq<O>,
)
    requires
        events.len() > 0,
        is_replayed(place, before, events.drop_last(), between),
        is_applied(place, between, events.last(), after),
    ensures
        is_replayed(place, before, events, after),
{
}

/// A run of events makes one thing of a list: two copies of a list that
/// take in the same events end up equal.
pub proof fn lemma_replay_has_one_outcome<O, P, F: Fn(&O, &P) -> O>(
    place: F,
    before: Seq<O>,
    events: Seq<SceneObjectEvent<P>>,
    one: Seq<O>,
    other: Seq<O>,
)
    requires
        is_place(place),
        is_replayed(place, before, events, one),
        is_replayed(place, before, events, other),
    ensures
        one == other,
    decreases events.len(),
{
    if events.len() > 0 {
        let mid_one = choose|between: Seq<O>|
            is_replayed(place, before, events.drop_last(), between) && #[trigger] is_applied(
                place,
                between,
                events.last(),
                one,
            );
        let mid_other = choose|between: Seq<O>|
            is_replayed(place, before, events.drop_last(), between) && #[trigger] is_applied(
                place,
                between,
                events.last(),
                other,
            );
        lemma_replay_has_one_outcome(place, before, events.drop_last(), mid_one, mid_other);
        lemma_event_has_one_outcome(place, mid_one, events.last(), one, other);
    }
}

/// Whether `event` is a removal that names none of `count` objects.
pub open spec fn names_nothing<P>(event: SceneObjectEvent<P>, count: int) -> bool {
    event matches SceneObjectEvent::Remove { id } && id.id >= count
}

/// A list of objects with the tree over them.
struct Hierarchy<O, B> {
    objects: Vec<O>,
    node: Option<Node<B>>,
}

impl<O, B> Hierarchy<O, B> {
    /// Every leaf of the tree names one of the objects.
    #[verifier::type_invariant]
    spec fn tree_is_over_objects(self) -> bool {
        self.node matches Some(node) ==> node.is_over(self.objects@.len() as int)
    }

    fn new<FBd: Fn(&O) -> B, FU: Fn(&B, &B) -> B, FK: Fn(&B, usize) -> i64, FA: Fn() -> usize>(
        objects: Vec<O>,
        builder: &Builder<FBd, FU, FK, FA>,
    ) -> (hierarchy: Self)
        requires
            is_builder(*builder),
        ensures
            hierarchy.objects@ == objects@,
            is_hierarchy(*builder, hierarchy.objects@, hierarchy.node),
    {
        let node = Node::build(&objects, builder);
        Self { node, objects }
    }

    /// Takes in one event or more and builds the tree anew.
    fn absorb<
        P,
        FBd: Fn(&O) -> B,
        FU: Fn(&B, &B) -> B,
        FK: Fn(&B, usize) -> i64,
        FA: Fn() -> usize,
        F: Fn(&O, &P) -> O,
    >(
        &mut self,
        messages: &Vec<SceneObjectEvent<P>>,
        builder: &Builder<FBd, FU, FK, FA>,
        place: &F,
    ) -> (res: Result<(), TracerError>)
        requires
            messages@.len() > 0,
            is_builder(*builder),
            forall|o: O, p: P| call_requires(*place, (&o, &p)),
        ensures
            is_hierarchy(*builder, final(self).objects@, final(self).node),
            res is Ok ==> is_replayed(*place, old(self).objects@, messages@, final(self).objects@),
            res matches Err(e) ==> e is NoObjectWithId && exists|served: int|
                0 <= served < messages@.len() && is_replayed(
                    *place,
                    old(self).objects@,
                    #[trigger] messages@.take(served),
                    final(self).objects@,
                ) && names_nothing(messages@[served], final(self).objects@.len() as int),
    {
        // The old tree names places of the old list: it goes before the
        // list changes.
        self.node = None;
        let mut objects: Vec<O> = Vec::new();
        std::mem::swap(&mut self.objects, &mut objects);
        let ghost before_all = objects@;
        let mut res: Result<(), TracerError> = Ok(());
        let mut k: usize = 0;
        proof {
            assert(messages@.take(0).len() == 0);
        }
        while k < messages.len() && res.is_ok()
            invariant
                forall|o: O, p: P| call_requires(*place, (&o, &p)),
                k <= messages@.len(),
                res is Ok ==> is_replayed(*place, before_all, messages@.take(k as int), objects@),
                res matches Err(e) ==> e is NoObjectWithId && 0 < k && is_replayed(
                    *place,
                    before_all,
                    messages@.take(k - 1),
                    objects@,
                ) && names_nothing(messages@[k - 1], objects@.len() as int),
            decreases messages@.len() - k,
        {
            let ghost before = objects@;
            res = apply_event(&mut objects, &messages[k], place);
            proof {
                let taken = messages@.take(k + 1);
                assert(taken.drop_last() =~= messages@.take(k as int));
                assert(taken.last() == messages@[k as int]);
                if res is Ok {
                    lemma_replay_one_more(*place, before_all, taken, before, objects@);
                }
            }
            k = k + 1;
        }
        let node = Node::build(&objects, builder);
        self.objects = objects;
        self.node = node;
        proof {
            if res is Ok {
                assert(messages@.take(k as int) =~= messages@);
            } else {
                let served = k - 1;
                assert(is_replayed(
                    *place,
                    old(self).objects@,
                    messages@.take(served),
                    self.objects@,
                ) && names_nothing(messages@[served], self.objects@.len() as int));
            }
        }
        res
    }

    fn hit<
        T,
        H,
        FBd: Fn(&O) -> B,
        FB: Fn(&B, &T, &T) -> bool,
        FO: Fn(&O, &T, &T) -> Option<H>,
        FT: Fn(&H) -> T,
    >(&self, t_min: &T, t_max: &T, probe: &Probe<FBd, FB, FO, FT>) -> (res: Option<(usize, H)>)
        requires
            is_probe(*probe),
        ensures
            res == match self.node {
                Some(node) => tree_hit(*probe, self.objects@, node, *t_min, *t_max),
                None => None,
            },
    {
        proof {
            use_type_invariant(self);
        }
        match &self.node {
            Some(node) => node.hit(&self.objects, t_min, t_max, probe),
            None => None,
        }
    }
}

/// The hierarchy on the rendering side: its own copy of the objects, kept
/// up to date from the events of the scene, and the tree over them.
#[verifier::reject_recursive_types(O)]
#[verifier::reject_recursive_types(B)]
#[verifier::reject_recursive_types(P)]
pub struct BoundingVolumeHirearchy<O, B, P: Clone + Sync> {
    reader: DataReader<SceneObjectEvent<P>>,
    hierarchy: Hierarchy<O, B>,
    changed: bool,
}

impl<O, B, P: Clone + Sync> BoundingVolumeHirearchy<O, B, P> {
    /// The objects, in list order.
    pub closed spec fn view(&self) -> Seq<O> {
        self.hierarchy.objects@
    }

    /// The tree over the objects; none over no objects.
    pub closed spec fn tree(&self) -> Option<Node<B>> {
        self.hierarchy.node
    }

    /// Whether the last update changed anything.
    pub closed spec fn is_changed(&self) -> bool {
        self.changed
    }

    /// The hierarchy over `objects`, which follows the events that `reader`
    /// brings. A new hierarchy counts as changed.
    pub fn new<FBd: Fn(&O) -> B, FU: Fn(&B, &B) -> B, FK: Fn(&B, usize) -> i64, FA: Fn() -> usize>(
        objects: Vec<O>,
        reader: DataReader<SceneObjectEvent<P>>,
        builder: &Builder<FBd, FU, FK, FA>,
    ) -> (bvh: Self)
        requires
            is_builder(*builder),
        ensures
            bvh@ == objects@,
            bvh.is_changed(),
            is_hierarchy(*builder, bvh@, bvh.tree()),
    {
        Self { reader, hierarchy: Hierarchy::new(objects, builder), changed: true }
    }

    /// Whether the last update changed anything.
    pub fn changed(&self) -> (changed: bool)
        ensures
            changed == self.is_changed(),
    {
        self.changed
    }

    /// Takes in the events `messages`, one after another. With no event
    /// nothing changes. With events, the objects follow them up to the
    /// first removal that names no object, which is refused; the tree is
    /// then built anew over what the objects have become.
    pub fn absorb<
        FBd: Fn(&O) -> B,
        FU: Fn(&B, &B) -> B,
        FK: Fn(&B, usize) -> i64,
        FA: Fn() -> usize,
        F: Fn(&O, &P) -> O,
    >(
        &mut self,
        messages: &Vec<SceneObjectEvent<P>>,
        builder: &Builder<FBd, FU, FK, FA>,
        place: &F,
    ) -> (res: Result<(), TracerError>)
        requires
            is_builder(*builder),
            forall|o: O, p: P| call_requires(*place, (&o, &p)),
        ensures
            final(self).is_changed() == (messages@.len() > 0),
            messages@.len() == 0 ==> final(self)@ == old(self)@ && final(self).tree() == old(self).tree() && res is Ok,
            messages@.len() > 0 ==> is_hierarchy(*builder, final(self)@, final(self).tree()),
            res is Ok ==> is_replayed(*place, old(self)@, messages@, final(self)@),
            res matches Err(e) ==> e is NoObjectWithId && exists|served: int|
                0 <= served < messages@.len() && is_replayed(
                    *place,
                    old(self)@,
                    #[trigger] messages@.take(served),
                    final(self)@,
                ) && names_nothing(messages@[served], final(self)@.len() as int),
    {
        self.changed = messages.len() > 0;
        if messages.len() == 0 {
            return Ok(());
        }
        self.hierarchy.absorb(messages, builder, place)
    }

    /// Takes in the events that are waiting, as [`Self::absorb`] does.
    /// Fails when the channel does, and then changes nothing but the change
    /// flag, which is lowered; or on a removal that names no object.
    pub fn update<
        FBd: Fn(&O) -> B,
        FU: Fn(&B, &B) -> B,
        FK: Fn(&B, usize) -> i64,
        FA: Fn() -> usize,
        F: Fn(&O, &P) -> O,
    >(&mut self, builder: &Builder<FBd, FU, FK, FA>, place: &F) -> (res: Result<(), TracerError>)
        requires
            is_builder(*builder),
            forall|o: O, p: P| call_requires(*place, (&o, &p)),
        ensures
            final(self).is_changed() ==> is_hierarchy(*builder, final(self)@, final(self).tree()),
            !final(self).is_changed() ==> final(self)@ == old(self)@ && final(self).tree() == old(self).tree(),
            res matches Err(e) ==> e is BusReadError || e is NoObjectWithId,
    {
        self.changed = false;
        match self.reader.get_messages() {
            Ok(messages) => self.absorb(&messages, builder, place),
            Err(e) => Err(e),
        }
    }

    /// The nearest hit of the scene within the window from `t_min` to
    /// `t_max`, with the place of the object that was hit: what the search
    /// through the tree finds, and nothing where there is no tree.
    pub fn hit<
        T,
        H,
        FBd: Fn(&O) -> B,
        FB: Fn(&B, &T, &T) -> bool,
        FO: Fn(&O, &T, &T) -> Option<H>,
        FT: Fn(&H) -> T,
    >(&self, t_min: &T, t_max: &T, probe: &Probe<FBd, FB, FO, FT>) -> (res: Option<(usize, H)>)
        requires
            is_probe(*probe),
        ensures
            res == match self.tree() {
                Some(node) => tree_hit(*probe, self@, node, *t_min, *t_max),
                None => None,
            },
    {
        self.hierarchy.hit(t_min, t_max, probe)
    }
}

} // verus!
