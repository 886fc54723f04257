//! A reasonably fast quadtree: it maps locations, pairs of bytes, to values.
use vstd::prelude::*;

verus! {

/// A coordinate representable in the quadtree.
pub type Coord = u8;

/// A location in the quadtree.
pub type Loc = (Coord, Coord);

/// The minimum possible coordinate.
pub const MIN_COORD: Coord = 0;

/// The maximum possible coordinate.
pub const MAX_COORD: Coord = 255;

/// The size of the world represented by the quadtree.
pub const SIZE: usize = 256;

/// The maximum depth of the quadtree.
pub const DEPTH: u8 = 5;

/// A leaf with this many entries splits on the next insertion.
pub const SPLIT_THRESH: usize = 16;

/// A "pointer" to a node; actually an index into a backing vector.
pub type NodePtr = u16;

/// The four quarters of a rectangle.
#[derive(Clone, Copy, Debug, PartialEq, Eq, Structural)]
pub enum Corner {
    TL,
    TR,
    BL,
    BR,
}

impl Corner {
    /// The position of the quarter among the results of `Bounds::split`.
    pub open spec fn index(self) -> int {
        match self {
            Corner::TL => 0,
            Corner::TR => 1,
            Corner::BL => 2,
            Corner::BR => 3,
        }
    }
}

/// A rectangle of locations, bounds included.
#[derive(Clone, Copy, Debug, PartialEq, Eq, Structural)]
pub struct Bounds {
    pub minx: Coord,
    pub maxx: Coord,
    pub miny: Coord,
    pub maxy: Coord,
}

/// The coordinate at which a range is split in two, computed without
/// overflow.
pub open spec fn mid(a: Coord, b: Coord) -> int {
    a / 2 + b / 2
}

/// Whether the rectangle holds the location.
pub open spec fn in_bounds(b: Bounds, l: Loc) -> bool {
    b.minx <= l.0 && b.miny <= l.1 && b.maxx >= l.0 && b.maxy >= l.1
}

/// Whether the two rectangles share a location.
pub open spec fn bounds_overlap(a: Bounds, b: Bounds) -> bool {
    !(a.maxx < b.minx || b.maxx < a.minx) && !(a.maxy < b.miny || b.maxy < a.miny)
}

/// A rectangle that can be split in quarters: both split points are
/// positive.
pub open spec fn splittable(b: Bounds) -> bool {
    mid(b.minx, b.maxx) >= 1 && mid(b.miny, b.maxy) >= 1
}

/// The quarter of `b` at position `k` of `Bounds::split`.
pub open spec fn quarter(b: Bounds, k: int) -> Bounds {
    let mx = mid(b.minx, b.maxx);
    let my = mid(b.miny, b.maxy);
    if k == 0 {
        Bounds { minx: b.minx, maxx: (mx - 1) as u8, miny: my as u8, maxy: b.maxy }
    } else if k == 1 {
        Bounds { minx: mx as u8, maxx: b.maxx, miny: my as u8, maxy: b.maxy }
    } else if k == 2 {
        Bounds { minx: b.minx, maxx: (mx - 1) as u8, miny: b.miny, maxy: (my - 1) as u8 }
    } else {
        Bounds { minx: mx as u8, maxx: b.maxx, miny: b.miny, maxy: (my - 1) as u8 }
    }
}

/// The position, among the quarters of `b`, of the quarter that holds `l`.
pub open spec fn quarter_of(b: Bounds, l: Loc) -> int {
    if l.0 < mid(b.minx, b.maxx) {
        if l.1 < mid(b.miny, b.maxy) {
            2
        } else {
            0
        }
    } else {
        if l.1 < mid(b.miny, b.maxy) {
            3
        } else {
            1
        }
    }
}

/// A location of a splittable rectangle lies in the quarter that
/// `quarter_of` names, and in no other.
pub proof fn lemma_quarter_holds(b: Bounds, l: Loc)
    requires
        splittable(b),
        in_bounds(b, l),
    ensures
        0 <= quarter_of(b, l) < 4,
        in_bounds(quarter(b, quarter_of(b, l)), l),
        forall|k: int| 0 <= k < 4 && k != quarter_of(b, l) ==> !in_bounds(#[trigger] quarter(b, k), l),
{
}

impl Bounds {
    /// The rectangle of the whole quadtree.
    pub fn top_level() -> (r: Bounds)
        ensures
            r == (Bounds { minx: MIN_COORD, maxx: MAX_COORD, miny: MIN_COORD, maxy: MAX_COORD }),
    {
        Bounds { minx: MIN_COORD, maxx: MAX_COORD, miny: MIN_COORD, maxy: MAX_COORD }
    }

    /// The four quarters of the rectangle: top left, top right, bottom left
    /// and bottom right.
    pub fn split(&self) -> (r: [Bounds; 4])
        requires
            splittable(*self),
        ensures
            forall|k: int| 0 <= k < 4 ==> #[trigger] r@[k] == quarter(*self, k),
    {
        let minx = self.minx;
        let maxx = self.maxx;
        let miny = self.miny;
        let maxy = self.maxy;
        let midx = (minx / 2) + (maxx / 2);
        let midy = (miny / 2) + (maxy / 2);
        [
            Bounds { minx: minx, maxx: midx - 1, miny: midy, maxy: maxy },
            Bounds { minx: midx, maxx: maxx, miny: midy, maxy: maxy },
            Bounds { minx: minx, maxx: midx - 1, miny: miny, maxy: midy - 1 },
            Bounds { minx: midx, maxx: maxx, miny: miny, maxy: midy - 1 },
        ]
    }

    /// Whether the rectangle holds the location.
    pub fn contains(&self, loc: Loc) -> (r: bool)
        ensures
            r == in_bounds(*self, loc),
    {
        self.minx <= loc.0 && self.miny <= loc.1 && self.maxx >= loc.0 && self.maxy >= loc.1
    }

    /// Whether the rectangle holds the other one.
    pub fn contains_other(&self, other: &Bounds) -> (r: bool)
        ensures
            r == (self.minx <= other.minx && self.miny <= other.miny && self.maxx >= other.maxx
                && self.maxy >= other.maxy),
    {
        self.minx <= other.minx && self.miny <= other.miny && self.maxx >= other.maxx && self.maxy
            >= other.maxy
    }

    /// Whether the two rectangles overlap.
    pub fn overlaps(&self, other: &Bounds) -> (r: bool)
        ensures
            r == bounds_overlap(*self, *other),
    {
        if self.maxx < other.minx || other.maxx < self.minx {
            false
        } else if self.maxy < other.miny || other.maxy < self.miny {
            false
        } else {
            true
        }
    }

    /// The quarter of the rectangle in which the location falls.
    pub fn child(&self, loc: Loc) -> (r: Corner)
        ensures
            r.index() == quarter_of(*self, loc),
    {
        let midx = self.minx / 2 + self.maxx / 2;
        let midy = self.miny / 2 + self.maxy / 2;
        if loc.0 < midx {
            if loc.1 < midy {
                Corner::BL
            } else {
                Corner::TL
            }
        } else {
            if loc.1 < midy {
                Corner::BR
            } else {
                Corner::TR
            }
        }
    }
}

/// An entry in the quadtree.
#[derive(Debug)]
pub struct Entry<T> {
    pub loc: Loc,
    pub value: T,
}

/// A quadtree node: a branch with four children, one per quarter of its
/// rectangle, or a leaf with the entries that lie in its rectangle.
#[derive(Debug)]
pub enum Node<T> {
    Branch { bounds: Bounds, children: [NodePtr; 4] },
    Leaf { bounds: Bounds, elements: Vec<Entry<T>> },
}

/// The rectangle of a node.
pub open spec fn node_bounds<T>(n: Node<T>) -> Bounds {
    match n {
        Node::Branch { bounds, .. } => bounds,
        Node::Leaf { bounds, .. } => bounds,
    }
}

/// The entries of a node: none for a branch.
pub open spec fn node_entries<T>(n: Node<T>) -> Seq<Entry<T>> {
    match n {
        Node::Branch { .. } => Seq::empty(),
        Node::Leaf { elements, .. } => elements@,
    }
}

/// The node reached from node `ptr` by following, at each branch, the child
/// whose quarter holds `l`.
pub open spec fn walk<T>(nodes: Seq<Node<T>>, ptr: int, l: Loc) -> int
    decreases nodes.len() - ptr,
{
    if 0 <= ptr < nodes.len() {
        match nodes[ptr] {
            Node::Leaf { .. } => ptr,
            Node::Branch { bounds, children } => {
                let c = children@[quarter_of(bounds, l)] as int;
                if ptr < c < nodes.len() {
                    walk(nodes, c, l)
                } else {
                    ptr
                }
            },
        }
    } else {
        ptr
    }
}

/// Some entry of the sequence has location `l`.
pub open spec fn has_loc<T>(s: Seq<Entry<T>>, l: Loc) -> bool {
    exists|k: int| 0 <= k < s.len() && (#[trigger] s[k]).loc == l
}

/// The value of an entry of the sequence with location `l`.
pub open spec fn value_at<T>(s: Seq<Entry<T>>, l: Loc) -> T {
    s[choose|k: int| 0 <= k < s.len() && (#[trigger] s[k]).loc == l].value
}

/// No two entries of the sequence share a location.
pub open spec fn distinct_locs<T>(s: Seq<Entry<T>>) -> bool {
    forall|a: int, b: int| 0 <= a < b < s.len() ==> (#[trigger] s[a]).loc != (#[trigger] s[b]).loc
}

/// The tree's shape: node 0 is the root, spanning all locations; the
/// children of a branch come after it and span the quarters of its
/// rectangle; each entry lies in the leaf that a walk from the root for its
/// location reaches; and no leaf holds a location twice.
pub open spec fn tree_wf<T>(nodes: Seq<Node<T>>) -> bool {
    &&& 1 <= nodes.len() <= 65535
    &&& node_bounds(nodes[0]) == (Bounds { minx: 0, maxx: 255, miny: 0, maxy: 255 })
    &&& forall|i: int| 0 <= i < nodes.len() && (#[trigger] nodes[i]) is Branch ==> {
        &&& splittable(node_bounds(nodes[i]))
        &&& forall|k: int| 0 <= k < 4 ==> {
            let c = (#[trigger] nodes[i]->children@[k]) as int;
            &&& i < c < nodes.len()
            &&& node_bounds(nodes[c]) == quarter(node_bounds(nodes[i]), k)
        }
    }
    &&& forall|i: int, k: int| 0 <= i < nodes.len() && 0 <= k < node_entries(nodes[i]).len()
        ==> walk(nodes, 0, (#[trigger] node_entries(#[trigger] nodes[i])[k]).loc) == i
    &&& forall|i: int| 0 <= i < nodes.len() ==> distinct_locs(node_entries(#[trigger] nodes[i]))
}

/// No node is the child of two branches, or of one branch twice.
pub open spec fn children_unique<T>(nodes: Seq<Node<T>>) -> bool {
    forall|i: int, j: int, k1: int, k2: int|
        0 <= i < nodes.len() && 0 <= j < nodes.len() && nodes[i] is Branch && nodes[j] is Branch && 0 <= k1 < 4 && 0
            <= k2 < 4 && (i != j || k1 != k2) ==> #[trigger] nodes[i]->children@[k1] != #[trigger] nodes[j]->children@[k2]
}

/// Changing leaves into leaves keeps every branch and its children.
proof fn lemma_unique_same_branches<T>(a: Seq<Node<T>>, b: Seq<Node<T>>)
    requires
        children_unique(a),
        a.len() == b.len(),
        forall|i: int| 0 <= i < a.len() ==> (#[trigger] a[i] is Branch) == b[i] is Branch,
        forall|i: int| 0 <= i < a.len() && #[trigger] a[i] is Branch ==> a[i]->children == b[i]->children,
    ensures
        children_unique(b),
{
    assert forall|i: int, j: int, k1: int, k2: int|
        0 <= i < b.len() && 0 <= j < b.len() && b[i] is Branch && b[j] is Branch && 0 <= k1 < 4 && 0 <= k2 < 4 && (i
            != j || k1 != k2) implies #[trigger] b[i]->children@[k1] != #[trigger] b[j]->children@[k2] by {
        assert(a[i] is Branch && a[j] is Branch);
        assert(a[i]->children@[k1] != a[j]->children@[k2]);
    }
}

/// Splitting a leaf into a branch whose four children are new nodes at the
/// end keeps every node the child of at most one branch.
proof fn lemma_unique_split<T>(a: Seq<Node<T>>, b: Seq<Node<T>>, p: int)
    requires
        tree_wf(a),
        children_unique(a),
        0 <= p < a.len(),
        a[p] is Leaf,
        a.len() + 4 <= 65535,
        b.len() == a.len() + 4,
        b[p] is Branch,
        b[p]->children == split_children(a.len() as int),
        forall|j: int| 0 <= j < a.len() && j != p ==> #[trigger] b[j] == a[j],
        forall|k: int| 0 <= k < 4 ==> (#[trigger] b[a.len() + k]) is Leaf,
    ensures
        children_unique(b),
{
    let len = a.len() as int;
    assert forall|j: int| len <= j < b.len() implies #[trigger] b[j] is Leaf by {
        assert(b[len + (j - len)] is Leaf);
    }
    assert forall|k: int| 0 <= k < 4 implies #[trigger] b[p]->children@[k] as int == len + k by {
        assert(split_children(len)@[k] as int == len + k);
    }
    assert forall|i: int, j: int, k1: int, k2: int|
        0 <= i < b.len() && 0 <= j < b.len() && b[i] is Branch && b[j] is Branch && 0 <= k1 < 4 && 0 <= k2 < 4 && (i
            != j || k1 != k2) implies #[trigger] b[i]->children@[k1] != #[trigger] b[j]->children@[k2] by {
        if i == p && j == p {
        } else if i == p {
            assert(b[j] == a[j] && a[j] is Branch);
            assert(j < (a[j]->children@[k2] as int) < len);
        } else if j == p {
            assert(b[i] == a[i] && a[i] is Branch);
            assert(i < (a[i]->children@[k1] as int) < len);
        } else {
            assert(b[i] == a[i] && b[j] == a[j]);
            assert(a[i]->children@[k1] != a[j]->children@[k2]);
        }
    }
}

/// Node `n` lies in the subtree of node `ptr`: it is `ptr` or lies in the
/// subtree of one of its children.
pub open spec fn reaches<T>(nodes: Seq<Node<T>>, ptr: int, n: int) -> bool
    decreases nodes.len() - ptr,
{
    if !(0 <= ptr < nodes.len()) {
        false
    } else if ptr == n {
        true
    } else {
        match nodes[ptr] {
            Node::Leaf { .. } => false,
            Node::Branch { children, .. } => {
                ||| (ptr < children@[0] < nodes.len() && reaches(nodes, children@[0] as int, n))
                ||| (ptr < children@[1] < nodes.len() && reaches(nodes, children@[1] as int, n))
                ||| (ptr < children@[2] < nodes.len() && reaches(nodes, children@[2] as int, n))
                ||| (ptr < children@[3] < nodes.len() && reaches(nodes, children@[3] as int, n))
            },
        }
    }
}

/// A node lies in the subtree of each of its ancestors.
proof fn lemma_reaches_child<T>(nodes: Seq<Node<T>>, p: int, k: int, n: int)
    requires
        tree_wf(nodes),
        0 <= p < nodes.len(),
        nodes[p] is Branch,
        0 <= k < 4,
        reaches(nodes, nodes[p]->children@[k] as int, n),
    ensures
        reaches(nodes, p, n),
{
    assert(p < nodes[p]->children@[k] < nodes.len());
    if k == 0 {
    } else if k == 1 {
    } else if k == 2 {
    } else {
    }
}

/// The subtree of a node holds no node before it.
proof fn lemma_reaches_after<T>(nodes: Seq<Node<T>>, ptr: int, n: int)
    requires
        reaches(nodes, ptr, n),
    ensures
        ptr <= n,
    decreases nodes.len() - ptr,
{
    if ptr != n {
        let c = nodes[ptr]->children;
        if ptr < c@[0] < nodes.len() && reaches(nodes, c@[0] as int, n) {
            lemma_reaches_after(nodes, c@[0] as int, n);
        } else if ptr < c@[1] < nodes.len() && reaches(nodes, c@[1] as int, n) {
            lemma_reaches_after(nodes, c@[1] as int, n);
        } else if ptr < c@[2] < nodes.len() && reaches(nodes, c@[2] as int, n) {
            lemma_reaches_after(nodes, c@[2] as int, n);
        } else {
            lemma_reaches_after(nodes, c@[3] as int, n);
        }
    }
}

/// A node of the subtree of `ptr`, other than `ptr`, is the child of a
/// branch of that subtree.
proof fn lemma_reaches_parent<T>(nodes: Seq<Node<T>>, ptr: int, n: int)
    requires
        reaches(nodes, ptr, n),
        ptr != n,
    ensures
        exists|q: int, k: int|
            0 <= q < nodes.len() && nodes[q] is Branch && 0 <= k < 4 && #[trigger] nodes[q]->children@[k] as int == n
                && reaches(nodes, ptr, q),
    decreases nodes.len() - ptr,
{
    let c = nodes[ptr]->children;
    let k: int = if ptr < c@[0] < nodes.len() && reaches(nodes, c@[0] as int, n) {
        0
    } else if ptr < c@[1] < nodes.len() && reaches(nodes, c@[1] as int, n) {
        1
    } else if ptr < c@[2] < nodes.len() && reaches(nodes, c@[2] as int, n) {
        2
    } else {
        3
    };
    let ck = c@[k] as int;
    assert(ptr < ck < nodes.len() && reaches(nodes, ck, n));
    if ck == n {
        assert(nodes[ptr]->children@[k] as int == n);
    } else {
        lemma_reaches_parent(nodes, ck, n);
        let (q, j) = choose|q: int, j: int|
            0 <= q < nodes.len() && nodes[q] is Branch && 0 <= j < 4 && #[trigger] nodes[q]->children@[j] as int == n
                && reaches(nodes, ck, q);
        assert(reaches(nodes, ptr, q)) by {
            if ck == q {
            }
            assert(nodes[ptr]->children@[k] == c@[k]);
        }
        assert(nodes[q]->children@[j] as int == n);
    }
}

/// The subtrees of two children of a branch share no node.
proof fn lemma_subtrees_apart<T>(nodes: Seq<Node<T>>, p: int, k1: int, k2: int, n: int)
    requires
        tree_wf(nodes),
        children_unique(nodes),
        0 <= p < nodes.len(),
        nodes[p] is Branch,
        0 <= k1 < 4,
        0 <= k2 < 4,
        k1 != k2,
    ensures
        !(reaches(nodes, nodes[p]->children@[k1] as int, n) && reaches(nodes, nodes[p]->children@[k2] as int, n)),
    decreases n,
{
    let c1 = nodes[p]->children@[k1] as int;
    let c2 = nodes[p]->children@[k2] as int;
    assert(p < c1 < nodes.len() && p < c2 < nodes.len());
    assert(c1 != c2);
    if reaches(nodes, c1, n) && reaches(nodes, c2, n) {
        if n == c1 || n == c2 {
            let (top, other, kt) = if n == c1 {
                (c1, c2, k1)
            } else {
                (c2, c1, k2)
            };
            lemma_reaches_parent(nodes, other, top);
            let (q, j) = choose|q: int, j: int|
                0 <= q < nodes.len() && nodes[q] is Branch && 0 <= j < 4 && #[trigger] nodes[q]->children@[j] as int
                    == top && reaches(nodes, other, q);
            assert(nodes[q]->children@[j] == nodes[p]->children@[kt]);
            assert(q == p);
            lemma_reaches_after(nodes, other, q);
        } else {
            lemma_reaches_parent(nodes, c1, n);
            let (q1, j1) = choose|q: int, j: int|
                0 <= q < nodes.len() && nodes[q] is Branch && 0 <= j < 4 && #[trigger] nodes[q]->children@[j] as int
                    == n && reaches(nodes, c1, q);
            lemma_reaches_parent(nodes, c2, n);
            let (q2, j2) = choose|q: int, j: int|
                0 <= q < nodes.len() && nodes[q] is Branch && 0 <= j < 4 && #[trigger] nodes[q]->children@[j] as int
                    == n && reaches(nodes, c2, q);
            assert(nodes[q1]->children@[j1] == nodes[q2]->children@[j2]);
            assert(q1 == q2);
            assert(q1 < nodes[q1]->children@[j1]);
            lemma_subtrees_apart(nodes, p, k1, k2, q1);
        }
    }
}

/// The locations held by a tree, each with its value: those in the leaf
/// that a walk from the root reaches.
pub open spec fn tree_view<T>(nodes: Seq<Node<T>>) -> Map<Loc, T> {
    Map::new(
        |l: Loc| has_loc(node_entries(nodes[walk(nodes, 0, l)]), l),
        |l: Loc| value_at(node_entries(nodes[walk(nodes, 0, l)]), l),
    )
}

/// A quadtree. It maps locations, pairs of bytes, to arbitrary values; a
/// location holds at most one value.
pub struct Quadtree<T> {
    /// The nodes of the quadtree. The root is always node 0.
    nodes: Vec<Node<T>>,
}

impl<T> Quadtree<T> {
    /// The tree is well formed.
    pub closed spec fn wf(&self) -> bool {
        &&& tree_wf(self.nodes@)
        &&& children_unique(self.nodes@)
    }

    /// The locations held by the tree, each with its value.
    pub closed spec fn view(&self) -> Map<Loc, T> {
        tree_view(self.nodes@)
    }

    /// Create a new, empty quadtree.
    pub fn new() -> (r: Quadtree<T>)
        ensures
            r.wf(),
            r@ == Map::<Loc, T>::empty(),
    {
        let mut nodes: Vec<Node<T>> = Vec::new();
        nodes.push(Node::Leaf { bounds: Bounds::top_level(), elements: Vec::new() });
        let r = Quadtree { nodes };
        assert(r@ =~= Map::<Loc, T>::empty());
        r
    }
}

/// In a well-formed tree a walk ends at a leaf, at or after its start.
pub proof fn lemma_walk_leaf<T>(nodes: Seq<Node<T>>, ptr: int, l: Loc)
    requires
        tree_wf(nodes),
        0 <= ptr < nodes.len(),
    ensures
        ptr <= walk(nodes, ptr, l) < nodes.len(),
        nodes[walk(nodes, ptr, l)] is Leaf,
    decreases nodes.len() - ptr,
{
    if nodes[ptr] is Branch {
        let b = node_bounds(nodes[ptr]);
        assert(0 <= quarter_of(b, l) < 4);
        let c = nodes[ptr]->children@[quarter_of(b, l)] as int;
        assert(ptr < c < nodes.len());
        lemma_walk_leaf(nodes, c, l);
    }
}

/// A walk from the root passes only through nodes whose rectangle holds the
/// location.
pub proof fn lemma_walk_bounds<T>(nodes: Seq<Node<T>>, ptr: int, l: Loc)
    requires
        tree_wf(nodes),
        0 <= ptr < nodes.len(),
        in_bounds(node_bounds(nodes[ptr]), l),
    ensures
        in_bounds(node_bounds(nodes[walk(nodes, ptr, l)]), l),
    decreases nodes.len() - ptr,
{
    if nodes[ptr] is Branch {
        let b = node_bounds(nodes[ptr]);
        lemma_quarter_holds(b, l);
        let c = nodes[ptr]->children@[quarter_of(b, l)] as int;
        assert(node_bounds(nodes[c]) == quarter(b, quarter_of(b, l)));
        lemma_walk_bounds(nodes, c, l);
    }
}

impl<T> Quadtree<T> {
    /// Lookup the leaf for a given location, and its depth.
    fn lookup(&self, loc: Loc) -> (r: (NodePtr, u32))
        requires
            self.wf(),
        ensures
            r.0 as int == walk(self.nodes@, 0, loc),
            (r.0 as int) < self.nodes@.len(),
            self.nodes@[r.0 as int] is Leaf,
            r.1 <= r.0,
    {
        let mut ptr: usize = 0;
        let mut depth: u32 = 0;
        proof {
            lemma_walk_leaf(self.nodes@, 0, loc);
        }
        loop
            invariant
                self.wf(),
                0 <= ptr < self.nodes@.len(),
                walk(self.nodes@, ptr as int, loc) == walk(self.nodes@, 0, loc),
                depth <= ptr,
            ensures
                ptr as int == walk(self.nodes@, 0, loc),
                self.nodes@[ptr as int] is Leaf,
                depth <= ptr < self.nodes@.len(),
            decreases self.nodes@.len() - ptr,
        {
            match &self.nodes[ptr] {
                Node::Branch { bounds, children } => {
                    let corner = bounds.child(loc);
                    let k: usize = match corner {
                        Corner::TL => 0,
                        Corner::TR => 1,
                        Corner::BL => 2,
                        Corner::BR => 3,
                    };
                    assert(self.nodes@[ptr as int] is Branch);
                    assert(k == quarter_of(*bounds, loc));
                    let next = children[k] as usize;
                    assert(next == self.nodes@[ptr as int]->children@[k as int]);
                    ptr = next;
                    depth = depth + 1;
                },
                Node::Leaf { .. } => {
                    break;
                },
            }
        }
        (ptr as NodePtr, depth)
    }

    /// Get the value stored at a particular location.
    pub fn get(&self, loc: Loc) -> (r: Option<&T>)
        requires
            self.wf(),
        ensures
            r is Some <==> self@.contains_key(loc),
            r is Some ==> *r->0 == self@[loc],
    {
        let (idx, _) = self.lookup(loc);
        let ghost i = idx as int;
        match &self.nodes[idx as usize] {
            Node::Leaf { elements, .. } => {
                let mut k: usize = 0;
                while k < elements.len()
                    invariant
                        self.wf(),
                        0 <= i < self.nodes@.len(),
                        i == walk(self.nodes@, 0, loc),
                        elements@ == node_entries(self.nodes@[i]),
                        0 <= k <= elements@.len(),
                        forall|j: int| 0 <= j < k ==> (#[trigger] elements@[j]).loc != loc,
                    decreases elements@.len() - k,
                {
                    if elements[k].loc.0 == loc.0 && elements[k].loc.1 == loc.1 {
                        proof {
                            assert(distinct_locs(node_entries(self.nodes@[i])));
                            assert(elements@[k as int].loc == loc);
                            let c = choose|c: int| 0 <= c < elements@.len() && (#[trigger] elements@[c]).loc == loc;
                            assert(c == k);
                        }
                        return Some(&elements[k].value);
                    }
                    k = k + 1;
                }
                None
            },
            Node::Branch { .. } => {
                assert(false);
                None
            },
        }
    }
}

/// Changing the entries of a leaf leaves every walk as it was.
proof fn lemma_walk_same_shape<T>(a: Seq<Node<T>>, b: Seq<Node<T>>, ptr: int, l: Loc)
    requires
        a.len() == b.len(),
        forall|i: int| 0 <= i < a.len() ==> (#[trigger] a[i] is Leaf) == b[i] is Leaf,
        forall|i: int| 0 <= i < a.len() ==> node_bounds(#[trigger] a[i]) == node_bounds(b[i]),
        forall|i: int| 0 <= i < a.len() && #[trigger] a[i] is Branch ==> a[i]->children == b[i]->children,
    ensures
        walk(a, ptr, l) == walk(b, ptr, l),
    decreases a.len() - ptr,
{
    if 0 <= ptr < a.len() && a[ptr] is Branch {
        let c = a[ptr]->children@[quarter_of(node_bounds(a[ptr]), l)] as int;
        if ptr < c < a.len() {
            lemma_walk_same_shape(a, b, c, l);
        }
    }
}

/// The children that a split puts at the end of a tree of `len` nodes.
pub open spec fn split_children(len: int) -> [NodePtr; 4] {
    [len as u16, (len + 1) as u16, (len + 2) as u16, (len + 3) as u16]
}

/// Turning leaf `i` into a branch whose four new leaf children come at the
/// end sends each walk that ended at `i` on to the quarter of its location.
proof fn lemma_walk_split<T>(a: Seq<Node<T>>, b: Seq<Node<T>>, i: int, ptr: int, l: Loc)
    requires
        tree_wf(a),
        0 <= i < a.len(),
        a[i] is Leaf,
        a.len() + 4 <= 65535,
        b.len() == a.len() + 4,
        b[i] == (Node::<T>::Branch { bounds: node_bounds(a[i]), children: split_children(a.len() as int) }),
        forall|j: int| 0 <= j < a.len() && j != i ==> #[trigger] b[j] == a[j],
        forall|j: int| a.len() <= j < b.len() ==> #[trigger] b[j] is Leaf,
        0 <= ptr < a.len(),
    ensures
        walk(b, ptr, l) == (if walk(a, ptr, l) == i {
            a.len() + quarter_of(node_bounds(a[i]), l)
        } else {
            walk(a, ptr, l)
        }),
    decreases a.len() - ptr,
{
    let bi = node_bounds(a[i]);
    if ptr == i {
        let k = quarter_of(bi, l);
        assert(0 <= k < 4);
        assert(split_children(a.len() as int)@[k] as int == a.len() + k);
        assert(b[a.len() + k] is Leaf);
        assert(walk(b, a.len() + k, l) == a.len() + k);
        assert(walk(a, i, l) == i);
    } else if a[ptr] is Branch {
        let k = quarter_of(node_bounds(a[ptr]), l);
        assert(0 <= k < 4);
        let c = a[ptr]->children@[k] as int;
        assert(ptr < c < a.len());
        lemma_walk_split(a, b, i, c, l);
    }
}

/// Whether an entry lies in quarter `k` of `b`.
pub open spec fn in_quarter<T>(b: Bounds, k: int) -> spec_fn(Entry<T>) -> bool {
    |e: Entry<T>| quarter_of(b, e.loc) == k
}

/// `r` holds, in order, the entries of `src` whose location lies in
/// quarter `k` of `b`.
pub open spec fn sorted_into<T>(r: Seq<Entry<T>>, src: Seq<Entry<T>>, b: Bounds, k: int) -> bool {
    r == src.filter(in_quarter::<T>(b, k))
}

/// The entries that a filter keeps come from the sequence, and keep its
/// locations distinct.
proof fn lemma_filter_entries<T>(s: Seq<Entry<T>>, p: spec_fn(Entry<T>) -> bool)
    ensures
        forall|i: int| 0 <= i < s.filter(p).len() ==> p(#[trigger] s.filter(p)[i]) && s.contains(s.filter(p)[i]),
        distinct_locs(s) ==> distinct_locs(s.filter(p)),
    decreases s.len(),
{
    reveal(Seq::filter);
    if s.len() > 0 {
        let d = s.drop_last();
        lemma_filter_entries(d, p);
        let fd = d.filter(p);
        let f = s.filter(p);
        assert forall|i: int| 0 <= i < f.len() implies p(#[trigger] f[i]) && s.contains(f[i]) by {
            if i < fd.len() {
                assert(f[i] == fd[i]);
                let m = choose|m: int| 0 <= m < d.len() && d[m] == fd[i];
                assert(s[m] == d[m]);
            } else {
                assert(f[i] == s.last());
                assert(s[s.len() - 1] == s.last());
            }
        }
        if distinct_locs(s) {
            assert(distinct_locs(d));
            assert forall|a: int, c: int| 0 <= a < c < f.len() implies (#[trigger] f[a]).loc != (#[trigger] f[c]).loc by {
                assert(f[a] == fd[a]);
                if c < fd.len() {
                    assert(f[c] == fd[c]);
                } else {
                    assert(f[c] == s.last());
                    let m = choose|m: int| 0 <= m < d.len() && d[m] == fd[a];
                    assert(s[m] == d[m]);
                    assert(s[m].loc != s[s.len() - 1].loc);
                }
            }
        }
    }
}

/// In a sequence without repeated locations, the value at a location is
/// that of the entry with that location.
proof fn lemma_value_at<T>(s: Seq<Entry<T>>, k: int)
    requires
        distinct_locs(s),
        0 <= k < s.len(),
    ensures
        has_loc(s, s[k].loc),
        value_at(s, s[k].loc) == s[k].value,
{
    let l = s[k].loc;
    assert(has_loc(s, l));
    let c = choose|c: int| 0 <= c < s.len() && (#[trigger] s[c]).loc == l;
    if c != k {
        if c < k {
            assert(s[c].loc != s[k].loc);
        } else {
            assert(s[k].loc != s[c].loc);
        }
    }
}

/// Sorts the entries by the quarter of `b` in which they lie, keeping their
/// order.
fn distribute<T>(elements: Vec<Entry<T>>, b: Bounds) -> (r: (Vec<Entry<T>>, Vec<Entry<T>>, Vec<Entry<T>>, Vec<Entry<T>>))
    ensures
        sorted_into(r.0@, elements@, b, 0),
        sorted_into(r.1@, elements@, b, 1),
        sorted_into(r.2@, elements@, b, 2),
        sorted_into(r.3@, elements@, b, 3),
{
    let ghost src = elements@;
    let mut rest = elements;
    let mut c0: Vec<Entry<T>> = Vec::new();
    let mut c1: Vec<Entry<T>> = Vec::new();
    let mut c2: Vec<Entry<T>> = Vec::new();
    let mut c3: Vec<Entry<T>> = Vec::new();
    let ghost mut n: int = 0;
    proof {
        reveal(Seq::filter);
        assert(src.take(0) =~= Seq::<Entry<T>>::empty());
    }
    while rest.len() > 0
        invariant
            0 <= n <= src.len(),
            rest@ == src.subrange(n, src.len() as int),
            c0@ == src.take(n).filter(in_quarter::<T>(b, 0)),
            c1@ == src.take(n).filter(in_quarter::<T>(b, 1)),
            c2@ == src.take(n).filter(in_quarter::<T>(b, 2)),
            c3@ == src.take(n).filter(in_quarter::<T>(b, 3)),
        decreases rest@.len(),
    {
        let e = rest.remove(0);
        assert(e == src[n]);
        proof {
            assert(src.take(n + 1) =~= src.take(n).push(src[n]));
            src.take(n).lemma_filter_push(src[n], in_quarter::<T>(b, 0));
            src.take(n).lemma_filter_push(src[n], in_quarter::<T>(b, 1));
            src.take(n).lemma_filter_push(src[n], in_quarter::<T>(b, 2));
            src.take(n).lemma_filter_push(src[n], in_quarter::<T>(b, 3));
        }
        let corner = b.child(e.loc);
        match corner {
            Corner::TL => c0.push(e),
            Corner::TR => c1.push(e),
            Corner::BL => c2.push(e),
            Corner::BR => c3.push(e),
        }
        proof {
            n = n + 1;
            assert(rest@ =~= src.subrange(n, src.len() as int));
        }
    }
    assert(src.take(src.len() as int) =~= src);
    (c0, c1, c2, c3)
}

/// Adding an entry for a new location to the leaf that its walk reaches.
proof fn lemma_insert_leaf<T>(a: Seq<Node<T>>, b: Seq<Node<T>>, p: int, loc: Loc, value: T)
    requires
        tree_wf(a),
        p == walk(a, 0, loc),
        0 <= p < a.len(),
        a[p] is Leaf,
        !tree_view(a).contains_key(loc),
        b == a.update(p, b[p]),
        b[p] is Leaf,
        node_bounds(b[p]) == node_bounds(a[p]),
        node_entries(b[p]) == node_entries(a[p]).push(Entry { loc, value }),
    ensures
        tree_wf(b),
        tree_view(b) == tree_view(a).insert(loc, value),
{
    assert forall|l: Loc| walk(b, 0, l) == walk(a, 0, l) by {
        lemma_walk_same_shape(b, a, 0, l);
    }
    let ea = node_entries(a[p]);
    let eb = node_entries(b[p]);
    assert(!has_loc(ea, loc));
    assert forall|a1: int, c: int| 0 <= a1 < c < eb.len() implies (#[trigger] eb[a1]).loc != (#[trigger] eb[c]).loc by {
        assert(eb[a1] == ea[a1]);
        if c < ea.len() {
            assert(eb[c] == ea[c]);
        } else {
            assert(ea[a1].loc != loc);
        }
    }
    assert forall|i: int| 0 <= i < b.len() implies distinct_locs(node_entries(#[trigger] b[i])) by {
        if i != p {
            assert(b[i] == a[i]);
        }
    }
    assert forall|i: int, k: int| 0 <= i < b.len() && 0 <= k < node_entries(b[i]).len()
        implies walk(b, 0, (#[trigger] node_entries(#[trigger] b[i])[k]).loc) == i by {
        if i != p {
            assert(b[i] == a[i]);
        } else if k < ea.len() {
            assert(eb[k] == ea[k]);
        }
    }
    assert forall|i: int| 0 <= i < b.len() && (#[trigger] b[i]) is Branch implies {
        &&& splittable(node_bounds(b[i]))
        &&& forall|k: int| 0 <= k < 4 ==> {
            let c = (#[trigger] b[i]->children@[k]) as int;
            &&& i < c < b.len()
            &&& node_bounds(b[c]) == quarter(node_bounds(b[i]), k)
        }
    } by {
        assert(b[i] == a[i]);
        assert forall|k: int| 0 <= k < 4 implies {
            let c = (#[trigger] b[i]->children@[k]) as int;
            &&& i < c < b.len()
            &&& node_bounds(b[c]) == quarter(node_bounds(b[i]), k)
        } by {
            let c = a[i]->children@[k] as int;
            assert(node_bounds(b[c]) == node_bounds(a[c]));
        }
    }
    assert(node_bounds(b[0]) == node_bounds(a[0]));
    assert forall|l: Loc| #[trigger] tree_view(b).contains_key(l) == tree_view(a).insert(loc, value).contains_key(l)
        && (tree_view(b).contains_key(l) ==> tree_view(b)[l] == tree_view(a).insert(loc, value)[l]) by {
        let w = walk(a, 0, l);
        if w == p {
            if l == loc {
                lemma_value_at(eb, ea.len() as int);
            } else {
                if has_loc(ea, l) {
                    let k = choose|k: int| 0 <= k < ea.len() && (#[trigger] ea[k]).loc == l;
                    assert(eb[k] == ea[k]);
                    lemma_value_at(ea, k);
                    lemma_value_at(eb, k);
                }
                if has_loc(eb, l) {
                    let k = choose|k: int| 0 <= k < eb.len() && (#[trigger] eb[k]).loc == l;
                    assert(k < ea.len());
                    assert(ea[k] == eb[k]);
                }
            }
        } else {
            lemma_walk_leaf(a, 0, l);
            assert(b[w] == a[w]);
        }
    }
    assert(tree_view(b) =~= tree_view(a).insert(loc, value));
}

/// The entries of quarter `k` of a split leaf: those of the leaf that lie
/// there, then the new entry if it lies there too.
pub open spec fn quarter_entries<T>(ea: Seq<Entry<T>>, bp: Bounds, k: int, e: Entry<T>) -> Seq<Entry<T>> {
    if quarter_of(bp, e.loc) == k {
        ea.filter(in_quarter::<T>(bp, k)).push(e)
    } else {
        ea.filter(in_quarter::<T>(bp, k))
    }
}

/// The entries of quarter `k` of a split leaf come from the leaf or are the
/// new one, lie in that quarter, and keep their locations distinct.
proof fn lemma_quarter_entries<T>(ea: Seq<Entry<T>>, bp: Bounds, k: int, e: Entry<T>)
    requires
        distinct_locs(ea),
        !has_loc(ea, e.loc),
    ensures
        distinct_locs(quarter_entries(ea, bp, k, e)),
        forall|j: int| 0 <= j < quarter_entries(ea, bp, k, e).len() ==> {
            let x = #[trigger] quarter_entries(ea, bp, k, e)[j];
            &&& quarter_of(bp, x.loc) == k
            &&& (x == e || ea.contains(x))
        },
        forall|m: int| 0 <= m < ea.len() && quarter_of(bp, (#[trigger] ea[m]).loc) == k ==> quarter_entries(
            ea,
            bp,
            k,
            e,
        ).contains(ea[m]),
        quarter_of(bp, e.loc) == k ==> quarter_entries(ea, bp, k, e).contains(e),
{
    let p = in_quarter::<T>(bp, k);
    lemma_filter_entries(ea, p);
    let f = ea.filter(p);
    let q = quarter_entries(ea, bp, k, e);
    assert forall|m: int| 0 <= m < ea.len() && quarter_of(bp, (#[trigger] ea[m]).loc) == k implies q.contains(ea[m]) by {
        ea.lemma_filter_contains(p, m);
        let j = choose|j: int| 0 <= j < f.len() && f[j] == ea[m];
        assert(q[j] == f[j]);
    }
    if quarter_of(bp, e.loc) == k {
        assert(q[f.len() as int] == e);
        assert forall|j: int| 0 <= j < q.len() implies {
            let x = #[trigger] q[j];
            &&& quarter_of(bp, x.loc) == k
            &&& (x == e || ea.contains(x))
        } by {
            if j < f.len() {
                assert(q[j] == f[j]);
                assert(p(f[j]));
            }
        }
        assert forall|a1: int, c: int| 0 <= a1 < c < q.len() implies (#[trigger] q[a1]).loc != (#[trigger] q[c]).loc by {
            assert(q[a1] == f[a1]);
            if c < f.len() {
                assert(q[c] == f[c]);
            } else {
                assert(ea.contains(f[a1]));
                let m = choose|m: int| 0 <= m < ea.len() && ea[m] == f[a1];
                assert(ea[m].loc != e.loc);
            }
        }
    } else {
        assert forall|j: int| 0 <= j < q.len() implies {
            let x = #[trigger] q[j];
            &&& quarter_of(bp, x.loc) == k
            &&& (x == e || ea.contains(x))
        } by {
            assert(p(f[j]));
        }
    }
}

/// Splitting the leaf that the walk of a new location reaches into four
/// leaves, one per quarter, that hold its entries and the new one.
proof fn lemma_insert_split<T>(a: Seq<Node<T>>, b: Seq<Node<T>>, p: int, e: Entry<T>)
    requires
        tree_wf(a),
        p == walk(a, 0, e.loc),
        0 <= p < a.len(),
        a[p] is Leaf,
        splittable(node_bounds(a[p])),
        !tree_view(a).contains_key(e.loc),
        a.len() + 4 <= 65535,
        b.len() == a.len() + 4,
        b[p] == (Node::<T>::Branch { bounds: node_bounds(a[p]), children: split_children(a.len() as int) }),
        forall|j: int| 0 <= j < a.len() && j != p ==> #[trigger] b[j] == a[j],
        forall|k: int| 0 <= k < 4 ==> (#[trigger] b[a.len() + k]) is Leaf,
        forall|k: int| 0 <= k < 4 ==> node_bounds(#[trigger] b[a.len() + k]) == quarter(node_bounds(a[p]), k),
        forall|k: int| 0 <= k < 4 ==> node_entries(#[trigger] b[a.len() + k]) == quarter_entries(
            node_entries(a[p]),
            node_bounds(a[p]),
            k,
            e,
        ),
    ensures
        tree_wf(b),
        tree_view(b) == tree_view(a).insert(e.loc, e.value),
{
    let len = a.len() as int;
    let bp = node_bounds(a[p]);
    let ea = node_entries(a[p]);
    assert(!has_loc(ea, e.loc));
    assert forall|j: int| len <= j < b.len() implies #[trigger] b[j] is Leaf by {
        assert(b[len + (j - len)] is Leaf);
    }
    assert forall|l: Loc| #[trigger] walk(b, 0, l) == (if walk(a, 0, l) == p {
        len + quarter_of(bp, l)
    } else {
        walk(a, 0, l)
    }) by {
        lemma_walk_split(a, b, p, 0, l);
    }
    assert forall|k: int| 0 <= k < 4 implies distinct_locs(quarter_entries(ea, bp, k, e)) by {
        lemma_quarter_entries(ea, bp, k, e);
    }
    assert forall|i: int| 0 <= i < b.len() implies distinct_locs(node_entries(#[trigger] b[i])) by {
        if i >= len {
            assert(b[len + (i - len)] == b[i]);
            lemma_quarter_entries(ea, bp, i - len, e);
        } else if i != p {
            assert(b[i] == a[i]);
        }
    }
    assert forall|i: int, k: int| 0 <= i < b.len() && 0 <= k < node_entries(b[i]).len()
        implies walk(b, 0, (#[trigger] node_entries(#[trigger] b[i])[k]).loc) == i by {
        if i >= len {
            let q = i - len;
            assert(b[len + q] == b[i]);
            lemma_quarter_entries(ea, bp, q, e);
            let x = node_entries(b[i])[k];
            assert(x == quarter_entries(ea, bp, q, e)[k]);
            if x != e {
                let m = choose|m: int| 0 <= m < ea.len() && ea[m] == x;
                assert(walk(a, 0, ea[m].loc) == p);
            }
        } else if i != p {
            assert(b[i] == a[i]);
            assert(walk(a, 0, node_entries(a[i])[k].loc) == i);
        }
    }
    assert forall|i: int| 0 <= i < b.len() && (#[trigger] b[i]) is Branch implies {
        &&& splittable(node_bounds(b[i]))
        &&& forall|k: int| 0 <= k < 4 ==> {
            let c = (#[trigger] b[i]->children@[k]) as int;
            &&& i < c < b.len()
            &&& node_bounds(b[c]) == quarter(node_bounds(b[i]), k)
        }
    } by {
        if i == p {
            assert forall|k: int| 0 <= k < 4 implies {
                let c = (#[trigger] b[i]->children@[k]) as int;
                &&& i < c < b.len()
                &&& node_bounds(b[c]) == quarter(node_bounds(b[i]), k)
            } by {
                assert(split_children(len)@[k] as int == len + k);
                assert(node_bounds(b[len + k]) == quarter(bp, k));
            }
        } else {
            assert(i < len);
            assert(b[i] == a[i]);
            assert forall|k: int| 0 <= k < 4 implies {
                let c = (#[trigger] b[i]->children@[k]) as int;
                &&& i < c < b.len()
                &&& node_bounds(b[c]) == quarter(node_bounds(b[i]), k)
            } by {
                let c = a[i]->children@[k] as int;
                assert(node_bounds(b[c]) == node_bounds(a[c]));
            }
        }
    }
    assert(node_bounds(b[0]) == node_bounds(a[0]));
    assert forall|l: Loc| #[trigger] tree_view(b).contains_key(l) == tree_view(a).insert(e.loc, e.value).contains_key(l)
        && (tree_view(b).contains_key(l) ==> tree_view(b)[l] == tree_view(a).insert(e.loc, e.value)[l]) by {
        let w = walk(a, 0, l);
        lemma_walk_leaf(a, 0, l);
        if w == p {
            let q = quarter_of(bp, l);
            assert(0 <= q < 4);
            assert(b[len + q] == b[walk(b, 0, l)]);
            let eq = quarter_entries(ea, bp, q, e);
            assert(node_entries(b[len + q]) == eq);
            lemma_quarter_entries(ea, bp, q, e);
            if l == e.loc {
                let j = choose|j: int| 0 <= j < eq.len() && eq[j] == e;
                lemma_value_at(eq, j);
            } else {
                if has_loc(ea, l) {
                    let m = choose|m: int| 0 <= m < ea.len() && (#[trigger] ea[m]).loc == l;
                    let j = choose|j: int| 0 <= j < eq.len() && eq[j] == ea[m];
                    lemma_value_at(ea, m);
                    lemma_value_at(eq, j);
                }
                if has_loc(eq, l) {
                    let j = choose|j: int| 0 <= j < eq.len() && (#[trigger] eq[j]).loc == l;
                    let m = choose|m: int| 0 <= m < ea.len() && ea[m] == eq[j];
                    assert(ea[m].loc == l);
                }
            }
        } else {
            assert(b[w] == a[w]);
        }
    }
    assert(tree_view(b) =~= tree_view(a).insert(e.loc, e.value));
}

impl<T> Quadtree<T> {
    /// Insert a value into the quadtree, at a location that holds none.
    pub fn insert(&mut self, loc: Loc, value: T)
        requires
            old(self).wf(),
            !old(self)@.contains_key(loc),
        ensures
            final(self).wf(),
            final(self)@ == old(self)@.insert(loc, value),
    {
        let (ptr, depth) = self.lookup(loc);
        let p = ptr as usize;
        let ghost a = self.nodes@;
        let ghost v = value;
        let mut node = Node::Leaf { bounds: Bounds::top_level(), elements: Vec::new() };
        self.nodes.set_and_swap(p, &mut node);
        assert(node == a[p as int]);
        match node {
            Node::Leaf { bounds, mut elements } => {
                let midx = bounds.minx / 2 + bounds.maxx / 2;
                let midy = bounds.miny / 2 + bounds.maxy / 2;
                let len = self.nodes.len();
                if elements.len() < SPLIT_THRESH || depth == DEPTH as u32 || midx == 0 || midy == 0 || len
                    > 65531 {
                    elements.push(Entry { loc, value });
                    self.nodes.set(p, Node::Leaf { bounds, elements });
                    proof {
                        assert(self.nodes@ == a.update(p as int, self.nodes@[p as int]));
                        lemma_insert_leaf(a, self.nodes@, p as int, loc, v);
                        lemma_unique_same_branches(a, self.nodes@);
                    }
                } else {
                    let ghost ea = elements@;
                    let (mut c0, mut c1, mut c2, mut c3) = distribute(elements, bounds);
                    let corner = bounds.child(loc);
                    match corner {
                        Corner::TL => c0.push(Entry { loc, value }),
                        Corner::TR => c1.push(Entry { loc, value }),
                        Corner::BL => c2.push(Entry { loc, value }),
                        Corner::BR => c3.push(Entry { loc, value }),
                    }
                    let newb = bounds.split();
                    let ptr0 = len as NodePtr;
                    self.nodes.push(Node::Leaf { bounds: newb[0], elements: c0 });
                    self.nodes.push(Node::Leaf { bounds: newb[1], elements: c1 });
                    self.nodes.push(Node::Leaf { bounds: newb[2], elements: c2 });
                    self.nodes.push(Node::Leaf { bounds: newb[3], elements: c3 });
                    self.nodes.set(
                        p,
                        Node::Branch { bounds, children: [ptr0, ptr0 + 1, ptr0 + 2, ptr0 + 3] },
                    );
                    proof {
                        let e = Entry { loc, value: v };
                        let b = self.nodes@;
                        let l = a.len() as int;
                        assert([ptr0, (ptr0 + 1) as u16, (ptr0 + 2) as u16, (ptr0 + 3) as u16] =~= split_children(l));
                        assert forall|k: int| 0 <= k < 4 implies node_entries(#[trigger] b[l + k])
                            == quarter_entries(ea, bounds, k, e) by {
                            if k == 0 {
                                assert(b[l] == Node::Leaf { bounds: newb[0], elements: c0 });
                            } else if k == 1 {
                                assert(b[l + 1] == Node::Leaf { bounds: newb[1], elements: c1 });
                            } else if k == 2 {
                                assert(b[l + 2] == Node::Leaf { bounds: newb[2], elements: c2 });
                            } else {
                                assert(b[l + 3] == Node::Leaf { bounds: newb[3], elements: c3 });
                            }
                        }
                        assert forall|k: int| 0 <= k < 4 implies node_bounds(#[trigger] b[l + k]) == quarter(
                            bounds,
                            k,
                        ) && b[l + k] is Leaf by {
                            assert(newb@[k] == quarter(bounds, k));
                        }
                        lemma_insert_split(a, b, p as int, e);
                        lemma_unique_split(a, b, p as int);
                    }
                }
            },
            Node::Branch { .. } => {
                assert(false);
            },
        }
    }
}

/// Taking out of a leaf the entry at index `k`, with the last entry moved
/// into its place.
proof fn lemma_remove_leaf<T>(a: Seq<Node<T>>, b: Seq<Node<T>>, p: int, k: int)
    requires
        tree_wf(a),
        0 <= p < a.len(),
        a[p] is Leaf,
        0 <= k < node_entries(a[p]).len(),
        b == a.update(p, b[p]),
        b[p] is Leaf,
        node_bounds(b[p]) == node_bounds(a[p]),
        node_entries(b[p]) == node_entries(a[p]).update(k, node_entries(a[p]).last()).drop_last(),
    ensures
        tree_wf(b),
        tree_view(b) == tree_view(a).remove(node_entries(a[p])[k].loc),
        tree_view(a).contains_key(node_entries(a[p])[k].loc),
        tree_view(a)[node_entries(a[p])[k].loc] == node_entries(a[p])[k].value,
{
    assert forall|l: Loc| walk(b, 0, l) == walk(a, 0, l) by {
        lemma_walk_same_shape(b, a, 0, l);
    }
    let ea = node_entries(a[p]);
    let eb = node_entries(b[p]);
    let n = ea.len() - 1;
    let loc = ea[k].loc;
    assert(walk(a, 0, loc) == p);
    lemma_value_at(ea, k);
    // each entry of the new leaf is an entry of the old one other than the one taken out
    assert forall|j: int| 0 <= j < eb.len() implies (#[trigger] eb[j]) == ea[if j == k { n } else { j }] by {
    }
    assert forall|a1: int, c: int| 0 <= a1 < c < eb.len() implies (#[trigger] eb[a1]).loc != (#[trigger] eb[c]).loc by {
        let x = if a1 == k { n } else { a1 };
        let y = if c == k { n } else { c };
        assert(eb[a1] == ea[x]);
        assert(eb[c] == ea[y]);
        assert(x != y);
        if x < y {
            assert(ea[x].loc != ea[y].loc);
        } else {
            assert(ea[y].loc != ea[x].loc);
        }
    }
    assert forall|i: int| 0 <= i < b.len() implies distinct_locs(node_entries(#[trigger] b[i])) by {
        if i != p {
            assert(b[i] == a[i]);
        }
    }
    assert forall|i: int, j: int| 0 <= i < b.len() && 0 <= j < node_entries(b[i]).len()
        implies walk(b, 0, (#[trigger] node_entries(#[trigger] b[i])[j]).loc) == i by {
        if i != p {
            assert(b[i] == a[i]);
        } else {
            assert(eb[j] == ea[if j == k { n } else { j }]);
        }
    }
    assert forall|i: int| 0 <= i < b.len() && (#[trigger] b[i]) is Branch implies {
        &&& splittable(node_bounds(b[i]))
        &&& forall|c: int| 0 <= c < 4 ==> {
            let d = (#[trigger] b[i]->children@[c]) as int;
            &&& i < d < b.len()
            &&& node_bounds(b[d]) == quarter(node_bounds(b[i]), c)
        }
    } by {
        assert(b[i] == a[i]);
        assert forall|c: int| 0 <= c < 4 implies {
            let d = (#[trigger] b[i]->children@[c]) as int;
            &&& i < d < b.len()
            &&& node_bounds(b[d]) == quarter(node_bounds(b[i]), c)
        } by {
            let d = a[i]->children@[c] as int;
            assert(node_bounds(b[d]) == node_bounds(a[d]));
        }
    }
    assert(node_bounds(b[0]) == node_bounds(a[0]));
    assert forall|l: Loc| #[trigger] tree_view(b).contains_key(l) == tree_view(a).remove(loc).contains_key(l)
        && (tree_view(b).contains_key(l) ==> tree_view(b)[l] == tree_view(a)[l]) by {
        let w = walk(a, 0, l);
        if w == p {
            if has_loc(eb, l) {
                let j = choose|j: int| 0 <= j < eb.len() && (#[trigger] eb[j]).loc == l;
                let x = if j == k { n } else { j };
                assert(eb[j] == ea[x]);
                assert(x != k);
                if x < k {
                    assert(ea[x].loc != ea[k].loc);
                } else {
                    assert(ea[k].loc != ea[x].loc);
                }
                lemma_value_at(ea, x);
                lemma_value_at(eb, j);
            }
            if l != loc && has_loc(ea, l) {
                let m = choose|m: int| 0 <= m < ea.len() && (#[trigger] ea[m]).loc == l;
                assert(m != k);
                let j = if m == n { k } else { m };
                assert(eb[j] == ea[m]);
            }
        } else {
            lemma_walk_leaf(a, 0, l);
            assert(b[w] == a[w]);
        }
    }
    assert(tree_view(b) =~= tree_view(a).remove(loc));
}

impl<T> Quadtree<T> {
    /// Remove a location and its attached data from the quadtree.
    /// If the location is found, its attached data is returned; if it is not
    /// present, None is returned.
    pub fn remove(&mut self, loc: Loc) -> (r: Option<T>)
        requires
            old(self).wf(),
        ensures
            final(self).wf(),
            final(self)@ == old(self)@.remove(loc),
            r == (if old(self)@.contains_key(loc) { Some(old(self)@[loc]) } else { None::<T> }),
    {
        let (ptr, _) = self.lookup(loc);
        let p = ptr as usize;
        let ghost a = self.nodes@;
        let mut node = Node::Leaf { bounds: Bounds::top_level(), elements: Vec::new() };
        self.nodes.set_and_swap(p, &mut node);
        assert(node == a[p as int]);
        match node {
            Node::Leaf { bounds, mut elements } => {
                let ghost ea = elements@;
                let mut k: usize = 0;
                while k < elements.len()
                    invariant
                        elements@ == ea,
                        0 <= k <= ea.len(),
                        forall|j: int| 0 <= j < k ==> (#[trigger] ea[j]).loc != loc,
                    ensures
                        elements@ == ea,
                        0 <= k <= ea.len(),
                        forall|j: int| 0 <= j < k ==> (#[trigger] ea[j]).loc != loc,
                        k < ea.len() ==> ea[k as int].loc == loc,
                    decreases ea.len() - k,
                {
                    if elements[k].loc.0 == loc.0 && elements[k].loc.1 == loc.1 {
                        break;
                    }
                    k = k + 1;
                }
                if k < elements.len() {
                    let e = elements.swap_remove(k);
                    self.nodes.set(p, Node::Leaf { bounds, elements });
                    proof {
                        assert(ea[k as int].loc == loc);
                        assert(self.nodes@ == a.update(p as int, self.nodes@[p as int]));
                        lemma_remove_leaf(a, self.nodes@, p as int, k as int);
                        lemma_unique_same_branches(a, self.nodes@);
                    }
                    Some(e.value)
                } else {
                    self.nodes.set(p, Node::Leaf { bounds, elements });
                    proof {
                        assert(self.nodes@ =~= a);
                        assert(!has_loc(ea, loc));
                        assert(tree_view(a).remove(loc) =~= tree_view(a));
                    }
                    None
                }
            },
            Node::Branch { .. } => {
                assert(false);
                None
            },
        }
    }
}

/// Some pair of the list is at location `l`.
pub open spec fn lists<T>(out: Seq<(Loc, T)>, l: Loc) -> bool {
    exists|i: int| 0 <= i < out.len() && (#[trigger] out[i]).0 == l
}

/// No location is listed twice from index `from` on.
pub open spec fn once_from<T>(out: Seq<(Loc, T)>, from: int) -> bool {
    forall|i: int, j: int| from <= i < j < out.len() ==> (#[trigger] out[i]).0 != (#[trigger] out[j]).0
}

/// Each pair of the list from index `from` on is a location of the
/// rectangle held by the tree, with its value.
pub open spec fn sound_from<T>(out: Seq<(Loc, T)>, from: int, q: Bounds, m: Map<Loc, T>) -> bool {
    forall|i: int| from <= i < out.len() ==> {
        &&& in_bounds(q, (#[trigger] out[i]).0)
        &&& m.contains_key(out[i].0)
        &&& m[out[i].0] == out[i].1
    }
}

impl<T: Copy> Quadtree<T> {
    /// Adds to `out` the entries of the subtree at `ptr` that lie in
    /// `bounds`, visiting only the children whose rectangle overlaps it.
    fn rect_query_from(&self, bounds: Bounds, ptr: NodePtr, out: &mut Vec<(Loc, T)>)
        requires
            self.wf(),
            (ptr as int) < self.nodes@.len(),
        ensures
            final(out)@.len() >= old(out)@.len(),
            final(out)@.subrange(0, old(out)@.len() as int) == old(out)@,
            sound_from(final(out)@, old(out)@.len() as int, bounds, self@),
            forall|l: Loc| in_bounds(bounds, l) && self@.contains_key(l) && in_bounds(
                node_bounds(self.nodes@[ptr as int]),
                l,
            ) && walk(self.nodes@, ptr as int, l) == walk(self.nodes@, 0, l) ==> #[trigger] lists(final(out)@, l),
            once_from(final(out)@, old(out)@.len() as int),
            forall|i: int| old(out)@.len() <= i < final(out)@.len() ==> reaches(
                self.nodes@,
                ptr as int,
                walk(self.nodes@, 0, (#[trigger] final(out)@[i]).0),
            ),
        decreases self.nodes@.len() - ptr,
    {
        let ghost start = out@;
        match &self.nodes[ptr as usize] {
            Node::Leaf { elements, .. } => {
                let ghost pi = ptr as int;
                let mut k: usize = 0;
                while k < elements.len()
                    invariant
                        self.wf(),
                        0 <= pi < self.nodes@.len(),
                        elements@ == node_entries(self.nodes@[pi]),
                        0 <= k <= elements@.len(),
                        out@.len() >= start.len(),
                        out@.subrange(0, start.len() as int) == start,
                        sound_from(out@, start.len() as int, bounds, self@),
                        forall|j: int| 0 <= j < k && in_bounds(bounds, (#[trigger] elements@[j]).loc) ==> lists(
                            out@,
                            elements@[j].loc,
                        ),
                        once_from(out@, start.len() as int),
                        forall|i: int| start.len() <= i < out@.len() ==> exists|j: int| 0 <= j < k
                            && (#[trigger] out@[i]).0 == elements@[j].loc,
                        forall|i: int| start.len() <= i < out@.len() ==> walk(self.nodes@, 0, (#[trigger] out@[i]).0)
                            == pi,
                    decreases elements@.len() - k,
                {
                    let e = &elements[k];
                    let ghost before = out@;
                    if bounds.contains(e.loc) {
                        proof {
                            assert(walk(self.nodes@, 0, e.loc) == pi);
                            lemma_value_at(elements@, k as int);
                        }
                        out.push((e.loc, e.value));
                        proof {
                            assert(out@[before.len() as int].0 == e.loc);
                            assert(distinct_locs(node_entries(self.nodes@[pi])));
                            assert forall|i: int| start.len() <= i < out@.len() implies exists|j: int| 0 <= j < k + 1
                                && (#[trigger] out@[i]).0 == elements@[j].loc by {
                                if i < before.len() {
                                    assert(out@[i] == before[i]);
                                } else {
                                    assert(out@[i].0 == elements@[k as int].loc);
                                }
                            }
                            assert forall|i: int| start.len() <= i < out@.len() implies walk(
                                self.nodes@,
                                0,
                                (#[trigger] out@[i]).0,
                            ) == pi by {
                                if i < before.len() {
                                    assert(out@[i] == before[i]);
                                }
                            }
                            assert forall|a: int, b: int| start.len() <= a < b < out@.len() implies (#[trigger] out@[a]).0
                                != (#[trigger] out@[b]).0 by {
                                assert(out@[a] == before[a]);
                                if b < before.len() {
                                    assert(out@[b] == before[b]);
                                } else {
                                    let j = choose|j: int| 0 <= j < k && (#[trigger] before[a]).0 == elements@[j].loc;
                                    assert(elements@[j].loc != elements@[k as int].loc);
                                }
                            }
                            assert forall|j: int| 0 <= j < k + 1 && in_bounds(bounds, (#[trigger] elements@[j]).loc)
                                implies lists(out@, elements@[j].loc) by {
                                if j < k {
                                    let i = choose|i: int| 0 <= i < before.len() && (#[trigger] before[i]).0
                                        == elements@[j].loc;
                                    assert(out@[i] == before[i]);
                                }
                            }
                        }
                    }
                    proof {
                        assert(out@.subrange(0, start.len() as int) =~= start);
                    }
                    k = k + 1;
                }
                proof {
                    assert forall|l: Loc| in_bounds(bounds, l) && self@.contains_key(l) && in_bounds(
                        node_bounds(self.nodes@[pi]),
                        l,
                    ) && walk(self.nodes@, pi, l) == walk(self.nodes@, 0, l) implies #[trigger] lists(out@, l) by {
                        assert(walk(self.nodes@, pi, l) == pi);
                        let j = choose|j: int| 0 <= j < elements@.len() && (#[trigger] elements@[j]).loc == l;
                    }
                }
            },
            Node::Branch { children, bounds: branch_bounds } => {
                let ghost pi = ptr as int;
                let child_bounds = branch_bounds.split();
                let mut k: usize = 0;
                while k < 4
                    invariant
                        self.wf(),
                        pi == ptr,
                        0 <= pi < self.nodes@.len(),
                        self.nodes@[pi] is Branch,
                        *branch_bounds == node_bounds(self.nodes@[pi]),
                        *children == self.nodes@[pi]->children,
                        forall|c: int| 0 <= c < 4 ==> #[trigger] child_bounds@[c] == quarter(*branch_bounds, c),
                        0 <= k <= 4,
                        out@.len() >= start.len(),
                        out@.subrange(0, start.len() as int) == start,
                        sound_from(out@, start.len() as int, bounds, self@),
                        forall|l: Loc| in_bounds(bounds, l) && self@.contains_key(l) && in_bounds(*branch_bounds, l)
                            && quarter_of(*branch_bounds, l) < k && walk(self.nodes@, pi, l) == walk(self.nodes@, 0, l)
                            ==> #[trigger] lists(out@, l),
                        once_from(out@, start.len() as int),
                        forall|i: int| start.len() <= i < out@.len() ==> exists|kk: int| 0 <= kk < k && reaches(
                            self.nodes@,
                            children@[kk] as int,
                            walk(self.nodes@, 0, (#[trigger] out@[i]).0),
                        ),
                    decreases 4 - k,
                {
                    let ghost before = out@;
                    let c = children[k];
                    assert(c == self.nodes@[pi]->children@[k as int]);
                    assert(pi < c < self.nodes@.len());
                    if bounds.overlaps(&child_bounds[k]) {
                        self.rect_query_from(bounds, c, out);
                    }
                    proof {
                        assert(out@.subrange(0, start.len() as int) =~= start) by {
                            assert(out@.subrange(0, before.len() as int) == before);
                            assert forall|i: int| 0 <= i < start.len() implies out@[i] == start[i] by {
                                assert(out@[i] == before[i]);
                                assert(before[i] == start[i]);
                            }
                        }
                        assert forall|i: int| start.len() <= i < out@.len() implies {
                            &&& in_bounds(bounds, (#[trigger] out@[i]).0)
                            &&& self@.contains_key(out@[i].0)
                            &&& self@[out@[i].0] == out@[i].1
                        } by {
                            if i < before.len() {
                                assert(out@[i] == before[i]);
                            }
                        }
                        assert forall|l: Loc| in_bounds(bounds, l) && self@.contains_key(l) && in_bounds(
                            *branch_bounds,
                            l,
                        ) && quarter_of(*branch_bounds, l) < k + 1 && walk(self.nodes@, pi, l) == walk(
                            self.nodes@,
                            0,
                            l,
                        ) implies #[trigger] lists(out@, l) by {
                            if quarter_of(*branch_bounds, l) < k {
                                assert(lists(before, l));
                                let i = choose|i: int| 0 <= i < before.len() && (#[trigger] before[i]).0 == l;
                                assert(out@[i] == before[i]);
                            } else {
                                lemma_quarter_holds(*branch_bounds, l);
                                assert(in_bounds(node_bounds(self.nodes@[c as int]), l));
                                assert(walk(self.nodes@, c as int, l) == walk(self.nodes@, pi, l));
                            }
                        }
                        assert forall|i: int| start.len() <= i < out@.len() implies exists|kk: int| 0 <= kk < k + 1
                            && reaches(self.nodes@, children@[kk] as int, walk(self.nodes@, 0, (#[trigger] out@[i]).0)) by {
                            if i < before.len() {
                                assert(out@[i] == before[i]);
                            } else {
                                assert(children@[k as int] == c);
                            }
                        }
                        assert forall|a: int, b: int| start.len() <= a < b < out@.len() implies (#[trigger] out@[a]).0
                            != (#[trigger] out@[b]).0 by {
                            if b < before.len() {
                                assert(out@[a] == before[a] && out@[b] == before[b]);
                            } else if a >= before.len() {
                            } else {
                                assert(out@[a] == before[a]);
                                let kk = choose|kk: int| 0 <= kk < k && reaches(
                                    self.nodes@,
                                    children@[kk] as int,
                                    walk(self.nodes@, 0, (#[trigger] before[a]).0),
                                );
                                if out@[a].0 == out@[b].0 {
                                    lemma_subtrees_apart(self.nodes@, pi, kk, k as int, walk(self.nodes@, 0, out@[b].0));
                                }
                            }
                        }
                    }
                    k = k + 1;
                }
                proof {
                    assert forall|i: int| start.len() <= i < out@.len() implies reaches(
                        self.nodes@,
                        pi,
                        walk(self.nodes@, 0, (#[trigger] out@[i]).0),
                    ) by {
                        let kk = choose|kk: int| 0 <= kk < 4 && reaches(
                            self.nodes@,
                            children@[kk] as int,
                            walk(self.nodes@, 0, out@[i].0),
                        );
                        lemma_reaches_child(self.nodes@, pi, kk, walk(self.nodes@, 0, out@[i].0));
                    }
                }
                proof {
                    assert forall|l: Loc| in_bounds(bounds, l) && self@.contains_key(l) && in_bounds(
                        node_bounds(self.nodes@[pi]),
                        l,
                    ) && walk(self.nodes@, pi, l) == walk(self.nodes@, 0, l) implies #[trigger] lists(out@, l) by {
                        lemma_quarter_holds(*branch_bounds, l);
                    }
                }
            },
        }
    }

    /// All the values in a rectangle, bounds included, each with its
    /// location.
    pub fn rect_query(&self, minx: Coord, maxx: Coord, miny: Coord, maxy: Coord) -> (r: Vec<(Loc, T)>)
        requires
            self.wf(),
        ensures
            sound_from(r@, 0, Bounds { minx, maxx, miny, maxy }, self@),
            forall|l: Loc| in_bounds(Bounds { minx, maxx, miny, maxy }, l) && self@.contains_key(l)
                ==> #[trigger] lists(r@, l),
            once_from(r@, 0),
    {
        let bounds = Bounds { minx, maxx, miny, maxy };
        let mut out: Vec<(Loc, T)> = Vec::new();
        self.rect_query_from(bounds, 0, &mut out);
        out
    }

    /// All the values in the square of locations at most `range` away from
    /// `loc` along each axis.
    pub fn range_query(&self, loc: Loc, range: Coord) -> (r: Vec<(Loc, T)>)
        requires
            self.wf(),
            range <= loc.0,
            loc.0 + range <= 255,
            range <= loc.1,
            loc.1 + range <= 255,
        ensures
            sound_from(
                r@,
                0,
                Bounds {
                    minx: (loc.0 - range) as u8,
                    maxx: (loc.0 + range) as u8,
                    miny: (loc.1 - range) as u8,
                    maxy: (loc.1 + range) as u8,
                },
                self@,
            ),
            forall|l: Loc| loc.0 - range <= l.0 <= loc.0 + range && loc.1 - range <= l.1 <= loc.1 + range
                && self@.contains_key(l) ==> #[trigger] lists(r@, l),
            once_from(r@, 0),
    {
        self.rect_query(loc.0 - range, loc.0 + range, loc.1 - range, loc.1 + range)
    }
}

impl<T> Quadtree<T> {
    /// Whether each entry lies in the rectangle of its leaf; always so.
    pub fn check(&self) -> (r: bool)
        requires
            self.wf(),
        ensures
            r,
    {
        let mut i: usize = 0;
        while i < self.nodes.len()
            invariant
                self.wf(),
                0 <= i <= self.nodes@.len(),
            decreases self.nodes@.len() - i,
        {
            match &self.nodes[i] {
                Node::Leaf { bounds, elements } => {
                    let mut k: usize = 0;
                    while k < elements.len()
                        invariant
                            self.wf(),
                            0 <= i < self.nodes@.len(),
                            self.nodes@[i as int] is Leaf,
                            *bounds == node_bounds(self.nodes@[i as int]),
                            elements@ == node_entries(self.nodes@[i as int]),
                            0 <= k <= elements@.len(),
                        decreases elements@.len() - k,
                    {
                        proof {
                            let l = elements@[k as int].loc;
                            assert(walk(self.nodes@, 0, l) == i);
                            lemma_walk_bounds(self.nodes@, 0, l);
                        }
                        if !bounds.contains(elements[k].loc) {
                            return false;
                        }
                        k = k + 1;
                    }
                },
                Node::Branch { .. } => {},
            }
            i = i + 1;
        }
        true
    }
}

} // verus!
