//! The render output of one target: an arena of draw primitives.
//!
//! A node is named by its position in the arena.  Positions are never used
//! again, and a node is always created after its parent, so the parent links
//! form a forest and a subtree can be destroyed in one sweep.

use crate::color::Rgb;
use vstd::prelude::*;

verus! {

/// A position in world space, counted in half pixels so that centring a
/// footprint of odd size stays exact.  The vertical axis points up.
#[derive(Clone, Copy, Debug, PartialEq, Eq, Structural)]
pub struct WorldPoint {
    pub half_x: i64,
    pub half_y: i64,
    /// Depth: that of the layer that the thing belongs to.
    pub z: i64,
}

/// Marks the root of the output drawn for a project.
#[derive(Clone, Copy, Debug, PartialEq, Eq, Structural)]
pub struct LdtkRenderedProject(pub u64);

/// The root under which one level is drawn.
#[derive(Clone, Copy, Debug, PartialEq, Eq, Structural)]
pub struct LdtkRenderBundle {
    pub project: LdtkRenderedProject,
    /// Position of the drawn level in the project's list.
    pub level: usize,
}

/// Names a tile record of a level: the layer instance by its declaration
/// index, the list it stands in, and its position there.
#[derive(Clone, Copy, Debug, PartialEq, Eq, Structural)]
pub struct TileRef {
    pub layer: usize,
    /// Whether the tile stands among the auto-layer tiles rather than the
    /// grid tiles.
    pub auto: bool,
    pub tile: usize,
}

/// A tile drawn from an atlas.
#[derive(Clone, Copy, Debug, PartialEq, Eq, Structural)]
pub struct Sprite {
    pub translation: WorldPoint,
    /// The tileset whose atlas is drawn from.
    pub tileset_uid: i64,
    /// Index of the tile in the atlas.
    pub index: i64,
    pub flip_x: bool,
    pub flip_y: bool,
    /// The tile record that this sprite shows.
    pub source: TileRef,
    /// Whether the target's extension hook is to be called for this sprite.
    pub attach_enums: bool,
}

/// One grid cell filled with the colour of an IntGrid value.
#[derive(Clone, Copy, Debug, PartialEq, Eq, Structural)]
pub struct FilledCell {
    pub translation: WorldPoint,
    /// Edge of the cell, in pixels.
    pub size: i32,
    pub column: i32,
    pub row: i32,
    /// The layer definition whose palette holds the material.
    pub layer_uid: i64,
    /// Position of the material in that palette.
    pub value: usize,
    pub color: Rgb,
}

/// What a node of the output draws.
#[derive(Clone, Copy, Debug, PartialEq, Eq, Structural)]
pub enum Primitive {
    Root(LdtkRenderBundle),
    Sprite(Sprite),
    Cell(FilledCell),
}

#[derive(Clone, Copy, Debug, PartialEq, Eq, Structural)]
pub struct Node {
    pub parent: Option<usize>,
    pub primitive: Primitive,
}

/// Whether the parent links of `nodes` are sound: every live node with a
/// parent was created after it, and the parent is live.
pub open spec fn forest(nodes: Seq<Option<Node>>) -> bool {
    forall|i: int|
        0 <= i < nodes.len() ==> match (#[trigger] nodes[i]) {
            Some(node) => match node.parent {
                Some(p) => p < i && nodes[p as int] is Some,
                None => true,
            },
            None => true,
        }
}

/// Whether node `i` is live and stands in the subtree of `root`, which
/// includes `root` itself.
pub open spec fn under(nodes: Seq<Option<Node>>, root: int, i: int) -> bool
    decreases i,
{
    if 0 <= i < nodes.len() && nodes[i] is Some {
        if i == root {
            true
        } else {
            match nodes[i].unwrap().parent {
                Some(p) => p < i && under(nodes, root, p as int),
                None => false,
            }
        }
    } else {
        false
    }
}

/// The arena after the subtree of `root` is destroyed.
pub open spec fn without_subtree(nodes: Seq<Option<Node>>, root: int) -> Seq<Option<Node>> {
    Seq::new(nodes.len(), |i: int| if under(nodes, root, i) { None } else { nodes[i] })
}

/// A node whose parent stands under `root` stands under `root` too.
pub proof fn lemma_child_under(nodes: Seq<Option<Node>>, root: int, i: int)
    requires
        forest(nodes),
        0 <= i < nodes.len(),
        nodes[i] matches Some(node) && node.parent matches Some(p) && under(nodes, root, p as int),
    ensures
        under(nodes, root, i),
{
    let p = nodes[i].unwrap().parent.unwrap() as int;
    if i == root {
    } else {
        assert(p < i);
    }
}

/// What stands under `root` was created no earlier than `root`.
pub proof fn lemma_under_not_before(nodes: Seq<Option<Node>>, root: int, i: int)
    requires
        under(nodes, root, i),
    ensures
        root <= i,
    decreases i,
{
    if i != root {
        lemma_under_not_before(nodes, root, nodes[i].unwrap().parent.unwrap() as int);
    }
}

pub struct RenderTree {
    nodes: Vec<Option<Node>>,
}

impl View for RenderTree {
    type V = Seq<Option<Node>>;

    closed spec fn view(&self) -> Seq<Option<Node>> {
        self.nodes@
    }
}

impl RenderTree {
    /// An arena without nodes.
    pub fn new() -> (tree: RenderTree)
        ensures
            tree@ == Seq::<Option<Node>>::empty(),
    {
        RenderTree { nodes: Vec::new() }
    }

    /// How many nodes were ever created.
    pub fn len(&self) -> (n: usize)
        ensures
            n == self@.len(),
    {
        self.nodes.len()
    }

    /// The node at `id`, if it is live.
    pub fn get(&self, id: usize) -> (node: Option<Node>)
        ensures
            node == (if id < self@.len() {
                self@[id as int]
            } else {
                None
            }),
    {
        if id < self.nodes.len() {
            self.nodes[id]
        } else {
            None
        }
    }

    /// Whether `id` names a live node.
    pub fn is_live(&self, id: usize) -> (live: bool)
        ensures
            live == (id < self@.len() && self@[id as int] is Some),
    {
        self.get(id).is_some()
    }

    /// How many nodes are live.
    pub fn live_count(&self) -> (n: usize)
        ensures
            n == self@.filter(|node: Option<Node>| node is Some).len(),
    {
        let mut n: usize = 0;
        let mut i: usize = 0;
        let total = self.nodes.len();
        while i < total
            invariant
                total == self.nodes@.len(),
                i <= total,
                n <= i,
                n == self.nodes@.take(i as int).filter(|node: Option<Node>| node is Some).len(),
            decreases total - i,
        {
            proof {
                let live = |node: Option<Node>| node is Some;
                let before = self.nodes@.take(i as int);
                let after = self.nodes@.take(i + 1);
                assert(after.drop_last() =~= before);
                assert(after.last() == self.nodes@[i as int]);
                reveal(Seq::filter);
            }
            if self.nodes[i].is_some() {
                n += 1;
            }
            i += 1;
        }
        assert(self.nodes@.take(total as int) =~= self.nodes@);
        n
    }

    /// Creates a node under `parent`, or a root where `parent` is `None`.
    /// Sound parent links stay sound when `parent` is live.
    pub fn spawn(&mut self, parent: Option<usize>, primitive: Primitive) -> (id: usize)
        ensures
            id == old(self)@.len(),
            final(self)@ == old(self)@.push(Some(Node { parent, primitive })),
            forest(old(self)@) && (parent matches Some(p) ==> p < old(self)@.len() && old(
                self,
            )@[p as int] is Some) ==> forest(final(self)@),
    {
        let id = self.nodes.len();
        self.nodes.push(Some(Node { parent, primitive }));
        id
    }

    /// Whether the live node `id` stands in the subtree of `root`.
    fn stands_under(&self, root: usize, id: usize) -> (yes: bool)
        ensures
            yes == under(self@, root as int, id as int),
    {
        let mut at = id;
        loop
            invariant
                under(self.nodes@, root as int, id as int) == under(
                    self.nodes@,
                    root as int,
                    at as int,
                ),
            decreases at,
        {
            if at >= self.nodes.len() {
                return false;
            }
            match self.nodes[at] {
                None => {
                    return false;
                },
                Some(node) => {
                    if at == root {
                        return true;
                    }
                    match node.parent {
                        None => {
                            return false;
                        },
                        Some(p) => {
                            if p >= at {
                                return false;
                            }
                            at = p;
                        },
                    }
                },
            }
        }
    }

    /// The live children of `id`, in the order of their creation.
    pub fn children(&self, id: usize) -> (ids: Vec<usize>)
        ensures
            forall|k: int|
                0 <= k < ids@.len() ==> {
                    &&& (#[trigger] ids@[k]) < self@.len()
                    &&& self@[ids@[k] as int] matches Some(node) && node.parent == Some(id)
                },
            forall|k: int, l: int| 0 <= k < l < ids@.len() ==> ids@[k] < ids@[l],
            forall|i: int|
                0 <= i < self@.len() && ((#[trigger] self@[i]) matches Some(node) && node.parent
                    == Some(id)) ==> ids@.contains(i as usize),
    {
        let mut ids: Vec<usize> = Vec::new();
        let total = self.nodes.len();
        let mut i: usize = 0;
        while i < total
            invariant
                total == self.nodes@.len(),
                i <= total,
                forall|k: int|
                    0 <= k < ids@.len() ==> {
                        &&& (#[trigger] ids@[k]) < i
                        &&& self.nodes@[ids@[k] as int] matches Some(node) && node.parent == Some(
                            id,
                        )
                    },
                forall|k: int, l: int| 0 <= k < l < ids@.len() ==> ids@[k] < ids@[l],
                forall|j: int|
                    0 <= j < i && ((#[trigger] self.nodes@[j]) matches Some(node) && node.parent
                        == Some(id)) ==> ids@.contains(j as usize),
            decreases total - i,
        {
            let is_child = match self.nodes[i] {
                Some(node) => match node.parent {
                    Some(p) => p == id,
                    None => false,
                },
                None => false,
            };
            if is_child {
                let ghost before = ids@;
                ids.push(i);
                assert(ids@[before.len() as int] == i);
                assert forall|j: int|
                    0 <= j < i + 1 && ((#[trigger] self.nodes@[j]) matches Some(node)
                        && node.parent == Some(id)) implies ids@.contains(j as usize) by {
                    if j < i {
                        let k = choose|k: int| 0 <= k < before.len() && before[k] == j as usize;
                        assert(ids@[k] == j as usize);
                    }
                }
            }
            i += 1;
        }
        ids
    }

    /// Destroys the node `root` and everything under it.  Nothing happens
    /// when `root` names no live node.  Sound parent links stay sound.
    pub fn despawn_recursive(&mut self, root: usize)
        ensures
            final(self)@ == without_subtree(old(self)@, root as int),
            forest(old(self)@) ==> forest(final(self)@),
    {
        let ghost before = self.nodes@;
        let total = self.nodes.len();
        let mut i: usize = total;
        while i > root
            invariant
                total == before.len(),
                self.nodes@.len() == total,
                i <= total,
                forall|j: int| 0 <= j < i ==> #[trigger] self.nodes@[j] == before[j],
                forall|j: int|
                    i <= j < total ==> #[trigger] self.nodes@[j] == (if under(
                        before,
                        root as int,
                        j,
                    ) {
                        None
                    } else {
                        before[j]
                    }),
            decreases i,
        {
            i -= 1;
            let ghost current = self.nodes@;
            assert(under(current, root as int, i as int) == under(before, root as int, i as int))
                by {
                lemma_under_prefix(current, before, root as int, i as int);
            }
            if self.stands_under(root, i) {
                self.nodes.set(i, None);
            }
        }
        proof {
            assert forall|j: int| 0 <= j < total implies self.nodes@[j] == without_subtree(
                before,
                root as int,
            )[j] by {
                if j < i {
                    if under(before, root as int, j) {
                        lemma_under_not_before(before, root as int, j);
                    }
                }
            }
            assert(self.nodes@ =~= without_subtree(before, root as int));
            if forest(before) {
                lemma_without_subtree_forest(before, root as int);
            }
        }
    }
}

/// Destroying a subtree keeps the parent links sound.
pub proof fn lemma_without_subtree_forest(nodes: Seq<Option<Node>>, root: int)
    requires
        forest(nodes),
    ensures
        forest(without_subtree(nodes, root)),
{
    let after = without_subtree(nodes, root);
    assert forall|i: int| 0 <= i < after.len() implies match (#[trigger] after[i]) {
        Some(node) => match node.parent {
            Some(p) => p < i && after[p as int] is Some,
            None => true,
        },
        None => true,
    } by {
        if after[i] is Some {
            assert(nodes[i] == after[i]);
            match nodes[i].unwrap().parent {
                Some(p) => {
                    if under(nodes, root, p as int) {
                        lemma_child_under(nodes, root, i);
                    }
                },
                None => {},
            }
        }
    }
}

/// Whether a node stands under `root` depends only on the arena up to that
/// node.
pub proof fn lemma_under_prefix(a: Seq<Option<Node>>, b: Seq<Option<Node>>, root: int, i: int)
    requires
        a.len() == b.len(),
        forall|j: int| 0 <= j <= i ==> j < a.len() ==> a[j] == b[j],
    ensures
        under(a, root, i) == under(b, root, i),
    decreases i,
{
    if 0 <= i < a.len() && a[i] is Some && i != root {
        match a[i].unwrap().parent {
            Some(p) => {
                if p < i {
                    lemma_under_prefix(a, b, root, p as int);
                }
            },
            None => {},
        }
    }
}

/// A node that stands under `root` and not under `other` still stands
/// under `root` once the subtree of `other` is destroyed.
pub proof fn lemma_under_survives(nodes: Seq<Option<Node>>, other: int, root: int, i: int)
    requires
        under(nodes, root, i),
        !under(nodes, other, i),
    ensures
        under(without_subtree(nodes, other), root, i),
    decreases i,
{
    if i != root {
        let p = nodes[i].unwrap().parent.unwrap() as int;
        lemma_under_survives(nodes, other, root, p);
    }
}

/// Destroying a subtree brings no dead node back.
pub proof fn lemma_dead_stays_dead(nodes: Seq<Option<Node>>, root: int, i: int)
    requires
        0 <= i < nodes.len(),
        nodes[i] is None,
    ensures
        without_subtree(nodes, root)[i] is None,
{
}

} // verus!
