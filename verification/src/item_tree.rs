//! The tree of the items of one component.
//!
//! The items stand in one sequence. The children of an item stand side by
//! side, somewhere after the item. The first item is the root. That the
//! children come after their parent is all that a tree is held to: it makes
//! every traversal end. An item that two items name as their child is
//! visited once for each of them.

use crate::items::Item;
use crate::properties::next_revision;
use crate::rendering_data::CachedRenderingData;
use vstd::prelude::*;

verus! {

/// An item in its tree.
#[derive(Clone, Copy, Debug, PartialEq, Eq, Structural)]
pub struct ItemTreeNode {
    pub item: Item,
    /// Counts the changes of the item's properties.
    pub revision: u64,
    /// The position of the first child.
    pub children_index: usize,
    /// The number of children.
    pub children_count: usize,
}

/// An item as the renderers know it: the component that it belongs to, its
/// position in the tree of that component, the item as it is at present, and
/// the revision of its properties.
#[derive(Clone, Copy, Debug, PartialEq, Eq, Structural)]
pub struct ItemRc {
    pub component: u64,
    pub index: usize,
    pub revision: u64,
    pub item: Item,
}

impl ItemRc {
    pub fn index(&self) -> (r: usize)
        ensures
            r == self.index,
    {
        self.index
    }

    pub fn geometry(&self) -> (r: crate::lengths::LogicalRect)
        ensures
            r == self.item.geometry,
    {
        self.item.geometry
    }
}

/// The children of each item stand after it and within the sequence.
pub open spec fn nodes_wf(nodes: Seq<ItemTreeNode>) -> bool {
    forall|i: int|
        0 <= i < nodes.len() ==> {
            &&& i < (#[trigger] nodes[i]).children_index
            &&& nodes[i].children_index + nodes[i].children_count <= nodes.len()
        }
}

/// The item at `index` of the component `id` as the renderers know it.
pub open spec fn spec_item_rc_of(nodes: Seq<ItemTreeNode>, id: u64, index: int) -> ItemRc {
    ItemRc {
        component: id,
        index: index as usize,
        revision: nodes[index].revision,
        item: nodes[index].item,
    }
}

/// The item at `index` as the renderers know it.
pub open spec fn spec_item_rc(tree: ItemTreeView, index: int) -> ItemRc {
    spec_item_rc_of(tree.nodes, tree.id, index)
}

/// The item at `target` is the item at `index` or stands somewhere below it.
pub open spec fn spec_in_subtree(nodes: Seq<ItemTreeNode>, index: int, target: int) -> bool
    decreases nodes.len() - index, 0int,
{
    0 <= index < nodes.len() && (index == target || (index < nodes[index].children_index
        && nodes[index].children_index + nodes[index].children_count <= nodes.len()
        && spec_in_subtrees(
        nodes,
        nodes[index].children_index as int,
        nodes[index].children_count as int,
        target,
    )))
}

/// The item at `target` is one of the first `count` items from `first` on or
/// stands somewhere below one of them.
pub open spec fn spec_in_subtrees(
    nodes: Seq<ItemTreeNode>,
    first: int,
    count: int,
    target: int,
) -> bool
    decreases nodes.len() - first, count + 1,
{
    !(count <= 0 || first < 0 || first + count > nodes.len()) && (spec_in_subtrees(
        nodes,
        first,
        count - 1,
        target,
    ) || spec_in_subtree(nodes, first + count - 1, target))
}

/// What stands in the subtree of one of several items side by side stands in
/// their subtrees.
pub proof fn lemma_subtree_in_subtrees(
    nodes: Seq<ItemTreeNode>,
    first: int,
    count: int,
    k: int,
    target: int,
)
    requires
        0 <= first,
        0 <= k < count,
        first + count <= nodes.len(),
        spec_in_subtree(nodes, first + k, target),
    ensures
        spec_in_subtrees(nodes, first, count, target),
    decreases count,
{
    if k < count - 1 {
        lemma_subtree_in_subtrees(nodes, first, count - 1, k, target);
    }
}

/// What stands in a subtree is an item of the tree.
pub proof fn lemma_in_subtree_is_item(nodes: Seq<ItemTreeNode>, index: int, target: int)
    requires
        spec_in_subtree(nodes, index, target),
    ensures
        0 <= target < nodes.len(),
    decreases nodes.len() - index, 0int,
{
    if index != target {
        lemma_in_subtrees_is_item(
            nodes,
            nodes[index].children_index as int,
            nodes[index].children_count as int,
            target,
        );
    }
}

/// What stands in one of several subtrees is an item of the tree.
pub proof fn lemma_in_subtrees_is_item(
    nodes: Seq<ItemTreeNode>,
    first: int,
    count: int,
    target: int,
)
    requires
        spec_in_subtrees(nodes, first, count, target),
    ensures
        0 <= target < nodes.len(),
    decreases nodes.len() - first, count + 1,
{
    if spec_in_subtrees(nodes, first, count - 1, target) {
        lemma_in_subtrees_is_item(nodes, first, count - 1, target);
    } else {
        lemma_in_subtree_is_item(nodes, first + count - 1, target);
    }
}

/// What a tree holds: its items, and for each item what leads to its entry in
/// the rendering cache.
pub struct ItemTreeView {
    pub id: u64,
    pub nodes: Seq<ItemTreeNode>,
    pub rendering_data: Seq<CachedRenderingData>,
}

/// The tree of the items of one component.
pub struct ItemTree {
    id: u64,
    items: Vec<Item>,
    revisions: Vec<u64>,
    /// For each item the position of its first child and the number of its
    /// children.
    links: Vec<(usize, usize)>,
    rendering_data: Vec<CachedRenderingData>,
}

impl View for ItemTree {
    type V = ItemTreeView;

    closed spec fn view(&self) -> ItemTreeView {
        ItemTreeView {
            id: self.id,
            nodes: Seq::new(
                self.links@.len(),
                |i: int|
                    ItemTreeNode {
                        item: self.items@[i],
                        revision: self.revisions@[i],
                        children_index: self.links@[i].0,
                        children_count: self.links@[i].1,
                    },
            ),
            rendering_data: self.rendering_data@,
        }
    }
}

impl ItemTreeView {
    /// The children of each item stand after it, and each item has its
    /// rendering data.
    pub open spec fn wf(self) -> bool {
        &&& nodes_wf(self.nodes)
        &&& self.rendering_data.len() == self.nodes.len()
    }
}

/// The rendering data of an item that has no entry in any cache.
pub open spec fn spec_no_rendering_data() -> CachedRenderingData {
    CachedRenderingData { cache_index: 0, cache_generation: 0 }
}

impl ItemTree {
    #[verifier::type_invariant]
    spec fn inv(self) -> bool {
        &&& self.items@.len() == self.links@.len()
        &&& self.revisions@.len() == self.links@.len()
        &&& self.rendering_data@.len() == self.links@.len()
        &&& forall|i: int|
            0 <= i < self.links@.len() ==> {
                &&& i < (#[trigger] self.links@[i]).0
                &&& self.links@[i].0 + self.links@[i].1 <= self.links@.len()
            }
    }

    /// The tree of the given items, where the children of each stand after it
    /// and within the sequence. `id` tells the component from every other.
    pub fn new(id: u64, nodes: Vec<ItemTreeNode>) -> (r: Option<ItemTree>)
        ensures
            nodes_wf(nodes@) <==> r is Some,
            r matches Some(tree) ==> tree@.wf() && tree@.id == id && tree@.nodes == nodes@
                && tree@.rendering_data == Seq::new(
                nodes@.len(),
                |i: int| spec_no_rendering_data(),
            ),
    {
        let mut items: Vec<Item> = Vec::new();
        let mut revisions: Vec<u64> = Vec::new();
        let mut links: Vec<(usize, usize)> = Vec::new();
        let mut rendering_data: Vec<CachedRenderingData> = Vec::new();
        let mut i: usize = 0;
        while i < nodes.len()
            invariant
                i <= nodes@.len(),
                items@.len() == i,
                revisions@.len() == i,
                links@.len() == i,
                rendering_data@ == Seq::new(i as nat, |k: int| spec_no_rendering_data()),
                forall|k: int|
                    0 <= k < i ==> {
                        &&& items@[k] == (#[trigger] nodes@[k]).item
                        &&& revisions@[k] == nodes@[k].revision
                        &&& links@[k] == (nodes@[k].children_index, nodes@[k].children_count)
                        &&& k < nodes@[k].children_index
                        &&& nodes@[k].children_index + nodes@[k].children_count <= nodes@.len()
                    },
            decreases nodes@.len() - i,
        {
            let node = &nodes[i];
            let fits = match node.children_index.checked_add(node.children_count) {
                Some(end) => end <= nodes.len(),
                None => false,
            };
            if !(i < node.children_index && fits) {
                assert(!nodes_wf(nodes@));
                return None;
            }
            items.push(node.item);
            revisions.push(node.revision);
            links.push((node.children_index, node.children_count));
            rendering_data.push(CachedRenderingData::new());
            i += 1;
            assert(rendering_data@ =~= Seq::new(i as nat, |k: int| spec_no_rendering_data()));
        }
        assert forall|k: int| 0 <= k < links@.len() implies k < (#[trigger] links@[k]).0
            && links@[k].0 + links@[k].1 <= links@.len() by {
            assert(links@[k] == (nodes@[k].children_index, nodes@[k].children_count));
        }
        let tree = ItemTree { id, items, revisions, links, rendering_data };
        assert(tree@.nodes =~= nodes@);
        Some(tree)
    }

    /// The number that tells the component from every other.
    pub fn id(&self) -> (id: u64)
        ensures
            id == self@.id,
    {
        self.id
    }

    /// The number of items.
    pub fn len(&self) -> (n: usize)
        ensures
            n == self@.nodes.len(),
            self@.wf(),
    {
        proof {
            use_type_invariant(self);
        }
        self.links.len()
    }

    /// The item at `index`, with its place in the tree.
    pub fn node(&self, index: usize) -> (n: ItemTreeNode)
        requires
            index < self@.nodes.len(),
        ensures
            n == self@.nodes[index as int],
            index < n.children_index,
            n.children_index + n.children_count <= self@.nodes.len(),
    {
        proof {
            use_type_invariant(self);
        }
        let link = self.links[index];
        ItemTreeNode {
            item: self.items[index],
            revision: self.revisions[index],
            children_index: link.0,
            children_count: link.1,
        }
    }

    /// The item at `index` as the renderers know it.
    pub fn item_rc(&self, index: usize) -> (rc: ItemRc)
        requires
            index < self@.nodes.len(),
        ensures
            rc == spec_item_rc(self@, index as int),
    {
        proof {
            use_type_invariant(self);
        }
        ItemRc {
            component: self.id,
            index,
            revision: self.revisions[index],
            item: self.items[index],
        }
    }

    /// What leads to the entry of the item at `index` in the rendering
    /// cache, to be changed in place.
    pub fn rendering_data_mut(&mut self, index: usize) -> (d: &mut CachedRenderingData)
        requires
            index < old(self)@.nodes.len(),
        ensures
            *d == old(self)@.rendering_data[index as int],
            final(self)@ == (ItemTreeView {
                rendering_data: old(self)@.rendering_data.update(index as int, *final(d)),
                ..old(self)@
            }),
    {
        proof {
            use_type_invariant(&*self);
        }
        &mut self.rendering_data[index]
    }

    /// What leads to the entry of the item at `index` in the rendering cache.
    pub fn rendering_data(&self, index: usize) -> (d: CachedRenderingData)
        requires
            index < self@.nodes.len(),
        ensures
            d == self@.rendering_data[index as int],
    {
        proof {
            use_type_invariant(self);
        }
        self.rendering_data[index]
    }

    /// Replaces what leads to the entry of the item at `index` in the
    /// rendering cache.
    pub fn set_rendering_data(&mut self, index: usize, data: CachedRenderingData)
        requires
            index < old(self)@.nodes.len(),
        ensures
            final(self)@ == (ItemTreeView {
                rendering_data: old(self)@.rendering_data.update(index as int, data),
                ..old(self)@
            }),
            final(self)@.wf(),
    {
        proof {
            use_type_invariant(&*self);
        }
        self.rendering_data[index] = data;
        assert(self@.nodes =~= old(self)@.nodes);
    }

    /// Replaces the item at `index`, which counts as a change of its
    /// properties.
    pub fn set_item(&mut self, index: usize, item: Item)
        requires
            index < old(self)@.nodes.len(),
        ensures
            final(self)@ == (ItemTreeView {
                nodes: old(self)@.nodes.update(
                    index as int,
                    ItemTreeNode {
                        item,
                        revision: final(self)@.nodes[index as int].revision,
                        ..old(self)@.nodes[index as int]
                    },
                ),
                ..old(self)@
            }),
            final(self)@.nodes[index as int].revision != old(self)@.nodes[index as int].revision,
            final(self)@.wf(),
    {
        proof {
            use_type_invariant(&*self);
        }
        self.items[index] = item;
        self.revisions[index] = next_revision(self.revisions[index]);
        assert(self@.nodes =~= old(self)@.nodes.update(
            index as int,
            ItemTreeNode {
                item,
                revision: self@.nodes[index as int].revision,
                ..old(self)@.nodes[index as int]
            },
        ));
    }
}

/// What a visitor of the items tells the traversal about the children of the
/// item that it has just seen.
#[derive(Debug, PartialEq, Eq, Structural)]
pub enum ItemVisitorResult<State> {
    /// Visit the children, with this state.
    Continue(State),
    /// Leave the children out.
    Stop,
}

/// Something that is shown the items of a tree one by one.
pub trait ItemVisitor: Sized {
    /// What the visit of an item hands on to the visits of its children.
    type State;

    /// What the visitor stands for in contracts.
    type Model;

    /// What the visitor stands for in contracts.
    spec fn model(&self) -> Self::Model;

    /// The visitor after it has seen the item at `index`.
    spec fn after_visit(
        model: Self::Model,
        tree: ItemTreeView,
        index: usize,
        state: Self::State,
    ) -> Self::Model;

    /// What the visitor says about the children of the item at `index`.
    spec fn visit_result(
        model: Self::Model,
        tree: ItemTreeView,
        index: usize,
        state: Self::State,
    ) -> ItemVisitorResult<Self::State>;

    /// Shows the visitor the item at `index`, with the state that the visit
    /// of its parent handed on.
    fn visit(&mut self, tree: &ItemTree, index: usize, state: &Self::State) -> (r:
        ItemVisitorResult<Self::State>)
        requires
            index < tree@.nodes.len(),
        ensures
            final(self).model() == Self::after_visit(old(self).model(), tree@, index, *state),
            r == Self::visit_result(old(self).model(), tree@, index, *state),
    ;
}

/// The visitor after it has seen the item at `index` and, unless it said
/// otherwise, everything below it: the item first, its children after it, in
/// the order in which they stand.
pub open spec fn spec_visit_subtree<V: ItemVisitor>(
    model: V::Model,
    tree: ItemTreeView,
    index: int,
    state: V::State,
) -> V::Model
    decreases tree.nodes.len() - index, 0int,
{
    if 0 <= index < tree.nodes.len() {
        let node = tree.nodes[index];
        let seen = V::after_visit(model, tree, index as usize, state);
        match V::visit_result(model, tree, index as usize, state) {
            ItemVisitorResult::Continue(children) => {
                if index < node.children_index && node.children_index + node.children_count
                    <= tree.nodes.len() {
                    spec_visit_subtrees::<V>(
                        seen,
                        tree,
                        node.children_index as int,
                        node.children_count as int,
                        children,
                    )
                } else {
                    seen
                }
            },
            ItemVisitorResult::Stop => seen,
        }
    } else {
        model
    }
}

/// The visitor after it has seen the first `count` items from `first` on,
/// each with everything below it.
pub open spec fn spec_visit_subtrees<V: ItemVisitor>(
    model: V::Model,
    tree: ItemTreeView,
    first: int,
    count: int,
    state: V::State,
) -> V::Model
    decreases tree.nodes.len() - first, count + 1,
{
    if count <= 0 || first < 0 || first + count > tree.nodes.len() {
        model
    } else {
        spec_visit_subtree::<V>(
            spec_visit_subtrees::<V>(model, tree, first, count - 1, state),
            tree,
            first + count - 1,
            state,
        )
    }
}

/// Shows the visitor `count` items from `first` on, each with everything
/// below it.
fn visit_subtrees<V: ItemVisitor>(
    tree: &ItemTree,
    visitor: &mut V,
    first: usize,
    count: usize,
    state: &V::State,
)
    requires
        first + count <= tree@.nodes.len(),
    ensures
        final(visitor).model() == spec_visit_subtrees::<V>(
            old(visitor).model(),
            tree@,
            first as int,
            count as int,
            *state,
        ),
    decreases tree@.nodes.len() - first,
{
    let len = tree.len();
    let mut k: usize = 0;
    while k < count
        invariant
            k <= count,
            first + count <= len == tree@.nodes.len(),
            visitor.model() == spec_visit_subtrees::<V>(
                old(visitor).model(),
                tree@,
                first as int,
                k as int,
                *state,
            ),
        decreases count - k,
    {
        let index = first + k;
        let node = tree.node(index);
        let ghost before = visitor.model();
        match visitor.visit(tree, index, state) {
            ItemVisitorResult::Continue(children) => {
                visit_subtrees(tree, visitor, node.children_index, node.children_count, &children);
            },
            ItemVisitorResult::Stop => {},
        }
        assert(visitor.model() == spec_visit_subtree::<V>(before, tree@, index as int, *state));
        k += 1;
    }
}

/// Visits the items of a tree depth first, from the back to the front: each
/// item before its children, the children in the order in which they stand.
/// The visit of an item decides whether its children are visited, and hands
/// them a state. The root is visited with `state`.
pub fn visit_items<V: ItemVisitor>(tree: &ItemTree, visitor: &mut V, state: &V::State)
    ensures
        final(visitor).model() == spec_visit_subtree::<V>(old(visitor).model(), tree@, 0, *state),
{
    if tree.len() > 0 {
        visit_subtrees(tree, visitor, 0, 1, state);
        assert(spec_visit_subtrees::<V>(old(visitor).model(), tree@, 0, 0, *state) == old(
            visitor,
        ).model());
    }
}

} // verus!
