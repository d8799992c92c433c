//! Layout description tree of the editor panes: which panes sit in which
//! row or column, with what size, and where the resize dividers ride.
//! The tree is generic over the size unit `S` the caller lays out in.
use crate::pane::{vis_flag, LayoutPreset, PaneId, PaneLayout, PaneVisibility};
use crate::pane_resize::ResizeTarget;
use vstd::prelude::*;

verus! {

/// Sizing of a node along its parent container's axis.
#[derive(Debug, Clone, Copy, PartialEq)]
pub enum PaneSize<S> {
    /// Fixed size in logical units.
    Fixed(S),
    /// Fills the remaining space.
    Flex,
}

#[derive(Debug, PartialEq)]
pub enum PaneNodeKind<S> {
    /// Horizontal container, children left to right.
    Row(Vec<PaneNode<S>>),
    /// Vertical container, children top to bottom.
    Column(Vec<PaneNode<S>>),
    /// A single pane's card.
    Pane(PaneId),
    /// The toolbar + timeline composite.
    TimelineRegion,
    /// Zero-sized drag handle riding the seam between two siblings;
    /// `horizontal` means the divider resizes a width.
    Divider { target: ResizeTarget, horizontal: bool },
}

#[derive(Debug, PartialEq)]
pub struct PaneNode<S> {
    pub kind: PaneNodeKind<S>,
    pub size: PaneSize<S>,
}

/// The mathematical form of a node kind: containers hold sequences.
pub enum KindView<S> {
    Row(Seq<NodeView<S>>),
    Column(Seq<NodeView<S>>),
    Pane(PaneId),
    TimelineRegion,
    Divider { target: ResizeTarget, horizontal: bool },
}

/// The mathematical form of a node.
pub struct NodeView<S> {
    pub kind: KindView<S>,
    pub size: PaneSize<S>,
}

/// The mathematical form of a node.
pub open spec fn node_view<S>(n: PaneNode<S>) -> NodeView<S>
    decreases n, 1int,
{
    NodeView {
        kind: match n.kind {
            PaneNodeKind::Row(c) => KindView::Row(nodes_view(c@)),
            PaneNodeKind::Column(c) => KindView::Column(nodes_view(c@)),
            PaneNodeKind::Pane(id) => KindView::Pane(id),
            PaneNodeKind::TimelineRegion => KindView::TimelineRegion,
            PaneNodeKind::Divider { target, horizontal } => KindView::Divider { target, horizontal },
        },
        size: n.size,
    }
}

/// The mathematical form of a list of nodes.
pub open spec fn nodes_view<S>(s: Seq<PaneNode<S>>) -> Seq<NodeView<S>>
    decreases s, 0int,
{
    if s.len() == 0 {
        Seq::empty()
    } else {
        nodes_view(s.drop_last()).push(node_view(s.last()))
    }
}

/// Concrete pane dimensions the tree is built with.
#[derive(Debug, Clone, Copy, PartialEq)]
pub struct ResolvedSizes<S> {
    pub agent_width: S,
    /// Media pane width.
    pub media_width: S,
    pub inspector_width: S,
    /// Height of the toolbar + timeline region.
    pub timeline_height: S,
    /// Vertical preset: width of the left (media/inspector + timeline) column.
    pub vertical_left_width: S,
}

pub open spec fn is_divider_view<S>(n: NodeView<S>) -> bool {
    n.kind is Divider
}

pub open spec fn pane_view<S>(id: PaneId, size: PaneSize<S>) -> NodeView<S> {
    NodeView { kind: KindView::Pane(id), size }
}

pub open spec fn divider_view<S>(target: ResizeTarget, horizontal: bool, zero: S) -> NodeView<S> {
    NodeView { kind: KindView::Divider { target, horizontal }, size: PaneSize::Fixed(zero) }
}

/// Append `node`, first laying a divider on the seam when `seam` asks for
/// one and the list ends with a pane or container (never two dividers in
/// a row).
pub open spec fn push_seamed_view<S>(
    list: Seq<NodeView<S>>,
    node: NodeView<S>,
    seam: Option<(ResizeTarget, bool)>,
    zero: S,
) -> Seq<NodeView<S>> {
    match seam {
        Some((target, horizontal)) => if list.len() > 0 && !is_divider_view(list.last()) {
            list.push(divider_view(target, horizontal, zero)).push(node)
        } else {
            list.push(node)
        },
        None => list.push(node),
    }
}

/// Index of the last non-divider child.
pub open spec fn last_solid<S>(c: Seq<NodeView<S>>) -> Option<int>
    decreases c.len(),
{
    if c.len() == 0 {
        None
    } else if !is_divider_view(c.last()) {
        Some(c.len() - 1)
    } else {
        last_solid(c.drop_last())
    }
}

pub open spec fn has_flex<S>(c: Seq<NodeView<S>>) -> bool {
    exists|i: int| 0 <= i < c.len() && (#[trigger] c[i]).size is Flex
}

/// When every child is fixed, the last pane or container stretches.
pub open spec fn fill_if_no_flex_view<S>(c: Seq<NodeView<S>>) -> Seq<NodeView<S>> {
    if c.len() > 0 && !has_flex(c) {
        match last_solid(c) {
            Some(k) => c.update(k, NodeView { size: PaneSize::Flex, ..c[k] }),
            None => c,
        }
    } else {
        c
    }
}

/// A preset root: the upper row (when any pane is in it) stacked over the
/// toolbar + timeline region, which fills when the upper row is empty.
pub open spec fn preset_column_view<S>(
    upper: Seq<NodeView<S>>,
    size: PaneSize<S>,
    vis: PaneVisibility,
    sizes: ResolvedSizes<S>,
    zero: S,
) -> NodeView<S> {
    let has_upper = upper.len() > 0;
    let col0 = if has_upper {
        seq![NodeView { kind: KindView::Row(upper), size: PaneSize::Flex }]
    } else {
        Seq::empty()
    };
    let col = if vis.timeline {
        push_seamed_view(
            col0,
            NodeView {
                kind: KindView::TimelineRegion,
                size: if has_upper { PaneSize::Fixed(sizes.timeline_height) } else { PaneSize::Flex },
            },
            if has_upper { Some((ResizeTarget::TimelineHeight, false)) } else { None },
            zero,
        )
    } else {
        col0
    };
    NodeView { kind: KindView::Column(col), size }
}

/// The agent column, when visible.
pub open spec fn agent_root<S>(vis: PaneVisibility, sizes: ResolvedSizes<S>) -> Seq<NodeView<S>> {
    if vis.agent {
        seq![pane_view(PaneId::Agent, PaneSize::Fixed(sizes.agent_width))]
    } else {
        Seq::empty()
    }
}

/// Default preset upper row: Media | Preview | Inspector.
pub open spec fn upper_row_default<S>(vis: PaneVisibility, sizes: ResolvedSizes<S>, zero: S) -> Seq<NodeView<S>> {
    let u0 = if vis.media {
        seq![pane_view(PaneId::Media, PaneSize::Fixed(sizes.media_width))]
    } else {
        Seq::empty()
    };
    let u1 = if vis.preview {
        push_seamed_view(u0, pane_view(PaneId::Preview, PaneSize::Flex), Some((ResizeTarget::MediaWidth, true)), zero)
    } else {
        u0
    };
    let u2 = if vis.inspector {
        push_seamed_view(
            u1,
            pane_view(PaneId::Inspector, PaneSize::Fixed(sizes.inspector_width)),
            Some((ResizeTarget::InspectorWidth, true)),
            zero,
        )
    } else {
        u1
    };
    fill_if_no_flex_view(u2)
}

/// Media preset upper row: Preview | Inspector.
pub open spec fn upper_row_media<S>(vis: PaneVisibility, sizes: ResolvedSizes<S>, zero: S) -> Seq<NodeView<S>> {
    let u0 = if vis.preview {
        seq![pane_view(PaneId::Preview, PaneSize::Flex)]
    } else {
        Seq::empty()
    };
    let u1 = if vis.inspector {
        push_seamed_view(
            u0,
            pane_view(PaneId::Inspector, PaneSize::Fixed(sizes.inspector_width)),
            Some((ResizeTarget::InspectorWidth, true)),
            zero,
        )
    } else {
        u0
    };
    fill_if_no_flex_view(u1)
}

/// Vertical preset upper-left row: Media | Inspector.
pub open spec fn upper_row_vertical<S>(vis: PaneVisibility, sizes: ResolvedSizes<S>, zero: S) -> Seq<NodeView<S>> {
    let u0 = if vis.media {
        seq![pane_view(PaneId::Media, PaneSize::Fixed(sizes.media_width))]
    } else {
        Seq::empty()
    };
    let u1 = if vis.inspector {
        push_seamed_view(u0, pane_view(PaneId::Inspector, PaneSize::Flex), Some((ResizeTarget::MediaWidth, true)), zero)
    } else {
        u0
    };
    fill_if_no_flex_view(u1)
}

/// Default preset: [Agent] | [Media | Preview | Inspector over Timeline].
pub open spec fn default_root<S>(vis: PaneVisibility, sizes: ResolvedSizes<S>, zero: S) -> Seq<NodeView<S>> {
    push_seamed_view(
        agent_root(vis, sizes),
        preset_column_view(upper_row_default(vis, sizes, zero), PaneSize::Flex, vis, sizes, zero),
        Some((ResizeTarget::AgentWidth, true)),
        zero,
    )
}

/// Media preset: [Agent] | [Media] | [Preview | Inspector over Timeline].
pub open spec fn media_root<S>(vis: PaneVisibility, sizes: ResolvedSizes<S>, zero: S) -> Seq<NodeView<S>> {
    let r1 = if vis.media {
        push_seamed_view(
            agent_root(vis, sizes),
            pane_view(PaneId::Media, PaneSize::Fixed(sizes.media_width)),
            Some((ResizeTarget::AgentWidth, true)),
            zero,
        )
    } else {
        agent_root(vis, sizes)
    };
    let seam = if vis.media { ResizeTarget::MediaWidth } else { ResizeTarget::AgentWidth };
    push_seamed_view(
        r1,
        preset_column_view(upper_row_media(vis, sizes, zero), PaneSize::Flex, vis, sizes, zero),
        Some((seam, true)),
        zero,
    )
}

/// Vertical preset: [Agent] | [Media | Inspector over Timeline] | [Preview].
pub open spec fn vertical_root<S>(vis: PaneVisibility, sizes: ResolvedSizes<S>, zero: S) -> Seq<NodeView<S>> {
    let left = preset_column_view(
        upper_row_vertical(vis, sizes, zero),
        PaneSize::Fixed(sizes.vertical_left_width),
        vis,
        sizes,
        zero,
    );
    let left_is_empty = match left.kind {
        KindView::Column(c) => c.len() == 0,
        _ => false,
    };
    let r1 = if !left_is_empty {
        push_seamed_view(agent_root(vis, sizes), left, Some((ResizeTarget::AgentWidth, true)), zero)
    } else {
        agent_root(vis, sizes)
    };
    if vis.preview {
        let seam = if left_is_empty { ResizeTarget::AgentWidth } else { ResizeTarget::VerticalLeftWidth };
        push_seamed_view(r1, pane_view(PaneId::Preview, PaneSize::Flex), Some((seam, true)), zero)
    } else {
        r1
    }
}

/// The pane tree of a layout: a flexible row whose children are the agent
/// column and the active preset's arrangement, with hidden panes pruned;
/// `zero` is the size of the dividers.
pub open spec fn pane_tree_spec<S>(layout: PaneLayout, sizes: ResolvedSizes<S>, zero: S) -> NodeView<S> {
    let vis = layout.visibility;
    let root = match layout.preset {
        LayoutPreset::Default => default_root(vis, sizes, zero),
        LayoutPreset::Media => media_root(vis, sizes, zero),
        LayoutPreset::Vertical => vertical_root(vis, sizes, zero),
    };
    NodeView { kind: KindView::Row(fill_if_no_flex_view(root)), size: PaneSize::Flex }
}

proof fn lemma_nodes_view_push<S>(s: Seq<PaneNode<S>>, n: PaneNode<S>)
    ensures
        nodes_view(s.push(n)) == nodes_view(s).push(node_view(n)),
{
    assert(s.push(n).drop_last() =~= s);
}

proof fn lemma_nodes_view_len_index<S>(s: Seq<PaneNode<S>>)
    ensures
        nodes_view(s).len() == s.len(),
        forall|i: int| 0 <= i < s.len() ==> #[trigger] nodes_view(s)[i] == node_view(s[i]),
    decreases s.len(),
{
    if s.len() > 0 {
        lemma_nodes_view_len_index(s.drop_last());
        assert forall|i: int| 0 <= i < s.len() implies #[trigger] nodes_view(s)[i] == node_view(s[i]) by {
            if i < s.len() - 1 {
                assert(s.drop_last()[i] == s[i]);
            }
        }
    }
}

proof fn lemma_nodes_view_update<S>(s: Seq<PaneNode<S>>, k: int, n: PaneNode<S>)
    requires
        0 <= k < s.len(),
    ensures
        nodes_view(s.update(k, n)) == nodes_view(s).update(k, node_view(n)),
{
    lemma_nodes_view_len_index(s);
    lemma_nodes_view_len_index(s.update(k, n));
    assert(nodes_view(s.update(k, n)) =~= nodes_view(s).update(k, node_view(n)));
}

impl<S> PaneNode<S> {
    /// Whether this node is a divider.
    pub fn is_divider(&self) -> (b: bool)
        ensures
            b == is_divider_view(node_view(*self)),
    {
        matches!(self.kind, PaneNodeKind::Divider { .. })
    }
}

fn pane_node<S>(id: PaneId, size: PaneSize<S>) -> (n: PaneNode<S>)
    ensures
        node_view(n) == pane_view(id, size),
{
    PaneNode { kind: PaneNodeKind::Pane(id), size }
}

/// Append `node`, first laying a divider on the seam when the list
/// already ends with a pane or container.
fn push_seamed<S: Copy>(
    list: &mut Vec<PaneNode<S>>,
    node: PaneNode<S>,
    seam: Option<(ResizeTarget, bool)>,
    zero: S,
)
    ensures
        nodes_view(final(list)@) == push_seamed_view(nodes_view(old(list)@), node_view(node), seam, zero),
{
    proof {
        lemma_nodes_view_len_index(list@);
    }
    if let Some((target, horizontal)) = seam {
        let n = list.len();
        if n > 0 && !list[n - 1].is_divider() {
            let ghost before = list@;
            list.push(PaneNode { kind: PaneNodeKind::Divider { target, horizontal }, size: PaneSize::Fixed(zero) });
            proof {
                lemma_nodes_view_push(before, list@.last());
            }
        }
    }
    let ghost before = list@;
    list.push(node);
    proof {
        lemma_nodes_view_push(before, node);
    }
}

/// When every sibling is fixed, the last surviving pane or container
/// stretches to fill.
fn fill_if_no_flex<S>(children: &mut Vec<PaneNode<S>>)
    ensures
        nodes_view(final(children)@) == fill_if_no_flex_view(nodes_view(old(children)@)),
{
    proof {
        lemma_nodes_view_len_index(children@);
    }
    let ghost v = nodes_view(children@);
    let n = children.len();
    if n == 0 {
        return;
    }
    let mut i: usize = 0;
    while i < n
        invariant
            n == children@.len(),
            children@ == old(children)@,
            v == nodes_view(children@),
            v.len() == n,
            forall|j: int| 0 <= j < n ==> #[trigger] v[j] == node_view(children@[j]),
            0 <= i <= n,
            forall|j: int| 0 <= j < i ==> !((#[trigger] v[j]).size is Flex),
        decreases n - i,
    {
        if matches!(children[i].size, PaneSize::Flex) {
            assert(v[i as int].size is Flex);
            return;
        }
        i += 1;
    }
    assert(!has_flex(v));
    assert(v.subrange(0, n as int) =~= v);
    let mut k: usize = n;
    while k > 0 && children[k - 1].is_divider()
        invariant
            n == children@.len(),
            children@ == old(children)@,
            v == nodes_view(children@),
            v.len() == n,
            forall|j: int| 0 <= j < n ==> #[trigger] v[j] == node_view(children@[j]),
            0 <= k <= n,
            last_solid(v) == last_solid(v.subrange(0, k as int)),
        decreases k,
    {
        assert(v.subrange(0, k as int).last() == v[k - 1]);
        assert(v.subrange(0, k as int).drop_last() =~= v.subrange(0, k - 1));
        k -= 1;
    }
    if k > 0 {
        assert(v.subrange(0, k as int).last() == v[k - 1]);
        let ghost old_node = children@[k - 1];
        let last = &mut children[k - 1];
        last.size = PaneSize::Flex;
        proof {
            lemma_nodes_view_update(old(children)@, k - 1, children@[k - 1]);
        }
    }
}

/// Stack the upper row (when non-empty) over the toolbar + timeline region.
fn preset_column<S: Copy>(
    upper: Vec<PaneNode<S>>,
    size: PaneSize<S>,
    vis: &PaneVisibility,
    sizes: &ResolvedSizes<S>,
    zero: S,
) -> (n: PaneNode<S>)
    ensures
        node_view(n) == preset_column_view(nodes_view(upper@), size, *vis, *sizes, zero),
{
    proof {
        lemma_nodes_view_len_index(upper@);
    }
    let ghost uv = nodes_view(upper@);
    let mut col: Vec<PaneNode<S>> = Vec::new();
    let has_upper = upper.len() > 0;
    if has_upper {
        let row = PaneNode { kind: PaneNodeKind::Row(upper), size: PaneSize::Flex };
        proof {
            lemma_nodes_view_push(col@, row);
            assert(nodes_view(col@) =~= Seq::<NodeView<S>>::empty());
        }
        col.push(row);
        assert(nodes_view(col@) =~= seq![NodeView { kind: KindView::Row(uv), size: PaneSize::Flex }]);
    } else {
        assert(nodes_view(col@) =~= Seq::<NodeView<S>>::empty());
    }
    if vis.timeline {
        let region = PaneNode {
            kind: PaneNodeKind::TimelineRegion,
            size: if has_upper { PaneSize::Fixed(sizes.timeline_height) } else { PaneSize::Flex },
        };
        let seam = if has_upper { Some((ResizeTarget::TimelineHeight, false)) } else { None };
        push_seamed(&mut col, region, seam, zero);
    }
    PaneNode { kind: PaneNodeKind::Column(col), size }
}

/// Build the pane tree for the active preset, honoring pane visibility.
/// The agent pane is always the outermost left column. Dividers are sized
/// `S::default()`.
pub fn build_pane_tree<S: Copy + Default>(layout: &PaneLayout, sizes: &ResolvedSizes<S>) -> (tree: PaneNode<S>)
    ensures
        exists|zero: S|
            call_ensures(S::default, (), zero) && #[trigger] pane_tree_spec(*layout, *sizes, zero)
                == node_view(tree),
{
    let zero = S::default();
    let vis = layout.visibility;
    let mut root: Vec<PaneNode<S>> = Vec::new();
    assert(nodes_view(root@) =~= Seq::<NodeView<S>>::empty());
    if vis.agent {
        let ghost before = root@;
        root.push(pane_node(PaneId::Agent, PaneSize::Fixed(sizes.agent_width)));
        proof {
            lemma_nodes_view_push(before, root@.last());
        }
    }
    assert(nodes_view(root@) =~= agent_root(vis, *sizes));
    match layout.preset {
        LayoutPreset::Default => {
            let mut upper: Vec<PaneNode<S>> = Vec::new();
            assert(nodes_view(upper@) =~= Seq::<NodeView<S>>::empty());
            if vis.media {
                let ghost before = upper@;
                upper.push(pane_node(PaneId::Media, PaneSize::Fixed(sizes.media_width)));
                proof {
                    lemma_nodes_view_push(before, upper@.last());
                }
            }
            if vis.preview {
                push_seamed(
                    &mut upper,
                    pane_node(PaneId::Preview, PaneSize::Flex),
                    Some((ResizeTarget::MediaWidth, true)),
                    zero,
                );
            }
            if vis.inspector {
                push_seamed(
                    &mut upper,
                    pane_node(PaneId::Inspector, PaneSize::Fixed(sizes.inspector_width)),
                    Some((ResizeTarget::InspectorWidth, true)),
                    zero,
                );
            }
            fill_if_no_flex(&mut upper);
            let col = preset_column(upper, PaneSize::Flex, &vis, sizes, zero);
            push_seamed(&mut root, col, Some((ResizeTarget::AgentWidth, true)), zero);
            assert(nodes_view(root@) == default_root(vis, *sizes, zero));
        },
        LayoutPreset::Media => {
            if vis.media {
                push_seamed(
                    &mut root,
                    pane_node(PaneId::Media, PaneSize::Fixed(sizes.media_width)),
                    Some((ResizeTarget::AgentWidth, true)),
                    zero,
                );
            }
            let mut upper: Vec<PaneNode<S>> = Vec::new();
            assert(nodes_view(upper@) =~= Seq::<NodeView<S>>::empty());
            if vis.preview {
                let ghost before = upper@;
                upper.push(pane_node(PaneId::Preview, PaneSize::Flex));
                proof {
                    lemma_nodes_view_push(before, upper@.last());
                }
            }
            if vis.inspector {
                push_seamed(
                    &mut upper,
                    pane_node(PaneId::Inspector, PaneSize::Fixed(sizes.inspector_width)),
                    Some((ResizeTarget::InspectorWidth, true)),
                    zero,
                );
            }
            fill_if_no_flex(&mut upper);
            let seam_target = if vis.media { ResizeTarget::MediaWidth } else { ResizeTarget::AgentWidth };
            let col = preset_column(upper, PaneSize::Flex, &vis, sizes, zero);
            push_seamed(&mut root, col, Some((seam_target, true)), zero);
            assert(nodes_view(root@) == media_root(vis, *sizes, zero));
        },
        LayoutPreset::Vertical => {
            let mut upper: Vec<PaneNode<S>> = Vec::new();
            assert(nodes_view(upper@) =~= Seq::<NodeView<S>>::empty());
            if vis.media {
                let ghost before = upper@;
                upper.push(pane_node(PaneId::Media, PaneSize::Fixed(sizes.media_width)));
                proof {
                    lemma_nodes_view_push(before, upper@.last());
                }
            }
            if vis.inspector {
                push_seamed(
                    &mut upper,
                    pane_node(PaneId::Inspector, PaneSize::Flex),
                    Some((ResizeTarget::MediaWidth, true)),
                    zero,
                );
            }
            fill_if_no_flex(&mut upper);
            let left = preset_column(upper, PaneSize::Fixed(sizes.vertical_left_width), &vis, sizes, zero);
            let left_is_empty = match &left.kind {
                PaneNodeKind::Column(c) => c.len() == 0,
                _ => false,
            };
            proof {
                if left.kind is Column {
                    lemma_nodes_view_len_index(left.kind->Column_0@);
                }
            }
            if !left_is_empty {
                push_seamed(&mut root, left, Some((ResizeTarget::AgentWidth, true)), zero);
            }
            if vis.preview {
                let seam_target = if left_is_empty {
                    ResizeTarget::AgentWidth
                } else {
                    ResizeTarget::VerticalLeftWidth
                };
                push_seamed(&mut root, pane_node(PaneId::Preview, PaneSize::Flex), Some((seam_target, true)), zero);
            }
            assert(nodes_view(root@) == vertical_root(vis, *sizes, zero));
        },
    }
    fill_if_no_flex(&mut root);
    let tree = PaneNode { kind: PaneNodeKind::Row(root), size: PaneSize::Flex };
    assert(pane_tree_spec(*layout, *sizes, zero) == node_view(tree));
    tree
}

/// Every divider sits strictly between two non-divider siblings.
pub open spec fn well_seamed<S>(c: Seq<NodeView<S>>) -> bool {
    forall|i: int|
        0 <= i < c.len() && is_divider_view(#[trigger] c[i]) ==> 0 < i < c.len() - 1
            && !is_divider_view(c[i - 1]) && !is_divider_view(c[i + 1])
}

/// The children of the root row of the tree.
pub open spec fn root_children<S>(layout: PaneLayout, sizes: ResolvedSizes<S>, zero: S) -> Seq<NodeView<S>> {
    match pane_tree_spec(layout, sizes, zero).kind {
        KindView::Row(c) => c,
        _ => Seq::empty(),
    }
}

proof fn lemma_push_seamed_well_seamed<S>(
    list: Seq<NodeView<S>>,
    node: NodeView<S>,
    seam: Option<(ResizeTarget, bool)>,
    zero: S,
)
    requires
        well_seamed(list),
        list.len() > 0 ==> !is_divider_view(list.last()),
        !is_divider_view(node),
    ensures
        well_seamed(push_seamed_view(list, node, seam, zero)),
        !is_divider_view(push_seamed_view(list, node, seam, zero).last()),
        forall|i: int| 0 <= i < list.len() ==> #[trigger] push_seamed_view(list, node, seam, zero)[i] == list[i],
{
    let r = push_seamed_view(list, node, seam, zero);
    assert forall|i: int| 0 <= i < r.len() && is_divider_view(#[trigger] r[i]) implies 0 < i < r.len() - 1
        && !is_divider_view(r[i - 1]) && !is_divider_view(r[i + 1]) by {
        if i < list.len() {
            assert(r[i] == list[i]);
            assert(r[i + 1] == list[i + 1] || i + 1 == list.len());
        }
    }
}

proof fn lemma_fill_keeps_kinds<S>(c: Seq<NodeView<S>>)
    ensures
        fill_if_no_flex_view(c).len() == c.len(),
        forall|i: int| 0 <= i < c.len() ==> (#[trigger] fill_if_no_flex_view(c)[i]).kind == c[i].kind,
{
    if c.len() > 0 && !has_flex(c) {
        match last_solid(c) {
            Some(k) => {
                lemma_last_solid_in_range(c);
            },
            None => {},
        }
    }
}

proof fn lemma_last_solid_in_range<S>(c: Seq<NodeView<S>>)
    ensures
        last_solid(c) matches Some(k) ==> 0 <= k < c.len() && !is_divider_view(c[k]),
    decreases c.len(),
{
    if c.len() > 0 && is_divider_view(c.last()) {
        lemma_last_solid_in_range(c.drop_last());
    }
}

/// Dividers in the root row always separate two panes or containers, and
/// the agent pane, when visible, is the outermost left column and appears
/// in no other root position; when hidden, it is absent from the root row.
pub proof fn lemma_root_row_shape<S>(layout: PaneLayout, sizes: ResolvedSizes<S>, zero: S)
    ensures
        well_seamed(root_children(layout, sizes, zero)),
        layout.visibility.agent ==> root_children(layout, sizes, zero).len() > 0 && root_children(
            layout,
            sizes,
            zero,
        )[0].kind == KindView::<S>::Pane(PaneId::Agent),
        forall|i: int|
            0 < i < root_children(layout, sizes, zero).len() ==> (#[trigger] root_children(
                layout,
                sizes,
                zero,
            )[i]).kind != KindView::<S>::Pane(PaneId::Agent),
        !layout.visibility.agent ==> forall|i: int|
            0 <= i < root_children(layout, sizes, zero).len() ==> (#[trigger] root_children(
                layout,
                sizes,
                zero,
            )[i]).kind != KindView::<S>::Pane(PaneId::Agent),
{
    let vis = layout.visibility;
    let a = agent_root(vis, sizes);
    assert(well_seamed(a));
    let root = match layout.preset {
        LayoutPreset::Default => default_root(vis, sizes, zero),
        LayoutPreset::Media => media_root(vis, sizes, zero),
        LayoutPreset::Vertical => vertical_root(vis, sizes, zero),
    };
    match layout.preset {
        LayoutPreset::Default => {
            let upper = upper_row_default(vis, sizes, zero);
            let col = preset_column_view(upper, PaneSize::Flex, vis, sizes, zero);
            lemma_push_seamed_well_seamed(a, col, Some((ResizeTarget::AgentWidth, true)), zero);
        },
        LayoutPreset::Media => {
            let r1 = if vis.media {
                push_seamed_view(
                    a,
                    pane_view(PaneId::Media, PaneSize::Fixed(sizes.media_width)),
                    Some((ResizeTarget::AgentWidth, true)),
                    zero,
                )
            } else {
                a
            };
            if vis.media {
                lemma_push_seamed_well_seamed(
                    a,
                    pane_view(PaneId::Media, PaneSize::Fixed(sizes.media_width)),
                    Some((ResizeTarget::AgentWidth, true)),
                    zero,
                );
            }
            let upper = upper_row_media(vis, sizes, zero);
            let col = preset_column_view(upper, PaneSize::Flex, vis, sizes, zero);
            let seam = if vis.media { ResizeTarget::MediaWidth } else { ResizeTarget::AgentWidth };
            lemma_push_seamed_well_seamed(r1, col, Some((seam, true)), zero);
        },
        LayoutPreset::Vertical => {
            let upper = upper_row_vertical(vis, sizes, zero);
            let left = preset_column_view(upper, PaneSize::Fixed(sizes.vertical_left_width), vis, sizes, zero);
            let left_is_empty = match left.kind {
                KindView::Column(c) => c.len() == 0,
                _ => false,
            };
            let r1 = if !left_is_empty {
                push_seamed_view(a, left, Some((ResizeTarget::AgentWidth, true)), zero)
            } else {
                a
            };
            if !left_is_empty {
                lemma_push_seamed_well_seamed(a, left, Some((ResizeTarget::AgentWidth, true)), zero);
            }
            if vis.preview {
                let seam = if left_is_empty { ResizeTarget::AgentWidth } else { ResizeTarget::VerticalLeftWidth };
                lemma_push_seamed_well_seamed(r1, pane_view(PaneId::Preview, PaneSize::Flex), Some((seam, true)), zero);
            }
        },
    }
    lemma_fill_keeps_kinds(root);
    let c = root_children(layout, sizes, zero);
    assert(c == fill_if_no_flex_view(root));
    assert forall|i: int| 0 <= i < c.len() && is_divider_view(#[trigger] c[i]) implies 0 < i < c.len() - 1
        && !is_divider_view(c[i - 1]) && !is_divider_view(c[i + 1]) by {
        assert(c[i].kind == root[i].kind);
        assert(is_divider_view(root[i]));
        assert(c[i - 1].kind == root[i - 1].kind);
        assert(c[i + 1].kind == root[i + 1].kind);
    }
    assert forall|i: int| 0 <= i < c.len() implies #[trigger] c[i].kind == root[i].kind by {}
}


/// Occurrences of the card of pane `id` in a tree.
pub open spec fn pane_count<S>(n: NodeView<S>, id: PaneId) -> nat
    decreases n, 1int,
{
    match n.kind {
        KindView::Row(c) => panes_count(c, id),
        KindView::Column(c) => panes_count(c, id),
        KindView::Pane(p) => if p == id {
            1
        } else {
            0
        },
        _ => 0,
    }
}

/// Occurrences of the card of pane `id` in a list of trees.
pub open spec fn panes_count<S>(s: Seq<NodeView<S>>, id: PaneId) -> nat
    decreases s, 0int,
{
    if s.len() == 0 {
        0
    } else {
        panes_count(s.drop_last(), id) + pane_count(s.last(), id)
    }
}

/// Occurrences of the toolbar + timeline region in a tree.
pub open spec fn region_count<S>(n: NodeView<S>) -> nat
    decreases n, 1int,
{
    match n.kind {
        KindView::Row(c) => regions_count(c),
        KindView::Column(c) => regions_count(c),
        KindView::TimelineRegion => 1,
        _ => 0,
    }
}

/// Occurrences of the toolbar + timeline region in a list of trees.
pub open spec fn regions_count<S>(s: Seq<NodeView<S>>) -> nat
    decreases s, 0int,
{
    if s.len() == 0 {
        0
    } else {
        regions_count(s.drop_last()) + region_count(s.last())
    }
}

/// A container's children are well placed: every divider sits between two
/// non-divider siblings, and a non-empty container has a flexible child.
pub open spec fn container_ok<S>(c: Seq<NodeView<S>>) -> bool {
    well_seamed(c) && (c.len() > 0 ==> has_flex(c))
}

/// Every container in the tree is well placed.
pub open spec fn node_ok<S>(n: NodeView<S>) -> bool
    decreases n, 1int,
{
    match n.kind {
        KindView::Row(c) => container_ok(c) && nodes_ok(c),
        KindView::Column(c) => container_ok(c) && nodes_ok(c),
        _ => true,
    }
}

/// Every container in each tree of the list is well placed.
pub open spec fn nodes_ok<S>(s: Seq<NodeView<S>>) -> bool
    decreases s, 0int,
{
    s.len() == 0 || (nodes_ok(s.drop_last()) && node_ok(s.last()))
}

proof fn lemma_counts_push<S>(s: Seq<NodeView<S>>, n: NodeView<S>)
    ensures
        forall|id: PaneId| #[trigger] panes_count(s.push(n), id) == panes_count(s, id) + pane_count(n, id),
        regions_count(s.push(n)) == regions_count(s) + region_count(n),
        nodes_ok(s.push(n)) == (nodes_ok(s) && node_ok(n)),
{
    assert(s.push(n).drop_last() =~= s);
}

proof fn lemma_counts_push_seamed<S>(
    list: Seq<NodeView<S>>,
    node: NodeView<S>,
    seam: Option<(ResizeTarget, bool)>,
    zero: S,
)
    ensures
        forall|id: PaneId| #[trigger] panes_count(push_seamed_view(list, node, seam, zero), id) == panes_count(list, id)
            + pane_count(node, id),
        regions_count(push_seamed_view(list, node, seam, zero)) == regions_count(list) + region_count(node),
        nodes_ok(push_seamed_view(list, node, seam, zero)) == (nodes_ok(list) && node_ok(node)),
{
    match seam {
        Some((target, horizontal)) => {
            let d = divider_view(target, horizontal, zero);
            lemma_counts_push(list, d);
            lemma_counts_push(list.push(d), node);
            lemma_counts_push(list, node);
        },
        None => {
            lemma_counts_push(list, node);
        },
    }
}

proof fn lemma_update_same_kind<S>(s: Seq<NodeView<S>>, k: int, x: NodeView<S>)
    requires
        0 <= k < s.len(),
        x.kind == s[k].kind,
    ensures
        forall|id: PaneId| #[trigger] panes_count(s.update(k, x), id) == panes_count(s, id),
        regions_count(s.update(k, x)) == regions_count(s),
        nodes_ok(s.update(k, x)) == nodes_ok(s),
    decreases s.len(),
{
    let u = s.update(k, x);
    if k == s.len() - 1 {
        assert(u.drop_last() =~= s.drop_last());
        assert(u.last() == x);
        assert(x.kind == s.last().kind);
        assert forall|id: PaneId| #[trigger] pane_count(x, id) == pane_count(s.last(), id) by {
            reveal_with_fuel(pane_count, 1);
        }
        assert(region_count(x) == region_count(s.last()));
        assert(node_ok(x) == node_ok(s.last()));
        assert forall|id: PaneId| #[trigger] panes_count(u, id) == panes_count(s, id) by {
            assert(panes_count(u, id) == panes_count(u.drop_last(), id) + pane_count(u.last(), id));
            assert(panes_count(s, id) == panes_count(s.drop_last(), id) + pane_count(s.last(), id));
        }
    } else {
        lemma_update_same_kind(s.drop_last(), k, x);
        assert(u.drop_last() =~= s.drop_last().update(k, x));
        assert(u.last() == s.last());
        assert forall|id: PaneId| #[trigger] panes_count(u, id) == panes_count(s, id) by {
            assert(panes_count(u, id) == panes_count(u.drop_last(), id) + pane_count(u.last(), id));
            assert(panes_count(s, id) == panes_count(s.drop_last(), id) + pane_count(s.last(), id));
        }
    }
}

proof fn lemma_last_solid_some<S>(c: Seq<NodeView<S>>, j: int)
    requires
        0 <= j < c.len(),
        !is_divider_view(c[j]),
    ensures
        last_solid(c) is Some,
    decreases c.len(),
{
    if is_divider_view(c.last()) {
        assert(j < c.len() - 1);
        assert(c.drop_last()[j] == c[j]);
        lemma_last_solid_some(c.drop_last(), j);
    }
}

/// Filling keeps every count and well-placedness, and gives a list with a
/// pane or container a flexible child.
proof fn lemma_fill_props<S>(c: Seq<NodeView<S>>)
    ensures
        forall|id: PaneId| #[trigger] panes_count(fill_if_no_flex_view(c), id) == panes_count(c, id),
        regions_count(fill_if_no_flex_view(c)) == regions_count(c),
        nodes_ok(fill_if_no_flex_view(c)) == nodes_ok(c),
        well_seamed(c) ==> well_seamed(fill_if_no_flex_view(c)),
        (exists|j: int| 0 <= j < c.len() && !is_divider_view(#[trigger] c[j])) ==> has_flex(fill_if_no_flex_view(c)),
        fill_if_no_flex_view(c).len() == c.len(),
{
    lemma_fill_keeps_kinds(c);
    let f = fill_if_no_flex_view(c);
    if c.len() > 0 && !has_flex(c) {
        lemma_last_solid_in_range(c);
        match last_solid(c) {
            Some(k) => {
                lemma_update_same_kind(c, k, NodeView { size: PaneSize::Flex, ..c[k] });
                assert(f[k].size is Flex);
            },
            None => {
                if exists|j: int| 0 <= j < c.len() && !is_divider_view(#[trigger] c[j]) {
                    let j = choose|j: int| 0 <= j < c.len() && !is_divider_view(#[trigger] c[j]);
                    lemma_last_solid_some(c, j);
                }
            },
        }
    }
    if well_seamed(c) {
        assert forall|i: int| 0 <= i < f.len() && is_divider_view(#[trigger] f[i]) implies 0 < i < f.len() - 1
            && !is_divider_view(f[i - 1]) && !is_divider_view(f[i + 1]) by {
            assert(f[i].kind == c[i].kind);
            assert(is_divider_view(c[i]));
            assert(f[i - 1].kind == c[i - 1].kind);
            assert(f[i + 1].kind == c[i + 1].kind);
        }
    }
}

pub open spec fn one_if(b: bool) -> nat {
    if b {
        1
    } else {
        0
    }
}

/// A list built by seamed pushes of non-divider nodes: well seamed and
/// ending in a non-divider.
pub open spec fn seamed_list<S>(c: Seq<NodeView<S>>) -> bool {
    well_seamed(c) && (c.len() > 0 ==> !is_divider_view(c.last()))
}

proof fn lemma_step<S>(list: Seq<NodeView<S>>, node: NodeView<S>, seam: Option<(ResizeTarget, bool)>, zero: S)
    requires
        seamed_list(list),
        !is_divider_view(node),
    ensures
        seamed_list(push_seamed_view(list, node, seam, zero)),
        push_seamed_view(list, node, seam, zero).len() > 0,
        forall|id: PaneId| #[trigger] panes_count(push_seamed_view(list, node, seam, zero), id) == panes_count(list, id)
            + pane_count(node, id),
        regions_count(push_seamed_view(list, node, seam, zero)) == regions_count(list) + region_count(node),
        nodes_ok(push_seamed_view(list, node, seam, zero)) == (nodes_ok(list) && node_ok(node)),
        forall|i: int| 0 <= i < list.len() ==> #[trigger] push_seamed_view(list, node, seam, zero)[i] == list[i],
{
    lemma_push_seamed_well_seamed(list, node, seam, zero);
    lemma_counts_push_seamed(list, node, seam, zero);
}

proof fn lemma_single<S>(x: NodeView<S>)
    requires
        !is_divider_view(x),
    ensures
        seamed_list(seq![x]),
        forall|id: PaneId| #[trigger] panes_count(seq![x], id) == pane_count(x, id),
        regions_count(seq![x]) == region_count(x),
        nodes_ok(seq![x]) == node_ok(x),
{
    assert(seq![x] =~= Seq::<NodeView<S>>::empty().push(x));
    lemma_counts_push(Seq::<NodeView<S>>::empty(), x);
}

proof fn lemma_empty_counts<S>()
    ensures
        seamed_list(Seq::<NodeView<S>>::empty()),
        forall|id: PaneId| #[trigger] panes_count(Seq::<NodeView<S>>::empty(), id) == 0,
        regions_count(Seq::<NodeView<S>>::empty()) == 0,
        nodes_ok(Seq::<NodeView<S>>::empty()),
{
}

/// A seamed list, filled: a well-placed container holding the same trees.
proof fn lemma_filled<S>(c: Seq<NodeView<S>>)
    requires
        seamed_list(c),
    ensures
        container_ok(fill_if_no_flex_view(c)),
        forall|id: PaneId| #[trigger] panes_count(fill_if_no_flex_view(c), id) == panes_count(c, id),
        regions_count(fill_if_no_flex_view(c)) == regions_count(c),
        nodes_ok(fill_if_no_flex_view(c)) == nodes_ok(c),
        fill_if_no_flex_view(c).len() == c.len(),
{
    lemma_fill_props(c);
    if c.len() > 0 {
        assert(!is_divider_view(c[c.len() - 1]));
    }
}

/// The pane card `id` as a tree: one card, well placed.
proof fn lemma_pane_leaf<S>(p: PaneId, size: PaneSize<S>)
    ensures
        forall|id: PaneId| #[trigger] pane_count(pane_view(p, size), id) == one_if(p == id),
        region_count(pane_view(p, size)) == 0,
        node_ok(pane_view(p, size)),
        !is_divider_view(pane_view(p, size)),
{
}

/// Panes counted in an upper row, by visibility.
pub open spec fn row_panes(vis: PaneVisibility, id: PaneId, a: PaneId, b: PaneId, c: Option<PaneId>) -> nat {
    one_if(id == a && vis_flag(vis, a)) + one_if(id == b && vis_flag(vis, b)) + match c {
        Some(x) => one_if(id == x && vis_flag(vis, x)),
        None => 0,
    }
}

proof fn lemma_upper_default<S>(vis: PaneVisibility, sizes: ResolvedSizes<S>, zero: S)
    ensures
        container_ok(upper_row_default(vis, sizes, zero)),
        nodes_ok(upper_row_default(vis, sizes, zero)),
        forall|id: PaneId| #[trigger] panes_count(upper_row_default(vis, sizes, zero), id) == row_panes(
            vis,
            id,
            PaneId::Media,
            PaneId::Preview,
            Some(PaneId::Inspector),
        ),
        regions_count(upper_row_default(vis, sizes, zero)) == 0,
        (upper_row_default(vis, sizes, zero).len() > 0) == (vis.media || vis.preview || vis.inspector),
{
    let m = pane_view(PaneId::Media, PaneSize::Fixed(sizes.media_width));
    let p = pane_view(PaneId::Preview, PaneSize::<S>::Flex);
    let i = pane_view(PaneId::Inspector, PaneSize::Fixed(sizes.inspector_width));
    lemma_pane_leaf(PaneId::Media, PaneSize::Fixed(sizes.media_width));
    lemma_pane_leaf(PaneId::Preview, PaneSize::<S>::Flex);
    lemma_pane_leaf(PaneId::Inspector, PaneSize::Fixed(sizes.inspector_width));
    let u0 = if vis.media { seq![m] } else { Seq::empty() };
    if vis.media {
        lemma_single(m);
    } else {
        lemma_empty_counts::<S>();
    }
    let u1 = if vis.preview {
        push_seamed_view(u0, p, Some((ResizeTarget::MediaWidth, true)), zero)
    } else {
        u0
    };
    if vis.preview {
        lemma_step(u0, p, Some((ResizeTarget::MediaWidth, true)), zero);
    }
    let u2 = if vis.inspector {
        push_seamed_view(u1, i, Some((ResizeTarget::InspectorWidth, true)), zero)
    } else {
        u1
    };
    if vis.inspector {
        lemma_step(u1, i, Some((ResizeTarget::InspectorWidth, true)), zero);
    }
    lemma_filled(u2);
}

proof fn lemma_upper_media<S>(vis: PaneVisibility, sizes: ResolvedSizes<S>, zero: S)
    ensures
        container_ok(upper_row_media(vis, sizes, zero)),
        nodes_ok(upper_row_media(vis, sizes, zero)),
        forall|id: PaneId| #[trigger] panes_count(upper_row_media(vis, sizes, zero), id) == row_panes(
            vis,
            id,
            PaneId::Preview,
            PaneId::Inspector,
            None,
        ),
        regions_count(upper_row_media(vis, sizes, zero)) == 0,
        (upper_row_media(vis, sizes, zero).len() > 0) == (vis.preview || vis.inspector),
{
    let p = pane_view(PaneId::Preview, PaneSize::<S>::Flex);
    let i = pane_view(PaneId::Inspector, PaneSize::Fixed(sizes.inspector_width));
    lemma_pane_leaf(PaneId::Preview, PaneSize::<S>::Flex);
    lemma_pane_leaf(PaneId::Inspector, PaneSize::Fixed(sizes.inspector_width));
    let u0 = if vis.preview { seq![p] } else { Seq::empty() };
    if vis.preview {
        lemma_single(p);
    } else {
        lemma_empty_counts::<S>();
    }
    let u1 = if vis.inspector {
        push_seamed_view(u0, i, Some((ResizeTarget::InspectorWidth, true)), zero)
    } else {
        u0
    };
    if vis.inspector {
        lemma_step(u0, i, Some((ResizeTarget::InspectorWidth, true)), zero);
    }
    lemma_filled(u1);
}

proof fn lemma_upper_vertical<S>(vis: PaneVisibility, sizes: ResolvedSizes<S>, zero: S)
    ensures
        container_ok(upper_row_vertical(vis, sizes, zero)),
        nodes_ok(upper_row_vertical(vis, sizes, zero)),
        forall|id: PaneId| #[trigger] panes_count(upper_row_vertical(vis, sizes, zero), id) == row_panes(
            vis,
            id,
            PaneId::Media,
            PaneId::Inspector,
            None,
        ),
        regions_count(upper_row_vertical(vis, sizes, zero)) == 0,
        (upper_row_vertical(vis, sizes, zero).len() > 0) == (vis.media || vis.inspector),
{
    let m = pane_view(PaneId::Media, PaneSize::Fixed(sizes.media_width));
    let i = pane_view(PaneId::Inspector, PaneSize::<S>::Flex);
    lemma_pane_leaf(PaneId::Media, PaneSize::Fixed(sizes.media_width));
    lemma_pane_leaf(PaneId::Inspector, PaneSize::<S>::Flex);
    let u0 = if vis.media { seq![m] } else { Seq::empty() };
    if vis.media {
        lemma_single(m);
    } else {
        lemma_empty_counts::<S>();
    }
    let u1 = if vis.inspector {
        push_seamed_view(u0, i, Some((ResizeTarget::MediaWidth, true)), zero)
    } else {
        u0
    };
    if vis.inspector {
        lemma_step(u0, i, Some((ResizeTarget::MediaWidth, true)), zero);
    }
    lemma_filled(u1);
}

proof fn lemma_preset_column<S>(
    upper: Seq<NodeView<S>>,
    size: PaneSize<S>,
    vis: PaneVisibility,
    sizes: ResolvedSizes<S>,
    zero: S,
)
    requires
        container_ok(upper),
        nodes_ok(upper),
    ensures
        node_ok(preset_column_view(upper, size, vis, sizes, zero)),
        !is_divider_view(preset_column_view(upper, size, vis, sizes, zero)),
        forall|id: PaneId| #[trigger] pane_count(preset_column_view(upper, size, vis, sizes, zero), id) == panes_count(upper, id),
        region_count(preset_column_view(upper, size, vis, sizes, zero)) == regions_count(upper) + one_if(vis.timeline),
        preset_column_view(upper, size, vis, sizes, zero).size == size,
        preset_column_view(upper, size, vis, sizes, zero).kind matches KindView::Column(c) && (c.len() == 0 <==> (
        upper.len() == 0 && !vis.timeline)),
{
    let has_upper = upper.len() > 0;
    let row = NodeView { kind: KindView::Row(upper), size: PaneSize::<S>::Flex };
    assert(node_ok(row) == (container_ok(upper) && nodes_ok(upper)));
    assert forall|id: PaneId| #[trigger] pane_count(row, id) == panes_count(upper, id) by {}
    assert(region_count(row) == regions_count(upper));
    let col0 = if has_upper { seq![row] } else { Seq::empty() };
    if has_upper {
        lemma_single(row);
    } else {
        lemma_empty_counts::<S>();
    }
    let region = NodeView {
        kind: KindView::<S>::TimelineRegion,
        size: if has_upper { PaneSize::Fixed(sizes.timeline_height) } else { PaneSize::Flex },
    };
    let seam = if has_upper { Some((ResizeTarget::TimelineHeight, false)) } else { None };
    let col = if vis.timeline {
        push_seamed_view(col0, region, seam, zero)
    } else {
        col0
    };
    if vis.timeline {
        lemma_step(col0, region, seam, zero);
        assert(region_count(region) == 1);
        assert forall|id: PaneId| #[trigger] pane_count(region, id) == 0 by {}
        if !has_upper {
            assert(col[0] == region);
        }
    }
    if has_upper {
        assert(col[0] == row);
    }
    if col.len() > 0 {
        assert(col[0].size is Flex);
    }
    let n = preset_column_view(upper, size, vis, sizes, zero);
    assert(n.kind == KindView::Column(col));
    assert forall|id: PaneId| #[trigger] pane_count(n, id) == panes_count(upper, id) by {
        assert(pane_count(n, id) == panes_count(col, id));
    }
    assert(region_count(n) == regions_count(col));
}

/// Cards of pane `id` a layout with visibility `vis` shows: one for a
/// visible pane, none for a hidden one; the timeline shows as the
/// toolbar + timeline region, never as a card.
pub open spec fn expected_cards(vis: PaneVisibility, id: PaneId) -> nat {
    if id == PaneId::Timeline {
        0
    } else {
        one_if(vis_flag(vis, id))
    }
}

proof fn lemma_agent_root<S>(vis: PaneVisibility, sizes: ResolvedSizes<S>)
    ensures
        seamed_list(agent_root(vis, sizes)),
        nodes_ok(agent_root(vis, sizes)),
        forall|id: PaneId| #[trigger] panes_count(agent_root(vis, sizes), id) == one_if(id == PaneId::Agent && vis.agent),
        regions_count(agent_root(vis, sizes)) == 0,
{
    let a = pane_view(PaneId::Agent, PaneSize::Fixed(sizes.agent_width));
    lemma_pane_leaf(PaneId::Agent, PaneSize::Fixed(sizes.agent_width));
    if vis.agent {
        lemma_single(a);
    } else {
        lemma_empty_counts::<S>();
    }
}

proof fn lemma_root_list<S>(layout: PaneLayout, sizes: ResolvedSizes<S>, zero: S, root: Seq<NodeView<S>>)
    requires
        root == (match layout.preset {
            LayoutPreset::Default => default_root(layout.visibility, sizes, zero),
            LayoutPreset::Media => media_root(layout.visibility, sizes, zero),
            LayoutPreset::Vertical => vertical_root(layout.visibility, sizes, zero),
        }),
    ensures
        seamed_list(root),
        nodes_ok(root),
        forall|id: PaneId| #[trigger] panes_count(root, id) == expected_cards(layout.visibility, id),
        regions_count(root) == one_if(layout.visibility.timeline),
        layout.visibility.agent ==> root.len() > 0 && root[0] == pane_view(PaneId::Agent, PaneSize::Fixed(sizes.agent_width)),
{
    let vis = layout.visibility;
    let a = agent_root(vis, sizes);
    lemma_agent_root(vis, sizes);
    match layout.preset {
        LayoutPreset::Default => {
            let upper = upper_row_default(vis, sizes, zero);
            lemma_upper_default(vis, sizes, zero);
            let col = preset_column_view(upper, PaneSize::Flex, vis, sizes, zero);
            lemma_preset_column(upper, PaneSize::Flex, vis, sizes, zero);
            lemma_step(a, col, Some((ResizeTarget::AgentWidth, true)), zero);
        },
        LayoutPreset::Media => {
            let m = pane_view(PaneId::Media, PaneSize::Fixed(sizes.media_width));
            lemma_pane_leaf(PaneId::Media, PaneSize::Fixed(sizes.media_width));
            let r1 = if vis.media {
                push_seamed_view(a, m, Some((ResizeTarget::AgentWidth, true)), zero)
            } else {
                a
            };
            if vis.media {
                lemma_step(a, m, Some((ResizeTarget::AgentWidth, true)), zero);
            }
            let upper = upper_row_media(vis, sizes, zero);
            lemma_upper_media(vis, sizes, zero);
            let col = preset_column_view(upper, PaneSize::Flex, vis, sizes, zero);
            lemma_preset_column(upper, PaneSize::Flex, vis, sizes, zero);
            let seam = if vis.media { ResizeTarget::MediaWidth } else { ResizeTarget::AgentWidth };
            lemma_step(r1, col, Some((seam, true)), zero);
        },
        LayoutPreset::Vertical => {
            let upper = upper_row_vertical(vis, sizes, zero);
            lemma_upper_vertical(vis, sizes, zero);
            let left = preset_column_view(upper, PaneSize::Fixed(sizes.vertical_left_width), vis, sizes, zero);
            lemma_preset_column(upper, PaneSize::Fixed(sizes.vertical_left_width), vis, sizes, zero);
            let left_is_empty = match left.kind {
                KindView::Column(c) => c.len() == 0,
                _ => false,
            };
            let r1 = if !left_is_empty {
                push_seamed_view(a, left, Some((ResizeTarget::AgentWidth, true)), zero)
            } else {
                a
            };
            if !left_is_empty {
                lemma_step(a, left, Some((ResizeTarget::AgentWidth, true)), zero);
            }
            let p = pane_view(PaneId::Preview, PaneSize::<S>::Flex);
            lemma_pane_leaf(PaneId::Preview, PaneSize::<S>::Flex);
            if vis.preview {
                let seam = if left_is_empty { ResizeTarget::AgentWidth } else { ResizeTarget::VerticalLeftWidth };
                lemma_step(r1, p, Some((seam, true)), zero);
            }
        },
    }
}

/// The shape of the pane tree, for every preset and visibility: the root
/// is a flexible row; every row and column in the tree has its dividers
/// strictly between two panes or containers (never first, last or next to
/// another divider) and, when not empty, a flexible child; each of the
/// agent, media, preview and inspector cards occurs exactly once when its
/// pane is visible and never when hidden; the toolbar + timeline region
/// occurs exactly once when the timeline is visible and never otherwise;
/// a visible agent card keeps its fixed width unless it is alone.
pub proof fn lemma_pane_tree_shape<S>(layout: PaneLayout, sizes: ResolvedSizes<S>, zero: S)
    ensures
        pane_tree_spec(layout, sizes, zero).size is Flex,
        pane_tree_spec(layout, sizes, zero).kind is Row,
        node_ok(pane_tree_spec(layout, sizes, zero)),
        forall|id: PaneId| #[trigger] pane_count(pane_tree_spec(layout, sizes, zero), id) == expected_cards(
            layout.visibility,
            id,
        ),
        region_count(pane_tree_spec(layout, sizes, zero)) == one_if(layout.visibility.timeline),
        layout.visibility.agent && root_children(layout, sizes, zero).len() > 1 ==> root_children(layout, sizes, zero)[0]
            == pane_view(PaneId::Agent, PaneSize::Fixed(sizes.agent_width)),
{
    let vis = layout.visibility;
    let root = match layout.preset {
        LayoutPreset::Default => default_root(vis, sizes, zero),
        LayoutPreset::Media => media_root(vis, sizes, zero),
        LayoutPreset::Vertical => vertical_root(vis, sizes, zero),
    };
    lemma_root_list(layout, sizes, zero, root);
    lemma_filled(root);
    let t = pane_tree_spec(layout, sizes, zero);
    assert(t.kind == KindView::Row(fill_if_no_flex_view(root)));
    assert forall|id: PaneId| #[trigger] pane_count(t, id) == expected_cards(vis, id) by {
        assert(pane_count(t, id) == panes_count(fill_if_no_flex_view(root), id));
    }
    assert(region_count(t) == regions_count(fill_if_no_flex_view(root)));
    if vis.agent && root.len() > 1 {
        assert(!is_divider_view(root.last()));
        assert(last_solid(root) == Some(root.len() - 1));
        assert(fill_if_no_flex_view(root)[0] == root[0]);
    }
}

} // verus!
