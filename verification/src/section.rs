//! Finding the section of one language in a forest of nodes.
//!
//! A section is opened by a heading: an `h2` element whose `id` is the language's label.
//! Headings are looked for at a fixed depth below a sequence of nodes. Where one is
//! found, the section is the level of the node that holds the heading among its
//! children: that node and every later sibling of it.

use crate::dom::{attrs_view, forest_view, AttrView, DocNode, DocNodeView, NodeKind, NodeKindView};
use crate::text::text_eq;
use vstd::prelude::*;
use vstd::slice::slice_subrange;

verus! {

/// The tag of a section heading.
pub open spec fn heading_tag() -> Seq<char> {
    "h2"@
}

/// The attribute that carries a heading's label.
pub open spec fn label_attribute() -> Seq<char> {
    "id"@
}

/// The attribute is an `id` with the given label as its value.
pub open spec fn names_label(attr: AttrView, label: Seq<char>) -> bool {
    attr.local == label_attribute() && attr.value == label
}

/// The node is a heading for `label`: an `h2` element, in whatever namespace, with an
/// `id` attribute equal to `label`.
pub open spec fn is_heading(node: DocNodeView, label: Seq<char>) -> bool {
    match node.data {
        NodeKindView::Element { ns, local, attrs } => {
            &&& local == heading_tag()
            &&& exists|k: int| 0 <= k < attrs.len() && names_label(#[trigger] attrs[k], label)
        },
        _ => false,
    }
}

/// Some node exactly `depth` levels below the level of `nodes` is a heading for `label`.
/// Depth 0 is the level of `nodes` itself.
pub open spec fn heading_at_depth(nodes: Seq<DocNodeView>, label: Seq<char>, depth: nat) -> bool
    decreases depth,
{
    if depth == 0 {
        exists|k: int| 0 <= k < nodes.len() && is_heading(#[trigger] nodes[k], label)
    } else {
        exists|k: int|
            0 <= k < nodes.len() && heading_at_depth(
                (#[trigger] nodes[k]).children,
                label,
                (depth - 1) as nat,
            )
    }
}

/// `k` is the first position in `nodes` whose node has a heading for `label` exactly
/// `depth` levels below its children's level.
pub open spec fn is_first_holder(
    nodes: Seq<DocNodeView>,
    label: Seq<char>,
    depth: nat,
    k: int,
) -> bool {
    &&& 0 <= k < nodes.len()
    &&& heading_at_depth(nodes[k].children, label, depth)
    &&& forall|j: int|
        0 <= j < k ==> !heading_at_depth((#[trigger] nodes[j]).children, label, depth)
}

/// The first position in `nodes` whose node has a heading for `label` exactly `depth`
/// levels below its children's level, where there is one.
pub open spec fn first_holder(nodes: Seq<DocNodeView>, label: Seq<char>, depth: nat) -> int {
    choose|k: int| is_first_holder(nodes, label, depth, k)
}

/// The level that a search at `depth >= 1` resolves to, where `nodes` has a heading
/// at that depth: follow the first holder down until the heading is one level below,
/// then take the holder and its later siblings.
pub open spec fn section_level(nodes: Seq<DocNodeView>, label: Seq<char>, depth: nat) -> Seq<
    DocNodeView,
>
    decreases depth,
{
    if depth <= 1 {
        nodes.skip(first_holder(nodes, label, 0))
    } else {
        let down = (depth - 1) as nat;
        section_level(nodes[first_holder(nodes, label, down)].children, label, down)
    }
}

/// What a search at a given depth reports.
pub enum SearchStatus<'a> {
    /// No heading at the depth searched.
    NoMatch,
    /// A heading on the level searched itself (depth 0).
    FoundTitle,
    /// Depth 1: the first node with a heading among its children, and its later siblings.
    FirstDepth(&'a [DocNode]),
    /// Depth 2: the level found one step further down.
    Resolved(&'a [DocNode]),
}

/// Mathematical model of a [`SearchStatus`].
pub enum SearchStatusView {
    NoMatch,
    FoundTitle,
    FirstDepth(Seq<DocNodeView>),
    Resolved(Seq<DocNodeView>),
}

impl<'a> View for SearchStatus<'a> {
    type V = SearchStatusView;

    open spec fn view(&self) -> SearchStatusView {
        match self {
            SearchStatus::NoMatch => SearchStatusView::NoMatch,
            SearchStatus::FoundTitle => SearchStatusView::FoundTitle,
            SearchStatus::FirstDepth(level) => SearchStatusView::FirstDepth(forest_view(level@)),
            SearchStatus::Resolved(level) => SearchStatusView::Resolved(forest_view(level@)),
        }
    }
}

/// The most levels that a search goes down.
pub const SECTION_DEPTH: usize = 2;

/// What a search for `label` at `depth <= 2` below `nodes` reports.
pub open spec fn search_status(
    depth: nat,
    nodes: Seq<DocNodeView>,
    label: Seq<char>,
) -> SearchStatusView {
    if !heading_at_depth(nodes, label, depth) {
        SearchStatusView::NoMatch
    } else if depth == 0 {
        SearchStatusView::FoundTitle
    } else if depth == 1 {
        SearchStatusView::FirstDepth(section_level(nodes, label, 1))
    } else {
        SearchStatusView::Resolved(section_level(nodes, label, depth))
    }
}

/// There is at most one first holder.
pub proof fn lemma_first_holder_unique(
    nodes: Seq<DocNodeView>,
    label: Seq<char>,
    depth: nat,
    k: int,
)
    requires
        is_first_holder(nodes, label, depth, k),
    ensures
        first_holder(nodes, label, depth) == k,
        heading_at_depth(nodes, label, depth + 1),
{
    let c = first_holder(nodes, label, depth);
    assert(is_first_holder(nodes, label, depth, c));
    if c < k {
        assert(!heading_at_depth(nodes[c].children, label, depth));
    }
    if k < c {
        assert(!heading_at_depth(nodes[k].children, label, depth));
    }
    assert(heading_at_depth(nodes[k].children, label, depth));
}

/// Whether the node is a heading for `section`.
pub fn is_section(node: &DocNode, section: &str) -> (b: bool)
    ensures
        b == is_heading(node@, section@),
{
    match &node.data {
        NodeKind::Element { ns, local, attrs } => {
            if !text_eq(local.as_str(), "h2") {
                return false;
            }
            let mut i: usize = 0;
            while i < attrs.len()
                invariant
                    i <= attrs.len(),
                    node@.data == (NodeKindView::Element {
                        ns: ns@,
                        local: local@,
                        attrs: attrs_view(attrs@),
                    }),
                    local@ == heading_tag(),
                    forall|k: int|
                        0 <= k < i ==> !names_label(
                            #[trigger] attrs_view(attrs@)[k],
                            section@,
                        ),
                decreases attrs.len() - i,
            {
                let attr = &attrs[i];
                if text_eq(attr.local.as_str(), "id") && text_eq(attr.value.as_str(), section) {
                    assert(names_label(node@.data->Element_attrs[i as int], section@));
                    return true;
                }
                i += 1;
            }
            false
        },
        _ => false,
    }
}

/// The tail of a slice of nodes is the tail of its model.
pub proof fn lemma_forest_view_skip(nodes: Seq<DocNode>, from: int)
    requires
        0 <= from <= nodes.len(),
    ensures
        forest_view(nodes.subrange(from, nodes.len() as int)) == forest_view(nodes).skip(from),
{
}

/// Looks for a heading for `section` exactly `depth` levels below `nodes`, taking the
/// first in document order. At depth 0 it reports whether one is on the level itself;
/// at depth 1 the first node that has one among its children, with its later siblings;
/// at depth 2 what the search at depth 1 finds below the first node where it finds
/// anything.
pub fn search_title_with_depth<'a>(depth: usize, nodes: &'a [DocNode], section: &str) -> (status:
    SearchStatus<'a>)
    requires
        depth <= SECTION_DEPTH,
    ensures
        status@ == search_status(depth as nat, forest_view(nodes@), section@),
    decreases depth,
{
    let ghost level = forest_view(nodes@);
    let ghost label = section@;
    if depth == 0 {
        let mut i: usize = 0;
        while i < nodes.len()
            invariant
                i <= nodes.len(),
                depth == 0,
                level == forest_view(nodes@),
                label == section@,
                forall|k: int| 0 <= k < i ==> !is_heading(#[trigger] level[k], label),
            decreases nodes.len() - i,
        {
            if is_section(&nodes[i], section) {
                assert(is_heading(level[i as int], label));
                return SearchStatus::FoundTitle;
            }
            i += 1;
        }
        SearchStatus::NoMatch
    } else {
        let ghost down = (depth - 1) as nat;
        let mut idx: usize = 0;
        while idx < nodes.len()
            invariant
                idx <= nodes.len(),
                1 <= depth <= SECTION_DEPTH,
                down == depth - 1,
                level == forest_view(nodes@),
                label == section@,
                forall|k: int|
                    0 <= k < idx ==> !heading_at_depth((#[trigger] level[k]).children, label, down),
            decreases nodes.len() - idx,
        {
            let node = &nodes[idx];
            assert(level[idx as int].children == forest_view(node.children@));
            let search = search_title_with_depth(depth - 1, node.children.as_slice(), section);
            match search {
                SearchStatus::NoMatch => {},
                SearchStatus::FoundTitle => {
                    let found = slice_subrange(nodes, idx, nodes.len());
                    proof {
                        lemma_first_holder_unique(level, label, 0, idx as int);
                        lemma_forest_view_skip(nodes@, idx as int);
                    }
                    return SearchStatus::FirstDepth(found);
                },
                SearchStatus::FirstDepth(found) => {
                    proof {
                        lemma_first_holder_unique(level, label, 1, idx as int);
                    }
                    return SearchStatus::Resolved(found);
                },
                SearchStatus::Resolved(found) => {
                    assert(false);
                    return SearchStatus::Resolved(found);
                },
            }
            idx += 1;
        }
        SearchStatus::NoMatch
    }
}

/// The section for `label` in a forest: what the search at depth 2 resolves to on the
/// top level if it finds a heading there, else the section of the first top-level node
/// whose children hold one, searched in the same way.
pub open spec fn definitions(nodes: Seq<DocNodeView>, label: Seq<char>) -> Option<Seq<DocNodeView>>
    decreases nodes, 1int, 0int,
{
    if heading_at_depth(nodes, label, SECTION_DEPTH as nat) {
        Some(section_level(nodes, label, SECTION_DEPTH as nat))
    } else {
        definitions_below(nodes, label, 0)
    }
}

/// The section for `label` below the first node, from position `from` on, whose
/// children hold one.
pub open spec fn definitions_below(nodes: Seq<DocNodeView>, label: Seq<char>, from: int) -> Option<
    Seq<DocNodeView>,
>
    decreases nodes, 0int, nodes.len() - from,
{
    if from < 0 || from >= nodes.len() {
        None
    } else {
        match definitions(nodes[from].children, label) {
            Some(found) => Some(found),
            None => definitions_below(nodes, label, from + 1),
        }
    }
}

/// The model of an optional level of nodes.
pub open spec fn level_view(level: Option<&[DocNode]>) -> Option<Seq<DocNodeView>> {
    match level {
        Some(nodes) => Some(forest_view(nodes@)),
        None => None,
    }
}

/// Finds the section for `section` in a forest: first by a search at depth 2 on the
/// top level, then, where that finds nothing, in the children of each top-level node in
/// turn.
pub fn get_definitions<'a>(nodes: &'a [DocNode], section: &str) -> (found: Option<&'a [DocNode]>)
    ensures
        level_view(found) == definitions(forest_view(nodes@), section@),
    decreases forest_view(nodes@),
{
    let ghost level = forest_view(nodes@);
    let ghost label = section@;
    match search_title_with_depth(SECTION_DEPTH, nodes, section) {
        SearchStatus::Resolved(found) => Some(found),
        SearchStatus::NoMatch => {
            let mut idx: usize = 0;
            while idx < nodes.len()
                invariant
                    idx <= nodes.len(),
                    level == forest_view(nodes@),
                    label == section@,
                    definitions(level, label) == definitions_below(level, label, idx as int),
                decreases nodes.len() - idx,
            {
                let node = &nodes[idx];
                assert(level[idx as int].children == forest_view(node.children@));
                let below = get_definitions(node.children.as_slice(), section);
                if below.is_some() {
                    return below;
                }
                idx += 1;
            }
            None
        },
        SearchStatus::FoundTitle => {
            assert(false);
            None
        },
        SearchStatus::FirstDepth(found) => {
            assert(false);
            None
        },
    }
}

/// Some heading for `label` lies two or more levels below the level of `nodes`.
pub open spec fn heading_below(nodes: Seq<DocNodeView>, label: Seq<char>) -> bool {
    exists|depth: nat| depth >= SECTION_DEPTH && heading_at_depth(nodes, label, depth)
}

/// Where the children of a node from position `from` on hold a section, the search
/// below finds one.
pub proof fn lemma_below_reaches(nodes: Seq<DocNodeView>, label: Seq<char>, from: int, k: int)
    requires
        0 <= from <= k < nodes.len(),
        definitions(nodes[k].children, label) is Some,
    ensures
        definitions_below(nodes, label, from) is Some,
    decreases k - from,
{
    if from < k && definitions(nodes[from].children, label) is None {
        lemma_below_reaches(nodes, label, from + 1, k);
    }
}

/// Where the search below finds a section, the children of some node hold one.
pub proof fn lemma_below_found(nodes: Seq<DocNodeView>, label: Seq<char>, from: int) -> (k: int)
    requires
        0 <= from,
        definitions_below(nodes, label, from) is Some,
    ensures
        from <= k < nodes.len(),
        definitions(nodes[k].children, label) == definitions_below(nodes, label, from),
    decreases nodes.len() - from,
{
    if definitions(nodes[from].children, label) is Some {
        from
    } else {
        lemma_below_found(nodes, label, from + 1)
    }
}

/// A heading two or more levels down is always found.
pub proof fn lemma_heading_is_found(nodes: Seq<DocNodeView>, label: Seq<char>, depth: nat)
    requires
        depth >= SECTION_DEPTH,
        heading_at_depth(nodes, label, depth),
    ensures
        definitions(nodes, label) is Some,
    decreases depth,
{
    if !heading_at_depth(nodes, label, SECTION_DEPTH as nat) {
        let down = (depth - 1) as nat;
        let k = choose|k: int|
            0 <= k < nodes.len() && heading_at_depth((#[trigger] nodes[k]).children, label, down);
        lemma_heading_is_found(nodes[k].children, label, down);
        lemma_below_reaches(nodes, label, 0, k);
    }
}

/// What is found lies under a heading two or more levels down.
pub proof fn lemma_found_has_heading(nodes: Seq<DocNodeView>, label: Seq<char>)
    requires
        definitions(nodes, label) is Some,
    ensures
        heading_below(nodes, label),
    decreases nodes,
{
    if !heading_at_depth(nodes, label, SECTION_DEPTH as nat) {
        let k = lemma_below_found(nodes, label, 0);
        lemma_found_has_heading(nodes[k].children, label);
        let down = choose|depth: nat|
            depth >= SECTION_DEPTH && heading_at_depth(nodes[k].children, label, depth);
        assert(heading_at_depth(nodes, label, down + 1));
    }
}

/// A section is found exactly where a heading for the label lies two or more levels
/// below the working sequence.
pub proof fn lemma_found_iff_heading_below(nodes: Seq<DocNodeView>, label: Seq<char>)
    ensures
        definitions(nodes, label) is Some <==> heading_below(nodes, label),
{
    if definitions(nodes, label) is Some {
        lemma_found_has_heading(nodes, label);
    }
    if heading_below(nodes, label) {
        let depth = choose|depth: nat|
            depth >= SECTION_DEPTH && heading_at_depth(nodes, label, depth);
        lemma_heading_is_found(nodes, label, depth);
    }
}

/// The bounds of a section. Where a heading lies two levels below `nodes`, the section
/// is cut out of the children of one node: of the first node `nodes[i]` that has the
/// heading two levels below it. It begins with the first child `j` that holds a
/// heading and runs to the last child. The first in document order wins, and nothing
/// of the later nodes of `nodes` belongs to it.
pub proof fn lemma_section_bounds(nodes: Seq<DocNodeView>, label: Seq<char>) -> (at: (int, int))
    requires
        heading_at_depth(nodes, label, SECTION_DEPTH as nat),
    ensures
        is_first_holder(nodes, label, 1, at.0),
        is_first_holder(nodes[at.0].children, label, 0, at.1),
        definitions(nodes, label) == Some(nodes[at.0].children.skip(at.1)),
        heading_at_depth(nodes[at.0].children.skip(at.1)[0].children, label, 0),
{
    let i = lemma_first_holder_exists(nodes, label, 1);
    lemma_first_holder_unique(nodes, label, 1, i);
    let level = nodes[i].children;
    let j = lemma_first_holder_exists(level, label, 0);
    lemma_first_holder_unique(level, label, 0, j);
    assert(section_level(nodes, label, SECTION_DEPTH as nat) == section_level(level, label, 1)) by {
        reveal_with_fuel(section_level, 2);
    }
    (i, j)
}

/// Where a heading lies `depth + 1` levels below `nodes`, some node is the first to
/// have it `depth` levels below its children's level.
pub proof fn lemma_first_holder_exists(
    nodes: Seq<DocNodeView>,
    label: Seq<char>,
    depth: nat,
) -> (k: int)
    requires
        heading_at_depth(nodes, label, depth + 1),
    ensures
        is_first_holder(nodes, label, depth, k),
{
    let some = choose|k: int|
        0 <= k < nodes.len() && heading_at_depth((#[trigger] nodes[k]).children, label, depth);
    lemma_least_holder(nodes, label, depth, some)
}

/// Below a position that holds a heading there is a first one that does.
pub proof fn lemma_least_holder(
    nodes: Seq<DocNodeView>,
    label: Seq<char>,
    depth: nat,
    upper: int,
) -> (k: int)
    requires
        0 <= upper < nodes.len(),
        heading_at_depth(nodes[upper].children, label, depth),
    ensures
        is_first_holder(nodes, label, depth, k),
        k <= upper,
    decreases upper,
{
    if exists|j: int|
        0 <= j < upper && heading_at_depth((#[trigger] nodes[j]).children, label, depth) {
        let lower = choose|j: int|
            0 <= j < upper && heading_at_depth((#[trigger] nodes[j]).children, label, depth);
        lemma_least_holder(nodes, label, depth, lower)
    } else {
        upper
    }
}

} // verus!
