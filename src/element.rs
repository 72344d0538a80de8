use vstd::prelude::*;

use crate::cascade::{resolve_slots, CascadeSlot, StyleCascade};
use crate::context::{lemma_extends_trans, ElementId, LayoutId, ViewContext};
use crate::geometry::Bounds;
use crate::style::{Style, StyleRefinement};

verus! {

/// An element whose look comes from a style cascade.
pub trait Styled: Sized {
    /// The element's cascade, slot by slot.
    spec fn cascade_view(&self) -> Seq<Option<StyleRefinement>>;

    /// The slots at and after this index belong to wrappers around the element: its own
    /// layout and paint never change them.
    spec fn slot_bound(&self) -> nat;

    /// Reserves a new slot at the end of the element's cascade.
    fn reserve_style_slot(&mut self) -> (slot: CascadeSlot)
        ensures
            slot.spec_index() == old(self).cascade_view().len(),
            final(self).cascade_view() == old(self).cascade_view().push(None),
            final(self).slot_bound() == old(self).slot_bound(),
    ;

    /// Stores or clears the refinement at `slot` of the element's cascade.
    fn set_style_slot(&mut self, slot: CascadeSlot, refinement: Option<StyleRefinement>)
        requires
            slot.spec_index() < old(self).cascade_view().len(),
        ensures
            final(self).cascade_view() == old(self).cascade_view().update(
                slot.spec_index() as int,
                refinement,
            ),
            final(self).slot_bound() == old(self).slot_bound(),
    ;

    /// How many slots the element's cascade has.
    fn style_slot_count(&self) -> (n: usize)
        ensures
            n == self.cascade_view().len(),
    ;

    /// The element's resolved style.
    fn computed_style(&mut self) -> (style: Style)
        ensures
            style == resolve_slots(old(self).cascade_view()),
            *final(self) == *old(self),
    ;
}

/// The bound of a wrapper that owns `slot` around an element bounded by `child_bound`.
pub open spec fn wrapper_bound(child_bound: nat, slot: nat) -> nat {
    if child_bound <= slot {
        slot + 1
    } else {
        child_bound
    }
}

/// The cascade after a pass keeps its length, and every slot from `bound` on.
pub open spec fn slots_kept_from(
    before: Seq<Option<StyleRefinement>>,
    after: Seq<Option<StyleRefinement>>,
    bound: nat,
) -> bool {
    &&& after.len() == before.len()
    &&& forall|i: int| bound <= i < before.len() ==> #[trigger] after[i] == before[i]
}

/// A node of the element tree: it lays itself out, then paints itself in the bounds that
/// the layout engine gave it. Neither pass changes how many cascade slots it has, nor any
/// slot that a wrapper around it owns.
pub trait Element: Styled + Sized {
    /// What the element keeps from one frame to the next, and from layout to paint.
    type ElementState;

    /// The element's identity, if it has one.
    spec fn id_view(&self) -> Option<ElementId>;

    fn element_id(&self) -> (r: Option<ElementId>)
        ensures
            r == self.id_view(),
    ;

    fn layout(&mut self, element_state: Option<Self::ElementState>, cx: &mut ViewContext) -> (r: (
        LayoutId,
        Self::ElementState,
    ))
        requires
            old(cx).wf(),
        ensures
            final(cx).extends(old(cx)),
            forall|i: int|
                0 <= i < old(cx).flags_view().len() ==> #[trigger] final(cx).flags_view()[i]
                    == old(cx).flags_view()[i],
            final(self).slot_bound() == old(self).slot_bound(),
            slots_kept_from(old(self).cascade_view(), final(self).cascade_view(), old(self).slot_bound()),
    ;

    fn paint(&mut self, bounds: Bounds, element_state: &mut Self::ElementState, cx: &mut ViewContext)
        requires
            old(cx).wf(),
        ensures
            final(cx).extends(old(cx)),
            final(self).slot_bound() == old(self).slot_bound(),
            slots_kept_from(old(self).cascade_view(), final(self).cascade_view(), old(self).slot_bound()),
    ;
}

/// What a layout node carries from its layout to its paint: its children's boxes and states,
/// and, once painted, the bounds each child was painted in.
pub struct LayoutNodeElementState<S> {
    pub child_layout_ids: Vec<LayoutId>,
    pub child_states: Vec<S>,
    pub painted_bounds: Vec<Bounds>,
}

/// The bounds a child is painted in: those solved for its box, else its parent's.
pub open spec fn child_paint_bounds(solved: Seq<Option<Bounds>>, id: LayoutId, parent: Bounds) -> Bounds {
    if id.spec_index() < solved.len() && solved[id.spec_index() as int] is Some {
        solved[id.spec_index() as int]->Some_0
    } else {
        parent
    }
}

/// How many children a node paints: those that have both a box and a state.
pub open spec fn painted_count(n_children: nat, n_states: nat, n_ids: nat) -> nat {
    if n_children <= n_states && n_children <= n_ids {
        n_children
    } else if n_states <= n_ids {
        n_states
    } else {
        n_ids
    }
}

/// A box that owns an ordered list of children and a style cascade. Its style is resolved
/// from the cascade whenever asked for, so it always reflects the latest change.
pub struct LayoutNodeState<E> {
    id: Option<ElementId>,
    style_cascade: StyleCascade,
    children: Vec<E>,
}

impl<E> LayoutNodeState<E> {
    pub closed spec fn children_view(&self) -> Seq<E> {
        self.children@
    }

    pub closed spec fn id_spec(&self) -> Option<ElementId> {
        self.id
    }

    /// A node with no children, no identity and an empty cascade.
    pub fn new() -> (r: Self)
        ensures
            r.children_view().len() == 0,
            r.id_spec() is None,
            r.cascade_view().len() == 0,
    {
        LayoutNodeState {
            id: None,
            style_cascade: StyleCascade::new(),
            children: Vec::new(),
        }
    }

    /// This node with identity `id`.
    pub fn id(self, id: ElementId) -> (r: Self)
        ensures
            r.id_spec() == Some(id),
            r.children_view() == self.children_view(),
            r.cascade_view() == self.cascade_view(),
    {
        LayoutNodeState { id: Some(id), ..self }
    }

    /// This node with `child` appended after its children.
    pub fn child(self, child: E) -> (r: Self)
        ensures
            r.children_view() == self.children_view().push(child),
            r.id_spec() == self.id_spec(),
            r.cascade_view() == self.cascade_view(),
    {
        let mut node = self;
        node.children.push(child);
        node
    }

    /// This node with `children` appended, in order, after its children.
    pub fn children(self, children: Vec<E>) -> (r: Self)
        ensures
            r.children_view() == self.children_view() + children@,
            r.id_spec() == self.id_spec(),
            r.cascade_view() == self.cascade_view(),
    {
        let mut node = self;
        let mut rest = children;
        node.children.append(&mut rest);
        node
    }

    /// Reserves a new slot at the end of this node's cascade.
    pub fn reserve_slot(&mut self) -> (slot: CascadeSlot)
        ensures
            slot.spec_index() == old(self).cascade_view().len(),
            final(self).cascade_view() == old(self).cascade_view().push(None),
            final(self).children_view() == old(self).children_view(),
            final(self).id_spec() == old(self).id_spec(),
    {
        self.style_cascade.reserve()
    }

    pub fn child_count(&self) -> (r: usize)
        ensures
            r == self.children_view().len(),
    {
        self.children.len()
    }
}

impl<E> Styled for LayoutNodeState<E> {
    open spec fn slot_bound(&self) -> nat {
        0
    }

    closed spec fn cascade_view(&self) -> Seq<Option<StyleRefinement>> {
        self.style_cascade@
    }

    fn reserve_style_slot(&mut self) -> (slot: CascadeSlot) {
        self.style_cascade.reserve()
    }

    fn set_style_slot(&mut self, slot: CascadeSlot, refinement: Option<StyleRefinement>) {
        self.style_cascade.set(slot, refinement);
    }

    fn style_slot_count(&self) -> (n: usize) {
        self.style_cascade.len()
    }

    fn computed_style(&mut self) -> (style: Style) {
        self.style_cascade.resolve()
    }
}


impl<E: Element> LayoutNodeState<E> {
    /// Lays out each child in order, fresh, then requests a box for this node with its
    /// resolved style and its children's boxes in order.
    pub fn layout_node(&mut self, cx: &mut ViewContext) -> (r: (
        LayoutId,
        LayoutNodeElementState<E::ElementState>,
    ))
        requires
            old(cx).wf(),
        ensures
            final(cx).extends(old(cx)),
            final(self).cascade_view() == old(self).cascade_view(),
            final(self).id_spec() == old(self).id_spec(),
            final(self).children_view().len() == old(self).children_view().len(),
            r.1.child_layout_ids@.len() == old(self).children_view().len(),
            r.1.child_states@.len() == old(self).children_view().len(),
            final(cx).layouts_view().len() > 0,
            r.0.spec_index() == final(cx).layouts_view().len() - 1,
            final(cx).layouts_view().last().style == resolve_slots(old(self).cascade_view()),
            final(cx).layouts_view().last().children@ == r.1.child_layout_ids@,
            forall|k: int|
                0 <= k < old(cx).flags_view().len() ==> #[trigger] final(cx).flags_view()[k]
                    == old(cx).flags_view()[k],
    {
        let ghost cx0 = *cx;
        let mut ids: Vec<LayoutId> = Vec::new();
        let mut states: Vec<E::ElementState> = Vec::new();
        let mut i: usize = 0;
        while i < self.children.len()
            invariant
                cx.extends(&cx0),
                cx0 == *old(cx),
                forall|k: int|
                    0 <= k < cx0.flags_view().len() ==> #[trigger] cx.flags_view()[k]
                        == cx0.flags_view()[k],
                i <= self.children@.len(),
                self.children@.len() == old(self).children@.len(),
                self.style_cascade@ == old(self).style_cascade@,
                self.id == old(self).id,
                ids@.len() == i,
                states@.len() == i,
            decreases self.children@.len() - i,
        {
            let ghost before = *cx;
            let mut child = self.children.remove(i);
            let (id, st) = child.layout(None, cx);
            proof {
                lemma_extends_trans(&cx0, &before, cx);
            }
            self.children.insert(i, child);
            ids.push(id);
            states.push(st);
            i = i + 1;
        }
        let style = self.style_cascade.resolve();
        let ghost before = *cx;
        let request_ids = ids.clone();
        assert(request_ids@ =~= ids@);
        let id = cx.request_layout(style, request_ids);
        proof {
            lemma_extends_trans(&cx0, &before, cx);
        }
        (id, LayoutNodeElementState { child_layout_ids: ids, child_states: states, painted_bounds: Vec::new() })
    }

    /// Paints each child in order, in the bounds the layout engine solved for it (this
    /// node's bounds where none were solved). A node without children paints nothing.
    pub fn paint_children(
        &mut self,
        bounds: Bounds,
        state: &mut LayoutNodeElementState<E::ElementState>,
        cx: &mut ViewContext,
    )
        requires
            old(cx).wf(),
        ensures
            final(cx).extends(old(cx)),
            final(self).cascade_view() == old(self).cascade_view(),
            final(self).id_spec() == old(self).id_spec(),
            final(self).children_view().len() == old(self).children_view().len(),
            final(state).child_layout_ids@ == old(state).child_layout_ids@,
            final(state).child_states@.len() == old(state).child_states@.len(),
            final(state).painted_bounds@.len() == painted_count(
                old(self).children_view().len(),
                old(state).child_states@.len(),
                old(state).child_layout_ids@.len(),
            ),
            forall|i: int|
                0 <= i < final(state).painted_bounds@.len() ==> #[trigger] final(state).painted_bounds@[i]
                    == child_paint_bounds(old(cx).solved_view(), old(state).child_layout_ids@[i], bounds),
            old(self).children_view().len() == 0 ==> *final(cx) == *old(cx),
    {
        let ghost cx0 = *cx;
        let n = if self.children.len() <= state.child_states.len() && self.children.len()
            <= state.child_layout_ids.len() {
            self.children.len()
        } else if state.child_states.len() <= state.child_layout_ids.len() {
            state.child_states.len()
        } else {
            state.child_layout_ids.len()
        };
        let mut painted: Vec<Bounds> = Vec::new();
        let mut i: usize = 0;
        while i < n
            invariant
                n == painted_count(
                    self.children@.len(),
                    state.child_states@.len(),
                    state.child_layout_ids@.len(),
                ),
                n <= state.child_layout_ids@.len(),
                *cx == cx0,
                cx0.wf(),
                i <= n,
                painted@.len() == i,
                forall|k: int|
                    0 <= k < i ==> #[trigger] painted@[k] == child_paint_bounds(
                        cx0.solved_view(),
                        state.child_layout_ids@[k],
                        bounds,
                    ),
            decreases n - i,
        {
            let b = match cx.layout_bounds(state.child_layout_ids[i]) {
                Some(b) => b,
                None => bounds,
            };
            painted.push(b);
            i = i + 1;
        }
        let mut i: usize = 0;
        while i < n
            invariant
                n <= self.children@.len(),
                n <= state.child_states@.len(),
                cx.extends(&cx0),
                cx0 == *old(cx),
                self.children@.len() == old(self).children@.len(),
                self.style_cascade@ == old(self).style_cascade@,
                self.id == old(self).id,
                state.child_layout_ids@ == old(state).child_layout_ids@,
                state.child_states@.len() == old(state).child_states@.len(),
                old(self).children@.len() == 0 ==> *cx == cx0,
                painted@.len() == n,
            decreases n - i,
        {
            let ghost before = *cx;
            let mut child = self.children.remove(i);
            let mut st = state.child_states.remove(i);
            child.paint(painted[i], &mut st, cx);
            proof {
                lemma_extends_trans(&cx0, &before, cx);
            }
            self.children.insert(i, child);
            state.child_states.insert(i, st);
            i = i + 1;
        }
        state.painted_bounds = painted;
    }
}

impl<E: Element> Element for LayoutNodeState<E> {
    type ElementState = LayoutNodeElementState<E::ElementState>;

    closed spec fn id_view(&self) -> Option<ElementId> {
        self.id
    }

    fn element_id(&self) -> (r: Option<ElementId>)
        ensures
            r == self.id_spec(),
    {
        self.id
    }

    /// Lays out the children fresh, in order, then requests this node's box with its resolved
    /// style and the children's boxes in order; no state is carried over from the last frame.
    fn layout(&mut self, element_state: Option<Self::ElementState>, cx: &mut ViewContext) -> (r: (
        LayoutId,
        Self::ElementState,
    ))
        ensures
            final(self).cascade_view() == old(self).cascade_view(),
            final(self).id_spec() == old(self).id_spec(),
            final(self).children_view().len() == old(self).children_view().len(),
            r.1.child_layout_ids@.len() == old(self).children_view().len(),
            r.1.child_states@.len() == old(self).children_view().len(),
            final(cx).layouts_view().len() > 0,
            r.0.spec_index() == final(cx).layouts_view().len() - 1,
            final(cx).layouts_view().last().style == resolve_slots(old(self).cascade_view()),
            final(cx).layouts_view().last().children@ == r.1.child_layout_ids@,
    {
        self.layout_node(cx)
    }

    /// Paints the children in order; a node without children paints nothing.
    fn paint(&mut self, bounds: Bounds, element_state: &mut Self::ElementState, cx: &mut ViewContext)
        ensures
            final(self).cascade_view() == old(self).cascade_view(),
            final(self).id_spec() == old(self).id_spec(),
            final(self).children_view().len() == old(self).children_view().len(),
            final(element_state).child_layout_ids@ == old(element_state).child_layout_ids@,
            final(element_state).child_states@.len() == old(element_state).child_states@.len(),
            final(element_state).painted_bounds@.len() == painted_count(
                old(self).children_view().len(),
                old(element_state).child_states@.len(),
                old(element_state).child_layout_ids@.len(),
            ),
            forall|i: int|
                0 <= i < final(element_state).painted_bounds@.len() ==> #[trigger] final(element_state).painted_bounds@[i]
                    == child_paint_bounds(old(cx).solved_view(), old(element_state).child_layout_ids@[i], bounds),
            old(self).children_view().len() == 0 ==> *final(cx) == *old(cx),
    {
        self.paint_children(bounds, element_state, cx)
    }
}

/// Paints the wrapped element's resolved style (background, border) in its bounds before
/// the wrapped element paints itself; layout and identity pass through unchanged.
pub struct StyledElement<E> {
    child: E,
}

impl<E: Styled> StyledElement<E> {
    pub fn new(child: E) -> (r: Self)
        ensures
            r.cascade_view() == child.cascade_view(),
    {
        StyledElement { child }
    }
}

impl<E: Styled> Styled for StyledElement<E> {
    closed spec fn slot_bound(&self) -> nat {
        self.child.slot_bound()
    }

    closed spec fn cascade_view(&self) -> Seq<Option<StyleRefinement>> {
        self.child.cascade_view()
    }

    fn reserve_style_slot(&mut self) -> (slot: CascadeSlot) {
        self.child.reserve_style_slot()
    }

    fn set_style_slot(&mut self, slot: CascadeSlot, refinement: Option<StyleRefinement>) {
        self.child.set_style_slot(slot, refinement)
    }

    fn style_slot_count(&self) -> (n: usize) {
        self.child.style_slot_count()
    }

    fn computed_style(&mut self) -> (style: Style) {
        self.child.computed_style()
    }
}

impl<E: Element> StyledElement<E> {
    /// Paints the wrapped element's resolved style in `bounds`, then the wrapped element.
    pub fn paint_styled(
        &mut self,
        bounds: Bounds,
        element_state: &mut E::ElementState,
        cx: &mut ViewContext,
    )
        requires
            old(cx).wf(),
        ensures
            final(cx).extends(old(cx)),
            final(self).slot_bound() == old(self).slot_bound(),
            slots_kept_from(old(self).cascade_view(), final(self).cascade_view(), old(self).slot_bound()),
            final(cx).quads_view().len() > old(cx).quads_view().len(),
            final(cx).quads_view()[old(cx).quads_view().len() as int] == (
                bounds,
                resolve_slots(old(self).cascade_view()),
            ),
    {
        let ghost cx0 = *cx;
        let style = self.child.computed_style();
        cx.paint_quad(bounds, style);
        let ghost mid = *cx;
        self.child.paint(bounds, element_state, cx);
        proof {
            lemma_extends_trans(&cx0, &mid, cx);
        }
    }
}

impl<E: Element> Element for StyledElement<E> {
    type ElementState = E::ElementState;

    closed spec fn id_view(&self) -> Option<ElementId> {
        self.child.id_view()
    }

    fn element_id(&self) -> (r: Option<ElementId>) {
        self.child.element_id()
    }

    /// Layout passes through to the wrapped element.
    fn layout(&mut self, element_state: Option<Self::ElementState>, cx: &mut ViewContext) -> (r: (
        LayoutId,
        Self::ElementState,
    )) {
        self.child.layout(element_state, cx)
    }

    /// Paints the resolved style in `bounds` first, then the wrapped element.
    fn paint(&mut self, bounds: Bounds, element_state: &mut Self::ElementState, cx: &mut ViewContext)
        ensures
            final(cx).quads_view().len() > old(cx).quads_view().len(),
            final(cx).quads_view()[old(cx).quads_view().len() as int] == (
                bounds,
                resolve_slots(old(self).cascade_view()),
            ),
    {
        self.paint_styled(bounds, element_state, cx)
    }
}

/// A box with a style and no children: a leaf of the element tree.
pub struct Block {
    id: Option<ElementId>,
    style_cascade: StyleCascade,
}

impl Block {
    pub closed spec fn id_spec(&self) -> Option<ElementId> {
        self.id
    }

    /// A leaf with no identity and an empty cascade.
    pub fn new() -> (r: Block)
        ensures
            r.id_spec() is None,
            r.cascade_view().len() == 0,
    {
        Block { id: None, style_cascade: StyleCascade::new() }
    }

    /// This leaf with identity `id`.
    pub fn id(self, id: ElementId) -> (r: Block)
        ensures
            r.id_spec() == Some(id),
            r.cascade_view() == self.cascade_view(),
    {
        Block { id: Some(id), ..self }
    }

    /// Requests a box for this leaf: its resolved style, and no children.
    pub fn layout_block(&mut self, cx: &mut ViewContext) -> (id: LayoutId)
        requires
            old(cx).wf(),
        ensures
            final(cx).extends(old(cx)),
            *final(self) == *old(self),
            final(cx).layouts_view().len() == old(cx).layouts_view().len() + 1,
            final(cx).layouts_view().last().style == resolve_slots(old(self).cascade_view()),
            final(cx).layouts_view().last().children@.len() == 0,
            final(cx).flags_view() == old(cx).flags_view(),
            id.spec_index() == old(cx).layouts_view().len(),
    {
        let style = self.style_cascade.resolve();
        let children: Vec<LayoutId> = Vec::new();
        cx.request_layout(style, children)
    }
}

impl Styled for Block {
    closed spec fn slot_bound(&self) -> nat {
        0
    }

    closed spec fn cascade_view(&self) -> Seq<Option<StyleRefinement>> {
        self.style_cascade@
    }

    fn reserve_style_slot(&mut self) -> (slot: CascadeSlot) {
        self.style_cascade.reserve()
    }

    fn set_style_slot(&mut self, slot: CascadeSlot, refinement: Option<StyleRefinement>) {
        self.style_cascade.set(slot, refinement);
    }

    fn style_slot_count(&self) -> (n: usize) {
        self.style_cascade.len()
    }

    fn computed_style(&mut self) -> (style: Style) {
        self.style_cascade.resolve()
    }
}

impl Element for Block {
    type ElementState = ();

    closed spec fn id_view(&self) -> Option<ElementId> {
        self.id
    }

    fn element_id(&self) -> (r: Option<ElementId>)
        ensures
            r == self.id_spec(),
    {
        self.id
    }

    fn layout(&mut self, element_state: Option<Self::ElementState>, cx: &mut ViewContext) -> (r: (
        LayoutId,
        Self::ElementState,
    )) {
        (self.layout_block(cx), ())
    }

    fn paint(&mut self, bounds: Bounds, element_state: &mut Self::ElementState, cx: &mut ViewContext) {
    }
}

} // verus!
