use vstd::prelude::*;

use crate::cascade::CascadeSlot;
use crate::context::{
    find_group, hover_changes, lemma_extends_trans, ElementId, HoverFlag, LayoutId, MouseListener, ViewContext,
};
use crate::element::{slots_kept_from, wrapper_bound, Element, LayoutNodeState, Styled};
use crate::geometry::{contains_spec, Bounds, Point};
use crate::style::{refine_spec, empty_refinement, Style, StyleRefinement};

verus! {

/// An element that takes on a hover style while the pointer is over it.
pub trait Hoverable: Styled {
    spec fn hover_style_view(&self) -> StyleRefinement;

    /// This element with `refinement` applied onto its hover style.
    fn hover(self, refinement: StyleRefinement) -> (r: Self)
        ensures
            r.hover_style_view() == refine_spec(self.hover_style_view(), refinement),
            r.cascade_view() == self.cascade_view(),
            r.slot_bound() == self.slot_bound(),
    ;
}

/// What a hoverable wrapper keeps across frames: its shared hover flag, and its child's state.
pub struct HoverableElementState<S> {
    pub hovered: HoverFlag,
    pub child_state: S,
}

/// Tracks whether the pointer is inside the wrapped element's bounds (or its group's) and
/// fills a cascade slot of the wrapped element with the hover style while it is.
pub struct HoverableElement<E> {
    hover_style: StyleRefinement,
    group: Option<String>,
    cascade_slot: CascadeSlot,
    child: E,
}

/// The bounds hover is tested against: the group's when it is registered, else the element's.
pub open spec fn hover_target(
    group: Option<String>,
    groups: Seq<(String, Bounds)>,
    bounds: Bounds,
) -> Bounds {
    match group {
        Some(g) => match find_group(groups, g@) {
            Some(b) => b,
            None => bounds,
        },
        None => bounds,
    }
}

/// The refinement a hover slot holds: the hover style while hovered, nothing otherwise.
pub open spec fn hover_slot_value(hovered: bool, style: StyleRefinement) -> Option<
    StyleRefinement,
> {
    if hovered {
        Some(style)
    } else {
        None
    }
}

impl<E: Styled> HoverableElement<E> {
    pub closed spec fn slot_spec(&self) -> CascadeSlot {
        self.cascade_slot
    }

    pub closed spec fn group_spec(&self) -> Option<String> {
        self.group
    }

    pub closed spec fn child_bound(&self) -> nat {
        self.child.slot_bound()
    }

    /// The wrapper's slot lies inside the wrapped element's cascade, past every slot the
    /// wrapped element owns.
    pub open spec fn wf(&self) -> bool {
        &&& self.child_bound() <= self.slot_spec().spec_index()
        &&& self.slot_spec().spec_index() < self.cascade_view().len()
    }

    /// Wraps `child`, reserving a slot at the end of its cascade for the hover style.
    pub fn new(child: E) -> (r: Self)
        requires
            child.slot_bound() <= child.cascade_view().len(),
        ensures
            r.wf(),
            r.slot_spec().spec_index() == child.cascade_view().len(),
            r.cascade_view() == child.cascade_view().push(None),
            r.hover_style_view() == empty_refinement(),
            r.group_spec() is None,
    {
        let mut child = child;
        let cascade_slot = child.reserve_style_slot();
        HoverableElement { hover_style: StyleRefinement::new(), group: None, cascade_slot, child }
    }

    /// This wrapper, testing hover against the bounds registered under `name`.
    pub fn group(self, name: String) -> (r: Self)
        ensures
            r.group_spec() == Some(name),
            r.slot_spec() == self.slot_spec(),
            r.cascade_view() == self.cascade_view(),
            r.hover_style_view() == self.hover_style_view(),
    {
        HoverableElement { group: Some(name), ..self }
    }

    /// Computes whether the pointer is over the target bounds, fills (or clears) the hover
    /// slot accordingly, and registers a capture-phase move
    /// listener that asks for a redraw when containment comes to differ from the flag.
    pub fn apply_hover(&mut self, bounds: Bounds, flag: HoverFlag, cx: &mut ViewContext) -> (hovered:
        bool)
        requires
            old(cx).wf(),
        ensures
            final(cx).extends(old(cx)),
            hovered == contains_spec(
                hover_target(old(self).group_spec(), old(cx).groups_view(), bounds),
                old(cx).mouse_position_spec(),
            ),
            final(self).cascade_view() == if old(self).slot_spec().spec_index() < old(self).cascade_view().len() {
                old(self).cascade_view().update(
                    old(self).slot_spec().spec_index() as int,
                    hover_slot_value(hovered, old(self).hover_style_view()),
                )
            } else {
                old(self).cascade_view()
            },
            final(self).slot_spec() == old(self).slot_spec(),
            final(self).group_spec() == old(self).group_spec(),
            final(self).hover_style_view() == old(self).hover_style_view(),
            final(cx).flags_view() == old(cx).flags_view(),
            final(self).child_bound() == old(self).child_bound(),
            final(cx).listeners_view() == old(cx).listeners_view().push(
                MouseListener::HoverMove {
                    target: hover_target(old(self).group_spec(), old(cx).groups_view(), bounds),
                    flag,
                },
            ),
            final(cx).records_view() == old(cx).records_view(),
            final(cx).layouts_view() == old(cx).layouts_view(),
            final(cx).quads_view() == old(cx).quads_view(),
            final(cx).notified_spec() == old(cx).notified_spec(),
    {
        let target = match &self.group {
            Some(g) => match cx.group_bounds(g) {
                Some(b) => b,
                None => bounds,
            },
            None => bounds,
        };
        let hovered = target.contains_point(cx.mouse_position());
        if self.cascade_slot.index() < self.child.style_slot_count() {
            let value = if hovered {
                Some(self.hover_style)
            } else {
                None
            };
            self.child.set_style_slot(self.cascade_slot, value);
        }
        cx.on_mouse_event(MouseListener::HoverMove { target, flag });
        hovered
    }

    /// Whether the pointer was over this element at its last paint.
    pub fn is_hovered(&self, state: &HoverableElementState<<E as Element>::ElementState>, cx: &ViewContext) -> (r: bool)
        where
            E: Element,
        ensures
            r == (state.hovered.spec_index() < cx.flags_view().len()
                && cx.flags_view()[state.hovered.spec_index() as int]),
    {
        cx.hover_flag(state.hovered)
    }
}

impl<E: Styled> Hoverable for HoverableElement<E> {
    closed spec fn hover_style_view(&self) -> StyleRefinement {
        self.hover_style
    }

    fn hover(self, refinement: StyleRefinement) -> (r: Self)
        ensures
            r.slot_spec() == self.slot_spec(),
            r.group_spec() == self.group_spec(),
            r.child_bound() == self.child_bound(),
    {
        let mut style = self.hover_style;
        style.refine(&refinement);
        HoverableElement { hover_style: style, ..self }
    }
}

impl<E: Styled> Styled for HoverableElement<E> {
    closed spec fn slot_bound(&self) -> nat {
        wrapper_bound(self.child.slot_bound(), self.cascade_slot.spec_index())
    }

    closed spec fn cascade_view(&self) -> Seq<Option<StyleRefinement>> {
        self.child.cascade_view()
    }

    fn reserve_style_slot(&mut self) -> (slot: CascadeSlot) {
        self.child.reserve_style_slot()
    }

    fn set_style_slot(&mut self, slot: CascadeSlot, refinement: Option<StyleRefinement>) {
        self.child.set_style_slot(slot, refinement)
    }

    fn style_slot_count(&self) -> (n: usize) {
        self.child.style_slot_count()
    }

    fn computed_style(&mut self) -> (style: Style) {
        self.child.computed_style()
    }
}

impl<E: Element> Element for HoverableElement<E> {
    type ElementState = HoverableElementState<E::ElementState>;

    closed spec fn id_view(&self) -> Option<ElementId> {
        self.child.id_view()
    }

    fn element_id(&self) -> (r: Option<ElementId>) {
        self.child.element_id()
    }

    /// Keeps the flag of the last frame, or makes a fresh one (not hovered); hover itself is
    /// only decided at paint, so layout writes neither the flag nor the hover slot.
    fn layout(&mut self, element_state: Option<Self::ElementState>, cx: &mut ViewContext) -> (r: (
        LayoutId,
        Self::ElementState,
    ))
        ensures
            final(self).slot_spec() == old(self).slot_spec(),
            final(self).group_spec() == old(self).group_spec(),
            final(self).hover_style_view() == old(self).hover_style_view(),
            final(self).child_bound() == old(self).child_bound(),
            old(self).wf() ==> final(self).wf() && final(self).cascade_view()[old(self).slot_spec().spec_index() as int] == old(self).cascade_view()[old(self).slot_spec().spec_index() as int],
            element_state is Some ==> r.1.hovered == element_state->Some_0.hovered,
            element_state is None ==> r.1.hovered.spec_index() == old(cx).flags_view().len()
                && final(cx).flags_view().len() > old(cx).flags_view().len()
                && !final(cx).flags_view()[r.1.hovered.spec_index() as int],
    {
        match element_state {
            Some(state) => {
                let (id, child_state) = self.child.layout(Some(state.child_state), cx);
                (id, HoverableElementState { hovered: state.hovered, child_state })
            },
            None => {
                let ghost cx0 = *cx;
                let hovered = cx.new_hover_flag();
                let ghost mid = *cx;
                let (id, child_state) = self.child.layout(None, cx);
                proof {
                    lemma_extends_trans(&cx0, &mid, cx);
                    assert(mid.flags_view()[hovered.spec_index() as int] == false);
                }
                (id, HoverableElementState { hovered, child_state })
            },
        }
    }

    /// Decides hover against the group's bounds (or its own), fills the hover slot, registers
    /// the move listener, paints the wrapped element, and then stores the answer in the flag.
    fn paint(&mut self, bounds: Bounds, element_state: &mut Self::ElementState, cx: &mut ViewContext)
        ensures
            final(self).slot_spec() == old(self).slot_spec(),
            final(self).group_spec() == old(self).group_spec(),
            final(self).hover_style_view() == old(self).hover_style_view(),
            final(self).child_bound() == old(self).child_bound(),
            final(element_state).hovered == old(element_state).hovered,
            final(cx).listeners_view().len() > old(cx).listeners_view().len(),
            final(cx).listeners_view()[old(cx).listeners_view().len() as int]
                == (MouseListener::HoverMove {
                target: hover_target(old(self).group_spec(), old(cx).groups_view(), bounds),
                flag: old(element_state).hovered,
            }),
            old(element_state).hovered.spec_index() < old(cx).flags_view().len() ==> final(cx).flags_view()[old(element_state).hovered.spec_index() as int] == contains_spec(
                hover_target(old(self).group_spec(), old(cx).groups_view(), bounds),
                old(cx).mouse_position_spec(),
            ),
            old(self).wf() ==> final(self).wf() && final(self).cascade_view()[old(self).slot_spec().spec_index() as int] == hover_slot_value(
                contains_spec(
                    hover_target(old(self).group_spec(), old(cx).groups_view(), bounds),
                    old(cx).mouse_position_spec(),
                ),
                old(self).hover_style_view(),
            ),
    {
        let ghost cx0 = *cx;
        let hovered = self.apply_hover(bounds, element_state.hovered, cx);
        let ghost mid = *cx;
        self.child.paint(bounds, &mut element_state.child_state, cx);
        proof {
            lemma_extends_trans(&cx0, &mid, cx);
        }
        let ghost mid2 = *cx;
        cx.set_hover_flag(element_state.hovered, hovered);
        proof {
            lemma_extends_trans(&cx0, &mid2, cx);
        }
    }
}

/// A layout node that can be styled on hover: the usual container of an element tree.
pub struct Div<E>(HoverableElement<LayoutNodeState<E>>);

impl<E> Div<E> {
    pub closed spec fn children_view(&self) -> Seq<E> {
        self.0.child.children_view()
    }

    pub closed spec fn id_spec(&self) -> Option<ElementId> {
        self.0.child.id_spec()
    }

    pub closed spec fn hover_slot(&self) -> CascadeSlot {
        self.0.cascade_slot
    }

    pub closed spec fn group_spec(&self) -> Option<String> {
        self.0.group
    }

    /// An empty container: no children, no identity, its cascade holding only its hover slot.
    pub fn new() -> (r: Self)
        ensures
            r.children_view().len() == 0,
            r.id_spec() is None,
            r.group_spec() is None,
            r.hover_style_view() == empty_refinement(),
            r.cascade_view() == seq![None::<StyleRefinement>],
            r.hover_slot().spec_index() == 0,
    {
        let mut node = LayoutNodeState::<E>::new();
        let cascade_slot = node.reserve_slot();
        assert(node.cascade_view() == seq![None::<StyleRefinement>]);
        Div(HoverableElement { hover_style: StyleRefinement::new(), group: None, cascade_slot, child: node })
    }

    /// This container with identity `id`.
    pub fn id(self, id: ElementId) -> (r: Self)
        ensures
            r.id_spec() == Some(id),
            r.children_view() == self.children_view(),
            r.cascade_view() == self.cascade_view(),
            r.hover_style_view() == self.hover_style_view(),
            r.hover_slot() == self.hover_slot(),
            r.group_spec() == self.group_spec(),
    {
        let Div(h) = self;
        let HoverableElement { hover_style, group, cascade_slot, child } = h;
        Div(HoverableElement { hover_style, group, cascade_slot, child: child.id(id) })
    }

    /// This container with `child` appended after its children.
    pub fn child(self, child: E) -> (r: Self)
        ensures
            r.children_view() == self.children_view().push(child),
            r.id_spec() == self.id_spec(),
            r.cascade_view() == self.cascade_view(),
            r.hover_style_view() == self.hover_style_view(),
            r.hover_slot() == self.hover_slot(),
            r.group_spec() == self.group_spec(),
    {
        let Div(h) = self;
        let HoverableElement { hover_style, group, cascade_slot, child: node } = h;
        Div(HoverableElement { hover_style, group, cascade_slot, child: node.child(child) })
    }

    /// This container with `children` appended, in order, after its children.
    pub fn children(self, children: Vec<E>) -> (r: Self)
        ensures
            r.children_view() == self.children_view() + children@,
            r.id_spec() == self.id_spec(),
            r.cascade_view() == self.cascade_view(),
            r.hover_style_view() == self.hover_style_view(),
            r.hover_slot() == self.hover_slot(),
            r.group_spec() == self.group_spec(),
    {
        let Div(h) = self;
        let HoverableElement { hover_style, group, cascade_slot, child: node } = h;
        Div(HoverableElement { hover_style, group, cascade_slot, child: node.children(children) })
    }

    /// This container, testing hover against the bounds registered under `name`.
    pub fn group(self, name: String) -> (r: Self)
        ensures
            r.group_spec() == Some(name),
            r.children_view() == self.children_view(),
            r.id_spec() == self.id_spec(),
            r.cascade_view() == self.cascade_view(),
            r.hover_style_view() == self.hover_style_view(),
            r.hover_slot() == self.hover_slot(),
    {
        let Div(h) = self;
        Div(HoverableElement { group: Some(name), ..h })
    }
}

impl<E> Hoverable for Div<E> {
    closed spec fn hover_style_view(&self) -> StyleRefinement {
        self.0.hover_style
    }

    fn hover(self, refinement: StyleRefinement) -> (r: Self)
        ensures
            r.children_view() == self.children_view(),
            r.id_spec() == self.id_spec(),
            r.cascade_view() == self.cascade_view(),
            r.hover_slot() == self.hover_slot(),
            r.group_spec() == self.group_spec(),
    {
        let Div(h) = self;
        let mut style = h.hover_style;
        style.refine(&refinement);
        Div(HoverableElement { hover_style: style, ..h })
    }
}

impl<E> Styled for Div<E> {
    closed spec fn slot_bound(&self) -> nat {
        wrapper_bound(self.0.child.slot_bound(), self.0.cascade_slot.spec_index())
    }

    closed spec fn cascade_view(&self) -> Seq<Option<StyleRefinement>> {
        self.0.child.cascade_view()
    }

    fn reserve_style_slot(&mut self) -> (slot: CascadeSlot) {
        self.0.child.reserve_style_slot()
    }

    fn set_style_slot(&mut self, slot: CascadeSlot, refinement: Option<StyleRefinement>) {
        self.0.child.set_style_slot(slot, refinement)
    }

    fn style_slot_count(&self) -> (n: usize) {
        self.0.child.style_slot_count()
    }

    fn computed_style(&mut self) -> (style: Style) {
        self.0.child.computed_style()
    }
}

impl<E: Element> Element for Div<E> {
    type ElementState = HoverableElementState<<LayoutNodeState<E> as Element>::ElementState>;

    closed spec fn id_view(&self) -> Option<ElementId> {
        self.0.child.id_spec()
    }

    fn element_id(&self) -> (r: Option<ElementId>)
        ensures
            r == self.id_spec(),
    {
        self.0.child.element_id()
    }

    fn layout(&mut self, element_state: Option<Self::ElementState>, cx: &mut ViewContext) -> (r: (
        LayoutId,
        Self::ElementState,
    ))
        ensures
            final(self).hover_slot() == old(self).hover_slot(),
            final(self).group_spec() == old(self).group_spec(),
            final(self).hover_style_view() == old(self).hover_style_view(),
            element_state is Some ==> r.1.hovered == element_state->Some_0.hovered,
            element_state is None ==> r.1.hovered.spec_index() == old(cx).flags_view().len()
                && final(cx).flags_view().len() > old(cx).flags_view().len()
                && !final(cx).flags_view()[r.1.hovered.spec_index() as int],
    {
        let Div(h) = self;
        h.layout(element_state, cx)
    }

    /// Decides hover against the group's bounds (or its own), fills the hover slot, registers
    /// the move listener, paints the children, and then stores the answer in the flag.
    fn paint(&mut self, bounds: Bounds, element_state: &mut Self::ElementState, cx: &mut ViewContext)
        ensures
            final(self).hover_slot() == old(self).hover_slot(),
            final(self).group_spec() == old(self).group_spec(),
            final(self).hover_style_view() == old(self).hover_style_view(),
            final(element_state).hovered == old(element_state).hovered,
            final(cx).listeners_view().len() > old(cx).listeners_view().len(),
            final(cx).listeners_view()[old(cx).listeners_view().len() as int]
                == (MouseListener::HoverMove {
                target: hover_target(old(self).group_spec(), old(cx).groups_view(), bounds),
                flag: old(element_state).hovered,
            }),
            old(element_state).hovered.spec_index() < old(cx).flags_view().len() ==> final(cx).flags_view()[old(element_state).hovered.spec_index() as int]
                == contains_spec(
                hover_target(old(self).group_spec(), old(cx).groups_view(), bounds),
                old(cx).mouse_position_spec(),
            ),
            old(self).hover_slot().spec_index() < old(self).cascade_view().len() ==> final(self).cascade_view()[old(self).hover_slot().spec_index() as int]
                == hover_slot_value(
                contains_spec(
                    hover_target(old(self).group_spec(), old(cx).groups_view(), bounds),
                    old(cx).mouse_position_spec(),
                ),
                old(self).hover_style_view(),
            ),
    {
        let Div(h) = self;
        h.paint(bounds, element_state, cx)
    }
}

/// Hover lags one frame: a pointer move compares its containment with the flag written at the
/// last paint, which is the containment of the pointer as it stood then, and asks for a
/// redraw exactly when the two differ; the flag itself changes only at the next paint.
pub proof fn lemma_hover_lags_one_frame(
    target: Bounds,
    flag: HoverFlag,
    flags: Seq<bool>,
    painted_at: Point,
    moved_to: Point,
)
    requires
        flag.spec_index() < flags.len(),
        flags[flag.spec_index() as int] == contains_spec(target, painted_at),
    ensures
        hover_changes(MouseListener::HoverMove { target, flag }, flags, moved_to) == (contains_spec(
            target,
            moved_to,
        ) != contains_spec(target, painted_at)),
{
}

} // verus!
