use smallvec::SmallVec;
use vstd::prelude::*;

use crate::cascade::CascadeSlot;
use crate::context::{
    lemma_extends_trans, lemma_release_calls_single, press_stores, record_at, release_calls, release_clears, ElementId, LayoutId, ListenerId, MouseDownRecord,
    MouseListener, ViewContext,
};
use crate::element::{slots_kept_from, wrapper_bound, Element, Styled};
use crate::event::{MouseClickEvent, MouseDownEvent, MouseUpEvent};
use crate::geometry::{contains_spec, Bounds};
use crate::style::{empty_refinement, refine_spec, Style, StyleRefinement};

verus! {

/// An element that recognises clicks: a press inside its bounds, then a release inside them.
pub trait Clickable: Styled {
    spec fn click_listeners_view(&self) -> Seq<ListenerId>;

    spec fn active_style_view(&self) -> StyleRefinement;

    /// Registers `listener` after those already registered.
    fn on_click(&mut self, listener: ListenerId)
        requires
            old(self).click_listeners_view().len() < usize::MAX,
        ensures
            final(self).click_listeners_view() == old(self).click_listeners_view().push(listener),
            final(self).active_style_view() == old(self).active_style_view(),
            final(self).cascade_view() == old(self).cascade_view(),
            final(self).slot_bound() == old(self).slot_bound(),
    ;

    /// This element with `refinement` applied onto its pressed style.
    fn active(self, refinement: StyleRefinement) -> (r: Self)
        ensures
            r.active_style_view() == refine_spec(self.active_style_view(), refinement),
            r.click_listeners_view() == self.click_listeners_view(),
            r.cascade_view() == self.cascade_view(),
            r.slot_bound() == self.slot_bound(),
    ;
}

/// What a clickable wrapper keeps across frames: its shared mouse-down record, and its
/// child's state.
pub struct ClickableElementState<S> {
    pub mouse_down: MouseDownRecord,
    pub child_state: S,
}

/// Wraps an element with an identity; calls its click listeners on a completed click and
/// shows the pressed style while a press is held.
pub struct ClickableElement<E> {
    id: ElementId,
    child: E,
    listeners: ClickListeners,
    active_style: StyleRefinement,
    cascade_slot: CascadeSlot,
}

/// The click listeners of one element, in registration order, held in a small vector.
#[verifier::external_body]
pub struct ClickListeners {
    ids: SmallVec<[ListenerId; 1]>,
}

/// What a listener list holds, in order.
pub uninterp spec fn listed_ids(l: ClickListeners) -> Seq<ListenerId>;

impl ClickListeners {
    /// Relies on `SmallVec::new`: an empty vector.
    #[verifier::external_body]
    fn new() -> (r: ClickListeners)
        ensures
            listed_ids(r) == Seq::<ListenerId>::empty(),
    {
        ClickListeners { ids: SmallVec::new() }
    }

    /// Relies on `SmallVec::push`: appends one item after the others; it panics only when the
    /// length would overflow.
    #[verifier::external_body]
    fn push(&mut self, id: ListenerId)
        requires
            listed_ids(*old(self)).len() < usize::MAX,
        ensures
            listed_ids(*final(self)) == listed_ids(*old(self)).push(id),
    {
        self.ids.push(id)
    }

    /// Relies on `SmallVec::len`: the number of items held.
    #[verifier::external_body]
    fn len(&self) -> (n: usize)
        ensures
            n == listed_ids(*self).len(),
    {
        self.ids.len()
    }

    /// Relies on `SmallVec`'s indexing: the item at position `i`.
    #[verifier::external_body]
    fn get(&self, i: usize) -> (id: ListenerId)
        requires
            i < listed_ids(*self).len(),
        ensures
            id == listed_ids(*self)[i as int],
    {
        self.ids[i]
    }
}

/// Whether a listener is the release listener of `record`, holding `down` and `ids`.
pub open spec fn is_release_listener(
    l: MouseListener,
    bounds: Bounds,
    record: MouseDownRecord,
    down: MouseDownEvent,
    ids: Seq<ListenerId>,
) -> bool {
    match l {
        MouseListener::Release { bounds: b, record: r, down: d, listeners } => b == bounds && r
            == record && d == down && listeners@ == ids,
        _ => false,
    }
}

fn copy_ids(ids: &ClickListeners) -> (r: Vec<ListenerId>)
    ensures
        r@ == listed_ids(*ids),
{
    let mut r: Vec<ListenerId> = Vec::new();
    let mut i: usize = 0;
    let n = ids.len();
    while i < n
        invariant
            n == listed_ids(*ids).len(),
            i <= n,
            r@ == listed_ids(*ids).take(i as int),
        decreases n - i,
    {
        r.push(ids.get(i));
        assert(listed_ids(*ids).take(i as int + 1) == listed_ids(*ids).take(i as int).push(
            listed_ids(*ids)[i as int],
        ));
        i = i + 1;
    }
    assert(listed_ids(*ids).take(i as int) == listed_ids(*ids));
    r
}

impl<E: Styled> ClickableElement<E> {
    pub closed spec fn slot_spec(&self) -> CascadeSlot {
        self.cascade_slot
    }

    pub closed spec fn id_spec(&self) -> ElementId {
        self.id
    }

    pub closed spec fn child_bound(&self) -> nat {
        self.child.slot_bound()
    }

    /// The wrapper's slot lies inside the wrapped element's cascade, past every slot the
    /// wrapped element owns.
    pub open spec fn wf(&self) -> bool {
        &&& self.child_bound() <= self.slot_spec().spec_index()
        &&& self.slot_spec().spec_index() < self.cascade_view().len()
    }

    /// Whether painting registers anything: listeners are registered or a pressed style is set.
    pub open spec fn is_interactive(&self) -> bool {
        self.click_listeners_view().len() > 0 || self.active_style_view() != empty_refinement()
    }

    /// Wraps `child` under identity `id`, reserving a slot at the end of its cascade for the
    /// pressed style.
    pub fn new(child: E, id: ElementId) -> (r: Self)
        requires
            child.slot_bound() <= child.cascade_view().len(),
        ensures
            r.wf(),
            r.id_spec() == id,
            r.slot_spec().spec_index() == child.cascade_view().len(),
            r.cascade_view() == child.cascade_view().push(None),
            r.click_listeners_view().len() == 0,
            r.active_style_view() == empty_refinement(),
    {
        let mut child = child;
        let cascade_slot = child.reserve_style_slot();
        ClickableElement {
            id,
            child,
            listeners: ClickListeners::new(),
            active_style: StyleRefinement::new(),
            cascade_slot,
        }
    }

    /// Layout's own part: with a press held in `record`, fills the slot with the pressed style.
    pub fn apply_active(&mut self, record: MouseDownRecord, cx: &ViewContext)
        ensures
            final(self).cascade_view() == if old(self).slot_spec().spec_index() < old(self).cascade_view().len() && record_at(
                cx.records_view(),
                record,
            ) is Some {
                old(self).cascade_view().update(
                    old(self).slot_spec().spec_index() as int,
                    Some(old(self).active_style_view()),
                )
            } else {
                old(self).cascade_view()
            },
            final(self).slot_spec() == old(self).slot_spec(),
            final(self).child_bound() == old(self).child_bound(),
            final(self).id_spec() == old(self).id_spec(),
            final(self).click_listeners_view() == old(self).click_listeners_view(),
            final(self).active_style_view() == old(self).active_style_view(),
    {
        if cx.mouse_down(record).is_some() && self.cascade_slot.index()
            < self.child.style_slot_count() {
            self.child.set_style_slot(self.cascade_slot, Some(self.active_style));
        }
    }

    /// Paint's own part. When the wrapper has listeners or a pressed style: with a press held
    /// in `record`, fills the slot with the pressed style and registers a release listener
    /// carrying that press and the click listeners; otherwise registers a press listener.
    pub fn register_click_listeners(
        &mut self,
        bounds: Bounds,
        record: MouseDownRecord,
        cx: &mut ViewContext,
    )
        requires
            old(cx).wf(),
        ensures
            final(cx).extends(old(cx)),
            final(cx).flags_view() == old(cx).flags_view(),
            final(cx).records_view() == old(cx).records_view(),
            final(cx).layouts_view() == old(cx).layouts_view(),
            final(cx).quads_view() == old(cx).quads_view(),
            final(cx).notified_spec() == old(cx).notified_spec(),
            !old(self).is_interactive() ==> final(cx).listeners_view() == old(
                cx,
            ).listeners_view() && final(self).cascade_view() == old(self).cascade_view(),
            old(self).is_interactive() ==> final(cx).listeners_view().len()
                == old(cx).listeners_view().len() + 1,
            old(self).is_interactive() && record_at(old(cx).records_view(), record) is None
                ==> final(cx).listeners_view().last() == (MouseListener::Press { bounds, record })
                && final(self).cascade_view() == old(self).cascade_view(),
            old(self).is_interactive() && record_at(old(cx).records_view(), record) is Some
                ==> is_release_listener(
                final(cx).listeners_view().last(),
                bounds,
                record,
                record_at(old(cx).records_view(), record)->Some_0,
                old(self).click_listeners_view(),
            ) && final(self).cascade_view() == if old(self).slot_spec().spec_index() < old(self).cascade_view().len() {
                old(self).cascade_view().update(
                    old(self).slot_spec().spec_index() as int,
                    Some(old(self).active_style_view()),
                )
            } else {
                old(self).cascade_view()
            },
            final(self).slot_spec() == old(self).slot_spec(),
            final(self).child_bound() == old(self).child_bound(),
            final(self).id_spec() == old(self).id_spec(),
            final(self).click_listeners_view() == old(self).click_listeners_view(),
            final(self).active_style_view() == old(self).active_style_view(),
    {
        if self.listeners.len() > 0 || self.active_style.is_some() {
            match cx.mouse_down(record) {
                Some(down) => {
                    if self.cascade_slot.index() < self.child.style_slot_count() {
                        self.child.set_style_slot(self.cascade_slot, Some(self.active_style));
                    }
                    let listeners = copy_ids(&self.listeners);
                    cx.on_mouse_event(MouseListener::Release { bounds, record, down, listeners });
                },
                None => {
                    cx.on_mouse_event(MouseListener::Press { bounds, record });
                },
            }
        }
    }
}

impl<E: Styled> Clickable for ClickableElement<E> {
    closed spec fn click_listeners_view(&self) -> Seq<ListenerId> {
        listed_ids(self.listeners)
    }

    closed spec fn active_style_view(&self) -> StyleRefinement {
        self.active_style
    }

    fn on_click(&mut self, listener: ListenerId)
        ensures
            final(self).slot_spec() == old(self).slot_spec(),
            final(self).id_spec() == old(self).id_spec(),
            final(self).child_bound() == old(self).child_bound(),
    {
        self.listeners.push(listener);
    }

    fn active(self, refinement: StyleRefinement) -> (r: Self)
        ensures
            r.slot_spec() == self.slot_spec(),
            r.id_spec() == self.id_spec(),
            r.child_bound() == self.child_bound(),
    {
        let mut style = self.active_style;
        style.refine(&refinement);
        ClickableElement { active_style: style, ..self }
    }
}

impl<E: Styled> Styled for ClickableElement<E> {
    closed spec fn slot_bound(&self) -> nat {
        wrapper_bound(self.child.slot_bound(), self.cascade_slot.spec_index())
    }

    closed spec fn cascade_view(&self) -> Seq<Option<StyleRefinement>> {
        self.child.cascade_view()
    }

    fn reserve_style_slot(&mut self) -> (slot: CascadeSlot) {
        self.child.reserve_style_slot()
    }

    fn set_style_slot(&mut self, slot: CascadeSlot, refinement: Option<StyleRefinement>) {
        self.child.set_style_slot(slot, refinement)
    }

    fn style_slot_count(&self) -> (n: usize) {
        self.child.style_slot_count()
    }

    fn computed_style(&mut self) -> (style: Style) {
        self.child.computed_style()
    }
}

impl<E: Element> Element for ClickableElement<E> {
    type ElementState = ClickableElementState<E::ElementState>;

    closed spec fn id_view(&self) -> Option<ElementId> {
        Some(self.id)
    }

    fn element_id(&self) -> (r: Option<ElementId>)
        ensures
            r == Some(self.id_spec()),
    {
        Some(self.id)
    }

    /// Keeps the record of the last frame, showing the pressed style while it holds a press,
    /// or makes a fresh, empty record; then lays out the wrapped element.
    fn layout(&mut self, element_state: Option<Self::ElementState>, cx: &mut ViewContext) -> (r: (
        LayoutId,
        Self::ElementState,
    ))
        ensures
            final(self).slot_spec() == old(self).slot_spec(),
            final(self).child_bound() == old(self).child_bound(),
            final(self).id_spec() == old(self).id_spec(),
            final(self).click_listeners_view() == old(self).click_listeners_view(),
            final(self).active_style_view() == old(self).active_style_view(),
            old(self).wf() ==> final(self).wf(),
            element_state is Some ==> r.1.mouse_down == element_state->Some_0.mouse_down,
            element_state is Some && old(self).wf() ==> final(self).cascade_view()[old(self).slot_spec().spec_index() as int]
                == if record_at(old(cx).records_view(), element_state->Some_0.mouse_down) is Some {
                Some(old(self).active_style_view())
            } else {
                old(self).cascade_view()[old(self).slot_spec().spec_index() as int]
            },
            element_state is None ==> record_at(final(cx).records_view(), r.1.mouse_down) is None,
            element_state is None && old(self).wf() ==> final(self).cascade_view()[old(self).slot_spec().spec_index() as int]
                == old(self).cascade_view()[old(self).slot_spec().spec_index() as int],
    {
        match element_state {
            Some(state) => {
                self.apply_active(state.mouse_down, cx);
                let (id, child_state) = self.child.layout(Some(state.child_state), cx);
                (id, ClickableElementState { mouse_down: state.mouse_down, child_state })
            },
            None => {
                let ghost cx0 = *cx;
                let (id, child_state) = self.child.layout(None, cx);
                let ghost mid = *cx;
                let mouse_down = cx.new_mouse_down_record();
                proof {
                    lemma_extends_trans(&cx0, &mid, cx);
                }
                (id, ClickableElementState { mouse_down, child_state })
            },
        }
    }

    /// Registers the press or release listener (and fills the pressed-style slot while a
    /// press is held), then paints the wrapped element.
    fn paint(&mut self, bounds: Bounds, element_state: &mut Self::ElementState, cx: &mut ViewContext)
        ensures
            final(self).slot_spec() == old(self).slot_spec(),
            final(self).child_bound() == old(self).child_bound(),
            final(self).id_spec() == old(self).id_spec(),
            final(self).click_listeners_view() == old(self).click_listeners_view(),
            final(self).active_style_view() == old(self).active_style_view(),
            final(element_state).mouse_down == old(element_state).mouse_down,
            old(self).wf() ==> final(self).wf(),
            old(self).is_interactive() ==> final(cx).listeners_view().len() > old(cx).listeners_view().len(),
            old(self).is_interactive() && record_at(old(cx).records_view(), old(element_state).mouse_down) is None
                ==> final(cx).listeners_view()[old(cx).listeners_view().len() as int]
                == (MouseListener::Press { bounds, record: old(element_state).mouse_down }),
            old(self).is_interactive() && record_at(old(cx).records_view(), old(element_state).mouse_down) is Some
                ==> is_release_listener(
                final(cx).listeners_view()[old(cx).listeners_view().len() as int],
                bounds,
                old(element_state).mouse_down,
                record_at(old(cx).records_view(), old(element_state).mouse_down)->Some_0,
                old(self).click_listeners_view(),
            ),
            old(self).wf() ==> final(self).cascade_view()[old(self).slot_spec().spec_index() as int]
                == if old(self).is_interactive() && record_at(old(cx).records_view(), old(element_state).mouse_down) is Some {
                Some(old(self).active_style_view())
            } else {
                old(self).cascade_view()[old(self).slot_spec().spec_index() as int]
            },
    {
        let ghost cx0 = *cx;
        self.register_click_listeners(bounds, element_state.mouse_down, cx);
        let ghost mid = *cx;
        self.child.paint(bounds, &mut element_state.child_state, cx);
        proof {
            lemma_extends_trans(&cx0, &mid, cx);
        }
    }
}

/// A press inside a clickable element's bounds is stored in its record by the press listener;
/// the release listener registered from that record then, on a release inside the bounds
/// while the record holds the press, asks for every click listener exactly once, in
/// registration order, with that press and that release, and clears the record.
pub proof fn lemma_press_then_release_inside(
    bounds: Bounds,
    record: MouseDownRecord,
    down: MouseDownEvent,
    up: MouseUpEvent,
    ids: Seq<ListenerId>,
    release: MouseListener,
    records: Seq<Option<MouseDownEvent>>,
)
    requires
        contains_spec(bounds, down.position),
        contains_spec(bounds, up.position),
        is_release_listener(release, bounds, record, down, ids),
        record_at(records, record) == Some(down),
    ensures
        press_stores(MouseListener::Press { bounds, record }, record.spec_index(), down.position),
        release_calls(seq![release], up, records).len() == ids.len(),
        forall|i: int|
            0 <= i < ids.len() ==> #[trigger] release_calls(seq![release], up, records)[i] == (
                ids[i],
                MouseClickEvent { down, up },
            ),
        release_clears(release, record.spec_index()),
{
    lemma_release_calls_single(release, up, records);
}

/// A release outside the bounds after a press asks for no call and still clears the record.
/// Once the record is empty, no later release asks for a call: neither on the same release
/// listener nor on the press listener that the next paint registers.
pub proof fn lemma_release_outside_cancels(
    bounds: Bounds,
    record: MouseDownRecord,
    down: MouseDownEvent,
    up: MouseUpEvent,
    later_up: MouseUpEvent,
    ids: Seq<ListenerId>,
    release: MouseListener,
    records: Seq<Option<MouseDownEvent>>,
)
    requires
        !contains_spec(bounds, up.position),
        is_release_listener(release, bounds, record, down, ids),
    ensures
        release_calls(seq![release], up, records).len() == 0,
        release_clears(release, record.spec_index()),
        record.spec_index() < records.len() ==> release_calls(
            seq![release],
            later_up,
            records.update(record.spec_index() as int, None),
        ).len() == 0,
        release_calls(seq![MouseListener::Press { bounds, record }], later_up, records).len() == 0,
{
    lemma_release_calls_single(release, up, records);
    lemma_release_calls_single(release, later_up, records.update(record.spec_index() as int, None));
    lemma_release_calls_single(MouseListener::Press { bounds, record }, later_up, records);
}

} // verus!
