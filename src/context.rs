use vstd::prelude::*;

use crate::event::{MouseClickEvent, MouseDownEvent, MouseMoveEvent, MouseUpEvent};
use crate::geometry::{contains_spec, Bounds, Point};
use crate::style::Style;

verus! {

/// A stable identity for an element whose state persists across frames.
#[derive(Clone, Copy, Debug, PartialEq, Eq, Structural)]
pub struct ElementId {
    pub value: u64,
}

/// Names a click listener that its owner registered; dispatch reports which ones to call.
#[derive(Clone, Copy, Debug, PartialEq, Eq, Structural)]
pub struct ListenerId {
    pub value: u64,
}

/// A box registered with the layout engine during the current frame.
#[derive(Clone, Copy, Debug, PartialEq, Eq, Structural)]
pub struct LayoutId {
    index: usize,
}

/// A shared hover flag: written at paint, read by listeners of the same element.
#[derive(Clone, Copy, Debug, PartialEq, Eq, Structural)]
pub struct HoverFlag {
    index: usize,
}

/// A shared, optional captured press of one clickable element.
#[derive(Clone, Copy, Debug, PartialEq, Eq, Structural)]
pub struct MouseDownRecord {
    index: usize,
}

impl LayoutId {
    pub closed spec fn spec_index(self) -> nat {
        self.index as nat
    }

    pub fn index(&self) -> (r: usize)
        ensures
            r as nat == self.spec_index(),
    {
        self.index
    }
}

impl HoverFlag {
    pub closed spec fn spec_index(self) -> nat {
        self.index as nat
    }
}

impl MouseDownRecord {
    pub closed spec fn spec_index(self) -> nat {
        self.index as nat
    }
}

/// A box's style and its children's boxes, in order, as handed to the layout engine.
#[derive(Debug)]
pub struct LayoutRequest {
    pub style: Style,
    pub children: Vec<LayoutId>,
}

/// A pointer listener registered during paint for the current frame.
#[derive(Debug)]
pub enum MouseListener {
    /// Capture phase, pointer moves: asks for a redraw when containment in `target`
    /// differs from the flag.
    HoverMove { target: Bounds, flag: HoverFlag },
    /// Bubble phase, presses: a press inside `bounds` is stored in `record`.
    Press { bounds: Bounds, record: MouseDownRecord },
    /// Bubble phase, releases: a release inside `bounds` completes a click with `down`
    /// for each of `listeners`; any release clears `record`.
    Release {
        bounds: Bounds,
        record: MouseDownRecord,
        down: MouseDownEvent,
        listeners: Vec<ListenerId>,
    },
}

/// The per-window state that elements lay out, paint and register listeners against,
/// and that pointer events are dispatched through.
pub struct ViewContext {
    mouse_position: Point,
    groups: Vec<(String, Bounds)>,
    layouts: Vec<LayoutRequest>,
    solved: Vec<Option<Bounds>>,
    listeners: Vec<MouseListener>,
    quads: Vec<(Bounds, Style)>,
    hover_flags: Vec<bool>,
    records: Vec<Option<MouseDownEvent>>,
    notified: bool,
}

/// The press stored in `rec`; empty for a record out of range.
pub open spec fn record_at(records: Seq<Option<MouseDownEvent>>, rec: MouseDownRecord) -> Option<
    MouseDownEvent,
> {
    if rec.spec_index() < records.len() {
        records[rec.spec_index() as int]
    } else {
        None
    }
}

/// Whether a move to `pos` makes this listener ask for a redraw.
pub open spec fn hover_changes(l: MouseListener, flags: Seq<bool>, pos: Point) -> bool {
    match l {
        MouseListener::HoverMove { target, flag } => flag.spec_index() < flags.len()
            && contains_spec(target, pos) != flags[flag.spec_index() as int],
        _ => false,
    }
}

/// Whether this listener stores a press at `pos` into `r`.
pub open spec fn press_stores(l: MouseListener, r: nat, pos: Point) -> bool {
    match l {
        MouseListener::Press { bounds, record } => record.spec_index() == r && contains_spec(
            bounds,
            pos,
        ),
        _ => false,
    }
}

pub open spec fn press_hits(l: MouseListener, pos: Point) -> bool {
    match l {
        MouseListener::Press { bounds, .. } => contains_spec(bounds, pos),
        _ => false,
    }
}

/// Whether this listener clears `r` on any release.
pub open spec fn release_clears(l: MouseListener, r: nat) -> bool {
    match l {
        MouseListener::Release { record, .. } => record.spec_index() == r,
        _ => false,
    }
}

/// The calls one listener asks for on a release: each click listener, in order, with the
/// stored press and this release, when the release is inside its bounds and its record still
/// holds a press.
pub open spec fn release_calls_of(
    l: MouseListener,
    up: MouseUpEvent,
    records: Seq<Option<MouseDownEvent>>,
) -> Seq<(ListenerId, MouseClickEvent)> {
    match l {
        MouseListener::Release { bounds, record, down, listeners } => if contains_spec(
            bounds,
            up.position,
        ) && record_at(records, record) is Some {
            listeners@.map_values(|id: ListenerId| (id, MouseClickEvent { down, up }))
        } else {
            Seq::empty()
        },
        _ => Seq::empty(),
    }
}

/// The calls a release asks for, bubbling from the last registered listener to the first.
pub open spec fn release_calls(
    ls: Seq<MouseListener>,
    up: MouseUpEvent,
    records: Seq<Option<MouseDownEvent>>,
) -> Seq<(ListenerId, MouseClickEvent)>
    decreases ls.len(),
{
    if ls.len() == 0 {
        Seq::empty()
    } else {
        release_calls(ls.drop_first(), up, records) + release_calls_of(ls[0], up, records)
    }
}

/// The most recently registered bounds of a named group.
pub open spec fn find_group(groups: Seq<(String, Bounds)>, name: Seq<char>) -> Option<Bounds>
    decreases groups.len(),
{
    if groups.len() == 0 {
        None
    } else if groups.last().0@ == name {
        Some(groups.last().1)
    } else {
        find_group(groups.drop_last(), name)
    }
}

impl ViewContext {
    pub closed spec fn wf(&self) -> bool {
        self.solved@.len() == self.layouts@.len()
    }

    pub closed spec fn mouse_position_spec(&self) -> Point {
        self.mouse_position
    }

    pub closed spec fn groups_view(&self) -> Seq<(String, Bounds)> {
        self.groups@
    }

    pub closed spec fn layouts_view(&self) -> Seq<LayoutRequest> {
        self.layouts@
    }

    pub closed spec fn solved_view(&self) -> Seq<Option<Bounds>> {
        self.solved@
    }

    pub closed spec fn listeners_view(&self) -> Seq<MouseListener> {
        self.listeners@
    }

    /// What was painted this frame: each box with the style it was painted in.
    pub closed spec fn quads_view(&self) -> Seq<(Bounds, Style)> {
        self.quads@
    }

    pub closed spec fn flags_view(&self) -> Seq<bool> {
        self.hover_flags@
    }

    pub closed spec fn records_view(&self) -> Seq<Option<MouseDownEvent>> {
        self.records@
    }

    pub closed spec fn notified_spec(&self) -> bool {
        self.notified
    }

    /// What every layout and paint pass leaves alone: the pointer, the groups, the shared
    /// cells' values, and everything registered before it (it may only append).
    pub open spec fn extends(&self, prev: &ViewContext) -> bool {
        &&& self.wf()
        &&& self.mouse_position_spec() == prev.mouse_position_spec()
        &&& self.groups_view() == prev.groups_view()
        &&& self.records_view().len() >= prev.records_view().len()
        &&& self.flags_view().len() >= prev.flags_view().len()
        &&& forall|i: int|
            0 <= i < prev.records_view().len() ==> #[trigger] self.records_view()[i]
                == prev.records_view()[i]
        &&& prev.layouts_view().len() <= self.layouts_view().len()
        &&& prev.solved_view().len() <= self.solved_view().len()
        &&& forall|i: int|
            0 <= i < prev.solved_view().len() ==> #[trigger] self.solved_view()[i]
                == prev.solved_view()[i]
        &&& prev.listeners_view().len() <= self.listeners_view().len()
        &&& prev.quads_view().len() <= self.quads_view().len()
        &&& forall|i: int|
            0 <= i < prev.listeners_view().len() ==> #[trigger] self.listeners_view()[i]
                == prev.listeners_view()[i]
        &&& forall|i: int|
            0 <= i < prev.quads_view().len() ==> #[trigger] self.quads_view()[i]
                == prev.quads_view()[i]
    }

    /// A context with nothing registered, the pointer at `mouse_position`.
    pub fn new(mouse_position: Point) -> (r: ViewContext)
        ensures
            r.wf(),
            r.mouse_position_spec() == mouse_position,
            r.groups_view().len() == 0,
            r.layouts_view().len() == 0,
            r.listeners_view().len() == 0,
            r.flags_view().len() == 0,
            r.records_view().len() == 0,
            !r.notified_spec(),
    {
        ViewContext {
            mouse_position,
            groups: Vec::new(),
            layouts: Vec::new(),
            solved: Vec::new(),
            listeners: Vec::new(),
            quads: Vec::new(),
            hover_flags: Vec::new(),
            records: Vec::new(),
            notified: false,
        }
    }

    /// Starts a frame: drops the previous frame's layout boxes, listeners and redraw
    /// request; keeps the shared cells and the groups.
    pub fn begin_frame(&mut self)
        ensures
            final(self).wf(),
            final(self).mouse_position_spec() == old(self).mouse_position_spec(),
            final(self).groups_view() == old(self).groups_view(),
            final(self).layouts_view().len() == 0,
            final(self).listeners_view().len() == 0,
            final(self).quads_view().len() == 0,
            final(self).flags_view() == old(self).flags_view(),
            final(self).records_view() == old(self).records_view(),
            !final(self).notified_spec(),
    {
        self.layouts = Vec::new();
        self.solved = Vec::new();
        self.listeners = Vec::new();
        self.quads = Vec::new();
        self.notified = false;
    }

    pub fn mouse_position(&self) -> (r: Point)
        ensures
            r == self.mouse_position_spec(),
    {
        self.mouse_position
    }

    /// Registers (or re-registers) the bounds of a named group.
    pub fn set_group_bounds(&mut self, name: String, bounds: Bounds)
        requires
            old(self).wf(),
        ensures
            final(self).wf(),
            final(self).groups_view() == old(self).groups_view().push((name, bounds)),
            final(self).mouse_position_spec() == old(self).mouse_position_spec(),
            final(self).layouts_view() == old(self).layouts_view(),
            final(self).listeners_view() == old(self).listeners_view(),
            final(self).flags_view() == old(self).flags_view(),
            final(self).records_view() == old(self).records_view(),
            final(self).notified_spec() == old(self).notified_spec(),
            final(self).quads_view() == old(self).quads_view(),
    {
        self.groups.push((name, bounds));
    }

    /// The bounds last registered under `name`, if any.
    pub fn group_bounds(&self, name: &String) -> (r: Option<Bounds>)
        ensures
            r == find_group(self.groups_view(), name@),
    {
        let mut i: usize = self.groups.len();
        assert(self.groups@.take(i as int) == self.groups@);
        while i > 0
            invariant
                i <= self.groups@.len(),
                find_group(self.groups@, name@) == find_group(self.groups@.take(i as int), name@),
            decreases i,
        {
            let k = i - 1;
            assert(self.groups@.take(i as int).drop_last() == self.groups@.take(k as int));
            if self.groups[k].0 == *name {
                return Some(self.groups[k].1);
            }
            i = k;
        }
        None
    }

    /// Registers a box with the layout engine.
    pub fn request_layout(&mut self, style: Style, children: Vec<LayoutId>) -> (id: LayoutId)
        requires
            old(self).wf(),
        ensures
            final(self).extends(old(self)),
            id.spec_index() == old(self).layouts_view().len(),
            final(self).layouts_view() == old(self).layouts_view().push(
                LayoutRequest { style, children },
            ),
            final(self).listeners_view() == old(self).listeners_view(),
            final(self).flags_view() == old(self).flags_view(),
            final(self).notified_spec() == old(self).notified_spec(),
            final(self).quads_view() == old(self).quads_view(),
    {
        let index = self.layouts.len();
        self.layouts.push(LayoutRequest { style, children });
        self.solved.push(None);
        LayoutId { index }
    }

    /// The style handed over with box `id`.
    pub fn layout_style(&self, id: LayoutId) -> (r: Style)
        requires
            id.spec_index() < self.layouts_view().len(),
        ensures
            r == self.layouts_view()[id.spec_index() as int].style,
    {
        self.layouts[id.index].style
    }

    /// The children handed over with box `id`.
    pub fn layout_children(&self, id: LayoutId) -> (r: Vec<LayoutId>)
        requires
            id.spec_index() < self.layouts_view().len(),
        ensures
            r@ == self.layouts_view()[id.spec_index() as int].children@,
    {
        self.layouts[id.index].children.clone()
    }

    /// Records the bounds that the layout engine solved for box `id`.
    pub fn set_layout_bounds(&mut self, id: LayoutId, bounds: Bounds)
        requires
            old(self).wf(),
            id.spec_index() < old(self).layouts_view().len(),
        ensures
            final(self).wf(),
            final(self).solved_view() == old(self).solved_view().update(
                id.spec_index() as int,
                Some(bounds),
            ),
            final(self).mouse_position_spec() == old(self).mouse_position_spec(),
            final(self).groups_view() == old(self).groups_view(),
            final(self).layouts_view() == old(self).layouts_view(),
            final(self).listeners_view() == old(self).listeners_view(),
            final(self).flags_view() == old(self).flags_view(),
            final(self).records_view() == old(self).records_view(),
            final(self).notified_spec() == old(self).notified_spec(),
            final(self).quads_view() == old(self).quads_view(),
    {
        self.solved.set(id.index, Some(bounds));
    }

    /// The solved bounds of box `id`, if the layout engine has given them.
    pub fn layout_bounds(&self, id: LayoutId) -> (r: Option<Bounds>)
        requires
            self.wf(),
        ensures
            r == (if id.spec_index() < self.solved_view().len() {
                self.solved_view()[id.spec_index() as int]
            } else {
                None
            }),
    {
        if id.index < self.solved.len() {
            self.solved[id.index]
        } else {
            None
        }
    }

    /// Asks for another frame.
    pub fn notify(&mut self)
        requires
            old(self).wf(),
        ensures
            final(self).notified_spec(),
            final(self).extends(old(self)),
            final(self).layouts_view() == old(self).layouts_view(),
            final(self).listeners_view() == old(self).listeners_view(),
            final(self).flags_view() == old(self).flags_view(),
            final(self).records_view() == old(self).records_view(),
            final(self).quads_view() == old(self).quads_view(),
    {
        self.notified = true;
    }

    /// Paints a box in a style.
    pub fn paint_quad(&mut self, bounds: Bounds, style: Style)
        requires
            old(self).wf(),
        ensures
            final(self).extends(old(self)),
            final(self).quads_view() == old(self).quads_view().push((bounds, style)),
            final(self).layouts_view() == old(self).layouts_view(),
            final(self).listeners_view() == old(self).listeners_view(),
            final(self).flags_view() == old(self).flags_view(),
            final(self).records_view() == old(self).records_view(),
            final(self).notified_spec() == old(self).notified_spec(),
    {
        self.quads.push((bounds, style));
    }

    /// Whether a redraw was asked for since the frame began.
    pub fn notified(&self) -> (r: bool)
        ensures
            r == self.notified_spec(),
    {
        self.notified
    }

    /// Registers a pointer listener for the current frame.
    pub fn on_mouse_event(&mut self, listener: MouseListener)
        requires
            old(self).wf(),
        ensures
            final(self).extends(old(self)),
            final(self).listeners_view() == old(self).listeners_view().push(listener),
            final(self).layouts_view() == old(self).layouts_view(),
            final(self).flags_view() == old(self).flags_view(),
            final(self).records_view() == old(self).records_view(),
            final(self).notified_spec() == old(self).notified_spec(),
            final(self).quads_view() == old(self).quads_view(),
    {
        self.listeners.push(listener);
    }

    /// A new hover flag, initially not hovered.
    pub fn new_hover_flag(&mut self) -> (f: HoverFlag)
        requires
            old(self).wf(),
        ensures
            final(self).extends(old(self)),
            f.spec_index() == old(self).flags_view().len(),
            final(self).flags_view() == old(self).flags_view().push(false),
            final(self).layouts_view() == old(self).layouts_view(),
            final(self).listeners_view() == old(self).listeners_view(),
            final(self).records_view() == old(self).records_view(),
            final(self).notified_spec() == old(self).notified_spec(),
            final(self).quads_view() == old(self).quads_view(),
    {
        let index = self.hover_flags.len();
        self.hover_flags.push(false);
        HoverFlag { index }
    }

    /// Stores the hover state of `f`.
    pub fn set_hover_flag(&mut self, f: HoverFlag, hovered: bool)
        requires
            old(self).wf(),
        ensures
            final(self).extends(old(self)),
            final(self).flags_view() == if f.spec_index() < old(self).flags_view().len() {
                old(self).flags_view().update(f.spec_index() as int, hovered)
            } else {
                old(self).flags_view()
            },
            final(self).layouts_view() == old(self).layouts_view(),
            final(self).listeners_view() == old(self).listeners_view(),
            final(self).records_view() == old(self).records_view(),
            final(self).notified_spec() == old(self).notified_spec(),
            final(self).quads_view() == old(self).quads_view(),
    {
        if f.index < self.hover_flags.len() {
            self.hover_flags.set(f.index, hovered);
        }
    }

    /// The stored hover state of `f`; a flag this context did not hand out reads as false.
    pub fn hover_flag(&self, f: HoverFlag) -> (r: bool)
        ensures
            r == (f.spec_index() < self.flags_view().len() && self.flags_view()[f.spec_index() as int]),
    {
        f.index < self.hover_flags.len() && self.hover_flags[f.index]
    }

    /// A new mouse-down record, initially empty.
    pub fn new_mouse_down_record(&mut self) -> (rec: MouseDownRecord)
        requires
            old(self).wf(),
        ensures
            final(self).extends(old(self)),
            rec.spec_index() == old(self).records_view().len(),
            final(self).records_view() == old(self).records_view().push(None),
            final(self).layouts_view() == old(self).layouts_view(),
            final(self).listeners_view() == old(self).listeners_view(),
            final(self).flags_view() == old(self).flags_view(),
            final(self).notified_spec() == old(self).notified_spec(),
            final(self).quads_view() == old(self).quads_view(),
    {
        let index = self.records.len();
        self.records.push(None);
        MouseDownRecord { index }
    }

    /// The press stored in `rec`, if any; a record this context did not hand out is empty.
    pub fn mouse_down(&self, rec: MouseDownRecord) -> (r: Option<MouseDownEvent>)
        ensures
            r == record_at(self.records_view(), rec),
    {
        if rec.index < self.records.len() {
            self.records[rec.index]
        } else {
            None
        }
    }
}


impl ViewContext {
    /// Dispatches a pointer move. Capture-phase hover listeners compare containment with
    /// their flag and ask for a redraw on a difference; no flag is written here.
    pub fn dispatch_mouse_move(&mut self, event: &MouseMoveEvent)
        requires
            old(self).wf(),
        ensures
            final(self).wf(),
            final(self).mouse_position_spec() == event.position,
            final(self).notified_spec() == (old(self).notified_spec() || exists|i: int|
                0 <= i < old(self).listeners_view().len() && hover_changes(
                    #[trigger] old(self).listeners_view()[i],
                    old(self).flags_view(),
                    event.position,
                )),
            final(self).flags_view() == old(self).flags_view(),
            final(self).records_view() == old(self).records_view(),
            final(self).listeners_view() == old(self).listeners_view(),
            final(self).layouts_view() == old(self).layouts_view(),
            final(self).groups_view() == old(self).groups_view(),
            final(self).quads_view() == old(self).quads_view(),
    {
        self.mouse_position = event.position;
        let mut i: usize = 0;
        while i < self.listeners.len()
            invariant
                self.wf(),
                i <= self.listeners@.len(),
                self.mouse_position == event.position,
                self.listeners@ == old(self).listeners@,
                self.hover_flags@ == old(self).hover_flags@,
                self.records@ == old(self).records@,
                self.layouts@ == old(self).layouts@,
                self.solved@ == old(self).solved@,
                self.quads@ == old(self).quads@,
                self.groups@ == old(self).groups@,
                self.notified == (old(self).notified || exists|k: int|
                    0 <= k < i && hover_changes(
                        #[trigger] self.listeners@[k],
                        self.hover_flags@,
                        event.position,
                    )),
            decreases self.listeners@.len() - i,
        {
            let changed = match &self.listeners[i] {
                MouseListener::HoverMove { target, flag } => {
                    flag.index < self.hover_flags.len() && target.contains_point(event.position)
                        != self.hover_flags[flag.index]
                },
                _ => false,
            };
            assert(changed == hover_changes(self.listeners@[i as int], self.hover_flags@, event.position));
            if changed {
                self.notified = true;
            }
            i = i + 1;
        }
        assert(old(self).listeners_view() == self.listeners@);
        assert(old(self).flags_view() == self.hover_flags@);
    }

    /// Dispatches a press. Bubble-phase press listeners, last registered first, store the
    /// press in their record and ask for a redraw when it is inside their bounds.
    pub fn dispatch_mouse_down(&mut self, event: &MouseDownEvent)
        requires
            old(self).wf(),
        ensures
            final(self).wf(),
            final(self).mouse_position_spec() == event.position,
            final(self).records_view().len() == old(self).records_view().len(),
            forall|r: int|
                0 <= r < old(self).records_view().len() ==> #[trigger] final(self).records_view()[r]
                    == if exists|i: int|
                    0 <= i < old(self).listeners_view().len() && press_stores(
                        #[trigger] old(self).listeners_view()[i],
                        r as nat,
                        event.position,
                    ) {
                    Some(*event)
                } else {
                    old(self).records_view()[r]
                },
            final(self).notified_spec() == (old(self).notified_spec() || exists|i: int|
                0 <= i < old(self).listeners_view().len() && press_hits(
                    #[trigger] old(self).listeners_view()[i],
                    event.position,
                )),
            final(self).flags_view() == old(self).flags_view(),
            final(self).listeners_view() == old(self).listeners_view(),
            final(self).layouts_view() == old(self).layouts_view(),
            final(self).groups_view() == old(self).groups_view(),
            final(self).quads_view() == old(self).quads_view(),
    {
        self.mouse_position = event.position;
        let mut j: usize = self.listeners.len();
        while j > 0
            invariant
                self.wf(),
                j <= self.listeners@.len(),
                self.mouse_position == event.position,
                self.listeners@ == old(self).listeners@,
                self.hover_flags@ == old(self).hover_flags@,
                self.records@.len() == old(self).records@.len(),
                self.layouts@ == old(self).layouts@,
                self.solved@ == old(self).solved@,
                self.quads@ == old(self).quads@,
                self.groups@ == old(self).groups@,
                forall|r: int|
                    0 <= r < self.records@.len() ==> #[trigger] self.records@[r] == if exists|i: int|
                        j <= i < self.listeners@.len() && press_stores(
                            #[trigger] self.listeners@[i],
                            r as nat,
                            event.position,
                        ) {
                        Some(*event)
                    } else {
                        old(self).records@[r]
                    },
                self.notified == (old(self).notified || exists|i: int|
                    j <= i < self.listeners@.len() && press_hits(
                        #[trigger] self.listeners@[i],
                        event.position,
                    )),
            decreases j,
        {
            let k = j - 1;
            let hit: Option<usize> = match &self.listeners[k] {
                MouseListener::Press { bounds, record } => {
                    if bounds.contains_point(event.position) {
                        Some(record.index)
                    } else {
                        None
                    }
                },
                _ => None,
            };
            match hit {
                Some(ri) => {
                    if ri < self.records.len() {
                        self.records.set(ri, Some(*event));
                    }
                    self.notified = true;
                    assert(press_stores(self.listeners@[k as int], ri as nat, event.position));
                    assert(press_hits(self.listeners@[k as int], event.position));
                },
                None => {
                    assert(forall|r: nat| !press_stores(self.listeners@[k as int], r, event.position));
                    assert(!press_hits(self.listeners@[k as int], event.position));
                },
            }
            j = k;
        }
        assert(old(self).listeners_view() == self.listeners@);
        assert(old(self).records_view() == old(self).records@);
    }

    /// Dispatches a release. Bubble-phase release listeners, last registered first: one whose
    /// bounds hold the release, and whose record still holds a press, asks for each of its
    /// click listeners, in registration order, to be called with the stored press and this
    /// release; every one clears its record and asks for a redraw. Returns the calls in the
    /// order they are to be made. A release listener exists only from the paint after the
    /// press, so a press and release both dispatched before that paint make no click.
    pub fn dispatch_mouse_up(&mut self, event: &MouseUpEvent) -> (calls: Vec<
        (ListenerId, MouseClickEvent),
    >)
        requires
            old(self).wf(),
        ensures
            final(self).wf(),
            calls@ == release_calls(old(self).listeners_view(), *event, old(self).records_view()),
            final(self).mouse_position_spec() == event.position,
            final(self).records_view().len() == old(self).records_view().len(),
            forall|r: int|
                0 <= r < old(self).records_view().len() ==> #[trigger] final(self).records_view()[r]
                    == if exists|i: int|
                    0 <= i < old(self).listeners_view().len() && release_clears(
                        #[trigger] old(self).listeners_view()[i],
                        r as nat,
                    ) {
                    None
                } else {
                    old(self).records_view()[r]
                },
            final(self).notified_spec() == (old(self).notified_spec() || exists|i: int|
                0 <= i < old(self).listeners_view().len()
                    && #[trigger] old(self).listeners_view()[i] is Release),
            final(self).flags_view() == old(self).flags_view(),
            final(self).listeners_view() == old(self).listeners_view(),
            final(self).layouts_view() == old(self).layouts_view(),
            final(self).groups_view() == old(self).groups_view(),
            final(self).quads_view() == old(self).quads_view(),
    {
        let calls = self.release_calls_now(event);
        self.clear_released_records(event);
        calls
    }

    /// The calls a release asks for, given the records as they stand.
    fn release_calls_now(&self, event: &MouseUpEvent) -> (calls: Vec<(ListenerId, MouseClickEvent)>)
        ensures
            calls@ == release_calls(self.listeners@, *event, self.records@),
    {
        let mut calls: Vec<(ListenerId, MouseClickEvent)> = Vec::new();
        let mut j: usize = self.listeners.len();
        assert(self.listeners@.subrange(j as int, j as int) =~= Seq::<MouseListener>::empty());
        while j > 0
            invariant
                j <= self.listeners@.len(),
                calls@ == release_calls(
                    self.listeners@.subrange(j as int, self.listeners@.len() as int),
                    *event,
                    self.records@,
                ),
            decreases j,
        {
            let k = j - 1;
            let ghost before = calls@;
            let ghost n = self.listeners@.len() as int;
            assert(self.listeners@.subrange(k as int, n).drop_first() =~= self.listeners@.subrange(j as int, n));
            assert(self.listeners@.subrange(k as int, n)[0] == self.listeners@[k as int]);
            match &self.listeners[k] {
                MouseListener::Release { bounds, record, down, listeners } => {
                    let held = record.index < self.records.len() && self.records[record.index].is_some();
                    if bounds.contains_point(event.position) && held {
                        let click = MouseClickEvent { down: *down, up: *event };
                        let mut m: usize = 0;
                        while m < listeners.len()
                            invariant
                                m <= listeners@.len(),
                                calls@ == before + listeners@.take(m as int).map_values(
                                    |id: ListenerId| (id, click),
                                ),
                            decreases listeners@.len() - m,
                        {
                            calls.push((listeners[m], click));
                            assert(listeners@.take(m as int + 1).map_values(|id: ListenerId| (id, click))
                                =~= listeners@.take(m as int).map_values(|id: ListenerId| (id, click)).push((listeners@[m as int], click)));
                            m = m + 1;
                        }
                        assert(listeners@.take(m as int) =~= listeners@);
                    } else {
                        assert(release_calls_of(self.listeners@[k as int], *event, self.records@) =~= Seq::<(ListenerId, MouseClickEvent)>::empty());
                        assert(calls@ =~= before + Seq::<(ListenerId, MouseClickEvent)>::empty());
                    }
                },
                _ => {
                    assert(calls@ =~= before + Seq::<(ListenerId, MouseClickEvent)>::empty());
                },
            }
            j = k;
        }
        assert(self.listeners@.subrange(0, self.listeners@.len() as int) =~= self.listeners@);
        calls
    }

    /// Clears the record of every release listener and asks for a redraw if there is one.
    fn clear_released_records(&mut self, event: &MouseUpEvent)
        requires
            old(self).wf(),
        ensures
            final(self).wf(),
            final(self).mouse_position == event.position,
            final(self).listeners@ == old(self).listeners@,
            final(self).hover_flags@ == old(self).hover_flags@,
            final(self).records@.len() == old(self).records@.len(),
            final(self).layouts@ == old(self).layouts@,
            final(self).solved@ == old(self).solved@,
            final(self).quads@ == old(self).quads@,
            final(self).groups@ == old(self).groups@,
            forall|r: int|
                0 <= r < old(self).records@.len() ==> #[trigger] final(self).records@[r]
                    == if exists|i: int|
                    0 <= i < old(self).listeners@.len() && release_clears(
                        #[trigger] old(self).listeners@[i],
                        r as nat,
                    ) {
                    None
                } else {
                    old(self).records@[r]
                },
            final(self).notified == (old(self).notified || exists|i: int|
                0 <= i < old(self).listeners@.len() && #[trigger] old(self).listeners@[i] is Release),
    {
        self.mouse_position = event.position;
        let mut j: usize = self.listeners.len();
        while j > 0
            invariant
                self.wf(),
                j <= self.listeners@.len(),
                self.mouse_position == event.position,
                self.listeners@ == old(self).listeners@,
                self.hover_flags@ == old(self).hover_flags@,
                self.records@.len() == old(self).records@.len(),
                self.layouts@ == old(self).layouts@,
                self.solved@ == old(self).solved@,
                self.quads@ == old(self).quads@,
                self.groups@ == old(self).groups@,
                forall|r: int|
                    0 <= r < self.records@.len() ==> #[trigger] self.records@[r] == if exists|i: int|
                        j <= i < self.listeners@.len() && release_clears(
                            #[trigger] self.listeners@[i],
                            r as nat,
                        ) {
                        None
                    } else {
                        old(self).records@[r]
                    },
                self.notified == (old(self).notified || exists|i: int|
                    j <= i < self.listeners@.len() && #[trigger] self.listeners@[i] is Release),
            decreases j,
        {
            let k = j - 1;
            let cleared: Option<usize> = match &self.listeners[k] {
                MouseListener::Release { record, .. } => Some(record.index),
                _ => None,
            };
            match cleared {
                Some(ri) => {
                    if ri < self.records.len() {
                        self.records.set(ri, None);
                    }
                    self.notified = true;
                    assert(release_clears(self.listeners@[k as int], ri as nat));
                },
                None => {
                    assert(forall|r: nat| !release_clears(self.listeners@[k as int], r));
                },
            }
            j = k;
        }
    }
}


/// Passes over a context compose: what holds across each holds across both.
pub proof fn lemma_extends_trans(a: &ViewContext, b: &ViewContext, c: &ViewContext)
    requires
        b.extends(a),
        c.extends(b),
    ensures
        c.extends(a),
{
}


/// With a single listener, a release asks for that listener's calls.
pub proof fn lemma_release_calls_single(
    l: MouseListener,
    up: MouseUpEvent,
    records: Seq<Option<MouseDownEvent>>,
)
    ensures
        release_calls(seq![l], up, records) == release_calls_of(l, up, records),
{
    let s = seq![l];
    assert(s.drop_first() =~= Seq::<MouseListener>::empty());
    assert(release_calls(s.drop_first(), up, records) == Seq::<(ListenerId, MouseClickEvent)>::empty());
    assert(release_calls(s, up, records) == release_calls(s.drop_first(), up, records)
        + release_calls_of(s[0], up, records));
    assert(release_calls(s, up, records) =~= release_calls_of(l, up, records));
}

} // verus!
