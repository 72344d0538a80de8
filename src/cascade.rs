use vstd::prelude::*;

use crate::style::{
    empty_refinement, refine_spec, refined_spec, default_style, refinement_field, Style,
    StyleProperty, StyleRefinement,
};

verus! {

/// A stable index into a cascade, reserved once by the wrapper that owns it.
#[derive(Clone, Copy, Debug, PartialEq, Eq, Structural)]
pub struct CascadeSlot {
    index: usize,
}

impl CascadeSlot {
    pub closed spec fn spec_index(self) -> nat {
        self.index as nat
    }

    pub fn index(&self) -> (r: usize)
        ensures
            r as nat == self.spec_index(),
    {
        self.index
    }
}

/// Refinements held in slot order; a slot left `None` contributes nothing.
pub struct StyleCascade {
    slots: Vec<Option<StyleRefinement>>,
}

/// Folds the slots in increasing order: a later slot overrides an earlier one.
pub open spec fn merge_slots(s: Seq<Option<StyleRefinement>>) -> StyleRefinement
    decreases s.len(),
{
    if s.len() == 0 {
        empty_refinement()
    } else {
        let prev = merge_slots(s.drop_last());
        match s.last() {
            Some(r) => refine_spec(prev, r),
            None => prev,
        }
    }
}

/// The style a cascade resolves to: its merged refinement applied onto the default style.
pub open spec fn resolve_slots(s: Seq<Option<StyleRefinement>>) -> Style {
    refined_spec(default_style(), merge_slots(s))
}

/// Whether slot `j` sets property `p`.
pub open spec fn slot_sets(s: Seq<Option<StyleRefinement>>, j: int, p: StyleProperty) -> bool {
    &&& 0 <= j < s.len()
    &&& s[j] is Some
    &&& refinement_field(s[j]->Some_0, p) is Some
}

impl View for StyleCascade {
    type V = Seq<Option<StyleRefinement>>;

    closed spec fn view(&self) -> Seq<Option<StyleRefinement>> {
        self.slots@
    }
}

impl StyleCascade {
    /// A cascade with no slots.
    pub fn new() -> (r: StyleCascade)
        ensures
            r@ == Seq::<Option<StyleRefinement>>::empty(),
    {
        StyleCascade { slots: Vec::new() }
    }

    /// Number of reserved slots.
    pub fn len(&self) -> (r: usize)
        ensures
            r == self@.len(),
    {
        self.slots.len()
    }

    /// Reserves a fresh empty slot after all existing ones.
    pub fn reserve(&mut self) -> (slot: CascadeSlot)
        ensures
            slot.spec_index() == old(self)@.len(),
            final(self)@ == old(self)@.push(None),
    {
        let index = self.slots.len();
        self.slots.push(None);
        CascadeSlot { index }
    }

    /// Stores (`Some`) or clears (`None`) the refinement at `slot`.
    pub fn set(&mut self, slot: CascadeSlot, refinement: Option<StyleRefinement>)
        requires
            slot.spec_index() < old(self)@.len(),
        ensures
            final(self)@ == old(self)@.update(slot.spec_index() as int, refinement),
    {
        self.slots.set(slot.index, refinement);
    }

    /// The refinement at `slot`.
    pub fn get(&self, slot: CascadeSlot) -> (r: Option<StyleRefinement>)
        requires
            slot.spec_index() < self@.len(),
        ensures
            r == self@[slot.spec_index() as int],
    {
        self.slots[slot.index]
    }

    /// All slots folded in slot order into one refinement.
    pub fn merged(&self) -> (r: StyleRefinement)
        ensures
            r == merge_slots(self@),
    {
        let mut acc = StyleRefinement::new();
        let mut i: usize = 0;
        while i < self.slots.len()
            invariant
                i <= self.slots@.len(),
                acc == merge_slots(self.slots@.take(i as int)),
            decreases self.slots@.len() - i,
        {
            assert(self.slots@.take(i as int + 1).drop_last() == self.slots@.take(i as int));
            match self.slots[i] {
                Some(r) => acc.refine(&r),
                None => {},
            }
            i = i + 1;
        }
        assert(self.slots@.take(i as int) == self.slots@);
        acc
    }

    /// The resolved style: the merged refinement applied onto the default style.
    pub fn resolve(&self) -> (r: Style)
        ensures
            r == resolve_slots(self@),
    {
        Style::new().refined(self.merged())
    }
}

/// In the merged refinement a property takes its value from the last slot that sets it,
/// and is unset when no slot sets it.
pub proof fn lemma_last_setting_slot_wins(s: Seq<Option<StyleRefinement>>, p: StyleProperty)
    ensures
        forall|j: int|
            #![trigger slot_sets(s, j, p)]
            slot_sets(s, j, p) && (forall|k: int| j < k < s.len() ==> !slot_sets(s, k, p))
                ==> refinement_field(merge_slots(s), p) == refinement_field(s[j]->Some_0, p),
        (forall|j: int| 0 <= j < s.len() ==> !slot_sets(s, j, p)) ==> refinement_field(
            merge_slots(s),
            p,
        ) is None,
    decreases s.len(),
{
    if s.len() > 0 {
        let t = s.drop_last();
        lemma_last_setting_slot_wins(t, p);
        assert forall|j: int|
            #![trigger slot_sets(s, j, p)]
            slot_sets(s, j, p) && (forall|k: int| j < k < s.len() ==> !slot_sets(s, k, p))
                implies refinement_field(merge_slots(s), p) == refinement_field(
                s[j]->Some_0,
                p,
            ) by {
            if j < s.len() - 1 {
                assert(slot_sets(t, j, p));
                assert forall|k: int| j < k < t.len() implies !slot_sets(t, k, p) by {
                    assert(!slot_sets(s, k, p));
                }
                assert(!slot_sets(s, s.len() - 1, p));
            }
        }
        if forall|j: int| 0 <= j < s.len() ==> !slot_sets(s, j, p) {
            assert forall|j: int| 0 <= j < t.len() implies !slot_sets(t, j, p) by {
                assert(!slot_sets(s, j, p));
            }
            assert(!slot_sets(s, s.len() - 1, p));
        }
    }
}

/// The slots after storing each `(slot, refinement)` of `ops` in turn.
pub open spec fn apply_sets(
    s: Seq<Option<StyleRefinement>>,
    ops: Seq<(nat, Option<StyleRefinement>)>,
) -> Seq<Option<StyleRefinement>>
    decreases ops.len(),
{
    if ops.len() == 0 {
        s
    } else {
        apply_sets(s, ops.drop_last()).update(ops.last().0 as int, ops.last().1)
    }
}

/// After `set` calls on distinct slots, each touched slot holds exactly what was stored in it
/// and every other slot is unchanged, whatever the order of the calls; the merged refinement
/// is the fold of those slots in increasing slot order (a later slot wins on each property).
pub proof fn lemma_sets_on_distinct_slots(
    s: Seq<Option<StyleRefinement>>,
    ops: Seq<(nat, Option<StyleRefinement>)>,
)
    requires
        forall|i: int| 0 <= i < ops.len() ==> ops[i].0 < s.len(),
        forall|i: int, k: int| 0 <= i < k < ops.len() ==> ops[i].0 != ops[k].0,
    ensures
        apply_sets(s, ops).len() == s.len(),
        forall|i: int| 0 <= i < ops.len() ==> apply_sets(s, ops)[ops[i].0 as int] == ops[i].1,
        forall|k: int|
            0 <= k < s.len() && (forall|i: int| 0 <= i < ops.len() ==> ops[i].0 != k)
                ==> apply_sets(s, ops)[k] == s[k],
        forall|p: StyleProperty|
            (forall|j: int| 0 <= j < s.len() ==> !slot_sets(apply_sets(s, ops), j, p))
                ==> refinement_field(merge_slots(apply_sets(s, ops)), p) is None,
    decreases ops.len(),
{
    if ops.len() > 0 {
        let pre = ops.drop_last();
        lemma_sets_on_distinct_slots(s, pre);
        let r = apply_sets(s, ops);
        assert forall|i: int| 0 <= i < ops.len() implies r[ops[i].0 as int] == ops[i].1 by {
            if i < ops.len() - 1 {
                assert(pre[i] == ops[i]);
            }
        }
        assert forall|k: int|
            0 <= k < s.len() && (forall|i: int| 0 <= i < ops.len() ==> ops[i].0 != k)
                implies r[k] == s[k] by {
            assert(ops[ops.len() - 1].0 != k);
            assert forall|i: int| 0 <= i < pre.len() implies pre[i].0 != k by {
                assert(pre[i] == ops[i]);
            }
        }
    }
    assert forall|p: StyleProperty|
        (forall|j: int| 0 <= j < s.len() ==> !slot_sets(apply_sets(s, ops), j, p))
            implies refinement_field(merge_slots(apply_sets(s, ops)), p) is None by {
        lemma_last_setting_slot_wins(apply_sets(s, ops), p);
    }
}

/// Two `set` calls on distinct slots give the same cascade in either order.
pub proof fn lemma_sets_commute(
    s: Seq<Option<StyleRefinement>>,
    a: nat,
    x: Option<StyleRefinement>,
    b: nat,
    y: Option<StyleRefinement>,
)
    requires
        a < s.len(),
        b < s.len(),
        a != b,
    ensures
        s.update(a as int, x).update(b as int, y) == s.update(b as int, y).update(a as int, x),
        merge_slots(s.update(a as int, x).update(b as int, y)) == merge_slots(
            s.update(b as int, y).update(a as int, x),
        ),
{
    assert(s.update(a as int, x).update(b as int, y) =~= s.update(b as int, y).update(a as int, x));
}

} // verus!
