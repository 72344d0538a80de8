use vstd::prelude::*;

verus! {

/// The properties a style carries; each names one field of `Style` and of `StyleRefinement`.
pub enum StyleProperty {
    Background,
    BorderColor,
    BorderWidth,
    CornerRadius,
}

/// A fully resolved style: every property has a value.
#[derive(Clone, Copy, Debug, PartialEq, Eq, Structural)]
pub struct Style {
    pub background: u32,
    pub border_color: u32,
    pub border_width: u32,
    pub corner_radius: u32,
}

/// A partial style: the properties that are `Some` override those they are applied onto.
#[derive(Clone, Copy, Debug, PartialEq, Eq, Structural)]
pub struct StyleRefinement {
    pub background: Option<u32>,
    pub border_color: Option<u32>,
    pub border_width: Option<u32>,
    pub corner_radius: Option<u32>,
}

/// The value a refinement gives to one property, if any.
pub open spec fn refinement_field(r: StyleRefinement, p: StyleProperty) -> Option<u32> {
    match p {
        StyleProperty::Background => r.background,
        StyleProperty::BorderColor => r.border_color,
        StyleProperty::BorderWidth => r.border_width,
        StyleProperty::CornerRadius => r.corner_radius,
    }
}

/// The value of one property of a resolved style.
pub open spec fn style_field(s: Style, p: StyleProperty) -> u32 {
    match p {
        StyleProperty::Background => s.background,
        StyleProperty::BorderColor => s.border_color,
        StyleProperty::BorderWidth => s.border_width,
        StyleProperty::CornerRadius => s.corner_radius,
    }
}

pub open spec fn override_opt(base: Option<u32>, over: Option<u32>) -> Option<u32> {
    if over is Some {
        over
    } else {
        base
    }
}

/// `over` applied onto `base`: each property set in `over` wins.
pub open spec fn refine_spec(base: StyleRefinement, over: StyleRefinement) -> StyleRefinement {
    StyleRefinement {
        background: override_opt(base.background, over.background),
        border_color: override_opt(base.border_color, over.border_color),
        border_width: override_opt(base.border_width, over.border_width),
        corner_radius: override_opt(base.corner_radius, over.corner_radius),
    }
}

pub open spec fn empty_refinement() -> StyleRefinement {
    StyleRefinement { background: None, border_color: None, border_width: None, corner_radius: None }
}

pub open spec fn default_style() -> Style {
    Style { background: 0, border_color: 0, border_width: 0, corner_radius: 0 }
}

pub open spec fn value_or(o: Option<u32>, d: u32) -> u32 {
    match o {
        Some(v) => v,
        None => d,
    }
}

/// A refinement applied onto a resolved style.
pub open spec fn refined_spec(s: Style, r: StyleRefinement) -> Style {
    Style {
        background: value_or(r.background, s.background),
        border_color: value_or(r.border_color, s.border_color),
        border_width: value_or(r.border_width, s.border_width),
        corner_radius: value_or(r.corner_radius, s.corner_radius),
    }
}

fn override_exec(base: Option<u32>, over: Option<u32>) -> (r: Option<u32>)
    ensures
        r == override_opt(base, over),
{
    match over {
        Some(v) => Some(v),
        None => base,
    }
}

fn value_or_exec(o: Option<u32>, d: u32) -> (r: u32)
    ensures
        r == value_or(o, d),
{
    match o {
        Some(v) => v,
        None => d,
    }
}

impl Style {
    /// The base style every cascade resolves onto: all properties zero.
    pub fn new() -> (r: Style)
        ensures
            r == default_style(),
    {
        Style { background: 0, border_color: 0, border_width: 0, corner_radius: 0 }
    }

    /// This style with the properties that `r` sets replaced.
    pub fn refined(self, r: StyleRefinement) -> (out: Style)
        ensures
            out == refined_spec(self, r),
    {
        Style {
            background: value_or_exec(r.background, self.background),
            border_color: value_or_exec(r.border_color, self.border_color),
            border_width: value_or_exec(r.border_width, self.border_width),
            corner_radius: value_or_exec(r.corner_radius, self.corner_radius),
        }
    }
}

impl StyleRefinement {
    /// A refinement that sets nothing.
    pub fn new() -> (r: StyleRefinement)
        ensures
            r == empty_refinement(),
    {
        StyleRefinement { background: None, border_color: None, border_width: None, corner_radius: None }
    }

    /// Whether this refinement sets any property.
    pub fn is_some(&self) -> (r: bool)
        ensures
            r == (*self != empty_refinement()),
    {
        self.background.is_some() || self.border_color.is_some() || self.border_width.is_some()
            || self.corner_radius.is_some()
    }

    /// Applies `other` onto this refinement: what `other` sets wins.
    pub fn refine(&mut self, other: &StyleRefinement)
        ensures
            *final(self) == refine_spec(*old(self), *other),
    {
        self.background = override_exec(self.background, other.background);
        self.border_color = override_exec(self.border_color, other.border_color);
        self.border_width = override_exec(self.border_width, other.border_width);
        self.corner_radius = override_exec(self.corner_radius, other.corner_radius);
    }

    pub fn background(self, v: u32) -> (r: StyleRefinement)
        ensures
            r == (StyleRefinement { background: Some(v), ..self }),
    {
        StyleRefinement { background: Some(v), ..self }
    }

    pub fn border_color(self, v: u32) -> (r: StyleRefinement)
        ensures
            r == (StyleRefinement { border_color: Some(v), ..self }),
    {
        StyleRefinement { border_color: Some(v), ..self }
    }

    pub fn border_width(self, v: u32) -> (r: StyleRefinement)
        ensures
            r == (StyleRefinement { border_width: Some(v), ..self }),
    {
        StyleRefinement { border_width: Some(v), ..self }
    }

    pub fn corner_radius(self, v: u32) -> (r: StyleRefinement)
        ensures
            r == (StyleRefinement { corner_radius: Some(v), ..self }),
    {
        StyleRefinement { corner_radius: Some(v), ..self }
    }
}

} // verus!
