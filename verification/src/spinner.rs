//! The loading spinner: its sizes, colour variants and the style text they give.

use vstd::prelude::*;
use crate::text::{push_str, string_from_chars};

verus! {

/// How large a spinner is drawn.
#[derive(Clone, Copy, Debug, PartialEq, Eq, Structural)]
pub enum SpinnerSize {
    Small,
    Medium,
    Large,
    ExtraLarge,
}

/// The colour family of a spinner.
#[derive(Clone, Copy, Debug, PartialEq, Eq, Structural)]
pub enum SpinnerVariant {
    Default,
    Accent,
    Success,
    Warning,
    Danger,
}

/// The width and height classes of a size.
pub open spec fn size_class_of(s: SpinnerSize) -> Seq<char> {
    match s {
        SpinnerSize::Small => "w-4 h-4"@,
        SpinnerSize::Medium => "w-6 h-6"@,
        SpinnerSize::Large => "w-8 h-8"@,
        SpinnerSize::ExtraLarge => "w-12 h-12"@,
    }
}

/// The ring thickness of a size.
pub open spec fn border_width_of(s: SpinnerSize) -> Seq<char> {
    match s {
        SpinnerSize::Small => "2px"@,
        SpinnerSize::Medium => "3px"@,
        SpinnerSize::Large => "4px"@,
        SpinnerSize::ExtraLarge => "5px"@,
    }
}

/// The colour of the moving part of the ring, and of the text.
pub open spec fn color_of(v: SpinnerVariant) -> Seq<char> {
    match v {
        SpinnerVariant::Default => "var(--text-secondary)"@,
        SpinnerVariant::Accent => "var(--accent-primary)"@,
        SpinnerVariant::Success => "var(--accent-secondary)"@,
        SpinnerVariant::Warning => "var(--accent-warning)"@,
        SpinnerVariant::Danger => "var(--accent-danger)"@,
    }
}

/// The faint colour of the rest of the ring.
pub open spec fn border_color_of(v: SpinnerVariant) -> Seq<char> {
    match v {
        SpinnerVariant::Default => "rgba(163, 163, 163, 0.2)"@,
        SpinnerVariant::Accent => "rgba(59, 130, 246, 0.2)"@,
        SpinnerVariant::Success => "rgba(16, 185, 129, 0.2)"@,
        SpinnerVariant::Warning => "rgba(245, 158, 11, 0.2)"@,
        SpinnerVariant::Danger => "rgba(239, 68, 68, 0.2)"@,
    }
}

impl SpinnerSize {
    /// The width and height classes of this size.
    pub fn size_class(&self) -> (r: &'static str)
        ensures
            r@ == size_class_of(*self),
    {
        match self {
            SpinnerSize::Small => "w-4 h-4",
            SpinnerSize::Medium => "w-6 h-6",
            SpinnerSize::Large => "w-8 h-8",
            SpinnerSize::ExtraLarge => "w-12 h-12",
        }
    }

    /// The ring thickness of this size.
    pub fn border_width(&self) -> (r: &'static str)
        ensures
            r@ == border_width_of(*self),
    {
        match self {
            SpinnerSize::Small => "2px",
            SpinnerSize::Medium => "3px",
            SpinnerSize::Large => "4px",
            SpinnerSize::ExtraLarge => "5px",
        }
    }
}

impl SpinnerVariant {
    /// The colour of the moving part of the ring.
    pub fn color(&self) -> (r: &'static str)
        ensures
            r@ == color_of(*self),
    {
        match self {
            SpinnerVariant::Default => "var(--text-secondary)",
            SpinnerVariant::Accent => "var(--accent-primary)",
            SpinnerVariant::Success => "var(--accent-secondary)",
            SpinnerVariant::Warning => "var(--accent-warning)",
            SpinnerVariant::Danger => "var(--accent-danger)",
        }
    }

    /// The faint colour of the rest of the ring.
    pub fn border_color(&self) -> (r: &'static str)
        ensures
            r@ == border_color_of(*self),
    {
        match self {
            SpinnerVariant::Default => "rgba(163, 163, 163, 0.2)",
            SpinnerVariant::Accent => "rgba(59, 130, 246, 0.2)",
            SpinnerVariant::Success => "rgba(16, 185, 129, 0.2)",
            SpinnerVariant::Warning => "rgba(245, 158, 11, 0.2)",
            SpinnerVariant::Danger => "rgba(239, 68, 68, 0.2)",
        }
    }
}

/// The layout classes of the spinner's box: centred with vertical room, or inline.
pub open spec fn container_class_of(centered: bool) -> Seq<char> {
    if centered {
        "flex items-center justify-center gap-3 py-8"@
    } else {
        "flex items-center gap-3"@
    }
}

/// What a spinner is drawn with when the caller leaves a choice open: medium, default
/// colours, not centred.
pub open spec fn spinner_settings(
    size: Option<SpinnerSize>,
    variant: Option<SpinnerVariant>,
    centered: Option<bool>,
) -> (SpinnerSize, SpinnerVariant, bool) {
    (
        match size {
            Some(s) => s,
            None => SpinnerSize::Medium,
        },
        match variant {
            Some(v) => v,
            None => SpinnerVariant::Default,
        },
        match centered {
            Some(c) => c,
            None => false,
        },
    )
}

/// The size, colours and centring a spinner is drawn with.
pub fn resolve_spinner(
    size: Option<SpinnerSize>,
    variant: Option<SpinnerVariant>,
    centered: Option<bool>,
) -> (r: (SpinnerSize, SpinnerVariant, bool))
    ensures
        r == spinner_settings(size, variant, centered),
{
    let s = match size {
        Some(s) => s,
        None => SpinnerSize::Medium,
    };
    let v = match variant {
        Some(v) => v,
        None => SpinnerVariant::Default,
    };
    let c = match centered {
        Some(c) => c,
        None => false,
    };
    (s, v, c)
}

/// The class text of the spinner's box: its layout classes, a space, and the caller's
/// extra classes (nothing when there are none).
pub fn container_class(centered: bool, extra: Option<&str>) -> (r: String)
    ensures
        r@ == container_class_of(centered) + " "@ + match extra {
            Some(e) => e@,
            None => Seq::<char>::empty(),
        },
{
    let mut out: Vec<char> = Vec::new();
    if centered {
        push_str(&mut out, "flex items-center justify-center gap-3 py-8");
    } else {
        push_str(&mut out, "flex items-center gap-3");
    }
    push_str(&mut out, " ");
    match extra {
        Some(e) => push_str(&mut out, e),
        None => {},
    }
    string_from_chars(&out)
}

/// The class text of the ring: the size classes, then the spin animation.
pub fn ring_class(size: SpinnerSize) -> (r: String)
    ensures
        r@ == size_class_of(size) + " rounded-full animate-spin"@,
{
    let mut out: Vec<char> = Vec::new();
    push_str(&mut out, size.size_class());
    push_str(&mut out, " rounded-full animate-spin");
    string_from_chars(&out)
}

/// The inline style of the ring: a border of the size's width in the faint colour, with
/// the top in the variant's colour.
pub fn ring_style(size: SpinnerSize, variant: SpinnerVariant) -> (r: String)
    ensures
        r@ == "border: "@ + border_width_of(size) + " solid "@ + border_color_of(variant)
            + "; border-top-color: "@ + color_of(variant)
            + "; display: block; box-sizing: border-box;"@,
{
    let mut out: Vec<char> = Vec::new();
    push_str(&mut out, "border: ");
    push_str(&mut out, size.border_width());
    push_str(&mut out, " solid ");
    push_str(&mut out, variant.border_color());
    push_str(&mut out, "; border-top-color: ");
    push_str(&mut out, variant.color());
    push_str(&mut out, "; display: block; box-sizing: border-box;");
    string_from_chars(&out)
}

} // verus!
