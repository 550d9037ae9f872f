//! The paint command interpreter.
//!
//! A [`GlyphPainter`] consumes a font's color-paint callback stream —
//! transform push/pop, clip push/pop, fill, layer push/pop, driven
//! externally in painter's-algorithm order — and emits nested markup
//! events. Every operation degrades locally on failure: a resolution
//! failure skips the current paint step and interpretation continues.

use vstd::prelude::*;
use crate::color::{Color, ALPHA_ONE, resolve_color_spec, resolve_color, rgb_str, opacity_str,
    rgb_attr_value, opacity_attr_value};
use crate::num::{scalar_digits, scalar_to_dec};
use crate::path::{PathCommand, Builder, finished_path_text, path_text, command_token, render_path_text};
use crate::transform::{Transform, t_wf, compose_spec, invert_spec, identity_spec, matrix_str,
    matrix_attr_value};
use crate::xml::{ElemName, AttrName, XmlEvent, XmlEventV, ev_seq, open_depth, depth_delta,
    lemma_open_depth_add, push_event, grad_id_chars, clip_id_chars, url_ref_chars, grad_id_value,
    clip_id_value, url_ref_value, lemma_grad_id_injective, lemma_grad_ne_clip,
    lemma_clip_id_injective};
use vstd::string::StringExecFns;

verus! {

/// Spread behavior of a gradient past its stop range.
#[derive(Clone, Copy, PartialEq, Eq, Structural, Debug)]
pub enum ExtendMode {
    Pad,
    Repeat,
    Reflect,
    Unknown,
}

/// A compositing mode requested for a layer.
#[derive(Clone, Copy, PartialEq, Eq, Structural, Debug)]
pub enum CompositeMode {
    SrcOver,
    Screen,
    Overlay,
    Darken,
    Lighten,
    ColorDodge,
    ColorBurn,
    HardLight,
    SoftLight,
    Difference,
    Exclusion,
    Multiply,
    HslHue,
    HslSaturation,
    HslColor,
    HslLuminosity,
    Unsupported,
}

/// A non-fatal condition reported while interpreting a paint program.
#[derive(Clone, Copy, PartialEq, Eq, Structural, Debug)]
pub enum Diagnostic {
    UnsupportedSweepGradient,
    UnsupportedBlendMode,
    SingularGradientTransform,
}

/// One gradient stop: fixed-point offset, palette index and alpha factor.
#[derive(Clone, Copy, PartialEq, Eq, Structural, Debug)]
pub struct ColorStop {
    pub offset: i64,
    pub palette_index: u16,
    pub alpha: u16,
}

/// A fill description.
#[derive(Debug)]
pub enum Brush {
    Solid { palette_index: u16, alpha: u16 },
    Linear { x0: i64, y0: i64, x1: i64, y1: i64, stops: Vec<ColorStop>, extend: ExtendMode },
    Radial {
        cx0: i64,
        cy0: i64,
        r0: i64,
        cx1: i64,
        cy1: i64,
        r1: i64,
        stops: Vec<ColorStop>,
        extend: ExtendMode,
    },
    Sweep {
        cx: i64,
        cy: i64,
        start_angle: i64,
        end_angle: i64,
        stops: Vec<ColorStop>,
        extend: ExtendMode,
    },
}

/// Every alpha factor of the brush is a valid factor in `[0, ALPHA_ONE]`.
pub open spec fn brush_wf(b: Brush) -> bool {
    match b {
        Brush::Solid { alpha, .. } => alpha <= ALPHA_ONE,
        Brush::Linear { stops, .. } => forall|i: int|
            0 <= i < stops@.len() ==> (#[trigger] stops@[i]).alpha <= ALPHA_ONE,
        Brush::Radial { stops, .. } => forall|i: int|
            0 <= i < stops@.len() ==> (#[trigger] stops@[i]).alpha <= ALPHA_ONE,
        Brush::Sweep { .. } => true,
    }
}

/// The colors a stop list resolves to, or `None` when any stop fails.
pub open spec fn resolve_stops_spec(
    palette: Option<Seq<Color>>,
    foreground: Color,
    stops: Seq<ColorStop>,
) -> Option<Seq<(i64, Color)>>
    decreases stops.len(),
{
    if stops.len() == 0 {
        Some(Seq::empty())
    } else {
        let s0 = stops.first();
        match resolve_color_spec(palette, foreground, s0.palette_index, s0.alpha) {
            None => None,
            Some(c) => match resolve_stops_spec(palette, foreground, stops.drop_first()) {
                None => None,
                Some(t) => Some(seq![(s0.offset, c)] + t),
            },
        }
    }
}

/// The events one resolved gradient stop emits.
pub open spec fn stop_events(offset: i64, c: Color) -> Seq<XmlEventV> {
    seq![
        XmlEventV::Start(ElemName::Stop),
        XmlEventV::Attr(AttrName::Offset, scalar_digits(offset as int)),
        XmlEventV::Attr(AttrName::StopColor, rgb_str(c)),
        XmlEventV::Attr(AttrName::StopOpacity, opacity_str(c.alpha as nat)),
        XmlEventV::End,
    ]
}

/// The events a resolved stop list emits, in order.
pub open spec fn stops_events(rs: Seq<(i64, Color)>) -> Seq<XmlEventV>
    decreases rs.len(),
{
    if rs.len() == 0 {
        Seq::empty()
    } else {
        stop_events(rs.first().0, rs.first().1) + stops_events(rs.drop_first())
    }
}

/// The spread-method attribute an extend mode emits; the unknown mode
/// emits nothing.
pub open spec fn spread_events(e: ExtendMode) -> Seq<XmlEventV> {
    match e {
        ExtendMode::Pad => seq![XmlEventV::Attr(AttrName::SpreadMethod, "pad"@)],
        ExtendMode::Repeat => seq![XmlEventV::Attr(AttrName::SpreadMethod, "repeat"@)],
        ExtendMode::Reflect => seq![XmlEventV::Attr(AttrName::SpreadMethod, "reflect"@)],
        ExtendMode::Unknown => Seq::empty(),
    }
}

/// The transform attribute `t` emits under `name`; the identity emits
/// nothing.
pub open spec fn transform_attr_events(name: AttrName, t: Transform) -> Seq<XmlEventV> {
    if t == identity_spec() {
        Seq::empty()
    } else {
        seq![XmlEventV::Attr(name, matrix_str(t))]
    }
}

/// The events a solid fill emits: one filled path using the recorded
/// outline.
pub open spec fn solid_events(c: Color, ot: Transform, d: Seq<char>) -> Seq<XmlEventV> {
    seq![
        XmlEventV::Start(ElemName::Path),
        XmlEventV::Attr(AttrName::Fill, rgb_str(c)),
        XmlEventV::Attr(AttrName::FillOpacity, opacity_str(c.alpha as nat)),
    ] + transform_attr_events(AttrName::Transform, ot) + seq![
        XmlEventV::Attr(AttrName::D, d),
        XmlEventV::End,
    ]
}

/// The path element referencing a gradient definition by identifier.
pub open spec fn use_events(gid: Seq<char>, ot: Transform, d: Seq<char>) -> Seq<XmlEventV> {
    seq![
        XmlEventV::Start(ElemName::Path),
        XmlEventV::Attr(AttrName::Fill, url_ref_chars(gid)),
    ] + transform_attr_events(AttrName::Transform, ot) + seq![
        XmlEventV::Attr(AttrName::D, d),
        XmlEventV::End,
    ]
}

/// The opening events of a linear gradient definition.
pub open spec fn linear_head_events(gid: Seq<char>, x0: i64, y0: i64, x1: i64, y1: i64) -> Seq<
    XmlEventV,
> {
    seq![
        XmlEventV::Start(ElemName::LinearGradient),
        XmlEventV::Attr(AttrName::Id, gid),
        XmlEventV::Attr(AttrName::X1, scalar_digits(x0 as int)),
        XmlEventV::Attr(AttrName::Y1, scalar_digits(y0 as int)),
        XmlEventV::Attr(AttrName::X2, scalar_digits(x1 as int)),
        XmlEventV::Attr(AttrName::Y2, scalar_digits(y1 as int)),
        XmlEventV::Attr(AttrName::GradientUnits, "userSpaceOnUse"@),
    ]
}

/// The linear gradient definition events.
pub open spec fn linear_def_events(
    gid: Seq<char>,
    x0: i64,
    y0: i64,
    x1: i64,
    y1: i64,
    extend: ExtendMode,
    gt: Transform,
    rs: Seq<(i64, Color)>,
) -> Seq<XmlEventV> {
    linear_head_events(gid, x0, y0, x1, y1) + spread_events(extend) + transform_attr_events(
        AttrName::GradientTransform,
        gt,
    ) + stops_events(rs) + seq![XmlEventV::End]
}

/// The opening events of a radial gradient definition: the end circle
/// maps to the primary center and radius, the start circle to the focal
/// attributes.
pub open spec fn radial_head_events(
    gid: Seq<char>,
    cx0: i64,
    cy0: i64,
    r0: i64,
    cx1: i64,
    cy1: i64,
    r1: i64,
) -> Seq<XmlEventV> {
    seq![
        XmlEventV::Start(ElemName::RadialGradient),
        XmlEventV::Attr(AttrName::Id, gid),
        XmlEventV::Attr(AttrName::Cx, scalar_digits(cx1 as int)),
        XmlEventV::Attr(AttrName::Cy, scalar_digits(cy1 as int)),
        XmlEventV::Attr(AttrName::R, scalar_digits(r1 as int)),
        XmlEventV::Attr(AttrName::Fr, scalar_digits(r0 as int)),
        XmlEventV::Attr(AttrName::Fx, scalar_digits(cx0 as int)),
        XmlEventV::Attr(AttrName::Fy, scalar_digits(cy0 as int)),
        XmlEventV::Attr(AttrName::GradientUnits, "userSpaceOnUse"@),
    ]
}

/// The radial gradient definition events.
pub open spec fn radial_def_events(
    gid: Seq<char>,
    cx0: i64,
    cy0: i64,
    r0: i64,
    cx1: i64,
    cy1: i64,
    r1: i64,
    extend: ExtendMode,
    gt: Transform,
    rs: Seq<(i64, Color)>,
) -> Seq<XmlEventV> {
    radial_head_events(gid, cx0, cy0, r0, cx1, cy1, r1) + spread_events(extend)
        + transform_attr_events(AttrName::GradientTransform, gt) + stops_events(rs) + seq![
        XmlEventV::End,
    ]
}

/// The gradient-space delta between the outline space and the paint-local
/// space, and whether the outline transform was singular.
pub open spec fn gradient_delta_spec(outline: Transform, paint: Transform) -> (Transform, bool) {
    match invert_spec(outline) {
        Some(inv) => (compose_spec(inv, paint), false),
        None => (paint, true),
    }
}

/// The blend keyword a compositing mode maps to; unknown modes fall back
/// to normal blending.
pub open spec fn blend_keyword(m: CompositeMode) -> Seq<char> {
    match m {
        CompositeMode::SrcOver => "normal"@,
        CompositeMode::Screen => "screen"@,
        CompositeMode::Overlay => "overlay"@,
        CompositeMode::Darken => "darken"@,
        CompositeMode::Lighten => "lighten"@,
        CompositeMode::ColorDodge => "color-dodge"@,
        CompositeMode::ColorBurn => "color-burn"@,
        CompositeMode::HardLight => "hard-light"@,
        CompositeMode::SoftLight => "soft-light"@,
        CompositeMode::Difference => "difference"@,
        CompositeMode::Exclusion => "exclusion"@,
        CompositeMode::Multiply => "multiply"@,
        CompositeMode::HslHue => "hue"@,
        CompositeMode::HslSaturation => "saturation"@,
        CompositeMode::HslColor => "color"@,
        CompositeMode::HslLuminosity => "luminosity"@,
        CompositeMode::Unsupported => "normal"@,
    }
}

/// The style attribute value of a blend-mode layer group.
pub open spec fn style_chars(m: CompositeMode) -> Seq<char> {
    "mix-blend-mode: "@ + blend_keyword(m) + "; isolation: isolate"@
}

/// The events a layer push emits.
pub open spec fn layer_events(m: CompositeMode) -> Seq<XmlEventV> {
    seq![XmlEventV::Start(ElemName::G), XmlEventV::Attr(AttrName::Style, style_chars(m))]
}

/// The rectangular clip path synthesized from a clip box, corners in
/// fixed order.
pub open spec fn box_path_commands(x_min: i64, y_min: i64, x_max: i64, y_max: i64) -> Seq<
    PathCommand,
> {
    seq![
        PathCommand::MoveTo(x_min, y_min),
        PathCommand::LineTo(x_max, y_min),
        PathCommand::LineTo(x_max, y_max),
        PathCommand::LineTo(x_min, y_max),
        PathCommand::Close,
    ]
}

/// The events a clip scope emits: a clip path definition and the opened
/// group clipped to it.
pub open spec fn clip_events(cid: Seq<char>, ot: Transform, d: Seq<char>) -> Seq<XmlEventV> {
    seq![
        XmlEventV::Start(ElemName::ClipPath),
        XmlEventV::Attr(AttrName::Id, cid),
        XmlEventV::Start(ElemName::Path),
    ] + transform_attr_events(AttrName::Transform, ot) + seq![
        XmlEventV::Attr(AttrName::D, d),
        XmlEventV::End,
        XmlEventV::End,
        XmlEventV::Start(ElemName::G),
        XmlEventV::Attr(AttrName::ClipPath, url_ref_chars(cid)),
    ]
}

/// Whether an event is an identifier attribute.
pub open spec fn is_id_attr(e: XmlEventV) -> bool {
    match e {
        XmlEventV::Attr(n, _) => n == AttrName::Id,
        _ => false,
    }
}

/// The value of an identifier attribute.
pub open spec fn id_val(e: XmlEventV) -> Seq<char> {
    match e {
        XmlEventV::Attr(_, v) => v,
        _ => Seq::empty(),
    }
}

/// Number of identifier attributes in an event sequence.
pub open spec fn id_count(s: Seq<XmlEventV>) -> int
    decreases s.len(),
{
    if s.len() == 0 {
        0
    } else {
        id_count(s.drop_last()) + if is_id_attr(s.last()) {
            1int
        } else {
            0int
        }
    }
}

/// Whether `v` is an identifier the counters could already have issued.
pub open spec fn id_valid(v: Seq<char>, gi: int, ci: int) -> bool {
    (exists|k: nat, r: bool| 1 <= k < gi && v == grad_id_chars(k, r)) || (exists|k: nat|
        1 <= k < ci && v == clip_id_chars(k))
}

/// Every identifier in `s` was issued below the given counters.
pub open spec fn id_wf(s: Seq<XmlEventV>, gi: int, ci: int) -> bool {
    forall|i: int|
        0 <= i < s.len() && #[trigger] is_id_attr(s[i]) ==> id_valid(id_val(s[i]), gi, ci)
}

/// No two identifier attributes carry the same value.
pub open spec fn no_dup_ids(s: Seq<XmlEventV>) -> bool {
    forall|i: int, j: int|
        0 <= i < j < s.len() && #[trigger] is_id_attr(s[i]) && #[trigger] is_id_attr(s[j])
            ==> id_val(s[i]) != id_val(s[j])
}

/// Every identifier attribute in `s` carries the value `v`.
pub open spec fn ids_all(s: Seq<XmlEventV>, v: Seq<char>) -> bool {
    forall|i: int| 0 <= i < s.len() && #[trigger] is_id_attr(s[i]) ==> id_val(s[i]) == v
}

/// No identifier attribute occurs in `s`.
pub open spec fn no_ids(s: Seq<XmlEventV>) -> bool {
    forall|i: int| 0 <= i < s.len() ==> !(#[trigger] is_id_attr(s[i]))
}

/// The mathematical state of a paint command interpreter.
#[verifier::ext_equal]
pub struct PainterV {
    pub events: Seq<XmlEventV>,
    pub path_buf: Seq<char>,
    pub gradient_index: int,
    pub clip_path_index: int,
    pub foreground_color: Color,
    pub palette: Option<Seq<Color>>,
    pub transform: Transform,
    pub outline_transform: Transform,
    pub transforms_stack: Seq<Transform>,
    pub diagnostics: Seq<Diagnostic>,
}

/// The paint command interpreter.
pub struct GlyphPainter {
    pub out: Vec<XmlEvent>,
    pub depth: usize,
    pub path_buf: String,
    pub gradient_index: u64,
    pub clip_path_index: u64,
    pub foreground_color: Color,
    pub palette: Option<Vec<Color>>,
    pub transform: Transform,
    pub outline_transform: Transform,
    pub transforms_stack: Vec<Transform>,
    pub diagnostics: Vec<Diagnostic>,
}

impl View for GlyphPainter {
    type V = PainterV;

    open spec fn view(&self) -> PainterV {
        PainterV {
            events: ev_seq(self.out@),
            path_buf: self.path_buf@,
            gradient_index: self.gradient_index as int,
            clip_path_index: self.clip_path_index as int,
            foreground_color: self.foreground_color,
            palette: match self.palette {
                Some(p) => Some(p@),
                None => None,
            },
            transform: self.transform,
            outline_transform: self.outline_transform,
            transforms_stack: self.transforms_stack@,
            diagnostics: self.diagnostics@,
        }
    }
}

/// Pushing the ambient transform and composing the new one in front.
pub open spec fn sp_push_transform(s: PainterV, t: Transform) -> PainterV {
    PainterV {
        transforms_stack: s.transforms_stack.push(s.transform),
        transform: compose_spec(t, s.transform),
        ..s
    }
}

/// Restoring the prior ambient transform; a no-op on an empty stack.
pub open spec fn sp_pop_transform(s: PainterV) -> PainterV {
    if s.transforms_stack.len() > 0 {
        PainterV {
            transform: s.transforms_stack.last(),
            transforms_stack: s.transforms_stack.drop_last(),
            ..s
        }
    } else {
        s
    }
}

/// Closing the most recently opened scope; a no-op at the base depth.
pub open spec fn sp_close_scope(s: PainterV) -> PainterV {
    if open_depth(s.events) > 0 {
        PainterV { events: s.events.push(XmlEventV::End), ..s }
    } else {
        s
    }
}

/// Recording a glyph outline as the clip shape: the recorded path and the
/// ambient transform become the authoritative outline state, and a clip
/// scope opens over them. A missing outline only clears the path buffer.
pub open spec fn sp_push_clip_glyph(s: PainterV, outline: Option<Seq<PathCommand>>) -> PainterV {
    match outline {
        None => PainterV { path_buf: Seq::empty(), ..s },
        Some(cs) => {
            if s.clip_path_index >= u64::MAX as int {
                s
            } else {
                let d = finished_path_text(cs);
                PainterV {
                    path_buf: d,
                    outline_transform: s.transform,
                    events: s.events + clip_events(
                        clip_id_chars(s.clip_path_index as nat),
                        s.transform,
                        d,
                    ),
                    clip_path_index: s.clip_path_index + 1,
                    ..s
                }
            }
        },
    }
}

/// Opening a clip scope over a rectangular clip box.
pub open spec fn sp_push_clip_box(s: PainterV, x_min: i64, y_min: i64, x_max: i64, y_max: i64)
    -> PainterV {
    if s.clip_path_index >= u64::MAX as int {
        s
    } else {
        PainterV {
            events: s.events + clip_events(
                clip_id_chars(s.clip_path_index as nat),
                s.outline_transform,
                finished_path_text(box_path_commands(x_min, y_min, x_max, y_max)),
            ),
            clip_path_index: s.clip_path_index + 1,
            ..s
        }
    }
}

/// A solid fill step: one filled path over the recorded outline; a
/// resolution failure or an empty path buffer skips the step.
pub open spec fn sp_solid(s: PainterV, palette_index: u16, alpha: u16) -> PainterV {
    match resolve_color_spec(s.palette, s.foreground_color, palette_index, alpha) {
        None => s,
        Some(c) => {
            if s.path_buf.len() == 0 {
                s
            } else {
                PainterV {
                    events: s.events + solid_events(c, s.outline_transform, s.path_buf),
                    ..s
                }
            }
        },
    }
}

/// A linear gradient fill step: a definition under a fresh identifier and
/// a path referencing it; failures skip the step.
pub open spec fn sp_linear(
    s: PainterV,
    x0: i64,
    y0: i64,
    x1: i64,
    y1: i64,
    stops: Seq<ColorStop>,
    extend: ExtendMode,
) -> PainterV {
    if s.path_buf.len() == 0 || s.gradient_index >= u64::MAX as int {
        s
    } else {
        match resolve_stops_spec(s.palette, s.foreground_color, stops) {
            None => s,
            Some(rs) => {
                let gid = grad_id_chars(s.gradient_index as nat, false);
                let (gt, singular) = gradient_delta_spec(s.outline_transform, s.transform);
                PainterV {
                    events: s.events + linear_def_events(gid, x0, y0, x1, y1, extend, gt, rs)
                        + use_events(gid, s.outline_transform, s.path_buf),
                    gradient_index: s.gradient_index + 1,
                    diagnostics: if singular {
                        s.diagnostics.push(Diagnostic::SingularGradientTransform)
                    } else {
                        s.diagnostics
                    },
                    ..s
                }
            },
        }
    }
}

/// A radial gradient fill step, analogous to [`sp_linear`].
pub open spec fn sp_radial(
    s: PainterV,
    cx0: i64,
    cy0: i64,
    r0: i64,
    cx1: i64,
    cy1: i64,
    r1: i64,
    stops: Seq<ColorStop>,
    extend: ExtendMode,
) -> PainterV {
    if s.path_buf.len() == 0 || s.gradient_index >= u64::MAX as int {
        s
    } else {
        match resolve_stops_spec(s.palette, s.foreground_color, stops) {
            None => s,
            Some(rs) => {
                let gid = grad_id_chars(s.gradient_index as nat, true);
                let (gt, singular) = gradient_delta_spec(s.outline_transform, s.transform);
                PainterV {
                    events: s.events + radial_def_events(
                        gid,
                        cx0,
                        cy0,
                        r0,
                        cx1,
                        cy1,
                        r1,
                        extend,
                        gt,
                        rs,
                    ) + use_events(gid, s.outline_transform, s.path_buf),
                    gradient_index: s.gradient_index + 1,
                    diagnostics: if singular {
                        s.diagnostics.push(Diagnostic::SingularGradientTransform)
                    } else {
                        s.diagnostics
                    },
                    ..s
                }
            },
        }
    }
}

/// Filling with the given brush. A resolution failure, an empty path
/// buffer or an exhausted identifier namespace skips the step; sweep
/// gradients are unsupported and only report a diagnostic.
pub open spec fn sp_fill(s: PainterV, b: Brush) -> PainterV {
    match b {
        Brush::Solid { palette_index, alpha } => sp_solid(s, palette_index, alpha),
        Brush::Linear { x0, y0, x1, y1, stops, extend } => sp_linear(
            s,
            x0,
            y0,
            x1,
            y1,
            stops@,
            extend,
        ),
        Brush::Radial { cx0, cy0, r0, cx1, cy1, r1, stops, extend } => sp_radial(
            s,
            cx0,
            cy0,
            r0,
            cx1,
            cy1,
            r1,
            stops@,
            extend,
        ),
        Brush::Sweep { .. } => PainterV {
            diagnostics: s.diagnostics.push(Diagnostic::UnsupportedSweepGradient),
            ..s
        },
    }
}

/// Opening a blend-mode layer group; unknown modes fall back to normal
/// blending and report a diagnostic.
pub open spec fn sp_push_layer(s: PainterV, m: CompositeMode) -> PainterV {
    PainterV {
        events: s.events + layer_events(m),
        diagnostics: if m == CompositeMode::Unsupported {
            s.diagnostics.push(Diagnostic::UnsupportedBlendMode)
        } else {
            s.diagnostics
        },
        ..s
    }
}

impl GlyphPainter {
    /// Structural soundness of an interpreter state: the tracked depth
    /// matches the events, transforms are well-formed, and issued
    /// identifiers are bounded by the counters and pairwise distinct.
    pub open spec fn wf(&self) -> bool {
        &&& self.depth as int == open_depth(self@.events)
        &&& t_wf(self.transform)
        &&& t_wf(self.outline_transform)
        &&& forall|i: int|
            0 <= i < self.transforms_stack@.len() ==> t_wf(#[trigger] self.transforms_stack@[i])
        &&& 1 <= self.gradient_index
        &&& 1 <= self.clip_path_index
        &&& id_wf(self@.events, self.gradient_index as int, self.clip_path_index as int)
        &&& no_dup_ids(self@.events)
    }

    /// A fresh interpreter over a palette and foreground color, with the
    /// identity ambient transform and one identity entry on the stack.
    pub fn new(foreground_color: Color, palette: Option<Vec<Color>>) -> (r: GlyphPainter)
        ensures
            r.wf(),
            r@.events == Seq::<XmlEventV>::empty(),
            r@.path_buf == Seq::<char>::empty(),
            r@.gradient_index == 1,
            r@.clip_path_index == 1,
            r@.foreground_color == foreground_color,
            r@.palette == match palette {
                Some(p) => Some(p@),
                None => None::<Seq<Color>>,
            },
            r@.transform == identity_spec(),
            r@.outline_transform == identity_spec(),
            r@.transforms_stack == seq![identity_spec()],
            r@.diagnostics == Seq::<Diagnostic>::empty(),
    {
        let mut stack: Vec<Transform> = Vec::new();
        stack.push(Transform::identity());
        let r = GlyphPainter {
            out: Vec::new(),
            depth: 0,
            path_buf: String::new(),
            gradient_index: 1,
            clip_path_index: 1,
            foreground_color,
            palette,
            transform: Transform::identity(),
            outline_transform: Transform::identity(),
            transforms_stack: stack,
            diagnostics: Vec::new(),
        };
        proof {
            assert(ev_seq(r.out@) =~= Seq::<XmlEventV>::empty());
            assert(r@.transforms_stack =~= seq![identity_spec()]);
        }
        r
    }

    /// Pushes the ambient transform and makes `t` apply first.
    pub fn push_transform(&mut self, t: &Transform)
        requires
            old(self).wf(),
            t_wf(*t),
        ensures
            final(self).wf(),
            final(self)@ == sp_push_transform(old(self)@, *t),
    {
        self.transforms_stack.push(self.transform);
        self.transform = t.compose(&self.transform);
        proof {
            assert(final(self)@ =~= sp_push_transform(old(self)@, *t));
        }
    }

    /// Restores the prior ambient transform, if any was pushed.
    pub fn pop_transform(&mut self)
        requires
            old(self).wf(),
        ensures
            final(self).wf(),
            final(self)@ == sp_pop_transform(old(self)@),
    {
        match self.transforms_stack.pop() {
            Some(t) => {
                self.transform = t;
            },
            None => {},
        }
        proof {
            assert(final(self)@ =~= sp_pop_transform(old(self)@));
        }
    }

    /// Closes the most recently opened clip scope; a no-op at base depth.
    pub fn pop_clip(&mut self)
        requires
            old(self).wf(),
        ensures
            final(self).wf(),
            final(self)@ == sp_close_scope(old(self)@),
    {
        self.close_scope();
    }

    /// Closes the most recently opened blend-mode layer group; shares the
    /// nesting discipline of clip scopes.
    pub fn pop_layer(&mut self)
        requires
            old(self).wf(),
        ensures
            final(self).wf(),
            final(self)@ == sp_close_scope(old(self)@),
    {
        self.close_scope();
    }

    /// Closes one open scope.
    fn close_scope(&mut self)
        requires
            old(self).wf(),
        ensures
            final(self).wf(),
            final(self)@ == sp_close_scope(old(self)@),
    {
        if self.depth > 0 {
            let ghost oldev = ev_seq(self.out@);
            push_event(&mut self.out, XmlEvent::End);
            self.depth = self.depth - 1;
            proof {
                lemma_depth_push(oldev, XmlEventV::End);
                lemma_ids_push_other(oldev, XmlEventV::End, self.gradient_index as int,
                    self.clip_path_index as int);
                assert(final(self)@ =~= sp_close_scope(old(self)@));
            }
        } else {
            proof {
                assert(final(self)@ =~= sp_close_scope(old(self)@));
            }
        }
    }
}

/// Depth after appending one event.
pub proof fn lemma_depth_push(s: Seq<XmlEventV>, e: XmlEventV)
    ensures
        open_depth(s.push(e)) == open_depth(s) + depth_delta(e),
{
    assert(s.push(e).drop_last() =~= s);
    assert(s.push(e).last() == e);
}

/// Identifier count after appending one event.
pub proof fn lemma_id_count_push(s: Seq<XmlEventV>, e: XmlEventV)
    ensures
        id_count(s.push(e)) == id_count(s) + if is_id_attr(e) {
            1int
        } else {
            0int
        },
{
    assert(s.push(e).drop_last() =~= s);
    assert(s.push(e).last() == e);
}

/// Identifier count adds over concatenation.
pub proof fn lemma_id_count_add(a: Seq<XmlEventV>, b: Seq<XmlEventV>)
    ensures
        id_count(a + b) == id_count(a) + id_count(b),
    decreases b.len(),
{
    if b.len() == 0 {
        assert(a + b =~= a);
    } else {
        assert((a + b).drop_last() =~= a + b.drop_last());
        assert((a + b).last() == b.last());
        lemma_id_count_add(a, b.drop_last());
    }
}

/// Appending a non-identifier event preserves identifier soundness.
pub proof fn lemma_ids_push_other(s: Seq<XmlEventV>, e: XmlEventV, gi: int, ci: int)
    requires
        id_wf(s, gi, ci),
        no_dup_ids(s),
        !is_id_attr(e),
    ensures
        id_wf(s.push(e), gi, ci),
        no_dup_ids(s.push(e)),
{
    let t = s.push(e);
    assert forall|i: int| 0 <= i < t.len() && #[trigger] is_id_attr(t[i]) implies id_valid(
        id_val(t[i]),
        gi,
        ci,
    ) by {
        if i < s.len() {
            assert(t[i] == s[i]);
        }
    }
    assert forall|i: int, j: int|
        0 <= i < j < t.len() && #[trigger] is_id_attr(t[i]) && #[trigger] is_id_attr(t[j])
        implies id_val(t[i]) != id_val(t[j]) by {
        assert(t[i] == s[i]);
        assert(j < s.len());
        assert(t[j] == s[j]);
    }
}

/// Identifier validity is monotone in the counters.
pub proof fn lemma_id_valid_monotone(v: Seq<char>, gi: int, ci: int, gi2: int, ci2: int)
    requires
        id_valid(v, gi, ci),
        gi <= gi2,
        ci <= ci2,
    ensures
        id_valid(v, gi2, ci2),
{
}

/// An identifier attribute makes the count positive.
pub proof fn lemma_one_id_count(s: Seq<XmlEventV>, i: int)
    requires
        0 <= i < s.len(),
        is_id_attr(s[i]),
    ensures
        id_count(s) >= 1,
    decreases s.len(),
{
    if i == s.len() - 1 {
        assert(id_count(s.drop_last()) >= 0) by {
            lemma_id_count_nonneg(s.drop_last());
        }
    } else {
        lemma_one_id_count(s.drop_last(), i);
    }
}

/// The identifier count is never negative.
pub proof fn lemma_id_count_nonneg(s: Seq<XmlEventV>)
    ensures
        id_count(s) >= 0,
    decreases s.len(),
{
    if s.len() > 0 {
        lemma_id_count_nonneg(s.drop_last());
    }
}

/// Two identifier attributes make the count at least two.
pub proof fn lemma_two_ids_count(s: Seq<XmlEventV>, i: int, j: int)
    requires
        0 <= i < j < s.len(),
        is_id_attr(s[i]),
        is_id_attr(s[j]),
    ensures
        id_count(s) >= 2,
    decreases s.len(),
{
    if j == s.len() - 1 {
        lemma_one_id_count(s.drop_last(), i);
    } else {
        lemma_two_ids_count(s.drop_last(), i, j);
    }
}

/// Appending a segment holding at most one fresh identifier keeps the
/// identifiers sound under raised counters.
pub proof fn lemma_ids_append_one(
    s: Seq<XmlEventV>,
    added: Seq<XmlEventV>,
    gi: int,
    ci: int,
    gi2: int,
    ci2: int,
    v: Seq<char>,
)
    requires
        id_wf(s, gi, ci),
        no_dup_ids(s),
        1 <= gi <= gi2,
        1 <= ci <= ci2,
        ids_all(added, v),
        id_count(added) <= 1,
        !id_valid(v, gi, ci),
        id_valid(v, gi2, ci2),
    ensures
        id_wf(s + added, gi2, ci2),
        no_dup_ids(s + added),
{
    let t = s + added;
    assert forall|i: int| 0 <= i < t.len() && #[trigger] is_id_attr(t[i]) implies id_valid(
        id_val(t[i]),
        gi2,
        ci2,
    ) by {
        if i < s.len() {
            assert(t[i] == s[i]);
            lemma_id_valid_monotone(id_val(s[i]), gi, ci, gi2, ci2);
        } else {
            assert(t[i] == added[i - s.len()]);
        }
    }
    assert forall|i: int, j: int|
        0 <= i < j < t.len() && #[trigger] is_id_attr(t[i]) && #[trigger] is_id_attr(t[j])
        implies id_val(t[i]) != id_val(t[j]) by {
        if j < s.len() {
            assert(t[i] == s[i]);
            assert(t[j] == s[j]);
        } else if i >= s.len() {
            assert(t[i] == added[i - s.len()]);
            assert(t[j] == added[j - s.len()]);
            lemma_two_ids_count(added, i - s.len(), j - s.len());
        } else {
            assert(t[i] == s[i]);
            assert(t[j] == added[j - s.len()]);
            assert(id_val(t[j]) == v);
            assert(id_valid(id_val(s[i]), gi, ci));
        }
    }
}

/// Appending a segment without identifiers keeps the identifiers sound.
pub proof fn lemma_ids_append_none(s: Seq<XmlEventV>, added: Seq<XmlEventV>, gi: int, ci: int)
    requires
        id_wf(s, gi, ci),
        no_dup_ids(s),
        no_ids(added),
    ensures
        id_wf(s + added, gi, ci),
        no_dup_ids(s + added),
{
    let t = s + added;
    assert forall|i: int| 0 <= i < t.len() && #[trigger] is_id_attr(t[i]) implies id_valid(
        id_val(t[i]),
        gi,
        ci,
    ) by {
        if i < s.len() {
            assert(t[i] == s[i]);
        } else {
            assert(t[i] == added[i - s.len()]);
        }
    }
    assert forall|i: int, j: int|
        0 <= i < j < t.len() && #[trigger] is_id_attr(t[i]) && #[trigger] is_id_attr(t[j])
        implies id_val(t[i]) != id_val(t[j]) by {
        if j >= s.len() {
            assert(t[j] == added[j - s.len()]);
        } else {
            assert(t[i] == s[i]);
            assert(t[j] == s[j]);
        }
    }
}

/// The next clip identifier was never issued before.
pub proof fn lemma_clip_id_fresh(gi: int, ci: int)
    requires
        1 <= gi,
        1 <= ci,
    ensures
        !id_valid(clip_id_chars(ci as nat), gi, ci),
        id_valid(clip_id_chars(ci as nat), gi, ci + 1),
{
    let v = clip_id_chars(ci as nat);
    if id_valid(v, gi, ci) {
        if exists|k: nat, r: bool| 1 <= k < gi && v == grad_id_chars(k, r) {
            let (k, r) = choose|k: nat, r: bool| 1 <= k < gi && v == grad_id_chars(k, r);
            lemma_grad_ne_clip(k, r, ci as nat);
        } else {
            let k = choose|k: nat| 1 <= k < ci && v == clip_id_chars(k);
            lemma_clip_id_injective(k, ci as nat);
        }
    }
}

/// The next gradient identifier was never issued before.
pub proof fn lemma_grad_id_fresh(gi: int, ci: int, radial: bool)
    requires
        1 <= gi,
        1 <= ci,
    ensures
        !id_valid(grad_id_chars(gi as nat, radial), gi, ci),
        id_valid(grad_id_chars(gi as nat, radial), gi + 1, ci),
{
    let v = grad_id_chars(gi as nat, radial);
    if id_valid(v, gi, ci) {
        if exists|k: nat, r: bool| 1 <= k < gi && v == grad_id_chars(k, r) {
            let (k, r) = choose|k: nat, r: bool| 1 <= k < gi && v == grad_id_chars(k, r);
            lemma_grad_id_injective(k, r, gi as nat, radial);
        } else {
            let k = choose|k: nat| 1 <= k < ci && v == clip_id_chars(k);
            lemma_grad_ne_clip(gi as nat, radial, k);
        }
    }
}

/// Structure of the clip scope events: they open one scope and issue one
/// identifier.
pub proof fn lemma_clip_events_facts(cid: Seq<char>, ot: Transform, d: Seq<char>)
    ensures
        open_depth(clip_events(cid, ot, d)) == 1,
        id_count(clip_events(cid, ot, d)) == 1,
        ids_all(clip_events(cid, ot, d), cid),
{
    let a = seq![
        XmlEventV::Start(ElemName::ClipPath),
        XmlEventV::Attr(AttrName::Id, cid),
        XmlEventV::Start(ElemName::Path),
    ];
    let t = transform_attr_events(AttrName::Transform, ot);
    let b = seq![
        XmlEventV::Attr(AttrName::D, d),
        XmlEventV::End,
        XmlEventV::End,
        XmlEventV::Start(ElemName::G),
        XmlEventV::Attr(AttrName::ClipPath, url_ref_chars(cid)),
    ];
    lemma_seq3_facts(a[0], a[1], a[2]);
    lemma_seq5_facts(b[0], b[1], b[2], b[3], b[4]);
    assert(a =~= seq![a[0], a[1], a[2]]);
    assert(b =~= seq![b[0], b[1], b[2], b[3], b[4]]);
    assert(open_depth(a) == 2 && id_count(a) == 1);
    assert(open_depth(b) == -1 && id_count(b) == 0);
    assert(open_depth(t) == 0 && id_count(t) == 0) by {
        if ot != identity_spec() {
            lemma_seq1_facts(XmlEventV::Attr(AttrName::GradientTransform, matrix_str(ot)));
            lemma_seq1_facts(XmlEventV::Attr(AttrName::Transform, matrix_str(ot)));
            assert(t =~= seq![XmlEventV::Attr(AttrName::Transform, matrix_str(ot))]);
        }
    }
    lemma_open_depth_add(a, t);
    lemma_open_depth_add(a + t, b);
    lemma_id_count_add(a, t);
    lemma_id_count_add(a + t, b);
    let w = clip_events(cid, ot, d);
    assert(w == a + t + b);
    assert forall|i: int| 0 <= i < w.len() && #[trigger] is_id_attr(w[i]) implies id_val(w[i])
        == cid by {
        if i < 3 {
            assert(w[i] == a[i]);
        } else if i < 3 + t.len() {
            assert(w[i] == t[i - 3]);
        } else {
            assert(w[i] == b[i - 3 - t.len()]);
        }
    }
}

/// Depth and identifier count of a one-event sequence.
proof fn lemma_seq1_facts(e0: XmlEventV)
    ensures
        open_depth(seq![e0]) == depth_delta(e0),
        id_count(seq![e0]) == if is_id_attr(e0) {
            1int
        } else {
            0int
        },
{
    lemma_depth_push(Seq::empty(), e0);
    lemma_id_count_push(Seq::empty(), e0);
    assert(Seq::<XmlEventV>::empty().push(e0) =~= seq![e0]);
}

/// Depth and identifier count of a three-event sequence.
proof fn lemma_seq3_facts(e0: XmlEventV, e1: XmlEventV, e2: XmlEventV)
    ensures
        open_depth(seq![e0, e1, e2]) == depth_delta(e0) + depth_delta(e1) + depth_delta(e2),
        id_count(seq![e0, e1, e2]) == (if is_id_attr(e0) {
            1int
        } else {
            0int
        }) + (if is_id_attr(e1) {
            1int
        } else {
            0int
        }) + (if is_id_attr(e2) {
            1int
        } else {
            0int
        }),
{
    lemma_seq1_facts(e0);
    lemma_depth_push(seq![e0], e1);
    lemma_id_count_push(seq![e0], e1);
    assert(seq![e0].push(e1) =~= seq![e0, e1]);
    lemma_depth_push(seq![e0, e1], e2);
    lemma_id_count_push(seq![e0, e1], e2);
    assert(seq![e0, e1].push(e2) =~= seq![e0, e1, e2]);
}

/// Depth and identifier count of a five-event sequence.
proof fn lemma_seq5_facts(e0: XmlEventV, e1: XmlEventV, e2: XmlEventV, e3: XmlEventV, e4: XmlEventV)
    ensures
        open_depth(seq![e0, e1, e2, e3, e4]) == depth_delta(e0) + depth_delta(e1) + depth_delta(e2)
            + depth_delta(e3) + depth_delta(e4),
        id_count(seq![e0, e1, e2, e3, e4]) == (if is_id_attr(e0) {
            1int
        } else {
            0int
        }) + (if is_id_attr(e1) {
            1int
        } else {
            0int
        }) + (if is_id_attr(e2) {
            1int
        } else {
            0int
        }) + (if is_id_attr(e3) {
            1int
        } else {
            0int
        }) + (if is_id_attr(e4) {
            1int
        } else {
            0int
        }),
{
    lemma_seq3_facts(e0, e1, e2);
    lemma_depth_push(seq![e0, e1, e2], e3);
    lemma_id_count_push(seq![e0, e1, e2], e3);
    assert(seq![e0, e1, e2].push(e3) =~= seq![e0, e1, e2, e3]);
    lemma_depth_push(seq![e0, e1, e2, e3], e4);
    lemma_id_count_push(seq![e0, e1, e2, e3], e4);
    assert(seq![e0, e1, e2, e3].push(e4) =~= seq![e0, e1, e2, e3, e4]);
}

impl GlyphPainter {
    /// Records an outline through the pen into a fresh buffer, trimming
    /// the trailing separator.
    fn record_outline(cs: &Vec<PathCommand>) -> (r: String)
        ensures
            r@ == finished_path_text(cs@),
    {
        let mut b = Builder { buf: render_path_text(cs) };
        b.finish();
        let Builder { buf } = b;
        buf
    }

    /// Emits a clip path definition over `d` and the outline transform,
    /// then opens a group clipped to it.
    fn clip_with_path(&mut self, d: String)
        requires
            old(self).wf(),
            old(self).clip_path_index < u64::MAX,
        ensures
            final(self).wf(),
            final(self)@ == (PainterV {
                events: old(self)@.events + clip_events(
                    clip_id_chars(old(self)@.clip_path_index as nat),
                    old(self).outline_transform,
                    d@,
                ),
                clip_path_index: old(self)@.clip_path_index + 1,
                ..old(self)@
            }),
    {
        let ghost oldv = self@;
        let ghost cidc = clip_id_chars(self.clip_path_index as nat);
        let cid = clip_id_value(self.clip_path_index);
        let ghost ot = self.outline_transform;
        push_event(&mut self.out, XmlEvent::Start(ElemName::ClipPath));
        push_event(&mut self.out, XmlEvent::Attr(AttrName::Id, cid.clone()));
        push_event(&mut self.out, XmlEvent::Start(ElemName::Path));
        if !(self.outline_transform == Transform::identity()) {
            let m = matrix_attr_value(&self.outline_transform);
            push_event(&mut self.out, XmlEvent::Attr(AttrName::Transform, m));
        }
        push_event(&mut self.out, XmlEvent::Attr(AttrName::D, d));
        push_event(&mut self.out, XmlEvent::End);
        push_event(&mut self.out, XmlEvent::End);
        push_event(&mut self.out, XmlEvent::Start(ElemName::G));
        let u = url_ref_value(&cid);
        push_event(&mut self.out, XmlEvent::Attr(AttrName::ClipPath, u));
        proof {
            assert(ev_seq(self.out@) =~= oldv.events + clip_events(cidc, ot, d@));
        }
        let n = self.out.len();
        proof {
            crate::xml::lemma_open_depth_le_len(oldv.events);
            lemma_clip_events_facts(cidc, ot, d@);
            lemma_open_depth_add(oldv.events, clip_events(cidc, ot, d@));
            assert(oldv.events.len() == n - clip_events(cidc, ot, d@).len());
        }
        self.depth = self.depth + 1;
        self.clip_path_index = self.clip_path_index + 1;
        proof {
            lemma_clip_id_fresh(oldv.gradient_index, oldv.clip_path_index);
            lemma_ids_append_one(
                oldv.events,
                clip_events(cidc, ot, d@),
                oldv.gradient_index,
                oldv.clip_path_index,
                oldv.gradient_index,
                oldv.clip_path_index + 1,
                cidc,
            );
            assert(final(self)@ =~= (PainterV {
                events: oldv.events + clip_events(cidc, ot, d@),
                clip_path_index: oldv.clip_path_index + 1,
                ..oldv
            }));
        }
    }

    /// Synthesizes a closed rectangular clip path from the box corners in
    /// fixed order and opens a clip scope over it.
    pub fn push_clip_box(&mut self, x_min: i64, y_min: i64, x_max: i64, y_max: i64)
        requires
            old(self).wf(),
        ensures
            final(self).wf(),
            final(self)@ == sp_push_clip_box(old(self)@, x_min, y_min, x_max, y_max),
    {
        if self.clip_path_index == u64::MAX {
            proof {
                assert(final(self)@ =~= sp_push_clip_box(old(self)@, x_min, y_min, x_max, y_max));
            }
            return ;
        }
        let buf = Self::box_path_value(x_min, y_min, x_max, y_max);
        self.clip_with_path(buf);
        proof {
            assert(final(self)@ =~= sp_push_clip_box(old(self)@, x_min, y_min, x_max, y_max));
        }
    }

    /// Renders the closed rectangular path of a clip box.
    #[verifier::rlimit(60)]
    fn box_path_value(x_min: i64, y_min: i64, x_max: i64, y_max: i64) -> (r: String)
        ensures
            r@ == finished_path_text(box_path_commands(x_min, y_min, x_max, y_max)),
    {
        let mut b = Builder::new();
        b.move_to(x_min, y_min);
        b.line_to(x_max, y_min);
        b.line_to(x_max, y_max);
        b.line_to(x_min, y_max);
        b.close();
        let ghost pre = b.buf@;
        proof {
            reveal_strlit("M ");
            reveal_strlit("L ");
            reveal_strlit("Z ");
            let cs = box_path_commands(x_min, y_min, x_max, y_max);
            let c0 = PathCommand::MoveTo(x_min, y_min);
            let c1 = PathCommand::LineTo(x_max, y_min);
            let c2 = PathCommand::LineTo(x_max, y_max);
            let c3 = PathCommand::LineTo(x_min, y_max);
            let c4 = PathCommand::Close;
            let s4 = seq![c4];
            let s3 = seq![c3, c4];
            let s2 = seq![c2, c3, c4];
            let s1 = seq![c1, c2, c3, c4];
            assert(s4.drop_first() =~= Seq::<PathCommand>::empty());
            assert(path_text(Seq::<PathCommand>::empty()) =~= Seq::<char>::empty());
            assert(path_text(s4) =~= command_token(c4));
            assert(s3.drop_first() =~= s4);
            assert(path_text(s3) =~= command_token(c3) + path_text(s4));
            assert(s2.drop_first() =~= s3);
            assert(path_text(s2) =~= command_token(c2) + path_text(s3));
            assert(s1.drop_first() =~= s2);
            assert(path_text(s1) =~= command_token(c1) + path_text(s2));
            assert(cs.drop_first() =~= s1);
            assert(path_text(cs) =~= command_token(c0) + path_text(s1));
            assert(pre =~= path_text(cs));
            assert(pre.len() > 0);
        }
        b.finish();
        proof {
            assert(b.buf@ == finished_path_text(box_path_commands(x_min, y_min, x_max, y_max)));
        }
        let Builder { buf } = b;
        buf
    }

    /// Records the glyph's contour as the authoritative outline — path
    /// buffer and outline transform — and opens a clip scope over it. A
    /// missing contour skips the step, only clearing the buffer.
    pub fn push_clip_glyph(&mut self, outline: Option<&Vec<PathCommand>>)
        requires
            old(self).wf(),
        ensures
            final(self).wf(),
            final(self)@ == sp_push_clip_glyph(
                old(self)@,
                match outline {
                    Some(cs) => Some(cs@),
                    None => None,
                },
            ),
    {
        match outline {
            None => {
                self.path_buf = String::new();
                proof {
                    assert(final(self)@ =~= sp_push_clip_glyph(old(self)@, None));
                }
            },
            Some(cs) => {
                if self.clip_path_index == u64::MAX {
                    proof {
                        assert(final(self)@ =~= sp_push_clip_glyph(old(self)@, Some(cs@)));
                    }
                    return ;
                }
                let d = Self::record_outline(cs);
                self.path_buf = d;
                self.outline_transform = self.transform;
                let d2 = self.path_buf.clone();
                self.clip_with_path(d2);
                proof {
                    assert(final(self)@ =~= sp_push_clip_glyph(old(self)@, Some(cs@)));
                }
            },
        }
    }
}

/// Sequences without identifiers satisfy any uniform identifier claim.
pub proof fn lemma_no_ids_all(s: Seq<XmlEventV>, v: Seq<char>)
    requires
        no_ids(s),
    ensures
        ids_all(s, v),
{
}

/// A uniform identifier claim survives concatenation.
pub proof fn lemma_ids_all_add(a: Seq<XmlEventV>, b: Seq<XmlEventV>, v: Seq<char>)
    requires
        ids_all(a, v),
        ids_all(b, v),
    ensures
        ids_all(a + b, v),
{
    let t = a + b;
    assert forall|i: int| 0 <= i < t.len() && #[trigger] is_id_attr(t[i]) implies id_val(t[i])
        == v by {
        if i < a.len() {
            assert(t[i] == a[i]);
        } else {
            assert(t[i] == b[i - a.len()]);
        }
    }
}

/// Depth and identifier count of a two-event sequence.
proof fn lemma_seq2_facts(e0: XmlEventV, e1: XmlEventV)
    ensures
        open_depth(seq![e0, e1]) == depth_delta(e0) + depth_delta(e1),
        id_count(seq![e0, e1]) == (if is_id_attr(e0) {
            1int
        } else {
            0int
        }) + (if is_id_attr(e1) {
            1int
        } else {
            0int
        }),
{
    lemma_seq1_facts(e0);
    lemma_depth_push(seq![e0], e1);
    lemma_id_count_push(seq![e0], e1);
    assert(seq![e0].push(e1) =~= seq![e0, e1]);
}

/// Structure of the spread-method events: balanced, without identifiers.
proof fn lemma_spread_facts(e: ExtendMode)
    ensures
        open_depth(spread_events(e)) == 0,
        no_ids(spread_events(e)),
{
    match e {
        ExtendMode::Pad => lemma_seq1_facts(spread_events(e)[0]),
        ExtendMode::Repeat => lemma_seq1_facts(spread_events(e)[0]),
        ExtendMode::Reflect => lemma_seq1_facts(spread_events(e)[0]),
        ExtendMode::Unknown => {},
    }
    if e != ExtendMode::Unknown {
        assert(spread_events(e) =~= seq![spread_events(e)[0]]);
    }
}

/// Structure of a transform attribute: balanced, without identifiers.
proof fn lemma_transform_attr_facts(name: AttrName, t: Transform)
    requires
        name != AttrName::Id,
    ensures
        open_depth(transform_attr_events(name, t)) == 0,
        no_ids(transform_attr_events(name, t)),
{
    if t != identity_spec() {
        lemma_seq1_facts(XmlEventV::Attr(name, matrix_str(t)));
        assert(transform_attr_events(name, t) =~= seq![XmlEventV::Attr(name, matrix_str(t))]);
    }
}

/// Structure of one stop's events: balanced, without identifiers.
proof fn lemma_stop_events_facts(offset: i64, c: Color)
    ensures
        open_depth(stop_events(offset, c)) == 0,
        no_ids(stop_events(offset, c)),
{
    let s = stop_events(offset, c);
    lemma_seq5_facts(s[0], s[1], s[2], s[3], s[4]);
    assert(s =~= seq![s[0], s[1], s[2], s[3], s[4]]);
}

/// Structure of a stop list's events: balanced, without identifiers.
proof fn lemma_stops_events_facts(rs: Seq<(i64, Color)>)
    ensures
        open_depth(stops_events(rs)) == 0,
        no_ids(stops_events(rs)),
    decreases rs.len(),
{
    if rs.len() > 0 {
        lemma_stop_events_facts(rs.first().0, rs.first().1);
        lemma_stops_events_facts(rs.drop_first());
        lemma_open_depth_add(stop_events(rs.first().0, rs.first().1),
            stops_events(rs.drop_first()));
        let a = stop_events(rs.first().0, rs.first().1);
        let b = stops_events(rs.drop_first());
        let t = a + b;
        assert forall|i: int| 0 <= i < t.len() implies !(#[trigger] is_id_attr(t[i])) by {
            if i < a.len() {
                assert(t[i] == a[i]);
            } else {
                assert(t[i] == b[i - a.len()]);
            }
        }
    }
}

/// A stop list's events extend stop by stop.
pub proof fn lemma_stops_events_take(rs: Seq<(i64, Color)>, i: int)
    requires
        0 <= i < rs.len(),
    ensures
        stops_events(rs.take(i + 1)) == stops_events(rs.take(i)) + stop_events(
            rs[i].0,
            rs[i].1,
        ),
    decreases i,
{
    if i == 0 {
        assert(rs.take(1).drop_first() =~= rs.take(0));
        assert(stops_events(rs.take(1)) =~= stop_events(rs[0].0, rs[0].1) + stops_events(
            rs.take(0),
        ));
        assert(stops_events(rs.take(0)) =~= Seq::<XmlEventV>::empty());
        assert(stops_events(rs.take(1)) =~= stops_events(rs.take(0)) + stop_events(
            rs[0].0,
            rs[0].1,
        ));
    } else {
        let tail = rs.drop_first();
        assert(rs.take(i + 1).first() == rs[0]);
        assert(rs.take(i + 1).drop_first() =~= tail.take(i));
        assert(rs.take(i).first() == rs[0]);
        assert(rs.take(i).drop_first() =~= tail.take(i - 1));
        lemma_stops_events_take(tail, i - 1);
        assert(tail[i - 1] == rs[i]);
        assert(stops_events(rs.take(i + 1)) =~= stops_events(rs.take(i)) + stop_events(
            rs[i].0,
            rs[i].1,
        ));
    }
}

/// Structure of a solid fill's events: balanced, without identifiers.
proof fn lemma_solid_events_facts(c: Color, ot: Transform, d: Seq<char>)
    ensures
        open_depth(solid_events(c, ot, d)) == 0,
        no_ids(solid_events(c, ot, d)),
{
    let a = seq![
        XmlEventV::Start(ElemName::Path),
        XmlEventV::Attr(AttrName::Fill, rgb_str(c)),
        XmlEventV::Attr(AttrName::FillOpacity, opacity_str(c.alpha as nat)),
    ];
    let t = transform_attr_events(AttrName::Transform, ot);
    let b = seq![XmlEventV::Attr(AttrName::D, d), XmlEventV::End];
    lemma_seq3_facts(a[0], a[1], a[2]);
    assert(a =~= seq![a[0], a[1], a[2]]);
    lemma_seq2_facts(b[0], b[1]);
    assert(b =~= seq![b[0], b[1]]);
    lemma_transform_attr_facts(AttrName::Transform, ot);
    lemma_open_depth_add(a, t);
    lemma_open_depth_add(a + t, b);
    let w = solid_events(c, ot, d);
    assert(w == a + t + b);
    assert forall|i: int| 0 <= i < w.len() implies !(#[trigger] is_id_attr(w[i])) by {
        if i < 3 {
            assert(w[i] == a[i]);
        } else if i < 3 + t.len() {
            assert(w[i] == t[i - 3]);
        } else {
            assert(w[i] == b[i - 3 - t.len()]);
        }
    }
}

/// Structure of a gradient-referencing path: balanced, without
/// identifiers.
proof fn lemma_use_events_facts(gid: Seq<char>, ot: Transform, d: Seq<char>)
    ensures
        open_depth(use_events(gid, ot, d)) == 0,
        no_ids(use_events(gid, ot, d)),
{
    let a = seq![
        XmlEventV::Start(ElemName::Path),
        XmlEventV::Attr(AttrName::Fill, url_ref_chars(gid)),
    ];
    let t = transform_attr_events(AttrName::Transform, ot);
    let b = seq![XmlEventV::Attr(AttrName::D, d), XmlEventV::End];
    lemma_seq2_facts(a[0], a[1]);
    assert(a =~= seq![a[0], a[1]]);
    lemma_seq2_facts(b[0], b[1]);
    assert(b =~= seq![b[0], b[1]]);
    lemma_transform_attr_facts(AttrName::Transform, ot);
    lemma_open_depth_add(a, t);
    lemma_open_depth_add(a + t, b);
    let w = use_events(gid, ot, d);
    assert(w == a + t + b);
    assert forall|i: int| 0 <= i < w.len() implies !(#[trigger] is_id_attr(w[i])) by {
        if i < 2 {
            assert(w[i] == a[i]);
        } else if i < 2 + t.len() {
            assert(w[i] == t[i - 2]);
        } else {
            assert(w[i] == b[i - 2 - t.len()]);
        }
    }
}

/// Depth and identifier count of a seven-event sequence.
proof fn lemma_seq7_facts(
    e0: XmlEventV,
    e1: XmlEventV,
    e2: XmlEventV,
    e3: XmlEventV,
    e4: XmlEventV,
    e5: XmlEventV,
    e6: XmlEventV,
)
    ensures
        open_depth(seq![e0, e1, e2, e3, e4, e5, e6]) == depth_delta(e0) + depth_delta(e1)
            + depth_delta(e2) + depth_delta(e3) + depth_delta(e4) + depth_delta(e5) + depth_delta(
            e6,
        ),
        id_count(seq![e0, e1, e2, e3, e4, e5, e6]) == (if is_id_attr(e0) {
            1int
        } else {
            0int
        }) + (if is_id_attr(e1) {
            1int
        } else {
            0int
        }) + (if is_id_attr(e2) {
            1int
        } else {
            0int
        }) + (if is_id_attr(e3) {
            1int
        } else {
            0int
        }) + (if is_id_attr(e4) {
            1int
        } else {
            0int
        }) + (if is_id_attr(e5) {
            1int
        } else {
            0int
        }) + (if is_id_attr(e6) {
            1int
        } else {
            0int
        }),
{
    lemma_seq5_facts(e0, e1, e2, e3, e4);
    lemma_depth_push(seq![e0, e1, e2, e3, e4], e5);
    lemma_id_count_push(seq![e0, e1, e2, e3, e4], e5);
    assert(seq![e0, e1, e2, e3, e4].push(e5) =~= seq![e0, e1, e2, e3, e4, e5]);
    lemma_depth_push(seq![e0, e1, e2, e3, e4, e5], e6);
    lemma_id_count_push(seq![e0, e1, e2, e3, e4, e5], e6);
    assert(seq![e0, e1, e2, e3, e4, e5].push(e6) =~= seq![e0, e1, e2, e3, e4, e5, e6]);
}

/// Structure of a linear gradient definition: balanced, one identifier.
proof fn lemma_linear_def_facts(
    gid: Seq<char>,
    x0: i64,
    y0: i64,
    x1: i64,
    y1: i64,
    extend: ExtendMode,
    gt: Transform,
    rs: Seq<(i64, Color)>,
)
    ensures
        open_depth(linear_def_events(gid, x0, y0, x1, y1, extend, gt, rs)) == 0,
        id_count(linear_def_events(gid, x0, y0, x1, y1, extend, gt, rs)) == 1,
        ids_all(linear_def_events(gid, x0, y0, x1, y1, extend, gt, rs), gid),
{
    let a = seq![
        XmlEventV::Start(ElemName::LinearGradient),
        XmlEventV::Attr(AttrName::Id, gid),
        XmlEventV::Attr(AttrName::X1, scalar_digits(x0 as int)),
        XmlEventV::Attr(AttrName::Y1, scalar_digits(y0 as int)),
        XmlEventV::Attr(AttrName::X2, scalar_digits(x1 as int)),
        XmlEventV::Attr(AttrName::Y2, scalar_digits(y1 as int)),
        XmlEventV::Attr(AttrName::GradientUnits, "userSpaceOnUse"@),
    ];
    let sp = spread_events(extend);
    let ta = transform_attr_events(AttrName::GradientTransform, gt);
    let st = stops_events(rs);
    let en = seq![XmlEventV::End];
    lemma_seq7_facts(a[0], a[1], a[2], a[3], a[4], a[5], a[6]);
    assert(a =~= seq![a[0], a[1], a[2], a[3], a[4], a[5], a[6]]);
    lemma_spread_facts(extend);
    lemma_transform_attr_facts(AttrName::GradientTransform, gt);
    lemma_stops_events_facts(rs);
    lemma_seq1_facts(XmlEventV::End);
    assert(en =~= seq![XmlEventV::End]);
    lemma_open_depth_add(a, sp);
    lemma_open_depth_add(a + sp, ta);
    lemma_open_depth_add(a + sp + ta, st);
    lemma_open_depth_add(a + sp + ta + st, en);
    lemma_id_count_add(a, sp);
    lemma_id_count_add(a + sp, ta);
    lemma_id_count_add(a + sp + ta, st);
    lemma_id_count_add(a + sp + ta + st, en);
    assert(id_count(sp) == 0 && id_count(ta) == 0 && id_count(st) == 0 && id_count(en) == 0) by {
        lemma_count_of_no_ids(sp);
        lemma_count_of_no_ids(ta);
        lemma_count_of_no_ids(st);
        lemma_count_of_no_ids(en);
        assert(no_ids(en));
    }
    let w = linear_def_events(gid, x0, y0, x1, y1, extend, gt, rs);
    assert(w == a + sp + ta + st + en);
    assert forall|i: int| 0 <= i < w.len() && #[trigger] is_id_attr(w[i]) implies id_val(w[i])
        == gid by {
        if i < 7 {
            assert(w[i] == a[i]);
        } else if i < 7 + sp.len() {
            assert(w[i] == sp[i - 7]);
        } else if i < 7 + sp.len() + ta.len() {
            assert(w[i] == ta[i - 7 - sp.len()]);
        } else if i < 7 + sp.len() + ta.len() + st.len() {
            assert(w[i] == st[i - 7 - sp.len() - ta.len()]);
        } else {
            assert(w[i] == en[i - 7 - sp.len() - ta.len() - st.len()]);
        }
    }
}

/// Depth and identifier count of a nine-event sequence.
proof fn lemma_seq9_facts(
    e0: XmlEventV,
    e1: XmlEventV,
    e2: XmlEventV,
    e3: XmlEventV,
    e4: XmlEventV,
    e5: XmlEventV,
    e6: XmlEventV,
    e7: XmlEventV,
    e8: XmlEventV,
)
    ensures
        open_depth(seq![e0, e1, e2, e3, e4, e5, e6, e7, e8]) == depth_delta(e0) + depth_delta(e1)
            + depth_delta(e2) + depth_delta(e3) + depth_delta(e4) + depth_delta(e5) + depth_delta(
            e6,
        ) + depth_delta(e7) + depth_delta(e8),
        id_count(seq![e0, e1, e2, e3, e4, e5, e6, e7, e8]) == (if is_id_attr(e0) {
            1int
        } else {
            0int
        }) + (if is_id_attr(e1) {
            1int
        } else {
            0int
        }) + (if is_id_attr(e2) {
            1int
        } else {
            0int
        }) + (if is_id_attr(e3) {
            1int
        } else {
            0int
        }) + (if is_id_attr(e4) {
            1int
        } else {
            0int
        }) + (if is_id_attr(e5) {
            1int
        } else {
            0int
        }) + (if is_id_attr(e6) {
            1int
        } else {
            0int
        }) + (if is_id_attr(e7) {
            1int
        } else {
            0int
        }) + (if is_id_attr(e8) {
            1int
        } else {
            0int
        }),
{
    lemma_seq7_facts(e0, e1, e2, e3, e4, e5, e6);
    lemma_depth_push(seq![e0, e1, e2, e3, e4, e5, e6], e7);
    lemma_id_count_push(seq![e0, e1, e2, e3, e4, e5, e6], e7);
    assert(seq![e0, e1, e2, e3, e4, e5, e6].push(e7) =~= seq![e0, e1, e2, e3, e4, e5, e6, e7]);
    lemma_depth_push(seq![e0, e1, e2, e3, e4, e5, e6, e7], e8);
    lemma_id_count_push(seq![e0, e1, e2, e3, e4, e5, e6, e7], e8);
    assert(seq![e0, e1, e2, e3, e4, e5, e6, e7].push(e8) =~= seq![
        e0, e1, e2, e3, e4, e5, e6, e7, e8,
    ]);
}

/// Structure of a radial gradient definition: balanced, one identifier.
proof fn lemma_radial_def_facts(
    gid: Seq<char>,
    cx0: i64,
    cy0: i64,
    r0: i64,
    cx1: i64,
    cy1: i64,
    r1: i64,
    extend: ExtendMode,
    gt: Transform,
    rs: Seq<(i64, Color)>,
)
    ensures
        open_depth(radial_def_events(gid, cx0, cy0, r0, cx1, cy1, r1, extend, gt, rs)) == 0,
        id_count(radial_def_events(gid, cx0, cy0, r0, cx1, cy1, r1, extend, gt, rs)) == 1,
        ids_all(radial_def_events(gid, cx0, cy0, r0, cx1, cy1, r1, extend, gt, rs), gid),
{
    let a = seq![
        XmlEventV::Start(ElemName::RadialGradient),
        XmlEventV::Attr(AttrName::Id, gid),
        XmlEventV::Attr(AttrName::Cx, scalar_digits(cx1 as int)),
        XmlEventV::Attr(AttrName::Cy, scalar_digits(cy1 as int)),
        XmlEventV::Attr(AttrName::R, scalar_digits(r1 as int)),
        XmlEventV::Attr(AttrName::Fr, scalar_digits(r0 as int)),
        XmlEventV::Attr(AttrName::Fx, scalar_digits(cx0 as int)),
        XmlEventV::Attr(AttrName::Fy, scalar_digits(cy0 as int)),
        XmlEventV::Attr(AttrName::GradientUnits, "userSpaceOnUse"@),
    ];
    let sp = spread_events(extend);
    let ta = transform_attr_events(AttrName::GradientTransform, gt);
    let st = stops_events(rs);
    let en = seq![XmlEventV::End];
    lemma_seq9_facts(a[0], a[1], a[2], a[3], a[4], a[5], a[6], a[7], a[8]);
    assert(a =~= seq![a[0], a[1], a[2], a[3], a[4], a[5], a[6], a[7], a[8]]);
    lemma_spread_facts(extend);
    lemma_transform_attr_facts(AttrName::GradientTransform, gt);
    lemma_stops_events_facts(rs);
    lemma_seq1_facts(XmlEventV::End);
    assert(en =~= seq![XmlEventV::End]);
    lemma_open_depth_add(a, sp);
    lemma_open_depth_add(a + sp, ta);
    lemma_open_depth_add(a + sp + ta, st);
    lemma_open_depth_add(a + sp + ta + st, en);
    lemma_id_count_add(a, sp);
    lemma_id_count_add(a + sp, ta);
    lemma_id_count_add(a + sp + ta, st);
    lemma_id_count_add(a + sp + ta + st, en);
    assert(id_count(sp) == 0 && id_count(ta) == 0 && id_count(st) == 0 && id_count(en) == 0) by {
        lemma_count_of_no_ids(sp);
        lemma_count_of_no_ids(ta);
        lemma_count_of_no_ids(st);
        lemma_count_of_no_ids(en);
        assert(no_ids(en));
    }
    let w = radial_def_events(gid, cx0, cy0, r0, cx1, cy1, r1, extend, gt, rs);
    assert(w == a + sp + ta + st + en);
    assert forall|i: int| 0 <= i < w.len() && #[trigger] is_id_attr(w[i]) implies id_val(w[i])
        == gid by {
        if i < 9 {
            assert(w[i] == a[i]);
        } else if i < 9 + sp.len() {
            assert(w[i] == sp[i - 9]);
        } else if i < 9 + sp.len() + ta.len() {
            assert(w[i] == ta[i - 9 - sp.len()]);
        } else if i < 9 + sp.len() + ta.len() + st.len() {
            assert(w[i] == st[i - 9 - sp.len() - ta.len()]);
        } else {
            assert(w[i] == en[i - 9 - sp.len() - ta.len() - st.len()]);
        }
    }
}

/// A sequence without identifiers has identifier count zero.
proof fn lemma_count_of_no_ids(s: Seq<XmlEventV>)
    requires
        no_ids(s),
    ensures
        id_count(s) == 0,
    decreases s.len(),
{
    if s.len() > 0 {
        assert(!is_id_attr(s[s.len() - 1]));
        assert forall|i: int| 0 <= i < s.drop_last().len() implies !(#[trigger] is_id_attr(
            s.drop_last()[i],
        )) by {
            assert(s.drop_last()[i] == s[i]);
        }
        lemma_count_of_no_ids(s.drop_last());
    }
}

/// Reassociates the assembled gradient definition events.
pub proof fn lemma_def_assemble(
    base: Seq<XmlEventV>,
    hd: Seq<XmlEventV>,
    sp: Seq<XmlEventV>,
    ta: Seq<XmlEventV>,
    st: Seq<XmlEventV>,
)
    ensures
        (base + hd + sp + ta + st).push(XmlEventV::End) == base + (hd + sp + ta + st + seq![
            XmlEventV::End,
        ]),
{
    assert((base + hd + sp + ta + st).push(XmlEventV::End) =~= base + (hd + sp + ta + st + seq![
        XmlEventV::End,
    ]));
}

/// Appending a gradient definition and its referencing path keeps the
/// identifiers sound under the raised gradient counter and leaves the
/// nesting depth unchanged.
pub proof fn lemma_gradient_append_wf(
    base: Seq<XmlEventV>,
    def: Seq<XmlEventV>,
    us: Seq<XmlEventV>,
    gi: int,
    ci: int,
    gidc: Seq<char>,
    radial: bool,
)
    requires
        id_wf(base, gi, ci),
        no_dup_ids(base),
        1 <= gi < u64::MAX as int,
        1 <= ci,
        ids_all(def, gidc),
        id_count(def) == 1,
        open_depth(def) == 0,
        no_ids(us),
        open_depth(us) == 0,
        gidc == grad_id_chars(gi as nat, radial),
    ensures
        id_wf(base + def + us, gi + 1, ci),
        no_dup_ids(base + def + us),
        open_depth(base + def + us) == open_depth(base),
{
    lemma_no_ids_all(us, gidc);
    lemma_ids_all_add(def, us, gidc);
    lemma_id_count_add(def, us);
    lemma_count_of_no_ids(us);
    lemma_grad_id_fresh(gi, ci, radial);
    lemma_ids_append_one(base, def + us, gi, ci, gi + 1, ci, gidc);
    assert(base + def + us =~= base + (def + us));
    lemma_open_depth_add(base, def);
    lemma_open_depth_add(base + def, us);
}

/// Renders the blend keyword of a compositing mode.
pub fn blend_keyword_value(m: &CompositeMode) -> (r: &'static str)
    ensures
        r@ == blend_keyword(*m),
{
    match m {
        CompositeMode::SrcOver => "normal",
        CompositeMode::Screen => "screen",
        CompositeMode::Overlay => "overlay",
        CompositeMode::Darken => "darken",
        CompositeMode::Lighten => "lighten",
        CompositeMode::ColorDodge => "color-dodge",
        CompositeMode::ColorBurn => "color-burn",
        CompositeMode::HardLight => "hard-light",
        CompositeMode::SoftLight => "soft-light",
        CompositeMode::Difference => "difference",
        CompositeMode::Exclusion => "exclusion",
        CompositeMode::Multiply => "multiply",
        CompositeMode::HslHue => "hue",
        CompositeMode::HslSaturation => "saturation",
        CompositeMode::HslColor => "color",
        CompositeMode::HslLuminosity => "luminosity",
        CompositeMode::Unsupported => "normal",
    }
}

/// The free transform composition between outline space and paint-local
/// space: the inverse of the outline transform pre-concatenated with the
/// paint-local transform, falling back to the paint-local transform alone
/// when the outline transform is singular (the second component reports
/// the fallback).
pub fn paint_transform(outline_transform: &Transform, transform: &Transform) -> (r: (
    Transform,
    bool,
))
    requires
        t_wf(*outline_transform),
        t_wf(*transform),
    ensures
        r == gradient_delta_spec(*outline_transform, *transform),
        t_wf(r.0),
{
    match outline_transform.invert() {
        Some(inv) => (inv.compose(transform), false),
        None => (*transform, true),
    }
}

impl GlyphPainter {
    /// Resolves every stop of a gradient, or reports failure.
    fn resolve_stops(&self, stops: &Vec<ColorStop>) -> (r: Option<Vec<(i64, Color)>>)
        requires
            forall|i: int| 0 <= i < stops@.len() ==> (#[trigger] stops@[i]).alpha <= ALPHA_ONE,
        ensures
            match r {
                Some(v) => resolve_stops_spec(self@.palette, self.foreground_color, stops@)
                    == Some(v@),
                None => resolve_stops_spec(self@.palette, self.foreground_color, stops@)
                    is None,
            },
    {
        let ghost pal = self@.palette;
        let ghost fg = self.foreground_color;
        let mut resolved: Vec<(i64, Color)> = Vec::new();
        let mut i: usize = 0;
        proof {
            assert(stops@.skip(0) =~= stops@);
            match resolve_stops_spec(pal, fg, stops@) {
                None => {},
                Some(t) => {
                    assert(resolved@ + t =~= t);
                },
            }
        }
        while i < stops.len()
            invariant
                0 <= i <= stops@.len(),
                forall|k: int| 0 <= k < stops@.len() ==> (#[trigger] stops@[k]).alpha <= ALPHA_ONE,
                pal == self@.palette,
                fg == self.foreground_color,
                resolve_stops_spec(pal, fg, stops@) == (match resolve_stops_spec(
                    pal,
                    fg,
                    stops@.skip(i as int),
                ) {
                    None => None::<Seq<(i64, Color)>>,
                    Some(t) => Some(resolved@ + t),
                }),
            decreases stops@.len() - i,
        {
            let s = stops[i];
            proof {
                assert(stops@.skip(i as int).first() == stops@[i as int]);
                assert(stops@.skip(i as int).drop_first() =~= stops@.skip(i as int + 1));
            }
            match resolve_color(&self.palette, self.foreground_color, s.palette_index, s.alpha) {
                None => {
                    return None;
                },
                Some(c) => {
                    resolved.push((s.offset, c));
                    proof {
                        match resolve_stops_spec(pal, fg, stops@.skip(i as int + 1)) {
                            None => {},
                            Some(t) => {
                                assert(resolved@ + t =~= resolved@.drop_last() + (seq![
                                    (s.offset, c),
                                ] + t));
                            },
                        }
                    }
                },
            }
            i = i + 1;
        }
        proof {
            assert(stops@.skip(stops@.len() as int) =~= Seq::<ColorStop>::empty());
            assert(resolved@ + Seq::<(i64, Color)>::empty() =~= resolved@);
        }
        Some(resolved)
    }

    /// Emits the stop elements of a resolved stop list.
    fn write_gradient_stops(&mut self, resolved: &Vec<(i64, Color)>)
        ensures
            final(self).depth == old(self).depth,
            final(self)@ == (PainterV {
                events: old(self)@.events + stops_events(resolved@),
                ..old(self)@
            }),
    {
        let mut i: usize = 0;
        proof {
            assert(old(self)@.events + stops_events(resolved@.take(0)) =~= old(self)@.events);
            assert(self@ =~= (PainterV {
                events: old(self)@.events + stops_events(resolved@.take(0)),
                ..old(self)@
            }));
        }
        while i < resolved.len()
            invariant
                0 <= i <= resolved@.len(),
                self.depth == old(self).depth,
                self@ == (PainterV {
                    events: old(self)@.events + stops_events(resolved@.take(i as int)),
                    ..old(self)@
                }),
            decreases resolved@.len() - i,
        {
            let ghost pre = self@.events;
            let (offset, c) = resolved[i];
            push_event(&mut self.out, XmlEvent::Start(ElemName::Stop));
            push_event(&mut self.out, XmlEvent::Attr(AttrName::Offset, scalar_to_dec(offset)));
            push_event(&mut self.out, XmlEvent::Attr(AttrName::StopColor, rgb_attr_value(&c)));
            push_event(
                &mut self.out,
                XmlEvent::Attr(AttrName::StopOpacity, opacity_attr_value(c.alpha)),
            );
            push_event(&mut self.out, XmlEvent::End);
            proof {
                lemma_stops_events_take(resolved@, i as int);
                assert(ev_seq(self.out@) =~= pre + stop_events(offset, c));
                assert(self@.events =~= old(self)@.events + stops_events(
                    resolved@.take(i as int + 1),
                ));
                assert(self@ =~= (PainterV {
                    events: old(self)@.events + stops_events(resolved@.take(i as int + 1)),
                    ..old(self)@
                }));
            }
            i = i + 1;
        }
        proof {
            assert(resolved@.take(resolved@.len() as int) =~= resolved@);
        }
    }

    /// Resolves a palette index and alpha factor against this
    /// interpreter's palette and foreground color; the reserved sentinel
    /// index selects the foreground.
    pub fn palette_index_to_color(&self, palette_index: u16, alpha: u16) -> (r: Option<Color>)
        requires
            alpha <= ALPHA_ONE,
        ensures
            r == resolve_color_spec(self@.palette, self.foreground_color, palette_index, alpha),
    {
        resolve_color(&self.palette, self.foreground_color, palette_index, alpha)
    }

    /// Resolves the color and emits one filled path over the recorded
    /// outline; a resolution failure or an empty buffer skips the step.
    fn paint_solid(&mut self, palette_index: u16, alpha: u16)
        requires
            old(self).wf(),
            alpha <= ALPHA_ONE,
        ensures
            final(self).wf(),
            final(self)@ == sp_solid(old(self)@, palette_index, alpha),
    {
        let c = match self.palette_index_to_color(palette_index, alpha) {
            None => {
                return ;
            },
            Some(c) => c,
        };
        if self.path_buf.as_str().is_empty() {
            return ;
        }
        let d = self.path_buf.clone();
        let ghost base = self@.events;
        let ghost ot = self.outline_transform;
        push_event(&mut self.out, XmlEvent::Start(ElemName::Path));
        push_event(&mut self.out, XmlEvent::Attr(AttrName::Fill, rgb_attr_value(&c)));
        push_event(
            &mut self.out,
            XmlEvent::Attr(AttrName::FillOpacity, opacity_attr_value(c.alpha)),
        );
        if !(self.outline_transform == Transform::identity()) {
            let m = matrix_attr_value(&self.outline_transform);
            push_event(&mut self.out, XmlEvent::Attr(AttrName::Transform, m));
        }
        push_event(&mut self.out, XmlEvent::Attr(AttrName::D, d));
        push_event(&mut self.out, XmlEvent::End);
        proof {
            let added = solid_events(c, ot, old(self)@.path_buf);
            assert(ev_seq(self.out@) =~= base + added);
            lemma_solid_events_facts(c, ot, old(self)@.path_buf);
            lemma_open_depth_add(base, added);
            lemma_ids_append_none(base, added, self.gradient_index as int,
                self.clip_path_index as int);
            assert(final(self)@ =~= sp_solid(old(self)@, palette_index, alpha));
        }
    }

    /// Emits the opening events of a linear gradient definition.
    fn emit_linear_head(
        &mut self,
        gid: &String,
        x0: i64,
        y0: i64,
        x1: i64,
        y1: i64,
        extend: ExtendMode,
        gt: &Transform,
    )
        ensures
            final(self).depth == old(self).depth,
            final(self)@ == (PainterV {
                events: old(self)@.events + linear_head_events(gid@, x0, y0, x1, y1)
                    + spread_events(extend) + transform_attr_events(
                    AttrName::GradientTransform,
                    *gt,
                ),
                ..old(self)@
            }),
    {
        push_event(&mut self.out, XmlEvent::Start(ElemName::LinearGradient));
        push_event(&mut self.out, XmlEvent::Attr(AttrName::Id, gid.clone()));
        push_event(&mut self.out, XmlEvent::Attr(AttrName::X1, scalar_to_dec(x0)));
        push_event(&mut self.out, XmlEvent::Attr(AttrName::Y1, scalar_to_dec(y0)));
        push_event(&mut self.out, XmlEvent::Attr(AttrName::X2, scalar_to_dec(x1)));
        push_event(&mut self.out, XmlEvent::Attr(AttrName::Y2, scalar_to_dec(y1)));
        push_event(
            &mut self.out,
            XmlEvent::Attr(AttrName::GradientUnits, String::from_str("userSpaceOnUse")),
        );
        self.emit_spread(extend);
        self.emit_gradient_transform(gt);
        proof {
            assert(final(self)@ =~= (PainterV {
                events: old(self)@.events + linear_head_events(gid@, x0, y0, x1, y1)
                    + spread_events(extend) + transform_attr_events(
                    AttrName::GradientTransform,
                    *gt,
                ),
                ..old(self)@
            }));
        }
    }

    /// Emits the spread-method attribute of an extend mode.
    fn emit_spread(&mut self, extend: ExtendMode)
        ensures
            final(self).depth == old(self).depth,
            final(self)@ == (PainterV {
                events: old(self)@.events + spread_events(extend),
                ..old(self)@
            }),
    {
        match extend {
            ExtendMode::Pad => push_event(
                &mut self.out,
                XmlEvent::Attr(AttrName::SpreadMethod, String::from_str("pad")),
            ),
            ExtendMode::Repeat => push_event(
                &mut self.out,
                XmlEvent::Attr(AttrName::SpreadMethod, String::from_str("repeat")),
            ),
            ExtendMode::Reflect => push_event(
                &mut self.out,
                XmlEvent::Attr(AttrName::SpreadMethod, String::from_str("reflect")),
            ),
            ExtendMode::Unknown => {},
        }
        proof {
            assert(final(self)@ =~= (PainterV {
                events: old(self)@.events + spread_events(extend),
                ..old(self)@
            }));
        }
    }

    /// Emits the gradient-transform attribute, skipping the identity.
    fn emit_gradient_transform(&mut self, gt: &Transform)
        ensures
            final(self).depth == old(self).depth,
            final(self)@ == (PainterV {
                events: old(self)@.events + transform_attr_events(
                    AttrName::GradientTransform,
                    *gt,
                ),
                ..old(self)@
            }),
    {
        if !(*gt == Transform::identity()) {
            let m = matrix_attr_value(gt);
            push_event(&mut self.out, XmlEvent::Attr(AttrName::GradientTransform, m));
        }
        proof {
            assert(final(self)@ =~= (PainterV {
                events: old(self)@.events + transform_attr_events(
                    AttrName::GradientTransform,
                    *gt,
                ),
                ..old(self)@
            }));
        }
    }

    /// Emits the path element referencing a gradient definition.
    fn emit_use_element(&mut self, gid: &String, d: String)
        ensures
            final(self).depth == old(self).depth,
            final(self)@ == (PainterV {
                events: old(self)@.events + use_events(
                    gid@,
                    old(self).outline_transform,
                    d@,
                ),
                ..old(self)@
            }),
    {
        push_event(&mut self.out, XmlEvent::Start(ElemName::Path));
        let u = url_ref_value(gid);
        push_event(&mut self.out, XmlEvent::Attr(AttrName::Fill, u));
        if !(self.outline_transform == Transform::identity()) {
            let m = matrix_attr_value(&self.outline_transform);
            push_event(&mut self.out, XmlEvent::Attr(AttrName::Transform, m));
        }
        push_event(&mut self.out, XmlEvent::Attr(AttrName::D, d));
        push_event(&mut self.out, XmlEvent::End);
        proof {
            assert(final(self)@ =~= (PainterV {
                events: old(self)@.events + use_events(
                    gid@,
                    old(self).outline_transform,
                    d@,
                ),
                ..old(self)@
            }));
        }
    }

    /// Emits a linear gradient definition under a fresh identifier and a
    /// path referencing it.
    #[verifier::rlimit(100)]
    fn paint_linear_gradient(
        &mut self,
        x0: i64,
        y0: i64,
        x1: i64,
        y1: i64,
        stops: &Vec<ColorStop>,
        extend: ExtendMode,
    )
        requires
            old(self).wf(),
            forall|i: int| 0 <= i < stops@.len() ==> (#[trigger] stops@[i]).alpha <= ALPHA_ONE,
        ensures
            final(self).wf(),
            final(self)@ == sp_linear(old(self)@, x0, y0, x1, y1, stops@, extend),
    {
        if self.path_buf.as_str().is_empty() {
            return ;
        }
        if self.gradient_index == u64::MAX {
            return ;
        }
        let resolved = match self.resolve_stops(stops) {
            None => {
                return ;
            },
            Some(v) => v,
        };
        let gi = self.gradient_index;
        let gid = grad_id_value(gi, false);
        let ghost gidc = grad_id_chars(gi as nat, false);
        self.gradient_index = gi + 1;
        let (gt, singular) = paint_transform(&self.outline_transform, &self.transform);
        let d = self.path_buf.clone();
        let ghost base = ev_seq(self.out@);
        let ghost ot = self.outline_transform;
        self.emit_linear_head(&gid, x0, y0, x1, y1, extend, &gt);
        self.write_gradient_stops(&resolved);
        push_event(&mut self.out, XmlEvent::End);
        proof {
            lemma_def_assemble(
                base,
                linear_head_events(gidc, x0, y0, x1, y1),
                spread_events(extend),
                transform_attr_events(AttrName::GradientTransform, gt),
                stops_events(resolved@),
            );
            let def = linear_def_events(gidc, x0, y0, x1, y1, extend, gt, resolved@);
            assert(ev_seq(self.out@) == base + def);
        }
        self.emit_use_element(&gid, d);
        if singular {
            self.diagnostics.push(Diagnostic::SingularGradientTransform);
        }
        proof {
            let def = linear_def_events(gidc, x0, y0, x1, y1, extend, gt, resolved@);
            let us = use_events(gidc, ot, old(self)@.path_buf);
            lemma_linear_def_facts(gidc, x0, y0, x1, y1, extend, gt, resolved@);
            lemma_use_events_facts(gidc, ot, old(self)@.path_buf);
            lemma_gradient_append_wf(base, def, us, gi as int,
                old(self).clip_path_index as int, gidc, false);
            assert(ev_seq(self.out@) == base + def + us);
            assert(final(self)@ =~= sp_linear(old(self)@, x0, y0, x1, y1, stops@, extend));
        }
    }

    /// Emits the opening events of a radial gradient definition.
    fn emit_radial_head(
        &mut self,
        gid: &String,
        cx0: i64,
        cy0: i64,
        r0: i64,
        cx1: i64,
        cy1: i64,
        r1: i64,
        extend: ExtendMode,
        gt: &Transform,
    )
        ensures
            final(self).depth == old(self).depth,
            final(self)@ == (PainterV {
                events: old(self)@.events + radial_head_events(gid@, cx0, cy0, r0, cx1, cy1, r1)
                    + spread_events(extend) + transform_attr_events(
                    AttrName::GradientTransform,
                    *gt,
                ),
                ..old(self)@
            }),
    {
        push_event(&mut self.out, XmlEvent::Start(ElemName::RadialGradient));
        push_event(&mut self.out, XmlEvent::Attr(AttrName::Id, gid.clone()));
        push_event(&mut self.out, XmlEvent::Attr(AttrName::Cx, scalar_to_dec(cx1)));
        push_event(&mut self.out, XmlEvent::Attr(AttrName::Cy, scalar_to_dec(cy1)));
        push_event(&mut self.out, XmlEvent::Attr(AttrName::R, scalar_to_dec(r1)));
        push_event(&mut self.out, XmlEvent::Attr(AttrName::Fr, scalar_to_dec(r0)));
        push_event(&mut self.out, XmlEvent::Attr(AttrName::Fx, scalar_to_dec(cx0)));
        push_event(&mut self.out, XmlEvent::Attr(AttrName::Fy, scalar_to_dec(cy0)));
        push_event(
            &mut self.out,
            XmlEvent::Attr(AttrName::GradientUnits, String::from_str("userSpaceOnUse")),
        );
        self.emit_spread(extend);
        self.emit_gradient_transform(gt);
        proof {
            assert(final(self)@ =~= (PainterV {
                events: old(self)@.events + radial_head_events(gid@, cx0, cy0, r0, cx1, cy1, r1)
                    + spread_events(extend) + transform_attr_events(
                    AttrName::GradientTransform,
                    *gt,
                ),
                ..old(self)@
            }));
        }
    }

    /// Emits a radial gradient definition under a fresh identifier and a
    /// path referencing it.
    #[verifier::rlimit(100)]
    fn paint_radial_gradient(
        &mut self,
        cx0: i64,
        cy0: i64,
        r0: i64,
        cx1: i64,
        cy1: i64,
        r1: i64,
        stops: &Vec<ColorStop>,
        extend: ExtendMode,
    )
        requires
            old(self).wf(),
            forall|i: int| 0 <= i < stops@.len() ==> (#[trigger] stops@[i]).alpha <= ALPHA_ONE,
        ensures
            final(self).wf(),
            final(self)@ == sp_radial(old(self)@, cx0, cy0, r0, cx1, cy1, r1, stops@, extend),
    {
        if self.path_buf.as_str().is_empty() {
            return ;
        }
        if self.gradient_index == u64::MAX {
            return ;
        }
        let resolved = match self.resolve_stops(stops) {
            None => {
                return ;
            },
            Some(v) => v,
        };
        let gi = self.gradient_index;
        let gid = grad_id_value(gi, true);
        let ghost gidc = grad_id_chars(gi as nat, true);
        self.gradient_index = gi + 1;
        let (gt, singular) = paint_transform(&self.outline_transform, &self.transform);
        let d = self.path_buf.clone();
        let ghost base = ev_seq(self.out@);
        let ghost ot = self.outline_transform;
        self.emit_radial_head(&gid, cx0, cy0, r0, cx1, cy1, r1, extend, &gt);
        self.write_gradient_stops(&resolved);
        push_event(&mut self.out, XmlEvent::End);
        proof {
            lemma_def_assemble(
                base,
                radial_head_events(gidc, cx0, cy0, r0, cx1, cy1, r1),
                spread_events(extend),
                transform_attr_events(AttrName::GradientTransform, gt),
                stops_events(resolved@),
            );
            let def = radial_def_events(gidc, cx0, cy0, r0, cx1, cy1, r1, extend, gt, resolved@);
            assert(ev_seq(self.out@) == base + def);
        }
        self.emit_use_element(&gid, d);
        if singular {
            self.diagnostics.push(Diagnostic::SingularGradientTransform);
        }
        proof {
            let def = radial_def_events(gidc, cx0, cy0, r0, cx1, cy1, r1, extend, gt, resolved@);
            let us = use_events(gidc, ot, old(self)@.path_buf);
            lemma_radial_def_facts(gidc, cx0, cy0, r0, cx1, cy1, r1, extend, gt, resolved@);
            lemma_use_events_facts(gidc, ot, old(self)@.path_buf);
            lemma_gradient_append_wf(base, def, us, gi as int,
                old(self).clip_path_index as int, gidc, true);
            assert(ev_seq(self.out@) == base + def + us);
            assert(final(self)@ =~= sp_radial(old(self)@, cx0, cy0, r0, cx1, cy1, r1, stops@,
                extend));
        }
    }

    /// Reports sweep gradients as unsupported; no shape is drawn.
    fn paint_sweep_gradient(&mut self)
        requires
            old(self).wf(),
        ensures
            final(self).wf(),
            final(self)@ == (PainterV {
                diagnostics: old(self)@.diagnostics.push(Diagnostic::UnsupportedSweepGradient),
                ..old(self)@
            }),
    {
        self.diagnostics.push(Diagnostic::UnsupportedSweepGradient);
        proof {
            assert(final(self)@ =~= (PainterV {
                diagnostics: old(self)@.diagnostics.push(Diagnostic::UnsupportedSweepGradient),
                ..old(self)@
            }));
        }
    }

    /// Dispatches a fill by brush kind.
    pub fn fill(&mut self, brush: &Brush)
        requires
            old(self).wf(),
            brush_wf(*brush),
        ensures
            final(self).wf(),
            final(self)@ == sp_fill(old(self)@, *brush),
    {
        match brush {
            Brush::Solid { palette_index, alpha } => {
                self.paint_solid(*palette_index, *alpha);
            },
            Brush::Linear { x0, y0, x1, y1, stops, extend } => {
                self.paint_linear_gradient(*x0, *y0, *x1, *y1, stops, *extend);
            },
            Brush::Radial { cx0, cy0, r0, cx1, cy1, r1, stops, extend } => {
                self.paint_radial_gradient(*cx0, *cy0, *r0, *cx1, *cy1, *r1, stops, *extend);
            },
            Brush::Sweep { .. } => {
                self.paint_sweep_gradient();
            },
        }
    }

    /// Opens a blend-mode layer group with layer isolation; unknown modes
    /// fall back to normal blending and report a diagnostic.
    pub fn push_layer(&mut self, mode: CompositeMode)
        requires
            old(self).wf(),
        ensures
            final(self).wf(),
            final(self)@ == sp_push_layer(old(self)@, mode),
    {
        let ghost base = ev_seq(self.out@);
        push_event(&mut self.out, XmlEvent::Start(ElemName::G));
        let sv = style_attr_value(&mode);
        push_event(&mut self.out, XmlEvent::Attr(AttrName::Style, sv));
        let n = self.out.len();
        proof {
            crate::xml::lemma_open_depth_le_len(base);
            let ev0 = XmlEventV::Start(ElemName::G);
            let ev1 = XmlEventV::Attr(AttrName::Style, style_chars(mode));
            lemma_seq2_facts(ev0, ev1);
            assert(layer_events(mode) =~= seq![ev0, ev1]);
            lemma_open_depth_add(base, layer_events(mode));
            assert(ev_seq(self.out@) =~= base + layer_events(mode));
            assert(base.len() == n - 2);
        }
        self.depth = self.depth + 1;
        match mode {
            CompositeMode::Unsupported => {
                self.diagnostics.push(Diagnostic::UnsupportedBlendMode);
            },
            _ => {},
        }
        proof {
            lemma_ids_append_none(base, layer_events(mode), self.gradient_index as int,
                self.clip_path_index as int);
            assert(final(self)@ =~= sp_push_layer(old(self)@, mode));
        }
    }
}

/// Law: pushing a transform and then popping restores the previously
/// active transform exactly, for any transform, and leaves the stack and
/// the emitted events as they were.
pub proof fn lemma_transform_round_trip(s: PainterV, t: Transform)
    ensures
        sp_pop_transform(sp_push_transform(s, t)).transform == s.transform,
        sp_pop_transform(sp_push_transform(s, t)).transforms_stack == s.transforms_stack,
        sp_pop_transform(sp_push_transform(s, t)) == (PainterV {
            transform: s.transform,
            transforms_stack: s.transforms_stack,
            ..s
        }),
{
    assert(s.transforms_stack.push(s.transform).drop_last() =~= s.transforms_stack);
    assert(sp_pop_transform(sp_push_transform(s, t)) =~= (PainterV {
        transform: s.transform,
        transforms_stack: s.transforms_stack,
        ..s
    }));
}

/// Law: after two nested transform pushes the active transform is the
/// composition of the second, the first, and the prior ambient transform,
/// in that order.
pub proof fn lemma_transform_nesting(s: PainterV, a: Transform, b: Transform)
    ensures
        sp_push_transform(sp_push_transform(s, a), b).transform == compose_spec(
            b,
            compose_spec(a, s.transform),
        ),
{
}

/// The state after opening one clip scope per clip box, left to right.
pub open spec fn apply_clip_pushes(s: PainterV, boxes: Seq<(i64, i64, i64, i64)>) -> PainterV
    decreases boxes.len(),
{
    if boxes.len() == 0 {
        s
    } else {
        apply_clip_pushes(
            sp_push_clip_box(
                s,
                boxes.first().0,
                boxes.first().1,
                boxes.first().2,
                boxes.first().3,
            ),
            boxes.drop_first(),
        )
    }
}

/// The state after closing `n` scopes.
pub open spec fn apply_pop_clips(s: PainterV, n: nat) -> PainterV
    decreases n,
{
    if n == 0 {
        s
    } else {
        apply_pop_clips(sp_close_scope(s), (n - 1) as nat)
    }
}

/// Each clip push deepens the output nesting by exactly one.
pub proof fn lemma_clip_pushes_depth(s: PainterV, boxes: Seq<(i64, i64, i64, i64)>)
    requires
        s.clip_path_index + boxes.len() <= u64::MAX as int,
    ensures
        open_depth(apply_clip_pushes(s, boxes).events) == open_depth(s.events) + boxes.len(),
        apply_clip_pushes(s, boxes).clip_path_index == s.clip_path_index + boxes.len(),
    decreases boxes.len(),
{
    if boxes.len() > 0 {
        let b = boxes.first();
        let s1 = sp_push_clip_box(s, b.0, b.1, b.2, b.3);
        let cid = clip_id_chars(s.clip_path_index as nat);
        let d = finished_path_text(box_path_commands(b.0, b.1, b.2, b.3));
        lemma_clip_events_facts(cid, s.outline_transform, d);
        lemma_open_depth_add(s.events, clip_events(cid, s.outline_transform, d));
        lemma_clip_pushes_depth(s1, boxes.drop_first());
    }
}

/// Each scope close shallows the output nesting by exactly one, while
/// scopes remain open.
pub proof fn lemma_pop_clips_depth(s: PainterV, n: nat)
    requires
        open_depth(s.events) >= n,
    ensures
        open_depth(apply_pop_clips(s, n).events) == open_depth(s.events) - n,
    decreases n,
{
    if n > 0 {
        lemma_depth_push(s.events, XmlEventV::End);
        lemma_pop_clips_depth(sp_close_scope(s), (n - 1) as nat);
    }
}

/// Law: a balanced run of clip pushes and pops returns the output nesting
/// depth to its prior value.
pub proof fn lemma_clip_stack_balance(s: PainterV, boxes: Seq<(i64, i64, i64, i64)>)
    requires
        open_depth(s.events) >= 0,
        s.clip_path_index + boxes.len() <= u64::MAX as int,
    ensures
        open_depth(apply_pop_clips(apply_clip_pushes(s, boxes), boxes.len()).events)
            == open_depth(s.events),
{
    lemma_clip_pushes_depth(s, boxes);
    lemma_pop_clips_depth(apply_clip_pushes(s, boxes), boxes.len());
}

/// Law: within one glyph translation no two generated identifiers —
/// gradient or clip path — collide.
pub proof fn lemma_identifier_uniqueness(p: &GlyphPainter, i: int, j: int)
    requires
        p.wf(),
        0 <= i < j < p@.events.len(),
        is_id_attr(p@.events[i]),
        is_id_attr(p@.events[j]),
    ensures
        id_val(p@.events[i]) != id_val(p@.events[j]),
{
}

/// Renders the style attribute of a blend-mode layer group.
pub fn style_attr_value(m: &CompositeMode) -> (r: String)
    ensures
        r@ == style_chars(*m),
{
    let mut s = String::from_str("mix-blend-mode: ");
    s.append(blend_keyword_value(m));
    s.append("; isolation: isolate");
    proof {
        assert(s@ =~= style_chars(*m));
    }
    s
}

} // verus!
