//! Typed markup events.
//!
//! The interpreter emits nested markup as a flat sequence of typed events:
//! element starts, attributes of the most recently started element, and
//! element ends. Nesting order in emission is load-bearing — it realizes
//! painter's-algorithm stacking — so contracts speak of the exact event
//! sequence. A host serializes events as XML text.

use vstd::prelude::*;
use vstd::string::StringExecFns;
use crate::num::{dec_digits, u64_to_dec};

verus! {

/// An element name used by the emitted markup.
#[derive(Clone, Copy, PartialEq, Eq, Structural, Debug)]
pub enum ElemName {
    G,
    Path,
    LinearGradient,
    RadialGradient,
    ClipPath,
    Stop,
}

/// An attribute name used by the emitted markup.
#[derive(Clone, Copy, PartialEq, Eq, Structural, Debug)]
pub enum AttrName {
    Id,
    Fill,
    FillOpacity,
    Transform,
    GradientTransform,
    D,
    Offset,
    StopColor,
    StopOpacity,
    X1,
    Y1,
    X2,
    Y2,
    Cx,
    Cy,
    R,
    Fr,
    Fx,
    Fy,
    GradientUnits,
    SpreadMethod,
    ClipPath,
    Style,
}

/// One markup event.
#[derive(Debug, PartialEq)]
pub enum XmlEvent {
    Start(ElemName),
    Attr(AttrName, String),
    End,
}

/// The mathematical value of one markup event.
pub enum XmlEventV {
    Start(ElemName),
    Attr(AttrName, Seq<char>),
    End,
}

impl View for XmlEvent {
    type V = XmlEventV;

    open spec fn view(&self) -> XmlEventV {
        match self {
            XmlEvent::Start(n) => XmlEventV::Start(*n),
            XmlEvent::Attr(n, v) => XmlEventV::Attr(*n, v@),
            XmlEvent::End => XmlEventV::End,
        }
    }
}

/// The values of a sequence of markup events.
pub open spec fn ev_seq(s: Seq<XmlEvent>) -> Seq<XmlEventV> {
    s.map_values(|e: XmlEvent| e@)
}

/// How one event changes the nesting depth.
pub open spec fn depth_delta(e: XmlEventV) -> int {
    match e {
        XmlEventV::Start(_) => 1,
        XmlEventV::Attr(_, _) => 0,
        XmlEventV::End => -1,
    }
}

/// Number of started elements not yet ended.
pub open spec fn open_depth(s: Seq<XmlEventV>) -> int
    decreases s.len(),
{
    if s.len() == 0 {
        0
    } else {
        open_depth(s.drop_last()) + depth_delta(s.last())
    }
}

/// Nesting depth adds over concatenation.
pub proof fn lemma_open_depth_add(a: Seq<XmlEventV>, b: Seq<XmlEventV>)
    ensures
        open_depth(a + b) == open_depth(a) + open_depth(b),
    decreases b.len(),
{
    if b.len() == 0 {
        assert(a + b =~= a);
    } else {
        assert((a + b).drop_last() =~= a + b.drop_last());
        assert((a + b).last() == b.last());
        lemma_open_depth_add(a, b.drop_last());
    }
}

/// Nesting depth never exceeds the number of events.
pub proof fn lemma_open_depth_le_len(s: Seq<XmlEventV>)
    ensures
        open_depth(s) <= s.len(),
    decreases s.len(),
{
    if s.len() > 0 {
        lemma_open_depth_le_len(s.drop_last());
    }
}

/// Appends one event; the event values extend accordingly.
pub fn push_event(out: &mut Vec<XmlEvent>, e: XmlEvent)
    ensures
        final(out)@ == old(out)@.push(e),
        ev_seq(final(out)@) == ev_seq(old(out)@).push(e@),
{
    let ghost v = e@;
    out.push(e);
    proof {
        assert(ev_seq(out@) =~= ev_seq(old(out)@).push(v));
    }
}

/// The name an element renders as.
pub open spec fn elem_name_chars(n: ElemName) -> Seq<char> {
    match n {
        ElemName::G => "g"@,
        ElemName::Path => "path"@,
        ElemName::LinearGradient => "linearGradient"@,
        ElemName::RadialGradient => "radialGradient"@,
        ElemName::ClipPath => "clipPath"@,
        ElemName::Stop => "stop"@,
    }
}

/// The name an attribute renders as.
pub open spec fn attr_name_chars(n: AttrName) -> Seq<char> {
    match n {
        AttrName::Id => "id"@,
        AttrName::Fill => "fill"@,
        AttrName::FillOpacity => "fill-opacity"@,
        AttrName::Transform => "transform"@,
        AttrName::GradientTransform => "gradientTransform"@,
        AttrName::D => "d"@,
        AttrName::Offset => "offset"@,
        AttrName::StopColor => "stop-color"@,
        AttrName::StopOpacity => "stop-opacity"@,
        AttrName::X1 => "x1"@,
        AttrName::Y1 => "y1"@,
        AttrName::X2 => "x2"@,
        AttrName::Y2 => "y2"@,
        AttrName::Cx => "cx"@,
        AttrName::Cy => "cy"@,
        AttrName::R => "r"@,
        AttrName::Fr => "fr"@,
        AttrName::Fx => "fx"@,
        AttrName::Fy => "fy"@,
        AttrName::GradientUnits => "gradientUnits"@,
        AttrName::SpreadMethod => "spreadMethod"@,
        AttrName::ClipPath => "clip-path"@,
        AttrName::Style => "style"@,
    }
}

/// Renders an element name.
pub fn elem_name_value(n: &ElemName) -> (r: &'static str)
    ensures
        r@ == elem_name_chars(*n),
{
    match n {
        ElemName::G => "g",
        ElemName::Path => "path",
        ElemName::LinearGradient => "linearGradient",
        ElemName::RadialGradient => "radialGradient",
        ElemName::ClipPath => "clipPath",
        ElemName::Stop => "stop",
    }
}

/// Renders an attribute name.
pub fn attr_name_value(n: &AttrName) -> (r: &'static str)
    ensures
        r@ == attr_name_chars(*n),
{
    match n {
        AttrName::Id => "id",
        AttrName::Fill => "fill",
        AttrName::FillOpacity => "fill-opacity",
        AttrName::Transform => "transform",
        AttrName::GradientTransform => "gradientTransform",
        AttrName::D => "d",
        AttrName::Offset => "offset",
        AttrName::StopColor => "stop-color",
        AttrName::StopOpacity => "stop-opacity",
        AttrName::X1 => "x1",
        AttrName::Y1 => "y1",
        AttrName::X2 => "x2",
        AttrName::Y2 => "y2",
        AttrName::Cx => "cx",
        AttrName::Cy => "cy",
        AttrName::R => "r",
        AttrName::Fr => "fr",
        AttrName::Fx => "fx",
        AttrName::Fy => "fy",
        AttrName::GradientUnits => "gradientUnits",
        AttrName::SpreadMethod => "spreadMethod",
        AttrName::ClipPath => "clip-path",
        AttrName::Style => "style",
    }
}

/// The generated identifier of the `k`-th gradient definition; linear and
/// radial gradients share one counter but carry distinct prefixes.
pub open spec fn grad_id_chars(k: nat, radial: bool) -> Seq<char> {
    (if radial {
        "rg"@
    } else {
        "lg"@
    }) + dec_digits(k)
}

/// The generated identifier of the `k`-th clip path definition.
pub open spec fn clip_id_chars(k: nat) -> Seq<char> {
    "cp"@ + dec_digits(k)
}

/// A reference to a generated identifier.
pub open spec fn url_ref_chars(id: Seq<char>) -> Seq<char> {
    "url(#"@ + id + ")"@
}

/// Renders the `k`-th gradient identifier.
pub fn grad_id_value(k: u64, radial: bool) -> (r: String)
    ensures
        r@ == grad_id_chars(k as nat, radial),
{
    let mut s = if radial {
        String::from_str("rg")
    } else {
        String::from_str("lg")
    };
    s.append(u64_to_dec(k).as_str());
    s
}

/// Renders the `k`-th clip path identifier.
pub fn clip_id_value(k: u64) -> (r: String)
    ensures
        r@ == clip_id_chars(k as nat),
{
    let mut s = String::from_str("cp");
    s.append(u64_to_dec(k).as_str());
    s
}

/// Renders a reference to a generated identifier.
pub fn url_ref_value(id: &String) -> (r: String)
    ensures
        r@ == url_ref_chars(id@),
{
    let mut s = String::from_str("url(#");
    s.append(id.as_str());
    s.append(")");
    proof {
        assert(s@ =~= url_ref_chars(id@));
    }
    s
}

/// Distinct gradient counters give distinct gradient identifiers, whatever
/// their prefixes.
pub proof fn lemma_grad_id_injective(k1: nat, r1: bool, k2: nat, r2: bool)
    requires
        grad_id_chars(k1, r1) == grad_id_chars(k2, r2),
    ensures
        k1 == k2,
{
    reveal_strlit("lg");
    reveal_strlit("rg");
    let p1 = if r1 {
        "rg"@
    } else {
        "lg"@
    };
    let p2 = if r2 {
        "rg"@
    } else {
        "lg"@
    };
    let s1 = grad_id_chars(k1, r1);
    let s2 = grad_id_chars(k2, r2);
    assert(dec_digits(k1) =~= s1.subrange(2, s1.len() as int));
    assert(dec_digits(k2) =~= s2.subrange(2, s2.len() as int));
    crate::num::lemma_dec_digits_injective(k1, k2);
}

/// A gradient identifier never equals a clip path identifier.
pub proof fn lemma_grad_ne_clip(k1: nat, r1: bool, k2: nat)
    ensures
        grad_id_chars(k1, r1) != clip_id_chars(k2),
{
    reveal_strlit("lg");
    reveal_strlit("rg");
    reveal_strlit("cp");
    if grad_id_chars(k1, r1) == clip_id_chars(k2) {
        assert(grad_id_chars(k1, r1)[0] == clip_id_chars(k2)[0]);
        assert(false);
    }
}

/// Distinct clip counters give distinct clip path identifiers.
pub proof fn lemma_clip_id_injective(k1: nat, k2: nat)
    requires
        clip_id_chars(k1) == clip_id_chars(k2),
    ensures
        k1 == k2,
{
    reveal_strlit("cp");
    let s1 = clip_id_chars(k1);
    let s2 = clip_id_chars(k2);
    assert(dec_digits(k1) =~= s1.subrange(2, s1.len() as int));
    assert(dec_digits(k2) =~= s2.subrange(2, s2.len() as int));
    crate::num::lemma_dec_digits_injective(k1, k2);
}

} // verus!
