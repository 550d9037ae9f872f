//! Behavior of the paint command interpreter and its supporting pieces.

use glyph_flatten::color::{combine_alpha, resolve_color, Color, ALPHA_ONE, FOREGROUND_INDEX};
use glyph_flatten::num::{scalar_to_dec, u64_to_dec};
use glyph_flatten::painter::{
    paint_transform, Brush, ColorStop, CompositeMode, Diagnostic, ExtendMode, GlyphPainter,
};
use glyph_flatten::path::{Builder, PathCommand};
use glyph_flatten::transform::{matrix_attr_value, Transform};
use glyph_flatten::xml::{AttrName, ElemName, XmlEvent};

fn rgb(r: u8, g: u8, b: u8) -> Color {
    Color { red: r, green: g, blue: b, alpha: 255 }
}

fn square() -> Vec<PathCommand> {
    vec![
        PathCommand::MoveTo(0, 0),
        PathCommand::LineTo(10000, 0),
        PathCommand::LineTo(10000, 10000),
        PathCommand::LineTo(0, 10000),
        PathCommand::Close,
    ]
}

fn id_values(events: &[XmlEvent]) -> Vec<String> {
    let mut out = Vec::new();
    for e in events {
        if let XmlEvent::Attr(AttrName::Id, v) = e {
            out.push(v.clone());
        }
    }
    out
}

fn attr_value<'a>(events: &'a [XmlEvent], name: AttrName) -> Option<&'a str> {
    for e in events {
        if let XmlEvent::Attr(n, v) = e {
            if *n == name {
                return Some(v.as_str());
            }
        }
    }
    None
}

#[test]
fn decimal_rendering() {
    assert_eq!(u64_to_dec(0).as_str(), "0");
    assert_eq!(u64_to_dec(907).as_str(), "907");
    assert_eq!(scalar_to_dec(15000).as_str(), "1.5");
    assert_eq!(scalar_to_dec(-2500).as_str(), "-0.25");
    assert_eq!(scalar_to_dec(120000).as_str(), "12");
    assert_eq!(scalar_to_dec(10001).as_str(), "1.0001");
    assert_eq!(scalar_to_dec(0).as_str(), "0");
}

#[test]
fn matrix_rendering() {
    let t = Transform { xx: 10000, yx: 0, xy: 0, yy: 10000, dx: 55000, dy: -5000 };
    assert_eq!(matrix_attr_value(&t).as_str(), "matrix(1 0 0 1 5.5 -0.5)");
}

#[test]
fn alpha_combination_truncates() {
    // 255 * 0.5 = 127.5 truncates to 127, never rounds up.
    assert_eq!(combine_alpha(255, 5000), 127);
    assert_eq!(combine_alpha(200, 0), 0);
    assert_eq!(combine_alpha(200, ALPHA_ONE), 200);
}

#[test]
fn alpha_monotone_samples() {
    let mut prev = 0;
    for f in [0u16, 1, 2500, 5000, 7500, 9999, 10000] {
        let a = combine_alpha(173, f);
        assert!(a >= prev);
        prev = a;
    }
    assert_eq!(combine_alpha(173, ALPHA_ONE), 173);
}

#[test]
fn palette_resolution() {
    let palette = Some(vec![rgb(1, 2, 3), rgb(4, 5, 6)]);
    let fg = rgb(9, 9, 9);
    let c = resolve_color(&palette, fg, 1, ALPHA_ONE).unwrap();
    assert_eq!((c.red, c.green, c.blue, c.alpha), (4, 5, 6, 255));
    // The sentinel index selects the foreground color.
    let c = resolve_color(&palette, fg, FOREGROUND_INDEX, ALPHA_ONE).unwrap();
    assert_eq!((c.red, c.green, c.blue), (9, 9, 9));
    // An out-of-range index is a resolution failure, not an error.
    assert!(resolve_color(&palette, fg, 7, ALPHA_ONE).is_none());
    // A missing palette fails every non-sentinel lookup.
    assert!(resolve_color(&None, fg, 0, ALPHA_ONE).is_none());
    assert!(resolve_color(&None, fg, FOREGROUND_INDEX, ALPHA_ONE).is_some());
    // The interpreter resolves against its own palette and foreground.
    let p = GlyphPainter::new(fg, Some(vec![rgb(1, 2, 3)]));
    let c = p.palette_index_to_color(0, 5000).unwrap();
    assert_eq!((c.red, c.alpha), (1, 127));
}

#[test]
fn pen_records_and_trims() {
    let mut b = Builder::new();
    b.move_to(10000, 20000);
    b.line_to(-5000, 0);
    b.quad_to(0, 0, 10000, 10000);
    b.curve_to(0, 0, 5000, 5000, 10000, 0);
    b.close();
    b.finish();
    assert_eq!(
        b.buf.as_str(),
        "M 1 2 L -0.5 0 Q 0 0 1 1 C 0 0 0.5 0.5 1 0 Z"
    );
}

#[test]
fn pen_finish_on_empty_buffer() {
    let mut b = Builder::new();
    b.finish();
    assert_eq!(b.buf.as_str(), "");
}

#[test]
fn transform_round_trip() {
    let mut p = GlyphPainter::new(rgb(0, 0, 0), None);
    let before = p.transform;
    let t = Transform::from_entries(20000, 0, 0, 20000, 30000, 40000);
    p.push_transform(&t);
    assert!(p.transform != before);
    p.pop_transform();
    assert_eq!(p.transform, before);
}

#[test]
fn pop_transform_on_exhausted_stack_is_noop() {
    let mut p = GlyphPainter::new(rgb(0, 0, 0), None);
    // The fresh stack holds one identity entry; pop it and keep popping.
    p.pop_transform();
    let t = p.transform;
    p.pop_transform();
    p.pop_transform();
    assert_eq!(p.transform, t);
}

#[test]
fn clip_stack_balance() {
    let mut p = GlyphPainter::new(rgb(0, 0, 0), None);
    let d0 = p.depth;
    p.push_clip_box(0, 0, 10000, 10000);
    p.push_clip_box(0, 0, 5000, 5000);
    assert_eq!(p.depth, d0 + 2);
    p.pop_clip();
    p.pop_clip();
    assert_eq!(p.depth, d0);
    // Popping past the base depth is a silent no-op.
    p.pop_clip();
    assert_eq!(p.depth, d0);
}

#[test]
fn clip_box_path_shape() {
    let mut p = GlyphPainter::new(rgb(0, 0, 0), None);
    p.push_clip_box(0, 0, 10000, 20000);
    let d = attr_value(&p.out, AttrName::D).unwrap();
    assert_eq!(d, "M 0 0 L 1 0 L 1 2 L 0 2 Z");
}

#[test]
fn identifier_uniqueness() {
    let mut p = GlyphPainter::new(rgb(0, 0, 0), None);
    p.push_clip_glyph(Some(&square()));
    let stops = vec![ColorStop { offset: 0, palette_index: FOREGROUND_INDEX, alpha: ALPHA_ONE }];
    p.fill(&Brush::Linear { x0: 0, y0: 0, x1: 10000, y1: 0, stops: stops.clone(), extend: ExtendMode::Pad });
    p.fill(&Brush::Radial {
        cx0: 0,
        cy0: 0,
        r0: 0,
        cx1: 0,
        cy1: 0,
        r1: 10000,
        stops,
        extend: ExtendMode::Pad,
    });
    p.push_clip_box(0, 0, 10000, 10000);
    let ids = id_values(&p.out);
    assert_eq!(ids, vec!["cp1".to_string(), "lg1".to_string(), "rg2".to_string(), "cp2".to_string()]);
    for a in 0..ids.len() {
        for b in (a + 1)..ids.len() {
            assert_ne!(ids[a], ids[b]);
        }
    }
}

#[test]
fn solid_fill_uses_foreground() {
    // The scenario: a solid fill at the sentinel index with factor 1.0
    // over a known outline yields one filled path in the foreground color
    // at full opacity.
    let mut p = GlyphPainter::new(rgb(10, 20, 30), None);
    p.push_clip_glyph(Some(&square()));
    let before = p.out.len();
    p.fill(&Brush::Solid { palette_index: FOREGROUND_INDEX, alpha: ALPHA_ONE });
    let emitted = &p.out[before..];
    assert_eq!(emitted[0], XmlEvent::Start(ElemName::Path));
    assert_eq!(attr_value(emitted, AttrName::Fill).unwrap(), "rgb(10, 20, 30)");
    assert_eq!(attr_value(emitted, AttrName::FillOpacity).unwrap(), "1");
    assert_eq!(attr_value(emitted, AttrName::D).unwrap(), "M 0 0 L 1 0 L 1 1 L 0 1 Z");
}

#[test]
fn solid_fill_skips_on_missing_palette_entry() {
    let mut p = GlyphPainter::new(rgb(0, 0, 0), None);
    p.push_clip_glyph(Some(&square()));
    let before = p.out.len();
    p.fill(&Brush::Solid { palette_index: 3, alpha: ALPHA_ONE });
    assert_eq!(p.out.len(), before);
}

#[test]
fn fill_without_recorded_outline_is_skipped() {
    let mut p = GlyphPainter::new(rgb(1, 2, 3), None);
    let before = p.out.len();
    p.fill(&Brush::Solid { palette_index: FOREGROUND_INDEX, alpha: ALPHA_ONE });
    assert_eq!(p.out.len(), before);
}

#[test]
fn layered_transform_composition() {
    // The scenario: two nested transform pushes compose with the ambient
    // transform; the recorded outline transform maps a test point through
    // the full composition.
    let mut p = GlyphPainter::new(rgb(10, 20, 30), None);
    let a = Transform::from_entries(20000, 0, 0, 20000, 0, 0);
    let b = Transform::from_entries(10000, 0, 0, 10000, 30000, 0);
    p.push_transform(&a);
    p.push_transform(&b);
    p.push_clip_glyph(Some(&square()));
    let before = p.out.len();
    p.fill(&Brush::Solid { palette_index: FOREGROUND_INDEX, alpha: ALPHA_ONE });
    let emitted = &p.out[before..];
    // Effective transform composes b over a over the identity ambient:
    // the scale by 2 applies first, then the translation by 3.
    assert_eq!(
        attr_value(emitted, AttrName::Transform).unwrap(),
        "matrix(2 0 0 2 3 0)"
    );
    let (x, y) = p.outline_transform.apply(10000, 0);
    assert_eq!((x, y), (50000, 0));
}

#[test]
fn linear_gradient_emission() {
    let mut p = GlyphPainter::new(rgb(0, 0, 0), None);
    p.push_clip_glyph(Some(&square()));
    let stops = vec![
        ColorStop { offset: 0, palette_index: FOREGROUND_INDEX, alpha: ALPHA_ONE },
        ColorStop { offset: 10000, palette_index: FOREGROUND_INDEX, alpha: 5000 },
    ];
    let before = p.out.len();
    p.fill(&Brush::Linear { x0: 0, y0: 0, x1: 10000, y1: 20000, stops, extend: ExtendMode::Reflect });
    let emitted = &p.out[before..];
    assert_eq!(emitted[0], XmlEvent::Start(ElemName::LinearGradient));
    assert_eq!(attr_value(emitted, AttrName::Id).unwrap(), "lg1");
    assert_eq!(attr_value(emitted, AttrName::X2).unwrap(), "1");
    assert_eq!(attr_value(emitted, AttrName::Y2).unwrap(), "2");
    assert_eq!(attr_value(emitted, AttrName::SpreadMethod).unwrap(), "reflect");
    assert_eq!(attr_value(emitted, AttrName::Fill).unwrap(), "url(#lg1)");
    // Two stops, each with offset, color and opacity.
    let stop_count = emitted
        .iter()
        .filter(|e| matches!(e, XmlEvent::Start(ElemName::Stop)))
        .count();
    assert_eq!(stop_count, 2);
    assert_eq!(p.gradient_index, 2);
}

#[test]
fn gradient_with_failing_stop_is_skipped() {
    let mut p = GlyphPainter::new(rgb(0, 0, 0), None);
    p.push_clip_glyph(Some(&square()));
    let stops = vec![ColorStop { offset: 0, palette_index: 5, alpha: ALPHA_ONE }];
    let before = p.out.len();
    p.fill(&Brush::Linear { x0: 0, y0: 0, x1: 10000, y1: 0, stops, extend: ExtendMode::Pad });
    assert_eq!(p.out.len(), before);
    assert_eq!(p.gradient_index, 1);
}

#[test]
fn sweep_gradient_unsupported() {
    let mut p = GlyphPainter::new(rgb(0, 0, 0), None);
    p.push_clip_glyph(Some(&square()));
    let before = p.out.len();
    p.fill(&Brush::Sweep {
        cx: 0,
        cy: 0,
        start_angle: 0,
        end_angle: 3600000,
        stops: vec![],
        extend: ExtendMode::Pad,
    });
    assert_eq!(p.out.len(), before);
    assert_eq!(p.diagnostics, vec![Diagnostic::UnsupportedSweepGradient]);
}

#[test]
fn singular_gradient_transform_degrades() {
    let mut p = GlyphPainter::new(rgb(0, 0, 0), None);
    // A degenerate transform collapses the outline space.
    let z = Transform::from_entries(0, 0, 0, 0, 0, 0);
    p.push_transform(&z);
    p.push_clip_glyph(Some(&square()));
    let stops = vec![ColorStop { offset: 0, palette_index: FOREGROUND_INDEX, alpha: ALPHA_ONE }];
    p.fill(&Brush::Linear { x0: 0, y0: 0, x1: 10000, y1: 0, stops, extend: ExtendMode::Pad });
    assert!(p.diagnostics.contains(&Diagnostic::SingularGradientTransform));
    // The shape is still drawn: degradation never aborts the glyph.
    assert!(p.out.iter().any(|e| matches!(e, XmlEvent::Start(ElemName::LinearGradient))));
}

#[test]
fn gradient_delta_between_spaces() {
    let outline = Transform::from_entries(20000, 0, 0, 20000, 0, 0);
    let paint = Transform::from_entries(20000, 0, 0, 20000, 40000, 0);
    let (delta, singular) = paint_transform(&outline, &paint);
    assert!(!singular);
    // outline^-1 * paint: the scale cancels, the translation halves.
    assert_eq!(delta, Transform { xx: 10000, yx: 0, xy: 0, yy: 10000, dx: 20000, dy: 0 });
    let zero = Transform::from_entries(0, 0, 0, 0, 0, 0);
    let (fallback, singular) = paint_transform(&zero, &paint);
    assert!(singular);
    assert_eq!(fallback, paint);
}

#[test]
fn blend_mode_layers() {
    let mut p = GlyphPainter::new(rgb(0, 0, 0), None);
    let d0 = p.depth;
    p.push_layer(CompositeMode::Screen);
    assert_eq!(p.depth, d0 + 1);
    match &p.out[p.out.len() - 1] {
        XmlEvent::Attr(AttrName::Style, v) => {
            assert_eq!(v.as_str(), "mix-blend-mode: screen; isolation: isolate");
        },
        other => panic!("unexpected event {:?}", other),
    }
    p.pop_layer();
    assert_eq!(p.depth, d0);
    assert!(p.diagnostics.is_empty());
}

#[test]
fn unknown_blend_mode_falls_back_to_normal() {
    let mut p = GlyphPainter::new(rgb(0, 0, 0), None);
    p.push_layer(CompositeMode::Unsupported);
    match &p.out[p.out.len() - 1] {
        XmlEvent::Attr(AttrName::Style, v) => {
            assert_eq!(v.as_str(), "mix-blend-mode: normal; isolation: isolate");
        },
        other => panic!("unexpected event {:?}", other),
    }
    assert_eq!(p.diagnostics, vec![Diagnostic::UnsupportedBlendMode]);
}

#[test]
fn missing_clip_glyph_outline_only_clears_buffer() {
    let mut p = GlyphPainter::new(rgb(0, 0, 0), None);
    p.push_clip_glyph(Some(&square()));
    assert!(!p.path_buf.is_empty());
    let events = p.out.len();
    p.push_clip_glyph(None);
    assert!(p.path_buf.is_empty());
    assert_eq!(p.out.len(), events);
}
