//! Behavior of the glyph resolution and flattening pipeline.

use glyph_flatten::doc::{Fill, Fragment, Image, Node, PaintOrder, Path, Rect, ShapeRendering,
    Stroke};
use glyph_flatten::color::Color;
use glyph_flatten::flatten::{embedded_vector_node_id, flatten, resolve_rendering_mode,
    BitmapImage, PositionedGlyph, Span, Text, TextRendering};
use glyph_flatten::path::PathCommand;
use glyph_flatten::transform::Transform;
use glyph_flatten::xml::{ElemName, XmlEvent};

fn black_fill() -> Option<Fill> {
    Some(Fill { color: Color { red: 0, green: 0, blue: 0, alpha: 255 }, opacity: 10000 })
}

fn bare_glyph(id: u16) -> PositionedGlyph {
    PositionedGlyph {
        id,
        colr: None,
        svg: None,
        raster: None,
        outline: None,
        colr_ts: Transform::identity(),
        svg_ts: Transform::identity(),
        outline_ts: Transform::identity(),
    }
}

fn outline_glyph(id: u16) -> PositionedGlyph {
    let mut g = bare_glyph(id);
    g.outline = Some(vec![
        PathCommand::MoveTo(0, 0),
        PathCommand::LineTo(10000, 0),
        PathCommand::LineTo(10000, 10000),
        PathCommand::Close,
    ]);
    g
}

fn colr_glyph(id: u16) -> PositionedGlyph {
    let mut g = bare_glyph(id);
    g.colr = Some(Fragment {
        events: vec![XmlEvent::Start(ElemName::G), XmlEvent::End],
        bbox: Some(Rect { x0: 0, y0: 0, x1: 10000, y1: 10000 }),
    });
    g
}

fn raster_glyph(id: u16, is_sbix: bool) -> PositionedGlyph {
    let mut g = bare_glyph(id);
    g.raster = Some(BitmapImage {
        image: Image {
            id: String::new(),
            visible: true,
            width: 640000,
            height: 640000,
            png: vec![0x89, 0x50, 0x4e, 0x47],
        },
        is_sbix,
        sbix_ts: Transform::from_entries(10000, 0, 0, 10000, 10000, 0),
        cbdt_ts: Transform::from_entries(10000, 0, 0, 10000, 20000, 0),
    });
    g
}

fn span_of(glyphs: Vec<PositionedGlyph>) -> Span {
    Span {
        visible: true,
        fill: black_fill(),
        stroke: None,
        paint_order: PaintOrder::FillAndStroke,
        overline: None,
        underline: None,
        line_through: None,
        positioned_glyphs: glyphs,
    }
}

fn text_of(spans: Vec<Span>) -> Text {
    Text { id: String::from("t"), rendering_mode: TextRendering::GeometricPrecision, layouted: spans }
}

fn count_paths(children: &[Node]) -> usize {
    children.iter().filter(|n| matches!(n, Node::Path(_))).count()
}

fn count_groups(children: &[Node]) -> usize {
    children.iter().filter(|n| matches!(n, Node::Group(_))).count()
}

#[test]
fn rendering_mode_mapping() {
    let mut t = text_of(vec![]);
    t.rendering_mode = TextRendering::OptimizeSpeed;
    assert_eq!(resolve_rendering_mode(&t), ShapeRendering::CrispEdges);
    t.rendering_mode = TextRendering::OptimizeLegibility;
    assert_eq!(resolve_rendering_mode(&t), ShapeRendering::GeometricPrecision);
    t.rendering_mode = TextRendering::GeometricPrecision;
    assert_eq!(resolve_rendering_mode(&t), ShapeRendering::GeometricPrecision);
}

#[test]
fn consecutive_outline_glyphs_batch_into_one_path() {
    let text = text_of(vec![span_of(vec![
        outline_glyph(1),
        outline_glyph(2),
        outline_glyph(3),
        outline_glyph(4),
    ])]);
    let (group, bbox) = flatten(&text);
    assert_eq!(group.children.len(), 1);
    assert_eq!(count_paths(&group.children), 1);
    match &group.children[0] {
        Node::Path(p) => {
            // Four glyphs of four commands each merged into one path.
            assert_eq!(p.data.len(), 16);
            assert_eq!(p.fill, black_fill());
            assert_eq!(p.rendering_mode, ShapeRendering::GeometricPrecision);
        },
        other => panic!("unexpected node {:?}", other),
    }
    assert!(bbox.is_some());
}

#[test]
fn alternating_glyphs_batch_per_maximal_run() {
    // outline, outline, colr, outline: two maximal outline runs.
    let text = text_of(vec![span_of(vec![
        outline_glyph(1),
        outline_glyph(2),
        colr_glyph(3),
        outline_glyph(4),
    ])]);
    let (group, _) = flatten(&text);
    assert_eq!(group.children.len(), 3);
    assert_eq!(count_paths(&group.children), 2);
    assert_eq!(count_groups(&group.children), 1);
    // The flush precedes the color-layer group.
    assert!(matches!(group.children[0], Node::Path(_)));
    assert!(matches!(group.children[1], Node::Group(_)));
    assert!(matches!(group.children[2], Node::Path(_)));
}

#[test]
fn color_layers_win_over_outlines() {
    // A glyph resolvable both ways resolves to the color-layer tree.
    let mut g = outline_glyph(1);
    g.colr = colr_glyph(1).colr;
    let text = text_of(vec![span_of(vec![g])]);
    let (group, _) = flatten(&text);
    assert_eq!(group.children.len(), 1);
    match &group.children[0] {
        Node::Group(gr) => {
            assert_eq!(gr.children.len(), 1);
            assert!(matches!(gr.children[0], Node::Fragment(_)));
        },
        other => panic!("unexpected node {:?}", other),
    }
}

#[test]
fn raster_placement_follows_table_flag() {
    let text = text_of(vec![span_of(vec![raster_glyph(1, true), raster_glyph(2, false)])]);
    let (group, _) = flatten(&text);
    assert_eq!(group.children.len(), 2);
    match (&group.children[0], &group.children[1]) {
        (Node::Group(a), Node::Group(b)) => {
            assert_eq!(a.transform.dx, 10000);
            assert_eq!(b.transform.dx, 20000);
            assert!(matches!(a.children[0], Node::Image(_)));
        },
        other => panic!("unexpected nodes {:?}", other),
    }
}

#[test]
fn unresolvable_glyphs_produce_nothing() {
    let text = text_of(vec![span_of(vec![bare_glyph(1), bare_glyph(2)])]);
    let (group, bbox) = flatten(&text);
    assert_eq!(group.children.len(), 0);
    assert!(bbox.is_none());
}

#[test]
fn decorations_frame_glyph_content() {
    let deco = |name: &str| Path {
        id: String::from(name),
        visible: true,
        fill: black_fill(),
        stroke: None,
        paint_order: PaintOrder::FillAndStroke,
        rendering_mode: ShapeRendering::OptimizeSpeed,
        data: vec![PathCommand::MoveTo(0, 0), PathCommand::LineTo(10000, 0)],
        transform: Transform::identity(),
    };
    let mut span = span_of(vec![outline_glyph(1)]);
    span.overline = Some(deco("over"));
    span.underline = Some(deco("under"));
    span.line_through = Some(deco("through"));
    let text = text_of(vec![span]);
    let (group, _) = flatten(&text);
    assert_eq!(group.children.len(), 4);
    let ids: Vec<&str> = group
        .children
        .iter()
        .map(|n| match n {
            Node::Path(p) => p.id.as_str(),
            _ => panic!("expected paths"),
        })
        .collect();
    assert_eq!(ids, vec!["over", "under", "", "through"]);
    // Decorations take the resolved rendering mode.
    match &group.children[0] {
        Node::Path(p) => assert_eq!(p.rendering_mode, ShapeRendering::GeometricPrecision),
        _ => unreachable!(),
    }
}

#[test]
fn outline_placement_transforms_points() {
    let mut g = outline_glyph(1);
    // Scale by two and shift by one.
    g.outline_ts = Transform::from_entries(20000, 0, 0, 20000, 10000, 0);
    let text = text_of(vec![span_of(vec![g])]);
    let (group, _) = flatten(&text);
    match &group.children[0] {
        Node::Path(p) => {
            assert_eq!(p.data[0], PathCommand::MoveTo(10000, 0));
            assert_eq!(p.data[1], PathCommand::LineTo(30000, 0));
        },
        other => panic!("unexpected node {:?}", other),
    }
}

#[test]
fn stroke_widens_the_bounding_box() {
    let mut span = span_of(vec![outline_glyph(1)]);
    span.stroke = Some(Stroke {
        color: Color { red: 0, green: 0, blue: 0, alpha: 255 },
        opacity: 10000,
        width: 20000,
    });
    let text = text_of(vec![span]);
    let (_, bbox) = flatten(&text);
    let b = bbox.unwrap();
    assert_eq!((b.x0, b.y0, b.x1, b.y1), (-10000, -10000, 20000, 20000));
}

#[test]
fn empty_text_has_no_bounding_box() {
    let (group, bbox) = flatten(&text_of(vec![]));
    assert_eq!(group.id.as_str(), "t");
    assert!(group.children.is_empty());
    assert!(bbox.is_none());
}

#[test]
fn embedded_vector_identifier_convention() {
    assert_eq!(embedded_vector_node_id(0).as_str(), "glyph0");
    assert_eq!(embedded_vector_node_id(1234).as_str(), "glyph1234");
}

#[test]
fn embedded_vector_beats_raster_and_outline() {
    let mut g = outline_glyph(1);
    g.raster = raster_glyph(1, false).raster;
    g.svg = Some(Fragment {
        events: vec![XmlEvent::Start(ElemName::Path), XmlEvent::End],
        bbox: None,
    });
    g.svg_ts = Transform::from_entries(10000, 0, 0, 10000, 70000, 0);
    let text = text_of(vec![span_of(vec![g])]);
    let (group, _) = flatten(&text);
    assert_eq!(group.children.len(), 1);
    match &group.children[0] {
        Node::Group(gr) => {
            assert_eq!(gr.transform.dx, 70000);
            assert!(matches!(gr.children[0], Node::Fragment(_)));
        },
        other => panic!("unexpected node {:?}", other),
    }
}

#[test]
fn spans_flatten_in_order() {
    let text = text_of(vec![
        span_of(vec![outline_glyph(1)]),
        span_of(vec![colr_glyph(2)]),
    ]);
    let (group, _) = flatten(&text);
    assert_eq!(group.children.len(), 2);
    assert!(matches!(group.children[0], Node::Path(_)));
    assert!(matches!(group.children[1], Node::Group(_)));
}
