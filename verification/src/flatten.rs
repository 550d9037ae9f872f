//! Glyph resolution and the flattening pipeline.
//!
//! Each positioned glyph resolves to exactly one representation, tried in
//! strict priority order: color-layer tree, embedded vector fragment,
//! raster image, scalable outline. Consecutive outline glyphs are batched
//! into a single merged path per maximal run; a glyph resolved any other
//! way, or the end of the span, flushes the open batch. Decorations are
//! emitted at fixed positions: over-line and under-line before all glyph
//! content, strike-through after it.

use vstd::prelude::*;
use crate::doc::{Rect, PaintOrder, ShapeRendering, Fill, Stroke, Path, Image, Fragment, Node,
    Group, nodes_bbox, node_wf, to_non_zero};
use crate::path::PathCommand;
use crate::path::transform_command;
use crate::path::transform_commands;
use crate::transform::{Transform, t_wf, identity_spec};
use crate::xml::{XmlEvent, ev_seq};
use vstd::string::StringExecFns;

verus! {

/// The text-rendering hint of a text element.
#[derive(Clone, Copy, PartialEq, Eq, Structural, Debug)]
pub enum TextRendering {
    OptimizeSpeed,
    OptimizeLegibility,
    GeometricPrecision,
}

/// A pre-rasterized glyph image with its two candidate placements: the
/// baseline-relative one and the bearing-relative one, selected by the
/// table-type flag.
#[derive(Debug)]
pub struct BitmapImage {
    pub image: Image,
    pub is_sbix: bool,
    pub sbix_ts: Transform,
    pub cbdt_ts: Transform,
}

/// One positioned glyph with what the font lookups found for it; absence
/// of a representation is normal, not an error.
#[derive(Debug)]
pub struct PositionedGlyph {
    pub id: u16,
    pub colr: Option<Fragment>,
    pub svg: Option<Fragment>,
    pub raster: Option<BitmapImage>,
    pub outline: Option<Vec<PathCommand>>,
    pub colr_ts: Transform,
    pub svg_ts: Transform,
    pub outline_ts: Transform,
}

/// One contiguous run of positioned glyphs sharing paint attributes and
/// optional decoration paths.
#[derive(Debug)]
pub struct Span {
    pub visible: bool,
    pub fill: Option<Fill>,
    pub stroke: Option<Stroke>,
    pub paint_order: PaintOrder,
    pub overline: Option<Path>,
    pub underline: Option<Path>,
    pub line_through: Option<Path>,
    pub positioned_glyphs: Vec<PositionedGlyph>,
}

/// A laid-out text element.
#[derive(Debug)]
pub struct Text {
    pub id: String,
    pub rendering_mode: TextRendering,
    pub layouted: Vec<Span>,
}

/// The representation a glyph resolves to, in strict priority order.
#[derive(Clone, Copy, PartialEq, Eq, Structural, Debug)]
pub enum Representation {
    ColorLayers,
    EmbeddedVector,
    Raster,
    ScalableOutline,
    Absent,
}

/// The first available representation of a glyph.
pub open spec fn representation(g: PositionedGlyph) -> Representation {
    if g.colr is Some {
        Representation::ColorLayers
    } else if g.svg is Some {
        Representation::EmbeddedVector
    } else if g.raster is Some {
        Representation::Raster
    } else if g.outline is Some {
        Representation::ScalableOutline
    } else {
        Representation::Absent
    }
}

/// Law: a glyph resolvable as a color-layer tree always resolves to it,
/// whatever other representations exist.
pub proof fn lemma_priority_order(g: PositionedGlyph)
    requires
        g.colr is Some,
    ensures
        representation(g) == Representation::ColorLayers,
{
}

/// The shape-rendering mode a text-rendering hint maps to.
pub open spec fn rendering_mode_spec(tr: TextRendering) -> ShapeRendering {
    match tr {
        TextRendering::OptimizeSpeed => ShapeRendering::CrispEdges,
        TextRendering::OptimizeLegibility => ShapeRendering::GeometricPrecision,
        TextRendering::GeometricPrecision => ShapeRendering::GeometricPrecision,
    }
}

/// Maps a text element's rendering hint to the produced paths' mode.
pub fn resolve_rendering_mode(text: &Text) -> (r: ShapeRendering)
    ensures
        r == rendering_mode_spec(text.rendering_mode),
{
    match text.rendering_mode {
        TextRendering::OptimizeSpeed => ShapeRendering::CrispEdges,
        TextRendering::OptimizeLegibility => ShapeRendering::GeometricPrecision,
        TextRendering::GeometricPrecision => ShapeRendering::GeometricPrecision,
    }
}

/// The generated identifier under which a glyph's shape is looked up
/// inside a shared embedded vector document.
pub open spec fn embedded_vector_id_chars(glyph_id: u16) -> Seq<char> {
    "glyph"@ + crate::num::dec_digits(glyph_id as nat)
}

/// Renders the identifier naming a glyph inside a shared embedded vector
/// document.
pub fn embedded_vector_node_id(glyph_id: u16) -> (r: String)
    ensures
        r@ == embedded_vector_id_chars(glyph_id),
{
    let mut s = String::from_str("glyph");
    s.append(crate::num::u64_to_dec(glyph_id as u64).as_str());
    s
}

/// One node the pipeline owes the output, with the data it derives from.
pub enum FlatItem {
    Decoration(Path),
    ColorLayers(PositionedGlyph),
    EmbeddedVector(PositionedGlyph),
    Raster(PositionedGlyph),
    OutlineBatch(Seq<PathCommand>, Span),
}

/// The one batched path a non-empty outline batch owes, or nothing.
pub open spec fn flush_items(batch: Seq<PathCommand>, span: Span) -> Seq<FlatItem> {
    if batch.len() == 0 {
        Seq::empty()
    } else {
        seq![FlatItem::OutlineBatch(batch, span)]
    }
}

/// A glyph's outline, mapped into placement space.
pub open spec fn placed_outline(g: PositionedGlyph) -> Seq<PathCommand> {
    g.outline->0@.map_values(|c: PathCommand| transform_command(g.outline_ts, c))
}

/// The nodes a glyph run owes the output, given an open outline batch:
/// glyphs resolved by the first three representations flush the batch and
/// contribute their own node; outline glyphs extend the batch; the end of
/// the run flushes what remains.
pub open spec fn glyph_items(gs: Seq<PositionedGlyph>, batch: Seq<PathCommand>, span: Span) -> Seq<
    FlatItem,
>
    decreases gs.len(),
{
    if gs.len() == 0 {
        flush_items(batch, span)
    } else {
        let g = gs.first();
        let rest = gs.drop_first();
        match representation(g) {
            Representation::ColorLayers => flush_items(batch, span) + seq![
                FlatItem::ColorLayers(g),
            ] + glyph_items(rest, Seq::empty(), span),
            Representation::EmbeddedVector => flush_items(batch, span) + seq![
                FlatItem::EmbeddedVector(g),
            ] + glyph_items(rest, Seq::empty(), span),
            Representation::Raster => flush_items(batch, span) + seq![FlatItem::Raster(g)]
                + glyph_items(rest, Seq::empty(), span),
            Representation::ScalableOutline => glyph_items(rest, batch + placed_outline(g), span),
            Representation::Absent => glyph_items(rest, batch, span),
        }
    }
}

/// Number of batched outline paths among the owed nodes.
pub open spec fn count_outline_batches(items: Seq<FlatItem>) -> int
    decreases items.len(),
{
    if items.len() == 0 {
        0
    } else {
        (if items.first() matches FlatItem::OutlineBatch(_, _) {
            1int
        } else {
            0int
        }) + count_outline_batches(items.drop_first())
    }
}

/// Number of maximal runs of outline-resolved glyphs, counting an already
/// open batch as a run in progress.
pub open spec fn outline_runs(gs: Seq<PositionedGlyph>, open_run: bool) -> int
    decreases gs.len(),
{
    if gs.len() == 0 {
        if open_run {
            1int
        } else {
            0int
        }
    } else if representation(gs.first()) == Representation::ScalableOutline {
        outline_runs(gs.drop_first(), true)
    } else {
        (if open_run {
            1int
        } else {
            0int
        }) + outline_runs(gs.drop_first(), false)
    }
}

/// The batch count adds over concatenation.
proof fn lemma_count_batches_add(a: Seq<FlatItem>, b: Seq<FlatItem>)
    ensures
        count_outline_batches(a + b) == count_outline_batches(a) + count_outline_batches(b),
    decreases a.len(),
{
    if a.len() == 0 {
        assert(a + b =~= b);
    } else {
        assert((a + b).first() == a.first());
        assert((a + b).drop_first() =~= a.drop_first() + b);
        lemma_count_batches_add(a.drop_first(), b);
    }
}

/// The batch count of a one-item sequence.
proof fn lemma_count_batches_single(it: FlatItem)
    ensures
        count_outline_batches(seq![it]) == (if it matches FlatItem::OutlineBatch(_, _) {
            1int
        } else {
            0int
        }),
{
    assert(seq![it].drop_first() =~= Seq::<FlatItem>::empty());
    assert(count_outline_batches(Seq::<FlatItem>::empty()) == 0);
    assert(seq![it].first() == it);
}

/// Law: the glyph content of a span flattens to exactly one batched path
/// node per maximal run of consecutive outline-resolved glyphs, when
/// every glyph resolves to some representation and outline glyphs have
/// non-empty contours.
pub proof fn lemma_batching(gs: Seq<PositionedGlyph>, batch: Seq<PathCommand>, span: Span)
    requires
        forall|k: int|
            0 <= k < gs.len() ==> representation(#[trigger] gs[k]) != Representation::Absent,
        forall|k: int|
            0 <= k < gs.len() ==> (representation(#[trigger] gs[k])
                == Representation::ScalableOutline ==> placed_outline(gs[k]).len() > 0),
    ensures
        count_outline_batches(glyph_items(gs, batch, span)) == outline_runs(gs, batch.len() > 0),
    decreases gs.len(),
{
    if gs.len() == 0 {
        if batch.len() > 0 {
            lemma_count_batches_single(FlatItem::OutlineBatch(batch, span));
        }
    } else {
        let g = gs.first();
        let rest = gs.drop_first();
        assert forall|k: int| 0 <= k < rest.len() implies representation(#[trigger] rest[k])
            != Representation::Absent && (representation(rest[k])
            == Representation::ScalableOutline ==> placed_outline(rest[k]).len() > 0) by {
            assert(rest[k] == gs[k + 1]);
        }
        assert(representation(g) != Representation::Absent);
        match representation(g) {
            Representation::ColorLayers => {
                lemma_batching(rest, Seq::empty(), span);
                lemma_count_batches_flush(batch, span);
                lemma_count_batches_single(FlatItem::ColorLayers(g));
                lemma_count_batches_add(flush_items(batch, span), seq![FlatItem::ColorLayers(g)]);
                lemma_count_batches_add(
                    flush_items(batch, span) + seq![FlatItem::ColorLayers(g)],
                    glyph_items(rest, Seq::empty(), span),
                );
            },
            Representation::EmbeddedVector => {
                lemma_batching(rest, Seq::empty(), span);
                lemma_count_batches_flush(batch, span);
                lemma_count_batches_single(FlatItem::EmbeddedVector(g));
                lemma_count_batches_add(
                    flush_items(batch, span),
                    seq![FlatItem::EmbeddedVector(g)],
                );
                lemma_count_batches_add(
                    flush_items(batch, span) + seq![FlatItem::EmbeddedVector(g)],
                    glyph_items(rest, Seq::empty(), span),
                );
            },
            Representation::Raster => {
                lemma_batching(rest, Seq::empty(), span);
                lemma_count_batches_flush(batch, span);
                lemma_count_batches_single(FlatItem::Raster(g));
                lemma_count_batches_add(flush_items(batch, span), seq![FlatItem::Raster(g)]);
                lemma_count_batches_add(
                    flush_items(batch, span) + seq![FlatItem::Raster(g)],
                    glyph_items(rest, Seq::empty(), span),
                );
            },
            Representation::ScalableOutline => {
                lemma_batching(rest, batch + placed_outline(g), span);
            },
            Representation::Absent => {},
        }
    }
}

/// The batch count of a flush.
proof fn lemma_count_batches_flush(batch: Seq<PathCommand>, span: Span)
    ensures
        count_outline_batches(flush_items(batch, span)) == (if batch.len() > 0 {
            1int
        } else {
            0int
        }),
{
    if batch.len() > 0 {
        lemma_count_batches_single(FlatItem::OutlineBatch(batch, span));
    }
}

/// All-outline glyph runs collapse to exactly one run.
proof fn lemma_runs_all_outline(gs: Seq<PositionedGlyph>)
    requires
        gs.len() >= 1,
        forall|k: int|
            0 <= k < gs.len() ==> representation(#[trigger] gs[k])
                == Representation::ScalableOutline,
    ensures
        outline_runs(gs, true) == 1,
        outline_runs(gs, false) == 1,
    decreases gs.len(),
{
    let rest = gs.drop_first();
    assert(gs.first() == gs[0]);
    if rest.len() == 0 {
        assert(outline_runs(rest, true) == 1);
    } else {
        assert forall|k: int| 0 <= k < rest.len() implies representation(#[trigger] rest[k])
            == Representation::ScalableOutline by {
            assert(rest[k] == gs[k + 1]);
        }
        lemma_runs_all_outline(rest);
    }
}

/// Law: a span of consecutive outline-only glyphs, each with a non-empty
/// contour, flattens to exactly one batched path node.
pub proof fn lemma_batching_single_run(gs: Seq<PositionedGlyph>, span: Span)
    requires
        gs.len() >= 1,
        forall|k: int|
            0 <= k < gs.len() ==> representation(#[trigger] gs[k])
                == Representation::ScalableOutline,
        forall|k: int| 0 <= k < gs.len() ==> placed_outline(#[trigger] gs[k]).len() > 0,
    ensures
        count_outline_batches(glyph_items(gs, Seq::empty(), span)) == 1,
{
    lemma_batching(gs, Seq::empty(), span);
    lemma_runs_all_outline(gs);
}

/// Number of path nodes in a node sequence.
pub open spec fn count_path_nodes(ns: Seq<Node>) -> int
    decreases ns.len(),
{
    if ns.len() == 0 {
        0
    } else {
        (if ns.first() matches Node::Path(_) {
            1int
        } else {
            0int
        }) + count_path_nodes(ns.drop_first())
    }
}

/// Law: over a glyph segment — owed items without decorations — the
/// produced path nodes are exactly the batched outline paths.
pub proof fn lemma_path_nodes_are_batches(
    children: Seq<Node>,
    items: Seq<FlatItem>,
    mode: ShapeRendering,
)
    requires
        children.len() == items.len(),
        forall|k: int|
            0 <= k < items.len() ==> item_matches(#[trigger] children[k], items[k], mode),
        forall|k: int| 0 <= k < items.len() ==> !(#[trigger] items[k] is Decoration),
    ensures
        count_path_nodes(children) == count_outline_batches(items),
    decreases items.len(),
{
    if items.len() > 0 {
        assert(item_matches(children[0], items[0], mode));
        assert(!(items[0] is Decoration));
        let ct = children.drop_first();
        let it = items.drop_first();
        assert forall|k: int| 0 <= k < it.len() implies item_matches(
            #[trigger] ct[k],
            it[k],
            mode,
        ) && !(it[k] is Decoration) by {
            assert(ct[k] == children[k + 1]);
            assert(it[k] == items[k + 1]);
        }
        lemma_path_nodes_are_batches(ct, it, mode);
        assert(children.first() == children[0]);
        assert(items.first() == items[0]);
    }
}

/// The node a decoration path owes, if present.
pub open spec fn decoration_items(o: Option<Path>) -> Seq<FlatItem> {
    match o {
        Some(p) => seq![FlatItem::Decoration(p)],
        None => Seq::empty(),
    }
}

/// The nodes one span owes the output, in order.
pub open spec fn span_items(span: Span) -> Seq<FlatItem> {
    decoration_items(span.overline) + decoration_items(span.underline) + glyph_items(
        span.positioned_glyphs@,
        Seq::empty(),
        span,
    ) + decoration_items(span.line_through)
}

/// The nodes a span sequence owes the output.
pub open spec fn spans_items(spans: Seq<Span>) -> Seq<FlatItem>
    decreases spans.len(),
{
    if spans.len() == 0 {
        Seq::empty()
    } else {
        span_items(spans.first()) + spans_items(spans.drop_first())
    }
}

/// Whether a produced node realizes an owed item under the given
/// rendering mode.
pub open spec fn item_matches(n: Node, it: FlatItem, mode: ShapeRendering) -> bool {
    match it {
        FlatItem::Decoration(src) => {
            &&& n matches Node::Path(p)
            &&& p.id@ == src.id@
            &&& p.visible == src.visible
            &&& p.fill == src.fill
            &&& p.stroke == src.stroke
            &&& p.paint_order == src.paint_order
            &&& p.rendering_mode == mode
            &&& p.data@ == src.data@
            &&& p.transform == src.transform
        },
        FlatItem::ColorLayers(g) => {
            &&& n matches Node::Group(gr)
            &&& gr.transform == g.colr_ts
            &&& gr.id@ == Seq::<char>::empty()
            &&& gr.children@.len() == 1
            &&& g.colr matches Some(src)
            &&& gr.children@[0] matches Node::Fragment(f)
            &&& ev_seq(f.events@) == ev_seq(src.events@)
            &&& f.bbox == src.bbox
            &&& gr.bbox == nodes_bbox(gr.children@, None::<Rect>)
        },
        FlatItem::EmbeddedVector(g) => {
            &&& n matches Node::Group(gr)
            &&& gr.transform == g.svg_ts
            &&& gr.id@ == Seq::<char>::empty()
            &&& gr.children@.len() == 1
            &&& g.svg matches Some(src)
            &&& gr.children@[0] matches Node::Fragment(f)
            &&& ev_seq(f.events@) == ev_seq(src.events@)
            &&& f.bbox == src.bbox
            &&& gr.bbox == nodes_bbox(gr.children@, None::<Rect>)
        },
        FlatItem::Raster(g) => {
            &&& n matches Node::Group(gr)
            &&& g.raster matches Some(img)
            &&& gr.transform == if img.is_sbix {
                img.sbix_ts
            } else {
                img.cbdt_ts
            }
            &&& gr.id@ == Seq::<char>::empty()
            &&& gr.children@.len() == 1
            &&& gr.children@[0] matches Node::Image(im)
            &&& im.id@ == img.image.id@
            &&& im.visible == img.image.visible
            &&& im.width == img.image.width
            &&& im.height == img.image.height
            &&& im.png@ == img.image.png@
            &&& gr.bbox == nodes_bbox(gr.children@, None::<Rect>)
        },
        FlatItem::OutlineBatch(cs, span) => {
            &&& n matches Node::Path(p)
            &&& p.id@ == Seq::<char>::empty()
            &&& p.visible == span.visible
            &&& p.fill == span.fill
            &&& p.stroke == span.stroke
            &&& p.paint_order == span.paint_order
            &&& p.rendering_mode == mode
            &&& p.data@ == cs
            &&& p.transform == identity_spec()
        },
    }
}

/// The transforms a span carries are well-formed.
pub open spec fn span_wf(span: Span) -> bool {
    &&& match span.overline {
        Some(p) => t_wf(p.transform),
        None => true,
    }
    &&& match span.underline {
        Some(p) => t_wf(p.transform),
        None => true,
    }
    &&& match span.line_through {
        Some(p) => t_wf(p.transform),
        None => true,
    }
    &&& forall|i: int|
        0 <= i < span.positioned_glyphs@.len() ==> glyph_wf(#[trigger] span.positioned_glyphs@[i])
}

/// The transforms a glyph carries are well-formed.
pub open spec fn glyph_wf(g: PositionedGlyph) -> bool {
    &&& t_wf(g.colr_ts)
    &&& t_wf(g.svg_ts)
    &&& t_wf(g.outline_ts)
    &&& match g.raster {
        Some(img) => t_wf(img.sbix_ts) && t_wf(img.cbdt_ts),
        None => true,
    }
}

/// The transforms a text element carries are well-formed.
pub open spec fn text_wf(text: Text) -> bool {
    forall|i: int| 0 <= i < text.layouted@.len() ==> span_wf(#[trigger] text.layouted@[i])
}

/// Copies a command sequence.
fn copy_commands(v: &Vec<PathCommand>) -> (r: Vec<PathCommand>)
    ensures
        r@ == v@,
{
    let mut r: Vec<PathCommand> = Vec::new();
    let mut i: usize = 0;
    while i < v.len()
        invariant
            0 <= i <= v@.len(),
            r@ == v@.take(i as int),
        decreases v@.len() - i,
    {
        r.push(v[i]);
        proof {
            assert(r@ =~= v@.take(i as int + 1));
        }
        i = i + 1;
    }
    proof {
        assert(v@.take(v@.len() as int) =~= v@);
    }
    r
}

/// Copies encoded image bytes.
fn copy_bytes(v: &Vec<u8>) -> (r: Vec<u8>)
    ensures
        r@ == v@,
{
    let mut r: Vec<u8> = Vec::new();
    let mut i: usize = 0;
    while i < v.len()
        invariant
            0 <= i <= v@.len(),
            r@ == v@.take(i as int),
        decreases v@.len() - i,
    {
        r.push(v[i]);
        proof {
            assert(r@ =~= v@.take(i as int + 1));
        }
        i = i + 1;
    }
    proof {
        assert(v@.take(v@.len() as int) =~= v@);
    }
    r
}

/// Copies a markup event, preserving its value.
fn copy_event(e: &XmlEvent) -> (r: XmlEvent)
    ensures
        r@ == e@,
{
    match e {
        XmlEvent::Start(n) => XmlEvent::Start(*n),
        XmlEvent::Attr(n, v) => XmlEvent::Attr(*n, v.clone()),
        XmlEvent::End => XmlEvent::End,
    }
}

/// Copies a markup fragment, preserving its event values.
fn copy_fragment(f: &Fragment) -> (r: Fragment)
    ensures
        ev_seq(r.events@) == ev_seq(f.events@),
        r.bbox == f.bbox,
{
    let mut events: Vec<XmlEvent> = Vec::new();
    let mut i: usize = 0;
    while i < f.events.len()
        invariant
            0 <= i <= f.events@.len(),
            ev_seq(events@) == ev_seq(f.events@.take(i as int)),
        decreases f.events@.len() - i,
    {
        crate::xml::push_event(&mut events, copy_event(&f.events[i]));
        proof {
            assert(ev_seq(events@) =~= ev_seq(f.events@.take(i as int + 1)));
        }
        i = i + 1;
    }
    proof {
        assert(f.events@.take(f.events@.len() as int) =~= f.events@);
    }
    Fragment { events, bbox: f.bbox }
}

/// Realizes a decoration path under the resolved rendering mode.
fn decoration_node(src: &Path, mode: ShapeRendering) -> (n: Node)
    ensures
        item_matches(n, FlatItem::Decoration(*src), mode),
        node_wf(n) == t_wf(src.transform),
{
    Node::Path(
        Path {
            id: src.id.clone(),
            visible: src.visible,
            fill: src.fill,
            stroke: src.stroke,
            paint_order: src.paint_order,
            rendering_mode: mode,
            data: copy_commands(&src.data),
            transform: src.transform,
        },
    )
}

/// Flushes the open outline batch: a non-empty batch becomes exactly one
/// path node carrying the span's paint attributes, then is cleared.
pub fn push_outline_paths(
    span: &Span,
    builder: &mut Vec<PathCommand>,
    new_children: &mut Vec<Node>,
    rendering_mode: ShapeRendering,
)
    ensures
        final(builder)@ == Seq::<PathCommand>::empty(),
        final(new_children)@.len() == old(new_children)@.len() + flush_items(
            old(builder)@,
            *span,
        ).len(),
        forall|k: int|
            0 <= k < old(new_children)@.len() ==> final(new_children)@[k] == old(
                new_children,
            )@[k],
        forall|k: int|
            old(new_children)@.len() <= k < final(new_children)@.len() ==> item_matches(
                final(new_children)@[k],
                flush_items(old(builder)@, *span)[k - old(new_children)@.len()],
                rendering_mode,
            ) && node_wf(final(new_children)@[k]),
{
    if builder.len() == 0 {
        return ;
    }
    let data = copy_commands(builder);
    builder.clear();
    let node = Node::Path(
        Path {
            id: String::new(),
            visible: span.visible,
            fill: span.fill,
            stroke: span.stroke,
            paint_order: span.paint_order,
            rendering_mode,
            data,
            transform: Transform::identity(),
        },
    );
    new_children.push(node);
}

/// Appends commands to the open batch.
fn append_commands(batch: &mut Vec<PathCommand>, src: &Vec<PathCommand>)
    ensures
        final(batch)@ == old(batch)@ + src@,
{
    let mut i: usize = 0;
    proof {
        assert(old(batch)@ + src@.take(0) =~= old(batch)@);
    }
    while i < src.len()
        invariant
            0 <= i <= src@.len(),
            batch@ == old(batch)@ + src@.take(i as int),
        decreases src@.len() - i,
    {
        batch.push(src[i]);
        proof {
            assert(batch@ =~= old(batch)@ + src@.take(i as int + 1));
        }
        i = i + 1;
    }
    proof {
        assert(src@.take(src@.len() as int) =~= src@);
    }
}

/// Builds the group node of a color-layer glyph: the interpreter's output
/// wrapped in a group carrying the glyph's placement transform.
fn colr_glyph_node(g: &PositionedGlyph) -> (n: Node)
    requires
        g.colr is Some,
        t_wf(g.colr_ts),
    ensures
        forall|mode: ShapeRendering| item_matches(n, FlatItem::ColorLayers(*g), mode),
        node_wf(n),
{
    let frag = copy_fragment(g.colr.as_ref().unwrap());
    let mut children: Vec<Node> = Vec::new();
    children.push(Node::Fragment(frag));
    let mut gr = Group { id: String::new(), transform: g.colr_ts, children, bbox: None };
    gr.calculate_bounding_box();
    Node::Group(gr)
}

/// Builds the group node of an embedded vector glyph.
fn svg_glyph_node(g: &PositionedGlyph) -> (n: Node)
    requires
        g.svg is Some,
        t_wf(g.svg_ts),
    ensures
        forall|mode: ShapeRendering| item_matches(n, FlatItem::EmbeddedVector(*g), mode),
        node_wf(n),
{
    let frag = copy_fragment(g.svg.as_ref().unwrap());
    let mut children: Vec<Node> = Vec::new();
    children.push(Node::Fragment(frag));
    let mut gr = Group { id: String::new(), transform: g.svg_ts, children, bbox: None };
    gr.calculate_bounding_box();
    Node::Group(gr)
}

/// Builds the group node of a raster glyph, placing it by the anchoring
/// convention its table type selects.
fn raster_glyph_node(g: &PositionedGlyph) -> (n: Node)
    requires
        g.raster is Some,
        glyph_wf(*g),
    ensures
        forall|mode: ShapeRendering| item_matches(n, FlatItem::Raster(*g), mode),
        node_wf(n),
{
    let img = g.raster.as_ref().unwrap();
    let transform = if img.is_sbix {
        img.sbix_ts
    } else {
        img.cbdt_ts
    };
    let image = Image {
        id: img.image.id.clone(),
        visible: img.image.visible,
        width: img.image.width,
        height: img.image.height,
        png: copy_bytes(&img.image.png),
    };
    let mut children: Vec<Node> = Vec::new();
    children.push(Node::Image(image));
    let mut gr = Group { id: String::new(), transform, children, bbox: None };
    gr.calculate_bounding_box();
    Node::Group(gr)
}

/// Flattens a laid-out text element into one group: per span, over-line
/// and under-line first, then glyph content with consecutive scalable
/// outlines batched into single paths, then strike-through; bounding
/// boxes are recomputed bottom-up, and the stroke bounding box is
/// returned when it has a non-empty area.
#[verifier::rlimit(100)]
pub fn flatten(text: &Text) -> (r: (Group, Option<Rect>))
    requires
        text_wf(*text),
    ensures
        r.0.id@ == text.id@,
        r.0.transform == identity_spec(),
        r.0.children@.len() == spans_items(text.layouted@).len(),
        forall|k: int|
            0 <= k < spans_items(text.layouted@).len() ==> item_matches(
                #[trigger] r.0.children@[k],
                spans_items(text.layouted@)[k],
                rendering_mode_spec(text.rendering_mode),
            ),
        r.0.bbox == nodes_bbox(r.0.children@, None::<Rect>),
        r.1 == match r.0.bbox {
            Some(b) => to_non_zero(b),
            None => None::<Rect>,
        },
{
    let rendering_mode = resolve_rendering_mode(text);
    let ghost mode = rendering_mode_spec(text.rendering_mode);
    let ghost items = spans_items(text.layouted@);
    let mut new_children: Vec<Node> = Vec::new();
    let ghost mut done: Seq<FlatItem> = Seq::empty();
    let mut i: usize = 0;
    proof {
        assert(text.layouted@.skip(0) =~= text.layouted@);
        assert(done + spans_items(text.layouted@) =~= spans_items(text.layouted@));
    }
    while i < text.layouted.len()
        invariant
            text_wf(*text),
            0 <= i <= text.layouted@.len(),
            rendering_mode == mode,
            items == spans_items(text.layouted@),
            new_children@.len() == done.len(),
            forall|k: int|
                0 <= k < done.len() ==> item_matches(
                    #[trigger] new_children@[k],
                    done[k],
                    mode,
                ) && node_wf(new_children@[k]),
            items == done + spans_items(text.layouted@.skip(i as int)),
        decreases text.layouted@.len() - i,
    {
        let ghost span_v = text.layouted@[i as int];
        proof {
            assert(span_wf(span_v));
            assert(text.layouted@.skip(i as int).first() == span_v);
            assert(text.layouted@.skip(i as int).drop_first() =~= text.layouted@.skip(
                i as int + 1,
            ));
            assert(items == done + (span_items(span_v) + spans_items(
                text.layouted@.skip(i as int + 1),
            )));
        }
        let ghost tail = spans_items(text.layouted@.skip(i as int + 1));
        let span = &text.layouted[i];
        match &span.overline {
            Some(p) => {
                new_children.push(decoration_node(p, rendering_mode));
                proof {
                    done = done + decoration_items(span_v.overline);
                }
            },
            None => {
                proof {
                    done = done + decoration_items(span_v.overline);
                }
            },
        }
        match &span.underline {
            Some(p) => {
                new_children.push(decoration_node(p, rendering_mode));
                proof {
                    done = done + decoration_items(span_v.underline);
                }
            },
            None => {
                proof {
                    done = done + decoration_items(span_v.underline);
                }
            },
        }
        proof {
            assert(items =~= done + glyph_items(span_v.positioned_glyphs@, Seq::empty(), span_v)
                + decoration_items(span_v.line_through) + tail);
        }
        let mut span_builder: Vec<PathCommand> = Vec::new();
        let mut j: usize = 0;
        proof {
            assert(span_v.positioned_glyphs@.skip(0) =~= span_v.positioned_glyphs@);
        }
        while j < span.positioned_glyphs.len()
            invariant
                text_wf(*text),
                0 <= i < text.layouted@.len(),
                0 <= j <= span.positioned_glyphs@.len(),
                span == &text.layouted[i as int],
                span_v == text.layouted@[i as int],
                rendering_mode == mode,
                items == spans_items(text.layouted@),
                tail == spans_items(text.layouted@.skip(i as int + 1)),
                new_children@.len() == done.len(),
                forall|k: int|
                    0 <= k < done.len() ==> item_matches(
                        #[trigger] new_children@[k],
                        done[k],
                        mode,
                    ) && node_wf(new_children@[k]),
                items == done + glyph_items(
                    span_v.positioned_glyphs@.skip(j as int),
                    span_builder@,
                    span_v,
                ) + decoration_items(span_v.line_through) + tail,
            decreases span.positioned_glyphs@.len() - j,
        {
            let ghost gs = span_v.positioned_glyphs@;
            let ghost g_v = gs[j as int];
            proof {
                assert(glyph_wf(g_v));
                assert(gs.skip(j as int).first() == g_v);
                assert(gs.skip(j as int).drop_first() =~= gs.skip(j as int + 1));
            }
            let g = &span.positioned_glyphs[j];
            let ghost b0 = span_builder@;
            if g.colr.is_some() {
                push_outline_paths(span, &mut span_builder, &mut new_children, rendering_mode);
                new_children.push(colr_glyph_node(g));
                proof {
                    done = done + flush_items(b0, span_v) + seq![FlatItem::ColorLayers(g_v)];
                    assert(items =~= done + glyph_items(gs.skip(j as int + 1), Seq::empty(),
                        span_v) + decoration_items(span_v.line_through) + tail);
                }
            } else if g.svg.is_some() {
                push_outline_paths(span, &mut span_builder, &mut new_children, rendering_mode);
                new_children.push(svg_glyph_node(g));
                proof {
                    done = done + flush_items(b0, span_v) + seq![FlatItem::EmbeddedVector(g_v)];
                    assert(items =~= done + glyph_items(gs.skip(j as int + 1), Seq::empty(),
                        span_v) + decoration_items(span_v.line_through) + tail);
                }
            } else if g.raster.is_some() {
                push_outline_paths(span, &mut span_builder, &mut new_children, rendering_mode);
                new_children.push(raster_glyph_node(g));
                proof {
                    done = done + flush_items(b0, span_v) + seq![FlatItem::Raster(g_v)];
                    assert(items =~= done + glyph_items(gs.skip(j as int + 1), Seq::empty(),
                        span_v) + decoration_items(span_v.line_through) + tail);
                }
            } else if g.outline.is_some() {
                let tc = transform_commands(&g.outline_ts, g.outline.as_ref().unwrap());
                append_commands(&mut span_builder, &tc);
                proof {
                    assert(span_builder@ == b0 + placed_outline(g_v));
                }
            } else {
                proof {
                    assert(representation(g_v) == Representation::Absent);
                }
            }
            j = j + 1;
        }
        let ghost b_end = span_builder@;
        push_outline_paths(span, &mut span_builder, &mut new_children, rendering_mode);
        proof {
            assert(span_v.positioned_glyphs@.skip(span_v.positioned_glyphs@.len() as int)
                =~= Seq::<PositionedGlyph>::empty());
            done = done + flush_items(b_end, span_v);
            assert(items =~= done + decoration_items(span_v.line_through) + tail);
        }
        match &span.line_through {
            Some(p) => {
                new_children.push(decoration_node(p, rendering_mode));
                proof {
                    done = done + decoration_items(span_v.line_through);
                }
            },
            None => {
                proof {
                    done = done + decoration_items(span_v.line_through);
                }
            },
        }
        proof {
            assert(items =~= done + tail);
        }
        i = i + 1;
    }
    proof {
        assert(text.layouted@.skip(text.layouted@.len() as int) =~= Seq::<Span>::empty());
        assert(items =~= done);
    }
    let mut group = Group {
        id: text.id.clone(),
        transform: Transform::identity(),
        children: new_children,
        bbox: None,
    };
    group.calculate_bounding_box();
    let nz: Option<Rect> = match group.bbox {
        Some(b) => {
            if b.x0 < b.x1 && b.y0 < b.y1 {
                Some(b)
            } else {
                None
            }
        },
        None => None,
    };
    (group, nz)
}

} // verus!
