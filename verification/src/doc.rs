//! The produced vector-document subtree.
//!
//! Flattening assembles nodes — groups, filled paths, raster images, and
//! opaque markup fragments — into a group per text element. Bounding
//! boxes are recomputed bottom-up from recorded geometry; a group child
//! contributes its stored box, so parents are computed after children.

use vstd::prelude::*;
use crate::color::Color;
use crate::path::PathCommand;
use crate::transform::{Transform, t_wf, apply_spec, identity_spec};
use crate::xml::XmlEvent;

verus! {

/// An axis-aligned rectangle in fixed-point coordinates.
#[derive(Clone, Copy, PartialEq, Eq, Structural, Debug)]
pub struct Rect {
    pub x0: i64,
    pub y0: i64,
    pub x1: i64,
    pub y1: i64,
}

/// The order fill and stroke are painted in.
#[derive(Clone, Copy, PartialEq, Eq, Structural, Debug)]
pub enum PaintOrder {
    FillAndStroke,
    StrokeAndFill,
}

/// The shape-rendering hint carried by produced paths.
#[derive(Clone, Copy, PartialEq, Eq, Structural, Debug)]
pub enum ShapeRendering {
    OptimizeSpeed,
    CrispEdges,
    GeometricPrecision,
}

/// A fill attribute: color and opacity in ten-thousandths.
#[derive(Clone, Copy, PartialEq, Eq, Structural, Debug)]
pub struct Fill {
    pub color: Color,
    pub opacity: u16,
}

/// A stroke attribute: color, opacity and fixed-point width.
#[derive(Clone, Copy, PartialEq, Eq, Structural, Debug)]
pub struct Stroke {
    pub color: Color,
    pub opacity: u16,
    pub width: i64,
}

/// A filled or stroked path node.
#[derive(Debug)]
pub struct Path {
    pub id: String,
    pub visible: bool,
    pub fill: Option<Fill>,
    pub stroke: Option<Stroke>,
    pub paint_order: PaintOrder,
    pub rendering_mode: ShapeRendering,
    pub data: Vec<PathCommand>,
    pub transform: Transform,
}

/// A raster image node carrying encoded pixel data.
#[derive(Debug)]
pub struct Image {
    pub id: String,
    pub visible: bool,
    pub width: i64,
    pub height: i64,
    pub png: Vec<u8>,
}

/// An opaque markup fragment with an optional known bounding box.
#[derive(Debug)]
pub struct Fragment {
    pub events: Vec<XmlEvent>,
    pub bbox: Option<Rect>,
}

/// One node of the produced subtree.
#[derive(Debug)]
pub enum Node {
    Group(Group),
    Path(Path),
    Image(Image),
    Fragment(Fragment),
}

/// A group node with a placement transform and a computed bounding box.
#[derive(Debug)]
pub struct Group {
    pub id: String,
    pub transform: Transform,
    pub children: Vec<Node>,
    pub bbox: Option<Rect>,
}

/// `acc` grown to include the point `(x, y)`.
pub open spec fn include_point(acc: Option<Rect>, x: i64, y: i64) -> Option<Rect> {
    match acc {
        None => Some(Rect { x0: x, y0: y, x1: x, y1: y }),
        Some(r) => Some(
            Rect {
                x0: if x < r.x0 {
                    x
                } else {
                    r.x0
                },
                y0: if y < r.y0 {
                    y
                } else {
                    r.y0
                },
                x1: if x > r.x1 {
                    x
                } else {
                    r.x1
                },
                y1: if y > r.y1 {
                    y
                } else {
                    r.y1
                },
            },
        ),
    }
}

/// `acc` grown to include the rectangle `r`.
pub open spec fn include_rect(acc: Option<Rect>, r: Rect) -> Option<Rect> {
    include_point(include_point(acc, r.x0, r.y0), r.x1, r.y1)
}

/// `acc` grown to include every point of one primitive.
pub open spec fn include_command(acc: Option<Rect>, c: PathCommand) -> Option<Rect> {
    match c {
        PathCommand::MoveTo(x, y) => include_point(acc, x, y),
        PathCommand::LineTo(x, y) => include_point(acc, x, y),
        PathCommand::QuadTo(cx, cy, x, y) => include_point(include_point(acc, cx, cy), x, y),
        PathCommand::CurveTo(cx0, cy0, cx1, cy1, x, y) => include_point(
            include_point(include_point(acc, cx0, cy0), cx1, cy1),
            x,
            y,
        ),
        PathCommand::Close => acc,
    }
}

/// The hull of every control point of a command sequence, over `acc`.
pub open spec fn cmds_bbox(cs: Seq<PathCommand>, acc: Option<Rect>) -> Option<Rect>
    decreases cs.len(),
{
    if cs.len() == 0 {
        acc
    } else {
        cmds_bbox(cs.drop_first(), include_command(acc, cs.first()))
    }
}

/// `r` grown on every side by `half`, saturating at the coordinate range.
pub open spec fn expand_rect(r: Rect, half: i64) -> Rect {
    Rect {
        x0: sat64(r.x0 as int - half as int),
        y0: sat64(r.y0 as int - half as int),
        x1: sat64(r.x1 as int + half as int),
        y1: sat64(r.y1 as int + half as int),
    }
}

/// Saturation of `v` into the `i64` range.
pub open spec fn sat64(v: int) -> i64 {
    if v > i64::MAX as int {
        i64::MAX
    } else if v < i64::MIN as int {
        i64::MIN
    } else {
        v as i64
    }
}

/// The rectangle's corners mapped through `t`, re-hulled.
pub open spec fn rect_transform(t: Transform, r: Rect) -> Rect {
    let p00 = apply_spec(t, r.x0 as int, r.y0 as int);
    let p10 = apply_spec(t, r.x1 as int, r.y0 as int);
    let p11 = apply_spec(t, r.x1 as int, r.y1 as int);
    let p01 = apply_spec(t, r.x0 as int, r.y1 as int);
    let acc = include_point(
        include_point(
            include_point(
                include_point(None, p00.0 as i64, p00.1 as i64),
                p10.0 as i64,
                p10.1 as i64,
            ),
            p11.0 as i64,
            p11.1 as i64,
        ),
        p01.0 as i64,
        p01.1 as i64,
    );
    acc->0
}

/// The stroke-inclusive bounding box a path node contributes, in its
/// parent's coordinates.
pub open spec fn path_node_bbox(p: Path) -> Option<Rect> {
    match cmds_bbox(p.data@, None) {
        None => None,
        Some(r) => {
            let grown = match p.stroke {
                Some(s) => expand_rect(r, half_width(s.width)),
                None => r,
            };
            Some(rect_transform(p.transform, grown))
        },
    }
}

/// Half a stroke width, for non-negative widths.
pub open spec fn half_width(w: i64) -> i64 {
    if w >= 0 {
        ((w as int) / 2) as i64
    } else {
        0
    }
}

/// The bounding box one node contributes, in its parent's coordinates.
pub open spec fn node_bbox(n: Node) -> Option<Rect> {
    match n {
        Node::Group(g) => match g.bbox {
            Some(r) => Some(rect_transform(g.transform, r)),
            None => None,
        },
        Node::Path(p) => path_node_bbox(p),
        Node::Image(im) => Some(
            rect_transform(identity_spec(), Rect { x0: 0, y0: 0, x1: im.width, y1: im.height }),
        ),
        Node::Fragment(f) => f.bbox,
    }
}

/// Transforms are sound on the nodes whose boxes are computed.
pub open spec fn node_wf(n: Node) -> bool {
    match n {
        Node::Group(g) => t_wf(g.transform),
        Node::Path(p) => t_wf(p.transform),
        Node::Image(_) => true,
        Node::Fragment(_) => true,
    }
}

/// The hull of the boxes of a node sequence, over `acc`; children without
/// a box contribute nothing.
pub open spec fn nodes_bbox(ns: Seq<Node>, acc: Option<Rect>) -> Option<Rect>
    decreases ns.len(),
{
    if ns.len() == 0 {
        acc
    } else {
        nodes_bbox(
            ns.drop_first(),
            match node_bbox(ns.first()) {
                Some(r) => include_rect(acc, r),
                None => acc,
            },
        )
    }
}

/// The rectangle as a strictly non-empty area, or nothing.
pub open spec fn to_non_zero(r: Rect) -> Option<Rect> {
    if r.x0 < r.x1 && r.y0 < r.y1 {
        Some(r)
    } else {
        None
    }
}

/// Computes the hull of every control point of a command sequence.
pub fn cmds_bbox_exec(cs: &Vec<PathCommand>) -> (r: Option<Rect>)
    ensures
        r == cmds_bbox(cs@, None::<Rect>),
{
    let mut acc: Option<Rect> = None;
    let mut i: usize = 0;
    proof {
        assert(cs@.skip(0) =~= cs@);
    }
    while i < cs.len()
        invariant
            0 <= i <= cs@.len(),
            cmds_bbox(cs@, None::<Rect>) == cmds_bbox(cs@.skip(i as int), acc),
        decreases cs@.len() - i,
    {
        proof {
            assert(cs@.skip(i as int).first() == cs@[i as int]);
            assert(cs@.skip(i as int).drop_first() =~= cs@.skip(i as int + 1));
        }
        acc = include_command_exec(acc, &cs[i]);
        i = i + 1;
    }
    proof {
        assert(cs@.skip(cs@.len() as int) =~= Seq::<PathCommand>::empty());
    }
    acc
}

/// Grows `acc` to include the point `(x, y)`.
fn include_point_exec(acc: Option<Rect>, x: i64, y: i64) -> (r: Option<Rect>)
    ensures
        r == include_point(acc, x, y),
{
    match acc {
        None => Some(Rect { x0: x, y0: y, x1: x, y1: y }),
        Some(r) => Some(
            Rect {
                x0: if x < r.x0 {
                    x
                } else {
                    r.x0
                },
                y0: if y < r.y0 {
                    y
                } else {
                    r.y0
                },
                x1: if x > r.x1 {
                    x
                } else {
                    r.x1
                },
                y1: if y > r.y1 {
                    y
                } else {
                    r.y1
                },
            },
        ),
    }
}

/// Grows `acc` to include every point of one primitive.
fn include_command_exec(acc: Option<Rect>, c: &PathCommand) -> (r: Option<Rect>)
    ensures
        r == include_command(acc, *c),
{
    match c {
        PathCommand::MoveTo(x, y) => include_point_exec(acc, *x, *y),
        PathCommand::LineTo(x, y) => include_point_exec(acc, *x, *y),
        PathCommand::QuadTo(cx, cy, x, y) => include_point_exec(
            include_point_exec(acc, *cx, *cy),
            *x,
            *y,
        ),
        PathCommand::CurveTo(cx0, cy0, cx1, cy1, x, y) => include_point_exec(
            include_point_exec(include_point_exec(acc, *cx0, *cy0), *cx1, *cy1),
            *x,
            *y,
        ),
        PathCommand::Close => acc,
    }
}

/// Saturates an `int`-range computation into `i64`, given `i128` input.
fn sat64_exec(v: i128) -> (r: i64)
    ensures
        r == sat64(v as int),
{
    if v > i64::MAX as i128 {
        i64::MAX
    } else if v < i64::MIN as i128 {
        i64::MIN
    } else {
        v as i64
    }
}

/// Computes the corners of `r` mapped through `t`, re-hulled.
fn rect_transform_exec(t: &Transform, r: &Rect) -> (res: Rect)
    requires
        t_wf(*t),
    ensures
        res == rect_transform(*t, *r),
{
    let p00 = t.apply(r.x0, r.y0);
    let p10 = t.apply(r.x1, r.y0);
    let p11 = t.apply(r.x1, r.y1);
    let p01 = t.apply(r.x0, r.y1);
    let acc = include_point_exec(
        include_point_exec(
            include_point_exec(include_point_exec(None, p00.0, p00.1), p10.0, p10.1),
            p11.0,
            p11.1,
        ),
        p01.0,
        p01.1,
    );
    match acc {
        Some(b) => b,
        None => Rect { x0: 0, y0: 0, x1: 0, y1: 0 },
    }
}

/// Computes the stroke-inclusive box a path node contributes.
pub fn path_node_bbox_exec(p: &Path) -> (r: Option<Rect>)
    requires
        t_wf(p.transform),
    ensures
        r == path_node_bbox(*p),
{
    match cmds_bbox_exec(&p.data) {
        None => None,
        Some(r) => {
            let grown = match &p.stroke {
                Some(s) => {
                    let half: i64 = if s.width >= 0 {
                        ((s.width as u64) / 2) as i64
                    } else {
                        0
                    };
                    Rect {
                        x0: sat64_exec(r.x0 as i128 - half as i128),
                        y0: sat64_exec(r.y0 as i128 - half as i128),
                        x1: sat64_exec(r.x1 as i128 + half as i128),
                        y1: sat64_exec(r.y1 as i128 + half as i128),
                    }
                },
                None => r,
            };
            Some(rect_transform_exec(&p.transform, &grown))
        },
    }
}

/// Computes the box one node contributes.
pub fn node_bbox_exec(n: &Node) -> (r: Option<Rect>)
    requires
        node_wf(*n),
    ensures
        r == node_bbox(*n),
{
    match n {
        Node::Group(g) => match g.bbox {
            Some(r) => Some(rect_transform_exec(&g.transform, &r)),
            None => None,
        },
        Node::Path(p) => path_node_bbox_exec(p),
        Node::Image(im) => {
            let ident = Transform::identity();
            Some(
                rect_transform_exec(&ident, &(Rect { x0: 0, y0: 0, x1: im.width, y1: im.height })),
            )
        },
        Node::Fragment(f) => f.bbox,
    }
}

impl Group {
    /// An empty group with the identity transform.
    pub fn empty() -> (r: Group)
        ensures
            r.id@ == Seq::<char>::empty(),
            r.transform == identity_spec(),
            r.children@ == Seq::<Node>::empty(),
            r.bbox is None,
    {
        Group { id: String::new(), transform: Transform::identity(), children: Vec::new(), bbox: None }
    }

    /// Recomputes this group's bounding box from its children, bottom-up:
    /// each child contributes its own recorded or recomputed box.
    pub fn calculate_bounding_box(&mut self)
        requires
            forall|i: int|
                0 <= i < old(self).children@.len() ==> node_wf(#[trigger] old(self).children@[i]),
        ensures
            final(self).id == old(self).id,
            final(self).transform == old(self).transform,
            final(self).children == old(self).children,
            final(self).bbox == nodes_bbox(old(self).children@, None::<Rect>),
    {
        let mut acc: Option<Rect> = None;
        let mut i: usize = 0;
        proof {
            assert(self.children@.skip(0) =~= self.children@);
        }
        while i < self.children.len()
            invariant
                0 <= i <= self.children@.len(),
                forall|k: int|
                    0 <= k < self.children@.len() ==> node_wf(#[trigger] self.children@[k]),
                self.children == old(self).children,
                self.id == old(self).id,
                self.transform == old(self).transform,
                self.bbox == old(self).bbox,
                nodes_bbox(self.children@, None::<Rect>) == nodes_bbox(
                    self.children@.skip(i as int),
                    acc,
                ),
            decreases self.children@.len() - i,
        {
            proof {
                assert(self.children@.skip(i as int).first() == self.children@[i as int]);
                assert(self.children@.skip(i as int).drop_first() =~= self.children@.skip(
                    i as int + 1,
                ));
            }
            let b = node_bbox_exec(&self.children[i]);
            match b {
                Some(r) => {
                    acc = include_point_exec(acc, r.x0, r.y0);
                    acc = include_point_exec(acc, r.x1, r.y1);
                },
                None => {},
            }
            i = i + 1;
        }
        proof {
            assert(self.children@.skip(self.children@.len() as int) =~= Seq::<Node>::empty());
        }
        self.bbox = acc;
    }
}

} // verus!
