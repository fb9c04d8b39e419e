//! Outlines: the axis-aligned bounding rectangle of each drawable item.

use crate::fixed::half_spec;
use crate::gr::{has_justify, Effects, GraphicItem, Justify, Pos, Property, Pt, Rect};
use crate::math::transform::{axis_of, fits, place, Transform};
use crate::schema::{
    library_of, GlobalLabel, Junction, LocalLabel, NoConnect, SchemaItem, Symbol, Text, Wire,
};
use crate::symbols::{selects, unit_of, unit_pins, LibrarySymbol, Pin};
use crate::{Error, ErrorKind, Schema};
use vstd::prelude::*;

verus! {

/// The diameter of a junction that has none of its own.
pub const JUNCTION_DIAMETER: i32 = 9144;

/// Half the side of the square around a no-connect mark.
pub const NO_CONNECT_SIZE: i32 = 6350;

/// The smaller of two coordinates.
pub open spec fn min_coord(a: i32, b: i32) -> i32 {
    if a <= b {
        a
    } else {
        b
    }
}

/// The larger of two coordinates.
pub open spec fn max_coord(a: i32, b: i32) -> i32 {
    if a >= b {
        a
    } else {
        b
    }
}

/// The smallest rectangle that holds all the points: `start` has the least x
/// and the least y, `end` the greatest. For no point at all it is the
/// rectangle at the origin.
pub open spec fn bounding(pts: Seq<Pt>) -> Rect
    decreases pts.len(),
{
    if pts.len() == 0 {
        Rect { start: Pt { x: 0, y: 0 }, end: Pt { x: 0, y: 0 } }
    } else if pts.len() == 1 {
        Rect { start: pts[0], end: pts[0] }
    } else {
        let r = bounding(pts.drop_last());
        let p = pts.last();
        Rect {
            start: Pt { x: min_coord(r.start.x, p.x), y: min_coord(r.start.y, p.y) },
            end: Pt { x: max_coord(r.end.x, p.x), y: max_coord(r.end.y, p.y) },
        }
    }
}

/// Every point lies within the bounding rectangle.
pub proof fn lemma_bounding_encloses(pts: Seq<Pt>, i: int)
    requires
        0 <= i < pts.len(),
    ensures
        bounding(pts).start.x <= pts[i].x <= bounding(pts).end.x,
        bounding(pts).start.y <= pts[i].y <= bounding(pts).end.y,
    decreases pts.len(),
{
    if pts.len() > 1 && i < pts.len() - 1 {
        lemma_bounding_encloses(pts.drop_last(), i);
    }
}

/// Each side of the bounding rectangle touches one of the points.
pub proof fn lemma_bounding_attained(pts: Seq<Pt>)
    requires
        pts.len() > 0,
    ensures
        exists|i: int| 0 <= i < pts.len() && pts[i].x == bounding(pts).start.x,
        exists|i: int| 0 <= i < pts.len() && pts[i].y == bounding(pts).start.y,
        exists|i: int| 0 <= i < pts.len() && pts[i].x == bounding(pts).end.x,
        exists|i: int| 0 <= i < pts.len() && pts[i].y == bounding(pts).end.y,
    decreases pts.len(),
{
    if pts.len() == 1 {
        assert(pts[0].x == bounding(pts).start.x);
    } else {
        let q = pts.drop_last();
        lemma_bounding_attained(q);
        let n = pts.len() - 1;
        let a = choose|i: int| 0 <= i < q.len() && q[i].x == bounding(q).start.x;
        let b = choose|i: int| 0 <= i < q.len() && q[i].y == bounding(q).start.y;
        let c = choose|i: int| 0 <= i < q.len() && q[i].x == bounding(q).end.x;
        let d = choose|i: int| 0 <= i < q.len() && q[i].y == bounding(q).end.y;
        assert(pts[a] == q[a] && pts[b] == q[b] && pts[c] == q[c] && pts[d] == q[d]);
        assert(pts[n].x == bounding(pts).start.x || pts[a].x == bounding(pts).start.x);
        assert(pts[n].y == bounding(pts).start.y || pts[b].y == bounding(pts).start.y);
        assert(pts[n].x == bounding(pts).end.x || pts[c].x == bounding(pts).end.x);
        assert(pts[n].y == bounding(pts).end.y || pts[d].y == bounding(pts).end.y);
    }
}

/// Calculates the outline of a list of points.
pub fn calculate(pts: &Vec<Pt>) -> (r: Rect)
    ensures
        r == bounding(pts@),
{
    if pts.len() == 0 {
        return Rect::default();
    }
    let mut r = Rect { start: pts[0], end: pts[0] };
    let mut i: usize = 1;
    assert(pts@.take(1) =~= seq![pts@[0]]);
    while i < pts.len()
        invariant
            1 <= i <= pts.len(),
            r == bounding(pts@.take(i as int)),
        decreases pts.len() - i,
    {
        let p = pts[i];
        assert(pts@.take(i + 1).drop_last() =~= pts@.take(i as int));
        assert(pts@.take(i + 1).last() == p);
        r =
        Rect {
            start: Pt {
                x: if r.start.x <= p.x {
                    r.start.x
                } else {
                    p.x
                },
                y: if r.start.y <= p.y {
                    r.start.y
                } else {
                    p.y
                },
            },
            end: Pt {
                x: if r.end.x >= p.x {
                    r.end.x
                } else {
                    p.x
                },
                y: if r.end.y >= p.y {
                    r.end.y
                } else {
                    p.y
                },
            },
        };
        i += 1;
    }
    assert(pts@.take(i as int) =~= pts@);
    r
}

/// The rectangle with the two corners, if both fit.
pub open spec fn rect_of(a: (int, int), b: (int, int)) -> Result<Rect, ErrorKind> {
    if fits(a) && fits(b) {
        Ok(Rect { start: Pt { x: a.0 as i32, y: a.1 as i32 }, end: Pt { x: b.0 as i32, y: b.1 as i32 } })
    } else {
        Err(ErrorKind::OutOfRange)
    }
}

/// The rectangle with the two corners, if both fit.
fn make_rect(ax: i64, ay: i64, bx: i64, by: i64) -> (r: Result<Rect, Error>)
    ensures
        match r {
            Ok(q) => rect_of((ax as int, ay as int), (bx as int, by as int)) == Ok::<
                Rect,
                ErrorKind,
            >(q),
            Err(e) => rect_of((ax as int, ay as int), (bx as int, by as int)) == Err::<
                Rect,
                ErrorKind,
            >(e.0),
        },
{
    let lo: i64 = i32::MIN as i64;
    let hi: i64 = i32::MAX as i64;
    if lo <= ax && ax <= hi && lo <= ay && ay <= hi && lo <= bx && bx <= hi && lo <= by && by
        <= hi {
        Ok(Rect { start: Pt { x: ax as i32, y: ay as i32 }, end: Pt { x: bx as i32, y: by as i32 } })
    } else {
        Err(Error::new(ErrorKind::OutOfRange, "outline out of range"))
    }
}

/// Whether text at this angle can be laid out: only the four quarter turns.
pub open spec fn text_angle_supported(angle: i32) -> bool {
    angle == 0 || angle == 900000 || angle == 1800000 || angle == 2700000
}

/// The measured size as it is applied: turned upside down, its width is
/// counted backward.
pub open spec fn text_dim(dim: (i32, i32), angle: i32) -> (int, int) {
    if angle == 1800000 {
        (-(dim.0 as int), dim.1 as int)
    } else {
        (dim.0 as int, dim.1 as int)
    }
}

/// The anchor-adjusted start point of a text: flush against the side that a
/// flag names, else centered.
pub open spec fn text_start(d: (int, int), pos: Pos, justify: Seq<Justify>) -> (int, int) {
    if pos.angle == 1800000 {
        (
            if justify.contains(Justify::Right) {
                pos.x as int
            } else if justify.contains(Justify::Left) {
                pos.x - d.0
            } else {
                pos.x - half_spec(d.0)
            },
            if justify.contains(Justify::Top) {
                pos.y + d.1
            } else if justify.contains(Justify::Bottom) {
                pos.y as int
            } else {
                pos.y - half_spec(d.1)
            },
        )
    } else {
        (
            if justify.contains(Justify::Right) {
                pos.x - d.0
            } else if justify.contains(Justify::Left) {
                pos.x as int
            } else {
                pos.x - half_spec(d.0)
            },
            if justify.contains(Justify::Top) {
                pos.y as int
            } else if justify.contains(Justify::Bottom) {
                pos.y - d.1
            } else {
                pos.y - half_spec(d.1)
            },
        )
    }
}

/// The absolute value.
pub open spec fn abs_spec(v: int) -> int {
    if v < 0 {
        -v
    } else {
        v
    }
}

/// The outline of a text with the measured size `dim`, or why it has none.
///
/// With a negative applied width or height the rectangle is built backward
/// from the start point, which is then its `end`.
pub open spec fn text_rect(dim: (i32, i32), pos: Pos, justify: Seq<Justify>) -> Result<
    Rect,
    ErrorKind,
> {
    let d = text_dim(dim, pos.angle);
    let s = text_start(d, pos, justify);
    if !text_angle_supported(pos.angle) {
        Err(ErrorKind::UnsupportedAngle)
    } else if d.0 < 0 || d.1 < 0 {
        rect_of((s.0 - abs_spec(d.0), s.1 - abs_spec(d.1)), s)
    } else {
        rect_of(s, (s.0 + abs_spec(d.0), s.1 + abs_spec(d.1)))
    }
}

/// Turned upside down by the transform, a measured size has its width
/// negated and keeps its height.
pub proof fn lemma_text_dim_is_rotated(dim: (i32, i32), t: Transform)
    requires
        t.mirror is None,
        t.scale is None,
        t.rotate == 1800000,
        t.to == (Pt { x: 0, y: 0 }),
    ensures
        t.supported(),
        t.image(Pt { x: dim.0, y: dim.1 }) == text_dim(dim, 1800000),
{
    assert(crate::math::transform::scaled(t.scale, (dim.0 as int, dim.1 as int)) == (
        dim.0 as int,
        dim.1 as int,
    ));
    assert(crate::math::transform::mirror_signs(t.axis()) == Some((1int, -1int)));
    assert(crate::math::transform::quarter_cos_sin(t.rotate as int) == Some((-1int, 0int)));
}

/// Half of `v`, rounded toward zero.
fn half_wide(v: i64) -> (h: i64)
    requires
        i64::MIN < v,
    ensures
        h == half_spec(v as int),
{
    if v >= 0 {
        v / 2
    } else {
        -((-v) / 2)
    }
}

/// The outline of a text, from its measured width and height, its position
/// and its text effects.
///
/// Fails with `UnsupportedAngle` unless the angle is 0, 90, 180 or 270
/// degrees, and with `OutOfRange` if a corner does not fit.
pub fn text(dim: (i32, i32), pos: &Pos, effects: &Effects) -> (r: Result<Rect, Error>)
    ensures
        match r {
            Ok(q) => text_rect(dim, *pos, effects.justify@) == Ok::<Rect, ErrorKind>(q),
            Err(e) => text_rect(dim, *pos, effects.justify@) == Err::<Rect, ErrorKind>(e.0),
        },
{
    let right = has_justify(&effects.justify, Justify::Right);
    let left = has_justify(&effects.justify, Justify::Left);
    let top = has_justify(&effects.justify, Justify::Top);
    let bottom = has_justify(&effects.justify, Justify::Bottom);
    let px: i64 = pos.x as i64;
    let py: i64 = pos.y as i64;
    let (dx, dy, sx, sy): (i64, i64, i64, i64) = if pos.angle == 0 || pos.angle == 900000
        || pos.angle == 2700000 {
        let dx: i64 = dim.0 as i64;
        let dy: i64 = dim.1 as i64;
        (
            dx,
            dy,
            if right {
                px - dx
            } else if left {
                px
            } else {
                px - half_wide(dx)
            },
            if top {
                py
            } else if bottom {
                py - dy
            } else {
                py - half_wide(dy)
            },
        )
    } else if pos.angle == 1800000 {
        let dx: i64 = -(dim.0 as i64);
        let dy: i64 = dim.1 as i64;
        (
            dx,
            dy,
            if right {
                px
            } else if left {
                px - dx
            } else {
                px - half_wide(dx)
            },
            if top {
                py + dy
            } else if bottom {
                py
            } else {
                py - half_wide(dy)
            },
        )
    } else {
        return Err(Error::new(ErrorKind::UnsupportedAngle, "unsupported angle"));
    };
    let ax: i64 = if dx < 0 {
        -dx
    } else {
        dx
    };
    let ay: i64 = if dy < 0 {
        -dy
    } else {
        dy
    };
    if dx < 0 || dy < 0 {
        make_rect(sx - ax, sy - ay, sx, sy)
    } else {
        make_rect(sx, sy, sx + ax, sy + ay)
    }
}

/// The outline of a junction: the square around its position whose side is
/// its diameter, or the default diameter if it has none.
pub open spec fn junction_rect(j: Junction) -> Result<Rect, ErrorKind> {
    let d = half_spec(
        if j.diameter == 0 {
            JUNCTION_DIAMETER as int
        } else {
            j.diameter as int
        },
    );
    rect_of((j.pos.x - d, j.pos.y - d), (j.pos.x + d, j.pos.y + d))
}

/// The outline of a no-connect mark: the square of fixed size around its
/// position.
pub open spec fn no_connect_rect(n: NoConnect) -> Result<Rect, ErrorKind> {
    rect_of(
        (n.pos.x - NO_CONNECT_SIZE, n.pos.y - NO_CONNECT_SIZE),
        (n.pos.x + NO_CONNECT_SIZE, n.pos.y + NO_CONNECT_SIZE),
    )
}

/// The outline of a wire: from its first point to its second, whichever way
/// they lie. A wire with fewer than two points has none.
pub open spec fn wire_rect(w: Wire) -> Result<Rect, ErrorKind> {
    if w.pts.0@.len() < 2 {
        Err(ErrorKind::Malformed)
    } else {
        Ok(Rect { start: w.pts.0@[0], end: w.pts.0@[1] })
    }
}

/// The outline of an item that is placed in a schema.
pub trait Bbox {
    /// The outline that the item has in the schema, or why it has none.
    spec fn rect(&self, schema: &Schema) -> Result<Rect, ErrorKind>;

    /// The outline of the item.
    fn outline(&self, schema: &Schema) -> (r: Result<Rect, Error>)
        ensures
            match r {
                Ok(q) => self.rect(schema) == Ok::<Rect, ErrorKind>(q),
                Err(e) => self.rect(schema) == Err::<Rect, ErrorKind>(e.0),
            },
    ;
}

impl Bbox for Junction {
    open spec fn rect(&self, schema: &Schema) -> Result<Rect, ErrorKind> {
        junction_rect(*self)
    }

    /// The outline of the junction.
    fn outline(&self, schema: &Schema) -> (r: Result<Rect, Error>) {
        let d: i64 = if self.diameter == 0 {
            half_wide(JUNCTION_DIAMETER as i64)
        } else {
            half_wide(self.diameter as i64)
        };
        let x: i64 = self.pos.x as i64;
        let y: i64 = self.pos.y as i64;
        make_rect(x - d, y - d, x + d, y + d)
    }
}

impl Bbox for NoConnect {
    open spec fn rect(&self, schema: &Schema) -> Result<Rect, ErrorKind> {
        no_connect_rect(*self)
    }

    /// The outline of the no-connect mark.
    fn outline(&self, schema: &Schema) -> (r: Result<Rect, Error>) {
        let x: i64 = self.pos.x as i64;
        let y: i64 = self.pos.y as i64;
        let d: i64 = NO_CONNECT_SIZE as i64;
        make_rect(x - d, y - d, x + d, y + d)
    }
}

impl Bbox for Wire {
    open spec fn rect(&self, schema: &Schema) -> Result<Rect, ErrorKind> {
        wire_rect(*self)
    }

    /// The outline of the wire; its corners are not put in order.
    fn outline(&self, schema: &Schema) -> (r: Result<Rect, Error>) {
        if self.pts.0.len() < 2 {
            Err(Error::new(ErrorKind::Malformed, "a wire has two points"))
        } else {
            Ok(Rect { start: self.pts.0[0], end: self.pts.0[1] })
        }
    }
}

impl LocalLabel {
    /// The outline of the label's text, measured as `dim`.
    pub fn outline(&self, dim: (i32, i32)) -> (r: Result<Rect, Error>)
        ensures
            match r {
                Ok(q) => text_rect(dim, self.pos, self.effects.justify@) == Ok::<Rect, ErrorKind>(
                    q,
                ),
                Err(e) => text_rect(dim, self.pos, self.effects.justify@) == Err::<
                    Rect,
                    ErrorKind,
                >(e.0),
            },
    {
        text(dim, &self.pos, &self.effects)
    }
}

impl GlobalLabel {
    /// The outline of the label's text, measured as `dim`.
    pub fn outline(&self, dim: (i32, i32)) -> (r: Result<Rect, Error>)
        ensures
            match r {
                Ok(q) => text_rect(dim, self.pos, self.effects.justify@) == Ok::<Rect, ErrorKind>(
                    q,
                ),
                Err(e) => text_rect(dim, self.pos, self.effects.justify@) == Err::<
                    Rect,
                    ErrorKind,
                >(e.0),
            },
    {
        text(dim, &self.pos, &self.effects)
    }
}

impl Text {
    /// The outline of the text, measured as `dim`.
    pub fn outline(&self, dim: (i32, i32)) -> (r: Result<Rect, Error>)
        ensures
            match r {
                Ok(q) => text_rect(dim, self.pos, self.effects.justify@) == Ok::<Rect, ErrorKind>(
                    q,
                ),
                Err(e) => text_rect(dim, self.pos, self.effects.justify@) == Err::<
                    Rect,
                    ErrorKind,
                >(e.0),
            },
    {
        text(dim, &self.pos, &self.effects)
    }
}

impl Property {
    /// The outline of the property's value, measured as `dim`.
    pub fn outline(&self, dim: (i32, i32)) -> (r: Result<Rect, Error>)
        ensures
            match r {
                Ok(q) => text_rect(dim, self.pos, self.effects.justify@) == Ok::<Rect, ErrorKind>(
                    q,
                ),
                Err(e) => text_rect(dim, self.pos, self.effects.justify@) == Err::<
                    Rect,
                    ErrorKind,
                >(e.0),
            },
    {
        text(dim, &self.pos, &self.effects)
    }
}

/// The coordinates of a point.
pub open spec fn coords(p: Pt) -> (int, int) {
    (p.x as int, p.y as int)
}

/// The points by which a graphic item counts in an outline, in local
/// coordinates: two opposite corners of the square around a circle, the
/// points of a line or polyline, the two corners of a rectangle. Arcs, curves
/// and texts do not count.
pub open spec fn graphic_points(g: GraphicItem) -> Seq<(int, int)> {
    match g {
        GraphicItem::Circle(c) => seq![
            (c.center.x - c.radius, c.center.y - c.radius),
            (c.center.x + c.radius, c.center.y + c.radius),
        ],
        GraphicItem::Line(l) => l.pts.0@.map_values(|p: Pt| coords(p)),
        GraphicItem::Polyline(l) => l.pts.0@.map_values(|p: Pt| coords(p)),
        GraphicItem::Rectangle(r) => seq![coords(r.start), coords(r.end)],
        GraphicItem::Arc(_) => Seq::empty(),
        GraphicItem::Curve(_) => Seq::empty(),
        GraphicItem::Text(_) => Seq::empty(),
    }
}

/// The points of a list of graphic items, in order.
pub open spec fn graphics_points(gs: Seq<GraphicItem>) -> Seq<(int, int)>
    decreases gs.len(),
{
    if gs.len() == 0 {
        Seq::empty()
    } else {
        graphics_points(gs.drop_last()) + graphic_points(gs.last())
    }
}

/// The points of the graphic items of the units that belong to `unit`.
pub open spec fn unit_points(units: Seq<LibrarySymbol>, unit: u8) -> Seq<(int, int)>
    decreases units.len(),
{
    if units.len() == 0 {
        Seq::empty()
    } else if selects(unit_of(units.last().lib_id@), unit) {
        unit_points(units.drop_last(), unit) + graphics_points(units.last().graphics@)
    } else {
        unit_points(units.drop_last(), unit)
    }
}

/// All the points by which a placed unit counts in an outline, in local
/// coordinates: those of its graphic items, then the positions of its pins.
pub open spec fn symbol_points(lib: LibrarySymbol, unit: u8) -> Seq<(int, int)> {
    unit_points(lib.units@, unit) + unit_pins(lib.units@, unit).map_values(
        |p: Pin| (p.pos.x as int, p.pos.y as int),
    )
}

/// Where the placement of a symbol puts a local point.
pub open spec fn place_local(symbol: Symbol, p: (int, int)) -> Result<Pt, ErrorKind> {
    place(
        Pt { x: symbol.pos.x, y: symbol.pos.y },
        symbol.pos.angle as int,
        axis_of(symbol.mirror),
        None,
        p,
    )
}

/// The local points as the symbol is placed, or the reason why the first of
/// them that cannot be placed cannot.
pub open spec fn placed(symbol: Symbol, pts: Seq<(int, int)>) -> Result<Seq<Pt>, ErrorKind>
    decreases pts.len(),
{
    if pts.len() == 0 {
        Ok(Seq::empty())
    } else {
        match placed(symbol, pts.drop_last()) {
            Err(e) => Err(e),
            Ok(v) => match place_local(symbol, pts.last()) {
                Err(e) => Err(e),
                Ok(q) => Ok(v.push(q)),
            },
        }
    }
}

/// The outline of a placed symbol: the bounding rectangle of the points of
/// its unit and of the shared unit, placed as the symbol is.
pub open spec fn symbol_rect(schema: Schema, symbol: Symbol) -> Result<Rect, ErrorKind> {
    match library_of(schema.library_symbols@, symbol.lib_id@) {
        None => Err(ErrorKind::LibraryNotFound),
        Some(lib) => match placed(symbol, symbol_points(lib, symbol.unit)) {
            Err(e) => Err(e),
            Ok(v) => Ok(bounding(v)),
        },
    }
}

/// Every placed point is the image of the local point at its place.
pub proof fn lemma_placed_each(symbol: Symbol, pts: Seq<(int, int)>, i: int)
    requires
        placed(symbol, pts) is Ok,
        0 <= i < pts.len(),
    ensures
        placed(symbol, pts)->Ok_0.len() == pts.len(),
        place_local(symbol, pts[i]) == Ok::<Pt, ErrorKind>(placed(symbol, pts)->Ok_0[i]),
    decreases pts.len(),
{
    lemma_placed_len(symbol, pts);
    lemma_placed_len(symbol, pts.drop_last());
    if i < pts.len() - 1 {
        lemma_placed_each(symbol, pts.drop_last(), i);
    }
}

/// As many points are placed as there are local points.
pub proof fn lemma_placed_len(symbol: Symbol, pts: Seq<(int, int)>)
    requires
        placed(symbol, pts) is Ok,
    ensures
        placed(symbol, pts)->Ok_0.len() == pts.len(),
    decreases pts.len(),
{
    if pts.len() > 0 {
        lemma_placed_len(symbol, pts.drop_last());
    }
}

/// The local points of one graphic item.
fn points_of(g: &GraphicItem, out: &mut Vec<(i64, i64)>)
    requires
        forall|i: int| 0 <= i < old(out)@.len() ==> wide(#[trigger] old(out)@[i]),
    ensures
        ints(final(out)@) == ints(old(out)@) + graphic_points(*g),
        forall|i: int| 0 <= i < final(out)@.len() ==> wide(#[trigger] final(out)@[i]),
{
    match g {
        GraphicItem::Circle(c) => {
            out.push(
                ((c.center.x as i64) - (c.radius as i64), (c.center.y as i64) - (c.radius as i64)),
            );
            out.push(
                ((c.center.x as i64) + (c.radius as i64), (c.center.y as i64) + (c.radius as i64)),
            );
            assert(ints(out@) =~= ints(old(out)@) + graphic_points(*g));
        },
        GraphicItem::Line(l) => {
            push_points(&l.pts.0, out);
        },
        GraphicItem::Polyline(l) => {
            push_points(&l.pts.0, out);
        },
        GraphicItem::Rectangle(r) => {
            out.push((r.start.x as i64, r.start.y as i64));
            out.push((r.end.x as i64, r.end.y as i64));
            assert(ints(out@) =~= ints(old(out)@) + graphic_points(*g));
        },
        GraphicItem::Arc(_) => {
            assert(ints(out@) =~= ints(old(out)@) + graphic_points(*g));
        },
        GraphicItem::Curve(_) => {
            assert(ints(out@) =~= ints(old(out)@) + graphic_points(*g));
        },
        GraphicItem::Text(_) => {
            assert(ints(out@) =~= ints(old(out)@) + graphic_points(*g));
        },
    }
}

/// Whether both coordinates are a sum or difference of two 32-bit values.
pub open spec fn wide(p: (i64, i64)) -> bool {
    -0x1_0000_0000 <= p.0 <= 0x1_0000_0000 && -0x1_0000_0000 <= p.1 <= 0x1_0000_0000
}

/// The points as pairs of integers.
pub open spec fn ints(v: Seq<(i64, i64)>) -> Seq<(int, int)> {
    v.map_values(|p: (i64, i64)| (p.0 as int, p.1 as int))
}

/// Appends the coordinates of the points.
fn push_points(pts: &Vec<Pt>, out: &mut Vec<(i64, i64)>)
    requires
        forall|i: int| 0 <= i < old(out)@.len() ==> wide(#[trigger] old(out)@[i]),
    ensures
        ints(final(out)@) == ints(old(out)@) + pts@.map_values(|p: Pt| coords(p)),
        forall|i: int| 0 <= i < final(out)@.len() ==> wide(#[trigger] final(out)@[i]),
{
    let mut k: usize = 0;
    while k < pts.len()
        invariant
            k <= pts.len(),
            ints(out@) == ints(old(out)@) + pts@.take(k as int).map_values(|p: Pt| coords(p)),
            forall|i: int| 0 <= i < out@.len() ==> wide(#[trigger] out@[i]),
        decreases pts.len() - k,
    {
        let ghost before = out@;
        out.push((pts[k].x as i64, pts[k].y as i64));
        assert(ints(out@) =~= ints(before).push(coords(pts@[k as int])));
        assert(pts@.take(k + 1).map_values(|p: Pt| coords(p)) =~= pts@.take(k as int).map_values(
            |p: Pt| coords(p),
        ).push(coords(pts@[k as int])));
        k += 1;
    }
    assert(pts@.take(k as int) =~= pts@);
}

/// The local points of a placed unit: see `symbol_points`.
fn local_points(lib: &LibrarySymbol, unit: u8) -> (out: Vec<(i64, i64)>)
    ensures
        ints(out@) == symbol_points(*lib, unit),
        forall|i: int| 0 <= i < out@.len() ==> wide(#[trigger] out@[i]),
{
    let mut out: Vec<(i64, i64)> = Vec::new();
    let mut u: usize = 0;
    assert(ints(out@) =~= unit_points(lib.units@.take(0), unit));
    while u < lib.units.len()
        invariant
            u <= lib.units.len(),
            ints(out@) == unit_points(lib.units@.take(u as int), unit),
            forall|i: int| 0 <= i < out@.len() ==> wide(#[trigger] out@[i]),
        decreases lib.units.len() - u,
    {
        let sub = &lib.units[u];
        let own = sub.unit();
        let ghost before = ints(out@);
        assert(lib.units@.take(u + 1).drop_last() =~= lib.units@.take(u as int));
        assert(lib.units@.take(u + 1).last() == lib.units@[u as int]);
        if own == Some(0u8) || own == Some(unit) {
            let mut g: usize = 0;
            assert(before + graphics_points(sub.graphics@.take(0)) =~= before);
            while g < sub.graphics.len()
                invariant
                    g <= sub.graphics.len(),
                    ints(out@) == before + graphics_points(sub.graphics@.take(g as int)),
                    forall|i: int| 0 <= i < out@.len() ==> wide(#[trigger] out@[i]),
                decreases sub.graphics.len() - g,
            {
                assert(sub.graphics@.take(g + 1).drop_last() =~= sub.graphics@.take(g as int));
                assert(sub.graphics@.take(g + 1).last() == sub.graphics@[g as int]);
                let ghost mid = ints(out@);
                points_of(&sub.graphics[g], &mut out);
                assert(ints(out@) =~= before + graphics_points(sub.graphics@.take(g + 1)));
                g += 1;
            }
            assert(sub.graphics@.take(g as int) =~= sub.graphics@);
        }
        u += 1;
    }
    assert(lib.units@.take(u as int) =~= lib.units@);
    let pins = lib.pins(unit);
    let ghost graphics = ints(out@);
    let ghost pin_points = unit_pins(lib.units@, unit).map_values(
        |p: Pin| (p.pos.x as int, p.pos.y as int),
    );
    let mut k: usize = 0;
    while k < pins.len()
        invariant
            k <= pins.len(),
            pins@.len() == unit_pins(lib.units@, unit).len(),
            forall|i: int| 0 <= i < pins@.len() ==> *pins@[i] == unit_pins(lib.units@, unit)[i],
            pin_points == unit_pins(lib.units@, unit).map_values(
                |p: Pin| (p.pos.x as int, p.pos.y as int),
            ),
            ints(out@) == graphics + pin_points.take(k as int),
            forall|i: int| 0 <= i < out@.len() ==> wide(#[trigger] out@[i]),
        decreases pins.len() - k,
    {
        let ghost before = ints(out@);
        out.push((pins[k].pos.x as i64, pins[k].pos.y as i64));
        assert(ints(out@) =~= before.push(pin_points[k as int]));
        assert(pin_points.take(k + 1) =~= pin_points.take(k as int).push(pin_points[k as int]));
        k += 1;
    }
    assert(pin_points.take(k as int) =~= pin_points);
    out
}

impl Bbox for Symbol {
    open spec fn rect(&self, schema: &Schema) -> Result<Rect, ErrorKind> {
        symbol_rect(*schema, *self)
    }

    /// The outline of the placed symbol.
    ///
    /// Fails with `LibraryNotFound` if the schema holds no library symbol for
    /// it, and as the placement of a point fails.
    fn outline(&self, schema: &Schema) -> (r: Result<Rect, Error>) {
        let Some(lib) = schema.library_symbol(self.lib_id.as_str()) else {
            return Err(Error::new(ErrorKind::LibraryNotFound, "library symbol not found"));
        };
        let transform = Transform::new().translation(Pt { x: self.pos.x, y: self.pos.y }).rotation(
            self.pos.angle,
        ).mirror(&self.mirror);
        let local = local_points(lib, self.unit);
        let mut pts: Vec<Pt> = Vec::new();
        let mut i: usize = 0;
        while i < local.len()
            invariant
                i <= local.len(),
                forall|k: int| 0 <= k < local@.len() ==> wide(#[trigger] local@[k]),
                transform.to == (Pt { x: self.pos.x, y: self.pos.y }),
                transform.rotate == self.pos.angle,
                transform.axis() == axis_of(self.mirror),
                transform.scale is None,
                placed(*self, ints(local@).take(i as int)) == Ok::<Seq<Pt>, ErrorKind>(pts@),
                library_of(schema.library_symbols@, self.lib_id@) == Some(*lib),
                ints(local@) == symbol_points(*lib, self.unit),
            decreases local.len() - i,
        {
            assert(ints(local@).take(i + 1).drop_last() =~= ints(local@).take(i as int));
            assert(ints(local@).take(i + 1).last() == (local@[i as int].0 as int, local@[i as int].1 as int));
            match transform.apply_wide(local[i]) {
                Ok(q) => pts.push(q),
                Err(e) => {
                    proof {
                        lemma_placed_fails(*self, ints(local@), i as int);
                    }
                    return Err(e);
                },
            }
            i += 1;
        }
        assert(ints(local@).take(i as int) =~= ints(local@));
        Ok(calculate(&pts))
    }
}

/// Once a local point cannot be placed, the points cannot, and for the
/// reason of the first that cannot.
pub proof fn lemma_placed_fails(symbol: Symbol, pts: Seq<(int, int)>, i: int)
    requires
        0 <= i < pts.len(),
        placed(symbol, pts.take(i)) is Ok,
        place_local(symbol, pts[i]) is Err,
    ensures
        placed(symbol, pts) == Err::<Seq<Pt>, ErrorKind>(place_local(symbol, pts[i])->Err_0),
    decreases pts.len() - i,
{
    assert(pts.take(i + 1).drop_last() =~= pts.take(i));
    assert(pts.take(i + 1).last() == pts[i]);
    lemma_placed_stays_failed(symbol, pts, i + 1);
}

/// A failure to place a prefix of the points is the failure to place them
/// all.
pub proof fn lemma_placed_stays_failed(symbol: Symbol, pts: Seq<(int, int)>, n: int)
    requires
        0 <= n <= pts.len(),
        placed(symbol, pts.take(n)) is Err,
    ensures
        placed(symbol, pts) == placed(symbol, pts.take(n)),
    decreases pts.len() - n,
{
    if n < pts.len() {
        assert(pts.take(n + 1).drop_last() =~= pts.take(n));
        lemma_placed_stays_failed(symbol, pts, n + 1);
    } else {
        assert(pts.take(n) =~= pts);
    }
}

/// A text of the schema whose size has to be measured before the outline of
/// the schema can be computed.
#[derive(Debug, Clone, Copy)]
pub struct TextItem<'a> {
    /// The characters.
    pub text: &'a String,
    /// Where the text is anchored, and its angle.
    pub pos: Pos,
    /// Font and justification.
    pub effects: &'a Effects,
}

/// The texts of the visible properties, in order.
pub open spec fn visible_texts(props: Seq<Property>) -> Seq<TextItem<'static>>
    decreases props.len(),
{
    if props.len() == 0 {
        Seq::empty()
    } else if !props.last().effects.hide {
        visible_texts(props.drop_last()).push(
            TextItem {
                text: &props.last().value,
                pos: props.last().pos,
                effects: &props.last().effects,
            },
        )
    } else {
        visible_texts(props.drop_last())
    }
}

/// The texts of one item that count in the outline of a schema: the text of
/// a label, the visible properties of a symbol.
pub open spec fn item_texts(item: SchemaItem) -> Seq<TextItem<'static>> {
    match item {
        SchemaItem::LocalLabel(l) => seq![TextItem { text: &l.text, pos: l.pos, effects: &l.effects }],
        SchemaItem::GlobalLabel(l) => seq![
            TextItem { text: &l.text, pos: l.pos, effects: &l.effects },
        ],
        SchemaItem::Symbol(s) => visible_texts(s.props@),
        _ => Seq::empty(),
    }
}

/// The texts of the items that count in the outline of a schema, in order.
pub open spec fn schema_texts(items: Seq<SchemaItem>) -> Seq<TextItem<'static>>
    decreases items.len(),
{
    if items.len() == 0 {
        Seq::empty()
    } else {
        schema_texts(items.drop_last()) + item_texts(items.last())
    }
}

/// The two corners of a rectangle, or the reason why there is none.
pub open spec fn corners_of(r: Result<Rect, ErrorKind>) -> Result<Seq<Pt>, ErrorKind> {
    match r {
        Ok(q) => Ok(seq![q.start, q.end]),
        Err(e) => Err(e),
    }
}

/// The corners of the outline of an item that has a shape of its own:
/// junction, no-connect mark, wire and symbol.
pub open spec fn item_shape(schema: Schema, item: SchemaItem) -> Result<Seq<Pt>, ErrorKind> {
    match item {
        SchemaItem::Junction(j) => corners_of(junction_rect(j)),
        SchemaItem::NoConnect(n) => corners_of(no_connect_rect(n)),
        SchemaItem::Wire(w) => corners_of(wire_rect(w)),
        SchemaItem::Symbol(s) => corners_of(symbol_rect(schema, s)),
        _ => Ok(Seq::empty()),
    }
}

/// One list after the other, or the first failure.
pub open spec fn join(a: Result<Seq<Pt>, ErrorKind>, b: Result<Seq<Pt>, ErrorKind>) -> Result<
    Seq<Pt>,
    ErrorKind,
> {
    match a {
        Err(e) => Err(e),
        Ok(x) => match b {
            Err(e) => Err(e),
            Ok(y) => Ok(x + y),
        },
    }
}

/// The corners of the shapes of the items, in order, or the failure of the
/// first item whose outline fails.
pub open spec fn shapes(schema: Schema, items: Seq<SchemaItem>) -> Result<Seq<Pt>, ErrorKind>
    decreases items.len(),
{
    if items.len() == 0 {
        Ok(Seq::empty())
    } else {
        join(shapes(schema, items.drop_last()), item_shape(schema, items.last()))
    }
}

/// The corners of the outlines of the texts, each with its measured size, or
/// the failure of the first text whose outline fails.
pub open spec fn text_shapes(texts: Seq<TextItem<'static>>, dims: Seq<(i32, i32)>) -> Result<
    Seq<Pt>,
    ErrorKind,
>
    recommends
        texts.len() == dims.len(),
    decreases texts.len(),
{
    if texts.len() == 0 || dims.len() == 0 {
        Ok(Seq::empty())
    } else {
        join(
            text_shapes(texts.drop_last(), dims.drop_last()),
            corners_of(text_rect(dims.last(), texts.last().pos, texts.last().effects.justify@)),
        )
    }
}

/// The outline of a schema: the bounding rectangle of the outlines of its
/// junctions, no-connect marks, wires and symbols, and of its label texts
/// and visible symbol properties, whose measured sizes are `dims`, in the
/// order of `schema_texts`.
///
/// The shapes are taken first, then the texts; the first failure is the
/// result.
pub open spec fn schema_rect(schema: Schema, dims: Seq<(i32, i32)>) -> Result<Rect, ErrorKind> {
    if dims.len() != schema_texts(schema.items@).len() {
        Err(ErrorKind::Measure)
    } else {
        match join(
            shapes(schema, schema.items@),
            text_shapes(schema_texts(schema.items@), dims),
        ) {
            Err(e) => Err(e),
            Ok(c) => Ok(bounding(c)),
        }
    }
}

/// A failure among the first items is the failure of all.
pub proof fn lemma_shapes_stay_failed(schema: Schema, items: Seq<SchemaItem>, n: int)
    requires
        0 <= n <= items.len(),
        shapes(schema, items.take(n)) is Err,
    ensures
        shapes(schema, items) == shapes(schema, items.take(n)),
    decreases items.len() - n,
{
    if n < items.len() {
        assert(items.take(n + 1).drop_last() =~= items.take(n));
        lemma_shapes_stay_failed(schema, items, n + 1);
    } else {
        assert(items.take(n) =~= items);
    }
}

/// A failure among the first texts is the failure of all.
pub proof fn lemma_text_shapes_stay_failed(
    texts: Seq<TextItem<'static>>,
    dims: Seq<(i32, i32)>,
    n: int,
)
    requires
        texts.len() == dims.len(),
        0 <= n <= texts.len(),
        text_shapes(texts.take(n), dims.take(n)) is Err,
    ensures
        text_shapes(texts, dims) == text_shapes(texts.take(n), dims.take(n)),
    decreases texts.len() - n,
{
    if n < texts.len() {
        assert(texts.take(n + 1).drop_last() =~= texts.take(n));
        assert(dims.take(n + 1).drop_last() =~= dims.take(n));
        lemma_text_shapes_stay_failed(texts, dims, n + 1);
    } else {
        assert(texts.take(n) =~= texts);
        assert(dims.take(n) =~= dims);
    }
}

impl Schema {
    /// The texts that count in the outline of the schema, in the order of the
    /// items: the text of each local and global label and the value of each
    /// visible property of each symbol. Their measured sizes are what
    /// `outline` takes.
    pub fn texts(&self) -> (r: Vec<TextItem<'_>>)
        ensures
            r@ == schema_texts(self.items@),
    {
        let mut out: Vec<TextItem<'_>> = Vec::new();
        let mut i: usize = 0;
        assert(self.items@.take(0) =~= Seq::<SchemaItem>::empty());
        while i < self.items.len()
            invariant
                i <= self.items.len(),
                out@ == schema_texts(self.items@.take(i as int)),
            decreases self.items.len() - i,
        {
            assert(self.items@.take(i + 1).drop_last() =~= self.items@.take(i as int));
            assert(self.items@.take(i + 1).last() == self.items@[i as int]);
            let ghost before = out@;
            match &self.items[i] {
                SchemaItem::LocalLabel(l) => {
                    out.push(TextItem { text: &l.text, pos: l.pos, effects: &l.effects });
                    assert(out@ =~= before + item_texts(self.items@[i as int]));
                },
                SchemaItem::GlobalLabel(l) => {
                    out.push(TextItem { text: &l.text, pos: l.pos, effects: &l.effects });
                    assert(out@ =~= before + item_texts(self.items@[i as int]));
                },
                SchemaItem::Symbol(s) => {
                    let mut k: usize = 0;
                    assert(s.props@.take(0) =~= Seq::<Property>::empty());
                    assert(out@ =~= before + visible_texts(s.props@.take(0)));
                    while k < s.props.len()
                        invariant
                            k <= s.props.len(),
                            out@ == before + visible_texts(s.props@.take(k as int)),
                        decreases s.props.len() - k,
                    {
                        assert(s.props@.take(k + 1).drop_last() =~= s.props@.take(k as int));
                        assert(s.props@.take(k + 1).last() == s.props@[k as int]);
                        let ghost mid = out@;
                        if s.props[k].visible() {
                            out.push(
                                TextItem {
                                    text: &s.props[k].value,
                                    pos: s.props[k].pos,
                                    effects: &s.props[k].effects,
                                },
                            );
                            assert(out@ =~= before + visible_texts(s.props@.take(k + 1)));
                        }
                        k += 1;
                    }
                    assert(s.props@.take(k as int) =~= s.props@);
                },
                _ => {
                    assert(out@ =~= before + item_texts(self.items@[i as int]));
                },
            }
            i += 1;
        }
        assert(self.items@.take(i as int) =~= self.items@);
        out
    }

    /// Returns the outline of this [`Schema`], for the measured sizes `dims`
    /// of its texts, one for each of `texts()` and in that order.
    ///
    /// Fails with `Measure` if there are not as many sizes as texts, and
    /// else as the first outline that fails: the shapes first, then the
    /// texts.
    pub fn outline(&self, dims: &Vec<(i32, i32)>) -> (r: Result<Rect, Error>)
        ensures
            match r {
                Ok(q) => schema_rect(*self, dims@) == Ok::<Rect, ErrorKind>(q),
                Err(e) => schema_rect(*self, dims@) == Err::<Rect, ErrorKind>(e.0),
            },
    {
        let texts = self.texts();
        if texts.len() != dims.len() {
            return Err(Error::new(ErrorKind::Measure, "one measured size for each text"));
        }
        let mut pts: Vec<Pt> = Vec::new();
        let mut i: usize = 0;
        assert(self.items@.take(0) =~= Seq::<SchemaItem>::empty());
        while i < self.items.len()
            invariant
                i <= self.items.len(),
                shapes(*self, self.items@.take(i as int)) == Ok::<Seq<Pt>, ErrorKind>(pts@),
                texts@ == schema_texts(self.items@),
                texts@.len() == dims@.len(),
            decreases self.items.len() - i,
        {
            assert(self.items@.take(i + 1).drop_last() =~= self.items@.take(i as int));
            assert(self.items@.take(i + 1).last() == self.items@[i as int]);
            let bound = match &self.items[i] {
                SchemaItem::Junction(junction) => Some(junction.outline(self)),
                SchemaItem::NoConnect(nc) => Some(nc.outline(self)),
                SchemaItem::Wire(wire) => Some(wire.outline(self)),
                SchemaItem::Symbol(symbol) => Some(symbol.outline(self)),
                _ => None,
            };
            let ghost before = pts@;
            match bound {
                Some(Ok(b)) => {
                    pts.push(b.start);
                    pts.push(b.end);
                    assert(pts@ =~= before + seq![b.start, b.end]);
                },
                Some(Err(e)) => {
                    proof {
                        lemma_shapes_stay_failed(*self, self.items@, i + 1);
                    }
                    return Err(e);
                },
                None => {
                    assert(pts@ =~= before + Seq::<Pt>::empty());
                },
            }
            i += 1;
        }
        assert(self.items@.take(i as int) =~= self.items@);
        let ghost shape_pts = pts@;
        let mut k: usize = 0;
        assert(texts@.take(0) =~= Seq::<TextItem>::empty());
        assert(pts@ =~= shape_pts + Seq::<Pt>::empty());
        while k < texts.len()
            invariant
                k <= texts.len(),
                texts@.len() == dims@.len(),
                texts@ == schema_texts(self.items@),
                shapes(*self, self.items@) == Ok::<Seq<Pt>, ErrorKind>(shape_pts),
                exists|c: Seq<Pt>|
                    text_shapes(texts@.take(k as int), dims@.take(k as int)) == Ok::<
                        Seq<Pt>,
                        ErrorKind,
                    >(c) && pts@ == shape_pts + c,
            decreases texts.len() - k,
        {
            assert(texts@.take(k + 1).drop_last() =~= texts@.take(k as int));
            assert(dims@.take(k + 1).drop_last() =~= dims@.take(k as int));
            assert(texts@.take(k + 1).last() == texts@[k as int]);
            assert(dims@.take(k + 1).last() == dims@[k as int]);
            let ghost c = choose|c: Seq<Pt>|
                text_shapes(texts@.take(k as int), dims@.take(k as int)) == Ok::<
                    Seq<Pt>,
                    ErrorKind,
                >(c) && pts@ == shape_pts + c;
            match text(dims[k], &texts[k].pos, texts[k].effects) {
                Ok(b) => {
                    pts.push(b.start);
                    pts.push(b.end);
                    assert(pts@ =~= shape_pts + (c + seq![b.start, b.end]));
                },
                Err(e) => {
                    proof {
                        lemma_text_shapes_stay_failed(texts@, dims@, k + 1);
                    }
                    return Err(e);
                },
            }
            k += 1;
        }
        assert(texts@.take(k as int) =~= texts@);
        assert(dims@.take(k as int) =~= dims@);
        Ok(calculate(&pts))
    }
}

} // verus!
