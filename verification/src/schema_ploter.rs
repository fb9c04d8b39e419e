//! What is drawn for a schema: for each item the moves, lines, shapes and
//! texts that a plotter is told, in the colors and widths of the theme.

use crate::gr::{
    Arc, Circle, Color, Effects, FillType, Font, GraphicItem, Justify, Polyline, Pos, Pt, Rect,
    Rectangle,
};
use crate::math::bbox::{JUNCTION_DIAMETER, NO_CONNECT_SIZE};
use crate::math::transform::{axis_of, place, Transform};
use crate::plot::theme::{
    theme_color, theme_fill, theme_font_size, theme_width, Style, Theme,
};
use crate::math::bbox::schema_rect;
use crate::plot::{is_scaled, scales, Paint, PlotCommand, PlotterImpl, PlotterNodes};
use crate::draw::At;
use crate::math::pin_position;
use crate::schema::{
    library_of, resolve, GlobalLabel, Junction, LocalLabel, NoConnect, SchemaItem, Symbol, Wire,
};
use crate::symbols::{selects, unit_of, unit_pins, LibrarySymbol, Pin};
use crate::{Error, ErrorKind, Schema};
use vstd::prelude::*;

verus! {

/// How a text is displayed, with the characters of its strings.
pub struct Look {
    pub face: Option<Seq<char>>,
    pub size: (i32, i32),
    pub thickness: Option<i32>,
    pub bold: bool,
    pub italic: bool,
    pub line_spacing: Option<i32>,
    pub color: Option<Color>,
    pub justify: Seq<Justify>,
    pub hide: bool,
}

/// What a plotter is told to draw, with the characters of its strings.
pub enum Event {
    MoveTo(Pt),
    LineTo(Pt),
    Close,
    Stroke(Paint),
    Rect { rect: Rect, stroke: Paint },
    Arc { start: Pt, mid: Pt, end: Pt, stroke: Paint },
    Circle { center: Pt, radius: i32, stroke: Paint },
    Text { text: Seq<char>, pos: Pos, look: Look },
}

/// How the effects display a text.
pub open spec fn look_of(e: Effects) -> Look {
    Look {
        face: match e.font.face {
            Some(f) => Some(f@),
            None => None,
        },
        size: e.font.size,
        thickness: e.font.thickness,
        bold: e.font.bold,
        italic: e.font.italic,
        line_spacing: e.font.line_spacing,
        color: e.font.color,
        justify: e.justify@,
        hide: e.hide,
    }
}

/// What a node tells the plotter.
pub open spec fn event_of(node: PlotterNodes) -> Event {
    match node {
        PlotterNodes::MoveTo(p) => Event::MoveTo(p),
        PlotterNodes::LineTo(p) => Event::LineTo(p),
        PlotterNodes::Close => Event::Close,
        PlotterNodes::Stroke(s) => Event::Stroke(s),
        PlotterNodes::Rect { rect, stroke } => Event::Rect { rect, stroke },
        PlotterNodes::Arc { start, mid, end, stroke } => Event::Arc { start, mid, end, stroke },
        PlotterNodes::Circle { center, radius, stroke } => Event::Circle { center, radius, stroke },
        PlotterNodes::Text { text, pos, effects } => Event::Text {
            text: text@,
            pos,
            look: look_of(effects),
        },
    }
}

/// What the nodes tell the plotter, in order.
pub open spec fn events_of(nodes: Seq<PlotterNodes>) -> Seq<Event> {
    nodes.map_values(|n: PlotterNodes| event_of(n))
}

/// What a drawing gives: what its nodes tell the plotter, or the kind of
/// its error.
pub open spec fn drawn(r: Result<Vec<PlotterNodes>, Error>) -> Result<Seq<Event>, ErrorKind> {
    match r {
        Ok(v) => Ok(events_of(v@)),
        Err(e) => Err(e.0),
    }
}

/// A point or the kind of the error.
pub open spec fn point(r: Result<Pt, Error>) -> Result<Pt, ErrorKind> {
    match r {
        Ok(v) => Ok(v),
        Err(e) => Err(e.0),
    }
}

/// A paint or the kind of the error.
pub open spec fn painted(r: Result<Paint, Error>) -> Result<Paint, ErrorKind> {
    match r {
        Ok(v) => Ok(v),
        Err(e) => Err(e.0),
    }
}

/// One drawing behind another: the error of the first, else the error of
/// the second, else the events of both.
pub open spec fn both(a: Result<Seq<Event>, ErrorKind>, b: Result<Seq<Event>, ErrorKind>) -> Result<
    Seq<Event>,
    ErrorKind,
> {
    match a {
        Err(e) => Err(e),
        Ok(x) => match b {
            Err(e) => Err(e),
            Ok(y) => Ok(x + y),
        },
    }
}

/// One drawing behind another.
fn join(a: Result<Vec<PlotterNodes>, Error>, b: Result<Vec<PlotterNodes>, Error>) -> (r: Result<
    Vec<PlotterNodes>,
    Error,
>)
    ensures
        drawn(r) == both(drawn(a), drawn(b)),
{
    match a {
        Err(e) => Err(e),
        Ok(x) => match b {
            Err(e) => Err(e),
            Ok(y) => {
                let mut x = x;
                let mut y = y;
                let ghost first = x@;
                let ghost second = y@;
                x.append(&mut y);
                assert(events_of(x@) =~= events_of(first) + events_of(second));
                Ok(x)
            },
        },
    }
}

/// A line with a stroke: the error of the first point, else of the second,
/// else of the paint, else a move, a line and the stroke.
pub open spec fn line_events(
    a: Result<Pt, ErrorKind>,
    b: Result<Pt, ErrorKind>,
    paint: Result<Paint, ErrorKind>,
) -> Result<Seq<Event>, ErrorKind> {
    match a {
        Err(e) => Err(e),
        Ok(p) => match b {
            Err(e) => Err(e),
            Ok(q) => match paint {
                Err(e) => Err(e),
                Ok(s) => Ok(seq![Event::MoveTo(p), Event::LineTo(q), Event::Stroke(s)]),
            },
        },
    }
}

/// A line with a stroke.
fn line(a: Result<Pt, Error>, b: Result<Pt, Error>, paint: Result<Paint, Error>) -> (r: Result<
    Vec<PlotterNodes>,
    Error,
>)
    ensures
        drawn(r) == line_events(point(a), point(b), painted(paint)),
{
    let p = match a {
        Ok(p) => p,
        Err(e) => {
            return Err(e);
        },
    };
    let q = match b {
        Ok(q) => q,
        Err(e) => {
            return Err(e);
        },
    };
    let s = match paint {
        Ok(s) => s,
        Err(e) => {
            return Err(e);
        },
    };
    let mut v: Vec<PlotterNodes> = Vec::new();
    v.push(PlotterNodes::MoveTo(p));
    v.push(PlotterNodes::LineTo(q));
    v.push(PlotterNodes::Stroke(s));
    assert(events_of(v@) =~= seq![Event::MoveTo(p), Event::LineTo(q), Event::Stroke(s)]);
    Ok(v)
}

/// The paint of a stroke in a style: the color given, else that of the
/// theme, and the width of the theme. `Theme` if the theme lacks one.
pub open spec fn stroke_paint(color: Option<Color>, fill: Option<Color>, style: Style) -> Result<
    Paint,
    ErrorKind,
> {
    match (color, theme_color(style), theme_width(style)) {
        (Some(c), _, Some(w)) => Ok(Paint { color: c, fill, width: w }),
        (None, Some(c), Some(w)) => Ok(Paint { color: c, fill, width: w }),
        _ => Err(ErrorKind::Theme),
    }
}

/// The paint of a stroke in a style.
fn paint_of(theme: &Theme, color: Option<Color>, fill: Option<Color>, style: Style) -> (r: Result<
    Paint,
    Error,
>)
    ensures
        painted(r) == stroke_paint(color, fill, style),
{
    let c = match theme.color(color, style) {
        Ok(c) => c,
        Err(e) => {
            return Err(e);
        },
    };
    let w = match theme.width(0, style) {
        Ok(w) => w,
        Err(e) => {
            return Err(e);
        },
    };
    Ok(Paint { color: c, fill, width: w })
}

/// The text of an item as it is drawn: in the face of the theme, in the
/// size of the item or, if its width is 0, of the theme, and in the color
/// of the item or of the theme; both as the theme has them for properties.
pub open spec fn text_event(text: Seq<char>, pos: Pos, e: Effects, hide: bool) -> Result<
    Event,
    ErrorKind,
> {
    let size = if e.font.size.0 == 0 {
        theme_font_size(Style::Property)
    } else {
        Some(e.font.size)
    };
    let color = match e.font.color {
        Some(c) => Some(c),
        None => theme_color(Style::Property),
    };
    match (size, color) {
        (Some(s), Some(c)) => Ok(
            Event::Text {
                text,
                pos,
                look: Look {
                    face: Some("osifont"@),
                    size: s,
                    thickness: e.font.thickness,
                    bold: e.font.bold,
                    italic: e.font.italic,
                    line_spacing: e.font.line_spacing,
                    color: Some(c),
                    justify: e.justify@,
                    hide,
                },
            },
        ),
        _ => Err(ErrorKind::Theme),
    }
}

/// A copy of the flags.
fn copy_flags(flags: &Vec<Justify>) -> (r: Vec<Justify>)
    ensures
        r@ == flags@,
{
    let mut r: Vec<Justify> = Vec::new();
    let mut i: usize = 0;
    while i < flags.len()
        invariant
            i <= flags.len(),
            r@ == flags@.take(i as int),
        decreases flags.len() - i,
    {
        r.push(flags[i]);
        assert(r@ =~= flags@.take(i + 1));
        i += 1;
    }
    assert(flags@.take(i as int) =~= flags@);
    r
}

/// The text of an item as it is drawn.
fn themed_text(theme: &Theme, text: &str, pos: Pos, e: &Effects, hide: bool) -> (r: Result<
    PlotterNodes,
    Error,
>)
    ensures
        match r {
            Ok(n) => text_event(text@, pos, *e, hide) == Ok::<Event, ErrorKind>(event_of(n)),
            Err(err) => text_event(text@, pos, *e, hide) == Err::<Event, ErrorKind>(err.0),
        },
{
    let size = match theme.font_size(e.font.size, Style::Property) {
        Ok(s) => s,
        Err(err) => {
            return Err(err);
        },
    };
    let color = match theme.color(e.font.color, Style::Property) {
        Ok(c) => c,
        Err(err) => {
            return Err(err);
        },
    };
    Ok(
        PlotterNodes::Text {
            text: text.to_string(),
            pos,
            effects: Effects {
                font: Font {
                    face: Some(theme.face()),
                    size,
                    thickness: e.font.thickness,
                    bold: e.font.bold,
                    italic: e.font.italic,
                    line_spacing: e.font.line_spacing,
                    color: Some(color),
                },
                justify: copy_flags(&e.justify),
                hide,
            },
        },
    )
}

/// What is drawn for a wire: a line from its first point to its second.
/// `Malformed` if it has fewer than two points.
pub open spec fn wire_events(w: Wire) -> Result<Seq<Event>, ErrorKind> {
    if w.pts.0@.len() < 2 {
        Err(ErrorKind::Malformed)
    } else {
        match stroke_paint(w.stroke.color, None, Style::Wire) {
            Err(e) => Err(e),
            Ok(p) => Ok(
                seq![Event::MoveTo(w.pts.0@[0]), Event::LineTo(w.pts.0@[1]), Event::Stroke(p)],
            ),
        }
    }
}

/// What is drawn for a wire.
pub fn plot_wire(theme: &Theme, w: &Wire) -> (r: Result<Vec<PlotterNodes>, Error>)
    ensures
        drawn(r) == wire_events(*w),
{
    if w.pts.0.len() < 2 {
        return Err(Error::new(ErrorKind::Malformed, "a wire has two points"));
    }
    let p = match paint_of(theme, w.stroke.color, None, Style::Wire) {
        Ok(p) => p,
        Err(e) => {
            return Err(e);
        },
    };
    let mut v: Vec<PlotterNodes> = Vec::new();
    v.push(PlotterNodes::MoveTo(w.pts.0[0]));
    v.push(PlotterNodes::LineTo(w.pts.0[1]));
    v.push(PlotterNodes::Stroke(p));
    assert(events_of(v@) =~= seq![
        Event::MoveTo(w.pts.0@[0]),
        Event::LineTo(w.pts.0@[1]),
        Event::Stroke(p),
    ]);
    Ok(v)
}

/// The radius with which a junction is drawn: half of its diameter, or of
/// the default diameter if it has none.
pub open spec fn junction_radius(j: Junction) -> int {
    if j.diameter == 0 {
        crate::fixed::half_spec(JUNCTION_DIAMETER as int)
    } else {
        crate::fixed::half_spec(j.diameter as int)
    }
}

/// What is drawn for a junction: a filled circle at its position.
pub open spec fn junction_events(j: Junction) -> Result<Seq<Event>, ErrorKind> {
    match stroke_paint(None, theme_color(Style::Junction), Style::Junction) {
        Err(e) => Err(e),
        Ok(p) => Ok(
            seq![
                Event::Circle {
                    center: Pt { x: j.pos.x, y: j.pos.y },
                    radius: junction_radius(j) as i32,
                    stroke: p,
                },
            ],
        ),
    }
}

/// What is drawn for a junction.
pub fn plot_junction(theme: &Theme, j: &Junction) -> (r: Result<Vec<PlotterNodes>, Error>)
    ensures
        drawn(r) == junction_events(*j),
{
    let fill = match theme.color(None, Style::Junction) {
        Ok(c) => c,
        Err(e) => {
            return Err(e);
        },
    };
    let p = match paint_of(theme, None, Some(fill), Style::Junction) {
        Ok(p) => p,
        Err(e) => {
            return Err(e);
        },
    };
    let radius: i32 = if j.diameter == 0 {
        crate::fixed::half(JUNCTION_DIAMETER)
    } else {
        crate::fixed::half(j.diameter)
    };
    let mut v: Vec<PlotterNodes> = Vec::new();
    v.push(PlotterNodes::Circle { center: Pt { x: j.pos.x, y: j.pos.y }, radius, stroke: p });
    assert(events_of(v@) =~= seq![
        Event::Circle { center: Pt { x: j.pos.x, y: j.pos.y }, radius, stroke: p },
    ]);
    Ok(v)
}

/// Offset, rotation, mirror axis and scale of a transform.
pub struct Placement {
    pub to: Pt,
    pub rotate: i32,
    pub axis: Option<Seq<char>>,
    pub scale: Option<i32>,
}

/// What a transform is made of.
pub open spec fn placement(t: Transform) -> Placement {
    Placement { to: t.to, rotate: t.rotate, axis: t.axis(), scale: t.scale }
}

/// Where a placement puts a point.
pub open spec fn put(pl: Placement, p: (int, int)) -> Result<Pt, ErrorKind> {
    place(pl.to, pl.rotate as int, pl.axis, pl.scale, p)
}

/// The placement that only moves to a position, and flips y as every
/// placement without mirror axis does.
pub open spec fn placement_at(pos: Pos) -> Placement {
    Placement { to: Pt { x: pos.x, y: pos.y }, rotate: 0, axis: None, scale: None }
}

/// What is drawn for a no-connect mark: the two diagonals of its square.
pub open spec fn no_connect_events(nc: NoConnect) -> Result<Seq<Event>, ErrorKind> {
    let s = NO_CONNECT_SIZE as int;
    let pl = placement_at(nc.pos);
    let paint = stroke_paint(None, None, Style::NoConnect);
    both(
        line_events(put(pl, (-s, -s)), put(pl, (s, s)), paint),
        line_events(put(pl, (-s, s)), put(pl, (s, -s)), paint),
    )
}

/// What is drawn for a no-connect mark.
pub fn plot_no_connect(theme: &Theme, nc: &NoConnect) -> (r: Result<Vec<PlotterNodes>, Error>)
    ensures
        drawn(r) == no_connect_events(*nc),
{
    let s: i64 = NO_CONNECT_SIZE as i64;
    let t = Transform::new().translation(Pt { x: nc.pos.x, y: nc.pos.y });
    assert(placement(t) == placement_at(nc.pos));
    let first = line(
        t.apply_wide((-s, -s)),
        t.apply_wide((s, s)),
        paint_of(theme, None, None, Style::NoConnect),
    );
    let second = line(
        t.apply_wide((-s, s)),
        t.apply_wide((s, -s)),
        paint_of(theme, None, None, Style::NoConnect),
    );
    join(first, second)
}

/// Where the text of a label is drawn: one millimeter from its position,
/// to the side that its angle names. `OutOfRange` if that does not fit.
pub open spec fn label_place(pos: Pos) -> Result<Pos, ErrorKind> {
    let (x, y) = if pos.angle == 0 {
        (pos.x + crate::fixed::UNIT, pos.y as int)
    } else if pos.angle == 900000 {
        (pos.x as int, pos.y - crate::fixed::UNIT)
    } else if pos.angle == 1800000 {
        (pos.x - crate::fixed::UNIT, pos.y as int)
    } else {
        (pos.x as int, pos.y + crate::fixed::UNIT)
    };
    if crate::math::transform::fits((x, y)) {
        Ok(Pos { x: x as i32, y: y as i32, angle: pos.angle })
    } else {
        Err(ErrorKind::OutOfRange)
    }
}

/// What is drawn for a label: its text beside its position.
pub open spec fn label_events(text: Seq<char>, pos: Pos, e: Effects) -> Result<
    Seq<Event>,
    ErrorKind,
> {
    match label_place(pos) {
        Err(err) => Err(err),
        Ok(p) => match text_event(text, p, e, e.hide) {
            Err(err) => Err(err),
            Ok(ev) => Ok(seq![ev]),
        },
    }
}

/// What is drawn for a label.
fn plot_label(theme: &Theme, text: &str, pos: Pos, e: &Effects) -> (r: Result<
    Vec<PlotterNodes>,
    Error,
>)
    ensures
        drawn(r) == label_events(text@, pos, *e),
{
    let unit: i64 = crate::fixed::UNIT as i64;
    let (x, y): (i64, i64) = if pos.angle == 0 {
        (pos.x as i64 + unit, pos.y as i64)
    } else if pos.angle == 900000 {
        (pos.x as i64, pos.y as i64 - unit)
    } else if pos.angle == 1800000 {
        (pos.x as i64 - unit, pos.y as i64)
    } else {
        (pos.x as i64, pos.y as i64 + unit)
    };
    if x < i32::MIN as i64 || x > i32::MAX as i64 || y < i32::MIN as i64 || y > i32::MAX as i64 {
        return Err(Error::new(ErrorKind::OutOfRange, "the text of the label is out of range"));
    }
    let at = Pos { x: x as i32, y: y as i32, angle: pos.angle };
    match themed_text(theme, text, at, e, e.hide) {
        Err(err) => Err(err),
        Ok(n) => {
            let mut v: Vec<PlotterNodes> = Vec::new();
            v.push(n);
            assert(events_of(v@) =~= seq![event_of(n)]);
            Ok(v)
        },
    }
}

/// What is drawn for a local label.
pub fn plot_local_label(theme: &Theme, l: &LocalLabel) -> (r: Result<Vec<PlotterNodes>, Error>)
    ensures
        drawn(r) == label_events(l.text@, l.pos, l.effects),
{
    plot_label(theme, l.text.as_str(), l.pos, &l.effects)
}

/// What is drawn for a global label.
pub fn plot_global_label(theme: &Theme, l: &GlobalLabel) -> (r: Result<Vec<PlotterNodes>, Error>)
    ensures
        drawn(r) == label_events(l.text@, l.pos, l.effects),
{
    plot_label(theme, l.text.as_str(), l.pos, &l.effects)
}

/// What is drawn for a text: the text at its position.
pub open spec fn text_events(t: crate::schema::Text) -> Result<Seq<Event>, ErrorKind> {
    match text_event(t.text@, t.pos, t.effects, t.effects.hide) {
        Err(err) => Err(err),
        Ok(ev) => Ok(seq![ev]),
    }
}

/// What is drawn for a text.
pub fn plot_text(theme: &Theme, t: &crate::schema::Text) -> (r: Result<Vec<PlotterNodes>, Error>)
    ensures
        drawn(r) == text_events(*t),
{
    match themed_text(theme, t.text.as_str(), t.pos, &t.effects, t.effects.hide) {
        Err(err) => Err(err),
        Ok(n) => {
            let mut v: Vec<PlotterNodes> = Vec::new();
            v.push(n);
            assert(events_of(v@) =~= seq![event_of(n)]);
            Ok(v)
        },
    }
}

/// The color with which a shape is filled.
pub open spec fn fill_color(fill: FillType) -> Option<Color> {
    match fill {
        FillType::NoFill => None,
        FillType::Background => theme_fill(Style::Background),
        FillType::Outline => theme_fill(Style::Outline),
        FillType::Color(c) => Some(c),
    }
}

/// The color with which a shape is filled.
fn fill_of(theme: &Theme, fill: FillType) -> (r: Option<Color>)
    ensures
        r == fill_color(fill),
{
    match fill {
        FillType::NoFill => None,
        FillType::Background => match theme.fill(None, Style::Background) {
            Ok(c) => Some(c),
            Err(_) => None,
        },
        FillType::Outline => match theme.fill(None, Style::Outline) {
            Ok(c) => Some(c),
            Err(_) => None,
        },
        FillType::Color(c) => Some(c),
    }
}

/// The coordinates of a point.
pub open spec fn at(p: Pt) -> (int, int) {
    (p.x as int, p.y as int)
}

/// The path through the points as a placement puts them: a move to the
/// first, a line to each of the others; or the error of the first point
/// that cannot be put.
pub open spec fn path_events(pl: Placement, pts: Seq<Pt>) -> Result<Seq<Event>, ErrorKind>
    decreases pts.len(),
{
    if pts.len() == 0 {
        Ok(Seq::empty())
    } else {
        match path_events(pl, pts.drop_last()) {
            Err(e) => Err(e),
            Ok(v) => match put(pl, at(pts.last())) {
                Err(e) => Err(e),
                Ok(q) => Ok(
                    v.push(
                        if pts.len() == 1 {
                            Event::MoveTo(q)
                        } else {
                            Event::LineTo(q)
                        },
                    ),
                ),
            },
        }
    }
}

/// Where the path fails at a point, it fails for all the points.
pub proof fn lemma_path_fails(pl: Placement, pts: Seq<Pt>, n: int)
    requires
        0 < n <= pts.len(),
        path_events(pl, pts.take(n)) is Err,
    ensures
        path_events(pl, pts) == path_events(pl, pts.take(n)),
    decreases pts.len() - n,
{
    if n < pts.len() {
        assert(pts.take(n + 1).drop_last() =~= pts.take(n));
        lemma_path_fails(pl, pts, n + 1);
    } else {
        assert(pts.take(n) =~= pts);
    }
}

/// What is drawn for a polyline of a symbol: its path and the stroke, in
/// its own color or that of outlines, filled as it says.
pub open spec fn polyline_events(pl: Placement, poly: Polyline) -> Result<Seq<Event>, ErrorKind> {
    match path_events(pl, poly.pts.0@) {
        Err(e) => Err(e),
        Ok(v) => match stroke_paint(poly.stroke.color, fill_color(poly.fill), Style::Outline) {
            Err(e) => Err(e),
            Ok(p) => Ok(v.push(Event::Stroke(p))),
        },
    }
}

/// What is drawn for a polyline of a symbol.
pub fn plot_polyline(theme: &Theme, t: &Transform, poly: &Polyline) -> (r: Result<
    Vec<PlotterNodes>,
    Error,
>)
    ensures
        drawn(r) == polyline_events(placement(*t), *poly),
{
    let ghost pl = placement(*t);
    let mut v: Vec<PlotterNodes> = Vec::new();
    let mut i: usize = 0;
    assert(poly.pts.0@.take(0) =~= Seq::<Pt>::empty());
    assert(events_of(v@) =~= Seq::<Event>::empty());
    while i < poly.pts.0.len()
        invariant
            i <= poly.pts.0.len(),
            pl == placement(*t),
            path_events(pl, poly.pts.0@.take(i as int)) == Ok::<Seq<Event>, ErrorKind>(
                events_of(v@),
            ),
        decreases poly.pts.0.len() - i,
    {
        assert(poly.pts.0@.take(i + 1).drop_last() =~= poly.pts.0@.take(i as int));
        assert(poly.pts.0@.take(i + 1).last() == poly.pts.0@[i as int]);
        let ghost before = v@;
        match t.apply(poly.pts.0[i]) {
            Err(e) => {
                proof {
                    lemma_path_fails(pl, poly.pts.0@, i + 1);
                }
                return Err(e);
            },
            Ok(q) => {
                if i == 0 {
                    v.push(PlotterNodes::MoveTo(q));
                    assert(events_of(v@) =~= events_of(before).push(Event::MoveTo(q)));
                } else {
                    v.push(PlotterNodes::LineTo(q));
                    assert(events_of(v@) =~= events_of(before).push(Event::LineTo(q)));
                }
            },
        }
        i += 1;
    }
    assert(poly.pts.0@.take(i as int) =~= poly.pts.0@);
    match paint_of(theme, poly.stroke.color, fill_of(theme, poly.fill), Style::Outline) {
        Err(e) => Err(e),
        Ok(p) => {
            let ghost before = v@;
            v.push(PlotterNodes::Stroke(p));
            assert(events_of(v@) =~= events_of(before).push(Event::Stroke(p)));
            Ok(v)
        },
    }
}

/// What is drawn for an arc of a symbol: the arc through its three points
/// as they are put.
pub open spec fn arc_events(pl: Placement, a: Arc) -> Result<Seq<Event>, ErrorKind> {
    match put(pl, at(a.start)) {
        Err(e) => Err(e),
        Ok(start) => match put(pl, at(a.mid)) {
            Err(e) => Err(e),
            Ok(mid) => match put(pl, at(a.end)) {
                Err(e) => Err(e),
                Ok(end) => match stroke_paint(None, None, Style::Outline) {
                    Err(e) => Err(e),
                    Ok(stroke) => Ok(seq![Event::Arc { start, mid, end, stroke }]),
                },
            },
        },
    }
}

/// What is drawn for an arc of a symbol.
pub fn plot_arc(theme: &Theme, t: &Transform, a: &Arc) -> (r: Result<Vec<PlotterNodes>, Error>)
    ensures
        drawn(r) == arc_events(placement(*t), *a),
{
    let start = match t.apply(a.start) {
        Ok(p) => p,
        Err(e) => {
            return Err(e);
        },
    };
    let mid = match t.apply(a.mid) {
        Ok(p) => p,
        Err(e) => {
            return Err(e);
        },
    };
    let end = match t.apply(a.end) {
        Ok(p) => p,
        Err(e) => {
            return Err(e);
        },
    };
    let stroke = match paint_of(theme, None, None, Style::Outline) {
        Ok(p) => p,
        Err(e) => {
            return Err(e);
        },
    };
    let mut v: Vec<PlotterNodes> = Vec::new();
    v.push(PlotterNodes::Arc { start, mid, end, stroke });
    assert(events_of(v@) =~= seq![Event::Arc { start, mid, end, stroke }]);
    Ok(v)
}

/// The rectangle between two corners as a plotter takes it: the corner
/// with the smaller coordinates, then width and height. `OutOfRange` if
/// width or height does not fit.
pub open spec fn spanned(a: Pt, b: Pt) -> Result<Rect, ErrorKind> {
    let x = if a.x > b.x {
        b.x
    } else {
        a.x
    };
    let y = if a.y > b.y {
        b.y
    } else {
        a.y
    };
    let w = if b.x >= a.x {
        b.x - a.x
    } else {
        a.x - b.x
    };
    let h = if b.y >= a.y {
        b.y - a.y
    } else {
        a.y - b.y
    };
    if w > i32::MAX || h > i32::MAX {
        Err(ErrorKind::OutOfRange)
    } else {
        Ok(Rect { start: Pt { x, y }, end: Pt { x: w as i32, y: h as i32 } })
    }
}

/// What is drawn for a rectangle of a symbol.
pub open spec fn rectangle_events(pl: Placement, r: Rectangle) -> Result<Seq<Event>, ErrorKind> {
    match put(pl, at(r.start)) {
        Err(e) => Err(e),
        Ok(a) => match put(pl, at(r.end)) {
            Err(e) => Err(e),
            Ok(b) => match spanned(a, b) {
                Err(e) => Err(e),
                Ok(rect) => match stroke_paint(None, None, Style::Outline) {
                    Err(e) => Err(e),
                    Ok(stroke) => Ok(seq![Event::Rect { rect, stroke }]),
                },
            },
        },
    }
}

/// What is drawn for a rectangle of a symbol.
pub fn plot_rectangle(theme: &Theme, t: &Transform, r: &Rectangle) -> (res: Result<
    Vec<PlotterNodes>,
    Error,
>)
    ensures
        drawn(res) == rectangle_events(placement(*t), *r),
{
    let a = match t.apply(r.start) {
        Ok(p) => p,
        Err(e) => {
            return Err(e);
        },
    };
    let b = match t.apply(r.end) {
        Ok(p) => p,
        Err(e) => {
            return Err(e);
        },
    };
    let x: i32 = if a.x > b.x {
        b.x
    } else {
        a.x
    };
    let y: i32 = if a.y > b.y {
        b.y
    } else {
        a.y
    };
    let w: i64 = if b.x >= a.x {
        b.x as i64 - a.x as i64
    } else {
        a.x as i64 - b.x as i64
    };
    let h: i64 = if b.y >= a.y {
        b.y as i64 - a.y as i64
    } else {
        a.y as i64 - b.y as i64
    };
    if w > i32::MAX as i64 || h > i32::MAX as i64 {
        return Err(Error::new(ErrorKind::OutOfRange, "the rectangle is too large"));
    }
    let rect = Rect { start: Pt { x, y }, end: Pt { x: w as i32, y: h as i32 } };
    let stroke = match paint_of(theme, None, None, Style::Outline) {
        Ok(p) => p,
        Err(e) => {
            return Err(e);
        },
    };
    let mut v: Vec<PlotterNodes> = Vec::new();
    v.push(PlotterNodes::Rect { rect, stroke });
    assert(events_of(v@) =~= seq![Event::Rect { rect, stroke }]);
    Ok(v)
}

/// What is drawn for a circle of a symbol: the circle around its center as
/// it is put.
pub open spec fn circle_events(pl: Placement, c: Circle) -> Result<Seq<Event>, ErrorKind> {
    match put(pl, at(c.center)) {
        Err(e) => Err(e),
        Ok(center) => match stroke_paint(None, None, Style::Outline) {
            Err(e) => Err(e),
            Ok(stroke) => Ok(seq![Event::Circle { center, radius: c.radius, stroke }]),
        },
    }
}

/// What is drawn for a circle of a symbol.
pub fn plot_circle(theme: &Theme, t: &Transform, c: &Circle) -> (r: Result<
    Vec<PlotterNodes>,
    Error,
>)
    ensures
        drawn(r) == circle_events(placement(*t), *c),
{
    let center = match t.apply(c.center) {
        Ok(p) => p,
        Err(e) => {
            return Err(e);
        },
    };
    let stroke = match paint_of(theme, None, None, Style::Outline) {
        Ok(p) => p,
        Err(e) => {
            return Err(e);
        },
    };
    let mut v: Vec<PlotterNodes> = Vec::new();
    v.push(PlotterNodes::Circle { center, radius: c.radius, stroke });
    assert(events_of(v@) =~= seq![Event::Circle { center, radius: c.radius, stroke }]);
    Ok(v)
}

/// What is drawn for a graphic item of a symbol. Curves, lines and texts
/// are not drawn: `Unsupported`.
pub open spec fn graphic_events(pl: Placement, g: GraphicItem) -> Result<Seq<Event>, ErrorKind> {
    match g {
        GraphicItem::Arc(a) => arc_events(pl, a),
        GraphicItem::Polyline(p) => polyline_events(pl, p),
        GraphicItem::Rectangle(r) => rectangle_events(pl, r),
        GraphicItem::Circle(c) => circle_events(pl, c),
        GraphicItem::Curve(_) => Err(ErrorKind::Unsupported),
        GraphicItem::Line(_) => Err(ErrorKind::Unsupported),
        GraphicItem::Text(_) => Err(ErrorKind::Unsupported),
    }
}

/// What is drawn for a graphic item of a symbol.
pub fn plot_graphic(theme: &Theme, t: &Transform, g: &GraphicItem) -> (r: Result<
    Vec<PlotterNodes>,
    Error,
>)
    ensures
        drawn(r) == graphic_events(placement(*t), *g),
{
    match g {
        GraphicItem::Arc(a) => plot_arc(theme, t, a),
        GraphicItem::Polyline(p) => plot_polyline(theme, t, p),
        GraphicItem::Rectangle(r) => plot_rectangle(theme, t, r),
        GraphicItem::Circle(c) => plot_circle(theme, t, c),
        _ => Err(Error::new(ErrorKind::Unsupported, "the graphic item is not drawn")),
    }
}

/// Drawings one behind the other: the first error, else all the events.
pub open spec fn all_of(parts: Seq<Result<Seq<Event>, ErrorKind>>) -> Result<Seq<Event>, ErrorKind>
    decreases parts.len(),
{
    if parts.len() == 0 {
        Ok(Seq::empty())
    } else {
        both(all_of(parts.drop_last()), parts.last())
    }
}

/// Where the first drawings fail, all of them fail in the same way.
pub proof fn lemma_all_of_fails(parts: Seq<Result<Seq<Event>, ErrorKind>>, n: int)
    requires
        0 <= n <= parts.len(),
        all_of(parts.take(n)) is Err,
    ensures
        all_of(parts) == all_of(parts.take(n)),
    decreases parts.len() - n,
{
    if n < parts.len() {
        assert(parts.take(n + 1).drop_last() =~= parts.take(n));
        lemma_all_of_fails(parts, n + 1);
    } else {
        assert(parts.take(n) =~= parts);
    }
}

/// One more drawing behind the first ones.
pub proof fn lemma_all_of_next(parts: Seq<Result<Seq<Event>, ErrorKind>>, n: int)
    requires
        0 <= n < parts.len(),
    ensures
        all_of(parts.take(n + 1)) == both(all_of(parts.take(n)), parts[n]),
{
    assert(parts.take(n + 1).drop_last() =~= parts.take(n));
}

/// The drawing so far with one more behind it; where either fails, all
/// fail in the same way.
fn next(
    done: Vec<PlotterNodes>,
    more: Result<Vec<PlotterNodes>, Error>,
    Ghost(parts): Ghost<Seq<Result<Seq<Event>, ErrorKind>>>,
    Ghost(n): Ghost<int>,
) -> (r: Result<Vec<PlotterNodes>, Error>)
    requires
        0 <= n < parts.len(),
        all_of(parts.take(n)) == Ok::<Seq<Event>, ErrorKind>(events_of(done@)),
        parts[n] == drawn(more),
    ensures
        match r {
            Ok(v) => all_of(parts.take(n + 1)) == Ok::<Seq<Event>, ErrorKind>(events_of(v@)),
            Err(e) => all_of(parts) == Err::<Seq<Event>, ErrorKind>(e.0),
        },
{
    proof {
        lemma_all_of_next(parts, n);
    }
    let r = join(Ok(done), more);
    proof {
        if r is Err {
            lemma_all_of_fails(parts, n + 1);
        }
    }
    r
}

/// What is drawn for a property of a symbol: its value, if it is visible.
pub open spec fn property_events(p: crate::gr::Property) -> Result<Seq<Event>, ErrorKind> {
    if p.effects.hide {
        Ok(Seq::empty())
    } else {
        match text_event(p.value@, p.pos, p.effects, true) {
            Err(e) => Err(e),
            Ok(ev) => Ok(seq![ev]),
        }
    }
}

/// What is drawn for a property of a symbol.
pub fn plot_property(theme: &Theme, p: &crate::gr::Property) -> (r: Result<
    Vec<PlotterNodes>,
    Error,
>)
    ensures
        drawn(r) == property_events(*p),
{
    let mut v: Vec<PlotterNodes> = Vec::new();
    if !p.visible() {
        assert(events_of(v@) =~= Seq::<Event>::empty());
        return Ok(v);
    }
    match themed_text(theme, p.value.as_str(), p.pos, &p.effects, p.visible()) {
        Err(err) => Err(err),
        Ok(n) => {
            v.push(n);
            assert(events_of(v@) =~= seq![event_of(n)]);
            Ok(v)
        },
    }
}

/// The placement of the pins of a library symbol: at the pin's position,
/// turned by its angle.
pub open spec fn pin_placement(pin: Pin) -> Placement {
    Placement { to: Pt { x: pin.pos.x, y: pin.pos.y }, rotate: pin.pos.angle, axis: None, scale: None }
}

/// How far the line of a pin reaches from its position, along its angle.
pub open spec fn pin_reach(pin: Pin) -> int {
    if pin.pos.angle == 0 || pin.pos.angle == 1800000 {
        pin.length as int
    } else {
        -(pin.length as int)
    }
}

/// Where a point on the line of a pin comes to lie: put by the pin's own
/// placement, then by that of the symbol.
pub open spec fn pin_end(pl: Placement, pin: Pin, along: int) -> Result<Pt, ErrorKind> {
    match put(pin_placement(pin), (along, 0)) {
        Err(e) => Err(e),
        Ok(q) => put(pl, at(q)),
    }
}

/// The size of the numbers of pins.
pub const PIN_NUMBER_SIZE: i32 = 12500;

/// The size of the names of pins.
pub const PIN_NAME_SIZE: i32 = 17500;

/// How far above its line the number of a horizontal pin stands.
pub const PIN_NUMBER_RISE: i32 = 7500;

/// Where the number of a pin stands, from the begin of its line: at the
/// middle of the line, and above it if the pin lies. `UnsupportedAngle`
/// unless the pin points along an axis.
pub open spec fn number_offset(pin: Pin) -> Result<(int, int), ErrorKind> {
    let h = crate::fixed::half_spec(pin.length as int);
    if pin.pos.angle == 0 {
        Ok((h, -(PIN_NUMBER_RISE as int)))
    } else if pin.pos.angle == 900000 {
        Ok((0, h))
    } else if pin.pos.angle == 1800000 {
        Ok((-h, -(PIN_NUMBER_RISE as int)))
    } else if pin.pos.angle == 2700000 {
        Ok((0, h))
    } else {
        Err(ErrorKind::UnsupportedAngle)
    }
}

/// Where the name of a pin stands, from the begin of its line: as far
/// from it as the library symbol says. `UnsupportedAngle` unless the pin
/// points along an axis.
pub open spec fn name_offset(pin: Pin, offset: i32) -> Result<(int, int), ErrorKind> {
    if pin.pos.angle == 0 {
        Ok((offset as int, 0))
    } else if pin.pos.angle == 900000 {
        Ok((0, offset as int))
    } else if pin.pos.angle == 1800000 {
        Ok((-(offset as int), 0))
    } else if pin.pos.angle == 2700000 {
        Ok((0, offset as int))
    } else {
        Err(ErrorKind::UnsupportedAngle)
    }
}

/// The text beside a pin: upright, in the face of the theme, in a size
/// and a color, set off from the begin of the line of the pin.
/// `OutOfRange` if its place does not fit.
pub open spec fn pin_text(
    text: Seq<char>,
    base: Pt,
    to: Result<(int, int), ErrorKind>,
    size: i32,
    color: Color,
) -> Result<Seq<Event>, ErrorKind> {
    match to {
        Err(e) => Err(e),
        Ok(d) => if crate::math::transform::fits((base.x + d.0, base.y + d.1)) {
            Ok(
                seq![
                    Event::Text {
                        text,
                        pos: Pos { x: (base.x + d.0) as i32, y: (base.y + d.1) as i32, angle: 0 },
                        look: Look {
                            face: Some("osifont"@),
                            size: (size, size),
                            thickness: None,
                            bold: false,
                            italic: false,
                            line_spacing: None,
                            color: Some(color),
                            justify: Seq::empty(),
                            hide: false,
                        },
                    },
                ],
            )
        } else {
            Err(ErrorKind::OutOfRange)
        },
    }
}

/// The text beside a pin.
fn pin_label(theme: &Theme, text: &str, base: Pt, to: Result<(i64, i64), ErrorKind>, size: i32, color: Color) -> (r:
    Result<Vec<PlotterNodes>, Error>)
    requires
        to matches Ok(d) ==> -0x1_0000_0000 <= d.0 <= 0x1_0000_0000 && -0x1_0000_0000 <= d.1
            <= 0x1_0000_0000,
    ensures
        drawn(r) == pin_text(
            text@,
            base,
            match to {
                Ok(d) => Ok((d.0 as int, d.1 as int)),
                Err(e) => Err(e),
            },
            size,
            color,
        ),
{
    let d = match to {
        Ok(d) => d,
        Err(kind) => {
            return Err(Error::new(kind, "the pin points along no axis"));
        },
    };
    let x: i64 = base.x as i64 + d.0;
    let y: i64 = base.y as i64 + d.1;
    if x < i32::MIN as i64 || x > i32::MAX as i64 || y < i32::MIN as i64 || y > i32::MAX as i64 {
        return Err(Error::new(ErrorKind::OutOfRange, "the text of the pin is out of range"));
    }
    let node = PlotterNodes::Text {
        text: text.to_string(),
        pos: Pos { x: x as i32, y: y as i32, angle: 0 },
        effects: Effects {
            font: Font {
                face: Some(theme.face()),
                size: (size, size),
                thickness: None,
                bold: false,
                italic: false,
                line_spacing: None,
                color: Some(color),
            },
            justify: Vec::new(),
            hide: false,
        },
    };
    let mut v: Vec<PlotterNodes> = Vec::new();
    v.push(node);
    assert(events_of(v@) =~= seq![event_of(node)]);
    assert(look_of(node->Text_effects).justify =~= Seq::<Justify>::empty());
    Ok(v)
}

/// Which of the texts of its pins a library symbol shows.
#[derive(Clone, Copy, Debug)]
pub struct PinTexts {
    /// Whether the numbers are shown.
    pub numbers: bool,
    /// Whether the names are shown.
    pub names: bool,
    /// How far the names stand from the pins; without it no name is shown.
    pub offset: Option<i32>,
    /// Whether the symbol is a power symbol, which shows neither.
    pub power: bool,
}

/// Which of the texts of its pins a library symbol shows.
pub open spec fn pin_texts(lib: LibrarySymbol) -> PinTexts {
    PinTexts {
        numbers: lib.pin_numbers,
        names: lib.pin_names,
        offset: lib.pin_names_offset,
        power: lib.power,
    }
}

/// What is drawn for the number of a pin: nothing where the numbers are
/// not shown.
pub open spec fn number_events(base: Pt, pin: Pin, texts: PinTexts) -> Result<
    Seq<Event>,
    ErrorKind,
> {
    if texts.numbers && !texts.power {
        pin_text(pin.number.name@, base, number_offset(pin), PIN_NUMBER_SIZE, Color::Rgba(0, 0, 0, 255))
    } else {
        Ok(Seq::empty())
    }
}

/// What is drawn for the name of a pin: nothing where the names are not
/// shown, and for the name `~`.
pub open spec fn name_events(base: Pt, pin: Pin, texts: PinTexts) -> Result<Seq<Event>, ErrorKind> {
    if texts.names && pin.name.name@ != "~"@ && !texts.power && texts.offset is Some {
        pin_text(
            pin.name.name@,
            base,
            name_offset(pin, texts.offset->Some_0),
            PIN_NAME_SIZE,
            Color::Rgba(255, 0, 0, 255),
        )
    } else {
        Ok(Seq::empty())
    }
}

/// What is drawn for a pin of a symbol: its line, then its number and its
/// name where the library symbol shows them.
pub open spec fn pin_events(pl: Placement, pin: Pin, texts: PinTexts) -> Result<
    Seq<Event>,
    ErrorKind,
> {
    match line_events(
        pin_end(pl, pin, 0),
        pin_end(pl, pin, pin_reach(pin)),
        stroke_paint(None, None, Style::Outline),
    ) {
        Err(e) => Err(e),
        Ok(line) => both(
            Ok(line),
            both(
                number_events(pin_end(pl, pin, 0)->Ok_0, pin, texts),
                name_events(pin_end(pl, pin, 0)->Ok_0, pin, texts),
            ),
        ),
    }
}

/// What is drawn for a pin of a symbol.
pub fn plot_pin(theme: &Theme, t: &Transform, pin: &Pin, texts: PinTexts) -> (r: Result<
    Vec<PlotterNodes>,
    Error,
>)
    ensures
        drawn(r) == pin_events(placement(*t), *pin, texts),
{
    let inner = Transform::new().translation(Pt { x: pin.pos.x, y: pin.pos.y }).rotation(
        pin.pos.angle,
    );
    assert(placement(inner) == pin_placement(*pin));
    let reach: i64 = if pin.pos.angle == 0 || pin.pos.angle == 1800000 {
        pin.length as i64
    } else {
        -(pin.length as i64)
    };
    let a = match inner.apply_wide((0, 0)) {
        Ok(q) => t.apply(q),
        Err(e) => Err(e),
    };
    let base = match &a {
        Ok(p) => *p,
        Err(_) => Pt { x: 0, y: 0 },
    };
    let b = match inner.apply_wide((reach, 0)) {
        Ok(q) => t.apply(q),
        Err(e) => Err(e),
    };
    let first = line(a, b, paint_of(theme, None, None, Style::Outline));
    if first.is_err() {
        return first;
    }
    let h: i64 = crate::fixed::half(pin.length) as i64;
    let numbers = if texts.numbers && !texts.power {
        let to: Result<(i64, i64), ErrorKind> = if pin.pos.angle == 0 {
            Ok((h, -(PIN_NUMBER_RISE as i64)))
        } else if pin.pos.angle == 900000 {
            Ok((0, h))
        } else if pin.pos.angle == 1800000 {
            Ok((-h, -(PIN_NUMBER_RISE as i64)))
        } else if pin.pos.angle == 2700000 {
            Ok((0, h))
        } else {
            Err(ErrorKind::UnsupportedAngle)
        };
        pin_label(
            theme,
            pin.number.name.as_str(),
            base,
            to,
            PIN_NUMBER_SIZE,
            Color::Rgba(0, 0, 0, 255),
        )
    } else {
        let v: Vec<PlotterNodes> = Vec::new();
        assert(events_of(v@) =~= Seq::<Event>::empty());
        Ok(v)
    };
    let shown = texts.names && !crate::strings::str_eq(pin.name.name.as_str(), "~")
        && !texts.power;
    let names = match texts.offset {
        Some(offset) if shown => {
            let o: i64 = offset as i64;
            let to: Result<(i64, i64), ErrorKind> = if pin.pos.angle == 0 {
                Ok((o, 0))
            } else if pin.pos.angle == 900000 {
                Ok((0, o))
            } else if pin.pos.angle == 1800000 {
                Ok((-o, 0))
            } else if pin.pos.angle == 2700000 {
                Ok((0, o))
            } else {
                Err(ErrorKind::UnsupportedAngle)
            };
            pin_label(
                theme,
                pin.name.name.as_str(),
                base,
                to,
                PIN_NAME_SIZE,
                Color::Rgba(255, 0, 0, 255),
            )
        },
        _ => {
            let v: Vec<PlotterNodes> = Vec::new();
            assert(events_of(v@) =~= Seq::<Event>::empty());
            Ok(v)
        },
    };
    join(first, join(numbers, names))
}

/// What is drawn for the graphic items of a unit, one after the other.
pub open spec fn graphics_events(pl: Placement, gs: Seq<GraphicItem>) -> Result<
    Seq<Event>,
    ErrorKind,
> {
    all_of(gs.map_values(|g: GraphicItem| graphic_events(pl, g)))
}

/// What is drawn for one unit of a library symbol when `unit` is placed:
/// its graphic items, if it is the shared unit or the placed one.
pub open spec fn unit_events(pl: Placement, u: LibrarySymbol, unit: u8) -> Result<
    Seq<Event>,
    ErrorKind,
> {
    if selects(unit_of(u.lib_id@), unit) {
        graphics_events(pl, u.graphics@)
    } else {
        Ok(Seq::empty())
    }
}

/// What is drawn for one unit of a library symbol.
fn plot_unit(theme: &Theme, t: &Transform, u: &LibrarySymbol, unit: u8) -> (r: Result<
    Vec<PlotterNodes>,
    Error,
>)
    ensures
        drawn(r) == unit_events(placement(*t), *u, unit),
{
    let mut v: Vec<PlotterNodes> = Vec::new();
    assert(events_of(v@) =~= Seq::<Event>::empty());
    let own = u.unit();
    if !(own == Some(0) || own == Some(unit)) {
        return Ok(v);
    }
    let ghost pl = placement(*t);
    let ghost parts = u.graphics@.map_values(|g: GraphicItem| graphic_events(pl, g));
    let mut i: usize = 0;
    assert(parts.take(0) =~= Seq::<Result<Seq<Event>, ErrorKind>>::empty());
    while i < u.graphics.len()
        invariant
            i <= u.graphics.len(),
            pl == placement(*t),
            selects(unit_of(u.lib_id@), unit),
            parts == u.graphics@.map_values(|g: GraphicItem| graphic_events(pl, g)),
            all_of(parts.take(i as int)) == Ok::<Seq<Event>, ErrorKind>(events_of(v@)),
        decreases u.graphics.len() - i,
    {
        let more = plot_graphic(theme, t, &u.graphics[i]);
        match next(v, more, Ghost(parts), Ghost(i as int)) {
            Ok(w) => {
                v = w;
            },
            Err(e) => {
                return Err(e);
            },
        }
        i += 1;
    }
    assert(parts.take(i as int) =~= parts);
    Ok(v)
}

/// What is drawn for the units of a library symbol, one after the other.
pub open spec fn units_events(pl: Placement, units: Seq<LibrarySymbol>, unit: u8) -> Result<
    Seq<Event>,
    ErrorKind,
> {
    all_of(units.map_values(|u: LibrarySymbol| unit_events(pl, u, unit)))
}

/// What is drawn for the pins, one after the other.
pub open spec fn pins_events(pl: Placement, pins: Seq<Pin>, texts: PinTexts) -> Result<
    Seq<Event>,
    ErrorKind,
> {
    all_of(pins.map_values(|p: Pin| pin_events(pl, p, texts)))
}

/// What is drawn for the properties, one after the other.
pub open spec fn properties_events(props: Seq<crate::gr::Property>) -> Result<
    Seq<Event>,
    ErrorKind,
> {
    all_of(props.map_values(|p: crate::gr::Property| property_events(p)))
}

/// How a symbol is placed: at its position, turned by its angle, mirrored
/// by its axis.
pub open spec fn symbol_placement(s: Symbol) -> Placement {
    Placement {
        to: Pt { x: s.pos.x, y: s.pos.y },
        rotate: s.pos.angle,
        axis: axis_of(s.mirror),
        scale: None,
    }
}

/// What is drawn for the body of a placed symbol: the graphic items of the
/// shared unit and of its own, then their pins.
/// `LibraryNotFound` if the schema has no library symbol for it.
pub open spec fn body_events(schema: Schema, s: Symbol) -> Result<Seq<Event>, ErrorKind> {
    match library_of(schema.library_symbols@, s.lib_id@) {
        None => Err(ErrorKind::LibraryNotFound),
        Some(lib) => both(
            units_events(symbol_placement(s), lib.units@, s.unit),
            pins_events(symbol_placement(s), unit_pins(lib.units@, s.unit), pin_texts(lib)),
        ),
    }
}

/// What is drawn for a placed symbol: the values of its visible
/// properties, then its body.
pub open spec fn symbol_events(schema: Schema, s: Symbol) -> Result<Seq<Event>, ErrorKind> {
    both(properties_events(s.props@), body_events(schema, s))
}

/// What is drawn for the properties of a symbol.
fn plot_properties(theme: &Theme, s: &Symbol) -> (r: Result<Vec<PlotterNodes>, Error>)
    ensures
        drawn(r) == properties_events(s.props@),
{
    let mut v: Vec<PlotterNodes> = Vec::new();
    assert(events_of(v@) =~= Seq::<Event>::empty());
    let ghost parts = s.props@.map_values(|p: crate::gr::Property| property_events(p));
    let mut i: usize = 0;
    assert(parts.take(0) =~= Seq::<Result<Seq<Event>, ErrorKind>>::empty());
    while i < s.props.len()
        invariant
            i <= s.props.len(),
            parts == s.props@.map_values(|p: crate::gr::Property| property_events(p)),
            all_of(parts.take(i as int)) == Ok::<Seq<Event>, ErrorKind>(events_of(v@)),
        decreases s.props.len() - i,
    {
        let more = plot_property(theme, &s.props[i]);
        match next(v, more, Ghost(parts), Ghost(i as int)) {
            Ok(w) => {
                v = w;
            },
            Err(e) => {
                return Err(e);
            },
        }
        i += 1;
    }
    assert(parts.take(i as int) =~= parts);
    Ok(v)
}

/// What is drawn for the units of a library symbol.
fn plot_units(theme: &Theme, t: &Transform, lib: &LibrarySymbol, unit: u8) -> (r: Result<
    Vec<PlotterNodes>,
    Error,
>)
    ensures
        drawn(r) == units_events(placement(*t), lib.units@, unit),
{
    let mut v: Vec<PlotterNodes> = Vec::new();
    assert(events_of(v@) =~= Seq::<Event>::empty());
    let ghost pl = placement(*t);
    let ghost parts = lib.units@.map_values(|u: LibrarySymbol| unit_events(pl, u, unit));
    let mut i: usize = 0;
    assert(parts.take(0) =~= Seq::<Result<Seq<Event>, ErrorKind>>::empty());
    while i < lib.units.len()
        invariant
            i <= lib.units.len(),
            pl == placement(*t),
            parts == lib.units@.map_values(|u: LibrarySymbol| unit_events(pl, u, unit)),
            all_of(parts.take(i as int)) == Ok::<Seq<Event>, ErrorKind>(events_of(v@)),
        decreases lib.units.len() - i,
    {
        let more = plot_unit(theme, t, &lib.units[i], unit);
        match next(v, more, Ghost(parts), Ghost(i as int)) {
            Ok(w) => {
                v = w;
            },
            Err(e) => {
                return Err(e);
            },
        }
        i += 1;
    }
    assert(parts.take(i as int) =~= parts);
    Ok(v)
}

/// What is drawn for the pins of a unit of a library symbol.
fn plot_pins(theme: &Theme, t: &Transform, lib: &LibrarySymbol, unit: u8) -> (r: Result<
    Vec<PlotterNodes>,
    Error,
>)
    ensures
        drawn(r) == pins_events(placement(*t), unit_pins(lib.units@, unit), pin_texts(*lib)),
{
    let pins = lib.pins(unit);
    let mut v: Vec<PlotterNodes> = Vec::new();
    assert(events_of(v@) =~= Seq::<Event>::empty());
    let ghost pl = placement(*t);
    let ghost all = unit_pins(lib.units@, unit);
    let texts = PinTexts {
        numbers: lib.pin_numbers,
        names: lib.pin_names,
        offset: lib.pin_names_offset,
        power: lib.power,
    };
    let ghost parts = all.map_values(|p: Pin| pin_events(pl, p, texts));
    let mut i: usize = 0;
    assert(parts.take(0) =~= Seq::<Result<Seq<Event>, ErrorKind>>::empty());
    while i < pins.len()
        invariant
            i <= pins.len(),
            pl == placement(*t),
            all == unit_pins(lib.units@, unit),
            pins@.len() == all.len(),
            forall|k: int| 0 <= k < pins@.len() ==> *pins@[k] == all[k],
            texts == pin_texts(*lib),
            parts == all.map_values(|p: Pin| pin_events(pl, p, texts)),
            all_of(parts.take(i as int)) == Ok::<Seq<Event>, ErrorKind>(events_of(v@)),
        decreases pins.len() - i,
    {
        let more = plot_pin(theme, t, pins[i], texts);
        match next(v, more, Ghost(parts), Ghost(i as int)) {
            Ok(w) => {
                v = w;
            },
            Err(e) => {
                return Err(e);
            },
        }
        i += 1;
    }
    assert(parts.take(i as int) =~= parts);
    Ok(v)
}

/// What is drawn for a placed symbol.
pub fn plot_symbol(theme: &Theme, schema: &Schema, s: &Symbol) -> (r: Result<
    Vec<PlotterNodes>,
    Error,
>)
    ensures
        drawn(r) == symbol_events(*schema, *s),
{
    let props = plot_properties(theme, s);
    let body = match schema.library_symbol(s.lib_id.as_str()) {
        None => Err(Error::new(ErrorKind::LibraryNotFound, "library symbol not found")),
        Some(lib) => {
            let t = Transform::new().translation(Pt { x: s.pos.x, y: s.pos.y }).rotation(
                s.pos.angle,
            ).mirror(&s.mirror);
            assert(placement(t) == symbol_placement(*s));
            join(plot_units(theme, &t, lib, s.unit), plot_pins(theme, &t, lib, s.unit))
        },
    };
    join(props, body)
}

/// What is drawn for an item of a schema. For the kinds of items that are
/// not drawn, nothing.
pub open spec fn item_events(schema: Schema, item: SchemaItem) -> Result<Seq<Event>, ErrorKind> {
    match item {
        SchemaItem::Symbol(s) => symbol_events(schema, s),
        SchemaItem::Wire(w) => wire_events(w),
        SchemaItem::NoConnect(nc) => no_connect_events(nc),
        SchemaItem::Junction(j) => junction_events(j),
        SchemaItem::LocalLabel(l) => label_events(l.text@, l.pos, l.effects),
        SchemaItem::GlobalLabel(l) => label_events(l.text@, l.pos, l.effects),
        SchemaItem::Text(t) => text_events(t),
        _ => Ok(Seq::empty()),
    }
}

/// What is drawn for an item of a schema.
pub fn plot_item(theme: &Theme, schema: &Schema, item: &SchemaItem) -> (r: Result<
    Vec<PlotterNodes>,
    Error,
>)
    ensures
        drawn(r) == item_events(*schema, *item),
{
    match item {
        SchemaItem::Symbol(s) => plot_symbol(theme, schema, s),
        SchemaItem::Wire(w) => plot_wire(theme, w),
        SchemaItem::NoConnect(nc) => plot_no_connect(theme, nc),
        SchemaItem::Junction(j) => plot_junction(theme, j),
        SchemaItem::LocalLabel(l) => plot_local_label(theme, l),
        SchemaItem::GlobalLabel(l) => plot_global_label(theme, l),
        SchemaItem::Text(t) => plot_text(theme, t),
        _ => {
            let v: Vec<PlotterNodes> = Vec::new();
            assert(events_of(v@) =~= Seq::<Event>::empty());
            Ok(v)
        },
    }
}

/// What is drawn for a schema: what is drawn for its items, one after the
/// other, or the error of the first item that cannot be drawn.
pub open spec fn schema_events(schema: Schema) -> Result<Seq<Event>, ErrorKind> {
    all_of(schema.items@.map_values(|item: SchemaItem| item_events(schema, item)))
}

impl Schema {
    /// What is drawn for the schema, in the colors and widths of a theme.
    pub fn events(&self, theme: &Theme) -> (r: Result<Vec<PlotterNodes>, Error>)
        ensures
            drawn(r) == schema_events(*self),
    {
        let mut v: Vec<PlotterNodes> = Vec::new();
        assert(events_of(v@) =~= Seq::<Event>::empty());
        let ghost parts = self.items@.map_values(|item: SchemaItem| item_events(*self, item));
        let mut i: usize = 0;
        assert(parts.take(0) =~= Seq::<Result<Seq<Event>, ErrorKind>>::empty());
        while i < self.items.len()
            invariant
                i <= self.items.len(),
                parts == self.items@.map_values(|item: SchemaItem| item_events(*self, item)),
                all_of(parts.take(i as int)) == Ok::<Seq<Event>, ErrorKind>(events_of(v@)),
            decreases self.items.len() - i,
        {
            let more = plot_item(theme, self, &self.items[i]);
            match next(v, more, Ghost(parts), Ghost(i as int)) {
                Ok(w) => {
                    v = w;
                },
                Err(e) => {
                    return Err(e);
                },
            }
            i += 1;
        }
        assert(parts.take(i as int) =~= parts);
        Ok(v)
    }
}

/// The part of a drawing that is seen: the sheet with a border, else the
/// outline of the schema for the measured sizes of its texts.
pub open spec fn view_box(schema: Schema, border: bool, dims: Seq<(i32, i32)>) -> Result<
    Rect,
    ErrorKind,
> {
    if border {
        Ok(
            Rect {
                start: Pt { x: 0, y: 0 },
                end: Pt {
                    x: (schema.paper.size_mm_spec().0 * 10000) as i32,
                    y: (schema.paper.size_mm_spec().1 * 10000) as i32,
                },
            },
        )
    } else {
        schema_rect(schema, dims)
    }
}

/// Whether `after` is what was drawn `before` and the new events behind
/// it, all scaled by the factor.
pub open spec fn plotted(
    before: Seq<PlotterNodes>,
    after: Seq<PlotterNodes>,
    events: Seq<Event>,
    scale: i32,
) -> bool {
    exists|new: Seq<PlotterNodes>|
        {
            &&& #[trigger] events_of(new) == events
            &&& after.len() == before.len() + new.len()
            &&& forall|i: int|
                0 <= i < after.len() ==> is_scaled(#[trigger] after[i], (before + new)[i], scale)
        }
}

/// Whether something of what was drawn `before` or of the new events
/// cannot be scaled by the factor.
pub open spec fn overflows(before: Seq<PlotterNodes>, events: Seq<Event>, scale: i32) -> bool {
    exists|new: Seq<PlotterNodes>, i: int|
        #[trigger] events_of(new) == events && 0 <= i < before.len() + new.len() && !scales(
            #[trigger] (before + new)[i],
            scale,
        )
}

impl crate::Plot for Schema {
    /// Move the cursor position to the pt.
    fn move_to(&mut self, pt: At)
        ensures
            final(self).last_pos == pt,
            final(self).project == old(self).project,
            final(self).version == old(self).version,
            final(self).uuid == old(self).uuid,
            final(self).generator == old(self).generator,
            final(self).generator_version == old(self).generator_version,
            final(self).paper == old(self).paper,
            final(self).title_block == old(self).title_block,
            final(self).library_symbols == old(self).library_symbols,
            final(self).items == old(self).items,
            final(self).sheet_instances == old(self).sheet_instances,
            final(self).grid == old(self).grid,
    {
        self.last_pos = pt;
    }

    /// Resolve the At position to a Pt.
    fn get_pt(&self, at: &At) -> (r: Result<Pt, Error>)
        ensures
            match r {
                Ok(p) => resolve(*self, *at) == Ok::<Pt, ErrorKind>(p),
                Err(e) => resolve(*self, *at) == Err::<Pt, ErrorKind>(e.0),
            },
    {
        match at {
            At::Pt(pt) => Ok(*pt),
            At::Pin(reference, number) => {
                let Some(unit) = self.pin_unit(reference.as_str(), number.as_str()) else {
                    return Err(Error::new(ErrorKind::PinUnitNotFound, "pin unit not found"));
                };
                let Some(symbol) = self.symbol(reference.as_str(), unit) else {
                    return Err(Error::new(ErrorKind::SymbolNotFound, "symbol unit not found"));
                };
                let Some(lib) = self.library_symbol(symbol.lib_id.as_str()) else {
                    return Err(Error::new(ErrorKind::LibraryNotFound, "library symbol not found"));
                };
                let Some(pin) = lib.pin(number.as_str()) else {
                    return Err(Error::new(ErrorKind::PinNotFound, "pin not found"));
                };
                pin_position(symbol, pin)
            },
            At::Dot(_) => Err(
                Error::new(ErrorKind::UnsupportedReference, "dot positions cannot be resolved"),
            ),
        }
    }

    /// Draws the schema on a plotter as a command says: what is drawn for
    /// the items, in the colors of the command's theme, then all that the
    /// plotter holds scaled by the command's factor. Gives the part of the
    /// drawing that is seen.
    ///
    /// Fails as the first item that cannot be drawn, and leaves the plotter
    /// as it is; else with `OutOfRange` if something cannot be scaled, and
    /// leaves the plotter empty; else as the outline of the schema fails.
    fn plot(&self, plotter: &mut PlotterImpl, command: &PlotCommand, dims: &Vec<(i32, i32)>) -> (r:
        Result<Rect, Error>)
        ensures
            match schema_events(*self) {
                Err(k) => r is Err && r->Err_0.0 == k && final(plotter).items@ == old(
                    plotter,
                ).items@,
                Ok(events) => match r {
                    Ok(view) => plotted(
                        old(plotter).items@,
                        final(plotter).items@,
                        events,
                        command.scale,
                    ) && view_box(*self, command.border, dims@) == Ok::<Rect, ErrorKind>(view),
                    Err(e) => (e.0 == ErrorKind::OutOfRange && final(plotter).items@.len() == 0
                        && overflows(old(plotter).items@, events, command.scale)) || (plotted(
                        old(plotter).items@,
                        final(plotter).items@,
                        events,
                        command.scale,
                    ) && view_box(*self, command.border, dims@) == Err::<Rect, ErrorKind>(e.0)),
                },
            },
    {
        let theme = Theme { theme: command.theme };
        let mut new = match self.events(&theme) {
            Ok(v) => v,
            Err(e) => {
                return Err(e);
            },
        };
        let ghost added = new@;
        let ghost all = plotter.items@ + added;
        plotter.items.append(&mut new);
        match plotter.scale(command.scale) {
            Ok(_) => {},
            Err(e) => {
                let ghost i = choose|i: int| 0 <= i < all.len() && !scales(#[trigger] all[i], command.scale);
                assert(events_of(added) == schema_events(*self)->Ok_0 && 0 <= i < old(
                    plotter,
                ).items@.len() + added.len() && !scales(
                    (old(plotter).items@ + added)[i],
                    command.scale,
                ));
                return Err(e);
            },
        }
        assert(plotted(
            old(plotter).items@,
            plotter.items@,
            schema_events(*self)->Ok_0,
            command.scale,
        )) by {
            assert(events_of(added) == schema_events(*self)->Ok_0);
            assert(plotter.items@.len() == old(plotter).items@.len() + added.len());
        }
        if command.border {
            let size = self.paper.size();
            Ok(Rect { start: Pt { x: 0, y: 0 }, end: Pt { x: size.0, y: size.1 } })
        } else {
            self.outline(dims)
        }
    }
}

} // verus!
