//! What a plotter needs to know of a drawing: paints, anchors, line caps.

pub mod svg;
pub mod text;
pub mod theme;

use crate::gr::{Color, Effects, Pos, Pt, Pts, Rect};
use crate::math::transform::{fits, round_unit};
use crate::{Error, ErrorKind};
use theme::Themes;
use vstd::prelude::*;

verus! {

/// The paint for the plotter.
#[derive(Clone, Copy, Debug)]
pub struct Paint {
    /// The stroke color.
    pub color: Color,
    /// The fill color.
    pub fill: Option<Color>,
    /// The stroke width.
    pub width: i32,
}

impl Paint {
    pub fn black() -> (p: Self)
        ensures
            p.color == Color::Rgba(0, 0, 0, 255),
            p.fill is None,
            p.width == 2500,
    {
        Self { color: Color::black(), fill: None, width: 2500 }
    }

    pub fn red() -> (p: Self)
        ensures
            p.color == Color::Rgba(255, 0, 0, 255),
            p.fill is None,
            p.width == 2500,
    {
        Self { color: Color::red(), fill: None, width: 2500 }
    }

    pub fn green() -> (p: Self)
        ensures
            p.color == Color::Rgba(0, 255, 0, 255),
            p.fill is None,
            p.width == 2500,
    {
        Self { color: Color::green(), fill: None, width: 2500 }
    }

    pub fn blue() -> (p: Self)
        ensures
            p.color == Color::Rgba(0, 0, 255, 255),
            p.fill is None,
            p.width == 2500,
    {
        Self { color: Color::blue(), fill: None, width: 2500 }
    }

    pub fn grey() -> (p: Self)
        ensures
            p.color == Color::Rgba(128, 128, 128, 255),
            p.fill is None,
            p.width == 2500,
    {
        Self { color: Color::grey(), fill: None, width: 2500 }
    }

    /// The paint of the outlines that are drawn to find faults.
    pub fn outline() -> (p: Self)
        ensures
            p.color == Color::Rgba(255, 0, 0, 255),
            p.fill is None,
            p.width == 800,
    {
        Self { color: Color::red(), fill: None, width: 800 }
    }
}

/// Where a text is anchored horizontally.
#[derive(Clone, Copy, Debug, PartialEq, Eq, Structural)]
pub enum FontAnchor {
    Start,
    End,
    Middle,
}

impl FontAnchor {
    /// The name of an anchor.
    pub open spec fn name_spec(self) -> Seq<char> {
        match self {
            FontAnchor::Start => "start"@,
            FontAnchor::End => "end"@,
            FontAnchor::Middle => "middle"@,
        }
    }

    /// The name of the anchor.
    pub fn to_string(&self) -> (r: String)
        ensures
            r@ == self.name_spec(),
    {
        match self {
            FontAnchor::Start => "start".to_string(),
            FontAnchor::End => "end".to_string(),
            FontAnchor::Middle => "middle".to_string(),
        }
    }
}

/// Where a text is anchored vertically.
#[derive(Clone, Copy, Debug, PartialEq, Eq, Structural)]
pub enum FontBaseline {
    Auto,
    Hanging,
    Middle,
}

impl FontBaseline {
    /// The name of a baseline.
    pub open spec fn name_spec(self) -> Seq<char> {
        match self {
            FontBaseline::Auto => "auto"@,
            FontBaseline::Hanging => "hanging"@,
            FontBaseline::Middle => "middle"@,
        }
    }

    /// The name of the baseline.
    pub fn to_string(&self) -> (r: String)
        ensures
            r@ == self.name_spec(),
    {
        match self {
            FontBaseline::Auto => "auto".to_string(),
            FontBaseline::Hanging => "hanging".to_string(),
            FontBaseline::Middle => "middle".to_string(),
        }
    }
}

/// Line CAP, endings.
#[derive(Clone, Copy, Debug, PartialEq, Eq, Structural)]
pub enum LineCap {
    Butt,
    Round,
    Square,
}

impl LineCap {
    /// The name of a line cap.
    pub open spec fn name_spec(self) -> Seq<char> {
        match self {
            LineCap::Butt => "butt"@,
            LineCap::Round => "round"@,
            LineCap::Square => "square"@,
        }
    }

    /// The name of the line cap.
    pub fn to_string(&self) -> (r: String)
        ensures
            r@ == self.name_spec(),
    {
        match self {
            LineCap::Butt => "butt".to_string(),
            LineCap::Round => "round".to_string(),
            LineCap::Square => "square".to_string(),
        }
    }
}

/// The anchor that the text effects select.
pub fn anchor(effects: &crate::gr::Effects) -> (r: FontAnchor)
    ensures
        r == (if effects.justify@.contains(crate::gr::Justify::Right) {
            FontAnchor::End
        } else if effects.justify@.contains(crate::gr::Justify::Left) {
            FontAnchor::Start
        } else {
            FontAnchor::Middle
        }),
{
    if crate::gr::has_justify(&effects.justify, crate::gr::Justify::Right) {
        FontAnchor::End
    } else if crate::gr::has_justify(&effects.justify, crate::gr::Justify::Left) {
        FontAnchor::Start
    } else {
        FontAnchor::Middle
    }
}

/// The baseline that the text effects select.
pub fn baseline(effects: &crate::gr::Effects) -> (r: FontBaseline)
    ensures
        r == (if effects.justify@.contains(crate::gr::Justify::Bottom) {
            FontBaseline::Auto
        } else if effects.justify@.contains(crate::gr::Justify::Top) {
            FontBaseline::Hanging
        } else {
            FontBaseline::Middle
        }),
{
    if crate::gr::has_justify(&effects.justify, crate::gr::Justify::Bottom) {
        FontBaseline::Auto
    } else if crate::gr::has_justify(&effects.justify, crate::gr::Justify::Top) {
        FontBaseline::Hanging
    } else {
        FontBaseline::Middle
    }
}

/// Configure the Plotter
#[derive(Debug)]
pub struct PlotCommand {
    /// Whether a border and a title are drawn around the drawing.
    pub border: bool,
    /// The color theme.
    pub theme: Themes,
    /// The scale factor, in units of 0.0001.
    pub scale: i32,
    /// The pages to plot; all pages if there is none.
    pub pages: Vec<u8>,
    /// Whether each page goes to a file of its own.
    pub split: bool,
}

impl Default for PlotCommand {
    fn default() -> (c: Self)
        ensures
            !c.border,
            c.theme == Themes::Kicad2020,
            c.scale == 10000,
            c.pages@.len() == 0,
            !c.split,
    {
        PlotCommand::new()
    }
}

impl PlotCommand {
    /// The command that plots all pages at their size, without border.
    pub fn new() -> (c: Self)
        ensures
            !c.border,
            c.theme == Themes::Kicad2020,
            c.scale == 10000,
            c.pages@.len() == 0,
            !c.split,
    {
        PlotCommand {
            border: false,
            theme: Themes::Kicad2020,
            scale: 10000,
            pages: Vec::new(),
            split: false,
        }
    }

    /// This function, when invoked, enables the plotter to append a border and a title to visuals. Upon deactivation,
    /// it trims the visual to encompass solely its substance.
    pub fn border(self, value: Option<bool>) -> (c: Self)
        ensures
            c.border == (match value {
                Some(v) => v,
                None => self.border,
            }),
            c.theme == self.theme,
            c.scale == self.scale,
            c.pages == self.pages,
            c.split == self.split,
    {
        let mut c = self;
        if let Some(value) = value {
            c.border = value;
        }
        c
    }

    /// This function sets the color theme for the plotter to interpret.
    pub fn theme(self, theme: Option<Themes>) -> (c: Self)
        ensures
            c.theme == (match theme {
                Some(v) => v,
                None => self.theme,
            }),
            c.border == self.border,
            c.scale == self.scale,
            c.pages == self.pages,
            c.split == self.split,
    {
        let mut c = self;
        if let Some(theme) = theme {
            c.theme = theme;
        }
        c
    }

    /// This function allows you to adjust the dimensions of your visual content.
    /// Expandability only occurs in the absence of borders.
    pub fn scale(self, scale: Option<i32>) -> (c: Self)
        ensures
            c.scale == (match scale {
                Some(v) => v,
                None => self.scale,
            }),
            c.border == self.border,
            c.theme == self.theme,
            c.pages == self.pages,
            c.split == self.split,
    {
        let mut c = self;
        if let Some(scale) = scale {
            c.scale = scale;
        }
        c
    }

    /// Selects the pages to plot; if the list is empty, all available pages will be plotted.
    pub fn pages(self, pages: Option<Vec<u8>>) -> (c: Self)
        ensures
            c.pages == (match pages {
                Some(v) => v,
                None => self.pages,
            }),
            c.border == self.border,
            c.theme == self.theme,
            c.scale == self.scale,
            c.split == self.split,
    {
        let mut c = self;
        if let Some(pages) = pages {
            c.pages = pages;
        }
        c
    }

    /// Says whether each page goes to a file of its own.
    pub fn split(self, value: Option<bool>) -> (c: Self)
        ensures
            c.split == (match value {
                Some(v) => v,
                None => self.split,
            }),
            c.border == self.border,
            c.theme == self.theme,
            c.scale == self.scale,
            c.pages == self.pages,
    {
        let mut c = self;
        if let Some(value) = value {
            c.split = value;
        }
        c
    }
}

/// What a plotter is told to draw.
#[derive(Debug)]
pub enum PlotterNodes {
    MoveTo(Pt),
    LineTo(Pt),
    Close,
    Stroke(Paint),
    Rect { rect: Rect, stroke: Paint },
    Arc { start: Pt, mid: Pt, end: Pt, stroke: Paint },
    Circle { center: Pt, radius: i32, stroke: Paint },
    Text { text: String, pos: Pos, effects: Effects },
}

/// A point scaled by a factor: x by the factor, y by the factor and turned
/// over, then y turned over once more as every transform without mirror
/// axis does.
pub open spec fn scaled_point(p: Pt, scale: i32) -> (int, int) {
    (round_unit(p.x * scale), -round_unit(-(p.y * scale)))
}

/// Whether `after` is `before` scaled by a factor: every point is scaled,
/// and so is the radius of a circle.
pub open spec fn is_scaled(after: PlotterNodes, before: PlotterNodes, scale: i32) -> bool {
    match (before, after) {
        (PlotterNodes::MoveTo(p), PlotterNodes::MoveTo(q)) => (q.x as int, q.y as int)
            == scaled_point(p, scale),
        (PlotterNodes::LineTo(p), PlotterNodes::LineTo(q)) => (q.x as int, q.y as int)
            == scaled_point(p, scale),
        (PlotterNodes::Close, PlotterNodes::Close) => true,
        (PlotterNodes::Stroke(a), PlotterNodes::Stroke(b)) => a == b,
        (
            PlotterNodes::Rect { rect: r, stroke: a },
            PlotterNodes::Rect { rect: s, stroke: b },
        ) => a == b && (s.start.x as int, s.start.y as int) == scaled_point(r.start, scale) && (
        s.end.x as int, s.end.y as int) == scaled_point(r.end, scale),
        (
            PlotterNodes::Arc { start: s1, mid: m1, end: e1, stroke: a },
            PlotterNodes::Arc { start: s2, mid: m2, end: e2, stroke: b },
        ) => a == b && (s2.x as int, s2.y as int) == scaled_point(s1, scale) && (
        m2.x as int, m2.y as int) == scaled_point(m1, scale) && (e2.x as int, e2.y as int)
            == scaled_point(e1, scale),
        (
            PlotterNodes::Circle { center: c1, radius: r1, stroke: a },
            PlotterNodes::Circle { center: c2, radius: r2, stroke: b },
        ) => a == b && (c2.x as int, c2.y as int) == scaled_point(c1, scale) && r2 as int
            == round_unit(r1 * scale),
        (
            PlotterNodes::Text { text: t1, pos: p1, effects: e1 },
            PlotterNodes::Text { text: t2, pos: p2, effects: e2 },
        ) => t1 == t2 && e1 == e2 && p2.angle == p1.angle && (p2.x as int, p2.y as int)
            == scaled_point(Pt { x: p1.x, y: p1.y }, scale),
        _ => false,
    }
}

/// The numbers of a node that are scaled: the coordinates of its points and
/// the radius of a circle.
pub open spec fn node_numbers(node: PlotterNodes, scale: i32) -> Seq<int> {
    match node {
        PlotterNodes::MoveTo(p) => seq![scaled_point(p, scale).0, scaled_point(p, scale).1],
        PlotterNodes::LineTo(p) => seq![scaled_point(p, scale).0, scaled_point(p, scale).1],
        PlotterNodes::Close => Seq::empty(),
        PlotterNodes::Stroke(_) => Seq::empty(),
        PlotterNodes::Rect { rect, stroke } => seq![
            scaled_point(rect.start, scale).0,
            scaled_point(rect.start, scale).1,
            scaled_point(rect.end, scale).0,
            scaled_point(rect.end, scale).1,
        ],
        PlotterNodes::Arc { start, mid, end, stroke } => seq![
            scaled_point(start, scale).0,
            scaled_point(start, scale).1,
            scaled_point(mid, scale).0,
            scaled_point(mid, scale).1,
            scaled_point(end, scale).0,
            scaled_point(end, scale).1,
        ],
        PlotterNodes::Circle { center, radius, stroke } => seq![
            scaled_point(center, scale).0,
            scaled_point(center, scale).1,
            round_unit(radius * scale),
        ],
        PlotterNodes::Text { text, pos, effects } => seq![
            scaled_point(Pt { x: pos.x, y: pos.y }, scale).0,
            scaled_point(Pt { x: pos.x, y: pos.y }, scale).1,
        ],
    }
}

/// Whether a node can be scaled: all its scaled numbers fit.
pub open spec fn scales(node: PlotterNodes, scale: i32) -> bool {
    forall|i: int|
        0 <= i < node_numbers(node, scale).len() ==> i32::MIN <= #[trigger] node_numbers(
            node,
            scale,
        )[i] <= i32::MAX
}

/// `v` by the factor, rounded.
fn scale_number(v: i32, scale: i32) -> (r: i64)
    ensures
        r == round_unit(v * scale),
{
    assert(-0x4000_0000_0000_0000 <= (v as int) * (scale as int) <= 0x4000_0000_0000_0000)
        by (nonlinear_arith)
        requires
            -0x8000_0000 <= v <= 0x7fff_ffff,
            -0x8000_0000 <= scale <= 0x7fff_ffff,
    ;
    let n: i64 = (v as i64) * (scale as i64);
    if n >= 0 {
        (n + 5000) / 10000
    } else {
        -((5000 - n) / 10000)
    }
}

/// A point by the factor, if it fits.
fn scale_point(p: Pt, scale: i32) -> (r: Option<Pt>)
    ensures
        match r {
            Some(q) => (q.x as int, q.y as int) == scaled_point(p, scale),
            None => !fits(scaled_point(p, scale)),
        },
{
    assert(-0x4000_0000_0000_0000 <= (p.y as int) * (scale as int) <= 0x4000_0000_0000_0000)
        by (nonlinear_arith)
        requires
            -0x8000_0000 <= p.y <= 0x7fff_ffff,
            -0x8000_0000 <= scale <= 0x7fff_ffff,
    ;
    let x = scale_number(p.x, scale);
    let n: i64 = -((p.y as i64) * (scale as i64));
    let turned: i64 = if n >= 0 {
        (n + 5000) / 10000
    } else {
        -((5000 - n) / 10000)
    };
    let y: i64 = -turned;
    let lo: i64 = i32::MIN as i64;
    let hi: i64 = i32::MAX as i64;
    if lo <= x && x <= hi && lo <= y && y <= hi {
        Some(Pt { x: x as i32, y: y as i32 })
    } else {
        None
    }
}

/// A node by the factor, if it can be scaled.
fn scale_node(node: PlotterNodes, scale: i32) -> (r: Option<PlotterNodes>)
    ensures
        match r {
            Some(n) => is_scaled(n, node, scale) && scales(node, scale),
            None => !scales(node, scale),
        },
{
    match node {
        PlotterNodes::MoveTo(p) => {
            let ghost numbers = node_numbers(node, scale);
            match scale_point(p, scale) {
                Some(q) => Some(PlotterNodes::MoveTo(q)),
                None => {
                    assert(!(i32::MIN <= numbers[0] <= i32::MAX) || !(i32::MIN <= numbers[1]
                        <= i32::MAX));
                    None
                },
            }
        },
        PlotterNodes::LineTo(p) => {
            let ghost numbers = node_numbers(node, scale);
            match scale_point(p, scale) {
                Some(q) => Some(PlotterNodes::LineTo(q)),
                None => {
                    assert(!(i32::MIN <= numbers[0] <= i32::MAX) || !(i32::MIN <= numbers[1]
                        <= i32::MAX));
                    None
                },
            }
        },
        PlotterNodes::Close => Some(PlotterNodes::Close),
        PlotterNodes::Stroke(stroke) => Some(PlotterNodes::Stroke(stroke)),
        PlotterNodes::Rect { rect, stroke } => {
            let ghost numbers = node_numbers(node, scale);
            match (scale_point(rect.start, scale), scale_point(rect.end, scale)) {
                (Some(a), Some(b)) => Some(
                    PlotterNodes::Rect { rect: Rect { start: a, end: b }, stroke },
                ),
                _ => {
                    assert(!(i32::MIN <= numbers[0] <= i32::MAX) || !(i32::MIN <= numbers[1]
                        <= i32::MAX) || !(i32::MIN <= numbers[2] <= i32::MAX) || !(i32::MIN
                        <= numbers[3] <= i32::MAX));
                    None
                },
            }
        },
        PlotterNodes::Arc { start, mid, end, stroke } => {
            let ghost numbers = node_numbers(node, scale);
            match (scale_point(start, scale), scale_point(mid, scale), scale_point(end, scale)) {
                (Some(a), Some(b), Some(c)) => Some(
                    PlotterNodes::Arc { start: a, mid: b, end: c, stroke },
                ),
                _ => {
                    assert(!(i32::MIN <= numbers[0] <= i32::MAX) || !(i32::MIN <= numbers[1]
                        <= i32::MAX) || !(i32::MIN <= numbers[2] <= i32::MAX) || !(i32::MIN
                        <= numbers[3] <= i32::MAX) || !(i32::MIN <= numbers[4] <= i32::MAX) || !(
                    i32::MIN <= numbers[5] <= i32::MAX));
                    None
                },
            }
        },
        PlotterNodes::Circle { center, radius, stroke } => {
            let ghost numbers = node_numbers(node, scale);
            let r = scale_number(radius, scale);
            match scale_point(center, scale) {
                Some(c) => {
                    if r < (i32::MIN as i64) || r > (i32::MAX as i64) {
                        assert(!(i32::MIN <= numbers[2] <= i32::MAX));
                        None
                    } else {
                        Some(PlotterNodes::Circle { center: c, radius: r as i32, stroke })
                    }
                },
                None => {
                    assert(!(i32::MIN <= numbers[0] <= i32::MAX) || !(i32::MIN <= numbers[1]
                        <= i32::MAX));
                    None
                },
            }
        },
        PlotterNodes::Text { text, pos, effects } => {
            let ghost numbers = node_numbers(node, scale);
            match scale_point(Pt { x: pos.x, y: pos.y }, scale) {
                Some(p) => Some(
                    PlotterNodes::Text { text, pos: Pos { x: p.x, y: p.y, angle: pos.angle }, effects },
                ),
                None => {
                    assert(!(i32::MIN <= numbers[0] <= i32::MAX) || !(i32::MIN <= numbers[1]
                        <= i32::MAX));
                    None
                },
            }
        },
    }
}

/// Stores events from plotter sources for efficient access.
#[derive(Debug)]
pub struct PlotterImpl {
    /// What was drawn, in order.
    pub items: Vec<PlotterNodes>,
}

impl PlotterImpl {
    /// A plotter on which nothing has been drawn.
    pub fn new() -> (p: Self)
        ensures
            p.items@.len() == 0,
    {
        PlotterImpl { items: Vec::new() }
    }

    /// What was drawn, in order.
    pub fn iter(&self) -> (r: &Vec<PlotterNodes>)
        ensures
            *r == self.items,
    {
        &self.items
    }

    /// Move the path cursor to position.
    pub fn move_to(&mut self, pt: Pt)
        ensures
            final(self).items@ == old(self).items@.push(PlotterNodes::MoveTo(pt)),
    {
        self.items.push(PlotterNodes::MoveTo(pt));
    }

    /// Draw a line to position.
    pub fn line_to(&mut self, pt: Pt)
        ensures
            final(self).items@ == old(self).items@.push(PlotterNodes::LineTo(pt)),
    {
        self.items.push(PlotterNodes::LineTo(pt));
    }

    /// Close the path.
    pub fn close(&mut self)
        ensures
            final(self).items@ == old(self).items@.push(PlotterNodes::Close),
    {
        self.items.push(PlotterNodes::Close);
    }

    /// Stroke the path.
    pub fn stroke(&mut self, stroke: Paint)
        ensures
            final(self).items@ == old(self).items@.push(PlotterNodes::Stroke(stroke)),
    {
        self.items.push(PlotterNodes::Stroke(stroke));
    }

    /// Draw a rectangle with stroke.
    pub fn rect(&mut self, rect: Rect, stroke: Paint)
        ensures
            final(self).items@ == old(self).items@.push((PlotterNodes::Rect { rect, stroke })),
    {
        self.items.push(PlotterNodes::Rect { rect, stroke });
    }

    /// Draw an arc with stroke.
    pub fn arc(&mut self, start: Pt, mid: Pt, end: Pt, stroke: Paint)
        ensures
            final(self).items@ == old(self).items@.push(
                (PlotterNodes::Arc { start, mid, end, stroke }),
            ),
    {
        self.items.push(PlotterNodes::Arc { start, mid, end, stroke });
    }

    /// Draw a circle with stroke.
    pub fn circle(&mut self, center: Pt, radius: i32, stroke: Paint)
        ensures
            final(self).items@ == old(self).items@.push(
                (PlotterNodes::Circle { center, radius, stroke }),
            ),
    {
        self.items.push(PlotterNodes::Circle { center, radius, stroke });
    }

    /// Draw a text.
    pub fn text(&mut self, text: &str, pos: Pos, effects: Effects)
        ensures
            final(self).items@.len() == old(self).items@.len() + 1,
            final(self).items@.take(old(self).items@.len() as int) == old(self).items@,
            final(self).items@.last() matches PlotterNodes::Text { text: t, pos: p, effects: e }
                && t@ == text@ && p == pos && e == effects,
    {
        self.items.push(PlotterNodes::Text { text: text.to_string(), pos, effects });
        assert(self.items@.take(old(self).items@.len() as int) =~= old(self).items@);
    }

    /// The events of a polyline: a move to the first point, a line to each
    /// of the others, and the stroke.
    pub open spec fn path(pts: Seq<Pt>) -> Seq<PlotterNodes>
        decreases pts.len(),
    {
        if pts.len() == 0 {
            Seq::empty()
        } else if pts.len() == 1 {
            seq![PlotterNodes::MoveTo(pts[0])]
        } else {
            Self::path(pts.drop_last()).push(PlotterNodes::LineTo(pts.last()))
        }
    }

    /// Draw a polyline with the given Pts.
    pub fn polyline(&mut self, pts: Pts, stroke: Paint)
        ensures
            final(self).items@ == old(self).items@ + Self::path(pts.0@).push(
                PlotterNodes::Stroke(stroke),
            ),
    {
        let mut i: usize = 0;
        assert(self.items@ =~= old(self).items@ + Self::path(pts.0@.take(0)));
        while i < pts.0.len()
            invariant
                i <= pts.0.len(),
                self.items@ == old(self).items@ + Self::path(pts.0@.take(i as int)),
            decreases pts.0.len() - i,
        {
            assert(pts.0@.take(i + 1).drop_last() =~= pts.0@.take(i as int));
            assert(pts.0@.take(i + 1).last() == pts.0@[i as int]);
            if i == 0 {
                self.move_to(pts.0[i]);
                assert(pts.0@.take(1)[0] == pts.0@[0]);
            } else {
                self.line_to(pts.0[i]);
            }
            assert(self.items@ =~= old(self).items@ + Self::path(pts.0@.take(i + 1)));
            i += 1;
        }
        assert(pts.0@.take(i as int) =~= pts.0@);
        self.stroke(stroke);
        assert(self.items@ =~= old(self).items@ + Self::path(pts.0@).push(
            PlotterNodes::Stroke(stroke),
        ));
    }

    /// Scales what was drawn by a factor.
    ///
    /// Fails with `OutOfRange`, and drops what was drawn, if a scaled number
    /// does not fit.
    pub fn scale(&mut self, scale: i32) -> (r: Result<(), Error>)
        ensures
            match r {
                Ok(_) => final(self).items@.len() == old(self).items@.len() && forall|i: int|
                    0 <= i < old(self).items@.len() ==> is_scaled(
                        #[trigger] final(self).items@[i],
                        old(self).items@[i],
                        scale,
                    ),
                Err(e) => e.0 == ErrorKind::OutOfRange && final(self).items@.len() == 0
                    && exists|i: int|
                    0 <= i < old(self).items@.len() && !scales(
                        #[trigger] old(self).items@[i],
                        scale,
                    ),
            },
    {
        let ghost orig = self.items@;
        let ghost n = orig.len() as int;
        let mut taken: Vec<PlotterNodes> = Vec::new();
        core::mem::swap(&mut self.items, &mut taken);
        let mut turned: Vec<PlotterNodes> = Vec::new();
        loop
            invariant
                orig.len() == n,
                taken@.len() + turned@.len() == n,
                taken@ == orig.take(taken@.len() as int),
                forall|j: int| 0 <= j < turned@.len() ==> turned@[j] == orig[n - 1 - j],
                self.items@.len() == 0,
            ensures
                turned@.len() == n,
            decreases taken@.len(),
        {
            let ghost before = taken@;
            match taken.pop() {
                Some(a) => {
                    assert(a == orig[before.len() - 1]);
                    assert(taken@ =~= orig.take(before.len() - 1));
                    turned.push(a);
                },
                None => {
                    break ;
                },
            }
        }
        let mut out: Vec<PlotterNodes> = Vec::new();
        loop
            invariant
                turned@.len() <= n,
                orig.len() == n,
                orig == old(self).items@,
                forall|j: int| 0 <= j < turned@.len() ==> turned@[j] == orig[n - 1 - j],
                out@.len() == n - turned@.len(),
                forall|i: int| 0 <= i < out@.len() ==> is_scaled(#[trigger] out@[i], orig[i], scale),
                self.items@.len() == 0,
            ensures
                turned@.len() == 0,
            decreases turned@.len(),
        {
            let ghost i = n - turned@.len();
            match turned.pop() {
                Some(a) => {
                    assert(a == orig[i]);
                    match scale_node(a, scale) {
                        Some(b) => out.push(b),
                        None => {
                            assert(!scales(old(self).items@[i], scale));
                            return Err(Error::new(ErrorKind::OutOfRange, "scaled out of range"));
                        },
                    }
                },
                None => {
                    break ;
                },
            }
        }
        self.items = out;
        Ok(())
    }
}

} // verus!
