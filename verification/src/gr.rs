//! Common data types.

use crate::fixed::{quantize, quantize_spec};
use crate::strings::str_eq;
use vstd::prelude::*;
use vstd::std_specs::cmp::PartialEqSpec;
use vstd::std_specs::cmp::PartialEqSpecImpl;
use vstd::std_specs::convert::FromSpecImpl;

verus! {

/// `Pos` sets the location (x, y) and orientation of an object.
#[derive(Debug, Copy, Clone)]
pub struct Pos {
    pub x: i32,
    pub y: i32,
    pub angle: i32,
}

impl Pos {
    /// The three fields rounded to hundredths: what equality compares.
    pub open spec fn key_spec(self) -> (int, int, int) {
        (quantize_spec(self.x as int), quantize_spec(self.y as int), quantize_spec(self.angle as int))
    }

    /// The three fields rounded to hundredths.
    pub fn key(&self) -> (k: (i32, i32, i32))
        ensures
            (k.0 as int, k.1 as int, k.2 as int) == self.key_spec(),
    {
        (quantize(self.x), quantize(self.y), quantize(self.angle))
    }
}

impl PartialEq for Pos {
    fn eq(&self, other: &Self) -> (r: bool) {
        quantize(self.x) == quantize(other.x) && quantize(self.y) == quantize(other.y) && quantize(
            self.angle,
        ) == quantize(other.angle)
    }
}

impl Eq for Pos {

}

impl PartialEqSpecImpl for Pos {
    open spec fn obeys_eq_spec() -> bool {
        true
    }

    open spec fn eq_spec(&self, other: &Self) -> bool {
        self.key_spec() == other.key_spec()
    }
}

impl Default for Pos {
    fn default() -> (r: Self)
        ensures
            r == (Pos { x: 0, y: 0, angle: 0 }),
    {
        Pos { x: 0, y: 0, angle: 0 }
    }
}

/// `Pt` defines the positional coordinates of an object.
#[derive(Debug, Clone, Copy)]
pub struct Pt {
    pub x: i32,
    pub y: i32,
}

impl Pt {
    /// The point as text: both coordinates rounded to hundredths, with two
    /// digits behind the point, and an `x` between them.
    pub open spec fn text(self) -> Seq<char> {
        crate::number::two_places_text(quantize_spec(self.x as int)) + seq!['x']
            + crate::number::two_places_text(quantize_spec(self.y as int))
    }

    /// The point as text.
    pub fn to_string(&self) -> (r: String)
        ensures
            r@ == self.text(),
    {
        let mut out = crate::number::two_places(quantize(self.x));
        out.push('x');
        vstd::string::StringExecFns::append(
            &mut out,
            crate::number::two_places(quantize(self.y)).as_str(),
        );
        out
    }
}

impl Pt {
    /// Both coordinates rounded to hundredths: the connectivity key, which
    /// equality compares and maps are keyed by.
    pub open spec fn key_spec(self) -> (i32, i32) {
        (quantize_spec(self.x as int) as i32, quantize_spec(self.y as int) as i32)
    }

    /// Both coordinates rounded to hundredths.
    pub fn key(&self) -> (k: (i32, i32))
        ensures
            k == self.key_spec(),
            k.0 == quantize_spec(self.x as int),
            k.1 == quantize_spec(self.y as int),
    {
        (quantize(self.x), quantize(self.y))
    }
}

impl PartialEq for Pt {
    fn eq(&self, other: &Self) -> (r: bool) {
        quantize(self.x) == quantize(other.x) && quantize(self.y) == quantize(other.y)
    }
}

impl Eq for Pt {

}

impl PartialEqSpecImpl for Pt {
    open spec fn obeys_eq_spec() -> bool {
        true
    }

    open spec fn eq_spec(&self, other: &Self) -> bool {
        self.key_spec() == other.key_spec()
    }
}

impl Default for Pt {
    fn default() -> (r: Self)
        ensures
            r == (Pt { x: 0, y: 0 }),
    {
        Pt { x: 0, y: 0 }
    }
}

impl From<Pos> for Pt {
    fn from(p: Pos) -> (r: Self) {
        Pt { x: p.x, y: p.y }
    }
}

impl FromSpecImpl<Pos> for Pt {
    open spec fn obeys_from_spec() -> bool {
        true
    }

    open spec fn from_spec(p: Pos) -> Self {
        Pt { x: p.x, y: p.y }
    }
}

/// A point less than half a hundredth away, in both axes, from a point on the
/// hundredths grid is equal to it and has the same key.
pub proof fn lemma_pt_near_grid_equal(a: Pt, b: Pt)
    requires
        b.x % 100 == 0,
        b.y % 100 == 0,
        -50 < a.x - b.x < 50,
        -50 < a.y - b.y < 50,
    ensures
        PartialEqSpec::eq_spec(&a, &b),
        a.key_spec() == b.key_spec(),
{
    crate::fixed::lemma_quantize_near_grid(a.x as int, b.x as int);
    crate::fixed::lemma_quantize_near_grid(a.y as int, b.y as int);
}

/// Equal points have the same key, and points with the same key are equal.
pub proof fn lemma_pt_equal_iff_same_key(a: Pt, b: Pt)
    ensures
        PartialEqSpec::eq_spec(&a, &b) <==> a.key_spec() == b.key_spec(),
{
}

/// Equal points are less than a hundredth apart in both axes.
pub proof fn lemma_pt_equal_close(a: Pt, b: Pt)
    requires
        PartialEqSpec::eq_spec(&a, &b),
    ensures
        -100 < a.x - b.x < 100,
        -100 < a.y - b.y < 100,
{
    crate::fixed::lemma_quantize_range(a.x as int);
    crate::fixed::lemma_quantize_range(a.y as int);
    crate::fixed::lemma_quantize_range(b.x as int);
    crate::fixed::lemma_quantize_range(b.y as int);
    crate::fixed::lemma_quantize_same_close(a.x as int, b.x as int);
    crate::fixed::lemma_quantize_same_close(a.y as int, b.y as int);
}

/// The `Pts` token defines a list of X/Y coordinate points.
#[derive(Debug, Clone, PartialEq)]
pub struct Pts(pub Vec<Pt>);

/// The `Rect` token defines the start end enpoint of a Rectangle.
#[derive(Debug, Clone, Copy, PartialEq)]
pub struct Rect {
    pub start: Pt,
    pub end: Pt,
}

impl Default for Rect {
    fn default() -> (r: Self)
        ensures
            r == (Rect { start: Pt { x: 0, y: 0 }, end: Pt { x: 0, y: 0 } }),
    {
        Rect { start: Pt { x: 0, y: 0 }, end: Pt { x: 0, y: 0 } }
    }
}

/// The axis at which a symbol is mirrored.
#[derive(Debug, Clone, Copy, PartialEq, Eq, Structural)]
pub enum Mirror {
    X,
    Y,
    XY,
}

/// `Color` variants for different color types.
#[derive(Debug, Copy, Clone, PartialEq, Eq, Structural)]
pub enum Color {
    /// No color is set.
    NoColor,
    Rgb(u8, u8, u8),
    Rgba(u8, u8, u8, u8),
}

impl Color {
    pub fn black() -> (c: Self)
        ensures
            c == Color::Rgba(0, 0, 0, 255),
    {
        Self::Rgba(0, 0, 0, 255)
    }

    pub fn red() -> (c: Self)
        ensures
            c == Color::Rgba(255, 0, 0, 255),
    {
        Self::Rgba(255, 0, 0, 255)
    }

    pub fn green() -> (c: Self)
        ensures
            c == Color::Rgba(0, 255, 0, 255),
    {
        Self::Rgba(0, 255, 0, 255)
    }

    pub fn blue() -> (c: Self)
        ensures
            c == Color::Rgba(0, 0, 255, 255),
    {
        Self::Rgba(0, 0, 255, 255)
    }

    pub fn grey() -> (c: Self)
        ensures
            c == Color::Rgba(128, 128, 128, 255),
    {
        Self::Rgba(128, 128, 128, 255)
    }
}

impl Default for Color {
    fn default() -> (c: Self)
        ensures
            c == Color::NoColor,
    {
        Color::NoColor
    }
}

/// How a closed shape is filled.
#[derive(Debug, Clone, Copy, PartialEq, Eq, Structural)]
pub enum FillType {
    /// Not filled.
    NoFill,
    Background,
    Outline,
    Color(Color),
}

impl FillType {
    /// The fill type that a name stands for.
    pub open spec fn from_name_spec(s: Seq<char>) -> Option<FillType> {
        if s == "background"@ {
            Some(FillType::Background)
        } else if s == "outline"@ {
            Some(FillType::Outline)
        } else if s == "none"@ {
            Some(FillType::NoFill)
        } else {
            None
        }
    }

    /// The fill type named `background`, `outline` or `none`; `None` for any
    /// other name.
    pub fn from_name(s: &str) -> (r: Option<FillType>)
        ensures
            r == Self::from_name_spec(s@),
    {
        if str_eq(s, "background") {
            Some(FillType::Background)
        } else if str_eq(s, "outline") {
            Some(FillType::Outline)
        } else if str_eq(s, "none") {
            Some(FillType::NoFill)
        } else {
            None
        }
    }

    /// The name of a fill type.
    pub open spec fn name_spec(self) -> Seq<char> {
        match self {
            FillType::Background => "background"@,
            FillType::NoFill => "none"@,
            FillType::Outline => "outline"@,
            FillType::Color(_) => "color"@,
        }
    }

    /// The name of the fill type, as the file format writes it.
    pub fn to_string(&self) -> (r: String)
        ensures
            r@ == self.name_spec(),
    {
        match self {
            FillType::Background => "background".to_string(),
            FillType::NoFill => "none".to_string(),
            FillType::Outline => "outline".to_string(),
            FillType::Color(_) => "color".to_string(),
        }
    }
}

impl Default for FillType {
    fn default() -> (c: Self)
        ensures
            c == FillType::NoFill,
    {
        FillType::NoFill
    }
}

/// Text alignment flags.
#[derive(Debug, Clone, Copy, PartialEq, Eq, Structural)]
pub enum Justify {
    Bottom,
    Center,
    Left,
    Mirror,
    Right,
    Top,
}

impl Justify {
    /// The flag that a name stands for.
    pub open spec fn from_name_spec(s: Seq<char>) -> Option<Justify> {
        if s == "bottom"@ {
            Some(Justify::Bottom)
        } else if s == "left"@ {
            Some(Justify::Left)
        } else if s == "mirror"@ {
            Some(Justify::Mirror)
        } else if s == "right"@ {
            Some(Justify::Right)
        } else if s == "top"@ {
            Some(Justify::Top)
        } else {
            None
        }
    }

    /// The flag named `bottom`, `left`, `mirror`, `right` or `top`; `None`
    /// for any other name.
    pub fn from_name(s: &str) -> (r: Option<Justify>)
        ensures
            r == Self::from_name_spec(s@),
    {
        if str_eq(s, "bottom") {
            Some(Justify::Bottom)
        } else if str_eq(s, "left") {
            Some(Justify::Left)
        } else if str_eq(s, "mirror") {
            Some(Justify::Mirror)
        } else if str_eq(s, "right") {
            Some(Justify::Right)
        } else if str_eq(s, "top") {
            Some(Justify::Top)
        } else {
            None
        }
    }

    /// The name of a flag.
    pub open spec fn name_spec(self) -> Seq<char> {
        match self {
            Justify::Bottom => "bottom"@,
            Justify::Left => "left"@,
            Justify::Mirror => "mirror"@,
            Justify::Right => "right"@,
            Justify::Top => "top"@,
            Justify::Center => "center"@,
        }
    }

    /// The name of the flag, as the file format writes it.
    pub fn to_string(&self) -> (r: String)
        ensures
            r@ == self.name_spec(),
    {
        match self {
            Justify::Bottom => "bottom".to_string(),
            Justify::Left => "left".to_string(),
            Justify::Mirror => "mirror".to_string(),
            Justify::Right => "right".to_string(),
            Justify::Top => "top".to_string(),
            Justify::Center => "center".to_string(),
        }
    }
}

impl Default for Justify {
    fn default() -> (c: Self)
        ensures
            c == Justify::Center,
    {
        Justify::Center
    }
}

/// Whether the list of flags holds `flag`.
pub fn has_justify(list: &Vec<Justify>, flag: Justify) -> (r: bool)
    ensures
        r == list@.contains(flag),
{
    let mut i: usize = 0;
    while i < list.len()
        invariant
            i <= list.len(),
            forall|j: int| 0 <= j < i ==> list@[j] != flag,
        decreases list.len() - i,
    {
        if list[i] == flag {
            return true;
        }
        i += 1;
    }
    false
}

/// The stroke token defines how the outlines of graphical objects are drawn.
#[derive(Debug, Clone, Copy, PartialEq, Eq, Structural)]
pub enum StrokeType {
    Dash,
    DashDot,
    DashDotDot,
    Dot,
    Default,
    Solid,
}

impl StrokeType {
    /// The stroke type that a name stands for: `Default` for an unknown one.
    pub open spec fn from_name_spec(s: Seq<char>) -> StrokeType {
        if s == "dash"@ {
            StrokeType::Dash
        } else if s == "dashDot"@ {
            StrokeType::DashDot
        } else if s == "dashDotDot"@ {
            StrokeType::DashDotDot
        } else if s == "dot"@ {
            StrokeType::Dot
        } else if s == "solid"@ {
            StrokeType::Solid
        } else {
            StrokeType::Default
        }
    }

    /// The name of a stroke type.
    pub open spec fn name_spec(self) -> Seq<char> {
        match self {
            StrokeType::Dash => "dash"@,
            StrokeType::DashDot => "dashDot"@,
            StrokeType::DashDotDot => "dashDotDot"@,
            StrokeType::Dot => "dot"@,
            StrokeType::Solid => "solid"@,
            StrokeType::Default => "default"@,
        }
    }

    /// The name of the stroke type, as the file format writes it.
    pub fn to_string(&self) -> (r: String)
        ensures
            r@ == self.name_spec(),
    {
        match self {
            StrokeType::Dash => "dash".to_string(),
            StrokeType::DashDot => "dashDot".to_string(),
            StrokeType::DashDotDot => "dashDotDot".to_string(),
            StrokeType::Dot => "dot".to_string(),
            StrokeType::Solid => "solid".to_string(),
            StrokeType::Default => "default".to_string(),
        }
    }
}

impl From<&str> for StrokeType {
    fn from(s: &str) -> (r: Self) {
        if str_eq(s, "dash") {
            Self::Dash
        } else if str_eq(s, "dashDot") {
            Self::DashDot
        } else if str_eq(s, "dashDotDot") {
            Self::DashDotDot
        } else if str_eq(s, "dot") {
            Self::Dot
        } else if str_eq(s, "solid") {
            Self::Solid
        } else {
            Self::Default
        }
    }
}

impl FromSpecImpl<&str> for StrokeType {
    open spec fn obeys_from_spec() -> bool {
        true
    }

    open spec fn from_spec(s: &str) -> Self {
        StrokeType::from_name_spec(s@)
    }
}

impl Default for StrokeType {
    fn default() -> (c: Self)
        ensures
            c == StrokeType::Default,
    {
        StrokeType::Default
    }
}

/// The paper sizes. DIN paper sizes are used.
#[derive(Debug, Clone, Copy, PartialEq, Eq, Structural)]
pub enum PaperSize {
    A5,
    A4,
    A3,
    A2,
    A1,
    A0,
}

impl PaperSize {
    /// The paper size that a name stands for: `A0` for an unknown one.
    pub open spec fn from_name_spec(s: Seq<char>) -> PaperSize {
        if s == "A5"@ {
            PaperSize::A5
        } else if s == "A4"@ {
            PaperSize::A4
        } else if s == "A3"@ {
            PaperSize::A3
        } else if s == "A2"@ {
            PaperSize::A2
        } else if s == "A1"@ {
            PaperSize::A1
        } else {
            PaperSize::A0
        }
    }

    /// The name of a paper size.
    pub open spec fn name_spec(self) -> Seq<char> {
        match self {
            PaperSize::A5 => "A5"@,
            PaperSize::A4 => "A4"@,
            PaperSize::A3 => "A3"@,
            PaperSize::A2 => "A2"@,
            PaperSize::A1 => "A1"@,
            PaperSize::A0 => "A0"@,
        }
    }

    /// The name of the paper size.
    pub fn to_string(&self) -> (r: String)
        ensures
            r@ == self.name_spec(),
    {
        match self {
            PaperSize::A5 => "A5".to_string(),
            PaperSize::A4 => "A4".to_string(),
            PaperSize::A3 => "A3".to_string(),
            PaperSize::A2 => "A2".to_string(),
            PaperSize::A1 => "A1".to_string(),
            PaperSize::A0 => "A0".to_string(),
        }
    }

    /// Width and height of a sheet, in whole millimetres.
    pub open spec fn size_mm_spec(self) -> (int, int) {
        match self {
            PaperSize::A5 => (148, 210),
            PaperSize::A4 => (297, 210),
            PaperSize::A3 => (420, 297),
            PaperSize::A2 => (420, 594),
            PaperSize::A1 => (594, 841),
            PaperSize::A0 => (841, 1189),
        }
    }

    /// Width and height of a sheet, as fixed-point lengths.
    pub fn size(&self) -> (r: (i32, i32))
        ensures
            r.0 == self.size_mm_spec().0 * 10000,
            r.1 == self.size_mm_spec().1 * 10000,
    {
        match self {
            PaperSize::A5 => (1480000, 2100000),
            PaperSize::A4 => (2970000, 2100000),
            PaperSize::A3 => (4200000, 2970000),
            PaperSize::A2 => (4200000, 5940000),
            PaperSize::A1 => (5940000, 8410000),
            PaperSize::A0 => (8410000, 11890000),
        }
    }
}

impl From<&String> for PaperSize {
    fn from(size: &String) -> (r: Self) {
        let s = size.as_str();
        if str_eq(s, "A5") {
            Self::A5
        } else if str_eq(s, "A4") {
            Self::A4
        } else if str_eq(s, "A3") {
            Self::A3
        } else if str_eq(s, "A2") {
            Self::A2
        } else if str_eq(s, "A1") {
            Self::A1
        } else {
            Self::A0
        }
    }
}

impl FromSpecImpl<&String> for PaperSize {
    open spec fn obeys_from_spec() -> bool {
        true
    }

    open spec fn from_spec(s: &String) -> Self {
        PaperSize::from_name_spec(s@)
    }
}

impl Default for PaperSize {
    fn default() -> (c: Self)
        ensures
            c == PaperSize::A4,
    {
        PaperSize::A4
    }
}

/// All text effects have a font section.
#[derive(Debug, PartialEq)]
pub struct Font {
    /// TrueType font family name or "KiCad Font".
    pub face: Option<String>,
    /// The font's height and width.
    pub size: (i32, i32),
    /// The line thickness of the font.
    pub thickness: Option<i32>,
    /// Whether the font is bold.
    pub bold: bool,
    /// Whether the font is italicized.
    pub italic: bool,
    /// Spacing between lines.
    pub line_spacing: Option<i32>,
    /// Color of the text.
    pub color: Option<Color>,
}

impl Clone for Font {
    fn clone(&self) -> (r: Self)
        ensures
            r == *self,
    {
        Self {
            face: self.face.clone(),
            size: (self.size.0, self.size.1),
            thickness: self.thickness,
            bold: self.bold,
            italic: self.italic,
            line_spacing: self.line_spacing,
            color: self.color,
        }
    }
}

impl Default for Font {
    fn default() -> (f: Self)
        ensures
            f.face is None,
            f.size == (12700i32, 12700i32),
            f.thickness is None,
            !f.bold,
            !f.italic,
            f.line_spacing is None,
            f.color is None,
    {
        Self {
            face: None,
            size: (12700, 12700),
            thickness: None,
            bold: false,
            italic: false,
            line_spacing: None,
            color: None,
        }
    }
}

/// All text objects can have an optional effects section
/// that defines how the text is displayed.
#[derive(Debug, Clone, PartialEq)]
pub struct Effects {
    /// font attributes
    pub font: Font,
    /// text justification
    pub justify: Vec<Justify>,
    /// whether the text is hidden
    pub hide: bool,
}

impl Effects {
    /// The horizontal anchor that the flags select.
    pub open spec fn anchor_spec(self) -> Seq<char> {
        if self.justify@.contains(Justify::Right) {
            "end"@
        } else if self.justify@.contains(Justify::Left) {
            "start"@
        } else {
            "middle"@
        }
    }

    /// The vertical baseline that the flags select.
    pub open spec fn baseline_spec(self) -> Seq<char> {
        if self.justify@.contains(Justify::Bottom) {
            "auto"@
        } else if self.justify@.contains(Justify::Top) {
            "hanging"@
        } else {
            "middle"@
        }
    }

    /// `end` for right-justified text, `start` for left-justified text, and
    /// `middle` otherwise.
    pub fn anchor(&self) -> (r: String)
        ensures
            r@ == self.anchor_spec(),
    {
        if has_justify(&self.justify, Justify::Right) {
            "end".to_string()
        } else if has_justify(&self.justify, Justify::Left) {
            "start".to_string()
        } else {
            "middle".to_string()
        }
    }

    /// `auto` for bottom-justified text, `hanging` for top-justified text,
    /// and `middle` otherwise.
    pub fn baseline(&self) -> (r: String)
        ensures
            r@ == self.baseline_spec(),
    {
        if has_justify(&self.justify, Justify::Bottom) {
            "auto".to_string()
        } else if has_justify(&self.justify, Justify::Top) {
            "hanging".to_string()
        } else {
            "middle".to_string()
        }
    }
}

impl Default for Effects {
    fn default() -> (e: Self)
        ensures
            e.justify@.len() == 0,
            !e.hide,
            e.font.size == (12700i32, 12700i32),
            e.font.face is None,
    {
        Self { font: Font::default(), justify: Vec::new(), hide: false }
    }
}

/// The Stroke struct represents a graphical object's outline drawing settings.
#[derive(Debug, Clone, PartialEq)]
pub struct Stroke {
    /// Width of the graphic object's outline.
    pub width: i32,
    /// Type of line style to use when drawing the graphic object's outline.
    pub stroke_type: Option<StrokeType>,
    /// Color settings for the graphic object's outline
    pub color: Option<Color>,
}

impl Default for Stroke {
    fn default() -> (s: Self)
        ensures
            s.width == 0,
            s.stroke_type is None,
            s.color is None,
    {
        Self { width: 0, stroke_type: None, color: None }
    }
}

/// The property token defines a symbol property when used inside a symbol definition.
#[derive(Clone, Debug, PartialEq)]
pub struct Property {
    /// The `key` string defines the name of the property and must be unique.
    pub key: String,
    /// The `value` string defines the value of the property.
    pub value: String,
    /// The X and Y coordinates and rotation angle of the property.
    pub pos: Pos,
    /// How the text is displayed.
    pub effects: Effects,
}

impl Property {
    /// Check if the property is visible
    pub fn visible(&self) -> (r: bool)
        ensures
            r == !self.effects.hide,
    {
        !self.effects.hide
    }
}

/// Enum to represent abstract graphic items.
#[derive(Clone, Debug, PartialEq)]
pub enum GraphicItem {
    Arc(Arc),
    Circle(Circle),
    Curve(Curve),
    Line(Line),
    Polyline(Polyline),
    Rectangle(Rectangle),
    Text(Text),
}

/// A `Polyline` in the schema or pcb
#[derive(Clone, Debug, PartialEq)]
pub struct Polyline {
    /// The list of X/Y coordinates of the line(s).
    pub pts: Pts,
    /// How the polygon formed by the lines outline is drawn.
    pub stroke: Stroke,
    /// How the polygon formed by the lines is filled.
    pub fill: FillType,
    /// Optional universally unique identifier.
    pub uuid: Option<String>,
}

/// An `Arc` in the schema or pcb
#[derive(Clone, Debug, PartialEq)]
pub struct Arc {
    /// The coordinates of the start point of the arc.
    pub start: Pt,
    /// The coordinates of the mid point of the arc.
    pub mid: Pt,
    /// The coordinates of the end point of the arc.
    pub end: Pt,
    /// How the arc outline is drawn.
    pub stroke: Stroke,
    /// How the arc is filled.
    pub fill: FillType,
    /// Optional universally unique identifier.
    pub uuid: Option<String>,
}

/// A `Circle` in the schema or pcb
#[derive(Clone, Debug, PartialEq)]
pub struct Circle {
    /// The coordinates of the center point of the circle.
    pub center: Pt,
    /// The length of the radius of the circle.
    pub radius: i32,
    /// How the circle outline is drawn.
    pub stroke: Stroke,
    /// How the circle is filled.
    pub fill: FillType,
    /// Optional universally unique identifier.
    pub uuid: Option<String>,
}

/// A Bezier curve.
#[derive(Clone, Debug, PartialEq)]
pub struct Curve {
    /// The four X/Y coordinates of each point of the curve.
    pub pts: Pts,
    /// How the curve outline is drawn.
    pub stroke: Stroke,
    /// How the curve is filled.
    pub fill: FillType,
}

/// A line through a list of points.
#[derive(Clone, Debug, PartialEq)]
pub struct Line {
    /// The list of X/Y coordinates of the line(s).
    pub pts: Pts,
    /// How the line is drawn.
    pub stroke: Stroke,
    /// How the polygon formed by the lines is filled.
    pub fill: FillType,
    /// Optional universally unique identifier.
    pub uuid: Option<String>,
}

/// A rectangle given by two corners.
#[derive(Clone, Debug, PartialEq)]
pub struct Rectangle {
    /// The coordinates of the start point of the rectangle.
    pub start: Pt,
    /// The coordinates of the end point of the rectangle.
    pub end: Pt,
    /// How the rectangle outline is drawn.
    pub stroke: Stroke,
    /// How the rectangle is filled.
    pub fill: FillType,
    /// Optional universally unique identifier.
    pub uuid: Option<String>,
}

/// A graphical text.
#[derive(Clone, Debug, PartialEq)]
pub struct Text {
    /// The text.
    pub text: String,
    /// The X and Y coordinates and rotation angle of the text.
    pub pos: Pos,
    /// How the text is displayed.
    pub effects: Effects,
    /// Optional universally unique identifier.
    pub uuid: Option<String>,
}

/// The title_block token defines the contents of the title block.
#[derive(Debug, Clone)]
pub struct TitleBlock {
    pub title: Option<String>,
    pub date: Option<String>,
    pub revision: Option<String>,
    pub company_name: Option<String>,
    pub comment: Vec<(u8, String)>,
}

impl Default for TitleBlock {
    fn default() -> (t: Self)
        ensures
            t.title is None,
            t.date is None,
            t.revision is None,
            t.company_name is None,
            t.comment@.len() == 0,
    {
        Self { title: None, date: None, revision: None, company_name: None, comment: Vec::new() }
    }
}

} // verus!
