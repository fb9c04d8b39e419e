//! Writing the typed items of a schema as the tokens of a document.

use crate::gr::{
    Arc, Circle, Color, Effects, FillType, GraphicItem, Justify, Polyline, Pos, Property, Pt,
    Rectangle, Stroke,
};
use crate::symbols::{LibrarySymbol, Pin};
use crate::number::{decimal_string, digits_of, fixed_string, fixed_text};
use crate::schema::{
    Bus, BusEntry, GlobalLabel, HierarchicalLabel, HierarchicalPin, HierarchicalSheet, Junction,
    Instance, LocalLabel, NetclassFlag, NoConnect, ProjectInstance, SchemaItem, Symbol, Text,
    TextBox, Wire,
};
use crate::Schema;
use crate::sexp::builder::{tokens, Builder};
use crate::sexp::parser::Token;
use crate::strings::chars_of;
use crate::{Error, ErrorKind};
use vstd::prelude::*;

verus! {

/// The tokens of a node with the name and the elements.
pub open spec fn node(name: Seq<char>, elements: Seq<Token>) -> Seq<Token> {
    seq![Token::StartSymbol(name)] + elements + seq![Token::EndSymbol]
}

/// A fixed-point value as a token.
pub open spec fn fixed(v: i32) -> Token {
    Token::Values(fixed_text(v as int))
}

/// A number as a token.
pub open spec fn number(n: nat) -> Token {
    Token::Values(digits_of(n))
}

/// `yes` or `no` as a token.
pub open spec fn flag(b: bool) -> Token {
    Token::Values(
        if b {
            "yes"@
        } else {
            "no"@
        },
    )
}

/// Adds a fixed-point value.
pub fn value_fixed(builder: &mut Builder, v: i32)
    ensures
        tokens(final(builder).nodes@) == tokens(old(builder).nodes@).push(fixed(v)),
{
    let s = fixed_string(v);
    builder.value(s.as_str());
}

/// Adds a number.
pub fn value_number(builder: &mut Builder, n: u64)
    ensures
        tokens(final(builder).nodes@) == tokens(old(builder).nodes@).push(number(n as nat)),
{
    let s = decimal_string(n);
    builder.value(s.as_str());
}

/// Adds a node with one value.
pub fn node_value(builder: &mut Builder, name: &str, value: &str)
    ensures
        tokens(final(builder).nodes@) == tokens(old(builder).nodes@) + node(
            name@,
            seq![Token::Values(value@)],
        ),
{
    builder.push(name);
    builder.value(value);
    builder.end();
    assert(tokens(builder.nodes@) =~= tokens(old(builder).nodes@) + node(
        name@,
        seq![Token::Values(value@)],
    ));
}

/// Adds a node with one text.
pub fn node_text(builder: &mut Builder, name: &str, text: &str)
    ensures
        tokens(final(builder).nodes@) == tokens(old(builder).nodes@) + node(
            name@,
            seq![Token::Text(text@)],
        ),
{
    builder.push(name);
    builder.text(text);
    builder.end();
    assert(tokens(builder.nodes@) =~= tokens(old(builder).nodes@) + node(
        name@,
        seq![Token::Text(text@)],
    ));
}

/// Adds a node with one fixed-point value.
pub fn node_fixed(builder: &mut Builder, name: &str, v: i32)
    ensures
        tokens(final(builder).nodes@) == tokens(old(builder).nodes@) + node(name@, seq![fixed(v)]),
{
    builder.push(name);
    value_fixed(builder, v);
    builder.end();
    assert(tokens(builder.nodes@) =~= tokens(old(builder).nodes@) + node(name@, seq![fixed(v)]));
}

/// Adds a node that says `yes` or `no`.
pub fn node_flag(builder: &mut Builder, name: &str, b: bool)
    ensures
        tokens(final(builder).nodes@) == tokens(old(builder).nodes@) + node(name@, seq![flag(b)]),
{
    let s = crate::yes_or_no(b);
    node_value(builder, name, s.as_str());
}

/// Adds a node with two fixed-point values.
pub fn node_pair(builder: &mut Builder, name: &str, a: i32, b: i32)
    ensures
        tokens(final(builder).nodes@) == tokens(old(builder).nodes@) + node(
            name@,
            seq![fixed(a), fixed(b)],
        ),
{
    builder.push(name);
    value_fixed(builder, a);
    value_fixed(builder, b);
    builder.end();
    assert(tokens(builder.nodes@) =~= tokens(old(builder).nodes@) + node(
        name@,
        seq![fixed(a), fixed(b)],
    ));
}

/// The tokens of a position with its angle.
pub open spec fn at_tokens(pos: Pos) -> Seq<Token> {
    node("at"@, seq![fixed(pos.x), fixed(pos.y), fixed(pos.angle)])
}

/// Adds the `at` node of a position with its angle.
pub fn write_at(builder: &mut Builder, pos: &Pos)
    ensures
        tokens(final(builder).nodes@) == tokens(old(builder).nodes@) + at_tokens(*pos),
{
    builder.push("at");
    value_fixed(builder, pos.x);
    value_fixed(builder, pos.y);
    value_fixed(builder, pos.angle);
    builder.end();
    assert(tokens(builder.nodes@) =~= tokens(old(builder).nodes@) + at_tokens(*pos));
}

/// The opacity of a color as a fixed-point value between 0 and 1: the byte
/// by 255, rounded up.
pub open spec fn alpha_fixed(a: u8) -> i32 {
    ((a * 10000 + 254) / 255) as i32
}

/// Read as a byte again, the opacity that was written is the byte it was
/// written from.
pub proof fn lemma_alpha_round_trip(a: u8)
    ensures
        crate::schema_reader::alpha_byte(alpha_fixed(a)) == a,
{
}

/// The tokens of a color: a `color` node with red, green, blue and, if the
/// color has one, the opacity. No color is four zeros.
pub open spec fn color_tokens(c: Color) -> Seq<Token> {
    match c {
        Color::NoColor => node("color"@, seq![number(0), number(0), number(0), number(0)]),
        Color::Rgb(r, g, b) => node(
            "color"@,
            seq![number(r as nat), number(g as nat), number(b as nat)],
        ),
        Color::Rgba(r, g, b, a) => node(
            "color"@,
            seq![number(r as nat), number(g as nat), number(b as nat), fixed(alpha_fixed(a))],
        ),
    }
}

impl Color {
    /// Adds the `color` node of the color.
    pub fn write(&self, builder: &mut Builder) -> (r: Result<(), Error>)
        ensures
            r is Ok,
            tokens(final(builder).nodes@) == tokens(old(builder).nodes@) + color_tokens(*self),
    {
        builder.push("color");
        match self {
            Color::NoColor => {
                value_number(builder, 0);
                value_number(builder, 0);
                value_number(builder, 0);
                value_number(builder, 0);
            },
            Color::Rgb(r, g, b) => {
                value_number(builder, *r as u64);
                value_number(builder, *g as u64);
                value_number(builder, *b as u64);
            },
            Color::Rgba(r, g, b, a) => {
                value_number(builder, *r as u64);
                value_number(builder, *g as u64);
                value_number(builder, *b as u64);
                value_fixed(builder, (((*a as i32) * 10000 + 254) / 255) as i32);
            },
        }
        builder.end();
        assert(tokens(builder.nodes@) =~= tokens(old(builder).nodes@) + color_tokens(*self));
        Ok(())
    }

    /// The color as text: `none`, `rgb(r, g, b)` or `rgba(r, g, b, a)`.
    pub open spec fn text_spec(self) -> Seq<char> {
        match self {
            Color::NoColor => "none"@,
            Color::Rgb(r, g, b) => "rgb("@ + digits_of(r as nat) + ", "@ + digits_of(g as nat)
                + ", "@ + digits_of(b as nat) + seq![')'],
            Color::Rgba(r, g, b, a) => "rgba("@ + digits_of(r as nat) + ", "@ + digits_of(
                g as nat,
            ) + ", "@ + digits_of(b as nat) + ", "@ + digits_of(a as nat) + seq![')'],
        }
    }

    /// The color as text.
    pub fn to_string(&self) -> (s: String)
        ensures
            s@ == self.text_spec(),
    {
        let mut out = String::new();
        match self {
            Color::NoColor => {
                vstd::string::StringExecFns::append(&mut out, "none");
                assert(out@ =~= self.text_spec());
            },
            Color::Rgb(r, g, b) => {
                vstd::string::StringExecFns::append(&mut out, "rgb(");
                crate::number::write_digits(*r as u64, &mut out);
                vstd::string::StringExecFns::append(&mut out, ", ");
                crate::number::write_digits(*g as u64, &mut out);
                vstd::string::StringExecFns::append(&mut out, ", ");
                crate::number::write_digits(*b as u64, &mut out);
                out.push(')');
                assert(out@ =~= self.text_spec());
            },
            Color::Rgba(r, g, b, a) => {
                vstd::string::StringExecFns::append(&mut out, "rgba(");
                crate::number::write_digits(*r as u64, &mut out);
                vstd::string::StringExecFns::append(&mut out, ", ");
                crate::number::write_digits(*g as u64, &mut out);
                vstd::string::StringExecFns::append(&mut out, ", ");
                crate::number::write_digits(*b as u64, &mut out);
                vstd::string::StringExecFns::append(&mut out, ", ");
                crate::number::write_digits(*a as u64, &mut out);
                out.push(')');
                assert(out@ =~= self.text_spec());
            },
        }
        out
    }
}

/// The tokens of a stroke: a `stroke` node with the width and, where the
/// stroke has them, the type and the color.
pub open spec fn stroke_tokens(s: Stroke) -> Seq<Token> {
    node(
        "stroke"@,
        node("width"@, seq![fixed(s.width)]) + (match s.stroke_type {
            Some(t) => node("type"@, seq![Token::Values(t.name_spec())]),
            None => Seq::empty(),
        }) + (match s.color {
            Some(c) => color_tokens(c),
            None => Seq::empty(),
        }),
    )
}

impl Stroke {
    /// Adds the `stroke` node of the stroke.
    pub fn write(&self, builder: &mut Builder) -> (r: Result<(), Error>)
        ensures
            r is Ok,
            tokens(final(builder).nodes@) == tokens(old(builder).nodes@) + stroke_tokens(*self),
    {
        builder.push("stroke");
        node_fixed(builder, "width", self.width);
        if let Some(stroketype) = &self.stroke_type {
            let name = stroketype.to_string();
            node_value(builder, "type", name.as_str());
        }
        if let Some(color) = &self.color {
            let _ = color.write(builder);
        }
        builder.end();
        assert(tokens(builder.nodes@) =~= tokens(old(builder).nodes@) + stroke_tokens(*self));
        Ok(())
    }
}

/// The tokens of a fill: a `fill` node with the type and, for a fill with a
/// color, the color.
pub open spec fn fill_tokens(f: FillType) -> Seq<Token> {
    node(
        "fill"@,
        node("type"@, seq![Token::Values(f.name_spec())]) + (match f {
            FillType::Color(c) => color_tokens(c),
            _ => Seq::empty(),
        }),
    )
}

impl FillType {
    /// Adds the `fill` node of the fill.
    pub fn write(&self, builder: &mut Builder) -> (r: Result<(), Error>)
        ensures
            r is Ok,
            tokens(final(builder).nodes@) == tokens(old(builder).nodes@) + fill_tokens(*self),
    {
        builder.push("fill");
        let name = self.to_string();
        node_value(builder, "type", name.as_str());
        if let FillType::Color(c) = self {
            let _ = c.write(builder);
        }
        builder.end();
        assert(tokens(builder.nodes@) =~= tokens(old(builder).nodes@) + fill_tokens(*self));
        Ok(())
    }
}

/// The names of the flags as tokens.
pub open spec fn justify_tokens(flags: Seq<Justify>) -> Seq<Token> {
    flags.map_values(|j: Justify| Token::Values(j.name_spec()))
}

/// A node that is there only if the flag is set, and then says `yes`.
pub open spec fn yes_node(name: Seq<char>, b: bool) -> Seq<Token> {
    if b {
        node(name, seq![flag(true)])
    } else {
        Seq::empty()
    }
}

/// Adds a node that says `yes`, if the flag is set.
pub fn write_yes(builder: &mut Builder, name: &str, b: bool)
    ensures
        tokens(final(builder).nodes@) == tokens(old(builder).nodes@) + yes_node(name@, b),
{
    if b {
        node_value(builder, name, "yes");
    } else {
        assert(tokens(builder.nodes@) =~= tokens(old(builder).nodes@) + yes_node(name@, b));
    }
}

/// The tokens of a font: a `font` node with the size, which says whether
/// the font is italic and bold.
pub open spec fn font_tokens(f: crate::gr::Font) -> Seq<Token> {
    node(
        "font"@,
        node("size"@, seq![fixed(f.size.0), fixed(f.size.1)]) + yes_node("italic"@, f.italic)
            + yes_node("bold"@, f.bold),
    )
}

/// Adds the `font` node of a font.
pub fn write_font(builder: &mut Builder, font: &crate::gr::Font)
    ensures
        tokens(final(builder).nodes@) == tokens(old(builder).nodes@) + font_tokens(*font),
{
    let ghost start = tokens(builder.nodes@);
    builder.push("font");
    node_pair(builder, "size", font.size.0, font.size.1);
    write_yes(builder, "italic", font.italic);
    write_yes(builder, "bold", font.bold);
    builder.end();
    assert(tokens(builder.nodes@) =~= start + font_tokens(*font));
}

/// The tokens of a justification: a `justify` node with the names of the
/// flags, if there are any.
pub open spec fn justify_node(flags: Seq<Justify>) -> Seq<Token> {
    if flags.len() > 0 {
        node("justify"@, justify_tokens(flags))
    } else {
        Seq::empty()
    }
}

/// Adds the `justify` node of a justification.
pub fn write_justify(builder: &mut Builder, flags: &Vec<Justify>)
    ensures
        tokens(final(builder).nodes@) == tokens(old(builder).nodes@) + justify_node(flags@),
{
    let ghost start = tokens(builder.nodes@);
    if flags.len() > 0 {
        builder.push("justify");
        let ghost head = tokens(builder.nodes@);
        let mut i: usize = 0;
        assert(tokens(builder.nodes@) =~= head + justify_tokens(flags@.take(0)));
        while i < flags.len()
            invariant
                i <= flags.len(),
                tokens(builder.nodes@) == head + justify_tokens(flags@.take(i as int)),
            decreases flags.len() - i,
        {
            let name = flags[i].to_string();
            builder.value(name.as_str());
            assert(tokens(builder.nodes@) =~= head + justify_tokens(flags@.take(i + 1)));
            i += 1;
        }
        assert(flags@.take(i as int) =~= flags@);
        builder.end();
        assert(tokens(builder.nodes@) =~= start + justify_node(flags@));
    } else {
        assert(tokens(builder.nodes@) =~= start + justify_node(flags@));
    }
}

/// The tokens of text effects: an `effects` node with the font and, where
/// there are any, the justification and the hiding.
pub open spec fn effects_tokens(e: Effects) -> Seq<Token> {
    node("effects"@, font_tokens(e.font) + justify_node(e.justify@) + yes_node("hide"@, e.hide))
}

impl Effects {
    /// Adds the `effects` node of the text effects.
    pub fn write(&self, builder: &mut Builder) -> (r: Result<(), Error>)
        ensures
            r is Ok,
            tokens(final(builder).nodes@) == tokens(old(builder).nodes@) + effects_tokens(*self),
    {
        let ghost start = tokens(builder.nodes@);
        builder.push("effects");
        write_font(builder, &self.font);
        write_justify(builder, &self.justify);
        write_yes(builder, "hide", self.hide);
        builder.end();
        assert(tokens(builder.nodes@) =~= start + effects_tokens(*self));
        Ok(())
    }
}

/// The tokens of a position without its angle.
pub open spec fn place_tokens(pos: Pos) -> Seq<Token> {
    node("at"@, seq![fixed(pos.x), fixed(pos.y)])
}

/// The tokens of a point in a node with the name.
pub open spec fn point_tokens(name: Seq<char>, p: Pt) -> Seq<Token> {
    node(name, seq![fixed(p.x), fixed(p.y)])
}

/// The tokens of an identifier: a `uuid` node with the identifier as text.
pub open spec fn uuid_tokens(uuid: Seq<char>) -> Seq<Token> {
    node("uuid"@, seq![Token::Text(uuid)])
}

/// The tokens of an identifier that may be missing.
pub open spec fn optional_uuid_tokens(uuid: Option<String>) -> Seq<Token> {
    match uuid {
        Some(u) => uuid_tokens(u@),
        None => Seq::empty(),
    }
}

/// Adds the `uuid` node of an identifier that may be missing.
pub fn write_optional_uuid(builder: &mut Builder, uuid: &Option<String>)
    ensures
        tokens(final(builder).nodes@) == tokens(old(builder).nodes@) + optional_uuid_tokens(*uuid),
{
    crate::sexp::writer::write_uuid(builder, uuid);
    match uuid {
        Some(u) => {
            assert(uuid_tokens(u@) =~= seq![
                Token::StartSymbol("uuid"@),
                Token::Text(u@),
                Token::EndSymbol,
            ]);
        },
        None => {
            assert(tokens(builder.nodes@) =~= tokens(old(builder).nodes@) + optional_uuid_tokens(
                *uuid,
            ));
        },
    }
}

/// The `xy` nodes of the points.
pub open spec fn xy_tokens(pts: Seq<Pt>) -> Seq<Token>
    decreases pts.len(),
{
    if pts.len() == 0 {
        Seq::empty()
    } else {
        xy_tokens(pts.drop_last()) + point_tokens("xy"@, pts.last())
    }
}

/// The tokens of a list of points: a `pts` node with an `xy` node for each.
pub open spec fn pts_tokens(pts: Seq<Pt>) -> Seq<Token> {
    node("pts"@, xy_tokens(pts))
}

/// Adds the `pts` node of a list of points.
pub fn write_pts(builder: &mut Builder, pts: &Vec<Pt>)
    ensures
        tokens(final(builder).nodes@) == tokens(old(builder).nodes@) + pts_tokens(pts@),
{
    let ghost start = tokens(builder.nodes@);
    builder.push("pts");
    let ghost head = tokens(builder.nodes@);
    let mut i: usize = 0;
    assert(pts@.take(0) =~= Seq::<Pt>::empty());
    assert(tokens(builder.nodes@) =~= head + xy_tokens(pts@.take(0)));
    while i < pts.len()
        invariant
            i <= pts.len(),
            tokens(builder.nodes@) == head + xy_tokens(pts@.take(i as int)),
        decreases pts.len() - i,
    {
        assert(pts@.take(i + 1).drop_last() =~= pts@.take(i as int));
        assert(pts@.take(i + 1).last() == pts@[i as int]);
        let ghost before = tokens(builder.nodes@);
        node_pair(builder, "xy", pts[i].x, pts[i].y);
        assert(tokens(builder.nodes@) =~= head + (xy_tokens(pts@.take(i as int)) + point_tokens(
            "xy"@,
            pts@[i as int],
        )));
        i += 1;
    }
    assert(pts@.take(i as int) =~= pts@);
    builder.end();
    assert(tokens(builder.nodes@) =~= start + pts_tokens(pts@));
}

/// The tokens of a property: a `property` node with key and value as texts,
/// the position and the text effects.
pub open spec fn property_tokens(p: Property) -> Seq<Token> {
    node(
        "property"@,
        seq![Token::Text(p.key@), Token::Text(p.value@)] + at_tokens(p.pos) + effects_tokens(
            p.effects,
        ),
    )
}

impl Property {
    /// Adds the `property` node of the property.
    pub fn write(&self, builder: &mut Builder) -> (r: Result<(), Error>)
        ensures
            r is Ok,
            tokens(final(builder).nodes@) == tokens(old(builder).nodes@) + property_tokens(*self),
    {
        let ghost start = tokens(builder.nodes@);
        builder.push("property");
        builder.text(self.key.as_str());
        builder.text(self.value.as_str());
        write_at(builder, &self.pos);
        let _ = self.effects.write(builder);
        builder.end();
        assert(tokens(builder.nodes@) =~= start + property_tokens(*self));
        Ok(())
    }
}

/// The tokens of the properties, one after the other.
pub open spec fn properties_tokens(props: Seq<Property>) -> Seq<Token>
    decreases props.len(),
{
    if props.len() == 0 {
        Seq::empty()
    } else {
        properties_tokens(props.drop_last()) + property_tokens(props.last())
    }
}

/// Adds the `property` nodes of the properties.
pub fn write_properties(builder: &mut Builder, props: &Vec<Property>)
    ensures
        tokens(final(builder).nodes@) == tokens(old(builder).nodes@) + properties_tokens(props@),
{
    let ghost start = tokens(builder.nodes@);
    let mut i: usize = 0;
    assert(props@.take(0) =~= Seq::<Property>::empty());
    assert(tokens(builder.nodes@) =~= start + properties_tokens(props@.take(0)));
    while i < props.len()
        invariant
            i <= props.len(),
            tokens(builder.nodes@) == start + properties_tokens(props@.take(i as int)),
        decreases props.len() - i,
    {
        assert(props@.take(i + 1).drop_last() =~= props@.take(i as int));
        assert(props@.take(i + 1).last() == props@[i as int]);
        let _ = props[i].write(builder);
        assert(tokens(builder.nodes@) =~= start + (properties_tokens(props@.take(i as int))
            + property_tokens(props@[i as int])));
        i += 1;
    }
    assert(props@.take(i as int) =~= props@);
}

/// The tokens of an arc.
pub open spec fn arc_tokens(a: Arc) -> Seq<Token> {
    node(
        "arc"@,
        point_tokens("start"@, a.start) + point_tokens("mid"@, a.mid) + point_tokens("end"@, a.end)
            + stroke_tokens(a.stroke) + fill_tokens(a.fill) + optional_uuid_tokens(a.uuid),
    )
}

impl Arc {
    /// Adds the `arc` node of the arc.
    pub fn write(&self, builder: &mut Builder) -> (r: Result<(), Error>)
        ensures
            r is Ok,
            tokens(final(builder).nodes@) == tokens(old(builder).nodes@) + arc_tokens(*self),
    {
        let ghost start = tokens(builder.nodes@);
        builder.push("arc");
        node_pair(builder, "start", self.start.x, self.start.y);
        node_pair(builder, "mid", self.mid.x, self.mid.y);
        node_pair(builder, "end", self.end.x, self.end.y);
        let _ = self.stroke.write(builder);
        let _ = self.fill.write(builder);
        write_optional_uuid(builder, &self.uuid);
        builder.end();
        assert(tokens(builder.nodes@) =~= start + arc_tokens(*self));
        Ok(())
    }
}

/// The tokens of a circle.
pub open spec fn circle_tokens(c: Circle) -> Seq<Token> {
    node(
        "circle"@,
        point_tokens("center"@, c.center) + node("radius"@, seq![fixed(c.radius)]) + stroke_tokens(
            c.stroke,
        ) + fill_tokens(c.fill) + optional_uuid_tokens(c.uuid),
    )
}

impl Circle {
    /// Adds the `circle` node of the circle.
    pub fn write(&self, builder: &mut Builder) -> (r: Result<(), Error>)
        ensures
            r is Ok,
            tokens(final(builder).nodes@) == tokens(old(builder).nodes@) + circle_tokens(*self),
    {
        let ghost start = tokens(builder.nodes@);
        builder.push("circle");
        node_pair(builder, "center", self.center.x, self.center.y);
        node_fixed(builder, "radius", self.radius);
        let _ = self.stroke.write(builder);
        let _ = self.fill.write(builder);
        write_optional_uuid(builder, &self.uuid);
        builder.end();
        assert(tokens(builder.nodes@) =~= start + circle_tokens(*self));
        Ok(())
    }
}

/// The tokens of a polyline.
pub open spec fn polyline_tokens(p: Polyline) -> Seq<Token> {
    node(
        "polyline"@,
        pts_tokens(p.pts.0@) + stroke_tokens(p.stroke) + fill_tokens(p.fill) + optional_uuid_tokens(
            p.uuid,
        ),
    )
}

impl Polyline {
    /// Adds the `polyline` node of the polyline.
    pub fn write(&self, builder: &mut Builder) -> (r: Result<(), Error>)
        ensures
            r is Ok,
            tokens(final(builder).nodes@) == tokens(old(builder).nodes@) + polyline_tokens(*self),
    {
        let ghost start = tokens(builder.nodes@);
        builder.push("polyline");
        write_pts(builder, &self.pts.0);
        let _ = self.stroke.write(builder);
        let _ = self.fill.write(builder);
        write_optional_uuid(builder, &self.uuid);
        builder.end();
        assert(tokens(builder.nodes@) =~= start + polyline_tokens(*self));
        Ok(())
    }
}

/// The tokens of a rectangle.
pub open spec fn rectangle_tokens(r: Rectangle) -> Seq<Token> {
    node(
        "rectangle"@,
        point_tokens("start"@, r.start) + point_tokens("end"@, r.end) + stroke_tokens(r.stroke)
            + fill_tokens(r.fill) + optional_uuid_tokens(r.uuid),
    )
}

impl Rectangle {
    /// Adds the `rectangle` node of the rectangle.
    pub fn write(&self, builder: &mut Builder) -> (r: Result<(), Error>)
        ensures
            r is Ok,
            tokens(final(builder).nodes@) == tokens(old(builder).nodes@) + rectangle_tokens(*self),
    {
        let ghost start = tokens(builder.nodes@);
        builder.push("rectangle");
        node_pair(builder, "start", self.start.x, self.start.y);
        node_pair(builder, "end", self.end.x, self.end.y);
        let _ = self.stroke.write(builder);
        let _ = self.fill.write(builder);
        write_optional_uuid(builder, &self.uuid);
        builder.end();
        assert(tokens(builder.nodes@) =~= start + rectangle_tokens(*self));
        Ok(())
    }
}

/// The tokens of points, stroke and identifier in a node with the name: a
/// wire or a bus.
pub open spec fn path_tokens(name: Seq<char>, pts: Seq<Pt>, stroke: Stroke, uuid: Seq<char>) -> Seq<
    Token,
> {
    node(name, pts_tokens(pts) + stroke_tokens(stroke) + uuid_tokens(uuid))
}

/// Adds the node of a wire or a bus.
fn write_path(builder: &mut Builder, name: &str, pts: &Vec<Pt>, stroke: &Stroke, uuid: &String)
    ensures
        tokens(final(builder).nodes@) == tokens(old(builder).nodes@) + path_tokens(
            name@,
            pts@,
            *stroke,
            uuid@,
        ),
{
    let ghost start = tokens(builder.nodes@);
    builder.push(name);
    write_pts(builder, pts);
    let _ = stroke.write(builder);
    node_text(builder, "uuid", uuid.as_str());
    builder.end();
    assert(tokens(builder.nodes@) =~= start + path_tokens(name@, pts@, *stroke, uuid@));
}

impl Wire {
    /// Adds the `wire` node of the wire.
    pub fn write(&self, builder: &mut Builder) -> (r: Result<(), Error>)
        ensures
            r is Ok,
            tokens(final(builder).nodes@) == tokens(old(builder).nodes@) + path_tokens(
                "wire"@,
                self.pts.0@,
                self.stroke,
                self.uuid@,
            ),
    {
        write_path(builder, "wire", &self.pts.0, &self.stroke, &self.uuid);
        Ok(())
    }
}

impl Bus {
    /// Adds the `bus` node of the bus.
    pub fn write(&self, builder: &mut Builder) -> (r: Result<(), Error>)
        ensures
            r is Ok,
            tokens(final(builder).nodes@) == tokens(old(builder).nodes@) + path_tokens(
                "bus"@,
                self.pts.0@,
                self.stroke,
                self.uuid@,
            ),
    {
        write_path(builder, "bus", &self.pts.0, &self.stroke, &self.uuid);
        Ok(())
    }
}

/// The tokens of a bus entry.
pub open spec fn bus_entry_tokens(b: BusEntry) -> Seq<Token> {
    node(
        "bus_entry"@,
        place_tokens(b.pos) + node("size"@, seq![fixed(b.size.0), fixed(b.size.1)]) + stroke_tokens(
            b.stroke,
        ) + uuid_tokens(b.uuid@),
    )
}

impl BusEntry {
    /// Adds the `bus_entry` node of the bus entry.
    pub fn write(&self, builder: &mut Builder) -> (r: Result<(), Error>)
        ensures
            r is Ok,
            tokens(final(builder).nodes@) == tokens(old(builder).nodes@) + bus_entry_tokens(*self),
    {
        let ghost start = tokens(builder.nodes@);
        builder.push("bus_entry");
        node_pair(builder, "at", self.pos.x, self.pos.y);
        node_pair(builder, "size", self.size.0, self.size.1);
        let _ = self.stroke.write(builder);
        node_text(builder, "uuid", self.uuid.as_str());
        builder.end();
        assert(tokens(builder.nodes@) =~= start + bus_entry_tokens(*self));
        Ok(())
    }
}

/// The tokens of a junction: without a color of its own it has no color.
pub open spec fn junction_tokens(j: Junction) -> Seq<Token> {
    node(
        "junction"@,
        place_tokens(j.pos) + node("diameter"@, seq![fixed(j.diameter)]) + color_tokens(
            match j.color {
                Some(c) => c,
                None => Color::NoColor,
            },
        ) + uuid_tokens(j.uuid@),
    )
}

impl Junction {
    /// Adds the `junction` node of the junction.
    pub fn write(&self, builder: &mut Builder) -> (r: Result<(), Error>)
        ensures
            r is Ok,
            tokens(final(builder).nodes@) == tokens(old(builder).nodes@) + junction_tokens(*self),
    {
        let ghost start = tokens(builder.nodes@);
        builder.push("junction");
        node_pair(builder, "at", self.pos.x, self.pos.y);
        node_fixed(builder, "diameter", self.diameter);
        let color = match self.color {
            Some(c) => c,
            None => Color::NoColor,
        };
        let _ = color.write(builder);
        node_text(builder, "uuid", self.uuid.as_str());
        builder.end();
        assert(tokens(builder.nodes@) =~= start + junction_tokens(*self));
        Ok(())
    }
}

/// The tokens of a no-connect mark.
pub open spec fn no_connect_tokens(n: NoConnect) -> Seq<Token> {
    node("no_connect"@, place_tokens(n.pos) + uuid_tokens(n.uuid@))
}

impl NoConnect {
    /// Adds the `no_connect` node of the no-connect mark.
    pub fn write(&self, builder: &mut Builder) -> (r: Result<(), Error>)
        ensures
            r is Ok,
            tokens(final(builder).nodes@) == tokens(old(builder).nodes@) + no_connect_tokens(*self),
    {
        let ghost start = tokens(builder.nodes@);
        builder.push("no_connect");
        node_pair(builder, "at", self.pos.x, self.pos.y);
        node_text(builder, "uuid", self.uuid.as_str());
        builder.end();
        assert(tokens(builder.nodes@) =~= start + no_connect_tokens(*self));
        Ok(())
    }
}

/// The tokens of the shape of a label, if it has one.
pub open spec fn shape_tokens(shape: Option<String>) -> Seq<Token> {
    match shape {
        Some(s) => node("shape"@, seq![Token::Values(s@)]),
        None => Seq::empty(),
    }
}

/// Adds the `shape` node of a label, if it has a shape.
fn write_shape(builder: &mut Builder, shape: &Option<String>)
    ensures
        tokens(final(builder).nodes@) == tokens(old(builder).nodes@) + shape_tokens(*shape),
{
    match shape {
        Some(s) => {
            node_value(builder, "shape", s.as_str());
        },
        None => {
            assert(tokens(builder.nodes@) =~= tokens(old(builder).nodes@) + shape_tokens(*shape));
        },
    }
}

/// What the kinds of labels have in common: text, shape, position, whether
/// the fields are placed automatically, text effects and identifier.
pub open spec fn label_tokens(
    text: Seq<char>,
    shape: Option<String>,
    pos: Pos,
    fields_autoplaced: bool,
    effects: Effects,
    uuid: Seq<char>,
) -> Seq<Token> {
    seq![Token::Text(text)] + shape_tokens(shape) + at_tokens(pos) + yes_node(
        "fields_autoplaced"@,
        fields_autoplaced,
    ) + effects_tokens(effects) + uuid_tokens(uuid)
}

/// Adds what the kinds of labels have in common.
fn write_label(
    builder: &mut Builder,
    text: &String,
    shape: &Option<String>,
    pos: &Pos,
    fields_autoplaced: bool,
    effects: &Effects,
    uuid: &String,
)
    ensures
        tokens(final(builder).nodes@) == tokens(old(builder).nodes@) + label_tokens(
            text@,
            *shape,
            *pos,
            fields_autoplaced,
            *effects,
            uuid@,
        ),
{
    let ghost start = tokens(builder.nodes@);
    builder.text(text.as_str());
    write_shape(builder, shape);
    write_at(builder, pos);
    write_yes(builder, "fields_autoplaced", fields_autoplaced);
    let _ = effects.write(builder);
    node_text(builder, "uuid", uuid.as_str());
    assert(tokens(builder.nodes@) =~= start + label_tokens(
        text@,
        *shape,
        *pos,
        fields_autoplaced,
        *effects,
        uuid@,
    ));
}

/// The tokens of a local label.
pub open spec fn local_label_tokens(l: LocalLabel) -> Seq<Token> {
    node(
        "label"@,
        label_tokens(l.text@, None, l.pos, l.fields_autoplaced, l.effects, l.uuid@),
    )
}

impl LocalLabel {
    /// Adds the `label` node of the label.
    pub fn write(&self, builder: &mut Builder) -> (r: Result<(), Error>)
        ensures
            r is Ok,
            tokens(final(builder).nodes@) == tokens(old(builder).nodes@) + local_label_tokens(
                *self,
            ),
    {
        let ghost start = tokens(builder.nodes@);
        builder.push("label");
        write_label(
            builder,
            &self.text,
            &None,
            &self.pos,
            self.fields_autoplaced,
            &self.effects,
            &self.uuid,
        );
        builder.end();
        assert(tokens(builder.nodes@) =~= start + local_label_tokens(*self));
        Ok(())
    }
}

/// The tokens of a global label.
pub open spec fn global_label_tokens(l: GlobalLabel) -> Seq<Token> {
    node(
        "global_label"@,
        label_tokens(l.text@, l.shape, l.pos, l.fields_autoplaced, l.effects, l.uuid@)
            + properties_tokens(l.props@),
    )
}

impl GlobalLabel {
    /// Adds the `global_label` node of the label.
    pub fn write(&self, builder: &mut Builder) -> (r: Result<(), Error>)
        ensures
            r is Ok,
            tokens(final(builder).nodes@) == tokens(old(builder).nodes@) + global_label_tokens(
                *self,
            ),
    {
        let ghost start = tokens(builder.nodes@);
        builder.push("global_label");
        write_label(
            builder,
            &self.text,
            &self.shape,
            &self.pos,
            self.fields_autoplaced,
            &self.effects,
            &self.uuid,
        );
        write_properties(builder, &self.props);
        builder.end();
        assert(tokens(builder.nodes@) =~= start + global_label_tokens(*self));
        Ok(())
    }
}

/// The tokens of a hierarchical label.
pub open spec fn hierarchical_label_tokens(l: HierarchicalLabel) -> Seq<Token> {
    node(
        "hierarchical_label"@,
        label_tokens(l.text@, l.shape, l.pos, l.fields_autoplaced, l.effects, l.uuid@),
    )
}

impl HierarchicalLabel {
    /// Adds the `hierarchical_label` node of the label.
    pub fn write(&self, builder: &mut Builder) -> (r: Result<(), Error>)
        ensures
            r is Ok,
            tokens(final(builder).nodes@) == tokens(old(builder).nodes@)
                + hierarchical_label_tokens(*self),
    {
        let ghost start = tokens(builder.nodes@);
        builder.push("hierarchical_label");
        write_label(
            builder,
            &self.text,
            &self.shape,
            &self.pos,
            self.fields_autoplaced,
            &self.effects,
            &self.uuid,
        );
        builder.end();
        assert(tokens(builder.nodes@) =~= start + hierarchical_label_tokens(*self));
        Ok(())
    }
}

/// The tokens of a netclass flag.
pub open spec fn netclass_flag_tokens(f: NetclassFlag) -> Seq<Token> {
    node(
        "netclass_flag"@,
        seq![Token::Text(f.name@)] + node("length"@, seq![fixed(f.length)]) + shape_tokens(f.shape)
            + at_tokens(f.pos) + yes_node("fields_autoplaced"@, f.fields_autoplaced)
            + effects_tokens(f.effects) + uuid_tokens(f.uuid@) + properties_tokens(f.props@),
    )
}

impl NetclassFlag {
    /// Adds the `netclass_flag` node of the flag.
    #[verifier::rlimit(50)]
    pub fn write(&self, builder: &mut Builder) -> (r: Result<(), Error>)
        ensures
            r is Ok,
            tokens(final(builder).nodes@) == tokens(old(builder).nodes@) + netclass_flag_tokens(
                *self,
            ),
    {
        let ghost start = tokens(builder.nodes@);
        builder.push("netclass_flag");
        builder.text(self.name.as_str());
        node_fixed(builder, "length", self.length);
        write_shape(builder, &self.shape);
        write_at(builder, &self.pos);
        let ghost first = tokens(builder.nodes@);
        assert(first =~= start + (seq![Token::StartSymbol("netclass_flag"@)] + (seq![
            Token::Text(self.name@),
        ] + node("length"@, seq![fixed(self.length)]) + shape_tokens(self.shape) + at_tokens(
            self.pos,
        ))));
        write_yes(builder, "fields_autoplaced", self.fields_autoplaced);
        let _ = self.effects.write(builder);
        node_text(builder, "uuid", self.uuid.as_str());
        write_properties(builder, &self.props);
        builder.end();
        assert(tokens(builder.nodes@) =~= start + netclass_flag_tokens(*self));
        Ok(())
    }
}

/// The tokens of a text of a schema.
pub open spec fn text_tokens(t: Text) -> Seq<Token> {
    node(
        "text"@,
        seq![Token::Text(t.text@)] + node("exclude_from_sim"@, seq![flag(t.exclude_from_sim)])
            + at_tokens(t.pos) + effects_tokens(t.effects) + uuid_tokens(t.uuid@),
    )
}

impl Text {
    /// Adds the `text` node of the text.
    pub fn write(&self, builder: &mut Builder) -> (r: Result<(), Error>)
        ensures
            r is Ok,
            tokens(final(builder).nodes@) == tokens(old(builder).nodes@) + text_tokens(*self),
    {
        let ghost start = tokens(builder.nodes@);
        builder.push("text");
        builder.text(self.text.as_str());
        node_flag(builder, "exclude_from_sim", self.exclude_from_sim);
        write_at(builder, &self.pos);
        let _ = self.effects.write(builder);
        node_text(builder, "uuid", self.uuid.as_str());
        builder.end();
        assert(tokens(builder.nodes@) =~= start + text_tokens(*self));
        Ok(())
    }
}

/// The tokens of a text box.
pub open spec fn text_box_tokens(t: TextBox) -> Seq<Token> {
    node(
        "text_box"@,
        seq![Token::Text(t.text@)] + node("exclude_from_sim"@, seq![flag(t.exclude_from_sim)])
            + at_tokens(t.pos) + node("size"@, seq![fixed(t.width), fixed(t.height)])
            + stroke_tokens(t.stroke) + fill_tokens(t.fill) + effects_tokens(t.effects)
            + uuid_tokens(t.uuid@),
    )
}

impl TextBox {
    /// Adds the `text_box` node of the text box.
    pub fn write(&self, builder: &mut Builder) -> (r: Result<(), Error>)
        ensures
            r is Ok,
            tokens(final(builder).nodes@) == tokens(old(builder).nodes@) + text_box_tokens(*self),
    {
        let ghost start = tokens(builder.nodes@);
        builder.push("text_box");
        builder.text(self.text.as_str());
        node_flag(builder, "exclude_from_sim", self.exclude_from_sim);
        write_at(builder, &self.pos);
        node_pair(builder, "size", self.width, self.height);
        let ghost first = tokens(builder.nodes@);
        assert(first =~= start + (seq![Token::StartSymbol("text_box"@)] + (seq![
            Token::Text(self.text@),
        ] + node("exclude_from_sim"@, seq![flag(self.exclude_from_sim)]) + at_tokens(self.pos)
            + node("size"@, seq![fixed(self.width), fixed(self.height)]))));
        let _ = self.stroke.write(builder);
        let _ = self.fill.write(builder);
        let _ = self.effects.write(builder);
        node_text(builder, "uuid", self.uuid.as_str());
        builder.end();
        assert(tokens(builder.nodes@) =~= start + text_box_tokens(*self));
        Ok(())
    }
}

/// The tokens of a pin of a sheet.
pub open spec fn hierarchical_pin_tokens(p: HierarchicalPin) -> Seq<Token> {
    node(
        "pin"@,
        seq![Token::Text(p.name@), Token::Values(p.connection_type.name_spec())] + at_tokens(p.pos)
            + effects_tokens(p.effects) + uuid_tokens(p.uuid@),
    )
}

impl HierarchicalPin {
    /// Adds the `pin` node of the sheet pin.
    pub fn write(&self, builder: &mut Builder) -> (r: Result<(), Error>)
        ensures
            r is Ok,
            tokens(final(builder).nodes@) == tokens(old(builder).nodes@) + hierarchical_pin_tokens(
                *self,
            ),
    {
        let ghost start = tokens(builder.nodes@);
        builder.push("pin");
        builder.text(self.name.as_str());
        let kind = self.connection_type.to_string();
        builder.value(kind.as_str());
        write_at(builder, &self.pos);
        let _ = self.effects.write(builder);
        node_text(builder, "uuid", self.uuid.as_str());
        builder.end();
        assert(tokens(builder.nodes@) =~= start + hierarchical_pin_tokens(*self));
        Ok(())
    }
}

/// The tokens of the pins of a sheet, one after the other.
pub open spec fn hierarchical_pins_tokens(pins: Seq<HierarchicalPin>) -> Seq<Token>
    decreases pins.len(),
{
    if pins.len() == 0 {
        Seq::empty()
    } else {
        hierarchical_pins_tokens(pins.drop_last()) + hierarchical_pin_tokens(pins.last())
    }
}

/// The tokens of an instance of a sheet.
pub open spec fn project_instance_tokens(i: ProjectInstance) -> Seq<Token> {
    node(
        "instances"@,
        node(
            "project"@,
            seq![Token::Text(i.project_name@)] + node(
                "path"@,
                seq![Token::Text(i.path@)] + node("page"@, seq![Token::Text(i.page_number@)]),
            ),
        ),
    )
}

/// The tokens of the instances of a sheet, one after the other.
pub open spec fn project_instances_tokens(list: Seq<ProjectInstance>) -> Seq<Token>
    decreases list.len(),
{
    if list.len() == 0 {
        Seq::empty()
    } else {
        project_instances_tokens(list.drop_last()) + project_instance_tokens(list.last())
    }
}

/// The tokens of a sheet. Its fill is written as a color node with the name
/// of the fill.
pub open spec fn sheet_tokens(s: HierarchicalSheet) -> Seq<Token> {
    node(
        "sheet"@,
        sheet_head_tokens(s) + uuid_tokens(s.uuid@) + properties_tokens(s.props@)
            + hierarchical_pins_tokens(s.pins@) + project_instances_tokens(s.instances@),
    )
}

/// Adds the `pin` nodes of the pins of a sheet.
fn write_hierarchical_pins(builder: &mut Builder, pins: &Vec<HierarchicalPin>)
    ensures
        tokens(final(builder).nodes@) == tokens(old(builder).nodes@) + hierarchical_pins_tokens(
            pins@,
        ),
{
    let ghost head = tokens(builder.nodes@);
    let mut i: usize = 0;
    assert(pins@.take(0) =~= Seq::<HierarchicalPin>::empty());
    assert(tokens(builder.nodes@) =~= head + hierarchical_pins_tokens(pins@.take(0)));
    while i < pins.len()
        invariant
            i <= pins.len(),
            tokens(builder.nodes@) == head + hierarchical_pins_tokens(pins@.take(i as int)),
        decreases pins.len() - i,
    {
        assert(pins@.take(i + 1).drop_last() =~= pins@.take(i as int));
        assert(pins@.take(i + 1).last() == pins@[i as int]);
        let _ = pins[i].write(builder);
        assert(tokens(builder.nodes@) =~= head + (hierarchical_pins_tokens(pins@.take(i as int))
            + hierarchical_pin_tokens(pins@[i as int])));
        i += 1;
    }
    assert(pins@.take(i as int) =~= pins@);
}

/// Adds the `instances` node of an instance of a sheet.
fn write_project_instance(builder: &mut Builder, instance: &ProjectInstance)
    ensures
        tokens(final(builder).nodes@) == tokens(old(builder).nodes@) + project_instance_tokens(
            *instance,
        ),
{
    let ghost before = tokens(builder.nodes@);
    builder.push("instances");
    builder.push("project");
    builder.text(instance.project_name.as_str());
    builder.push("path");
    builder.text(instance.path.as_str());
    node_text(builder, "page", instance.page_number.as_str());
    builder.end();
    builder.end();
    builder.end();
    assert(tokens(builder.nodes@) =~= before + project_instance_tokens(*instance));
}

/// Adds the `instances` nodes of the instances of a sheet.
fn write_project_instances(builder: &mut Builder, list: &Vec<ProjectInstance>)
    ensures
        tokens(final(builder).nodes@) == tokens(old(builder).nodes@) + project_instances_tokens(
            list@,
        ),
{
    let ghost head = tokens(builder.nodes@);
    let mut k: usize = 0;
    assert(list@.take(0) =~= Seq::<ProjectInstance>::empty());
    assert(tokens(builder.nodes@) =~= head + project_instances_tokens(list@.take(0)));
    while k < list.len()
        invariant
            k <= list.len(),
            tokens(builder.nodes@) == head + project_instances_tokens(list@.take(k as int)),
        decreases list.len() - k,
    {
        assert(list@.take(k + 1).drop_last() =~= list@.take(k as int));
        assert(list@.take(k + 1).last() == list@[k as int]);
        write_project_instance(builder, &list[k]);
        assert(tokens(builder.nodes@) =~= head + (project_instances_tokens(list@.take(k as int))
            + project_instance_tokens(list@[k as int])));
        k += 1;
    }
    assert(list@.take(k as int) =~= list@);
}

/// The first tokens of a sheet: position, size, stroke and fill.
pub open spec fn sheet_head_tokens(s: HierarchicalSheet) -> Seq<Token> {
    place_tokens(s.pos) + node("size"@, seq![fixed(s.width), fixed(s.height)]) + yes_node(
        "fields_autoplaced"@,
        s.fields_autoplaced,
    ) + stroke_tokens(s.stroke) + node(
        "fill"@,
        node("color"@, seq![Token::Values(s.fill.name_spec())]),
    )
}

/// Adds the first tokens of a sheet.
fn write_sheet_head(builder: &mut Builder, s: &HierarchicalSheet)
    ensures
        tokens(final(builder).nodes@) == tokens(old(builder).nodes@) + sheet_head_tokens(*s),
{
    let ghost start = tokens(builder.nodes@);
    node_pair(builder, "at", s.pos.x, s.pos.y);
    node_pair(builder, "size", s.width, s.height);
    write_yes(builder, "fields_autoplaced", s.fields_autoplaced);
    let _ = s.stroke.write(builder);
    let ghost first = place_tokens(s.pos) + node("size"@, seq![fixed(s.width), fixed(s.height)])
        + yes_node("fields_autoplaced"@, s.fields_autoplaced) + stroke_tokens(s.stroke);
    assert(tokens(builder.nodes@) =~= start + first);
    let ghost mid = tokens(builder.nodes@);
    builder.push("fill");
    let name = s.fill.to_string();
    node_value(builder, "color", name.as_str());
    builder.end();
    assert(tokens(builder.nodes@) =~= mid + node(
        "fill"@,
        node("color"@, seq![Token::Values(s.fill.name_spec())]),
    ));
    assert(tokens(builder.nodes@) =~= start + sheet_head_tokens(*s));
}

impl HierarchicalSheet {
    /// Adds the `sheet` node of the sheet.
    pub fn write(&self, builder: &mut Builder) -> (r: Result<(), Error>)
        ensures
            r is Ok,
            tokens(final(builder).nodes@) == tokens(old(builder).nodes@) + sheet_tokens(*self),
    {
        let ghost start = tokens(builder.nodes@);
        builder.push("sheet");
        write_sheet_head(builder, self);
        node_text(builder, "uuid", self.uuid.as_str());
        write_properties(builder, &self.props);
        write_hierarchical_pins(builder, &self.pins);
        write_project_instances(builder, &self.instances);
        builder.end();
        assert(tokens(builder.nodes@) =~= start + sheet_tokens(*self));
        Ok(())
    }
}

/// The tokens of a pin of a library symbol.
pub open spec fn pin_tokens(p: Pin) -> Seq<Token> {
    node(
        "pin"@,
        seq![
            Token::Values(p.electrical_type.name_spec()),
            Token::Values(p.graphical_style.name_spec()),
        ] + at_tokens(p.pos) + node("length"@, seq![fixed(p.length)]) + (if p.hide {
            seq![Token::Values("hide"@)]
        } else {
            Seq::empty()
        }) + node("name"@, seq![Token::Text(p.name.name@)] + effects_tokens(p.name.effects))
            + node("number"@, seq![Token::Text(p.number.name@)] + effects_tokens(p.number.effects)),
    )
}

/// Adds the name or the number of a pin.
fn write_pin_property(builder: &mut Builder, name: &str, p: &crate::symbols::PinProperty)
    ensures
        tokens(final(builder).nodes@) == tokens(old(builder).nodes@) + node(
            name@,
            seq![Token::Text(p.name@)] + effects_tokens(p.effects),
        ),
{
    let ghost start = tokens(builder.nodes@);
    builder.push(name);
    builder.text(p.name.as_str());
    let _ = p.effects.write(builder);
    builder.end();
    assert(tokens(builder.nodes@) =~= start + node(
        name@,
        seq![Token::Text(p.name@)] + effects_tokens(p.effects),
    ));
}

impl Pin {
    /// Adds the `pin` node of the pin.
    pub fn write(&self, builder: &mut Builder) -> (r: Result<(), Error>)
        ensures
            r is Ok,
            tokens(final(builder).nodes@) == tokens(old(builder).nodes@) + pin_tokens(*self),
    {
        let ghost start = tokens(builder.nodes@);
        builder.push("pin");
        let electrical = self.electrical_type.to_string();
        builder.value(electrical.as_str());
        let style = self.graphical_style.to_string();
        builder.value(style.as_str());
        write_at(builder, &self.pos);
        node_fixed(builder, "length", self.length);
        if self.hide {
            builder.value("hide");
        }
        let ghost first = seq![
            Token::Values(self.electrical_type.name_spec()),
            Token::Values(self.graphical_style.name_spec()),
        ] + at_tokens(self.pos) + node("length"@, seq![fixed(self.length)]) + (if self.hide {
            seq![Token::Values("hide"@)]
        } else {
            Seq::empty()
        });
        assert(tokens(builder.nodes@) =~= start + (seq![Token::StartSymbol("pin"@)] + first));
        write_pin_property(builder, "name", &self.name);
        write_pin_property(builder, "number", &self.number);
        builder.end();
        assert(tokens(builder.nodes@) =~= start + pin_tokens(*self));
        Ok(())
    }
}

/// The tokens of the pins, one after the other.
pub open spec fn pins_tokens(pins: Seq<Pin>) -> Seq<Token>
    decreases pins.len(),
{
    if pins.len() == 0 {
        Seq::empty()
    } else {
        pins_tokens(pins.drop_last()) + pin_tokens(pins.last())
    }
}

/// Adds the `pin` nodes of the pins.
fn write_pins(builder: &mut Builder, pins: &Vec<Pin>)
    ensures
        tokens(final(builder).nodes@) == tokens(old(builder).nodes@) + pins_tokens(pins@),
{
    let ghost start = tokens(builder.nodes@);
    let mut i: usize = 0;
    assert(pins@.take(0) =~= Seq::<Pin>::empty());
    assert(tokens(builder.nodes@) =~= start + pins_tokens(pins@.take(0)));
    while i < pins.len()
        invariant
            i <= pins.len(),
            tokens(builder.nodes@) == start + pins_tokens(pins@.take(i as int)),
        decreases pins.len() - i,
    {
        assert(pins@.take(i + 1).drop_last() =~= pins@.take(i as int));
        assert(pins@.take(i + 1).last() == pins@[i as int]);
        let _ = pins[i].write(builder);
        assert(tokens(builder.nodes@) =~= start + (pins_tokens(pins@.take(i as int)) + pin_tokens(
            pins@[i as int],
        )));
        i += 1;
    }
    assert(pins@.take(i as int) =~= pins@);
}

/// The tokens of a graphic item of a library symbol: arcs, circles,
/// polylines and rectangles are written, the others are not.
pub open spec fn graphic_tokens(g: GraphicItem) -> Seq<Token> {
    match g {
        GraphicItem::Arc(a) => arc_tokens(a),
        GraphicItem::Circle(c) => circle_tokens(c),
        GraphicItem::Polyline(p) => polyline_tokens(p),
        GraphicItem::Rectangle(r) => rectangle_tokens(r),
        _ => Seq::empty(),
    }
}

/// The tokens of the graphic items, one after the other.
pub open spec fn graphics_tokens(gs: Seq<GraphicItem>) -> Seq<Token>
    decreases gs.len(),
{
    if gs.len() == 0 {
        Seq::empty()
    } else {
        graphics_tokens(gs.drop_last()) + graphic_tokens(gs.last())
    }
}

/// Adds the nodes of the graphic items.
fn write_graphics(builder: &mut Builder, gs: &Vec<GraphicItem>)
    ensures
        tokens(final(builder).nodes@) == tokens(old(builder).nodes@) + graphics_tokens(gs@),
{
    let ghost start = tokens(builder.nodes@);
    let mut i: usize = 0;
    assert(gs@.take(0) =~= Seq::<GraphicItem>::empty());
    assert(tokens(builder.nodes@) =~= start + graphics_tokens(gs@.take(0)));
    while i < gs.len()
        invariant
            i <= gs.len(),
            tokens(builder.nodes@) == start + graphics_tokens(gs@.take(i as int)),
        decreases gs.len() - i,
    {
        assert(gs@.take(i + 1).drop_last() =~= gs@.take(i as int));
        assert(gs@.take(i + 1).last() == gs@[i as int]);
        let ghost before = tokens(builder.nodes@);
        match &gs[i] {
            GraphicItem::Arc(a) => {
                let _ = a.write(builder);
            },
            GraphicItem::Circle(c) => {
                let _ = c.write(builder);
            },
            GraphicItem::Polyline(p) => {
                let _ = p.write(builder);
            },
            GraphicItem::Rectangle(r) => {
                let _ = r.write(builder);
            },
            _ => {
                assert(tokens(builder.nodes@) =~= before + graphic_tokens(gs@[i as int]));
            },
        }
        assert(tokens(builder.nodes@) =~= start + (graphics_tokens(gs@.take(i as int))
            + graphic_tokens(gs@[i as int])));
        i += 1;
    }
    assert(gs@.take(i as int) =~= gs@);
}

/// The place of the first `c` in the characters, or their number if there is
/// none.
pub open spec fn first_place(s: Seq<char>, c: char) -> int
    decreases s.len(),
{
    if s.len() == 0 {
        0
    } else if s[0] == c {
        0
    } else {
        1 + first_place(s.drop_first(), c)
    }
}

/// What stands behind the first colon, if there is a colon.
pub open spec fn after_colon(s: Seq<char>) -> Option<Seq<char>> {
    if first_place(s, ':') < s.len() {
        Some(s.skip(first_place(s, ':') + 1))
    } else {
        None
    }
}

/// `first_place` lies within the characters.
pub proof fn lemma_first_place(s: Seq<char>, c: char)
    ensures
        0 <= first_place(s, c) <= s.len(),
    decreases s.len(),
{
    if s.len() > 0 && s[0] != c {
        lemma_first_place(s.drop_first(), c);
    }
}

/// The place of the first `c` in `v[from..]`.
fn find_first(v: &Vec<char>, from: usize, c: char) -> (p: usize)
    requires
        from <= v.len(),
    ensures
        from <= p <= v.len(),
        p - from == first_place(v@.skip(from as int), c),
{
    let mut i: usize = from;
    while i < v.len()
        invariant
            from <= i <= v.len(),
            first_place(v@.skip(from as int), c) == (i - from) + first_place(v@.skip(i as int), c),
        decreases v.len() - i,
    {
        assert(v@.skip(i as int)[0] == v@[i as int]);
        assert(v@.skip(i as int).drop_first() =~= v@.skip(i + 1));
        if v[i] == c {
            return i;
        }
        i += 1;
    }
    assert(v@.skip(i as int).len() == 0);
    i
}

/// The name of a symbol within its library: what stands behind the first
/// colon of its identifier.
///
/// Fails if the identifier holds no colon.
pub fn sub_lib_id(input: &str) -> (r: Result<String, Error>)
    ensures
        match r {
            Ok(s) => after_colon(input@) == Some(s@),
            Err(e) => after_colon(input@) is None && e.0 == ErrorKind::Sexp,
        },
{
    let v = chars_of(input);
    assert(v@.skip(0) =~= v@);
    let p = find_first(&v, 0, ':');
    if p < v.len() {
        let s = crate::strings::string_of(&v, p + 1, v.len());
        assert(v@.subrange(p + 1, v.len() as int) =~= v@.skip(p + 1));
        Ok(s)
    } else {
        Err(Error::new(ErrorKind::Sexp, "can not find a colon"))
    }
}

/// The characters without the colons at their begin.
pub open spec fn without_colons(s: Seq<char>) -> Seq<char>
    decreases s.len(),
{
    if s.len() > 0 && s[0] == ':' {
        without_colons(s.drop_first())
    } else {
        s
    }
}

/// The identifier of a unit: the name of the library symbol, the unit and
/// the style, with `_` between them.
pub open spec fn unit_id(lib_id: Seq<char>, unit: LibrarySymbol) -> Option<Seq<char>> {
    match (
        after_colon(without_colons(lib_id)),
        crate::symbols::unit_of(unit.lib_id@),
        crate::symbols::style_of(unit.lib_id@),
    ) {
        (Some(name), Some(u), Some(s)) => Some(
            name + seq!['_'] + digits_of(u as nat) + seq!['_'] + digits_of(s as nat),
        ),
        _ => None,
    }
}

/// The identifier of a unit.
fn unit_identifier(lib_id: &String, unit: &LibrarySymbol) -> (r: Result<String, Error>)
    ensures
        match r {
            Ok(s) => unit_id(lib_id@, *unit) == Some(s@),
            Err(e) => unit_id(lib_id@, *unit) is None && e.0 == ErrorKind::Sexp,
        },
{
    let v = chars_of(lib_id.as_str());
    let mut from: usize = 0;
    assert(v@.skip(0) =~= v@);
    while from < v.len() && v[from] == ':'
        invariant
            from <= v.len(),
            without_colons(v@) == without_colons(v@.skip(from as int)),
        decreases v.len() - from,
    {
        assert(v@.skip(from as int)[0] == v@[from as int]);
        assert(v@.skip(from as int).drop_first() =~= v@.skip(from + 1));
        from += 1;
    }
    assert(without_colons(v@.skip(from as int)) == v@.skip(from as int)) by {
        if from < v.len() {
            assert(v@.skip(from as int)[0] == v@[from as int]);
        }
    }
    let trimmed = crate::strings::string_of(&v, from, v.len());
    assert(v@.subrange(from as int, v.len() as int) =~= v@.skip(from as int));
    let mut name = match sub_lib_id(trimmed.as_str()) {
        Ok(n) => n,
        Err(e) => {
            return Err(e);
        },
    };
    let Some(u) = unit.unit() else {
        return Err(Error::new(ErrorKind::Sexp, "a unit has a unit number"));
    };
    let Some(s) = unit.style() else {
        return Err(Error::new(ErrorKind::Sexp, "a unit has a style number"));
    };
    name.push('_');
    crate::number::write_digits(u as u64, &mut name);
    name.push('_');
    crate::number::write_digits(s as u64, &mut name);
    assert(name@ =~= unit_id(lib_id@, *unit)->0);
    Ok(name)
}

/// The tokens of a unit of a library symbol: a `symbol` node with the
/// identifier of the unit, its graphic items and its pins.
pub open spec fn unit_tokens(lib_id: Seq<char>, unit: LibrarySymbol) -> Seq<Token> {
    node(
        "symbol"@,
        seq![Token::Text(unit_id(lib_id, unit)->0)] + graphics_tokens(unit.graphics@) + pins_tokens(
            unit.pins@,
        ),
    )
}

/// Adds the `symbol` node of a unit of a library symbol.
fn write_unit(builder: &mut Builder, lib_id: &String, unit: &LibrarySymbol) -> (r: Result<
    (),
    Error,
>)
    ensures
        match r {
            Ok(_) => unit_id(lib_id@, *unit) is Some && tokens(final(builder).nodes@) == tokens(
                old(builder).nodes@,
            ) + unit_tokens(lib_id@, *unit),
            Err(e) => unit_id(lib_id@, *unit) is None && e.0 == ErrorKind::Sexp,
        },
{
    let ghost before = tokens(builder.nodes@);
    let name = match unit_identifier(lib_id, unit) {
        Ok(n) => n,
        Err(e) => {
            return Err(e);
        },
    };
    builder.push("symbol");
    builder.text(name.as_str());
    write_graphics(builder, &unit.graphics);
    write_pins(builder, &unit.pins);
    builder.end();
    assert(tokens(builder.nodes@) =~= before + unit_tokens(lib_id@, *unit));
    Ok(())
}

/// The tokens of the units, one after the other.
pub open spec fn units_tokens(lib_id: Seq<char>, units: Seq<LibrarySymbol>) -> Seq<Token>
    decreases units.len(),
{
    if units.len() == 0 {
        Seq::empty()
    } else {
        units_tokens(lib_id, units.drop_last()) + unit_tokens(lib_id, units.last())
    }
}

/// Whether each of the units has an identifier.
pub open spec fn units_named(lib_id: Seq<char>, units: Seq<LibrarySymbol>) -> bool {
    forall|i: int| 0 <= i < units.len() ==> unit_id(lib_id, #[trigger] units[i]) is Some
}

/// The tokens that say how the pin names of a library symbol are shown.
pub open spec fn pin_names_tokens(offset: Option<i32>, shown: bool) -> Seq<Token> {
    match offset {
        Some(o) => node(
            "pin_names"@,
            node("offset"@, seq![fixed(o)]) + (if shown {
                Seq::empty()
            } else {
                seq![Token::Values("hide"@)]
            }),
        ),
        None => if shown {
            Seq::empty()
        } else {
            node("pin_names"@, seq![Token::Values("hide"@)])
        },
    }
}

/// Adds the `pin_names` node of a library symbol.
fn write_pin_names(builder: &mut Builder, offset: Option<i32>, shown: bool)
    ensures
        tokens(final(builder).nodes@) == tokens(old(builder).nodes@) + pin_names_tokens(
            offset,
            shown,
        ),
{
    let ghost start = tokens(builder.nodes@);
    if let Some(o) = offset {
        builder.push("pin_names");
        node_fixed(builder, "offset", o);
        if !shown {
            builder.value("hide");
        }
        builder.end();
        assert(tokens(builder.nodes@) =~= start + pin_names_tokens(offset, shown));
    } else if !shown {
        node_value(builder, "pin_names", "hide");
    } else {
        assert(tokens(builder.nodes@) =~= start + pin_names_tokens(offset, shown));
    }
}

/// The first tokens of a library symbol: its identifier and what it says of
/// itself.
pub open spec fn library_head_tokens(l: LibrarySymbol) -> Seq<Token> {
    seq![Token::Text(l.lib_id@)] + (if l.power {
        node("power"@, Seq::empty())
    } else {
        Seq::empty()
    }) + (if l.pin_numbers {
        Seq::empty()
    } else {
        node("pin_numbers"@, seq![Token::Values("hide"@)])
    }) + pin_names_tokens(l.pin_names_offset, l.pin_names) + node(
        "exclude_from_sim"@,
        seq![flag(l.exclude_from_sim)],
    ) + node("in_bom"@, seq![flag(l.in_bom)]) + node("on_board"@, seq![flag(l.on_board)])
}

/// Adds the first tokens of a library symbol.
#[verifier::rlimit(50)]
fn write_library_head(builder: &mut Builder, l: &LibrarySymbol)
    ensures
        tokens(final(builder).nodes@) == tokens(old(builder).nodes@) + library_head_tokens(*l),
{
    let ghost start = tokens(builder.nodes@);
    builder.text(l.lib_id.as_str());
    if l.power {
        builder.push("power");
        builder.end();
    }
    let ghost one = seq![Token::Text(l.lib_id@)] + (if l.power {
        node("power"@, Seq::empty())
    } else {
        Seq::empty()
    });
    assert(tokens(builder.nodes@) =~= start + one);
    if !l.pin_numbers {
        node_value(builder, "pin_numbers", "hide");
    }
    write_pin_names(builder, l.pin_names_offset, l.pin_names);
    let ghost two = one + (if l.pin_numbers {
        Seq::empty()
    } else {
        node("pin_numbers"@, seq![Token::Values("hide"@)])
    }) + pin_names_tokens(l.pin_names_offset, l.pin_names);
    assert(tokens(builder.nodes@) =~= start + two);
    node_flag(builder, "exclude_from_sim", l.exclude_from_sim);
    node_flag(builder, "in_bom", l.in_bom);
    node_flag(builder, "on_board", l.on_board);
    assert(tokens(builder.nodes@) =~= start + library_head_tokens(*l));
}

/// The tokens of a library symbol: a `symbol` node with what it says of
/// itself, its properties and its units.
pub open spec fn library_tokens(l: LibrarySymbol) -> Seq<Token> {
    node(
        "symbol"@,
        library_head_tokens(l) + properties_tokens(l.props@) + units_tokens(l.lib_id@, l.units@),
    )
}

impl LibrarySymbol {
    /// Adds the `symbol` node of the library symbol.
    ///
    /// Fails if a unit has no identifier: if the identifier of the library
    /// symbol holds no colon, or that of the unit no unit or style number.
    #[verifier::rlimit(50)]
    pub fn write(&self, builder: &mut Builder) -> (r: Result<(), Error>)
        ensures
            match r {
                Ok(_) => units_named(self.lib_id@, self.units@) && tokens(final(builder).nodes@)
                    == tokens(old(builder).nodes@) + library_tokens(*self),
                Err(e) => !units_named(self.lib_id@, self.units@) && e.0 == ErrorKind::Sexp,
            },
    {
        let ghost start = tokens(builder.nodes@);
        builder.push("symbol");
        write_library_head(builder, self);
        write_properties(builder, &self.props);
        let ghost head = tokens(builder.nodes@);
        assert(head =~= start + (seq![Token::StartSymbol("symbol"@)] + (library_head_tokens(*self)
            + properties_tokens(self.props@))));
        let mut i: usize = 0;
        assert(self.units@.take(0) =~= Seq::<LibrarySymbol>::empty());
        assert(tokens(builder.nodes@) =~= head + units_tokens(self.lib_id@, self.units@.take(0)));
        while i < self.units.len()
            invariant
                i <= self.units.len(),
                units_named(self.lib_id@, self.units@.take(i as int)),
                tokens(builder.nodes@) == head + units_tokens(
                    self.lib_id@,
                    self.units@.take(i as int),
                ),
            decreases self.units.len() - i,
        {
            assert(self.units@.take(i + 1).drop_last() =~= self.units@.take(i as int));
            assert(self.units@.take(i + 1).last() == self.units@[i as int]);
            match write_unit(builder, &self.lib_id, &self.units[i]) {
                Ok(_) => {},
                Err(e) => {
                    return Err(e);
                },
            }
            assert(tokens(builder.nodes@) =~= head + (units_tokens(
                self.lib_id@,
                self.units@.take(i as int),
            ) + unit_tokens(self.lib_id@, self.units@[i as int])));
            assert forall|k: int| 0 <= k < i + 1 implies unit_id(
                self.lib_id@,
                #[trigger] self.units@.take(i + 1)[k],
            ) is Some by {
                if k < i {
                    assert(self.units@.take(i as int)[k] == self.units@[k]);
                }
            }
            i += 1;
        }
        assert(self.units@.take(i as int) =~= self.units@);
        builder.end();
        assert(tokens(builder.nodes@) =~= start + library_tokens(*self));
        Ok(())
    }
}

/// The first tokens of a placed symbol: what it refers to, where it is, and
/// what it says of itself.
pub open spec fn symbol_head_tokens(s: Symbol) -> Seq<Token> {
    node("lib_id"@, seq![Token::Text(s.lib_id@)]) + at_tokens(s.pos) + mirror_tokens(s.mirror)
        + node("unit"@, seq![number(s.unit as nat)]) + symbol_flags_tokens(s)
}

/// The tokens of the mirror axis of a placed symbol, if it has one.
pub open spec fn mirror_tokens(mirror: Option<String>) -> Seq<Token> {
    match mirror {
        Some(m) => node("mirror"@, seq![Token::Values(m@)]),
        None => Seq::empty(),
    }
}

/// The flags of a placed symbol, and its identifier.
pub open spec fn symbol_flags_tokens(s: Symbol) -> Seq<Token> {
    node("exclude_from_sim"@, seq![flag(s.exclude_from_sim)]) + node(
        "in_bom"@,
        seq![flag(s.in_bom)],
    ) + node("on_board"@, seq![flag(s.on_board)]) + node("dnp"@, seq![flag(s.dnp)]) + uuid_tokens(
        s.uuid@,
    )
}

/// Adds the flags of a placed symbol, and its identifier.
fn write_symbol_flags(builder: &mut Builder, s: &Symbol)
    ensures
        tokens(final(builder).nodes@) == tokens(old(builder).nodes@) + symbol_flags_tokens(*s),
{
    let ghost start = tokens(builder.nodes@);
    node_flag(builder, "exclude_from_sim", s.exclude_from_sim);
    node_flag(builder, "in_bom", s.in_bom);
    node_flag(builder, "on_board", s.on_board);
    node_flag(builder, "dnp", s.dnp);
    node_text(builder, "uuid", s.uuid.as_str());
    assert(tokens(builder.nodes@) =~= start + symbol_flags_tokens(*s));
}

/// Adds the first tokens of a placed symbol.
fn write_symbol_head(builder: &mut Builder, s: &Symbol)
    ensures
        tokens(final(builder).nodes@) == tokens(old(builder).nodes@) + symbol_head_tokens(*s),
{
    let ghost start = tokens(builder.nodes@);
    node_text(builder, "lib_id", s.lib_id.as_str());
    write_at(builder, &s.pos);
    if let Some(mirror) = &s.mirror {
        node_value(builder, "mirror", mirror.as_str());
    }
    builder.push("unit");
    value_number(builder, s.unit as u64);
    builder.end();
    let ghost first = node("lib_id"@, seq![Token::Text(s.lib_id@)]) + at_tokens(s.pos)
        + mirror_tokens(s.mirror) + node("unit"@, seq![number(s.unit as nat)]);
    assert(tokens(builder.nodes@) =~= start + first);
    write_symbol_flags(builder, s);
    assert(tokens(builder.nodes@) =~= start + symbol_head_tokens(*s));
}

/// The tokens of a pin of a placed symbol: its number and its identifier.
pub open spec fn symbol_pin_tokens(p: (String, String)) -> Seq<Token> {
    node("pin"@, seq![Token::Text(p.0@)] + uuid_tokens(p.1@))
}

/// The tokens of the pins of a placed symbol, one after the other.
pub open spec fn symbol_pins_tokens(pins: Seq<(String, String)>) -> Seq<Token>
    decreases pins.len(),
{
    if pins.len() == 0 {
        Seq::empty()
    } else {
        symbol_pins_tokens(pins.drop_last()) + symbol_pin_tokens(pins.last())
    }
}

/// Adds the `pin` nodes of a placed symbol.
fn write_symbol_pins(builder: &mut Builder, pins: &Vec<(String, String)>)
    ensures
        tokens(final(builder).nodes@) == tokens(old(builder).nodes@) + symbol_pins_tokens(pins@),
{
    let ghost head = tokens(builder.nodes@);
    let mut i: usize = 0;
    assert(pins@.take(0) =~= Seq::<(String, String)>::empty());
    assert(tokens(builder.nodes@) =~= head + symbol_pins_tokens(pins@.take(0)));
    while i < pins.len()
        invariant
            i <= pins.len(),
            tokens(builder.nodes@) == head + symbol_pins_tokens(pins@.take(i as int)),
        decreases pins.len() - i,
    {
        assert(pins@.take(i + 1).drop_last() =~= pins@.take(i as int));
        assert(pins@.take(i + 1).last() == pins@[i as int]);
        let ghost before = tokens(builder.nodes@);
        builder.push("pin");
        builder.text(pins[i].0.as_str());
        node_text(builder, "uuid", pins[i].1.as_str());
        builder.end();
        assert(tokens(builder.nodes@) =~= before + symbol_pin_tokens(pins@[i as int]));
        assert(tokens(builder.nodes@) =~= head + (symbol_pins_tokens(pins@.take(i as int))
            + symbol_pin_tokens(pins@[i as int])));
        i += 1;
    }
    assert(pins@.take(i as int) =~= pins@);
}

/// The tokens of an instance of a placed symbol.
pub open spec fn instance_tokens(i: Instance) -> Seq<Token> {
    node(
        "instances"@,
        node(
            "project"@,
            seq![Token::Text(i.project@)] + node(
                "path"@,
                seq![Token::Text(i.path@)] + node("reference"@, seq![Token::Text(i.reference@)])
                    + node("unit"@, seq![number(i.unit as nat)]),
            ),
        ),
    )
}

/// The tokens of the instances of a placed symbol, one after the other.
pub open spec fn instances_tokens(list: Seq<Instance>) -> Seq<Token>
    decreases list.len(),
{
    if list.len() == 0 {
        Seq::empty()
    } else {
        instances_tokens(list.drop_last()) + instance_tokens(list.last())
    }
}

/// Adds the `instances` node of an instance of a placed symbol.
fn write_instance(builder: &mut Builder, instance: &Instance)
    ensures
        tokens(final(builder).nodes@) == tokens(old(builder).nodes@) + instance_tokens(*instance),
{
    let ghost before = tokens(builder.nodes@);
    builder.push("instances");
    builder.push("project");
    builder.text(instance.project.as_str());
    builder.push("path");
    builder.text(instance.path.as_str());
    node_text(builder, "reference", instance.reference.as_str());
    builder.push("unit");
    value_number(builder, instance.unit as u64);
    builder.end();
    builder.end();
    builder.end();
    builder.end();
    assert(tokens(builder.nodes@) =~= before + instance_tokens(*instance));
}

/// Adds the `instances` nodes of a placed symbol.
fn write_instances(builder: &mut Builder, list: &Vec<Instance>)
    ensures
        tokens(final(builder).nodes@) == tokens(old(builder).nodes@) + instances_tokens(list@),
{
    let ghost head = tokens(builder.nodes@);
    let mut k: usize = 0;
    assert(list@.take(0) =~= Seq::<Instance>::empty());
    assert(tokens(builder.nodes@) =~= head + instances_tokens(list@.take(0)));
    while k < list.len()
        invariant
            k <= list.len(),
            tokens(builder.nodes@) == head + instances_tokens(list@.take(k as int)),
        decreases list.len() - k,
    {
        assert(list@.take(k + 1).drop_last() =~= list@.take(k as int));
        assert(list@.take(k + 1).last() == list@[k as int]);
        write_instance(builder, &list[k]);
        assert(tokens(builder.nodes@) =~= head + (instances_tokens(list@.take(k as int))
            + instance_tokens(list@[k as int])));
        k += 1;
    }
    assert(list@.take(k as int) =~= list@);
}

/// The tokens of a placed symbol.
pub open spec fn symbol_tokens(s: Symbol) -> Seq<Token> {
    node(
        "symbol"@,
        symbol_head_tokens(s) + properties_tokens(s.props@) + symbol_pins_tokens(s.pins@)
            + instances_tokens(s.instances@),
    )
}

impl Symbol {
    /// Adds the `symbol` node of the placed symbol.
    pub fn write(&self, builder: &mut Builder) -> (r: Result<(), Error>)
        ensures
            r is Ok,
            tokens(final(builder).nodes@) == tokens(old(builder).nodes@) + symbol_tokens(*self),
    {
        let ghost start = tokens(builder.nodes@);
        builder.push("symbol");
        write_symbol_head(builder, self);
        write_properties(builder, &self.props);
        write_symbol_pins(builder, &self.pins);
        write_instances(builder, &self.instances);
        builder.end();
        assert(tokens(builder.nodes@) =~= start + symbol_tokens(*self));
        Ok(())
    }
}

/// The tokens of an item of a schema. Curves and lines have none: they
/// cannot be written.
pub open spec fn item_tokens(item: SchemaItem) -> Option<Seq<Token>> {
    match item {
        SchemaItem::Arc(x) => Some(arc_tokens(x)),
        SchemaItem::Bus(x) => Some(path_tokens("bus"@, x.pts.0@, x.stroke, x.uuid@)),
        SchemaItem::BusEntry(x) => Some(bus_entry_tokens(x)),
        SchemaItem::Circle(x) => Some(circle_tokens(x)),
        SchemaItem::Curve(_) => None,
        SchemaItem::GlobalLabel(x) => Some(global_label_tokens(x)),
        SchemaItem::Junction(x) => Some(junction_tokens(x)),
        SchemaItem::Line(_) => None,
        SchemaItem::LocalLabel(x) => Some(local_label_tokens(x)),
        SchemaItem::NoConnect(x) => Some(no_connect_tokens(x)),
        SchemaItem::Polyline(x) => Some(polyline_tokens(x)),
        SchemaItem::Rectangle(x) => Some(rectangle_tokens(x)),
        SchemaItem::Symbol(x) => Some(symbol_tokens(x)),
        SchemaItem::Text(x) => Some(text_tokens(x)),
        SchemaItem::Wire(x) => Some(path_tokens("wire"@, x.pts.0@, x.stroke, x.uuid@)),
        SchemaItem::HierarchicalSheet(x) => Some(sheet_tokens(x)),
        SchemaItem::TextBox(x) => Some(text_box_tokens(x)),
        SchemaItem::HierarchicalLabel(x) => Some(hierarchical_label_tokens(x)),
        SchemaItem::NetclassFlag(x) => Some(netclass_flag_tokens(x)),
    }
}

/// Adds the node of an item of a schema.
///
/// Fails with `Unsupported` for a curve and for a line.
pub fn write_item(builder: &mut Builder, item: &SchemaItem) -> (r: Result<(), Error>)
    ensures
        match r {
            Ok(_) => item_tokens(*item) is Some && tokens(final(builder).nodes@) == tokens(
                old(builder).nodes@,
            ) + item_tokens(*item)->0,
            Err(e) => item_tokens(*item) is None && e.0 == ErrorKind::Unsupported && tokens(
                final(builder).nodes@,
            ) == tokens(old(builder).nodes@),
        },
{
    match item {
        SchemaItem::Arc(x) => x.write(builder),
        SchemaItem::Bus(x) => x.write(builder),
        SchemaItem::BusEntry(x) => x.write(builder),
        SchemaItem::Circle(x) => x.write(builder),
        SchemaItem::Curve(_) => Err(Error::new(ErrorKind::Unsupported, "a curve is not written")),
        SchemaItem::GlobalLabel(x) => x.write(builder),
        SchemaItem::Junction(x) => x.write(builder),
        SchemaItem::Line(_) => Err(Error::new(ErrorKind::Unsupported, "a line is not written")),
        SchemaItem::LocalLabel(x) => x.write(builder),
        SchemaItem::NoConnect(x) => x.write(builder),
        SchemaItem::Polyline(x) => x.write(builder),
        SchemaItem::Rectangle(x) => x.write(builder),
        SchemaItem::Symbol(x) => x.write(builder),
        SchemaItem::Text(x) => x.write(builder),
        SchemaItem::Wire(x) => x.write(builder),
        SchemaItem::HierarchicalSheet(x) => x.write(builder),
        SchemaItem::TextBox(x) => x.write(builder),
        SchemaItem::HierarchicalLabel(x) => x.write(builder),
        SchemaItem::NetclassFlag(x) => x.write(builder),
    }
}

/// The tokens of the items, one after the other; none if one of them cannot
/// be written.
pub open spec fn items_tokens(items: Seq<SchemaItem>) -> Option<Seq<Token>>
    decreases items.len(),
{
    if items.len() == 0 {
        Some(Seq::empty())
    } else {
        match (items_tokens(items.drop_last()), item_tokens(items.last())) {
            (Some(a), Some(b)) => Some(a + b),
            _ => None,
        }
    }
}

/// An item that cannot be written fails them all.
pub proof fn lemma_items_tokens_fail(items: Seq<SchemaItem>, n: int)
    requires
        0 <= n <= items.len(),
        items_tokens(items.take(n)) is None,
    ensures
        items_tokens(items) is None,
    decreases items.len() - n,
{
    if n < items.len() {
        assert(items.take(n + 1).drop_last() =~= items.take(n));
        lemma_items_tokens_fail(items, n + 1);
    } else {
        assert(items.take(n) =~= items);
    }
}

/// Adds the nodes of the items of a schema.
fn write_items(builder: &mut Builder, items: &Vec<SchemaItem>) -> (r: Result<(), Error>)
    ensures
        match r {
            Ok(_) => items_tokens(items@) is Some && tokens(final(builder).nodes@) == tokens(
                old(builder).nodes@,
            ) + items_tokens(items@)->0,
            Err(e) => items_tokens(items@) is None && e.0 == ErrorKind::Unsupported,
        },
{
    let ghost head = tokens(builder.nodes@);
    let mut i: usize = 0;
    assert(items@.take(0) =~= Seq::<SchemaItem>::empty());
    assert(tokens(builder.nodes@) =~= head + Seq::<Token>::empty());
    while i < items.len()
        invariant
            i <= items.len(),
            items_tokens(items@.take(i as int)) is Some,
            tokens(builder.nodes@) == head + items_tokens(items@.take(i as int))->0,
        decreases items.len() - i,
    {
        assert(items@.take(i + 1).drop_last() =~= items@.take(i as int));
        assert(items@.take(i + 1).last() == items@[i as int]);
        match write_item(builder, &items[i]) {
            Ok(_) => {
                assert(tokens(builder.nodes@) =~= head + (items_tokens(items@.take(i as int))->0
                    + item_tokens(items@[i as int])->0));
            },
            Err(e) => {
                proof {
                    lemma_items_tokens_fail(items@, i + 1);
                }
                return Err(e);
            },
        }
        i += 1;
    }
    assert(items@.take(i as int) =~= items@);
    Ok(())
}

/// The tokens of the library symbols, one after the other; none if one of
/// them has a unit without identifier.
pub open spec fn libraries_tokens(libs: Seq<LibrarySymbol>) -> Option<Seq<Token>>
    decreases libs.len(),
{
    if libs.len() == 0 {
        Some(Seq::empty())
    } else {
        match libraries_tokens(libs.drop_last()) {
            Some(a) => if units_named(libs.last().lib_id@, libs.last().units@) {
                Some(a + library_tokens(libs.last()))
            } else {
                None
            },
            None => None,
        }
    }
}

/// A library symbol that cannot be written fails them all.
pub proof fn lemma_libraries_tokens_fail(libs: Seq<LibrarySymbol>, n: int)
    requires
        0 <= n <= libs.len(),
        libraries_tokens(libs.take(n)) is None,
    ensures
        libraries_tokens(libs) is None,
    decreases libs.len() - n,
{
    if n < libs.len() {
        assert(libs.take(n + 1).drop_last() =~= libs.take(n));
        lemma_libraries_tokens_fail(libs, n + 1);
    } else {
        assert(libs.take(n) =~= libs);
    }
}

/// Adds the `lib_symbols` node with the library symbols of a schema.
fn write_libraries(builder: &mut Builder, libs: &Vec<LibrarySymbol>) -> (r: Result<(), Error>)
    ensures
        match r {
            Ok(_) => libraries_tokens(libs@) is Some && tokens(final(builder).nodes@) == tokens(
                old(builder).nodes@,
            ) + node("lib_symbols"@, libraries_tokens(libs@)->0),
            Err(e) => libraries_tokens(libs@) is None && e.0 == ErrorKind::Sexp,
        },
{
    let ghost start = tokens(builder.nodes@);
    builder.push("lib_symbols");
    let ghost head = tokens(builder.nodes@);
    let mut i: usize = 0;
    assert(libs@.take(0) =~= Seq::<LibrarySymbol>::empty());
    assert(tokens(builder.nodes@) =~= head + Seq::<Token>::empty());
    while i < libs.len()
        invariant
            i <= libs.len(),
            libraries_tokens(libs@.take(i as int)) is Some,
            tokens(builder.nodes@) == head + libraries_tokens(libs@.take(i as int))->0,
        decreases libs.len() - i,
    {
        assert(libs@.take(i + 1).drop_last() =~= libs@.take(i as int));
        assert(libs@.take(i + 1).last() == libs@[i as int]);
        match libs[i].write(builder) {
            Ok(_) => {
                assert(tokens(builder.nodes@) =~= head + (libraries_tokens(
                    libs@.take(i as int),
                )->0 + library_tokens(libs@[i as int])));
            },
            Err(e) => {
                proof {
                    lemma_libraries_tokens_fail(libs@, i + 1);
                }
                return Err(e);
            },
        }
        i += 1;
    }
    assert(libs@.take(i as int) =~= libs@);
    builder.end();
    assert(tokens(builder.nodes@) =~= start + node("lib_symbols"@, libraries_tokens(libs@)->0));
    Ok(())
}

/// A node with a text that is there only if the text is.
pub open spec fn optional_text(name: Seq<char>, text: Option<String>) -> Seq<Token> {
    match text {
        Some(t) => node(name, seq![Token::Text(t@)]),
        None => Seq::empty(),
    }
}

/// Adds a node with a text, if the text is there.
fn write_optional_text(builder: &mut Builder, name: &str, text: &Option<String>)
    ensures
        tokens(final(builder).nodes@) == tokens(old(builder).nodes@) + optional_text(name@, *text),
{
    match text {
        Some(t) => {
            node_text(builder, name, t.as_str());
        },
        None => {
            assert(tokens(builder.nodes@) =~= tokens(old(builder).nodes@) + optional_text(
                name@,
                *text,
            ));
        },
    }
}

/// The tokens of the comments of a title block, one after the other.
pub open spec fn comments_tokens(comments: Seq<(u8, String)>) -> Seq<Token>
    decreases comments.len(),
{
    if comments.len() == 0 {
        Seq::empty()
    } else {
        comments_tokens(comments.drop_last()) + node(
            "comment"@,
            seq![number(comments.last().0 as nat), Token::Text(comments.last().1@)],
        )
    }
}

/// The tokens of a title block.
pub open spec fn title_block_tokens(t: crate::gr::TitleBlock) -> Seq<Token> {
    node(
        "title_block"@,
        optional_text("title"@, t.title) + optional_text("date"@, t.date) + optional_text(
            "rev"@,
            t.revision,
        ) + comments_tokens(t.comment@),
    )
}

/// Adds the `title_block` node of a title block.
pub fn write_title_block(builder: &mut Builder, t: &crate::gr::TitleBlock)
    ensures
        tokens(final(builder).nodes@) == tokens(old(builder).nodes@) + title_block_tokens(*t),
{
    let ghost start = tokens(builder.nodes@);
    builder.push("title_block");
    write_optional_text(builder, "title", &t.title);
    write_optional_text(builder, "date", &t.date);
    write_optional_text(builder, "rev", &t.revision);
    let ghost head = tokens(builder.nodes@);
    let mut i: usize = 0;
    assert(t.comment@.take(0) =~= Seq::<(u8, String)>::empty());
    assert(tokens(builder.nodes@) =~= head + comments_tokens(t.comment@.take(0)));
    while i < t.comment.len()
        invariant
            i <= t.comment.len(),
            tokens(builder.nodes@) == head + comments_tokens(t.comment@.take(i as int)),
        decreases t.comment.len() - i,
    {
        assert(t.comment@.take(i + 1).drop_last() =~= t.comment@.take(i as int));
        assert(t.comment@.take(i + 1).last() == t.comment@[i as int]);
        let ghost before = tokens(builder.nodes@);
        builder.push("comment");
        value_number(builder, t.comment[i].0 as u64);
        builder.text(t.comment[i].1.as_str());
        builder.end();
        assert(tokens(builder.nodes@) =~= before + node(
            "comment"@,
            seq![number(t.comment@[i as int].0 as nat), Token::Text(t.comment@[i as int].1@)],
        ));
        assert(tokens(builder.nodes@) =~= head + (comments_tokens(t.comment@.take(i as int)) + node(
            "comment"@,
            seq![number(t.comment@[i as int].0 as nat), Token::Text(t.comment@[i as int].1@)],
        )));
        i += 1;
    }
    assert(t.comment@.take(i as int) =~= t.comment@);
    builder.end();
    assert(tokens(builder.nodes@) =~= start + title_block_tokens(*t));
}

/// The tokens of the sheet instances, one after the other.
pub open spec fn sheet_instances_tokens(list: Seq<Instance>) -> Seq<Token>
    decreases list.len(),
{
    if list.len() == 0 {
        Seq::empty()
    } else {
        sheet_instances_tokens(list.drop_last()) + node(
            "sheet_instances"@,
            node(
                "path"@,
                seq![Token::Text(list.last().path@)] + node(
                    "page"@,
                    seq![Token::Text(list.last().reference@)],
                ),
            ),
        )
    }
}

/// Adds the `sheet_instances` nodes of a schema.
fn write_sheet_instances(builder: &mut Builder, list: &Vec<Instance>)
    ensures
        tokens(final(builder).nodes@) == tokens(old(builder).nodes@) + sheet_instances_tokens(
            list@,
        ),
{
    let ghost head = tokens(builder.nodes@);
    let mut i: usize = 0;
    assert(list@.take(0) =~= Seq::<Instance>::empty());
    assert(tokens(builder.nodes@) =~= head + sheet_instances_tokens(list@.take(0)));
    while i < list.len()
        invariant
            i <= list.len(),
            tokens(builder.nodes@) == head + sheet_instances_tokens(list@.take(i as int)),
        decreases list.len() - i,
    {
        assert(list@.take(i + 1).drop_last() =~= list@.take(i as int));
        assert(list@.take(i + 1).last() == list@[i as int]);
        let ghost before = tokens(builder.nodes@);
        builder.push("sheet_instances");
        builder.push("path");
        builder.text(list[i].path.as_str());
        node_text(builder, "page", list[i].reference.as_str());
        builder.end();
        builder.end();
        let ghost piece = node(
            "sheet_instances"@,
            node(
                "path"@,
                seq![Token::Text(list@[i as int].path@)] + node(
                    "page"@,
                    seq![Token::Text(list@[i as int].reference@)],
                ),
            ),
        );
        assert(tokens(builder.nodes@) =~= before + piece);
        assert(tokens(builder.nodes@) =~= head + (sheet_instances_tokens(list@.take(i as int))
            + piece));
        i += 1;
    }
    assert(list@.take(i as int) =~= list@);
}

/// The first tokens of a schema: version, generator, identifier, paper and
/// title block.
pub open spec fn schema_head_tokens(s: Schema) -> Seq<Token> {
    node("version"@, seq![Token::Values(s.version@)]) + node(
        "generator"@,
        seq![Token::Text(s.generator@)],
    ) + optional_text("generator_version"@, s.generator_version) + uuid_tokens(s.uuid@) + node(
        "paper"@,
        seq![Token::Text(s.paper.name_spec())],
    ) + title_block_tokens(s.title_block)
}

/// Adds the first tokens of a schema.
fn write_schema_head(builder: &mut Builder, s: &Schema)
    ensures
        tokens(final(builder).nodes@) == tokens(old(builder).nodes@) + schema_head_tokens(*s),
{
    let ghost start = tokens(builder.nodes@);
    node_value(builder, "version", s.version.as_str());
    node_text(builder, "generator", s.generator.as_str());
    write_optional_text(builder, "generator_version", &s.generator_version);
    node_text(builder, "uuid", s.uuid.as_str());
    let paper = s.paper.to_string();
    node_text(builder, "paper", paper.as_str());
    write_title_block(builder, &s.title_block);
    assert(tokens(builder.nodes@) =~= start + schema_head_tokens(*s));
}

/// The tokens of a schema: a `kicad_sch` node with the fields, the library
/// symbols, the items and the sheet instances. None if a library symbol or
/// an item cannot be written.
pub open spec fn schema_tokens(s: Schema) -> Option<Seq<Token>> {
    match (libraries_tokens(s.library_symbols@), items_tokens(s.items@)) {
        (Some(libs), Some(items)) => Some(
            node(
                "kicad_sch"@,
                schema_head_tokens(s) + node("lib_symbols"@, libs) + items
                    + sheet_instances_tokens(s.sheet_instances@),
            ),
        ),
        _ => None,
    }
}

impl Schema {
    /// The tokens of the schema, in a new builder.
    ///
    /// Fails with `Sexp` if a library symbol cannot be written, and else with
    /// `Unsupported` if an item cannot.
    #[verifier::rlimit(50)]
    pub fn tokens(&self) -> (r: Result<Builder, Error>)
        ensures
            match r {
                Ok(b) => schema_tokens(*self) == Some(tokens(b.nodes@)),
                Err(e) => schema_tokens(*self) is None && (e.0 == ErrorKind::Sexp
                    <==> libraries_tokens(self.library_symbols@) is None) && (e.0
                    == ErrorKind::Unsupported <==> libraries_tokens(self.library_symbols@)
                    is Some),
            },
    {
        let mut builder = Builder::new();
        assert(tokens(builder.nodes@) =~= Seq::<Token>::empty());
        builder.push("kicad_sch");
        let ghost head = tokens(builder.nodes@);
        write_schema_head(&mut builder, self);
        match write_libraries(&mut builder, &self.library_symbols) {
            Ok(_) => {},
            Err(e) => {
                return Err(e);
            },
        }
        match write_items(&mut builder, &self.items) {
            Ok(_) => {},
            Err(e) => {
                return Err(e);
            },
        }
        write_sheet_instances(&mut builder, &self.sheet_instances);
        builder.end();
        assert(tokens(builder.nodes@) =~= schema_tokens(*self)->0);
        Ok(builder)
    }

    /// write the schema as the text of a document, with a line break at its
    /// end.
    ///
    /// Fails as `tokens` does.
    pub fn write(&self, out: &mut String) -> (r: Result<(), Error>)
        ensures
            match r {
                Ok(_) => schema_tokens(*self) is Some && crate::sexp::tree_of(
                    schema_tokens(*self)->0,
                ) is Some && final(out)@ == old(out)@ + crate::sexp::writer::render_document(
                    crate::sexp::tree_of(schema_tokens(*self)->0)->0,
                ) + seq!['\n'],
                Err(e) => schema_tokens(*self) is None && final(out)@ == old(out)@,
            },
    {
        let builder = match self.tokens() {
            Ok(b) => b,
            Err(e) => {
                return Err(e);
            },
        };
        proof {
            lemma_node_is_a_document(
                "kicad_sch"@,
                schema_head_tokens(*self) + node(
                    "lib_symbols"@,
                    libraries_tokens(self.library_symbols@)->0,
                ) + items_tokens(self.items@)->0 + sheet_instances_tokens(self.sheet_instances@),
            );
        }
        match builder.sexp() {
            Ok(tree) => {
                tree.write(out);
                out.push('\n');
                Ok(())
            },
            Err(e) => Err(e),
        }
    }
}

/// The tokens of a node begin with the start of a node: they make a
/// document.
pub proof fn lemma_node_is_a_document(name: Seq<char>, elements: Seq<Token>)
    ensures
        crate::sexp::tree_of(node(name, elements)) is Some,
{
    let all = node(name, elements);
    assert(all[0] == Token::StartSymbol(name));
    lemma_build_open(all, all.len() as int);
    assert(all.take(all.len() as int) =~= all);
}

/// After a start, at least one node is open.
pub proof fn lemma_build_open(all: Seq<Token>, n: int)
    requires
        1 <= n <= all.len(),
        all[0] is StartSymbol,
    ensures
        crate::sexp::build(all.take(n)).len() > 0,
    decreases n,
{
    assert(all.take(n).drop_last() =~= all.take(n - 1));
    if n > 1 {
        lemma_build_open(all, n - 1);
        crate::sexp::lemma_build_step_keeps_open(
            crate::sexp::build(all.take(n - 1)),
            all.take(n).last(),
        );
    } else {
        assert(crate::sexp::build(all.take(0)) =~= Seq::<crate::sexp::Tree>::empty());
    }
}

} // verus!
