//! Reading the typed items of a schema from the nodes of a document.

use crate::draw::{At, To};
use crate::gr::{
    Arc, Circle, Color, Curve, Effects, FillType, Font, GraphicItem, Justify, Line, PaperSize,
    Polyline, Pos, Property, Pt, Pts, Rectangle, Stroke, StrokeType, TitleBlock,
};
use crate::symbols::{ElectricalTypes, LibrarySymbol, Pin, PinGraphicalStyle, PinProperty};
use crate::schema::{
    Bus, BusEntry, ConnectionType, GlobalLabel, HierarchicalLabel, HierarchicalPin,
    HierarchicalSheet, Instance, Junction, LocalLabel, NetclassFlag, NoConnect, ProjectInstance,
    SchemaItem, Symbol, TextBox, Wire,
};
use crate::sexp::SexpTree;
use crate::Schema;
use crate::sexp::{
    as_fixed, as_u8, atom_values, first_of, named, texts, value_at, Sexp, Tree,
};
use crate::strings::contains_str;
use crate::{Error, ErrorKind};
use vstd::prelude::*;

verus! {

/// The first child node with the name.
pub open spec fn child(tree: Tree, q: Seq<char>) -> Option<Tree> {
    if named(tree.nodes, q).len() > 0 {
        Some(named(tree.nodes, q)[0])
    } else {
        None
    }
}

/// The first child node with the name.
pub fn child_of<'a>(sexp: &'a Sexp, q: &str) -> (r: Option<&'a Sexp>)
    ensures
        match r {
            Some(c) => child(sexp@, q@) == Some(c@),
            None => child(sexp@, q@) is None,
        },
{
    let mut i: usize = 0;
    let ghost atoms = sexp@.nodes;
    assert(atoms.take(0) =~= Seq::<crate::sexp::Atom>::empty());
    while i < sexp.nodes.len()
        invariant
            i <= sexp.nodes.len(),
            atoms == sexp@.nodes,
            atoms.len() == sexp.nodes@.len(),
            named(atoms.take(i as int), q@).len() == 0,
        decreases sexp.nodes.len() - i,
    {
        assert(atoms.take(i + 1).drop_last() =~= atoms.take(i as int));
        assert(atoms.take(i + 1).last() == atoms[i as int]);
        assert(atoms[i as int] == sexp.nodes@[i as int]@);
        if let crate::sexp::SexpAtom::Node(node) = &sexp.nodes[i] {
            if crate::strings::str_eq(node.name.as_str(), q) {
                proof {
                    lemma_named_first(atoms, q@, i as int);
                }
                return Some(node);
            }
        }
        i += 1;
    }
    assert(atoms.take(i as int) =~= atoms);
    None
}

/// The first child node with a name is the first of the nodes with that
/// name.
pub proof fn lemma_named_first(atoms: Seq<crate::sexp::Atom>, q: Seq<char>, i: int)
    requires
        0 <= i < atoms.len(),
        named(atoms.take(i), q).len() == 0,
        atoms[i] matches crate::sexp::Atom::Node(t) && t.name == q,
    ensures
        named(atoms, q).len() > 0,
        named(atoms, q)[0] == atoms[i]->Node_0,
    decreases atoms.len() - i,
{
    lemma_named_grows(atoms, q, i + 1);
    assert(atoms.take(i + 1).drop_last() =~= atoms.take(i));
    assert(atoms.take(i + 1).last() == atoms[i]);
}

/// The nodes with a name among the first elements are the first of the
/// nodes with that name among all.
pub proof fn lemma_named_grows(atoms: Seq<crate::sexp::Atom>, q: Seq<char>, n: int)
    requires
        0 <= n <= atoms.len(),
    ensures
        named(atoms.take(n), q).len() <= named(atoms, q).len(),
        forall|k: int|
            0 <= k < named(atoms.take(n), q).len() ==> named(atoms, q)[k] == named(
                atoms.take(n),
                q,
            )[k],
    decreases atoms.len() - n,
{
    if n < atoms.len() {
        lemma_named_grows(atoms, q, n + 1);
        assert(atoms.take(n + 1).drop_last() =~= atoms.take(n));
    } else {
        assert(atoms.take(n) =~= atoms);
    }
}

/// The position that a node gives: the first two values of its `at` node,
/// and the third as the angle, which is 0 if it is not there or no number.
pub open spec fn pos_of(tree: Tree) -> Option<Pos> {
    match child(tree, "at"@) {
        None => None,
        Some(at) => match (as_fixed(value_at(at, 0)), as_fixed(value_at(at, 1))) {
            (Some(x), Some(y)) => Some(
                Pos {
                    x,
                    y,
                    angle: match as_fixed(value_at(at, 2)) {
                        Some(a) => a,
                        None => 0,
                    },
                },
            ),
            _ => None,
        },
    }
}

/// An error for a document that lacks what it must have.
fn missing(what: &str) -> (e: Error)
    ensures
        e.0 == ErrorKind::Sexp,
{
    Error::new(ErrorKind::Sexp, what)
}

/// Reads the position of an item from its `at` node.
pub fn read_pos(sexp: &Sexp) -> (r: Result<Pos, Error>)
    ensures
        match r {
            Ok(p) => pos_of(sexp@) == Some(p),
            Err(e) => pos_of(sexp@) is None && e.0 == ErrorKind::Sexp,
        },
{
    let Some(at) = child_of(sexp, "at") else {
        return Err(missing("at is mandatory"));
    };
    let Some(x) = at.get_fixed(0) else {
        return Err(missing("x is mandatory"));
    };
    let Some(y) = at.get_fixed(1) else {
        return Err(missing("y is mandatory"));
    };
    let angle = match at.get_fixed(2) {
        Some(a) => a,
        None => 0,
    };
    Ok(Pos { x, y, angle })
}

/// The point that the first two values of a node give.
pub open spec fn pt_of(tree: Tree) -> Option<Pt> {
    match (as_fixed(value_at(tree, 0)), as_fixed(value_at(tree, 1))) {
        (Some(x), Some(y)) => Some(Pt { x, y }),
        _ => None,
    }
}

/// Reads a point from the first two values of a node.
pub fn read_pt(sexp: &Sexp) -> (r: Result<Pt, Error>)
    ensures
        match r {
            Ok(p) => pt_of(sexp@) == Some(p),
            Err(e) => pt_of(sexp@) is None && e.0 == ErrorKind::Sexp,
        },
{
    let Some(x) = sexp.get_fixed(0) else {
        return Err(missing("x is mandatory"));
    };
    let Some(y) = sexp.get_fixed(1) else {
        return Err(missing("y is mandatory"));
    };
    Ok(Pt { x, y })
}

/// The points that the nodes give, or none if one of them gives none.
pub open spec fn points_of(nodes: Seq<Tree>) -> Option<Seq<Pt>>
    decreases nodes.len(),
{
    if nodes.len() == 0 {
        Some(Seq::empty())
    } else {
        match (points_of(nodes.drop_last()), pt_of(nodes.last())) {
            (Some(s), Some(p)) => Some(s.push(p)),
            _ => None,
        }
    }
}

/// The points of the `xy` nodes of the `pts` nodes, in order.
pub open spec fn pts_in(lists: Seq<Tree>) -> Option<Seq<Pt>>
    decreases lists.len(),
{
    if lists.len() == 0 {
        Some(Seq::empty())
    } else {
        match (pts_in(lists.drop_last()), points_of(named(lists.last().nodes, "xy"@))) {
            (Some(s), Some(p)) => Some(s + p),
            _ => None,
        }
    }
}

/// The list of points that a node gives: the `xy` nodes of its `pts` nodes.
pub open spec fn pts_of(tree: Tree) -> Option<Seq<Pt>> {
    pts_in(named(tree.nodes, "pts"@))
}

/// One list of points that cannot be read fails them all.
pub proof fn lemma_pts_in_fails(lists: Seq<Tree>, n: int)
    requires
        0 <= n <= lists.len(),
        pts_in(lists.take(n)) is None,
    ensures
        pts_in(lists) is None,
    decreases lists.len() - n,
{
    if n < lists.len() {
        assert(lists.take(n + 1).drop_last() =~= lists.take(n));
        lemma_pts_in_fails(lists, n + 1);
    } else {
        assert(lists.take(n) =~= lists);
    }
}

/// One point that cannot be read fails them all.
pub proof fn lemma_points_of_fails(nodes: Seq<Tree>, n: int)
    requires
        0 <= n <= nodes.len(),
        points_of(nodes.take(n)) is None,
    ensures
        points_of(nodes) is None,
    decreases nodes.len() - n,
{
    if n < nodes.len() {
        assert(nodes.take(n + 1).drop_last() =~= nodes.take(n));
        lemma_points_of_fails(nodes, n + 1);
    } else {
        assert(nodes.take(n) =~= nodes);
    }
}

/// The trees of the nodes.
pub open spec fn trees_of(nodes: Seq<&Sexp>) -> Seq<Tree> {
    nodes.map_values(|s: &Sexp| s@)
}

/// The nodes of a query are those with the name.
pub proof fn lemma_query(nodes: Seq<&Sexp>, trees: Seq<Tree>)
    requires
        nodes.len() == trees.len(),
        forall|i: int| 0 <= i < nodes.len() ==> (#[trigger] nodes[i])@ == trees[i],
    ensures
        trees_of(nodes) == trees,
{
    assert(trees_of(nodes) =~= trees);
}

/// Reads the list of points of an item.
pub fn read_pts(sexp: &Sexp) -> (r: Result<Pts, Error>)
    ensures
        match r {
            Ok(p) => pts_of(sexp@) == Some(p.0@),
            Err(e) => pts_of(sexp@) is None && e.0 == ErrorKind::Sexp,
        },
{
    let lists = sexp.query("pts");
    let ghost all = named(sexp@.nodes, "pts"@);
    proof {
        lemma_query(lists@, all);
    }
    let mut pts: Vec<Pt> = Vec::new();
    let mut i: usize = 0;
    assert(all.take(0) =~= Seq::<Tree>::empty());
    while i < lists.len()
        invariant
            i <= lists.len(),
            trees_of(lists@) == all,
            all == named(sexp@.nodes, "pts"@),
            pts_in(all.take(i as int)) == Some(pts@),
        decreases lists.len() - i,
    {
        assert(all.take(i + 1).drop_last() =~= all.take(i as int));
        assert(all.take(i + 1).last() == lists@[i as int]@);
        let xys = lists[i].query("xy");
        let ghost these = named(lists@[i as int]@.nodes, "xy"@);
        proof {
            lemma_query(xys@, these);
        }
        let ghost before = pts@;
        let mut k: usize = 0;
        assert(these.take(0) =~= Seq::<Tree>::empty());
        assert(pts@ =~= before + Seq::<Pt>::empty());
        while k < xys.len()
            invariant
                k <= xys.len(),
                trees_of(xys@) == these,
                exists|s: Seq<Pt>| points_of(these.take(k as int)) == Some(s) && pts@ == before + s,
                i < lists.len(),
                trees_of(lists@) == all,
                all == named(sexp@.nodes, "pts"@),
                these == named(lists@[i as int]@.nodes, "xy"@),
                all.take(i + 1).drop_last() == all.take(i as int),
                all.take(i + 1).last() == lists@[i as int]@,
                pts_in(all.take(i as int)) == Some(before),
            decreases xys.len() - k,
        {
            assert(these.take(k + 1).drop_last() =~= these.take(k as int));
            assert(these.take(k + 1).last() == xys@[k as int]@);
            let ghost s = choose|s: Seq<Pt>|
                points_of(these.take(k as int)) == Some(s) && pts@ == before + s;
            match read_pt(xys[k]) {
                Ok(p) => {
                    pts.push(p);
                    assert(pts@ =~= before + s.push(p));
                },
                Err(e) => {
                    proof {
                        lemma_points_of_fails(these, k + 1);
                        lemma_pts_in_fails(all, i + 1);
                    }
                    return Err(e);
                },
            }
            k += 1;
        }
        assert(these.take(k as int) =~= these);
        i += 1;
    }
    assert(all.take(i as int) =~= all);
    Ok(Pts(pts))
}

/// The opacity as a byte: 255 times the value, cut off behind the point and
/// held to the range of a byte.
pub open spec fn alpha_byte(a: i32) -> u8 {
    if a <= 0 {
        0u8
    } else if a >= 10000 {
        255u8
    } else {
        ((a * 255) / 10000) as u8
    }
}

/// The color that a node gives: red, green, blue and opacity of its `color`
/// node. Four zeros stand for no color.
pub open spec fn color_of(tree: Tree) -> Option<Color> {
    match child(tree, "color"@) {
        None => None,
        Some(c) => match (
            as_u8(value_at(c, 0)),
            as_u8(value_at(c, 1)),
            as_u8(value_at(c, 2)),
            as_fixed(value_at(c, 3)),
        ) {
            (Some(r), Some(g), Some(b), Some(a)) => if r == 0 && g == 0 && b == 0 && a == 0 {
                None
            } else {
                Some(Color::Rgba(r, g, b, alpha_byte(a)))
            },
            _ => None,
        },
    }
}

/// Reads the color of an item from its `color` node.
pub fn read_color(sexp: &Sexp) -> (r: Result<Color, Error>)
    ensures
        match r {
            Ok(c) => color_of(sexp@) == Some(c),
            Err(e) => color_of(sexp@) is None && e.0 == ErrorKind::Sexp,
        },
{
    let Some(s) = child_of(sexp, "color") else {
        return Err(missing("color not found"));
    };
    let Some(r) = s.get_u8(0) else {
        return Err(missing("red is no number"));
    };
    let Some(g) = s.get_u8(1) else {
        return Err(missing("green is no number"));
    };
    let Some(b) = s.get_u8(2) else {
        return Err(missing("blue is no number"));
    };
    let Some(a) = s.get_fixed(3) else {
        return Err(missing("a value not found"));
    };
    if r == 0 && g == 0 && b == 0 && a == 0 {
        return Err(missing("no color is set"));
    }
    let alpha: u8 = if a <= 0 {
        0
    } else if a >= 10000 {
        255
    } else {
        (((a as i64) * 255) / 10000) as u8
    };
    Ok(Color::Rgba(r, g, b, alpha))
}

/// The stroke that a node gives: width, type and color of its `stroke`
/// node. The width is 0 if it is not there; the color is none if it cannot
/// be read.
pub open spec fn stroke_of(tree: Tree) -> Option<Stroke> {
    match child(tree, "stroke"@) {
        None => None,
        Some(s) => Some(
            Stroke {
                width: match as_fixed(first_of(s, "width"@)) {
                    Some(w) => w,
                    None => 0,
                },
                stroke_type: match first_of(s, "type"@) {
                    Some(t) => Some(StrokeType::from_name_spec(t)),
                    None => None,
                },
                color: color_of(s),
            },
        ),
    }
}

/// Reads the stroke of an item from its `stroke` node.
pub fn read_stroke(sexp: &Sexp) -> (r: Result<Stroke, Error>)
    ensures
        match r {
            Ok(s) => stroke_of(sexp@) == Some(s),
            Err(e) => stroke_of(sexp@) is None && e.0 == ErrorKind::Sexp,
        },
{
    let Some(stroke) = child_of(sexp, "stroke") else {
        return Err(missing("no stroke found"));
    };
    let width = match stroke.first_fixed("width") {
        Some(w) => w,
        None => 0,
    };
    let stroke_type = match stroke.first("type") {
        Some(t) => Some(StrokeType::from(t.as_str())),
        None => None,
    };
    let color = match read_color(stroke) {
        Ok(c) => Some(c),
        Err(_) => None,
    };
    Ok(Stroke { width, stroke_type, color })
}

/// Whether the node says that its text is hidden: a `hide` node that says
/// `yes`, or, without such a node, the value `hide`.
pub open spec fn hidden(tree: Tree) -> bool {
    match first_of(tree, "hide"@) {
        Some(v) => v == "yes"@,
        None => atom_values(tree.nodes).contains("hide"@),
    }
}

/// Whether some string holds the characters.
pub proof fn lemma_contains_text(values: Seq<String>, s: Seq<char>)
    ensures
        texts(values).contains(s) <==> exists|i: int| 0 <= i < values.len() && values[i]@ == s,
{
    if texts(values).contains(s) {
        let i = choose|i: int| 0 <= i < texts(values).len() && texts(values)[i] == s;
        assert(values[i]@ == s);
    }
    if exists|i: int| 0 <= i < values.len() && values[i]@ == s {
        let i = choose|i: int| 0 <= i < values.len() && values[i]@ == s;
        assert(texts(values)[i] == s);
    }
}

/// Whether the values of a node hold the word.
pub fn has_value(node: &Sexp, word: &str) -> (r: bool)
    ensures
        r == atom_values(node@.nodes).contains(word@),
{
    let values = node.values();
    proof {
        lemma_contains_text(values@, word@);
    }
    contains_str(&values, word)
}

/// Whether the node says that its text is hidden.
pub fn is_hidden(node: &Sexp) -> (r: bool)
    ensures
        r == hidden(node@),
{
    match node.first("hide") {
        Some(v) => crate::strings::str_eq(v.as_str(), "yes"),
        None => has_value(node, "hide"),
    }
}

/// The flags that the names stand for, or none if one of them is no flag.
pub open spec fn flags_of(names: Seq<Seq<char>>) -> Option<Seq<Justify>>
    decreases names.len(),
{
    if names.len() == 0 {
        Some(Seq::empty())
    } else {
        match (flags_of(names.drop_last()), Justify::from_name_spec(names.last())) {
            (Some(s), Some(j)) => Some(s.push(j)),
            _ => None,
        }
    }
}

/// One name that is no flag fails them all.
pub proof fn lemma_flags_of_fails(names: Seq<Seq<char>>, n: int)
    requires
        0 <= n <= names.len(),
        flags_of(names.take(n)) is None,
    ensures
        flags_of(names) is None,
    decreases names.len() - n,
{
    if n < names.len() {
        assert(names.take(n + 1).drop_last() =~= names.take(n));
        lemma_flags_of_fails(names, n + 1);
    } else {
        assert(names.take(n) =~= names);
    }
}

/// The justification that a node gives: the flags of its `justify` node;
/// none at all without such a node.
pub open spec fn justify_of(tree: Tree) -> Option<Seq<Justify>> {
    match child(tree, "justify"@) {
        None => Some(Seq::empty()),
        Some(j) => flags_of(atom_values(j.nodes)),
    }
}

/// Reads the justification of a text.
pub fn justify(node: &Sexp) -> (r: Result<Vec<Justify>, Error>)
    ensures
        match r {
            Ok(j) => justify_of(node@) == Some(j@),
            Err(e) => justify_of(node@) is None && e.0 == ErrorKind::Sexp,
        },
{
    let mut out: Vec<Justify> = Vec::new();
    let Some(j) = child_of(node, "justify") else {
        return Ok(out);
    };
    let values = j.values();
    let ghost names = texts(values@);
    assert(names.len() == values@.len());
    let mut i: usize = 0;
    assert(names.take(0) =~= Seq::<Seq<char>>::empty());
    while i < values.len()
        invariant
            i <= values.len(),
            names == texts(values@),
            names.len() == values@.len(),
            child(node@, "justify"@) == Some(j@),
            names == atom_values(j@.nodes),
            flags_of(names.take(i as int)) == Some(out@),
        decreases values.len() - i,
    {
        assert(names.take(i + 1).drop_last() =~= names.take(i as int));
        assert(names.take(i + 1).last() == values@[i as int]@);
        match Justify::from_name(values[i].as_str()) {
            Some(flag) => out.push(flag),
            None => {
                proof {
                    lemma_flags_of_fails(names, i + 1);
                }
                return Err(missing("unknown justify"));
            },
        }
        i += 1;
    }
    assert(names.take(i as int) =~= names);
    Ok(out)
}

/// Whether a font is the one that a node gives: face, size, thickness,
/// line spacing, and whether it is bold and italic, of its `font` node.
pub open spec fn is_font_of(font: Font, tree: Tree) -> bool {
    &&& child(tree, "font"@) is Some
    &&& child(child(tree, "font"@)->0, "size"@) is Some
    &&& ({
        let f = child(tree, "font"@)->0;
        let size = child(f, "size"@)->0;
        &&& (match font.face {
            Some(s) => first_of(f, "face"@) == Some(s@),
            None => first_of(f, "face"@) is None,
        })
        &&& as_fixed(value_at(size, 0)) == Some(font.size.0)
        &&& as_fixed(value_at(size, 1)) == Some(font.size.1)
        &&& font.thickness == as_fixed(first_of(f, "tickness"@))
        &&& font.bold == atom_values(f.nodes).contains("bold"@)
        &&& font.italic == (match child(f, "italic"@) {
            Some(i) => value_at(i, 0) == Some("yes"@),
            None => atom_values(f.nodes).contains("italic"@),
        })
        &&& font.line_spacing == as_fixed(first_of(f, "spacing"@))
        &&& font.color is None
    })
}

/// Whether a node gives a font.
pub open spec fn has_font(tree: Tree) -> bool {
    &&& child(tree, "font"@) is Some
    &&& child(child(tree, "font"@)->0, "size"@) is Some
    &&& as_fixed(value_at(child(child(tree, "font"@)->0, "size"@)->0, 0)) is Some
    &&& as_fixed(value_at(child(child(tree, "font"@)->0, "size"@)->0, 1)) is Some
}

/// Reads the font of a text from its `font` node.
pub fn read_font(sexp: &Sexp) -> (r: Result<Font, Error>)
    ensures
        match r {
            Ok(f) => is_font_of(f, sexp@) && has_font(sexp@),
            Err(e) => !has_font(sexp@) && e.0 == ErrorKind::Sexp,
        },
{
    let Some(font) = child_of(sexp, "font") else {
        return Err(missing("font is mandatory"));
    };
    let Some(size) = child_of(font, "size") else {
        return Err(missing("size is mandatory"));
    };
    let Some(width) = size.get_fixed(0) else {
        return Err(missing("size is mandatory"));
    };
    let Some(height) = size.get_fixed(1) else {
        return Err(missing("size is mandatory"));
    };
    let italic = match child_of(font, "italic") {
        Some(italic) => match italic.get(0) {
            Some(v) => crate::strings::str_eq(v.as_str(), "yes"),
            None => false,
        },
        None => has_value(font, "italic"),
    };
    Ok(
        Font {
            face: font.first("face"),
            size: (width, height),
            thickness: font.first_fixed("tickness"),
            bold: has_value(font, "bold"),
            italic,
            line_spacing: font.first_fixed("spacing"),
            color: None,
        },
    )
}

/// Whether text effects are those that a node gives: justification, hiding
/// and font of its `effects` node.
pub open spec fn is_effects_of(effects: Effects, tree: Tree) -> bool {
    &&& child(tree, "effects"@) is Some
    &&& justify_of(child(tree, "effects"@)->0) == Some(effects.justify@)
    &&& effects.hide == hidden(child(tree, "effects"@)->0)
    &&& is_font_of(effects.font, child(tree, "effects"@)->0)
}

/// Whether a node gives text effects.
pub open spec fn has_effects(tree: Tree) -> bool {
    &&& child(tree, "effects"@) is Some
    &&& justify_of(child(tree, "effects"@)->0) is Some
    &&& has_font(child(tree, "effects"@)->0)
}

/// Reads the text effects of an item from its `effects` node.
pub fn read_effects(sexp: &Sexp) -> (r: Result<Effects, Error>)
    ensures
        match r {
            Ok(e) => is_effects_of(e, sexp@) && has_effects(sexp@),
            Err(e) => !has_effects(sexp@) && e.0 == ErrorKind::Sexp,
        },
{
    let Some(effects) = child_of(sexp, "effects") else {
        return Err(missing("effects is mandatory"));
    };
    let justify = match justify(effects) {
        Ok(j) => j,
        Err(e) => {
            return Err(e);
        },
    };
    let font = match read_font(effects) {
        Ok(f) => f,
        Err(e) => {
            return Err(e);
        },
    };
    let hidden = is_hidden(effects);
    Ok(Effects { justify, hide: hidden, font })
}

/// Whether an optional string holds the optional characters.
pub open spec fn same_text(s: Option<String>, t: Option<Seq<char>>) -> bool {
    match s {
        Some(v) => t == Some(v@),
        None => t is None,
    }
}

/// Whether the comments are those that the nodes give: for each node its
/// number and its text.
pub open spec fn are_comments_of(comments: Seq<(u8, String)>, nodes: Seq<Tree>) -> bool {
    &&& comments.len() == nodes.len()
    &&& forall|i: int|
        0 <= i < nodes.len() ==> as_u8(value_at(#[trigger] nodes[i], 0)) == Some(comments[i].0)
            && value_at(nodes[i], 1) == Some(comments[i].1@)
}

/// Whether each of the nodes gives a comment.
pub open spec fn have_comments(nodes: Seq<Tree>) -> bool {
    forall|i: int|
        0 <= i < nodes.len() ==> as_u8(value_at(#[trigger] nodes[i], 0)) is Some && value_at(
            nodes[i],
            1,
        ) is Some
}

/// Whether a title block is the one that a node gives.
pub open spec fn is_title_block_of(tb: TitleBlock, tree: Tree) -> bool {
    &&& same_text(tb.title, first_of(tree, "title"@))
    &&& same_text(tb.date, first_of(tree, "date"@))
    &&& same_text(tb.revision, first_of(tree, "rev"@))
    &&& same_text(tb.company_name, first_of(tree, "company"@))
    &&& are_comments_of(tb.comment@, named(tree.nodes, "comment"@))
}

/// extract a title block section, root must the the title_block itself.
///
/// Fails if a comment lacks its number or its text.
pub fn read_title_block(sexp: &Sexp) -> (r: Result<TitleBlock, Error>)
    ensures
        match r {
            Ok(tb) => is_title_block_of(tb, sexp@) && have_comments(named(sexp@.nodes, "comment"@)),
            Err(e) => !have_comments(named(sexp@.nodes, "comment"@)) && e.0 == ErrorKind::Sexp,
        },
{
    let nodes = sexp.query("comment");
    let ghost all = named(sexp@.nodes, "comment"@);
    let mut comment: Vec<(u8, String)> = Vec::new();
    let mut i: usize = 0;
    while i < nodes.len()
        invariant
            i <= nodes.len(),
            all == named(sexp@.nodes, "comment"@),
            nodes@.len() == all.len(),
            forall|k: int| 0 <= k < nodes@.len() ==> (#[trigger] nodes@[k])@ == all[k],
            comment@.len() == i,
            forall|k: int|
                0 <= k < i ==> as_u8(value_at(#[trigger] all[k], 0)) == Some(comment@[k].0)
                    && value_at(all[k], 1) == Some(comment@[k].1@),
        decreases nodes.len() - i,
    {
        assert(nodes@[i as int]@ == all[i as int]);
        let Some(number) = nodes[i].get_u8(0) else {
            return Err(missing("a comment has a number"));
        };
        let Some(text) = nodes[i].get(1) else {
            return Err(missing("a comment has a text"));
        };
        comment.push((number, text));
        i += 1;
    }
    Ok(
        TitleBlock {
            title: sexp.first("title"),
            date: sexp.first("date"),
            revision: sexp.first("rev"),
            company_name: sexp.first("company"),
            comment,
        },
    )
}

/// Whether a property is the one that a node gives: key and value are its
/// first two values, position and text effects come from its `at` and
/// `effects` nodes.
pub open spec fn is_property_of(p: Property, tree: Tree) -> bool {
    &&& value_at(tree, 0) == Some(p.key@)
    &&& value_at(tree, 1) == Some(p.value@)
    &&& pos_of(tree) == Some(p.pos)
    &&& is_effects_of(p.effects, tree)
}

/// Whether a node gives a property.
pub open spec fn has_property(tree: Tree) -> bool {
    &&& value_at(tree, 0) is Some
    &&& value_at(tree, 1) is Some
    &&& pos_of(tree) is Some
    &&& has_effects(tree)
}

/// Reads a property.
pub fn read_property(x: &Sexp) -> (r: Result<Property, Error>)
    ensures
        match r {
            Ok(p) => is_property_of(p, x@) && has_property(x@),
            Err(e) => !has_property(x@) && e.0 == ErrorKind::Sexp,
        },
{
    let pos = match read_pos(x) {
        Ok(p) => p,
        Err(e) => {
            return Err(e);
        },
    };
    let Some(key) = x.get(0) else {
        return Err(missing("a property has a key"));
    };
    let Some(value) = x.get(1) else {
        return Err(missing("a property has a value"));
    };
    let effects = match read_effects(x) {
        Ok(f) => f,
        Err(e) => {
            return Err(e);
        },
    };
    Ok(Property { pos, key, value, effects })
}

/// Whether the properties are those that the `property` nodes of a node
/// give, in order.
pub open spec fn are_properties_of(props: Seq<Property>, tree: Tree) -> bool {
    &&& props.len() == named(tree.nodes, "property"@).len()
    &&& forall|i: int|
        0 <= i < props.len() ==> is_property_of(
            #[trigger] props[i],
            named(tree.nodes, "property"@)[i],
        )
}

/// Whether each `property` node of a node gives a property.
pub open spec fn has_properties(tree: Tree) -> bool {
    forall|i: int|
        0 <= i < named(tree.nodes, "property"@).len() ==> has_property(
            #[trigger] named(tree.nodes, "property"@)[i],
        )
}

/// Reads the properties of an item.
pub fn properties(node: &Sexp) -> (r: Result<Vec<Property>, Error>)
    ensures
        match r {
            Ok(p) => are_properties_of(p@, node@) && has_properties(node@),
            Err(e) => !has_properties(node@) && e.0 == ErrorKind::Sexp,
        },
{
    let nodes = node.query("property");
    let ghost all = named(node@.nodes, "property"@);
    let mut props: Vec<Property> = Vec::new();
    let mut i: usize = 0;
    while i < nodes.len()
        invariant
            i <= nodes.len(),
            all == named(node@.nodes, "property"@),
            nodes@.len() == all.len(),
            forall|k: int| 0 <= k < nodes@.len() ==> (#[trigger] nodes@[k])@ == all[k],
            props@.len() == i,
            forall|k: int| 0 <= k < i ==> is_property_of(#[trigger] props@[k], all[k]),
            forall|k: int| 0 <= k < i ==> has_property(#[trigger] all[k]),
        decreases nodes.len() - i,
    {
        assert(nodes@[i as int]@ == all[i as int]);
        match read_property(nodes[i]) {
            Ok(p) => props.push(p),
            Err(e) => {
                assert(!has_property(all[i as int]));
                return Err(e);
            },
        }
        i += 1;
    }
    Ok(props)
}

/// Whether a wire is the one that a node gives.
pub open spec fn is_wire_of(w: Wire, tree: Tree) -> bool {
    &&& pts_of(tree) == Some(w.pts.0@)
    &&& stroke_of(tree) == Some(w.stroke)
    &&& first_of(tree, "uuid"@) == Some(w.uuid@)
    &&& w.attrs.attributes@.len() == 0
}

/// Whether a node gives a wire.
pub open spec fn has_wire(tree: Tree) -> bool {
    pts_of(tree) is Some && stroke_of(tree) is Some && first_of(tree, "uuid"@) is Some
}

/// Reads a wire: its points, its stroke and its identifier.
pub fn read_wire(sexp: &Sexp) -> (r: Result<Wire, Error>)
    ensures
        match r {
            Ok(w) => is_wire_of(w, sexp@) && has_wire(sexp@),
            Err(e) => !has_wire(sexp@) && e.0 == ErrorKind::Sexp,
        },
{
    let pts = match read_pts(sexp) {
        Ok(p) => p,
        Err(e) => {
            return Err(e);
        },
    };
    let stroke = match read_stroke(sexp) {
        Ok(s) => s,
        Err(e) => {
            return Err(e);
        },
    };
    let Some(uuid) = sexp.first("uuid") else {
        return Err(missing("uuid is mandatory"));
    };
    Ok(Wire { pts, stroke, uuid, attrs: To::new() })
}

/// Whether a junction is the one that a node gives.
pub open spec fn is_junction_of(j: Junction, tree: Tree) -> bool {
    &&& pos_of(tree) == Some(j.pos)
    &&& j.diameter == (match as_fixed(first_of(tree, "diameter"@)) {
        Some(d) => d,
        None => 0,
    })
    &&& j.color == color_of(tree)
    &&& first_of(tree, "uuid"@) == Some(j.uuid@)
}

/// Whether a node gives a junction.
pub open spec fn has_junction(tree: Tree) -> bool {
    pos_of(tree) is Some && first_of(tree, "uuid"@) is Some
}

/// Reads a junction: its position, diameter, color and identifier.
pub fn read_junction(sexp: &Sexp) -> (r: Result<Junction, Error>)
    ensures
        match r {
            Ok(j) => is_junction_of(j, sexp@) && has_junction(sexp@),
            Err(e) => !has_junction(sexp@) && e.0 == ErrorKind::Sexp,
        },
{
    let pos = match read_pos(sexp) {
        Ok(p) => p,
        Err(e) => {
            return Err(e);
        },
    };
    let diameter = match sexp.first_fixed("diameter") {
        Some(d) => d,
        None => 0,
    };
    let color = match read_color(sexp) {
        Ok(c) => Some(c),
        Err(_) => None,
    };
    let Some(uuid) = sexp.first("uuid") else {
        return Err(missing("uuid is mandatory"));
    };
    Ok(Junction { pos, diameter, color, uuid })
}

/// Whether a no-connect mark is the one that a node gives.
pub open spec fn is_no_connect_of(n: NoConnect, tree: Tree) -> bool {
    &&& pos_of(tree) == Some(n.pos)
    &&& first_of(tree, "uuid"@) == Some(n.uuid@)
    &&& n.attrs.attributes@.len() == 0
}

/// Reads a no-connect mark: its position and identifier.
pub fn read_no_connect(sexp: &Sexp) -> (r: Result<NoConnect, Error>)
    ensures
        match r {
            Ok(n) => is_no_connect_of(n, sexp@) && has_junction(sexp@),
            Err(e) => !has_junction(sexp@) && e.0 == ErrorKind::Sexp,
        },
{
    let pos = match read_pos(sexp) {
        Ok(p) => p,
        Err(e) => {
            return Err(e);
        },
    };
    let Some(uuid) = sexp.first("uuid") else {
        return Err(missing("uuid is mandatory"));
    };
    Ok(NoConnect { pos, uuid, attrs: To::new() })
}

/// Whether the fields of an item are placed automatically: they are, unless
/// its `fields_autoplaced` node says otherwise.
pub open spec fn autoplaced(tree: Tree) -> bool {
    first_of(tree, "fields_autoplaced"@) is None || first_of(tree, "fields_autoplaced"@) == Some(
        "yes"@,
    )
}

/// Whether a local label is the one that a node gives.
pub open spec fn is_local_label_of(l: LocalLabel, tree: Tree) -> bool {
    &&& value_at(tree, 0) == Some(l.text@)
    &&& pos_of(tree) == Some(l.pos)
    &&& is_effects_of(l.effects, tree)
    &&& l.color == color_of(tree)
    &&& first_of(tree, "uuid"@) == Some(l.uuid@)
    &&& l.fields_autoplaced == autoplaced(tree)
    &&& l.attrs.attributes@.len() == 0
}

/// Whether a node gives a label.
pub open spec fn has_label(tree: Tree) -> bool {
    &&& value_at(tree, 0) is Some
    &&& pos_of(tree) is Some
    &&& has_effects(tree)
    &&& first_of(tree, "uuid"@) is Some
}

/// Reads a local label.
pub fn read_local_label(sexp: &Sexp) -> (r: Result<LocalLabel, Error>)
    ensures
        match r {
            Ok(l) => is_local_label_of(l, sexp@) && has_label(sexp@),
            Err(e) => !has_label(sexp@) && e.0 == ErrorKind::Sexp,
        },
{
    let Some(text) = sexp.get(0) else {
        return Err(missing("a label has a text"));
    };
    let pos = match read_pos(sexp) {
        Ok(p) => p,
        Err(e) => {
            return Err(e);
        },
    };
    let effects = match read_effects(sexp) {
        Ok(f) => f,
        Err(e) => {
            return Err(e);
        },
    };
    let color = match read_color(sexp) {
        Ok(c) => Some(c),
        Err(_) => None,
    };
    let Some(uuid) = sexp.first("uuid") else {
        return Err(missing("uuid is mandatory"));
    };
    let fields_autoplaced = says_yes_or_nothing(sexp, "fields_autoplaced");
    Ok(LocalLabel { text, pos, effects, color, uuid, fields_autoplaced, attrs: To::new() })
}

/// Whether a global label is the one that a node gives.
pub open spec fn is_global_label_of(l: GlobalLabel, tree: Tree) -> bool {
    &&& value_at(tree, 0) == Some(l.text@)
    &&& same_text(l.shape, first_of(tree, "shape"@))
    &&& pos_of(tree) == Some(l.pos)
    &&& is_effects_of(l.effects, tree)
    &&& are_properties_of(l.props@, tree)
    &&& first_of(tree, "uuid"@) == Some(l.uuid@)
    &&& l.fields_autoplaced == autoplaced(tree)
    &&& l.attrs.attributes@.len() == 0
}

/// Reads a global label.
pub fn read_global_label(sexp: &Sexp) -> (r: Result<GlobalLabel, Error>)
    ensures
        match r {
            Ok(l) => is_global_label_of(l, sexp@) && (has_label(sexp@) && has_properties(sexp@)),
            Err(e) => !(has_label(sexp@) && has_properties(sexp@)) && e.0 == ErrorKind::Sexp,
        },
{
    let Some(text) = sexp.get(0) else {
        return Err(missing("a label has a text"));
    };
    let pos = match read_pos(sexp) {
        Ok(p) => p,
        Err(e) => {
            return Err(e);
        },
    };
    let effects = match read_effects(sexp) {
        Ok(f) => f,
        Err(e) => {
            return Err(e);
        },
    };
    let props = match properties(sexp) {
        Ok(p) => p,
        Err(e) => {
            return Err(e);
        },
    };
    let Some(uuid) = sexp.first("uuid") else {
        return Err(missing("uuid is mandatory"));
    };
    let fields_autoplaced = says_yes_or_nothing(sexp, "fields_autoplaced");
    Ok(
        GlobalLabel {
            text,
            shape: sexp.first("shape"),
            pos,
            fields_autoplaced,
            effects,
            props,
            uuid,
            attrs: To::new(),
        },
    )
}

/// The fill that a node gives: the type of its `fill` node, with the color
/// of that node if the type is `color`. Without `fill` node or type the
/// shape is not filled. No fill is given by an unknown type, or by the type
/// `color` without a color.
pub open spec fn fill_of(tree: Tree) -> Option<FillType> {
    match child(tree, "fill"@) {
        None => Some(FillType::NoFill),
        Some(f) => match first_of(f, "type"@) {
            None => Some(FillType::NoFill),
            Some(t) => if t == "color"@ {
                match color_of(f) {
                    Some(c) => Some(FillType::Color(c)),
                    None => None,
                }
            } else {
                FillType::from_name_spec(t)
            },
        },
    }
}

/// Reads the fill of a shape from its `fill` node.
pub fn read_fill(sexp: &Sexp) -> (r: Result<FillType, Error>)
    ensures
        match r {
            Ok(f) => fill_of(sexp@) == Some(f),
            Err(e) => fill_of(sexp@) is None && e.0 == ErrorKind::Sexp,
        },
{
    let Some(fill) = child_of(sexp, "fill") else {
        return Ok(FillType::NoFill);
    };
    let Some(filltype) = fill.first("type") else {
        return Ok(FillType::NoFill);
    };
    if crate::strings::str_eq(filltype.as_str(), "color") {
        match read_color(fill) {
            Ok(c) => Ok(FillType::Color(c)),
            Err(e) => Err(e),
        }
    } else {
        match FillType::from_name(filltype.as_str()) {
            Some(f) => Ok(f),
            None => Err(missing("unknown fill type")),
        }
    }
}

/// The point that the child node with the name gives.
pub open spec fn pt_at(tree: Tree, q: Seq<char>) -> Option<Pt> {
    match child(tree, q) {
        Some(c) => pt_of(c),
        None => None,
    }
}

/// Reads the point of the child node with the name.
pub fn read_pt_at(sexp: &Sexp, q: &str) -> (r: Result<Pt, Error>)
    ensures
        match r {
            Ok(p) => pt_at(sexp@, q@) == Some(p),
            Err(e) => pt_at(sexp@, q@) is None && e.0 == ErrorKind::Sexp,
        },
{
    match child_of(sexp, q) {
        Some(c) => read_pt(c),
        None => Err(missing("a point is missing")),
    }
}

/// Whether a circle is the one that a node gives.
pub open spec fn is_circle_of(c: Circle, tree: Tree) -> bool {
    &&& pt_at(tree, "center"@) == Some(c.center)
    &&& as_fixed(first_of(tree, "radius"@)) == Some(c.radius)
    &&& stroke_of(tree) == Some(c.stroke)
    &&& fill_of(tree) == Some(c.fill)
    &&& same_text(c.uuid, first_of(tree, "uuid"@))
}

/// Whether a node gives a circle.
pub open spec fn has_circle(tree: Tree) -> bool {
    &&& pt_at(tree, "center"@) is Some
    &&& as_fixed(first_of(tree, "radius"@)) is Some
    &&& stroke_of(tree) is Some
    &&& fill_of(tree) is Some
}

/// Reads a circle.
pub fn read_circle(sexp: &Sexp) -> (r: Result<Circle, Error>)
    ensures
        match r {
            Ok(c) => is_circle_of(c, sexp@) && has_circle(sexp@),
            Err(e) => !has_circle(sexp@) && e.0 == ErrorKind::Sexp,
        },
{
    let center = match read_pt_at(sexp, "center") {
        Ok(p) => p,
        Err(e) => {
            return Err(e);
        },
    };
    let Some(radius) = sexp.first_fixed("radius") else {
        return Err(missing("radius is mandatory"));
    };
    let stroke = match read_stroke(sexp) {
        Ok(s) => s,
        Err(e) => {
            return Err(e);
        },
    };
    let fill = match read_fill(sexp) {
        Ok(f) => f,
        Err(e) => {
            return Err(e);
        },
    };
    Ok(Circle { center, radius, stroke, fill, uuid: sexp.first("uuid") })
}

/// Whether points, stroke, fill and identifier are those that a node gives.
pub open spec fn is_path_of(
    pts: Pts,
    stroke: Stroke,
    fill: FillType,
    uuid: Option<String>,
    tree: Tree,
) -> bool {
    &&& pts_of(tree) == Some(pts.0@)
    &&& stroke_of(tree) == Some(stroke)
    &&& fill_of(tree) == Some(fill)
    &&& same_text(uuid, first_of(tree, "uuid"@))
}

/// Whether a node gives points, stroke and fill.
pub open spec fn has_path(tree: Tree) -> bool {
    pts_of(tree) is Some && stroke_of(tree) is Some && fill_of(tree) is Some
}

/// Reads a line.
pub fn read_line(sexp: &Sexp) -> (r: Result<Line, Error>)
    ensures
        match r {
            Ok(l) => is_path_of(l.pts, l.stroke, l.fill, l.uuid, sexp@) && has_path(sexp@),
            Err(e) => !has_path(sexp@) && e.0 == ErrorKind::Sexp,
        },
{
    let pts = match read_pts(sexp) {
        Ok(p) => p,
        Err(e) => {
            return Err(e);
        },
    };
    let stroke = match read_stroke(sexp) {
        Ok(s) => s,
        Err(e) => {
            return Err(e);
        },
    };
    let fill = match read_fill(sexp) {
        Ok(f) => f,
        Err(e) => {
            return Err(e);
        },
    };
    Ok(Line { pts, stroke, fill, uuid: sexp.first("uuid") })
}

/// Reads a polyline.
pub fn read_polyline(sexp: &Sexp) -> (r: Result<Polyline, Error>)
    ensures
        match r {
            Ok(l) => is_path_of(l.pts, l.stroke, l.fill, l.uuid, sexp@) && has_path(sexp@),
            Err(e) => !has_path(sexp@) && e.0 == ErrorKind::Sexp,
        },
{
    let pts = match read_pts(sexp) {
        Ok(p) => p,
        Err(e) => {
            return Err(e);
        },
    };
    let stroke = match read_stroke(sexp) {
        Ok(s) => s,
        Err(e) => {
            return Err(e);
        },
    };
    let fill = match read_fill(sexp) {
        Ok(f) => f,
        Err(e) => {
            return Err(e);
        },
    };
    Ok(Polyline { pts, stroke, fill, uuid: sexp.first("uuid") })
}

/// Reads a curve: the points and the stroke come from the node of the
/// curve, the fill from the node around it.
pub fn read_curve(node: &Sexp, around: &Sexp) -> (r: Result<Curve, Error>)
    ensures
        match r {
            Ok(c) => pts_of(node@) == Some(c.pts.0@) && stroke_of(node@) == Some(c.stroke)
                && fill_of(around@) == Some(c.fill),
            Err(e) => !(pts_of(node@) is Some && stroke_of(node@) is Some && fill_of(around@)
                is Some) && e.0 == ErrorKind::Sexp,
        },
{
    let pts = match read_pts(node) {
        Ok(p) => p,
        Err(e) => {
            return Err(e);
        },
    };
    let stroke = match read_stroke(node) {
        Ok(s) => s,
        Err(e) => {
            return Err(e);
        },
    };
    let fill = match read_fill(around) {
        Ok(f) => f,
        Err(e) => {
            return Err(e);
        },
    };
    Ok(Curve { pts, stroke, fill })
}

/// Whether a rectangle is the one that a node gives.
pub open spec fn is_rectangle_of(r: Rectangle, tree: Tree) -> bool {
    &&& pt_at(tree, "start"@) == Some(r.start)
    &&& pt_at(tree, "end"@) == Some(r.end)
    &&& stroke_of(tree) == Some(r.stroke)
    &&& fill_of(tree) == Some(r.fill)
    &&& same_text(r.uuid, first_of(tree, "uuid"@))
}

/// Whether a node gives a rectangle.
pub open spec fn has_rectangle(tree: Tree) -> bool {
    &&& pt_at(tree, "start"@) is Some
    &&& pt_at(tree, "end"@) is Some
    &&& stroke_of(tree) is Some
    &&& fill_of(tree) is Some
}

/// Reads a rectangle.
pub fn read_rectangle(sexp: &Sexp) -> (r: Result<Rectangle, Error>)
    ensures
        match r {
            Ok(x) => is_rectangle_of(x, sexp@) && has_rectangle(sexp@),
            Err(e) => !has_rectangle(sexp@) && e.0 == ErrorKind::Sexp,
        },
{
    let start = match read_pt_at(sexp, "start") {
        Ok(p) => p,
        Err(e) => {
            return Err(e);
        },
    };
    let end = match read_pt_at(sexp, "end") {
        Ok(p) => p,
        Err(e) => {
            return Err(e);
        },
    };
    let stroke = match read_stroke(sexp) {
        Ok(s) => s,
        Err(e) => {
            return Err(e);
        },
    };
    let fill = match read_fill(sexp) {
        Ok(f) => f,
        Err(e) => {
            return Err(e);
        },
    };
    Ok(Rectangle { start, end, stroke, fill, uuid: sexp.first("uuid") })
}

/// Whether an arc is the one that a node gives.
pub open spec fn is_arc_of(a: Arc, tree: Tree) -> bool {
    &&& pt_at(tree, "start"@) == Some(a.start)
    &&& pt_at(tree, "mid"@) == Some(a.mid)
    &&& pt_at(tree, "end"@) == Some(a.end)
    &&& stroke_of(tree) == Some(a.stroke)
    &&& fill_of(tree) == Some(a.fill)
    &&& same_text(a.uuid, first_of(tree, "uuid"@))
}

/// Whether a node gives an arc.
pub open spec fn has_arc(tree: Tree) -> bool {
    &&& pt_at(tree, "start"@) is Some
    &&& pt_at(tree, "mid"@) is Some
    &&& pt_at(tree, "end"@) is Some
    &&& stroke_of(tree) is Some
    &&& fill_of(tree) is Some
}

/// Reads an arc.
pub fn read_arc(sexp: &Sexp) -> (r: Result<Arc, Error>)
    ensures
        match r {
            Ok(x) => is_arc_of(x, sexp@) && has_arc(sexp@),
            Err(e) => !has_arc(sexp@) && e.0 == ErrorKind::Sexp,
        },
{
    let start = match read_pt_at(sexp, "start") {
        Ok(p) => p,
        Err(e) => {
            return Err(e);
        },
    };
    let mid = match read_pt_at(sexp, "mid") {
        Ok(p) => p,
        Err(e) => {
            return Err(e);
        },
    };
    let end = match read_pt_at(sexp, "end") {
        Ok(p) => p,
        Err(e) => {
            return Err(e);
        },
    };
    let stroke = match read_stroke(sexp) {
        Ok(s) => s,
        Err(e) => {
            return Err(e);
        },
    };
    let fill = match read_fill(sexp) {
        Ok(f) => f,
        Err(e) => {
            return Err(e);
        },
    };
    Ok(Arc { start, mid, end, stroke, fill, uuid: sexp.first("uuid") })
}

/// Whether a graphical text is the one that a node gives.
pub open spec fn is_graphic_text_of(t: crate::gr::Text, tree: Tree) -> bool {
    &&& value_at(tree, 0) == Some(t.text@)
    &&& pos_of(tree) == Some(t.pos)
    &&& is_effects_of(t.effects, tree)
    &&& t.uuid is None
}

/// Whether a node gives a text.
pub open spec fn has_text(tree: Tree) -> bool {
    value_at(tree, 0) is Some && pos_of(tree) is Some && has_effects(tree)
}

/// Reads a graphical text.
pub fn read_graphic_text(sexp: &Sexp) -> (r: Result<crate::gr::Text, Error>)
    ensures
        match r {
            Ok(t) => is_graphic_text_of(t, sexp@) && has_text(sexp@),
            Err(e) => !has_text(sexp@) && e.0 == ErrorKind::Sexp,
        },
{
    let Some(text) = sexp.get(0) else {
        return Err(missing("text is required"));
    };
    let pos = match read_pos(sexp) {
        Ok(p) => p,
        Err(e) => {
            return Err(e);
        },
    };
    let effects = match read_effects(sexp) {
        Ok(f) => f,
        Err(e) => {
            return Err(e);
        },
    };
    Ok(crate::gr::Text { text, pos, effects, uuid: None })
}

/// Whether a text of a schema is the one that a node gives.
pub open spec fn is_text_of(t: crate::schema::Text, tree: Tree) -> bool {
    &&& value_at(tree, 0) == Some(t.text@)
    &&& pos_of(tree) == Some(t.pos)
    &&& is_effects_of(t.effects, tree)
    &&& first_of(tree, "uuid"@) == Some(t.uuid@)
    &&& t.exclude_from_sim == (first_of(tree, "exclude_from_sim"@) == Some("yes"@))
}

/// Reads a text of a schema.
pub fn read_text(sexp: &Sexp) -> (r: Result<crate::schema::Text, Error>)
    ensures
        match r {
            Ok(t) => is_text_of(t, sexp@) && (has_text(sexp@) && first_of(sexp@, "uuid"@) is Some),
            Err(e) => !(has_text(sexp@) && first_of(sexp@, "uuid"@) is Some) && e.0 == ErrorKind::Sexp,
        },
{
    let Some(text) = sexp.get(0) else {
        return Err(missing("text is mandatory for label."));
    };
    let pos = match read_pos(sexp) {
        Ok(p) => p,
        Err(e) => {
            return Err(e);
        },
    };
    let effects = match read_effects(sexp) {
        Ok(f) => f,
        Err(e) => {
            return Err(e);
        },
    };
    let Some(uuid) = sexp.first("uuid") else {
        return Err(missing("uuid is mandatory"));
    };
    let exclude_from_sim = says_yes(sexp, "exclude_from_sim");
    Ok(crate::schema::Text { text, pos, effects, uuid, exclude_from_sim })
}

/// Whether the first value of the first child node with the name is `yes`.
pub fn says_yes(sexp: &Sexp, q: &str) -> (r: bool)
    ensures
        r == (first_of(sexp@, q@) == Some("yes"@)),
{
    match sexp.first(q) {
        Some(v) => crate::strings::str_eq(v.as_str(), "yes"),
        None => false,
    }
}

/// Whether the first value of the first child node with the name is `yes`,
/// or there is none.
pub fn says_yes_or_nothing(sexp: &Sexp, q: &str) -> (r: bool)
    ensures
        r == (first_of(sexp@, q@) is None || first_of(sexp@, q@) == Some("yes"@)),
{
    match sexp.first(q) {
        Some(v) => crate::strings::str_eq(v.as_str(), "yes"),
        None => true,
    }
}

/// Whether the pin numbers of a library symbol are shown: they are, unless
/// its `pin_numbers` node says `hide`.
pub fn pin_numbers(node: &Sexp) -> (r: bool)
    ensures
        r == (match child(node@, "pin_numbers"@) {
            Some(c) => !atom_values(c.nodes).contains("hide"@),
            None => true,
        }),
{
    match child_of(node, "pin_numbers") {
        Some(c) => !has_value(c, "hide"),
        None => true,
    }
}

/// Whether the pin names of a library symbol are shown: they are, unless
/// its `pin_names` node says `hide`.
pub fn pin_names(node: &Sexp) -> (r: bool)
    ensures
        r == (match child(node@, "pin_names"@) {
            Some(c) => !atom_values(c.nodes).contains("hide"@),
            None => true,
        }),
{
    match child_of(node, "pin_names") {
        Some(c) => !has_value(c, "hide"),
        None => true,
    }
}

/// The offset of the pin names of a library symbol: the `offset` of its
/// `pin_names` node.
pub fn pin_names_offset(sexp: &Sexp) -> (r: Option<i32>)
    ensures
        r == (match child(sexp@, "pin_names"@) {
            Some(c) => as_fixed(first_of(c, "offset"@)),
            None => None,
        }),
{
    match child_of(sexp, "pin_names") {
        Some(names) => names.first_fixed("offset"),
        None => None,
    }
}

/// Whether name and text effects of a pin are those that a node gives.
pub open spec fn is_pin_property_of(p: PinProperty, tree: Tree) -> bool {
    value_at(tree, 0) == Some(p.name@) && is_effects_of(p.effects, tree)
}

/// Whether a pin is the one that a node gives: electrical type and style
/// are its first two values; name and number come from its `name` and
/// `number` nodes.
pub open spec fn is_pin_of(pin: Pin, tree: Tree) -> bool {
    &&& value_at(tree, 0) is Some
    &&& value_at(tree, 1) is Some
    &&& pin.electrical_type == ElectricalTypes::from_name_spec(value_at(tree, 0)->0)
    &&& pin.graphical_style == PinGraphicalStyle::from_name_spec(value_at(tree, 1)->0)
    &&& pos_of(tree) == Some(pin.pos)
    &&& as_fixed(first_of(tree, "length"@)) == Some(pin.length)
    &&& pin.hide == atom_values(tree.nodes).contains("hide"@)
    &&& child(tree, "name"@) is Some
    &&& is_pin_property_of(pin.name, child(tree, "name"@)->0)
    &&& child(tree, "number"@) is Some
    &&& is_pin_property_of(pin.number, child(tree, "number"@)->0)
}

/// Whether a node gives a pin.
pub open spec fn has_pin(tree: Tree) -> bool {
    &&& value_at(tree, 0) is Some
    &&& value_at(tree, 1) is Some
    &&& pos_of(tree) is Some
    &&& as_fixed(first_of(tree, "length"@)) is Some
    &&& child(tree, "name"@) is Some
    &&& value_at(child(tree, "name"@)->0, 0) is Some
    &&& has_effects(child(tree, "name"@)->0)
    &&& child(tree, "number"@) is Some
    &&& value_at(child(tree, "number"@)->0, 0) is Some
    &&& has_effects(child(tree, "number"@)->0)
}

/// Reads name or number of a pin.
fn read_pin_property(sexp: &Sexp) -> (r: Result<PinProperty, Error>)
    ensures
        match r {
            Ok(p) => is_pin_property_of(p, sexp@)
                && (value_at(sexp@, 0) is Some && has_effects(sexp@)),
            Err(e) => !(value_at(sexp@, 0) is Some && has_effects(sexp@)) && e.0 == ErrorKind::Sexp,
        },
{
    let Some(name) = sexp.get(0) else {
        return Err(missing("a name is mandatory"));
    };
    let effects = match read_effects(sexp) {
        Ok(f) => f,
        Err(e) => {
            return Err(e);
        },
    };
    Ok(PinProperty { name, effects })
}

/// Reads a pin of a library symbol.
pub fn read_pin(node: &Sexp) -> (r: Result<Pin, Error>)
    ensures
        match r {
            Ok(p) => is_pin_of(p, node@) && has_pin(node@),
            Err(e) => !has_pin(node@) && e.0 == ErrorKind::Sexp,
        },
{
    let Some(electrical) = node.get(0) else {
        return Err(missing("a pin has an electrical type"));
    };
    let Some(style) = node.get(1) else {
        return Err(missing("a pin has a style"));
    };
    let pos = match read_pos(node) {
        Ok(p) => p,
        Err(e) => {
            return Err(e);
        },
    };
    let Some(length) = node.first_fixed("length") else {
        return Err(missing("length is required"));
    };
    let Some(name_node) = child_of(node, "name") else {
        return Err(missing("a pin has a name"));
    };
    let name = match read_pin_property(name_node) {
        Ok(p) => p,
        Err(e) => {
            return Err(e);
        },
    };
    let Some(number_node) = child_of(node, "number") else {
        return Err(missing("a pin has a number"));
    };
    let number = match read_pin_property(number_node) {
        Ok(p) => p,
        Err(e) => {
            return Err(e);
        },
    };
    Ok(
        Pin {
            electrical_type: ElectricalTypes::from(electrical.as_str()),
            graphical_style: PinGraphicalStyle::from(style.as_str()),
            pos,
            length,
            hide: has_value(node, "hide"),
            name,
            number,
        },
    )
}

/// Whether a name is that of a node which draws a part of a library symbol.
pub open spec fn is_graphic_name(name: Seq<char>) -> bool {
    name == "arc"@ || name == "circle"@ || name == "curve"@ || name == "polyline"@ || name
        == "line"@ || name == "rectangle"@ || name == "text"@
}

/// Whether a name is that of a node of a library symbol which draws
/// nothing.
pub open spec fn is_plain_name(name: Seq<char>) -> bool {
    name == "pin"@ || name == "symbol"@ || name == "power"@ || name == "pin_numbers"@ || name
        == "pin_names"@ || name == "in_bom"@ || name == "on_board"@ || name
        == "exclude_from_sim"@ || name == "property"@ || name == "extends"@
}

/// The child nodes that draw a part of a library symbol, in order.
pub open spec fn graphic_nodes(nodes: Seq<crate::sexp::Atom>) -> Seq<Tree>
    decreases nodes.len(),
{
    if nodes.len() == 0 {
        Seq::empty()
    } else {
        match nodes.last() {
            crate::sexp::Atom::Node(t) => if is_graphic_name(t.name) {
                graphic_nodes(nodes.drop_last()).push(t)
            } else {
                graphic_nodes(nodes.drop_last())
            },
            _ => graphic_nodes(nodes.drop_last()),
        }
    }
}

/// Whether a graphic item is the one that a node of a library symbol gives;
/// `around` is the node of the library symbol.
pub open spec fn is_graphic_of(g: GraphicItem, tree: Tree, around: Tree) -> bool {
    match g {
        GraphicItem::Arc(a) => tree.name == "arc"@ && is_arc_of(a, tree),
        GraphicItem::Circle(c) => tree.name == "circle"@ && is_circle_of(c, tree),
        GraphicItem::Curve(c) => tree.name == "curve"@ && pts_of(tree) == Some(c.pts.0@)
            && stroke_of(tree) == Some(c.stroke) && fill_of(around) == Some(c.fill),
        GraphicItem::Polyline(l) => tree.name == "polyline"@ && is_path_of(
            l.pts,
            l.stroke,
            l.fill,
            l.uuid,
            tree,
        ),
        GraphicItem::Line(l) => tree.name == "line"@ && is_path_of(
            l.pts,
            l.stroke,
            l.fill,
            l.uuid,
            tree,
        ),
        GraphicItem::Rectangle(r) => tree.name == "rectangle"@ && is_rectangle_of(r, tree),
        GraphicItem::Text(t) => tree.name == "text"@ && is_graphic_text_of(t, tree),
    }
}

/// Whether a node of a library symbol gives the graphic item that its
/// name stands for; `around` is the node of the library symbol.
pub open spec fn has_graphic(tree: Tree, around: Tree) -> bool {
    if tree.name == "arc"@ {
        has_arc(tree)
    } else if tree.name == "circle"@ {
        has_circle(tree)
    } else if tree.name == "curve"@ {
        pts_of(tree) is Some && stroke_of(tree) is Some && fill_of(around) is Some
    } else if tree.name == "polyline"@ {
        has_path(tree)
    } else if tree.name == "line"@ {
        has_path(tree)
    } else if tree.name == "rectangle"@ {
        has_rectangle(tree)
    } else {
        has_text(tree)
    }
}

/// Reads the graphic item that a node of a library symbol gives.
fn read_graphic(node: &Sexp, around: &Sexp) -> (r: Result<GraphicItem, Error>)
    requires
        is_graphic_name(node@.name),
    ensures
        match r {
            Ok(g) => is_graphic_of(g, node@, around@) && has_graphic(node@, around@),
            Err(e) => !has_graphic(node@, around@) && e.0 == ErrorKind::Sexp,
        },
{
    let name = node.name.as_str();
    assert(node@.name == name@);
    if crate::strings::str_eq(name, "arc") {
        match read_arc(node) {
            Ok(a) => Ok(GraphicItem::Arc(a)),
            Err(e) => Err(e),
        }
    } else if crate::strings::str_eq(name, "circle") {
        match read_circle(node) {
            Ok(a) => Ok(GraphicItem::Circle(a)),
            Err(e) => Err(e),
        }
    } else if crate::strings::str_eq(name, "curve") {
        match read_curve(node, around) {
            Ok(a) => Ok(GraphicItem::Curve(a)),
            Err(e) => Err(e),
        }
    } else if crate::strings::str_eq(name, "polyline") {
        match read_polyline(node) {
            Ok(a) => Ok(GraphicItem::Polyline(a)),
            Err(e) => Err(e),
        }
    } else if crate::strings::str_eq(name, "line") {
        match read_line(node) {
            Ok(a) => Ok(GraphicItem::Line(a)),
            Err(e) => Err(e),
        }
    } else if crate::strings::str_eq(name, "rectangle") {
        match read_rectangle(node) {
            Ok(a) => Ok(GraphicItem::Rectangle(a)),
            Err(e) => Err(e),
        }
    } else {
        match read_graphic_text(node) {
            Ok(a) => Ok(GraphicItem::Text(a)),
            Err(e) => Err(e),
        }
    }
}

/// Whether a name is that of a node which draws a part of a library symbol.
fn graphic_name(name: &str) -> (r: bool)
    ensures
        r == is_graphic_name(name@),
{
    crate::strings::str_eq(name, "arc") || crate::strings::str_eq(name, "circle")
        || crate::strings::str_eq(name, "curve") || crate::strings::str_eq(name, "polyline")
        || crate::strings::str_eq(name, "line") || crate::strings::str_eq(name, "rectangle")
        || crate::strings::str_eq(name, "text")
}

/// Whether a name is that of a node of a library symbol which draws
/// nothing.
fn plain_name(name: &str) -> (r: bool)
    ensures
        r == is_plain_name(name@),
{
    crate::strings::str_eq(name, "pin") || crate::strings::str_eq(name, "symbol")
        || crate::strings::str_eq(name, "power") || crate::strings::str_eq(name, "pin_numbers")
        || crate::strings::str_eq(name, "pin_names") || crate::strings::str_eq(name, "in_bom")
        || crate::strings::str_eq(name, "on_board") || crate::strings::str_eq(
        name,
        "exclude_from_sim",
    ) || crate::strings::str_eq(name, "property") || crate::strings::str_eq(name, "extends")
}

/// Whether a library symbol is the one that a node gives: its identifier is
/// the first value; flags, properties, pins and graphic items come from the
/// child nodes, and each `symbol` child node gives a unit in the same way.
pub open spec fn is_library_symbol_of(lib: LibrarySymbol, tree: Tree) -> bool
    decreases lib,
{
    &&& value_at(tree, 0) == Some(lib.lib_id@)
    &&& same_text(lib.extends, first_of(tree, "extends"@))
    &&& lib.power == (child(tree, "power"@) is Some)
    &&& lib.exclude_from_sim == (first_of(tree, "exclude_from_sim"@) == Some("yes"@))
    &&& lib.in_bom == (first_of(tree, "in_bom"@) is None || first_of(tree, "in_bom"@) == Some(
        "yes"@,
    ))
    &&& lib.on_board == (first_of(tree, "on_board"@) is None || first_of(tree, "on_board"@)
        == Some("yes"@))
    &&& are_properties_of(lib.props@, tree)
    &&& lib.graphics@.len() == graphic_nodes(tree.nodes).len()
    &&& (forall|i: int|
        0 <= i < lib.graphics@.len() ==> is_graphic_of(
            #[trigger] lib.graphics@[i],
            graphic_nodes(tree.nodes)[i],
            tree,
        ))
    &&& lib.pins@.len() == named(tree.nodes, "pin"@).len()
    &&& (forall|i: int|
        0 <= i < lib.pins@.len() ==> is_pin_of(#[trigger] lib.pins@[i], named(tree.nodes, "pin"@)[i]))
    &&& lib.pin_numbers == (match child(tree, "pin_numbers"@) {
        Some(c) => !atom_values(c.nodes).contains("hide"@),
        None => true,
    })
    &&& lib.pin_names == (match child(tree, "pin_names"@) {
        Some(c) => !atom_values(c.nodes).contains("hide"@),
        None => true,
    })
    &&& lib.pin_names_offset == (match child(tree, "pin_names"@) {
        Some(c) => as_fixed(first_of(c, "offset"@)),
        None => None,
    })
    &&& lib.units@.len() == named(tree.nodes, "symbol"@).len()
    &&& (forall|i: int|
        0 <= i < lib.units@.len() ==> is_library_symbol_of(
            #[trigger] lib.units@[i],
            named(tree.nodes, "symbol"@)[i],
        ))
    &&& same_text(lib.unit_name, first_of(tree, "unit_name"@))
}

/// Whether a child node of a library symbol can be read: a graphic item,
/// a pin or a unit by its name, and else a node that a library symbol has.
pub open spec fn has_part(t: Tree, around: Tree) -> bool
    decreases t,
{
    if is_graphic_name(t.name) {
        has_graphic(t, around)
    } else if t.name == "pin"@ {
        has_pin(t)
    } else if t.name == "symbol"@ {
        value_at(t, 0) is Some && has_properties(t) && have_parts(t.nodes, t)
    } else {
        is_plain_name(t.name)
    }
}

/// Whether each child node among the elements can be read.
pub open spec fn have_parts(nodes: Seq<crate::sexp::Atom>, around: Tree) -> bool
    decreases nodes,
{
    nodes.len() == 0 || (have_parts(nodes.drop_last(), around) && match nodes.last() {
        crate::sexp::Atom::Node(t) => has_part(t, around),
        _ => true,
    })
}

/// Whether a node gives a library symbol: it has an identifier, and its
/// properties and its child nodes can be read.
pub open spec fn has_library_symbol(tree: Tree) -> bool {
    &&& value_at(tree, 0) is Some
    &&& has_properties(tree)
    &&& have_parts(tree.nodes, tree)
}

/// Where all child nodes can be read, the first of them can.
pub proof fn lemma_have_parts_prefix(nodes: Seq<crate::sexp::Atom>, around: Tree, n: int)
    requires
        0 <= n <= nodes.len(),
        have_parts(nodes, around),
    ensures
        have_parts(nodes.take(n), around),
    decreases nodes.len() - n,
{
    if n < nodes.len() {
        lemma_have_parts_prefix(nodes, around, n + 1);
        assert(nodes.take(n + 1).drop_last() =~= nodes.take(n));
    } else {
        assert(nodes.take(n) =~= nodes);
    }
}

/// Reads a library symbol, with its units.
///
/// Fails if the identifier is missing, if a property, a pin, a graphic item
/// or a unit cannot be read, and if a child node has a name that a library
/// symbol does not have.
pub fn read_library_symbol(sexp: &Sexp) -> (r: Result<LibrarySymbol, Error>)
    ensures
        match r {
            Ok(lib) => is_library_symbol_of(lib, sexp@) && has_library_symbol(sexp@),
            Err(e) => !has_library_symbol(sexp@) && e.0 == ErrorKind::Sexp,
        },
    decreases sexp,
{
    let Some(lib_id) = sexp.get(0) else {
        return Err(missing("lib_id is mandatory on library symbol"));
    };
    let props = match properties(sexp) {
        Ok(p) => p,
        Err(e) => {
            return Err(e);
        },
    };
    let mut graphics: Vec<GraphicItem> = Vec::new();
    let mut pins: Vec<Pin> = Vec::new();
    let mut units: Vec<LibrarySymbol> = Vec::new();
    let ghost atoms = sexp@.nodes;
    let mut i: usize = 0;
    assert(atoms.take(0) =~= Seq::<crate::sexp::Atom>::empty());
    while i < sexp.nodes.len()
        invariant
            i <= sexp.nodes.len(),
            atoms == sexp@.nodes,
            atoms.len() == sexp.nodes@.len(),
            graphics@.len() == graphic_nodes(atoms.take(i as int)).len(),
            forall|k: int|
                0 <= k < graphics@.len() ==> is_graphic_of(
                    #[trigger] graphics@[k],
                    graphic_nodes(atoms.take(i as int))[k],
                    sexp@,
                ),
            pins@.len() == named(atoms.take(i as int), "pin"@).len(),
            forall|k: int|
                0 <= k < pins@.len() ==> is_pin_of(
                    #[trigger] pins@[k],
                    named(atoms.take(i as int), "pin"@)[k],
                ),
            units@.len() == named(atoms.take(i as int), "symbol"@).len(),
            forall|k: int|
                0 <= k < units@.len() ==> is_library_symbol_of(
                    #[trigger] units@[k],
                    named(atoms.take(i as int), "symbol"@)[k],
                ),
            have_parts(atoms.take(i as int), sexp@),
        decreases sexp.nodes.len() - i,
    {
        assert(atoms.take(i + 1).drop_last() =~= atoms.take(i as int));
        assert(atoms.take(i + 1).last() == atoms[i as int]);
        assert(atoms[i as int] == sexp.nodes@[i as int]@);
        proof {
            if have_parts(atoms, sexp@) {
                lemma_have_parts_prefix(atoms, sexp@, i + 1);
            }
            reveal_strlit("pin");
            reveal_strlit("symbol");
            reveal_strlit("arc");
            reveal_strlit("circle");
            reveal_strlit("curve");
            reveal_strlit("polyline");
            reveal_strlit("line");
            reveal_strlit("rectangle");
            reveal_strlit("text");
        }
        if let crate::sexp::SexpAtom::Node(node) = &sexp.nodes[i] {
            let name = node.name.as_str();
            assert(node@.name == name@);
            if graphic_name(name) {
                assert(name@ != "pin"@ && name@ != "symbol"@) by {
                    assert("pin"@.len() == 3 && "symbol"@.len() == 6);
                    assert("arc"@.len() == 3 && "circle"@.len() == 6 && "curve"@.len() == 5);
                    assert("polyline"@.len() == 8 && "line"@.len() == 4);
                    assert("rectangle"@.len() == 9 && "text"@.len() == 4);
                    assert("pin"@[0] == 'p' && "arc"@[0] == 'a');
                    assert("symbol"@[0] == 's' && "circle"@[0] == 'c');
                }
                match read_graphic(node, sexp) {
                    Ok(g) => graphics.push(g),
                    Err(e) => {
                        assert(!has_part(node@, sexp@));
                        return Err(e);
                    },
                }
            } else if crate::strings::str_eq(name, "pin") {
                assert(name@ != "symbol"@) by {
                    assert("pin"@.len() == 3 && "symbol"@.len() == 6);
                }
                match read_pin(node) {
                    Ok(p) => pins.push(p),
                    Err(e) => {
                        assert(!has_part(node@, sexp@));
                        return Err(e);
                    },
                }
            } else if crate::strings::str_eq(name, "symbol") {
                match read_library_symbol(node) {
                    Ok(u) => units.push(u),
                    Err(e) => {
                        assert(!has_part(node@, sexp@));
                        return Err(e);
                    },
                }
            } else if !plain_name(name) {
                assert(!has_part(node@, sexp@));
                return Err(missing("unknown graphic type"));
            }
            assert(has_part(node@, sexp@));
        }
        i += 1;
    }
    assert(atoms.take(i as int) =~= atoms);
    let lib = LibrarySymbol {
        lib_id,
        extends: sexp.first("extends"),
        power: child_of(sexp, "power").is_some(),
        exclude_from_sim: says_yes(sexp, "exclude_from_sim"),
        in_bom: says_yes_or_nothing(sexp, "in_bom"),
        on_board: says_yes_or_nothing(sexp, "on_board"),
        props,
        graphics,
        pins,
        pin_numbers: pin_numbers(sexp),
        pin_names: pin_names(sexp),
        pin_names_offset: pin_names_offset(sexp),
        units,
        unit_name: sexp.first("unit_name"),
    };
    Ok(lib)
}

/// Whether the pins of a placed symbol are those that the nodes give: for
/// each node its number and its identifier.
pub open spec fn are_symbol_pins_of(pins: Seq<(String, String)>, nodes: Seq<Tree>) -> bool {
    &&& pins.len() == nodes.len()
    &&& forall|i: int|
        0 <= i < nodes.len() ==> value_at(#[trigger] nodes[i], 0) == Some(pins[i].0@) && first_of(
            nodes[i],
            "uuid"@,
        ) == Some(pins[i].1@)
}

/// The `path` node of the `project` node of the `instances` node of a node.
pub open spec fn instance_path(tree: Tree) -> Option<(Tree, Tree)> {
    match child(tree, "instances"@) {
        None => None,
        Some(i) => match child(i, "project"@) {
            None => None,
            Some(p) => match child(p, "path"@) {
                None => None,
                Some(path) => Some((p, path)),
            },
        },
    }
}

/// The `project` node of the `instances` node of a node that has a `path`
/// node.
pub open spec fn project_of(tree: Tree) -> Tree {
    (instance_path(tree)->Some_0).0
}

/// The `path` node of the `project` node of the `instances` node of a node.
pub open spec fn path_of(tree: Tree) -> Tree {
    (instance_path(tree)->Some_0).1
}

/// Whether an instance is the one that a placed symbol's node gives.
pub open spec fn is_instance_of(i: Instance, tree: Tree) -> bool {
    &&& instance_path(tree) is Some
    &&& value_at(project_of(tree), 0) == Some(i.project@)
    &&& value_at(path_of(tree), 0) == Some(i.path@)
    &&& first_of(path_of(tree), "reference"@) == Some(i.reference@)
    &&& as_u8(first_of(path_of(tree), "unit"@)) == Some(i.unit)
}

/// Whether a placed symbol is the one that a node gives.
pub open spec fn is_symbol_of(s: Symbol, tree: Tree) -> bool {
    &&& first_of(tree, "lib_id"@) == Some(s.lib_id@)
    &&& pos_of(tree) == Some(s.pos)
    &&& as_u8(first_of(tree, "unit"@)) == Some(s.unit)
    &&& same_text(s.mirror, first_of(tree, "mirror"@))
    &&& first_of(tree, "in_bom"@) is Some
    &&& s.in_bom == (first_of(tree, "in_bom"@) == Some("yes"@))
    &&& first_of(tree, "on_board"@) is Some
    &&& s.on_board == (first_of(tree, "on_board"@) == Some("yes"@))
    &&& s.exclude_from_sim == (first_of(tree, "exclude_from_sim"@) == Some("yes"@))
    &&& s.dnp == (first_of(tree, "dnp"@) == Some("yes"@))
    &&& first_of(tree, "uuid"@) == Some(s.uuid@)
    &&& are_properties_of(s.props@, tree)
    &&& are_symbol_pins_of(s.pins@, named(tree.nodes, "pin"@))
    &&& s.instances@.len() == 1
    &&& is_instance_of(s.instances@[0], tree)
    &&& s.attrs.attributes@.len() == 0
}

/// Whether each of the nodes gives the number and the identifier of a pin.
pub open spec fn have_symbol_pins(nodes: Seq<Tree>) -> bool {
    forall|i: int|
        0 <= i < nodes.len() ==> value_at(#[trigger] nodes[i], 0) is Some && first_of(
            nodes[i],
            "uuid"@,
        ) is Some
}

/// Whether a node gives a placed symbol: its mandatory parts are there,
/// and its properties, its pins and its instance can be read.
pub open spec fn has_symbol(tree: Tree) -> bool {
    &&& first_of(tree, "lib_id"@) is Some
    &&& pos_of(tree) is Some
    &&& as_u8(first_of(tree, "unit"@)) is Some
    &&& first_of(tree, "in_bom"@) is Some
    &&& first_of(tree, "on_board"@) is Some
    &&& first_of(tree, "uuid"@) is Some
    &&& has_properties(tree)
    &&& have_symbol_pins(named(tree.nodes, "pin"@))
    &&& instance_path(tree) is Some
    &&& value_at(project_of(tree), 0) is Some
    &&& value_at(path_of(tree), 0) is Some
    &&& first_of(path_of(tree), "reference"@) is Some
    &&& as_u8(first_of(path_of(tree), "unit"@)) is Some
}

/// Reads the project and path of the instance of an item.
fn instance_nodes<'a>(sexp: &'a Sexp) -> (r: Option<(&'a Sexp, &'a Sexp)>)
    ensures
        match r {
            Some((p, path)) => instance_path(sexp@) == Some((p@, path@)),
            None => instance_path(sexp@) is None,
        },
{
    let Some(instances) = child_of(sexp, "instances") else {
        return None;
    };
    let Some(project) = child_of(instances, "project") else {
        return None;
    };
    let Some(path) = child_of(project, "path") else {
        return None;
    };
    Some((project, path))
}

/// Reads a placed symbol.
///
/// Fails if one of its mandatory parts is missing or cannot be read.
pub fn read_symbol(sexp: &Sexp) -> (r: Result<Symbol, Error>)
    ensures
        match r {
            Ok(s) => is_symbol_of(s, sexp@) && has_symbol(sexp@),
            Err(e) => !has_symbol(sexp@) && e.0 == ErrorKind::Sexp,
        },
{
    let Some(lib_id) = sexp.first("lib_id") else {
        return Err(missing("lib_id is mandatory"));
    };
    let pos = match read_pos(sexp) {
        Ok(p) => p,
        Err(e) => {
            return Err(e);
        },
    };
    let Some(unit) = sexp.first_u8("unit") else {
        return Err(missing("unit is mandatory"));
    };
    let Some(in_bom) = sexp.first("in_bom") else {
        return Err(missing("in_bom is mandatory"));
    };
    let Some(on_board) = sexp.first("on_board") else {
        return Err(missing("on_board is mandatory"));
    };
    let Some(uuid) = sexp.first("uuid") else {
        return Err(missing("uuid is mandatory"));
    };
    let props = match properties(sexp) {
        Ok(p) => p,
        Err(e) => {
            return Err(e);
        },
    };
    let nodes = sexp.query("pin");
    let ghost all = named(sexp@.nodes, "pin"@);
    let mut pins: Vec<(String, String)> = Vec::new();
    let mut i: usize = 0;
    while i < nodes.len()
        invariant
            i <= nodes.len(),
            nodes@.len() == all.len(),
            forall|k: int| 0 <= k < nodes@.len() ==> (#[trigger] nodes@[k])@ == all[k],
            pins@.len() == i,
            forall|k: int|
                0 <= k < i ==> value_at(#[trigger] all[k], 0) == Some(pins@[k].0@) && first_of(
                    all[k],
                    "uuid"@,
                ) == Some(pins@[k].1@),
            all == named(sexp@.nodes, "pin"@),
        decreases nodes.len() - i,
    {
        assert(nodes@[i as int]@ == all[i as int]);
        let Some(number) = nodes[i].get(0) else {
            assert(value_at(all[i as int], 0) is None);
            return Err(missing("a pin has a number"));
        };
        let Some(id) = nodes[i].first("uuid") else {
            assert(first_of(all[i as int], "uuid"@) is None);
            return Err(missing("a pin has a uuid"));
        };
        pins.push((number, id));
        i += 1;
    }
    let Some((project, path)) = instance_nodes(sexp) else {
        return Err(missing("instances is mandatory"));
    };
    let Some(project_name) = project.get(0) else {
        return Err(missing("a project has a name"));
    };
    let Some(path_name) = path.get(0) else {
        return Err(missing("a path has a name"));
    };
    let Some(reference) = path.first("reference") else {
        return Err(missing("reference is mandatory"));
    };
    let Some(path_unit) = path.first_u8("unit") else {
        return Err(missing("unit is mandatory"));
    };
    let mut instances: Vec<Instance> = Vec::new();
    instances.push(
        Instance { project: project_name, path: path_name, reference, unit: path_unit },
    );
    Ok(
        Symbol {
            lib_id,
            pos,
            unit,
            mirror: sexp.first("mirror"),
            in_bom: crate::strings::str_eq(in_bom.as_str(), "yes"),
            on_board: crate::strings::str_eq(on_board.as_str(), "yes"),
            exclude_from_sim: says_yes(sexp, "exclude_from_sim"),
            dnp: says_yes(sexp, "dnp"),
            uuid,
            props,
            pins,
            instances,
            attrs: To::new(),
        },
    )
}

/// Whether a bus is the one that a node gives.
pub open spec fn is_bus_of(b: Bus, tree: Tree) -> bool {
    &&& pts_of(tree) == Some(b.pts.0@)
    &&& stroke_of(tree) == Some(b.stroke)
    &&& first_of(tree, "uuid"@) == Some(b.uuid@)
}

/// Reads a bus: its points, its stroke and its identifier.
pub fn read_bus(sexp: &Sexp) -> (r: Result<Bus, Error>)
    ensures
        match r {
            Ok(b) => is_bus_of(b, sexp@) && has_wire(sexp@),
            Err(e) => !has_wire(sexp@) && e.0 == ErrorKind::Sexp,
        },
{
    let pts = match read_pts(sexp) {
        Ok(p) => p,
        Err(e) => {
            return Err(e);
        },
    };
    let stroke = match read_stroke(sexp) {
        Ok(s) => s,
        Err(e) => {
            return Err(e);
        },
    };
    let Some(uuid) = sexp.first("uuid") else {
        return Err(missing("uuid is mandatory"));
    };
    Ok(Bus { pts, stroke, uuid })
}

/// Width and height that the `size` node of a node gives.
pub open spec fn size_of(tree: Tree) -> Option<(i32, i32)> {
    match child(tree, "size"@) {
        None => None,
        Some(s) => match (as_fixed(value_at(s, 0)), as_fixed(value_at(s, 1))) {
            (Some(w), Some(h)) => Some((w, h)),
            _ => None,
        },
    }
}

/// Reads width and height from the `size` node of a node.
pub fn read_size(sexp: &Sexp) -> (r: Result<(i32, i32), Error>)
    ensures
        match r {
            Ok(s) => size_of(sexp@) == Some(s),
            Err(e) => size_of(sexp@) is None && e.0 == ErrorKind::Sexp,
        },
{
    let Some(size) = child_of(sexp, "size") else {
        return Err(missing("size is mandatory"));
    };
    let Some(w) = size.get_fixed(0) else {
        return Err(missing("a size has a width"));
    };
    let Some(h) = size.get_fixed(1) else {
        return Err(missing("a size has a height"));
    };
    Ok((w, h))
}

/// Whether a bus entry is the one that a node gives.
pub open spec fn is_bus_entry_of(b: BusEntry, tree: Tree) -> bool {
    &&& pos_of(tree) == Some(b.pos)
    &&& size_of(tree) == Some(b.size)
    &&& stroke_of(tree) == Some(b.stroke)
    &&& first_of(tree, "uuid"@) == Some(b.uuid@)
}

/// Reads a bus entry.
pub fn read_bus_entry(sexp: &Sexp) -> (r: Result<BusEntry, Error>)
    ensures
        match r {
            Ok(b) => is_bus_entry_of(b, sexp@) && (pos_of(sexp@) is Some && size_of(sexp@) is Some
                && stroke_of(sexp@) is Some && first_of(sexp@, "uuid"@) is Some),
            Err(e) => !(pos_of(sexp@) is Some && size_of(sexp@) is Some && stroke_of(sexp@) is Some
                && first_of(sexp@, "uuid"@) is Some) && e.0 == ErrorKind::Sexp,
        },
{
    let pos = match read_pos(sexp) {
        Ok(p) => p,
        Err(e) => {
            return Err(e);
        },
    };
    let size = match read_size(sexp) {
        Ok(p) => p,
        Err(e) => {
            return Err(e);
        },
    };
    let stroke = match read_stroke(sexp) {
        Ok(s) => s,
        Err(e) => {
            return Err(e);
        },
    };
    let Some(uuid) = sexp.first("uuid") else {
        return Err(missing("uuid is mandatory"));
    };
    Ok(BusEntry { pos, size, stroke, uuid })
}

/// Whether a text box is the one that a node gives.
pub open spec fn is_text_box_of(t: TextBox, tree: Tree) -> bool {
    &&& pos_of(tree) == Some(t.pos)
    &&& value_at(tree, 0) == Some(t.text@)
    &&& size_of(tree) == Some((t.width, t.height))
    &&& stroke_of(tree) == Some(t.stroke)
    &&& fill_of(tree) == Some(t.fill)
    &&& is_effects_of(t.effects, tree)
    &&& t.exclude_from_sim == (first_of(tree, "exclude_from_sim"@) == Some("yes"@))
    &&& first_of(tree, "uuid"@) == Some(t.uuid@)
}

/// Whether a node gives a text box.
pub open spec fn has_text_box(tree: Tree) -> bool {
    &&& size_of(tree) is Some
    &&& pos_of(tree) is Some
    &&& value_at(tree, 0) is Some
    &&& stroke_of(tree) is Some
    &&& fill_of(tree) is Some
    &&& has_effects(tree)
    &&& first_of(tree, "uuid"@) is Some
}

/// Reads a text box.
///
/// Fails if one of its parts is missing or cannot be read.
pub fn read_text_box(sexp: &Sexp) -> (r: Result<TextBox, Error>)
    ensures
        match r {
            Ok(t) => is_text_box_of(t, sexp@) && has_text_box(sexp@),
            Err(e) => !has_text_box(sexp@) && e.0 == ErrorKind::Sexp,
        },
{
    let size = match read_size(sexp) {
        Ok(p) => p,
        Err(e) => {
            return Err(e);
        },
    };
    let pos = match read_pos(sexp) {
        Ok(p) => p,
        Err(e) => {
            return Err(e);
        },
    };
    let Some(text) = sexp.get(0) else {
        return Err(missing("text is mandatory for text box."));
    };
    let stroke = match read_stroke(sexp) {
        Ok(s) => s,
        Err(e) => {
            return Err(e);
        },
    };
    let fill = match read_fill(sexp) {
        Ok(f) => f,
        Err(e) => {
            return Err(e);
        },
    };
    let effects = match read_effects(sexp) {
        Ok(f) => f,
        Err(e) => {
            return Err(e);
        },
    };
    let Some(uuid) = sexp.first("uuid") else {
        return Err(missing("uuid is mandatory"));
    };
    Ok(
        TextBox {
            pos,
            text,
            width: size.0,
            height: size.1,
            stroke,
            fill,
            effects,
            exclude_from_sim: says_yes(sexp, "exclude_from_sim"),
            uuid,
        },
    )
}

/// Whether a sheet pin is the one that a node gives.
pub open spec fn is_hierarchical_pin_of(p: HierarchicalPin, tree: Tree) -> bool {
    &&& value_at(tree, 0) == Some(p.name@)
    &&& value_at(tree, 1) is Some
    &&& ConnectionType::from_name_spec(value_at(tree, 1)->0) == Some(p.connection_type)
    &&& pos_of(tree) == Some(p.pos)
    &&& is_effects_of(p.effects, tree)
    &&& first_of(tree, "uuid"@) == Some(p.uuid@)
}

/// Whether a node gives a pin of a sheet.
pub open spec fn has_hierarchical_pin(tree: Tree) -> bool {
    &&& value_at(tree, 0) is Some
    &&& value_at(tree, 1) is Some
    &&& ConnectionType::from_name_spec(value_at(tree, 1)->0) is Some
    &&& pos_of(tree) is Some
    &&& has_effects(tree)
    &&& first_of(tree, "uuid"@) is Some
}

/// Reads a pin of a sheet.
///
/// Fails if one of its parts is missing or cannot be read.
pub fn read_hierarchical_pin(sexp: &Sexp) -> (r: Result<HierarchicalPin, Error>)
    ensures
        match r {
            Ok(p) => is_hierarchical_pin_of(p, sexp@) && has_hierarchical_pin(sexp@),
            Err(e) => !has_hierarchical_pin(sexp@) && e.0 == ErrorKind::Sexp,
        },
{
    let Some(name) = sexp.get(0) else {
        return Err(missing("a pin has a name"));
    };
    let Some(kind) = sexp.get(1) else {
        return Err(missing("a pin has a connection type"));
    };
    let Some(connection_type) = ConnectionType::from_name(kind.as_str()) else {
        return Err(missing("Invalid connection type"));
    };
    let pos = match read_pos(sexp) {
        Ok(p) => p,
        Err(e) => {
            return Err(e);
        },
    };
    let effects = match read_effects(sexp) {
        Ok(f) => f,
        Err(e) => {
            return Err(e);
        },
    };
    let Some(uuid) = sexp.first("uuid") else {
        return Err(missing("uuid is mandatory"));
    };
    Ok(HierarchicalPin { name, connection_type, pos, effects, uuid })
}

/// Whether a sheet is the one that a node gives.
pub open spec fn is_sheet_of(s: HierarchicalSheet, tree: Tree) -> bool {
    &&& pos_of(tree) == Some(s.pos)
    &&& size_of(tree) == Some((s.width, s.height))
    &&& s.fields_autoplaced == autoplaced(tree)
    &&& stroke_of(tree) == Some(s.stroke)
    &&& fill_of(tree) == Some(s.fill)
    &&& are_properties_of(s.props@, tree)
    &&& s.pins@.len() == named(tree.nodes, "pin"@).len()
    &&& (forall|i: int|
        0 <= i < s.pins@.len() ==> is_hierarchical_pin_of(
            #[trigger] s.pins@[i],
            named(tree.nodes, "pin"@)[i],
        ))
    &&& instance_path(tree) is Some
    &&& s.instances@.len() == 1
    &&& value_at(project_of(tree), 0) == Some(s.instances@[0].project_name@)
    &&& value_at(path_of(tree), 0) == Some(s.instances@[0].path@)
    &&& first_of(path_of(tree), "page"@) == Some(s.instances@[0].page_number@)
    &&& first_of(tree, "uuid"@) == Some(s.uuid@)
}

/// Whether each of the nodes gives a pin of a sheet.
pub open spec fn have_hierarchical_pins(nodes: Seq<Tree>) -> bool {
    forall|i: int| 0 <= i < nodes.len() ==> has_hierarchical_pin(#[trigger] nodes[i])
}

/// Whether a node gives a hierarchical sheet.
pub open spec fn has_sheet(tree: Tree) -> bool {
    &&& size_of(tree) is Some
    &&& instance_path(tree) is Some
    &&& pos_of(tree) is Some
    &&& stroke_of(tree) is Some
    &&& fill_of(tree) is Some
    &&& has_properties(tree)
    &&& have_hierarchical_pins(named(tree.nodes, "pin"@))
    &&& value_at(project_of(tree), 0) is Some
    &&& value_at(path_of(tree), 0) is Some
    &&& first_of(path_of(tree), "page"@) is Some
    &&& first_of(tree, "uuid"@) is Some
}

/// Reads a hierarchical sheet.
///
/// Fails if one of its parts is missing or cannot be read.
pub fn read_hierarchical_sheet(sexp: &Sexp) -> (r: Result<HierarchicalSheet, Error>)
    ensures
        match r {
            Ok(s) => is_sheet_of(s, sexp@) && has_sheet(sexp@),
            Err(e) => !has_sheet(sexp@) && e.0 == ErrorKind::Sexp,
        },
{
    let size = match read_size(sexp) {
        Ok(p) => p,
        Err(e) => {
            return Err(e);
        },
    };
    let Some((project, path)) = instance_nodes(sexp) else {
        return Err(missing("instances is mandatory"));
    };
    let pos = match read_pos(sexp) {
        Ok(p) => p,
        Err(e) => {
            return Err(e);
        },
    };
    let stroke = match read_stroke(sexp) {
        Ok(s) => s,
        Err(e) => {
            return Err(e);
        },
    };
    let fill = match read_fill(sexp) {
        Ok(f) => f,
        Err(e) => {
            return Err(e);
        },
    };
    let props = match properties(sexp) {
        Ok(p) => p,
        Err(e) => {
            return Err(e);
        },
    };
    let nodes = sexp.query("pin");
    let ghost all = named(sexp@.nodes, "pin"@);
    let mut pins: Vec<HierarchicalPin> = Vec::new();
    let mut i: usize = 0;
    while i < nodes.len()
        invariant
            i <= nodes.len(),
            nodes@.len() == all.len(),
            forall|k: int| 0 <= k < nodes@.len() ==> (#[trigger] nodes@[k])@ == all[k],
            pins@.len() == i,
            forall|k: int| 0 <= k < i ==> is_hierarchical_pin_of(#[trigger] pins@[k], all[k]),
            forall|k: int| 0 <= k < i ==> has_hierarchical_pin(#[trigger] all[k]),
            all == named(sexp@.nodes, "pin"@),
        decreases nodes.len() - i,
    {
        assert(nodes@[i as int]@ == all[i as int]);
        match read_hierarchical_pin(nodes[i]) {
            Ok(p) => pins.push(p),
            Err(e) => {
                assert(!has_hierarchical_pin(all[i as int]));
                return Err(e);
            },
        }
        i += 1;
    }
    let Some(project_name) = project.get(0) else {
        return Err(missing("a project has a name"));
    };
    let Some(path_name) = path.get(0) else {
        return Err(missing("a path has a name"));
    };
    let Some(page_number) = path.first("page") else {
        return Err(missing("page is mandatory"));
    };
    let Some(uuid) = sexp.first("uuid") else {
        return Err(missing("uuid is mandatory"));
    };
    let mut instances: Vec<ProjectInstance> = Vec::new();
    instances.push(ProjectInstance { project_name, path: path_name, page_number });
    Ok(
        HierarchicalSheet {
            pos,
            width: size.0,
            height: size.1,
            fields_autoplaced: says_yes_or_nothing(sexp, "fields_autoplaced"),
            stroke,
            fill,
            props,
            pins,
            instances,
            uuid,
        },
    )
}

/// Whether a hierarchical label is the one that a node gives.
pub open spec fn is_hierarchical_label_of(l: HierarchicalLabel, tree: Tree) -> bool {
    &&& value_at(tree, 0) == Some(l.text@)
    &&& same_text(l.shape, first_of(tree, "shape"@))
    &&& pos_of(tree) == Some(l.pos)
    &&& l.fields_autoplaced == autoplaced(tree)
    &&& are_properties_of(l.props@, tree)
    &&& is_effects_of(l.effects, tree)
    &&& first_of(tree, "uuid"@) == Some(l.uuid@)
}

/// Reads a hierarchical label.
pub fn read_hierarchical_label(sexp: &Sexp) -> (r: Result<HierarchicalLabel, Error>)
    ensures
        match r {
            Ok(l) => is_hierarchical_label_of(l, sexp@)
                && (has_label(sexp@) && has_properties(sexp@)),
            Err(e) => !(has_label(sexp@) && has_properties(sexp@)) && e.0 == ErrorKind::Sexp,
        },
{
    let Some(text) = sexp.get(0) else {
        return Err(missing("a label has a text"));
    };
    let pos = match read_pos(sexp) {
        Ok(p) => p,
        Err(e) => {
            return Err(e);
        },
    };
    let props = match properties(sexp) {
        Ok(p) => p,
        Err(e) => {
            return Err(e);
        },
    };
    let effects = match read_effects(sexp) {
        Ok(f) => f,
        Err(e) => {
            return Err(e);
        },
    };
    let Some(uuid) = sexp.first("uuid") else {
        return Err(missing("uuid is mandatory"));
    };
    Ok(
        HierarchicalLabel {
            text,
            shape: sexp.first("shape"),
            pos,
            fields_autoplaced: says_yes_or_nothing(sexp, "fields_autoplaced"),
            props,
            effects,
            uuid,
        },
    )
}

/// Whether a netclass flag is the one that a node gives.
pub open spec fn is_netclass_flag_of(f: NetclassFlag, tree: Tree) -> bool {
    &&& value_at(tree, 0) == Some(f.name@)
    &&& as_fixed(first_of(tree, "length"@)) == Some(f.length)
    &&& same_text(f.shape, first_of(tree, "shape"@))
    &&& pos_of(tree) == Some(f.pos)
    &&& f.fields_autoplaced == autoplaced(tree)
    &&& is_effects_of(f.effects, tree)
    &&& are_properties_of(f.props@, tree)
    &&& first_of(tree, "uuid"@) == Some(f.uuid@)
}

/// Reads a netclass flag.
pub fn read_netclass_flag(sexp: &Sexp) -> (r: Result<NetclassFlag, Error>)
    ensures
        match r {
            Ok(f) => is_netclass_flag_of(f, sexp@) && (has_label(sexp@) && has_properties(sexp@) && as_fixed(
                first_of(sexp@, "length"@),
            ) is Some),
            Err(e) => !(has_label(sexp@) && has_properties(sexp@) && as_fixed(
                first_of(sexp@, "length"@),
            ) is Some) && e.0 == ErrorKind::Sexp,
        },
{
    let Some(name) = sexp.get(0) else {
        return Err(missing("a flag has a name"));
    };
    let Some(length) = sexp.first_fixed("length") else {
        return Err(missing("length is mandatory"));
    };
    let pos = match read_pos(sexp) {
        Ok(p) => p,
        Err(e) => {
            return Err(e);
        },
    };
    let effects = match read_effects(sexp) {
        Ok(f) => f,
        Err(e) => {
            return Err(e);
        },
    };
    let props = match properties(sexp) {
        Ok(p) => p,
        Err(e) => {
            return Err(e);
        },
    };
    let Some(uuid) = sexp.first("uuid") else {
        return Err(missing("uuid is mandatory"));
    };
    Ok(
        NetclassFlag {
            length,
            name,
            shape: sexp.first("shape"),
            pos,
            fields_autoplaced: says_yes_or_nothing(sexp, "fields_autoplaced"),
            effects,
            props,
            uuid,
        },
    )
}

/// Whether a name is that of a node which gives an item of a schema.
pub open spec fn is_item_name(name: Seq<char>) -> bool {
    name == "junction"@ || name == "wire"@ || name == "bus"@ || name == "bus_entry"@ || name
        == "label"@ || name == "global_label"@ || name == "no_connect"@ || name == "symbol"@
        || name == "circle"@ || name == "polyline"@ || name == "rectangle"@ || name == "arc"@
        || name == "text"@ || name == "text_box"@ || name == "sheet"@ || name
        == "hierarchical_label"@ || name == "netclass_flag"@
}

/// Whether a name is that of a node which gives an item of a schema.
fn item_name(name: &str) -> (r: bool)
    ensures
        r == is_item_name(name@),
{
    crate::strings::str_eq(name, "junction") || crate::strings::str_eq(name, "wire")
        || crate::strings::str_eq(name, "bus") || crate::strings::str_eq(name, "bus_entry")
        || crate::strings::str_eq(name, "label") || crate::strings::str_eq(name, "global_label")
        || crate::strings::str_eq(name, "no_connect") || crate::strings::str_eq(name, "symbol")
        || crate::strings::str_eq(name, "circle") || crate::strings::str_eq(name, "polyline")
        || crate::strings::str_eq(name, "rectangle") || crate::strings::str_eq(name, "arc")
        || crate::strings::str_eq(name, "text") || crate::strings::str_eq(name, "text_box")
        || crate::strings::str_eq(name, "sheet") || crate::strings::str_eq(
        name,
        "hierarchical_label",
    ) || crate::strings::str_eq(name, "netclass_flag")
}

/// The child nodes that give an item of a schema, in order.
pub open spec fn item_nodes(nodes: Seq<crate::sexp::Atom>) -> Seq<Tree>
    decreases nodes.len(),
{
    if nodes.len() == 0 {
        Seq::empty()
    } else {
        match nodes.last() {
            crate::sexp::Atom::Node(t) => if is_item_name(t.name) {
                item_nodes(nodes.drop_last()).push(t)
            } else {
                item_nodes(nodes.drop_last())
            },
            _ => item_nodes(nodes.drop_last()),
        }
    }
}

/// The last child node with the name.
pub open spec fn last_named(nodes: Seq<crate::sexp::Atom>, q: Seq<char>) -> Option<Tree>
    decreases nodes.len(),
{
    if nodes.len() == 0 {
        None
    } else {
        match nodes.last() {
            crate::sexp::Atom::Node(t) => if t.name == q {
                Some(t)
            } else {
                last_named(nodes.drop_last(), q)
            },
            _ => last_named(nodes.drop_last(), q),
        }
    }
}

/// Whether an item is the one that a node gives, by the name of the node.
pub open spec fn is_item_of(item: SchemaItem, tree: Tree) -> bool {
    match item {
        SchemaItem::Junction(x) => tree.name == "junction"@ && is_junction_of(x, tree),
        SchemaItem::Wire(x) => tree.name == "wire"@ && is_wire_of(x, tree),
        SchemaItem::Bus(x) => tree.name == "bus"@ && is_bus_of(x, tree),
        SchemaItem::BusEntry(x) => tree.name == "bus_entry"@ && is_bus_entry_of(x, tree),
        SchemaItem::LocalLabel(x) => tree.name == "label"@ && is_local_label_of(x, tree),
        SchemaItem::GlobalLabel(x) => tree.name == "global_label"@ && is_global_label_of(x, tree),
        SchemaItem::NoConnect(x) => tree.name == "no_connect"@ && is_no_connect_of(x, tree),
        SchemaItem::Symbol(x) => tree.name == "symbol"@ && is_symbol_of(x, tree),
        SchemaItem::Circle(x) => tree.name == "circle"@ && is_circle_of(x, tree),
        SchemaItem::Polyline(x) => tree.name == "polyline"@ && is_path_of(
            x.pts,
            x.stroke,
            x.fill,
            x.uuid,
            tree,
        ),
        SchemaItem::Rectangle(x) => tree.name == "rectangle"@ && is_rectangle_of(x, tree),
        SchemaItem::Arc(x) => tree.name == "arc"@ && is_arc_of(x, tree),
        SchemaItem::Text(x) => tree.name == "text"@ && is_text_of(x, tree),
        SchemaItem::TextBox(x) => tree.name == "text_box"@ && is_text_box_of(x, tree),
        SchemaItem::HierarchicalSheet(x) => tree.name == "sheet"@ && is_sheet_of(x, tree),
        SchemaItem::HierarchicalLabel(x) => tree.name == "hierarchical_label"@
            && is_hierarchical_label_of(x, tree),
        SchemaItem::NetclassFlag(x) => tree.name == "netclass_flag"@ && is_netclass_flag_of(
            x,
            tree,
        ),
        SchemaItem::Curve(_) => false,
        SchemaItem::Line(_) => false,
    }
}

/// Whether a node gives the item that its name stands for.
pub open spec fn has_item(t: Tree) -> bool {
    if t.name == "junction"@ {
        has_junction(t)
    } else if t.name == "wire"@ {
        has_wire(t)
    } else if t.name == "bus"@ {
        has_wire(t)
    } else if t.name == "bus_entry"@ {
        (pos_of(t) is Some && size_of(t) is Some && stroke_of(t) is Some
            && first_of(t, "uuid"@) is Some)
    } else if t.name == "label"@ {
        has_label(t)
    } else if t.name == "global_label"@ {
        (has_label(t) && has_properties(t))
    } else if t.name == "no_connect"@ {
        has_junction(t)
    } else if t.name == "symbol"@ {
        has_symbol(t)
    } else if t.name == "circle"@ {
        has_circle(t)
    } else if t.name == "polyline"@ {
        has_path(t)
    } else if t.name == "rectangle"@ {
        has_rectangle(t)
    } else if t.name == "arc"@ {
        has_arc(t)
    } else if t.name == "text"@ {
        (has_text(t) && first_of(t, "uuid"@) is Some)
    } else if t.name == "text_box"@ {
        has_text_box(t)
    } else if t.name == "sheet"@ {
        has_sheet(t)
    } else if t.name == "hierarchical_label"@ {
        (has_label(t) && has_properties(t))
    } else {
        (has_label(t) && has_properties(t) && as_fixed(first_of(t, "length"@)) is Some)
    }
}

/// Reads a junction as an item.
fn item_junction(node: &Sexp) -> (r: Result<SchemaItem, Error>)
    requires
        node@.name == "junction"@,
    ensures
        match r {
            Ok(item) => is_item_of(item, node@) && has_junction(node@),
            Err(e) => !has_junction(node@) && e.0 == ErrorKind::Sexp,
        },
{
    match read_junction(node) {
        Ok(x) => Ok(SchemaItem::Junction(x)),
        Err(e) => Err(e),
    }
}

/// Reads a wire as an item.
fn item_wire(node: &Sexp) -> (r: Result<SchemaItem, Error>)
    requires
        node@.name == "wire"@,
    ensures
        match r {
            Ok(item) => is_item_of(item, node@) && has_wire(node@),
            Err(e) => !has_wire(node@) && e.0 == ErrorKind::Sexp,
        },
{
    match read_wire(node) {
        Ok(x) => Ok(SchemaItem::Wire(x)),
        Err(e) => Err(e),
    }
}

/// Reads a bus as an item.
fn item_bus(node: &Sexp) -> (r: Result<SchemaItem, Error>)
    requires
        node@.name == "bus"@,
    ensures
        match r {
            Ok(item) => is_item_of(item, node@) && has_wire(node@),
            Err(e) => !has_wire(node@) && e.0 == ErrorKind::Sexp,
        },
{
    match read_bus(node) {
        Ok(x) => Ok(SchemaItem::Bus(x)),
        Err(e) => Err(e),
    }
}

/// Reads a bus entry as an item.
fn item_bus_entry(node: &Sexp) -> (r: Result<SchemaItem, Error>)
    requires
        node@.name == "bus_entry"@,
    ensures
        match r {
            Ok(item) => is_item_of(item, node@) && (pos_of(node@) is Some && size_of(node@) is Some
                && stroke_of(node@) is Some && first_of(node@, "uuid"@) is Some),
            Err(e) => !(pos_of(node@) is Some && size_of(node@) is Some && stroke_of(node@) is Some
                && first_of(node@, "uuid"@) is Some) && e.0 == ErrorKind::Sexp,
        },
{
    match read_bus_entry(node) {
        Ok(x) => Ok(SchemaItem::BusEntry(x)),
        Err(e) => Err(e),
    }
}

/// Reads a local label as an item.
fn item_label(node: &Sexp) -> (r: Result<SchemaItem, Error>)
    requires
        node@.name == "label"@,
    ensures
        match r {
            Ok(item) => is_item_of(item, node@) && has_label(node@),
            Err(e) => !has_label(node@) && e.0 == ErrorKind::Sexp,
        },
{
    match read_local_label(node) {
        Ok(x) => Ok(SchemaItem::LocalLabel(x)),
        Err(e) => Err(e),
    }
}

/// Reads a global label as an item.
fn item_global_label(node: &Sexp) -> (r: Result<SchemaItem, Error>)
    requires
        node@.name == "global_label"@,
    ensures
        match r {
            Ok(item) => is_item_of(item, node@) && (has_label(node@) && has_properties(node@)),
            Err(e) => !(has_label(node@) && has_properties(node@)) && e.0 == ErrorKind::Sexp,
        },
{
    match read_global_label(node) {
        Ok(x) => Ok(SchemaItem::GlobalLabel(x)),
        Err(e) => Err(e),
    }
}

/// Reads a no-connect mark as an item.
fn item_no_connect(node: &Sexp) -> (r: Result<SchemaItem, Error>)
    requires
        node@.name == "no_connect"@,
    ensures
        match r {
            Ok(item) => is_item_of(item, node@) && has_junction(node@),
            Err(e) => !has_junction(node@) && e.0 == ErrorKind::Sexp,
        },
{
    match read_no_connect(node) {
        Ok(x) => Ok(SchemaItem::NoConnect(x)),
        Err(e) => Err(e),
    }
}

/// Reads a placed symbol as an item.
fn item_symbol(node: &Sexp) -> (r: Result<SchemaItem, Error>)
    requires
        node@.name == "symbol"@,
    ensures
        match r {
            Ok(item) => is_item_of(item, node@) && has_symbol(node@),
            Err(e) => !has_symbol(node@) && e.0 == ErrorKind::Sexp,
        },
{
    match read_symbol(node) {
        Ok(x) => Ok(SchemaItem::Symbol(x)),
        Err(e) => Err(e),
    }
}

/// Reads a circle as an item.
fn item_circle(node: &Sexp) -> (r: Result<SchemaItem, Error>)
    requires
        node@.name == "circle"@,
    ensures
        match r {
            Ok(item) => is_item_of(item, node@) && has_circle(node@),
            Err(e) => !has_circle(node@) && e.0 == ErrorKind::Sexp,
        },
{
    match read_circle(node) {
        Ok(x) => Ok(SchemaItem::Circle(x)),
        Err(e) => Err(e),
    }
}

/// Reads a polyline as an item.
fn item_polyline(node: &Sexp) -> (r: Result<SchemaItem, Error>)
    requires
        node@.name == "polyline"@,
    ensures
        match r {
            Ok(item) => is_item_of(item, node@) && has_path(node@),
            Err(e) => !has_path(node@) && e.0 == ErrorKind::Sexp,
        },
{
    match read_polyline(node) {
        Ok(x) => Ok(SchemaItem::Polyline(x)),
        Err(e) => Err(e),
    }
}

/// Reads a rectangle as an item.
fn item_rectangle(node: &Sexp) -> (r: Result<SchemaItem, Error>)
    requires
        node@.name == "rectangle"@,
    ensures
        match r {
            Ok(item) => is_item_of(item, node@) && has_rectangle(node@),
            Err(e) => !has_rectangle(node@) && e.0 == ErrorKind::Sexp,
        },
{
    match read_rectangle(node) {
        Ok(x) => Ok(SchemaItem::Rectangle(x)),
        Err(e) => Err(e),
    }
}

/// Reads an arc as an item.
fn item_arc(node: &Sexp) -> (r: Result<SchemaItem, Error>)
    requires
        node@.name == "arc"@,
    ensures
        match r {
            Ok(item) => is_item_of(item, node@) && has_arc(node@),
            Err(e) => !has_arc(node@) && e.0 == ErrorKind::Sexp,
        },
{
    match read_arc(node) {
        Ok(x) => Ok(SchemaItem::Arc(x)),
        Err(e) => Err(e),
    }
}

/// Reads a text as an item.
fn item_text(node: &Sexp) -> (r: Result<SchemaItem, Error>)
    requires
        node@.name == "text"@,
    ensures
        match r {
            Ok(item) => is_item_of(item, node@)
                && (has_text(node@) && first_of(node@, "uuid"@) is Some),
            Err(e) => !(has_text(node@) && first_of(node@, "uuid"@) is Some) && e.0 == ErrorKind::Sexp,
        },
{
    match read_text(node) {
        Ok(x) => Ok(SchemaItem::Text(x)),
        Err(e) => Err(e),
    }
}

/// Reads a text box as an item.
fn item_text_box(node: &Sexp) -> (r: Result<SchemaItem, Error>)
    requires
        node@.name == "text_box"@,
    ensures
        match r {
            Ok(item) => is_item_of(item, node@) && has_text_box(node@),
            Err(e) => !has_text_box(node@) && e.0 == ErrorKind::Sexp,
        },
{
    match read_text_box(node) {
        Ok(x) => Ok(SchemaItem::TextBox(x)),
        Err(e) => Err(e),
    }
}

/// Reads a sheet as an item.
fn item_sheet(node: &Sexp) -> (r: Result<SchemaItem, Error>)
    requires
        node@.name == "sheet"@,
    ensures
        match r {
            Ok(item) => is_item_of(item, node@) && has_sheet(node@),
            Err(e) => !has_sheet(node@) && e.0 == ErrorKind::Sexp,
        },
{
    match read_hierarchical_sheet(node) {
        Ok(x) => Ok(SchemaItem::HierarchicalSheet(x)),
        Err(e) => Err(e),
    }
}

/// Reads a hierarchical label as an item.
fn item_hierarchical_label(node: &Sexp) -> (r: Result<SchemaItem, Error>)
    requires
        node@.name == "hierarchical_label"@,
    ensures
        match r {
            Ok(item) => is_item_of(item, node@) && (has_label(node@) && has_properties(node@)),
            Err(e) => !(has_label(node@) && has_properties(node@)) && e.0 == ErrorKind::Sexp,
        },
{
    match read_hierarchical_label(node) {
        Ok(x) => Ok(SchemaItem::HierarchicalLabel(x)),
        Err(e) => Err(e),
    }
}

/// Reads a netclass flag as an item.
fn item_netclass_flag(node: &Sexp) -> (r: Result<SchemaItem, Error>)
    requires
        node@.name == "netclass_flag"@,
    ensures
        match r {
            Ok(item) => is_item_of(item, node@) && (has_label(node@) && has_properties(node@) && as_fixed(
                first_of(node@, "length"@),
            ) is Some),
            Err(e) => !(has_label(node@) && has_properties(node@) && as_fixed(
                first_of(node@, "length"@),
            ) is Some) && e.0 == ErrorKind::Sexp,
        },
{
    match read_netclass_flag(node) {
        Ok(x) => Ok(SchemaItem::NetclassFlag(x)),
        Err(e) => Err(e),
    }
}

/// Reads the item that a node gives, by the name of the node.
fn read_item(node: &Sexp) -> (r: Result<SchemaItem, Error>)
    requires
        is_item_name(node@.name),
    ensures
        match r {
            Ok(item) => is_item_of(item, node@) && has_item(node@),
            Err(e) => !has_item(node@) && e.0 == ErrorKind::Sexp,
        },
{
    let name = node.name.as_str();
    assert(node@.name == name@);
    if crate::strings::str_eq(name, "junction") {
        item_junction(node)
    } else if crate::strings::str_eq(name, "wire") {
        item_wire(node)
    } else if crate::strings::str_eq(name, "bus") {
        item_bus(node)
    } else if crate::strings::str_eq(name, "bus_entry") {
        item_bus_entry(node)
    } else if crate::strings::str_eq(name, "label") {
        item_label(node)
    } else if crate::strings::str_eq(name, "global_label") {
        item_global_label(node)
    } else if crate::strings::str_eq(name, "no_connect") {
        item_no_connect(node)
    } else if crate::strings::str_eq(name, "symbol") {
        item_symbol(node)
    } else if crate::strings::str_eq(name, "circle") {
        item_circle(node)
    } else if crate::strings::str_eq(name, "polyline") {
        item_polyline(node)
    } else if crate::strings::str_eq(name, "rectangle") {
        item_rectangle(node)
    } else if crate::strings::str_eq(name, "arc") {
        item_arc(node)
    } else if crate::strings::str_eq(name, "text") {
        item_text(node)
    } else if crate::strings::str_eq(name, "text_box") {
        item_text_box(node)
    } else if crate::strings::str_eq(name, "sheet") {
        item_sheet(node)
    } else if crate::strings::str_eq(name, "hierarchical_label") {
        item_hierarchical_label(node)
    } else {
        item_netclass_flag(node)
    }
}

/// Whether the library symbols are those that a `lib_symbols` node gives.
pub open spec fn are_library_symbols_of(libs: Seq<LibrarySymbol>, tree: Tree) -> bool {
    &&& libs.len() == named(tree.nodes, "symbol"@).len()
    &&& forall|i: int|
        0 <= i < libs.len() ==> is_library_symbol_of(
            #[trigger] libs[i],
            named(tree.nodes, "symbol"@)[i],
        )
}

/// Whether each `symbol` node of a `lib_symbols` node gives a library
/// symbol.
pub open spec fn have_library_symbols(tree: Tree) -> bool {
    forall|i: int|
        0 <= i < named(tree.nodes, "symbol"@).len() ==> has_library_symbol(
            #[trigger] named(tree.nodes, "symbol"@)[i],
        )
}

/// Reads the library symbols of a `lib_symbols` node.
fn read_library_symbols(node: &Sexp) -> (r: Result<Vec<LibrarySymbol>, Error>)
    ensures
        match r {
            Ok(libs) => are_library_symbols_of(libs@, node@) && have_library_symbols(node@),
            Err(e) => !have_library_symbols(node@) && e.0 == ErrorKind::Sexp,
        },
{
    let nodes = node.query("symbol");
    let ghost all = named(node@.nodes, "symbol"@);
    let mut libs: Vec<LibrarySymbol> = Vec::new();
    let mut i: usize = 0;
    while i < nodes.len()
        invariant
            i <= nodes.len(),
            nodes@.len() == all.len(),
            forall|k: int| 0 <= k < nodes@.len() ==> (#[trigger] nodes@[k])@ == all[k],
            libs@.len() == i,
            forall|k: int| 0 <= k < i ==> is_library_symbol_of(#[trigger] libs@[k], all[k]),
            forall|k: int| 0 <= k < i ==> has_library_symbol(#[trigger] all[k]),
            all == named(node@.nodes, "symbol"@),
        decreases nodes.len() - i,
    {
        assert(nodes@[i as int]@ == all[i as int]);
        match read_library_symbol(nodes[i]) {
            Ok(l) => libs.push(l),
            Err(e) => {
                assert(!has_library_symbol(all[i as int]));
                return Err(e);
            },
        }
        i += 1;
    }
    Ok(libs)
}

/// Whether the sheet instances are those that a `sheet_instances` node
/// gives: one instance, with the name of the `path` node and its page.
pub open spec fn are_sheet_instances_of(list: Seq<Instance>, tree: Tree) -> bool {
    &&& list.len() == 1
    &&& child(tree, "path"@) is Some
    &&& list[0].project@ == Seq::<char>::empty()
    &&& value_at(child(tree, "path"@)->0, 0) == Some(list[0].path@)
    &&& first_of(child(tree, "path"@)->0, "page"@) == Some(list[0].reference@)
    &&& list[0].unit == 0
}

/// Whether a `sheet_instances` node gives an instance: it has a `path`
/// node with a name and a page.
pub open spec fn has_sheet_instances(tree: Tree) -> bool {
    &&& child(tree, "path"@) is Some
    &&& value_at(child(tree, "path"@)->0, 0) is Some
    &&& first_of(child(tree, "path"@)->0, "page"@) is Some
}

/// Reads the sheet instances of a `sheet_instances` node.
fn read_sheet_instances(node: &Sexp) -> (r: Result<Vec<Instance>, Error>)
    ensures
        match r {
            Ok(list) => are_sheet_instances_of(list@, node@) && has_sheet_instances(node@),
            Err(e) => !has_sheet_instances(node@) && e.0 == ErrorKind::Sexp,
        },
{
    let Some(path) = child_of(node, "path") else {
        return Err(missing("path is mandatory"));
    };
    let Some(name) = path.get(0) else {
        return Err(missing("mandatory field"));
    };
    let Some(page) = path.first("page") else {
        return Err(missing("mandatory field"));
    };
    let mut list: Vec<Instance> = Vec::new();
    list.push(Instance { project: String::new(), path: name, reference: page, unit: 0 });
    Ok(list)
}

/// What a string field of a schema is: the first value of the last child
/// node with the name, or empty without such a node.
pub open spec fn field_of(tree: Tree, q: Seq<char>) -> Option<Seq<char>> {
    match last_named(tree.nodes, q) {
        Some(n) => value_at(n, 0),
        None => Some(Seq::empty()),
    }
}

/// The string fields of a schema.
pub struct Names {
    pub uuid: String,
    pub generator: String,
    pub version: String,
    pub generator_version: Option<String>,
    pub paper: PaperSize,
}

/// Whether the string fields are those that the child nodes give.
pub open spec fn are_names_of(n: Names, nodes: Seq<crate::sexp::Atom>) -> bool {
    let tree = Tree { name: Seq::empty(), nodes };
    &&& field_of(tree, "uuid"@) == Some(n.uuid@)
    &&& field_of(tree, "generator"@) == Some(n.generator@)
    &&& field_of(tree, "version"@) == Some(n.version@)
    &&& same_text(
        n.generator_version,
        match last_named(nodes, "generator_version"@) {
            Some(t) => value_at(t, 0),
            None => None,
        },
    )
    &&& n.paper == (match last_named(nodes, "paper"@) {
        Some(t) => PaperSize::from_name_spec(value_at(t, 0)->0),
        None => PaperSize::A4,
    })
}

/// Whether a child node of a schema that gives a string field has the
/// value that it needs. The version of the generator needs none.
pub open spec fn has_name(t: Tree) -> bool {
    (t.name == "uuid"@ || t.name == "generator"@ || t.name == "version"@ || t.name == "paper"@)
        ==> value_at(t, 0) is Some
}

/// Takes over the string field that a child node gives, if it gives one.
fn read_name(node: &Sexp, names: &mut Names, Ghost(before): Ghost<Seq<crate::sexp::Atom>>) -> (r:
    Result<(), Error>)
    requires
        are_names_of(*old(names), before),
    ensures
        match r {
            Ok(_) => are_names_of(*final(names), before.push(crate::sexp::Atom::Node(node@)))
                && has_name(node@),
            Err(e) => !has_name(node@) && e.0 == ErrorKind::Sexp,
        },
{
    let name = node.name.as_str();
    assert(node@.name == name@);
    let ghost now = before.push(crate::sexp::Atom::Node(node@));
    assert(now.drop_last() =~= before);
    if crate::strings::str_eq(name, "uuid") {
        let Some(v) = node.get(0) else {
            return Err(missing("uuid has a value"));
        };
        names.uuid = v;
    }
    if crate::strings::str_eq(name, "generator") {
        let Some(v) = node.get(0) else {
            return Err(missing("generator has a value"));
        };
        names.generator = v;
    }
    if crate::strings::str_eq(name, "version") {
        let Some(v) = node.get(0) else {
            return Err(missing("version has a value"));
        };
        names.version = v;
    }
    if crate::strings::str_eq(name, "generator_version") {
        names.generator_version = node.get(0);
    }
    if crate::strings::str_eq(name, "paper") {
        let Some(v) = node.get(0) else {
            return Err(missing("paper has a value"));
        };
        names.paper = PaperSize::from(&v);
    }
    Ok(())
}

/// The structured fields of a schema.
pub struct Parts {
    pub title_block: TitleBlock,
    pub library_symbols: Vec<LibrarySymbol>,
    pub sheet_instances: Vec<Instance>,
}

/// Whether the structured fields are those that the child nodes give.
pub open spec fn are_parts_of(p: Parts, nodes: Seq<crate::sexp::Atom>) -> bool {
    &&& (match last_named(nodes, "title_block"@) {
        Some(n) => is_title_block_of(p.title_block, n),
        None => p.title_block.title is None && p.title_block.date is None
            && p.title_block.revision is None && p.title_block.company_name is None
            && p.title_block.comment@.len() == 0,
    })
    &&& (match last_named(nodes, "lib_symbols"@) {
        Some(n) => are_library_symbols_of(p.library_symbols@, n),
        None => p.library_symbols@.len() == 0,
    })
    &&& (match last_named(nodes, "sheet_instances"@) {
        Some(n) => are_sheet_instances_of(p.sheet_instances@, n),
        None => p.sheet_instances@.len() == 0,
    })
}

/// Whether a child node of a schema that gives a structured field can be
/// read.
pub open spec fn has_part_of_schema(t: Tree) -> bool {
    &&& t.name == "title_block"@ ==> have_comments(named(t.nodes, "comment"@))
    &&& t.name == "lib_symbols"@ ==> have_library_symbols(t)
    &&& t.name == "sheet_instances"@ ==> has_sheet_instances(t)
}

/// Takes over the structured field that a child node gives, if it gives
/// one.
fn read_part(node: &Sexp, parts: &mut Parts, Ghost(before): Ghost<Seq<crate::sexp::Atom>>) -> (r:
    Result<(), Error>)
    requires
        are_parts_of(*old(parts), before),
    ensures
        match r {
            Ok(_) => are_parts_of(*final(parts), before.push(crate::sexp::Atom::Node(node@)))
                && has_part_of_schema(node@),
            Err(e) => !has_part_of_schema(node@) && e.0 == ErrorKind::Sexp,
        },
{
    let name = node.name.as_str();
    assert(node@.name == name@);
    let ghost now = before.push(crate::sexp::Atom::Node(node@));
    assert(now.drop_last() =~= before);
    if crate::strings::str_eq(name, "title_block") {
        match read_title_block(node) {
            Ok(tb) => {
                parts.title_block = tb;
            },
            Err(e) => {
                return Err(e);
            },
        }
    }
    if crate::strings::str_eq(name, "lib_symbols") {
        match read_library_symbols(node) {
            Ok(libs) => {
                parts.library_symbols = libs;
            },
            Err(e) => {
                return Err(e);
            },
        }
    }
    if crate::strings::str_eq(name, "sheet_instances") {
        match read_sheet_instances(node) {
            Ok(list) => {
                parts.sheet_instances = list;
            },
            Err(e) => {
                return Err(e);
            },
        }
    }
    Ok(())
}

/// Whether the items are those that the child nodes give.
pub open spec fn are_items_of(items: Seq<SchemaItem>, nodes: Seq<crate::sexp::Atom>) -> bool {
    &&& items.len() == item_nodes(nodes).len()
    &&& forall|k: int| 0 <= k < items.len() ==> is_item_of(#[trigger] items[k], item_nodes(nodes)[k])
}

/// Takes over the item that a child node gives, if it gives one.
fn read_next_item(
    node: &Sexp,
    items: &mut Vec<SchemaItem>,
    Ghost(before): Ghost<Seq<crate::sexp::Atom>>,
) -> (r: Result<(), Error>)
    requires
        are_items_of(old(items)@, before),
    ensures
        match r {
            Ok(_) => are_items_of(final(items)@, before.push(crate::sexp::Atom::Node(node@)))
                && (is_item_name(node@.name) ==> has_item(node@)),
            Err(e) => is_item_name(node@.name) && !has_item(node@) && e.0 == ErrorKind::Sexp,
        },
{
    let ghost now = before.push(crate::sexp::Atom::Node(node@));
    assert(now.drop_last() =~= before);
    if item_name(node.name.as_str()) {
        match read_item(node) {
            Ok(item) => items.push(item),
            Err(e) => {
                return Err(e);
            },
        }
    }
    Ok(())
}

/// Whether a schema is the one that a document gives. Of several nodes that
/// give one field, the last one counts.
pub open spec fn is_schema_of(s: Schema, tree: Tree) -> bool {
    &&& are_names_of(
        Names {
            uuid: s.uuid,
            generator: s.generator,
            version: s.version,
            generator_version: s.generator_version,
            paper: s.paper,
        },
        tree.nodes,
    )
    &&& are_parts_of(
        Parts {
            title_block: s.title_block,
            library_symbols: s.library_symbols,
            sheet_instances: s.sheet_instances,
        },
        tree.nodes,
    )
    &&& are_items_of(s.items@, tree.nodes)
    &&& s.project@ == Seq::<char>::empty()
    &&& s.grid == 0
    &&& s.last_pos == At::Pt(Pt { x: 0, y: 0 })
}

/// Whether a child node of a schema can be read: what it has to give by
/// its name, a field or an item, it gives.
pub open spec fn has_schema_node(t: Tree) -> bool {
    &&& has_name(t)
    &&& has_part_of_schema(t)
    &&& is_item_name(t.name) ==> has_item(t)
}

/// Whether a document gives a schema: each child node of its outermost
/// node can be read.
pub open spec fn has_schema(tree: Tree) -> bool {
    forall|i: int|
        0 <= i < tree.nodes.len() ==> ((#[trigger] tree.nodes[i]) matches crate::sexp::Atom::Node(
            t,
        ) ==> has_schema_node(t))
}

/// Reads a schema from a document: the fields and the items that the child
/// nodes of the outermost node give, in order. Child nodes with other names
/// are passed over.
///
/// Fails if a node that gives a field or an item lacks what it must have.
pub fn read_schema(tree: &SexpTree) -> (r: Result<Schema, Error>)
    ensures
        match r {
            Ok(s) => is_schema_of(s, tree.tree@) && has_schema(tree.tree@),
            Err(e) => !has_schema(tree.tree@) && e.0 == ErrorKind::Sexp,
        },
{
    let root = &tree.tree;
    let mut names = Names {
        uuid: String::new(),
        generator: String::new(),
        version: String::new(),
        generator_version: None,
        paper: PaperSize::A4,
    };
    let mut parts = Parts {
        title_block: TitleBlock::default(),
        library_symbols: Vec::new(),
        sheet_instances: Vec::new(),
    };
    let mut items: Vec<SchemaItem> = Vec::new();
    let ghost atoms = root@.nodes;
    let mut i: usize = 0;
    assert(atoms.take(0) =~= Seq::<crate::sexp::Atom>::empty());
    while i < root.nodes.len()
        invariant
            i <= root.nodes.len(),
            atoms == root@.nodes,
            atoms.len() == root.nodes@.len(),
            *root == tree.tree,
            are_names_of(names, atoms.take(i as int)),
            are_parts_of(parts, atoms.take(i as int)),
            are_items_of(items@, atoms.take(i as int)),
            forall|k: int|
                0 <= k < i ==> ((#[trigger] atoms[k]) matches crate::sexp::Atom::Node(t)
                    ==> has_schema_node(t)),
        decreases root.nodes.len() - i,
    {
        assert(atoms[i as int] == root.nodes@[i as int]@);
        let ghost before = atoms.take(i as int);
        assert(atoms.take(i + 1) =~= before.push(atoms[i as int]));
        if let crate::sexp::SexpAtom::Node(node) = &root.nodes[i] {
            match read_name(node, &mut names, Ghost(before)) {
                Ok(_) => {},
                Err(e) => {
                    assert(!has_schema_node(atoms[i as int]->Node_0));
                    return Err(e);
                },
            }
            match read_part(node, &mut parts, Ghost(before)) {
                Ok(_) => {},
                Err(e) => {
                    assert(!has_schema_node(atoms[i as int]->Node_0));
                    return Err(e);
                },
            }
            match read_next_item(node, &mut items, Ghost(before)) {
                Ok(_) => {},
                Err(e) => {
                    assert(!has_schema_node(atoms[i as int]->Node_0));
                    return Err(e);
                },
            }
            assert(has_schema_node(atoms[i as int]->Node_0));
        } else {
            assert(atoms.take(i + 1).drop_last() =~= before);
        }
        i += 1;
    }
    assert(atoms.take(i as int) =~= atoms);
    Ok(
        Schema {
            project: String::new(),
            version: names.version,
            uuid: names.uuid,
            generator: names.generator,
            generator_version: names.generator_version,
            paper: names.paper,
            title_block: parts.title_block,
            library_symbols: parts.library_symbols,
            items,
            sheet_instances: parts.sheet_instances,
            grid: 0,
            last_pos: At::Pt(Pt { x: 0, y: 0 }),
        },
    )
}

} // verus!
