//! Drawers for building schemas.

use crate::gr::{Justify, Pos, Pt, Pts};
use crate::schema::{
    resolve, GlobalLabel, Instance, Junction, LocalLabel, NoConnect, SchemaItem, Symbol, Wire,
};
use crate::symbols::{LibrarySymbol, Pin};
use crate::{Error, ErrorKind, Plot, Schema};
use vstd::prelude::*;

verus! {

/// Attributes for the elements.
#[derive(Debug, Clone, PartialEq)]
pub enum Attribute {
    Anchor(String),
    Direction(Direction),
    Id(String),
    Mirror(String),
    Length(i32),
    Rotate(i32),
    Tox(At),
    Toy(At),
    Property(String),
    Dot(Vec<DotPosition>),
    At(At),
    Unit(u8),
}

/// Dot position
#[derive(Debug, Clone, Copy, PartialEq, Eq, Structural)]
pub enum DotPosition {
    Start,
    End,
}

/// Direction enum
#[derive(Debug, Clone, Copy, PartialEq, Eq, Structural)]
pub enum Direction {
    Left,
    Right,
    Up,
    Down,
}

impl Default for Direction {
    fn default() -> (d: Self)
        ensures
            d == Direction::Left,
    {
        Direction::Left
    }
}

/// Represents different position identifiers
///
/// Points can be different things.
/// - the coordinates of a point.
/// - the coordinates of a pin.
/// - The coordinates of a previous element.
#[derive(Debug, PartialEq)]
pub enum At {
    /// A simple point with x and y.
    Pt(Pt),
    /// The position of a `Pin` by reference and pin number.
    Pin(String, String),
    /// The position of a dot, by name.
    Dot(String),
}

impl Clone for At {
    fn clone(&self) -> (r: Self)
        ensures
            r == *self,
    {
        match self {
            At::Pt(p) => At::Pt(*p),
            At::Pin(reference, number) => At::Pin(reference.clone(), number.clone()),
            At::Dot(name) => At::Dot(name.clone()),
        }
    }
}

impl Default for At {
    fn default() -> (a: Self)
        ensures
            a == At::Pt(Pt { x: 0, y: 0 }),
    {
        At::Pt(Pt { x: 0, y: 0 })
    }
}

/// Draw a Wire from the actual posistion to position.
#[derive(Debug, Clone, PartialEq)]
pub struct To {
    /// The Attributes.
    pub attributes: Vec<Attribute>,
}

/// Whether `i` is the place of the first attribute that `pick` accepts.
pub open spec fn first_attr(
    attrs: Seq<Attribute>,
    pick: spec_fn(Attribute) -> bool,
    i: int,
) -> bool {
    &&& 0 <= i < attrs.len()
    &&& pick(attrs[i])
    &&& forall|j: int| 0 <= j < i ==> !pick(#[trigger] attrs[j])
}

/// Whether `pick` accepts no attribute.
pub open spec fn no_attr(attrs: Seq<Attribute>, pick: spec_fn(Attribute) -> bool) -> bool {
    forall|j: int| 0 <= j < attrs.len() ==> !pick(#[trigger] attrs[j])
}

/// The first attribute that `pick` accepts.
pub open spec fn first_picked(attrs: Seq<Attribute>, pick: spec_fn(Attribute) -> bool) -> Option<
    Attribute,
>
    decreases attrs.len(),
{
    if attrs.len() == 0 {
        None
    } else if pick(attrs[0]) {
        Some(attrs[0])
    } else {
        first_picked(attrs.drop_first(), pick)
    }
}

/// The first attribute that `pick` accepts is at the first place where
/// `pick` accepts one.
pub proof fn lemma_first_picked(attrs: Seq<Attribute>, pick: spec_fn(Attribute) -> bool, i: int)
    requires
        first_attr(attrs, pick, i),
    ensures
        first_picked(attrs, pick) == Some(attrs[i]),
    decreases i,
{
    if i > 0 {
        assert(!pick(attrs[0]));
        assert forall|j: int| 0 <= j < i - 1 implies !pick(#[trigger] attrs.drop_first()[j]) by {
            assert(attrs.drop_first()[j] == attrs[j + 1]);
        }
        lemma_first_picked(attrs.drop_first(), pick, i - 1);
    }
}

/// Where `pick` accepts no attribute there is no first one.
pub proof fn lemma_none_picked(attrs: Seq<Attribute>, pick: spec_fn(Attribute) -> bool)
    requires
        no_attr(attrs, pick),
    ensures
        first_picked(attrs, pick) is None,
    decreases attrs.len(),
{
    if attrs.len() > 0 {
        assert(!pick(attrs[0]));
        assert forall|j: int| 0 <= j < attrs.len() - 1 implies !pick(
            #[trigger] attrs.drop_first()[j],
        ) by {
            assert(attrs.drop_first()[j] == attrs[j + 1]);
        }
        lemma_none_picked(attrs.drop_first(), pick);
    }
}

/// The position that the attributes give: that of the first `At`.
pub open spec fn at_of(attrs: Seq<Attribute>) -> Option<At> {
    match first_picked(attrs, |x: Attribute| x is At) {
        Some(Attribute::At(a)) => Some(a),
        _ => None,
    }
}

/// The anchor pin that the attributes give.
pub open spec fn anchor_of(attrs: Seq<Attribute>) -> Option<String> {
    match first_picked(attrs, |x: Attribute| x is Anchor) {
        Some(Attribute::Anchor(a)) => Some(a),
        _ => None,
    }
}

/// The mirror axis that the attributes give.
pub open spec fn mirror_of(attrs: Seq<Attribute>) -> Option<String> {
    match first_picked(attrs, |x: Attribute| x is Mirror) {
        Some(Attribute::Mirror(a)) => Some(a),
        _ => None,
    }
}

/// The angle that the attributes give.
pub open spec fn angle_of(attrs: Seq<Attribute>) -> Option<i32> {
    match first_picked(attrs, |x: Attribute| x is Rotate) {
        Some(Attribute::Rotate(a)) => Some(a),
        _ => None,
    }
}

/// The length that the attributes give.
pub open spec fn length_of(attrs: Seq<Attribute>) -> Option<i32> {
    match first_picked(attrs, |x: Attribute| x is Length) {
        Some(Attribute::Length(a)) => Some(a),
        _ => None,
    }
}

/// The direction that the attributes give: left if they give none.
pub open spec fn direction_of(attrs: Seq<Attribute>) -> Direction {
    match first_picked(attrs, |x: Attribute| x is Direction) {
        Some(Attribute::Direction(a)) => a,
        _ => Direction::Left,
    }
}

/// The position whose x the attributes give as the target.
pub open spec fn tox_of(attrs: Seq<Attribute>) -> Option<At> {
    match first_picked(attrs, |x: Attribute| x is Tox) {
        Some(Attribute::Tox(a)) => Some(a),
        _ => None,
    }
}

/// The position whose y the attributes give as the target.
pub open spec fn toy_of(attrs: Seq<Attribute>) -> Option<At> {
    match first_picked(attrs, |x: Attribute| x is Toy) {
        Some(Attribute::Toy(a)) => Some(a),
        _ => None,
    }
}

/// The unit that the attributes give.
pub open spec fn unit_attr_of(attrs: Seq<Attribute>) -> Option<u8> {
    match first_picked(attrs, |x: Attribute| x is Unit) {
        Some(Attribute::Unit(a)) => Some(a),
        _ => None,
    }
}

impl To {
    /// Create a new empty To.
    pub fn new() -> (t: Self)
        ensures
            t.attributes@.len() == 0,
    {
        Self { attributes: Vec::new() }
    }

    /// Adds an attribute behind those that are there.
    pub fn push(&mut self, attr: Attribute)
        ensures
            final(self).attributes@ == old(self).attributes@.push(attr),
    {
        self.attributes.push(attr);
    }

    /// Get the position attribute: the first one.
    pub fn at(&self) -> (r: Option<At>)
        ensures
            r == at_of(self.attributes@),
            match r {
                Some(a) => exists|i: int|
                    first_attr(self.attributes@, |x: Attribute| x is At, i)
                        && self.attributes@[i] == Attribute::At(a),
                None => no_attr(self.attributes@, |x: Attribute| x is At),
            },
    {
        let mut i: usize = 0;
        while i < self.attributes.len()
            invariant
                i <= self.attributes.len(),
                forall|j: int| 0 <= j < i ==> !(#[trigger] self.attributes@[j] is At),
            decreases self.attributes.len() - i,
        {
            if let Attribute::At(to) = &self.attributes[i] {
                assert(first_attr(self.attributes@, |x: Attribute| x is At, i as int));
                proof {
                    lemma_first_picked(self.attributes@, |x: Attribute| x is At, i as int);
                }
                return Some(to.clone());
            }
            i += 1;
        }
        proof {
            lemma_none_picked(self.attributes@, |x: Attribute| x is At);
        }
        None
    }

    /// Get the anchor attribute: the first one.
    pub fn anchor(&self) -> (r: Option<String>)
        ensures
            r == anchor_of(self.attributes@),
            match r {
                Some(a) => exists|i: int|
                    first_attr(self.attributes@, |x: Attribute| x is Anchor, i)
                        && self.attributes@[i] == Attribute::Anchor(a),
                None => no_attr(self.attributes@, |x: Attribute| x is Anchor),
            },
    {
        let mut i: usize = 0;
        while i < self.attributes.len()
            invariant
                i <= self.attributes.len(),
                forall|j: int| 0 <= j < i ==> !(#[trigger] self.attributes@[j] is Anchor),
            decreases self.attributes.len() - i,
        {
            if let Attribute::Anchor(pin) = &self.attributes[i] {
                assert(first_attr(self.attributes@, |x: Attribute| x is Anchor, i as int));
                proof {
                    lemma_first_picked(self.attributes@, |x: Attribute| x is Anchor, i as int);
                }
                return Some(pin.clone());
            }
            i += 1;
        }
        proof {
            lemma_none_picked(self.attributes@, |x: Attribute| x is Anchor);
        }
        None
    }

    /// Get the mirror attribute: the first one.
    pub fn mirror(&self) -> (r: Option<String>)
        ensures
            r == mirror_of(self.attributes@),
            match r {
                Some(a) => exists|i: int|
                    first_attr(self.attributes@, |x: Attribute| x is Mirror, i)
                        && self.attributes@[i] == Attribute::Mirror(a),
                None => no_attr(self.attributes@, |x: Attribute| x is Mirror),
            },
    {
        let mut i: usize = 0;
        while i < self.attributes.len()
            invariant
                i <= self.attributes.len(),
                forall|j: int| 0 <= j < i ==> !(#[trigger] self.attributes@[j] is Mirror),
            decreases self.attributes.len() - i,
        {
            if let Attribute::Mirror(m) = &self.attributes[i] {
                assert(first_attr(self.attributes@, |x: Attribute| x is Mirror, i as int));
                proof {
                    lemma_first_picked(self.attributes@, |x: Attribute| x is Mirror, i as int);
                }
                return Some(m.clone());
            }
            i += 1;
        }
        proof {
            lemma_none_picked(self.attributes@, |x: Attribute| x is Mirror);
        }
        None
    }

    /// Get the angle attribute: the first one.
    pub fn angle(&self) -> (r: Option<i32>)
        ensures
            r == angle_of(self.attributes@),
            match r {
                Some(a) => exists|i: int|
                    first_attr(self.attributes@, |x: Attribute| x is Rotate, i)
                        && self.attributes@[i] == Attribute::Rotate(a),
                None => no_attr(self.attributes@, |x: Attribute| x is Rotate),
            },
    {
        let mut i: usize = 0;
        while i < self.attributes.len()
            invariant
                i <= self.attributes.len(),
                forall|j: int| 0 <= j < i ==> !(#[trigger] self.attributes@[j] is Rotate),
            decreases self.attributes.len() - i,
        {
            if let Attribute::Rotate(angle) = &self.attributes[i] {
                assert(first_attr(self.attributes@, |x: Attribute| x is Rotate, i as int));
                proof {
                    lemma_first_picked(self.attributes@, |x: Attribute| x is Rotate, i as int);
                }
                return Some(*angle);
            }
            i += 1;
        }
        proof {
            lemma_none_picked(self.attributes@, |x: Attribute| x is Rotate);
        }
        None
    }

    /// Get the length attribute: the first one.
    pub fn length(&self) -> (r: Option<i32>)
        ensures
            r == length_of(self.attributes@),
            match r {
                Some(a) => exists|i: int|
                    first_attr(self.attributes@, |x: Attribute| x is Length, i)
                        && self.attributes@[i] == Attribute::Length(a),
                None => no_attr(self.attributes@, |x: Attribute| x is Length),
            },
    {
        let mut i: usize = 0;
        while i < self.attributes.len()
            invariant
                i <= self.attributes.len(),
                forall|j: int| 0 <= j < i ==> !(#[trigger] self.attributes@[j] is Length),
            decreases self.attributes.len() - i,
        {
            if let Attribute::Length(length) = &self.attributes[i] {
                assert(first_attr(self.attributes@, |x: Attribute| x is Length, i as int));
                proof {
                    lemma_first_picked(self.attributes@, |x: Attribute| x is Length, i as int);
                }
                return Some(*length);
            }
            i += 1;
        }
        proof {
            lemma_none_picked(self.attributes@, |x: Attribute| x is Length);
        }
        None
    }

    /// Get the direction: the first one, or `Left` if there is none.
    pub fn direction(&self) -> (r: Direction)
        ensures
            r == direction_of(self.attributes@),
            (exists|i: int|
                first_attr(self.attributes@, |x: Attribute| x is Direction, i)
                    && self.attributes@[i] == Attribute::Direction(r)) || (no_attr(
                self.attributes@,
                |x: Attribute| x is Direction,
            ) && r == Direction::Left),
    {
        let mut i: usize = 0;
        while i < self.attributes.len()
            invariant
                i <= self.attributes.len(),
                forall|j: int| 0 <= j < i ==> !(#[trigger] self.attributes@[j] is Direction),
            decreases self.attributes.len() - i,
        {
            if let Attribute::Direction(direction) = &self.attributes[i] {
                assert(first_attr(self.attributes@, |x: Attribute| x is Direction, i as int));
                proof {
                    lemma_first_picked(self.attributes@, |x: Attribute| x is Direction, i as int);
                }
                return *direction;
            }
            i += 1;
        }
        proof {
            lemma_none_picked(self.attributes@, |x: Attribute| x is Direction);
        }
        Direction::Left
    }

    /// Get the tox position: the first one.
    pub fn tox(&self) -> (r: Option<&At>)
        ensures
            match r {
                Some(a) => tox_of(self.attributes@) == Some(*a),
                None => tox_of(self.attributes@) is None,
            },
            match r {
                Some(a) => exists|i: int|
                    first_attr(self.attributes@, |x: Attribute| x is Tox, i)
                        && self.attributes@[i] == Attribute::Tox(*a),
                None => no_attr(self.attributes@, |x: Attribute| x is Tox),
            },
    {
        let mut i: usize = 0;
        while i < self.attributes.len()
            invariant
                i <= self.attributes.len(),
                forall|j: int| 0 <= j < i ==> !(#[trigger] self.attributes@[j] is Tox),
            decreases self.attributes.len() - i,
        {
            if let Attribute::Tox(at) = &self.attributes[i] {
                assert(first_attr(self.attributes@, |x: Attribute| x is Tox, i as int));
                proof {
                    lemma_first_picked(self.attributes@, |x: Attribute| x is Tox, i as int);
                }
                return Some(at);
            }
            i += 1;
        }
        proof {
            lemma_none_picked(self.attributes@, |x: Attribute| x is Tox);
        }
        None
    }

    /// Get the toy position: the first one.
    pub fn toy(&self) -> (r: Option<&At>)
        ensures
            match r {
                Some(a) => toy_of(self.attributes@) == Some(*a),
                None => toy_of(self.attributes@) is None,
            },
            match r {
                Some(a) => exists|i: int|
                    first_attr(self.attributes@, |x: Attribute| x is Toy, i)
                        && self.attributes@[i] == Attribute::Toy(*a),
                None => no_attr(self.attributes@, |x: Attribute| x is Toy),
            },
    {
        let mut i: usize = 0;
        while i < self.attributes.len()
            invariant
                i <= self.attributes.len(),
                forall|j: int| 0 <= j < i ==> !(#[trigger] self.attributes@[j] is Toy),
            decreases self.attributes.len() - i,
        {
            if let Attribute::Toy(at) = &self.attributes[i] {
                assert(first_attr(self.attributes@, |x: Attribute| x is Toy, i as int));
                proof {
                    lemma_first_picked(self.attributes@, |x: Attribute| x is Toy, i as int);
                }
                return Some(at);
            }
            i += 1;
        }
        proof {
            lemma_none_picked(self.attributes@, |x: Attribute| x is Toy);
        }
        None
    }

    /// Get unit, only used for symbols: the first one.
    pub fn unit(&self) -> (r: Option<u8>)
        ensures
            r == unit_attr_of(self.attributes@),
            match r {
                Some(a) => exists|i: int|
                    first_attr(self.attributes@, |x: Attribute| x is Unit, i)
                        && self.attributes@[i] == Attribute::Unit(a),
                None => no_attr(self.attributes@, |x: Attribute| x is Unit),
            },
    {
        let mut i: usize = 0;
        while i < self.attributes.len()
            invariant
                i <= self.attributes.len(),
                forall|j: int| 0 <= j < i ==> !(#[trigger] self.attributes@[j] is Unit),
            decreases self.attributes.len() - i,
        {
            if let Attribute::Unit(unit) = &self.attributes[i] {
                assert(first_attr(self.attributes@, |x: Attribute| x is Unit, i as int));
                proof {
                    lemma_first_picked(self.attributes@, |x: Attribute| x is Unit, i as int);
                }
                return Some(*unit);
            }
            i += 1;
        }
        proof {
            lemma_none_picked(self.attributes@, |x: Attribute| x is Unit);
        }
        None
    }

    /// Get the dot positions: the first list.
    pub fn dot(&self) -> (r: Option<&Vec<DotPosition>>)
        ensures
            match r {
                Some(a) => exists|i: int|
                    first_attr(self.attributes@, |x: Attribute| x is Dot, i)
                        && self.attributes@[i] == Attribute::Dot(*a),
                None => no_attr(self.attributes@, |x: Attribute| x is Dot),
            },
    {
        let mut i: usize = 0;
        while i < self.attributes.len()
            invariant
                i <= self.attributes.len(),
                forall|j: int| 0 <= j < i ==> !(#[trigger] self.attributes@[j] is Dot),
            decreases self.attributes.len() - i,
        {
            if let Attribute::Dot(dot) = &self.attributes[i] {
                assert(first_attr(self.attributes@, |x: Attribute| x is Dot, i as int));
                return Some(dot);
            }
            i += 1;
        }
        None
    }
}

impl Default for To {
    fn default() -> (t: Self)
        ensures
            t.attributes@.len() == 0,
    {
        Self::new()
    }
}

/// Access attributes of the drawable elements.
pub trait Drawable<F> {
    /// The element with one more attribute.
    fn attr(self, attr: Attribute) -> F;
}

/// Creat a schema or pcb file from code.
pub trait Drawer<T> {
    /// Places the item on the drawing.
    fn draw(&mut self, item: T) -> Result<(), Error>;
}

impl Drawable<LocalLabel> for LocalLabel {
    fn attr(self, attr: Attribute) -> (r: LocalLabel)
        ensures
            r.attrs.attributes@ == self.attrs.attributes@.push(attr),
            r.text == self.text,
            r.pos == self.pos,
            r.effects == self.effects,
            r.color == self.color,
            r.uuid == self.uuid,
            r.fields_autoplaced == self.fields_autoplaced,
    {
        let mut r = self;
        r.attrs.push(attr);
        r
    }
}

impl Drawable<GlobalLabel> for GlobalLabel {
    fn attr(self, attr: Attribute) -> (r: GlobalLabel)
        ensures
            r.attrs.attributes@ == self.attrs.attributes@.push(attr),
            r.text == self.text,
            r.shape == self.shape,
            r.pos == self.pos,
            r.fields_autoplaced == self.fields_autoplaced,
            r.effects == self.effects,
            r.props == self.props,
            r.uuid == self.uuid,
    {
        let mut r = self;
        r.attrs.push(attr);
        r
    }
}

impl Drawable<Wire> for Wire {
    fn attr(self, attr: Attribute) -> (r: Wire)
        ensures
            r.attrs.attributes@ == self.attrs.attributes@.push(attr),
            r.pts == self.pts,
            r.stroke == self.stroke,
            r.uuid == self.uuid,
    {
        let mut r = self;
        r.attrs.push(attr);
        r
    }
}

impl Drawable<Symbol> for Symbol {
    fn attr(self, attr: Attribute) -> (r: Symbol)
        ensures
            r.attrs.attributes@ == self.attrs.attributes@.push(attr),
            r.lib_id == self.lib_id,
            r.pos == self.pos,
            r.mirror == self.mirror,
            r.unit == self.unit,
            r.in_bom == self.in_bom,
            r.on_board == self.on_board,
            r.exclude_from_sim == self.exclude_from_sim,
            r.dnp == self.dnp,
            r.uuid == self.uuid,
            r.props == self.props,
            r.pins == self.pins,
            r.instances == self.instances,
    {
        let mut r = self;
        r.attrs.push(attr);
        r
    }
}

impl Drawable<NoConnect> for NoConnect {
    fn attr(self, attr: Attribute) -> (r: NoConnect)
        ensures
            r.attrs.attributes@ == self.attrs.attributes@.push(attr),
            r.pos == self.pos,
            r.uuid == self.uuid,
    {
        let mut r = self;
        r.attrs.push(attr);
        r
    }
}

/// The point at which an item is drawn: the position that its attributes
/// give, or else the position of the cursor.
pub open spec fn draw_point(schema: Schema, attrs: Seq<Attribute>) -> Result<Pt, ErrorKind> {
    match at_of(attrs) {
        Some(at) => resolve(schema, at),
        None => resolve(schema, schema.last_pos),
    }
}

/// Whether `after` is `before` with one more item and the cursor at
/// `last_pos`.
pub open spec fn drawn(after: Schema, before: Schema, item: SchemaItem, last_pos: At) -> bool {
    &&& after.items@ == before.items@.push(item)
    &&& after.last_pos == last_pos
    &&& after.project == before.project
    &&& after.version == before.version
    &&& after.uuid == before.uuid
    &&& after.generator == before.generator
    &&& after.generator_version == before.generator_version
    &&& after.paper == before.paper
    &&& after.title_block == before.title_block
    &&& after.library_symbols == before.library_symbols
    &&& after.sheet_instances == before.sheet_instances
    &&& after.grid == before.grid
}

/// The justification of a label at an angle: the text is read from the left
/// at 0 and 90 degrees, from the right at 180 and 270 degrees; at any other
/// angle the label keeps its justification.
pub open spec fn label_justify(angle: i32, before: Seq<Justify>) -> Seq<Justify> {
    if angle == 0 || angle == 900000 {
        seq![Justify::Left, Justify::Bottom]
    } else if angle == 1800000 || angle == 2700000 {
        seq![Justify::Right, Justify::Bottom]
    } else {
        before
    }
}

impl Schema {
    /// The point at which an item with the attributes is drawn.
    pub fn draw_at(&self, attrs: &To) -> (r: Result<Pt, Error>)
        ensures
            match r {
                Ok(p) => draw_point(*self, attrs.attributes@) == Ok::<Pt, ErrorKind>(p),
                Err(e) => draw_point(*self, attrs.attributes@) == Err::<Pt, ErrorKind>(e.0),
            },
    {
        match attrs.at() {
            Some(at) => self.get_pt(&at),
            None => self.get_pt(&self.last_pos),
        }
    }
}

impl Drawer<LocalLabel> for Schema {
    /// Draws a label at the position that its attributes give or at the
    /// cursor, with the angle that they give, and moves the cursor there.
    fn draw(&mut self, label: LocalLabel) -> (r: Result<(), Error>)
        ensures
            match r {
                Ok(_) => {
                    let p = draw_point(*old(self), label.attrs.attributes@)->Ok_0;
                    let l = final(self).items@.last()->LocalLabel_0;
                    &&& draw_point(*old(self), label.attrs.attributes@) is Ok
                    &&& final(self).items@.last() is LocalLabel
                    &&& drawn(*final(self), *old(self), SchemaItem::LocalLabel(l), At::Pt(p))
                    &&& l.text == label.text
                    &&& l.pos == (Pos {
                        x: p.x,
                        y: p.y,
                        angle: match angle_of(label.attrs.attributes@) {
                            Some(a) => a,
                            None => label.pos.angle,
                        },
                    })
                    &&& l.effects.justify@ == label_justify(l.pos.angle, label.effects.justify@)
                    &&& l.effects.font == label.effects.font
                    &&& l.effects.hide == label.effects.hide
                    &&& l.color == label.color
                    &&& l.uuid == label.uuid
                    &&& l.fields_autoplaced == label.fields_autoplaced
                    &&& l.attrs == label.attrs
                },
                Err(e) => draw_point(*old(self), label.attrs.attributes@) == Err::<Pt, ErrorKind>(
                    e.0,
                ) && *final(self) == *old(self),
            },
    {
        let mut placed = label;
        let pt = match self.draw_at(&placed.attrs) {
            Ok(p) => p,
            Err(e) => {
                return Err(e);
            },
        };
        placed.pos.x = pt.x;
        placed.pos.y = pt.y;
        if let Some(angle) = placed.attrs.angle() {
            placed.pos.angle = angle;
        }
        if placed.pos.angle == 0 || placed.pos.angle == 900000 {
            let mut justify: Vec<Justify> = Vec::new();
            justify.push(Justify::Left);
            justify.push(Justify::Bottom);
            assert(justify@ =~= seq![Justify::Left, Justify::Bottom]);
            placed.effects.justify = justify;
        } else if placed.pos.angle == 1800000 || placed.pos.angle == 2700000 {
            let mut justify: Vec<Justify> = Vec::new();
            justify.push(Justify::Right);
            justify.push(Justify::Bottom);
            assert(justify@ =~= seq![Justify::Right, Justify::Bottom]);
            placed.effects.justify = justify;
        }
        let ghost l = placed;
        self.items.push(SchemaItem::LocalLabel(placed));
        self.last_pos = At::Pt(pt);
        assert(drawn(*self, *old(self), SchemaItem::LocalLabel(l), At::Pt(pt)));
        assert(l.effects.justify@ == label_justify(l.pos.angle, label.effects.justify@));
        Ok(())
    }
}

impl Drawer<GlobalLabel> for Schema {
    /// Draws a global label at the cursor, which stays where it is.
    fn draw(&mut self, label: GlobalLabel) -> (r: Result<(), Error>)
        ensures
            match r {
                Ok(_) => {
                    let p = resolve(*old(self), old(self).last_pos)->Ok_0;
                    let l = final(self).items@.last()->GlobalLabel_0;
                    &&& resolve(*old(self), old(self).last_pos) is Ok
                    &&& final(self).items@.last() is GlobalLabel
                    &&& drawn(*final(self), *old(self), SchemaItem::GlobalLabel(l), old(self).last_pos)
                    &&& l.pos == (Pos { x: p.x, y: p.y, angle: label.pos.angle })
                    &&& l.text == label.text
                    &&& l.shape == label.shape
                    &&& l.fields_autoplaced == label.fields_autoplaced
                    &&& l.effects == label.effects
                    &&& l.props == label.props
                    &&& l.uuid == label.uuid
                    &&& l.attrs == label.attrs
                },
                Err(e) => resolve(*old(self), old(self).last_pos) == Err::<Pt, ErrorKind>(e.0)
                    && *final(self) == *old(self),
            },
    {
        let mut placed = label;
        let pt = match self.get_pt(&self.last_pos) {
            Ok(p) => p,
            Err(e) => {
                return Err(e);
            },
        };
        placed.pos.x = pt.x;
        placed.pos.y = pt.y;
        let ghost l = placed;
        self.items.push(SchemaItem::GlobalLabel(placed));
        assert(drawn(*self, *old(self), SchemaItem::GlobalLabel(l), old(self).last_pos));
        Ok(())
    }
}

impl Drawer<Junction> for Schema {
    /// Draws a junction at the cursor, which stays where it is.
    fn draw(&mut self, junction: Junction) -> (r: Result<(), Error>)
        ensures
            match r {
                Ok(_) => {
                    let p = resolve(*old(self), old(self).last_pos)->Ok_0;
                    let j = final(self).items@.last()->Junction_0;
                    &&& resolve(*old(self), old(self).last_pos) is Ok
                    &&& final(self).items@.last() is Junction
                    &&& drawn(*final(self), *old(self), SchemaItem::Junction(j), old(self).last_pos)
                    &&& j.pos == (Pos { x: p.x, y: p.y, angle: 0 })
                    &&& j.diameter == junction.diameter
                    &&& j.color == junction.color
                    &&& j.uuid == junction.uuid
                },
                Err(e) => resolve(*old(self), old(self).last_pos) == Err::<Pt, ErrorKind>(e.0)
                    && *final(self) == *old(self),
            },
    {
        let mut placed = junction;
        let pt = match self.get_pt(&self.last_pos) {
            Ok(p) => p,
            Err(e) => {
                return Err(e);
            },
        };
        placed.pos = Pos { x: pt.x, y: pt.y, angle: 0 };
        let ghost j = placed;
        self.items.push(SchemaItem::Junction(placed));
        assert(drawn(*self, *old(self), SchemaItem::Junction(j), old(self).last_pos));
        Ok(())
    }
}

impl Drawer<NoConnect> for Schema {
    /// Draws a no-connect mark at the position that its attributes give or
    /// at the cursor, and moves the cursor there.
    fn draw(&mut self, no_connect: NoConnect) -> (r: Result<(), Error>)
        ensures
            match r {
                Ok(_) => {
                    let p = draw_point(*old(self), no_connect.attrs.attributes@)->Ok_0;
                    let n = final(self).items@.last()->NoConnect_0;
                    &&& draw_point(*old(self), no_connect.attrs.attributes@) is Ok
                    &&& final(self).items@.last() is NoConnect
                    &&& drawn(*final(self), *old(self), SchemaItem::NoConnect(n), At::Pt(p))
                    &&& n.pos == (Pos { x: p.x, y: p.y, angle: no_connect.pos.angle })
                    &&& n.uuid == no_connect.uuid
                    &&& n.attrs == no_connect.attrs
                },
                Err(e) => draw_point(*old(self), no_connect.attrs.attributes@) == Err::<
                    Pt,
                    ErrorKind,
                >(e.0) && *final(self) == *old(self),
            },
    {
        let mut placed = no_connect;
        let pt = match self.draw_at(&placed.attrs) {
            Ok(p) => p,
            Err(e) => {
                return Err(e);
            },
        };
        placed.pos.x = pt.x;
        placed.pos.y = pt.y;
        let ghost n = placed;
        self.items.push(SchemaItem::NoConnect(placed));
        self.last_pos = At::Pt(pt);
        assert(drawn(*self, *old(self), SchemaItem::NoConnect(n), At::Pt(pt)));
        Ok(())
    }
}

/// The point with the coordinates, if they fit.
pub open spec fn point_of(x: int, y: int) -> Result<Pt, ErrorKind> {
    if i32::MIN <= x <= i32::MAX && i32::MIN <= y <= i32::MAX {
        Ok(Pt { x: x as i32, y: y as i32 })
    } else {
        Err(ErrorKind::OutOfRange)
    }
}

/// The point with the coordinates, if they fit.
fn make_point(x: i64, y: i64) -> (r: Result<Pt, Error>)
    ensures
        match r {
            Ok(p) => point_of(x as int, y as int) == Ok::<Pt, ErrorKind>(p),
            Err(e) => point_of(x as int, y as int) == Err::<Pt, ErrorKind>(e.0),
        },
{
    if x < (i32::MIN as i64) || x > (i32::MAX as i64) || y < (i32::MIN as i64) || y > (
    i32::MAX as i64) {
        Err(Error::new(ErrorKind::OutOfRange, "point out of range"))
    } else {
        Ok(Pt { x: x as i32, y: y as i32 })
    }
}

/// Where a wire from `pt` ends: at the x of the position that the `Tox`
/// attribute gives, else at the y of the position that the `Toy` attribute
/// gives, else as far in the direction of the attributes as their length
/// says, or as the grid is wide.
pub open spec fn wire_target(schema: Schema, attrs: Seq<Attribute>, pt: Pt) -> Result<
    Pt,
    ErrorKind,
> {
    match tox_of(attrs) {
        Some(tox) => match resolve(schema, tox) {
            Ok(t) => Ok(Pt { x: t.x, y: pt.y }),
            Err(e) => Err(e),
        },
        None => match toy_of(attrs) {
            Some(toy) => match resolve(schema, toy) {
                Ok(t) => Ok(Pt { x: pt.x, y: t.y }),
                Err(e) => Err(e),
            },
            None => {
                let length = match length_of(attrs) {
                    Some(l) => l,
                    None => schema.grid,
                };
                match direction_of(attrs) {
                    Direction::Left => point_of(pt.x - length, pt.y as int),
                    Direction::Right => point_of(pt.x + length, pt.y as int),
                    Direction::Up => point_of(pt.x as int, pt.y - length),
                    Direction::Down => point_of(pt.x as int, pt.y + length),
                }
            },
        },
    }
}

/// The two ends of a wire that is drawn with the attributes.
pub open spec fn wire_ends(schema: Schema, attrs: Seq<Attribute>) -> Result<(Pt, Pt), ErrorKind> {
    match draw_point(schema, attrs) {
        Err(e) => Err(e),
        Ok(pt) => match wire_target(schema, attrs, pt) {
            Err(e) => Err(e),
            Ok(to) => Ok((pt, to)),
        },
    }
}

impl Schema {
    /// Where a wire with the attributes ends that begins at `pt`.
    fn target_of(&self, attrs: &To, pt: Pt) -> (r: Result<Pt, Error>)
        ensures
            match r {
                Ok(p) => wire_target(*self, attrs.attributes@, pt) == Ok::<Pt, ErrorKind>(p),
                Err(e) => wire_target(*self, attrs.attributes@, pt) == Err::<Pt, ErrorKind>(e.0),
            },
    {
        if let Some(tox) = attrs.tox() {
            match self.get_pt(tox) {
                Ok(t) => Ok(Pt { x: t.x, y: pt.y }),
                Err(e) => Err(e),
            }
        } else if let Some(toy) = attrs.toy() {
            match self.get_pt(toy) {
                Ok(t) => Ok(Pt { x: pt.x, y: t.y }),
                Err(e) => Err(e),
            }
        } else {
            let length: i64 = match attrs.length() {
                Some(l) => l as i64,
                None => self.grid as i64,
            };
            match attrs.direction() {
                Direction::Left => make_point((pt.x as i64) - length, pt.y as i64),
                Direction::Right => make_point((pt.x as i64) + length, pt.y as i64),
                Direction::Up => make_point(pt.x as i64, (pt.y as i64) - length),
                Direction::Down => make_point(pt.x as i64, (pt.y as i64) + length),
            }
        }
    }
}

impl Drawer<Wire> for Schema {
    /// implement the draw function
    ///
    /// first the Tox and Toy attributes are searched
    /// otherwise a direction and length is used
    ///
    /// The wire begins at the position that its attributes give or at the
    /// cursor, and the cursor moves to its end.
    fn draw(&mut self, wire: Wire) -> (r: Result<(), Error>)
        ensures
            match r {
                Ok(_) => {
                    let ends = wire_ends(*old(self), wire.attrs.attributes@)->Ok_0;
                    let w = final(self).items@.last()->Wire_0;
                    &&& wire_ends(*old(self), wire.attrs.attributes@) is Ok
                    &&& final(self).items@.last() is Wire
                    &&& drawn(*final(self), *old(self), SchemaItem::Wire(w), At::Pt(ends.1))
                    &&& w.pts.0@ == seq![ends.0, ends.1]
                    &&& w.stroke == wire.stroke
                    &&& w.uuid == wire.uuid
                    &&& w.attrs == wire.attrs
                },
                Err(e) => wire_ends(*old(self), wire.attrs.attributes@) == Err::<
                    (Pt, Pt),
                    ErrorKind,
                >(e.0) && *final(self) == *old(self),
            },
    {
        let mut placed = wire;
        let pt = match self.draw_at(&placed.attrs) {
            Ok(p) => p,
            Err(e) => {
                return Err(e);
            },
        };
        let to_pos = match self.target_of(&placed.attrs, pt) {
            Ok(p) => p,
            Err(e) => {
                return Err(e);
            },
        };
        let mut pts: Vec<Pt> = Vec::new();
        pts.push(pt);
        pts.push(to_pos);
        assert(pts@ =~= seq![pt, to_pos]);
        placed.pts = Pts(pts);
        let ghost w = placed;
        self.items.push(SchemaItem::Wire(placed));
        self.last_pos = At::Pt(to_pos);
        assert(drawn(*self, *old(self), SchemaItem::Wire(w), At::Pt(to_pos)));
        Ok(())
    }
}

/// How many of the items are placed symbols whose reference begins with the
/// prefix.
pub open spec fn count_references(items: Seq<SchemaItem>, prefix: Seq<char>) -> nat
    decreases items.len(),
{
    if items.len() == 0 {
        0
    } else {
        count_references(items.drop_last(), prefix) + (match items.last() {
            SchemaItem::Symbol(s) => if prefix.is_prefix_of(
                crate::schema::property_of(s.props@, crate::schema::PROPERTY_REFERENCE@),
            ) {
                1nat
            } else {
                0nat
            },
            _ => 0nat,
        })
    }
}

/// The reference with the prefix and the number, which has two digits at
/// least.
pub open spec fn numbered(prefix: Seq<char>, number: nat) -> Seq<char> {
    prefix + (if number < 10 {
        seq!['0']
    } else {
        Seq::empty()
    }) + crate::number::digits_of(number)
}

/// Where the placement of a symbol at the origin puts a pin.
pub open spec fn local_pin(angle: i32, mirror: Option<String>, pin: Pin) -> Result<Pt, ErrorKind> {
    crate::math::transform::place(
        Pt { x: 0, y: 0 },
        angle as int,
        crate::math::transform::axis_of(mirror),
        None,
        (pin.pos.x as int, pin.pos.y as int),
    )
}

/// Where the placement of a symbol at a position puts a pin.
pub open spec fn moved_pin(at: Pt, angle: i32, mirror: Option<String>, pin: Pin) -> Result<
    Pt,
    ErrorKind,
> {
    crate::math::transform::place(
        at,
        angle as int,
        crate::math::transform::axis_of(mirror),
        None,
        (pin.pos.x as int, pin.pos.y as int),
    )
}

/// The two wires that join a symbol between the cursor and a target: the
/// ends of the first, the ends of the second, and where the anchor of the
/// symbol stands.
pub struct Joint {
    pub first: (Pt, Pt),
    pub second: (Pt, Pt),
}

/// What drawing a symbol does, as far as its attributes and the schema say.
pub struct Plan {
    /// The unit that is placed.
    pub unit: u8,
    /// The angle of the symbol.
    pub angle: i32,
    /// The position of the symbol.
    pub pos: Pt,
    /// The wires that are drawn before the symbol, if its attributes give a
    /// target.
    pub joint: Option<Joint>,
    /// The reference of the symbol.
    pub reference: Seq<char>,
    /// Where the cursor stands afterwards.
    pub cursor: Pt,
}

/// The first step when a symbol is drawn: its library symbol and the place
/// of its anchor pin when the symbol stands at the origin.
pub open spec fn plan_anchor(schema: Schema, symbol: Symbol) -> Result<
    (LibrarySymbol, Pt),
    ErrorKind,
> {
    let attrs = symbol.attrs.attributes@;
    let angle = match angle_of(attrs) {
        Some(a) => a,
        None => 0,
    };
    match crate::schema::library_of(schema.library_symbols@, symbol.lib_id@) {
        None => Err(ErrorKind::LibraryNotFound),
        Some(lib) => match crate::symbols::pin_of(lib.units@, anchor_name(attrs)) {
            None => Err(ErrorKind::PinNotFound),
            Some(pin) => match local_pin(angle, mirror_of(attrs), pin) {
                Err(e) => Err(e),
                Ok(p) => Ok((lib, p)),
            },
        },
    }
}

/// The number of the anchor pin: that of the attributes, or 1.
pub open spec fn anchor_name(attrs: Seq<Attribute>) -> Seq<char> {
    match anchor_of(attrs) {
        Some(a) => a@,
        None => "1"@,
    }
}

/// The second step when a symbol is drawn: the wires that join it between
/// the cursor and the target of its attributes, if they give one. The
/// symbol is as long as its pins 1 and 2 are apart in x; what is left of the
/// way from the target to the cursor is halved between two wires.
pub open spec fn plan_joint(schema: Schema, symbol: Symbol, lib: LibrarySymbol) -> Result<
    Option<Joint>,
    ErrorKind,
> {
    let attrs = symbol.attrs.attributes@;
    let angle = match angle_of(attrs) {
        Some(a) => a,
        None => 0,
    };
    match tox_of(attrs) {
        None => Ok(None),
        Some(tox) => match resolve(schema, tox) {
            Err(e) => Err(e),
            Ok(target) => match (
                crate::symbols::pin_of(lib.units@, "1"@),
                crate::symbols::pin_of(lib.units@, "2"@),
            ) {
                (Some(one), Some(two)) => match local_pin(angle, mirror_of(attrs), one) {
                    Err(e) => Err(e),
                    Ok(p1) => match local_pin(angle, mirror_of(attrs), two) {
                        Err(e) => Err(e),
                        Ok(p2) => match resolve(schema, schema.last_pos) {
                            Err(e) => Err(e),
                            Ok(pt) => {
                                let wire = crate::fixed::half_spec(
                                    (pt.x - target.x) - (p1.x - p2.x),
                                );
                                match (
                                    point_of(pt.x - wire, pt.y as int),
                                    point_of(target.x + wire, pt.y as int),
                                ) {
                                    (Ok(a), Ok(b)) => Ok(
                                        Some(
                                            Joint {
                                                first: (pt, a),
                                                second: (Pt { x: target.x, y: pt.y }, b),
                                            },
                                        ),
                                    ),
                                    _ => Err(ErrorKind::OutOfRange),
                                }
                            },
                        },
                    },
                },
                _ => Err(ErrorKind::PinNotFound),
            },
        },
    }
}

/// The third step when a symbol is drawn: where its anchor pin stands: at
/// the position that its attributes give, else at the end of the first wire
/// of the joint, else at the cursor.
pub open spec fn plan_point(schema: Schema, symbol: Symbol, joint: Option<Joint>) -> Result<
    Pt,
    ErrorKind,
> {
    match at_of(symbol.attrs.attributes@) {
        Some(at) => resolve(schema, at),
        None => match joint {
            Some(j) => Ok(j.first.1),
            None => resolve(schema, schema.last_pos),
        },
    }
}

/// The reference of a symbol that is drawn: a power symbol and a flag are
/// numbered, any other symbol has the reference that it was given.
pub open spec fn plan_reference(schema: Schema, symbol: Symbol, lib: LibrarySymbol) -> Seq<char> {
    let own = crate::schema::property_of(
        crate::symbols::placed_props(lib.props@),
        crate::schema::PROPERTY_REFERENCE@,
    );
    if "#PWR"@.is_prefix_of(own) {
        numbered("#PWR"@, count_references(schema.items@, "#PWR"@) + 1)
    } else if "#FLG"@.is_prefix_of(own) {
        numbered("#FLG"@, count_references(schema.items@, "#FLG"@) + 1)
    } else {
        crate::schema::property_of(symbol.props@, crate::schema::PROPERTY_REFERENCE@)
    }
}

/// The number of the pin at which the cursor stands behind a symbol: pin 1
/// if the symbol has one pin or is anchored at pin 2, else pin 2.
pub open spec fn out_pin_name(lib: LibrarySymbol, unit: u8, anchor: Seq<char>) -> Seq<char> {
    if crate::symbols::unit_pins(lib.units@, unit).len() == 1 || anchor == "2"@ {
        "1"@
    } else {
        "2"@
    }
}

/// What drawing a symbol does, or why it fails before the properties of the
/// symbol are placed.
pub open spec fn symbol_plan(schema: Schema, symbol: Symbol) -> Result<Plan, ErrorKind> {
    let attrs = symbol.attrs.attributes@;
    let unit = match unit_attr_of(attrs) {
        Some(u) => u,
        None => 1u8,
    };
    let angle = match angle_of(attrs) {
        Some(a) => a,
        None => 0,
    };
    match plan_anchor(schema, symbol) {
        Err(e) => Err(e),
        Ok((lib, pin_pos)) => match plan_joint(schema, symbol, lib) {
            Err(e) => Err(e),
            Ok(joint) => match plan_point(schema, symbol, joint) {
                Err(e) => Err(e),
                Ok(pt) => match point_of(pt.x - pin_pos.x, pt.y - pin_pos.y) {
                    Err(e) => Err(e),
                    Ok(pos) => match plan_cursor(symbol, lib, unit, angle, pos, joint) {
                        Err(e) => Err(e),
                        Ok(cursor) => Ok(
                            Plan {
                                unit,
                                angle,
                                pos,
                                joint,
                                reference: plan_reference(schema, symbol, lib),
                                cursor,
                            },
                        ),
                    },
                },
            },
        },
    }
}

/// Where the cursor stands behind a symbol: behind the second wire of the
/// joint, else at its out pin.
pub open spec fn plan_cursor(
    symbol: Symbol,
    lib: LibrarySymbol,
    unit: u8,
    angle: i32,
    pos: Pt,
    joint: Option<Joint>,
) -> Result<Pt, ErrorKind> {
    let attrs = symbol.attrs.attributes@;
    match joint {
        Some(j) => Ok(j.second.0),
        None => match crate::symbols::pin_of(
            lib.units@,
            out_pin_name(lib, unit, anchor_name(attrs)),
        ) {
            None => Err(ErrorKind::PinNotFound),
            Some(pin) => moved_pin(pos, angle, mirror_of(attrs), pin),
        },
    }
}

/// The next reference with the prefix: as many symbols as have such a
/// reference, and one more.
fn next_reference(items: &Vec<SchemaItem>, prefix: &str) -> (r: String)
    ensures
        r@ == numbered(prefix@, count_references(items@, prefix@) + 1),
{
    let mut count: u64 = 0;
    let mut i: usize = 0;
    assert(items@.take(0) =~= Seq::<SchemaItem>::empty());
    while i < items.len()
        invariant
            i <= items.len(),
            count == count_references(items@.take(i as int), prefix@),
            count <= i,
        decreases items.len() - i,
    {
        assert(items@.take(i + 1).drop_last() =~= items@.take(i as int));
        assert(items@.take(i + 1).last() == items@[i as int]);
        if let SchemaItem::Symbol(s) = &items[i] {
            let reference = s.property(crate::schema::PROPERTY_REFERENCE);
            if crate::strings::starts_with(reference.as_str(), prefix) {
                count += 1;
            }
        }
        i += 1;
    }
    assert(items@.take(i as int) =~= items@);
    let mut out = prefix.to_string();
    let number: u128 = (count as u128) + 1;
    if number < 10 {
        out.push('0');
    }
    crate::number::write_digits_wide(number, &mut out);
    assert(out@ =~= numbered(prefix@, count_references(items@, prefix@) + 1));
    out
}

/// A wire between two points, with a fresh identifier and the attributes of
/// its direction and length.
fn joint_wire(from: Pt, to: Pt) -> (w: Wire)
    ensures
        w.pts.0@ == seq![from, to],
        w.stroke.width == 0,
        w.stroke.stroke_type is None,
        w.stroke.color is None,
        w.attrs.attributes@.len() == 2,
        w.attrs.attributes@[0] == Attribute::Direction(
            if to.x > from.x {
                Direction::Right
            } else {
                Direction::Left
            },
        ),
        w.attrs.attributes@[1] == Attribute::Length(
            if to.x > from.x {
                (to.x - from.x) as i32
            } else {
                (from.x - to.x) as i32
            },
        ) || !(-0x8000_0000 < to.x - from.x < 0x8000_0000),
{
    let mut w = Wire::new();
    let mut pts: Vec<Pt> = Vec::new();
    pts.push(from);
    pts.push(to);
    assert(pts@ =~= seq![from, to]);
    w.pts = Pts(pts);
    let d: i64 = (to.x as i64) - (from.x as i64);
    let length: i64 = if d > 0 {
        d
    } else {
        -d
    };
    w.attrs.push(
        Attribute::Direction(
            if d > 0 {
                Direction::Right
            } else {
                Direction::Left
            },
        ),
    );
    w.attrs.push(
        Attribute::Length(
            if length > (i32::MAX as i64) {
                i32::MAX
            } else {
                length as i32
            },
        ),
    );
    w
}

impl Schema {
    /// Where the placement of a symbol at the origin puts a pin.
    fn local_pin_of(angle: i32, mirror: &Option<String>, pin: &Pin) -> (r: Result<Pt, Error>)
        ensures
            match r {
                Ok(p) => local_pin(angle, *mirror, *pin) == Ok::<Pt, ErrorKind>(p),
                Err(e) => local_pin(angle, *mirror, *pin) == Err::<Pt, ErrorKind>(e.0),
            },
    {
        Self::moved_pin_of(Pt { x: 0, y: 0 }, angle, mirror, pin)
    }

    /// Where the placement of a symbol at a position puts a pin.
    fn moved_pin_of(at: Pt, angle: i32, mirror: &Option<String>, pin: &Pin) -> (r: Result<
        Pt,
        Error,
    >)
        ensures
            match r {
                Ok(p) => moved_pin(at, angle, *mirror, *pin) == Ok::<Pt, ErrorKind>(p),
                Err(e) => moved_pin(at, angle, *mirror, *pin) == Err::<Pt, ErrorKind>(e.0),
            },
    {
        let transform = crate::math::Transform::new().mirror(mirror).translation(at).rotation(
            angle,
        );
        transform.apply(Pt { x: pin.pos.x, y: pin.pos.y })
    }

    /// The wires that join a symbol between the cursor and the target of
    /// its attributes.
    fn joint_of(&self, symbol: &Symbol, lib: &LibrarySymbol, angle: i32, mirror: &Option<String>) -> (r:
        Result<Option<Joint>, Error>)
        requires
            angle == (match angle_of(symbol.attrs.attributes@) {
                Some(a) => a,
                None => 0,
            }),
            *mirror == mirror_of(symbol.attrs.attributes@),
        ensures
            match r {
                Ok(j) => plan_joint(*self, *symbol, *lib) == Ok::<Option<Joint>, ErrorKind>(j),
                Err(e) => plan_joint(*self, *symbol, *lib) == Err::<Option<Joint>, ErrorKind>(e.0),
            },
    {
        let Some(tox) = symbol.attrs.tox() else {
            return Ok(None);
        };
        let target = match self.get_pt(tox) {
            Ok(p) => p,
            Err(e) => {
                return Err(e);
            },
        };
        let Some(one) = lib.pin("1") else {
            return Err(Error::new(ErrorKind::PinNotFound, "pin 1 not found"));
        };
        let Some(two) = lib.pin("2") else {
            return Err(Error::new(ErrorKind::PinNotFound, "pin 2 not found"));
        };
        let p1 = match Self::local_pin_of(angle, mirror, one) {
            Ok(p) => p,
            Err(e) => {
                return Err(e);
            },
        };
        let p2 = match Self::local_pin_of(angle, mirror, two) {
            Ok(p) => p,
            Err(e) => {
                return Err(e);
            },
        };
        let pt = match self.get_pt(&self.last_pos) {
            Ok(p) => p,
            Err(e) => {
                return Err(e);
            },
        };
        let rest: i64 = ((pt.x as i64) - (target.x as i64)) - ((p1.x as i64) - (p2.x as i64));
        let wire: i64 = if rest >= 0 {
            rest / 2
        } else {
            -((-rest) / 2)
        };
        let a = match make_point((pt.x as i64) - wire, pt.y as i64) {
            Ok(p) => p,
            Err(e) => {
                return Err(e);
            },
        };
        let b = match make_point((target.x as i64) + wire, pt.y as i64) {
            Ok(p) => p,
            Err(e) => {
                return Err(e);
            },
        };
        Ok(Some(Joint { first: (pt, a), second: (Pt { x: target.x, y: pt.y }, b) }))
    }
}

/// Whether every property with the key has the value.
pub open spec fn has_value(props: Seq<crate::gr::Property>, key: Seq<char>, value: Seq<char>) -> bool {
    forall|i: int| 0 <= i < props.len() && (#[trigger] props[i]).key@ == key ==> props[i].value@ == value
}

/// Whether the pins of a placed symbol have the numbers of the pins of its
/// library symbol, in order.
pub open spec fn pins_numbered(pins: Seq<(String, String)>, of: Seq<Pin>) -> bool {
    &&& pins.len() == of.len()
    &&& forall|i: int| 0 <= i < pins.len() ==> (#[trigger] pins[i]).0@ == of[i].number.name@
}

/// Whether the items are those before, then the two wires of the joint if
/// there is one, then the symbol.
pub open spec fn symbol_drawn(
    after: Seq<SchemaItem>,
    before: Seq<SchemaItem>,
    joint: Option<Joint>,
    symbol: Symbol,
) -> bool {
    match joint {
        None => after == before.push(SchemaItem::Symbol(symbol)),
        Some(j) => {
            &&& after.len() == before.len() + 3
            &&& after.take(before.len() as int) == before
            &&& after[before.len() as int] matches SchemaItem::Wire(w) && w.pts.0@ == seq![
                j.first.0,
                j.first.1,
            ]
            &&& after[before.len() as int + 1] matches SchemaItem::Wire(w) && w.pts.0@ == seq![
                j.second.0,
                j.second.1,
            ]
            &&& after[before.len() as int + 2] == SchemaItem::Symbol(symbol)
        },
    }
}

/// What drawing a symbol does, as it is computed.
pub struct Drawing {
    /// The unit that is placed.
    pub unit: u8,
    /// The angle of the symbol.
    pub angle: i32,
    /// The mirror axis of the symbol.
    pub mirror: Option<String>,
    /// The position of the symbol.
    pub pos: Pt,
    /// The wires that are drawn before the symbol.
    pub joint: Option<Joint>,
    /// The reference of the symbol.
    pub reference: String,
    /// Where the cursor stands afterwards.
    pub cursor: Pt,
}

impl Drawing {
    /// The plan that was computed.
    pub open spec fn view(self) -> Plan {
        Plan {
            unit: self.unit,
            angle: self.angle,
            pos: self.pos,
            joint: self.joint,
            reference: self.reference@,
            cursor: self.cursor,
        }
    }
}

impl Schema {
    /// The reference of a symbol that is drawn.
    fn reference_of(&self, symbol: &Symbol, lib: &LibrarySymbol) -> (r: String)
        ensures
            r@ == plan_reference(*self, *symbol, *lib),
    {
        let made = lib.symbol(1);
        let own = made.property(crate::schema::PROPERTY_REFERENCE);
        proof {
            lemma_same_properties(
                made.props@,
                crate::symbols::placed_props(lib.props@),
                crate::schema::PROPERTY_REFERENCE@,
            );
        }
        if crate::strings::starts_with(own.as_str(), "#PWR") {
            next_reference(&self.items, "#PWR")
        } else if crate::strings::starts_with(own.as_str(), "#FLG") {
            next_reference(&self.items, "#FLG")
        } else {
            symbol.property(crate::schema::PROPERTY_REFERENCE)
        }
    }

    /// Where the cursor stands behind a symbol.
    fn cursor_of(
        symbol: &Symbol,
        lib: &LibrarySymbol,
        unit: u8,
        angle: i32,
        mirror: &Option<String>,
        anchor: &String,
        pos: Pt,
        joint: &Option<Joint>,
    ) -> (r: Result<Pt, Error>)
        requires
            *mirror == mirror_of(symbol.attrs.attributes@),
            anchor@ == anchor_name(symbol.attrs.attributes@),
        ensures
            match r {
                Ok(p) => plan_cursor(*symbol, *lib, unit, angle, pos, *joint) == Ok::<Pt, ErrorKind>(
                    p,
                ),
                Err(e) => plan_cursor(*symbol, *lib, unit, angle, pos, *joint) == Err::<
                    Pt,
                    ErrorKind,
                >(e.0),
            },
    {
        match joint {
            Some(j) => Ok(j.second.0),
            None => {
                let pin_count = lib.pins(unit).len();
                let out_pin = if pin_count == 1 || crate::strings::str_eq(anchor.as_str(), "2") {
                    "1"
                } else {
                    "2"
                };
                assert(out_pin@ == out_pin_name(*lib, unit, anchor@));
                let Some(last) = lib.pin(out_pin) else {
                    return Err(Error::new(ErrorKind::PinNotFound, "out pin not found"));
                };
                Self::moved_pin_of(pos, angle, mirror, last)
            },
        }
    }

    /// What drawing the symbol does.
    pub fn plan(&self, symbol: &Symbol) -> (r: Result<Drawing, Error>)
        ensures
            match r {
                Ok(d) => symbol_plan(*self, *symbol) == Ok::<Plan, ErrorKind>(d@) && d.mirror
                    == mirror_of(symbol.attrs.attributes@) && crate::schema::library_of(
                    self.library_symbols@,
                    symbol.lib_id@,
                ) is Some,
                Err(e) => symbol_plan(*self, *symbol) == Err::<Plan, ErrorKind>(e.0),
            },
    {
        let Some(lib) = self.library_symbol(symbol.lib_id.as_str()) else {
            return Err(Error::new(ErrorKind::LibraryNotFound, "library symbol not found"));
        };
        let unit: u8 = match symbol.attrs.unit() {
            Some(u) => u,
            None => 1,
        };
        let angle: i32 = match symbol.attrs.angle() {
            Some(a) => a,
            None => 0,
        };
        let mirror = symbol.attrs.mirror();
        let anchor = match symbol.attrs.anchor() {
            Some(a) => a,
            None => "1".to_string(),
        };
        assert(anchor@ == anchor_name(symbol.attrs.attributes@));
        let Some(anchor_pin) = lib.pin(anchor.as_str()) else {
            return Err(Error::new(ErrorKind::PinNotFound, "anchor pin not found"));
        };
        let pin_pos = match Self::local_pin_of(angle, &mirror, anchor_pin) {
            Ok(p) => p,
            Err(e) => {
                return Err(e);
            },
        };
        assert(plan_anchor(*self, *symbol) == Ok::<(LibrarySymbol, Pt), ErrorKind>((*lib, pin_pos)));
        let joint = match self.joint_of(symbol, lib, angle, &mirror) {
            Ok(j) => j,
            Err(e) => {
                return Err(e);
            },
        };
        let pt = match self.point_of_anchor(symbol, &joint) {
            Ok(p) => p,
            Err(e) => {
                return Err(e);
            },
        };
        let pos = match make_point(
            (pt.x as i64) - (pin_pos.x as i64),
            (pt.y as i64) - (pin_pos.y as i64),
        ) {
            Ok(p) => p,
            Err(e) => {
                return Err(e);
            },
        };
        let cursor = match Self::cursor_of(symbol, lib, unit, angle, &mirror, &anchor, pos, &joint) {
            Ok(p) => p,
            Err(e) => {
                return Err(e);
            },
        };
        let reference = self.reference_of(symbol, lib);
        Ok(Drawing { unit, angle, mirror, pos, joint, reference, cursor })
    }

    /// Where the anchor pin of a symbol stands.
    fn point_of_anchor(&self, symbol: &Symbol, joint: &Option<Joint>) -> (r: Result<Pt, Error>)
        ensures
            match r {
                Ok(p) => plan_point(*self, *symbol, *joint) == Ok::<Pt, ErrorKind>(p),
                Err(e) => plan_point(*self, *symbol, *joint) == Err::<Pt, ErrorKind>(e.0),
            },
    {
        match symbol.attrs.at() {
            Some(at) => self.get_pt(&at),
            None => match joint {
                Some(j) => Ok(j.first.1),
                None => self.get_pt(&self.last_pos),
            },
        }
    }

    /// The symbol that is drawn according to a plan, before its properties
    /// are placed.
    fn made_symbol(&self, symbol: &Symbol, lib: &LibrarySymbol, d: &Drawing) -> (s: Symbol)
        requires
            lib.lib_id@ == symbol.lib_id@,
        ensures
            s.lib_id@ == symbol.lib_id@,
            s.pos == (Pos { x: d.pos.x, y: d.pos.y, angle: d.angle }),
            s.mirror == d.mirror,
            s.unit == d.unit,
            has_value(s.props@, crate::schema::PROPERTY_REFERENCE@, d.reference@),
            has_value(
                s.props@,
                crate::schema::PROPERTY_VALUE@,
                crate::schema::property_of(symbol.props@, crate::schema::PROPERTY_VALUE@),
            ),
            s.props@.len() == crate::symbols::placed_props(lib.props@).len(),
            pins_numbered(s.pins@, crate::symbols::unit_pins(lib.units@, d.unit)),
            s.instances@.len() == 1,
            s.instances@[0].project@ == self.project@,
            s.instances@[0].path@ == seq!['/'] + self.uuid@,
            s.instances@[0].reference@ == d.reference@,
            s.instances@[0].unit == d.unit,
    {
        let mut new_symbol = lib.symbol(d.unit);
        new_symbol.pos = Pos { x: d.pos.x, y: d.pos.y, angle: d.angle };
        new_symbol.mirror = d.mirror.clone();
        new_symbol.set_property(crate::schema::PROPERTY_REFERENCE, d.reference.as_str());
        let value = symbol.property(crate::schema::PROPERTY_VALUE);
        new_symbol.set_property(crate::schema::PROPERTY_VALUE, value.as_str());
        proof {
            reveal_strlit("Reference");
            reveal_strlit("Value");
            assert("Reference"@.len() == 9 && "Value"@.len() == 5);
            assert(has_value(new_symbol.props@, crate::schema::PROPERTY_REFERENCE@, d.reference@));
            assert(has_value(new_symbol.props@, crate::schema::PROPERTY_VALUE@, value@));
        }
        let pins = lib.pins(d.unit);
        let mut k: usize = 0;
        let ghost all = crate::symbols::unit_pins(lib.units@, d.unit);
        let ghost props = new_symbol.props;
        while k < pins.len()
            invariant
                k <= pins.len(),
                pins@.len() == all.len(),
                forall|i: int| 0 <= i < pins@.len() ==> *pins@[i] == all[i],
                new_symbol.pins@.len() == k,
                forall|i: int|
                    0 <= i < k ==> (#[trigger] new_symbol.pins@[i]).0@ == all[i].number.name@,
                new_symbol.lib_id@ == symbol.lib_id@,
                new_symbol.pos == (Pos { x: d.pos.x, y: d.pos.y, angle: d.angle }),
                new_symbol.mirror == d.mirror,
                new_symbol.unit == d.unit,
                new_symbol.props == props,
            decreases pins.len() - k,
        {
            new_symbol.pins.push((pins[k].number.name.clone(), crate::new_uuid()));
            k += 1;
        }
        let mut path = "/".to_string();
        vstd::string::StringExecFns::append(&mut path, self.uuid.as_str());
        proof {
            reveal_strlit("/");
            assert(path@ =~= seq!['/'] + self.uuid@);
        }
        let mut instances: Vec<Instance> = Vec::new();
        instances.push(
            Instance {
                project: self.project.clone(),
                path,
                reference: d.reference.clone(),
                unit: d.unit,
            },
        );
        new_symbol.instances = instances;
        new_symbol
    }
}

/// Placing the properties keeps their keys and values.
pub proof fn lemma_placed_keeps_values(
    after: Seq<crate::gr::Property>,
    before: Seq<crate::gr::Property>,
    key: Seq<char>,
    value: Seq<char>,
)
    requires
        after.len() == before.len(),
        forall|i: int|
            0 <= i < before.len() ==> (#[trigger] after[i]).key == before[i].key && after[i].value
                == before[i].value,
        has_value(before, key, value),
    ensures
        has_value(after, key, value),
{
    assert forall|i: int| 0 <= i < after.len() && (#[trigger] after[i]).key@ == key implies after[i].value@
        == value by {
        assert(before[i].key@ == key);
    }
}

impl Drawer<Symbol> for Schema {
    /// Draws a symbol: the unit of its library symbol that the attributes
    /// give, turned and mirrored as they say, with its anchor pin at the
    /// position that they give or at the cursor. If they give a target, two
    /// wires join the symbol between the cursor and the target. The
    /// properties of the symbol are placed at a free side, and the cursor
    /// moves behind the symbol.
    ///
    /// The library symbol has to stand in the schema. Fails, and leaves the
    /// schema as it is, as the plan fails, and if the properties cannot be
    /// placed.
    fn draw(&mut self, symbol: Symbol) -> (r: Result<(), Error>)
        ensures
            match r {
                Ok(_) => {
                    let plan = symbol_plan(*old(self), symbol)->Ok_0;
                    let s = final(self).items@.last()->Symbol_0;
                    let lib = crate::schema::library_of(
                        old(self).library_symbols@,
                        symbol.lib_id@,
                    )->0;
                    &&& symbol_plan(*old(self), symbol) is Ok
                    &&& final(self).items@.last() is Symbol
                    &&& symbol_drawn(final(self).items@, old(self).items@, plan.joint, s)
                    &&& final(self).last_pos == At::Pt(plan.cursor)
                    &&& final(self).project == old(self).project
                    &&& final(self).version == old(self).version
                    &&& final(self).uuid == old(self).uuid
                    &&& final(self).generator == old(self).generator
                    &&& final(self).generator_version == old(self).generator_version
                    &&& final(self).paper == old(self).paper
                    &&& final(self).title_block == old(self).title_block
                    &&& final(self).library_symbols == old(self).library_symbols
                    &&& final(self).sheet_instances == old(self).sheet_instances
                    &&& final(self).grid == old(self).grid
                    &&& s.lib_id@ == symbol.lib_id@
                    &&& s.pos == (Pos { x: plan.pos.x, y: plan.pos.y, angle: plan.angle })
                    &&& s.mirror == mirror_of(symbol.attrs.attributes@)
                    &&& s.unit == plan.unit
                    &&& has_value(s.props@, crate::schema::PROPERTY_REFERENCE@, plan.reference)
                    &&& has_value(
                        s.props@,
                        crate::schema::PROPERTY_VALUE@,
                        crate::schema::property_of(symbol.props@, crate::schema::PROPERTY_VALUE@),
                    )
                    &&& s.props@.len() == crate::symbols::placed_props(lib.props@).len()
                    &&& pins_numbered(s.pins@, crate::symbols::unit_pins(lib.units@, plan.unit))
                    &&& s.instances@.len() == 1
                    &&& s.instances@[0].project@ == old(self).project@
                    &&& s.instances@[0].path@ == seq!['/'] + old(self).uuid@
                    &&& s.instances@[0].reference@ == plan.reference
                    &&& s.instances@[0].unit == plan.unit
                },
                Err(e) => *final(self) == *old(self) && (symbol_plan(*old(self), symbol) == Err::<
                    Plan,
                    ErrorKind,
                >(e.0) || symbol_plan(*old(self), symbol) is Ok),
            },
    {
        let d = match self.plan(&symbol) {
            Ok(d) => d,
            Err(e) => {
                return Err(e);
            },
        };
        let Some(lib) = self.library_symbol(symbol.lib_id.as_str()) else {
            return Err(Error::new(ErrorKind::LibraryNotFound, "library symbol not found"));
        };
        let mut new_symbol = self.made_symbol(&symbol, lib, &d);
        let ghost before_placing = new_symbol;
        match crate::math::place_properties(self, &mut new_symbol) {
            Ok(_) => {},
            Err(e) => {
                return Err(e);
            },
        }
        proof {
            assert forall|i: int| 0 <= i < before_placing.props@.len() implies (
            #[trigger] new_symbol.props@[i]).key == before_placing.props@[i].key
                && new_symbol.props@[i].value == before_placing.props@[i].value by {
                let placed = crate::math::placement(*self, before_placing)->Ok_0;
                assert(crate::math::is_placed(
                    new_symbol.props@[i],
                    before_placing.props@[i],
                    placed.0,
                    placed.1,
                    before_placing.pos,
                    crate::math::visible_before(
                        before_placing.props@,
                        before_placing.props@.len() as int,
                    ),
                    crate::math::visible_before(before_placing.props@, i),
                ));
            }
            lemma_placed_keeps_values(
                new_symbol.props@,
                before_placing.props@,
                crate::schema::PROPERTY_REFERENCE@,
                d.reference@,
            );
            lemma_placed_keeps_values(
                new_symbol.props@,
                before_placing.props@,
                crate::schema::PROPERTY_VALUE@,
                crate::schema::property_of(symbol.props@, crate::schema::PROPERTY_VALUE@),
            );
        }
        let ghost s = new_symbol;
        let joint = d.joint;
        let cursor = d.cursor;
        self.push_drawn(joint, new_symbol, cursor);
        Ok(())
    }
}

impl Schema {
    /// Adds the wires of a joint and a symbol to the items, and moves the
    /// cursor.
    fn push_drawn(&mut self, joint: Option<Joint>, symbol: Symbol, cursor: Pt)
        ensures
            final(self).items@.last() == SchemaItem::Symbol(symbol),
            symbol_drawn(final(self).items@, old(self).items@, joint, symbol),
            final(self).last_pos == At::Pt(cursor),
            final(self).project == old(self).project,
            final(self).version == old(self).version,
            final(self).uuid == old(self).uuid,
            final(self).generator == old(self).generator,
            final(self).generator_version == old(self).generator_version,
            final(self).paper == old(self).paper,
            final(self).title_block == old(self).title_block,
            final(self).library_symbols == old(self).library_symbols,
            final(self).sheet_instances == old(self).sheet_instances,
            final(self).grid == old(self).grid,
    {
        match joint {
            Some(j) => {
                self.items.push(SchemaItem::Wire(joint_wire(j.first.0, j.first.1)));
                self.items.push(SchemaItem::Wire(joint_wire(j.second.0, j.second.1)));
                self.items.push(SchemaItem::Symbol(symbol));
                assert(self.items@.take(old(self).items@.len() as int) =~= old(self).items@);
            },
            None => {
                self.items.push(SchemaItem::Symbol(symbol));
            },
        }
        self.last_pos = At::Pt(cursor);
    }
}

/// Properties that say the same give the same value for a key.
pub proof fn lemma_same_properties(
    a: Seq<crate::gr::Property>,
    b: Seq<crate::gr::Property>,
    key: Seq<char>,
)
    requires
        a.len() == b.len(),
        forall|i: int| 0 <= i < a.len() ==> crate::symbols::same_property(#[trigger] a[i], b[i]),
    ensures
        crate::schema::property_of(a, key) == crate::schema::property_of(b, key),
    decreases a.len(),
{
    if a.len() > 0 {
        assert(crate::symbols::same_property(a[a.len() - 1], b[b.len() - 1]));
        assert forall|i: int| 0 <= i < a.len() - 1 implies crate::symbols::same_property(
            #[trigger] a.drop_last()[i],
            b.drop_last()[i],
        ) by {
            assert(crate::symbols::same_property(a[i], b[i]));
        }
        lemma_same_properties(a.drop_last(), b.drop_last(), key);
    }
}

} // verus!
