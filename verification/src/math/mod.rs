//! Geometry: transforms, pin placement and outlines.

pub mod bbox;
pub mod fonts;
pub mod transform;

pub use transform::Transform;

use bbox::Bbox;

use crate::draw::Direction;
use crate::gr::{Justify, Pos, Property, Pt, Rect};
use crate::schema::Symbol;
use crate::symbols::Pin;
use crate::{Error, ErrorKind, Schema};
use transform::{axis_of, place};
use vstd::prelude::*;

verus! {

/// Where the placement of a symbol puts a pin of its library symbol: the
/// pin's local position mirrored by the symbol's axis, rotated by its angle
/// and moved to its position.
pub open spec fn pin_place(symbol: Symbol, pin: Pin) -> Result<Pt, ErrorKind> {
    place(
        Pt { x: symbol.pos.x, y: symbol.pos.y },
        symbol.pos.angle as int,
        axis_of(symbol.mirror),
        None,
        (pin.pos.x as int, pin.pos.y as int),
    )
}

/// Calculate the position of a pin in a symbol.
pub fn pin_position(symbol: &Symbol, pin: &Pin) -> (r: Result<Pt, Error>)
    ensures
        match r {
            Ok(p) => pin_place(*symbol, *pin) == Ok::<Pt, ErrorKind>(p),
            Err(e) => pin_place(*symbol, *pin) == Err::<Pt, ErrorKind>(e.0),
        },
{
    let transform = Transform::new().mirror(&symbol.mirror).translation(
        Pt { x: symbol.pos.x, y: symbol.pos.y },
    ).rotation(symbol.pos.angle);
    transform.apply(Pt { x: pin.pos.x, y: pin.pos.y })
}

/// The distance between a symbol and its properties.
pub const PROP_SPACING: i32 = 12500;

/// The distance between the lines of the properties of a symbol.
pub const LINE_SPACING: i32 = 25000;

/// The direction in which a pin of a placed symbol points: the angle of the
/// pin turned by the angle of the symbol, less than a full turn if both are.
pub open spec fn pin_direction(pin: Pin, symbol: Symbol) -> int {
    if pin.pos.angle + symbol.pos.angle >= 3600000 {
        pin.pos.angle + symbol.pos.angle - 3600000
    } else {
        pin.pos.angle + symbol.pos.angle
    }
}

/// Whether one of the pins points in the direction.
pub open spec fn points_to(pins: Seq<Pin>, symbol: Symbol, direction: int) -> bool {
    exists|i: int| 0 <= i < pins.len() && pin_direction(#[trigger] pins[i], symbol) == direction
}

/// The side of a symbol at which its properties are placed: for a symbol
/// with one pin, the side named by the direction of the pin; else the first
/// side, in the order left, up, right, down, whose direction no pin points
/// to. None if the one pin points in no quarter direction, or if pins point
/// to all four.
pub open spec fn free_side(pins: Seq<Pin>, symbol: Symbol) -> Option<Direction> {
    if pins.len() == 1 {
        if points_to(pins, symbol, 0) {
            Some(Direction::Left)
        } else if points_to(pins, symbol, 900000) {
            Some(Direction::Up)
        } else if points_to(pins, symbol, 1800000) {
            Some(Direction::Right)
        } else if points_to(pins, symbol, 2700000) {
            Some(Direction::Down)
        } else {
            None
        }
    } else if !points_to(pins, symbol, 0) {
        Some(Direction::Left)
    } else if !points_to(pins, symbol, 900000) {
        Some(Direction::Up)
    } else if !points_to(pins, symbol, 1800000) {
        Some(Direction::Right)
    } else if !points_to(pins, symbol, 2700000) {
        Some(Direction::Down)
    } else {
        None
    }
}

/// How many of the first `n` properties are visible.
pub open spec fn visible_before(props: Seq<Property>, n: int) -> int
    decreases n,
{
    if n <= 0 || n > props.len() {
        0
    } else {
        visible_before(props, n - 1) + (if props[n - 1].effects.hide {
            0int
        } else {
            1int
        })
    }
}

/// Where the visible property of a rank is placed at a side of a symbol
/// with the outline `bbox`, among `n` visible properties: x, y and angle.
/// At the left and at the right the properties stand beside the outline,
/// centered on the symbol and turned against it; above and below they
/// stand in a column over the symbol and keep their angle.
pub open spec fn property_place(
    side: Direction,
    bbox: Rect,
    symbol: Pos,
    n: int,
    rank: int,
    angle: i32,
) -> (int, int, int) {
    let turned = if symbol.angle != 0 {
        3600000 - symbol.angle
    } else {
        0
    };
    match side {
        Direction::Right => (
            bbox.start.x - 12500,
            symbol.y - (n - 1) * 12500 + rank * 25000,
            turned,
        ),
        Direction::Up => (
            symbol.x as int,
            bbox.start.y - 12500 - (n - 1) * 25000 + rank * 25000,
            angle as int,
        ),
        Direction::Left => (bbox.end.x + 12500, symbol.y - (n - 1) * 12500 + rank * 25000, turned),
        Direction::Down => (symbol.x as int, bbox.end.y + 12500 + rank * 25000, angle as int),
    }
}

/// How the properties at a side of a symbol are justified.
pub open spec fn property_justify(side: Direction) -> Seq<Justify> {
    match side {
        Direction::Right => seq![Justify::Right],
        Direction::Left => seq![Justify::Left],
        _ => Seq::empty(),
    }
}

/// Whether the three numbers fit a position.
pub open spec fn place_fits(p: (int, int, int)) -> bool {
    i32::MIN <= p.0 <= i32::MAX && i32::MIN <= p.1 <= i32::MAX && i32::MIN <= p.2 <= i32::MAX
}

/// Whether `after` is `before` placed: a hidden property is as it was; a
/// visible one has kept key, value, font and visibility, and has its place
/// and justification.
pub open spec fn is_placed(
    after: Property,
    before: Property,
    side: Direction,
    bbox: Rect,
    symbol: Pos,
    n: int,
    rank: int,
) -> bool {
    if before.effects.hide {
        after == before
    } else {
        &&& after.key == before.key
        &&& after.value == before.value
        &&& after.effects.font == before.effects.font
        &&& after.effects.hide == before.effects.hide
        &&& after.effects.justify@ == property_justify(side)
        &&& (after.pos.x as int, after.pos.y as int, after.pos.angle as int) == property_place(
            side,
            bbox,
            symbol,
            n,
            rank,
            before.pos.angle,
        )
    }
}

/// What placing the properties of a symbol gives: the side and the outline
/// by which they are placed, or why they cannot be: the symbol has no
/// outline, no side is free, or a place does not fit.
pub open spec fn placement(schema: Schema, symbol: Symbol) -> Result<(Direction, Rect), ErrorKind> {
    match bbox::symbol_rect(schema, symbol) {
        Err(e) => Err(e),
        Ok(rect) => {
            let lib = crate::schema::library_of(schema.library_symbols@, symbol.lib_id@)->0;
            let pins = crate::symbols::unit_pins(lib.units@, symbol.unit);
            let n = visible_before(symbol.props@, symbol.props@.len() as int);
            match free_side(pins, symbol) {
                None => Err(ErrorKind::NoFreeSide),
                Some(side) => if n > 0 && !(place_fits(
                    property_place(side, rect, symbol.pos, n, 0, 0),
                ) && place_fits(property_place(side, rect, symbol.pos, n, n - 1, 0))) {
                    Err(ErrorKind::OutOfRange)
                } else {
                    Ok((side, rect))
                },
            }
        },
    }
}

/// Whether one of the pins points in the direction.
fn any_points_to(pins: &Vec<&Pin>, symbol: &Symbol, direction: i64) -> (r: bool)
    ensures
        r == exists|i: int|
            0 <= i < pins@.len() && pin_direction(*#[trigger] pins@[i], *symbol) == direction,
{
    let mut i: usize = 0;
    while i < pins.len()
        invariant
            i <= pins.len(),
            forall|j: int| 0 <= j < i ==> pin_direction(*#[trigger] pins@[j], *symbol) != direction,
        decreases pins.len() - i,
    {
        let sum: i64 = (pins[i].pos.angle as i64) + (symbol.pos.angle as i64);
        let d: i64 = if sum >= 3600000 {
            sum - 3600000
        } else {
            sum
        };
        if d == direction {
            return true;
        }
        i += 1;
    }
    false
}

/// The side of a symbol at which its properties are placed.
fn side_of(pins: &Vec<&Pin>, symbol: &Symbol, Ghost(all): Ghost<Seq<Pin>>) -> (r: Option<Direction>)
    requires
        pins@.len() == all.len(),
        forall|i: int| 0 <= i < pins@.len() ==> *pins@[i] == all[i],
    ensures
        r == free_side(all, *symbol),
{
    let left = any_points_to(pins, symbol, 0);
    let up = any_points_to(pins, symbol, 900000);
    let right = any_points_to(pins, symbol, 1800000);
    let down = any_points_to(pins, symbol, 2700000);
    proof {
        assert forall|d: int| points_to(all, *symbol, d) <==> (exists|i: int|
            0 <= i < pins@.len() && pin_direction(*#[trigger] pins@[i], *symbol) == d) by {
            if points_to(all, *symbol, d) {
                let i = choose|i: int|
                    0 <= i < all.len() && pin_direction(#[trigger] all[i], *symbol) == d;
                assert(pin_direction(*pins@[i], *symbol) == d);
            }
            if exists|i: int|
                0 <= i < pins@.len() && pin_direction(*#[trigger] pins@[i], *symbol) == d {
                let i = choose|i: int|
                    0 <= i < pins@.len() && pin_direction(*#[trigger] pins@[i], *symbol) == d;
                assert(pin_direction(all[i], *symbol) == d);
            }
        }
    }
    if pins.len() == 1 {
        if left {
            Some(Direction::Left)
        } else if up {
            Some(Direction::Up)
        } else if right {
            Some(Direction::Right)
        } else if down {
            Some(Direction::Down)
        } else {
            None
        }
    } else if !left {
        Some(Direction::Left)
    } else if !up {
        Some(Direction::Up)
    } else if !right {
        Some(Direction::Right)
    } else if !down {
        Some(Direction::Down)
    } else {
        None
    }
}

/// The place of the visible property of a rank.
fn place_of_rank(side: Direction, bbox: &Rect, symbol: &Pos, n: usize, rank: usize, angle: i32) -> (r:
    (i64, i64, i64))
    requires
        rank <= n <= 0x10_0000,
    ensures
        (r.0 as int, r.1 as int, r.2 as int) == property_place(
            side,
            *bbox,
            *symbol,
            n as int,
            rank as int,
            angle,
        ),
{
    let turned: i64 = if symbol.angle != 0 {
        3600000 - (symbol.angle as i64)
    } else {
        0
    };
    let n: i64 = n as i64;
    let rank: i64 = rank as i64;
    match side {
        Direction::Right => (
            (bbox.start.x as i64) - 12500,
            (symbol.y as i64) - (n - 1) * 12500 + rank * 25000,
            turned,
        ),
        Direction::Up => (
            symbol.x as i64,
            (bbox.start.y as i64) - 12500 - (n - 1) * 25000 + rank * 25000,
            angle as i64,
        ),
        Direction::Left => (
            (bbox.end.x as i64) + 12500,
            (symbol.y as i64) - (n - 1) * 12500 + rank * 25000,
            turned,
        ),
        Direction::Down => (
            symbol.x as i64,
            (bbox.end.y as i64) + 12500 + rank * 25000,
            angle as i64,
        ),
    }
}

/// Whether the three numbers fit a position.
fn fits_place(p: (i64, i64, i64)) -> (r: bool)
    ensures
        r == place_fits((p.0 as int, p.1 as int, p.2 as int)),
{
    let lo: i64 = i32::MIN as i64;
    let hi: i64 = i32::MAX as i64;
    lo <= p.0 && p.0 <= hi && lo <= p.1 && p.1 <= hi && lo <= p.2 && p.2 <= hi
}

/// Place the properties of a symbol
///
/// We need to identify an edge on the symbol that doesn't have pins attached. The pin
/// orientations can be computed based on the angle of the symbol and the pins.
///
/// They are as follows:
///
/// - 0 degrees: Left
/// - 90 degrees: Up
/// - 180 degrees: Right
/// - 270 degrees: Down
///
/// For Symbols with a single pin, the pin direction is used to determine the
/// direction of the properties.
///
/// Fails, and leaves the symbol as it is, if the symbol has no outline, if
/// no side is free, and if a place does not fit.
pub fn place_properties(schema: &Schema, symbol: &mut Symbol) -> (r: Result<(), Error>)
    ensures
        final(symbol).lib_id == old(symbol).lib_id,
        final(symbol).pos == old(symbol).pos,
        final(symbol).mirror == old(symbol).mirror,
        final(symbol).unit == old(symbol).unit,
        final(symbol).in_bom == old(symbol).in_bom,
        final(symbol).on_board == old(symbol).on_board,
        final(symbol).exclude_from_sim == old(symbol).exclude_from_sim,
        final(symbol).dnp == old(symbol).dnp,
        final(symbol).uuid == old(symbol).uuid,
        final(symbol).pins == old(symbol).pins,
        final(symbol).instances == old(symbol).instances,
        final(symbol).attrs == old(symbol).attrs,
        final(symbol).props@.len() == old(symbol).props@.len(),
        match r {
            Ok(_) => placement(*schema, *old(symbol)) is Ok && forall|i: int|
                0 <= i < old(symbol).props@.len() ==> is_placed(
                    #[trigger] final(symbol).props@[i],
                    old(symbol).props@[i],
                    (placement(*schema, *old(symbol))->Ok_0).0,
                    (placement(*schema, *old(symbol))->Ok_0).1,
                    old(symbol).pos,
                    visible_before(old(symbol).props@, old(symbol).props@.len() as int),
                    visible_before(old(symbol).props@, i),
                ),
            Err(e) => placement(*schema, *old(symbol)) == Err::<(Direction, Rect), ErrorKind>(e.0)
                && final(symbol).props == old(symbol).props,
        },
{
    let bbox = match symbol.outline(schema) {
        Ok(b) => b,
        Err(e) => {
            return Err(e);
        },
    };
    let Some(lib) = schema.library_symbol(symbol.lib_id.as_str()) else {
        return Err(Error::new(ErrorKind::LibraryNotFound, "library symbol not found"));
    };
    let pins = lib.pins(symbol.unit);
    let ghost all = crate::symbols::unit_pins(lib.units@, symbol.unit);
    let Some(side) = side_of(&pins, symbol, Ghost(all)) else {
        return Err(Error::new(ErrorKind::NoFreeSide, "all sides of the symbol have pins"));
    };
    let mut n: usize = 0;
    let mut c: usize = 0;
    while c < symbol.props.len()
        invariant
            c <= symbol.props.len(),
            n == visible_before(symbol.props@, c as int),
            n <= c,
            *symbol == *old(symbol),
        decreases symbol.props.len() - c,
    {
        if symbol.props[c].visible() {
            n += 1;
        }
        c += 1;
    }
    if n > 0x10_0000 {
        proof {
            assert(!(place_fits(property_place(side, bbox, symbol.pos, n as int, 0, 0))
                && place_fits(property_place(side, bbox, symbol.pos, n as int, n - 1, 0)))) by {
                assert((n - 1) * 12500 > 0x2_0000_0000);
                assert((n - 1) * 25000 > 0x2_0000_0000);
            }
        }
        return Err(Error::new(ErrorKind::OutOfRange, "too many properties"));
    }
    if n > 0 {
        if !fits_place(place_of_rank(side, &bbox, &symbol.pos, n, 0, 0)) || !fits_place(
            place_of_rank(side, &bbox, &symbol.pos, n, n - 1, 0),
        ) {
            return Err(Error::new(ErrorKind::OutOfRange, "a property out of range"));
        }
    }
    let center = symbol.pos;
    let mut i: usize = 0;
    let mut rank: usize = 0;
    while i < symbol.props.len()
        invariant
            i <= symbol.props.len(),
            symbol.props@.len() == old(symbol).props@.len(),
            rank == visible_before(old(symbol).props@, i as int),
            rank <= n,
            n == visible_before(old(symbol).props@, old(symbol).props@.len() as int),
            n <= 0x10_0000,
            n > 0 ==> place_fits(property_place(side, bbox, center, n as int, 0, 0)) && place_fits(
                property_place(side, bbox, center, n as int, n - 1, 0),
            ),
            center == old(symbol).pos,
            forall|j: int|
                0 <= j < i ==> is_placed(
                    #[trigger] symbol.props@[j],
                    old(symbol).props@[j],
                    side,
                    bbox,
                    center,
                    n as int,
                    visible_before(old(symbol).props@, j),
                ),
            forall|j: int| i <= j < symbol.props@.len() ==> symbol.props@[j] == old(symbol).props@[j],
            symbol.lib_id == old(symbol).lib_id,
            symbol.pos == old(symbol).pos,
            symbol.mirror == old(symbol).mirror,
            symbol.unit == old(symbol).unit,
            symbol.in_bom == old(symbol).in_bom,
            symbol.on_board == old(symbol).on_board,
            symbol.exclude_from_sim == old(symbol).exclude_from_sim,
            symbol.dnp == old(symbol).dnp,
            symbol.uuid == old(symbol).uuid,
            symbol.pins == old(symbol).pins,
            symbol.instances == old(symbol).instances,
            symbol.attrs == old(symbol).attrs,
        decreases symbol.props.len() - i,
    {
        proof {
            lemma_visible_before_bounded(old(symbol).props@, i as int + 1);
        }
        if symbol.props[i].visible() {
            let place = place_of_rank(side, &bbox, &center, n, rank, symbol.props[i].pos.angle);
            assert(place_fits((place.0 as int, place.1 as int, place.2 as int))) by {
                let first = property_place(side, bbox, center, n as int, 0, 0);
                let last = property_place(side, bbox, center, n as int, n - 1, 0);
                assert(first.1 <= place.1 <= last.1);
            }
            let mut justify: Vec<Justify> = Vec::new();
            match side {
                Direction::Right => justify.push(Justify::Right),
                Direction::Left => justify.push(Justify::Left),
                _ => {},
            }
            assert(justify@ =~= property_justify(side));
            symbol.props[i].pos = Pos { x: place.0 as i32, y: place.1 as i32, angle: place.2 as i32 };
            symbol.props[i].effects.justify = justify;
            rank += 1;
        }
        i += 1;
    }
    Ok(())
}

/// No more properties are visible than there are.
pub proof fn lemma_visible_before_bounded(props: Seq<Property>, n: int)
    ensures
        0 <= visible_before(props, n) <= props.len(),
        n <= props.len() ==> visible_before(props, n) <= visible_before(props, props.len() as int),
        0 <= n ==> visible_before(props, n) <= n,
    decreases props.len() - n,
{
    lemma_visible_before_small(props, n);
    if 0 <= n < props.len() {
        lemma_visible_before_bounded(props, n + 1);
    }
    lemma_visible_before_small(props, props.len() as int);
}

/// Among the first `n` properties at most `n` are visible.
pub proof fn lemma_visible_before_small(props: Seq<Property>, n: int)
    ensures
        0 <= visible_before(props, n),
        0 <= n ==> visible_before(props, n) <= n,
        visible_before(props, n) <= props.len(),
    decreases n,
{
    if !(n <= 0 || n > props.len()) {
        lemma_visible_before_small(props, n - 1);
    }
}

} // verus!
