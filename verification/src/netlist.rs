//! Extract the netlist from a schematic.
//!
//! 1. Collect the wires: each wire is an edge between the quantized
//!    positions of its two ends.
//! 2. Collect the connection points: pins, junctions, no-connect marks and
//!    labels, grouped by quantized position.
//! 3. Walk the wires depth first from each connection point that no earlier
//!    walk has reached, and merge the connection points of all the positions
//!    that the walk touches into one group.
//! 4. Name each group, and record the name for each of its positions.

use crate::gr::Pt;
use crate::math::pin_position;
use crate::number::{fixed_string_wide, fixed_text};
use crate::ordered::{lemma_place_of, place_of, OrderedMap};
use crate::schema::{
    library_of, GlobalLabel, LocalLabel, SchemaItem, Symbol, PROPERTY_REFERENCE, PROPERTY_VALUE,
};
use crate::strings::starts_with;
use crate::symbols::{unit_pins, Pin};
use crate::{Error, ErrorKind, Schema};
use vstd::prelude::*;
use vstd::string::StringExecFns;

pub mod laws;

verus! {

/// A quantized position: both coordinates in hundredths of a millimetre.
pub type Key = (i32, i32);

/// The lists of a map of lists.
pub open spec fn lists<T>(values: Seq<Vec<T>>) -> Seq<Seq<T>> {
    values.map_values(|v: Vec<T>| v@)
}

/// The map with `item` added to the list of `key`: behind the items that the
/// list holds, or as the only item of a new list behind the other keys.
pub open spec fn append_at<T>(keys: Seq<Key>, values: Seq<Seq<T>>, key: Key, item: T) -> (
    Seq<Key>,
    Seq<Seq<T>>,
) {
    let i = place_of(keys, key);
    if i < 0 {
        (keys.push(key), values.push(seq![item]))
    } else {
        (keys, values.update(i, values[i].push(item)))
    }
}

/// Adds `item` to the list of `key`.
pub fn append<T>(m: &mut OrderedMap<Vec<T>>, key: Key, item: T)
    requires
        old(m).wf(),
    ensures
        final(m).wf(),
        (final(m).keys@, lists(final(m).values@)) == append_at(
            old(m).keys@,
            lists(old(m).values@),
            key,
            item,
        ),
{
    match m.find(key) {
        Some(i) => {
            m.values[i].push(item);
            assert(lists(m.values@) =~= lists(old(m).values@).update(
                i as int,
                lists(old(m).values@)[i as int].push(item),
            ));
        },
        None => {
            let mut list: Vec<T> = Vec::new();
            list.push(item);
            m.push(key, list);
            assert(lists(m.values@) =~= lists(old(m).values@).push(seq![item]));
        },
    }
}

/// The two ends of a wire, if it has them.
pub open spec fn wire_ends(item: SchemaItem) -> Option<(Pt, Pt)> {
    match item {
        SchemaItem::Wire(w) => if w.pts.0@.len() >= 2 {
            Some((w.pts.0@[0], w.pts.0@[1]))
        } else {
            None
        },
        _ => None,
    }
}

/// The wire graph of the items: for each quantized position where a wire
/// ends, the other ends of the wires that end there. Each wire counts in
/// both directions.
pub open spec fn wires_of(items: Seq<SchemaItem>) -> (Seq<Key>, Seq<Seq<Pt>>)
    decreases items.len(),
{
    if items.len() == 0 {
        (Seq::empty(), Seq::empty())
    } else {
        let (k, v) = wires_of(items.drop_last());
        match wire_ends(items.last()) {
            Some((a, b)) => {
                let (k1, v1) = append_at(k, v, a.key_spec(), b);
                append_at(k1, v1, b.key_spec(), a)
            },
            None => (k, v),
        }
    }
}

/// The other ends of the wires that end at `key`.
pub open spec fn neighbors(keys: Seq<Key>, values: Seq<Seq<Pt>>, key: Key) -> Seq<Pt> {
    if 0 <= place_of(keys, key) < values.len() {
        values[place_of(keys, key)]
    } else {
        Seq::empty()
    }
}

/// Whether one of the points is at the quantized position.
pub open spec fn visits(visited: Seq<Pt>, key: Key) -> bool {
    exists|i: int| 0 <= i < visited.len() && (#[trigger] visited[i]).key_spec() == key
}

/// The quantized positions of all the wire ends, list after list.
pub open spec fn flat(values: Seq<Seq<Pt>>) -> Seq<Key>
    decreases values.len(),
{
    if values.len() == 0 {
        Seq::empty()
    } else {
        flat(values.drop_last()) + values.last().map_values(|p: Pt| p.key_spec())
    }
}

/// How many of the positions are at none of the visited points.
pub open spec fn unvisited(us: Seq<Key>, visited: Seq<Pt>) -> nat
    decreases us.len(),
{
    if us.len() == 0 {
        0
    } else {
        unvisited(us.drop_last(), visited) + (if visits(visited, us.last()) {
            0nat
        } else {
            1nat
        })
    }
}

/// Visiting more points leaves no more positions unvisited.
pub proof fn lemma_unvisited_monotone(us: Seq<Key>, a: Seq<Pt>, b: Seq<Pt>)
    requires
        forall|k: Key| visits(a, k) ==> visits(b, k),
    ensures
        unvisited(us, b) <= unvisited(us, a),
    decreases us.len(),
{
    if us.len() > 0 {
        lemma_unvisited_monotone(us.drop_last(), a, b);
    }
}

/// Visiting a position that was unvisited leaves fewer positions unvisited.
pub proof fn lemma_unvisited_decreases(us: Seq<Key>, a: Seq<Pt>, b: Seq<Pt>, k: Key)
    requires
        forall|k: Key| visits(a, k) ==> visits(b, k),
        us.contains(k),
        !visits(a, k),
        visits(b, k),
    ensures
        unvisited(us, b) < unvisited(us, a),
    decreases us.len(),
{
    if us.len() > 0 {
        lemma_unvisited_monotone(us.drop_last(), a, b);
        if us.last() != k {
            let i = choose|i: int| 0 <= i < us.len() && us[i] == k;
            assert(us.drop_last()[i] == k);
            lemma_unvisited_decreases(us.drop_last(), a, b, k);
        }
    }
}

/// The points after `more` is visited too visit what the points before did.
pub proof fn lemma_visits_add(a: Seq<Pt>, more: Seq<Pt>)
    ensures
        forall|k: Key| visits(a, k) ==> visits(a + more, k),
        forall|k: Key| visits(more, k) ==> visits(a + more, k),
        forall|k: Key| visits(a + more, k) ==> visits(a, k) || visits(more, k),
{
    assert forall|k: Key| visits(a, k) implies visits(a + more, k) by {
        let i = choose|i: int| 0 <= i < a.len() && (#[trigger] a[i]).key_spec() == k;
        assert((a + more)[i] == a[i]);
    }
    assert forall|k: Key| visits(more, k) implies visits(a + more, k) by {
        let i = choose|i: int| 0 <= i < more.len() && (#[trigger] more[i]).key_spec() == k;
        assert((a + more)[a.len() + i] == more[i]);
    }
    assert forall|k: Key| visits(a + more, k) implies visits(a, k) || visits(more, k) by {
        let i = choose|i: int|
            0 <= i < (a + more).len() && (#[trigger] (a + more)[i]).key_spec() == k;
        if i < a.len() {
            assert(a[i].key_spec() == k);
        } else {
            assert(more[i - a.len()].key_spec() == k);
        }
    }
}

/// The depth-first walk through the points of `list`, one after the other:
/// a point at a visited position is passed over; any other point is visited
/// and found, then the walk goes through the other ends of the wires that
/// end there, and only then on to the next point of `list`. The result is
/// the points found, in the order in which they were found.
pub open spec fn walk(keys: Seq<Key>, values: Seq<Seq<Pt>>, list: Seq<Pt>, visited: Seq<Pt>) -> Seq<
    Pt,
>
    decreases unvisited(flat(values), visited), list.len(),
{
    if list.len() == 0 {
        Seq::empty()
    } else {
        let w = list[0];
        if visits(visited, w.key_spec()) || !flat(values).contains(w.key_spec()) {
            walk(keys, values, list.drop_first(), visited)
        } else {
            let v1 = visited.push(w);
            proof {
                assert(v1 =~= visited + seq![w]);
                lemma_visits_add(visited, seq![w]);
                assert(v1[visited.len() as int].key_spec() == w.key_spec());
                lemma_unvisited_decreases(flat(values), visited, v1, w.key_spec());
            }
            let f1 = walk(keys, values, neighbors(keys, values, w.key_spec()), v1);
            proof {
                lemma_visits_add(v1, f1);
                lemma_unvisited_monotone(flat(values), v1, v1 + f1);
            }
            seq![w] + f1 + walk(keys, values, list.drop_first(), v1 + f1)
        }
    }
}

/// The points that the wires connect to `pt`, through positions that were
/// not visited before: the depth-first walk from `pt`.
pub open spec fn seek(keys: Seq<Key>, values: Seq<Seq<Pt>>, pt: Pt, visited: Seq<Pt>) -> Seq<Pt> {
    walk(keys, values, neighbors(keys, values, pt.key_spec()), visited.push(pt))
}

/// The test that a point is at none of the visited positions.
pub open spec fn not_visited(visited: Seq<Pt>) -> spec_fn(Pt) -> bool {
    |p: Pt| !visits(visited, p.key_spec())
}

/// What is left to walk: for each list on the stack, from the bottom up, the
/// part of it that has not been taken yet.
pub open spec fn frames(values: Seq<Seq<Pt>>, stack: Seq<(usize, usize)>) -> Seq<Seq<Pt>> {
    stack.map_values(|f: (usize, usize)| values[f.0 as int].skip(f.1 as int))
}

/// The walk through the lists of a stack, from the top down.
pub open spec fn walk_stack(
    keys: Seq<Key>,
    values: Seq<Seq<Pt>>,
    pending: Seq<Seq<Pt>>,
    visited: Seq<Pt>,
) -> Seq<Pt>
    decreases pending.len(),
{
    if pending.len() == 0 {
        Seq::empty()
    } else {
        let f = walk(keys, values, pending.last(), visited);
        f + walk_stack(keys, values, pending.drop_last(), visited + f)
    }
}

/// The number of steps that the lists of a stack can still take without
/// visiting a new position.
pub open spec fn steps_left(pending: Seq<Seq<Pt>>) -> nat
    decreases pending.len(),
{
    if pending.len() == 0 {
        0
    } else {
        steps_left(pending.drop_last()) + pending.last().len() + 1
    }
}

/// Every end of a wire is among the quantized positions of the wire ends.
pub proof fn lemma_flat_contains(values: Seq<Seq<Pt>>, i: int, j: int)
    requires
        0 <= i < values.len(),
        0 <= j < values[i].len(),
    ensures
        flat(values).contains(values[i][j].key_spec()),
    decreases values.len(),
{
    let last = values.last().map_values(|p: Pt| p.key_spec());
    let rest = flat(values.drop_last());
    if i == values.len() - 1 {
        assert((rest + last)[rest.len() + j] == values[i][j].key_spec());
    } else {
        lemma_flat_contains(values.drop_last(), i, j);
        let k = choose|k: int| 0 <= k < rest.len() && rest[k] == values[i][j].key_spec();
        assert((rest + last)[k] == rest[k]);
    }
}

/// Whether one of the points is at the same quantized position as `p`.
pub fn contains_point(points: &Vec<Pt>, p: Pt) -> (r: bool)
    ensures
        r == visits(points@, p.key_spec()),
{
    let mut i: usize = 0;
    while i < points.len()
        invariant
            i <= points.len(),
            forall|j: int| 0 <= j < i ==> (#[trigger] points@[j]).key_spec() != p.key_spec(),
        decreases points.len() - i,
    {
        if points[i] == p {
            return true;
        }
        i += 1;
    }
    false
}

/// A connection point: what it is and where.
#[derive(Clone, Copy, Debug)]
pub enum NodePositions<'a> {
    Pin(Pt, &'a Pin, &'a Symbol),
    Label(Pt, &'a LocalLabel),
    GlobalLabel(Pt, &'a GlobalLabel),
    NoConnect(Pt),
    Junction(Pt),
}

impl<'a> NodePositions<'a> {
    /// Where the connection point is.
    pub open spec fn pos_spec(self) -> Pt {
        match self {
            NodePositions::Pin(p, _, _) => p,
            NodePositions::Label(p, _) => p,
            NodePositions::GlobalLabel(p, _) => p,
            NodePositions::NoConnect(p) => p,
            NodePositions::Junction(p) => p,
        }
    }

    /// Where the connection point is.
    pub fn pos(&self) -> (p: Pt)
        ensures
            p == self.pos_spec(),
    {
        match self {
            NodePositions::Pin(p, _, _) => *p,
            NodePositions::Label(p, _) => *p,
            NodePositions::GlobalLabel(p, _) => *p,
            NodePositions::NoConnect(p) => *p,
            NodePositions::Junction(p) => *p,
        }
    }
}

/// The map with `value` at `key`: in place of the value that the key had, or
/// behind the other keys.
pub open spec fn put_at<V>(keys: Seq<Key>, values: Seq<V>, key: Key, value: V) -> (Seq<Key>, Seq<V>) {
    let i = place_of(keys, key);
    if i < 0 {
        (keys.push(key), values.push(value))
    } else {
        (keys, values.update(i, value))
    }
}

/// Gives `key` the value.
pub fn put<V>(m: &mut OrderedMap<V>, key: Key, value: V)
    requires
        old(m).wf(),
    ensures
        final(m).wf(),
        (final(m).keys@, final(m).values@) == put_at(old(m).keys@, old(m).values@, key, value),
{
    match m.find(key) {
        Some(i) => {
            m.values.set(i, value);
        },
        None => {
            m.push(key, value);
        },
    }
}

/// The library identifiers of symbols that are left out of the netlist begin
/// with this.
pub const EXCLUDED_PREFIX: &'static str = "Mechanical:";

/// The library identifiers of power symbols begin with this.
pub const POWER_PREFIX: &'static str = "power:";

/// The position of an item that is a connection point by itself.
pub open spec fn point_of(pos: crate::gr::Pos) -> Pt {
    Pt { x: pos.x, y: pos.y }
}

/// The connection points with the pins of a placed symbol added, each at the
/// quantized position where the symbol's placement puts it; or the reason
/// why the first pin that cannot be placed cannot.
pub open spec fn add_pins(
    symbol: Symbol,
    pins: Seq<Pin>,
    keys: Seq<Key>,
    values: Seq<Seq<NodePositions<'static>>>,
) -> Result<(Seq<Key>, Seq<Seq<NodePositions<'static>>>), crate::ErrorKind>
    decreases pins.len(),
{
    if pins.len() == 0 {
        Ok((keys, values))
    } else {
        match add_pins(symbol, pins.drop_last(), keys, values) {
            Err(e) => Err(e),
            Ok((k, v)) => match crate::math::pin_place(symbol, pins.last()) {
                Err(e) => Err(e),
                Ok(p) => Ok(
                    append_at(k, v, p.key_spec(), NodePositions::Pin(p, &pins.last(), &symbol)),
                ),
            },
        }
    }
}

/// The connection points with those of one item added: the pins of the
/// active unit of a symbol, unless its library identifier has the excluded
/// prefix or the schema lacks its library symbol; a junction, a no-connect
/// mark, a local or a global label at its own position.
pub open spec fn add_item(
    schema: Schema,
    item: SchemaItem,
    keys: Seq<Key>,
    values: Seq<Seq<NodePositions<'static>>>,
) -> Result<(Seq<Key>, Seq<Seq<NodePositions<'static>>>), crate::ErrorKind> {
    match item {
        SchemaItem::Symbol(s) => if EXCLUDED_PREFIX@.is_prefix_of(s.lib_id@) {
            Ok((keys, values))
        } else {
            match crate::schema::library_of(schema.library_symbols@, s.lib_id@) {
                None => Ok((keys, values)),
                Some(lib) => add_pins(s, crate::symbols::unit_pins(lib.units@, s.unit), keys, values),
            }
        },
        SchemaItem::NoConnect(n) => Ok(
            append_at(
                keys,
                values,
                point_of(n.pos).key_spec(),
                NodePositions::NoConnect(point_of(n.pos)),
            ),
        ),
        SchemaItem::Junction(j) => Ok(
            append_at(
                keys,
                values,
                point_of(j.pos).key_spec(),
                NodePositions::Junction(point_of(j.pos)),
            ),
        ),
        SchemaItem::LocalLabel(l) => Ok(
            append_at(
                keys,
                values,
                point_of(l.pos).key_spec(),
                NodePositions::Label(point_of(l.pos), &l),
            ),
        ),
        SchemaItem::GlobalLabel(l) => Ok(
            append_at(
                keys,
                values,
                point_of(l.pos).key_spec(),
                NodePositions::GlobalLabel(point_of(l.pos), &l),
            ),
        ),
        _ => Ok((keys, values)),
    }
}

/// The connection points of the items, grouped by quantized position, in the
/// order in which the positions first occur; or the reason why the first pin
/// that cannot be placed cannot.
pub open spec fn positions_of(schema: Schema, items: Seq<SchemaItem>) -> Result<
    (Seq<Key>, Seq<Seq<NodePositions<'static>>>),
    crate::ErrorKind,
>
    decreases items.len(),
{
    if items.len() == 0 {
        Ok((Seq::empty(), Seq::empty()))
    } else {
        match positions_of(schema, items.drop_last()) {
            Err(e) => Err(e),
            Ok((k, v)) => add_item(schema, items.last(), k, v),
        }
    }
}

/// A failure among the first items is the failure of all.
pub proof fn lemma_positions_stay_failed(schema: Schema, items: Seq<SchemaItem>, n: int)
    requires
        0 <= n <= items.len(),
        positions_of(schema, items.take(n)) is Err,
    ensures
        positions_of(schema, items) == positions_of(schema, items.take(n)),
    decreases items.len() - n,
{
    if n < items.len() {
        assert(items.take(n + 1).drop_last() =~= items.take(n));
        lemma_positions_stay_failed(schema, items, n + 1);
    } else {
        assert(items.take(n) =~= items);
    }
}

/// A failure among the first pins is the failure of all.
pub proof fn lemma_add_pins_stay_failed(
    symbol: Symbol,
    pins: Seq<Pin>,
    keys: Seq<Key>,
    values: Seq<Seq<NodePositions<'static>>>,
    n: int,
)
    requires
        0 <= n <= pins.len(),
        add_pins(symbol, pins.take(n), keys, values) is Err,
    ensures
        add_pins(symbol, pins, keys, values) == add_pins(symbol, pins.take(n), keys, values),
    decreases pins.len() - n,
{
    if n < pins.len() {
        assert(pins.take(n + 1).drop_last() =~= pins.take(n));
        lemma_add_pins_stay_failed(symbol, pins, keys, values, n + 1);
    } else {
        assert(pins.take(n) =~= pins);
    }
}

/// What the points found by a walk add to a group: the points at positions
/// that hold connection points, and those connection points, in the order of
/// the walk.
pub open spec fn gather(
    keys: Seq<Key>,
    values: Seq<Seq<NodePositions<'static>>>,
    found: Seq<Pt>,
) -> (Seq<Pt>, Seq<NodePositions<'static>>)
    decreases found.len(),
{
    if found.len() == 0 {
        (Seq::empty(), Seq::empty())
    } else {
        let (p, n) = gather(keys, values, found.drop_last());
        let i = place_of(keys, found.last().key_spec());
        if 0 <= i < values.len() {
            (p.push(found.last()), n + values[i])
        } else {
            (p, n)
        }
    }
}

/// The state of the merge: the positions that belong to a group, the
/// positions that a walk has visited, and the groups.
pub struct Merge {
    /// The points at which a connection point was put into a group.
    pub visited_positions: Seq<Pt>,
    /// The points that the walks have visited.
    pub visited_wires: Seq<Pt>,
    /// For each group, the position from which its walk started.
    pub keys: Seq<Key>,
    /// The connection points of each group.
    pub groups: Seq<Seq<NodePositions<'static>>>,
}

/// The merge after the first `n` positions: each position that belongs to no
/// group yet starts a walk along the wires, and the connection points at
/// the positions that the walk finds are merged with its own into a group.
pub open spec fn merge(
    keys: Seq<Key>,
    values: Seq<Seq<NodePositions<'static>>>,
    wire_keys: Seq<Key>,
    wire_values: Seq<Seq<Pt>>,
    n: nat,
) -> Merge
    decreases n,
{
    if n == 0 || n > keys.len() || n > values.len() {
        Merge {
            visited_positions: Seq::empty(),
            visited_wires: Seq::empty(),
            keys: Seq::empty(),
            groups: Seq::empty(),
        }
    } else {
        let m = merge(keys, values, wire_keys, wire_values, (n - 1) as nat);
        let i = n - 1;
        if values[i].len() == 0 || visits(m.visited_positions, values[i][0].pos_spec().key_spec()) {
            m
        } else {
            let seed = values[i][0].pos_spec();
            let found = seek(wire_keys, wire_values, seed, m.visited_wires);
            let (points, nodes) = gather(keys, values, found);
            let (k, g) = put_at(m.keys, m.groups, keys[i], values[i] + nodes);
            Merge {
                visited_positions: m.visited_positions.push(seed) + points,
                visited_wires: m.visited_wires.push(seed) + found,
                keys: k,
                groups: g,
            }
        }
    }
}

/// Whether the connection point is a pin of a power symbol.
pub open spec fn is_power_pin(node: NodePositions<'static>) -> bool {
    node matches NodePositions::Pin(_, _, symbol) && POWER_PREFIX@.is_prefix_of(symbol.lib_id@)
}

/// Whether the connection point is a pin of a symbol that is no power symbol.
pub open spec fn is_plain_pin(node: NodePositions<'static>) -> bool {
    node matches NodePositions::Pin(_, _, symbol) && !POWER_PREFIX@.is_prefix_of(symbol.lib_id@)
}

/// The `Value` of the last pin of a power symbol.
pub open spec fn power_value(nodes: Seq<NodePositions<'static>>) -> Option<Seq<char>>
    decreases nodes.len(),
{
    if nodes.len() == 0 {
        None
    } else if is_power_pin(nodes.last()) {
        Some(
            crate::schema::property_of(
                nodes.last()->Pin_2.props@,
                crate::schema::PROPERTY_VALUE@,
            ),
        )
    } else {
        power_value(nodes.drop_last())
    }
}

/// The text of the last label, local or global.
pub open spec fn label_text(nodes: Seq<NodePositions<'static>>) -> Option<Seq<char>>
    decreases nodes.len(),
{
    if nodes.len() == 0 {
        None
    } else {
        match nodes.last() {
            NodePositions::Label(_, l) => Some(l.text@),
            NodePositions::GlobalLabel(_, l) => Some(l.text@),
            _ => label_text(nodes.drop_last()),
        }
    }
}

/// Whether one of the connection points is a pin of a symbol that is no
/// power symbol.
pub open spec fn has_plain_pin(nodes: Seq<NodePositions<'static>>) -> bool {
    exists|i: int| 0 <= i < nodes.len() && is_plain_pin(#[trigger] nodes[i])
}

/// The segment that names a pin: the reference of its symbol, `_`, and its
/// number.
pub open spec fn pin_segment(node: NodePositions<'static>) -> Seq<char>
    recommends
        node is Pin,
{
    crate::schema::property_of(node->Pin_2.props@, crate::schema::PROPERTY_REFERENCE@) + seq!['_']
        + node->Pin_1.number.name@
}

/// The name made of the pins: the segments of the pins of symbols that are
/// no power symbols, in order, with `__` between them.
pub open spec fn pin_names(nodes: Seq<NodePositions<'static>>) -> Seq<char>
    decreases nodes.len(),
{
    if nodes.len() == 0 {
        Seq::empty()
    } else if is_plain_pin(nodes.last()) {
        if has_plain_pin(nodes.drop_last()) {
            pin_names(nodes.drop_last()) + seq!['_', '_'] + pin_segment(nodes.last())
        } else {
            pin_names(nodes.drop_last()) + pin_segment(nodes.last())
        }
    } else {
        pin_names(nodes.drop_last())
    }
}

/// The name of a group: the `Value` of a power symbol if the group holds a
/// pin of one; else the text of a label if it holds one; else the name made
/// of its pins. Of several power symbols, or of several labels, the last
/// one counts.
pub open spec fn group_name(nodes: Seq<NodePositions<'static>>) -> Seq<char> {
    match power_value(nodes) {
        Some(v) => v,
        None => match label_text(nodes) {
            Some(t) => t,
            None => pin_names(nodes),
        },
    }
}

/// The names with `name` recorded for each of the points.
pub open spec fn name_points(
    keys: Seq<Key>,
    names: Seq<Seq<char>>,
    nodes: Seq<NodePositions<'static>>,
    name: Seq<char>,
) -> (Seq<Key>, Seq<Seq<char>>)
    decreases nodes.len(),
{
    if nodes.len() == 0 {
        (keys, names)
    } else {
        let (k, n) = name_points(keys, names, nodes.drop_last(), name);
        put_at(k, n, nodes.last().pos_spec().key_spec(), name)
    }
}

/// The names after the first `n` groups: the name of each group is recorded
/// for the position from which its walk started and for the position of each
/// of its connection points.
pub open spec fn names_of(keys: Seq<Key>, groups: Seq<Seq<NodePositions<'static>>>, n: nat) -> (
    Seq<Key>,
    Seq<Seq<char>>,
)
    decreases n,
{
    if n == 0 || n > keys.len() || n > groups.len() {
        (Seq::empty(), Seq::empty())
    } else {
        let (k, v) = names_of(keys, groups, (n - 1) as nat);
        let name = group_name(groups[n - 1]);
        let (k1, v1) = put_at(k, v, keys[n - 1], name);
        name_points(k1, v1, groups[n - 1], name)
    }
}

/// The characters of each string.
pub open spec fn texts(values: Seq<String>) -> Seq<Seq<char>> {
    values.map_values(|s: String| s@)
}

/// The groups and the names of a schema, or the reason why the first pin
/// that cannot be placed cannot.
pub open spec fn extraction(schema: Schema) -> Result<
    ((Seq<Key>, Seq<Seq<NodePositions<'static>>>), (Seq<Key>, Seq<Seq<char>>)),
    crate::ErrorKind,
> {
    match positions_of(schema, schema.items@) {
        Err(e) => Err(e),
        Ok((keys, values)) => {
            let (wire_keys, wire_values) = wires_of(schema.items@);
            let m = merge(keys, values, wire_keys, wire_values, keys.len());
            Ok(((m.keys, m.groups), names_of(m.keys, m.groups, m.keys.len())))
        },
    }
}

/// create a netlist from a schematic file.
pub struct Netlist<'a> {
    /// The groups: for the position of the connection point from which each
    /// walk started, the connection points that the walk merged.
    pub node_positions: OrderedMap<Vec<NodePositions<'a>>>,
    /// The name of the net at each position of a connection point.
    pub names: OrderedMap<String>,
}

impl<'a> Netlist<'a> {
    /// Collects the connection points of the schema, grouped by quantized
    /// position.
    ///
    /// Fails as the placement of the first pin that cannot be placed.
    pub fn collect_points(schema: &'a Schema) -> (r: Result<
        OrderedMap<Vec<NodePositions<'a>>>,
        Error,
    >)
        ensures
            match r {
                Ok(m) => m.wf() && positions_of(*schema, schema.items@) == Ok::<
                    (Seq<Key>, Seq<Seq<NodePositions<'static>>>),
                    ErrorKind,
                >((m.keys@, lists(m.values@))),
                Err(e) => positions_of(*schema, schema.items@) == Err::<
                    (Seq<Key>, Seq<Seq<NodePositions<'static>>>),
                    ErrorKind,
                >(e.0),
            },
    {
        let mut positions: OrderedMap<Vec<NodePositions<'a>>> = OrderedMap::new();
        let mut i: usize = 0;
        assert(schema.items@.take(0) =~= Seq::<SchemaItem>::empty());
        assert(lists(positions.values@) =~= Seq::<Seq<NodePositions<'static>>>::empty());
        assert(positions.keys@ =~= Seq::<Key>::empty());
        while i < schema.items.len()
            invariant
                i <= schema.items.len(),
                positions.wf(),
                positions_of(*schema, schema.items@.take(i as int)) == Ok::<
                    (Seq<Key>, Seq<Seq<NodePositions<'static>>>),
                    ErrorKind,
                >((positions.keys@, lists(positions.values@))),
            decreases schema.items.len() - i,
        {
            assert(schema.items@.take(i + 1).drop_last() =~= schema.items@.take(i as int));
            assert(schema.items@.take(i + 1).last() == schema.items@[i as int]);
            match &schema.items[i] {
                SchemaItem::Symbol(symbol) => {
                    if !starts_with(symbol.lib_id.as_str(), EXCLUDED_PREFIX) {
                        if let Some(lib) = schema.library_symbol(symbol.lib_id.as_str()) {
                            let pins = lib.pins(symbol.unit);
                            let ghost all = unit_pins(lib.units@, symbol.unit);
                            let ghost k0 = positions.keys@;
                            let ghost v0 = lists(positions.values@);
                            let mut k: usize = 0;
                            assert(all.take(0) =~= Seq::<Pin>::empty());
                            while k < pins.len()
                                invariant
                                    k <= pins.len(),
                                    pins@.len() == all.len(),
                                    forall|j: int| 0 <= j < pins@.len() ==> *pins@[j] == all[j],
                                    positions.wf(),
                                    add_pins(*symbol, all.take(k as int), k0, v0) == Ok::<
                                        (Seq<Key>, Seq<Seq<NodePositions<'static>>>),
                                        ErrorKind,
                                    >((positions.keys@, lists(positions.values@))),
                                    i < schema.items.len(),
                                    schema.items@[i as int] == SchemaItem::Symbol(*symbol),
                                    !EXCLUDED_PREFIX@.is_prefix_of(symbol.lib_id@),
                                    library_of(schema.library_symbols@, symbol.lib_id@) == Some(
                                        *lib,
                                    ),
                                    all == unit_pins(lib.units@, symbol.unit),
                                    positions_of(*schema, schema.items@.take(i as int)) == Ok::<
                                        (Seq<Key>, Seq<Seq<NodePositions<'static>>>),
                                        ErrorKind,
                                    >((k0, v0)),
                                    schema.items@.take(i + 1).drop_last() == schema.items@.take(
                                        i as int,
                                    ),
                                    schema.items@.take(i + 1).last() == schema.items@[i as int],
                                decreases pins.len() - k,
                            {
                                assert(all.take(k + 1).drop_last() =~= all.take(k as int));
                                assert(all.take(k + 1).last() == all[k as int]);
                                match pin_position(symbol, pins[k]) {
                                    Ok(pin_pos) => {
                                        append(
                                            &mut positions,
                                            pin_pos.key(),
                                            NodePositions::Pin(pin_pos, pins[k], symbol),
                                        );
                                    },
                                    Err(e) => {
                                        proof {
                                            lemma_add_pins_stay_failed(
                                                *symbol,
                                                all,
                                                k0,
                                                v0,
                                                k + 1,
                                            );
                                            lemma_positions_stay_failed(
                                                *schema,
                                                schema.items@,
                                                i + 1,
                                            );
                                        }
                                        return Err(e);
                                    },
                                }
                                k += 1;
                            }
                            assert(all.take(k as int) =~= all);
                        }
                    }
                },
                SchemaItem::NoConnect(nc) => {
                    let p = Pt { x: nc.pos.x, y: nc.pos.y };
                    append(&mut positions, p.key(), NodePositions::NoConnect(p));
                },
                SchemaItem::Junction(junction) => {
                    let p = Pt { x: junction.pos.x, y: junction.pos.y };
                    append(&mut positions, p.key(), NodePositions::Junction(p));
                },
                SchemaItem::LocalLabel(label) => {
                    let p = Pt { x: label.pos.x, y: label.pos.y };
                    append(&mut positions, p.key(), NodePositions::Label(p, label));
                },
                SchemaItem::GlobalLabel(label) => {
                    let p = Pt { x: label.pos.x, y: label.pos.y };
                    append(&mut positions, p.key(), NodePositions::GlobalLabel(p, label));
                },
                _ => {},
            }
            i += 1;
        }
        assert(schema.items@.take(i as int) =~= schema.items@);
        Ok(positions)
    }

    /// Names each group, and records the name for the position from which
    /// the group's walk started and for the position of each of its
    /// connection points.
    pub fn generate_names(results: &OrderedMap<Vec<NodePositions<'a>>>) -> (names: OrderedMap<
        String,
    >)
        requires
            results.wf(),
        ensures
            names.wf(),
            (names.keys@, texts(names.values@)) == names_of(
                results.keys@,
                lists(results.values@),
                results.keys@.len(),
            ),
    {
        let mut names: OrderedMap<String> = OrderedMap::new();
        let mut g: usize = 0;
        assert(texts(names.values@) =~= Seq::<Seq<char>>::empty());
        while g < results.keys.len()
            invariant
                g <= results.keys.len(),
                results.wf(),
                names.wf(),
                (names.keys@, texts(names.values@)) == names_of(
                    results.keys@,
                    lists(results.values@),
                    g as nat,
                ),
            decreases results.keys.len() - g,
        {
            let items = &results.values[g];
            assert(lists(results.values@)[g as int] == items@);
            let name = group_name_of(items);
            put_name(&mut names, results.keys[g], &name);
            let ghost k1 = names.keys@;
            let ghost v1 = texts(names.values@);
            let mut i: usize = 0;
            assert(items@.take(0) =~= Seq::<NodePositions<'static>>::empty());
            while i < items.len()
                invariant
                    i <= items.len(),
                    names.wf(),
                    name@ == group_name(items@),
                    (names.keys@, texts(names.values@)) == name_points(
                        k1,
                        v1,
                        items@.take(i as int),
                        name@,
                    ),
                decreases items.len() - i,
            {
                assert(items@.take(i + 1).drop_last() =~= items@.take(i as int));
                assert(items@.take(i + 1).last() == items@[i as int]);
                let p = items[i].pos();
                put_name(&mut names, p.key(), &name);
                i += 1;
            }
            assert(items@.take(i as int) =~= items@);
            g += 1;
        }
        names
    }

    /// Extracts the netlist of a schema: the groups of connection points
    /// that the wires connect, and the name of the net at each position of a
    /// connection point.
    ///
    /// Fails as the placement of the first pin that cannot be placed.
    pub fn from(schema: &'a Schema) -> (r: Result<Self, Error>)
        ensures
            match r {
                Ok(n) => n.wf() && extraction(*schema) == Ok::<
                    ((Seq<Key>, Seq<Seq<NodePositions<'static>>>), (Seq<Key>, Seq<Seq<char>>)),
                    ErrorKind,
                >(n.view()),
                Err(e) => extraction(*schema) == Err::<
                    ((Seq<Key>, Seq<Seq<NodePositions<'static>>>), (Seq<Key>, Seq<Seq<char>>)),
                    ErrorKind,
                >(e.0),
            },
    {
        let wires = Netlist::wires(schema);
        let positions = match Netlist::collect_points(schema) {
            Ok(p) => p,
            Err(e) => {
                return Err(e);
            },
        };
        let ghost keys = positions.keys@;
        let ghost values = lists(positions.values@);
        let ghost wire_keys = wires.keys@;
        let ghost wire_values = lists(wires.values@);
        let mut final_positions: OrderedMap<Vec<NodePositions<'a>>> = OrderedMap::new();
        let mut visited_positions: Vec<Pt> = Vec::new();
        let mut visited_wires: Vec<Pt> = Vec::new();
        let mut i: usize = 0;
        assert(lists(final_positions.values@) =~= Seq::<Seq<NodePositions<'static>>>::empty());
        assert(final_positions.keys@ =~= Seq::<Key>::empty());
        assert(visited_positions@ =~= Seq::<Pt>::empty());
        assert(visited_wires@ =~= Seq::<Pt>::empty());
        while i < positions.keys.len()
            invariant
                i <= positions.keys.len(),
                positions.wf(),
                wires.wf(),
                final_positions.wf(),
                keys == positions.keys@,
                values == lists(positions.values@),
                wire_keys == wires.keys@,
                wire_values == lists(wires.values@),
                merge(keys, values, wire_keys, wire_values, i as nat) == (Merge {
                    visited_positions: visited_positions@,
                    visited_wires: visited_wires@,
                    keys: final_positions.keys@,
                    groups: lists(final_positions.values@),
                }),
            decreases positions.keys.len() - i,
        {
            let nodes = &positions.values[i];
            assert(values[i as int] == nodes@);
            if nodes.len() > 0 {
                let seed = nodes[0].pos();
                if !contains_point(&visited_positions, seed) {
                    let ghost vp0 = visited_positions@;
                    let mut new_nodes: Vec<NodePositions<'a>> = Vec::new();
                    let mut c: usize = 0;
                    while c < nodes.len()
                        invariant
                            c <= nodes.len(),
                            new_nodes@ == nodes@.take(c as int),
                        decreases nodes.len() - c,
                    {
                        new_nodes.push(nodes[c]);
                        assert(new_nodes@ =~= nodes@.take(c + 1));
                        c += 1;
                    }
                    assert(nodes@.take(c as int) =~= nodes@);
                    visited_positions.push(seed);
                    let found = Netlist::seek_wire(seed, &wires, &mut visited_wires);
                    let mut f: usize = 0;
                    assert(found@.take(0) =~= Seq::<Pt>::empty());
                    assert(visited_positions@ =~= vp0.push(seed) + gather(
                        keys,
                        values,
                        found@.take(0),
                    ).0);
                    assert(new_nodes@ =~= nodes@ + gather(keys, values, found@.take(0)).1);
                    while f < found.len()
                        invariant
                            f <= found.len(),
                            positions.wf(),
                            keys == positions.keys@,
                            values == lists(positions.values@),
                            visited_positions@ == vp0.push(seed) + gather(
                                keys,
                                values,
                                found@.take(f as int),
                            ).0,
                            new_nodes@ == nodes@ + gather(keys, values, found@.take(f as int)).1,
                        decreases found.len() - f,
                    {
                        assert(found@.take(f + 1).drop_last() =~= found@.take(f as int));
                        assert(found@.take(f + 1).last() == found@[f as int]);
                        let ghost before_points = gather(keys, values, found@.take(f as int)).0;
                        let ghost before_nodes = gather(keys, values, found@.take(f as int)).1;
                        if let Some(j) = positions.find(found[f].key()) {
                            visited_positions.push(found[f]);
                            let other = &positions.values[j];
                            assert(values[j as int] == other@);
                            let ghost start = new_nodes@;
                            let mut c: usize = 0;
                            while c < other.len()
                                invariant
                                    c <= other.len(),
                                    new_nodes@ == start + other@.take(c as int),
                                decreases other.len() - c,
                            {
                                new_nodes.push(other[c]);
                                assert(new_nodes@ =~= start + other@.take(c + 1));
                                c += 1;
                            }
                            assert(other@.take(c as int) =~= other@);
                            assert(new_nodes@ =~= nodes@ + (before_nodes + other@));
                            assert(visited_positions@ =~= vp0.push(seed) + before_points.push(
                                found@[f as int],
                            ));
                        }
                        f += 1;
                    }
                    assert(found@.take(f as int) =~= found@);
                    put_list(&mut final_positions, positions.keys[i], new_nodes);
                }
            }
            i += 1;
        }
        let names = Netlist::generate_names(&final_positions);
        Ok(Netlist { names, node_positions: final_positions })
    }

    /// The invariant of a netlist: that of its two maps.
    pub open spec fn wf(self) -> bool {
        self.node_positions.wf() && self.names.wf()
    }

    /// The groups and the names: for each, the keys and the values.
    pub open spec fn view(self) -> (
        (Seq<Key>, Seq<Seq<NodePositions<'static>>>),
        (Seq<Key>, Seq<Seq<char>>),
    ) {
        (
            (self.node_positions.keys@, lists(self.node_positions.values@)),
            (self.names.keys@, texts(self.names.values@)),
        )
    }

    /// The name recorded for a quantized position.
    pub open spec fn name_at(self, key: Key) -> Option<Seq<char>> {
        if 0 <= place_of(self.names.keys@, key) < self.names.values@.len() {
            Some(self.names.values@[place_of(self.names.keys@, key)]@)
        } else {
            None
        }
    }

    /// The name of the net at a point: the name recorded for its quantized
    /// position.
    pub fn netname(&self, pt: Pt) -> (r: Option<String>)
        requires
            self.wf(),
        ensures
            match r {
                Some(s) => self.name_at(pt.key_spec()) == Some(s@),
                None => self.name_at(pt.key_spec()) is None,
            },
    {
        match self.names.find(pt.key()) {
            Some(i) => Some(self.names.values[i].clone()),
            None => None,
        }
    }

    /// Collects the wires of the schema into a graph: for every wire both
    /// directed edges, keyed by the quantized position of the end they start
    /// from. A wire with fewer than two points is passed over.
    pub fn wires(schema: &Schema) -> (wires: OrderedMap<Vec<Pt>>)
        ensures
            wires.wf(),
            (wires.keys@, lists(wires.values@)) == wires_of(schema.items@),
    {
        let mut wires: OrderedMap<Vec<Pt>> = OrderedMap::new();
        let mut i: usize = 0;
        assert(schema.items@.take(0) =~= Seq::<SchemaItem>::empty());
        assert(lists(wires.values@) =~= Seq::<Seq<Pt>>::empty());
        while i < schema.items.len()
            invariant
                i <= schema.items.len(),
                wires.wf(),
                (wires.keys@, lists(wires.values@)) == wires_of(schema.items@.take(i as int)),
            decreases schema.items.len() - i,
        {
            assert(schema.items@.take(i + 1).drop_last() =~= schema.items@.take(i as int));
            assert(schema.items@.take(i + 1).last() == schema.items@[i as int]);
            if let SchemaItem::Wire(w) = &schema.items[i] {
                if w.pts.0.len() >= 2 {
                    let pt0 = w.pts.0[0];
                    let pt1 = w.pts.0[1];
                    append(&mut wires, pt0.key(), pt1);
                    append(&mut wires, pt1.key(), pt0);
                }
            }
            i += 1;
        }
        assert(schema.items@.take(i as int) =~= schema.items@);
        wires
    }

    /// Visits `pt` and gives the other ends of the wires that end there, but
    /// for those at a visited position; `None` if no wire ends at `pt`.
    pub fn get_wire(pt: Pt, wires: &OrderedMap<Vec<Pt>>, visited: &mut Vec<Pt>) -> (r: Option<
        Vec<Pt>,
    >)
        requires
            wires.wf(),
        ensures
            final(visited)@ == old(visited)@.push(pt),
            match r {
                Some(v) => place_of(wires.keys@, pt.key_spec()) >= 0 && v@ == neighbors(
                    wires.keys@,
                    lists(wires.values@),
                    pt.key_spec(),
                ).filter(not_visited(old(visited)@.push(pt))),
                None => place_of(wires.keys@, pt.key_spec()) < 0,
            },
    {
        visited.push(pt);
        match wires.find(pt.key()) {
            None => None,
            Some(slot) => {
                let list = &wires.values[slot];
                let ghost pred = not_visited(old(visited)@.push(pt));
                let mut out: Vec<Pt> = Vec::new();
                let mut i: usize = 0;
                assert(list@.take(0) =~= Seq::<Pt>::empty());
                while i < list.len()
                    invariant
                        i <= list.len(),
                        visited@ == old(visited)@.push(pt),
                        pred == not_visited(old(visited)@.push(pt)),
                        out@ == list@.take(i as int).filter(pred),
                    decreases list.len() - i,
                {
                    assert(list@.take(i + 1).drop_last() =~= list@.take(i as int));
                    assert(list@.take(i + 1).last() == list@[i as int]);
                    assert(pred(list@[i as int]) == !visits(visited@, list@[i as int].key_spec()));
                    reveal_with_fuel(Seq::filter, 2);
                    if !contains_point(visited, list[i]) {
                        out.push(list[i]);
                    }
                    i += 1;
                }
                assert(list@.take(i as int) =~= list@);
                assert(lists(wires.values@)[slot as int] == list@);
                Some(out)
            },
        }
    }

    /// Visits `pt` and walks the wires from it, depth first: the points that
    /// the wires connect to it through positions that were not visited, in
    /// the order in which the walk finds them. Every point found is visited.
    #[verifier::rlimit(50)]
    pub fn seek_wire(pt: Pt, wires: &OrderedMap<Vec<Pt>>, visited: &mut Vec<Pt>) -> (found: Vec<Pt>)
        requires
            wires.wf(),
        ensures
            found@ == seek(wires.keys@, lists(wires.values@), pt, old(visited)@),
            final(visited)@ == old(visited)@.push(pt) + found@,
    {
        let ghost keys = wires.keys@;
        let ghost values = lists(wires.values@);
        let ghost all = seek(keys, values, pt, old(visited)@);
        let mut found: Vec<Pt> = Vec::new();
        visited.push(pt);
        let mut stack: Vec<(usize, usize)> = Vec::new();
        match wires.find(pt.key()) {
            Some(slot) => {
                stack.push((slot, 0));
                assert(values[slot as int].skip(0) =~= values[slot as int]);
                assert(frames(values, stack@) =~= seq![values[slot as int]]);
                assert(walk_stack(keys, values, seq![values[slot as int]].drop_last(), visited@ + all)
                    =~= Seq::<Pt>::empty());
                assert(all =~= found@ + walk_stack(keys, values, frames(values, stack@), visited@));
            },
            None => {
                assert(frames(values, stack@) =~= Seq::<Seq<Pt>>::empty());
                assert(all =~= found@ + walk_stack(keys, values, frames(values, stack@), visited@));
            },
        }
        assert(visited@ =~= old(visited)@.push(pt) + found@);
        while stack.len() > 0
            invariant
                wires.wf(),
                keys == wires.keys@,
                values == lists(wires.values@),
                forall|i: int|
                    0 <= i < stack@.len() ==> (#[trigger] stack@[i]).0 < wires.values@.len()
                        && stack@[i].1 <= wires.values@[stack@[i].0 as int]@.len(),
                all == found@ + walk_stack(keys, values, frames(values, stack@), visited@),
                visited@ == old(visited)@.push(pt) + found@,
            decreases unvisited(flat(values), visited@), steps_left(frames(values, stack@)),
        {
            let top = stack.len() - 1;
            let (slot, idx) = stack[top];
            let ghost pending = frames(values, stack@);
            let ghost below = pending.drop_last();
            let ghost list = pending.last();
            assert(list == values[slot as int].skip(idx as int));
            assert(values[slot as int] == wires.values@[slot as int]@);
            if idx >= wires.values[slot].len() {
                stack.pop();
                assert(frames(values, stack@) =~= below);
                assert(list.len() == 0);
                assert(visited@ + Seq::<Pt>::empty() =~= visited@);
            } else {
                let w = wires.values[slot][idx];
                stack.set(top, (slot, idx + 1));
                let ghost rest = list.drop_first();
                assert(list[0] == w);
                assert(rest =~= values[slot as int].skip(idx + 1));
                proof {
                    lemma_flat_contains(values, slot as int, idx as int);
                }
                if contains_point(visited, w) {
                    assert(frames(values, stack@) =~= below.push(rest));
                    assert(below.push(rest).drop_last() =~= below);
                } else {
                    let ghost v0 = visited@;
                    visited.push(w);
                    found.push(w);
                    let ghost v1 = visited@;
                    let ghost f1 = walk(keys, values, neighbors(keys, values, w.key_spec()), v1);
                    proof {
                        assert(v1 =~= v0 + seq![w]);
                        lemma_visits_add(v0, seq![w]);
                        assert(v1[v0.len() as int].key_spec() == w.key_spec());
                        lemma_unvisited_decreases(flat(values), v0, v1, w.key_spec());
                        assert(walk(keys, values, list, v0) == seq![w] + f1 + walk(
                            keys,
                            values,
                            rest,
                            v1 + f1,
                        ));
                        assert(v0 + (seq![w] + f1 + walk(keys, values, rest, v1 + f1)) =~= v1 + f1
                            + walk(keys, values, rest, v1 + f1));
                    }
                    match wires.find(w.key()) {
                        Some(next) => {
                            stack.push((next, 0));
                            proof {
                                assert(values[next as int].skip(0) =~= values[next as int]);
                                assert(neighbors(keys, values, w.key_spec()) == values[next as int]);
                                let now = frames(values, stack@);
                                assert(now =~= below.push(rest).push(values[next as int]));
                                assert(now.drop_last() =~= below.push(rest));
                                assert(below.push(rest).drop_last() =~= below);
                                let f2 = walk(keys, values, rest, v1 + f1);
                                let tail = walk_stack(keys, values, below, v1 + f1 + f2);
                                assert(walk_stack(keys, values, pending, v0) == walk(
                                    keys,
                                    values,
                                    list,
                                    v0,
                                ) + walk_stack(
                                    keys,
                                    values,
                                    below,
                                    v0 + walk(keys, values, list, v0),
                                ));
                                assert(walk_stack(keys, values, below.push(rest), v1 + f1) == f2
                                    + tail);
                                assert(walk_stack(keys, values, now, v1) == f1 + (f2 + tail));
                                assert(all =~= found@ + walk_stack(keys, values, now, v1));
                            }
                        },
                        None => {
                            proof {
                                lemma_place_of(keys, w.key_spec());
                                assert(neighbors(keys, values, w.key_spec()) =~= Seq::<Pt>::empty());
                                assert(f1 =~= Seq::<Pt>::empty());
                                assert(v1 + f1 =~= v1);
                                let now = frames(values, stack@);
                                assert(now =~= below.push(rest));
                                assert(below.push(rest).drop_last() =~= below);
                                let f2 = walk(keys, values, rest, v1 + f1);
                                let tail = walk_stack(keys, values, below, v1 + f1 + f2);
                                assert(walk_stack(keys, values, pending, v0) == walk(
                                    keys,
                                    values,
                                    list,
                                    v0,
                                ) + walk_stack(
                                    keys,
                                    values,
                                    below,
                                    v0 + walk(keys, values, list, v0),
                                ));
                                assert(walk_stack(keys, values, now, v1) == f2 + tail);
                                assert(all =~= found@ + walk_stack(keys, values, now, v1));
                            }
                        },
                    }
                    assert(visited@ =~= old(visited)@.push(pt) + found@);
                }
            }
        }
        assert(frames(values, stack@) =~= Seq::<Seq<Pt>>::empty());
        assert(all =~= found@);
        found
    }
}

/// Gives `key` the list.
fn put_list<T>(m: &mut OrderedMap<Vec<T>>, key: Key, list: Vec<T>)
    requires
        old(m).wf(),
    ensures
        final(m).wf(),
        (final(m).keys@, lists(final(m).values@)) == put_at(
            old(m).keys@,
            lists(old(m).values@),
            key,
            list@,
        ),
{
    put(m, key, list);
    proof {
        lemma_place_of(old(m).keys@, key);
        let i = place_of(old(m).keys@, key);
        if i < 0 {
            assert(lists(m.values@) =~= lists(old(m).values@).push(list@));
        } else {
            assert(lists(m.values@) =~= lists(old(m).values@).update(i, list@));
        }
    }
}

/// Records a copy of the name for the position.
fn put_name(names: &mut OrderedMap<String>, key: Key, name: &String)
    requires
        old(names).wf(),
    ensures
        final(names).wf(),
        (final(names).keys@, texts(final(names).values@)) == put_at(
            old(names).keys@,
            texts(old(names).values@),
            key,
            name@,
        ),
{
    put(names, key, name.clone());
    proof {
        lemma_place_of(old(names).keys@, key);
        let i = place_of(old(names).keys@, key);
        if i < 0 {
            assert(texts(names.values@) =~= texts(old(names).values@).push(name@));
        } else {
            assert(texts(names.values@) =~= texts(old(names).values@).update(i, name@));
        }
    }
}

/// The name of a group: see `group_name`.
pub fn group_name_of(items: &Vec<NodePositions<'_>>) -> (name: String)
    ensures
        name@ == group_name(items@),
{
    let mut name = String::new();
    let mut power: Option<String> = None;
    let mut label: Option<String> = None;
    let mut first = true;
    let mut i: usize = 0;
    assert(items@.take(0) =~= Seq::<NodePositions<'static>>::empty());
    while i < items.len()
        invariant
            i <= items.len(),
            name@ == pin_names(items@.take(i as int)),
            first == !has_plain_pin(items@.take(i as int)),
            match power {
                Some(s) => power_value(items@.take(i as int)) == Some(s@),
                None => power_value(items@.take(i as int)) is None,
            },
            match label {
                Some(s) => label_text(items@.take(i as int)) == Some(s@),
                None => label_text(items@.take(i as int)) is None,
            },
        decreases items.len() - i,
    {
        let ghost before = items@.take(i as int);
        let ghost now = items@.take(i + 1);
        assert(now.drop_last() =~= before);
        assert(now.last() == items@[i as int]);
        proof {
            if has_plain_pin(before) {
                let j = choose|j: int| 0 <= j < before.len() && is_plain_pin(#[trigger] before[j]);
                assert(is_plain_pin(now[j]));
            }
            if has_plain_pin(now) && !is_plain_pin(now.last()) {
                let j = choose|j: int| 0 <= j < now.len() && is_plain_pin(#[trigger] now[j]);
                assert(is_plain_pin(before[j]));
            }
            if is_plain_pin(now.last()) {
                assert(is_plain_pin(now[i as int]));
            }
        }
        match &items[i] {
            NodePositions::Pin(_, pin, symbol) => {
                if starts_with(symbol.lib_id.as_str(), POWER_PREFIX) {
                    power = Some(symbol.property(PROPERTY_VALUE));
                } else {
                    if first {
                        first = false;
                    } else {
                        name.append("__");
                        proof {
                            reveal_strlit("__");
                            assert("__"@ =~= seq!['_', '_']);
                        }
                    }
                    let reference = symbol.property(PROPERTY_REFERENCE);
                    name.append(reference.as_str());
                    name.push('_');
                    name.append(pin.number.name.as_str());
                    assert(name@ =~= pin_names(now));
                }
            },
            NodePositions::Label(_, l) => {
                label = Some(l.text.clone());
            },
            NodePositions::GlobalLabel(_, l) => {
                label = Some(l.text.clone());
            },
            NodePositions::NoConnect(_) => {},
            NodePositions::Junction(_) => {},
        }
        i += 1;
    }
    assert(items@.take(i as int) =~= items@);
    match power {
        Some(s) => s,
        None => match label {
            Some(s) => s,
            None => name,
        },
    }
}

/// Adding an item to the list of a key puts it into that list.
pub proof fn lemma_append_at_adds<T>(keys: Seq<Key>, values: Seq<Seq<T>>, key: Key, item: T)
    requires
        keys.len() == values.len(),
    ensures
        append_at(keys, values, key, item).0.len() == append_at(keys, values, key, item).1.len(),
        0 <= place_of(append_at(keys, values, key, item).0, key) < append_at(
            keys,
            values,
            key,
            item,
        ).1.len(),
        append_at(keys, values, key, item).1[place_of(
            append_at(keys, values, key, item).0,
            key,
        )].contains(item),
{
    let (k2, v2) = append_at(keys, values, key, item);
    let i = place_of(keys, key);
    lemma_place_of(keys, key);
    if i < 0 {
        assert(k2.drop_last() =~= keys);
        assert(place_of(k2, key) == keys.len());
        assert(v2[keys.len() as int][0] == item);
    } else {
        let grown = values[i].push(item);
        assert(grown[values[i].len() as int] == item);
    }
}

/// Adding an item to the list of a key takes nothing out of any list.
pub proof fn lemma_append_at_keeps<T>(
    keys: Seq<Key>,
    values: Seq<Seq<T>>,
    key: Key,
    item: T,
    k: Key,
    x: T,
)
    requires
        keys.len() == values.len(),
        0 <= place_of(keys, k) < values.len(),
        values[place_of(keys, k)].contains(x),
    ensures
        0 <= place_of(append_at(keys, values, key, item).0, k) < append_at(
            keys,
            values,
            key,
            item,
        ).1.len(),
        append_at(keys, values, key, item).1[place_of(
            append_at(keys, values, key, item).0,
            k,
        )].contains(x),
{
    let (k2, v2) = append_at(keys, values, key, item);
    let i = place_of(keys, key);
    lemma_place_of(keys, key);
    lemma_place_of(keys, k);
    if i < 0 {
        assert(k2.drop_last() =~= keys);
        assert(place_of(k2, k) == place_of(keys, k));
    } else {
        let p = place_of(keys, k);
        let grown = values[i].push(item);
        if p == i {
            let j = choose|j: int| 0 <= j < values[i].len() && values[i][j] == x;
            assert(grown[j] == x);
        }
    }
}

/// The wire graph has a list for each of its keys.
pub proof fn lemma_wires_of_len(items: Seq<SchemaItem>)
    ensures
        wires_of(items).0.len() == wires_of(items).1.len(),
    decreases items.len(),
{
    if items.len() > 0 {
        lemma_wires_of_len(items.drop_last());
        let (k, v) = wires_of(items.drop_last());
        match wire_ends(items.last()) {
            Some((a, b)) => {
                lemma_append_at_adds(k, v, a.key_spec(), b);
                let (k1, v1) = append_at(k, v, a.key_spec(), b);
                lemma_append_at_adds(k1, v1, b.key_spec(), a);
            },
            None => {},
        }
    }
}

/// Whether the wire graph leads from the position of `a` to the point `b`.
pub open spec fn connects(keys: Seq<Key>, values: Seq<Seq<Pt>>, a: Pt, b: Pt) -> bool {
    neighbors(keys, values, a.key_spec()).contains(b)
}

/// The wire graph is symmetric: for every wire it leads from each end to
/// the other.
pub proof fn lemma_wires_symmetric(items: Seq<SchemaItem>, i: int)
    requires
        0 <= i < items.len(),
        wire_ends(items[i]) is Some,
    ensures
        ({
            let ends = wire_ends(items[i])->Some_0;
            let graph = wires_of(items);
            connects(graph.0, graph.1, ends.0, ends.1) && connects(graph.0, graph.1, ends.1, ends.0)
        }),
    decreases items.len(),
{
    let (p, q) = wire_ends(items[i])->Some_0;
    let (k, v) = wires_of(items.drop_last());
    lemma_wires_of_len(items.drop_last());
    if i < items.len() - 1 {
        assert(items.drop_last()[i] == items[i]);
        lemma_wires_symmetric(items.drop_last(), i);
        match wire_ends(items.last()) {
            Some((a, b)) => {
                lemma_append_at_adds(k, v, a.key_spec(), b);
                lemma_append_at_keeps(k, v, a.key_spec(), b, p.key_spec(), q);
                lemma_append_at_keeps(k, v, a.key_spec(), b, q.key_spec(), p);
                let (k1, v1) = append_at(k, v, a.key_spec(), b);
                lemma_append_at_keeps(k1, v1, b.key_spec(), a, p.key_spec(), q);
                lemma_append_at_keeps(k1, v1, b.key_spec(), a, q.key_spec(), p);
            },
            None => {},
        }
    } else {
        lemma_append_at_adds(k, v, p.key_spec(), q);
        let (k1, v1) = append_at(k, v, p.key_spec(), q);
        lemma_append_at_adds(k1, v1, q.key_spec(), p);
        lemma_append_at_keeps(k1, v1, q.key_spec(), p, p.key_spec(), q);
    }
}

/// Two extractions from one schema give the same groups and the same name
/// at every position.
pub proof fn lemma_extraction_is_a_function(schema: Schema, a: Netlist<'_>, b: Netlist<'_>, key: Key)
    requires
        a.wf(),
        b.wf(),
        extraction(schema) == Ok::<
            ((Seq<Key>, Seq<Seq<NodePositions<'static>>>), (Seq<Key>, Seq<Seq<char>>)),
            ErrorKind,
        >(a.view()),
        extraction(schema) == Ok::<
            ((Seq<Key>, Seq<Seq<NodePositions<'static>>>), (Seq<Key>, Seq<Seq<char>>)),
            ErrorKind,
        >(b.view()),
    ensures
        a.view() == b.view(),
        a.name_at(key) == b.name_at(key),
{
    let i = place_of(a.names.keys@, key);
    lemma_place_of(a.names.keys@, key);
    assert(texts(a.names.values@) == texts(b.names.values@));
    assert(texts(a.names.values@).len() == a.names.values@.len());
    assert(texts(b.names.values@).len() == b.names.values@.len());
    if 0 <= i < a.names.values@.len() {
        assert(texts(a.names.values@)[i] == a.names.values@[i]@);
        assert(texts(b.names.values@)[i] == b.names.values@[i]@);
    }
}

/// The line that lists a connection point.
pub open spec fn node_line(node: NodePositions) -> Seq<char> {
    match node {
        NodePositions::Pin(_, pin, symbol) => "    Pin("@ + crate::schema::property_of(
            symbol.props@,
            PROPERTY_REFERENCE@,
        ) + ":"@ + pin.number.name@ + ")\n"@,
        NodePositions::Label(_, l) => "    LocalLabel("@ + l.text@ + ")\n"@,
        NodePositions::GlobalLabel(_, l) => "    GlobalLabel("@ + l.text@ + ")\n"@,
        NodePositions::NoConnect(_) => "    NoConnect()\n"@,
        NodePositions::Junction(_) => "    Junction()\n"@,
    }
}

/// The lines that list connection points, one line each.
pub open spec fn node_lines(nodes: Seq<NodePositions>) -> Seq<char>
    decreases nodes.len(),
{
    if nodes.len() == 0 {
        Seq::empty()
    } else {
        node_lines(nodes.drop_last()) + node_line(nodes.last())
    }
}

/// The lines that list the first `n` groups: for each the position, which
/// the key gives in hundredths, then its connection points.
pub open spec fn group_lines(keys: Seq<Key>, values: Seq<Vec<NodePositions>>, n: int) -> Seq<char>
    decreases n,
{
    if n <= 0 || n > keys.len() || n > values.len() {
        Seq::empty()
    } else {
        group_lines(keys, values, n - 1) + "- Pt("@ + fixed_text(keys[n - 1].0 * 100) + "x"@
            + fixed_text(keys[n - 1].1 * 100) + ")\n"@ + node_lines(values[n - 1]@)
    }
}

impl<'a> Netlist<'a> {
    /// The text that lists the groups of the netlist.
    pub open spec fn text(self) -> Seq<char> {
        "Netlist:\n"@ + group_lines(
            self.node_positions.keys@,
            self.node_positions.values@,
            if self.node_positions.keys@.len() <= self.node_positions.values@.len() {
                self.node_positions.keys@.len() as int
            } else {
                self.node_positions.values@.len() as int
            },
        )
    }

    /// The netlist as text: a heading, and for each group its position and
    /// its connection points.
    pub fn to_string(&self) -> (r: String)
        ensures
            r@ == self.text(),
    {
        let keys = &self.node_positions.keys;
        let values = &self.node_positions.values;
        let n: usize = if keys.len() <= values.len() {
            keys.len()
        } else {
            values.len()
        };
        let mut out = "Netlist:\n".to_string();
        let mut i: usize = 0;
        while i < n
            invariant
                i <= n,
                n <= keys@.len(),
                n <= values@.len(),
                out@ == "Netlist:\n"@ + group_lines(keys@, values@, i as int),
            decreases n - i,
        {
            let ghost before = out@;
            out.append("- Pt(");
            out.append(fixed_string_wide((keys[i].0 as i64) * 100).as_str());
            out.append("x");
            out.append(fixed_string_wide((keys[i].1 as i64) * 100).as_str());
            out.append(")\n");
            let nodes = &values[i];
            let ghost head = out@;
            let mut k: usize = 0;
            assert(nodes@.take(0) =~= Seq::<NodePositions>::empty());
            while k < nodes.len()
                invariant
                    k <= nodes.len(),
                    out@ == head + node_lines(nodes@.take(k as int)),
                decreases nodes.len() - k,
            {
                assert(nodes@.take(k + 1).drop_last() =~= nodes@.take(k as int));
                assert(nodes@.take(k + 1).last() == nodes@[k as int]);
                let ghost was = out@;
                match nodes[k] {
                    NodePositions::Pin(_, pin, symbol) => {
                        out.append("    Pin(");
                        out.append(symbol.property(PROPERTY_REFERENCE).as_str());
                        out.append(":");
                        out.append(pin.number.name.as_str());
                        out.append(")\n");
                    },
                    NodePositions::Label(_, l) => {
                        out.append("    LocalLabel(");
                        out.append(l.text.as_str());
                        out.append(")\n");
                    },
                    NodePositions::GlobalLabel(_, l) => {
                        out.append("    GlobalLabel(");
                        out.append(l.text.as_str());
                        out.append(")\n");
                    },
                    NodePositions::NoConnect(_) => {
                        out.append("    NoConnect()\n");
                    },
                    NodePositions::Junction(_) => {
                        out.append("    Junction()\n");
                    },
                }
                assert(out@ =~= was + node_line(nodes@[k as int]));
                assert(out@ =~= head + node_lines(nodes@.take(k + 1)));
                k += 1;
            }
            assert(nodes@.take(k as int) =~= nodes@);
            assert(out@ =~= "Netlist:\n"@ + group_lines(keys@, values@, i + 1));
            i += 1;
        }
        out
    }
}

} // verus!
