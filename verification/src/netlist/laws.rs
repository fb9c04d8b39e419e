//! What holds of every extracted netlist: every position of a group has the
//! name of that group.

use super::{
    add_pins, append_at, extraction, gather, group_name, merge, name_points, names_of,
    positions_of, put_at, seek, unvisited, visits, walk, wires_of, flat, neighbors, Key, Merge,
    NodePositions, lemma_unvisited_decreases, lemma_unvisited_monotone, lemma_visits_add,
};
use crate::gr::Pt;
use crate::ordered::{lemma_place_of, place_of};
use crate::schema::{SchemaItem, Symbol};
use crate::symbols::Pin;
use crate::Schema;
use vstd::prelude::*;

verus! {

/// Whether a position belongs to a group: it is the position from which the
/// group's walk started, or the position of one of its connection points.
pub open spec fn in_group(key: Key, nodes: Seq<NodePositions<'static>>, c: Key) -> bool {
    c == key || at_node(nodes, c)
}

/// Whether one of the connection points is at the position.
pub open spec fn at_node(nodes: Seq<NodePositions<'static>>, c: Key) -> bool {
    exists|j: int| 0 <= j < nodes.len() && (#[trigger] nodes[j]).pos_spec().key_spec() == c
}

/// The name recorded for a position.
pub open spec fn lookup(keys: Seq<Key>, names: Seq<Seq<char>>, c: Key) -> Option<Seq<char>> {
    if 0 <= place_of(keys, c) < names.len() {
        Some(names[place_of(keys, c)])
    } else {
        None
    }
}

/// Whether each connection point stands under its own position.
pub open spec fn consistent(keys: Seq<Key>, values: Seq<Seq<NodePositions<'static>>>) -> bool {
    &&& keys.len() == values.len()
    &&& forall|i: int, j: int|
        0 <= i < values.len() && 0 <= j < values[i].len() ==> (
        #[trigger] values[i][j]).pos_spec().key_spec() == keys[i]
}

/// Whether no position belongs to two groups.
pub open spec fn disjoint(keys: Seq<Key>, groups: Seq<Seq<NodePositions<'static>>>) -> bool {
    forall|i: int, j: int, c: Key|
        0 <= i < j < groups.len() && j < keys.len() && #[trigger] in_group_at(keys, groups, i, c)
            ==> !#[trigger] in_group_at(keys, groups, j, c)
}

/// Whether a position belongs to the group at a place.
pub open spec fn in_group_at(
    keys: Seq<Key>,
    groups: Seq<Seq<NodePositions<'static>>>,
    j: int,
    c: Key,
) -> bool {
    in_group(keys[j], groups[j], c)
}

/// After a value is put at a key, the key has that value and every other key
/// has what it had.
pub proof fn lemma_put_at_lookup(
    keys: Seq<Key>,
    names: Seq<Seq<char>>,
    key: Key,
    name: Seq<char>,
    c: Key,
)
    requires
        keys.len() == names.len(),
    ensures
        put_at(keys, names, key, name).0.len() == put_at(keys, names, key, name).1.len(),
        lookup(put_at(keys, names, key, name).0, put_at(keys, names, key, name).1, c) == (if c
            == key {
            Some(name)
        } else {
            lookup(keys, names, c)
        }),
{
    let (k2, v2) = put_at(keys, names, key, name);
    lemma_place_of(keys, key);
    lemma_place_of(keys, c);
    if place_of(keys, key) < 0 {
        assert(k2.drop_last() =~= keys);
        lemma_place_of(k2, c);
    }
}

/// After a name is recorded for the positions of connection points, those
/// positions have that name and every other position has what it had.
pub proof fn lemma_name_points_lookup(
    keys: Seq<Key>,
    names: Seq<Seq<char>>,
    nodes: Seq<NodePositions<'static>>,
    name: Seq<char>,
    c: Key,
)
    requires
        keys.len() == names.len(),
    ensures
        name_points(keys, names, nodes, name).0.len() == name_points(keys, names, nodes, name).1.len(),
        lookup(name_points(keys, names, nodes, name).0, name_points(keys, names, nodes, name).1, c)
            == (if at_node(nodes, c) {
            Some(name)
        } else {
            lookup(keys, names, c)
        }),
    decreases nodes.len(),
{
    if nodes.len() > 0 {
        let rest = nodes.drop_last();
        lemma_name_points_lookup(keys, names, rest, name, c);
        let (k, n) = name_points(keys, names, rest, name);
        lemma_put_at_lookup(k, n, nodes.last().pos_spec().key_spec(), name, c);
        if at_node(rest, c) {
            let j = choose|j: int|
                0 <= j < rest.len() && (#[trigger] rest[j]).pos_spec().key_spec() == c;
            assert(nodes[j].pos_spec().key_spec() == c);
        }
        if at_node(nodes, c) && nodes.last().pos_spec().key_spec() != c {
            let j = choose|j: int|
                0 <= j < nodes.len() && (#[trigger] nodes[j]).pos_spec().key_spec() == c;
            assert(rest[j].pos_spec().key_spec() == c);
        }
        if nodes.last().pos_spec().key_spec() == c {
            assert(nodes[nodes.len() - 1].pos_spec().key_spec() == c);
        }
    }
}

/// The names have a name for each of their keys.
pub proof fn lemma_names_of_len(keys: Seq<Key>, groups: Seq<Seq<NodePositions<'static>>>, n: nat)
    ensures
        names_of(keys, groups, n).0.len() == names_of(keys, groups, n).1.len(),
    decreases n,
{
    if !(n == 0 || n > keys.len() || n > groups.len()) {
        lemma_names_of_len(keys, groups, (n - 1) as nat);
        let (k, v) = names_of(keys, groups, (n - 1) as nat);
        let name = group_name(groups[n - 1]);
        lemma_put_at_lookup(k, v, keys[n - 1], name, keys[n - 1]);
        let (k1, v1) = put_at(k, v, keys[n - 1], name);
        lemma_name_points_lookup(k1, v1, groups[n - 1], name, keys[n - 1]);
    }
}

/// Where no position belongs to two groups, the name recorded for a position
/// of a group is the name of that group.
pub proof fn lemma_names_of_lookup(
    keys: Seq<Key>,
    groups: Seq<Seq<NodePositions<'static>>>,
    n: nat,
    i: int,
    c: Key,
)
    requires
        keys.len() == groups.len(),
        n <= keys.len(),
        disjoint(keys, groups),
        0 <= i < n,
        in_group(keys[i], groups[i], c),
    ensures
        lookup(names_of(keys, groups, n).0, names_of(keys, groups, n).1, c) == Some(
            group_name(groups[i]),
        ),
    decreases n,
{
    let (k, v) = names_of(keys, groups, (n - 1) as nat);
    lemma_names_of_len(keys, groups, (n - 1) as nat);
    let name = group_name(groups[n - 1]);
    lemma_put_at_lookup(k, v, keys[n - 1], name, c);
    let (k1, v1) = put_at(k, v, keys[n - 1], name);
    lemma_name_points_lookup(k1, v1, groups[n - 1], name, c);
    if i < n - 1 {
        lemma_names_of_lookup(keys, groups, (n - 1) as nat, i, c);
        assert(in_group_at(keys, groups, i, c));
        assert(!in_group_at(keys, groups, n - 1, c));
    }
}

/// Every point that a walk finds was at no visited position when the walk
/// began.
pub proof fn lemma_walk_finds_unvisited(
    keys: Seq<Key>,
    values: Seq<Seq<Pt>>,
    list: Seq<Pt>,
    visited: Seq<Pt>,
    i: int,
)
    requires
        0 <= i < walk(keys, values, list, visited).len(),
    ensures
        !visits(visited, walk(keys, values, list, visited)[i].key_spec()),
    decreases unvisited(flat(values), visited), list.len(),
{
    if list.len() > 0 {
        let w = list[0];
        if visits(visited, w.key_spec()) || !flat(values).contains(w.key_spec()) {
            lemma_walk_finds_unvisited(keys, values, list.drop_first(), visited, i);
        } else {
            let v1 = visited.push(w);
            assert(v1 =~= visited + seq![w]);
            lemma_visits_add(visited, seq![w]);
            assert(v1[visited.len() as int].key_spec() == w.key_spec());
            lemma_unvisited_decreases(flat(values), visited, v1, w.key_spec());
            let f1 = walk(keys, values, neighbors(keys, values, w.key_spec()), v1);
            lemma_visits_add(v1, f1);
            lemma_unvisited_monotone(flat(values), v1, v1 + f1);
            let f2 = walk(keys, values, list.drop_first(), v1 + f1);
            let all = seq![w] + f1 + f2;
            if i == 0 {
                assert(all[0] == w);
            } else if i < 1 + f1.len() {
                assert(all[i] == f1[i - 1]);
                lemma_walk_finds_unvisited(
                    keys,
                    values,
                    neighbors(keys, values, w.key_spec()),
                    v1,
                    i - 1,
                );
            } else {
                assert(all[i] == f2[i - 1 - f1.len()]);
                lemma_walk_finds_unvisited(
                    keys,
                    values,
                    list.drop_first(),
                    v1 + f1,
                    i - 1 - f1.len(),
                );
            }
        }
    }
}

/// What the points found by a walk add to a group lies at positions of
/// points found, and the points added are at the positions of the
/// connection points added.
pub proof fn lemma_gather(
    keys: Seq<Key>,
    values: Seq<Seq<NodePositions<'static>>>,
    found: Seq<Pt>,
)
    requires
        consistent(keys, values),
    ensures
        forall|c: Key| at_node(gather(keys, values, found).1, c) ==> visits(found, c),
        forall|c: Key|
            at_node(gather(keys, values, found).1, c) ==> visits(gather(keys, values, found).0, c),
        forall|c: Key| visits(gather(keys, values, found).0, c) ==> visits(found, c),
    decreases found.len(),
{
    if found.len() > 0 {
        let rest = found.drop_last();
        lemma_gather(keys, values, rest);
        let (p, n) = gather(keys, values, rest);
        let (p2, n2) = gather(keys, values, found);
        let w = found.last();
        let i = place_of(keys, w.key_spec());
        lemma_place_of(keys, w.key_spec());
        assert(found =~= rest + seq![w]);
        lemma_visits_add(rest, seq![w]);
        assert(seq![w][0].key_spec() == w.key_spec());
        if 0 <= i < values.len() {
            assert(p2 =~= p + seq![w]);
            lemma_visits_add(p, seq![w]);
            assert forall|c: Key| at_node(n2, c) implies visits(found, c) && visits(p2, c) by {
                let j = choose|j: int|
                    0 <= j < n2.len() && (#[trigger] n2[j]).pos_spec().key_spec() == c;
                assert(n2 =~= n + values[i]);
                if j < n.len() {
                    assert(n2[j] == n[j]);
                    assert(n[j].pos_spec().key_spec() == c);
                    assert(at_node(n, c));
                    assert(visits(rest, c));
                    assert(visits(p, c));
                } else {
                    assert(n2[j] == values[i][j - n.len()]);
                    assert(values[i][j - n.len()].pos_spec().key_spec() == keys[i]);
                    assert(c == w.key_spec());
                    assert(visits(seq![w], c));
                }
            }
            assert forall|c: Key| visits(p2, c) implies visits(found, c) by {
                if visits(p, c) {
                    assert(visits(rest, c));
                } else {
                    assert(visits(seq![w], c));
                }
            }
        } else {
            assert(p2 == p && n2 == n);
            assert forall|c: Key| at_node(n2, c) implies visits(found, c) && visits(p2, c) by {
                assert(visits(rest, c));
            }
            assert forall|c: Key| visits(p2, c) implies visits(found, c) by {
                assert(visits(rest, c));
            }
        }
    }
}

/// What holds of the merge at every step: each group has a key; every
/// position of a group is among the visited positions; every visited
/// position is among the positions that the walks have visited; and no
/// position belongs to two groups.
pub open spec fn merge_inv(m: Merge) -> bool {
    &&& m.keys.len() == m.groups.len()
    &&& forall|j: int, c: Key|
        0 <= j < m.groups.len() && #[trigger] in_group_at(m.keys, m.groups, j, c) ==> visits(
            m.visited_positions,
            c,
        )
    &&& forall|c: Key| visits(m.visited_positions, c) ==> visits(m.visited_wires, c)
    &&& disjoint(m.keys, m.groups)
}

/// The merge keeps its invariant.
pub proof fn lemma_merge_inv(
    keys: Seq<Key>,
    values: Seq<Seq<NodePositions<'static>>>,
    wire_keys: Seq<Key>,
    wire_values: Seq<Seq<Pt>>,
    n: nat,
)
    requires
        consistent(keys, values),
    ensures
        merge_inv(merge(keys, values, wire_keys, wire_values, n)),
    decreases n,
{
    if !(n == 0 || n > keys.len() || n > values.len()) {
        let m = merge(keys, values, wire_keys, wire_values, (n - 1) as nat);
        lemma_merge_inv(keys, values, wire_keys, wire_values, (n - 1) as nat);
        let i = n - 1;
        if !(values[i].len() == 0 || visits(
            m.visited_positions,
            values[i][0].pos_spec().key_spec(),
        )) {
            let seed = values[i][0].pos_spec();
            assert(seed.key_spec() == keys[i]);
            let found = seek(wire_keys, wire_values, seed, m.visited_wires);
            let (points, nodes) = gather(keys, values, found);
            lemma_gather(keys, values, found);
            let (k, g) = put_at(m.keys, m.groups, keys[i], values[i] + nodes);
            let vp = m.visited_positions.push(seed) + points;
            let vw = m.visited_wires.push(seed) + found;
            let after = merge(keys, values, wire_keys, wire_values, n);
            assert(after.keys == k && after.groups == g);
            assert(after.visited_positions == vp && after.visited_wires == vw);
            // what is visited
            assert(m.visited_positions.push(seed) =~= m.visited_positions + seq![seed]);
            assert(m.visited_wires.push(seed) =~= m.visited_wires + seq![seed]);
            lemma_visits_add(m.visited_positions, seq![seed]);
            lemma_visits_add(m.visited_wires, seq![seed]);
            lemma_visits_add(m.visited_positions.push(seed), points);
            lemma_visits_add(m.visited_wires.push(seed), found);
            assert(seq![seed][0].key_spec() == seed.key_spec());
            assert(visits(seq![seed], seed.key_spec()));
            // the key of the new group is new
            lemma_place_of(m.keys, keys[i]);
            if place_of(m.keys, keys[i]) >= 0 {
                let j = place_of(m.keys, keys[i]);
                assert(in_group_at(m.keys, m.groups, j, keys[i]));
            }
            assert(k =~= m.keys.push(keys[i]));
            assert(g =~= m.groups.push(values[i] + nodes));
            let last = m.groups.len() as int;
            // the positions of the new group
            assert forall|c: Key| in_group(keys[i], values[i] + nodes, c) implies c == keys[i]
                || at_node(nodes, c) by {
                if c != keys[i] {
                    let j = choose|j: int|
                        0 <= j < (values[i] + nodes).len() && (#[trigger] (values[i] + nodes)[j]).pos_spec().key_spec()
                            == c;
                    if j < values[i].len() {
                        assert(values[i][j].pos_spec().key_spec() == keys[i]);
                    } else {
                        assert(nodes[j - values[i].len()].pos_spec().key_spec() == c);
                    }
                }
            }
            // no position of the new group belonged to a group
            assert forall|c: Key| at_node(nodes, c) implies !visits(m.visited_positions, c) by {
                assert(visits(found, c));
                let f = choose|f: int| 0 <= f < found.len() && (#[trigger] found[f]).key_spec() == c;
                lemma_walk_finds_unvisited(
                    wire_keys,
                    wire_values,
                    neighbors(wire_keys, wire_values, seed.key_spec()),
                    m.visited_wires.push(seed),
                    f,
                );
            }
            assert forall|j: int, c: Key|
                0 <= j < g.len() && #[trigger] in_group_at(k, g, j, c) implies visits(vp, c) by {
                if j < last {
                    assert(k[j] == m.keys[j] && g[j] == m.groups[j]);
                    assert(in_group_at(m.keys, m.groups, j, c));
                    assert(visits(m.visited_positions, c));
                    assert(visits(m.visited_positions.push(seed), c));
                } else {
                    assert(g[j] == values[i] + nodes && k[j] == keys[i]);
                    assert(in_group(keys[i], values[i] + nodes, c));
                    if c == keys[i] {
                        assert(visits(m.visited_positions.push(seed), c));
                    } else {
                        assert(at_node(nodes, c));
                        assert(visits(points, c));
                    }
                }
            }
            assert forall|c: Key| visits(vp, c) implies visits(vw, c) by {
                if visits(points, c) {
                    assert(visits(found, c));
                } else {
                    assert(visits(m.visited_positions.push(seed), c));
                    if visits(m.visited_positions, c) {
                        assert(visits(m.visited_wires, c));
                    } else {
                        assert(visits(seq![seed], c));
                    }
                    assert(visits(m.visited_wires.push(seed), c));
                }
            }
            assert forall|a: int, b: int, c: Key|
                0 <= a < b < g.len() && b < k.len() && #[trigger] in_group_at(
                    k,
                    g,
                    a,
                    c,
                ) implies !#[trigger] in_group_at(k, g, b, c) by {
                assert(k[a] == m.keys[a] && g[a] == m.groups[a]);
                assert(in_group_at(m.keys, m.groups, a, c));
                if b < last {
                    assert(k[b] == m.keys[b] && g[b] == m.groups[b]);
                    assert(!in_group_at(m.keys, m.groups, b, c));
                } else {
                    assert(g[b] == values[i] + nodes && k[b] == keys[i]);
                    assert(visits(m.visited_positions, c));
                    if in_group(keys[i], values[i] + nodes, c) {
                        if c != keys[i] {
                            assert(at_node(nodes, c));
                        }
                    }
                }
            }
        }
    }
}

/// Adding a connection point under its own position keeps every connection
/// point under its own position.
pub proof fn lemma_append_consistent(
    keys: Seq<Key>,
    values: Seq<Seq<NodePositions<'static>>>,
    node: NodePositions<'static>,
)
    requires
        consistent(keys, values),
    ensures
        consistent(
            append_at(keys, values, node.pos_spec().key_spec(), node).0,
            append_at(keys, values, node.pos_spec().key_spec(), node).1,
        ),
{
    let key = node.pos_spec().key_spec();
    lemma_place_of(keys, key);
}

/// The pins of a symbol are added under their own positions.
pub proof fn lemma_add_pins_consistent(
    symbol: Symbol,
    pins: Seq<Pin>,
    keys: Seq<Key>,
    values: Seq<Seq<NodePositions<'static>>>,
)
    requires
        consistent(keys, values),
        add_pins(symbol, pins, keys, values) is Ok,
    ensures
        consistent(
            add_pins(symbol, pins, keys, values)->Ok_0.0,
            add_pins(symbol, pins, keys, values)->Ok_0.1,
        ),
    decreases pins.len(),
{
    if pins.len() > 0 {
        lemma_add_pins_consistent(symbol, pins.drop_last(), keys, values);
        let (k, v) = add_pins(symbol, pins.drop_last(), keys, values)->Ok_0;
        let p = crate::math::pin_place(symbol, pins.last())->Ok_0;
        lemma_append_consistent(k, v, NodePositions::Pin(p, &pins.last(), &symbol));
    }
}

/// Every connection point of a schema stands under its own position.
pub proof fn lemma_positions_consistent(schema: Schema, items: Seq<SchemaItem>)
    requires
        positions_of(schema, items) is Ok,
    ensures
        consistent(positions_of(schema, items)->Ok_0.0, positions_of(schema, items)->Ok_0.1),
    decreases items.len(),
{
    if items.len() > 0 {
        lemma_positions_consistent(schema, items.drop_last());
        let (k, v) = positions_of(schema, items.drop_last())->Ok_0;
        match items.last() {
            SchemaItem::Symbol(s) => {
                if !super::EXCLUDED_PREFIX@.is_prefix_of(s.lib_id@) {
                    match crate::schema::library_of(schema.library_symbols@, s.lib_id@) {
                        None => {},
                        Some(lib) => {
                            lemma_add_pins_consistent(
                                s,
                                crate::symbols::unit_pins(lib.units@, s.unit),
                                k,
                                v,
                            );
                        },
                    }
                }
            },
            SchemaItem::NoConnect(n) => {
                lemma_append_consistent(k, v, NodePositions::NoConnect(super::point_of(n.pos)));
            },
            SchemaItem::Junction(j) => {
                lemma_append_consistent(k, v, NodePositions::Junction(super::point_of(j.pos)));
            },
            SchemaItem::LocalLabel(l) => {
                lemma_append_consistent(k, v, NodePositions::Label(super::point_of(l.pos), &l));
            },
            SchemaItem::GlobalLabel(l) => {
                lemma_append_consistent(k, v, NodePositions::GlobalLabel(super::point_of(l.pos), &l));
            },
            _ => {},
        }
    }
}

/// In the netlist of a schema, the name recorded for any position of a
/// group is the name of that group: two positions of one group have the same
/// name.
pub proof fn lemma_net_names_consistent(schema: Schema, i: int, a: Key, b: Key)
    requires
        extraction(schema) is Ok,
        0 <= i < extraction(schema)->Ok_0.0.1.len(),
        in_group(extraction(schema)->Ok_0.0.0[i], extraction(schema)->Ok_0.0.1[i], a),
        in_group(extraction(schema)->Ok_0.0.0[i], extraction(schema)->Ok_0.0.1[i], b),
    ensures
        lookup(extraction(schema)->Ok_0.1.0, extraction(schema)->Ok_0.1.1, a) == Some(
            group_name(extraction(schema)->Ok_0.0.1[i]),
        ),
        lookup(extraction(schema)->Ok_0.1.0, extraction(schema)->Ok_0.1.1, a) == lookup(
            extraction(schema)->Ok_0.1.0,
            extraction(schema)->Ok_0.1.1,
            b,
        ),
{
    let (keys, values) = positions_of(schema, schema.items@)->Ok_0;
    lemma_positions_consistent(schema, schema.items@);
    let (wire_keys, wire_values) = wires_of(schema.items@);
    let m = merge(keys, values, wire_keys, wire_values, keys.len());
    lemma_merge_inv(keys, values, wire_keys, wire_values, keys.len());
    lemma_names_of_lookup(m.keys, m.groups, m.keys.len(), i, a);
    lemma_names_of_lookup(m.keys, m.groups, m.keys.len(), i, b);
}

} // verus!
