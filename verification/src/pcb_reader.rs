//! Reading the items of a board from the nodes of a document.

use crate::pcb::{Footprint, FootprintType, FpLine, GraphicItem, Net, Segment};
use crate::schema_reader::{
    child, child_of, has_value, pos_of, pt_at, read_pos, read_pt_at, read_stroke, same_text,
    stroke_of,
};
use crate::sexp::{
    as_fixed, as_u32, as_u8, atom_values, first_of, named, value_at, Sexp, SexpTree, Tree,
};
use crate::{Error, ErrorKind, Pcb};
use vstd::prelude::*;

verus! {

/// An error for a document that lacks what it must have.
fn missing(what: &str) -> (e: Error)
    ensures
        e.0 == ErrorKind::Sexp,
{
    Error::new(ErrorKind::Sexp, what)
}

/// Whether a net is the one that a node gives: its number and its name.
pub open spec fn is_net_of(n: Net, tree: Tree) -> bool {
    as_u32(value_at(tree, 0)) == Some(n.ordinal) && value_at(tree, 1) == Some(n.name@)
}

/// Reads a net.
pub fn read_net(sexp: &Sexp) -> (r: Result<Net, Error>)
    ensures
        match r {
            Ok(n) => is_net_of(n, sexp@) && has_net(sexp@),
            Err(e) => !has_net(sexp@) && e.0 == ErrorKind::Sexp,
        },
{
    let Some(ordinal) = sexp.get_u32(0) else {
        return Err(missing("a net has a number"));
    };
    let Some(name) = sexp.get(1) else {
        return Err(missing("a net has a name"));
    };
    Ok(Net { ordinal, name })
}

/// Whether a segment is the one that a node gives.
pub open spec fn is_segment_of(s: Segment, tree: Tree) -> bool {
    &&& pt_at(tree, "start"@) == Some(s.start)
    &&& pt_at(tree, "end"@) == Some(s.end)
    &&& as_fixed(first_of(tree, "width"@)) == Some(s.width)
    &&& first_of(tree, "layer"@) == Some(s.layer@)
    &&& s.locked == atom_values(tree.nodes).contains("locked"@)
    &&& as_u32(first_of(tree, "net"@)) == Some(s.net)
    &&& first_of(tree, "tstamp"@) == Some(s.tstamp@)
}

/// Whether a node gives a segment.
pub open spec fn has_segment(tree: Tree) -> bool {
    &&& pt_at(tree, "start"@) is Some
    &&& pt_at(tree, "end"@) is Some
    &&& as_fixed(first_of(tree, "width"@)) is Some
    &&& first_of(tree, "layer"@) is Some
    &&& as_u32(first_of(tree, "net"@)) is Some
    &&& first_of(tree, "tstamp"@) is Some
}

/// Reads a track segment.
pub fn read_segment(sexp: &Sexp) -> (r: Result<Segment, Error>)
    ensures
        match r {
            Ok(s) => is_segment_of(s, sexp@) && has_segment(sexp@),
            Err(e) => !has_segment(sexp@) && e.0 == ErrorKind::Sexp,
        },
{
    let start = match read_pt_at(sexp, "start") {
        Ok(p) => p,
        Err(e) => {
            return Err(e);
        },
    };
    let end = match read_pt_at(sexp, "end") {
        Ok(p) => p,
        Err(e) => {
            return Err(e);
        },
    };
    let Some(width) = sexp.first_fixed("width") else {
        return Err(missing("width is mandatory"));
    };
    let Some(layer) = sexp.first("layer") else {
        return Err(missing("layer is mandatory"));
    };
    let Some(net) = sexp.first_u32("net") else {
        return Err(missing("net is mandatory"));
    };
    let Some(tstamp) = sexp.first("tstamp") else {
        return Err(missing("tstamp is mandatory"));
    };
    Ok(Segment { start, end, width, layer, locked: has_value(sexp, "locked"), net, tstamp })
}

/// Whether a line of a footprint is the one that a node gives.
pub open spec fn is_fp_line_of(l: FpLine, tree: Tree) -> bool {
    &&& pt_at(tree, "start"@) == Some(l.start)
    &&& pt_at(tree, "end"@) == Some(l.end)
    &&& first_of(tree, "layer"@) == Some(l.layer@)
    &&& stroke_of(tree) == Some(l.stroke)
    &&& l.locked == atom_values(tree.nodes).contains("locked"@)
    &&& first_of(tree, "tstamp"@) == Some(l.tstamp@)
}

/// Whether a node gives a line of a footprint.
pub open spec fn has_fp_line(tree: Tree) -> bool {
    &&& pt_at(tree, "start"@) is Some
    &&& pt_at(tree, "end"@) is Some
    &&& first_of(tree, "layer"@) is Some
    &&& stroke_of(tree) is Some
    &&& first_of(tree, "tstamp"@) is Some
}

/// Reads a line of a footprint.
pub fn read_fp_line(sexp: &Sexp) -> (r: Result<FpLine, Error>)
    ensures
        match r {
            Ok(l) => is_fp_line_of(l, sexp@) && has_fp_line(sexp@),
            Err(e) => !has_fp_line(sexp@) && e.0 == ErrorKind::Sexp,
        },
{
    let start = match read_pt_at(sexp, "start") {
        Ok(p) => p,
        Err(e) => {
            return Err(e);
        },
    };
    let end = match read_pt_at(sexp, "end") {
        Ok(p) => p,
        Err(e) => {
            return Err(e);
        },
    };
    let Some(layer) = sexp.first("layer") else {
        return Err(missing("layer is mandatory"));
    };
    let stroke = match read_stroke(sexp) {
        Ok(s) => s,
        Err(e) => {
            return Err(e);
        },
    };
    let Some(tstamp) = sexp.first("tstamp") else {
        return Err(missing("tstamp is mandatory"));
    };
    Ok(FpLine { start, end, layer, stroke, locked: has_value(sexp, "locked"), tstamp })
}

/// Whether the graphic items of a footprint are those that its `fp_line`
/// nodes give, in order.
pub open spec fn are_graphic_items_of(items: Seq<GraphicItem>, tree: Tree) -> bool {
    &&& items.len() == named(tree.nodes, "fp_line"@).len()
    &&& forall|i: int|
        0 <= i < items.len() ==> ((#[trigger] items[i]) matches GraphicItem::FpLine(l)
            && is_fp_line_of(l, named(tree.nodes, "fp_line"@)[i]))
}

/// Whether each `fp_line` node of a node gives a line.
pub open spec fn have_graphic_items(tree: Tree) -> bool {
    forall|i: int|
        0 <= i < named(tree.nodes, "fp_line"@).len() ==> has_fp_line(
            #[trigger] named(tree.nodes, "fp_line"@)[i],
        )
}

/// Reads the graphic items of a footprint: its lines.
pub fn read_graphic_items(sexp: &Sexp) -> (r: Result<Vec<GraphicItem>, Error>)
    ensures
        match r {
            Ok(items) => are_graphic_items_of(items@, sexp@) && have_graphic_items(sexp@),
            Err(e) => e.0 == ErrorKind::Sexp && !have_graphic_items(sexp@),
        },
{
    let nodes = sexp.query("fp_line");
    let ghost all = named(sexp@.nodes, "fp_line"@);
    let mut res: Vec<GraphicItem> = Vec::new();
    let mut i: usize = 0;
    while i < nodes.len()
        invariant
            i <= nodes.len(),
            all == named(sexp@.nodes, "fp_line"@),
            nodes@.len() == all.len(),
            forall|k: int| 0 <= k < nodes@.len() ==> (#[trigger] nodes@[k])@ == all[k],
            res@.len() == i,
            forall|k: int|
                0 <= k < i ==> ((#[trigger] res@[k]) matches GraphicItem::FpLine(l)
                    && is_fp_line_of(l, all[k])),
            forall|k: int| 0 <= k < i ==> has_fp_line(#[trigger] all[k]),
        decreases nodes.len() - i,
    {
        assert(nodes@[i as int]@ == all[i as int]);
        match read_fp_line(nodes[i]) {
            Ok(l) => res.push(GraphicItem::FpLine(l)),
            Err(e) => {
                assert(!has_fp_line(all[i as int]));
                return Err(e);
            },
        }
        i += 1;
    }
    Ok(res)
}

/// Whether the properties are those that the `property` nodes of a node
/// give: for each node its key and its value.
pub open spec fn are_pairs_of(pairs: Seq<(String, String)>, nodes: Seq<Tree>) -> bool {
    &&& pairs.len() == nodes.len()
    &&& forall|i: int|
        0 <= i < nodes.len() ==> value_at(#[trigger] nodes[i], 0) == Some(pairs[i].0@) && value_at(
            nodes[i],
            1,
        ) == Some(pairs[i].1@)
}

/// Whether each of the nodes gives a key and a value.
pub open spec fn have_pairs(nodes: Seq<Tree>) -> bool {
    forall|i: int|
        0 <= i < nodes.len() ==> value_at(#[trigger] nodes[i], 0) is Some && value_at(nodes[i], 1)
            is Some
}

/// The values of the `attr` node of a footprint.
pub open spec fn attributes(tree: Tree) -> Seq<Seq<char>> {
    atom_values(child(tree, "attr"@)->Some_0.nodes)
}

/// Whether a footprint is the one that a node gives.
pub open spec fn is_footprint_of(f: Footprint, tree: Tree) -> bool {
    &&& value_at(tree, 0) == Some(f.library_link@)
    &&& f.locked == atom_values(tree.nodes).contains("locked"@)
    &&& f.placed == atom_values(tree.nodes).contains("placed"@)
    &&& first_of(tree, "layer"@) == Some(f.layer@)
    &&& same_text(f.tedit, first_of(tree, "tedit"@))
    &&& same_text(f.tstamp, first_of(tree, "tstamp"@))
    &&& pos_of(tree) == Some(f.pos)
    &&& same_text(f.descr, first_of(tree, "descr"@))
    &&& same_text(f.tags, first_of(tree, "tags"@))
    &&& are_pairs_of(f.property@, named(tree.nodes, "property"@))
    &&& same_text(f.path, first_of(tree, "path"@))
    &&& f.autoplace_cost90 == as_u8(first_of(tree, "autoplace_cost90"@))
    &&& f.autoplace_cost180 == as_u8(first_of(tree, "autoplace_cost180"@))
    &&& f.solder_mask_margin == as_fixed(first_of(tree, "solder_mask_margin"@))
    &&& f.solder_paste_margin == as_fixed(first_of(tree, "solder_paste_margin"@))
    &&& f.solder_paste_ratio == as_fixed(first_of(tree, "solder_paste_ratio"@))
    &&& f.clearance == as_fixed(first_of(tree, "clearance"@))
    &&& f.zone_connect == as_u8(first_of(tree, "zone_connect"@))
    &&& f.thermal_width == as_fixed(first_of(tree, "thermal_width"@))
    &&& f.thermal_gap == as_fixed(first_of(tree, "thermal_gap"@))
    &&& first_of(tree, "attr"@) is Some
    &&& FootprintType::from_name_spec(first_of(tree, "attr"@)->Some_0) == Some(f.footprint_type)
    &&& f.board_only == attributes(tree).contains("board_only"@)
    &&& f.exclude_from_pos_files == attributes(tree).contains("exclude_from_pos_files"@)
    &&& f.exclude_from_bom == attributes(tree).contains("exclude_from_bom"@)
    &&& f.private_layers is None
    &&& f.net_tie_pad_groups is None
    &&& are_graphic_items_of(f.graphic_items@, tree)
    &&& f.pads@.len() == 0
    &&& f.zones@.len() == 0
    &&& f.groups@.len() == 0
    &&& f.model_3d is None
}

/// Whether a node gives a footprint: the link to the library, the layer,
/// the position and a known type are there, and each property and each
/// line can be read.
pub open spec fn has_footprint(tree: Tree) -> bool {
    &&& value_at(tree, 0) is Some
    &&& first_of(tree, "layer"@) is Some
    &&& pos_of(tree) is Some
    &&& have_pairs(named(tree.nodes, "property"@))
    &&& child(tree, "attr"@) is Some
    &&& first_of(tree, "attr"@) is Some
    &&& FootprintType::from_name_spec(first_of(tree, "attr"@)->Some_0) is Some
    &&& have_graphic_items(tree)
}

/// Reads the properties of a footprint: for each `property` node its key
/// and its value.
pub fn read_pairs(sexp: &Sexp) -> (r: Result<Vec<(String, String)>, Error>)
    ensures
        match r {
            Ok(pairs) => are_pairs_of(pairs@, named(sexp@.nodes, "property"@)) && have_pairs(
                named(sexp@.nodes, "property"@),
            ),
            Err(e) => e.0 == ErrorKind::Sexp && !have_pairs(named(sexp@.nodes, "property"@)),
        },
{
    let nodes = sexp.query("property");
    let ghost all = named(sexp@.nodes, "property"@);
    let mut property: Vec<(String, String)> = Vec::new();
    let mut i: usize = 0;
    while i < nodes.len()
        invariant
            all == named(sexp@.nodes, "property"@),
            i <= nodes.len(),
            nodes@.len() == all.len(),
            forall|k: int| 0 <= k < nodes@.len() ==> (#[trigger] nodes@[k])@ == all[k],
            property@.len() == i,
            forall|k: int|
                0 <= k < i ==> value_at(#[trigger] all[k], 0) == Some(property@[k].0@) && value_at(
                    all[k],
                    1,
                ) == Some(property@[k].1@),
        decreases nodes.len() - i,
    {
        assert(nodes@[i as int]@ == all[i as int]);
        let Some(key) = nodes[i].get(0) else {
            assert(value_at(all[i as int], 0) is None);
            return Err(missing("a property has a key"));
        };
        let Some(value) = nodes[i].get(1) else {
            assert(value_at(all[i as int], 1) is None);
            return Err(missing("a property has a value"));
        };
        property.push((key, value));
        i += 1;
    }
    Ok(property)
}

/// Reads a footprint of a board: its fields and its lines. Its pads, zones
/// and groups are not read.
pub fn read_footprint(sexp: &Sexp) -> (r: Result<Footprint, Error>)
    ensures
        match r {
            Ok(f) => is_footprint_of(f, sexp@) && has_footprint(sexp@),
            Err(e) => !has_footprint(sexp@) && e.0 == ErrorKind::Sexp,
        },
{
    let Some(library_link) = sexp.get(0) else {
        return Err(missing("a footprint has a library link"));
    };
    let Some(layer) = sexp.first("layer") else {
        return Err(missing("layer is mandatory"));
    };
    let pos = match read_pos(sexp) {
        Ok(p) => p,
        Err(e) => {
            return Err(e);
        },
    };
    let property = match read_pairs(sexp) {
        Ok(p) => p,
        Err(e) => {
            return Err(e);
        },
    };
    let Some(attr) = child_of(sexp, "attr") else {
        return Err(missing("attr is mandatory"));
    };
    let Some(kind) = sexp.first("attr") else {
        return Err(missing("attr has a type"));
    };
    let Some(footprint_type) = FootprintType::from_name(kind.as_str()) else {
        return Err(missing("Invalid footprint type"));
    };
    let graphic_items = match read_graphic_items(sexp) {
        Ok(g) => g,
        Err(e) => {
            return Err(e);
        },
    };
    Ok(
        Footprint {
            library_link,
            locked: has_value(sexp, "locked"),
            placed: has_value(sexp, "placed"),
            layer,
            tedit: sexp.first("tedit"),
            tstamp: sexp.first("tstamp"),
            pos,
            descr: sexp.first("descr"),
            tags: sexp.first("tags"),
            property,
            path: sexp.first("path"),
            autoplace_cost90: sexp.first_u8("autoplace_cost90"),
            autoplace_cost180: sexp.first_u8("autoplace_cost180"),
            solder_mask_margin: sexp.first_fixed("solder_mask_margin"),
            solder_paste_margin: sexp.first_fixed("solder_paste_margin"),
            solder_paste_ratio: sexp.first_fixed("solder_paste_ratio"),
            clearance: sexp.first_fixed("clearance"),
            zone_connect: sexp.first_u8("zone_connect"),
            thermal_width: sexp.first_fixed("thermal_width"),
            thermal_gap: sexp.first_fixed("thermal_gap"),
            footprint_type,
            board_only: has_value(attr, "board_only"),
            exclude_from_pos_files: has_value(attr, "exclude_from_pos_files"),
            exclude_from_bom: has_value(attr, "exclude_from_bom"),
            private_layers: None,
            net_tie_pad_groups: None,
            graphic_items,
            pads: Vec::new(),
            zones: Vec::new(),
            groups: Vec::new(),
            model_3d: None,
        },
    )
}

/// Whether a node gives a net.
pub open spec fn has_net(tree: Tree) -> bool {
    as_u32(value_at(tree, 0)) is Some && value_at(tree, 1) is Some
}

/// The identifier that the `uuid` nodes give: the value of the last one,
/// and nothing where there is none.
pub open spec fn uuid_of(nodes: Seq<Tree>) -> Option<Seq<char>> {
    if nodes.len() == 0 {
        Some(Seq::empty())
    } else {
        value_at(nodes.last(), 0)
    }
}

/// Whether a board is the one that a document gives: the identifier of the
/// last `uuid` node, and the segments, nets and footprints of the nodes with
/// those names, in order.
pub open spec fn is_pcb_of(p: Pcb, tree: Tree) -> bool {
    &&& uuid_of(named(tree.nodes, "uuid"@)) == Some(p.uuid@)
    &&& p.segments@.len() == named(tree.nodes, "segment"@).len()
    &&& (forall|i: int|
        0 <= i < p.segments@.len() ==> is_segment_of(
            #[trigger] p.segments@[i],
            named(tree.nodes, "segment"@)[i],
        ))
    &&& p.nets@.len() == named(tree.nodes, "net"@).len()
    &&& (forall|i: int|
        0 <= i < p.nets@.len() ==> is_net_of(#[trigger] p.nets@[i], named(tree.nodes, "net"@)[i]))
    &&& p.footprints@.len() == named(tree.nodes, "footprint"@).len()
    &&& (forall|i: int|
        0 <= i < p.footprints@.len() ==> is_footprint_of(
            #[trigger] p.footprints@[i],
            named(tree.nodes, "footprint"@)[i],
        ))
    &&& p.version@ == Seq::<char>::empty()
    &&& p.generator@ == Seq::<char>::empty()
    &&& p.generator_version is None
    &&& p.layers@.len() == 0
}

/// Whether a document gives a board: each `uuid` node has a value, and each
/// segment, net and footprint can be read.
pub open spec fn has_pcb(tree: Tree) -> bool {
    &&& (forall|i: int|
        0 <= i < named(tree.nodes, "uuid"@).len() ==> value_at(
            #[trigger] named(tree.nodes, "uuid"@)[i],
            0,
        ) is Some)
    &&& (forall|i: int|
        0 <= i < named(tree.nodes, "segment"@).len() ==> has_segment(
            #[trigger] named(tree.nodes, "segment"@)[i],
        ))
    &&& (forall|i: int|
        0 <= i < named(tree.nodes, "net"@).len() ==> has_net(
            #[trigger] named(tree.nodes, "net"@)[i],
        ))
    &&& (forall|i: int|
        0 <= i < named(tree.nodes, "footprint"@).len() ==> has_footprint(
            #[trigger] named(tree.nodes, "footprint"@)[i],
        ))
}

/// Reads the identifier of a board.
fn read_uuid(root: &Sexp) -> (r: Result<String, Error>)
    ensures
        match r {
            Ok(u) => uuid_of(named(root@.nodes, "uuid"@)) == Some(u@) && forall|i: int|
                0 <= i < named(root@.nodes, "uuid"@).len() ==> value_at(
                    #[trigger] named(root@.nodes, "uuid"@)[i],
                    0,
                ) is Some,
            Err(e) => e.0 == ErrorKind::Sexp && exists|i: int|
                0 <= i < named(root@.nodes, "uuid"@).len() && value_at(
                    #[trigger] named(root@.nodes, "uuid"@)[i],
                    0,
                ) is None,
        },
{
    let nodes = root.query("uuid");
    let ghost all = named(root@.nodes, "uuid"@);
    let mut uuid = String::new();
    let mut i: usize = 0;
    while i < nodes.len()
        invariant
            all == named(root@.nodes, "uuid"@),
            i <= nodes.len(),
            nodes@.len() == all.len(),
            forall|k: int| 0 <= k < nodes@.len() ==> (#[trigger] nodes@[k])@ == all[k],
            uuid_of(all.take(i as int)) == Some(uuid@),
            forall|k: int| 0 <= k < i ==> value_at(#[trigger] all[k], 0) is Some,
        decreases nodes.len() - i,
    {
        assert(nodes@[i as int]@ == all[i as int]);
        let Some(v) = nodes[i].get(0) else {
            assert(value_at(all[i as int], 0) is None);
            return Err(missing("uuid has a value"));
        };
        uuid = v;
        assert(all.take(i + 1).last() == all[i as int]);
        i += 1;
    }
    assert(all.take(i as int) =~= all);
    Ok(uuid)
}

/// Reads the track segments of a board.
fn read_segments(root: &Sexp) -> (r: Result<Vec<Segment>, Error>)
    ensures
        match r {
            Ok(v) => {
                &&& v@.len() == named(root@.nodes, "segment"@).len()
                &&& forall|i: int|
                    0 <= i < v@.len() ==> is_segment_of(
                        #[trigger] v@[i],
                        named(root@.nodes, "segment"@)[i],
                    )
                &&& forall|i: int|
                    0 <= i < named(root@.nodes, "segment"@).len() ==> has_segment(
                        #[trigger] named(root@.nodes, "segment"@)[i],
                    )
            },
            Err(e) => e.0 == ErrorKind::Sexp && exists|i: int|
                0 <= i < named(root@.nodes, "segment"@).len() && !has_segment(
                    #[trigger] named(root@.nodes, "segment"@)[i],
                ),
        },
{
    let nodes = root.query("segment");
    let ghost all = named(root@.nodes, "segment"@);
    let mut res: Vec<Segment> = Vec::new();
    let mut i: usize = 0;
    while i < nodes.len()
        invariant
            all == named(root@.nodes, "segment"@),
            i <= nodes.len(),
            nodes@.len() == all.len(),
            forall|k: int| 0 <= k < nodes@.len() ==> (#[trigger] nodes@[k])@ == all[k],
            res@.len() == i,
            forall|k: int| 0 <= k < i ==> is_segment_of(#[trigger] res@[k], all[k]),
            forall|k: int| 0 <= k < i ==> has_segment(#[trigger] all[k]),
        decreases nodes.len() - i,
    {
        assert(nodes@[i as int]@ == all[i as int]);
        match read_segment(nodes[i]) {
            Ok(s) => res.push(s),
            Err(e) => {
                assert(!has_segment(all[i as int]));
                return Err(e);
            },
        }
        i += 1;
    }
    Ok(res)
}

/// Reads the nets of a board.
fn read_nets(root: &Sexp) -> (r: Result<Vec<Net>, Error>)
    ensures
        match r {
            Ok(v) => {
                &&& v@.len() == named(root@.nodes, "net"@).len()
                &&& forall|i: int|
                    0 <= i < v@.len() ==> is_net_of(
                        #[trigger] v@[i],
                        named(root@.nodes, "net"@)[i],
                    )
                &&& forall|i: int|
                    0 <= i < named(root@.nodes, "net"@).len() ==> has_net(
                        #[trigger] named(root@.nodes, "net"@)[i],
                    )
            },
            Err(e) => e.0 == ErrorKind::Sexp && exists|i: int|
                0 <= i < named(root@.nodes, "net"@).len() && !has_net(
                    #[trigger] named(root@.nodes, "net"@)[i],
                ),
        },
{
    let nodes = root.query("net");
    let ghost all = named(root@.nodes, "net"@);
    let mut res: Vec<Net> = Vec::new();
    let mut i: usize = 0;
    while i < nodes.len()
        invariant
            all == named(root@.nodes, "net"@),
            i <= nodes.len(),
            nodes@.len() == all.len(),
            forall|k: int| 0 <= k < nodes@.len() ==> (#[trigger] nodes@[k])@ == all[k],
            res@.len() == i,
            forall|k: int| 0 <= k < i ==> is_net_of(#[trigger] res@[k], all[k]),
            forall|k: int| 0 <= k < i ==> has_net(#[trigger] all[k]),
        decreases nodes.len() - i,
    {
        assert(nodes@[i as int]@ == all[i as int]);
        match read_net(nodes[i]) {
            Ok(s) => res.push(s),
            Err(e) => {
                assert(!has_net(all[i as int]));
                return Err(e);
            },
        }
        i += 1;
    }
    Ok(res)
}

/// Reads the footprints of a board.
fn read_footprints(root: &Sexp) -> (r: Result<Vec<Footprint>, Error>)
    ensures
        match r {
            Ok(v) => {
                &&& v@.len() == named(root@.nodes, "footprint"@).len()
                &&& forall|i: int|
                    0 <= i < v@.len() ==> is_footprint_of(
                        #[trigger] v@[i],
                        named(root@.nodes, "footprint"@)[i],
                    )
                &&& forall|i: int|
                    0 <= i < named(root@.nodes, "footprint"@).len() ==> has_footprint(
                        #[trigger] named(root@.nodes, "footprint"@)[i],
                    )
            },
            Err(e) => e.0 == ErrorKind::Sexp && exists|i: int|
                0 <= i < named(root@.nodes, "footprint"@).len() && !has_footprint(
                    #[trigger] named(root@.nodes, "footprint"@)[i],
                ),
        },
{
    let nodes = root.query("footprint");
    let ghost all = named(root@.nodes, "footprint"@);
    let mut res: Vec<Footprint> = Vec::new();
    let mut i: usize = 0;
    while i < nodes.len()
        invariant
            all == named(root@.nodes, "footprint"@),
            i <= nodes.len(),
            nodes@.len() == all.len(),
            forall|k: int| 0 <= k < nodes@.len() ==> (#[trigger] nodes@[k])@ == all[k],
            res@.len() == i,
            forall|k: int| 0 <= k < i ==> is_footprint_of(#[trigger] res@[k], all[k]),
            forall|k: int| 0 <= k < i ==> has_footprint(#[trigger] all[k]),
        decreases nodes.len() - i,
    {
        assert(nodes@[i as int]@ == all[i as int]);
        match read_footprint(nodes[i]) {
            Ok(s) => res.push(s),
            Err(e) => {
                assert(!has_footprint(all[i as int]));
                return Err(e);
            },
        }
        i += 1;
    }
    Ok(res)
}

/// Reads a board from a document: its identifier, its track segments, its
/// nets and its footprints.
pub fn read_pcb(tree: &SexpTree) -> (r: Result<Pcb, Error>)
    ensures
        match r {
            Ok(p) => is_pcb_of(p, tree.tree@) && has_pcb(tree.tree@),
            Err(e) => !has_pcb(tree.tree@) && e.0 == ErrorKind::Sexp,
        },
{
    let root = &tree.tree;
    let uuid = match read_uuid(root) {
        Ok(u) => u,
        Err(e) => {
            return Err(e);
        },
    };
    let segments = match read_segments(root) {
        Ok(u) => u,
        Err(e) => {
            return Err(e);
        },
    };
    let nets = match read_nets(root) {
        Ok(u) => u,
        Err(e) => {
            return Err(e);
        },
    };
    let footprints = match read_footprints(root) {
        Ok(u) => u,
        Err(e) => {
            return Err(e);
        },
    };
    Ok(
        Pcb {
            version: String::new(),
            uuid,
            generator: String::new(),
            generator_version: None,
            layers: Vec::new(),
            nets,
            footprints,
            segments,
        },
    )
}

} // verus!
