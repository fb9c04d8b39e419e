use recad_core::draw::{At, To};
use recad_core::gr::{Effects, Pos, Property, Pt, Pts, Stroke};
use recad_core::math::pin_position;
use recad_core::netlist::{group_name_of, Netlist, NodePositions};
use recad_core::schema::{
    GlobalLabel, Junction, LocalLabel, NoConnect, SchemaItem, Symbol, Wire,
};
use recad_core::symbols::{ElectricalTypes, LibrarySymbol, Pin, PinGraphicalStyle, PinProperty};
use recad_core::{ErrorKind, Schema};

fn mm(v: f64) -> i32 {
    (v * 10000.0).round() as i32
}

fn pt(x: f64, y: f64) -> Pt {
    Pt { x: mm(x), y: mm(y) }
}

fn pos(x: f64, y: f64, angle: f64) -> Pos {
    Pos { x: mm(x), y: mm(y), angle: mm(angle) }
}

fn pin(number: &str, x: f64, y: f64, angle: f64) -> Pin {
    Pin {
        electrical_type: ElectricalTypes::Passive,
        graphical_style: PinGraphicalStyle::Line,
        pos: pos(x, y, angle),
        length: mm(2.54),
        hide: false,
        name: PinProperty { name: "~".to_string(), effects: Effects::default() },
        number: PinProperty { name: number.to_string(), effects: Effects::default() },
    }
}

fn unit(lib_id: &str, pins: Vec<Pin>) -> LibrarySymbol {
    LibrarySymbol {
        lib_id: lib_id.to_string(),
        extends: None,
        power: false,
        pin_numbers: true,
        pin_names: true,
        in_bom: true,
        on_board: true,
        exclude_from_sim: false,
        props: Vec::new(),
        graphics: Vec::new(),
        pins,
        pin_names_offset: None,
        units: Vec::new(),
        unit_name: None,
    }
}

fn library(lib_id: &str, units: Vec<LibrarySymbol>) -> LibrarySymbol {
    let mut lib = unit(lib_id, Vec::new());
    lib.units = units;
    lib
}

/// a two pin part, pins at (0, 3.81) and (0, -3.81) as in Device:R
fn resistor_lib() -> LibrarySymbol {
    library(
        "Device:R",
        vec![
            unit("R_0_1", Vec::new()),
            unit("R_1_1", vec![pin("1", 0.0, 3.81, 270.0), pin("2", 0.0, -3.81, 90.0)]),
        ],
    )
}

fn power_lib() -> LibrarySymbol {
    library(
        "power:+15V",
        vec![unit("+15V_0_1", Vec::new()), unit("+15V_1_1", vec![pin("1", 0.0, 0.0, 90.0)])],
    )
}

fn placed(reference: &str, value: &str, lib_id: &str, x: f64, y: f64, angle: f64) -> Symbol {
    let mut s = Symbol::new(reference, value, lib_id);
    s.pos = pos(x, y, angle);
    s
}

fn wire(a: Pt, b: Pt) -> SchemaItem {
    let mut w = Wire::new();
    w.pts = Pts(vec![a, b]);
    SchemaItem::Wire(w)
}

fn junction(x: f64, y: f64) -> SchemaItem {
    let mut j = Junction::new();
    j.pos = pos(x, y, 0.0);
    SchemaItem::Junction(j)
}

fn label(text: &str, x: f64, y: f64) -> SchemaItem {
    let mut l = LocalLabel::new(text);
    l.pos = pos(x, y, 0.0);
    SchemaItem::LocalLabel(l)
}

fn global_label(text: &str, x: f64, y: f64) -> SchemaItem {
    SchemaItem::GlobalLabel(GlobalLabel {
        text: text.to_string(),
        shape: None,
        pos: pos(x, y, 0.0),
        fields_autoplaced: false,
        effects: Effects::default(),
        props: Vec::new(),
        uuid: String::new(),
        attrs: To::new(),
    })
}

/// The wires around (179.07, 49.53) of a summing amplifier.
fn wire_schema() -> Schema {
    let mut schema = Schema::new("summe");
    let list = [
        ((179.07, 49.53), (179.07, 34.29)),
        ((179.07, 34.29), (185.42, 34.29)),
        ((179.07, 34.29), (179.07, 22.86)),
        ((179.07, 22.86), (185.42, 22.86)),
        ((179.07, 49.53), (180.34, 49.53)),
        ((179.07, 49.53), (167.64, 49.53)),
        ((167.64, 49.53), (166.37, 49.53)),
        ((167.64, 49.53), (167.64, 41.91)),
        ((167.64, 41.91), (167.64, 34.29)),
        ((167.64, 34.29), (167.64, 26.67)),
        ((167.64, 26.67), (166.37, 26.67)),
        ((167.64, 34.29), (166.37, 34.29)),
        ((167.64, 41.91), (166.37, 41.91)),
        ((10.0, 10.0), (20.0, 10.0)),
    ];
    for (a, b) in list {
        schema.items.push(wire(pt(a.0, a.1), pt(b.0, b.1)));
    }
    schema
}

#[test]
fn test_wires() {
    let schema = wire_schema();
    let wires = Netlist::wires(&schema);
    let i = wires.find(pt(179.07, 49.53).key()).unwrap();
    let wire = &wires.values[i];
    assert_eq!(&vec![pt(179.07, 34.29), pt(180.34, 49.53), pt(167.64, 49.53),], wire);
}

#[test]
fn test_get_wires() {
    let schema = wire_schema();
    let wires = Netlist::wires(&schema);
    let mut visited = vec![];
    let wire = Netlist::get_wire(pt(179.07, 49.53), &wires, &mut visited).unwrap();
    assert_eq!(vec![pt(179.07, 34.29), pt(180.34, 49.53), pt(167.64, 49.53),], wire);
}

#[test]
fn test_get_visited_wires() {
    let schema = wire_schema();
    let wires = Netlist::wires(&schema);
    let mut visited = vec![pt(180.34, 49.53)];
    let wire = Netlist::get_wire(pt(179.07, 49.53), &wires, &mut visited).unwrap();
    assert_eq!(vec![pt(179.07, 34.29), pt(167.64, 49.53),], wire);
}

#[test]
fn test_seek_wires() {
    let schema = wire_schema();
    let wires = Netlist::wires(&schema);
    let mut visited = vec![];
    let wire = Netlist::seek_wire(pt(179.07, 49.53), &wires, &mut visited);
    assert_eq!(
        vec![
            pt(179.07, 34.29),
            pt(185.42, 34.29),
            pt(179.07, 22.86),
            pt(185.42, 22.86),
            pt(180.34, 49.53),
            pt(167.64, 49.53),
            pt(166.37, 49.53),
            pt(167.64, 41.91),
            pt(167.64, 34.29),
            pt(167.64, 26.67),
            pt(166.37, 26.67),
            pt(166.37, 34.29),
            pt(166.37, 41.91)
        ],
        wire
    );
    // the start and every point found are visited, in that order
    assert_eq!(visited.len(), 14);
    assert_eq!(visited[0], pt(179.07, 49.53));
    assert_eq!(&visited[1..], &wire[..]);
}

#[test]
fn seek_wires_on_a_loop_finds_each_point_once() {
    let mut schema = Schema::new("loop");
    schema.items.push(wire(pt(0.0, 0.0), pt(1.0, 0.0)));
    schema.items.push(wire(pt(1.0, 0.0), pt(1.0, 1.0)));
    schema.items.push(wire(pt(1.0, 1.0), pt(0.0, 0.0)));
    let wires = Netlist::wires(&schema);
    let mut visited = vec![];
    let found = Netlist::seek_wire(pt(0.0, 0.0), &wires, &mut visited);
    assert_eq!(found, vec![pt(1.0, 0.0), pt(1.0, 1.0)]);
    // a later walk from a point of the loop finds nothing new
    let again = Netlist::seek_wire(pt(1.0, 1.0), &wires, &mut visited);
    assert!(again.is_empty());
    // a point where no wire ends
    let none = Netlist::seek_wire(pt(5.0, 5.0), &wires, &mut visited);
    assert!(none.is_empty());
    assert!(Netlist::get_wire(pt(6.0, 6.0), &wires, &mut visited).is_none());
}

#[test]
fn wires_are_symmetric_and_quantized() {
    let mut schema = Schema::new("w");
    // the two ends that meet differ by less than half a hundredth
    schema.items.push(wire(pt(1.0, 1.0), pt(2.0, 1.0)));
    schema.items.push(wire(Pt { x: mm(2.0) + 40, y: mm(1.0) - 40 }, pt(3.0, 1.0)));
    // a wire with one point is passed over
    let mut short = Wire::new();
    short.pts = Pts(vec![pt(9.0, 9.0)]);
    schema.items.push(SchemaItem::Wire(short));
    let wires = Netlist::wires(&schema);
    assert_eq!(wires.keys.len(), 3);
    let a = wires.find(pt(1.0, 1.0).key()).unwrap();
    let b = wires.find(pt(2.0, 1.0).key()).unwrap();
    let c = wires.find(pt(3.0, 1.0).key()).unwrap();
    assert!(wires.values[a].contains(&pt(2.0, 1.0)));
    assert!(wires.values[b].contains(&pt(1.0, 1.0)));
    assert!(wires.values[b].contains(&pt(3.0, 1.0)));
    assert!(wires.values[c].contains(&pt(2.0, 1.0)));
    assert!(wires.find(pt(9.0, 9.0).key()).is_none());
}

/// Four parts joined by wires as on the sheet of a summing amplifier.
fn net_schema() -> Schema {
    let mut schema = Schema::new("summe");
    schema.library_symbols.push(resistor_lib());
    schema.library_symbols.push(power_lib());
    // R33 pin 2 at (207.01, 52.07)
    schema.items.push(SchemaItem::Symbol(placed("R33", "10k", "Device:R", 207.01, 48.26, 0.0)));
    // U7 pin "6": a resistor-shaped stand-in with reference U7 and pins 5, 6
    let mut u7 = placed("U7", "TL072", "Amp:Half", 214.63, 52.07, 0.0);
    u7.unit = 1;
    schema.library_symbols.push(library(
        "Amp:Half",
        vec![unit("Half_1_1", vec![pin("6", 0.0, 0.0, 0.0), pin("5", 0.0, 5.08, 0.0)])],
    ));
    schema.items.push(SchemaItem::Symbol(u7));
    // C9 pin 2 at (222.25, 52.07)
    schema.items.push(SchemaItem::Symbol(placed("C9", "100n", "Device:R", 222.25, 48.26, 0.0)));
    // R36 pin 1 at (229.87, 52.07)
    schema.items.push(SchemaItem::Symbol(placed("R36", "1k", "Device:R", 229.87, 55.88, 0.0)));
    schema.items.push(wire(pt(207.01, 52.07), pt(214.63, 52.07)));
    schema.items.push(wire(pt(214.63, 52.07), pt(222.25, 52.07)));
    schema.items.push(wire(pt(222.25, 52.07), pt(229.87, 52.07)));
    schema.items.push(junction(214.63, 52.07));

    // a power pin at (153.67, 148.59), wired to a resistor
    schema.items.push(SchemaItem::Symbol(placed("#PWR01", "+15V", "power:+15V", 153.67, 148.59, 0.0)));
    schema.items.push(SchemaItem::Symbol(placed("R1", "1k", "Device:R", 160.02, 152.4, 0.0)));
    schema.items.push(wire(pt(153.67, 148.59), pt(160.02, 148.59)));

    // a label on a wire to a resistor
    schema.items.push(label("INPUT", 50.8, 50.8));
    schema.items.push(wire(pt(50.8, 50.8), pt(60.96, 50.8)));
    schema.items.push(SchemaItem::Symbol(placed("R2", "1k", "Device:R", 60.96, 54.61, 0.0)));

    // R7 pin 2, R8 pin 1, U4 pin 3 and RV3 pin 2 meet at (81.28, 102.87)
    schema.library_symbols.push(library(
        "Amp:In",
        vec![unit("In_1_1", vec![pin("3", 0.0, 0.0, 0.0)])],
    ));
    schema.items.push(SchemaItem::Symbol(placed("R7", "10k", "Device:R", 81.28, 99.06, 0.0)));
    schema.items.push(SchemaItem::Symbol(placed("R8", "10k", "Device:R", 81.28, 106.68, 0.0)));
    schema.items.push(SchemaItem::Symbol(placed("U4", "TL072", "Amp:In", 88.9, 102.87, 0.0)));
    schema.items.push(SchemaItem::Symbol(placed("RV3", "10k", "Device:R", 73.66, 99.06, 0.0)));
    schema.items.push(wire(pt(81.28, 102.87), pt(88.9, 102.87)));
    schema.items.push(wire(pt(81.28, 102.87), pt(73.66, 102.87)));

    // a footprint-only part is left out
    schema.library_symbols.push(library(
        "Mechanical:MountingHole",
        vec![unit("MountingHole_1_1", vec![pin("1", 0.0, 0.0, 0.0)])],
    ));
    schema.items.push(SchemaItem::Symbol(placed("H1", "Hole", "Mechanical:MountingHole", 5.0, 5.0, 0.0)));
    schema
}

#[test]
fn check_positions() {
    let schema = net_schema();
    let netlist = Netlist::from(&schema).unwrap();
    assert_eq!(
        String::from("R33_2__U7_6__C9_2__R36_1"),
        netlist.netname(pt(207.01, 52.07)).unwrap()
    );
    assert_eq!(
        String::from("R7_2__R8_1__U4_3__RV3_2"),
        netlist.netname(pt(81.28, 102.87)).unwrap()
    );
    assert_eq!(String::from("+15V"), netlist.netname(pt(153.67, 148.59)).unwrap());
}

#[test]
fn net_names_are_the_same_within_a_group() {
    let schema = net_schema();
    let netlist = Netlist::from(&schema).unwrap();
    let name = netlist.netname(pt(207.01, 52.07)).unwrap();
    for p in [pt(214.63, 52.07), pt(222.25, 52.07), pt(229.87, 52.07)] {
        assert_eq!(netlist.netname(p).unwrap(), name);
    }
    // the other end of the power net
    assert_eq!(netlist.netname(pt(160.02, 148.59)).unwrap(), "+15V");
    // the label names its net
    assert_eq!(netlist.netname(pt(50.8, 50.8)).unwrap(), "INPUT");
    assert_eq!(netlist.netname(pt(60.96, 50.8)).unwrap(), "INPUT");
    // a pin that nothing is connected to: a group of its own
    assert_eq!(netlist.netname(pt(207.01, 44.45)).unwrap(), "R33_1");
    // a bare wire end and the left-out part have no name
    assert_eq!(netlist.netname(pt(5.0, 5.0)), None);
    assert_eq!(netlist.netname(pt(1.0, 1.0)), None);
    // each position belongs to one group only
    let mut seen = Vec::new();
    for (i, key) in netlist.node_positions.keys.iter().enumerate() {
        let mut keys = vec![*key];
        for node in &netlist.node_positions.values[i] {
            keys.push(node.pos().key());
        }
        keys.sort();
        keys.dedup();
        for k in keys {
            assert!(!seen.contains(&k));
            seen.push(k);
        }
    }
}

#[test]
fn extraction_is_repeatable() {
    let schema = net_schema();
    let a = Netlist::from(&schema).unwrap();
    let b = Netlist::from(&schema).unwrap();
    assert_eq!(a.names.keys, b.names.keys);
    assert_eq!(a.names.values, b.names.values);
    assert_eq!(a.node_positions.keys, b.node_positions.keys);
}

#[test]
fn group_names() {
    let r = placed("R1", "1k", "Device:R", 0.0, 0.0, 0.0);
    let pwr = placed("#PWR1", "GND", "power:GND", 0.0, 0.0, 0.0);
    let pwr2 = placed("#PWR2", "+5V", "power:+5V", 0.0, 0.0, 0.0);
    let p1 = pin("1", 0.0, 0.0, 0.0);
    let p2 = pin("2", 0.0, 0.0, 0.0);
    let l = LocalLabel::new("OUT");
    let o = Pt { x: 0, y: 0 };
    let g = match global_label("BUS", 0.0, 0.0) {
        SchemaItem::GlobalLabel(g) => g,
        _ => unreachable!(),
    };
    // pins only
    let nodes = vec![NodePositions::Pin(o, &p1, &r), NodePositions::Pin(o, &p2, &r)];
    assert_eq!(group_name_of(&nodes), "R1_1__R1_2");
    // a single pin
    assert_eq!(group_name_of(&vec![NodePositions::Pin(o, &p2, &r)]), "R1_2");
    // a label goes before pins, the last label counts
    let nodes = vec![
        NodePositions::Label(o, &l),
        NodePositions::Pin(o, &p1, &r),
        NodePositions::GlobalLabel(o, &g),
        NodePositions::Junction(o),
    ];
    assert_eq!(group_name_of(&nodes), "BUS");
    // a power symbol goes before labels, wherever it stands; the last one counts
    let nodes = vec![
        NodePositions::Pin(o, &p1, &pwr),
        NodePositions::Pin(o, &p1, &pwr2),
        NodePositions::Pin(o, &p1, &r),
        NodePositions::Label(o, &l),
        NodePositions::NoConnect(o),
    ];
    assert_eq!(group_name_of(&nodes), "+5V");
    // nothing that could give a name
    assert_eq!(group_name_of(&vec![NodePositions::Junction(o)]), "");
    assert_eq!(group_name_of(&Vec::new()), "");
}

#[test]
fn extraction_fails_as_the_pin_placement() {
    let mut schema = Schema::new("bad");
    schema.library_symbols.push(resistor_lib());
    schema.items.push(SchemaItem::Symbol(placed("R1", "1k", "Device:R", 0.0, 0.0, 45.0)));
    let e = Netlist::from(&schema).err().unwrap();
    assert_eq!(e.0, ErrorKind::UnsupportedAngle);
    assert_eq!(Netlist::collect_points(&schema).err().unwrap().0, ErrorKind::UnsupportedAngle);
}

#[test]
fn collect_points_groups_by_position() {
    let mut schema = Schema::new("points");
    schema.library_symbols.push(resistor_lib());
    schema.items.push(SchemaItem::Symbol(placed("R1", "1k", "Device:R", 10.0, 10.0, 0.0)));
    schema.items.push(junction(10.0, 6.19));
    let mut nc = NoConnect::new();
    nc.pos = pos(10.0, 13.81, 0.0);
    schema.items.push(SchemaItem::NoConnect(nc));
    schema.items.push(label("A", 1.0, 1.0));
    schema.items.push(global_label("B", 1.0, 1.0));
    // a symbol without library symbol adds nothing
    schema.items.push(SchemaItem::Symbol(placed("X1", "?", "Missing:X", 0.0, 0.0, 0.0)));
    let points = Netlist::collect_points(&schema).unwrap();
    assert_eq!(points.keys, vec![(1000, 619), (1000, 1381), (100, 100)]);
    assert_eq!(points.values[0].len(), 2);
    assert_eq!(points.values[1].len(), 2);
    assert_eq!(points.values[2].len(), 2);
    assert!(matches!(points.values[0][0], NodePositions::Pin(..)));
    assert!(matches!(points.values[0][1], NodePositions::Junction(..)));
    assert!(matches!(points.values[1][0], NodePositions::Pin(..)));
    assert!(matches!(points.values[1][1], NodePositions::NoConnect(..)));
    assert!(matches!(points.values[2][0], NodePositions::Label(..)));
    assert!(matches!(points.values[2][1], NodePositions::GlobalLabel(..)));
}

#[test]
fn pin_position_of_placed_symbol() {
    // without mirror the y axis is flipped: local (0, 3.81) lies above the symbol
    let r = placed("R1", "1k", "Device:R", 10.0, 10.0, 0.0);
    assert_eq!(pin_position(&r, &pin("1", 0.0, 3.81, 0.0)).unwrap(), pt(10.0, 6.19));
    let mut m = placed("R1", "1k", "Device:R", 10.0, 10.0, 90.0);
    assert_eq!(pin_position(&m, &pin("1", 0.0, 3.81, 0.0)).unwrap(), pt(6.19, 10.0));
    m.mirror = Some("x".to_string());
    assert_eq!(pin_position(&m, &pin("1", 0.0, 3.81, 0.0)).unwrap(), pt(13.81, 10.0));
    let _ = At::Pt(pt(0.0, 0.0));
    let _ = Property {
        key: String::new(),
        value: String::new(),
        pos: pos(0.0, 0.0, 0.0),
        effects: Effects::default(),
    };
    let _ = Stroke::default();
}

#[test]
fn netlist_as_text() {
    let mut schema = Schema::new("text");
    schema.library_symbols.push(resistor_lib());
    schema.items.push(SchemaItem::Symbol(placed("R1", "10k", "Device:R", 10.0, 10.0, 0.0)));
    schema.items.push(junction(1.5, -2.25));
    schema.items.push(label("IN", 3.0, 4.0));
    schema.items.push(global_label("OUT", 5.0, 6.0));
    let netlist = Netlist::from(&schema).unwrap();
    let text = netlist.to_string();
    assert!(text.starts_with("Netlist:\n"));
    assert!(text.contains("    Pin(R1:1)\n"), "{}", text);
    assert!(text.contains("    Pin(R1:2)\n"), "{}", text);
    assert!(text.contains("- Pt(1.5x-2.25)\n    Junction()\n"), "{}", text);
    assert!(text.contains("- Pt(3x4)\n    LocalLabel(IN)\n"), "{}", text);
    assert!(text.contains("- Pt(5x6)\n    GlobalLabel(OUT)\n"), "{}", text);
    assert_eq!(text.lines().count(), 1 + 2 * netlist.node_positions.keys.len());

    let empty = Schema::new("empty");
    assert_eq!(Netlist::from(&empty).unwrap().to_string(), "Netlist:\n");
}

#[test]
fn points_as_text() {
    assert_eq!(pt(1.0, 2.5).to_string(), "1.00x2.50");
    assert_eq!(pt(-10.16, 0.0).to_string(), "-10.16x0.00");
    assert_eq!(Pt { x: 12345, y: -12355 }.to_string(), "1.23x-1.24");
    assert_eq!(Pt { x: 50, y: 49 }.to_string(), "0.01x0.00");
    assert_eq!(Pt { x: i32::MAX, y: i32::MIN }.to_string(), "214748.36x-214748.36");
}
