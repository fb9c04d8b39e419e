use recad_core::draw::At;
use recad_core::gr::{
    Circle, Color, Effects, FillType, GraphicItem, Justify, Line, Polyline, Pos, Property, Pt, Pts,
    Rect, Rectangle, Stroke,
};
use recad_core::math::bbox::{calculate, text, Bbox};
use recad_core::schema::{Junction, LocalLabel, NoConnect, SchemaItem, Symbol, Wire};
use recad_core::symbols::{ElectricalTypes, LibrarySymbol, Pin, PinGraphicalStyle, PinProperty};
use recad_core::{ErrorKind, Plot, Schema};

fn mm(v: f64) -> i32 {
    (v * 10000.0).round() as i32
}

fn pt(x: f64, y: f64) -> Pt {
    Pt { x: mm(x), y: mm(y) }
}

fn pos(x: f64, y: f64, angle: f64) -> Pos {
    Pos { x: mm(x), y: mm(y), angle: mm(angle) }
}

fn pin(number: &str, x: f64, y: f64, angle: f64) -> Pin {
    Pin {
        electrical_type: ElectricalTypes::Passive,
        graphical_style: PinGraphicalStyle::Line,
        pos: pos(x, y, angle),
        length: mm(2.54),
        hide: false,
        name: PinProperty { name: "~".to_string(), effects: Effects::default() },
        number: PinProperty { name: number.to_string(), effects: Effects::default() },
    }
}

fn prop(key: &str, value: &str) -> Property {
    Property {
        key: key.to_string(),
        value: value.to_string(),
        pos: pos(0.0, 0.0, 0.0),
        effects: Effects::default(),
    }
}

fn unit(lib_id: &str, graphics: Vec<GraphicItem>, pins: Vec<Pin>) -> LibrarySymbol {
    LibrarySymbol {
        lib_id: lib_id.to_string(),
        extends: None,
        power: false,
        pin_numbers: true,
        pin_names: true,
        in_bom: true,
        on_board: true,
        exclude_from_sim: false,
        props: Vec::new(),
        graphics,
        pins,
        pin_names_offset: None,
        units: Vec::new(),
        unit_name: None,
    }
}

fn polyline(points: &[(f64, f64)]) -> GraphicItem {
    GraphicItem::Polyline(Polyline {
        pts: Pts(points.iter().map(|p| pt(p.0, p.1)).collect()),
        stroke: Stroke::default(),
        fill: FillType::NoFill,
        uuid: None,
    })
}

/// A dual operational amplifier: two amplifier units and a power unit.
fn opamp_lib() -> LibrarySymbol {
    let triangle = [(-5.08, 5.08), (5.08, 0.0), (-5.08, -5.08), (-5.08, 5.08)];
    let mut lib = unit("Amplifier_Operational:LM2904", Vec::new(), Vec::new());
    lib.props = vec![
        prop("Reference", "U"),
        prop("Value", "LM2904"),
        prop("ki_keywords", "dual opamp"),
        prop("Footprint", ""),
    ];
    lib.units = vec![
        unit(
            "LM2904_1_1",
            vec![polyline(&triangle)],
            vec![pin("1", 7.62, 0.0, 180.0), pin("2", -7.62, -2.54, 0.0), pin("3", -7.62, 2.54, 0.0)],
        ),
        unit(
            "LM2904_2_1",
            vec![polyline(&triangle)],
            vec![pin("5", -7.62, 2.54, 0.0), pin("6", -7.62, -2.54, 0.0), pin("7", 7.62, 0.0, 180.0)],
        ),
        unit(
            "LM2904_3_1",
            Vec::new(),
            vec![pin("4", -2.54, -7.62, 90.0), pin("8", -2.54, 7.62, 270.0)],
        ),
    ];
    lib
}

fn opamp_schema() -> Schema {
    let mut schema = Schema::new("opamp");
    let lib = opamp_lib();
    let mut u1 = lib.symbol(1);
    u1.set_property("Reference", "U1");
    u1.pos = pos(93.98, 80.01, 0.0);
    let mut u1b = lib.symbol(2);
    u1b.set_property("Reference", "U1");
    u1b.pos = pos(120.0, 80.01, 0.0);
    schema.library_symbols.push(lib);
    schema.items.push(SchemaItem::Wire(Wire::new()));
    schema.items.push(SchemaItem::Symbol(u1));
    schema.items.push(SchemaItem::Symbol(u1b));
    schema
}

#[test]
fn pin_position() {
    let schema = opamp_schema();
    let symbol = schema.symbol("U1", 1).unwrap();
    let lib_symbol = schema.library_symbol(&symbol.lib_id).unwrap();
    let positions = lib_symbol
        .pins(1)
        .iter()
        .map(|p| recad_core::math::pin_position(symbol, p).unwrap())
        .collect::<Vec<Pt>>();
    let res = [pt(101.60, 80.01), pt(86.36, 82.55), pt(86.36, 77.47)];
    assert_eq!(res[0], *positions.first().unwrap());
    assert_eq!(res[1], *positions.get(1).unwrap());
    assert_eq!(res[2], *positions.get(2).unwrap());
}

#[test]
fn resolve_positions() {
    let schema = opamp_schema();
    assert_eq!(schema.get_pt(&At::Pt(pt(1.0, 2.0))).unwrap(), pt(1.0, 2.0));
    let at = |number: &str| At::Pin("U1".to_string(), number.to_string());
    assert_eq!(schema.get_pt(&at("1")).unwrap(), pt(101.60, 80.01));
    assert_eq!(schema.get_pt(&at("2")).unwrap(), pt(86.36, 82.55));
    assert_eq!(schema.get_pt(&at("3")).unwrap(), pt(86.36, 77.47));
    // pin 7 belongs to unit 2, which is placed elsewhere
    assert_eq!(schema.get_pt(&at("7")).unwrap(), pt(127.62, 80.01));
    assert_eq!(schema.pin_unit("U1", "1"), Some(1));
    assert_eq!(schema.pin_unit("U1", "7"), Some(2));
    // the errors, in the order of the steps
    let e = schema.get_pt(&at("9")).unwrap_err();
    assert_eq!(e.0, ErrorKind::PinUnitNotFound);
    let e = schema.get_pt(&At::Pin("U2".to_string(), "1".to_string())).unwrap_err();
    assert_eq!(e.0, ErrorKind::PinUnitNotFound);
    // pin 4 is in unit 3, of which no symbol is placed
    let e = schema.get_pt(&at("4")).unwrap_err();
    assert_eq!(e.0, ErrorKind::SymbolNotFound);
    let e = schema.get_pt(&At::Dot("d".to_string())).unwrap_err();
    assert_eq!(e.0, ErrorKind::UnsupportedReference);
}

#[test]
fn resolve_library_and_pin_errors() {
    // the first symbol U1 decides that pin 1 is in unit 1; the symbol placed
    // as unit 1 refers to another library symbol
    let mut schema = Schema::new("odd");
    let lib = opamp_lib();
    let mut a = lib.symbol(2);
    a.set_property("Reference", "U1");
    let mut b = Symbol::new("U1", "x", "Other:Part");
    b.unit = 1;
    schema.library_symbols.push(lib);
    schema.items.push(SchemaItem::Symbol(a));
    schema.items.push(SchemaItem::Symbol(b));
    let at = At::Pin("U1".to_string(), "1".to_string());
    assert_eq!(schema.get_pt(&at).unwrap_err().0, ErrorKind::LibraryNotFound);
    // now the other library symbol is there, but has no pin 1
    let mut other = unit("Other:Part", Vec::new(), Vec::new());
    other.units = vec![unit("Part_1_1", Vec::new(), vec![pin("2", 0.0, 0.0, 0.0)])];
    schema.library_symbols.push(other);
    assert_eq!(schema.get_pt(&at).unwrap_err().0, ErrorKind::PinNotFound);
    // a placement that cannot be applied
    let mut schema = opamp_schema();
    if let SchemaItem::Symbol(s) = &mut schema.items[1] {
        s.mirror = Some("q".to_string());
    }
    assert_eq!(schema.get_pt(&at).unwrap_err().0, ErrorKind::UnsupportedMirror);
}

#[test]
fn test_bbox_symbol_1() {
    let mut schema = Schema::new("test_bbox");
    let lib_sym = opamp_lib();
    let sym = lib_sym.symbol(1);
    schema.library_symbols.push(lib_sym);
    schema.items.push(SchemaItem::Symbol(sym.clone()));
    assert_eq!("Amplifier_Operational:LM2904", sym.lib_id);

    let bbox = sym.outline(&schema).unwrap();
    assert_eq!(mm(-7.62), bbox.start.x);
    assert_eq!(mm(-5.08), bbox.start.y);
    assert_eq!(mm(7.62), bbox.end.x);
    assert_eq!(mm(5.08), bbox.end.y);
}

#[test]
fn test_bbox_symbol_3() {
    let mut schema = Schema::new("test_bbox");
    let lib_sym = opamp_lib();
    let sym = lib_sym.symbol(3);
    schema.library_symbols.push(lib_sym);
    schema.items.push(SchemaItem::Symbol(sym.clone()));
    assert_eq!("Amplifier_Operational:LM2904", sym.lib_id);

    let bbox = sym.outline(&schema).unwrap();
    assert_eq!(mm(-2.54), bbox.start.x);
    assert_eq!(mm(-7.62), bbox.start.y);
    assert_eq!(mm(-2.54), bbox.end.x);
    assert_eq!(mm(7.62), bbox.end.y);
}

#[test]
fn symbol_property() {
    let schema = opamp_schema();
    let symbol = schema
        .items
        .iter()
        .filter_map(|s| match s {
            SchemaItem::Symbol(s) => Some(s),
            _ => None,
        })
        .collect::<Vec<&Symbol>>()[0];
    assert_eq!("U1".to_string(), symbol.property("Reference"));
    assert_eq!("LM2904".to_string(), symbol.property("Value"));
    assert_eq!("".to_string(), symbol.property("Missing"));
    // the library's own properties are not taken over
    assert_eq!("".to_string(), symbol.property("ki_keywords"));
    assert_eq!(symbol.props.len(), 3);
    // the values of several properties with one key are joined
    let mut s = Symbol::new("R1", "1k", "Device:R");
    s.props.push(prop("Value", "+extra"));
    assert_eq!("1k+extra", s.property("Value"));
    s.set_property("Value", "2k");
    assert_eq!("2k2k", s.property("Value"));
    assert_eq!("R1", s.property("Reference"));
}

#[test]
fn get_symbol() {
    let schema = opamp_schema();
    let symbol = schema.symbol("U1", 1).unwrap();
    assert_eq!("U1", symbol.property("Reference"));
    assert_eq!(symbol.unit, 1);
    assert_eq!(schema.symbol("U1", 2).unwrap().unit, 2);
    assert!(schema.symbol("U1", 3).is_none());
    assert!(schema.symbol("U9", 1).is_none());
}

#[test]
fn get_lib_symbol() {
    let schema = opamp_schema();
    let symbol = schema.symbol("U1", 1).unwrap();
    let lib_symbol = schema.library_symbol(&symbol.lib_id).unwrap();
    assert_eq!("Amplifier_Operational:LM2904".to_string(), lib_symbol.lib_id);
    assert!(schema.library_symbol("Device:R").is_none());
}

#[test]
fn get_lib_symbol_unit() {
    let mut schema = Schema::new("units");
    let mut lib = unit("Reference_Voltage:LM4040DBZ-5", Vec::new(), Vec::new());
    lib.units = vec![
        unit("LM4040DBZ-5_0_1", Vec::new(), Vec::new()),
        unit("LM4040DBZ-5_1_1", Vec::new(), Vec::new()),
    ];
    schema.library_symbols.push(lib);
    let lib_symbol = schema.library_symbol("Reference_Voltage:LM4040DBZ-5").unwrap();

    let mut iter = lib_symbol.units.iter();
    let first = iter.next().unwrap();
    assert_eq!(Some(0), first.unit());
    assert_eq!(Some(1), first.style());

    let second = iter.next().unwrap();
    assert_eq!(Some(1), second.unit());
    assert_eq!(Some(1), second.style());
}

#[test]
fn unit_and_style_of_identifiers() {
    let id = |s: &str| unit(s, Vec::new(), Vec::new());
    assert_eq!(id("R_US_2_1").unit(), Some(2));
    assert_eq!(id("R_US_2_1").style(), Some(1));
    assert_eq!(id("R_12_255").unit(), Some(12));
    assert_eq!(id("R_12_255").style(), Some(255));
    assert_eq!(id("R_12_256").style(), None);
    assert_eq!(id("R_1").unit(), None);
    assert_eq!(id("R_1").style(), Some(1));
    assert_eq!(id("R").unit(), None);
    assert_eq!(id("R").style(), None);
    assert_eq!(id("7").style(), Some(7));
    assert_eq!(id("R__1").unit(), None);
    assert_eq!(id("R_+3_1").unit(), Some(3));
    assert_eq!(id("R_x_1").unit(), None);
    assert_eq!(id("").unit(), None);
}

#[test]
fn library_pins() {
    let lib = opamp_lib();
    let numbers = |unit: u8| -> Vec<String> {
        lib.pins(unit).iter().map(|p| p.number.name.clone()).collect()
    };
    assert_eq!(numbers(1), vec!["1", "2", "3"]);
    assert_eq!(numbers(2), vec!["5", "6", "7"]);
    assert_eq!(numbers(3), vec!["4", "8"]);
    assert!(numbers(4).is_empty());
    assert_eq!(lib.pin("7").unwrap().pos, pos(7.62, 0.0, 180.0));
    assert!(lib.pin("9").is_none());
    assert_eq!(lib.pin_unit("8"), Some(3));
    assert_eq!(lib.pin_unit("9"), None);
    // the pins of the shared unit 0 belong to every unit
    let mut shared = unit("X", Vec::new(), Vec::new());
    shared.units = vec![
        unit("X_0_1", Vec::new(), vec![pin("9", 0.0, 0.0, 0.0)]),
        unit("X_1_1", Vec::new(), vec![pin("1", 0.0, 0.0, 0.0)]),
        unit("X_bad", Vec::new(), vec![pin("2", 0.0, 0.0, 0.0)]),
    ];
    let n: Vec<String> = shared.pins(1).iter().map(|p| p.number.name.clone()).collect();
    assert_eq!(n, vec!["9", "1"]);
    let n: Vec<String> = shared.pins(0).iter().map(|p| p.number.name.clone()).collect();
    assert_eq!(n, vec!["9"]);
    assert_eq!(shared.pin_unit("2"), None);
}

#[test]
fn bounding_of_points() {
    assert_eq!(calculate(&Vec::new()), Rect { start: pt(0.0, 0.0), end: pt(0.0, 0.0) });
    let r = calculate(&vec![pt(3.0, -1.0)]);
    assert_eq!((r.start, r.end), (pt(3.0, -1.0), pt(3.0, -1.0)));
    let r = calculate(&vec![pt(3.0, -1.0), pt(-2.0, 4.0), pt(0.0, 0.0)]);
    assert_eq!((r.start.x, r.start.y, r.end.x, r.end.y), (mm(-2.0), mm(-1.0), mm(3.0), mm(4.0)));
}

fn corners(r: Rect) -> (i32, i32, i32, i32) {
    (r.start.x, r.start.y, r.end.x, r.end.y)
}

fn effects(justify: Vec<Justify>) -> Effects {
    let mut e = Effects::default();
    e.justify = justify;
    e
}

#[test]
fn text_outline_rule() {
    let dim = (100, 40);
    let at = |angle: i32| Pos { x: 1000, y: 2000, angle };
    // centered
    let r = text(dim, &at(0), &effects(vec![])).unwrap();
    assert_eq!(corners(r), (950, 1980, 1050, 2020));
    // flush against a side
    let r = text(dim, &at(0), &effects(vec![Justify::Left, Justify::Top])).unwrap();
    assert_eq!(corners(r), (1000, 2000, 1100, 2040));
    let r = text(dim, &at(0), &effects(vec![Justify::Right, Justify::Bottom])).unwrap();
    assert_eq!(corners(r), (900, 1960, 1000, 2000));
    // right wins over left, top over bottom
    let all = vec![Justify::Left, Justify::Right, Justify::Bottom, Justify::Top];
    let r = text(dim, &at(900000), &effects(all.clone())).unwrap();
    assert_eq!(corners(r), (900, 2000, 1000, 2040));
    let r = text(dim, &at(2700000), &effects(vec![Justify::Mirror])).unwrap();
    assert_eq!(corners(r), (950, 1980, 1050, 2020));
    // upside down the width counts backward: start is the later corner
    let r = text(dim, &at(1800000), &effects(vec![])).unwrap();
    assert_eq!(corners(r), (950, 1940, 1050, 1980));
    let r = text(dim, &at(1800000), &effects(vec![Justify::Left, Justify::Top])).unwrap();
    assert_eq!(corners(r), (1000, 2000, 1100, 2040));
    let r = text(dim, &at(1800000), &effects(vec![Justify::Right, Justify::Bottom])).unwrap();
    assert_eq!(corners(r), (900, 1960, 1000, 2000));
    // odd sizes are halved toward zero
    let r = text((5, 3), &at(0), &effects(vec![])).unwrap();
    assert_eq!(corners(r), (998, 1999, 1003, 2002));
    // a negative measured size builds the rectangle backward
    let r = text((-100, 40), &at(0), &effects(vec![Justify::Left, Justify::Top])).unwrap();
    assert_eq!(corners(r), (900, 1960, 1000, 2000));
    // any other angle
    let e = text(dim, &at(450000), &effects(vec![])).unwrap_err();
    assert_eq!(e.0, ErrorKind::UnsupportedAngle);
    let e = text(dim, &at(3600000), &effects(vec![])).unwrap_err();
    assert_eq!(e.0, ErrorKind::UnsupportedAngle);
    let far = Pos { x: i32::MAX, y: 0, angle: 0 };
    let e = text(dim, &far, &effects(vec![])).unwrap_err();
    assert_eq!(e.0, ErrorKind::OutOfRange);
}

#[test]
fn simple_outlines() {
    let schema = Schema::new("outlines");
    let mut j = Junction::new();
    j.pos = pos(10.0, 20.0, 0.0);
    assert_eq!(corners(j.outline(&schema).unwrap()), (mm(10.0) - 4572, mm(20.0) - 4572, mm(10.0) + 4572, mm(20.0) + 4572));
    j.diameter = mm(1.0);
    assert_eq!(corners(j.outline(&schema).unwrap()), (mm(9.5), mm(19.5), mm(10.5), mm(20.5)));
    j.pos = Pos { x: i32::MIN, y: 0, angle: 0 };
    assert_eq!(j.outline(&schema).unwrap_err().0, ErrorKind::OutOfRange);

    let mut n = NoConnect::new();
    n.pos = pos(1.0, 1.0, 0.0);
    assert_eq!(corners(n.outline(&schema).unwrap()), (mm(1.0) - 6350, mm(1.0) - 6350, mm(1.0) + 6350, mm(1.0) + 6350));

    let mut w = Wire::new();
    assert_eq!(w.outline(&schema).unwrap_err().0, ErrorKind::Malformed);
    w.pts = Pts(vec![pt(5.0, 5.0), pt(1.0, 9.0)]);
    // the corners are not put in order
    assert_eq!(corners(w.outline(&schema).unwrap()), (mm(5.0), mm(5.0), mm(1.0), mm(9.0)));

    let mut l = LocalLabel::new("IN");
    l.pos = Pos { x: 1000, y: 2000, angle: 0 };
    assert_eq!(corners(l.outline((100, 40)).unwrap()), (950, 1980, 1050, 2020));
}

#[test]
fn symbol_outline_with_graphics() {
    let mut lib = unit("T:G", Vec::new(), Vec::new());
    lib.units = vec![
        unit(
            "G_0_1",
            vec![GraphicItem::Circle(Circle {
                center: pt(0.0, 0.0),
                radius: mm(2.0),
                stroke: Stroke::default(),
                fill: FillType::NoFill,
                uuid: None,
            })],
            Vec::new(),
        ),
        unit(
            "G_1_1",
            vec![
                GraphicItem::Rectangle(Rectangle {
                    start: pt(-1.0, -3.0),
                    end: pt(1.0, 1.0),
                    stroke: Stroke::default(),
                    fill: FillType::Color(Color::black()),
                    uuid: None,
                }),
                GraphicItem::Line(Line {
                    pts: Pts(vec![pt(0.0, 0.0), pt(4.0, 0.5)]),
                    stroke: Stroke::default(),
                    fill: FillType::NoFill,
                    uuid: None,
                }),
            ],
            Vec::new(),
        ),
        unit("G_2_1", vec![polyline(&[(-9.0, -9.0), (9.0, 9.0)])], Vec::new()),
    ];
    let mut schema = Schema::new("g");
    let mut s = lib.symbol(1);
    s.pos = pos(10.0, 10.0, 90.0);
    schema.library_symbols.push(lib);
    // local x in -2..4, y in -3..2; y flipped: -2..3; turned by 90: x' = y, y' = -x
    let r = s.outline(&schema).unwrap();
    assert_eq!(corners(r), (mm(8.0), mm(6.0), mm(13.0), mm(12.0)));
    s.lib_id = "T:None".to_string();
    assert_eq!(s.outline(&schema).unwrap_err().0, ErrorKind::LibraryNotFound);
    // without points the outline is the rectangle at the origin
    let mut empty = unit("T:E", Vec::new(), Vec::new());
    empty.units = vec![unit("E_1_1", Vec::new(), Vec::new())];
    let mut e = empty.symbol(1);
    e.pos = pos(5.0, 5.0, 45.0);
    schema.library_symbols.push(empty);
    assert_eq!(corners(e.outline(&schema).unwrap()), (0, 0, 0, 0));
    assert!(recad_core::math::pin_position(&e, &pin("1", 0.0, 0.0, 0.0)).is_err());
}

#[test]
fn schema_outline_with_measured_texts() {
    let mut schema = opamp_schema();
    if let SchemaItem::Wire(w) = &mut schema.items[0] {
        w.pts = Pts(vec![pt(50.0, 50.0), pt(60.0, 50.0)]);
    }
    let mut l = LocalLabel::new("IN");
    l.pos = pos(40.0, 40.0, 0.0);
    schema.items.push(SchemaItem::LocalLabel(l));
    let mut j = Junction::new();
    j.pos = pos(130.0, 90.0, 0.0);
    j.diameter = mm(1.0);
    schema.items.push(SchemaItem::Junction(j));
    // hide all properties but the reference of the first symbol
    for item in schema.items.iter_mut() {
        if let SchemaItem::Symbol(s) = item {
            for p in s.props.iter_mut() {
                p.effects.hide = true;
            }
        }
    }
    if let SchemaItem::Symbol(s) = &mut schema.items[1] {
        s.props[0].effects.hide = false;
        s.props[0].pos = pos(93.98, 70.0, 0.0);
    }
    let texts = schema.texts();
    assert_eq!(texts.len(), 2);
    assert_eq!(texts[0].text, "U1");
    assert_eq!(texts[1].text, "IN");
    let dims = vec![(mm(4.0), mm(2.0)), (mm(2.0), mm(2.0))];
    let r = schema.outline(&dims).unwrap();
    // left and top: the label, 2 x 2 around (40, 40); right and bottom: the junction
    assert_eq!(corners(r), (mm(39.0), mm(39.0), mm(130.5), mm(90.5)));
    assert_eq!(schema.outline(&vec![(1, 1)]).unwrap_err().0, ErrorKind::Measure);
    // a wire without points fails the outline
    schema.items.push(SchemaItem::Wire(Wire::new()));
    assert_eq!(schema.outline(&dims).unwrap_err().0, ErrorKind::Malformed);
}
