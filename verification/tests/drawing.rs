use recad_core::draw::{At, Attribute, Direction, DotPosition, Drawable, Drawer, To};
use recad_core::gr::{Effects, GraphicItem, Justify, Polyline, Pos, Property, Pt, Pts, Stroke, FillType};
use recad_core::math::place_properties;
use recad_core::schema::{GlobalLabel, Junction, LocalLabel, NoConnect, SchemaItem, Symbol, Wire};
use recad_core::symbols::{ElectricalTypes, LibrarySymbol, Pin, PinGraphicalStyle, PinProperty};
use recad_core::{ErrorKind, Plot, Schema};

fn mm(v: f64) -> i32 {
    (v * 10000.0).round() as i32
}

fn pt(x: f64, y: f64) -> Pt {
    Pt { x: mm(x), y: mm(y) }
}

fn pin(number: &str, x: f64, y: f64, angle: f64) -> Pin {
    Pin {
        electrical_type: ElectricalTypes::Passive,
        graphical_style: PinGraphicalStyle::Line,
        pos: Pos { x: mm(x), y: mm(y), angle: mm(angle) },
        length: mm(2.54),
        hide: false,
        name: PinProperty { name: "~".to_string(), effects: Effects::default() },
        number: PinProperty { name: number.to_string(), effects: Effects::default() },
    }
}

fn prop(key: &str, value: &str, hide: bool) -> Property {
    let mut effects = Effects::default();
    effects.hide = hide;
    Property {
        key: key.to_string(),
        value: value.to_string(),
        pos: Pos { x: 0, y: 0, angle: 0 },
        effects,
    }
}

fn unit(lib_id: &str, graphics: Vec<GraphicItem>, pins: Vec<Pin>) -> LibrarySymbol {
    LibrarySymbol {
        lib_id: lib_id.to_string(),
        extends: None,
        power: false,
        pin_numbers: true,
        pin_names: true,
        in_bom: true,
        on_board: true,
        exclude_from_sim: false,
        props: Vec::new(),
        graphics,
        pins,
        pin_names_offset: None,
        units: Vec::new(),
        unit_name: None,
    }
}

fn body(points: &[(f64, f64)]) -> GraphicItem {
    GraphicItem::Polyline(Polyline {
        pts: Pts(points.iter().map(|p| pt(p.0, p.1)).collect()),
        stroke: Stroke::default(),
        fill: FillType::NoFill,
        uuid: None,
    })
}

fn resistor() -> LibrarySymbol {
    let mut lib = unit("Device:R", Vec::new(), Vec::new());
    lib.props = vec![
        prop("Reference", "R", false),
        prop("Value", "R", false),
        prop("Footprint", "", true),
        prop("ki_keywords", "R res", true),
    ];
    lib.units = vec![
        unit("R_0_1", vec![body(&[(-1.016, -2.54), (1.016, 2.54)])], Vec::new()),
        unit("R_1_1", Vec::new(), vec![pin("1", 0.0, 3.81, 270.0), pin("2", 0.0, -3.81, 90.0)]),
    ];
    lib
}

fn ground() -> LibrarySymbol {
    let mut lib = unit("power:GND", Vec::new(), Vec::new());
    lib.props = vec![prop("Reference", "#PWR", true), prop("Value", "GND", false)];
    lib.units = vec![
        unit("GND_0_1", vec![body(&[(-1.27, -1.27), (1.27, -2.54)])], Vec::new()),
        unit("GND_1_1", Vec::new(), vec![pin("1", 0.0, 0.0, 270.0)]),
    ];
    lib
}

fn schema() -> Schema {
    let mut s = Schema::new("test");
    s.library_symbols.push(resistor());
    s.library_symbols.push(ground());
    s
}

#[test]
fn test_local_label() {
    let mut schema = Schema::new("test");
    let label = LocalLabel::new("INPUT")
        .attr(Attribute::Rotate(mm(90.0)))
        .attr(Attribute::At(At::Pt(Pt { x: mm(12.5), y: mm(12.5) })));

    schema.draw(label.clone()).unwrap();
    let Some(SchemaItem::LocalLabel(new_label)) = schema.items.last() else {
        panic!("label not found");
    };
    assert_eq!("INPUT", new_label.text);
    assert_eq!(mm(12.5), new_label.pos.x);
    assert_eq!(mm(12.5), new_label.pos.y);
    assert_eq!(mm(90.0), new_label.pos.angle);
    assert_eq!(new_label.effects.justify, vec![Justify::Left, Justify::Bottom]);
    assert_eq!(schema.last_pos, At::Pt(pt(12.5, 12.5)));
}

#[test]
fn attribute_getters() {
    let mut to = To::new();
    assert_eq!(to.at(), None);
    assert_eq!(to.anchor(), None);
    assert_eq!(to.mirror(), None);
    assert_eq!(to.angle(), None);
    assert_eq!(to.length(), None);
    assert_eq!(to.direction(), Direction::Left);
    assert_eq!(to.tox(), None);
    assert_eq!(to.toy(), None);
    assert_eq!(to.unit(), None);
    assert_eq!(to.dot(), None);
    to.push(Attribute::Id("x".to_string()));
    to.push(Attribute::Rotate(1));
    to.push(Attribute::Rotate(2));
    to.push(Attribute::At(At::Dot("d".to_string())));
    to.push(Attribute::At(At::Pt(pt(1.0, 1.0))));
    to.push(Attribute::Anchor("2".to_string()));
    to.push(Attribute::Mirror("y".to_string()));
    to.push(Attribute::Length(5));
    to.push(Attribute::Direction(Direction::Down));
    to.push(Attribute::Direction(Direction::Up));
    to.push(Attribute::Tox(At::Pt(pt(2.0, 2.0))));
    to.push(Attribute::Toy(At::Pt(pt(3.0, 3.0))));
    to.push(Attribute::Unit(3));
    to.push(Attribute::Dot(vec![DotPosition::Start, DotPosition::End]));
    to.push(Attribute::Property("p".to_string()));
    assert_eq!(to.at(), Some(At::Dot("d".to_string())));
    assert_eq!(to.anchor(), Some("2".to_string()));
    assert_eq!(to.mirror(), Some("y".to_string()));
    assert_eq!(to.angle(), Some(1));
    assert_eq!(to.length(), Some(5));
    assert_eq!(to.direction(), Direction::Down);
    assert_eq!(to.tox(), Some(&At::Pt(pt(2.0, 2.0))));
    assert_eq!(to.toy(), Some(&At::Pt(pt(3.0, 3.0))));
    assert_eq!(to.unit(), Some(3));
    assert_eq!(to.dot(), Some(&vec![DotPosition::Start, DotPosition::End]));
    assert_eq!(to.attributes.len(), 15);
}

#[test]
fn draw_wires_and_marks() {
    let mut s = schema();
    s.move_to(At::Pt(pt(10.0, 10.0)));
    // the grid is the length of a wire that has none; left is the direction
    s.draw(Wire::new()).unwrap();
    assert_eq!(s.last_pos, At::Pt(pt(7.46, 10.0)));
    s.draw(Wire::new().attr(Attribute::Direction(Direction::Down)).attr(Attribute::Length(mm(5.0))))
        .unwrap();
    assert_eq!(s.last_pos, At::Pt(pt(7.46, 15.0)));
    s.draw(Wire::new().attr(Attribute::Tox(At::Pt(pt(20.0, 99.0))))).unwrap();
    assert_eq!(s.last_pos, At::Pt(pt(20.0, 15.0)));
    s.draw(
        Wire::new().attr(Attribute::Toy(At::Pt(pt(99.0, 30.0)))).attr(Attribute::At(At::Pt(pt(1.0, 1.0)))),
    )
    .unwrap();
    assert_eq!(s.last_pos, At::Pt(pt(1.0, 30.0)));
    match s.items.last() {
        Some(SchemaItem::Wire(w)) => assert_eq!(w.pts, Pts(vec![pt(1.0, 1.0), pt(1.0, 30.0)])),
        _ => panic!(),
    }
    s.draw(Junction::new()).unwrap();
    match s.items.last() {
        Some(SchemaItem::Junction(j)) => assert_eq!(j.pos, Pos { x: mm(1.0), y: mm(30.0), angle: 0 }),
        _ => panic!(),
    }
    assert_eq!(s.last_pos, At::Pt(pt(1.0, 30.0)));
    s.draw(NoConnect::new().attr(Attribute::At(At::Pt(pt(4.0, 4.0))))).unwrap();
    assert_eq!(s.last_pos, At::Pt(pt(4.0, 4.0)));
    let g = GlobalLabel {
        text: "G".to_string(),
        shape: None,
        pos: Pos { x: 0, y: 0, angle: 7 },
        fields_autoplaced: false,
        effects: Effects::default(),
        props: Vec::new(),
        uuid: "g".to_string(),
        attrs: To::new(),
    };
    s.draw(g.attr(Attribute::Id("x".to_string()))).unwrap();
    match s.items.last() {
        Some(SchemaItem::GlobalLabel(l)) => {
            assert_eq!(l.pos, Pos { x: mm(4.0), y: mm(4.0), angle: 7 });
            assert_eq!(l.attrs.attributes.len(), 1);
        }
        _ => panic!(),
    }
    assert_eq!(s.items.len(), 7);
    // a wire that would leave the range, and a position that cannot be resolved
    let n = s.items.len();
    s.move_to(At::Pt(Pt { x: i32::MIN + 5, y: 0 }));
    assert_eq!(s.draw(Wire::new()).unwrap_err().0, ErrorKind::OutOfRange);
    let at = Attribute::At(At::Pin("R9".to_string(), "1".to_string()));
    assert_eq!(s.draw(Wire::new().attr(at.clone())).unwrap_err().0, ErrorKind::PinUnitNotFound);
    assert_eq!(s.draw(LocalLabel::new("x").attr(at)).unwrap_err().0, ErrorKind::PinUnitNotFound);
    s.move_to(At::Dot("d".to_string()));
    assert_eq!(s.draw(Junction::new()).unwrap_err().0, ErrorKind::UnsupportedReference);
    assert_eq!(s.items.len(), n);
}

#[test]
fn draw_symbols() {
    let mut s = schema();
    s.move_to(At::Pt(pt(50.8, 50.8)));
    s.draw(Symbol::new("R1", "100k", "Device:R").attr(Attribute::Rotate(mm(90.0)))).unwrap();
    let SchemaItem::Symbol(r1) = &s.items[0] else { panic!() };
    assert_eq!(r1.lib_id, "Device:R");
    assert_eq!(r1.property("Reference"), "R1");
    assert_eq!(r1.property("Value"), "100k");
    assert_eq!(r1.unit, 1);
    // turned by 90 degrees, pin 1 (local 0, 3.81, flipped to 0, -3.81) lies at (-3.81, 0)
    assert_eq!(r1.pos, Pos { x: mm(54.61), y: mm(50.8), angle: mm(90.0) });
    assert_eq!(r1.pins.len(), 2);
    assert_eq!(r1.pins[0].0, "1");
    assert_eq!(r1.pins[1].0, "2");
    assert_ne!(r1.pins[0].1, r1.pins[1].1);
    assert_eq!(r1.props.len(), 3);
    assert_eq!(r1.instances.len(), 1);
    assert_eq!(r1.instances[0].project, "test");
    assert_eq!(r1.instances[0].reference, "R1");
    assert_eq!(r1.instances[0].path, format!("/{}", s.uuid));
    // the cursor stands at pin 2
    assert_eq!(s.last_pos, At::Pt(pt(58.42, 50.8)));
    assert_eq!(s.get_pt(&At::Pin("R1".to_string(), "1".to_string())).unwrap(), pt(50.8, 50.8));
    assert_eq!(s.get_pt(&At::Pin("R1".to_string(), "2".to_string())).unwrap(), pt(58.42, 50.8));

    // a power symbol is numbered, and the cursor stays at its one pin
    s.draw(Symbol::new("ignored", "GND", "power:GND")).unwrap();
    let SchemaItem::Symbol(g) = s.items.last().unwrap() else { panic!() };
    assert_eq!(g.property("Reference"), "#PWR01");
    assert_eq!(g.pos, Pos { x: mm(58.42), y: mm(50.8), angle: 0 });
    assert_eq!(s.last_pos, At::Pt(pt(58.42, 50.8)));
    s.draw(Symbol::new("", "GND", "power:GND").attr(Attribute::At(At::Pt(pt(0.0, 0.0))))).unwrap();
    let SchemaItem::Symbol(g) = s.items.last().unwrap() else { panic!() };
    assert_eq!(g.property("Reference"), "#PWR02");

    // anchored at pin 2, mirrored, at a pin of another symbol
    s.draw(
        Symbol::new("R2", "1k", "Device:R")
            .attr(Attribute::Anchor("2".to_string()))
            .attr(Attribute::Mirror("x".to_string()))
            .attr(Attribute::At(At::Pin("R1".to_string(), "2".to_string()))),
    )
    .unwrap();
    let SchemaItem::Symbol(r2) = s.items.last().unwrap() else { panic!() };
    assert_eq!(r2.mirror, Some("x".to_string()));
    // mirrored by x the pins keep their places: pin 2 at (0, -3.81)
    assert_eq!(r2.pos, Pos { x: mm(58.42), y: mm(54.61), angle: 0 });
    assert_eq!(s.last_pos, At::Pt(pt(58.42, 58.42)));

    // the failures leave the schema as it is
    let n = s.items.len();
    let e = s.draw(Symbol::new("X1", "x", "Missing:X")).unwrap_err();
    assert_eq!(e.0, ErrorKind::LibraryNotFound);
    let e = s.draw(Symbol::new("R3", "x", "Device:R").attr(Attribute::Anchor("7".to_string()))).unwrap_err();
    assert_eq!(e.0, ErrorKind::PinNotFound);
    let e = s.draw(Symbol::new("R3", "x", "Device:R").attr(Attribute::Rotate(mm(45.0)))).unwrap_err();
    assert_eq!(e.0, ErrorKind::UnsupportedAngle);
    assert_eq!(s.items.len(), n);
}

#[test]
fn draw_symbol_between_cursor_and_target() {
    let mut s = schema();
    s.move_to(At::Pt(pt(10.0, 20.0)));
    // turned by 90 degrees the resistor is 7.62 long: pin 1 at -3.81, pin 2 at 3.81
    s.draw(
        Symbol::new("R1", "1k", "Device:R")
            .attr(Attribute::Rotate(mm(90.0)))
            .attr(Attribute::Tox(At::Pt(pt(30.0, 0.0)))),
    )
    .unwrap();
    assert_eq!(s.items.len(), 3);
    // the way is 20 long, the symbol takes 7.62, each wire 6.19
    let SchemaItem::Wire(a) = &s.items[0] else { panic!() };
    assert_eq!(a.pts, Pts(vec![pt(10.0, 20.0), pt(16.19, 20.0)]));
    assert_eq!(a.attrs.direction(), Direction::Right);
    assert_eq!(a.attrs.length(), Some(mm(6.19)));
    let SchemaItem::Wire(b) = &s.items[1] else { panic!() };
    assert_eq!(b.pts, Pts(vec![pt(30.0, 20.0), pt(23.81, 20.0)]));
    assert_eq!(b.attrs.direction(), Direction::Left);
    let SchemaItem::Symbol(r) = &s.items[2] else { panic!() };
    assert_eq!(r.pos, Pos { x: mm(20.0), y: mm(20.0), angle: mm(90.0) });
    assert_eq!(s.get_pt(&At::Pin("R1".to_string(), "1".to_string())).unwrap(), pt(16.19, 20.0));
    assert_eq!(s.get_pt(&At::Pin("R1".to_string(), "2".to_string())).unwrap(), pt(23.81, 20.0));
    assert_eq!(s.last_pos, At::Pt(pt(30.0, 20.0)));
    let d = s.plan(&Symbol::new("R2", "1k", "Device:R")).unwrap();
    assert_eq!(d.unit, 1);
    assert_eq!(d.reference, "R2");
    assert!(d.joint.is_none());
}

#[test]
fn properties_are_placed_at_a_free_side() {
    let mut s = schema();
    let lib = resistor();
    // upright: the pins point up and down (270 and 90), the left side is free
    let mut r = lib.symbol(1);
    r.pos = Pos { x: mm(100.0), y: mm(100.0), angle: 0 };
    place_properties(&s, &mut r).unwrap();
    // the outline: x from 98.984 to 101.016; two visible properties
    assert_eq!(r.props[0].pos, Pos { x: mm(101.016) + 12500, y: mm(100.0) - 12500, angle: 0 });
    assert_eq!(r.props[1].pos, Pos { x: mm(101.016) + 12500, y: mm(100.0) + 12500, angle: 0 });
    assert_eq!(r.props[0].effects.justify, vec![Justify::Left]);
    // the hidden property stays where it was
    assert_eq!(r.props[2].pos, Pos { x: 0, y: 0, angle: 0 });
    assert!(r.props[2].effects.justify.is_empty());
    // turned by 90 degrees the pins point to 0 and 180: the properties go up
    let mut r = lib.symbol(1);
    r.pos = Pos { x: mm(100.0), y: mm(100.0), angle: mm(90.0) };
    r.props[1].pos.angle = 5;
    place_properties(&s, &mut r).unwrap();
    // the outline: y from 98.984 to 101.016
    assert_eq!(r.props[0].pos, Pos { x: mm(100.0), y: mm(98.984) - 12500 - 25000, angle: 0 });
    assert_eq!(r.props[1].pos, Pos { x: mm(100.0), y: mm(98.984) - 12500, angle: 5 });
    assert!(r.props[0].effects.justify.is_empty());
    // one pin that points down (270): the properties go below
    let mut g = ground().symbol(1);
    g.pos = Pos { x: 0, y: 0, angle: 0 };
    place_properties(&s, &mut g).unwrap();
    assert_eq!(g.props[1].pos, Pos { x: 0, y: mm(2.54) + 12500, angle: 0 });
    assert_eq!(g.props[0].pos, Pos { x: 0, y: 0, angle: 0 });
    // one pin, turned by 180 degrees: it points up (90), the properties go above
    let mut g = ground().symbol(1);
    g.pos = Pos { x: 0, y: 0, angle: mm(180.0) };
    place_properties(&s, &mut g).unwrap();
    assert_eq!(g.props[1].pos.y, mm(-2.54) - 12500);
    // pins at all four sides
    let mut full = unit("T:Full", Vec::new(), Vec::new());
    full.props = vec![prop("Reference", "U", false)];
    full.units = vec![unit(
        "Full_1_1",
        Vec::new(),
        vec![
            pin("1", 1.0, 0.0, 0.0),
            pin("2", 0.0, 1.0, 90.0),
            pin("3", -1.0, 0.0, 180.0),
            pin("4", 0.0, -1.0, 270.0),
        ],
    )];
    let mut f = full.symbol(1);
    s.library_symbols.push(full);
    let before = f.clone();
    assert_eq!(place_properties(&s, &mut f).unwrap_err().0, ErrorKind::NoFreeSide);
    assert_eq!(f, before);
    // turned by 180 degrees at the right side: the properties are turned back
    s.library_symbols[2].units[0].pins.remove(2);
    s.library_symbols[2].units[0].pins.remove(1);
    s.library_symbols[2].units[0].pins[0].pos.angle = mm(90.0);
    s.library_symbols[2].units[0].pins[1].pos.angle = mm(0.0);
    f.pos.angle = mm(180.0);
    // the pins point to 270 and 180: left and up are free, left is taken
    place_properties(&s, &mut f).unwrap();
    assert_eq!(f.props[0].effects.justify, vec![Justify::Left]);
    assert_eq!(f.props[0].pos.angle, mm(180.0));
    // no library symbol, no outline
    let mut lost = Symbol::new("R", "1", "No:Lib");
    assert_eq!(place_properties(&s, &mut lost).unwrap_err().0, ErrorKind::LibraryNotFound);
}
