use recad_core::gr::{
    Arc, Circle, Color, Effects, FillType, GraphicItem, Justify, Polyline, Pos, Pt, Pts,
    Rectangle, Stroke,
};
use recad_core::math::Transform;
use recad_core::plot::theme::{Theme, Themes};
use recad_core::plot::{PlotCommand, PlotterImpl, PlotterNodes};
use recad_core::schema::{Junction, LocalLabel, NoConnect, SchemaItem, Symbol, Text, Wire};
use recad_core::schema_ploter::{
    plot_graphic, plot_item, plot_junction, plot_local_label, plot_no_connect, plot_pin,
    plot_symbol, plot_text, plot_wire, PinTexts,
};
use recad_core::symbols::{ElectricalTypes, LibrarySymbol, Pin, PinGraphicalStyle, PinProperty};
use recad_core::{ErrorKind, Plot, Schema};

const OUTLINE: Color = Color::Rgba(132, 0, 0, 1);
const GREEN: Color = Color::Rgba(0, 150, 0, 255);
const PROPERTY: Color = Color::Rgba(5, 105, 12, 255);

fn theme() -> Theme {
    Theme::from(Themes::Kicad2020)
}

fn at(node: &PlotterNodes) -> (i32, i32) {
    match node {
        PlotterNodes::MoveTo(p) => (p.x, p.y),
        PlotterNodes::LineTo(p) => (p.x, p.y),
        _ => panic!("not a point: {:?}", node),
    }
}

fn paint(node: &PlotterNodes) -> (Color, Option<Color>, i32) {
    match node {
        PlotterNodes::Stroke(p) => (p.color, p.fill, p.width),
        PlotterNodes::Rect { stroke, .. } => (stroke.color, stroke.fill, stroke.width),
        PlotterNodes::Arc { stroke, .. } => (stroke.color, stroke.fill, stroke.width),
        PlotterNodes::Circle { stroke, .. } => (stroke.color, stroke.fill, stroke.width),
        _ => panic!("no paint: {:?}", node),
    }
}

fn lib_unit(lib_id: &str, graphics: Vec<GraphicItem>, pins: Vec<Pin>) -> LibrarySymbol {
    LibrarySymbol {
        lib_id: lib_id.to_string(),
        extends: None,
        power: false,
        pin_numbers: true,
        pin_names: true,
        in_bom: true,
        on_board: true,
        exclude_from_sim: false,
        props: Vec::new(),
        graphics,
        pins,
        pin_names_offset: None,
        units: Vec::new(),
        unit_name: None,
    }
}

fn lib_pin(number: &str, x: i32, y: i32, angle: i32, length: i32) -> Pin {
    Pin {
        electrical_type: ElectricalTypes::Passive,
        graphical_style: PinGraphicalStyle::Line,
        pos: Pos { x, y, angle },
        length,
        hide: false,
        name: PinProperty { name: "~".to_string(), effects: Effects::default() },
        number: PinProperty { name: number.to_string(), effects: Effects::default() },
    }
}

fn rectangle(a: (i32, i32), b: (i32, i32)) -> GraphicItem {
    GraphicItem::Rectangle(Rectangle {
        start: Pt { x: a.0, y: a.1 },
        end: Pt { x: b.0, y: b.1 },
        stroke: Stroke::default(),
        fill: FillType::NoFill,
        uuid: None,
    })
}

#[test]
fn a_wire_is_a_line() {
    let mut w = Wire::new();
    assert_eq!(plot_wire(&theme(), &w).unwrap_err().0, ErrorKind::Malformed);
    w.pts = Pts(vec![Pt { x: 0, y: 0 }, Pt { x: 100000, y: -5 }]);
    let v = plot_wire(&theme(), &w).unwrap();
    assert_eq!(v.len(), 3);
    assert!(matches!(v[0], PlotterNodes::MoveTo(_)));
    assert_eq!(at(&v[0]), (0, 0));
    assert!(matches!(v[1], PlotterNodes::LineTo(_)));
    assert_eq!(at(&v[1]), (100000, -5));
    assert_eq!(paint(&v[2]), (GREEN, None, 3500));
    // the wire's own color goes before that of the theme
    w.stroke.color = Some(Color::Rgb(1, 2, 3));
    let v = plot_wire(&theme(), &w).unwrap();
    assert_eq!(paint(&v[2]), (Color::Rgb(1, 2, 3), None, 3500));
}

#[test]
fn a_junction_is_a_filled_circle() {
    let mut j = Junction::new();
    j.pos = Pos { x: 10000, y: 20000, angle: 0 };
    let v = plot_junction(&theme(), &j).unwrap();
    assert_eq!(v.len(), 1);
    match &v[0] {
        PlotterNodes::Circle { center, radius, stroke } => {
            assert_eq!((center.x, center.y, *radius), (10000, 20000, 4572));
            assert_eq!((stroke.color, stroke.fill, stroke.width), (GREEN, Some(GREEN), 1000));
        }
        other => panic!("{:?}", other),
    }
    j.diameter = 10001;
    match &plot_junction(&theme(), &j).unwrap()[0] {
        PlotterNodes::Circle { radius, .. } => assert_eq!(*radius, 5000),
        other => panic!("{:?}", other),
    }
}

#[test]
fn a_no_connect_is_a_cross() {
    let mut nc = NoConnect::new();
    nc.pos = Pos { x: 50000, y: 50000, angle: 0 };
    let v = plot_no_connect(&theme(), &nc).unwrap();
    assert_eq!(v.len(), 6);
    assert_eq!(at(&v[0]), (50000 - 6350, 50000 + 6350));
    assert_eq!(at(&v[1]), (50000 + 6350, 50000 - 6350));
    assert_eq!(paint(&v[2]), (Color::Rgba(0, 0, 132, 255), None, 2500));
    assert_eq!(at(&v[3]), (50000 - 6350, 50000 - 6350));
    assert_eq!(at(&v[4]), (50000 + 6350, 50000 + 6350));
    assert_eq!(paint(&v[5]), (Color::Rgba(0, 0, 132, 255), None, 2500));

    nc.pos = Pos { x: i32::MAX, y: 0, angle: 0 };
    assert_eq!(plot_no_connect(&theme(), &nc).unwrap_err().0, ErrorKind::OutOfRange);
}

fn text_of(node: &PlotterNodes) -> (&str, (i32, i32, i32), &Effects) {
    match node {
        PlotterNodes::Text { text, pos, effects } => (text.as_str(), (pos.x, pos.y, pos.angle), effects),
        other => panic!("{:?}", other),
    }
}

#[test]
fn a_label_is_a_text_beside_its_position() {
    let mut l = LocalLabel::new("IN");
    l.effects.justify = vec![Justify::Left, Justify::Bottom];
    for (angle, expected) in [
        (0, (110000, 200000)),
        (900000, (100000, 190000)),
        (1800000, (90000, 200000)),
        (2700000, (100000, 210000)),
        (450000, (100000, 210000)),
    ] {
        l.pos = Pos { x: 100000, y: 200000, angle };
        let v = plot_local_label(&theme(), &l).unwrap();
        assert_eq!(v.len(), 1);
        let (text, pos, effects) = text_of(&v[0]);
        assert_eq!(text, "IN");
        assert_eq!(pos, (expected.0, expected.1, angle));
        assert_eq!(effects.font.face.as_deref(), Some("osifont"));
        assert_eq!(effects.font.size, (12700, 12700));
        assert_eq!(effects.font.color, Some(PROPERTY));
        assert_eq!(effects.justify, vec![Justify::Left, Justify::Bottom]);
        assert!(!effects.hide);
    }
    // a size without width is that of the theme
    l.effects.font.size = (0, 12700);
    l.effects.font.color = Some(Color::Rgb(9, 9, 9));
    l.effects.font.bold = true;
    let v = plot_local_label(&theme(), &l).unwrap();
    let (_, _, effects) = text_of(&v[0]);
    assert_eq!(effects.font.size, (17500, 17500));
    assert_eq!(effects.font.color, Some(Color::Rgb(9, 9, 9)));
    assert!(effects.font.bold);

    l.pos = Pos { x: i32::MAX, y: 0, angle: 0 };
    assert_eq!(plot_local_label(&theme(), &l).unwrap_err().0, ErrorKind::OutOfRange);
}

#[test]
fn a_text_is_drawn_where_it_is() {
    let t = Text {
        pos: Pos { x: 1, y: 2, angle: 900000 },
        text: "note".to_string(),
        effects: Effects { hide: true, ..Effects::default() },
        exclude_from_sim: false,
        uuid: "u".to_string(),
    };
    let v = plot_text(&theme(), &t).unwrap();
    let (text, pos, effects) = text_of(&v[0]);
    assert_eq!(text, "note");
    assert_eq!(pos, (1, 2, 900000));
    assert!(effects.hide);
}

#[test]
fn graphic_items_of_a_symbol() {
    let t = Transform::new().translation(Pt { x: 1000000, y: 500000 });
    // y is flipped, then the corners are put in order
    let v = plot_graphic(&theme(), &t, &rectangle((-10000, -20000), (10000, 20000))).unwrap();
    assert_eq!(v.len(), 1);
    match &v[0] {
        PlotterNodes::Rect { rect, stroke } => {
            assert_eq!((rect.start.x, rect.start.y), (990000, 480000));
            assert_eq!((rect.end.x, rect.end.y), (20000, 40000));
            assert_eq!((stroke.color, stroke.fill, stroke.width), (OUTLINE, None, 3500));
        }
        other => panic!("{:?}", other),
    }

    let poly = GraphicItem::Polyline(Polyline {
        pts: Pts(vec![Pt { x: 0, y: 0 }, Pt { x: 10, y: 20 }, Pt { x: -10, y: 20 }]),
        stroke: Stroke { width: 0, stroke_type: None, color: Some(Color::Rgb(7, 7, 7)) },
        fill: FillType::Background,
        uuid: None,
    });
    let v = plot_graphic(&theme(), &t, &poly).unwrap();
    assert_eq!(v.len(), 4);
    assert!(matches!(v[0], PlotterNodes::MoveTo(_)));
    assert_eq!(at(&v[0]), (1000000, 500000));
    assert!(matches!(v[1], PlotterNodes::LineTo(_)));
    assert_eq!(at(&v[1]), (1000010, 499980));
    assert_eq!(at(&v[2]), (999990, 499980));
    assert_eq!(paint(&v[3]), (Color::Rgb(7, 7, 7), Some(Color::Rgba(255, 255, 194, 255)), 3500));

    let circle = GraphicItem::Circle(Circle {
        center: Pt { x: 5, y: 5 },
        radius: 77,
        stroke: Stroke::default(),
        fill: FillType::NoFill,
        uuid: None,
    });
    let turned = Transform::new().rotation(900000);
    match &plot_graphic(&theme(), &turned, &circle).unwrap()[0] {
        PlotterNodes::Circle { center, radius, stroke } => {
            // (5, 5) flipped to (5, -5), then a quarter turn
            assert_eq!((center.x, center.y, *radius), (-5, -5, 77));
            assert_eq!(stroke.color, OUTLINE);
        }
        other => panic!("{:?}", other),
    }

    let arc = GraphicItem::Arc(Arc {
        start: Pt { x: 1, y: 0 },
        mid: Pt { x: 0, y: 1 },
        end: Pt { x: -1, y: 0 },
        stroke: Stroke::default(),
        fill: FillType::NoFill,
        uuid: None,
    });
    match &plot_graphic(&theme(), &t, &arc).unwrap()[0] {
        PlotterNodes::Arc { start, mid, end, .. } => {
            assert_eq!((start.x, start.y), (1000001, 500000));
            assert_eq!((mid.x, mid.y), (1000000, 499999));
            assert_eq!((end.x, end.y), (999999, 500000));
        }
        other => panic!("{:?}", other),
    }

    let odd = Transform::new().rotation(450000);
    assert_eq!(plot_graphic(&theme(), &odd, &circle).unwrap_err().0, ErrorKind::UnsupportedAngle);
    let far = Transform::new().translation(Pt { x: i32::MAX, y: 0 });
    assert_eq!(plot_graphic(&theme(), &far, &circle).unwrap_err().0, ErrorKind::OutOfRange);
}

const NO_TEXTS: PinTexts = PinTexts { numbers: false, names: false, offset: None, power: false };

#[test]
fn the_line_of_a_pin() {
    let t = Transform::new().translation(Pt { x: 1000000, y: 500000 });
    // a pin above the body that points down into it
    let v = plot_pin(&theme(), &t, &lib_pin("1", 0, 38100, 2700000, 12700), NO_TEXTS).unwrap();
    assert_eq!(v.len(), 3);
    assert_eq!(at(&v[0]), (1000000, 500000 - 38100));
    assert_eq!(at(&v[1]), (1000000, 500000 - 25400));
    assert_eq!(paint(&v[2]), (OUTLINE, None, 3500));
    // a pin left of the body that points right
    let v = plot_pin(&theme(), &t, &lib_pin("2", -76200, 0, 0, 25400), NO_TEXTS).unwrap();
    assert_eq!(at(&v[0]), (1000000 - 76200, 500000));
    assert_eq!(at(&v[1]), (1000000 - 50800, 500000));
    // a pin right of the body that points left
    let v = plot_pin(&theme(), &t, &lib_pin("3", 76200, 0, 1800000, 25400), NO_TEXTS).unwrap();
    assert_eq!(at(&v[0]), (1000000 + 76200, 500000));
    assert_eq!(at(&v[1]), (1000000 + 50800, 500000));
    // the line of a pin that points along no axis cannot be placed
    let e = plot_pin(&theme(), &t, &lib_pin("4", 0, 0, 450000, 25400), NO_TEXTS).unwrap_err();
    assert_eq!(e.0, ErrorKind::UnsupportedAngle);
}

#[test]
fn the_number_and_the_name_of_a_pin() {
    let t = Transform::new().translation(Pt { x: 1000000, y: 500000 });
    let all = PinTexts { numbers: true, names: true, offset: Some(5080), power: false };
    let mut pin = lib_pin("7", -76200, 0, 0, 25400);
    pin.name.name = "OUT".to_string();
    let v = plot_pin(&theme(), &t, &pin, all).unwrap();
    assert_eq!(v.len(), 5);
    // the number above the middle of the line
    let (text, pos, effects) = text_of(&v[3]);
    assert_eq!(text, "7");
    assert_eq!(pos, (1000000 - 76200 + 12700, 500000 - 7500, 0));
    assert_eq!(effects.font.face.as_deref(), Some("osifont"));
    assert_eq!(effects.font.size, (12500, 12500));
    assert_eq!(effects.font.color, Some(Color::Rgba(0, 0, 0, 255)));
    assert!(effects.justify.is_empty());
    assert!(!effects.hide);
    // the name behind the begin of the line
    let (text, pos, effects) = text_of(&v[4]);
    assert_eq!(text, "OUT");
    assert_eq!(pos, (1000000 - 76200 + 5080, 500000, 0));
    assert_eq!(effects.font.size, (17500, 17500));
    assert_eq!(effects.font.color, Some(Color::Rgba(255, 0, 0, 255)));

    // the other directions
    for (angle, number, name) in [
        (900000, (0, 12700), (0, 5080)),
        (1800000, (-12700, -7500), (-5080, 0)),
        (2700000, (0, 12700), (0, 5080)),
    ] {
        pin.pos.angle = angle;
        let v = plot_pin(&theme(), &t, &pin, all).unwrap();
        let base = at(&v[0]);
        let (_, pos, _) = text_of(&v[3]);
        assert_eq!((pos.0 - base.0, pos.1 - base.1), number);
        let (_, pos, _) = text_of(&v[4]);
        assert_eq!((pos.0 - base.0, pos.1 - base.1), name);
    }

    // the name `~` is not shown, nor any name without an offset, nor a text of a power symbol
    pin.pos.angle = 0;
    pin.name.name = "~".to_string();
    assert_eq!(plot_pin(&theme(), &t, &pin, all).unwrap().len(), 4);
    pin.name.name = "OUT".to_string();
    let no_offset = PinTexts { offset: None, ..all };
    assert_eq!(plot_pin(&theme(), &t, &pin, no_offset).unwrap().len(), 4);
    let names_only = PinTexts { numbers: false, ..all };
    let v = plot_pin(&theme(), &t, &pin, names_only).unwrap();
    assert_eq!(v.len(), 4);
    assert_eq!(text_of(&v[3]).0, "OUT");
    let power = PinTexts { power: true, ..all };
    assert_eq!(plot_pin(&theme(), &t, &pin, power).unwrap().len(), 3);

    // a text that does not fit
    let far = Transform::new().translation(Pt { x: i32::MAX - 60000, y: 0 });
    let mut long = lib_pin("1", 0, 0, 0, 50000);
    long.name.name = "IN".to_string();
    assert_eq!(plot_pin(&theme(), &far, &long, all).unwrap().len(), 5);
    let wide = PinTexts { offset: Some(70000), ..all };
    let e = plot_pin(&theme(), &far, &long, wide).unwrap_err();
    assert_eq!(e.0, ErrorKind::OutOfRange);
}

fn resistor_schema() -> Schema {
    let mut schema = Schema::new("plot");
    let mut lib = lib_unit("Device:R", Vec::new(), Vec::new());
    lib.units = vec![
        lib_unit("R_0_1", vec![rectangle((-10160, -25400), (10160, 25400))], Vec::new()),
        lib_unit(
            "R_1_1",
            Vec::new(),
            vec![lib_pin("1", 0, 38100, 2700000, 12700), lib_pin("2", 0, -38100, 900000, 12700)],
        ),
        lib_unit("R_2_1", vec![rectangle((0, 0), (1, 1))], vec![lib_pin("9", 0, 0, 0, 1)]),
    ];
    schema.library_symbols.push(lib);
    let mut r1 = Symbol::new("R1", "10k", "Device:R");
    r1.pos = Pos { x: 1000000, y: 500000, angle: 0 };
    r1.props[0].pos = Pos { x: 1020000, y: 500000, angle: 0 };
    r1.props[1].effects.hide = true;
    schema.items.push(SchemaItem::Symbol(r1));
    let mut w = Wire::new();
    w.pts = Pts(vec![Pt { x: 1000000, y: 461900 }, Pt { x: 1000000, y: 400000 }]);
    schema.items.push(SchemaItem::Wire(w));
    schema
}

#[test]
fn a_symbol_is_its_properties_its_body_and_its_pins() {
    let schema = resistor_schema();
    let SchemaItem::Symbol(r1) = &schema.items[0] else {
        panic!();
    };
    let v = plot_symbol(&theme(), &schema, r1).unwrap();
    // the visible property, the rectangle of the shared unit, two pins of unit 1
    // with their numbers
    assert_eq!(v.len(), 1 + 1 + 4 + 4);
    let (text, pos, effects) = text_of(&v[0]);
    assert_eq!(text, "10k");
    assert_eq!(pos, (1020000, 500000, 0));
    assert!(effects.hide);
    match &v[1] {
        PlotterNodes::Rect { rect, .. } => {
            assert_eq!((rect.start.x, rect.start.y), (1000000 - 10160, 500000 - 25400));
            assert_eq!((rect.end.x, rect.end.y), (20320, 50800));
        }
        other => panic!("{:?}", other),
    }
    assert_eq!(at(&v[2]), (1000000, 461900));
    assert_eq!(at(&v[3]), (1000000, 474600));
    let (text, pos, _) = text_of(&v[5]);
    assert_eq!((text, pos), ("1", (1000000, 461900 + 6350, 0)));
    assert_eq!(at(&v[6]), (1000000, 538100));
    assert_eq!(at(&v[7]), (1000000, 525400));
    let (text, pos, _) = text_of(&v[9]);
    assert_eq!((text, pos), ("2", (1000000, 538100 + 6350, 0)));

    let unknown = Symbol::new("R2", "1k", "Device:C");
    assert_eq!(plot_symbol(&theme(), &schema, &unknown).unwrap_err().0, ErrorKind::LibraryNotFound);
    assert_eq!(
        plot_item(&theme(), &schema, &SchemaItem::Symbol(unknown)).unwrap_err().0,
        ErrorKind::LibraryNotFound
    );
}

#[test]
fn a_schema_is_its_items_in_order() {
    let schema = resistor_schema();
    let v = schema.events(&theme()).unwrap();
    assert_eq!(v.len(), 10 + 3);
    assert_eq!(at(&v[10]), (1000000, 461900));
    assert_eq!(at(&v[11]), (1000000, 400000));
    assert_eq!(paint(&v[12]), (GREEN, None, 3500));

    let mut plotter = PlotterImpl::new();
    plotter.move_to(Pt { x: 10, y: 20 });
    let command = PlotCommand::new().scale(Some(20000)).border(Some(true));
    let view = schema.plot(&mut plotter, &command, &Vec::new()).unwrap();
    assert_eq!((view.start.x, view.start.y, view.end.x, view.end.y), (0, 0, 2970000, 2100000));
    let items = plotter.iter();
    assert_eq!(items.len(), 1 + 13);
    // what was there before is scaled too
    assert_eq!(at(&items[0]), (20, 40));
    assert_eq!(at(&items[11]), (2000000, 923800));
    match &items[2] {
        PlotterNodes::Rect { rect, .. } => {
            assert_eq!((rect.start.x, rect.start.y), (2 * 989840, 2 * 474600));
            assert_eq!((rect.end.x, rect.end.y), (40640, 101600));
        }
        other => panic!("{:?}", other),
    }
}

#[test]
fn the_view_is_the_outline_without_a_border() {
    let schema = resistor_schema();
    let dims = vec![(50000, 20000)];
    let expected = schema.outline(&dims).unwrap();
    let mut plotter = PlotterImpl::new();
    let view = schema.plot(&mut plotter, &PlotCommand::new(), &dims).unwrap();
    assert_eq!(
        (view.start.x, view.start.y, view.end.x, view.end.y),
        (expected.start.x, expected.start.y, expected.end.x, expected.end.y)
    );
    assert_eq!(plotter.iter().len(), 13);
    assert_eq!(at(&plotter.iter()[11]), (1000000, 400000));

    // the sizes of the texts are asked for after the drawing
    let mut plotter = PlotterImpl::new();
    let e = schema.plot(&mut plotter, &PlotCommand::new(), &Vec::new()).unwrap_err();
    assert_eq!(e.0, ErrorKind::Measure);
    assert_eq!(plotter.iter().len(), 13);
}

#[test]
fn a_failing_item_leaves_the_plotter_as_it_is() {
    let mut schema = resistor_schema();
    schema.items.push(SchemaItem::Wire(Wire::new()));
    let mut plotter = PlotterImpl::new();
    plotter.close();
    let e = schema.plot(&mut plotter, &PlotCommand::new(), &Vec::new()).unwrap_err();
    assert_eq!(e.0, ErrorKind::Malformed);
    assert_eq!(plotter.iter().len(), 1);

    // a factor by which the drawing does not fit empties the plotter
    let schema = resistor_schema();
    let mut plotter = PlotterImpl::new();
    let command = PlotCommand::new().scale(Some(i32::MAX));
    let e = schema.plot(&mut plotter, &command, &Vec::new()).unwrap_err();
    assert_eq!(e.0, ErrorKind::OutOfRange);
    assert!(plotter.iter().is_empty());
}
