use recad_core::Plot;
use recad_core::gr::{Color, FillType, GraphicItem, Justify, Pos, Pt, Pts, StrokeType};
use recad_core::number::{
    decimal_string, fixed_string, fixed_string_wide, parse_fixed, parse_u32, parse_u8, two_places,
};
use recad_core::schema::SchemaItem;
use recad_core::schema_reader::{
    is_hidden, justify, read_color, read_effects, read_fill, read_library_symbol, read_pos,
    read_schema, read_stroke, read_symbol, read_title_block, read_wire,
};
use recad_core::sexp::parser::SexpParser;
use recad_core::sexp::{SexpQuery, SexpTree, SexpValue};

fn mm(v: f64) -> i32 {
    (v * 10000.0).round() as i32
}

fn tree(text: &str) -> SexpTree {
    let parser = SexpParser::from(text.to_string());
    SexpTree::from(parser.iter()).unwrap()
}

#[test]
fn empty_schema() {
    let schema = r#"
            (kicad_sch (version 20231120) (generator "eeschema") (generator_version "8.0")
              (paper "A4")
              (lib_symbols)
              (symbol_instances)
            )"#;

    let parser = SexpParser::from(schema.to_string());
    let tree = SexpTree::from(parser.iter()).unwrap();
    let Ok(schema) = read_schema(&tree) else {
        panic!();
    };

    assert_eq!("20231120", schema.version);
    assert_eq!("eeschema", schema.generator);
    assert_eq!("8.0", schema.generator_version.unwrap());
    assert_eq!("A4", schema.paper.to_string());
}

#[test]
fn title_block() {
    let schema = r#"
          (title_block
            (title "summe")
            (date "2021-05-30")
            (rev "R02")
            (company "company")
            (comment 1 "schema for pcb")
            (comment 2 "DC coupled mixer")
            (comment 3 "comment 3")
            (comment 4 "License CC BY 4.0 - Attribution 4.0 International")
            (comment 5 "comment 5")
            (comment 6 "comment 6")
            (comment 7 "comment 7")
            (comment 8 "comment 8")
            (comment 9 "comment 9")
          )"#;

    let parser = SexpParser::from(schema.to_string());
    let tree = SexpTree::from(parser.iter()).unwrap();
    let tb = read_title_block(tree.root().unwrap()).unwrap();
    assert_eq!("summe".to_string(), tb.title.unwrap());
    assert_eq!("2021-05-30".to_string(), tb.date.unwrap());
    assert_eq!("R02".to_string(), tb.revision.unwrap());
    assert_eq!("company".to_string(), tb.company_name.unwrap());
    assert_eq!(9, tb.comment.len());
    assert_eq!((1, "schema for pcb".to_string()), *tb.comment.first().unwrap());
}

#[test]
fn into_stroke() {
    let schema = r#"
            (something
                (stroke
                        (width 0.1)
                        (type dash)
                )
            )
        "#;

    let parser = SexpParser::from(schema.to_string());
    let tree = SexpTree::from(parser.iter()).unwrap();
    let stroke = read_stroke(tree.root().unwrap()).unwrap();

    assert_eq!(mm(0.1), stroke.width);
    assert_eq!(StrokeType::Dash, stroke.stroke_type.unwrap());
    assert_eq!(stroke.color, None);
}

#[test]
fn wire_schema() {
    let schema = r#"
                (wire
                        (pts
                                (xy 163.83 107.95) (xy 163.83 110.49)
                        )
                        (stroke
                                (width 0)
                                (type default)
                        )
                        (uuid "7a8a9d59-7b8a-4c1b-ab50-9119def7e130")
                )
        )"#;

    let parser = SexpParser::from(schema.to_string());
    let tree = SexpTree::from(parser.iter()).unwrap();
    let Ok(wire) = read_wire(tree.root().unwrap()) else {
        panic!();
    };
    assert_eq!(
        Pts(vec![
            Pt { x: mm(163.83), y: mm(107.95) },
            Pt { x: mm(163.83), y: mm(110.49) },
        ]),
        wire.pts
    );
    assert_eq!((wire.pts.0[0].x, wire.pts.0[1].y), (1638300, 1104900));

    assert_eq!(0, wire.stroke.width);
    assert_eq!(Some(StrokeType::Default), wire.stroke.stroke_type);
    assert_eq!(wire.uuid, "7a8a9d59-7b8a-4c1b-ab50-9119def7e130");
}

#[test]
fn fixed_point_text() {
    assert_eq!(parse_fixed("163.83"), Some(1638300));
    assert_eq!(parse_fixed("0"), Some(0));
    assert_eq!(parse_fixed("-2.54"), Some(-25400));
    assert_eq!(parse_fixed("+1"), Some(10000));
    assert_eq!(parse_fixed(".5"), Some(5000));
    assert_eq!(parse_fixed("5."), Some(50000));
    assert_eq!(parse_fixed("1.27001"), Some(12700));
    assert_eq!(parse_fixed("1.27005"), Some(12701));
    assert_eq!(parse_fixed("-1.27005"), Some(-12701));
    assert_eq!(parse_fixed("0.99995"), Some(10000));
    assert_eq!(parse_fixed("214748.3647"), Some(i32::MAX));
    assert_eq!(parse_fixed("-214748.3648"), Some(i32::MIN));
    assert_eq!(parse_fixed("214748.3648"), None);
    assert_eq!(parse_fixed("214749"), None);
    assert_eq!(parse_fixed(""), None);
    assert_eq!(parse_fixed("."), None);
    assert_eq!(parse_fixed("-"), None);
    assert_eq!(parse_fixed("1e3"), None);
    assert_eq!(parse_fixed("1.2.3"), None);
    assert_eq!(parse_fixed("12a"), None);
    assert_eq!(parse_fixed("--1"), None);

    assert_eq!(fixed_string(1638300), "163.83");
    assert_eq!(fixed_string(0), "0");
    assert_eq!(fixed_string(-25400), "-2.54");
    assert_eq!(fixed_string(10000), "1");
    assert_eq!(fixed_string(5000), "0.5");
    assert_eq!(fixed_string(-1), "-0.0001");
    assert_eq!(fixed_string(12010), "1.201");
    assert_eq!(fixed_string(i32::MAX), "214748.3647");
    assert_eq!(fixed_string(i32::MIN), "-214748.3648");
    for v in [0, 1, -1, 99, 100, 12700, -12700, 999999, i32::MAX, i32::MIN] {
        assert_eq!(parse_fixed(&fixed_string(v)), Some(v));
    }

    assert_eq!(decimal_string(0), "0");
    assert_eq!(decimal_string(1203), "1203");
    assert_eq!(decimal_string(u64::MAX), "18446744073709551615");
    assert_eq!(parse_u8("255"), Some(255));
    assert_eq!(parse_u8("256"), None);
    assert_eq!(parse_u8("+7"), Some(7));
    assert_eq!(parse_u8("007"), Some(7));
    assert_eq!(parse_u8(""), None);
    assert_eq!(parse_u8("+"), None);
    assert_eq!(parse_u8("-1"), None);
    assert_eq!(parse_u8("99999999999999999999999999"), None);
    assert_eq!(parse_u32("4294967295"), Some(u32::MAX));
    assert_eq!(parse_u32("4294967296"), None);
}

#[test]
fn typed_values() {
    let t = tree("(a 12 yes 1.5 (n 7) (b true) (f 2.54) (e))");
    let root = t.root().unwrap();
    assert_eq!(root.get_u8(0), Some(12));
    assert_eq!(root.get_u8(1), None);
    assert_eq!(root.get_u8(9), None);
    assert_eq!(root.get_u32(0), Some(12));
    assert_eq!(root.get_fixed(2), Some(15000));
    assert_eq!(root.get_fixed(1), None);
    assert!(root.get_bool(1));
    assert!(!root.get_bool(0));
    assert!(!root.get_bool(9));
    assert_eq!(root.first_u8("n"), Some(7));
    assert_eq!(root.first_u32("n"), Some(7));
    assert_eq!(root.first_u8("x"), None);
    assert_eq!(root.first_u8("e"), None);
    assert!(root.first_bool("b"));
    assert!(!root.first_bool("n"));
    assert_eq!(root.first_fixed("f"), Some(25400));
    assert_eq!(root.values_u8(), None);
    assert_eq!(tree("(c 1 2 3)").root().unwrap().values_u8(), Some(vec![1, 2, 3]));
    let s: Option<String> = SexpValue::<String>::first(root, "b");
    assert_eq!(s, Some("true".to_string()));
    let s: Option<String> = SexpValue::<String>::get(root, 0);
    assert_eq!(s, Some("12".to_string()));
    let all: Vec<String> = SexpQuery::<Vec<String>>::values(root);
    assert_eq!(all, vec!["12", "yes", "1.5"]);
}

#[test]
fn read_small_parts() {
    let t = tree("(x (at 1.5 -2 90))");
    assert_eq!(read_pos(t.root().unwrap()).unwrap(), Pos { x: 15000, y: -20000, angle: 900000 });
    let t = tree("(x (at 1.5 -2))");
    assert_eq!(read_pos(t.root().unwrap()).unwrap(), Pos { x: 15000, y: -20000, angle: 0 });
    assert!(read_pos(tree("(x (at 1.5))").root().unwrap()).is_err());
    assert!(read_pos(tree("(x 1 2)").root().unwrap()).is_err());

    let c = |text: &str| read_color(tree(text).root().unwrap());
    assert_eq!(c("(x (color 255 0 10 1))").unwrap(), Color::Rgba(255, 0, 10, 255));
    assert_eq!(c("(x (color 1 2 3 0.5))").unwrap(), Color::Rgba(1, 2, 3, 127));
    assert_eq!(c("(x (color 1 2 3 0))").unwrap(), Color::Rgba(1, 2, 3, 0));
    assert!(c("(x (color 0 0 0 0))").is_err());
    assert!(c("(x (color 0 0 0))").is_err());
    assert!(c("(x (color 300 0 0 1))").is_err());
    assert!(c("(x)").is_err());

    let f = |text: &str| read_fill(tree(text).root().unwrap());
    assert_eq!(f("(x)").unwrap(), FillType::NoFill);
    assert_eq!(f("(x (fill))").unwrap(), FillType::NoFill);
    assert_eq!(f("(x (fill (type background)))").unwrap(), FillType::Background);
    assert_eq!(f("(x (fill (type outline)))").unwrap(), FillType::Outline);
    assert_eq!(
        f("(x (fill (type color) (color 9 8 7 1)))").unwrap(),
        FillType::Color(Color::Rgba(9, 8, 7, 255))
    );
    assert!(f("(x (fill (type color)))").is_err());
    assert!(f("(x (fill (type plaid)))").is_err());

    let s = read_stroke(tree("(x (stroke (width 0.25) (type dot) (color 1 2 3 1)))").root().unwrap())
        .unwrap();
    assert_eq!(s.width, 2500);
    assert_eq!(s.stroke_type, Some(StrokeType::Dot));
    assert_eq!(s.color, Some(Color::Rgba(1, 2, 3, 255)));
    assert!(read_stroke(tree("(x)").root().unwrap()).is_err());
}

#[test]
fn read_text_effects() {
    let t = tree("(p (effects (font (size 1.27 1.5) bold (face \"Arial\")) (justify left bottom) hide))");
    let e = read_effects(t.root().unwrap()).unwrap();
    assert_eq!(e.font.size, (12700, 15000));
    assert!(e.font.bold);
    assert!(!e.font.italic);
    assert_eq!(e.font.face, Some("Arial".to_string()));
    assert_eq!(e.justify, vec![Justify::Left, Justify::Bottom]);
    assert!(e.hide);
    let t = tree("(p (effects (font (size 1 1) (italic yes)) (hide yes)))");
    let e = read_effects(t.root().unwrap()).unwrap();
    assert!(e.font.italic);
    assert!(e.hide);
    assert!(e.justify.is_empty());
    let t = tree("(p (effects (font (size 1 1) italic) (hide no)))");
    let e = read_effects(t.root().unwrap()).unwrap();
    assert!(e.font.italic);
    assert!(!e.hide);
    assert!(read_effects(tree("(p (effects (font)))").root().unwrap()).is_err());
    assert!(read_effects(tree("(p)").root().unwrap()).is_err());
    assert!(justify(tree("(e (justify left diagonal))").root().unwrap()).is_err());
    assert!(is_hidden(tree("(e hide)").root().unwrap()));
    assert!(!is_hidden(tree("(e)").root().unwrap()));
}

const SCHEMA: &str = r#"(kicad_sch (version 20231120) (generator "eeschema")
  (uuid "3c5cd2bb-2a3b-4b50-9f0f-0c2cbf5b7b81")
  (paper "A3")
  (title_block (title "t") (comment 1 "c"))
  (lib_symbols
    (symbol "Device:R" (pin_numbers hide) (pin_names (offset 0)) (in_bom yes) (on_board yes)
      (property "Reference" "R" (at 2.032 0 90) (effects (font (size 1.27 1.27))))
      (property "ki_keywords" "R res" (at 0 0 0) (effects (font (size 1.27 1.27)) hide))
      (symbol "R_0_1"
        (rectangle (start -1.016 -2.54) (end 1.016 2.54)
          (stroke (width 0.254) (type default)) (fill (type none)))
      )
      (symbol "R_1_1"
        (pin passive line (at 0 3.81 270) (length 1.27)
          (name "~" (effects (font (size 1.27 1.27))))
          (number "1" (effects (font (size 1.27 1.27)))))
        (pin passive line (at 0 -3.81 90) (length 1.27) hide
          (name "~" (effects (font (size 1.27 1.27))))
          (number "2" (effects (font (size 1.27 1.27)))))
      )
    )
  )
  (junction (at 10.16 20.32) (diameter 0) (color 0 0 0 0) (uuid "j1"))
  (no_connect (at 1 2) (uuid "n1"))
  (wire (pts (xy 0 0) (xy 2.54 0)) (stroke (width 0) (type default)) (uuid "w1"))
  (label "IN" (at 5 5 180) (effects (font (size 1.27 1.27)) (justify right bottom)) (uuid "l1"))
  (global_label "OUT" (shape input) (at 6 6 0) (fields_autoplaced no)
    (effects (font (size 1.27 1.27))) (uuid "g1")
    (property "Intersheetrefs" "x" (at 0 0 0) (effects (font (size 1.27 1.27)) hide)))
  (symbol (lib_id "Device:R") (at 10.16 24.13 0) (mirror x) (unit 1)
    (in_bom yes) (on_board no) (dnp yes)
    (uuid "s1")
    (property "Reference" "R1" (at 12 24 0) (effects (font (size 1.27 1.27))))
    (property "Value" "10k" (at 12 26 0) (effects (font (size 1.27 1.27))))
    (pin "1" (uuid "p1"))
    (pin "2" (uuid "p2"))
    (instances (project "demo" (path "/3c5c" (reference "R1") (unit 1))))
  )
  (unknown_thing 1 2 3)
  (sheet_instances (path "/" (page "1")))
)"#;

#[test]
fn read_whole_schema() {
    let t = tree(SCHEMA);
    let schema = read_schema(&t).unwrap();
    assert_eq!(schema.uuid, "3c5cd2bb-2a3b-4b50-9f0f-0c2cbf5b7b81");
    assert_eq!(schema.paper.to_string(), "A3");
    assert_eq!(schema.generator_version, None);
    assert_eq!(schema.title_block.title, Some("t".to_string()));
    assert_eq!(schema.title_block.comment, vec![(1, "c".to_string())]);
    assert_eq!(schema.sheet_instances.len(), 1);
    assert_eq!(schema.sheet_instances[0].path, "/");
    assert_eq!(schema.sheet_instances[0].reference, "1");
    assert_eq!(schema.items.len(), 6);

    let lib = &schema.library_symbols[0];
    assert_eq!(lib.lib_id, "Device:R");
    assert!(!lib.pin_numbers);
    assert!(lib.pin_names);
    assert_eq!(lib.pin_names_offset, Some(0));
    assert!(lib.in_bom && lib.on_board && !lib.power && !lib.exclude_from_sim);
    assert_eq!(lib.props.len(), 2);
    assert_eq!(lib.props[0].pos, Pos { x: 20320, y: 0, angle: 900000 });
    assert!(lib.props[1].effects.hide);
    assert_eq!(lib.units.len(), 2);
    assert_eq!(lib.units[0].unit(), Some(0));
    assert_eq!(lib.units[0].graphics.len(), 1);
    match &lib.units[0].graphics[0] {
        GraphicItem::Rectangle(r) => {
            assert_eq!((r.start.x, r.start.y, r.end.x, r.end.y), (-10160, -25400, 10160, 25400));
            assert_eq!(r.stroke.width, 2540);
            assert_eq!(r.fill, FillType::NoFill);
        }
        _ => panic!(),
    }
    assert_eq!(lib.units[1].pins.len(), 2);
    assert_eq!(lib.units[1].pins[0].number.name, "1");
    assert_eq!(lib.units[1].pins[0].pos, Pos { x: 0, y: 38100, angle: 2700000 });
    assert_eq!(lib.units[1].pins[0].length, 12700);
    assert!(!lib.units[1].pins[0].hide);
    assert!(lib.units[1].pins[1].hide);

    match &schema.items[0] {
        SchemaItem::Junction(j) => {
            assert_eq!(j.pos, Pos { x: 101600, y: 203200, angle: 0 });
            assert_eq!(j.diameter, 0);
            assert_eq!(j.color, None);
            assert_eq!(j.uuid, "j1");
        }
        _ => panic!(),
    }
    assert!(matches!(&schema.items[1], SchemaItem::NoConnect(n) if n.uuid == "n1"));
    assert!(matches!(&schema.items[2], SchemaItem::Wire(w) if w.pts.0.len() == 2));
    match &schema.items[3] {
        SchemaItem::LocalLabel(l) => {
            assert_eq!(l.text, "IN");
            assert_eq!(l.pos.angle, 1800000);
            assert_eq!(l.effects.justify, vec![Justify::Right, Justify::Bottom]);
            assert!(l.fields_autoplaced);
        }
        _ => panic!(),
    }
    match &schema.items[4] {
        SchemaItem::GlobalLabel(l) => {
            assert_eq!(l.text, "OUT");
            assert_eq!(l.shape, Some("input".to_string()));
            assert!(!l.fields_autoplaced);
            assert_eq!(l.props.len(), 1);
        }
        _ => panic!(),
    }
    match &schema.items[5] {
        SchemaItem::Symbol(s) => {
            assert_eq!(s.lib_id, "Device:R");
            assert_eq!(s.mirror, Some("x".to_string()));
            assert_eq!(s.unit, 1);
            assert!(s.in_bom && !s.on_board && s.dnp && !s.exclude_from_sim);
            assert_eq!(s.property("Reference"), "R1");
            assert_eq!(s.pins, vec![("1".to_string(), "p1".to_string()), ("2".to_string(), "p2".to_string())]);
            assert_eq!(s.instances[0].project, "demo");
            assert_eq!(s.instances[0].reference, "R1");
            assert_eq!(s.instances[0].unit, 1);
        }
        _ => panic!(),
    }
    // the schema that was read is one that the geometry works on
    let at = recad_core::draw::At::Pin("R1".to_string(), "1".to_string());
    assert_eq!(schema.get_pt(&at).unwrap(), Pt { x: 101600, y: 279400 });
    let netlist = recad_core::netlist::Netlist::from(&schema).unwrap();
    assert_eq!(netlist.netname(Pt { x: 101600, y: 279400 }).unwrap(), "R1_1");
}

#[test]
fn read_failures() {
    assert!(read_schema(&tree("(kicad_sch (wire (pts (xy 0 0))))")).is_err());
    assert!(read_schema(&tree("(kicad_sch (uuid))")).is_err());
    assert!(read_schema(&tree("(kicad_sch (lib_symbols (symbol)))")).is_err());
    assert!(read_schema(&tree("(kicad_sch (lib_symbols (symbol \"a\" (bogus))))")).is_err());
    assert!(read_symbol(tree("(symbol (lib_id \"x\"))").root().unwrap()).is_err());
    assert!(read_library_symbol(tree("(symbol \"x\" (pin passive))").root().unwrap()).is_err());
    assert!(read_wire(tree("(wire (pts (xy 0 zero) (xy 1 1)) (stroke) (uuid \"u\"))").root().unwrap()).is_err());
    assert!(read_title_block(tree("(title_block (comment x \"c\"))").root().unwrap()).is_err());
    let ok = read_schema(&tree("(kicad_sch)")).unwrap();
    assert_eq!(ok.version, "");
    assert!(ok.items.is_empty());
}

#[test]
fn wide_numbers_as_text() {
    assert_eq!(fixed_string_wide(2147483700), "214748.37");
    assert_eq!(fixed_string_wide(-5), "-0.0005");
    assert_eq!(fixed_string_wide(i64::MIN), "-922337203685477.5808");
    assert_eq!(two_places(0), "0.00");
    assert_eq!(two_places(-7), "-0.07");
    assert_eq!(two_places(12345), "123.45");
}
