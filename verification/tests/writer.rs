use recad_core::gr::{Color, Effects, FillType, Justify, Pos, Pt, Pts, Stroke, StrokeType};
use recad_core::schema::{Junction, SchemaItem, Wire};
use recad_core::schema_reader::read_schema;
use recad_core::schema_writer::sub_lib_id;
use recad_core::sexp::builder::{Builder, BuilderState};
use recad_core::sexp::parser::SexpParser;
use recad_core::sexp::writer::write_uuid;
use recad_core::sexp::SexpTree;
use recad_core::{yes_or_no, ErrorKind, Schema};

fn text_of(b: &Builder) -> String {
    let mut wrapped = Builder::new();
    wrapped.push("x");
    wrapped.nodes.extend(b.nodes.iter().cloned());
    wrapped.end();
    let mut out = String::new();
    recad_core::parser::SexpWriter::write(
        &recad_core::parser::Plain(wrapped.sexp().unwrap().root().unwrap()),
        &mut out,
        1,
    );
    out
}

#[test]
fn uuid_node() {
    let mut b = Builder::new();
    write_uuid(&mut b, &None);
    assert!(b.nodes.is_empty());
    write_uuid(&mut b, &Some("abc".to_string()));
    assert_eq!(
        b.nodes,
        vec![
            BuilderState::StartSymbol("uuid".to_string()),
            BuilderState::Text("abc".to_string()),
            BuilderState::EndSymbol
        ]
    );
    assert_eq!(yes_or_no(true), "yes");
    assert_eq!(yes_or_no(false), "no");
}

#[test]
fn colors_strokes_and_effects() {
    let mut b = Builder::new();
    Color::NoColor.write(&mut b).unwrap();
    Color::Rgb(1, 2, 3).write(&mut b).unwrap();
    Color::Rgba(255, 0, 10, 255).write(&mut b).unwrap();
    Color::Rgba(1, 2, 3, 127).write(&mut b).unwrap();
    assert_eq!(
        text_of(&b),
        "\n  (x\n    (color 0 0 0 0)\n    (color 1 2 3)\n    (color 255 0 10 1)\n    (color 1 2 3 0.4981)\n  )"
    );
    assert_eq!(Color::NoColor.to_string(), "none");
    assert_eq!(Color::Rgb(1, 20, 255).to_string(), "rgb(1, 20, 255)");
    assert_eq!(Color::Rgba(0, 0, 0, 9).to_string(), "rgba(0, 0, 0, 9)");

    let mut b = Builder::new();
    let stroke = Stroke { width: 2540, stroke_type: Some(StrokeType::DashDot), color: None };
    stroke.write(&mut b).unwrap();
    Stroke::default().write(&mut b).unwrap();
    FillType::Background.write(&mut b).unwrap();
    FillType::Color(Color::Rgb(9, 9, 9)).write(&mut b).unwrap();
    assert_eq!(
        text_of(&b),
        "\n  (x\n    (stroke (width 0.254) (type dashDot))\n    (stroke (width 0))\n    (fill (type background))\n    (fill (type color)\n      (color 9 9 9)\n    )\n  )"
    );

    let mut b = Builder::new();
    let mut e = Effects::default();
    e.write(&mut b).unwrap();
    e.justify = vec![Justify::Left, Justify::Top];
    e.hide = true;
    e.font.bold = true;
    e.font.italic = true;
    e.write(&mut b).unwrap();
    assert_eq!(
        text_of(&b),
        "\n  (x (effects (font (size 1.27 1.27))) (effects (font (size 1.27 1.27)\n        (italic yes)\n        (bold yes)) (justify left top)\n      (hide yes)))"
    );
}

#[test]
fn library_names() {
    assert_eq!(sub_lib_id("Device:R").unwrap(), "R");
    assert_eq!(sub_lib_id("a:b:c").unwrap(), "b:c");
    assert_eq!(sub_lib_id("x:").unwrap(), "");
    assert_eq!(sub_lib_id("NoColon").unwrap_err().0, ErrorKind::Sexp);
    assert_eq!(sub_lib_id("").unwrap_err().0, ErrorKind::Sexp);
}

const SCHEMA: &str = r#"(kicad_sch (version 20231120) (generator "eeschema") (generator_version "8.0")
  (uuid "3c5cd2bb")
  (paper "A3")
  (title_block (title "t") (date "d") (rev "r") (comment 1 "c") (comment 2 "e"))
  (lib_symbols
    (symbol "Device:R" (pin_numbers hide) (pin_names (offset 0.254) hide) (in_bom yes) (on_board yes)
      (property "Reference" "R" (at 2.032 0 90) (effects (font (size 1.27 1.27))))
      (symbol "R_0_1"
        (rectangle (start -1.016 -2.54) (end 1.016 2.54)
          (stroke (width 0.254) (type default)) (fill (type none)))
        (circle (center 0 0) (radius 1.5) (stroke (width 0) (type solid)) (fill (type background)))
        (arc (start 0 0) (mid 1 1) (end 2 0) (stroke (width 0) (type dot)) (fill (type outline)))
        (polyline (pts (xy 0 0) (xy 1 1) (xy 2 0)) (stroke (width 0) (type dash)) (fill (type none)))
      )
      (symbol "R_1_1"
        (pin passive line (at 0 3.81 270) (length 1.27)
          (name "~" (effects (font (size 1.27 1.27))))
          (number "1" (effects (font (size 1.27 1.27)))))
        (pin passive inverted (at 0 -3.81 90) (length 1.27) hide
          (name "B" (effects (font (size 1.27 1.27))))
          (number "2" (effects (font (size 1.27 1.27)))))
      )
    )
  )
  (junction (at 10.16 20.32) (diameter 0) (color 0 0 0 0) (uuid "j1"))
  (no_connect (at 1 2) (uuid "n1"))
  (bus_entry (at 3 4) (size 2.54 -2.54) (stroke (width 0) (type default)) (uuid "be1"))
  (wire (pts (xy 0 0) (xy 2.54 0)) (stroke (width 0) (type default)) (uuid "w1"))
  (bus (pts (xy 0 0) (xy 0 5)) (stroke (width 0) (type default)) (uuid "b1"))
  (label "IN" (at 5 5 180) (effects (font (size 1.27 1.27)) (justify right bottom)) (uuid "l1"))
  (global_label "OUT" (shape input) (at 6 6 0)
    (effects (font (size 1.27 1.27))) (uuid "g1")
    (property "Intersheetrefs" "x" (at 0 0 0) (effects (font (size 1.27 1.27)) hide)))
  (hierarchical_label "H" (shape output) (at 7 7 90) (effects (font (size 1.27 1.27))) (uuid "h1"))
  (text "note" (exclude_from_sim no) (at 8 8 0) (effects (font (size 1.27 1.27))) (uuid "t1"))
  (text_box "box" (exclude_from_sim yes) (at 9 9 0) (size 10 5)
    (stroke (width 0) (type default)) (fill (type none))
    (effects (font (size 1.27 1.27))) (uuid "tb1"))
  (netclass_flag "" (length 2.54) (shape round) (at 1 1 0) (effects (font (size 1.27 1.27)))
    (uuid "nf1") (property "Netclass" "power" (at 0 0 0) (effects (font (size 1.27 1.27)))))
  (rectangle (start 0 0) (end 5 5) (stroke (width 0) (type default)) (fill (type none)) (uuid "r1"))
  (sheet (at 100 100) (size 20 10) (stroke (width 0.1) (type solid)) (fill (type none)) (uuid "sh1")
    (property "Sheetname" "sub" (at 100 99 0) (effects (font (size 1.27 1.27))))
    (pin "in" input (at 100 105 180) (effects (font (size 1.27 1.27))) (uuid "sp1"))
    (instances (project "demo" (path "/3c5c" (page "2")))))
  (symbol (lib_id "Device:R") (at 10.16 24.13 0) (mirror x) (unit 1)
    (exclude_from_sim no) (in_bom yes) (on_board no) (dnp yes)
    (uuid "s1")
    (property "Reference" "R1" (at 12 24 0) (effects (font (size 1.27 1.27))))
    (pin "1" (uuid "p1"))
    (pin "2" (uuid "p2"))
    (instances (project "demo" (path "/3c5c" (reference "R1") (unit 1))))
  )
  (sheet_instances (path "/" (page "1")))
)"#;

fn read(text: &str) -> Schema {
    let parser = SexpParser::from(text.to_string());
    read_schema(&SexpTree::from(parser.iter()).unwrap()).unwrap()
}

#[test]
fn written_schema_reads_as_the_same() {
    let first = read(SCHEMA);
    assert_eq!(first.items.len(), 14);
    let mut text = String::new();
    first.write(&mut text).unwrap();
    assert!(text.starts_with("(kicad_sch\n\t(version 20231120)\n\t(generator \"eeschema\")"));
    assert!(text.ends_with("\n)\n"));
    let second = read(&text);
    let mut again = String::new();
    second.write(&mut again).unwrap();
    assert_eq!(text, again);
    assert_eq!(format!("{:?}", first.items), format!("{:?}", second.items));
    assert_eq!(format!("{:?}", first.library_symbols), format!("{:?}", second.library_symbols));
    assert_eq!(first.title_block.comment, second.title_block.comment);
    assert_eq!(first.generator_version, second.generator_version);
    assert_eq!(first.sheet_instances, second.sheet_instances);
}

#[test]
fn write_failures() {
    let mut schema = Schema::new("w");
    schema.items.push(SchemaItem::Curve(recad_core::gr::Curve {
        pts: Pts(vec![]),
        stroke: Stroke::default(),
        fill: FillType::NoFill,
    }));
    let mut out = String::from("kept");
    assert_eq!(schema.write(&mut out).unwrap_err().0, ErrorKind::Unsupported);
    assert_eq!(out, "kept");
    // a library symbol without colon cannot give its units a name
    let mut schema = read(SCHEMA);
    schema.library_symbols[0].lib_id = "R".to_string();
    assert_eq!(schema.write(&mut out).unwrap_err().0, ErrorKind::Sexp);
    let mut schema = read(SCHEMA);
    schema.library_symbols[0].units[0].lib_id = "R_x_1".to_string();
    assert_eq!(schema.tokens().err().unwrap().0, ErrorKind::Sexp);
}

#[test]
fn write_single_items() {
    let mut b = Builder::new();
    let mut j = Junction::new();
    j.pos = Pos { x: 12700, y: -25400, angle: 0 };
    j.uuid = "j".to_string();
    j.color = Some(Color::Rgba(1, 2, 3, 255));
    j.write(&mut b).unwrap();
    let mut w = Wire::new();
    w.pts = Pts(vec![Pt { x: 0, y: 0 }, Pt { x: 25400, y: 1 }]);
    w.uuid = "w".to_string();
    w.write(&mut b).unwrap();
    assert_eq!(
        text_of(&b),
        "\n  (x\n    (junction (at 1.27 -2.54)\n      (diameter 0)\n      (color 1 2 3 1)\n      (uuid \"j\")\n    )\n    (wire\n      (pts\n        (xy 0 0)\n        (xy 2.54 0.0001)\n      )\n      (stroke (width 0))\n      (uuid \"w\")\n    )\n  )"
    );
}
