use recad_core::footprint;
use recad_core::gr::StrokeType;
use recad_core::pcb::{FootprintType, GraphicItem, PadShape, PadType};
use recad_core::pcb_reader::{
    read_footprint, read_fp_line, read_graphic_items, read_net, read_pcb, read_segment,
};
use recad_core::sexp::parser::SexpParser;
use recad_core::sexp::SexpTree;
use recad_core::ErrorKind;

fn board(text: &str) -> SexpTree {
    let parser = SexpParser::from(text.to_string());
    SexpTree::from(parser.iter()).unwrap()
}

#[test]
fn reads_a_net() {
    let t = board(r#"(net 3 "GND")"#);
    let n = read_net(t.root().unwrap()).unwrap();
    assert_eq!(n.ordinal, 3);
    assert_eq!(n.name, "GND");
    let t = board(r#"(net "GND")"#);
    assert_eq!(read_net(t.root().unwrap()).unwrap_err().0, ErrorKind::Sexp);
    let t = board("(net 3)");
    assert_eq!(read_net(t.root().unwrap()).unwrap_err().0, ErrorKind::Sexp);
}

#[test]
fn reads_a_segment() {
    let t = board(
        r#"(segment (start 10.5 20) (end 30 -40.25) (width 0.25) (layer "F.Cu") (net 2) (tstamp "abc"))"#,
    );
    let s = read_segment(t.root().unwrap()).unwrap();
    assert_eq!((s.start.x, s.start.y), (105000, 200000));
    assert_eq!((s.end.x, s.end.y), (300000, -402500));
    assert_eq!(s.width, 2500);
    assert_eq!(s.layer, "F.Cu");
    assert!(!s.locked);
    assert_eq!(s.net, 2);
    assert_eq!(s.tstamp, "abc");

    let t = board(
        r#"(segment locked (start 1 2) (end 3 4) (width 1) (layer "B.Cu") (net 0) (tstamp "x"))"#,
    );
    assert!(read_segment(t.root().unwrap()).unwrap().locked);

    let t = board(r#"(segment (start 1 2) (end 3 4) (layer "B.Cu") (net 0) (tstamp "x"))"#);
    assert_eq!(read_segment(t.root().unwrap()).unwrap_err().0, ErrorKind::Sexp);
}

#[test]
fn reads_the_lines_of_a_footprint() {
    let t = board(
        r#"(fp_line (start 0 1) (end 2 3) (layer "F.SilkS") (stroke (width 0.12) (type solid)) (tstamp "t1"))"#,
    );
    let l = read_fp_line(t.root().unwrap()).unwrap();
    assert_eq!((l.start.x, l.start.y, l.end.x, l.end.y), (0, 10000, 20000, 30000));
    assert_eq!(l.layer, "F.SilkS");
    assert_eq!(l.stroke.width, 1200);
    assert_eq!(l.stroke.stroke_type, Some(StrokeType::Solid));
    assert!(!l.locked);
    assert_eq!(l.tstamp, "t1");

    let t = board(r#"(fp_line (start 0 1) (end 2 3) (layer "F.SilkS") (tstamp "t1"))"#);
    assert_eq!(read_fp_line(t.root().unwrap()).unwrap_err().0, ErrorKind::Sexp);

    let t = board(
        r#"(footprint "R"
             (fp_line (start 0 0) (end 1 0) (layer "A") (stroke (width 0.1) (type solid)) (tstamp "a"))
             (fp_text reference "R1")
             (fp_line (start 1 0) (end 1 1) (layer "B") (stroke (width 0.1) (type solid)) (tstamp "b")))"#,
    );
    let items = read_graphic_items(t.root().unwrap()).unwrap();
    assert_eq!(items.len(), 2);
    match (&items[0], &items[1]) {
        (GraphicItem::FpLine(a), GraphicItem::FpLine(b)) => {
            assert_eq!(a.layer, "A");
            assert_eq!(b.layer, "B");
        }
        _ => panic!(),
    }
}

const FOOTPRINT: &str = r#"(footprint "Resistor_SMD:R_0603" locked (layer "F.Cu")
    (tedit "5F68FEEE") (tstamp "ts")
    (at 100 50.5 90)
    (descr "Resistor SMD 0603") (tags "resistor")
    (property "Sheetname" "main")
    (property "Sheetfile" "main.kicad_sch")
    (path "/abc")
    (autoplace_cost90 3)
    (solder_mask_margin 0.05)
    (clearance 0.2)
    (zone_connect 2)
    (attr smd exclude_from_bom)
    (fp_line (start -1 -1) (end 1 -1) (layer "F.SilkS") (stroke (width 0.12) (type solid)) (tstamp "l1"))
  )"#;

#[test]
fn reads_a_footprint() {
    let t = board(FOOTPRINT);
    let f = read_footprint(t.root().unwrap()).unwrap();
    assert_eq!(f.library_link, "Resistor_SMD:R_0603");
    assert!(f.locked);
    assert!(!f.placed);
    assert_eq!(f.layer, "F.Cu");
    assert_eq!(f.tedit.as_deref(), Some("5F68FEEE"));
    assert_eq!(f.tstamp.as_deref(), Some("ts"));
    assert_eq!((f.pos.x, f.pos.y, f.pos.angle), (1000000, 505000, 900000));
    assert_eq!(f.descr.as_deref(), Some("Resistor SMD 0603"));
    assert_eq!(f.tags.as_deref(), Some("resistor"));
    assert_eq!(
        f.property,
        vec![
            ("Sheetname".to_string(), "main".to_string()),
            ("Sheetfile".to_string(), "main.kicad_sch".to_string())
        ]
    );
    assert_eq!(f.path.as_deref(), Some("/abc"));
    assert_eq!(f.autoplace_cost90, Some(3));
    assert_eq!(f.autoplace_cost180, None);
    assert_eq!(f.solder_mask_margin, Some(500));
    assert_eq!(f.solder_paste_margin, None);
    assert_eq!(f.clearance, Some(2000));
    assert_eq!(f.zone_connect, Some(2));
    assert_eq!(f.footprint_type, FootprintType::Smd);
    assert!(!f.board_only);
    assert!(!f.exclude_from_pos_files);
    assert!(f.exclude_from_bom);
    assert_eq!(f.graphic_items.len(), 1);
    assert!(f.pads.is_empty());
}

#[test]
fn a_footprint_needs_its_attributes() {
    let t = board(r#"(footprint "R" (layer "F.Cu") (at 1 2))"#);
    assert_eq!(read_footprint(t.root().unwrap()).unwrap_err().0, ErrorKind::Sexp);
    let t = board(r#"(footprint "R" (layer "F.Cu") (at 1 2) (attr round))"#);
    assert_eq!(read_footprint(t.root().unwrap()).unwrap_err().0, ErrorKind::Sexp);
    let t = board(r#"(footprint "R" (at 1 2) (attr smd))"#);
    assert_eq!(read_footprint(t.root().unwrap()).unwrap_err().0, ErrorKind::Sexp);
    let t = board(r#"(footprint "R" (layer "F.Cu") (at 1 2) (attr through_hole board_only))"#);
    let f = read_footprint(t.root().unwrap()).unwrap();
    assert_eq!(f.footprint_type, FootprintType::ThroughHole);
    assert!(f.board_only);
}

#[test]
fn reads_a_board() {
    let text = format!(
        r#"(kicad_pcb (version 20221018) (generator pcbnew)
             (uuid "first")
             (net 0 "")
             (net 1 "VCC")
             {}
             (segment (start 1 2) (end 3 4) (width 0.25) (layer "F.Cu") (net 1) (tstamp "s1"))
             (uuid "last"))"#,
        FOOTPRINT
    );
    let t = board(&text);
    let pcb = read_pcb(&t).unwrap();
    assert_eq!(pcb.uuid, "last");
    assert_eq!(pcb.nets.len(), 2);
    assert_eq!(pcb.nets[0].name, "");
    assert_eq!(pcb.nets[1].ordinal, 1);
    assert_eq!(pcb.nets[1].name, "VCC");
    assert_eq!(pcb.footprints.len(), 1);
    assert_eq!(pcb.footprints[0].library_link, "Resistor_SMD:R_0603");
    assert_eq!(pcb.segments.len(), 1);
    assert_eq!(pcb.segments[0].net, 1);
    assert!(pcb.layers.is_empty());

    let t = board("(kicad_pcb)");
    let pcb = read_pcb(&t).unwrap();
    assert_eq!(pcb.uuid, "");
    assert!(pcb.nets.is_empty());

    let t = board("(kicad_pcb (net 1))");
    assert_eq!(read_pcb(&t).unwrap_err().0, ErrorKind::Sexp);
    let t = board("(kicad_pcb (uuid))");
    assert_eq!(read_pcb(&t).unwrap_err().0, ErrorKind::Sexp);
}

#[test]
fn names_of_pads_and_footprints() {
    assert_eq!(FootprintType::from_name("smd"), Some(FootprintType::Smd));
    assert_eq!(FootprintType::from_name("through_hole"), Some(FootprintType::ThroughHole));
    assert_eq!(FootprintType::from_name("other"), None);
    assert_eq!(PadType::from_name("thru_hole"), Some(PadType::ThruHole));
    assert_eq!(PadType::from_name("smd"), Some(PadType::Smd));
    assert_eq!(PadType::from_name("connect"), Some(PadType::Connect));
    assert_eq!(PadType::from_name("np_thru_hole"), Some(PadType::NpThruHole));
    assert_eq!(PadType::from_name("x"), None);
    assert_eq!(PadShape::from_name("circle"), Some(PadShape::Circle));
    assert_eq!(PadShape::from_name("rect"), Some(PadShape::Rect));
    assert_eq!(PadShape::from_name("oval"), Some(PadShape::Oval));
    assert_eq!(PadShape::from_name("trapezoid"), Some(PadShape::Trapezoid));
    assert_eq!(PadShape::from_name("roundrect"), Some(PadShape::RoundRect));
    assert_eq!(PadShape::from_name("custom"), Some(PadShape::Custom));
    assert_eq!(PadShape::from_name("x"), None);
    assert_eq!(footprint::PadType::from_name("smd"), Some(footprint::PadType::Smd));
    assert_eq!(footprint::PadShape::from_name("oval"), Some(footprint::PadShape::Oval));
}
