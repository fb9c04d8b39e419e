use recad_core::parser::{
    get_library, library, library_file, library_symbol, pin, pins, split_name, unit_from_capture,
    unit_number, Error, PinGraphicalStyle, Plain, SexpWriter, KICAD_SCHEMA_VERSION,
};
use recad_core::sexp::builder::Builder;
use recad_core::sexp::parser::SexpParser;
use recad_core::sexp::{SexpAtom, SexpTree};
use recad_core::ErrorKind;

fn document() -> SexpTree {
    let mut document = Builder::new();
    document.push("kicad_sch");
    document.push("version");
    document.value(KICAD_SCHEMA_VERSION);
    document.end();
    document.push("generator");
    document.value("elektron");
    document.end();
    document.push("uuid");
    document.value("e91be4a5-3c12-4daa-bee2-30f8afcd4ab8");
    document.end();
    document.push("paper");
    document.text("A4");
    document.end();
    document.push("lib_symbols");
    document.end();
    document.end();
    document.sexp().unwrap()
}

#[test]
fn build_document() {
    /* (kicad_sch (version 20211123) (generator elektron)

        (uuid e91be4a5-3c12-4daa-bee2-30f8afcd4ab8)

        (paper "A4")
        (lib_symbols
        )
    )*/
    let mut document = Builder::new();
    document.push("kicad_sch");
    document.push("version");
    document.value("20211123");
    document.end();
    document.push("generator");
    document.value("elektron");
    document.end();
    document.push("uuid");
    document.value("e91be4a5-3c12-4daa-bee2-30f8afcd4ab8");
    document.end();
    document.push("paper");
    document.text("A4");
    document.end();
    document.push("lib_symbols");
    document.end();

    document.end();
    let tree = document.sexp().unwrap();
    let mut out = String::new();
    Plain(tree.root().unwrap()).write(&mut out, 0);
    println!("{}", out);
}

#[test]
fn macro_document() {
    let tree = document();
    let mut writer = String::new();
    Plain(tree.root().unwrap()).write(&mut writer, 0);
    let result = writer.as_str();
    assert_eq!(String::from("(kicad_sch\n  (version 20211123)\n  (generator elektron)\n  (uuid e91be4a5-3c12-4daa-bee2-30f8afcd4ab8)\n  (paper \"A4\")\n  (lib_symbols)\n)\n"), result);
}

#[test]
fn remove_element() {
    let mut tree = document();
    let mut writer = String::new();
    Plain(tree.root().unwrap()).write(&mut writer, 0);
    let result = writer.as_str();
    assert_eq!(String::from("(kicad_sch\n  (version 20211123)\n  (generator elektron)\n  (uuid e91be4a5-3c12-4daa-bee2-30f8afcd4ab8)\n  (paper \"A4\")\n  (lib_symbols)\n)\n"), result);

    tree.tree.remove("paper").unwrap();
    let mut writer = String::new();
    Plain(tree.root().unwrap()).write(&mut writer, 0);
    let result = writer.as_str();
    assert_eq!(String::from("(kicad_sch\n  (version 20211123)\n  (generator elektron)\n  (uuid e91be4a5-3c12-4daa-bee2-30f8afcd4ab8)\n  (lib_symbols)\n)\n"), result);
}

fn tree(text: &str) -> SexpTree {
    let parser = SexpParser::from(text.to_string());
    SexpTree::from(parser.iter()).unwrap()
}

#[test]
fn plain_text_keeps_some_nodes_on_the_line() {
    let t = tree("(symbol (lib_id \"Device:R\") (at 1 2 0) (property \"Value\" \"1k\" (at 0 0 0) (effects (font (size 1.27 1.27)) hide)) (pin \"1\"))");
    let mut out = String::new();
    let line = Plain(t.root().unwrap()).write(&mut out, 0);
    assert!(!line);
    assert_eq!(
        out,
        "(symbol (lib_id \"Device:R\") (at 1 2 0)\n  (property \"Value\" \"1k\" (at 0 0 0) (effects (font (size 1.27 1.27)) hide))\n  (pin \"1\")\n)\n"
    );
    // a node with child nodes on lines of their own is closed on a line of its own
    let t = tree("(a (b (c 1)))");
    let mut out = String::new();
    Plain(t.root().unwrap()).write(&mut out, 0);
    assert_eq!(out, "(a\n  (b\n    (c 1)\n  )\n)\n");
    let mut out = String::from("x");
    let line = Plain(t.root().unwrap()).write(&mut out, 2);
    assert!(line);
    assert_eq!(out, "x\n    (a\n      (b\n        (c 1)\n      )\n    )");
}

#[test]
fn remove_takes_all_nodes_with_the_name() {
    let mut t = tree("(a 1 (b 2) x (c (b 3)) (b) \"b\")");
    t.tree.remove("b").unwrap();
    let mut out = String::new();
    t.write(&mut out);
    assert_eq!(out, "(a 1 x\n\t(c\n\t\t(b 3)\n\t) \"b\"\n)");
    t.tree.remove("zzz").unwrap();
    assert_eq!(t.tree.nodes.len(), 4);
}

#[test]
fn unit_numbers() {
    assert_eq!(unit_number("R_1_1".to_string()), Some(1));
    assert_eq!(unit_number("LM2904_3_1".to_string()), Some(3));
    assert_eq!(unit_number("Conn_01x02_12_2".to_string()), Some(12));
    assert_eq!(unit_number("R".to_string()), Some(0));
    assert_eq!(unit_number("R_1".to_string()), Some(0));
    assert_eq!(unit_number("R_a_1".to_string()), Some(0));
    // the pattern matches, but the unit field is empty
    assert_eq!(unit_number("R__1".to_string()), None);
    assert_eq!(unit_number("R_99999999999_1".to_string()), None);
    assert_eq!(unit_from_capture(&None), Some(0));
    assert_eq!(unit_from_capture(&Some("17".to_string())), Some(17));
    assert_eq!(unit_from_capture(&Some("x".to_string())), None);
    assert_eq!(unit_from_capture(&Some(String::new())), None);
}

const LIB: &str = r#"(kicad_sch
  (lib_symbols
    (symbol "Amp:Dual"
      (symbol "Dual_0_1" (pin power_in line (at 0 0 0) (number "8")))
      (symbol "Dual_1_1"
        (pin output line (at 0 0 0) (number "1"))
        (pin input line (at 0 0 0) (number "2")))
      (symbol "Dual_2_1" (pin output line (at 0 0 0) (number "7")) (pin input line))
    )
    (symbol "Device:R" (symbol "R_1_1" (pin passive line (number "1"))))
    (symbol "Twice:X")
    (symbol "Twice:X")
  )
)"#;

#[test]
fn library_nodes() {
    let t = tree(LIB);
    let root = t.root().unwrap();
    let lib = get_library(root, "Amp:Dual").unwrap();
    assert_eq!(lib.get(0), Some("Amp:Dual".to_string()));
    assert!(get_library(root, "Device:C").is_none());
    // two nodes with one identifier
    assert!(get_library(root, "Twice:X").is_none());
    assert!(get_library(tree("(kicad_sch)").root().unwrap(), "Amp:Dual").is_none());

    let number = |p: &recad_core::sexp::Sexp| p.query("number")[0].get(0).unwrap();
    assert_eq!(number(pin(lib, "7").unwrap()), "7");
    assert_eq!(pin(lib, "7").unwrap().get(0), Some("output".to_string()));
    assert!(pin(lib, "9").is_none());

    let numbers = |unit: usize| -> Vec<String> {
        pins(lib, unit).unwrap().iter().map(|p| p.first("number").unwrap_or_default()).collect()
    };
    assert_eq!(numbers(1), vec!["8", "1", "2"]);
    assert_eq!(numbers(2), vec!["8", "7", ""]);
    assert_eq!(numbers(0), vec!["8", "1", "2", "7", ""]);
    assert_eq!(numbers(5), vec!["8"]);
    let r = get_library(root, "Device:R").unwrap();
    match pins(r, 2) {
        Err(Error::SexpError(name, unit)) => {
            assert_eq!(name, "Device:R");
            assert_eq!(unit, "2");
        }
        _ => panic!(),
    }
}

#[test]
fn error_texts_and_styles() {
    assert_eq!(Error::SexpError("a".to_string(), "b".to_string()).to_string(), "a:b");
    assert_eq!(
        Error::IoError("f".to_string(), "gone".to_string()).to_string(),
        "Can not load content: 'f' (gone)"
    );
    assert_eq!(Error::LibraryNotFound("x".to_string()).to_string(), "Library not found x.");
    assert_eq!(PinGraphicalStyle::from_name("non_logic"), Some(PinGraphicalStyle::NonLogic));
    assert_eq!(PinGraphicalStyle::from_name("nonlogic"), None);
    assert_eq!(PinGraphicalStyle::InvertedClock.to_string(), "inverted_clock");
    for name in ["line", "inverted", "clock", "input_low", "clock_low", "output_low", "edge_clock_high"] {
        assert_eq!(PinGraphicalStyle::from_name(name).unwrap().to_string(), name);
    }
}

#[test]
fn names_of_library_and_symbol() {
    assert_eq!(split_name("Device:R"), Some(("Device".to_string(), "R".to_string())));
    assert_eq!(split_name("a:b:c"), Some(("a".to_string(), "b".to_string())));
    assert_eq!(split_name(":R"), Some(("".to_string(), "R".to_string())));
    assert_eq!(split_name("Device:"), Some(("Device".to_string(), "".to_string())));
    assert_eq!(split_name("Device"), None);
    assert_eq!(split_name(""), None);
    assert_eq!(
        library_file("/usr/share/kicad/symbols", "Device:R"),
        Some("/usr/share/kicad/symbols/Device.kicad_sym".to_string())
    );
    assert_eq!(library_file("libs", "R"), None);
}

#[test]
fn library_symbols_are_found_by_name() {
    let device = tree(
        r#"(kicad_symbol_lib (version 1)
             (symbol "C" (pin_numbers hide) (property "Reference" "C"))
             (symbol "R" (pin_numbers hide) (property "Reference" "R"))
             (symbol "R" (property "Reference" "second")))"#,
    );
    let other = tree(r#"(kicad_symbol_lib (symbol "L" (property "Reference" "L")))"#);

    let found = library_symbol(device.root().unwrap(), "Device:R").unwrap();
    assert_eq!(found.name, "symbol");
    // the whole name stands in the place of the short one, as a text
    assert_eq!(found.nodes[0], SexpAtom::Text("Device:R".to_string()));
    assert_eq!(found.nodes.len(), 3);
    assert_eq!(found.query("property")[0].get(1), Some("R".to_string()));
    // the document is left as it was
    assert_eq!(device.root().unwrap().query("symbol")[1].get(0), Some("R".to_string()));

    assert!(library_symbol(device.root().unwrap(), "Device:L").is_none());
    assert!(library_symbol(device.root().unwrap(), "R").is_none());

    let documents = vec![other, device];
    let found = library("Device:R", &documents).unwrap();
    assert_eq!(found.get(0), Some("Device:R".to_string()));
    let found = library("Device:L", &documents).unwrap();
    assert_eq!(found.get(0), Some("Device:L".to_string()));
    match library("Device:X", &documents) {
        Err(Error::LibraryNotFound(name)) => assert_eq!(name, "Device:X"),
        _ => panic!(),
    }
    match library("Device:R", &Vec::new()) {
        Err(Error::LibraryNotFound(name)) => assert_eq!(name, "Device:R"),
        _ => panic!(),
    }
}

#[test]
fn copies_and_replaced_values() {
    let t = tree(r#"(a (b 1) x "y" (c) z)"#);
    let root = t.root().unwrap();
    let copy = root.copy();
    assert_eq!(&copy, root);

    let mut node = root.copy();
    node.set(1, SexpAtom::Value("new".to_string())).unwrap();
    assert_eq!(node.values(), vec!["x".to_string(), "new".to_string(), "z".to_string()]);
    assert_eq!(node.nodes.len(), 5);
    assert_eq!(node.nodes[2], SexpAtom::Value("new".to_string()));
    node.set(2, SexpAtom::Text("end".to_string())).unwrap();
    assert_eq!(node.nodes[4], SexpAtom::Text("end".to_string()));
    let before = node.copy();
    assert_eq!(node.set(3, SexpAtom::Value("no".to_string())).unwrap_err().0, ErrorKind::Sexp);
    assert_eq!(node, before);
}
