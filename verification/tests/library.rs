use recad_core::sexp::parser::SexpParser;
use recad_core::sexp::SexpTree;
use recad_core::{ErrorKind, SymbolLibrary};

fn document(text: &str) -> SexpTree {
    let parser = SexpParser::from(text.to_string());
    SexpTree::from(parser.iter()).unwrap()
}

const DEVICE: &str = r#"(kicad_symbol_lib (version 20231120)
  (symbol "R" (pin_numbers hide) (in_bom yes) (on_board yes)
    (property "Reference" "R" (at 2.032 0 90) (effects (font (size 1.27 1.27))))
    (property "Value" "R" (at 0 0 90) (effects (font (size 1.27 1.27))))
    (symbol "R_0_1"
      (rectangle (start -1.016 -2.54) (end 1.016 2.54)
        (stroke (width 0.254) (type default)) (fill (type none))))
    (symbol "R_1_1"
      (pin passive line (at 0 3.81 270) (length 1.27)
        (name "~" (effects (font (size 1.27 1.27))))
        (number "1" (effects (font (size 1.27 1.27)))))
      (pin passive line (at 0 -3.81 90) (length 1.27)
        (name "~" (effects (font (size 1.27 1.27))))
        (number "2" (effects (font (size 1.27 1.27)))))))
  (symbol "R_Small" (extends "R")
    (property "Reference" "R" (at 1 0 0) (effects (font (size 1.27 1.27))))
    (property "Value" "R_Small" (at 0 0 0) (effects (font (size 1.27 1.27)))))
  (symbol "R_Tiny" (extends "R_Small")
    (property "Value" "R_Tiny" (at 0 0 0) (effects (font (size 1.27 1.27)))))
  (symbol "Orphan" (extends "Nothing")
    (property "Value" "Orphan" (at 0 0 0) (effects (font (size 1.27 1.27)))))
  (symbol "Loop" (extends "Loop")
    (property "Value" "Loop" (at 0 0 0) (effects (font (size 1.27 1.27))))))"#;

#[test]
fn files_of_a_library() {
    let library = SymbolLibrary {
        pathlist: vec!["/usr/share/kicad/symbols".to_string(), "libs".to_string()],
    };
    assert_eq!(
        library.files("Device:R"),
        vec![
            "/usr/share/kicad/symbols/Device.kicad_sym".to_string(),
            "libs/Device.kicad_sym".to_string()
        ]
    );
    assert!(library.files("R").is_empty());
    let none = SymbolLibrary { pathlist: Vec::new() };
    assert!(none.files("Device:R").is_empty());
}

#[test]
fn a_symbol_of_a_library() {
    let documents = vec![document("(kicad_symbol_lib)"), document(DEVICE)];
    let r = SymbolLibrary::symbol("Device:R", &documents).unwrap();
    assert_eq!(r.lib_id, "Device:R");
    assert!(r.extends.is_none());
    assert!(!r.pin_numbers);
    assert_eq!(r.props.len(), 2);
    assert_eq!(r.units.len(), 2);
    assert_eq!(r.units[0].graphics.len(), 1);
    assert_eq!(r.units[1].pins.len(), 2);
    assert_eq!(r.units[1].pins[0].number.name, "1");
    assert_eq!(r.units[1].pins[0].pos.y, 38100);
}

#[test]
fn a_symbol_that_extends_another() {
    let documents = vec![document(DEVICE)];
    let small = SymbolLibrary::symbol("Device:R_Small", &documents).unwrap();
    // the body of the other symbol, under the name and with the properties of this one
    assert_eq!(small.lib_id, "Device:R_Small");
    assert_eq!(small.units.len(), 2);
    assert_eq!(small.units[1].pins.len(), 2);
    assert_eq!(small.props.len(), 2);
    assert_eq!(small.props[1].value, "R_Small");
    assert_eq!(small.props[0].pos.x, 10000);
    assert!(small.extends.is_none());

    let tiny = SymbolLibrary::symbol("Device:R_Tiny", &documents).unwrap();
    assert_eq!(tiny.lib_id, "Device:R_Tiny");
    assert_eq!(tiny.units.len(), 2);
    assert_eq!(tiny.props.len(), 1);
    assert_eq!(tiny.props[0].value, "R_Tiny");
}

#[test]
fn a_symbol_that_cannot_be_had() {
    let documents = vec![document(DEVICE)];
    assert_eq!(
        SymbolLibrary::symbol("Device:C", &documents).unwrap_err().0,
        ErrorKind::LibraryNotFound
    );
    assert_eq!(SymbolLibrary::symbol("R", &documents).unwrap_err().0, ErrorKind::LibraryNotFound);
    assert_eq!(
        SymbolLibrary::symbol("Device:Orphan", &documents).unwrap_err().0,
        ErrorKind::LibraryNotFound
    );
    // a symbol that extends itself is given up
    assert_eq!(
        SymbolLibrary::symbol("Device:Loop", &documents).unwrap_err().0,
        ErrorKind::LibraryNotFound
    );
    assert_eq!(
        SymbolLibrary::symbol("Device:R", &Vec::new()).unwrap_err().0,
        ErrorKind::LibraryNotFound
    );
    let broken = vec![document(r#"(kicad_symbol_lib (symbol "B" (unknown_node 1)))"#)];
    assert_eq!(SymbolLibrary::symbol("Device:B", &broken).unwrap_err().0, ErrorKind::Sexp);
}

const AMPLIFIERS: &str = r#"(kicad_symbol_lib (version 20231120) (generator "kicad_symbol_editor")
  (symbol "LM2904" (pin_names (offset 0.127)) (in_bom yes) (on_board yes)
    (property "Reference" "U" (at 0 5.08 0) (effects (font (size 1.27 1.27)) (justify left)))
    (property "Value" "LM2904" (at 0 -5.08 0) (effects (font (size 1.27 1.27)) (justify left)))
    (property "ki_keywords" "dual opamp" (at 0 0 0) (effects (font (size 1.27 1.27)) hide))
    (symbol "LM2904_1_1"
      (polyline (pts (xy -5.08 5.08) (xy 5.08 0) (xy -5.08 -5.08) (xy -5.08 5.08))
        (stroke (width 0.254) (type default)) (fill (type background)))
      (pin output line (at 7.62 0 180) (length 2.54)
        (name "~" (effects (font (size 1.27 1.27))))
        (number "1" (effects (font (size 1.27 1.27)))))
      (pin input line (at -7.62 -2.54 0) (length 2.54)
        (name "-" (effects (font (size 1.27 1.27))))
        (number "2" (effects (font (size 1.27 1.27)))))
      (pin input line (at -7.62 2.54 0) (length 2.54)
        (name "+" (effects (font (size 1.27 1.27))))
        (number "3" (effects (font (size 1.27 1.27))))))
    (symbol "LM2904_2_1"
      (polyline (pts (xy -5.08 5.08) (xy 5.08 0) (xy -5.08 -5.08) (xy -5.08 5.08))
        (stroke (width 0.254) (type default)) (fill (type background)))
      (pin input line (at -7.62 2.54 0) (length 2.54)
        (name "+" (effects (font (size 1.27 1.27))))
        (number "5" (effects (font (size 1.27 1.27)))))
      (pin input line (at -7.62 -2.54 0) (length 2.54)
        (name "-" (effects (font (size 1.27 1.27))))
        (number "6" (effects (font (size 1.27 1.27)))))
      (pin output line (at 7.62 0 180) (length 2.54)
        (name "~" (effects (font (size 1.27 1.27))))
        (number "7" (effects (font (size 1.27 1.27))))))
    (symbol "LM2904_3_1"
      (pin power_in line (at -2.54 -7.62 90) (length 3.81)
        (name "V-" (effects (font (size 1.27 1.27))))
        (number "4" (effects (font (size 1.27 1.27)))))
      (pin power_in line (at -2.54 7.62 270) (length 3.81)
        (name "V+" (effects (font (size 1.27 1.27))))
        (number "8" (effects (font (size 1.27 1.27)))))))
  (symbol "TL072" (extends "LM2904")
    (property "Reference" "U" (at 0 5.08 0) (effects (font (size 1.27 1.27)) (justify left)))
    (property "Value" "TL072" (at 0 -5.08 0) (effects (font (size 1.27 1.27)) (justify left)))))"#;

/// The documents that the library holds for a symbol: the one file of the
/// amplifiers stands for what the directory holds.
fn amplifiers(lib: &SymbolLibrary, name: &str) -> Vec<SexpTree> {
    let files = lib.files(name);
    assert_eq!(files, vec!["/usr/share/kicad/symbols/Amplifier_Operational.kicad_sym".to_string()]);
    vec![document(AMPLIFIERS)]
}

#[test]
fn test_load_symbol() {
    let lib = SymbolLibrary { pathlist: vec!["/usr/share/kicad/symbols".to_string()] };
    let documents = amplifiers(&lib, "Amplifier_Operational:LM2904");
    let sym = SymbolLibrary::symbol("Amplifier_Operational:LM2904", &documents);
    assert!(sym.is_ok());
}

#[test]
fn test_load_extends_symbol() {
    let lib = SymbolLibrary { pathlist: vec!["/usr/share/kicad/symbols".to_string()] };
    let documents = amplifiers(&lib, "Amplifier_Operational:TL072");
    let sym = SymbolLibrary::symbol("Amplifier_Operational:TL072", &documents);
    assert!(sym.is_ok());
    assert_eq!(3, sym.as_ref().unwrap().units.len());
    assert_eq!("Amplifier_Operational:TL072", sym.unwrap().lib_id);
}
