use recad_core::sexp::builder::Builder;
use recad_core::sexp::parser::{SexpParser, State};
use recad_core::sexp::{SexpAtom, SexpTree};

fn start(s: &str) -> Option<State> {
    Some(State::StartSymbol(s.to_string()))
}

fn value(s: &str) -> Option<State> {
    Some(State::Values(s.to_string()))
}

fn text(s: &str) -> Option<State> {
    Some(State::Text(s.to_string()))
}

#[test]
fn check_index() {
    let doc = SexpParser::from(String::from(
        r#"(node value1 value2 "value 3" "value 4" "" "value \"four\"" endval)"#,
    ));
    let mut iter = doc.iter();
    let state = iter.next();
    assert_eq!(state, start("node"));

    let state = iter.next();
    assert_eq!(state, value("value1"));

    let state = iter.next();
    assert_eq!(state, value("value2"));

    let state = iter.next();
    assert_eq!(state, text("value 3"));

    let state = iter.next();
    assert_eq!(state, text("value 4"));

    let state = iter.next();
    assert_eq!(state, text(""));

    let state = iter.next();
    assert_eq!(state, text(r#"value \"four\""#));

    let state = iter.next();
    assert_eq!(state, value("endval"));

    let state = iter.next();
    assert_eq!(state, Some(State::EndSymbol));
}

#[test]
fn parser_check_index() {
    let doc = SexpParser::from(String::from(
        r#"(node value1 value2 "value 3" "value 4" "" "value \"four\"" endval)"#,
    ));
    let mut iter = doc.iter();
    let state = iter.next();
    assert_eq!(state, start("node"));

    let state = iter.next();
    assert_eq!(state, value("value1"));

    let state = iter.next();
    assert_eq!(state, value("value2"));

    let state = iter.next();
    assert_eq!(state, text("value 3"));

    let state = iter.next();
    assert_eq!(state, text("value 4"));

    let state = iter.next();
    assert_eq!(state, text(""));

    let state = iter.next();
    assert_eq!(state, text(r#"value \"four\""#));

    let state = iter.next();
    assert_eq!(state, value("endval"));

    let state = iter.next();
    assert_eq!(state, Some(State::EndSymbol));
}

#[test]
fn simple_content() {
    let doc = SexpParser::from(String::from(
        r#"(node value1 value2 "value 3" "value 4" "" "value \"four\"" endval)"#,
    ));
    let mut node_name = String::new();
    let mut values = String::new();
    let mut texts = String::new();
    let mut count = 0;
    let mut iter = doc.iter();
    while let Some(state) = iter.next() {
        match state {
            State::StartSymbol(name) => {
                node_name = name.to_string();
                count += 1;
            }
            State::EndSymbol => {
                count -= 1;
            }
            State::Values(value) => {
                values += &value;
            }
            State::Text(value) => {
                texts += &value;
            }
        }
    }
    assert_eq!("node", node_name);
    assert_eq!(values, "value1value2endval");
    assert_eq!(texts, r#"value 3value 4value \"four\""#);
    assert_eq!(count, 0);
}

#[test]
fn next_sub_symbol() {
    let doc = SexpParser::from(String::from("(node value1 (node2))"));
    let mut iter = doc.iter();
    let state = iter.next();
    assert_eq!(state, start("node"));

    let state = iter.next();
    assert_eq!(state, value("value1"));

    let state = iter.next();
    assert_eq!(state, start("node2"));
}

#[test]
fn next_sub_symbol_values() {
    let doc = SexpParser::from(String::from("(node value1 (node2 value2))"));
    let mut count = 0;
    let mut ends = 0;
    let mut iter = doc.iter();
    if let Some(State::StartSymbol(name)) = &iter.next() {
        count += 1;
        ends += 1;
        assert_eq!("node", *name);
    }
    if let Some(State::Values(value)) = &iter.next() {
        count += 1;
        assert_eq!("value1", *value);
    }
    if let Some(State::StartSymbol(name)) = &iter.next() {
        count += 1;
        ends += 1;
        assert_eq!("node2", *name);
    }
    if let Some(State::Values(value)) = &iter.next() {
        count += 1;
        assert_eq!("value2", *value);
    }
    if let Some(State::EndSymbol) = &iter.next() {
        ends -= 1;
    }
    if let Some(State::EndSymbol) = &iter.next() {
        ends -= 1;
    }
    assert_eq!(count, 4);
    assert_eq!(ends, 0);
}

#[test]
fn next_sub_symbol_text() {
    let doc = SexpParser::from(String::from("(node value1 (node2 \"value 2\"))"));
    let mut count = 0;
    let mut ends = 0;
    let mut iter = doc.iter();
    if let Some(State::StartSymbol(name)) = &iter.next() {
        count += 1;
        ends += 1;
        assert_eq!("node", *name);
    }
    if let Some(State::Values(value)) = &iter.next() {
        count += 1;
        assert_eq!("value1", *value);
    }
    if let Some(State::StartSymbol(name)) = &iter.next() {
        count += 1;
        ends += 1;
        assert_eq!("node2", *name);
    }
    if let Some(State::Text(value)) = &iter.next() {
        count += 1;
        assert_eq!("value 2", *value);
    }
    if let Some(State::EndSymbol) = &iter.next() {
        ends -= 1;
    }
    if let Some(State::EndSymbol) = &iter.next() {
        ends -= 1;
    }
    assert_eq!(count, 4);
    assert_eq!(ends, 0);
}

#[test]
fn next_sub_symbol_text_escaped() {
    let doc = SexpParser::from(String::from(r#"(node value1 (node2 "value \"2\""))"#));
    let mut count = 0;
    let mut iter = doc.iter();
    if let Some(State::StartSymbol(name)) = &iter.next() {
        count += 1;
        assert_eq!("node", *name);
    }
    if let Some(State::Values(value)) = &iter.next() {
        count += 1;
        assert_eq!("value1", *value);
    }
    if let Some(State::StartSymbol(name)) = &iter.next() {
        count += 1;
        assert_eq!("node2", *name);
    }
    if let Some(State::Text(value)) = &iter.next() {
        count += 1;
        assert_eq!(r#"value \"2\""#, *value);
    }
    assert_eq!(count, 4);
}

#[test]
fn next_sub_symbol_line_breaks() {
    let doc = SexpParser::from(String::from("(node value1\n(node2 \"value 2\"\n)\n)"));
    let mut count = 0;
    let mut iter = doc.iter();
    if let Some(State::StartSymbol(name)) = &iter.next() {
        count += 1;
        assert_eq!("node", *name);
    }
    if let Some(State::Values(value)) = &iter.next() {
        count += 1;
        assert_eq!("value1", *value);
    }
    if let Some(State::StartSymbol(name)) = &iter.next() {
        count += 1;
        assert_eq!("node2", *name);
    }
    if let Some(State::Text(value)) = &iter.next() {
        count += 1;
        assert_eq!("value 2", *value);
    }
    assert_eq!(count, 4);
}

#[test]
fn parse_stroke() {
    let doc = SexpParser::from(String::from(
        "(stroke (width 0) (type default) (color 0 0 0 0))",
    ));
    let mut count = 0;
    let mut ends = 0;
    let mut iter = doc.iter();
    if let Some(State::StartSymbol(name)) = &iter.next() {
        count += 1;
        ends += 1;
        assert_eq!("stroke", *name);
    }
    if let Some(State::StartSymbol(name)) = &iter.next() {
        count += 1;
        ends += 1;
        assert_eq!("width", *name);
    }
    if let Some(State::Values(value)) = &iter.next() {
        count += 1;
        assert_eq!("0", *value);
    }
    if let Some(State::EndSymbol) = &iter.next() {
        count += 1;
        ends -= 1;
    }
    if let Some(State::StartSymbol(name)) = &iter.next() {
        count += 1;
        ends += 1;
        assert_eq!("type", *name);
    }
    if let Some(State::Values(value)) = &iter.next() {
        count += 1;
        assert_eq!("default", *value);
    }
    if let Some(State::EndSymbol) = &iter.next() {
        count += 1;
        ends -= 1;
    }
    if let Some(State::StartSymbol(name)) = &iter.next() {
        count += 1;
        ends += 1;
        assert_eq!("color", *name);
    }
    if let Some(State::Values(value)) = &iter.next() {
        count += 1;
        assert_eq!("0", *value);
    }
    if let Some(State::Values(value)) = &iter.next() {
        count += 1;
        assert_eq!("0", *value);
    }
    if let Some(State::Values(value)) = &iter.next() {
        count += 1;
        assert_eq!("0", *value);
    }
    if let Some(State::Values(value)) = &iter.next() {
        count += 1;
        assert_eq!("0", *value);
    }
    if let Some(State::EndSymbol) = &iter.next() {
        count += 1;
        ends -= 1;
    }
    if let Some(State::EndSymbol) = &iter.next() {
        count += 1;
        ends -= 1;
    }
    assert_eq!(iter.next(), None);
    assert_eq!(count, 14);
    assert_eq!(ends, 0);
}

#[test]
fn unterminated_text_ends_the_tokens() {
    let doc = SexpParser::from(String::from("(node \"open"));
    let mut iter = doc.iter();
    assert_eq!(iter.next(), start("node"));
    assert_eq!(iter.next(), None);
    assert_eq!(iter.next(), None);
}

#[test]
fn value_before_bracket_is_dropped() {
    let doc = SexpParser::from(String::from("(a b(c d))"));
    let mut iter = doc.iter();
    assert_eq!(iter.next(), start("a"));
    assert_eq!(iter.next(), start("c"));
    assert_eq!(iter.next(), value("d"));
    assert_eq!(iter.next(), Some(State::EndSymbol));
    assert_eq!(iter.next(), Some(State::EndSymbol));
    assert_eq!(iter.next(), None);
}

#[test]
fn next_sibling_skips_the_node() {
    let doc = SexpParser::from(String::from("(a (b (c \"x)\" 1) 2) (d 3))"));
    let mut iter = doc.iter();
    assert_eq!(iter.next(), start("a"));
    assert_eq!(iter.next(), start("b"));
    // leave b: the next token is the start of d
    assert_eq!(iter.next_siebling(), start("d"));
    assert_eq!(iter.next(), value("3"));
    assert_eq!(iter.next(), Some(State::EndSymbol));
    // leave a: nothing follows
    assert_eq!(iter.next_siebling(), None);
}

#[test]
fn next_sibling_in_an_open_node() {
    let doc = SexpParser::from(String::from("(a (b 1"));
    let mut iter = doc.iter();
    assert_eq!(iter.next(), start("a"));
    assert_eq!(iter.next(), start("b"));
    assert_eq!(iter.next_siebling(), None);
}

#[test]
fn tree_from_tokens() {
    let doc = SexpParser::from(String::from("(a 1 \"two\" (b 3) (c (d)) 4)"));
    let tree = SexpTree::from(doc.iter()).unwrap();
    let root = tree.root().unwrap();
    assert_eq!(root.name, "a");
    assert_eq!(root.nodes.len(), 5);
    assert_eq!(root.nodes[0], SexpAtom::Value("1".to_string()));
    assert_eq!(root.nodes[1], SexpAtom::Text("two".to_string()));
    assert_eq!(root.values(), vec!["1".to_string(), "two".to_string(), "4".to_string()]);
    let children = root.nodes();
    assert_eq!(children.len(), 2);
    assert_eq!(children[0].name, "b");
    assert_eq!(children[1].name, "c");
    assert_eq!(children[1].nodes().len(), 1);
    assert_eq!(root.query("b").len(), 1);
    assert_eq!(root.query("x").len(), 0);
    assert_eq!(root.first("b"), Some("3".to_string()));
    assert_eq!(root.first("c"), None);
    assert_eq!(root.get(1), Some("two".to_string()));
    assert_eq!(root.get(3), None);
}

#[test]
fn tree_needs_a_start() {
    let doc = SexpParser::from(String::from("no brackets here"));
    assert!(SexpTree::from(doc.iter()).is_err());
    let doc = SexpParser::from(String::new());
    assert!(SexpTree::from(doc.iter()).is_err());
    assert!(Builder::new().sexp().is_err());
    let mut b = Builder::new();
    b.value("x");
    assert!(b.sexp().is_err());
}

#[test]
fn open_document_gives_innermost_node() {
    let doc = SexpParser::from(String::from("(a (b 1 "));
    let tree = SexpTree::from(doc.iter()).unwrap();
    assert_eq!(tree.root().unwrap().name, "b");
}

#[test]
fn builder_and_parser_agree() {
    let mut b = Builder::new();
    b.push("kicad_sch");
    b.push("version");
    b.value("20211123");
    b.end();
    b.push("paper");
    b.text("A4");
    b.end();
    b.end();
    assert_eq!(b.level, 0);
    let built = b.sexp().unwrap();
    let doc = SexpParser::from(String::from("(kicad_sch (version 20211123) (paper \"A4\"))"));
    let parsed = SexpTree::from(doc.iter()).unwrap();
    assert_eq!(built, parsed);
}

#[test]
fn write_document_text() {
    let doc = SexpParser::from(String::from("(a 1 (b \"x\" (c)) (d 2))"));
    let tree = SexpTree::from(doc.iter()).unwrap();
    let mut out = String::new();
    tree.write(&mut out);
    assert_eq!(out, "(a 1\n\t(b \"x\"\n\t\t(c)\n\t)\n\t(d 2)\n)");
    let mut out = String::new();
    let has = tree.root().unwrap().write(0, &mut out);
    assert!(has);
    assert_eq!(out, "\n(a 1\n(b \"x\"\n\t(c)\n)\n(d 2)\n)");
}
