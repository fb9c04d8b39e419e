//! Low level access to the nodes of library symbols in a document, and the
//! plain text form of a document.

use crate::number::{parse_unsigned, parse_unsigned_spec};
use crate::schema_reader::child;
use crate::sexp::{named, value_at, Atom, Sexp, SexpAtom, Tree};
use crate::strings::str_eq;
use vstd::prelude::*;
use vstd::string::StringExecFns;

verus! {

/// Kicad schema file version
pub const KICAD_SCHEMA_VERSION: &'static str = "20211123";

/// Kicad schema generator name.
pub const KICAD_SCHEMA_GENERATOR: &'static str = "elektron";

/// The pattern of a unit identifier: a name, the unit number and the style
/// number, with `_` between them.
pub const UNIT_PATTERN: &'static str = "^.*_(\\d*)_(\\d*)$";

/// Enum of sexp error results.
#[derive(Debug, Clone)]
pub enum Error {
    /// Can not manipulate file.
    SexpError(String, String),
    /// Can not load content.
    IoError(String, String),
    /// Library not found.
    LibraryNotFound(String),
}

impl Error {
    /// The text of an error.
    pub open spec fn text_spec(self) -> Seq<char> {
        match self {
            Error::SexpError(a, b) => a@ + seq![':'] + b@,
            Error::IoError(a, b) => "Can not load content: '"@ + a@ + "' ("@ + b@ + seq![')'],
            Error::LibraryNotFound(a) => "Library not found "@ + a@ + seq!['.'],
        }
    }

    /// The message of the error.
    pub fn to_string(&self) -> (r: String)
        ensures
            r@ == self.text_spec(),
    {
        let mut out = String::new();
        match self {
            Error::SexpError(a, b) => {
                out.append(a.as_str());
                out.push(':');
                out.append(b.as_str());
                assert(out@ =~= self.text_spec());
            },
            Error::IoError(a, b) => {
                out.append("Can not load content: '");
                out.append(a.as_str());
                out.append("' (");
                out.append(b.as_str());
                out.push(')');
                assert(out@ =~= self.text_spec());
            },
            Error::LibraryNotFound(a) => {
                out.append("Library not found ");
                out.append(a.as_str());
                out.push('.');
                assert(out@ =~= self.text_spec());
            },
        }
        out
    }
}

/// Graphical styles for a symbol pin.
#[derive(Debug, PartialEq, Eq, Clone, Copy, Structural)]
pub enum PinGraphicalStyle {
    Line,
    Inverted,
    Clock,
    InvertedClock,
    InputLow,
    ClockLow,
    OutputLow,
    EdgeClockHigh,
    NonLogic,
}

impl PinGraphicalStyle {
    /// The style that a name stands for.
    pub open spec fn from_name_spec(s: Seq<char>) -> Option<PinGraphicalStyle> {
        if s == "line"@ {
            Some(Self::Line)
        } else if s == "inverted"@ {
            Some(Self::Inverted)
        } else if s == "clock"@ {
            Some(Self::Clock)
        } else if s == "inverted_clock"@ {
            Some(Self::InvertedClock)
        } else if s == "input_low"@ {
            Some(Self::InputLow)
        } else if s == "clock_low"@ {
            Some(Self::ClockLow)
        } else if s == "output_low"@ {
            Some(Self::OutputLow)
        } else if s == "edge_clock_high"@ {
            Some(Self::EdgeClockHigh)
        } else if s == "non_logic"@ {
            Some(Self::NonLogic)
        } else {
            None
        }
    }

    /// Get the pin graphical style from its name; `None` for an unknown
    /// name.
    pub fn from_name(pin_type: &str) -> (r: Option<PinGraphicalStyle>)
        ensures
            r == Self::from_name_spec(pin_type@),
    {
        if str_eq(pin_type, "line") {
            Some(Self::Line)
        } else if str_eq(pin_type, "inverted") {
            Some(Self::Inverted)
        } else if str_eq(pin_type, "clock") {
            Some(Self::Clock)
        } else if str_eq(pin_type, "inverted_clock") {
            Some(Self::InvertedClock)
        } else if str_eq(pin_type, "input_low") {
            Some(Self::InputLow)
        } else if str_eq(pin_type, "clock_low") {
            Some(Self::ClockLow)
        } else if str_eq(pin_type, "output_low") {
            Some(Self::OutputLow)
        } else if str_eq(pin_type, "edge_clock_high") {
            Some(Self::EdgeClockHigh)
        } else if str_eq(pin_type, "non_logic") {
            Some(Self::NonLogic)
        } else {
            None
        }
    }

    /// The name of a style.
    pub open spec fn name_spec(self) -> Seq<char> {
        match self {
            Self::Line => "line"@,
            Self::Inverted => "inverted"@,
            Self::Clock => "clock"@,
            Self::InvertedClock => "inverted_clock"@,
            Self::InputLow => "input_low"@,
            Self::ClockLow => "clock_low"@,
            Self::OutputLow => "output_low"@,
            Self::EdgeClockHigh => "edge_clock_high"@,
            Self::NonLogic => "non_logic"@,
        }
    }

    /// Display pin graphical style.
    pub fn to_string(&self) -> (r: String)
        ensures
            r@ == self.name_spec(),
    {
        match self {
            Self::Line => "line".to_string(),
            Self::Inverted => "inverted".to_string(),
            Self::Clock => "clock".to_string(),
            Self::InvertedClock => "inverted_clock".to_string(),
            Self::InputLow => "input_low".to_string(),
            Self::ClockLow => "clock_low".to_string(),
            Self::OutputLow => "output_low".to_string(),
            Self::EdgeClockHigh => "edge_clock_high".to_string(),
            Self::NonLogic => "non_logic".to_string(),
        }
    }
}

/// What the regular expression `pattern` captures in its group `group`
/// where it first matches `text`: `None` if the pattern is no regular
/// expression, if it does not match, or if the group takes no part in the
/// match.
pub uninterp spec fn regex_capture(pattern: Seq<char>, text: Seq<char>, group: nat) -> Option<
    Seq<char>,
>;

/// `Regex::new`, `Regex::captures` and `Captures::get` of the regex crate:
/// the text that the group captures in the first match of the pattern.
#[verifier::external_body]
fn capture_group(pattern: &str, text: &str, group: usize) -> (r: Option<String>)
    ensures
        match r {
            Some(s) => regex_capture(pattern@, text@, group as nat) == Some(s@),
            None => regex_capture(pattern@, text@, group as nat) is None,
        },
{
    match regex::Regex::new(pattern) {
        Ok(re) => re.captures(text).and_then(|c| c.get(group)).map(|m| m.as_str().to_string()),
        Err(_) => None,
    }
}

/// The unit number that a captured unit field stands for: 0 where nothing
/// was captured, the number that the digits write, and none if they write
/// no 32-bit number.
pub open spec fn unit_of_capture(capture: Option<Seq<char>>) -> Option<usize> {
    match capture {
        None => Some(0usize),
        Some(digits) => match parse_unsigned_spec(digits, 0xffff_ffff) {
            Some(n) => Some(n as usize),
            None => None,
        },
    }
}

/// The unit number that a captured unit field stands for.
pub fn unit_from_capture(capture: &Option<String>) -> (r: Option<usize>)
    ensures
        r == unit_of_capture(
            match *capture {
                Some(s) => Some(s@),
                None => None,
            },
        ),
{
    match capture {
        None => Some(0),
        Some(digits) => match parse_unsigned(digits.as_str(), 0xffff_ffff) {
            Some(n) => Some(n as usize),
            None => None,
        },
    }
}

/// extract the unit number from the subsymbol name: the field before the
/// last, which the unit pattern captures; 0 if the name is no unit
/// identifier, and none if the field is no number.
pub fn unit_number(name: String) -> (r: Option<usize>)
    ensures
        r == unit_of_capture(regex_capture(UNIT_PATTERN@, name@, 1)),
{
    let capture = capture_group(UNIT_PATTERN, name.as_str(), 1);
    unit_from_capture(&capture)
}

/// The number of a pin node: the first value of its `number` node.
pub open spec fn pin_number(pin: Tree) -> Option<Seq<char>> {
    match child(pin, "number"@) {
        Some(n) => value_at(n, 0),
        None => None,
    }
}

/// Whether the pin `k` of the unit `u` is the first pin node with the
/// number, in the order of the `symbol` nodes and, within one, of its `pin`
/// nodes.
pub open spec fn first_pin_node(root: Tree, number: Seq<char>, u: int, k: int) -> bool {
    let units = named(root.nodes, "symbol"@);
    &&& 0 <= u < units.len()
    &&& 0 <= k < named(units[u].nodes, "pin"@).len()
    &&& pin_number(named(units[u].nodes, "pin"@)[k]) == Some(number)
    &&& forall|j: int|
        0 <= j < k ==> pin_number(#[trigger] named(units[u].nodes, "pin"@)[j]) != Some(number)
    &&& forall|v: int, j: int|
        0 <= v < u && 0 <= j < named(units[v].nodes, "pin"@).len() ==> pin_number(
            #[trigger] named(units[v].nodes, "pin"@)[j],
        ) != Some(number)
}

/// Whether no pin node has the number.
pub open spec fn no_pin_node(root: Tree, number: Seq<char>) -> bool {
    let units = named(root.nodes, "symbol"@);
    forall|v: int, j: int|
        0 <= v < units.len() && 0 <= j < named(units[v].nodes, "pin"@).len() ==> pin_number(
            #[trigger] named(units[v].nodes, "pin"@)[j],
        ) != Some(number)
}

/// get a pin of a library symbol: the first pin node with the number.
pub fn pin<'a>(root: &'a Sexp, number: &str) -> (r: Option<&'a Sexp>)
    ensures
        match r {
            Some(p) => exists|u: int, k: int|
                first_pin_node(root@, number@, u, k) && p@ == named(
                    named(root@.nodes, "symbol"@)[u].nodes,
                    "pin"@,
                )[k],
            None => no_pin_node(root@, number@),
        },
{
    let units = root.query("symbol");
    let ghost all = named(root@.nodes, "symbol"@);
    let mut u: usize = 0;
    while u < units.len()
        invariant
            u <= units.len(),
            all == named(root@.nodes, "symbol"@),
            units@.len() == all.len(),
            forall|i: int| 0 <= i < units@.len() ==> (#[trigger] units@[i])@ == all[i],
            forall|v: int, j: int|
                0 <= v < u && 0 <= j < named(all[v].nodes, "pin"@).len() ==> pin_number(
                    #[trigger] named(all[v].nodes, "pin"@)[j],
                ) != Some(number@),
        decreases units.len() - u,
    {
        assert(units@[u as int]@ == all[u as int]);
        let pins = units[u].query("pin");
        let ghost these = named(all[u as int].nodes, "pin"@);
        let mut k: usize = 0;
        while k < pins.len()
            invariant
                k <= pins.len(),
                u < units.len(),
                all == named(root@.nodes, "symbol"@),
                units@.len() == all.len(),
                these == named(all[u as int].nodes, "pin"@),
                pins@.len() == these.len(),
                forall|i: int| 0 <= i < pins@.len() ==> (#[trigger] pins@[i])@ == these[i],
                forall|j: int| 0 <= j < k ==> pin_number(#[trigger] these[j]) != Some(number@),
                forall|v: int, j: int|
                    0 <= v < u && 0 <= j < named(all[v].nodes, "pin"@).len() ==> pin_number(
                        #[trigger] named(all[v].nodes, "pin"@)[j],
                    ) != Some(number@),
            decreases pins.len() - k,
        {
            assert(pins@[k as int]@ == these[k as int]);
            if let Some(n) = crate::schema_reader::child_of(pins[k], "number") {
                if let Some(v) = n.get(0) {
                    if str_eq(number, v.as_str()) {
                        assert(first_pin_node(root@, number@, u as int, k as int));
                        return Some(pins[k]);
                    }
                }
            }
            k += 1;
        }
        u += 1;
    }
    None
}

/// Whether a `symbol` node belongs to the unit: every node belongs to the
/// unit 0, and the node of the unit 0 or of no unit belongs to every unit.
/// A node whose name has a unit field that is no number belongs to none.
pub open spec fn belongs_to(unit_node: Tree, unit: usize) -> bool {
    match value_at(unit_node, 0) {
        None => false,
        Some(name) => match unit_of_capture(regex_capture(UNIT_PATTERN@, name, 1)) {
            None => false,
            Some(number) => unit == 0 || number == 0 || number == unit,
        },
    }
}

/// The `pin` nodes of the `symbol` nodes that belong to the unit.
pub open spec fn unit_pin_nodes(units: Seq<Tree>, unit: usize) -> Seq<Tree>
    decreases units.len(),
{
    if units.len() == 0 {
        Seq::empty()
    } else if belongs_to(units.last(), unit) {
        unit_pin_nodes(units.drop_last(), unit) + named(units.last().nodes, "pin"@)
    } else {
        unit_pin_nodes(units.drop_last(), unit)
    }
}

/// get all the pins of a library symbol: the `pin` nodes of the `symbol`
/// nodes that belong to the unit, in order.
///
/// Fails with `SexpError` if there is none.
pub fn pins<'a>(root: &'a Sexp, unit: usize) -> (r: Result<Vec<&'a Sexp>, Error>)
    ensures
        match r {
            Ok(items) => items@.len() > 0 && items@.len() == unit_pin_nodes(
                named(root@.nodes, "symbol"@),
                unit,
            ).len() && forall|i: int|
                0 <= i < items@.len() ==> (#[trigger] items@[i])@ == unit_pin_nodes(
                    named(root@.nodes, "symbol"@),
                    unit,
                )[i],
            Err(e) => unit_pin_nodes(named(root@.nodes, "symbol"@), unit).len() == 0 && e
                is SexpError,
        },
{
    let units = root.query("symbol");
    let ghost all = named(root@.nodes, "symbol"@);
    let mut items: Vec<&'a Sexp> = Vec::new();
    let mut u: usize = 0;
    assert(all.take(0) =~= Seq::<Tree>::empty());
    while u < units.len()
        invariant
            u <= units.len(),
            units@.len() == all.len(),
            forall|i: int| 0 <= i < units@.len() ==> (#[trigger] units@[i])@ == all[i],
            items@.len() == unit_pin_nodes(all.take(u as int), unit).len(),
            forall|i: int|
                0 <= i < items@.len() ==> (#[trigger] items@[i])@ == unit_pin_nodes(
                    all.take(u as int),
                    unit,
                )[i],
        decreases units.len() - u,
    {
        assert(units@[u as int]@ == all[u as int]);
        assert(all.take(u + 1).drop_last() =~= all.take(u as int));
        assert(all.take(u + 1).last() == all[u as int]);
        let belongs = match units[u].get(0) {
            None => false,
            Some(name) => match unit_number(name) {
                None => false,
                Some(number) => unit == 0 || number == 0 || number == unit,
            },
        };
        if belongs {
            let found = units[u].query("pin");
            let ghost these = named(all[u as int].nodes, "pin"@);
            let ghost before = unit_pin_nodes(all.take(u as int), unit);
            let mut k: usize = 0;
            while k < found.len()
                invariant
                    k <= found.len(),
                    found@.len() == these.len(),
                    forall|i: int| 0 <= i < found@.len() ==> (#[trigger] found@[i])@ == these[i],
                    items@.len() == before.len() + k,
                    forall|i: int| 0 <= i < before.len() ==> (#[trigger] items@[i])@ == before[i],
                    forall|i: int|
                        0 <= i < k ==> (#[trigger] items@[before.len() + i])@ == these[i],
                decreases found.len() - k,
            {
                items.push(found[k]);
                k += 1;
            }
            assert(belongs_to(all[u as int], unit));
            assert(unit_pin_nodes(all.take(u + 1), unit) == before + these);
            assert forall|i: int| 0 <= i < items@.len() implies (#[trigger] items@[i])@ == (before
                + these)[i] by {
                if i >= before.len() {
                    assert(items@[before.len() + (i - before.len())]@ == these[i - before.len()]);
                }
            }
        } else {
            assert(!belongs_to(all[u as int], unit));
        }
        u += 1;
    }
    assert(all.take(u as int) =~= all);
    if items.len() == 0 {
        let name = match root.get(0) {
            Some(n) => n,
            None => String::new(),
        };
        Err(Error::SexpError(name, crate::number::decimal_string(unit as u64)))
    } else {
        Ok(items)
    }
}

/// The child nodes whose first value is the identifier.
pub open spec fn with_identifier(nodes: Seq<Tree>, lib_id: Seq<char>) -> Seq<Tree>
    decreases nodes.len(),
{
    if nodes.len() == 0 {
        Seq::empty()
    } else if value_at(nodes.last(), 0) == Some(lib_id) {
        with_identifier(nodes.drop_last(), lib_id).push(nodes.last())
    } else {
        with_identifier(nodes.drop_last(), lib_id)
    }
}

/// The library symbol node with the identifier, if the `lib_symbols` node
/// of the document holds exactly one.
pub open spec fn library_node(root: Tree, lib_id: Seq<char>) -> Option<Tree> {
    match child(root, "lib_symbols"@) {
        None => None,
        Some(libs) => {
            let found = with_identifier(crate::sexp::child_trees(libs.nodes), lib_id);
            if found.len() == 1 {
                Some(found[0])
            } else {
                None
            }
        },
    }
}

/// get the library from the schema document.
pub fn get_library<'a>(root: &'a Sexp, lib_id: &str) -> (r: Option<&'a Sexp>)
    ensures
        match r {
            Some(l) => library_node(root@, lib_id@) == Some(l@),
            None => library_node(root@, lib_id@) is None,
        },
{
    let Some(libraries) = crate::schema_reader::child_of(root, "lib_symbols") else {
        return None;
    };
    let nodes = libraries.nodes();
    let ghost all = crate::sexp::child_trees(libraries@.nodes);
    let mut found: Vec<&'a Sexp> = Vec::new();
    let mut i: usize = 0;
    assert(all.take(0) =~= Seq::<Tree>::empty());
    while i < nodes.len()
        invariant
            i <= nodes.len(),
            nodes@.len() == all.len(),
            forall|k: int| 0 <= k < nodes@.len() ==> (#[trigger] nodes@[k])@ == all[k],
            found@.len() == with_identifier(all.take(i as int), lib_id@).len(),
            forall|k: int|
                0 <= k < found@.len() ==> (#[trigger] found@[k])@ == with_identifier(
                    all.take(i as int),
                    lib_id@,
                )[k],
        decreases nodes.len() - i,
    {
        assert(nodes@[i as int]@ == all[i as int]);
        assert(all.take(i + 1).drop_last() =~= all.take(i as int));
        assert(all.take(i + 1).last() == all[i as int]);
        if let Some(identifier) = nodes[i].get(0) {
            if str_eq(identifier.as_str(), lib_id) {
                found.push(nodes[i]);
            }
        }
        i += 1;
    }
    assert(all.take(i as int) =~= all);
    if found.len() == 1 {
        Some(found[0])
    } else {
        None
    }
}

/// Whether a node with the name stays on the line of the node around it.
pub open spec fn stays_on_line(name: Seq<char>) -> bool {
    name == "at"@ || name == "pin_names"@ || name == "offset"@ || name == "in_bom"@ || name
        == "on_board"@ || name == "font"@ || name == "size"@ || name == "justify"@ || name
        == "lib_id"@ || name == "effects"@ || name == "width"@ || name == "type"@ || name
        == "length"@
}

/// Whether a node with the name stays on the line of the node around it.
fn on_line(name: &str) -> (r: bool)
    ensures
        r == stays_on_line(name@),
{
    str_eq(name, "at") || str_eq(name, "pin_names") || str_eq(name, "offset") || str_eq(
        name,
        "in_bom",
    ) || str_eq(name, "on_board") || str_eq(name, "font") || str_eq(name, "size") || str_eq(
        name,
        "justify",
    ) || str_eq(name, "lib_id") || str_eq(name, "effects") || str_eq(name, "width") || str_eq(
        name,
        "type",
    ) || str_eq(name, "length")
}

/// Two blanks for each level.
pub open spec fn blanks(indent: usize) -> Seq<char> {
    Seq::new((indent * 2) as nat, |i: int| ' ')
}

/// The next level of indentation.
pub open spec fn below(indent: usize) -> usize {
    if indent < usize::MAX {
        (indent + 1) as usize
    } else {
        indent
    }
}

/// Whether a node at a level begins a line of its own.
pub open spec fn begins_line(tree: Tree, indent: usize) -> bool {
    indent > 0 && !stays_on_line(tree.name)
}

/// Whether one of the child nodes begins a line of its own.
pub open spec fn has_line(nodes: Seq<Atom>, indent: usize) -> bool
    decreases nodes,
{
    if nodes.len() == 0 {
        false
    } else {
        has_line(nodes.drop_last(), indent) || (match nodes.last() {
            Atom::Node(t) => begins_line(t, below(indent)),
            _ => false,
        })
    }
}

/// The plain text of the elements of a node.
pub open spec fn plain_atoms(nodes: Seq<Atom>, indent: usize) -> Seq<char>
    decreases nodes,
{
    if nodes.len() == 0 {
        Seq::empty()
    } else {
        plain_atoms(nodes.drop_last(), indent) + (match nodes.last() {
            Atom::Node(t) => plain_text(t, below(indent)),
            Atom::Value(v) => seq![' '] + v,
            Atom::Text(t) => seq![' ', '"'] + t + seq!['"'],
        })
    }
}

/// The plain text of a node at a level of indentation. Below the outermost
/// level a node begins a line of its own, indented by two blanks for each
/// level, unless its name is one of those that stay on the line. The closing
/// bracket of such a node stands on a line of its own if one of its child
/// nodes begins a line; the outermost node is closed on a line of its own.
pub open spec fn plain_text(tree: Tree, indent: usize) -> Seq<char>
    decreases tree,
{
    (if indent == 0 {
        Seq::empty()
    } else if stays_on_line(tree.name) {
        seq![' ']
    } else {
        seq!['\n'] + blanks(indent)
    }) + seq!['('] + tree.name + plain_atoms(tree.nodes, indent) + (if has_line(
        tree.nodes,
        indent,
    ) && begins_line(tree, indent) {
        seq!['\n'] + blanks(indent) + seq![')']
    } else if indent == 0 {
        seq!['\n', ')', '\n']
    } else {
        seq![')']
    })
}

/// Appends two blanks for each level.
fn write_blanks(out: &mut String, indent: usize)
    ensures
        final(out)@ == old(out)@ + blanks(indent),
{
    let mut i: usize = 0;
    while i < indent
        invariant
            i <= indent,
            out@ == old(out)@ + Seq::new((i * 2) as nat, |k: int| ' '),
        decreases indent - i,
    {
        out.push(' ');
        out.push(' ');
        assert(out@ =~= old(out)@ + Seq::new(((i + 1) * 2) as nat, |k: int| ' '));
        i += 1;
    }
}

/// Write the document to a text.
pub trait SexpWriter {
    /// Appends the plain text of the node at a level of indentation, and
    /// says whether the node begins a line of its own.
    fn write(&self, out: &mut String, indent: usize) -> bool;
}

/// A node that is written as plain text.
pub struct Plain<'a>(pub &'a Sexp);

impl<'a> SexpWriter for Plain<'a> {
    fn write(&self, out: &mut String, indent: usize) -> (has_new_line: bool)
        ensures
            final(out)@ == old(out)@ + plain_text(self.0@, indent),
            has_new_line == begins_line(self.0@, indent),
    {
        write_plain(self.0, out, indent)
    }
}

/// Appends the plain text of a node at a level of indentation, and says
/// whether the node begins a line of its own.
#[verifier::rlimit(50)]
pub fn write_plain(node: &Sexp, out: &mut String, indent: usize) -> (has_new_line: bool)
    ensures
        final(out)@ == old(out)@ + plain_text(node@, indent),
        has_new_line == begins_line(node@, indent),
    decreases node,
{
    let mut has_new_line = false;
    let mut has_children = false;
    if indent > 0 {
        if on_line(node.name.as_str()) {
            out.push(' ');
        } else {
            has_new_line = true;
            out.push('\n');
            write_blanks(out, indent);
        }
    }
    out.push('(');
    out.append(node.name.as_str());
    let ghost head = old(out)@ + (if indent == 0 {
        Seq::empty()
    } else if stays_on_line(node@.name) {
        seq![' ']
    } else {
        seq!['\n'] + blanks(indent)
    }) + seq!['('] + node@.name;
    assert(out@ =~= head);
    let ghost atoms = node@.nodes;
    let mut i: usize = 0;
    assert(atoms.take(0) =~= Seq::<Atom>::empty());
    assert(out@ =~= head + plain_atoms(atoms.take(0), indent));
    while i < node.nodes.len()
        invariant
            i <= node.nodes.len(),
            atoms == node@.nodes,
            atoms.len() == node.nodes@.len(),
            out@ == head + plain_atoms(atoms.take(i as int), indent),
            has_children == has_line(atoms.take(i as int), indent),
        decreases node.nodes.len() - i,
    {
        let ghost now = atoms.take(i + 1);
        assert(now.drop_last() =~= atoms.take(i as int));
        assert(now.last() == atoms[i as int]);
        assert(atoms[i as int] == node.nodes@[i as int]@);
        let ghost so_far = out@;
        match &node.nodes[i] {
            SexpAtom::Node(sub) => {
                let deeper: usize = if indent < usize::MAX {
                    indent + 1
                } else {
                    indent
                };
                let line = write_plain(sub, out, deeper);
                has_children = has_children || line;
            },
            SexpAtom::Value(value) => {
                out.push(' ');
                out.append(value.as_str());
                assert(out@ =~= so_far + (seq![' '] + value@));
            },
            SexpAtom::Text(value) => {
                out.push(' ');
                out.push('"');
                out.append(value.as_str());
                out.push('"');
                assert(out@ =~= so_far + (seq![' ', '"'] + value@ + seq!['"']));
            },
        }
        assert(out@ =~= head + plain_atoms(now, indent));
        i += 1;
    }
    assert(atoms.take(i as int) =~= atoms);
    let ghost body = out@;
    if has_children && has_new_line {
        out.push('\n');
        write_blanks(out, indent);
        out.push(')');
        assert(out@ =~= body + (seq!['\n'] + blanks(indent) + seq![')']));
    } else if indent == 0 {
        out.push('\n');
        out.push(')');
        out.push('\n');
        assert(out@ =~= body + seq!['\n', ')', '\n']);
    } else {
        out.push(')');
        assert(out@ =~= body + seq![')']);
    }
    assert(out@ =~= old(out)@ + plain_text(node@, indent));
    has_new_line
}

/// The index of the first colon among the characters, or their number
/// where there is none.
pub open spec fn colon(s: Seq<char>) -> int
    decreases s.len(),
{
    if s.len() == 0 || s[0] == ':' {
        0
    } else {
        1 + colon(s.drop_first())
    }
}

/// The first colon stands where no colon stands before.
pub proof fn lemma_colon(s: Seq<char>, i: int)
    requires
        0 <= i <= s.len(),
        forall|k: int| 0 <= k < i ==> s[k] != ':',
        i == s.len() || s[i] == ':',
    ensures
        colon(s) == i,
    decreases i,
{
    if i > 0 {
        lemma_colon(s.drop_first(), i - 1);
    }
}

/// The name of the library in the name of a symbol: what stands before the
/// first colon.
pub open spec fn library_name(name: Seq<char>) -> Seq<char> {
    name.take(colon(name))
}

/// The name that a symbol has in its library: what stands between the
/// first colon of its name and the next, or the end. A name without a colon
/// has none.
pub open spec fn symbol_name(name: Seq<char>) -> Option<Seq<char>> {
    if colon(name) >= name.len() {
        None
    } else {
        Some(library_name(name.skip(colon(name) + 1)))
    }
}

/// The index of the first colon from an index on.
fn find_colon(v: &Vec<char>, from: usize) -> (r: usize)
    requires
        from <= v.len(),
    ensures
        r == from + colon(v@.skip(from as int)),
        from <= r <= v.len(),
{
    let mut i: usize = from;
    while i < v.len() && v[i] != ':'
        invariant
            from <= i <= v.len(),
            forall|k: int| from <= k < i ==> v@[k] != ':',
        decreases v.len() - i,
    {
        i += 1;
    }
    proof {
        lemma_colon(v@.skip(from as int), i - from);
    }
    i
}

/// The name of the library and the name of the symbol in it.
pub fn split_name(name: &str) -> (r: Option<(String, String)>)
    ensures
        match r {
            Some(p) => p.0@ == library_name(name@) && symbol_name(name@) == Some(p.1@),
            None => symbol_name(name@) is None,
        },
{
    let chars = crate::strings::chars_of(name);
    let first = find_colon(&chars, 0);
    assert(chars@.skip(0) =~= chars@);
    if first >= chars.len() {
        return None;
    }
    let next = find_colon(&chars, first + 1);
    let library = crate::strings::string_of(&chars, 0, first);
    let symbol = crate::strings::string_of(&chars, first + 1, next);
    assert(chars@.subrange(0, first as int) =~= chars@.take(first as int));
    assert(chars@.subrange(first + 1, next as int) =~= library_name(chars@.skip(first + 1)));
    Some((library, symbol))
}

/// The file in which a directory holds the library of a symbol. A name
/// without a colon names no file.
pub fn library_file(path: &str, name: &str) -> (r: Option<String>)
    ensures
        match r {
            Some(f) => symbol_name(name@) is Some && f@ == path@ + "/"@ + library_name(name@)
                + ".kicad_sym"@,
            None => symbol_name(name@) is None,
        },
{
    match split_name(name) {
        Some(p) => {
            let mut file = path.to_string();
            vstd::string::StringExecFns::append(&mut file, "/");
            vstd::string::StringExecFns::append(&mut file, p.0.as_str());
            vstd::string::StringExecFns::append(&mut file, ".kicad_sym");
            Some(file)
        },
        None => None,
    }
}

/// The index of the first of the nodes whose first value is the name, or
/// their number where there is none.
pub open spec fn first_called(nodes: Seq<Tree>, sym: Seq<char>) -> int
    decreases nodes.len(),
{
    if nodes.len() == 0 || value_at(nodes[0], 0) == Some(sym) {
        0
    } else {
        1 + first_called(nodes.drop_first(), sym)
    }
}

/// The first node with the name stands where none stands before.
pub proof fn lemma_first_called(nodes: Seq<Tree>, sym: Seq<char>, i: int)
    requires
        0 <= i <= nodes.len(),
        forall|k: int| 0 <= k < i ==> value_at(#[trigger] nodes[k], 0) != Some(sym),
        i == nodes.len() || value_at(nodes[i], 0) == Some(sym),
    ensures
        first_called(nodes, sym) == i,
    decreases i,
{
    if i > 0 {
        if i < nodes.len() {
            assert(nodes.drop_first()[i - 1] == nodes[i]);
        }
        assert forall|k: int| 0 <= k < i - 1 implies value_at(
            #[trigger] nodes.drop_first()[k],
            0,
        ) != Some(sym) by {
            assert(nodes.drop_first()[k] == nodes[k + 1]);
        }
        lemma_first_called(nodes.drop_first(), sym, i - 1);
    }
}

/// The symbol with a name in the document of a library: the first `symbol`
/// node whose first value is the name of the symbol in the library, with
/// the whole name as a text in the place of that value.
pub open spec fn library_in(root: Tree, name: Seq<char>) -> Option<Tree> {
    match symbol_name(name) {
        None => None,
        Some(sym) => {
            let nodes = named(root.nodes, "symbol"@);
            let i = first_called(nodes, sym);
            if i < nodes.len() {
                Some(
                    Tree {
                        name: nodes[i].name,
                        nodes: nodes[i].nodes.update(
                            crate::sexp::value_place(nodes[i].nodes, 0)->Some_0,
                            Atom::Text(name),
                        ),
                    },
                )
            } else {
                None
            }
        },
    }
}

/// The library symbol with a name in the document of its library.
pub fn library_symbol(root: &Sexp, name: &str) -> (r: Option<Sexp>)
    ensures
        match r {
            Some(s) => library_in(root@, name@) == Some(s@),
            None => library_in(root@, name@) is None,
        },
{
    let Some(parts) = split_name(name) else {
        return None;
    };
    let nodes = root.query("symbol");
    let ghost all = named(root@.nodes, "symbol"@);
    let mut i: usize = 0;
    while i < nodes.len()
        invariant
            i <= nodes.len(),
            all == named(root@.nodes, "symbol"@),
            nodes@.len() == all.len(),
            symbol_name(name@) == Some(parts.1@),
            forall|k: int| 0 <= k < nodes@.len() ==> (#[trigger] nodes@[k])@ == all[k],
            forall|k: int| 0 <= k < i ==> value_at(#[trigger] all[k], 0) != Some(parts.1@),
        decreases nodes.len() - i,
    {
        assert(nodes@[i as int]@ == all[i as int]);
        if let Some(called) = nodes[i].get(0) {
            if str_eq(called.as_str(), parts.1.as_str()) {
                proof {
                    lemma_first_called(all, parts.1@, i as int);
                    crate::sexp::lemma_value_place_bound(all[i as int].nodes, 0);
                }
                let mut node = nodes[i].copy();
                match node.set(0, SexpAtom::Text(name.to_string())) {
                    Ok(_) => {
                        assert(node@ == library_in(root@, name@)->Some_0);
                        return Some(node);
                    },
                    Err(_) => {
                        return None;
                    },
                }
            }
        }
        i += 1;
    }
    proof {
        lemma_first_called(all, parts.1@, i as int);
    }
    None
}

/// The library symbol with a name in the documents of the libraries: that
/// of the first document that holds it.
pub open spec fn library_among(roots: Seq<Tree>, name: Seq<char>) -> Option<Tree>
    decreases roots.len(),
{
    if roots.len() == 0 {
        None
    } else if library_in(roots[0], name) is Some {
        library_in(roots[0], name)
    } else {
        library_among(roots.drop_first(), name)
    }
}

/// The roots of the documents.
pub open spec fn roots_of(documents: Seq<crate::sexp::SexpTree>) -> Seq<Tree> {
    documents.map_values(|d: crate::sexp::SexpTree| d.tree@)
}

/// load a library symbol from the documents of the libraries, which stand
/// in the order in which the libraries are looked through.
pub fn library(name: &str, documents: &Vec<crate::sexp::SexpTree>) -> (r: Result<Sexp, Error>)
    ensures
        match r {
            Ok(s) => library_among(roots_of(documents@), name@) == Some(s@),
            Err(e) => library_among(roots_of(documents@), name@) is None && (e
                matches Error::LibraryNotFound(n) && n@ == name@),
        },
{
    let ghost roots = roots_of(documents@);
    let mut i: usize = 0;
    assert(roots.skip(0) =~= roots);
    while i < documents.len()
        invariant
            i <= documents.len(),
            roots == roots_of(documents@),
            library_among(roots, name@) == library_among(roots.skip(i as int), name@),
        decreases documents.len() - i,
    {
        assert(roots.skip(i as int)[0] == documents@[i as int].tree@);
        assert(roots.skip(i as int).drop_first() =~= roots.skip(i + 1));
        if let Some(found) = library_symbol(&documents[i].tree, name) {
            return Ok(found);
        }
        i += 1;
    }
    Err(Error::LibraryNotFound(name.to_string()))
}

} // verus!
