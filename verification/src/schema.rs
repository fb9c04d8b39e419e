//! The items of a schematic and the lookups on a schema.

use crate::draw::{At, To};
use crate::gr::{
    Arc, Circle, Color, Curve, Effects, FillType, Line, PaperSize, Polyline, Pos, Property, Pt, Pts,
    Rectangle, Stroke, TitleBlock,
};
use crate::new_uuid;
use crate::strings::str_eq;
use crate::math::pin_place;
use crate::symbols::{pin_of, pin_unit_of, LibrarySymbol};
use crate::{Error, ErrorKind};
use crate::Schema;
use vstd::prelude::*;
use vstd::string::StringExecFns;

verus! {

/// The key of the property that holds a symbol's reference.
pub const PROPERTY_REFERENCE: &'static str = "Reference";

/// The key of the property that holds a symbol's value.
pub const PROPERTY_VALUE: &'static str = "Value";

/// A `Text`in the schema
#[derive(Debug, Clone)]
pub struct Text {
    /// X and Y coordinates of the text.
    pub pos: Pos,
    /// The text to display.
    pub text: String,
    /// Text effects such as font, color, etc.
    pub effects: Effects,
    /// Whether the text is a simulation instruction.
    pub exclude_from_sim: bool,
    /// Universally unique identifier for the text.
    pub uuid: String,
}

/// A `TextBox`in the schema
#[derive(Debug, Clone)]
pub struct TextBox {
    /// X and Y coordinates of the text.
    pub pos: Pos,
    /// The text to display.
    pub text: String,
    /// The width of the text box.
    pub width: i32,
    /// The height of the text box.
    pub height: i32,
    /// Defines how the box is drawn.
    pub stroke: Stroke,
    /// Defines the fill style of the box.
    pub fill: FillType,
    /// Text effects such as font, color, etc.
    pub effects: Effects,
    /// Whether the text is a simulation instruction.
    pub exclude_from_sim: bool,
    /// Universally unique identifier for the text.
    pub uuid: String,
}

/// A junction represents a connection point where multiple wires
/// or components intersect, allowing electrical current to
/// flow between them.
#[derive(Debug, Clone)]
pub struct Junction {
    /// `Pos` defines the X and Y coordinates of the junction.
    pub pos: Pos,
    /// Diameter of the junction; 0 stands for the default diameter.
    pub diameter: i32,
    /// Optional color of the junction.
    pub color: Option<Color>,
    /// Universally unique identifier for the junction.
    pub uuid: String,
}

impl Junction {
    /// A junction at the origin, with the default diameter and a fresh
    /// identifier.
    pub fn new() -> (j: Self)
        ensures
            j.pos == (Pos { x: 0, y: 0, angle: 0 }),
            j.diameter == 0,
            j.color is None,
    {
        Self { pos: Pos { x: 0, y: 0, angle: 0 }, diameter: 0, color: None, uuid: new_uuid() }
    }
}

/// A `Bus` is a group of interconnected wires or connections that distribute
/// signals among multiple devices or components.
#[derive(Debug, Clone)]
pub struct Bus {
    /// The list of X and Y coordinates of start and end points of the bus.
    pub pts: Pts,
    /// Defines how the bus is drawn.
    pub stroke: Stroke,
    /// Universally unique identifier for the bus.
    pub uuid: String,
}

/// `BusEntry` is a component representing an individual pin within
/// a multi-pin connection in a [`Bus`]
#[derive(Debug)]
pub struct BusEntry {
    /// The X and Y coordinates of the junction.
    pub pos: Pos,
    /// The size of the bus entry.
    pub size: (i32, i32),
    /// How the bus is drawn.
    pub stroke: Stroke,
    /// A universally unique identifier for this entry.
    pub uuid: String,
}

/// Wires represent electrical connections between components or points,
/// showing the circuit's interconnections and paths for electric current flow.
#[derive(Debug, Clone)]
pub struct Wire {
    /// The list of X and Y coordinates of start and end points of the wire.
    pub pts: Pts,
    /// Defines how the wire or bus is drawn.
    pub stroke: Stroke,
    /// Universally unique identifier for the wire.
    pub uuid: String,
    /// The drawer attributes of the wire.
    pub attrs: To,
}

impl Wire {
    /// A wire without points and attributes, with a fresh identifier.
    pub fn new() -> (w: Self)
        ensures
            w.pts.0@.len() == 0,
            w.stroke.width == 0,
            w.stroke.stroke_type is None,
            w.stroke.color is None,
            w.attrs.attributes@.len() == 0,
    {
        Self { pts: Pts(Vec::new()), stroke: Stroke::default(), uuid: new_uuid(), attrs: To::new() }
    }
}

/// A `LocalLabel` refers to an identifier assigned to individual
/// components or objects within a specific grouping on the same page.
#[derive(Debug, Clone, PartialEq)]
pub struct LocalLabel {
    /// The text displayed on the label.
    pub text: String,
    /// The position of the label within the schematic.
    pub pos: Pos,
    /// Defines the visual effects applied to the label (e.g., font style, shadow).
    pub effects: Effects,
    /// Optional color for the label. If not provided, a default color will be used.
    pub color: Option<Color>,
    /// Universally unique identifier for the label.
    pub uuid: String,
    /// Specifies whether the fields and positions are automatically populated.
    pub fields_autoplaced: bool,
    /// The drawer attributes of the label.
    pub attrs: To,
}

impl LocalLabel {
    /// A label with the text, at the origin, with a fresh identifier.
    pub fn new(text: &str) -> (l: Self)
        ensures
            l.text@ == text@,
            l.pos == (Pos { x: 0, y: 0, angle: 0 }),
            l.effects.justify@.len() == 0,
            !l.effects.hide,
            l.color is None,
            !l.fields_autoplaced,
            l.attrs.attributes@.len() == 0,
    {
        Self {
            text: text.to_string(),
            pos: Pos { x: 0, y: 0, angle: 0 },
            effects: Effects::default(),
            color: None,
            uuid: new_uuid(),
            fields_autoplaced: false,
            attrs: To::new(),
        }
    }
}

/// A `GlobalLabel` is a custom identifier that can be assigned to
/// multiple objects or components across the entire design.
#[derive(Debug, Clone, PartialEq)]
pub struct GlobalLabel {
    /// The text displayed on the label.
    pub text: String,
    /// Optional shape of the label's container box.
    pub shape: Option<String>,
    /// The position of the label within the schematic.
    pub pos: Pos,
    /// Specifies whether the fields and positions are automatically populated.
    pub fields_autoplaced: bool,
    /// Defines the visual effects applied to the label (e.g., font style, shadow).
    pub effects: Effects,
    /// The list of symbol properties of the schematic global label.
    pub props: Vec<Property>,
    /// Universally unique identifier for the label.
    pub uuid: String,
    /// The drawer attributes of the label.
    pub attrs: To,
}

/// `NoConnect` represents no electrical connection between two points.
#[derive(Debug, Clone)]
pub struct NoConnect {
    /// The X and Y coordinates of the no-connect within the schematic.
    pub pos: Pos,
    /// Universally unique identifier for the no-connect.
    pub uuid: String,
    /// The drawer attributes of the no connect.
    pub attrs: To,
}

impl NoConnect {
    /// A no-connect at the origin, with a fresh identifier.
    pub fn new() -> (n: Self)
        ensures
            n.pos == (Pos { x: 0, y: 0, angle: 0 }),
            n.attrs.attributes@.len() == 0,
    {
        Self { pos: Pos { x: 0, y: 0, angle: 0 }, uuid: new_uuid(), attrs: To::new() }
    }
}

/// A `HierarchicalSheet`  represents a nested or hierarchical
/// grouping of components or objects within a larger schematic.
#[derive(Debug, Clone, PartialEq)]
pub struct HierarchicalSheet {
    /// The position of the sheet within the schematic.
    pub pos: Pos,
    /// The width of the sheet.
    pub width: i32,
    /// The height of the sheet.
    pub height: i32,
    /// Specifies whether the fields and positions are automatically populated.
    pub fields_autoplaced: bool,
    /// Defines the stroke style of the sheet outline.
    pub stroke: Stroke,
    /// Defines the fill style of the sheet.
    pub fill: FillType,
    /// Universally unique identifier for the sheet.
    pub uuid: String,
    /// The list of symbol properties of the schematic symbol.
    pub props: Vec<Property>,
    /// The list of hierarchical pins associated with the sheet.
    pub pins: Vec<HierarchicalPin>,
    /// The list of instances grouped by project.
    pub instances: Vec<ProjectInstance>,
}

/// Represents an instance of a hierarchical sheet within a specific project.
#[derive(Debug, Clone, PartialEq)]
pub struct ProjectInstance {
    /// The name of the project.
    pub project_name: String,
    /// The path to the sheet instance.
    pub path: String,
    /// The page number of the sheet instance.
    pub page_number: String,
}

/// Represents an electrical connection between the sheet in a schematic
/// and the hierarchical label defined in the associated schematic file.
#[derive(Debug, Clone, PartialEq)]
pub struct HierarchicalPin {
    /// The name of the sheet pin.
    pub name: String,
    /// The type of electrical connection made by the sheet pin.
    pub connection_type: ConnectionType,
    /// The position of the pin within the sheet.
    pub pos: Pos,
    /// Defines the visual effects applied to the pin name text.
    pub effects: Effects,
    /// Universally unique identifier for the pin.
    pub uuid: String,
}

/// A Hierarchical Label is a placeholder for an instance within a sub-schema (child schematic)
#[derive(Debug, Clone, PartialEq)]
pub struct HierarchicalLabel {
    /// The text of the hierarchical label.
    pub text: String,
    /// The shape token attribute defines the way the hierarchical label is drawn.
    pub shape: Option<String>,
    /// The position of the pin within the sheet.
    pub pos: Pos,
    /// Specifies whether the fields and positions are automatically populated.
    pub fields_autoplaced: bool,
    /// Defines the visual effects applied to the pin name text.
    pub effects: Effects,
    /// The list of properties of the hierarchical label.
    pub props: Vec<Property>,
    /// Universally unique identifier for the pin.
    pub uuid: String,
}

/// Assigns a user-defined label or category to a net (connection) within an electronic schematic
#[derive(Debug, Clone, PartialEq)]
pub struct NetclassFlag {
    /// The length of the netclass flag.
    pub length: i32,
    /// The name of the netclass.
    pub name: String,
    /// The shape token attribute defines the way the netclass flag is drawn.
    pub shape: Option<String>,
    /// The position of the pin within the sheet.
    pub pos: Pos,
    /// Specifies whether the fields and positions are automatically populated.
    pub fields_autoplaced: bool,
    /// Defines the visual effects applied to the pin name text.
    pub effects: Effects,
    /// The list of properties of the hierarchical label.
    pub props: Vec<Property>,
    /// Universally unique identifier for the pin.
    pub uuid: String,
}

/// Defines the type of electrical connection made by the sheet pin.
#[derive(Debug, Clone, Copy, PartialEq, Eq, Structural)]
pub enum ConnectionType {
    /// Input connection type.
    Input,
    /// Output connection type.
    Output,
    /// Bidirectional connection type.
    Bidirectional,
    /// Tri-state connection type.
    TriState,
    /// Passive connection type.
    Passive,
}

impl ConnectionType {
    /// The connection type that a lower-case name stands for.
    pub open spec fn from_name_spec(s: Seq<char>) -> Option<ConnectionType> {
        if s == "input"@ {
            Some(ConnectionType::Input)
        } else if s == "output"@ {
            Some(ConnectionType::Output)
        } else if s == "bidirectional"@ {
            Some(ConnectionType::Bidirectional)
        } else if s == "tri_state"@ {
            Some(ConnectionType::TriState)
        } else if s == "passive"@ {
            Some(ConnectionType::Passive)
        } else {
            None
        }
    }

    /// The connection type named `input`, `output`, `bidirectional`,
    /// `tri_state` or `passive`; `None` for any other name.
    pub fn from_name(s: &str) -> (r: Option<ConnectionType>)
        ensures
            r == Self::from_name_spec(s@),
    {
        if str_eq(s, "input") {
            Some(ConnectionType::Input)
        } else if str_eq(s, "output") {
            Some(ConnectionType::Output)
        } else if str_eq(s, "bidirectional") {
            Some(ConnectionType::Bidirectional)
        } else if str_eq(s, "tri_state") {
            Some(ConnectionType::TriState)
        } else if str_eq(s, "passive") {
            Some(ConnectionType::Passive)
        } else {
            None
        }
    }

    /// The name of a connection type.
    pub open spec fn name_spec(self) -> Seq<char> {
        match self {
            ConnectionType::Input => "input"@,
            ConnectionType::Output => "output"@,
            ConnectionType::Bidirectional => "bidirectional"@,
            ConnectionType::TriState => "tri_state"@,
            ConnectionType::Passive => "passive"@,
        }
    }

    /// The name of the connection type, as the file format writes it.
    pub fn to_string(&self) -> (r: String)
        ensures
            r@ == self.name_spec(),
    {
        match self {
            ConnectionType::Input => "input".to_string(),
            ConnectionType::Output => "output".to_string(),
            ConnectionType::Bidirectional => "bidirectional".to_string(),
            ConnectionType::TriState => "tri_state".to_string(),
            ConnectionType::Passive => "passive".to_string(),
        }
    }
}

/// The instances token defines a symbol instance.
#[derive(Clone, Debug, PartialEq)]
pub struct Instance {
    pub project: String,
    pub path: String,
    pub reference: String,
    pub unit: u8,
}

/// A schematic `Symbol` representing an instance from the symbols library.
#[derive(Clone, Debug, PartialEq)]
pub struct Symbol {
    /// Library identifier: refers to a symbol in the library's symbol section.
    pub lib_id: String,
    /// The `pos` defines the X and Y coordinates and angle of rotation of the symbol.
    pub pos: Pos,
    /// The `mirror` defines if the symbol is mirrored. The only valid values are x, y, and xy.
    pub mirror: Option<String>,
    /// Which unit in the symbol library definition the schematic symbol represents.
    pub unit: u8,
    /// Whether the schematic symbol appears in any bill of materials output.
    pub in_bom: bool,
    /// Whether the footprint associated with the symbol is exported to the board.
    pub on_board: bool,
    /// Whether the symbol is excluded from simulation.
    pub exclude_from_sim: bool,
    /// Whether the symbol is not to be populated.
    pub dnp: bool,
    /// The universally unique identifier for the symbol.
    pub uuid: String,
    /// The list of symbol properties of the schematic symbol.
    pub props: Vec<Property>,
    /// The list of pins utilized by the symbol: number and identifier.
    pub pins: Vec<(String, String)>,
    /// The list of symbol instances grouped by project.
    pub instances: Vec<Instance>,
    /// The drawer attributes of the symbol.
    pub attrs: To,
}

/// The values of the properties with the key, one after the other.
pub open spec fn property_of(props: Seq<Property>, key: Seq<char>) -> Seq<char>
    decreases props.len(),
{
    if props.len() == 0 {
        Seq::empty()
    } else if props.last().key@ == key {
        property_of(props.drop_last(), key) + props.last().value@
    } else {
        property_of(props.drop_last(), key)
    }
}

impl Symbol {
    /// A symbol of unit 1 at the origin, with the properties `Value` and
    /// `Reference` and a fresh identifier.
    pub fn new(reference: &str, value: &str, lib_id: &str) -> (s: Self)
        ensures
            s.lib_id@ == lib_id@,
            s.pos == (Pos { x: 0, y: 0, angle: 0 }),
            s.mirror is None,
            s.unit == 1,
            s.in_bom,
            s.on_board,
            !s.exclude_from_sim,
            !s.dnp,
            s.props@.len() == 2,
            s.props@[0].key@ == PROPERTY_VALUE@,
            s.props@[0].value@ == value@,
            s.props@[1].key@ == PROPERTY_REFERENCE@,
            s.props@[1].value@ == reference@,
            s.pins@.len() == 0,
            s.instances@.len() == 0,
            s.attrs.attributes@.len() == 0,
    {
        let mut props: Vec<Property> = Vec::new();
        props.push(
            Property {
                key: PROPERTY_VALUE.to_string(),
                value: value.to_string(),
                pos: Pos { x: 0, y: 0, angle: 0 },
                effects: Effects::default(),
            },
        );
        props.push(
            Property {
                key: PROPERTY_REFERENCE.to_string(),
                value: reference.to_string(),
                pos: Pos { x: 0, y: 0, angle: 0 },
                effects: Effects::default(),
            },
        );
        Self {
            lib_id: lib_id.to_string(),
            pos: Pos { x: 0, y: 0, angle: 0 },
            mirror: None,
            unit: 1,
            in_bom: true,
            on_board: true,
            exclude_from_sim: false,
            dnp: false,
            uuid: new_uuid(),
            props,
            pins: Vec::new(),
            instances: Vec::new(),
            attrs: To::new(),
        }
    }

    /// Get a property value by key: the values of all properties with that
    /// key, one after the other; empty if there is none.
    pub fn property(&self, key: &str) -> (r: String)
        ensures
            r@ == property_of(self.props@, key@),
    {
        let mut r = String::new();
        let mut i: usize = 0;
        while i < self.props.len()
            invariant
                i <= self.props.len(),
                r@ == property_of(self.props@.take(i as int), key@),
            decreases self.props.len() - i,
        {
            assert(self.props@.take(i + 1).drop_last() =~= self.props@.take(i as int));
            assert(self.props@.take(i + 1).last() == self.props@[i as int]);
            if str_eq(self.props[i].key.as_str(), key) {
                r.append(self.props[i].value.as_str());
            }
            i += 1;
        }
        assert(self.props@.take(i as int) =~= self.props@);
        r
    }

    /// Gives every property with the key the value, and leaves the others as
    /// they are.
    pub fn set_property(&mut self, key: &str, value: &str)
        ensures
            final(self).props@.len() == old(self).props@.len(),
            forall|i: int|
                0 <= i < old(self).props@.len() ==> {
                    &&& (#[trigger] final(self).props@[i]).key == old(self).props@[i].key
                    &&& final(self).props@[i].pos == old(self).props@[i].pos
                    &&& final(self).props@[i].effects == old(self).props@[i].effects
                    &&& final(self).props@[i].value@ == (if old(self).props@[i].key@ == key@ {
                        value@
                    } else {
                        old(self).props@[i].value@
                    })
                },
            final(self).lib_id == old(self).lib_id,
            final(self).pos == old(self).pos,
            final(self).mirror == old(self).mirror,
            final(self).unit == old(self).unit,
            final(self).in_bom == old(self).in_bom,
            final(self).on_board == old(self).on_board,
            final(self).exclude_from_sim == old(self).exclude_from_sim,
            final(self).dnp == old(self).dnp,
            final(self).uuid == old(self).uuid,
            final(self).pins == old(self).pins,
            final(self).instances == old(self).instances,
            final(self).attrs == old(self).attrs,
    {
        let mut i: usize = 0;
        while i < self.props.len()
            invariant
                i <= self.props.len(),
                self.props@.len() == old(self).props@.len(),
                forall|j: int|
                    0 <= j < i ==> {
                        &&& (#[trigger] self.props@[j]).key == old(self).props@[j].key
                        &&& self.props@[j].pos == old(self).props@[j].pos
                        &&& self.props@[j].effects == old(self).props@[j].effects
                        &&& self.props@[j].value@ == (if old(self).props@[j].key@ == key@ {
                            value@
                        } else {
                            old(self).props@[j].value@
                        })
                    },
                forall|j: int| i <= j < self.props@.len() ==> self.props@[j] == old(self).props@[j],
                self.lib_id == old(self).lib_id,
                self.pos == old(self).pos,
                self.mirror == old(self).mirror,
                self.unit == old(self).unit,
                self.in_bom == old(self).in_bom,
                self.on_board == old(self).on_board,
                self.exclude_from_sim == old(self).exclude_from_sim,
                self.dnp == old(self).dnp,
                self.uuid == old(self).uuid,
                self.pins == old(self).pins,
                self.instances == old(self).instances,
                self.attrs == old(self).attrs,
            decreases self.props.len() - i,
        {
            if str_eq(self.props[i].key.as_str(), key) {
                self.props[i].value = value.to_string();
            }
            i += 1;
        }
    }
}

/// Abstraction of the schema items for iteration
#[derive(Debug)]
pub enum SchemaItem {
    Arc(Arc),
    Bus(Bus),
    BusEntry(BusEntry),
    Circle(Circle),
    Curve(Curve),
    GlobalLabel(GlobalLabel),
    HierarchicalSheet(HierarchicalSheet),
    HierarchicalLabel(HierarchicalLabel),
    Junction(Junction),
    Line(Line),
    LocalLabel(LocalLabel),
    NetclassFlag(NetclassFlag),
    NoConnect(NoConnect),
    Polyline(Polyline),
    Rectangle(Rectangle),
    Symbol(Symbol),
    Text(Text),
    TextBox(TextBox),
    Wire(Wire),
}

/// Whether an item is a placed symbol with the reference.
pub open spec fn has_reference(item: SchemaItem, reference: Seq<char>) -> bool {
    item matches SchemaItem::Symbol(s) && property_of(s.props@, PROPERTY_REFERENCE@) == reference
}

/// Whether an item is the placed symbol with the reference and unit.
pub open spec fn is_symbol(item: SchemaItem, reference: Seq<char>, unit: u8) -> bool {
    item matches SchemaItem::Symbol(s) && s.unit == unit && property_of(
        s.props@,
        PROPERTY_REFERENCE@,
    ) == reference
}

/// Whether `i` is the place of the first placed symbol with the reference
/// and unit.
pub open spec fn first_symbol(items: Seq<SchemaItem>, reference: Seq<char>, unit: u8, i: int) -> bool {
    &&& 0 <= i < items.len()
    &&& is_symbol(items[i], reference, unit)
    &&& forall|j: int| 0 <= j < i ==> !is_symbol(#[trigger] items[j], reference, unit)
}

/// Whether no item is the placed symbol with the reference and unit.
pub open spec fn no_symbol(items: Seq<SchemaItem>, reference: Seq<char>, unit: u8) -> bool {
    forall|j: int| 0 <= j < items.len() ==> !is_symbol(#[trigger] items[j], reference, unit)
}

/// The first placed symbol with the reference and unit.
pub open spec fn symbol_of(items: Seq<SchemaItem>, reference: Seq<char>, unit: u8) -> Option<Symbol> {
    if no_symbol(items, reference, unit) {
        None
    } else {
        Some(items[choose|i: int| first_symbol(items, reference, unit, i)]->Symbol_0)
    }
}

/// The first placed symbol with a reference and unit is at one place only.
pub proof fn lemma_first_symbol_unique(
    items: Seq<SchemaItem>,
    reference: Seq<char>,
    unit: u8,
    i: int,
    j: int,
)
    requires
        first_symbol(items, reference, unit, i),
        first_symbol(items, reference, unit, j),
    ensures
        i == j,
{
    if i < j {
        assert(!is_symbol(items[i], reference, unit));
    }
    if j < i {
        assert(!is_symbol(items[j], reference, unit));
    }
}

/// Whether `i` is the place of the first library symbol with the identifier.
pub open spec fn first_library(libs: Seq<LibrarySymbol>, lib_id: Seq<char>, i: int) -> bool {
    &&& 0 <= i < libs.len()
    &&& libs[i].lib_id@ == lib_id
    &&& forall|j: int| 0 <= j < i ==> (#[trigger] libs[j]).lib_id@ != lib_id
}

/// Whether no library symbol has the identifier.
pub open spec fn no_library(libs: Seq<LibrarySymbol>, lib_id: Seq<char>) -> bool {
    forall|j: int| 0 <= j < libs.len() ==> (#[trigger] libs[j]).lib_id@ != lib_id
}

/// The first library symbol with the identifier.
pub open spec fn library_of(libs: Seq<LibrarySymbol>, lib_id: Seq<char>) -> Option<LibrarySymbol> {
    if no_library(libs, lib_id) {
        None
    } else {
        Some(libs[choose|i: int| first_library(libs, lib_id, i)])
    }
}

/// The first library symbol with an identifier is at one place only.
pub proof fn lemma_first_library_unique(libs: Seq<LibrarySymbol>, lib_id: Seq<char>, i: int, j: int)
    requires
        first_library(libs, lib_id, i),
        first_library(libs, lib_id, j),
    ensures
        i == j,
{
    if i < j {
        assert(libs[i].lib_id@ != lib_id);
    }
    if j < i {
        assert(libs[j].lib_id@ != lib_id);
    }
}

/// The unit that a placed symbol contributes to the search for the owner of
/// a pin: the unit of its library symbol that holds the pin.
pub open spec fn item_pin_unit(
    schema: Schema,
    item: SchemaItem,
    reference: Seq<char>,
    pin: Seq<char>,
) -> Option<u8> {
    match item {
        SchemaItem::Symbol(s) => if property_of(s.props@, PROPERTY_REFERENCE@) == reference {
            match library_of(schema.library_symbols@, s.lib_id@) {
                Some(lib) => pin_unit_of(lib.units@, pin),
                None => None,
            }
        } else {
            None
        },
        _ => None,
    }
}

/// Whether item `i` is the first that decides which unit owns the pin.
pub open spec fn first_pin_owner(schema: Schema, reference: Seq<char>, pin: Seq<char>, i: int) -> bool {
    &&& 0 <= i < schema.items@.len()
    &&& item_pin_unit(schema, schema.items@[i], reference, pin) is Some
    &&& forall|j: int|
        0 <= j < i ==> item_pin_unit(schema, #[trigger] schema.items@[j], reference, pin) is None
}

/// Whether no item decides which unit owns the pin.
pub open spec fn no_pin_owner(schema: Schema, reference: Seq<char>, pin: Seq<char>) -> bool {
    forall|j: int|
        0 <= j < schema.items@.len() ==> item_pin_unit(
            schema,
            #[trigger] schema.items@[j],
            reference,
            pin,
        ) is None
}

/// The unit of the symbol `reference` that exposes the pin.
pub open spec fn pin_owner(schema: Schema, reference: Seq<char>, pin: Seq<char>) -> Option<u8> {
    if no_pin_owner(schema, reference, pin) {
        None
    } else {
        item_pin_unit(
            schema,
            schema.items@[choose|i: int| first_pin_owner(schema, reference, pin, i)],
            reference,
            pin,
        )
    }
}

/// The first item that decides the owner of a pin is at one place only.
pub proof fn lemma_first_pin_owner_unique(
    schema: Schema,
    reference: Seq<char>,
    pin: Seq<char>,
    i: int,
    j: int,
)
    requires
        first_pin_owner(schema, reference, pin, i),
        first_pin_owner(schema, reference, pin, j),
    ensures
        i == j,
{
    if i < j {
        assert(item_pin_unit(schema, schema.items@[i], reference, pin) is None);
    }
    if j < i {
        assert(item_pin_unit(schema, schema.items@[j], reference, pin) is None);
    }
}

/// The point that a position reference stands for, or why there is none.
///
/// A point stands for itself. A pin is looked up in four steps, each of which
/// can fail: the unit that exposes the pin, the placed symbol of that unit,
/// its library symbol, and the pin in it; the pin's position is then placed
/// as the symbol is.
pub open spec fn resolve(schema: Schema, at: At) -> Result<Pt, ErrorKind> {
    match at {
        At::Pt(p) => Ok(p),
        At::Dot(_) => Err(ErrorKind::UnsupportedReference),
        At::Pin(reference, number) => match pin_owner(schema, reference@, number@) {
            None => Err(ErrorKind::PinUnitNotFound),
            Some(unit) => match symbol_of(schema.items@, reference@, unit) {
                None => Err(ErrorKind::SymbolNotFound),
                Some(symbol) => match library_of(schema.library_symbols@, symbol.lib_id@) {
                    None => Err(ErrorKind::LibraryNotFound),
                    Some(lib) => match pin_of(lib.units@, number@) {
                        None => Err(ErrorKind::PinNotFound),
                        Some(pin) => pin_place(symbol, pin),
                    },
                },
            },
        },
    }
}

/// General functions for the schema.
impl Schema {
    /// Create an empty schema.
    pub fn new(project: &str) -> (s: Self)
        ensures
            s.project@ == project@,
            s.version@ == "0.0"@,
            s.generator@ == "recad"@,
            s.generator_version is None,
            s.paper == PaperSize::A4,
            s.title_block.title is None,
            s.title_block.date is None,
            s.title_block.revision is None,
            s.title_block.company_name is None,
            s.title_block.comment@.len() == 0,
            s.library_symbols@.len() == 0,
            s.items@.len() == 0,
            s.sheet_instances@.len() == 0,
            s.grid == 25400,
            s.last_pos == At::Pt(Pt { x: 0, y: 0 }),
    {
        Self {
            project: project.to_string(),
            version: "0.0".to_string(),
            uuid: new_uuid(),
            generator: "recad".to_string(),
            generator_version: None,
            paper: PaperSize::A4,
            title_block: TitleBlock::default(),
            library_symbols: Vec::new(),
            items: Vec::new(),
            sheet_instances: Vec::new(),
            grid: 25400,
            last_pos: At::Pt(Pt { x: 0, y: 0 }),
        }
    }

    /// Get a Symbol by reference and unit number: the first such item.
    pub fn symbol(&self, reference: &str, unit: u8) -> (r: Option<&Symbol>)
        ensures
            match r {
                Some(s) => symbol_of(self.items@, reference@, unit) == Some(*s) && exists|i: int|
                    first_symbol(self.items@, reference@, unit, i) && self.items@[i]
                        == SchemaItem::Symbol(*s),
                None => symbol_of(self.items@, reference@, unit) is None && no_symbol(
                    self.items@,
                    reference@,
                    unit,
                ),
            },
    {
        let mut i: usize = 0;
        while i < self.items.len()
            invariant
                i <= self.items.len(),
                forall|j: int|
                    0 <= j < i ==> !is_symbol(#[trigger] self.items@[j], reference@, unit),
            decreases self.items.len() - i,
        {
            if let SchemaItem::Symbol(s) = &self.items[i] {
                if unit == s.unit {
                    let name = s.property(PROPERTY_REFERENCE);
                    if str_eq(reference, name.as_str()) {
                        proof {
                            assert(first_symbol(self.items@, reference@, unit, i as int));
                            let k = choose|k: int| first_symbol(self.items@, reference@, unit, k);
                            lemma_first_symbol_unique(self.items@, reference@, unit, i as int, k);
                        }
                        return Some(s);
                    }
                }
            }
            i += 1;
        }
        None
    }

    /// Obtain symbol unit from pin number: among the placed symbols with the
    /// reference, in order, the first whose library symbol holds the pin
    /// decides, and the result is the unit that holds it.
    pub fn pin_unit(&self, reference: &str, pin: &str) -> (r: Option<u8>)
        ensures
            r == pin_owner(*self, reference@, pin@),
            match r {
                Some(u) => exists|i: int|
                    first_pin_owner(*self, reference@, pin@, i) && item_pin_unit(
                        *self,
                        self.items@[i],
                        reference@,
                        pin@,
                    ) == Some(u),
                None => no_pin_owner(*self, reference@, pin@),
            },
    {
        let mut i: usize = 0;
        while i < self.items.len()
            invariant
                i <= self.items.len(),
                forall|j: int|
                    0 <= j < i ==> item_pin_unit(
                        *self,
                        #[trigger] self.items@[j],
                        reference@,
                        pin@,
                    ) is None,
            decreases self.items.len() - i,
        {
            if let SchemaItem::Symbol(s) = &self.items[i] {
                let name = s.property(PROPERTY_REFERENCE);
                if str_eq(reference, name.as_str()) {
                    if let Some(lib) = self.library_symbol(s.lib_id.as_str()) {
                        if let Some(u) = lib.pin_unit(pin) {
                            proof {
                                assert(first_pin_owner(*self, reference@, pin@, i as int));
                                let k = choose|k: int| first_pin_owner(*self, reference@, pin@, k);
                                lemma_first_pin_owner_unique(*self, reference@, pin@, i as int, k);
                            }
                            return Some(u);
                        }
                    }
                }
            }
            i += 1;
        }
        None
    }

    /// Get a library symbol by lib_id: the first one with that identifier.
    pub fn library_symbol(&self, lib_id: &str) -> (r: Option<&LibrarySymbol>)
        ensures
            match r {
                Some(l) => Some(*l) == library_of(self.library_symbols@, lib_id@) && exists|i: int|
                    first_library(self.library_symbols@, lib_id@, i) && *l
                        == self.library_symbols@[i],
                None => library_of(self.library_symbols@, lib_id@) is None && no_library(
                    self.library_symbols@,
                    lib_id@,
                ),
            },
    {
        let mut i: usize = 0;
        while i < self.library_symbols.len()
            invariant
                i <= self.library_symbols.len(),
                forall|j: int| 0 <= j < i ==> (#[trigger] self.library_symbols@[j]).lib_id@ != lib_id@,
            decreases self.library_symbols.len() - i,
        {
            if str_eq(self.library_symbols[i].lib_id.as_str(), lib_id) {
                proof {
                    assert(first_library(self.library_symbols@, lib_id@, i as int));
                    let k = choose|k: int| first_library(self.library_symbols@, lib_id@, k);
                    lemma_first_library_unique(self.library_symbols@, lib_id@, i as int, k);
                }
                return Some(&self.library_symbols[i]);
            }
            i += 1;
        }
        None
    }
}

} // verus!
