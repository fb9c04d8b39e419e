//! Library symbols: the definitions that placed symbols refer to.

use crate::draw::To;
use crate::gr::{Effects, GraphicItem, Justify, Pos, Property};
use crate::new_uuid;
use crate::schema::Symbol;
use crate::strings::starts_with;
use crate::number::{parse_u8, parse_u8_spec};
use crate::strings::{chars_of, str_eq, string_of};
use vstd::prelude::*;
use vstd::std_specs::convert::FromSpecImpl;

verus! {

/// The symbol token defines a symbol or sub-unit of a parent symbol
#[derive(Debug)]
pub struct LibrarySymbol {
    /// The library identifier of a top level symbol, or the unit identifier
    /// `NAME_UNIT_STYLE` of a unit embedded in a parent symbol.
    pub lib_id: String,
    /// The identifier of another symbol from which this one is derived.
    pub extends: Option<String>,
    /// Whether the symbol is a power source.
    pub power: bool,
    /// Whether the pin numbers are shown.
    pub pin_numbers: bool,
    /// Whether the pin names are shown.
    pub pin_names: bool,
    /// Whether the symbol appears in the bill of materials.
    pub in_bom: bool,
    /// Whether the symbol is exported to the board.
    pub on_board: bool,
    /// Whether the symbol is excluded from simulation.
    pub exclude_from_sim: bool,
    /// The properties that define the symbol.
    pub props: Vec<Property>,
    /// The graphical items that draw the symbol.
    pub graphics: Vec<GraphicItem>,
    /// The pins of the symbol.
    pub pins: Vec<Pin>,
    /// The offset of the pin names.
    pub pin_names_offset: Option<i32>,
    /// The units embedded in a parent symbol.
    pub units: Vec<LibrarySymbol>,
    /// The display name of a unit.
    pub unit_name: Option<String>,
}

/// The index of the last `c` in `s`, or -1 if there is none.
pub open spec fn last_index(s: Seq<char>, c: char) -> int
    decreases s.len(),
{
    if s.len() == 0 {
        -1
    } else if s.last() == c {
        s.len() - 1
    } else {
        last_index(s.drop_last(), c)
    }
}

/// The last but one of the fields that `_` separates, if there are two.
pub open spec fn unit_field(s: Seq<char>) -> Option<Seq<char>> {
    let j = last_index(s, '_');
    if j < 0 {
        None
    } else {
        Some(s.subrange(last_index(s.take(j), '_') + 1, j))
    }
}

/// The last of the fields that `_` separates.
pub open spec fn style_field(s: Seq<char>) -> Seq<char> {
    s.subrange(last_index(s, '_') + 1, s.len() as int)
}

/// The unit number in a unit identifier `NAME_UNIT_STYLE`.
pub open spec fn unit_of(lib_id: Seq<char>) -> Option<u8> {
    match unit_field(lib_id) {
        Some(f) => parse_u8_spec(f),
        None => None,
    }
}

/// The style number in a unit identifier `NAME_UNIT_STYLE`.
pub open spec fn style_of(lib_id: Seq<char>) -> Option<u8> {
    parse_u8_spec(style_field(lib_id))
}

/// `last_index` lies before the end, and what lies behind it holds no `c`.
pub proof fn lemma_last_index(s: Seq<char>, c: char)
    ensures
        -1 <= last_index(s, c) < s.len(),
        last_index(s, c) >= 0 ==> s[last_index(s, c)] == c,
        forall|k: int| last_index(s, c) < k < s.len() ==> s[k] != c,
    decreases s.len(),
{
    if s.len() > 0 && s.last() != c {
        lemma_last_index(s.drop_last(), c);
        assert forall|k: int| last_index(s, c) < k < s.len() implies s[k] != c by {
            if k < s.len() - 1 {
                assert(s.drop_last()[k] == s[k]);
            }
        }
    }
}

/// The index of the last `c` in `v[..end]`, or `None`.
fn find_last(v: &Vec<char>, end: usize, c: char) -> (r: Option<usize>)
    requires
        end <= v.len(),
    ensures
        match r {
            Some(i) => i as int == last_index(v@.take(end as int), c),
            None => last_index(v@.take(end as int), c) == -1,
        },
{
    let mut i: usize = end;
    while i > 0
        invariant
            i <= end <= v.len(),
            last_index(v@.take(end as int), c) == last_index(v@.take(i as int), c),
        decreases i,
    {
        assert(v@.take(i as int).last() == v@[i - 1]);
        assert(v@.take(i as int).drop_last() =~= v@.take(i - 1));
        if v[i - 1] == c {
            return Some(i - 1);
        }
        i -= 1;
    }
    None
}

/// Whether a unit with number `own` belongs to the placed unit `unit`: the
/// unit 0 is shared by all.
pub open spec fn selects(own: Option<u8>, unit: u8) -> bool {
    own == Some(0u8) || own == Some(unit)
}

/// The pins of the units that belong to `unit`, in order.
pub open spec fn unit_pins(units: Seq<LibrarySymbol>, unit: u8) -> Seq<Pin>
    decreases units.len(),
{
    if units.len() == 0 {
        Seq::empty()
    } else if selects(unit_of(units.last().lib_id@), unit) {
        unit_pins(units.drop_last(), unit) + units.last().pins@
    } else {
        unit_pins(units.drop_last(), unit)
    }
}

/// Whether the pin `k` of unit `u` is the first pin with the number, in the
/// order of the units and, within a unit, of its pins.
pub open spec fn first_pin_at(units: Seq<LibrarySymbol>, number: Seq<char>, u: int, k: int) -> bool {
    &&& 0 <= u < units.len()
    &&& 0 <= k < units[u].pins@.len()
    &&& units[u].pins@[k].number.name@ == number
    &&& forall|j: int| 0 <= j < k ==> (#[trigger] units[u].pins@[j]).number.name@ != number
    &&& forall|v: int, j: int|
        0 <= v < u && 0 <= j < units[v].pins@.len() ==> (#[trigger] units[v].pins@[j]).number.name@
            != number
}

/// Whether no pin of any unit has the number.
pub open spec fn no_pin(units: Seq<LibrarySymbol>, number: Seq<char>) -> bool {
    forall|v: int, j: int|
        0 <= v < units.len() && 0 <= j < units[v].pins@.len() ==> (
        #[trigger] units[v].pins@[j]).number.name@ != number
}

/// The unit number of the unit that holds the first pin with the number.
pub open spec fn pin_unit_of(units: Seq<LibrarySymbol>, number: Seq<char>) -> Option<u8> {
    if no_pin(units, number) {
        None
    } else {
        let (u, k) = choose|u: int, k: int| first_pin_at(units, number, u, k);
        unit_of(units[u].lib_id@)
    }
}

/// The first pin with the number.
pub open spec fn pin_of(units: Seq<LibrarySymbol>, number: Seq<char>) -> Option<Pin> {
    if no_pin(units, number) {
        None
    } else {
        let (u, k) = choose|u: int, k: int| first_pin_at(units, number, u, k);
        Some(units[u].pins@[k])
    }
}

/// The first pin with a number is at one place only.
pub proof fn lemma_first_pin_unique(
    units: Seq<LibrarySymbol>,
    number: Seq<char>,
    u: int,
    k: int,
    v: int,
    j: int,
)
    requires
        first_pin_at(units, number, u, k),
        first_pin_at(units, number, v, j),
    ensures
        u == v,
        k == j,
{
    if u < v {
        assert(units[u].pins@[k].number.name@ != number);
    }
    if v < u {
        assert(units[v].pins@[j].number.name@ != number);
    }
    if u == v && k < j {
        assert(units[u].pins@[k].number.name@ != number);
    }
    if u == v && j < k {
        assert(units[u].pins@[j].number.name@ != number);
    }
}

/// The properties that a placed symbol takes over from its library symbol:
/// all but those whose key begins with `ki_`.
pub open spec fn placed_props(props: Seq<Property>) -> Seq<Property>
    decreases props.len(),
{
    if props.len() == 0 {
        Seq::empty()
    } else if "ki_"@.is_prefix_of(props.last().key@) {
        placed_props(props.drop_last())
    } else {
        placed_props(props.drop_last()).push(props.last())
    }
}

/// Whether two properties say the same.
pub open spec fn same_property(a: Property, b: Property) -> bool {
    &&& a.key@ == b.key@
    &&& a.value@ == b.value@
    &&& a.pos == b.pos
    &&& a.effects.font == b.effects.font
    &&& a.effects.justify@ == b.effects.justify@
    &&& a.effects.hide == b.effects.hide
}

/// A copy of a property.
pub fn copy_property(p: &Property) -> (r: Property)
    ensures
        same_property(r, *p),
{
    let mut justify: Vec<Justify> = Vec::new();
    let mut i: usize = 0;
    while i < p.effects.justify.len()
        invariant
            i <= p.effects.justify.len(),
            justify@ == p.effects.justify@.take(i as int),
        decreases p.effects.justify.len() - i,
    {
        justify.push(p.effects.justify[i]);
        assert(justify@ =~= p.effects.justify@.take(i + 1));
        i += 1;
    }
    assert(p.effects.justify@.take(i as int) =~= p.effects.justify@);
    Property {
        key: p.key.clone(),
        value: p.value.clone(),
        pos: p.pos,
        effects: Effects { font: p.effects.font.clone(), justify, hide: p.effects.hide },
    }
}

impl LibrarySymbol {
    /// A placed symbol of this library symbol: the unit at the origin, with
    /// the properties of the library symbol but for those whose key begins
    /// with `ki_`, and with a fresh identifier.
    pub fn symbol(&self, unit: u8) -> (s: Symbol)
        ensures
            s.lib_id@ == self.lib_id@,
            s.unit == unit,
            s.pos == (Pos { x: 0, y: 0, angle: 0 }),
            s.mirror is None,
            s.in_bom,
            s.on_board,
            !s.exclude_from_sim,
            !s.dnp,
            s.pins@.len() == 0,
            s.instances@.len() == 0,
            s.attrs.attributes@.len() == 0,
            s.props@.len() == placed_props(self.props@).len(),
            forall|i: int|
                0 <= i < s.props@.len() ==> same_property(
                    #[trigger] s.props@[i],
                    placed_props(self.props@)[i],
                ),
    {
        let mut props: Vec<Property> = Vec::new();
        let mut i: usize = 0;
        assert(self.props@.take(0) =~= Seq::<Property>::empty());
        while i < self.props.len()
            invariant
                i <= self.props.len(),
                props@.len() == placed_props(self.props@.take(i as int)).len(),
                forall|k: int|
                    0 <= k < props@.len() ==> same_property(
                        #[trigger] props@[k],
                        placed_props(self.props@.take(i as int))[k],
                    ),
            decreases self.props.len() - i,
        {
            assert(self.props@.take(i + 1).drop_last() =~= self.props@.take(i as int));
            assert(self.props@.take(i + 1).last() == self.props@[i as int]);
            if !starts_with(self.props[i].key.as_str(), "ki_") {
                props.push(copy_property(&self.props[i]));
            }
            i += 1;
        }
        assert(self.props@.take(i as int) =~= self.props@);
        Symbol {
            lib_id: self.lib_id.clone(),
            pos: Pos { x: 0, y: 0, angle: 0 },
            mirror: None,
            unit,
            in_bom: true,
            on_board: true,
            exclude_from_sim: false,
            dnp: false,
            uuid: new_uuid(),
            props,
            pins: Vec::new(),
            instances: Vec::new(),
            attrs: To::new(),
        }
    }

    /// "UNIT" is an integer that identifies which unit the symbol represents. A "UNIT"
    /// value of zero (0) indicates that the symbol is common to all units.
    ///
    /// `None` if the identifier has no such field or it is no number below 256.
    pub fn unit(&self) -> (r: Option<u8>)
        ensures
            r == unit_of(self.lib_id@),
    {
        let v = chars_of(self.lib_id.as_str());
        assert(v@.take(v.len() as int) =~= v@);
        proof {
            lemma_last_index(v@, '_');
        }
        match find_last(&v, v.len(), '_') {
            None => None,
            Some(j) => {
                proof {
                    lemma_last_index(v@.take(j as int), '_');
                }
                let i: usize = match find_last(&v, j, '_') {
                    None => 0,
                    Some(i) => i + 1,
                };
                let field = string_of(&v, i, j);
                parse_u8(field.as_str())
            },
        }
    }

    /// The "STYLE" indicates which body style the unit represents.
    ///
    /// `None` if the last field of the identifier is no number below 256.
    pub fn style(&self) -> (r: Option<u8>)
        ensures
            r == style_of(self.lib_id@),
    {
        let v = chars_of(self.lib_id.as_str());
        assert(v@.take(v.len() as int) =~= v@);
        proof {
            lemma_last_index(v@, '_');
        }
        let i: usize = match find_last(&v, v.len(), '_') {
            None => 0,
            Some(i) => i + 1,
        };
        let field = string_of(&v, i, v.len());
        parse_u8(field.as_str())
    }

    /// Where the first pin with the number is: the unit and the pin in it.
    fn find_pin(&self, number: &str) -> (r: Option<(usize, usize)>)
        ensures
            match r {
                Some((u, k)) => first_pin_at(self.units@, number@, u as int, k as int),
                None => no_pin(self.units@, number@),
            },
    {
        let mut u: usize = 0;
        while u < self.units.len()
            invariant
                u <= self.units.len(),
                forall|v: int, j: int|
                    0 <= v < u && 0 <= j < self.units@[v].pins@.len() ==> (
                    #[trigger] self.units@[v].pins@[j]).number.name@ != number@,
            decreases self.units.len() - u,
        {
            let unit = &self.units[u];
            let mut k: usize = 0;
            while k < unit.pins.len()
                invariant
                    u < self.units.len(),
                    *unit == self.units@[u as int],
                    k <= unit.pins.len(),
                    forall|v: int, j: int|
                        0 <= v < u && 0 <= j < self.units@[v].pins@.len() ==> (
                        #[trigger] self.units@[v].pins@[j]).number.name@ != number@,
                    forall|j: int|
                        0 <= j < k ==> (#[trigger] unit.pins@[j]).number.name@ != number@,
                decreases unit.pins.len() - k,
            {
                if str_eq(unit.pins[k].number.name.as_str(), number) {
                    return Some((u, k));
                }
                k += 1;
            }
            u += 1;
        }
        None
    }

    /// Get a Pin by the pin number: the first one with that number, in the
    /// order of the units.
    pub fn pin(&self, number: &str) -> (r: Option<&Pin>)
        ensures
            match r {
                Some(p) => pin_of(self.units@, number@) == Some(*p) && exists|u: int, k: int|
                    first_pin_at(self.units@, number@, u, k) && *p == self.units@[u].pins@[k],
                None => pin_of(self.units@, number@) is None && no_pin(self.units@, number@),
            },
    {
        match self.find_pin(number) {
            Some((u, k)) => {
                proof {
                    let (v, j) = choose|v: int, j: int|
                        first_pin_at(self.units@, number@, v, j);
                    lemma_first_pin_unique(self.units@, number@, u as int, k as int, v, j);
                    assert(self.units@[u as int].pins@[k as int].number.name@ == number@);
                }
                Some(&self.units[u].pins[k])
            },
            None => None,
        }
    }

    /// The unit number of the unit that holds the first pin with the number.
    pub fn pin_unit(&self, number: &str) -> (r: Option<u8>)
        ensures
            r == pin_unit_of(self.units@, number@),
    {
        match self.find_pin(number) {
            Some((u, k)) => {
                proof {
                    let (v, j) = choose|v: int, j: int|
                        first_pin_at(self.units@, number@, v, j);
                    lemma_first_pin_unique(self.units@, number@, u as int, k as int, v, j);
                    assert(self.units@[u as int].pins@[k as int].number.name@ == number@);
                }
                self.units[u].unit()
            },
            None => None,
        }
    }

    /// Get all pins for a symbol unit: those of the shared unit 0 and of the
    /// unit itself, in the order of the units.
    pub fn pins(&self, unit: u8) -> (r: Vec<&Pin>)
        ensures
            r@.len() == unit_pins(self.units@, unit).len(),
            forall|i: int| 0 <= i < r@.len() ==> *r@[i] == unit_pins(self.units@, unit)[i],
    {
        let mut pins: Vec<&Pin> = Vec::new();
        let mut u: usize = 0;
        while u < self.units.len()
            invariant
                u <= self.units.len(),
                pins@.len() == unit_pins(self.units@.take(u as int), unit).len(),
                forall|i: int|
                    0 <= i < pins@.len() ==> *pins@[i] == unit_pins(
                        self.units@.take(u as int),
                        unit,
                    )[i],
            decreases self.units.len() - u,
        {
            let sub = &self.units[u];
            let own = sub.unit();
            let ghost before = unit_pins(self.units@.take(u as int), unit);
            assert(self.units@.take(u + 1).drop_last() =~= self.units@.take(u as int));
            assert(self.units@.take(u + 1).last() == self.units@[u as int]);
            if own == Some(0u8) || own == Some(unit) {
                let mut k: usize = 0;
                while k < sub.pins.len()
                    invariant
                        k <= sub.pins.len(),
                        pins@.len() == before.len() + k,
                        forall|i: int| 0 <= i < before.len() ==> *pins@[i] == before[i],
                        forall|i: int| 0 <= i < k ==> *pins@[before.len() + i] == sub.pins@[i],
                    decreases sub.pins.len() - k,
                {
                    pins.push(&sub.pins[k]);
                    k += 1;
                }
            }
            u += 1;
        }
        assert(self.units@.take(u as int) =~= self.units@);
        pins
    }
}

/// A struct representing a pin in a symbol definition.
#[derive(Clone, Debug, PartialEq)]
pub struct Pin {
    /// The electrical type of the pin.
    pub electrical_type: ElectricalTypes,
    /// The graphical style for the pin.
    pub graphical_style: PinGraphicalStyle,
    /// The position of the connection point relative to the symbol origin.
    pub pos: Pos,
    /// The length of the pin.
    pub length: i32,
    /// Whether the pin is hidden or not.
    pub hide: bool,
    /// The name and text effects for the pin.
    pub name: PinProperty,
    /// The number and text effects for the pin.
    pub number: PinProperty,
}

/// Properties of a schematic pin.
#[derive(Clone, Debug, PartialEq)]
pub struct PinProperty {
    /// The name of the property associated with the pin.
    pub name: String,
    /// Defines the visual effects applied to the label (e.g., font style, shadow).
    pub effects: Effects,
}

/// Enum representing the different types of electrical pins.
#[derive(Clone, Copy, Debug, PartialEq, Eq, Structural, Hash)]
pub enum ElectricalTypes {
    /// Input pin is an input.
    Input,
    /// Output pin is an output.
    Output,
    /// Bidirectional pin can be both input and output.
    Bidirectional,
    /// Tri-state pin is a tri-state output.
    TriState,
    /// Passive pin is electrically passive.
    Passive,
    /// Free pin is not internally connected.
    Free,
    /// Unspecified pin does not have a specified electrical type.
    Unspecified,
    /// Power in pin is a power input.
    PowerIn,
    /// Power out pin is a power output.
    PowerOut,
    /// Open collector pin is an open collector output.
    OpenCollector,
    /// Open emitter pin is an open emitter output.
    OpenEmitter,
    /// No connect pin has no electrical connection.
    NoConnect,
}

impl ElectricalTypes {
    /// The electrical type that a name stands for: `Unspecified` for an
    /// unknown one.
    pub open spec fn from_name_spec(s: Seq<char>) -> ElectricalTypes {
        if s == "input"@ {
            ElectricalTypes::Input
        } else if s == "output"@ {
            ElectricalTypes::Output
        } else if s == "bidirectional"@ {
            ElectricalTypes::Bidirectional
        } else if s == "tri_state"@ {
            ElectricalTypes::TriState
        } else if s == "passive"@ {
            ElectricalTypes::Passive
        } else if s == "free"@ {
            ElectricalTypes::Free
        } else if s == "unspecified"@ {
            ElectricalTypes::Unspecified
        } else if s == "power_in"@ {
            ElectricalTypes::PowerIn
        } else if s == "power_out"@ {
            ElectricalTypes::PowerOut
        } else if s == "open_collector"@ {
            ElectricalTypes::OpenCollector
        } else if s == "open_emitter"@ {
            ElectricalTypes::OpenEmitter
        } else if s == "no_connect"@ {
            ElectricalTypes::NoConnect
        } else {
            ElectricalTypes::Unspecified
        }
    }

    /// The name of an electrical type.
    pub open spec fn name_spec(self) -> Seq<char> {
        match self {
            Self::Input => "input"@,
            Self::Output => "output"@,
            Self::Bidirectional => "bidirectional"@,
            Self::TriState => "tri_state"@,
            Self::Passive => "passive"@,
            Self::Free => "free"@,
            Self::Unspecified => "unspecified"@,
            Self::PowerIn => "power_in"@,
            Self::PowerOut => "power_out"@,
            Self::OpenCollector => "open_collector"@,
            Self::OpenEmitter => "open_emitter"@,
            Self::NoConnect => "no_connect"@,
        }
    }

    /// The name of the electrical type, as the file format writes it.
    pub fn to_string(&self) -> (r: String)
        ensures
            r@ == self.name_spec(),
    {
        match self {
            Self::Input => "input".to_string(),
            Self::Output => "output".to_string(),
            Self::Bidirectional => "bidirectional".to_string(),
            Self::TriState => "tri_state".to_string(),
            Self::Passive => "passive".to_string(),
            Self::Free => "free".to_string(),
            Self::Unspecified => "unspecified".to_string(),
            Self::PowerIn => "power_in".to_string(),
            Self::PowerOut => "power_out".to_string(),
            Self::OpenCollector => "open_collector".to_string(),
            Self::OpenEmitter => "open_emitter".to_string(),
            Self::NoConnect => "no_connect".to_string(),
        }
    }
}

impl From<&str> for ElectricalTypes {
    fn from(s: &str) -> (r: Self) {
        if str_eq(s, "input") {
            Self::Input
        } else if str_eq(s, "output") {
            Self::Output
        } else if str_eq(s, "bidirectional") {
            Self::Bidirectional
        } else if str_eq(s, "tri_state") {
            Self::TriState
        } else if str_eq(s, "passive") {
            Self::Passive
        } else if str_eq(s, "free") {
            Self::Free
        } else if str_eq(s, "unspecified") {
            Self::Unspecified
        } else if str_eq(s, "power_in") {
            Self::PowerIn
        } else if str_eq(s, "power_out") {
            Self::PowerOut
        } else if str_eq(s, "open_collector") {
            Self::OpenCollector
        } else if str_eq(s, "open_emitter") {
            Self::OpenEmitter
        } else if str_eq(s, "no_connect") {
            Self::NoConnect
        } else {
            Self::Unspecified
        }
    }
}

impl FromSpecImpl<&str> for ElectricalTypes {
    open spec fn obeys_from_spec() -> bool {
        true
    }

    open spec fn from_spec(s: &str) -> Self {
        ElectricalTypes::from_name_spec(s@)
    }
}

impl Default for ElectricalTypes {
    fn default() -> (c: Self)
        ensures
            c == ElectricalTypes::Bidirectional,
    {
        ElectricalTypes::Bidirectional
    }
}

/// Enum representing the different pin graphical styles in KiCad.
#[derive(Clone, Copy, Debug, PartialEq, Eq, Structural, Hash)]
pub enum PinGraphicalStyle {
    Line,
    Inverted,
    Clock,
    InvertedClock,
    InputLow,
    ClockLow,
    OutputLow,
    EdgeClockHigh,
    NonLogic,
}

impl PinGraphicalStyle {
    /// The style that a name stands for: `Line` for an unknown one.
    pub open spec fn from_name_spec(s: Seq<char>) -> PinGraphicalStyle {
        if s == "line"@ {
            PinGraphicalStyle::Line
        } else if s == "inverted"@ {
            PinGraphicalStyle::Inverted
        } else if s == "clock"@ {
            PinGraphicalStyle::Clock
        } else if s == "inverted_clock"@ {
            PinGraphicalStyle::InvertedClock
        } else if s == "input_low"@ {
            PinGraphicalStyle::InputLow
        } else if s == "clock_low"@ {
            PinGraphicalStyle::ClockLow
        } else if s == "output_low"@ {
            PinGraphicalStyle::OutputLow
        } else if s == "edge_clock_high"@ {
            PinGraphicalStyle::EdgeClockHigh
        } else if s == "nonlogic"@ {
            PinGraphicalStyle::NonLogic
        } else {
            PinGraphicalStyle::Line
        }
    }

    /// The name of a style.
    pub open spec fn name_spec(self) -> Seq<char> {
        match self {
            Self::Line => "line"@,
            Self::Inverted => "inverted"@,
            Self::Clock => "clock"@,
            Self::InvertedClock => "inverted_clock"@,
            Self::InputLow => "input_low"@,
            Self::ClockLow => "clock_low"@,
            Self::OutputLow => "output_low"@,
            Self::EdgeClockHigh => "edge_clock_high"@,
            Self::NonLogic => "nonlogic"@,
        }
    }

    /// The name of the style, as the file format writes it.
    pub fn to_string(&self) -> (r: String)
        ensures
            r@ == self.name_spec(),
    {
        match self {
            Self::Line => "line".to_string(),
            Self::Inverted => "inverted".to_string(),
            Self::Clock => "clock".to_string(),
            Self::InvertedClock => "inverted_clock".to_string(),
            Self::InputLow => "input_low".to_string(),
            Self::ClockLow => "clock_low".to_string(),
            Self::OutputLow => "output_low".to_string(),
            Self::EdgeClockHigh => "edge_clock_high".to_string(),
            Self::NonLogic => "nonlogic".to_string(),
        }
    }
}

impl From<&str> for PinGraphicalStyle {
    fn from(s: &str) -> (r: Self) {
        if str_eq(s, "line") {
            Self::Line
        } else if str_eq(s, "inverted") {
            Self::Inverted
        } else if str_eq(s, "clock") {
            Self::Clock
        } else if str_eq(s, "inverted_clock") {
            Self::InvertedClock
        } else if str_eq(s, "input_low") {
            Self::InputLow
        } else if str_eq(s, "clock_low") {
            Self::ClockLow
        } else if str_eq(s, "output_low") {
            Self::OutputLow
        } else if str_eq(s, "edge_clock_high") {
            Self::EdgeClockHigh
        } else if str_eq(s, "nonlogic") {
            Self::NonLogic
        } else {
            Self::Line
        }
    }
}

impl FromSpecImpl<&str> for PinGraphicalStyle {
    open spec fn obeys_from_spec() -> bool {
        true
    }

    open spec fn from_spec(s: &str) -> Self {
        PinGraphicalStyle::from_name_spec(s@)
    }
}

impl Default for PinGraphicalStyle {
    fn default() -> (c: Self)
        ensures
            c == PinGraphicalStyle::Line,
    {
        PinGraphicalStyle::Line
    }
}

} // verus!
