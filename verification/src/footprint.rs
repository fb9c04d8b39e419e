//! Footprints as they stand in a footprint library.

use crate::gr::{GraphicItem, Polyline, Pos, Property, Pt};
use crate::strings::str_eq;
use vstd::prelude::*;

verus! {

/// A footprint of a footprint library.
#[derive(Debug)]
pub struct Footprint {
    /// The link to the footprint library.
    pub library_link: Option<String>,
    /// Whether the footprint cannot be edited.
    pub locked: bool,
    /// Whether the footprint has been placed.
    pub placed: bool,
    /// The layer the footprint is placed on.
    pub layer: Layer,
    /// The last time the footprint was edited.
    pub tedit: String,
    /// The unique identifier of the footprint.
    pub tstamp: Option<String>,
    /// The position of the footprint.
    pub pos: Option<Pos>,
    /// Search tags.
    pub tags: Option<String>,
    /// The description.
    pub descr: Option<String>,
    /// The properties.
    pub properties: Vec<Property>,
    /// The hierarchical path of the schematic symbol linked to the footprint.
    pub path: String,
    /// The cost of a rotation by 90 degrees when placing automatically.
    pub autoplace_cost90: Option<u8>,
    /// The cost of a rotation by 180 degrees when placing automatically.
    pub autoplace_cost180: Option<u8>,
    /// The solder mask distance from all pads.
    pub solder_mask_margin: Option<i32>,
    /// The solder paste distance from all pads.
    pub solder_paste_margin: Option<i32>,
    /// The percentage of the pad size used for the solder paste.
    pub solder_paste_ratio: Option<i32>,
    /// The clearance to all board copper objects.
    pub clearance: Option<i32>,
    /// How all pads are connected to a filled zone.
    pub zone_connect: Option<ConnectionType>,
    /// The thermal relief spoke width.
    pub thermal_width: Option<i32>,
    /// The distance from the pad to the zone of thermal relief connections.
    pub thermal_gap: Option<i32>,
    /// The attributes of the footprint.
    pub attributes: Option<Attributes>,
    /// The layers private to the footprint.
    pub private_layers: Option<Vec<Layer>>,
    /// The groups of pads that may short different nets.
    pub net_tie_pad_groups: Option<Vec<String>>,
    /// The graphical objects.
    pub graphic_items: Vec<GraphicItem>,
    /// The pads.
    pub pads: Vec<Pad>,
    /// The keep out zones.
    pub zones: Vec<Zone>,
}

/// A board layer.
#[derive(Clone, Debug, PartialEq)]
pub struct Layer {
    /// The place of the layer in the stack.
    pub ordinal: u32,
    /// The canonical name.
    pub canonical_name: String,
    /// What the layer is for.
    pub layer_type: LayerType,
    /// The name the user gave.
    pub user_name: String,
}

/// What a layer is for.
#[derive(Clone, Copy, Debug, PartialEq, Eq, Structural)]
pub enum LayerType {
    Jumper,
    Mixed,
    Power,
    Signal,
    User,
}

/// How pads are connected to a filled zone.
#[derive(Clone, Copy, Debug, PartialEq, Eq, Structural)]
pub enum ConnectionType {
    NoConnect,
    ThermalRelief,
    Fill,
}

/// The attributes of a footprint.
#[derive(Debug, Clone, PartialEq)]
pub struct Attributes {
    /// The kind of footprint.
    pub attr_type: FootprintType,
    /// Whether the footprint is only on the board, without a symbol.
    pub board_only: bool,
    /// Whether the footprint is left out of position files.
    pub exclude_from_pos_files: bool,
    /// Whether the footprint is left out of the bill of materials.
    pub exclude_from_bom: bool,
}

/// The kind of a footprint.
#[derive(Debug, Clone, Copy, PartialEq, Eq, Structural)]
pub enum FootprintType {
    SMD,
    ThroughHole,
}

/// A pad of a footprint.
#[derive(Debug)]
pub struct Pad {
    /// The pad number.
    pub number: String,
    /// The kind of pad.
    pub pad_type: PadType,
    /// The shape.
    pub shape: PadShape,
    /// The position and orientation.
    pub pos: Pos,
    /// Width and height.
    pub size: (i32, i32),
    /// The drill diameter.
    pub drill: Option<i32>,
    /// The net ordinal.
    pub net: u32,
    /// The unique identifier.
    pub tstamp: String,
}

/// A filled segment of a zone.
#[derive(Debug, Clone, PartialEq)]
pub struct Segment {
    pub start: Pt,
    pub end: Pt,
}

/// The kind of a pad.
#[derive(Clone, Copy, Debug, PartialEq, Eq, Structural)]
pub enum PadType {
    ThruHole,
    Smd,
    Connect,
    NpThruHole,
}

impl PadType {
    /// The kind of pad that a name stands for.
    pub open spec fn from_name_spec(s: Seq<char>) -> Option<PadType> {
        if s == "thru_hole"@ {
            Some(PadType::ThruHole)
        } else if s == "smd"@ {
            Some(PadType::Smd)
        } else if s == "connect"@ {
            Some(PadType::Connect)
        } else if s == "np_thru_hole"@ {
            Some(PadType::NpThruHole)
        } else {
            None
        }
    }

    /// The kind of pad named `thru_hole`, `smd`, `connect` or
    /// `np_thru_hole`; `None` for any other name.
    pub fn from_name(s: &str) -> (r: Option<PadType>)
        ensures
            r == Self::from_name_spec(s@),
    {
        if str_eq(s, "thru_hole") {
            Some(PadType::ThruHole)
        } else if str_eq(s, "smd") {
            Some(PadType::Smd)
        } else if str_eq(s, "connect") {
            Some(PadType::Connect)
        } else if str_eq(s, "np_thru_hole") {
            Some(PadType::NpThruHole)
        } else {
            None
        }
    }
}

/// The shape of a pad.
#[derive(Clone, Copy, Debug, PartialEq, Eq, Structural)]
pub enum PadShape {
    Circle,
    Rect,
    Oval,
    Trapezoid,
    RoundRect,
    Custom,
}

impl PadShape {
    /// The shape that a name stands for.
    pub open spec fn from_name_spec(s: Seq<char>) -> Option<PadShape> {
        if s == "circle"@ {
            Some(PadShape::Circle)
        } else if s == "rect"@ {
            Some(PadShape::Rect)
        } else if s == "oval"@ {
            Some(PadShape::Oval)
        } else if s == "trapezoid"@ {
            Some(PadShape::Trapezoid)
        } else if s == "roundrect"@ {
            Some(PadShape::RoundRect)
        } else if s == "custom"@ {
            Some(PadShape::Custom)
        } else {
            None
        }
    }

    /// The shape named `circle`, `rect`, `oval`, `trapezoid`, `roundrect`
    /// or `custom`; `None` for any other name.
    pub fn from_name(s: &str) -> (r: Option<PadShape>)
        ensures
            r == Self::from_name_spec(s@),
    {
        if str_eq(s, "circle") {
            Some(PadShape::Circle)
        } else if str_eq(s, "rect") {
            Some(PadShape::Rect)
        } else if str_eq(s, "oval") {
            Some(PadShape::Oval)
        } else if str_eq(s, "trapezoid") {
            Some(PadShape::Trapezoid)
        } else if str_eq(s, "roundrect") {
            Some(PadShape::RoundRect)
        } else if str_eq(s, "custom") {
            Some(PadShape::Custom)
        } else {
            None
        }
    }
}

/// A zone of a board or footprint.
#[derive(Debug)]
pub struct Zone {
    /// The net ordinal.
    pub net: u32,
    /// The net name.
    pub net_name: String,
    /// The layer the zone lies on.
    pub layer: Layer,
    /// The unique identifier.
    pub tstamp: String,
    /// The name of the zone.
    pub name: Option<String>,
    /// How the outline is hatched.
    pub hatch: Hatch,
    /// The priority among overlapping zones.
    pub priority: Option<u8>,
    /// How pads are connected.
    pub connect_pads: ConnectPads,
    /// The least fill width.
    pub min_thickness: i32,
    /// Whether the line thickness counts in the filled area.
    pub filled_areas_thickness: Option<bool>,
    /// The keep out settings.
    pub keepout_settings: Option<ZoneKeepoutSettings>,
    /// The fill settings.
    pub fill_settings: ZoneFillSettings,
    /// The outline.
    pub polygon: Vec<Polyline>,
    /// The filled polygons.
    pub fill_polygons: Option<Polygon>,
    /// The filled segments.
    pub fill_segments: Option<Vec<Segment>>,
}

/// A polygon made of polylines.
#[derive(Debug, Clone, PartialEq)]
pub struct Polygon {
    pub points: Vec<Polyline>,
}

/// How the outline of a zone is hatched.
#[derive(Debug, Clone, PartialEq)]
pub struct Hatch {
    pub style: HatchStyle,
    pub pitch: i32,
}

/// The style of a hatch.
#[derive(Debug, Clone, Copy, PartialEq, Eq, Structural)]
pub enum HatchStyle {
    /// Not hatched.
    NoHatch,
    Edge,
    Full,
}

/// How the pads are connected to a zone.
#[derive(Debug, Clone, PartialEq)]
pub struct ConnectPads {
    pub connection_type: PadConnectionType,
    pub clearance: i32,
}

/// The kind of connection between pads and a zone.
#[derive(Debug, Clone, Copy, PartialEq, Eq, Structural)]
pub enum PadConnectionType {
    No,
    ThermalRelief,
    SolidFill,
    ThruHoleOnly,
}

/// What a zone keeps out.
#[derive(Debug, Clone, PartialEq)]
pub struct ZoneKeepoutSettings {
    pub keepout_type: KeepoutType,
    pub properties: Vec<Property>,
}

/// What is kept out of a zone.
#[derive(Debug, Clone, Copy, PartialEq, Eq, Structural)]
pub enum KeepoutType {
    AllCopper,
    ViasOnly,
    TracksOnly,
}

/// How a zone is filled.
#[derive(Debug, Clone, PartialEq)]
pub struct ZoneFillSettings {
    pub fill_type: FillType,
    pub properties: Vec<Property>,
}

/// The kind of fill of a zone.
#[derive(Debug, Clone, Copy, PartialEq, Eq, Structural)]
pub enum FillType {
    Solid,
    Hatch,
}

} // verus!
