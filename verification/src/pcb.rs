//! The items of a printed circuit board.

use crate::gr::{Pos, Pt, Pts, Stroke};
use crate::strings::str_eq;
use vstd::prelude::*;

verus! {

/// A board layer.
#[derive(Debug, Clone, PartialEq)]
pub struct Layer {
    /// The place of the layer in the stack.
    pub ordinal: u32,
    /// The canonical name.
    pub canonical_name: String,
    /// What the layer is for.
    pub layer_type: LayerType,
    /// The name the user gave.
    pub user_name: String,
}

/// What a layer is for.
#[derive(Debug, Clone, Copy, PartialEq, Eq, Structural)]
pub enum LayerType {
    Jumper,
    Mixed,
    Power,
    Signal,
    User,
}

/// The kind of a via.
#[derive(Debug, Clone, Copy, PartialEq, Eq, Structural)]
pub enum ViaType {
    Blind,
    Micro,
}

/// A track segment.
#[derive(Debug, Clone, PartialEq)]
pub struct Segment {
    /// Where the segment begins.
    pub start: Pt,
    /// Where the segment ends.
    pub end: Pt,
    /// The line width.
    pub width: i32,
    /// The layer the segment lies on.
    pub layer: String,
    /// Whether the segment cannot be edited.
    pub locked: bool,
    /// The net ordinal.
    pub net: u32,
    /// The unique identifier.
    pub tstamp: String,
}

/// A via.
#[derive(Debug)]
pub struct Via {
    /// The kind of via.
    pub via_type: Option<ViaType>,
    /// Whether the via cannot be edited.
    pub locked: bool,
    /// The center of the via.
    pub pos: Pos,
    /// The diameter of the annular ring.
    pub size: i32,
    /// The drill diameter.
    pub drill: i32,
    /// The layers the via connects.
    pub layers: (String, String),
    /// Whether unused layers are removed.
    pub remove_unused_layers: bool,
    /// Whether the end layers are kept.
    pub keep_end_layers: bool,
    /// Whether the via may move outside its net.
    pub free: bool,
    /// The net ordinal.
    pub net: u32,
    /// The unique identifier.
    pub tstamp: String,
}

/// A net of the board.
#[derive(Debug, Clone, PartialEq)]
pub struct Net {
    /// The place of the net in the order.
    pub ordinal: u32,
    /// The name of the net.
    pub name: String,
}

/// The kind of a footprint.
#[derive(Debug, Clone, Copy, PartialEq, Eq, Structural)]
pub enum FootprintType {
    Smd,
    ThroughHole,
    ExcludeFromPosFiles,
}

impl FootprintType {
    /// The kind of footprint that a name stands for.
    pub open spec fn from_name_spec(s: Seq<char>) -> Option<FootprintType> {
        if s == "smd"@ {
            Some(FootprintType::Smd)
        } else if s == "through_hole"@ {
            Some(FootprintType::ThroughHole)
        } else if s == "exclude_from_pos_files"@ {
            Some(FootprintType::ExcludeFromPosFiles)
        } else {
            None
        }
    }

    /// The kind of footprint named `smd`, `through_hole` or
    /// `exclude_from_pos_files`; `None` for any other name.
    pub fn from_name(s: &str) -> (r: Option<FootprintType>)
        ensures
            r == Self::from_name_spec(s@),
    {
        if str_eq(s, "smd") {
            Some(FootprintType::Smd)
        } else if str_eq(s, "through_hole") {
            Some(FootprintType::ThroughHole)
        } else if str_eq(s, "exclude_from_pos_files") {
            Some(FootprintType::ExcludeFromPosFiles)
        } else {
            None
        }
    }
}

/// A footprint on the board.
#[derive(Debug)]
pub struct Footprint {
    /// The link to the footprint library.
    pub library_link: String,
    /// Whether the footprint cannot be edited.
    pub locked: bool,
    /// Whether the footprint has been placed.
    pub placed: bool,
    /// The layer the footprint is placed on.
    pub layer: String,
    /// The last time the footprint was edited.
    pub tedit: Option<String>,
    /// The unique identifier.
    pub tstamp: Option<String>,
    /// The position and orientation.
    pub pos: Pos,
    /// The description.
    pub descr: Option<String>,
    /// Search tags.
    pub tags: Option<String>,
    /// The properties: key and value.
    pub property: Vec<(String, String)>,
    /// The hierarchical path of the schematic symbol linked to the footprint.
    pub path: Option<String>,
    /// The cost of a rotation by 90 degrees when placing automatically.
    pub autoplace_cost90: Option<u8>,
    /// The cost of a rotation by 180 degrees when placing automatically.
    pub autoplace_cost180: Option<u8>,
    /// The solder mask distance from all pads.
    pub solder_mask_margin: Option<i32>,
    /// The solder paste distance from all pads.
    pub solder_paste_margin: Option<i32>,
    /// The percentage of the pad size used for the solder paste.
    pub solder_paste_ratio: Option<i32>,
    /// The clearance to all board copper objects.
    pub clearance: Option<i32>,
    /// How all pads are connected to a filled zone.
    pub zone_connect: Option<u8>,
    /// The thermal relief spoke width.
    pub thermal_width: Option<i32>,
    /// The distance from the pad to the zone of thermal relief connections.
    pub thermal_gap: Option<i32>,
    /// The kind of footprint.
    pub footprint_type: FootprintType,
    /// Whether the footprint is only on the board, without a symbol.
    pub board_only: bool,
    /// Whether the footprint is left out of position files.
    pub exclude_from_pos_files: bool,
    /// Whether the footprint is left out of the bill of materials.
    pub exclude_from_bom: bool,
    /// The layers private to the footprint.
    pub private_layers: Option<Vec<String>>,
    /// The groups of pads that may short different nets.
    pub net_tie_pad_groups: Option<Vec<String>>,
    /// The graphical objects.
    pub graphic_items: Vec<GraphicItem>,
    /// The pads.
    pub pads: Vec<Pad>,
    /// The keep out zones.
    pub zones: Vec<String>,
    /// The groups.
    pub groups: Vec<String>,
    /// The 3D model.
    pub model_3d: Option<String>,
}

/// A text of a footprint.
#[derive(Debug)]
pub struct FpText {
    /// What the text is: reference, value or user text.
    pub text_type: String,
    /// The text.
    pub text: String,
    /// The position and orientation.
    pub pos: Pos,
    /// Whether the text keeps its orientation.
    pub unlocked: bool,
    /// The layer the text lies on.
    pub layer: String,
    /// Whether the text is hidden.
    pub hide: bool,
    /// How the text is displayed.
    pub effects: String,
    /// The unique identifier.
    pub tstamp: String,
}

/// A text box of a footprint.
#[derive(Debug)]
pub struct FpTextBox {
    /// Whether the text box cannot be edited.
    pub locked: bool,
    /// The text.
    pub text: String,
    /// The top left corner of an upright box.
    pub start: Option<(i32, i32)>,
    /// The bottom right corner of an upright box.
    pub end: Option<(i32, i32)>,
    /// The four corners of a turned box.
    pub pts: Option<Vec<(i32, i32)>>,
    /// The rotation of the box.
    pub angle: Option<i32>,
    /// The layer the box lies on.
    pub layer: String,
    /// The unique identifier.
    pub tstamp: String,
    /// How the text is displayed.
    pub text_effects: String,
    /// How the border is drawn.
    pub stroke_definition: Option<String>,
    /// The render cache of the text.
    pub render_cache: Option<String>,
}

/// A line of a footprint.
#[derive(Debug)]
pub struct FpLine {
    pub start: Pt,
    pub end: Pt,
    pub layer: String,
    pub stroke: Stroke,
    pub locked: bool,
    pub tstamp: String,
}

/// A rectangle of a footprint.
#[derive(Debug)]
pub struct FpRect {
    pub start: Pt,
    pub end: Pt,
    pub layer: String,
    pub width: i32,
    pub stroke_definition: Option<String>,
    pub fill: Option<String>,
    pub locked: bool,
    pub tstamp: String,
}

/// A circle of a footprint.
#[derive(Debug)]
pub struct FpCircle {
    pub center: Pt,
    pub end: Pt,
    pub layer: String,
    pub width: i32,
    pub stroke_definition: Option<String>,
    pub fill: Option<String>,
    pub locked: bool,
    pub tstamp: String,
}

/// An arc of a footprint.
#[derive(Debug)]
pub struct FpArc {
    pub start: Pt,
    pub mid: Pt,
    pub end: Pt,
    pub layer: String,
    pub width: i32,
    pub stroke_definition: Option<String>,
    pub locked: bool,
    pub tstamp: String,
}

/// A polygon of a footprint.
#[derive(Debug)]
pub struct FpPoly {
    pub pts: Pts,
    pub layer: String,
    pub width: i32,
    pub stroke_definition: Option<String>,
    pub fill: Option<String>,
    pub locked: bool,
    pub tstamp: String,
}

/// A curve of a footprint.
#[derive(Debug)]
pub struct FpCurve {
    pub pts: Pts,
    pub layer: String,
    pub width: i32,
    pub stroke_definition: Option<String>,
    pub locked: bool,
    pub tstamp: String,
}

/// The graphical objects of a footprint.
#[derive(Debug)]
pub enum GraphicItem {
    FpLine(FpLine),
    FpRect(FpRect),
    FpArc(FpArc),
    FpCircle(FpCircle),
    FpCurve(FpCurve),
    FpPoly(FpPoly),
    AnnotationBoundingBox,
}

/// The drawing of a custom pad.
#[derive(Debug)]
pub struct CustomPadPrimitives {
    pub graphic_items: Vec<GraphicItem>,
    pub width: i32,
    pub fill: Option<bool>,
}

/// The kind of a pad.
#[derive(Debug, Clone, Copy, PartialEq, Eq, Structural)]
pub enum PadType {
    ThruHole,
    Smd,
    Connect,
    NpThruHole,
}

impl PadType {
    /// The kind of pad that a name stands for.
    pub open spec fn from_name_spec(s: Seq<char>) -> Option<PadType> {
        if s == "thru_hole"@ {
            Some(PadType::ThruHole)
        } else if s == "smd"@ {
            Some(PadType::Smd)
        } else if s == "connect"@ {
            Some(PadType::Connect)
        } else if s == "np_thru_hole"@ {
            Some(PadType::NpThruHole)
        } else {
            None
        }
    }

    /// The kind of pad named `thru_hole`, `smd`, `connect` or
    /// `np_thru_hole`; `None` for any other name.
    pub fn from_name(s: &str) -> (r: Option<PadType>)
        ensures
            r == Self::from_name_spec(s@),
    {
        if str_eq(s, "thru_hole") {
            Some(PadType::ThruHole)
        } else if str_eq(s, "smd") {
            Some(PadType::Smd)
        } else if str_eq(s, "connect") {
            Some(PadType::Connect)
        } else if str_eq(s, "np_thru_hole") {
            Some(PadType::NpThruHole)
        } else {
            None
        }
    }
}

/// The shape of a pad.
#[derive(Debug, Clone, Copy, PartialEq, Eq, Structural)]
pub enum PadShape {
    Circle,
    Rect,
    Oval,
    Trapezoid,
    RoundRect,
    Custom,
}

impl PadShape {
    /// The shape that a name stands for.
    pub open spec fn from_name_spec(s: Seq<char>) -> Option<PadShape> {
        if s == "circle"@ {
            Some(PadShape::Circle)
        } else if s == "rect"@ {
            Some(PadShape::Rect)
        } else if s == "oval"@ {
            Some(PadShape::Oval)
        } else if s == "trapezoid"@ {
            Some(PadShape::Trapezoid)
        } else if s == "roundrect"@ {
            Some(PadShape::RoundRect)
        } else if s == "custom"@ {
            Some(PadShape::Custom)
        } else {
            None
        }
    }

    /// The shape named `circle`, `rect`, `oval`, `trapezoid`, `roundrect`
    /// or `custom`; `None` for any other name.
    pub fn from_name(s: &str) -> (r: Option<PadShape>)
        ensures
            r == Self::from_name_spec(s@),
    {
        if str_eq(s, "circle") {
            Some(PadShape::Circle)
        } else if str_eq(s, "rect") {
            Some(PadShape::Rect)
        } else if str_eq(s, "oval") {
            Some(PadShape::Oval)
        } else if str_eq(s, "trapezoid") {
            Some(PadShape::Trapezoid)
        } else if str_eq(s, "roundrect") {
            Some(PadShape::RoundRect)
        } else if str_eq(s, "custom") {
            Some(PadShape::Custom)
        } else {
            None
        }
    }
}

/// The options of a custom pad.
#[derive(Debug, Clone, PartialEq)]
pub struct CustomPadOptions {
    pub clearance_type: Option<String>,
    pub anchor_pad_shape: Option<String>,
}

/// The drill of a pad.
#[derive(Debug)]
pub struct DrillDefinition {
    pub oval: Option<bool>,
    pub diameter: i32,
    pub width: Option<i32>,
    pub offset_x: Option<i32>,
    pub offset_y: Option<i32>,
}

/// A pad of a footprint on the board.
#[derive(Debug)]
pub struct Pad {
    pub number: String,
    pub pad_type: PadType,
    pub shape: PadShape,
    pub pos: Pos,
    pub size: (i32, i32),
    pub drill: Option<i32>,
    pub net: Net,
    pub tstamp: String,
}

} // verus!
