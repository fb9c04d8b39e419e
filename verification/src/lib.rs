//! Geometry and connectivity core for KiCad-compatible schematic drawings.
//!
//! All lengths are fixed-point integers counted in units of 0.0001 mm and all
//! angles in units of 0.0001 degree, so that every computation is exact.

use vstd::prelude::*;

pub mod fixed;
pub mod strings;
pub mod number;
pub mod ordered;
pub mod gr;
pub mod draw;
pub mod symbol_library;
pub mod symbols;
pub mod schema;
pub mod math;
pub mod netlist;
pub mod sexp;
pub mod schema_ploter;
pub mod schema_reader;
pub mod schema_writer;
pub mod parser;
pub mod pcb;
pub mod pcb_reader;
pub mod footprint;
pub mod plot;

pub use draw::{Drawable, Drawer};

verus! {

/// What went wrong.
#[derive(Debug, Clone, Copy, PartialEq, Eq, Structural)]
pub enum ErrorKind {
    /// No placed unit of the referenced symbol exposes the pin.
    PinUnitNotFound,
    /// No placed symbol has the reference and unit.
    SymbolNotFound,
    /// The schema holds no library symbol with the identifier.
    LibraryNotFound,
    /// The library symbol has no pin with the number.
    PinNotFound,
    /// A rotation that is not a whole number of quarter turns where only
    /// those are supported.
    UnsupportedAngle,
    /// A mirror axis other than `x`, `y` or `xy`.
    UnsupportedMirror,
    /// A position reference of a kind that cannot be resolved.
    UnsupportedReference,
    /// A coordinate that does not fit the 32-bit fixed-point range.
    OutOfRange,
    /// A document that is not well formed.
    Sexp,
    /// An item that lacks what its kind must have.
    Malformed,
    /// The text measurements do not match the texts.
    Measure,
    /// The theme lacks a value for a style.
    Theme,
    /// An item of a kind that cannot be written.
    Unsupported,
    /// A symbol with pins at all four sides, or with one pin that points to
    /// none: there is no side for its properties.
    NoFreeSide,
}

/// The Error struct used for all error handling: the kind and a message.
#[derive(Debug, Clone)]
pub struct Error(pub ErrorKind, pub String);

impl Error {
    /// An error of the given kind with a message.
    pub fn new(kind: ErrorKind, message: &str) -> (e: Error)
        ensures
            e.0 == kind,
            e.1@ == message@,
    {
        Error(kind, message.to_string())
    }
}

/// `Uuid::new_v4` of the uuid crate, written as text: a random identifier,
/// of which nothing is claimed.
#[verifier::external_body]
pub(crate) fn new_uuid() -> String {
    uuid::Uuid::new_v4().to_string()
}

/// Define the `Schematic` file format.
#[derive(Debug)]
pub struct Schema {
    /// The name of the project.
    pub project: String,
    /// The schematic version, using the YYYYMMDD date format.
    pub version: String,
    /// The universally unique identifier for the schematic file.
    pub uuid: String,
    /// The program used to write the file.
    pub generator: String,
    /// The program version for file writing.
    pub generator_version: Option<String>,
    /// The paper size.
    pub paper: gr::PaperSize,
    /// The contents of the title block.
    pub title_block: gr::TitleBlock,
    /// The library symbols that the placed symbols refer to.
    pub library_symbols: Vec<symbols::LibrarySymbol>,
    /// The items of the schematic, in the order of the file.
    pub items: Vec<schema::SchemaItem>,
    /// The sheet instances.
    pub sheet_instances: Vec<schema::Instance>,
    /// The grid step of the builder.
    pub grid: i32,
    /// The position at which the builder places the next item.
    pub last_pos: draw::At,
}

/// Pcb file format for all versions of KiCad from 6.0.
#[derive(Debug)]
pub struct Pcb {
    /// The pcb version, using the YYYYMMDD date format.
    pub version: String,
    /// The universally unique identifier for the pcb file.
    pub uuid: String,
    /// The program used to write the file.
    pub generator: String,
    /// The program version used to write the file.
    pub generator_version: Option<String>,
    /// The layers of the board.
    pub layers: Vec<pcb::Layer>,
    /// The nets of the board.
    pub nets: Vec<pcb::Net>,
    /// The footprints on the pcb.
    pub footprints: Vec<pcb::Footprint>,
    /// The track segments.
    pub segments: Vec<pcb::Segment>,
}

/// implement the symbol lirarary.
#[derive(Debug)]
pub struct SymbolLibrary {
    /// The directories in which the symbol libraries are looked for.
    pub pathlist: Vec<String>,
}

/// What a drawing offers to what is drawn on it and to a plotter: its
/// cursor, the points that positions stand for, and what is drawn for it.
pub trait Plot {
    /// Draws on a plotter as a command says, for the measured sizes of the
    /// texts, and gives the part of the drawing that is seen.
    fn plot(
        &self,
        plotter: &mut plot::PlotterImpl,
        command: &plot::PlotCommand,
        dims: &Vec<(i32, i32)>,
    ) -> Result<gr::Rect, Error>;

    /// Move the cursor position to the pt.
    fn move_to(&mut self, pt: draw::At);

    /// Resolve the At position to a Pt.
    fn get_pt(&self, at: &draw::At) -> Result<gr::Pt, Error>;
}

/// `yes` for true and `no` for false, as the file format writes flags.
pub fn yes_or_no(input: bool) -> (r: String)
    ensures
        r@ == (if input { "yes"@ } else { "no"@ }),
{
    if input {
        "yes".to_string()
    } else {
        "no".to_string()
    }
}

} // verus!
