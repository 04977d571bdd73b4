use vstd::prelude::*;
use crate::value::{CellValues, SheetId, SheetPos};

verus! {

/// A new sheet with all of its contents.
#[derive(Clone, Debug, PartialEq)]
pub struct Sheet {
    pub id: SheetId,
    pub name: String,
    /// The key that places the sheet among the others, by string order.
    pub order: String,
    pub values: CellValues,
}

/// A change to be applied to the document, in the order given.
#[derive(Clone, Debug, PartialEq)]
pub enum Operation {
    /// Writes a block whose top left cell lands at the position.
    SetCellValues { sheet_pos: SheetPos, values: CellValues },
    /// Creates a whole new sheet at once.
    AddSheet { sheet: Sheet },
}

/// Why an import failed; each carries the name of the file.
#[derive(Clone, Debug, PartialEq)]
pub enum ImportError {
    /// The first record holds no field.
    EmptyFile { file_name: String },
    /// A record could not be read; `line` counts from 1.
    MalformedRecord { file_name: String, line: usize, message: String },
    /// The data would reach past the largest position or size.
    OutOfRange { file_name: String },
    /// The container format could not be opened or read.
    Source { file_name: String, message: String },
}

/// Owner of the import operations. Imports only describe changes: they leave
/// the controller as it was.
#[derive(Clone, Debug, PartialEq, Eq, Structural)]
pub struct GridController {}

impl GridController {
    pub fn new() -> (r: GridController) {
        GridController {}
    }
}

} // verus!
