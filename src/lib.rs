//! Import of delimited text, spreadsheet workbooks and column-oriented files
//! into a list of operations on a grid document.

pub mod columnar;
pub mod csv_import;
pub mod encoding;
pub mod infer;
pub mod operation;
pub mod order;
pub mod value;
pub mod workbook;
