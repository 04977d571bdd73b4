use vstd::prelude::*;
use crate::infer::{is_numeral, numeral};
use crate::operation::{GridController, ImportError, Operation, Sheet};
use crate::order::{key_after, key_lt, order_keys};
use crate::value::{CellModel, CellValue, CellValues, SheetId};

verus! {

/// A workbook cell as the source format reports it; numbers are kept in the
/// text form the source library writes them in.
#[derive(Clone, Debug, PartialEq)]
pub enum SourceCell {
    Empty,
    String(String),
    Float(String),
    Int(String),
    Bool(bool),
    /// A spreadsheet date or duration: whether it is a date and time, that
    /// date and time where it can be formed, and the value's own text.
    DateTime { is_datetime: bool, datetime: Option<String>, text: String },
    DateTimeIso(String),
    DurationIso(String),
    Error,
}

/// The cell value a workbook cell becomes.
pub open spec fn coerced(c: SourceCell) -> CellModel {
    match c {
        SourceCell::Empty => CellModel::Blank,
        SourceCell::String(s) => CellModel::Text(s@),
        SourceCell::Float(t) | SourceCell::Int(t) => if is_numeral(t@) {
            CellModel::Number(t@)
        } else {
            CellModel::Blank
        },
        SourceCell::Bool(b) => CellModel::Logical(b),
        SourceCell::DateTime { is_datetime, datetime, text } => if !is_datetime {
            CellModel::Text(text@)
        } else {
            match datetime {
                Some(d) => CellModel::Text(d@),
                None => CellModel::Text(text@),
            }
        },
        SourceCell::DateTimeIso(s) | SourceCell::DurationIso(s) => CellModel::Text(s@),
        SourceCell::Error => CellModel::Blank,
    }
}

/// Converts a workbook cell to a cell value.
pub fn coerce_cell(c: &SourceCell) -> (r: CellValue)
    ensures
        r@ == coerced(*c),
{
    match c {
        SourceCell::Empty => CellValue::Blank,
        SourceCell::String(s) => CellValue::Text(s.clone()),
        SourceCell::Float(t) | SourceCell::Int(t) => if numeral(t.as_str()) {
            CellValue::Number(t.clone())
        } else {
            CellValue::Blank
        },
        SourceCell::Bool(b) => CellValue::Logical(*b),
        SourceCell::DateTime { is_datetime, datetime, text } => if !*is_datetime {
            CellValue::Text(text.clone())
        } else {
            match datetime {
                Some(d) => CellValue::Text(d.clone()),
                None => CellValue::Text(text.clone()),
            }
        },
        SourceCell::DateTimeIso(s) | SourceCell::DurationIso(s) => CellValue::Text(s.clone()),
        SourceCell::Error => CellValue::Blank,
    }
}

/// The new sheet made of rows of workbook cells, all `width` long.
pub fn sheet_from_cells(
    id: SheetId,
    name: String,
    order: String,
    width: u32,
    cells: &Vec<Vec<SourceCell>>,
) -> (r: Sheet)
    requires
        cells@.len() <= u32::MAX,
        forall|y: int| 0 <= y < cells@.len() ==> #[trigger] cells@[y]@.len() == width,
    ensures
        r.id == id,
        r.name == name,
        r.order == order,
        r.values.wf(),
        r.values.w == width,
        r.values.h == cells@.len(),
        forall|x: int, y: int|
            0 <= x < width && 0 <= y < cells@.len() ==> #[trigger] r.values.cell(x, y) == coerced(
                cells@[y]@[x],
            ),
{
    let mut rows: Vec<Vec<CellValue>> = Vec::new();
    let mut y: usize = 0;
    while y < cells.len()
        invariant
            y <= cells@.len() <= u32::MAX,
            forall|j: int| 0 <= j < cells@.len() ==> #[trigger] cells@[j]@.len() == width,
            rows@.len() == y,
            forall|j: int| 0 <= j < y ==> #[trigger] rows@[j]@.len() == width,
            forall|x: int, j: int|
                0 <= x < width && 0 <= j < y ==> #[trigger] rows@[j]@[x]@ == coerced(cells@[j]@[x]),
        decreases cells@.len() - y,
    {
        let source = &cells[y];
        let mut row: Vec<CellValue> = Vec::new();
        let mut x: usize = 0;
        while x < width as usize
            invariant
                x <= width,
                source@.len() == width,
                row@.len() == x,
                forall|i: int| 0 <= i < x ==> (#[trigger] row@[i])@ == coerced(source@[i]),
            decreases width - x,
        {
            row.push(coerce_cell(&source[x]));
            x = x + 1;
        }
        rows.push(row);
        y = y + 1;
    }
    let values = CellValues::from_rows(width, rows);
    Sheet { id, name, order, values }
}

/// A sheet of a workbook as read: its name and its cells, row by row, every
/// row `width` cells long.
#[derive(Clone, Debug, PartialEq)]
pub struct SourceSheet {
    pub name: String,
    pub width: u32,
    pub cells: Vec<Vec<SourceCell>>,
}

impl SourceSheet {
    pub open spec fn wf(&self) -> bool {
        &&& self.cells@.len() <= u32::MAX
        &&& forall|y: int| 0 <= y < self.cells@.len() ==> #[trigger] self.cells@[y]@.len() == self.width
    }
}

/// The new sheet made of a source sheet: the given identity, the source's
/// name, and at each (x, y) of the source the coerced cell.
pub open spec fn sheet_op(op: Operation, src: SourceSheet, id: int) -> bool {
    match op {
        Operation::AddSheet { sheet } => {
            &&& sheet.id.id == id
            &&& sheet.name@ == src.name@
            &&& sheet.values.wf()
            &&& sheet.values.w == src.width
            &&& sheet.values.h == src.cells@.len()
            &&& forall|x: int, y: int|
                0 <= x < src.width && 0 <= y < src.cells@.len() ==> #[trigger] sheet.values.cell(x, y)
                    == coerced(src.cells@[y]@[x])
        },
        _ => false,
    }
}

/// The ordering key of a new sheet.
pub open spec fn sheet_order(op: Operation) -> Seq<char> {
    match op {
        Operation::AddSheet { sheet } => sheet.order@,
        _ => Seq::empty(),
    }
}

/// What importing the sheets of a workbook gives.
pub open spec fn workbook_result(
    r: Result<Vec<Operation>, ImportError>,
    sheets: Seq<SourceSheet>,
    first_sheet_id: u64,
    file_name: Seq<char>,
) -> bool {
    if first_sheet_id + sheets.len() - 1 > u64::MAX {
        r matches Err(ImportError::OutOfRange { file_name: f }) && f@ == file_name
    } else {
        &&& r is Ok
        &&& r->Ok_0@.len() == sheets.len()
        &&& forall|i: int|
            0 <= i < sheets.len() ==> sheet_op(#[trigger] r->Ok_0@[i], sheets[i], first_sheet_id + i)
        &&& sheets.len() > 0 ==> sheet_order(r->Ok_0@[0]) == seq!['a', '0']
        &&& forall|i: int|
            0 <= i < sheets.len() - 1 ==> key_lt(
                sheet_order(#[trigger] r->Ok_0@[i]),
                sheet_order(r->Ok_0@[i + 1]),
            )
        &&& forall|i: int|
            0 <= i < sheets.len() - 1 ==> sheet_order(r->Ok_0@[i + 1]) == key_after(
                sheet_order(#[trigger] r->Ok_0@[i]),
            )
    }
}

/// Two imports of the same sheets with the same first identity agree: both
/// fail, or both give the same sheets with the same names, identities,
/// ordering keys and cells.
pub proof fn lemma_workbook_import_deterministic(
    sheets: Seq<SourceSheet>,
    first_sheet_id: u64,
    file_name: Seq<char>,
    r1: Result<Vec<Operation>, ImportError>,
    r2: Result<Vec<Operation>, ImportError>,
)
    requires
        workbook_result(r1, sheets, first_sheet_id, file_name),
        workbook_result(r2, sheets, first_sheet_id, file_name),
    ensures
        r1 is Ok <==> r2 is Ok,
        r1 is Ok ==> r1->Ok_0@.len() == r2->Ok_0@.len() && forall|i: int|
            0 <= i < r1->Ok_0@.len() ==> sheet_order(#[trigger] r1->Ok_0@[i]) == sheet_order(
                r2->Ok_0@[i],
            ) && sheet_op(r2->Ok_0@[i], sheets[i], first_sheet_id + i) && sheet_op(
                r1->Ok_0@[i],
                sheets[i],
                first_sheet_id + i,
            ),
{
    if r1 is Ok {
        let (a, b) = (r1->Ok_0@, r2->Ok_0@);
        assert forall|i: int| 0 <= i < a.len() implies sheet_order(#[trigger] a[i]) == sheet_order(
            b[i],
        ) by {
            lemma_same_orders(a, b, sheets.len() as int, i);
        }
    }
}

proof fn lemma_same_orders(a: Seq<Operation>, b: Seq<Operation>, n: int, i: int)
    requires
        a.len() == n,
        b.len() == n,
        0 <= i < n,
        sheet_order(a[0]) == sheet_order(b[0]),
        forall|j: int| 0 <= j < n - 1 ==> sheet_order(a[j + 1]) == key_after(#[trigger] sheet_order(a[j])),
        forall|j: int| 0 <= j < n - 1 ==> sheet_order(b[j + 1]) == key_after(#[trigger] sheet_order(b[j])),
    ensures
        sheet_order(a[i]) == sheet_order(b[i]),
    decreases i,
{
    if i > 0 {
        lemma_same_orders(a, b, n, i - 1);
        assert(sheet_order(a[i]) == key_after(sheet_order(a[i - 1])));
        assert(sheet_order(b[i]) == key_after(sheet_order(b[i - 1])));
    }
}

impl GridController {
    /// Imports the sheets of a workbook, in workbook order, as new sheets
    /// with identities from `first_sheet_id` on, each with an ordering key
    /// that sorts after the previous sheet's.
    pub fn import_excel_operations(
        &mut self,
        sheets: &Vec<SourceSheet>,
        first_sheet_id: u64,
        file_name: &str,
    ) -> (r: Result<Vec<Operation>, ImportError>)
        requires
            forall|i: int| 0 <= i < sheets@.len() ==> (#[trigger] sheets@[i]).wf(),
        ensures
            *final(self) == *old(self),
            workbook_result(r, sheets@, first_sheet_id, file_name@),
    {
        let n = sheets.len();
        if n > 0 && (n - 1) as u128 > (u64::MAX - first_sheet_id) as u128 {
            return Err(ImportError::OutOfRange { file_name: String::from_str(file_name) });
        }
        let keys = order_keys(n);
        let mut ops: Vec<Operation> = Vec::new();
        let mut i: usize = 0;
        while i < n
            invariant
                i <= n == sheets@.len() == keys@.len(),
                n > 0 ==> first_sheet_id + n - 1 <= u64::MAX,
                forall|j: int| 0 <= j < n ==> (#[trigger] sheets@[j]).wf(),
                ops@.len() == i,
                forall|j: int|
                    0 <= j < i ==> sheet_op(#[trigger] ops@[j], sheets@[j], first_sheet_id + j),
                forall|j: int| 0 <= j < i ==> sheet_order(#[trigger] ops@[j]) == keys@[j]@,
            decreases n - i,
        {
            let src = &sheets[i];
            let id = SheetId { id: first_sheet_id + i as u64 };
            let sheet = sheet_from_cells(id, src.name.clone(), keys[i].clone(), src.width, &src.cells);
            ops.push(Operation::AddSheet { sheet });
            i = i + 1;
        }
        assert forall|j: int| 0 <= j < n - 1 implies key_lt(
            sheet_order(#[trigger] ops@[j]),
            sheet_order(ops@[j + 1]),
        ) by {
            assert(sheet_order(ops@[j]) == keys@[j]@);
            assert(sheet_order(ops@[j + 1]) == keys@[j + 1]@);
        }
        if n > 0 {
            assert(sheet_order(ops@[0]) == keys@[0]@);
        }
        assert forall|j: int| 0 <= j < n - 1 implies sheet_order(ops@[j + 1]) == key_after(
            sheet_order(#[trigger] ops@[j]),
        ) by {
            assert(sheet_order(ops@[j]) == keys@[j]@);
            assert(sheet_order(ops@[j + 1]) == keys@[j + 1]@);
        }
        Ok(ops)
    }
}

} // verus!
