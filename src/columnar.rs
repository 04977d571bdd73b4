use vstd::prelude::*;
use crate::csv_import::{ImportProgress, NoProgress};
use crate::operation::{GridController, ImportError, Operation};
use crate::value::{CellValue, CellValues, Pos, SheetId, SheetPos};

verus! {

/// One batch of a column-oriented file: `num_rows` rows, held column by column.
#[derive(Clone, Debug, PartialEq)]
pub struct ColumnBatch {
    pub num_rows: usize,
    pub columns: Vec<Vec<CellValue>>,
}

impl ColumnBatch {
    /// Every column holds `num_rows` values.
    pub open spec fn wf(&self) -> bool {
        forall|c: int| 0 <= c < self.columns@.len() ==> #[trigger] self.columns@[c]@.len() == self.num_rows
    }
}

/// The number of rows of all the batches together.
pub open spec fn total_rows(batches: Seq<ColumnBatch>) -> int
    decreases batches.len(),
{
    if batches.len() == 0 {
        0
    } else {
        total_rows(batches.drop_last()) + batches.last().num_rows
    }
}

/// Where each column of each batch is written, in order: its column index,
/// the number of data rows above it, and its values.
pub open spec fn column_writes(batches: Seq<ColumnBatch>) -> Seq<(int, int, Seq<CellValue>)>
    decreases batches.len(),
{
    if batches.len() == 0 {
        Seq::empty()
    } else {
        let prev = batches.drop_last();
        let b = batches.last();
        column_writes(prev) + Seq::new(
            b.columns@.len(),
            |c: int| (c, total_rows(prev), b.columns@[c]@),
        )
    }
}

/// Batch b can be placed: its rows fit a block and its cells fit the grid.
pub open spec fn batch_fits(batches: Seq<ColumnBatch>, b: int, at: Pos) -> bool {
    &&& batches[b].num_rows <= u32::MAX
    &&& batches[b].columns@.len() <= i64::MAX
    &&& at.x + batches[b].columns@.len() <= i64::MAX
    &&& total_rows(batches.subrange(0, b + 1)) <= i64::MAX
    &&& at.y + 1 + total_rows(batches.subrange(0, b + 1)) <= i64::MAX
}

/// The write of one column: one cell wide, at (x, y).
pub open spec fn column_op(op: Operation, col: Seq<CellValue>, sheet_id: SheetId, x: int, y: int) -> bool {
    match op {
        Operation::SetCellValues { sheet_pos, values } => {
            &&& sheet_pos == SheetPos { x: x as i64, y: y as i64, sheet_id }
            &&& values.wf()
            &&& values.w == 1
            &&& values.h == col.len()
            &&& forall|r: int| 0 <= r < col.len() ==> #[trigger] values.cell(0, r) == col[r]@
        },
        _ => false,
    }
}

/// The header row: the field names as text, at the anchor.
pub open spec fn header_op(op: Operation, headers: Seq<String>, sheet_id: SheetId, at: Pos) -> bool {
    match op {
        Operation::SetCellValues { sheet_pos, values } => {
            &&& sheet_pos == SheetPos { x: at.x, y: at.y, sheet_id }
            &&& values.wf()
            &&& values.w == headers.len()
            &&& values.h == 1
            &&& forall|c: int|
                0 <= c < headers.len() ==> #[trigger] values.cell(c, 0)
                    == crate::value::CellModel::Text(headers[c]@)
        },
        _ => false,
    }
}

fn header_values(headers: &Vec<String>) -> (r: CellValues)
    requires
        headers@.len() <= u32::MAX,
    ensures
        r.wf(),
        r.w == headers@.len(),
        r.h == 1,
        forall|c: int|
            0 <= c < headers@.len() ==> #[trigger] r.cell(c, 0) == crate::value::CellModel::Text(
                headers@[c]@,
            ),
{
    let mut row: Vec<CellValue> = Vec::new();
    let mut i: usize = 0;
    while i < headers.len()
        invariant
            i <= headers@.len(),
            row@.len() == i,
            forall|c: int| 0 <= c < i ==> (#[trigger] row@[c])@ == crate::value::CellModel::Text(headers@[c]@),
        decreases headers@.len() - i,
    {
        row.push(CellValue::Text(headers[i].clone()));
        i = i + 1;
    }
    let r = CellValues::from_row(row);
    assert forall|c: int| 0 <= c < headers@.len() implies #[trigger] r.cell(c, 0)
        == crate::value::CellModel::Text(headers@[c]@) by {
        assert(r.cell(c, 0) == row@[c]@);
    }
    r
}

fn column_values(col: &Vec<CellValue>) -> (r: CellValues)
    requires
        col@.len() <= u32::MAX,
    ensures
        r.wf(),
        r.w == 1,
        r.h == col@.len(),
        forall|y: int| 0 <= y < col@.len() ==> #[trigger] r.cell(0, y) == col@[y]@,
{
    let mut rows: Vec<Vec<CellValue>> = Vec::new();
    let mut i: usize = 0;
    while i < col.len()
        invariant
            i <= col@.len(),
            rows@.len() == i,
            forall|y: int| 0 <= y < i ==> #[trigger] rows@[y]@.len() == 1,
            forall|y: int| 0 <= y < i ==> (#[trigger] rows@[y])@[0]@ == col@[y]@,
        decreases col@.len() - i,
    {
        let mut row: Vec<CellValue> = Vec::new();
        row.push(col[i].duplicate());
        rows.push(row);
        i = i + 1;
    }
    CellValues::from_rows(1, rows)
}

/// What placing a column-oriented file gives: an error exactly where some
/// batch cannot be placed, else the header row and one write per column.
pub open spec fn columnar_result(
    r: Result<Vec<Operation>, ImportError>,
    headers: Seq<String>,
    batches: Seq<ColumnBatch>,
    sheet_id: SheetId,
    insert_at: Pos,
) -> bool {
    &&& (r is Ok <==> headers.len() <= u32::MAX && forall|b: int|
            0 <= b < batches.len() ==> #[trigger] batch_fits(batches, b, insert_at))
    &&& (r is Err ==> r matches Err(ImportError::OutOfRange { .. }))
    &&& (r is Ok ==> {
            let ops = r->Ok_0@;
            let writes = column_writes(batches);
            &&& ops.len() == 1 + writes.len()
            &&& header_op(ops[0], headers, sheet_id, insert_at)
            &&& forall|k: int|
                0 <= k < writes.len() ==> column_op(
                    #[trigger] ops[k + 1],
                    writes[k].2,
                    sheet_id,
                    insert_at.x + writes[k].0,
                    insert_at.y + 1 + writes[k].1,
                )
        })
}

/// The operations that place a column-oriented file at the anchor: the
/// header row first, then each column of each batch, below the rows of the
/// batches before it. After each column the observer is told the rows done
/// of `total`, and the widest and tallest batch so far.
pub fn columnar_operations<P: ImportProgress>(
    sheet_id: SheetId,
    headers: &Vec<String>,
    batches: &Vec<ColumnBatch>,
    total: u64,
    file_name: &str,
    insert_at: Pos,
    progress: &mut P,
) -> (r: Result<Vec<Operation>, ImportError>)
    requires
        forall|b: int| 0 <= b < batches@.len() ==> (#[trigger] batches@[b]).wf(),
    ensures
        columnar_result(r, headers@, batches@, sheet_id, insert_at),
{
    if headers.len() > u32::MAX as usize {
        return Err(ImportError::OutOfRange { file_name: file_name.to_string() });
    }
    let mut ops: Vec<Operation> = Vec::new();
    ops.push(
        Operation::SetCellValues {
            sheet_pos: SheetPos { x: insert_at.x, y: insert_at.y, sheet_id },
            values: header_values(headers),
        },
    );
    let mut offset: u64 = 0;
    let mut width: u32 = headers.len() as u32;
    let mut height: u32 = 0;
    let mut b: usize = 0;
    while b < batches.len()
        invariant
            b <= batches@.len(),
            forall|j: int| 0 <= j < batches@.len() ==> (#[trigger] batches@[j]).wf(),
            forall|j: int| 0 <= j < b ==> #[trigger] batch_fits(batches@, j, insert_at),
            offset == total_rows(batches@.subrange(0, b as int)),
            b > 0 ==> insert_at.y + 1 + offset <= i64::MAX,
            offset <= i64::MAX,
            ops@.len() == 1 + column_writes(batches@.subrange(0, b as int)).len(),
            header_op(ops@[0], headers@, sheet_id, insert_at),
            forall|k: int|
                0 <= k < column_writes(batches@.subrange(0, b as int)).len() ==> column_op(
                    #[trigger] ops@[k + 1],
                    column_writes(batches@.subrange(0, b as int))[k].2,
                    sheet_id,
                    insert_at.x + column_writes(batches@.subrange(0, b as int))[k].0,
                    insert_at.y + 1 + column_writes(batches@.subrange(0, b as int))[k].1,
                ),
        decreases batches@.len() - b,
    {
        let batch = &batches[b];
        let ghost prev = batches@.subrange(0, b as int);
        let ghost upto = batches@.subrange(0, b + 1);
        assert(upto.drop_last() =~= prev);
        assert(upto.last() == batch);
        assert(total_rows(upto) == offset + batch.num_rows);
        assert(batches@[b as int] == batch);
        let ncols = batch.columns.len();
        let rows = batch.num_rows;
        let fits = rows <= u32::MAX as usize && (ncols as i128) <= i64::MAX as i128 && (offset as i128)
            + (rows as i128) <= i64::MAX as i128 && (insert_at.x as i128) + (ncols as i128)
            <= i64::MAX as i128 && (insert_at.y as i128) + 1 + (offset as i128) + (rows as i128)
            <= i64::MAX as i128;
        if !fits {
            assert(!batch_fits(batches@, b as int, insert_at));
            return Err(ImportError::OutOfRange { file_name: file_name.to_string() });
        }
        let ghost before = ops@;
        if ncols > width as usize {
            width = if ncols > u32::MAX as usize { u32::MAX } else { ncols as u32 };
        }
        if rows as u32 > height {
            height = rows as u32;
        }
        let done = offset + rows as u64;
        let mut c: usize = 0;
        while c < ncols
            invariant
                c <= ncols == batch.columns@.len() <= i64::MAX,
                offset <= i64::MAX,
                batch.wf(),
                batch.num_rows <= u32::MAX,
                insert_at.x + ncols <= i64::MAX,
                insert_at.y + 1 + offset <= i64::MAX,
                ops@.len() == before.len() + c,
                forall|k: int| 0 <= k < before.len() ==> ops@[k] == before[k],
                forall|k: int|
                    0 <= k < c ==> column_op(
                        #[trigger] ops@[before.len() + k],
                        batch.columns@[k]@,
                        sheet_id,
                        insert_at.x + k,
                        insert_at.y + 1 + offset,
                    ),
            decreases ncols - c,
        {
            let values = column_values(&batch.columns[c]);
            let op = Operation::SetCellValues {
                sheet_pos: SheetPos {
                    x: insert_at.x + c as i64,
                    y: insert_at.y + 1 + offset as i64,
                    sheet_id,
                },
                values,
            };
            assert(column_op(op, batch.columns@[c as int]@, sheet_id, insert_at.x + c, insert_at.y + 1 + offset));
            ops.push(op);
            progress.notify(file_name, done, total, insert_at.x, insert_at.y, width, height as u64);
            c = c + 1;
        }
        proof {
            let w = column_writes(upto);
            let wp = column_writes(prev);
            assert(w =~= wp + Seq::new(
                batch.columns@.len(),
                |c: int| (c, total_rows(prev), batch.columns@[c]@),
            ));
            assert forall|k: int| 0 <= k < w.len() implies column_op(
                #[trigger] ops@[k + 1],
                w[k].2,
                sheet_id,
                insert_at.x + w[k].0,
                insert_at.y + 1 + w[k].1,
            ) by {
                if k < wp.len() {
                    assert(ops@[k + 1] == before[k + 1]);
                } else {
                    assert(ops@[before.len() + (k - wp.len())] == ops@[k + 1]);
                }
            }
            assert(ops@[0] == before[0]);
        }
        offset = offset + batch.num_rows as u64;
        b = b + 1;
    }
    assert(batches@.subrange(0, batches@.len() as int) =~= batches@);
    Ok(ops)
}

impl GridController {
    /// Imports a column-oriented file, given as its field names, its number
    /// of rows and its batches of columns, at the anchor.
    pub fn import_parquet_operations(
        &mut self,
        sheet_id: SheetId,
        headers: &Vec<String>,
        batches: &Vec<ColumnBatch>,
        total: u64,
        file_name: &str,
        insert_at: Pos,
    ) -> (r: Result<Vec<Operation>, ImportError>)
        requires
            forall|b: int| 0 <= b < batches@.len() ==> (#[trigger] batches@[b]).wf(),
        ensures
            *final(self) == *old(self),
            columnar_result(r, headers@, batches@, sheet_id, insert_at),
    {
        let mut progress = NoProgress;
        columnar_operations(sheet_id, headers, batches, total, file_name, insert_at, &mut progress)
    }
}

} // verus!
