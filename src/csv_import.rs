use vstd::prelude::*;
use vstd::utf8::{encode_utf8, valid_utf8};
use crate::encoding::{is_utf8, read_utf16, recovered_text};
use crate::infer::{infer_value, inferred};
use crate::operation::{GridController, ImportError, Operation};
use crate::value::{CellModel, CellValue, CellValues, Pos, SheetId, SheetPos};

verus! {

/// The largest number of rows that one written block holds.
pub const IMPORT_LINES_PER_OPERATION: usize = 10000;

/// A record as read: its fields, or the reader's message where it is malformed.
pub type RecordModel = Result<Seq<Seq<char>>, Seq<char>>;

/// The records that csv's flexible reader finds in the bytes, with no header
/// row, in order.
pub uninterp spec fn csv_records(file: Seq<u8>) -> Seq<RecordModel>;

pub open spec fn record_model(r: Result<Vec<String>, String>) -> RecordModel {
    match r {
        Ok(fields) => Ok(fields@.map_values(|s: String| s@)),
        Err(e) => Err(e@),
    }
}

/// The model of records as read.
pub open spec fn records_view(v: Seq<Result<Vec<String>, String>>) -> Seq<RecordModel> {
    v.map_values(|x: Result<Vec<String>, String>| record_model(x))
}

/// Relies on csv's `Reader::records`, flexible and with no header row: one
/// entry per record, holding its fields or the error's message.
#[verifier::external_body]
fn read_records(file: &[u8]) -> (r: Vec<Result<Vec<String>, String>>)
    ensures
        records_view(r@) == csv_records(file@),
{
    let mut reader = csv::ReaderBuilder::new().has_headers(false).flexible(true).from_reader(file);
    reader.records().map(|r| r.map(|f| f.iter().map(String::from).collect()).map_err(|e| e.to_string())).collect()
}

/// The number of records that csv's strict reader (every record as long as
/// the first) yields from the bytes, malformed ones included.
pub uninterp spec fn csv_record_count(file: Seq<u8>) -> nat;

/// Relies on csv's `Reader::records` with no header row, counted.
#[verifier::external_body]
fn count_records(file: &[u8]) -> (r: usize)
    ensures
        r == csv_record_count(file@),
{
    csv::ReaderBuilder::new().has_headers(false).from_reader(file).records().count()
}

/// An observer told of an import's progress after each full block.
pub trait ImportProgress {
    /// `current` of `total` rows are done; the import is anchored at (x, y)
    /// and is `width` by `height` cells.
    fn notify(
        &mut self,
        file_name: &str,
        current: u64,
        total: u64,
        x: i64,
        y: i64,
        width: u32,
        height: u64,
    );
}

/// An observer that ignores progress.
pub struct NoProgress;

impl ImportProgress for NoProgress {
    fn notify(
        &mut self,
        _file_name: &str,
        _current: u64,
        _total: u64,
        _x: i64,
        _y: i64,
        _width: u32,
        _height: u64,
    ) {
    }
}

/// The bytes that are parsed: the input where it is UTF-8, else the text
/// recovered from it where there is any, else the input unchanged.
pub open spec fn csv_input(file: Seq<u8>) -> Seq<u8> {
    if valid_utf8(file) {
        file
    } else {
        match recovered_text(file) {
            Some(t) => encode_utf8(t),
            None => file,
        }
    }
}

/// The value of column c of a record; blank past the record's end.
pub open spec fn field_model(fields: Seq<Seq<char>>, c: int) -> CellModel {
    if c < fields.len() {
        inferred(fields[c])
    } else {
        CellModel::Blank
    }
}

pub open spec fn min(a: int, b: int) -> int {
    if a < b {
        a
    } else {
        b
    }
}

/// The number of blocks that rows are cut into.
pub open spec fn chunk_count(rows: int) -> int {
    (rows + IMPORT_LINES_PER_OPERATION - 1) / IMPORT_LINES_PER_OPERATION as int
}

/// The index of the first malformed record, if any.
pub open spec fn has_error_at(recs: Seq<RecordModel>, i: int) -> bool {
    0 <= i < recs.len() && recs[i] is Err && forall|j: int| 0 <= j < i ==> #[trigger] recs[j] is Ok
}

/// Block k of a well-formed import: placed k blocks below the anchor, as wide
/// as the first record, holding the next rows in their order.
pub open spec fn chunk_op(
    op: Operation,
    recs: Seq<RecordModel>,
    width: int,
    k: int,
    sheet_id: SheetId,
    at: Pos,
) -> bool {
    let start = k * IMPORT_LINES_PER_OPERATION;
    let h = min(IMPORT_LINES_PER_OPERATION as int, recs.len() - start);
    match op {
        Operation::SetCellValues { sheet_pos, values } => {
            &&& sheet_pos == SheetPos { x: at.x, y: (at.y + start) as i64, sheet_id }
            &&& values.wf()
            &&& values.w == width
            &&& values.h == h
            &&& forall|c: int, r: int|
                0 <= c < width && 0 <= r < h ==> #[trigger] values.cell(c, r) == field_model(
                    recs[start + r]->Ok_0,
                    c,
                )
        },
        _ => false,
    }
}

/// What importing the records gives.
pub open spec fn csv_result(
    r: Result<Vec<Operation>, ImportError>,
    recs: Seq<RecordModel>,
    file_name: Seq<char>,
    sheet_id: SheetId,
    at: Pos,
) -> bool {
    if recs.len() == 0 || (recs[0] is Ok && recs[0]->Ok_0.len() == 0) {
        r matches Err(ImportError::EmptyFile { file_name: f }) && f@ == file_name
    } else if exists|i: int| has_error_at(recs, i) {
        r matches Err(ImportError::MalformedRecord { file_name: f, line, .. }) && f@ == file_name
            && has_error_at(recs, line - 1)
    } else if recs[0]->Ok_0.len() > u32::MAX || recs.len() - 1 > i64::MAX || at.y + recs.len() - 1
        > i64::MAX {
        r matches Err(ImportError::OutOfRange { file_name: f }) && f@ == file_name
    } else {
        &&& r is Ok
        &&& r->Ok_0@.len() == chunk_count(recs.len() as int)
        &&& forall|k: int|
            0 <= k < r->Ok_0@.len() ==> chunk_op(
                #[trigger] r->Ok_0@[k],
                recs,
                recs[0]->Ok_0.len() as int,
                k,
                sheet_id,
                at,
            )
    }
}

/// Two writes with the same anchor, the same size and the same cells.
pub open spec fn same_write(a: Operation, b: Operation) -> bool {
    match (a, b) {
        (
            Operation::SetCellValues { sheet_pos: p1, values: v1 },
            Operation::SetCellValues { sheet_pos: p2, values: v2 },
        ) => {
            &&& p1 == p2
            &&& v1.w == v2.w
            &&& v1.h == v2.h
            &&& forall|c: int, r: int| 0 <= c < v1.w && 0 <= r < v1.h ==> #[trigger] v1.cell(c, r) == v2.cell(c, r)
        },
        _ => false,
    }
}

/// Importing the same bytes twice at the same anchor gives the same outcome:
/// both succeed with the same writes, or both fail in the same way, a
/// malformed record being reported at the same line.
pub proof fn lemma_csv_import_deterministic(
    file: Seq<u8>,
    file_name: Seq<char>,
    sheet_id: SheetId,
    at: Pos,
    r1: Result<Vec<Operation>, ImportError>,
    r2: Result<Vec<Operation>, ImportError>,
)
    requires
        csv_result(r1, csv_records(csv_input(file)), file_name, sheet_id, at),
        csv_result(r2, csv_records(csv_input(file)), file_name, sheet_id, at),
    ensures
        r1 is Ok <==> r2 is Ok,
        r1 matches Err(ImportError::EmptyFile { .. }) <==> r2 matches Err(ImportError::EmptyFile { .. }),
        r1 matches Err(ImportError::OutOfRange { .. }) <==> r2 matches Err(ImportError::OutOfRange { .. }),
        r1 matches Err(ImportError::MalformedRecord { line: l1, .. }) ==> r2 matches Err(
            ImportError::MalformedRecord { line: l2, .. },
        ) && l1 == l2,
        r1 is Ok ==> r1->Ok_0@.len() == r2->Ok_0@.len() && forall|k: int|
            0 <= k < r1->Ok_0@.len() ==> same_write(#[trigger] r1->Ok_0@[k], r2->Ok_0@[k]),
{
    let recs = csv_records(csv_input(file));
    if let (
        Err(ImportError::MalformedRecord { line: l1, .. }),
        Err(ImportError::MalformedRecord { line: l2, .. }),
    ) = (r1, r2) {
        let (i, j) = (l1 - 1, l2 - 1);
        if i < j {
            assert(recs[i] is Ok);
        } else if j < i {
            assert(recs[j] is Ok);
        }
    }
    if r1 is Ok {
        let width = recs[0]->Ok_0.len() as int;
        assert forall|k: int| 0 <= k < r1->Ok_0@.len() implies same_write(
            #[trigger] r1->Ok_0@[k],
            r2->Ok_0@[k],
        ) by {
            assert(chunk_op(r1->Ok_0@[k], recs, width, k, sheet_id, at));
            assert(chunk_op(r2->Ok_0@[k], recs, width, k, sheet_id, at));
        }
    }
}

proof fn lemma_chunk_count(n: int, k: int) by (nonlinear_arith)
    requires
        k >= 1,
        (k - 1) * 10000 < n <= k * 10000,
    ensures
        k == (n + 10000 - 1) / 10000,
{
}

/// The block of rows `start..end`, `width` cells wide.
fn chunk_block(recs: &Vec<Result<Vec<String>, String>>, width: usize, start: usize, end: usize) -> (b:
    CellValues)
    requires
        start <= end <= recs@.len(),
        width <= u32::MAX,
        end - start <= u32::MAX,
        forall|j: int| 0 <= j < recs@.len() ==> #[trigger] recs@[j] is Ok,
    ensures
        b.wf(),
        b.w == width,
        b.h == end - start,
        forall|c: int, r: int|
            0 <= c < width && 0 <= r < end - start ==> #[trigger] b.cell(c, r) == field_model(
                record_model(recs@[start + r])->Ok_0,
                c,
            ),
{
    let mut rows: Vec<Vec<CellValue>> = Vec::new();
    let mut j: usize = start;
    while j < end
        invariant
            start <= j <= end <= recs@.len(),
            width <= u32::MAX,
            forall|i: int| 0 <= i < recs@.len() ==> #[trigger] recs@[i] is Ok,
            rows@.len() == j - start,
            forall|y: int| 0 <= y < rows@.len() ==> #[trigger] rows@[y]@.len() == width,
            forall|c: int, y: int|
                0 <= c < width && 0 <= y < rows@.len() ==> #[trigger] rows@[y]@[c]@ == field_model(
                    record_model(recs@[start + y])->Ok_0,
                    c,
                ),
        decreases end - j,
    {
        let fields = match &recs[j] {
            Ok(f) => f,
            Err(_) => {
                assert(recs@[j as int] is Ok);
                return CellValues::new(0, 0);
            },
        };
        let ghost model = record_model(recs@[j as int])->Ok_0;
        assert(model == fields@.map_values(|s: String| s@));
        let mut row: Vec<CellValue> = Vec::new();
        let mut c: usize = 0;
        while c < width
            invariant
                c <= width,
                model == fields@.map_values(|s: String| s@),
                row@.len() == c,
                forall|i: int| 0 <= i < c ==> (#[trigger] row@[i])@ == field_model(model, i),
            decreases width - c,
        {
            let v = if c < fields.len() {
                infer_value(&fields[c])
            } else {
                CellValue::Blank
            };
            row.push(v);
            c = c + 1;
        }
        rows.push(row);
        j = j + 1;
    }
    let b = CellValues::from_rows(width as u32, rows);
    b
}

/// Turns the records of a delimited text file into blocks of at most
/// `IMPORT_LINES_PER_OPERATION` rows.
fn csv_operations<P: ImportProgress>(
    sheet_id: SheetId,
    file: &[u8],
    file_name: &str,
    insert_at: Pos,
    progress: &mut P,
) -> (r: Result<Vec<Operation>, ImportError>)
    ensures
        csv_result(r, csv_records(file@), file_name@, sheet_id, insert_at),
{
    let total = count_records(file) as u64;
    let recs = read_records(file);
    records_operations(&recs, total, sheet_id, file_name, insert_at, progress)
}

/// Turns records as read into blocks of at most `IMPORT_LINES_PER_OPERATION`
/// rows, telling the observer of the rows done, of `total`, after each full
/// block.
pub fn records_operations<P: ImportProgress>(
    recs: &Vec<Result<Vec<String>, String>>,
    total: u64,
    sheet_id: SheetId,
    file_name: &str,
    insert_at: Pos,
    progress: &mut P,
) -> (r: Result<Vec<Operation>, ImportError>)
    ensures
        csv_result(r, records_view(recs@), file_name@, sheet_id, insert_at),
{
    let ghost model = records_view(recs@);
    assert(recs@.len() == model.len());
    assert forall|i: int| 0 <= i < recs@.len() implies #[trigger] model[i] == record_model(recs@[i]) by {
        assert(records_view(recs@)[i] == record_model(recs@[i]));
    }
    let n = recs.len();
    if n == 0 {
        return Err(ImportError::EmptyFile { file_name: String::from_str(file_name) });
    }
    let width = match &recs[0] {
        Ok(f) => f.len(),
        Err(e) => {
            assert(has_error_at(model, 0));
            return Err(
                ImportError::MalformedRecord {
                    file_name: String::from_str(file_name),
                    line: 1,
                    message: e.clone(),
                },
            );
        },
    };
    assert(model[0] == record_model(recs@[0]));
    assert(model[0]->Ok_0.len() == width);
    if width == 0 {
        return Err(ImportError::EmptyFile { file_name: String::from_str(file_name) });
    }
    let mut i: usize = 0;
    while i < n
        invariant
            i <= n == recs@.len() == model.len(),
            model == records_view(recs@),
            forall|k: int| 0 <= k < recs@.len() ==> #[trigger] model[k] == record_model(recs@[k]),
            forall|k: int| 0 <= k < i ==> #[trigger] recs@[k] is Ok,
            model[0] is Ok,
            model[0]->Ok_0.len() == width,
            width > 0,
        decreases n - i,
    {
        if let Err(e) = &recs[i] {
            assert forall|k: int| 0 <= k < i implies #[trigger] model[k] is Ok by {
                assert(recs@[k] is Ok);
            }
            assert(has_error_at(model, i as int));
            let r = Err(
                ImportError::MalformedRecord {
                    file_name: String::from_str(file_name),
                    line: i + 1,
                    message: e.clone(),
                },
            );
            return r;
        }
        i = i + 1;
    }
    assert forall|k: int| !has_error_at(model, k) by {
        if has_error_at(model, k) {
            assert(recs@[k] is Ok);
        }
    }
    assert(model[0]->Ok_0.len() == width);
    if width > u32::MAX as usize || (n - 1) as i128 > i64::MAX as i128 || (insert_at.y as i128) + ((n - 1) as i128) > i64::MAX as i128 {
        return Err(ImportError::OutOfRange { file_name: String::from_str(file_name) });
    }
    let mut ops: Vec<Operation> = Vec::new();
    let mut start: usize = 0;
    while start < n
        invariant
            n == recs@.len() == model.len(),
            model == records_view(recs@),
            n >= 1,
            width <= u32::MAX,
            width == model[0]->Ok_0.len(),
            insert_at.y + n - 1 <= i64::MAX,
            n - 1 <= i64::MAX,
            forall|k: int| 0 <= k < recs@.len() ==> #[trigger] model[k] == record_model(recs@[k]),
            forall|k: int| 0 <= k < n ==> #[trigger] recs@[k] is Ok,
            start <= n,
            start < n ==> start == ops@.len() * IMPORT_LINES_PER_OPERATION,
            start == n ==> ops@.len() * IMPORT_LINES_PER_OPERATION >= n,
            ops@.len() > 0 ==> (ops@.len() - 1) * IMPORT_LINES_PER_OPERATION < n,
            forall|k: int|
                0 <= k < ops@.len() ==> chunk_op(
                    #[trigger] ops@[k],
                    model,
                    width as int,
                    k,
                    sheet_id,
                    insert_at,
                ),
        decreases n - start,
    {
        let end = if n - start > IMPORT_LINES_PER_OPERATION {
            start + IMPORT_LINES_PER_OPERATION
        } else {
            n
        };
        let values = chunk_block(&recs, width, start, end);
        let y = insert_at.y + start as i64;
        let op = Operation::SetCellValues {
            sheet_pos: SheetPos { x: insert_at.x, y, sheet_id },
            values,
        };
        let ghost k = ops@.len() as int;
        assert(chunk_op(op, model, width as int, k, sheet_id, insert_at));
        ops.push(op);
        let full = end - start == IMPORT_LINES_PER_OPERATION;
        start = end;
        if full {
            progress.notify(file_name, end as u64, total, insert_at.x, insert_at.y, width as u32, total);
        }
    }
    proof {
        lemma_chunk_count(n as int, ops@.len() as int);
    }
    Ok(ops)
}

impl GridController {
    /// Imports a delimited text file at the anchor, as blocks of at most
    /// `IMPORT_LINES_PER_OPERATION` rows; bytes that are not UTF-8 are first
    /// recovered as UTF-16 where possible.
    pub fn import_csv_operations(
        &mut self,
        sheet_id: SheetId,
        file: &[u8],
        file_name: &str,
        insert_at: Pos,
    ) -> (r: Result<Vec<Operation>, ImportError>)
        ensures
            *final(self) == *old(self),
            csv_result(r, csv_records(csv_input(file@)), file_name@, sheet_id, insert_at),
    {
        let mut progress = NoProgress;
        self.import_csv_operations_with_progress(sheet_id, file, file_name, insert_at, &mut progress)
    }

    /// As `import_csv_operations`, telling the observer of the rows done
    /// after each full block; the operations do not depend on it.
    pub fn import_csv_operations_with_progress<P: ImportProgress>(
        &mut self,
        sheet_id: SheetId,
        file: &[u8],
        file_name: &str,
        insert_at: Pos,
        progress: &mut P,
    ) -> (r: Result<Vec<Operation>, ImportError>)
        ensures
            *final(self) == *old(self),
            csv_result(r, csv_records(csv_input(file@)), file_name@, sheet_id, insert_at),
    {
        if is_utf8(file) {
            return csv_operations(sheet_id, file, file_name, insert_at, progress);
        }
        match read_utf16(file) {
            Some(text) => {
                let s = text.as_str();
                let bytes = s.as_bytes();
                csv_operations(sheet_id, bytes, file_name, insert_at, progress)
            },
            None => csv_operations(sheet_id, file, file_name, insert_at, progress),
        }
    }
}

} // verus!
