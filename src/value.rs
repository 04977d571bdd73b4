use vstd::prelude::*;

verus! {

/// A value that a single cell of the grid holds.
#[derive(Clone, Debug, PartialEq)]
pub enum CellValue {
    Blank,
    Text(String),
    /// A decimal number, kept in the text form it was read from.
    Number(String),
    Logical(bool),
}

impl CellValue {
    /// A copy of the value.
    pub fn duplicate(&self) -> (r: CellValue)
        ensures
            r@ == self@,
    {
        match self {
            CellValue::Blank => CellValue::Blank,
            CellValue::Text(s) => CellValue::Text(s.clone()),
            CellValue::Number(s) => CellValue::Number(s.clone()),
            CellValue::Logical(b) => CellValue::Logical(*b),
        }
    }
}

/// The mathematical model of a cell value.
pub enum CellModel {
    Blank,
    Text(Seq<char>),
    Number(Seq<char>),
    Logical(bool),
}

impl View for CellValue {
    type V = CellModel;

    open spec fn view(&self) -> CellModel {
        match self {
            CellValue::Blank => CellModel::Blank,
            CellValue::Text(s) => CellModel::Text(s@),
            CellValue::Number(s) => CellModel::Number(s@),
            CellValue::Logical(b) => CellModel::Logical(*b),
        }
    }
}

/// A position in the document's coordinate space.
#[derive(Clone, Copy, Debug, PartialEq, Eq, Structural)]
pub struct Pos {
    pub x: i64,
    pub y: i64,
}

/// Identity of a sheet of the document.
#[derive(Clone, Copy, Debug, PartialEq, Eq, Structural)]
pub struct SheetId {
    pub id: u64,
}

/// A position together with the sheet it lies on.
#[derive(Clone, Copy, Debug, PartialEq, Eq, Structural)]
pub struct SheetPos {
    pub x: i64,
    pub y: i64,
    pub sheet_id: SheetId,
}

/// The model of a rectangular block: `rows[y][x]` is the cell at column x, row y.
pub open spec fn rows_model(rows: Seq<Vec<CellValue>>) -> Seq<Seq<CellModel>> {
    rows.map_values(|r: Vec<CellValue>| r@.map_values(|c: CellValue| c@))
}

/// A dense rectangular block of cell values, `w` columns by `h` rows.
#[derive(Clone, Debug, PartialEq)]
pub struct CellValues {
    pub w: u32,
    pub h: u32,
    pub rows: Vec<Vec<CellValue>>,
}

impl CellValues {
    /// Every row holds exactly `w` cells and there are `h` rows.
    pub open spec fn wf(&self) -> bool {
        &&& self.rows@.len() == self.h
        &&& forall|y: int| 0 <= y < self.h ==> #[trigger] self.rows@[y]@.len() == self.w
    }

    pub open spec fn cells(&self) -> Seq<Seq<CellModel>> {
        rows_model(self.rows@)
    }

    /// The model of the cell at column x, row y.
    pub open spec fn cell(&self, x: int, y: int) -> CellModel {
        self.cells()[y][x]
    }

    /// A block of the given size whose cells are all blank.
    pub fn new(w: u32, h: u32) -> (r: CellValues)
        ensures
            r.wf(),
            r.w == w,
            r.h == h,
            forall|x: int, y: int| 0 <= x < w && 0 <= y < h ==> r.cell(x, y) == CellModel::Blank,
    {
        let mut rows: Vec<Vec<CellValue>> = Vec::new();
        let mut y: u32 = 0;
        while y < h
            invariant
                y <= h,
                rows@.len() == y,
                forall|j: int| 0 <= j < y ==> #[trigger] rows@[j]@.len() == w,
                forall|j: int, x: int| 0 <= j < y && 0 <= x < w ==> #[trigger] rows@[j]@[x]
                    == CellValue::Blank,
            decreases h - y,
        {
            let mut row: Vec<CellValue> = Vec::new();
            let mut x: u32 = 0;
            while x < w
                invariant
                    x <= w,
                    row@.len() == x,
                    forall|i: int| 0 <= i < x ==> #[trigger] row@[i] == CellValue::Blank,
                decreases w - x,
            {
                row.push(CellValue::Blank);
                x = x + 1;
            }
            rows.push(row);
            y = y + 1;
        }
        let r = CellValues { w, h, rows };
        assert forall|x: int, y: int| 0 <= x < w && 0 <= y < h implies r.cell(x, y)
            == CellModel::Blank by {
            assert(r.rows@[y]@[x] == CellValue::Blank);
        }
        r
    }

    /// A block made of the given rows, all of the same length `w`.
    pub fn from_rows(w: u32, rows: Vec<Vec<CellValue>>) -> (r: CellValues)
        requires
            rows@.len() <= u32::MAX,
            forall|y: int| 0 <= y < rows@.len() ==> #[trigger] rows@[y]@.len() == w,
        ensures
            r.wf(),
            r.w == w,
            r.h == rows@.len(),
            r.cells() == rows_model(rows@),
    {
        let h = rows.len() as u32;
        CellValues { w, h, rows }
    }

    /// A block of one row holding the given values.
    pub fn from_row(values: Vec<CellValue>) -> (r: CellValues)
        requires
            values@.len() <= u32::MAX,
        ensures
            r.wf(),
            r.w == values@.len(),
            r.h == 1,
            forall|x: int| 0 <= x < r.w ==> r.cell(x, 0) == (#[trigger] values@[x])@,
    {
        let w = values.len() as u32;
        let mut rows: Vec<Vec<CellValue>> = Vec::new();
        rows.push(values);
        CellValues { w, h: 1, rows }
    }

    /// The value at column x, row y, or `None` outside the block.
    pub fn get(&self, x: u32, y: u32) -> (r: Option<&CellValue>)
        requires
            self.wf(),
        ensures
            (x < self.w && y < self.h) <==> r is Some,
            r is Some ==> r->Some_0@ == self.cell(x as int, y as int),
    {
        if x < self.w && y < self.h {
            let row = &self.rows[y as usize];
            Some(&row[x as usize])
        } else {
            None
        }
    }
}

} // verus!
