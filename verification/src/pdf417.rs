//! Row indicator column handling of stacked linear barcodes.
//!
//! A detected column of codewords along the left or right edge of a
//! symbol carries row numbers and barcode metadata (row and column
//! counts, error correction level).  The routines here assign row
//! numbers, vote on the metadata, and drop codewords inconsistent with
//! the voted metadata.

use vstd::prelude::*;
use vstd::pervasive::VecAdditionalExecFns;

use crate::bit_matrix::MAX_DIM;
use crate::geom::Point;

verus! {

/// Fewest rows a stacked symbol can have.
pub const MIN_ROWS_IN_BARCODE: u32 = 3;

/// Most rows a stacked symbol can have.
pub const MAX_ROWS_IN_BARCODE: u32 = 90;

/// Truncating remainder by three, matching `%` on machine integers for
/// possibly negative values.
pub open spec fn mod3_trunc(n: int) -> int {
    if n >= 0 {
        n % 3
    } else {
        -((-n) % 3)
    }
}

/// Exec counterpart of `mod3_trunc`.
fn mod3_trunc32(n: i32) -> (r: i32)
    ensures
        r == mod3_trunc(n as int),
{
    if n >= 0 {
        ((n as u32) % 3) as i32
    } else {
        let m: i64 = -(n as i64);
        -((((m as u64) % 3) as i64) as i32)
    }
}

/// One decoded codeword: its value, the bucket its start pattern fell
/// into, and the row number assigned to it (negative until known).
#[derive(Clone, Copy, PartialEq, Eq, Structural, Debug)]
pub struct Codeword {
    pub value: u32,
    pub bucket: u32,
    pub rowNumber: i32,
}

/// The row number a codeword claims when read as part of a row
/// indicator column.
pub open spec fn indicator_row(c: Codeword) -> int {
    (c.value as int % 30) * 3 + c.bucket as int / 3
}

/// `c` with its row number set from its indicator reading.
pub open spec fn with_indicator_row(c: Codeword) -> Codeword {
    Codeword { value: c.value, bucket: c.bucket, rowNumber: indicator_row(c) as i32 }
}

/// One slot of a codeword column after row numbers were assigned.
pub open spec fn set_row_opt(c: Option<Codeword>) -> Option<Codeword> {
    match c {
        None => None,
        Some(cw) => Some(with_indicator_row(cw)),
    }
}

impl Codeword {
    pub fn new(value: u32, bucket: u32) -> (r: Codeword)
        ensures
            r.value == value,
            r.bucket == bucket,
            r.rowNumber == -1,
    {
        Codeword { value, bucket, rowNumber: -1 }
    }

    pub fn getValue(&self) -> (r: u32)
        ensures
            r == self.value,
    {
        self.value
    }

    pub fn getRowNumber(&self) -> (r: i32)
        ensures
            r == self.rowNumber,
    {
        self.rowNumber
    }

    /// Assigns the row number this codeword encodes as part of a row
    /// indicator column.
    pub fn setRowNumberAsRowIndicatorColumn(&mut self)
        ensures
            *final(self) == with_indicator_row(*old(self)),
    {
        self.rowNumber = ((self.value % 30) * 3 + self.bucket / 3) as i32;
    }
}

/// The metadata a row indicator column votes on.
#[derive(Clone, Copy, PartialEq, Eq, Structural, Debug)]
pub struct BarcodeMetadata {
    pub columnCount: u32,
    pub rowCountUpperPart: u32,
    pub rowCountLowerPart: u32,
    pub errorCorrectionLevel: u32,
}

impl BarcodeMetadata {
    pub open spec fn spec_row_count(&self) -> int {
        self.rowCountUpperPart + self.rowCountLowerPart
    }

    pub fn new(
        columnCount: u32,
        rowCountUpperPart: u32,
        rowCountLowerPart: u32,
        errorCorrectionLevel: u32,
    ) -> (r: BarcodeMetadata)
        requires
            rowCountUpperPart + rowCountLowerPart <= u32::MAX,
        ensures
            r == (BarcodeMetadata {
                columnCount,
                rowCountUpperPart,
                rowCountLowerPart,
                errorCorrectionLevel,
            }),
    {
        BarcodeMetadata { columnCount, rowCountUpperPart, rowCountLowerPart, errorCorrectionLevel }
    }

    pub fn getColumnCount(&self) -> (r: u32)
        ensures
            r == self.columnCount,
    {
        self.columnCount
    }

    pub fn getRowCountUpperPart(&self) -> (r: u32)
        ensures
            r == self.rowCountUpperPart,
    {
        self.rowCountUpperPart
    }

    pub fn getRowCountLowerPart(&self) -> (r: u32)
        ensures
            r == self.rowCountLowerPart,
    {
        self.rowCountLowerPart
    }

    pub fn getErrorCorrectionLevel(&self) -> (r: u32)
        ensures
            r == self.errorCorrectionLevel,
    {
        self.errorCorrectionLevel
    }

    pub fn getRowCount(&self) -> (r: u32)
        requires
            self.spec_row_count() <= u32::MAX,
        ensures
            r == self.spec_row_count(),
    {
        self.rowCountUpperPart + self.rowCountLowerPart
    }
}

/// The image-space extent of a detected column.
#[derive(Clone, Copy, PartialEq, Eq, Structural, Debug)]
pub struct BoundingBox {
    pub minX: i32,
    pub maxX: i32,
    pub minY: i32,
    pub maxY: i32,
}

impl BoundingBox {
    pub open spec fn wf(&self) -> bool {
        &&& 0 <= self.minX <= self.maxX <= MAX_DIM
        &&& 0 <= self.minY <= self.maxY <= MAX_DIM
    }

    pub fn new(minX: i32, maxX: i32, minY: i32, maxY: i32) -> (r: BoundingBox)
        requires
            0 <= minX <= maxX <= MAX_DIM,
            0 <= minY <= maxY <= MAX_DIM,
        ensures
            r == (BoundingBox { minX, maxX, minY, maxY }),
            r.wf(),
    {
        BoundingBox { minX, maxX, minY, maxY }
    }

    pub fn getTopLeft(&self) -> (r: Point)
        ensures
            r == (Point { x: self.minX, y: self.minY }),
    {
        Point { x: self.minX, y: self.minY }
    }

    pub fn getTopRight(&self) -> (r: Point)
        ensures
            r == (Point { x: self.maxX, y: self.minY }),
    {
        Point { x: self.maxX, y: self.minY }
    }

    pub fn getBottomLeft(&self) -> (r: Point)
        ensures
            r == (Point { x: self.minX, y: self.maxY }),
    {
        Point { x: self.minX, y: self.maxY }
    }

    pub fn getBottomRight(&self) -> (r: Point)
        ensures
            r == (Point { x: self.maxX, y: self.maxY }),
    {
        Point { x: self.maxX, y: self.maxY }
    }
}

/// A detected column: its bounding box and one optional codeword per
/// image row of the box.
pub struct DetectionRXingResultColumn {
    pub boundingBox: BoundingBox,
    pub codewords: Vec<Option<Codeword>>,
}

impl DetectionRXingResultColumn {
    pub open spec fn wf(&self) -> bool {
        &&& self.boundingBox.wf()
        &&& self.codewords@.len() == self.boundingBox.maxY - self.boundingBox.minY + 1
    }

    pub fn new(boundingBox: &BoundingBox) -> (r: DetectionRXingResultColumn)
        requires
            boundingBox.wf(),
        ensures
            r.wf(),
            r.boundingBox == *boundingBox,
            r.codewords@.len() == boundingBox.maxY - boundingBox.minY + 1,
            forall|i: int| 0 <= i < r.codewords@.len() ==> r.codewords@[i] is None,
    {
        let n: usize = ((boundingBox.maxY - boundingBox.minY) as usize) + 1;
        let mut codewords: Vec<Option<Codeword>> = Vec::new();
        let mut i: usize = 0;
        while i < n
            invariant
                i <= n,
                codewords@.len() == i,
                forall|k: int| 0 <= k < i ==> codewords@[k] is None,
            decreases n - i,
        {
            codewords.push(None);
            i = i + 1;
        }
        DetectionRXingResultColumn { boundingBox: *boundingBox, codewords }
    }

    pub fn getBoundingBox(&self) -> (r: &BoundingBox)
        ensures
            *r == self.boundingBox,
    {
        &self.boundingBox
    }

    /// The codeword slot index of an image row.
    pub fn imageRowToCodewordIndex(&self, imageRow: i32) -> (r: usize)
        requires
            self.wf(),
            self.boundingBox.minY <= imageRow <= self.boundingBox.maxY,
        ensures
            r == imageRow - self.boundingBox.minY,
    {
        (imageRow - self.boundingBox.minY) as usize
    }

    /// Stores the codeword detected on an image row.
    pub fn setCodeword(&mut self, imageRow: i32, codeword: Codeword)
        requires
            old(self).wf(),
            old(self).boundingBox.minY <= imageRow <= old(self).boundingBox.maxY,
        ensures
            final(self).wf(),
            final(self).boundingBox == old(self).boundingBox,
            final(self).codewords@ == old(self).codewords@.update(
                imageRow - old(self).boundingBox.minY,
                Some(codeword),
            ),
    {
        let idx = self.imageRowToCodewordIndex(imageRow);
        self.codewords.set(idx, Some(codeword));
    }
}

/// How often `v` occurs in `h`.
pub open spec fn cnt(h: Seq<u32>, v: u32) -> int
    decreases h.len(),
{
    if h.len() == 0 {
        0
    } else {
        cnt(h.drop_last(), v) + if h.last() == v {
            1int
        } else {
            0int
        }
    }
}

/// The distinct values of `h`, in order of first occurrence.
pub open spec fn firsts(h: Seq<u32>) -> Seq<u32>
    decreases h.len(),
{
    if h.len() == 0 {
        Seq::empty()
    } else {
        let p = firsts(h.drop_last());
        if p.contains(h.last()) {
            p
        } else {
            p.push(h.last())
        }
    }
}

/// The largest tally among the first `k` values of `u`, counted in `h`.
pub open spec fn top_tally(h: Seq<u32>, u: Seq<u32>, k: int) -> int
    decreases k,
{
    if k <= 0 {
        0
    } else {
        let prev = top_tally(h, u, k - 1);
        if cnt(h, u[k - 1]) >= prev {
            cnt(h, u[k - 1])
        } else {
            prev
        }
    }
}

/// The values of `u` (from index `k` on) whose tally in `h` equals `m`.
pub open spec fn keep_tally(h: Seq<u32>, u: Seq<u32>, m: int, k: int) -> Seq<u32>
    decreases u.len() - k,
{
    if k < 0 || k >= u.len() {
        Seq::empty()
    } else {
        (if cnt(h, u[k]) == m {
            seq![u[k]]
        } else {
            Seq::empty()
        }) + keep_tally(h, u, m, k + 1)
    }
}

/// The voting result over a history of values: every distinct value
/// whose tally is maximal, in order of first occurrence.
pub open spec fn max_votes(h: Seq<u32>) -> Seq<u32> {
    let u = firsts(h);
    keep_tally(h, u, top_tally(h, u, u.len() as int), 0)
}

fn contains_u32(values: &Vec<u32>, v: u32) -> (r: bool)
    ensures
        r == values@.contains(v),
{
    let mut i: usize = 0;
    while i < values.len()
        invariant
            i <= values@.len(),
            forall|k: int| 0 <= k < i ==> values@[k] != v,
        decreases values@.len() - i,
    {
        if values[i] == v {
            return true;
        }
        i = i + 1;
    }
    false
}

fn count_of(values: &Vec<u32>, v: u32) -> (r: usize)
    ensures
        r == cnt(values@, v),
{
    let mut c: usize = 0;
    let mut i: usize = 0;
    while i < values.len()
        invariant
            i <= values@.len(),
            0 <= c <= i,
            c == cnt(values@.subrange(0, i as int), v),
        decreases values@.len() - i,
    {
        proof {
            assert(values@.subrange(0, i + 1).drop_last() =~= values@.subrange(0, i as int));
            assert(values@.subrange(0, i + 1).last() == values@[i as int]);
        }
        if values[i] == v {
            c = c + 1;
        }
        i = i + 1;
    }
    proof {
        assert(values@.subrange(0, values@.len() as int) =~= values@);
    }
    c
}

/// Tallies votes for a value: every vote is recorded, and the winners
/// are the values seen most often.
pub struct BarcodeValue {
    pub values: Vec<u32>,
}

impl BarcodeValue {
    pub fn new() -> (r: BarcodeValue)
        ensures
            r.values@ == Seq::<u32>::empty(),
    {
        BarcodeValue { values: Vec::new() }
    }

    /// Records one vote.
    pub fn setValue(&mut self, value: u32)
        ensures
            final(self).values@ == old(self).values@.push(value),
    {
        self.values.push(value);
    }

    /// The values with the maximal tally, in order of first vote.
    pub fn getValue(&self) -> (r: Vec<u32>)
        ensures
            r@ == max_votes(self.values@),
    {
        let h = &self.values;
        let ghost hs = h@;

        let mut uniq: Vec<u32> = Vec::new();
        let mut i: usize = 0;
        while i < h.len()
            invariant
                i <= hs.len(),
                hs == h@,
                uniq@ == firsts(hs.subrange(0, i as int)),
            decreases hs.len() - i,
        {
            proof {
                assert(hs.subrange(0, i + 1).drop_last() =~= hs.subrange(0, i as int));
                assert(hs.subrange(0, i + 1).last() == hs[i as int]);
            }
            if !contains_u32(&uniq, h[i]) {
                uniq.push(h[i]);
            }
            i = i + 1;
        }
        proof {
            assert(hs.subrange(0, hs.len() as int) =~= hs);
        }

        let mut m: usize = 0;
        let mut k: usize = 0;
        while k < uniq.len()
            invariant
                k <= uniq@.len(),
                hs == h@,
                m == top_tally(hs, uniq@, k as int),
            decreases uniq@.len() - k,
        {
            let c = count_of(h, uniq[k]);
            if c >= m {
                m = c;
            }
            k = k + 1;
        }

        let mut out: Vec<u32> = Vec::new();
        let mut k: usize = 0;
        while k < uniq.len()
            invariant
                k <= uniq@.len(),
                hs == h@,
                m == top_tally(hs, uniq@, uniq@.len() as int),
                out@ + keep_tally(hs, uniq@, m as int, k as int) == keep_tally(
                    hs,
                    uniq@,
                    m as int,
                    0,
                ),
            decreases uniq@.len() - k,
        {
            let c = count_of(h, uniq[k]);
            if c == m {
                proof {
                    assert(out@.push(uniq@[k as int]) + keep_tally(hs, uniq@, m as int, k + 1)
                        =~= out@ + keep_tally(hs, uniq@, m as int, k as int));
                }
                out.push(uniq[k]);
            } else {
                proof {
                    assert(out@ + keep_tally(hs, uniq@, m as int, k + 1) =~= out@ + keep_tally(
                        hs,
                        uniq@,
                        m as int,
                        k as int,
                    ));
                }
            }
            k = k + 1;
        }
        proof {
            assert(out@ + keep_tally(hs, uniq@, m as int, uniq@.len() as int) =~= out@);
        }
        out
    }
}

/// A whole column after row numbers were assigned.
pub open spec fn set_rows_spec(s: Seq<Option<Codeword>>) -> Seq<Option<Codeword>> {
    Seq::new(s.len(), |i: int| set_row_opt(s[i]))
}

/// One slot after codewords inconsistent with the voted metadata were
/// dropped.
pub open spec fn remove_one(c: Option<Codeword>, meta: BarcodeMetadata, isLeft: bool) -> Option<
    Codeword,
> {
    match c {
        None => None,
        Some(cw) => {
            let riv = cw.value as int % 30;
            if cw.rowNumber > meta.spec_row_count() {
                None
            } else {
                let m = mod3_trunc(cw.rowNumber + if isLeft {
                    0int
                } else {
                    2int
                });
                if m == 0 {
                    if riv * 3 + 1 == meta.rowCountUpperPart {
                        c
                    } else {
                        None
                    }
                } else if m == 1 {
                    if riv / 3 == meta.errorCorrectionLevel && riv % 3 == meta.rowCountLowerPart {
                        c
                    } else {
                        None
                    }
                } else if m == 2 {
                    if riv + 1 == meta.columnCount {
                        c
                    } else {
                        None
                    }
                } else {
                    c
                }
            }
        },
    }
}

/// A whole column after inconsistent codewords were dropped.
pub open spec fn remove_spec(
    s: Seq<Option<Codeword>>,
    meta: BarcodeMetadata,
    isLeft: bool,
) -> Seq<Option<Codeword>> {
    Seq::new(s.len(), |i: int| remove_one(s[i], meta, isLeft))
}

/// Every stored codeword's row number stays in the range an indicator
/// reading can produce.
pub open spec fn rows_bounded(s: Seq<Option<Codeword>>) -> bool {
    forall|i: int|
        0 <= i < s.len() ==> (#[trigger] s[i] matches Some(c) ==> 0 <= c.rowNumber
            <= 0x5600_0000)
}

/// Whether a stored codeword sits close above `row`: within
/// `checkedRows` slots, or closer than `row` has slots at all.
pub open spec fn close_codeword_found(
    cws: Seq<Option<Codeword>>,
    row: int,
    checkedRows: int,
) -> bool {
    checkedRows >= row || exists|i: int| 1 <= i <= checkedRows && (#[trigger] cws[row - i]) is Some
}

/// The row-number adjustment pass over a complete indicator column:
/// walking the rows in order, it accepts continuations of the current
/// row, accepts steps to the next row, and drops codewords whose row
/// number jumps implausibly.
pub open spec fn adjust_complete_loop(
    cws: Seq<Option<Codeword>>,
    rowCount: int,
    row: int,
    lastRow: int,
    barcodeRow: int,
    maxRowHeight: int,
    currentRowHeight: int,
) -> Seq<Option<Codeword>>
    decreases lastRow - row,
{
    if row >= lastRow {
        cws
    } else {
        match cws[row] {
            None => adjust_complete_loop(
                cws,
                rowCount,
                row + 1,
                lastRow,
                barcodeRow,
                maxRowHeight,
                currentRowHeight,
            ),
            Some(c) => {
                let rd = c.rowNumber - barcodeRow;
                if rd == 0 {
                    adjust_complete_loop(
                        cws,
                        rowCount,
                        row + 1,
                        lastRow,
                        barcodeRow,
                        maxRowHeight,
                        currentRowHeight + 1,
                    )
                } else if rd == 1 {
                    let mh = if currentRowHeight >= maxRowHeight {
                        currentRowHeight
                    } else {
                        maxRowHeight
                    };
                    adjust_complete_loop(
                        cws,
                        rowCount,
                        row + 1,
                        lastRow,
                        c.rowNumber as int,
                        mh,
                        1,
                    )
                } else if rd < 0 || c.rowNumber >= rowCount || rd > row {
                    adjust_complete_loop(
                        cws.update(row, None),
                        rowCount,
                        row + 1,
                        lastRow,
                        barcodeRow,
                        maxRowHeight,
                        currentRowHeight,
                    )
                } else {
                    let checkedRows = if maxRowHeight > 2 {
                        (maxRowHeight - 2) * rd
                    } else {
                        rd
                    };
                    if close_codeword_found(cws, row, checkedRows) {
                        adjust_complete_loop(
                            cws.update(row, None),
                            rowCount,
                            row + 1,
                            lastRow,
                            barcodeRow,
                            maxRowHeight,
                            currentRowHeight,
                        )
                    } else {
                        adjust_complete_loop(
                            cws,
                            rowCount,
                            row + 1,
                            lastRow,
                            c.rowNumber as int,
                            maxRowHeight,
                            1,
                        )
                    }
                }
            },
        }
    }
}

/// The row-number pass over an incomplete indicator column: row numbers
/// are assigned on the way, and only codewords whose row number exceeds
/// the known row count are dropped.
pub open spec fn adjust_incomplete_loop(
    cws: Seq<Option<Codeword>>,
    rowCount: int,
    row: int,
    lastRow: int,
    barcodeRow: int,
) -> Seq<Option<Codeword>>
    decreases lastRow - row,
{
    if row >= lastRow {
        cws
    } else {
        match cws[row] {
            None => adjust_incomplete_loop(cws, rowCount, row + 1, lastRow, barcodeRow),
            Some(c0) => {
                let c = with_indicator_row(c0);
                let rd = c.rowNumber - barcodeRow;
                if rd == 0 || rd == 1 || c.rowNumber < rowCount {
                    let newRow = if rd == 0 {
                        barcodeRow
                    } else {
                        c.rowNumber as int
                    };
                    adjust_incomplete_loop(
                        cws.update(row, Some(c)),
                        rowCount,
                        row + 1,
                        lastRow,
                        newRow,
                    )
                } else {
                    adjust_incomplete_loop(cws.update(row, None), rowCount, row + 1, lastRow, barcodeRow)
                }
            },
        }
    }
}

/// The metadata votes cast by a column: one history per voted quantity,
/// in the order (column count, row count upper part, row count lower
/// part, error correction level).
pub open spec fn votes_loop(
    cws: Seq<Option<Codeword>>,
    isLeft: bool,
    row: int,
    col: Seq<u32>,
    upper: Seq<u32>,
    lower: Seq<u32>,
    ec: Seq<u32>,
) -> (Seq<u32>, Seq<u32>, Seq<u32>, Seq<u32>)
    decreases cws.len() - row,
{
    if row < 0 || row >= cws.len() {
        (col, upper, lower, ec)
    } else {
        match cws[row] {
            None => votes_loop(cws, isLeft, row + 1, col, upper, lower, ec),
            Some(c) => {
                let riv = c.value as int % 30;
                let crn = indicator_row(c) + if isLeft {
                    0int
                } else {
                    2int
                };
                let m = crn % 3;
                if m == 0 {
                    votes_loop(cws, isLeft, row + 1, col, upper.push((riv * 3 + 1) as u32), lower, ec)
                } else if m == 1 {
                    votes_loop(
                        cws,
                        isLeft,
                        row + 1,
                        col,
                        upper,
                        lower.push((riv % 3) as u32),
                        ec.push((riv / 3) as u32),
                    )
                } else {
                    votes_loop(cws, isLeft, row + 1, col.push((riv + 1) as u32), upper, lower, ec)
                }
            },
        }
    }
}

/// The metadata a column's votes settle on, if the votes are conclusive
/// and plausible.
pub open spec fn gbm_meta(cws: Seq<Option<Codeword>>, isLeft: bool) -> Option<BarcodeMetadata> {
    let v = votes_loop(
        cws,
        isLeft,
        0,
        Seq::empty(),
        Seq::empty(),
        Seq::empty(),
        Seq::empty(),
    );
    let colv = max_votes(v.0);
    let upperv = max_votes(v.1);
    let lowerv = max_votes(v.2);
    let ecv = max_votes(v.3);
    if colv.len() == 0 || upperv.len() == 0 || lowerv.len() == 0 || ecv.len() == 0 || colv[0] < 1
        || upperv[0] + lowerv[0] < MIN_ROWS_IN_BARCODE || upperv[0] + lowerv[0]
        > MAX_ROWS_IN_BARCODE {
        None
    } else {
        Some(
            BarcodeMetadata {
                columnCount: colv[0],
                rowCountUpperPart: upperv[0],
                rowCountLowerPart: lowerv[0],
                errorCorrectionLevel: ecv[0],
            },
        )
    }
}

/// The column contents after voting: row numbers are assigned either
/// way, and with conclusive metadata the inconsistent codewords are
/// dropped.
pub open spec fn gbm_cws(cws: Seq<Option<Codeword>>, isLeft: bool) -> Seq<Option<Codeword>> {
    match gbm_meta(cws, isLeft) {
        None => set_rows_spec(cws),
        Some(m) => remove_spec(set_rows_spec(cws), m, isLeft),
    }
}

/// How many stored codewords carry row number `k`.
pub open spec fn cnt_rows(s: Seq<Option<Codeword>>, k: int) -> int
    decreases s.len(),
{
    if s.len() == 0 {
        0
    } else {
        cnt_rows(s.drop_last(), k) + (match s.last() {
            Some(c) => if c.rowNumber == k {
                1int
            } else {
                0int
            },
            None => 0int,
        })
    }
}

/// The row indicator column at the left or right edge of a symbol.
pub struct DetectionRXingResultRowIndicatorColumn(pub DetectionRXingResultColumn, pub bool);

impl DetectionRXingResultRowIndicatorColumn {
    pub fn new(boundingBox: &BoundingBox, isLeft: bool) -> (r:
        DetectionRXingResultRowIndicatorColumn)
        requires
            boundingBox.wf(),
        ensures
            r.0.wf(),
            r.0.boundingBox == *boundingBox,
            forall|i: int| 0 <= i < r.0.codewords@.len() ==> r.0.codewords@[i] is None,
            r.1 == isLeft,
    {
        DetectionRXingResultRowIndicatorColumn(DetectionRXingResultColumn::new(boundingBox), isLeft)
    }

    pub fn isLeft(&self) -> (r: bool)
        ensures
            r == self.1,
    {
        self.1
    }

    /// Assigns every stored codeword the row number it encodes.
    fn setRowNumbers(&mut self)
        requires
            old(self).0.wf(),
        ensures
            final(self).0.wf(),
            final(self).0.boundingBox == old(self).0.boundingBox,
            final(self).1 == old(self).1,
            final(self).0.codewords@ == set_rows_spec(old(self).0.codewords@),
            rows_bounded(final(self).0.codewords@),
    {
        let ghost orig = self.0.codewords@;
        let n = self.0.codewords.len();
        let mut i: usize = 0;
        while i < n
            invariant
                self.0.wf(),
                self.0.boundingBox == old(self).0.boundingBox,
                self.1 == old(self).1,
                n == orig.len(),
                i <= n,
                self.0.codewords@.len() == orig.len(),
                forall|j: int| 0 <= j < i ==> self.0.codewords@[j] == set_row_opt(orig[j]),
                forall|j: int| i <= j < orig.len() ==> self.0.codewords@[j] == orig[j],
            decreases n - i,
        {
            if let Some(c) = self.0.codewords[i] {
                let mut c2 = c;
                c2.setRowNumberAsRowIndicatorColumn();
                self.0.codewords.set(i, Some(c2));
            }
            i = i + 1;
        }
        proof {
            assert(self.0.codewords@ =~= set_rows_spec(orig));
        }
    }

    /// Drops the codewords that do not match the voted metadata.
    fn removeIncorrectCodewords(
        codewords: &mut Vec<Option<Codeword>>,
        barcodeMetadata: &BarcodeMetadata,
        isLeft: bool,
    )
        requires
            barcodeMetadata.spec_row_count() <= 0x7FFF_0000,
        ensures
            final(codewords)@ == remove_spec(old(codewords)@, *barcodeMetadata, isLeft),
            rows_bounded(old(codewords)@) ==> rows_bounded(final(codewords)@),
    {
        let ghost orig = codewords@;
        let n = codewords.len();
        let mut i: usize = 0;
        while i < n
            invariant
                n == orig.len(),
                i <= n,
                codewords@.len() == orig.len(),
                barcodeMetadata.spec_row_count() <= 0x7FFF_0000,
                forall|j: int|
                    0 <= j < i ==> codewords@[j] == remove_one(orig[j], *barcodeMetadata, isLeft),
                forall|j: int| i <= j < orig.len() ==> codewords@[j] == orig[j],
            decreases n - i,
        {
            if let Some(codeword) = codewords[i] {
                let rowIndicatorValue = codeword.value % 30;
                let codewordRowNumber = codeword.rowNumber;
                let rowCount = (barcodeMetadata.rowCountUpperPart
                    + barcodeMetadata.rowCountLowerPart) as i32;
                if codewordRowNumber > rowCount {
                    codewords.set(i, None);
                } else {
                    let adjustedRowNumber = if isLeft {
                        codewordRowNumber
                    } else {
                        codewordRowNumber + 2
                    };
                    let m = mod3_trunc32(adjustedRowNumber);
                    if m == 0 {
                        if rowIndicatorValue * 3 + 1 != barcodeMetadata.rowCountUpperPart {
                            codewords.set(i, None);
                        }
                    } else if m == 1 {
                        if rowIndicatorValue / 3 != barcodeMetadata.errorCorrectionLevel
                            || rowIndicatorValue % 3 != barcodeMetadata.rowCountLowerPart {
                            codewords.set(i, None);
                        }
                    } else if m == 2 {
                        if rowIndicatorValue + 1 != barcodeMetadata.columnCount {
                            codewords.set(i, None);
                        }
                    }
                }
            }
            i = i + 1;
        }
        proof {
            assert(codewords@ =~= remove_spec(orig, *barcodeMetadata, isLeft));
        }
    }

    /// Adjusts the row numbers of a complete indicator column: assigns
    /// indicator row numbers, drops codewords inconsistent with the
    /// metadata, then walks the rows and drops codewords whose row
    /// number jumps implausibly.
    pub fn adjustCompleteIndicatorColumnRowNumbers(&mut self, barcodeMetadata: &BarcodeMetadata)
        requires
            old(self).0.wf(),
            barcodeMetadata.spec_row_count() <= 0x7FFF_0000,
        ensures
            final(self).0.wf(),
            final(self).0.boundingBox == old(self).0.boundingBox,
            final(self).1 == old(self).1,
            final(self).0.codewords@ == ({
                let base = remove_spec(
                    set_rows_spec(old(self).0.codewords@),
                    *barcodeMetadata,
                    old(self).1,
                );
                adjust_complete_loop(
                    base,
                    barcodeMetadata.spec_row_count(),
                    0,
                    old(self).0.codewords@.len() - 1,
                    -1,
                    1,
                    0,
                )
            }),
    {
        self.setRowNumbers();
        let isLeft = self.1;
        Self::removeIncorrectCodewords(&mut self.0.codewords, barcodeMetadata, isLeft);
        let ghost base = self.0.codewords@;

        let top = if self.1 {
            self.0.boundingBox.getTopLeft()
        } else {
            self.0.boundingBox.getTopRight()
        };
        let bottom = if self.1 {
            self.0.boundingBox.getBottomLeft()
        } else {
            self.0.boundingBox.getBottomRight()
        };
        let firstRow = self.0.imageRowToCodewordIndex(top.y);
        let lastRow = self.0.imageRowToCodewordIndex(bottom.y);
        let rowCount = barcodeMetadata.getRowCount() as i32;

        let mut barcodeRow: i32 = -1;
        let mut maxRowHeight: i32 = 1;
        let mut currentRowHeight: i32 = 0;
        let mut codewordsRow = firstRow;
        while codewordsRow < lastRow
            invariant
                self.0.wf(),
                self.0.boundingBox == old(self).0.boundingBox,
                self.1 == old(self).1,
                firstRow == 0,
                lastRow == base.len() - 1,
                lastRow <= 0x8000,
                firstRow <= codewordsRow <= lastRow || codewordsRow == firstRow,
                self.0.codewords@.len() == base.len(),
                rows_bounded(self.0.codewords@),
                rowCount as int == barcodeMetadata.spec_row_count(),
                -1 <= barcodeRow <= 0x5600_0000,
                1 <= maxRowHeight <= codewordsRow + 1,
                0 <= currentRowHeight <= codewordsRow + 1,
                adjust_complete_loop(
                    self.0.codewords@,
                    rowCount as int,
                    codewordsRow as int,
                    lastRow as int,
                    barcodeRow as int,
                    maxRowHeight as int,
                    currentRowHeight as int,
                ) == adjust_complete_loop(base, rowCount as int, 0, lastRow as int, -1, 1, 0),
            decreases lastRow - codewordsRow,
        {
            if let Some(codeword) = self.0.codewords[codewordsRow] {
                let rowDifference = codeword.rowNumber - barcodeRow;
                if rowDifference == 0 {
                    currentRowHeight = currentRowHeight + 1;
                } else if rowDifference == 1 {
                    maxRowHeight = if currentRowHeight >= maxRowHeight {
                        currentRowHeight
                    } else {
                        maxRowHeight
                    };
                    currentRowHeight = 1;
                    barcodeRow = codeword.rowNumber;
                } else if rowDifference < 0 || codeword.rowNumber >= rowCount || rowDifference
                    > codewordsRow as i32 {
                    self.0.codewords.set(codewordsRow, None);
                } else {
                    proof {
                        assert(maxRowHeight > 2 ==> 0 <= (maxRowHeight - 2) * rowDifference
                            <= 0x4001_0000) by (nonlinear_arith)
                            requires
                                2 <= rowDifference <= 0x8000,
                                maxRowHeight <= 0x8001,
                        ;
                    }
                    let checkedRows: i32 = if maxRowHeight > 2 {
                        (maxRowHeight - 2) * rowDifference
                    } else {
                        rowDifference
                    };
                    let mut closePreviousCodewordFound = checkedRows >= codewordsRow as i32;
                    let mut i: i32 = 1;
                    while i <= checkedRows && !closePreviousCodewordFound
                        invariant
                            self.0.codewords@.len() == base.len(),
                            0 <= codewordsRow < base.len(),
                            codewordsRow <= 0x8000,
                            1 <= i <= checkedRows + 1 || i == 1,
                            0 <= checkedRows <= 0x4001_0000,
                            closePreviousCodewordFound ==> close_codeword_found(
                                self.0.codewords@,
                                codewordsRow as int,
                                checkedRows as int,
                            ),
                            !closePreviousCodewordFound ==> checkedRows < codewordsRow,
                            !closePreviousCodewordFound ==> forall|j: int|
                                1 <= j < i ==> !(#[trigger] self.0.codewords@[codewordsRow - j]
                                    is Some),
                        decreases checkedRows - i + 1,
                    {
                        closePreviousCodewordFound =
                            self.0.codewords[((codewordsRow as i32 - i) as usize)].is_some();
                        i = i + 1;
                    }
                    proof {
                        if !closePreviousCodewordFound {
                            assert(!close_codeword_found(
                                self.0.codewords@,
                                codewordsRow as int,
                                checkedRows as int,
                            ));
                        }
                    }
                    if closePreviousCodewordFound {
                        self.0.codewords.set(codewordsRow, None);
                    } else {
                        barcodeRow = codeword.rowNumber;
                        currentRowHeight = 1;
                    }
                }
            }
            codewordsRow = codewordsRow + 1;
        }
    }

    /// Adjusts the row numbers of an incomplete indicator column:
    /// assigns indicator row numbers on the way and drops codewords
    /// whose row number exceeds the known row count.
    fn adjustIncompleteIndicatorColumnRowNumbers(&mut self, barcodeMetadata: &BarcodeMetadata)
        requires
            old(self).0.wf(),
            barcodeMetadata.spec_row_count() <= 0x7FFF_0000,
        ensures
            final(self).0.wf(),
            final(self).0.boundingBox == old(self).0.boundingBox,
            final(self).1 == old(self).1,
            final(self).0.codewords@ == adjust_incomplete_loop(
                old(self).0.codewords@,
                barcodeMetadata.spec_row_count(),
                0,
                old(self).0.codewords@.len() - 1,
                -1,
            ),
    {
        let ghost base = self.0.codewords@;
        let top = if self.1 {
            self.0.boundingBox.getTopLeft()
        } else {
            self.0.boundingBox.getTopRight()
        };
        let bottom = if self.1 {
            self.0.boundingBox.getBottomLeft()
        } else {
            self.0.boundingBox.getBottomRight()
        };
        let firstRow = self.0.imageRowToCodewordIndex(top.y);
        let lastRow = self.0.imageRowToCodewordIndex(bottom.y);
        let rowCount = barcodeMetadata.getRowCount() as i32;

        let mut barcodeRow: i32 = -1;
        let mut codewordsRow = firstRow;
        while codewordsRow < lastRow
            invariant
                self.0.wf(),
                self.0.boundingBox == old(self).0.boundingBox,
                self.1 == old(self).1,
                firstRow == 0,
                lastRow == base.len() - 1,
                lastRow <= 0x8000,
                firstRow <= codewordsRow <= lastRow || codewordsRow == firstRow,
                self.0.codewords@.len() == base.len(),
                rowCount as int == barcodeMetadata.spec_row_count(),
                -1 <= barcodeRow <= 0x5600_0000,
                adjust_incomplete_loop(
                    self.0.codewords@,
                    rowCount as int,
                    codewordsRow as int,
                    lastRow as int,
                    barcodeRow as int,
                ) == adjust_incomplete_loop(base, rowCount as int, 0, lastRow as int, -1),
            decreases lastRow - codewordsRow,
        {
            let ghost pre_cws = self.0.codewords@;
            if let Some(c) = self.0.codewords[codewordsRow] {
                let mut codeword = c;
                codeword.setRowNumberAsRowIndicatorColumn();
                self.0.codewords.set(codewordsRow, Some(codeword));
                let rowDifference = codeword.rowNumber - barcodeRow;
                if rowDifference == 0 {
                    // current row continues
                } else if rowDifference == 1 {
                    barcodeRow = codeword.rowNumber;
                } else if codeword.rowNumber >= rowCount {
                    self.0.codewords.set(codewordsRow, None);
                    proof {
                        assert(self.0.codewords@ =~= pre_cws.update(codewordsRow as int, None));
                    }
                } else {
                    barcodeRow = codeword.rowNumber;
                }
            }
            codewordsRow = codewordsRow + 1;
        }
    }

    /// Votes on the barcode metadata from the indicator readings, and
    /// with a conclusive vote drops the codewords inconsistent with it.
    pub fn getBarcodeMetadata(&mut self) -> (r: Option<BarcodeMetadata>)
        requires
            old(self).0.wf(),
        ensures
            final(self).0.wf(),
            final(self).0.boundingBox == old(self).0.boundingBox,
            final(self).1 == old(self).1,
            r == gbm_meta(old(self).0.codewords@, old(self).1),
            final(self).0.codewords@ == gbm_cws(old(self).0.codewords@, old(self).1),
            r matches Some(m) ==> MIN_ROWS_IN_BARCODE <= m.spec_row_count()
                <= MAX_ROWS_IN_BARCODE,
    {
        let ghost orig = self.0.codewords@;
        let isLeft = self.1;
        let mut barcodeColumnCount = BarcodeValue::new();
        let mut barcodeRowCountUpperPart = BarcodeValue::new();
        let mut barcodeRowCountLowerPart = BarcodeValue::new();
        let mut barcodeECLevel = BarcodeValue::new();

        let n = self.0.codewords.len();
        let mut row: usize = 0;
        while row < n
            invariant
                self.0.wf(),
                self.0.boundingBox == old(self).0.boundingBox,
                self.1 == old(self).1,
                isLeft == old(self).1,
                n == orig.len(),
                row <= n,
                self.0.codewords@.len() == orig.len(),
                forall|j: int| 0 <= j < row ==> self.0.codewords@[j] == set_row_opt(orig[j]),
                forall|j: int| row <= j < orig.len() ==> self.0.codewords@[j] == orig[j],
                votes_loop(
                    orig,
                    isLeft,
                    row as int,
                    barcodeColumnCount.values@,
                    barcodeRowCountUpperPart.values@,
                    barcodeRowCountLowerPart.values@,
                    barcodeECLevel.values@,
                ) == votes_loop(
                    orig,
                    isLeft,
                    0,
                    Seq::<u32>::empty(),
                    Seq::<u32>::empty(),
                    Seq::<u32>::empty(),
                    Seq::<u32>::empty(),
                ),
            decreases n - row,
        {
            if let Some(c) = self.0.codewords[row] {
                let mut codeword = c;
                codeword.setRowNumberAsRowIndicatorColumn();
                self.0.codewords.set(row, Some(codeword));
                let rowIndicatorValue = codeword.value % 30;
                let codewordRowNumber = if isLeft {
                    codeword.rowNumber
                } else {
                    codeword.rowNumber + 2
                };
                let m = ((codewordRowNumber as u32) % 3) as i32;
                if m == 0 {
                    barcodeRowCountUpperPart.setValue(rowIndicatorValue * 3 + 1);
                } else if m == 1 {
                    barcodeECLevel.setValue(rowIndicatorValue / 3);
                    barcodeRowCountLowerPart.setValue(rowIndicatorValue % 3);
                } else {
                    barcodeColumnCount.setValue(rowIndicatorValue + 1);
                }
            }
            row = row + 1;
        }
        proof {
            assert(self.0.codewords@ =~= set_rows_spec(orig));
        }

        let colv = barcodeColumnCount.getValue();
        let upperv = barcodeRowCountUpperPart.getValue();
        let lowerv = barcodeRowCountLowerPart.getValue();
        let ecv = barcodeECLevel.getValue();
        if colv.len() == 0 || upperv.len() == 0 || lowerv.len() == 0 || ecv.len() == 0 || colv[0]
            < 1 || (upperv[0] as u64) + (lowerv[0] as u64) < (MIN_ROWS_IN_BARCODE as u64) || (
        upperv[0] as u64) + (lowerv[0] as u64) > (MAX_ROWS_IN_BARCODE as u64) {
            return None;
        }
        let barcodeMetadata = BarcodeMetadata::new(colv[0], upperv[0], lowerv[0], ecv[0]);
        Self::removeIncorrectCodewords(&mut self.0.codewords, &barcodeMetadata, isLeft);
        Some(barcodeMetadata)
    }

    /// The per-row tallies of stored codewords, computed after metadata
    /// voting and incomplete-column adjustment; `None` when the votes
    /// are inconclusive.
    pub fn getRowHeights(&mut self) -> (r: Option<Vec<u32>>)
        requires
            old(self).0.wf(),
        ensures
            final(self).0.wf(),
            final(self).0.boundingBox == old(self).0.boundingBox,
            final(self).1 == old(self).1,
            (r is Some) == (gbm_meta(old(self).0.codewords@, old(self).1) is Some),
            gbm_meta(old(self).0.codewords@, old(self).1) is None ==> final(self).0.codewords@
                == gbm_cws(old(self).0.codewords@, old(self).1),
            gbm_meta(old(self).0.codewords@, old(self).1) matches Some(meta) ==> ({
                let adjusted = adjust_incomplete_loop(
                    gbm_cws(old(self).0.codewords@, old(self).1),
                    meta.spec_row_count(),
                    0,
                    old(self).0.codewords@.len() - 1,
                    -1,
                );
                &&& final(self).0.codewords@ == adjusted
                &&& r->Some_0@.len() == meta.spec_row_count()
                &&& forall|k: int|
                    0 <= k < meta.spec_row_count() ==> r->Some_0@[k] == cnt_rows(adjusted, k)
            }),
    {
        match self.getBarcodeMetadata() {
            None => None,
            Some(barcodeMetadata) => {
                self.adjustIncompleteIndicatorColumnRowNumbers(&barcodeMetadata);
                let rowCount = barcodeMetadata.getRowCount();
                let mut result: Vec<u32> = Vec::new();
                let mut z: usize = 0;
                while z < rowCount as usize
                    invariant
                        rowCount <= 90,
                        z <= rowCount as usize,
                        result@.len() == z,
                        forall|k: int| 0 <= k < z ==> result@[k] == 0,
                    decreases rowCount as usize - z,
                {
                    result.push(0);
                    z = z + 1;
                }

                let ghost adjusted = self.0.codewords@;
                let n = self.0.codewords.len();
                let mut i: usize = 0;
                while i < n
                    invariant
                        self.0.wf(),
                        n == adjusted.len(),
                        i <= n,
                        self.0.codewords@ == adjusted,
                        result@.len() == rowCount,
                        rowCount <= 90,
                        forall|k: int|
                            0 <= k < rowCount ==> result@[k] == cnt_rows(
                                adjusted.subrange(0, i as int),
                                k,
                            ),
                        forall|k: int| 0 <= k < rowCount ==> result@[k] <= i,
                    decreases n - i,
                {
                    proof {
                        assert(adjusted.subrange(0, i + 1).drop_last() =~= adjusted.subrange(
                            0,
                            i as int,
                        ));
                        assert(adjusted.subrange(0, i + 1).last() == adjusted[i as int]);
                    }
                    if let Some(codeword) = self.0.codewords[i] {
                        let rowNumber = codeword.rowNumber;
                        if rowNumber >= 0 && (rowNumber as usize) < result.len() {
                            let idx = rowNumber as usize;
                            let cur = result[idx];
                            result.set(idx, cur + 1);
                        }
                    }
                    i = i + 1;
                }
                proof {
                    assert(adjusted.subrange(0, adjusted.len() as int) =~= adjusted);
                }
                Some(result)
            },
        }
    }
}

} // verus!
