//! Table B-tree traversal over the in-memory file image: pages are
//! fixed-size slices of the image, cells are found through each page's
//! cell-pointer array, and a scan yields (rowid, payload) pairs with
//! interior pages visited child by child, left to right.

use vstd::prelude::*;
use crate::header::{
    spec_btree_header, BTreeHeader, BTreePageType, HeaderError,
};
use crate::util::{
    copy_range, lemma_be_uint_bound, read_be16, read_be32, spec_be16, spec_be32,
};
use crate::varint::{spec_varint, Varint};

verus! {

/// What a B-tree scan can report.
#[derive(PartialEq, Eq, Structural, Debug, Clone, Copy)]
pub enum ScanError {
    /// The page number does not name a whole page inside the image.
    PageOutOfRange,
    /// The page's B-tree header could not be decoded.
    Header(HeaderError),
    /// Index pages are not part of the supported read path.
    NotSupported,
    /// A cell's varint ran past the page boundary.
    VarintTruncated,
    /// A cell, payload or pointer array ran past the page boundary.
    ShortRead,
    /// More page links than pages exist: the tree links must cycle.
    DepthExceeded,
}

/// One decoded cell.
#[derive(Debug)]
pub struct Cell {
    pub rowid: i64,
    pub left_child: u32,
    pub payload: Vec<u8>,
    pub first_overflow: Option<usize>,
}

/// The mathematical shape of a decoded cell.
pub struct CellV {
    pub rowid: i64,
    pub left_child: u32,
    pub payload: Seq<u8>,
    pub first_overflow: Option<usize>,
}

impl View for Cell {
    type V = CellV;

    open spec fn view(&self) -> CellV {
        CellV {
            rowid: self.rowid,
            left_child: self.left_child,
            payload: self.payload@,
            first_overflow: self.first_overflow,
        }
    }
}

/// What decoding one cell of kind `typ` at `pos` within a page yields.
pub open spec fn spec_cell(typ: BTreePageType, page: Seq<u8>, pos: int) -> Result<
    CellV,
    ScanError,
> {
    match typ {
        BTreePageType::InteriorIndex => {
            if pos < 0 || pos + 4 > page.len() {
                Err(ScanError::ShortRead)
            } else {
                match spec_varint(page, pos + 4) {
                    None => Err(ScanError::VarintTruncated),
                    Some((size, n)) => if size < 0 || pos + 4 + n + size > page.len() {
                        Err(ScanError::ShortRead)
                    } else {
                        Ok(
                            CellV {
                                rowid: 0,
                                left_child: spec_be32(page, pos) as u32,
                                payload: page.subrange(pos + 4 + n, pos + 4 + n + size),
                                first_overflow: None,
                            },
                        )
                    },
                }
            }
        },
        BTreePageType::InteriorTable => {
            if pos < 0 || pos + 4 > page.len() {
                Err(ScanError::ShortRead)
            } else {
                match spec_varint(page, pos + 4) {
                    None => Err(ScanError::VarintTruncated),
                    Some((rowid, _)) => Ok(
                        CellV {
                            rowid: rowid,
                            left_child: spec_be32(page, pos) as u32,
                            payload: Seq::empty(),
                            first_overflow: None,
                        },
                    ),
                }
            }
        },
        BTreePageType::LeafIndex => {
            match spec_varint(page, pos) {
                None => Err(ScanError::VarintTruncated),
                Some((size, n)) => if size < 0 || pos + n + size > page.len() {
                    Err(ScanError::ShortRead)
                } else {
                    Ok(
                        CellV {
                            rowid: 0,
                            left_child: 0,
                            payload: page.subrange(pos + n, pos + n + size),
                            first_overflow: None,
                        },
                    )
                },
            }
        },
        BTreePageType::LeafTable => {
            match spec_varint(page, pos) {
                None => Err(ScanError::VarintTruncated),
                Some((size, n1)) => match spec_varint(page, pos + n1) {
                    None => Err(ScanError::VarintTruncated),
                    Some((rowid, n2)) => if size < 0 || pos + n1 + n2 + size > page.len() {
                        Err(ScanError::ShortRead)
                    } else {
                        Ok(
                            CellV {
                                rowid: rowid,
                                left_child: 0,
                                payload: page.subrange(pos + n1 + n2, pos + n1 + n2 + size),
                                first_overflow: None,
                            },
                        )
                    },
                },
            }
        },
    }
}

impl Cell {
    /// Decodes the cell of kind `typ` found at `pos` within `page`.
    pub fn read(typ: &BTreePageType, page: &[u8], pos: usize) -> (r: Result<Cell, ScanError>)
        ensures
            match r {
                Ok(c) => spec_cell(*typ, page@, pos as int) matches Ok(cv) && c@ == cv,
                Err(e) => spec_cell(*typ, page@, pos as int) == Err::<CellV, ScanError>(e),
            },
    {
        let n = page.len();
        match typ {
            BTreePageType::InteriorIndex => {
                if pos > n || n - pos < 4 {
                    return Err(ScanError::ShortRead);
                }
                let left_child = read_be32(page, pos);
                proof {
                    lemma_be_uint_bound(page@.subrange(pos as int, pos + 4));
                }
                let (size, sn) = match Varint::read_sized(page, pos + 4) {
                    Ok(p) => p,
                    Err(_) => {
                        return Err(ScanError::VarintTruncated);
                    },
                };
                if size.0 < 0 || (size.0 as u64) > (n - (pos + 4 + sn)) as u64 {
                    return Err(ScanError::ShortRead);
                }
                let start = pos + 4 + sn;
                let payload = copy_range(page, start, start + (size.0 as usize));
                Ok(Cell { rowid: 0, left_child, payload, first_overflow: None })
            },
            BTreePageType::InteriorTable => {
                if pos > n || n - pos < 4 {
                    return Err(ScanError::ShortRead);
                }
                let left_child = read_be32(page, pos);
                proof {
                    lemma_be_uint_bound(page@.subrange(pos as int, pos + 4));
                }
                let rowid = match Varint::read(page, pos + 4) {
                    Ok(v) => v.0,
                    Err(_) => {
                        return Err(ScanError::VarintTruncated);
                    },
                };
                Ok(Cell { rowid, left_child, payload: Vec::new(), first_overflow: None })
            },
            BTreePageType::LeafIndex => {
                let (size, sn) = match Varint::read_sized(page, pos) {
                    Ok(p) => p,
                    Err(_) => {
                        return Err(ScanError::VarintTruncated);
                    },
                };
                if size.0 < 0 || (size.0 as u64) > (n - (pos + sn)) as u64 {
                    return Err(ScanError::ShortRead);
                }
                let start = pos + sn;
                let payload = copy_range(page, start, start + (size.0 as usize));
                Ok(Cell { rowid: 0, left_child: 0, payload, first_overflow: None })
            },
            BTreePageType::LeafTable => {
                let (size, n1) = match Varint::read_sized(page, pos) {
                    Ok(p) => p,
                    Err(_) => {
                        return Err(ScanError::VarintTruncated);
                    },
                };
                let (rv, n2) = match Varint::read_sized(page, pos + n1) {
                    Ok(p) => p,
                    Err(_) => {
                        return Err(ScanError::VarintTruncated);
                    },
                };
                if size.0 < 0 || (size.0 as u64) > (n - (pos + n1 + n2)) as u64 {
                    return Err(ScanError::ShortRead);
                }
                let start = pos + n1 + n2;
                let payload = copy_range(page, start, start + (size.0 as usize));
                Ok(Cell { rowid: rv.0, left_child: 0, payload, first_overflow: None })
            },
        }
    }
}

/// The bytes of page `pno` (1-based) within the file image.
pub open spec fn spec_page(data: Seq<u8>, ps: int, pno: int) -> Seq<u8> {
    data.subrange((pno - 1) * ps, pno * ps)
}

/// The byte at which a page's B-tree content begins: 100 on page 1,
/// 0 elsewhere.
pub open spec fn spec_page_offset(pno: int) -> int {
    if pno == 1 {
        100
    } else {
        0
    }
}

/// The leaf cells named by pointers `k` and beyond, in pointer order.
pub open spec fn spec_leaf_cells(page: Seq<u8>, base: int, count: int, k: int) -> Result<
    Seq<(i64, Seq<u8>)>,
    ScanError,
>
    decreases count - k,
{
    if k >= count {
        Ok(Seq::empty())
    } else {
        let ptr = spec_be16(page, base + 2 * k) as int;
        match spec_cell(BTreePageType::LeafTable, page, ptr) {
            Err(e) => Err(e),
            Ok(c) => match spec_leaf_cells(page, base, count, k + 1) {
                Err(e) => Err(e),
                Ok(rest) => Ok(seq![(c.rowid, c.payload)] + rest),
            },
        }
    }
}

/// The pairs a scan of page `pno` yields, with `fuel` bounding how many
/// more page links the traversal may follow.
pub open spec fn spec_scan(data: Seq<u8>, ps: int, pno: int, fuel: int) -> Result<
    Seq<(i64, Seq<u8>)>,
    ScanError,
>
    decreases fuel, 1int, 0int,
{
    if fuel <= 0 {
        Err(ScanError::DepthExceeded)
    } else if pno < 1 || ps < 1 || pno * ps > data.len() {
        Err(ScanError::PageOutOfRange)
    } else {
        let page = spec_page(data, ps, pno);
        let off = spec_page_offset(pno);
        if ps < off {
            Err(ScanError::Header(HeaderError::ShortRead))
        } else {
            match spec_btree_header(page.skip(off)) {
                Err(e) => Err(ScanError::Header(e)),
                Ok(h) => {
                    let hdr_len: int = if h.page_type.spec_is_interior() {
                        12
                    } else {
                        8
                    };
                    let base = off + hdr_len;
                    if base + 2 * (h.cell_count as int) > ps {
                        Err(ScanError::ShortRead)
                    } else {
                        match h.page_type {
                            BTreePageType::InteriorIndex => Err(ScanError::NotSupported),
                            BTreePageType::LeafIndex => Err(ScanError::NotSupported),
                            BTreePageType::LeafTable => spec_leaf_cells(
                                page,
                                base,
                                h.cell_count as int,
                                0,
                            ),
                            BTreePageType::InteriorTable => spec_children(
                                data,
                                ps,
                                page,
                                base,
                                h.cell_count as int,
                                0,
                                h.right_ptr.unwrap() as int,
                                fuel,
                            ),
                        }
                    }
                },
            }
        }
    }
}

/// The pairs the children from cell `k` onward yield, ending with the
/// right-most child.
pub open spec fn spec_children(
    data: Seq<u8>,
    ps: int,
    page: Seq<u8>,
    base: int,
    count: int,
    k: int,
    right: int,
    fuel: int,
) -> Result<Seq<(i64, Seq<u8>)>, ScanError>
    decreases fuel, 0int, count - k + 1,
{
    if fuel <= 0 {
        Err(ScanError::DepthExceeded)
    } else if k >= count {
        spec_scan(data, ps, right, fuel - 1)
    } else {
        let ptr = spec_be16(page, base + 2 * k) as int;
        match spec_cell(BTreePageType::InteriorTable, page, ptr) {
            Err(e) => Err(e),
            Ok(c) => match spec_scan(data, ps, c.left_child as int, fuel - 1) {
                Err(e) => Err(e),
                Ok(part) => match spec_children(data, ps, page, base, count, k + 1, right, fuel) {
                    Err(e) => Err(e),
                    Ok(rest) => Ok(part + rest),
                },
            },
        }
    }
}

/// The rowids of a scan result, in scan order.
pub open spec fn rowids_of(s: Seq<(i64, Seq<u8>)>) -> Seq<i64> {
    s.map_values(|c: (i64, Seq<u8>)| c.0)
}

/// Whether a rowid sequence is strictly ascending.
pub open spec fn strictly_ascending(s: Seq<i64>) -> bool {
    forall|i: int, j: int| 0 <= i < j < s.len() ==> s[i] < s[j]
}

/// The B-tree invariant of the page `pno`, as far as the scan reads it:
/// a leaf's cells carry strictly ascending rowids in pointer order, and
/// an interior page's children are each well formed and hold disjoint,
/// ordered rowid ranges in visit order.
pub open spec fn spec_tree_sorted(data: Seq<u8>, ps: int, pno: int, fuel: int) -> bool
    decreases fuel, 1int, 0int,
{
    if fuel <= 0 || pno < 1 || ps < 1 || pno * ps > data.len() {
        true
    } else {
        let page = spec_page(data, ps, pno);
        let off = spec_page_offset(pno);
        if ps < off {
            true
        } else {
            match spec_btree_header(page.skip(off)) {
                Err(_) => true,
                Ok(h) => {
                    let hdr_len: int = if h.page_type.spec_is_interior() {
                        12
                    } else {
                        8
                    };
                    let base = off + hdr_len;
                    if base + 2 * (h.cell_count as int) > ps {
                        true
                    } else {
                        match h.page_type {
                            BTreePageType::InteriorIndex => true,
                            BTreePageType::LeafIndex => true,
                            BTreePageType::LeafTable => match spec_leaf_cells(
                                page,
                                base,
                                h.cell_count as int,
                                0,
                            ) {
                                Ok(s) => strictly_ascending(rowids_of(s)),
                                Err(_) => true,
                            },
                            BTreePageType::InteriorTable => spec_children_sorted(
                                data,
                                ps,
                                page,
                                base,
                                h.cell_count as int,
                                0,
                                h.right_ptr.unwrap() as int,
                                fuel,
                            ),
                        }
                    }
                },
            }
        }
    }
}

/// The B-tree invariant over the children from cell `k` onward: each
/// child is well formed, and each child's rowids all precede those of
/// the children after it.
pub open spec fn spec_children_sorted(
    data: Seq<u8>,
    ps: int,
    page: Seq<u8>,
    base: int,
    count: int,
    k: int,
    right: int,
    fuel: int,
) -> bool
    decreases fuel, 0int, count - k + 1,
{
    if fuel <= 0 {
        true
    } else if k >= count {
        spec_tree_sorted(data, ps, right, fuel - 1)
    } else {
        let ptr = spec_be16(page, base + 2 * k) as int;
        match spec_cell(BTreePageType::InteriorTable, page, ptr) {
            Err(_) => true,
            Ok(c) => {
                &&& spec_tree_sorted(data, ps, c.left_child as int, fuel - 1)
                &&& spec_children_sorted(data, ps, page, base, count, k + 1, right, fuel)
                &&& match (
                    spec_scan(data, ps, c.left_child as int, fuel - 1),
                    spec_children(data, ps, page, base, count, k + 1, right, fuel),
                ) {
                    (Ok(a), Ok(b)) => a.len() > 0 && b.len() > 0 ==> a.last().0 < b[0].0,
                    _ => true,
                }
            },
        }
    }
}

/// Two strictly ascending runs whose boundary is ordered concatenate to
/// a strictly ascending run.
proof fn lemma_concat_ascending(a: Seq<i64>, b: Seq<i64>)
    requires
        strictly_ascending(a),
        strictly_ascending(b),
        a.len() > 0 && b.len() > 0 ==> a.last() < b[0],
    ensures
        strictly_ascending(a + b),
{
    assert forall|i: int, j: int| 0 <= i < j < (a + b).len() implies (a + b)[i] < (a + b)[j] by {
        if j < a.len() {
            assert((a + b)[i] == a[i] && (a + b)[j] == a[j]);
        } else if i >= a.len() {
            assert((a + b)[i] == b[i - a.len()] && (a + b)[j] == b[j - a.len()]);
        } else {
            assert((a + b)[i] == a[i] && (a + b)[j] == b[j - a.len()]);
            assert(a[i] <= a.last());
            assert(b[0] <= b[j - a.len()]);
        }
    }
}

/// Scan ordering: on a well-formed table B-tree the scan yields strictly
/// ascending rowids — each leaf's cells come out ascending, and across an
/// interior page the concatenation of its children's scans stays
/// ascending.
pub proof fn lemma_scan_sorted(data: Seq<u8>, ps: int, pno: int, fuel: int)
    requires
        spec_tree_sorted(data, ps, pno, fuel),
        spec_scan(data, ps, pno, fuel) is Ok,
    ensures
        strictly_ascending(rowids_of(spec_scan(data, ps, pno, fuel).unwrap())),
    decreases fuel, 1int, 0int,
{
    let page = spec_page(data, ps, pno);
    let off = spec_page_offset(pno);
    let h = spec_btree_header(page.skip(off)).unwrap();
    let hdr_len: int = if h.page_type.spec_is_interior() {
        12
    } else {
        8
    };
    let base = off + hdr_len;
    match h.page_type {
        BTreePageType::LeafTable => {
        },
        BTreePageType::InteriorTable => {
            lemma_children_sorted_ascending(
                data,
                ps,
                page,
                base,
                h.cell_count as int,
                0,
                h.right_ptr.unwrap() as int,
                fuel,
            );
        },
        _ => {
        },
    }
}

/// The concatenated scans of the children from cell `k` onward are
/// strictly ascending on a well-formed interior page.
proof fn lemma_children_sorted_ascending(
    data: Seq<u8>,
    ps: int,
    page: Seq<u8>,
    base: int,
    count: int,
    k: int,
    right: int,
    fuel: int,
)
    requires
        spec_children_sorted(data, ps, page, base, count, k, right, fuel),
        spec_children(data, ps, page, base, count, k, right, fuel) is Ok,
    ensures
        strictly_ascending(
            rowids_of(spec_children(data, ps, page, base, count, k, right, fuel).unwrap()),
        ),
    decreases fuel, 0int, count - k + 1,
{
    if k >= count {
        lemma_scan_sorted(data, ps, right, fuel - 1);
    } else {
        let ptr = spec_be16(page, base + 2 * k) as int;
        let c = spec_cell(BTreePageType::InteriorTable, page, ptr).unwrap();
        let a = spec_scan(data, ps, c.left_child as int, fuel - 1).unwrap();
        let b = spec_children(data, ps, page, base, count, k + 1, right, fuel).unwrap();
        lemma_scan_sorted(data, ps, c.left_child as int, fuel - 1);
        lemma_children_sorted_ascending(data, ps, page, base, count, k + 1, right, fuel);
        assert(rowids_of(a + b) =~= rowids_of(a) + rowids_of(b));
        if a.len() > 0 && b.len() > 0 {
            assert(rowids_of(a).last() == a.last().0);
            assert(rowids_of(b)[0] == b[0].0);
        }
        lemma_concat_ascending(rowids_of(a), rowids_of(b));
    }
}

/// The views of a sequence of owned (rowid, payload) pairs.
pub open spec fn pairs_view(s: Seq<(i64, Vec<u8>)>) -> Seq<(i64, Seq<u8>)> {
    s.map_values(|p: (i64, Vec<u8>)| (p.0, p.1@))
}

/// Whether `a` is a subsequence of `b`: the elements of `a` appear in
/// `b` in the same order.
pub open spec fn is_subseq_of<T>(a: Seq<T>, b: Seq<T>) -> bool
    decreases a.len(), b.len(),
{
    if a.len() == 0 {
        true
    } else if b.len() == 0 {
        false
    } else if a[0] == b[0] {
        is_subseq_of(a.drop_first(), b.drop_first())
    } else {
        is_subseq_of(a, b.drop_first())
    }
}

/// Extending only the right-hand sequence keeps a subsequence one.
proof fn lemma_subseq_push_right<T>(a: Seq<T>, b: Seq<T>, x: T)
    requires
        is_subseq_of(a, b),
    ensures
        is_subseq_of(a, b.push(x)),
    decreases a.len(), b.len(),
{
    reveal_with_fuel(is_subseq_of, 3);
    if a.len() == 0 {
    } else {
        assert(b.push(x).drop_first() =~= b.drop_first().push(x));
        if a[0] == b[0] {
            lemma_subseq_push_right(a.drop_first(), b.drop_first(), x);
        } else {
            lemma_subseq_push_right(a, b.drop_first(), x);
        }
    }
}

/// Extending both sequences with the same element keeps a subsequence one.
proof fn lemma_subseq_push_both<T>(a: Seq<T>, b: Seq<T>, x: T)
    requires
        is_subseq_of(a, b),
    ensures
        is_subseq_of(a.push(x), b.push(x)),
    decreases a.len(), b.len(),
{
    reveal_with_fuel(is_subseq_of, 3);
    if a.len() == 0 {
        lemma_subseq_single_last(b, x);
        assert(a.push(x) =~= seq![x]);
    } else {
        assert(a.push(x).drop_first() =~= a.drop_first().push(x));
        assert(b.push(x).drop_first() =~= b.drop_first().push(x));
        if a[0] == b[0] {
            lemma_subseq_push_both(a.drop_first(), b.drop_first(), x);
        } else {
            lemma_subseq_push_both(a, b.drop_first(), x);
        }
    }
}

/// A one-element sequence is a subsequence of anything it ends.
proof fn lemma_subseq_single_last<T>(b: Seq<T>, x: T)
    ensures
        is_subseq_of(seq![x], b.push(x)),
    decreases b.len(),
{
    reveal_with_fuel(is_subseq_of, 3);
    if b.len() == 0 {
        assert(b.push(x)[0] == x);
        assert(seq![x].drop_first() =~= Seq::<T>::empty());
    } else {
        assert(b.push(x).drop_first() =~= b.drop_first().push(x));
        if seq![x][0] == b.push(x)[0] {
            assert(seq![x].drop_first() =~= Seq::<T>::empty());
        } else {
            lemma_subseq_single_last(b.drop_first(), x);
        }
    }
}

/// The number of page links a scan may follow before giving up: one more
/// than the number of whole pages in the image.
pub open spec fn spec_fuel(len: int, ps: int) -> int {
    if ps < 1 {
        1
    } else if len / ps < usize::MAX {
        len / ps + 1
    } else {
        len / ps
    }
}

/// The fuel for an image of `data.len()` bytes at page size `page_size`.
fn fuel_for(data: &[u8], page_size: usize) -> (r: usize)
    ensures
        r == spec_fuel(data@.len() as int, page_size as int),
{
    if page_size == 0 {
        1
    } else {
        let d = data.len() / page_size;
        if d < usize::MAX {
            d + 1
        } else {
            d
        }
    }
}

/// Scans the page `pno` recursively, following at most `fuel` page links.
fn scan_rec(data: &[u8], ps: usize, pno: usize, fuel: usize) -> (r: Result<
    Vec<(i64, Vec<u8>)>,
    ScanError,
>)
    ensures
        match r {
            Ok(v) => spec_scan(data@, ps as int, pno as int, fuel as int) matches Ok(s)
                && pairs_view(v@) == s,
            Err(e) => spec_scan(data@, ps as int, pno as int, fuel as int) == Err::<
                Seq<(i64, Seq<u8>)>,
                ScanError,
            >(e),
        },
    decreases fuel,
{
    let ghost whole = spec_scan(data@, ps as int, pno as int, fuel as int);
    if fuel == 0 {
        return Err(ScanError::DepthExceeded);
    }
    if pno < 1 || ps < 1 {
        return Err(ScanError::PageOutOfRange);
    }
    proof {
        assert((pno as int) * (ps as int) < 0x100000000000000000000000000000000)
            by (nonlinear_arith)
            requires
                (pno as int) < 0x10000000000000000 && (ps as int) < 0x10000000000000000,
        ;
    }
    let end128 = (pno as u128) * (ps as u128);
    if end128 > data.len() as u128 {
        return Err(ScanError::PageOutOfRange);
    }
    let end = #[verifier::truncate] (end128 as usize);
    proof {
        assert(end == pno * ps);
        assert(end >= ps) by (nonlinear_arith)
            requires
                pno >= 1 && ps >= 1 && end == pno * ps,
        ;
    }
    let start = end - ps;
    proof {
        assert(start == (pno - 1) * ps) by (nonlinear_arith)
            requires
                start == pno * ps - ps,
        ;
    }
    let page: &[u8] = vstd::slice::slice_subrange(data, start, end);
    let ghost pg = spec_page(data@, ps as int, pno as int);
    proof {
        assert(page@ =~= pg);
    }
    let off: usize = if pno == 1 {
        100
    } else {
        0
    };
    if ps < off {
        return Err(ScanError::Header(HeaderError::ShortRead));
    }
    let hdr_slice: &[u8] = vstd::slice::slice_subrange(page, off, ps);
    proof {
        assert(hdr_slice@ =~= pg.skip(off as int));
    }
    let h = match BTreeHeader::new(hdr_slice) {
        Ok(h) => h,
        Err(e) => {
            return Err(ScanError::Header(e));
        },
    };
    let interior = matches!(h.page_type, BTreePageType::InteriorIndex
        | BTreePageType::InteriorTable);
    let hdr_len: usize = if interior {
        12
    } else {
        8
    };
    let base = off + hdr_len;
    let count = h.cell_count as usize;
    if base > ps || 2 * count > ps - base {
        return Err(ScanError::ShortRead);
    }
    match h.page_type {
        BTreePageType::InteriorIndex => Err(ScanError::NotSupported),
        BTreePageType::LeafIndex => Err(ScanError::NotSupported),
        BTreePageType::LeafTable => {
            let mut out: Vec<(i64, Vec<u8>)> = Vec::new();
            let mut k: usize = 0;
            proof {
                assert(pairs_view(out@) =~= Seq::<(i64, Seq<u8>)>::empty());
            }
            while k < count
                invariant
                    page@ == pg,
                    count <= 0xffff,
                    base + 2 * count <= ps == page@.len(),
                    k <= count,
                    whole == spec_scan(data@, ps as int, pno as int, fuel as int),
                    match spec_leaf_cells(pg, base as int, count as int, k as int) {
                        Ok(rest) => whole == Ok::<Seq<(i64, Seq<u8>)>, ScanError>(
                            pairs_view(out@) + rest,
                        ),
                        Err(e) => whole == Err::<Seq<(i64, Seq<u8>)>, ScanError>(e),
                    },
                decreases count - k,
            {
                let ptr = read_be16(page, base + 2 * k) as usize;
                let cell = match Cell::read(&BTreePageType::LeafTable, page, ptr) {
                    Ok(c) => c,
                    Err(e) => {
                        return Err(e);
                    },
                };
                proof {
                    let cv = spec_cell(BTreePageType::LeafTable, pg, ptr as int).unwrap();
                    let rest1 = spec_leaf_cells(pg, base as int, count as int, k + 1);
                    if rest1 is Ok {
                        assert(pairs_view(out@) + (seq![(cv.rowid, cv.payload)]
                            + rest1.unwrap()) =~= pairs_view(out@).push((cv.rowid, cv.payload))
                            + rest1.unwrap());
                    }
                }
                let ghost prev = pairs_view(out@);
                out.push((cell.rowid, cell.payload));
                proof {
                    assert(pairs_view(out@) =~= prev.push(
                        (out@.last().0, out@.last().1@),
                    ));
                }
                k += 1;
            }
            proof {
                assert(pairs_view(out@) + Seq::<(i64, Seq<u8>)>::empty() =~= pairs_view(out@));
            }
            Ok(out)
        },
        BTreePageType::InteriorTable => {
            let right = match h.right_ptr {
                Some(rp) => rp,
                None => {
                    proof {
                        assert(false);
                    }
                    return Err(ScanError::ShortRead);
                },
            };
            let mut out: Vec<(i64, Vec<u8>)> = Vec::new();
            let mut k: usize = 0;
            proof {
                assert(pairs_view(out@) =~= Seq::<(i64, Seq<u8>)>::empty());
            }
            while k < count
                invariant
                    page@ == pg,
                    count <= 0xffff,
                    base + 2 * count <= ps == page@.len(),
                    k <= count,
                    1 <= fuel,
                    ps >= 1,
                    whole == spec_scan(data@, ps as int, pno as int, fuel as int),
                    match spec_children(
                        data@,
                        ps as int,
                        pg,
                        base as int,
                        count as int,
                        k as int,
                        right as int,
                        fuel as int,
                    ) {
                        Ok(rest) => whole == Ok::<Seq<(i64, Seq<u8>)>, ScanError>(
                            pairs_view(out@) + rest,
                        ),
                        Err(e) => whole == Err::<Seq<(i64, Seq<u8>)>, ScanError>(e),
                    },
                decreases count - k,
            {
                let ptr = read_be16(page, base + 2 * k) as usize;
                let cell = match Cell::read(&BTreePageType::InteriorTable, page, ptr) {
                    Ok(c) => c,
                    Err(e) => {
                        return Err(e);
                    },
                };
                let mut part = match scan_rec(data, ps, cell.left_child as usize, fuel - 1) {
                    Ok(p) => p,
                    Err(e) => {
                        return Err(e);
                    },
                };
                proof {
                    let partv = spec_scan(
                        data@,
                        ps as int,
                        cell.left_child as int,
                        fuel - 1,
                    ).unwrap();
                    let rest1 = spec_children(
                        data@,
                        ps as int,
                        pg,
                        base as int,
                        count as int,
                        k + 1,
                        right as int,
                        fuel as int,
                    );
                    if rest1 is Ok {
                        assert(pairs_view(out@) + (partv + rest1.unwrap()) =~= (pairs_view(out@)
                            + partv) + rest1.unwrap());
                    }
                }
                let ghost prev = pairs_view(out@);
                let ghost partg = part@;
                out.append(&mut part);
                proof {
                    assert(pairs_view(out@) =~= prev + pairs_view(partg));
                }
                k += 1;
            }
            let mut tail = match scan_rec(data, ps, right as usize, fuel - 1) {
                Ok(p) => p,
                Err(e) => {
                    return Err(e);
                },
            };
            let ghost prev = pairs_view(out@);
            let ghost tailg = tail@;
            out.append(&mut tail);
            proof {
                assert(pairs_view(out@) =~= prev + pairs_view(tailg));
            }
            Ok(out)
        },
    }
}

/// The scanned pairs a verdict mask keeps, in scan order.
pub open spec fn spec_mask_filter(s: Seq<(i64, Seq<u8>)>, keep: Seq<bool>) -> Seq<(i64, Seq<u8>)>
    decreases s.len(),
{
    if s.len() == 0 || keep.len() == 0 {
        Seq::empty()
    } else if keep[0] {
        seq![s[0]] + spec_mask_filter(s.drop_first(), keep.drop_first())
    } else {
        spec_mask_filter(s.drop_first(), keep.drop_first())
    }
}

/// Keeping one more pair extends a masked filter at its end.
proof fn lemma_mask_filter_push(
    s: Seq<(i64, Seq<u8>)>,
    keep: Seq<bool>,
    x: (i64, Seq<u8>),
    k: bool,
)
    requires
        s.len() == keep.len(),
    ensures
        spec_mask_filter(s.push(x), keep.push(k)) == spec_mask_filter(s, keep) + (if k {
            seq![x]
        } else {
            Seq::<(i64, Seq<u8>)>::empty()
        }),
    decreases s.len(),
{
    reveal_with_fuel(spec_mask_filter, 3);
    if s.len() == 0 {
        assert(s.push(x)[0] == x);
        assert(s.push(x).drop_first() =~= Seq::<(i64, Seq<u8>)>::empty());
        assert(keep.push(k).drop_first() =~= Seq::<bool>::empty());
        if k {
            assert(spec_mask_filter(s.push(x), keep.push(k)) =~= spec_mask_filter(s, keep) + seq![
                x,
            ]);
        } else {
            assert(spec_mask_filter(s.push(x), keep.push(k)) =~= spec_mask_filter(s, keep));
            assert(spec_mask_filter(s, keep) =~= spec_mask_filter(s, keep) + Seq::<
                (i64, Seq<u8>),
            >::empty());
        }
    } else {
        assert(s.push(x).drop_first() =~= s.drop_first().push(x));
        assert(keep.push(k).drop_first() =~= keep.drop_first().push(k));
        lemma_mask_filter_push(s.drop_first(), keep.drop_first(), x, k);
        if keep[0] {
            assert(seq![s[0]] + (spec_mask_filter(s.drop_first(), keep.drop_first()) + (if k {
                seq![x]
            } else {
                Seq::<(i64, Seq<u8>)>::empty()
            })) =~= (seq![s[0]] + spec_mask_filter(s.drop_first(), keep.drop_first())) + (if k {
                seq![x]
            } else {
                Seq::<(i64, Seq<u8>)>::empty()
            }));
        }
    }
}

/// Reads table B-trees out of a file image.
pub struct BTreeTableReader {}

impl BTreeTableReader {
    /// Decodes the cell of kind `typ` found at `pos` within `page`.
    pub fn read_cell(&self, typ: &BTreePageType, page: &[u8], pos: usize) -> (r: Result<
        Cell,
        ScanError,
    >)
        ensures
            match r {
                Ok(c) => spec_cell(*typ, page@, pos as int) matches Ok(cv) && c@ == cv,
                Err(e) => spec_cell(*typ, page@, pos as int) == Err::<CellV, ScanError>(e),
            },
    {
        Cell::read(typ, page, pos)
    }

    /// Scans the table B-tree rooted at `root_idx`, yielding every
    /// (rowid, payload) pair in traversal order.
    pub fn find_all_in_table(&self, root_idx: usize, data: &[u8], page_size: usize) -> (r: Result<
        Vec<(i64, Vec<u8>)>,
        ScanError,
    >)
        ensures
            ({
                let fuel = spec_fuel(data@.len() as int, page_size as int);
                match r {
                    Ok(v) => spec_scan(data@, page_size as int, root_idx as int, fuel) matches Ok(s)
                        && pairs_view(v@) == s,
                    Err(e) => spec_scan(data@, page_size as int, root_idx as int, fuel) == Err::<
                        Seq<(i64, Seq<u8>)>,
                        ScanError,
                    >(e),
                }
            }),
    {
        let fuel = fuel_for(data, page_size);
        scan_rec(data, page_size, root_idx, fuel)
    }

    /// Scans the table B-tree rooted at `root_idx` and keeps the pairs the
    /// predicate accepts, in traversal order.
    pub fn scan_table<F: Fn(i64, &[u8]) -> bool>(
        &self,
        root_idx: usize,
        data: &[u8],
        page_size: usize,
        predicate: &F,
    ) -> (r: Result<Vec<(i64, Vec<u8>)>, ScanError>)
        requires
            forall|id: i64, pl: &[u8]| #[trigger] predicate.requires((id, pl)),
        ensures
            ({
                let fuel = spec_fuel(data@.len() as int, page_size as int);
                match r {
                    Ok(v) => spec_scan(data@, page_size as int, root_idx as int, fuel) matches Ok(s)
                        && is_subseq_of(pairs_view(v@), s) && (exists|
                        keep: Seq<bool>,
                        wits: Seq<&[u8]>,
                    |
                        #![trigger spec_mask_filter(s, keep), wits.len()]
                        {
                            &&& keep.len() == s.len()
                            &&& wits.len() == s.len()
                            &&& (forall|j: int|
                                #![trigger wits[j]]
                                0 <= j < s.len() ==> wits[j]@ == s[j].1 && predicate.ensures(
                                    (s[j].0, wits[j]),
                                    keep[j],
                                ))
                            &&& pairs_view(v@) == spec_mask_filter(s, keep)
                        }),
                    Err(e) => spec_scan(data@, page_size as int, root_idx as int, fuel) == Err::<
                        Seq<(i64, Seq<u8>)>,
                        ScanError,
                    >(e),
                }
            }),
    {
        let all = match self.find_all_in_table(root_idx, data, page_size) {
            Ok(v) => v,
            Err(e) => {
                return Err(e);
            },
        };
        let ghost s = pairs_view(all@);
        let ghost mut keepg: Seq<bool> = Seq::empty();
        let ghost mut pls: Seq<&[u8]> = Seq::empty();
        let mut kept: Vec<(i64, Vec<u8>)> = Vec::new();
        let mut i: usize = 0;
        let n = all.len();
        proof {
            assert(pairs_view(kept@) =~= Seq::<(i64, Seq<u8>)>::empty());
            assert(s.subrange(0, 0) =~= Seq::<(i64, Seq<u8>)>::empty());
            assert(spec_mask_filter(s.subrange(0, 0), keepg) =~= Seq::<(i64, Seq<u8>)>::empty());
        }
        while i < n
            invariant
                n == all@.len(),
                i <= n,
                s == pairs_view(all@),
                keepg.len() == i,
                pls.len() == i,
                is_subseq_of(pairs_view(kept@), s.subrange(0, i as int)),
                pairs_view(kept@) == spec_mask_filter(s.subrange(0, i as int), keepg),
                forall|j: int|
                    #![trigger pls[j]]
                    0 <= j < i ==> pls[j]@ == s[j].1 && predicate.ensures(
                        (s[j].0, pls[j]),
                        keepg[j],
                    ),
                forall|id: i64, pl: &[u8]| #[trigger] predicate.requires((id, pl)),
            decreases n - i,
        {
            let pair = &all[i];
            let sl = pair.1.as_slice();
            let keep = predicate(pair.0, sl);
            let ghost prev = pairs_view(kept@);
            let ghost upto = s.subrange(0, i as int);
            proof {
                assert(s.subrange(0, i + 1) =~= upto.push(s[i as int]));
                assert(s[i as int] == (all@[i as int].0, all@[i as int].1@));
                assert(sl@ == s[i as int].1);
                lemma_mask_filter_push(upto, keepg, s[i as int], keep);
            }
            if keep {
                let item = (pair.0, clone_bytes(&pair.1));
                kept.push(item);
                proof {
                    assert(pairs_view(kept@) =~= prev.push(s[i as int]));
                    assert(prev.push(s[i as int]) =~= prev + seq![s[i as int]]);
                    lemma_subseq_push_both(prev, upto, s[i as int]);
                }
            } else {
                proof {
                    assert(prev + Seq::<(i64, Seq<u8>)>::empty() =~= prev);
                    lemma_subseq_push_right(prev, upto, s[i as int]);
                }
            }
            proof {
                let keepg_old = keepg;
                let pls_old = pls;
                keepg = keepg.push(keep);
                pls = pls.push(sl);
                assert forall|j: int| #![trigger pls[j]] 0 <= j < i + 1 implies pls[j]@ == s[j].1
                    && predicate.ensures((s[j].0, pls[j]), keepg[j]) by {
                    if j < i {
                        assert(pls[j] == pls_old[j]);
                        assert(keepg[j] == keepg_old[j]);
                        assert(pls_old[j]@ == s[j].1 && predicate.ensures(
                            (s[j].0, pls_old[j]),
                            keepg_old[j],
                        ));
                    } else {
                        assert(pls[j] == sl && keepg[j] == keep);
                    }
                }
            }
            i += 1;
        }
        proof {
            assert(s.subrange(0, n as int) =~= s);
            assert(pairs_view(kept@) == spec_mask_filter(s, keepg));
            let fuel = spec_fuel(data@.len() as int, page_size as int);
            let s2 = spec_scan(data@, page_size as int, root_idx as int, fuel)->Ok_0;
            assert(s2 == s);
            assert(keepg.len() == s2.len());
            assert(pairs_view(kept@) == spec_mask_filter(s2, keepg));
            assert forall|j: int| #![trigger pls[j]] 0 <= j < s2.len() implies pls[j]@
                == s2[j].1 && predicate.ensures((s2[j].0, pls[j]), keepg[j]) by {
                assert(s2[j] == s[j]);
            }
            assert(pls.len() == s2.len());
        }
        Ok(kept)
    }
}

/// An owned copy of a byte vector.
fn clone_bytes(v: &Vec<u8>) -> (r: Vec<u8>)
    ensures
        r@ == v@,
{
    copy_range(v.as_slice(), 0, v.len())
}

} // verus!
