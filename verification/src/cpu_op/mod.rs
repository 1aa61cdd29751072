//! Checks and index plans of the CPU kernels.
//!
//! A kernel receives tensors described by [`TensorMeta`] (data type code,
//! element size, shape and byte strides).  The checks here decide whether a
//! kernel accepts its tensors and compute the integer plan that the element
//! loops follow; arithmetic on the elements of `f32` tensors stays outside.
pub mod activation;
pub mod attention;
pub mod embedding;
pub mod linear;
pub mod normalization;

use vstd::prelude::*;
use vstd::std_specs::cmp::PartialEqSpec;

verus! {

/// Why a kernel refuses its arguments.
#[derive(Debug, Clone, Copy, PartialEq, Eq, Structural)]
pub enum OpError {
    /// The attribute argument is missing or of the wrong kind.
    Args,
    /// The number of input or output tensors is wrong.
    Arity,
    /// A tensor has the wrong number of dimensions.
    Rank,
    /// Two dimensions that must agree do not.
    Shape,
    /// A stride does not have the required value.
    Stride,
    /// A tensor is not laid out contiguously where the kernel needs it.
    Layout,
    /// A dimension is not divisible as the kernel needs.
    Divisibility,
    /// The data types differ where they must agree, or are not those that
    /// the kernel computes on.
    DataType,
    /// A size computation does not fit the machine word.
    Overflow,
}

/// The attribute handed to a kernel.  A floating-point attribute is carried
/// as the bit pattern of its `f64` value.
#[derive(Debug, Clone, Copy, PartialEq, Eq, Structural)]
pub enum Arg {
    Int(i64),
    Bool(bool),
    Float(u64),
}

/// The data type of a tensor's elements as the kernels tell them apart:
/// the two types that they compute on, and any other type by its code.
#[derive(Debug, Clone, Copy, PartialEq, Eq, Structural)]
pub enum DataType {
    F32,
    U16,
    Other(u64),
}

/// What a kernel reads of a tensor: its data type, the size of one element
/// in bytes, its shape and its strides in bytes.
#[derive(Debug, Clone)]
pub struct TensorMeta {
    pub dt: DataType,
    pub elem_size: usize,
    pub shape: Vec<usize>,
    pub strides: Vec<isize>,
}

/// Product of `shape[from..]`.
pub open spec fn suffix_product(shape: Seq<usize>, from: int) -> int
    decreases shape.len() - from,
{
    if from >= shape.len() {
        1
    } else {
        shape[from] * suffix_product(shape, from + 1)
    }
}

/// Row-major ("big-endian") contiguity: the last dimension has a stride of
/// one element and every other stride is the size of the block after it.
pub open spec fn big_endian_contiguous(shape: Seq<usize>, strides: Seq<isize>, elem: int) -> bool {
    &&& shape.len() == strides.len()
    &&& forall|i: int| 0 <= i < shape.len() ==> strides[i] == elem * suffix_product(shape, i + 1)
}

impl TensorMeta {
    /// Shape and strides describe the same number of dimensions.
    pub open spec fn wf(&self) -> bool {
        self.shape.len() == self.strides.len()
    }

    pub open spec fn is_be_contiguous(&self) -> bool {
        big_endian_contiguous(self.shape@, self.strides@, self.elem_size as int)
    }

    /// Whether the tensor is stored row-major without gaps.
    pub fn is_big_endian_contiguous(&self) -> (r: bool)
        ensures
            r == self.is_be_contiguous(),
    {
        let len = self.shape.len();
        if len != self.strides.len() {
            return false;
        }
        let ghost elem = self.elem_size as int;
        let mut acc: u128 = self.elem_size as u128;
        let mut i: usize = len;
        assert(acc == elem * suffix_product(self.shape@, len as int));
        if len > 0 && acc > isize::MAX as u128 {
            assert(self.strides@[len - 1] != elem * suffix_product(self.shape@, len as int));
            return false;
        }
        while i > 0
            invariant
                len == self.shape@.len(),
                len == self.strides@.len(),
                elem == self.elem_size as int,
                i <= len,
                acc as int == elem * suffix_product(self.shape@, i as int),
                i == 0 || acc <= isize::MAX as u128,
                forall|k: int|
                    i <= k < len ==> self.strides@[k] == elem * suffix_product(self.shape@, k + 1),
            decreases i,
        {
            let s = self.strides[i - 1];
            if s < 0 || s as u128 != acc {
                assert(self.strides@[i - 1] != elem * suffix_product(self.shape@, i as int));
                return false;
            }
            let d = self.shape[i - 1];
            assert(acc * (d as u128) <= (isize::MAX as u128) * (usize::MAX as u128)) by (nonlinear_arith)
                requires
                    acc <= isize::MAX as u128,
                    d <= usize::MAX,
            ;
            let next = acc * (d as u128);
            proof {
                let suf = suffix_product(self.shape@, i as int);
                assert(suffix_product(self.shape@, i - 1) == d * suf);
                assert(next as int == elem * (d * suf)) by (nonlinear_arith)
                    requires
                        next as int == acc as int * d,
                        acc as int == elem * suf,
                ;
            }
            i = i - 1;
            if i > 0 && next > isize::MAX as u128 {
                assert(self.strides@[i - 1] != elem * suffix_product(self.shape@, i as int));
                return false;
            }
            acc = next;
        }
        true
    }

    /// Contiguity as the embedding kernel asks for it (row-major, no gaps).
    pub fn is_contiguous(&self) -> (r: bool)
        ensures
            r == self.is_be_contiguous(),
    {
        self.is_big_endian_contiguous()
    }
}

/// Whether every element of `vals` equals the first one under `==`.
pub open spec fn all_equal_to_first<T: PartialEq>(vals: Seq<T>) -> bool {
    forall|i: int| 1 <= i < vals.len() ==> vals[i].eq_spec(&vals[0])
}

/// Returns the common value of `vals` when the slice is non-empty and every
/// element compares equal to the first one; `None` otherwise.
pub fn unique<T: Copy + PartialEq>(vals: &[T]) -> (r: Option<T>)
    requires
        T::obeys_eq_spec(),
    ensures
        r == (if vals@.len() > 0 && all_equal_to_first(vals@) {
            Some(vals@[0])
        } else {
            None
        }),
{
    if vals.len() == 0 {
        return None;
    }
    let val = &vals[0];
    let mut i: usize = 1;
    while i < vals.len()
        invariant
            1 <= i <= vals@.len(),
            *val == vals@[0],
            T::obeys_eq_spec(),
            forall|j: int| 1 <= j < i ==> vals@[j].eq_spec(&vals@[0]),
        decreases vals@.len() - i,
    {
        if vals[i] != *val {
            return None;
        }
        i = i + 1;
    }
    Some(*val)
}

/// Whether `i * rs + j * cs` lies in the range of `isize` for every index
/// `i < rows`, `j < cols`.
pub open spec fn offsets_fit(rows: int, cols: int, rs: int, cs: int) -> bool {
    forall|i: int, j: int|
        0 <= i < rows && 0 <= j < cols ==> isize::MIN <= #[trigger] (i * rs + j * cs) <= isize::MAX
}

/// A two-dimensional index space with signed strides, every offset of
/// which fits in `isize`.
#[derive(Debug, Clone, Copy, PartialEq, Eq, Structural)]
pub struct Grid {
    pub rows: usize,
    pub cols: usize,
    pub row_stride: isize,
    pub col_stride: isize,
}

proof fn lemma_scaled_between(i: int, n: int, s: int)
    requires
        0 <= i <= n,
    ensures
        s >= 0 ==> 0 <= i * s <= n * s,
        s < 0 ==> n * s <= i * s <= 0,
{
    if s >= 0 {
        assert(0 <= i * s <= n * s) by (nonlinear_arith)
            requires
                0 <= i <= n,
                s >= 0,
        ;
    } else {
        assert(n * s <= i * s <= 0) by (nonlinear_arith)
            requires
                0 <= i <= n,
                s < 0,
        ;
    }
}

pub open spec fn lo(x: int) -> int {
    if x < 0 {
        x
    } else {
        0
    }
}

pub open spec fn hi(x: int) -> int {
    if x > 0 {
        x
    } else {
        0
    }
}

impl Grid {
    pub open spec fn fits(&self) -> bool {
        offsets_fit(self.rows as int, self.cols as int, self.row_stride as int, self.col_stride as int)
    }

    /// Builds the index space when all of its offsets fit in `isize`.
    pub fn new(rows: usize, cols: usize, row_stride: isize, col_stride: isize) -> (r: Option<Grid>)
        ensures
            r is Some <==> offsets_fit(rows as int, cols as int, row_stride as int, col_stride as int),
            r matches Some(g) ==> g.rows == rows && g.cols == cols && g.row_stride == row_stride
                && g.col_stride == col_stride,
    {
        let g = Grid { rows, cols, row_stride, col_stride };
        if rows == 0 || cols == 0 {
            return Some(g);
        }
        let ghost (ri, ci, rs, cs) = ((rows - 1) as int, (cols - 1) as int, row_stride as int, col_stride as int);
        assert(ri * rs <= (usize::MAX as int) * (isize::MAX as int) + 0) by (nonlinear_arith)
            requires 0 <= ri <= usize::MAX, isize::MIN <= rs <= isize::MAX;
        assert(ri * rs >= (usize::MAX as int) * (isize::MIN as int)) by (nonlinear_arith)
            requires 0 <= ri <= usize::MAX, isize::MIN <= rs <= isize::MAX;
        assert(ci * cs <= (usize::MAX as int) * (isize::MAX as int) + 0) by (nonlinear_arith)
            requires 0 <= ci <= usize::MAX, isize::MIN <= cs <= isize::MAX;
        assert(ci * cs >= (usize::MAX as int) * (isize::MIN as int)) by (nonlinear_arith)
            requires 0 <= ci <= usize::MAX, isize::MIN <= cs <= isize::MAX;
        let r_end: i128 = ((rows - 1) as i128) * (row_stride as i128);
        let c_end: i128 = ((cols - 1) as i128) * (col_stride as i128);
        let r_lo: i128 = if r_end < 0 { r_end } else { 0 };
        let r_hi: i128 = if r_end > 0 { r_end } else { 0 };
        let c_lo: i128 = if c_end < 0 { c_end } else { 0 };
        let c_hi: i128 = if c_end > 0 { c_end } else { 0 };
        proof {
            lemma_scaled_between(0, ri, rs);
            lemma_scaled_between(ri, ri, rs);
            lemma_scaled_between(0, ci, cs);
            lemma_scaled_between(ci, ci, cs);
        }
        let ok = r_hi <= isize::MAX as i128 && c_hi <= isize::MAX as i128 && r_lo >= isize::MIN as i128
            && c_lo >= isize::MIN as i128 && r_hi + c_hi <= isize::MAX as i128 && r_lo + c_lo
            >= isize::MIN as i128;
        proof {
            let fit = offsets_fit(rows as int, cols as int, rs, cs);
            if ok {
                assert forall|i: int, j: int| 0 <= i < rows && 0 <= j < cols implies isize::MIN
                    <= #[trigger] (i * rs + j * cs) <= isize::MAX by {
                    lemma_scaled_between(i, ri, rs);
                    lemma_scaled_between(j, ci, cs);
                }
            } else {
                // The extreme corners witness the failure.
                let i_hi = if rs > 0 { ri } else { 0 };
                let j_hi = if cs > 0 { ci } else { 0 };
                let i_lo = if rs < 0 { ri } else { 0 };
                let j_lo = if cs < 0 { ci } else { 0 };
                assert(i_hi * rs + j_hi * cs == hi(ri * rs) + hi(ci * cs)) by (nonlinear_arith)
                    requires
                        i_hi == (if rs > 0 { ri } else { 0 }),
                        j_hi == (if cs > 0 { ci } else { 0 }),
                        ri >= 0, ci >= 0,
                ;
                assert(i_lo * rs + j_lo * cs == lo(ri * rs) + lo(ci * cs)) by (nonlinear_arith)
                    requires
                        i_lo == (if rs < 0 { ri } else { 0 }),
                        j_lo == (if cs < 0 { ci } else { 0 }),
                        ri >= 0, ci >= 0,
                ;
                if fit {
                    assert(isize::MIN <= i_hi * rs + j_hi * cs <= isize::MAX);
                    assert(isize::MIN <= i_lo * rs + j_lo * cs <= isize::MAX);
                }
            }
        }
        if ok {
            Some(g)
        } else {
            None
        }
    }

    /// The offset of index `(i, j)`.
    pub fn at(&self, i: usize, j: usize) -> (r: isize)
        requires
            self.fits(),
            i < self.rows,
            j < self.cols,
        ensures
            r == i * self.row_stride + j * self.col_stride,
    {
        let ghost (ri, ci) = (i as int, j as int);
        assert(isize::MIN <= ri * self.row_stride + ci * self.col_stride <= isize::MAX);
        proof {
            lemma_scaled_between(ri, (self.rows - 1) as int, self.row_stride as int);
            lemma_scaled_between(0, (self.rows - 1) as int, self.row_stride as int);
            lemma_scaled_between(ci, (self.cols - 1) as int, self.col_stride as int);
            lemma_scaled_between(0, (self.cols - 1) as int, self.col_stride as int);
            assert(isize::MIN <= 0 * self.row_stride + ci * self.col_stride <= isize::MAX);
            assert(isize::MIN <= ri * self.row_stride + 0 * self.col_stride <= isize::MAX);
        }
        assert((i as i128) * (self.row_stride as i128) == ri * self.row_stride);
        let off: i128 = (i as i128) * (self.row_stride as i128) + (j as i128) * (self.col_stride as i128);
        off as isize
    }
}

} // verus!
