//! Array layouts (shape, strides in bytes, offset) and the layout
//! transformations that the operators use, computed by `ndarray-layout`.
use vstd::prelude::*;

verus! {

/// The layout of an array: the length of each dimension, the distance in
/// bytes between neighbours along it, and the offset of the first element.
#[derive(Debug, PartialEq, Eq)]
pub struct ArrayLayout {
    pub shape: Vec<usize>,
    pub strides: Vec<isize>,
    pub offset: isize,
}

impl Clone for ArrayLayout {
    fn clone(&self) -> (r: Self)
        ensures
            r.shape@ == self.shape@,
            r.strides@ == self.strides@,
            r.offset == self.offset,
    {
        let shape = self.shape.clone();
        let strides = self.strides.clone();
        assert(shape@ =~= self.shape@);
        assert(strides@ =~= self.strides@);
        ArrayLayout { shape, strides, offset: self.offset }
    }
}

impl ArrayLayout {
    /// Shape, strides and offset of both layouts agree.
    pub open spec fn same_as(&self, other: &ArrayLayout) -> bool {
        self.shape@ == other.shape@ && self.strides@ == other.strides@ && self.offset == other.offset
    }

    /// Shape and strides describe the same number of dimensions.
    pub open spec fn wf(&self) -> bool {
        self.shape@.len() == self.strides@.len()
    }

    /// A layout from its parts.
    pub fn new(shape: &[usize], strides: &[isize], offset: isize) -> (r: Self)
        requires
            shape@.len() == strides@.len(),
        ensures
            r.wf(),
            r.shape@ == shape@,
            r.strides@ == strides@,
            r.offset == offset,
    {
        ArrayLayout { shape: vstd::slice::slice_to_vec(shape), strides: vstd::slice::slice_to_vec(strides), offset }
    }

    /// The number of dimensions.
    pub fn ndim(&self) -> (r: usize)
        ensures
            r == self.shape@.len(),
    {
        self.shape.len()
    }
}

/// `s` with entry `a` moved to the smaller and entry `b` to the larger of
/// the positions `a` and `b`.
pub open spec fn permute_two<A>(s: Seq<A>, a: int, b: int) -> Seq<A> {
    let (lo, hi) = if a < b { (a, b) } else { (b, a) };
    s.update(lo, s[a]).update(hi, s[b])
}

/// `ndarray_layout::ArrayLayout::transpose` with a permutation of two axes
/// `[a, b]`: the result takes axis `a` at the smaller of the two positions
/// and axis `b` at the larger one; every other axis and the offset stay.
#[verifier::external_body]
fn nd_transpose(layout: &ArrayLayout, perm: &[usize]) -> (r: ArrayLayout)
    requires
        layout.wf(),
        perm@.len() == 2,
        perm@[0] != perm@[1],
        perm@[0] < layout.shape@.len(),
        perm@[1] < layout.shape@.len(),
    ensures
        r.wf(),
        r.shape@ == permute_two(layout.shape@, perm@[0] as int, perm@[1] as int),
        r.strides@ == permute_two(layout.strides@, perm@[0] as int, perm@[1] as int),
        r.offset == layout.offset,
{
    let l = ndarray_layout::ArrayLayout::<4>::new(&layout.shape, &layout.strides, layout.offset);
    let t = l.transpose(perm);
    ArrayLayout { shape: t.shape().to_vec(), strides: t.strides().to_vec(), offset: t.offset() }
}

/// `ndarray_layout::ArrayLayout::tile_be` splitting axis `axis` of length
/// `t0 * t1` into two axes `[t0, t1]`, the outer one with `t1` times the
/// stride of the axis, the inner one with its stride.
#[verifier::external_body]
fn nd_tile_be(layout: &ArrayLayout, axis: usize, tiles: &[usize]) -> (r: ArrayLayout)
    requires
        layout.wf(),
        axis < layout.shape@.len(),
        tiles@.len() == 2,
        tiles@[0] > 0,
        tiles@[1] > 0,
        tiles@[0] * tiles@[1] == layout.shape@[axis as int],
        layout.shape@[axis as int] <= isize::MAX,
        isize::MIN <= layout.strides@[axis as int] * layout.shape@[axis as int] <= isize::MAX,
    ensures
        r.wf(),
        r.shape@ == layout.shape@.subrange(0, axis as int) + seq![tiles@[0], tiles@[1]]
            + layout.shape@.subrange(axis + 1, layout.shape@.len() as int),
        r.strides@ == layout.strides@.subrange(0, axis as int) + seq![
            (layout.strides@[axis as int] * tiles@[1]) as isize,
            layout.strides@[axis as int],
        ] + layout.strides@.subrange(axis + 1, layout.strides@.len() as int),
        r.offset == layout.offset,
{
    let l = ndarray_layout::ArrayLayout::<4>::new(&layout.shape, &layout.strides, layout.offset);
    let t = l.tile_be(axis, tiles);
    ArrayLayout { shape: t.shape().to_vec(), strides: t.strides().to_vec(), offset: t.offset() }
}

/// `ndarray_layout::ArrayLayout::broadcast`: an axis of length 1 (or of
/// stride 0) becomes `times` long with stride 0; the rest stays.
#[verifier::external_body]
fn nd_broadcast(layout: &ArrayLayout, axis: usize, times: usize) -> (r: ArrayLayout)
    requires
        layout.wf(),
        axis < layout.shape@.len(),
        layout.shape@[axis as int] == 1 || layout.strides@[axis as int] == 0,
    ensures
        r.wf(),
        r.shape@ == layout.shape@.update(axis as int, times),
        r.strides@ == layout.strides@.update(axis as int, 0),
        r.offset == layout.offset,
{
    let l = ndarray_layout::ArrayLayout::<4>::new(&layout.shape, &layout.strides, layout.offset);
    let t = l.broadcast(axis, times);
    ArrayLayout { shape: t.shape().to_vec(), strides: t.strides().to_vec(), offset: t.offset() }
}

/// Swaps the two leading axes (`transpose(&[1, 0])`).
pub fn transpose_leading(layout: ArrayLayout) -> (r: ArrayLayout)
    requires
        layout.wf(),
        layout.shape@.len() >= 2,
    ensures
        r.wf(),
        r.shape@ == swap_leading(layout.shape@),
        r.strides@ == swap_leading(layout.strides@),
        r.offset == layout.offset,
{
    let perm: [usize; 2] = [1, 0];
    nd_transpose(&layout, &perm)
}

/// `s` with its first two entries swapped.
pub open spec fn swap_leading<A>(s: Seq<A>) -> Seq<A> {
    s.update(0, s[1]).update(1, s[0])
}

/// Swapping the two leading axes twice gives back the layout: applying the
/// change that `transpose_leading` makes to shape and strides twice is the
/// identity.
pub proof fn lemma_transpose_leading_involution(shape: Seq<usize>, strides: Seq<isize>)
    requires
        shape.len() >= 2,
        strides.len() == shape.len(),
    ensures
        swap_leading(swap_leading(shape)) == shape,
        swap_leading(swap_leading(strides)) == strides,
{
    assert(swap_leading(swap_leading(shape)) =~= shape);
    assert(swap_leading(swap_leading(strides)) =~= strides);
}

/// Turns a vector of `n` elements into an `m × n` matrix whose rows all
/// read that vector (`tile_be(0, &[1, n]).broadcast(0, m)`).
pub fn broadcast_rows(layout: ArrayLayout, m: usize) -> (r: ArrayLayout)
    requires
        layout.wf(),
        layout.shape@.len() == 1,
        0 < layout.shape@[0] <= isize::MAX,
        isize::MIN <= layout.strides@[0] * layout.shape@[0] <= isize::MAX,
    ensures
        r.wf(),
        r.shape@ == seq![m, layout.shape@[0]],
        r.strides@ == seq![0isize, layout.strides@[0]],
        r.offset == layout.offset,
{
    let n = layout.shape[0];
    let tiles: [usize; 2] = [1, n];
    let tiled = nd_tile_be(&layout, 0, &tiles);
    assert(tiled.shape@ == seq![1usize, n]);
    let r = nd_broadcast(&tiled, 0, m);
    assert(r.shape@ =~= seq![m, layout.shape@[0]]);
    assert(r.strides@ =~= seq![0isize, layout.strides@[0]]);
    r
}

} // verus!
