//! Token (and position) embedding: every output row is a row of the token
//! table, plus a row of the position table when one is given.
use super::{Arg, DataType, OpError, TensorMeta};
use core::ops::Add;
use vstd::prelude::*;
use vstd::std_specs::ops::AddSpec;

verus! {

/// An integer type that indexes rows of an embedding table.
pub trait Index {
    /// The row that the value designates.
    spec fn index_value(&self) -> nat;

    fn as_usize(&self) -> (r: usize)
        ensures
            r == self.index_value(),
    ;
}

impl Index for u16 {
    open spec fn index_value(&self) -> nat {
        *self as nat
    }

    fn as_usize(&self) -> (r: usize) {
        *self as usize
    }
}

/// The embedding kernel.
pub struct Embedding;

/// What the element loop of the embedding kernel follows: `n` rows of `d`
/// elements; output row `i` starts `i * y_row` elements after row 0; the
/// position table takes part when `has_wpe` holds.
#[derive(Debug, Clone, Copy, PartialEq, Eq, Structural)]
pub struct EmbeddingPlan {
    pub n: usize,
    pub d: usize,
    pub y_row: isize,
    pub has_wpe: bool,
}

/// The outcome of the checks of the embedding kernel, in the order in which
/// the kernel makes them.  Inputs are the token table, the tokens and,
/// optionally, the position table and the positions; the one output is `y`.
pub open spec fn embedding_outcome(
    args: Option<Arg>,
    inputs: Seq<TensorMeta>,
    outputs: Seq<TensorMeta>,
) -> Result<EmbeddingPlan, OpError> {
    if args is Some {
        Err(OpError::Args)
    } else if outputs.len() != 1 || inputs.len() < 2 {
        Err(OpError::Arity)
    } else {
        let (wte, tokens, y) = (inputs[0], inputs[1], outputs[0]);
        if wte.shape.len() != 2 || tokens.shape.len() != 1 || y.shape.len() != 2 {
            Err(OpError::Rank)
        } else {
            let (n, d) = (tokens.shape[0], wte.shape[1]);
            if n != y.shape[0] || d != y.shape[1] {
                Err(OpError::Shape)
            } else if y.strides[1] != y.elem_size || tokens.strides[0] != tokens.elem_size {
                Err(OpError::Stride)
            } else if !wte.is_be_contiguous() || !tokens.is_be_contiguous() {
                Err(OpError::Layout)
            } else if inputs.len() == 2 {
                if !embedding_types(y.dt, tokens.dt, tokens.dt) {
                    Err(OpError::DataType)
                } else {
                    embedding_row_plan(n, d, y, false)
                }
            } else if inputs.len() < 4 {
                Err(OpError::Arity)
            } else {
                let (wpe, pos) = (inputs[2], inputs[3]);
                if wpe.shape.len() != 2 || pos.shape.len() != 1 {
                    Err(OpError::Rank)
                } else if d != wpe.shape[1] || n != pos.shape[0] {
                    Err(OpError::Shape)
                } else if pos.strides[0] != pos.elem_size {
                    Err(OpError::Stride)
                } else if !wpe.is_be_contiguous() || !pos.is_be_contiguous() {
                    Err(OpError::Layout)
                } else if !embedding_types(y.dt, tokens.dt, pos.dt) {
                    Err(OpError::DataType)
                } else {
                    embedding_row_plan(n, d, y, true)
                }
            }
        }
    }
}

/// The kernel computes on `f32` tables indexed by `u16` tokens and
/// positions (without a position table, `pos` is the type of the tokens).
pub open spec fn embedding_types(y: DataType, tokens: DataType, pos: DataType) -> bool {
    y == DataType::F32 && tokens == DataType::U16 && pos == DataType::U16
}

/// The row stride of `y` in elements, which must be a whole number of them.
pub open spec fn embedding_row_plan(n: usize, d: usize, y: TensorMeta, has_wpe: bool) -> Result<
    EmbeddingPlan,
    OpError,
> {
    if y.elem_size == 0 || (y.strides[0] as int) % (y.elem_size as int) != 0 {
        Err(OpError::Stride)
    } else {
        Ok(EmbeddingPlan { n, d, y_row: ((y.strides[0] as int) / (y.elem_size as int)) as isize, has_wpe })
    }
}

fn row_plan(n: usize, d: usize, y: &TensorMeta, has_wpe: bool) -> (r: Result<EmbeddingPlan, OpError>)
    requires
        y.wf(),
        y.shape@.len() == 2,
    ensures
        r == embedding_row_plan(n, d, *y, has_wpe),
{
    let esize = y.elem_size;
    let nsy = y.strides[0];
    if esize == 0 {
        return Err(OpError::Stride);
    }
    let mag: u128 = if nsy < 0 { (-(nsy as i128)) as u128 } else { nsy as u128 };
    let ue = esize as u128;
    let rem = mag % ue;
    let q = mag / ue;
    let ghost (x, e) = (nsy as int, esize as int);
    proof {
        vstd::arithmetic::div_mod::lemma_fundamental_div_mod(mag as int, ue as int);
        assert(mag == ue * q + rem);
        assert(ue * q == q * ue) by (nonlinear_arith);
    }
    assert(mag == q * ue + rem && 0 <= rem < ue);
    proof {
        if nsy < 0 {
            assert(x == (-q) * e + (-(rem as int))) by (nonlinear_arith)
                requires
                    x == -(mag as int),
                    mag == q * ue + rem,
                    ue == e,
            ;
        }
    }
    if rem != 0 {
        proof {
            if x % e == 0 {
                let k = x / e;
                vstd::arithmetic::div_mod::lemma_fundamental_div_mod(x, e);
                if nsy < 0 {
                    assert(mag == (-k) * e) by (nonlinear_arith)
                        requires
                            mag == -x,
                            x == e * k + 0,
                    ;
                } else {
                    assert(mag == k * e) by (nonlinear_arith)
                        requires
                            mag == x,
                            x == e * k + 0,
                    ;
                }
                vstd::arithmetic::div_mod::lemma_fundamental_div_mod_converse(
                    mag as int,
                    e,
                    if nsy < 0 { -k } else { k },
                    0,
                );
            }
        }
        return Err(OpError::Stride);
    }
    assert(q <= mag) by (nonlinear_arith)
        requires
            mag == q * ue + rem,
            ue >= 1,
            rem >= 0,
            q >= 0,
    ;
    let row: isize = if nsy < 0 { (-(q as i128)) as isize } else { q as isize };
    proof {
        if nsy < 0 {
            assert(x == (-q) * e);
            vstd::arithmetic::div_mod::lemma_fundamental_div_mod_converse(x, e, -q, 0);
        } else {
            assert(x == q * e);
            vstd::arithmetic::div_mod::lemma_fundamental_div_mod_converse(x, e, q as int, 0);
        }
    }
    Ok(EmbeddingPlan { n, d, y_row: row, has_wpe })
}

/// What an accepted embedding call is: no attribute, one output `y` of
/// `n × d`; a token table of width `d` and `n` tokens, both contiguous, the
/// tokens and `y`'s rows dense in their elements, `y` of `f32` and the
/// tokens of `u16`; the planned row stride of `y` is its byte stride in
/// elements.  The position table takes part exactly when four inputs are
/// given: it is then a matrix of the same width `d`, with `n` contiguous
/// `u16` positions.
pub proof fn lemma_embedding_accepts(
    args: Option<Arg>,
    inputs: Seq<TensorMeta>,
    outputs: Seq<TensorMeta>,
    p: EmbeddingPlan,
)
    requires
        embedding_outcome(args, inputs, outputs) == Ok::<EmbeddingPlan, OpError>(p),
    ensures
        args is None,
        outputs.len() == 1,
        inputs.len() == 2 || inputs.len() >= 4,
        p.has_wpe == (inputs.len() >= 4),
        inputs[0].shape.len() == 2,
        inputs[1].shape.len() == 1,
        outputs[0].shape.len() == 2,
        p.n == inputs[1].shape[0],
        p.n == outputs[0].shape[0],
        p.d == inputs[0].shape[1],
        p.d == outputs[0].shape[1],
        outputs[0].dt == DataType::F32,
        inputs[1].dt == DataType::U16,
        outputs[0].strides[1] == outputs[0].elem_size,
        inputs[1].strides[0] == inputs[1].elem_size,
        inputs[0].is_be_contiguous(),
        inputs[1].is_be_contiguous(),
        outputs[0].elem_size > 0,
        p.y_row * outputs[0].elem_size == outputs[0].strides[0],
        p.has_wpe ==> {
            &&& inputs[2].shape.len() == 2
            &&& inputs[2].shape[1] == p.d
            &&& inputs[3].shape.len() == 1
            &&& inputs[3].shape[0] == p.n
            &&& inputs[3].dt == DataType::U16
            &&& inputs[3].strides[0] == inputs[3].elem_size
            &&& inputs[2].is_be_contiguous()
            &&& inputs[3].is_be_contiguous()
        },
{
    let y = outputs[0];
    let (s, e) = (y.strides[0] as int, y.elem_size as int);
    assert(e > 0 && s % e == 0);
    let q = s / e;
    vstd::arithmetic::div_mod::lemma_fundamental_div_mod(s, e);
    assert(s == e * q);
    assert(isize::MIN <= q <= isize::MAX) by (nonlinear_arith)
        requires
            s == e * q,
            e >= 1,
            isize::MIN <= s <= isize::MAX,
    ;
    assert(p.y_row as int == q);
    assert(q * e == s) by (nonlinear_arith)
        requires
            s == e * q,
    ;
}

/// The position table and the positions as a sequence of two, or none.
pub open spec fn position_inputs(positions: Option<(TensorMeta, TensorMeta)>) -> Seq<TensorMeta> {
    match positions {
        Some((wpe, pos)) => seq![wpe, pos],
        None => Seq::empty(),
    }
}

/// Every embedding call of the right shapes and types is accepted: for a
/// contiguous token table of width `d`, `n` contiguous dense `u16` tokens,
/// an `f32` output of `n × d` with dense rows and a row stride that is a
/// whole number of elements, and optionally a contiguous position table of
/// the same width `d` with `n` contiguous dense `u16` positions, the plan
/// gathers `n` rows of `d` with that row stride.
pub proof fn lemma_embedding_accepts_matching(
    wte: TensorMeta,
    tokens: TensorMeta,
    positions: Option<(TensorMeta, TensorMeta)>,
    y: TensorMeta,
    vocab: usize,
    n: usize,
    d: usize,
)
    requires
        wte.shape@ == seq![vocab, d],
        tokens.shape@ == seq![n],
        y.shape@ == seq![n, d],
        y.dt == DataType::F32,
        tokens.dt == DataType::U16,
        y.strides@.len() == 2,
        y.strides[1] == y.elem_size,
        y.elem_size > 0,
        (y.strides[0] as int) % (y.elem_size as int) == 0,
        tokens.strides@.len() == 1,
        tokens.strides[0] == tokens.elem_size,
        wte.is_be_contiguous(),
        tokens.is_be_contiguous(),
        positions matches Some((wpe, pos)) ==> {
            &&& wpe.shape@.len() == 2
            &&& wpe.shape[1] == d
            &&& pos.shape@ == seq![n]
            &&& pos.dt == DataType::U16
            &&& pos.strides@.len() == 1
            &&& pos.strides[0] == pos.elem_size
            &&& wpe.is_be_contiguous()
            &&& pos.is_be_contiguous()
        },
    ensures
        embedding_outcome(None, seq![wte, tokens] + position_inputs(positions), seq![y]) == Ok::<
            EmbeddingPlan,
            OpError,
        >(
            EmbeddingPlan {
                n,
                d,
                y_row: ((y.strides[0] as int) / (y.elem_size as int)) as isize,
                has_wpe: positions is Some,
            },
        ),
{
    let inputs = seq![wte, tokens] + position_inputs(positions);
    assert(inputs[0] == wte && inputs[1] == tokens);
    if let Some((wpe, pos)) = positions {
        assert(inputs[2] == wpe && inputs[3] == pos);
        assert(inputs.len() == 4);
    } else {
        assert(inputs.len() == 2);
    }
    assert(seq![y][0] == y);
}

impl Embedding {
    /// Checks the tensors of the embedding kernel and plans its rows.
    pub fn check(args: Option<Arg>, inputs: &[TensorMeta], outputs: &[TensorMeta]) -> (r: Result<
        EmbeddingPlan,
        OpError,
    >)
        requires
            forall|i: int| 0 <= i < inputs@.len() ==> (#[trigger] inputs@[i]).wf(),
            forall|i: int| 0 <= i < outputs@.len() ==> (#[trigger] outputs@[i]).wf(),
        ensures
            r == embedding_outcome(args, inputs@, outputs@),
    {
        if args.is_some() {
            return Err(OpError::Args);
        }
        if outputs.len() != 1 || inputs.len() < 2 {
            return Err(OpError::Arity);
        }
        let wte = &inputs[0];
        let tokens = &inputs[1];
        let y = &outputs[0];
        assert(wte.wf() && tokens.wf() && y.wf());
        if wte.shape.len() != 2 || tokens.shape.len() != 1 || y.shape.len() != 2 {
            return Err(OpError::Rank);
        }
        let n = tokens.shape[0];
        let d = wte.shape[1];
        if n != y.shape[0] || d != y.shape[1] {
            return Err(OpError::Shape);
        }
        if y.strides[1] as i128 != y.elem_size as i128 || tokens.strides[0] as i128
            != tokens.elem_size as i128 {
            return Err(OpError::Stride);
        }
        if !wte.is_contiguous() || !tokens.is_contiguous() {
            return Err(OpError::Layout);
        }
        if inputs.len() == 2 {
            if !(y.dt == DataType::F32 && tokens.dt == DataType::U16) {
                return Err(OpError::DataType);
            }
            return row_plan(n, d, y, false);
        }
        if inputs.len() < 4 {
            return Err(OpError::Arity);
        }
        let wpe = &inputs[2];
        let pos = &inputs[3];
        assert(wpe.wf() && pos.wf());
        if wpe.shape.len() != 2 || pos.shape.len() != 1 {
            return Err(OpError::Rank);
        }
        if d != wpe.shape[1] || n != pos.shape[0] {
            return Err(OpError::Shape);
        }
        if pos.strides[0] as i128 != pos.elem_size as i128 {
            return Err(OpError::Stride);
        }
        if !wpe.is_big_endian_contiguous() || !pos.is_big_endian_contiguous() {
            return Err(OpError::Layout);
        }
        if !(y.dt == DataType::F32 && tokens.dt == DataType::U16 && pos.dt == DataType::U16) {
            return Err(OpError::DataType);
        }
        row_plan(n, d, y, true)
    }
}

/// Position in `y` of element `j` of output row `i`.
pub open spec fn out_pos(base: int, row: int, i: int, j: int) -> int {
    base + i * row + j
}

/// Whether write `(i1, j1)` comes before write `(i2, j2)` (row by row).
pub open spec fn before(i1: int, j1: int, i2: int, j2: int) -> bool {
    i1 < i2 || (i1 == i2 && j1 < j2)
}

/// The value that the kernel computes for element `j` of row `i`.
pub open spec fn embedding_value<T: Add<Output = T>, I1: Index, I2: Index>(
    plan: EmbeddingPlan,
    tokens: Seq<I1>,
    pos: Seq<I2>,
    wte: Seq<T>,
    wpe: Seq<T>,
    i: int,
    j: int,
) -> T {
    let x1 = wte[tokens[i].index_value() * plan.d + j];
    if plan.has_wpe {
        x1.add_spec(wpe[pos[i].index_value() * plan.d + j])
    } else {
        x1
    }
}

/// Whether no write after `(i, j)` and before `(r, c)` lands where `(i, j)` did.
pub open spec fn last_write_at(plan: EmbeddingPlan, base: int, i: int, j: int, r: int, c: int) -> bool {
    forall|i2: int, j2: int|
        0 <= j2 < plan.d && before(i, j, i2, j2) && before(i2, j2, r, c) ==> #[trigger] out_pos(
            base,
            plan.y_row as int,
            i2,
            j2,
        ) != out_pos(base, plan.y_row as int, i, j)
}

/// Whether some write before `(r, c)` lands at position `p`.
pub open spec fn written_before(plan: EmbeddingPlan, base: int, p: int, r: int, c: int) -> bool {
    exists|i: int, j: int|
        0 <= i && 0 <= j < plan.d && before(i, j, r, c) && #[trigger] out_pos(
            base,
            plan.y_row as int,
            i,
            j,
        ) == p
}

/// When output rows do not overlap (the row stride is at least a row long
/// in either direction, or there is at most one row), no write lands where
/// an earlier one did, so every element of every row ends up holding its
/// looked-up value.
pub proof fn lemma_disjoint_rows_hold_values(plan: EmbeddingPlan, base: int)
    requires
        plan.y_row >= plan.d || plan.y_row <= -(plan.d as int) || plan.n <= 1,
    ensures
        forall|i: int, j: int|
            0 <= i < plan.n && 0 <= j < plan.d ==> last_write_at(plan, base, i, j, plan.n as int, 0),
{
    let row = plan.y_row as int;
    let d = plan.d as int;
    assert forall|i: int, j: int| 0 <= i < plan.n && 0 <= j < plan.d implies last_write_at(
        plan,
        base,
        i,
        j,
        plan.n as int,
        0,
    ) by {
        assert forall|i2: int, j2: int|
            0 <= j2 < plan.d && before(i, j, i2, j2) && before(i2, j2, plan.n as int, 0) implies #[trigger] out_pos(
            base,
            row,
            i2,
            j2,
        ) != out_pos(base, row, i, j) by {
            if i2 > i {
                assert(plan.n > 1);
                if row >= d {
                    assert((i2 - i) * row >= row) by (nonlinear_arith)
                        requires
                            i2 - i >= 1,
                            row >= 0,
                    ;
                } else {
                    assert((i2 - i) * row <= row) by (nonlinear_arith)
                        requires
                            i2 - i >= 1,
                            row <= 0,
                    ;
                }
                assert(i2 * row - i * row == (i2 - i) * row) by (nonlinear_arith);
            }
        }
    }
}

impl EmbeddingPlan {
    /// Whether every output row lies inside a buffer of `len` elements when
    /// row 0 starts at `base`.
    pub open spec fn rows_inside(&self, base: int, len: int) -> bool {
        forall|i: int|
            0 <= i < self.n ==> 0 <= #[trigger] out_pos(base, self.y_row as int, i, 0) && out_pos(
                base,
                self.y_row as int,
                i,
                0,
            ) + self.d <= len
    }

    /// Whether every row index of `idx` designates a whole row of a table of
    /// `table_len` elements.
    pub open spec fn rows_in_table<I: Index>(&self, idx: Seq<I>, table_len: int) -> bool {
        &&& idx.len() >= self.n
        &&& forall|i: int|
            0 <= i < self.n ==> (#[trigger] idx[i]).index_value() * self.d + self.d <= table_len
    }

    /// Whether the first `n` indices of `idx` each designate a whole row of
    /// a table of `table_len` elements.
    pub fn indices_in_table<I: Index>(&self, idx: &[I], table_len: usize) -> (r: bool)
        ensures
            r == self.rows_in_table(idx@, table_len as int),
    {
        if idx.len() < self.n {
            return false;
        }
        let mut i: usize = 0;
        while i < self.n
            invariant
                i <= self.n,
                idx@.len() >= self.n,
                forall|j: int|
                    0 <= j < i ==> (#[trigger] idx@[j]).index_value() * self.d + self.d <= table_len,
            decreases self.n - i,
        {
            let v = idx[i].as_usize();
            let (vw, dw) = (v as u128, self.d as u128);
            assert(vw * dw + dw <= (usize::MAX as int) * (usize::MAX as int) + usize::MAX) by (nonlinear_arith)
                requires
                    vw <= usize::MAX,
                    dw <= usize::MAX,
            ;
            let end: u128 = vw * dw + dw;
            assert(end == idx@[i as int].index_value() * self.d + self.d);
            if end > table_len as u128 {
                return false;
            }
            i = i + 1;
        }
        true
    }

    /// Fills the output rows: `y[row i][j] = wte[tokens[i]][j]`, plus
    /// `wpe[pos[i]][j]` when the plan has a position table.  Where rows
    /// overlap, the later row wins; the rest of `y` is left as it was.
    pub fn compute<T: Copy + Add<Output = T>, I1: Index, I2: Index>(
        &self,
        y: &mut [T],
        y_base: usize,
        tokens: &[I1],
        pos: &[I2],
        wte: &[T],
        wpe: &[T],
    )
        requires
            self.rows_inside(y_base as int, old(y)@.len() as int),
            self.rows_in_table(tokens@, wte@.len() as int),
            self.has_wpe ==> self.rows_in_table(pos@, wpe@.len() as int),
            self.has_wpe ==> forall|i: int, j: int|
                0 <= i < self.n && 0 <= j < self.d ==> (#[trigger] wte@[tokens@[i].index_value()
                    * self.d + j]).add_req(wpe@[pos@[i].index_value() * self.d + j]),
        ensures
            final(y)@.len() == old(y)@.len(),
            forall|i: int, j: int|
                0 <= i < self.n && 0 <= j < self.d && last_write_at(
                    *self,
                    y_base as int,
                    i,
                    j,
                    self.n as int,
                    0,
                ) ==> (!self.has_wpe || T::obeys_add_spec()) ==> final(y)@[out_pos(
                    y_base as int,
                    self.y_row as int,
                    i,
                    j,
                )] == embedding_value(*self, tokens@, pos@, wte@, wpe@, i, j),
            forall|p: int|
                0 <= p < old(y)@.len() && !written_before(*self, y_base as int, p, self.n as int, 0)
                    ==> final(y)@[p] == old(y)@[p],
    {
        let ghost y0 = y@;
        let ghost base = y_base as int;
        let ghost row = self.y_row as int;
        assert(y0.len() == y.len() && wte@.len() == wte.len() && wpe@.len() == wpe.len());
        let mut r: usize = 0;
        while r < self.n
            invariant
                r <= self.n,
                y@.len() == y0.len(),
                y0.len() <= usize::MAX,
                wte@.len() <= usize::MAX,
                wpe@.len() <= usize::MAX,
                self.rows_inside(base, y0.len() as int),
                self.rows_in_table(tokens@, wte@.len() as int),
                self.has_wpe ==> self.rows_in_table(pos@, wpe@.len() as int),
                self.has_wpe ==> forall|i: int, j: int|
                    0 <= i < self.n && 0 <= j < self.d ==> (#[trigger] wte@[tokens@[i].index_value()
                        * self.d + j]).add_req(wpe@[pos@[i].index_value() * self.d + j]),
                base == y_base as int,
                row == self.y_row as int,
                forall|i: int, j: int|
                    0 <= i && 0 <= j < self.d && before(i, j, r as int, 0) && last_write_at(
                        *self,
                        base,
                        i,
                        j,
                        r as int,
                        0,
                    ) ==> (!self.has_wpe || T::obeys_add_spec()) ==> y@[out_pos(base, row, i, j)]
                        == embedding_value(*self, tokens@, pos@, wte@, wpe@, i, j),
                forall|p: int|
                    0 <= p < y0.len() && !written_before(*self, base, p, r as int, 0) ==> y@[p]
                        == y0[p],
            decreases self.n - r,
        {
            assert(0 <= out_pos(base, row, r as int, 0) && out_pos(base, row, r as int, 0)
                + self.d <= y0.len());
            assert((usize::MAX as int) * (isize::MIN as int) <= (r as int) * row
                <= (usize::MAX as int) * (isize::MAX as int)) by (nonlinear_arith)
                requires
                    0 <= r <= usize::MAX,
                    isize::MIN <= row <= isize::MAX,
            ;
            let prod: i128 = (r as i128) * (self.y_row as i128);
            assert(prod == (r as int) * row);
            let s128: i128 = (y_base as i128) + prod;
            assert(s128 == out_pos(base, row, r as int, 0));
            let start: usize = s128 as usize;
            assert(start == out_pos(base, row, r as int, 0));
            let t1 = tokens[r].as_usize();
            assert(tokens@[r as int].index_value() * self.d + self.d <= wte@.len());
            let mut c: usize = 0;
            while c < self.d
                invariant
                    r < self.n,
                    c <= self.d,
                    y@.len() == y0.len(),
                    y0.len() <= usize::MAX,
                    wte@.len() <= usize::MAX,
                    wpe@.len() <= usize::MAX,
                    start == out_pos(base, row, r as int, 0),
                    self.rows_inside(base, y0.len() as int),
                    start + self.d <= y0.len(),
                    self.rows_in_table(tokens@, wte@.len() as int),
                    t1 == tokens@[r as int].index_value(),
                    t1 * self.d + self.d <= wte@.len(),
                    self.has_wpe ==> self.rows_in_table(pos@, wpe@.len() as int),
                    self.has_wpe ==> forall|i: int, j: int|
                        0 <= i < self.n && 0 <= j < self.d ==> (#[trigger] wte@[tokens@[i].index_value()
                            * self.d + j]).add_req(wpe@[pos@[i].index_value() * self.d + j]),
                    base == y_base as int,
                    row == self.y_row as int,
                    forall|i: int, j: int|
                        0 <= i && 0 <= j < self.d && before(i, j, r as int, c as int) && last_write_at(
                            *self,
                            base,
                            i,
                            j,
                            r as int,
                            c as int,
                        ) ==> (!self.has_wpe || T::obeys_add_spec()) ==> y@[out_pos(base, row, i, j)]
                            == embedding_value(*self, tokens@, pos@, wte@, wpe@, i, j),
                    forall|p: int|
                        0 <= p < y0.len() && !written_before(*self, base, p, r as int, c as int)
                            ==> y@[p] == y0[p],
                decreases self.d - c,
            {
                let x1 = wte[t1 * self.d + c];
                let v = if self.has_wpe {
                    let t2 = pos[r].as_usize();
                    assert(pos@[r as int].index_value() * self.d + self.d <= wpe@.len());
                    let x2 = wpe[t2 * self.d + c];
                    assert(wte@[tokens@[r as int].index_value() * self.d + c].add_req(
                        wpe@[pos@[r as int].index_value() * self.d + c],
                    ));
                    x1 + x2
                } else {
                    x1
                };
                assert((!self.has_wpe || T::obeys_add_spec()) ==> v == embedding_value(
                    *self,
                    tokens@,
                    pos@,
                    wte@,
                    wpe@,
                    r as int,
                    c as int,
                ));
                let ghost yb = y@;
                let ghost p = out_pos(base, row, r as int, c as int);
                assert(start + c == p);
                y[start + c] = v;
                proof {
                    assert forall|i: int, j: int|
                        0 <= i && 0 <= j < self.d && before(i, j, r as int, c + 1) && last_write_at(
                            *self,
                            base,
                            i,
                            j,
                            r as int,
                            c + 1,
                        ) implies (!self.has_wpe || T::obeys_add_spec()) ==> y@[out_pos(
                            base,
                            row,
                            i,
                            j,
                        )] == embedding_value(*self, tokens@, pos@, wte@, wpe@, i, j) by {
                        if i == r && j == c {
                        } else {
                            assert(before(i, j, r as int, c as int));
                            assert(out_pos(base, row, r as int, c as int) != out_pos(base, row, i, j));
                            assert forall|i2: int, j2: int|
                                0 <= j2 < self.d && before(i, j, i2, j2) && before(
                                    i2,
                                    j2,
                                    r as int,
                                    c as int,
                                ) implies #[trigger] out_pos(base, row, i2, j2) != out_pos(
                                base,
                                row,
                                i,
                                j,
                            ) by {
                                assert(before(i2, j2, r as int, c + 1));
                            }
                            assert(last_write_at(*self, base, i, j, r as int, c as int));
                            assert((!self.has_wpe || T::obeys_add_spec()) ==> yb[out_pos(
                                base,
                                row,
                                i,
                                j,
                            )] == embedding_value(*self, tokens@, pos@, wte@, wpe@, i, j));
                            assert(0 <= out_pos(base, row, i, 0) && out_pos(base, row, i, 0) + self.d
                                <= y0.len());
                            assert(y@[out_pos(base, row, i, j)] == yb[out_pos(base, row, i, j)]);
                        }
                    }
                    assert forall|q: int|
                        0 <= q < y0.len() && !written_before(*self, base, q, r as int, c + 1)
                            implies y@[q] == y0[q] by {
                        if q == p {
                            assert(written_before(*self, base, q, r as int, c + 1));
                        } else {
                            if written_before(*self, base, q, r as int, c as int) {
                                let (i, j) = choose|i: int, j: int|
                                    0 <= i && 0 <= j < self.d && before(i, j, r as int, c as int)
                                        && #[trigger] out_pos(base, row, i, j) == q;
                                assert(before(i, j, r as int, c + 1));
                            }
                        }
                    }
                }
                c = c + 1;
            }
            proof {
                assert forall|i: int, j: int|
                    0 <= i && 0 <= j < self.d && before(i, j, r + 1, 0) && last_write_at(
                        *self,
                        base,
                        i,
                        j,
                        r + 1,
                        0,
                    ) implies (!self.has_wpe || T::obeys_add_spec()) ==> y@[out_pos(base, row, i, j)]
                        == embedding_value(*self, tokens@, pos@, wte@, wpe@, i, j) by {
                    assert(before(i, j, r as int, self.d as int));
                    assert forall|i2: int, j2: int|
                        0 <= j2 < self.d && before(i, j, i2, j2) && before(
                            i2,
                            j2,
                            r as int,
                            self.d as int,
                        ) implies #[trigger] out_pos(base, row, i2, j2) != out_pos(base, row, i, j) by {
                        assert(before(i2, j2, r + 1, 0));
                    }
                }
                assert forall|q: int|
                    0 <= q < y0.len() && !written_before(*self, base, q, r + 1, 0) implies y@[q]
                        == y0[q] by {
                    if written_before(*self, base, q, r as int, self.d as int) {
                        let (i, j) = choose|i: int, j: int|
                            0 <= i && 0 <= j < self.d && before(i, j, r as int, self.d as int)
                                && #[trigger] out_pos(base, row, i, j) == q;
                        assert(before(i, j, r + 1, 0));
                    }
                }
            }
            r = r + 1;
        }
        assert forall|i: int, j: int|
            0 <= i < self.n && 0 <= j < self.d && last_write_at(*self, y_base as int, i, j, self.n as int, 0)
            implies (!self.has_wpe || T::obeys_add_spec()) ==> y@[out_pos(
                y_base as int,
                self.y_row as int,
                i,
                j,
            )] == embedding_value(*self, tokens@, pos@, wte@, wpe@, i, j) by {
            assert(before(i, j, r as int, 0));
        }
    }
}

} // verus!
