//! The fully connected kernel `y = x · wᵀ (+ residual or bias)`.
//!
//! The checks and the preparation of `y` (copying the residual, broadcasting
//! the bias) are here; the matrix product itself is done by `gemm`.
use super::{Arg, OpError, TensorMeta};
use vstd::prelude::*;

verus! {

/// The fully connected kernel.
pub struct Linear;

/// What the kernel does: `y[m×n] = x[m×k] · w[n×k]ᵀ`, added onto `y` when
/// `accumulate` holds.  `residual` and `bias` are the input positions of
/// those tensors, when they take part.
#[derive(Debug, Clone, Copy, PartialEq, Eq, Structural)]
pub struct LinearPlan {
    pub m: usize,
    pub n: usize,
    pub k: usize,
    pub w: usize,
    pub residual: Option<usize>,
    pub bias: Option<usize>,
    pub accumulate: bool,
}

/// Whether `t` is a matrix of exactly `rows × cols`.
pub open spec fn is_matrix(t: TensorMeta, rows: usize, cols: usize) -> bool {
    t.shape.len() == 2 && t.shape[0] == rows && t.shape[1] == cols
}

/// The outcome of the checks of the fully connected kernel, in the order in
/// which it makes them.  With `Arg::Bool(true)` the inputs are
/// `[x, residual, w, bias?]`, otherwise `[x, w, bias?]`.
pub open spec fn linear_outcome(args: Option<Arg>, inputs: Seq<TensorMeta>, outputs: Seq<TensorMeta>) -> Result<
    LinearPlan,
    OpError,
> {
    match args {
        Some(Arg::Bool(residual)) => linear_outcome_with(residual, inputs, outputs),
        _ => Err(OpError::Args),
    }
}

/// The checks after the attribute: `residual` tells the input layout.
pub open spec fn linear_outcome_with(residual: bool, inputs: Seq<TensorMeta>, outputs: Seq<TensorMeta>) -> Result<
    LinearPlan,
    OpError,
> {
    {
        let wi: usize = if residual { 2 } else { 1 };
        if outputs.len() != 1 || inputs.len() <= wi {
            Err(OpError::Arity)
        } else {
            let (x, w, y) = (inputs[0], inputs[wi as int], outputs[0]);
            let bias: Option<usize> = if inputs.len() > wi + 1 { Some((wi + 1) as usize) } else { None };
            if x.shape.len() != 2 || w.shape.len() != 2 || y.shape.len() != 2 {
                Err(OpError::Rank)
            } else {
                let (m, k, n) = (x.shape[0], x.shape[1], w.shape[0]);
                if w.shape[1] != k || y.shape[0] != m || y.shape[1] != n {
                    Err(OpError::Shape)
                } else if !x.is_be_contiguous() || !w.is_be_contiguous() || !y.is_be_contiguous() {
                    Err(OpError::Layout)
                } else if residual && inputs[1].shape.len() != 2 {
                    Err(OpError::Rank)
                } else if residual && !is_matrix(inputs[1], m, n) {
                    Err(OpError::Shape)
                } else if residual && !inputs[1].is_be_contiguous() {
                    Err(OpError::Layout)
                } else if residual && m * n * 4 > usize::MAX {
                    Err(OpError::Overflow)
                } else if bias is Some && inputs[wi + 1].shape.len() != 1 {
                    Err(OpError::Rank)
                } else if bias is Some && inputs[wi + 1].shape[0] != n {
                    Err(OpError::Shape)
                } else if bias is Some && !inputs[wi + 1].is_be_contiguous() {
                    Err(OpError::Layout)
                } else {
                    Ok(
                        LinearPlan {
                            m,
                            n,
                            k,
                            w: wi,
                            residual: if residual { Some(1usize) } else { None },
                            bias,
                            accumulate: residual || bias is Some,
                        },
                    )
                }
            }
        }
    }
}

/// What an accepted fully connected call is: the attribute tells whether a
/// residual is given; one output `y` of `m × n`; `x` of `m × k` and the
/// weight of `n × k` (input 1, or 2 after the residual), all three stored
/// row-major without gaps; the residual, when given, is input 1 and an
/// `m × n` row-major matrix; the bias, when given, is the input after the
/// weight and a contiguous vector of `n`; `y` is added onto exactly when one
/// of them takes part.
pub proof fn lemma_linear_accepts(
    args: Option<Arg>,
    inputs: Seq<TensorMeta>,
    outputs: Seq<TensorMeta>,
    p: LinearPlan,
)
    requires
        linear_outcome(args, inputs, outputs) == Ok::<LinearPlan, OpError>(p),
    ensures
        args matches Some(Arg::Bool(residual)) && p.w == (if residual { 2usize } else { 1usize })
            && p.residual == (if residual { Some(1usize) } else { None }),
        outputs.len() == 1,
        p.w < inputs.len(),
        inputs[0].shape@ == seq![p.m, p.k],
        inputs[p.w as int].shape@ == seq![p.n, p.k],
        outputs[0].shape@ == seq![p.m, p.n],
        inputs[0].is_be_contiguous(),
        inputs[p.w as int].is_be_contiguous(),
        outputs[0].is_be_contiguous(),
        p.residual is Some ==> inputs[1].shape@ == seq![p.m, p.n] && inputs[1].is_be_contiguous(),
        p.bias == (if inputs.len() > p.w + 1 { Some((p.w + 1) as usize) } else { None::<usize> }),
        p.bias matches Some(b) ==> inputs[b as int].shape@ == seq![p.n] && inputs[b as int].is_be_contiguous(),
        p.accumulate == (p.residual is Some || p.bias is Some),
{
    let x = inputs[0];
    let w = inputs[p.w as int];
    let y = outputs[0];
    assert(x.shape@ =~= seq![p.m, p.k]);
    assert(w.shape@ =~= seq![p.n, p.k]);
    assert(y.shape@ =~= seq![p.m, p.n]);
    if p.residual is Some {
        assert(inputs[1].shape@ =~= seq![p.m, p.n]);
    }
    if let Some(b) = p.bias {
        assert(inputs[b as int].shape@ =~= seq![p.n]);
    }
}

/// The tensor as a sequence of one, or none.
pub open spec fn optional(t: Option<TensorMeta>) -> Seq<TensorMeta> {
    match t {
        Some(t) => seq![t],
        None => Seq::empty(),
    }
}

/// Every fully connected call of the right shapes is accepted: for
/// row-major `x` of `m × k`, weight of `n × k` and `y` of `m × n`, with an
/// optional row-major residual of `m × n` (whose size in bytes fits the
/// machine word) before the weight and an optional contiguous bias of `n`
/// after it, the plan multiplies `m × k` by `n × k` and adds onto `y`
/// exactly when a residual or a bias takes part.
pub proof fn lemma_linear_accepts_matching(
    x: TensorMeta,
    residual: Option<TensorMeta>,
    w: TensorMeta,
    bias: Option<TensorMeta>,
    y: TensorMeta,
    m: usize,
    n: usize,
    k: usize,
)
    requires
        x.shape@ == seq![m, k],
        w.shape@ == seq![n, k],
        y.shape@ == seq![m, n],
        x.is_be_contiguous(),
        w.is_be_contiguous(),
        y.is_be_contiguous(),
        residual matches Some(r) ==> r.shape@ == seq![m, n] && r.is_be_contiguous() && m * n * 4 <= usize::MAX,
        bias matches Some(b) ==> b.shape@ == seq![n] && b.is_be_contiguous(),
    ensures
        ({
            let wi: usize = if residual is Some { 2 } else { 1 };
            linear_outcome(
                Some(Arg::Bool(residual is Some)),
                seq![x] + optional(residual) + seq![w] + optional(bias),
                seq![y],
            ) == Ok::<LinearPlan, OpError>(
                LinearPlan {
                    m,
                    n,
                    k,
                    w: wi,
                    residual: if residual is Some { Some(1usize) } else { None },
                    bias: if bias is Some { Some((wi + 1) as usize) } else { None },
                    accumulate: residual is Some || bias is Some,
                },
            )
        }),
{
    let inputs = seq![x] + optional(residual) + seq![w] + optional(bias);
    let wi: int = if residual is Some { 2 } else { 1 };
    assert(inputs[0] == x);
    assert(inputs[wi] == w);
    if let Some(r) = residual {
        assert(inputs[1] == r);
    }
    if let Some(b) = bias {
        assert(inputs[wi + 1] == b);
        assert(inputs.len() == wi + 2);
    } else {
        assert(inputs.len() == wi + 1);
    }
    assert(seq![y][0] == y);
}

impl Linear {
    /// Checks the tensors of the fully connected kernel and plans it.
    pub fn check(args: Option<Arg>, inputs: &[TensorMeta], outputs: &[TensorMeta]) -> (r: Result<
        LinearPlan,
        OpError,
    >)
        requires
            forall|i: int| 0 <= i < inputs@.len() ==> (#[trigger] inputs@[i]).wf(),
            forall|i: int| 0 <= i < outputs@.len() ==> (#[trigger] outputs@[i]).wf(),
        ensures
            r == linear_outcome(args, inputs@, outputs@),
    {
        let residual = match args {
            Some(Arg::Bool(b)) => b,
            _ => return Err(OpError::Args),
        };
        let wi: usize = if residual { 2 } else { 1 };
        if outputs.len() != 1 || inputs.len() <= wi {
            return Err(OpError::Arity);
        }
        let x = &inputs[0];
        let w = &inputs[wi];
        let y = &outputs[0];
        let bias: Option<usize> = if inputs.len() > wi + 1 { Some(wi + 1) } else { None };
        if x.shape.len() != 2 || w.shape.len() != 2 || y.shape.len() != 2 {
            return Err(OpError::Rank);
        }
        let m = x.shape[0];
        let k = x.shape[1];
        let n = w.shape[0];
        if w.shape[1] != k || y.shape[0] != m || y.shape[1] != n {
            return Err(OpError::Shape);
        }
        if !x.is_big_endian_contiguous() || !w.is_big_endian_contiguous()
            || !y.is_big_endian_contiguous() {
            return Err(OpError::Layout);
        }
        if residual {
            let res = &inputs[1];
            if res.shape.len() != 2 {
                return Err(OpError::Rank);
            }
            if res.shape[0] != m || res.shape[1] != n {
                return Err(OpError::Shape);
            }
            if !res.is_big_endian_contiguous() {
                return Err(OpError::Layout);
            }
            match m.checked_mul(n) {
                None => {
                    assert(m * n * 4 > usize::MAX) by (nonlinear_arith)
                        requires m * n > usize::MAX;
                    return Err(OpError::Overflow);
                },
                Some(mn) => {
                    if mn > usize::MAX / 4 {
                        return Err(OpError::Overflow);
                    }
                },
            }
        }
        if inputs.len() > wi + 1 {
            let b = &inputs[wi + 1];
            assert(b.wf());
            if b.shape.len() != 1 {
                return Err(OpError::Rank);
            }
            if b.shape[0] != n {
                return Err(OpError::Shape);
            }
            if !b.is_contiguous() {
                return Err(OpError::Layout);
            }
        }
        Ok(
            LinearPlan {
                m,
                n,
                k,
                w: wi,
                residual: if residual { Some(1) } else { None },
                bias,
                accumulate: residual || bias.is_some(),
            },
        )
    }
}

/// The value of element `(i, j)` of `y` once it is prepared for the product:
/// the bias when there is one, otherwise the residual when there is one,
/// otherwise what `y` held.
pub open spec fn prepared_value<T>(
    n: int,
    y: Seq<T>,
    residual: Option<Seq<T>>,
    bias: Option<Seq<T>>,
    i: int,
    j: int,
) -> T {
    match bias {
        Some(b) => b[j],
        None => match residual {
            Some(r) => r[i * n + j],
            None => y[i * n + j],
        },
    }
}

proof fn lemma_row_index(i: int, j: int, m: int, n: int)
    requires
        0 <= i < m,
        0 <= j < n,
    ensures
        0 <= i * n + j < m * n,
        i * n + j + (n - j) <= m * n,
{
    assert(i * n + n <= m * n) by (nonlinear_arith)
        requires
            0 <= i < m,
            0 <= n,
    ;
    assert(0 <= i * n) by (nonlinear_arith)
        requires
            0 <= i,
            0 <= n,
    ;
}

proof fn lemma_row_end(i: int, m: int, n: int)
    requires
        0 <= i < m,
        0 <= n,
    ensures
        0 <= i * n,
        i * n + n <= m * n,
{
    assert(i * n + n <= m * n) by (nonlinear_arith)
        requires
            0 <= i < m,
            0 <= n,
    ;
    assert(0 <= i * n) by (nonlinear_arith)
        requires
            0 <= i,
            0 <= n,
    ;
}

impl LinearPlan {
    /// Prepares `y` (row-major `m × n`) for the product: every row becomes
    /// the bias when one is given, otherwise `y` becomes a copy of the
    /// residual when one is given; with neither, `y` is left as it was.
    pub fn prefill<T: Copy>(&self, y: &mut [T], residual: Option<&[T]>, bias: Option<&[T]>)
        requires
            self.m * self.n <= old(y)@.len(),
            residual matches Some(r) ==> self.m * self.n <= r@.len(),
            bias matches Some(b) ==> self.n <= b@.len(),
        ensures
            final(y)@.len() == old(y)@.len(),
            forall|i: int, j: int|
                0 <= i < self.m && 0 <= j < self.n ==> #[trigger] final(y)@[i * self.n + j]
                    == prepared_value(
                    self.n as int,
                    old(y)@,
                    match residual {
                        Some(r) => Some(r@),
                        None => None,
                    },
                    match bias {
                        Some(b) => Some(b@),
                        None => None,
                    },
                    i,
                    j,
                ),
            forall|p: int| self.m * self.n <= p < old(y)@.len() ==> final(y)@[p] == old(y)@[p],
    {
        let ghost y0 = y@;
        let ghost res = match residual {
            Some(r) => Some(r@),
            None => None,
        };
        let ghost bs = match bias {
            Some(b) => Some(b@),
            None => None,
        };
        let (m, n) = (self.m, self.n);
        if bias.is_none() && residual.is_none() {
            proof {
                assert forall|i: int, j: int| 0 <= i < m && 0 <= j < n implies #[trigger] y@[i * n + j]
                    == prepared_value(n as int, y0, res, bs, i, j) by {}
            }
            return;
        }
        let mut i: usize = 0;
        let mut start: usize = 0;
        assert(y0.len() == y.len());
        while i < m
            invariant
                i <= m,
                (m, n) == (self.m, self.n),
                start == i * n,
                m * n <= y0.len(),
                y0.len() <= usize::MAX,
                bias.is_some() || residual.is_some(),
                y@.len() == y0.len(),
                residual matches Some(r) ==> m * n <= r@.len(),
                bias matches Some(b) ==> n <= b@.len(),
                res == (match residual {
                    Some(r) => Some(r@),
                    None => None,
                }),
                bs == (match bias {
                    Some(b) => Some(b@),
                    None => None,
                }),
                forall|i2: int, j: int|
                    0 <= i2 < i && 0 <= j < n ==> #[trigger] y@[i2 * n + j] == prepared_value(
                        n as int,
                        y0,
                        res,
                        bs,
                        i2,
                        j,
                    ),
                forall|p: int| i * n <= p < y0.len() ==> y@[p] == y0[p],
            decreases m - i,
        {
            let mut j: usize = 0;
            proof {
                lemma_row_end(i as int, m as int, n as int);
            }
            while j < n
                invariant
                    i < m,
                    j <= n,
                    (m, n) == (self.m, self.n),
                    start == i * n,
                    start + n <= m * n,
                    m * n <= y0.len(),
                    y0.len() <= usize::MAX,
                    y@.len() == y0.len(),
                    residual matches Some(r) ==> m * n <= r@.len(),
                    bias matches Some(b) ==> n <= b@.len(),
                    res == (match residual {
                        Some(r) => Some(r@),
                        None => None,
                    }),
                    bs == (match bias {
                        Some(b) => Some(b@),
                        None => None,
                    }),
                    bias.is_some() || residual.is_some(),
                    forall|i2: int, j2: int|
                        0 <= i2 < i && 0 <= j2 < n ==> #[trigger] y@[i2 * n + j2] == prepared_value(
                            n as int,
                            y0,
                            res,
                            bs,
                            i2,
                            j2,
                        ),
                    forall|j2: int| 0 <= j2 < j ==> y@[start + j2] == prepared_value(
                        n as int,
                        y0,
                        res,
                        bs,
                        i as int,
                        j2,
                    ),
                    forall|p: int| start + j <= p < y0.len() ==> y@[p] == y0[p],
                decreases n - j,
            {
                let v = match bias {
                    Some(b) => b[j],
                    None => match residual {
                        Some(r) => r[start + j],
                        None => y[start + j],
                    },
                };
                proof {
                    lemma_row_index(i as int, j as int, m as int, n as int);
                }
                y[start + j] = v;
                proof {
                    assert forall|i2: int, j2: int|
                        0 <= i2 < i && 0 <= j2 < n implies #[trigger] y@[i2 * n + j2] == prepared_value(
                            n as int,
                            y0,
                            res,
                            bs,
                            i2,
                            j2,
                        ) by {
                        lemma_row_index(i2, j2, i as int, n as int);
                    }
                }
                j = j + 1;
            }
            proof {
                assert forall|j2: int| 0 <= j2 < n implies #[trigger] y@[i * n + j2] == prepared_value(
                    n as int,
                    y0,
                    res,
                    bs,
                    i as int,
                    j2,
                ) by {
                    assert(y@[start + j2] == prepared_value(n as int, y0, res, bs, i as int, j2));
                }
                assert((i + 1) * n == i * n + n) by (nonlinear_arith);
            }
            start = start + n;
            i = i + 1;
        }
    }
}

} // verus!
