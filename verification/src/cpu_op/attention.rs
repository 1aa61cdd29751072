//! Multi-head self attention.  The scores, the softmax and the weighted sum
//! run on `f32` data outside; this module checks the tensors, splits the
//! width into heads and gives every element read or written its index.
use super::{Arg, DataType, OpError, TensorMeta};
use vstd::prelude::*;

verus! {

/// The attention kernel.
pub struct Attention;

/// `n` positions; rows of `q`/`y` hold `dq` elements, rows of `k` and `v`
/// hold `dk` and `dv`; `heads` heads of `dh` elements each.
#[derive(Debug, Clone, Copy, PartialEq, Eq, Structural)]
pub struct AttentionPlan {
    pub n: usize,
    pub dq: usize,
    pub dk: usize,
    pub dv: usize,
    pub dh: usize,
    pub heads: usize,
}

/// One past the last element of a row-major table of `n` rows of stride
/// `stride` that the kernel touches when it reads the first `width` elements
/// of every row.
pub open spec fn extent(n: int, stride: int, width: int) -> int {
    if n == 0 {
        0
    } else {
        (n - 1) * stride + width
    }
}

/// The outcome of the checks of the attention kernel, in order.
pub open spec fn attention_outcome(args: Option<Arg>, inputs: Seq<TensorMeta>, outputs: Seq<TensorMeta>) -> Result<
    AttentionPlan,
    OpError,
> {
    match args {
        Some(Arg::Int(dh)) => attention_outcome_with(dh, inputs, outputs),
        _ => Err(OpError::Args),
    }
}

/// The checks after the attribute `dh`, the width of one head.  Inputs are
/// `[q, k, v, ..]`, the one output is `y`; the number of positions `n` is
/// that of `y`.  Beyond the kernel's own checks, `q`, `k` and `v` must hold
/// every row that the kernel reads and the sizes must fit in `usize`.
pub open spec fn attention_outcome_with(dh: i64, inputs: Seq<TensorMeta>, outputs: Seq<TensorMeta>) -> Result<
    AttentionPlan,
    OpError,
> {
    if outputs.len() != 1 || inputs.len() < 3 {
        Err(OpError::Arity)
    } else {
        let (q, k, v, y) = (inputs[0], inputs[1], inputs[2], outputs[0]);
        if !(k.dt == q.dt && v.dt == q.dt && y.dt == q.dt) || q.dt != DataType::F32 {
            Err(OpError::DataType)
        } else if q.shape.len() != 2 || k.shape.len() != 2 || v.shape.len() != 2 || y.shape.len() != 2 {
            Err(OpError::Rank)
        } else {
            let (n, dq, dk, dv) = (y.shape[0] as int, q.shape[1] as int, k.shape[1] as int, v.shape[1] as int);
            let h = (dh as usize) as int;
            if y.shape[1] != q.shape[1] {
                Err(OpError::Shape)
            } else if h == 0 || dq % h != 0 || dk % h != 0 || dv % h != 0 {
                Err(OpError::Divisibility)
            } else if dk / h != dv / h {
                Err(OpError::Shape)
            } else if dq / h == 0 {
                Err(OpError::Divisibility)
            } else if n * (dq / h) * n > usize::MAX || n * dq > usize::MAX || extent(n, dk, dq)
                > usize::MAX || extent(n, dv, dq) > usize::MAX {
                Err(OpError::Overflow)
            } else if n * dq > q.shape[0] * dq || extent(n, dk, dq) > k.shape[0] * dk || extent(
                n,
                dv,
                dq,
            ) > v.shape[0] * dv {
                Err(OpError::Shape)
            } else {
                Ok(
                    AttentionPlan {
                        n: n as usize,
                        dq: dq as usize,
                        dk: dk as usize,
                        dv: dv as usize,
                        dh: h as usize,
                        heads: (dq / h) as usize,
                    },
                )
            }
        }
    }
}

/// What an accepted attention call is: the attribute gives the head width
/// `dh`; one output `y` of `n × dq`; `q` of width `dq`, `k` and `v` of widths
/// `dk` and `dv`, all of `f32`; `dq` splits into `heads ≥ 1` whole heads of
/// `dh`, and `dk` and `dv` split into the same number of whole heads.
pub proof fn lemma_attention_accepts(
    args: Option<Arg>,
    inputs: Seq<TensorMeta>,
    outputs: Seq<TensorMeta>,
    p: AttentionPlan,
)
    requires
        attention_outcome(args, inputs, outputs) == Ok::<AttentionPlan, OpError>(p),
    ensures
        args matches Some(Arg::Int(dh)) && dh as usize == p.dh,
        outputs.len() == 1,
        inputs.len() >= 3,
        inputs[0].dt == DataType::F32,
        inputs[1].dt == DataType::F32,
        inputs[2].dt == DataType::F32,
        outputs[0].dt == DataType::F32,
        inputs[0].shape.len() == 2,
        inputs[1].shape.len() == 2,
        inputs[2].shape.len() == 2,
        outputs[0].shape.len() == 2,
        p.n == outputs[0].shape[0],
        p.dq == inputs[0].shape[1],
        p.dq == outputs[0].shape[1],
        p.dk == inputs[1].shape[1],
        p.dv == inputs[2].shape[1],
        p.dh > 0,
        p.heads > 0,
        p.heads * p.dh == p.dq,
        p.dk % p.dh == 0,
        p.dv % p.dh == 0,
        p.dk / p.dh == p.dv / p.dh,
{
    let h = p.dh as int;
    let dq = p.dq as int;
    vstd::arithmetic::div_mod::lemma_fundamental_div_mod(dq, h);
    assert((dq / h) * h == dq) by (nonlinear_arith)
        requires
            dq == h * (dq / h) + dq % h,
            dq % h == 0,
    ;
}

/// Every head width that splits the width evenly is accepted: for `f32`
/// `q`, `k`, `v` and `y`, all of `n × dq` with `dq > 0`, and a head width
/// `0 < dh` dividing `dq` (sizes within the machine word), the kernel runs
/// `dq / dh` heads of `dh` elements, one head included.
pub proof fn lemma_attention_accepts_whole_heads(
    dh: i64,
    q: TensorMeta,
    k: TensorMeta,
    v: TensorMeta,
    y: TensorMeta,
    n: usize,
    dq: usize,
)
    requires
        0 < dh,
        0 < dq,
        (dq as int) % (dh as int) == 0,
        q.dt == DataType::F32 && k.dt == DataType::F32 && v.dt == DataType::F32 && y.dt == DataType::F32,
        q.shape@ == seq![n, dq],
        k.shape@ == seq![n, dq],
        v.shape@ == seq![n, dq],
        y.shape@ == seq![n, dq],
        n * dq <= usize::MAX,
        n * ((dq as int) / (dh as int)) * n <= usize::MAX,
    ensures
        attention_outcome(Some(Arg::Int(dh)), seq![q, k, v], seq![y]) == Ok::<AttentionPlan, OpError>(
            (AttentionPlan { n, dq, dk: dq, dv: dq, dh: dh as usize, heads: ((dq as int) / (dh as int)) as usize }),
        ),
{
    let h = dh as int;
    let (ni, di) = (n as int, dq as int);
    vstd::arithmetic::div_mod::lemma_fundamental_div_mod(di, h);
    assert(di / h >= 1 && h <= di) by (nonlinear_arith)
        requires
            di == h * (di / h) + di % h,
            di % h == 0,
            di > 0,
            h > 0,
    ;
    assert((dh as usize) as int == h);
    if ni > 0 {
        assert(extent(ni, di, di) == ni * di) by (nonlinear_arith)
            requires
                ni > 0,
        ;
    }
    assert(seq![q, k, v][0] == q && seq![q, k, v][1] == k && seq![q, k, v][2] == v);
}

impl AttentionPlan {
    /// The plan splits `dq` into whole heads and all its indices fit.
    pub open spec fn wf(&self) -> bool {
        &&& self.dh > 0
        &&& self.heads > 0
        &&& self.heads * self.dh == self.dq
        &&& self.n * self.heads * self.n <= usize::MAX
        &&& self.n * self.dq <= usize::MAX
        &&& extent(self.n as int, self.dk as int, self.dq as int) <= usize::MAX
        &&& extent(self.n as int, self.dv as int, self.dq as int) <= usize::MAX
    }

    /// Index of element `i` of head `h` in row `b` of a row-major table
    /// with rows of `stride` elements.
    pub open spec fn spec_index(&self, b: int, h: int, i: int, stride: int) -> int {
        b * stride + h * self.dh + i
    }

    proof fn lemma_index_bound(&self, b: int, h: int, i: int, stride: int)
        requires
            self.wf(),
            0 <= b < self.n,
            0 <= h < self.heads,
            0 <= i < self.dh,
            stride >= 0,
        ensures
            0 <= self.spec_index(b, h, i, stride) < extent(self.n as int, stride, self.dq as int),
            0 <= b * stride,
    {
        let (n, dh, heads, dq) = (self.n as int, self.dh as int, self.heads as int, self.dq as int);
        assert(h * dh + i < dq) by (nonlinear_arith)
            requires
                0 <= h < heads,
                0 <= i < dh,
                heads * dh == dq,
        ;
        assert(0 <= h * dh) by (nonlinear_arith)
            requires
                0 <= h,
                0 <= dh,
        ;
        assert(b * stride <= (n - 1) * stride && 0 <= b * stride) by (nonlinear_arith)
            requires
                0 <= b < n,
                stride >= 0,
        ;
    }

    /// Index in `q` of element `i` of head `h` of position `b`.
    pub fn q_index(&self, b: usize, h: usize, i: usize) -> (r: usize)
        requires
            self.wf(),
            b < self.n,
            h < self.heads,
            i < self.dh,
        ensures
            r == self.spec_index(b as int, h as int, i as int, self.dq as int),
            r < self.n * self.dq,
    {
        proof {
            self.lemma_index_bound(b as int, h as int, i as int, self.dq as int);
            assert((self.n - 1) * self.dq + self.dq == self.n * self.dq) by (nonlinear_arith);
        }
        b * self.dq + h * self.dh + i
    }

    /// Index in `y` of element `i` of head `h` of position `b`.
    pub fn y_index(&self, b: usize, h: usize, i: usize) -> (r: usize)
        requires
            self.wf(),
            b < self.n,
            h < self.heads,
            i < self.dh,
        ensures
            r == self.spec_index(b as int, h as int, i as int, self.dq as int),
            r < self.n * self.dq,
    {
        self.q_index(b, h, i)
    }

    /// Index in `k` of element `i` of head `h` of position `t`.
    pub fn k_index(&self, t: usize, h: usize, i: usize) -> (r: usize)
        requires
            self.wf(),
            t < self.n,
            h < self.heads,
            i < self.dh,
        ensures
            r == self.spec_index(t as int, h as int, i as int, self.dk as int),
            r < extent(self.n as int, self.dk as int, self.dq as int),
    {
        proof {
            self.lemma_index_bound(t as int, h as int, i as int, self.dk as int);
        }
        t * self.dk + h * self.dh + i
    }

    /// Index in `v` of element `i` of head `h` of position `t`.
    pub fn v_index(&self, t: usize, h: usize, i: usize) -> (r: usize)
        requires
            self.wf(),
            t < self.n,
            h < self.heads,
            i < self.dh,
        ensures
            r == self.spec_index(t as int, h as int, i as int, self.dv as int),
            r < extent(self.n as int, self.dv as int, self.dq as int),
    {
        proof {
            self.lemma_index_bound(t as int, h as int, i as int, self.dv as int);
        }
        t * self.dv + h * self.dh + i
    }

    /// Index in the score buffers (`n × heads × n`) of the score of position
    /// `b` against position `t` in head `h`.
    pub fn score_index(&self, b: usize, h: usize, t: usize) -> (r: usize)
        requires
            self.wf(),
            b < self.n,
            h < self.heads,
            t < self.n,
        ensures
            r == (b * self.heads + h) * self.n + t,
            r < self.n * self.heads * self.n,
    {
        let ghost (n, heads) = (self.n as int, self.heads as int);
        assert((b * heads + h) * n + t < n * heads * n && 0 <= (b * heads + h) * n) by (nonlinear_arith)
            requires
                0 <= b < n,
                0 <= h < heads,
                0 <= t < n,
        ;
        assert(b * heads + h < n * heads) by (nonlinear_arith)
            requires
                0 <= b < n,
                0 <= h < heads,
        ;
        assert(n * heads <= n * heads * n) by (nonlinear_arith)
            requires
                0 <= b < n,
                0 <= heads,
        ;
        (b * self.heads + h) * self.n + t
    }
}

fn wide_mul(a: usize, b: usize) -> (r: u128)
    ensures
        r == a * b,
{
    assert((a as int) * (b as int) <= (usize::MAX as int) * (usize::MAX as int)) by (nonlinear_arith)
        requires
            a <= usize::MAX,
            b <= usize::MAX,
    ;
    (a as u128) * (b as u128)
}

fn checked_extent(n: usize, stride: usize, width: usize) -> (r: Option<usize>)
    ensures
        r matches Some(e) ==> e == extent(n as int, stride as int, width as int),
        r is None <==> extent(n as int, stride as int, width as int) > usize::MAX,
{
    if n == 0 {
        return Some(0);
    }
    assert(((n - 1) as int) * (stride as int) <= (usize::MAX as int) * (usize::MAX as int)) by (nonlinear_arith)
        requires
            n - 1 <= usize::MAX,
            stride <= usize::MAX,
    ;
    let p: u128 = ((n - 1) as u128) * (stride as u128);
    let e: u128 = p + width as u128;
    if e > usize::MAX as u128 {
        None
    } else {
        Some(e as usize)
    }
}

impl Attention {
    /// Checks the tensors of the attention kernel and plans it.
    pub fn check(args: Option<Arg>, inputs: &[TensorMeta], outputs: &[TensorMeta]) -> (r: Result<
        AttentionPlan,
        OpError,
    >)
        requires
            forall|i: int| 0 <= i < inputs@.len() ==> (#[trigger] inputs@[i]).wf(),
            forall|i: int| 0 <= i < outputs@.len() ==> (#[trigger] outputs@[i]).wf(),
        ensures
            r == attention_outcome(args, inputs@, outputs@),
            r matches Ok(p) ==> p.wf(),
    {
        let dh = match args {
            Some(Arg::Int(dh)) => dh,
            _ => return Err(OpError::Args),
        };
        if outputs.len() != 1 || inputs.len() < 3 {
            return Err(OpError::Arity);
        }
        let q = &inputs[0];
        let k = &inputs[1];
        let v = &inputs[2];
        let y = &outputs[0];
        if !(k.dt == q.dt && v.dt == q.dt && y.dt == q.dt) || q.dt != DataType::F32 {
            return Err(OpError::DataType);
        }
        if q.shape.len() != 2 || k.shape.len() != 2 || v.shape.len() != 2 || y.shape.len() != 2 {
            return Err(OpError::Rank);
        }
        let n = y.shape[0];
        let dq = q.shape[1];
        let dk = k.shape[1];
        let dv = v.shape[1];
        if y.shape[1] != dq {
            return Err(OpError::Shape);
        }
        let h = #[verifier::truncate] (dh as usize);
        if h == 0 || dq % h != 0 || dk % h != 0 || dv % h != 0 {
            return Err(OpError::Divisibility);
        }
        if dk / h != dv / h {
            return Err(OpError::Shape);
        }
        let heads = dq / h;
        if heads == 0 {
            return Err(OpError::Divisibility);
        }
        let scores = match n.checked_mul(heads) {
            Some(nh) => nh.checked_mul(n),
            None => {
                assert(n * heads * n > usize::MAX) by (nonlinear_arith)
                    requires
                        n * heads > usize::MAX,
                        n >= 1,
                ;
                None
            },
        };
        let ek = checked_extent(n, dk, dq);
        let ev = checked_extent(n, dv, dq);
        let nq = n.checked_mul(dq);
        let (ek, ev, nq) = match (scores, ek, ev, nq) {
            (Some(_), Some(ek), Some(ev), Some(nq)) => (ek, ev, nq),
            _ => return Err(OpError::Overflow),
        };
        proof {
            vstd::arithmetic::div_mod::lemma_fundamental_div_mod(dq as int, h as int);
            assert(heads * h == dq) by (nonlinear_arith)
                requires
                    dq == h * heads + 0,
            ;
        }
        let rows_q = wide_mul(q.shape[0], dq);
        let rows_k = wide_mul(k.shape[0], dk);
        let rows_v = wide_mul(v.shape[0], dv);
        if nq as u128 > rows_q || ek as u128 > rows_k || ev as u128 > rows_v {
            return Err(OpError::Shape);
        }
        Ok(AttentionPlan { n, dq, dk, dv, dh: h, heads })
    }
}

} // verus!
