//! RMS and layer normalisation: the arithmetic runs on `f32` data outside;
//! this module checks the tensors and gives every element its offset.
use super::{unique, Arg, Grid, OpError, TensorMeta, offsets_fit};
use vstd::prelude::*;
use vstd::std_specs::cmp::PartialEqSpec;

verus! {

/// RMS normalisation `y = x / rms(x) * scale`, row by row.
pub struct RmsNorm;

/// Layer normalisation `y = (x - mean) / std * scale + bias`, row by row.
pub struct LayerNorm;

/// `n` rows of `d` elements; element `(i, j)` of each tensor lies at the
/// offset its grid gives (the per-row tensors have a single row of stride 0);
/// `epsilon` is the bit pattern of the attribute.
#[derive(Debug, Clone, Copy, PartialEq, Eq, Structural)]
pub struct NormPlan {
    pub n: usize,
    pub d: usize,
    pub epsilon: u64,
    pub x: Grid,
    pub scale: Grid,
    pub bias: Option<Grid>,
    pub y: Grid,
}

/// The grid of a matrix `t` over `rows × cols`.
pub open spec fn matrix_grid(t: TensorMeta, rows: usize, cols: usize) -> Grid {
    Grid { rows, cols, row_stride: t.strides[0], col_stride: t.strides[1] }
}

/// The grid of a vector `t` of `cols` elements, seen as one row.
pub open spec fn vector_grid(t: TensorMeta, cols: usize) -> Grid {
    Grid { rows: 1, cols, row_stride: 0, col_stride: t.strides[0] }
}

pub open spec fn grid_fits(g: Grid) -> bool {
    offsets_fit(g.rows as int, g.cols as int, g.row_stride as int, g.col_stride as int)
}

/// The outcome of the checks of the RMS normalisation kernel, in order:
/// a float attribute, inputs `[x, scale]`, one output `y`, `x` and `y` of
/// `n × d`, `scale` of `d`, and every element offset within `isize`.
pub open spec fn rms_norm_outcome(args: Option<Arg>, inputs: Seq<TensorMeta>, outputs: Seq<TensorMeta>) -> Result<
    NormPlan,
    OpError,
> {
    match args {
        Some(Arg::Float(epsilon)) => {
            if outputs.len() != 1 || inputs.len() != 2 {
                Err(OpError::Arity)
            } else {
                let (x, scale, y) = (inputs[0], inputs[1], outputs[0]);
                if x.shape.len() != 2 || scale.shape.len() != 1 || y.shape.len() != 2 {
                    Err(OpError::Rank)
                } else {
                    let (n, d) = (x.shape[0], x.shape[1]);
                    if d != scale.shape[0] || n != y.shape[0] || d != y.shape[1] {
                        Err(OpError::Shape)
                    } else {
                        let (gx, gs, gy) = (matrix_grid(x, n, d), vector_grid(scale, d), matrix_grid(y, n, d));
                        if !grid_fits(gx) || !grid_fits(gs) || !grid_fits(gy) {
                            Err(OpError::Overflow)
                        } else {
                            Ok(NormPlan { n, d, epsilon, x: gx, scale: gs, bias: None, y: gy })
                        }
                    }
                }
            }
        },
        _ => Err(OpError::Args),
    }
}

/// The outcome of the checks of the layer normalisation kernel, in order:
/// a float attribute, inputs `[x, scale, bias]`, one output `y`, `x` and
/// `y` with `n` rows, one common width `d` for all four tensors, and every
/// element offset within `isize`.
pub open spec fn layer_norm_outcome(args: Option<Arg>, inputs: Seq<TensorMeta>, outputs: Seq<TensorMeta>) -> Result<
    NormPlan,
    OpError,
> {
    match args {
        Some(Arg::Float(epsilon)) => {
            if outputs.len() != 1 || inputs.len() != 3 {
                Err(OpError::Arity)
            } else {
                let (x, scale, bias, y) = (inputs[0], inputs[1], inputs[2], outputs[0]);
                if x.shape.len() != 2 || scale.shape.len() != 1 || bias.shape.len() != 1 || y.shape.len() != 2 {
                    Err(OpError::Rank)
                } else {
                    let (n, d) = (x.shape[0], x.shape[1]);
                    if n != y.shape[0] || d != scale.shape[0] || d != bias.shape[0] || d != y.shape[1] {
                        Err(OpError::Shape)
                    } else {
                        let (gx, gs, gb, gy) = (
                            matrix_grid(x, n, d),
                            vector_grid(scale, d),
                            vector_grid(bias, d),
                            matrix_grid(y, n, d),
                        );
                        if !grid_fits(gx) || !grid_fits(gs) || !grid_fits(gb) || !grid_fits(gy) {
                            Err(OpError::Overflow)
                        } else {
                            Ok(NormPlan { n, d, epsilon, x: gx, scale: gs, bias: Some(gb), y: gy })
                        }
                    }
                }
            }
        },
        _ => Err(OpError::Args),
    }
}

/// What an accepted RMS normalisation call is: a float attribute, kept as
/// `epsilon`; `x` and `y` of `n × d` and `scale` of `d`; element `(i, j)` of
/// `x` and of `y` lies at `i` times that tensor's own row stride plus `j`
/// times its own column stride, element `j` of `scale` at `j` times its
/// stride; every such offset fits in `isize`.
pub proof fn lemma_rms_norm_accepts(
    args: Option<Arg>,
    inputs: Seq<TensorMeta>,
    outputs: Seq<TensorMeta>,
    p: NormPlan,
)
    requires
        rms_norm_outcome(args, inputs, outputs) == Ok::<NormPlan, OpError>(p),
    ensures
        args == Some(Arg::Float(p.epsilon)),
        inputs.len() == 2,
        outputs.len() == 1,
        inputs[0].shape@ == seq![p.n, p.d],
        inputs[1].shape@ == seq![p.d],
        outputs[0].shape@ == seq![p.n, p.d],
        p.x == (Grid { rows: p.n, cols: p.d, row_stride: inputs[0].strides[0], col_stride: inputs[0].strides[1] }),
        p.scale == (Grid { rows: 1, cols: p.d, row_stride: 0, col_stride: inputs[1].strides[0] }),
        p.bias is None,
        p.y == (Grid { rows: p.n, cols: p.d, row_stride: outputs[0].strides[0], col_stride: outputs[0].strides[1] }),
        p.x.fits() && p.scale.fits() && p.y.fits(),
{
    assert(inputs[0].shape@ =~= seq![p.n, p.d]);
    assert(inputs[1].shape@ =~= seq![p.d]);
    assert(outputs[0].shape@ =~= seq![p.n, p.d]);
}

/// What an accepted layer normalisation call is: a float attribute, kept as
/// `epsilon`; `x` and `y` of `n × d`, `scale` and `bias` of `d`; element
/// `(i, j)` of `x` and of `y` lies at `i` times that tensor's own row stride
/// plus `j` times its own column stride, element `j` of `scale` and of `bias`
/// at `j` times its own stride; every such offset fits in `isize`.
pub proof fn lemma_layer_norm_accepts(
    args: Option<Arg>,
    inputs: Seq<TensorMeta>,
    outputs: Seq<TensorMeta>,
    p: NormPlan,
)
    requires
        layer_norm_outcome(args, inputs, outputs) == Ok::<NormPlan, OpError>(p),
    ensures
        args == Some(Arg::Float(p.epsilon)),
        inputs.len() == 3,
        outputs.len() == 1,
        inputs[0].shape@ == seq![p.n, p.d],
        inputs[1].shape@ == seq![p.d],
        inputs[2].shape@ == seq![p.d],
        outputs[0].shape@ == seq![p.n, p.d],
        p.x == (Grid { rows: p.n, cols: p.d, row_stride: inputs[0].strides[0], col_stride: inputs[0].strides[1] }),
        p.scale == (Grid { rows: 1, cols: p.d, row_stride: 0, col_stride: inputs[1].strides[0] }),
        p.bias == Some(Grid { rows: 1, cols: p.d, row_stride: 0, col_stride: inputs[2].strides[0] }),
        p.y == (Grid { rows: p.n, cols: p.d, row_stride: outputs[0].strides[0], col_stride: outputs[0].strides[1] }),
        p.x.fits() && p.scale.fits() && p.y.fits(),
        p.bias matches Some(b) && b.fits(),
{
    assert(inputs[0].shape@ =~= seq![p.n, p.d]);
    assert(inputs[1].shape@ =~= seq![p.d]);
    assert(inputs[2].shape@ =~= seq![p.d]);
    assert(outputs[0].shape@ =~= seq![p.n, p.d]);
}

/// Every RMS normalisation call of the right shapes is accepted: with a
/// float attribute, `x` and `y` of `n × d` and `scale` of `d`, whose element
/// offsets fit in `isize`, the plan is the one of those tensors' strides.
pub proof fn lemma_rms_norm_accepts_matching(epsilon: u64, x: TensorMeta, scale: TensorMeta, y: TensorMeta, n: usize, d: usize)
    requires
        x.shape@ == seq![n, d],
        scale.shape@ == seq![d],
        y.shape@ == seq![n, d],
        offsets_fit(n as int, d as int, x.strides[0] as int, x.strides[1] as int),
        offsets_fit(1, d as int, 0, scale.strides[0] as int),
        offsets_fit(n as int, d as int, y.strides[0] as int, y.strides[1] as int),
    ensures
        rms_norm_outcome(Some(Arg::Float(epsilon)), seq![x, scale], seq![y]) == Ok::<NormPlan, OpError>(
            NormPlan {
                n,
                d,
                epsilon,
                x: Grid { rows: n, cols: d, row_stride: x.strides[0], col_stride: x.strides[1] },
                scale: Grid { rows: 1, cols: d, row_stride: 0, col_stride: scale.strides[0] },
                bias: None,
                y: Grid { rows: n, cols: d, row_stride: y.strides[0], col_stride: y.strides[1] },
            },
        ),
{
    assert(seq![x, scale][0] == x && seq![x, scale][1] == scale && seq![y][0] == y);
}

/// Every layer normalisation call of the right shapes is accepted: with a
/// float attribute, `x` and `y` of `n × d`, `scale` and `bias` of `d`, whose
/// element offsets fit in `isize`, the plan is the one of those tensors'
/// strides.
pub proof fn lemma_layer_norm_accepts_matching(
    epsilon: u64,
    x: TensorMeta,
    scale: TensorMeta,
    bias: TensorMeta,
    y: TensorMeta,
    n: usize,
    d: usize,
)
    requires
        x.shape@ == seq![n, d],
        scale.shape@ == seq![d],
        bias.shape@ == seq![d],
        y.shape@ == seq![n, d],
        offsets_fit(n as int, d as int, x.strides[0] as int, x.strides[1] as int),
        offsets_fit(1, d as int, 0, scale.strides[0] as int),
        offsets_fit(1, d as int, 0, bias.strides[0] as int),
        offsets_fit(n as int, d as int, y.strides[0] as int, y.strides[1] as int),
    ensures
        layer_norm_outcome(Some(Arg::Float(epsilon)), seq![x, scale, bias], seq![y]) == Ok::<NormPlan, OpError>(
            NormPlan {
                n,
                d,
                epsilon,
                x: Grid { rows: n, cols: d, row_stride: x.strides[0], col_stride: x.strides[1] },
                scale: Grid { rows: 1, cols: d, row_stride: 0, col_stride: scale.strides[0] },
                bias: Some(Grid { rows: 1, cols: d, row_stride: 0, col_stride: bias.strides[0] }),
                y: Grid { rows: n, cols: d, row_stride: y.strides[0], col_stride: y.strides[1] },
            },
        ),
{
    assert(seq![x, scale, bias][0] == x && seq![x, scale, bias][1] == scale && seq![x, scale, bias][2] == bias);
    assert(seq![y][0] == y);
}

fn matrix_grid_of(t: &TensorMeta, rows: usize, cols: usize) -> (r: Option<Grid>)
    requires
        t.wf(),
        t.shape@.len() == 2,
    ensures
        r is Some <==> grid_fits(matrix_grid(*t, rows, cols)),
        r matches Some(g) ==> g == matrix_grid(*t, rows, cols),
{
    Grid::new(rows, cols, t.strides[0], t.strides[1])
}

fn vector_grid_of(t: &TensorMeta, cols: usize) -> (r: Option<Grid>)
    requires
        t.wf(),
        t.shape@.len() == 1,
    ensures
        r is Some <==> grid_fits(vector_grid(*t, cols)),
        r matches Some(g) ==> g == vector_grid(*t, cols),
{
    Grid::new(1, cols, 0, t.strides[0])
}

impl RmsNorm {
    /// Checks the tensors of the RMS normalisation kernel and plans it.
    pub fn check(args: Option<Arg>, inputs: &[TensorMeta], outputs: &[TensorMeta]) -> (r: Result<
        NormPlan,
        OpError,
    >)
        requires
            forall|i: int| 0 <= i < inputs@.len() ==> (#[trigger] inputs@[i]).wf(),
            forall|i: int| 0 <= i < outputs@.len() ==> (#[trigger] outputs@[i]).wf(),
        ensures
            r == rms_norm_outcome(args, inputs@, outputs@),
    {
        let epsilon = match args {
            Some(Arg::Float(e)) => e,
            _ => return Err(OpError::Args),
        };
        if outputs.len() != 1 || inputs.len() != 2 {
            return Err(OpError::Arity);
        }
        let x = &inputs[0];
        let scale = &inputs[1];
        let y = &outputs[0];
        if x.shape.len() != 2 || scale.shape.len() != 1 || y.shape.len() != 2 {
            return Err(OpError::Rank);
        }
        let n = x.shape[0];
        let d = x.shape[1];
        if d != scale.shape[0] || n != y.shape[0] || d != y.shape[1] {
            return Err(OpError::Shape);
        }
        let gx = matrix_grid_of(x, n, d);
        let gs = vector_grid_of(scale, d);
        let gy = matrix_grid_of(y, n, d);
        match (gx, gs, gy) {
            (Some(gx), Some(gs), Some(gy)) => Ok(
                NormPlan { n, d, epsilon, x: gx, scale: gs, bias: None, y: gy },
            ),
            _ => Err(OpError::Overflow),
        }
    }
}

impl LayerNorm {
    /// Checks the tensors of the layer normalisation kernel and plans it.
    pub fn check(args: Option<Arg>, inputs: &[TensorMeta], outputs: &[TensorMeta]) -> (r: Result<
        NormPlan,
        OpError,
    >)
        requires
            forall|i: int| 0 <= i < inputs@.len() ==> (#[trigger] inputs@[i]).wf(),
            forall|i: int| 0 <= i < outputs@.len() ==> (#[trigger] outputs@[i]).wf(),
        ensures
            r == layer_norm_outcome(args, inputs@, outputs@),
    {
        let epsilon = match args {
            Some(Arg::Float(e)) => e,
            _ => return Err(OpError::Args),
        };
        if outputs.len() != 1 || inputs.len() != 3 {
            return Err(OpError::Arity);
        }
        let x = &inputs[0];
        let scale = &inputs[1];
        let bias = &inputs[2];
        let y = &outputs[0];
        if x.shape.len() != 2 || scale.shape.len() != 1 || bias.shape.len() != 1 || y.shape.len() != 2 {
            return Err(OpError::Rank);
        }
        let n = x.shape[0];
        if n != y.shape[0] {
            return Err(OpError::Shape);
        }
        let dims = [x.shape[1], scale.shape[0], bias.shape[0], y.shape[1]];
        assert(dims@ == seq![x.shape@[1], scale.shape@[0], bias.shape@[0], y.shape@[1]]);
        let d = match unique(&dims) {
            Some(d) => d,
            None => {
                assert(!super::all_equal_to_first(dims@));
                let ghost i = choose|i: int| 1 <= i < 4 && !dims@[i].eq_spec(&dims@[0]);
                assert(dims@[i] != dims@[0]);
                return Err(OpError::Shape);
            },
        };
        assert(dims@[1].eq_spec(&dims@[0]) && dims@[2].eq_spec(&dims@[0]) && dims@[3].eq_spec(&dims@[0]));
        let gx = matrix_grid_of(x, n, d);
        let gs = vector_grid_of(scale, d);
        let gb = vector_grid_of(bias, d);
        let gy = matrix_grid_of(y, n, d);
        match (gx, gs, gb, gy) {
            (Some(gx), Some(gs), Some(gb), Some(gy)) => Ok(
                NormPlan { n, d, epsilon, x: gx, scale: gs, bias: Some(gb), y: gy },
            ),
            _ => Err(OpError::Overflow),
        }
    }
}

} // verus!
