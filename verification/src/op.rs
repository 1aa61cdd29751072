//! Planning of the operators of the virtual machine.  An operator checks
//! the shapes of its inputs, names the outputs to allocate and the kernels
//! to launch on them; the virtual machine's domain carries the plan out.
use crate::cpu_op::OpError;
use crate::layout::{broadcast_rows, swap_leading, transpose_leading, ArrayLayout};
use vstd::prelude::*;

verus! {

/// The forward pass of a fully connected layer, `y = x · wᵀ (+ b)`.
pub struct Forward;

/// The backward pass of a fully connected layer.
pub struct Backward;

/// A kernel of the domain.
#[derive(Debug, Clone, Copy, PartialEq, Eq, Structural)]
pub enum Kernel {
    /// Copies its second operand into its first.
    Rearrange,
    /// `dst = a · b (+ dst when it is read)`.
    MutMul,
    /// Sums its second operand over the first dimension into its first.
    Sum,
}

/// A tensor handed to a kernel: an output of the operator, or an input as
/// it is, with its two leading axes swapped, or (a vector) broadcast to the
/// rows of the output.
#[derive(Debug, Clone, Copy, PartialEq, Eq, Structural)]
pub enum Operand {
    Output(usize),
    Input(usize),
    Transposed(usize),
    Broadcast(usize),
}

/// One kernel launch: the kernel, its operands (the written one first) and,
/// when the launch carries the multiplication attribute, whether the kernel
/// reads the destination.
#[derive(Debug, Clone, PartialEq, Eq)]
pub struct Launch {
    pub kernel: Kernel,
    pub operands: Vec<Operand>,
    pub read_dst: Option<bool>,
}

/// Whether `l` launches `kernel` on `operands` with attribute `read_dst`.
pub open spec fn launches(l: Launch, kernel: Kernel, operands: Seq<Operand>, read_dst: Option<bool>) -> bool {
    l.kernel == kernel && l.operands@ == operands && l.read_dst == read_dst
}

/// One step of an operator, in the order in which the domain sees it:
/// allocating the next output with the given shape and with the data type of
/// the input of the given number, or launching a kernel.  Outputs are
/// numbered in the order of their allocation.
#[derive(Debug, Clone, PartialEq, Eq)]
pub enum Step {
    Allocate(Vec<usize>, usize),
    Run(Launch),
}

/// Whether `s` allocates an output of shape `shape` with the data type of
/// input `input`.
pub open spec fn allocates(s: Step, shape: Seq<usize>, input: usize) -> bool {
    s matches Step::Allocate(v, i) && v@ == shape && i == input
}

/// Whether `s` launches `kernel` on `operands` with attribute `read_dst`.
pub open spec fn runs(s: Step, kernel: Kernel, operands: Seq<Operand>, read_dst: Option<bool>) -> bool {
    s matches Step::Run(l) && launches(l, kernel, operands, read_dst)
}

/// The forward plan: `x` is `m × k`, `w` is `n × k`, `y` is `m × n`;
/// `bias` tells whether a bias of `n` takes part.
#[derive(Debug, Clone, Copy, PartialEq, Eq, Structural)]
pub struct ForwardPlan {
    pub m: usize,
    pub n: usize,
    pub k: usize,
    pub bias: bool,
}

/// The backward plan: `x` is `m × k`, `w` is `n × k`, `dy` is `m × n`;
/// `bias` tells whether the bias gradient is wanted.
#[derive(Debug, Clone, Copy, PartialEq, Eq, Structural)]
pub struct BackwardPlan {
    pub m: usize,
    pub n: usize,
    pub k: usize,
    pub bias: bool,
}

/// The outcome of the forward checks on the input shapes `[x, w, b?, ..]`.
pub open spec fn forward_outcome(shapes: Seq<Seq<usize>>) -> Result<ForwardPlan, OpError> {
    if shapes.len() < 2 {
        Err(OpError::Arity)
    } else if shapes[0].len() != 2 || shapes[1].len() != 2 {
        Err(OpError::Rank)
    } else {
        let (m, k, n) = (shapes[0][0], shapes[0][1], shapes[1][0]);
        if shapes[1][1] != k {
            Err(OpError::Shape)
        } else if shapes.len() == 2 {
            Ok(ForwardPlan { m, n, k, bias: false })
        } else if shapes[2].len() != 1 {
            Err(OpError::Rank)
        } else if shapes[2][0] != n {
            Err(OpError::Shape)
        } else {
            Ok(ForwardPlan { m, n, k, bias: true })
        }
    }
}

/// The outcome of the backward checks on the input shapes `[dy, x, w, ..]`.
pub open spec fn backward_outcome(has_bias: bool, shapes: Seq<Seq<usize>>) -> Result<BackwardPlan, OpError> {
    if shapes.len() < 3 {
        Err(OpError::Arity)
    } else if shapes[1].len() != 2 || shapes[2].len() != 2 || shapes[0].len() != 2 {
        Err(OpError::Rank)
    } else {
        let (m, k, n) = (shapes[1][0], shapes[1][1], shapes[2][0]);
        if shapes[2][1] != k || shapes[0][0] != m || shapes[0][1] != n {
            Err(OpError::Shape)
        } else {
            Ok(BackwardPlan { m, n, k, bias: has_bias })
        }
    }
}

pub open spec fn shapes_view(shapes: Seq<Vec<usize>>) -> Seq<Seq<usize>> {
    shapes.map_values(|s: Vec<usize>| s@)
}

impl Forward {
    /// Checks the input shapes `[x, w, b?, ..]` of the forward pass.
    pub fn plan(shapes: &[Vec<usize>]) -> (r: Result<ForwardPlan, OpError>)
        ensures
            r == forward_outcome(shapes_view(shapes@)),
    {
        let ghost sv = shapes_view(shapes@);
        if shapes.len() < 2 {
            return Err(OpError::Arity);
        }
        assert(sv[0] == shapes@[0]@ && sv[1] == shapes@[1]@);
        let (x, w) = (&shapes[0], &shapes[1]);
        if x.len() != 2 || w.len() != 2 {
            return Err(OpError::Rank);
        }
        let (m, k, n) = (x[0], x[1], w[0]);
        if w[1] != k {
            return Err(OpError::Shape);
        }
        if shapes.len() == 2 {
            return Ok(ForwardPlan { m, n, k, bias: false });
        }
        assert(sv[2] == shapes@[2]@);
        let b = &shapes[2];
        if b.len() != 1 {
            return Err(OpError::Rank);
        }
        if b[0] != n {
            return Err(OpError::Shape);
        }
        Ok(ForwardPlan { m, n, k, bias: true })
    }

    /// The layout under which the weight enters the product: transposed.
    pub fn weight_layout(layout: ArrayLayout) -> (r: ArrayLayout)
        requires
            layout.wf(),
            layout.shape@.len() >= 2,
        ensures
            r.wf(),
            r.shape@ == swap_leading(layout.shape@),
            r.strides@ == swap_leading(layout.strides@),
            r.offset == layout.offset,
    {
        transpose_leading(layout)
    }

    /// The layout under which the bias is copied into `y`: `m` rows that
    /// all read the bias.
    pub fn bias_layout(layout: ArrayLayout, m: usize) -> (r: ArrayLayout)
        requires
            layout.wf(),
            layout.shape@.len() == 1,
            0 < layout.shape@[0] <= isize::MAX,
            isize::MIN <= layout.strides@[0] * layout.shape@[0] <= isize::MAX,
        ensures
            r.wf(),
            r.shape@ == seq![m, layout.shape@[0]],
            r.strides@ == seq![0isize, layout.strides@[0]],
            r.offset == layout.offset,
    {
        broadcast_rows(layout, m)
    }
}

/// The output shapes of a forward plan: `y` of `m × n`.
pub open spec fn forward_outputs(p: ForwardPlan) -> Seq<Seq<usize>> {
    seq![seq![p.m, p.n]]
}

/// The output shapes of a backward plan: `dx` of `m × k`, `dw` of `n × k`
/// and, with a bias, `db` of `n`.
pub open spec fn backward_outputs(p: BackwardPlan) -> Seq<Seq<usize>> {
    if p.bias {
        seq![seq![p.m, p.k], seq![p.n, p.k], seq![p.n]]
    } else {
        seq![seq![p.m, p.k], seq![p.n, p.k]]
    }
}

/// The backward pass fits the forward pass: whenever the forward checks
/// accept the inputs `[x, w, b?]`, the backward checks accept `[dy, x, w]`
/// with `dy` of the shape of `y`, and the gradients have exactly the shapes
/// of `x`, `w` and `b`.
pub proof fn lemma_backward_fits_forward(shapes: Seq<Seq<usize>>)
    requires
        shapes.len() == 2 || shapes.len() == 3,
        forward_outcome(shapes) is Ok,
    ensures
        ({
            let f = forward_outcome(shapes)->Ok_0;
            let back = seq![forward_outputs(f)[0], shapes[0], shapes[1]];
            &&& backward_outcome(f.bias, back) == Ok::<BackwardPlan, OpError>(
                BackwardPlan { m: f.m, n: f.n, k: f.k, bias: f.bias },
            )
            &&& backward_outputs(BackwardPlan { m: f.m, n: f.n, k: f.k, bias: f.bias }) == shapes
        }),
{
    let f = forward_outcome(shapes)->Ok_0;
    assert(shapes[0] =~= seq![f.m, f.k]);
    assert(shapes[1] =~= seq![f.n, f.k]);
    if f.bias {
        assert(shapes[2] =~= seq![f.n]);
    }
    let b = BackwardPlan { m: f.m, n: f.n, k: f.k, bias: f.bias };
    assert(backward_outputs(b) =~= shapes);
}

impl ForwardPlan {
    /// The shapes of the outputs to allocate (with the data type of `x`).
    pub fn output_shapes(&self) -> (r: Vec<Vec<usize>>)
        ensures
            r@.len() == forward_outputs(*self).len(),
            forall|i: int| 0 <= i < r@.len() ==> (#[trigger] r@[i])@ == forward_outputs(*self)[i],
    {
        let mut r: Vec<Vec<usize>> = Vec::new();
        r.push(vec![self.m, self.n]);
        r
    }

    /// The launches: with a bias, `y` first receives the bias broadcast to
    /// its rows and the product with the transposed weight is added onto it;
    /// without, the product overwrites `y`.
    pub fn launches(&self) -> (r: Vec<Launch>)
        ensures
            self.bias ==> r@.len() == 2 && launches(
                r@[0],
                Kernel::Rearrange,
                seq![Operand::Output(0), Operand::Broadcast(2)],
                None,
            ) && launches(
                r@[1],
                Kernel::MutMul,
                seq![Operand::Output(0), Operand::Input(0), Operand::Transposed(1)],
                Some(true),
            ),
            !self.bias ==> r@.len() == 1 && launches(
                r@[0],
                Kernel::MutMul,
                seq![Operand::Output(0), Operand::Input(0), Operand::Transposed(1)],
                Some(false),
            ),
    {
        let mut r: Vec<Launch> = Vec::new();
        if self.bias {
            r.push(
                Launch {
                    kernel: Kernel::Rearrange,
                    operands: vec![Operand::Output(0), Operand::Broadcast(2)],
                    read_dst: None,
                },
            );
        }
        r.push(
            Launch {
                kernel: Kernel::MutMul,
                operands: vec![Operand::Output(0), Operand::Input(0), Operand::Transposed(1)],
                read_dst: Some(self.bias),
            },
        );
        r
    }
}

impl ForwardPlan {
    /// The steps of the forward pass: `y` is allocated with the data type of
    /// `x` (input 0), then, with a bias,
    /// it receives the bias broadcast to its rows and the product with the
    /// transposed weight is added onto it; without, the product overwrites
    /// it.
    pub fn steps(&self) -> (r: Vec<Step>)
        ensures
            allocates(r@[0], seq![self.m, self.n], 0),
            self.bias ==> r@.len() == 3 && runs(
                r@[1],
                Kernel::Rearrange,
                seq![Operand::Output(0), Operand::Broadcast(2)],
                None,
            ) && runs(
                r@[2],
                Kernel::MutMul,
                seq![Operand::Output(0), Operand::Input(0), Operand::Transposed(1)],
                Some(true),
            ),
            !self.bias ==> r@.len() == 2 && runs(
                r@[1],
                Kernel::MutMul,
                seq![Operand::Output(0), Operand::Input(0), Operand::Transposed(1)],
                Some(false),
            ),
    {
        let mut r: Vec<Step> = Vec::new();
        r.push(Step::Allocate(vec![self.m, self.n], 0));
        if self.bias {
            r.push(
                Step::Run(
                    Launch {
                        kernel: Kernel::Rearrange,
                        operands: vec![Operand::Output(0), Operand::Broadcast(2)],
                        read_dst: None,
                    },
                ),
            );
        }
        r.push(
            Step::Run(
                Launch {
                    kernel: Kernel::MutMul,
                    operands: vec![Operand::Output(0), Operand::Input(0), Operand::Transposed(1)],
                    read_dst: Some(self.bias),
                },
            ),
        );
        r
    }
}

impl Backward {
    /// Checks the input shapes `[dy, x, w, ..]` of the backward pass;
    /// `has_bias` asks for the gradient of the bias too.
    pub fn plan(has_bias: bool, shapes: &[Vec<usize>]) -> (r: Result<BackwardPlan, OpError>)
        ensures
            r == backward_outcome(has_bias, shapes_view(shapes@)),
    {
        let ghost sv = shapes_view(shapes@);
        if shapes.len() < 3 {
            return Err(OpError::Arity);
        }
        assert(sv[0] == shapes@[0]@ && sv[1] == shapes@[1]@ && sv[2] == shapes@[2]@);
        let (dy, x, w) = (&shapes[0], &shapes[1], &shapes[2]);
        if x.len() != 2 || w.len() != 2 || dy.len() != 2 {
            return Err(OpError::Rank);
        }
        let (m, k, n) = (x[0], x[1], w[0]);
        if w[1] != k || dy[0] != m || dy[1] != n {
            return Err(OpError::Shape);
        }
        Ok(BackwardPlan { m, n, k, bias: has_bias })
    }

    /// The layout under which `dy` enters the weight gradient: transposed.
    pub fn dy_layout(layout: ArrayLayout) -> (r: ArrayLayout)
        requires
            layout.wf(),
            layout.shape@.len() >= 2,
        ensures
            r.wf(),
            r.shape@ == swap_leading(layout.shape@),
            r.strides@ == swap_leading(layout.strides@),
            r.offset == layout.offset,
    {
        transpose_leading(layout)
    }
}

impl BackwardPlan {
    /// The shapes of the outputs to allocate (with the data type of `x`).
    pub fn output_shapes(&self) -> (r: Vec<Vec<usize>>)
        ensures
            r@.len() == backward_outputs(*self).len(),
            forall|i: int| 0 <= i < r@.len() ==> (#[trigger] r@[i])@ == backward_outputs(*self)[i],
    {
        let mut r: Vec<Vec<usize>> = Vec::new();
        r.push(vec![self.m, self.k]);
        r.push(vec![self.n, self.k]);
        if self.bias {
            r.push(vec![self.n]);
        }
        r
    }

    /// The steps of the backward pass: `dx` and `dw` are allocated (every
    /// gradient with the data type of `x`, input 1), then
    /// `dx = dy · w` and `dw = dyᵀ · x` are launched; only after these, and
    /// only with a bias, `db` is allocated and `db = Σ dy` over rows is
    /// launched.
    pub fn steps(&self) -> (r: Vec<Step>)
        ensures
            r@.len() == (if self.bias { 6int } else { 4int }),
            allocates(r@[0], seq![self.m, self.k], 1),
            allocates(r@[1], seq![self.n, self.k], 1),
            runs(
                r@[2],
                Kernel::MutMul,
                seq![Operand::Output(0), Operand::Input(0), Operand::Input(2)],
                Some(false),
            ),
            runs(
                r@[3],
                Kernel::MutMul,
                seq![Operand::Output(1), Operand::Transposed(0), Operand::Input(1)],
                Some(false),
            ),
            self.bias ==> allocates(r@[4], seq![self.n], 1) && runs(
                r@[5],
                Kernel::Sum,
                seq![Operand::Output(2), Operand::Input(0)],
                Some(false),
            ),
    {
        let mut r: Vec<Step> = Vec::new();
        r.push(Step::Allocate(vec![self.m, self.k], 1));
        r.push(Step::Allocate(vec![self.n, self.k], 1));
        r.push(
            Step::Run(
                Launch {
                    kernel: Kernel::MutMul,
                    operands: vec![Operand::Output(0), Operand::Input(0), Operand::Input(2)],
                    read_dst: Some(false),
                },
            ),
        );
        r.push(
            Step::Run(
                Launch {
                    kernel: Kernel::MutMul,
                    operands: vec![Operand::Output(1), Operand::Transposed(0), Operand::Input(1)],
                    read_dst: Some(false),
                },
            ),
        );
        if self.bias {
            let db_shape = vec![self.n];
            assert(db_shape@ =~= seq![self.n]);
            r.push(Step::Allocate(db_shape, 1));
            r.push(
                Step::Run(
                    Launch {
                        kernel: Kernel::Sum,
                        operands: vec![Operand::Output(2), Operand::Input(0)],
                        read_dst: Some(false),
                    },
                ),
            );
        }
        r
    }

    /// The launches: `dx = dy · w`, then `dw = dyᵀ · x`, then, with a bias,
    /// `db = Σ dy` over rows.
    pub fn launches(&self) -> (r: Vec<Launch>)
        ensures
            r@.len() == (if self.bias { 3int } else { 2int }),
            launches(
                r@[0],
                Kernel::MutMul,
                seq![Operand::Output(0), Operand::Input(0), Operand::Input(2)],
                Some(false),
            ),
            launches(
                r@[1],
                Kernel::MutMul,
                seq![Operand::Output(1), Operand::Transposed(0), Operand::Input(1)],
                Some(false),
            ),
            self.bias ==> launches(
                r@[2],
                Kernel::Sum,
                seq![Operand::Output(2), Operand::Input(0)],
                Some(false),
            ),
    {
        let mut r: Vec<Launch> = Vec::new();
        r.push(
            Launch {
                kernel: Kernel::MutMul,
                operands: vec![Operand::Output(0), Operand::Input(0), Operand::Input(2)],
                read_dst: Some(false),
            },
        );
        r.push(
            Launch {
                kernel: Kernel::MutMul,
                operands: vec![Operand::Output(1), Operand::Transposed(0), Operand::Input(1)],
                read_dst: Some(false),
            },
        );
        if self.bias {
            r.push(
                Launch {
                    kernel: Kernel::Sum,
                    operands: vec![Operand::Output(2), Operand::Input(0)],
                    read_dst: Some(false),
                },
            );
        }
        r
    }
}

} // verus!
