//! GeLU activation: the element-wise map runs on `f32` data outside; this
//! module checks the tensors and fixes the loop bounds.
use super::{Arg, OpError, TensorMeta};
use vstd::prelude::*;

verus! {

/// The GeLU kernel.
pub struct GeLU;

/// `n` rows of `d` elements, row-major in both `x` and `y`.
#[derive(Debug, Clone, Copy, PartialEq, Eq, Structural)]
pub struct GeluPlan {
    pub n: usize,
    pub d: usize,
}

/// The outcome of the checks of the GeLU kernel, in the order in which it
/// makes them: no attribute, one input `x`, one output `y`, both `n × d`
/// and row-major.
pub open spec fn gelu_outcome(args: Option<Arg>, inputs: Seq<TensorMeta>, outputs: Seq<TensorMeta>) -> Result<
    GeluPlan,
    OpError,
> {
    if args is Some {
        Err(OpError::Args)
    } else if inputs.len() != 1 || outputs.len() != 1 {
        Err(OpError::Arity)
    } else if inputs[0].shape.len() != 2 || outputs[0].shape.len() != 2 {
        Err(OpError::Rank)
    } else if inputs[0].shape[0] != outputs[0].shape[0] || inputs[0].shape[1] != outputs[0].shape[1] {
        Err(OpError::Shape)
    } else if !inputs[0].is_be_contiguous() || !outputs[0].is_be_contiguous() {
        Err(OpError::Layout)
    } else {
        Ok(GeluPlan { n: inputs[0].shape[0], d: inputs[0].shape[1] })
    }
}

/// The GeLU kernel accepts exactly one row-major input and one row-major
/// output of the same `n × d` shape, with no attribute, and then runs over
/// `n` rows of `d`.
pub proof fn lemma_gelu_accepts_exactly(args: Option<Arg>, inputs: Seq<TensorMeta>, outputs: Seq<TensorMeta>)
    ensures
        gelu_outcome(args, inputs, outputs) is Ok <==> {
            &&& args is None
            &&& inputs.len() == 1
            &&& outputs.len() == 1
            &&& inputs[0].shape@.len() == 2
            &&& outputs[0].shape@ == inputs[0].shape@
            &&& inputs[0].is_be_contiguous()
            &&& outputs[0].is_be_contiguous()
        },
        gelu_outcome(args, inputs, outputs) matches Ok(p) ==> inputs[0].shape@ == seq![p.n, p.d],
{
    if args is None && inputs.len() == 1 && outputs.len() == 1 && inputs[0].shape@.len() == 2
        && outputs[0].shape@.len() == 2 {
        if inputs[0].shape[0] == outputs[0].shape[0] && inputs[0].shape[1] == outputs[0].shape[1] {
            assert(outputs[0].shape@ =~= inputs[0].shape@);
        }
        assert(inputs[0].shape@ =~= seq![inputs[0].shape[0], inputs[0].shape[1]]);
    }
}

impl GeLU {
    /// Checks the tensors of the GeLU kernel.
    pub fn check(args: Option<Arg>, inputs: &[TensorMeta], outputs: &[TensorMeta]) -> (r: Result<
        GeluPlan,
        OpError,
    >)
        requires
            forall|i: int| 0 <= i < inputs@.len() ==> (#[trigger] inputs@[i]).wf(),
            forall|i: int| 0 <= i < outputs@.len() ==> (#[trigger] outputs@[i]).wf(),
        ensures
            r == gelu_outcome(args, inputs@, outputs@),
    {
        if args.is_some() {
            return Err(OpError::Args);
        }
        if inputs.len() != 1 || outputs.len() != 1 {
            return Err(OpError::Arity);
        }
        let x = &inputs[0];
        let y = &outputs[0];
        if x.shape.len() != 2 || y.shape.len() != 2 {
            return Err(OpError::Rank);
        }
        if x.shape[0] != y.shape[0] || x.shape[1] != y.shape[1] {
            return Err(OpError::Shape);
        }
        if !x.is_big_endian_contiguous() || !y.is_big_endian_contiguous() {
            return Err(OpError::Layout);
        }
        Ok(GeluPlan { n: x.shape[0], d: x.shape[1] })
    }
}

} // verus!
