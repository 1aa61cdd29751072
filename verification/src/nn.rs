//! Networks built on the context.
use crate::context::{full_name, Context};
use vstd::prelude::*;
use vstd::string::StringSliceAdditionalSpecFns;

verus! {

/// A fully connected layer: a weight and an optional bias.
pub struct Linear;

/// A tensor that the forward pass of the layer hands to its operator.
#[derive(Debug, Clone, Copy, PartialEq, Eq, Structural)]
pub enum Param {
    X,
    Weight,
    Bias,
}

/// A tensor that the backward pass of the layer hands to its operator.
#[derive(Debug, Clone, Copy, PartialEq, Eq, Structural)]
pub enum BackwardInput {
    /// The gradient of the output.
    OutputGrad,
    /// The input, kept from the forward pass.
    SavedX,
    /// The weight, kept from the forward pass.
    SavedWeight,
    /// The gradient of the bias.
    BiasGrad,
}

/// What the forward pass of the layer does: call the forward operator on
/// `forward_inputs`, and, while a backward pass is being built, record the
/// backward operator with its bias flag and its inputs.
#[derive(Debug, Clone, PartialEq, Eq)]
pub struct ForwardSteps {
    pub forward_inputs: Vec<Param>,
    pub backward: Option<(bool, Vec<BackwardInput>)>,
}

impl Linear {
    /// The steps of the forward pass, given whether the layer has a bias and
    /// whether a backward pass is being built: the operator takes `[x,
    /// weight, bias?]`; the backward operator (with the bias flag) takes
    /// `[dy, x, weight, d_bias?]`.
    pub fn forward_steps(has_bias: bool, recording: bool) -> (r: ForwardSteps)
        ensures
            r.forward_inputs@ == (if has_bias {
                seq![Param::X, Param::Weight, Param::Bias]
            } else {
                seq![Param::X, Param::Weight]
            }),
            recording ==> (r.backward matches Some((b, ins)) && b == has_bias && ins@ == (if has_bias {
                seq![
                    BackwardInput::OutputGrad,
                    BackwardInput::SavedX,
                    BackwardInput::SavedWeight,
                    BackwardInput::BiasGrad,
                ]
            } else {
                seq![BackwardInput::OutputGrad, BackwardInput::SavedX, BackwardInput::SavedWeight]
            })),
            !recording ==> r.backward is None,
    {
        let mut forward_inputs = vec![Param::X, Param::Weight];
        if has_bias {
            forward_inputs.push(Param::Bias);
        }
        let backward = if recording {
            let mut ins = vec![BackwardInput::OutputGrad, BackwardInput::SavedX, BackwardInput::SavedWeight];
            if has_bias {
                ins.push(BackwardInput::BiasGrad);
            }
            Some((has_bias, ins))
        } else {
            None
        };
        ForwardSteps { forward_inputs, backward }
    }

    /// Registers the weight as `weight` and, when there is one, the bias as
    /// `bias` under the current path.  Neither name may be taken yet.
    pub fn init<D, W, B, N>(init: (W, Option<W>), ctx: &mut Context<D, W, B, N>)
        requires
            old(ctx).wf(),
            old(ctx).weight_entry(full_name(old(ctx).path_view(), "weight".spec_bytes())) is None,
            init.1 is Some ==> old(ctx).weight_entry(full_name(old(ctx).path_view(), "bias".spec_bytes()))
                is None,
        ensures
            final(ctx).wf(),
            forall|k: Seq<u8>|
                #[trigger] final(ctx).weight_entry(k) == (if k == full_name(
                    old(ctx).path_view(),
                    "weight".spec_bytes(),
                ) {
                    Some((init.0, None))
                } else if init.1 is Some && k == full_name(old(ctx).path_view(), "bias".spec_bytes()) {
                    Some((init.1->0, None))
                } else {
                    old(ctx).weight_entry(k)
                }),
            final(ctx).path_view() == old(ctx).path_view(),
            final(ctx).domain_view() == old(ctx).domain_view(),
            final(ctx).forward_view() == old(ctx).forward_view(),
            final(ctx).backward_view() == old(ctx).backward_view(),
    {
        let (w, b) = init;
        proof {
            reveal_strlit("weight");
            reveal_strlit("bias");
            vstd::string::is_ascii_spec_bytes("weight");
            vstd::string::is_ascii_spec_bytes("bias");
            assert(vstd::string::is_ascii("weight"));
            assert(vstd::string::is_ascii("bias"));
            assert("weight".spec_bytes().len() != "bias".spec_bytes().len());
            assert(full_name(ctx.path_view(), "weight".spec_bytes()).len() != full_name(
                ctx.path_view(),
                "bias".spec_bytes(),
            ).len());
            assert(full_name(ctx.path_view(), "weight".spec_bytes()) != full_name(
                ctx.path_view(),
                "bias".spec_bytes(),
            ));
        }
        ctx.save_weight("weight", w);
        if let Some(b) = b {
            ctx.save_weight("bias", b);
        }
    }
}

} // verus!
