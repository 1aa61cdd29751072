use digit_layout::types::{F32, U16};
use nnvm::context::Context;
use nnvm::layout::{broadcast_rows, transpose_leading, ArrayLayout};
use nnvm::nn::{BackwardInput, Linear, Param};
use nnvm::op::{Backward, BackwardPlan, Forward, ForwardPlan, Kernel, Launch, Operand, Step};
use nnvm::cpu_op::OpError;
use nnvm::tensor::{LockAction, NNTensor, SubTensor, Tensor, UnlockAction};
use std::cell::Cell;

fn layout(shape: &[usize], strides: &[isize]) -> ArrayLayout {
    ArrayLayout::new(shape, strides, 0)
}

fn part(shape: &[usize], strides: &[isize], data: u32) -> SubTensor<u32> {
    SubTensor::new(F32, layout(shape, strides), data)
}

#[test]
fn transpose_swaps_leading_axes() {
    let t = transpose_leading(layout(&[2, 3, 4], &[12, 4, 1]));
    assert_eq!(t.shape, vec![3, 2, 4]);
    assert_eq!(t.strides, vec![4, 12, 1]);
    assert_eq!(t.offset, 0);
}

#[test]
fn transpose_twice_is_identity() {
    let l = ArrayLayout::new(&[5, 7], &[28, 4], 16);
    let back = transpose_leading(transpose_leading(l.clone()));
    assert_eq!(back, l);
}

#[test]
fn bias_broadcast_to_rows() {
    let b = broadcast_rows(ArrayLayout::new(&[5], &[4], 8), 3);
    assert_eq!(b.shape, vec![3, 5]);
    assert_eq!(b.strides, vec![0, 4]);
    assert_eq!(b.offset, 8);
}

#[test]
fn tensor_dt_and_shape() {
    let simple = Tensor::Simple(part(&[2, 3], &[12, 4], 1));
    assert_eq!(simple.dt(), F32);
    assert_eq!(simple.shape(), &[2, 3]);
    let grouped = Tensor::Grouped(vec![
        SubTensor::new(U16, layout(&[4], &[2]), 1u32),
        part(&[9], &[4], 2),
    ]);
    assert_eq!(grouped.dt(), U16);
    assert_eq!(grouped.shape(), &[4]);
}

#[test]
fn tensor_map_and_transform_compose() {
    let t = || Tensor::Grouped(vec![part(&[2, 3], &[12, 4], 1), part(&[4, 5], &[20, 4], 2)]);
    let twice = t().map(|d: u32| d + 1).map(|d: u32| d * 10);
    let once = t().map(|d: u32| (d + 1) * 10);
    assert_eq!(physicals(&twice), physicals(&once));
    assert_eq!(physicals(&t().map(|d: u32| d)), physicals(&t()));
    let shapes = |x: &Tensor<u32>| match x {
        Tensor::Simple(p) => vec![p.layout.clone()],
        Tensor::Grouped(ps) => ps.iter().map(|p| p.layout.clone()).collect::<Vec<_>>(),
    };
    let back = t().transform(transpose_leading).transform(transpose_leading);
    assert_eq!(shapes(&back), shapes(&t()));
    assert_eq!(shapes(&t().transform(|l| l)), shapes(&t()));
}

#[test]
fn tensor_map_and_transform() {
    let grouped = Tensor::Grouped(vec![part(&[2, 3], &[12, 4], 1), part(&[4, 5], &[20, 4], 2)]);
    let mapped = grouped.map(|d: u32| d * 10);
    let Tensor::Grouped(parts) = &mapped else { panic!("variant changed") };
    assert_eq!(parts.iter().map(|p| p.physical).collect::<Vec<_>>(), vec![10, 20]);
    let moved = mapped.transform(transpose_leading);
    let Tensor::Grouped(parts) = &moved else { panic!("variant changed") };
    assert_eq!(parts[0].shape(), &[3, 2]);
    assert_eq!(parts[1].layout.strides, vec![4, 20]);
    assert_eq!(parts[1].physical, 20);

    let simple = Tensor::Simple(part(&[2, 3], &[12, 4], 7)).map(|d| d + 1);
    assert!(matches!(simple, Tensor::Simple(ref t) if t.physical == 8));
}

#[test]
fn tensor_lock_unlock_mutable() {
    let simple = Tensor::Simple(part(&[2], &[4], 0));
    assert_eq!(simple.lock(&[false]), LockAction::TryRead);
    assert_eq!(simple.unlock(&[false]), UnlockAction::ReleaseAll);
    assert!(simple.is_mutable(&[true]));
    assert!(!simple.is_mutable(&[false]));

    let grouped = Tensor::Grouped(vec![part(&[2], &[4], 0), part(&[2], &[4], 1)]);
    assert_eq!(grouped.lock(&[true, true]), LockAction::ReadAll);
    assert_eq!(grouped.lock(&[true, false]), LockAction::Refuse);
    assert_eq!(grouped.unlock(&[true, true]), UnlockAction::ReleaseAll);
    assert_eq!(grouped.unlock(&[false, true]), UnlockAction::Nothing);
    assert!(grouped.is_mutable(&[true, true]));
    assert!(!grouped.is_mutable(&[true, false]));
}

#[test]
fn nn_tensor_keeps_tensor_through_transform() {
    let t = NNTensor::from(Tensor::Simple(part(&[2, 3], &[12, 4], 5)));
    let _id = t.id();
    let c = t.clone();
    assert_eq!(c.tensor().shape(), &[2, 3]);
    let t = t.transform(transpose_leading);
    assert_eq!(t.tensor().shape(), &[3, 2]);
    assert_eq!(t.tensor().dt(), F32);
}

#[test]
fn forward_plan_with_and_without_bias() {
    let p = Forward::plan(&[vec![2, 3], vec![5, 3]]).unwrap();
    assert_eq!(p, ForwardPlan { m: 2, n: 5, k: 3, bias: false });
    assert_eq!(p.output_shapes(), vec![vec![2, 5]]);
    assert_eq!(
        p.launches(),
        vec![Launch {
            kernel: Kernel::MutMul,
            operands: vec![Operand::Output(0), Operand::Input(0), Operand::Transposed(1)],
            read_dst: Some(false),
        }]
    );
    let p = Forward::plan(&[vec![2, 3], vec![5, 3], vec![5]]).unwrap();
    assert!(p.bias);
    let l = p.launches();
    assert_eq!(l.len(), 2);
    assert_eq!(l[0].kernel, Kernel::Rearrange);
    assert_eq!(l[0].operands, vec![Operand::Output(0), Operand::Broadcast(2)]);
    assert_eq!(l[1].read_dst, Some(true));
}

#[test]
fn forward_plan_refusals() {
    assert_eq!(Forward::plan(&[vec![2, 3]]), Err(OpError::Arity));
    assert_eq!(Forward::plan(&[vec![2, 3, 1], vec![5, 3]]), Err(OpError::Rank));
    assert_eq!(Forward::plan(&[vec![2, 3], vec![5, 4]]), Err(OpError::Shape));
    assert_eq!(Forward::plan(&[vec![2, 3], vec![5, 3], vec![4]]), Err(OpError::Shape));
    assert_eq!(Forward::plan(&[vec![2, 3], vec![5, 3], vec![1, 5]]), Err(OpError::Rank));
}

#[test]
fn backward_plan_gradients() {
    let p = Backward::plan(true, &[vec![2, 5], vec![2, 3], vec![5, 3]]).unwrap();
    assert_eq!(p, BackwardPlan { m: 2, n: 5, k: 3, bias: true });
    assert_eq!(p.output_shapes(), vec![vec![2, 3], vec![5, 3], vec![5]]);
    let l = p.launches();
    assert_eq!(l.len(), 3);
    assert_eq!(l[1].operands, vec![Operand::Output(1), Operand::Transposed(0), Operand::Input(1)]);
    assert_eq!(l[2].kernel, Kernel::Sum);
    let p = Backward::plan(false, &[vec![2, 5], vec![2, 3], vec![5, 3]]).unwrap();
    assert_eq!(p.output_shapes().len(), 2);
    assert_eq!(p.launches().len(), 2);
    assert_eq!(Backward::plan(false, &[vec![2, 4], vec![2, 3], vec![5, 3]]), Err(OpError::Shape));
    assert_eq!(Backward::plan(false, &[vec![2, 5], vec![2, 3]]), Err(OpError::Arity));
}

fn mut_mul(operands: Vec<Operand>, read_dst: bool) -> Step {
    Step::Run(Launch { kernel: Kernel::MutMul, operands, read_dst: Some(read_dst) })
}

#[test]
fn backward_steps_allocate_bias_gradient_last() {
    let p = BackwardPlan { m: 2, n: 5, k: 3, bias: true };
    let dx = mut_mul(vec![Operand::Output(0), Operand::Input(0), Operand::Input(2)], false);
    let dw = mut_mul(vec![Operand::Output(1), Operand::Transposed(0), Operand::Input(1)], false);
    let db = Step::Run(Launch {
        kernel: Kernel::Sum,
        operands: vec![Operand::Output(2), Operand::Input(0)],
        read_dst: Some(false),
    });
    assert_eq!(
        p.steps(),
        vec![
            Step::Allocate(vec![2, 3], 1),
            Step::Allocate(vec![5, 3], 1),
            dx.clone(),
            dw.clone(),
            Step::Allocate(vec![5], 1),
            db,
        ]
    );
    let p = BackwardPlan { bias: false, ..p };
    assert_eq!(p.steps(), vec![Step::Allocate(vec![2, 3], 1), Step::Allocate(vec![5, 3], 1), dx, dw]);
}

#[test]
fn forward_steps_allocate_then_launch() {
    let p = ForwardPlan { m: 4, n: 7, k: 6, bias: true };
    let product = |acc| mut_mul(vec![Operand::Output(0), Operand::Input(0), Operand::Transposed(1)], acc);
    assert_eq!(
        p.steps(),
        vec![
            Step::Allocate(vec![4, 7], 0),
            Step::Run(Launch {
                kernel: Kernel::Rearrange,
                operands: vec![Operand::Output(0), Operand::Broadcast(2)],
                read_dst: None,
            }),
            product(true),
        ]
    );
    let p = ForwardPlan { bias: false, ..p };
    assert_eq!(p.steps(), vec![Step::Allocate(vec![4, 7], 0), product(false)]);
}

#[test]
fn backward_shapes_match_forward_inputs() {
    let inputs = vec![vec![4, 6], vec![7, 6], vec![7]];
    let f = Forward::plan(&inputs).unwrap();
    let y = f.output_shapes().remove(0);
    let b = Backward::plan(f.bias, &[y, inputs[0].clone(), inputs[1].clone()]).unwrap();
    assert_eq!(b.output_shapes(), inputs);
}

type Ctx = Context<(), u32, &'static str, usize>;

#[test]
fn context_path_enter_leave() {
    let mut ctx: Ctx = Context::new((), None);
    ctx.enter("encoder");
    ctx.enter("fc");
    assert_eq!(ctx.path(), b".encoder.fc");
    ctx.leave("fc");
    assert_eq!(ctx.path(), b".encoder");
    ctx.leave("encoder");
    assert_eq!(ctx.path(), b"");
}

#[test]
fn context_weights_by_full_name() {
    let mut ctx: Ctx = Context::new((), None);
    ctx.enter("fc");
    assert!(!ctx.has_weight("weight"));
    ctx.save_weight("weight", 42);
    assert!(ctx.has_weight("weight"));
    assert_eq!(ctx.load_weight("weight"), Some(42));
    assert_eq!(ctx.load_weight("bias"), None);
    ctx.leave("fc");
    assert_eq!(ctx.load_weight("weight"), None);
    ctx.enter("fc");
    assert_eq!(ctx.load_weight("weight"), Some(42));
}

type NetCtx = Context<(), NNTensor<u32>, &'static str, usize>;

fn physicals(t: &Tensor<u32>) -> Vec<u32> {
    match t {
        Tensor::Simple(p) => vec![p.physical],
        Tensor::Grouped(ps) => ps.iter().map(|p| p.physical).collect(),
    }
}

#[test]
fn context_gradient_made_once() {
    let mut ctx: NetCtx = Context::new((), None);
    ctx.save_weight("w", NNTensor::from(Tensor::Simple(part(&[2, 3], &[12, 4], 3))));
    let calls = Cell::new(0);
    let asked = Cell::new(Vec::new());
    let alloc = |_: &(), dt: digit_layout::DigitLayout, shape: &[usize]| {
        calls.set(calls.get() + 1);
        asked.set(vec![shape.to_vec()]);
        assert_eq!(dt, F32);
        Tensor::Simple(SubTensor::new(dt, layout(shape, &vec![4; shape.len()]), 7u32))
    };
    let g1 = ctx.load_gradient("w", alloc, |m: &u32| *m % 2 == 0, |m: u32| m + 1000);
    assert_eq!(asked.take(), vec![vec![2, 3]]);
    // A single part is released whatever it answers.
    assert_eq!(physicals(g1.tensor()), vec![1007]);
    assert_eq!(g1.tensor().shape(), &[2, 3]);
    let g2 = ctx.load_gradient(
        "w",
        |_: &(), dt: digit_layout::DigitLayout, shape: &[usize]| {
            calls.set(calls.get() + 1);
            Tensor::Simple(SubTensor::new(dt, layout(shape, &vec![4; shape.len()]), 0u32))
        },
        |_: &u32| true,
        |m: u32| m + 1,
    );
    assert_eq!(physicals(g2.tensor()), vec![1007]);
    assert_eq!(calls.get(), 1);
    assert_eq!(physicals(ctx.load_weight("w").unwrap().tensor()), vec![3]);
}

#[test]
fn network_tensor_apart_from_known() {
    let known = vec![NNTensor::from(Tensor::Simple(part(&[2], &[4], 1)))];
    let t = NNTensor::new_among(Tensor::Simple(part(&[3], &[4], 5)), &known);
    assert_eq!(physicals(t.tensor()), vec![5]);
    assert_eq!(t.tensor().shape(), &[3]);
}

#[test]
fn context_gradient_group_released_only_when_readable() {
    let mut ctx: NetCtx = Context::new((), None);
    ctx.save_weight("a", NNTensor::from(Tensor::Simple(part(&[4], &[4], 1))));
    ctx.save_weight("b", NNTensor::from(Tensor::Simple(part(&[4], &[4], 1))));
    let group = |_: &(), dt: digit_layout::DigitLayout, shape: &[usize]| {
        Tensor::Grouped(vec![
            SubTensor::new(dt, layout(shape, &[4]), 2u32),
            SubTensor::new(dt, layout(shape, &[4]), 3u32),
        ])
    };
    let even = |m: &u32| *m % 2 == 0;
    let ga = ctx.load_gradient("a", group, even, |m: u32| m + 100);
    assert_eq!(physicals(ga.tensor()), vec![2, 3]);
    let gb = ctx.load_gradient("b", group, |_: &u32| true, |m: u32| m + 100);
    assert_eq!(physicals(gb.tensor()), vec![102, 103]);
}

#[test]
fn context_backward_builder_slot() {
    let mut ctx: Ctx = Context::new((), Some("builder"));
    assert!(ctx.has_backward_builder());
    assert_eq!(ctx.take_backward_builder(), Some("builder"));
    assert!(!ctx.has_backward_builder());
    assert_eq!(ctx.take_backward_builder(), None);
    ctx.put_backward_builder("other");
    assert_eq!(ctx.take_backward_builder(), Some("other"));
    ctx.record(7);
    ctx.record(8);
}

#[test]
fn linear_init_registers_parameters() {
    let mut ctx: Ctx = Context::new((), None);
    ctx.enter("l0");
    Linear::init((1, Some(2)), &mut ctx);
    assert_eq!(ctx.load_weight("weight"), Some(1));
    assert_eq!(ctx.load_weight("bias"), Some(2));
    ctx.leave("l0");
    ctx.enter("l1");
    Linear::init((5, None), &mut ctx);
    assert_eq!(ctx.load_weight("weight"), Some(5));
    assert_eq!(ctx.load_weight("bias"), None);
}

#[test]
fn linear_forward_steps() {
    let s = Linear::forward_steps(true, true);
    assert_eq!(s.forward_inputs, vec![Param::X, Param::Weight, Param::Bias]);
    assert_eq!(
        s.backward,
        Some((
            true,
            vec![
                BackwardInput::OutputGrad,
                BackwardInput::SavedX,
                BackwardInput::SavedWeight,
                BackwardInput::BiasGrad
            ]
        ))
    );
    let s = Linear::forward_steps(false, true);
    assert_eq!(s.forward_inputs, vec![Param::X, Param::Weight]);
    assert_eq!(
        s.backward,
        Some((false, vec![BackwardInput::OutputGrad, BackwardInput::SavedX, BackwardInput::SavedWeight]))
    );
    let s = Linear::forward_steps(true, false);
    assert_eq!(s.forward_inputs.len(), 3);
    assert_eq!(s.backward, None);
}

#[test]
fn tensor_map_ref_keeps_parts() {
    let grouped = Tensor::Grouped(vec![part(&[2, 3], &[12, 4], 4), part(&[4], &[4], 9)]);
    let doubled = grouped.map_ref(|d: &u32| u64::from(*d) * 2);
    let Tensor::Grouped(parts) = &doubled else { panic!("variant changed") };
    assert_eq!(parts[0].physical, 8);
    assert_eq!(parts[1].physical, 18);
    assert_eq!(parts[1].shape(), &[4]);
    assert_eq!(parts[0].layout.strides, vec![12, 4]);
    let Tensor::Grouped(orig) = &grouped else { panic!("variant changed") };
    assert_eq!(orig[0].physical, 4);
}
