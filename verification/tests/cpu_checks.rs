use nnvm::cpu_op::activation::{GeLU, GeluPlan};
use nnvm::cpu_op::attention::{Attention, AttentionPlan};
use nnvm::cpu_op::normalization::{LayerNorm, RmsNorm};
use nnvm::cpu_op::{unique, Arg, DataType, Grid, OpError, TensorMeta};

const F32: DataType = DataType::F32;
const U16: DataType = DataType::U16;

fn matrix(dt: DataType, elem: usize, rows: usize, cols: usize) -> TensorMeta {
    TensorMeta {
        dt,
        elem_size: elem,
        shape: vec![rows, cols],
        strides: vec![(cols * elem) as isize, elem as isize],
    }
}

fn vector(dt: DataType, elem: usize, len: usize) -> TensorMeta {
    TensorMeta { dt, elem_size: elem, shape: vec![len], strides: vec![elem as isize] }
}

#[test]
fn unique_of_equal_values() {
    assert_eq!(unique(&[3usize, 3, 3]), Some(3));
    assert_eq!(unique(&[7u64]), Some(7));
}

#[test]
fn unique_of_distinct_or_no_values() {
    assert_eq!(unique::<usize>(&[]), None);
    assert_eq!(unique(&[3usize, 3, 4]), None);
    assert_eq!(unique(&[4usize, 3, 3]), None);
}

#[test]
fn contiguity_row_major() {
    assert!(matrix(F32, 4, 2, 3).is_big_endian_contiguous());
    let column_major = TensorMeta { dt: F32, elem_size: 4, shape: vec![2, 3], strides: vec![4, 8] };
    assert!(!column_major.is_big_endian_contiguous());
    let padded = TensorMeta { dt: F32, elem_size: 4, shape: vec![2, 3], strides: vec![16, 4] };
    assert!(!padded.is_big_endian_contiguous());
    let scalar = TensorMeta { dt: F32, elem_size: 4, shape: vec![], strides: vec![] };
    assert!(scalar.is_big_endian_contiguous());
    let huge = TensorMeta { dt: F32, elem_size: 4, shape: vec![2, usize::MAX], strides: vec![isize::MAX, 4] };
    assert!(!huge.is_big_endian_contiguous());
    assert!(vector(U16, 2, 5).is_contiguous());
}

#[test]
fn grid_offsets() {
    let g = Grid::new(3, 4, 16, 4).unwrap();
    assert_eq!(g.at(0, 0), 0);
    assert_eq!(g.at(2, 3), 44);
    let neg = Grid::new(3, 2, -10, 1).unwrap();
    assert_eq!(neg.at(2, 1), -19);
    assert!(Grid::new(3, 1, isize::MAX, 0).is_none());
    assert!(Grid::new(2, 2, isize::MAX / 2, isize::MAX / 2).is_some());
    assert!(Grid::new(2, 2, isize::MAX / 2 + 1, isize::MAX / 2 + 1).is_none());
    assert!(Grid::new(0, 5, isize::MAX, isize::MAX).is_some());
}

#[test]
fn gelu_accepts_matching_matrices() {
    let r = GeLU::check(None, &[matrix(F32, 4, 3, 5)], &[matrix(F32, 4, 3, 5)]);
    assert_eq!(r, Ok(GeluPlan { n: 3, d: 5 }));
}

#[test]
fn gelu_refusals() {
    let x = matrix(F32, 4, 3, 5);
    assert_eq!(GeLU::check(Some(Arg::Int(1)), &[x.clone()], &[x.clone()]), Err(OpError::Args));
    assert_eq!(GeLU::check(None, &[x.clone(), x.clone()], &[x.clone()]), Err(OpError::Arity));
    assert_eq!(GeLU::check(None, &[vector(F32, 4, 5)], &[x.clone()]), Err(OpError::Rank));
    assert_eq!(GeLU::check(None, &[x.clone()], &[matrix(F32, 4, 3, 6)]), Err(OpError::Shape));
    let strided = TensorMeta { strides: vec![40, 4], ..x.clone() };
    assert_eq!(GeLU::check(None, &[strided], &[x]), Err(OpError::Layout));
}

#[test]
fn attention_plan_splits_heads() {
    let q = matrix(F32, 4, 3, 8);
    // Keys and values of width 4 are read up to width 8 from their last
    // row on, so they need a fourth row.
    let kv = matrix(F32, 4, 4, 4);
    let y = matrix(F32, 4, 3, 8);
    let plan = Attention::check(Some(Arg::Int(2)), &[q.clone(), kv.clone(), kv], &[y.clone()]).unwrap();
    assert_eq!(plan, AttentionPlan { n: 3, dq: 8, dk: 4, dv: 4, dh: 2, heads: 4 });
    let short = matrix(F32, 4, 3, 4);
    assert_eq!(
        Attention::check(Some(Arg::Int(2)), &[q, short.clone(), short], &[y]),
        Err(OpError::Shape)
    );
}

#[test]
fn attention_indices() {
    let plan = Attention::check(
        Some(Arg::Int(2)),
        &[matrix(F32, 4, 3, 8), matrix(F32, 4, 3, 8), matrix(F32, 4, 3, 8)],
        &[matrix(F32, 4, 3, 8)],
    )
    .unwrap();
    assert_eq!(plan.heads, 4);
    assert_eq!(plan.q_index(1, 2, 1), 8 + 4 + 1);
    assert_eq!(plan.y_index(2, 3, 0), 16 + 6);
    assert_eq!(plan.k_index(2, 1, 1), 16 + 2 + 1);
    assert_eq!(plan.v_index(0, 0, 1), 1);
    assert_eq!(plan.score_index(1, 2, 2), (4 + 2) * 3 + 2);
}

#[test]
fn attention_refusals() {
    let m = |c| matrix(F32, 4, 3, c);
    assert_eq!(Attention::check(Some(Arg::Bool(true)), &[m(8), m(8), m(8)], &[m(8)]), Err(OpError::Args));
    assert_eq!(Attention::check(Some(Arg::Int(2)), &[m(8), m(8)], &[m(8)]), Err(OpError::Arity));
    assert_eq!(
        Attention::check(Some(Arg::Int(2)), &[m(8), matrix(U16, 2, 3, 8), m(8)], &[m(8)]),
        Err(OpError::DataType)
    );
    // One shared type, but not f32.
    let h = |c| matrix(U16, 2, 3, c);
    assert_eq!(Attention::check(Some(Arg::Int(2)), &[h(8), h(8), h(8)], &[h(8)]), Err(OpError::DataType));
    assert_eq!(Attention::check(Some(Arg::Int(2)), &[m(8), m(8), m(8)], &[m(6)]), Err(OpError::Shape));
    assert_eq!(Attention::check(Some(Arg::Int(0)), &[m(8), m(8), m(8)], &[m(8)]), Err(OpError::Divisibility));
    assert_eq!(Attention::check(Some(Arg::Int(3)), &[m(8), m(8), m(8)], &[m(8)]), Err(OpError::Divisibility));
    assert_eq!(Attention::check(Some(Arg::Int(2)), &[m(8), m(8), m(4)], &[m(8)]), Err(OpError::Shape));
    // Too few rows of keys for the three positions of the output.
    assert_eq!(
        Attention::check(Some(Arg::Int(2)), &[m(8), matrix(F32, 4, 2, 8), m(8)], &[m(8)]),
        Err(OpError::Shape)
    );
}

#[test]
fn rms_norm_plan_offsets() {
    let x = TensorMeta { dt: F32, elem_size: 4, shape: vec![2, 3], strides: vec![3, 1] };
    let plan = RmsNorm::check(Some(Arg::Float(0)), &[x.clone(), vector(F32, 1, 3)], &[x]).unwrap();
    assert_eq!((plan.n, plan.d), (2, 3));
    assert_eq!(plan.x.at(1, 2), 5);
    assert_eq!(plan.scale.at(0, 2), 2);
    assert_eq!(plan.y.at(1, 0), 3);
    assert!(plan.bias.is_none());
}

#[test]
fn rms_norm_refusals() {
    let x = matrix(F32, 4, 2, 3);
    let s = vector(F32, 4, 3);
    assert_eq!(RmsNorm::check(Some(Arg::Int(1)), &[x.clone(), s.clone()], &[x.clone()]), Err(OpError::Args));
    assert_eq!(RmsNorm::check(Some(Arg::Float(1)), &[x.clone()], &[x.clone()]), Err(OpError::Arity));
    assert_eq!(
        RmsNorm::check(Some(Arg::Float(1)), &[x.clone(), vector(F32, 4, 4)], &[x.clone()]),
        Err(OpError::Shape)
    );
    let wide = TensorMeta { strides: vec![isize::MAX, 4], ..x.clone() };
    assert_eq!(RmsNorm::check(Some(Arg::Float(1)), &[wide, s], &[x]), Err(OpError::Overflow));
}

#[test]
fn layer_norm_common_width() {
    let x = matrix(F32, 4, 2, 3);
    let s = vector(F32, 4, 3);
    let plan = LayerNorm::check(Some(Arg::Float(7)), &[x.clone(), s.clone(), s.clone()], &[x.clone()]).unwrap();
    assert_eq!((plan.n, plan.d, plan.epsilon), (2, 3, 7));
    assert_eq!(plan.bias.unwrap().at(0, 2), 8);
    assert_eq!(
        LayerNorm::check(Some(Arg::Float(7)), &[x.clone(), s.clone(), vector(F32, 4, 4)], &[x.clone()]),
        Err(OpError::Shape)
    );
    assert_eq!(
        LayerNorm::check(Some(Arg::Float(7)), &[x.clone(), s.clone(), s.clone()], &[matrix(F32, 4, 3, 3)]),
        Err(OpError::Shape)
    );
    assert_eq!(LayerNorm::check(Some(Arg::Float(7)), &[x.clone(), s], &[x]), Err(OpError::Arity));
}
