use nnvm::cpu_op::embedding::{Embedding, EmbeddingPlan, Index};
use nnvm::cpu_op::linear::{Linear, LinearPlan};
use nnvm::cpu_op::{Arg, DataType, OpError, TensorMeta};

fn matrix(elem: usize, rows: usize, cols: usize) -> TensorMeta {
    TensorMeta {
        dt: DataType::F32,
        elem_size: elem,
        shape: vec![rows, cols],
        strides: vec![(cols * elem) as isize, elem as isize],
    }
}

fn vector(elem: usize, len: usize) -> TensorMeta {
    TensorMeta { dt: DataType::U16, elem_size: elem, shape: vec![len], strides: vec![elem as isize] }
}

#[test]
fn index_of_u16() {
    assert_eq!(7u16.as_usize(), 7);
    assert_eq!(u16::MAX.as_usize(), 65535);
}

#[test]
fn embedding_plans() {
    let wte = matrix(4, 10, 3);
    let tokens = vector(2, 2);
    let y = matrix(4, 2, 3);
    assert_eq!(
        Embedding::check(None, &[wte.clone(), tokens.clone()], &[y.clone()]),
        Ok(EmbeddingPlan { n: 2, d: 3, y_row: 3, has_wpe: false })
    );
    let wpe = matrix(4, 8, 3);
    assert_eq!(
        Embedding::check(None, &[wte.clone(), tokens.clone(), wpe, tokens.clone()], &[y.clone()]),
        Ok(EmbeddingPlan { n: 2, d: 3, y_row: 3, has_wpe: true })
    );
    let padded = TensorMeta { strides: vec![20, 4], ..y.clone() };
    assert_eq!(
        Embedding::check(None, &[wte.clone(), tokens.clone()], &[padded]),
        Ok(EmbeddingPlan { n: 2, d: 3, y_row: 5, has_wpe: false })
    );
    let backwards = TensorMeta { strides: vec![-12, 4], ..y };
    assert_eq!(
        Embedding::check(None, &[wte, tokens], &[backwards]),
        Ok(EmbeddingPlan { n: 2, d: 3, y_row: -3, has_wpe: false })
    );
}

#[test]
fn embedding_refusals() {
    let wte = matrix(4, 10, 3);
    let tokens = vector(2, 2);
    let y = matrix(4, 2, 3);
    let ok_in = [wte.clone(), tokens.clone()];
    assert_eq!(Embedding::check(Some(Arg::Int(0)), &ok_in, &[y.clone()]), Err(OpError::Args));
    assert_eq!(Embedding::check(None, &[wte.clone()], &[y.clone()]), Err(OpError::Arity));
    assert_eq!(Embedding::check(None, &[wte.clone(), tokens.clone(), wte.clone()], &[y.clone()]), Err(OpError::Arity));
    assert_eq!(Embedding::check(None, &[wte.clone(), matrix(2, 2, 1)], &[y.clone()]), Err(OpError::Rank));
    assert_eq!(Embedding::check(None, &[wte.clone(), vector(2, 3)], &[y.clone()]), Err(OpError::Shape));
    let gappy_y = TensorMeta { strides: vec![12, 8], ..y.clone() };
    assert_eq!(Embedding::check(None, &ok_in, &[gappy_y]), Err(OpError::Stride));
    let odd_rows = TensorMeta { strides: vec![14, 4], ..y.clone() };
    assert_eq!(Embedding::check(None, &ok_in, &[odd_rows]), Err(OpError::Stride));
    let y_u16 = TensorMeta { dt: DataType::U16, ..y.clone() };
    assert_eq!(Embedding::check(None, &ok_in, &[y_u16]), Err(OpError::DataType));
    let tokens_f32 = TensorMeta { dt: DataType::F32, ..tokens.clone() };
    assert_eq!(Embedding::check(None, &[wte.clone(), tokens_f32], &[y.clone()]), Err(OpError::DataType));
    let wpe = matrix(4, 8, 3);
    let pos_other = TensorMeta { dt: DataType::Other(99), ..tokens.clone() };
    assert_eq!(
        Embedding::check(None, &[wte.clone(), tokens.clone(), wpe, pos_other], &[y.clone()]),
        Err(OpError::DataType)
    );
    let gappy_table = TensorMeta { strides: vec![16, 4], ..wte.clone() };
    assert_eq!(Embedding::check(None, &[gappy_table, tokens], &[y]), Err(OpError::Layout));
}

#[test]
fn embedding_indices_in_table() {
    let plan = EmbeddingPlan { n: 2, d: 3, y_row: 3, has_wpe: false };
    assert!(plan.indices_in_table(&[0u16, 3], 12));
    assert!(!plan.indices_in_table(&[0u16, 4], 12));
    assert!(!plan.indices_in_table(&[0u16], 12));
    assert!(plan.indices_in_table(&[1u16, 1, 9], 6));
}

#[test]
fn embedding_gathers_rows() {
    let plan = EmbeddingPlan { n: 3, d: 2, y_row: 2, has_wpe: false };
    let wte = [10, 11, 20, 21, 30, 31];
    let tokens: [u16; 3] = [2, 0, 2];
    let mut y = vec![0i32; 6];
    plan.compute::<i32, u16, u16>(&mut y, 0, &tokens, &[], &wte, &[]);
    assert_eq!(y, vec![30, 31, 10, 11, 30, 31]);
}

#[test]
fn embedding_adds_positions() {
    let plan = EmbeddingPlan { n: 2, d: 2, y_row: 3, has_wpe: true };
    let wte = [1, 2, 3, 4];
    let wpe = [100, 200, 300, 400];
    let tokens: [u16; 2] = [1, 0];
    let pos: [u16; 2] = [0, 1];
    let mut y = vec![-1i32; 6];
    plan.compute(&mut y, 1, &tokens, &pos, &wte, &wpe);
    assert_eq!(y, vec![-1, 103, 204, -1, 301, 402]);
}

#[test]
fn embedding_overlapping_rows_last_wins() {
    let plan = EmbeddingPlan { n: 2, d: 2, y_row: 0, has_wpe: false };
    let wte = [5, 6, 7, 8];
    let tokens: [u16; 2] = [0, 1];
    let mut y = vec![0i64; 3];
    plan.compute::<i64, u16, u16>(&mut y, 0, &tokens, &[], &wte, &[]);
    assert_eq!(y, vec![7, 8, 0]);
}

#[test]
fn embedding_negative_row_stride() {
    let plan = EmbeddingPlan { n: 2, d: 2, y_row: -2, has_wpe: false };
    let wte = [5, 6, 7, 8];
    let tokens: [u16; 2] = [0, 1];
    let mut y = vec![0i64; 4];
    plan.compute::<i64, u16, u16>(&mut y, 2, &tokens, &[], &wte, &[]);
    assert_eq!(y, vec![7, 8, 5, 6]);
}

#[test]
fn linear_plans() {
    let x = matrix(4, 2, 3);
    let w = matrix(4, 5, 3);
    let y = matrix(4, 2, 5);
    let b = vector(4, 5);
    assert_eq!(
        Linear::check(Some(Arg::Bool(false)), &[x.clone(), w.clone()], &[y.clone()]),
        Ok(LinearPlan { m: 2, n: 5, k: 3, w: 1, residual: None, bias: None, accumulate: false })
    );
    assert_eq!(
        Linear::check(Some(Arg::Bool(false)), &[x.clone(), w.clone(), b.clone()], &[y.clone()]),
        Ok(LinearPlan { m: 2, n: 5, k: 3, w: 1, residual: None, bias: Some(2), accumulate: true })
    );
    assert_eq!(
        Linear::check(Some(Arg::Bool(true)), &[x.clone(), y.clone(), w.clone()], &[y.clone()]),
        Ok(LinearPlan { m: 2, n: 5, k: 3, w: 2, residual: Some(1), bias: None, accumulate: true })
    );
    assert_eq!(
        Linear::check(Some(Arg::Bool(true)), &[x, y.clone(), w, b], &[y]),
        Ok(LinearPlan { m: 2, n: 5, k: 3, w: 2, residual: Some(1), bias: Some(3), accumulate: true })
    );
}

#[test]
fn linear_refusals() {
    let x = matrix(4, 2, 3);
    let w = matrix(4, 5, 3);
    let y = matrix(4, 2, 5);
    assert_eq!(Linear::check(None, &[x.clone(), w.clone()], &[y.clone()]), Err(OpError::Args));
    assert_eq!(Linear::check(Some(Arg::Bool(true)), &[x.clone(), w.clone()], &[y.clone()]), Err(OpError::Arity));
    assert_eq!(Linear::check(Some(Arg::Bool(false)), &[x.clone(), matrix(4, 5, 4)], &[y.clone()]), Err(OpError::Shape));
    let col_major = TensorMeta { strides: vec![4, 8], ..x.clone() };
    assert_eq!(Linear::check(Some(Arg::Bool(false)), &[col_major, w.clone()], &[y.clone()]), Err(OpError::Layout));
    assert_eq!(
        Linear::check(Some(Arg::Bool(true)), &[x.clone(), matrix(4, 2, 4), w.clone()], &[y.clone()]),
        Err(OpError::Shape)
    );
    assert_eq!(
        Linear::check(Some(Arg::Bool(false)), &[x.clone(), w.clone(), vector(4, 4)], &[y.clone()]),
        Err(OpError::Shape)
    );
    assert_eq!(
        Linear::check(Some(Arg::Bool(false)), &[x, w, matrix(4, 1, 5)], &[y]),
        Err(OpError::Rank)
    );
}

#[test]
fn linear_prefill_bias_and_residual() {
    let plan = LinearPlan { m: 2, n: 3, k: 1, w: 1, residual: None, bias: None, accumulate: false };
    let bias = [1, 2, 3];
    let residual = [10, 20, 30, 40, 50, 60];

    let mut y = vec![0i32; 7];
    plan.prefill(&mut y, None, Some(&bias));
    assert_eq!(y, vec![1, 2, 3, 1, 2, 3, 0]);

    let mut y = vec![0i32; 6];
    plan.prefill(&mut y, Some(&residual), None);
    assert_eq!(y, residual.to_vec());

    // With both, the bias overwrites the residual.
    let mut y = vec![0i32; 6];
    plan.prefill(&mut y, Some(&residual), Some(&bias));
    assert_eq!(y, vec![1, 2, 3, 1, 2, 3]);

    let mut y = vec![9i32; 6];
    plan.prefill(&mut y, None, None);
    assert_eq!(y, vec![9; 6]);
}
