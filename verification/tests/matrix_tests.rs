use parmatrix::{
    assemble, dot_product, multiply, plan_tasks, run_task, worker_index, Matrix, MatrixError,
    MsgInput, MsgOutput, Vector,
};

#[test]
fn test_matrix_multiply() -> Result<(), MatrixError> {
    let a = Matrix::new(2, 3, vec![1, 2, 3, 4, 5, 6]);
    let b = Matrix::new(3, 2, vec![1, 2, 3, 4, 5, 6]);
    let c = multiply(&a, &b)?;
    assert_eq!(c.cols, 2);
    assert_eq!(c.rows, 2);
    assert_eq!(c.data, vec![22, 28, 49, 64]);
    assert_eq!(
        format!("{:?}", c),
        "Matrix { rows: 2, cols: 2, data: [22, 28, 49, 64] }"
    );

    Ok(())
}

#[test]
fn test_matrix_display() -> Result<(), MatrixError> {
    let a = Matrix::new(2, 2, vec![1, 2, 3, 4]);
    let b = Matrix::new(2, 2, vec![1, 2, 3, 4]);
    let c = multiply(&a, &b)?;
    assert_eq!(c.data, vec![7, 10, 15, 22]);
    assert_eq!(c.to_text(), "{7 10, 15 22}");
    Ok(())
}

#[test]
fn test_a_can_not_multiply_b() {
    let a = Matrix::new(2, 3, vec![1, 2, 3, 4, 5, 6]);
    let b = Matrix::new(2, 2, vec![1, 2, 3, 4]);
    let c = multiply(&a, &b);
    assert!(c.is_err());
}

#[test]
fn mismatch_error_carries_all_four_dimensions() {
    let a = Matrix::new(2, 3, vec![1, 2, 3, 4, 5, 6]);
    let b = Matrix::new(2, 2, vec![1, 2, 3, 4]);
    let e = multiply(&a, &b).unwrap_err();
    assert_eq!(
        e,
        MatrixError::DimensionMismatch { a_rows: 2, a_cols: 3, b_rows: 2, b_cols: 2 }
    );
    // the planner refuses the same shapes before building any task
    let planned = plan_tasks(&a, &b);
    assert_eq!(planned.unwrap_err(), e);
}

#[test]
fn output_shape_follows_the_operands() {
    let a = Matrix::new(3, 4, vec![0; 12]);
    let b = Matrix::new(4, 5, vec![0; 20]);
    let c = multiply(&a, &b).unwrap();
    assert_eq!(c.rows, 3);
    assert_eq!(c.cols, 5);
    assert_eq!(c.data.len(), 15);
}

#[test]
fn repeated_multiplies_are_bit_identical() {
    let a = Matrix::new(2, 3, vec![-7, 2, 9, 4, -5, 6]);
    let b = Matrix::new(3, 2, vec![1, -2, 3, 4, -5, 6]);
    let c1 = multiply(&a, &b).unwrap();
    let c2 = multiply(&a, &b).unwrap();
    assert_eq!(c1, c2);
}

fn lcg_next(state: &mut u64) -> i64 {
    *state = state
        .wrapping_mul(6364136223846793005)
        .wrapping_add(1442695040888963407);
    ((*state >> 33) as i64) - 1073741824
}

fn random_matrix(rows: usize, cols: usize, state: &mut u64) -> Matrix {
    let mut data = Vec::with_capacity(rows * cols);
    for _ in 0..rows * cols {
        data.push(lcg_next(state));
    }
    Matrix::new(rows, cols, data)
}

fn naive_multiply(a: &Matrix, b: &Matrix) -> Matrix {
    let mut data = vec![0i64; a.rows * b.cols];
    for i in 0..a.rows {
        for j in 0..b.cols {
            let mut acc: i64 = 0;
            for k in 0..a.cols {
                acc = acc.wrapping_add(a.data[i * a.cols + k].wrapping_mul(b.data[k * b.cols + j]));
            }
            data[i * b.cols + j] = acc;
        }
    }
    Matrix::new(a.rows, b.cols, data)
}

#[test]
fn large_random_product_matches_the_naive_triple_loop() {
    let mut state: u64 = 42;
    let a = random_matrix(100, 100, &mut state);
    let b = random_matrix(100, 100, &mut state);
    let c = multiply(&a, &b).unwrap();
    assert_eq!(c, naive_multiply(&a, &b));
}

#[test]
fn rectangular_random_product_matches_the_naive_triple_loop() {
    let mut state: u64 = 7;
    let a = random_matrix(13, 31, &mut state);
    let b = random_matrix(31, 8, &mut state);
    let c = multiply(&a, &b).unwrap();
    let d = naive_multiply(&a, &b);
    assert_eq!(c.rows, d.rows);
    assert_eq!(c.cols, d.cols);
    assert_eq!(c.data, d.data);
}

#[test]
fn dot_product_accumulates_in_order() {
    let a = Vector::new(vec![1, 2, 3]);
    let b = Vector::new(vec![4, 5, 6]);
    assert_eq!(dot_product(a, b).unwrap(), 32);
}

#[test]
fn dot_product_rejects_unequal_lengths() {
    let a = Vector::new(vec![1, 2, 3]);
    let b = Vector::new(vec![4, 5]);
    let e = dot_product(a, b).unwrap_err();
    assert_eq!(e, MatrixError::LengthMismatch { len_a: 3, len_b: 2 });
}

#[test]
fn planned_tasks_carry_rows_columns_and_indices() {
    let a = Matrix::new(2, 3, vec![1, 2, 3, 4, 5, 6]);
    let b = Matrix::new(3, 2, vec![1, 2, 3, 4, 5, 6]);
    let tasks = plan_tasks(&a, &b).unwrap();
    assert_eq!(tasks.len(), 4);
    for (k, t) in tasks.iter().enumerate() {
        assert_eq!(t.idx, k);
    }
    // task 1 is cell (0, 1): row 0 of a, column 1 of b
    assert_eq!(tasks[1].row.data, vec![1, 2, 3]);
    assert_eq!(tasks[1].col.data, vec![2, 4, 6]);
    // task 2 is cell (1, 0): row 1 of a, column 0 of b
    assert_eq!(tasks[2].row.data, vec![4, 5, 6]);
    assert_eq!(tasks[2].col.data, vec![1, 3, 5]);
}

#[test]
fn worker_assignment_is_round_robin() {
    assert_eq!(worker_index(0, 4), 0);
    assert_eq!(worker_index(5, 4), 1);
    assert_eq!(worker_index(11, 4), 3);
    assert_eq!(worker_index(12, 4), 0);
}

#[test]
fn run_task_keeps_the_index_and_computes_the_cell() {
    let task = MsgInput::new(7, Vector::new(vec![1, 2]), Vector::new(vec![3, 4]));
    let out = run_task(task).unwrap();
    assert_eq!(out.idx, 7);
    assert_eq!(out.value, 11);
}

#[test]
fn run_task_propagates_a_length_mismatch() {
    let task = MsgInput::new(0, Vector::new(vec![1]), Vector::new(vec![3, 4]));
    let e = run_task(task).unwrap_err();
    assert_eq!(e, MatrixError::LengthMismatch { len_a: 1, len_b: 2 });
}

#[test]
fn assemble_rebuilds_the_buffer_in_task_order() {
    let outputs = vec![
        MsgOutput { idx: 0, value: 10 },
        MsgOutput { idx: 1, value: 20 },
        MsgOutput { idx: 2, value: 30 },
        MsgOutput { idx: 3, value: 40 },
    ];
    let c = assemble(2, 2, &outputs).unwrap();
    assert_eq!(c.rows, 2);
    assert_eq!(c.cols, 2);
    assert_eq!(c.data, vec![10, 20, 30, 40]);
}

#[test]
fn assemble_rejects_a_missing_result() {
    let outputs = vec![MsgOutput { idx: 0, value: 10 }];
    let e = assemble(2, 2, &outputs).unwrap_err();
    assert_eq!(e, MatrixError::IncompleteResults { expected: 4, found: 1 });
}

#[test]
fn assemble_rejects_a_result_out_of_place() {
    let outputs = vec![
        MsgOutput { idx: 0, value: 10 },
        MsgOutput { idx: 2, value: 30 },
        MsgOutput { idx: 1, value: 20 },
        MsgOutput { idx: 3, value: 40 },
    ];
    let e = assemble(2, 2, &outputs).unwrap_err();
    assert_eq!(e, MatrixError::MisplacedResult { expected: 1, found: 2 });
}

#[test]
fn rendering_prints_signs_and_zero() {
    let m = Matrix::new(1, 3, vec![-5, 0, 1234567890123]);
    assert_eq!(m.to_text(), "{-5 0 1234567890123}");
}

#[test]
fn rendering_wraps_rows_in_braces() {
    let m = Matrix::new(3, 2, vec![1, 2, 3, 4, 5, 6]);
    assert_eq!(m.to_text(), "{1 2, 3 4, 5 6}");
}

#[test]
fn rendering_of_a_single_cell_and_of_no_rows() {
    assert_eq!(Matrix::new(1, 1, vec![9]).to_text(), "{9}");
    assert_eq!(Matrix::new(0, 3, vec![]).to_text(), "");
}
