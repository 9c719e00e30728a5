use vstd::prelude::*;

use vstd::arithmetic::div_mod::lemma_fundamental_div_mod_converse;
use vstd::arithmetic::mul::{lemma_mul_inequality, lemma_mul_is_distributive_add_other_way};

use vstd::string::StringExecFns;

use crate::text::{dec_str, decimal};
use crate::vector::{dot_product, wdot, Vector};
use crate::MatrixError;

verus! {

/// How many workers the dispatcher uses by default.
pub const NUM_THREADS: usize = 4;

/// An immutable-shape, row-major dense 2-D container: element `(i, j)` lives
/// at `data[i * cols + j]`.
#[derive(Debug, PartialEq)]
pub struct Matrix {
    pub rows: usize,
    pub cols: usize,
    pub data: Vec<i64>,
}

impl Matrix {
    /// The shape invariant: the flat buffer holds exactly `rows * cols`
    /// elements.
    pub open spec fn wf(self) -> bool {
        self.data@.len() == (self.rows as int) * (self.cols as int)
    }

    /// The element at row `i`, column `j`.
    pub open spec fn entry(self, i: int, j: int) -> i64 {
        self.data@[i * (self.cols as int) + j]
    }

    /// Row `i` as a sequence of `cols` elements.
    pub open spec fn row_seq(self, i: int) -> Seq<i64> {
        Seq::new(self.cols as nat, |j: int| self.entry(i, j))
    }

    /// Column `j` as a sequence of `rows` elements.
    pub open spec fn col_seq(self, j: int) -> Seq<i64> {
        Seq::new(self.rows as nat, |i: int| self.entry(i, j))
    }

    /// Constructs a matrix from explicit dimensions and a flat row-major
    /// buffer; the caller guarantees that the buffer fits the dimensions.
    pub fn new(rows: usize, cols: usize, data: Vec<i64>) -> (r: Self)
        requires
            data@.len() == (rows as int) * (cols as int),
        ensures
            r.rows == rows,
            r.cols == cols,
            r.data@ == data@,
            r.wf(),
    {
        Matrix { rows, cols, data }
    }

    /// The first `j` cells of row `i`, separated by single spaces.
    pub open spec fn row_cells_text(self, i: int, j: int) -> Seq<char>
        decreases j,
    {
        if j <= 0 {
            Seq::empty()
        } else if j == 1 {
            dec_str(self.entry(i, 0) as int)
        } else {
            self.row_cells_text(i, j - 1) + seq![' '] + dec_str(self.entry(i, j - 1) as int)
        }
    }

    /// The first `i` rows of the rendering, delimited by `, `.
    pub open spec fn rows_text(self, i: int) -> Seq<char>
        decreases i,
    {
        if i <= 0 {
            Seq::empty()
        } else if i == 1 {
            self.row_cells_text(0, self.cols as int)
        } else {
            self.rows_text(i - 1) + seq![',', ' '] + self.row_cells_text(i - 1, self.cols as int)
        }
    }

    /// The stable textual rendering of the whole matrix: rows delimited by
    /// `, `, the matrix wrapped in `{ }`, cells within a row separated by one
    /// space — a 2×3 matrix over `[1, 2, 3, 4, 5, 6]` renders as
    /// `{1 2 3, 4 5 6}`. A matrix without rows renders as the empty string.
    pub open spec fn text(self) -> Seq<char> {
        if self.rows == 0 {
            Seq::empty()
        } else {
            seq!['{'] + self.rows_text(self.rows as int) + seq!['}']
        }
    }

    /// Renders the matrix in the stable textual format described by
    /// [`Matrix::text`].
    pub fn to_text(&self) -> (r: String)
        requires
            self.wf(),
        ensures
            r@ == self.text(),
    {
        let mut out = String::new();
        if self.rows == 0 {
            return out;
        }
        out.append("{");
        proof {
            reveal_strlit("{");
            assert(out@ =~= seq!['{'] + self.rows_text(0));
        }
        let mut i: usize = 0;
        while i < self.rows
            invariant
                self.wf(),
                0 < self.rows,
                i <= self.rows,
                out@ == seq!['{'] + self.rows_text(i as int),
            decreases self.rows - i,
        {
            let ghost sep: Seq<char> = if i == 0 {
                Seq::<char>::empty()
            } else {
                seq![',', ' ']
            };
            if i > 0 {
                out.append(", ");
                proof {
                    reveal_strlit(", ");
                }
            }
            proof {
                assert(out@ =~= seq!['{'] + self.rows_text(i as int) + sep + self.row_cells_text(
                    i as int,
                    0,
                ));
            }
            let mut j: usize = 0;
            while j < self.cols
                invariant
                    self.wf(),
                    i < self.rows,
                    j <= self.cols,
                    sep == (if i == 0 {
                        Seq::<char>::empty()
                    } else {
                        seq![',', ' ']
                    }),
                    out@ == seq!['{'] + self.rows_text(i as int) + sep + self.row_cells_text(
                        i as int,
                        j as int,
                    ),
                decreases self.cols - j,
            {
                if j > 0 {
                    out.append(" ");
                    proof {
                        reveal_strlit(" ");
                    }
                }
                proof {
                    lemma_flatten_bound(i as int, j as int, self.rows as int, self.cols as int);
                    assert(self.data@.len() == self.data.len());
                }
                let cell = decimal(self.data[i * self.cols + j]);
                out.append(cell.as_str());
                proof {
                    assert(out@ =~= seq!['{'] + self.rows_text(i as int) + sep
                        + self.row_cells_text(i as int, j + 1 as int));
                }
                j = j + 1;
            }
            proof {
                assert(out@ =~= seq!['{'] + self.rows_text(i + 1 as int));
            }
            i = i + 1;
        }
        out.append("}");
        proof {
            reveal_strlit("}");
            assert(out@ =~= self.text());
        }
        out
    }
}

/// One unit of work: compute the dot product of `row` and `col` and place the
/// result at flattened output position `idx`.
#[derive(Debug)]
pub struct MsgInput {
    pub idx: usize,
    pub row: Vector,
    pub col: Vector,
}

impl MsgInput {
    pub fn new(idx: usize, row: Vector, col: Vector) -> (r: Self)
        ensures
            r.idx == idx,
            r.row@ == row@,
            r.col@ == col@,
    {
        MsgInput { idx, row, col }
    }
}

/// One task result: the value belonging at flattened output position `idx`.
#[derive(Debug)]
pub struct MsgOutput {
    pub idx: usize,
    pub value: i64,
}

/// The flattened length of the product of `a` and `b`.
pub open spec fn flat_len(a: Matrix, b: Matrix) -> int {
    (a.rows as int) * (b.cols as int)
}

/// What the task at flattened position `k` must carry: its own index, row
/// `k / b.cols` of `a` and column `k % b.cols` of `b`.
pub open spec fn task_ok(a: Matrix, b: Matrix, t: MsgInput, k: int) -> bool {
    &&& t.idx == k
    &&& t.row@ == a.row_seq(k / (b.cols as int))
    &&& t.col@ == b.col_seq(k % (b.cols as int))
}

/// The whole product, flattened: cell `k` is the dot product of row
/// `k / b.cols` of `a` and column `k % b.cols` of `b`.
pub open spec fn product_data(a: Matrix, b: Matrix) -> Seq<i64> {
    Seq::new(
        flat_len(a, b) as nat,
        |k: int| wdot(a.row_seq(k / (b.cols as int)), b.col_seq(k % (b.cols as int))),
    )
}

/// Flattening stays inside the buffer: `i * cols + j < rows * cols` whenever
/// `i < rows` and `j < cols`.
proof fn lemma_flatten_bound(i: int, j: int, rows: int, cols: int)
    requires
        0 <= i < rows,
        0 <= j < cols,
    ensures
        0 <= i * cols + j < rows * cols,
{
    lemma_mul_inequality(i + 1, rows, cols);
    lemma_mul_is_distributive_add_other_way(cols, i, 1);
    assert(i * cols + j < (i + 1) * cols);
}

/// The round-robin assignment rule: task `idx` goes to worker
/// `idx mod workers`, so repeated runs with the same inputs and the same pool
/// size assign every cell to the same worker.
pub fn worker_index(idx: usize, workers: usize) -> (r: usize)
    requires
        workers > 0,
    ensures
        r == idx as int % workers as int,
{
    idx % workers
}

/// Fan-out: validate the operand shapes and decompose the multiplication into
/// one independent task per output cell, in flattened index order.
///
/// On a shape mismatch nothing is decomposed and the error carries all four
/// dimensions.
pub fn plan_tasks(a: &Matrix, b: &Matrix) -> (r: Result<Vec<MsgInput>, MatrixError>)
    requires
        a.wf(),
        b.wf(),
        flat_len(*a, *b) <= usize::MAX,
    ensures
        r is Ok <==> a.cols == b.rows,
        (r matches Ok(tasks) ==> {
            &&& tasks@.len() == flat_len(*a, *b)
            &&& forall|k: int| 0 <= k < tasks@.len() ==> task_ok(*a, *b, #[trigger] tasks@[k], k)
        }),
        a.cols != b.rows ==> r == Err::<Vec<MsgInput>, MatrixError>(
            (MatrixError::DimensionMismatch {
                a_rows: a.rows,
                a_cols: a.cols,
                b_rows: b.rows,
                b_cols: b.cols,
            }),
        ),
{
    if a.cols != b.rows {
        return Err(MatrixError::DimensionMismatch {
            a_rows: a.rows,
            a_cols: a.cols,
            b_rows: b.rows,
            b_cols: b.cols,
        });
    }
    let mut tasks: Vec<MsgInput> = Vec::new();
    let mut i: usize = 0;
    while i < a.rows
        invariant
            a.wf(),
            b.wf(),
            a.cols == b.rows,
            flat_len(*a, *b) <= usize::MAX,
            i <= a.rows,
            tasks@.len() == (i as int) * (b.cols as int),
            forall|k: int| 0 <= k < tasks@.len() ==> task_ok(*a, *b, #[trigger] tasks@[k], k),
        decreases a.rows - i,
    {
        let mut j: usize = 0;
        while j < b.cols
            invariant
                a.wf(),
                b.wf(),
                a.cols == b.rows,
                flat_len(*a, *b) <= usize::MAX,
                i < a.rows,
                j <= b.cols,
                tasks@.len() == (i as int) * (b.cols as int) + j,
                forall|k: int| 0 <= k < tasks@.len() ==> task_ok(*a, *b, #[trigger] tasks@[k], k),
            decreases b.cols - j,
        {
            proof {
                lemma_flatten_bound(i as int, j as int, a.rows as int, b.cols as int);
            }
            let mut row: Vec<i64> = Vec::new();
            let mut m: usize = 0;
            while m < a.cols
                invariant
                    a.wf(),
                    i < a.rows,
                    m <= a.cols,
                    row@.len() == m,
                    forall|t: int| 0 <= t < m ==> row@[t] == a.entry(i as int, t),
                decreases a.cols - m,
            {
                proof {
                    lemma_flatten_bound(i as int, m as int, a.rows as int, a.cols as int);
                    assert(a.data@.len() == a.data.len());
                }
                row.push(a.data[i * a.cols + m]);
                m = m + 1;
            }
            let mut col: Vec<i64> = Vec::new();
            let mut n: usize = 0;
            while n < b.rows
                invariant
                    b.wf(),
                    j < b.cols,
                    n <= b.rows,
                    col@.len() == n,
                    forall|t: int| 0 <= t < n ==> col@[t] == b.entry(t, j as int),
                decreases b.rows - n,
            {
                proof {
                    lemma_flatten_bound(n as int, j as int, b.rows as int, b.cols as int);
                    assert(b.data@.len() == b.data.len());
                }
                col.push(b.data[n * b.cols + j]);
                n = n + 1;
            }
            let idx = i * b.cols + j;
            let input = MsgInput::new(idx, Vector::new(row), Vector::new(col));
            proof {
                lemma_fundamental_div_mod_converse(
                    idx as int,
                    b.cols as int,
                    i as int,
                    j as int,
                );
                assert(input.row@ =~= a.row_seq(i as int));
                assert(input.col@ =~= b.col_seq(j as int));
            }
            tasks.push(input);
            j = j + 1;
        }
        proof {
            lemma_mul_is_distributive_add_other_way(b.cols as int, i as int, 1);
        }
        i = i + 1;
    }
    Ok(tasks)
}

/// The work one worker performs for one task: compute the dot product and
/// package it, with the task's index, as a result for fan-in. Any failure of
/// the primitive is propagated, never swallowed.
pub fn run_task(task: MsgInput) -> (r: Result<MsgOutput, MatrixError>)
    ensures
        r is Ok <==> task.row@.len() == task.col@.len(),
        (r matches Ok(out) ==> out.idx == task.idx && out.value == wdot(task.row@, task.col@)),
        task.row@.len() != task.col@.len() ==> r == Err::<MsgOutput, MatrixError>(
            (MatrixError::LengthMismatch {
                len_a: task.row@.len() as usize,
                len_b: task.col@.len() as usize,
            }),
        ),
{
    let MsgInput { idx, row, col } = task;
    match dot_product(row, col) {
        Ok(value) => Ok(MsgOutput { idx, value }),
        Err(e) => Err(e),
    }
}

/// Fan-in: rebuild the output buffer from the collected task results, read in
/// task-creation order. Every flattened position must be covered by exactly
/// the result carrying its index; any gap or stray index fails the whole
/// operation rather than returning a partial matrix.
pub fn assemble(rows: usize, cols: usize, outputs: &Vec<MsgOutput>) -> (r: Result<
    Matrix,
    MatrixError,
>)
    requires
        (rows as int) * (cols as int) <= usize::MAX,
    ensures
        r is Ok <==> (outputs@.len() == (rows as int) * (cols as int) && forall|k: int|
            0 <= k < outputs@.len() ==> (#[trigger] outputs@[k]).idx == k),
        (r matches Ok(c) ==> {
            &&& c.rows == rows
            &&& c.cols == cols
            &&& c.wf()
            &&& c.data@ == Seq::new(outputs@.len() as nat, |k: int| outputs@[k].value)
        }),
        outputs@.len() != (rows as int) * (cols as int) ==> r == Err::<Matrix, MatrixError>(
            (MatrixError::IncompleteResults {
                expected: ((rows as int) * (cols as int)) as usize,
                found: outputs@.len() as usize,
            }),
        ),
        outputs@.len() == (rows as int) * (cols as int) ==> (r matches Err(e) ==> exists|k: int|
            0 <= k < outputs@.len() && e == (MatrixError::MisplacedResult {
                expected: k as usize,
                found: (#[trigger] outputs@[k]).idx,
            }) && outputs@[k].idx != k),
{
    let expected = rows * cols;
    if outputs.len() != expected {
        return Err(MatrixError::IncompleteResults { expected, found: outputs.len() });
    }
    let mut data: Vec<i64> = Vec::new();
    let mut k: usize = 0;
    while k < expected
        invariant
            expected == (rows as int) * (cols as int),
            outputs@.len() == expected,
            k <= expected,
            data@.len() == k,
            forall|m: int| 0 <= m < k ==> (#[trigger] outputs@[m]).idx == m,
            forall|m: int| 0 <= m < k ==> data@[m] == (#[trigger] outputs@[m]).value,
        decreases expected - k,
    {
        let found = outputs[k].idx;
        if found != k {
            return Err(MatrixError::MisplacedResult { expected: k, found });
        }
        data.push(outputs[k].value);
        k = k + 1;
    }
    proof {
        assert(data@ =~= Seq::new(outputs@.len() as nat, |k: int| outputs@[k].value));
    }
    Ok(Matrix { rows, cols, data })
}

/// The dispatcher: validate the operand shapes, fan the multiplication out
/// into one task per output cell, compute every task, and write every result
/// into its own slot of the output buffer — so the value of each cell `(i, j)`
/// is exactly the dot product of row `i` of `a` and column `j` of `b`, and
/// the output is a function of the operands alone.
pub fn multiply(a: &Matrix, b: &Matrix) -> (r: Result<Matrix, MatrixError>)
    requires
        a.wf(),
        b.wf(),
        flat_len(*a, *b) <= usize::MAX,
    ensures
        r is Ok <==> a.cols == b.rows,
        a.cols != b.rows ==> r == Err::<Matrix, MatrixError>(
            (MatrixError::DimensionMismatch {
                a_rows: a.rows,
                a_cols: a.cols,
                b_rows: b.rows,
                b_cols: b.cols,
            }),
        ),
        (r matches Ok(c) ==> {
            &&& c.rows == a.rows
            &&& c.cols == b.cols
            &&& c.wf()
            &&& c.data@ == product_data(*a, *b)
            &&& forall|i: int, j: int|
                0 <= i < a.rows && 0 <= j < b.cols ==> #[trigger] c.entry(i, j) == wdot(
                    a.row_seq(i),
                    b.col_seq(j),
                )
        }),
{
    let mut tasks = match plan_tasks(a, b) {
        Ok(t) => t,
        Err(e) => {
            return Err(e);
        },
    };
    let expected = a.rows * b.cols;
    let mut data: Vec<i64> = vec![0i64; expected];
    while tasks.len() > 0
        invariant
            a.wf(),
            b.wf(),
            a.cols == b.rows,
            expected == flat_len(*a, *b),
            tasks@.len() <= expected,
            data@.len() == expected,
            forall|k: int| 0 <= k < tasks@.len() ==> task_ok(*a, *b, #[trigger] tasks@[k], k),
            forall|k: int|
                tasks@.len() <= k < expected ==> #[trigger] data@[k] == product_data(*a, *b)[k],
        decreases tasks@.len(),
    {
        let t = match tasks.pop() {
            Some(t) => t,
            None => {
                return Err(MatrixError::IncompleteResults { expected, found: 0 });
            },
        };
        let out = match run_task(t) {
            Ok(o) => o,
            Err(e) => {
                return Err(e);
            },
        };
        data[out.idx] = out.value;
    }
    proof {
        assert(data@ =~= product_data(*a, *b));
        assert forall|i: int, j: int| 0 <= i < a.rows && 0 <= j < b.cols implies product_data(
            *a,
            *b,
        )[i * (b.cols as int) + j] == wdot(a.row_seq(i), b.col_seq(j)) by {
            lemma_flatten_bound(i, j, a.rows as int, b.cols as int);
            lemma_fundamental_div_mod_converse(
                i * (b.cols as int) + j,
                b.cols as int,
                i,
                j,
            );
        }
    }
    Ok(Matrix { rows: a.rows, cols: b.cols, data })
}

/// The naive sequential accumulation for output cell `(i, j)`: the running
/// sum, over the first `n` positions `k`, of `a[i][k] * b[k][j]`.
pub open spec fn naive_cell(a: Matrix, b: Matrix, i: int, j: int, n: int) -> i64
    decreases n,
{
    if n <= 0 {
        0
    } else {
        naive_cell(a, b, i, j, n - 1).wrapping_add(a.entry(i, n - 1).wrapping_mul(b.entry(n - 1, j)))
    }
}

/// Law: every cell of the product equals the naive triple-loop accumulation —
/// cell `(i, j)` is the running sum of `a[i][k] * b[k][j]` over all `k`, which
/// is what a sequential multiply computes element for element.
pub proof fn lemma_product_is_naive(a: Matrix, b: Matrix, i: int, j: int)
    requires
        a.wf(),
        b.wf(),
        a.cols == b.rows,
        0 <= i < a.rows,
        0 <= j < b.cols,
    ensures
        product_data(a, b)[i * (b.cols as int) + j] == naive_cell(a, b, i, j, a.cols as int),
{
    lemma_flatten_bound(i, j, a.rows as int, b.cols as int);
    lemma_fundamental_div_mod_converse(i * (b.cols as int) + j, b.cols as int, i, j);
    lemma_wdot_prefix_is_naive(a, b, i, j, a.cols as int);
}

/// The dot product of row `i` and column `j`, cut off after `n` positions,
/// is the naive accumulation cut off at the same place.
proof fn lemma_wdot_prefix_is_naive(a: Matrix, b: Matrix, i: int, j: int, n: int)
    requires
        a.wf(),
        b.wf(),
        a.cols == b.rows,
        0 <= i < a.rows,
        0 <= j < b.cols,
        0 <= n <= a.cols,
    ensures
        crate::vector::wdot_prefix(a.row_seq(i), b.col_seq(j), n) == naive_cell(a, b, i, j, n),
    decreases n,
{
    if n > 0 {
        lemma_wdot_prefix_is_naive(a, b, i, j, n - 1);
    }
}

/// Law: the output is a function of the operands alone — two successful
/// multiplies of the same operands return matrices that agree in shape and in
/// every element, whatever scheduling produced them.
pub proof fn lemma_multiply_deterministic(a: Matrix, b: Matrix, c1: Matrix, c2: Matrix)
    requires
        c1.rows == a.rows && c1.cols == b.cols && c1.data@ == product_data(a, b),
        c2.rows == a.rows && c2.cols == b.cols && c2.data@ == product_data(a, b),
    ensures
        c1.rows == c2.rows,
        c1.cols == c2.cols,
        c1.data@ == c2.data@,
{
}

/// Law: a task built for position `k` computes exactly output cell `k` —
/// its row and column have equal lengths, and their dot product is the cell
/// the sequential pipeline puts there.
pub proof fn lemma_task_value_is_product_cell(a: Matrix, b: Matrix, t: MsgInput, k: int)
    requires
        a.wf(),
        b.wf(),
        a.cols == b.rows,
        0 <= k < flat_len(a, b),
        task_ok(a, b, t, k),
    ensures
        t.row@.len() == t.col@.len(),
        wdot(t.row@, t.col@) == product_data(a, b)[k],
{
}

/// Law: fan-in does not depend on completion order — any complete, faithful
/// set of task results (result `k` carries index `k` and the value of cell
/// `k`, however long its worker took) rebuilds exactly the data of the
/// sequential product, because every value lands in its own disjoint slot.
pub proof fn lemma_faithful_results_rebuild_product(a: Matrix, b: Matrix, outs: Seq<MsgOutput>)
    requires
        a.wf(),
        b.wf(),
        a.cols == b.rows,
        outs.len() == flat_len(a, b),
        forall|k: int|
            0 <= k < outs.len() ==> (#[trigger] outs[k]).idx == k && outs[k].value == product_data(
                a,
                b,
            )[k],
    ensures
        Seq::new(outs.len() as nat, |k: int| outs[k].value) == product_data(a, b),
{
    assert(Seq::new(outs.len() as nat, |k: int| outs[k].value) =~= product_data(a, b));
}

} // verus!
