//! Building the matrix of a trace: rows one after the other, filled up with
//! padding rows to a power of two.

use p3_matrix::dense::{DenseMatrix, RowMajorMatrix};
use vstd::prelude::*;

verus! {

/// `p3_matrix::dense::DenseMatrix`: a matrix stored row by row. What a
/// matrix holds is named by [`matrix_values`] and [`matrix_width`].
#[verifier::external_type_specification]
#[verifier::external_body]
#[verifier::reject_recursive_types(T)]
#[verifier::reject_recursive_types(V)]
pub struct ExDenseMatrix<T, V>(DenseMatrix<T, V>);

/// The cells of the matrix, row by row: its field `values`.
pub uninterp spec fn matrix_values(m: RowMajorMatrix<u32>) -> Seq<u32>;

/// The number of columns of the matrix: its field `width`.
pub uninterp spec fn matrix_width(m: RowMajorMatrix<u32>) -> nat;

/// The matrix with the given cells and width.
///
/// Calls `RowMajorMatrix::new`, which keeps the values and the width as they
/// are given. It checks, in a debug build, that the width divides the number
/// of values.
#[verifier::external_body]
pub(crate) fn new_matrix(values: Vec<u32>, width: usize) -> (m: RowMajorMatrix<u32>)
    requires
        width == 0 || values@.len() % (width as nat) == 0,
    ensures
        matrix_values(m) == values@,
        matrix_width(m) == width,
{
    RowMajorMatrix::new(values, width)
}

/// The least power of two that is at least `n`, counting up from the power
/// of two `p`.
pub open spec fn next_pow2_from(p: nat, n: nat) -> nat
    decreases
            (if p < n {
                n - p
            } else {
                0
            }),
{
    if p >= n || p == 0 {
        p
    } else {
        next_pow2_from(2 * p, n)
    }
}

/// The least power of two that is at least `n`; 1 for `n` zero.
pub open spec fn next_pow2(n: nat) -> nat {
    next_pow2_from(1, n)
}

/// Whether `n` is a power of two.
pub open spec fn is_pow2(n: nat) -> bool
    decreases n,
{
    n == 1 || (n > 1 && n % 2 == 0 && is_pow2(n / 2))
}

/// The rows one after the other.
pub open spec fn flatten(rows: Seq<Seq<u32>>) -> Seq<u32>
    decreases rows.len(),
{
    if rows.len() == 0 {
        Seq::empty()
    } else {
        flatten(rows.drop_last()) + rows.last()
    }
}

/// `rows` filled up with `padding` to the next power of two.
pub open spec fn padded(rows: Seq<Seq<u32>>, padding: Seq<u32>) -> Seq<Seq<u32>> {
    Seq::new(
        next_pow2(rows.len()),
        |i: int|
            if i < rows.len() {
                rows[i]
            } else {
                padding
            },
    )
}

/// Counting up from a power of two gives a power of two that is at least `n`
/// and less than twice `n`.
pub proof fn lemma_next_pow2_from(p: nat, n: nat)
    requires
        is_pow2(p),
    ensures
        is_pow2(next_pow2_from(p, n)),
        next_pow2_from(p, n) >= n,
        next_pow2_from(p, n) >= p,
        p < n ==> next_pow2_from(p, n) < 2 * n,
    decreases
            (if p < n {
                n - p
            } else {
                0
            }),
{
    if p >= n {
    } else {
        assert(is_pow2(2 * p)) by {
            assert((2 * p) / 2 == p);
        }
        lemma_next_pow2_from(2 * p, n);
    }
}

/// The padded height is a power of two, at least the number of rows and
/// less than twice that number (1 for no rows).
pub proof fn lemma_next_pow2(n: nat)
    ensures
        is_pow2(next_pow2(n)),
        next_pow2(n) >= n,
        next_pow2(n) >= 1,
        n > 1 ==> next_pow2(n) < 2 * n,
        n <= 1 ==> next_pow2(n) == 1,
{
    lemma_next_pow2_from(1, n);
}

/// Rows of one width, flattened, take the width times their number.
pub proof fn lemma_flatten_len(rows: Seq<Seq<u32>>, width: nat)
    requires
        forall|i: int| 0 <= i < rows.len() ==> (#[trigger] rows[i]).len() == width,
    ensures
        flatten(rows).len() == rows.len() * width,
    decreases rows.len(),
{
    if rows.len() > 0 {
        lemma_flatten_len(rows.drop_last(), width);
        assert(rows.len() * width == (rows.len() - 1) * width + width) by (nonlinear_arith);
    } else {
        assert(rows.len() * width == 0) by (nonlinear_arith)
            requires
                rows.len() == 0,
        ;
    }
}

/// Appending is associative.
pub proof fn lemma_append_assoc<T>(a: Seq<T>, b: Seq<T>, c: Seq<T>)
    ensures
        (a + b) + c == a + (b + c),
{
    assert((a + b) + c =~= a + (b + c));
}

/// One row more makes the flattened rows longer by that row.
pub proof fn lemma_flatten_push(rows: Seq<Seq<u32>>, row: Seq<u32>)
    ensures
        flatten(rows.push(row)) == flatten(rows) + row,
{
    assert(rows.push(row).drop_last() =~= rows);
}

/// The least power of two that is at least `n`; `None` where no `usize`
/// holds it.
pub fn next_power_of_two(n: usize) -> (r: Option<usize>)
    ensures
        match r {
            Some(p) => p == next_pow2(n as nat),
            None => next_pow2(n as nat) > usize::MAX,
        },
{
    let mut p: usize = 1;
    proof {
        lemma_next_pow2(n as nat);
    }
    while p < n
        invariant
            p >= 1,
            is_pow2(p as nat),
            next_pow2_from(p as nat, n as nat) == next_pow2(n as nat),
        decreases
                (if p < n {
                    n - p
                } else {
                    0
                }),
    {
        proof {
            assert(is_pow2((2 * p) as nat)) by {
                assert((2 * p) / 2 == p);
            }
            lemma_next_pow2_from((2 * p) as nat, n as nat);
        }
        if p > usize::MAX / 2 {
            return None;
        }
        p = 2 * p;
    }
    Some(p)
}

/// Appends a copy of `row` to `values`.
pub fn append_row(values: &mut Vec<u32>, row: &Vec<u32>)
    ensures
        final(values)@ == old(values)@ + row@,
{
    let mut i: usize = 0;
    while i < row.len()
        invariant
            0 <= i <= row@.len(),
            values@ == old(values)@ + row@.subrange(0, i as int),
        decreases row@.len() - i,
    {
        values.push(row[i]);
        i = i + 1;
        assert(values@ =~= old(values)@ + row@.subrange(0, i as int));
    }
    assert(row@.subrange(0, i as int) =~= row@);
}

/// Fills the `count` rows in `values` up with copies of `padding` to the
/// next power of two, and makes a matrix of them.
pub fn pad_to_matrix(
    values: Vec<u32>,
    padding: &Vec<u32>,
    count: usize,
    Ghost(rows): Ghost<Seq<Seq<u32>>>,
) -> (m: RowMajorMatrix<u32>)
    requires
        values@ == flatten(rows),
        rows.len() == count,
        forall|i: int| 0 <= i < rows.len() ==> (#[trigger] rows[i]).len() == padding@.len(),
        next_pow2(count as nat) <= usize::MAX,
    ensures
        matrix_values(m) == flatten(padded(rows, padding@)),
        matrix_width(m) == padding@.len(),
        matrix_values(m).len() == next_pow2(rows.len()) * padding@.len(),
{
    let height: usize = match next_power_of_two(count) {
        Some(h) => h,
        None => count,
    };
    let mut values = values;
    let mut have: usize = count;
    let ghost mut all = rows;
    let ghost full = padded(rows, padding@);
    proof {
        lemma_next_pow2(count as nat);
        assert(all =~= full.subrange(0, have as int));
    }
    while have < height
        invariant
            count <= have <= height,
            height == next_pow2(count as nat),
            rows.len() == count,
            full == padded(rows, padding@),
            all == full.subrange(0, have as int),
            values@ == flatten(all),
        decreases height - have,
    {
        append_row(&mut values, padding);
        proof {
            lemma_flatten_push(all, padding@);
            all = all.push(padding@);
            assert(all =~= full.subrange(0, have + 1));
        }
        have = have + 1;
    }
    proof {
        assert(all =~= full);
        lemma_flatten_len(full, padding@.len());
        let w = padding@.len() as int;
        let h = height as int;
        if w > 0 {
            vstd::arithmetic::div_mod::lemma_mod_multiples_basic(h, w);
        }
    }
    new_matrix(values, padding.len())
}

} // verus!
