//! Plain operations on the rows and matrices that a ledger is stored in.

use vstd::prelude::*;
use crate::ledger::{set_entry, zero_row};

verus! {

/// The matrix that `m` stores: one sequence per row.
pub open spec fn matrix(m: Vec<Vec<usize>>) -> Seq<Seq<usize>> {
    Seq::new(m@.len(), |t: int| m@[t]@)
}

/// A row of `len` zeros.
pub fn zeros(len: usize) -> (row: Vec<usize>)
    ensures
        row@ == zero_row(len as nat),
{
    let mut row: Vec<usize> = Vec::new();
    let mut r: usize = 0;
    while r < len
        invariant
            r <= len,
            row@.len() == r,
            forall|k: int| 0 <= k < r ==> row@[k] == 0,
        decreases len - r,
    {
        row.push(0);
        r += 1;
    }
    assert(row@ =~= zero_row(len as nat));
    row
}

/// A copy of `row`.
pub fn copy_row(row: &Vec<usize>) -> (copy: Vec<usize>)
    ensures
        copy@ == row@,
{
    let mut copy: Vec<usize> = Vec::new();
    let mut r: usize = 0;
    while r < row.len()
        invariant
            r <= row@.len(),
            copy@.len() == r,
            forall|k: int| 0 <= k < r ==> copy@[k] == row@[k],
        decreases row@.len() - r,
    {
        copy.push(row[r]);
        r += 1;
    }
    assert(copy@ =~= row@);
    copy
}

/// A copy of `m` that shares nothing with it.
pub fn copy_matrix(m: &Vec<Vec<usize>>) -> (copy: Vec<Vec<usize>>)
    ensures
        matrix(copy) == matrix(*m),
{
    let mut copy: Vec<Vec<usize>> = Vec::new();
    let mut t: usize = 0;
    while t < m.len()
        invariant
            t <= m@.len(),
            copy@.len() == t,
            forall|k: int| 0 <= k < t ==> copy@[k]@ == m@[k]@,
        decreases m@.len() - t,
    {
        copy.push(copy_row(&m[t]));
        t += 1;
    }
    assert(matrix(copy) =~= matrix(*m));
    copy
}

/// Writes `v` at row `t`, column `r`.
pub fn set_cell(m: &mut Vec<Vec<usize>>, t: usize, r: usize, v: usize)
    requires
        t < old(m)@.len(),
        r < old(m)@[t as int]@.len(),
    ensures
        matrix(*final(m)) == set_entry(matrix(*old(m)), t as int, r as int, v),
{
    m[t][r] = v;
    assert(matrix(*m) =~= set_entry(matrix(*old(m)), t as int, r as int, v));
}

/// Gives every row one more column, holding zero.
pub fn append_zero_column(m: &mut Vec<Vec<usize>>)
    ensures
        matrix(*final(m)) == Seq::new(
            matrix(*old(m)).len(),
            |t: int| matrix(*old(m))[t].push(0usize),
        ),
{
    let mut t: usize = 0;
    while t < m.len()
        invariant
            t <= m@.len(),
            m@.len() == old(m)@.len(),
            forall|k: int| 0 <= k < t ==> m@[k]@ == old(m)@[k]@.push(0usize),
            forall|k: int| t <= k < m@.len() ==> m@[k]@ == old(m)@[k]@,
        decreases m@.len() - t,
    {
        m[t].push(0);
        t += 1;
    }
    assert(matrix(*m) =~= Seq::new(
        matrix(*old(m)).len(),
        |t: int| matrix(*old(m))[t].push(0usize),
    ));
}

/// Appends zero rows of `columns` entries until row `t` exists.
pub fn grow_rows(m: &mut Vec<Vec<usize>>, t: usize, columns: usize)
    requires
        t < usize::MAX,
    ensures
        t < old(m)@.len() ==> matrix(*final(m)) == matrix(*old(m)),
        t >= old(m)@.len() ==> matrix(*final(m)) == matrix(*old(m)) + Seq::new(
            (t + 1 - old(m)@.len()) as nat,
            |i: int| zero_row(columns as nat),
        ),
{
    while m.len() <= t
        invariant
            t < usize::MAX,
            old(m)@.len() <= m@.len(),
            m@.len() <= t + 1 || m@.len() == old(m)@.len(),
            forall|k: int| 0 <= k < old(m)@.len() ==> m@[k] == old(m)@[k],
            forall|k: int| old(m)@.len() <= k < m@.len() ==> m@[k]@ == zero_row(columns as nat),
        decreases t + 1 - m@.len(),
    {
        m.push(zeros(columns));
    }
    proof {
        if t < old(m)@.len() {
            assert(m@ =~= old(m)@);
        } else {
            assert(matrix(*m) =~= matrix(*old(m)) + Seq::new(
                (t + 1 - old(m)@.len()) as nat,
                |i: int| zero_row(columns as nat),
            ));
        }
    }
}

} // verus!
