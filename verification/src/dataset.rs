use crate::error::NetError;
use crate::matrix::rows_view;
use crate::scalar::Scalar;
use vstd::prelude::*;

verus! {

/// The first `n` rows, one after the other.
pub open spec fn joined<T>(rows: Seq<Seq<T>>, n: nat) -> Seq<T>
    decreases n,
{
    if n == 0 {
        Seq::empty()
    } else {
        joined(rows, (n - 1) as nat) + rows[n - 1]
    }
}

/// `rows` is `flat` cut into pieces of `width`: joined they give `flat`
/// back, all but the last are `width` long, and the last is not empty.
pub open spec fn is_split<T>(flat: Seq<T>, width: nat, rows: Seq<Seq<T>>) -> bool {
    &&& joined(rows, rows.len()) == flat
    &&& forall|i: int| 0 <= i < rows.len() - 1 ==> (#[trigger] rows[i]).len() == width
    &&& rows.len() > 0 ==> 0 < rows[rows.len() - 1].len() <= width
}

/// The vector of `classes` entries that is one at `label` and zero elsewhere.
pub open spec fn one_hot_spec<T: Scalar>(label: nat, classes: nat) -> Seq<T> {
    Seq::new(
        classes,
        |i: int|
            if i == label {
                T::one_spec()
            } else {
                T::zero_spec()
            },
    )
}

/// The place that a scan of the first `n` entries settles on: it starts at 0
/// and moves to each entry that is strictly greater than the one it holds.
pub open spec fn strongest_prefix<T: Scalar>(v: Seq<T>, n: nat) -> int
    decreases n,
{
    if n == 0 {
        0
    } else {
        let held = strongest_prefix(v, (n - 1) as nat);
        if v[n - 1].gt_spec(v[held]) {
            n - 1
        } else {
            held
        }
    }
}

/// Rows that were there before a push join to what they joined to before.
proof fn lemma_joined_push<T>(rows: Seq<Seq<T>>, row: Seq<T>, n: nat)
    requires
        n <= rows.len(),
    ensures
        joined(rows.push(row), n) == joined(rows, n),
    decreases n,
{
    if n > 0 {
        lemma_joined_push(rows, row, (n - 1) as nat);
        assert(rows.push(row)[n - 1] == rows[n - 1]);
    }
}

/// Cuts a flat sequence into consecutive rows of `width` entries; the last
/// row is shorter where the length is no multiple of `width`.
pub fn split_rows<T: Copy>(flat: &Vec<T>, width: usize) -> (rows: Vec<Vec<T>>)
    requires
        width > 0,
    ensures
        is_split(flat@, width as nat, rows_view(rows@)),
{
    let mut rows: Vec<Vec<T>> = Vec::new();
    let mut row: Vec<T> = Vec::new();
    let mut p: usize = 0;
    while p < flat.len()
        invariant
            width > 0,
            0 <= p <= flat.len(),
            row.len() < width,
            forall|i: int| 0 <= i < rows.len() ==> (#[trigger] rows[i]).len() == width,
            joined(rows_view(rows@), rows.len() as nat) + row@ == flat@.subrange(0, p as int),
        decreases flat.len() - p,
    {
        let ghost done = joined(rows_view(rows@), rows.len() as nat);
        let ghost open_row = row@;
        row.push(flat[p]);
        p += 1;
        proof {
            assert(flat@.subrange(0, p as int) =~= flat@.subrange(0, p - 1).push(flat[p - 1]));
            assert(done + row@ =~= (done + open_row).push(flat[p - 1]));
        }
        if row.len() == width {
            proof {
                let before = rows_view(rows@);
                lemma_joined_push(before, row@, before.len());
                assert(rows_view(rows@.push(row)) =~= before.push(row@));
            }
            rows.push(row);
            row = Vec::new();
            assert(joined(rows_view(rows@), rows.len() as nat) + row@ =~= flat@.subrange(
                0,
                p as int,
            ));
        }
    }
    assert(flat@.subrange(0, p as int) =~= flat@);
    if row.len() > 0 {
        proof {
            let before = rows_view(rows@);
            lemma_joined_push(before, row@, before.len());
            assert(rows_view(rows@.push(row)) =~= before.push(row@));
        }
        rows.push(row);
    } else {
        assert(joined(rows_view(rows@), rows.len() as nat) =~= flat@);
    }
    rows
}

/// The target vector for a label: one at the label's place, zero elsewhere.
/// Refused when the label is not below the number of classes.
pub fn one_hot<T: Scalar>(label: usize, classes: usize) -> (res: Result<Vec<T>, NetError>)
    ensures
        res.is_ok() <==> label < classes,
        res matches Err(e) ==> e == NetError::Shape,
        res matches Ok(v) ==> v@ == one_hot_spec::<T>(label as nat, classes as nat),
{
    if label >= classes {
        return Err(NetError::Shape);
    }
    let mut v: Vec<T> = Vec::new();
    let mut i: usize = 0;
    while i < classes
        invariant
            0 <= i <= classes,
            v.len() == i,
            forall|q: int|
                0 <= q < i ==> #[trigger] v[q] == if q == label {
                    T::one_spec()
                } else {
                    T::zero_spec()
                },
        decreases classes - i,
    {
        if i == label {
            v.push(T::one());
        } else {
            v.push(T::zero());
        }
        i += 1;
    }
    assert(v@ =~= one_hot_spec::<T>(label as nat, classes as nat));
    Ok(v)
}

/// The place of the greatest entry, the first of them where several are
/// equal; 0 for an empty vector.
pub fn strongest<T: Scalar>(v: &Vec<T>) -> (held: usize)
    ensures
        held == strongest_prefix(v@, v.len() as nat),
        v.len() > 0 ==> held < v.len(),
{
    let mut held: usize = 0;
    let mut i: usize = 0;
    while i < v.len()
        invariant
            0 <= i <= v.len(),
            held == strongest_prefix(v@, i as nat),
            i > 0 ==> held < i,
            i == 0 ==> held == 0,
        decreases v.len() - i,
    {
        if v[i].exceeds(v[held]) {
            held = i;
        }
        i += 1;
    }
    held
}

/// Where "greater" is transitive and nothing is greater than itself, no
/// entry is greater than the one the scan settles on.
pub proof fn lemma_strongest_is_greatest<T: Scalar>(v: Seq<T>, n: nat)
    requires
        0 < n <= v.len(),
        forall|x: T| !(#[trigger] x.gt_spec(x)),
        forall|x: T, y: T, z: T| #[trigger] x.gt_spec(y) && #[trigger] y.gt_spec(z) ==> x.gt_spec(z),
    ensures
        0 <= strongest_prefix(v, n) < n,
        forall|j: int| 0 <= j < n ==> !(#[trigger] v[j]).gt_spec(v[strongest_prefix(v, n)]),
    decreases n,
{
    if n > 1 {
        lemma_strongest_is_greatest(v, (n - 1) as nat);
        let held = strongest_prefix(v, (n - 1) as nat);
        if v[n - 1].gt_spec(v[held]) {
            assert forall|j: int| 0 <= j < n implies !(#[trigger] v[j]).gt_spec(v[n - 1]) by {
                if j < n - 1 && v[j].gt_spec(v[n - 1]) {
                    assert(v[j].gt_spec(v[held]));
                }
            }
        }
    } else {
        assert(strongest_prefix(v, 0) == 0);
    }
}

} // verus!
