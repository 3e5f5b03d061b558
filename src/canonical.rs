use vstd::prelude::*;

verus! {

/// `v` preceded by enough copies of `fill` to reach length `len`.
pub open spec fn padded_front<T>(v: Seq<T>, len: nat, fill: T) -> Seq<T> {
    Seq::new((len - v.len()) as nat, |_i: int| fill) + v
}

/// Entry `(i, j)` of the `n x n` companion matrix whose first row is
/// `first_row`: below it lies a shifted identity, ones on the sub-diagonal.
pub open spec fn companion_entry<T>(first_row: Seq<T>, zero: T, one: T, i: int, j: int) -> T {
    if i == 0 {
        first_row[j]
    } else if j + 1 == i {
        one
    } else {
        zero
    }
}

/// Left-pads a coefficient sequence with `fill` up to length `len`, so that
/// a numerator lines up with a longer denominator term by term.
pub fn pad_front<T: Copy>(v: &Vec<T>, len: usize, fill: T) -> (r: Vec<T>)
    requires
        v.len() <= len,
    ensures
        r@ == padded_front(v@, len as nat, fill),
{
    let k = len - v.len();
    let mut r: Vec<T> = Vec::new();
    while r.len() < k
        invariant
            k == len - v.len(),
            r.len() <= k,
            forall|j: int| 0 <= j < r.len() ==> r@[j] == fill,
        decreases k - r.len(),
    {
        r.push(fill);
    }
    let mut i: usize = 0;
    while i < v.len()
        invariant
            k == len - v.len(),
            i <= v.len(),
            r@ == Seq::new(k as nat, |_j: int| fill) + v@.take(i as int),
        decreases v.len() - i,
    {
        r.push(v[i]);
        i = i + 1;
        assert(r@ =~= Seq::new(k as nat, |_j: int| fill) + v@.take(i as int));
    }
    assert(v@.take(v.len() as int) =~= v@);
    r
}

/// The rows of the companion matrix of the controllable canonical form: the
/// first row is `first_row`, row `i > 0` holds `one` in column `i - 1` and
/// `zero` elsewhere.
pub fn companion_rows<T: Copy>(first_row: &Vec<T>, zero: T, one: T) -> (r: Vec<Vec<T>>)
    ensures
        r.len() == first_row.len(),
        forall|i: int| 0 <= i < r.len() ==> #[trigger] r@[i].len() == first_row.len(),
        forall|i: int, j: int|
            0 <= i < r.len() && 0 <= j < first_row.len() ==> #[trigger] r@[i]@[j]
                == companion_entry(first_row@, zero, one, i, j),
{
    let n = first_row.len();
    let mut r: Vec<Vec<T>> = Vec::new();
    while r.len() < n
        invariant
            n == first_row.len(),
            r.len() <= n,
            forall|i: int| 0 <= i < r.len() ==> #[trigger] r@[i].len() == n,
            forall|i: int, j: int|
                0 <= i < r.len() && 0 <= j < n ==> #[trigger] r@[i]@[j]
                    == companion_entry(first_row@, zero, one, i, j),
        decreases n - r.len(),
    {
        let i = r.len();
        let mut row: Vec<T> = Vec::new();
        while row.len() < n
            invariant
                n == first_row.len(),
                i < n,
                row.len() <= n,
                forall|j: int| 0 <= j < row.len() ==> #[trigger] row@[j]
                    == companion_entry(first_row@, zero, one, i as int, j),
            decreases n - row.len(),
        {
            let j = row.len();
            let x = if i == 0 {
                first_row[j]
            } else if j + 1 == i {
                one
            } else {
                zero
            };
            row.push(x);
        }
        r.push(row);
    }
    r
}

/// The first standard basis column of length `n`: `one` on top, `zero` below.
pub fn unit_column<T: Copy>(n: usize, zero: T, one: T) -> (r: Vec<T>)
    ensures
        r@ == Seq::new(n as nat, |i: int| if i == 0 { one } else { zero }),
{
    let mut r: Vec<T> = Vec::new();
    while r.len() < n
        invariant
            r.len() <= n,
            forall|i: int| 0 <= i < r.len() ==> #[trigger] r@[i] == if i == 0 { one } else { zero },
        decreases n - r.len(),
    {
        if r.len() == 0 {
            r.push(one);
        } else {
            r.push(zero);
        }
    }
    assert(r@ =~= Seq::new(n as nat, |i: int| if i == 0 { one } else { zero }));
    r
}

/// The samples of `v` in reverse order, as the backward pass of zero-phase
/// filtering reads them.
pub fn reversed<T: Copy>(v: &Vec<T>) -> (r: Vec<T>)
    ensures
        r@ == v@.reverse(),
{
    let n = v.len();
    let mut r: Vec<T> = Vec::new();
    while r.len() < n
        invariant
            n == v.len(),
            r.len() <= n,
            forall|i: int| 0 <= i < r.len() ==> #[trigger] r@[i] == v@[n - 1 - i],
        decreases n - r.len(),
    {
        let i = r.len();
        r.push(v[n - 1 - i]);
    }
    assert(r@ =~= v@.reverse());
    r
}

} // verus!
