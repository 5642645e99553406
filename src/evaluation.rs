//! Label checks and the agreement count behind a classifier's accuracy.
use vstd::prelude::*;

verus! {

/// A label of a linear classifier: `+1` or `-1`.
pub open spec fn is_sign_label(v: i32) -> bool {
    v == 1 || v == -1
}

/// How many of the first `n` positions hold the same label in `y` and `p`.
pub open spec fn agreements(y: Seq<i32>, p: Seq<i32>, n: int) -> nat
    decreases n,
{
    if n <= 0 {
        0
    } else {
        agreements(y, p, n - 1) + if y[n - 1] == p[n - 1] {
            1nat
        } else {
            0nat
        }
    }
}

/// The number of positions that both sequences have.
pub open spec fn common_len(y: Seq<i32>, p: Seq<i32>) -> int {
    if y.len() <= p.len() {
        y.len() as int
    } else {
        p.len() as int
    }
}

proof fn lemma_agreements_bounded(y: Seq<i32>, p: Seq<i32>, n: int)
    requires
        0 <= n,
    ensures
        agreements(y, p, n) <= n,
    decreases n,
{
    if n > 0 {
        lemma_agreements_bounded(y, p, n - 1);
    }
}

/// Whether every entry of `y` is a sign label.
pub fn are_sign_labels(y: &[i32]) -> (r: bool)
    ensures
        r == (forall|i: int| 0 <= i < y@.len() ==> is_sign_label(#[trigger] y@[i])),
{
    let mut i: usize = 0;
    while i < y.len()
        invariant
            0 <= i <= y.len(),
            forall|j: int| 0 <= j < i ==> is_sign_label(#[trigger] y@[j]),
        decreases y.len() - i,
    {
        if y[i] != 1 && y[i] != -1 {
            return false;
        }
        i = i + 1;
    }
    true
}

/// How many predictions in `y_pred` equal the true label at the same
/// position of `y`, over the positions that both have.
pub fn count_correct(y: &[i32], y_pred: &[i32]) -> (r: usize)
    ensures
        r == agreements(y@, y_pred@, common_len(y@, y_pred@)),
        r <= common_len(y@, y_pred@),
{
    let n: usize = if y.len() <= y_pred.len() {
        y.len()
    } else {
        y_pred.len()
    };
    let mut count: usize = 0;
    let mut i: usize = 0;
    while i < n
        invariant
            0 <= i <= n,
            n == common_len(y@, y_pred@),
            count == agreements(y@, y_pred@, i as int),
        decreases n - i,
    {
        proof {
            lemma_agreements_bounded(y@, y_pred@, i as int);
        }
        if y[i] == y_pred[i] {
            count = count + 1;
        }
        i = i + 1;
    }
    proof {
        lemma_agreements_bounded(y@, y_pred@, n as int);
    }
    count
}

} // verus!
