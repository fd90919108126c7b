//! The mode of a sample: its most frequent key, the smallest one among
//! several that are equally frequent.

use vstd::prelude::*;
use crate::order::{count, lemma_count_absent, lemma_count_push, sorted};

verus! {

/// `m` occurs `c` times in `s`, no key occurs more often, and every key that
/// occurs as often is at least `m`.
pub open spec fn is_mode(s: Seq<i64>, m: i64, c: nat) -> bool {
    &&& c > 0
    &&& count(s, m) == c
    &&& forall|x: i64| #[trigger] count(s, x) <= c
    &&& forall|x: i64| #[trigger] count(s, x) == c ==> m <= x
}

/// `mode` and `occurrences` are the mode of `s` and its frequency: nothing
/// and zero for the empty sample, the key picked out by `is_mode` otherwise.
pub open spec fn mode_of(s: Seq<i64>, mode: Option<i64>, occurrences: nat) -> bool {
    match mode {
        None => s.len() == 0 && occurrences == 0,
        Some(m) => is_mode(s, m, occurrences),
    }
}

/// Scans a sorted slice run by run and returns its mode with the length of
/// the mode's run. A later run replaces the best one so far only when it is
/// strictly longer, so of equally long runs the first, which holds the
/// smallest key, is kept.
pub fn sorted_mode(v: &[i64]) -> (r: (Option<i64>, usize))
    requires
        sorted(v@),
    ensures
        mode_of(v@, r.0, r.1 as nat),
{
    let n: usize = v.len();
    if n == 0 {
        return (None, 0);
    }
    let mut best: Option<i64> = None;
    let mut best_run: usize = 0;
    let mut current: i64 = v[0];
    let mut run: usize = 1;
    let mut i: usize = 1;
    proof {
        assert(v@.take(1) =~= Seq::<i64>::empty().push(current));
        lemma_count_absent(Seq::<i64>::empty(), current);
        lemma_count_push(Seq::<i64>::empty(), current, current);
        assert forall|x: i64| x != current implies #[trigger] count(v@.take(1), x) == 0 by {
            lemma_count_absent(v@.take(1), x);
        }
    }
    while i < n
        invariant
            n == v@.len(),
            sorted(v@),
            1 <= i <= n,
            current == v@[i - 1],
            1 <= run <= i,
            best_run <= i,
            run == count(v@.take(i as int), current),
            best_run == 0 ==> best is None,
            best_run > 0 ==> best is Some && best.unwrap() < current && count(
                v@.take(i as int),
                best.unwrap(),
            ) == best_run,
            forall|x: i64| x != current ==> #[trigger] count(v@.take(i as int), x) <= best_run,
            forall|x: i64|
                x != current && best_run > 0 && #[trigger] count(v@.take(i as int), x) == best_run
                    ==> best.unwrap() <= x,
        decreases n - i,
    {
        let x: i64 = v[i];
        proof {
            let before = v@.take(i as int);
            assert(v@.take(i + 1) =~= before.push(x));
            assert forall|y: i64|
                #[trigger] count(v@.take(i + 1), y) == count(before, y) + (if x == y {
                    1nat
                } else {
                    0nat
                }) by {
                lemma_count_push(before, x, y);
            }
            if x != current {
                assert forall|k: int| 0 <= k < before.len() implies before[k] != x by {
                    assert(v@[k] <= v@[i - 1]);
                    assert(v@[i - 1] <= v@[i as int]);
                }
                lemma_count_absent(before, x);
            }
        }
        if x == current {
            run = run + 1;
        } else {
            if run > best_run {
                best = Some(current);
                best_run = run;
            }
            current = x;
            run = 1;
        }
        i = i + 1;
    }
    if run > best_run {
        best = Some(current);
        best_run = run;
    }
    proof {
        assert(v@.take(n as int) =~= v@);
    }
    (best, best_run)
}

} // verus!
