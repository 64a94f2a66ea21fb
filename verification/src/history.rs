//! Fixed-length sample histories and counter totals behind the panels.
use vstd::prelude::*;

verus! {

/// Drops the oldest sample and appends `sample`, keeping the history's length.
pub fn push_sample<T>(history: &mut Vec<T>, sample: T)
    requires
        old(history).len() > 0,
    ensures
        final(history)@ == old(history)@.drop_first().push(sample),
        final(history).len() == old(history).len(),
{
    history.remove(0);
    history.push(sample);
}

/// A history of samples keeps its length however many samples are pushed.
pub proof fn lemma_history_length_kept<T>(history: Seq<T>, sample: T)
    requires
        history.len() > 0,
    ensures
        history.drop_first().push(sample).len() == history.len(),
{
}

/// Sum of all values.
pub open spec fn total(values: Seq<u64>) -> nat
    decreases values.len(),
{
    if values.len() == 0 {
        0
    } else {
        total(values.drop_last()) + values.last() as nat
    }
}

/// Sum of the byte counters of all network interfaces; `None` when it does not fit in a `u64`.
pub fn sum_counters(values: &Vec<u64>) -> (sum: Option<u64>)
    ensures
        sum matches Some(s) ==> s == total(values@),
        sum is None <==> total(values@) > u64::MAX,
{
    let mut acc: u64 = 0;
    let mut i: usize = 0;
    while i < values.len()
        invariant
            i <= values.len(),
            acc == total(values@.take(i as int)),
        decreases values.len() - i,
    {
        assert(values@.take(i + 1).drop_last() =~= values@.take(i as int));
        match acc.checked_add(values[i]) {
            Some(next) => {
                acc = next;
            },
            None => {
                proof {
                    lemma_total_prefix_le(values@, i + 1);
                }
                return None;
            },
        }
        i = i + 1;
    }
    assert(values@.take(values.len() as int) =~= values@);
    Some(acc)
}

proof fn lemma_total_prefix_le(values: Seq<u64>, k: int)
    requires
        0 <= k <= values.len(),
    ensures
        total(values.take(k)) <= total(values),
    decreases values.len(),
{
    if k < values.len() {
        assert(values.take(k) =~= values.drop_last().take(k));
        lemma_total_prefix_le(values.drop_last(), k);
    } else {
        assert(values.take(k) =~= values);
    }
}

} // verus!
