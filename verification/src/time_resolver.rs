use vstd::prelude::*;

verus! {

/// The smallest index at or after `from` whose recorded time strictly
/// exceeds `requested`, or `times.len()` if none does.
pub open spec fn first_exceeding_from(times: Seq<i64>, requested: i64, from: int) -> int
    recommends
        0 <= from <= times.len(),
    decreases times.len() - from,
{
    if from < 0 || from >= times.len() {
        times.len() as int
    } else if times[from] > requested {
        from
    } else {
        first_exceeding_from(times, requested, from + 1)
    }
}

/// The smallest index whose recorded time strictly exceeds `requested`, or
/// `times.len()` if none does.
pub open spec fn first_exceeding(times: Seq<i64>, requested: i64) -> int {
    first_exceeding_from(times, requested, 0)
}

/// Distance between two times.
pub open spec fn abs_diff(a: int, b: int) -> int {
    if a >= b {
        a - b
    } else {
        b - a
    }
}

/// The index `resolve_timestep` picks: the first index whose time strictly
/// exceeds `requested` (the last index if none does), unless the index just
/// before it is at least as close to `requested`.
pub open spec fn spec_resolve_timestep(times: Seq<i64>, requested: i64) -> int
    recommends
        times.len() >= 1,
{
    let fe = first_exceeding(times, requested);
    let after = if fe < times.len() { fe } else { times.len() - 1 };
    let before = if after > 0 { after - 1 } else { after };
    if abs_diff(requested as int, times[before] as int) <= abs_diff(
        requested as int,
        times[after] as int,
    ) {
        before
    } else {
        after
    }
}

proof fn lemma_first_exceeding_at(times: Seq<i64>, requested: i64, from: int, i: int)
    requires
        0 <= from <= i <= times.len(),
        forall|j: int| from <= j < i ==> times[j] <= requested,
        i == times.len() || times[i] > requested,
    ensures
        first_exceeding_from(times, requested, from) == i,
    decreases i - from,
{
    if from < i {
        lemma_first_exceeding_at(times, requested, from + 1, i);
    }
}

/// Map a requested physical time to the nearest recorded timestep index.
///
/// The recorded times are assumed sorted ascending and starting near zero;
/// the result is defined (and proved) for any input, but it is the nearest
/// recorded time only when that assumption holds. Times are in fixed-point
/// time units and non-negative, so the distance computations cannot
/// overflow.
pub fn resolve_timestep(times: &Vec<i64>, requested: i64) -> (idx: usize)
    requires
        times@.len() >= 1,
        0 <= requested,
        forall|i: int| 0 <= i < times@.len() ==> 0 <= times@[i],
    ensures
        idx == spec_resolve_timestep(times@, requested),
        idx < times@.len(),
{
    let n = times.len();
    let mut fe: usize = n;
    let mut i: usize = 0;
    while i < n
        invariant
            i <= n,
            n == times@.len(),
            fe <= n,
            fe == n ==> forall|j: int| 0 <= j < i ==> times@[j] <= requested,
            fe < n ==> fe < i && times@[fe as int] > requested && forall|j: int|
                0 <= j < fe ==> times@[j] <= requested,
        decreases n - i,
    {
        if fe == n && times[i] > requested {
            fe = i;
        }
        i = i + 1;
    }
    proof {
        if fe == n {
            lemma_first_exceeding_at(times@, requested, 0, n as int);
        } else {
            lemma_first_exceeding_at(times@, requested, 0, fe as int);
        }
    }
    let after: usize = if fe < n {
        fe
    } else {
        n - 1
    };
    let before: usize = if after > 0 {
        after - 1
    } else {
        after
    };
    let before_diff: i64 = if requested >= times[before] {
        requested - times[before]
    } else {
        times[before] - requested
    };
    let after_diff: i64 = if requested >= times[after] {
        requested - times[after]
    } else {
        times[after] - requested
    };
    if before_diff <= after_diff {
        before
    } else {
        after
    }
}

} // verus!
