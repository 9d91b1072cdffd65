use vstd::prelude::*;

verus! {

/// The sum of the first `n` lengths.
pub open spec fn prefix_sum(lengths: Seq<usize>, n: int) -> int
    decreases n,
{
    if n <= 0 {
        0
    } else {
        prefix_sum(lengths, n - 1) + lengths[n - 1]
    }
}

/// Proves that prefix sums grow with the prefix and are never negative.
pub proof fn lemma_prefix_sum_monotone(lengths: Seq<usize>, i: int, n: int)
    requires
        0 <= i <= n <= lengths.len(),
    ensures
        0 <= prefix_sum(lengths, i) <= prefix_sum(lengths, n),
    decreases n,
{
    if n > i {
        lemma_prefix_sum_monotone(lengths, i, n - 1);
    } else if i > 0 {
        lemma_prefix_sum_monotone(lengths, i - 1, i - 1);
    }
}

/// The instances of one primitive in the instance buffer: how many there are,
/// and the byte range they occupy.
#[derive(Debug, Clone, Copy, PartialEq, Eq, Structural)]
pub struct InstanceRun {
    pub count: u32,
    pub start: u64,
    pub end: u64,
}

/// Lays out runs of `lengths[i]` instances of `elem_size` bytes one after the
/// other in a single buffer, in the given order.
pub fn instance_runs(lengths: &[usize], elem_size: u64) -> (r: Vec<InstanceRun>)
    requires
        forall|i: int| 0 <= i < lengths@.len() ==> #[trigger] lengths@[i] <= u32::MAX,
        prefix_sum(lengths@, lengths@.len() as int) <= u64::MAX,
        prefix_sum(lengths@, lengths@.len() as int) * elem_size <= u64::MAX,
    ensures
        r@.len() == lengths@.len(),
        forall|i: int|
            0 <= i < r@.len() ==> {
                &&& #[trigger] r@[i].count == lengths@[i]
                &&& r@[i].start == prefix_sum(lengths@, i) * elem_size
                &&& r@[i].end == prefix_sum(lengths@, i + 1) * elem_size
            },
{
    let n = lengths.len();
    let ghost total = prefix_sum(lengths@, n as int);
    let mut runs: Vec<InstanceRun> = Vec::with_capacity(n);
    let mut placed: u64 = 0;
    let mut i: usize = 0;
    while i < n
        invariant
            n == lengths@.len(),
            i <= n,
            forall|k: int| 0 <= k < n ==> #[trigger] lengths@[k] <= u32::MAX,
            total == prefix_sum(lengths@, n as int),
            total <= u64::MAX,
            total * elem_size <= u64::MAX,
            placed == prefix_sum(lengths@, i as int),
            runs@.len() == i,
            forall|k: int|
                0 <= k < i ==> {
                    &&& #[trigger] runs@[k].count == lengths@[k]
                    &&& runs@[k].start == prefix_sum(lengths@, k) * elem_size
                    &&& runs@[k].end == prefix_sum(lengths@, k + 1) * elem_size
                },
        decreases n - i,
    {
        proof {
            lemma_prefix_sum_monotone(lengths@, i + 1, n as int);
            let a = prefix_sum(lengths@, i + 1);
            assert(a * elem_size <= total * elem_size) by (nonlinear_arith)
                requires
                    0 <= a <= total,
            ;
            assert(placed * elem_size <= a * elem_size) by (nonlinear_arith)
                requires
                    0 <= placed <= a,
            ;
        }
        let len = lengths[i] as u64;
        let next = placed + len;
        let run = InstanceRun { count: lengths[i] as u32, start: placed * elem_size, end: next * elem_size };
        runs.push(run);
        placed = next;
        i = i + 1;
    }
    runs
}

/// The offset of each skin's first joint matrix in the joint buffer, whose first
/// matrix is not a joint's: the skins' joints follow one another, in order.
pub fn skin_joint_offsets(joint_counts: &[usize]) -> (r: Vec<u32>)
    requires
        1 + prefix_sum(joint_counts@, joint_counts@.len() as int) <= u32::MAX,
    ensures
        r@.len() == joint_counts@.len(),
        forall|i: int| 0 <= i < r@.len() ==> #[trigger] r@[i] == 1 + prefix_sum(joint_counts@, i),
{
    let n = joint_counts.len();
    let mut offsets: Vec<u32> = Vec::with_capacity(n);
    let mut offset: u32 = 1;
    let mut i: usize = 0;
    while i < n
        invariant
            n == joint_counts@.len(),
            i <= n,
            1 + prefix_sum(joint_counts@, n as int) <= u32::MAX,
            offset == 1 + prefix_sum(joint_counts@, i as int),
            offsets@.len() == i,
            forall|k: int| 0 <= k < i ==> #[trigger] offsets@[k] == 1 + prefix_sum(joint_counts@, k),
        decreases n - i,
    {
        proof {
            lemma_prefix_sum_monotone(joint_counts@, i + 1, n as int);
        }
        offsets.push(offset);
        offset = offset + joint_counts[i] as u32;
        i = i + 1;
    }
    offsets
}

/// `value` rounded up to a multiple of `alignment`.
pub open spec fn spec_align_to(value: int, alignment: int) -> int {
    if value % alignment == 0 {
        value
    } else {
        value - value % alignment + alignment
    }
}

/// Rounds `value` up to the nearest multiple of `alignment`.
pub fn align_to(value: u64, alignment: u64) -> (r: u64)
    requires
        alignment > 0,
        value + alignment <= u64::MAX,
    ensures
        r == spec_align_to(value as int, alignment as int),
        r % alignment == 0,
        value <= r < value + alignment,
{
    let rest = value % alignment;
    if rest == 0 {
        value
    } else {
        proof {
            assert(rest <= value) by (nonlinear_arith)
                requires
                    rest == value % alignment,
                    alignment > 0,
            ;
            assert((value - rest + alignment) % (alignment as int) == 0) by (nonlinear_arith)
                requires
                    rest == value % alignment,
                    alignment > 0,
            ;
        }
        value - rest + alignment
    }
}

} // verus!
