//! The integer steps of turning a brightness buffer into an image: the brightest pixel,
//! histogram bins, the exposure cut-off bin and the RGBA layout.
use vstd::prelude::*;

verus! {

/// The largest value of `s`, or 0 for an empty sequence.
pub open spec fn brightest(s: Seq<u32>) -> u32
    decreases s.len(),
{
    if s.len() == 0 {
        0
    } else {
        let rest = brightest(s.drop_last());
        if rest < s.last() {
            s.last()
        } else {
            rest
        }
    }
}

/// `brightest` bounds every value of the sequence, and is one of them unless the
/// sequence is empty.
pub proof fn lemma_brightest_is_max(s: Seq<u32>)
    ensures
        forall|i: int| 0 <= i < s.len() ==> s[i] <= brightest(s),
        s.len() == 0 ==> brightest(s) == 0,
        s.len() > 0 ==> exists|i: int| 0 <= i < s.len() && s[i] == brightest(s),
    decreases s.len(),
{
    if s.len() > 0 {
        lemma_brightest_is_max(s.drop_last());
        if s.len() > 1 && brightest(s.drop_last()) >= s.last() {
            let i = choose|i: int| 0 <= i < s.drop_last().len() && s.drop_last()[i] == brightest(s.drop_last());
            assert(s[i] == brightest(s));
        } else {
            assert(s[s.len() - 1] == brightest(s));
        }
        assert forall|i: int| 0 <= i < s.len() implies s[i] <= brightest(s) by {
            if i < s.len() - 1 {
                assert(s[i] == s.drop_last()[i]);
            }
        }
    }
}

/// The brightest of the `width * height` pixels of a row-major brightness buffer
/// (0 for an empty grid).
pub fn max_brightness(data: &[u32], width: usize, height: usize) -> (top: u32)
    requires
        width * height <= data@.len(),
    ensures
        top == brightest(data@.take(width * height)),
        forall|i: int| 0 <= i < width * height ==> data@[i] <= top,
        width * height > 0 ==> exists|i: int| 0 <= i < width * height && data@[i] == top,
        width * height == 0 ==> top == 0,
{
    let len = data.len();
    assert(width * height <= len);
    let count = width * height;
    let mut top: u32 = 0;
    let mut i: usize = 0;
    while i < count
        invariant
            count == width * height,
            count <= data@.len(),
            i <= count,
            top == brightest(data@.take(i as int)),
        decreases count - i,
    {
        assert(data@.take(i + 1).drop_last() =~= data@.take(i as int));
        if top < data[i] {
            top = data[i];
        }
        i = i + 1;
    }
    proof {
        lemma_brightest_is_max(data@.take(count as int));
        assert forall|k: int| 0 <= k < width * height implies data@[k] <= top by {
            assert(data@.take(count as int)[k] == data@[k]);
        }
        if count > 0 {
            let k = choose|k: int| 0 <= k < count && data@.take(count as int)[k] == top;
            assert(data@[k] == top);
        }
    }
    top
}

/// How many times `v` occurs in `s`.
pub open spec fn occurrences(s: Seq<usize>, v: usize) -> nat
    decreases s.len(),
{
    if s.len() == 0 {
        0
    } else {
        occurrences(s.drop_last(), v) + if s.last() == v { 1nat } else { 0nat }
    }
}

/// The sum of the values of `s`.
pub open spec fn total(s: Seq<usize>) -> int
    decreases s.len(),
{
    if s.len() == 0 {
        0
    } else {
        total(s.drop_last()) + s.last()
    }
}

/// Raising one entry by `d` raises the total by `d`.
pub proof fn lemma_total_update(s: Seq<usize>, i: int, v: usize)
    requires
        0 <= i < s.len(),
    ensures
        total(s.update(i, v)) == total(s) - s[i] + v,
    decreases s.len(),
{
    if i < s.len() - 1 {
        assert(s.update(i, v).drop_last() =~= s.drop_last().update(i, v));
        lemma_total_update(s.drop_last(), i, v);
    } else {
        assert(s.update(i, v).drop_last() =~= s.drop_last());
    }
}

/// A sequence of zeros totals zero.
pub proof fn lemma_total_zeros(s: Seq<usize>)
    requires
        forall|i: int| 0 <= i < s.len() ==> s[i] == 0,
    ensures
        total(s) == 0,
    decreases s.len(),
{
    if s.len() > 0 {
        lemma_total_zeros(s.drop_last());
    }
}

/// Counts, for each of `bin_count` bins, how many of `indices` name it: the histogram of
/// the pixels' bin indices.
pub fn count_bins(indices: &[usize], bin_count: usize) -> (bins: Vec<usize>)
    requires
        forall|k: int| 0 <= k < indices@.len() ==> indices@[k] < bin_count,
    ensures
        bins@.len() == bin_count,
        forall|b: int| 0 <= b < bin_count ==> bins@[b] == occurrences(indices@, b as usize),
        total(bins@) == indices@.len(),
{
    let mut bins: Vec<usize> = Vec::new();
    let mut b: usize = 0;
    while b < bin_count
        invariant
            b <= bin_count,
            bins@.len() == b,
            forall|j: int| 0 <= j < b ==> bins@[j] == 0,
        decreases bin_count - b,
    {
        bins.push(0);
        b = b + 1;
    }
    proof {
        lemma_total_zeros(bins@);
    }
    let n = indices.len();
    let mut i: usize = 0;
    while i < n
        invariant
            n == indices@.len(),
            i <= n,
            bins@.len() == bin_count,
            forall|k: int| 0 <= k < n ==> indices@[k] < bin_count,
            forall|j: int| 0 <= j < bin_count ==> bins@[j] == occurrences(indices@.take(i as int), j as usize),
            forall|j: int| 0 <= j < bin_count ==> bins@[j] <= i,
            total(bins@) == i,
        decreases n - i,
    {
        let v = indices[i];
        assert(indices@.take(i + 1).drop_last() =~= indices@.take(i as int));
        assert(indices@.take(i + 1).last() == v);
        proof {
            lemma_total_update(bins@, v as int, (bins@[v as int] + 1) as usize);
        }
        bins.set(v, bins[v] + 1);
        i = i + 1;
    }
    assert(indices@.take(n as int) =~= indices@);
    bins
}

/// The sum of the first `k` values of `s`.
pub open spec fn prefix_total(s: Seq<usize>, k: int) -> int
    decreases k,
{
    if k <= 0 {
        0
    } else {
        prefix_total(s, k - 1) + s[k - 1]
    }
}

/// The running total of `s` up to and including bin `j`.
pub open spec fn covered_through(s: Seq<usize>, j: int) -> int {
    prefix_total(s, j + 1)
}

/// The first bin at which the running total of `bins` exceeds `threshold`: the exposure
/// cut-off that keeps all but the brightest pixels below it. `None` when the running
/// total never exceeds it.
pub fn percentile_bin(bins: &[usize], threshold: usize) -> (bin: Option<usize>)
    requires
        forall|k: int| 0 <= k < bins@.len() && prefix_total(bins@, k) <= threshold
            ==> #[trigger] covered_through(bins@, k) <= usize::MAX,
    ensures
        match bin {
            Some(i) => {
                &&& i < bins@.len()
                &&& covered_through(bins@, i as int) > threshold
                &&& forall|j: int| 0 <= j < i ==> #[trigger] covered_through(bins@, j) <= threshold
            },
            None => forall|j: int| 0 <= j < bins@.len() ==> #[trigger] covered_through(bins@, j) <= threshold,
        },
{
    let n = bins.len();
    let mut covered: usize = 0;
    let mut i: usize = 0;
    while i < n
        invariant
            n == bins@.len(),
            i <= n,
            covered == prefix_total(bins@, i as int),
            covered <= threshold,
            forall|k: int| 0 <= k < bins@.len() && prefix_total(bins@, k) <= threshold
                ==> #[trigger] covered_through(bins@, k) <= usize::MAX,
            forall|j: int| 0 <= j < i ==> #[trigger] covered_through(bins@, j) <= threshold,
        decreases n - i,
    {
        assert(covered_through(bins@, i as int) == prefix_total(bins@, i as int) + bins@[i as int]);
        covered = covered + bins[i];
        if covered > threshold {
            return Some(i);
        }
        i = i + 1;
    }
    None
}

/// An opaque RGBA image, four bytes per pixel, from one colour per pixel.
pub fn opaque_rgba(colors: &[(u8, u8, u8)]) -> (data: Vec<u8>)
    requires
        colors@.len() * 4 <= usize::MAX,
    ensures
        data@.len() == colors@.len() * 4,
        forall|i: int| 0 <= i < colors@.len() ==> {
            &&& data@[4 * i] == (#[trigger] colors@[i]).0
            &&& data@[4 * i + 1] == colors@[i].1
            &&& data@[4 * i + 2] == colors@[i].2
            &&& data@[4 * i + 3] == 255
        },
{
    let n = colors.len();
    let mut data: Vec<u8> = Vec::new();
    let mut i: usize = 0;
    while i < n
        invariant
            n == colors@.len(),
            n * 4 <= usize::MAX,
            i <= n,
            data@.len() == i * 4,
            forall|j: int| 0 <= j < i ==> {
                &&& data@[4 * j] == (#[trigger] colors@[j]).0
                &&& data@[4 * j + 1] == colors@[j].1
                &&& data@[4 * j + 2] == colors@[j].2
                &&& data@[4 * j + 3] == 255
            },
        decreases n - i,
    {
        let (r, g, b) = colors[i];
        let ghost before = data@;
        data.push(r);
        data.push(g);
        data.push(b);
        data.push(255);
        assert(data@ =~= before + seq![r, g, b, 255u8]);
        assert forall|j: int| 0 <= j <= i implies {
            &&& data@[4 * j] == (#[trigger] colors@[j]).0
            &&& data@[4 * j + 1] == colors@[j].1
            &&& data@[4 * j + 2] == colors@[j].2
            &&& data@[4 * j + 3] == 255
        } by {
            if j < i {
                assert(data@[4 * j] == before[4 * j]);
                assert(data@[4 * j + 1] == before[4 * j + 1]);
                assert(data@[4 * j + 2] == before[4 * j + 2]);
                assert(data@[4 * j + 3] == before[4 * j + 3]);
            }
        }
        i = i + 1;
    }
    data
}

} // verus!
