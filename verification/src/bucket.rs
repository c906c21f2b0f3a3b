//! Counting sorts over the low bits of `u32` values, and bucketing of
//! words by their first two bytes.

use vstd::prelude::*;

verus! {

// ---------------------------------------------------------------------------
// Mathematical model
// ---------------------------------------------------------------------------

/// The bucket of `x` in a counting sort with `radix` buckets: its low bits.
pub open spec fn key_of(x: u32, radix: nat) -> nat {
    (x as nat) % radix
}

/// How many elements of `s` fall into bucket `k`.
pub open spec fn count_key(s: Seq<u32>, radix: nat, k: nat) -> nat
    decreases s.len(),
{
    if s.len() == 0 {
        0
    } else {
        count_key(s.drop_last(), radix, k) + (if key_of(s.last(), radix) == k { 1nat } else { 0nat })
    }
}

/// How many times the value `v` occurs in `s`.
pub open spec fn count_value(s: Seq<u32>, v: u32) -> nat
    decreases s.len(),
{
    if s.len() == 0 {
        0
    } else {
        count_value(s.drop_last(), v) + (if s.last() == v { 1nat } else { 0nat })
    }
}

/// `s` is in non-decreasing order.
pub open spec fn is_sorted(s: Seq<u32>) -> bool {
    forall|i: int, j: int| 0 <= i <= j < s.len() ==> s[i] <= s[j]
}

/// How many elements of `s` fall into the buckets `0 .. bound`.
pub open spec fn key_total(s: Seq<u32>, radix: nat, bound: nat) -> nat
    decreases bound,
{
    if bound == 0 {
        0
    } else {
        key_total(s, radix, (bound - 1) as nat) + count_key(s, radix, (bound - 1) as nat)
    }
}

/// The bucket numbers `0 .. bound` in order, each repeated as many times as
/// elements of `s` fall into it: what a counting sort of `s` writes back.
pub open spec fn sorted_keys(s: Seq<u32>, radix: nat, bound: nat) -> Seq<u32>
    decreases bound,
{
    if bound == 0 {
        Seq::empty()
    } else {
        sorted_keys(s, radix, (bound - 1) as nat) + Seq::new(
            count_key(s, radix, (bound - 1) as nat),
            |_i: int| (bound - 1) as u32,
        )
    }
}

/// The elements of `s` that fall into bucket `k`, in their input order.
pub open spec fn bucket_of(s: Seq<u32>, radix: nat, k: nat) -> Seq<u32>
    decreases s.len(),
{
    if s.len() == 0 {
        Seq::empty()
    } else if key_of(s.last(), radix) == k {
        bucket_of(s.drop_last(), radix, k).push(s.last())
    } else {
        bucket_of(s.drop_last(), radix, k)
    }
}

/// The buckets `0 .. bound` of `s` laid out one after the other, each keeping
/// the input order of its elements: what a stable counting sort produces.
pub open spec fn stable_layout(s: Seq<u32>, radix: nat, bound: nat) -> Seq<u32>
    decreases bound,
{
    if bound == 0 {
        Seq::empty()
    } else {
        stable_layout(s, radix, (bound - 1) as nat) + bucket_of(s, radix, (bound - 1) as nat)
    }
}

// ---------------------------------------------------------------------------
// Lemmas
// ---------------------------------------------------------------------------

proof fn lemma_key_total_step(s: Seq<u32>, radix: nat, bound: nat)
    requires
        s.len() > 0,
    ensures
        key_total(s, radix, bound) == key_total(s.drop_last(), radix, bound) + (if key_of(
            s.last(),
            radix,
        ) < bound {
            1nat
        } else {
            0nat
        }),
    decreases bound,
{
    if bound > 0 {
        lemma_key_total_step(s, radix, (bound - 1) as nat);
    }
}

proof fn lemma_key_total_full(s: Seq<u32>, radix: nat)
    requires
        radix > 0,
    ensures
        key_total(s, radix, radix) == s.len(),
    decreases s.len(),
{
    if s.len() > 0 {
        lemma_key_total_step(s, radix, radix);
        lemma_key_total_full(s.drop_last(), radix);
    } else {
        lemma_key_total_empty(s, radix, radix);
    }
}

proof fn lemma_key_total_empty(s: Seq<u32>, radix: nat, bound: nat)
    requires
        s.len() == 0,
    ensures
        key_total(s, radix, bound) == 0,
    decreases bound,
{
    if bound > 0 {
        lemma_key_total_empty(s, radix, (bound - 1) as nat);
    }
}

proof fn lemma_key_total_mono(s: Seq<u32>, radix: nat, a: nat, b: nat)
    requires
        a <= b,
    ensures
        key_total(s, radix, a) <= key_total(s, radix, b),
    decreases b,
{
    if a < b {
        lemma_key_total_mono(s, radix, a, (b - 1) as nat);
    }
}

proof fn lemma_count_key_bound(s: Seq<u32>, radix: nat, k: nat)
    ensures
        count_key(s, radix, k) <= s.len(),
    decreases s.len(),
{
    if s.len() > 0 {
        lemma_count_key_bound(s.drop_last(), radix, k);
    }
}

proof fn lemma_count_key_outside(s: Seq<u32>, radix: nat, k: nat)
    requires
        0 < radix <= k,
    ensures
        count_key(s, radix, k) == 0,
    decreases s.len(),
{
    if s.len() > 0 {
        lemma_count_key_outside(s.drop_last(), radix, k);
    }
}

proof fn lemma_sorted_keys_shape(s: Seq<u32>, radix: nat, bound: nat)
    requires
        bound <= 0x1_0000_0000,
    ensures
        sorted_keys(s, radix, bound).len() == key_total(s, radix, bound),
        is_sorted(sorted_keys(s, radix, bound)),
        forall|i: int|
            0 <= i < sorted_keys(s, radix, bound).len() ==> (#[trigger] sorted_keys(
                s,
                radix,
                bound,
            )[i] as nat) < bound,
    decreases bound,
{
    if bound > 0 {
        lemma_sorted_keys_shape(s, radix, (bound - 1) as nat);
    }
}

proof fn lemma_count_value_concat(a: Seq<u32>, b: Seq<u32>, v: u32)
    ensures
        count_value(a + b, v) == count_value(a, v) + count_value(b, v),
    decreases b.len(),
{
    if b.len() == 0 {
        assert(a + b =~= a);
    } else {
        assert((a + b).drop_last() =~= a + b.drop_last());
        lemma_count_value_concat(a, b.drop_last(), v);
    }
}

proof fn lemma_count_value_repeat(n: nat, w: u32, v: u32)
    ensures
        count_value(Seq::new(n, |_i: int| w), v) == (if w == v { n } else { 0 }),
    decreases n,
{
    if n > 0 {
        assert(Seq::new(n, |_i: int| w).drop_last() =~= Seq::new((n - 1) as nat, |_i: int| w));
        lemma_count_value_repeat((n - 1) as nat, w, v);
    }
}

proof fn lemma_sorted_keys_counts(s: Seq<u32>, radix: nat, bound: nat, v: u32)
    requires
        bound <= 0x1_0000_0000,
    ensures
        count_value(sorted_keys(s, radix, bound), v) == (if (v as nat) < bound {
            count_key(s, radix, v as nat)
        } else {
            0
        }),
    decreases bound,
{
    if bound > 0 {
        let w = (bound - 1) as u32;
        lemma_sorted_keys_counts(s, radix, (bound - 1) as nat, v);
        lemma_count_value_concat(
            sorted_keys(s, radix, (bound - 1) as nat),
            Seq::new(count_key(s, radix, (bound - 1) as nat), |_i: int| w),
            v,
        );
        lemma_count_value_repeat(count_key(s, radix, (bound - 1) as nat), w, v);
    }
}

/// A counting sort writes back a sorted sequence that holds, for every value
/// `v`, as many copies of `v` as the input had elements in bucket `v`.
pub proof fn lemma_sorted_keys_sorted_permutation(s: Seq<u32>, radix: nat)
    requires
        0 < radix <= 0x1_0000_0000,
    ensures
        sorted_keys(s, radix, radix).len() == s.len(),
        is_sorted(sorted_keys(s, radix, radix)),
        forall|v: u32|
            #[trigger] count_value(sorted_keys(s, radix, radix), v) == count_key(s, radix, v as nat),
{
    lemma_sorted_keys_shape(s, radix, radix);
    lemma_key_total_full(s, radix);
    assert forall|v: u32|
        #[trigger] count_value(sorted_keys(s, radix, radix), v) == count_key(s, radix, v as nat) by {
        lemma_sorted_keys_counts(s, radix, radix, v);
        if (v as nat) >= radix {
            lemma_count_key_outside(s, radix, v as nat);
        }
    }
}


proof fn lemma_bucket_len(s: Seq<u32>, radix: nat, k: nat)
    ensures
        bucket_of(s, radix, k).len() == count_key(s, radix, k),
        forall|j: int|
            0 <= j < bucket_of(s, radix, k).len() ==> key_of(
                #[trigger] bucket_of(s, radix, k)[j],
                radix,
            ) == k,
    decreases s.len(),
{
    if s.len() > 0 {
        lemma_bucket_len(s.drop_last(), radix, k);
    }
}

proof fn lemma_layout_len(s: Seq<u32>, radix: nat, bound: nat)
    ensures
        stable_layout(s, radix, bound).len() == key_total(s, radix, bound),
    decreases bound,
{
    if bound > 0 {
        lemma_layout_len(s, radix, (bound - 1) as nat);
        lemma_bucket_len(s, radix, (bound - 1) as nat);
    }
}

/// Locates position `p` of a stable layout: it lies in bucket `k`, at offset
/// `p - key_total(k)` within that bucket.
proof fn lemma_layout_index(s: Seq<u32>, radix: nat, bound: nat, p: int) -> (k: nat)
    requires
        0 <= p < key_total(s, radix, bound),
    ensures
        k < bound,
        key_total(s, radix, k) <= p < key_total(s, radix, k) + count_key(s, radix, k),
        stable_layout(s, radix, bound)[p] == bucket_of(s, radix, k)[p - key_total(s, radix, k)],
    decreases bound,
{
    lemma_layout_len(s, radix, (bound - 1) as nat);
    lemma_bucket_len(s, radix, (bound - 1) as nat);
    if p < key_total(s, radix, (bound - 1) as nat) {
        lemma_layout_index(s, radix, (bound - 1) as nat, p)
    } else {
        (bound - 1) as nat
    }
}

proof fn lemma_count_key_prefix_mono(s: Seq<u32>, radix: nat, k: nat, i: int, j: int)
    requires
        0 <= i <= j <= s.len(),
    ensures
        count_key(s.take(i), radix, k) <= count_key(s.take(j), radix, k),
    decreases j - i,
{
    if i < j {
        assert(s.take(j).drop_last() =~= s.take(j - 1));
        lemma_count_key_prefix_mono(s, radix, k, i, j - 1);
    }
}

proof fn lemma_key_total_gap(s: Seq<u32>, radix: nat, a: nat, b: nat)
    requires
        a < b,
    ensures
        key_total(s, radix, a) + count_key(s, radix, a) <= key_total(s, radix, b),
{
    lemma_key_total_mono(s, radix, a + 1, b);
}

proof fn lemma_count_value_bucket(s: Seq<u32>, radix: nat, k: nat, v: u32)
    ensures
        count_value(bucket_of(s, radix, k), v) == (if key_of(v, radix) == k {
            count_value(s, v)
        } else {
            0
        }),
    decreases s.len(),
{
    if s.len() > 0 {
        lemma_count_value_bucket(s.drop_last(), radix, k, v);
        if key_of(s.last(), radix) == k {
            let b = bucket_of(s.drop_last(), radix, k);
            assert(b.push(s.last()).drop_last() =~= b);
        }
    } else {
        lemma_count_value_zero(s, v);
    }
}

proof fn lemma_count_value_zero(s: Seq<u32>, v: u32)
    requires
        s.len() == 0,
    ensures
        count_value(s, v) == 0,
{
}

proof fn lemma_layout_counts(s: Seq<u32>, radix: nat, bound: nat, v: u32)
    ensures
        count_value(stable_layout(s, radix, bound), v) == (if key_of(v, radix) < bound {
            count_value(s, v)
        } else {
            0
        }),
    decreases bound,
{
    if bound > 0 {
        lemma_layout_counts(s, radix, (bound - 1) as nat, v);
        lemma_count_value_concat(
            stable_layout(s, radix, (bound - 1) as nat),
            bucket_of(s, radix, (bound - 1) as nat),
            v,
        );
        lemma_count_value_bucket(s, radix, (bound - 1) as nat, v);
    } else {
        lemma_count_value_zero(stable_layout(s, radix, bound), v);
    }
}

/// A stable counting sort is a rearrangement of its input in which the
/// bucket numbers never decrease.
pub proof fn lemma_stable_layout_sorted_permutation(s: Seq<u32>, radix: nat)
    requires
        radix > 0,
    ensures
        stable_layout(s, radix, radix).len() == s.len(),
        forall|i: int, j: int|
            0 <= i <= j < s.len() ==> key_of(#[trigger] stable_layout(s, radix, radix)[i], radix)
                <= key_of(#[trigger] stable_layout(s, radix, radix)[j], radix),
        forall|v: u32| #[trigger] count_value(stable_layout(s, radix, radix), v) == count_value(s, v),
{
    lemma_layout_len(s, radix, radix);
    lemma_key_total_full(s, radix);
    let out = stable_layout(s, radix, radix);
    assert forall|i: int, j: int| 0 <= i <= j < s.len() implies key_of(
        #[trigger] out[i],
        radix,
    ) <= key_of(#[trigger] out[j], radix) by {
        let ki = lemma_layout_index(s, radix, radix, i);
        let kj = lemma_layout_index(s, radix, radix, j);
        lemma_bucket_len(s, radix, ki);
        lemma_bucket_len(s, radix, kj);
        if kj < ki {
            lemma_key_total_gap(s, radix, kj, ki);
        }
    }
    assert forall|v: u32| #[trigger] count_value(out, v) == count_value(s, v) by {
        lemma_layout_counts(s, radix, radix, v);
    }
}

// ---------------------------------------------------------------------------
// Executable code
// ---------------------------------------------------------------------------

/// A copy of `data` in a new vector.
fn copy_values(data: &[u32]) -> (v: Vec<u32>)
    ensures
        v@ == data@,
{
    let mut v: Vec<u32> = Vec::new();
    let mut i: usize = 0;
    while i < data.len()
        invariant
            i <= data@.len(),
            v@ == data@.take(i as int),
        decreases data@.len() - i,
    {
        v.push(data[i]);
        i += 1;
        proof {
            assert(v@ =~= data@.take(i as int));
        }
    }
    proof {
        assert(data@.take(data@.len() as int) =~= data@);
    }
    v
}

/// Per-bucket element counts of `data`.
fn histogram(data: &[u32], radix: usize) -> (count: Vec<usize>)
    requires
        0 < radix <= 65536,
    ensures
        count.len() == radix,
        forall|k: int| 0 <= k < radix ==> #[trigger] count[k] == count_key(data@, radix as nat, k as nat),
{
    let mut count: Vec<usize> = Vec::new();
    let mut z: usize = 0;
    while z < radix
        invariant
            z <= radix,
            count.len() == z,
            forall|k: int| 0 <= k < z ==> #[trigger] count[k] == 0,
        decreases radix - z,
    {
        count.push(0);
        z += 1;
    }
    let n = data.len();
    let mut i: usize = 0;
    while i < n
        invariant
            i <= n,
            n == data@.len(),
            count.len() == radix,
            0 < radix <= 65536,
            forall|k: int|
                0 <= k < radix ==> #[trigger] count[k] == count_key(
                    data@.take(i as int),
                    radix as nat,
                    k as nat,
                ),
            forall|k: int| 0 <= k < radix ==> #[trigger] count[k] <= i,
        decreases n - i,
    {
        let key = (data[i] % (radix as u32)) as usize;
        proof {
            assert(data@.take(i + 1).drop_last() =~= data@.take(i as int));
        }
        count[key] = count[key] + 1;
        i += 1;
    }
    proof {
        assert(data@.take(n as int) =~= data@);
    }
    count
}

/// Counting sort of the keys `x % radix`: writes the keys back in order.
fn counting_sort_keys(data: &mut [u32], radix: usize)
    requires
        0 < radix <= 65536,
    ensures
        final(data)@ == sorted_keys(old(data)@, radix as nat, radix as nat),
{
    let ghost orig = data@;
    let count = histogram(data, radix);
    let n = data.len();
    proof {
        lemma_key_total_full(orig, radix as nat);
    }
    let mut pos: usize = 0;
    let mut v: usize = 0;
    while v < radix
        invariant
            v <= radix,
            0 < radix <= 65536,
            data@.len() == n,
            n == orig.len(),
            count.len() == radix,
            forall|k: int| 0 <= k < radix ==> #[trigger] count[k] == count_key(orig, radix as nat, k as nat),
            pos == key_total(orig, radix as nat, v as nat),
            key_total(orig, radix as nat, radix as nat) == n,
            data@.take(pos as int) =~= sorted_keys(orig, radix as nat, v as nat),
        decreases radix - v,
    {
        let cnt = count[v];
        proof {
            lemma_key_total_mono(orig, radix as nat, (v + 1) as nat, radix as nat);
        }
        let ghost start = pos;
        let mut j: usize = 0;
        while j < cnt
            invariant
                j <= cnt,
                cnt == count_key(orig, radix as nat, v as nat),
                v < radix <= 65536,
                data@.len() == n,
                pos == start + j,
                start + cnt <= n,
                data@.take(pos as int) =~= sorted_keys(orig, radix as nat, v as nat) + Seq::new(
                    j as nat,
                    |_i: int| v as u32,
                ),
            decreases cnt - j,
        {
            let ghost before = data@;
            data[pos] = v as u32;
            proof {
                assert(data@.take(pos + 1) =~= before.take(pos as int).push(v as u32));
                assert(Seq::new((j + 1) as nat, |_i: int| v as u32) =~= Seq::new(
                    j as nat,
                    |_i: int| v as u32,
                ).push(v as u32));
            }
            pos += 1;
            j += 1;
        }
        v += 1;
    }
    proof {
        assert(data@.take(n as int) =~= data@);
    }
}

/// Counting sort on the low 8 bits of each value (0–255).
///
/// Each element is replaced by its low byte and the result is in
/// non-decreasing order: the sorted sequence of the low bytes.
pub fn counting_sort_u8(data: &mut [u32])
    ensures
        final(data)@ == sorted_keys(old(data)@, 256, 256),
        final(data)@.len() == old(data)@.len(),
        is_sorted(final(data)@),
        forall|v: u32| #[trigger] count_value(final(data)@, v) == count_key(old(data)@, 256, v as nat),
{
    proof {
        lemma_sorted_keys_sorted_permutation(data@, 256);
    }
    if data.is_empty() {
        proof {
            assert(sorted_keys(data@, 256, 256).len() == 0);
            assert(data@ =~= sorted_keys(data@, 256, 256));
        }
        return;
    }
    counting_sort_keys(data, 256);
}

/// Counting sort on the low 16 bits of each value (0–65535).
///
/// Each element is replaced by its low 16 bits and the result is in
/// non-decreasing order: the sorted sequence of those keys.
pub fn counting_sort_u16(data: &mut [u32])
    ensures
        final(data)@ == sorted_keys(old(data)@, 65536, 65536),
        final(data)@.len() == old(data)@.len(),
        is_sorted(final(data)@),
        forall|v: u32|
            #[trigger] count_value(final(data)@, v) == count_key(old(data)@, 65536, v as nat),
{
    proof {
        lemma_sorted_keys_sorted_permutation(data@, 65536);
    }
    if data.is_empty() {
        proof {
            assert(sorted_keys(data@, 65536, 65536).len() == 0);
            assert(data@ =~= sorted_keys(data@, 65536, 65536));
        }
        return;
    }
    counting_sort_keys(data, 65536);
}


/// Stable counting sort on the low 16 bits of each value.
///
/// Values are kept whole; they are grouped by their low 16 bits in increasing
/// order, and values with the same low bits keep their relative order.
pub fn counting_sort_u16_stable(data: &mut [u32])
    ensures
        final(data)@ == stable_layout(old(data)@, 65536, 65536),
        final(data)@.len() == old(data)@.len(),
        forall|i: int, j: int|
            0 <= i <= j < final(data)@.len() ==> key_of(#[trigger] final(data)@[i], 65536) <= key_of(
                #[trigger] final(data)@[j],
                65536,
            ),
        forall|v: u32| #[trigger] count_value(final(data)@, v) == count_value(old(data)@, v),
{
    proof {
        lemma_stable_layout_sorted_permutation(data@, 65536);
    }
    if data.is_empty() {
        proof {
            assert(data@ =~= stable_layout(data@, 65536, 65536));
        }
        return;
    }
    let ghost orig = data@;
    let radix: usize = 65536;
    let temp = copy_values(data);
    let mut count = histogram(data, radix);
    let n = data.len();
    proof {
        lemma_key_total_full(orig, radix as nat);
    }
    // Turn the counts into the first position of every bucket.
    let mut total: usize = 0;
    let mut k: usize = 0;
    while k < radix
        invariant
            k <= radix,
            radix == 65536,
            n == orig.len(),
            count.len() == radix,
            key_total(orig, radix as nat, radix as nat) == n,
            total == key_total(orig, radix as nat, k as nat),
            forall|q: int|
                0 <= q < k ==> #[trigger] count[q] == key_total(orig, radix as nat, q as nat),
            forall|q: int|
                k <= q < radix ==> #[trigger] count[q] == count_key(orig, radix as nat, q as nat),
        decreases radix - k,
    {
        let old_count = count[k];
        proof {
            lemma_key_total_mono(orig, radix as nat, (k + 1) as nat, radix as nat);
        }
        count[k] = total;
        total = total + old_count;
        k += 1;
    }
    // Place every value right after the earlier values of its bucket.
    let mut i: usize = 0;
    while i < n
        invariant
            i <= n,
            radix == 65536,
            n == orig.len(),
            temp@ == orig,
            data@.len() == n,
            count.len() == radix,
            key_total(orig, radix as nat, radix as nat) == n,
            forall|q: int|
                0 <= q < radix ==> #[trigger] count[q] == key_total(orig, radix as nat, q as nat)
                    + count_key(orig.take(i as int), radix as nat, q as nat),
            forall|q: nat, j: int|
                q < radix && 0 <= j < count_key(orig.take(i as int), radix as nat, q)
                    ==> data@[key_total(orig, radix as nat, q) + j] == #[trigger] bucket_of(
                    orig.take(i as int),
                    radix as nat,
                    q,
                )[j],
        decreases n - i,
    {
        let val = temp[i];
        let idx = (val % (radix as u32)) as usize;
        let ghost pre = orig.take(i as int);
        let ghost post = orig.take(i + 1);
        let ghost k0 = idx as nat;
        proof {
            assert(post.drop_last() =~= pre);
            assert(post.last() == val);
            lemma_count_key_prefix_mono(orig, radix as nat, k0, i + 1, n as int);
            assert(orig.take(n as int) =~= orig);
            lemma_key_total_mono(orig, radix as nat, k0 + 1, radix as nat);
            lemma_bucket_len(pre, radix as nat, k0);
        }
        let p = count[idx];
        let ghost before = data@;
        data[p] = val;
        count[idx] = p + 1;
        proof {
            assert(data@ == before.update(p as int, val));
            assert(p == key_total(orig, radix as nat, k0) + count_key(pre, radix as nat, k0));
            assert(count_key(post, radix as nat, k0) == count_key(pre, radix as nat, k0) + 1);
            assert(count_key(post, radix as nat, k0) <= count_key(orig, radix as nat, k0));
            assert forall|q: nat, j: int|
                q < radix && 0 <= j < count_key(post, radix as nat, q) implies data@[key_total(
                orig,
                radix as nat,
                q,
            ) + j] == #[trigger] bucket_of(post, radix as nat, q)[j] by {
                let pos = key_total(orig, radix as nat, q) + j;
                lemma_bucket_len(pre, radix as nat, q);
                lemma_bucket_len(post, radix as nat, q);
                if q == k0 {
                    if j < count_key(pre, radix as nat, k0) {
                        assert(before[pos] == bucket_of(pre, radix as nat, q)[j]);
                        assert(bucket_of(post, radix as nat, q) == bucket_of(pre, radix as nat, q).push(val));
                        assert(data@[pos] == before[pos]);
                        assert(data@[pos] == bucket_of(post, radix as nat, q)[j]);
                    } else {
                        assert(pos == p);
                        assert(bucket_of(post, radix as nat, q) == bucket_of(pre, radix as nat, q).push(val));
                        assert(data@[pos] == bucket_of(post, radix as nat, q)[j]);
                    }
                } else {
                    assert(bucket_of(post, radix as nat, q) == bucket_of(pre, radix as nat, q));
                    assert(count_key(post, radix as nat, q) == count_key(pre, radix as nat, q));
                    assert(before[pos] == bucket_of(pre, radix as nat, q)[j]);
                    lemma_count_key_prefix_mono(orig, radix as nat, q, i as int, n as int);
                    assert(count_key(pre, radix as nat, q) <= count_key(orig, radix as nat, q));
                    if q < k0 {
                        lemma_key_total_gap(orig, radix as nat, q, k0);
                    } else {
                        lemma_key_total_gap(orig, radix as nat, k0, q);
                    }
                    assert(pos != p);
                    lemma_key_total_mono(orig, radix as nat, q + 1, radix as nat);
                    assert(data@[pos] == bucket_of(post, radix as nat, q)[j]);
                }
            }
        }
        i += 1;
    }
    proof {
        assert(orig.take(n as int) =~= orig);
        lemma_layout_len(orig, radix as nat, radix as nat);
        assert forall|p: int| 0 <= p < n implies data@[p] == stable_layout(
            orig,
            radix as nat,
            radix as nat,
        )[p] by {
            let q = lemma_layout_index(orig, radix as nat, radix as nat, p);
            let j = p - key_total(orig, radix as nat, q);
            lemma_bucket_len(orig, radix as nat, q);
            assert(data@[key_total(orig, radix as nat, q) + j] == bucket_of(
                orig.take(n as int),
                radix as nat,
                q,
            )[j]);
        }
        assert(data@ =~= stable_layout(orig, radix as nat, radix as nat));
    }
}


/// The bucket key of a word: its first two bytes, big-endian, with missing
/// bytes read as zero.
pub open spec fn word_prefix_key(w: Seq<u8>) -> u32 {
    let b1: nat = if w.len() > 0 { w[0] as nat } else { 0 };
    let b2: nat = if w.len() > 1 { w[1] as nat } else { 0 };
    (b1 * 256 + b2) as u32
}

fn prefix_key(w: &Vec<u8>) -> (key: u32)
    ensures
        key == word_prefix_key(w@),
{
    let b1: u32 = if w.len() > 0 { w[0] as u32 } else { 0 };
    let b2: u32 = if w.len() > 1 { w[1] as u32 } else { 0 };
    assert((b1 << 8u32) | b2 == b1 * 256 + b2) by (bit_vector)
        requires
            b1 < 256,
            b2 < 256,
    ;
    (b1 << 8) | b2
}

fn copy_bytes(w: &Vec<u8>) -> (v: Vec<u8>)
    ensures
        v@ == w@,
{
    let mut v: Vec<u8> = Vec::new();
    let mut i: usize = 0;
    while i < w.len()
        invariant
            i <= w@.len(),
            v@ == w@.take(i as int),
        decreases w@.len() - i,
    {
        v.push(w[i]);
        i += 1;
        proof {
            assert(v@ =~= w@.take(i as int));
        }
    }
    proof {
        assert(w@.take(w@.len() as int) =~= w@);
    }
    v
}

/// The byte contents of a sequence of words.
pub open spec fn word_views(ws: Seq<Vec<u8>>) -> Seq<Seq<u8>> {
    Seq::new(ws.len(), |i: int| ws[i]@)
}

/// Sorts words by their first two bytes (the key `word_prefix_key`):
/// `sorted` receives the words, each once, in non-decreasing key order.
/// Earlier contents of `sorted` are dropped.
pub fn sort_words_by_prefix(words: &[Vec<u8>], sorted: &mut Vec<Vec<u8>>)
    ensures
        final(sorted)@.len() == words@.len(),
        word_views(final(sorted)@).to_multiset() == word_views(words@).to_multiset(),
        forall|i: int, j: int|
            0 <= i <= j < final(sorted)@.len() ==> word_prefix_key(#[trigger] final(sorted)@[i]@)
                <= word_prefix_key(#[trigger] final(sorted)@[j]@),
{
    sorted.clear();
    let mut keys: Vec<u32> = Vec::new();
    let n = words.len();
    let mut i: usize = 0;
    proof {
        assert(word_views(sorted@) =~= word_views(words@).take(0));
    }
    while i < n
        invariant
            n == words@.len(),
            i <= n,
            keys@.len() == sorted@.len(),
            sorted@.len() == i,
            forall|q: int| 0 <= q < keys@.len() ==> #[trigger] keys@[q] == word_prefix_key(sorted@[q]@),
            word_views(sorted@).to_multiset() == word_views(words@).take(i as int).to_multiset(),
            forall|a: int, b: int|
                0 <= a <= b < sorted@.len() ==> word_prefix_key(#[trigger] sorted@[a]@)
                    <= word_prefix_key(#[trigger] sorted@[b]@),
        decreases n - i,
    {
        let w = copy_bytes(&words[i]);
        let k = prefix_key(&words[i]);
        let mut p: usize = 0;
        while p < keys.len() && keys[p] <= k
            invariant
                p <= keys@.len(),
                keys@.len() == sorted@.len(),
                forall|q: int| 0 <= q < keys@.len() ==> #[trigger] keys@[q] == word_prefix_key(sorted@[q]@),
                forall|q: int| 0 <= q < p ==> word_prefix_key(#[trigger] sorted@[q]@) <= k,
            decreases keys@.len() - p,
        {
            p += 1;
        }
        let ghost before = sorted@;
        proof {
            assert(forall|q: int| p <= q < before.len() ==> word_prefix_key(#[trigger] before[q]@) > k) by {
                if p < before.len() {
                    assert(keys@[p as int] > k);
                    assert forall|q: int| p <= q < before.len() implies word_prefix_key(#[trigger] before[q]@) > k by {
                        assert(word_prefix_key(before[p as int]@) <= word_prefix_key(before[q]@));
                    }
                }
            }
        }
        sorted.insert(p, w);
        keys.insert(p, k);
        proof {
            assert(word_views(sorted@) =~= word_views(before).insert(p as int, w@));
            assert(word_views(words@).take(i + 1) =~= word_views(words@).take(i as int).push(words@[i as int]@));
            vstd::seq_lib::to_multiset_insert(word_views(before), p as int, w@);
            vstd::seq_lib::to_multiset_build(word_views(words@).take(i as int), words@[i as int]@);
            assert(w@ == words@[i as int]@);
            assert forall|a: int, b: int|
                0 <= a <= b < sorted@.len() implies word_prefix_key(#[trigger] sorted@[a]@)
                    <= word_prefix_key(#[trigger] sorted@[b]@) by {
                if a < p && b < p {
                    assert(sorted@[a] == before[a] && sorted@[b] == before[b]);
                } else if a < p && b == p {
                    assert(sorted@[a] == before[a]);
                } else if a < p {
                    assert(sorted@[a] == before[a] && sorted@[b] == before[b - 1]);
                } else if a == p && b > p {
                    assert(sorted@[b] == before[b - 1]);
                } else if a > p {
                    assert(sorted@[a] == before[a - 1] && sorted@[b] == before[b - 1]);
                }
            }
        }
        i += 1;
    }
    proof {
        assert(word_views(words@).take(n as int) =~= word_views(words@));
    }
}

} // verus!
