//! Ordering a page of results by the sort order the user asked for.
use vstd::prelude::*;

use crate::query::SortOrder;
use crate::video::{Video, MAX_SECS_RANK, ZERO_SECS_RANK};

verus! {

/// The key by which `order` sorts a video, smallest first:
/// most views first (unknown counts last), fewest views first (unknown
/// counts first), longest first (unknown lengths count as zero seconds),
/// shortest first (unknown lengths count as the largest finite number of
/// seconds), or no order.
pub open spec fn sort_key(order: SortOrder, v: Video) -> int {
    match order {
        SortOrder::Default => 0,
        SortOrder::ViewsDesc => match v.view_count {
            Some(n) => -(n + 1),
            None => 0,
        },
        SortOrder::ViewsAsc => match v.view_count {
            Some(n) => n + 1,
            None => 0,
        },
        SortOrder::DurationDesc => match v.duration {
            Some(len) => -len.rank,
            None => -ZERO_SECS_RANK,
        },
        SortOrder::DurationAsc => match v.duration {
            Some(len) => len.rank as int,
            None => MAX_SECS_RANK as int,
        },
    }
}

/// Some position of `perm` below `n` holds `k`.
pub open spec fn takes_value(perm: Seq<int>, n: int, k: int) -> bool {
    exists|i: int| 0 <= i < n && #[trigger] perm[i] == k
}

/// `perm` is a permutation of the positions `0..n`.
pub open spec fn is_permutation(perm: Seq<int>, n: int) -> bool {
    &&& perm.len() == n
    &&& forall|i: int| 0 <= i < n ==> 0 <= #[trigger] perm[i] < n
    &&& forall|i: int, j: int| 0 <= i < j < n ==> perm[i] != perm[j]
    &&& forall|k: int| 0 <= k < n ==> #[trigger] takes_value(perm, n, k)
}

/// Swapping two entries of a permutation gives a permutation.
proof fn lemma_swap_permutation(perm: Seq<int>, n: int, a: int, b: int)
    requires
        is_permutation(perm, n),
        0 <= a < n,
        0 <= b < n,
    ensures
        is_permutation(perm.update(a, perm[b]).update(b, perm[a]), n),
{
    let q = perm.update(a, perm[b]).update(b, perm[a]);
    assert forall|k: int| 0 <= k < n implies #[trigger] takes_value(q, n, k) by {
        assert(takes_value(perm, n, k));
        let w = choose|i: int| 0 <= i < n && perm[i] == k;
        if w == a {
            assert(q[b] == k);
        } else if w == b {
            assert(q[a] == k);
        } else {
            assert(q[w] == k);
        }
    }
    assert forall|i: int, j: int| 0 <= i < j < n implies q[i] != q[j] by {
        if i == a || i == b || j == a || j == b {
            assert(perm[i] != perm[j] || i == j);
        }
    }
}

/// The identity arrangement of `0..n` is a permutation.
proof fn lemma_identity_permutation(n: int)
    requires
        0 <= n,
    ensures
        is_permutation(Seq::new(n as nat, |k: int| k), n),
{
    let id = Seq::new(n as nat, |k: int| k);
    assert forall|k: int| 0 <= k < n implies #[trigger] takes_value(id, n, k) by {
        assert(id[k] == k);
    }
}

/// `output` is `input` rearranged by `perm` (its `i`-th item is the
/// `perm[i]`-th of `input`), sorted by `order`'s key, and items of equal
/// key keep the order they had in `input`.
pub open spec fn stable_sort_by(
    order: SortOrder,
    input: Seq<Video>,
    output: Seq<Video>,
    perm: Seq<int>,
) -> bool {
    &&& output.len() == input.len()
    &&& is_permutation(perm, input.len() as int)
    &&& forall|i: int| 0 <= i < output.len() ==> #[trigger] output[i] == input[perm[i]]
    &&& forall|i: int, j: int|
        0 <= i < j < output.len() ==> sort_key(order, #[trigger] output[i]) <= sort_key(
            order,
            #[trigger] output[j],
        )
    &&& forall|i: int, j: int|
        0 <= i < j < output.len() && sort_key(order, #[trigger] output[i]) == sort_key(
            order,
            #[trigger] output[j],
        ) ==> perm[i] < perm[j]
}

/// `output` is the stable sort of `input` by `order`.
pub open spec fn stably_sorted(order: SortOrder, input: Seq<Video>, output: Seq<Video>) -> bool {
    exists|perm: Seq<int>| stable_sort_by(order, input, output, perm)
}

/// The key by which `order` sorts `v`.
pub fn sort_key_of(order: &SortOrder, v: &Video) -> (k: i128)
    ensures
        k == sort_key(*order, *v),
{
    match order {
        SortOrder::Default => 0,
        SortOrder::ViewsDesc => match v.view_count {
            Some(n) => -(n as i128 + 1),
            None => 0,
        },
        SortOrder::ViewsAsc => match v.view_count {
            Some(n) => n as i128 + 1,
            None => 0,
        },
        SortOrder::DurationDesc => match v.duration {
            Some(len) => -(len.rank as i128),
            None => -(ZERO_SECS_RANK as i128),
        },
        SortOrder::DurationAsc => match v.duration {
            Some(len) => len.rank as i128,
            None => MAX_SECS_RANK as i128,
        },
    }
}

/// Swaps the item at `j` with the one before it.
fn swap_with_previous<T>(s: &mut [T], j: usize)
    requires
        0 < j < old(s)@.len(),
    ensures
        final(s)@ == old(s)@.update(j - 1, old(s)@[j as int]).update(j as int, old(s)@[j - 1]),
{
    let (left, right) = s.split_at_mut(j);
    let a = left.last_mut().unwrap();
    let b = right.first_mut().unwrap();
    core::mem::swap(a, b);
}

/// Sorts `videos` by `order`, stably: items of equal key keep their
/// relative order, and `SortOrder::Default` leaves the list as it is.
pub fn sort_videos(videos: &mut [Video], order: &SortOrder)
    ensures
        stably_sorted(*order, old(videos)@, final(videos)@),
        *order == SortOrder::Default ==> final(videos)@ == old(videos)@,
{
    let ghost input = videos@;
    let ghost mut perm: Seq<int> = Seq::new(input.len(), |k: int| k);
    proof {
        lemma_identity_permutation(input.len() as int);
    }
    if let SortOrder::Default = order {
        assert(stable_sort_by(*order, input, videos@, perm));
        return;
    }
    let n = videos.len();
    let mut i: usize = 1;
    if n == 0 {
        assert(stable_sort_by(*order, input, videos@, perm));
        return;
    }
    while i < n
        invariant
            1 <= i <= n,
            n == videos@.len(),
            input.len() == n,
            is_permutation(perm, n as int),
            forall|k: int| 0 <= k < n ==> #[trigger] videos@[k] == input[perm[k]],
            forall|k: int| i <= k < n ==> #[trigger] perm[k] == k,
            forall|k: int| 0 <= k < i ==> #[trigger] perm[k] < i,
            forall|a: int, b: int|
                0 <= a < b < i ==> sort_key(*order, #[trigger] videos@[a]) <= sort_key(
                    *order,
                    #[trigger] videos@[b],
                ),
            forall|a: int, b: int|
                0 <= a < b < i && sort_key(*order, #[trigger] videos@[a]) == sort_key(
                    *order,
                    #[trigger] videos@[b],
                ) ==> perm[a] < perm[b],
        decreases n - i,
    {
        let mut j: usize = i;
        while j > 0 && sort_key_of(order, &videos[j - 1]) > sort_key_of(order, &videos[j])
            invariant
                0 <= j <= i < n,
                n == videos@.len(),
                input.len() == n,
                is_permutation(perm, n as int),
                forall|k: int| 0 <= k < n ==> #[trigger] videos@[k] == input[perm[k]],
                forall|k: int| i < k < n ==> #[trigger] perm[k] == k,
                forall|k: int| 0 <= k <= i && k != j ==> #[trigger] perm[k] < i,
                perm[j as int] == i,
                forall|a: int, b: int|
                    0 <= a < b <= i && a != j && b != j ==> sort_key(
                        *order,
                        #[trigger] videos@[a],
                    ) <= sort_key(*order, #[trigger] videos@[b]),
                forall|b: int|
                    j < b <= i ==> sort_key(*order, #[trigger] videos@[b]) > sort_key(
                        *order,
                        videos@[j as int],
                    ),
                forall|a: int, b: int|
                    0 <= a < b <= i && a != j && b != j && sort_key(
                        *order,
                        #[trigger] videos@[a],
                    ) == sort_key(*order, #[trigger] videos@[b]) ==> perm[a] < perm[b],
            decreases j,
        {
            swap_with_previous(videos, j);
            proof {
                lemma_swap_permutation(perm, n as int, j - 1, j as int);
                perm = perm.update(j - 1, perm[j as int]).update(j as int, perm[j - 1]);
            }
            j = j - 1;
        }
        proof {
            assert forall|a: int, b: int|
                0 <= a < b <= i implies sort_key(*order, #[trigger] videos@[a]) <= sort_key(
                *order,
                #[trigger] videos@[b],
            ) by {
                if a == j && j > 0 && b != j {
                    assert(sort_key(*order, videos@[j - 1]) <= sort_key(*order, videos@[a]));
                } else if b == j && a < j - 1 {
                    assert(sort_key(*order, videos@[a]) <= sort_key(*order, videos@[j - 1]));
                }
            }
            assert forall|a: int, b: int|
                0 <= a < b <= i && sort_key(*order, #[trigger] videos@[a]) == sort_key(
                    *order,
                    #[trigger] videos@[b],
                ) implies perm[a] < perm[b] by {
                if b == j {
                    assert(perm[a] < i);
                } else if a == j {
                    assert(sort_key(*order, videos@[b]) > sort_key(*order, videos@[j as int]));
                }
            }
        }
        i = i + 1;
    }
    assert(stable_sort_by(*order, input, videos@, perm));
}

} // verus!
