//! Rankings by count: the message leaderboard and the tracked-word count.
use vstd::prelude::*;
use crate::text::{decimal_digits, push_decimal, push_str};

verus! {

/// How many entries a ranking shows.
pub const RANKING_SIZE: usize = 25;

/// Entry `a` comes before entry `b`: a higher count first, equal counts in their input
/// order (the order of a stable sort by descending count).
pub open spec fn ranks_before(counts: Seq<i64>, a: int, b: int) -> bool {
    counts[a] > counts[b] || (counts[a] == counts[b] && a < b)
}

/// `r` lists the first `min(limit, counts.len())` entries of the stable sort of `counts` by
/// descending count, by their indices: each is an entry, each comes before the next, and
/// each comes before every entry left out.
pub open spec fn is_top_ranking(counts: Seq<i64>, limit: nat, r: Seq<usize>) -> bool {
    &&& r.len() == if counts.len() < limit {
        counts.len()
    } else {
        limit
    }
    &&& forall|i: int| 0 <= i < r.len() ==> (#[trigger] r[i]) < counts.len()
    &&& forall|i: int, j: int|
        0 <= i < j < r.len() ==> ranks_before(counts, #[trigger] r[i] as int, #[trigger] r[j] as int)
    &&& forall|i: int, k: int|
        #![trigger r[i], counts[k]]
        0 <= i < r.len() && 0 <= k < counts.len() && !r.contains(k as usize) ==> ranks_before(
            counts,
            r[i] as int,
            k,
        )
}

/// The entry that comes first among those not yet taken.
fn best_remaining(counts: &Vec<i64>, taken: &Vec<bool>) -> (best: usize)
    requires
        taken@.len() == counts@.len(),
        exists|k: int| 0 <= k < taken@.len() && !taken@[k],
    ensures
        best < counts@.len(),
        !taken@[best as int],
        forall|k: int|
            0 <= k < counts@.len() && !taken@[k] && k != best ==> ranks_before(
                counts@,
                best as int,
                k,
            ),
{
    let n = counts.len();
    let mut best: usize = 0;
    let mut found = false;
    let mut k: usize = 0;
    while k < n
        invariant
            n == counts@.len() == taken@.len(),
            k <= n,
            found ==> best < k && !taken@[best as int],
            !found ==> forall|j: int| 0 <= j < k ==> taken@[j],
            found ==> forall|j: int|
                0 <= j < k && !taken@[j] && j != best ==> ranks_before(counts@, best as int, j),
        decreases n - k,
    {
        if !taken[k] {
            if !found || counts[k] > counts[best] {
                best = k;
                found = true;
            }
        }
        k += 1;
    }
    best
}

/// The indices of the first `limit` entries of `counts` sorted by descending count, equal
/// counts keeping their order (`sort_by` on the count, then `truncate`).
pub fn top_ranking(counts: &Vec<i64>, limit: usize) -> (r: Vec<usize>)
    ensures
        is_top_ranking(counts@, limit as nat, r@),
{
    let n = counts.len();
    let mut taken: Vec<bool> = Vec::new();
    let mut i: usize = 0;
    while i < n
        invariant
            n == counts@.len(),
            i <= n,
            taken@.len() == i,
            forall|j: int| 0 <= j < i ==> !taken@[j],
        decreases n - i,
    {
        taken.push(false);
        i += 1;
    }
    let mut r: Vec<usize> = Vec::new();
    while r.len() < limit && r.len() < n
        invariant
            n == counts@.len() == taken@.len(),
            r@.len() <= n,
            r@.len() <= limit,
            forall|k: int| 0 <= k < n ==> (taken@[k] <==> r@.contains(k as usize)),
            forall|i: int| 0 <= i < r@.len() ==> (#[trigger] r@[i]) < n,
            forall|i: int, j: int|
                0 <= i < j < r@.len() ==> ranks_before(
                    counts@,
                    #[trigger] r@[i] as int,
                    #[trigger] r@[j] as int,
                ),
            forall|i: int, k: int|
                #![trigger r@[i], taken@[k]]
                0 <= i < r@.len() && 0 <= k < n && !taken@[k] ==> ranks_before(
                    counts@,
                    r@[i] as int,
                    k,
                ),
            forall|i: int, j: int| 0 <= i < j < r@.len() ==> r@[i] != r@[j],
        decreases n - r@.len(),
    {
        proof {
            if forall|k: int| 0 <= k < n ==> taken@[k] {
                assert forall|k: usize| k < n implies #[trigger] r@.contains(k) by {
                    assert(taken@[k as int]);
                }
                lemma_all_taken(r@, n);
            }
        }
        let best = best_remaining(counts, &taken);
        let ghost old_r = r@;
        let ghost old_taken = taken@;
        r.push(best);
        taken.set(best, true);
        proof {
            assert forall|k: int| 0 <= k < n implies (taken@[k] <==> r@.contains(k as usize)) by {
                if k == best {
                    assert(r@[old_r.len() as int] == best);
                } else {
                    if r@.contains(k as usize) {
                        let w = choose|w: int| 0 <= w < r@.len() && r@[w] == k as usize;
                        assert(w < old_r.len());
                        assert(old_r[w] == k as usize);
                    }
                    if old_r.contains(k as usize) {
                        let w = choose|w: int| 0 <= w < old_r.len() && old_r[w] == k as usize;
                        assert(r@[w] == k as usize);
                    }
                }
            }
            assert forall|i: int, j: int| 0 <= i < j < r@.len() implies ranks_before(
                counts@,
                #[trigger] r@[i] as int,
                #[trigger] r@[j] as int,
            ) by {
                if j == old_r.len() {
                    assert(r@[i] == old_r[i]);
                    assert(!old_taken[best as int]);
                } else {
                    assert(r@[i] == old_r[i] && r@[j] == old_r[j]);
                }
            }
            assert forall|i: int, k: int|
                #![trigger r@[i], taken@[k]]
                0 <= i < r@.len() && 0 <= k < n && !taken@[k] implies ranks_before(
                counts@,
                r@[i] as int,
                k,
            ) by {
                if i < old_r.len() {
                    assert(r@[i] == old_r[i]);
                    assert(!old_taken[k]);
                }
            }
            assert forall|i: int, j: int| 0 <= i < j < r@.len() implies r@[i] != r@[j] by {
                if j == old_r.len() {
                    assert(r@[i] == old_r[i]);
                    assert(old_r.contains(old_r[i]));
                    assert(old_taken[old_r[i] as int]);
                } else {
                    assert(r@[i] == old_r[i] && r@[j] == old_r[j]);
                }
            }
        }
    }
    proof {
        assert forall|i: int, k: int|
            #![trigger r@[i], counts@[k]]
            0 <= i < r@.len() && 0 <= k < n && !r@.contains(k as usize) implies ranks_before(
            counts@,
            r@[i] as int,
            k,
        ) by {
            assert(!taken@[k]);
        }
    }
    r
}

/// When every entry is taken, the ranking already lists every entry.
proof fn lemma_all_taken(r: Seq<usize>, n: usize)
    requires
        forall|k: usize| k < n ==> #[trigger] r.contains(k),
        forall|i: int| 0 <= i < r.len() ==> (#[trigger] r[i]) < n,
        forall|i: int, j: int| 0 <= i < j < r.len() ==> r[i] != r[j],
    ensures
        r.len() >= n,
{
    let s = Set::<usize>::range(0usize, n);
    vstd::set_lib::range_set_properties::<usize>(0usize, n);
    assert(r.to_set() =~= s) by {
        assert forall|k: usize| r.to_set().contains(k) <==> s.contains(k) by {
            if k < n {
                assert(r.contains(k));
            }
        }
    }
    assert(r.no_duplicates()) by {
        assert forall|i: int, j: int| 0 <= i < r.len() && 0 <= j < r.len() && i != j implies r[i]
            != r[j] by {
            if i > j {
                assert(r[j] != r[i]);
            }
        }
    }
    r.unique_seq_to_set();
}

/// The field name of the entry at position `index` of a ranking: `#{index + 1} {name}`.
pub fn rank_field_name(index: usize, name: &str) -> (s: String)
    requires
        index < u64::MAX,
    ensures
        s@ == seq!['#'] + decimal_digits((index + 1) as nat) + seq![' '] + name@,
{
    let mut s = String::new();
    push_str(&mut s, "#");
    push_decimal(&mut s, index as u64 + 1);
    push_str(&mut s, " ");
    push_str(&mut s, name);
    proof {
        reveal_strlit("#");
        reveal_strlit(" ");
    }
    assert(s@ =~= seq!['#'] + decimal_digits((index + 1) as nat) + seq![' '] + name@);
    s
}

/// The title of the message leaderboard of `n` users.
pub fn leaderboard_title(n: usize) -> (s: String)
    ensures
        s@ == "Top "@ + decimal_digits(n as nat) + " users by message count"@,
{
    let mut s = String::new();
    push_str(&mut s, "Top ");
    push_decimal(&mut s, n as u64);
    push_str(&mut s, " users by message count");
    assert(s@ =~= "Top "@ + decimal_digits(n as nat) + " users by message count"@);
    s
}

/// The title of the count of `n` tracked words.
pub fn word_count_title(n: usize) -> (s: String)
    ensures
        s@ == "Top "@ + decimal_digits(n as nat) + " word tracked by count"@,
{
    let mut s = String::new();
    push_str(&mut s, "Top ");
    push_decimal(&mut s, n as u64);
    push_str(&mut s, " word tracked by count");
    assert(s@ =~= "Top "@ + decimal_digits(n as nat) + " word tracked by count"@);
    s
}

} // verus!
