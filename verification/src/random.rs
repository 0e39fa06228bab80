//! Chance: drawing numbers, and shuffling by numbers that have been drawn.

use vstd::prelude::*;
use rand::RngExt;

verus! {

/// `rand::rng().random_range(lo..=hi)`: some number from `lo` to `hi`, both included.
/// Which one is up to chance.
#[verifier::external_body]
fn random_range(lo: i128, hi: i128) -> (r: i128)
    requires
        lo <= hi,
    ensures
        lo <= r <= hi,
{
    rand::rng().random_range(lo..=hi)
}

/// Some number from `lo` to `hi`.
pub(crate) fn random_between(lo: i64, hi: i64) -> (r: i64)
    requires
        lo <= hi,
    ensures
        lo <= r <= hi,
{
    random_range(lo as i128, hi as i128) as i64
}

/// Some place in a list of `n` things.
pub(crate) fn random_index(n: usize) -> (r: usize)
    requires
        n > 0,
    ensures
        r < n,
{
    random_range(0, n as i128 - 1) as usize
}

/// The sequence with two places exchanged.
pub open spec fn swapped<T>(s: Seq<T>, i: int, j: int) -> Seq<T> {
    s.update(i, s[j]).update(j, s[i])
}

/// The sequence after as many exchanges as there are draws: the last place with the first
/// draw, the one before it with the second, and so on.
pub open spec fn shuffled<T>(s: Seq<T>, draws: Seq<usize>) -> Seq<T>
    decreases draws.len(),
{
    if draws.len() == 0 {
        s
    } else {
        swapped(
            shuffled(s, draws.drop_last()),
            s.len() - draws.len(),
            draws.last() as int,
        )
    }
}

/// Whether these are draws by which `n` things are shuffled: one for each place but the
/// first, from the last place down, and none beyond its place.
pub open spec fn draws_ok(n: int, draws: Seq<usize>) -> bool {
    &&& draws.len() == n - 1
    &&& forall|k: int| 0 <= k < draws.len() ==> 0 <= #[trigger] draws[k] <= n - 1 - k
}

proof fn lemma_swapped<T>(s: Seq<T>, i: int, j: int)
    requires
        0 <= i < s.len(),
        0 <= j < s.len(),
        s.no_duplicates(),
    ensures
        swapped(s, i, j).no_duplicates(),
        forall|x: T| s.contains(x) == #[trigger] swapped(s, i, j).contains(x),
{
    let t = swapped(s, i, j);
    assert forall|x: T| s.contains(x) == #[trigger] t.contains(x) by {
        if s.contains(x) {
            let k = choose|k: int| 0 <= k < s.len() && s[k] == x;
            if k == i {
                assert(t[j] == x);
            } else if k == j {
                assert(t[i] == x);
            } else {
                assert(t[k] == x);
            }
        }
        if t.contains(x) {
            let k = choose|k: int| 0 <= k < t.len() && t[k] == x;
            if k == i && k != j {
                assert(s[j] == x);
            } else if k == j {
                assert(s[i] == x);
            } else {
                assert(s[k] == x);
            }
        }
    }
}

/// Shuffling loses nothing, adds nothing and doubles nothing.
pub proof fn law_shuffling_keeps_all<T>(s: Seq<T>, draws: Seq<usize>)
    requires
        s.no_duplicates(),
        draws.len() <= s.len(),
        forall|k: int| 0 <= k < draws.len() ==> 0 <= #[trigger] draws[k] < s.len(),
    ensures
        shuffled(s, draws).len() == s.len(),
        shuffled(s, draws).no_duplicates(),
        forall|x: T| s.contains(x) == #[trigger] shuffled(s, draws).contains(x),
    decreases draws.len(),
{
    if draws.len() > 0 {
        let rest = draws.drop_last();
        assert forall|k: int| 0 <= k < rest.len() implies 0 <= #[trigger] rest[k] < s.len() by {
            assert(rest[k] == draws[k]);
        }
        law_shuffling_keeps_all(s, rest);
        assert(draws.last() == draws[draws.len() - 1]);
        lemma_swapped(shuffled(s, rest), s.len() - draws.len(), draws.last() as int);
    }
}

/// Shuffles by the draws.
pub(crate) fn shuffle<T: Copy>(v: &mut Vec<T>, draws: &Vec<usize>)
    requires
        draws_ok(old(v)@.len() as int, draws@),
    ensures
        final(v)@ == shuffled(old(v)@, draws@),
        final(v)@.len() == old(v)@.len(),
{
    let ghost s = v@;
    let n: usize = v.len();
    let mut k: usize = 0;
    assert(shuffled(s, draws@.take(0)) == s);
    while k < draws.len()
        invariant
            k <= draws.len(),
            n == s.len(),
            v@ == shuffled(s, draws@.take(k as int)),
            v@.len() == n,
            draws_ok(n as int, draws@),
        decreases draws.len() - k,
    {
        let i: usize = n - 1 - k;
        let j: usize = draws[k];
        let ghost b4 = v@;
        let x = v[i];
        let y = v[j];
        v.set(i, y);
        v.set(j, x);
        proof {
            let d = draws@.take(k + 1);
            assert(d.drop_last() =~= draws@.take(k as int));
            assert(d.last() == j);
            assert(v@ =~= swapped(b4, i as int, j as int));
        }
        k = k + 1;
    }
    assert(draws@.take(k as int) =~= draws@);
}

/// Draws what it takes to shuffle `n` things.
pub(crate) fn draw_shuffle(n: usize) -> (r: Vec<usize>)
    requires
        1 <= n,
    ensures
        draws_ok(n as int, r@),
{
    let mut draws: Vec<usize> = Vec::new();
    let mut k: usize = 0;
    while k < n - 1
        invariant
            1 <= n,
            k <= n - 1,
            draws.len() == k,
            forall|j: int| 0 <= j < k ==> 0 <= #[trigger] draws@[j] <= n - 1 - j,
        decreases n - k,
    {
        let i: usize = n - 1 - k;
        let j: usize = random_range(0, i as i128) as usize;
        draws.push(j);
        k = k + 1;
    }
    draws
}

} // verus!
