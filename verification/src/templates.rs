//! Texts with gaps: `${years_ago}` and `${slot}` in the hooks of a backstory.

use vstd::prelude::*;
use crate::content::SlotPool;
use crate::random::{random_between, random_index};
use crate::text::{chars, decimal, int_text, piece, same, texts};

verus! {

/// Where the first closing brace stands, from place `k` on.
pub open spec fn brace_from(s: Seq<char>, k: int) -> Option<int>
    decreases s.len() - k,
{
    if k >= s.len() {
        None
    } else if s[k] == '}' {
        Some(k)
    } else {
        brace_from(s, k + 1)
    }
}

/// Whether a gap begins at place `k`.
pub open spec fn opens(s: Seq<char>, k: int) -> bool {
    &&& 0 <= k
    &&& k + 1 < s.len()
    &&& s[k] == '$'
    &&& s[k + 1] == '{'
}

/// Where stands, among the first `n` pools, the one for the slot.
pub open spec fn pool_among(pools: Seq<SlotPool>, slot: Seq<char>, n: nat) -> Option<int>
    decreases n,
{
    if n == 0 {
        None
    } else if pools[n - 1].slot@ == slot {
        Some(n - 1)
    } else {
        pool_among(pools, slot, (n - 1) as nat)
    }
}

/// What can stand in the slot: nothing where there is no pool for it.
pub open spec fn pool_of(pools: Seq<SlotPool>, slot: Seq<char>) -> Seq<Seq<char>> {
    match pool_among(pools, slot, pools.len()) {
        Some(k) => texts(pools[k].values@),
        None => Seq::empty(),
    }
}

/// Whether something is drawn for the slot.
pub open spec fn draws_for(pools: Seq<SlotPool>, slot: Seq<char>) -> bool {
    slot == "years_ago"@ || pool_of(pools, slot).len() > 0
}

/// Whether this can be drawn for the slot: 1 to 50 years, or a place in its pool.
pub open spec fn draw_fits(pools: Seq<SlotPool>, slot: Seq<char>, draw: usize) -> bool {
    if slot == "years_ago"@ {
        1 <= draw <= 50
    } else {
        0 <= draw < pool_of(pools, slot).len()
    }
}

/// What stands in the slot for the draw.
pub open spec fn slot_text(pools: Seq<SlotPool>, slot: Seq<char>, draw: usize) -> Seq<char> {
    if slot == "years_ago"@ {
        int_text(draw as int)
    } else {
        pool_of(pools, slot)[draw as int]
    }
}

/// The text from place `k` on with its gaps filled, each by the next draw. A gap for which
/// there is nothing stays as it is, and so does what is no gap or does not end.
pub open spec fn filled(s: Seq<char>, k: int, pools: Seq<SlotPool>, draws: Seq<usize>) -> Seq<char>
    decreases s.len() - k,
{
    if k < 0 || k >= s.len() {
        Seq::empty()
    } else if !opens(s, k) {
        seq![s[k]] + filled(s, k + 1, pools, draws)
    } else {
        match brace_from(s, k + 2) {
            None => s.skip(k),
            Some(e) => if e < k + 2 || e >= s.len() {
                Seq::empty()
            } else {
                let slot = s.subrange(k + 2, e);
                if draws_for(pools, slot) {
                    slot_text(pools, slot, draws[0]) + filled(s, e + 1, pools, draws.skip(1))
                } else {
                    s.subrange(k, e + 1) + filled(s, e + 1, pools, draws)
                }
            },
        }
    }
}

/// Whether these are draws for the gaps from place `k` on, neither more nor fewer.
pub open spec fn draws_fit(s: Seq<char>, k: int, pools: Seq<SlotPool>, draws: Seq<usize>) -> bool
    decreases s.len() - k,
{
    if k < 0 || k >= s.len() {
        draws.len() == 0
    } else if !opens(s, k) {
        draws_fit(s, k + 1, pools, draws)
    } else {
        match brace_from(s, k + 2) {
            None => draws.len() == 0,
            Some(e) => if e < k + 2 || e >= s.len() {
                draws.len() == 0
            } else {
                let slot = s.subrange(k + 2, e);
                if draws_for(pools, slot) {
                    &&& draws.len() > 0
                    &&& draw_fits(pools, slot, draws[0])
                    &&& draws_fit(s, e + 1, pools, draws.skip(1))
                } else {
                    draws_fit(s, e + 1, pools, draws)
                }
            },
        }
    }
}

fn find_brace(s: &Vec<char>, from: usize) -> (r: Option<usize>)
    requires
        from <= s.len(),
    ensures
        match r {
            Some(e) => brace_from(s@, from as int) == Some(e as int) && from <= e < s.len(),
            None => brace_from(s@, from as int) is None,
        },
{
    let mut k: usize = from;
    while k < s.len()
        invariant
            from <= k <= s.len(),
            brace_from(s@, from as int) == brace_from(s@, k as int),
        decreases s.len() - k,
    {
        if s[k] == '}' {
            return Some(k);
        }
        k = k + 1;
    }
    None
}

fn find_pool(pools: &Vec<SlotPool>, slot: &str) -> (r: Option<usize>)
    ensures
        match r {
            Some(k) => pool_among(pools@, slot@, pools@.len()) == Some(k as int) && k < pools.len(),
            None => pool_among(pools@, slot@, pools@.len()) is None,
        },
{
    let mut i: usize = pools.len();
    while i > 0
        invariant
            i <= pools.len(),
            pool_among(pools@, slot@, pools@.len()) == pool_among(pools@, slot@, i as nat),
        decreases i,
    {
        if same(pools[i - 1].slot.as_str(), slot) {
            return Some(i - 1);
        }
        i = i - 1;
    }
    None
}

/// The template with its gaps filled by the draws.
pub fn substitute_with(template: &str, pools: &Vec<SlotPool>, draws: &Vec<usize>) -> (r: String)
    requires
        draws_fit(template@, 0, pools@, draws@),
    ensures
        r@ == filled(template@, 0, pools@, draws@),
{
    let s = chars(template);
    let ghost whole = filled(template@, 0, pools@, draws@);
    let mut out = String::new();
    let mut k: usize = 0;
    let mut d: usize = 0;
    assert(draws@.skip(0) =~= draws@);
    assert(out@ + whole =~= whole);
    while k < s.len()
        invariant
            k <= s.len(),
            d <= draws.len(),
            s@ == template@,
            whole == filled(template@, 0, pools@, draws@),
            whole == out@ + filled(s@, k as int, pools@, draws@.skip(d as int)),
            draws_fit(s@, k as int, pools@, draws@.skip(d as int)),
        decreases s.len() - k,
    {
        let ghost b4 = out@;
        let gap = s[k] == '$' && k + 1 < s.len() && s[k + 1] == '{';
        assert(gap == opens(s@, k as int));
        if !gap {
            out.push(s[k]);
            assert(whole =~= out@ + filled(s@, k + 1, pools@, draws@.skip(d as int)));
            k = k + 1;
        } else {
            match find_brace(&s, k + 2) {
                None => {
                    out.append(piece(&s, k, s.len()).as_str());
                    assert(s@.subrange(k as int, s@.len() as int) =~= s@.skip(k as int));
                    k = s.len();
                    assert(whole =~= out@ + filled(s@, k as int, pools@, draws@.skip(d as int)));
                },
                Some(e) => {
                    let slot = piece(&s, k + 2, e);
                    let ghost rest = draws@.skip(d as int);
                    let years = same(slot.as_str(), "years_ago");
                    let pool = find_pool(pools, slot.as_str());
                    let full = match pool {
                        Some(j) => pools[j].values.len() > 0,
                        None => false,
                    };
                    assert((years || full) == draws_for(pools@, slot@));
                    if years || full {
                        let x: usize = draws[d];
                        assert(rest[0] == x);
                        assert(rest.skip(1) =~= draws@.skip(d + 1));
                        if years {
                            out.append(decimal(x as i64).as_str());
                        } else if let Some(j) = pool {
                            out.append(pools[j].values[x].as_str());
                        }
                        d = d + 1;
                        assert(whole =~= out@ + filled(s@, e + 1, pools@, draws@.skip(d as int)));
                    } else {
                        out.append(piece(&s, k, e + 1).as_str());
                        assert(whole =~= out@ + filled(s@, e + 1, pools@, draws@.skip(d as int)));
                    }
                    k = e + 1;
                },
            }
        }
    }
    assert(out@ =~= whole);
    out
}

/// Draws for the gaps of the template.
pub(crate) fn draw_slots(template: &str, pools: &Vec<SlotPool>) -> (r: Vec<usize>)
    ensures
        draws_fit(template@, 0, pools@, r@),
{
    let s = chars(template);
    let mut draws: Vec<usize> = Vec::new();
    let mut k: usize = 0;
    assert forall|rest: Seq<usize>| draws_fit(s@, 0, pools@, rest) implies #[trigger] draws_fit(
        s@,
        0,
        pools@,
        draws@ + rest,
    ) by {
        assert(draws@ + rest =~= rest);
    }
    while k < s.len()
        invariant
            k <= s.len(),
            s@ == template@,
            forall|rest: Seq<usize>|
                draws_fit(s@, k as int, pools@, rest) ==> #[trigger] draws_fit(
                    s@,
                    0,
                    pools@,
                    draws@ + rest,
                ),
        decreases s.len() - k,
    {
        let ghost b4 = draws@;
        let gap = s[k] == '$' && k + 1 < s.len() && s[k + 1] == '{';
        assert(gap == opens(s@, k as int));
        if !gap {
            k = k + 1;
        } else {
            match find_brace(&s, k + 2) {
                None => {
                    k = s.len();
                },
                Some(e) => {
                    let slot = piece(&s, k + 2, e);
                    let mut draw: Option<usize> = None;
                    if same(slot.as_str(), "years_ago") {
                        draw = Some(random_between(1, 50) as usize);
                    } else if let Some(j) = find_pool(pools, slot.as_str()) {
                        let n: usize = pools[j].values.len();
                        if n > 0 {
                            draw = Some(random_index(n));
                        }
                    }
                    assert(draw is Some == draws_for(pools@, slot@));
                    if let Some(x) = draw {
                        draws.push(x);
                    }
                    proof {
                        assert forall|rest: Seq<usize>| draws_fit(s@, e + 1, pools@, rest) implies #[trigger] draws_fit(
                            s@,
                            0,
                            pools@,
                            draws@ + rest,
                        ) by {
                            if draw is Some {
                                let more = seq![draw->0] + rest;
                                assert(more.skip(1) =~= rest);
                                assert(draws_fit(s@, k as int, pools@, more));
                                assert(b4 + more =~= draws@ + rest);
                            } else {
                                assert(draws_fit(s@, k as int, pools@, rest));
                            }
                        }
                    }
                    k = e + 1;
                },
            }
        }
    }
    proof {
        let none = Seq::<usize>::empty();
        assert(draws_fit(s@, k as int, pools@, none));
        assert(draws@ + none =~= draws@);
    }
    draws
}

/// A text without a gap stays as it is.
pub proof fn law_no_gap_no_change(s: Seq<char>, k: int, pools: Seq<SlotPool>, draws: Seq<usize>)
    requires
        0 <= k <= s.len(),
        forall|i: int| k <= i < s.len() ==> !#[trigger] opens(s, i),
    ensures
        filled(s, k, pools, draws) == s.skip(k),
    decreases s.len() - k,
{
    if k < s.len() {
        assert(!opens(s, k));
        law_no_gap_no_change(s, k + 1, pools, draws);
        assert(seq![s[k]] + s.skip(k + 1) =~= s.skip(k));
    } else {
        assert(s.skip(k) =~= Seq::empty());
    }
}

/// The first gap from place `k` on for which there is nothing.
pub open spec fn uncovered(s: Seq<char>, k: int, pools: Seq<SlotPool>) -> Option<Seq<char>>
    decreases s.len() - k,
{
    if k < 0 || k >= s.len() {
        None
    } else if !opens(s, k) {
        uncovered(s, k + 1, pools)
    } else {
        match brace_from(s, k + 2) {
            None => None,
            Some(e) => if e < k + 2 || e >= s.len() {
                None
            } else {
                let slot = s.subrange(k + 2, e);
                if draws_for(pools, slot) {
                    uncovered(s, e + 1, pools)
                } else {
                    Some(slot)
                }
            },
        }
    }
}

/// The first gap of the template for which there is nothing.
pub(crate) fn find_uncovered(template: &str, pools: &Vec<SlotPool>) -> (r: Option<String>)
    ensures
        match r {
            Some(slot) => uncovered(template@, 0, pools@) == Some(slot@),
            None => uncovered(template@, 0, pools@) is None,
        },
{
    let s = chars(template);
    let mut k: usize = 0;
    while k < s.len()
        invariant
            k <= s.len(),
            s@ == template@,
            uncovered(template@, 0, pools@) == uncovered(s@, k as int, pools@),
        decreases s.len() - k,
    {
        let gap = s[k] == '$' && k + 1 < s.len() && s[k + 1] == '{';
        assert(gap == opens(s@, k as int));
        if !gap {
            k = k + 1;
        } else {
            match find_brace(&s, k + 2) {
                None => {
                    return None;
                },
                Some(e) => {
                    let slot = piece(&s, k + 2, e);
                    let mut there = same(slot.as_str(), "years_ago");
                    if let Some(j) = find_pool(pools, slot.as_str()) {
                        if pools[j].values.len() > 0 {
                            there = true;
                        }
                    }
                    assert(there == draws_for(pools@, slot@));
                    if !there {
                        return Some(slot);
                    }
                    k = e + 1;
                },
            }
        }
    }
    None
}

} // verus!
