//! Dice notation: `d20`, `3d6`, and inclusive ranges such as `11-43`.

use vstd::prelude::*;
use crate::error::Error;
use crate::random::random_between;
use crate::text::{
    chars, decimal, digits_value, find_number_fault, i32_value, int_text, int_value, is_digit, is_space,
    law_decimal_stands_for_number, lemma_nothing_to_trim, lemma_trimmed, lower, number_fault, parse_i32,
    parse_u32, to_lower, trim, trim_end, trim_start, trimmed, u32_value,
};

verus! {

/// The most dice that one roll takes.
pub const MAX_DICE_COUNT: u32 = 100;

/// The most sides that a die has.
pub const MAX_DIE_SIDES: u32 = 10_000;

/// What is rolled.
#[derive(Debug, Clone, Copy, PartialEq, Eq, Structural)]
pub enum DiceSpec {
    /// So many dice of so many sides.
    Dice { count: u32, sides: u32 },
    /// Some number from `min` to `max`, both included.
    Range { min: i32, max: i32 },
}

/// What a roll came to: each die, and their sum.
#[derive(Debug, Clone, PartialEq, Eq)]
pub struct RollResult {
    pub spec: String,
    pub total: i64,
    pub rolls: Vec<i64>,
}

/// Whether the text has a `d`, small or capital.
pub open spec fn has_d(s: Seq<char>) -> bool {
    exists|i: int| 0 <= i < s.len() && (#[trigger] s[i] == 'd' || s[i] == 'D')
}

/// The place of the first `d`, small or capital, from place `k` on.
pub open spec fn first_d(s: Seq<char>, k: int) -> Option<int>
    decreases s.len() - k,
{
    if k >= s.len() {
        None
    } else if s[k] == 'd' || s[k] == 'D' {
        Some(k)
    } else {
        first_d(s, k + 1)
    }
}

/// The two numbers of a range, split at the last `-` before place `n` with a number on
/// either side of it.
pub open spec fn range_before(s: Seq<char>, n: int) -> Option<(i32, i32)>
    decreases n,
{
    if n <= 1 {
        None
    } else if s[n - 1] == '-' && i32_value(s.take(n - 1)) is Some && i32_value(s.skip(n)) is Some {
        Some((i32_value(s.take(n - 1))->0, i32_value(s.skip(n))->0))
    } else {
        range_before(s, n - 1)
    }
}

/// What the text says as a range, where it is one.
pub open spec fn range_of(s: Seq<char>) -> Option<(i32, i32)> {
    if has_d(s) {
        None
    } else {
        range_before(s, s.len() as int)
    }
}

/// What the trimmed text `s` of `spec` says as dice.
pub open spec fn dice_of(spec: Seq<char>, s: Seq<char>) -> Result<DiceSpec, Error<Seq<char>>> {
    match first_d(s, 0) {
        None => Err(Error::NotDice { spec }),
        Some(k) => {
            let count = if k == 0 {
                Some(1u32)
            } else {
                u32_value(s.take(k))
            };
            let sides = u32_value(s.skip(k + 1));
            if count is None {
                Err(
                    Error::DiceCount {
                        spec,
                        count: lower(s.take(k)),
                        fault: number_fault(s.take(k), 0, u32::MAX as int),
                    },
                )
            } else if sides is None {
                Err(
                    Error::DiceSides {
                        spec,
                        sides: lower(s.skip(k + 1)),
                        fault: number_fault(s.skip(k + 1), 0, u32::MAX as int),
                    },
                )
            } else if count->0 == 0 {
                Err(Error::DiceCountZero { spec })
            } else if sides->0 < 2 {
                Err(Error::DiceSidesFew { spec })
            } else if count->0 > MAX_DICE_COUNT {
                Err(Error::DiceCountMany { spec, count: count->0 })
            } else if sides->0 > MAX_DIE_SIDES {
                Err(Error::DiceSidesMany { spec, sides: sides->0 })
            } else {
                Ok(DiceSpec::Dice { count: count->0, sides: sides->0 })
            }
        },
    }
}

/// What the text says, white space around it aside: a range, or dice.
pub open spec fn parsed(spec: Seq<char>) -> Result<DiceSpec, Error<Seq<char>>> {
    let s = trimmed(spec);
    if s.len() == 0 {
        Err(Error::EmptyDice)
    } else {
        match range_of(s) {
            Some((min, max)) => if min >= max {
                Err(Error::RangeOrder { spec: s, min, max })
            } else {
                Ok(DiceSpec::Range { min, max })
            },
            None => dice_of(spec, s),
        }
    }
}

/// Whether the dice, or the range, are within bounds.
pub open spec fn in_bounds(spec: DiceSpec) -> bool {
    match spec {
        DiceSpec::Dice { count, sides } => 1 <= count <= MAX_DICE_COUNT && 2 <= sides <= MAX_DIE_SIDES,
        DiceSpec::Range { min, max } => min < max,
    }
}

/// How many numbers are rolled.
pub open spec fn draws(spec: DiceSpec) -> nat {
    match spec {
        DiceSpec::Dice { count, sides: _ } => count as nat,
        DiceSpec::Range { min: _, max: _ } => 1,
    }
}

/// The least number that a roll comes to.
pub open spec fn lowest(spec: DiceSpec) -> int {
    match spec {
        DiceSpec::Dice { count: _, sides: _ } => 1,
        DiceSpec::Range { min, max: _ } => min as int,
    }
}

/// The largest number that a roll comes to.
pub open spec fn highest(spec: DiceSpec) -> int {
    match spec {
        DiceSpec::Dice { count: _, sides } => sides as int,
        DiceSpec::Range { min: _, max } => max as int,
    }
}

/// Whether these numbers can be rolled.
pub open spec fn can_roll(spec: DiceSpec, rolls: Seq<i64>) -> bool {
    &&& rolls.len() == draws(spec)
    &&& forall|i: int| 0 <= i < rolls.len() ==> lowest(spec) <= #[trigger] rolls[i] <= highest(spec)
}

/// The sum of the numbers.
pub open spec fn sum(rolls: Seq<i64>) -> int
    decreases rolls.len(),
{
    if rolls.len() == 0 {
        0
    } else {
        sum(rolls.drop_last()) + rolls.last()
    }
}

/// The notation for what is rolled.
pub open spec fn label(spec: DiceSpec) -> Seq<char> {
    match spec {
        DiceSpec::Dice { count, sides } => if count == 1 {
            "d"@ + int_text(sides as int)
        } else {
            int_text(count as int) + "d"@ + int_text(sides as int)
        },
        DiceSpec::Range { min, max } => int_text(min as int) + "-"@ + int_text(max as int),
    }
}

/// What a roll returns for the numbers rolled.
pub open spec fn is_roll(spec: DiceSpec, r: RollResult) -> bool {
    &&& can_roll(spec, r.rolls@)
    &&& r.spec@ == label(spec)
    &&& r.total == sum(r.rolls@)
}

/// The two numbers of a range, where the text is one.
fn parse_range(s: &str) -> (r: Option<(i32, i32)>)
    ensures
        r == range_of(s@),
{
    let cs = chars(s);
    let mut i: usize = 0;
    while i < cs.len()
        invariant
            cs@ == s@,
            i <= cs.len(),
            forall|j: int| 0 <= j < i ==> #[trigger] s@[j] != 'd' && s@[j] != 'D',
        decreases cs.len() - i,
    {
        if cs[i] == 'd' || cs[i] == 'D' {
            assert(s@[i as int] == 'd' || s@[i as int] == 'D');
            return None;
        }
        i = i + 1;
    }
    let mut n: usize = cs.len();
    while n > 1
        invariant
            cs@ == s@,
            n <= cs.len(),
            !has_d(s@),
            range_before(s@, s@.len() as int) == range_before(s@, n as int),
        decreases n,
    {
        if cs[n - 1] == '-' {
            let lhs = s.substring_char(0, n - 1);
            let rhs = s.substring_char(n, cs.len());
            proof {
                assert(lhs@ =~= s@.take(n - 1));
                assert(rhs@ =~= s@.skip(n as int));
            }
            if let Some(min) = parse_i32(lhs) {
                if let Some(max) = parse_i32(rhs) {
                    return Some((min, max));
                }
            }
        }
        n = n - 1;
    }
    None
}

/// Reads dice notation. White space around it does not count, nor whether the `d` is small
/// or capital.
pub fn parse(spec: &str) -> (r: Result<DiceSpec, Error>)
    ensures
        match r {
            Ok(d) => parsed(spec@) == Ok::<DiceSpec, Error<Seq<char>>>(d) && in_bounds(d),
            Err(e) => parsed(spec@) == Err::<DiceSpec, Error<Seq<char>>>(e@),
        },
{
    let s = trim(spec);
    if s.is_empty() {
        return Err(Error::EmptyDice);
    }
    if let Some((min, max)) = parse_range(s) {
        if min >= max {
            return Err(Error::RangeOrder { spec: s.to_owned(), min, max });
        }
        return Ok(DiceSpec::Range { min, max });
    }
    let cs = chars(s);
    let mut k: usize = 0;
    while k < cs.len() && cs[k] != 'd' && cs[k] != 'D'
        invariant
            cs@ == s@,
            k <= cs.len(),
            first_d(s@, 0) == first_d(s@, k as int),
        decreases cs.len() - k,
    {
        k = k + 1;
    }
    if k == cs.len() {
        return Err(Error::NotDice { spec: spec.to_owned() });
    }
    assert(first_d(s@, 0) == Some(k as int));
    let before = s.substring_char(0, k);
    let behind = s.substring_char(k + 1, cs.len());
    proof {
        assert(before@ =~= s@.take(k as int));
        assert(behind@ =~= s@.skip(k + 1));
    }
    let count: u32 = if k == 0 {
        1
    } else {
        match parse_u32(before) {
            Some(n) => n,
            None => {
                let fault = find_number_fault(before, 0, 0xffff_ffff);
                return Err(Error::DiceCount { spec: spec.to_owned(), count: to_lower(before), fault });
            },
        }
    };
    let sides: u32 = match parse_u32(behind) {
        Some(n) => n,
        None => {
            let fault = find_number_fault(behind, 0, 0xffff_ffff);
            return Err(Error::DiceSides { spec: spec.to_owned(), sides: to_lower(behind), fault });
        },
    };
    if count == 0 {
        return Err(Error::DiceCountZero { spec: spec.to_owned() });
    }
    if sides < 2 {
        return Err(Error::DiceSidesFew { spec: spec.to_owned() });
    }
    if count > MAX_DICE_COUNT {
        return Err(Error::DiceCountMany { spec: spec.to_owned(), count });
    }
    if sides > MAX_DIE_SIDES {
        return Err(Error::DiceSidesMany { spec: spec.to_owned(), sides });
    }
    Ok(DiceSpec::Dice { count, sides })
}

/// What a roll comes to lies between the least and the largest that its dice can show.
pub proof fn law_total_in_range(spec: DiceSpec, r: RollResult)
    requires
        is_roll(spec, r),
    ensures
        lowest(spec) * draws(spec) <= r.total <= highest(spec) * draws(spec),
{
    lemma_sum(r.rolls@, lowest(spec), highest(spec));
}

/// A sum lies between as many times the least and as many times the largest.
pub(crate) proof fn lemma_sum(rolls: Seq<i64>, lo: int, hi: int)
    requires
        forall|i: int| 0 <= i < rolls.len() ==> lo <= #[trigger] rolls[i] <= hi,
    ensures
        lo * rolls.len() <= sum(rolls) <= hi * rolls.len(),
    decreases rolls.len(),
{
    if rolls.len() > 0 {
        let rest = rolls.drop_last();
        assert forall|i: int| 0 <= i < rest.len() implies lo <= #[trigger] rest[i] <= hi by {
            assert(rest[i] == rolls[i]);
        }
        lemma_sum(rest, lo, hi);
        assert(rolls.last() == rolls[rolls.len() - 1]);
        let n = rest.len() as int;
        assert(lo * (n + 1) == lo * n + lo) by (nonlinear_arith);
        assert(hi * (n + 1) == hi * n + hi) by (nonlinear_arith);
    }
}

/// Whether the dice, or the range, can be rolled at all.
pub open spec fn can_be_rolled(spec: DiceSpec) -> bool {
    match spec {
        DiceSpec::Dice { count, sides } => count == 0 || sides >= 1,
        DiceSpec::Range { min, max } => min <= max,
    }
}

/// What dice within bounds come to is an `i32`.
pub(crate) proof fn lemma_roll_fits(spec: DiceSpec, rolls: Seq<i64>)
    requires
        in_bounds(spec),
        can_roll(spec, rolls),
    ensures
        i32::MIN <= sum(rolls) <= i32::MAX,
{
    lemma_sum(rolls, lowest(spec), highest(spec));
    if let DiceSpec::Dice { count, sides } = spec {
        assert(sides * count <= 10_000 * 100) by (nonlinear_arith)
            requires
                0 <= sides <= 10_000,
                0 <= count <= 100,
        ;
    } else {
        assert(lowest(spec) * rolls.len() == lowest(spec) && highest(spec) * rolls.len() == highest(spec))
            by (nonlinear_arith)
            requires
                rolls.len() == 1,
        ;
    }
}

/// Numbers that are not negative add up to no more at first than in the end.
proof fn lemma_sum_grows(rolls: Seq<i64>, n: int)
    requires
        0 <= n <= rolls.len(),
        forall|i: int| 0 <= i < rolls.len() ==> #[trigger] rolls[i] >= 0,
    ensures
        0 <= sum(rolls.take(n)) <= sum(rolls),
    decreases rolls.len(),
{
    if n == rolls.len() {
        assert(rolls.take(n) =~= rolls);
        if n > 0 {
            lemma_sum_grows(rolls.drop_last(), n - 1);
            assert(rolls[n - 1] >= 0);
        }
    } else {
        lemma_sum_grows(rolls.drop_last(), n);
        assert(rolls.drop_last().take(n) =~= rolls.take(n));
        assert(rolls[rolls.len() - 1] >= 0);
    }
}

/// The result of a roll whose numbers have been drawn, where their sum is an `i64`.
pub fn roll_with(spec: &DiceSpec, rolls: Vec<i64>) -> (r: RollResult)
    requires
        can_roll(*spec, rolls@),
        sum(rolls@) <= i64::MAX,
    ensures
        is_roll(*spec, r),
        r.rolls@ == rolls@,
{
    let mut total: i64 = 0;
    let mut i: usize = 0;
    while i < rolls.len()
        invariant
            i <= rolls.len(),
            can_roll(*spec, rolls@),
            sum(rolls@) <= i64::MAX,
            total == sum(rolls@.take(i as int)),
        decreases rolls.len() - i,
    {
        proof {
            assert(rolls@.take(i + 1).drop_last() =~= rolls@.take(i as int));
            assert(lowest(*spec) <= rolls@[i as int]);
            if let DiceSpec::Dice { count, sides } = *spec {
                assert forall|j: int| 0 <= j < rolls@.len() implies #[trigger] rolls@[j] >= 0 by {
                    assert(lowest(*spec) <= rolls@[j]);
                }
                lemma_sum_grows(rolls@, i as int);
                lemma_sum_grows(rolls@, i + 1);
            }
        }
        total = total + rolls[i];
        i = i + 1;
    }
    assert(rolls@.take(i as int) =~= rolls@);
    let text = match spec {
        DiceSpec::Dice { count, sides } => {
            if *count == 1 {
                let mut s = "d".to_owned();
                s.append(decimal(*sides as i64).as_str());
                s
            } else {
                let mut s = decimal(*count as i64);
                s.append("d");
                s.append(decimal(*sides as i64).as_str());
                s
            }
        },
        DiceSpec::Range { min, max } => {
            let mut s = decimal(*min as i64);
            s.append("-");
            s.append(decimal(*max as i64).as_str());
            s
        },
    };
    RollResult { spec: text, total, rolls }
}

/// Draws the numbers that the spec asks for.
pub fn draw(spec: &DiceSpec) -> (rolls: Vec<i64>)
    requires
        can_be_rolled(*spec),
    ensures
        can_roll(*spec, rolls@),
{
    let mut rolls: Vec<i64> = Vec::new();
    match spec {
        DiceSpec::Dice { count, sides } => {
            let mut i: u32 = 0;
            while i < *count
                invariant
                    i <= *count,
                    rolls.len() == i,
                    *count == 0 || *sides >= 1,
                    forall|j: int| 0 <= j < rolls@.len() ==> 1 <= #[trigger] rolls@[j] <= *sides,
                decreases *count - i,
            {
                rolls.push(random_between(1, *sides as i64));
                i = i + 1;
            }
        },
        DiceSpec::Range { min, max } => {
            rolls.push(random_between(*min as i64, *max as i64));
        },
    }
    rolls
}

/// Reads dice notation and rolls.
pub fn roll(spec: &str) -> (r: Result<RollResult, Error>)
    ensures
        match r {
            Ok(x) => parsed(spec@) is Ok && is_roll(parsed(spec@)->Ok_0, x),
            Err(e) => parsed(spec@) == Err::<DiceSpec, Error<Seq<char>>>(e@),
        },
{
    match parse(spec) {
        Ok(d) => {
            let rolls = draw(&d);
            proof {
                lemma_roll_fits(d, rolls@);
            }
            Ok(roll_with(&d, rolls))
        },
        Err(e) => Err(e),
    }
}

/// What a roll is labelled with says what was rolled: read as notation, it comes to the same
/// dice or range.
pub proof fn law_label_can_be_read(spec: DiceSpec)
    requires
        in_bounds(spec),
    ensures
        parsed(label(spec)) == Ok::<DiceSpec, Error<Seq<char>>>(spec),
{
    match spec {
        DiceSpec::Dice { count, sides } => lemma_read_dice(count, sides),
        DiceSpec::Range { min, max } => lemma_read_range(min, max),
    }
}

proof fn lemma_first_d(s: Seq<char>, k: int, n: int)
    requires
        0 <= k <= n < s.len(),
        s[n] == 'd',
        forall|i: int| k <= i < n ==> is_digit(#[trigger] s[i]),
    ensures
        first_d(s, k) == Some(n),
    decreases n - k,
{
    if k < n {
        assert(is_digit(s[k]));
        lemma_first_d(s, k + 1, n);
    }
}

proof fn lemma_read_dice(count: u32, sides: u32)
    requires
        1 <= count <= MAX_DICE_COUNT,
        2 <= sides <= MAX_DIE_SIDES,
    ensures
        parsed(label(DiceSpec::Dice { count, sides })) == Ok::<DiceSpec, Error<Seq<char>>>(
            DiceSpec::Dice { count, sides },
        ),
{
    let s = label(DiceSpec::Dice { count, sides });
    reveal_strlit("d");
    law_decimal_stands_for_number(count as int);
    law_decimal_stands_for_number(sides as int);
    let a = if count == 1 {
        Seq::<char>::empty()
    } else {
        int_text(count as int)
    };
    let b = int_text(sides as int);
    let n = a.len() as int;
    assert(s =~= a + "d"@ + b);
    assert(s[n] == 'd');
    assert(s.take(n) =~= a);
    assert(s.skip(n + 1) =~= b);
    assert(s.last() == b.last());
    assert(s[0] == (if n == 0 {
        'd'
    } else {
        a[0]
    }));
    lemma_nothing_to_trim(s);
    assert forall|i: int| 0 <= i < n implies is_digit(#[trigger] s[i]) by {
        assert(s[i] == a[i]);
    }
    lemma_first_d(s, 0, n);
    assert(has_d(s));
    assert(b[0] != '-');
    if n > 0 {
        assert(a[0] != '-');
    }
}

proof fn lemma_read_range(min: i32, max: i32)
    requires
        min < max,
    ensures
        parsed(label(DiceSpec::Range { min, max })) == Ok::<DiceSpec, Error<Seq<char>>>(
            DiceSpec::Range { min, max },
        ),
{
    let s = label(DiceSpec::Range { min, max });
    let a = int_text(min as int);
    let b = int_text(max as int);
    let n = a.len() as int;
    reveal_strlit("-");
    law_decimal_stands_for_number(min as int);
    law_decimal_stands_for_number(max as int);
    assert(s.len() == n + 1 + b.len());
    assert(s[n] == '-');
    assert(s.take(n) =~= a);
    assert(s.skip(n + 1) =~= b);
    assert(s[0] == a[0]);
    assert(s.last() == b.last());
    lemma_nothing_to_trim(s);
    assert forall|i: int| 0 <= i < s.len() implies #[trigger] s[i] != 'd' && s[i] != 'D' by {
        if i < n {
            assert(s[i] == a[i]);
        } else if i > n {
            assert(s[i] == b[i - n - 1]);
        }
    }
    assert(!has_d(s));
    lemma_range_from(s, a, b, s.len() as int);
}

/// From the end of a range down to its sign there is no other sign to split it at: the sign
/// of the second number has no number before it.
proof fn lemma_range_from(s: Seq<char>, a: Seq<char>, b: Seq<char>, k: int)
    requires
        a.len() > 0,
        b.len() > 0,
        s.len() == a.len() + 1 + b.len(),
        s[a.len() as int] == '-',
        s.take(a.len() as int) == a,
        s.skip(a.len() as int + 1) == b,
        i32_value(a) is Some,
        i32_value(b) is Some,
        is_digit(b[0]) || b[0] == '-',
        forall|i: int| 1 <= i < b.len() ==> is_digit(#[trigger] b[i]),
        a.len() + 1 <= k <= s.len(),
    ensures
        range_before(s, k) == Some((i32_value(a)->0, i32_value(b)->0)),
    decreases k,
{
    let n = a.len() as int;
    if k > n + 1 {
        let i = k - 1;
        assert(s[i] == b[i - n - 1]);
        if i - n - 1 > 0 {
            assert(is_digit(b[i - n - 1]));
        } else if s[i] == '-' {
            let left = s.take(i);
            assert(left.last() == '-');
            assert(left.len() >= 2);
            lemma_no_number(left);
        }
        lemma_range_from(s, a, b, k - 1);
    }
}

/// What ends in a minus sign is no number.
proof fn lemma_no_number(s: Seq<char>)
    requires
        s.len() >= 2,
        s.last() == '-',
    ensures
        int_value(s) is None,
{
    assert(s.skip(1).last() == '-');
    assert(digits_value(s) is None);
    assert(digits_value(s.skip(1)) is None);
}

/// Whether two notations are read alike: both say the same, or neither says anything.
pub open spec fn read_alike(
    a: Result<DiceSpec, Error<Seq<char>>>,
    b: Result<DiceSpec, Error<Seq<char>>>,
) -> bool {
    match a {
        Ok(x) => b is Ok && b->Ok_0 == x,
        Err(_) => b is Err,
    }
}

/// White space around a notation does not count.
pub proof fn law_white_space_around_does_not_count(before: Seq<char>, s: Seq<char>, after: Seq<char>)
    requires
        forall|i: int| 0 <= i < before.len() ==> is_space(#[trigger] before[i]),
        forall|i: int| 0 <= i < after.len() ==> is_space(#[trigger] after[i]),
    ensures
        read_alike(parsed(before + s + after), parsed(s)),
{
    lemma_trimmed(before, s, after);
}

pub open spec fn is_d(c: char) -> bool {
    c == 'd' || c == 'D'
}

/// Whether two texts are the same but for the case of the letter d.
pub open spec fn same_but_d(s: Seq<char>, t: Seq<char>) -> bool {
    &&& s.len() == t.len()
    &&& forall|i: int| 0 <= i < s.len() ==> #[trigger] s[i] == t[i] || (is_d(s[i]) && is_d(t[i]))
}

proof fn lemma_trim_start_d(s: Seq<char>, t: Seq<char>)
    requires
        same_but_d(s, t),
    ensures
        same_but_d(trim_start(s), trim_start(t)),
    decreases s.len(),
{
    if s.len() > 0 && is_space(s[0]) {
        assert(s[0] == t[0]);
        assert forall|i: int| 0 <= i < s.skip(1).len() implies #[trigger] s.skip(1)[i] == t.skip(1)[i] || (is_d(
            s.skip(1)[i],
        ) && is_d(t.skip(1)[i])) by {
            assert(s[i + 1] == t[i + 1] || is_d(s[i + 1]));
        }
        lemma_trim_start_d(s.skip(1), t.skip(1));
    } else if s.len() > 0 {
        assert(s[0] == t[0] || is_d(s[0]));
    }
}

proof fn lemma_trim_end_d(s: Seq<char>, t: Seq<char>)
    requires
        same_but_d(s, t),
    ensures
        same_but_d(trim_end(s), trim_end(t)),
    decreases s.len(),
{
    if s.len() > 0 {
        let n = s.len() - 1;
        assert(s[n] == t[n] || (is_d(s[n]) && is_d(t[n])));
        if is_space(s.last()) {
            assert forall|i: int| 0 <= i < n implies #[trigger] s.drop_last()[i] == t.drop_last()[i] || (is_d(
                s.drop_last()[i],
            ) && is_d(t.drop_last()[i])) by {
                assert(s[i] == t[i] || is_d(s[i]));
            }
            lemma_trim_end_d(s.drop_last(), t.drop_last());
        }
    }
}

proof fn lemma_digits_d(s: Seq<char>, t: Seq<char>)
    requires
        same_but_d(s, t),
    ensures
        digits_value(s) == digits_value(t),
    decreases s.len(),
{
    if s.len() > 0 {
        let n = s.len() - 1;
        assert(s[n] == t[n] || (is_d(s[n]) && is_d(t[n])));
        assert forall|i: int| 0 <= i < n implies #[trigger] s.drop_last()[i] == t.drop_last()[i] || (is_d(
            s.drop_last()[i],
        ) && is_d(t.drop_last()[i])) by {
            assert(s[i] == t[i] || is_d(s[i]));
        }
        lemma_digits_d(s.drop_last(), t.drop_last());
    }
}

proof fn lemma_number_d(s: Seq<char>, t: Seq<char>)
    requires
        same_but_d(s, t),
    ensures
        u32_value(s) == u32_value(t),
{
    lemma_digits_d(s, t);
    if s.len() > 0 {
        assert(s[0] == t[0] || (is_d(s[0]) && is_d(t[0])));
        assert forall|i: int| 0 <= i < s.skip(1).len() implies #[trigger] s.skip(1)[i] == t.skip(1)[i] || (is_d(
            s.skip(1)[i],
        ) && is_d(t.skip(1)[i])) by {
            assert(s[i + 1] == t[i + 1] || is_d(s[i + 1]));
        }
        lemma_digits_d(s.skip(1), t.skip(1));
    }
}

proof fn lemma_first_d_alike(s: Seq<char>, t: Seq<char>, k: int)
    requires
        same_but_d(s, t),
        0 <= k <= s.len(),
    ensures
        first_d(s, k) == first_d(t, k),
        first_d(s, k) matches Some(j) ==> k <= j < s.len(),
        first_d(s, k) is None ==> forall|i: int| k <= i < s.len() ==> !is_d(#[trigger] s[i]),
    decreases s.len() - k,
{
    if k < s.len() {
        assert(s[k] == t[k] || (is_d(s[k]) && is_d(t[k])));
        lemma_first_d_alike(s, t, k + 1);
    }
}

/// Whether the `d` of a notation is small or capital does not matter.
pub proof fn law_case_of_d_does_not_matter(s: Seq<char>, t: Seq<char>)
    requires
        same_but_d(s, t),
    ensures
        read_alike(parsed(s), parsed(t)),
{
    lemma_trim_start_d(s, t);
    lemma_trim_end_d(trim_start(s), trim_start(t));
    let a = trimmed(s);
    let b = trimmed(t);
    lemma_first_d_alike(a, b, 0);
    match first_d(a, 0) {
        None => {
            assert forall|i: int| 0 <= i < a.len() implies #[trigger] a[i] == b[i] by {
                assert(!is_d(a[i]));
            }
            assert(a =~= b);
        },
        Some(k) => {
            assert(is_d(a[k])) by {
                lemma_is_first_d(a, 0);
            }
            assert(a[k] == b[k] || is_d(b[k]));
            assert(has_d(a) && has_d(b));
            let (x, y) = (a.take(k), b.take(k));
            assert forall|i: int| 0 <= i < x.len() implies #[trigger] x[i] == y[i] || (is_d(x[i]) && is_d(
                y[i],
            )) by {
                assert(a[i] == b[i] || is_d(a[i]));
            }
            lemma_number_d(x, y);
            let (x, y) = (a.skip(k + 1), b.skip(k + 1));
            assert forall|i: int| 0 <= i < x.len() implies #[trigger] x[i] == y[i] || (is_d(x[i]) && is_d(
                y[i],
            )) by {
                assert(a[i + k + 1] == b[i + k + 1] || is_d(a[i + k + 1]));
            }
            lemma_number_d(x, y);
        },
    }
}

proof fn lemma_is_first_d(s: Seq<char>, k: int)
    requires
        0 <= k <= s.len(),
    ensures
        first_d(s, k) matches Some(j) ==> k <= j < s.len() && is_d(s[j]),
    decreases s.len() - k,
{
    if k < s.len() {
        lemma_is_first_d(s, k + 1);
    }
}

} // verus!
