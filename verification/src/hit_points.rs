//! Formulas for hit points, such as `3d8 + con_mod*3`: dice, numbers and the modifier of the
//! constitution, added up.

use vstd::prelude::*;
use crate::dice::{
    can_roll, draw, draws, highest, in_bounds, lemma_roll_fits, lemma_sum, lowest, parse, parsed, roll_with, sum,
    DiceSpec,
};
use crate::error::Error;
use crate::text::{
    chars, find_number_fault, i32_value, is_digit, number_fault, parse_i32, piece, same, trim, trimmed,
};

verus! {

/// A term of a formula.
#[derive(Debug, Clone, Copy, PartialEq, Eq)]
pub enum HpTerm {
    /// So many times the modifier of the constitution.
    Con(i32),
    Constant(i32),
    Dice(DiceSpec),
}

/// What stands between the plus signs of the first `n` characters.
pub open spec fn parts(s: Seq<char>, n: nat) -> Seq<Seq<char>>
    decreases n,
{
    if n == 0 {
        seq![Seq::empty()]
    } else {
        let before = parts(s, (n - 1) as nat);
        if s[n - 1] == '+' {
            before.push(Seq::empty())
        } else {
            before.drop_last().push(before.last().push(s[n - 1]))
        }
    }
}

/// Whether the term is about the modifier of the constitution.
pub open spec fn about_con(t: Seq<char>) -> bool {
    t.len() >= 7 && t.take(7) == "con_mod"@
}

/// Whether only digits and minus signs stand in the term.
pub open spec fn is_plain(t: Seq<char>) -> bool {
    forall|i: int| 0 <= i < t.len() ==> is_digit(#[trigger] t[i]) || t[i] == '-'
}

/// What a term says.
pub open spec fn hp_term(formula: Seq<char>, t: Seq<char>) -> Result<HpTerm, Error<Seq<char>>> {
    if about_con(t) {
        let rest = trimmed(t.skip(7));
        if rest.len() == 0 {
            Ok(HpTerm::Con(1))
        } else if rest[0] == '*' {
            match i32_value(trimmed(rest.skip(1))) {
                Some(n) => Ok(HpTerm::Con(n)),
                None => Err(
                    Error::HpMultiplier {
                        formula,
                        factor: rest.skip(1),
                        fault: number_fault(trimmed(rest.skip(1)), i32::MIN as int, i32::MAX as int),
                    },
                ),
            }
        } else {
            Err(Error::HpConMod { formula, term: t })
        }
    } else if is_plain(t) {
        match i32_value(t) {
            Some(n) => Ok(HpTerm::Constant(n)),
            None => Err(
                Error::HpConstant {
                    formula,
                    term: t,
                    fault: number_fault(t, i32::MIN as int, i32::MAX as int),
                },
            ),
        }
    } else {
        match parsed(t) {
            Ok(d) => Ok(HpTerm::Dice(d)),
            Err(e) => Err(Error::HpDice { formula, cause: e.text() }),
        }
    }
}

/// What the parts say, up to the first that says nothing sensible. Blank parts do not count.
pub open spec fn terms_of(formula: Seq<char>, ps: Seq<Seq<char>>) -> Result<Seq<HpTerm>, Error<Seq<char>>>
    decreases ps.len(),
{
    if ps.len() == 0 {
        Ok(Seq::empty())
    } else {
        match terms_of(formula, ps.drop_last()) {
            Err(e) => Err(e),
            Ok(ts) => {
                let t = trimmed(ps.last());
                if t.len() == 0 {
                    Ok(ts)
                } else {
                    match hp_term(formula, t) {
                        Err(e) => Err(e),
                        Ok(x) => Ok(ts.push(x)),
                    }
                }
            },
        }
    }
}

/// What a formula says.
pub open spec fn hp_terms(formula: Seq<char>) -> Result<Seq<HpTerm>, Error<Seq<char>>> {
    terms_of(formula, parts(formula, formula.len()))
}

/// What a term comes to.
pub open spec fn term_value(t: HpTerm, con_mod: int, rolls: Seq<i64>) -> int {
    match t {
        HpTerm::Con(n) => con_mod * n,
        HpTerm::Constant(n) => n as int,
        HpTerm::Dice(_) => sum(rolls),
    }
}

/// What the terms come to, each with its own rolls.
pub open spec fn hp_sum(ts: Seq<HpTerm>, con_mod: int, rolls: Seq<Vec<i64>>) -> int
    decreases ts.len(),
{
    if ts.len() == 0 {
        0
    } else {
        hp_sum(ts.drop_last(), con_mod, rolls) + term_value(ts.last(), con_mod, rolls[ts.len() - 1]@)
    }
}

/// The hit points: at least 1.
pub open spec fn hp_of(ts: Seq<HpTerm>, con_mod: int, rolls: Seq<Vec<i64>>) -> int {
    if hp_sum(ts, con_mod, rolls) < 1 {
        1
    } else {
        hp_sum(ts, con_mod, rolls)
    }
}

/// Whether each term that is dice has rolls of its dice.
pub open spec fn hp_rolls_ok(ts: Seq<HpTerm>, rolls: Seq<Vec<i64>>) -> bool {
    &&& rolls.len() == ts.len()
    &&& forall|k: int|
        0 <= k < ts.len() ==> (#[trigger] ts[k] matches HpTerm::Dice(d) ==> can_roll(d, rolls[k]@))
}

/// The most that a term can come to.
pub open spec fn term_most(t: HpTerm, con_mod: int) -> int {
    match t {
        HpTerm::Con(n) => con_mod * n,
        HpTerm::Constant(n) => n as int,
        HpTerm::Dice(d) => highest(d) * draws(d),
    }
}

/// The most that the terms can come to.
pub open spec fn hp_most(ts: Seq<HpTerm>, con_mod: int) -> int
    decreases ts.len(),
{
    if ts.len() == 0 {
        0
    } else {
        hp_most(ts.drop_last(), con_mod) + term_most(ts.last(), con_mod)
    }
}

/// Whether every dice term is one that can be rolled.
pub open spec fn terms_ok(ts: Seq<HpTerm>) -> bool {
    forall|k: int| 0 <= k < ts.len() ==> (#[trigger] ts[k] matches HpTerm::Dice(d) ==> in_bounds(d))
}

/// Hit points come to no more than the most that the formula can.
pub(crate) proof fn lemma_hp_most(ts: Seq<HpTerm>, con_mod: int, rolls: Seq<Vec<i64>>)
    requires
        rolls.len() >= ts.len(),
        forall|k: int|
            0 <= k < ts.len() ==> (#[trigger] ts[k] matches HpTerm::Dice(d) ==> can_roll(d, rolls[k]@)),
    ensures
        hp_sum(ts, con_mod, rolls) <= hp_most(ts, con_mod),
    decreases ts.len(),
{
    if ts.len() > 0 {
        let rest = ts.drop_last();
        assert forall|k: int| 0 <= k < rest.len() implies (#[trigger] rest[k] matches HpTerm::Dice(d) ==>
            can_roll(d, rolls[k]@)) by {
            assert(rest[k] == ts[k]);
        }
        lemma_hp_most(rest, con_mod, rolls);
        if let HpTerm::Dice(d) = ts[ts.len() - 1] {
            lemma_sum(rolls[ts.len() - 1]@, lowest(d), highest(d));
        }
    }
}

/// How often the modifier of the constitution is added.
spec fn con_factor(ts: Seq<HpTerm>) -> int
    decreases ts.len(),
{
    if ts.len() == 0 {
        0
    } else {
        con_factor(ts.drop_last()) + (match ts.last() {
            HpTerm::Con(n) => n as int,
            _ => 0,
        })
    }
}

proof fn lemma_con_factor(ts: Seq<HpTerm>, con_mod: int)
    ensures
        hp_most(ts, con_mod) == con_mod * con_factor(ts) + hp_most(ts, 0),
    decreases ts.len(),
{
    if ts.len() > 0 {
        lemma_con_factor(ts.drop_last(), con_mod);
        let f = con_factor(ts.drop_last());
        if let HpTerm::Con(n) = ts.last() {
            assert(con_mod * (f + n) == con_mod * f + con_mod * n) by (nonlinear_arith);
            assert(0 * n == 0);
        }
    }
}

/// A modifier between two others gives no more than one of the two.
pub(crate) proof fn lemma_hp_between(ts: Seq<HpTerm>, low: int, con_mod: int, high: int)
    requires
        low <= con_mod <= high,
    ensures
        hp_most(ts, con_mod) <= hp_most(ts, low) || hp_most(ts, con_mod) <= hp_most(ts, high),
{
    lemma_con_factor(ts, low);
    lemma_con_factor(ts, con_mod);
    lemma_con_factor(ts, high);
    let f = con_factor(ts);
    assert(con_mod * f <= low * f || con_mod * f <= high * f) by (nonlinear_arith)
        requires
            low <= con_mod <= high,
    ;
}

fn split_parts(formula: &str) -> (r: Vec<String>)
    ensures
        r.len() == parts(formula@, formula@.len()).len(),
        forall|k: int| 0 <= k < r@.len() ==> (#[trigger] r@[k])@ == parts(formula@, formula@.len())[k],
{
    let s = chars(formula);
    let mut done: Vec<String> = Vec::new();
    let mut last = String::new();
    let mut n: usize = 0;
    while n < s.len()
        invariant
            n <= s.len(),
            s@ == formula@,
            parts(s@, n as nat).len() == done.len() + 1,
            last@ == parts(s@, n as nat).last(),
            forall|k: int| 0 <= k < done@.len() ==> (#[trigger] done@[k])@ == parts(s@, n as nat)[k],
        decreases s.len() - n,
    {
        if s[n] == '+' {
            done.push(last);
            last = String::new();
            assert(last@ =~= Seq::empty());
        } else {
            last.push(s[n]);
        }
        n = n + 1;
    }
    done.push(last);
    done
}

fn check_plain(s: &Vec<char>) -> (r: bool)
    ensures
        r == is_plain(s@),
{
    let mut i: usize = 0;
    while i < s.len()
        invariant
            i <= s.len(),
            forall|j: int| 0 <= j < i ==> is_digit(#[trigger] s@[j]) || s@[j] == '-',
        decreases s.len() - i,
    {
        let x: char = s[i];
        let ok = (x >= '0' && x <= '9') || x == '-';
        if !ok {
            assert(!(is_digit(s@[i as int]) || s@[i as int] == '-'));
            return false;
        }
        i = i + 1;
    }
    true
}

fn read_term(formula: &str, t: &str) -> (r: Result<HpTerm, Error>)
    ensures
        match r {
            Ok(x) => {
                &&& hp_term(formula@, t@) == Ok::<HpTerm, Error<Seq<char>>>(x)
                &&& x matches HpTerm::Dice(d) ==> in_bounds(d)
            },
            Err(e) => hp_term(formula@, t@) == Err::<HpTerm, Error<Seq<char>>>(e@),
        },
{
    let s = chars(t);
    let mut con = false;
    if s.len() >= 7 {
        let head = piece(&s, 0, 7);
        assert(s@.subrange(0, 7) =~= t@.take(7));
        con = same(head.as_str(), "con_mod");
    }
    assert(con == about_con(t@));
    if con {
        let tail = piece(&s, 7, s.len());
        assert(tail@ =~= t@.skip(7));
        let rest = trim(tail.as_str());
        let rs = chars(rest);
        if rs.len() == 0 {
            return Ok(HpTerm::Con(1));
        }
        if rs[0] == '*' {
            let factor = piece(&rs, 1, rs.len());
            assert(factor@ =~= trimmed(t@.skip(7)).skip(1));
            return match parse_i32(trim(factor.as_str())) {
                Some(n) => Ok(HpTerm::Con(n)),
                None => {
                    let fault = find_number_fault(trim(factor.as_str()), -0x8000_0000, 0x7fff_ffff);
                    Err(Error::HpMultiplier { formula: formula.to_owned(), factor, fault })
                },
            };
        }
        return Err(Error::HpConMod { formula: formula.to_owned(), term: t.to_owned() });
    }
    if check_plain(&s) {
        return match parse_i32(t) {
            Some(n) => Ok(HpTerm::Constant(n)),
            None => {
                let fault = find_number_fault(t, -0x8000_0000, 0x7fff_ffff);
                Err(Error::HpConstant { formula: formula.to_owned(), term: t.to_owned(), fault })
            },
        };
    }
    match parse(t) {
        Ok(d) => Ok(HpTerm::Dice(d)),
        Err(e) => Err(Error::HpDice { formula: formula.to_owned(), cause: e.message() }),
    }
}

proof fn lemma_terms_stop(formula: Seq<char>, ps: Seq<Seq<char>>, n: int)
    requires
        0 <= n <= ps.len(),
        terms_of(formula, ps.take(n)) is Err,
    ensures
        terms_of(formula, ps) == terms_of(formula, ps.take(n)),
    decreases ps.len() - n,
{
    if n < ps.len() {
        assert(ps.take(n + 1).drop_last() =~= ps.take(n));
        lemma_terms_stop(formula, ps, n + 1);
    } else {
        assert(ps.take(n) =~= ps);
    }
}

/// Reads a formula.
pub fn read_formula(formula: &str) -> (r: Result<Vec<HpTerm>, Error>)
    ensures
        match r {
            Ok(ts) => hp_terms(formula@) == Ok::<Seq<HpTerm>, Error<Seq<char>>>(ts@) && terms_ok(ts@),
            Err(e) => hp_terms(formula@) == Err::<Seq<HpTerm>, Error<Seq<char>>>(e@),
        },
{
    let pieces = split_parts(formula);
    let ghost ps = parts(formula@, formula@.len());
    let mut ts: Vec<HpTerm> = Vec::new();
    let mut i: usize = 0;
    assert(ts@ =~= Seq::empty());
    while i < pieces.len()
        invariant
            i <= pieces.len(),
            ps == parts(formula@, formula@.len()),
            pieces.len() == ps.len(),
            forall|k: int| 0 <= k < pieces@.len() ==> (#[trigger] pieces@[k])@ == ps[k],
            terms_of(formula@, ps.take(i as int)) == Ok::<Seq<HpTerm>, Error<Seq<char>>>(ts@),
            terms_ok(ts@),
        decreases pieces.len() - i,
    {
        assert(ps.take(i + 1).drop_last() =~= ps.take(i as int));
        assert(pieces@[i as int]@ == ps[i as int]);
        let t = trim(pieces[i].as_str());
        if chars(t).len() > 0 {
            match read_term(formula, t) {
                Ok(x) => {
                    ts.push(x);
                },
                Err(e) => {
                    proof {
                        lemma_terms_stop(formula@, ps, i + 1);
                    }
                    return Err(e);
                },
            }
        }
        i = i + 1;
    }
    assert(ps.take(i as int) =~= ps);
    Ok(ts)
}

/// What the formula comes to.
pub fn eval_terms(ts: &Vec<HpTerm>, con_mod: i32, rolls: &Vec<Vec<i64>>) -> (r: i32)
    requires
        terms_ok(ts@),
        hp_rolls_ok(ts@, rolls@),
        hp_sum(ts@, con_mod as int, rolls@) <= i32::MAX,
    ensures
        r == hp_of(ts@, con_mod as int, rolls@),
{
    let mut total: i128 = 0;
    let mut i: usize = 0;
    while i < ts.len()
        invariant
            i <= ts.len(),
            ts.len() == rolls.len(),
            terms_ok(ts@),
            hp_rolls_ok(ts@, rolls@),
            total == hp_sum(ts@.take(i as int), con_mod as int, rolls@),
            -(i * 0x4000_0000_0000_0000) <= total <= i * 0x4000_0000_0000_0000,
        decreases ts.len() - i,
    {
        proof {
            assert(ts@.take(i + 1).drop_last() =~= ts@.take(i as int));
            assert(ts@[i as int] matches HpTerm::Dice(d) ==> can_roll(d, rolls@[i as int]@) && in_bounds(d));
            if let HpTerm::Dice(d) = ts@[i as int] {
                lemma_roll_fits(d, rolls@[i as int]@);
            }
        }
        let value: i64 = match ts[i] {
            HpTerm::Con(n) => {
                assert(-0x4000_0000_0000_0000 <= con_mod * n <= 0x4000_0000_0000_0000) by (nonlinear_arith)
                    requires
                        i32::MIN <= con_mod <= i32::MAX,
                        i32::MIN <= n <= i32::MAX,
                ;
                con_mod as i64 * n as i64
            },
            HpTerm::Constant(n) => n as i64,
            HpTerm::Dice(d) => roll_with(&d, crate::events::copy_ints(&rolls[i])).total,
        };
        assert(value == term_value(ts@[i as int], con_mod as int, rolls@[i as int]@));
        total = total + value as i128;
        i = i + 1;
    }
    assert(ts@.take(i as int) =~= ts@);
    if total < 1 {
        1
    } else {
        total as i32
    }
}

/// Rolls the dice of a formula.
pub(crate) fn draw_terms(ts: &Vec<HpTerm>) -> (r: Vec<Vec<i64>>)
    requires
        terms_ok(ts@),
    ensures
        hp_rolls_ok(ts@, r@),
{
    let mut out: Vec<Vec<i64>> = Vec::new();
    let mut i: usize = 0;
    while i < ts.len()
        invariant
            i <= ts.len(),
            out.len() == i,
            terms_ok(ts@),
            forall|k: int|
                0 <= k < i ==> (#[trigger] ts@[k] matches HpTerm::Dice(d) ==> can_roll(d, out@[k]@)),
        decreases ts.len() - i,
    {
        assert(ts@[i as int] matches HpTerm::Dice(d) ==> in_bounds(d));
        let rolls = match ts[i] {
            HpTerm::Dice(d) => draw(&d),
            _ => Vec::new(),
        };
        out.push(rolls);
        i = i + 1;
    }
    out
}

/// Hit points by a formula, with given rolls. The rolls go with the terms of the formula.
pub fn eval_hp_formula_with(formula: &str, con_mod: i32, rolls: &Vec<Vec<i64>>) -> (r: Result<i32, Error>)
    requires
        hp_terms(formula@) matches Ok(ts) ==> hp_rolls_ok(ts, rolls@) && hp_sum(ts, con_mod as int, rolls@)
            <= i32::MAX,
    ensures
        match hp_terms(formula@) {
            Ok(ts) => r is Ok && r->Ok_0 == hp_of(ts, con_mod as int, rolls@),
            Err(e) => r is Err && r->Err_0@ == e,
        },
{
    match read_formula(formula) {
        Ok(ts) => Ok(eval_terms(&ts, con_mod, rolls)),
        Err(e) => Err(e),
    }
}

/// Hit points by a formula: what comes out is what one of the possible rolls gives.
pub fn eval_hp_formula(formula: &str, con_mod: i32) -> (r: Result<i32, Error>)
    requires
        hp_terms(formula@) matches Ok(ts) ==> hp_most(ts, con_mod as int) <= i32::MAX,
    ensures
        match hp_terms(formula@) {
            Ok(ts) => r is Ok && exists|rolls: Seq<Vec<i64>>|
                #![trigger hp_of(ts, con_mod as int, rolls)]
                hp_rolls_ok(ts, rolls) && r->Ok_0 == hp_of(ts, con_mod as int, rolls),
            Err(e) => r is Err && r->Err_0@ == e,
        },
{
    match read_formula(formula) {
        Ok(ts) => {
            let rolls = draw_terms(&ts);
            proof {
                lemma_hp_most(ts@, con_mod as int, rolls@);
            }
            Ok(eval_terms(&ts, con_mod, &rolls))
        },
        Err(e) => Err(e),
    }
}

/// Whether hit points by the formula are always a number that a character can have.
pub fn check_most(ts: &Vec<HpTerm>, con_mod: i32) -> (r: bool)
    requires
        terms_ok(ts@),
    ensures
        r == (hp_most(ts@, con_mod as int) <= i32::MAX),
{
    let mut total: i128 = 0;
    let mut i: usize = 0;
    while i < ts.len()
        invariant
            i <= ts.len(),
            terms_ok(ts@),
            total == hp_most(ts@.take(i as int), con_mod as int),
            -(i * 0x4000_0000_0000_0000) <= total <= i * 0x4000_0000_0000_0000,
        decreases ts.len() - i,
    {
        proof {
            assert(ts@.take(i + 1).drop_last() =~= ts@.take(i as int));
            assert(ts@[i as int] matches HpTerm::Dice(d) ==> in_bounds(d));
        }
        let most: i64 = match ts[i] {
            HpTerm::Con(n) => {
                assert(-0x4000_0000_0000_0000 <= con_mod * n <= 0x4000_0000_0000_0000) by (nonlinear_arith)
                    requires
                        i32::MIN <= con_mod <= i32::MAX,
                        i32::MIN <= n <= i32::MAX,
                ;
                con_mod as i64 * n as i64
            },
            HpTerm::Constant(n) => n as i64,
            HpTerm::Dice(d) => match d {
                DiceSpec::Dice { count, sides } => {
                    assert(0 <= sides * count <= 0x4000_0000_0000_0000) by (nonlinear_arith)
                        requires
                            0 <= count <= 0x8000_0000,
                            0 <= sides <= 0x8000_0000,
                    ;
                    assert(highest(d) == sides && draws(d) == count);
                    sides as i64 * count as i64
                },
                DiceSpec::Range { min: _, max } => {
                    assert(highest(d) == max && draws(d) == 1);
                    assert(highest(d) * draws(d) == max) by (nonlinear_arith)
                        requires
                            highest(d) == max,
                            draws(d) == 1,
                    ;
                    max as i64
                },
            },
        };
        assert(most == term_most(ts@[i as int], con_mod as int));
        total = total + most as i128;
        i = i + 1;
    }
    assert(ts@.take(i as int) =~= ts@);
    total <= 0x7fff_ffff
}

/// Whatever the formula and the dice, there is at least one hit point.
pub proof fn law_at_least_one_hit_point(ts: Seq<HpTerm>, con_mod: int, rolls: Seq<Vec<i64>>)
    ensures
        hp_of(ts, con_mod, rolls) >= 1,
{
}

} // verus!
