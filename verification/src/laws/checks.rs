//! Laws of checks: what counts towards a total, by how much, and when it is enough.

use vstd::prelude::*;
use crate::campaign::{row, World};
use crate::checks::{
    ability_of, advantages, basis, check_ok, check_refusal, check_rolls_ok, die_rolls, disadvantages,
    effective_score, effects_on, kind_of, modifier_of, modifiers, training_of, with_dice, AbilityId, CheckQuery,
    CheckResult, CheckRolls, NamedModifier, Posture,
};
use crate::content::{CheckKind, Content, RollModifier};
use crate::dice::sum;
use crate::proficiencies::lemma_training_at;
use crate::rows::{views, Character, Condition, Effect};

verus! {

// ── Kinds and abilities ──

/// Only `ability_check` is an ability check, and the other names that there are for a kind of
/// check name another one.
pub proof fn law_kinds_have_their_names(s: Seq<char>)
    ensures
        kind_of(s) == Some(CheckKind::AbilityCheck) <==> s == "ability_check"@,
        kind_of(s) == Some(CheckKind::SkillCheck) <==> s == "skill_check"@,
        kind_of(s) == Some(CheckKind::SavingThrow) <==> s == "save"@ || s == "saving_throw"@,
        kind_of(s) == Some(CheckKind::AttackRoll) <==> s == "attack_roll"@ || s == "attack"@,
{
    reveal_strlit("ability_check");
    reveal_strlit("skill_check");
    reveal_strlit("save");
    reveal_strlit("saving_throw");
    reveal_strlit("attack_roll");
    reveal_strlit("attack");
    assert("ability_check"@.len() == 13 && "skill_check"@.len() == 11 && "save"@.len() == 4);
    assert("saving_throw"@.len() == 12 && "attack_roll"@.len() == 11 && "attack"@.len() == 6);
    assert("skill_check"@[0] == 's' && "attack_roll"@[0] == 'a');
}

/// Each ability is known by the name that it is told by.
pub proof fn law_abilities_have_their_names(a: AbilityId, b: AbilityId)
    ensures
        AbilityId::of_text(a.text()) == Some(a),
        a.text() == b.text() ==> a == b,
        a.column() == a.text() + "_score"@,
{
    reveal_strlit("str");
    reveal_strlit("dex");
    reveal_strlit("con");
    reveal_strlit("int");
    reveal_strlit("wis");
    reveal_strlit("cha");
    reveal_strlit("_score");
    reveal_strlit("str_score");
    reveal_strlit("dex_score");
    reveal_strlit("con_score");
    reveal_strlit("int_score");
    reveal_strlit("wis_score");
    reveal_strlit("cha_score");
    assert("str"@[0] == 's' && "dex"@[0] == 'd' && "con"@[0] == 'c' && "int"@[0] == 'i' && "wis"@[0] == 'w'
        && "cha"@[0] == 'c' && "con"@[1] == 'o' && "cha"@[1] == 'h');
    assert(a.column() =~= a.text() + "_score"@);
}

/// The ability that a check goes by is the one that is named, whatever the check. A save whose
/// key names an ability goes by that ability, as an ability check under its name does; a skill
/// goes by the ability that the rules give it; an attack by strength.
pub proof fn law_checks_go_by_their_ability(content: Content, kind: CheckKind, key: Seq<char>, a: AbilityId, k: int)
    ensures
        ability_of(content, kind, key, Some(a.text())) == Ok::<_, crate::error::Error<Seq<char>>>(a),
        ability_of(content, CheckKind::SavingThrow, "save:"@ + a.text(), None) == Ok::<
            _,
            crate::error::Error<Seq<char>>,
        >(a),
        ability_of(content, CheckKind::AbilityCheck, a.text(), None) == Ok::<
            _,
            crate::error::Error<Seq<char>>,
        >(a),
        content.skill(key) == Some(k) && content.skills@[k].ability@ == a.text() ==> ability_of(
            content,
            CheckKind::SkillCheck,
            key,
            None,
        ) == Ok::<_, crate::error::Error<Seq<char>>>(a),
        ability_of(content, CheckKind::AttackRoll, key, None) == ability_of(content, kind, key, Some("str"@)),
{
    law_abilities_have_their_names(a, a);
    law_abilities_have_their_names(AbilityId::Str, AbilityId::Str);
    reveal_strlit("save:");
    let full = "save:"@ + a.text();
    assert(full.take(5) =~= "save:"@);
    assert(full.skip(5) =~= a.text());
}

/// Each ability reads its own score: a character that has another strength, say, has another
/// score in strength, and in nothing else.
pub proof fn law_abilities_read_their_score(ch: Character<Seq<char>>, n: i32)
    ensures
        ({
            let c = Character { str_score: n, ..ch };
            &&& AbilityId::Str.base(c) == n
            &&& forall|a: AbilityId| a != AbilityId::Str ==> #[trigger] a.base(c) == a.base(ch)
        }),
        ({
            let c = Character { dex_score: n, ..ch };
            &&& AbilityId::Dex.base(c) == n
            &&& forall|a: AbilityId| a != AbilityId::Dex ==> #[trigger] a.base(c) == a.base(ch)
        }),
        ({
            let c = Character { con_score: n, ..ch };
            &&& AbilityId::Con.base(c) == n
            &&& forall|a: AbilityId| a != AbilityId::Con ==> #[trigger] a.base(c) == a.base(ch)
        }),
        ({
            let c = Character { int_score: n, ..ch };
            &&& AbilityId::Int.base(c) == n
            &&& forall|a: AbilityId| a != AbilityId::Int ==> #[trigger] a.base(c) == a.base(ch)
        }),
        ({
            let c = Character { wis_score: n, ..ch };
            &&& AbilityId::Wis.base(c) == n
            &&& forall|a: AbilityId| a != AbilityId::Wis ==> #[trigger] a.base(c) == a.base(ch)
        }),
        ({
            let c = Character { cha_score: n, ..ch };
            &&& AbilityId::Cha.base(c) == n
            &&& forall|a: AbilityId| a != AbilityId::Cha ==> #[trigger] a.base(c) == a.base(ch)
        }),
{
}

/// A score of 10 or 11 gives nothing, and each two points more or less give one more or less.
pub proof fn law_two_points_give_one(score: int)
    ensures
        modifier_of(10) == 0 && modifier_of(11) == 0,
        modifier_of(score + 2) == modifier_of(score) + 1,
        2 * modifier_of(score) <= score - 10 <= 2 * modifier_of(score) + 1,
{
}

// ── The total ──

/// The d20 that counts counts once, whatever else does, and each two points of the score that the
/// check goes by make the total larger by one.
pub proof fn law_score_and_die_count(
    w: World,
    v: World,
    content: Content,
    p: CheckQuery,
    a: CheckRolls,
    b: CheckRolls,
    r: CheckResult,
    s: CheckResult,
    after: World,
    later: World,
)
    requires
        v == (World { characters: v.characters, ..w }),
        row(v.characters, p.character_id).proficiency_bonus == row(w.characters, p.character_id).proficiency_bonus,
        a.dice@ == b.dice@,
        check_ok(w, content, p, a, after, r),
        check_ok(v, content, p, b, later, s),
    ensures
        ({
            let ability = ability_of(content, kind_of(p.kind)->0, p.target_key, p.ability)->Ok_0;
            let x = ability.base(row(w.characters, p.character_id));
            let y = ability.base(row(v.characters, p.character_id));
            let extra = modifiers(effects_on(w.effects, p.character_id, ability.column()));
            &&& (y - x) % 2 == 0 ==> 2 * ((s.total - s.d20_used) - (r.total - r.d20_used)) == y - x
            &&& x + extra == 10 && x == y ==> s.total - s.d20_used == r.total - r.d20_used
        }),
{
}

/// Training counts in every check but an ability check: its row under the key makes the total
/// larger by the bonus where the character is proficient, twice the bonus with expertise, and by
/// the ranks in any case. In an ability check it makes no difference.
pub proof fn law_training_counts(
    w: World,
    content: Content,
    p: CheckQuery,
    rolls: CheckRolls,
    k: int,
    r: CheckResult,
    s: CheckResult,
    after: World,
    later: World,
)
    requires
        w.wf(),
        check_refusal(w, content, p) is None,
        0 <= k < w.proficiencies.len(),
        w.proficiencies[k].character_id == p.character_id,
        w.proficiencies[k].name == p.target_key,
        check_ok(w, content, p, rolls, after, r),
        check_ok(World { proficiencies: w.proficiencies.remove(k), ..w }, content, p, rolls, later, s),
    ensures
        ({
            let t = w.proficiencies[k];
            let bonus = row(w.characters, p.character_id).proficiency_bonus;
            &&& p.kind == "ability_check"@ ==> r.total == s.total
            &&& p.kind != "ability_check"@ ==> {
                &&& t.proficient && t.expertise ==> r.total - s.total == 2 * bonus + t.ranks
                &&& t.proficient && !t.expertise ==> r.total - s.total == bonus + t.ranks
                &&& !t.proficient ==> r.total - s.total == t.ranks
            }
        }),
{
    law_kinds_have_their_names(p.kind);
    let rows = w.proficiencies;
    let rest = rows.remove(k);
    assert(forall|i: int, j: int|
        #![trigger rows[i], rows[j]]
        0 <= i < j < rows.len() ==> rows[i].character_id != rows[j].character_id || rows[i].name != rows[j].name) by {
        reveal(World::wf);
    }
    lemma_training_at(rows, p.character_id, p.target_key, rows.len());
    lemma_training_at(rest, p.character_id, p.target_key, rest.len());
    if let Some(j) = training_of(w, p.character_id, p.target_key) {
        if j < k {
            assert(rows[j].name != rows[k].name || rows[j].character_id != rows[k].character_id);
        } else if k < j {
            assert(rows[k].name != rows[j].name || rows[k].character_id != rows[j].character_id);
        }
    }
    let v = World { proficiencies: rest, ..w };
    if let Some(j) = training_of(v, p.character_id, p.target_key) {
        if j < k {
            assert(rest[j] == rows[j]);
            assert(rows[j].name != rows[k].name || rows[j].character_id != rows[k].character_id);
        } else {
            assert(rest[j] == rows[j + 1]);
            assert(rows[k].name != rows[j + 1].name || rows[k].character_id != rows[j + 1].character_id);
        }
    }
}

pub(crate) proof fn lemma_effect_more(rows: Seq<Effect<Seq<char>>>, e: Effect<Seq<char>>, id: i64, key: Seq<char>)
    ensures
        effects_on(rows.push(e), id, key) == (if e.active && e.target_character_id == id && e.target_key == key {
            effects_on(rows, id, key).push(e)
        } else {
            effects_on(rows, id, key)
        }),
        modifiers(effects_on(rows.push(e), id, key)) == modifiers(effects_on(rows, id, key)) + (if e.active
            && e.target_character_id == id && e.target_key == key {
            e.modifier as int
        } else {
            0
        }),
        with_dice(effects_on(rows.push(e), id, key)) == (if e.active && e.target_character_id == id && e.target_key
            == key && e.dice_expr is Some {
            with_dice(effects_on(rows, id, key)).push(e)
        } else {
            with_dice(effects_on(rows, id, key))
        }),
{
    assert(rows.push(e).drop_last() =~= rows);
    let rest = effects_on(rows, id, key);
    assert(rest.push(e).drop_last() =~= rest);
}

/// An active effect on the key of a check makes its total larger by its modifier and by what its
/// dice show; one on the ability makes the score larger by its modifier. Effects that are over,
/// or on somebody else, or on anything else, make no difference.
pub proof fn law_effects_count(
    w: World,
    content: Content,
    p: CheckQuery,
    e: Effect<Seq<char>>,
    a: CheckRolls,
    b: CheckRolls,
    r: CheckResult,
    s: CheckResult,
    after: World,
    later: World,
)
    requires
        check_ok(w, content, p, a, after, r),
        check_ok(World { effects: w.effects.push(e), ..w }, content, p, b, later, s),
        a.d20s@ == b.d20s@,
        a.dice@.len() == with_dice(effects_on(w.effects, p.character_id, p.target_key)).len(),
        b.dice@.len() >= a.dice@.len(),
        b.dice@.take(a.dice@.len() as int) == a.dice@,
        forall|i: int| 0 <= i < b.dice@.len() ==> i64::MIN <= sum((#[trigger] b.dice@[i])@) <= i64::MAX,
        e.active && e.target_character_id == p.character_id && e.target_key == p.target_key && e.dice_expr is Some
            ==> b.dice@.len() == a.dice@.len() + 1,
    ensures
        ({
            let ability = ability_of(content, kind_of(p.kind)->0, p.target_key, p.ability)->Ok_0;
            let acts = e.active && e.target_character_id == p.character_id;
            &&& acts && e.target_key == p.target_key && e.target_key != ability.column() ==> s.total - r.total
                == e.modifier + (if e.dice_expr is Some {
                sum(b.dice@[a.dice@.len() as int]@)
            } else {
                0
            })
            &&& acts && e.target_key == ability.column() ==> effective_score(
                World { effects: w.effects.push(e), ..w },
                p.character_id,
                ability,
            ) - effective_score(w, p.character_id, ability) == e.modifier
            &&& !acts || (e.target_key != p.target_key && e.target_key != ability.column()) ==> s.total == r.total
        }),
{
    let ability = ability_of(content, kind_of(p.kind)->0, p.target_key, p.ability)->Ok_0;
    lemma_effect_more(w.effects, e, p.character_id, p.target_key);
    lemma_effect_more(w.effects, e, p.character_id, ability.column());
    let old_dice = with_dice(effects_on(w.effects, p.character_id, p.target_key));
    let v = World { effects: w.effects.push(e), ..w };
    let new_dice = with_dice(effects_on(v.effects, p.character_id, p.target_key));
    let x = die_rolls(old_dice, a.dice@);
    let y = die_rolls(new_dice, b.dice@);
    assert forall|i: int| 0 <= i < x.len() implies x[i] == y[i] by {
        assert(b.dice@.take(a.dice@.len() as int)[i] == b.dice@[i]);
    }
    if new_dice.len() > old_dice.len() {
        assert(y.drop_last() =~= x);
        let n = old_dice.len() as int;
        assert(i64::MIN <= sum(b.dice@[n]@) <= i64::MAX);
        assert(y.last() == y[n]);
        assert(b.dice@[a.dice@.len() as int] == b.dice@[n]);
    } else {
        assert(y =~= x);
    }
}

/// What the caller adds counts as it is: one more makes the total larger by its value.
pub proof fn law_what_the_caller_adds_counts(
    w: World,
    content: Content,
    p: CheckQuery,
    m: NamedModifier<Seq<char>>,
    rolls: CheckRolls,
    r: CheckResult,
    s: CheckResult,
    after: World,
    later: World,
)
    requires
        check_ok(w, content, p, rolls, after, r),
        check_ok(w, content, CheckQuery { modifiers: p.modifiers.push(m), ..p }, rolls, later, s),
    ensures
        s.total - r.total == m.value,
        s.d20_used == r.d20_used,
        s.auto_fail == r.auto_fail,
{
    assert(p.modifiers.push(m).drop_last() =~= p.modifiers);
}

// ── Success ──

/// A check succeeds if its total reaches the difficulty, and fails below it. Without a
/// difficulty it does neither, and where it fails in any case it fails. Only an attack can be a
/// critical hit, with a 20, or a fumble, with a 1.
pub proof fn law_total_has_to_reach_the_difficulty(
    w: World,
    content: Content,
    p: CheckQuery,
    rolls: CheckRolls,
    after: World,
    r: CheckResult,
)
    requires
        check_refusal(w, content, p) is None,
        check_ok(w, content, p, rolls, after, r),
    ensures
        r.auto_fail ==> r.success == Some(false),
        !r.auto_fail && p.dc is None ==> r.success is None,
        !r.auto_fail && p.dc is Some ==> r.success == Some(r.total >= p.dc->0),
        r.crit <==> (p.kind == "attack"@ || p.kind == "attack_roll"@) && r.d20_used == 20,
        r.fumble <==> (p.kind == "attack"@ || p.kind == "attack_roll"@) && r.d20_used == 1,
        r.dc == p.dc,
        after.characters == w.characters,
        after.conditions == w.conditions,
        after.effects == w.effects,
        after.items == w.items,
{
    law_kinds_have_their_names(p.kind);
}

/// A check fails in any case where, and only where, the character has an active condition under
/// which such checks fail, or checks with this key do. One condition more makes a difference
/// only then.
pub proof fn law_conditions_make_checks_fail(
    w: World,
    content: Content,
    p: CheckQuery,
    c: Condition<Seq<char>>,
)
    requires
        check_refusal(w, content, p) is None,
    ensures
        ({
            let kind = kind_of(p.kind)->0;
            let v = World { conditions: w.conditions.push(c), ..w };
            let hampers = c.active && c.character_id == p.character_id && (content.self_rider(c.condition, kind)
                == Some(RollModifier::AutoFail) || content.auto_fails(c.condition, p.target_key));
            &&& basis(v, content, p).auto_fail == (basis(w, content, p).auto_fail || hampers)
            &&& w.conditions.len() == 0 ==> !basis(w, content, p).auto_fail
        }),
{
    let kind = kind_of(p.kind)->0;
    let v = World { conditions: w.conditions.push(c), ..w };
    let n = w.conditions.len() as int;
    assert(v.conditions[n] == c);
    if basis(w, content, p).auto_fail {
        let i = choose|i: int|
            0 <= i < w.conditions.len() && (#[trigger] w.conditions[i]).character_id == p.character_id
                && w.conditions[i].active && (content.self_rider(w.conditions[i].condition, kind) == Some(
                RollModifier::AutoFail,
            ) || content.auto_fails(w.conditions[i].condition, p.target_key));
        assert(v.conditions[i] == w.conditions[i]);
    }
    if basis(v, content, p).auto_fail {
        let i = choose|i: int|
            0 <= i < v.conditions.len() && (#[trigger] v.conditions[i]).character_id == p.character_id
                && v.conditions[i].active && (content.self_rider(v.conditions[i].condition, kind) == Some(
                RollModifier::AutoFail,
            ) || content.auto_fails(v.conditions[i].condition, p.target_key));
        if i < n {
            assert(w.conditions[i] == v.conditions[i]);
        }
    }
}

/// Advantages and disadvantages are counted: what the caller says is one, and so is each active
/// condition of the character that gives it. More advantages than disadvantages give the better
/// of two dice, fewer the worse, and as many of both one die.
pub proof fn law_advantages_are_counted(w: World, content: Content, p: CheckQuery, c: Condition<Seq<char>>)
    ensures
        ({
            let kind = kind_of(p.kind)->0;
            let id = p.character_id;
            let v = World { conditions: w.conditions.push(c), ..w };
            let bare = World { conditions: Seq::empty(), ..w };
            let own = c.active && c.character_id == id;
            let up = own && content.self_rider(c.condition, kind) == Some(RollModifier::Advantage);
            let down = own && content.self_rider(c.condition, kind) == Some(RollModifier::Disadvantage);
            let a = advantages(w, content, id, kind, p.advantage);
            let d = disadvantages(w, content, id, kind, p.disadvantage);
            &&& advantages(v, content, id, kind, p.advantage) - a == if up {
                1int
            } else {
                0
            }
            &&& disadvantages(v, content, id, kind, p.disadvantage) - d == if down {
                1int
            } else {
                0
            }
            &&& advantages(bare, content, id, kind, p.advantage) == if p.advantage == Some(true) {
                1nat
            } else {
                0
            }
            &&& disadvantages(bare, content, id, kind, p.disadvantage) == if p.disadvantage == Some(true) {
                1nat
            } else {
                0
            }
            &&& advantages(w, content, id, kind, Some(true)) == advantages(w, content, id, kind, None) + 1
            &&& disadvantages(w, content, id, kind, Some(true)) == disadvantages(w, content, id, kind, None) + 1
            &&& a > d ==> basis(w, content, p).posture == Posture::Advantage
            &&& a < d ==> basis(w, content, p).posture == Posture::Disadvantage
            &&& a == d ==> basis(w, content, p).posture == Posture::Normal
        }),
{
    assert(w.conditions.push(c).drop_last() =~= w.conditions);
}

/// Of two dice the larger counts with an advantage and the smaller with a disadvantage; a single
/// one counts as it is. The total has it once.
pub proof fn law_the_die_that_counts(
    w: World,
    content: Content,
    p: CheckQuery,
    rolls: CheckRolls,
    after: World,
    r: CheckResult,
)
    requires
        check_ok(w, content, p, rolls, after, r),
        check_rolls_ok(basis(w, content, p), rolls),
    ensures
        r.d20s@ == rolls.d20s@,
        r.posture == Posture::Normal ==> r.d20s@.len() == 1 && r.d20_used == r.d20s@[0],
        r.posture != Posture::Normal ==> r.d20s@.len() == 2 && (r.d20_used == r.d20s@[0] || r.d20_used
            == r.d20s@[1]),
        r.posture == Posture::Advantage ==> r.d20_used >= r.d20s@[0] && r.d20_used >= r.d20s@[1],
        r.posture == Posture::Disadvantage ==> r.d20_used <= r.d20s@[0] && r.d20_used <= r.d20s@[1],
{
}

/// With nothing else to count, the total is what the d20 shows.
pub proof fn law_bare_check_is_the_die(
    w: World,
    content: Content,
    p: CheckQuery,
    rolls: CheckRolls,
    after: World,
    r: CheckResult,
)
    requires
        check_ok(w, content, p, rolls, after, r),
        w.effects.len() == 0,
        w.proficiencies.len() == 0,
        p.modifiers.len() == 0,
        ({
            let ability = ability_of(content, kind_of(p.kind)->0, p.target_key, p.ability)->Ok_0;
            10 <= ability.base(row(w.characters, p.character_id)) <= 11
        }),
    ensures
        r.total == r.d20_used,
{
    let b = basis(w, content, p);
    assert(die_rolls(b.dice, rolls.dice@).len() == 0);
}

/// What a check tells of how it came about begins with the d20 that counts and the ability that it
/// goes by, and ends with what the caller added, each as it was given.
pub proof fn law_breakdown_tells_what_counts(
    w: World,
    content: Content,
    p: CheckQuery,
    rolls: CheckRolls,
    after: World,
    r: CheckResult,
    k: int,
)
    requires
        check_ok(w, content, p, rolls, after, r),
        check_rolls_ok(basis(w, content, p), rolls),
        -1000 <= basis(w, content, p).score <= 1000,
    ensures
        ({
            let lines = views(r.breakdown@);
            let score = basis(w, content, p).score;
            let n = lines.len() - p.modifiers.len();
            &&& n >= 2
            &&& lines[0].kind == "d20:"@ + r.posture.text()
            &&& lines[0].value == r.d20_used
            &&& lines[1].kind == "ability:"@ + r.ability@
            &&& 2 * lines[1].value <= score - 10 <= 2 * lines[1].value + 1
            &&& 0 <= k < p.modifiers.len() ==> {
                &&& lines[n + k].kind == p.modifiers[k].kind
                &&& lines[n + k].value == p.modifiers[k].value
                &&& lines[n + k].reason == p.modifiers[k].reason
            }
        }),
{
    let b = basis(w, content, p);
    assert(1 <= rolls.d20s@[0] <= 20);
    if b.posture != Posture::Normal {
        assert(1 <= rolls.d20s@[1] <= 20);
    }
}

} // verus!
