//! Checks: skill checks, saves, attack rolls and ability checks.
//!
//! A check adds up the roll of a d20, the modifier of an ability as effects have it, training,
//! what effects add to this very check, their dice, and what the caller adds.

use vstd::prelude::*;
use crate::campaign::{find, lemma_tables, listed, next_id, row, Campaign, World};
use crate::content::{CheckKind, Content, RollModifier};
use crate::dice::{
    can_roll, draw, in_bounds, label, lemma_roll_fits, parse, parsed, roll_with, sum, DiceSpec,
};
use crate::error::{Error, Fault};
use crate::events::{
    bool_field, both, cells2, cells3, entry, entry_view, field, field_view, fields10, int_cell, int_field,
    join_fields, make_int_cell, make_opt_text_cell, make_text_cell, one, only, opt_int, opt_int32,
    opt_int32_field, opt_int_field, opt_text_cell, pair, text_cell, text_field,
};
use crate::random::random_between;
use crate::rows::{
    views, Cell, Character, Condition, Effect, EventParticipant, EventRole, EventView, Proficiency, Value,
    ValueView,
};
use crate::text::{copy_opt, decimal, int_text, opt_text, same};

verus! {

/// One of the six abilities.
#[derive(Debug, Clone, Copy, PartialEq, Eq, Structural)]
pub enum AbilityId {
    Str,
    Dex,
    Con,
    Int,
    Wis,
    Cha,
}

impl AbilityId {
    /// Its id.
    pub open spec fn text(self) -> Seq<char> {
        match self {
            AbilityId::Str => "str"@,
            AbilityId::Dex => "dex"@,
            AbilityId::Con => "con"@,
            AbilityId::Int => "int"@,
            AbilityId::Wis => "wis"@,
            AbilityId::Cha => "cha"@,
        }
    }

    /// Its id in capitals.
    pub open spec fn upper(self) -> Seq<char> {
        match self {
            AbilityId::Str => "STR"@,
            AbilityId::Dex => "DEX"@,
            AbilityId::Con => "CON"@,
            AbilityId::Int => "INT"@,
            AbilityId::Wis => "WIS"@,
            AbilityId::Cha => "CHA"@,
        }
    }

    /// The key of effects on it.
    pub open spec fn column(self) -> Seq<char> {
        match self {
            AbilityId::Str => "str_score"@,
            AbilityId::Dex => "dex_score"@,
            AbilityId::Con => "con_score"@,
            AbilityId::Int => "int_score"@,
            AbilityId::Wis => "wis_score"@,
            AbilityId::Cha => "cha_score"@,
        }
    }

    /// A character's own score in it.
    pub open spec fn base<S>(self, ch: Character<S>) -> i32 {
        match self {
            AbilityId::Str => ch.str_score,
            AbilityId::Dex => ch.dex_score,
            AbilityId::Con => ch.con_score,
            AbilityId::Int => ch.int_score,
            AbilityId::Wis => ch.wis_score,
            AbilityId::Cha => ch.cha_score,
        }
    }

    /// The ability with this id.
    pub open spec fn of_text(s: Seq<char>) -> Option<AbilityId> {
        if s == "str"@ {
            Some(AbilityId::Str)
        } else if s == "dex"@ {
            Some(AbilityId::Dex)
        } else if s == "con"@ {
            Some(AbilityId::Con)
        } else if s == "int"@ {
            Some(AbilityId::Int)
        } else if s == "wis"@ {
            Some(AbilityId::Wis)
        } else if s == "cha"@ {
            Some(AbilityId::Cha)
        } else {
            None
        }
    }

    /// The ability with this id.
    pub fn parse(s: &str) -> (r: Option<AbilityId>)
        ensures
            r == AbilityId::of_text(s@),
    {
        if same(s, "str") {
            Some(AbilityId::Str)
        } else if same(s, "dex") {
            Some(AbilityId::Dex)
        } else if same(s, "con") {
            Some(AbilityId::Con)
        } else if same(s, "int") {
            Some(AbilityId::Int)
        } else if same(s, "wis") {
            Some(AbilityId::Wis)
        } else if same(s, "cha") {
            Some(AbilityId::Cha)
        } else {
            None
        }
    }

    /// Its id.
    pub fn as_str(&self) -> (r: &'static str)
        ensures
            r@ == self.text(),
    {
        match self {
            AbilityId::Str => "str",
            AbilityId::Dex => "dex",
            AbilityId::Con => "con",
            AbilityId::Int => "int",
            AbilityId::Wis => "wis",
            AbilityId::Cha => "cha",
        }
    }

    fn capitals(&self) -> (r: &'static str)
        ensures
            r@ == self.upper(),
    {
        match self {
            AbilityId::Str => "STR",
            AbilityId::Dex => "DEX",
            AbilityId::Con => "CON",
            AbilityId::Int => "INT",
            AbilityId::Wis => "WIS",
            AbilityId::Cha => "CHA",
        }
    }

    /// The key of effects on it.
    pub(crate) fn key(&self) -> (r: &'static str)
        ensures
            r@ == self.column(),
    {
        match self {
            AbilityId::Str => "str_score",
            AbilityId::Dex => "dex_score",
            AbilityId::Con => "con_score",
            AbilityId::Int => "int_score",
            AbilityId::Wis => "wis_score",
            AbilityId::Cha => "cha_score",
        }
    }

    /// A character's own score in it.
    pub(crate) fn score_of(&self, ch: &Character) -> (r: i32)
        ensures
            r == self.base(*ch),
            r == self.base(ch@),
    {
        match self {
            AbilityId::Str => ch.str_score,
            AbilityId::Dex => ch.dex_score,
            AbilityId::Con => ch.con_score,
            AbilityId::Int => ch.int_score,
            AbilityId::Wis => ch.wis_score,
            AbilityId::Cha => ch.cha_score,
        }
    }
}

/// How the d20 is rolled.
#[derive(Debug, Clone, Copy, PartialEq, Eq, Structural)]
pub enum Posture {
    Advantage,
    Disadvantage,
    Normal,
}

impl Posture {
    /// The word for it.
    pub open spec fn text(self) -> Seq<char> {
        match self {
            Posture::Advantage => "advantage"@,
            Posture::Disadvantage => "disadvantage"@,
            Posture::Normal => "normal"@,
        }
    }
}

/// The word for a posture.
pub fn posture_label(p: Posture) -> (r: &'static str)
    ensures
        r@ == p.text(),
{
    match p {
        Posture::Normal => "normal",
        Posture::Advantage => "advantage",
        Posture::Disadvantage => "disadvantage",
    }
}

/// What the caller adds to a check, and why.
#[derive(Debug, Clone, PartialEq, Eq)]
pub struct NamedModifier<S = String> {
    pub kind: S,
    pub value: i32,
    pub reason: Option<S>,
}

#[derive(Debug, Clone, PartialEq, Eq)]
pub struct ResolveCheckParams {
    pub character_id: i64,
    /// `skill_check`, `save`, `attack_roll` or `ability_check`.
    pub kind: String,
    /// A skill, `save:` and an ability, what is attacked with, or an ability.
    pub target_key: String,
    /// The ability to go by, in place of the usual one.
    pub ability: Option<String>,
    /// Whom the check is against. It is put on record and changes nothing.
    pub target_character_id: Option<i64>,
    /// What the total has to reach. Without it the check neither succeeds nor fails.
    pub dc: Option<i32>,
    pub modifiers: Vec<NamedModifier>,
    pub advantage: Option<bool>,
    pub disadvantage: Option<bool>,
}

/// One contribution to a check.
#[derive(Debug, Clone, PartialEq, Eq)]
pub struct BreakdownEntry<S = String> {
    pub kind: S,
    pub value: i32,
    pub reason: Option<S>,
}

/// What the dice of an effect came to.
#[derive(Debug, Clone, PartialEq, Eq)]
pub struct DieRoll<S = String> {
    pub spec: S,
    pub value: i64,
}

#[derive(Debug, Clone, PartialEq, Eq)]
pub struct CheckResult {
    pub character_id: i64,
    pub kind: String,
    pub target_key: String,
    pub ability: String,
    pub posture: Posture,
    /// All d20s rolled: two with advantage or disadvantage, else one.
    pub d20s: Vec<i64>,
    /// The one that counts.
    pub d20_used: i64,
    pub effect_dice: Vec<DieRoll>,
    pub total: i64,
    pub dc: Option<i32>,
    pub success: Option<bool>,
    pub crit: bool,
    pub fumble: bool,
    pub auto_fail: bool,
    pub breakdown: Vec<BreakdownEntry>,
    pub event_id: i64,
}

/// The numbers rolled for a check: the d20s, and for each effect with dice theirs.
#[derive(Debug, Clone, PartialEq, Eq)]
pub struct CheckRolls {
    pub d20s: Vec<i64>,
    pub dice: Vec<Vec<i64>>,
}

/// What a check is asked to be.
pub struct CheckQuery {
    pub character_id: i64,
    pub kind: Seq<char>,
    pub target_key: Seq<char>,
    pub ability: Option<Seq<char>>,
    pub target_character_id: Option<i64>,
    pub dc: Option<i32>,
    pub modifiers: Seq<NamedModifier<Seq<char>>>,
    pub advantage: Option<bool>,
    pub disadvantage: Option<bool>,
}

impl View for ResolveCheckParams {
    type V = CheckQuery;

    open spec fn view(&self) -> CheckQuery {
        CheckQuery {
            character_id: self.character_id,
            kind: self.kind@,
            target_key: self.target_key@,
            ability: opt_text(self.ability),
            target_character_id: self.target_character_id,
            dc: self.dc,
            modifiers: views(self.modifiers@),
            advantage: self.advantage,
            disadvantage: self.disadvantage,
        }
    }
}

impl View for NamedModifier {
    type V = NamedModifier<Seq<char>>;

    open spec fn view(&self) -> NamedModifier<Seq<char>> {
        NamedModifier { kind: self.kind@, value: self.value, reason: opt_text(self.reason) }
    }
}

impl View for BreakdownEntry {
    type V = BreakdownEntry<Seq<char>>;

    open spec fn view(&self) -> BreakdownEntry<Seq<char>> {
        BreakdownEntry { kind: self.kind@, value: self.value, reason: opt_text(self.reason) }
    }
}

impl View for DieRoll {
    type V = DieRoll<Seq<char>>;

    open spec fn view(&self) -> DieRoll<Seq<char>> {
        DieRoll { spec: self.spec@, value: self.value }
    }
}

/// The kind of check that the word stands for.
pub open spec fn kind_of(s: Seq<char>) -> Option<CheckKind> {
    if s == "skill_check"@ {
        Some(CheckKind::SkillCheck)
    } else if s == "save"@ || s == "saving_throw"@ {
        Some(CheckKind::SavingThrow)
    } else if s == "attack_roll"@ || s == "attack"@ {
        Some(CheckKind::AttackRoll)
    } else if s == "ability_check"@ {
        Some(CheckKind::AbilityCheck)
    } else {
        None
    }
}

/// The kind of check that the word stands for.
pub fn parse_kind(s: &str) -> (r: Result<CheckKind, Error>)
    ensures
        match kind_of(s@) {
            Some(k) => r == Ok::<CheckKind, Error>(k),
            None => r is Err && r->Err_0@ == (Error::UnknownCheckKind { kind: s@ }),
        },
{
    if same(s, "skill_check") {
        Ok(CheckKind::SkillCheck)
    } else if same(s, "save") || same(s, "saving_throw") {
        Ok(CheckKind::SavingThrow)
    } else if same(s, "attack_roll") || same(s, "attack") {
        Ok(CheckKind::AttackRoll)
    } else if same(s, "ability_check") {
        Ok(CheckKind::AbilityCheck)
    } else {
        Err(Error::UnknownCheckKind { kind: s.to_owned() })
    }
}

/// The ability that a check goes by: what the caller names, else what the key of a save or an
/// ability check says, else the ability of the skill, else strength.
pub open spec fn ability_of(
    content: Content,
    kind: CheckKind,
    key: Seq<char>,
    named: Option<Seq<char>>,
) -> Result<AbilityId, Error<Seq<char>>> {
    match named {
        Some(a) => match AbilityId::of_text(a) {
            Some(x) => Ok(x),
            None => Err(Error::UnknownAbilityOverride { ability: a }),
        },
        None => match kind {
            CheckKind::SavingThrow => if key.len() >= 5 && key.take(5) == "save:"@ {
                match AbilityId::of_text(key.skip(5)) {
                    Some(x) => Ok(x),
                    None => Err(Error::SaveAbility { ability: key.skip(5) }),
                }
            } else {
                Err(Error::SaveKeyForm { key })
            },
            CheckKind::AbilityCheck => match AbilityId::of_text(key) {
                Some(x) => Ok(x),
                None => Err(Error::AbilityCheckKey { key }),
            },
            CheckKind::SkillCheck => match content.skill(key) {
                Some(k) => match AbilityId::of_text(content.skills@[k].ability@) {
                    Some(x) => Ok(x),
                    None => Err(Error::UnknownAbility { ability: content.skills@[k].ability@ }),
                },
                None => Err(Error::UnknownSkill { key }),
            },
            CheckKind::AttackRoll => Ok(AbilityId::Str),
        },
    }
}

fn resolve_ability(
    content: &Content,
    kind: CheckKind,
    key: &str,
    named: &Option<String>,
) -> (r: Result<AbilityId, Error>)
    ensures
        match r {
            Ok(a) => ability_of(*content, kind, key@, opt_text(*named)) == Ok::<
                AbilityId,
                Error<Seq<char>>,
            >(a),
            Err(e) => ability_of(*content, kind, key@, opt_text(*named)) == Err::<
                AbilityId,
                Error<Seq<char>>,
            >(e@),
        },
{
    if let Some(a) = named {
        return match AbilityId::parse(a.as_str()) {
            Some(x) => Ok(x),
            None => Err(Error::UnknownAbilityOverride { ability: a.clone() }),
        };
    }
    match kind {
        CheckKind::SavingThrow => {
            let n: usize = key.unicode_len();
            if n >= 5 {
                let head = key.substring_char(0, 5);
                let tail = key.substring_char(5, n);
                proof {
                    assert(head@ =~= key@.take(5));
                    assert(tail@ =~= key@.skip(5));
                }
                if same(head, "save:") {
                    return match AbilityId::parse(tail) {
                        Some(x) => Ok(x),
                        None => Err(Error::SaveAbility { ability: tail.to_owned() }),
                    };
                }
            }
            Err(Error::SaveKeyForm { key: key.to_owned() })
        },
        CheckKind::AbilityCheck => match AbilityId::parse(key) {
            Some(x) => Ok(x),
            None => Err(Error::AbilityCheckKey { key: key.to_owned() }),
        },
        CheckKind::SkillCheck => match content.find_skill(key) {
            Some(k) => match AbilityId::parse(content.skills[k].ability.as_str()) {
                Some(x) => Ok(x),
                None => Err(Error::UnknownAbility { ability: content.skills[k].ability.clone() }),
            },
            None => Err(Error::UnknownSkill { key: key.to_owned() }),
        },
        CheckKind::AttackRoll => Ok(AbilityId::Str),
    }
}

/// The active effects on a character that have this key, oldest first.
pub open spec fn effects_on(
    rows: Seq<Effect<Seq<char>>>,
    character_id: i64,
    key: Seq<char>,
) -> Seq<Effect<Seq<char>>>
    decreases rows.len(),
{
    if rows.len() == 0 {
        Seq::empty()
    } else {
        let rest = effects_on(rows.drop_last(), character_id, key);
        let e = rows.last();
        if e.target_character_id == character_id && e.active && e.target_key == key {
            rest.push(e)
        } else {
            rest
        }
    }
}

/// What the effects add up to.
pub open spec fn modifiers(rows: Seq<Effect<Seq<char>>>) -> int
    decreases rows.len(),
{
    if rows.len() == 0 {
        0
    } else {
        modifiers(rows.drop_last()) + rows.last().modifier
    }
}

/// A character's score in an ability, with what active effects add to it.
pub open spec fn effective_score(w: World, character_id: i64, ability: AbilityId) -> int {
    ability.base(row(w.characters, character_id)) + modifiers(
        effects_on(w.effects, character_id, ability.column()),
    )
}

/// The modifier that a score gives: half of what it is above 10, rounded down.
pub open spec fn modifier_of(score: int) -> int {
    (score - 10) / 2
}

/// The modifier that a score gives: half of what it is above 10, rounded down.
pub fn ability_modifier(score: i32) -> (r: i32)
    ensures
        r == modifier_of(score as int),
{
    let n: i64 = score as i64 - 10;
    if n >= 0 {
        (n / 2) as i32
    } else {
        (-((1 - n) / 2)) as i32
    }
}

/// What the character is trained in under this name.
pub open spec fn training_at(
    rows: Seq<Proficiency<Seq<char>>>,
    character_id: i64,
    name: Seq<char>,
    n: nat,
) -> Option<int>
    decreases n,
{
    if n == 0 {
        None
    } else if rows[n - 1].character_id == character_id && rows[n - 1].name == name {
        Some(n - 1)
    } else {
        training_at(rows, character_id, name, (n - 1) as nat)
    }
}

/// Where the character's training under this name stands.
pub open spec fn training_of(w: World, character_id: i64, name: Seq<char>) -> Option<int> {
    training_at(w.proficiencies, character_id, name, w.proficiencies.len())
}

/// Where the character's training under this name stands.
pub(crate) fn find_training(c: &Campaign, character_id: i64, name: &str) -> (r: Option<usize>)
    ensures
        match r {
            Some(k) => {
                &&& training_of(c@, character_id, name@) == Some(k as int)
                &&& k < c.proficiencies.len()
                &&& c@.proficiencies[k as int].character_id == character_id
                &&& c@.proficiencies[k as int].name == name@
            },
            None => {
                &&& training_of(c@, character_id, name@) is None
                &&& forall|j: int|
                    0 <= j < c@.proficiencies.len() ==> !((#[trigger] c@.proficiencies[j]).character_id
                        == character_id && c@.proficiencies[j].name == name@)
            },
        },
{
    let mut n: usize = c.proficiencies.len();
    while n > 0
        invariant
            n <= c.proficiencies.len(),
            training_of(c@, character_id, name@) == training_at(
                c@.proficiencies,
                character_id,
                name@,
                n as nat,
            ),
            forall|j: int|
                n <= j < c@.proficiencies.len() ==> !((#[trigger] c@.proficiencies[j]).character_id
                    == character_id && c@.proficiencies[j].name == name@),
        decreases n,
    {
        let r = &c.proficiencies[n - 1];
        assert(c@.proficiencies[n - 1] == r@);
        if r.character_id == character_id && same(r.name.as_str(), name) {
            return Some(n - 1);
        }
        n = n - 1;
    }
    None
}

/// What training adds to a check: the proficiency bonus, twice with expertise, and the ranks.
pub open spec fn training_bonus(bonus: i32, t: Option<Proficiency<Seq<char>>>) -> int {
    match t {
        Some(r) => (if r.proficient {
            if r.expertise {
                bonus * 2
            } else {
                bonus as int
            }
        } else {
            0
        }) + r.ranks,
        None => 0,
    }
}

/// A number with its sign.
pub open spec fn signed(n: int) -> Seq<char> {
    if n >= 0 {
        "+"@ + int_text(n)
    } else {
        int_text(n)
    }
}

fn with_sign(n: i64) -> (r: String)
    ensures
        r@ == signed(n as int),
{
    if n >= 0 {
        let mut s = "+".to_owned();
        s.append(decimal(n).as_str());
        s
    } else {
        decimal(n)
    }
}

/// How training comes in, in words.
pub open spec fn training_text(bonus: i32, r: Proficiency<Seq<char>>) -> Seq<char> {
    if r.proficient && r.expertise {
        if r.ranks != 0 {
            "proficient + expertise (+"@ + int_text(bonus * 2) + ") + ranks ("@ + signed(r.ranks as int)
                + ")"@
        } else {
            "proficient + expertise (+"@ + int_text(bonus * 2) + ")"@
        }
    } else if r.proficient {
        if r.ranks != 0 {
            "proficient (+"@ + int_text(bonus as int) + ") + ranks ("@ + signed(r.ranks as int) + ")"@
        } else {
            "proficient (+"@ + int_text(bonus as int) + ")"@
        }
    } else if r.ranks != 0 {
        "ranks ("@ + signed(r.ranks as int) + ")"@
    } else {
        "known, not proficient"@
    }
}

fn explain_training(bonus: i32, r: &Proficiency) -> (t: String)
    ensures
        t@ == training_text(bonus, r@),
{
    if r.proficient && r.expertise {
        let mut s = "proficient + expertise (+".to_owned();
        s.append(decimal(bonus as i64 * 2).as_str());
        if r.ranks != 0 {
            s.append(") + ranks (");
            s.append(with_sign(r.ranks as i64).as_str());
            s.append(")");
        } else {
            s.append(")");
        }
        s
    } else if r.proficient {
        let mut s = "proficient (+".to_owned();
        s.append(decimal(bonus as i64).as_str());
        if r.ranks != 0 {
            s.append(") + ranks (");
            s.append(with_sign(r.ranks as i64).as_str());
            s.append(")");
        } else {
            s.append(")");
        }
        s
    } else if r.ranks != 0 {
        let mut s = "ranks (".to_owned();
        s.append(with_sign(r.ranks as i64).as_str());
        s.append(")");
        s
    } else {
        "known, not proficient".to_owned()
    }
}

/// The effects that have dice.
pub open spec fn with_dice(rows: Seq<Effect<Seq<char>>>) -> Seq<Effect<Seq<char>>>
    decreases rows.len(),
{
    if rows.len() == 0 {
        Seq::empty()
    } else {
        let rest = with_dice(rows.drop_last());
        if rows.last().dice_expr is Some {
            rest.push(rows.last())
        } else {
            rest
        }
    }
}

/// The first of the first `n` effects with dice whose dice cannot be read.
pub open spec fn unreadable(rows: Seq<Effect<Seq<char>>>, n: nat) -> Option<int>
    decreases n,
{
    if n == 0 {
        None
    } else {
        match unreadable(rows, (n - 1) as nat) {
            Some(k) => Some(k),
            None => if parsed(rows[n - 1].dice_expr->0) is Err {
                Some(n - 1)
            } else {
                None
            },
        }
    }
}

/// What is rolled for an effect with dice.
pub open spec fn dice_of(e: Effect<Seq<char>>) -> DiceSpec {
    parsed(e.dice_expr->0)->Ok_0
}

/// What the dice of the effects came to.
pub open spec fn die_rolls(rows: Seq<Effect<Seq<char>>>, dice: Seq<Vec<i64>>) -> Seq<DieRoll<Seq<char>>> {
    Seq::new(
        rows.len(),
        |k: int|
            DieRoll {
                spec: rows[k].source + "/"@ + label(dice_of(rows[k])),
                value: sum(dice[k]@) as i64,
            },
    )
}

/// The sum of what the dice came to.
pub open spec fn dice_sum(dice: Seq<DieRoll<Seq<char>>>) -> int
    decreases dice.len(),
{
    if dice.len() == 0 {
        0
    } else {
        dice_sum(dice.drop_last()) + dice.last().value
    }
}

/// The sum of what the caller adds.
pub open spec fn named_sum(m: Seq<NamedModifier<Seq<char>>>) -> int
    decreases m.len(),
{
    if m.len() == 0 {
        0
    } else {
        named_sum(m.drop_last()) + m.last().value
    }
}

/// Whether the condition is one of the character's, is active, and has this rider for this kind
/// of check.
pub open spec fn rides(
    content: Content,
    r: Condition<Seq<char>>,
    character_id: i64,
    kind: CheckKind,
    m: RollModifier,
) -> bool {
    r.character_id == character_id && r.active && content.self_rider(r.condition, kind) == Some(m)
}

/// How many active conditions of the character have this rider for this kind of check.
pub open spec fn riders(
    content: Content,
    rows: Seq<Condition<Seq<char>>>,
    character_id: i64,
    kind: CheckKind,
    m: RollModifier,
) -> nat
    decreases rows.len(),
{
    if rows.len() == 0 {
        0
    } else {
        riders(content, rows.drop_last(), character_id, kind, m) + one_if(
            rides(content, rows.last(), character_id, kind, m),
        )
    }
}

/// One where it is so, else nothing.
pub open spec fn one_if(b: bool) -> nat {
    if b {
        1
    } else {
        0
    }
}

/// Whether some active condition of the character makes this check fail.
pub open spec fn fails(
    content: Content,
    rows: Seq<Condition<Seq<char>>>,
    character_id: i64,
    kind: CheckKind,
    key: Seq<char>,
) -> bool {
    exists|i: int|
        0 <= i < rows.len() && (#[trigger] rows[i]).character_id == character_id && rows[i].active && (
        content.self_rider(rows[i].condition, kind) == Some(RollModifier::AutoFail)
            || content.auto_fails(rows[i].condition, key))
}

/// Each advantage cancels one disadvantage, wherever they come from, and what is left over
/// decides.
pub open spec fn posture_of(advantages: nat, disadvantages: nat) -> Posture {
    if advantages > disadvantages {
        Posture::Advantage
    } else if disadvantages > advantages {
        Posture::Disadvantage
    } else {
        Posture::Normal
    }
}

/// The larger d20 with advantage, the smaller one with disadvantage, else the only one.
pub open spec fn d20_used(posture: Posture, d20s: Seq<i64>) -> i64 {
    match posture {
        Posture::Normal => d20s[0],
        Posture::Advantage => if d20s[0] >= d20s[1] {
            d20s[0]
        } else {
            d20s[1]
        },
        Posture::Disadvantage => if d20s[0] <= d20s[1] {
            d20s[0]
        } else {
            d20s[1]
        },
    }
}

/// All that bears on a check before anything is rolled.
pub struct CheckBasisView {
    pub kind: CheckKind,
    pub ability: AbilityId,
    pub score: int,
    pub ability_effects: Seq<Effect<Seq<char>>>,
    pub training: Option<Proficiency<Seq<char>>>,
    pub bonus: i32,
    pub effects: Seq<Effect<Seq<char>>>,
    pub dice: Seq<Effect<Seq<char>>>,
    pub posture: Posture,
    pub auto_fail: bool,
    pub caller: int,
}

/// How many advantages there are: from conditions, and from the caller.
pub open spec fn advantages(w: World, content: Content, id: i64, kind: CheckKind, hint: Option<bool>) -> nat {
    riders(content, w.conditions, id, kind, RollModifier::Advantage) + one_if(hint == Some(true))
}

/// How many disadvantages there are: from conditions, and from the caller.
pub open spec fn disadvantages(w: World, content: Content, id: i64, kind: CheckKind, hint: Option<bool>) -> nat {
    riders(content, w.conditions, id, kind, RollModifier::Disadvantage) + one_if(hint == Some(true))
}

/// All that bears on a check before anything is rolled.
pub open spec fn basis(w: World, content: Content, p: CheckQuery) -> CheckBasisView {
    let kind = kind_of(p.kind)->0;
    let ability = ability_of(content, kind, p.target_key, p.ability)->Ok_0;
    let id = p.character_id;
    let effects = effects_on(w.effects, id, p.target_key);
    CheckBasisView {
        kind,
        ability,
        score: effective_score(w, id, ability),
        ability_effects: effects_on(w.effects, id, ability.column()),
        training: if kind == CheckKind::AbilityCheck {
            None
        } else {
            match training_of(w, id, p.target_key) {
                Some(k) => Some(w.proficiencies[k]),
                None => None,
            }
        },
        bonus: row(w.characters, id).proficiency_bonus,
        effects,
        dice: with_dice(effects),
        posture: posture_of(
            advantages(w, content, id, kind, p.advantage),
            disadvantages(w, content, id, kind, p.disadvantage),
        ),
        auto_fail: fails(content, w.conditions, id, kind, p.target_key),
        caller: named_sum(p.modifiers),
    }
}

/// Why the check cannot be made, where it cannot.
pub open spec fn check_refusal(w: World, content: Content, p: CheckQuery) -> Option<Error<Seq<char>>> {
    if kind_of(p.kind) is None {
        Some(Error::UnknownCheckKind { kind: p.kind })
    } else {
        match ability_of(content, kind_of(p.kind)->0, p.target_key, p.ability) {
            Err(e) => Some(e),
            Ok(ability) => if !listed(w.characters, p.character_id) {
                Some(Error::ReadAbility { column: ability.column(), id: p.character_id })
            } else {
                let dice = with_dice(effects_on(w.effects, p.character_id, p.target_key));
                match unreadable(dice, dice.len()) {
                    Some(k) => Some(
                        Error::EffectDice {
                            expr: dice[k].dice_expr->0,
                            source: dice[k].source,
                            cause: parsed(dice[k].dice_expr->0)->Err_0.text(),
                        },
                    ),
                    None => if p.target_character_id matches Some(t) && !listed(w.characters, t) {
                        Some(
                            Error::EventParticipantRow {
                                event_id: next_id(w.events),
                                character_id: p.target_character_id->0,
                                role: "target"@,
                                fault: Fault::ForeignKey,
                            },
                        )
                    } else {
                        None
                    },
                }
            },
        }
    }
}

/// Whether a number is an `i32`.
pub open spec fn fits(n: int) -> bool {
    i32::MIN <= n <= i32::MAX
}

/// The score, the training, the effects and the caller's part are numbers that a check can
/// hold.
pub open spec fn sums_fit(w: World, content: Content, p: CheckQuery) -> bool {
    check_refusal(w, content, p) is None ==> {
        let b = basis(w, content, p);
        &&& fits(b.score)
        &&& fits(training_bonus(b.bonus, b.training))
        &&& fits(modifiers(b.effects))
        &&& fits(b.caller)
    }
}

/// Whether these numbers can be rolled for the check.
pub open spec fn check_rolls_ok(b: CheckBasisView, rolls: CheckRolls) -> bool {
    &&& rolls.d20s@.len() == (if b.posture == Posture::Normal {
        1nat
    } else {
        2
    })
    &&& forall|i: int| 0 <= i < rolls.d20s@.len() ==> 1 <= #[trigger] rolls.d20s@[i] <= 20
    &&& rolls.dice@.len() == b.dice.len()
    &&& forall|k: int| 0 <= k < b.dice.len() ==> can_roll(dice_of(b.dice[k]), (#[trigger] rolls.dice@[k])@)
}

/// The total of a check.
pub open spec fn total_of(b: CheckBasisView, rolls: CheckRolls) -> int {
    d20_used(b.posture, rolls.d20s@) + modifier_of(b.score) + training_bonus(b.bonus, b.training)
        + modifiers(b.effects) + dice_sum(die_rolls(b.dice, rolls.dice@)) + b.caller
}

/// Whether a check succeeds: never where a condition makes it fail, else by its total against
/// the difficulty, where there is one.
pub open spec fn success_of(b: CheckBasisView, dc: Option<i32>, total: int) -> Option<bool> {
    if b.auto_fail {
        Some(false)
    } else {
        match dc {
            Some(n) => Some(total >= n),
            None => None,
        }
    }
}

pub open spec fn d20_text(d20s: Seq<i64>) -> Seq<char> {
    if d20s.len() == 1 {
        "rolled ["@ + int_text(d20s[0] as int) + "]"@
    } else {
        "rolled ["@ + int_text(d20s[0] as int) + ", "@ + int_text(d20s[1] as int) + "]"@
    }
}

/// One line for each effect on the ability that changes it.
pub open spec fn ability_lines(
    rows: Seq<Effect<Seq<char>>>,
    ability: AbilityId,
) -> Seq<BreakdownEntry<Seq<char>>>
    decreases rows.len(),
{
    if rows.len() == 0 {
        Seq::empty()
    } else {
        let rest = ability_lines(rows.drop_last(), ability);
        let e = rows.last();
        if e.modifier != 0 {
            rest.push(
                BreakdownEntry {
                    kind: "effect:ability:"@ + e.source,
                    value: e.modifier,
                    reason: Some(
                        e.source + " → "@ + signed(e.modifier as int) + " "@ + ability.upper()
                            + " (folded into effective score above)"@,
                    ),
                },
            )
        } else {
            rest
        }
    }
}

/// One line for each effect on the check that changes it.
pub open spec fn effect_lines(rows: Seq<Effect<Seq<char>>>) -> Seq<BreakdownEntry<Seq<char>>>
    decreases rows.len(),
{
    if rows.len() == 0 {
        Seq::empty()
    } else {
        let rest = effect_lines(rows.drop_last());
        let e = rows.last();
        if e.modifier != 0 {
            rest.push(BreakdownEntry { kind: "effect:"@ + e.source, value: e.modifier, reason: None })
        } else {
            rest
        }
    }
}

/// What the dice of effects add, line by line.
pub open spec fn die_lines(dice: Seq<DieRoll<Seq<char>>>) -> Seq<BreakdownEntry<Seq<char>>> {
    Seq::new(
        dice.len(),
        |k: int|
            BreakdownEntry {
                kind: "effect_die:"@ + dice[k].spec,
                value: dice[k].value as i32,
                reason: None,
            },
    )
}

/// What the caller adds, line by line.
pub open spec fn caller_lines(mods: Seq<NamedModifier<Seq<char>>>) -> Seq<BreakdownEntry<Seq<char>>> {
    Seq::new(
        mods.len(),
        |k: int| BreakdownEntry { kind: mods[k].kind, value: mods[k].value, reason: mods[k].reason },
    )
}

/// Each contribution to the check, in order.
pub open spec fn breakdown_of(
    b: CheckBasisView,
    p: CheckQuery,
    rolls: CheckRolls,
) -> Seq<BreakdownEntry<Seq<char>>> {
    seq![
        BreakdownEntry {
            kind: "d20:"@ + b.posture.text(),
            value: d20_used(b.posture, rolls.d20s@) as i32,
            reason: Some(d20_text(rolls.d20s@)),
        },
        BreakdownEntry {
            kind: "ability:"@ + b.ability.text(),
            value: modifier_of(b.score) as i32,
            reason: Some(
                "mod from effective "@ + b.ability.upper() + " score "@ + int_text(b.score),
            ),
        },
    ] + ability_lines(b.ability_effects, b.ability) + (match b.training {
        Some(t) => seq![
            BreakdownEntry {
                kind: "proficiency"@,
                value: training_bonus(b.bonus, b.training) as i32,
                reason: Some(training_text(b.bonus, t)),
            },
        ],
        None => Seq::empty(),
    }) + effect_lines(b.effects) + die_lines(die_rolls(b.dice, rolls.dice@)) + caller_lines(p.modifiers)
}

pub open spec fn opt_bool(b: Option<bool>) -> ValueView {
    match b {
        Some(x) => ValueView::Bool(x),
        None => ValueView::Null,
    }
}

pub open spec fn dc_text(dc: Option<i32>) -> Seq<char> {
    match dc {
        Some(n) => "Some("@ + int_text(n as int) + ")"@,
        None => "None"@,
    }
}

pub open spec fn success_text(s: Option<bool>) -> Seq<char> {
    match s {
        Some(true) => "success"@,
        Some(false) => "failure"@,
        None => "no DC"@,
    }
}

pub open spec fn dice_records(dice: Seq<DieRoll<Seq<char>>>) -> Seq<Seq<Cell<Seq<char>>>> {
    Seq::new(
        dice.len(),
        |k: int| seq![text_cell("spec"@, dice[k].spec), int_cell("value"@, dice[k].value as int)],
    )
}

pub open spec fn modifier_records(mods: Seq<NamedModifier<Seq<char>>>) -> Seq<Seq<Cell<Seq<char>>>> {
    Seq::new(
        mods.len(),
        |k: int|
            seq![
                text_cell("kind"@, mods[k].kind),
                int_cell("value"@, mods[k].value as int),
                opt_text_cell("reason"@, mods[k].reason),
            ],
    )
}

pub open spec fn check_participants(p: CheckQuery) -> Seq<EventParticipant> {
    match p.target_character_id {
        Some(t) => pair(p.character_id, EventRole::Actor, t, EventRole::Target),
        None => one(p.character_id, EventRole::Actor),
    }
}

pub open spec fn check_entry(b: CheckBasisView, p: CheckQuery, rolls: CheckRolls) -> EventView {
    let used = d20_used(b.posture, rolls.d20s@);
    let total = total_of(b, rolls);
    let success = success_of(b, p.dc, total);
    let attack = b.kind == CheckKind::AttackRoll;
    entry_view(
        "check.resolve"@,
        0,
        p.kind + " "@ + p.target_key + " by character id="@ + int_text(p.character_id as int)
            + ": rolled "@ + int_text(used as int) + " (posture "@ + b.posture.text() + "), total "@
            + int_text(total) + " vs DC "@ + dc_text(p.dc) + " → "@ + success_text(success),
        seq![
            field_view("character_id"@, ValueView::Int(p.character_id as int)),
            field_view("kind"@, ValueView::Text(p.kind)),
            field_view("target_key"@, ValueView::Text(p.target_key)),
            field_view("target_character_id"@, opt_int(p.target_character_id)),
            field_view("ability"@, ValueView::Text(b.ability.text())),
            field_view("effective_ability_score"@, ValueView::Int(b.score)),
            field_view("ability_mod"@, ValueView::Int(modifier_of(b.score))),
            field_view("proficiency_contrib"@, ValueView::Int(training_bonus(b.bonus, b.training))),
            field_view("posture"@, ValueView::Text(b.posture.text())),
            field_view("d20s"@, ValueView::Ints(rolls.d20s@)),
        ] + seq![
            field_view("d20_used"@, ValueView::Int(used as int)),
            field_view("effect_flat_sum"@, ValueView::Int(modifiers(b.effects))),
            field_view(
                "effect_dice"@,
                ValueView::Records(dice_records(die_rolls(b.dice, rolls.dice@))),
            ),
            field_view("modifiers"@, ValueView::Records(modifier_records(p.modifiers))),
            field_view("dc"@, opt_int32(p.dc)),
            field_view("total"@, ValueView::Int(total)),
            field_view("success"@, opt_bool(success)),
            field_view("crit"@, ValueView::Bool(attack && used == 20)),
            field_view("fumble"@, ValueView::Bool(attack && used == 1)),
            field_view("auto_fail"@, ValueView::Bool(b.auto_fail)),
        ],
        check_participants(p),
    )
}

/// What a check with the given rolls does to the campaign and returns.
pub open spec fn check_ok(
    w: World,
    content: Content,
    p: CheckQuery,
    rolls: CheckRolls,
    after: World,
    r: CheckResult,
) -> bool {
    let b = basis(w, content, p);
    let used = d20_used(b.posture, rolls.d20s@);
    let attack = b.kind == CheckKind::AttackRoll;
    &&& r.character_id == p.character_id
    &&& r.kind@ == p.kind
    &&& r.target_key@ == p.target_key
    &&& r.ability@ == b.ability.text()
    &&& r.posture == b.posture
    &&& r.d20s@ == rolls.d20s@
    &&& r.d20_used == used
    &&& views(r.effect_dice@) == die_rolls(b.dice, rolls.dice@)
    &&& r.total == total_of(b, rolls)
    &&& r.dc == p.dc
    &&& r.success == success_of(b, p.dc, total_of(b, rolls))
    &&& r.crit == (attack && used == 20)
    &&& r.fumble == (attack && used == 1)
    &&& r.auto_fail == b.auto_fail
    &&& views(r.breakdown@) == breakdown_of(b, p, rolls)
    &&& r.event_id == next_id(w.events)
    &&& after == w.with_event(check_entry(b, p, rolls))
}

/// All that bears on a check before anything is rolled.
pub(crate) struct CheckBasis {
    pub kind: CheckKind,
    pub ability: AbilityId,
    pub score: i128,
    pub ability_effects: Vec<Effect>,
    pub training: Option<Proficiency>,
    pub bonus: i32,
    pub effects: Vec<Effect>,
    pub flat: i128,
    pub dice: Vec<Effect>,
    pub specs: Vec<DiceSpec>,
    pub posture: Posture,
    pub auto_fail: bool,
    pub caller: i128,
}

impl CheckBasis {
    pub(crate) open spec fn is(self, b: CheckBasisView) -> bool {
        &&& self.kind == b.kind
        &&& self.ability == b.ability
        &&& self.score == b.score
        &&& views(self.ability_effects@) == b.ability_effects
        &&& (match self.training {
            Some(t) => b.training == Some(t@),
            None => b.training is None,
        })
        &&& self.bonus == b.bonus
        &&& views(self.effects@) == b.effects
        &&& self.flat == modifiers(b.effects)
        &&& views(self.dice@) == b.dice
        &&& self.posture == b.posture
        &&& self.auto_fail == b.auto_fail
        &&& self.caller == b.caller
        &&& self.specs.len() == b.dice.len()
        &&& forall|k: int|
            0 <= k < b.dice.len() ==> {
                &&& b.dice[k].dice_expr is Some
                &&& #[trigger] self.specs@[k] == dice_of(b.dice[k])
                &&& in_bounds(self.specs@[k])
            }
    }
}

/// The active effects on a character that have this key, oldest first.
pub(crate) fn load_effects_for_key(c: &Campaign, character_id: i64, key: &str) -> (r: Vec<Effect>)
    ensures
        views(r@) == effects_on(c@.effects, character_id, key@),
        r.len() <= c.effects.len(),
{
    let mut out: Vec<Effect> = Vec::new();
    let mut i: usize = 0;
    assert(views(out@) =~= effects_on(c@.effects.take(0), character_id, key@));
    while i < c.effects.len()
        invariant
            i <= c.effects.len(),
            out.len() <= i,
            views(out@) == effects_on(c@.effects.take(i as int), character_id, key@),
        decreases c.effects.len() - i,
    {
        let e = &c.effects[i];
        let ghost before = out@;
        proof {
            assert(c@.effects[i as int] == e@);
            assert(c@.effects.take(i + 1).drop_last() =~= c@.effects.take(i as int));
        }
        if e.target_character_id == character_id && e.active && same(e.target_key.as_str(), key) {
            let x = e.copy();
            out.push(x);
            assert(views(out@) =~= views(before).push(x@));
        }
        i = i + 1;
    }
    assert(c@.effects.take(i as int) =~= c@.effects);
    out
}

/// What the effects add up to.
pub(crate) fn sum_modifiers(rows: &Vec<Effect>) -> (r: i128)
    requires
        rows.len() <= u64::MAX,
    ensures
        r == modifiers(views(rows@)),
        -0x8000_0000 * rows.len() <= r <= 0x7fff_ffff * rows.len(),
{
    let mut total: i128 = 0;
    let mut i: usize = 0;
    while i < rows.len()
        invariant
            i <= rows.len(),
            rows.len() <= u64::MAX,
            total == modifiers(views(rows@).take(i as int)),
            -0x8000_0000 * i <= total <= 0x7fff_ffff * i,
        decreases rows.len() - i,
    {
        proof {
            assert(views(rows@).take(i + 1).drop_last() =~= views(rows@).take(i as int));
            assert(views(rows@)[i as int] == rows@[i as int]@);
        }
        total = total + rows[i].modifier as i128;
        i = i + 1;
    }
    assert(views(rows@).take(i as int) =~= views(rows@));
    total
}

fn sum_named(m: &Vec<NamedModifier>) -> (r: i128)
    requires
        m.len() <= u64::MAX,
    ensures
        r == named_sum(views(m@)),
{
    let mut total: i128 = 0;
    let mut i: usize = 0;
    while i < m.len()
        invariant
            i <= m.len(),
            m.len() <= u64::MAX,
            total == named_sum(views(m@).take(i as int)),
            -0x8000_0000 * i <= total <= 0x7fff_ffff * i,
        decreases m.len() - i,
    {
        proof {
            assert(views(m@).take(i + 1).drop_last() =~= views(m@).take(i as int));
            assert(views(m@)[i as int] == m@[i as int]@);
        }
        total = total + m[i].value as i128;
        i = i + 1;
    }
    assert(views(m@).take(i as int) =~= views(m@));
    total
}

fn effects_with_dice(rows: &Vec<Effect>) -> (r: Vec<Effect>)
    ensures
        views(r@) == with_dice(views(rows@)),
        r.len() <= rows.len(),
        forall|k: int| 0 <= k < r@.len() ==> (#[trigger] r@[k]).dice_expr is Some,
{
    let mut out: Vec<Effect> = Vec::new();
    let mut i: usize = 0;
    assert(views(out@) =~= with_dice(views(rows@).take(0)));
    while i < rows.len()
        invariant
            i <= rows.len(),
            out.len() <= i,
            views(out@) == with_dice(views(rows@).take(i as int)),
            forall|k: int| 0 <= k < out@.len() ==> (#[trigger] out@[k]).dice_expr is Some,
        decreases rows.len() - i,
    {
        let ghost before = out@;
        proof {
            assert(views(rows@).take(i + 1).drop_last() =~= views(rows@).take(i as int));
            assert(views(rows@)[i as int] == rows@[i as int]@);
        }
        if rows[i].dice_expr.is_some() {
            let x = rows[i].copy();
            out.push(x);
            assert(views(out@) =~= views(before).push(x@));
        }
        i = i + 1;
    }
    assert(views(rows@).take(i as int) =~= views(rows@));
    out
}

proof fn lemma_unreadable(rows: Seq<Effect<Seq<char>>>, m: nat, n: nat)
    requires
        m <= n,
        unreadable(rows, m) is Some,
    ensures
        unreadable(rows, n) == unreadable(rows, m),
    decreases n,
{
    if m < n {
        lemma_unreadable(rows, m, (n - 1) as nat);
    }
}

/// What is rolled for each of the effects, all of which have dice.
fn read_dice(rows: &Vec<Effect>) -> (r: Result<Vec<DiceSpec>, Error>)
    requires
        forall|k: int| 0 <= k < rows@.len() ==> (#[trigger] rows@[k]).dice_expr is Some,
    ensures
        match r {
            Ok(specs) => {
                &&& unreadable(views(rows@), rows@.len()) is None
                &&& specs.len() == rows.len()
                &&& forall|k: int|
                    0 <= k < rows@.len() ==> {
                        &&& #[trigger] specs@[k] == dice_of(views(rows@)[k])
                        &&& in_bounds(specs@[k])
                    }
            },
            Err(e) => {
                &&& unreadable(views(rows@), rows@.len()) matches Some(k)
                &&& e@ == (Error::EffectDice {
                    expr: views(rows@)[k].dice_expr->0,
                    source: views(rows@)[k].source,
                    cause: parsed(views(rows@)[k].dice_expr->0)->Err_0.text(),
                })
            },
        },
{
    let mut specs: Vec<DiceSpec> = Vec::new();
    let mut i: usize = 0;
    while i < rows.len()
        invariant
            i <= rows.len(),
            specs.len() == i,
            unreadable(views(rows@), i as nat) is None,
            forall|k: int| 0 <= k < rows@.len() ==> (#[trigger] rows@[k]).dice_expr is Some,
            forall|k: int|
                0 <= k < i ==> {
                    &&& #[trigger] specs@[k] == dice_of(views(rows@)[k])
                    &&& in_bounds(specs@[k])
                },
        decreases rows.len() - i,
    {
        proof {
            assert(views(rows@)[i as int] == rows@[i as int]@);
            assert(rows@[i as int].dice_expr is Some);
        }
        if let Some(expr) = &rows[i].dice_expr {
            match parse(expr.as_str()) {
                Ok(d) => {
                    specs.push(d);
                },
                Err(e) => {
                    proof {
                        lemma_unreadable(views(rows@), (i + 1) as nat, rows@.len());
                    }
                    return Err(
                        Error::EffectDice {
                            expr: expr.clone(),
                            source: rows[i].source.clone(),
                            cause: e.message(),
                        },
                    );
                },
            }
        }
        i = i + 1;
    }
    Ok(specs)
}

/// How many conditions give advantage, how many give disadvantage, and whether one makes the
/// check fail.
fn condition_riders(
    c: &Campaign,
    content: &Content,
    character_id: i64,
    kind: CheckKind,
    key: &str,
) -> (r: (usize, usize, bool))
    ensures
        r.0 == riders(*content, c@.conditions, character_id, kind, RollModifier::Advantage),
        r.1 == riders(*content, c@.conditions, character_id, kind, RollModifier::Disadvantage),
        r.2 == fails(*content, c@.conditions, character_id, kind, key@),
{
    let mut adv: usize = 0;
    let mut dis: usize = 0;
    let mut fail = false;
    let mut i: usize = 0;
    let ghost rows = c@.conditions;
    assert(rows.take(0).len() == 0);
    while i < c.conditions.len()
        invariant
            i <= c.conditions.len(),
            rows == c@.conditions,
            rows.len() == c.conditions.len(),
            adv <= i,
            dis <= i,
            adv == riders(*content, rows.take(i as int), character_id, kind, RollModifier::Advantage),
            dis == riders(*content, rows.take(i as int), character_id, kind, RollModifier::Disadvantage),
            fail == exists|j: int|
                0 <= j < i && (#[trigger] c@.conditions[j]).character_id == character_id
                    && c@.conditions[j].active && (content.self_rider(c@.conditions[j].condition, kind)
                    == Some(RollModifier::AutoFail) || content.auto_fails(
                    c@.conditions[j].condition,
                    key@,
                )),
        decreases c.conditions.len() - i,
    {
        let r = &c.conditions[i];
        proof {
            assert(c@.conditions[i as int] == r@);
            assert(rows.take(i + 1).drop_last() =~= rows.take(i as int));
            assert(rows.take(i + 1).last() == r@);
        }
        if r.character_id == character_id && r.active {
            match content.self_rider_for(r.condition.as_str(), kind) {
                Some(RollModifier::Advantage) => {
                    adv = adv + 1;
                },
                Some(RollModifier::Disadvantage) => {
                    dis = dis + 1;
                },
                Some(RollModifier::AutoFail) => {
                    fail = true;
                },
                _ => {},
            }
            if content.condition_auto_fails(r.condition.as_str(), key) {
                fail = true;
            }
        }
        i = i + 1;
    }
    assert(rows.take(i as int) =~= rows);
    (adv, dis, fail)
}

/// What a hint of the caller counts.
fn hint(h: Option<bool>) -> (r: u128)
    ensures
        r == one_if(h == Some(true)),
{
    match h {
        Some(true) => 1,
        _ => 0,
    }
}

fn gather(c: &Campaign, content: &Content, p: &ResolveCheckParams) -> (r: Result<CheckBasis, Error>)
    requires
        c@.wf(),
        c@.room(),
    ensures
        match r {
            Ok(b) => {
                &&& check_refusal(c@, *content, p@) is None
                &&& b.is(basis(c@, *content, p@))
                &&& b.dice.len() < i32::MAX
            },
            Err(e) => check_refusal(c@, *content, p@) == Some(e@),
        },
{
    let kind = match parse_kind(p.kind.as_str()) {
        Ok(k) => k,
        Err(e) => {
            return Err(e);
        },
    };
    let ability = match resolve_ability(content, kind, p.target_key.as_str(), &p.ability) {
        Ok(a) => a,
        Err(e) => {
            return Err(e);
        },
    };
    proof {
        lemma_tables(c@);
    }
    let i: usize = match find(&c.characters, p.character_id) {
        Some(i) => i,
        None => {
            return Err(
                Error::ReadAbility { column: ability.key().to_owned(), id: p.character_id },
            );
        },
    };
    let ability_effects = load_effects_for_key(c, p.character_id, ability.key());
    let base: i32 = ability.score_of(&c.characters[i]);
    let score: i128 = base as i128 + sum_modifiers(&ability_effects);
    let training = if kind == CheckKind::AbilityCheck {
        None
    } else {
        match find_training(c, p.character_id, p.target_key.as_str()) {
            Some(k) => {
                let r = &c.proficiencies[k];
                Some(
                    Proficiency {
                        character_id: r.character_id,
                        name: r.name.clone(),
                        proficient: r.proficient,
                        expertise: r.expertise,
                        ranks: r.ranks,
                    },
                )
            },
            None => None,
        }
    };
    let bonus: i32 = c.characters[i].proficiency_bonus;
    let effects = load_effects_for_key(c, p.character_id, p.target_key.as_str());
    let flat: i128 = sum_modifiers(&effects);
    let dice = effects_with_dice(&effects);
    let specs = match read_dice(&dice) {
        Ok(v) => v,
        Err(e) => {
            return Err(e);
        },
    };
    let (adv, dis, auto_fail) = condition_riders(
        c,
        content,
        p.character_id,
        kind,
        p.target_key.as_str(),
    );
    let adv: u128 = adv as u128 + hint(p.advantage);
    let dis: u128 = dis as u128 + hint(p.disadvantage);
    let posture = if adv > dis {
        Posture::Advantage
    } else if dis > adv {
        Posture::Disadvantage
    } else {
        Posture::Normal
    };
    let caller: i128 = sum_named(&p.modifiers);
    if let Some(t) = p.target_character_id {
        if find(&c.characters, t).is_none() {
            proof {
                assert(crate::campaign::top(c@.events) < i64::MAX);
            }
            return Err(
                Error::EventParticipantRow {
                    event_id: crate::campaign::fresh_id(&c.events),
                    character_id: t,
                    role: "target".to_owned(),
                    fault: Fault::ForeignKey,
                },
            );
        }
    }
    proof {
        assert forall|k: int| 0 <= k < dice@.len() implies views(dice@)[k].dice_expr is Some by {
            assert(dice@[k].dice_expr is Some);
        }
    }
    Ok(
        CheckBasis {
            kind,
            ability,
            score,
            ability_effects,
            training,
            bonus,
            effects,
            flat,
            dice,
            specs,
            posture,
            auto_fail,
            caller,
        },
    )
}

fn training_sum(bonus: i32, t: &Option<Proficiency>) -> (r: i64)
    ensures
        r == training_bonus(
            bonus,
            match *t {
                Some(x) => Some(x@),
                None => None,
            },
        ),
        t is None ==> r == 0,
{
    match t {
        Some(r) => {
            let base: i64 = if r.proficient {
                if r.expertise {
                    bonus as i64 * 2
                } else {
                    bonus as i64
                }
            } else {
                0
            };
            base + r.ranks as i64
        },
        None => 0,
    }
}

fn in_i32(n: i128) -> (r: bool)
    ensures
        r == fits(n as int),
{
    -0x8000_0000 <= n && n <= 0x7fff_ffff
}

/// Whether the sums of a check are numbers that it can hold.
pub fn check_sums_fit(c: &Campaign, content: &Content, p: &ResolveCheckParams) -> (r: bool)
    requires
        c@.wf(),
        c@.room(),
    ensures
        r == sums_fit(c@, *content, p@),
{
    match gather(c, content, p) {
        Ok(b) => in_i32(b.score) && in_i32(training_sum(b.bonus, &b.training) as i128) && in_i32(b.flat)
            && in_i32(b.caller),
        Err(_) => true,
    }
}

/// What the dice of the effects came to.
fn dice_results(dice: &Vec<Effect>, specs: &Vec<DiceSpec>, rolls: &Vec<Vec<i64>>) -> (r: Vec<DieRoll>)
    requires
        specs.len() == dice.len(),
        rolls.len() == dice.len(),
        forall|k: int|
            0 <= k < dice@.len() ==> {
                &&& #[trigger] specs@[k] == dice_of(views(dice@)[k])
                &&& in_bounds(specs@[k])
            },
        forall|k: int| 0 <= k < dice@.len() ==> can_roll(dice_of(views(dice@)[k]), (#[trigger] rolls@[k])@),
    ensures
        views(r@) == die_rolls(views(dice@), rolls@),
        forall|k: int| 0 <= k < r@.len() ==> fits((#[trigger] r@[k]).value as int),
{
    let mut out: Vec<DieRoll> = Vec::new();
    let mut k: usize = 0;
    while k < dice.len()
        invariant
            k <= dice.len(),
            out.len() == k,
            specs.len() == dice.len(),
            rolls.len() == dice.len(),
            forall|j: int|
                0 <= j < dice@.len() ==> {
                    &&& #[trigger] specs@[j] == dice_of(views(dice@)[j])
                    &&& in_bounds(specs@[j])
                },
            forall|j: int|
                0 <= j < dice@.len() ==> can_roll(dice_of(views(dice@)[j]), (#[trigger] rolls@[j])@),
            forall|j: int|
                0 <= j < k ==> {
                    &&& (#[trigger] out@[j])@ == die_rolls(views(dice@), rolls@)[j]
                    &&& fits(out@[j].value as int)
                },
        decreases dice.len() - k,
    {
        proof {
            assert(specs@[k as int] == dice_of(views(dice@)[k as int]));
            assert(can_roll(dice_of(views(dice@)[k as int]), rolls@[k as int]@));
            lemma_roll_fits(specs@[k as int], rolls@[k as int]@);
        }
        let res = roll_with(&specs[k], crate::events::copy_ints(&rolls[k]));
        let mut s = dice[k].source.clone();
        s.append("/");
        s.append(res.spec.as_str());
        out.push(DieRoll { spec: s, value: res.total });
        k = k + 1;
    }
    assert(views(out@) =~= die_rolls(views(dice@), rolls@));
    out
}

fn sum_dice(dice: &Vec<DieRoll>) -> (r: i64)
    requires
        dice.len() < i32::MAX,
        forall|k: int| 0 <= k < dice@.len() ==> fits((#[trigger] dice@[k]).value as int),
    ensures
        r == dice_sum(views(dice@)),
        -0x8000_0000 * dice.len() <= r <= 0x7fff_ffff * dice.len(),
{
    let mut total: i64 = 0;
    let mut i: usize = 0;
    while i < dice.len()
        invariant
            i <= dice.len(),
            dice.len() < i32::MAX,
            forall|k: int| 0 <= k < dice@.len() ==> fits((#[trigger] dice@[k]).value as int),
            total == dice_sum(views(dice@).take(i as int)),
            -0x8000_0000 * i <= total <= 0x7fff_ffff * i,
        decreases dice.len() - i,
    {
        proof {
            assert(views(dice@).take(i + 1).drop_last() =~= views(dice@).take(i as int));
            assert(views(dice@)[i as int] == dice@[i as int]@);
            assert(fits(dice@[i as int].value as int));
        }
        total = total + dice[i].value;
        i = i + 1;
    }
    assert(views(dice@).take(i as int) =~= views(dice@));
    total
}

fn list_ability_lines(rows: &Vec<Effect>, ability: AbilityId) -> (r: Vec<BreakdownEntry>)
    ensures
        views(r@) == ability_lines(views(rows@), ability),
{
    let mut out: Vec<BreakdownEntry> = Vec::new();
    let mut i: usize = 0;
    assert(views(out@) =~= ability_lines(views(rows@).take(0), ability));
    while i < rows.len()
        invariant
            i <= rows.len(),
            views(out@) == ability_lines(views(rows@).take(i as int), ability),
        decreases rows.len() - i,
    {
        let e = &rows[i];
        let ghost before = out@;
        proof {
            assert(views(rows@).take(i + 1).drop_last() =~= views(rows@).take(i as int));
            assert(views(rows@)[i as int] == e@);
        }
        if e.modifier != 0 {
            let mut kind = "effect:ability:".to_owned();
            kind.append(e.source.as_str());
            let mut reason = e.source.clone();
            reason.append(" → ");
            reason.append(with_sign(e.modifier as i64).as_str());
            reason.append(" ");
            reason.append(ability.capitals());
            reason.append(" (folded into effective score above)");
            let x = BreakdownEntry { kind, value: e.modifier, reason: Some(reason) };
            out.push(x);
            assert(views(out@) =~= views(before).push(x@));
        }
        i = i + 1;
    }
    assert(views(rows@).take(i as int) =~= views(rows@));
    out
}

fn list_effect_lines(rows: &Vec<Effect>) -> (r: Vec<BreakdownEntry>)
    ensures
        views(r@) == effect_lines(views(rows@)),
{
    let mut out: Vec<BreakdownEntry> = Vec::new();
    let mut i: usize = 0;
    assert(views(out@) =~= effect_lines(views(rows@).take(0)));
    while i < rows.len()
        invariant
            i <= rows.len(),
            views(out@) == effect_lines(views(rows@).take(i as int)),
        decreases rows.len() - i,
    {
        let e = &rows[i];
        let ghost before = out@;
        proof {
            assert(views(rows@).take(i + 1).drop_last() =~= views(rows@).take(i as int));
            assert(views(rows@)[i as int] == e@);
        }
        if e.modifier != 0 {
            let mut kind = "effect:".to_owned();
            kind.append(e.source.as_str());
            let x = BreakdownEntry { kind, value: e.modifier, reason: None };
            out.push(x);
            assert(views(out@) =~= views(before).push(x@));
        }
        i = i + 1;
    }
    assert(views(rows@).take(i as int) =~= views(rows@));
    out
}

fn add_lines(v: &mut Vec<BreakdownEntry>, more: Vec<BreakdownEntry>)
    ensures
        views(final(v)@) == views(old(v)@) + views(more@),
{
    let ghost want = views(v@) + views(more@);
    let mut w = more;
    v.append(&mut w);
    assert(views(v@) =~= want);
}

fn add_line(v: &mut Vec<BreakdownEntry>, x: BreakdownEntry)
    ensures
        views(final(v)@) == views(old(v)@).push(x@),
{
    let ghost want = views(v@).push(x@);
    v.push(x);
    assert(views(v@) =~= want);
}

fn explain_d20s(d20s: &Vec<i64>) -> (r: String)
    requires
        1 <= d20s.len() <= 2,
    ensures
        r@ == d20_text(d20s@),
{
    let mut s = "rolled [".to_owned();
    s.append(decimal(d20s[0]).as_str());
    if d20s.len() == 2 {
        s.append(", ");
        s.append(decimal(d20s[1]).as_str());
    }
    s.append("]");
    s
}

/// Each contribution to the check, in order.
fn break_down(
    b: &CheckBasis,
    Ghost(v): Ghost<CheckBasisView>,
    p: &ResolveCheckParams,
    rolls: &CheckRolls,
    used: i64,
    dice: &Vec<DieRoll>,
) -> (r: Vec<BreakdownEntry>)
    requires
        b.is(v),
        check_rolls_ok(v, *rolls),
        fits(v.score),
        fits(training_bonus(v.bonus, v.training)),
        used == d20_used(v.posture, rolls.d20s@),
        views(dice@) == die_rolls(v.dice, rolls.dice@),
        1 <= used <= 20,
        forall|k: int| 0 <= k < dice@.len() ==> fits((#[trigger] dice@[k]).value as int),
    ensures
        views(r@) == breakdown_of(v, p@, *rolls),
{
    let mut out: Vec<BreakdownEntry> = Vec::new();
    let mut kind = "d20:".to_owned();
    kind.append(posture_label(b.posture));
    let first = BreakdownEntry { kind, value: used as i32, reason: Some(explain_d20s(&rolls.d20s)) };
    add_line(&mut out, first);
    let mut kind = "ability:".to_owned();
    kind.append(b.ability.as_str());
    let mut reason = "mod from effective ".to_owned();
    reason.append(b.ability.capitals());
    reason.append(" score ");
    reason.append(decimal(b.score as i64).as_str());
    let second = BreakdownEntry {
        kind,
        value: ability_modifier(b.score as i32),
        reason: Some(reason),
    };
    add_line(&mut out, second);
    let ghost head = seq![
        BreakdownEntry {
            kind: "d20:"@ + v.posture.text(),
            value: d20_used(v.posture, rolls.d20s@) as i32,
            reason: Some(d20_text(rolls.d20s@)),
        },
        BreakdownEntry {
            kind: "ability:"@ + v.ability.text(),
            value: modifier_of(v.score) as i32,
            reason: Some("mod from effective "@ + v.ability.upper() + " score "@ + int_text(v.score)),
        },
    ];
    assert(views(out@) =~= head);
    add_lines(&mut out, list_ability_lines(&b.ability_effects, b.ability));
    let ghost trained: Seq<BreakdownEntry<Seq<char>>> = match v.training {
        Some(t) => seq![
            BreakdownEntry {
                kind: "proficiency"@,
                value: training_bonus(v.bonus, v.training) as i32,
                reason: Some(training_text(v.bonus, t)),
            },
        ],
        None => Seq::empty(),
    };
    let mut lines: Vec<BreakdownEntry> = Vec::new();
    if let Some(t) = &b.training {
        let x = BreakdownEntry {
            kind: "proficiency".to_owned(),
            value: training_sum(b.bonus, &b.training) as i32,
            reason: Some(explain_training(b.bonus, t)),
        };
        assert(x@ == trained[0]);
        lines.push(x);
    }
    assert(views(lines@) =~= trained);
    add_lines(&mut out, lines);
    let ghost flats = effect_lines(v.effects);
    let lines = list_effect_lines(&b.effects);
    add_lines(&mut out, lines);
    let ghost rolled = Seq::new(
        views(dice@).len(),
        |k: int|
            BreakdownEntry {
                kind: "effect_die:"@ + views(dice@)[k].spec,
                value: views(dice@)[k].value as i32,
                reason: None::<Seq<char>>,
            },
    );
    let mut lines: Vec<BreakdownEntry> = Vec::new();
    let mut k: usize = 0;
    while k < dice.len()
        invariant
            k <= dice.len(),
            lines.len() == k,
            forall|j: int| 0 <= j < dice@.len() ==> fits((#[trigger] dice@[j]).value as int),
            rolled.len() == dice.len(),
            forall|j: int|
                0 <= j < rolled.len() ==> #[trigger] rolled[j] == (BreakdownEntry {
                    kind: "effect_die:"@ + views(dice@)[j].spec,
                    value: views(dice@)[j].value as i32,
                    reason: None::<Seq<char>>,
                }),
            forall|j: int| 0 <= j < k ==> (#[trigger] lines@[j])@ == rolled[j],
        decreases dice.len() - k,
    {
        let mut kind = "effect_die:".to_owned();
        kind.append(dice[k].spec.as_str());
        assert(fits(dice@[k as int].value as int));
        let x = BreakdownEntry { kind, value: dice[k].value as i32, reason: None };
        assert(rolled[k as int] == x@);
        lines.push(x);
        k = k + 1;
    }
    assert(views(lines@) =~= rolled);
    add_lines(&mut out, lines);
    let ghost named = Seq::new(
        views(p.modifiers@).len(),
        |k: int|
            BreakdownEntry {
                kind: views(p.modifiers@)[k].kind,
                value: views(p.modifiers@)[k].value,
                reason: views(p.modifiers@)[k].reason,
            },
    );
    let mut lines: Vec<BreakdownEntry> = Vec::new();
    let mut k: usize = 0;
    while k < p.modifiers.len()
        invariant
            k <= p.modifiers.len(),
            lines.len() == k,
            forall|j: int|
                0 <= j < k ==> (#[trigger] lines@[j])@ == (BreakdownEntry {
                    kind: views(p.modifiers@)[j].kind,
                    value: views(p.modifiers@)[j].value,
                    reason: views(p.modifiers@)[j].reason,
                }),
        decreases p.modifiers.len() - k,
    {
        let m = &p.modifiers[k];
        lines.push(
            BreakdownEntry { kind: m.kind.clone(), value: m.value, reason: copy_opt(&m.reason) },
        );
        k = k + 1;
    }
    assert(views(lines@) =~= named);
    add_lines(&mut out, lines);
    assert(views(out@) =~= breakdown_of(v, p@, *rolls));
    out
}

fn record_dice(dice: &Vec<DieRoll>) -> (r: Vec<Vec<Cell>>)
    ensures
        Value::Records(r)@ == ValueView::Records(dice_records(views(dice@))),
{
    let mut out: Vec<Vec<Cell>> = Vec::new();
    let mut k: usize = 0;
    while k < dice.len()
        invariant
            k <= dice.len(),
            out.len() == k,
            forall|j: int| 0 <= j < k ==> views((#[trigger] out@[j])@) == dice_records(views(dice@))[j],
        decreases dice.len() - k,
    {
        let cells = cells2(
            make_text_cell("spec", dice[k].spec.as_str()),
            make_int_cell("value", dice[k].value),
        );
        assert(views(cells@) =~= dice_records(views(dice@))[k as int]);
        out.push(cells);
        k = k + 1;
    }
    assert(Value::Records(out)@->Records_0 =~= dice_records(views(dice@)));
    out
}

fn record_modifiers(mods: &Vec<NamedModifier>) -> (r: Vec<Vec<Cell>>)
    ensures
        Value::Records(r)@ == ValueView::Records(modifier_records(views(mods@))),
{
    let mut out: Vec<Vec<Cell>> = Vec::new();
    let mut k: usize = 0;
    while k < mods.len()
        invariant
            k <= mods.len(),
            out.len() == k,
            forall|j: int| 0 <= j < k ==> views((#[trigger] out@[j])@) == modifier_records(views(mods@))[j],
        decreases mods.len() - k,
    {
        let cells = cells3(
            make_text_cell("kind", mods[k].kind.as_str()),
            make_int_cell("value", mods[k].value as i64),
            make_opt_text_cell("reason", &mods[k].reason),
        );
        assert(views(cells@) =~= modifier_records(views(mods@))[k as int]);
        out.push(cells);
        k = k + 1;
    }
    assert(Value::Records(out)@->Records_0 =~= modifier_records(views(mods@)));
    out
}

fn say_dc(dc: Option<i32>) -> (r: String)
    ensures
        r@ == dc_text(dc),
{
    match dc {
        Some(n) => {
            let mut s = "Some(".to_owned();
            s.append(decimal(n as i64).as_str());
            s.append(")");
            s
        },
        None => "None".to_owned(),
    }
}

fn say_success(success: Option<bool>) -> (r: &'static str)
    ensures
        r@ == success_text(success),
{
    match success {
        Some(b) => if b {
            "success"
        } else {
            "failure"
        },
        None => "no DC",
    }
}

/// Finishes a check that nothing speaks against, with the numbers rolled.
fn conclude(
    c: &mut Campaign,
    p: &ResolveCheckParams,
    b: &CheckBasis,
    Ghost(v): Ghost<CheckBasisView>,
    rolls: &CheckRolls,
) -> (r: CheckResult)
    requires
        old(c)@.wf(),
        old(c)@.room(),
        b.is(v),
        b.dice.len() < i32::MAX,
        check_rolls_ok(v, *rolls),
        fits(v.score),
        fits(training_bonus(v.bonus, v.training)),
        fits(modifiers(v.effects)),
        fits(v.caller),
        listed(old(c)@.characters, p.character_id),
        p.target_character_id matches Some(t) ==> listed(old(c)@.characters, t),
    ensures
        final(c)@.wf(),
        final(c)@ == old(c)@.with_event(check_entry(v, p@, *rolls)),
        r.character_id == p.character_id,
        r.kind@ == p.kind@,
        r.target_key@ == p.target_key@,
        r.ability@ == v.ability.text(),
        r.posture == v.posture,
        r.d20s@ == rolls.d20s@,
        r.d20_used == d20_used(v.posture, rolls.d20s@),
        views(r.effect_dice@) == die_rolls(v.dice, rolls.dice@),
        r.total == total_of(v, *rolls),
        r.dc == p.dc,
        r.success == success_of(v, p.dc, total_of(v, *rolls)),
        r.crit == (v.kind == CheckKind::AttackRoll && d20_used(v.posture, rolls.d20s@) == 20),
        r.fumble == (v.kind == CheckKind::AttackRoll && d20_used(v.posture, rolls.d20s@) == 1),
        r.auto_fail == v.auto_fail,
        views(r.breakdown@) == breakdown_of(v, p@, *rolls),
        r.event_id == next_id(old(c)@.events),
{
    let used: i64 = match b.posture {
        Posture::Normal => rolls.d20s[0],
        Posture::Advantage => if rolls.d20s[0] >= rolls.d20s[1] {
            rolls.d20s[0]
        } else {
            rolls.d20s[1]
        },
        Posture::Disadvantage => if rolls.d20s[0] <= rolls.d20s[1] {
            rolls.d20s[0]
        } else {
            rolls.d20s[1]
        },
    };
    assert(1 <= rolls.d20s@[0] <= 20);
    assert(rolls.d20s@.len() == 2 ==> 1 <= rolls.d20s@[1] <= 20);
    let dice = dice_results(&b.dice, &b.specs, &rolls.dice);
    let thrown: i64 = sum_dice(&dice);
    let ability_mod: i32 = ability_modifier(b.score as i32);
    let trained: i64 = training_sum(b.bonus, &b.training);
    assert(match b.training {
        Some(x) => Some(x@),
        None => None::<Proficiency<Seq<char>>>,
    } == v.training);
    let total: i64 = used + ability_mod as i64 + trained + b.flat as i64 + thrown + b.caller as i64;
    let success: Option<bool> = if b.auto_fail {
        Some(false)
    } else {
        match p.dc {
            Some(n) => Some(total >= n as i64),
            None => None,
        }
    };
    let attack = b.kind == CheckKind::AttackRoll;
    let crit = attack && used == 20;
    let fumble = attack && used == 1;
    let breakdown = break_down(b, Ghost(v), p, rolls, used, &dice);
    let mut s = p.kind.clone();
    s.append(" ");
    s.append(p.target_key.as_str());
    s.append(" by character id=");
    s.append(decimal(p.character_id).as_str());
    s.append(": rolled ");
    s.append(decimal(used).as_str());
    s.append(" (posture ");
    s.append(posture_label(b.posture));
    s.append("), total ");
    s.append(decimal(total).as_str());
    s.append(" vs DC ");
    s.append(say_dc(p.dc).as_str());
    s.append(" → ");
    s.append(say_success(success));
    let who = match p.target_character_id {
        Some(t) => both(p.character_id, EventRole::Actor, t, EventRole::Target),
        None => only(p.character_id, EventRole::Actor),
    };
    let first = fields10(
        int_field("character_id", p.character_id),
        text_field("kind", p.kind.as_str()),
        text_field("target_key", p.target_key.as_str()),
        opt_int_field("target_character_id", p.target_character_id),
        text_field("ability", b.ability.as_str()),
        int_field("effective_ability_score", b.score as i64),
        int_field("ability_mod", ability_mod as i64),
        int_field("proficiency_contrib", trained),
        text_field("posture", posture_label(b.posture)),
        field("d20s", Value::Ints(crate::events::copy_ints(&rolls.d20s))),
    );
    let second = fields10(
        int_field("d20_used", used),
        int_field("effect_flat_sum", b.flat as i64),
        field("effect_dice", Value::Records(record_dice(&dice))),
        field("modifiers", Value::Records(record_modifiers(&p.modifiers))),
        opt_int32_field("dc", p.dc),
        int_field("total", total),
        match success {
            Some(x) => bool_field("success", x),
            None => field("success", Value::Null),
        },
        bool_field("crit", crit),
        bool_field("fumble", fumble),
        bool_field("auto_fail", b.auto_fail),
    );
    let e = entry("check.resolve", 0, s, join_fields(first, second), who);
    assert(e@ == check_entry(v, p@, *rolls));
    let event_id: i64 = c.add_event(e);
    CheckResult {
        character_id: p.character_id,
        kind: p.kind.clone(),
        target_key: p.target_key.clone(),
        ability: b.ability.as_str().to_owned(),
        posture: b.posture,
        d20s: crate::events::copy_ints(&rolls.d20s),
        d20_used: used,
        effect_dice: dice,
        total,
        dc: p.dc,
        success,
        crit,
        fumble,
        auto_fail: b.auto_fail,
        breakdown,
        event_id,
    }
}

/// Makes a check with the numbers that have been rolled.
pub fn resolve_with(
    c: &mut Campaign,
    content: &Content,
    p: &ResolveCheckParams,
    rolls: &CheckRolls,
) -> (r: Result<CheckResult, Error>)
    requires
        old(c)@.wf(),
        old(c)@.room(),
        sums_fit(old(c)@, *content, p@),
        check_refusal(old(c)@, *content, p@) is None ==> check_rolls_ok(
            basis(old(c)@, *content, p@),
            *rolls,
        ),
    ensures
        final(c)@.wf(),
        check_refusal(old(c)@, *content, p@) matches Some(e) ==> r is Err && r->Err_0@ == e && final(c)@
            == old(c)@,
        check_refusal(old(c)@, *content, p@) is None ==> r is Ok && check_ok(
            old(c)@,
            *content,
            p@,
            *rolls,
            final(c)@,
            r->Ok_0,
        ),
{
    match gather(c, content, p) {
        Ok(b) => {
            let ghost v = basis(c@, *content, p@);
            Ok(conclude(c, p, &b, Ghost(v), rolls))
        },
        Err(e) => Err(e),
    }
}

/// Whether a check can be made.
pub(crate) fn try_check(c: &Campaign, content: &Content, p: &ResolveCheckParams) -> (r: Result<(), Error>)
    requires
        c@.wf(),
        c@.room(),
    ensures
        match r {
            Ok(_) => check_refusal(c@, *content, p@) is None,
            Err(e) => check_refusal(c@, *content, p@) == Some(e@),
        },
{
    match gather(c, content, p) {
        Ok(_) => Ok(()),
        Err(e) => Err(e),
    }
}

/// Rolls what a check asks for.
pub(crate) fn draw_rolls(c: &Campaign, content: &Content, p: &ResolveCheckParams) -> (r: CheckRolls)
    requires
        c@.wf(),
        c@.room(),
    ensures
        check_refusal(c@, *content, p@) is None ==> check_rolls_ok(basis(c@, *content, p@), r),
{
    let mut d20s: Vec<i64> = Vec::new();
    let mut dice: Vec<Vec<i64>> = Vec::new();
    if let Ok(b) = gather(c, content, p) {
        let ghost v = basis(c@, *content, p@);
        d20s.push(random_between(1, 20));
        if b.posture != Posture::Normal {
            d20s.push(random_between(1, 20));
        }
        let mut k: usize = 0;
        while k < b.specs.len()
            invariant
                k <= b.specs.len(),
                dice.len() == k,
                b.is(v),
                forall|j: int| 0 <= j < k ==> can_roll(dice_of(v.dice[j]), (#[trigger] dice@[j])@),
            decreases b.specs.len() - k,
        {
            assert(b.specs@[k as int] == dice_of(v.dice[k as int]));
            dice.push(draw(&b.specs[k]));
            k = k + 1;
        }
    }
    CheckRolls { d20s, dice }
}

/// Makes a check: rolls, adds everything up, writes `check.resolve` to the log and returns
/// the total with all that went into it.
pub fn resolve(c: &mut Campaign, content: &Content, p: ResolveCheckParams) -> (r: Result<CheckResult, Error>)
    requires
        old(c)@.wf(),
        old(c)@.room(),
        sums_fit(old(c)@, *content, p@),
    ensures
        final(c)@.wf(),
        check_refusal(old(c)@, *content, p@) matches Some(e) ==> r is Err && r->Err_0@ == e && final(c)@
            == old(c)@,
        check_refusal(old(c)@, *content, p@) is None ==> {
            &&& r is Ok
            &&& exists|rolls: CheckRolls| #[trigger]
                check_rolls_ok(basis(old(c)@, *content, p@), rolls) && check_ok(
                    old(c)@,
                    *content,
                    p@,
                    rolls,
                    final(c)@,
                    r->Ok_0,
                )
        },
{
    let rolls = draw_rolls(c, content, &p);
    resolve_with(c, content, &p, &rolls)
}

/// The sum of the values of the lines.
pub open spec fn line_sum(lines: Seq<BreakdownEntry<Seq<char>>>) -> int
    decreases lines.len(),
{
    if lines.len() == 0 {
        0
    } else {
        line_sum(lines.drop_last()) + lines.last().value
    }
}

proof fn lemma_line_sum(a: Seq<BreakdownEntry<Seq<char>>>, b: Seq<BreakdownEntry<Seq<char>>>)
    ensures
        line_sum(a + b) == line_sum(a) + line_sum(b),
    decreases b.len(),
{
    if b.len() == 0 {
        assert(a + b =~= a);
    } else {
        lemma_line_sum(a, b.drop_last());
        assert((a + b).drop_last() =~= a + b.drop_last());
    }
}

proof fn lemma_ability_lines(rows: Seq<Effect<Seq<char>>>, ability: AbilityId)
    ensures
        line_sum(ability_lines(rows, ability)) == modifiers(rows),
    decreases rows.len(),
{
    if rows.len() > 0 {
        lemma_ability_lines(rows.drop_last(), ability);
        let rest = ability_lines(rows.drop_last(), ability);
        let all = ability_lines(rows, ability);
        if rows.last().modifier != 0 {
            assert(all.drop_last() =~= rest);
        }
    }
}

proof fn lemma_effect_lines(rows: Seq<Effect<Seq<char>>>)
    ensures
        line_sum(effect_lines(rows)) == modifiers(rows),
    decreases rows.len(),
{
    if rows.len() > 0 {
        lemma_effect_lines(rows.drop_last());
        let rest = effect_lines(rows.drop_last());
        let all = effect_lines(rows);
        if rows.last().modifier != 0 {
            assert(all.drop_last() =~= rest);
        }
    }
}

proof fn lemma_die_lines(dice: Seq<DieRoll<Seq<char>>>)
    requires
        forall|k: int| 0 <= k < dice.len() ==> fits((#[trigger] dice[k]).value as int),
    ensures
        line_sum(die_lines(dice)) == dice_sum(dice),
    decreases dice.len(),
{
    if dice.len() > 0 {
        lemma_die_lines(dice.drop_last());
        assert(die_lines(dice).drop_last() =~= die_lines(dice.drop_last()));
        assert(fits(dice[dice.len() - 1].value as int));
    }
}

proof fn lemma_caller_lines(mods: Seq<NamedModifier<Seq<char>>>)
    ensures
        line_sum(caller_lines(mods)) == named_sum(mods),
    decreases mods.len(),
{
    if mods.len() > 0 {
        lemma_caller_lines(mods.drop_last());
        assert(caller_lines(mods).drop_last() =~= caller_lines(mods.drop_last()));
    }
}

/// The breakdown of a check adds up: its lines, but for those that only say how effects make
/// up the score, come to the total.
pub proof fn law_breakdown_adds_up(w: World, content: Content, p: CheckQuery, rolls: CheckRolls)
    requires
        check_refusal(w, content, p) is None,
        sums_fit(w, content, p),
        check_rolls_ok(basis(w, content, p), rolls),
    ensures
        ({
            let b = basis(w, content, p);
            line_sum(breakdown_of(b, p, rolls)) - line_sum(ability_lines(b.ability_effects, b.ability))
                == total_of(b, rolls)
        }),
{
    let b = basis(w, content, p);
    let dice = die_rolls(b.dice, rolls.dice@);
    let used = d20_used(b.posture, rolls.d20s@);
    let first = BreakdownEntry {
        kind: "d20:"@ + b.posture.text(),
        value: used as i32,
        reason: Some(d20_text(rolls.d20s@)),
    };
    let second = BreakdownEntry {
        kind: "ability:"@ + b.ability.text(),
        value: modifier_of(b.score) as i32,
        reason: Some("mod from effective "@ + b.ability.upper() + " score "@ + int_text(b.score)),
    };
    let head = seq![first, second];
    let scores = ability_lines(b.ability_effects, b.ability);
    let schooling = match b.training {
        Some(t) => seq![
            BreakdownEntry {
                kind: "proficiency"@,
                value: training_bonus(b.bonus, b.training) as i32,
                reason: Some(training_text(b.bonus, t)),
            },
        ],
        None => Seq::empty(),
    };
    let flat = effect_lines(b.effects);
    let all = head + scores + schooling + flat + die_lines(dice) + caller_lines(p.modifiers);
    assert(breakdown_of(b, p, rolls) =~= all);
    assert(head.drop_last() =~= seq![first]);
    assert(seq![first].drop_last() =~= Seq::<BreakdownEntry<Seq<char>>>::empty());
    assert(line_sum(head) == used as i32 + modifier_of(b.score) as i32) by {
        reveal_with_fuel(line_sum, 3);
    }
    assert(line_sum(schooling) == training_bonus(b.bonus, b.training)) by {
        reveal_with_fuel(line_sum, 2);
        if b.training is Some {
            assert(schooling.drop_last() =~= Seq::<BreakdownEntry<Seq<char>>>::empty());
        }
    }
    lemma_ability_lines(b.ability_effects, b.ability);
    lemma_effect_lines(b.effects);
    assert forall|k: int| 0 <= k < dice.len() implies fits((#[trigger] dice[k]).value as int) by {
        lemma_readable(b.dice, b.dice.len(), k);
        lemma_roll_fits(dice_of(b.dice[k]), rolls.dice@[k]@);
    }
    lemma_die_lines(dice);
    lemma_caller_lines(p.modifiers);
    lemma_line_sum(head, scores);
    lemma_line_sum(head + scores, schooling);
    lemma_line_sum(head + scores + schooling, flat);
    lemma_line_sum(head + scores + schooling + flat, die_lines(dice));
    lemma_line_sum(head + scores + schooling + flat + die_lines(dice), caller_lines(p.modifiers));
}

/// Where no dice are unreadable, those of each effect are dice that can be rolled.
proof fn lemma_readable(rows: Seq<Effect<Seq<char>>>, n: nat, k: int)
    requires
        unreadable(rows, n) is None,
        0 <= k < n <= rows.len(),
    ensures
        parsed(rows[k].dice_expr->0) is Ok,
        in_bounds(dice_of(rows[k])),
    decreases n,
{
    if k < n - 1 {
        lemma_readable(rows, (n - 1) as nat, k);
    }
}

/// Each advantage cancels one disadvantage, wherever they come from: one more of either changes
/// nothing, and as many of the one as of the other leave one d20, which counts.
pub proof fn law_advantage_and_disadvantage_cancel(w: World, content: Content, p: CheckQuery, rolls: CheckRolls)
    requires
        check_rolls_ok(basis(w, content, p), rolls),
    ensures
        ({
            let kind = kind_of(p.kind)->0;
            let a = advantages(w, content, p.character_id, kind, p.advantage);
            let d = disadvantages(w, content, p.character_id, kind, p.disadvantage);
            &&& basis(w, content, p).posture == posture_of(a + 1, d + 1)
            &&& a == d ==> {
                &&& basis(w, content, p).posture == Posture::Normal
                &&& rolls.d20s@.len() == 1
                &&& d20_used(Posture::Normal, rolls.d20s@) == rolls.d20s@[0]
            }
            &&& a != d ==> rolls.d20s@.len() == 2
        }),
{
}

/// The d20 that counts is one of those rolled: with advantage none is larger, with
/// disadvantage none is smaller.
pub proof fn law_posture_picks_the_die(b: CheckBasisView, rolls: CheckRolls)
    requires
        check_rolls_ok(b, rolls),
    ensures
        rolls.d20s@.contains(d20_used(b.posture, rolls.d20s@)),
        b.posture == Posture::Advantage ==> forall|i: int|
            0 <= i < rolls.d20s@.len() ==> #[trigger] rolls.d20s@[i] <= d20_used(b.posture, rolls.d20s@),
        b.posture == Posture::Disadvantage ==> forall|i: int|
            0 <= i < rolls.d20s@.len() ==> #[trigger] rolls.d20s@[i] >= d20_used(b.posture, rolls.d20s@),
{
    assert(rolls.d20s@[0] >= 1);
    if b.posture != Posture::Normal {
        assert(rolls.d20s@[1] >= 1);
    }
}

} // verus!
