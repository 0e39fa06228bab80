//! The game content that the rules consult: abilities, skills, conditions, items and so on.

use vstd::prelude::*;
use crate::error::Error;
use crate::templates::{find_uncovered, uncovered};
use crate::text::{same, say_set, set_text, texts};

verus! {

/// The kinds of check that conditions bear on.
#[derive(Debug, Clone, Copy, PartialEq, Eq, Structural)]
pub enum CheckKind {
    SkillCheck,
    SavingThrow,
    AttackRoll,
    AbilityCheck,
}

/// What a condition does to a roll.
#[derive(Debug, Clone, Copy, PartialEq, Eq, Structural)]
pub enum RollModifier {
    Advantage,
    Disadvantage,
    AutoFail,
    AutoSucceed,
}

#[derive(Debug, Clone, PartialEq, Eq)]
pub struct Ability {
    pub id: String,
    pub name: String,
    pub governs: String,
}

#[derive(Debug, Clone, PartialEq, Eq)]
pub struct Skill {
    pub id: String,
    pub ability: String,
    pub description: String,
}

#[derive(Debug, Clone, PartialEq, Eq)]
pub struct DamageType {
    pub id: String,
    pub physical: bool,
    pub description: String,
}

/// What a condition does to the checks of whoever is under it.
#[derive(Debug, Clone, Copy, PartialEq, Eq, Structural)]
pub struct Rider {
    pub kind: CheckKind,
    pub modifier: RollModifier,
}

/// A condition, with its riders and the check keys that fail under it.
#[derive(Debug, Clone, PartialEq, Eq)]
pub struct ConditionRule {
    pub id: String,
    pub riders: Vec<Rider>,
    pub auto_fail: Vec<String>,
}

/// A kind of item: weight in thousandths of a pound, value in thousandths of a gold piece.
#[derive(Debug, Clone, PartialEq, Eq)]
pub struct BaseItem {
    pub id: String,
    pub weight_lb: i64,
    pub base_value_gp: i64,
    pub stackable: bool,
}

/// How much a character carries: capacity per point of strength, in pounds, and the
/// percentages from which it is encumbered and above which it is overloaded.
#[derive(Debug, Clone, Copy, PartialEq, Eq, Structural)]
pub struct Encumbrance {
    pub capacity_per_str: i32,
    pub encumbered_threshold_pct: i32,
    pub overloaded_threshold_pct: i32,
}

/// What may happen to a character that died.
#[derive(Debug, Clone, PartialEq, Eq)]
pub struct DeathEvent {
    pub kind: String,
    pub description: String,
    pub weight: i32,
    pub outcome_hooks: Vec<String>,
    pub requires: Vec<String>,
}

impl DeathEvent {
    /// Whether the two say the same.
    pub open spec fn equals(self, other: DeathEvent) -> bool {
        &&& self.kind@ == other.kind@
        &&& self.description@ == other.description@
        &&& self.weight == other.weight
        &&& texts(self.outcome_hooks@) == texts(other.outcome_hooks@)
        &&& texts(self.requires@) == texts(other.requires@)
    }

    /// The same event once more.
    pub fn copy(&self) -> (r: DeathEvent)
        ensures
            r.equals(*self),
    {
        DeathEvent {
            kind: self.kind.clone(),
            description: self.description.clone(),
            weight: self.weight,
            outcome_hooks: crate::text::copy_list(&self.outcome_hooks),
            requires: crate::text::copy_list(&self.requires),
        }
    }
}

/// A question to be answered before a world is made.
#[derive(Debug, Clone, PartialEq, Eq)]
pub struct SetupQuestion {
    pub id: String,
    pub prompt: String,
}

impl SetupQuestion {
    /// The same question once more.
    pub fn copy(&self) -> (r: SetupQuestion)
        ensures
            r == *self,
    {
        SetupQuestion { id: self.id.clone(), prompt: self.prompt.clone() }
    }
}

/// The names that members of a species have.
#[derive(Debug, Clone, PartialEq, Eq)]
pub struct NamePool {
    pub species: String,
    pub first: Vec<String>,
    pub last: Vec<String>,
}

/// The scores that an archetype may have in an ability, both ends included.
#[derive(Debug, Clone, PartialEq, Eq)]
pub struct StatRange {
    pub ability: String,
    pub low: i32,
    pub high: i32,
}

/// Something an archetype may carry; the chance is in millionths.
#[derive(Debug, Clone, PartialEq, Eq)]
pub struct ArchetypeLoadoutEntry {
    pub base_kind: String,
    pub material: Option<String>,
    pub material_tier: Option<i32>,
    pub chance: i64,
    pub quantity_dice: Option<String>,
    pub equip: Option<String>,
}

/// Something an archetype is trained in.
#[derive(Debug, Clone, PartialEq, Eq)]
pub struct ArchetypeProficiency {
    pub name: String,
    pub proficient: bool,
    pub expertise: bool,
    pub ranks: i32,
}

/// The words that may stand for a slot in a backstory.
#[derive(Debug, Clone, PartialEq, Eq)]
pub struct SlotPool {
    pub slot: String,
    pub values: Vec<String>,
}

/// A template for characters that nobody plays.
#[derive(Debug, Clone, PartialEq, Eq)]
pub struct Archetype {
    pub id: String,
    pub species: String,
    pub role_hint: String,
    pub stats: Vec<StatRange>,
    pub hp_formula: Option<String>,
    pub ac_base: Option<i32>,
    pub speed_ft: Option<i32>,
    pub ideology_pool: Vec<String>,
    pub plan_pool: Vec<String>,
    pub backstory_hooks: Vec<String>,
    pub loadout: Vec<ArchetypeLoadoutEntry>,
    pub proficiencies: Vec<ArchetypeProficiency>,
    pub slot_pools: Vec<SlotPool>,
}

/// All of the content. Entries that have an id are found by it, the first one where an id
/// occurs twice.
#[derive(Debug, Clone, PartialEq, Eq)]
pub struct Content {
    pub abilities: Vec<Ability>,
    pub skills: Vec<Skill>,
    pub damage_types: Vec<DamageType>,
    pub conditions: Vec<ConditionRule>,
    pub biomes: Vec<String>,
    pub weapons: Vec<String>,
    pub enchantments: Vec<String>,
    pub archetypes: Vec<Archetype>,
    pub item_bases: Vec<BaseItem>,
    pub encumbrance: Encumbrance,
    pub death_events: Vec<DeathEvent>,
    pub setup_questions: Vec<SetupQuestion>,
    pub name_pools: Vec<NamePool>,
}

/// The ids of each section of the content.
#[derive(Debug, Clone, PartialEq, Eq)]
pub struct Introspection {
    pub abilities: Vec<String>,
    pub skills: Vec<String>,
    pub damage_types: Vec<String>,
    pub conditions: Vec<String>,
    pub biomes: Vec<String>,
    pub weapons: Vec<String>,
    pub enchantments: Vec<String>,
    pub archetypes: Vec<String>,
}

/// The place of the skill with this id among the first `n`.
pub open spec fn skill_at(skills: Seq<Skill>, id: Seq<char>, n: nat) -> Option<int>
    decreases n,
{
    if n == 0 {
        None
    } else {
        match skill_at(skills, id, (n - 1) as nat) {
            Some(k) => Some(k),
            None => if skills[n - 1].id@ == id {
                Some(n - 1)
            } else {
                None
            },
        }
    }
}

/// The place of the condition with this id among the first `n`.
pub open spec fn condition_at(rules: Seq<ConditionRule>, id: Seq<char>, n: nat) -> Option<int>
    decreases n,
{
    if n == 0 {
        None
    } else {
        match condition_at(rules, id, (n - 1) as nat) {
            Some(k) => Some(k),
            None => if rules[n - 1].id@ == id {
                Some(n - 1)
            } else {
                None
            },
        }
    }
}

/// The first rider for this kind of check among the first `n`.
pub open spec fn rider_at(riders: Seq<Rider>, kind: CheckKind, n: nat) -> Option<RollModifier>
    decreases n,
{
    if n == 0 {
        None
    } else {
        match rider_at(riders, kind, (n - 1) as nat) {
            Some(m) => Some(m),
            None => if riders[n - 1].kind == kind {
                Some(riders[n - 1].modifier)
            } else {
                None
            },
        }
    }
}

/// The place of the kind of item with this id among the first `n`.
pub open spec fn base_at(bases: Seq<BaseItem>, id: Seq<char>, n: nat) -> Option<int>
    decreases n,
{
    if n == 0 {
        None
    } else {
        match base_at(bases, id, (n - 1) as nat) {
            Some(k) => Some(k),
            None => if bases[n - 1].id@ == id {
                Some(n - 1)
            } else {
                None
            },
        }
    }
}

/// The first gap that nothing fills, among the first `n` hooks.
pub open spec fn open_hook(hooks: Seq<String>, pools: Seq<SlotPool>, n: nat) -> Option<Seq<char>>
    decreases n,
{
    if n == 0 {
        None
    } else {
        match open_hook(hooks, pools, (n - 1) as nat) {
            Some(slot) => Some(slot),
            None => uncovered(hooks[n - 1]@, 0, pools),
        }
    }
}

/// The first archetype, among the first `n`, with a gap that nothing fills, and the gap.
pub open spec fn open_archetype(list: Seq<Archetype>, n: nat) -> Option<(int, Seq<char>)>
    decreases n,
{
    if n == 0 {
        None
    } else {
        match open_archetype(list, (n - 1) as nat) {
            Some(x) => Some(x),
            None => match open_hook(
                list[n - 1].backstory_hooks@,
                list[n - 1].slot_pools@,
                list[n - 1].backstory_hooks@.len(),
            ) {
                Some(slot) => Some((n - 1, slot)),
                None => None,
            },
        }
    }
}

proof fn lemma_open_hook(hooks: Seq<String>, pools: Seq<SlotPool>, m: nat, n: nat)
    requires
        m <= n,
        open_hook(hooks, pools, m) is Some,
    ensures
        open_hook(hooks, pools, n) == open_hook(hooks, pools, m),
    decreases n,
{
    if m < n {
        lemma_open_hook(hooks, pools, m, (n - 1) as nat);
    }
}

proof fn lemma_open_archetype(list: Seq<Archetype>, m: nat, n: nat)
    requires
        m <= n,
        open_archetype(list, m) is Some,
    ensures
        open_archetype(list, n) == open_archetype(list, m),
    decreases n,
{
    if m < n {
        lemma_open_archetype(list, m, (n - 1) as nat);
    }
}

/// The ids of the first `n` abilities, each once.
pub open spec fn ability_ids(abilities: Seq<Ability>, n: nat) -> Seq<Seq<char>>
    decreases n,
{
    if n == 0 {
        Seq::empty()
    } else {
        let before = ability_ids(abilities, (n - 1) as nat);
        if before.contains(abilities[n - 1].id@) {
            before
        } else {
            before.push(abilities[n - 1].id@)
        }
    }
}

/// The first skill among the first `n` whose ability is not among the abilities.
pub open spec fn stray_skill(skills: Seq<Skill>, abilities: Seq<Ability>, n: nat) -> Option<int>
    decreases n,
{
    if n == 0 {
        None
    } else {
        match stray_skill(skills, abilities, (n - 1) as nat) {
            Some(k) => Some(k),
            None => if exists|j: int|
                0 <= j < abilities.len() && (#[trigger] abilities[j]).id@ == skills[n - 1].ability@ {
                None
            } else {
                Some(n - 1)
            },
        }
    }
}

proof fn lemma_skill_at(skills: Seq<Skill>, id: Seq<char>, m: nat, n: nat)
    requires
        m <= n,
        skill_at(skills, id, m) is Some,
    ensures
        skill_at(skills, id, n) == skill_at(skills, id, m),
    decreases n,
{
    if m < n {
        lemma_skill_at(skills, id, m, (n - 1) as nat);
    }
}

proof fn lemma_condition_at(rules: Seq<ConditionRule>, id: Seq<char>, m: nat, n: nat)
    requires
        m <= n,
        condition_at(rules, id, m) is Some,
    ensures
        condition_at(rules, id, n) == condition_at(rules, id, m),
    decreases n,
{
    if m < n {
        lemma_condition_at(rules, id, m, (n - 1) as nat);
    }
}

proof fn lemma_rider_at(riders: Seq<Rider>, kind: CheckKind, m: nat, n: nat)
    requires
        m <= n,
        rider_at(riders, kind, m) is Some,
    ensures
        rider_at(riders, kind, n) == rider_at(riders, kind, m),
    decreases n,
{
    if m < n {
        lemma_rider_at(riders, kind, m, (n - 1) as nat);
    }
}

proof fn lemma_base_at(bases: Seq<BaseItem>, id: Seq<char>, m: nat, n: nat)
    requires
        m <= n,
        base_at(bases, id, m) is Some,
    ensures
        base_at(bases, id, n) == base_at(bases, id, m),
    decreases n,
{
    if m < n {
        lemma_base_at(bases, id, m, (n - 1) as nat);
    }
}

proof fn lemma_stray_skill(skills: Seq<Skill>, abilities: Seq<Ability>, m: nat, n: nat)
    requires
        m <= n,
        stray_skill(skills, abilities, m) is Some,
    ensures
        stray_skill(skills, abilities, n) == stray_skill(skills, abilities, m),
    decreases n,
{
    if m < n {
        lemma_stray_skill(skills, abilities, m, (n - 1) as nat);
    }
}

/// How far from 0 the weight or the value of a kind of item is at most.
pub const MAX_UNIT: i64 = 0x1_0000_0000;

impl Content {
    /// Weights and values are not too large to add up.
    pub open spec fn measures_ok(self) -> bool {
        forall|i: int|
            0 <= i < self.item_bases@.len() ==> {
                &&& -MAX_UNIT <= (#[trigger] self.item_bases@[i]).weight_lb <= MAX_UNIT
                &&& -MAX_UNIT <= self.item_bases@[i].base_value_gp <= MAX_UNIT
            }
    }

    /// Whether weights and values are within their bounds.
    pub fn check_measures(&self) -> (r: bool)
        ensures
            r == self.measures_ok(),
    {
        let mut i: usize = 0;
        while i < self.item_bases.len()
            invariant
                i <= self.item_bases.len(),
                forall|j: int|
                    0 <= j < i ==> {
                        &&& -MAX_UNIT <= (#[trigger] self.item_bases@[j]).weight_lb <= MAX_UNIT
                        &&& -MAX_UNIT <= self.item_bases@[j].base_value_gp <= MAX_UNIT
                    },
            decreases self.item_bases.len() - i,
        {
            let b = &self.item_bases[i];
            if b.weight_lb < -MAX_UNIT || b.weight_lb > MAX_UNIT || b.base_value_gp < -MAX_UNIT
                || b.base_value_gp > MAX_UNIT {
                assert(!(-MAX_UNIT <= self.item_bases@[i as int].weight_lb <= MAX_UNIT && -MAX_UNIT
                    <= self.item_bases@[i as int].base_value_gp <= MAX_UNIT));
                return false;
            }
            i = i + 1;
        }
        true
    }

    /// The place of the skill with this id.
    pub open spec fn skill(self, id: Seq<char>) -> Option<int> {
        skill_at(self.skills@, id, self.skills@.len())
    }

    /// The place of the kind of item with this id.
    pub open spec fn base(self, id: Seq<char>) -> Option<int> {
        base_at(self.item_bases@, id, self.item_bases@.len())
    }

    /// What the condition does to this kind of check of whoever is under it.
    pub open spec fn self_rider(self, condition: Seq<char>, kind: CheckKind) -> Option<RollModifier> {
        match condition_at(self.conditions@, condition, self.conditions@.len()) {
            Some(k) => rider_at(self.conditions@[k].riders@, kind, self.conditions@[k].riders@.len()),
            None => None,
        }
    }

    /// Whether a check with this key fails under the condition.
    pub open spec fn auto_fails(self, condition: Seq<char>, key: Seq<char>) -> bool {
        match condition_at(self.conditions@, condition, self.conditions@.len()) {
            Some(k) => texts(self.conditions@[k].auto_fail@).contains(key),
            None => false,
        }
    }

    /// The place of the skill with this id.
    pub fn find_skill(&self, id: &str) -> (r: Option<usize>)
        ensures
            match r {
                Some(k) => self.skill(id@) == Some(k as int) && k < self.skills.len(),
                None => self.skill(id@) is None,
            },
    {
        let mut i: usize = 0;
        while i < self.skills.len()
            invariant
                i <= self.skills.len(),
                skill_at(self.skills@, id@, i as nat) is None,
            decreases self.skills.len() - i,
        {
            if same(self.skills[i].id.as_str(), id) {
                proof {
                    lemma_skill_at(self.skills@, id@, (i + 1) as nat, self.skills@.len());
                }
                return Some(i);
            }
            i = i + 1;
        }
        None
    }

    /// The place of the kind of item with this id.
    pub fn find_base(&self, id: &str) -> (r: Option<usize>)
        ensures
            match r {
                Some(k) => self.base(id@) == Some(k as int) && k < self.item_bases.len(),
                None => self.base(id@) is None,
            },
    {
        let mut i: usize = 0;
        while i < self.item_bases.len()
            invariant
                i <= self.item_bases.len(),
                base_at(self.item_bases@, id@, i as nat) is None,
            decreases self.item_bases.len() - i,
        {
            if same(self.item_bases[i].id.as_str(), id) {
                proof {
                    lemma_base_at(self.item_bases@, id@, (i + 1) as nat, self.item_bases@.len());
                }
                return Some(i);
            }
            i = i + 1;
        }
        None
    }

    fn find_condition(&self, id: &str) -> (r: Option<usize>)
        ensures
            match r {
                Some(k) => condition_at(self.conditions@, id@, self.conditions@.len()) == Some(k as int)
                    && k < self.conditions.len(),
                None => condition_at(self.conditions@, id@, self.conditions@.len()) is None,
            },
    {
        let mut i: usize = 0;
        while i < self.conditions.len()
            invariant
                i <= self.conditions.len(),
                condition_at(self.conditions@, id@, i as nat) is None,
            decreases self.conditions.len() - i,
        {
            if same(self.conditions[i].id.as_str(), id) {
                proof {
                    lemma_condition_at(self.conditions@, id@, (i + 1) as nat, self.conditions@.len());
                }
                return Some(i);
            }
            i = i + 1;
        }
        None
    }

    /// What the condition does to this kind of check of whoever is under it.
    pub fn self_rider_for(&self, condition: &str, kind: CheckKind) -> (r: Option<RollModifier>)
        ensures
            r == self.self_rider(condition@, kind),
    {
        match self.find_condition(condition) {
            Some(k) => {
                let riders = &self.conditions[k].riders;
                let mut i: usize = 0;
                while i < riders.len()
                    invariant
                        i <= riders.len(),
                        *riders == self.conditions@[k as int].riders,
                        condition_at(self.conditions@, condition@, self.conditions@.len()) == Some(k as int),
                        rider_at(riders@, kind, i as nat) is None,
                    decreases riders.len() - i,
                {
                    if riders[i].kind == kind {
                        proof {
                            lemma_rider_at(riders@, kind, (i + 1) as nat, riders@.len());
                        }
                        return Some(riders[i].modifier);
                    }
                    i = i + 1;
                }
                None
            },
            None => None,
        }
    }

    /// Whether a check with this key fails under the condition.
    pub fn condition_auto_fails(&self, condition: &str, key: &str) -> (r: bool)
        ensures
            r == self.auto_fails(condition@, key@),
    {
        match self.find_condition(condition) {
            Some(k) => crate::text::contains(&self.conditions[k].auto_fail, key),
            None => false,
        }
    }

    /// Every skill names an ability that there is, and every gap in a hook has something to
    /// fill it.
    pub fn validate(&self) -> (r: Result<(), Error>)
        ensures
            match self.refusal() {
                Some(e) => r is Err && r->Err_0@ == e,
                None => r is Ok,
            },
    {
        match self.validate_skills() {
            Ok(_) => self.validate_hooks(),
            Err(e) => Err(e),
        }
    }

    /// What is wrong with the content.
    pub open spec fn refusal(self) -> Option<Error<Seq<char>>> {
        match stray_skill(self.skills@, self.abilities@, self.skills@.len()) {
            Some(k) => Some(
                Error::SkillAbility {
                    skill: self.skills@[k].id@,
                    ability: self.skills@[k].ability@,
                    valid: set_text(ability_ids(self.abilities@, self.abilities@.len())),
                },
            ),
            None => match open_archetype(self.archetypes@, self.archetypes@.len()) {
                Some((k, slot)) => Some(
                    Error::SlotWithoutPool { archetype: self.archetypes@[k].id@, slot },
                ),
                None => None,
            },
        }
    }

    fn validate_hooks(&self) -> (r: Result<(), Error>)
        ensures
            match open_archetype(self.archetypes@, self.archetypes@.len()) {
                Some((k, slot)) => r is Err && r->Err_0@ == (Error::SlotWithoutPool {
                    archetype: self.archetypes@[k].id@,
                    slot,
                }),
                None => r is Ok,
            },
    {
        let mut i: usize = 0;
        while i < self.archetypes.len()
            invariant
                i <= self.archetypes.len(),
                open_archetype(self.archetypes@, i as nat) is None,
            decreases self.archetypes.len() - i,
        {
            let arch = &self.archetypes[i];
            let mut j: usize = 0;
            while j < arch.backstory_hooks.len()
                invariant
                    i < self.archetypes.len(),
                    arch == self.archetypes@[i as int],
                    open_archetype(self.archetypes@, i as nat) is None,
                    j <= arch.backstory_hooks.len(),
                    open_hook(arch.backstory_hooks@, arch.slot_pools@, j as nat) is None,
                decreases arch.backstory_hooks.len() - j,
            {
                if let Some(slot) = find_uncovered(arch.backstory_hooks[j].as_str(), &arch.slot_pools) {
                    proof {
                        lemma_open_hook(
                            arch.backstory_hooks@,
                            arch.slot_pools@,
                            (j + 1) as nat,
                            arch.backstory_hooks@.len(),
                        );
                        lemma_open_archetype(self.archetypes@, (i + 1) as nat, self.archetypes@.len());
                    }
                    return Err(Error::SlotWithoutPool { archetype: arch.id.clone(), slot });
                }
                j = j + 1;
            }
            i = i + 1;
        }
        Ok(())
    }

    fn list_abilities(&self) -> (ids: Vec<String>)
        ensures
            texts(ids@) == ability_ids(self.abilities@, self.abilities@.len()),
    {
        let mut ids: Vec<String> = Vec::new();
        assert(texts(ids@) =~= Seq::empty());
        let mut i: usize = 0;
        while i < self.abilities.len()
            invariant
                i <= self.abilities.len(),
                texts(ids@) == ability_ids(self.abilities@, i as nat),
            decreases self.abilities.len() - i,
        {
            if !crate::text::contains(&ids, self.abilities[i].id.as_str()) {
                let ghost before = texts(ids@);
                ids.push(self.abilities[i].id.clone());
                assert(texts(ids@) =~= before.push(self.abilities@[i as int].id@));
            }
            i = i + 1;
        }
        ids
    }

    fn validate_skills(&self) -> (r: Result<(), Error>)
        ensures
            match stray_skill(self.skills@, self.abilities@, self.skills@.len()) {
                Some(k) => r is Err && r->Err_0@ == (Error::SkillAbility {
                    skill: self.skills@[k].id@,
                    ability: self.skills@[k].ability@,
                    valid: set_text(ability_ids(self.abilities@, self.abilities@.len())),
                }),
                None => r is Ok,
            },
    {
        let mut i: usize = 0;
        while i < self.skills.len()
            invariant
                i <= self.skills.len(),
                stray_skill(self.skills@, self.abilities@, i as nat) is None,
            decreases self.skills.len() - i,
        {
            let mut j: usize = 0;
            let mut found = false;
            while j < self.abilities.len()
                invariant
                    i < self.skills.len(),
                    j <= self.abilities.len(),
                    found == exists|k: int|
                        0 <= k < j && (#[trigger] self.abilities@[k]).id@ == self.skills@[i as int].ability@,
                decreases self.abilities.len() - j,
            {
                if same(self.abilities[j].id.as_str(), self.skills[i].ability.as_str()) {
                    found = true;
                }
                j = j + 1;
            }
            if !found {
                proof {
                    lemma_stray_skill(
                        self.skills@,
                        self.abilities@,
                        (i + 1) as nat,
                        self.skills@.len(),
                    );
                }
                return Err(
                    Error::SkillAbility {
                        skill: self.skills[i].id.clone(),
                        ability: self.skills[i].ability.clone(),
                        valid: say_set(&self.list_abilities()),
                    },
                );
            }
            i = i + 1;
        }
        Ok(())
    }

    /// The ids of each section.
    pub fn introspect(&self) -> (r: Introspection)
        ensures
            texts(r.abilities@) == Seq::new(self.abilities@.len(), |i: int| self.abilities@[i].id@),
            texts(r.skills@) == Seq::new(self.skills@.len(), |i: int| self.skills@[i].id@),
            texts(r.damage_types@) == Seq::new(self.damage_types@.len(), |i: int| self.damage_types@[i].id@),
            texts(r.conditions@) == Seq::new(self.conditions@.len(), |i: int| self.conditions@[i].id@),
            texts(r.biomes@) == texts(self.biomes@),
            texts(r.weapons@) == texts(self.weapons@),
            texts(r.enchantments@) == texts(self.enchantments@),
            texts(r.archetypes@) == Seq::new(self.archetypes@.len(), |i: int| self.archetypes@[i].id@),
    {
        let mut abilities: Vec<String> = Vec::new();
        let mut i: usize = 0;
        while i < self.abilities.len()
            invariant
                i <= self.abilities.len(),
                abilities.len() == i,
                forall|j: int| 0 <= j < i ==> (#[trigger] abilities@[j])@ == self.abilities@[j].id@,
            decreases self.abilities.len() - i,
        {
            abilities.push(self.abilities[i].id.clone());
            i = i + 1;
        }
        let mut skills: Vec<String> = Vec::new();
        let mut i: usize = 0;
        while i < self.skills.len()
            invariant
                i <= self.skills.len(),
                skills.len() == i,
                forall|j: int| 0 <= j < i ==> (#[trigger] skills@[j])@ == self.skills@[j].id@,
            decreases self.skills.len() - i,
        {
            skills.push(self.skills[i].id.clone());
            i = i + 1;
        }
        let mut damage_types: Vec<String> = Vec::new();
        let mut i: usize = 0;
        while i < self.damage_types.len()
            invariant
                i <= self.damage_types.len(),
                damage_types.len() == i,
                forall|j: int| 0 <= j < i ==> (#[trigger] damage_types@[j])@ == self.damage_types@[j].id@,
            decreases self.damage_types.len() - i,
        {
            damage_types.push(self.damage_types[i].id.clone());
            i = i + 1;
        }
        let mut conditions: Vec<String> = Vec::new();
        let mut i: usize = 0;
        while i < self.conditions.len()
            invariant
                i <= self.conditions.len(),
                conditions.len() == i,
                forall|j: int| 0 <= j < i ==> (#[trigger] conditions@[j])@ == self.conditions@[j].id@,
            decreases self.conditions.len() - i,
        {
            conditions.push(self.conditions[i].id.clone());
            i = i + 1;
        }
        let mut archetypes: Vec<String> = Vec::new();
        let mut i: usize = 0;
        while i < self.archetypes.len()
            invariant
                i <= self.archetypes.len(),
                archetypes.len() == i,
                forall|j: int| 0 <= j < i ==> (#[trigger] archetypes@[j])@ == self.archetypes@[j].id@,
            decreases self.archetypes.len() - i,
        {
            archetypes.push(self.archetypes[i].id.clone());
            i = i + 1;
        }
        Introspection {
            abilities,
            skills,
            damage_types,
            conditions,
            biomes: crate::text::copy_list(&self.biomes),
            weapons: crate::text::copy_list(&self.weapons),
            enchantments: crate::text::copy_list(&self.enchantments),
            archetypes,
        }
    }
}

/// Content that passes validation gives every one of its skills an ability that there is.
pub proof fn law_valid_skills_have_abilities(content: Content, i: int)
    requires
        content.refusal() is None,
        0 <= i < content.skills@.len(),
    ensures
        exists|j: int|
            0 <= j < content.abilities@.len() && (#[trigger] content.abilities@[j]).id@
                == content.skills@[i].ability@,
{
    lemma_no_stray(content.skills@, content.abilities@, content.skills@.len(), i);
}

proof fn lemma_no_stray(skills: Seq<Skill>, abilities: Seq<Ability>, n: nat, i: int)
    requires
        stray_skill(skills, abilities, n) is None,
        0 <= i < n,
    ensures
        exists|j: int| 0 <= j < abilities.len() && (#[trigger] abilities[j]).id@ == skills[i].ability@,
    decreases n,
{
    if i < n - 1 {
        lemma_no_stray(skills, abilities, (n - 1) as nat, i);
    }
}

/// In content that is in order every gap of every hook has something to fill it.
pub proof fn law_valid_hooks_can_be_filled(content: Content, i: int, j: int)
    requires
        content.refusal() is None,
        0 <= i < content.archetypes@.len(),
        0 <= j < content.archetypes@[i].backstory_hooks@.len(),
    ensures
        uncovered(
            content.archetypes@[i].backstory_hooks@[j]@,
            0,
            content.archetypes@[i].slot_pools@,
        ) is None,
{
    lemma_no_open_archetype(content.archetypes@, content.archetypes@.len(), i);
    lemma_no_open_hook(
        content.archetypes@[i].backstory_hooks@,
        content.archetypes@[i].slot_pools@,
        content.archetypes@[i].backstory_hooks@.len(),
        j,
    );
}

proof fn lemma_no_open_archetype(list: Seq<Archetype>, n: nat, i: int)
    requires
        open_archetype(list, n) is None,
        0 <= i < n,
    ensures
        open_hook(list[i].backstory_hooks@, list[i].slot_pools@, list[i].backstory_hooks@.len()) is None,
    decreases n,
{
    if i < n - 1 {
        lemma_no_open_archetype(list, (n - 1) as nat, i);
    }
}

proof fn lemma_no_open_hook(hooks: Seq<String>, pools: Seq<SlotPool>, n: nat, j: int)
    requires
        open_hook(hooks, pools, n) is None,
        0 <= j < n,
    ensures
        uncovered(hooks[j]@, 0, pools) is None,
    decreases n,
{
    if j < n - 1 {
        lemma_no_open_hook(hooks, pools, (n - 1) as nat, j);
    }
}

} // verus!
