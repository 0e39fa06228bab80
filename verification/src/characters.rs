//! Characters: who they are, what effects make of them, and how they change.

use vstd::prelude::*;
use crate::campaign::{
    find, lemma_character, lemma_push, lemma_row, lemma_tables, listed, next_id, put, row, Campaign, World,
};
use crate::checks::{effects_on, fits, load_effects_for_key, modifiers, sum_modifiers};
use crate::error::Error;
use crate::events::{
    entry, entry_view, field_view, fields10, fields3, int_field, one, only, opt_str, opt_text_field,
    text_field,
};
use crate::rows::{
    views, Character, Condition, Effect, Event, EventRole, EventView, KnowledgeLevel, Proficiency, Resource,
    Role, Size, Status, ValueView, ZoneKnowledge,
};
use crate::text::{
    by_name, copy_opt, debug_text, decimal, int_text, opt_text, quoted, sort_by_name, Named, NamedRow,
};

verus! {

#[derive(Debug, Clone, PartialEq, Eq)]
pub struct CreateParams {
    pub name: String,
    pub role: String,
    pub str_score: i32,
    pub dex_score: i32,
    pub con_score: i32,
    pub int_score: i32,
    pub wis_score: i32,
    pub cha_score: i32,
    pub hp_max: Option<i32>,
    pub hp_current: Option<i32>,
    pub armor_class: Option<i32>,
    pub speed_ft: Option<i32>,
    pub initiative_bonus: Option<i32>,
    pub size: Option<String>,
    pub species: Option<String>,
    pub class_or_archetype: Option<String>,
    pub ideology: Option<String>,
    pub backstory: Option<String>,
    pub plans: Option<String>,
    pub loyalty: Option<i32>,
    pub party_id: Option<i64>,
    pub current_zone_id: Option<i64>,
}

#[derive(Debug, Clone, Copy, PartialEq, Eq)]
pub struct CreateResult {
    pub character_id: i64,
    pub event_id: i64,
}

#[derive(Debug, Clone, PartialEq, Eq)]
pub struct GetParams {
    pub character_id: i64,
}

#[derive(Debug, Clone, PartialEq, Eq)]
pub struct UpdatePlansParams {
    pub character_id: i64,
    pub new_plans: String,
    pub reason: Option<String>,
}

#[derive(Debug, Clone, PartialEq, Eq)]
pub struct ChangeRoleParams {
    pub character_id: i64,
    pub new_role: String,
    pub reason: String,
}

#[derive(Debug, Clone, Copy, PartialEq, Eq)]
pub struct UpdateResult {
    pub character_id: i64,
    pub event_id: i64,
}

/// The hit points of a character where none are given.
pub fn default_hp() -> (r: i32)
    ensures
        r == 10,
{
    10
}

/// The armor class of a character where none is given.
pub fn default_ac() -> (r: i32)
    ensures
        r == 10,
{
    10
}

/// The speed of a character where none is given.
pub fn default_speed() -> (r: i32)
    ensures
        r == 30,
{
    30
}

/// The size of a character where none is given.
pub fn default_size() -> (r: String)
    ensures
        r@ == "medium"@,
{
    "medium".to_owned()
}

/// The loyalty of a character where none is given.
pub fn default_loyalty() -> (r: i32)
    ensures
        r == 50,
{
    50
}

/// The given number, or the usual one.
pub open spec fn given(n: Option<i32>, usual: i32) -> i32 {
    match n {
        Some(v) => v,
        None => usual,
    }
}

fn given_or(n: Option<i32>, usual: i32) -> (r: i32)
    ensures
        r == given(n, usual),
{
    match n {
        Some(v) => v,
        None => usual,
    }
}

/// The given size, or the usual one.
pub open spec fn size_text(p: CreateParams) -> Seq<char> {
    match p.size {
        Some(s) => s@,
        None => "medium"@,
    }
}

/// The first ability score out of bounds.
pub open spec fn score_refusal(p: CreateParams) -> Option<Error<Seq<char>>> {
    if !(1 <= p.str_score <= 30) {
        Some(Error::ScoreBounds { label: "str_score"@, value: p.str_score })
    } else if !(1 <= p.dex_score <= 30) {
        Some(Error::ScoreBounds { label: "dex_score"@, value: p.dex_score })
    } else if !(1 <= p.con_score <= 30) {
        Some(Error::ScoreBounds { label: "con_score"@, value: p.con_score })
    } else if !(1 <= p.int_score <= 30) {
        Some(Error::ScoreBounds { label: "int_score"@, value: p.int_score })
    } else if !(1 <= p.wis_score <= 30) {
        Some(Error::ScoreBounds { label: "wis_score"@, value: p.wis_score })
    } else if !(1 <= p.cha_score <= 30) {
        Some(Error::ScoreBounds { label: "cha_score"@, value: p.cha_score })
    } else {
        None
    }
}

/// Why the character cannot be created, where it cannot.
pub open spec fn create_refusal(w: World, p: CreateParams) -> Option<Error<Seq<char>>> {
    let hp_max = given(p.hp_max, 10);
    let hp = given(p.hp_current, hp_max);
    let ac = given(p.armor_class, 10);
    let speed = given(p.speed_ft, 30);
    let initiative = given(p.initiative_bonus, 0);
    let loyalty = given(p.loyalty, 50);
    if Role::of_text(p.role@) is None {
        Some(Error::UnknownRole { role: p.role@ })
    } else if Size::of_text(size_text(p)) is None {
        Some(Error::UnknownSize { size: size_text(p) })
    } else if score_refusal(p) is Some {
        score_refusal(p)
    } else if !(1 <= hp_max <= 10_000) {
        Some(Error::HpMaxBounds { value: hp_max })
    } else if !(0 <= hp <= hp_max) {
        Some(Error::HpCurrentBounds { max: hp_max, value: hp })
    } else if !(1 <= ac <= 50) {
        Some(Error::ArmorClassBounds { value: ac })
    } else if !(0 <= speed <= 1_000) {
        Some(Error::SpeedBounds { value: speed })
    } else if !(-20 <= initiative <= 20) {
        Some(Error::InitiativeBounds { value: initiative })
    } else if !(0 <= loyalty <= 100) {
        Some(Error::LoyaltyBounds { value: loyalty })
    } else if p.party_id matches Some(n) && !listed(w.parties, n) {
        Some(Error::CharacterRow)
    } else if p.current_zone_id matches Some(z) && !listed(w.zones, z) {
        Some(Error::StartingZone)
    } else {
        None
    }
}

/// The character that is created.
pub open spec fn created_row(w: World, p: CreateParams) -> Character<Seq<char>> {
    let hp_max = given(p.hp_max, 10);
    Character {
        id: next_id(w.characters),
        name: p.name@,
        role: Role::of_text(p.role@)->0,
        party_id: p.party_id,
        str_score: p.str_score,
        dex_score: p.dex_score,
        con_score: p.con_score,
        int_score: p.int_score,
        wis_score: p.wis_score,
        cha_score: p.cha_score,
        hp_current: given(p.hp_current, hp_max),
        hp_max,
        hp_temp: 0,
        armor_class: given(p.armor_class, 10),
        speed_ft: given(p.speed_ft, 30),
        initiative_bonus: given(p.initiative_bonus, 0),
        level: 1,
        xp_total: 0,
        proficiency_bonus: 2,
        size: Size::of_text(size_text(p))->0,
        species: opt_text(p.species),
        class_or_archetype: opt_text(p.class_or_archetype),
        ideology: opt_text(p.ideology),
        backstory: opt_text(p.backstory),
        plans: opt_text(p.plans),
        loyalty: given(p.loyalty, 50),
        status: Status::Alive,
        current_zone_id: p.current_zone_id,
        death_save_successes: 0,
        death_save_failures: 0,
        created_at: 0,
        updated_at: 0,
    }
}

pub open spec fn created_entry(w: World, p: CreateParams) -> EventView {
    let id = next_id(w.characters);
    EventView {
        zone_id: p.current_zone_id,
        ..entry_view(
            "character.created"@,
            0,
            "Created "@ + p.role@ + " "@ + debug_text(p.name@) + " (id="@ + int_text(id as int) + ")"@,
            seq![
                field_view("role"@, ValueView::Text(p.role@)),
                field_view("name"@, ValueView::Text(p.name@)),
                field_view("str_score"@, ValueView::Int(p.str_score as int)),
                field_view("dex_score"@, ValueView::Int(p.dex_score as int)),
                field_view("con_score"@, ValueView::Int(p.con_score as int)),
                field_view("int_score"@, ValueView::Int(p.int_score as int)),
                field_view("wis_score"@, ValueView::Int(p.wis_score as int)),
                field_view("cha_score"@, ValueView::Int(p.cha_score as int)),
                field_view("hp_max"@, ValueView::Int(given(p.hp_max, 10) as int)),
                field_view("armor_class"@, ValueView::Int(given(p.armor_class, 10) as int)),
            ],
            one(id, EventRole::Actor),
        )
    }
}

/// The campaign with the character, who knows the zone where it starts.
pub open spec fn created(w: World, p: CreateParams) -> World {
    let id = next_id(w.characters);
    let born = World { characters: w.characters.push(created_row(w, p)), ..w };
    let placed = match p.current_zone_id {
        Some(z) => World {
            zone_knowledge: w.zone_knowledge.push(
                ZoneKnowledge {
                    character_id: id,
                    zone_id: z,
                    level: KnowledgeLevel::Visited,
                    first_event_id: None,
                    last_visit_at_hour: Some(0),
                },
            ),
            ..born
        },
        None => born,
    };
    placed.with_event(created_entry(w, p))
}

fn check_scores(p: &CreateParams) -> (r: Result<(), Error>)
    ensures
        match r {
            Ok(_) => score_refusal(*p) is None,
            Err(e) => score_refusal(*p) == Some(e@),
        },
{
    if p.str_score < 1 || p.str_score > 30 {
        return Err(Error::ScoreBounds { label: "str_score".to_owned(), value: p.str_score });
    }
    if p.dex_score < 1 || p.dex_score > 30 {
        return Err(Error::ScoreBounds { label: "dex_score".to_owned(), value: p.dex_score });
    }
    if p.con_score < 1 || p.con_score > 30 {
        return Err(Error::ScoreBounds { label: "con_score".to_owned(), value: p.con_score });
    }
    if p.int_score < 1 || p.int_score > 30 {
        return Err(Error::ScoreBounds { label: "int_score".to_owned(), value: p.int_score });
    }
    if p.wis_score < 1 || p.wis_score > 30 {
        return Err(Error::ScoreBounds { label: "wis_score".to_owned(), value: p.wis_score });
    }
    if p.cha_score < 1 || p.cha_score > 30 {
        return Err(Error::ScoreBounds { label: "cha_score".to_owned(), value: p.cha_score });
    }
    Ok(())
}

/// Creates a character and writes `character.created`.
pub fn create(c: &mut Campaign, p: CreateParams) -> (r: Result<CreateResult, Error>)
    requires
        old(c)@.wf(),
        old(c)@.room(),
    ensures
        final(c)@.wf(),
        create_refusal(old(c)@, p) matches Some(e) ==> r is Err && r->Err_0@ == e && final(c)@ == old(
            c,
        )@,
        create_refusal(old(c)@, p) is None ==> {
            &&& r is Ok
            &&& r->Ok_0.character_id == next_id(old(c)@.characters)
            &&& r->Ok_0.event_id == next_id(old(c)@.events)
            &&& final(c)@ == created(old(c)@, p)
        },
{
    let ghost w = c@;
    let role = match Role::parse(p.role.as_str()) {
        Some(k) => k,
        None => {
            return Err(Error::UnknownRole { role: p.role });
        },
    };
    let size_word = match &p.size {
        Some(s) => s.clone(),
        None => default_size(),
    };
    let size = match Size::parse(size_word.as_str()) {
        Some(k) => k,
        None => {
            return Err(Error::UnknownSize { size: size_word });
        },
    };
    match check_scores(&p) {
        Ok(_) => {},
        Err(e) => {
            return Err(e);
        },
    }
    let hp_max: i32 = given_or(p.hp_max, default_hp());
    if hp_max < 1 || hp_max > 10_000 {
        return Err(Error::HpMaxBounds { value: hp_max });
    }
    let hp_current: i32 = given_or(p.hp_current, hp_max);
    if hp_current < 0 || hp_current > hp_max {
        return Err(Error::HpCurrentBounds { max: hp_max, value: hp_current });
    }
    let armor_class: i32 = given_or(p.armor_class, default_ac());
    if armor_class < 1 || armor_class > 50 {
        return Err(Error::ArmorClassBounds { value: armor_class });
    }
    let speed_ft: i32 = given_or(p.speed_ft, default_speed());
    if speed_ft < 0 || speed_ft > 1_000 {
        return Err(Error::SpeedBounds { value: speed_ft });
    }
    let initiative_bonus: i32 = given_or(p.initiative_bonus, 0);
    if initiative_bonus < -20 || initiative_bonus > 20 {
        return Err(Error::InitiativeBounds { value: initiative_bonus });
    }
    let loyalty: i32 = given_or(p.loyalty, default_loyalty());
    if loyalty < 0 || loyalty > 100 {
        return Err(Error::LoyaltyBounds { value: loyalty });
    }
    proof {
        lemma_tables(w);
    }
    if let Some(n) = p.party_id {
        if find(&c.parties, n).is_none() {
            return Err(Error::CharacterRow);
        }
    }
    if let Some(z) = p.current_zone_id {
        if find(&c.zones, z).is_none() {
            return Err(Error::StartingZone);
        }
    }
    let ch = Character {
        id: 0,
        name: p.name.clone(),
        role,
        party_id: p.party_id,
        str_score: p.str_score,
        dex_score: p.dex_score,
        con_score: p.con_score,
        int_score: p.int_score,
        wis_score: p.wis_score,
        cha_score: p.cha_score,
        hp_current,
        hp_max,
        hp_temp: 0,
        armor_class,
        speed_ft,
        initiative_bonus,
        level: 1,
        xp_total: 0,
        proficiency_bonus: 2,
        size,
        species: copy_opt(&p.species),
        class_or_archetype: copy_opt(&p.class_or_archetype),
        ideology: copy_opt(&p.ideology),
        backstory: copy_opt(&p.backstory),
        plans: copy_opt(&p.plans),
        loyalty,
        status: Status::Alive,
        current_zone_id: p.current_zone_id,
        death_save_successes: 0,
        death_save_failures: 0,
        created_at: 0,
        updated_at: 0,
    };
    assert(Character { id: next_id(w.characters), ..ch@ } == created_row(w, p));
    let character_id: i64 = c.add_character(ch);
    if let Some(z) = p.current_zone_id {
        proof {
            lemma_push(w.characters, created_row(w, p));
            reveal(World::wf);
            assert forall|k: int| 0 <= k < w.zone_knowledge.len() implies (#[trigger] w.zone_knowledge[k]).character_id
                != character_id by {
                assert(listed(w.characters, w.zone_knowledge[k].character_id));
            }
        }
        c.push_zone_knowledge(
            ZoneKnowledge {
                character_id,
                zone_id: z,
                level: KnowledgeLevel::Visited,
                first_event_id: None,
                last_visit_at_hour: Some(0),
            },
        );
    }
    let mut s = "Created ".to_owned();
    s.append(p.role.as_str());
    s.append(" ");
    s.append(quoted(p.name.as_str()).as_str());
    s.append(" (id=");
    s.append(decimal(character_id).as_str());
    s.append(")");
    let base = entry(
        "character.created",
        0,
        s,
        fields10(
            text_field("role", p.role.as_str()),
            text_field("name", p.name.as_str()),
            int_field("str_score", p.str_score as i64),
            int_field("dex_score", p.dex_score as i64),
            int_field("con_score", p.con_score as i64),
            int_field("int_score", p.int_score as i64),
            int_field("wis_score", p.wis_score as i64),
            int_field("cha_score", p.cha_score as i64),
            int_field("hp_max", hp_max as i64),
            int_field("armor_class", armor_class as i64),
        ),
        only(character_id, EventRole::Actor),
    );
    let e = Event { zone_id: p.current_zone_id, ..base };
    assert(e@ == created_entry(w, p));
    let event_id: i64 = c.add_event(e);
    assert(c@ == created(w, p));
    Ok(CreateResult { character_id, event_id })
}

// ── Reading a character ──

#[derive(Debug, Clone, PartialEq, Eq)]
pub struct ProficiencyRow<S = String> {
    pub name: S,
    pub proficient: bool,
    pub expertise: bool,
    pub ranks: i32,
}

#[derive(Debug, Clone, PartialEq, Eq)]
pub struct ResourceRow<S = String> {
    pub name: S,
    pub current: i32,
    pub max: i32,
    pub recharge: S,
}

#[derive(Debug, Clone, PartialEq, Eq)]
pub struct EffectRow<S = String> {
    pub id: i64,
    pub source: S,
    pub target_kind: S,
    pub target_key: S,
    pub modifier: i32,
    pub dice_expr: Option<S>,
    pub expires_at_hour: Option<i64>,
    pub expires_after_rounds: Option<i32>,
    pub expires_on_dispel: bool,
}

#[derive(Debug, Clone, PartialEq, Eq)]
pub struct ConditionRow<S = String> {
    pub id: i64,
    pub condition: S,
    pub severity: i32,
    pub source_event_id: Option<i64>,
    pub expires_at_hour: Option<i64>,
    pub expires_after_rounds: Option<i32>,
    pub remove_on_save: Option<S>,
}

/// A character as it is, and as effects make it.
#[derive(Debug, Clone, PartialEq, Eq)]
pub struct CharacterView {
    pub id: i64,
    pub name: String,
    pub role: String,
    pub party_id: Option<i64>,
    pub str_score: i32,
    pub dex_score: i32,
    pub con_score: i32,
    pub int_score: i32,
    pub wis_score: i32,
    pub cha_score: i32,
    pub effective_str: i32,
    pub effective_dex: i32,
    pub effective_con: i32,
    pub effective_int: i32,
    pub effective_wis: i32,
    pub effective_cha: i32,
    pub hp_current: i32,
    pub hp_max: i32,
    pub hp_temp: i32,
    pub armor_class: i32,
    pub effective_armor_class: i32,
    pub speed_ft: i32,
    pub effective_speed_ft: i32,
    pub initiative_bonus: i32,
    pub level: i32,
    pub xp_total: i32,
    pub proficiency_bonus: i32,
    pub size: String,
    pub species: Option<String>,
    pub class_or_archetype: Option<String>,
    pub ideology: Option<String>,
    pub backstory: Option<String>,
    pub plans: Option<String>,
    pub loyalty: i32,
    pub status: String,
    pub current_zone_id: Option<i64>,
    pub death_save_successes: i32,
    pub death_save_failures: i32,
    pub proficiencies: Vec<ProficiencyRow>,
    pub resources: Vec<ResourceRow>,
    pub active_effects: Vec<EffectRow>,
    pub active_conditions: Vec<ConditionRow>,
}

impl View for ProficiencyRow {
    type V = ProficiencyRow<Seq<char>>;

    open spec fn view(&self) -> ProficiencyRow<Seq<char>> {
        ProficiencyRow {
            name: self.name@,
            proficient: self.proficient,
            expertise: self.expertise,
            ranks: self.ranks,
        }
    }
}

impl View for ResourceRow {
    type V = ResourceRow<Seq<char>>;

    open spec fn view(&self) -> ResourceRow<Seq<char>> {
        ResourceRow {
            name: self.name@,
            current: self.current,
            max: self.max,
            recharge: self.recharge@,
        }
    }
}

impl View for EffectRow {
    type V = EffectRow<Seq<char>>;

    open spec fn view(&self) -> EffectRow<Seq<char>> {
        EffectRow {
            id: self.id,
            source: self.source@,
            target_kind: self.target_kind@,
            target_key: self.target_key@,
            modifier: self.modifier,
            dice_expr: opt_text(self.dice_expr),
            expires_at_hour: self.expires_at_hour,
            expires_after_rounds: self.expires_after_rounds,
            expires_on_dispel: self.expires_on_dispel,
        }
    }
}

impl View for ConditionRow {
    type V = ConditionRow<Seq<char>>;

    open spec fn view(&self) -> ConditionRow<Seq<char>> {
        ConditionRow {
            id: self.id,
            condition: self.condition@,
            severity: self.severity,
            source_event_id: self.source_event_id,
            expires_at_hour: self.expires_at_hour,
            expires_after_rounds: self.expires_after_rounds,
            remove_on_save: opt_text(self.remove_on_save),
        }
    }
}

impl Named for ProficiencyRow<Seq<char>> {
    open spec fn label(&self) -> Seq<char> {
        self.name
    }
}

impl NamedRow for ProficiencyRow {
    fn name_text(&self) -> (r: &str) {
        self.name.as_str()
    }
}

impl Named for ResourceRow<Seq<char>> {
    open spec fn label(&self) -> Seq<char> {
        self.name
    }
}

impl NamedRow for ResourceRow {
    fn name_text(&self) -> (r: &str) {
        self.name.as_str()
    }
}

/// The training of the character.
pub open spec fn proficiencies_of(rows: Seq<Proficiency<Seq<char>>>, id: i64) -> Seq<ProficiencyRow<Seq<char>>>
    decreases rows.len(),
{
    if rows.len() == 0 {
        Seq::empty()
    } else {
        let rest = proficiencies_of(rows.drop_last(), id);
        let r = rows.last();
        if r.character_id == id {
            rest.push(
                ProficiencyRow {
                    name: r.name,
                    proficient: r.proficient,
                    expertise: r.expertise,
                    ranks: r.ranks,
                },
            )
        } else {
            rest
        }
    }
}

/// The resources of the character.
pub open spec fn resources_of(rows: Seq<Resource<Seq<char>>>, id: i64) -> Seq<ResourceRow<Seq<char>>>
    decreases rows.len(),
{
    if rows.len() == 0 {
        Seq::empty()
    } else {
        let rest = resources_of(rows.drop_last(), id);
        let r = rows.last();
        if r.character_id == id {
            rest.push(
                ResourceRow { name: r.name, current: r.current, max: r.max, recharge: r.recharge.text() },
            )
        } else {
            rest
        }
    }
}

/// The active effects on the character, oldest first.
pub open spec fn effects_of(rows: Seq<Effect<Seq<char>>>, id: i64) -> Seq<EffectRow<Seq<char>>>
    decreases rows.len(),
{
    if rows.len() == 0 {
        Seq::empty()
    } else {
        let rest = effects_of(rows.drop_last(), id);
        let r = rows.last();
        if r.target_character_id == id && r.active {
            rest.push(
                EffectRow {
                    id: r.id,
                    source: r.source,
                    target_kind: r.target_kind.text(),
                    target_key: r.target_key,
                    modifier: r.modifier,
                    dice_expr: r.dice_expr,
                    expires_at_hour: r.expires_at_hour,
                    expires_after_rounds: r.expires_after_rounds,
                    expires_on_dispel: r.expires_on_dispel,
                },
            )
        } else {
            rest
        }
    }
}

/// The active conditions of the character, oldest first.
pub open spec fn conditions_of(rows: Seq<Condition<Seq<char>>>, id: i64) -> Seq<ConditionRow<Seq<char>>>
    decreases rows.len(),
{
    if rows.len() == 0 {
        Seq::empty()
    } else {
        let rest = conditions_of(rows.drop_last(), id);
        let r = rows.last();
        if r.character_id == id && r.active {
            rest.push(
                ConditionRow {
                    id: r.id,
                    condition: r.condition,
                    severity: r.severity,
                    source_event_id: r.source_event_id,
                    expires_at_hour: r.expires_at_hour,
                    expires_after_rounds: r.expires_after_rounds,
                    remove_on_save: r.remove_on_save,
                },
            )
        } else {
            rest
        }
    }
}

/// A number of the character with what active effects add to it.
pub open spec fn effective(w: World, id: i64, base: i32, key: Seq<char>) -> int {
    base + modifiers(effects_on(w.effects, id, key))
}

/// The numbers of the character, with what effects add to them, are numbers that can be told.
pub open spec fn stats_fit(w: World, id: i64) -> bool {
    listed(w.characters, id) ==> {
        let ch = row(w.characters, id);
        &&& fits(effective(w, id, ch.str_score, "str_score"@))
        &&& fits(effective(w, id, ch.dex_score, "dex_score"@))
        &&& fits(effective(w, id, ch.con_score, "con_score"@))
        &&& fits(effective(w, id, ch.int_score, "int_score"@))
        &&& fits(effective(w, id, ch.wis_score, "wis_score"@))
        &&& fits(effective(w, id, ch.cha_score, "cha_score"@))
        &&& fits(effective(w, id, ch.armor_class, "armor_class"@))
        &&& fits(effective(w, id, ch.speed_ft, "speed_ft"@))
        &&& fits(ch.xp_total as int)
    }
}

/// What reading a character returns.
pub open spec fn is_view(w: World, id: i64, v: CharacterView) -> bool {
    let ch = row(w.characters, id);
    &&& v.id == id
    &&& v.name@ == ch.name
    &&& v.role@ == ch.role.text()
    &&& v.party_id == ch.party_id
    &&& v.str_score == ch.str_score
    &&& v.dex_score == ch.dex_score
    &&& v.con_score == ch.con_score
    &&& v.int_score == ch.int_score
    &&& v.wis_score == ch.wis_score
    &&& v.cha_score == ch.cha_score
    &&& v.effective_str == effective(w, id, ch.str_score, "str_score"@)
    &&& v.effective_dex == effective(w, id, ch.dex_score, "dex_score"@)
    &&& v.effective_con == effective(w, id, ch.con_score, "con_score"@)
    &&& v.effective_int == effective(w, id, ch.int_score, "int_score"@)
    &&& v.effective_wis == effective(w, id, ch.wis_score, "wis_score"@)
    &&& v.effective_cha == effective(w, id, ch.cha_score, "cha_score"@)
    &&& v.hp_current == ch.hp_current
    &&& v.hp_max == ch.hp_max
    &&& v.hp_temp == ch.hp_temp
    &&& v.armor_class == ch.armor_class
    &&& v.effective_armor_class == effective(w, id, ch.armor_class, "armor_class"@)
    &&& v.speed_ft == ch.speed_ft
    &&& v.effective_speed_ft == effective(w, id, ch.speed_ft, "speed_ft"@)
    &&& v.initiative_bonus == ch.initiative_bonus
    &&& v.level == ch.level
    &&& v.xp_total == ch.xp_total
    &&& v.proficiency_bonus == ch.proficiency_bonus
    &&& v.size@ == ch.size.text()
    &&& opt_text(v.species) == ch.species
    &&& opt_text(v.class_or_archetype) == ch.class_or_archetype
    &&& opt_text(v.ideology) == ch.ideology
    &&& opt_text(v.backstory) == ch.backstory
    &&& opt_text(v.plans) == ch.plans
    &&& v.loyalty == ch.loyalty
    &&& v.status@ == ch.status.text()
    &&& v.current_zone_id == ch.current_zone_id
    &&& v.death_save_successes == ch.death_save_successes
    &&& v.death_save_failures == ch.death_save_failures
    &&& views(v.proficiencies@) == by_name(proficiencies_of(w.proficiencies, id))
    &&& views(v.resources@) == by_name(resources_of(w.resources, id))
    &&& views(v.active_effects@) == effects_of(w.effects, id)
    &&& views(v.active_conditions@) == conditions_of(w.conditions, id)
}

fn load_proficiencies(c: &Campaign, id: i64) -> (r: Vec<ProficiencyRow>)
    ensures
        views(r@) == by_name(proficiencies_of(c@.proficiencies, id)),
{
    let mut out: Vec<ProficiencyRow> = Vec::new();
    let mut i: usize = 0;
    assert(views(out@) =~= proficiencies_of(c@.proficiencies.take(0), id));
    while i < c.proficiencies.len()
        invariant
            i <= c.proficiencies.len(),
            views(out@) == proficiencies_of(c@.proficiencies.take(i as int), id),
        decreases c.proficiencies.len() - i,
    {
        let r = &c.proficiencies[i];
        proof {
            assert(c@.proficiencies[i as int] == r@);
            assert(c@.proficiencies.take(i + 1).drop_last() =~= c@.proficiencies.take(i as int));
        }
        if r.character_id == id {
            let ghost before = out@;
            let x = ProficiencyRow {
                name: r.name.clone(),
                proficient: r.proficient,
                expertise: r.expertise,
                ranks: r.ranks,
            };
            out.push(x);
            assert(views(out@) =~= views(before).push(x@));
        }
        i = i + 1;
    }
    assert(c@.proficiencies.take(i as int) =~= c@.proficiencies);
    sort_by_name(out)
}

fn load_resources(c: &Campaign, id: i64) -> (r: Vec<ResourceRow>)
    ensures
        views(r@) == by_name(resources_of(c@.resources, id)),
{
    let mut out: Vec<ResourceRow> = Vec::new();
    let mut i: usize = 0;
    assert(views(out@) =~= resources_of(c@.resources.take(0), id));
    while i < c.resources.len()
        invariant
            i <= c.resources.len(),
            views(out@) == resources_of(c@.resources.take(i as int), id),
        decreases c.resources.len() - i,
    {
        let r = &c.resources[i];
        proof {
            assert(c@.resources[i as int] == r@);
            assert(c@.resources.take(i + 1).drop_last() =~= c@.resources.take(i as int));
        }
        if r.character_id == id {
            let ghost before = out@;
            let x = ResourceRow {
                name: r.name.clone(),
                current: r.current,
                max: r.max,
                recharge: r.recharge.as_str().to_owned(),
            };
            out.push(x);
            assert(views(out@) =~= views(before).push(x@));
        }
        i = i + 1;
    }
    assert(c@.resources.take(i as int) =~= c@.resources);
    sort_by_name(out)
}

fn load_active_effects(c: &Campaign, id: i64) -> (r: Vec<EffectRow>)
    ensures
        views(r@) == effects_of(c@.effects, id),
{
    let mut out: Vec<EffectRow> = Vec::new();
    let mut i: usize = 0;
    assert(views(out@) =~= effects_of(c@.effects.take(0), id));
    while i < c.effects.len()
        invariant
            i <= c.effects.len(),
            views(out@) == effects_of(c@.effects.take(i as int), id),
        decreases c.effects.len() - i,
    {
        let r = &c.effects[i];
        proof {
            assert(c@.effects[i as int] == r@);
            assert(c@.effects.take(i + 1).drop_last() =~= c@.effects.take(i as int));
        }
        if r.target_character_id == id && r.active {
            let ghost before = out@;
            let x = EffectRow {
                id: r.id,
                source: r.source.clone(),
                target_kind: r.target_kind.as_str().to_owned(),
                target_key: r.target_key.clone(),
                modifier: r.modifier,
                dice_expr: copy_opt(&r.dice_expr),
                expires_at_hour: r.expires_at_hour,
                expires_after_rounds: r.expires_after_rounds,
                expires_on_dispel: r.expires_on_dispel,
            };
            out.push(x);
            assert(views(out@) =~= views(before).push(x@));
        }
        i = i + 1;
    }
    assert(c@.effects.take(i as int) =~= c@.effects);
    out
}

fn load_active_conditions(c: &Campaign, id: i64) -> (r: Vec<ConditionRow>)
    ensures
        views(r@) == conditions_of(c@.conditions, id),
{
    let mut out: Vec<ConditionRow> = Vec::new();
    let mut i: usize = 0;
    assert(views(out@) =~= conditions_of(c@.conditions.take(0), id));
    while i < c.conditions.len()
        invariant
            i <= c.conditions.len(),
            views(out@) == conditions_of(c@.conditions.take(i as int), id),
        decreases c.conditions.len() - i,
    {
        let r = &c.conditions[i];
        proof {
            assert(c@.conditions[i as int] == r@);
            assert(c@.conditions.take(i + 1).drop_last() =~= c@.conditions.take(i as int));
        }
        if r.character_id == id && r.active {
            let ghost before = out@;
            let x = ConditionRow {
                id: r.id,
                condition: r.condition.clone(),
                severity: r.severity,
                source_event_id: r.source_event_id,
                expires_at_hour: r.expires_at_hour,
                expires_after_rounds: r.expires_after_rounds,
                remove_on_save: copy_opt(&r.remove_on_save),
            };
            out.push(x);
            assert(views(out@) =~= views(before).push(x@));
        }
        i = i + 1;
    }
    assert(c@.conditions.take(i as int) =~= c@.conditions);
    out
}

/// A number of the character with what active effects add to it.
pub(crate) fn effective_of(c: &Campaign, id: i64, base: i32, key: &str) -> (r: i128)
    requires
        c@.room(),
    ensures
        r == effective(c@, id, base, key@),
{
    let rows = load_effects_for_key(c, id, key);
    base as i128 + sum_modifiers(&rows)
}

/// Whether the numbers of the character, with what effects add to them, can be told.
pub fn check_stats_fit(c: &Campaign, id: i64) -> (r: bool)
    requires
        c@.wf(),
        c@.room(),
    ensures
        r == stats_fit(c@, id),
{
    proof {
        lemma_tables(c@);
    }
    match find(&c.characters, id) {
        None => true,
        Some(i) => {
            let ch = &c.characters[i];
            in_range(effective_of(c, id, ch.str_score, "str_score")) && in_range(
                effective_of(c, id, ch.dex_score, "dex_score"),
            ) && in_range(effective_of(c, id, ch.con_score, "con_score")) && in_range(
                effective_of(c, id, ch.int_score, "int_score"),
            ) && in_range(effective_of(c, id, ch.wis_score, "wis_score")) && in_range(
                effective_of(c, id, ch.cha_score, "cha_score"),
            ) && in_range(effective_of(c, id, ch.armor_class, "armor_class")) && in_range(
                effective_of(c, id, ch.speed_ft, "speed_ft"),
            ) && in_range(ch.xp_total as i128)
        },
    }
}

fn in_range(n: i128) -> (r: bool)
    ensures
        r == fits(n as int),
{
    -0x8000_0000 <= n && n <= 0x7fff_ffff
}

/// Reads a character, with what active effects make of its numbers.
pub fn get(c: &Campaign, character_id: i64) -> (r: Result<CharacterView, Error>)
    requires
        c@.wf(),
        c@.room(),
        stats_fit(c@, character_id),
    ensures
        match r {
            Ok(v) => listed(c@.characters, character_id) && is_view(c@, character_id, v),
            Err(e) => !listed(c@.characters, character_id) && e@ == (Error::<Seq<char>>::CharacterNotFound {
                id: character_id,
            }),
        },
{
    proof {
        lemma_tables(c@);
    }
    let i: usize = match find(&c.characters, character_id) {
        Some(i) => i,
        None => {
            return Err(Error::CharacterNotFound { id: character_id });
        },
    };
    let ch = &c.characters[i];
    Ok(
        CharacterView {
            id: ch.id,
            name: ch.name.clone(),
            role: ch.role.as_str().to_owned(),
            party_id: ch.party_id,
            str_score: ch.str_score,
            dex_score: ch.dex_score,
            con_score: ch.con_score,
            int_score: ch.int_score,
            wis_score: ch.wis_score,
            cha_score: ch.cha_score,
            effective_str: effective_of(c, character_id, ch.str_score, "str_score") as i32,
            effective_dex: effective_of(c, character_id, ch.dex_score, "dex_score") as i32,
            effective_con: effective_of(c, character_id, ch.con_score, "con_score") as i32,
            effective_int: effective_of(c, character_id, ch.int_score, "int_score") as i32,
            effective_wis: effective_of(c, character_id, ch.wis_score, "wis_score") as i32,
            effective_cha: effective_of(c, character_id, ch.cha_score, "cha_score") as i32,
            hp_current: ch.hp_current,
            hp_max: ch.hp_max,
            hp_temp: ch.hp_temp,
            armor_class: ch.armor_class,
            effective_armor_class: effective_of(c, character_id, ch.armor_class, "armor_class") as i32,
            speed_ft: ch.speed_ft,
            effective_speed_ft: effective_of(c, character_id, ch.speed_ft, "speed_ft") as i32,
            initiative_bonus: ch.initiative_bonus,
            level: ch.level,
            xp_total: ch.xp_total as i32,
            proficiency_bonus: ch.proficiency_bonus,
            size: ch.size.as_str().to_owned(),
            species: copy_opt(&ch.species),
            class_or_archetype: copy_opt(&ch.class_or_archetype),
            ideology: copy_opt(&ch.ideology),
            backstory: copy_opt(&ch.backstory),
            plans: copy_opt(&ch.plans),
            loyalty: ch.loyalty,
            status: ch.status.as_str().to_owned(),
            current_zone_id: ch.current_zone_id,
            death_save_successes: ch.death_save_successes,
            death_save_failures: ch.death_save_failures,
            proficiencies: load_proficiencies(c, character_id),
            resources: load_resources(c, character_id),
            active_effects: load_active_effects(c, character_id),
            active_conditions: load_active_conditions(c, character_id),
        },
    )
}

// ── Changing a character ──

pub open spec fn plans_refusal(w: World, p: UpdatePlansParams) -> Option<Error<Seq<char>>> {
    if listed(w.characters, p.character_id) {
        None
    } else {
        Some(Error::NoSuchCharacter { id: p.character_id })
    }
}

pub open spec fn plans_entry(w: World, p: UpdatePlansParams) -> EventView {
    entry_view(
        "npc.plan_changed"@,
        0,
        "Plans updated for character id="@ + int_text(p.character_id as int),
        seq![
            field_view("old_plans"@, opt_str(row(w.characters, p.character_id).plans)),
            field_view("new_plans"@, ValueView::Text(p.new_plans@)),
            field_view("reason"@, opt_str(opt_text(p.reason))),
        ],
        one(p.character_id, EventRole::Target),
    )
}

/// The campaign with the character's new plans.
pub open spec fn replanned(w: World, p: UpdatePlansParams) -> World {
    World {
        characters: put(
            w.characters,
            Character {
                plans: Some(p.new_plans@),
                updated_at: 0,
                ..row(w.characters, p.character_id)
            },
        ),
        ..w
    }.with_event(plans_entry(w, p))
}

/// Gives a character new plans and writes `npc.plan_changed`.
pub fn update_plans(c: &mut Campaign, p: UpdatePlansParams) -> (r: Result<UpdateResult, Error>)
    requires
        old(c)@.wf(),
        old(c)@.room(),
    ensures
        final(c)@.wf(),
        plans_refusal(old(c)@, p) matches Some(e) ==> r is Err && r->Err_0@ == e && final(c)@ == old(c)@,
        plans_refusal(old(c)@, p) is None ==> {
            &&& r is Ok
            &&& r->Ok_0.character_id == p.character_id
            &&& r->Ok_0.event_id == next_id(old(c)@.events)
            &&& final(c)@ == replanned(old(c)@, p)
        },
{
    let ghost w = c@;
    proof {
        lemma_tables(w);
    }
    let i: usize = match find(&c.characters, p.character_id) {
        Some(i) => i,
        None => {
            return Err(Error::NoSuchCharacter { id: p.character_id });
        },
    };
    proof {
        lemma_character(w, p.character_id);
    }
    let mut ch = c.characters[i].copy();
    let before = copy_opt(&ch.plans);
    ch.plans = Some(p.new_plans.clone());
    ch.updated_at = 0;
    c.set_character(i, ch);
    let mut s = "Plans updated for character id=".to_owned();
    s.append(decimal(p.character_id).as_str());
    let e = entry(
        "npc.plan_changed",
        0,
        s,
        fields3(
            opt_text_field("old_plans", &before),
            text_field("new_plans", p.new_plans.as_str()),
            opt_text_field("reason", &p.reason),
        ),
        only(p.character_id, EventRole::Target),
    );
    assert(e@ == plans_entry(w, p));
    let event_id: i64 = c.add_event(e);
    assert(c@ == replanned(w, p));
    Ok(UpdateResult { character_id: p.character_id, event_id })
}

pub open spec fn role_refusal(w: World, p: ChangeRoleParams) -> Option<Error<Seq<char>>> {
    if Role::of_text(p.new_role@) is None {
        Some(Error::UnknownRole { role: p.new_role@ })
    } else if !listed(w.characters, p.character_id) {
        Some(Error::NoSuchCharacter { id: p.character_id })
    } else {
        None
    }
}

pub open spec fn role_entry(w: World, p: ChangeRoleParams) -> EventView {
    let before = row(w.characters, p.character_id).role.text();
    entry_view(
        "npc.role_changed"@,
        0,
        "Role changed from "@ + debug_text(before) + " to "@ + debug_text(p.new_role@)
            + " for character id="@ + int_text(p.character_id as int),
        seq![
            field_view("old_role"@, ValueView::Text(before)),
            field_view("new_role"@, ValueView::Text(p.new_role@)),
            field_view("reason"@, ValueView::Text(p.reason@)),
        ],
        one(p.character_id, EventRole::Target),
    )
}

/// The campaign with the character in its new role.
pub open spec fn recast(w: World, p: ChangeRoleParams) -> World {
    World {
        characters: put(
            w.characters,
            Character {
                role: Role::of_text(p.new_role@)->0,
                updated_at: 0,
                ..row(w.characters, p.character_id)
            },
        ),
        ..w
    }.with_event(role_entry(w, p))
}

/// Gives a character a new role and writes `npc.role_changed`.
pub fn change_role(c: &mut Campaign, p: ChangeRoleParams) -> (r: Result<UpdateResult, Error>)
    requires
        old(c)@.wf(),
        old(c)@.room(),
    ensures
        final(c)@.wf(),
        role_refusal(old(c)@, p) matches Some(e) ==> r is Err && r->Err_0@ == e && final(c)@ == old(c)@,
        role_refusal(old(c)@, p) is None ==> {
            &&& r is Ok
            &&& r->Ok_0.character_id == p.character_id
            &&& r->Ok_0.event_id == next_id(old(c)@.events)
            &&& final(c)@ == recast(old(c)@, p)
        },
{
    let ghost w = c@;
    let role = match Role::parse(p.new_role.as_str()) {
        Some(k) => k,
        None => {
            return Err(Error::UnknownRole { role: p.new_role });
        },
    };
    proof {
        lemma_tables(w);
    }
    let i: usize = match find(&c.characters, p.character_id) {
        Some(i) => i,
        None => {
            return Err(Error::NoSuchCharacter { id: p.character_id });
        },
    };
    proof {
        lemma_character(w, p.character_id);
    }
    let mut ch = c.characters[i].copy();
    let before = ch.role;
    ch.role = role;
    ch.updated_at = 0;
    c.set_character(i, ch);
    let mut s = "Role changed from ".to_owned();
    s.append(quoted(before.as_str()).as_str());
    s.append(" to ");
    s.append(quoted(p.new_role.as_str()).as_str());
    s.append(" for character id=");
    s.append(decimal(p.character_id).as_str());
    let e = entry(
        "npc.role_changed",
        0,
        s,
        fields3(
            text_field("old_role", before.as_str()),
            text_field("new_role", p.new_role.as_str()),
            text_field("reason", p.reason.as_str()),
        ),
        only(p.character_id, EventRole::Target),
    );
    assert(e@ == role_entry(w, p));
    let event_id: i64 = c.add_event(e);
    assert(c@ == recast(w, p));
    Ok(UpdateResult { character_id: p.character_id, event_id })
}

proof fn lemma_nothing_of(w: World, id: i64)
    requires
        w.wf(),
        !listed(w.characters, id),
    ensures
        proficiencies_of(w.proficiencies, id).len() == 0,
        resources_of(w.resources, id).len() == 0,
        effects_of(w.effects, id).len() == 0,
        conditions_of(w.conditions, id).len() == 0,
        forall|key: Seq<char>| modifiers(#[trigger] effects_on(w.effects, id, key)) == 0,
{
    reveal(World::wf);
    lemma_no_proficiencies(w.proficiencies, id);
    lemma_no_resources(w.resources, id);
    lemma_no_effects(w.effects, id);
    lemma_no_conditions(w.conditions, id);
    assert forall|key: Seq<char>| modifiers(#[trigger] effects_on(w.effects, id, key)) == 0 by {
        lemma_none_on(w.effects, id, key);
    }
}

proof fn lemma_no_proficiencies(rows: Seq<Proficiency<Seq<char>>>, id: i64)
    requires
        forall|i: int| 0 <= i < rows.len() ==> (#[trigger] rows[i]).character_id != id,
    ensures
        proficiencies_of(rows, id).len() == 0,
    decreases rows.len(),
{
    if rows.len() > 0 {
        lemma_no_proficiencies(rows.drop_last(), id);
    }
}

proof fn lemma_no_resources(rows: Seq<Resource<Seq<char>>>, id: i64)
    requires
        forall|i: int| 0 <= i < rows.len() ==> (#[trigger] rows[i]).character_id != id,
    ensures
        resources_of(rows, id).len() == 0,
    decreases rows.len(),
{
    if rows.len() > 0 {
        lemma_no_resources(rows.drop_last(), id);
    }
}

proof fn lemma_no_effects(rows: Seq<Effect<Seq<char>>>, id: i64)
    requires
        forall|i: int| 0 <= i < rows.len() ==> (#[trigger] rows[i]).target_character_id != id,
    ensures
        effects_of(rows, id).len() == 0,
    decreases rows.len(),
{
    if rows.len() > 0 {
        lemma_no_effects(rows.drop_last(), id);
    }
}

proof fn lemma_no_conditions(rows: Seq<Condition<Seq<char>>>, id: i64)
    requires
        forall|i: int| 0 <= i < rows.len() ==> (#[trigger] rows[i]).character_id != id,
    ensures
        conditions_of(rows, id).len() == 0,
    decreases rows.len(),
{
    if rows.len() > 0 {
        lemma_no_conditions(rows.drop_last(), id);
    }
}

proof fn lemma_none_on(rows: Seq<Effect<Seq<char>>>, id: i64, key: Seq<char>)
    requires
        forall|i: int| 0 <= i < rows.len() ==> (#[trigger] rows[i]).target_character_id != id,
    ensures
        effects_on(rows, id, key).len() == 0,
    decreases rows.len(),
{
    if rows.len() > 0 {
        lemma_none_on(rows.drop_last(), id, key);
    }
}

/// What is read of a character that has just been created is what it was created with: its
/// row is the one written, no effect changes any of its numbers, and nothing hangs on it yet.
pub proof fn law_new_character_reads_as_written(w: World, p: CreateParams)
    requires
        w.wf(),
        w.room(),
        create_refusal(w, p) is None,
    ensures
        ({
            let v = created(w, p);
            let id = next_id(w.characters);
            &&& listed(v.characters, id)
            &&& row(v.characters, id) == created_row(w, p)
            &&& forall|base: i32, key: Seq<char>| #[trigger] effective(v, id, base, key) == base
            &&& proficiencies_of(v.proficiencies, id).len() == 0
            &&& resources_of(v.resources, id).len() == 0
            &&& effects_of(v.effects, id).len() == 0
            &&& conditions_of(v.conditions, id).len() == 0
        }),
{
    lemma_tables(w);
    let id = next_id(w.characters);
    let v = created(w, p);
    lemma_push(w.characters, created_row(w, p));
    lemma_nothing_of(w, id);
    assert(v.characters == w.characters.push(created_row(w, p)));
    assert(v.effects == w.effects);
}

/// Characters that are there already stay as they are when another one is created.
pub proof fn law_creation_leaves_the_others(w: World, p: CreateParams, id: i64)
    requires
        w.wf(),
        w.room(),
        create_refusal(w, p) is None,
        listed(w.characters, id),
    ensures
        listed(created(w, p).characters, id),
        row(created(w, p).characters, id) == row(w.characters, id),
{
    lemma_tables(w);
    lemma_push(w.characters, created_row(w, p));
    lemma_row(w.characters, id);
}

} // verus!
