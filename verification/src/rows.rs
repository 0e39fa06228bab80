//! The rows of the campaign database.
//!
//! A row type has its texts as a type parameter: `Character` holds strings, its view
//! `Character<Seq<char>>` holds the texts themselves.

use vstd::prelude::*;
use crate::doubles::Double;
use crate::text::{copy_opt, opt_text, same, texts};

verus! {

/// A row that has an id of its own.
pub trait Row {
    spec fn key(&self) -> i64;
}

/// A row as it is stored, with the same id as its view.
pub trait Stored: View + Row where Self::V: Row {
    fn row_id(&self) -> (r: i64)
        ensures
            r == self.key(),
    ;

    proof fn lemma_key(&self)
        ensures
            self.key() == self@.key(),
    ;
}

/// The part a character plays in the story.
#[derive(Debug, Clone, Copy, PartialEq, Eq, Structural)]
pub enum Role {
    Player,
    Companion,
    Friendly,
    Enemy,
    Neutral,
}

/// How big a creature is.
#[derive(Debug, Clone, Copy, PartialEq, Eq, Structural)]
pub enum Size {
    Tiny,
    Small,
    Medium,
    Large,
    Huge,
    Gargantuan,
}

/// How a character fares.
#[derive(Debug, Clone, Copy, PartialEq, Eq, Structural)]
pub enum Status {
    Alive,
    Unconscious,
    Dead,
    Missing,
}

/// When a resource refills.
#[derive(Debug, Clone, Copy, PartialEq, Eq, Structural)]
pub enum Recharge {
    ShortRest,
    LongRest,
    Dawn,
    Never,
    Manual,
}

/// What an effect acts on.
#[derive(Debug, Clone, Copy, PartialEq, Eq, Structural)]
pub enum TargetKind {
    Ability,
    Ac,
    Speed,
    HpMax,
    Attack,
    Damage,
    Skill,
    Save,
    Misc,
}

/// The side a participant of an encounter is on.
#[derive(Debug, Clone, Copy, PartialEq, Eq, Structural)]
pub enum Side {
    PlayerSide,
    Hostile,
    Neutral,
    Ally,
}

/// Where an encounter stands.
#[derive(Debug, Clone, Copy, PartialEq, Eq, Structural)]
pub enum EncounterStatus {
    Active,
    GoalCompleted,
    Abandoned,
    Failed,
}

/// What a character has to do with an event.
#[derive(Debug, Clone, Copy, PartialEq, Eq, Structural)]
pub enum EventRole {
    Actor,
    Target,
    Witness,
    Beneficiary,
}

/// Setup until the campaign is marked ready, running from then on.
#[derive(Debug, Clone, Copy, PartialEq, Eq, Structural)]
pub enum Phase {
    Setup,
    Running,
}

/// How well a character knows a place, from hearsay to a map.
#[derive(Debug, Clone, Copy, PartialEq, Eq, Structural)]
pub enum KnowledgeLevel {
    Rumored,
    Known,
    Visited,
    Mapped,
}

/// The way an edge of the map leaves a zone.
#[derive(Debug, Clone, Copy, PartialEq, Eq, Structural)]
pub enum Direction {
    N,
    Ne,
    E,
    Se,
    S,
    Sw,
    W,
    Nw,
    Up,
    Down,
}

/// How an edge of the map is travelled.
#[derive(Debug, Clone, Copy, PartialEq, Eq, Structural)]
pub enum TravelMode {
    Road,
    Wilderness,
    Portal,
    Passage,
    Climb,
}

/// What sort of place a zone is.
#[derive(Debug, Clone, Copy, PartialEq, Eq, Structural)]
pub enum ZoneKind {
    Wilderness,
    Settlement,
    Dungeon,
    DungeonFloor,
    DungeonRoom,
    Road,
    Liminal,
}

/// How big a zone is.
#[derive(Debug, Clone, Copy, PartialEq, Eq, Structural)]
pub enum ZoneSize {
    Tiny,
    Small,
    Medium,
    Large,
    Vast,
}

/// What sort of place a landmark is.
#[derive(Debug, Clone, Copy, PartialEq, Eq, Structural)]
pub enum LandmarkKind {
    Settlement,
    DungeonEntrance,
    Shop,
    Temple,
    Ruin,
    NaturalFeature,
}

/// A party of characters.
#[derive(Debug, Clone, PartialEq, Eq)]
pub struct Party {
    pub id: i64,
}

/// A character: a player, a companion, an ally, an enemy or a bystander.
#[derive(Debug, Clone, PartialEq, Eq)]
pub struct Character<S = String> {
    pub id: i64,
    pub name: S,
    pub role: Role,
    pub party_id: Option<i64>,
    pub str_score: i32,
    pub dex_score: i32,
    pub con_score: i32,
    pub int_score: i32,
    pub wis_score: i32,
    pub cha_score: i32,
    pub hp_current: i32,
    pub hp_max: i32,
    pub hp_temp: i32,
    pub armor_class: i32,
    pub speed_ft: i32,
    pub initiative_bonus: i32,
    pub level: i32,
    pub xp_total: i64,
    pub proficiency_bonus: i32,
    pub size: Size,
    pub species: Option<S>,
    pub class_or_archetype: Option<S>,
    pub ideology: Option<S>,
    pub backstory: Option<S>,
    pub plans: Option<S>,
    pub loyalty: i32,
    pub status: Status,
    pub current_zone_id: Option<i64>,
    pub death_save_successes: i32,
    pub death_save_failures: i32,
    pub created_at: i64,
    pub updated_at: i64,
}

/// What a character is trained in.
#[derive(Debug, Clone, PartialEq, Eq)]
pub struct Proficiency<S = String> {
    pub character_id: i64,
    pub name: S,
    pub proficient: bool,
    pub expertise: bool,
    pub ranks: i32,
}

/// Something a character spends and refills.
#[derive(Debug, Clone, PartialEq, Eq)]
pub struct Resource<S = String> {
    pub character_id: i64,
    pub name: S,
    pub current: i32,
    pub max: i32,
    pub recharge: Recharge,
}

/// A condition that a character is or was under.
#[derive(Debug, Clone, PartialEq, Eq)]
pub struct Condition<S = String> {
    pub id: i64,
    pub character_id: i64,
    pub condition: S,
    pub severity: i32,
    pub source_event_id: Option<i64>,
    pub expires_at_hour: Option<i64>,
    pub expires_after_rounds: Option<i32>,
    pub remove_on_save: Option<S>,
    pub active: bool,
}

/// A modifier that acts or acted on a character.
#[derive(Debug, Clone, PartialEq, Eq)]
pub struct Effect<S = String> {
    pub id: i64,
    pub target_character_id: i64,
    pub source: S,
    pub target_kind: TargetKind,
    pub target_key: S,
    pub modifier: i32,
    pub dice_expr: Option<S>,
    pub start_event_id: i64,
    pub expires_at_hour: Option<i64>,
    pub expires_after_rounds: Option<i32>,
    pub expires_on_dispel: bool,
    pub active: bool,
}

/// Where an item is: with a character, in another item, or in a zone.
#[derive(Debug, Clone, Copy, PartialEq, Eq, Structural)]
pub enum Place {
    Holder(i64),
    Container(i64),
    Zone(i64),
}

/// An item, or a stack of them.
#[derive(Debug, Clone, PartialEq, Eq)]
pub struct Item<S = String> {
    pub id: i64,
    pub base_kind: S,
    pub name: Option<S>,
    pub material: Option<S>,
    pub material_tier: Option<i32>,
    pub quality: Option<S>,
    pub quantity: i64,
    pub place: Place,
    pub equipped_slot: Option<S>,
    pub created_at_event_id: Option<i64>,
    pub updated_at: i64,
}

/// A place on the map.
#[derive(Debug, Clone, PartialEq, Eq)]
pub struct Zone<S = String> {
    pub id: i64,
    pub name: S,
    pub biome: S,
    pub kind: ZoneKind,
    pub size: ZoneSize,
    pub description: Option<S>,
}

/// A way from one zone to another.
#[derive(Debug, Clone, PartialEq, Eq)]
pub struct Connection {
    pub from_zone_id: i64,
    pub to_zone_id: i64,
    pub travel_time_hours: i32,
    pub travel_mode: TravelMode,
    pub one_way: bool,
    pub direction_from: Direction,
}

/// A feature of a zone.
#[derive(Debug, Clone, PartialEq, Eq)]
pub struct Landmark<S = String> {
    pub id: i64,
    pub zone_id: i64,
    pub name: S,
    pub kind: LandmarkKind,
    pub description: Option<S>,
    pub hidden: bool,
}

/// How well a character knows a zone.
#[derive(Debug, Clone, PartialEq, Eq)]
pub struct ZoneKnowledge {
    pub character_id: i64,
    pub zone_id: i64,
    pub level: KnowledgeLevel,
    pub first_event_id: Option<i64>,
    pub last_visit_at_hour: Option<i64>,
}

/// How well a character knows a landmark.
#[derive(Debug, Clone, PartialEq, Eq)]
pub struct LandmarkKnowledge {
    pub character_id: i64,
    pub landmark_id: i64,
    pub level: KnowledgeLevel,
    pub first_event_id: Option<i64>,
    pub last_visit_at_hour: Option<i64>,
}

/// An encounter, in combat or not.
#[derive(Debug, Clone, PartialEq, Eq)]
pub struct Encounter<S = String> {
    pub id: i64,
    pub zone_id: Option<i64>,
    pub name: Option<S>,
    pub goal: Option<S>,
    pub estimated_duration_hours: i32,
    pub xp_budget: i32,
    pub status: EncounterStatus,
    pub in_combat: bool,
    pub current_round: Option<i32>,
    pub turn_index: Option<i32>,
    pub started_at_hour: i64,
    pub ended_at_hour: Option<i64>,
}

/// A character's part in an encounter.
#[derive(Debug, Clone, PartialEq, Eq)]
pub struct EncounterParticipant {
    pub encounter_id: i64,
    pub character_id: i64,
    pub side: Side,
    pub initiative: Option<i32>,
    pub has_acted_this_round: bool,
}

/// A value in the payload of an event.
#[derive(Debug, Clone, PartialEq, Eq)]
pub enum Value {
    Null,
    Bool(bool),
    Int(i64),
    /// A quantity in thousandths.
    Thousandths(i128),
    /// A number in double precision.
    Number(Double),
    Text(String),
    Ints(Vec<i64>),
    Texts(Vec<String>),
    Record(Vec<Cell>),
    Records(Vec<Vec<Cell>>),
}

/// A plain value inside a record.
#[derive(Debug, Clone, PartialEq, Eq)]
pub enum Leaf<S = String> {
    Null,
    Bool(bool),
    Int(i64),
    Text(S),
}

/// A named value inside a record.
#[derive(Debug, Clone, PartialEq, Eq)]
pub struct Cell<S = String> {
    pub name: S,
    pub value: Leaf<S>,
}

/// A named value in the payload of an event.
#[derive(Debug, Clone, PartialEq, Eq)]
pub struct Field {
    pub name: String,
    pub value: Value,
}

/// A character that takes part in an event.
#[derive(Debug, Clone, Copy, PartialEq, Eq, Structural)]
pub struct EventParticipant {
    pub character_id: i64,
    pub role: EventRole,
}

/// An item that an event is about.
#[derive(Debug, Clone, PartialEq, Eq)]
pub struct EventItem<S = String> {
    pub item_id: i64,
    pub role: S,
}

/// An entry of the event log.
#[derive(Debug, Clone, PartialEq, Eq)]
pub struct Event {
    pub id: i64,
    pub kind: String,
    pub campaign_hour: i64,
    pub combat_round: Option<i32>,
    pub zone_id: Option<i64>,
    pub encounter_id: Option<i64>,
    pub parent_id: Option<i64>,
    pub summary: String,
    pub payload: Vec<Field>,
    pub participants: Vec<EventParticipant>,
    pub items: Vec<EventItem>,
}

/// The answer to a setup question, as JSON text.
#[derive(Debug, Clone, PartialEq, Eq)]
pub struct SetupAnswer<S = String> {
    pub question_id: S,
    pub answer: S,
    pub answered_at: i64,
}

/// The state of the campaign as a whole.
#[derive(Debug, Clone, Copy, PartialEq, Eq, Structural)]
pub struct CampaignState {
    pub phase: Phase,
    pub started_at: Option<i64>,
    pub player_character_id: Option<i64>,
}

/// What a payload value says.
pub enum ValueView {
    Null,
    Bool(bool),
    Int(int),
    Thousandths(int),
    Number(Double),
    Text(Seq<char>),
    Ints(Seq<i64>),
    Texts(Seq<Seq<char>>),
    Record(Seq<Cell<Seq<char>>>),
    Records(Seq<Seq<Cell<Seq<char>>>>),
}

/// What a named payload value says.
pub struct FieldView {
    pub name: Seq<char>,
    pub value: ValueView,
}

/// What an entry of the event log says.
#[verifier::ext_equal]
pub struct EventView {
    pub id: i64,
    pub kind: Seq<char>,
    pub campaign_hour: i64,
    pub combat_round: Option<i32>,
    pub zone_id: Option<i64>,
    pub encounter_id: Option<i64>,
    pub parent_id: Option<i64>,
    pub summary: Seq<char>,
    pub payload: Seq<FieldView>,
    pub participants: Seq<EventParticipant>,
    pub items: Seq<EventItem<Seq<char>>>,
}

impl View for Value {
    type V = ValueView;

    open spec fn view(&self) -> ValueView {
        match self {
            Value::Null => ValueView::Null,
            Value::Bool(b) => ValueView::Bool(*b),
            Value::Int(n) => ValueView::Int(*n as int),
            Value::Thousandths(n) => ValueView::Thousandths(*n as int),
            Value::Number(x) => ValueView::Number(*x),
            Value::Text(s) => ValueView::Text(s@),
            Value::Ints(v) => ValueView::Ints(v@),
            Value::Texts(v) => ValueView::Texts(texts(v@)),
            Value::Record(v) => ValueView::Record(views(v@)),
            Value::Records(v) => ValueView::Records(
                Seq::new(v@.len(), |i: int| views(v@[i]@)),
            ),
        }
    }
}

impl View for Leaf {
    type V = Leaf<Seq<char>>;

    open spec fn view(&self) -> Leaf<Seq<char>> {
        match self {
            Leaf::Null => Leaf::Null,
            Leaf::Bool(b) => Leaf::Bool(*b),
            Leaf::Int(n) => Leaf::Int(*n),
            Leaf::Text(s) => Leaf::Text(s@),
        }
    }
}

impl View for Cell {
    type V = Cell<Seq<char>>;

    open spec fn view(&self) -> Cell<Seq<char>> {
        Cell { name: self.name@, value: self.value@ }
    }
}

impl View for Field {
    type V = FieldView;

    open spec fn view(&self) -> FieldView {
        FieldView { name: self.name@, value: self.value@ }
    }
}

impl View for EventItem {
    type V = EventItem<Seq<char>>;

    open spec fn view(&self) -> EventItem<Seq<char>> {
        EventItem { item_id: self.item_id, role: self.role@ }
    }
}

/// The views of a list of rows.
pub open spec fn views<T: View>(rows: Seq<T>) -> Seq<T::V> {
    Seq::new(rows.len(), |i: int| rows[i]@)
}

impl View for Event {
    type V = EventView;

    open spec fn view(&self) -> EventView {
        EventView {
            id: self.id,
            kind: self.kind@,
            campaign_hour: self.campaign_hour,
            combat_round: self.combat_round,
            zone_id: self.zone_id,
            encounter_id: self.encounter_id,
            parent_id: self.parent_id,
            summary: self.summary@,
            payload: views(self.payload@),
            participants: self.participants@,
            items: views(self.items@),
        }
    }
}

impl View for Character {
    type V = Character<Seq<char>>;

    open spec fn view(&self) -> Character<Seq<char>> {
        Character {
            id: self.id,
            name: self.name@,
            role: self.role,
            party_id: self.party_id,
            str_score: self.str_score,
            dex_score: self.dex_score,
            con_score: self.con_score,
            int_score: self.int_score,
            wis_score: self.wis_score,
            cha_score: self.cha_score,
            hp_current: self.hp_current,
            hp_max: self.hp_max,
            hp_temp: self.hp_temp,
            armor_class: self.armor_class,
            speed_ft: self.speed_ft,
            initiative_bonus: self.initiative_bonus,
            level: self.level,
            xp_total: self.xp_total,
            proficiency_bonus: self.proficiency_bonus,
            size: self.size,
            species: opt_text(self.species),
            class_or_archetype: opt_text(self.class_or_archetype),
            ideology: opt_text(self.ideology),
            backstory: opt_text(self.backstory),
            plans: opt_text(self.plans),
            loyalty: self.loyalty,
            status: self.status,
            current_zone_id: self.current_zone_id,
            death_save_successes: self.death_save_successes,
            death_save_failures: self.death_save_failures,
            created_at: self.created_at,
            updated_at: self.updated_at,
        }
    }
}

impl View for Proficiency {
    type V = Proficiency<Seq<char>>;

    open spec fn view(&self) -> Proficiency<Seq<char>> {
        Proficiency {
            character_id: self.character_id,
            name: self.name@,
            proficient: self.proficient,
            expertise: self.expertise,
            ranks: self.ranks,
        }
    }
}

impl View for Resource {
    type V = Resource<Seq<char>>;

    open spec fn view(&self) -> Resource<Seq<char>> {
        Resource {
            character_id: self.character_id,
            name: self.name@,
            current: self.current,
            max: self.max,
            recharge: self.recharge,
        }
    }
}

impl View for Condition {
    type V = Condition<Seq<char>>;

    open spec fn view(&self) -> Condition<Seq<char>> {
        Condition {
            id: self.id,
            character_id: self.character_id,
            condition: self.condition@,
            severity: self.severity,
            source_event_id: self.source_event_id,
            expires_at_hour: self.expires_at_hour,
            expires_after_rounds: self.expires_after_rounds,
            remove_on_save: opt_text(self.remove_on_save),
            active: self.active,
        }
    }
}

impl View for Effect {
    type V = Effect<Seq<char>>;

    open spec fn view(&self) -> Effect<Seq<char>> {
        Effect {
            id: self.id,
            target_character_id: self.target_character_id,
            source: self.source@,
            target_kind: self.target_kind,
            target_key: self.target_key@,
            modifier: self.modifier,
            dice_expr: opt_text(self.dice_expr),
            start_event_id: self.start_event_id,
            expires_at_hour: self.expires_at_hour,
            expires_after_rounds: self.expires_after_rounds,
            expires_on_dispel: self.expires_on_dispel,
            active: self.active,
        }
    }
}

impl View for Item {
    type V = Item<Seq<char>>;

    open spec fn view(&self) -> Item<Seq<char>> {
        Item {
            id: self.id,
            base_kind: self.base_kind@,
            name: opt_text(self.name),
            material: opt_text(self.material),
            material_tier: self.material_tier,
            quality: opt_text(self.quality),
            quantity: self.quantity,
            place: self.place,
            equipped_slot: opt_text(self.equipped_slot),
            created_at_event_id: self.created_at_event_id,
            updated_at: self.updated_at,
        }
    }
}

impl View for Zone {
    type V = Zone<Seq<char>>;

    open spec fn view(&self) -> Zone<Seq<char>> {
        Zone {
            id: self.id,
            name: self.name@,
            biome: self.biome@,
            kind: self.kind,
            size: self.size,
            description: opt_text(self.description),
        }
    }
}

impl View for Landmark {
    type V = Landmark<Seq<char>>;

    open spec fn view(&self) -> Landmark<Seq<char>> {
        Landmark {
            id: self.id,
            zone_id: self.zone_id,
            name: self.name@,
            kind: self.kind,
            description: opt_text(self.description),
            hidden: self.hidden,
        }
    }
}

impl View for Encounter {
    type V = Encounter<Seq<char>>;

    open spec fn view(&self) -> Encounter<Seq<char>> {
        Encounter {
            id: self.id,
            zone_id: self.zone_id,
            name: opt_text(self.name),
            goal: opt_text(self.goal),
            estimated_duration_hours: self.estimated_duration_hours,
            xp_budget: self.xp_budget,
            status: self.status,
            in_combat: self.in_combat,
            current_round: self.current_round,
            turn_index: self.turn_index,
            started_at_hour: self.started_at_hour,
            ended_at_hour: self.ended_at_hour,
        }
    }
}

impl View for SetupAnswer {
    type V = SetupAnswer<Seq<char>>;

    open spec fn view(&self) -> SetupAnswer<Seq<char>> {
        SetupAnswer {
            question_id: self.question_id@,
            answer: self.answer@,
            answered_at: self.answered_at,
        }
    }
}

impl View for Party {
    type V = Party;

    open spec fn view(&self) -> Party {
        *self
    }
}

impl View for Connection {
    type V = Connection;

    open spec fn view(&self) -> Connection {
        *self
    }
}

impl View for ZoneKnowledge {
    type V = ZoneKnowledge;

    open spec fn view(&self) -> ZoneKnowledge {
        *self
    }
}

impl View for LandmarkKnowledge {
    type V = LandmarkKnowledge;

    open spec fn view(&self) -> LandmarkKnowledge {
        *self
    }
}

impl View for EncounterParticipant {
    type V = EncounterParticipant;

    open spec fn view(&self) -> EncounterParticipant {
        *self
    }
}

impl Row for Party {
    open spec fn key(&self) -> i64 {
        self.id
    }
}

impl Stored for Party {
    fn row_id(&self) -> (r: i64) {
        self.id
    }

    proof fn lemma_key(&self) {
    }
}

impl<S> Row for Character<S> {
    open spec fn key(&self) -> i64 {
        self.id
    }
}

impl Stored for Character {
    fn row_id(&self) -> (r: i64) {
        self.id
    }

    proof fn lemma_key(&self) {
    }
}

impl<S> Row for Condition<S> {
    open spec fn key(&self) -> i64 {
        self.id
    }
}

impl Stored for Condition {
    fn row_id(&self) -> (r: i64) {
        self.id
    }

    proof fn lemma_key(&self) {
    }
}

impl<S> Row for Effect<S> {
    open spec fn key(&self) -> i64 {
        self.id
    }
}

impl Stored for Effect {
    fn row_id(&self) -> (r: i64) {
        self.id
    }

    proof fn lemma_key(&self) {
    }
}

impl<S> Row for Item<S> {
    open spec fn key(&self) -> i64 {
        self.id
    }
}

impl Stored for Item {
    fn row_id(&self) -> (r: i64) {
        self.id
    }

    proof fn lemma_key(&self) {
    }
}

impl<S> Row for Zone<S> {
    open spec fn key(&self) -> i64 {
        self.id
    }
}

impl Stored for Zone {
    fn row_id(&self) -> (r: i64) {
        self.id
    }

    proof fn lemma_key(&self) {
    }
}

impl<S> Row for Landmark<S> {
    open spec fn key(&self) -> i64 {
        self.id
    }
}

impl Stored for Landmark {
    fn row_id(&self) -> (r: i64) {
        self.id
    }

    proof fn lemma_key(&self) {
    }
}

impl<S> Row for Encounter<S> {
    open spec fn key(&self) -> i64 {
        self.id
    }
}

impl Stored for Encounter {
    fn row_id(&self) -> (r: i64) {
        self.id
    }

    proof fn lemma_key(&self) {
    }
}

impl Row for Event {
    open spec fn key(&self) -> i64 {
        self.id
    }
}

impl Stored for Event {
    fn row_id(&self) -> (r: i64) {
        self.id
    }

    proof fn lemma_key(&self) {
    }
}

impl Row for EventView {
    open spec fn key(&self) -> i64 {
        self.id
    }
}

impl Role {
    /// The word that stands for it.
    pub open spec fn text(self) -> Seq<char> {
        match self {
            Role::Player => "player"@,
            Role::Companion => "companion"@,
            Role::Friendly => "friendly"@,
            Role::Enemy => "enemy"@,
            Role::Neutral => "neutral"@,
        }
    }

    /// The word that stands for it.
    pub fn as_str(&self) -> (r: &'static str)
        ensures
            r@ == self.text(),
    {
        match self {
            Role::Player => "player",
            Role::Companion => "companion",
            Role::Friendly => "friendly",
            Role::Enemy => "enemy",
            Role::Neutral => "neutral",
        }
    }

    /// What the word stands for, where it is one of these words.
    pub open spec fn of_text(s: Seq<char>) -> Option<Role> {
        if s == "player"@ {
            Some(Role::Player)
        } else if s == "companion"@ {
            Some(Role::Companion)
        } else if s == "friendly"@ {
            Some(Role::Friendly)
        } else if s == "enemy"@ {
            Some(Role::Enemy)
        } else if s == "neutral"@ {
            Some(Role::Neutral)
        } else {
            None
        }
    }

    /// What the word stands for, where it is one of these words.
    pub fn parse(s: &str) -> (r: Option<Role>)
        ensures
            r == Role::of_text(s@),
    {
        if same(s, "player") {
            Some(Role::Player)
        } else if same(s, "companion") {
            Some(Role::Companion)
        } else if same(s, "friendly") {
            Some(Role::Friendly)
        } else if same(s, "enemy") {
            Some(Role::Enemy)
        } else if same(s, "neutral") {
            Some(Role::Neutral)
        } else {
            None
        }
    }

    /// Its word stands for it alone: the words differ.
    pub proof fn lemma_text(self)
        ensures
            Role::of_text(self.text()) == Some(self),
    {
        reveal_strlit("player");
        assert("player"@.len() == 6);
        reveal_strlit("companion");
        assert("companion"@.len() == 9);
        reveal_strlit("friendly");
        assert("friendly"@.len() == 8);
        reveal_strlit("enemy");
        assert("enemy"@.len() == 5);
        reveal_strlit("neutral");
        assert("neutral"@.len() == 7);
    }
}

impl Size {
    /// The word that stands for it.
    pub open spec fn text(self) -> Seq<char> {
        match self {
            Size::Tiny => "tiny"@,
            Size::Small => "small"@,
            Size::Medium => "medium"@,
            Size::Large => "large"@,
            Size::Huge => "huge"@,
            Size::Gargantuan => "gargantuan"@,
        }
    }

    /// The word that stands for it.
    pub fn as_str(&self) -> (r: &'static str)
        ensures
            r@ == self.text(),
    {
        match self {
            Size::Tiny => "tiny",
            Size::Small => "small",
            Size::Medium => "medium",
            Size::Large => "large",
            Size::Huge => "huge",
            Size::Gargantuan => "gargantuan",
        }
    }

    /// What the word stands for, where it is one of these words.
    pub open spec fn of_text(s: Seq<char>) -> Option<Size> {
        if s == "tiny"@ {
            Some(Size::Tiny)
        } else if s == "small"@ {
            Some(Size::Small)
        } else if s == "medium"@ {
            Some(Size::Medium)
        } else if s == "large"@ {
            Some(Size::Large)
        } else if s == "huge"@ {
            Some(Size::Huge)
        } else if s == "gargantuan"@ {
            Some(Size::Gargantuan)
        } else {
            None
        }
    }

    /// What the word stands for, where it is one of these words.
    pub fn parse(s: &str) -> (r: Option<Size>)
        ensures
            r == Size::of_text(s@),
    {
        if same(s, "tiny") {
            Some(Size::Tiny)
        } else if same(s, "small") {
            Some(Size::Small)
        } else if same(s, "medium") {
            Some(Size::Medium)
        } else if same(s, "large") {
            Some(Size::Large)
        } else if same(s, "huge") {
            Some(Size::Huge)
        } else if same(s, "gargantuan") {
            Some(Size::Gargantuan)
        } else {
            None
        }
    }

    /// Its word stands for it alone: the words differ.
    pub proof fn lemma_text(self)
        ensures
            Size::of_text(self.text()) == Some(self),
    {
        reveal_strlit("tiny");
        assert("tiny"@.len() == 4);
        reveal_strlit("small");
        assert("small"@.len() == 5);
        reveal_strlit("medium");
        assert("medium"@.len() == 6);
        reveal_strlit("large");
        assert("large"@.len() == 5);
        reveal_strlit("huge");
        assert("huge"@.len() == 4);
        reveal_strlit("gargantuan");
        assert("gargantuan"@.len() == 10);
        assert("huge"@[0] == 'h');
        assert("large"@[0] == 'l');
        assert("small"@[0] == 's');
        assert("tiny"@[0] == 't');
    }
}

impl Status {
    /// The word that stands for it.
    pub open spec fn text(self) -> Seq<char> {
        match self {
            Status::Alive => "alive"@,
            Status::Unconscious => "unconscious"@,
            Status::Dead => "dead"@,
            Status::Missing => "missing"@,
        }
    }

    /// The word that stands for it.
    pub fn as_str(&self) -> (r: &'static str)
        ensures
            r@ == self.text(),
    {
        match self {
            Status::Alive => "alive",
            Status::Unconscious => "unconscious",
            Status::Dead => "dead",
            Status::Missing => "missing",
        }
    }

    /// What the word stands for, where it is one of these words.
    pub open spec fn of_text(s: Seq<char>) -> Option<Status> {
        if s == "alive"@ {
            Some(Status::Alive)
        } else if s == "unconscious"@ {
            Some(Status::Unconscious)
        } else if s == "dead"@ {
            Some(Status::Dead)
        } else if s == "missing"@ {
            Some(Status::Missing)
        } else {
            None
        }
    }

    /// What the word stands for, where it is one of these words.
    pub fn parse(s: &str) -> (r: Option<Status>)
        ensures
            r == Status::of_text(s@),
    {
        if same(s, "alive") {
            Some(Status::Alive)
        } else if same(s, "unconscious") {
            Some(Status::Unconscious)
        } else if same(s, "dead") {
            Some(Status::Dead)
        } else if same(s, "missing") {
            Some(Status::Missing)
        } else {
            None
        }
    }

    /// Its word stands for it alone: the words differ.
    pub proof fn lemma_text(self)
        ensures
            Status::of_text(self.text()) == Some(self),
    {
        reveal_strlit("alive");
        assert("alive"@.len() == 5);
        reveal_strlit("unconscious");
        assert("unconscious"@.len() == 11);
        reveal_strlit("dead");
        assert("dead"@.len() == 4);
        reveal_strlit("missing");
        assert("missing"@.len() == 7);
    }
}

impl Recharge {
    /// The word that stands for it.
    pub open spec fn text(self) -> Seq<char> {
        match self {
            Recharge::ShortRest => "short_rest"@,
            Recharge::LongRest => "long_rest"@,
            Recharge::Dawn => "dawn"@,
            Recharge::Never => "never"@,
            Recharge::Manual => "manual"@,
        }
    }

    /// The word that stands for it.
    pub fn as_str(&self) -> (r: &'static str)
        ensures
            r@ == self.text(),
    {
        match self {
            Recharge::ShortRest => "short_rest",
            Recharge::LongRest => "long_rest",
            Recharge::Dawn => "dawn",
            Recharge::Never => "never",
            Recharge::Manual => "manual",
        }
    }

    /// What the word stands for, where it is one of these words.
    pub open spec fn of_text(s: Seq<char>) -> Option<Recharge> {
        if s == "short_rest"@ {
            Some(Recharge::ShortRest)
        } else if s == "long_rest"@ {
            Some(Recharge::LongRest)
        } else if s == "dawn"@ {
            Some(Recharge::Dawn)
        } else if s == "never"@ {
            Some(Recharge::Never)
        } else if s == "manual"@ {
            Some(Recharge::Manual)
        } else {
            None
        }
    }

    /// What the word stands for, where it is one of these words.
    pub fn parse(s: &str) -> (r: Option<Recharge>)
        ensures
            r == Recharge::of_text(s@),
    {
        if same(s, "short_rest") {
            Some(Recharge::ShortRest)
        } else if same(s, "long_rest") {
            Some(Recharge::LongRest)
        } else if same(s, "dawn") {
            Some(Recharge::Dawn)
        } else if same(s, "never") {
            Some(Recharge::Never)
        } else if same(s, "manual") {
            Some(Recharge::Manual)
        } else {
            None
        }
    }

    /// Its word stands for it alone: the words differ.
    pub proof fn lemma_text(self)
        ensures
            Recharge::of_text(self.text()) == Some(self),
    {
        reveal_strlit("short_rest");
        assert("short_rest"@.len() == 10);
        reveal_strlit("long_rest");
        assert("long_rest"@.len() == 9);
        reveal_strlit("dawn");
        assert("dawn"@.len() == 4);
        reveal_strlit("never");
        assert("never"@.len() == 5);
        reveal_strlit("manual");
        assert("manual"@.len() == 6);
    }
}

impl TargetKind {
    /// The word that stands for it.
    pub open spec fn text(self) -> Seq<char> {
        match self {
            TargetKind::Ability => "ability"@,
            TargetKind::Ac => "ac"@,
            TargetKind::Speed => "speed"@,
            TargetKind::HpMax => "hp_max"@,
            TargetKind::Attack => "attack"@,
            TargetKind::Damage => "damage"@,
            TargetKind::Skill => "skill"@,
            TargetKind::Save => "save"@,
            TargetKind::Misc => "misc"@,
        }
    }

    /// The word that stands for it.
    pub fn as_str(&self) -> (r: &'static str)
        ensures
            r@ == self.text(),
    {
        match self {
            TargetKind::Ability => "ability",
            TargetKind::Ac => "ac",
            TargetKind::Speed => "speed",
            TargetKind::HpMax => "hp_max",
            TargetKind::Attack => "attack",
            TargetKind::Damage => "damage",
            TargetKind::Skill => "skill",
            TargetKind::Save => "save",
            TargetKind::Misc => "misc",
        }
    }

    /// What the word stands for, where it is one of these words.
    pub open spec fn of_text(s: Seq<char>) -> Option<TargetKind> {
        if s == "ability"@ {
            Some(TargetKind::Ability)
        } else if s == "ac"@ {
            Some(TargetKind::Ac)
        } else if s == "speed"@ {
            Some(TargetKind::Speed)
        } else if s == "hp_max"@ {
            Some(TargetKind::HpMax)
        } else if s == "attack"@ {
            Some(TargetKind::Attack)
        } else if s == "damage"@ {
            Some(TargetKind::Damage)
        } else if s == "skill"@ {
            Some(TargetKind::Skill)
        } else if s == "save"@ {
            Some(TargetKind::Save)
        } else if s == "misc"@ {
            Some(TargetKind::Misc)
        } else {
            None
        }
    }

    /// What the word stands for, where it is one of these words.
    pub fn parse(s: &str) -> (r: Option<TargetKind>)
        ensures
            r == TargetKind::of_text(s@),
    {
        if same(s, "ability") {
            Some(TargetKind::Ability)
        } else if same(s, "ac") {
            Some(TargetKind::Ac)
        } else if same(s, "speed") {
            Some(TargetKind::Speed)
        } else if same(s, "hp_max") {
            Some(TargetKind::HpMax)
        } else if same(s, "attack") {
            Some(TargetKind::Attack)
        } else if same(s, "damage") {
            Some(TargetKind::Damage)
        } else if same(s, "skill") {
            Some(TargetKind::Skill)
        } else if same(s, "save") {
            Some(TargetKind::Save)
        } else if same(s, "misc") {
            Some(TargetKind::Misc)
        } else {
            None
        }
    }

    /// Its word stands for it alone: the words differ.
    pub proof fn lemma_text(self)
        ensures
            TargetKind::of_text(self.text()) == Some(self),
    {
        reveal_strlit("ability");
        assert("ability"@.len() == 7);
        reveal_strlit("ac");
        assert("ac"@.len() == 2);
        reveal_strlit("speed");
        assert("speed"@.len() == 5);
        reveal_strlit("hp_max");
        assert("hp_max"@.len() == 6);
        reveal_strlit("attack");
        assert("attack"@.len() == 6);
        reveal_strlit("damage");
        assert("damage"@.len() == 6);
        reveal_strlit("skill");
        assert("skill"@.len() == 5);
        reveal_strlit("save");
        assert("save"@.len() == 4);
        reveal_strlit("misc");
        assert("misc"@.len() == 4);
        assert("attack"@[0] == 'a');
        assert("damage"@[0] == 'd');
        assert("hp_max"@[0] == 'h');
        assert("misc"@[0] == 'm');
        assert("save"@[0] == 's');
        assert("skill"@[1] == 'k');
        assert("speed"@[1] == 'p');
    }
}

impl Side {
    /// The word that stands for it.
    pub open spec fn text(self) -> Seq<char> {
        match self {
            Side::PlayerSide => "player_side"@,
            Side::Hostile => "hostile"@,
            Side::Neutral => "neutral"@,
            Side::Ally => "ally"@,
        }
    }

    /// The word that stands for it.
    pub fn as_str(&self) -> (r: &'static str)
        ensures
            r@ == self.text(),
    {
        match self {
            Side::PlayerSide => "player_side",
            Side::Hostile => "hostile",
            Side::Neutral => "neutral",
            Side::Ally => "ally",
        }
    }

    /// What the word stands for, where it is one of these words.
    pub open spec fn of_text(s: Seq<char>) -> Option<Side> {
        if s == "player_side"@ {
            Some(Side::PlayerSide)
        } else if s == "hostile"@ {
            Some(Side::Hostile)
        } else if s == "neutral"@ {
            Some(Side::Neutral)
        } else if s == "ally"@ {
            Some(Side::Ally)
        } else {
            None
        }
    }

    /// What the word stands for, where it is one of these words.
    pub fn parse(s: &str) -> (r: Option<Side>)
        ensures
            r == Side::of_text(s@),
    {
        if same(s, "player_side") {
            Some(Side::PlayerSide)
        } else if same(s, "hostile") {
            Some(Side::Hostile)
        } else if same(s, "neutral") {
            Some(Side::Neutral)
        } else if same(s, "ally") {
            Some(Side::Ally)
        } else {
            None
        }
    }

    /// Its word stands for it alone: the words differ.
    pub proof fn lemma_text(self)
        ensures
            Side::of_text(self.text()) == Some(self),
    {
        reveal_strlit("player_side");
        assert("player_side"@.len() == 11);
        reveal_strlit("hostile");
        assert("hostile"@.len() == 7);
        reveal_strlit("neutral");
        assert("neutral"@.len() == 7);
        reveal_strlit("ally");
        assert("ally"@.len() == 4);
        assert("hostile"@[0] == 'h');
        assert("neutral"@[0] == 'n');
    }
}

impl EncounterStatus {
    /// The word that stands for it.
    pub open spec fn text(self) -> Seq<char> {
        match self {
            EncounterStatus::Active => "active"@,
            EncounterStatus::GoalCompleted => "goal_completed"@,
            EncounterStatus::Abandoned => "abandoned"@,
            EncounterStatus::Failed => "failed"@,
        }
    }

    /// The word that stands for it.
    pub fn as_str(&self) -> (r: &'static str)
        ensures
            r@ == self.text(),
    {
        match self {
            EncounterStatus::Active => "active",
            EncounterStatus::GoalCompleted => "goal_completed",
            EncounterStatus::Abandoned => "abandoned",
            EncounterStatus::Failed => "failed",
        }
    }

    /// What the word stands for, where it is one of these words.
    pub open spec fn of_text(s: Seq<char>) -> Option<EncounterStatus> {
        if s == "active"@ {
            Some(EncounterStatus::Active)
        } else if s == "goal_completed"@ {
            Some(EncounterStatus::GoalCompleted)
        } else if s == "abandoned"@ {
            Some(EncounterStatus::Abandoned)
        } else if s == "failed"@ {
            Some(EncounterStatus::Failed)
        } else {
            None
        }
    }

    /// What the word stands for, where it is one of these words.
    pub fn parse(s: &str) -> (r: Option<EncounterStatus>)
        ensures
            r == EncounterStatus::of_text(s@),
    {
        if same(s, "active") {
            Some(EncounterStatus::Active)
        } else if same(s, "goal_completed") {
            Some(EncounterStatus::GoalCompleted)
        } else if same(s, "abandoned") {
            Some(EncounterStatus::Abandoned)
        } else if same(s, "failed") {
            Some(EncounterStatus::Failed)
        } else {
            None
        }
    }

    /// Its word stands for it alone: the words differ.
    pub proof fn lemma_text(self)
        ensures
            EncounterStatus::of_text(self.text()) == Some(self),
    {
        reveal_strlit("active");
        assert("active"@.len() == 6);
        reveal_strlit("goal_completed");
        assert("goal_completed"@.len() == 14);
        reveal_strlit("abandoned");
        assert("abandoned"@.len() == 9);
        reveal_strlit("failed");
        assert("failed"@.len() == 6);
        assert("active"@[0] == 'a');
        assert("failed"@[0] == 'f');
    }
}

impl EventRole {
    /// The word that stands for it.
    pub open spec fn text(self) -> Seq<char> {
        match self {
            EventRole::Actor => "actor"@,
            EventRole::Target => "target"@,
            EventRole::Witness => "witness"@,
            EventRole::Beneficiary => "beneficiary"@,
        }
    }

    /// The word that stands for it.
    pub fn as_str(&self) -> (r: &'static str)
        ensures
            r@ == self.text(),
    {
        match self {
            EventRole::Actor => "actor",
            EventRole::Target => "target",
            EventRole::Witness => "witness",
            EventRole::Beneficiary => "beneficiary",
        }
    }

    /// What the word stands for, where it is one of these words.
    pub open spec fn of_text(s: Seq<char>) -> Option<EventRole> {
        if s == "actor"@ {
            Some(EventRole::Actor)
        } else if s == "target"@ {
            Some(EventRole::Target)
        } else if s == "witness"@ {
            Some(EventRole::Witness)
        } else if s == "beneficiary"@ {
            Some(EventRole::Beneficiary)
        } else {
            None
        }
    }

    /// What the word stands for, where it is one of these words.
    pub fn parse(s: &str) -> (r: Option<EventRole>)
        ensures
            r == EventRole::of_text(s@),
    {
        if same(s, "actor") {
            Some(EventRole::Actor)
        } else if same(s, "target") {
            Some(EventRole::Target)
        } else if same(s, "witness") {
            Some(EventRole::Witness)
        } else if same(s, "beneficiary") {
            Some(EventRole::Beneficiary)
        } else {
            None
        }
    }

    /// Its word stands for it alone: the words differ.
    pub proof fn lemma_text(self)
        ensures
            EventRole::of_text(self.text()) == Some(self),
    {
        reveal_strlit("actor");
        assert("actor"@.len() == 5);
        reveal_strlit("target");
        assert("target"@.len() == 6);
        reveal_strlit("witness");
        assert("witness"@.len() == 7);
        reveal_strlit("beneficiary");
        assert("beneficiary"@.len() == 11);
    }
}

impl Phase {
    /// The word that stands for it.
    pub open spec fn text(self) -> Seq<char> {
        match self {
            Phase::Setup => "setup"@,
            Phase::Running => "running"@,
        }
    }

    /// The word that stands for it.
    pub fn as_str(&self) -> (r: &'static str)
        ensures
            r@ == self.text(),
    {
        match self {
            Phase::Setup => "setup",
            Phase::Running => "running",
        }
    }

    /// What the word stands for, where it is one of these words.
    pub open spec fn of_text(s: Seq<char>) -> Option<Phase> {
        if s == "setup"@ {
            Some(Phase::Setup)
        } else if s == "running"@ {
            Some(Phase::Running)
        } else {
            None
        }
    }

    /// What the word stands for, where it is one of these words.
    pub fn parse(s: &str) -> (r: Option<Phase>)
        ensures
            r == Phase::of_text(s@),
    {
        if same(s, "setup") {
            Some(Phase::Setup)
        } else if same(s, "running") {
            Some(Phase::Running)
        } else {
            None
        }
    }

    /// Its word stands for it alone: the words differ.
    pub proof fn lemma_text(self)
        ensures
            Phase::of_text(self.text()) == Some(self),
    {
        reveal_strlit("setup");
        assert("setup"@.len() == 5);
        reveal_strlit("running");
        assert("running"@.len() == 7);
    }
}

impl KnowledgeLevel {
    /// The word that stands for it.
    pub open spec fn text(self) -> Seq<char> {
        match self {
            KnowledgeLevel::Rumored => "rumored"@,
            KnowledgeLevel::Known => "known"@,
            KnowledgeLevel::Visited => "visited"@,
            KnowledgeLevel::Mapped => "mapped"@,
        }
    }

    /// The word that stands for it.
    pub fn as_str(&self) -> (r: &'static str)
        ensures
            r@ == self.text(),
    {
        match self {
            KnowledgeLevel::Rumored => "rumored",
            KnowledgeLevel::Known => "known",
            KnowledgeLevel::Visited => "visited",
            KnowledgeLevel::Mapped => "mapped",
        }
    }

    /// What the word stands for, where it is one of these words.
    pub open spec fn of_text(s: Seq<char>) -> Option<KnowledgeLevel> {
        if s == "rumored"@ {
            Some(KnowledgeLevel::Rumored)
        } else if s == "known"@ {
            Some(KnowledgeLevel::Known)
        } else if s == "visited"@ {
            Some(KnowledgeLevel::Visited)
        } else if s == "mapped"@ {
            Some(KnowledgeLevel::Mapped)
        } else {
            None
        }
    }

    /// What the word stands for, where it is one of these words.
    pub fn parse(s: &str) -> (r: Option<KnowledgeLevel>)
        ensures
            r == KnowledgeLevel::of_text(s@),
    {
        if same(s, "rumored") {
            Some(KnowledgeLevel::Rumored)
        } else if same(s, "known") {
            Some(KnowledgeLevel::Known)
        } else if same(s, "visited") {
            Some(KnowledgeLevel::Visited)
        } else if same(s, "mapped") {
            Some(KnowledgeLevel::Mapped)
        } else {
            None
        }
    }

    /// Its word stands for it alone: the words differ.
    pub proof fn lemma_text(self)
        ensures
            KnowledgeLevel::of_text(self.text()) == Some(self),
    {
        reveal_strlit("rumored");
        assert("rumored"@.len() == 7);
        reveal_strlit("known");
        assert("known"@.len() == 5);
        reveal_strlit("visited");
        assert("visited"@.len() == 7);
        reveal_strlit("mapped");
        assert("mapped"@.len() == 6);
        assert("rumored"@[0] == 'r');
        assert("visited"@[0] == 'v');
    }
}

impl Direction {
    /// The word that stands for it.
    pub open spec fn text(self) -> Seq<char> {
        match self {
            Direction::N => "n"@,
            Direction::Ne => "ne"@,
            Direction::E => "e"@,
            Direction::Se => "se"@,
            Direction::S => "s"@,
            Direction::Sw => "sw"@,
            Direction::W => "w"@,
            Direction::Nw => "nw"@,
            Direction::Up => "up"@,
            Direction::Down => "down"@,
        }
    }

    /// The word that stands for it.
    pub fn as_str(&self) -> (r: &'static str)
        ensures
            r@ == self.text(),
    {
        match self {
            Direction::N => "n",
            Direction::Ne => "ne",
            Direction::E => "e",
            Direction::Se => "se",
            Direction::S => "s",
            Direction::Sw => "sw",
            Direction::W => "w",
            Direction::Nw => "nw",
            Direction::Up => "up",
            Direction::Down => "down",
        }
    }

    /// What the word stands for, where it is one of these words.
    pub open spec fn of_text(s: Seq<char>) -> Option<Direction> {
        if s == "n"@ {
            Some(Direction::N)
        } else if s == "ne"@ {
            Some(Direction::Ne)
        } else if s == "e"@ {
            Some(Direction::E)
        } else if s == "se"@ {
            Some(Direction::Se)
        } else if s == "s"@ {
            Some(Direction::S)
        } else if s == "sw"@ {
            Some(Direction::Sw)
        } else if s == "w"@ {
            Some(Direction::W)
        } else if s == "nw"@ {
            Some(Direction::Nw)
        } else if s == "up"@ {
            Some(Direction::Up)
        } else if s == "down"@ {
            Some(Direction::Down)
        } else {
            None
        }
    }

    /// What the word stands for, where it is one of these words.
    pub fn parse(s: &str) -> (r: Option<Direction>)
        ensures
            r == Direction::of_text(s@),
    {
        if same(s, "n") {
            Some(Direction::N)
        } else if same(s, "ne") {
            Some(Direction::Ne)
        } else if same(s, "e") {
            Some(Direction::E)
        } else if same(s, "se") {
            Some(Direction::Se)
        } else if same(s, "s") {
            Some(Direction::S)
        } else if same(s, "sw") {
            Some(Direction::Sw)
        } else if same(s, "w") {
            Some(Direction::W)
        } else if same(s, "nw") {
            Some(Direction::Nw)
        } else if same(s, "up") {
            Some(Direction::Up)
        } else if same(s, "down") {
            Some(Direction::Down)
        } else {
            None
        }
    }

    /// Its word stands for it alone: the words differ.
    pub proof fn lemma_text(self)
        ensures
            Direction::of_text(self.text()) == Some(self),
    {
        reveal_strlit("n");
        assert("n"@.len() == 1);
        reveal_strlit("ne");
        assert("ne"@.len() == 2);
        reveal_strlit("e");
        assert("e"@.len() == 1);
        reveal_strlit("se");
        assert("se"@.len() == 2);
        reveal_strlit("s");
        assert("s"@.len() == 1);
        reveal_strlit("sw");
        assert("sw"@.len() == 2);
        reveal_strlit("w");
        assert("w"@.len() == 1);
        reveal_strlit("nw");
        assert("nw"@.len() == 2);
        reveal_strlit("up");
        assert("up"@.len() == 2);
        reveal_strlit("down");
        assert("down"@.len() == 4);
        assert("e"@[0] == 'e');
        assert("n"@[0] == 'n');
        assert("ne"@[0] == 'n');
        assert("ne"@[1] == 'e');
        assert("nw"@[0] == 'n');
        assert("nw"@[1] == 'w');
        assert("s"@[0] == 's');
        assert("se"@[0] == 's');
        assert("se"@[1] == 'e');
        assert("sw"@[0] == 's');
        assert("sw"@[1] == 'w');
        assert("up"@[0] == 'u');
        assert("w"@[0] == 'w');
    }
}

impl TravelMode {
    /// The word that stands for it.
    pub open spec fn text(self) -> Seq<char> {
        match self {
            TravelMode::Road => "road"@,
            TravelMode::Wilderness => "wilderness"@,
            TravelMode::Portal => "portal"@,
            TravelMode::Passage => "passage"@,
            TravelMode::Climb => "climb"@,
        }
    }

    /// The word that stands for it.
    pub fn as_str(&self) -> (r: &'static str)
        ensures
            r@ == self.text(),
    {
        match self {
            TravelMode::Road => "road",
            TravelMode::Wilderness => "wilderness",
            TravelMode::Portal => "portal",
            TravelMode::Passage => "passage",
            TravelMode::Climb => "climb",
        }
    }

    /// What the word stands for, where it is one of these words.
    pub open spec fn of_text(s: Seq<char>) -> Option<TravelMode> {
        if s == "road"@ {
            Some(TravelMode::Road)
        } else if s == "wilderness"@ {
            Some(TravelMode::Wilderness)
        } else if s == "portal"@ {
            Some(TravelMode::Portal)
        } else if s == "passage"@ {
            Some(TravelMode::Passage)
        } else if s == "climb"@ {
            Some(TravelMode::Climb)
        } else {
            None
        }
    }

    /// What the word stands for, where it is one of these words.
    pub fn parse(s: &str) -> (r: Option<TravelMode>)
        ensures
            r == TravelMode::of_text(s@),
    {
        if same(s, "road") {
            Some(TravelMode::Road)
        } else if same(s, "wilderness") {
            Some(TravelMode::Wilderness)
        } else if same(s, "portal") {
            Some(TravelMode::Portal)
        } else if same(s, "passage") {
            Some(TravelMode::Passage)
        } else if same(s, "climb") {
            Some(TravelMode::Climb)
        } else {
            None
        }
    }

    /// Its word stands for it alone: the words differ.
    pub proof fn lemma_text(self)
        ensures
            TravelMode::of_text(self.text()) == Some(self),
    {
        reveal_strlit("road");
        assert("road"@.len() == 4);
        reveal_strlit("wilderness");
        assert("wilderness"@.len() == 10);
        reveal_strlit("portal");
        assert("portal"@.len() == 6);
        reveal_strlit("passage");
        assert("passage"@.len() == 7);
        reveal_strlit("climb");
        assert("climb"@.len() == 5);
    }
}

impl ZoneKind {
    /// The word that stands for it.
    pub open spec fn text(self) -> Seq<char> {
        match self {
            ZoneKind::Wilderness => "wilderness"@,
            ZoneKind::Settlement => "settlement"@,
            ZoneKind::Dungeon => "dungeon"@,
            ZoneKind::DungeonFloor => "dungeon_floor"@,
            ZoneKind::DungeonRoom => "dungeon_room"@,
            ZoneKind::Road => "road"@,
            ZoneKind::Liminal => "liminal"@,
        }
    }

    /// The word that stands for it.
    pub fn as_str(&self) -> (r: &'static str)
        ensures
            r@ == self.text(),
    {
        match self {
            ZoneKind::Wilderness => "wilderness",
            ZoneKind::Settlement => "settlement",
            ZoneKind::Dungeon => "dungeon",
            ZoneKind::DungeonFloor => "dungeon_floor",
            ZoneKind::DungeonRoom => "dungeon_room",
            ZoneKind::Road => "road",
            ZoneKind::Liminal => "liminal",
        }
    }

    /// What the word stands for, where it is one of these words.
    pub open spec fn of_text(s: Seq<char>) -> Option<ZoneKind> {
        if s == "wilderness"@ {
            Some(ZoneKind::Wilderness)
        } else if s == "settlement"@ {
            Some(ZoneKind::Settlement)
        } else if s == "dungeon"@ {
            Some(ZoneKind::Dungeon)
        } else if s == "dungeon_floor"@ {
            Some(ZoneKind::DungeonFloor)
        } else if s == "dungeon_room"@ {
            Some(ZoneKind::DungeonRoom)
        } else if s == "road"@ {
            Some(ZoneKind::Road)
        } else if s == "liminal"@ {
            Some(ZoneKind::Liminal)
        } else {
            None
        }
    }

    /// What the word stands for, where it is one of these words.
    pub fn parse(s: &str) -> (r: Option<ZoneKind>)
        ensures
            r == ZoneKind::of_text(s@),
    {
        if same(s, "wilderness") {
            Some(ZoneKind::Wilderness)
        } else if same(s, "settlement") {
            Some(ZoneKind::Settlement)
        } else if same(s, "dungeon") {
            Some(ZoneKind::Dungeon)
        } else if same(s, "dungeon_floor") {
            Some(ZoneKind::DungeonFloor)
        } else if same(s, "dungeon_room") {
            Some(ZoneKind::DungeonRoom)
        } else if same(s, "road") {
            Some(ZoneKind::Road)
        } else if same(s, "liminal") {
            Some(ZoneKind::Liminal)
        } else {
            None
        }
    }

    /// Its word stands for it alone: the words differ.
    pub proof fn lemma_text(self)
        ensures
            ZoneKind::of_text(self.text()) == Some(self),
    {
        reveal_strlit("wilderness");
        assert("wilderness"@.len() == 10);
        reveal_strlit("settlement");
        assert("settlement"@.len() == 10);
        reveal_strlit("dungeon");
        assert("dungeon"@.len() == 7);
        reveal_strlit("dungeon_floor");
        assert("dungeon_floor"@.len() == 13);
        reveal_strlit("dungeon_room");
        assert("dungeon_room"@.len() == 12);
        reveal_strlit("road");
        assert("road"@.len() == 4);
        reveal_strlit("liminal");
        assert("liminal"@.len() == 7);
        assert("dungeon"@[0] == 'd');
        assert("liminal"@[0] == 'l');
        assert("settlement"@[0] == 's');
        assert("wilderness"@[0] == 'w');
    }
}

impl ZoneSize {
    /// The word that stands for it.
    pub open spec fn text(self) -> Seq<char> {
        match self {
            ZoneSize::Tiny => "tiny"@,
            ZoneSize::Small => "small"@,
            ZoneSize::Medium => "medium"@,
            ZoneSize::Large => "large"@,
            ZoneSize::Vast => "vast"@,
        }
    }

    /// The word that stands for it.
    pub fn as_str(&self) -> (r: &'static str)
        ensures
            r@ == self.text(),
    {
        match self {
            ZoneSize::Tiny => "tiny",
            ZoneSize::Small => "small",
            ZoneSize::Medium => "medium",
            ZoneSize::Large => "large",
            ZoneSize::Vast => "vast",
        }
    }

    /// What the word stands for, where it is one of these words.
    pub open spec fn of_text(s: Seq<char>) -> Option<ZoneSize> {
        if s == "tiny"@ {
            Some(ZoneSize::Tiny)
        } else if s == "small"@ {
            Some(ZoneSize::Small)
        } else if s == "medium"@ {
            Some(ZoneSize::Medium)
        } else if s == "large"@ {
            Some(ZoneSize::Large)
        } else if s == "vast"@ {
            Some(ZoneSize::Vast)
        } else {
            None
        }
    }

    /// What the word stands for, where it is one of these words.
    pub fn parse(s: &str) -> (r: Option<ZoneSize>)
        ensures
            r == ZoneSize::of_text(s@),
    {
        if same(s, "tiny") {
            Some(ZoneSize::Tiny)
        } else if same(s, "small") {
            Some(ZoneSize::Small)
        } else if same(s, "medium") {
            Some(ZoneSize::Medium)
        } else if same(s, "large") {
            Some(ZoneSize::Large)
        } else if same(s, "vast") {
            Some(ZoneSize::Vast)
        } else {
            None
        }
    }

    /// Its word stands for it alone: the words differ.
    pub proof fn lemma_text(self)
        ensures
            ZoneSize::of_text(self.text()) == Some(self),
    {
        reveal_strlit("tiny");
        assert("tiny"@.len() == 4);
        reveal_strlit("small");
        assert("small"@.len() == 5);
        reveal_strlit("medium");
        assert("medium"@.len() == 6);
        reveal_strlit("large");
        assert("large"@.len() == 5);
        reveal_strlit("vast");
        assert("vast"@.len() == 4);
        assert("large"@[0] == 'l');
        assert("small"@[0] == 's');
        assert("tiny"@[0] == 't');
        assert("vast"@[0] == 'v');
    }
}

impl LandmarkKind {
    /// The word that stands for it.
    pub open spec fn text(self) -> Seq<char> {
        match self {
            LandmarkKind::Settlement => "settlement"@,
            LandmarkKind::DungeonEntrance => "dungeon_entrance"@,
            LandmarkKind::Shop => "shop"@,
            LandmarkKind::Temple => "temple"@,
            LandmarkKind::Ruin => "ruin"@,
            LandmarkKind::NaturalFeature => "natural_feature"@,
        }
    }

    /// The word that stands for it.
    pub fn as_str(&self) -> (r: &'static str)
        ensures
            r@ == self.text(),
    {
        match self {
            LandmarkKind::Settlement => "settlement",
            LandmarkKind::DungeonEntrance => "dungeon_entrance",
            LandmarkKind::Shop => "shop",
            LandmarkKind::Temple => "temple",
            LandmarkKind::Ruin => "ruin",
            LandmarkKind::NaturalFeature => "natural_feature",
        }
    }

    /// What the word stands for, where it is one of these words.
    pub open spec fn of_text(s: Seq<char>) -> Option<LandmarkKind> {
        if s == "settlement"@ {
            Some(LandmarkKind::Settlement)
        } else if s == "dungeon_entrance"@ {
            Some(LandmarkKind::DungeonEntrance)
        } else if s == "shop"@ {
            Some(LandmarkKind::Shop)
        } else if s == "temple"@ {
            Some(LandmarkKind::Temple)
        } else if s == "ruin"@ {
            Some(LandmarkKind::Ruin)
        } else if s == "natural_feature"@ {
            Some(LandmarkKind::NaturalFeature)
        } else {
            None
        }
    }

    /// What the word stands for, where it is one of these words.
    pub fn parse(s: &str) -> (r: Option<LandmarkKind>)
        ensures
            r == LandmarkKind::of_text(s@),
    {
        if same(s, "settlement") {
            Some(LandmarkKind::Settlement)
        } else if same(s, "dungeon_entrance") {
            Some(LandmarkKind::DungeonEntrance)
        } else if same(s, "shop") {
            Some(LandmarkKind::Shop)
        } else if same(s, "temple") {
            Some(LandmarkKind::Temple)
        } else if same(s, "ruin") {
            Some(LandmarkKind::Ruin)
        } else if same(s, "natural_feature") {
            Some(LandmarkKind::NaturalFeature)
        } else {
            None
        }
    }

    /// Its word stands for it alone: the words differ.
    pub proof fn lemma_text(self)
        ensures
            LandmarkKind::of_text(self.text()) == Some(self),
    {
        reveal_strlit("settlement");
        assert("settlement"@.len() == 10);
        reveal_strlit("dungeon_entrance");
        assert("dungeon_entrance"@.len() == 16);
        reveal_strlit("shop");
        assert("shop"@.len() == 4);
        reveal_strlit("temple");
        assert("temple"@.len() == 6);
        reveal_strlit("ruin");
        assert("ruin"@.len() == 4);
        reveal_strlit("natural_feature");
        assert("natural_feature"@.len() == 15);
        assert("ruin"@[0] == 'r');
        assert("shop"@[0] == 's');
    }
}

impl Character {
    /// A copy of the row.
    pub fn copy(&self) -> (r: Character)
        ensures
            r == *self,
    {
        Character {
            id: self.id,
            name: self.name.clone(),
            role: self.role,
            party_id: self.party_id,
            str_score: self.str_score,
            dex_score: self.dex_score,
            con_score: self.con_score,
            int_score: self.int_score,
            wis_score: self.wis_score,
            cha_score: self.cha_score,
            hp_current: self.hp_current,
            hp_max: self.hp_max,
            hp_temp: self.hp_temp,
            armor_class: self.armor_class,
            speed_ft: self.speed_ft,
            initiative_bonus: self.initiative_bonus,
            level: self.level,
            xp_total: self.xp_total,
            proficiency_bonus: self.proficiency_bonus,
            size: self.size,
            species: copy_opt(&self.species),
            class_or_archetype: copy_opt(&self.class_or_archetype),
            ideology: copy_opt(&self.ideology),
            backstory: copy_opt(&self.backstory),
            plans: copy_opt(&self.plans),
            loyalty: self.loyalty,
            status: self.status,
            current_zone_id: self.current_zone_id,
            death_save_successes: self.death_save_successes,
            death_save_failures: self.death_save_failures,
            created_at: self.created_at,
            updated_at: self.updated_at,
        }
    }
}

impl Resource {
    /// A copy of the row.
    pub fn copy(&self) -> (r: Resource)
        ensures
            r == *self,
    {
        Resource {
            character_id: self.character_id,
            name: self.name.clone(),
            current: self.current,
            max: self.max,
            recharge: self.recharge,
        }
    }
}

impl Condition {
    /// A copy of the row.
    pub fn copy(&self) -> (r: Condition)
        ensures
            r == *self,
    {
        Condition {
            id: self.id,
            character_id: self.character_id,
            condition: self.condition.clone(),
            severity: self.severity,
            source_event_id: self.source_event_id,
            expires_at_hour: self.expires_at_hour,
            expires_after_rounds: self.expires_after_rounds,
            remove_on_save: copy_opt(&self.remove_on_save),
            active: self.active,
        }
    }
}

impl Effect {
    /// A copy of the row.
    pub fn copy(&self) -> (r: Effect)
        ensures
            r == *self,
    {
        Effect {
            id: self.id,
            target_character_id: self.target_character_id,
            source: self.source.clone(),
            target_kind: self.target_kind,
            target_key: self.target_key.clone(),
            modifier: self.modifier,
            dice_expr: copy_opt(&self.dice_expr),
            start_event_id: self.start_event_id,
            expires_at_hour: self.expires_at_hour,
            expires_after_rounds: self.expires_after_rounds,
            expires_on_dispel: self.expires_on_dispel,
            active: self.active,
        }
    }
}

impl Item {
    /// A copy of the row.
    pub fn copy(&self) -> (r: Item)
        ensures
            r == *self,
    {
        Item {
            id: self.id,
            base_kind: self.base_kind.clone(),
            name: copy_opt(&self.name),
            material: copy_opt(&self.material),
            material_tier: self.material_tier,
            quality: copy_opt(&self.quality),
            quantity: self.quantity,
            place: self.place,
            equipped_slot: copy_opt(&self.equipped_slot),
            created_at_event_id: self.created_at_event_id,
            updated_at: self.updated_at,
        }
    }
}

impl ZoneKnowledge {
    /// A copy of the row.
    pub fn copy(&self) -> (r: ZoneKnowledge)
        ensures
            r == *self,
    {
        ZoneKnowledge {
            character_id: self.character_id,
            zone_id: self.zone_id,
            level: self.level,
            first_event_id: self.first_event_id,
            last_visit_at_hour: self.last_visit_at_hour,
        }
    }
}

impl Encounter {
    /// A copy of the row.
    pub fn copy(&self) -> (r: Encounter)
        ensures
            r == *self,
    {
        Encounter {
            id: self.id,
            zone_id: self.zone_id,
            name: copy_opt(&self.name),
            goal: copy_opt(&self.goal),
            estimated_duration_hours: self.estimated_duration_hours,
            xp_budget: self.xp_budget,
            status: self.status,
            in_combat: self.in_combat,
            current_round: self.current_round,
            turn_index: self.turn_index,
            started_at_hour: self.started_at_hour,
            ended_at_hour: self.ended_at_hour,
        }
    }
}

impl EncounterParticipant {
    /// A copy of the row.
    pub fn copy(&self) -> (r: EncounterParticipant)
        ensures
            r == *self,
    {
        EncounterParticipant {
            encounter_id: self.encounter_id,
            character_id: self.character_id,
            side: self.side,
            initiative: self.initiative,
            has_acted_this_round: self.has_acted_this_round,
        }
    }
}

} // verus!
