//! Why an operation refuses.

use vstd::prelude::*;
use crate::rows::{EncounterStatus, Phase, Status};
use crate::text::{
    debug_text, decimal, hundredths_text, int_text, opt_int_text, quoted, say_hundredths, say_opt, NumberFault,
    Thousandths,
};

verus! {

/// Which rule of a table a row breaks.
#[derive(Debug, Clone, Copy, PartialEq, Eq, Structural)]
pub enum Fault {
    ForeignKey,
    Check,
    Unique,
}

impl Fault {
    /// The words for it, where a row is checked and has to be unique as said.
    pub open spec fn text(self, check: Seq<char>, unique: Seq<char>) -> Seq<char> {
        match self {
            Fault::ForeignKey => "FOREIGN KEY constraint failed"@,
            Fault::Check => "CHECK constraint failed: "@ + check,
            Fault::Unique => "UNIQUE constraint failed: "@ + unique,
        }
    }

    /// The words for it.
    fn words(&self, check: &str, unique: &str) -> (r: String)
        ensures
            r@ == self.text(check@, unique@),
    {
        match self {
            Fault::ForeignKey => "FOREIGN KEY constraint failed".to_owned(),
            Fault::Check => {
                let mut s = "CHECK constraint failed: ".to_owned();
                s.append(check);
                s
            },
            Fault::Unique => {
                let mut s = "UNIQUE constraint failed: ".to_owned();
                s.append(unique);
                s
            },
        }
    }
}

/// A refusal, with the values it is about.
#[derive(Debug, Clone, PartialEq, Eq)]
pub enum Error<S = String> {
    /// An event refers to a zone, an encounter or an event that does not exist.
    EventRow,
    /// A participant of an event breaks a rule.
    EventParticipantRow { event_id: i64, character_id: i64, role: S, fault: Fault },
    /// An item of an event breaks a rule.
    EventItemRow { event_id: i64, item_id: i64, role: S, fault: Fault },
    /// There is no such character.
    CharacterNotFound { id: i64 },
    /// There is no such character to change.
    NoSuchCharacter { id: i64 },
    /// There is no such encounter.
    EncounterNotFound { id: i64 },
    /// A condition needs a name.
    ConditionEmpty,
    /// A condition is at least of severity 1.
    ConditionSeverity { severity: i32 },
    /// There is no such condition.
    ConditionNotFound { id: i64 },
    /// The condition is over already.
    ConditionInactive { id: i64 },
    /// Damage cannot be negative.
    NegativeDamage,
    /// Healing cannot be negative.
    NegativeHealing,
    /// The dead cannot be healed.
    DeadCannotHeal { id: i64 },
    /// Death saves are for the unconscious.
    NotUnconscious { id: i64, status: Status },
    /// Death events are for the dead.
    NotDead { id: i64, status: Status },
    /// There is no death event to choose.
    NoDeathEvents,
    /// The encounter is not in combat.
    NotInCombat { id: i64 },
    /// The encounter has no participants.
    NoParticipants { id: i64 },
    /// Combat starts on active encounters only.
    CannotStartCombat { id: i64, status: EncounterStatus },
    /// The encounter is in combat already.
    AlreadyInCombat { id: i64 },
    /// A dice spec needs text.
    EmptyDice,
    /// The text is no dice spec.
    NotDice { spec: S },
    /// The number of dice is no number.
    DiceCount { spec: S, count: S, fault: NumberFault },
    /// The number of sides is no number.
    DiceSides { spec: S, sides: S, fault: NumberFault },
    /// At least one die is rolled.
    DiceCountZero { spec: S },
    /// A die has at least two sides.
    DiceSidesFew { spec: S },
    /// There are too many dice.
    DiceCountMany { spec: S, count: u32 },
    /// A die has too many sides.
    DiceSidesMany { spec: S, sides: u32 },
    /// A range goes up.
    RangeOrder { spec: S, min: i32, max: i32 },
    /// A skill names an ability that is none.
    SkillAbility { skill: S, ability: S, valid: S },
    /// There is no such kind of check.
    UnknownCheckKind { kind: S },
    /// The ability that the caller names is none.
    UnknownAbilityOverride { ability: S },
    /// The key of a save names its ability.
    SaveKeyForm { key: S },
    /// A save names an ability that is none.
    SaveAbility { ability: S },
    /// The key of an ability check is an ability.
    AbilityCheckKey { key: S },
    /// There is no such skill.
    UnknownSkill { key: S },
    /// There is no such ability.
    UnknownAbility { ability: S },
    /// There is no such character to read an ability of.
    ReadAbility { column: S, id: i64 },
    /// The dice of an effect cannot be read.
    EffectDice { expr: S, source: S, cause: S },
    /// Effects act on other things.
    UnknownTargetKind { kind: S },
    /// There is no such effect.
    EffectNotFound { id: i64 },
    /// The effect is over already.
    EffectInactive { id: i64 },
    /// Training needs a name.
    ProficiencyEmpty,
    /// There is no such character to train.
    ProficiencyRow,
    /// A resource needs a name.
    ResourceEmpty,
    /// A resource has no negative maximum.
    ResourceMax,
    /// A resource is between nothing and its maximum.
    ResourceCurrent { current: i32, max: i32 },
    /// Resources recharge at other times.
    UnknownRecharge { recharge: S },
    /// There is no such character to have resources.
    ResourceRow,
    /// The character has no such resource.
    ResourceNotFound { name: S, id: i64 },
    /// The dead do not rest.
    DeadCannotRest { id: i64 },
    /// There is no such role.
    UnknownRole { role: S },
    /// There is no such size.
    UnknownSize { size: S },
    /// An ability score is out of bounds.
    ScoreBounds { label: S, value: i32 },
    /// The maximum of hit points is out of bounds.
    HpMaxBounds { value: i32 },
    /// There are more hit points than the maximum, or negative ones.
    HpCurrentBounds { max: i32, value: i32 },
    /// The armor class is out of bounds.
    ArmorClassBounds { value: i32 },
    /// The speed is out of bounds.
    SpeedBounds { value: i32 },
    /// The initiative bonus is out of bounds.
    InitiativeBounds { value: i32 },
    /// The loyalty is out of bounds.
    LoyaltyBounds { value: i32 },
    /// There is no such party to join.
    CharacterRow,
    /// There is no such zone to start in.
    StartingZone,
    /// There is no such kind of item.
    UnknownBaseKind { kind: S },
    /// An item is in exactly one place.
    LocationCount { count: i64 },
    /// There is at least one of an item.
    QuantityLow { quantity: i64 },
    /// Items of this kind do not stack.
    NotStackable { kind: S },
    /// There is no such holder or container.
    ItemRow,
    /// There is no such item.
    ItemNotFound { id: i64 },
    /// The item lies in no zone.
    ItemNotInZone { id: i64, holder: Option<i64>, container: Option<i64> },
    /// The item lies in another zone.
    WrongZone { item: i64, zone: i64, character: i64, current: Option<i64> },
    /// The character does not hold the item.
    NotHeld { item: i64, character: i64, holder: Option<i64> },
    /// The character is in no zone.
    NowhereToDrop { id: i64 },
    /// Who equips an item holds it.
    CannotEquip { item: i64, character: i64 },
    /// A slot needs a name.
    SlotEmpty,
    /// Who unequips an item holds it.
    CannotUnequip { item: i64, character: i64 },
    /// An item goes to exactly one place.
    DestinationCount { count: i64 },
    /// An item cannot hold itself.
    IntoItself { id: i64 },
    /// There is no such character to give to.
    NoDestinationCharacter { id: i64 },
    /// There is no such container.
    NoDestinationContainer { id: i64 },
    /// There is no such zone.
    NoDestinationZone { id: i64 },
    /// The container is inside the item.
    ContainerCycle { item: i64, container: i64 },
    /// The containers are nested too deep.
    ContainerDepth { container: i64 },
    /// The character cannot carry the item.
    TransferOverload { id: i64, would_be: Thousandths, capacity: Thousandths },
    /// An encounter costs nobody experience.
    XpBudget { value: i32 },
    /// There is no such side.
    UnknownSide { id: i64, side: S },
    /// There is no such zone for an encounter.
    EncounterRow,
    /// A participant is none, or comes twice.
    EncounterParticipantRow { encounter_id: i64, character_id: i64, side: S, fault: Fault },
    /// Only active encounters are completed.
    CannotComplete { id: i64, status: EncounterStatus },
    /// The encounter is over already.
    EncounterNotActive { id: i64, status: EncounterStatus },
    /// There is nothing to trade.
    BarterEmpty,
    /// Nobody trades with themselves.
    BarterSelf,
    /// Nobody knows what the item is worth.
    ItemKindUnknown { item: i64, kind: S },
    /// There is no such merchant to give to.
    BarterOffered { item: i64 },
    /// There is no such character to give to.
    BarterRequested { item: i64 },
    /// The persuasion check cannot be made.
    BarterCheck { cause: S },
    /// The character is nowhere on the map.
    NoCurrentZone { id: i64 },
    /// The character is in the zone already.
    AlreadyThere { id: i64, zone: i64 },
    /// No way leads there.
    NoWay { from: i64, to: i64 },
    /// The character does not know where it is.
    LostHere { id: i64, zone: i64 },
    /// The character has not even heard of the zone.
    ZoneUnknown { id: i64, zone: i64 },
    /// The campaign has begun.
    NotNew { phase: Phase },
    /// The campaign has begun.
    TooLateToAnswer { phase: Phase },
    /// There is no such question.
    UnknownQuestion { question: S, valid: S },
    /// The campaign has begun.
    TooLateToGenerate { phase: Phase },
    /// Nobody has said where the campaign starts.
    NoStartingBiome,
    /// The answer on record cannot be read.
    AnswerNotJson { cause: S },
    /// The campaign has begun.
    AlreadyReady { phase: Phase },
    /// There is no such player character.
    StateRow,
    /// What the kinds are to begin with is too long.
    PatternTooLong,
    /// There is no such archetype.
    UnknownArchetype { archetype: S },
    /// There is no such role.
    UnknownNpcRole { role: S, archetype: S, given: S },
    /// There is no such zone.
    NoSuchZone { id: i64 },
    /// What the modifier is multiplied by is no number.
    HpMultiplier { formula: S, factor: S, fault: NumberFault },
    /// The modifier can only be added, or multiplied by a number.
    HpConMod { formula: S, term: S },
    /// The constant is no number.
    HpConstant { formula: S, term: S, fault: NumberFault },
    /// The dice are none.
    HpDice { formula: S, cause: S },
    /// The setting is no number, or none of the right size.
    SettingNumber { key: S, value: S, fault: NumberFault },
    /// SQLite has no such journal mode.
    SettingJournal { value: S },
    /// SQLite has no such synchronous mode.
    SettingSynchronous { value: S },
    /// There is no such level.
    SettingLevel { value: S, level: S },
    /// The filter directive cannot be read.
    SettingFilter { value: S, cause: S },
    /// A hook has a gap that nothing fills.
    SlotWithoutPool { archetype: S, slot: S },
}

impl View for Error {
    type V = Error<Seq<char>>;

    open spec fn view(&self) -> Error<Seq<char>> {
        match self {
            Error::EventRow => Error::EventRow,
            Error::EventParticipantRow { event_id, character_id, role, fault } => Error::EventParticipantRow {
                event_id: *event_id,
                character_id: *character_id,
                role: role@,
                fault: *fault,
            },
            Error::EventItemRow { event_id, item_id, role, fault } => Error::EventItemRow {
                event_id: *event_id,
                item_id: *item_id,
                role: role@,
                fault: *fault,
            },
            Error::CharacterNotFound { id } => Error::CharacterNotFound { id: *id },
            Error::NoSuchCharacter { id } => Error::NoSuchCharacter { id: *id },
            Error::EncounterNotFound { id } => Error::EncounterNotFound { id: *id },
            Error::ConditionEmpty => Error::ConditionEmpty,
            Error::ConditionSeverity { severity } => Error::ConditionSeverity { severity: *severity },
            Error::ConditionNotFound { id } => Error::ConditionNotFound { id: *id },
            Error::ConditionInactive { id } => Error::ConditionInactive { id: *id },
            Error::NegativeDamage => Error::NegativeDamage,
            Error::NegativeHealing => Error::NegativeHealing,
            Error::DeadCannotHeal { id } => Error::DeadCannotHeal { id: *id },
            Error::NotUnconscious { id, status } => Error::NotUnconscious { id: *id, status: *status },
            Error::NotDead { id, status } => Error::NotDead { id: *id, status: *status },
            Error::NoDeathEvents => Error::NoDeathEvents,
            Error::NotInCombat { id } => Error::NotInCombat { id: *id },
            Error::NoParticipants { id } => Error::NoParticipants { id: *id },
            Error::CannotStartCombat { id, status } => Error::CannotStartCombat { id: *id, status: *status },
            Error::AlreadyInCombat { id } => Error::AlreadyInCombat { id: *id },
            Error::EmptyDice => Error::EmptyDice,
            Error::NotDice { spec } => Error::NotDice { spec: spec@ },
            Error::DiceCount { spec, count, fault } => Error::DiceCount { spec: spec@, count: count@, fault: *fault },
            Error::DiceSides { spec, sides, fault } => Error::DiceSides { spec: spec@, sides: sides@, fault: *fault },
            Error::DiceCountZero { spec } => Error::DiceCountZero { spec: spec@ },
            Error::DiceSidesFew { spec } => Error::DiceSidesFew { spec: spec@ },
            Error::DiceCountMany { spec, count } => Error::DiceCountMany { spec: spec@, count: *count },
            Error::DiceSidesMany { spec, sides } => Error::DiceSidesMany { spec: spec@, sides: *sides },
            Error::RangeOrder { spec, min, max } => Error::RangeOrder { spec: spec@, min: *min, max: *max },
            Error::SkillAbility { skill, ability, valid } => Error::SkillAbility {
                skill: skill@,
                ability: ability@,
                valid: valid@,
            },
            Error::UnknownCheckKind { kind } => Error::UnknownCheckKind { kind: kind@ },
            Error::UnknownAbilityOverride { ability } => Error::UnknownAbilityOverride { ability: ability@ },
            Error::SaveKeyForm { key } => Error::SaveKeyForm { key: key@ },
            Error::SaveAbility { ability } => Error::SaveAbility { ability: ability@ },
            Error::AbilityCheckKey { key } => Error::AbilityCheckKey { key: key@ },
            Error::UnknownSkill { key } => Error::UnknownSkill { key: key@ },
            Error::UnknownAbility { ability } => Error::UnknownAbility { ability: ability@ },
            Error::ReadAbility { column, id } => Error::ReadAbility { column: column@, id: *id },
            Error::EffectDice { expr, source, cause } => Error::EffectDice {
                expr: expr@,
                source: source@,
                cause: cause@,
            },
            Error::UnknownTargetKind { kind } => Error::UnknownTargetKind { kind: kind@ },
            Error::EffectNotFound { id } => Error::EffectNotFound { id: *id },
            Error::EffectInactive { id } => Error::EffectInactive { id: *id },
            Error::ProficiencyEmpty => Error::ProficiencyEmpty,
            Error::ProficiencyRow => Error::ProficiencyRow,
            Error::ResourceEmpty => Error::ResourceEmpty,
            Error::ResourceMax => Error::ResourceMax,
            Error::ResourceCurrent { current, max } => Error::ResourceCurrent { current: *current, max: *max },
            Error::UnknownRecharge { recharge } => Error::UnknownRecharge { recharge: recharge@ },
            Error::ResourceRow => Error::ResourceRow,
            Error::ResourceNotFound { name, id } => Error::ResourceNotFound { name: name@, id: *id },
            Error::DeadCannotRest { id } => Error::DeadCannotRest { id: *id },
            Error::UnknownRole { role } => Error::UnknownRole { role: role@ },
            Error::UnknownSize { size } => Error::UnknownSize { size: size@ },
            Error::ScoreBounds { label, value } => Error::ScoreBounds { label: label@, value: *value },
            Error::HpMaxBounds { value } => Error::HpMaxBounds { value: *value },
            Error::HpCurrentBounds { max, value } => Error::HpCurrentBounds { max: *max, value: *value },
            Error::ArmorClassBounds { value } => Error::ArmorClassBounds { value: *value },
            Error::SpeedBounds { value } => Error::SpeedBounds { value: *value },
            Error::InitiativeBounds { value } => Error::InitiativeBounds { value: *value },
            Error::LoyaltyBounds { value } => Error::LoyaltyBounds { value: *value },
            Error::CharacterRow => Error::CharacterRow,
            Error::StartingZone => Error::StartingZone,
            Error::UnknownBaseKind { kind } => Error::UnknownBaseKind { kind: kind@ },
            Error::LocationCount { count } => Error::LocationCount { count: *count },
            Error::QuantityLow { quantity } => Error::QuantityLow { quantity: *quantity },
            Error::NotStackable { kind } => Error::NotStackable { kind: kind@ },
            Error::ItemRow => Error::ItemRow,
            Error::ItemNotFound { id } => Error::ItemNotFound { id: *id },
            Error::ItemNotInZone { id, holder, container } => Error::ItemNotInZone {
                id: *id,
                holder: *holder,
                container: *container,
            },
            Error::WrongZone { item, zone, character, current } => Error::WrongZone {
                item: *item,
                zone: *zone,
                character: *character,
                current: *current,
            },
            Error::NotHeld { item, character, holder } => Error::NotHeld {
                item: *item,
                character: *character,
                holder: *holder,
            },
            Error::NowhereToDrop { id } => Error::NowhereToDrop { id: *id },
            Error::CannotEquip { item, character } => Error::CannotEquip {
                item: *item,
                character: *character,
            },
            Error::SlotEmpty => Error::SlotEmpty,
            Error::CannotUnequip { item, character } => Error::CannotUnequip {
                item: *item,
                character: *character,
            },
            Error::DestinationCount { count } => Error::DestinationCount { count: *count },
            Error::IntoItself { id } => Error::IntoItself { id: *id },
            Error::NoDestinationCharacter { id } => Error::NoDestinationCharacter { id: *id },
            Error::NoDestinationContainer { id } => Error::NoDestinationContainer { id: *id },
            Error::NoDestinationZone { id } => Error::NoDestinationZone { id: *id },
            Error::ContainerCycle { item, container } => Error::ContainerCycle {
                item: *item,
                container: *container,
            },
            Error::ContainerDepth { container } => Error::ContainerDepth { container: *container },
            Error::TransferOverload { id, would_be, capacity } => Error::TransferOverload {
                id: *id,
                would_be: *would_be,
                capacity: *capacity,
            },
            Error::XpBudget { value } => Error::XpBudget { value: *value },
            Error::UnknownSide { id, side } => Error::UnknownSide { id: *id, side: side@ },
            Error::EncounterRow => Error::EncounterRow,
            Error::EncounterParticipantRow { encounter_id, character_id, side, fault } => Error::EncounterParticipantRow {
                encounter_id: *encounter_id,
                character_id: *character_id,
                side: side@,
                fault: *fault,
            },
            Error::CannotComplete { id, status } => Error::CannotComplete { id: *id, status: *status },
            Error::EncounterNotActive { id, status } => Error::EncounterNotActive { id: *id, status: *status },
            Error::BarterEmpty => Error::BarterEmpty,
            Error::BarterSelf => Error::BarterSelf,
            Error::ItemKindUnknown { item, kind } => Error::ItemKindUnknown { item: *item, kind: kind@ },
            Error::BarterOffered { item } => Error::BarterOffered { item: *item },
            Error::BarterRequested { item } => Error::BarterRequested { item: *item },
            Error::BarterCheck { cause } => Error::BarterCheck { cause: cause@ },
            Error::NoCurrentZone { id } => Error::NoCurrentZone { id: *id },
            Error::AlreadyThere { id, zone } => Error::AlreadyThere { id: *id, zone: *zone },
            Error::NoWay { from, to } => Error::NoWay { from: *from, to: *to },
            Error::LostHere { id, zone } => Error::LostHere { id: *id, zone: *zone },
            Error::ZoneUnknown { id, zone } => Error::ZoneUnknown { id: *id, zone: *zone },
            Error::NotNew { phase } => Error::NotNew { phase: *phase },
            Error::TooLateToAnswer { phase } => Error::TooLateToAnswer { phase: *phase },
            Error::UnknownQuestion { question, valid } => Error::UnknownQuestion {
                question: question@,
                valid: valid@,
            },
            Error::TooLateToGenerate { phase } => Error::TooLateToGenerate { phase: *phase },
            Error::NoStartingBiome => Error::NoStartingBiome,
            Error::AnswerNotJson { cause } => Error::AnswerNotJson { cause: cause@ },
            Error::AlreadyReady { phase } => Error::AlreadyReady { phase: *phase },
            Error::StateRow => Error::StateRow,
            Error::PatternTooLong => Error::PatternTooLong,
            Error::UnknownArchetype { archetype } => Error::UnknownArchetype { archetype: archetype@ },
            Error::UnknownNpcRole { role, archetype, given } => Error::UnknownNpcRole {
                role: role@,
                archetype: archetype@,
                given: given@,
            },
            Error::NoSuchZone { id } => Error::NoSuchZone { id: *id },
            Error::HpMultiplier { formula, factor, fault } => Error::HpMultiplier {
                formula: formula@,
                factor: factor@, fault: *fault },
            Error::HpConMod { formula, term } => Error::HpConMod { formula: formula@, term: term@ },
            Error::HpConstant { formula, term, fault } => Error::HpConstant {
                formula: formula@,
                term: term@,
                fault: *fault,
            },
            Error::HpDice { formula, cause } => Error::HpDice { formula: formula@, cause: cause@ },
            Error::SettingNumber { key, value, fault } => Error::SettingNumber {
                key: key@,
                value: value@,
                fault: *fault,
            },
            Error::SettingJournal { value } => Error::SettingJournal { value: value@ },
            Error::SettingSynchronous { value } => Error::SettingSynchronous { value: value@ },
            Error::SettingLevel { value, level } => Error::SettingLevel { value: value@, level: level@ },
            Error::SettingFilter { value, cause } => Error::SettingFilter { value: value@, cause: cause@ },
            Error::SlotWithoutPool { archetype, slot } => Error::SlotWithoutPool {
                archetype: archetype@,
                slot: slot@,
            },
        }
    }
}

impl Error<Seq<char>> {
    /// The refusal in words.
    pub open spec fn text(self) -> Seq<char> {
        match self {
            Error::EventRow => "insert events row: FOREIGN KEY constraint failed"@,
            Error::EventParticipantRow { event_id, character_id, role, fault } => {
                "insert event_participants row (event="@ + int_text(event_id as int) + ", char="@
                    + int_text(character_id as int) + ", role="@ + debug_text(role) + "): "@ + fault.text(
                    "role IN\n                     ('actor','target','witness','beneficiary')"@,
                    "event_participants.event_id, event_participants.character_id, event_participants.role"@,
                )
            },
            Error::EventItemRow { event_id, item_id, role, fault } => {
                "insert event_items row (event="@ + int_text(event_id as int) + ", item="@
                    + int_text(item_id as int) + ", role="@ + debug_text(role) + "): "@ + fault.text(
                    ""@,
                    "event_items.event_id, event_items.item_id, event_items.role"@,
                )
            },
            Error::CharacterNotFound { id } => {
                "character "@ + int_text(id as int) + " not found: Query returned no rows"@
            },
            Error::NoSuchCharacter { id } => "character "@ + int_text(id as int) + " not found"@,
            Error::EncounterNotFound { id } => {
                "encounter "@ + int_text(id as int) + " not found: Query returned no rows"@
            },
            Error::ConditionEmpty => "condition name must not be empty"@,
            Error::ConditionSeverity { severity } => {
                "condition severity must be >= 1 (got "@ + int_text(severity as int) + ")"@
            },
            Error::ConditionNotFound { id } => "condition "@ + int_text(id as int) + " not found"@,
            Error::ConditionInactive { id } => "condition "@ + int_text(id as int) + " is already inactive"@,
            Error::NegativeDamage => "damage amount must be non-negative (use apply_healing for healing)"@,
            Error::NegativeHealing => "healing amount must be non-negative"@,
            Error::DeadCannotHeal { id } => {
                "character "@ + int_text(id as int) + " is dead and cannot be healed"@
            },
            Error::NotUnconscious { id, status } => {
                "death saves only apply to unconscious characters (id="@ + int_text(id as int) + " is "@
                    + debug_text(status.text()) + ")"@
            },
            Error::NotDead { id, status } => {
                "roll_death_event requires status='dead' (character "@ + int_text(id as int) + " is "@
                    + debug_text(status.text()) + ")"@
            },
            Error::NoDeathEvents => "death_events content table is empty"@,
            Error::NotInCombat { id } => "encounter "@ + int_text(id as int) + " is not in combat"@,
            Error::NoParticipants { id } => "encounter "@ + int_text(id as int) + " has no participants"@,
            Error::CannotStartCombat { id, status } => {
                "cannot start combat on encounter "@ + int_text(id as int) + " (status "@
                    + debug_text(status.text()) + ")"@
            },
            Error::AlreadyInCombat { id } => "encounter "@ + int_text(id as int) + " is already in combat"@,
            Error::EmptyDice => "empty dice spec"@,
            Error::NotDice { spec } => {
                debug_text(spec) + " is not a recognised dice spec (expected d<N>, <C>d<N>, or <MIN>-<MAX>)"@
            },
            Error::DiceCount { spec, count, fault } => {
                debug_text(spec) + ": dice count "@ + debug_text(count) + " is not a positive integer: "@
                    + fault.text()
            },
            Error::DiceSides { spec, sides, fault } => {
                debug_text(spec) + ": die sides "@ + debug_text(sides) + " is not a positive integer: "@
                    + fault.text()
            },
            Error::DiceCountZero { spec } => debug_text(spec) + ": dice count must be at least 1"@,
            Error::DiceSidesFew { spec } => debug_text(spec) + ": die sides must be at least 2"@,
            Error::DiceCountMany { spec, count } => {
                debug_text(spec) + ": dice count "@ + int_text(count as int) + " exceeds MAX_DICE_COUNT=100"@
            },
            Error::DiceSidesMany { spec, sides } => {
                debug_text(spec) + ": die sides "@ + int_text(sides as int) + " exceeds MAX_DIE_SIDES=10000"@
            },
            Error::RangeOrder { spec, min, max } => {
                debug_text(spec) + ": range min ("@ + int_text(min as int) + ") must be less than max ("@
                    + int_text(max as int) + ")"@
            },
            Error::SkillAbility { skill, ability, valid } => {
                "skill "@ + debug_text(skill) + " references unknown ability "@ + debug_text(ability)
                    + "; valid abilities: "@ + valid
            },
            Error::UnknownCheckKind { kind } => {
                "unknown check kind "@ + debug_text(kind)
                    + "; expected one of skill_check, save, attack_roll, ability_check"@
            },
            Error::UnknownAbilityOverride { ability } => {
                "unknown ability override "@ + debug_text(ability)
                    + "; valid: [\"str\", \"dex\", \"con\", \"int\", \"wis\", \"cha\"]"@
            },
            Error::SaveKeyForm { key } => {
                "save target_key must be of the form 'save:<ability>'; got "@ + debug_text(key)
            },
            Error::SaveAbility { ability } => {
                "save target_key references unknown ability "@ + debug_text(ability)
            },
            Error::AbilityCheckKey { key } => {
                "ability_check target_key must be an ability id; got "@ + debug_text(key)
            },
            Error::UnknownSkill { key } => "unknown skill "@ + debug_text(key),
            Error::UnknownAbility { ability } => "unknown ability "@ + debug_text(ability),
            Error::ReadAbility { column, id } => {
                "read "@ + column + " for character "@ + int_text(id as int) + ": Query returned no rows"@
            },
            Error::EffectDice { expr, source, cause } => {
                "roll effect dice_expr "@ + debug_text(expr) + " (source "@ + debug_text(source) + "): "@ + cause
            },
            Error::UnknownTargetKind { kind } => {
                "unknown target_kind "@ + debug_text(kind)
                    + "; valid: [\"ability\", \"ac\", \"speed\", \"hp_max\", \"attack\", \"damage\", \"skill\", \"save\", \"misc\"]"@
            },
            Error::EffectNotFound { id } => "effect "@ + int_text(id as int) + " not found"@,
            Error::EffectInactive { id } => "effect "@ + int_text(id as int) + " is already inactive"@,
            Error::ProficiencyEmpty => "proficiency name must not be empty"@,
            Error::ProficiencyRow => "upsert character_proficiencies: FOREIGN KEY constraint failed"@,
            Error::ResourceEmpty => "resource name must not be empty"@,
            Error::ResourceMax => "resource max must be >= 0"@,
            Error::ResourceCurrent { current, max } => {
                "resource current ("@ + int_text(current as int) + ") must be within [0, "@
                    + int_text(max as int) + "]"@
            },
            Error::UnknownRecharge { recharge } => {
                "unknown recharge "@ + debug_text(recharge)
                    + "; valid: [\"short_rest\", \"long_rest\", \"dawn\", \"never\", \"manual\"]"@
            },
            Error::ResourceRow => "upsert character_resources: FOREIGN KEY constraint failed"@,
            Error::ResourceNotFound { name, id } => {
                "resource "@ + debug_text(name) + " not found on character "@ + int_text(id as int)
            },
            Error::DeadCannotRest { id } => "character "@ + int_text(id as int) + " is dead and cannot rest"@,
            Error::UnknownRole { role } => {
                "unknown role "@ + debug_text(role)
                    + "; valid: [\"player\", \"companion\", \"friendly\", \"enemy\", \"neutral\"]"@
            },
            Error::UnknownSize { size } => {
                "unknown size "@ + debug_text(size)
                    + "; valid: [\"tiny\", \"small\", \"medium\", \"large\", \"huge\", \"gargantuan\"]"@
            },
            Error::ScoreBounds { label, value } => {
                label + " must be in 1..=30 (got "@ + int_text(value as int) + ")"@
            },
            Error::HpMaxBounds { value } => {
                "hp_max must be in 1..=10_000 (got "@ + int_text(value as int) + ")"@
            },
            Error::HpCurrentBounds { max, value } => {
                "hp_current must be in 0..=hp_max ("@ + int_text(max as int) + ") (got "@
                    + int_text(value as int) + ")"@
            },
            Error::ArmorClassBounds { value } => {
                "armor_class must be in 1..=50 (got "@ + int_text(value as int) + ")"@
            },
            Error::SpeedBounds { value } => {
                "speed_ft must be in 0..=1_000 (got "@ + int_text(value as int) + ")"@
            },
            Error::InitiativeBounds { value } => {
                "initiative_bonus must be in -20..=20 (got "@ + int_text(value as int) + ")"@
            },
            Error::LoyaltyBounds { value } => {
                "loyalty must be in 0..=100 (got "@ + int_text(value as int) + ")"@
            },
            Error::CharacterRow => "insert characters row: FOREIGN KEY constraint failed"@,
            Error::StartingZone => {
                "seed character knowledge of starting zone: FOREIGN KEY constraint failed"@
            },
            Error::UnknownBaseKind { kind } => "unknown base_kind "@ + debug_text(kind),
            Error::LocationCount { count } => {
                "exactly one of holder_character_id, zone_location_id, container_item_id must be set (got "@
                    + int_text(count as int) + ")"@
            },
            Error::QuantityLow { quantity } => {
                "quantity must be >= 1 (got "@ + int_text(quantity as int) + ")"@
            },
            Error::NotStackable { kind } => {
                "base_kind "@ + debug_text(kind) + " is not stackable; quantity must be 1"@
            },
            Error::ItemRow => "insert items row: FOREIGN KEY constraint failed"@,
            Error::ItemNotFound { id } => {
                "item "@ + int_text(id as int) + " not found: Query returned no rows"@
            },
            Error::ItemNotInZone { id, holder, container } => {
                "item "@ + int_text(id as int) + " is not in a zone (holder="@ + opt_int_text(holder)
                    + ", container="@ + opt_int_text(container) + ")"@
            },
            Error::WrongZone { item, zone, character, current } => {
                "cannot pick up item "@ + int_text(item as int) + " (in zone "@ + int_text(zone as int)
                    + ") from character "@ + int_text(character as int) + " (current zone "@
                    + opt_int_text(current) + ")"@
            },
            Error::NotHeld { item, character, holder } => {
                "item "@ + int_text(item as int) + " is not held by character "@ + int_text(character as int)
                    + " (holder="@ + opt_int_text(holder) + ")"@
            },
            Error::NowhereToDrop { id } => "character "@ + int_text(id as int) + " has no current_zone_id"@,
            Error::CannotEquip { item, character } => {
                "cannot equip item "@ + int_text(item as int) + " — it is not held by character "@
                    + int_text(character as int)
            },
            Error::SlotEmpty => "slot must be non-empty"@,
            Error::CannotUnequip { item, character } => {
                "cannot unequip item "@ + int_text(item as int) + " — it is not held by character "@
                    + int_text(character as int)
            },
            Error::DestinationCount { count } => {
                "exactly one destination must be set (got "@ + int_text(count as int) + ")"@
            },
            Error::IntoItself { id } => "cannot transfer item "@ + int_text(id as int) + " into itself"@,
            Error::NoDestinationCharacter { id } => {
                "destination character "@ + int_text(id as int) + " does not exist"@
            },
            Error::NoDestinationContainer { id } => {
                "destination container item "@ + int_text(id as int) + " does not exist"@
            },
            Error::NoDestinationZone { id } => {
                "destination zone "@ + int_text(id as int) + " does not exist"@
            },
            Error::ContainerCycle { item, container } => {
                "transferring item "@ + int_text(item as int) + " into container "@
                    + int_text(container as int)
                    + " would create a cycle (item is already an ancestor of the container)"@
            },
            Error::ContainerDepth { container } => {
                "container chain depth from "@ + int_text(container as int)
                    + " exceeds 32 — refusing to walk further (probable existing cycle in data)"@
            },
            Error::TransferOverload { id, would_be, capacity } => {
                "transfer to character "@ + int_text(id as int) + " would overload them ("@
                    + hundredths_text(would_be as int) + " lb carried of "@ + hundredths_text(capacity as int)
                    + " capacity); use inventory.pickup or drop weight first"@
            },
            Error::XpBudget { value } => {
                "encounter xp_budget must be >= 0 (got "@ + int_text(value as int) + ")"@
            },
            Error::UnknownSide { id, side } => {
                "participant "@ + int_text(id as int) + " has unknown side "@ + debug_text(side)
                    + "; valid: [\"player_side\", \"hostile\", \"neutral\", \"ally\"]"@
            },
            Error::EncounterRow => "insert encounters row: FOREIGN KEY constraint failed"@,
            Error::EncounterParticipantRow { encounter_id, character_id, side, fault } => {
                "insert encounter_participants (enc="@ + int_text(encounter_id as int) + ", char="@
                    + int_text(character_id as int) + ", side="@ + debug_text(side) + "): "@ + fault.text(
                    "side IN\n                               ('player_side','hostile','neutral','ally')"@,
                    "encounter_participants.encounter_id, encounter_participants.character_id"@,
                )
            },
            Error::CannotComplete { id, status } => {
                "encounter "@ + int_text(id as int) + " is not active (currently "@
                    + debug_text(status.text()) + ") — cannot complete"@
            },
            Error::EncounterNotActive { id, status } => {
                "encounter "@ + int_text(id as int) + " is not active (currently "@
                    + debug_text(status.text()) + ")"@
            },
            Error::BarterEmpty => "barter.exchange requires at least one item on either side"@,
            Error::BarterSelf => "cannot barter with oneself"@,
            Error::ItemKindUnknown { item, kind } => {
                "item "@ + int_text(item as int) + " has unknown base_kind "@ + debug_text(kind)
            },
            Error::BarterOffered { item } => {
                "move offered item "@ + int_text(item as int) + ": FOREIGN KEY constraint failed"@
            },
            Error::BarterRequested { item } => {
                "move requested item "@ + int_text(item as int) + ": FOREIGN KEY constraint failed"@
            },
            Error::BarterCheck { cause } => "resolve persuasion check for barter: "@ + cause,
            Error::NoCurrentZone { id } => {
                "character "@ + int_text(id as int) + " has no current_zone_id set"@
            },
            Error::AlreadyThere { id, zone } => {
                "character "@ + int_text(id as int) + " is already in zone "@ + int_text(zone as int)
            },
            Error::NoWay { from, to } => {
                "no zone_connection from zone "@ + int_text(from as int) + " to zone "@ + int_text(to as int)
                    + " exists; can't travel"@
            },
            Error::LostHere { id, zone } => {
                "character "@ + int_text(id as int) + " has no knowledge of their current zone "@
                    + int_text(zone as int)
                    + " (data inconsistency — character.create / world.travel should have seeded this)"@
            },
            Error::ZoneUnknown { id, zone } => {
                "character "@ + int_text(id as int) + " has no knowledge of zone "@ + int_text(zone as int)
                    + " (not even rumored)"@
            },
            Error::NotNew { phase } => {
                "campaign is in phase "@ + debug_text(phase.text())
                    + ", not 'setup'; new_campaign should only run before mark_ready"@
            },
            Error::TooLateToAnswer { phase } => {
                "cannot record an answer once the campaign has left 'setup' (currently "@
                    + debug_text(phase.text()) + ")"@
            },
            Error::UnknownQuestion { question, valid } => {
                "unknown question_id "@ + debug_text(question) + "; valid: "@ + valid
            },
            Error::TooLateToGenerate { phase } => {
                "generate_world should run during the setup phase (current phase "@ + debug_text(phase.text())
                    + ")"@
            },
            Error::NoStartingBiome => "starting_biome answer not recorded"@,
            Error::AnswerNotJson { cause } => "decode campaign_setup_answers.answer JSON: "@ + cause,
            Error::AlreadyReady { phase } => {
                "mark_ready called twice — campaign is already in phase "@ + debug_text(phase.text())
            },
            Error::StateRow => "flip campaign_state to running: FOREIGN KEY constraint failed"@,
            Error::PatternTooLong => "collect recall rows: LIKE or GLOB pattern too complex"@,
            Error::UnknownArchetype { archetype } => "unknown archetype "@ + debug_text(archetype),
            Error::UnknownNpcRole { role, archetype, given } => {
                "role "@ + debug_text(role)
                    + " is not one of [\"player\", \"companion\", \"friendly\", \"enemy\", \"neutral\"] (archetype="@
                    + debug_text(archetype) + ", role_override="@ + given + ")"@
            },
            Error::NoSuchZone { id } => "zone_id "@ + int_text(id as int) + " does not exist"@,
            Error::HpMultiplier { formula, factor, fault } => {
                "hp_formula "@ + debug_text(formula) + ": con_mod multiplier "@ + debug_text(factor)
                    + ": "@ + fault.text()
            },
            Error::HpConMod { formula, term } => {
                "hp_formula "@ + debug_text(formula) + ": unrecognised con_mod form "@ + debug_text(term)
            },
            Error::HpConstant { formula, term, fault } => {
                "hp_formula "@ + debug_text(formula) + ": hp constant "@ + debug_text(term)
                    + ": "@ + fault.text()
            },
            Error::HpDice { formula, cause } => {
                "hp_formula "@ + debug_text(formula) + ": "@ + cause
            },
            Error::SettingNumber { key, value, fault } => {
                "failed to parse "@ + key + "="@ + value + ": parse error: "@ + fault.text()
            },
            Error::SettingJournal { value } => {
                "failed to parse DMMCP_DB_JOURNAL_MODE="@ + value + ": unsupported SQLite journal_mode "@
                    + debug_text(value) + "; expected one of DELETE, TRUNCATE, PERSIST, MEMORY, WAL, OFF"@
            },
            Error::SettingSynchronous { value } => {
                "failed to parse DMMCP_DB_SYNCHRONOUS="@ + value + ": unsupported SQLite synchronous mode "@
                    + debug_text(value) + "; expected one of OFF, NORMAL, FULL, EXTRA"@
            },
            Error::SettingLevel { value, level } => {
                "failed to parse DMMCP_LOG_LEVEL="@ + value + ": unknown level "@ + debug_text(level)
                    + "; expected one of [\"trace\", \"debug\", \"info\", \"warn\", \"error\", \"off\"] or a per-target directive like `dm_mcp=debug,warn`"@
            },
            Error::SettingFilter { value, cause } => {
                "failed to parse DMMCP_LOG_LEVEL="@ + value + ": invalid tracing filter directive: "@
                    + cause
            },
            Error::SlotWithoutPool { archetype, slot } => {
                "archetype "@ + debug_text(archetype) + " has a backstory hook with slot "@ + debug_text(slot)
                    + " and no slot pool for it"@
            },
        }
    }
}

impl Error {
    /// The refusal in words.
    pub fn message(&self) -> (r: String)
        ensures
            r@ == self@.text(),
    {
        match self {
            Error::EventRow => "insert events row: FOREIGN KEY constraint failed".to_owned(),
            Error::EventParticipantRow { event_id, character_id, role, fault } => {
                let mut s = "insert event_participants row (event=".to_owned();
                s.append(decimal(*event_id as i64).as_str());
                s.append(", char=");
                s.append(decimal(*character_id as i64).as_str());
                s.append(", role=");
                s.append(quoted(role.as_str()).as_str());
                s.append("): ");
                s.append(
                    fault.words(
                        "role IN\n                     ('actor','target','witness','beneficiary')",
                        "event_participants.event_id, event_participants.character_id, event_participants.role",
                    ).as_str(),
                );
                s
            },
            Error::EventItemRow { event_id, item_id, role, fault } => {
                let mut s = "insert event_items row (event=".to_owned();
                s.append(decimal(*event_id as i64).as_str());
                s.append(", item=");
                s.append(decimal(*item_id as i64).as_str());
                s.append(", role=");
                s.append(quoted(role.as_str()).as_str());
                s.append("): ");
                s.append(
                    fault.words(
                        "",
                        "event_items.event_id, event_items.item_id, event_items.role",
                    ).as_str(),
                );
                s
            },
            Error::CharacterNotFound { id } => {
                let mut s = "character ".to_owned();
                s.append(decimal(*id as i64).as_str());
                s.append(" not found: Query returned no rows");
                s
            },
            Error::NoSuchCharacter { id } => {
                let mut s = "character ".to_owned();
                s.append(decimal(*id as i64).as_str());
                s.append(" not found");
                s
            },
            Error::EncounterNotFound { id } => {
                let mut s = "encounter ".to_owned();
                s.append(decimal(*id as i64).as_str());
                s.append(" not found: Query returned no rows");
                s
            },
            Error::ConditionEmpty => "condition name must not be empty".to_owned(),
            Error::ConditionSeverity { severity } => {
                let mut s = "condition severity must be >= 1 (got ".to_owned();
                s.append(decimal(*severity as i64).as_str());
                s.append(")");
                s
            },
            Error::ConditionNotFound { id } => {
                let mut s = "condition ".to_owned();
                s.append(decimal(*id as i64).as_str());
                s.append(" not found");
                s
            },
            Error::ConditionInactive { id } => {
                let mut s = "condition ".to_owned();
                s.append(decimal(*id as i64).as_str());
                s.append(" is already inactive");
                s
            },
            Error::NegativeDamage => {
                "damage amount must be non-negative (use apply_healing for healing)".to_owned()
            },
            Error::NegativeHealing => "healing amount must be non-negative".to_owned(),
            Error::DeadCannotHeal { id } => {
                let mut s = "character ".to_owned();
                s.append(decimal(*id as i64).as_str());
                s.append(" is dead and cannot be healed");
                s
            },
            Error::NotUnconscious { id, status } => {
                let mut s = "death saves only apply to unconscious characters (id=".to_owned();
                s.append(decimal(*id as i64).as_str());
                s.append(" is ");
                s.append(quoted(status.as_str()).as_str());
                s.append(")");
                s
            },
            Error::NotDead { id, status } => {
                let mut s = "roll_death_event requires status='dead' (character ".to_owned();
                s.append(decimal(*id as i64).as_str());
                s.append(" is ");
                s.append(quoted(status.as_str()).as_str());
                s.append(")");
                s
            },
            Error::NoDeathEvents => "death_events content table is empty".to_owned(),
            Error::NotInCombat { id } => {
                let mut s = "encounter ".to_owned();
                s.append(decimal(*id as i64).as_str());
                s.append(" is not in combat");
                s
            },
            Error::NoParticipants { id } => {
                let mut s = "encounter ".to_owned();
                s.append(decimal(*id as i64).as_str());
                s.append(" has no participants");
                s
            },
            Error::CannotStartCombat { id, status } => {
                let mut s = "cannot start combat on encounter ".to_owned();
                s.append(decimal(*id as i64).as_str());
                s.append(" (status ");
                s.append(quoted(status.as_str()).as_str());
                s.append(")");
                s
            },
            Error::AlreadyInCombat { id } => {
                let mut s = "encounter ".to_owned();
                s.append(decimal(*id as i64).as_str());
                s.append(" is already in combat");
                s
            },
            Error::EmptyDice => "empty dice spec".to_owned(),
            Error::NotDice { spec } => {
                let mut s = quoted(spec.as_str());
                s.append(" is not a recognised dice spec (expected d<N>, <C>d<N>, or <MIN>-<MAX>)");
                s
            },
            Error::DiceCount { spec, count, fault } => {
                let mut s = quoted(spec.as_str());
                s.append(": dice count ");
                s.append(quoted(count.as_str()).as_str());
                s.append(" is not a positive integer: ");
                s.append(fault.as_str());
                s
            },
            Error::DiceSides { spec, sides, fault } => {
                let mut s = quoted(spec.as_str());
                s.append(": die sides ");
                s.append(quoted(sides.as_str()).as_str());
                s.append(" is not a positive integer: ");
                s.append(fault.as_str());
                s
            },
            Error::DiceCountZero { spec } => {
                let mut s = quoted(spec.as_str());
                s.append(": dice count must be at least 1");
                s
            },
            Error::DiceSidesFew { spec } => {
                let mut s = quoted(spec.as_str());
                s.append(": die sides must be at least 2");
                s
            },
            Error::DiceCountMany { spec, count } => {
                let mut s = quoted(spec.as_str());
                s.append(": dice count ");
                s.append(decimal(*count as i64).as_str());
                s.append(" exceeds MAX_DICE_COUNT=100");
                s
            },
            Error::DiceSidesMany { spec, sides } => {
                let mut s = quoted(spec.as_str());
                s.append(": die sides ");
                s.append(decimal(*sides as i64).as_str());
                s.append(" exceeds MAX_DIE_SIDES=10000");
                s
            },
            Error::RangeOrder { spec, min, max } => {
                let mut s = quoted(spec.as_str());
                s.append(": range min (");
                s.append(decimal(*min as i64).as_str());
                s.append(") must be less than max (");
                s.append(decimal(*max as i64).as_str());
                s.append(")");
                s
            },
            Error::SkillAbility { skill, ability, valid } => {
                let mut s = "skill ".to_owned();
                s.append(quoted(skill.as_str()).as_str());
                s.append(" references unknown ability ");
                s.append(quoted(ability.as_str()).as_str());
                s.append("; valid abilities: ");
                s.append(valid.as_str());
                s
            },
            Error::UnknownCheckKind { kind } => {
                let mut s = "unknown check kind ".to_owned();
                s.append(quoted(kind.as_str()).as_str());
                s.append("; expected one of skill_check, save, attack_roll, ability_check");
                s
            },
            Error::UnknownAbilityOverride { ability } => {
                let mut s = "unknown ability override ".to_owned();
                s.append(quoted(ability.as_str()).as_str());
                s.append("; valid: [\"str\", \"dex\", \"con\", \"int\", \"wis\", \"cha\"]");
                s
            },
            Error::SaveKeyForm { key } => {
                let mut s = "save target_key must be of the form 'save:<ability>'; got ".to_owned();
                s.append(quoted(key.as_str()).as_str());
                s
            },
            Error::SaveAbility { ability } => {
                let mut s = "save target_key references unknown ability ".to_owned();
                s.append(quoted(ability.as_str()).as_str());
                s
            },
            Error::AbilityCheckKey { key } => {
                let mut s = "ability_check target_key must be an ability id; got ".to_owned();
                s.append(quoted(key.as_str()).as_str());
                s
            },
            Error::UnknownSkill { key } => {
                let mut s = "unknown skill ".to_owned();
                s.append(quoted(key.as_str()).as_str());
                s
            },
            Error::UnknownAbility { ability } => {
                let mut s = "unknown ability ".to_owned();
                s.append(quoted(ability.as_str()).as_str());
                s
            },
            Error::ReadAbility { column, id } => {
                let mut s = "read ".to_owned();
                s.append(column.as_str());
                s.append(" for character ");
                s.append(decimal(*id as i64).as_str());
                s.append(": Query returned no rows");
                s
            },
            Error::EffectDice { expr, source, cause } => {
                let mut s = "roll effect dice_expr ".to_owned();
                s.append(quoted(expr.as_str()).as_str());
                s.append(" (source ");
                s.append(quoted(source.as_str()).as_str());
                s.append("): ");
                s.append(cause.as_str());
                s
            },
            Error::UnknownTargetKind { kind } => {
                let mut s = "unknown target_kind ".to_owned();
                s.append(quoted(kind.as_str()).as_str());
                s.append("; valid: [\"ability\", \"ac\", \"speed\", \"hp_max\", \"attack\", \"damage\", \"skill\", \"save\", \"misc\"]");
                s
            },
            Error::EffectNotFound { id } => {
                let mut s = "effect ".to_owned();
                s.append(decimal(*id as i64).as_str());
                s.append(" not found");
                s
            },
            Error::EffectInactive { id } => {
                let mut s = "effect ".to_owned();
                s.append(decimal(*id as i64).as_str());
                s.append(" is already inactive");
                s
            },
            Error::ProficiencyEmpty => "proficiency name must not be empty".to_owned(),
            Error::ProficiencyRow => {
                "upsert character_proficiencies: FOREIGN KEY constraint failed".to_owned()
            },
            Error::ResourceEmpty => "resource name must not be empty".to_owned(),
            Error::ResourceMax => "resource max must be >= 0".to_owned(),
            Error::ResourceCurrent { current, max } => {
                let mut s = "resource current (".to_owned();
                s.append(decimal(*current as i64).as_str());
                s.append(") must be within [0, ");
                s.append(decimal(*max as i64).as_str());
                s.append("]");
                s
            },
            Error::UnknownRecharge { recharge } => {
                let mut s = "unknown recharge ".to_owned();
                s.append(quoted(recharge.as_str()).as_str());
                s.append("; valid: [\"short_rest\", \"long_rest\", \"dawn\", \"never\", \"manual\"]");
                s
            },
            Error::ResourceRow => "upsert character_resources: FOREIGN KEY constraint failed".to_owned(),
            Error::ResourceNotFound { name, id } => {
                let mut s = "resource ".to_owned();
                s.append(quoted(name.as_str()).as_str());
                s.append(" not found on character ");
                s.append(decimal(*id as i64).as_str());
                s
            },
            Error::DeadCannotRest { id } => {
                let mut s = "character ".to_owned();
                s.append(decimal(*id as i64).as_str());
                s.append(" is dead and cannot rest");
                s
            },
            Error::UnknownRole { role } => {
                let mut s = "unknown role ".to_owned();
                s.append(quoted(role.as_str()).as_str());
                s.append("; valid: [\"player\", \"companion\", \"friendly\", \"enemy\", \"neutral\"]");
                s
            },
            Error::UnknownSize { size } => {
                let mut s = "unknown size ".to_owned();
                s.append(quoted(size.as_str()).as_str());
                s.append("; valid: [\"tiny\", \"small\", \"medium\", \"large\", \"huge\", \"gargantuan\"]");
                s
            },
            Error::ScoreBounds { label, value } => {
                let mut s = label.clone();
                s.append(" must be in 1..=30 (got ");
                s.append(decimal(*value as i64).as_str());
                s.append(")");
                s
            },
            Error::HpMaxBounds { value } => {
                let mut s = "hp_max must be in 1..=10_000 (got ".to_owned();
                s.append(decimal(*value as i64).as_str());
                s.append(")");
                s
            },
            Error::HpCurrentBounds { max, value } => {
                let mut s = "hp_current must be in 0..=hp_max (".to_owned();
                s.append(decimal(*max as i64).as_str());
                s.append(") (got ");
                s.append(decimal(*value as i64).as_str());
                s.append(")");
                s
            },
            Error::ArmorClassBounds { value } => {
                let mut s = "armor_class must be in 1..=50 (got ".to_owned();
                s.append(decimal(*value as i64).as_str());
                s.append(")");
                s
            },
            Error::SpeedBounds { value } => {
                let mut s = "speed_ft must be in 0..=1_000 (got ".to_owned();
                s.append(decimal(*value as i64).as_str());
                s.append(")");
                s
            },
            Error::InitiativeBounds { value } => {
                let mut s = "initiative_bonus must be in -20..=20 (got ".to_owned();
                s.append(decimal(*value as i64).as_str());
                s.append(")");
                s
            },
            Error::LoyaltyBounds { value } => {
                let mut s = "loyalty must be in 0..=100 (got ".to_owned();
                s.append(decimal(*value as i64).as_str());
                s.append(")");
                s
            },
            Error::CharacterRow => "insert characters row: FOREIGN KEY constraint failed".to_owned(),
            Error::StartingZone => {
                "seed character knowledge of starting zone: FOREIGN KEY constraint failed".to_owned()
            },
            Error::UnknownBaseKind { kind } => {
                let mut s = "unknown base_kind ".to_owned();
                s.append(quoted(kind.as_str()).as_str());
                s
            },
            Error::LocationCount { count } => {
                let mut s = "exactly one of holder_character_id, zone_location_id, container_item_id must be set (got ".to_owned();
                s.append(decimal(*count as i64).as_str());
                s.append(")");
                s
            },
            Error::QuantityLow { quantity } => {
                let mut s = "quantity must be >= 1 (got ".to_owned();
                s.append(decimal(*quantity as i64).as_str());
                s.append(")");
                s
            },
            Error::NotStackable { kind } => {
                let mut s = "base_kind ".to_owned();
                s.append(quoted(kind.as_str()).as_str());
                s.append(" is not stackable; quantity must be 1");
                s
            },
            Error::ItemRow => "insert items row: FOREIGN KEY constraint failed".to_owned(),
            Error::ItemNotFound { id } => {
                let mut s = "item ".to_owned();
                s.append(decimal(*id as i64).as_str());
                s.append(" not found: Query returned no rows");
                s
            },
            Error::ItemNotInZone { id, holder, container } => {
                let mut s = "item ".to_owned();
                s.append(decimal(*id as i64).as_str());
                s.append(" is not in a zone (holder=");
                s.append(say_opt(*holder).as_str());
                s.append(", container=");
                s.append(say_opt(*container).as_str());
                s.append(")");
                s
            },
            Error::WrongZone { item, zone, character, current } => {
                let mut s = "cannot pick up item ".to_owned();
                s.append(decimal(*item as i64).as_str());
                s.append(" (in zone ");
                s.append(decimal(*zone as i64).as_str());
                s.append(") from character ");
                s.append(decimal(*character as i64).as_str());
                s.append(" (current zone ");
                s.append(say_opt(*current).as_str());
                s.append(")");
                s
            },
            Error::NotHeld { item, character, holder } => {
                let mut s = "item ".to_owned();
                s.append(decimal(*item as i64).as_str());
                s.append(" is not held by character ");
                s.append(decimal(*character as i64).as_str());
                s.append(" (holder=");
                s.append(say_opt(*holder).as_str());
                s.append(")");
                s
            },
            Error::NowhereToDrop { id } => {
                let mut s = "character ".to_owned();
                s.append(decimal(*id as i64).as_str());
                s.append(" has no current_zone_id");
                s
            },
            Error::CannotEquip { item, character } => {
                let mut s = "cannot equip item ".to_owned();
                s.append(decimal(*item as i64).as_str());
                s.append(" — it is not held by character ");
                s.append(decimal(*character as i64).as_str());
                s
            },
            Error::SlotEmpty => "slot must be non-empty".to_owned(),
            Error::CannotUnequip { item, character } => {
                let mut s = "cannot unequip item ".to_owned();
                s.append(decimal(*item as i64).as_str());
                s.append(" — it is not held by character ");
                s.append(decimal(*character as i64).as_str());
                s
            },
            Error::DestinationCount { count } => {
                let mut s = "exactly one destination must be set (got ".to_owned();
                s.append(decimal(*count as i64).as_str());
                s.append(")");
                s
            },
            Error::IntoItself { id } => {
                let mut s = "cannot transfer item ".to_owned();
                s.append(decimal(*id as i64).as_str());
                s.append(" into itself");
                s
            },
            Error::NoDestinationCharacter { id } => {
                let mut s = "destination character ".to_owned();
                s.append(decimal(*id as i64).as_str());
                s.append(" does not exist");
                s
            },
            Error::NoDestinationContainer { id } => {
                let mut s = "destination container item ".to_owned();
                s.append(decimal(*id as i64).as_str());
                s.append(" does not exist");
                s
            },
            Error::NoDestinationZone { id } => {
                let mut s = "destination zone ".to_owned();
                s.append(decimal(*id as i64).as_str());
                s.append(" does not exist");
                s
            },
            Error::ContainerCycle { item, container } => {
                let mut s = "transferring item ".to_owned();
                s.append(decimal(*item as i64).as_str());
                s.append(" into container ");
                s.append(decimal(*container as i64).as_str());
                s.append(" would create a cycle (item is already an ancestor of the container)");
                s
            },
            Error::ContainerDepth { container } => {
                let mut s = "container chain depth from ".to_owned();
                s.append(decimal(*container as i64).as_str());
                s.append(" exceeds 32 — refusing to walk further (probable existing cycle in data)");
                s
            },
            Error::TransferOverload { id, would_be, capacity } => {
                let mut s = "transfer to character ".to_owned();
                s.append(decimal(*id as i64).as_str());
                s.append(" would overload them (");
                s.append(say_hundredths(*would_be).as_str());
                s.append(" lb carried of ");
                s.append(say_hundredths(*capacity).as_str());
                s.append(" capacity); use inventory.pickup or drop weight first");
                s
            },
            Error::XpBudget { value } => {
                let mut s = "encounter xp_budget must be >= 0 (got ".to_owned();
                s.append(decimal(*value as i64).as_str());
                s.append(")");
                s
            },
            Error::UnknownSide { id, side } => {
                let mut s = "participant ".to_owned();
                s.append(decimal(*id as i64).as_str());
                s.append(" has unknown side ");
                s.append(quoted(side.as_str()).as_str());
                s.append("; valid: [\"player_side\", \"hostile\", \"neutral\", \"ally\"]");
                s
            },
            Error::EncounterRow => "insert encounters row: FOREIGN KEY constraint failed".to_owned(),
            Error::EncounterParticipantRow { encounter_id, character_id, side, fault } => {
                let mut s = "insert encounter_participants (enc=".to_owned();
                s.append(decimal(*encounter_id as i64).as_str());
                s.append(", char=");
                s.append(decimal(*character_id as i64).as_str());
                s.append(", side=");
                s.append(quoted(side.as_str()).as_str());
                s.append("): ");
                s.append(
                    fault.words(
                        "side IN\n                               ('player_side','hostile','neutral','ally')",
                        "encounter_participants.encounter_id, encounter_participants.character_id",
                    ).as_str(),
                );
                s
            },
            Error::CannotComplete { id, status } => {
                let mut s = "encounter ".to_owned();
                s.append(decimal(*id as i64).as_str());
                s.append(" is not active (currently ");
                s.append(quoted(status.as_str()).as_str());
                s.append(") — cannot complete");
                s
            },
            Error::EncounterNotActive { id, status } => {
                let mut s = "encounter ".to_owned();
                s.append(decimal(*id as i64).as_str());
                s.append(" is not active (currently ");
                s.append(quoted(status.as_str()).as_str());
                s.append(")");
                s
            },
            Error::BarterEmpty => "barter.exchange requires at least one item on either side".to_owned(),
            Error::BarterSelf => "cannot barter with oneself".to_owned(),
            Error::ItemKindUnknown { item, kind } => {
                let mut s = "item ".to_owned();
                s.append(decimal(*item as i64).as_str());
                s.append(" has unknown base_kind ");
                s.append(quoted(kind.as_str()).as_str());
                s
            },
            Error::BarterOffered { item } => {
                let mut s = "move offered item ".to_owned();
                s.append(decimal(*item as i64).as_str());
                s.append(": FOREIGN KEY constraint failed");
                s
            },
            Error::BarterRequested { item } => {
                let mut s = "move requested item ".to_owned();
                s.append(decimal(*item as i64).as_str());
                s.append(": FOREIGN KEY constraint failed");
                s
            },
            Error::BarterCheck { cause } => {
                let mut s = "resolve persuasion check for barter: ".to_owned();
                s.append(cause.as_str());
                s
            },
            Error::NoCurrentZone { id } => {
                let mut s = "character ".to_owned();
                s.append(decimal(*id as i64).as_str());
                s.append(" has no current_zone_id set");
                s
            },
            Error::AlreadyThere { id, zone } => {
                let mut s = "character ".to_owned();
                s.append(decimal(*id as i64).as_str());
                s.append(" is already in zone ");
                s.append(decimal(*zone as i64).as_str());
                s
            },
            Error::NoWay { from, to } => {
                let mut s = "no zone_connection from zone ".to_owned();
                s.append(decimal(*from as i64).as_str());
                s.append(" to zone ");
                s.append(decimal(*to as i64).as_str());
                s.append(" exists; can't travel");
                s
            },
            Error::LostHere { id, zone } => {
                let mut s = "character ".to_owned();
                s.append(decimal(*id as i64).as_str());
                s.append(" has no knowledge of their current zone ");
                s.append(decimal(*zone as i64).as_str());
                s.append(" (data inconsistency — character.create / world.travel should have seeded this)");
                s
            },
            Error::ZoneUnknown { id, zone } => {
                let mut s = "character ".to_owned();
                s.append(decimal(*id as i64).as_str());
                s.append(" has no knowledge of zone ");
                s.append(decimal(*zone as i64).as_str());
                s.append(" (not even rumored)");
                s
            },
            Error::NotNew { phase } => {
                let mut s = "campaign is in phase ".to_owned();
                s.append(quoted(phase.as_str()).as_str());
                s.append(", not 'setup'; new_campaign should only run before mark_ready");
                s
            },
            Error::TooLateToAnswer { phase } => {
                let mut s = "cannot record an answer once the campaign has left 'setup' (currently ".to_owned();
                s.append(quoted(phase.as_str()).as_str());
                s.append(")");
                s
            },
            Error::UnknownQuestion { question, valid } => {
                let mut s = "unknown question_id ".to_owned();
                s.append(quoted(question.as_str()).as_str());
                s.append("; valid: ");
                s.append(valid.as_str());
                s
            },
            Error::TooLateToGenerate { phase } => {
                let mut s = "generate_world should run during the setup phase (current phase ".to_owned();
                s.append(quoted(phase.as_str()).as_str());
                s.append(")");
                s
            },
            Error::NoStartingBiome => "starting_biome answer not recorded".to_owned(),
            Error::AnswerNotJson { cause } => {
                let mut s = "decode campaign_setup_answers.answer JSON: ".to_owned();
                s.append(cause.as_str());
                s
            },
            Error::AlreadyReady { phase } => {
                let mut s = "mark_ready called twice — campaign is already in phase ".to_owned();
                s.append(quoted(phase.as_str()).as_str());
                s
            },
            Error::StateRow => "flip campaign_state to running: FOREIGN KEY constraint failed".to_owned(),
            Error::PatternTooLong => "collect recall rows: LIKE or GLOB pattern too complex".to_owned(),
            Error::UnknownArchetype { archetype } => {
                let mut s = "unknown archetype ".to_owned();
                s.append(quoted(archetype.as_str()).as_str());
                s
            },
            Error::UnknownNpcRole { role, archetype, given } => {
                let mut s = "role ".to_owned();
                s.append(quoted(role.as_str()).as_str());
                s.append(" is not one of [\"player\", \"companion\", \"friendly\", \"enemy\", \"neutral\"] (archetype=");
                s.append(quoted(archetype.as_str()).as_str());
                s.append(", role_override=");
                s.append(given.as_str());
                s.append(")");
                s
            },
            Error::NoSuchZone { id } => {
                let mut s = "zone_id ".to_owned();
                s.append(decimal(*id as i64).as_str());
                s.append(" does not exist");
                s
            },
            Error::HpMultiplier { formula, factor, fault } => {
                let mut s = "hp_formula ".to_owned();
                s.append(quoted(formula.as_str()).as_str());
                s.append(": con_mod multiplier ");
                s.append(quoted(factor.as_str()).as_str());
                s.append(": ");
                s.append(fault.as_str());
                s
            },
            Error::HpConMod { formula, term } => {
                let mut s = "hp_formula ".to_owned();
                s.append(quoted(formula.as_str()).as_str());
                s.append(": unrecognised con_mod form ");
                s.append(quoted(term.as_str()).as_str());
                s
            },
            Error::HpConstant { formula, term, fault } => {
                let mut s = "hp_formula ".to_owned();
                s.append(quoted(formula.as_str()).as_str());
                s.append(": hp constant ");
                s.append(quoted(term.as_str()).as_str());
                s.append(": ");
                s.append(fault.as_str());
                s
            },
            Error::HpDice { formula, cause } => {
                let mut s = "hp_formula ".to_owned();
                s.append(quoted(formula.as_str()).as_str());
                s.append(": ");
                s.append(cause.as_str());
                s
            },
            Error::SettingNumber { key, value, fault } => {
                let mut s = "failed to parse ".to_owned();
                s.append(key.as_str());
                s.append("=");
                s.append(value.as_str());
                s.append(": parse error: ");
                s.append(fault.as_str());
                s
            },
            Error::SettingJournal { value } => {
                let mut s = "failed to parse DMMCP_DB_JOURNAL_MODE=".to_owned();
                s.append(value.as_str());
                s.append(": unsupported SQLite journal_mode ");
                s.append(quoted(value.as_str()).as_str());
                s.append("; expected one of DELETE, TRUNCATE, PERSIST, MEMORY, WAL, OFF");
                s
            },
            Error::SettingSynchronous { value } => {
                let mut s = "failed to parse DMMCP_DB_SYNCHRONOUS=".to_owned();
                s.append(value.as_str());
                s.append(": unsupported SQLite synchronous mode ");
                s.append(quoted(value.as_str()).as_str());
                s.append("; expected one of OFF, NORMAL, FULL, EXTRA");
                s
            },
            Error::SettingLevel { value, level } => {
                let mut s = "failed to parse DMMCP_LOG_LEVEL=".to_owned();
                s.append(value.as_str());
                s.append(": unknown level ");
                s.append(quoted(level.as_str()).as_str());
                s.append("; expected one of [\"trace\", \"debug\", \"info\", \"warn\", \"error\", \"off\"] or a per-target directive like `dm_mcp=debug,warn`");
                s
            },
            Error::SettingFilter { value, cause } => {
                let mut s = "failed to parse DMMCP_LOG_LEVEL=".to_owned();
                s.append(value.as_str());
                s.append(": invalid tracing filter directive: ");
                s.append(cause.as_str());
                s
            },
            Error::SlotWithoutPool { archetype, slot } => {
                let mut s = "archetype ".to_owned();
                s.append(quoted(archetype.as_str()).as_str());
                s.append(" has a backstory hook with slot ");
                s.append(quoted(slot.as_str()).as_str());
                s.append(" and no slot pool for it");
                s
            },
        }
    }
}

} // verus!
