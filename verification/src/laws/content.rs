//! Laws of the content: entries are found by their id, the first one where an id occurs twice.

use vstd::prelude::*;
use crate::content::{
    base_at, condition_at, open_archetype, open_hook, rider_at, skill_at, stray_skill, Ability, Archetype,
    BaseItem, CheckKind, ConditionRule, Content, Rider, Skill, SlotPool,
};
use crate::templates::uncovered;
use crate::text::texts;

verus! {

proof fn lemma_base(bases: Seq<BaseItem>, id: Seq<char>, n: nat)
    requires
        n <= bases.len(),
    ensures
        match base_at(bases, id, n) {
            Some(k) => 0 <= k < n && bases[k].id@ == id && forall|i: int|
                0 <= i < k ==> (#[trigger] bases[i]).id@ != id,
            None => forall|i: int| 0 <= i < n ==> (#[trigger] bases[i]).id@ != id,
        },
    decreases n,
{
    if n > 0 {
        lemma_base(bases, id, (n - 1) as nat);
    }
}

proof fn lemma_skill(skills: Seq<Skill>, id: Seq<char>, n: nat)
    requires
        n <= skills.len(),
    ensures
        match skill_at(skills, id, n) {
            Some(k) => 0 <= k < n && skills[k].id@ == id && forall|i: int|
                0 <= i < k ==> (#[trigger] skills[i]).id@ != id,
            None => forall|i: int| 0 <= i < n ==> (#[trigger] skills[i]).id@ != id,
        },
    decreases n,
{
    if n > 0 {
        lemma_skill(skills, id, (n - 1) as nat);
    }
}

proof fn lemma_rule(rules: Seq<ConditionRule>, id: Seq<char>, n: nat)
    requires
        n <= rules.len(),
    ensures
        match condition_at(rules, id, n) {
            Some(k) => 0 <= k < n && rules[k].id@ == id && forall|i: int|
                0 <= i < k ==> (#[trigger] rules[i]).id@ != id,
            None => forall|i: int| 0 <= i < n ==> (#[trigger] rules[i]).id@ != id,
        },
    decreases n,
{
    if n > 0 {
        lemma_rule(rules, id, (n - 1) as nat);
    }
}

proof fn lemma_rider(riders: Seq<Rider>, kind: CheckKind, n: nat)
    requires
        n <= riders.len(),
    ensures
        match rider_at(riders, kind, n) {
            Some(m) => exists|k: int|
                0 <= k < n && (#[trigger] riders[k]).kind == kind && riders[k].modifier == m && forall|i: int|
                    0 <= i < k ==> (#[trigger] riders[i]).kind != kind,
            None => forall|i: int| 0 <= i < n ==> (#[trigger] riders[i]).kind != kind,
        },
    decreases n,
{
    if n > 0 {
        lemma_rider(riders, kind, (n - 1) as nat);
        if rider_at(riders, kind, (n - 1) as nat) is None && riders[n - 1].kind == kind {
            assert(riders[n - 1].modifier == rider_at(riders, kind, n)->0);
        }
    }
}

/// A kind of item and a skill are found by their id, and only if there is one with that id.
pub proof fn law_entries_are_found_by_id(content: Content, id: Seq<char>)
    ensures
        content.base(id) matches Some(k) ==> 0 <= k < content.item_bases@.len() && content.item_bases@[k].id@ == id
            && forall|i: int| 0 <= i < k ==> (#[trigger] content.item_bases@[i]).id@ != id,
        content.base(id) is None ==> forall|i: int|
            0 <= i < content.item_bases@.len() ==> (#[trigger] content.item_bases@[i]).id@ != id,
        content.skill(id) matches Some(k) ==> 0 <= k < content.skills@.len() && content.skills@[k].id@ == id
            && forall|i: int| 0 <= i < k ==> (#[trigger] content.skills@[i]).id@ != id,
        content.skill(id) is None ==> forall|i: int|
            0 <= i < content.skills@.len() ==> (#[trigger] content.skills@[i]).id@ != id,
{
    lemma_base(content.item_bases@, id, content.item_bases@.len());
    lemma_skill(content.skills@, id, content.skills@.len());
}

/// What a condition does to rolls of a kind is what its rule says of that kind, and the checks
/// that fail under it are those that its rule lists.
pub proof fn law_conditions_act_by_their_rule(
    content: Content,
    condition: Seq<char>,
    kind: CheckKind,
    key: Seq<char>,
    k: int,
    i: int,
)
    requires
        0 <= k < content.conditions@.len(),
        content.conditions@[k].id@ == condition,
        forall|j: int| 0 <= j < k ==> (#[trigger] content.conditions@[j]).id@ != condition,
        0 <= i <= content.conditions@[k].riders@.len(),
        forall|j: int| 0 <= j < i ==> (#[trigger] content.conditions@[k].riders@[j]).kind != kind,
    ensures
        i < content.conditions@[k].riders@.len() && content.conditions@[k].riders@[i].kind == kind
            ==> content.self_rider(condition, kind) == Some(content.conditions@[k].riders@[i].modifier),
        i == content.conditions@[k].riders@.len() ==> content.self_rider(condition, kind) is None,
        content.auto_fails(condition, key) <==> exists|j: int|
            0 <= j < content.conditions@[k].auto_fail@.len() && (#[trigger] content.conditions@[k].auto_fail@[j])@
                == key,
{
    lemma_rule(content.conditions@, condition, content.conditions@.len());
    let rule = content.conditions@[k];
    lemma_rider(rule.riders@, kind, rule.riders@.len());
    if content.auto_fails(condition, key) {
        let j = choose|j: int| 0 <= j < texts(rule.auto_fail@).len() && texts(rule.auto_fail@)[j] == key;
        assert(rule.auto_fail@[j]@ == key);
    }
    if exists|j: int| 0 <= j < rule.auto_fail@.len() && (#[trigger] rule.auto_fail@[j])@ == key {
        let j = choose|j: int| 0 <= j < rule.auto_fail@.len() && (#[trigger] rule.auto_fail@[j])@ == key;
        assert(texts(rule.auto_fail@)[j] == key);
    }
}

/// A condition that the rules do not know does nothing.
pub proof fn law_unknown_conditions_do_nothing(
    content: Content,
    condition: Seq<char>,
    kind: CheckKind,
    key: Seq<char>,
)
    requires
        forall|j: int| 0 <= j < content.conditions@.len() ==> (#[trigger] content.conditions@[j]).id@ != condition,
    ensures
        content.self_rider(condition, kind) is None,
        !content.auto_fails(condition, key),
{
    lemma_rule(content.conditions@, condition, content.conditions@.len());
}

proof fn lemma_no_stray(skills: Seq<Skill>, abilities: Seq<Ability>, n: nat)
    requires
        n <= skills.len(),
        forall|i: int|
            0 <= i < n ==> exists|j: int|
                0 <= j < abilities.len() && (#[trigger] abilities[j]).id@ == (#[trigger] skills[i]).ability@,
    ensures
        stray_skill(skills, abilities, n) is None,
    decreases n,
{
    if n > 0 {
        lemma_no_stray(skills, abilities, (n - 1) as nat);
        let s = skills[n - 1];
    }
}

proof fn lemma_no_open_hook(hooks: Seq<String>, pools: Seq<SlotPool>, n: nat)
    requires
        n <= hooks.len(),
        forall|i: int| 0 <= i < n ==> uncovered((#[trigger] hooks[i])@, 0, pools) is None,
    ensures
        open_hook(hooks, pools, n) is None,
    decreases n,
{
    if n > 0 {
        lemma_no_open_hook(hooks, pools, (n - 1) as nat);
        assert(uncovered(hooks[n - 1]@, 0, pools) is None);
    }
}

/// Whether all hooks of the archetype can be filled.
pub open spec fn can_be_filled(a: Archetype) -> bool {
    forall|j: int|
        0 <= j < a.backstory_hooks@.len() ==> uncovered((#[trigger] a.backstory_hooks@[j])@, 0, a.slot_pools@)
            is None
}

proof fn lemma_no_open_archetype(list: Seq<Archetype>, n: nat)
    requires
        n <= list.len(),
        forall|i: int| 0 <= i < n ==> can_be_filled(#[trigger] list[i]),
    ensures
        open_archetype(list, n) is None,
    decreases n,
{
    if n > 0 {
        lemma_no_open_archetype(list, (n - 1) as nat);
        let a = list[n - 1];
        assert(can_be_filled(a));
        lemma_no_open_hook(a.backstory_hooks@, a.slot_pools@, a.backstory_hooks@.len());
    }
}

/// Content is taken where every skill goes by an ability that there is and every gap in a hook can
/// be filled.
pub proof fn law_sound_content_is_taken(content: Content)
    requires
        forall|i: int|
            0 <= i < content.skills@.len() ==> exists|j: int|
                0 <= j < content.abilities@.len() && (#[trigger] content.abilities@[j]).id@ == (
                #[trigger] content.skills@[i]).ability@,
        forall|i: int| 0 <= i < content.archetypes@.len() ==> can_be_filled(#[trigger] content.archetypes@[i]),
    ensures
        content.refusal() is None,
{
    lemma_no_stray(content.skills@, content.abilities@, content.skills@.len());
    lemma_no_open_archetype(content.archetypes@, content.archetypes@.len());
}

} // verus!
