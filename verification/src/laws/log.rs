//! Laws of the log: what an entry says, and what is recalled of it.

use vstd::prelude::*;
use crate::campaign::{byte_len, lemma_push, lemma_tables, listed, World};
use crate::events::{emit_refusal, law_summary_is_capped, spec_entry, EventSpec};
use crate::recall::{
    is_memory, kind_matches, law_newest_comes_first, law_recall_forgets_nothing, law_recall_makes_nothing_up,
    lemma_cut, like, memories, newest_first, pattern_of, recalled, recalls, recollection, visible, RecallParams,
    RecalledEvent,
};
use crate::rows::{views, EventRole, EventView};
use crate::text::lower_char;

verus! {

/// A new entry comes after all others, under an id of its own, and says what it was to say; a
/// summary that is not too long stands as it is.
pub proof fn law_entries_are_kept_as_written(w: World, e: EventView, i: int)
    requires
        w.wf(),
        w.room(),
    ensures
        ({
            let v = w.with_event(e);
            let x = v.events.last();
            &&& v.events == w.events.push(x)
            &&& !listed(w.events, x.id)
            &&& 0 <= i < w.events.len() ==> w.events[i].id < x.id
            &&& x.kind == e.kind
            &&& x.campaign_hour == e.campaign_hour
            &&& x.combat_round == e.combat_round
            &&& x.zone_id == e.zone_id
            &&& x.encounter_id == e.encounter_id
            &&& x.parent_id == e.parent_id
            &&& x.payload == e.payload
            &&& x.participants == e.participants
            &&& x.items == e.items
            &&& byte_len(e.summary) <= crate::campaign::MAX_SUMMARY_BYTES ==> x.summary == e.summary
            &&& v == (World { events: v.events, ..w })
        }),
{
    lemma_tables(w);
    law_summary_is_capped(e.summary);
    let x = w.with_event(e).events.last();
    lemma_push(w.events, x);
    if 0 <= i < w.events.len() {
        assert(w.events.last().id >= w.events[i].id) by {
            if i < w.events.len() - 1 {
                let last = w.events.len() - 1;
                assert(w.events[i].id < w.events[last].id);
            }
        }
    }
}

/// An entry that is asked for has just those participants and items, in their roles, and refers
/// only to what there is.
pub proof fn law_entries_are_written_as_asked_for(w: World, spec: EventSpec, i: int)
    requires
        emit_refusal(w, spec) is None,
    ensures
        ({
            let e = spec_entry(spec);
            &&& e.kind == spec.kind@
            &&& e.campaign_hour == spec.campaign_hour
            &&& e.combat_round == spec.combat_round
            &&& e.zone_id == spec.zone_id
            &&& e.encounter_id == spec.encounter_id
            &&& e.parent_id == spec.parent_id
            &&& e.summary == spec.summary@
            &&& e.payload == views(spec.payload@)
            &&& e.participants.len() == spec.participants@.len()
            &&& e.items.len() == spec.items@.len()
            &&& 0 <= i < spec.participants@.len() ==> {
                &&& e.participants[i].character_id == spec.participants@[i].character_id
                &&& e.participants[i].role.text() == spec.participants@[i].role@
                &&& listed(w.characters, e.participants[i].character_id)
            }
            &&& 0 <= i < spec.items@.len() ==> {
                &&& e.items[i].item_id == spec.items@[i].item_id
                &&& e.items[i].role == spec.items@[i].role@
                &&& listed(w.items, e.items[i].item_id)
            }
            &&& e.encounter_id matches Some(n) ==> listed(w.encounters, n)
            &&& e.parent_id matches Some(n) ==> listed(w.events, n)
            &&& e.zone_id matches Some(n) ==> listed(w.zones, n)
        }),
{
    if 0 <= i < spec.participants@.len() {
        lemma_participant(w, spec.participants@, spec.participants@.len(), i);
        (EventRole::of_text(spec.participants@[i].role@)->0).lemma_text();
    }
    if 0 <= i < spec.items@.len() {
        lemma_item_ref(w, spec.items@, spec.items@.len(), i);
    }
}

proof fn lemma_participant(w: World, ps: Seq<crate::events::Participant>, n: nat, i: int)
    requires
        0 <= i < n <= ps.len(),
        crate::events::participants_refusal(w, ps, n) is None,
    ensures
        crate::events::participant_fault(w, ps, i) is None,
    decreases n,
{
    if i < n - 1 {
        lemma_participant(w, ps, (n - 1) as nat, i);
    }
}

proof fn lemma_item_ref(w: World, its: Seq<crate::events::ItemRef>, n: nat, i: int)
    requires
        0 <= i < n <= its.len(),
        crate::events::items_refusal(w, its, n) is None,
    ensures
        crate::events::item_fault(w, its, i) is None,
    decreases n,
{
    if i < n - 1 {
        lemma_item_ref(w, its, (n - 1) as nat, i);
    }
}

// ── Recall ──

/// Whether the entry is one that the character took part in, in place `j`, and is as was asked.
pub open spec fn asked_for(p: RecallParams, e: EventView, j: int) -> bool {
    &&& 0 <= j < e.participants.len()
    &&& e.participants[j].character_id == p.character_id
    &&& p.zone_id is Some ==> e.zone_id == p.zone_id
    &&& p.other_character_id is Some ==> exists|i: int|
        0 <= i < e.participants.len() && (#[trigger] e.participants[i]).character_id == p.other_character_id->0
    &&& p.other_item_id is Some ==> exists|i: int|
        0 <= i < e.items.len() && (#[trigger] e.items[i]).item_id == p.other_item_id->0
    &&& p.since_hour is Some ==> e.campaign_hour >= p.since_hour->0
    &&& p.kind_prefix is Some ==> kind_matches(p.kind_prefix->0@, e.kind)
}

/// Whether what is recalled is the entry, with the part that the character had in place `j`.
pub open spec fn is_entry(x: RecalledEvent<Seq<char>>, e: EventView, j: int) -> bool {
    &&& x.event_id == e.id
    &&& x.kind == e.kind
    &&& x.campaign_hour == e.campaign_hour
    &&& x.combat_round == e.combat_round
    &&& x.zone_id == e.zone_id
    &&& x.encounter_id == e.encounter_id
    &&& x.summary == e.summary
    &&& x.role == e.participants[j].role.text()
}

/// What is recalled is an entry that was asked for, as it stands in the log, and later ones come
/// before earlier ones.
pub proof fn law_recalled_is_what_was_asked_for(w: World, p: RecallParams, k: int, m: int)
    requires
        0 <= k < recalled(w, p).len(),
    ensures
        exists|i: int, j: int|
            0 <= i < w.events.len() && #[trigger] asked_for(p, w.events[i], j) && is_entry(
                recalled(w, p)[k],
                w.events[i],
                j,
            ),
        k < m < recalled(w, p).len() ==> {
            let a = recalled(w, p)[k];
            let b = recalled(w, p)[m];
            a.campaign_hour > b.campaign_hour || (a.campaign_hour == b.campaign_hour && a.event_id >= b.event_id)
        },
{
    law_recall_makes_nothing_up(w, p, k);
    let x = recalled(w, p)[k];
    assert(is_memory(p, w.events, x));
    let (i, j) = choose|i: int, j: int| recalls(p, w.events, x, i, j);
    assert(asked_for(p, w.events[i], j) && is_entry(x, w.events[i], j));
    let rows = memories(p, w.events);
    law_newest_comes_first(rows);
    if k < m < recalled(w, p).len() {
        assert(!crate::recall::fresher(newest_first(rows)[m], newest_first(rows)[k]));
    }
}

/// Up to the limit, all that was asked for is recalled. The limit is 50 unless one is given, and
/// never below 1 nor above 500.
pub proof fn law_all_is_recalled_up_to_the_limit(w: World, p: RecallParams, i: int, j: int)
    requires
        0 <= i < w.events.len(),
        asked_for(p, w.events[i], j),
    ensures
        ({
            let found = recalled(w, p);
            let most = if p.limit is None {
                50int
            } else if p.limit->0 < 1 {
                1
            } else if p.limit->0 > 500 {
                500
            } else {
                p.limit->0 as int
            };
            &&& found.len() <= most
            &&& found.len() < most ==> exists|k: int|
                0 <= k < found.len() && is_entry(#[trigger] found[k], w.events[i], j)
        }),
{
    let x = recollection(w.events[i], w.events[i].participants[j].role);
    assert(recalls(p, w.events, x, i, j));
    law_recall_forgets_nothing(w, p, x, i, j);
    if recalled(w, p).contains(x) {
        let k = choose|k: int| 0 <= k < recalled(w, p).len() && recalled(w, p)[k] == x;
        assert(is_entry(recalled(w, p)[k], w.events[i], j));
    }
}

proof fn lemma_alike(pattern: Seq<char>, text: Seq<char>, n: int, i: int)
    requires
        0 <= i <= n <= pattern.len(),
        forall|j: int| 0 <= j < n ==> #[trigger] pattern[j] != '%' && pattern[j] != '_',
        like(pattern, i, text, i),
    ensures
        n <= text.len() || i == n,
        forall|j: int| i <= j < n ==> lower_char(#[trigger] pattern[j]) == lower_char(text[j]),
    decreases n - i,
{
    if i < n {
        assert(pattern[i] != '%' && pattern[i] != '_');
        lemma_alike(pattern, text, n, i + 1);
    }
}

/// What is recalled by the beginning of its kind has a kind that begins so, capitals or not.
pub proof fn law_kind_has_to_begin_so(prefix: Seq<char>, kind: Seq<char>, i: int)
    requires
        forall|j: int|
            0 <= j < prefix.len() ==> #[trigger] prefix[j] != '%' && prefix[j] != '_' && prefix[j] != '\0',
        kind_matches(prefix, kind),
        0 <= i < prefix.len(),
    ensures
        prefix.len() <= kind.len(),
        lower_char(prefix[i]) == lower_char(kind[i]),
{
    reveal_strlit("%");
    let pattern = pattern_of(prefix);
    lemma_cut(pattern, 0);
    lemma_cut(kind, 0);
    assert forall|j: int| 0 <= j < pattern.len() implies #[trigger] pattern[j] != '\0' by {
        if j < prefix.len() {
            assert(pattern[j] == prefix[j]);
        }
    }
    assert(visible(pattern) =~= pattern);
    assert forall|j: int| 0 <= j < prefix.len() implies #[trigger] pattern[j] != '%' && pattern[j] != '_' by {
        assert(pattern[j] == prefix[j]);
    }
    lemma_alike(pattern, visible(kind), prefix.len() as int, 0);
    assert(pattern[i] == prefix[i]);
    assert(visible(kind)[i] == kind[i]);
}

} // verus!
