//! The event log.
//!
//! Every operation that changes the campaign writes at least one entry. An entry is written
//! whole or not at all.

use vstd::prelude::*;
use crate::campaign::{
    byte_len, capped, char_bytes, find, fitting, fresh_id, lemma_push, lemma_wf, listed, next_id, top,
    Campaign, World, MAX_SUMMARY_BYTES,
};
use crate::error::{Error, Fault};
use crate::rows::{
    views, Cell, Event, EventItem, EventParticipant, EventRole, EventView, Field, FieldView, Leaf, Value,
    ValueView,
};
use crate::text::{chars, same};

verus! {

/// A character that takes part in an event, with its role: `actor`, `target`, `witness` or
/// `beneficiary`.
#[derive(Debug, Clone, Copy)]
pub struct Participant<'a> {
    pub character_id: i64,
    pub role: &'a str,
}

/// An item that an event is about, with its role.
#[derive(Debug, Clone, Copy)]
pub struct ItemRef<'a> {
    pub item_id: i64,
    pub role: &'a str,
}

/// An event to be written.
pub struct EventSpec<'a> {
    pub kind: &'a str,
    pub campaign_hour: i64,
    pub combat_round: Option<i32>,
    pub zone_id: Option<i64>,
    pub encounter_id: Option<i64>,
    pub parent_id: Option<i64>,
    pub summary: String,
    pub payload: Vec<Field>,
    pub participants: &'a [Participant<'a>],
    pub items: &'a [ItemRef<'a>],
}

/// The entry that was written.
#[derive(Debug, Clone, Copy, PartialEq, Eq)]
pub struct EmittedEvent {
    pub event_id: i64,
}

/// What is wrong with participant `i`, given those before it.
pub open spec fn participant_fault(w: World, ps: Seq<Participant>, i: int) -> Option<Fault> {
    if EventRole::of_text(ps[i].role@) is None {
        Some(Fault::Check)
    } else if exists|j: int|
        0 <= j < i && (#[trigger] ps[j]).character_id == ps[i].character_id && ps[j].role@ == ps[i].role@ {
        Some(Fault::Unique)
    } else if !listed(w.characters, ps[i].character_id) {
        Some(Fault::ForeignKey)
    } else {
        None
    }
}

/// The first refusal among the first `n` participants.
pub open spec fn participants_refusal(w: World, ps: Seq<Participant>, n: nat) -> Option<Error<Seq<char>>>
    decreases n,
{
    if n == 0 {
        None
    } else {
        match participants_refusal(w, ps, (n - 1) as nat) {
            Some(e) => Some(e),
            None => match participant_fault(w, ps, n - 1) {
                Some(fault) => Some(
                    Error::EventParticipantRow {
                        event_id: next_id(w.events),
                        character_id: ps[n - 1].character_id,
                        role: ps[n - 1].role@,
                        fault,
                    },
                ),
                None => None,
            },
        }
    }
}

/// What is wrong with item `i`, given those before it.
pub open spec fn item_fault(w: World, its: Seq<ItemRef>, i: int) -> Option<Fault> {
    if exists|j: int|
        0 <= j < i && (#[trigger] its[j]).item_id == its[i].item_id && its[j].role@ == its[i].role@ {
        Some(Fault::Unique)
    } else if !listed(w.items, its[i].item_id) {
        Some(Fault::ForeignKey)
    } else {
        None
    }
}

/// The first refusal among the first `n` items.
pub open spec fn items_refusal(w: World, its: Seq<ItemRef>, n: nat) -> Option<Error<Seq<char>>>
    decreases n,
{
    if n == 0 {
        None
    } else {
        match items_refusal(w, its, (n - 1) as nat) {
            Some(e) => Some(e),
            None => match item_fault(w, its, n - 1) {
                Some(fault) => Some(
                    Error::EventItemRow {
                        event_id: next_id(w.events),
                        item_id: its[n - 1].item_id,
                        role: its[n - 1].role@,
                        fault,
                    },
                ),
                None => None,
            },
        }
    }
}

/// Why the event cannot be written, where it cannot: it refers to something that does not
/// exist, a role is none, or a participant or an item comes twice in the same role.
pub open spec fn emit_refusal(w: World, spec: EventSpec) -> Option<Error<Seq<char>>> {
    if !w.zone_ref(spec.zone_id) || (spec.encounter_id matches Some(n) && !listed(w.encounters, n)) || (
    spec.parent_id matches Some(n) && !listed(w.events, n)) {
        Some(Error::EventRow)
    } else {
        match participants_refusal(w, spec.participants@, spec.participants@.len()) {
            Some(e) => Some(e),
            None => items_refusal(w, spec.items@, spec.items@.len()),
        }
    }
}

/// The entry that the event becomes, but for its id and the cap on its summary.
pub open spec fn spec_entry(spec: EventSpec) -> EventView {
    EventView {
        id: 0,
        kind: spec.kind@,
        campaign_hour: spec.campaign_hour,
        combat_round: spec.combat_round,
        zone_id: spec.zone_id,
        encounter_id: spec.encounter_id,
        parent_id: spec.parent_id,
        summary: spec.summary@,
        payload: views(spec.payload@),
        participants: Seq::new(
            spec.participants@.len(),
            |i: int|
                EventParticipant {
                    character_id: spec.participants@[i].character_id,
                    role: EventRole::of_text(spec.participants@[i].role@)->0,
                },
        ),
        items: Seq::new(
            spec.items@.len(),
            |i: int| EventItem { item_id: spec.items@[i].item_id, role: spec.items@[i].role@ },
        ),
    }
}

/// A named value of a payload.
pub open spec fn field_view(name: Seq<char>, value: ValueView) -> FieldView {
    FieldView { name, value }
}

/// An optional number in a payload.
pub open spec fn opt_int(n: Option<i64>) -> ValueView {
    match n {
        Some(v) => ValueView::Int(v as int),
        None => ValueView::Null,
    }
}

/// An optional small number in a payload.
pub open spec fn opt_int32(n: Option<i32>) -> ValueView {
    match n {
        Some(v) => ValueView::Int(v as int),
        None => ValueView::Null,
    }
}

/// An optional text in a payload.
pub open spec fn opt_str(s: Option<Seq<char>>) -> ValueView {
    match s {
        Some(t) => ValueView::Text(t),
        None => ValueView::Null,
    }
}

/// An entry without a place in combat, zone or encounter, and without items.
pub open spec fn entry_view(
    kind: Seq<char>,
    hour: i64,
    summary: Seq<char>,
    payload: Seq<FieldView>,
    participants: Seq<EventParticipant>,
) -> EventView {
    EventView {
        id: 0,
        kind,
        campaign_hour: hour,
        combat_round: None,
        zone_id: None,
        encounter_id: None,
        parent_id: None,
        summary,
        payload,
        participants,
        items: Seq::empty(),
    }
}

/// A number in a record.
pub open spec fn int_cell(name: Seq<char>, n: int) -> Cell<Seq<char>> {
    Cell { name, value: Leaf::Int(n as i64) }
}

/// A text in a record.
pub open spec fn text_cell(name: Seq<char>, s: Seq<char>) -> Cell<Seq<char>> {
    Cell { name, value: Leaf::Text(s) }
}

/// An optional text in a record.
pub open spec fn opt_text_cell(name: Seq<char>, s: Option<Seq<char>>) -> Cell<Seq<char>> {
    Cell {
        name,
        value: match s {
            Some(t) => Leaf::Text(t),
            None => Leaf::Null,
        },
    }
}

pub(crate) fn make_int_cell(name: &str, n: i64) -> (r: Cell)
    ensures
        r@ == int_cell(name@, n as int),
{
    Cell { name: name.to_owned(), value: Leaf::Int(n) }
}

pub(crate) fn make_text_cell(name: &str, s: &str) -> (r: Cell)
    ensures
        r@ == text_cell(name@, s@),
{
    Cell { name: name.to_owned(), value: Leaf::Text(s.to_owned()) }
}

pub(crate) fn make_opt_text_cell(name: &str, s: &Option<String>) -> (r: Cell)
    ensures
        r@ == opt_text_cell(name@, crate::text::opt_text(*s)),
{
    match s {
        Some(t) => Cell { name: name.to_owned(), value: Leaf::Text(t.clone()) },
        None => Cell { name: name.to_owned(), value: Leaf::Null },
    }
}

pub(crate) fn cells2(a: Cell, b: Cell) -> (r: Vec<Cell>)
    ensures
        views(r@) == seq![a@, b@],
{
    let ghost want = seq![a@, b@];
    let mut v: Vec<Cell> = Vec::new();
    v.push(a);
    v.push(b);
    assert(views(v@) =~= want);
    v
}

pub(crate) fn cells3(a: Cell, b: Cell, c: Cell) -> (r: Vec<Cell>)
    ensures
        views(r@) == seq![a@, b@, c@],
{
    let ghost want = seq![a@, b@, c@];
    let mut v: Vec<Cell> = Vec::new();
    v.push(a);
    v.push(b);
    v.push(c);
    assert(views(v@) =~= want);
    v
}

/// A named value of a payload.
pub(crate) fn field(name: &str, value: Value) -> (r: Field)
    ensures
        r@ == field_view(name@, value@),
{
    Field { name: name.to_owned(), value }
}

pub(crate) fn int_field(name: &str, n: i64) -> (r: Field)
    ensures
        r@ == field_view(name@, ValueView::Int(n as int)),
{
    field(name, Value::Int(n))
}

pub(crate) fn bool_field(name: &str, b: bool) -> (r: Field)
    ensures
        r@ == field_view(name@, ValueView::Bool(b)),
{
    field(name, Value::Bool(b))
}

pub(crate) fn text_field(name: &str, s: &str) -> (r: Field)
    ensures
        r@ == field_view(name@, ValueView::Text(s@)),
{
    field(name, Value::Text(s.to_owned()))
}

pub(crate) fn opt_int_field(name: &str, n: Option<i64>) -> (r: Field)
    ensures
        r@ == field_view(name@, opt_int(n)),
{
    match n {
        Some(v) => field(name, Value::Int(v)),
        None => field(name, Value::Null),
    }
}

pub(crate) fn opt_int32_field(name: &str, n: Option<i32>) -> (r: Field)
    ensures
        r@ == field_view(name@, opt_int32(n)),
{
    match n {
        Some(v) => field(name, Value::Int(v as i64)),
        None => field(name, Value::Null),
    }
}

pub(crate) fn opt_text_field(name: &str, s: &Option<String>) -> (r: Field)
    ensures
        r@ == field_view(name@, opt_str(crate::text::opt_text(*s))),
{
    match s {
        Some(t) => field(name, Value::Text(t.clone())),
        None => field(name, Value::Null),
    }
}

/// An entry without a place in combat, zone or encounter, and without items.
pub(crate) fn entry(
    kind: &str,
    hour: i64,
    summary: String,
    payload: Vec<Field>,
    participants: Vec<EventParticipant>,
) -> (r: Event)
    ensures
        r@ == entry_view(kind@, hour, summary@, views(payload@), participants@),
{
    let r = Event {
        id: 0,
        kind: kind.to_owned(),
        campaign_hour: hour,
        combat_round: None,
        zone_id: None,
        encounter_id: None,
        parent_id: None,
        summary,
        payload,
        participants,
        items: Vec::new(),
    };
    assert(r@ =~= entry_view(kind@, hour, summary@, views(payload@), participants@));
    r
}

pub(crate) fn nobody() -> (r: Vec<EventParticipant>)
    ensures
        r@ == Seq::<EventParticipant>::empty(),
{
    Vec::new()
}

/// A single participant.
pub open spec fn one(id: i64, role: EventRole) -> Seq<EventParticipant> {
    seq![EventParticipant { character_id: id, role }]
}

pub(crate) fn only(id: i64, role: EventRole) -> (r: Vec<EventParticipant>)
    ensures
        r@ == one(id, role),
{
    let mut v: Vec<EventParticipant> = Vec::new();
    v.push(EventParticipant { character_id: id, role });
    assert(v@ =~= one(id, role));
    v
}

/// Two participants.
pub open spec fn pair(a: i64, ra: EventRole, b: i64, rb: EventRole) -> Seq<EventParticipant> {
    seq![EventParticipant { character_id: a, role: ra }, EventParticipant { character_id: b, role: rb }]
}

pub(crate) fn both(a: i64, ra: EventRole, b: i64, rb: EventRole) -> (r: Vec<EventParticipant>)
    ensures
        r@ == pair(a, ra, b, rb),
{
    let mut v: Vec<EventParticipant> = Vec::new();
    v.push(EventParticipant { character_id: a, role: ra });
    v.push(EventParticipant { character_id: b, role: rb });
    assert(v@ =~= pair(a, ra, b, rb));
    v
}

pub(crate) fn fields1(a: Field) -> (r: Vec<Field>)
    ensures
        views(r@) == seq![a@],
{
    let ghost want = seq![a@];
    let mut v: Vec<Field> = Vec::new();
    v.push(a);
    assert(views(v@) =~= want);
    v
}

pub(crate) fn fields2(a: Field, b: Field) -> (r: Vec<Field>)
    ensures
        views(r@) == seq![a@, b@],
{
    let ghost want = seq![a@, b@];
    let mut v: Vec<Field> = Vec::new();
    v.push(a);
    v.push(b);
    assert(views(v@) =~= want);
    v
}

pub(crate) fn fields3(a: Field, b: Field, c: Field) -> (r: Vec<Field>)
    ensures
        views(r@) == seq![a@, b@, c@],
{
    let ghost want = seq![a@, b@, c@];
    let mut v: Vec<Field> = Vec::new();
    v.push(a);
    v.push(b);
    v.push(c);
    assert(views(v@) =~= want);
    v
}

pub(crate) fn fields4(a: Field, b: Field, c: Field, d: Field) -> (r: Vec<Field>)
    ensures
        views(r@) == seq![a@, b@, c@, d@],
{
    let ghost want = seq![a@, b@, c@, d@];
    let mut v: Vec<Field> = Vec::new();
    v.push(a);
    v.push(b);
    v.push(c);
    v.push(d);
    assert(views(v@) =~= want);
    v
}

pub(crate) fn fields5(a: Field, b: Field, c: Field, d: Field, e: Field) -> (r: Vec<Field>)
    ensures
        views(r@) == seq![a@, b@, c@, d@, e@],
{
    let ghost want = seq![a@, b@, c@, d@, e@];
    let mut v: Vec<Field> = Vec::new();
    v.push(a);
    v.push(b);
    v.push(c);
    v.push(d);
    v.push(e);
    assert(views(v@) =~= want);
    v
}

pub(crate) fn fields6(a: Field, b: Field, c: Field, d: Field, e: Field, f: Field) -> (r: Vec<Field>)
    ensures
        views(r@) == seq![a@, b@, c@, d@, e@, f@],
{
    let ghost want = seq![a@, b@, c@, d@, e@, f@];
    let mut v: Vec<Field> = Vec::new();
    v.push(a);
    v.push(b);
    v.push(c);
    v.push(d);
    v.push(e);
    v.push(f);
    assert(views(v@) =~= want);
    v
}

pub(crate) fn fields7(a: Field, b: Field, c: Field, d: Field, e: Field, f: Field, g: Field) -> (r: Vec<Field>)
    ensures
        views(r@) == seq![a@, b@, c@, d@, e@, f@, g@],
{
    let ghost want = seq![a@, b@, c@, d@, e@, f@, g@];
    let mut v: Vec<Field> = Vec::new();
    v.push(a);
    v.push(b);
    v.push(c);
    v.push(d);
    v.push(e);
    v.push(f);
    v.push(g);
    assert(views(v@) =~= want);
    v
}

pub(crate) fn fields8(
    a: Field,
    b: Field,
    c: Field,
    d: Field,
    e: Field,
    f: Field,
    g: Field,
    h: Field,
) -> (r: Vec<Field>)
    ensures
        views(r@) == seq![a@, b@, c@, d@, e@, f@, g@, h@],
{
    let ghost want = seq![a@, b@, c@, d@, e@, f@, g@, h@];
    let mut v: Vec<Field> = Vec::new();
    v.push(a);
    v.push(b);
    v.push(c);
    v.push(d);
    v.push(e);
    v.push(f);
    v.push(g);
    v.push(h);
    assert(views(v@) =~= want);
    v
}

pub(crate) fn fields9(
    a: Field,
    b: Field,
    c: Field,
    d: Field,
    e: Field,
    f: Field,
    g: Field,
    h: Field,
    i: Field,
) -> (r: Vec<Field>)
    ensures
        views(r@) == seq![a@, b@, c@, d@, e@, f@, g@, h@, i@],
{
    let ghost want = seq![a@, b@, c@, d@, e@, f@, g@, h@, i@];
    let mut v: Vec<Field> = Vec::new();
    v.push(a);
    v.push(b);
    v.push(c);
    v.push(d);
    v.push(e);
    v.push(f);
    v.push(g);
    v.push(h);
    v.push(i);
    assert(views(v@) =~= want);
    v
}

pub(crate) fn fields10(
    a: Field,
    b: Field,
    c: Field,
    d: Field,
    e: Field,
    f: Field,
    g: Field,
    h: Field,
    i: Field,
    j: Field,
) -> (r: Vec<Field>)
    ensures
        views(r@) == seq![a@, b@, c@, d@, e@, f@, g@, h@, i@, j@],
{
    let ghost want = seq![a@, b@, c@, d@, e@, f@, g@, h@, i@, j@];
    let mut v: Vec<Field> = Vec::new();
    v.push(a);
    v.push(b);
    v.push(c);
    v.push(d);
    v.push(e);
    v.push(f);
    v.push(g);
    v.push(h);
    v.push(i);
    v.push(j);
    assert(views(v@) =~= want);
    v
}

/// The fields of `a` and then those of `b`.
pub(crate) fn join_fields(a: Vec<Field>, b: Vec<Field>) -> (r: Vec<Field>)
    ensures
        views(r@) == views(a@) + views(b@),
{
    let ghost want = views(a@) + views(b@);
    let mut v = a;
    let mut w = b;
    v.append(&mut w);
    assert(views(v@) =~= want);
    v
}

/// How many bytes a character takes in UTF-8.
pub(crate) fn width(c: char) -> (r: usize)
    ensures
        r == char_bytes(c),
        1 <= r <= 4,
{
    let n: u32 = c as u32;
    if n < 0x80 {
        1
    } else if n < 0x800 {
        2
    } else if n < 0x10000 {
        3
    } else {
        4
    }
}

/// One character more is as many bytes more as it takes.
pub(crate) proof fn lemma_byte_len_next(s: Seq<char>, i: int)
    requires
        0 <= i < s.len(),
    ensures
        byte_len(s.take(i + 1)) == byte_len(s.take(i)) + char_bytes(s[i]),
{
    lemma_byte_len_split(s.take(i + 1), i);
    assert(s.take(i + 1).take(i) =~= s.take(i));
    let last = s.take(i + 1).skip(i);
    assert(last.len() == 1 && last[0] == s[i]);
    assert(last.skip(1).len() == 0);
    assert(byte_len(last) == char_bytes(s[i]) + byte_len(last.skip(1)));
}

/// A text has as many bytes as its two parts together.
pub(crate) proof fn lemma_byte_len_split(s: Seq<char>, i: int)
    requires
        0 <= i <= s.len(),
    ensures
        byte_len(s) == byte_len(s.take(i)) + byte_len(s.skip(i)),
    decreases i,
{
    if i == 0 {
        assert(s.skip(0) =~= s);
    } else {
        lemma_byte_len_split(s.skip(1), i - 1);
        assert(s.take(i).skip(1) =~= s.skip(1).take(i - 1));
        assert(s.skip(1).skip(i - 1) =~= s.skip(i));
    }
}

/// What fits does fit, and no more than there is.
proof fn lemma_fitting(s: Seq<char>, n: int)
    ensures
        fitting(s, n) <= s.len(),
        n >= 0 ==> byte_len(s.take(fitting(s, n) as int)) <= n,
        fitting(s, n) < s.len() ==> byte_len(s.take(fitting(s, n) as int)) + char_bytes(
            s[fitting(s, n) as int],
        ) > n,
    decreases s.len(),
{
    let k = fitting(s, n);
    if s.len() == 0 || char_bytes(s[0]) > n {
        assert(s.take(0).len() == 0);
    } else {
        let t = s.skip(1);
        lemma_fitting(t, n - char_bytes(s[0]));
        assert(s.take(k as int).skip(1) =~= t.take(k - 1));
    }
}

/// An entry's summary takes at most [`MAX_SUMMARY_BYTES`] bytes, is unchanged where it fits,
/// and is otherwise the longest beginning that fits before the ellipsis.
pub proof fn law_summary_is_capped(s: Seq<char>)
    ensures
        byte_len(capped(s)) <= MAX_SUMMARY_BYTES,
        byte_len(s) <= MAX_SUMMARY_BYTES ==> capped(s) == s,
        byte_len(s) > MAX_SUMMARY_BYTES ==> exists|k: int|
            #![trigger s.take(k)]
            0 <= k < s.len() && capped(s) == s.take(k) + "…"@ && byte_len(s.take(k))
                <= MAX_SUMMARY_BYTES - 3 < byte_len(s.take(k + 1)),
{
    if byte_len(s) > MAX_SUMMARY_BYTES {
        let k = fitting(s, MAX_SUMMARY_BYTES - 3) as int;
        lemma_fitting(s, MAX_SUMMARY_BYTES - 3);
        if k == s.len() {
            assert(s.take(k) =~= s);
        }
        assert(k < s.len());
        reveal_strlit("…");
        let e = "…"@;
        assert(e.len() == 1);
        assert(e[0] == '…');
        assert(char_bytes('…') == 3);
        lemma_byte_len_split(s.take(k) + e, k);
        assert((s.take(k) + e).take(k) =~= s.take(k));
        assert((s.take(k) + e).skip(k) =~= e);
        assert(byte_len(e) == 3) by {
            assert(e.skip(1).len() == 0);
            assert(byte_len(e.skip(1)) == 0);
        }
        lemma_byte_len_split(s.take(k + 1), k);
        assert(s.take(k + 1).take(k) =~= s.take(k));
        let last = s.take(k + 1).skip(k);
        assert(last.len() == 1 && last[0] == s[k]);
        assert(last.skip(1).len() == 0);
        assert(byte_len(last) == char_bytes(s[k]) + byte_len(last.skip(1)));
    }
}

/// The text where it is short enough for a summary, else its beginning and an ellipsis.
pub fn truncate_summary(s: &str) -> (r: String)
    ensures
        r@ == capped(s@),
{
    let cs = chars(s);
    let limit: usize = MAX_SUMMARY_BYTES - 3;
    let mut i: usize = 0;
    let mut used: usize = 0;
    let mut keep: usize = 0;
    let mut keeping: bool = true;
    proof {
        assert(s@.skip(0) =~= s@);
        assert(s@.take(0).len() == 0);
    }
    while i < cs.len()
        invariant
            cs@ == s@,
            limit == MAX_SUMMARY_BYTES - 3,
            i <= cs.len(),
            used == byte_len(s@.take(i as int)),
            used <= MAX_SUMMARY_BYTES,
            keeping ==> keep == i && fitting(s@, limit as int) == i + fitting(
                s@.skip(i as int),
                limit - used,
            ),
            !keeping ==> keep == fitting(s@, limit as int) && used > limit,
            keep <= i,
        decreases cs.len() - i,
    {
        let n: usize = width(cs[i]);
        proof {
            assert(s@.skip(i as int)[0] == s@[i as int]);
            assert(s@.skip(i as int).skip(1) =~= s@.skip(i + 1));
            lemma_byte_len_next(s@, i as int);
        }
        if keeping && used + n <= limit {
            keep = i + 1;
        } else {
            keeping = false;
        }
        if used + n > MAX_SUMMARY_BYTES {
            proof {
                lemma_byte_len_split(s@, i + 1);
                assert(byte_len(s@) > MAX_SUMMARY_BYTES);
            }
            let mut out = s.substring_char(0, keep).to_owned();
            out.append("…");
            assert(s@.subrange(0, keep as int) =~= s@.take(keep as int));
            return out;
        }
        used = used + n;
        i = i + 1;
    }
    assert(s@.take(i as int) =~= s@);
    s.to_owned()
}

impl Campaign {
    /// Writes an entry under the next id, its summary capped.
    pub(crate) fn add_event(&mut self, e: Event) -> (id: i64)
        requires
            old(self)@.wf(),
            top(old(self)@.events) < i64::MAX,
            old(self)@.event_ok(e@),
        ensures
            id == next_id(old(self)@.events),
            final(self)@ == old(self)@.with_event(e@),
            final(self)@.wf(),
            top(final(self)@.events) == top(old(self)@.events) + 1,
            listed(final(self)@.events, id),
    {
        let ghost a = self@;
        let ghost rows = self.events@;
        let id: i64 = fresh_id(&self.events);
        let summary = truncate_summary(e.summary.as_str());
        let fresh = Event { id, summary, ..e };
        proof {
            crate::campaign::lemma_tables(a);
        }
        self.events.push(fresh);
        proof {
            let v = EventView { id, summary: capped(e@.summary), ..e@ };
            assert(fresh@ =~= v);
            assert(views(self.events@) =~= views(rows).push(fresh@));
            assert(self@ =~= a.with_event(e@));
            lemma_push(a.events, v);
            assert(self@.events_ok()) by {
                reveal(World::wf);
                assert forall|i: int| 0 <= i < self@.events.len() implies self@.event_ok(
                    #[trigger] self@.events[i],
                ) by {
                    if i < a.events.len() {
                        assert(self@.events[i] == a.events[i]);
                        assert(a.event_ok(a.events[i]));
                    }
                }
            }
            lemma_wf(a, self@);
        }
        id
    }
}

/// Writes an entry as part of a larger change.
pub fn emit_in_tx(c: &mut Campaign, spec: &EventSpec) -> (r: Result<EmittedEvent, Error>)
    requires
        old(c)@.wf(),
        top(old(c)@.events) < i64::MAX,
    ensures
        final(c)@.wf(),
        emit_refusal(old(c)@, *spec) matches Some(e) ==> {
            &&& r is Err
            &&& r->Err_0@ == e
            &&& final(c)@ == old(c)@
        },
        emit_refusal(old(c)@, *spec) is None ==> {
            &&& r is Ok
            &&& r->Ok_0.event_id == next_id(old(c)@.events)
            &&& final(c)@ == old(c)@.with_event(spec_entry(*spec))
        },
{
    proof {
        crate::campaign::lemma_tables(c@);
    }
    if let Some(z) = spec.zone_id {
        if find(&c.zones, z).is_none() {
            return Err(Error::EventRow);
        }
    }
    if let Some(n) = spec.encounter_id {
        if find(&c.encounters, n).is_none() {
            return Err(Error::EventRow);
        }
    }
    if let Some(n) = spec.parent_id {
        if find(&c.events, n).is_none() {
            return Err(Error::EventRow);
        }
    }
    let event_id: i64 = fresh_id(&c.events);
    let ps = spec.participants;
    let mut participants: Vec<EventParticipant> = Vec::new();
    let mut i: usize = 0;
    while i < ps.len()
        invariant
            i <= ps@.len(),
            c@ == old(c)@,
            c@.wf(),
            ps@ == spec.participants@,
            c@.zone_ref(spec.zone_id),
            spec.encounter_id matches Some(n) ==> listed(c@.encounters, n),
            spec.parent_id matches Some(n) ==> listed(c@.events, n),
            event_id == next_id(c@.events),
            crate::campaign::ordered(c@.characters),
            participants_refusal(c@, ps@, i as nat) is None,
            participants@ == spec_entry(*spec).participants.take(i as int),
            forall|j: int| 0 <= j < i ==> listed(c@.characters, (#[trigger] ps@[j]).character_id),
        decreases ps.len() - i,
    {
        let p = ps[i];
        let mut fault: Option<Fault> = None;
        let role = EventRole::parse(p.role);
        if role.is_none() {
            fault = Some(Fault::Check);
        } else {
            let mut j: usize = 0;
            let mut twice: bool = false;
            while j < i
                invariant
                    j <= i < ps@.len(),
                    p == ps@[i as int],
                    twice == exists|k: int|
                        0 <= k < j && (#[trigger] ps@[k]).character_id == p.character_id && ps@[k].role@
                            == p.role@,
                decreases i - j,
            {
                if ps[j].character_id == p.character_id && same(ps[j].role, p.role) {
                    twice = true;
                }
                j = j + 1;
            }
            if twice {
                fault = Some(Fault::Unique);
            } else if find(&c.characters, p.character_id).is_none() {
                fault = Some(Fault::ForeignKey);
            }
        }
        assert(fault == participant_fault(c@, ps@, i as int));
        if let Some(f) = fault {
            proof {
                lemma_participants_stop(c@, ps@, (i + 1) as nat, ps@.len());
            }
            return Err(
                Error::EventParticipantRow {
                    event_id,
                    character_id: p.character_id,
                    role: p.role.to_owned(),
                    fault: f,
                },
            );
        }
        if let Some(known) = role {
            participants.push(EventParticipant { character_id: p.character_id, role: known });
        }
        i = i + 1;
    }
    let its = spec.items;
    let mut items: Vec<EventItem> = Vec::new();
    let mut i: usize = 0;
    while i < its.len()
        invariant
            i <= its@.len(),
            c@ == old(c)@,
            c@.wf(),
            its@ == spec.items@,
            c@.zone_ref(spec.zone_id),
            spec.encounter_id matches Some(n) ==> listed(c@.encounters, n),
            spec.parent_id matches Some(n) ==> listed(c@.events, n),
            participants_refusal(c@, spec.participants@, spec.participants@.len()) is None,
            event_id == next_id(c@.events),
            crate::campaign::ordered(c@.items),
            items_refusal(c@, its@, i as nat) is None,
            views(items@) == spec_entry(*spec).items.take(i as int),
            forall|j: int| 0 <= j < i ==> listed(c@.items, (#[trigger] its@[j]).item_id),
        decreases its.len() - i,
    {
        let it = its[i];
        let mut j: usize = 0;
        let mut twice: bool = false;
        while j < i
            invariant
                j <= i < its@.len(),
                it == its@[i as int],
                twice == exists|k: int|
                    0 <= k < j && (#[trigger] its@[k]).item_id == it.item_id && its@[k].role@ == it.role@,
            decreases i - j,
        {
            if its[j].item_id == it.item_id && same(its[j].role, it.role) {
                twice = true;
            }
            j = j + 1;
        }
        let mut fault: Option<Fault> = None;
        if twice {
            fault = Some(Fault::Unique);
        } else if find(&c.items, it.item_id).is_none() {
            fault = Some(Fault::ForeignKey);
        }
        assert(fault == item_fault(c@, its@, i as int));
        if let Some(f) = fault {
            proof {
                lemma_items_stop(c@, its@, (i + 1) as nat, its@.len());
            }
            return Err(
                Error::EventItemRow { event_id, item_id: it.item_id, role: it.role.to_owned(), fault: f },
            );
        }
        let ghost before = items@;
        let entry_item = EventItem { item_id: it.item_id, role: it.role.to_owned() };
        items.push(entry_item);
        proof {
            assert(views(items@) =~= views(before).push(entry_item@));
            assert(views(items@) =~= spec_entry(*spec).items.take(i + 1));
        }
        i = i + 1;
    }
    let e = Event {
        id: 0,
        kind: spec.kind.to_owned(),
        campaign_hour: spec.campaign_hour,
        combat_round: spec.combat_round,
        zone_id: spec.zone_id,
        encounter_id: spec.encounter_id,
        parent_id: spec.parent_id,
        summary: spec.summary.clone(),
        payload: copy_payload(&spec.payload),
        participants,
        items,
    };
    assert(e@ =~= spec_entry(*spec));
    let id: i64 = c.add_event(e);
    Ok(EmittedEvent { event_id: id })
}

proof fn lemma_participants_stop(w: World, ps: Seq<Participant>, m: nat, n: nat)
    requires
        m <= n,
        participants_refusal(w, ps, m) is Some,
    ensures
        participants_refusal(w, ps, n) == participants_refusal(w, ps, m),
    decreases n,
{
    if m < n {
        lemma_participants_stop(w, ps, m, (n - 1) as nat);
    }
}

proof fn lemma_items_stop(w: World, its: Seq<ItemRef>, m: nat, n: nat)
    requires
        m <= n,
        items_refusal(w, its, m) is Some,
    ensures
        items_refusal(w, its, n) == items_refusal(w, its, m),
    decreases n,
{
    if m < n {
        lemma_items_stop(w, its, m, (n - 1) as nat);
    }
}

/// A copy of a list of numbers.
pub(crate) fn copy_ints(v: &Vec<i64>) -> (r: Vec<i64>)
    ensures
        r@ == v@,
{
    let mut out: Vec<i64> = Vec::new();
    let mut i: usize = 0;
    while i < v.len()
        invariant
            i <= v.len(),
            out@ == v@.take(i as int),
        decreases v.len() - i,
    {
        out.push(v[i]);
        i = i + 1;
    }
    out
}

fn copy_cells(v: &Vec<Cell>) -> (r: Vec<Cell>)
    ensures
        views(r@) == views(v@),
{
    let mut out: Vec<Cell> = Vec::new();
    let mut i: usize = 0;
    while i < v.len()
        invariant
            i <= v.len(),
            views(out@) == views(v@).take(i as int),
        decreases v.len() - i,
    {
        let value = match &v[i].value {
            Leaf::Null => Leaf::Null,
            Leaf::Bool(b) => Leaf::Bool(*b),
            Leaf::Int(n) => Leaf::Int(*n),
            Leaf::Text(s) => Leaf::Text(s.clone()),
        };
        let ghost before = out@;
        let x = Cell { name: v[i].name.clone(), value };
        assert(x@ == v@[i as int]@);
        out.push(x);
        assert(views(out@) =~= views(before).push(x@));
        assert(views(out@) =~= views(v@).take(i + 1));
        i = i + 1;
    }
    out
}

fn copy_records(v: &Vec<Vec<Cell>>) -> (r: Vec<Vec<Cell>>)
    ensures
        Value::Records(r)@ == Value::Records(*v)@,
{
    let mut out: Vec<Vec<Cell>> = Vec::new();
    let mut i: usize = 0;
    while i < v.len()
        invariant
            i <= v.len(),
            out.len() == i,
            forall|j: int| 0 <= j < i ==> views((#[trigger] out@[j])@) == views(v@[j]@),
        decreases v.len() - i,
    {
        out.push(copy_cells(&v[i]));
        i = i + 1;
    }
    assert(Value::Records(out)@->Records_0 =~= Value::Records(*v)@->Records_0);
    out
}

/// A copy of a payload.
pub(crate) fn copy_payload(v: &Vec<Field>) -> (r: Vec<Field>)
    ensures
        views(r@) == views(v@),
{
    let mut out: Vec<Field> = Vec::new();
    let mut i: usize = 0;
    while i < v.len()
        invariant
            i <= v.len(),
            views(out@) == views(v@).take(i as int),
        decreases v.len() - i,
    {
        let value = match &v[i].value {
            Value::Null => Value::Null,
            Value::Bool(b) => Value::Bool(*b),
            Value::Int(n) => Value::Int(*n),
            Value::Thousandths(n) => Value::Thousandths(*n),
            Value::Number(x) => Value::Number(*x),
            Value::Text(s) => Value::Text(s.clone()),
            Value::Ints(l) => Value::Ints(copy_ints(l)),
            Value::Texts(l) => Value::Texts(crate::text::copy_list(l)),
            Value::Record(l) => Value::Record(copy_cells(l)),
            Value::Records(l) => Value::Records(copy_records(l)),
        };
        let ghost before = out@;
        let f = Field { name: v[i].name.clone(), value };
        assert(f@ =~~= v@[i as int]@);
        out.push(f);
        assert(views(out@) =~= views(before).push(f@));
        assert(views(out@) =~= views(v@).take(i + 1));
        i = i + 1;
    }
    out
}

/// Writes an entry on its own.
pub fn emit(c: &mut Campaign, spec: &EventSpec) -> (r: Result<EmittedEvent, Error>)
    requires
        old(c)@.wf(),
        top(old(c)@.events) < i64::MAX,
    ensures
        final(c)@.wf(),
        emit_refusal(old(c)@, *spec) matches Some(e) ==> {
            &&& r is Err
            &&& r->Err_0@ == e
            &&& final(c)@ == old(c)@
        },
        emit_refusal(old(c)@, *spec) is None ==> {
            &&& r is Ok
            &&& r->Ok_0.event_id == next_id(old(c)@.events)
            &&& final(c)@ == old(c)@.with_event(spec_entry(*spec))
        },
{
    emit_in_tx(c, spec)
}

} // verus!
