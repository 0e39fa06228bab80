//! Before the campaign: questions and answers, a first piece of the map, and the start.
//!
//! The campaign clock stands at 0 all the while.

use vstd::prelude::*;
use crate::campaign::{lemma_index, lemma_push, lemma_tables, listed, next_id, row, top, Campaign, World};
use crate::content::{Content, SetupQuestion};
use crate::error::Error;
use crate::events::{
    copy_ints, entry, entry_view, field, field_view, fields2, fields4, int_field, nobody, one, only,
    opt_int, opt_int_field, text_field,
};
use crate::random::{draw_shuffle, draws_ok, random_between};
use crate::rows::{
    CampaignState, Event, EventRole, EventView, Phase, SetupAnswer, Value, ValueView, Zone, ZoneKind,
    ZoneSize,
};
use crate::terrain::{
    add_stubs, choose_directions, directions, law_neighbours_lie_apart, lemma_stubs, next_ids, opposite,
    stub, trail, with_stubs,
};
use crate::text::{chars, debug_text, decimal, int_text, list_text, quoted, same, say_list, texts};

verus! {

/// A new campaign asks for nothing.
#[derive(Debug, Clone, PartialEq, Eq)]
pub struct NewCampaignParams {}

#[derive(Debug, Clone, PartialEq, Eq)]
pub struct NewCampaignResult {
    pub phase: String,
    pub questions: Vec<SetupQuestion>,
}

#[derive(Debug, Clone, PartialEq, Eq)]
pub struct AnswerParams {
    pub question_id: String,
    /// The answer in JSON: a string, a list of strings where several can be chosen, or any
    /// other value.
    pub answer: String,
}

#[derive(Debug, Clone, PartialEq, Eq)]
pub struct AnswerResult {
    pub question_id: String,
}

/// The first piece of the map asks for nothing but the answers on record.
#[derive(Debug, Clone, PartialEq, Eq)]
pub struct GenerateWorldParams {}

#[derive(Debug, Clone, PartialEq, Eq)]
pub struct GenerateWorldResult {
    pub starting_zone_id: i64,
    pub starting_zone_name: String,
    pub starting_biome: String,
    pub neighbour_zone_ids: Vec<i64>,
    pub event_id: i64,
}

#[derive(Debug, Clone, Copy, PartialEq, Eq)]
pub struct MarkReadyParams {
    /// The player's character, kept with the campaign.
    pub player_character_id: Option<i64>,
}

#[derive(Debug, Clone, PartialEq, Eq)]
pub struct MarkReadyResult {
    pub phase: String,
    pub started_at: i64,
    pub event_id: i64,
}

// ── setup.new_campaign ──

/// The questions to be answered, as long as the campaign has not begun.
pub fn new_campaign(c: &Campaign, content: &Content) -> (r: Result<NewCampaignResult, Error>)
    ensures
        match r {
            Ok(v) => {
                &&& c@.state.phase == Phase::Setup
                &&& v.phase@ == "setup"@
                &&& v.questions@ == content.setup_questions@
            },
            Err(e) => {
                &&& c@.state.phase != Phase::Setup
                &&& e@ == (Error::<Seq<char>>::NotNew { phase: c@.state.phase })
            },
        },
{
    if c.state.phase != Phase::Setup {
        return Err(Error::NotNew { phase: c.state.phase });
    }
    let all = &content.setup_questions;
    let mut questions: Vec<SetupQuestion> = Vec::new();
    let mut i: usize = 0;
    while i < all.len()
        invariant
            i <= all.len(),
            questions@ == all@.take(i as int),
        decreases all.len() - i,
    {
        questions.push(all[i].copy());
        assert(questions@ =~= all@.take(i + 1));
        i = i + 1;
    }
    assert(questions@ =~= all@);
    Ok(NewCampaignResult { phase: "setup".to_owned(), questions })
}

// ── setup.answer ──

/// The ids of the questions.
pub open spec fn question_ids(content: Content) -> Seq<Seq<char>> {
    Seq::new(content.setup_questions@.len(), |k: int| content.setup_questions@[k].id@)
}

/// Where stands, among the first `n` answers, that to the question.
pub open spec fn answer_among(rows: Seq<SetupAnswer<Seq<char>>>, question: Seq<char>, n: nat) -> Option<int>
    decreases n,
{
    if n == 0 {
        None
    } else if rows[n - 1].question_id == question {
        Some(n - 1)
    } else {
        answer_among(rows, question, (n - 1) as nat)
    }
}

/// The answer on record, in JSON.
pub open spec fn answer_to(w: World, question: Seq<char>) -> Option<Seq<char>> {
    match answer_among(w.answers, question, w.answers.len()) {
        Some(k) => Some(w.answers[k].answer),
        None => None,
    }
}

pub open spec fn answer_refusal(w: World, content: Content, p: AnswerParams) -> Option<Error<Seq<char>>> {
    if w.state.phase != Phase::Setup {
        Some(Error::TooLateToAnswer { phase: w.state.phase })
    } else if !question_ids(content).contains(p.question_id@) {
        Some(
            Error::UnknownQuestion {
                question: p.question_id@,
                valid: list_text(question_ids(content)),
            },
        )
    } else {
        None
    }
}

/// The campaign with the answer, in place of an earlier one where there is one.
pub open spec fn answered(w: World, p: AnswerParams, now: i64) -> World {
    let r = SetupAnswer { question_id: p.question_id@, answer: p.answer@, answered_at: now };
    match answer_among(w.answers, p.question_id@, w.answers.len()) {
        Some(k) => World { answers: w.answers.update(k, r), ..w },
        None => World { answers: w.answers.push(r), ..w },
    }
}

fn list_question_ids(content: &Content) -> (r: Vec<String>)
    ensures
        texts(r@) == question_ids(*content),
{
    let all = &content.setup_questions;
    let mut out: Vec<String> = Vec::new();
    let mut i: usize = 0;
    while i < all.len()
        invariant
            i <= all.len(),
            out.len() == i,
            forall|j: int| 0 <= j < i ==> (#[trigger] out@[j])@ == all@[j].id@,
        decreases all.len() - i,
    {
        out.push(all[i].id.clone());
        i = i + 1;
    }
    assert(texts(out@) =~= question_ids(*content));
    out
}

fn find_answer(c: &Campaign, question: &str) -> (r: Option<usize>)
    ensures
        match r {
            Some(k) => answer_among(c@.answers, question@, c@.answers.len()) == Some(k as int) && k
                < c.answers.len() && c@.answers[k as int] == c.answers@[k as int]@,
            None => answer_among(c@.answers, question@, c@.answers.len()) is None,
        },
{
    let rows = &c.answers;
    let ghost seen = c@.answers;
    let mut i: usize = rows.len();
    while i > 0
        invariant
            i <= rows.len(),
            rows@ == c.answers@,
            seen == c@.answers,
            seen.len() == rows.len(),
            answer_among(seen, question@, seen.len()) == answer_among(seen, question@, i as nat),
        decreases i,
    {
        assert(seen[i - 1] == rows@[i - 1]@);
        if same(rows[i - 1].question_id.as_str(), question) {
            return Some(i - 1);
        }
        i = i - 1;
    }
    None
}

/// Puts the answer to a question on record, at `now` in seconds of real time.
pub fn answer(c: &mut Campaign, content: &Content, p: AnswerParams, now: i64) -> (r: Result<AnswerResult, Error>)
    requires
        old(c)@.wf(),
    ensures
        final(c)@.wf(),
        answer_refusal(old(c)@, *content, p) matches Some(e) ==> r is Err && r->Err_0@ == e && final(c)@
            == old(c)@,
        answer_refusal(old(c)@, *content, p) is None ==> {
            &&& r is Ok
            &&& r->Ok_0.question_id@ == p.question_id@
            &&& final(c)@ == answered(old(c)@, p, now)
        },
{
    if c.state.phase != Phase::Setup {
        return Err(Error::TooLateToAnswer { phase: c.state.phase });
    }
    let ids = list_question_ids(content);
    if !crate::text::contains(&ids, p.question_id.as_str()) {
        return Err(Error::UnknownQuestion { question: p.question_id.clone(), valid: say_list(&ids) });
    }
    let r = SetupAnswer { question_id: p.question_id.clone(), answer: p.answer.clone(), answered_at: now };
    match find_answer(c, p.question_id.as_str()) {
        Some(k) => c.set_answer(k, r),
        None => c.push_answer(r),
    }
    Ok(AnswerResult { question_id: p.question_id.clone() })
}

// ── setup.generate_world ──

/// What the text says in JSON: the string, or that it is none. Where the text is no JSON, the
/// words that say why.
pub uninterp spec fn json_string(raw: Seq<char>) -> Result<Option<Seq<char>>, Seq<char>>;

/// `serde_json::from_str` of the text into a `serde_json::Value`, and `Value::as_str` of what
/// comes out: the string where the value is one, and the error in words where the text is not
/// JSON. What the text means is not said here, only that it always means the same.
#[verifier::external_body]
fn read_json_string(raw: &str) -> (r: Result<Option<String>, String>)
    ensures
        match r {
            Err(cause) => json_string(raw@) == Err::<Option<Seq<char>>, Seq<char>>(cause@),
            Ok(None) => json_string(raw@) == Ok::<Option<Seq<char>>, Seq<char>>(None),
            Ok(Some(t)) => json_string(raw@) == Ok::<Option<Seq<char>>, Seq<char>>(Some(t@)),
        },
{
    match serde_json::from_str::<serde_json::Value>(raw) {
        Ok(v) => Ok(v.as_str().map(|s| s.to_string())),
        Err(e) => Err(e.to_string()),
    }
}

/// What chance decides about a new world: how many neighbours the first zone has, and where
/// they lie.
#[derive(Debug, Clone, PartialEq, Eq)]
pub struct WorldRolls {
    pub neighbours: usize,
    pub directions: Vec<usize>,
}

/// Whether chance can decide so: two to five neighbours.
pub open spec fn world_rolls_ok(rolls: WorldRolls) -> bool {
    &&& 2 <= rolls.neighbours <= 5
    &&& draws_ok(8, rolls.directions@)
}

/// The text with spaces for underscores.
pub open spec fn spaced(s: Seq<char>) -> Seq<char> {
    Seq::new(
        s.len(),
        |i: int|
            if s[i] == '_' {
                ' '
            } else {
                s[i]
            },
    )
}

/// What the first zone is called.
pub open spec fn starting_name(biome: Seq<char>) -> Seq<char> {
    "Starting "@ + spaced(biome)
}

/// The map with the first zone and its neighbours.
pub open spec fn first_map(w: World, biome: Seq<char>, rolls: WorldRolls) -> World {
    let id = next_id(w.zones);
    let start = World {
        zones: w.zones.push(
            Zone {
                id,
                name: starting_name(biome),
                biome,
                kind: ZoneKind::Wilderness,
                size: ZoneSize::Small,
                description: None,
            },
        ),
        ..w
    };
    with_stubs(start, id, biome, directions(rolls.neighbours as int, rolls.directions@))
}

/// The ids of the neighbours.
pub open spec fn first_neighbours(w: World, rolls: WorldRolls) -> Seq<i64> {
    next_ids(top(w.zones) + 1, rolls.neighbours as nat)
}

pub open spec fn generated_entry(w: World, biome: Seq<char>, rolls: WorldRolls) -> EventView {
    let id = next_id(w.zones);
    EventView {
        zone_id: Some(id),
        ..entry_view(
            "world.generated"@,
            0,
            "Generated starting zone "@ + debug_text(starting_name(biome)) + " (biome "@ + debug_text(biome)
                + ") with "@ + int_text(rolls.neighbours as int) + " neighbour stub(s)"@,
            seq![
                field_view("starting_zone_id"@, ValueView::Int(id as int)),
                field_view("starting_zone_name"@, ValueView::Text(starting_name(biome))),
                field_view("starting_biome"@, ValueView::Text(biome)),
                field_view("neighbour_zone_ids"@, ValueView::Ints(first_neighbours(w, rolls))),
            ],
            Seq::empty(),
        )
    }
}

/// The campaign with its first piece of the map.
pub open spec fn generated(w: World, biome: Seq<char>, rolls: WorldRolls) -> World {
    first_map(w, biome, rolls).with_event(generated_entry(w, biome, rolls))
}

/// What making the first piece of the map does to the campaign and returns.
pub open spec fn generate_ok(
    w: World,
    biome: Seq<char>,
    rolls: WorldRolls,
    after: World,
    r: GenerateWorldResult,
) -> bool {
    &&& r.starting_zone_id == next_id(w.zones)
    &&& r.starting_zone_name@ == starting_name(biome)
    &&& r.starting_biome@ == biome
    &&& r.neighbour_zone_ids@ == first_neighbours(w, rolls)
    &&& r.event_id == next_id(w.events)
    &&& after == generated(w, biome, rolls)
}

/// The biome that an answer names, by what it says in JSON.
pub open spec fn biome_of(read: Result<Option<Seq<char>>, Seq<char>>) -> Result<Seq<char>, Error<Seq<char>>> {
    match read {
        Err(cause) => Err(Error::AnswerNotJson { cause }),
        Ok(None) => Err(Error::NoStartingBiome),
        Ok(Some(t)) => Ok(t),
    }
}

/// The biome that an answer names, by what it says in JSON.
pub fn settle_biome(read: Result<Option<String>, String>) -> (r: Result<String, Error>)
    ensures
        match read {
            Err(cause) => r is Err && Err::<Seq<char>, _>(r->Err_0@) == biome_of(Err(cause@)),
            Ok(None) => r is Err && Err::<Seq<char>, _>(r->Err_0@) == biome_of(Ok(None)),
            Ok(Some(t)) => r is Ok && Ok::<_, Error<Seq<char>>>(r->Ok_0@) == biome_of(Ok(Some(t@))),
        },
{
    match read {
        Err(cause) => Err(Error::AnswerNotJson { cause }),
        Ok(None) => Err(Error::NoStartingBiome),
        Ok(Some(t)) => Ok(t),
    }
}

pub open spec fn generate_refusal(w: World) -> Option<Error<Seq<char>>> {
    if w.state.phase != Phase::Setup {
        Some(Error::TooLateToGenerate { phase: w.state.phase })
    } else {
        match answer_to(w, "starting_biome"@) {
            None => Some(Error::NoStartingBiome),
            Some(raw) => match biome_of(json_string(raw)) {
                Ok(_) => None,
                Err(e) => Some(e),
            },
        }
    }
}

/// The biome that was asked for.
pub open spec fn starting_biome(w: World) -> Seq<char> {
    biome_of(json_string(answer_to(w, "starting_biome"@)->0))->Ok_0
}

fn put_spaces(s: &str) -> (r: String)
    ensures
        r@ == spaced(s@),
{
    let v = chars(s);
    let mut out = String::new();
    let mut i: usize = 0;
    assert(out@ =~= spaced(s@).take(0));
    while i < v.len()
        invariant
            i <= v.len(),
            v@ == s@,
            out@ == spaced(s@).take(i as int),
        decreases v.len() - i,
    {
        if v[i] == '_' {
            out.push(' ');
        } else {
            out.push(v[i]);
        }
        assert(out@ =~= spaced(s@).take(i + 1));
        i = i + 1;
    }
    assert(out@ =~= spaced(s@));
    out
}

/// Makes a first zone of the biome with its neighbours, for what chance has decided, and
/// writes `world.generated`.
pub fn generate_from(c: &mut Campaign, biome: &str, rolls: &WorldRolls) -> (r: GenerateWorldResult)
    requires
        old(c)@.wf(),
        old(c)@.room(),
        world_rolls_ok(*rolls),
    ensures
        final(c)@.wf(),
        generate_ok(old(c)@, biome@, *rolls, final(c)@, r),
{
    let ghost w = c@;
    proof {
        lemma_tables(w);
    }
    let mut name = "Starting ".to_owned();
    name.append(put_spaces(biome).as_str());
    let z = Zone {
        id: 0,
        name: name.clone(),
        biome: biome.to_owned(),
        kind: ZoneKind::Wilderness,
        size: ZoneSize::Small,
        description: None,
    };
    let id: i64 = c.add_zone(z);
    let ds = choose_directions(rolls.neighbours, &rolls.directions);
    let neighbours = add_stubs(c, id, biome, &ds);
    assert(c@ == first_map(w, biome@, *rolls));
    let mut s = "Generated starting zone ".to_owned();
    s.append(quoted(name.as_str()).as_str());
    s.append(" (biome ");
    s.append(quoted(biome).as_str());
    s.append(") with ");
    s.append(decimal(neighbours.len() as i64).as_str());
    s.append(" neighbour stub(s)");
    let base = entry(
        "world.generated",
        0,
        s,
        fields4(
            int_field("starting_zone_id", id),
            text_field("starting_zone_name", name.as_str()),
            text_field("starting_biome", biome),
            field("neighbour_zone_ids", Value::Ints(copy_ints(&neighbours))),
        ),
        nobody(),
    );
    let e = Event { zone_id: Some(id), ..base };
    assert(e@ == generated_entry(w, biome@, *rolls));
    let event_id: i64 = c.add_event(e);
    GenerateWorldResult {
        starting_zone_id: id,
        starting_zone_name: name,
        starting_biome: biome.to_owned(),
        neighbour_zone_ids: neighbours,
        event_id,
    }
}

/// The biome that was asked for, or why there is none.
fn read_starting_biome(c: &Campaign) -> (r: Result<String, Error>)
    ensures
        match r {
            Ok(biome) => generate_refusal(c@) is None && biome@ == starting_biome(c@),
            Err(e) => generate_refusal(c@) == Some(e@),
        },
{
    if c.state.phase != Phase::Setup {
        return Err(Error::TooLateToGenerate { phase: c.state.phase });
    }
    match find_answer(c, "starting_biome") {
        None => Err(Error::NoStartingBiome),
        Some(k) => settle_biome(read_json_string(c.answers[k].answer.as_str())),
    }
}

/// Makes a first zone of the biome that was asked for, for what chance has decided.
pub fn generate_world_with(c: &mut Campaign, rolls: &WorldRolls) -> (r: Result<GenerateWorldResult, Error>)
    requires
        old(c)@.wf(),
        old(c)@.room(),
        world_rolls_ok(*rolls),
    ensures
        final(c)@.wf(),
        generate_refusal(old(c)@) matches Some(e) ==> r is Err && r->Err_0@ == e && final(c)@ == old(c)@,
        generate_refusal(old(c)@) is None ==> r is Ok && generate_ok(
            old(c)@,
            starting_biome(old(c)@),
            *rolls,
            final(c)@,
            r->Ok_0,
        ),
{
    match read_starting_biome(c) {
        Ok(biome) => Ok(generate_from(c, biome.as_str(), rolls)),
        Err(e) => Err(e),
    }
}

/// Makes a first zone of the biome that was asked for: what comes out is what one of the
/// decisions of chance gives.
pub fn generate_world(c: &mut Campaign, _content: &Content) -> (r: Result<GenerateWorldResult, Error>)
    requires
        old(c)@.wf(),
        old(c)@.room(),
    ensures
        final(c)@.wf(),
        generate_refusal(old(c)@) matches Some(e) ==> r is Err && r->Err_0@ == e && final(c)@ == old(c)@,
        generate_refusal(old(c)@) is None ==> r is Ok && exists|rolls: WorldRolls|
            #![trigger generate_ok(old(c)@, starting_biome(old(c)@), rolls, final(c)@, r->Ok_0)]
            world_rolls_ok(rolls) && generate_ok(
                old(c)@,
                starting_biome(old(c)@),
                rolls,
                final(c)@,
                r->Ok_0,
            ),
{
    let rolls = WorldRolls { neighbours: random_between(2, 5) as usize, directions: draw_shuffle(8) };
    generate_world_with(c, &rolls)
}

// ── setup.mark_ready ──

pub open spec fn ready_refusal(w: World, p: MarkReadyParams) -> Option<Error<Seq<char>>> {
    if w.state.phase != Phase::Setup {
        Some(Error::AlreadyReady { phase: w.state.phase })
    } else if p.player_character_id matches Some(id) && !listed(w.characters, id) {
        Some(Error::StateRow)
    } else {
        None
    }
}

pub open spec fn ready_entry(p: MarkReadyParams, now: i64) -> EventView {
    entry_view(
        "campaign.started"@,
        0,
        "Campaign started at "@ + int_text(now as int) + " (epoch seconds)"@,
        seq![
            field_view("started_at"@, ValueView::Int(now as int)),
            field_view("player_character_id"@, opt_int(p.player_character_id)),
        ],
        match p.player_character_id {
            Some(id) => one(id, EventRole::Actor),
            None => Seq::empty(),
        },
    )
}

/// The campaign once it has begun.
pub open spec fn ready(w: World, p: MarkReadyParams, now: i64) -> World {
    World {
        state: CampaignState {
            phase: Phase::Running,
            started_at: Some(now),
            player_character_id: p.player_character_id,
        },
        ..w
    }.with_event(ready_entry(p, now))
}

/// Begins the campaign, at `now` in seconds of real time, and writes `campaign.started`.
pub fn mark_ready(c: &mut Campaign, p: MarkReadyParams, now: i64) -> (r: Result<MarkReadyResult, Error>)
    requires
        old(c)@.wf(),
        old(c)@.room(),
    ensures
        final(c)@.wf(),
        ready_refusal(old(c)@, p) matches Some(e) ==> r is Err && r->Err_0@ == e && final(c)@ == old(c)@,
        ready_refusal(old(c)@, p) is None ==> {
            &&& r is Ok
            &&& r->Ok_0.phase@ == "running"@
            &&& r->Ok_0.started_at == now
            &&& r->Ok_0.event_id == next_id(old(c)@.events)
            &&& final(c)@ == ready(old(c)@, p, now)
        },
{
    let ghost w = c@;
    proof {
        lemma_tables(w);
    }
    if c.state.phase != Phase::Setup {
        return Err(Error::AlreadyReady { phase: c.state.phase });
    }
    if let Some(id) = p.player_character_id {
        if crate::campaign::find(&c.characters, id).is_none() {
            return Err(Error::StateRow);
        }
    }
    c.set_state(
        CampaignState {
            phase: Phase::Running,
            started_at: Some(now),
            player_character_id: p.player_character_id,
        },
    );
    let who = match p.player_character_id {
        Some(id) => only(id, EventRole::Actor),
        None => nobody(),
    };
    let mut s = "Campaign started at ".to_owned();
    s.append(decimal(now).as_str());
    s.append(" (epoch seconds)");
    let e = entry(
        "campaign.started",
        0,
        s,
        fields2(int_field("started_at", now), opt_int_field("player_character_id", p.player_character_id)),
        who,
    );
    assert(e@ == ready_entry(p, now));
    let event_id: i64 = c.add_event(e);
    Ok(MarkReadyResult { phase: "running".to_owned(), started_at: now, event_id })
}

// ── Laws ──

/// The answer on record is the one given last; answers to other questions stay.
pub proof fn law_last_answer_stands(w: World, p: AnswerParams, now: i64, other: Seq<char>)
    ensures
        answer_to(answered(w, p, now), p.question_id@) == Some(p.answer@),
        other != p.question_id@ ==> answer_to(answered(w, p, now), other) == answer_to(w, other),
{
    let v = answered(w, p, now);
    let n = w.answers.len();
    lemma_answer(w.answers, p.question_id@, n);
    lemma_answer(w.answers, other, n);
    lemma_same_questions(w.answers, v.answers, p.question_id@, n);
    lemma_same_questions(w.answers, v.answers, other, n);
    if answer_among(w.answers, p.question_id@, n) is None {
        assert(v.answers.len() == n + 1);
        assert(((n + 1) - 1) as nat == n);
        assert(answer_among(v.answers, p.question_id@, v.answers.len()) == Some(n as int));
        if other != p.question_id@ {
            assert(answer_among(v.answers, other, v.answers.len()) == answer_among(w.answers, other, n));
        }
    }
}

proof fn lemma_answer(rows: Seq<SetupAnswer<Seq<char>>>, question: Seq<char>, n: nat)
    requires
        n <= rows.len(),
    ensures
        answer_among(rows, question, n) matches Some(k) ==> 0 <= k < n && rows[k].question_id == question,
    decreases n,
{
    if n > 0 {
        lemma_answer(rows, question, (n - 1) as nat);
    }
}

/// Answers are found where their questions stand.
proof fn lemma_same_questions(
    a: Seq<SetupAnswer<Seq<char>>>,
    b: Seq<SetupAnswer<Seq<char>>>,
    question: Seq<char>,
    n: nat,
)
    requires
        n <= a.len() <= b.len(),
        forall|i: int| 0 <= i < n ==> (#[trigger] b[i]).question_id == a[i].question_id,
    ensures
        answer_among(b, question, n) == answer_among(a, question, n),
    decreases n,
{
    if n > 0 {
        assert(b[n - 1].question_id == a[n - 1].question_id);
        lemma_same_questions(a, b, question, (n - 1) as nat);
    }
}

/// A campaign begins once: from then on nothing of what comes before is done again.
pub proof fn law_campaign_begins_once(
    w: World,
    p: MarkReadyParams,
    now: i64,
    content: Content,
    a: AnswerParams,
    again: MarkReadyParams,
)
    ensures
        ready_refusal(ready(w, p, now), again) == Some(
            Error::<Seq<char>>::AlreadyReady { phase: Phase::Running },
        ),
        answer_refusal(ready(w, p, now), content, a) == Some(
            Error::<Seq<char>>::TooLateToAnswer { phase: Phase::Running },
        ),
        generate_refusal(ready(w, p, now)) == Some(
            Error::<Seq<char>>::TooLateToGenerate { phase: Phase::Running },
        ),
{
}

/// The world begins with a zone of the biome that was asked for, and two to five neighbours
/// of the same biome that can be reached from it and left again.
pub proof fn law_world_begins_with_its_biome(w: World, biome: Seq<char>, rolls: WorldRolls, k: int)
    requires
        w.wf(),
        w.room(),
        world_rolls_ok(rolls),
        0 <= k < first_neighbours(w, rolls).len(),
    ensures
        ({
            let v = generated(w, biome, rolls);
            let start = next_id(w.zones);
            let id = first_neighbours(w, rolls)[k];
            let d = directions(rolls.neighbours as int, rolls.directions@)[k];
            &&& 2 <= first_neighbours(w, rolls).len() <= 5
            &&& listed(v.zones, start)
            &&& row(v.zones, start).biome == biome
            &&& row(v.zones, start).name == starting_name(biome)
            &&& listed(v.zones, id)
            &&& row(v.zones, id).biome == biome
            &&& v.connections.contains(trail(start, id, d))
            &&& v.connections.contains(trail(id, start, opposite(d)))
        }),
{
    lemma_tables(w);
    let start = next_id(w.zones);
    let z = Zone {
        id: start,
        name: starting_name(biome),
        biome,
        kind: ZoneKind::Wilderness,
        size: ZoneSize::Small,
        description: None,
    };
    let begun = World { zones: w.zones.push(z), ..w };
    lemma_push(w.zones, z);
    let ds = directions(rolls.neighbours as int, rolls.directions@);
    law_neighbours_lie_apart(rolls.neighbours as int, rolls.directions@);
    lemma_stubs(begun, start, biome, ds);
    let v = generated(w, biome, rolls);
    assert(v.zones == with_stubs(begun, start, biome, ds).zones);
    let n = w.zones.len() as int;
    assert(v.zones[n] == z);
    lemma_index(v.zones, n);
    let m = w.connections.len() as int;
    let id = first_neighbours(w, rolls)[k];
    assert(v.zones[n + 1 + k] == stub(id, biome, ds[k]));
    lemma_index(v.zones, n + 1 + k);
    assert(v.connections[m + 2 * k] == trail(start, id, ds[k]));
    assert(v.connections[m + 2 * k + 1] == trail(id, start, opposite(ds[k])));
}

} // verus!
