//! Recollection: what a character took part in, newest first.

use vstd::prelude::*;
use crate::campaign::{byte_len, Campaign, World};
use crate::error::Error;
use crate::events::{lemma_byte_len_next, lemma_byte_len_split, width};
use crate::rows::{views, Event, EventItem, EventParticipant, EventRole, EventView};
use crate::text::{chars, lower_char};

verus! {

#[derive(Debug, Clone, PartialEq, Eq)]
pub struct RecallParams {
    pub character_id: i64,
    pub zone_id: Option<i64>,
    pub other_character_id: Option<i64>,
    pub other_item_id: Option<i64>,
    /// What the kind begins with. In it `%` stands for any text and `_` for any character,
    /// and the case of letters does not matter.
    pub kind_prefix: Option<String>,
    /// The earliest hour. A negative one takes in the time before the campaign; without it
    /// all is recalled.
    pub since_hour: Option<i64>,
    /// How many entries at most: 50 where it is not given, and never more than 500.
    pub limit: Option<i64>,
}

#[derive(Debug, Clone, PartialEq, Eq)]
pub struct RecallResult {
    pub events: Vec<RecalledEvent>,
}

#[derive(Debug, Clone, PartialEq, Eq)]
pub struct RecalledEvent<S = String> {
    pub event_id: i64,
    pub kind: S,
    pub campaign_hour: i64,
    pub combat_round: Option<i32>,
    pub zone_id: Option<i64>,
    pub encounter_id: Option<i64>,
    pub summary: S,
    pub role: S,
}

impl View for RecalledEvent {
    type V = RecalledEvent<Seq<char>>;

    open spec fn view(&self) -> RecalledEvent<Seq<char>> {
        RecalledEvent {
            event_id: self.event_id,
            kind: self.kind@,
            campaign_hour: self.campaign_hour,
            combat_round: self.combat_round,
            zone_id: self.zone_id,
            encounter_id: self.encounter_id,
            summary: self.summary@,
            role: self.role@,
        }
    }
}

// ── Patterns ──

/// Whether the text from place `j` on is like the pattern from place `i` on: `%` stands for
/// any text, `_` for any character, and the case of the letters from A to Z does not matter.
pub open spec fn like(pattern: Seq<char>, i: int, text: Seq<char>, j: int) -> bool
    decreases pattern.len() - i, text.len() - j,
{
    if i >= pattern.len() {
        j >= text.len()
    } else if pattern[i] == '%' {
        like(pattern, i + 1, text, j) || (j < text.len() && like(pattern, i, text, j + 1))
    } else if j >= text.len() {
        false
    } else {
        (pattern[i] == '_' || lower_char(pattern[i]) == lower_char(text[j]))
            && like(pattern, i + 1, text, j + 1)
    }
}

/// The first place from `k` on where a text is cut short by the character 0, or its end.
pub open spec fn cut_from(s: Seq<char>, k: int) -> int
    decreases s.len() - k,
{
    if k >= s.len() || s[k] == '\0' {
        k
    } else {
        cut_from(s, k + 1)
    }
}

/// The text as far as patterns see it: up to the first character 0.
pub open spec fn visible(s: Seq<char>) -> Seq<char> {
    s.take(cut_from(s, 0))
}

/// The pattern for whatever begins with the prefix.
pub open spec fn pattern_of(prefix: Seq<char>) -> Seq<char> {
    prefix + "%"@
}

/// Whether the kind begins as the prefix says.
pub open spec fn kind_matches(prefix: Seq<char>, kind: Seq<char>) -> bool {
    like(visible(pattern_of(prefix)), 0, visible(kind), 0)
}

/// How many bytes a pattern has at most.
pub const MAX_PATTERN_BYTES: usize = 50_000;

/// Why nothing can be recalled, where nothing can: the pattern is too long.
pub open spec fn recall_refusal(p: RecallParams) -> Option<Error<Seq<char>>> {
    match p.kind_prefix {
        Some(t) => if byte_len(pattern_of(t@)) > MAX_PATTERN_BYTES {
            Some(Error::PatternTooLong)
        } else {
            None
        },
        None => None,
    }
}

pub(crate) proof fn lemma_cut(s: Seq<char>, k: int)
    requires
        0 <= k <= s.len(),
    ensures
        k <= cut_from(s, k) <= s.len(),
        forall|i: int| k <= i < cut_from(s, k) ==> #[trigger] s[i] != '\0',
        cut_from(s, k) < s.len() ==> s[cut_from(s, k)] == '\0',
    decreases s.len() - k,
{
    if k < s.len() && s[k] != '\0' {
        lemma_cut(s, k + 1);
    }
}

fn fold(c: char) -> (r: char)
    ensures
        r == lower_char(c),
{
    if 'A' <= c && c <= 'Z' {
        ((c as u8) + 32) as char
    } else {
        c
    }
}

/// The characters of a text up to the first character 0.
fn visible_chars(s: &str) -> (r: Vec<char>)
    ensures
        r@ == visible(s@),
{
    let all = chars(s);
    let mut out: Vec<char> = Vec::new();
    while out.len() < all.len() && all[out.len()] != '\0'
        invariant
            out.len() <= all.len(),
            all@ == s@,
            out@ == s@.take(out.len() as int),
            cut_from(s@, 0) == cut_from(s@, out.len() as int),
        decreases all.len() - out.len(),
    {
        let k: usize = out.len();
        out.push(all[k]);
        assert(out@ =~= s@.take(k + 1));
    }
    out
}

/// Whether the row says, for each place of the text, whether the text from there on is like the
/// pattern from place `i` on; `end` says it for the end of the text.
spec fn is_row(row: Seq<bool>, end: bool, pattern: Seq<char>, i: int, text: Seq<char>) -> bool {
    &&& row.len() == text.len()
    &&& end == like(pattern, i, text, text.len() as int)
    &&& forall|j: int| 0 <= j < row.len() ==> #[trigger] row[j] == like(pattern, i, text, j)
}

/// Goes back over a `%` of the pattern: it takes nothing, or one character and then what it
/// can.
fn step_any(row: &mut Vec<bool>, end: bool, Ghost(pattern): Ghost<Seq<char>>, Ghost(i): Ghost<int>, text: &Vec<char>)
    requires
        0 <= i < pattern.len(),
        pattern[i] == '%',
        is_row(old(row)@, end, pattern, i + 1, text@),
    ensures
        is_row(final(row)@, end, pattern, i, text@),
{
    let n: usize = text.len();
    let mut next = end;
    let mut j: usize = n;
    while j > 0
        invariant
            j <= n,
            n == text.len(),
            row.len() == n,
            0 <= i < pattern.len(),
            pattern[i] == '%',
            next == like(pattern, i, text@, j as int),
            forall|k: int| 0 <= k < j ==> #[trigger] row@[k] == like(pattern, i + 1, text@, k),
            forall|k: int| j <= k < n ==> #[trigger] row@[k] == like(pattern, i, text@, k),
        decreases j,
    {
        j = j - 1;
        next = row[j] || next;
        row.set(j, next);
    }
}

/// Goes back over another character of the pattern: it takes one that it stands for.
fn step_one(
    row: &mut Vec<bool>,
    end: bool,
    Ghost(pattern): Ghost<Seq<char>>,
    Ghost(i): Ghost<int>,
    c: char,
    text: &Vec<char>,
)
    requires
        0 <= i < pattern.len(),
        pattern[i] == c,
        c != '%',
        is_row(old(row)@, end, pattern, i + 1, text@),
    ensures
        is_row(final(row)@, false, pattern, i, text@),
{
    let n: usize = text.len();
    let mut j: usize = 0;
    while j < n
        invariant
            j <= n,
            n == text.len(),
            row.len() == n,
            0 <= i < pattern.len(),
            pattern[i] == c,
            c != '%',
            end == like(pattern, i + 1, text@, n as int),
            forall|k: int| 0 <= k < j ==> #[trigger] row@[k] == like(pattern, i, text@, k),
            forall|k: int| j <= k < n ==> #[trigger] row@[k] == like(pattern, i + 1, text@, k),
        decreases n - j,
    {
        let next = if j + 1 < n {
            row[j + 1]
        } else {
            end
        };
        assert(next == like(pattern, i + 1, text@, j + 1));
        let here = (c == '_' || fold(c) == fold(text[j])) && next;
        row.set(j, here);
        j = j + 1;
    }
}

/// Whether the text is like the pattern: place by place of the pattern, from its end, it is
/// worked out from which places of the text on the rest is like the rest of the pattern.
fn is_like(pattern: &Vec<char>, text: &Vec<char>) -> (r: bool)
    ensures
        r == like(pattern@, 0, text@, 0),
{
    let n: usize = text.len();
    let mut row: Vec<bool> = Vec::new();
    while row.len() < n
        invariant
            row.len() <= n,
            n == text.len(),
            forall|j: int| 0 <= j < row@.len() ==> !(#[trigger] row@[j]),
        decreases n - row.len(),
    {
        row.push(false);
    }
    let mut end = true;
    let mut i: usize = pattern.len();
    assert(is_row(row@, end, pattern@, i as int, text@));
    while i > 0
        invariant
            i <= pattern.len(),
            is_row(row@, end, pattern@, i as int, text@),
        decreases i,
    {
        i = i - 1;
        if pattern[i] == '%' {
            step_any(&mut row, end, Ghost(pattern@), Ghost(i as int), text);
        } else {
            step_one(&mut row, end, Ghost(pattern@), Ghost(i as int), pattern[i], text);
            end = false;
        }
    }
    if n == 0 {
        end
    } else {
        row[0]
    }
}

/// A prefix that holds none of the two signs is one in the plain sense, but for the case of
/// letters: whatever begins with it is recalled.
pub proof fn law_kind_begins_with_prefix(prefix: Seq<char>, rest: Seq<char>)
    requires
        forall|i: int|
            0 <= i < prefix.len() ==> #[trigger] prefix[i] != '%' && prefix[i] != '_' && prefix[i] != '\0',
    ensures
        kind_matches(prefix, prefix + rest),
{
    reveal_strlit("%");
    let pattern = pattern_of(prefix);
    let text = prefix + rest;
    lemma_cut(pattern, 0);
    lemma_cut(text, 0);
    let (n, m) = (cut_from(pattern, 0), cut_from(text, 0));
    if n < prefix.len() {
        assert(pattern[n] == prefix[n]);
    } else if n < pattern.len() {
        assert(pattern[n] == '%');
    }
    assert(visible(pattern) =~= pattern);
    if m < prefix.len() {
        assert(text[m] == prefix[m]);
    }
    let seen = visible(text).skip(prefix.len() as int);
    assert(visible(text) =~= prefix + seen);
    lemma_same_beginning(prefix, seen, 0);
}

/// What begins with another character does not match.
pub(crate) proof fn lemma_other_beginning(prefix: Seq<char>, kind: Seq<char>)
    requires
        prefix.len() > 0,
        prefix[0] != '%' && prefix[0] != '_' && prefix[0] != '\0',
        kind.len() > 0,
        lower_char(kind[0]) != lower_char(prefix[0]),
    ensures
        !kind_matches(prefix, kind),
{
    reveal_strlit("%");
    let pattern = pattern_of(prefix);
    assert(pattern[0] == prefix[0]);
    lemma_cut(pattern, 0);
    lemma_cut(kind, 0);
    assert(cut_from(pattern, 0) > 0);
    assert(visible(pattern)[0] == prefix[0]);
    if cut_from(kind, 0) > 0 {
        assert(visible(kind)[0] == kind[0]);
    }
}

proof fn lemma_same_beginning(prefix: Seq<char>, rest: Seq<char>, i: int)
    requires
        0 <= i <= prefix.len(),
        "%"@.len() == 1,
        "%"@[0] == '%',
        forall|k: int| 0 <= k < prefix.len() ==> #[trigger] prefix[k] != '%' && prefix[k] != '_',
    ensures
        like(prefix + "%"@, i, prefix + rest, i),
    decreases prefix.len() - i,
{
    let pattern = prefix + "%"@;
    let text = prefix + rest;
    if i < prefix.len() {
        assert(pattern[i] == prefix[i] && text[i] == prefix[i]);
        lemma_same_beginning(prefix, rest, i + 1);
    } else {
        lemma_any(pattern, i, text, i);
    }
}

/// A pattern that ends in `%` takes whatever is left.
proof fn lemma_any(pattern: Seq<char>, i: int, text: Seq<char>, j: int)
    requires
        0 <= i,
        i == pattern.len() - 1,
        pattern[i] == '%',
        0 <= j <= text.len(),
    ensures
        like(pattern, i, text, j),
    decreases text.len() - j,
{
    if j < text.len() {
        lemma_any(pattern, i, text, j + 1);
    } else {
        assert(like(pattern, i + 1, text, j));
    }
}

// ── What is recalled ──

/// Whether the character is among the participants.
pub open spec fn takes_part(list: Seq<EventParticipant>, id: i64) -> bool {
    exists|i: int| 0 <= i < list.len() && (#[trigger] list[i]).character_id == id
}

/// Whether the item is among the items.
pub open spec fn is_involved(list: Seq<EventItem<Seq<char>>>, id: i64) -> bool {
    exists|i: int| 0 <= i < list.len() && (#[trigger] list[i]).item_id == id
}

/// Whether the entry is of the sort that is asked for.
pub open spec fn wanted(p: RecallParams, e: EventView) -> bool {
    &&& p.zone_id matches Some(z) ==> e.zone_id == Some(z)
    &&& p.other_character_id matches Some(c) ==> takes_part(e.participants, c)
    &&& p.other_item_id matches Some(i) ==> is_involved(e.items, i)
    &&& p.kind_prefix matches Some(t) ==> kind_matches(t@, e.kind)
    &&& p.since_hour matches Some(h) ==> e.campaign_hour >= h
}

/// An entry as it is recalled by someone with a role in it.
pub open spec fn recollection(e: EventView, role: EventRole) -> RecalledEvent<Seq<char>> {
    RecalledEvent {
        event_id: e.id,
        kind: e.kind,
        campaign_hour: e.campaign_hour,
        combat_round: e.combat_round,
        zone_id: e.zone_id,
        encounter_id: e.encounter_id,
        summary: e.summary,
        role: role.text(),
    }
}

/// The entry as the character recalls it, once for each role among the first `n`
/// participants that it has.
pub open spec fn roles_in(e: EventView, id: i64, n: nat) -> Seq<RecalledEvent<Seq<char>>>
    decreases n,
{
    if n == 0 {
        Seq::empty()
    } else {
        let before = roles_in(e, id, (n - 1) as nat);
        if e.participants[n - 1].character_id == id {
            before.push(recollection(e, e.participants[n - 1].role))
        } else {
            before
        }
    }
}

/// All that the character recalls of the entries, in the order of the log.
pub open spec fn memories(p: RecallParams, events: Seq<EventView>) -> Seq<RecalledEvent<Seq<char>>>
    decreases events.len(),
{
    if events.len() == 0 {
        Seq::empty()
    } else {
        let before = memories(p, events.drop_last());
        let e = events.last();
        if wanted(p, e) {
            before + roles_in(e, p.character_id, e.participants.len())
        } else {
            before
        }
    }
}

/// Whether one is recalled before the other: the later hour first, and of one hour the later
/// entry.
pub open spec fn fresher<S>(a: RecalledEvent<S>, b: RecalledEvent<S>) -> bool {
    a.campaign_hour > b.campaign_hour || (a.campaign_hour == b.campaign_hour && a.event_id > b.event_id)
}

/// The place, from `k` on, before which `x` belongs.
pub open spec fn place_for(s: Seq<RecalledEvent<Seq<char>>>, x: RecalledEvent<Seq<char>>, k: int) -> int
    decreases s.len() - k,
{
    if k >= s.len() {
        s.len() as int
    } else if fresher(x, s[k]) {
        k
    } else {
        place_for(s, x, k + 1)
    }
}

/// The recollections, newest first.
pub open spec fn newest_first(rows: Seq<RecalledEvent<Seq<char>>>) -> Seq<RecalledEvent<Seq<char>>>
    decreases rows.len(),
{
    if rows.len() == 0 {
        Seq::empty()
    } else {
        let rest = newest_first(rows.drop_last());
        rest.insert(place_for(rest, rows.last(), 0), rows.last())
    }
}

/// How many are recalled at most.
pub open spec fn limit_of(p: RecallParams) -> int {
    match p.limit {
        Some(n) => if n < 1 {
            1
        } else if n > 500 {
            500
        } else {
            n as int
        },
        None => 50,
    }
}

/// What the character recalls.
pub open spec fn recalled(w: World, p: RecallParams) -> Seq<RecalledEvent<Seq<char>>> {
    let all = newest_first(memories(p, w.events));
    if all.len() > limit_of(p) {
        all.take(limit_of(p))
    } else {
        all
    }
}

proof fn lemma_place(s: Seq<RecalledEvent<Seq<char>>>, x: RecalledEvent<Seq<char>>, k: int)
    requires
        0 <= k <= s.len(),
    ensures
        k <= place_for(s, x, k) <= s.len(),
        forall|i: int| k <= i < place_for(s, x, k) ==> !fresher(x, #[trigger] s[i]),
        place_for(s, x, k) < s.len() ==> fresher(x, s[place_for(s, x, k)]),
    decreases s.len() - k,
{
    if k < s.len() && !fresher(x, s[k]) {
        lemma_place(s, x, k + 1);
    }
}

/// Recollections come newest first, and none is lost or made up on the way.
pub proof fn law_newest_comes_first(rows: Seq<RecalledEvent<Seq<char>>>)
    ensures
        newest_first(rows).to_multiset() =~= rows.to_multiset(),
        newest_first(rows).len() == rows.len(),
        forall|i: int, j: int|
            #![trigger newest_first(rows)[i], newest_first(rows)[j]]
            0 <= i < j < rows.len() ==> !fresher(newest_first(rows)[j], newest_first(rows)[i]),
    decreases rows.len(),
{
    broadcast use vstd::seq_lib::group_to_multiset_ensures;

    if rows.len() == 0 {
        assert(newest_first(rows) =~= rows);
    } else {
        let x = rows.last();
        law_newest_comes_first(rows.drop_last());
        let rest = newest_first(rows.drop_last());
        let k = place_for(rest, x, 0);
        lemma_place(rest, x, 0);
        let s = rest.insert(k, x);
        assert(rows =~= rows.drop_last().push(x));
        vstd::seq_lib::to_multiset_insert(rest, k, x);
        assert(s.len() == rows.len());
        assert forall|i: int, j: int| #![trigger s[i], s[j]] 0 <= i < j < rows.len() implies !fresher(
            s[j],
            s[i],
        ) by {
            let a = if i < k {
                rest[i]
            } else if i == k {
                x
            } else {
                rest[i - 1]
            };
            let b = if j < k {
                rest[j]
            } else if j == k {
                x
            } else {
                rest[j - 1]
            };
            assert(s[i] == a && s[j] == b);
            if j == k {
                assert(!fresher(x, rest[i]));
            } else if i == k {
                assert(fresher(x, rest[k]));
                if j - 1 > k {
                    assert(!fresher(rest[j - 1], rest[k]));
                }
            } else if i < k && j > k {
                assert(!fresher(rest[j - 1], rest[i]));
            } else if i > k {
                assert(!fresher(rest[j - 1], rest[i - 1]));
            } else {
                assert(!fresher(rest[j], rest[i]));
            }
        }
    }
}

// ── Execution ──

fn find_participant(list: &Vec<EventParticipant>, id: i64) -> (r: bool)
    ensures
        r == takes_part(list@, id),
{
    let mut i: usize = 0;
    while i < list.len()
        invariant
            i <= list.len(),
            forall|j: int| 0 <= j < i ==> (#[trigger] list@[j]).character_id != id,
        decreases list.len() - i,
    {
        if list[i].character_id == id {
            return true;
        }
        i = i + 1;
    }
    false
}

fn find_item(list: &Vec<EventItem>, id: i64) -> (r: bool)
    ensures
        r == is_involved(views(list@), id),
{
    let ghost seen = views(list@);
    let mut i: usize = 0;
    while i < list.len()
        invariant
            i <= list.len(),
            seen == views(list@),
            forall|j: int| 0 <= j < i ==> (#[trigger] seen[j]).item_id != id,
        decreases list.len() - i,
    {
        assert(seen[i as int] == list@[i as int]@);
        if list[i].item_id == id {
            return true;
        }
        i = i + 1;
    }
    false
}

fn has_kind(prefix: &str, kind: &str) -> (r: bool)
    ensures
        r == kind_matches(prefix@, kind@),
{
    let mut pattern = prefix.to_owned();
    pattern.append("%");
    is_like(&visible_chars(pattern.as_str()), &visible_chars(kind))
}

fn check_wanted(p: &RecallParams, e: &Event) -> (r: bool)
    ensures
        r == wanted(*p, e@),
{
    if let Some(z) = p.zone_id {
        let there = match e.zone_id {
            Some(y) => y == z,
            None => false,
        };
        if !there {
            return false;
        }
    }
    if let Some(x) = p.other_character_id {
        if !find_participant(&e.participants, x) {
            return false;
        }
    }
    if let Some(x) = p.other_item_id {
        if !find_item(&e.items, x) {
            return false;
        }
    }
    if let Some(t) = &p.kind_prefix {
        if !has_kind(t.as_str(), e.kind.as_str()) {
            return false;
        }
    }
    if let Some(h) = p.since_hour {
        if e.campaign_hour < h {
            return false;
        }
    }
    true
}

fn recollect(e: &Event, role: EventRole) -> (r: RecalledEvent)
    ensures
        r@ == recollection(e@, role),
{
    RecalledEvent {
        event_id: e.id,
        kind: e.kind.clone(),
        campaign_hour: e.campaign_hour,
        combat_round: e.combat_round,
        zone_id: e.zone_id,
        encounter_id: e.encounter_id,
        summary: e.summary.clone(),
        role: role.as_str().to_owned(),
    }
}

/// Where a recollection belongs among those that are in order.
fn find_place(s: &Vec<RecalledEvent>, x: &RecalledEvent) -> (r: usize)
    ensures
        r == place_for(views(s@), x@, 0),
        r <= s.len(),
{
    let ghost seen = views(s@);
    let mut k: usize = 0;
    while k < s.len()
        invariant
            k <= s.len(),
            seen == views(s@),
            place_for(seen, x@, 0) == place_for(seen, x@, k as int),
        decreases s.len() - k,
    {
        let y = &s[k];
        assert(seen[k as int] == y@);
        if x.campaign_hour > y.campaign_hour || (x.campaign_hour == y.campaign_hour
            && x.event_id > y.event_id) {
            return k;
        }
        k = k + 1;
    }
    k
}

proof fn lemma_one_more(rows: Seq<RecalledEvent<Seq<char>>>, x: RecalledEvent<Seq<char>>)
    ensures
        newest_first(rows.push(x)) == newest_first(rows).insert(place_for(newest_first(rows), x, 0), x),
{
    assert(rows.push(x).drop_last() =~= rows);
}

/// Takes up the entry, once for each role that the character has in it.
fn take_up(out: &mut Vec<RecalledEvent>, e: &Event, id: i64, Ghost(rows): Ghost<Seq<RecalledEvent<Seq<char>>>>)
    requires
        views(old(out)@) == newest_first(rows),
    ensures
        views(final(out)@) == newest_first(rows + roles_in(e@, id, e@.participants.len())),
{
    let mut n: usize = 0;
    assert(rows + roles_in(e@, id, 0) =~= rows);
    while n < e.participants.len()
        invariant
            n <= e.participants.len(),
            e.participants@ == e@.participants,
            views(out@) == newest_first(rows + roles_in(e@, id, n as nat)),
        decreases e.participants.len() - n,
    {
        let ghost so_far = rows + roles_in(e@, id, n as nat);
        if e.participants[n].character_id == id {
            let x = recollect(e, e.participants[n].role);
            let ghost v = x@;
            let ghost b4 = out@;
            let k: usize = find_place(out, &x);
            out.insert(k, x);
            proof {
                lemma_one_more(so_far, v);
                assert(views(out@) =~= views(b4).insert(k as int, v));
                assert(rows + roles_in(e@, id, (n + 1) as nat) =~= so_far.push(v));
            }
        }
        n = n + 1;
    }
}

/// Whether a pattern for the prefix is too long.
fn check_length(prefix: &str) -> (r: bool)
    ensures
        r == (byte_len(pattern_of(prefix@)) > MAX_PATTERN_BYTES),
{
    let mut text = prefix.to_owned();
    text.append("%");
    let s = chars(text.as_str());
    let mut used: usize = 0;
    let mut i: usize = 0;
    assert(s@.take(0) =~= Seq::<char>::empty());
    while i < s.len()
        invariant
            i <= s.len(),
            s@ == pattern_of(prefix@),
            used == byte_len(s@.take(i as int)),
            used <= MAX_PATTERN_BYTES,
        decreases s.len() - i,
    {
        let n: usize = width(s[i]);
        proof {
            lemma_byte_len_next(s@, i as int);
            lemma_byte_len_split(s@, i + 1);
        }
        used = used + n;
        if used > MAX_PATTERN_BYTES {
            return true;
        }
        i = i + 1;
    }
    assert(s@.take(i as int) =~= s@);
    false
}

/// What a character took part in and is asked for, newest first. Where the pattern for the
/// kinds is too long nothing is looked for.
pub fn recall(c: &Campaign, p: RecallParams) -> (r: Result<RecallResult, Error>)
    ensures
        match recall_refusal(p) {
            Some(e) => r is Err && r->Err_0@ == e,
            None => r is Ok && views(r->Ok_0.events@) == recalled(c@, p),
        },
{
    if let Some(t) = &p.kind_prefix {
        if check_length(t.as_str()) {
            return Err(Error::PatternTooLong);
        }
    }
    let ghost log = c@.events;
    let mut all: Vec<RecalledEvent> = Vec::new();
    let mut i: usize = 0;
    assert(views(all@) =~= newest_first(memories(p, log.take(0))));
    while i < c.events.len()
        invariant
            i <= c.events.len(),
            log == c@.events,
            log.len() == c.events.len(),
            views(all@) == newest_first(memories(p, log.take(i as int))),
        decreases c.events.len() - i,
    {
        let e = &c.events[i];
        proof {
            assert(log[i as int] == e@);
            assert(log.take(i + 1).drop_last() =~= log.take(i as int));
        }
        if check_wanted(&p, e) {
            take_up(&mut all, e, p.character_id, Ghost(memories(p, log.take(i as int))));
        }
        i = i + 1;
    }
    assert(log.take(i as int) =~= log);
    let limit: i64 = match p.limit {
        Some(n) => if n < 1 {
            1
        } else if n > 500 {
            500
        } else {
            n
        },
        None => 50,
    };
    let ghost whole = views(all@);
    if all.len() > limit as usize {
        all.truncate(limit as usize);
        assert(views(all@) =~= whole.take(limit as int));
    }
    Ok(RecallResult { events: all })
}

/// Whether `x` is how the character recalls entry `i` in the role of participant `j`.
pub open spec fn recalls(
    p: RecallParams,
    events: Seq<EventView>,
    x: RecalledEvent<Seq<char>>,
    i: int,
    j: int,
) -> bool {
    &&& 0 <= i < events.len()
    &&& 0 <= j < events[i].participants.len()
    &&& wanted(p, events[i])
    &&& events[i].participants[j].character_id == p.character_id
    &&& x == recollection(events[i], events[i].participants[j].role)
}

/// Whether the character recalls `x` of some entry.
pub open spec fn is_memory(p: RecallParams, events: Seq<EventView>, x: RecalledEvent<Seq<char>>) -> bool {
    exists|i: int, j: int| recalls(p, events, x, i, j)
}

proof fn lemma_roles_in(e: EventView, id: i64, n: nat)
    requires
        n <= e.participants.len(),
    ensures
        roles_in(e, id, n).len() <= n,
        forall|k: int|
            #![trigger roles_in(e, id, n)[k]]
            0 <= k < roles_in(e, id, n).len() ==> exists|j: int|
                0 <= j < n && (#[trigger] e.participants[j]).character_id == id && roles_in(e, id, n)[k]
                    == recollection(e, e.participants[j].role),
        forall|j: int|
            0 <= j < n && (#[trigger] e.participants[j]).character_id == id ==> roles_in(e, id, n).contains(
                recollection(e, e.participants[j].role),
            ),
    decreases n,
{
    if n > 0 {
        let m = (n - 1) as nat;
        lemma_roles_in(e, id, m);
        let before = roles_in(e, id, m);
        let all = roles_in(e, id, n);
        assert forall|k: int|
            #![trigger all[k]]
            0 <= k < all.len() implies exists|j: int|
            0 <= j < n && (#[trigger] e.participants[j]).character_id == id && all[k] == recollection(
                e,
                e.participants[j].role,
            ) by {
            if k < before.len() {
                assert(all[k] == before[k]);
            } else {
                assert(e.participants[n - 1].character_id == id);
            }
        }
        assert forall|j: int| 0 <= j < n
            && (#[trigger] e.participants[j]).character_id == id implies all.contains(
            recollection(e, e.participants[j].role),
        ) by {
            let x = recollection(e, e.participants[j].role);
            if j < m {
                assert(before.contains(x));
                let k = choose|k: int| 0 <= k < before.len() && before[k] == x;
                assert(all[k] == x);
            } else {
                assert(all[all.len() - 1] == x);
            }
        }
    }
}

proof fn lemma_memories(p: RecallParams, events: Seq<EventView>)
    ensures
        forall|k: int|
            0 <= k < memories(p, events).len() ==> is_memory(p, events, #[trigger] memories(p, events)[k]),
        forall|x: RecalledEvent<Seq<char>>, i: int, j: int|
            recalls(p, events, x, i, j) ==> memories(p, events).contains(x),
    decreases events.len(),
{
    if events.len() > 0 {
        let rest = events.drop_last();
        let e = events.last();
        let last = events.len() - 1;
        lemma_memories(p, rest);
        lemma_roles_in(e, p.character_id, e.participants.len());
        let before = memories(p, rest);
        let here = roles_in(e, p.character_id, e.participants.len());
        let all = memories(p, events);
        assert forall|k: int| 0 <= k < all.len() implies is_memory(p, events, #[trigger] all[k]) by {
            if k < before.len() {
                assert(all[k] == before[k]);
                assert(is_memory(p, rest, before[k]));
                let (i, j) = choose|i: int, j: int| recalls(p, rest, before[k], i, j);
                assert(recalls(p, events, all[k], i, j));
            } else {
                assert(all[k] == here[k - before.len()]);
                let j = choose|j: int|
                    0 <= j < e.participants.len() && (#[trigger] e.participants[j]).character_id
                        == p.character_id && here[k - before.len()] == recollection(e, e.participants[j].role);
                assert(recalls(p, events, all[k], last, j));
            }
        }
        assert forall|x: RecalledEvent<Seq<char>>, i: int, j: int| recalls(p, events, x, i, j) implies all.contains(
            x,
        ) by {
            if i < last {
                assert(recalls(p, rest, x, i, j));
                let k = choose|k: int| 0 <= k < before.len() && before[k] == x;
                assert(all[k] == x);
            } else {
                assert(here.contains(x));
                let k = choose|k: int| 0 <= k < here.len() && here[k] == x;
                assert(all[before.len() + k] == x);
            }
        }
    }
}

/// Nothing is made up: whatever is recalled is an entry of the log that is asked for and in
/// which the character has that role.
pub proof fn law_recall_makes_nothing_up(w: World, p: RecallParams, k: int)
    requires
        0 <= k < recalled(w, p).len(),
    ensures
        is_memory(p, w.events, recalled(w, p)[k]),
{
    broadcast use vstd::seq_lib::group_to_multiset_ensures;

    let all = memories(p, w.events);
    law_newest_comes_first(all);
    lemma_memories(p, w.events);
    let x = recalled(w, p)[k];
    assert(newest_first(all)[k] == x);
    assert(newest_first(all).contains(x));
    assert(all.to_multiset().count(x) > 0);
    assert(all.contains(x));
    let m = choose|m: int| 0 <= m < all.len() && all[m] == x;
    assert(all[m] == x);
}

/// Nothing is forgotten but for the limit: an entry that is asked for and in which the
/// character takes part is recalled, or as many others are as can be, none of them older.
pub proof fn law_recall_forgets_nothing(w: World, p: RecallParams, x: RecalledEvent<Seq<char>>, i: int, j: int)
    requires
        recalls(p, w.events, x, i, j),
    ensures
        recalled(w, p).contains(x) || {
            &&& recalled(w, p).len() == limit_of(p)
            &&& forall|k: int| 0 <= k < recalled(w, p).len() ==> !fresher(x, #[trigger] recalled(w, p)[k])
        },
{
    broadcast use vstd::seq_lib::group_to_multiset_ensures;

    let all = memories(p, w.events);
    let sorted = newest_first(all);
    law_newest_comes_first(all);
    lemma_memories(p, w.events);
    assert(all.contains(x));
    assert(sorted.to_multiset().count(x) > 0);
    assert(sorted.contains(x));
    let m = choose|m: int| 0 <= m < sorted.len() && sorted[m] == x;
    if m < recalled(w, p).len() {
        assert(recalled(w, p)[m] == x);
    } else {
        assert forall|k: int| 0 <= k < recalled(w, p).len() implies !fresher(x, #[trigger] recalled(w, p)[k]) by {
            assert(recalled(w, p)[k] == sorted[k]);
            assert(sorted[m] == x);
        }
    }
}

} // verus!
