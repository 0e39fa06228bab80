//! Settings: what the `DMMCP_` variables say, and what holds where they say nothing.

use vstd::prelude::*;
use crate::campaign::char_bytes;
use crate::error::Error;
use crate::events::width;
use crate::text::{
    chars, decimal, find_number_fault, i64_value, int_text, is_space, lower, number_fault, opt_text, parse_i64,
    parse_u16, parse_usize, same, space, to_lower, to_upper, trim, trimmed, u16_value, upper, usize_value,
};

verus! {

/// The values of the variables, as far as they are set.
#[derive(Debug, Clone, PartialEq, Eq)]
pub struct Variables {
    /// `DMMCP_DB_PATH`
    pub db_path: Option<String>,
    /// `DMMCP_DB_JOURNAL_MODE`
    pub db_journal_mode: Option<String>,
    /// `DMMCP_DB_SYNCHRONOUS`
    pub db_synchronous: Option<String>,
    /// `DMMCP_DB_MMAP_SIZE`
    pub db_mmap_size: Option<String>,
    /// `DMMCP_DB_CACHE_SIZE`
    pub db_cache_size: Option<String>,
    /// `DMMCP_HTTP_BIND`
    pub http_bind: Option<String>,
    /// `DMMCP_HTTP_PORT`
    pub http_port: Option<String>,
    /// `DMMCP_HTTP_AUTH_TOKEN`
    pub http_auth_token: Option<String>,
    /// `DMMCP_HTTP_MAX_BODY_BYTES`
    pub http_max_body_bytes: Option<String>,
    /// `DMMCP_LOG_LEVEL`
    pub log_level: Option<String>,
    /// `DMMCP_CONTENT_DIR`
    pub content_dir: Option<String>,
}

#[derive(Debug, Clone, PartialEq, Eq)]
pub struct Config {
    pub db: DbConfig,
    pub http: HttpConfig,
    pub log_level: String,
    pub content_dir: Option<String>,
}

#[derive(Debug, Clone, PartialEq, Eq)]
pub struct DbConfig {
    pub path: String,
    pub journal_mode: String,
    pub synchronous: String,
    pub mmap_size: i64,
    pub cache_size: i64,
}

#[derive(Debug, Clone, PartialEq, Eq)]
pub struct HttpConfig {
    /// The address to listen on: this machine alone, where nothing else is said.
    pub bind: String,
    pub port: u16,
    /// The token that requests have to bring. Without it anybody may ask.
    pub auth_token: Option<String>,
    /// The largest body that is taken.
    pub max_body_bytes: usize,
}

/// What a variable says. One that is empty says nothing.
pub open spec fn said(v: Option<String>) -> Option<Seq<char>> {
    match v {
        Some(t) => if t@.len() == 0 {
            None
        } else {
            Some(t@)
        },
        None => None,
    }
}

/// The text, or what holds where there is none.
pub open spec fn text_or(v: Option<String>, default: Seq<char>) -> Seq<char> {
    match said(v) {
        Some(t) => t,
        None => default,
    }
}

/// The number, or what holds where there is none.
pub open spec fn number_or(v: Option<String>, default: int) -> int {
    match said(v) {
        Some(t) => i64_value(t)->0 as int,
        None => default,
    }
}

// ── Modes and levels ──

/// Whether SQLite has the journal mode.
pub open spec fn is_journal_mode(s: Seq<char>) -> bool {
    s == "DELETE"@ || s == "TRUNCATE"@ || s == "PERSIST"@ || s == "MEMORY"@ || s == "WAL"@ || s == "OFF"@
}

/// Whether SQLite has the synchronous mode.
pub open spec fn is_synchronous(s: Seq<char>) -> bool {
    s == "OFF"@ || s == "NORMAL"@ || s == "FULL"@ || s == "EXTRA"@
}

/// Whether it is the name of a level.
pub open spec fn is_level(s: Seq<char>) -> bool {
    s == "trace"@ || s == "debug"@ || s == "info"@ || s == "warn"@ || s == "error"@ || s == "off"@
}

/// Whether the text has something to say of targets, and is not just one word.
pub open spec fn is_directive(s: Seq<char>) -> bool {
    s.contains('=') || s.contains(',')
}

/// How many bytes the text takes from place `a` up to place `b`.
pub open spec fn bytes_between(s: Seq<char>, a: int, b: int) -> int
    decreases b - a,
{
    if b <= a {
        0
    } else {
        bytes_between(s, a, b - 1) + char_bytes(s[b - 1])
    }
}

/// Where the white space that stands at place `i` is over.
pub open spec fn after_space(s: Seq<char>, i: int) -> int
    decreases s.len() - i,
{
    if 0 <= i < s.len() && is_space(s[i]) {
        after_space(s, i + 1)
    } else {
        i
    }
}

/// The first place from `i` on at which one of the two characters stands or a part ends.
pub open spec fn first_of(s: Seq<char>, i: int, a: char, b: char) -> int
    decreases s.len() - i,
{
    if i >= s.len() || s[i] == ',' || s[i] == a || s[i] == b {
        i
    } else {
        first_of(s, i + 1, a, b)
    }
}

pub open spec fn stands(s: Seq<char>, i: int, c: char) -> bool {
    0 <= i < s.len() && s[i] == c
}

/// Whether the part that begins at place `i` is cut between two characters where it is cut for
/// the sake of place `d`. The bytes up to `d` are counted from where the white space at the
/// beginning is over, but the part is cut as many bytes from where it begins.
pub open spec fn cut_between(s: Seq<char>, i: int, d: int) -> bool {
    exists|c: int|
        i <= c <= d && #[trigger] bytes_between(s, i, c) == bytes_between(s, after_space(s, i), d)
}

/// Whether the part that begins at place `i` is cut between characters in front of the level
/// that may come at place `l`.
pub open spec fn level_cut(s: Seq<char>, i: int, l: int) -> bool {
    stands(s, l, '=') ==> cut_between(s, i, l + 1)
}

/// Whether the part that begins at place `i` is cut between characters wherever it is cut: at
/// both ends of the target, of the span behind it in square brackets, and of the field of the
/// span in curly ones.
pub open spec fn part_whole(s: Seq<char>, i: int) -> bool {
    let target = first_of(s, after_space(s, i), '=', '[');
    let span = first_of(s, target + 1, ']', '{');
    let fields = first_of(s, span + 1, '}', '}');
    &&& stands(s, target, '=') ==> cut_between(s, i, target) && cut_between(s, i, target + 1)
    &&& stands(s, target, '[') ==> {
        &&& cut_between(s, i, target) && cut_between(s, i, target + 1)
        &&& stands(s, span, ']') ==> cut_between(s, i, span) && level_cut(s, i, span + 1)
        &&& stands(s, span, '{') ==> {
            &&& cut_between(s, i, span) && cut_between(s, i, span + 1)
            &&& stands(s, fields, '}') ==> cut_between(s, i, fields)
            &&& stands(s, fields, '}') && stands(s, fields + 1, ']') ==> level_cut(s, i, fields + 2)
        }
    }
}

/// Whether a part of the text begins at place `i`.
pub open spec fn part_begins(s: Seq<char>, i: int) -> bool {
    0 <= i < s.len() && (i == 0 || s[i - 1] == ',')
}

/// Whether no part of the text between commas is cut inside a character.
pub open spec fn cut_whole(s: Seq<char>) -> bool {
    forall|i: int| #[trigger] part_begins(s, i) ==> part_whole(s, i)
}

proof fn lemma_bytes_grow(s: Seq<char>, a: int, b: int, c: int)
    requires
        b <= c,
    ensures
        0 <= bytes_between(s, a, b) <= bytes_between(s, a, c),
    decreases (if b < c {
        c - b
    } else {
        0
    }), (if a < b {
        b - a
    } else {
        0
    }),
{
    if b < c {
        lemma_bytes_grow(s, a, b, c - 1);
    } else if a < b {
        lemma_bytes_grow(s, a, b - 1, b - 1);
    }
}

fn count_bytes(s: &Vec<char>, a: usize, b: usize) -> (r: u128)
    requires
        a <= b <= s.len(),
    ensures
        r == bytes_between(s@, a as int, b as int),
{
    let mut n: u128 = 0;
    let mut i: usize = a;
    while i < b
        invariant
            a <= i <= b <= s.len(),
            n == bytes_between(s@, a as int, i as int),
            n <= 4 * i,
        decreases b - i,
    {
        n = n + width(s[i]) as u128;
        i = i + 1;
    }
    n
}

fn check_cut(s: &Vec<char>, from: usize, start: usize, d: usize) -> (r: bool)
    requires
        from <= start <= d <= s.len(),
        start == after_space(s@, from as int),
    ensures
        r == cut_between(s@, from as int, d as int),
{
    let n: u128 = count_bytes(s, start, d);
    let mut used: u128 = 0;
    let mut c: usize = from;
    while c < d && used < n
        invariant
            from <= c <= d <= s.len(),
            used == bytes_between(s@, from as int, c as int),
            used <= 4 * c,
            forall|k: int| from <= k < c ==> #[trigger] bytes_between(s@, from as int, k) < n,
        decreases d - c,
    {
        used = used + width(s[c]) as u128;
        c = c + 1;
    }
    proof {
        if used != n {
            assert forall|k: int| from <= k <= d implies #[trigger] bytes_between(s@, from as int, k) != n by {
                if k >= c {
                    lemma_bytes_grow(s@, from as int, c as int, k);
                }
            }
        }
    }
    used == n
}

fn skip_space(s: &Vec<char>, from: usize) -> (r: usize)
    requires
        from <= s.len(),
    ensures
        r == after_space(s@, from as int),
        from <= r <= s.len(),
{
    let mut i: usize = from;
    while i < s.len() && space(s[i])
        invariant
            from <= i <= s.len(),
            after_space(s@, from as int) == after_space(s@, i as int),
        decreases s.len() - i,
    {
        i = i + 1;
    }
    i
}

fn find_first(s: &Vec<char>, from: usize, a: char, b: char) -> (r: usize)
    requires
        from <= s.len(),
    ensures
        r == first_of(s@, from as int, a, b),
        from <= r <= s.len(),
{
    let mut i: usize = from;
    while i < s.len() && s[i] != ',' && s[i] != a && s[i] != b
        invariant
            from <= i <= s.len(),
            first_of(s@, from as int, a, b) == first_of(s@, i as int, a, b),
        decreases s.len() - i,
    {
        i = i + 1;
    }
    i
}

fn check_stands(s: &Vec<char>, i: usize, c: char) -> (r: bool)
    ensures
        r == stands(s@, i as int, c),
{
    i < s.len() && s[i] == c
}

fn check_level_cut(s: &Vec<char>, from: usize, start: usize, l: usize) -> (r: bool)
    requires
        from <= start <= l <= s.len(),
        start == after_space(s@, from as int),
    ensures
        r == level_cut(s@, from as int, l as int),
{
    !check_stands(s, l, '=') || check_cut(s, from, start, l + 1)
}

fn check_part(s: &Vec<char>, from: usize) -> (r: bool)
    requires
        from <= s.len(),
    ensures
        r == part_whole(s@, from as int),
{
    let start: usize = skip_space(s, from);
    let target: usize = find_first(s, start, '=', '[');
    if check_stands(s, target, '=') {
        return check_cut(s, from, start, target) && check_cut(s, from, start, target + 1);
    }
    if !check_stands(s, target, '[') {
        return true;
    }
    if !check_cut(s, from, start, target) || !check_cut(s, from, start, target + 1) {
        return false;
    }
    let span: usize = find_first(s, target + 1, ']', '{');
    if check_stands(s, span, ']') {
        return check_cut(s, from, start, span) && check_level_cut(s, from, start, span + 1);
    }
    if !check_stands(s, span, '{') {
        return true;
    }
    if !check_cut(s, from, start, span) || !check_cut(s, from, start, span + 1) {
        return false;
    }
    let fields: usize = find_first(s, span + 1, '}', '}');
    if !check_stands(s, fields, '}') {
        return true;
    }
    if !check_cut(s, from, start, fields) {
        return false;
    }
    !check_stands(s, fields + 1, ']') || check_level_cut(s, from, start, fields + 2)
}

fn check_cuts(t: &str) -> (r: bool)
    ensures
        r == cut_whole(t@),
{
    let s = chars(t);
    let mut i: usize = 0;
    while i < s.len()
        invariant
            i <= s.len(),
            s@ == t@,
            forall|j: int| j < i && #[trigger] part_begins(t@, j) ==> part_whole(t@, j),
        decreases s.len() - i,
    {
        if (i == 0 || s[i - 1] == ',') && !check_part(&s, i) {
            assert(part_begins(t@, i as int));
            return false;
        }
        i = i + 1;
    }
    true
}

/// Why the text is no filter that can be read, in words; nothing where it is one.
pub uninterp spec fn filter_fault(s: Seq<char>) -> Option<Seq<char>>;

/// `tracing_subscriber::EnvFilter::try_new`: the error in words where it does not take the
/// text. Which texts it takes is not said here, only that it says the same of a text each time.
///
/// It counts bytes without the white space at the beginning of a part but cuts the part with
/// it, and so panics where such a cut falls inside a character. Texts that are cut like that
/// are left out.
#[verifier::external_body]
fn try_filter(s: &str) -> (r: Option<String>)
    requires
        cut_whole(s@),
    ensures
        match r {
            Some(cause) => filter_fault(s@) == Some(cause@),
            None => filter_fault(s@) is None,
        },
{
    match tracing_subscriber::EnvFilter::try_new(s) {
        Ok(_) => None,
        Err(e) => Some(e.to_string()),
    }
}

/// Why the text is not taken as a filter: it cannot be cut into its parts, or they cannot be
/// read.
pub open spec fn not_taken(s: Seq<char>) -> Option<Seq<char>> {
    if cut_whole(s) {
        filter_fault(s)
    } else {
        Some("invalid filter directive: cut inside a character"@)
    }
}

fn find_not_taken(t: &str) -> (r: Option<String>)
    ensures
        opt_text(r) == not_taken(t@),
{
    if check_cuts(t) {
        try_filter(t)
    } else {
        Some("invalid filter directive: cut inside a character".to_owned())
    }
}

/// The journal mode in capitals.
pub fn parse_journal_mode(v: &str) -> (r: Result<String, Error>)
    ensures
        match r {
            Ok(s) => is_journal_mode(upper(v@)) && s@ == upper(v@),
            Err(e) => !is_journal_mode(upper(v@)) && e@ == (Error::<Seq<char>>::SettingJournal { value: v@ }),
        },
{
    let s = to_upper(v);
    let t = s.as_str();
    if same(t, "DELETE") || same(t, "TRUNCATE") || same(t, "PERSIST") || same(t, "MEMORY") || same(t, "WAL")
        || same(t, "OFF") {
        Ok(s)
    } else {
        Err(Error::SettingJournal { value: v.to_owned() })
    }
}

/// The synchronous mode in capitals.
pub fn parse_synchronous(v: &str) -> (r: Result<String, Error>)
    ensures
        match r {
            Ok(s) => is_synchronous(upper(v@)) && s@ == upper(v@),
            Err(e) => !is_synchronous(upper(v@)) && e@ == (Error::<Seq<char>>::SettingSynchronous {
                value: v@,
            }),
        },
{
    let s = to_upper(v);
    let t = s.as_str();
    if same(t, "OFF") || same(t, "NORMAL") || same(t, "FULL") || same(t, "EXTRA") {
        Ok(s)
    } else {
        Err(Error::SettingSynchronous { value: v.to_owned() })
    }
}

fn check_level(t: &str) -> (r: bool)
    ensures
        r == is_level(t@),
{
    same(t, "trace") || same(t, "debug") || same(t, "info") || same(t, "warn") || same(t, "error") || same(
        t,
        "off",
    )
}

fn check_directive(t: &str) -> (r: bool)
    ensures
        r == is_directive(t@),
{
    let cs = chars(t);
    let mut i: usize = 0;
    while i < cs.len()
        invariant
            i <= cs.len(),
            cs@ == t@,
            forall|j: int| 0 <= j < i ==> #[trigger] cs@[j] != '=' && cs@[j] != ',',
        decreases cs.len() - i,
    {
        if cs[i] == '=' || cs[i] == ',' {
            assert(t@[i as int] == '=' || t@[i as int] == ',');
            return true;
        }
        i = i + 1;
    }
    false
}

/// What a log level comes to, where it is known why it is no filter, if it is none: a word has
/// to be the name of a level and is written small, anything else has to be a filter.
pub open spec fn level_of(v: Seq<char>, not_filter: Option<Seq<char>>) -> Result<Seq<char>, Error<Seq<char>>> {
    let t = trimmed(v);
    if !is_directive(t) {
        if is_level(lower(t)) {
            Ok(lower(t))
        } else {
            Err(Error::SettingLevel { value: v, level: t })
        }
    } else {
        match not_filter {
            Some(cause) => Err(Error::SettingFilter { value: v, cause }),
            None => Ok(t),
        }
    }
}

/// What a log level comes to, where it is known why it is no filter, if it is none.
pub fn settle_log_level(v: &str, not_filter: Option<String>) -> (r: Result<String, Error>)
    ensures
        match r {
            Ok(s) => level_of(v@, opt_text(not_filter)) == Ok::<Seq<char>, Error<Seq<char>>>(s@),
            Err(e) => level_of(v@, opt_text(not_filter)) == Err::<Seq<char>, Error<Seq<char>>>(e@),
        },
{
    let t = trim(v);
    if !check_directive(t) {
        let small = to_lower(t);
        if check_level(small.as_str()) {
            return Ok(small);
        }
        return Err(Error::SettingLevel { value: v.to_owned(), level: t.to_owned() });
    }
    match not_filter {
        Some(cause) => Err(Error::SettingFilter { value: v.to_owned(), cause }),
        None => Ok(t.to_owned()),
    }
}

/// What a log level comes to. A filter that cannot be cut into its parts is refused like one
/// whose parts cannot be read.
pub fn parse_log_level(v: &str) -> (r: Result<String, Error>)
    ensures
        match r {
            Ok(s) => level_of(v@, not_taken(trimmed(v@))) == Ok::<Seq<char>, Error<Seq<char>>>(s@),
            Err(e) => level_of(v@, not_taken(trimmed(v@))) == Err::<Seq<char>, Error<Seq<char>>>(e@),
        },
{
    let t = trim(v);
    if check_directive(t) {
        settle_log_level(v, find_not_taken(t))
    } else {
        settle_log_level(v, None)
    }
}

// ── The whole ──

/// What is wrong with the journal mode.
pub open spec fn journal_refusal(v: Variables) -> Option<Error<Seq<char>>> {
    match said(v.db_journal_mode) {
        Some(t) => if is_journal_mode(upper(t)) {
            None
        } else {
            Some(Error::SettingJournal { value: t })
        },
        None => None,
    }
}

/// What is wrong with the synchronous mode.
pub open spec fn synchronous_refusal(v: Variables) -> Option<Error<Seq<char>>> {
    match said(v.db_synchronous) {
        Some(t) => if is_synchronous(upper(t)) {
            None
        } else {
            Some(Error::SettingSynchronous { value: t })
        },
        None => None,
    }
}

/// What is wrong with a number that has to be an `i64`.
pub open spec fn i64_refusal(key: Seq<char>, v: Option<String>) -> Option<Error<Seq<char>>> {
    match said(v) {
        Some(t) => if i64_value(t) is Some {
            None
        } else {
            Some(
                Error::SettingNumber {
                    key,
                    value: t,
                    fault: number_fault(t, i64::MIN as int, i64::MAX as int),
                },
            )
        },
        None => None,
    }
}

/// What is wrong with the port.
pub open spec fn port_refusal(v: Variables) -> Option<Error<Seq<char>>> {
    match said(v.http_port) {
        Some(t) => if u16_value(t) is Some {
            None
        } else {
            Some(
                Error::SettingNumber {
                    key: "DMMCP_HTTP_PORT"@,
                    value: t,
                    fault: number_fault(t, 0, u16::MAX as int),
                },
            )
        },
        None => None,
    }
}

/// What is wrong with the size of bodies.
pub open spec fn body_refusal(v: Variables) -> Option<Error<Seq<char>>> {
    match said(v.http_max_body_bytes) {
        Some(t) => if usize_value(t) is Some {
            None
        } else {
            Some(
                Error::SettingNumber {
                    key: "DMMCP_HTTP_MAX_BODY_BYTES"@,
                    value: t,
                    fault: number_fault(t, 0, usize::MAX as int),
                },
            )
        },
        None => None,
    }
}

/// What is wrong with the log level.
pub open spec fn level_refusal(v: Variables) -> Option<Error<Seq<char>>> {
    match said(v.log_level) {
        Some(t) => match level_of(t, not_taken(trimmed(t))) {
            Ok(_) => None,
            Err(e) => Some(e),
        },
        None => None,
    }
}

/// What is wrong with the first variable with which something is wrong.
pub open spec fn config_refusal(v: Variables) -> Option<Error<Seq<char>>> {
    if journal_refusal(v) is Some {
        journal_refusal(v)
    } else if synchronous_refusal(v) is Some {
        synchronous_refusal(v)
    } else if i64_refusal("DMMCP_DB_MMAP_SIZE"@, v.db_mmap_size) is Some {
        i64_refusal("DMMCP_DB_MMAP_SIZE"@, v.db_mmap_size)
    } else if i64_refusal("DMMCP_DB_CACHE_SIZE"@, v.db_cache_size) is Some {
        i64_refusal("DMMCP_DB_CACHE_SIZE"@, v.db_cache_size)
    } else if port_refusal(v) is Some {
        port_refusal(v)
    } else if body_refusal(v) is Some {
        body_refusal(v)
    } else {
        level_refusal(v)
    }
}

/// What the variables come to: a 64 MiB memory map and a 32 MiB cache, port 3000 of this
/// machine and bodies of 1 MiB, where nothing else is said.
pub open spec fn config_ok(v: Variables, c: Config) -> bool {
    &&& c.db.path@ == text_or(v.db_path, "./campaign.db"@)
    &&& c.db.journal_mode@ == upper(text_or(v.db_journal_mode, "WAL"@))
    &&& c.db.synchronous@ == upper(text_or(v.db_synchronous, "NORMAL"@))
    &&& c.db.mmap_size == number_or(v.db_mmap_size, 67_108_864)
    &&& c.db.cache_size == number_or(v.db_cache_size, -32_768)
    &&& c.http.bind@ == text_or(v.http_bind, "127.0.0.1"@)
    &&& c.http.port == (match said(v.http_port) {
        Some(t) => u16_value(t)->0,
        None => 3000,
    })
    &&& opt_text(c.http.auth_token) == said(v.http_auth_token)
    &&& c.http.max_body_bytes == (match said(v.http_max_body_bytes) {
        Some(t) => usize_value(t)->0,
        None => 1_048_576,
    })
    &&& c.log_level@ == (match said(v.log_level) {
        Some(t) => level_of(t, not_taken(trimmed(t)))->Ok_0,
        None => "info"@,
    })
    &&& opt_text(c.content_dir) == said(v.content_dir)
}

fn read(v: &Option<String>) -> (r: Option<String>)
    ensures
        opt_text(r) == said(*v),
{
    match v {
        Some(t) => if chars(t.as_str()).len() == 0 {
            None
        } else {
            Some(t.clone())
        },
        None => None,
    }
}

fn read_or(v: &Option<String>, default: &str) -> (r: String)
    ensures
        r@ == text_or(*v, default@),
{
    match read(v) {
        Some(t) => t,
        None => default.to_owned(),
    }
}

fn read_i64(key: &str, v: &Option<String>, default: i64) -> (r: Result<i64, Error>)
    ensures
        match r {
            Ok(n) => i64_refusal(key@, *v) is None && n == number_or(*v, default as int),
            Err(e) => i64_refusal(key@, *v) == Some(e@),
        },
{
    match read(v) {
        Some(t) => match parse_i64(t.as_str()) {
            Some(n) => Ok(n),
            None => {
                let fault = find_number_fault(t.as_str(), -0x8000_0000_0000_0000, 0x7fff_ffff_ffff_ffff);
                Err(Error::SettingNumber { key: key.to_owned(), value: t, fault })
            },
        },
        None => Ok(default),
    }
}

proof fn lemma_defaults()
    ensures
        upper("WAL"@) == "WAL"@,
        upper("NORMAL"@) == "NORMAL"@,
{
    reveal_strlit("WAL");
    reveal_strlit("NORMAL");
    assert(upper("WAL"@) =~= "WAL"@);
    assert(upper("NORMAL"@) =~= "NORMAL"@);
}

fn read_db(v: &Variables) -> (r: Result<DbConfig, Error>)
    ensures
        match r {
            Ok(d) => {
                &&& journal_refusal(*v) is None
                &&& synchronous_refusal(*v) is None
                &&& i64_refusal("DMMCP_DB_MMAP_SIZE"@, v.db_mmap_size) is None
                &&& i64_refusal("DMMCP_DB_CACHE_SIZE"@, v.db_cache_size) is None
                &&& d.path@ == text_or(v.db_path, "./campaign.db"@)
                &&& d.journal_mode@ == upper(text_or(v.db_journal_mode, "WAL"@))
                &&& d.synchronous@ == upper(text_or(v.db_synchronous, "NORMAL"@))
                &&& d.mmap_size == number_or(v.db_mmap_size, 67_108_864)
                &&& d.cache_size == number_or(v.db_cache_size, -32_768)
            },
            Err(e) => {
                &&& config_refusal(*v) == Some(e@)
            },
        },
{
    proof {
        lemma_defaults();
    }
    let path = read_or(&v.db_path, "./campaign.db");
    let journal_mode = match read(&v.db_journal_mode) {
        Some(t) => match parse_journal_mode(t.as_str()) {
            Ok(s) => s,
            Err(e) => {
                return Err(e);
            },
        },
        None => "WAL".to_owned(),
    };
    let synchronous = match read(&v.db_synchronous) {
        Some(t) => match parse_synchronous(t.as_str()) {
            Ok(s) => s,
            Err(e) => {
                return Err(e);
            },
        },
        None => "NORMAL".to_owned(),
    };
    let mmap_size: i64 = match read_i64("DMMCP_DB_MMAP_SIZE", &v.db_mmap_size, 67_108_864) {
        Ok(n) => n,
        Err(e) => {
            return Err(e);
        },
    };
    let cache_size: i64 = match read_i64("DMMCP_DB_CACHE_SIZE", &v.db_cache_size, -32_768) {
        Ok(n) => n,
        Err(e) => {
            return Err(e);
        },
    };
    Ok(DbConfig { path, journal_mode, synchronous, mmap_size, cache_size })
}

impl Config {
    /// What the variables come to.
    pub fn from_variables(v: &Variables) -> (r: Result<Config, Error>)
        ensures
            match r {
                Ok(c) => config_refusal(*v) is None && config_ok(*v, c),
                Err(e) => config_refusal(*v) == Some(e@),
            },
    {
        let db = match read_db(v) {
            Ok(d) => d,
            Err(e) => {
                return Err(e);
            },
        };
        let port: u16 = match read(&v.http_port) {
            Some(t) => match parse_u16(t.as_str()) {
                Some(n) => n,
                None => {
                    let fault = find_number_fault(t.as_str(), 0, 0xffff);
                    return Err(Error::SettingNumber { key: "DMMCP_HTTP_PORT".to_owned(), value: t, fault });
                },
            },
            None => 3000,
        };
        let max_body_bytes: usize = match read(&v.http_max_body_bytes) {
            Some(t) => match parse_usize(t.as_str()) {
                Some(n) => n,
                None => {
                    let fault = find_number_fault(t.as_str(), 0, usize::MAX as i128);
                    return Err(
                        Error::SettingNumber {
                            key: "DMMCP_HTTP_MAX_BODY_BYTES".to_owned(),
                            value: t,
                            fault,
                        },
                    );
                },
            },
            None => 1_048_576,
        };
        let log_level = match read(&v.log_level) {
            Some(t) => match parse_log_level(t.as_str()) {
                Ok(s) => s,
                Err(e) => {
                    return Err(e);
                },
            },
            None => "info".to_owned(),
        };
        let http = HttpConfig {
            bind: read_or(&v.http_bind, "127.0.0.1"),
            port,
            auth_token: read(&v.http_auth_token),
            max_body_bytes,
        };
        Ok(Config { db, http, log_level, content_dir: read(&v.content_dir) })
    }
}

/// The statements that tune a database.
pub open spec fn pragmas_of(d: DbConfig) -> Seq<char> {
    "PRAGMA journal_mode = "@ + d.journal_mode@ + "; PRAGMA synchronous = "@ + d.synchronous@
        + "; PRAGMA mmap_size = "@ + int_text(d.mmap_size as int) + "; PRAGMA cache_size = "@ + int_text(
        d.cache_size as int,
    ) + "; PRAGMA foreign_keys = ON; PRAGMA temp_store = MEMORY;"@
}

impl DbConfig {
    /// The statements that tune a database. Foreign keys are always on.
    pub fn pragmas(&self) -> (r: String)
        ensures
            r@ == pragmas_of(*self),
    {
        let mut s = "PRAGMA journal_mode = ".to_owned();
        s.append(self.journal_mode.as_str());
        s.append("; PRAGMA synchronous = ");
        s.append(self.synchronous.as_str());
        s.append("; PRAGMA mmap_size = ");
        s.append(decimal(self.mmap_size).as_str());
        s.append("; PRAGMA cache_size = ");
        s.append(decimal(self.cache_size).as_str());
        s.append("; PRAGMA foreign_keys = ON; PRAGMA temp_store = MEMORY;");
        s
    }
}

/// However the modes are written, they come to the same: writing them in capitals first
/// changes nothing.
pub proof fn law_case_of_modes_does_not_matter(s: Seq<char>)
    ensures
        upper(upper(s)) == upper(s),
        is_journal_mode(upper(upper(s))) == is_journal_mode(upper(s)),
        is_synchronous(upper(upper(s))) == is_synchronous(upper(s)),
{
    assert(upper(upper(s)) =~= upper(s));
}

} // verus!
