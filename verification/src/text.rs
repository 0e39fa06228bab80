//! Text: comparison, decimal numbers, pieces and concatenation.

use vstd::prelude::*;
use crate::doubles::{count_parts, in_parts};

verus! {

/// The text of a string, where there is one.
pub open spec fn opt_text(s: Option<String>) -> Option<Seq<char>> {
    match s {
        Some(t) => Some(t@),
        None => None,
    }
}

/// The texts of a list of strings.
pub open spec fn texts(v: Seq<String>) -> Seq<Seq<char>> {
    Seq::new(v.len(), |i: int| v[i]@)
}

/// The decimal digit `d` as a character.
pub open spec fn digit_char(d: int) -> char {
    (('0' as int) + d) as char
}

/// A natural number in decimal, without leading zeros.
pub open spec fn nat_text(n: nat) -> Seq<char>
    decreases n,
{
    if n < 10 {
        seq![digit_char(n as int)]
    } else {
        nat_text(n / 10).push(digit_char((n % 10) as int))
    }
}

/// An integer in decimal, with a minus sign where it is negative.
pub open spec fn int_text(n: int) -> Seq<char> {
    if n < 0 {
        "-"@ + nat_text((-n) as nat)
    } else {
        nat_text(n as nat)
    }
}

/// Whether two strings hold the same text.
pub fn same(a: &str, b: &str) -> (r: bool)
    ensures
        r == (a@ == b@),
{
    let x = a.to_owned();
    let y = b.to_owned();
    x == y
}

/// Whether `list` holds the text of `s`.
pub fn contains(list: &Vec<String>, s: &str) -> (r: bool)
    ensures
        r == texts(list@).contains(s@),
{
    let mut i: usize = 0;
    while i < list.len()
        invariant
            i <= list.len(),
            forall|j: int| 0 <= j < i ==> list@[j]@ != s@,
        decreases list.len() - i,
    {
        if same(list[i].as_str(), s) {
            assert(texts(list@)[i as int] == s@);
            return true;
        }
        i = i + 1;
    }
    assert forall|j: int| 0 <= j < texts(list@).len() implies texts(list@)[j] != s@ by {
        assert(texts(list@)[j] == list@[j]@);
    }
    false
}

/// A copy of an optional string.
pub fn copy_opt(s: &Option<String>) -> (r: Option<String>)
    ensures
        r == *s,
{
    match s {
        Some(t) => Some(t.clone()),
        None => None,
    }
}

/// A copy of a list of strings.
pub fn copy_list(v: &Vec<String>) -> (r: Vec<String>)
    ensures
        r@ == v@,
{
    let mut out: Vec<String> = Vec::new();
    let mut i: usize = 0;
    while i < v.len()
        invariant
            i <= v.len(),
            out@ == v@.take(i as int),
        decreases v.len() - i,
    {
        out.push(v[i].clone());
        i = i + 1;
    }
    out
}

fn digit(d: u128) -> (r: &'static str)
    requires
        d < 10,
    ensures
        r@ == seq![digit_char(d as int)],
{
    proof {
        reveal_strlit("0");
        reveal_strlit("1");
        reveal_strlit("2");
        reveal_strlit("3");
        reveal_strlit("4");
        reveal_strlit("5");
        reveal_strlit("6");
        reveal_strlit("7");
        reveal_strlit("8");
        reveal_strlit("9");
    }
    if d == 0 {
        "0"
    } else if d == 1 {
        "1"
    } else if d == 2 {
        "2"
    } else if d == 3 {
        "3"
    } else if d == 4 {
        "4"
    } else if d == 5 {
        "5"
    } else if d == 6 {
        "6"
    } else if d == 7 {
        "7"
    } else if d == 8 {
        "8"
    } else {
        "9"
    }
}

pub(crate) fn natural(n: u128) -> (r: String)
    ensures
        r@ == nat_text(n as nat),
    decreases n,
{
    if n < 10 {
        digit(n).to_owned()
    } else {
        let mut s = natural(n / 10);
        s.append(digit(n % 10));
        proof {
            assert(nat_text((n / 10) as nat) + seq![digit_char((n % 10) as int)] =~= nat_text(
                (n / 10) as nat,
            ).push(digit_char((n % 10) as int)));
        }
        s
    }
}

/// The decimal text of a signed integer.
pub fn decimal(n: i64) -> (r: String)
    ensures
        r@ == int_text(n as int),
{
    if n < 0 {
        let mut s = "-".to_owned();
        let m: i128 = -(n as i128);
        s.append(natural(m as u128).as_str());
        s
    } else {
        natural(n as u128)
    }
}

/// The string as source text with quotes and escapes, as `{:?}` writes it.
pub uninterp spec fn debug_text(s: Seq<char>) -> Seq<char>;

/// `format!("{:?}", s)` of std: the string in double quotes, its special characters
/// escaped. The text depends on the string alone; what exactly is escaped is not
/// spelled out here.
#[verifier::external_body]
pub(crate) fn quoted(s: &str) -> (r: String)
    ensures
        r@ == debug_text(s@),
{
    format!("{s:?}")
}

/// The character list of a string.
pub fn chars(s: &str) -> (r: Vec<char>)
    ensures
        r@ == s@,
{
    let n: usize = s.unicode_len();
    let mut out: Vec<char> = Vec::new();
    let mut i: usize = 0;
    while i < n
        invariant
            i <= n,
            n == s@.len(),
            out@ == s@.take(i as int),
        decreases n - i,
    {
        out.push(s.get_char(i));
        i = i + 1;
    }
    assert(s@.take(n as int) == s@);
    out
}

/// The characters from one place up to another.
pub(crate) fn piece(s: &Vec<char>, from: usize, to: usize) -> (r: String)
    requires
        from <= to <= s.len(),
    ensures
        r@ == s@.subrange(from as int, to as int),
{
    let mut out = String::new();
    let mut k: usize = from;
    assert(out@ =~= s@.subrange(from as int, from as int));
    while k < to
        invariant
            from <= k <= to <= s.len(),
            out@ == s@.subrange(from as int, k as int),
        decreases to - k,
    {
        out.push(s[k]);
        assert(out@ =~= s@.subrange(from as int, k + 1));
        k = k + 1;
    }
    out
}

/// `String::push` of std: the character comes behind the text.
pub assume_specification[ String::push ](s: &mut String, c: char)
    ensures
        final(s)@ == old(s)@.push(c),
;

/// White space, as Unicode has it.
pub open spec fn is_space(c: char) -> bool {
    let n = c as u32;
    9 <= n <= 13 || n == 0x20 || n == 0x85 || n == 0xA0 || n == 0x1680 || 0x2000 <= n <= 0x200A || n
        == 0x2028 || n == 0x2029 || n == 0x202F || n == 0x205F || n == 0x3000
}

/// Whether it is white space.
pub(crate) fn space(c: char) -> (r: bool)
    ensures
        r == is_space(c),
{
    let n: u32 = c as u32;
    (9 <= n && n <= 13) || n == 0x20 || n == 0x85 || n == 0xA0 || n == 0x1680 || (0x2000 <= n && n
        <= 0x200A) || n == 0x2028 || n == 0x2029 || n == 0x202F || n == 0x205F || n == 0x3000
}

/// The text without white space at its beginning.
pub open spec fn trim_start(s: Seq<char>) -> Seq<char>
    decreases s.len(),
{
    if s.len() > 0 && is_space(s[0]) {
        trim_start(s.skip(1))
    } else {
        s
    }
}

/// The text without white space at its end.
pub open spec fn trim_end(s: Seq<char>) -> Seq<char>
    decreases s.len(),
{
    if s.len() > 0 && is_space(s.last()) {
        trim_end(s.drop_last())
    } else {
        s
    }
}

/// The text without white space at either end.
pub open spec fn trimmed(s: Seq<char>) -> Seq<char> {
    trim_end(trim_start(s))
}

/// The text without white space at either end.
pub fn trim<'a>(s: &'a str) -> (r: &'a str)
    ensures
        r@ == trimmed(s@),
{
    let cs = chars(s);
    let n: usize = cs.len();
    let mut a: usize = 0;
    assert(s@.skip(0) =~= s@);
    while a < n && space(cs[a])
        invariant
            cs@ == s@,
            n == s@.len(),
            a <= n,
            trim_start(s@) == trim_start(s@.skip(a as int)),
        decreases n - a,
    {
        assert(s@.skip(a as int).skip(1) =~= s@.skip(a + 1));
        a = a + 1;
    }
    let ghost rest = s@.skip(a as int);
    let mut b: usize = n;
    assert(rest.take(n - a) =~= rest);
    while b > a && space(cs[b - 1])
        invariant
            cs@ == s@,
            n == s@.len(),
            a <= b <= n,
            rest == s@.skip(a as int),
            trim_end(rest) == trim_end(rest.take(b - a)),
        decreases b,
    {
        assert(rest.take(b - a).drop_last() =~= rest.take(b - 1 - a));
        b = b - 1;
    }
    assert(s@.subrange(a as int, b as int) =~= rest.take(b - a));
    s.substring_char(a, b)
}

/// An ASCII capital as a small letter; any other character as it is.
pub open spec fn lower_char(c: char) -> char {
    if 'A' <= c && c <= 'Z' {
        ((c as u32) + 32) as char
    } else {
        c
    }
}

/// The text with its ASCII capitals as small letters.
pub open spec fn lower(s: Seq<char>) -> Seq<char> {
    Seq::new(s.len(), |i: int| lower_char(s[i]))
}

/// The text with its ASCII capitals as small letters.
pub fn to_lower(s: &str) -> (r: String)
    ensures
        r@ == lower(s@),
{
    let cs = chars(s);
    let mut out = String::new();
    let mut i: usize = 0;
    while i < cs.len()
        invariant
            cs@ == s@,
            i <= cs.len(),
            out@ == lower(s@).take(i as int),
        decreases cs.len() - i,
    {
        let c: char = cs[i];
        if 'A' <= c && c <= 'Z' {
            out.push(((c as u8) + 32) as char);
        } else {
            out.push(c);
        }
        assert(out@ =~= lower(s@).take(i + 1));
        i = i + 1;
    }
    assert(lower(s@).take(i as int) =~= lower(s@));
    out
}

/// The letter from A to Z for one from a to z, any other character as it is.
pub open spec fn upper_char(c: char) -> char {
    if 'a' <= c && c <= 'z' {
        ((c as int) - 32) as char
    } else {
        c
    }
}

/// The text with the letters from A to Z for those from a to z.
pub open spec fn upper(s: Seq<char>) -> Seq<char> {
    Seq::new(s.len(), |i: int| upper_char(s[i]))
}

/// The text with the letters from A to Z for those from a to z.
pub fn to_upper(s: &str) -> (r: String)
    ensures
        r@ == upper(s@),
{
    let cs = chars(s);
    let mut out = String::new();
    let mut i: usize = 0;
    assert(out@ =~= upper(s@).take(0));
    while i < cs.len()
        invariant
            i <= cs.len(),
            cs@ == s@,
            out@ == upper(s@).take(i as int),
        decreases cs.len() - i,
    {
        let c: char = cs[i];
        if 'a' <= c && c <= 'z' {
            let code: u8 = ((c as u32) - 32) as u8;
            out.push(code as char);
        } else {
            out.push(c);
        }
        assert(out@ =~= upper(s@).take(i + 1));
        i = i + 1;
    }
    assert(out@ =~= upper(s@));
    out
}

/// Whether the character is a decimal digit.
pub open spec fn is_digit(c: char) -> bool {
    '0' <= c && c <= '9'
}

/// The number that the decimal digits stand for, where there is at least one and all are
/// digits.
pub open spec fn digits_value(s: Seq<char>) -> Option<nat>
    decreases s.len(),
{
    if s.len() == 0 || !is_digit(s.last()) {
        None
    } else if s.len() == 1 {
        Some((s[0] as int - '0' as int) as nat)
    } else {
        match digits_value(s.drop_last()) {
            Some(n) => Some((n * 10 + (s.last() as int - '0' as int)) as nat),
            None => None,
        }
    }
}

/// The number that the text stands for: digits with a plus or minus sign before them or none.
pub open spec fn int_value(s: Seq<char>) -> Option<int> {
    if s.len() > 0 && s[0] == '-' {
        match digits_value(s.skip(1)) {
            Some(n) => Some(-(n as int)),
            None => None,
        }
    } else if s.len() > 0 && s[0] == '+' {
        match digits_value(s.skip(1)) {
            Some(n) => Some(n as int),
            None => None,
        }
    } else {
        match digits_value(s) {
            Some(n) => Some(n as int),
            None => None,
        }
    }
}

/// The number that the text stands for, where it is an `i32`.
pub open spec fn i32_value(s: Seq<char>) -> Option<i32> {
    match int_value(s) {
        Some(n) => if i32::MIN <= n <= i32::MAX {
            Some(n as i32)
        } else {
            None
        },
        None => None,
    }
}

/// The number that the text stands for, where it is a `u32` without a minus sign.
pub open spec fn u32_value(s: Seq<char>) -> Option<u32> {
    match int_value(s) {
        Some(n) => if 0 <= n <= u32::MAX && s[0] != '-' {
            Some(n as u32)
        } else {
            None
        },
        None => None,
    }
}

/// A prefix that is no number or is too large stays so.
proof fn lemma_digits_grow(s: Seq<char>, i: int, limit: nat)
    requires
        0 < i <= s.len(),
        digits_value(s.take(i)) is None || digits_value(s.take(i))->0 > limit,
    ensures
        digits_value(s) is None || digits_value(s)->0 > limit,
    decreases s.len(),
{
    if i == s.len() {
        assert(s.take(i) =~= s);
    } else {
        assert(s.drop_last().take(i) =~= s.take(i));
        lemma_digits_grow(s.drop_last(), i, limit);
    }
}

/// The value of the digits from place `from` on, where it is at most `limit`.
fn digits_from(cs: &Vec<char>, from: usize, limit: u128) -> (r: Option<u128>)
    requires
        from <= cs.len(),
        limit <= 0x1_0000_0000_0000_0000,
    ensures
        r matches Some(n) ==> digits_value(cs@.skip(from as int)) == Some(n as nat) && n <= limit,
        r is None ==> digits_value(cs@.skip(from as int)) is None || digits_value(
            cs@.skip(from as int),
        )->0 > limit,
{
    let ghost s = cs@.skip(from as int);
    let n: usize = cs.len();
    if from == n {
        return None;
    }
    let mut value: u128 = 0;
    let mut i: usize = from;
    while i < n
        invariant
            n == cs.len(),
            from <= i <= n,
            from < n,
            s == cs@.skip(from as int),
            limit <= 0x1_0000_0000_0000_0000,
            value <= limit,
            i > from ==> digits_value(s.take(i - from)) == Some(value as nat),
            i == from ==> value == 0,
        decreases n - i,
    {
        let c: char = cs[i];
        let ghost t = s.take(i + 1 - from);
        proof {
            assert(t.last() == c);
            assert(t.drop_last() =~= s.take(i - from));
        }
        if !('0' <= c && c <= '9') {
            proof {
                lemma_digits_grow(s, i + 1 - from, limit as nat);
            }
            return None;
        }
        let d: u128 = ((c as u32) - ('0' as u32)) as u128;
        let next: u128 = value * 10 + d;
        assert(digits_value(t) == Some(next as nat));
        if next > limit {
            proof {
                lemma_digits_grow(s, i + 1 - from, limit as nat);
            }
            return None;
        }
        value = next;
        i = i + 1;
    }
    assert(s.take(n - from) =~= s);
    Some(value)
}

/// The number that the text stands for, where it lies between the two.
fn parse_signed(s: &str, low: i128, high: i128) -> (r: Option<i128>)
    requires
        -0x1_0000_0000_0000_0000 <= low <= 0 <= high <= 0x1_0000_0000_0000_0000,
    ensures
        match r {
            Some(n) => int_value(s@) == Some(n as int) && low <= n <= high,
            None => int_value(s@) is None || int_value(s@)->0 < low || int_value(s@)->0 > high,
        },
{
    let cs = chars(s);
    assert(s@.skip(0) =~= s@);
    if cs.len() > 0 && cs[0] == '-' {
        match digits_from(&cs, 1, (-low) as u128) {
            Some(n) => Some(-(n as i128)),
            None => None,
        }
    } else if cs.len() > 0 && cs[0] == '+' {
        match digits_from(&cs, 1, high as u128) {
            Some(n) => Some(n as i128),
            None => None,
        }
    } else {
        match digits_from(&cs, 0, high as u128) {
            Some(n) => Some(n as i128),
            None => None,
        }
    }
}

/// The number that the text stands for, where it is no larger and has no minus sign.
fn parse_unsigned(s: &str, high: u128) -> (r: Option<u128>)
    requires
        high <= 0x1_0000_0000_0000_0000,
    ensures
        match r {
            Some(n) => int_value(s@) == Some(n as int) && n <= high && s@[0] != '-',
            None => int_value(s@) is None || s@[0] == '-' || int_value(s@)->0 > high,
        },
{
    let cs = chars(s);
    if cs.len() > 0 && cs[0] == '-' {
        return None;
    }
    match parse_signed(s, 0, high as i128) {
        Some(n) => Some(n as u128),
        None => None,
    }
}

/// The number that the text stands for, where it is an `i32`.
pub fn parse_i32(s: &str) -> (r: Option<i32>)
    ensures
        r == i32_value(s@),
{
    match parse_signed(s, -0x8000_0000, 0x7fff_ffff) {
        Some(n) => Some(n as i32),
        None => None,
    }
}

/// The number that the text stands for, where it is a `u32` without a minus sign.
pub fn parse_u32(s: &str) -> (r: Option<u32>)
    ensures
        r == u32_value(s@),
{
    match parse_unsigned(s, 0xffff_ffff) {
        Some(n) => Some(n as u32),
        None => None,
    }
}

/// The number that the text stands for, where it is an `i64`.
pub open spec fn i64_value(s: Seq<char>) -> Option<i64> {
    match int_value(s) {
        Some(n) => if i64::MIN <= n <= i64::MAX {
            Some(n as i64)
        } else {
            None
        },
        None => None,
    }
}

/// The number that the text stands for, where it is an `i64`.
pub fn parse_i64(s: &str) -> (r: Option<i64>)
    ensures
        r == i64_value(s@),
{
    match parse_signed(s, -0x8000_0000_0000_0000, 0x7fff_ffff_ffff_ffff) {
        Some(n) => Some(n as i64),
        None => None,
    }
}

/// The number that the text stands for, where it is a `u16` without a minus sign.
pub open spec fn u16_value(s: Seq<char>) -> Option<u16> {
    match int_value(s) {
        Some(n) => if 0 <= n <= u16::MAX && s[0] != '-' {
            Some(n as u16)
        } else {
            None
        },
        None => None,
    }
}

/// The number that the text stands for, where it is a `u16` without a minus sign.
pub fn parse_u16(s: &str) -> (r: Option<u16>)
    ensures
        r == u16_value(s@),
{
    match parse_unsigned(s, 0xffff) {
        Some(n) => Some(n as u16),
        None => None,
    }
}

/// The number that the text stands for, where it is a `usize` without a minus sign.
pub open spec fn usize_value(s: Seq<char>) -> Option<usize> {
    match int_value(s) {
        Some(n) => if 0 <= n <= usize::MAX && s[0] != '-' {
            Some(n as usize)
        } else {
            None
        },
        None => None,
    }
}

/// The number that the text stands for, where it is a `usize` without a minus sign.
pub fn parse_usize(s: &str) -> (r: Option<usize>)
    ensures
        r == usize_value(s@),
{
    match parse_unsigned(s, usize::MAX as u128) {
        Some(n) => Some(n as usize),
        None => None,
    }
}

/// Why a text is no number of a type.
#[derive(Debug, Clone, Copy, PartialEq, Eq, Structural)]
pub enum NumberFault {
    Empty,
    Digit,
    TooLarge,
    TooSmall,
}

impl NumberFault {
    /// The words for it.
    pub open spec fn text(self) -> Seq<char> {
        match self {
            NumberFault::Empty => "cannot parse integer from empty string"@,
            NumberFault::Digit => "invalid digit found in string"@,
            NumberFault::TooLarge => "number too large to fit in target type"@,
            NumberFault::TooSmall => "number too small to fit in target type"@,
        }
    }

    /// The words for it.
    pub fn as_str(&self) -> (r: &'static str)
        ensures
            r@ == self.text(),
    {
        match self {
            NumberFault::Empty => "cannot parse integer from empty string",
            NumberFault::Digit => "invalid digit found in string",
            NumberFault::TooLarge => "number too large to fit in target type",
            NumberFault::TooSmall => "number too small to fit in target type",
        }
    }
}

/// What is first wrong with the characters from place `i` on, where those before stand for `n`:
/// one is no digit, or with it the number goes beyond the most.
pub open spec fn digits_fault(s: Seq<char>, i: int, n: nat, most: nat, beyond: NumberFault) -> NumberFault
    decreases s.len() - i,
{
    if i >= s.len() {
        beyond
    } else if !is_digit(s[i]) {
        NumberFault::Digit
    } else {
        let m = (10 * n + (s[i] as int - '0' as int)) as nat;
        if m > most {
            beyond
        } else {
            digits_fault(s, i + 1, m, most, beyond)
        }
    }
}

/// What is wrong with a text that is no number within the bounds. Without numbers below 0 there
/// is no minus sign.
pub open spec fn number_fault(s: Seq<char>, least: int, most: int) -> NumberFault {
    if s.len() == 0 {
        NumberFault::Empty
    } else if s.len() == 1 && (s[0] == '+' || s[0] == '-') {
        NumberFault::Digit
    } else if s[0] == '+' {
        digits_fault(s, 1, 0, most as nat, NumberFault::TooLarge)
    } else if s[0] == '-' && least < 0 {
        digits_fault(s, 1, 0, (-least) as nat, NumberFault::TooSmall)
    } else {
        digits_fault(s, 0, 0, most as nat, NumberFault::TooLarge)
    }
}

fn find_digits_fault(s: &Vec<char>, from: usize, most: u128, beyond: NumberFault) -> (r: NumberFault)
    requires
        from <= s.len(),
        most < 0x1_0000_0000_0000_0000,
    ensures
        r == digits_fault(s@, from as int, 0, most as nat, beyond),
{
    let mut n: u128 = 0;
    let mut i: usize = from;
    while i < s.len()
        invariant
            from <= i <= s.len(),
            n <= most < 0x1_0000_0000_0000_0000,
            digits_fault(s@, from as int, 0, most as nat, beyond) == digits_fault(
                s@,
                i as int,
                n as nat,
                most as nat,
                beyond,
            ),
        decreases s.len() - i,
    {
        let c: char = s[i];
        if c < '0' || c > '9' {
            return NumberFault::Digit;
        }
        n = 10 * n + (c as u128 - '0' as u128);
        if n > most {
            return beyond;
        }
        i = i + 1;
    }
    beyond
}

/// What is wrong with a text that is no number within the bounds.
pub(crate) fn find_number_fault(t: &str, least: i128, most: i128) -> (r: NumberFault)
    requires
        -0x1_0000_0000_0000_0000 < least <= 0,
        0 <= most < 0x1_0000_0000_0000_0000,
    ensures
        r == number_fault(t@, least as int, most as int),
{
    let s = chars(t);
    if s.len() == 0 {
        NumberFault::Empty
    } else if s.len() == 1 && (s[0] == '+' || s[0] == '-') {
        NumberFault::Digit
    } else if s[0] == '+' {
        find_digits_fault(&s, 1, most as u128, NumberFault::TooLarge)
    } else if s[0] == '-' && least < 0 {
        find_digits_fault(&s, 1, (-least) as u128, NumberFault::TooSmall)
    } else {
        find_digits_fault(&s, 0, most as u128, NumberFault::TooLarge)
    }
}

/// Whether `a` comes before `b`, character by character in the order of Unicode.
pub open spec fn text_before(a: Seq<char>, b: Seq<char>) -> bool
    decreases a.len(),
{
    if b.len() == 0 {
        false
    } else if a.len() == 0 {
        true
    } else if a[0] != b[0] {
        a[0] < b[0]
    } else {
        text_before(a.skip(1), b.skip(1))
    }
}

/// Whether `a` comes before `b`, character by character in the order of Unicode.
pub fn comes_before(a: &str, b: &str) -> (r: bool)
    ensures
        r == text_before(a@, b@),
{
    let x = chars(a);
    let y = chars(b);
    let mut i: usize = 0;
    assert(a@.skip(0) =~= a@ && b@.skip(0) =~= b@);
    while i < x.len() && i < y.len() && x[i] == y[i]
        invariant
            x@ == a@,
            y@ == b@,
            i <= x.len(),
            i <= y.len(),
            text_before(a@, b@) == text_before(a@.skip(i as int), b@.skip(i as int)),
        decreases x.len() - i,
    {
        assert(a@.skip(i as int).skip(1) =~= a@.skip(i + 1));
        assert(b@.skip(i as int).skip(1) =~= b@.skip(i + 1));
        i = i + 1;
    }
    if i == y.len() {
        false
    } else if i == x.len() {
        true
    } else {
        x[i] < y[i]
    }
}

/// Something that has a name.
pub trait Named {
    spec fn label(&self) -> Seq<char>;
}

/// A row that has a name.
pub trait NamedRow: View where Self::V: Named {
    fn name_text(&self) -> (r: &str)
        ensures
            r@ == self@.label(),
    ;
}

/// The first place from `k` on whose name comes after that of `x`.
pub open spec fn name_slot<M: Named>(s: Seq<M>, x: M, k: int) -> int
    decreases s.len() - k,
{
    if k >= s.len() {
        s.len() as int
    } else if text_before(x.label(), s[k].label()) {
        k
    } else {
        name_slot(s, x, k + 1)
    }
}

/// The rows in the order of their names.
pub open spec fn by_name<M: Named>(rows: Seq<M>) -> Seq<M>
    decreases rows.len(),
{
    if rows.len() == 0 {
        Seq::empty()
    } else {
        let rest = by_name(rows.drop_last());
        rest.insert(name_slot(rest, rows.last(), 0), rows.last())
    }
}

proof fn lemma_not_before(a: Seq<char>, b: Seq<char>, c: Seq<char>)
    requires
        !text_before(b, a),
        !text_before(c, b),
    ensures
        !text_before(c, a),
    decreases a.len(),
{
    if a.len() > 0 && c.len() > 0 && b.len() > 0 && a[0] == b[0] && b[0] == c[0] {
        lemma_not_before(a.skip(1), b.skip(1), c.skip(1));
    }
}

proof fn lemma_before_not_after(a: Seq<char>, b: Seq<char>)
    requires
        text_before(a, b),
    ensures
        !text_before(b, a),
    decreases a.len(),
{
    if a.len() > 0 && b.len() > 0 && a[0] == b[0] {
        lemma_before_not_after(a.skip(1), b.skip(1));
    }
}

proof fn lemma_name_slot<M: Named>(s: Seq<M>, x: M, k: int)
    requires
        0 <= k <= s.len(),
    ensures
        k <= name_slot(s, x, k) <= s.len(),
        forall|i: int|
            k <= i < name_slot(s, x, k) ==> !text_before(x.label(), (#[trigger] s[i]).label()),
        name_slot(s, x, k) < s.len() ==> text_before(x.label(), s[name_slot(s, x, k)].label()),
    decreases s.len() - k,
{
    if k < s.len() && !text_before(x.label(), s[k].label()) {
        lemma_name_slot(s, x, k + 1);
    }
}

/// The order of names holds the same rows, and no row stands before one whose name comes
/// earlier.
pub proof fn law_by_name_sorts<M: Named>(rows: Seq<M>)
    ensures
        by_name(rows).to_multiset() =~= rows.to_multiset(),
        by_name(rows).len() == rows.len(),
        forall|i: int, j: int|
            #![trigger by_name(rows)[i], by_name(rows)[j]]
            0 <= i < j < rows.len() ==> !text_before(by_name(rows)[j].label(), by_name(rows)[i].label()),
    decreases rows.len(),
{
    broadcast use vstd::seq_lib::group_to_multiset_ensures;

    if rows.len() == 0 {
        assert(by_name(rows) =~= rows);
    } else {
        let rest = by_name(rows.drop_last());
        let x = rows.last();
        law_by_name_sorts(rows.drop_last());
        lemma_name_slot(rest, x, 0);
        let k = name_slot(rest, x, 0);
        let all = rest.insert(k, x);
        assert(rows =~= rows.drop_last().push(x));
        vstd::seq_lib::to_multiset_insert(rest, k, x);
        assert forall|i: int, j: int|
            #![trigger all[i], all[j]]
            0 <= i < j < all.len() implies !text_before(all[j].label(), all[i].label()) by {
            if j < k {
                assert(all[i] == rest[i] && all[j] == rest[j]);
            } else if j == k {
                assert(all[i] == rest[i] && all[j] == x);
            } else if i < k {
                assert(all[i] == rest[i] && all[j] == rest[j - 1]);
            } else if i == k {
                assert(all[i] == x && all[j] == rest[j - 1]);
                lemma_before_not_after(x.label(), rest[k].label());
                if j - 1 > k {
                    assert(!text_before(rest[j - 1].label(), rest[k].label()));
                    lemma_not_before(x.label(), rest[k].label(), rest[j - 1].label());
                }
            } else {
                assert(all[i] == rest[i - 1] && all[j] == rest[j - 1]);
            }
        }
    }
}

/// The rows in the order of their names.
pub(crate) fn sort_by_name<T: NamedRow>(rows: Vec<T>) -> (r: Vec<T>) where T::V: Named
    ensures
        crate::rows::views(r@) == by_name(crate::rows::views(rows@)),
{
    let ghost all = crate::rows::views(rows@);
    let mut rest = rows;
    let mut out: Vec<T> = Vec::new();
    let ghost mut i: int = 0;
    proof {
        assert(crate::rows::views(out@) =~= by_name(all.take(0)));
        assert(all.skip(0) =~= crate::rows::views(rest@));
    }
    while rest.len() > 0
        invariant
            0 <= i <= all.len(),
            crate::rows::views(rest@) == all.skip(i),
            crate::rows::views(out@) == by_name(all.take(i)),
        decreases rest.len(),
    {
        let ghost before = rest@;
        let x = rest.remove(0);
        proof {
            assert(crate::rows::views(before).len() == before.len());
            assert(i < all.len());
            assert(crate::rows::views(before)[0] == x@);
            assert forall|j: int| 0 <= j < rest@.len() implies crate::rows::views(rest@)[j] == #[trigger] all.skip(
                i + 1,
            )[j] by {
                assert(crate::rows::views(before)[j + 1] == all.skip(i)[j + 1]);
            }
            assert(crate::rows::views(rest@) =~= all.skip(i + 1));
            assert(all.take(i + 1).drop_last() =~= all.take(i));
        }
        let mut k: usize = 0;
        while k < out.len() && !comes_before(x.name_text(), out[k].name_text())
            invariant
                k <= out.len(),
                name_slot(crate::rows::views(out@), x@, 0) == name_slot(
                    crate::rows::views(out@),
                    x@,
                    k as int,
                ),
            decreases out.len() - k,
        {
            assert(crate::rows::views(out@)[k as int] == out@[k as int]@);
            k = k + 1;
        }
        let ghost was = out@;
        proof {
            if k < out.len() {
                assert(crate::rows::views(out@)[k as int] == out@[k as int]@);
            }
            assert(k == name_slot(crate::rows::views(was), x@, 0));
        }
        out.insert(k, x);
        proof {
            assert(crate::rows::views(out@) =~= crate::rows::views(was).insert(k as int, x@));
            i = i + 1;
        }
    }
    assert(all.take(i) =~= all);
    out
}

/// A quantity in thousandths of its unit.
pub type Thousandths = i128;

/// An optional number, as `{:?}` writes it.
pub open spec fn opt_int_text(n: Option<i64>) -> Seq<char> {
    match n {
        Some(v) => "Some("@ + int_text(v as int) + ")"@,
        None => "None"@,
    }
}

/// An optional number, as `{:?}` writes it.
pub fn say_opt(n: Option<i64>) -> (r: String)
    ensures
        r@ == opt_int_text(n),
{
    match n {
        Some(v) => {
            let mut s = "Some(".to_owned();
            s.append(decimal(v).as_str());
            s.append(")");
            s
        },
        None => "None".to_owned(),
    }
}

/// A quantity without its sign.
pub open spec fn size(t: int) -> nat {
    if t < 0 {
        (-t) as nat
    } else {
        t as nat
    }
}

pub open spec fn sign_text(t: int) -> Seq<char> {
    if t < 0 {
        "-"@
    } else {
        ""@
    }
}

/// A number of thousandths as a decimal with two places: the number in double precision that is
/// nearest to it, as `{:.2}` writes it.
pub open spec fn hundredths_text(t: int) -> Seq<char> {
    let n = in_parts(size(t), 1000, 100);
    sign_text(t) + nat_text(n / 100) + "."@ + nat_text(n / 10 % 10) + nat_text(n % 10)
}

/// A number of thousandths as a decimal with one place: the number in double precision that is
/// nearest to it, as `{:.1}` writes it.
pub open spec fn tenths_text(t: int) -> Seq<char> {
    let n = in_parts(size(t), 1000, 10);
    sign_text(t) + nat_text(n / 10) + "."@ + nat_text(n % 10)
}

fn measure(t: Thousandths) -> (r: u128)
    ensures
        r == size(t as int),
        r <= 0x8000_0000_0000_0000_0000_0000_0000_0000,
{
    if t < 0 {
        (-(t + 1)) as u128 + 1
    } else {
        t as u128
    }
}

fn say_sign(t: Thousandths) -> (r: String)
    ensures
        r@ == sign_text(t as int),
{
    (if t < 0 {
        "-"
    } else {
        ""
    }).to_owned()
}

/// A number of thousandths as a decimal with two places.
pub fn say_hundredths(t: Thousandths) -> (r: String)
    ensures
        r@ == hundredths_text(t as int),
{
    let n: u128 = count_parts(measure(t), 1000, 100);
    let mut s = say_sign(t);
    s.append(natural(n / 100).as_str());
    s.append(".");
    s.append(natural(n / 10 % 10).as_str());
    s.append(natural(n % 10).as_str());
    s
}

/// A number of thousandths as a decimal with one place.
pub fn say_tenths(t: Thousandths) -> (r: String)
    ensures
        r@ == tenths_text(t as int),
{
    let n: u128 = count_parts(measure(t), 1000, 10);
    let mut s = say_sign(t);
    s.append(natural(n / 10).as_str());
    s.append(".");
    s.append(natural(n % 10).as_str());
    s
}

/// Texts one after the other, quoted, with commas between them.
pub open spec fn quoted_all(list: Seq<Seq<char>>) -> Seq<char>
    decreases list.len(),
{
    if list.len() == 0 {
        ""@
    } else if list.len() == 1 {
        debug_text(list[0])
    } else {
        quoted_all(list.drop_last()) + ", "@ + debug_text(list.last())
    }
}

/// A list of texts as it is shown.
pub open spec fn list_text(list: Seq<Seq<char>>) -> Seq<char> {
    "["@ + quoted_all(list) + "]"@
}

/// A set of texts as it is shown.
pub open spec fn set_text(list: Seq<Seq<char>>) -> Seq<char> {
    "{"@ + quoted_all(list) + "}"@
}

fn quote_all(list: &Vec<String>) -> (inner: String)
    ensures
        inner@ == quoted_all(texts(list@)),
{
    let ghost all = texts(list@);
    let mut inner = "".to_owned();
    let mut i: usize = 0;
    while i < list.len()
        invariant
            i <= list.len(),
            all == texts(list@),
            inner@ == quoted_all(all.take(i as int)),
        decreases list.len() - i,
    {
        proof {
            assert(all.take(i + 1).drop_last() =~= all.take(i as int));
            assert(all.take(i + 1).last() == list@[i as int]@);
        }
        let one = quoted(list[i].as_str());
        if i == 0 {
            inner = one;
        } else {
            inner.append(", ");
            inner.append(one.as_str());
        }
        i = i + 1;
    }
    assert(all.take(i as int) =~= all);
    inner
}

/// A list of texts as it is shown.
pub fn say_list(list: &Vec<String>) -> (r: String)
    ensures
        r@ == list_text(texts(list@)),
{
    let mut s = "[".to_owned();
    s.append(quote_all(list).as_str());
    s.append("]");
    s
}

/// A set of texts as it is shown.
pub fn say_set(list: &Vec<String>) -> (r: String)
    ensures
        r@ == set_text(texts(list@)),
{
    let mut s = "{".to_owned();
    s.append(quote_all(list).as_str());
    s.append("}");
    s
}

/// The digits of a number stand for it, and nothing but digits stands among them.
pub proof fn law_digits_stand_for_number(n: nat)
    ensures
        nat_text(n).len() > 0,
        digits_value(nat_text(n)) == Some(n),
        forall|i: int| 0 <= i < nat_text(n).len() ==> is_digit(#[trigger] nat_text(n)[i]),
    decreases n,
{
    let s = nat_text(n);
    if n < 10 {
        assert(s.len() == 1);
        assert(is_digit(s[0]));
    } else {
        law_digits_stand_for_number(n / 10);
        let rest = nat_text(n / 10);
        assert(s.drop_last() =~= rest);
        assert(is_digit(s.last()));
        assert(s.last() as int - '0' as int == n % 10);
        assert forall|i: int| 0 <= i < s.len() implies is_digit(#[trigger] s[i]) by {
            if i < rest.len() {
                assert(s[i] == rest[i]);
            }
        }
    }
}

/// A number in decimal stands for the number.
pub proof fn law_decimal_stands_for_number(n: int)
    ensures
        int_value(int_text(n)) == Some(n),
        int_text(n).len() > 0,
        n >= 0 ==> is_digit(int_text(n)[0]),
        n < 0 ==> int_text(n)[0] == '-',
        forall|i: int| 1 <= i < int_text(n).len() ==> is_digit(#[trigger] int_text(n)[i]),
        is_digit(int_text(n).last()),
{
    let s = int_text(n);
    reveal_strlit("-");
    if n < 0 {
        let m = (-n) as nat;
        law_digits_stand_for_number(m);
        assert(s.skip(1) =~= nat_text(m));
        assert forall|i: int| 1 <= i < s.len() implies is_digit(#[trigger] s[i]) by {
            assert(s[i] == nat_text(m)[i - 1]);
        }
        assert(s.last() == nat_text(m)[nat_text(m).len() - 1]);
    } else {
        law_digits_stand_for_number(n as nat);
        assert(is_digit(s[0]));
    }
}

/// A text that begins and ends with something other than white space has none around it.
pub proof fn lemma_nothing_to_trim(s: Seq<char>)
    requires
        s.len() > 0,
        !is_space(s[0]),
        !is_space(s.last()),
    ensures
        trimmed(s) == s,
{
}

proof fn lemma_trim_start(before: Seq<char>, s: Seq<char>)
    requires
        forall|i: int| 0 <= i < before.len() ==> is_space(#[trigger] before[i]),
    ensures
        trim_start(before + s) == trim_start(s),
    decreases before.len(),
{
    if before.len() == 0 {
        assert(before + s =~= s);
    } else {
        assert(is_space(before[0]));
        assert((before + s).skip(1) =~= before.skip(1) + s);
        lemma_trim_start(before.skip(1), s);
    }
}

proof fn lemma_trim_end(s: Seq<char>, after: Seq<char>)
    requires
        forall|i: int| 0 <= i < after.len() ==> is_space(#[trigger] after[i]),
    ensures
        trim_end(s + after) == trim_end(s),
    decreases after.len(),
{
    if after.len() == 0 {
        assert(s + after =~= s);
    } else {
        assert(is_space(after[after.len() - 1]));
        assert((s + after).drop_last() =~= s + after.drop_last());
        lemma_trim_end(s, after.drop_last());
    }
}

/// White space at the beginning goes, also where nothing but white space comes behind.
proof fn lemma_trim_start_of(s: Seq<char>, after: Seq<char>)
    requires
        forall|i: int| 0 <= i < after.len() ==> is_space(#[trigger] after[i]),
    ensures
        trim_start(s).len() > 0 ==> trim_start(s + after) == trim_start(s) + after,
        trim_start(s).len() == 0 ==> trim_start(s + after).len() == 0,
    decreases s.len(),
{
    if s.len() == 0 {
        assert(s + after =~= after + Seq::<char>::empty());
        lemma_trim_start(after, Seq::empty());
    } else if is_space(s[0]) {
        assert((s + after).skip(1) =~= s.skip(1) + after);
        lemma_trim_start_of(s.skip(1), after);
    }
}

/// White space around a text is trimmed away.
pub(crate) proof fn lemma_trimmed(before: Seq<char>, s: Seq<char>, after: Seq<char>)
    requires
        forall|i: int| 0 <= i < before.len() ==> is_space(#[trigger] before[i]),
        forall|i: int| 0 <= i < after.len() ==> is_space(#[trigger] after[i]),
    ensures
        trimmed(before + s + after) == trimmed(s),
{
    assert(before + s + after =~= before + (s + after));
    lemma_trim_start(before, s + after);
    lemma_trim_start_of(s, after);
    if trim_start(s).len() > 0 {
        lemma_trim_end(trim_start(s), after);
    }
}

} // verus!
