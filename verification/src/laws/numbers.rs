//! Laws of numbers and words: how numbers are rounded, how texts compare, and what settings mean.

use vstd::prelude::*;
use crate::config::{config_ok, Config, Variables};
use crate::doubles::{
    excess, held, in_parts, lemma_excess, lemma_quotient, nearest_even, nearest_up, product, Double,
};
use crate::http::{bearer, status_ok};
use crate::text::{i64_value, is_space, lower_char, text_before, trim_end, trim_start, trimmed, upper_char};
use vstd::arithmetic::power2::pow2;

verus! {

// ── Rounding ──

/// Rounding gives the nearest whole number. Halfway between two it gives the even one, or, where
/// it rounds up, the greater one.
pub proof fn law_rounding_gives_the_nearest(p: nat, q: nat)
    requires
        q > 0,
    ensures
        ({
            let n = nearest_even(p, q);
            &&& 2 * p <= 2 * (n * q) + q
            &&& 2 * (n * q) <= 2 * p + q
            &&& 2 * p == 2 * (n * q) + q || 2 * (n * q) == 2 * p + q ==> n % 2 == 0
        }),
        ({
            let n = nearest_up(p, q);
            &&& 2 * p < 2 * (n * q) + q
            &&& 2 * (n * q) <= 2 * p + q
        }),
{
    vstd::arithmetic::div_mod::lemma_fundamental_div_mod(p as int, q as int);
    vstd::arithmetic::div_mod::lemma_mod_bound(p as int, q as int);
    let n = (p / q) as int;
    let rest = (p % q) as int;
    assert(q * n == n * q) by (nonlinear_arith);
    assert((n + 1) * q == n * q + q) by (nonlinear_arith);
    assert(p == n * q + rest);
    let a = (2 * p + q) as int;
    let b = (2 * q) as int;
    vstd::arithmetic::div_mod::lemma_fundamental_div_mod(a, b);
    vstd::arithmetic::div_mod::lemma_mod_bound(a, b);
    let m = a / b;
    assert(b * m == 2 * (m * q)) by (nonlinear_arith)
        requires
            b == 2 * q,
    ;
    assert(m == nearest_up(p, q));
}

/// Numbers that a double can hold as they are stay as they are, and a product that it can hold is
/// rounded once: to the nearest whole number, up from halfway.
pub proof fn law_products_are_rounded_once(n: nat, x: Double)
    requires
        n * x.mantissa() < 0x20_0000_0000_0000,
        x.places() >= 0,
    ensures
        ({
            let d = pow2(x.places() as nat) as int;
            let exact = n * x.mantissa();
            let r = product(n, x);
            2 * exact < 2 * (r * d) + d && 2 * (r * d) <= 2 * exact + d
        }),
        held(n * x.mantissa()) == n * x.mantissa(),
{
    let exact = n * x.mantissa();
    assert(excess(exact, 1) == 0);
    vstd::arithmetic::power2::lemma2_to64();
    assert(pow2(0) == 1);
    assert(nearest_even(exact, 1) == exact) by {
        assert(exact / 1 == exact);
        assert(exact % 1 == 0);
    }
    assert(held(exact) == exact);
    vstd::arithmetic::power2::lemma_pow2_pos(x.places() as nat);
    law_rounding_gives_the_nearest(exact, pow2(x.places() as nat));
}

// ── Texts ──

/// Texts are ordered by their first characters that differ, and one that another begins with
/// comes before it. Of two that differ one comes before the other, and never both.
pub proof fn law_texts_are_ordered(a: Seq<char>, b: Seq<char>, c: char, d: char, s: Seq<char>, t: Seq<char>)
    ensures
        !text_before(a, a),
        a != b ==> text_before(a, b) != text_before(b, a),
        c < d ==> text_before(seq![c] + s, seq![d] + t),
        text_before(seq![c] + s, seq![c] + t) == text_before(s, t),
        text_before(Seq::empty(), seq![c] + s),
    decreases a.len(),
{
    assert((seq![c] + s).skip(1) =~= s);
    assert((seq![c] + t).skip(1) =~= t);
    if a.len() > 0 && b.len() > 0 {
        law_texts_are_ordered(a.skip(1), b.skip(1), c, d, s, t);
        if a[0] == b[0] && a.skip(1) == b.skip(1) {
            assert(a =~= seq![a[0]] + a.skip(1));
            assert(b =~= seq![b[0]] + b.skip(1));
        }
    } else if a.len() == 0 && b.len() == 0 {
        assert(a =~= b);
    }
    if a.len() > 0 {
        lemma_irreflexive(a);
    }
}

proof fn lemma_irreflexive(a: Seq<char>)
    ensures
        !text_before(a, a),
    decreases a.len(),
{
    if a.len() > 0 {
        lemma_irreflexive(a.skip(1));
    }
}

/// Only the letters from A to Z have a small form, and only those from a to z a large one; each is
/// the other's.
pub proof fn law_letters_come_in_pairs(c: char)
    ensures
        'A' <= c <= 'Z' ==> lower_char(c) as int == c as int + 32 && upper_char(lower_char(c)) == c,
        'a' <= c <= 'z' ==> upper_char(c) as int == c as int - 32 && lower_char(upper_char(c)) == c,
        !('A' <= c <= 'Z') ==> lower_char(c) == c,
        !('a' <= c <= 'z') ==> upper_char(c) == c,
{
}

proof fn lemma_trim_start(s: Seq<char>)
    ensures
        exists|a: int| 0 <= a <= s.len() && trim_start(s) == #[trigger] s.skip(a) && forall|i: int|
            0 <= i < a ==> is_space(#[trigger] s[i]),
        trim_start(s).len() > 0 ==> !is_space(trim_start(s)[0]),
    decreases s.len(),
{
    if s.len() > 0 && is_space(s[0]) {
        lemma_trim_start(s.skip(1));
        let a = choose|a: int|
            0 <= a <= s.skip(1).len() && trim_start(s.skip(1)) == #[trigger] s.skip(1).skip(a) && forall|i: int|
                0 <= i < a ==> is_space(#[trigger] s.skip(1)[i]);
        assert(s.skip(1).skip(a) =~= s.skip(a + 1));
        assert forall|i: int| 0 <= i < a + 1 implies is_space(#[trigger] s[i]) by {
            if i > 0 {
                assert(s.skip(1)[i - 1] == s[i]);
            }
        }
    } else {
        assert(s.skip(0) =~= s);
    }
}

proof fn lemma_trim_end(s: Seq<char>)
    ensures
        exists|b: int| 0 <= b <= s.len() && trim_end(s) == #[trigger] s.take(b) && forall|i: int|
            b <= i < s.len() ==> is_space(#[trigger] s[i]),
        trim_end(s).len() > 0 ==> !is_space(trim_end(s).last()),
    decreases s.len(),
{
    if s.len() > 0 && is_space(s.last()) {
        lemma_trim_end(s.drop_last());
        let b = choose|b: int|
            0 <= b <= s.drop_last().len() && trim_end(s.drop_last()) == #[trigger] s.drop_last().take(b) && forall|
                i: int,
            |
                b <= i < s.drop_last().len() ==> is_space(#[trigger] s.drop_last()[i]);
        assert(s.drop_last().take(b) =~= s.take(b));
        assert forall|i: int| b <= i < s.len() implies is_space(#[trigger] s[i]) by {
            if i < s.len() - 1 {
                assert(s.drop_last()[i] == s[i]);
            }
        }
    } else {
        assert(s.take(s.len() as int) =~= s);
    }
}

/// Whether what stands from `a` up to `b` is all of the text but white space around it.
pub open spec fn all_but_space(s: Seq<char>, a: int, b: int) -> bool {
    &&& 0 <= a <= b <= s.len()
    &&& forall|i: int| 0 <= i < a || b <= i < s.len() ==> is_space(#[trigger] s[i])
}

/// Trimming takes off white space at both ends, all of it and nothing else.
pub proof fn law_trimming_takes_space_off(s: Seq<char>)
    ensures
        exists|a: int, b: int| #[trigger] all_but_space(s, a, b) && trimmed(s) == s.subrange(a, b),
        trimmed(s).len() > 0 ==> !is_space(trimmed(s)[0]) && !is_space(trimmed(s).last()),
{
    lemma_trim_start(s);
    let t = trim_start(s);
    lemma_trim_end(t);
    let a = choose|a: int|
        0 <= a <= s.len() && t == #[trigger] s.skip(a) && forall|i: int| 0 <= i < a ==> is_space(#[trigger] s[i]);
    let b = choose|b: int|
        0 <= b <= t.len() && trim_end(t) == #[trigger] t.take(b) && forall|i: int|
            b <= i < t.len() ==> is_space(#[trigger] t[i]);
    assert(s.subrange(a, a + b) =~= t.take(b));
    assert forall|i: int| 0 <= i < a || a + b <= i < s.len() implies is_space(#[trigger] s[i]) by {
        if a + b <= i {
            assert(t[i - a] == s[i]);
        }
    }
    assert(all_but_space(s, a, a + b));
    if trimmed(s).len() > 0 {
        assert(trimmed(s)[0] == t[0]);
    }
}

// ── Settings ──

/// Whether the variable says anything.
pub open spec fn is_set(v: Option<String>) -> bool {
    v is Some && v->0@.len() > 0
}

/// What is set is taken as it is, and what is not set, or empty, is as usual: the database is
/// `campaign.db` here, the server listens on this machine alone, on port 3000, takes a mebibyte,
/// and asks for no token.
pub proof fn law_settings_are_taken_as_they_are(v: Variables, c: Config)
    requires
        config_ok(v, c),
    ensures
        is_set(v.db_path) ==> c.db.path@ == v.db_path->0@,
        !is_set(v.db_path) ==> c.db.path@ == "./campaign.db"@,
        is_set(v.http_bind) ==> c.http.bind@ == v.http_bind->0@,
        !is_set(v.http_bind) ==> c.http.bind@ == "127.0.0.1"@,
        is_set(v.http_auth_token) ==> c.http.auth_token is Some && c.http.auth_token->0@ == v.http_auth_token->0@,
        !is_set(v.http_auth_token) ==> c.http.auth_token is None,
        is_set(v.content_dir) ==> c.content_dir is Some && c.content_dir->0@ == v.content_dir->0@,
        !is_set(v.content_dir) ==> c.content_dir is None,
        !is_set(v.http_port) ==> c.http.port == 3000,
        !is_set(v.http_max_body_bytes) ==> c.http.max_body_bytes == 1024 * 1024,
        !is_set(v.log_level) ==> c.log_level@ == "info"@,
        is_set(v.db_mmap_size) && i64_value(v.db_mmap_size->0@) is Some ==> c.db.mmap_size == i64_value(
            v.db_mmap_size->0@,
        )->0,
        is_set(v.db_cache_size) && i64_value(v.db_cache_size->0@) is Some ==> c.db.cache_size == i64_value(
            v.db_cache_size->0@,
        )->0,
        is_set(v.http_port) && crate::text::u16_value(v.http_port->0@) is Some ==> c.http.port
            == crate::text::u16_value(v.http_port->0@)->0,
        !is_set(v.db_mmap_size) ==> c.db.mmap_size == 64 * 1024 * 1024,
        !is_set(v.db_cache_size) ==> c.db.cache_size == -32 * 1024,
{
}

/// Whole numbers stay whole when they are written in tenths or hundredths.
pub proof fn law_whole_numbers_stay_whole(n: nat, q: nat, parts: nat)
    requires
        q > 0,
        n * q < q * 0x20_0000_0000_0000,
    ensures
        in_parts(n * q, q, parts) == n * parts,
{
    let s = pow2(crate::doubles::shortfall(n * q, q));
    vstd::arithmetic::power2::lemma_pow2_pos(crate::doubles::shortfall(n * q, q));
    assert(n * q * s == (n * s) * q) by (nonlinear_arith);
    lemma_exact(n * s, q);
    assert(parts * (n * s) == (n * parts) * s) by (nonlinear_arith);
    lemma_exact(n * parts, s);
}

proof fn lemma_exact(k: nat, q: nat)
    requires
        q > 0,
    ensures
        nearest_even(k * q, q) == k,
{
    vstd::arithmetic::div_mod::lemma_div_by_multiple(k as int, q as int);
    vstd::arithmetic::div_mod::lemma_mod_multiples_basic(k as int, q as int);
}

/// Whether the bytes are those of the text.
pub open spec fn spells(bytes: Seq<u8>, text: Seq<char>) -> bool {
    bytes.len() == text.len() && forall|i: int| 0 <= i < bytes.len() ==> #[trigger] bytes[i] == text[i] as u8
}

/// A token comes after `Bearer` and a space, and all is well where an answer begins with
/// `HTTP/1.1 200` or `HTTP/1.0 200`.
pub proof fn law_words_of_the_protocol()
    ensures
        spells(bearer(), "Bearer "@),
        spells(status_ok(49), "HTTP/1.1 200"@),
        spells(status_ok(48), "HTTP/1.0 200"@),
{
    reveal_strlit("Bearer ");
    reveal_strlit("HTTP/1.1 200");
    reveal_strlit("HTTP/1.0 200");
}

/// A number with few enough places is held as it is.
proof fn lemma_held(n: u32)
    ensures
        held(n as nat * 0x10_0000_0000_0000) == n as nat * 0x10_0000_0000_0000,
{
    vstd::arithmetic::power2::lemma2_to64();
    vstd::arithmetic::power2::lemma2_to64_rest();
    let one = pow2(52);
    let p = n as nat * one;
    lemma_excess(p, 1, 32);
    let k = excess(p, 1);
    let w = pow2(k);
    vstd::arithmetic::power2::lemma_pow2_pos(k);
    vstd::arithmetic::power2::lemma_pow2_adds(k, (52 - k) as nat);
    let rest = pow2((52 - k) as nat);
    assert(p == (n as nat * rest) * w) by (nonlinear_arith)
        requires
            p == n as nat * one,
            one == w * rest,
    ;
    vstd::arithmetic::div_mod::lemma_mod_multiples_basic((n as nat * rest) as int, w as int);
    lemma_quotient(p, w);
}

/// Twice a whole number is twice as much, half of it is half as much, up from halfway, and none of
/// it is nothing.
pub proof fn law_twice_half_and_none(n: u32)
    ensures
        product(n as nat, Double { bits: 0x4000_0000_0000_0000 }) == 2 * n,
        product(n as nat, Double { bits: 0x3fe0_0000_0000_0000 }) == (n as int + 1) / 2,
        product(n as nat, Double { bits: 0 }) == 0,
{
    lemma_held(n);
    vstd::arithmetic::power2::lemma2_to64();
    vstd::arithmetic::power2::lemma2_to64_rest();
    let p = n as nat * 0x10_0000_0000_0000;
    let two = Double { bits: 0x4000_0000_0000_0000 };
    assert(two.mantissa() == 0x10_0000_0000_0000 && two.places() == 51);
    let half = Double { bits: 0x3fe0_0000_0000_0000 };
    assert(half.mantissa() == 0x10_0000_0000_0000 && half.places() == 53);
    assert(pow2(51) == 0x8_0000_0000_0000);
    assert(pow2(53) == 0x20_0000_0000_0000);
    let n1 = n as int;
    let h = pow2(51) as int;
    assert(nearest_up(p, pow2(51)) == 2 * n) by {
        let q: int = 2 * p as int + h;
        assert(q == (2 * n1) * (2 * h) + h) by (nonlinear_arith)
            requires
                p == n1 * 0x10_0000_0000_0000,
                h == 0x8_0000_0000_0000,
                q == 2 * p as int + h,
        ;
        assert(2 * h == (2 * pow2(51)) as int);
        vstd::arithmetic::div_mod::lemma_fundamental_div_mod_converse(q, 2 * h, 2 * n1, h);
    }
    let f = pow2(53) as int;
    assert(nearest_up(p, pow2(53)) == (n1 + 1) / 2) by {
        let q: int = 2 * p as int + f;
        let m = (n1 + 1) / 2;
        let rest = (n1 + 1) % 2;
        assert(q == m * (2 * f) + rest * f) by (nonlinear_arith)
            requires
                p == n1 * 0x10_0000_0000_0000,
                f == 0x20_0000_0000_0000,
                q == 2 * p as int + f,
                n1 + 1 == 2 * m + rest,
        ;
        assert(0 <= rest * f < 2 * f) by (nonlinear_arith)
            requires
                0 <= rest <= 1,
                f > 0,
        ;
        assert(2 * f == (2 * pow2(53)) as int);
        vstd::arithmetic::div_mod::lemma_fundamental_div_mod_converse(q, 2 * f, m, rest * f);
    }
    let none = Double { bits: 0 };
    assert(none.mantissa() == 0 && none.places() == 1074);
    assert(n as nat * none.mantissa() == 0);
    assert(excess(0, 1) == 0);
    assert(held(0) == 0);
    let d = pow2(1074);
    vstd::arithmetic::power2::lemma_pow2_pos(1074);
    vstd::arithmetic::div_mod::lemma_basic_div(d as int, (2 * d) as int);
}

} // verus!
