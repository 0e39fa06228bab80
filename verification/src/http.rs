//! What is decided about requests: who may ask, and whether an answer means that all is well.

use vstd::prelude::*;

verus! {

/// Whether two runs of bytes are equal. How long it takes depends on their length alone.
pub fn constant_time_eq(a: &[u8], b: &[u8]) -> (r: bool)
    ensures
        r == (a@ == b@),
{
    if a.len() != b.len() {
        return false;
    }
    let mut diff: u8 = 0;
    let mut i: usize = 0;
    while i < a.len()
        invariant
            i <= a.len(),
            a.len() == b.len(),
            (diff == 0) == (forall|j: int| 0 <= j < i ==> #[trigger] a@[j] == b@[j]),
        decreases a.len() - i,
    {
        let x: u8 = a[i];
        let y: u8 = b[i];
        let before: u8 = diff;
        diff = diff | (x ^ y);
        assert((diff == 0) == (before == 0 && x == y)) by (bit_vector)
            requires
                diff == before | (x ^ y),
        ;
        proof {
            assert(a@[i as int] == x && b@[i as int] == y);
        }
        i = i + 1;
    }
    proof {
        if diff == 0 {
            assert(a@ =~= b@);
        }
    }
    diff == 0
}

/// What stands before the token: `Bearer` and a space.
pub open spec fn bearer() -> Seq<u8> {
    seq![66u8, 101u8, 97u8, 114u8, 101u8, 114u8, 32u8]
}

fn make_bearer() -> (r: Vec<u8>)
    ensures
        r@ == bearer(),
{
    let mut v: Vec<u8> = Vec::new();
    v.push(66);
    v.push(101);
    v.push(97);
    v.push(114);
    v.push(101);
    v.push(114);
    v.push(32);
    assert(v@ =~= bearer());
    v
}

/// Whether the bytes begin with the others.
pub open spec fn begins_with(s: Seq<u8>, head: Seq<u8>) -> bool {
    s.len() >= head.len() && s.take(head.len() as int) == head
}

fn check_beginning(s: &[u8], head: &Vec<u8>) -> (r: bool)
    ensures
        r == begins_with(s@, head@),
{
    if s.len() < head.len() {
        return false;
    }
    let mut i: usize = 0;
    while i < head.len()
        invariant
            i <= head.len() <= s.len(),
            forall|j: int| 0 <= j < i ==> #[trigger] s@[j] == head@[j],
        decreases head.len() - i,
    {
        if s[i] != head[i] {
            assert(s@.take(head@.len() as int)[i as int] != head@[i as int]);
            return false;
        }
        i = i + 1;
    }
    assert(s@.take(head@.len() as int) =~= head@);
    true
}

fn rest_of(s: &[u8], from: usize) -> (r: Vec<u8>)
    requires
        from <= s.len(),
    ensures
        r@ == s@.skip(from as int),
{
    let mut out: Vec<u8> = Vec::new();
    let mut i: usize = from;
    assert(out@ =~= s@.subrange(from as int, from as int));
    while i < s.len()
        invariant
            from <= i <= s.len(),
            out@ == s@.subrange(from as int, i as int),
        decreases s.len() - i,
    {
        out.push(s[i]);
        assert(out@ =~= s@.subrange(from as int, i + 1));
        i = i + 1;
    }
    assert(out@ =~= s@.skip(from as int));
    out
}

/// Whether a request may pass: always where no token is asked for, else only with
/// `Bearer` and the token for its `Authorization`.
pub fn may_pass(expected: Option<&[u8]>, authorization: Option<&[u8]>) -> (r: bool)
    ensures
        r == match expected {
            None => true,
            Some(token) => match authorization {
                None => false,
                Some(header) => header@ == bearer() + token@,
            },
        },
{
    match expected {
        None => true,
        Some(token) => match authorization {
            None => false,
            Some(header) => {
                let head = make_bearer();
                if !check_beginning(header, &head) {
                    proof {
                        if header@ == bearer() + token@ {
                            assert(header@.take(7) =~= bearer());
                        }
                    }
                    return false;
                }
                let given = rest_of(header, 7);
                proof {
                    assert(header@.take(7) + header@.skip(7) =~= header@);
                    if header@ == bearer() + token@ {
                        assert(header@.skip(7) =~= token@);
                    }
                }
                constant_time_eq(given.as_slice(), token)
            },
        },
    }
}

/// `HTTP/1.` and the minor version, a space and 200.
pub open spec fn status_ok(minor: u8) -> Seq<u8> {
    seq![72u8, 84u8, 84u8, 80u8, 47u8, 49u8, 46u8, minor, 32u8, 50u8, 48u8, 48u8]
}

fn make_status_ok(minor: u8) -> (r: Vec<u8>)
    ensures
        r@ == status_ok(minor),
{
    let mut v: Vec<u8> = Vec::new();
    v.push(72);
    v.push(84);
    v.push(84);
    v.push(80);
    v.push(47);
    v.push(49);
    v.push(46);
    v.push(minor);
    v.push(32);
    v.push(50);
    v.push(48);
    v.push(48);
    assert(v@ =~= status_ok(minor));
    v
}

/// Whether the answer to a probe says that all is well: `HTTP/1.1 200` or `HTTP/1.0 200`.
pub fn is_healthy(response: &[u8]) -> (r: bool)
    ensures
        r == (begins_with(response@, status_ok(49)) || begins_with(response@, status_ok(48))),
{
    check_beginning(response, &make_status_ok(49)) || check_beginning(response, &make_status_ok(48))
}

/// No other token passes.
pub proof fn law_only_one_token_passes(token: Seq<u8>, other: Seq<u8>)
    requires
        bearer() + other == bearer() + token,
    ensures
        other == token,
{
    assert((bearer() + other).skip(7) =~= other);
    assert((bearer() + token).skip(7) =~= token);
}

} // verus!
