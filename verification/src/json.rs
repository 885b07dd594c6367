//! A verified reader for flat JSON objects, as the remote API uses them
//! for small payloads: one object of string or unsigned-integer members,
//! in canonical form — no surrounding whitespace, no escape sequences,
//! no nesting.  The executable parser is pinned to a specification-level
//! parser of the same grammar.

use vstd::prelude::*;

use crate::text::{bytes_eq, try_utf8_to_string};

verus! {

/// `"` delimits a string.
pub const QUOTE: u8 = 0x22;

/// `{` opens the object.
pub const LBRACE: u8 = 0x7b;

/// `}` closes the object.
pub const RBRACE: u8 = 0x7d;

/// `:` separates a key from its value.
pub const COLON: u8 = 0x3a;

/// `,` separates members.
pub const COMMA: u8 = 0x2c;

/// `\` starts an escape sequence, which this reader rejects.
pub const BACKSLASH: u8 = 0x5c;

/// A member value at specification level.
pub enum JsonSpecValue {
    /// A string value, as its raw bytes.
    Str(Seq<u8>),
    /// An unsigned integer value.
    Num(u64),
}

/// A member value: a string (raw bytes) or an unsigned integer.
#[derive(Debug, Clone, PartialEq, Eq)]
pub enum JsonValue {
    /// A string value, as its raw bytes.
    Str(Vec<u8>),
    /// An unsigned integer value.
    Num(u64),
}

impl View for JsonValue {
    type V = JsonSpecValue;

    open spec fn view(&self) -> JsonSpecValue {
        match self {
            JsonValue::Str(v) => JsonSpecValue::Str(v@),
            JsonValue::Num(n) => JsonSpecValue::Num(*n),
        }
    }
}

/// The views of a member list.
pub open spec fn members_view(members: Seq<(Vec<u8>, JsonValue)>) -> Seq<(Seq<u8>, JsonSpecValue)> {
    members.map_values(|m: (Vec<u8>, JsonValue)| (m.0@, m.1@))
}

// ---------------------------------------------------------------------------
// The grammar, as a specification-level parser
// ---------------------------------------------------------------------------

/// The index of the first occurrence of `target`, or `-1`.
pub open spec fn find_byte(s: Seq<u8>, target: u8) -> int
    decreases s.len(),
{
    if s.len() == 0 {
        -1
    } else if s.first() == target {
        0
    } else {
        let r = find_byte(s.drop_first(), target);
        if r < 0 {
            -1
        } else {
            1 + r
        }
    }
}

/// Where `find_byte` points: at the first occurrence, inside the string;
/// `-1` exactly when the byte does not occur.
pub proof fn lemma_find_byte(s: Seq<u8>, target: u8)
    ensures
        find_byte(s, target) >= 0 <==> s.contains(target),
        find_byte(s, target) >= 0 ==> {
            &&& find_byte(s, target) < s.len()
            &&& s[find_byte(s, target)] == target
            &&& forall|j: int| 0 <= j < find_byte(s, target) ==> s[j] != target
        },
    decreases s.len(),
{
    if s.len() == 0 {
    } else if s.first() == target {
        assert(s.contains(target));
    } else {
        lemma_find_byte(s.drop_first(), target);
        let r = find_byte(s.drop_first(), target);
        if r >= 0 {
            assert(s.drop_first()[r] == target);
            assert(s[1 + r] == target);
            assert(s.contains(target));
            assert(forall|j: int| 1 <= j < 1 + r ==> s[j] == s.drop_first()[j - 1]);
        } else {
            if s.contains(target) {
                let w = choose|w: int| 0 <= w < s.len() && s[w] == target;
                assert(w != 0);
                assert(s.drop_first()[w - 1] == target);
                assert(s.drop_first().contains(target));
                assert(false);
            }
        }
    }
}

/// Parses a leading string literal: a quote, content bytes without quote
/// or backslash, a closing quote.  Yields the content and the rest.
pub open spec fn spec_parse_string(s: Seq<u8>) -> Option<(Seq<u8>, Seq<u8>)> {
    if s.len() < 1 || s.first() != QUOTE {
        None
    } else {
        let after = s.drop_first();
        let q = find_byte(after, QUOTE);
        if q < 0 {
            None
        } else {
            let content = after.take(q);
            if content.contains(BACKSLASH) {
                None
            } else {
                Some((content, after.skip(q + 1)))
            }
        }
    }
}

/// The numeric value of a digit string, most significant first.
pub open spec fn dec_val(digits: Seq<u8>) -> nat
    decreases digits.len(),
{
    if digits.len() == 0 {
        0
    } else {
        dec_val(digits.drop_last()) * 10 + (if 0x30 <= digits.last() <= 0x39 {
            (digits.last() - 0x30) as nat
        } else {
            0
        })
    }
}

/// The number of leading decimal digits.
pub open spec fn digit_count(s: Seq<u8>) -> int
    decreases s.len(),
{
    if s.len() == 0 || !(0x30 <= s.first() <= 0x39) {
        0
    } else {
        1 + digit_count(s.drop_first())
    }
}

/// Parses a leading unsigned integer that fits in 64 bits.
pub open spec fn spec_parse_number(s: Seq<u8>) -> Option<(u64, Seq<u8>)> {
    let k = digit_count(s);
    if k == 0 {
        None
    } else if dec_val(s.take(k)) > u64::MAX {
        None
    } else {
        Some((dec_val(s.take(k)) as u64, s.skip(k)))
    }
}

/// Parses a leading value: a string or an unsigned integer.
pub open spec fn spec_parse_value(s: Seq<u8>) -> Option<(JsonSpecValue, Seq<u8>)> {
    if s.len() >= 1 && s.first() == QUOTE {
        match spec_parse_string(s) {
            Some((content, rest)) => Some((JsonSpecValue::Str(content), rest)),
            None => None,
        }
    } else {
        match spec_parse_number(s) {
            Some((n, rest)) => Some((JsonSpecValue::Num(n), rest)),
            None => None,
        }
    }
}

/// Parses the members after `{` or `,`: a key string, a colon, a value,
/// then either the closing brace ending the input or a comma and further
/// members.
pub open spec fn spec_parse_members(s: Seq<u8>, acc: Seq<(Seq<u8>, JsonSpecValue)>) -> Option<
    Seq<(Seq<u8>, JsonSpecValue)>,
>
    decreases s.len(),
{
    match spec_parse_string(s) {
        None => None,
        Some((key, r1)) => {
            if r1.len() < 1 || r1.first() != COLON {
                None
            } else {
                match spec_parse_value(r1.drop_first()) {
                    None => None,
                    Some((value, r2)) => {
                        let acc2 = acc.push((key, value));
                        if r2.len() == 1 && r2.first() == RBRACE {
                            Some(acc2)
                        } else if r2.len() > 1 && r2.first() == COMMA && r2.drop_first().len()
                            < s.len() {
                            spec_parse_members(r2.drop_first(), acc2)
                        } else {
                            None
                        }
                    },
                }
            }
        },
    }
}

/// Parses a whole flat object, consuming the entire input.
pub open spec fn spec_parse_object(s: Seq<u8>) -> Option<Seq<(Seq<u8>, JsonSpecValue)>> {
    if s.len() < 2 || s.first() != LBRACE {
        None
    } else if s.len() == 2 && s[1] == RBRACE {
        Some(Seq::empty())
    } else {
        spec_parse_members(s.drop_first(), Seq::empty())
    }
}

// ---------------------------------------------------------------------------
// The executable parser
// ---------------------------------------------------------------------------

/// The first occurrence of `target` at or after `from`.
fn find_byte_from(bytes: &[u8], from: usize, target: u8) -> (r: Option<usize>)
    requires
        from <= bytes@.len(),
    ensures
        match r {
            Some(j) => from <= j < bytes@.len() && bytes@[j as int] == target && (forall|k: int|
                from <= k < j ==> bytes@[k] != target),
            None => forall|k: int| from <= k < bytes@.len() ==> bytes@[k] != target,
        },
{
    let n = bytes.len();
    for i in from..n
        invariant
            n == bytes@.len(),
            forall|k: int| from <= k < i ==> bytes@[k] != target,
    {
        if bytes[i] == target {
            return Some(i);
        }
    }
    None
}

/// True iff `target` occurs in `bytes[from..to]`.
fn contains_in_range(bytes: &[u8], from: usize, to: usize, target: u8) -> (r: bool)
    requires
        from <= to <= bytes@.len(),
    ensures
        r == bytes@.subrange(from as int, to as int).contains(target),
{
    for i in from..to
        invariant
            to <= bytes@.len(),
            forall|k: int| from <= k < i ==> bytes@[k] != target,
    {
        if bytes[i] == target {
            proof {
                let sub = bytes@.subrange(from as int, to as int);
                assert(sub[i - from] == target);
                assert(sub.contains(target));
            }
            return true;
        }
    }
    proof {
        let sub = bytes@.subrange(from as int, to as int);
        if sub.contains(target) {
            let w = choose|w: int| 0 <= w < sub.len() && sub[w] == target;
            assert(bytes@[from + w] == target);
        }
    }
    false
}

/// Copies `bytes[from..to]` into a fresh vector.
fn copy_range(bytes: &[u8], from: usize, to: usize) -> (r: Vec<u8>)
    requires
        from <= to <= bytes@.len(),
    ensures
        r@ == bytes@.subrange(from as int, to as int),
{
    let mut out: Vec<u8> = Vec::new();
    for i in from..to
        invariant
            from <= to <= bytes@.len(),
            out@ =~= bytes@.subrange(from as int, i as int),
    {
        out.push(bytes[i]);
        proof {
            assert(out@ =~= bytes@.subrange(from as int, i + 1));
        }
    }
    out
}

/// Parses a string literal starting at `i`, returning the content and
/// the position after the closing quote.
fn parse_string_at(bytes: &[u8], i: usize) -> (r: Option<(Vec<u8>, usize)>)
    requires
        i <= bytes@.len(),
    ensures
        match r {
            Some(p) => i + 2 <= p.1 <= bytes@.len() && spec_parse_string(bytes@.skip(i as int))
                == Some((p.0@, bytes@.skip(p.1 as int))),
            None => spec_parse_string(bytes@.skip(i as int)) is None,
        },
{
    let ghost s = bytes@.skip(i as int);
    let n = bytes.len();
    if i >= n || bytes[i] != QUOTE {
        return None;
    }
    let ghost after = s.drop_first();
    proof {
        assert(after =~= bytes@.skip(i + 1));
        lemma_find_byte(after, QUOTE);
    }
    match find_byte_from(bytes, i + 1, QUOTE) {
        None => {
            proof {
                if after.contains(QUOTE) {
                    let w = choose|w: int| 0 <= w < after.len() && after[w] == QUOTE;
                    assert(bytes@[i + 1 + w] == QUOTE);
                }
            }
            None
        },
        Some(qj) => {
            let ghost q = find_byte(after, QUOTE);
            proof {
                assert(after[qj - (i + 1)] == QUOTE);
                assert(after.contains(QUOTE));
                if q < qj - (i + 1) {
                    assert(bytes@[i + 1 + q] == QUOTE);
                    assert(false);
                }
                if q > qj - (i + 1) {
                    assert(after[qj - (i + 1)] != QUOTE);
                    assert(false);
                }
                assert(q == qj - (i + 1));
                assert(after.take(q) =~= bytes@.subrange(i + 1, qj as int));
            }
            if contains_in_range(bytes, i + 1, qj, BACKSLASH) {
                return None;
            }
            let content = copy_range(bytes, i + 1, qj);
            proof {
                assert(after.skip(q + 1) =~= bytes@.skip(qj + 1));
            }
            Some((content, qj + 1))
        },
    }
}

/// Every byte before `count` is a digit, and `count` is maximal.
pub proof fn lemma_digit_count(s: Seq<u8>)
    ensures
        0 <= digit_count(s) <= s.len(),
        forall|k: int| 0 <= k < digit_count(s) ==> 0x30 <= #[trigger] s[k] <= 0x39,
        digit_count(s) < s.len() ==> !(0x30 <= s[digit_count(s)] <= 0x39),
    decreases s.len(),
{
    if s.len() == 0 || !(0x30 <= s.first() <= 0x39) {
    } else {
        lemma_digit_count(s.drop_first());
        assert(forall|k: int|
            1 <= k < digit_count(s) ==> s[k] == s.drop_first()[k - 1]);
    }
}

/// Parses an unsigned integer starting at `i`.
fn parse_number_at(bytes: &[u8], i: usize) -> (r: Option<(u64, usize)>)
    requires
        i <= bytes@.len(),
    ensures
        match r {
            Some(p) => i < p.1 <= bytes@.len() && spec_parse_number(bytes@.skip(i as int)) == Some(
                (p.0, bytes@.skip(p.1 as int)),
            ),
            None => spec_parse_number(bytes@.skip(i as int)) is None,
        },
{
    let ghost s = bytes@.skip(i as int);
    proof {
        lemma_digit_count(s);
    }
    let ghost dc = digit_count(s);
    let n = bytes.len();
    let mut j: usize = i;
    let mut value: u64 = 0;
    let mut overflow: bool = false;
    while j < n && bytes[j] >= 0x30 && bytes[j] <= 0x39
        invariant
            i <= j <= n,
            n == bytes@.len(),
            s == bytes@.skip(i as int),
            0 <= dc == digit_count(s) <= s.len(),
            forall|k: int| 0 <= k < dc ==> 0x30 <= #[trigger] s[k] <= 0x39,
            dc < s.len() ==> !(0x30 <= s[dc as int] <= 0x39),
            j - i <= dc,
            !overflow ==> value == dec_val(s.take(j - i)),
            overflow ==> dec_val(s.take(j - i)) > u64::MAX,
        decreases n - j,
    {
        let d: u8 = bytes[j] - 0x30;
        proof {
            assert(s[j - i] == bytes@[j as int]);
            if j - i == dc {
                assert(false);
            }
            assert(s.take(j - i + 1).drop_last() =~= s.take(j - i));
            assert(dec_val(s.take(j - i + 1)) == dec_val(s.take(j - i)) * 10 + d);
        }
        if !overflow {
            if value <= (u64::MAX - (d as u64)) / 10 {
                proof {
                    assert(value * 10 + d <= u64::MAX) by (nonlinear_arith)
                        requires
                            value <= (u64::MAX - (d as u64)) / 10,
                            0 <= d <= 9,
                    ;
                }
                value = value * 10 + (d as u64);
            } else {
                proof {
                    assert(value * 10 + d > u64::MAX) by (nonlinear_arith)
                        requires
                            value > (u64::MAX - (d as u64)) / 10,
                            0 <= d <= 9,
                    ;
                }
                overflow = true;
            }
        } else {
            proof {
                assert(dec_val(s.take(j - i + 1)) >= dec_val(s.take(j - i)) * 10);
                assert(dec_val(s.take(j - i)) * 10 > u64::MAX) by (nonlinear_arith)
                    requires
                        dec_val(s.take(j - i)) > u64::MAX,
                ;
            }
        }
        j = j + 1;
    }
    proof {
        if j - i < dc {
            assert(s[j - i] == bytes@[j as int]);
            assert(0x30 <= s[j - i] <= 0x39);
            assert(j < n);
            assert(false);
        }
        assert(j - i == dc);
        assert(s.take(dc as int) == s.take(j - i));
    }
    if j == i {
        proof {
            assert(digit_count(s) == 0);
        }
        return None;
    }
    if overflow {
        return None;
    }
    proof {
        assert(s.skip(dc as int) =~= bytes@.skip(j as int));
    }
    Some((value, j))
}

/// Parses a whole byte string as an unsigned integer: defined exactly
/// when every byte is a digit, there is at least one, and the value fits
/// in 64 bits.
pub open spec fn spec_parse_u64(b: Seq<u8>) -> Option<u64> {
    if b.len() > 0 && digit_count(b) == b.len() && dec_val(b) <= u64::MAX {
        Some(dec_val(b) as u64)
    } else {
        None
    }
}

/// Parses a whole byte string as an unsigned integer.
pub fn parse_u64_bytes(bytes: &[u8]) -> (r: Option<u64>)
    ensures
        r == spec_parse_u64(bytes@),
{
    proof {
        assert(bytes@.skip(0) =~= bytes@);
        lemma_digit_count(bytes@);
    }
    let ghost s = bytes@;
    let ghost k = digit_count(s);
    match parse_number_at(bytes, 0) {
        Some((value, j)) => {
            proof {
                assert(spec_parse_number(s) == Some((value, s.skip(j as int))));
                assert(spec_parse_number(s) == Some((dec_val(s.take(k)) as u64, s.skip(k))));
                assert(s.skip(k).len() == s.len() - k);
                assert(s.skip(j as int).len() == s.len() - j);
                assert(k == j);
            }
            if j == bytes.len() {
                proof {
                    assert(s.take(k) =~= s);
                }
                Some(value)
            } else {
                None
            }
        },
        None => {
            proof {
                if spec_parse_u64(s) is Some {
                    assert(s.len() > 0 && k == s.len() && dec_val(s) <= u64::MAX);
                    assert(s.take(k) =~= s);
                    assert(spec_parse_number(s) is Some);
                    assert(false);
                }
            }
            None
        },
    }
}

/// The decimal rendering of a number reads back as that number.
pub proof fn lemma_dec_of_round_trip(n: nat)
    ensures
        crate::encode::dec_of(n).len() > 0,
        digit_count(crate::encode::dec_of(n)) == crate::encode::dec_of(n).len(),
        dec_val(crate::encode::dec_of(n)) == n,
        spec_parse_u64(crate::encode::dec_of(n)) == (if n <= u64::MAX {
            Some(n as u64)
        } else {
            None::<u64>
        }),
    decreases n,
{
    let d = crate::encode::dec_of(n);
    crate::encode::lemma_dec_of_ascii(n);
    if n < 10 {
        assert(d =~= seq![(0x30 + n) as u8]);
        assert(d.drop_last() =~= Seq::<u8>::empty());
        assert(dec_val(Seq::<u8>::empty()) == 0);
        assert(digit_count(Seq::<u8>::empty()) == 0);
        assert(0x30 <= d.last() <= 0x39);
        assert(dec_val(d) == dec_val(d.drop_last()) * 10 + (d.last() - 0x30));
        assert(dec_val(d) == n);
        assert(digit_count(d) == 1) by {
            assert(d.drop_first() =~= Seq::<u8>::empty());
            assert(digit_count(d.drop_first()) == 0);
        }
    } else {
        lemma_dec_of_round_trip(n / 10);
        let p = crate::encode::dec_of(n / 10);
        assert(d == p.push((0x30 + n % 10) as u8));
        assert(d.drop_last() =~= p);
        assert(dec_val(d) == dec_val(p) * 10 + n % 10);
        assert(dec_val(d) == n);
        crate::encode::lemma_dec_of_digits(n);
        lemma_digit_count_all_digits(d);
    }
}

/// When every byte is a digit, `digit_count` covers the whole string.
pub proof fn lemma_digit_count_all_digits(s: Seq<u8>)
    requires
        forall|k: int| 0 <= k < s.len() ==> 0x30 <= #[trigger] s[k] <= 0x39,
    ensures
        digit_count(s) == s.len(),
    decreases s.len(),
{
    if s.len() > 0 {
        assert(0x30 <= s[0] <= 0x39);
        assert(forall|k: int| 0 <= k < s.drop_first().len() ==> s.drop_first()[k] == s[k + 1]);
        lemma_digit_count_all_digits(s.drop_first());
    }
}

/// Parses a value starting at `i`.
fn parse_value_at(bytes: &[u8], i: usize) -> (r: Option<(JsonValue, usize)>)
    requires
        i <= bytes@.len(),
    ensures
        match r {
            Some(p) => i < p.1 <= bytes@.len() && spec_parse_value(bytes@.skip(i as int)) == Some(
                (p.0@, bytes@.skip(p.1 as int)),
            ),
            None => spec_parse_value(bytes@.skip(i as int)) is None,
        },
{
    let n = bytes.len();
    if i < n && bytes[i] == QUOTE {
        match parse_string_at(bytes, i) {
            Some((content, j)) => Some((JsonValue::Str(content), j)),
            None => None,
        }
    } else {
        proof {
            let s = bytes@.skip(i as int);
            if s.len() >= 1 {
                assert(s.first() == bytes@[i as int]);
            }
        }
        match parse_number_at(bytes, i) {
            Some((value, j)) => Some((JsonValue::Num(value), j)),
            None => None,
        }
    }
}

/// Parses one flat JSON object, consuming the whole input.  The result
/// is exactly what the specification-level parser yields.
pub fn parse_json_object(bytes: &[u8]) -> (r: Option<Vec<(Vec<u8>, JsonValue)>>)
    ensures
        r is Some <==> spec_parse_object(bytes@) is Some,
        r matches Some(v) ==> spec_parse_object(bytes@) == Some(members_view(v@)),
{
    let n = bytes.len();
    if n < 2 || bytes[0] != LBRACE {
        return None;
    }
    if n == 2 {
        if bytes[1] == RBRACE {
            let empty: Vec<(Vec<u8>, JsonValue)> = Vec::new();
            proof {
                assert(members_view(empty@) =~= Seq::<(Seq<u8>, JsonSpecValue)>::empty());
            }
            return Some(empty);
        }
    }
    let mut acc: Vec<(Vec<u8>, JsonValue)> = Vec::new();
    let mut i: usize = 1;
    proof {
        assert(bytes@.skip(1) == bytes@.skip(i as int));
        assert(members_view(acc@) =~= Seq::<(Seq<u8>, JsonSpecValue)>::empty());
    }
    loop
        invariant
            1 <= i <= n,
            n == bytes@.len(),
            n >= 2,
            bytes@[0] == LBRACE,
            !(n == 2 && bytes@[1] == RBRACE),
            spec_parse_object(bytes@) == spec_parse_members(
                bytes@.skip(i as int),
                members_view(acc@),
            ),
        decreases n - i,
    {
        let ghost s = bytes@.skip(i as int);
        let ghost acc0 = members_view(acc@);
        match parse_string_at(bytes, i) {
            None => {
                return None;
            },
            Some((key, j)) => {
                if j >= n || bytes[j] != COLON {
                    proof {
                        let r1 = bytes@.skip(j as int);
                        if r1.len() >= 1 {
                            assert(r1.first() == bytes@[j as int]);
                        }
                    }
                    return None;
                }
                proof {
                    let r1 = bytes@.skip(j as int);
                    assert(r1.first() == bytes@[j as int]);
                    assert(r1.drop_first() =~= bytes@.skip(j + 1));
                }
                match parse_value_at(bytes, j + 1) {
                    None => {
                        return None;
                    },
                    Some((value, k)) => {
                        let ghost r2 = bytes@.skip(k as int);
                        proof {
                            assert(r2.len() == n - k);
                            if k < n {
                                assert(r2.first() == bytes@[k as int]);
                            }
                        }
                        acc.push((key, value));
                        proof {
                            assert(members_view(acc@) =~= acc0.push((key@, value@)));
                        }
                        if k == n - 1 && bytes[k] == RBRACE {
                            return Some(acc);
                        }
                        if k < n - 1 && bytes[k] == COMMA {
                            proof {
                                assert(r2.drop_first() =~= bytes@.skip(k + 1));
                                assert(r2.drop_first().len() < s.len());
                            }
                            i = k + 1;
                        } else {
                            return None;
                        }
                    },
                }
            },
        }
    }
}

// ---------------------------------------------------------------------------
// Member lookup
// ---------------------------------------------------------------------------

/// The first value stored under the key, when the key is present.
pub fn lookup<'a>(members: &'a Vec<(Vec<u8>, JsonValue)>, key: &str) -> (r: Option<&'a JsonValue>)
    ensures
        match r {
            Some(v) => spec_lookup(members_view(members@), vstd::utf8::encode_utf8(key@)) == Some(
                v@,
            ),
            None => spec_lookup(members_view(members@), vstd::utf8::encode_utf8(key@)) is None,
        },
{
    let key_bytes = key.as_bytes();
    let n = members.len();
    proof {
        assert(members_view(members@).skip(0) =~= members_view(members@));
    }
    for i in 0..n
        invariant
            n == members@.len(),
            key_bytes@ == vstd::utf8::encode_utf8(key@),
            spec_lookup(members_view(members@), key_bytes@) == spec_lookup(
                members_view(members@).skip(i as int),
                key_bytes@,
            ),
    {
        proof {
            let ms = members_view(members@).skip(i as int);
            assert(ms.first() == (members@[i as int].0@, members@[i as int].1@));
            assert(ms.drop_first() =~= members_view(members@).skip(i + 1));
        }
        if bytes_eq(members[i].0.as_slice(), key_bytes) {
            return Some(&members[i].1);
        }
    }
    None
}

/// A string member, decoded to text; `None` when the key is absent, not
/// a string, or not valid UTF-8.
pub fn lookup_string(members: &Vec<(Vec<u8>, JsonValue)>, key: &str) -> (r: Option<String>)
    ensures
        match r {
            Some(s) => spec_string_member(members_view(members@), vstd::utf8::encode_utf8(key@))
                == Some(s@),
            None => spec_string_member(members_view(members@), vstd::utf8::encode_utf8(key@))
                is None,
        },
{
    match lookup(members, key) {
        Some(JsonValue::Str(raw)) => {
            let copied = copy_range(raw.as_slice(), 0, raw.len());
            proof {
                assert(copied@ =~= raw@);
            }
            try_utf8_to_string(copied)
        },
        _ => None,
    }
}

/// A numeric member; `None` when the key is absent or not a number.
pub fn lookup_number(members: &Vec<(Vec<u8>, JsonValue)>, key: &str) -> (r: Option<u64>)
    ensures
        r == spec_number_member(members_view(members@), vstd::utf8::encode_utf8(key@)),
{
    match lookup(members, key) {
        Some(JsonValue::Num(n)) => Some(*n),
        _ => None,
    }
}

/// A string member of the parsed object, as text: present exactly when
/// the key holds a string value of valid UTF-8.
pub open spec fn spec_string_member(members: Seq<(Seq<u8>, JsonSpecValue)>, key: Seq<u8>) -> Option<
    Seq<char>,
> {
    match spec_lookup(members, key) {
        Some(JsonSpecValue::Str(raw)) => if vstd::utf8::valid_utf8(raw) {
            Some(vstd::utf8::decode_utf8(raw))
        } else {
            None
        },
        _ => None,
    }
}

/// A numeric member of the parsed object.
pub open spec fn spec_number_member(members: Seq<(Seq<u8>, JsonSpecValue)>, key: Seq<u8>) -> Option<
    u64,
> {
    match spec_lookup(members, key) {
        Some(JsonSpecValue::Num(n)) => Some(n),
        _ => None,
    }
}

/// The first value stored under the key, when the key is present.
pub open spec fn spec_lookup(members: Seq<(Seq<u8>, JsonSpecValue)>, key: Seq<u8>) -> Option<
    JsonSpecValue,
>
    decreases members.len(),
{
    if members.len() == 0 {
        None
    } else if members.first().0 == key {
        Some(members.first().1)
    } else {
        spec_lookup(members.drop_first(), key)
    }
}

} // verus!
