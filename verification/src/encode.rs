//! Byte-level text encodings used by the request pipeline: lowercase
//! hexadecimal for signatures, `application/x-www-form-urlencoded` for
//! query strings, and decimal rendering of integers.

use vstd::prelude::*;

use crate::text::all_ascii;

verus! {

/// `&` separates query pairs.
pub const AMP: u8 = 0x26;

/// `=` separates a key from its value.
pub const EQUALS: u8 = 0x3d;

/// `%` starts a percent escape.
pub const PERCENT: u8 = 0x25;

/// `+` encodes a space in a form-urlencoded component.
pub const PLUS: u8 = 0x2b;

/// The space byte.
pub const SPACE: u8 = 0x20;

/// `?` starts the query part of a URL.
pub const QMARK: u8 = 0x3f;

// ---------------------------------------------------------------------------
// Hexadecimal
// ---------------------------------------------------------------------------

/// Lowercase hexadecimal digit for a nibble.
pub open spec fn hex_digit_lower(n: int) -> u8
    recommends
        0 <= n < 16,
{
    if n < 10 {
        (0x30 + n) as u8
    } else {
        (0x57 + n) as u8
    }
}

/// Uppercase hexadecimal digit for a nibble.
pub open spec fn hex_digit_upper(n: int) -> u8
    recommends
        0 <= n < 16,
{
    if n < 10 {
        (0x30 + n) as u8
    } else {
        (0x37 + n) as u8
    }
}

/// A lowercase hexadecimal digit byte.
pub open spec fn hex_lower_byte(b: u8) -> bool {
    (0x30 <= b <= 0x39) || (0x61 <= b <= 0x66)
}

/// Lowercase hexadecimal rendering of a byte string: two digits per byte,
/// high nibble first.
pub open spec fn hex_of(bytes: Seq<u8>) -> Seq<u8> {
    Seq::new(
        2 * bytes.len(),
        |i: int|
            if i % 2 == 0 {
                hex_digit_lower(bytes[i / 2] as int / 16)
            } else {
                hex_digit_lower(bytes[i / 2] as int % 16)
            },
    )
}

/// Renders bytes as lowercase hexadecimal, two digits per byte.
pub fn hex_encode(bytes: &[u8]) -> (r: Vec<u8>)
    ensures
        r@ == hex_of(bytes@),
{
    let mut out: Vec<u8> = Vec::new();
    let n: usize = bytes.len();
    for i in 0..n
        invariant
            n == bytes@.len(),
            out@ =~= hex_of(bytes@.take(i as int)),
    {
        let b = bytes[i];
        let hi = b / 16;
        let lo = b % 16;
        out.push(if hi < 10 { 0x30 + hi } else { 0x57 + hi });
        out.push(if lo < 10 { 0x30 + lo } else { 0x57 + lo });
        proof {
            assert(out@ =~= hex_of(bytes@.take(i + 1)));
        }
    }
    proof {
        assert(bytes@.take(n as int) =~= bytes@);
    }
    out
}

// ---------------------------------------------------------------------------
// Form-urlencoding of a single component
// ---------------------------------------------------------------------------

/// Bytes that a form-urlencoded component keeps as they are: ASCII
/// letters, digits, `*`, `-`, `.` and `_`.
pub open spec fn qs_unreserved(b: u8) -> bool {
    (0x41 <= b <= 0x5a) || (0x61 <= b <= 0x7a) || (0x30 <= b <= 0x39) || b == 0x2a || b == 0x2d
        || b == 0x2e || b == 0x5f
}

/// Form-urlencoding of one byte: unreserved bytes stand for themselves,
/// a space becomes `+`, everything else a `%XX` escape in uppercase hex.
pub open spec fn qs_encode_byte(b: u8) -> Seq<u8> {
    if qs_unreserved(b) {
        seq![b]
    } else if b == SPACE {
        seq![PLUS]
    } else {
        seq![PERCENT, hex_digit_upper(b as int / 16), hex_digit_upper(b as int % 16)]
    }
}

/// Form-urlencoding of a byte string.
pub open spec fn qs_encode(bytes: Seq<u8>) -> Seq<u8>
    decreases bytes.len(),
{
    if bytes.len() == 0 {
        Seq::empty()
    } else {
        qs_encode_byte(bytes.first()) + qs_encode(bytes.drop_first())
    }
}

/// The encoding of a string extended by one byte is the encoding of the
/// string followed by the encoding of the byte.
pub proof fn lemma_qs_encode_push(bytes: Seq<u8>, b: u8)
    ensures
        qs_encode(bytes.push(b)) == qs_encode(bytes) + qs_encode_byte(b),
    decreases bytes.len(),
{
    if bytes.len() == 0 {
        assert(bytes.push(b).drop_first() =~= Seq::<u8>::empty());
        assert(bytes.push(b).first() == b);
        assert(qs_encode(bytes.push(b)) == qs_encode_byte(b) + qs_encode(Seq::<u8>::empty()));
        assert(qs_encode(Seq::<u8>::empty()) =~= Seq::<u8>::empty());
        assert(qs_encode(bytes) =~= Seq::<u8>::empty());
        assert(qs_encode(bytes.push(b)) =~= qs_encode(bytes) + qs_encode_byte(b));
    } else {
        assert(bytes.push(b).drop_first() =~= bytes.drop_first().push(b));
        assert(bytes.push(b).first() == bytes.first());
        lemma_qs_encode_push(bytes.drop_first(), b);
        assert(qs_encode(bytes.push(b)) =~= qs_encode(bytes) + qs_encode_byte(b));
    }
}

/// Appends the form-urlencoding of `bytes` to `out`.
pub fn qs_encode_append(out: &mut Vec<u8>, bytes: &[u8])
    ensures
        final(out)@ == old(out)@ + qs_encode(bytes@),
{
    let n: usize = bytes.len();
    for i in 0..n
        invariant
            n == bytes@.len(),
            out@ =~= old(out)@ + qs_encode(bytes@.take(i as int)),
    {
        let b = bytes[i];
        if (0x41 <= b && b <= 0x5a) || (0x61 <= b && b <= 0x7a) || (0x30 <= b && b <= 0x39) || b
            == 0x2a || b == 0x2d || b == 0x2e || b == 0x5f {
            out.push(b);
        } else if b == SPACE {
            out.push(PLUS);
        } else {
            let hi = b / 16;
            let lo = b % 16;
            out.push(PERCENT);
            out.push(if hi < 10 { 0x30 + hi } else { 0x37 + hi });
            out.push(if lo < 10 { 0x30 + lo } else { 0x37 + lo });
        }
        proof {
            lemma_qs_encode_push(bytes@.take(i as int), b);
            assert(bytes@.take(i + 1) =~= bytes@.take(i as int).push(b));
        }
    }
    proof {
        assert(bytes@.take(n as int) =~= bytes@);
    }
}

/// A component of unreserved bytes encodes to itself.
pub proof fn lemma_qs_encode_identity(bytes: Seq<u8>)
    requires
        forall|i: int| 0 <= i < bytes.len() ==> qs_unreserved(#[trigger] bytes[i]),
    ensures
        qs_encode(bytes) == bytes,
    decreases bytes.len(),
{
    if bytes.len() == 0 {
        assert(qs_encode(bytes) =~= bytes);
    } else {
        assert(qs_unreserved(bytes[0]));
        assert(forall|i: int|
            0 <= i < bytes.drop_first().len() ==> bytes.drop_first()[i] == bytes[i + 1]);
        lemma_qs_encode_identity(bytes.drop_first());
        assert(qs_encode(bytes) =~= bytes);
    }
}

/// A form-urlencoded component is ASCII, whatever its input: unreserved
/// bytes are ASCII, and everything else becomes `+` or a `%XX` escape.
pub proof fn lemma_qs_encode_ascii(bytes: Seq<u8>)
    ensures
        all_ascii(qs_encode(bytes)),
    decreases bytes.len(),
{
    if bytes.len() == 0 {
    } else {
        lemma_qs_encode_ascii(bytes.drop_first());
        assert(all_ascii(qs_encode_byte(bytes.first())));
    }
}

/// Appends a byte slice to a byte vector.
pub fn append_bytes(out: &mut Vec<u8>, bytes: &[u8])
    ensures
        final(out)@ == old(out)@ + bytes@,
{
    let n: usize = bytes.len();
    for i in 0..n
        invariant
            n == bytes@.len(),
            out@ =~= old(out)@ + bytes@.take(i as int),
    {
        out.push(bytes[i]);
        proof {
            assert(bytes@.take(i + 1) =~= bytes@.take(i as int).push(bytes@[i as int]));
        }
    }
    proof {
        assert(bytes@.take(n as int) =~= bytes@);
    }
}

// ---------------------------------------------------------------------------
// Query strings
// ---------------------------------------------------------------------------

/// Encoding of a single `key=value` pair.
pub open spec fn qs_pair(key: Seq<u8>, value: Seq<u8>) -> Seq<u8> {
    qs_encode(key) + seq![EQUALS] + qs_encode(value)
}

/// A query string: `key=value` pairs joined by `&`, each component
/// form-urlencoded.  The empty pair list encodes to the empty string.
pub open spec fn encode_query(pairs: Seq<(Seq<u8>, Seq<u8>)>) -> Seq<u8>
    decreases pairs.len(),
{
    if pairs.len() == 0 {
        Seq::empty()
    } else if pairs.len() == 1 {
        qs_pair(pairs[0].0, pairs[0].1)
    } else {
        qs_pair(pairs[0].0, pairs[0].1) + seq![AMP] + encode_query(pairs.drop_first())
    }
}

/// Extending the pair list appends `&key=value` (or just `key=value` when
/// the list was empty).
pub proof fn lemma_encode_query_push(pairs: Seq<(Seq<u8>, Seq<u8>)>, p: (Seq<u8>, Seq<u8>))
    ensures
        pairs.len() == 0 ==> encode_query(pairs.push(p)) == qs_pair(p.0, p.1),
        pairs.len() > 0 ==> encode_query(pairs.push(p)) == encode_query(pairs) + seq![AMP]
            + qs_pair(p.0, p.1),
    decreases pairs.len(),
{
    if pairs.len() == 0 {
        assert(pairs.push(p)[0] == p);
        assert(encode_query(pairs.push(p)) =~= qs_pair(p.0, p.1));
    } else {
        assert(pairs.push(p).drop_first() =~= pairs.drop_first().push(p));
        assert(pairs.push(p)[0] == pairs[0]);
        lemma_encode_query_push(pairs.drop_first(), p);
        if pairs.len() == 1 {
            assert(encode_query(pairs.push(p)) =~= encode_query(pairs) + seq![AMP] + qs_pair(
                p.0,
                p.1,
            ));
        } else {
            assert(encode_query(pairs.push(p)) =~= encode_query(pairs) + seq![AMP] + qs_pair(
                p.0,
                p.1,
            ));
        }
    }
}

/// A query string is ASCII, whatever its components.
pub proof fn lemma_encode_query_ascii(pairs: Seq<(Seq<u8>, Seq<u8>)>)
    ensures
        all_ascii(encode_query(pairs)),
    decreases pairs.len(),
{
    if pairs.len() == 0 {
    } else {
        lemma_qs_encode_ascii(pairs[0].0);
        lemma_qs_encode_ascii(pairs[0].1);
        if pairs.len() > 1 {
            lemma_encode_query_ascii(pairs.drop_first());
        }
    }
}

/// The views of both components of every pair.
pub open spec fn string_pair_views(pairs: Seq<(String, String)>) -> Seq<(Seq<char>, Seq<char>)> {
    pairs.map_values(|p: (String, String)| (p.0@, p.1@))
}

/// The UTF-8 bytes of both components of every pair.
pub open spec fn pairs_bytes(pairs: Seq<(String, String)>) -> Seq<(Seq<u8>, Seq<u8>)> {
    pairs.map_values(
        |p: (String, String)| (vstd::utf8::encode_utf8(p.0@), vstd::utf8::encode_utf8(p.1@)),
    )
}

/// Appends the query-string encoding of `pairs` to `out`.
pub fn encode_query_append(out: &mut Vec<u8>, pairs: &Vec<(String, String)>)
    ensures
        final(out)@ == old(out)@ + encode_query(pairs_bytes(pairs@)),
{
    let n: usize = pairs.len();
    for i in 0..n
        invariant
            n == pairs@.len(),
            out@ =~= old(out)@ + encode_query(pairs_bytes(pairs@).take(i as int)),
    {
        if i > 0 {
            out.push(AMP);
        }
        qs_encode_append(out, pairs[i].0.as_str().as_bytes());
        out.push(EQUALS);
        qs_encode_append(out, pairs[i].1.as_str().as_bytes());
        proof {
            lemma_encode_query_push(pairs_bytes(pairs@).take(i as int), pairs_bytes(pairs@)[i as int]);
            assert(pairs_bytes(pairs@).take(i + 1) =~= pairs_bytes(pairs@).take(i as int).push(
                pairs_bytes(pairs@)[i as int],
            ));
            assert(out@ =~= old(out)@ + encode_query(pairs_bytes(pairs@).take(i + 1)));
        }
    }
    proof {
        assert(pairs_bytes(pairs@).take(n as int) =~= pairs_bytes(pairs@));
    }
}

// ---------------------------------------------------------------------------
// Decoding query strings
// ---------------------------------------------------------------------------

/// The value of a hexadecimal digit, either case.
pub open spec fn hex_val(b: u8) -> Option<u8> {
    if 0x30 <= b <= 0x39 {
        Some((b - 0x30) as u8)
    } else if 0x41 <= b <= 0x46 {
        Some((b - 0x37) as u8)
    } else if 0x61 <= b <= 0x66 {
        Some((b - 0x57) as u8)
    } else {
        None
    }
}

/// Decodes one form-urlencoded component: `+` back to space, `%XX`
/// escapes back to their byte; a raw separator or a malformed escape
/// fails.
pub open spec fn qs_decode(s: Seq<u8>) -> Option<Seq<u8>>
    decreases s.len(),
{
    if s.len() == 0 {
        Some(Seq::empty())
    } else if s.first() == PERCENT {
        if s.len() >= 3 && hex_val(s[1]) is Some && hex_val(s[2]) is Some {
            match qs_decode(s.skip(3)) {
                Some(r) => Some(seq![(16 * hex_val(s[1])->0 + hex_val(s[2])->0) as u8] + r),
                None => None,
            }
        } else {
            None
        }
    } else if s.first() == PLUS {
        match qs_decode(s.drop_first()) {
            Some(r) => Some(seq![SPACE] + r),
            None => None,
        }
    } else if s.first() == AMP || s.first() == EQUALS {
        None
    } else {
        match qs_decode(s.drop_first()) {
            Some(r) => Some(seq![s.first()] + r),
            None => None,
        }
    }
}

/// One `key=value` part of a query string, decoded.
pub open spec fn parse_pair_bytes(part: Seq<u8>) -> Option<(Seq<u8>, Seq<u8>)> {
    let e = crate::json::find_byte(part, EQUALS);
    if e < 0 || e >= part.len() {
        None
    } else {
        match (qs_decode(part.take(e)), qs_decode(part.skip(e + 1))) {
            (Some(k), Some(v)) => Some((k, v)),
            _ => None,
        }
    }
}

/// The `&`-separated parts of a non-empty query string, decoded in order.
pub open spec fn parse_query_parts(s: Seq<u8>) -> Option<Seq<(Seq<u8>, Seq<u8>)>>
    decreases s.len(),
{
    let a = crate::json::find_byte(s, AMP);
    if a < 0 {
        match parse_pair_bytes(s) {
            Some(p) => Some(seq![p]),
            None => None,
        }
    } else if 0 <= a < s.len() {
        match parse_pair_bytes(s.take(a)) {
            Some(p) => match parse_query_parts(s.skip(a + 1)) {
                Some(rest) => Some(seq![p] + rest),
                None => None,
            },
            None => None,
        }
    } else {
        None
    }
}

/// A whole query string, decoded: the empty string is the empty pair
/// list.
pub open spec fn parse_query(s: Seq<u8>) -> Option<Seq<(Seq<u8>, Seq<u8>)>> {
    if s.len() == 0 {
        Some(Seq::empty())
    } else {
        parse_query_parts(s)
    }
}

/// A form-urlencoded component never contains a raw `&` or `=`.
pub proof fn lemma_qs_encode_no_separators(bytes: Seq<u8>)
    ensures
        forall|i: int|
            0 <= i < qs_encode(bytes).len() ==> #[trigger] qs_encode(bytes)[i] != AMP && qs_encode(
                bytes,
            )[i] != EQUALS,
    decreases bytes.len(),
{
    if bytes.len() > 0 {
        lemma_qs_encode_no_separators(bytes.drop_first());
        let head = qs_encode_byte(bytes.first());
        assert(forall|i: int|
            0 <= i < head.len() ==> #[trigger] head[i] != AMP && head[i] != EQUALS);
        assert forall|i: int|
            0 <= i < qs_encode(bytes).len() implies #[trigger] qs_encode(bytes)[i] != AMP
            && qs_encode(bytes)[i] != EQUALS by {
            if i < head.len() {
                assert(qs_encode(bytes)[i] == head[i]);
            } else {
                assert(qs_encode(bytes)[i] == qs_encode(bytes.drop_first())[i - head.len()]);
            }
        }
    }
}

/// Decoding inverts encoding on one component.
pub proof fn lemma_qs_decode_encode(bytes: Seq<u8>)
    ensures
        qs_decode(qs_encode(bytes)) == Some(bytes),
    decreases bytes.len(),
{
    if bytes.len() == 0 {
    } else {
        let b = bytes.first();
        let enc = qs_encode(bytes);
        lemma_qs_decode_encode(bytes.drop_first());
        if qs_unreserved(b) {
            assert(enc.first() == b);
            assert(enc.drop_first() =~= qs_encode(bytes.drop_first()));
            assert(seq![b] + bytes.drop_first() =~= bytes);
        } else if b == SPACE {
            assert(enc.first() == PLUS);
            assert(enc.drop_first() =~= qs_encode(bytes.drop_first()));
            assert(seq![SPACE] + bytes.drop_first() =~= bytes);
        } else {
            assert(enc.first() == PERCENT);
            assert(enc[1] == hex_digit_upper(b as int / 16));
            assert(enc[2] == hex_digit_upper(b as int % 16));
            assert(hex_val(enc[1]) == Some((b / 16) as u8));
            assert(hex_val(enc[2]) == Some((b % 16) as u8));
            assert(enc.skip(3) =~= qs_encode(bytes.drop_first()));
            assert(16 * (b / 16) + b % 16 == b);
            assert(seq![b] + bytes.drop_first() =~= bytes);
        }
    }
}

/// Parsing inverts encoding on one `key=value` pair.
pub proof fn lemma_parse_pair_encode(key: Seq<u8>, value: Seq<u8>)
    ensures
        parse_pair_bytes(qs_pair(key, value)) == Some((key, value)),
{
    let part = qs_pair(key, value);
    let cand = qs_encode(key).len() as int;
    lemma_qs_encode_no_separators(key);
    lemma_qs_encode_no_separators(value);
    assert(part[cand] == EQUALS);
    assert(forall|j: int| 0 <= j < cand ==> part[j] == qs_encode(key)[j]);
    crate::json::lemma_find_byte(part, EQUALS);
    let e = crate::json::find_byte(part, EQUALS);
    assert(part.contains(EQUALS));
    assert(e >= 0);
    if e < cand {
        assert(part[e] == qs_encode(key)[e]);
        assert(false);
    }
    if e > cand {
        assert(part[cand] != EQUALS);
        assert(false);
    }
    assert(part.take(e) =~= qs_encode(key));
    assert(part.skip(e + 1) =~= qs_encode(value));
    lemma_qs_decode_encode(key);
    lemma_qs_decode_encode(value);
}

/// Parsing inverts encoding on a whole query string: the serialization
/// round trip at the wire level.
pub proof fn lemma_parse_query_encode(pairs: Seq<(Seq<u8>, Seq<u8>)>)
    ensures
        parse_query(encode_query(pairs)) == Some(pairs),
    decreases pairs.len(),
{
    let enc = encode_query(pairs);
    if pairs.len() == 0 {
    } else if pairs.len() == 1 {
        let p0 = pairs[0];
        assert(enc == qs_pair(p0.0, p0.1));
        lemma_qs_encode_no_separators(p0.0);
        lemma_qs_encode_no_separators(p0.1);
        assert(enc.len() > qs_encode(p0.0).len());
        crate::json::lemma_find_byte(enc, AMP);
        if enc.contains(AMP) {
            let a = crate::json::find_byte(enc, AMP);
            assert(enc[a] == AMP);
            assert(false);
        }
        lemma_parse_pair_encode(p0.0, p0.1);
        assert(seq![p0] =~= pairs);
    } else {
        let p0 = pairs[0];
        let head = qs_pair(p0.0, p0.1);
        let tail = encode_query(pairs.drop_first());
        assert(enc == head + seq![AMP] + tail);
        lemma_qs_encode_no_separators(p0.0);
        lemma_qs_encode_no_separators(p0.1);
        let cand = head.len() as int;
        assert(enc[cand] == AMP);
        assert(forall|j: int| 0 <= j < cand ==> enc[j] == head[j]);
        assert(forall|j: int| 0 <= j < cand ==> head[j] != AMP);
        crate::json::lemma_find_byte(enc, AMP);
        let a = crate::json::find_byte(enc, AMP);
        assert(enc.contains(AMP));
        assert(a >= 0);
        if a < cand {
            assert(enc[a] == head[a]);
            assert(false);
        }
        if a > cand {
            assert(enc[cand] != AMP);
            assert(false);
        }
        assert(enc.take(a) =~= head);
        assert(enc.skip(a + 1) =~= tail);
        lemma_parse_pair_encode(p0.0, p0.1);
        lemma_parse_query_encode(pairs.drop_first());
        assert(tail.len() > 0);
        assert(parse_query_parts(tail) == Some(pairs.drop_first()));
        assert(seq![p0] + pairs.drop_first() =~= pairs);
    }
}

/// The views of both components of every byte pair.
pub open spec fn byte_pair_views(pairs: Seq<(Vec<u8>, Vec<u8>)>) -> Seq<(Seq<u8>, Seq<u8>)> {
    pairs.map_values(|p: (Vec<u8>, Vec<u8>)| (p.0@, p.1@))
}

/// The UTF-8 bytes of both components of every character pair.
pub open spec fn pairs_utf8(pairs: Seq<(Seq<char>, Seq<char>)>) -> Seq<(Seq<u8>, Seq<u8>)> {
    pairs.map_values(
        |p: (Seq<char>, Seq<char>)| (vstd::utf8::encode_utf8(p.0), vstd::utf8::encode_utf8(p.1)),
    )
}

/// Both components of every byte pair decoded back to characters.
pub open spec fn pairs_decoded(pairs: Seq<(Seq<u8>, Seq<u8>)>) -> Seq<(Seq<char>, Seq<char>)> {
    pairs.map_values(
        |p: (Seq<u8>, Seq<u8>)| (vstd::utf8::decode_utf8(p.0), vstd::utf8::decode_utf8(p.1)),
    )
}

/// Decoding the UTF-8 bytes of character pairs gives the pairs back.
pub proof fn lemma_pairs_utf8_decoded(pairs: Seq<(Seq<char>, Seq<char>)>)
    ensures
        pairs_decoded(pairs_utf8(pairs)) == pairs,
{
    broadcast use vstd::utf8::group_utf8_lib;

    assert(pairs_decoded(pairs_utf8(pairs)) =~= pairs);
}

/// The value of a hexadecimal digit, either case.
fn hex_val_exec(b: u8) -> (r: Option<u8>)
    ensures
        r == hex_val(b),
{
    if 0x30 <= b && b <= 0x39 {
        Some(b - 0x30)
    } else if 0x41 <= b && b <= 0x46 {
        Some(b - 0x37)
    } else if 0x61 <= b && b <= 0x66 {
        Some(b - 0x57)
    } else {
        None
    }
}

/// Decodes the form-urlencoded component in `bytes[from..to]`.
fn qs_decode_range(bytes: &[u8], from: usize, to: usize) -> (r: Option<Vec<u8>>)
    requires
        from <= to <= bytes@.len(),
    ensures
        match r {
            Some(v) => qs_decode(bytes@.subrange(from as int, to as int)) == Some(v@),
            None => qs_decode(bytes@.subrange(from as int, to as int)) is None,
        },
{
    let ghost whole = bytes@.subrange(from as int, to as int);
    let mut out: Vec<u8> = Vec::new();
    let mut i: usize = from;
    proof {
        match qs_decode(whole) {
            Some(r) => {
                assert(Seq::<u8>::empty() + r =~= r);
            },
            None => {},
        }
    }
    loop
        invariant
            from <= i <= to <= bytes@.len(),
            whole == bytes@.subrange(from as int, to as int),
            qs_decode(whole) == (match qs_decode(bytes@.subrange(i as int, to as int)) {
                Some(r) => Some(out@ + r),
                None => None::<Seq<u8>>,
            }),
        decreases to - i,
    {
        if i == to {
            proof {
                assert(bytes@.subrange(i as int, to as int) =~= Seq::<u8>::empty());
                match qs_decode(whole) {
                    Some(r) => {
                        assert(out@ + Seq::<u8>::empty() =~= out@);
                    },
                    None => {},
                }
            }
            return Some(out);
        }
        let ghost s = bytes@.subrange(i as int, to as int);
        proof {
            assert(s.first() == bytes@[i as int]);
        }
        let b = bytes[i];
        if b == PERCENT {
            if to - i < 3 {
                return None;
            }
            proof {
                assert(s[1] == bytes@[i + 1]);
                assert(s[2] == bytes@[i + 2]);
            }
            let h1 = match hex_val_exec(bytes[i + 1]) {
                Some(h) => h,
                None => {
                    return None;
                },
            };
            let h2 = match hex_val_exec(bytes[i + 2]) {
                Some(h) => h,
                None => {
                    return None;
                },
            };
            let ghost old_out = out@;
            out.push(16 * h1 + h2);
            i = i + 3;
            proof {
                assert(s.skip(3) =~= bytes@.subrange(i as int, to as int));
                match qs_decode(bytes@.subrange(i as int, to as int)) {
                    Some(r) => {
                        assert(old_out + (seq![(16 * h1 + h2) as u8] + r) =~= out@ + r);
                    },
                    None => {},
                }
            }
        } else if b == PLUS {
            let ghost old_out = out@;
            out.push(SPACE);
            i = i + 1;
            proof {
                assert(s.drop_first() =~= bytes@.subrange(i as int, to as int));
                match qs_decode(bytes@.subrange(i as int, to as int)) {
                    Some(r) => {
                        assert(old_out + (seq![SPACE] + r) =~= out@ + r);
                    },
                    None => {},
                }
            }
        } else if b == AMP || b == EQUALS {
            return None;
        } else {
            let ghost old_out = out@;
            out.push(b);
            i = i + 1;
            proof {
                assert(s.drop_first() =~= bytes@.subrange(i as int, to as int));
                match qs_decode(bytes@.subrange(i as int, to as int)) {
                    Some(r) => {
                        assert(old_out + (seq![b] + r) =~= out@ + r);
                    },
                    None => {},
                }
            }
        }
    }
}

/// The first occurrence of `target` in `bytes[from..to]`.
fn find_in_range(bytes: &[u8], from: usize, to: usize, target: u8) -> (r: Option<usize>)
    requires
        from <= to <= bytes@.len(),
    ensures
        match r {
            Some(j) => from <= j < to && bytes@[j as int] == target && (forall|k: int|
                from <= k < j ==> bytes@[k] != target),
            None => forall|k: int| from <= k < to ==> bytes@[k] != target,
        },
{
    for i in from..to
        invariant
            to <= bytes@.len(),
            forall|k: int| from <= k < i ==> bytes@[k] != target,
    {
        if bytes[i] == target {
            return Some(i);
        }
    }
    None
}

/// Relates a bounded search to `find_byte` on the subrange.
proof fn lemma_find_in_subrange(s: Seq<u8>, target: u8, cand: int)
    requires
        0 <= cand < s.len(),
        s[cand] == target,
        forall|k: int| 0 <= k < cand ==> s[k] != target,
    ensures
        crate::json::find_byte(s, target) == cand,
{
    crate::json::lemma_find_byte(s, target);
    let f = crate::json::find_byte(s, target);
    assert(s.contains(target));
    if f < cand {
        assert(s[f] != target);
        assert(false);
    }
    if f > cand {
        assert(s[cand] != target);
        assert(false);
    }
}

/// Parses the pair in `bytes[from..to]`.
fn parse_pair_range(bytes: &[u8], from: usize, to: usize) -> (r: Option<(Vec<u8>, Vec<u8>)>)
    requires
        from <= to <= bytes@.len(),
    ensures
        match r {
            Some(p) => parse_pair_bytes(bytes@.subrange(from as int, to as int)) == Some(
                (p.0@, p.1@),
            ),
            None => parse_pair_bytes(bytes@.subrange(from as int, to as int)) is None,
        },
{
    let ghost part = bytes@.subrange(from as int, to as int);
    match find_in_range(bytes, from, to, EQUALS) {
        None => {
            proof {
                crate::json::lemma_find_byte(part, EQUALS);
                if part.contains(EQUALS) {
                    let w = choose|w: int| 0 <= w < part.len() && part[w] == EQUALS;
                    assert(bytes@[from + w] == EQUALS);
                }
            }
            None
        },
        Some(ej) => {
            proof {
                lemma_find_in_subrange(part, EQUALS, ej - from);
                assert(part.take(ej - from) =~= bytes@.subrange(from as int, ej as int));
                assert(part.skip(ej - from + 1) =~= bytes@.subrange(ej + 1, to as int));
            }
            let key = match qs_decode_range(bytes, from, ej) {
                Some(k) => k,
                None => {
                    return None;
                },
            };
            let value = match qs_decode_range(bytes, ej + 1, to) {
                Some(v) => v,
                None => {
                    return None;
                },
            };
            Some((key, value))
        },
    }
}

/// Parses a whole query string into its decoded pairs: exactly what the
/// specification-level parser yields.
pub fn parse_query_bytes(bytes: &[u8]) -> (r: Option<Vec<(Vec<u8>, Vec<u8>)>>)
    ensures
        match r {
            Some(v) => parse_query(bytes@) == Some(byte_pair_views(v@)),
            None => parse_query(bytes@) is None,
        },
{
    let n = bytes.len();
    let mut acc: Vec<(Vec<u8>, Vec<u8>)> = Vec::new();
    if n == 0 {
        proof {
            assert(byte_pair_views(acc@) =~= Seq::<(Seq<u8>, Seq<u8>)>::empty());
        }
        return Some(acc);
    }
    let mut start: usize = 0;
    proof {
        assert(bytes@.subrange(0, n as int) =~= bytes@);
        match parse_query_parts(bytes@) {
            Some(r) => {
                assert(Seq::<(Seq<u8>, Seq<u8>)>::empty() + r =~= r);
            },
            None => {},
        }
    }
    loop
        invariant
            start <= n == bytes@.len(),
            parse_query(bytes@) == (match parse_query_parts(
                bytes@.subrange(start as int, n as int),
            ) {
                Some(rest) => Some(byte_pair_views(acc@) + rest),
                None => None::<Seq<(Seq<u8>, Seq<u8>)>>,
            }),
        decreases n - start,
    {
        let ghost s = bytes@.subrange(start as int, n as int);
        match find_in_range(bytes, start, n, AMP) {
            None => {
                proof {
                    crate::json::lemma_find_byte(s, AMP);
                    if s.contains(AMP) {
                        let w = choose|w: int| 0 <= w < s.len() && s[w] == AMP;
                        assert(bytes@[start + w] == AMP);
                    }
                }
                match parse_pair_range(bytes, start, n) {
                    None => {
                        return None;
                    },
                    Some(p) => {
                        let ghost old_acc = acc@;
                        acc.push(p);
                        proof {
                            assert(byte_pair_views(acc@) =~= byte_pair_views(old_acc).push(
                                (p.0@, p.1@),
                            ));
                            assert(byte_pair_views(old_acc) + seq![(p.0@, p.1@)] =~= byte_pair_views(
                                acc@,
                            ));
                        }
                        return Some(acc);
                    },
                }
            },
            Some(aj) => {
                proof {
                    lemma_find_in_subrange(s, AMP, aj - start);
                    assert(s.take(aj - start) =~= bytes@.subrange(start as int, aj as int));
                    assert(s.skip(aj - start + 1) =~= bytes@.subrange(aj + 1, n as int));
                }
                match parse_pair_range(bytes, start, aj) {
                    None => {
                        return None;
                    },
                    Some(p) => {
                        let ghost old_acc = acc@;
                        acc.push(p);
                        start = aj + 1;
                        proof {
                            assert(byte_pair_views(acc@) =~= byte_pair_views(old_acc).push(
                                (p.0@, p.1@),
                            ));
                            match parse_query_parts(bytes@.subrange(start as int, n as int)) {
                                Some(rest) => {
                                    assert(byte_pair_views(old_acc) + (seq![(p.0@, p.1@)] + rest)
                                        =~= byte_pair_views(acc@) + rest);
                                },
                                None => {},
                            }
                        }
                    },
                }
            },
        }
    }
}

// ---------------------------------------------------------------------------
// Decimal rendering
// ---------------------------------------------------------------------------

/// Decimal digits of a natural number, most significant first, without
/// leading zeros (`0` renders as `"0"`).
pub open spec fn dec_of(n: nat) -> Seq<u8>
    decreases n,
{
    if n < 10 {
        seq![(0x30 + n) as u8]
    } else {
        dec_of(n / 10).push((0x30 + n % 10) as u8)
    }
}

/// Decimal digits are ASCII.
pub proof fn lemma_dec_of_ascii(n: nat)
    ensures
        all_ascii(dec_of(n)),
    decreases n,
{
    if n >= 10 {
        lemma_dec_of_ascii(n / 10);
    }
}

/// Decimal digits are digit bytes.
pub proof fn lemma_dec_of_digits(n: nat)
    ensures
        forall|k: int| 0 <= k < dec_of(n).len() ==> 0x30 <= #[trigger] dec_of(n)[k] <= 0x39,
    decreases n,
{
    if n >= 10 {
        lemma_dec_of_digits(n / 10);
        assert(forall|k: int|
            0 <= k < dec_of(n / 10).len() ==> dec_of(n)[k] == dec_of(n / 10)[k]);
    }
}

/// Renders an unsigned integer in decimal.
pub fn u64_to_dec(n: u64) -> (r: Vec<u8>)
    ensures
        r@ == dec_of(n as nat),
{
    let mut rev: Vec<u8> = Vec::new();
    let mut m: u64 = n;
    proof {
        assert(dec_of(n as nat) =~= dec_of(m as nat) + rev@.reverse());
    }
    while m >= 10
        invariant
            dec_of(n as nat) =~= dec_of(m as nat) + rev@.reverse(),
        decreases m,
    {
        let ghost prev = rev@;
        let d: u8 = (m % 10) as u8;
        rev.push(0x30 + d);
        m = m / 10;
        proof {
            assert(rev@.reverse() =~= seq![(0x30 + d) as u8] + prev.reverse());
            assert(dec_of(n as nat) =~= dec_of(m as nat) + rev@.reverse());
        }
    }
    let ghost prev = rev@;
    let d: u8 = (m % 10) as u8;
    rev.push(0x30 + d);
    proof {
        assert(rev@.reverse() =~= seq![(0x30 + d) as u8] + prev.reverse());
        assert(dec_of(n as nat) =~= rev@.reverse());
    }
    let len: usize = rev.len();
    let mut out: Vec<u8> = Vec::new();
    for i in 0..len
        invariant
            len == rev@.len(),
            out@ =~= Seq::new(i as nat, |j: int| rev@[len - 1 - j]),
    {
        out.push(rev[len - 1 - i]);
    }
    proof {
        assert(out@ =~= rev@.reverse());
    }
    out
}

/// Renders an unsigned integer as a decimal string.
pub fn dec_string(n: u64) -> (r: String)
    ensures
        r@ == crate::text::ascii_chars_of(dec_of(n as nat)),
{
    let bytes = u64_to_dec(n);
    proof {
        lemma_dec_of_ascii(n as nat);
        crate::text::lemma_ascii_bytes_utf8(dec_of(n as nat));
    }
    match crate::text::try_utf8_to_string(bytes) {
        Some(s) => s,
        None => vstd::pervasive::unreached(),
    }
}

} // verus!
