//! Reading the user id out of the login token.
//!
//! Token format: `{base64url_payload}.{signature}`, where the payload is a JSON object whose
//! `sub` member is the user id.
use vstd::prelude::*;
use vstd::string::StringSliceAdditionalSpecFns;

verus! {


// ---------------------------------------------------------------------------
// base64url
// ---------------------------------------------------------------------------
/// Value of a character of the base64url alphabet
/// `A-Z a-z 0-9 - _` (in that order), or `None` for any other byte.
pub open spec fn b64url_value(c: u8) -> Option<u32> {
    if 65 <= c <= 90 {
        // 'A'..='Z'
        Some((c - 65) as u32)
    } else if 97 <= c <= 122 {
        // 'a'..='z'
        Some((c - 97 + 26) as u32)
    } else if 48 <= c <= 57 {
        // '0'..='9'
        Some((c - 48 + 52) as u32)
    } else if c == 45 {
        // '-'
        Some(62)
    } else if c == 95 {
        // '_'
        Some(63)
    } else {
        None
    }
}

/// Value of the `k`-th character of a group, 0 past its end.
pub open spec fn group_value(g: Seq<u8>, k: int) -> int {
    if k < g.len() {
        b64url_value(g[k]).unwrap() as int
    } else {
        0
    }
}

/// Decodes one group of one to four characters. A group of `n` characters gives the first
/// `max(n - 1, 1)` of the three bytes that its 24 bits make up, the missing characters counting
/// as zero bits. `None` if a character is outside the alphabet.
pub open spec fn decode_group(g: Seq<u8>) -> Option<Seq<u8>> {
    if forall|k: int| 0 <= k < g.len() ==> #[trigger] b64url_value(g[k]) is Some {
        let b0 = (group_value(g, 0) * 4 + group_value(g, 1) / 16) as u8;
        let b1 = ((group_value(g, 1) % 16) * 16 + group_value(g, 2) / 4) as u8;
        let b2 = ((group_value(g, 2) % 4) * 64 + group_value(g, 3)) as u8;
        Some(
            seq![b0] + (if g.len() >= 3 {
                seq![b1]
            } else {
                Seq::<u8>::empty()
            }) + (if g.len() >= 4 {
                seq![b2]
            } else {
                Seq::<u8>::empty()
            }),
        )
    } else {
        None
    }
}

/// Decodes unpadded base64url text group by group (four characters at a time, the last group
/// possibly shorter). `None` if any character is outside the alphabet.
pub open spec fn base64url_decoded(s: Seq<u8>) -> Option<Seq<u8>>
    decreases s.len(),
{
    if s.len() == 0 {
        Some(Seq::<u8>::empty())
    } else {
        let n: int = if s.len() >= 4 {
            4
        } else {
            s.len() as int
        };
        match decode_group(s.take(n)) {
            None => None,
            Some(a) => match base64url_decoded(s.skip(n)) {
                None => None,
                Some(b) => Some(a + b),
            },
        }
    }
}

/// The base64url character of a 6-bit value `v` (below 64).
pub open spec fn b64url_char(v: int) -> u8 {
    if v < 26 {
        (65 + v) as u8
    } else if v < 52 {
        (97 + v - 26) as u8
    } else if v < 62 {
        (48 + v - 52) as u8
    } else if v == 62 {
        45
    } else {
        95
    }
}

/// Unpadded base64url encoding of one chunk of one to three bytes: `len + 1` characters.
pub open spec fn encode_chunk(c: Seq<u8>) -> Seq<u8> {
    let x = c[0] as int;
    let y = if c.len() >= 2 {
        c[1] as int
    } else {
        0
    };
    let z = if c.len() >= 3 {
        c[2] as int
    } else {
        0
    };
    seq![
        b64url_char(x / 4),
        b64url_char((x % 4) * 16 + y / 16),
        b64url_char((y % 16) * 4 + z / 64),
        b64url_char(z % 64),
    ].take(c.len() + 1int)
}

/// Unpadded base64url encoding of `b`, three bytes at a time.
pub open spec fn base64url_encoded(b: Seq<u8>) -> Seq<u8>
    decreases b.len(),
{
    if b.len() == 0 {
        Seq::<u8>::empty()
    } else {
        let n: int = if b.len() >= 3 {
            3
        } else {
            b.len() as int
        };
        encode_chunk(b.take(n)) + base64url_encoded(b.skip(n))
    }
}

/// Each 6-bit value has a character, which decodes back to it.
proof fn lemma_char_value(v: int)
    requires
        0 <= v < 64,
    ensures
        b64url_value(b64url_char(v)) == Some(v as u32),
{
}

/// The bits of one to three bytes survive their encoding.
proof fn lemma_chunk_bits(x: int, y: int, z: int)
    requires
        0 <= x < 256,
        0 <= y < 256,
        0 <= z < 256,
    ensures
        (x / 4) * 4 + ((x % 4) * 16 + y / 16) / 16 == x,
        (((x % 4) * 16 + y / 16) % 16) * 16 + ((y % 16) * 4 + z / 64) / 4 == y,
        (((y % 16) * 4 + z / 64) % 4) * 64 + z % 64 == z,
        0 <= (x % 4) * 16 + y / 16 < 64,
        0 <= (y % 16) * 4 + z / 64 < 64,
        0 <= x / 4 < 64,
{
    assert((x / 4) * 4 + x % 4 == x) by (nonlinear_arith)
        requires
            0 <= x,
    ;
    assert((y / 16) * 16 + y % 16 == y) by (nonlinear_arith)
        requires
            0 <= y,
    ;
    assert((z / 64) * 64 + z % 64 == z) by (nonlinear_arith)
        requires
            0 <= z,
    ;
    assert(((x % 4) * 16 + y / 16) / 16 == x % 4 && ((x % 4) * 16 + y / 16) % 16 == y / 16) by (nonlinear_arith)
        requires
            0 <= x % 4 < 4,
            0 <= y / 16 < 16,
    ;
    assert(((y % 16) * 4 + z / 64) / 4 == y % 16 && ((y % 16) * 4 + z / 64) % 4 == z / 64) by (nonlinear_arith)
        requires
            0 <= y % 16 < 16,
            0 <= z / 64 < 4,
    ;
}

/// A chunk of one to three bytes decodes back from its encoding.
proof fn lemma_chunk_round_trip(c: Seq<u8>)
    requires
        1 <= c.len() <= 3,
    ensures
        encode_chunk(c).len() == c.len() + 1,
        decode_group(encode_chunk(c)) == Some(c),
{
    let x = c[0] as int;
    let y = if c.len() >= 2 {
        c[1] as int
    } else {
        0
    };
    let z = if c.len() >= 3 {
        c[2] as int
    } else {
        0
    };
    lemma_chunk_bits(x, y, z);
    let v0 = x / 4;
    let v1 = (x % 4) * 16 + y / 16;
    let v2 = (y % 16) * 4 + z / 64;
    let v3 = z % 64;
    lemma_char_value(v0);
    lemma_char_value(v1);
    lemma_char_value(v2);
    lemma_char_value(v3);
    let g = encode_chunk(c);
    assert(g.len() == c.len() + 1);
    assert forall|k: int| 0 <= k < g.len() implies #[trigger] b64url_value(g[k]) is Some by {
        if k == 0 {
            assert(g[k] == b64url_char(v0));
        } else if k == 1 {
            assert(g[k] == b64url_char(v1));
        } else if k == 2 {
            assert(g[k] == b64url_char(v2));
        } else {
            assert(g[k] == b64url_char(v3));
        }
    }
    assert(group_value(g, 0) == v0);
    assert(group_value(g, 1) == v1);
    assert(c.len() >= 2 ==> group_value(g, 2) == v2);
    assert(c.len() >= 3 ==> group_value(g, 3) == v3);
    assert(c.len() < 2 ==> y == 0 && v1 == (x % 4) * 16);
    let d = decode_group(g).unwrap();
    assert(d =~= c);
}

/// Decoding undoes encoding: every byte sequence is given back by decoding its unpadded
/// base64url text.
pub proof fn law_base64url_round_trip(b: Seq<u8>)
    ensures
        base64url_decoded(base64url_encoded(b)) == Some(b),
    decreases b.len(),
{
    if b.len() > 0 {
        let n: int = if b.len() >= 3 {
            3
        } else {
            b.len() as int
        };
        let chunk = encode_chunk(b.take(n));
        let rest = base64url_encoded(b.skip(n));
        law_base64url_round_trip(b.skip(n));
        lemma_chunk_round_trip(b.take(n));
        let e = base64url_encoded(b);
        assert(e == chunk + rest);
        if b.len() >= 3 {
            assert(e.take(4) =~= chunk);
            assert(e.skip(4) =~= rest);
        } else {
            assert(rest == Seq::<u8>::empty());
            assert(e.take(e.len() as int) =~= chunk);
            assert(e.skip(e.len() as int) =~= rest);
        }
        assert(b.take(n) + b.skip(n) =~= b);
    }
}

/// A byte outside the base64url alphabet makes the whole text undecodable.
pub proof fn law_base64url_rejects_foreign_bytes(s: Seq<u8>, i: int)
    requires
        0 <= i < s.len(),
        b64url_value(s[i]) is None,
    ensures
        base64url_decoded(s) is None,
    decreases s.len(),
{
    let n: int = if s.len() >= 4 {
        4
    } else {
        s.len() as int
    };
    if i < n {
        assert(s.take(n)[i] == s[i]);
        assert(decode_group(s.take(n)) is None);
    } else {
        assert(s.skip(n)[i - n] == s[i]);
        law_base64url_rejects_foreign_bytes(s.skip(n), i - n);
    }
}

/// Value of a base64url character.
fn b64url_char_value(c: u8) -> (r: Option<u32>)
    ensures
        r == b64url_value(c),
{
    if 65 <= c && c <= 90 {
        Some((c - 65) as u32)
    } else if 97 <= c && c <= 122 {
        Some((c - 97 + 26) as u32)
    } else if 48 <= c && c <= 57 {
        Some((c - 48 + 52) as u32)
    } else if c == 45 {
        Some(62)
    } else if c == 95 {
        Some(63)
    } else {
        None
    }
}

/// How the 24 bits of four 6-bit values split into three bytes.
proof fn lemma_group_bits(b0: u32, b1: u32, b2: u32, b3: u32)
    requires
        b0 < 64,
        b1 < 64,
        b2 < 64,
        b3 < 64,
    ensures
        ((((b0 << 18u32) | (b1 << 12u32) | (b2 << 6u32) | b3) >> 16u32) & 0xFFu32) == b0 * 4 + b1
            / 16,
        ((((b0 << 18u32) | (b1 << 12u32) | (b2 << 6u32) | b3) >> 8u32) & 0xFFu32) == (b1 % 16)
            * 16 + b2 / 4,
        ((((b0 << 18u32) | (b1 << 12u32) | (b2 << 6u32) | b3)) & 0xFFu32) == (b2 % 4) * 64 + b3,
{
    assert(((((b0 << 18u32) | (b1 << 12u32) | (b2 << 6u32) | b3) >> 16u32) & 0xFFu32) == b0 * 4
        + b1 / 16) by (bit_vector)
        requires
            b0 < 64,
            b1 < 64,
            b2 < 64,
            b3 < 64,
    ;
    assert(((((b0 << 18u32) | (b1 << 12u32) | (b2 << 6u32) | b3) >> 8u32) & 0xFFu32) == (b1 % 16)
        * 16 + b2 / 4) by (bit_vector)
        requires
            b0 < 64,
            b1 < 64,
            b2 < 64,
            b3 < 64,
    ;
    assert(((((b0 << 18u32) | (b1 << 12u32) | (b2 << 6u32) | b3)) & 0xFFu32) == (b2 % 4) * 64
        + b3) by (bit_vector)
        requires
            b0 < 64,
            b1 < 64,
            b2 < 64,
            b3 < 64,
    ;
}

/// Decodes `bytes[start..start + len]` as one group.
fn decode_group_at(bytes: &[u8], start: usize, len: usize) -> (r: Option<Vec<u8>>)
    requires
        1 <= len <= 4,
        start + len <= bytes@.len(),
    ensures
        match r {
            Some(v) => decode_group(bytes@.subrange(start as int, start + len)) == Some(v@),
            None => decode_group(bytes@.subrange(start as int, start + len)) is None,
        },
{
    let ghost g = bytes@.subrange(start as int, start + len);
    let total = bytes.len();
    let mut vals: [u32; 4] = [0, 0, 0, 0];
    let mut k: usize = 0;
    while k < len
        invariant
            1 <= len <= 4,
            start + len <= bytes@.len(),
            total == bytes@.len(),
            g == bytes@.subrange(start as int, start + len),
            k <= len,
            forall|j: int| 0 <= j < k ==> #[trigger] b64url_value(g[j]) is Some,
            forall|j: int| 0 <= j < 4 ==> vals[j] == group_value(g.take(k as int), j),
            forall|j: int| 0 <= j < 4 ==> #[trigger] vals[j] < 64,
        decreases len - k,
    {
        match b64url_char_value(bytes[start + k]) {
            Some(v) => {
                proof {
                    assert(g[k as int] == bytes@[start + k]);
                }
                vals[k] = v;
                proof {
                    assert forall|j: int| 0 <= j < 4 implies vals[j] == group_value(
                        g.take(k + 1),
                        j,
                    ) by {
                        if j < k {
                            assert(g.take(k + 1)[j] == g.take(k as int)[j]);
                        }
                    }
                }
            },
            None => {
                proof {
                    assert(g[k as int] == bytes@[start + k]);
                    assert(!(b64url_value(g[k as int]) is Some));
                }
                return None;
            },
        }
        k = k + 1;
    }
    proof {
        assert(g.take(len as int) =~= g);
        lemma_group_bits(vals[0], vals[1], vals[2], vals[3]);
    }
    let n: u32 = (vals[0] << 18u32) | (vals[1] << 12u32) | (vals[2] << 6u32) | vals[3];
    let mut out: Vec<u8> = Vec::new();
    out.push(((n >> 16u32) & 0xFFu32) as u8);
    if len > 2 {
        out.push(((n >> 8u32) & 0xFFu32) as u8);
    }
    if len > 3 {
        out.push((n & 0xFFu32) as u8);
    }
    proof {
        let d = decode_group(g).unwrap();
        assert(out@ =~= d);
    }
    Some(out)
}

/// Decodes the unpadded base64url text `bytes[..end]`.
pub fn base64url_decode_prefix(bytes: &[u8], end: usize) -> (r: Option<Vec<u8>>)
    requires
        end <= bytes@.len(),
    ensures
        match r {
            Some(v) => base64url_decoded(bytes@.take(end as int)) == Some(v@),
            None => base64url_decoded(bytes@.take(end as int)) is None,
        },
{
    let ghost all = bytes@.take(end as int);
    let mut result: Vec<u8> = Vec::new();
    let mut i: usize = 0;
    proof {
        assert(all.skip(0) =~= all);
        assert(forall|rest: Seq<u8>| Seq::<u8>::empty() + rest =~= rest);
    }
    while i < end
        invariant
            end <= bytes@.len(),
            all == bytes@.take(end as int),
            i <= end,
            match base64url_decoded(all.skip(i as int)) {
                Some(rest) => base64url_decoded(all) == Some(result@ + rest),
                None => base64url_decoded(all) is None,
            },
        decreases end - i,
    {
        let g: usize = if end - i >= 4 {
            4
        } else {
            end - i
        };
        let ghost s = all.skip(i as int);
        proof {
            assert(s.take(g as int) =~= bytes@.subrange(i as int, i + g));
            assert(s.skip(g as int) =~= all.skip(i + g));
        }
        match decode_group_at(bytes, i, g) {
            Some(part) => {
                let ghost before = result@;
                let ghost pv = part@;
                let mut part = part;
                result.append(&mut part);
                proof {
                    assert(result@ == before + pv);
                    match base64url_decoded(all.skip(i + g)) {
                        Some(rest) => {
                            assert(before + (pv + rest) =~= result@ + rest);
                        },
                        None => {},
                    }
                }
            },
            None => {
                return None;
            },
        }
        i = i + g;
    }
    proof {
        assert(all.skip(end as int) =~= Seq::<u8>::empty());
        assert(result@ + Seq::<u8>::empty() =~= result@);
    }
    Some(result)
}

/// Decodes unpadded base64url text.
pub fn base64url_decode(input: &str) -> (r: Option<Vec<u8>>)
    ensures
        match r {
            Some(v) => base64url_decoded(input.spec_bytes()) == Some(v@),
            None => base64url_decoded(input.spec_bytes()) is None,
        },
{
    let bytes = input.as_bytes();
    let r = base64url_decode_prefix(bytes, bytes.len());
    assert(bytes@.take(bytes@.len() as int) =~= bytes@);
    r
}

// ---------------------------------------------------------------------------
// Token payload
// ---------------------------------------------------------------------------
/// The bytes before the first `.` (all of them if there is none).
pub open spec fn first_segment(s: Seq<u8>) -> Seq<u8>
    decreases s.len(),
{
    if s.len() == 0 || s[0] == 46 {
        Seq::<u8>::empty()
    } else {
        seq![s[0]] + first_segment(s.drop_first())
    }
}

/// The prefix of length `k` is the first segment when it holds no `.` and is followed by one
/// or by the end.
proof fn lemma_first_segment(s: Seq<u8>, k: int)
    requires
        0 <= k <= s.len(),
        forall|j: int| 0 <= j < k ==> s[j] != 46,
        k == s.len() || s[k] == 46,
    ensures
        first_segment(s) == s.take(k),
    decreases k,
{
    if k == 0 {
        assert(s.take(0) =~= Seq::<u8>::empty());
    } else {
        let t = s.drop_first();
        assert forall|j: int| 0 <= j < k - 1 implies t[j] != 46 by {
            assert(t[j] == s[j + 1]);
        }
        if k < s.len() {
            assert(t[k - 1] == s[k]);
        }
        lemma_first_segment(t, k - 1);
        assert(s.take(k) =~= seq![s[0]] + t.take(k - 1));
    }
}

/// End of the first segment of `bytes`.
fn first_segment_end(bytes: &[u8]) -> (k: usize)
    ensures
        k <= bytes@.len(),
        bytes@.take(k as int) == first_segment(bytes@),
{
    let n = bytes.len();
    let mut k: usize = 0;
    while k < n && bytes[k] != 46u8
        invariant
            n == bytes@.len(),
            k <= n,
            forall|j: int| 0 <= j < k ==> bytes@[j] != 46,
        decreases n - k,
    {
        k = k + 1;
    }
    proof {
        lemma_first_segment(bytes@, k as int);
    }
    k
}

/// serde_json's `from_slice` accepts the bytes as a JSON value.
pub uninterp spec fn json_accepts(bytes: Seq<u8>) -> bool;

/// For bytes that serde_json accepts as a JSON value: the text of that value's member `key`,
/// when the value is an object holding a string there (`None` otherwise).
pub uninterp spec fn json_string_member(bytes: Seq<u8>, key: Seq<char>) -> Option<Seq<char>>;

/// The text of a string, if any.
pub open spec fn opt_text(o: Option<String>) -> Option<Seq<char>> {
    match o {
        Some(s) => Some(s@),
        None => None,
    }
}

/// Parses `bytes` with `serde_json::from_slice::<serde_json::Value>` and reads the member
/// `key` with `Value::get` and `Value::as_str`. Claimed: the parse succeeds exactly on the
/// bytes serde_json accepts, and the member read is the named result of the bytes and the key.
#[verifier::external_body]
fn json_string_member_of(bytes: &[u8], key: &str) -> (r: Option<Option<String>>)
    ensures
        r is Some <==> json_accepts(bytes@),
        r matches Some(m) ==> opt_text(m) == json_string_member(bytes@, key@),
{
    match serde_json::from_slice::<serde_json::Value>(bytes) {
        Ok(v) => Some(v.get(key).and_then(|m| m.as_str()).map(|t| t.to_string())),
        Err(_) => None,
    }
}

/// The user id a token `{base64url_payload}.{signature}` carries: the string member `sub` of
/// the JSON payload, when the payload decodes and parses.
pub open spec fn token_user_of(token: Seq<char>) -> Option<Seq<char>> {
    match base64url_decoded(first_segment(vstd::utf8::encode_utf8(token))) {
        Some(d) => if json_accepts(d) {
            json_string_member(d, "sub"@)
        } else {
            None
        },
        None => None,
    }
}

/// Extracts the user id (the `sub` claim) from a login token
/// `{base64url_payload}.{signature}`.
///
/// `None` when the payload does not decode or is not JSON; otherwise what the JSON holds under
/// `sub` if that is a string.
pub fn extract_user_id_from_token(token: &str) -> (r: Option<String>)
    ensures
        opt_text(r) == token_user_of(token@),
{
    let bytes = token.as_bytes();
    let end = first_segment_end(bytes);
    let decoded = match base64url_decode_prefix(bytes, end) {
        Some(d) => d,
        None => {
            return None;
        },
    };
    match json_string_member_of(decoded.as_slice(), "sub") {
        Some(m) => m,
        None => None,
    }
}

} // verus!
