//! The campaign record's byte layout: the administrator's 32-byte identity,
//! then name, description and image link, each a little-endian `u32` byte
//! count followed by UTF-8, then the donation total as a little-endian `u64`.
use vstd::prelude::*;
use vstd::utf8::*;
use borsh::BorshDeserialize;
use crate::account::Pubkey;

verus! {

/// The eight little-endian bytes of `n`.
pub open spec fn u64_le(n: u64) -> Seq<u8> {
    seq![
        n as u8, (n >> 8u64) as u8, (n >> 16u64) as u8, (n >> 24u64) as u8,
        (n >> 32u64) as u8, (n >> 40u64) as u8, (n >> 48u64) as u8, (n >> 56u64) as u8,
    ]
}

/// The `u64` whose little-endian bytes are the first eight of `b`.
pub open spec fn le_u64(b: Seq<u8>) -> u64 {
    (b[0] as u64) | ((b[1] as u64) << 8u64) | ((b[2] as u64) << 16u64) | ((b[3] as u64) << 24u64)
        | ((b[4] as u64) << 32u64) | ((b[5] as u64) << 40u64) | ((b[6] as u64) << 48u64) | ((
    b[7] as u64) << 56u64)
}

/// The four little-endian bytes of `n`.
pub open spec fn u32_le(n: u32) -> Seq<u8> {
    seq![n as u8, (n >> 8u32) as u8, (n >> 16u32) as u8, (n >> 24u32) as u8]
}

/// The `u32` whose little-endian bytes are the first four of `b`.
pub open spec fn le_u32(b: Seq<u8>) -> u32 {
    (b[0] as u32) | ((b[1] as u32) << 8u32) | ((b[2] as u32) << 16u32) | ((b[3] as u32) << 24u32)
}

/// The UTF-8 bytes of `s`.
#[verifier::opaque]
pub open spec fn utf8_bytes(s: Seq<char>) -> Seq<u8> {
    encode_utf8(s)
}

/// A string's length fits the `u32` byte count that precedes it.
pub open spec fn str_fits(s: Seq<char>) -> bool {
    utf8_bytes(s).len() <= u32::MAX
}

/// A string as stored: its UTF-8 byte count, then its UTF-8 bytes.
#[verifier::opaque]
pub open spec fn encode_str(s: Seq<char>) -> Seq<u8> {
    u32_le(utf8_bytes(s).len() as u32) + utf8_bytes(s)
}

/// The characters that `p` encodes, where it is UTF-8.
#[verifier::opaque]
pub open spec fn utf8_text(p: Seq<u8>) -> Option<Seq<char>> {
    if valid_utf8(p) {
        Some(decode_utf8(p))
    } else {
        None
    }
}

/// Reads a stored string from the front of `b`: the string and what follows
/// it, or `None` where the count runs past the end or the bytes are not UTF-8.
#[verifier::opaque]
pub open spec fn decode_str(b: Seq<u8>) -> Option<(Seq<char>, Seq<u8>)> {
    if b.len() < 4 {
        None
    } else {
        let n = le_u32(b) as int;
        if b.len() - 4 < n {
            None
        } else {
            match utf8_text(b.subrange(4, 4 + n)) {
                Some(s) => Some((s, b.subrange(4 + n, b.len() as int))),
                None => None,
            }
        }
    }
}

/// `r` is what reading a stored string from the front of `buf` gives.
pub open spec fn read_string_result(buf: Seq<u8>, r: Option<(String, &[u8])>) -> bool {
    match decode_str(buf) {
        None => r is None,
        Some((s, rest)) => r is Some && (r->0).0@ == s && (r->0).1@ == rest,
    }
}

/// Relies on borsh's `BorshDeserialize for String`: a little-endian `u32`
/// byte count, then that many bytes, which must be UTF-8; the slice is
/// advanced past what was read.
#[verifier::external_body]
fn borsh_read_string<'a>(buf: &'a [u8]) -> (r: Option<(String, &'a [u8])>)
    ensures
        read_string_result(buf@, r),
{
    let mut rest = buf;
    match String::deserialize(&mut rest) {
        Ok(s) => Some((s, rest)),
        Err(_) => None,
    }
}

/// Relies on `borsh::to_vec` on a `String`: the byte count as a little-endian
/// `u32`, then the UTF-8 bytes; an error where the count exceeds `u32::MAX`.
#[verifier::external_body]
fn borsh_string_bytes(s: &String) -> (r: Option<Vec<u8>>)
    ensures
        r is Some <==> str_fits(s@),
        r is Some ==> r->0@ == encode_str(s@),
{
    borsh::to_vec(s).ok()
}

/// A campaign record as the library holds it.
pub struct CampaignDetails {
    pub admin: Pubkey,
    pub name: String,
    pub description: String,
    pub image_link: String,
    pub amount_donated: u64,
}

pub ghost struct CampaignRecord {
    pub admin: Seq<u8>,
    pub name: Seq<char>,
    pub description: Seq<char>,
    pub image_link: Seq<char>,
    pub amount_donated: u64,
}

impl View for CampaignDetails {
    type V = CampaignRecord;

    open spec fn view(&self) -> CampaignRecord {
        CampaignRecord {
            admin: self.admin@,
            name: self.name@,
            description: self.description@,
            image_link: self.image_link@,
            amount_donated: self.amount_donated,
        }
    }
}

/// Every string of the record fits its byte count.
pub open spec fn encodable(r: CampaignRecord) -> bool {
    str_fits(r.name) && str_fits(r.description) && str_fits(r.image_link)
}

/// The bytes of a record.
pub open spec fn encode_record(r: CampaignRecord) -> Seq<u8> {
    r.admin + encode_str(r.name) + encode_str(r.description) + encode_str(r.image_link) + u64_le(
        r.amount_donated,
    )
}

/// The record that `b` holds, read to its last byte, or `None`.
pub open spec fn decode_record(b: Seq<u8>) -> Option<CampaignRecord> {
    if b.len() < 32 {
        None
    } else {
        match decode_str(b.skip(32)) {
            None => None,
            Some((name, b1)) => match decode_str(b1) {
                None => None,
                Some((description, b2)) => match decode_str(b2) {
                    None => None,
                    Some((image_link, b3)) => if b3.len() == 8 {
                        Some(
                            CampaignRecord {
                                admin: b.take(32),
                                name,
                                description,
                                image_link,
                                amount_donated: le_u64(b3),
                            },
                        )
                    } else {
                        None
                    },
                },
            },
        }
    }
}

/// The amount that a withdraw payload asks for: exactly eight bytes.
pub open spec fn decode_withdraw(b: Seq<u8>) -> Option<u64> {
    if b.len() == 8 {
        Some(le_u64(b))
    } else {
        None
    }
}

/// Reads the little-endian `u64` in `buf[pos..pos + 8]`.
fn read_u64(buf: &[u8], pos: usize) -> (r: u64)
    requires
        pos + 8 <= buf@.len(),
    ensures
        r == le_u64(buf@.subrange(pos as int, pos + 8)),
{
    (buf[pos] as u64) | ((buf[pos + 1] as u64) << 8u64) | ((buf[pos + 2] as u64) << 16u64) | ((
    buf[pos + 3] as u64) << 24u64) | ((buf[pos + 4] as u64) << 32u64) | ((buf[pos + 5] as u64)
        << 40u64) | ((buf[pos + 6] as u64) << 48u64) | ((buf[pos + 7] as u64) << 56u64)
}

/// Appends the little-endian bytes of `n`.
fn push_u64(out: &mut Vec<u8>, n: u64)
    ensures
        final(out)@ == old(out)@ + u64_le(n),
{
    out.push(n as u8);
    out.push((n >> 8u64) as u8);
    out.push((n >> 16u64) as u8);
    out.push((n >> 24u64) as u8);
    out.push((n >> 32u64) as u8);
    out.push((n >> 40u64) as u8);
    out.push((n >> 48u64) as u8);
    out.push((n >> 56u64) as u8);
    assert(final(out)@ =~= old(out)@ + u64_le(n));
}

/// A withdrawal's request: the amount to move to the administrator.
pub struct WithdrawRequest {
    pub amount: u64,
}

/// Decodes a withdraw payload, which is exactly the eight bytes of the amount.
pub fn decode_withdraw_request(buf: &[u8]) -> (r: Option<WithdrawRequest>)
    ensures
        match r {
            Some(w) => decode_withdraw(buf@) == Some(w.amount),
            None => decode_withdraw(buf@) is None,
        },
{
    if buf.len() == 8 {
        let amount = read_u64(buf, 0);
        assert(buf@.subrange(0, 8) =~= buf@);
        Some(WithdrawRequest { amount })
    } else {
        None
    }
}

/// Decodes a campaign record that fills `buf` exactly.
pub fn decode_campaign(buf: &[u8]) -> (r: Option<CampaignDetails>)
    ensures
        match r {
            Some(c) => decode_record(buf@) == Some(c@),
            None => decode_record(buf@) is None,
        },
{
    if buf.len() < 32 {
        return None;
    }
    let mut admin = [0u8; 32];
    let mut i: usize = 0;
    while i < 32
        invariant
            i <= 32,
            buf@.len() >= 32,
            admin@.len() == 32,
            forall|j: int| 0 <= j < i ==> admin@[j] == buf@[j],
        decreases 32 - i,
    {
        admin[i] = buf[i];
        i = i + 1;
    }
    assert(admin@ =~= buf@.take(32));
    let tail = vstd::slice::slice_subrange(buf, 32, buf.len());
    assert(tail@ =~= buf@.skip(32));
    let (name, b1) = match borsh_read_string(tail) {
        Some(p) => p,
        None => return None,
    };
    let (description, b2) = match borsh_read_string(b1) {
        Some(p) => p,
        None => return None,
    };
    let (image_link, b3) = match borsh_read_string(b2) {
        Some(p) => p,
        None => return None,
    };
    if b3.len() != 8 {
        return None;
    }
    let amount_donated = read_u64(b3, 0);
    assert(b3@.subrange(0, 8) =~= b3@);
    Some(CampaignDetails { admin: Pubkey(admin), name, description, image_link, amount_donated })
}

/// Encodes a campaign record; `None` where a string is too long for its count.
pub fn encode_campaign(rec: &CampaignDetails) -> (r: Option<Vec<u8>>)
    ensures
        r is Some <==> encodable(rec@),
        r is Some ==> r->0@ == encode_record(rec@),
{
    let mut out: Vec<u8> = Vec::new();
    let mut i: usize = 0;
    while i < 32
        invariant
            i <= 32,
            rec.admin@.len() == 32,
            out@ =~= rec.admin@.take(i as int),
        decreases 32 - i,
    {
        out.push(rec.admin.0[i]);
        i = i + 1;
    }
    assert(rec.admin@.take(32) =~= rec.admin@);
    let mut name = match borsh_string_bytes(&rec.name) {
        Some(v) => v,
        None => return None,
    };
    let mut description = match borsh_string_bytes(&rec.description) {
        Some(v) => v,
        None => return None,
    };
    let mut image_link = match borsh_string_bytes(&rec.image_link) {
        Some(v) => v,
        None => return None,
    };
    out.append(&mut name);
    out.append(&mut description);
    out.append(&mut image_link);
    push_u64(&mut out, rec.amount_donated);
    Some(out)
}

proof fn lemma_u64_le_round_trip(n: u64)
    ensures
        le_u64(u64_le(n)) == n,
        u64_le(n).len() == 8,
{
    let b = u64_le(n);
    assert(b[0] == n as u8 && b[1] == (n >> 8u64) as u8 && b[2] == (n >> 16u64) as u8 && b[3] == (n
        >> 24u64) as u8);
    assert(b[4] == (n >> 32u64) as u8 && b[5] == (n >> 40u64) as u8 && b[6] == (n >> 48u64) as u8
        && b[7] == (n >> 56u64) as u8);
    assert(((n as u8) as u64) | ((((n >> 8u64) as u8) as u64) << 8u64) | ((((n >> 16u64) as u8)
        as u64) << 16u64) | ((((n >> 24u64) as u8) as u64) << 24u64) | ((((n >> 32u64) as u8)
        as u64) << 32u64) | ((((n >> 40u64) as u8) as u64) << 40u64) | ((((n >> 48u64) as u8)
        as u64) << 48u64) | ((((n >> 56u64) as u8) as u64) << 56u64) == n) by (bit_vector);
}

proof fn lemma_u32_le_round_trip(n: u32)
    ensures
        le_u32(u32_le(n)) == n,
{
    let b = u32_le(n);
    assert(b[0] == n as u8 && b[1] == (n >> 8u32) as u8 && b[2] == (n >> 16u32) as u8 && b[3] == (n
        >> 24u32) as u8);
    assert(((n as u8) as u32) | ((((n >> 8u32) as u8) as u32) << 8u32) | ((((n >> 16u32) as u8)
        as u32) << 16u32) | ((((n >> 24u32) as u8) as u32) << 24u32) == n) by (bit_vector);
}

proof fn lemma_le_u32_bytes(b: Seq<u8>)
    requires
        b.len() >= 4,
    ensures
        u32_le(le_u32(b)) == b.take(4),
{
    let (b0, b1, b2, b3) = (b[0], b[1], b[2], b[3]);
    let n = le_u32(b);
    assert(n == (b0 as u32) | ((b1 as u32) << 8u32) | ((b2 as u32) << 16u32) | ((b3 as u32)
        << 24u32));
    assert(((b0 as u32) | ((b1 as u32) << 8u32) | ((b2 as u32) << 16u32) | ((b3 as u32) << 24u32))
        as u8 == b0) by (bit_vector);
    assert((((b0 as u32) | ((b1 as u32) << 8u32) | ((b2 as u32) << 16u32) | ((b3 as u32)
        << 24u32)) >> 8u32) as u8 == b1) by (bit_vector);
    assert((((b0 as u32) | ((b1 as u32) << 8u32) | ((b2 as u32) << 16u32) | ((b3 as u32)
        << 24u32)) >> 16u32) as u8 == b2) by (bit_vector);
    assert((((b0 as u32) | ((b1 as u32) << 8u32) | ((b2 as u32) << 16u32) | ((b3 as u32)
        << 24u32)) >> 24u32) as u8 == b3) by (bit_vector);
    assert(u32_le(n) =~= b.take(4));
}

proof fn lemma_str_round_trip(s: Seq<char>, rest: Seq<u8>)
    requires
        str_fits(s),
    ensures
        decode_str(encode_str(s) + rest) == Some((s, rest)),
{
    broadcast use encode_utf8_valid_utf8, encode_utf8_decode_utf8;

    let u = encode_utf8(s);
    let n = u.len() as u32;
    let b = encode_str(s) + rest;
    reveal(encode_str);
    reveal(decode_str);
    reveal(utf8_text);
    reveal(utf8_bytes);
    lemma_u32_le_round_trip(n);
    assert(b.take(4) =~= u32_le(n));
    assert(le_u32(b) == le_u32(b.take(4)));
    assert(b.subrange(4, 4 + n as int) =~= u);
    assert(b.subrange(4 + n as int, b.len() as int) =~= rest);
}

proof fn lemma_str_decoded(b: Seq<u8>)
    requires
        decode_str(b) is Some,
    ensures
        str_fits(decode_str(b)->Some_0.0),
        encode_str(decode_str(b)->Some_0.0) + decode_str(b)->Some_0.1 == b,
{
    broadcast use decode_utf8_encode_utf8;

    let n = le_u32(b) as int;
    let p = b.subrange(4, 4 + n);
    reveal(encode_str);
    reveal(decode_str);
    reveal(utf8_text);
    reveal(utf8_bytes);
    assert(encode_utf8(decode_utf8(p)) == p);
    lemma_le_u32_bytes(b);
    assert(encode_str(decode_str(b)->Some_0.0) + decode_str(b)->Some_0.1 =~= b);
}

/// Reading back the bytes of a record gives the same record, whatever the
/// lengths of its strings, provided each fits its byte count.
pub proof fn lemma_record_round_trip(r: CampaignRecord)
    requires
        r.admin.len() == 32,
        encodable(r),
    ensures
        decode_record(encode_record(r)) == Some(r),
{
    let e3 = u64_le(r.amount_donated);
    let e2 = encode_str(r.image_link) + e3;
    let e1 = encode_str(r.description) + e2;
    let e0 = encode_str(r.name) + e1;
    let b = encode_record(r);
    assert(b =~= r.admin + e0);
    assert(b.take(32) =~= r.admin);
    assert(b.skip(32) =~= e0);
    lemma_str_round_trip(r.name, e1);
    lemma_str_round_trip(r.description, e2);
    lemma_str_round_trip(r.image_link, e3);
    lemma_u64_le_round_trip(r.amount_donated);
}

proof fn lemma_le_u64_bytes(b: Seq<u8>)
    requires
        b.len() == 8,
    ensures
        u64_le(le_u64(b)) == b,
{
    let (x0, x1, x2, x3, x4, x5, x6, x7) = (b[0], b[1], b[2], b[3], b[4], b[5], b[6], b[7]);
    let v = le_u64(b);
    assert(v as u8 == x0 && (v >> 8u64) as u8 == x1 && (v >> 16u64) as u8 == x2 && (v >> 24u64)
        as u8 == x3 && (v >> 32u64) as u8 == x4 && (v >> 40u64) as u8 == x5 && (v >> 48u64) as u8
        == x6 && (v >> 56u64) as u8 == x7) by (bit_vector)
        requires
            v == (x0 as u64) | ((x1 as u64) << 8u64) | ((x2 as u64) << 16u64) | ((x3 as u64)
                << 24u64) | ((x4 as u64) << 32u64) | ((x5 as u64) << 40u64) | ((x6 as u64)
                << 48u64) | ((x7 as u64) << 56u64),
    ;
    assert(u64_le(v) =~= b);
}

/// A record read from bytes fits its byte counts and writes back to exactly
/// those bytes.
#[verifier::rlimit(50)]
pub proof fn lemma_decoded_record(b: Seq<u8>)
    requires
        decode_record(b) is Some,
    ensures
        encodable(decode_record(b)->Some_0),
        encode_record(decode_record(b)->Some_0) == b,
        decode_record(b)->Some_0.admin.len() == 32,
{
    let b0 = b.skip(32);
    lemma_str_decoded(b0);
    let (name, b1) = decode_str(b0)->Some_0;
    lemma_str_decoded(b1);
    let (description, b2) = decode_str(b1)->Some_0;
    lemma_str_decoded(b2);
    let (image_link, b3) = decode_str(b2)->Some_0;
    lemma_le_u64_bytes(b3);
    let r = decode_record(b)->Some_0;
    assert(r.name == name && r.description == description && r.image_link == image_link);
    let admin = b.take(32);
    let s1 = admin + encode_str(name);
    let s2 = s1 + encode_str(description);
    let s3 = s2 + encode_str(image_link);
    assert(b =~= admin + b0);
    assert(s1 + b1 =~= admin + (encode_str(name) + b1));
    assert(s2 + b2 =~= s1 + (encode_str(description) + b2));
    assert(s3 + b3 =~= s2 + (encode_str(image_link) + b3));
    assert(encode_record(r) == s3 + u64_le(r.amount_donated));
}

} // verus!
