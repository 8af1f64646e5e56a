//! What a request to the catalogue service carries: its signature, and the
//! place of the next page of a listing.

use vstd::prelude::*;
use vstd::utf8::encode_utf8;
use crate::text::{decimal, push_decimal, push_str, string_of};

verus! {

/// The MD5 digest of a sequence of bytes.
pub uninterp spec fn md5_of(data: Seq<u8>) -> Seq<u8>;

/// `md5::compute`: the digest of the bytes, which has 16 bytes.
#[verifier::external_body]
fn md5_digest(data: &[u8]) -> (digest: [u8; 16])
    ensures
        digest@ == md5_of(data@),
{
    md5::compute(data).0
}

/// The character for one hexadecimal digit, in lower case.
pub open spec fn hex_digit(d: nat) -> char
    recommends
        d < 16,
{
    if d < 10 {
        (('0' as u8) + (d as u8)) as char
    } else {
        (('a' as u8) + ((d - 10) as u8)) as char
    }
}

/// Bytes in hexadecimal: two digits in lower case for each byte.
pub open spec fn hex_lower(bytes: Seq<u8>) -> Seq<char>
    decreases bytes.len(),
{
    if bytes.len() == 0 {
        Seq::empty()
    } else {
        hex_lower(bytes.drop_last()).push(hex_digit((bytes.last() / 16) as nat)).push(
            hex_digit((bytes.last() % 16) as nat),
        )
    }
}

fn hex_char(d: u8) -> (c: char)
    requires
        d < 16,
    ensures
        c == hex_digit(d as nat),
{
    if d < 10 {
        (48u8 + d) as char
    } else {
        (97u8 + (d - 10)) as char
    }
}

/// Writes bytes in hexadecimal, two digits in lower case for each byte.
pub fn to_hex(bytes: &[u8]) -> (r: String)
    ensures
        r@ == hex_lower(bytes@),
{
    let mut out: Vec<char> = Vec::new();
    let mut i: usize = 0;
    while i < bytes.len()
        invariant
            i <= bytes.len(),
            out@ == hex_lower(bytes@.take(i as int)),
        decreases bytes.len() - i,
    {
        assert(bytes@.take(i + 1).drop_last() =~= bytes@.take(i as int));
        out.push(hex_char(bytes[i] / 16));
        out.push(hex_char(bytes[i] % 16));
        i += 1;
    }
    assert(bytes@.take(bytes@.len() as int) =~= bytes@);
    string_of(&out)
}

/// The MD5 digest of a text in UTF-8, in hexadecimal.
pub open spec fn md5_hex_of(text: Seq<char>) -> Seq<char> {
    hex_lower(md5_of(encode_utf8(text)))
}

/// Computes the MD5 digest of a text and writes it in hexadecimal.
pub fn md5_hex(text: &str) -> (r: String)
    ensures
        r@ == md5_hex_of(text@),
{
    let digest = md5_digest(text.as_bytes());
    to_hex(digest.as_slice())
}

/// The text that is signed for a request for the address of a track's
/// file. The intent is always the one to stream.
pub open spec fn signature_payload(
    track_id: u64,
    format_id: u8,
    timestamp: Seq<char>,
    app_secret: Seq<char>,
) -> Seq<char> {
    "trackgetFileUrlformat_id"@ + decimal(format_id as nat) + "intentstreamtrack_id"@ + decimal(
        track_id as nat,
    ) + timestamp + app_secret
}

/// Signs a request for the address of a track's file: the MD5 digest, in
/// hexadecimal, of the request's name and parameters followed by the time
/// of the request and the application's secret.
pub fn generate_request_sig(track_id: u64, format_id: u8, timestamp: &str, app_secret: &str) -> (r:
    String)
    ensures
        r@ == md5_hex_of(signature_payload(track_id, format_id, timestamp@, app_secret@)),
{
    let mut data: Vec<char> = Vec::new();
    push_str(&mut data, "trackgetFileUrlformat_id");
    push_decimal(&mut data, format_id as u64);
    push_str(&mut data, "intentstreamtrack_id");
    push_decimal(&mut data, track_id);
    push_str(&mut data, timestamp);
    push_str(&mut data, app_secret);
    md5_hex(string_of(&data).as_str())
}

/// How many purchases are asked for at once.
pub const PAGE_LIMIT: u64 = 500;

/// Where the next page of a listing starts, if the listing goes on: a page
/// that starts at `offset` and holds up to `limit` entries is the last one
/// when it reaches the `total`.
pub fn next_offset(offset: u64, limit: u64, total: u64) -> (r: Option<u64>)
    ensures
        r == (if offset + limit >= total {
            None
        } else {
            Some((offset + limit) as u64)
        }),
{
    if limit >= total || offset >= total - limit {
        None
    } else {
        Some(offset + limit)
    }
}

} // verus!
