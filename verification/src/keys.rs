//! The key under which an asset's records are stored: the BLAKE2b digest of
//! the asset's collection and number, each as text with its length in front,
//! written in hexadecimal.

use vstd::prelude::*;
use vstd::string::*;
use vstd::utf8::*;

verus! {

/// The four bytes of `n` modulo two to the power 32, least significant first.
pub open spec fn length_bytes(n: nat) -> Seq<u8> {
    seq![
        (n % 256) as u8,
        ((n / 256) % 256) as u8,
        ((n / 65536) % 256) as u8,
        ((n / 16777216) % 256) as u8,
    ]
}

/// A text as it is written into a record: its length in bytes, then its bytes
/// in UTF-8.
pub open spec fn text_bytes(text: Seq<char>) -> Seq<u8> {
    length_bytes(encode_utf8(text).len()) + encode_utf8(text)
}

/// What is hashed for an asset: its collection's text, then its number's.
pub open spec fn key_preimage(collection: Seq<char>, asset: Seq<char>) -> Seq<u8> {
    text_bytes(collection) + text_bytes(asset)
}

/// The 32-byte BLAKE2b digest of `data`.
pub uninterp spec fn blake2b_digest(data: Seq<u8>) -> Seq<u8>;

/// The character of the hexadecimal digit `d`, in lower case.
pub open spec fn hex_digit(d: int) -> char {
    if d < 10 {
        (48 + d) as char
    } else {
        (87 + d) as char
    }
}

/// `bytes` in hexadecimal: two digits for each byte, the high one first.
pub open spec fn hex_text(bytes: Seq<u8>) -> Seq<char> {
    Seq::new(
        2 * bytes.len(),
        |i: int|
            if i % 2 == 0 {
                hex_digit(bytes[i / 2] as int / 16)
            } else {
                hex_digit(bytes[i / 2] as int % 16)
            },
    )
}

/// The key of the asset numbered `asset` in `collection`.
pub open spec fn listing_key(collection: Seq<char>, asset: Seq<char>) -> Seq<char> {
    hex_text(blake2b_digest(key_preimage(collection, asset)))
}

/// `casper_types::account::blake2b`: the BLAKE2b digest of 32 bytes of the
/// data. The contract only names the digest; that equal data give equal
/// digests is all that is used.
#[verifier::external_body]
fn blake2b(data: &Vec<u8>) -> (digest: [u8; 32])
    ensures
        digest@ == blake2b_digest(data@),
{
    casper_types::account::blake2b(data)
}

/// `hex::encode`: each byte becomes two hexadecimal digits in lower case, the
/// high four bits first.
#[verifier::external_body]
fn hex_encode(bytes: &[u8; 32]) -> (text: String)
    ensures
        text@ == hex_text(bytes@),
{
    hex::encode(bytes)
}

/// Appends to `out` the bytes of `text` with their number in front.
pub fn write_text(out: &mut Vec<u8>, text: &str)
    ensures
        final(out)@ == old(out)@ + text_bytes(text@),
{
    let bytes = text.as_bytes();
    let n: u64 = bytes.len() as u64;
    out.push((n % 256) as u8);
    out.push(((n / 256) % 256) as u8);
    out.push(((n / 65536) % 256) as u8);
    out.push(((n / 16777216) % 256) as u8);
    assert(out@ == old(out)@ + length_bytes(bytes@.len()));
    let mut i: usize = 0;
    while i < bytes.len()
        invariant
            i <= bytes@.len(),
            out@ == old(out)@ + length_bytes(bytes@.len()) + bytes@.subrange(0, i as int),
        decreases bytes@.len() - i,
    {
        out.push(bytes[i]);
        i = i + 1;
        assert(bytes@.subrange(0, i as int) == bytes@.subrange(0, i - 1).push(bytes@[i - 1]));
    }
    assert(bytes@.subrange(0, i as int) == bytes@);
    assert(out@ == old(out)@ + (length_bytes(bytes@.len()) + bytes@));
}

/// What is hashed for an asset: its collection's text, then its number's.
pub fn preimage(token_contract: &String, token_id: &String) -> (data: Vec<u8>)
    ensures
        data@ == key_preimage(token_contract@, token_id@),
{
    let mut data: Vec<u8> = Vec::new();
    write_text(&mut data, token_contract.as_str());
    write_text(&mut data, token_id.as_str());
    data
}

/// The key that stands for the digest `digest`: the digest in hexadecimal.
pub fn id_of_digest(digest: &[u8; 32]) -> (id: String)
    ensures
        id@ == hex_text(digest@),
{
    hex_encode(digest)
}

/// The key under which the records of an asset are stored.
pub fn get_id(token_contract: &String, token_id: &String) -> (id: String)
    ensures
        id@ == listing_key(token_contract@, token_id@),
{
    let data = preimage(token_contract, token_id);
    let digest = blake2b(&data);
    id_of_digest(&digest)
}

} // verus!
