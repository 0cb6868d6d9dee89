//! Checksums of package contents: MD5 and SHA-256, rendered as hex strings.
//!
//! The digests themselves come from outside crates; what they return is named
//! and the hex rendering is verified here.

use vstd::prelude::*;
use crate::strutil::string_of;

verus! {

/// The MD5 digest of `data`: a function of the input bytes alone.
pub uninterp spec fn md5_of(data: Seq<u8>) -> Seq<u8>;

/// The SHA-256 digest of `data`: a function of the input bytes alone.
pub uninterp spec fn sha256_of(data: Seq<u8>) -> Seq<u8>;

/// Relies on `md5::Md5` (the `md-5` crate): `Digest::digest` computes the
/// 16-byte MD5 digest of the input bytes alone.
#[verifier::external_body]
fn md5_digest(data: &[u8]) -> (r: Vec<u8>)
    ensures
        r@ == md5_of(data@),
        r@.len() == 16,
{
    <md5::Md5 as md5::Digest>::digest(data).to_vec()
}

/// Relies on `sha2::Sha256`: `Digest::digest` computes the 32-byte SHA-256
/// digest of the input bytes alone.
#[verifier::external_body]
fn sha256_digest(data: &[u8]) -> (r: Vec<u8>)
    ensures
        r@ == sha256_of(data@),
        r@.len() == 32,
{
    <sha2::Sha256 as sha2::Digest>::digest(data).to_vec()
}

/// Lower-case hex digit with value `d`.
pub open spec fn spec_hex_char(d: nat) -> char {
    if d % 16 < 10 {
        ((48 + d % 16) as u8) as char
    } else {
        ((87 + d % 16) as u8) as char
    }
}

/// Lower-case hex rendering of `bytes`, two digits per byte.
pub open spec fn spec_hex(bytes: Seq<u8>) -> Seq<char>
    decreases bytes.len(),
{
    if bytes.len() == 0 {
        Seq::<char>::empty()
    } else {
        spec_hex(bytes.drop_last()) + seq![
            spec_hex_char((bytes.last() / 16) as nat),
            spec_hex_char((bytes.last() % 16) as nat),
        ]
    }
}

/// Hex string of the MD5 digest of `data`.
pub open spec fn spec_md5_hex(data: Seq<u8>) -> Seq<char> {
    spec_hex(md5_of(data))
}

/// Hex string of the SHA-256 digest of `data`.
pub open spec fn spec_sha256_hex(data: Seq<u8>) -> Seq<char> {
    spec_hex(sha256_of(data))
}

fn hex_char(d: u8) -> (r: char)
    requires
        d < 16,
    ensures
        r == spec_hex_char(d as nat),
{
    if d < 10 {
        (48 + d) as char
    } else {
        (87 + d) as char
    }
}

/// Render `bytes` in lower-case hex.
pub fn hex_of_bytes(bytes: &Vec<u8>) -> (r: String)
    ensures
        r@ == spec_hex(bytes@),
{
    let mut out: Vec<char> = Vec::new();
    let mut i: usize = 0;
    while i < bytes.len()
        invariant
            i <= bytes@.len(),
            out@ == spec_hex(bytes@.take(i as int)),
        decreases bytes@.len() - i,
    {
        let b = bytes[i];
        out.push(hex_char(b / 16));
        out.push(hex_char(b % 16));
        i += 1;
        proof {
            assert(bytes@.take(i as int).drop_last() =~= bytes@.take(i - 1));
            assert(bytes@.take(i as int).last() == bytes@[i - 1]);
            assert(out@ =~= spec_hex(bytes@.take(i as int)));
        }
    }
    proof {
        assert(bytes@.take(bytes@.len() as int) =~= bytes@);
    }
    string_of(&out)
}

/// The MD5 checksum of `data` as a hex string.
pub fn md5_hex(data: &Vec<u8>) -> (r: String)
    ensures
        r@ == spec_md5_hex(data@),
{
    let d = md5_digest(data.as_slice());
    hex_of_bytes(&d)
}

/// The SHA-256 checksum of `data` as a hex string.
pub fn sha256_hex(data: &Vec<u8>) -> (r: String)
    ensures
        r@ == spec_sha256_hex(data@),
{
    let d = sha256_digest(data.as_slice());
    hex_of_bytes(&d)
}

} // verus!
