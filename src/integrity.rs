//! Subresource-integrity descriptors: `sha512-` followed by the base64 form
//! of the SHA-512 digest of an artifact's bytes.
use vstd::prelude::*;
use vstd::string::*;

verus! {

/// The SHA-512 digest of `data`.
pub uninterp spec fn sha512_of(data: Seq<u8>) -> Seq<u8>;

/// The character of the standard base64 alphabet for a six-bit value.
pub open spec fn base64_digit(n: int) -> char {
    if n < 26 {
        (65 + n) as char
    } else if n < 52 {
        (97 + n - 26) as char
    } else if n < 62 {
        (48 + n - 52) as char
    } else if n == 62 {
        '+'
    } else {
        '/'
    }
}

/// Standard base64 with `=` padding: each group of three bytes becomes four
/// characters; a final group of one or two bytes is padded.
pub open spec fn base64_standard(b: Seq<u8>) -> Seq<char>
    decreases b.len(),
{
    if b.len() == 0 {
        Seq::empty()
    } else {
        let x = b[0] as int;
        let y = if b.len() > 1 {
            b[1] as int
        } else {
            0
        };
        let z = if b.len() > 2 {
            b[2] as int
        } else {
            0
        };
        let c0 = base64_digit(x / 4);
        let c1 = base64_digit((x % 4) * 16 + y / 16);
        let c2 = base64_digit((y % 16) * 4 + z / 64);
        let c3 = base64_digit(z % 64);
        if b.len() == 1 {
            seq![c0, c1, '=', '=']
        } else if b.len() == 2 {
            seq![c0, c1, c2, '=']
        } else {
            seq![c0, c1, c2, c3] + base64_standard(b.skip(3))
        }
    }
}

/// The integrity descriptor of an artifact with bytes `data`.
pub open spec fn integrity_of(data: Seq<u8>) -> Seq<char> {
    "sha512-"@ + base64_standard(sha512_of(data))
}

/// Relies on `sha2::Sha512::digest`: the SHA-512 digest of the bytes, which
/// is 64 bytes long.
#[verifier::external_body]
fn sha512_digest(data: &[u8]) -> (r: Vec<u8>)
    ensures
        r@ == sha512_of(data@),
        r@.len() == 64,
{
    <sha2::Sha512 as sha2::Digest>::digest(data).to_vec()
}

/// Relies on `base64::Engine::encode` with the `STANDARD` engine: the
/// standard alphabet with padding. The encoder panics only where the output
/// length overflows `usize`.
#[verifier::external_body]
fn base64_encode(data: &[u8]) -> (r: String)
    requires
        data@.len() <= usize::MAX / 2,
    ensures
        r@ == base64_standard(data@),
{
    base64::Engine::encode(&base64::engine::general_purpose::STANDARD, data)
}

/// The integrity descriptor of an artifact: `sha512-` and the base64 form of
/// its SHA-512 digest.
pub fn compute_integrity(data: &[u8]) -> (r: String)
    ensures
        r@ == integrity_of(data@),
{
    let digest = sha512_digest(data);
    let encoded = base64_encode(digest.as_slice());
    let mut r = String::from_str("sha512-");
    r.append(encoded.as_str());
    r
}

} // verus!
