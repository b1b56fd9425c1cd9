//! The fingerprint engine: a deterministic content identity for a credential
//! file, used as the deduplication key of the account store.
//!
//! A file's fingerprint is the lowercase hexadecimal form of the SHA-256
//! digest of its bytes; an absent file fingerprints to the empty string.

use vstd::prelude::*;

verus! {

/// The SHA-256 digest of a byte sequence. Its value is fixed by the hash
/// function alone; only its length is stated alongside it.
pub uninterp spec fn sha256_of(data: Seq<u8>) -> Seq<u8>;

/// The lowercase hexadecimal digit for a nibble value.
pub open spec fn hex_digit(n: int) -> char {
    if n == 0 {
        '0'
    } else if n == 1 {
        '1'
    } else if n == 2 {
        '2'
    } else if n == 3 {
        '3'
    } else if n == 4 {
        '4'
    } else if n == 5 {
        '5'
    } else if n == 6 {
        '6'
    } else if n == 7 {
        '7'
    } else if n == 8 {
        '8'
    } else if n == 9 {
        '9'
    } else if n == 10 {
        'a'
    } else if n == 11 {
        'b'
    } else if n == 12 {
        'c'
    } else if n == 13 {
        'd'
    } else if n == 14 {
        'e'
    } else {
        'f'
    }
}

/// Lowercase hexadecimal rendering of a byte sequence: two digits per byte,
/// high nibble first.
pub open spec fn hex_of(data: Seq<u8>) -> Seq<char>
    decreases data.len(),
{
    if data.len() == 0 {
        Seq::empty()
    } else {
        seq![hex_digit(data[0] as int / 16), hex_digit(data[0] as int % 16)] + hex_of(
            data.drop_first(),
        )
    }
}

pub proof fn lemma_hex_of_len(data: Seq<u8>)
    ensures
        hex_of(data).len() == 2 * data.len(),
    decreases data.len(),
{
    if data.len() > 0 {
        lemma_hex_of_len(data.drop_first());
    }
}

/// Relies on sha2::Sha256::digest: a 32-byte digest determined by the input
/// bytes alone.
#[verifier::external_body]
fn sha256_digest(data: &Vec<u8>) -> (r: Vec<u8>)
    ensures
        r@ == sha256_of(data@),
        r@.len() == 32,
{
    let digest = <sha2::Sha256 as sha2::Digest>::digest(data.as_slice());
    digest.to_vec()
}

/// Relies on hex::encode: each input byte becomes two lowercase hexadecimal
/// digits, high nibble first, in input order.
#[verifier::external_body]
fn hex_encode(data: &Vec<u8>) -> (r: String)
    ensures
        r@ == hex_of(data@),
{
    hex::encode(data.as_slice())
}

/// The fingerprint of a credential file's contents; `None` stands for an
/// absent file, which fingerprints to the empty string.
pub open spec fn fingerprint_of(content: Option<Seq<u8>>) -> Seq<char> {
    match content {
        Option::None => Seq::empty(),
        Option::Some(b) => hex_of(sha256_of(b)),
    }
}

/// View of optional file contents as an optional byte sequence.
pub open spec fn content_view(content: Option<Vec<u8>>) -> Option<Seq<u8>> {
    match content {
        Option::None => Option::None,
        Option::Some(v) => Option::Some(v@),
    }
}

/// Computes the fingerprint of a credential file's contents: empty for an
/// absent file, else the lowercase hex SHA-256 digest of its bytes (64
/// digits).
pub fn compute_fingerprint(content: &Option<Vec<u8>>) -> (r: String)
    ensures
        r@ == fingerprint_of(content_view(*content)),
        content is Some ==> r@.len() == 64,
        content is None ==> r@.len() == 0,
{
    match content {
        Option::None => String::new(),
        Option::Some(b) => {
            let digest = sha256_digest(b);
            let r = hex_encode(&digest);
            proof {
                lemma_hex_of_len(digest@);
            }
            r
        },
    }
}

/// The fingerprint of the live session: the fingerprint of the primary
/// credential file as it stands in the live data directory. Read-only; used
/// to tell which saved account, if any, is currently active.
pub fn get_current_fingerprint(live: &crate::store::CredFiles) -> (r: String)
    ensures
        r@ == fingerprint_of(live@.primary),
{
    compute_fingerprint(&live.primary)
}

/// Fingerprints are a function of file bytes alone: byte-identical contents
/// fingerprint identically, whatever path or call produced them, and an
/// absent file always fingerprints to the empty string.
pub proof fn lemma_fingerprint_deterministic(a: Option<Seq<u8>>, b: Option<Seq<u8>>)
    requires
        a == b,
    ensures
        fingerprint_of(a) == fingerprint_of(b),
        fingerprint_of(Option::<Seq<u8>>::None) == Seq::<char>::empty(),
{
}

} // verus!
