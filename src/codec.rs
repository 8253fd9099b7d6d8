//! Hex and base64 text encodings, and the share record that carries one
//! participant's key material as text fields.
use vstd::prelude::*;
use crate::FrostError;
use crate::primitives::{identifier_decodes, identifier_is_valid, point_decodes, point_is_valid, scalar_decodes, scalar_is_valid};

verus! {

/// The lowercase hex digit of a value below 16.
pub open spec fn hex_digit(x: int) -> char {
    if x == 0 { '0' } else if x == 1 { '1' } else if x == 2 { '2' } else if x == 3 { '3' }
    else if x == 4 { '4' } else if x == 5 { '5' } else if x == 6 { '6' } else if x == 7 { '7' }
    else if x == 8 { '8' } else if x == 9 { '9' } else if x == 10 { 'a' } else if x == 11 { 'b' }
    else if x == 12 { 'c' } else if x == 13 { 'd' } else if x == 14 { 'e' } else { 'f' }
}

/// The value of a hex digit of either case, or -1 for any other character.
pub open spec fn hex_value(c: char) -> int {
    if c == '0' { 0 } else if c == '1' { 1 } else if c == '2' { 2 } else if c == '3' { 3 }
    else if c == '4' { 4 } else if c == '5' { 5 } else if c == '6' { 6 } else if c == '7' { 7 }
    else if c == '8' { 8 } else if c == '9' { 9 }
    else if c == 'a' || c == 'A' { 10 } else if c == 'b' || c == 'B' { 11 }
    else if c == 'c' || c == 'C' { 12 } else if c == 'd' || c == 'D' { 13 }
    else if c == 'e' || c == 'E' { 14 } else if c == 'f' || c == 'F' { 15 }
    else { -1 }
}

/// Lowercase hex text of a byte string: two digits per byte, high nibble first.
pub open spec fn hex_of(b: Seq<u8>) -> Seq<char> {
    Seq::new(2 * b.len(), |j: int| if j % 2 == 0 { hex_digit(b[j / 2] as int / 16) } else { hex_digit(b[j / 2] as int % 16) })
}

/// Text that hex decoding accepts: an even number of hex digits of either case.
pub open spec fn valid_hex(s: Seq<char>) -> bool {
    &&& s.len() % 2 == 0
    &&& forall|j: int| 0 <= j < s.len() ==> hex_value(#[trigger] s[j]) >= 0
}

/// The bytes that valid hex text stands for.
pub open spec fn bytes_of_hex(s: Seq<char>) -> Seq<u8> {
    Seq::new(s.len() / 2, |i: int| (16 * hex_value(s[2 * i]) + hex_value(s[2 * i + 1])) as u8)
}

/// Standard base64 text (with padding) of a byte string.
pub uninterp spec fn base64_of(b: Seq<u8>) -> Seq<char>;

/// Text that is the standard base64 encoding of some byte string.
pub open spec fn is_base64(s: Seq<char>) -> bool {
    exists|b: Seq<u8>| base64_of(b) == s
}

/// `s` is the base64 text of `b` and of no other byte string.
pub open spec fn base64_text_of(s: Seq<char>, b: Seq<u8>) -> bool {
    &&& base64_of(b) == s
    &&& forall|c: Seq<u8>| #[trigger] base64_of(c) == s ==> c == b
}

/// Relies on hex::encode: two lowercase digits for each byte, high nibble first.
#[verifier::external_body]
pub(crate) fn hex_encode(b: &Vec<u8>) -> (r: String)
    ensures
        r@ == hex_of(b@),
{
    hex::encode(b)
}

/// Relies on hex::decode: it accepts exactly an even number of hex digits of
/// either case and returns the bytes they spell.
#[verifier::external_body]
pub(crate) fn hex_decode(s: &String) -> (r: Result<Vec<u8>, ()>)
    ensures
        r is Ok <==> valid_hex(s@),
        r is Ok ==> r->Ok_0@ == bytes_of_hex(s@),
{
    hex::decode(s).map_err(|_| ())
}

/// Relies on base64's STANDARD engine: padded encoding, which differs for
/// different inputs.
#[verifier::external_body]
pub(crate) fn base64_encode(b: &Vec<u8>) -> (r: String)
    ensures
        r@ == base64_of(b@),
        forall|c: Seq<u8>| #[trigger] base64_of(c) == r@ ==> c == b@,
{
    base64::Engine::encode(&base64::engine::general_purpose::STANDARD, b)
}

/// Relies on base64's STANDARD engine: decoding requires canonical padding and
/// no trailing bits, so it succeeds exactly on what encoding produces and
/// returns the encoded bytes, the only ones with that encoding.
#[verifier::external_body]
pub(crate) fn base64_decode(s: &String) -> (r: Result<Vec<u8>, ()>)
    ensures
        r is Ok <==> is_base64(s@),
        r is Ok ==> base64_text_of(s@, r->Ok_0@),
{
    base64::Engine::decode(&base64::engine::general_purpose::STANDARD, s).map_err(|_| ())
}

/// Reading back the digit written for a value below 16 gives that value.
pub proof fn lemma_hex_digit_value(x: int)
    requires
        0 <= x < 16,
    ensures
        hex_value(hex_digit(x)) == x,
{
}

/// Hex text of any byte string is valid hex, and decodes to those bytes.
pub proof fn lemma_hex_round_trip(b: Seq<u8>)
    ensures
        valid_hex(hex_of(b)),
        bytes_of_hex(hex_of(b)) == b,
{
    let h = hex_of(b);
    assert forall|j: int| 0 <= j < h.len() implies hex_value(#[trigger] h[j]) >= 0 by {
        if j % 2 == 0 {
            lemma_hex_digit_value(b[j / 2] as int / 16);
        } else {
            lemma_hex_digit_value(b[j / 2] as int % 16);
        }
    }
    let d = bytes_of_hex(h);
    assert forall|i: int| 0 <= i < b.len() implies d[i] == b[i] by {
        assert((2 * i) / 2 == i);
        assert((2 * i + 1) / 2 == i);
        lemma_hex_digit_value(b[i] as int / 16);
        lemma_hex_digit_value(b[i] as int % 16);
    }
    assert(d =~= b);
}

/// Hex text determines its bytes: different byte strings have different hex.
pub proof fn lemma_hex_injective(a: Seq<u8>, b: Seq<u8>)
    requires
        hex_of(a) == hex_of(b),
    ensures
        a == b,
{
    lemma_hex_round_trip(a);
    lemma_hex_round_trip(b);
}

/// Length of an encoded participant identifier: a big-endian scalar.
pub const IDENTIFIER_LEN: usize = 32;

/// Length of an encoded signing share: a big-endian scalar.
pub const SCALAR_LEN: usize = 32;

/// Length of an encoded verifying key: a compressed curve point.
pub const POINT_LEN: usize = 33;

/// One participant's key material in binary form: the identifier, the secret
/// signing share, the group verifying key and the threshold fixed at
/// generation.
pub struct KeyShare {
    pub identifier: Vec<u8>,
    pub signing_share: Vec<u8>,
    pub verifying_key: Vec<u8>,
    pub min_signers: u16,
}

/// The same key material as text fields, as exchanged between processes.
pub struct ShareRecord {
    pub version: u8,
    pub ciphersuite: String,
    pub identifier: String,
    pub signing_share: String,
    pub verifying_key: String,
    pub min_signers: u16,
}

/// Key material whose fields have the curve's fixed widths and decode as
/// curve values, with a nonzero threshold.
pub open spec fn key_share_valid(k: KeyShare) -> bool {
    &&& k.identifier@.len() == IDENTIFIER_LEN
    &&& k.signing_share@.len() == SCALAR_LEN
    &&& k.verifying_key@.len() == POINT_LEN
    &&& k.min_signers >= 1
    &&& identifier_decodes(k.identifier@)
    &&& scalar_decodes(k.signing_share@)
    &&& point_decodes(k.verifying_key@)
}

/// The ciphersuite name as text.
pub open spec fn ciphersuite_name() -> Seq<char> {
    "FROST-secp256k1-SHA256-v1"@
}

/// `rec` is the text form of `k`.
pub open spec fn record_of(rec: ShareRecord, k: KeyShare) -> bool {
    &&& rec.version == crate::RECORD_VERSION
    &&& rec.ciphersuite@ == ciphersuite_name()
    &&& rec.identifier@ == hex_of(k.identifier@)
    &&& rec.signing_share@ == hex_of(k.signing_share@)
    &&& rec.verifying_key@ == hex_of(k.verifying_key@)
    &&& rec.min_signers == k.min_signers
}

/// The record carries this library's version and ciphersuite.
pub open spec fn header_ok(rec: ShareRecord) -> bool {
    rec.version == crate::RECORD_VERSION && rec.ciphersuite@ == ciphersuite_name()
}

/// Why a record that does not decode is refused: a foreign header is a
/// schema error, a bad field a malformed encoding.
pub open spec fn record_error(rec: ShareRecord) -> FrostError {
    if !header_ok(rec) { FrostError::SchemaError } else { FrostError::MalformedEncoding }
}

/// A record with this library's header whose fields are hex of the right
/// widths and spell curve values, with a nonzero threshold.
pub open spec fn record_decodes(rec: ShareRecord) -> bool {
    &&& header_ok(rec)
    &&& valid_hex(rec.identifier@) && rec.identifier@.len() == 2 * IDENTIFIER_LEN
    &&& valid_hex(rec.signing_share@) && rec.signing_share@.len() == 2 * SCALAR_LEN
    &&& valid_hex(rec.verifying_key@) && rec.verifying_key@.len() == 2 * POINT_LEN
    &&& rec.min_signers >= 1
    &&& identifier_decodes(bytes_of_hex(rec.identifier@))
    &&& scalar_decodes(bytes_of_hex(rec.signing_share@))
    &&& point_decodes(bytes_of_hex(rec.verifying_key@))
}

/// `k` holds the bytes that the fields of `rec` spell.
pub open spec fn decoded_from(k: KeyShare, rec: ShareRecord) -> bool {
    &&& k.identifier@ == bytes_of_hex(rec.identifier@)
    &&& k.signing_share@ == bytes_of_hex(rec.signing_share@)
    &&& k.verifying_key@ == bytes_of_hex(rec.verifying_key@)
    &&& k.min_signers == rec.min_signers
}

/// Writes key material as a share record.
pub fn encode_share_record(k: &KeyShare) -> (r: ShareRecord)
    ensures
        record_of(r, *k),
{
    let ciphersuite = crate::CIPHERSUITE.to_owned();
    ShareRecord {
        version: 0,
        ciphersuite,
        identifier: hex_encode(&k.identifier),
        signing_share: hex_encode(&k.signing_share),
        verifying_key: hex_encode(&k.verifying_key),
        min_signers: k.min_signers,
    }
}

/// Reads key material back from a share record. A header other than this
/// library's is a schema error; a field that is not hex of its width or does
/// not decode as its curve value, or a zero threshold, is a malformed encoding.
pub fn decode_share_record(rec: &ShareRecord) -> (r: Result<KeyShare, FrostError>)
    ensures
        r is Ok <==> record_decodes(*rec),
        r is Err ==> r->Err_0 == record_error(*rec),
        r is Ok ==> decoded_from(r->Ok_0, *rec) && key_share_valid(r->Ok_0),
{
    let ciphersuite = crate::CIPHERSUITE.to_owned();
    if rec.version != crate::RECORD_VERSION || rec.ciphersuite != ciphersuite {
        return Err(FrostError::SchemaError);
    }
    let identifier = match hex_decode(&rec.identifier) {
        Ok(b) => b,
        Err(_) => return Err(FrostError::MalformedEncoding),
    };
    let signing_share = match hex_decode(&rec.signing_share) {
        Ok(b) => b,
        Err(_) => return Err(FrostError::MalformedEncoding),
    };
    let verifying_key = match hex_decode(&rec.verifying_key) {
        Ok(b) => b,
        Err(_) => return Err(FrostError::MalformedEncoding),
    };
    if identifier.len() != IDENTIFIER_LEN || signing_share.len() != SCALAR_LEN
        || verifying_key.len() != POINT_LEN || rec.min_signers == 0 {
        return Err(FrostError::MalformedEncoding);
    }
    if !identifier_is_valid(&identifier) || !scalar_is_valid(&signing_share) || !point_is_valid(&verifying_key) {
        return Err(FrostError::MalformedEncoding);
    }
    Ok(KeyShare { identifier, signing_share, verifying_key, min_signers: rec.min_signers })
}

/// Writing valid key material as a share record and reading it back gives
/// the same key material.
pub proof fn lemma_share_record_round_trip(k: KeyShare, rec: ShareRecord)
    requires
        key_share_valid(k),
        record_of(rec, k),
    ensures
        record_decodes(rec),
        k.identifier@ == bytes_of_hex(rec.identifier@),
        k.signing_share@ == bytes_of_hex(rec.signing_share@),
        k.verifying_key@ == bytes_of_hex(rec.verifying_key@),
        k.min_signers == rec.min_signers,
{
    lemma_hex_round_trip(k.identifier@);
    lemma_hex_round_trip(k.signing_share@);
    lemma_hex_round_trip(k.verifying_key@);
}

} // verus!
