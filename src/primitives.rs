//! The FROST(secp256k1, SHA-256) operations this library drives. Values of
//! the curve library cross into the library only in their canonical byte
//! encodings; each function below decodes its inputs, performs one protocol
//! step, and encodes what comes out.
use vstd::prelude::*;
use crate::codec::KeyShare;
use frost_secp256k1::keys::{IdentifierList, KeyPackage, PublicKeyPackage, SigningShare, VerifyingShare};
use frost_secp256k1::round1::{SigningCommitments, SigningNonces};
use frost_secp256k1::round2::SignatureShare;
use frost_secp256k1::{Identifier, Signature, SigningKey, SigningPackage, VerifyingKey};
use std::collections::BTreeMap;

verus! {

/// The encoding of the identifier with index `i`: the scalar `i` as 32
/// big-endian bytes.
pub open spec fn identifier_encoding(i: int) -> Seq<u8> {
    Seq::new(32, |k: int| if k == 30 { (i / 256) as u8 } else if k == 31 { (i % 256) as u8 } else { 0u8 })
}

/// The encoded group verifying key held in an encoded public key package.
pub uninterp spec fn group_key_of(package: Seq<u8>) -> Seq<u8>;

/// Whether bytes decode as a participant identifier: a nonzero scalar.
pub uninterp spec fn identifier_decodes(b: Seq<u8>) -> bool;

/// Whether bytes decode as a signing share: a scalar below the group order.
pub uninterp spec fn scalar_decodes(b: Seq<u8>) -> bool;

/// Whether bytes decode as a verifying key: a point on the curve.
pub uninterp spec fn point_decodes(b: Seq<u8>) -> bool;

/// Relies on Identifier::deserialize.
#[verifier::external_body]
pub(crate) fn identifier_is_valid(b: &Vec<u8>) -> (r: bool)
    ensures
        r == identifier_decodes(b@),
{
    Identifier::deserialize(b).is_ok()
}

/// Relies on SigningShare::deserialize.
#[verifier::external_body]
pub(crate) fn scalar_is_valid(b: &Vec<u8>) -> (r: bool)
    ensures
        r == scalar_decodes(b@),
{
    SigningShare::deserialize(b).is_ok()
}

/// Relies on VerifyingKey::deserialize.
#[verifier::external_body]
pub(crate) fn point_is_valid(b: &Vec<u8>) -> (r: bool)
    ensures
        r == point_decodes(b@),
{
    VerifyingKey::deserialize(b).is_ok()
}

/// Whether an encoded signature and an encoded verifying key both decode.
pub uninterp spec fn schnorr_decodes(signature: Seq<u8>, key: Seq<u8>) -> bool;

/// Whether Schnorr verification accepts an encoded signature on a message
/// under an encoded verifying key.
pub uninterp spec fn schnorr_accepts(message: Seq<u8>, signature: Seq<u8>, key: Seq<u8>) -> bool;

/// What a trusted dealer hands out: for each participant, in increasing
/// identifier order, the encoded identifier and signing share; and the
/// encoded public key package and group verifying key.
pub struct Dealt {
    pub shares: Vec<(Vec<u8>, Vec<u8>)>,
    pub public_key_package: Vec<u8>,
    pub group_key: Vec<u8>,
}

/// The secret nonce pair of one participant for one signing session, tagged
/// with the identifier it was drawn for. It cannot be cloned, and
/// `sign_share` consumes it, so it is never used twice.
pub struct SigningNonce {
    identifier: Vec<u8>,
    bytes: Vec<u8>,
}

impl SigningNonce {
    /// The encoded identifier of the participant the nonce was drawn for.
    pub closed spec fn owner(&self) -> Seq<u8> {
        self.identifier@
    }

    pub fn identifier(&self) -> (r: &Vec<u8>)
        ensures
            r@ == self.owner(),
    {
        &self.identifier
    }
}

/// `d` holds, in order, the shares of identifiers 1..=n with 32-byte signing
/// shares, and a 33-byte group key that its public key package holds.
pub open spec fn dealt_well(d: Dealt, n: u16) -> bool {
    &&& d.shares@.len() == n
    &&& forall|i: int| 0 <= i < n ==> {
        &&& (#[trigger] d.shares@[i]).0@ == identifier_encoding(i + 1)
        &&& d.shares@[i].1@.len() == 32
        &&& identifier_decodes(d.shares@[i].0@)
        &&& scalar_decodes(d.shares@[i].1@)
    }
    &&& d.group_key@.len() == 33
    &&& point_decodes(d.group_key@)
    &&& d.group_key@ == group_key_of(d.public_key_package@)
}

/// The encoding of identifier `i`.
pub fn encode_identifier(i: u16) -> (r: Vec<u8>)
    ensures
        r@ == identifier_encoding(i as int),
{
    let mut r: Vec<u8> = Vec::new();
    let mut k: usize = 0;
    while k < 30
        invariant
            k <= 30,
            r@.len() == k,
            forall|j: int| 0 <= j < k ==> r@[j] == 0u8,
        decreases 30 - k,
    {
        r.push(0u8);
        k = k + 1;
    }
    r.push((i / 256) as u8);
    r.push((i % 256) as u8);
    assert(r@ =~= identifier_encoding(i as int));
    r
}

/// A copy of a byte string.
pub fn copy_bytes(b: &Vec<u8>) -> (r: Vec<u8>)
    ensures
        r@ == b@,
{
    let mut r: Vec<u8> = Vec::new();
    let mut k: usize = 0;
    while k < b.len()
        invariant
            k <= b@.len(),
            r@ == b@.subrange(0, k as int),
        decreases b@.len() - k,
    {
        r.push(b[k]);
        k = k + 1;
        assert(r@ =~= b@.subrange(0, k as int));
    }
    assert(r@ =~= b@);
    r
}

/// Relies on SigningKey::new: a fresh random nonzero secret, encoded as a
/// 32-byte scalar.
#[verifier::external_body]
pub(crate) fn fresh_group_secret() -> (r: Vec<u8>)
    ensures
        r@.len() == 32,
{
    SigningKey::new(&mut rand::thread_rng()).serialize()
}

/// Relies on PublicKeyPackage::new: the package of a key whose every
/// participant holds the group secret itself, so that each verifying share is
/// the group key; the serialized package reads back with that 33-byte key.
#[verifier::external_body]
pub(crate) fn single_signer_package(secret: &Vec<u8>, identifiers: &Vec<Vec<u8>>) -> (r: Result<(Vec<u8>, Vec<u8>), ()>)
    ensures
        r is Ok ==> r->Ok_0.1@ == group_key_of(r->Ok_0.0@),
        r is Ok ==> r->Ok_0.1@.len() == 33,
{
    let key = SigningKey::deserialize(secret).map_err(|_| ())?;
    let share = VerifyingShare::from(SigningShare::deserialize(secret).map_err(|_| ())?);
    let mut shares = BTreeMap::new();
    for id in identifiers {
        shares.insert(Identifier::deserialize(id).map_err(|_| ())?, share);
    }
    let package = PublicKeyPackage::new(shares, VerifyingKey::from(&key));
    Ok((package.serialize().map_err(|_| ())?, package.verifying_key().serialize().map_err(|_| ())?))
}

/// Deals a key of threshold 1 to `n` participants: every share is the group
/// secret.
pub(crate) fn deal_single(n: u16) -> (r: Result<Dealt, ()>)
    ensures
        r is Ok ==> dealt_well(r->Ok_0, n),
{
    let secret = fresh_group_secret();
    if !scalar_is_valid(&secret) {
        return Err(());
    }
    let mut identifiers: Vec<Vec<u8>> = Vec::new();
    let mut shares: Vec<(Vec<u8>, Vec<u8>)> = Vec::new();
    let mut i: u16 = 0;
    while i < n
        invariant
            i <= n,
            secret@.len() == 32,
            shares@.len() == i,
            scalar_decodes(secret@),
            forall|k: int| 0 <= k < i ==> {
                &&& (#[trigger] shares@[k]).0@ == identifier_encoding(k + 1)
                &&& shares@[k].1@.len() == 32
                &&& identifier_decodes(shares@[k].0@)
                &&& scalar_decodes(shares@[k].1@)
            },
        decreases n - i,
    {
        let identifier = encode_identifier(i + 1);
        if !identifier_is_valid(&identifier) {
            return Err(());
        }
        identifiers.push(encode_identifier(i + 1));
        shares.push((identifier, copy_bytes(&secret)));
        i = i + 1;
    }
    let (public_key_package, group_key) = single_signer_package(&secret, &identifiers)?;
    if !point_is_valid(&group_key) {
        return Err(());
    }
    Ok(Dealt { shares, public_key_package, group_key })
}

/// Relies on frost_secp256k1::keys::generate_with_dealer with the default
/// identifiers 1..=n (frost asks for t >= 2): it returns one
/// secret share per identifier in a map ordered by identifier. Identifiers and
/// signing shares encode as 32-byte scalars that decode again, the group key
/// as a 33-byte point that decodes again; the serialized package reads back
/// with the same group key.
#[verifier::external_body]
pub(crate) fn deal(n: u16, t: u16) -> (r: Result<Dealt, ()>)
    ensures
        r is Ok ==> dealt_well(r->Ok_0, n),
{
    let rng = rand::thread_rng();
    let (shares, package) = frost_secp256k1::keys::generate_with_dealer(n, t, IdentifierList::Default, rng)
        .map_err(|_| ())?;
    let public_key_package = package.serialize().map_err(|_| ())?;
    let group_key = package.verifying_key().serialize().map_err(|_| ())?;
    let shares = shares.into_iter().map(|(id, s)| (id.serialize(), s.signing_share().serialize())).collect();
    Ok(Dealt { shares, public_key_package, group_key })
}

/// Relies on PublicKeyPackage::deserialize and its verifying_key: the group
/// key of a package, encoded as a 33-byte point.
#[verifier::external_body]
pub(crate) fn package_group_key(package: &Vec<u8>) -> (r: Result<Vec<u8>, ()>)
    ensures
        r is Ok ==> r->Ok_0@ == group_key_of(package@),
        r is Ok ==> r->Ok_0@.len() == 33,
{
    let package = PublicKeyPackage::deserialize(package).map_err(|_| ())?;
    package.verifying_key().serialize().map_err(|_| ())
}

/// Relies on KeyPackage::new: the key package of one participant, with the
/// verifying share derived from the signing share.
#[verifier::external_body]
pub(crate) fn key_package(key: &KeyShare) -> (r: Result<Vec<u8>, ()>) {
    let share = SigningShare::deserialize(&key.signing_share).map_err(|_| ())?;
    let id = Identifier::deserialize(&key.identifier).map_err(|_| ())?;
    let group_key = VerifyingKey::deserialize(&key.verifying_key).map_err(|_| ())?;
    let package = KeyPackage::new(id, share, VerifyingShare::from(share), group_key, key.min_signers);
    package.serialize().map_err(|_| ())
}

/// Relies on frost_secp256k1::round1::commit: fresh random nonces and their
/// public commitments for one signing share, both encoded.
#[verifier::external_body]
pub(crate) fn commit(signing_share: &Vec<u8>) -> (r: Result<(Vec<u8>, Vec<u8>), ()>) {
    let share = SigningShare::deserialize(signing_share).map_err(|_| ())?;
    let (nonces, commitments) = frost_secp256k1::round1::commit(&share, &mut rand::thread_rng());
    Ok((nonces.serialize().map_err(|_| ())?, commitments.serialize().map_err(|_| ())?))
}

/// Ties freshly drawn nonces to the participant they were drawn for.
pub(crate) fn bind_nonce(identifier: Vec<u8>, bytes: Vec<u8>) -> (r: SigningNonce)
    ensures
        r.owner() == identifier@,
{
    SigningNonce { identifier, bytes }
}

/// Relies on SigningPackage::new: the message together with the commitment
/// of each participant, keyed by encoded identifier.
#[verifier::external_body]
pub(crate) fn signing_package(commitments: &Vec<(Vec<u8>, Vec<u8>)>, message: &Vec<u8>) -> (r: Result<Vec<u8>, ()>) {
    let mut map = BTreeMap::new();
    for (id, c) in commitments {
        let c = SigningCommitments::deserialize(c).map_err(|_| ())?;
        map.insert(Identifier::deserialize(id).map_err(|_| ())?, c);
    }
    SigningPackage::new(map, message).serialize().map_err(|_| ())
}

/// Relies on frost_secp256k1::round2::sign: one participant's signature
/// share over a signing package, made with that participant's nonce.
#[verifier::external_body]
pub(crate) fn sign_share(package: &Vec<u8>, nonce: SigningNonce, key_package: &Vec<u8>) -> (r: Result<Vec<u8>, ()>) {
    let package = SigningPackage::deserialize(package).map_err(|_| ())?;
    let nonces = SigningNonces::deserialize(&nonce.bytes).map_err(|_| ())?;
    let key_package = KeyPackage::deserialize(key_package).map_err(|_| ())?;
    let share = frost_secp256k1::round2::sign(&package, &nonces, &key_package).map_err(|_| ())?;
    Ok(share.serialize())
}

/// Relies on frost_secp256k1::aggregate: it checks every signature share
/// against the public key package and combines them into one signature.
#[verifier::external_body]
pub(crate) fn aggregate(package: &Vec<u8>, partials: &Vec<(Vec<u8>, Vec<u8>)>, public_keys: &Vec<u8>) -> (r: Result<Vec<u8>, ()>) {
    let package = SigningPackage::deserialize(package).map_err(|_| ())?;
    let public_keys = PublicKeyPackage::deserialize(public_keys).map_err(|_| ())?;
    let mut shares = BTreeMap::new();
    for (id, s) in partials {
        let s = SignatureShare::deserialize(s).map_err(|_| ())?;
        shares.insert(Identifier::deserialize(id).map_err(|_| ())?, s);
    }
    let signature = frost_secp256k1::aggregate(&package, &shares, &public_keys).map_err(|_| ())?;
    signature.serialize().map_err(|_| ())
}

/// Relies on Signature::deserialize, VerifyingKey::deserialize and
/// VerifyingKey::verify: it fails exactly when one of the two does not decode;
/// once they decode,
/// the verdict depends on the message, signature and key alone.
#[verifier::external_body]
pub(crate) fn schnorr_verify(message: &Vec<u8>, signature: &Vec<u8>, key: &Vec<u8>) -> (r: Result<bool, ()>)
    ensures
        r is Ok <==> schnorr_decodes(signature@, key@),
        r is Ok ==> r->Ok_0 == schnorr_accepts(message@, signature@, key@),
{
    let signature = Signature::deserialize(signature).map_err(|_| ())?;
    let key = VerifyingKey::deserialize(key).map_err(|_| ())?;
    Ok(key.verify(message, &signature).is_ok())
}

} // verus!
