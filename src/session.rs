//! The signing ceremony: share records are read back into key material, the
//! session is checked against the threshold, commitments and signature shares
//! are collected, and the aggregate signature is verified before release.
use vstd::prelude::*;
use crate::FrostError;
use crate::codec::{
    base64_decode, base64_encode, base64_of, base64_text_of, bytes_of_hex, decode_share_record, decoded_from, is_base64,
    lemma_hex_round_trip, record_decodes, record_error, KeyShare, ShareRecord,
};
use crate::keygen::{group_keys_agree, issued_for, issued_share, KeyGenOutput};
use crate::primitives::{
    aggregate, commit, group_key_of, identifier_encoding, key_package, package_group_key, schnorr_accepts, schnorr_verify, sign_share,
    signing_package, bind_nonce, copy_bytes, schnorr_decodes, SigningNonce,
};

verus! {

/// The verdict on a session whose participants have identifiers `ids` and
/// recorded thresholds `mins`: `None` when it may go ahead, else the failure.
/// The threshold asked for may not be weaker than any recorded one, each
/// identifier may appear once, and at least `threshold` participants are needed.
pub open spec fn verdict(ids: Seq<Seq<u8>>, mins: Seq<u16>, threshold: u16) -> Option<FrostError> {
    if exists|i: int| 0 <= i < mins.len() && #[trigger] mins[i] > threshold {
        Some(FrostError::ThresholdMismatch)
    } else if exists|i: int, j: int| 0 <= i < j < ids.len() && #[trigger] ids[i] == #[trigger] ids[j] {
        Some(FrostError::DuplicateParticipant)
    } else if ids.len() < threshold {
        Some(FrostError::InsufficientSigners)
    } else {
        None
    }
}

pub open spec fn key_ids(keys: Seq<KeyShare>) -> Seq<Seq<u8>> {
    keys.map_values(|k: KeyShare| k.identifier@)
}

pub open spec fn key_mins(keys: Seq<KeyShare>) -> Seq<u16> {
    keys.map_values(|k: KeyShare| k.min_signers)
}

pub open spec fn record_ids(records: Seq<ShareRecord>) -> Seq<Seq<u8>> {
    records.map_values(|r: ShareRecord| bytes_of_hex(r.identifier@))
}

pub open spec fn record_mins(records: Seq<ShareRecord>) -> Seq<u16> {
    records.map_values(|r: ShareRecord| r.min_signers)
}

/// The verdict on a session over the given key material.
pub open spec fn session_verdict(keys: Seq<KeyShare>, threshold: u16) -> Option<FrostError> {
    verdict(key_ids(keys), key_mins(keys), threshold)
}

/// Whether two byte strings are equal.
pub fn same_bytes(a: &Vec<u8>, b: &Vec<u8>) -> (r: bool)
    ensures
        r == (a@ == b@),
{
    if a.len() != b.len() {
        return false;
    }
    let mut i: usize = 0;
    while i < a.len()
        invariant
            a@.len() == b@.len(),
            i <= a@.len(),
            forall|k: int| 0 <= k < i ==> a@[k] == b@[k],
        decreases a@.len() - i,
    {
        if a[i] != b[i] {
            return false;
        }
        i = i + 1;
    }
    assert(a@ =~= b@);
    true
}

/// Checks a signing session before any cryptographic work: the requested
/// threshold against every recorded one, duplicate participants, and the
/// number of participants.
pub fn check_session(keys: &Vec<KeyShare>, threshold: u16) -> (r: Result<(), FrostError>)
    ensures
        r is Ok <==> session_verdict(keys@, threshold) is None,
        r is Err ==> session_verdict(keys@, threshold) == Some(r->Err_0),
{
    let ghost ids = key_ids(keys@);
    let ghost mins = key_mins(keys@);
    let mut i: usize = 0;
    while i < keys.len()
        invariant
            i <= keys@.len(),
            mins == key_mins(keys@),
            forall|k: int| 0 <= k < i ==> mins[k] <= threshold,
        decreases keys@.len() - i,
    {
        if keys[i].min_signers > threshold {
            assert(mins[i as int] > threshold);
            return Err(FrostError::ThresholdMismatch);
        }
        i = i + 1;
    }
    let mut j: usize = 0;
    while j < keys.len()
        invariant
            j <= keys@.len(),
            ids == key_ids(keys@),
            mins == key_mins(keys@),
            forall|m: int| 0 <= m < keys@.len() ==> mins[m] <= threshold,
            forall|a: int, b: int| 0 <= a < b < keys@.len() && a < j ==> ids[a] != ids[b],
        decreases keys@.len() - j,
    {
        let mut k: usize = j + 1;
        while k < keys.len()
            invariant
                j < keys@.len(),
                j + 1 <= k <= keys@.len(),
                ids == key_ids(keys@),
                mins == key_mins(keys@),
                forall|m: int| 0 <= m < keys@.len() ==> mins[m] <= threshold,
                forall|a: int, b: int| 0 <= a < b < keys@.len() && a < j ==> ids[a] != ids[b],
                forall|b: int| j < b < k ==> ids[j as int] != ids[b],
            decreases keys@.len() - k,
        {
            if same_bytes(&keys[j].identifier, &keys[k].identifier) {
                assert(ids[j as int] == ids[k as int]);
                return Err(FrostError::DuplicateParticipant);
            }
            k = k + 1;
        }
        j = j + 1;
    }
    if keys.len() < threshold as usize {
        return Err(FrostError::InsufficientSigners);
    }
    Ok(())
}

/// Reads every share record back into key material.
pub fn decode_share_records(records: &Vec<ShareRecord>) -> (r: Result<Vec<KeyShare>, FrostError>)
    ensures
        r is Ok <==> forall|i: int| 0 <= i < records@.len() ==> record_decodes(#[trigger] records@[i]),
        r is Err ==> exists|i: int| 0 <= i < records@.len() && !record_decodes(#[trigger] records@[i])
            && r->Err_0 == record_error(records@[i]),
        r is Ok ==> r->Ok_0@.len() == records@.len(),
        r is Ok ==> forall|i: int| 0 <= i < records@.len() ==> decoded_from(#[trigger] r->Ok_0@[i], records@[i]),
{
    let mut keys: Vec<KeyShare> = Vec::new();
    let mut i: usize = 0;
    while i < records.len()
        invariant
            i <= records@.len(),
            keys@.len() == i,
            forall|k: int| 0 <= k < i ==> record_decodes(#[trigger] records@[k]),
            forall|k: int| 0 <= k < i ==> decoded_from(#[trigger] keys@[k], records@[k]),
        decreases records@.len() - i,
    {
        match decode_share_record(&records[i]) {
            Ok(k) => keys.push(k),
            Err(e) => {
                assert(!record_decodes(records@[i as int]));
                return Err(e);
            },
        }
        i = i + 1;
    }
    Ok(keys)
}

/// `signature` is the base64 text of one signature only, and that signature
/// verifies on `message` under the group key of a package whose base64 text is
/// `package`.
pub open spec fn signed_under(package: Seq<char>, message: Seq<u8>, signature: Seq<char>) -> bool {
    exists|p: Seq<u8>, s: Seq<u8>| {
        &&& base64_of(p) == package
        &&& base64_text_of(signature, s)
        &&& schnorr_decodes(s, group_key_of(p))
        &&& schnorr_accepts(message, s, group_key_of(p))
    }
}

/// What verifying the base64 texts `signature` and `key` on `message` may
/// give: `Ok` exactly when both texts are base64 of bytes that decode as a
/// signature and a key, with the verdict of Schnorr verification on those
/// bytes; otherwise a malformed encoding.
pub open spec fn verify_outcome(message: Seq<u8>, signature: Seq<char>, key: Seq<char>, r: Result<bool, FrostError>) -> bool {
    &&& (!is_base64(signature) || !is_base64(key)) ==> r == Err::<bool, FrostError>(FrostError::MalformedEncoding)
    &&& r is Err ==> r->Err_0 == FrostError::MalformedEncoding
    &&& r is Ok <==> exists|s: Seq<u8>, k: Seq<u8>| {
        &&& base64_of(s) == signature
        &&& base64_of(k) == key
        &&& schnorr_decodes(s, k)
    }
    &&& r is Ok ==> forall|s: Seq<u8>, k: Seq<u8>| base64_of(s) == signature && base64_of(k) == key
        ==> r->Ok_0 == schnorr_accepts(message, s, k)
}

/// Round one: draws a fresh nonce for every participant, bound to that
/// participant's identifier, and pairs each identifier with its commitment,
/// in the participants' order.
pub fn round_one(keys: &Vec<KeyShare>) -> (r: Result<(Vec<SigningNonce>, Vec<(Vec<u8>, Vec<u8>)>), FrostError>)
    ensures
        r is Err ==> r->Err_0 == FrostError::SigningError,
        r is Ok ==> r->Ok_0.0@.len() == keys@.len() && r->Ok_0.1@.len() == keys@.len(),
        r is Ok ==> forall|k: int| 0 <= k < keys@.len() ==> (#[trigger] r->Ok_0.0@[k]).owner() == keys@[k].identifier@,
        r is Ok ==> forall|k: int| 0 <= k < keys@.len() ==> (#[trigger] r->Ok_0.1@[k]).0@ == keys@[k].identifier@,
{
    let mut nonces: Vec<SigningNonce> = Vec::new();
    let mut commitments: Vec<(Vec<u8>, Vec<u8>)> = Vec::new();
    let mut i: usize = 0;
    while i < keys.len()
        invariant
            i <= keys@.len(),
            nonces@.len() == i,
            commitments@.len() == i,
            forall|k: int| 0 <= k < i ==> (#[trigger] nonces@[k]).owner() == keys@[k].identifier@,
            forall|k: int| 0 <= k < i ==> (#[trigger] commitments@[k]).0@ == keys@[k].identifier@,
        decreases keys@.len() - i,
    {
        match commit(&keys[i].signing_share) {
            Ok((nonce, commitment)) => {
                nonces.push(bind_nonce(copy_bytes(&keys[i].identifier), nonce));
                commitments.push((copy_bytes(&keys[i].identifier), commitment));
            },
            Err(_) => return Err(FrostError::SigningError),
        }
        i = i + 1;
    }
    Ok((nonces, commitments))
}

/// Round two: spends every nonce, once, with the key package of the
/// participant it was drawn for, and pairs each signature share with its
/// signer's identifier (last participant first).
pub fn round_two(package: &Vec<u8>, nonces: Vec<SigningNonce>, keys: &Vec<KeyShare>)
    -> (r: Result<Vec<(Vec<u8>, Vec<u8>)>, FrostError>)
    requires
        nonces@.len() == keys@.len(),
        forall|k: int| 0 <= k < keys@.len() ==> (#[trigger] nonces@[k]).owner() == keys@[k].identifier@,
    ensures
        r is Err ==> r->Err_0 == FrostError::SigningError,
        r is Ok ==> r->Ok_0@.len() == keys@.len(),
        r is Ok ==> forall|j: int| 0 <= j < keys@.len()
            ==> (#[trigger] r->Ok_0@[j]).0@ == keys@[keys@.len() - 1 - j].identifier@,
{
    let mut nonces = nonces;
    let mut partials: Vec<(Vec<u8>, Vec<u8>)> = Vec::new();
    while nonces.len() > 0
        invariant
            nonces@.len() <= keys@.len(),
            partials@.len() == keys@.len() - nonces@.len(),
            forall|k: int| 0 <= k < nonces@.len() ==> (#[trigger] nonces@[k]).owner() == keys@[k].identifier@,
            forall|j: int| 0 <= j < partials@.len()
                ==> (#[trigger] partials@[j]).0@ == keys@[keys@.len() - 1 - j].identifier@,
        decreases nonces@.len(),
    {
        let ghost before = nonces@;
        let nonce = match nonces.pop() {
            Some(n) => n,
            None => return Err(FrostError::SigningError),
        };
        let idx = nonces.len();
        assert(nonce == before[idx as int]);
        assert(nonce.owner() == keys@[idx as int].identifier@);
        let key = match key_package(&keys[idx]) {
            Ok(k) => k,
            Err(_) => return Err(FrostError::SigningError),
        };
        match sign_share(package, nonce, &key) {
            Ok(partial) => partials.push((copy_bytes(&keys[idx].identifier), partial)),
            Err(_) => return Err(FrostError::SigningError),
        }
    }
    Ok(partials)
}

/// Releases an aggregate signature only when its self-check accepted it:
/// then the base64 text of the signature and the message, else
/// `InvalidAggregateSignature`.
pub fn release_signature(signature: &Vec<u8>, accepted: Result<bool, ()>, message: Vec<u8>)
    -> (r: Result<(String, Vec<u8>), FrostError>)
    ensures
        accepted == Ok::<bool, ()>(true) <==> r is Ok,
        r is Err ==> r->Err_0 == FrostError::InvalidAggregateSignature,
        r is Ok ==> base64_text_of(r->Ok_0.0@, signature@) && r->Ok_0.1@ == message@,
{
    match accepted {
        Ok(true) => {
            let text = base64_encode(signature);
            Ok((text, message))
        },
        _ => Err(FrostError::InvalidAggregateSignature),
    }
}

/// Signs `message` with the key material in `records` as one session with the
/// given `threshold`, against the base64 public key package `public_key_package`.
/// The records and the session checks come first, before any cryptographic
/// work, then the package text. The aggregate signature is verified under the
/// group key before it is returned, base64, with the message.
pub fn sign_message(message: Vec<u8>, records: &Vec<ShareRecord>, threshold: u16, public_key_package: &String)
    -> (r: Result<(String, Vec<u8>), FrostError>)
    ensures
        !(forall|i: int| 0 <= i < records@.len() ==> record_decodes(#[trigger] records@[i]))
            ==> exists|i: int| 0 <= i < records@.len() && !record_decodes(#[trigger] records@[i])
                && r == Err::<(String, Vec<u8>), FrostError>(record_error(records@[i])),
        (forall|i: int| 0 <= i < records@.len() ==> record_decodes(#[trigger] records@[i]))
            && verdict(record_ids(records@), record_mins(records@), threshold) is Some
            ==> r == Err::<(String, Vec<u8>), FrostError>(verdict(record_ids(records@), record_mins(records@), threshold)->0),
        (forall|i: int| 0 <= i < records@.len() ==> record_decodes(#[trigger] records@[i]))
            && verdict(record_ids(records@), record_mins(records@), threshold) is None
            && !is_base64(public_key_package@)
            ==> r == Err::<(String, Vec<u8>), FrostError>(FrostError::MalformedEncoding),
        (forall|i: int| 0 <= i < records@.len() ==> record_decodes(#[trigger] records@[i]))
            && verdict(record_ids(records@), record_mins(records@), threshold) is None && r is Err
            ==> r->Err_0 == FrostError::MalformedEncoding || r->Err_0 == FrostError::SigningError
                || r->Err_0 == FrostError::AggregationError || r->Err_0 == FrostError::InvalidAggregateSignature,
        r is Ok ==> verdict(record_ids(records@), record_mins(records@), threshold) is None,
        r is Ok ==> r->Ok_0.1@ == message@,
        r is Ok ==> signed_under(public_key_package@, message@, r->Ok_0.0@),
{
    let keys = match decode_share_records(records) {
        Ok(k) => k,
        Err(e) => return Err(e),
    };
    proof {
        assert(key_ids(keys@) =~= record_ids(records@));
        assert(key_mins(keys@) =~= record_mins(records@));
    }
    match check_session(&keys, threshold) {
        Ok(()) => {},
        Err(e) => return Err(e),
    }
    let package_bytes = match base64_decode(public_key_package) {
        Ok(b) => b,
        Err(_) => return Err(FrostError::MalformedEncoding),
    };
    let group_key = match package_group_key(&package_bytes) {
        Ok(k) => k,
        Err(_) => return Err(FrostError::MalformedEncoding),
    };
    let (nonces, commitments) = round_one(&keys)?;
    let package = match signing_package(&commitments, &message) {
        Ok(p) => p,
        Err(_) => return Err(FrostError::SigningError),
    };
    let partials = round_two(&package, nonces, &keys)?;
    let signature = match aggregate(&package, &partials, &package_bytes) {
        Ok(s) => s,
        Err(_) => return Err(FrostError::AggregationError),
    };
    let accepted = schnorr_verify(&message, &signature, &group_key);
    release_signature(&signature, accepted, message)
}

/// Verifies a base64 signature on `message` under a base64 group verifying
/// key. A well-formed signature that does not verify gives `Ok(false)`; text
/// that is not base64, or bytes that are not a signature or a key, are a
/// malformed encoding.
pub fn verify_signature(message: &Vec<u8>, signature: &String, public_key: &String) -> (r: Result<bool, FrostError>)
    ensures
        verify_outcome(message@, signature@, public_key@, r),
{
    let signature_bytes = match base64_decode(signature) {
        Ok(b) => b,
        Err(_) => return Err(FrostError::MalformedEncoding),
    };
    let key_bytes = match base64_decode(public_key) {
        Ok(b) => b,
        Err(_) => return Err(FrostError::MalformedEncoding),
    };
    match schnorr_verify(message, &signature_bytes, &key_bytes) {
        Ok(b) => Ok(b),
        Err(_) => Err(FrostError::MalformedEncoding),
    }
}

/// `records` are the shares of `out` at the distinct positions `sel`.
pub open spec fn selected(out: KeyGenOutput, n: u16, sel: Seq<int>, records: Seq<ShareRecord>) -> bool {
    &&& records.len() == sel.len()
    &&& forall|k: int| 0 <= k < sel.len() ==> 0 <= #[trigger] sel[k] < n
    &&& forall|a: int, b: int| 0 <= a < b < sel.len() ==> #[trigger] sel[a] != #[trigger] sel[b]
    &&& forall|k: int| 0 <= k < sel.len() ==> #[trigger] records[k] == out.shares@[sel[k]].share
}

/// Any selection of generated shares reads back as key material with distinct
/// identifiers, each recording the generation threshold.
pub proof fn lemma_generated_selection(out: KeyGenOutput, n: u16, t: u16, sel: Seq<int>, records: Seq<ShareRecord>)
    requires
        1 <= t,
        issued_for(out, n, t),
        selected(out, n, sel, records),
    ensures
        forall|k: int| 0 <= k < records.len() ==> record_decodes(#[trigger] records[k]),
        forall|k: int| 0 <= k < records.len() ==> #[trigger] record_mins(records)[k] == t,
        forall|a: int, b: int| 0 <= a < b < records.len() ==> #[trigger] record_ids(records)[a] != #[trigger] record_ids(records)[b],
{
    assert forall|k: int| 0 <= k < records.len() implies {
        &&& record_decodes(#[trigger] records[k])
        &&& record_ids(records)[k] == identifier_encoding(sel[k] + 1)
        &&& record_mins(records)[k] == t
    } by {
        let i = sel[k];
        assert(issued_share(out.shares@[i], i, t, out.group_verifying_key@));
        lemma_hex_round_trip(identifier_encoding(i + 1));
    }
    assert forall|a: int, b: int| 0 <= a < b < records.len()
        implies #[trigger] record_ids(records)[a] != #[trigger] record_ids(records)[b] by {
        let ea = identifier_encoding(sel[a] + 1);
        let eb = identifier_encoding(sel[b] + 1);
        assert(record_ids(records)[a] == ea);
        assert(record_ids(records)[b] == eb);
        if ea == eb {
            assert(ea[30] == eb[30]);
            assert(ea[31] == eb[31]);
        }
    }
}

/// Fewer generated shares than the threshold, in a session asking for that
/// threshold, are refused for too few signers before any cryptographic work.
pub proof fn lemma_too_few_signers(out: KeyGenOutput, n: u16, t: u16, sel: Seq<int>, records: Seq<ShareRecord>)
    requires
        1 <= t,
        issued_for(out, n, t),
        selected(out, n, sel, records),
        sel.len() < t,
    ensures
        forall|k: int| 0 <= k < records.len() ==> record_decodes(#[trigger] records[k]),
        verdict(record_ids(records), record_mins(records), t) == Some(FrostError::InsufficientSigners),
{
    lemma_generated_selection(out, n, t, sel, records);
}

/// At least threshold many generated shares, in a session asking for that
/// threshold, pass every check that precedes the cryptographic rounds.
pub proof fn lemma_quorum_accepted(out: KeyGenOutput, n: u16, t: u16, sel: Seq<int>, records: Seq<ShareRecord>)
    requires
        1 <= t,
        issued_for(out, n, t),
        selected(out, n, sel, records),
        sel.len() >= t,
    ensures
        forall|k: int| 0 <= k < records.len() ==> record_decodes(#[trigger] records[k]),
        verdict(record_ids(records), record_mins(records), t) is None,
{
    lemma_generated_selection(out, n, t, sel, records);
}

/// A session asking for a threshold below any participant's recorded one is
/// refused with a threshold mismatch.
pub proof fn lemma_threshold_guard(records: Seq<ShareRecord>, threshold: u16, i: int)
    requires
        0 <= i < records.len(),
        records[i].min_signers > threshold,
    ensures
        verdict(record_ids(records), record_mins(records), threshold) == Some(FrostError::ThresholdMismatch),
{
    assert(record_mins(records)[i] > threshold);
}

/// A signature made under the public key package of a key generation
/// verifies under that generation's group verifying key: verification
/// returns `Ok(true)`.
pub proof fn lemma_signature_verifies(
    out: KeyGenOutput,
    message: Seq<u8>,
    signature: Seq<char>,
    r: Result<bool, FrostError>,
)
    requires
        group_keys_agree(out),
        signed_under(out.group_public_key@, message, signature),
        verify_outcome(message, signature, out.group_verifying_key@, r),
    ensures
        r == Ok::<bool, FrostError>(true),
{
    let package = choose|package: Seq<u8>| {
        &&& base64_text_of(out.group_public_key@, package)
        &&& base64_text_of(out.group_verifying_key@, group_key_of(package))
    };
    let (p, s) = choose|p: Seq<u8>, s: Seq<u8>| {
        &&& base64_of(p) == out.group_public_key@
        &&& base64_text_of(signature, s)
        &&& schnorr_decodes(s, group_key_of(p))
        &&& schnorr_accepts(message, s, group_key_of(p))
    };
    assert(p == package);
    let k = group_key_of(package);
    assert(base64_of(s) == signature && base64_of(k) == out.group_verifying_key@ && schnorr_decodes(s, k));
    assert(r is Ok);
    assert(r->Ok_0 == schnorr_accepts(message, s, k));
}

/// Verifying the same texts twice gives the same result.
pub proof fn lemma_verification_deterministic(
    message: Seq<u8>,
    signature: Seq<char>,
    key: Seq<char>,
    r1: Result<bool, FrostError>,
    r2: Result<bool, FrostError>,
)
    requires
        verify_outcome(message, signature, key, r1),
        verify_outcome(message, signature, key, r2),
    ensures
        r1 == r2,
{
    if r1 is Ok {
        let (s, k) = choose|s: Seq<u8>, k: Seq<u8>| {
            &&& base64_of(s) == signature
            &&& base64_of(k) == key
            &&& schnorr_decodes(s, k)
        };
        assert(r2 is Ok);
        assert(r1->Ok_0 == schnorr_accepts(message, s, k));
        assert(r2->Ok_0 == schnorr_accepts(message, s, k));
    } else if r2 is Ok {
        let (s, k) = choose|s: Seq<u8>, k: Seq<u8>| {
            &&& base64_of(s) == signature
            &&& base64_of(k) == key
            &&& schnorr_decodes(s, k)
        };
        assert(r1 is Ok);
    }
}

} // verus!
