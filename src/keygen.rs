//! Dealer key generation: splits a fresh group key into one share record per
//! participant plus the public material every participant and verifier needs.
use vstd::prelude::*;
use crate::FrostError;
use crate::codec::{
    base64_encode, base64_of, base64_text_of, bytes_of_hex, ciphersuite_name, hex_encode, hex_of, lemma_hex_injective,
    lemma_hex_round_trip, valid_hex, ShareRecord, POINT_LEN, SCALAR_LEN,
};
use crate::primitives::{identifier_decodes, point_decodes, scalar_decodes, deal, deal_single, dealt_well, group_key_of, identifier_encoding, Dealt};

verus! {

/// A share record together with the participant's position (from 1) in the
/// generated set.
pub struct IssuedShare {
    pub participant_id: usize,
    pub share: ShareRecord,
}

/// Everything key generation hands out: one share per participant, the
/// encoded public key package and the encoded group verifying key, both
/// base64.
pub struct KeyGenOutput {
    pub shares: Vec<IssuedShare>,
    pub group_public_key: String,
    pub group_verifying_key: String,
}

/// Thresholds and participant counts that a key generation may use.
pub open spec fn params_valid(n: u16, t: u16) -> bool {
    1 <= t && t <= n
}

/// `s` is the share issued to the participant at position `i` (from 0) of a
/// key with threshold `t` and base64 group verifying key `group_key`.
pub open spec fn issued_share(s: IssuedShare, i: int, t: u16, group_key: Seq<char>) -> bool {
    &&& s.participant_id == i + 1
    &&& s.share.version == crate::RECORD_VERSION
    &&& s.share.ciphersuite@ == ciphersuite_name()
    &&& s.share.identifier@ == hex_of(identifier_encoding(i + 1))
    &&& valid_hex(s.share.signing_share@) && s.share.signing_share@.len() == 2 * SCALAR_LEN
    &&& valid_hex(s.share.verifying_key@) && s.share.verifying_key@.len() == 2 * POINT_LEN
    &&& base64_of(bytes_of_hex(s.share.verifying_key@)) == group_key
    &&& s.share.min_signers == t
    &&& identifier_decodes(identifier_encoding(i + 1))
    &&& scalar_decodes(bytes_of_hex(s.share.signing_share@))
    &&& point_decodes(bytes_of_hex(s.share.verifying_key@))
}

/// `out` holds exactly the `n` shares of a key with threshold `t`, in order.
pub open spec fn issued_for(out: KeyGenOutput, n: u16, t: u16) -> bool {
    &&& out.shares@.len() == n
    &&& forall|i: int| 0 <= i < n ==> issued_share(#[trigger] out.shares@[i], i, t, out.group_verifying_key@)
}

/// The base64 public key package of `out` holds the key whose base64 text is
/// its group verifying key, and each text stands for one byte string only.
pub open spec fn group_keys_agree(out: KeyGenOutput) -> bool {
    exists|package: Seq<u8>| {
        &&& base64_text_of(out.group_public_key@, package)
        &&& base64_text_of(out.group_verifying_key@, group_key_of(package))
    }
}

/// Checks the participant count and threshold of a key generation.
pub fn check_params(n: u16, t: u16) -> (r: Result<(), FrostError>)
    ensures
        r is Ok <==> params_valid(n, t),
        r is Err ==> r->Err_0 == FrostError::InvalidParameters,
{
    if t == 0 || n == 0 || t > n {
        Err(FrostError::InvalidParameters)
    } else {
        Ok(())
    }
}

/// Turns dealt key material into the share records handed to participants,
/// with the public key package and group verifying key as base64 text.
pub fn issue_shares(dealt: &Dealt, n: u16, t: u16) -> (r: KeyGenOutput)
    requires
        dealt_well(*dealt, n),
    ensures
        issued_for(r, n, t),
        group_keys_agree(r),
        forall|i: int| 0 <= i < n ==> (#[trigger] r.shares@[i]).share.signing_share@ == hex_of(dealt.shares@[i].1@),
        r.group_verifying_key@ == base64_of(dealt.group_key@),
        r.group_public_key@ == base64_of(dealt.public_key_package@),
{
    let group_key_hex = hex_encode(&dealt.group_key);
    let group_verifying_key = base64_encode(&dealt.group_key);
    let group_public_key = base64_encode(&dealt.public_key_package);
    proof {
        lemma_hex_round_trip(dealt.group_key@);
    }
    let mut shares: Vec<IssuedShare> = Vec::new();
    let mut i: usize = 0;
    while i < dealt.shares.len()
        invariant
            dealt_well(*dealt, n),
            i <= n,
            shares@.len() == i,
            group_key_hex@ == hex_of(dealt.group_key@),
            bytes_of_hex(group_key_hex@) == dealt.group_key@,
            valid_hex(group_key_hex@),
            group_verifying_key@ == base64_of(dealt.group_key@),
            forall|k: int| 0 <= k < i ==> issued_share(#[trigger] shares@[k], k, t, group_verifying_key@),
            forall|k: int| 0 <= k < i ==> (#[trigger] shares@[k]).share.signing_share@ == hex_of(dealt.shares@[k].1@),
        decreases n - i,
    {
        let signing_share = hex_encode(&dealt.shares[i].1);
        proof {
            lemma_hex_round_trip(dealt.shares@[i as int].1@);
        }
        let share = ShareRecord {
            version: crate::RECORD_VERSION,
            ciphersuite: crate::CIPHERSUITE.to_owned(),
            identifier: hex_encode(&dealt.shares[i].0),
            signing_share,
            verifying_key: group_key_hex.clone(),
            min_signers: t,
        };
        shares.push(IssuedShare { participant_id: i + 1, share });
        i = i + 1;
    }
    let out = KeyGenOutput { shares, group_public_key, group_verifying_key };
    assert(base64_text_of(out.group_public_key@, dealt.public_key_package@));
    assert(base64_text_of(out.group_verifying_key@, group_key_of(dealt.public_key_package@)));
    out
}

/// Generates a fresh group key split among `n` participants so that any `t`
/// of them can sign. With threshold 1 every participant holds the group
/// secret itself. Apart from invalid parameters, only the dealer can fail.
pub fn generate_keys(n: u16, t: u16) -> (r: Result<KeyGenOutput, FrostError>)
    ensures
        !params_valid(n, t) ==> r == Err::<KeyGenOutput, FrostError>(FrostError::InvalidParameters),
        params_valid(n, t) && r is Err ==> r->Err_0 == FrostError::SigningError,
        r is Ok ==> issued_for(r->Ok_0, n, t) && group_keys_agree(r->Ok_0),
{
    check_params(n, t)?;
    let dealt = if t == 1 { deal_single(n) } else { deal(n, t) };
    match dealt {
        Ok(d) => Ok(issue_shares(&d, n, t)),
        Err(_) => Err(FrostError::SigningError),
    }
}

/// Generated shares: there are `n` of them, each records the threshold `t`,
/// and no two carry the same identifier.
pub proof fn lemma_generated_shares(out: KeyGenOutput, n: u16, t: u16)
    requires
        issued_for(out, n, t),
    ensures
        out.shares@.len() == n,
        forall|i: int| 0 <= i < n ==> (#[trigger] out.shares@[i]).share.min_signers == t,
        forall|i: int, j: int| 0 <= i < n && 0 <= j < n && i != j
            ==> (#[trigger] out.shares@[i]).share.identifier@ != (#[trigger] out.shares@[j]).share.identifier@,
{
    assert forall|i: int, j: int| 0 <= i < n && 0 <= j < n && i != j
        implies (#[trigger] out.shares@[i]).share.identifier@ != (#[trigger] out.shares@[j]).share.identifier@ by {
        assert(issued_share(out.shares@[i], i, t, out.group_verifying_key@));
        assert(issued_share(out.shares@[j], j, t, out.group_verifying_key@));
        if out.shares@[i].share.identifier@ == out.shares@[j].share.identifier@ {
            lemma_hex_injective(identifier_encoding(i + 1), identifier_encoding(j + 1));
            assert(identifier_encoding(i + 1)[30] == identifier_encoding(j + 1)[30]);
            assert(identifier_encoding(i + 1)[31] == identifier_encoding(j + 1)[31]);
        }
    }
    assert forall|i: int| 0 <= i < n implies (#[trigger] out.shares@[i]).share.min_signers == t by {
        assert(issued_share(out.shares@[i], i, t, out.group_verifying_key@));
    }
}

} // verus!
