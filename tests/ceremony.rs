use base64::Engine;
use frostpy::codec::{decode_share_record, encode_share_record, KeyShare, ShareRecord};
use frostpy::keygen::{check_params, generate_keys, KeyGenOutput};
use frostpy::session::{check_session, same_bytes, sign_message, verify_signature};
use frostpy::FrostError;

fn records(out: &KeyGenOutput, picks: &[usize]) -> Vec<ShareRecord> {
    picks
        .iter()
        .map(|&i| {
            let s = &out.shares[i].share;
            ShareRecord {
                version: s.version,
                ciphersuite: s.ciphersuite.clone(),
                identifier: s.identifier.clone(),
                signing_share: s.signing_share.clone(),
                verifying_key: s.verifying_key.clone(),
                min_signers: s.min_signers,
            }
        })
        .collect()
}

fn key(id: u8, min_signers: u16) -> KeyShare {
    let mut identifier = vec![0u8; 32];
    identifier[31] = id;
    KeyShare { identifier, signing_share: vec![1u8; 32], verifying_key: vec![2u8; 33], min_signers }
}

fn b64(bytes: &[u8]) -> String {
    base64::engine::general_purpose::STANDARD.encode(bytes)
}

fn unb64(text: &str) -> Vec<u8> {
    base64::engine::general_purpose::STANDARD.decode(text).unwrap()
}

#[test]
fn generate_five_of_three_shares() {
    let out = generate_keys(5, 3).unwrap();
    assert_eq!(out.shares.len(), 5);
    for (i, s) in out.shares.iter().enumerate() {
        assert_eq!(s.participant_id, i + 1);
        assert_eq!(s.share.version, 0);
        assert_eq!(s.share.ciphersuite, "FROST-secp256k1-SHA256-v1");
        assert_eq!(s.share.min_signers, 3);
        assert_eq!(s.share.identifier, format!("{:064x}", i + 1));
        assert_eq!(s.share.signing_share.len(), 64);
        assert_eq!(unb64(&out.group_verifying_key), hex::decode(&s.share.verifying_key).unwrap());
    }
    for a in 0..5 {
        for b in (a + 1)..5 {
            assert_ne!(out.shares[a].share.identifier, out.shares[b].share.identifier);
        }
    }
    assert_eq!(unb64(&out.group_verifying_key).len(), 33);
}

#[test]
fn generate_smallest_key_set() {
    let out = generate_keys(2, 2).unwrap();
    assert_eq!(out.shares.len(), 2);
    assert_eq!(out.shares[1].share.identifier, format!("{:064x}", 2));
    assert_eq!(out.shares[1].share.min_signers, 2);
}

#[test]
fn generate_identifiers_past_one_byte() {
    let out = generate_keys(300, 2).unwrap();
    assert_eq!(out.shares.len(), 300);
    assert_eq!(out.shares[255].share.identifier, format!("{:064x}", 256));
    assert_eq!(out.shares[299].share.identifier, format!("{:064x}", 300));
    assert_eq!(out.shares[299].participant_id, 300);
    let shares = records(&out, &[7, 299]);
    let (signature, _) = sign_message(b"wide".to_vec(), &shares, 2, &out.group_public_key).unwrap();
    assert_eq!(verify_signature(&b"wide".to_vec(), &signature, &out.group_verifying_key), Ok(true));
}

#[test]
fn generate_rejects_bad_parameters() {
    assert_eq!(generate_keys(0, 0).err(), Some(FrostError::InvalidParameters));
    assert_eq!(generate_keys(3, 0).err(), Some(FrostError::InvalidParameters));
    assert_eq!(generate_keys(3, 5).err(), Some(FrostError::InvalidParameters));
    assert_eq!(check_params(0, 1), Err(FrostError::InvalidParameters));
    assert_eq!(check_params(4, 4), Ok(()));
    assert_eq!(check_params(4, 1), Ok(()));
}

#[test]
fn threshold_one_keys_sign_alone() {
    let out = generate_keys(5, 1).unwrap();
    assert_eq!(out.shares.len(), 5);
    assert_eq!(out.shares[4].share.min_signers, 1);
    assert_eq!(out.shares[4].share.identifier, format!("{:064x}", 5));
    for i in 0..5 {
        let shares = records(&out, &[i]);
        let (signature, _) = sign_message(b"solo".to_vec(), &shares, 1, &out.group_public_key).unwrap();
        assert_eq!(verify_signature(&b"solo".to_vec(), &signature, &out.group_verifying_key), Ok(true));
    }
    let pair = records(&out, &[1, 3]);
    let (signature, _) = sign_message(b"pair".to_vec(), &pair, 1, &out.group_public_key).unwrap();
    assert_eq!(verify_signature(&b"pair".to_vec(), &signature, &out.group_verifying_key), Ok(true));
}

#[test]
fn single_participant_key() {
    let out = generate_keys(1, 1).unwrap();
    assert_eq!(out.shares.len(), 1);
    assert_eq!(out.shares[0].participant_id, 1);
    assert_eq!(out.shares[0].share.identifier, format!("{:064x}", 1));
    let shares = records(&out, &[0]);
    let (signature, message) = sign_message(b"one".to_vec(), &shares, 1, &out.group_public_key).unwrap();
    assert_eq!(message, b"one".to_vec());
    assert_eq!(verify_signature(&b"one".to_vec(), &signature, &out.group_verifying_key), Ok(true));
}

#[test]
fn foreign_header_is_a_schema_error() {
    let out = generate_keys(3, 2).unwrap();
    let mut shares = records(&out, &[0, 1]);
    shares[1].ciphersuite = "FROST-ed25519-SHA512-v1".to_string();
    let r = sign_message(b"m".to_vec(), &shares, 2, &out.group_public_key);
    assert_eq!(r.err(), Some(FrostError::SchemaError));
    let mut shares = records(&out, &[0, 1]);
    shares[0].version = 1;
    assert_eq!(decode_share_record(&shares[0]).err(), Some(FrostError::SchemaError));
}

#[test]
fn end_to_end_three_of_five() {
    let out = generate_keys(5, 3).unwrap();
    let shares = records(&out, &[0, 2, 4]);
    let (signature, message) = sign_message(b"hello".to_vec(), &shares, 3, &out.group_public_key).unwrap();
    assert_eq!(message, b"hello".to_vec());
    assert_eq!(unb64(&signature).len(), 65);
    assert_eq!(verify_signature(&b"hello".to_vec(), &signature, &out.group_verifying_key), Ok(true));
    assert_eq!(verify_signature(&b"hellp".to_vec(), &signature, &out.group_verifying_key), Ok(false));
}

#[test]
fn every_quorum_of_three_signs() {
    let out = generate_keys(4, 3).unwrap();
    for picks in [[0, 1, 2], [0, 1, 3], [0, 2, 3], [1, 2, 3]] {
        let shares = records(&out, &picks);
        let (signature, _) = sign_message(b"quorum".to_vec(), &shares, 3, &out.group_public_key).unwrap();
        assert_eq!(verify_signature(&b"quorum".to_vec(), &signature, &out.group_verifying_key), Ok(true));
    }
    let all = records(&out, &[0, 1, 2, 3]);
    let (signature, _) = sign_message(b"quorum".to_vec(), &all, 3, &out.group_public_key).unwrap();
    assert_eq!(verify_signature(&b"quorum".to_vec(), &signature, &out.group_verifying_key), Ok(true));
}

#[test]
fn two_shares_of_three_are_too_few() {
    let out = generate_keys(5, 3).unwrap();
    let shares = records(&out, &[1, 3]);
    let r = sign_message(b"hello".to_vec(), &shares, 3, &out.group_public_key);
    assert_eq!(r.err(), Some(FrostError::InsufficientSigners));
    let none: Vec<ShareRecord> = Vec::new();
    let r = sign_message(b"hello".to_vec(), &none, 3, &out.group_public_key);
    assert_eq!(r.err(), Some(FrostError::InsufficientSigners));
}

#[test]
fn threshold_below_recorded_is_refused() {
    let out = generate_keys(5, 3).unwrap();
    let shares = records(&out, &[0, 1, 2]);
    let r = sign_message(b"hello".to_vec(), &shares, 2, &out.group_public_key);
    assert_eq!(r.err(), Some(FrostError::ThresholdMismatch));
}

#[test]
fn duplicate_participant_is_refused() {
    let out = generate_keys(5, 3).unwrap();
    let shares = records(&out, &[0, 1, 1]);
    let r = sign_message(b"hello".to_vec(), &shares, 3, &out.group_public_key);
    assert_eq!(r.err(), Some(FrostError::DuplicateParticipant));
}

#[test]
fn malformed_inputs_are_refused() {
    let out = generate_keys(3, 2).unwrap();
    let shares = records(&out, &[0, 1]);
    let r = sign_message(b"m".to_vec(), &shares, 2, &"not base64!".to_string());
    assert_eq!(r.err(), Some(FrostError::MalformedEncoding));
    let r = sign_message(b"m".to_vec(), &shares, 2, &b64(b"junk"));
    assert_eq!(r.err(), Some(FrostError::MalformedEncoding));
    let mut bad = records(&out, &[0, 1]);
    bad[1].signing_share = "zz".repeat(32);
    let r = sign_message(b"m".to_vec(), &bad, 2, &out.group_public_key);
    assert_eq!(r.err(), Some(FrostError::MalformedEncoding));
    let mut short = records(&out, &[0, 1]);
    short[0].identifier = "01".to_string();
    let r = sign_message(b"m".to_vec(), &short, 2, &out.group_public_key);
    assert_eq!(r.err(), Some(FrostError::MalformedEncoding));
    let mut zero = records(&out, &[0, 1]);
    zero[0].min_signers = 0;
    let r = sign_message(b"m".to_vec(), &zero, 2, &out.group_public_key);
    assert_eq!(r.err(), Some(FrostError::MalformedEncoding));
}

#[test]
fn tampered_signature_or_key_does_not_verify() {
    let out = generate_keys(3, 2).unwrap();
    let shares = records(&out, &[0, 2]);
    let (signature, _) = sign_message(b"hello".to_vec(), &shares, 2, &out.group_public_key).unwrap();
    let mut sig = unb64(&signature);
    sig[64] ^= 1;
    assert_eq!(verify_signature(&b"hello".to_vec(), &b64(&sig), &out.group_verifying_key), Ok(false));
    let mut key = unb64(&out.group_verifying_key);
    key[0] ^= 1;
    assert_eq!(verify_signature(&b"hello".to_vec(), &signature, &b64(&key)), Ok(false));
}

#[test]
fn verify_rejects_malformed_text() {
    let out = generate_keys(3, 2).unwrap();
    assert_eq!(
        verify_signature(&b"x".to_vec(), &"@@".to_string(), &out.group_verifying_key),
        Err(FrostError::MalformedEncoding)
    );
    assert_eq!(
        verify_signature(&b"x".to_vec(), &b64(&[1, 2, 3]), &out.group_verifying_key),
        Err(FrostError::MalformedEncoding)
    );
}

#[test]
fn share_record_round_trip() {
    let out = generate_keys(3, 2).unwrap();
    let rec = &records(&out, &[2])[0];
    let k = decode_share_record(rec).unwrap();
    assert_eq!(k.identifier, hex::decode(format!("{:064x}", 3)).unwrap());
    assert_eq!(k.verifying_key, unb64(&out.group_verifying_key));
    assert_eq!(k.min_signers, 2);
    let again = encode_share_record(&k);
    assert_eq!(again.identifier, rec.identifier);
    assert_eq!(again.signing_share, rec.signing_share);
    assert_eq!(again.verifying_key, rec.verifying_key);
    assert_eq!(again.version, 0);
    assert_eq!(again.ciphersuite, "FROST-secp256k1-SHA256-v1");
    let back = decode_share_record(&again).unwrap();
    assert_eq!(back.identifier, k.identifier);
    assert_eq!(back.signing_share, k.signing_share);
    assert_eq!(back.verifying_key, k.verifying_key);
    assert_eq!(back.min_signers, k.min_signers);
}

#[test]
fn share_record_hex_is_lowercase_and_read_in_either_case() {
    let out = generate_keys(3, 2).unwrap();
    let mut rec = records(&out, &[0]).remove(0);
    let k = decode_share_record(&rec).unwrap();
    assert_eq!(encode_share_record(&k).identifier, "0000000000000000000000000000000000000000000000000000000000000001");
    rec.verifying_key = rec.verifying_key.to_uppercase();
    assert_eq!(decode_share_record(&rec).unwrap().verifying_key, k.verifying_key);
    rec.identifier.push('0');
    assert_eq!(decode_share_record(&rec).err(), Some(FrostError::MalformedEncoding));
}

#[test]
fn out_of_range_fields_are_malformed() {
    let out = generate_keys(3, 2).unwrap();
    let mut rec = records(&out, &[0]).remove(0);
    rec.identifier = "00".repeat(32);
    assert_eq!(decode_share_record(&rec).err(), Some(FrostError::MalformedEncoding));
    let mut rec = records(&out, &[0]).remove(0);
    rec.signing_share = "ff".repeat(32);
    assert_eq!(decode_share_record(&rec).err(), Some(FrostError::MalformedEncoding));
    let mut rec = records(&out, &[0]).remove(0);
    rec.verifying_key = format!("05{}", "11".repeat(32));
    assert_eq!(decode_share_record(&rec).err(), Some(FrostError::MalformedEncoding));
}

#[test]
fn session_checks_in_order() {
    let keys = vec![key(1, 2), key(2, 2), key(3, 3)];
    assert_eq!(check_session(&keys, 2), Err(FrostError::ThresholdMismatch));
    assert_eq!(check_session(&keys, 3), Ok(()));
    assert_eq!(check_session(&keys, 4), Err(FrostError::InsufficientSigners));
    let dup = vec![key(1, 2), key(1, 2)];
    assert_eq!(check_session(&dup, 2), Err(FrostError::DuplicateParticipant));
    assert_eq!(check_session(&Vec::new(), 0), Ok(()));
}

#[test]
fn byte_equality() {
    assert!(same_bytes(&vec![1, 2, 3], &vec![1, 2, 3]));
    assert!(!same_bytes(&vec![1, 2, 3], &vec![1, 2, 4]));
    assert!(!same_bytes(&vec![1, 2], &vec![1, 2, 3]));
}
