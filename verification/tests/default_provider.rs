use tlsn_verifier::authentication::ProofError;
use tlsn_verifier::authentication::RangeFault;
use tlsn_verifier::commitment::canonical_header_bytes;
use tlsn_verifier::parse;
use tlsn_verifier::verify;
use tlsn_verifier::verify_presentation;
use tlsn_verifier::verify_transcript;
use tlsn_verifier::CryptoProvider;
use tlsn_verifier::DefaultProvider;

const GOOD: &str = r#"{"session_header":{"server_name":"api.example.com","handshake_hash":[98,201,8,101,106,167,1,124,215,31,65,233,127,207,83,69,127,132,171,212,235,251,150,179,61,15,79,168,192,13,227,210],"timestamp":1700000000},"transcript_proof":{"sent":[71,69,84,32,47,98,97,108,97,110,99,101,32,72,84,84,80,47,49,46,49,0,0,0,0,0,0,0,0,0,0,0,0,0,0,0,0,0,0,0,0,0,0,0,0,0,0,0,0,0,0,0,0,0,0,0,0,0,0,0,0,0,0,0,0,0,0,0,0,0,0,0,0,0,0,0,0,0,0],"received":[72,84,84,80,47,49,46,49,32,50,48,48,32,79,75,13,10,0,0,0,0,0,0,0,0,0,0,0,0,0,0,0,0,0,0,0,0,0,0,0,0,13,10,13,10,123,34,98,97,108,97,110,99,101,34,58,52,50,125],"ranges":[{"start":0,"end":21,"path":[{"sibling":[74,0,127,156,223,190,185,168,130,151,200,83,30,144,115,49,131,187,252,42,114,110,77,237,187,75,53,125,2,142,4,161],"left":false},{"sibling":[29,58,95,154,133,225,226,50,165,222,78,208,81,168,104,49,213,56,236,232,230,54,110,169,19,108,128,218,32,208,225,33],"left":false}]},{"start":79,"end":96,"path":[{"sibling":[104,85,160,132,218,148,144,223,221,76,38,90,106,48,139,217,120,251,246,188,163,12,241,215,88,9,56,27,216,154,247,131],"left":true},{"sibling":[29,58,95,154,133,225,226,50,165,222,78,208,81,168,104,49,213,56,236,232,230,54,110,169,19,108,128,218,32,208,225,33],"left":false}]},{"start":120,"end":138,"path":[{"sibling":[88,106,49,253,252,169,5,199,180,232,238,49,159,162,71,122,215,79,219,134,88,33,193,7,49,76,30,184,53,174,4,190],"left":true}]}]},"signature":{"bytes":[199,102,99,217,167,1,133,64,125,36,152,228,149,31,98,113,182,27,75,163,103,95,233,75,217,49,159,60,246,145,216,234,37,216,85,4,215,93,236,95,128,151,63,124,46,43,227,88,156,214,89,42,157,80,36,88,212,204,252,159,142,137,205,181],"public_key":[2,137,81,38,98,181,144,46,180,102,61,191,66,140,98,244,92,229,44,211,23,36,201,121,32,86,185,98,216,108,62,37,26]}}"#;
const BAD_SIGNATURE: &str = r#"{"session_header":{"server_name":"api.example.com","handshake_hash":[98,201,8,101,106,167,1,124,215,31,65,233,127,207,83,69,127,132,171,212,235,251,150,179,61,15,79,168,192,13,227,210],"timestamp":1700000000},"transcript_proof":{"sent":[71,69,84,32,47,98,97,108,97,110,99,101,32,72,84,84,80,47,49,46,49,0,0,0,0,0,0,0,0,0,0,0,0,0,0,0,0,0,0,0,0,0,0,0,0,0,0,0,0,0,0,0,0,0,0,0,0,0,0,0,0,0,0,0,0,0,0,0,0,0,0,0,0,0,0,0,0,0,0],"received":[72,84,84,80,47,49,46,49,32,50,48,48,32,79,75,13,10,0,0,0,0,0,0,0,0,0,0,0,0,0,0,0,0,0,0,0,0,0,0,0,0,13,10,13,10,123,34,98,97,108,97,110,99,101,34,58,52,50,125],"ranges":[{"start":0,"end":21,"path":[{"sibling":[74,0,127,156,223,190,185,168,130,151,200,83,30,144,115,49,131,187,252,42,114,110,77,237,187,75,53,125,2,142,4,161],"left":false},{"sibling":[29,58,95,154,133,225,226,50,165,222,78,208,81,168,104,49,213,56,236,232,230,54,110,169,19,108,128,218,32,208,225,33],"left":false}]},{"start":79,"end":96,"path":[{"sibling":[104,85,160,132,218,148,144,223,221,76,38,90,106,48,139,217,120,251,246,188,163,12,241,215,88,9,56,27,216,154,247,131],"left":true},{"sibling":[29,58,95,154,133,225,226,50,165,222,78,208,81,168,104,49,213,56,236,232,230,54,110,169,19,108,128,218,32,208,225,33],"left":false}]},{"start":120,"end":138,"path":[{"sibling":[88,106,49,253,252,169,5,199,180,232,238,49,159,162,71,122,215,79,219,134,88,33,193,7,49,76,30,184,53,174,4,190],"left":true}]}]},"signature":{"bytes":[199,102,99,217,167,1,133,64,125,36,153,228,149,31,98,113,182,27,75,163,103,95,233,75,217,49,159,60,246,145,216,234,37,216,85,4,215,93,236,95,128,151,63,124,46,43,227,88,156,214,89,42,157,80,36,88,212,204,252,159,142,137,205,181],"public_key":[2,137,81,38,98,181,144,46,180,102,61,191,66,140,98,244,92,229,44,211,23,36,201,121,32,86,185,98,216,108,62,37,26]}}"#;
const BAD_PATH: &str = r#"{"session_header":{"server_name":"api.example.com","handshake_hash":[98,201,8,101,106,167,1,124,215,31,65,233,127,207,83,69,127,132,171,212,235,251,150,179,61,15,79,168,192,13,227,210],"timestamp":1700000000},"transcript_proof":{"sent":[71,69,84,32,47,98,97,108,97,110,99,101,32,72,84,84,80,47,49,46,49,0,0,0,0,0,0,0,0,0,0,0,0,0,0,0,0,0,0,0,0,0,0,0,0,0,0,0,0,0,0,0,0,0,0,0,0,0,0,0,0,0,0,0,0,0,0,0,0,0,0,0,0,0,0,0,0,0,0],"received":[72,84,84,80,47,49,46,49,32,50,48,48,32,79,75,13,10,0,0,0,0,0,0,0,0,0,0,0,0,0,0,0,0,0,0,0,0,0,0,0,0,13,10,13,10,123,34,98,97,108,97,110,99,101,34,58,52,50,125],"ranges":[{"start":0,"end":21,"path":[{"sibling":[74,0,127,156,223,190,185,168,130,151,200,83,30,144,115,49,131,187,252,42,114,110,77,237,187,75,53,125,2,142,4,161],"left":false},{"sibling":[29,58,95,154,133,225,226,50,165,222,78,208,81,168,104,49,213,56,236,232,230,54,110,169,19,108,128,218,32,208,225,33],"left":false}]},{"start":79,"end":96,"path":[{"sibling":[105,85,160,132,218,148,144,223,221,76,38,90,106,48,139,217,120,251,246,188,163,12,241,215,88,9,56,27,216,154,247,131],"left":true},{"sibling":[29,58,95,154,133,225,226,50,165,222,78,208,81,168,104,49,213,56,236,232,230,54,110,169,19,108,128,218,32,208,225,33],"left":false}]},{"start":120,"end":138,"path":[{"sibling":[88,106,49,253,252,169,5,199,180,232,238,49,159,162,71,122,215,79,219,134,88,33,193,7,49,76,30,184,53,174,4,190],"left":true}]}]},"signature":{"bytes":[199,102,99,217,167,1,133,64,125,36,152,228,149,31,98,113,182,27,75,163,103,95,233,75,217,49,159,60,246,145,216,234,37,216,85,4,215,93,236,95,128,151,63,124,46,43,227,88,156,214,89,42,157,80,36,88,212,204,252,159,142,137,205,181],"public_key":[2,137,81,38,98,181,144,46,180,102,61,191,66,140,98,244,92,229,44,211,23,36,201,121,32,86,185,98,216,108,62,37,26]}}"#;
const BAD_BYTE: &str = r#"{"session_header":{"server_name":"api.example.com","handshake_hash":[98,201,8,101,106,167,1,124,215,31,65,233,127,207,83,69,127,132,171,212,235,251,150,179,61,15,79,168,192,13,227,210],"timestamp":1700000000},"transcript_proof":{"sent":[71,69,84,32,47,98,97,108,97,110,99,101,32,72,84,84,80,47,49,46,49,0,0,0,0,0,0,0,0,0,0,0,0,0,0,0,0,0,0,0,0,0,0,0,0,0,0,0,0,0,0,0,0,0,0,0,0,0,0,0,0,0,0,0,0,0,0,0,0,0,0,0,0,0,0,0,0,0,0],"received":[104,84,84,80,47,49,46,49,32,50,48,48,32,79,75,13,10,0,0,0,0,0,0,0,0,0,0,0,0,0,0,0,0,0,0,0,0,0,0,0,0,13,10,13,10,123,34,98,97,108,97,110,99,101,34,58,52,50,125],"ranges":[{"start":0,"end":21,"path":[{"sibling":[74,0,127,156,223,190,185,168,130,151,200,83,30,144,115,49,131,187,252,42,114,110,77,237,187,75,53,125,2,142,4,161],"left":false},{"sibling":[29,58,95,154,133,225,226,50,165,222,78,208,81,168,104,49,213,56,236,232,230,54,110,169,19,108,128,218,32,208,225,33],"left":false}]},{"start":79,"end":96,"path":[{"sibling":[104,85,160,132,218,148,144,223,221,76,38,90,106,48,139,217,120,251,246,188,163,12,241,215,88,9,56,27,216,154,247,131],"left":true},{"sibling":[29,58,95,154,133,225,226,50,165,222,78,208,81,168,104,49,213,56,236,232,230,54,110,169,19,108,128,218,32,208,225,33],"left":false}]},{"start":120,"end":138,"path":[{"sibling":[88,106,49,253,252,169,5,199,180,232,238,49,159,162,71,122,215,79,219,134,88,33,193,7,49,76,30,184,53,174,4,190],"left":true}]}]},"signature":{"bytes":[199,102,99,217,167,1,133,64,125,36,152,228,149,31,98,113,182,27,75,163,103,95,233,75,217,49,159,60,246,145,216,234,37,216,85,4,215,93,236,95,128,151,63,124,46,43,227,88,156,214,89,42,157,80,36,88,212,204,252,159,142,137,205,181],"public_key":[2,137,81,38,98,181,144,46,180,102,61,191,66,140,98,244,92,229,44,211,23,36,201,121,32,86,185,98,216,108,62,37,26]}}"#;
const REDACTED: &str = r#"{"session_header":{"server_name":"api.example.com","handshake_hash":[98,201,8,101,106,167,1,124,215,31,65,233,127,207,83,69,127,132,171,212,235,251,150,179,61,15,79,168,192,13,227,210],"timestamp":1700000000},"transcript_proof":{"sent":[0,0,0,0,0,0,0,0,0,0,0,0,0,0,0,0,0,0,0,0,0,0,0,0,0,0,0,0,0,0,0,0,0,0,0,0,0,0,0,0,0,0,0,0,0,0,0,0,0,0,0,0,0,0,0,0,0,0,0,0,0,0,0,0,0,0,0,0,0,0,0,0,0,0,0,0,0,0,0],"received":[0,0,0,0,0,0,0,0,0,0,0,0,0,0,0,0,0,0,0,0,0,0,0,0,0,0,0,0,0,0,0,0,0,0,0,0,0,0,0,0,0,0,0,0,0,0,0,0,0,0,0,0,0,0,0,0,0,0,0],"ranges":[]},"signature":{"bytes":[31,62,34,208,145,206,214,142,4,165,254,177,80,50,143,223,201,27,149,50,85,218,35,80,152,153,146,49,144,90,38,193,118,137,208,157,136,112,172,18,124,10,125,41,146,202,150,20,210,152,117,25,155,251,204,48,97,194,127,200,156,24,12,106],"public_key":[2,137,81,38,98,181,144,46,180,102,61,191,66,140,98,244,92,229,44,211,23,36,201,121,32,86,185,98,216,108,62,37,26]}}"#;
const OTHER_FILL: &str = r#"{"session_header":{"server_name":"api.example.com","handshake_hash":[98,201,8,101,106,167,1,124,215,31,65,233,127,207,83,69,127,132,171,212,235,251,150,179,61,15,79,168,192,13,227,210],"timestamp":1700000000},"transcript_proof":{"sent":[71,69,84,32,47,98,97,108,97,110,99,101,32,72,84,84,80,47,49,46,49,88,88,88,88,88,88,88,88,88,88,88,88,88,88,88,88,88,88,88,88,88,88,88,88,88,88,88,88,88,88,88,88,88,88,88,88,88,88,88,88,88,88,88,88,88,88,88,88,88,88,88,88,88,88,88,88,88,88],"received":[72,84,84,80,47,49,46,49,32,50,48,48,32,79,75,13,10,88,88,88,88,88,88,88,88,88,88,88,88,88,88,88,88,88,88,88,88,88,88,88,88,13,10,13,10,123,34,98,97,108,97,110,99,101,34,58,52,50,125],"ranges":[{"start":0,"end":21,"path":[{"sibling":[74,0,127,156,223,190,185,168,130,151,200,83,30,144,115,49,131,187,252,42,114,110,77,237,187,75,53,125,2,142,4,161],"left":false},{"sibling":[29,58,95,154,133,225,226,50,165,222,78,208,81,168,104,49,213,56,236,232,230,54,110,169,19,108,128,218,32,208,225,33],"left":false}]},{"start":79,"end":96,"path":[{"sibling":[104,85,160,132,218,148,144,223,221,76,38,90,106,48,139,217,120,251,246,188,163,12,241,215,88,9,56,27,216,154,247,131],"left":true},{"sibling":[29,58,95,154,133,225,226,50,165,222,78,208,81,168,104,49,213,56,236,232,230,54,110,169,19,108,128,218,32,208,225,33],"left":false}]},{"start":120,"end":138,"path":[{"sibling":[88,106,49,253,252,169,5,199,180,232,238,49,159,162,71,122,215,79,219,134,88,33,193,7,49,76,30,184,53,174,4,190],"left":true}]}]},"signature":{"bytes":[199,102,99,217,167,1,133,64,125,36,152,228,149,31,98,113,182,27,75,163,103,95,233,75,217,49,159,60,246,145,216,234,37,216,85,4,215,93,236,95,128,151,63,124,46,43,227,88,156,214,89,42,157,80,36,88,212,204,252,159,142,137,205,181],"public_key":[2,137,81,38,98,181,144,46,180,102,61,191,66,140,98,244,92,229,44,211,23,36,201,121,32,86,185,98,216,108,62,37,26]}}"#;
const GOOD_HASH: &str = "0e8f95bb9d8c3c296de53e23ef3394ec4a2af1a61672f2fb37ee79739407dd51";
const BAD_SIGNATURE_HASH: &str = "8eb1e9011228bc6b2b2713851e9e25f05c6c6e365deb630320c8783d8aaf20fd";
const NOTARY_KEY_HEX: &str = "0289512662b5902eb4663dbf428c62f45ce52cd31724c9792056b962d86c3e251a";
const ROOT_HEX: &str = "62c908656aa7017cd71f41e97fcf53457f84abd4ebfb96b33d0f4fa8c00de3d2";
const SENT_LEN: usize = 79;
const RANGES: [(usize, usize); 3] = [(0, 21), (79, 96), (120, 138)];
const CANONICAL_HEX: &str = "000000000000000f6170692e6578616d706c652e636f6d000000000000002062c908656aa7017cd71f41e97fcf53457f84abd4ebfb96b33d0f4fa8c00de3d201000000006553f100";
const SIGNATURE_HEX: &str = "c76663d9a70185407d2498e4951f6271b61b4ba3675fe94bd9319f3cf691d8ea25d85504d75dec5f80973f7c2e2be3589cd6592a9d502458d4ccfc9f8e89cdb5";
const HIGH_S_SIGNATURE_HEX: &str = "c76663d9a70185407d2498e4951f6271b61b4ba3675fe94bd9319f3cf691d8eada27aafb28a213a07f68c083d1d41ca61dd883bc11f87be2eb0561ed41ac738c";

fn unhex(text: &str) -> Vec<u8> {
    hex::decode(text).unwrap()
}

#[test]
fn signed_presentation_is_valid_under_default_provider() {
    let report = verify_presentation(GOOD).unwrap();
    assert_eq!(report.error, None);
    assert!(report.valid);
    assert_eq!(report.server_name, "api.example.com");
    assert_eq!(report.time, 1700000000);
    assert_eq!(report.notary_pubkey, NOTARY_KEY_HEX);
    assert_eq!(report.redacted_ranges, Some(RANGES.to_vec()));
    assert_eq!(report.proof_hash, GOOD_HASH);
    let expected: serde_json::Value = serde_json::from_str("{\"balance\":42}").unwrap();
    assert_eq!(report.data, expected);
}

#[test]
fn signed_presentation_with_tampered_signature_is_refused() {
    let report = verify_presentation(BAD_SIGNATURE).unwrap();
    assert!(!report.valid);
    assert_eq!(
        report.error,
        Some(
            "Verification failed: signature error: the signature does not match the session header"
                .to_string()
        )
    );
    assert_eq!(report.proof_hash, BAD_SIGNATURE_HASH);
    assert_eq!(report.server_name, "");
}

#[test]
fn signed_presentation_with_one_bad_path_is_refused() {
    let report = verify_presentation(BAD_PATH).unwrap();
    assert!(!report.valid);
    assert_eq!(
        report.error,
        Some(
            "Verification failed: proof error: a range does not hash to the committed root"
                .to_string()
        )
    );
    let presentation = parse(BAD_PATH).unwrap();
    let verdict = verify_transcript(
        &presentation.transcript_proof,
        &presentation.session_header.handshake_hash,
        &DefaultProvider,
    );
    assert_eq!(verdict, Err(ProofError { index: 1, fault: RangeFault::Unauthenticated }));
}

#[test]
fn signed_presentation_with_a_changed_disclosed_byte_is_refused() {
    let report = verify_presentation(BAD_BYTE).unwrap();
    assert!(!report.valid);
    let presentation = parse(BAD_BYTE).unwrap();
    let verdict = verify_transcript(
        &presentation.transcript_proof,
        &presentation.session_header.handshake_hash,
        &DefaultProvider,
    );
    assert_eq!(verdict, Err(ProofError { index: 1, fault: RangeFault::Unauthenticated }));
}

#[test]
fn signed_presentation_with_nothing_disclosed_is_valid() {
    let report = verify_presentation(REDACTED).unwrap();
    assert!(report.valid);
    assert_eq!(report.data, serde_json::Value::Null);
    assert_eq!(report.redacted_ranges, Some(vec![]));
    assert_eq!(report.server_name, "api.example.com");
}

#[test]
fn withheld_bytes_do_not_change_the_verdict() {
    let zeros = verify_presentation(GOOD).unwrap();
    let filled = verify_presentation(OTHER_FILL).unwrap();
    assert!(filled.valid);
    assert_eq!(zeros.data, filled.data);
    assert_eq!(zeros.redacted_ranges, filled.redacted_ranges);
}

#[test]
fn default_provider_results_are_repeatable() {
    assert_eq!(verify(GOOD, &DefaultProvider), verify(GOOD, &DefaultProvider));
    assert_eq!(verify(BAD_PATH, &DefaultProvider), verify(BAD_PATH, &DefaultProvider));
}

#[test]
fn canonical_header_of_signed_presentation() {
    let presentation = parse(GOOD).unwrap();
    assert_eq!(canonical_header_bytes(&presentation.session_header), unhex(CANONICAL_HEX));
    assert_eq!(presentation.session_header.handshake_hash, unhex(ROOT_HEX));
    assert_eq!(presentation.transcript_proof.sent_len, SENT_LEN);
}

#[test]
fn default_provider_checks_secp256k1_signatures() {
    let message = unhex(CANONICAL_HEX);
    let signature = unhex(SIGNATURE_HEX);
    let key = unhex(NOTARY_KEY_HEX);
    assert!(DefaultProvider.verify(&message, &signature, &key));
    let mut other = message.clone();
    other[0] ^= 1;
    assert!(!DefaultProvider.verify(&other, &signature, &key));
    let mut tampered = signature.clone();
    tampered[63] ^= 1;
    assert!(!DefaultProvider.verify(&message, &tampered, &key));
    assert!(!DefaultProvider.verify(&message, &unhex(HIGH_S_SIGNATURE_HEX), &key));
    assert!(!DefaultProvider.verify(&message, &signature[..63], &key));
    assert!(!DefaultProvider.verify(&message, &[0u8; 64], &key));
    assert!(!DefaultProvider.verify(&message, &signature, &[]));
    assert!(!DefaultProvider.verify(&message, &signature, &key[..32]));
    assert!(!DefaultProvider.verify(&message, &[], &key));
}

#[test]
fn default_provider_hashes_with_sha256() {
    assert_eq!(
        DefaultProvider.hash(b"abc"),
        unhex("ba7816bf8f01cfea414140de5dae2223b00361a396177a9cb410ff61f20015ad")
    );
    assert_eq!(
        DefaultProvider.hash(b""),
        unhex("e3b0c44298fc1c149afbf4c8996fb92427ae41e4649b934ca495991b7852b855")
    );
}
