use tlsn_verifier::bytes::bytes_equal;
use tlsn_verifier::bytes::copy_bytes;
use tlsn_verifier::bytes::push_be64;
use tlsn_verifier::bytes::push_bytes;
use tlsn_verifier::calculate_hash;
use tlsn_verifier::commitment::canonical_header_bytes;
use tlsn_verifier::hostname::is_valid_host_name;
use tlsn_verifier::CryptoProvider;
use tlsn_verifier::FixedProvider;
use tlsn_verifier::ProofError;
use tlsn_verifier::RangeFault;
use tlsn_verifier::ParseError;
use tlsn_verifier::SessionHeader;
use tlsn_verifier::SignatureError;
use tlsn_verifier::VerifyError;

#[test]
fn calculate_hash_is_sha256_in_lower_case_hex() {
    assert_eq!(
        calculate_hash(""),
        "e3b0c44298fc1c149afbf4c8996fb92427ae41e4649b934ca495991b7852b855"
    );
    assert_eq!(
        calculate_hash("abc"),
        "ba7816bf8f01cfea414140de5dae2223b00361a396177a9cb410ff61f20015ad"
    );
    assert_eq!(
        calculate_hash("not valid json"),
        "62eb7d4ff39a69b09cf8fdaa37579468bf970290cb3ff1fe87554cba9d06cc50"
    );
    assert_eq!(calculate_hash("any text at all").len(), 64);
}

#[test]
fn be64_is_big_endian() {
    let mut out = vec![7u8];
    push_be64(&mut out, 0);
    assert_eq!(out, vec![7, 0, 0, 0, 0, 0, 0, 0, 0]);
    let mut out = Vec::new();
    push_be64(&mut out, 0x0102030405060708);
    assert_eq!(out, vec![1, 2, 3, 4, 5, 6, 7, 8]);
    let mut out = Vec::new();
    push_be64(&mut out, u64::MAX);
    assert_eq!(out, vec![255; 8]);
    let mut out = Vec::new();
    push_be64(&mut out, 258);
    assert_eq!(out, 258u64.to_be_bytes().to_vec());
}

#[test]
fn byte_helpers() {
    let mut out = vec![1u8];
    push_bytes(&mut out, &[2, 3]);
    push_bytes(&mut out, &[]);
    assert_eq!(out, vec![1, 2, 3]);
    assert_eq!(copy_bytes(&[4, 5, 6]), vec![4, 5, 6]);
    assert_eq!(copy_bytes(&[]), Vec::<u8>::new());
    assert!(bytes_equal(&[], &[]));
    assert!(bytes_equal(&[1, 2], &[1, 2]));
    assert!(!bytes_equal(&[1, 2], &[1, 3]));
    assert!(!bytes_equal(&[1, 2], &[1, 2, 0]));
    assert!(!bytes_equal(&[1, 2], &[1]));
}

#[test]
fn canonical_header_frames_each_part() {
    let header = SessionHeader {
        server_name: "a.b".to_string(),
        handshake_hash: vec![1, 2],
        timestamp: None,
    };
    assert_eq!(
        hex::encode(canonical_header_bytes(&header)),
        "0000000000000003612e620000000000000002010200"
    );
    let timed = SessionHeader { timestamp: Some(258), ..header };
    assert_eq!(
        hex::encode(canonical_header_bytes(&timed)),
        "0000000000000003612e6200000000000000020102010000000000000102"
    );
}

#[test]
fn canonical_header_tells_headers_apart() {
    let header = |name: &str, hash: &[u8], timestamp: Option<u64>| {
        canonical_header_bytes(&SessionHeader {
            server_name: name.to_string(),
            handshake_hash: hash.to_vec(),
            timestamp,
        })
    };
    assert_ne!(header("ab", b"c", None), header("a", b"bc", None));
    assert_ne!(header("a", b"", None), header("a", b"\0", None));
    assert_ne!(header("a", b"c", None), header("a", b"c", Some(1)));
    assert_ne!(header("a", b"c", Some(1)), header("a", b"c", Some(256)));
    assert_ne!(header("a", b"c\x01\0\0\0\0\0\0\0\x01", None), header("a", b"c", Some(1)));
    assert_eq!(header("a", b"c", Some(1)), header("a", b"c", Some(1)));
}

#[test]
fn host_names_accepted() {
    assert!(is_valid_host_name(b"a"));
    assert!(is_valid_host_name(b"localhost"));
    assert!(is_valid_host_name(b"api.example.com"));
    assert!(is_valid_host_name(b"api.bankofamerica.com"));
    assert!(is_valid_host_name(b"test.com"));
    assert!(is_valid_host_name(b"xn--bcher-kva.example"));
    assert!(is_valid_host_name(b"A-1.B-2.c3"));
    assert!(is_valid_host_name(b"127.0.0.1"));
    assert!(is_valid_host_name(b"a-b"));
    assert!(is_valid_host_name(b"a--b"));
}

#[test]
fn host_names_refused() {
    assert!(!is_valid_host_name(b""));
    assert!(!is_valid_host_name(b"."));
    assert!(!is_valid_host_name(b".com"));
    assert!(!is_valid_host_name(b"com."));
    assert!(!is_valid_host_name(b"a..b"));
    assert!(!is_valid_host_name(b"-a.com"));
    assert!(!is_valid_host_name(b"a-.com"));
    assert!(!is_valid_host_name(b"a.-b"));
    assert!(!is_valid_host_name(b"a.b-"));
    assert!(!is_valid_host_name(b"-"));
    assert!(!is_valid_host_name(b"a_b.com"));
    assert!(!is_valid_host_name(b"a b.com"));
    assert!(!is_valid_host_name(b"a/b"));
    assert!(!is_valid_host_name(b"a:80"));
    assert!(!is_valid_host_name(b"a\0b"));
    assert!(!is_valid_host_name("caf\u{e9}.fr".as_bytes()));
    assert!(!is_valid_host_name(b"a@b"));
    assert!(!is_valid_host_name(b"a[b"));
    assert!(!is_valid_host_name(b"a`b"));
    assert!(!is_valid_host_name(b"a{b"));
}

#[test]
fn host_name_lengths() {
    let label63 = "a".repeat(63);
    let label64 = "a".repeat(64);
    assert!(is_valid_host_name(label63.as_bytes()));
    assert!(!is_valid_host_name(label64.as_bytes()));
    assert!(is_valid_host_name(format!("{}.{}", label63, label63).as_bytes()));
    assert!(!is_valid_host_name(format!("{}.{}", label63, label64).as_bytes()));
    assert!(!is_valid_host_name(format!("{}.b", label64).as_bytes()));
    let name253 = format!("{}.{}.{}.{}", label63, label63, label63, "a".repeat(61));
    assert_eq!(name253.len(), 253);
    assert!(is_valid_host_name(name253.as_bytes()));
    let name254 = format!("{}.{}.{}.{}", label63, label63, label63, "a".repeat(62));
    assert_eq!(name254.len(), 254);
    assert!(!is_valid_host_name(name254.as_bytes()));
}

#[test]
fn fixed_provider_holds_one_signature_and_one_digest() {
    let provider = FixedProvider { signature: vec![1, 2], digest: vec![3] };
    assert!(provider.verify(b"any", &[1, 2], b"key"));
    assert!(provider.verify(b"", &[1, 2], b""));
    assert!(!provider.verify(b"any", &[1, 2, 3], b"key"));
    assert!(!provider.verify(b"any", &[2, 1], b"key"));
    assert!(!provider.verify(b"any", &[], b"key"));
    assert_eq!(provider.hash(b"x"), vec![3]);
    assert_eq!(provider.hash(b""), vec![3]);
}

#[test]
fn error_messages() {
    let parse = |e: ParseError| VerifyError::Parse(e).message();
    assert_eq!(parse(ParseError::Syntax), "Parse error: the input is not a JSON document");
    assert_eq!(parse(ParseError::MissingSessionHeader), "Parse error: session_header is missing");
    assert_eq!(
        parse(ParseError::MissingTranscriptProof),
        "Parse error: transcript_proof is missing"
    );
    assert_eq!(parse(ParseError::MissingSignature), "Parse error: signature is missing");
    assert_eq!(parse(ParseError::ServerName), "Parse error: server_name is not a host name");
    assert_eq!(
        parse(ParseError::HandshakeHash),
        "Parse error: handshake_hash is not an array of bytes"
    );
    assert_eq!(parse(ParseError::Timestamp), "Parse error: timestamp is not a positive integer");
    assert_eq!(parse(ParseError::Sent), "Parse error: sent is not an array of bytes");
    assert_eq!(parse(ParseError::Received), "Parse error: received is not an array of bytes");
    assert_eq!(parse(ParseError::Ranges), "Parse error: ranges is not an array of ranges");
    assert_eq!(
        parse(ParseError::Signature),
        "Parse error: signature is not an array of bytes with or without a key"
    );
    assert_eq!(
        VerifyError::Signature(SignatureError::Empty).message(),
        "Verification failed: signature error: the signature is empty"
    );
    assert_eq!(
        VerifyError::Signature(SignatureError::Rejected).message(),
        "Verification failed: signature error: the signature does not match the session header"
    );
    let proof = |fault: RangeFault| VerifyError::Proof(ProofError { index: 3, fault }).message();
    assert_eq!(
        proof(RangeFault::Inverted),
        "Verification failed: proof error: a range ends before it starts"
    );
    assert_eq!(
        proof(RangeFault::OutOfBounds),
        "Verification failed: proof error: a range ends beyond the transcript"
    );
    assert_eq!(
        proof(RangeFault::EmptyFlag),
        "Verification failed: proof error: a range is empty and does not declare so"
    );
    assert_eq!(
        proof(RangeFault::Overlap),
        "Verification failed: proof error: the ranges overlap or are out of order"
    );
    assert_eq!(
        proof(RangeFault::Unauthenticated),
        "Verification failed: proof error: a range does not hash to the committed root"
    );
}
