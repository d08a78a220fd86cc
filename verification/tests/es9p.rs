use base64::Engine;
use edge_modem::certificate::Certificate;
use edge_modem::es9p::{
    hash_confirmation_code, initiate_authentication_request, judge_credentials,
    load_trust_anchors, parse_initiate_authentication, post_request, read_answer,
    require_certificates, start_from_fields, tls_or_io, trust_dir, verify_server_credentials,
    AnswerReader, AuthenticationFields, AuthenticationStart, Es9pClient, Es9pError,
    ExecutionFields, OctetField, ServerSigned1, TrustAnchor, TrustFile,
};
use edge_modem::http::HttpResponse;
use ring::rand::SystemRandom;
use ring::signature::{
    EcdsaKeyPair, KeyPair, ECDSA_P256_SHA256_ASN1_SIGNING, ECDSA_P256_SHA256_FIXED_SIGNING,
};

const HOST: &str = "smdp.example.com";
const CHALLENGE: [u8; 16] = [0x5a; 16];

fn der(tag: &[u8], value: &[u8]) -> Vec<u8> {
    let mut out = tag.to_vec();
    if value.len() < 0x80 {
        out.push(value.len() as u8);
    } else if value.len() < 0x100 {
        out.extend_from_slice(&[0x81, value.len() as u8]);
    } else {
        out.extend_from_slice(&[0x82, (value.len() >> 8) as u8, value.len() as u8]);
    }
    out.extend_from_slice(value);
    out
}

fn sequence(parts: &[Vec<u8>]) -> Vec<u8> {
    der(&[0x30], &parts.concat())
}

fn bit_string(value: &[u8]) -> Vec<u8> {
    der(&[0x03], &[&[0x00][..], value].concat())
}

fn name(text: &str) -> Vec<u8> {
    let attribute = sequence(&[der(&[0x06], &[0x55, 0x04, 0x03]), der(&[0x0c], text.as_bytes())]);
    sequence(&[der(&[0x31], &attribute)])
}

/// A certificate for `public_key` under these key identifiers, signed by
/// `signer`.
fn certificate(
    signer: &EcdsaKeyPair,
    public_key: &[u8],
    subject_key_id: &[u8],
    authority_key_id: &[u8],
) -> Vec<u8> {
    let algorithm = sequence(&[der(&[0x06], &[0x2a, 0x86, 0x48, 0xce, 0x3d, 0x04, 0x03, 0x02])]);
    let spki = sequence(&[
        sequence(&[
            der(&[0x06], &[0x2a, 0x86, 0x48, 0xce, 0x3d, 0x02, 0x01]),
            der(&[0x06], &[0x2a, 0x86, 0x48, 0xce, 0x3d, 0x03, 0x01, 0x07]),
        ]),
        bit_string(public_key),
    ]);
    let extensions = sequence(&[
        sequence(&[
            der(&[0x06], &[0x55, 0x1d, 0x0e]),
            der(&[0x04], &der(&[0x04], subject_key_id)),
        ]),
        sequence(&[
            der(&[0x06], &[0x55, 0x1d, 0x23]),
            der(&[0x04], &sequence(&[der(&[0x80], authority_key_id)])),
        ]),
    ]);
    let tbs = sequence(&[
        der(&[0xa0], &der(&[0x02], &[0x02])),
        der(&[0x02], &[0x01]),
        algorithm.clone(),
        name("root"),
        sequence(&[der(&[0x17], b"240101000000Z"), der(&[0x17], b"340101000000Z")]),
        name("subject"),
        spki,
        der(&[0xa3], &extensions),
    ]);
    let signature = signer.sign(&SystemRandom::new(), &tbs).expect("sign");
    sequence(&[tbs, algorithm, bit_string(signature.as_ref())])
}

fn pkcs8() -> Vec<u8> {
    EcdsaKeyPair::generate_pkcs8(&ECDSA_P256_SHA256_ASN1_SIGNING, &SystemRandom::new())
        .expect("key")
        .as_ref()
        .to_vec()
}

fn asn1_key(pkcs8: &[u8]) -> EcdsaKeyPair {
    EcdsaKeyPair::from_pkcs8(&ECDSA_P256_SHA256_ASN1_SIGNING, pkcs8, &SystemRandom::new())
        .expect("key")
}

fn fixed_key(pkcs8: &[u8]) -> EcdsaKeyPair {
    EcdsaKeyPair::from_pkcs8(&ECDSA_P256_SHA256_FIXED_SIGNING, pkcs8, &SystemRandom::new())
        .expect("key")
}

fn base64_text(bytes: &[u8]) -> String {
    base64::engine::general_purpose::STANDARD.encode(bytes)
}

fn pem(der: &[u8]) -> Vec<u8> {
    format!("-----BEGIN CERTIFICATE-----\n{}\n-----END CERTIFICATE-----\n", base64_text(der))
        .into_bytes()
}

/// A server with a root, and what it answers to a challenge.
struct Server {
    root: Vec<u8>,
    certificate: Vec<u8>,
    signed: Vec<u8>,
    signature: Vec<u8>,
}

fn server(address: &str, challenge: &[u8]) -> Server {
    let root_key = asn1_key(&pkcs8());
    let root = certificate(&root_key, root_key.public_key().as_ref(), &[0x11; 20], &[0x11; 20]);
    let server_pkcs8 = pkcs8();
    let server_key = fixed_key(&server_pkcs8);
    let own = certificate(&root_key, server_key.public_key().as_ref(), &[0x22; 20], &[0x11; 20]);
    let signed = sequence(&[
        der(&[0x80], &[0xaa, 0xbb]),
        der(&[0x81], challenge),
        der(&[0x83], address.as_bytes()),
        der(&[0x84], &[0x77; 16]),
    ]);
    let signature = server_key.sign(&SystemRandom::new(), &signed).expect("sign");
    Server {
        root,
        certificate: own,
        signed,
        signature: der(&[0x5f, 0x37], signature.as_ref()),
    }
}

impl Server {
    fn anchors(&self) -> Vec<TrustAnchor> {
        let files = vec![TrustFile { label: "root.pem".into(), bytes: Ok(pem(&self.root)) }];
        load_trust_anchors("/etc/trust", &files).expect("anchors")
    }

    fn body(&self) -> String {
        format!(
            "{{\"header\":{{\"functionExecutionStatus\":{{\"status\":\"Executed-Success\"}}}},\
             \"transactionId\":\"aabb\",\"serverSigned1\":\"{}\",\"serverSignature1\":\"{}\",\
             \"serverCertificate\":\"{}\",\"euiccCiPKIdToBeUsed\":\"{}\"}}",
            base64_text(&self.signed),
            base64_text(&self.signature),
            base64_text(&self.certificate),
            base64_text(&der(&[0x04], &[0x11; 20])),
        )
    }

    fn start(&self) -> AuthenticationStart {
        parse_initiate_authentication(self.body().as_bytes()).expect("start")
    }
}

#[test]
fn a_checked_answer_passes() {
    let server = server(HOST, &CHALLENGE);
    let anchors = server.anchors();
    assert_eq!(anchors.len(), 1);
    assert_eq!(anchors[0].label, "root.pem");
    assert_eq!(anchors[0].key_id, "11".repeat(20));
    assert_eq!(anchors[0].not_after, "340101000000Z");
    assert_eq!(anchors[0].sha256.len(), 64);
    let start = server.start();
    assert_eq!(start.transaction_id, "AABB");
    assert_eq!(start.echoed_euicc_challenge, "5A".repeat(16));
    assert_eq!(start.server_challenge, "77".repeat(16));
    assert_eq!(start.euicc_ci_pkid_to_be_used, "11".repeat(20));
    let verified =
        verify_server_credentials(&start, HOST, &CHALLENGE, &anchors).expect("verified");
    assert_eq!(verified.trust_anchor_label, "root.pem");
    assert_eq!(verified.certificate_key_id, "22".repeat(20));
    assert_eq!(verified.certificate_authority_key_id, "11".repeat(20));
    assert!(verified.certificate_signed_by_ci);
    assert!(verified.server_signature_valid);
    assert!(verified.challenge_echoed);
}

/// Some servers send the bare pair, whatever its octets look like.
#[test]
fn a_bare_signature_passes() {
    for _ in 0..8 {
        let server = server(HOST, &CHALLENGE);
        let mut start = server.start();
        start.server_signature1.drain(..3);
        assert_eq!(start.server_signature1.len(), 64);
        assert!(verify_server_credentials(&start, HOST, &CHALLENGE, &server.anchors()).is_ok());
        start.server_signature1.pop();
        assert!(matches!(
            verify_server_credentials(&start, HOST, &CHALLENGE, &server.anchors()),
            Err(Es9pError::MalformedServerSigned { .. })
        ));
    }
}

#[test]
fn a_client_checks_what_it_hands_on() {
    let server = server(HOST, &CHALLENGE);
    let client = Es9pClient::new(server.anchors()).expect("client");
    assert_eq!(client.anchors().len(), 1);
    let response = HttpResponse {
        status: 200,
        headers: vec![("x-admin-protocol".into(), "gsma/rsp/v2.2.0".into())],
        body: server.body().into_bytes(),
        tls_version: Some("TLSv1_3".into()),
    };
    let start =
        client.initiate_authentication(HOST, &CHALLENGE, &response, 42).expect("start");
    assert_eq!(start.smdp_address, HOST);
    assert_eq!(start.http_status, 200);
    assert_eq!(start.elapsed_ms, 42);
    assert_eq!(start.admin_protocol.as_deref(), Some("gsma/rsp/v2.2.0"));
    assert_eq!(start.negotiated_tls.as_deref(), Some("TLSv1_3"));
    assert!(start.verification.server_signature_valid);
}

#[test]
fn a_replayed_answer_is_refused() {
    let server = server(HOST, &[0x01; 16]);
    assert_eq!(
        verify_server_credentials(&server.start(), HOST, &CHALLENGE, &server.anchors()),
        Err(Es9pError::ChallengeMismatch { sent: "5A".repeat(16), echoed: "01".repeat(16) })
    );
}

#[test]
fn an_answer_for_another_address_is_refused() {
    let server = server("other.example.com", &CHALLENGE);
    assert_eq!(
        verify_server_credentials(&server.start(), HOST, &CHALLENGE, &server.anchors()),
        Err(Es9pError::AddressMismatch {
            asked: HOST.into(),
            signed: "other.example.com".into()
        })
    );
}

#[test]
fn a_certificate_of_another_root_is_refused() {
    let own = server(HOST, &CHALLENGE);
    let other = server(HOST, &CHALLENGE);
    // The other root has the same key identifier and another key.
    assert_eq!(
        verify_server_credentials(&own.start(), HOST, &CHALLENGE, &other.anchors()),
        Err(Es9pError::CertificateSignatureInvalid)
    );
    assert_eq!(
        verify_server_credentials(&own.start(), HOST, &CHALLENGE, &[]),
        Err(Es9pError::UntrustedCertificateAuthority { authority_key_id: "11".repeat(20) })
    );
}

#[test]
fn a_signature_over_something_else_is_refused() {
    let server = server(HOST, &CHALLENGE);
    let mut start = server.start();
    let last = start.server_signed1.len() - 1;
    start.server_signed1[last] ^= 1;
    assert_eq!(
        verify_server_credentials(&start, HOST, &CHALLENGE, &server.anchors()),
        Err(Es9pError::ServerSignatureInvalid)
    );
}

#[test]
fn a_certificate_is_read_field_by_field() {
    let server = server(HOST, &CHALLENGE);
    let own = Certificate::parse(&server.certificate).expect("certificate");
    assert_eq!(own.subject_key_id.as_deref(), Some("22".repeat(20).as_str()));
    assert_eq!(own.authority_key_id.as_deref(), Some("11".repeat(20).as_str()));
    assert_eq!(own.not_after, "340101000000Z");
    assert_eq!(own.public_key.len(), 65);
    assert!(matches!(
        Certificate::parse(&sequence(&[der(&[0x02], &[0x01])])),
        Err(Es9pError::MalformedCertificate { .. })
    ));
    assert!(matches!(
        Certificate::parse(&[0x30]),
        Err(Es9pError::MalformedCertificate { .. })
    ));
}

#[test]
fn each_bad_answer_is_named() {
    assert!(matches!(
        parse_initiate_authentication(b"{"),
        Err(Es9pError::MalformedJson { .. })
    ));
    assert_eq!(
        parse_initiate_authentication(b"{}").map(|_| ()),
        Err(Es9pError::MissingField { name: "header.functionExecutionStatus.status" })
    );
    let refused = "{\"header\":{\"functionExecutionStatus\":{\"status\":\"Failed\",\
                   \"statusCodeData\":{\"subjectCode\":\"8.2.6\",\"reasonCode\":\"3.8\"}}}}";
    assert_eq!(
        parse_initiate_authentication(refused.as_bytes()).map(|_| ()),
        Err(Es9pError::FunctionFailed {
            status: "Failed".into(),
            subject_code: Some("8.2.6".into()),
            reason_code: Some("3.8".into()),
            message: None
        })
    );
    let server = server(HOST, &CHALLENGE);
    let body = server.body().replace("\"transactionId\":\"aabb\",", "");
    assert_eq!(
        parse_initiate_authentication(body.as_bytes()).map(|_| ()),
        Err(Es9pError::MissingField { name: "transactionId" })
    );
    let body = server.body().replace(&base64_text(&server.signed), "***");
    assert_eq!(
        parse_initiate_authentication(body.as_bytes()).map(|_| ()),
        Err(Es9pError::BadBase64 { field: "serverSigned1" })
    );
    assert!(matches!(
        ServerSigned1::parse(&der(&[0x31], &[])),
        Err(Es9pError::MalformedServerSigned { .. })
    ));
    assert!(matches!(
        ServerSigned1::parse(&sequence(&[])),
        Err(Es9pError::MissingField { .. })
    ));
}

#[test]
fn a_request_carries_its_fields_in_base64() {
    let body = initiate_authentication_request(HOST, b"abc", b"defg");
    let value: serde_json::Value = serde_json::from_str(&body).expect("json");
    assert_eq!(value["euiccChallenge"], serde_json::Value::from("YWJj"));
    assert_eq!(value["euiccInfo1"], serde_json::Value::from("ZGVmZw=="));
    assert_eq!(value["smdpAddress"], serde_json::Value::from(HOST));
    assert_eq!(value.as_object().map(|fields| fields.len()), Some(3));
}

#[test]
fn a_post_names_its_host_and_its_length() {
    let request = post_request(HOST, "/gsma/rsp2/es9plus/x", b"{}").expect("request");
    let text = String::from_utf8(request).expect("text");
    assert!(text.starts_with("POST /gsma/rsp2/es9plus/x HTTP/1.1\r\nHost: smdp.example.com\r\n"));
    assert!(text.contains("\r\nContent-Length: 2\r\n"));
    assert!(text.ends_with("\r\nConnection: close\r\n\r\n{}"));
    assert_eq!(
        post_request("not a host", "/", b"{}"),
        Err(Es9pError::InvalidHost { host: "not a host".into() })
    );
}

#[test]
fn an_answer_is_read_whole_or_refused() {
    let response = read_answer(
        b"HTTP/1.1 200 OK\r\nX-Admin-Protocol: gsma\r\nContent-Length: 2\r\n\r\n{}tail",
        Some("TLSv1_2".into()),
    )
    .expect("answer");
    assert_eq!(response.status, 200);
    assert_eq!(response.body, b"{}");
    assert_eq!(response.header("x-admin-protocol").as_deref(), Some("gsma"));
    assert_eq!(response.tls_version.as_deref(), Some("TLSv1_2"));
    assert_eq!(
        read_answer(b"HTTP/1.1 404 Not Found\r\n\r\nnothing here", None),
        Err(Es9pError::HttpStatus { status: 404, body: "nothing here".into() })
    );
    let chunked = HttpResponse::parse(
        b"HTTP/1.1 200 OK\r\nTransfer-Encoding: chunked\r\n\r\n3;x\r\nabc\r\n2\r\nde\r\n0\r\n\r\n",
    )
    .expect("chunked");
    assert_eq!(chunked.body, b"abcde");
    for (raw, reason) in [
        ("HTTP/1.1 200 OK\r\n", "no header terminator"),
        ("HTTP/1.1\r\n\r\n", "unreadable status line \"HTTP/1.1\""),
        (
            "HTTP/1.1 200 OK\r\nContent-Length: 5\r\n\r\nab",
            "body is 2 bytes, Content-Length says 5",
        ),
        (
            "HTTP/1.1 200 OK\r\nTransfer-Encoding: chunked\r\n\r\nzz\r\n",
            "unreadable chunk size \"zz\"",
        ),
        (
            "HTTP/1.1 200 OK\r\nTransfer-Encoding: chunked\r\n\r\n5\r\nab\r\n",
            "chunk shorter than its declared size",
        ),
    ] {
        assert_eq!(
            HttpResponse::parse(raw.as_bytes()).map(|_| ()),
            Err(Es9pError::MalformedHttp { reason: reason.into() })
        );
    }
}

#[test]
fn an_answer_has_a_limit() {
    let mut reader = AnswerReader::new();
    assert_eq!(reader.take(&vec![0; 1_048_576]), Ok(()));
    assert_eq!(
        reader.take(&[0]),
        Err(Es9pError::MalformedHttp { reason: "answer exceeded 1048576 bytes".into() })
    );
}

#[test]
fn a_rejected_certificate_is_a_tls_failure() {
    assert_eq!(
        tls_or_io(HOST, "invalid peer certificate: UnknownIssuer"),
        Es9pError::TlsFailed {
            host: HOST.into(),
            reason: "invalid peer certificate: UnknownIssuer".into()
        }
    );
    assert_eq!(
        tls_or_io(HOST, "connection reset"),
        Es9pError::IoFailed { reason: "connection reset".into() }
    );
}

#[test]
fn trust_comes_from_certificates_in_a_directory() {
    assert_eq!(trust_dir(None), "/etc/vodoge/rsp-trust");
    assert_eq!(trust_dir(Some("/tmp/trust")), "/tmp/trust");
    assert_eq!(
        load_trust_anchors("/etc/trust", &[]),
        Err(Es9pError::NoTrustAnchors { dir: "/etc/trust".into() })
    );
    let broken = vec![TrustFile { label: "bad.pem".into(), bytes: Ok(pem(b"garbage")) }];
    assert!(load_trust_anchors("/etc/trust", &broken).is_err());
    // A file that holds no certificate is not passed over, whatever its name.
    let stray = vec![TrustFile { label: "notes.txt".into(), bytes: Ok(b"to do".to_vec()) }];
    assert_eq!(
        load_trust_anchors("/etc/trust", &stray),
        Err(Es9pError::TrustAnchorUnusable {
            file: "notes.txt".into(),
            reason: "no CERTIFICATE block".into()
        })
    );
    let locked = vec![
        TrustFile { label: "a.pem".into(), bytes: Err("permission denied".into()) },
        TrustFile { label: "b.pem".into(), bytes: Ok(pem(b"garbage")) },
    ];
    assert_eq!(
        load_trust_anchors("/etc/trust", &locked),
        Err(Es9pError::TrustAnchorUnusable {
            file: "a.pem".into(),
            reason: "permission denied".into()
        })
    );
    assert_eq!(trust_dir(Some("  ")), "/etc/vodoge/rsp-trust");
    assert_eq!(
        Es9pClient::new(Vec::new()).map(|_| ()),
        Err(Es9pError::NoTrustAnchors { dir: "(none supplied)".into() })
    );
    let server = server(HOST, &CHALLENGE);
    let mut anchors = server.anchors();
    anchors[0].der = vec![0x30, 0x00];
    assert!(matches!(
        Es9pClient::new(anchors).map(|_| ()),
        Err(Es9pError::TrustAnchorUnusable { .. })
    ));
}

#[test]
fn a_confirmation_code_is_hashed_with_its_transaction() {
    let inner = ring::digest::digest(&ring::digest::SHA256, b"1234");
    let outer = ring::digest::digest(
        &ring::digest::SHA256,
        &[inner.as_ref(), &[0xaa, 0xbb][..]].concat(),
    );
    assert_eq!(hash_confirmation_code("1234", &[0xaa, 0xbb]), outer.as_ref());
}

fn fields(server: &Server) -> AuthenticationFields {
    AuthenticationFields {
        execution: ExecutionFields {
            fault: None,
            status: Some("Executed-Success".into()),
            subject_code: None,
            reason_code: None,
            message: None,
        },
        transaction_id: Some("aabb".into()),
        server_signed1: OctetField::Octets(server.signed.clone()),
        server_signature1: OctetField::Octets(server.signature.clone()),
        server_certificate: OctetField::Octets(server.certificate.clone()),
        euicc_ci_pkid: OctetField::Octets(vec![0x11; 20]),
    }
}

#[test]
fn the_fields_of_an_answer_make_the_start() {
    let server = server(HOST, &CHALLENGE);
    let start = start_from_fields(fields(&server)).expect("start");
    assert_eq!(start.transaction_id, "AABB");
    assert_eq!(start.server_address, HOST);
    assert_eq!(start.echoed_euicc_challenge, "5A".repeat(16));
    assert_eq!(start.euicc_ci_pkid_to_be_used, "11".repeat(20));
    let mut refused = fields(&server);
    refused.execution.status = Some("Failed".into());
    refused.execution.subject_code = Some("8.1".into());
    assert_eq!(
        start_from_fields(refused),
        Err(Es9pError::FunctionFailed {
            status: "Failed".into(),
            subject_code: Some("8.1".into()),
            reason_code: None,
            message: None,
        })
    );
    let mut broken = fields(&server);
    broken.execution.fault = Some("expected value".into());
    assert_eq!(
        start_from_fields(broken),
        Err(Es9pError::MalformedJson { reason: "expected value".into() })
    );
    let mut silent = fields(&server);
    silent.execution.status = None;
    assert_eq!(
        start_from_fields(silent),
        Err(Es9pError::MissingField { name: "header.functionExecutionStatus.status" })
    );
    let mut nameless = fields(&server);
    nameless.transaction_id = None;
    assert_eq!(
        start_from_fields(nameless),
        Err(Es9pError::MissingField { name: "transactionId" })
    );
    let mut garbled = fields(&server);
    garbled.server_signature1 = OctetField::NotBase64;
    garbled.server_certificate = OctetField::Missing;
    assert_eq!(
        start_from_fields(garbled),
        Err(Es9pError::BadBase64 { field: "serverSignature1" })
    );
}

#[test]
fn each_check_on_an_answer_has_its_own_name() {
    let server = server(HOST, &CHALLENGE);
    let start = server.start();
    assert_eq!(judge_credentials(&start, HOST, &CHALLENGE, true, true), None);
    assert_eq!(judge_credentials(&start, &HOST.to_uppercase(), &CHALLENGE, true, true), None);
    assert_eq!(
        judge_credentials(&start, HOST, &CHALLENGE, false, true),
        Some(Es9pError::CertificateSignatureInvalid)
    );
    assert_eq!(
        judge_credentials(&start, HOST, &CHALLENGE, true, false),
        Some(Es9pError::ServerSignatureInvalid)
    );
    assert_eq!(
        judge_credentials(&start, HOST, &[0x01; 16], true, true),
        Some(Es9pError::ChallengeMismatch { sent: "01".repeat(16), echoed: "5A".repeat(16) })
    );
    assert_eq!(
        judge_credentials(&start, "other.example.com", &CHALLENGE, true, true),
        Some(Es9pError::AddressMismatch { asked: "other.example.com".into(), signed: HOST.into() })
    );
}

#[test]
fn a_trust_file_has_to_hold_a_certificate() {
    assert_eq!(require_certificates("a.pem", Ok(vec![vec![0x30]])), Ok(vec![vec![0x30]]));
    assert_eq!(
        require_certificates("a.pem", Ok(vec![])),
        Err(Es9pError::TrustAnchorUnusable {
            file: "a.pem".into(),
            reason: "no CERTIFICATE block".into()
        })
    );
    assert_eq!(
        require_certificates("a.pem", Err("bad line".into())),
        Err(Es9pError::TrustAnchorUnusable { file: "a.pem".into(), reason: "bad line".into() })
    );
}
