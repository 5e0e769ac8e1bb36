use mtls_echo::cert::{Certificate, PeerIdentity};
use mtls_echo::echo::EchoServer;
use mtls_echo::frame::{FrameCodec, RequestFrame};
use mtls_echo::session::{accept, HandshakeObservation};
use mtls_echo::trust::{Identity, TrustStore};
use rcgen::{BasicConstraints, CertificateParams, DistinguishedName, DnType, IsCa, Issuer, KeyPair};

fn anonymous_caller() -> PeerIdentity {
    PeerIdentity { common_name: None, public_key: Vec::new(), issuer: Vec::new() }
}

#[test]
fn handle_echoes_the_message() {
    let server = EchoServer::default();
    let request = RequestFrame { message: b"hello1".to_vec() };
    let response = server.handle(&request, &anonymous_caller());
    assert_eq!(response.message, b"hello1".to_vec());
}

#[test]
fn handle_twice_gives_identical_output() {
    let server = EchoServer::default();
    let request = RequestFrame { message: b"same input".to_vec() };
    let caller = anonymous_caller();
    let first = server.handle(&request, &caller);
    let second = server.handle(&request, &caller);
    assert_eq!(first.message, second.message);
}

#[test]
fn two_calls_over_one_session() {
    let ca_key = KeyPair::generate().unwrap();
    let mut ca_cert_params = CertificateParams::new(Vec::<String>::new()).unwrap();
    ca_cert_params.is_ca = IsCa::Ca(BasicConstraints::Unconstrained);
    let mut dn = DistinguishedName::new();
    dn.push(DnType::CommonName, "ca-x");
    ca_cert_params.distinguished_name = dn;
    let ca_der = ca_cert_params.self_signed(&ca_key).unwrap().der().as_ref().to_vec();
    let ca = Issuer::new(ca_cert_params, ca_key);

    let leaf_key = KeyPair::generate().unwrap();
    let leaf_params = CertificateParams::new(Vec::<String>::new()).unwrap();
    let leaf_der = leaf_params.signed_by(&leaf_key, &ca).unwrap().der().as_ref().to_vec();

    let trust = TrustStore::build(vec![Certificate::new(ca_der)]).unwrap();
    let local = Identity::build(b"k".to_vec(), Vec::new()).unwrap();
    let obs = HandshakeObservation {
        peer_chain: Some(vec![Certificate::new(leaf_der)]),
        now: 1_700_000_000,
        protocol_ok: true,
        local_key_ok: true,
    };
    let session = accept(&local, &trust, obs).unwrap();

    let codec = FrameCodec::new(1024);
    let server = EchoServer::default();
    for text in ["hello1", "hello2"] {
        let wire = codec.encode_request(&RequestFrame { message: text.as_bytes().to_vec() });
        let request = codec.decode_request(&wire).unwrap();
        let response = server.unary_echo(&request, &session).unwrap();
        let wire_back = codec.encode_response(&response);
        let back = codec.decode_response(&wire_back).unwrap();
        assert_eq!(back.message, text.as_bytes().to_vec());
    }
}
