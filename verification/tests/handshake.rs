use mtls_echo::cert::Certificate;
use mtls_echo::errors::HandshakeError;
use mtls_echo::session::{
    accept, connect, extract, validate_chain, HandshakeObservation, SessionState,
};
use mtls_echo::trust::{Identity, TrustStore};
use rcgen::{BasicConstraints, CertificateParams, DistinguishedName, DnType, IsCa, Issuer, KeyPair};

const NOW: i64 = 1_700_000_000;

fn ca_params(cn: &str) -> CertificateParams {
    let mut params = CertificateParams::new(Vec::<String>::new()).unwrap();
    params.is_ca = IsCa::Ca(BasicConstraints::Unconstrained);
    let mut dn = DistinguishedName::new();
    dn.push(DnType::CommonName, cn);
    params.distinguished_name = dn;
    params
}

fn make_ca(cn: &str) -> (Vec<u8>, Issuer<'static, KeyPair>) {
    let key = KeyPair::generate().unwrap();
    let params = ca_params(cn);
    let der = params.self_signed(&key).unwrap().der().as_ref().to_vec();
    (der, Issuer::new(params, key))
}

fn leaf_signed_by(ca: &Issuer<'_, KeyPair>, cn: &str, sans: Vec<String>) -> Vec<u8> {
    let key = KeyPair::generate().unwrap();
    let mut params = CertificateParams::new(sans).unwrap();
    let mut dn = DistinguishedName::new();
    dn.push(DnType::CommonName, cn);
    params.distinguished_name = dn;
    params
        .signed_by(&key, ca)
        .unwrap()
        .der()
        .as_ref()
        .to_vec()
}

fn observed(chain: Option<Vec<Certificate>>) -> HandshakeObservation {
    HandshakeObservation { peer_chain: chain, now: NOW, protocol_ok: true, local_key_ok: true }
}

fn some_identity() -> Identity {
    let (_ca_der, ca) = make_ca("id-ca");
    let leaf = leaf_signed_by(&ca, "endpoint", Vec::new());
    Identity::build(b"key-bytes".to_vec(), vec![Certificate::new(leaf)]).unwrap()
}

#[test]
fn handshake_succeeds_with_shared_ca() {
    let (ca_der, ca) = make_ca("ca-x");
    let client_leaf = leaf_signed_by(&ca, "client", Vec::new());
    let trust = TrustStore::build(vec![Certificate::new(ca_der)]).unwrap();
    let obs = observed(Some(vec![Certificate::new(client_leaf)]));
    let session = accept(&some_identity(), &trust, obs).unwrap();
    assert_eq!(session.state, SessionState::Authenticated);
    let id = extract(&session).unwrap();
    assert_eq!(id.common_name.as_deref(), Some("ca-x"));
    assert!(!id.public_key.is_empty());
}

#[test]
fn chain_with_intermediate_validates() {
    let (root_der, root) = make_ca("root");
    let inter_key = KeyPair::generate().unwrap();
    let inter_params = ca_params("intermediate");
    let inter_der = inter_params
        .signed_by(&inter_key, &root)
        .unwrap()
        .der()
        .as_ref()
        .to_vec();
    let inter = Issuer::new(inter_params, inter_key);
    let leaf_der = leaf_signed_by(&inter, "deep-client", Vec::new());
    let trust = TrustStore::build(vec![Certificate::new(root_der)]).unwrap();
    let chain = vec![Certificate::new(leaf_der), Certificate::new(inter_der)];
    assert!(validate_chain(&chain, &trust, NOW));
    let session = accept(&some_identity(), &trust, observed(Some(chain))).unwrap();
    let id = extract(&session).unwrap();
    assert_eq!(id.common_name.as_deref(), Some("intermediate"));
}

#[test]
fn unknown_ca_is_rejected() {
    let (_x_der, ca_x) = make_ca("ca-x");
    let (y_der, _ca_y) = make_ca("ca-y");
    let client_leaf = leaf_signed_by(&ca_x, "client", Vec::new());
    let trust = TrustStore::build(vec![Certificate::new(y_der)]).unwrap();
    let chain = vec![Certificate::new(client_leaf)];
    assert!(!validate_chain(&chain, &trust, NOW));
    let r = accept(&some_identity(), &trust, observed(Some(chain)));
    assert_eq!(r.err(), Some(HandshakeError::ChainValidationFailed));
}

#[test]
fn missing_client_certificate_is_rejected() {
    let (ca_der, _ca) = make_ca("ca-x");
    let trust = TrustStore::build(vec![Certificate::new(ca_der)]).unwrap();
    let r = accept(&some_identity(), &trust, observed(None));
    assert_eq!(r.err(), Some(HandshakeError::NoPeerCertificate));
}

#[test]
fn expired_certificate_is_rejected() {
    let (ca_der, ca) = make_ca("ca-x");
    let client_leaf = leaf_signed_by(&ca, "client", Vec::new());
    let trust = TrustStore::build(vec![Certificate::new(ca_der)]).unwrap();
    let mut obs = observed(Some(vec![Certificate::new(client_leaf)]));
    obs.now = 100_000_000_000;
    let r = accept(&some_identity(), &trust, obs);
    assert_eq!(r.err(), Some(HandshakeError::ChainValidationFailed));
}

#[test]
fn transport_reports_map_to_errors() {
    let (ca_der, ca) = make_ca("ca-x");
    let client_leaf = leaf_signed_by(&ca, "client", Vec::new());
    let trust = TrustStore::build(vec![Certificate::new(ca_der)]).unwrap();
    let mut obs = observed(Some(vec![Certificate::new(client_leaf.clone())]));
    obs.protocol_ok = false;
    let r = accept(&some_identity(), &trust, obs);
    assert_eq!(r.err(), Some(HandshakeError::ProtocolError));
    let mut obs = observed(Some(vec![Certificate::new(client_leaf)]));
    obs.local_key_ok = false;
    let r = accept(&some_identity(), &trust, obs);
    assert_eq!(r.err(), Some(HandshakeError::IdentityMaterialInvalid));
}

#[test]
fn connect_checks_server_name() {
    let (ca_der, ca) = make_ca("server-ca");
    let server_leaf = leaf_signed_by(&ca, "srv", vec!["localhost".to_string()]);
    let trust = TrustStore::build(vec![Certificate::new(ca_der)]).unwrap();
    let id = some_identity();
    let obs = observed(Some(vec![Certificate::new(server_leaf.clone())]));
    let session = connect(&id, &trust, "localhost", obs).unwrap();
    assert_eq!(session.state, SessionState::Authenticated);
    let obs = observed(Some(vec![Certificate::new(server_leaf)]));
    let r = connect(&id, &trust, "elsewhere", obs);
    assert_eq!(r.err(), Some(HandshakeError::HostnameMismatch));
}

#[test]
fn connect_falls_back_to_common_name() {
    let (ca_der, ca) = make_ca("server-ca");
    let server_leaf = leaf_signed_by(&ca, "bare-name", Vec::new());
    let trust = TrustStore::build(vec![Certificate::new(ca_der)]).unwrap();
    let id = some_identity();
    let obs = observed(Some(vec![Certificate::new(server_leaf)]));
    let session = connect(&id, &trust, "bare-name", obs).unwrap();
    assert_eq!(session.state, SessionState::Authenticated);
}

#[test]
fn malformed_trust_material_is_refused_at_startup() {
    let (ca_der, _ca) = make_ca("good");
    let bad = vec![0xDEu8, 0xAD, 0xBE, 0xEF];
    let r = TrustStore::build(vec![Certificate::new(ca_der.clone()), Certificate::new(bad.clone())]);
    assert_eq!(r.err().map(|e| e.index), Some(1));
    let r = Identity::build(b"k".to_vec(), vec![Certificate::new(bad)]);
    assert_eq!(r.err().map(|e| e.index), Some(0));
    assert!(Identity::build(b"k".to_vec(), vec![Certificate::new(ca_der)]).is_ok());
}

#[test]
fn empty_chain_never_validates() {
    let (ca_der, _ca) = make_ca("ca-x");
    let trust = TrustStore::build(vec![Certificate::new(ca_der)]).unwrap();
    assert!(!validate_chain(&Vec::new(), &trust, NOW));
}

#[test]
fn closing_keeps_the_chain() {
    let (ca_der, ca) = make_ca("ca-x");
    let client_leaf = leaf_signed_by(&ca, "client", Vec::new());
    let trust = TrustStore::build(vec![Certificate::new(ca_der)]).unwrap();
    let mut session =
        accept(&some_identity(), &trust, observed(Some(vec![Certificate::new(client_leaf)])))
            .unwrap();
    session.close();
    assert_eq!(session.state, SessionState::Closed);
    assert_eq!(session.peer_chain.len(), 1);
}
