use vstd::prelude::*;

use crate::cert::{
    cert_dns_names, cert_not_after, cert_not_before, cert_subject_attrs, chain_views, dns_names,
    extract_from_leaf, first_cn, identity_of, parse_ok, signature_checks, subject_attrs,
    validity_range, x509_parses, Certificate, PeerIdentity,
};
use crate::errors::{CertificateParseError, HandshakeError};
use crate::trust::{Identity, TrustStore};

verus! {

/// The lifecycle of a session that authenticated. A failed handshake never
/// produces a session value at all.
#[derive(Clone, Copy, Debug, PartialEq, Eq, Structural)]
pub enum SessionState {
    Authenticated,
    Closed,
}

/// One authenticated connection: the peer chain retained by the handshake,
/// for the identity extractor, and the session's state.
pub struct Session {
    pub peer_chain: Vec<Certificate>,
    pub state: SessionState,
}

impl Session {
    /// Every session built by a successful handshake retains a non-empty
    /// peer chain.
    pub open spec fn wf(self) -> bool {
        self.peer_chain@.len() > 0
    }

    /// Close the session. The retained chain is unchanged; only new reads
    /// and writes are refused by the owner of the transport.
    pub fn close(&mut self)
        ensures
            final(self).state == SessionState::Closed,
            final(self).peer_chain@ == old(self).peer_chain@,
    {
        self.state = SessionState::Closed;
    }
}

/// What the transport-level handshake observed, handed to the trust
/// decision: the certificate chain the peer presented (if any), the
/// wall-clock time in epoch seconds, and the transport's reports on message
/// framing and on the local key matching the local certificate.
pub struct HandshakeObservation {
    pub peer_chain: Option<Vec<Certificate>>,
    pub now: i64,
    pub protocol_ok: bool,
    pub local_key_ok: bool,
}

pub ghost struct HandshakeView {
    pub peer_chain: Option<Seq<Seq<u8>>>,
    pub now: i64,
    pub protocol_ok: bool,
    pub local_key_ok: bool,
}

impl View for HandshakeObservation {
    type V = HandshakeView;

    open spec fn view(&self) -> HandshakeView {
        HandshakeView {
            peer_chain: match self.peer_chain {
                Some(c) => Some(chain_views(c@)),
                None => None,
            },
            now: self.now,
            protocol_ok: self.protocol_ok,
            local_key_ok: self.local_key_ok,
        }
    }
}

/// Whether certificate `c` covers the instant `now`.
pub open spec fn cert_time_valid(c: Seq<u8>, now: int) -> bool {
    cert_not_before(c) <= now <= cert_not_after(c)
}

/// Whether position `i` of a chain is sound: the certificate parses, covers
/// `now`, and is signed by its successor where one follows.
pub open spec fn link_ok(chain: Seq<Seq<u8>>, i: int, now: int) -> bool {
    &&& x509_parses(chain[i])
    &&& cert_time_valid(chain[i], now)
    &&& (i + 1 < chain.len() ==> crate::cert::sig_ok(chain[i], chain[i + 1]))
}

/// Whether every position of the chain is sound.
pub open spec fn chain_linked(chain: Seq<Seq<u8>>, now: int) -> bool {
    forall|i: int| 0 <= i < chain.len() ==> #[trigger] link_ok(chain, i, now)
}

/// Whether the chain terminates at some anchor of the store: its last
/// certificate is signed by any one of them.
pub open spec fn anchored(chain: Seq<Seq<u8>>, anchors: Seq<Seq<u8>>) -> bool {
    exists|j: int|
        0 <= j < anchors.len() && #[trigger] crate::cert::sig_ok(chain.last(), anchors[j])
}

/// Whether a presented chain validates against a trust store at time `now`:
/// non-empty, each certificate parsed, within its validity window and signed
/// by its successor, and the last signed by some trust anchor.
pub open spec fn chain_valid(chain: Seq<Seq<u8>>, anchors: Seq<Seq<u8>>, now: int) -> bool {
    &&& chain.len() > 0
    &&& chain_linked(chain, now)
    &&& anchored(chain, anchors)
}

/// Validate a presented certificate chain against the trust store.
pub fn validate_chain(chain: &Vec<Certificate>, trust: &TrustStore, now: i64) -> (r: bool)
    ensures
        r == chain_valid(chain_views(chain@), trust@, now as int),
{
    let ghost cv = chain_views(chain@);
    if chain.len() == 0 {
        return false;
    }
    let mut i: usize = 0;
    while i < chain.len()
        invariant
            i <= chain@.len(),
            chain@.len() > 0,
            cv == chain_views(chain@),
            forall|k: int| 0 <= k < i ==> #[trigger] link_ok(cv, k, now as int),
        decreases chain@.len() - i,
    {
        proof {
            assert(cv[i as int] == chain@[i as int]@);
        }
        let der = chain[i].der.as_slice();
        if !parse_ok(der) {
            proof {
                assert(!link_ok(cv, i as int, now as int));
            }
            return false;
        }
        let window = validity_range(der);
        if now < window.0 || now > window.1 {
            proof {
                assert(!link_ok(cv, i as int, now as int));
            }
            return false;
        }
        if i + 1 < chain.len() {
            proof {
                assert(cv[i as int + 1] == chain@[i as int + 1]@);
            }
            if !signature_checks(der, chain[i + 1].der.as_slice()) {
                proof {
                    assert(!link_ok(cv, i as int, now as int));
                }
                return false;
            }
        }
        proof {
            assert(link_ok(cv, i as int, now as int));
        }
        i = i + 1;
    }
    let last = chain.len() - 1;
    proof {
        assert(cv[last as int] == chain@[last as int]@);
        assert(cv.last() == cv[last as int]);
    }
    let mut j: usize = 0;
    while j < trust.anchors.len()
        invariant
            j <= trust.anchors@.len(),
            cv == chain_views(chain@),
            last == chain@.len() - 1,
            chain@.len() > 0,
            cv.last() == chain@[last as int]@,
            chain_linked(cv, now as int),
            forall|k: int|
                0 <= k < j ==> !#[trigger] crate::cert::sig_ok(cv.last(), trust@[k]),
        decreases trust.anchors@.len() - j,
    {
        proof {
            assert(trust@[j as int] == trust.anchors@[j as int]@);
        }
        if signature_checks(chain[last].der.as_slice(), trust.anchors[j].der.as_slice()) {
            proof {
                assert(anchored(cv, trust@));
            }
            return true;
        }
        j = j + 1;
    }
    proof {
        assert(!anchored(cv, trust@));
    }
    false
}

/// The server-side trust decision on what the handshake observed, in order:
/// local material, protocol shape, presence of a client certificate, then
/// validation of the presented chain against the trust store.
pub open spec fn accept_decision(obs: HandshakeView, anchors: Seq<Seq<u8>>) -> Result<
    Seq<Seq<u8>>,
    HandshakeError,
> {
    if !obs.local_key_ok {
        Err(HandshakeError::IdentityMaterialInvalid)
    } else if !obs.protocol_ok {
        Err(HandshakeError::ProtocolError)
    } else if obs.peer_chain is None {
        Err(HandshakeError::NoPeerCertificate)
    } else if !chain_valid(obs.peer_chain->Some_0, anchors, obs.now as int) {
        Err(HandshakeError::ChainValidationFailed)
    } else {
        Ok(obs.peer_chain->Some_0)
    }
}

/// Whether the certificate covers the server name: some DNS entry of its
/// subject alternative names equals the name, or, only where it has no DNS
/// entry at all, its subject's first Common Name does.
pub open spec fn hostname_matches(leaf: Seq<u8>, name: Seq<char>) -> bool {
    ||| cert_dns_names(leaf).contains(name)
    ||| (cert_dns_names(leaf).len() == 0 && first_cn(cert_subject_attrs(leaf)) == Some(name))
}

/// The client-side trust decision: the server-side checks, then the server
/// name check on the leaf.
pub open spec fn connect_decision(
    obs: HandshakeView,
    anchors: Seq<Seq<u8>>,
    name: Seq<char>,
) -> Result<Seq<Seq<u8>>, HandshakeError> {
    match accept_decision(obs, anchors) {
        Err(e) => Err(e),
        Ok(chain) => if !hostname_matches(chain[0], name) {
            Err(HandshakeError::HostnameMismatch)
        } else {
            Ok(chain)
        },
    }
}

/// Accept one connection in the server role: mutual authentication is
/// mandatory, so a peer that presents no chain, or one that does not
/// validate, gets an error and no session value at all.
pub fn accept(_local: &Identity, trust: &TrustStore, obs: HandshakeObservation) -> (r: Result<
    Session,
    HandshakeError,
>)
    ensures
        (match r {
            Ok(s) => accept_decision(obs@, trust@) == Ok::<Seq<Seq<u8>>, HandshakeError>(
                chain_views(s.peer_chain@),
            ) && s.state == SessionState::Authenticated && s.wf(),
            Err(e) => accept_decision(obs@, trust@) == Err::<Seq<Seq<u8>>, HandshakeError>(e),
        }),
{
    if !obs.local_key_ok {
        return Err(HandshakeError::IdentityMaterialInvalid);
    }
    if !obs.protocol_ok {
        return Err(HandshakeError::ProtocolError);
    }
    match obs.peer_chain {
        None => Err(HandshakeError::NoPeerCertificate),
        Some(chain) => {
            if !validate_chain(&chain, trust, obs.now) {
                Err(HandshakeError::ChainValidationFailed)
            } else {
                Ok(Session { peer_chain: chain, state: SessionState::Authenticated })
            }
        },
    }
}

/// Whether the leaf certificate covers the requested server name.
fn hostname_ok(leaf: &Certificate, name: &str) -> (r: bool)
    requires
        x509_parses(leaf@),
    ensures
        r == hostname_matches(leaf@, name@),
{
    let ghost all = cert_dns_names(leaf@);
    let names = dns_names(leaf.der.as_slice());
    let target: String = name.to_owned();
    let mut i: usize = 0;
    while i < names.len()
        invariant
            i <= names@.len(),
            target@ == name@,
            all == cert_dns_names(leaf@),
            names@.map_values(|s: String| s@) == all,
            forall|k: int| 0 <= k < i ==> all[k] != name@,
        decreases names@.len() - i,
    {
        proof {
            assert(all[i as int] == names@[i as int]@);
        }
        if names[i] == target {
            proof {
                assert(all.contains(name@));
            }
            return true;
        }
        i = i + 1;
    }
    proof {
        assert(forall|k: int| 0 <= k < all.len() ==> all[k] != name@);
        assert(!all.contains(name@));
    }
    if names.len() == 0 {
        let subject = subject_attrs(leaf.der.as_slice());
        match crate::cert::first_common_name(&subject) {
            Some(s) => s == target,
            None => false,
        }
    } else {
        false
    }
}

/// Connect in the client role: the server-side checks, and additionally the
/// server's leaf must cover the requested server name.
pub fn connect(
    local: &Identity,
    trust: &TrustStore,
    server_name: &str,
    obs: HandshakeObservation,
) -> (r: Result<Session, HandshakeError>)
    ensures
        (match r {
            Ok(s) => connect_decision(obs@, trust@, server_name@) == Ok::<
                Seq<Seq<u8>>,
                HandshakeError,
            >(chain_views(s.peer_chain@)) && s.state == SessionState::Authenticated && s.wf(),
            Err(e) => connect_decision(obs@, trust@, server_name@) == Err::<
                Seq<Seq<u8>>,
                HandshakeError,
            >(e),
        }),
{
    let ghost obs_v = obs@;
    let session = match accept(local, trust, obs) {
        Err(e) => {
            return Err(e);
        },
        Ok(s) => s,
    };
    let ghost cv = chain_views(session.peer_chain@);
    proof {
        assert(chain_valid(cv, trust@, obs_v.now as int));
        assert(link_ok(cv, 0, obs_v.now as int));
        assert(cv[0] == session.peer_chain@[0]@);
    }
    if !hostname_ok(&session.peer_chain[0], server_name) {
        return Err(HandshakeError::HostnameMismatch);
    }
    Ok(session)
}

/// Extract the peer's identity from the leaf (first) certificate of the
/// chain the session retained: that is the entity that authenticated, not an
/// intermediate or root of its chain.
pub fn extract(session: &Session) -> (r: Result<PeerIdentity, CertificateParseError>)
    requires
        session.wf(),
    ensures
        (r is Ok) == x509_parses(session.peer_chain@[0]@),
        (match r {
            Ok(id) => identity_of(id, session.peer_chain@[0]@),
            Err(_) => true,
        }),
{
    extract_from_leaf(&session.peer_chain[0])
}

/// A mutual handshake with sound material succeeds on both sides: when each
/// transport reports well-formed messages and matching local key material,
/// each peer presents a chain that validates against the shared trust store,
/// and the server's leaf covers the requested name, then the server accepts,
/// the client connects, and each side can decode the identity of the leaf it
/// retained, since a validated leaf always parses.
pub proof fn lemma_mutual_handshake_succeeds(
    server_obs: HandshakeView,
    client_obs: HandshakeView,
    anchors: Seq<Seq<u8>>,
    name: Seq<char>,
)
    requires
        server_obs.local_key_ok && server_obs.protocol_ok,
        client_obs.local_key_ok && client_obs.protocol_ok,
        server_obs.peer_chain is Some,
        client_obs.peer_chain is Some,
        chain_valid(server_obs.peer_chain->Some_0, anchors, server_obs.now as int),
        chain_valid(client_obs.peer_chain->Some_0, anchors, client_obs.now as int),
        hostname_matches(client_obs.peer_chain->Some_0[0], name),
    ensures
        accept_decision(server_obs, anchors) == Ok::<Seq<Seq<u8>>, HandshakeError>(
            server_obs.peer_chain->Some_0,
        ),
        connect_decision(client_obs, anchors, name) == Ok::<Seq<Seq<u8>>, HandshakeError>(
            client_obs.peer_chain->Some_0,
        ),
        x509_parses(server_obs.peer_chain->Some_0[0]),
        x509_parses(client_obs.peer_chain->Some_0[0]),
{
    assert(link_ok(server_obs.peer_chain->Some_0, 0, server_obs.now as int));
    assert(link_ok(client_obs.peer_chain->Some_0, 0, client_obs.now as int));
}

/// Every anchor of the store is an equally valid terminal: a non-empty,
/// linked chain whose last certificate is signed by any one anchor validates
/// against the whole store.
pub proof fn lemma_any_anchor_suffices(
    chain: Seq<Seq<u8>>,
    anchors: Seq<Seq<u8>>,
    now: int,
    j: int,
)
    requires
        chain.len() > 0,
        chain_linked(chain, now),
        0 <= j < anchors.len(),
        crate::cert::sig_ok(chain.last(), anchors[j]),
    ensures
        chain_valid(chain, anchors, now),
{
    assert(anchored(chain, anchors));
}

/// A peer that presents no certificate where one is required is refused as
/// `NoPeerCertificate`: no session value exists for it, so no request frame
/// of its connection is ever decoded.
pub proof fn lemma_no_certificate_refused(obs: HandshakeView, anchors: Seq<Seq<u8>>)
    requires
        obs.local_key_ok,
        obs.protocol_ok,
        obs.peer_chain is None,
    ensures
        accept_decision(obs, anchors) == Err::<Seq<Seq<u8>>, HandshakeError>(
            HandshakeError::NoPeerCertificate,
        ),
{
}

/// A chain whose last certificate is signed by no anchor of the trust store
/// is refused as `ChainValidationFailed`, on the server side and on the
/// client side alike, whatever else holds of the chain.
pub proof fn lemma_unanchored_chain_refused(
    obs: HandshakeView,
    anchors: Seq<Seq<u8>>,
    name: Seq<char>,
)
    requires
        obs.local_key_ok,
        obs.protocol_ok,
        obs.peer_chain is Some,
        !anchored(obs.peer_chain->Some_0, anchors),
    ensures
        accept_decision(obs, anchors) == Err::<Seq<Seq<u8>>, HandshakeError>(
            HandshakeError::ChainValidationFailed,
        ),
        connect_decision(obs, anchors, name) == Err::<Seq<Seq<u8>>, HandshakeError>(
            HandshakeError::ChainValidationFailed,
        ),
{
}

} // verus!
