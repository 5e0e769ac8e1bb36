use vstd::prelude::*;

use crate::cert::{chain_views, parse_ok, x509_parses, Certificate};
use crate::errors::MalformedCertificate;

verus! {

/// Whether every certificate of a sequence parses as X.509.
pub open spec fn all_parse(certs: Seq<Seq<u8>>) -> bool {
    forall|i: int| 0 <= i < certs.len() ==> #[trigger] x509_parses(certs[i])
}

/// The position of the first certificate that does not parse, if any.
fn first_unparsed(certs: &Vec<Certificate>) -> (r: Option<usize>)
    ensures
        (r is None) == all_parse(chain_views(certs@)),
        (match r {
            Some(i) => i < certs@.len() && !x509_parses(certs@[i as int]@) && (forall|k: int|
                0 <= k < i ==> #[trigger] x509_parses(certs@[k]@)),
            None => true,
        }),
{
    let mut i: usize = 0;
    while i < certs.len()
        invariant
            i <= certs@.len(),
            forall|k: int| 0 <= k < i ==> #[trigger] x509_parses(certs@[k]@),
        decreases certs@.len() - i,
    {
        if !parse_ok(certs[i].der.as_slice()) {
            proof {
                assert(chain_views(certs@)[i as int] == certs@[i as int]@);
            }
            return Some(i);
        }
        i = i + 1;
    }
    proof {
        assert forall|k: int| 0 <= k < certs@.len() implies #[trigger] x509_parses(
            chain_views(certs@)[k],
        ) by {
            assert(chain_views(certs@)[k] == certs@[k]@);
        }
    }
    None
}

/// The set of trust anchors that peer chains are validated against. Built
/// once and never mutated after construction; every anchor is an equally
/// valid terminal for chain validation.
pub struct TrustStore {
    pub anchors: Vec<Certificate>,
}

impl View for TrustStore {
    type V = Seq<Seq<u8>>;

    open spec fn view(&self) -> Seq<Seq<u8>> {
        chain_views(self.anchors@)
    }
}

impl TrustStore {
    /// Build a store from CA certificates. Refused if any input cannot be
    /// parsed as DER X.509, naming the first offender; the process must not
    /// start accepting or connecting with invalid trust material.
    pub fn build(ca_certificates: Vec<Certificate>) -> (r: Result<
        TrustStore,
        MalformedCertificate,
    >)
        ensures
            (r is Ok) == all_parse(chain_views(ca_certificates@)),
            (match r {
                Ok(store) => store@ == chain_views(ca_certificates@),
                Err(e) => e.index < ca_certificates@.len() && !x509_parses(
                    ca_certificates@[e.index as int]@,
                ),
            }),
    {
        match first_unparsed(&ca_certificates) {
            Some(i) => Err(MalformedCertificate { index: i }),
            None => Ok(TrustStore { anchors: ca_certificates }),
        }
    }

    /// How many anchors the store holds.
    pub fn len(&self) -> (r: usize)
        ensures
            r == self@.len(),
    {
        self.anchors.len()
    }
}

/// A private key and the certificate chain bound to one endpoint, presented
/// as that endpoint's identity on every connection.
pub struct Identity {
    pub key: Vec<u8>,
    pub chain: Vec<Certificate>,
}

impl Identity {
    /// Bind local key material at startup. Refused if any certificate of the
    /// chain cannot be parsed as DER X.509, naming the first offender.
    pub fn build(key: Vec<u8>, chain: Vec<Certificate>) -> (r: Result<
        Identity,
        MalformedCertificate,
    >)
        ensures
            (r is Ok) == all_parse(chain_views(chain@)),
            (match r {
                Ok(id) => id.key@ == key@ && id.chain@ == chain@,
                Err(e) => e.index < chain@.len() && !x509_parses(chain@[e.index as int]@),
            }),
    {
        match first_unparsed(&chain) {
            Some(i) => Err(MalformedCertificate { index: i }),
            None => Ok(Identity { key, chain }),
        }
    }
}

} // verus!
